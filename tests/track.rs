use mp4::config::ConfigError;
use mp4::table::{SampleSizes, SampleTables, SampleToChunk, TableError, TimeToSample};
use mp4::track::{H264VideoTrack, TrackError, VideoCodec, VideoTrack};

fn tables() -> SampleTables {
    SampleTables {
        chunk_offsets: vec![40],
        sample_to_chunk: vec![SampleToChunk { first_chunk: 1, samples_per_chunk: 2 }],
        sample_sizes: SampleSizes::PerSample(vec![12, 8]),
        time_to_sample: vec![TimeToSample { sample_count: 2, sample_delta: 512 }],
    }
}

const CONFIG: [u8; 7] = [1, 0x42, 0xc0, 0x1e, 0xff, 0xe0, 0];

#[test]
fn track_is_built_from_its_tables() {
    let t = H264VideoTrack::from_tables(1, 640, 360, &tables(), &CONFIG).unwrap();
    assert_eq!(t.id(), 1);
    assert_eq!(t.codec(), VideoCodec::H264);
    assert_eq!(t.width(), 640);
    assert_eq!(t.height(), 360);
    assert_eq!(t.samples().len(), 2);
    assert_eq!(t.samples()[1].offset, 52);
    assert_eq!(t.samples()[1].size, 8);
    let c = t.avc_config_record().unwrap();
    assert_eq!(c.profile, 0x42);
    assert_eq!(c.level, 0x1e);
}

#[test]
fn table_error_comes_first() {
    let mut bad = tables();
    bad.sample_to_chunk.clear();
    let r = H264VideoTrack::from_tables(1, 640, 360, &bad, &[2]);
    assert!(matches!(r, Err(TrackError::Table(TableError::MissingSampleToChunk))));
}

#[test]
fn config_error_is_reported() {
    let r = H264VideoTrack::from_tables(1, 640, 360, &tables(), &[2, 0, 0, 0, 0, 0, 0]);
    assert!(matches!(r, Err(TrackError::Config(ConfigError::UnsupportedVersion { version: 2 }))));
}
