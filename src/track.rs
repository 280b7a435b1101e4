use vstd::prelude::*;

use crate::config::{config_matches, parse_avc_config, AVCVideoConfigurationRecord, ConfigError};
use crate::table::{resolve_samples, resolve_spec, Sample, SampleTables, TableError};

verus! {

/// The 'vpcC' box of a VP8 or VP9 track, as mp4parse decodes it; carried
/// through as it is.
#[verifier::external_type_specification]
#[verifier::external_body]
pub struct ExVPxConfigBox(mp4parse::VPxConfigBox);

#[derive(Clone, Copy, Debug, PartialEq, Eq, Structural)]
#[allow(clippy::upper_case_acronyms)]
pub enum AudioCodec {
    AAC,
    Opus,
}

#[derive(Clone, Copy, Debug, PartialEq, Eq, Structural, PartialOrd, Ord, Hash)]
pub enum VideoCodec {
    H264,
    VP8,
    VP9,
    VP10,
}

/// What every video track shows: its codec, its size in pixels, its
/// samples, and its decoder configuration record where it has one.
pub trait VideoTrack {
    spec fn codec_spec(&self) -> VideoCodec;

    spec fn width_spec(&self) -> u32;

    spec fn height_spec(&self) -> u32;

    spec fn samples_spec(&self) -> Seq<Sample>;

    spec fn avc_config_spec(&self) -> Option<AVCVideoConfigurationRecord>;

    fn codec(&self) -> (r: VideoCodec)
        ensures
            r == self.codec_spec(),
    ;

    fn width(&self) -> (r: u32)
        ensures
            r == self.width_spec(),
    ;

    fn height(&self) -> (r: u32)
        ensures
            r == self.height_spec(),
    ;

    fn samples(&self) -> (r: &[Sample])
        ensures
            r@ == self.samples_spec(),
    ;

    fn avc_config_record(&self) -> (r: Option<&AVCVideoConfigurationRecord>)
        ensures
            match r {
                Some(c) => self.avc_config_spec() == Some(*c),
                None => self.avc_config_spec() is None,
            },
    ;

    /// The codec configuration box of a VP8 or VP9 track; an H.264 track
    /// has none.
    fn vpx_config_box(&self) -> (r: Option<&mp4parse::VPxConfigBox>)
        ensures
            self.codec_spec() == VideoCodec::H264 ==> r is None,
    ;
}

/// Why an H.264 track could not be built.
#[derive(Clone, Copy, Debug, PartialEq, Eq, Structural)]
pub enum TrackError {
    Table(TableError),
    Config(ConfigError),
}

/// An H.264 video track: its size, its samples in storage order, and its
/// decoder configuration record.
#[derive(Debug)]
pub struct H264VideoTrack {
    id: u32,
    width: u32,
    height: u32,
    samples: Vec<Sample>,
    avc_config_record: AVCVideoConfigurationRecord,
}

impl H264VideoTrack {
    pub closed spec fn id_spec(&self) -> u32 {
        self.id
    }

    /// Builds a track from its parts.
    pub fn new(
        id: u32,
        width: u32,
        height: u32,
        samples: Vec<Sample>,
        avc_config_record: AVCVideoConfigurationRecord,
    ) -> (r: H264VideoTrack)
        ensures
            r.id_spec() == id,
            r.width_spec() == width,
            r.height_spec() == height,
            r.samples_spec() == samples@,
            r.avc_config_spec() == Some(avc_config_record),
    {
        H264VideoTrack { id, width, height, samples, avc_config_record }
    }

    /// Builds a track from its sample tables and its configuration bytes:
    /// the samples are resolved first, then the record is parsed.
    pub fn from_tables(id: u32, width: u32, height: u32, tables: &SampleTables, config: &[u8]) -> (r:
        Result<H264VideoTrack, TrackError>)
        ensures
            match resolve_spec(*tables) {
                Err(e) => r == Err::<H264VideoTrack, TrackError>(TrackError::Table(e)),
                Ok(samples) => match r {
                    Ok(track) => {
                        &&& track.id_spec() == id
                        &&& track.width_spec() == width
                        &&& track.height_spec() == height
                        &&& track.samples_spec() == samples
                        &&& track.avc_config_spec() matches Some(rec)
                        &&& config_matches(config@, Ok::<AVCVideoConfigurationRecord, ConfigError>(rec))
                    },
                    Err(TrackError::Config(e)) => config_matches(
                        config@,
                        Err::<AVCVideoConfigurationRecord, ConfigError>(e),
                    ),
                    Err(TrackError::Table(_)) => false,
                },
            },
    {
        let samples = match resolve_samples(tables) {
            Ok(v) => v,
            Err(e) => return Err(TrackError::Table(e)),
        };
        let rec = match parse_avc_config(config) {
            Ok(rec) => rec,
            Err(e) => return Err(TrackError::Config(e)),
        };
        Ok(H264VideoTrack::new(id, width, height, samples, rec))
    }

    /// The track's number in its file.
    pub fn id(&self) -> (r: u32)
        ensures
            r == self.id_spec(),
    {
        self.id
    }
}

impl VideoTrack for H264VideoTrack {
    closed spec fn codec_spec(&self) -> VideoCodec {
        VideoCodec::H264
    }

    closed spec fn width_spec(&self) -> u32 {
        self.width
    }

    closed spec fn height_spec(&self) -> u32 {
        self.height
    }

    closed spec fn samples_spec(&self) -> Seq<Sample> {
        self.samples@
    }

    closed spec fn avc_config_spec(&self) -> Option<AVCVideoConfigurationRecord> {
        Some(self.avc_config_record)
    }

    fn codec(&self) -> (r: VideoCodec) {
        VideoCodec::H264
    }

    fn width(&self) -> (r: u32) {
        self.width
    }

    fn height(&self) -> (r: u32) {
        self.height
    }

    fn samples(&self) -> (r: &[Sample]) {
        self.samples.as_slice()
    }

    fn avc_config_record(&self) -> (r: Option<&AVCVideoConfigurationRecord>) {
        Some(&self.avc_config_record)
    }

    fn vpx_config_box(&self) -> (r: Option<&mp4parse::VPxConfigBox>) {
        None
    }
}

} // verus!
