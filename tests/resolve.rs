use mp4::table::{
    resolve_samples, Sample, SampleSizes, SampleTables, SampleToChunk, TableError, TimeToSample,
};

fn run(first_chunk: u32, samples_per_chunk: u32) -> SampleToChunk {
    SampleToChunk { first_chunk, samples_per_chunk }
}

fn dur(sample_count: u32, sample_delta: u32) -> TimeToSample {
    TimeToSample { sample_count, sample_delta }
}

fn sample(chunk_index: usize, chunk_offset: u64, index: usize, offset: u64, size: u32, delta: u32) -> Sample {
    Sample { chunk_index, chunk_offset, index, offset, size, delta }
}

#[test]
fn two_chunks_of_uniform_samples() {
    let t = SampleTables {
        chunk_offsets: vec![100, 500],
        sample_to_chunk: vec![run(1, 2)],
        sample_sizes: SampleSizes::Uniform(50),
        time_to_sample: vec![dur(2, 1000)],
    };
    let v = resolve_samples(&t).unwrap();
    assert_eq!(
        v,
        vec![
            sample(0, 100, 0, 100, 50, 1000),
            sample(0, 100, 1, 150, 50, 1000),
            sample(1, 500, 2, 500, 50, 1000),
            sample(1, 500, 3, 550, 50, 1000),
        ]
    );
}

#[test]
fn zero_size_in_table_fails() {
    let t = SampleTables {
        chunk_offsets: vec![0],
        sample_to_chunk: vec![run(1, 2)],
        sample_sizes: SampleSizes::PerSample(vec![10, 0]),
        time_to_sample: vec![dur(2, 40)],
    };
    assert_eq!(resolve_samples(&t), Err(TableError::ZeroSampleSize { sample_index: 1 }));
}

#[test]
fn zero_uniform_size_fails() {
    let t = SampleTables {
        chunk_offsets: vec![0],
        sample_to_chunk: vec![run(1, 1)],
        sample_sizes: SampleSizes::Uniform(0),
        time_to_sample: vec![dur(1, 40)],
    };
    assert_eq!(resolve_samples(&t), Err(TableError::ZeroSampleSize { sample_index: 0 }));
}

#[test]
fn missing_sample_to_chunk_fails() {
    let t = SampleTables {
        chunk_offsets: vec![0],
        sample_to_chunk: vec![],
        sample_sizes: SampleSizes::Uniform(4),
        time_to_sample: vec![dur(1, 40)],
    };
    assert_eq!(resolve_samples(&t), Err(TableError::MissingSampleToChunk));
}

#[test]
fn chunk_without_samples_fails() {
    let t = SampleTables {
        chunk_offsets: vec![0, 10],
        sample_to_chunk: vec![run(1, 1), run(2, 0)],
        sample_sizes: SampleSizes::Uniform(4),
        time_to_sample: vec![dur(1, 40)],
    };
    assert_eq!(resolve_samples(&t), Err(TableError::EmptyChunk { chunk_index: 1 }));
}

#[test]
fn missing_durations_fail() {
    let t = SampleTables {
        chunk_offsets: vec![0],
        sample_to_chunk: vec![run(1, 1)],
        sample_sizes: SampleSizes::Uniform(4),
        time_to_sample: vec![],
    };
    assert_eq!(resolve_samples(&t), Err(TableError::MissingDuration { sample_index: 0 }));
}

#[test]
fn offset_past_u64_fails() {
    let t = SampleTables {
        chunk_offsets: vec![u64::MAX - 5],
        sample_to_chunk: vec![run(1, 2)],
        sample_sizes: SampleSizes::Uniform(10),
        time_to_sample: vec![dur(2, 1)],
    };
    assert_eq!(resolve_samples(&t), Err(TableError::OffsetOverflow { sample_index: 0 }));
}

#[test]
fn last_sample_may_end_at_u64_max() {
    let t = SampleTables {
        chunk_offsets: vec![u64::MAX - 10],
        sample_to_chunk: vec![run(1, 1)],
        sample_sizes: SampleSizes::Uniform(10),
        time_to_sample: vec![dur(1, 1)],
    };
    assert_eq!(resolve_samples(&t), Ok(vec![sample(0, u64::MAX - 10, 0, u64::MAX - 10, 10, 1)]));
}

#[test]
fn no_chunks_no_samples() {
    let t = SampleTables {
        chunk_offsets: vec![],
        sample_to_chunk: vec![run(1, 3)],
        sample_sizes: SampleSizes::Uniform(4),
        time_to_sample: vec![],
    };
    assert_eq!(resolve_samples(&t), Ok(vec![]));
}

#[test]
fn short_size_table_keeps_whole_chunks() {
    let t = SampleTables {
        chunk_offsets: vec![1000, 2000],
        sample_to_chunk: vec![run(1, 2)],
        sample_sizes: SampleSizes::PerSample(vec![10, 20, 30]),
        time_to_sample: vec![dur(4, 7)],
    };
    assert_eq!(
        resolve_samples(&t),
        Ok(vec![sample(0, 1000, 0, 1000, 10, 7), sample(0, 1000, 1, 1010, 20, 7)])
    );
}

#[test]
fn size_table_that_fits_exactly_is_used_whole() {
    let t = SampleTables {
        chunk_offsets: vec![1000, 2000],
        sample_to_chunk: vec![run(1, 2)],
        sample_sizes: SampleSizes::PerSample(vec![10, 20, 30, 40]),
        time_to_sample: vec![dur(4, 7)],
    };
    let v = resolve_samples(&t).unwrap();
    assert_eq!(v.len(), 4);
    assert_eq!(v[3], sample(1, 2000, 3, 2030, 40, 7));
}

#[test]
fn per_sample_offsets_accumulate_within_chunk() {
    let t = SampleTables {
        chunk_offsets: vec![100],
        sample_to_chunk: vec![run(1, 3)],
        sample_sizes: SampleSizes::PerSample(vec![10, 20, 30]),
        time_to_sample: vec![dur(3, 5)],
    };
    let v = resolve_samples(&t).unwrap();
    let offsets: Vec<u64> = v.iter().map(|s| s.offset).collect();
    assert_eq!(offsets, vec![100, 110, 130]);
    for (i, s) in v.iter().enumerate() {
        assert_eq!(s.index, i);
        assert_eq!(s.chunk_offset, 100);
    }
}

#[test]
fn sample_to_chunk_runs_switch_at_their_first_chunk() {
    let t = SampleTables {
        chunk_offsets: vec![0, 100, 200, 300],
        sample_to_chunk: vec![run(1, 1), run(3, 2)],
        sample_sizes: SampleSizes::Uniform(8),
        time_to_sample: vec![dur(6, 1)],
    };
    let v = resolve_samples(&t).unwrap();
    let where_: Vec<(usize, u64)> = v.iter().map(|s| (s.chunk_index, s.offset)).collect();
    assert_eq!(where_, vec![(0, 0), (1, 100), (2, 200), (2, 208), (3, 300), (3, 308)]);
}

#[test]
fn durations_follow_runs_and_last_run_extends() {
    let t = SampleTables {
        chunk_offsets: vec![0],
        sample_to_chunk: vec![run(1, 5)],
        sample_sizes: SampleSizes::Uniform(1),
        time_to_sample: vec![dur(1, 10), dur(0, 99), dur(2, 20), dur(1, 30)],
    };
    let v = resolve_samples(&t).unwrap();
    let deltas: Vec<u32> = v.iter().map(|s| s.delta).collect();
    assert_eq!(deltas, vec![10, 20, 20, 30, 30]);
}

#[test]
fn sample_count_is_sum_over_chunks() {
    let t = SampleTables {
        chunk_offsets: vec![0, 50, 90],
        sample_to_chunk: vec![run(1, 2), run(2, 1), run(3, 4)],
        sample_sizes: SampleSizes::Uniform(5),
        time_to_sample: vec![dur(7, 3)],
    };
    let v = resolve_samples(&t).unwrap();
    assert_eq!(v.len(), 2 + 1 + 4);
    assert_eq!(v[6], sample(2, 90, 6, 105, 5, 3));
}
