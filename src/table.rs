use vstd::prelude::*;

verus! {

/// One run of the sample-to-chunk table: from chunk `first_chunk` (counted
/// from 1) on, each chunk holds `samples_per_chunk` samples.
#[derive(Clone, Copy, Debug, PartialEq, Eq, Structural)]
pub struct SampleToChunk {
    pub first_chunk: u32,
    pub samples_per_chunk: u32,
}

/// One run of the time-to-sample table: `sample_count` consecutive samples,
/// each lasting `sample_delta`.
#[derive(Clone, Copy, Debug, PartialEq, Eq, Structural)]
pub struct TimeToSample {
    pub sample_count: u32,
    pub sample_delta: u32,
}

/// The sample-size table: one size for every sample, or one size per sample.
#[derive(Clone, Debug)]
pub enum SampleSizes {
    Uniform(u32),
    PerSample(Vec<u32>),
}

/// The four tables of a track from which its samples are found. A table
/// that the track lacks is empty (a lacking size table is `Uniform(0)`).
#[derive(Clone, Debug)]
pub struct SampleTables {
    /// Absolute byte offset of each chunk.
    pub chunk_offsets: Vec<u64>,
    pub sample_to_chunk: Vec<SampleToChunk>,
    pub sample_sizes: SampleSizes,
    pub time_to_sample: Vec<TimeToSample>,
}

/// One sample: the chunk it lies in, its number in the track, where its
/// bytes lie, how many there are, and how long it lasts.
#[derive(Clone, Copy, Debug, PartialEq, Eq, Structural)]
pub struct Sample {
    pub chunk_index: usize,
    pub chunk_offset: u64,
    pub index: usize,
    pub offset: u64,
    pub size: u32,
    pub delta: u32,
}

/// Why the samples of a track could not be resolved.
#[derive(Clone, Copy, Debug, PartialEq, Eq, Structural)]
pub enum TableError {
    /// The sample-to-chunk table is empty.
    MissingSampleToChunk,
    /// The run that applies to this chunk gives it no samples.
    EmptyChunk { chunk_index: usize },
    /// This sample's size is zero.
    ZeroSampleSize { sample_index: usize },
    /// The time-to-sample table is empty, so this sample has no duration.
    MissingDuration { sample_index: usize },
    /// This sample's offset does not fit in 64 bits.
    OffsetOverflow { sample_index: usize },
}

/// Scans the runs from `j` on for the last one that starts at chunk `key`
/// (counted from 1); `cur` where none does.
pub open spec fn scan_runs(runs: Seq<SampleToChunk>, j: int, cur: int, key: int) -> int
    decreases runs.len() - j,
{
    if j >= runs.len() {
        cur
    } else {
        scan_runs(runs, j + 1, if runs[j].first_chunk as int == key { j } else { cur }, key)
    }
}

/// The run that applies to chunk `c` (counted from 0): the cursor starts at
/// the first run and, chunk by chunk, moves to the run that starts there.
pub open spec fn run_cursor(runs: Seq<SampleToChunk>, c: nat) -> int
    decreases c,
{
    let prev = if c == 0 {
        0
    } else {
        run_cursor(runs, (c - 1) as nat)
    };
    scan_runs(runs, prev, prev, c as int + 1)
}

/// The number of samples in chunk `c`.
pub open spec fn samples_in_chunk(t: SampleTables, c: int) -> int {
    t.sample_to_chunk@[run_cursor(t.sample_to_chunk@, c as nat)].samples_per_chunk as int
}

/// The base offset of chunk `c`.
pub open spec fn chunk_base(t: SampleTables, c: int) -> int {
    if 0 <= c < t.chunk_offsets@.len() {
        t.chunk_offsets@[c] as int
    } else {
        0
    }
}

/// The size of sample `i`.
pub open spec fn size_at(sizes: SampleSizes, i: int) -> u32 {
    match sizes {
        SampleSizes::Uniform(n) => n,
        SampleSizes::PerSample(v) => if 0 <= i < v@.len() {
            v@[i]
        } else {
            0
        },
    }
}

/// Whether the size table has an entry for each of the first `end` samples.
pub open spec fn sizes_cover(sizes: SampleSizes, end: int) -> bool {
    match sizes {
        SampleSizes::Uniform(_) => true,
        SampleSizes::PerSample(v) => end <= v@.len(),
    }
}

/// The delta of sample `s`, scanning the runs from `k`, whose first sample
/// is `start`; the last run also covers every sample after it.
pub open spec fn delta_from(runs: Seq<TimeToSample>, k: int, start: int, s: int) -> Option<u32>
    decreases runs.len() - k,
{
    if k < 0 || k >= runs.len() {
        None
    } else if s < start + runs[k].sample_count || k == runs.len() - 1 {
        Some(runs[k].sample_delta)
    } else {
        delta_from(runs, k + 1, start + runs[k].sample_count, s)
    }
}

/// The delta of sample `s`: that of the run that covers it.
pub open spec fn delta_at(runs: Seq<TimeToSample>, s: int) -> Option<u32> {
    delta_from(runs, 0, 0, s)
}

/// The walk over the tables, chunk `c`, sample `j` of that chunk, whose
/// offset is `cur`, with the samples in `acc` already found.
///
/// At the start of a chunk: a chunk without samples is an error, and a
/// chunk whose samples the per-sample size table does not all cover ends
/// the walk with what was found. Each sample then needs a size other than
/// zero and a duration, and the next sample of the chunk an offset that
/// fits in 64 bits.
pub open spec fn walk(t: SampleTables, c: int, j: int, cur: int, acc: Seq<Sample>) -> Result<
    Seq<Sample>,
    TableError,
>
    decreases t.chunk_offsets@.len() - c, samples_in_chunk(t, c) + 1 - j,
{
    if c < 0 || c >= t.chunk_offsets@.len() {
        Ok(acc)
    } else if j <= 0 && samples_in_chunk(t, c) == 0 {
        Err(TableError::EmptyChunk { chunk_index: c as usize })
    } else if j <= 0 && !sizes_cover(t.sample_sizes, acc.len() + samples_in_chunk(t, c)) {
        Ok(acc)
    } else if j >= samples_in_chunk(t, c) {
        walk(t, c + 1, 0, chunk_base(t, c + 1), acc)
    } else {
        let i = acc.len() as int;
        let size = size_at(t.sample_sizes, i);
        if size == 0 {
            Err(TableError::ZeroSampleSize { sample_index: i as usize })
        } else {
            match delta_at(t.time_to_sample@, i) {
                None => Err(TableError::MissingDuration { sample_index: i as usize }),
                Some(d) => {
                    if j + 1 < samples_in_chunk(t, c) && cur + size > u64::MAX {
                        Err(TableError::OffsetOverflow { sample_index: i as usize })
                    } else {
                        let s = Sample {
                            chunk_index: c as usize,
                            chunk_offset: chunk_base(t, c) as u64,
                            index: i as usize,
                            offset: cur as u64,
                            size,
                            delta: d,
                        };
                        walk(t, c, j + 1, cur + size, acc.push(s))
                    }
                },
            }
        }
    }
}

/// The samples of a track, in storage order, or why they cannot be found.
pub open spec fn resolve_spec(t: SampleTables) -> Result<Seq<Sample>, TableError> {
    if t.sample_to_chunk@.len() == 0 {
        Err(TableError::MissingSampleToChunk)
    } else {
        walk(t, 0, 0, chunk_base(t, 0), seq![])
    }
}

proof fn lemma_scan_bounds(runs: Seq<SampleToChunk>, j: int, cur: int, key: int)
    requires
        0 <= cur < runs.len(),
        0 <= j,
    ensures
        0 <= scan_runs(runs, j, cur, key) < runs.len(),
        scan_runs(runs, j, cur, key) == cur || scan_runs(runs, j, cur, key) >= j,
    decreases runs.len() - j,
{
    if j < runs.len() {
        lemma_scan_bounds(runs, j + 1, if runs[j].first_chunk as int == key { j } else { cur }, key);
    }
}

/// The run cursor stays among the runs.
pub proof fn lemma_run_cursor_bounds(runs: Seq<SampleToChunk>, c: nat)
    requires
        runs.len() > 0,
    ensures
        0 <= run_cursor(runs, c) < runs.len(),
    decreases c,
{
    if c > 0 {
        lemma_run_cursor_bounds(runs, (c - 1) as nat);
    }
    let prev = if c == 0 {
        0
    } else {
        run_cursor(runs, (c - 1) as nat)
    };
    lemma_scan_bounds(runs, prev, prev, c as int + 1);
}

/// The run cursor never moves back: the run that applies to a chunk comes
/// no earlier than the one that applies to the chunk before it.
pub proof fn lemma_run_cursor_forward(runs: Seq<SampleToChunk>, c: nat)
    requires
        runs.len() > 0,
    ensures
        run_cursor(runs, c) <= run_cursor(runs, c + 1),
{
    lemma_run_cursor_bounds(runs, c);
    let prev = run_cursor(runs, c);
    lemma_scan_bounds(runs, prev, prev, c as int + 2);
}

/// Moves the run cursor on to the last run at or after it that starts at
/// chunk `key`.
fn advance_cursor(runs: &Vec<SampleToChunk>, cursor: usize, key: usize) -> (r: usize)
    requires
        cursor < runs@.len(),
    ensures
        r == scan_runs(runs@, cursor as int, cursor as int, key as int),
        r < runs@.len(),
{
    let mut j: usize = cursor;
    let mut cur: usize = cursor;
    while j < runs.len()
        invariant
            cursor <= j <= runs@.len(),
            cur < runs@.len(),
            scan_runs(runs@, j as int, cur as int, key as int) == scan_runs(
                runs@,
                cursor as int,
                cursor as int,
                key as int,
            ),
        decreases runs@.len() - j,
    {
        if runs[j].first_chunk as usize == key {
            cur = j;
        }
        j += 1;
    }
    cur
}

/// The size of sample `i`.
fn size_of_sample(sizes: &SampleSizes, i: usize) -> (r: u32)
    requires
        sizes_cover(*sizes, i + 1),
    ensures
        r == size_at(*sizes, i as int),
{
    match sizes {
        SampleSizes::Uniform(n) => *n,
        SampleSizes::PerSample(v) => v[i],
    }
}

/// The delta of sample `s`, from the run that covers it.
fn delta_of_sample(runs: &Vec<TimeToSample>, s: usize) -> (r: Option<u32>)
    ensures
        r == delta_at(runs@, s as int),
{
    let mut k: usize = 0;
    let mut start: u64 = 0;
    while k < runs.len()
        invariant
            k <= runs@.len(),
            start <= s,
            delta_from(runs@, k as int, start as int, s as int) == delta_at(runs@, s as int),
        decreases runs@.len() - k,
    {
        let count = runs[k].sample_count as u64;
        if count > (s as u64) - start || k + 1 == runs.len() {
            return Some(runs[k].sample_delta);
        }
        start = start + count;
        k += 1;
    }
    None
}

/// Resolves the samples of a track, chunk by chunk and, within a chunk,
/// sample by sample: each with its chunk's base offset plus the sizes of
/// the samples before it in that chunk, its size, and its duration.
pub fn resolve_samples(t: &SampleTables) -> (r: Result<Vec<Sample>, TableError>)
    ensures
        match r {
            Ok(v) => resolve_spec(*t) == Ok::<Seq<Sample>, TableError>(v@),
            Err(e) => resolve_spec(*t) == Err::<Seq<Sample>, TableError>(e),
        },
{
    let runs = &t.sample_to_chunk;
    if runs.len() == 0 {
        return Err(TableError::MissingSampleToChunk);
    }
    let n = t.chunk_offsets.len();
    let mut out: Vec<Sample> = Vec::new();
    let mut cursor: usize = 0;
    let mut c: usize = 0;
    while c < n
        invariant
            c <= n,
            n == t.chunk_offsets@.len(),
            runs == &t.sample_to_chunk,
            runs@.len() > 0,
            cursor < runs@.len(),
            c > 0 ==> cursor == run_cursor(runs@, (c - 1) as nat),
            c == 0 ==> cursor == 0,
            sizes_cover(t.sample_sizes, out@.len() as int),
            resolve_spec(*t) == walk(*t, c as int, 0, chunk_base(*t, c as int), out@),
        decreases n - c,
    {
        cursor = advance_cursor(runs, cursor, c + 1);
        assert(cursor == run_cursor(runs@, c as nat));
        let per_chunk = runs[cursor].samples_per_chunk;
        if per_chunk == 0 {
            return Err(TableError::EmptyChunk { chunk_index: c });
        }
        match &t.sample_sizes {
            SampleSizes::PerSample(v) => {
                if per_chunk as usize > v.len() - out.len() {
                    return Ok(out);
                }
            },
            SampleSizes::Uniform(_) => {},
        }
        let base = t.chunk_offsets[c];
        let ghost first = out@.len() as int;
        let mut cur: u64 = base;
        let ghost mut next: int = base as int;
        let mut j: u32 = 0;
        while j < per_chunk
            invariant
                c < n,
                n == t.chunk_offsets@.len(),
                per_chunk as int == samples_in_chunk(*t, c as int),
                per_chunk > 0,
                j <= per_chunk,
                out@.len() == first + j,
                sizes_cover(t.sample_sizes, first + per_chunk),
                j == 0 ==> cur == base,
                j < per_chunk ==> next == cur,
                base == chunk_base(*t, c as int),
                resolve_spec(*t) == walk(*t, c as int, j as int, next, out@),
            decreases per_chunk - j,
        {
            let i = out.len();
            let size = size_of_sample(&t.sample_sizes, i);
            if size == 0 {
                return Err(TableError::ZeroSampleSize { sample_index: i });
            }
            let delta = match delta_of_sample(&t.time_to_sample, i) {
                Some(d) => d,
                None => return Err(TableError::MissingDuration { sample_index: i }),
            };
            let s = Sample {
                chunk_index: c,
                chunk_offset: base,
                index: i,
                offset: cur,
                size,
                delta,
            };
            if j + 1 < per_chunk && size as u64 > u64::MAX - cur {
                return Err(TableError::OffsetOverflow { sample_index: i });
            }
            out.push(s);
            if j + 1 < per_chunk {
                cur = cur + size as u64;
            }
            proof {
                next = next + size;
            }
            j += 1;
        }
        proof {
            lemma_run_cursor_bounds(runs@, (c + 1) as nat);
        }
        c += 1;
    }
    Ok(out)
}

/// The first sample of chunk `c`: the samples of the chunks before it.
pub open spec fn chunk_start(t: SampleTables, c: int) -> int
    decreases c,
{
    if c <= 0 {
        0
    } else {
        chunk_start(t, c - 1) + samples_in_chunk(t, c - 1)
    }
}

/// The sum of the sizes of samples `a` up to, not including, `b`.
pub open spec fn size_sum(sizes: SampleSizes, a: int, b: int) -> int
    decreases b - a,
{
    if b <= a {
        0
    } else {
        size_sum(sizes, a, b - 1) + size_at(sizes, b - 1)
    }
}

/// Sample `s` is the `i`-th of the track and lies where its chunk's tables
/// put it: in its chunk's span of sample numbers, at the chunk's base
/// offset plus the sizes of the samples before it in that chunk, with the
/// size and the delta that the tables give it.
pub open spec fn laid_out(t: SampleTables, s: Sample, i: int) -> bool {
    let c = s.chunk_index as int;
    &&& 0 <= c < t.chunk_offsets@.len()
    &&& chunk_start(t, c) <= i < chunk_start(t, c + 1)
    &&& s.index == i as usize
    &&& s.chunk_offset == t.chunk_offsets@[c]
    &&& s.offset as int == t.chunk_offsets@[c] + size_sum(t.sample_sizes, chunk_start(t, c), i)
    &&& s.size == size_at(t.sample_sizes, i)
    &&& delta_at(t.time_to_sample@, i) == Some(s.delta)
}

proof fn lemma_size_sum_nonneg(sizes: SampleSizes, a: int, b: int)
    ensures
        size_sum(sizes, a, b) >= 0,
    decreases b - a,
{
    if b > a {
        lemma_size_sum_nonneg(sizes, a, b - 1);
    }
}

proof fn lemma_chunk_start_mono(t: SampleTables, a: int, b: int)
    requires
        0 <= a <= b,
        t.sample_to_chunk@.len() > 0,
    ensures
        chunk_start(t, a) <= chunk_start(t, b),
    decreases b - a,
{
    if a < b {
        lemma_chunk_start_mono(t, a, b - 1);
        lemma_run_cursor_bounds(t.sample_to_chunk@, (b - 1) as nat);
    }
}

proof fn lemma_walk_layout(t: SampleTables, c: int, j: int, cur: int, acc: Seq<Sample>)
    requires
        t.sample_to_chunk@.len() > 0,
        t.chunk_offsets@.len() <= usize::MAX,
        0 <= c <= t.chunk_offsets@.len(),
        c == t.chunk_offsets@.len() ==> j == 0,
        0 <= j,
        c < t.chunk_offsets@.len() ==> j <= samples_in_chunk(t, c),
        acc.len() == chunk_start(t, c) + j,
        c < t.chunk_offsets@.len() ==> cur == t.chunk_offsets@[c] + size_sum(
            t.sample_sizes,
            chunk_start(t, c),
            chunk_start(t, c) + j,
        ),
        c < t.chunk_offsets@.len() && j < samples_in_chunk(t, c) ==> cur <= u64::MAX,
        forall|i: int| 0 <= i < acc.len() ==> laid_out(t, #[trigger] acc[i], i),
        walk(t, c, j, cur, acc) is Ok,
    ensures
        ({
            let v = walk(t, c, j, cur, acc)->Ok_0;
            &&& forall|i: int| 0 <= i < v.len() ==> laid_out(t, #[trigger] v[i], i)
            &&& sizes_cover(t.sample_sizes, chunk_start(t, t.chunk_offsets@.len() as int))
                ==> v.len() == chunk_start(t, t.chunk_offsets@.len() as int)
        }),
    decreases t.chunk_offsets@.len() - c, samples_in_chunk(t, c) + 1 - j,
{
    let n = t.chunk_offsets@.len() as int;
    if c >= n {
    } else if j <= 0 && samples_in_chunk(t, c) == 0 {
    } else if j <= 0 && !sizes_cover(t.sample_sizes, acc.len() + samples_in_chunk(t, c)) {
        lemma_chunk_start_mono(t, c + 1, n);
    } else if j >= samples_in_chunk(t, c) {
        lemma_walk_layout(t, c + 1, 0, chunk_base(t, c + 1), acc);
    } else {
        let i = acc.len() as int;
        let size = size_at(t.sample_sizes, i);
        let d = delta_at(t.time_to_sample@, i)->Some_0;
        let s = Sample {
            chunk_index: c as usize,
            chunk_offset: chunk_base(t, c) as u64,
            index: i as usize,
            offset: cur as u64,
            size,
            delta: d,
        };
        let acc2 = acc.push(s);
        lemma_size_sum_nonneg(t.sample_sizes, chunk_start(t, c), i);
        assert(laid_out(t, s, i));
        assert forall|k: int| 0 <= k < acc2.len() implies laid_out(t, #[trigger] acc2[k], k) by {
            if k < acc.len() {
                assert(acc2[k] == acc[k]);
            }
        }
        lemma_walk_layout(t, c, j + 1, cur + size, acc2);
    }
}

/// The resolved samples are laid out as the tables say: each lies at its
/// chunk's base offset plus the sizes of the samples before it in that
/// chunk, with no gap and no overlap; and where the size table covers every
/// chunk, there are exactly as many samples as the chunks hold together.
pub proof fn lemma_resolved_layout(t: SampleTables)
    requires
        resolve_spec(t) is Ok,
    ensures
        ({
            let v = resolve_spec(t)->Ok_0;
            &&& forall|i: int| 0 <= i < v.len() ==> laid_out(t, #[trigger] v[i], i)
            &&& sizes_cover(t.sample_sizes, chunk_start(t, t.chunk_offsets@.len() as int))
                ==> v.len() == chunk_start(t, t.chunk_offsets@.len() as int)
        }),
{
    assert(t.chunk_offsets.len() == t.chunk_offsets@.len());
    let e: Seq<Sample> = seq![];
    lemma_walk_layout(t, 0, 0, chunk_base(t, 0), e);
}

/// The first sample of time-to-sample run `k`: the counts of the runs
/// before it.
pub open spec fn run_start(runs: Seq<TimeToSample>, k: int) -> int
    decreases k,
{
    if k <= 0 {
        0
    } else {
        run_start(runs, k - 1) + runs[k - 1].sample_count
    }
}

/// Run `k` covers sample `s`: its span holds `s`, or it is the last run
/// and `s` comes after it.
pub open spec fn run_covers(runs: Seq<TimeToSample>, k: int, s: int) -> bool {
    &&& 0 <= k < runs.len()
    &&& run_start(runs, k) <= s
    &&& s < run_start(runs, k + 1) || k == runs.len() - 1
}

proof fn lemma_run_start_mono(runs: Seq<TimeToSample>, a: int, b: int)
    requires
        0 <= a <= b,
    ensures
        run_start(runs, a) <= run_start(runs, b),
    decreases b - a,
{
    if a < b {
        lemma_run_start_mono(runs, a, b - 1);
    }
}

proof fn lemma_delta_from(runs: Seq<TimeToSample>, k: int, s: int)
    requires
        0 <= k <= runs.len(),
        run_start(runs, k) <= s,
    ensures
        delta_from(runs, k, run_start(runs, k), s) is Some <==> k < runs.len(),
        k < runs.len() ==> exists|m: int| k <= m && run_covers(runs, m, s),
        forall|m: int|
            k <= m && #[trigger] run_covers(runs, m, s) ==> delta_from(runs, k, run_start(runs, k), s)
                == Some(runs[m].sample_delta),
    decreases runs.len() - k,
{
    if k < runs.len() {
        if s < run_start(runs, k + 1) || k == runs.len() - 1 {
            assert(run_covers(runs, k, s));
            assert forall|m: int| k <= m && #[trigger] run_covers(runs, m, s) implies m == k by {
                if m > k {
                    lemma_run_start_mono(runs, k + 1, m);
                }
            }
        } else {
            lemma_delta_from(runs, k + 1, s);
        }
    }
}

/// The time-to-sample runs partition the sample numbers: while there is a
/// run, every sample is covered by exactly one (the last run covering all
/// that come after it), and its delta is that run's delta.
pub proof fn lemma_duration_runs(runs: Seq<TimeToSample>, s: int)
    requires
        0 <= s,
    ensures
        delta_at(runs, s) is Some <==> runs.len() > 0,
        runs.len() > 0 ==> exists|k: int| run_covers(runs, k, s),
        forall|k: int| #[trigger] run_covers(runs, k, s) ==> delta_at(runs, s) == Some(
            runs[k].sample_delta,
        ),
        forall|k1: int, k2: int|
            #[trigger] run_covers(runs, k1, s) && #[trigger] run_covers(runs, k2, s) ==> k1 == k2,
{
    lemma_delta_from(runs, 0, s);
    assert forall|k1: int, k2: int|
        #[trigger] run_covers(runs, k1, s) && #[trigger] run_covers(runs, k2, s) implies k1
        == k2 by {
        if k1 < k2 {
            lemma_run_start_mono(runs, k1 + 1, k2);
        } else if k2 < k1 {
            lemma_run_start_mono(runs, k2 + 1, k1);
        }
    }
}

/// Runs are visited in order: a later sample is covered by the same run as
/// an earlier one or by a later run.
pub proof fn lemma_runs_in_order(runs: Seq<TimeToSample>, s1: int, s2: int, k1: int, k2: int)
    requires
        s1 <= s2,
        run_covers(runs, k1, s1),
        run_covers(runs, k2, s2),
    ensures
        k1 <= k2,
{
    if k2 < k1 {
        lemma_run_start_mono(runs, k2 + 1, k1);
    }
}

} // verus!
