use vstd::prelude::*;

verus! {

/// Why a decoder configuration record could not be read.
#[derive(Clone, Copy, Debug, PartialEq, Eq, Structural)]
pub enum ConfigError {
    /// A field or a declared length reaches past the end of the buffer.
    Truncated,
    /// The record's version is not 1.
    UnsupportedVersion { version: u8 },
}

/// The decoder configuration record of an H.264 track: profile, level, the
/// width of the length field in front of each unit, and the parameter sets.
#[derive(Clone, Debug)]
pub struct AVCVideoConfigurationRecord {
    pub version: u8,
    pub profile: u8,
    pub compatibility: u8,
    pub level: u8,
    /// The length in bytes, minus one, of the length field in front of each unit.
    pub length_size_minus_one: u8,
    pub sps: Vec<Vec<u8>>,
    pub pps: Vec<Vec<u8>>,
}

/// The views of a list of byte buffers.
pub open spec fn views_of(v: Seq<Vec<u8>>) -> Seq<Seq<u8>> {
    v.map_values(|b: Vec<u8>| b@)
}

/// A two-byte big-endian length at `pos`.
pub open spec fn be16_at(d: Seq<u8>, pos: int) -> int {
    d[pos] as int * 256 + d[pos + 1] as int
}

/// Reads `count` units, each behind a two-byte big-endian length, from
/// `pos` on, after the units already in `acc`; gives the units and the
/// position after the last, or `None` where one reaches past the end.
pub open spec fn units_from(d: Seq<u8>, pos: int, count: nat, acc: Seq<Seq<u8>>) -> Option<
    (Seq<Seq<u8>>, int),
>
    decreases count,
{
    if count == 0 {
        Some((acc, pos))
    } else if pos + 2 > d.len() {
        None
    } else if pos + 2 + be16_at(d, pos) > d.len() {
        None
    } else {
        let end = pos + 2 + be16_at(d, pos);
        units_from(d, end, (count - 1) as nat, acc.push(d.subrange(pos + 2, end)))
    }
}

/// The parameter sets of a record, or why there are none: the sequence
/// parameter sets and the picture parameter sets.
pub open spec fn config_sets(d: Seq<u8>) -> Result<(Seq<Seq<u8>>, Seq<Seq<u8>>), ConfigError> {
    if d.len() == 0 {
        Err(ConfigError::Truncated)
    } else if d[0] != 1 {
        Err(ConfigError::UnsupportedVersion { version: d[0] })
    } else if d.len() < 6 {
        Err(ConfigError::Truncated)
    } else {
        match units_from(d, 6, (d[5] & 31u8) as nat, seq![]) {
            None => Err(ConfigError::Truncated),
            Some((sps, end)) => {
                if end >= d.len() {
                    Err(ConfigError::Truncated)
                } else {
                    match units_from(d, end + 1, d[end] as nat, seq![]) {
                        None => Err(ConfigError::Truncated),
                        Some((pps, _)) => Ok((sps, pps)),
                    }
                }
            },
        }
    }
}

/// What `parse_avc_config` gives for `d`: the record that `d` holds, or the
/// error that `config_sets` names.
pub open spec fn config_matches(d: Seq<u8>, r: Result<AVCVideoConfigurationRecord, ConfigError>) -> bool {
    match r {
        Ok(rec) => {
            &&& config_sets(d) is Ok
            &&& rec.version == d[0]
            &&& rec.profile == d[1]
            &&& rec.compatibility == d[2]
            &&& rec.level == d[3]
            &&& rec.length_size_minus_one == d[4] & 3u8
            &&& views_of(rec.sps@) == config_sets(d)->Ok_0.0
            &&& views_of(rec.pps@) == config_sets(d)->Ok_0.1
        },
        Err(e) => config_sets(d) == Err::<(Seq<Seq<u8>>, Seq<Seq<u8>>), ConfigError>(e),
    }
}

/// Reads `count` units, each behind a two-byte big-endian length, from `pos` on.
fn read_units(d: &[u8], pos: usize, count: u8) -> (r: Option<(Vec<Vec<u8>>, usize)>)
    ensures
        match units_from(d@, pos as int, count as nat, seq![]) {
            None => r is None,
            Some((units, end)) => r matches Some((v, e)) && views_of(v@) == units && e == end,
        },
{
    let mut out: Vec<Vec<u8>> = Vec::new();
    let mut i: usize = pos;
    let mut k: u8 = 0;
    proof {
        assert(views_of(out@) =~= seq![]);
    }
    while k < count
        invariant
            k <= count,
            i <= d@.len() || k == 0,
            units_from(d@, pos as int, count as nat, seq![]) == units_from(
                d@,
                i as int,
                (count - k) as nat,
                views_of(out@),
            ),
        decreases count - k,
    {
        if i > d.len() || d.len() - i < 2 {
            return None;
        }
        let len = (d[i] as usize) * 256 + (d[i + 1] as usize);
        if len > d.len() - i - 2 {
            return None;
        }
        let end = i + 2 + len;
        let unit = vstd::slice::slice_to_vec(vstd::slice::slice_subrange(d, i + 2, end));
        proof {
            assert(views_of(out@.push(unit)) =~= views_of(out@).push(d@.subrange(i + 2, end as int)));
        }
        out.push(unit);
        i = end;
        k += 1;
    }
    Some((out, i))
}

/// Parses a decoder configuration record: version, profile, compatibility
/// and level in the first four bytes, the length-field width in the low two
/// bits of the fifth, then the sequence parameter sets (their count in the
/// low five bits of the sixth byte) and the picture parameter sets (their
/// count in the byte after them), each behind a two-byte big-endian length.
pub fn parse_avc_config(data: &[u8]) -> (r: Result<AVCVideoConfigurationRecord, ConfigError>)
    ensures
        config_matches(data@, r),
{
    if data.len() == 0 {
        return Err(ConfigError::Truncated);
    }
    let version = data[0];
    if version != 1 {
        return Err(ConfigError::UnsupportedVersion { version });
    }
    if data.len() < 6 {
        return Err(ConfigError::Truncated);
    }
    let sps_count = data[5] & 31u8;
    let (sps, end) = match read_units(data, 6, sps_count) {
        None => return Err(ConfigError::Truncated),
        Some(x) => x,
    };
    if end >= data.len() {
        return Err(ConfigError::Truncated);
    }
    let pps_count = data[end];
    let (pps, _) = match read_units(data, end + 1, pps_count) {
        None => return Err(ConfigError::Truncated),
        Some(x) => x,
    };
    Ok(
        AVCVideoConfigurationRecord {
            version,
            profile: data[1],
            compatibility: data[2],
            level: data[3],
            length_size_minus_one: data[4] & 3u8,
            sps,
            pps,
        },
    )
}

/// Parsing is a function of the buffer: two parses of equal buffers give the
/// same parameter sets, or the same error.
pub proof fn lemma_parse_deterministic(
    d: Seq<u8>,
    r1: Result<AVCVideoConfigurationRecord, ConfigError>,
    r2: Result<AVCVideoConfigurationRecord, ConfigError>,
)
    requires
        config_matches(d, r1),
        config_matches(d, r2),
    ensures
        r1 is Ok <==> r2 is Ok,
        r1 is Ok ==> {
            &&& views_of(r1->Ok_0.sps@) == views_of(r2->Ok_0.sps@)
            &&& views_of(r1->Ok_0.pps@) == views_of(r2->Ok_0.pps@)
            &&& r1->Ok_0.version == r2->Ok_0.version
            &&& r1->Ok_0.profile == r2->Ok_0.profile
            &&& r1->Ok_0.compatibility == r2->Ok_0.compatibility
            &&& r1->Ok_0.level == r2->Ok_0.level
            &&& r1->Ok_0.length_size_minus_one == r2->Ok_0.length_size_minus_one
        },
        r1 is Err ==> r1 == r2,
{
}

} // verus!
