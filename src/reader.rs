use vstd::prelude::*;

use crate::config::{views_of, AVCVideoConfigurationRecord};
use crate::nalu::{annex_b_of, valid_unit, Nalu};
use crate::table::Sample;

verus! {

/// Why the units of a sample could not be read.
#[derive(Clone, Copy, Debug, PartialEq, Eq, Structural)]
pub enum NaluError {
    /// Fewer than four bytes are left for a length field.
    TruncatedLength,
    /// A declared length reaches past the end of the sample.
    LengthOverrun,
    /// A unit is empty.
    EmptyUnit,
    /// A unit's forbidden bit is set.
    ForbiddenBitSet,
}

/// A four-byte big-endian length at `pos`.
pub open spec fn be32_at(d: Seq<u8>, pos: int) -> int {
    d[pos] as int * 0x100_0000 + d[pos + 1] as int * 0x1_0000 + d[pos + 2] as int * 0x100 + d[
        pos + 3] as int
}

/// The next unit of a sample's bytes `d` from `pos` on: none at the end;
/// else the unit and the position after it, or why it cannot be read.
pub open spec fn unit_at(d: Seq<u8>, pos: int) -> Option<Result<(Seq<u8>, int), NaluError>> {
    if pos >= d.len() {
        None
    } else if d.len() - pos < 4 {
        Some(Err(NaluError::TruncatedLength))
    } else if be32_at(d, pos) > d.len() - pos - 4 {
        Some(Err(NaluError::LengthOverrun))
    } else {
        let end = pos + 4 + be32_at(d, pos);
        let p = d.subrange(pos + 4, end);
        if p.len() == 0 {
            Some(Err(NaluError::EmptyUnit))
        } else if !valid_unit(p) {
            Some(Err(NaluError::ForbiddenBitSet))
        } else {
            Some(Ok((p, end)))
        }
    }
}

/// The byte-stream form of the units of `d` from `pos` on, after the bytes
/// in `acc`, or the first reason a unit cannot be read.
pub open spec fn stream_from(d: Seq<u8>, pos: int, acc: Seq<u8>) -> Result<Seq<u8>, NaluError>
    decreases d.len() - pos,
{
    if pos < 0 || pos >= d.len() || d.len() - pos < 4 || be32_at(d, pos) > d.len() - pos - 4 {
        match unit_at(d, pos) {
            Some(Err(e)) => Err(e),
            _ => Ok(acc),
        }
    } else {
        match unit_at(d, pos) {
            Some(Ok((p, end))) => stream_from(d, end, acc + annex_b_of(p)),
            Some(Err(e)) => Err(e),
            None => Ok(acc),
        }
    }
}

/// The byte-stream form of the units in `units` from `k` on, after the
/// bytes in `acc`, or why one of them cannot be framed.
pub open spec fn frame_from(units: Seq<Seq<u8>>, k: int, acc: Seq<u8>) -> Result<
    Seq<u8>,
    NaluError,
>
    decreases units.len() - k,
{
    if k < 0 || k >= units.len() {
        Ok(acc)
    } else if units[k].len() == 0 {
        Err(NaluError::EmptyUnit)
    } else if !valid_unit(units[k]) {
        Err(NaluError::ForbiddenBitSet)
    } else {
        frame_from(units, k + 1, acc + annex_b_of(units[k]))
    }
}

/// The units of one sample, read in turn from the sample's bytes, each
/// behind a four-byte big-endian length.
pub struct Nalus {
    bytes: Vec<u8>,
    readed: usize,
}

impl Nalus {
    /// The sample's bytes.
    pub closed spec fn data(&self) -> Seq<u8> {
        self.bytes@
    }

    /// How many of them have been read.
    pub closed spec fn position(&self) -> int {
        self.readed as int
    }

    #[verifier::type_invariant]
    closed spec fn inv(&self) -> bool {
        self.readed <= self.bytes@.len()
    }

    /// Starts reading the units of a sample's bytes.
    pub fn new(bytes: Vec<u8>) -> (r: Nalus)
        ensures
            r.data() == bytes@,
            r.position() == 0,
    {
        Nalus { bytes, readed: 0 }
    }

    /// Reads the next unit: none once every byte is read; after an error,
    /// none follows.
    pub fn next(&mut self) -> (r: Option<Result<Nalu, NaluError>>)
        ensures
            final(self).data() == old(self).data(),
            final(self).position() <= final(self).data().len(),
            match unit_at(old(self).data(), old(self).position()) {
                None => r is None && final(self).position() == old(self).position(),
                Some(Err(e)) => r == Some(Err::<Nalu, NaluError>(e)) && final(self).position()
                    == old(self).data().len(),
                Some(Ok((p, end))) => r matches Some(Ok(n)) && n.payload_spec() == p
                    && final(self).position() == end,
            },
    {
        proof {
            use_type_invariant(&*self);
        }
        let d = &self.bytes;
        let pos = self.readed;
        if pos >= d.len() {
            return None;
        }
        if d.len() - pos < 4 {
            self.readed = d.len();
            return Some(Err(NaluError::TruncatedLength));
        }
        let len = (d[pos] as u64) * 0x100_0000 + (d[pos + 1] as u64) * 0x1_0000 + (d[pos + 2] as u64)
            * 0x100 + (d[pos + 3] as u64);
        if len > (d.len() - pos - 4) as u64 {
            self.readed = d.len();
            return Some(Err(NaluError::LengthOverrun));
        }
        let end = pos + 4 + len as usize;
        if len == 0 {
            self.readed = d.len();
            return Some(Err(NaluError::EmptyUnit));
        }
        if d[pos + 4] >= 128 {
            self.readed = d.len();
            return Some(Err(NaluError::ForbiddenBitSet));
        }
        let unit = vstd::slice::slice_to_vec(vstd::slice::slice_subrange(d.as_slice(), pos + 4, end));
        self.readed = end;
        Some(Ok(Nalu::new(unit)))
    }
}

impl Sample {
    /// Starts reading the units of this sample from its bytes, the `size`
    /// bytes found at its offset.
    pub fn nalus(&self, bytes: Vec<u8>) -> (r: Nalus)
        ensures
            r.data() == bytes@,
            r.position() == 0,
    {
        Nalus::new(bytes)
    }
}

/// Appends `src` to `out`.
fn append_bytes(out: &mut Vec<u8>, src: &[u8])
    ensures
        final(out)@ == old(out)@ + src@,
{
    let mut i: usize = 0;
    while i < src.len()
        invariant
            i <= src@.len(),
            out@ == old(out)@ + src@.subrange(0, i as int),
        decreases src@.len() - i,
    {
        out.push(src[i]);
        assert(src@.subrange(0, i + 1) =~= src@.subrange(0, i as int).push(src@[i as int]));
        i += 1;
    }
    assert(src@.subrange(0, src@.len() as int) =~= src@);
}

/// Converts the bytes of one sample, units behind four-byte big-endian
/// lengths, into the byte stream of those units, each behind its start code.
pub fn sample_to_annex_b(bytes: &[u8]) -> (r: Result<Vec<u8>, NaluError>)
    ensures
        match r {
            Ok(v) => stream_from(bytes@, 0, seq![]) == Ok::<Seq<u8>, NaluError>(v@),
            Err(e) => stream_from(bytes@, 0, seq![]) == Err::<Seq<u8>, NaluError>(e),
        },
{
    let mut units = Nalus::new(vstd::slice::slice_to_vec(bytes));
    let mut out: Vec<u8> = Vec::new();
    loop
        invariant
            units.data() == bytes@,
            units.position() <= bytes@.len(),
            stream_from(bytes@, 0, seq![]) == stream_from(bytes@, units.position(), out@),
        decreases bytes@.len() - units.position(),
    {
        match units.next() {
            None => {
                return Ok(out);
            },
            Some(Err(e)) => {
                return Err(e);
            },
            Some(Ok(n)) => {
                append_bytes(&mut out, n.as_bytes());
            },
        }
    }
}

/// Frames each unit of `units` with its start code and concatenates them.
fn frame_units(out: &mut Vec<u8>, units: &Vec<Vec<u8>>) -> (r: Result<(), NaluError>)
    ensures
        match frame_from(views_of(units@), 0, old(out)@) {
            Ok(s) => r is Ok && final(out)@ == s,
            Err(e) => r == Err::<(), NaluError>(e),
        },
{
    let mut k: usize = 0;
    while k < units.len()
        invariant
            k <= units@.len(),
            frame_from(views_of(units@), 0, old(out)@) == frame_from(
                views_of(units@),
                k as int,
                out@,
            ),
        decreases units@.len() - k,
    {
        let u = &units[k];
        assert(views_of(units@)[k as int] == u@);
        if u.len() == 0 {
            return Err(NaluError::EmptyUnit);
        }
        if u[0] >= 128 {
            return Err(NaluError::ForbiddenBitSet);
        }
        let n = Nalu::new(u.clone());
        append_bytes(out, n.as_bytes());
        k += 1;
    }
    Ok(())
}

/// The byte stream of a record's parameter sets: each sequence parameter
/// set, then each picture parameter set, behind its start code.
pub fn parameter_sets_to_annex_b(rec: &AVCVideoConfigurationRecord) -> (r: Result<
    Vec<u8>,
    NaluError,
>)
    ensures
        match frame_from(views_of(rec.sps@), 0, seq![]) {
            Err(e) => r == Err::<Vec<u8>, NaluError>(e),
            Ok(s) => match frame_from(views_of(rec.pps@), 0, s) {
                Err(e) => r == Err::<Vec<u8>, NaluError>(e),
                Ok(all) => r matches Ok(v) && v@ == all,
            },
        },
{
    let mut out: Vec<u8> = Vec::new();
    assert(out@ =~= seq![]);
    match frame_units(&mut out, &rec.sps) {
        Err(e) => {
            return Err(e);
        },
        Ok(()) => {},
    }
    match frame_units(&mut out, &rec.pps) {
        Err(e) => {
            return Err(e);
        },
        Ok(()) => {},
    }
    Ok(out)
}

} // verus!
