use vstd::prelude::*;

verus! {

/// True when the unit ends in two zero bytes.
pub open spec fn ends_in_two_zeros(p: Seq<u8>) -> bool {
    p.len() >= 2 && p[p.len() - 2] == 0u8 && p[p.len() - 1] == 0u8
}

/// The byte-stream form of one unit: a start code, the unit, and, where the
/// unit ends in two zero bytes, a trailing escape byte.
pub open spec fn annex_b_of(p: Seq<u8>) -> Seq<u8> {
    if ends_in_two_zeros(p) {
        seq![0u8, 0u8, 1u8] + p + seq![3u8]
    } else {
        seq![0u8, 0u8, 0u8, 1u8] + p
    }
}

/// A unit that may be framed: not empty, and its forbidden bit is clear.
pub open spec fn valid_unit(p: Seq<u8>) -> bool {
    p.len() > 0 && p[0] < 128u8
}

/// The four big-endian bytes of `n`.
pub open spec fn be32_bytes(n: int) -> Seq<u8> {
    seq![
        ((n / 0x100_0000) % 256) as u8,
        ((n / 0x1_0000) % 256) as u8,
        ((n / 0x100) % 256) as u8,
        (n % 256) as u8,
    ]
}

/// The length-prefixed form of one unit, with a four-byte length.
pub open spec fn avc_of(p: Seq<u8>) -> Seq<u8> {
    be32_bytes(p.len() as int) + p
}

/// Framing keeps the unit and adds four bytes: a unit that does not end in
/// two zero bytes follows the four-byte start code unchanged; one that does
/// follows the three-byte start code and is closed by one escape byte.
pub proof fn lemma_framing(p: Seq<u8>)
    ensures
        annex_b_of(p).len() == p.len() as int + 4,
        !ends_in_two_zeros(p) ==> annex_b_of(p).subrange(0, 4) == seq![0u8, 0u8, 0u8, 1u8]
            && annex_b_of(p).subrange(4, p.len() as int + 4) == p,
        ends_in_two_zeros(p) ==> annex_b_of(p).subrange(0, 3) == seq![0u8, 0u8, 1u8]
            && annex_b_of(p).subrange(3, p.len() as int + 3) == p && annex_b_of(p)[p.len() as int + 3] == 3u8,
{
    let a = annex_b_of(p);
    if ends_in_two_zeros(p) {
        assert(a.subrange(0, 3) =~= seq![0u8, 0u8, 1u8]);
        assert(a.subrange(3, p.len() as int + 3) =~= p);
    } else {
        assert(a.subrange(0, 4) =~= seq![0u8, 0u8, 0u8, 1u8]);
        assert(a.subrange(4, p.len() as int + 4) =~= p);
    }
}

/// Reference importance of a unit, from bits 6 and 5 of its header.
#[derive(Clone, Copy, Debug, PartialEq, Eq, Structural)]
#[allow(non_camel_case_types, clippy::upper_case_acronyms)]
pub enum NaluRefIdc {
    DISPOSABLE,
    LOW,
    HIGH,
    HIGHEST,
}

/// Unit types 0 to 13 of H.264, from the low five bits of the header.
#[derive(Clone, Copy, Debug, PartialEq, Eq, Structural)]
#[allow(non_camel_case_types, clippy::upper_case_acronyms)]
pub enum NaluKind {
    Unspecified,
    /// Coded slice of a non-IDR picture
    SLICE,
    /// Coded slice data partition A
    DPA,
    /// Coded slice data partition B
    DPB,
    /// Coded slice data partition C
    DPC,
    /// Coded slice of an IDR picture
    IDR,
    /// Supplemental enhancement information
    SEI,
    /// Sequence parameter set
    SPS,
    /// Picture parameter set
    PPS,
    /// Access unit delimiter
    AUD,
    /// End of sequence
    EOSEQ,
    /// End of stream
    EOSTREAM,
    /// Filler data
    FILL,
    /// Sequence parameter set extension
    SPSE,
}

pub open spec fn ref_idc_of(h: u8) -> NaluRefIdc {
    let n = (h >> 5u8) & 3u8;
    if n == 0 {
        NaluRefIdc::DISPOSABLE
    } else if n == 1 {
        NaluRefIdc::LOW
    } else if n == 2 {
        NaluRefIdc::HIGH
    } else {
        NaluRefIdc::HIGHEST
    }
}

pub open spec fn kind_of(n: u8) -> NaluKind {
    if n == 0 {
        NaluKind::Unspecified
    } else if n == 1 {
        NaluKind::SLICE
    } else if n == 2 {
        NaluKind::DPA
    } else if n == 3 {
        NaluKind::DPB
    } else if n == 4 {
        NaluKind::DPC
    } else if n == 5 {
        NaluKind::IDR
    } else if n == 6 {
        NaluKind::SEI
    } else if n == 7 {
        NaluKind::SPS
    } else if n == 8 {
        NaluKind::PPS
    } else if n == 9 {
        NaluKind::AUD
    } else if n == 10 {
        NaluKind::EOSEQ
    } else if n == 11 {
        NaluKind::EOSTREAM
    } else if n == 12 {
        NaluKind::FILL
    } else {
        NaluKind::SPSE
    }
}

/// One unit, held in its byte-stream form.
///
/// `leading_zeros` is the number of zero bytes in its start code: 2 for the
/// short start code (and then one escape byte follows the unit), 3 for the
/// long one.
#[derive(Debug)]
pub struct Nalu {
    leading_zeros: usize,
    bytes: Vec<u8>,
}

impl Nalu {
    /// The unit itself: header byte and payload, without framing.
    pub closed spec fn payload_spec(&self) -> Seq<u8> {
        let end = if self.leading_zeros == 2 {
            self.bytes@.len() - 1
        } else {
            self.bytes@.len() as int
        };
        self.bytes@.subrange(self.leading_zeros + 1, end)
    }

    /// The header byte of the unit.
    pub open spec fn header_spec(&self) -> u8 {
        self.payload_spec()[0]
    }

    #[verifier::type_invariant]
    closed spec fn inv(&self) -> bool {
        &&& self.leading_zeros == 2 || self.leading_zeros == 3
        &&& self.bytes@.len() >= self.leading_zeros + 2 + (if self.leading_zeros == 2 { 1int } else { 0 })
        &&& valid_unit(self.payload_spec())
        &&& self.bytes@ == annex_b_of(self.payload_spec())
        &&& (self.leading_zeros == 2) == ends_in_two_zeros(self.payload_spec())
    }

    /// Frames a unit (header byte and payload) as a start-code-prefixed unit.
    pub fn new(mut bytes: Vec<u8>) -> (r: Nalu)
        requires
            valid_unit(bytes@),
        ensures
            r.payload_spec() == bytes@,
            r.as_bytes_spec() == annex_b_of(bytes@),
    {
        let len = bytes.len();
        let two_zeros = len >= 2 && bytes[len - 2] == 0 && bytes[len - 1] == 0;
        let ghost p = bytes@;
        if two_zeros {
            let mut out: Vec<u8> = vec![0u8, 0u8, 1u8];
            out.append(&mut bytes);
            out.push(3u8);
            assert(out@ =~= annex_b_of(p));
            assert(out@.subrange(3, out@.len() - 1) =~= p);
            Nalu { leading_zeros: 2, bytes: out }
        } else {
            let mut out: Vec<u8> = vec![0u8, 0u8, 0u8, 1u8];
            out.append(&mut bytes);
            assert(out@ =~= annex_b_of(p));
            assert(out@.subrange(4, out@.len() as int) =~= p);
            Nalu { leading_zeros: 3, bytes: out }
        }
    }

    /// The framed bytes of the unit.
    pub closed spec fn as_bytes_spec(&self) -> Seq<u8> {
        self.bytes@
    }

    /// The forbidden bit of the header, which a framed unit always has clear.
    pub fn forbidden_zero_bit(&self) -> (r: u8)
        ensures
            r == self.header_spec() >> 7u8,
            r == 0,
    {
        proof {
            use_type_invariant(self);
        }
        let h = self.bytes[self.leading_zeros + 1];
        assert(h == self.header_spec());
        let n = h >> 7u8;
        assert(h < 128u8 ==> h >> 7u8 == 0u8) by (bit_vector);
        n
    }

    /// The header byte of the unit.
    pub fn header(&self) -> (r: u8)
        ensures
            r == self.header_spec(),
    {
        proof {
            use_type_invariant(self);
        }
        self.bytes[self.leading_zeros + 1]
    }

    /// The unit type, the low five bits of the header.
    pub fn unit_type(&self) -> (r: u8)
        ensures
            r == self.header_spec() & 31u8,
    {
        self.header() & 31u8
    }

    /// The reference importance, bits 6 and 5 of the header.
    pub fn ref_idc(&self) -> (r: NaluRefIdc)
        ensures
            r == ref_idc_of(self.header_spec()),
    {
        let h = self.header();
        let n = (h >> 5u8) & 3u8;
        assert(h >> 5u8 & 3u8 <= 3u8) by (bit_vector);
        if n == 0 {
            NaluRefIdc::DISPOSABLE
        } else if n == 1 {
            NaluRefIdc::LOW
        } else if n == 2 {
            NaluRefIdc::HIGH
        } else {
            NaluRefIdc::HIGHEST
        }
    }

    /// The unit's type, for the types that H.264 names up to 13.
    pub fn kind(&self) -> (r: NaluKind)
        requires
            self.header_spec() & 31u8 <= 13,
        ensures
            r == kind_of(self.header_spec() & 31u8),
    {
        let n = self.unit_type();
        if n == 0 {
            NaluKind::Unspecified
        } else if n == 1 {
            NaluKind::SLICE
        } else if n == 2 {
            NaluKind::DPA
        } else if n == 3 {
            NaluKind::DPB
        } else if n == 4 {
            NaluKind::DPC
        } else if n == 5 {
            NaluKind::IDR
        } else if n == 6 {
            NaluKind::SEI
        } else if n == 7 {
            NaluKind::SPS
        } else if n == 8 {
            NaluKind::PPS
        } else if n == 9 {
            NaluKind::AUD
        } else if n == 10 {
            NaluKind::EOSEQ
        } else if n == 11 {
            NaluKind::EOSTREAM
        } else if n == 12 {
            NaluKind::FILL
        } else {
            NaluKind::SPSE
        }
    }

    /// The unit without its framing: header byte and payload.
    pub fn payload(&self) -> (r: &[u8])
        ensures
            r@ == self.payload_spec(),
    {
        proof {
            use_type_invariant(self);
        }
        let end = if self.leading_zeros == 2 {
            self.bytes.len() - 1
        } else {
            self.bytes.len()
        };
        vstd::slice::slice_subrange(self.bytes.as_slice(), self.leading_zeros + 1, end)
    }

    /// The framed bytes: start code, unit, and escape byte where one is due.
    pub fn as_bytes(&self) -> (r: &[u8])
        ensures
            r@ == annex_b_of(self.payload_spec()),
    {
        proof {
            use_type_invariant(self);
        }
        self.bytes.as_slice()
    }

    /// The byte-stream form of the unit; the same bytes as `as_bytes`.
    pub fn as_annex_b_bytes(&self) -> (r: &[u8])
        ensures
            r@ == annex_b_of(self.payload_spec()),
    {
        self.as_bytes()
    }

    /// The length-prefixed form of the unit, with a four-byte big-endian length.
    pub fn as_avc_bytes(&self) -> (r: Vec<u8>)
        requires
            self.payload_spec().len() <= u32::MAX,
        ensures
            r@ == avc_of(self.payload_spec()),
    {
        let p = self.payload();
        let n = p.len() as u32;
        let mut out: Vec<u8> = vec![
            ((n / 0x100_0000) % 256) as u8,
            ((n / 0x1_0000) % 256) as u8,
            ((n / 0x100) % 256) as u8,
            (n % 256) as u8,
        ];
        let mut i: usize = 0;
        while i < p.len()
            invariant
                i <= p@.len(),
                p@ == self.payload_spec(),
                out@ == be32_bytes(p@.len() as int) + p@.subrange(0, i as int),
            decreases p@.len() - i,
        {
            out.push(p[i]);
            assert(p@.subrange(0, i + 1) =~= p@.subrange(0, i as int).push(p@[i as int]));
            i += 1;
        }
        assert(p@.subrange(0, p@.len() as int) =~= p@);
        out
    }
}

} // verus!
