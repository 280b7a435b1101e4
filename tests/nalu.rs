use mp4::nalu::{Nalu, NaluKind, NaluRefIdc};
use mp4::reader::{sample_to_annex_b, NaluError, Nalus};
use mp4::table::Sample;

#[test]
fn unit_not_ending_in_zeros_gets_long_start_code() {
    let p = vec![0x65u8, 0x88, 0x84, 0x21];
    let n = Nalu::new(p.clone());
    let mut expected = vec![0u8, 0, 0, 1];
    expected.extend_from_slice(&p);
    assert_eq!(n.as_bytes(), &expected[..]);
    assert_eq!(n.as_bytes().len(), p.len() + 4);
    assert_eq!(n.payload(), &p[..]);
    assert_eq!(n.as_annex_b_bytes(), &expected[..]);
}

#[test]
fn unit_ending_in_two_zeros_gets_short_start_code_and_escape() {
    let p = vec![0x67u8, 0x42, 0x00, 0x00];
    let n = Nalu::new(p.clone());
    assert_eq!(n.as_bytes(), &[0u8, 0, 1, 0x67, 0x42, 0, 0, 3][..]);
    assert_eq!(n.as_bytes().len(), p.len() + 4);
    assert_eq!(n.payload(), &p[..]);
}

#[test]
fn unit_ending_in_one_zero_is_unchanged() {
    let n = Nalu::new(vec![0x41u8, 0x01, 0x00]);
    assert_eq!(n.as_bytes(), &[0u8, 0, 0, 1, 0x41, 0x01, 0x00][..]);
}

#[test]
fn one_byte_unit_gets_long_start_code() {
    let n = Nalu::new(vec![0x09u8]);
    assert_eq!(n.as_bytes(), &[0u8, 0, 0, 1, 0x09][..]);
}

#[test]
fn header_fields_are_read() {
    let sps = Nalu::new(vec![0x67u8, 0x42, 0x00, 0x00]);
    assert_eq!(sps.forbidden_zero_bit(), 0);
    assert_eq!(sps.ref_idc(), NaluRefIdc::HIGHEST);
    assert_eq!(sps.kind(), NaluKind::SPS);
    assert_eq!(sps.header(), 0x67);
    assert_eq!(sps.unit_type(), 7);

    let slice = Nalu::new(vec![0x41u8, 0x9a]);
    assert_eq!(slice.ref_idc(), NaluRefIdc::HIGH);
    assert_eq!(slice.kind(), NaluKind::SLICE);

    let idr = Nalu::new(vec![0x25u8, 0xb8]);
    assert_eq!(idr.ref_idc(), NaluRefIdc::LOW);
    assert_eq!(idr.kind(), NaluKind::IDR);

    let sei = Nalu::new(vec![0x06u8, 0x05]);
    assert_eq!(sei.ref_idc(), NaluRefIdc::DISPOSABLE);
    assert_eq!(sei.kind(), NaluKind::SEI);

    let ext = Nalu::new(vec![0x0du8]);
    assert_eq!(ext.kind(), NaluKind::SPSE);
}

#[test]
fn avc_bytes_carry_a_big_endian_length() {
    let n = Nalu::new(vec![0x68u8, 0xce, 0x3c, 0x80]);
    assert_eq!(n.as_avc_bytes(), vec![0u8, 0, 0, 4, 0x68, 0xce, 0x3c, 0x80]);
    let long: Vec<u8> = std::iter::once(0x65u8).chain(std::iter::repeat(7u8).take(299)).collect();
    let a = Nalu::new(long.clone()).as_avc_bytes();
    assert_eq!(&a[..4], &[0u8, 0, 1, 44][..]);
    assert_eq!(&a[4..], &long[..]);
}

#[test]
fn units_of_a_sample_are_read_in_turn() {
    let bytes = vec![0u8, 0, 0, 2, 0x65, 0x88, 0, 0, 0, 3, 0x41, 0, 0];
    let s = Sample { chunk_index: 0, chunk_offset: 0, index: 0, offset: 0, size: 13, delta: 1 };
    let mut it = s.nalus(bytes);
    let a = it.next().unwrap().unwrap();
    assert_eq!(a.payload(), &[0x65u8, 0x88][..]);
    let b = it.next().unwrap().unwrap();
    assert_eq!(b.payload(), &[0x41u8, 0, 0][..]);
    assert_eq!(b.as_bytes(), &[0u8, 0, 1, 0x41, 0, 0, 3][..]);
    assert!(it.next().is_none());
}

#[test]
fn reading_stops_after_an_error() {
    let mut it = Nalus::new(vec![0u8, 0, 0, 9, 0x65]);
    assert!(matches!(it.next(), Some(Err(NaluError::LengthOverrun))));
    assert!(it.next().is_none());
}

#[test]
fn sample_converts_to_byte_stream() {
    let bytes = vec![0u8, 0, 0, 2, 0x65, 0x88, 0, 0, 0, 3, 0x41, 0, 0, 0, 0, 0, 1, 0x09];
    assert_eq!(
        sample_to_annex_b(&bytes),
        Ok(vec![0u8, 0, 0, 1, 0x65, 0x88, 0, 0, 1, 0x41, 0, 0, 3, 0, 0, 0, 1, 0x09])
    );
}

#[test]
fn empty_sample_gives_empty_stream() {
    assert_eq!(sample_to_annex_b(&[]), Ok(vec![]));
}

#[test]
fn sample_errors_are_told_apart() {
    assert_eq!(sample_to_annex_b(&[0u8, 0, 0]), Err(NaluError::TruncatedLength));
    assert_eq!(sample_to_annex_b(&[0u8, 0, 0, 1, 0x09, 0, 0]), Err(NaluError::TruncatedLength));
    assert_eq!(sample_to_annex_b(&[0u8, 0, 0, 5, 0x65]), Err(NaluError::LengthOverrun));
    assert_eq!(sample_to_annex_b(&[0u8, 0, 0, 0]), Err(NaluError::EmptyUnit));
    assert_eq!(sample_to_annex_b(&[0u8, 0, 0, 1, 0x80]), Err(NaluError::ForbiddenBitSet));
}
