use ckb_vtx::constants::{CellField, HeaderField, InputField, Source};

#[test]
fn source_codes_roundtrip() {
    let all = [Source::Input, Source::Output, Source::CellDep, Source::HeaderDep, Source::GroupInput, Source::GroupOutput];
    let codes = [1u64, 2, 3, 4, 0x0100_0000_0000_0001, 0x0100_0000_0000_0002];
    for (s, c) in all.iter().zip(codes.iter()) {
        assert_eq!(s.to_u64(), *c);
        assert_eq!(Source::from_u64(*c), Some(*s));
    }
    assert_eq!(Source::from_u64(0), None);
    assert_eq!(Source::from_u64(5), None);
    assert_eq!(Source::from_u64(0x0100_0000_0000_0000), None);
}

#[test]
fn group_sources_and_bases() {
    assert!(Source::GroupInput.is_group());
    assert!(Source::GroupOutput.is_group());
    assert!(!Source::Input.is_group());
    assert!(!Source::HeaderDep.is_group());
    assert_eq!(Source::GroupInput.base_source(), Source::Input);
    assert_eq!(Source::GroupOutput.base_source(), Source::Output);
    assert_eq!(Source::CellDep.base_source(), Source::CellDep);
    assert_eq!(Source::Output.base_source(), Source::Output);
}

#[test]
fn field_codes_roundtrip() {
    for v in 0..7u64 {
        assert_eq!(CellField::from_u64(v).unwrap().to_u64(), v);
    }
    assert_eq!(CellField::from_u64(7), None);
    assert_eq!(CellField::from_u64(2), Some(CellField::Lock));
    for v in 0..2u64 {
        assert_eq!(InputField::from_u64(v).unwrap().to_u64(), v);
    }
    assert_eq!(InputField::from_u64(2), None);
    for v in 0..3u64 {
        assert_eq!(HeaderField::from_u64(v).unwrap().to_u64(), v);
    }
    assert_eq!(HeaderField::from_u64(3), None);
    assert_eq!(HeaderField::from_u64(1), Some(HeaderField::EpochStartBlockNumber));
}
