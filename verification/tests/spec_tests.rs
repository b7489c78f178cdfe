use ckb_vtx::spec::VtxSpec;

#[test]
fn test_non_overlapping_ranges() {
    let spec1 = VtxSpec::new(0..3, 0..2, 0, 2);
    let spec2 = VtxSpec::new(3..5, 2..4, 1, 2);
    assert!(spec1.validate_no_overlap(&spec2).is_ok());
}

#[test]
fn test_overlapping_input_ranges() {
    let spec1 = VtxSpec::new(0..3, 0..2, 0, 2);
    let spec2 = VtxSpec::new(2..5, 2..4, 1, 2);
    assert!(spec1.validate_no_overlap(&spec2).is_err());
}

#[test]
fn test_overlapping_output_ranges() {
    let spec1 = VtxSpec::new(0..3, 0..3, 0, 2);
    let spec2 = VtxSpec::new(3..5, 2..4, 1, 2);
    assert!(spec1.validate_no_overlap(&spec2).is_err());
}

#[test]
fn test_empty_ranges_no_overlap() {
    let spec1 = VtxSpec::new(0..0, 0..0, 0, 2);
    let spec2 = VtxSpec::new(0..0, 0..0, 1, 2);
    assert!(spec1.validate_no_overlap(&spec2).is_ok());
}

#[test]
fn test_global_to_local_mapping() {
    let spec = VtxSpec::new(3..6, 2..5, 1, 2);

    // Input mapping
    assert_eq!(spec.global_to_local_input(3), Some(0));
    assert_eq!(spec.global_to_local_input(5), Some(2));
    assert_eq!(spec.global_to_local_input(6), None);
    assert_eq!(spec.global_to_local_input(2), None);

    // Output mapping
    assert_eq!(spec.global_to_local_output(2), Some(0));
    assert_eq!(spec.global_to_local_output(4), Some(2));
    assert_eq!(spec.global_to_local_output(5), None);
}

#[test]
fn test_local_to_global_mapping() {
    let spec = VtxSpec::new(3..6, 2..5, 1, 2);

    assert_eq!(spec.local_to_global_input(0), Some(3));
    assert_eq!(spec.local_to_global_input(2), Some(5));
    assert_eq!(spec.local_to_global_input(3), None);

    assert_eq!(spec.local_to_global_output(0), Some(2));
    assert_eq!(spec.local_to_global_output(2), Some(4));
    assert_eq!(spec.local_to_global_output(3), None);
}

#[test]
fn overlap_error_names_the_ranges() {
    let spec1 = VtxSpec::new(0..3, 0..2, 0, 2);
    let spec2 = VtxSpec::new(2..5, 2..4, 1, 2);
    match spec1.validate_no_overlap(&spec2) {
        Err(ckb_vtx::VtxError::OverlappingRanges(msg)) => {
            assert_eq!(msg, "input ranges 0..3 and 2..5 overlap")
        }
        other => panic!("unexpected {:?}", other),
    }
    let spec3 = VtxSpec::new(3..5, 1..4, 1, 2);
    match spec1.validate_no_overlap(&spec3) {
        Err(ckb_vtx::VtxError::OverlappingRanges(msg)) => {
            assert_eq!(msg, "output ranges 0..2 and 1..4 overlap")
        }
        other => panic!("unexpected {:?}", other),
    }
}

#[test]
fn overlap_check_is_symmetric() {
    let a = VtxSpec::new(0..3, 0..2, 0, 2);
    let b = VtxSpec::new(2..5, 5..6, 1, 2);
    assert!(a.validate_no_overlap(&b).is_err());
    assert!(b.validate_no_overlap(&a).is_err());
    let c = VtxSpec::new(3..5, 2..4, 1, 2);
    assert!(a.validate_no_overlap(&c).is_ok());
    assert!(c.validate_no_overlap(&a).is_ok());
}

#[test]
fn empty_range_overlaps_nothing_even_inside_another() {
    let a = VtxSpec::new(0..10, 0..10, 0, 2);
    let b = VtxSpec::new(4..4, 7..3, 1, 2);
    assert!(a.validate_no_overlap(&b).is_ok());
}

#[test]
fn index_mapping_roundtrip() {
    let spec = VtxSpec::new(7..12, 1..2, 0, 1);
    for local in 0..5usize {
        let global = spec.local_to_global_input(local).unwrap();
        assert_eq!(spec.global_to_local_input(global), Some(local));
    }
    assert_eq!(spec.local_to_global_input(5), None);
    assert_eq!(spec.local_to_global_output(0), Some(1));
    assert_eq!(spec.global_to_local_output(1), Some(0));
}

#[test]
fn default_spec_is_empty_and_alone() {
    let spec = VtxSpec::default();
    assert_eq!(spec.input_range, 0..0);
    assert_eq!(spec.output_range, 0..0);
    assert_eq!(spec.vtx_index, 0);
    assert_eq!(spec.total_vtxs, 1);
    let copy = spec.clone();
    assert_eq!(copy.total_vtxs, 1);
}
