use ckb_vtx::intent::{FeeConstraint, OutputConstraint};
use ckb_vtx::{Intent, VtxError};

#[test]
fn test_validate_min_inputs() {
    let intent = Intent::new();
    let intent = Intent { min_inputs: Some(3), ..intent };
    assert!(intent.validate(3, 1, 1000, 900).is_ok());
    assert!(intent.validate(2, 1, 1000, 900).is_err());
}

#[test]
fn test_validate_min_outputs() {
    let intent = Intent { min_outputs: Some(2), ..Intent::new() };
    assert!(intent.validate(1, 2, 1000, 900).is_ok());
    assert!(intent.validate(1, 1, 1000, 900).is_err());
}

#[test]
fn test_validate_fee_constraint() {
    let intent = Intent::new().with_fee_constraint(100);
    // Fee = 1000 - 900 = 100, max_fee = 100 => OK
    assert!(intent.validate(1, 1, 1000, 900).is_ok());
    // Fee = 1000 - 899 = 101, max_fee = 100 => FAIL
    assert!(intent.validate(1, 1, 1000, 899).is_err());
}

#[test]
fn empty_intent_accepts_everything() {
    let intent = Intent::default();
    assert!(intent.validate(0, 0, 0, 0).is_ok());
    assert!(intent.validate(0, 0, u64::MAX, 0).is_ok());
}

#[test]
fn fee_never_below_zero() {
    // Outputs above inputs: the fee counts as zero, so a zero limit holds.
    let intent = Intent::new().with_fee_constraint(0);
    assert!(intent.validate(1, 1, 100, 500).is_ok());
    assert!(intent.validate(1, 1, 500, 500).is_ok());
    assert!(intent.validate(1, 1, 501, 500).is_err());
}

#[test]
fn fee_constraint_without_limit_accepts() {
    let intent = Intent { fee_constraint: Some(FeeConstraint { max_fee: None }), ..Intent::new() };
    assert!(intent.validate(1, 1, u64::MAX, 0).is_ok());
}

#[test]
fn intent_error_messages() {
    let intent = Intent { min_inputs: Some(3), min_outputs: Some(2), ..Intent::new() }.with_fee_constraint(5);
    match intent.validate(2, 0, 10, 0) {
        Err(VtxError::IntentError(msg)) => assert_eq!(msg, "expected at least 3 inputs, got 2"),
        other => panic!("unexpected {:?}", other),
    }
    match intent.validate(3, 1, 10, 0) {
        Err(VtxError::IntentError(msg)) => assert_eq!(msg, "expected at least 2 outputs, got 1"),
        other => panic!("unexpected {:?}", other),
    }
    match intent.validate(3, 2, 10, 0) {
        Err(VtxError::IntentError(msg)) => assert_eq!(msg, "fee 10 exceeds max_fee 5"),
        other => panic!("unexpected {:?}", other),
    }
}

#[test]
fn builders_set_their_fields() {
    let constraint = OutputConstraint {
        min_capacity: Some(100_0000_0000),
        max_capacity: None,
        lock_script_hash: Some("abcd".to_string()),
        type_script_hash: None,
    };
    let intent = Intent::new()
        .with_description("Swap UDT for CKB")
        .with_fee_constraint(10000)
        .with_output_constraint(constraint.clone());
    assert_eq!(intent.description.as_deref(), Some("Swap UDT for CKB"));
    assert_eq!(intent.fee_constraint, Some(FeeConstraint { max_fee: Some(10000) }));
    assert_eq!(intent.output_constraints, vec![constraint]);
    assert_eq!(intent.min_inputs, None);
    assert_eq!(intent.min_outputs, None);
    assert_eq!(intent.metadata, None);
}

#[test]
fn more_inputs_outputs_and_output_capacity_keep_acceptance() {
    let intent = Intent { min_inputs: Some(2), min_outputs: Some(1), ..Intent::new() }.with_fee_constraint(50);
    assert!(intent.validate(2, 1, 1000, 950).is_ok());
    assert!(intent.validate(5, 4, 1000, 990).is_ok());
}
