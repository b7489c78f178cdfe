use ckb_types::packed;
use ckb_types::prelude::{Builder, Entity, Pack};
use ckb_vtx::cell::{CellDep, CellInput, CellOutput, OutPoint, Script};
use ckb_vtx::compose::ComposedTx;
use ckb_vtx::constants::{Source, VTX_INDICATOR_CODE_HASH};
use ckb_vtx::types::{collect_script_groups, ResolvedCell};
use ckb_vtx::{VirtualTx, VtxError, VtxSpec};

fn lock_script(args: &[u8]) -> Script {
    Script { code_hash: [0u8; 32], hash_type: 0, args: args.to_vec() }
}

fn dummy_cell_output(capacity: u64) -> CellOutput {
    CellOutput { capacity, lock: lock_script(&[]), type_: None }
}

fn dummy_cell_input(index: u32) -> CellInput {
    CellInput { previous_output: OutPoint { tx_hash: [0u8; 32], index }, since: 0 }
}

fn spec(inputs: std::ops::Range<usize>, outputs: std::ops::Range<usize>) -> VtxSpec {
    VtxSpec { input_range: inputs, output_range: outputs, ..VtxSpec::default() }
}

#[test]
fn test_is_vtx_indicator() {
    let vtx_type_script = Script { code_hash: VTX_INDICATOR_CODE_HASH, hash_type: 0, args: vec![] };
    let cell = CellOutput { capacity: 100, lock: Script { code_hash: [0u8; 32], hash_type: 0, args: vec![] }, type_: Some(vtx_type_script) };
    assert!(VirtualTx::is_vtx_indicator(&cell));
}

#[test]
fn test_is_not_vtx_indicator() {
    let cell = dummy_cell_output(100);
    assert!(!VirtualTx::is_vtx_indicator(&cell));
}

#[test]
fn type_script_with_other_code_hash_is_not_indicator() {
    let mut code_hash = VTX_INDICATOR_CODE_HASH;
    code_hash[31] = 2;
    let cell = CellOutput { capacity: 1, lock: lock_script(&[]), type_: Some(Script { code_hash, hash_type: 0, args: vec![] }) };
    assert!(!VirtualTx::is_vtx_indicator(&cell));
}

#[test]
fn test_compose_two_vtxs() {
    let spec1 = spec(0..2, 0..1);
    let spec2 = spec(2..4, 1..3);

    let mut vtx1 = VirtualTx::new(spec1);
    vtx1.inputs.push(dummy_cell_input(0));
    vtx1.inputs.push(dummy_cell_input(1));
    vtx1.outputs.push(dummy_cell_output(100));
    vtx1.outputs_data.push(vec![]);

    let mut vtx2 = VirtualTx::new(spec2);
    vtx2.inputs.push(dummy_cell_input(2));
    vtx2.inputs.push(dummy_cell_input(3));
    vtx2.outputs.push(dummy_cell_output(200));
    vtx2.outputs.push(dummy_cell_output(300));
    vtx2.outputs_data.push(vec![]);
    vtx2.outputs_data.push(vec![]);

    let tx = VirtualTx::compose(&[vtx1, vtx2]).unwrap();
    assert_eq!(tx.inputs().len(), 4);
    assert_eq!(tx.outputs().len(), 3);
}

#[test]
fn test_compose_dedup_cell_deps() {
    let spec1 = spec(0..1, 0..1);
    let spec2 = spec(1..2, 1..2);

    let shared_dep = CellDep { out_point: OutPoint { tx_hash: [0u8; 32], index: 0 }, dep_type: 0 };

    let mut vtx1 = VirtualTx::new(spec1);
    vtx1.inputs.push(dummy_cell_input(0));
    vtx1.outputs.push(dummy_cell_output(100));
    vtx1.outputs_data.push(vec![]);
    vtx1.cell_deps.push(shared_dep);

    let mut vtx2 = VirtualTx::new(spec2);
    vtx2.inputs.push(dummy_cell_input(1));
    vtx2.outputs.push(dummy_cell_output(200));
    vtx2.outputs_data.push(vec![]);
    vtx2.cell_deps.push(shared_dep);

    let tx = VirtualTx::compose(&[vtx1, vtx2]).unwrap();
    // Should deduplicate the shared cell dep
    assert_eq!(tx.cell_deps().len(), 1);
}

#[test]
fn test_compose_overlapping_ranges_fails() {
    let spec1 = spec(0..3, 0..1);
    let spec2 = spec(2..4, 1..2); // overlaps with spec1 at index 2

    let vtx1 = VirtualTx::new(spec1);
    let vtx2 = VirtualTx::new(spec2);

    let result = VirtualTx::compose(&[vtx1, vtx2]);
    assert!(result.is_err());
}

#[test]
fn compose_overlap_is_overlapping_ranges_error() {
    let vtx1 = VirtualTx::new(spec(0..3, 0..1));
    let vtx2 = VirtualTx::new(spec(2..4, 1..2));
    assert!(matches!(VirtualTx::compose_parts(&[vtx1, vtx2]), Err(VtxError::OverlappingRanges(_))));
}

#[test]
fn compose_of_huge_overlapping_ranges_is_overlapping_ranges_error() {
    let vtx1 = VirtualTx::new(spec(0..usize::MAX, 0..0));
    let vtx2 = VirtualTx::new(spec(0..usize::MAX, 0..0));
    match VirtualTx::compose(&[vtx1, vtx2]) {
        Err(VtxError::OverlappingRanges(msg)) => {
            assert_eq!(msg, format!("input ranges 0..{} and 0..{} overlap", usize::MAX, usize::MAX))
        },
        other => panic!("unexpected {:?}", other.map(|_| ())),
    }
}

#[test]
fn compose_range_past_total_is_invalid_spec() {
    // One VTx owning inputs 5..7: the total is 2, so index 5 does not exist.
    let mut vtx = VirtualTx::new(spec(5..7, 0..0));
    vtx.inputs.push(dummy_cell_input(0));
    match VirtualTx::compose_parts(&[vtx]) {
        Err(VtxError::InvalidSpec(msg)) => assert_eq!(msg, "input index 5 exceeds total 2"),
        other => panic!("unexpected {:?}", other),
    }
    let vtx = VirtualTx::new(spec(0..0, 1..2));
    match VirtualTx::compose_parts(&[vtx]) {
        Err(VtxError::InvalidSpec(msg)) => assert_eq!(msg, "output index 1 exceeds total 1"),
        other => panic!("unexpected {:?}", other),
    }
}

#[test]
fn compose_places_components_by_range() {
    // The second VTx owns the first positions.
    let mut vtx1 = VirtualTx::new(spec(2..4, 1..2));
    vtx1.inputs.push(dummy_cell_input(10));
    vtx1.inputs.push(dummy_cell_input(11));
    vtx1.witnesses.push(vec![0xa1]);
    vtx1.outputs.push(dummy_cell_output(1000));
    vtx1.outputs_data.push(vec![0xd1]);
    vtx1.header_deps.push([7u8; 32]);

    let mut vtx2 = VirtualTx::new(spec(0..2, 0..1));
    vtx2.inputs.push(dummy_cell_input(20));
    vtx2.witnesses.push(vec![0xb1]);
    vtx2.witnesses.push(vec![0xb2]);
    vtx2.outputs.push(dummy_cell_output(2000));
    vtx2.header_deps.push([7u8; 32]);
    vtx2.header_deps.push([8u8; 32]);

    let ComposedTx { inputs, outputs, outputs_data, witnesses, cell_deps, header_deps } =
        VirtualTx::compose_parts(&[vtx1, vtx2]).unwrap();
    // Position 1 has no input: it is dropped.
    assert_eq!(inputs, vec![dummy_cell_input(20), dummy_cell_input(10), dummy_cell_input(11)]);
    assert_eq!(outputs, vec![dummy_cell_output(2000), dummy_cell_output(1000)]);
    // Output 0 has no data: it is empty.
    assert_eq!(outputs_data, vec![vec![], vec![0xd1]]);
    assert_eq!(witnesses, vec![vec![0xb1], vec![0xb2], vec![0xa1], vec![]]);
    assert!(cell_deps.is_empty());
    assert_eq!(header_deps, vec![[7u8; 32], [8u8; 32]]);
}

#[test]
fn compose_filled_ranges_keep_components_at_their_global_positions() {
    // Every position is filled: input (output) `l` of a VTx lands at `start + l`.
    let mut vtx1 = VirtualTx::new(spec(3..5, 1..2));
    vtx1.inputs.push(dummy_cell_input(30));
    vtx1.inputs.push(dummy_cell_input(40));
    vtx1.outputs.push(dummy_cell_output(1));
    let mut vtx2 = VirtualTx::new(spec(0..3, 0..1));
    vtx2.inputs.push(dummy_cell_input(0));
    vtx2.inputs.push(dummy_cell_input(10));
    vtx2.inputs.push(dummy_cell_input(20));
    vtx2.outputs.push(dummy_cell_output(0));
    let parts = VirtualTx::compose_parts(&[vtx1, vtx2]).unwrap();
    let expected: Vec<CellInput> = [0, 10, 20, 30, 40].iter().map(|i| dummy_cell_input(*i)).collect();
    assert_eq!(parts.inputs, expected);
    assert_eq!(parts.outputs, vec![dummy_cell_output(0), dummy_cell_output(1)]);
    assert_eq!(parts.witnesses, vec![Vec::<u8>::new(); 5]);
    assert_eq!(parts.outputs_data, vec![Vec::<u8>::new(); 2]);
}

#[test]
fn composed_transaction_holds_the_composed_components() {
    let packed_input = |index: u32| packed::CellInput::new(packed::OutPoint::new(packed::Byte32::zero(), index), 0);
    let mut vtx1 = VirtualTx::new(spec(1..2, 0..1));
    vtx1.inputs.push(dummy_cell_input(7));
    vtx1.witnesses.push(vec![0xee]);
    vtx1.outputs.push(dummy_cell_output(55));
    vtx1.outputs_data.push(vec![1, 2, 3]);
    vtx1.header_deps.push([9u8; 32]);
    let mut vtx2 = VirtualTx::new(spec(0..1, 0..0));
    vtx2.inputs.push(dummy_cell_input(8));
    vtx2.cell_deps.push(CellDep { out_point: OutPoint { tx_hash: [3u8; 32], index: 1 }, dep_type: 1 });
    let tx = VirtualTx::compose(&[vtx1, vtx2]).unwrap();
    let inputs: Vec<Vec<u8>> = tx.inputs().into_iter().map(|i| i.as_slice().to_vec()).collect();
    assert_eq!(inputs, vec![packed_input(8).as_slice().to_vec(), packed_input(7).as_slice().to_vec()]);
    let lock = packed::Script::new_builder()
        .code_hash(packed::Byte32::zero())
        .hash_type(packed::Byte::new(0))
        .args(&[][..])
        .build();
    let capacity: packed::Uint64 = 55u64.pack();
    let output = packed::CellOutput::new_builder().capacity(capacity).lock(lock).build();
    let outputs: Vec<Vec<u8>> = tx.outputs().into_iter().map(|o| o.as_slice().to_vec()).collect();
    assert_eq!(outputs, vec![output.as_slice().to_vec()]);
    let data: Vec<Vec<u8>> = tx.outputs_data().into_iter().map(|d| d.raw_data().to_vec()).collect();
    assert_eq!(data, vec![vec![1, 2, 3]]);
    let witnesses: Vec<Vec<u8>> = tx.witnesses().into_iter().map(|w| w.raw_data().to_vec()).collect();
    assert_eq!(witnesses, vec![vec![], vec![0xee]]);
    let dep = packed::CellDep::new_builder()
        .out_point(packed::OutPoint::new(packed::Byte32::new([3u8; 32]), 1))
        .dep_type(packed::Byte::new(1))
        .build();
    let deps: Vec<Vec<u8>> = tx.cell_deps().into_iter().map(|d| d.as_slice().to_vec()).collect();
    assert_eq!(deps, vec![dep.as_slice().to_vec()]);
    let headers: Vec<Vec<u8>> = tx.header_deps().into_iter().map(|h| h.as_slice().to_vec()).collect();
    assert_eq!(headers, vec![vec![9u8; 32]]);
}

#[test]
fn compose_keeps_cell_deps_with_distinct_out_points() {
    let dep = |index: u32, dep_type: u8| CellDep { out_point: OutPoint { tx_hash: [1u8; 32], index }, dep_type };
    let mut vtx1 = VirtualTx::new(spec(0..0, 0..0));
    vtx1.cell_deps.push(dep(0, 0));
    vtx1.cell_deps.push(dep(1, 0));
    let mut vtx2 = VirtualTx::new(spec(0..0, 0..0));
    vtx2.cell_deps.push(dep(1, 1));
    vtx2.cell_deps.push(dep(2, 1));
    let parts = VirtualTx::compose_parts(&[vtx1, vtx2]).unwrap();
    // The dep type does not matter: the first with an out point stays.
    assert_eq!(parts.cell_deps, vec![dep(0, 0), dep(1, 0), dep(2, 1)]);
}

#[test]
fn compose_of_nothing_is_empty() {
    let parts = VirtualTx::compose_parts(&[]).unwrap();
    assert!(parts.inputs.is_empty() && parts.outputs.is_empty() && parts.witnesses.is_empty());
    let tx = VirtualTx::compose(&[]).unwrap();
    assert_eq!(tx.inputs().len(), 0);
}

#[test]
fn test_collect_script_groups() {
    let lock1 = lock_script(&[1]);
    let lock2 = lock_script(&[2]);

    let cell1 = CellOutput { capacity: 100, lock: lock1.clone(), type_: None };
    let cell2 = CellOutput { capacity: 200, lock: lock2, type_: None };
    let cell3 = CellOutput { capacity: 300, lock: lock1, type_: None };

    let mut vtx1 = VirtualTx::new(spec(0..1, 0..1));
    vtx1.resolved_inputs.push(ResolvedCell { output: cell1, data: vec![] });

    let mut vtx2 = VirtualTx::new(spec(1..3, 1..2));
    vtx2.resolved_inputs.push(ResolvedCell { output: cell2, data: vec![] });
    vtx2.resolved_inputs.push(ResolvedCell { output: cell3, data: vec![] });

    let groups = collect_script_groups(&[vtx1, vtx2]);

    // lock1 appears in vtx1[0] and vtx2[1] - spans 2 VTxs
    // lock2 appears in vtx2[0] - single VTx
    assert_eq!(groups.len(), 2);

    let lock1_group = groups.iter().find(|g| g.vtx_indices.len() == 2).unwrap();
    assert_eq!(lock1_group.vtx_indices, vec![0, 1]);

    let lock2_group = groups.iter().find(|g| g.vtx_indices.len() == 1).unwrap();
    assert_eq!(lock2_group.vtx_indices, vec![1]);
}

#[test]
fn script_groups_list_local_indices_in_order() {
    let a = lock_script(&[1]);
    let b = lock_script(&[2]);
    let cell = |lock: &Script| ResolvedCell { output: CellOutput { capacity: 1, lock: lock.clone(), type_: None }, data: vec![] };
    let mut vtx1 = VirtualTx::new(spec(0..0, 0..0));
    vtx1.resolved_inputs.push(cell(&b));
    vtx1.resolved_inputs.push(cell(&a));
    vtx1.resolved_inputs.push(cell(&b));
    let vtx2 = VirtualTx::new(spec(0..0, 0..0));
    let mut vtx3 = VirtualTx::new(spec(0..0, 0..0));
    vtx3.resolved_inputs.push(cell(&a));
    vtx3.resolved_inputs.push(cell(&a));
    let groups = collect_script_groups(&[vtx1, vtx2, vtx3]);
    assert_eq!(groups.len(), 2);
    // Groups come in the order of their first input.
    assert_eq!(groups[0].vtx_indices, vec![0]);
    assert_eq!(groups[0].local_input_indices, vec![vec![0, 2]]);
    assert_eq!(groups[1].vtx_indices, vec![0, 2]);
    assert_eq!(groups[1].local_input_indices, vec![vec![1], vec![0, 1]]);
    assert_ne!(groups[0].script_hash, groups[1].script_hash);
    assert!(collect_script_groups(&[]).is_empty());
}

#[test]
fn getters_read_by_local_index() {
    let mut vtx = VirtualTx::new(spec(0..2, 0..1));
    vtx.inputs.push(dummy_cell_input(4));
    vtx.outputs.push(dummy_cell_output(9));
    vtx.outputs_data.push(vec![1, 2]);
    vtx.witnesses.push(vec![3]);
    vtx.resolved_inputs.push(ResolvedCell { output: dummy_cell_output(5), data: vec![6] });
    vtx.resolved_dep_cells.push(ResolvedCell { output: dummy_cell_output(7), data: vec![8] });
    assert_eq!(vtx.inputs_len(), 1);
    assert_eq!(vtx.outputs_len(), 1);
    assert_eq!(vtx.get_input(0), Some(&dummy_cell_input(4)));
    assert_eq!(vtx.get_input(1), None);
    assert_eq!(vtx.get_output(0), Some(&dummy_cell_output(9)));
    assert_eq!(vtx.get_output_data(0), Some(&vec![1, 2]));
    assert_eq!(vtx.get_witness(0), Some(&vec![3]));
    assert_eq!(vtx.get_witness(1), None);
    assert_eq!(vtx.get_resolved_input(0).map(|c| c.data.clone()), Some(vec![6]));
    assert_eq!(vtx.get_cell(Source::Input, 0), Some(&dummy_cell_output(5)));
    assert_eq!(vtx.get_cell(Source::GroupOutput, 0), Some(&dummy_cell_output(9)));
    assert_eq!(vtx.get_cell(Source::CellDep, 0), Some(&dummy_cell_output(7)));
    assert_eq!(vtx.get_cell(Source::HeaderDep, 0), None);
    assert_eq!(vtx.get_cell(Source::Output, 1), None);
    assert_eq!(vtx.get_cell_data(Source::GroupInput, 0), Some(vec![6]));
    assert_eq!(vtx.get_cell_data(Source::Output, 0), Some(vec![1, 2]));
    assert_eq!(vtx.get_cell_data(Source::CellDep, 0), Some(vec![8]));
    assert_eq!(vtx.get_cell_data(Source::HeaderDep, 0), None);
    let other = VirtualTx::new(spec(1..3, 5..6));
    assert!(matches!(vtx.validate_no_overlap(&other), Err(VtxError::OverlappingRanges(_))));
}
