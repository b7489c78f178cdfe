use ckb_vtx::cell::{CellInput, CellOutput, OutPoint, Script};
use ckb_vtx::constants::{CellField, InputField, Source, CKB_INDEX_OUT_OF_BOUND, CKB_ITEM_MISSING};
use ckb_vtx::types::ResolvedCell;
use ckb_vtx::{VirtualTx, VtxSpec, VtxSyscallContext};

fn make_lock_script(args: &[u8]) -> Script {
    Script { code_hash: [0u8; 32], hash_type: 0, args: args.to_vec() }
}

fn make_cell_output(capacity: u64, lock: Script) -> CellOutput {
    CellOutput { capacity, lock, type_: None }
}

fn input(index: u32, since: u64) -> CellInput {
    CellInput { previous_output: OutPoint { tx_hash: [0u8; 32], index }, since }
}

fn setup_context() -> VtxSyscallContext {
    let lock1 = make_lock_script(&[1]);
    let lock2 = make_lock_script(&[2]);

    let spec = VtxSpec::new(0..3, 0..2, 0, 1);
    let mut vtx = VirtualTx::new(spec);

    // 3 inputs: 2 with lock1, 1 with lock2
    vtx.inputs.push(input(0, 0));
    vtx.inputs.push(input(1, 100));
    vtx.inputs.push(input(2, 0));

    vtx.resolved_inputs.push(ResolvedCell { output: make_cell_output(1000, lock1.clone()), data: vec![0xaa, 0xbb] });
    vtx.resolved_inputs.push(ResolvedCell { output: make_cell_output(2000, lock2), data: vec![0xcc] });
    vtx.resolved_inputs.push(ResolvedCell { output: make_cell_output(3000, lock1.clone()), data: vec![] });

    // 2 outputs
    vtx.outputs.push(make_cell_output(500, lock1.clone()));
    vtx.outputs.push(make_cell_output(4500, lock1.clone()));
    vtx.outputs_data.push(vec![]);
    vtx.outputs_data.push(vec![]);

    // Witnesses
    vtx.witnesses.push(vec![0x01]);
    vtx.witnesses.push(vec![0x02]);
    vtx.witnesses.push(vec![0x03]);

    VtxSyscallContext::new(vtx, lock1)
}

#[test]
fn test_load_cell_input_source() {
    let ctx = setup_context();

    // Load first input cell
    let cell_data = ctx.load_cell(0, Source::Input.to_u64()).unwrap();
    assert!(!cell_data.is_empty());

    // Out of bounds
    let result = ctx.load_cell(5, Source::Input.to_u64());
    assert_eq!(result.unwrap_err(), CKB_INDEX_OUT_OF_BOUND);
}

#[test]
fn test_load_cell_output_source() {
    let ctx = setup_context();
    let cell_data = ctx.load_cell(0, Source::Output.to_u64()).unwrap();
    assert!(!cell_data.is_empty());
}

#[test]
fn test_load_input() {
    let ctx = setup_context();
    let input_data = ctx.load_input(0, Source::Input.to_u64()).unwrap();
    assert!(!input_data.is_empty());
}

#[test]
fn test_load_witness() {
    let ctx = setup_context();
    let witness = ctx.load_witness(0, Source::Input.to_u64()).unwrap();
    assert_eq!(witness, vec![0x01]);
}

#[test]
fn test_group_input_indices() {
    let ctx = setup_context();
    // lock1 is used by inputs 0 and 2
    assert_eq!(ctx.group_input_indices(), &[0, 2]);
}

#[test]
fn test_load_cell_group_input() {
    let ctx = setup_context();
    // GroupInput index 0 maps to local index 0 (lock1)
    let cell = ctx.load_cell(0, Source::GroupInput.to_u64()).unwrap();
    assert!(!cell.is_empty());
    // GroupInput index 1 maps to local index 2 (lock1)
    let cell = ctx.load_cell(1, Source::GroupInput.to_u64()).unwrap();
    assert!(!cell.is_empty());
    // GroupInput index 2 should be out of bounds
    let result = ctx.load_cell(2, Source::GroupInput.to_u64());
    assert_eq!(result.unwrap_err(), CKB_INDEX_OUT_OF_BOUND);
}

#[test]
fn test_load_cell_by_field_capacity() {
    let ctx = setup_context();
    let data = ctx.load_cell_by_field(0, Source::Input.to_u64(), CellField::Capacity.to_u64()).unwrap();
    let capacity = u64::from_le_bytes(data.try_into().unwrap());
    assert_eq!(capacity, 1000);
}

#[test]
fn test_load_cell_by_field_lock() {
    let ctx = setup_context();
    let data = ctx.load_cell_by_field(0, Source::Input.to_u64(), CellField::Lock.to_u64()).unwrap();
    assert!(!data.is_empty());
}

#[test]
fn test_load_cell_by_field_type_missing() {
    let ctx = setup_context();
    // Our test cells have no type script
    let result = ctx.load_cell_by_field(0, Source::Input.to_u64(), CellField::Type.to_u64());
    assert_eq!(result.unwrap_err(), CKB_ITEM_MISSING);
}

#[test]
fn test_load_input_by_field_since() {
    let ctx = setup_context();
    let data = ctx.load_input_by_field(1, Source::Input.to_u64(), InputField::Since.to_u64()).unwrap();
    let since = u64::from_le_bytes(data.try_into().unwrap());
    assert_eq!(since, 100);
}

#[test]
fn test_load_cell_data_input() {
    let ctx = setup_context();
    let data = ctx.load_cell_data(0, Source::Input.to_u64()).unwrap();
    assert_eq!(data, vec![0xaa, 0xbb]);
}

#[test]
fn test_load_script() {
    let ctx = setup_context();
    let script_bytes = ctx.load_script();
    assert!(!script_bytes.is_empty());
}

#[test]
fn test_load_script_hash() {
    let ctx = setup_context();
    let hash = ctx.load_script_hash();
    assert_ne!(hash, [0u8; 32]);
}

#[test]
fn test_get_count() {
    let ctx = setup_context();
    assert_eq!(ctx.get_count(Source::Input.to_u64()).unwrap(), 3);
    assert_eq!(ctx.get_count(Source::Output.to_u64()).unwrap(), 2);
    assert_eq!(ctx.get_count(Source::GroupInput.to_u64()).unwrap(), 2); // lock1 has 2 inputs
}

#[test]
fn test_copy_with_offset() {
    let src = [1, 2, 3, 4, 5];
    let mut buf = [0u8; 3];

    let total = VtxSyscallContext::copy_with_offset(&src, &mut buf, 0);
    assert_eq!(total, 5);
    assert_eq!(buf, [1, 2, 3]);

    let total = VtxSyscallContext::copy_with_offset(&src, &mut buf, 2);
    assert_eq!(total, 5);
    assert_eq!(buf, [3, 4, 5]);

    let total = VtxSyscallContext::copy_with_offset(&src, &mut buf, 10);
    assert_eq!(total, 5);
    // buf unchanged since offset is past end
}

#[test]
fn test_load_tx_hash() {
    let ctx = setup_context();
    let hash = ctx.load_tx_hash().unwrap();
    // Should return a non-zero hash
    assert_ne!(hash, [0u8; 32]);
}

#[test]
fn copy_with_offset_keeps_the_rest_of_the_buffer() {
    let src = [9, 8];
    let mut buf = [0u8; 4];
    assert_eq!(VtxSyscallContext::copy_with_offset(&src, &mut buf, 0), 2);
    assert_eq!(buf, [9, 8, 0, 0]);
    let mut buf = [7u8; 4];
    assert_eq!(VtxSyscallContext::copy_with_offset(&src, &mut buf, 1), 2);
    assert_eq!(buf, [8, 7, 7, 7]);
    let mut buf = [7u8; 2];
    assert_eq!(VtxSyscallContext::copy_with_offset(&src, &mut buf, 2), 2);
    assert_eq!(buf, [7, 7]);
}

#[test]
fn group_sources_read_through_the_group() {
    let ctx = setup_context();
    // Group input 1 is local input 2.
    assert_eq!(ctx.load_cell(1, Source::GroupInput.to_u64()), ctx.load_cell(2, Source::Input.to_u64()));
    assert_eq!(ctx.load_input(1, Source::GroupInput.to_u64()), ctx.load_input(2, Source::Input.to_u64()));
    assert_eq!(ctx.load_witness(1, Source::GroupInput.to_u64()).unwrap(), vec![0x03]);
    assert_eq!(ctx.load_cell_data(1, Source::GroupInput.to_u64()).unwrap(), Vec::<u8>::new());
    // Both outputs use lock1.
    assert_eq!(ctx.group_output_indices(), &[0, 1]);
    assert_eq!(ctx.get_count(Source::GroupOutput.to_u64()).unwrap(), 2);
    assert_eq!(ctx.load_cell(1, Source::GroupOutput.to_u64()), ctx.load_cell(1, Source::Output.to_u64()));
    // A group output index reads the witness at the output's local index.
    assert_eq!(ctx.load_witness(1, Source::GroupOutput.to_u64()).unwrap(), vec![0x02]);
}

#[test]
fn invalid_codes_give_minus_one() {
    let ctx = setup_context();
    assert_eq!(ctx.load_cell(0, 7), Err(-1));
    assert_eq!(ctx.load_input(0, 0), Err(-1));
    assert_eq!(ctx.load_witness(0, 5), Err(-1));
    assert_eq!(ctx.load_header(0, 9), Err(-1));
    assert_eq!(ctx.load_cell_data(0, 0), Err(-1));
    assert_eq!(ctx.get_count(0), Err(-1));
    assert_eq!(ctx.load_cell_by_field(0, Source::Input.to_u64(), 7), Err(-1));
    assert_eq!(ctx.load_cell_by_field(0, 8, 0), Err(-1));
    assert_eq!(ctx.load_input_by_field(0, Source::Input.to_u64(), 2), Err(-1));
}

#[test]
fn wrong_sources_are_out_of_bound() {
    let ctx = setup_context();
    assert_eq!(ctx.load_input(0, Source::Output.to_u64()), Err(CKB_INDEX_OUT_OF_BOUND));
    assert_eq!(ctx.load_witness(0, Source::CellDep.to_u64()), Err(CKB_INDEX_OUT_OF_BOUND));
    assert_eq!(ctx.load_header(0, Source::HeaderDep.to_u64()), Err(CKB_INDEX_OUT_OF_BOUND));
    assert_eq!(ctx.load_header(0, Source::Input.to_u64()), Err(CKB_INDEX_OUT_OF_BOUND));
    assert_eq!(ctx.load_cell(0, Source::HeaderDep.to_u64()), Err(CKB_INDEX_OUT_OF_BOUND));
    assert_eq!(ctx.load_cell(0, Source::CellDep.to_u64()), Err(CKB_INDEX_OUT_OF_BOUND));
    assert_eq!(ctx.load_cell_data(0, Source::HeaderDep.to_u64()), Err(CKB_INDEX_OUT_OF_BOUND));
    assert_eq!(ctx.load_input_by_field(3, Source::Input.to_u64(), 1), Err(CKB_INDEX_OUT_OF_BOUND));
    assert_eq!(ctx.get_count(Source::CellDep.to_u64()), Ok(0));
    assert_eq!(ctx.get_count(Source::HeaderDep.to_u64()), Ok(0));
}

#[test]
fn headers_are_served_from_header_deps() {
    let mut vtx = VirtualTx::new(VtxSpec::default());
    vtx.resolved_headers.push(vec![5u8; 208]);
    let ctx = VtxSyscallContext::new(vtx, make_lock_script(&[]));
    assert_eq!(ctx.load_header(0, Source::HeaderDep.to_u64()).unwrap(), vec![5u8; 208]);
    assert_eq!(ctx.load_header(1, Source::HeaderDep.to_u64()), Err(CKB_INDEX_OUT_OF_BOUND));
}

#[test]
fn cell_fields_match_the_whole_cell() {
    let ctx = setup_context();
    let source = Source::Input.to_u64();
    let cell = ctx.load_cell(0, source).unwrap();
    let occupied = ctx.load_cell_by_field(0, source, CellField::OccupiedCapacity.to_u64()).unwrap();
    assert_eq!(u64::from_le_bytes(occupied.try_into().unwrap()), cell.len() as u64);
    // The lock hash of a group input is the current script's hash.
    let lock_hash = ctx.load_cell_by_field(0, source, CellField::LockHash.to_u64()).unwrap();
    assert_eq!(lock_hash, ctx.load_script_hash().to_vec());
    // The lock of a group input is the current script.
    let lock = ctx.load_cell_by_field(0, source, CellField::Lock.to_u64()).unwrap();
    assert_eq!(lock, ctx.load_script());
    assert_eq!(ctx.load_cell_by_field(0, source, CellField::TypeHash.to_u64()), Err(CKB_ITEM_MISSING));
    // Empty data hashes to zeros; non-empty data does not.
    assert_eq!(ctx.load_cell_by_field(2, source, CellField::DataHash.to_u64()).unwrap(), vec![0u8; 32]);
    let hash = ctx.load_cell_by_field(0, source, CellField::DataHash.to_u64()).unwrap();
    assert_eq!(hash.len(), 32);
    assert_ne!(hash, vec![0u8; 32]);
    assert_eq!(ctx.load_cell_by_field(9, source, CellField::Capacity.to_u64()), Err(CKB_INDEX_OUT_OF_BOUND));
}

#[test]
fn type_fields_of_a_cell_with_a_type_script() {
    let type_script = Script { code_hash: [3u8; 32], hash_type: 1, args: vec![4, 5] };
    let mut vtx = VirtualTx::new(VtxSpec::default());
    vtx.outputs.push(CellOutput { capacity: 61, lock: make_lock_script(&[]), type_: Some(type_script.clone()) });
    let ctx = VtxSyscallContext::new(vtx, type_script);
    let source = Source::Output.to_u64();
    assert_eq!(ctx.load_cell_by_field(0, source, CellField::Type.to_u64()).unwrap(), ctx.load_script());
    assert_eq!(ctx.load_cell_by_field(0, source, CellField::TypeHash.to_u64()).unwrap(), ctx.load_script_hash().to_vec());
    // The group is by lock script, not type script.
    assert_eq!(ctx.get_count(Source::GroupOutput.to_u64()), Ok(0));
}

#[test]
fn input_fields() {
    let ctx = setup_context();
    let out_point = ctx.load_input_by_field(1, Source::Input.to_u64(), InputField::OutPoint.to_u64()).unwrap();
    let mut expected = vec![0u8; 32];
    expected.extend_from_slice(&1u32.to_le_bytes());
    assert_eq!(out_point, expected);
    let whole = ctx.load_input(1, Source::Input.to_u64()).unwrap();
    let mut expected_input = 100u64.to_le_bytes().to_vec();
    expected_input.extend_from_slice(&expected);
    assert_eq!(whole, expected_input);
}

#[test]
fn context_keeps_the_vtx_and_script() {
    let ctx = setup_context();
    assert_eq!(ctx.vtx().inputs_len(), 3);
    assert_eq!(ctx.current_script(), &make_lock_script(&[1]));
}

#[test]
fn tx_hash_depends_on_the_inputs() {
    let ctx = setup_context();
    let mut vtx = VirtualTx::new(VtxSpec::default());
    vtx.inputs.push(input(0, 0));
    let other = VtxSyscallContext::new(vtx, make_lock_script(&[1]));
    assert_ne!(ctx.load_tx_hash().unwrap(), other.load_tx_hash().unwrap());
}
