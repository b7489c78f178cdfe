use ckb_types::packed;
use ckb_types::prelude::{Builder, Entity, Pack, Unpack};
use ckb_vtx::cell::{u64_to_le_bytes, CellDep, CellInput, CellOutput, OutPoint, Script};
use ckb_vtx::constants::{CellField, InputField, Source};
use ckb_vtx::types::ResolvedCell;
use ckb_vtx::{VirtualTx, VtxSpec, VtxSyscallContext};

fn le32(v: u32) -> Vec<u8> {
    v.to_le_bytes().to_vec()
}

fn script_layout(s: &Script) -> Vec<u8> {
    let mut out = Vec::new();
    let total = 16 + 32 + 1 + 4 + s.args.len() as u32;
    out.extend(le32(total));
    out.extend(le32(16));
    out.extend(le32(48));
    out.extend(le32(49));
    out.extend_from_slice(&s.code_hash);
    out.push(s.hash_type);
    out.extend(le32(s.args.len() as u32));
    out.extend_from_slice(&s.args);
    out
}

fn packed_script(s: &Script) -> packed::Script {
    packed::Script::new_builder()
        .code_hash(packed::Byte32::new(s.code_hash))
        .hash_type(packed::Byte::new(s.hash_type))
        .args(&s.args[..])
        .build()
}

fn empty_spec() -> VtxSpec {
    VtxSpec::new(0..0, 0..0, 0, 0)
}

fn context_with(vtx: VirtualTx, script: Script) -> VtxSyscallContext {
    VtxSyscallContext::new(vtx, script)
}

fn any_script() -> Script {
    Script { code_hash: [0x55; 32], hash_type: 1, args: vec![] }
}

#[test]
fn script_encoding_is_a_molecule_table() {
    let script = Script { code_hash: [0x11; 32], hash_type: 2, args: vec![1, 2, 3] };
    let ctx = context_with(VirtualTx::new(empty_spec()), script.clone());
    let bytes = ctx.load_script();
    assert_eq!(bytes, script_layout(&script));
    assert_eq!(bytes.len(), 56);
}

#[test]
fn cell_output_encoding_is_a_molecule_table() {
    let lock = Script { code_hash: [0x22; 32], hash_type: 0, args: vec![9] };
    let type_script = Script { code_hash: [0x33; 32], hash_type: 1, args: vec![] };
    for type_ in [None, Some(type_script)] {
        let output = CellOutput { capacity: 0x0102030405060708, lock: lock.clone(), type_: type_.clone() };
        let mut vtx = VirtualTx::new(empty_spec());
        vtx.outputs.push(output);
        let ctx = context_with(vtx, any_script());
        let lock_bytes = script_layout(&lock);
        let type_bytes = type_.as_ref().map(script_layout).unwrap_or_default();
        let mut expected = Vec::new();
        let total = 16 + 8 + lock_bytes.len() + type_bytes.len();
        expected.extend(le32(total as u32));
        expected.extend(le32(16));
        expected.extend(le32(24));
        expected.extend(le32((24 + lock_bytes.len()) as u32));
        expected.extend_from_slice(&0x0102030405060708u64.to_le_bytes());
        expected.extend(lock_bytes.clone());
        expected.extend(type_bytes);
        assert_eq!(ctx.load_cell(0, Source::Output.to_u64()), Ok(expected));
        assert_eq!(ctx.load_cell_by_field(0, Source::Output.to_u64(), CellField::Lock.to_u64()), Ok(lock_bytes));
    }
}

#[test]
fn fixed_structs_encode_field_by_field() {
    let out_point = OutPoint { tx_hash: [0x44; 32], index: 0x01020304 };
    let mut expected_out_point = vec![0x44; 32];
    expected_out_point.extend([4, 3, 2, 1]);
    let input = CellInput { previous_output: out_point, since: 5 };
    let mut expected_input = 5u64.to_le_bytes().to_vec();
    expected_input.extend(expected_out_point.clone());

    let mut vtx = VirtualTx::new(VtxSpec::new(0..1, 0..0, 0, 0));
    vtx.inputs.push(input);
    let dep = CellDep { out_point, dep_type: 1 };
    vtx.cell_deps.push(dep);
    let ctx = context_with(vtx.clone(), any_script());
    assert_eq!(ctx.load_input_by_field(0, Source::Input.to_u64(), InputField::OutPoint.to_u64()), Ok(expected_out_point.clone()));
    assert_eq!(ctx.load_input(0, Source::Input.to_u64()), Ok(expected_input));

    let tx = VirtualTx::compose(&[vtx]).unwrap();
    let mut expected_dep = expected_out_point;
    expected_dep.push(1);
    assert_eq!(tx.cell_deps().get(0).unwrap().as_slice().to_vec(), expected_dep);
}

#[test]
fn encodings_agree_with_ckb_types() {
    let script = Script { code_hash: [7; 32], hash_type: 4, args: vec![0, 1] };
    let packed = packed_script(&script);
    let ctx = context_with(VirtualTx::new(empty_spec()), script);
    assert_eq!(ctx.load_script(), packed.as_slice().to_vec());
    let hash: [u8; 32] = packed.calc_script_hash().unpack();
    assert_eq!(ctx.load_script_hash(), hash);
}

#[test]
fn hashes() {
    let lock_a = Script { code_hash: [0; 32], hash_type: 0, args: vec![1] };
    let lock_b = Script { code_hash: [0; 32], hash_type: 0, args: vec![2] };
    let mut vtx = VirtualTx::new(empty_spec());
    vtx.resolved_inputs.push(ResolvedCell { output: CellOutput { capacity: 1, lock: lock_a.clone(), type_: None }, data: vec![] });
    vtx.resolved_inputs.push(ResolvedCell { output: CellOutput { capacity: 1, lock: lock_b.clone(), type_: None }, data: vec![1] });
    vtx.resolved_inputs.push(ResolvedCell { output: CellOutput { capacity: 1, lock: lock_b, type_: None }, data: vec![2] });
    let ctx = context_with(vtx, any_script());
    let data_hash = |i: usize| ctx.load_cell_by_field(i, Source::Input.to_u64(), CellField::DataHash.to_u64()).unwrap();
    assert_eq!(data_hash(0), vec![0u8; 32]);
    assert_ne!(data_hash(1), vec![0u8; 32]);
    assert_ne!(data_hash(1), data_hash(2));
    let expected: [u8; 32] = packed::CellOutput::calc_data_hash(&[1]).unpack();
    assert_eq!(data_hash(1), expected.to_vec());
    let lock_hash = |i: usize| ctx.load_cell_by_field(i, Source::Input.to_u64(), CellField::LockHash.to_u64()).unwrap();
    assert_ne!(lock_hash(0), lock_hash(1));
    let expected: [u8; 32] = packed_script(&lock_a).calc_script_hash().unpack();
    assert_eq!(lock_hash(0), expected.to_vec());
}

#[test]
fn tx_hash_is_that_of_the_vtx_components() {
    let input = CellInput { previous_output: OutPoint { tx_hash: [6; 32], index: 2 }, since: 9 };
    let output = CellOutput { capacity: 77, lock: any_script(), type_: None };
    let mut vtx = VirtualTx::new(empty_spec());
    vtx.inputs.push(input);
    vtx.outputs.push(output.clone());
    vtx.outputs_data.push(vec![4, 5]);
    let ctx = context_with(vtx, any_script());
    let packed_input = packed::CellInput::new(packed::OutPoint::new(packed::Byte32::new([6; 32]), 2), 9);
    let capacity: packed::Uint64 = 77u64.pack();
    let packed_output = packed::CellOutput::new_builder().capacity(capacity).lock(packed_script(&output.lock)).build();
    let expected: [u8; 32] = ckb_types::core::TransactionBuilder::default()
        .input(packed_input)
        .output(packed_output)
        .output_data(&[4u8, 5][..])
        .build()
        .hash()
        .unpack();
    assert_eq!(ctx.load_tx_hash().unwrap(), expected);
    let empty = context_with(VirtualTx::new(empty_spec()), any_script());
    assert_ne!(empty.load_tx_hash().unwrap(), expected);
}

#[test]
fn little_endian_bytes() {
    assert_eq!(u64_to_le_bytes(0x0102030405060708), vec![8, 7, 6, 5, 4, 3, 2, 1]);
    assert_eq!(u64_to_le_bytes(0), vec![0; 8]);
    assert_eq!(u64_to_le_bytes(u64::MAX), vec![0xff; 8]);
}

#[test]
fn copies_are_equal() {
    let out = CellOutput { capacity: 3, lock: Script { code_hash: [1; 32], hash_type: 1, args: vec![5] }, type_: Some(Script { code_hash: [2; 32], hash_type: 0, args: vec![] }) };
    assert_eq!(out.copy(), out);
    assert_eq!(out.lock.copy(), out.lock);
}
