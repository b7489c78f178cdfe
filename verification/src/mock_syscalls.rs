//! Mock syscall layer for CKB Virtual Tx.
//!
//! Scripts running in CKB-VM access transaction data through syscalls like
//! `ckb_load_cell`, `ckb_load_input`, `ckb_load_witness`, etc. The
//! `VtxSyscallContext` serves these calls from a VirtualTx instead of the
//! real current transaction, mapping the script group's indices into
//! the VTx's local indices.
//!
//! This module provides the logic layer; the actual FFI override must be done
//! in the target environment (C or Rust on-chain script).

use vstd::prelude::*;

use crate::cell::{
    cell_input_encoding, cell_output_bytes, cell_output_encoding, copy_bytes, data_hash_of, encode_inputs,
    encode_outputs, lemma_nested_bytes_deep_view,
    le_bytes, out_point_encoding, out_point_layout, cell_input_layout, script_bytes, script_encoding,
    script_hash, script_hash_of, spec_data_hash, spec_tx_hash, tx_hash_of, u64_to_le_bytes,
    CellOutput, CellOutputView, Script, ScriptView,
};
use crate::constants::{
    CellField, InputField, Source, CKB_INDEX_OUT_OF_BOUND, CKB_ITEM_MISSING,
};
use crate::error::VtxResult;
use crate::types::{ResolvedCell, VirtualTx};

verus! {

/// Context for mocking CKB syscalls against a VirtualTx.
///
/// This replaces the real syscall context so that scripts see the virtual
/// transaction's data instead of the real transaction's data.
///
/// For lock scripts, the script group may span multiple VTxs. The context
/// serves the part of the group that lies in this VTx: the inputs and
/// outputs whose lock script hash is the current script's hash.
pub struct VtxSyscallContext {
    /// The virtual transaction being served.
    vtx: VirtualTx,
    /// The script currently being verified.
    current_script: Script,
    /// Indices of inputs in this VTx that belong to the current script group.
    group_input_indices: Vec<usize>,
    /// Indices of outputs in this VTx that belong to the current script group.
    group_output_indices: Vec<usize>,
}

/// The indices, in increasing order, of the first `n` cells whose lock
/// script hash is `h`.
pub open spec fn lock_hash_indices(cells: Seq<CellOutputView>, h: Seq<u8>, n: int) -> Seq<usize>
    decreases n,
{
    if n <= 0 {
        Seq::empty()
    } else {
        lock_hash_indices(cells, h, n - 1) + if script_hash(cells[n - 1].lock) == h {
            seq![(n - 1) as usize]
        } else {
            Seq::<usize>::empty()
        }
    }
}

/// The outputs of the resolved inputs of `vtx`.
pub open spec fn resolved_input_cells(vtx: VirtualTx) -> Seq<CellOutputView> {
    vtx.resolved_inputs@.map_values(|c: ResolvedCell| c.output@)
}

/// The outputs of `vtx`.
pub open spec fn output_cells(vtx: VirtualTx) -> Seq<CellOutputView> {
    vtx.outputs@.map_values(|o: CellOutput| o@)
}

/// The bytes of a syscall result.
pub open spec fn result_bytes(r: Result<Vec<u8>, i32>) -> Result<Seq<u8>, i32> {
    match r {
        Ok(b) => Ok(b@),
        Err(e) => Err(e),
    }
}

/// The error code for a source or field code that is not one.
pub open spec fn invalid_code() -> i32 {
    -1i32
}

impl VtxSyscallContext {
    /// The virtual transaction served.
    pub closed spec fn tx(self) -> VirtualTx {
        self.vtx
    }

    /// The script being verified.
    pub closed spec fn script(self) -> ScriptView {
        self.current_script@
    }

    /// The group's input indices.
    pub closed spec fn group_inputs(self) -> Seq<usize> {
        self.group_input_indices@
    }

    /// The group's output indices.
    pub closed spec fn group_outputs(self) -> Seq<usize> {
        self.group_output_indices@
    }

    /// The local index that `index` names under `source`: for the group
    /// sources, the group's `index`-th member; otherwise `index` itself.
    pub open spec fn resolved_index(self, index: int, source: Source) -> Option<int> {
        match source {
            Source::GroupInput => if 0 <= index < self.group_inputs().len() {
                Some(self.group_inputs()[index] as int)
            } else {
                None
            },
            Source::GroupOutput => if 0 <= index < self.group_outputs().len() {
                Some(self.group_outputs()[index] as int)
            } else {
                None
            },
            _ => Some(index),
        }
    }

    /// What `load_cell` returns.
    pub open spec fn load_cell_result(self, index: int, source_val: u64) -> Result<Seq<u8>, i32> {
        match Source::decode(source_val) {
            None => Err(invalid_code()),
            Some(source) => match self.resolved_index(index, source) {
                None => Err(CKB_INDEX_OUT_OF_BOUND),
                Some(j) => match self.tx().cell_at(source, j) {
                    Some(c) => Ok(cell_output_bytes(c)),
                    None => Err(CKB_INDEX_OUT_OF_BOUND),
                },
            },
        }
    }

    /// What `load_input` returns.
    pub open spec fn load_input_result(self, index: int, source_val: u64) -> Result<Seq<u8>, i32> {
        match Source::decode(source_val) {
            None => Err(invalid_code()),
            Some(source) => match self.resolved_index(index, source) {
                None => Err(CKB_INDEX_OUT_OF_BOUND),
                Some(j) => if source.base() == Source::Input && 0 <= j < self.tx().inputs@.len() {
                    Ok(cell_input_layout(self.tx().inputs@[j]))
                } else {
                    Err(CKB_INDEX_OUT_OF_BOUND)
                },
            },
        }
    }

    /// What `load_witness` returns.
    pub open spec fn load_witness_result(self, index: int, source_val: u64) -> Result<Seq<u8>, i32> {
        match Source::decode(source_val) {
            None => Err(invalid_code()),
            Some(source) => match self.resolved_index(index, source) {
                None => Err(CKB_INDEX_OUT_OF_BOUND),
                Some(j) => if (source.base() == Source::Input || source.base() == Source::Output) && 0 <= j
                    < self.tx().witnesses@.len() {
                    Ok(self.tx().witnesses@[j]@)
                } else {
                    Err(CKB_INDEX_OUT_OF_BOUND)
                },
            },
        }
    }

    /// What `load_header` returns.
    pub open spec fn load_header_result(self, index: int, source_val: u64) -> Result<Seq<u8>, i32> {
        match Source::decode(source_val) {
            None => Err(invalid_code()),
            Some(source) => if source == Source::HeaderDep && 0 <= index < self.tx().resolved_headers@.len() {
                Ok(self.tx().resolved_headers@[index]@)
            } else {
                Err(CKB_INDEX_OUT_OF_BOUND)
            },
        }
    }

    /// What `load_cell_by_field` returns.
    pub open spec fn load_cell_by_field_result(self, index: int, source_val: u64, field_val: u64) -> Result<Seq<u8>, i32> {
        match Source::decode(source_val) {
            None => Err(invalid_code()),
            Some(source) => match CellField::decode(field_val) {
                None => Err(invalid_code()),
                Some(field) => match self.resolved_index(index, source) {
                    None => Err(CKB_INDEX_OUT_OF_BOUND),
                    Some(j) => match self.tx().cell_at(source, j) {
                        None => Err(CKB_INDEX_OUT_OF_BOUND),
                        Some(c) => match field {
                            CellField::Capacity => Ok(le_bytes(c.capacity as nat, 8)),
                            CellField::DataHash => match self.tx().cell_data_at(source, j) {
                                Some(d) => Ok(spec_data_hash(d)),
                                None => Err(CKB_INDEX_OUT_OF_BOUND),
                            },
                            CellField::Lock => Ok(script_bytes(c.lock)),
                            CellField::LockHash => Ok(script_hash(c.lock)),
                            CellField::Type => match c.type_ {
                                Some(t) => Ok(script_bytes(t)),
                                None => Err(CKB_ITEM_MISSING),
                            },
                            CellField::TypeHash => match c.type_ {
                                Some(t) => Ok(script_hash(t)),
                                None => Err(CKB_ITEM_MISSING),
                            },
                            CellField::OccupiedCapacity => Ok(le_bytes(cell_output_bytes(c).len(), 8)),
                        },
                    },
                },
            },
        }
    }

    /// What `load_input_by_field` returns.
    pub open spec fn load_input_by_field_result(self, index: int, source_val: u64, field_val: u64) -> Result<Seq<u8>, i32> {
        match Source::decode(source_val) {
            None => Err(invalid_code()),
            Some(source) => match InputField::decode(field_val) {
                None => Err(invalid_code()),
                Some(field) => match self.resolved_index(index, source) {
                    None => Err(CKB_INDEX_OUT_OF_BOUND),
                    Some(j) => if 0 <= j < self.tx().inputs@.len() {
                        match field {
                            InputField::OutPoint => Ok(out_point_layout(self.tx().inputs@[j].previous_output)),
                            InputField::Since => Ok(le_bytes(self.tx().inputs@[j].since as nat, 8)),
                        }
                    } else {
                        Err(CKB_INDEX_OUT_OF_BOUND)
                    },
                },
            },
        }
    }

    /// What `load_cell_data` returns.
    pub open spec fn load_cell_data_result(self, index: int, source_val: u64) -> Result<Seq<u8>, i32> {
        match Source::decode(source_val) {
            None => Err(invalid_code()),
            Some(source) => match self.resolved_index(index, source) {
                None => Err(CKB_INDEX_OUT_OF_BOUND),
                Some(j) => match self.tx().cell_data_at(source, j) {
                    Some(d) => Ok(d),
                    None => Err(CKB_INDEX_OUT_OF_BOUND),
                },
            },
        }
    }

    /// What `get_count` returns.
    pub open spec fn count_result(self, source_val: u64) -> Result<int, i32> {
        match Source::decode(source_val) {
            None => Err(invalid_code()),
            Some(Source::Input) => Ok(self.tx().inputs@.len() as int),
            Some(Source::Output) => Ok(self.tx().outputs@.len() as int),
            Some(Source::CellDep) => Ok(self.tx().cell_deps@.len() as int),
            Some(Source::HeaderDep) => Ok(self.tx().header_deps@.len() as int),
            Some(Source::GroupInput) => Ok(self.group_inputs().len() as int),
            Some(Source::GroupOutput) => Ok(self.group_outputs().len() as int),
        }
    }

    /// Create a new syscall context for the given VTx and script.
    pub fn new(vtx: VirtualTx, current_script: Script) -> (r: Self)
        ensures
            r.tx() == vtx,
            r.script() == current_script@,
            r.group_inputs() == lock_hash_indices(
                resolved_input_cells(vtx),
                script_hash(current_script@),
                vtx.resolved_inputs@.len() as int,
            ),
            r.group_outputs() == lock_hash_indices(output_cells(vtx), script_hash(current_script@), vtx.outputs@.len() as int),
    {
        let script_hash = script_hash_of(&current_script);
        let ghost h = script_hash@;
        let mut group_input_indices: Vec<usize> = Vec::new();
        let mut i: usize = 0;
        while i < vtx.resolved_inputs.len()
            invariant
                i <= vtx.resolved_inputs@.len(),
                h == script_hash@,
                group_input_indices@ == lock_hash_indices(resolved_input_cells(vtx), h, i as int),
            decreases vtx.resolved_inputs@.len() - i,
        {
            let lock_hash = script_hash_of(&vtx.resolved_inputs[i].output.lock);
            proof {
                assert(resolved_input_cells(vtx)[i as int] == vtx.resolved_inputs@[i as int].output@);
            }
            if crate::cell::bytes32_eq(&lock_hash, &script_hash) {
                group_input_indices.push(i);
            }
            i = i + 1;
        }
        let mut group_output_indices: Vec<usize> = Vec::new();
        let mut o: usize = 0;
        while o < vtx.outputs.len()
            invariant
                o <= vtx.outputs@.len(),
                h == script_hash@,
                group_output_indices@ == lock_hash_indices(output_cells(vtx), h, o as int),
            decreases vtx.outputs@.len() - o,
        {
            let lock_hash = script_hash_of(&vtx.outputs[o].lock);
            proof {
                assert(output_cells(vtx)[o as int] == vtx.outputs@[o as int]@);
            }
            if crate::cell::bytes32_eq(&lock_hash, &script_hash) {
                group_output_indices.push(o);
            }
            o = o + 1;
        }
        Self { vtx, current_script, group_input_indices, group_output_indices }
    }

    /// Resolve a group-relative index to a VTx-local index.
    fn resolve_index(&self, index: usize, source: Source) -> (r: Option<usize>)
        ensures
            r matches Some(j) ==> self.resolved_index(index as int, source) == Some(j as int),
            r is None ==> self.resolved_index(index as int, source) is None,
    {
        match source {
            Source::GroupInput => if index < self.group_input_indices.len() {
                Some(self.group_input_indices[index])
            } else {
                None
            },
            Source::GroupOutput => if index < self.group_output_indices.len() {
                Some(self.group_output_indices[index])
            } else {
                None
            },
            _ => Some(index),
        }
    }

    /// Mock implementation of `ckb_load_tx_hash`.
    ///
    /// In a VTx context, this returns the hash of a transaction made of the
    /// VTx's own inputs, outputs and output data rather than the composed
    /// transaction hash, which is only available after all VTxs are composed.
    pub fn load_tx_hash(&self) -> (r: VtxResult<[u8; 32]>)
        ensures
            r matches Ok(h) && h@ == spec_tx_hash(
                self.tx().inputs@.map_values(|i: crate::cell::CellInput| cell_input_layout(i)),
                self.tx().outputs@.map_values(|o: CellOutput| cell_output_bytes(o@)),
                self.tx().outputs_data@.map_values(|d: Vec<u8>| d@),
            ),
    {
        let inputs = encode_inputs(&self.vtx.inputs);
        let outputs = encode_outputs(&self.vtx.outputs);
        let h = tx_hash_of(&inputs, &outputs, &self.vtx.outputs_data);
        proof {
            lemma_nested_bytes_deep_view(self.vtx.outputs_data);
        }
        Ok(h)
    }

    /// Mock implementation of `ckb_load_script_hash`.
    pub fn load_script_hash(&self) -> (r: [u8; 32])
        ensures
            r@ == script_hash(self.script()),
    {
        script_hash_of(&self.current_script)
    }

    /// Mock implementation of `ckb_load_script`.
    pub fn load_script(&self) -> (r: Vec<u8>)
        ensures
            r@ == script_bytes(self.script()),
    {
        script_encoding(&self.current_script)
    }

    /// Mock implementation of `ckb_load_cell`.
    ///
    /// Loads the full serialized cell at the given index and source.
    pub fn load_cell(&self, index: usize, source_val: u64) -> (r: Result<Vec<u8>, i32>)
        ensures
            result_bytes(r) == self.load_cell_result(index as int, source_val),
    {
        let source = match Source::from_u64(source_val) {
            Some(source) => source,
            None => {
                return Err(-1i32);
            },
        };
        let resolved = match self.resolve_index(index, source) {
            Some(j) => j,
            None => {
                return Err(CKB_INDEX_OUT_OF_BOUND);
            },
        };
        match self.vtx.get_cell(source, resolved) {
            Some(cell) => Ok(cell_output_encoding(cell)),
            None => Err(CKB_INDEX_OUT_OF_BOUND),
        }
    }

    /// Mock implementation of `ckb_load_input`.
    pub fn load_input(&self, index: usize, source_val: u64) -> (r: Result<Vec<u8>, i32>)
        ensures
            result_bytes(r) == self.load_input_result(index as int, source_val),
    {
        let source = match Source::from_u64(source_val) {
            Some(source) => source,
            None => {
                return Err(-1i32);
            },
        };
        let resolved = match self.resolve_index(index, source) {
            Some(j) => j,
            None => {
                return Err(CKB_INDEX_OUT_OF_BOUND);
            },
        };
        match source.base_source() {
            Source::Input => if resolved < self.vtx.inputs.len() {
                Ok(cell_input_encoding(&self.vtx.inputs[resolved]))
            } else {
                Err(CKB_INDEX_OUT_OF_BOUND)
            },
            _ => Err(CKB_INDEX_OUT_OF_BOUND),
        }
    }

    /// Mock implementation of `ckb_load_witness`.
    pub fn load_witness(&self, index: usize, source_val: u64) -> (r: Result<Vec<u8>, i32>)
        ensures
            result_bytes(r) == self.load_witness_result(index as int, source_val),
    {
        let source = match Source::from_u64(source_val) {
            Some(source) => source,
            None => {
                return Err(-1i32);
            },
        };
        let resolved = match self.resolve_index(index, source) {
            Some(j) => j,
            None => {
                return Err(CKB_INDEX_OUT_OF_BOUND);
            },
        };
        match source.base_source() {
            Source::Input | Source::Output => if resolved < self.vtx.witnesses.len() {
                Ok(copy_bytes(&self.vtx.witnesses[resolved]))
            } else {
                Err(CKB_INDEX_OUT_OF_BOUND)
            },
            _ => Err(CKB_INDEX_OUT_OF_BOUND),
        }
    }

    /// Mock implementation of `ckb_load_header`.
    pub fn load_header(&self, index: usize, source_val: u64) -> (r: Result<Vec<u8>, i32>)
        ensures
            result_bytes(r) == self.load_header_result(index as int, source_val),
    {
        let source = match Source::from_u64(source_val) {
            Some(source) => source,
            None => {
                return Err(-1i32);
            },
        };
        match source {
            Source::HeaderDep => if index < self.vtx.resolved_headers.len() {
                Ok(copy_bytes(&self.vtx.resolved_headers[index]))
            } else {
                Err(CKB_INDEX_OUT_OF_BOUND)
            },
            _ => Err(CKB_INDEX_OUT_OF_BOUND),
        }
    }

    /// Mock implementation of `ckb_load_cell_by_field`.
    pub fn load_cell_by_field(&self, index: usize, source_val: u64, field_val: u64) -> (r: Result<Vec<u8>, i32>)
        ensures
            result_bytes(r) == self.load_cell_by_field_result(index as int, source_val, field_val),
    {
        let source = match Source::from_u64(source_val) {
            Some(source) => source,
            None => {
                return Err(-1i32);
            },
        };
        let field = match CellField::from_u64(field_val) {
            Some(field) => field,
            None => {
                return Err(-1i32);
            },
        };
        let resolved = match self.resolve_index(index, source) {
            Some(j) => j,
            None => {
                return Err(CKB_INDEX_OUT_OF_BOUND);
            },
        };
        let cell = match self.vtx.get_cell(source, resolved) {
            Some(cell) => cell,
            None => {
                return Err(CKB_INDEX_OUT_OF_BOUND);
            },
        };
        match field {
            CellField::Capacity => Ok(u64_to_le_bytes(cell.capacity)),
            CellField::DataHash => {
                let data = match self.vtx.get_cell_data(source, resolved) {
                    Some(data) => data,
                    None => {
                        return Err(CKB_INDEX_OUT_OF_BOUND);
                    },
                };
                let hash = data_hash_of(data.as_slice());
                Ok(bytes32_to_vec(&hash))
            },
            CellField::Lock => Ok(script_encoding(&cell.lock)),
            CellField::LockHash => {
                let hash = script_hash_of(&cell.lock);
                Ok(bytes32_to_vec(&hash))
            },
            CellField::Type => match &cell.type_ {
                Some(t) => Ok(script_encoding(t)),
                None => Err(CKB_ITEM_MISSING),
            },
            CellField::TypeHash => match &cell.type_ {
                Some(t) => {
                    let hash = script_hash_of(t);
                    Ok(bytes32_to_vec(&hash))
                },
                None => Err(CKB_ITEM_MISSING),
            },
            CellField::OccupiedCapacity => {
                let occupied = cell_output_encoding(cell).len() as u64;
                Ok(u64_to_le_bytes(occupied))
            },
        }
    }

    /// Mock implementation of `ckb_load_input_by_field`.
    pub fn load_input_by_field(&self, index: usize, source_val: u64, field_val: u64) -> (r: Result<Vec<u8>, i32>)
        ensures
            result_bytes(r) == self.load_input_by_field_result(index as int, source_val, field_val),
    {
        let source = match Source::from_u64(source_val) {
            Some(source) => source,
            None => {
                return Err(-1i32);
            },
        };
        let field = match InputField::from_u64(field_val) {
            Some(field) => field,
            None => {
                return Err(-1i32);
            },
        };
        let resolved = match self.resolve_index(index, source) {
            Some(j) => j,
            None => {
                return Err(CKB_INDEX_OUT_OF_BOUND);
            },
        };
        if resolved >= self.vtx.inputs.len() {
            return Err(CKB_INDEX_OUT_OF_BOUND);
        }
        let input = &self.vtx.inputs[resolved];
        match field {
            InputField::OutPoint => Ok(out_point_encoding(&input.previous_output)),
            InputField::Since => Ok(u64_to_le_bytes(input.since)),
        }
    }

    /// Mock implementation of `ckb_load_cell_data`.
    pub fn load_cell_data(&self, index: usize, source_val: u64) -> (r: Result<Vec<u8>, i32>)
        ensures
            result_bytes(r) == self.load_cell_data_result(index as int, source_val),
    {
        let source = match Source::from_u64(source_val) {
            Some(source) => source,
            None => {
                return Err(-1i32);
            },
        };
        let resolved = match self.resolve_index(index, source) {
            Some(j) => j,
            None => {
                return Err(CKB_INDEX_OUT_OF_BOUND);
            },
        };
        match self.vtx.get_cell_data(source, resolved) {
            Some(data) => Ok(data),
            None => Err(CKB_INDEX_OUT_OF_BOUND),
        }
    }

    /// Get the count of items available for the given source.
    pub fn get_count(&self, source_val: u64) -> (r: Result<usize, i32>)
        ensures
            match r {
                Ok(n) => self.count_result(source_val) == Ok::<int, i32>(n as int),
                Err(e) => self.count_result(source_val) == Err::<int, i32>(e),
            },
    {
        let source = match Source::from_u64(source_val) {
            Some(source) => source,
            None => {
                return Err(-1i32);
            },
        };
        match source {
            Source::Input => Ok(self.vtx.inputs.len()),
            Source::Output => Ok(self.vtx.outputs.len()),
            Source::CellDep => Ok(self.vtx.cell_deps.len()),
            Source::HeaderDep => Ok(self.vtx.header_deps.len()),
            Source::GroupInput => Ok(self.group_input_indices.len()),
            Source::GroupOutput => Ok(self.group_output_indices.len()),
        }
    }

    /// Get a reference to the underlying VirtualTx.
    pub fn vtx(&self) -> (r: &VirtualTx)
        ensures
            *r == self.tx(),
    {
        &self.vtx
    }

    /// Get a reference to the current script.
    pub fn current_script(&self) -> (r: &Script)
        ensures
            r@ == self.script(),
    {
        &self.current_script
    }

    /// Get the group input indices.
    pub fn group_input_indices(&self) -> (r: &[usize])
        ensures
            r@ == self.group_inputs(),
    {
        self.group_input_indices.as_slice()
    }

    /// Get the group output indices.
    pub fn group_output_indices(&self) -> (r: &[usize])
        ensures
            r@ == self.group_outputs(),
    {
        self.group_output_indices.as_slice()
    }

    /// Copy data from `src` into a buffer, respecting offset and length.
    /// Returns the total data length (useful for the CKB convention where
    /// the actual length is returned even if the buffer is too small).
    pub fn copy_with_offset(src: &[u8], buf: &mut [u8], offset: usize) -> (r: usize)
        ensures
            r == src@.len(),
            final(buf)@.len() == old(buf)@.len(),
            offset < src@.len() ==> {
                let n = if old(buf)@.len() <= src@.len() - offset { old(buf)@.len() as int } else { src@.len() - offset };
                final(buf)@ == src@.subrange(offset as int, offset + n) + old(buf)@.skip(n)
            },
            offset >= src@.len() ==> final(buf)@ == old(buf)@,
    {
        let total_len = src.len();
        if offset < total_len {
            let copy_len = if buf.len() <= total_len - offset { buf.len() } else { total_len - offset };
            let ghost before = buf@;
            let mut i: usize = 0;
            while i < copy_len
                invariant
                    copy_len <= buf@.len(),
                    offset + copy_len <= src@.len(),
                    total_len == src@.len(),
                    before.len() == buf@.len(),
                    i <= copy_len,
                    forall|j: int| 0 <= j < i ==> buf@[j] == src@[offset + j],
                    forall|j: int| i <= j < buf@.len() ==> buf@[j] == before[j],
                decreases copy_len - i,
            {
                buf[i] = src[offset + i];
                i = i + 1;
            }
            proof {
                assert(buf@ =~= src@.subrange(offset as int, offset + copy_len) + before.skip(copy_len as int));
            }
        }
        total_len
    }
}

/// The bytes of a 32-byte value.
fn bytes32_to_vec(a: &[u8; 32]) -> (r: Vec<u8>)
    ensures
        r@ == a@,
{
    let mut r: Vec<u8> = Vec::new();
    let mut i: usize = 0;
    while i < 32
        invariant
            i <= 32,
            a@.len() == 32,
            r@ == a@.take(i as int),
        decreases 32 - i,
    {
        proof {
            assert(a@.take(i + 1) =~= a@.take(i as int).push(a@[i as int]));
        }
        r.push(a[i]);
        i = i + 1;
    }
    proof {
        assert(a@.take(32) =~= a@);
    }
    r
}

/// The indices picked by `lock_hash_indices` are exactly the positions
/// below `n` whose cell has lock script hash `h`, in increasing order.
pub proof fn lemma_lock_hash_indices(cells: Seq<CellOutputView>, h: Seq<u8>, n: int)
    requires
        0 <= n <= cells.len(),
        n <= usize::MAX,
    ensures
        forall|x: int|
            0 <= x < lock_hash_indices(cells, h, n).len() ==> (#[trigger] lock_hash_indices(cells, h, n)[x]) < n && script_hash(
                cells[lock_hash_indices(cells, h, n)[x] as int].lock,
            ) == h,
        forall|x: int, y: int|
            0 <= x < y < lock_hash_indices(cells, h, n).len() ==> (#[trigger] lock_hash_indices(cells, h, n)[x]) < (
            #[trigger] lock_hash_indices(cells, h, n)[y]),
        forall|j: int| 0 <= j < n && script_hash((#[trigger] cells[j]).lock) == h ==> lock_hash_indices(cells, h, n).contains(j as usize),
    decreases n,
{
    if n > 0 {
        lemma_lock_hash_indices(cells, h, n - 1);
        let p = lock_hash_indices(cells, h, n - 1);
        let q = lock_hash_indices(cells, h, n);
        assert forall|j: int| 0 <= j < n && script_hash((#[trigger] cells[j]).lock) == h implies q.contains(j as usize) by {
            if j < n - 1 {
                assert(p.contains(j as usize));
                let x = choose|x: int| 0 <= x < p.len() && p[x] == j as usize;
                assert(q[x] == p[x]);
            } else {
                assert(q[p.len() as int] == (n - 1) as usize);
            }
        }
        assert forall|x: int| 0 <= x < q.len() implies (#[trigger] q[x]) < n && script_hash(cells[q[x] as int].lock) == h by {
            if x < p.len() {
                assert(q[x] == p[x]);
            }
        }
        assert forall|x: int, y: int| 0 <= x < y < q.len() implies (#[trigger] q[x]) < (#[trigger] q[y]) by {
            if y < p.len() {
                assert(q[x] == p[x] && q[y] == p[y]);
            } else {
                assert(q[x] == p[x]);
            }
        }
    }
}

/// A context as `new` makes it: its group indices are those of the cells
/// locked by the current script.
pub open spec fn context_well_formed(ctx: VtxSyscallContext) -> bool {
    &&& ctx.group_inputs() == lock_hash_indices(
        resolved_input_cells(ctx.tx()),
        script_hash(ctx.script()),
        ctx.tx().resolved_inputs@.len() as int,
    )
    &&& ctx.group_outputs() == lock_hash_indices(output_cells(ctx.tx()), script_hash(ctx.script()), ctx.tx().outputs@.len() as int)
}

/// Reading through a group source is reading the member's local index
/// through the base source: the `i`-th group input (output) is served exactly
/// as the local input (output) that the group lists at position `i`, by
/// every syscall that resolves indices.
pub proof fn lemma_group_reads_member(ctx: VtxSyscallContext, i: int, field_val: u64)
    ensures
        0 <= i < ctx.group_inputs().len() ==> {
            let j = ctx.group_inputs()[i] as int;
            let g = Source::GroupInput.code();
            let b = Source::Input.code();
            &&& ctx.load_cell_result(i, g) == ctx.load_cell_result(j, b)
            &&& ctx.load_input_result(i, g) == ctx.load_input_result(j, b)
            &&& ctx.load_witness_result(i, g) == ctx.load_witness_result(j, b)
            &&& ctx.load_cell_by_field_result(i, g, field_val) == ctx.load_cell_by_field_result(j, b, field_val)
            &&& ctx.load_input_by_field_result(i, g, field_val) == ctx.load_input_by_field_result(j, b, field_val)
            &&& ctx.load_cell_data_result(i, g) == ctx.load_cell_data_result(j, b)
        },
        0 <= i < ctx.group_outputs().len() ==> {
            let j = ctx.group_outputs()[i] as int;
            let g = Source::GroupOutput.code();
            let b = Source::Output.code();
            &&& ctx.load_cell_result(i, g) == ctx.load_cell_result(j, b)
            &&& ctx.load_input_result(i, g) == ctx.load_input_result(j, b)
            &&& ctx.load_witness_result(i, g) == ctx.load_witness_result(j, b)
            &&& ctx.load_cell_by_field_result(i, g, field_val) == ctx.load_cell_by_field_result(j, b, field_val)
            &&& ctx.load_input_by_field_result(i, g, field_val) == ctx.load_input_by_field_result(j, b, field_val)
            &&& ctx.load_cell_data_result(i, g) == ctx.load_cell_data_result(j, b)
        },
        (i < 0 || i >= ctx.group_inputs().len()) ==> ctx.load_cell_result(i, Source::GroupInput.code()) == Err::<Seq<u8>, i32>(
            CKB_INDEX_OUT_OF_BOUND,
        ),
{
}

/// Every group input of a well-formed context is locked by the current
/// script: its lock hash field is the script hash that `load_script_hash`
/// gives, and the group counts exactly the inputs so locked.
pub proof fn lemma_group_inputs_locked_by_script(ctx: VtxSyscallContext, i: int)
    requires
        context_well_formed(ctx),
        0 <= i < ctx.group_inputs().len(),
    ensures
        ctx.load_cell_by_field_result(i, Source::GroupInput.code(), CellField::LockHash.code()) == Ok::<Seq<u8>, i32>(
            script_hash(ctx.script()),
        ),
        ctx.load_cell_by_field_result(i, Source::GroupInput.code(), CellField::Lock.code()) == Ok::<Seq<u8>, i32>(
            script_bytes(ctx.tx().resolved_inputs@[ctx.group_inputs()[i] as int].output.lock@),
        ),
{
    let cells = resolved_input_cells(ctx.tx());
    let n = ctx.tx().resolved_inputs@.len() as int;
    assert(ctx.tx().resolved_inputs@.len() == ctx.tx().resolved_inputs.len());
    lemma_lock_hash_indices(cells, script_hash(ctx.script()), n);
    let j = ctx.group_inputs()[i] as int;
    assert(ctx.group_inputs()[i] < n);
    assert(cells[j] == ctx.tx().resolved_inputs@[j].output@);
}

/// Every input whose lock is the current script is in the group.
pub proof fn lemma_locked_inputs_in_group(ctx: VtxSyscallContext, j: int)
    requires
        context_well_formed(ctx),
        0 <= j < ctx.tx().resolved_inputs@.len(),
        script_hash(ctx.tx().resolved_inputs@[j].output.lock@) == script_hash(ctx.script()),
    ensures
        ctx.group_inputs().contains(j as usize),
{
    let cells = resolved_input_cells(ctx.tx());
    let n = ctx.tx().resolved_inputs@.len() as int;
    assert(ctx.tx().resolved_inputs@.len() == ctx.tx().resolved_inputs.len());
    lemma_lock_hash_indices(cells, script_hash(ctx.script()), n);
    assert(cells[j] == ctx.tx().resolved_inputs@[j].output@);
}

/// `load_cell` serves, for each plain source, the encoding of the cell that
/// the VTx holds at that index: a resolved input's cell, an output, or a
/// resolved cell dep's cell. It answers `INDEX_OUT_OF_BOUND` past the end
/// and for header deps.
pub proof fn lemma_load_cell_by_source(ctx: VtxSyscallContext, j: int)
    requires
        0 <= j,
    ensures
        ctx.load_cell_result(j, Source::Input.code()) == (if j < ctx.tx().resolved_inputs@.len() {
            Ok::<Seq<u8>, i32>(cell_output_bytes(ctx.tx().resolved_inputs@[j].output@))
        } else {
            Err::<Seq<u8>, i32>(CKB_INDEX_OUT_OF_BOUND)
        }),
        ctx.load_cell_result(j, Source::Output.code()) == (if j < ctx.tx().outputs@.len() {
            Ok::<Seq<u8>, i32>(cell_output_bytes(ctx.tx().outputs@[j]@))
        } else {
            Err::<Seq<u8>, i32>(CKB_INDEX_OUT_OF_BOUND)
        }),
        ctx.load_cell_result(j, Source::CellDep.code()) == (if j < ctx.tx().resolved_dep_cells@.len() {
            Ok::<Seq<u8>, i32>(cell_output_bytes(ctx.tx().resolved_dep_cells@[j].output@))
        } else {
            Err::<Seq<u8>, i32>(CKB_INDEX_OUT_OF_BOUND)
        }),
        ctx.load_cell_result(j, Source::HeaderDep.code()) == Err::<Seq<u8>, i32>(CKB_INDEX_OUT_OF_BOUND),
{
}

/// `load_cell_data` serves, for each plain source, the data that the VTx
/// holds at that index: a resolved input's data, an output's data, or a
/// resolved cell dep's data. It answers `INDEX_OUT_OF_BOUND` past the end
/// and for header deps.
pub proof fn lemma_load_cell_data_by_source(ctx: VtxSyscallContext, j: int)
    requires
        0 <= j,
    ensures
        ctx.load_cell_data_result(j, Source::Input.code()) == (if j < ctx.tx().resolved_inputs@.len() {
            Ok::<Seq<u8>, i32>(ctx.tx().resolved_inputs@[j].data@)
        } else {
            Err::<Seq<u8>, i32>(CKB_INDEX_OUT_OF_BOUND)
        }),
        ctx.load_cell_data_result(j, Source::Output.code()) == (if j < ctx.tx().outputs_data@.len() {
            Ok::<Seq<u8>, i32>(ctx.tx().outputs_data@[j]@)
        } else {
            Err::<Seq<u8>, i32>(CKB_INDEX_OUT_OF_BOUND)
        }),
        ctx.load_cell_data_result(j, Source::CellDep.code()) == (if j < ctx.tx().resolved_dep_cells@.len() {
            Ok::<Seq<u8>, i32>(ctx.tx().resolved_dep_cells@[j].data@)
        } else {
            Err::<Seq<u8>, i32>(CKB_INDEX_OUT_OF_BOUND)
        }),
        ctx.load_cell_data_result(j, Source::HeaderDep.code()) == Err::<Seq<u8>, i32>(CKB_INDEX_OUT_OF_BOUND),
{
}

/// The data hash field of a cell is the data hash of that cell's data: of
/// a resolved input's data, of an output's data, of a resolved cell dep's
/// data. An output whose data is missing has no data hash.
pub proof fn lemma_data_hash_field_by_source(ctx: VtxSyscallContext, j: int)
    requires
        0 <= j,
    ensures
        j < ctx.tx().resolved_inputs@.len() ==> ctx.load_cell_by_field_result(
            j,
            Source::Input.code(),
            CellField::DataHash.code(),
        ) == Ok::<Seq<u8>, i32>(spec_data_hash(ctx.tx().resolved_inputs@[j].data@)),
        j < ctx.tx().outputs@.len() && j < ctx.tx().outputs_data@.len() ==> ctx.load_cell_by_field_result(
            j,
            Source::Output.code(),
            CellField::DataHash.code(),
        ) == Ok::<Seq<u8>, i32>(spec_data_hash(ctx.tx().outputs_data@[j]@)),
        j < ctx.tx().outputs@.len() && j >= ctx.tx().outputs_data@.len() ==> ctx.load_cell_by_field_result(
            j,
            Source::Output.code(),
            CellField::DataHash.code(),
        ) == Err::<Seq<u8>, i32>(CKB_INDEX_OUT_OF_BOUND),
        j < ctx.tx().resolved_dep_cells@.len() ==> ctx.load_cell_by_field_result(
            j,
            Source::CellDep.code(),
            CellField::DataHash.code(),
        ) == Ok::<Seq<u8>, i32>(spec_data_hash(ctx.tx().resolved_dep_cells@[j].data@)),
{
}

/// For every source and index, when the cell can be loaded and so can its
/// data, the data hash field is the data hash of what `load_cell_data`
/// gives for the same source and index.
pub proof fn lemma_data_hash_field_matches_data(ctx: VtxSyscallContext, source: Source, i: int)
    requires
        ctx.load_cell_result(i, source.code()) is Ok,
        ctx.load_cell_data_result(i, source.code()) is Ok,
    ensures
        ctx.load_cell_by_field_result(i, source.code(), CellField::DataHash.code()) == Ok::<Seq<u8>, i32>(
            spec_data_hash(ctx.load_cell_data_result(i, source.code())->Ok_0),
        ),
{
}

/// `get_count` counts what each source names: the inputs, the outputs, the
/// cell deps and the header deps of the VTx, and the members of the current
/// script's input and output groups.
pub proof fn lemma_count_by_source(ctx: VtxSyscallContext)
    ensures
        ctx.count_result(Source::Input.code()) == Ok::<int, i32>(ctx.tx().inputs@.len() as int),
        ctx.count_result(Source::Output.code()) == Ok::<int, i32>(ctx.tx().outputs@.len() as int),
        ctx.count_result(Source::CellDep.code()) == Ok::<int, i32>(ctx.tx().cell_deps@.len() as int),
        ctx.count_result(Source::HeaderDep.code()) == Ok::<int, i32>(ctx.tx().header_deps@.len() as int),
        ctx.count_result(Source::GroupInput.code()) == Ok::<int, i32>(ctx.group_inputs().len() as int),
        ctx.count_result(Source::GroupOutput.code()) == Ok::<int, i32>(ctx.group_outputs().len() as int),
{
}

/// Every field of a cell comes from the cell that `load_cell` serves for the
/// same plain source and index: its capacity and occupied size as 8
/// little-endian bytes, its lock script and lock hash, and its type script
/// and type hash, which are `ITEM_MISSING` when it has none.
pub proof fn lemma_cell_fields_by_source(ctx: VtxSyscallContext, source: Source, j: int)
    requires
        0 <= j,
        source == Source::Input ==> j < ctx.tx().resolved_inputs@.len(),
        source == Source::Output ==> j < ctx.tx().outputs@.len(),
        source == Source::CellDep ==> j < ctx.tx().resolved_dep_cells@.len(),
        source == Source::Input || source == Source::Output || source == Source::CellDep,
    ensures
        ({
            let c = if source == Source::Input {
                ctx.tx().resolved_inputs@[j].output@
            } else if source == Source::Output {
                ctx.tx().outputs@[j]@
            } else {
                ctx.tx().resolved_dep_cells@[j].output@
            };
            let v = source.code();
            &&& ctx.load_cell_result(j, v) == Ok::<Seq<u8>, i32>(cell_output_bytes(c))
            &&& ctx.load_cell_by_field_result(j, v, CellField::Capacity.code()) == Ok::<Seq<u8>, i32>(
                le_bytes(c.capacity as nat, 8),
            )
            &&& ctx.load_cell_by_field_result(j, v, CellField::Lock.code()) == Ok::<Seq<u8>, i32>(script_bytes(c.lock))
            &&& ctx.load_cell_by_field_result(j, v, CellField::LockHash.code()) == Ok::<Seq<u8>, i32>(script_hash(c.lock))
            &&& ctx.load_cell_by_field_result(j, v, CellField::Type.code()) == (match c.type_ {
                Some(t) => Ok::<Seq<u8>, i32>(script_bytes(t)),
                None => Err::<Seq<u8>, i32>(CKB_ITEM_MISSING),
            })
            &&& ctx.load_cell_by_field_result(j, v, CellField::TypeHash.code()) == (match c.type_ {
                Some(t) => Ok::<Seq<u8>, i32>(script_hash(t)),
                None => Err::<Seq<u8>, i32>(CKB_ITEM_MISSING),
            })
            &&& ctx.load_cell_by_field_result(j, v, CellField::OccupiedCapacity.code()) == Ok::<Seq<u8>, i32>(
                le_bytes(cell_output_bytes(c).len(), 8),
            )
        }),
{
}

/// The input, witness and header syscalls read the VTx's own items: input
/// `j` is encoded with its `since` first, its out point and `since` fields
/// are those of input `j`, witness `j` is served for input and output
/// sources, and header `j` for the header-dep source.
pub proof fn lemma_inputs_witnesses_headers_by_source(ctx: VtxSyscallContext, j: int)
    requires
        0 <= j,
    ensures
        ctx.load_input_result(j, Source::Input.code()) == (if j < ctx.tx().inputs@.len() {
            Ok::<Seq<u8>, i32>(cell_input_layout(ctx.tx().inputs@[j]))
        } else {
            Err::<Seq<u8>, i32>(CKB_INDEX_OUT_OF_BOUND)
        }),
        ctx.load_input_result(j, Source::Output.code()) == Err::<Seq<u8>, i32>(CKB_INDEX_OUT_OF_BOUND),
        j < ctx.tx().inputs@.len() ==> ctx.load_input_by_field_result(j, Source::Input.code(), InputField::OutPoint.code())
            == Ok::<Seq<u8>, i32>(out_point_layout(ctx.tx().inputs@[j].previous_output)),
        j < ctx.tx().inputs@.len() ==> ctx.load_input_by_field_result(j, Source::Input.code(), InputField::Since.code())
            == Ok::<Seq<u8>, i32>(le_bytes(ctx.tx().inputs@[j].since as nat, 8)),
        j >= ctx.tx().inputs@.len() ==> ctx.load_input_by_field_result(j, Source::Input.code(), InputField::Since.code())
            == Err::<Seq<u8>, i32>(CKB_INDEX_OUT_OF_BOUND),
        ctx.load_witness_result(j, Source::Input.code()) == (if j < ctx.tx().witnesses@.len() {
            Ok::<Seq<u8>, i32>(ctx.tx().witnesses@[j]@)
        } else {
            Err::<Seq<u8>, i32>(CKB_INDEX_OUT_OF_BOUND)
        }),
        ctx.load_witness_result(j, Source::Output.code()) == ctx.load_witness_result(j, Source::Input.code()),
        ctx.load_witness_result(j, Source::CellDep.code()) == Err::<Seq<u8>, i32>(CKB_INDEX_OUT_OF_BOUND),
        ctx.load_header_result(j, Source::HeaderDep.code()) == (if j < ctx.tx().resolved_headers@.len() {
            Ok::<Seq<u8>, i32>(ctx.tx().resolved_headers@[j]@)
        } else {
            Err::<Seq<u8>, i32>(CKB_INDEX_OUT_OF_BOUND)
        }),
        ctx.load_header_result(j, Source::Input.code()) == Err::<Seq<u8>, i32>(CKB_INDEX_OUT_OF_BOUND),
{
}

} // verus!
