//! Core types for CKB Virtual Tx.
//!
//! A `VirtualTx` represents a partial transaction that can be composed with
//! other VTxs to form a complete CKB transaction.

use vstd::prelude::*;

use crate::cell::{bytes32_eq, copy_bytes, script_hash, script_hash_of, CellDep, CellInput, CellOutput, CellOutputView};
use crate::constants::{Source, VTX_INDICATOR_CODE_HASH};
use crate::error::{VtxError, VtxResult};
use crate::spec::VtxSpec;

verus! {

/// A virtual transaction containing a partial set of CKB transaction components.
///
/// Each VTx owns an exclusive subset of the complete transaction's inputs,
/// outputs, witnesses, cell deps, and header deps as specified by its `VtxSpec`.
#[derive(Clone, Debug)]
pub struct VirtualTx {
    /// The inputs owned by this VTx.
    pub inputs: Vec<CellInput>,
    /// The outputs owned by this VTx.
    pub outputs: Vec<CellOutput>,
    /// The output data corresponding to each output.
    pub outputs_data: Vec<Vec<u8>>,
    /// The witnesses for inputs in this VTx.
    pub witnesses: Vec<Vec<u8>>,
    /// Cell dependencies referenced by this VTx.
    pub cell_deps: Vec<CellDep>,
    /// Header dependencies (header hashes) referenced by this VTx.
    pub header_deps: Vec<[u8; 32]>,
    /// Resolved input cells (the actual cell data for each input).
    /// Used by the mock syscall layer to serve load_cell for Source::Input.
    pub resolved_inputs: Vec<ResolvedCell>,
    /// Resolved cell dep cells.
    pub resolved_dep_cells: Vec<ResolvedCell>,
    /// Resolved headers for header deps, each in its molecule encoding.
    pub resolved_headers: Vec<Vec<u8>>,
    /// The specification describing how this VTx maps to the complete tx.
    pub spec: VtxSpec,
}

/// A resolved cell with its output and data.
#[derive(Clone, Debug)]
pub struct ResolvedCell {
    /// The cell output (capacity, lock, type).
    pub output: CellOutput,
    /// The cell data.
    pub data: Vec<u8>,
}

impl VirtualTx {
    /// The cell that `get_cell` serves for a source and index.
    pub open spec fn cell_at(self, source: Source, index: int) -> Option<CellOutputView> {
        match source.base() {
            Source::Input => if 0 <= index < self.resolved_inputs@.len() {
                Some(self.resolved_inputs@[index].output@)
            } else {
                None
            },
            Source::Output => if 0 <= index < self.outputs@.len() {
                Some(self.outputs@[index]@)
            } else {
                None
            },
            Source::CellDep => if 0 <= index < self.resolved_dep_cells@.len() {
                Some(self.resolved_dep_cells@[index].output@)
            } else {
                None
            },
            _ => None,
        }
    }

    /// The cell data that `get_cell_data` serves for a source and index.
    pub open spec fn cell_data_at(self, source: Source, index: int) -> Option<Seq<u8>> {
        match source.base() {
            Source::Input => if 0 <= index < self.resolved_inputs@.len() {
                Some(self.resolved_inputs@[index].data@)
            } else {
                None
            },
            Source::Output => if 0 <= index < self.outputs_data@.len() {
                Some(self.outputs_data@[index]@)
            } else {
                None
            },
            Source::CellDep => if 0 <= index < self.resolved_dep_cells@.len() {
                Some(self.resolved_dep_cells@[index].data@)
            } else {
                None
            },
            _ => None,
        }
    }

    /// Create a new empty VirtualTx with the given spec.
    pub fn new(spec: VtxSpec) -> (r: Self)
        ensures
            r.inputs@.len() == 0,
            r.outputs@.len() == 0,
            r.outputs_data@.len() == 0,
            r.witnesses@.len() == 0,
            r.cell_deps@.len() == 0,
            r.header_deps@.len() == 0,
            r.resolved_inputs@.len() == 0,
            r.resolved_dep_cells@.len() == 0,
            r.resolved_headers@.len() == 0,
            r.spec == spec,
    {
        Self {
            inputs: Vec::new(),
            outputs: Vec::new(),
            outputs_data: Vec::new(),
            witnesses: Vec::new(),
            cell_deps: Vec::new(),
            header_deps: Vec::new(),
            resolved_inputs: Vec::new(),
            resolved_dep_cells: Vec::new(),
            resolved_headers: Vec::new(),
            spec,
        }
    }

    /// Check if the first input has the VTx indicator type script.
    ///
    /// The first input's type script code_hash must match `VTX_INDICATOR_CODE_HASH`
    /// to identify this transaction as containing virtual transactions.
    pub fn is_vtx_indicator(input_cell: &CellOutput) -> (r: bool)
        ensures
            r == (input_cell.type_ matches Some(t) && t.code_hash@ == VTX_INDICATOR_CODE_HASH@),
    {
        match &input_cell.type_ {
            Some(type_script) => bytes32_eq(&type_script.code_hash, &VTX_INDICATOR_CODE_HASH),
            None => false,
        }
    }

    /// Get the number of inputs in this VTx.
    pub fn inputs_len(&self) -> (r: usize)
        ensures
            r == self.inputs@.len(),
    {
        self.inputs.len()
    }

    /// Get the number of outputs in this VTx.
    pub fn outputs_len(&self) -> (r: usize)
        ensures
            r == self.outputs@.len(),
    {
        self.outputs.len()
    }

    /// Get an input by local index.
    pub fn get_input(&self, index: usize) -> (r: Option<&CellInput>)
        ensures
            r == (if index < self.inputs@.len() { Some(&self.inputs@[index as int]) } else { None }),
    {
        if index < self.inputs.len() {
            Some(&self.inputs[index])
        } else {
            None
        }
    }

    /// Get an output by local index.
    pub fn get_output(&self, index: usize) -> (r: Option<&CellOutput>)
        ensures
            r == (if index < self.outputs@.len() { Some(&self.outputs@[index as int]) } else { None }),
    {
        if index < self.outputs.len() {
            Some(&self.outputs[index])
        } else {
            None
        }
    }

    /// Get output data by local index.
    pub fn get_output_data(&self, index: usize) -> (r: Option<&Vec<u8>>)
        ensures
            r == (if index < self.outputs_data@.len() { Some(&self.outputs_data@[index as int]) } else { None }),
    {
        if index < self.outputs_data.len() {
            Some(&self.outputs_data[index])
        } else {
            None
        }
    }

    /// Get a witness by local index.
    pub fn get_witness(&self, index: usize) -> (r: Option<&Vec<u8>>)
        ensures
            r == (if index < self.witnesses@.len() { Some(&self.witnesses@[index as int]) } else { None }),
    {
        if index < self.witnesses.len() {
            Some(&self.witnesses[index])
        } else {
            None
        }
    }

    /// Get a resolved input cell by local index.
    pub fn get_resolved_input(&self, index: usize) -> (r: Option<&ResolvedCell>)
        ensures
            r == (if index < self.resolved_inputs@.len() { Some(&self.resolved_inputs@[index as int]) } else { None }),
    {
        if index < self.resolved_inputs.len() {
            Some(&self.resolved_inputs[index])
        } else {
            None
        }
    }

    /// Get cell for the given source and index.
    /// For Source::Input, returns the resolved input cell.
    /// For Source::Output, returns the output cell.
    /// For Source::CellDep, returns the resolved dep cell.
    pub fn get_cell(&self, source: Source, index: usize) -> (r: Option<&CellOutput>)
        ensures
            r matches Some(c) ==> self.cell_at(source, index as int) == Some(c@),
            r is None ==> self.cell_at(source, index as int) is None,
    {
        match source {
            Source::Input | Source::GroupInput => {
                if index < self.resolved_inputs.len() {
                    Some(&self.resolved_inputs[index].output)
                } else {
                    None
                }
            },
            Source::Output | Source::GroupOutput => {
                if index < self.outputs.len() {
                    Some(&self.outputs[index])
                } else {
                    None
                }
            },
            Source::CellDep => {
                if index < self.resolved_dep_cells.len() {
                    Some(&self.resolved_dep_cells[index].output)
                } else {
                    None
                }
            },
            _ => None,
        }
    }

    /// Get cell data for the given source and index.
    pub fn get_cell_data(&self, source: Source, index: usize) -> (r: Option<Vec<u8>>)
        ensures
            r matches Some(d) ==> self.cell_data_at(source, index as int) == Some(d@),
            r is None ==> self.cell_data_at(source, index as int) is None,
    {
        match source {
            Source::Input | Source::GroupInput => {
                if index < self.resolved_inputs.len() {
                    Some(copy_bytes(&self.resolved_inputs[index].data))
                } else {
                    None
                }
            },
            Source::Output | Source::GroupOutput => {
                if index < self.outputs_data.len() {
                    Some(copy_bytes(&self.outputs_data[index]))
                } else {
                    None
                }
            },
            Source::CellDep => {
                if index < self.resolved_dep_cells.len() {
                    Some(copy_bytes(&self.resolved_dep_cells[index].data))
                } else {
                    None
                }
            },
            _ => None,
        }
    }

    /// Validate that this VTx's spec does not conflict with another VTx's spec.
    pub fn validate_no_overlap(&self, other: &VirtualTx) -> (r: VtxResult<()>)
        ensures
            r is Ok <==> !self.spec.conflicts(other.spec),
            r matches Err(e) ==> e is OverlappingRanges,
            r matches Err(VtxError::OverlappingRanges(m)) ==> m@ == self.spec.overlap_error_message(other.spec),
    {
        self.spec.validate_no_overlap(&other.spec)
    }
}


/// Identifies which script group a script belongs to across VTxs.
#[derive(Clone, Debug)]
pub struct ScriptGroupInfo {
    /// The script hash identifying this group.
    pub script_hash: [u8; 32],
    /// Indices of VTxs that contain inputs with this lock script.
    pub vtx_indices: Vec<usize>,
    /// For each VTx, the local input indices belonging to this script group.
    pub local_input_indices: Vec<Vec<usize>>,
}

/// `(v, i)` names resolved input `i` of VTx `v`.
pub open spec fn is_input_of(vtxs: Seq<VirtualTx>, v: int, i: int) -> bool {
    0 <= v < vtxs.len() && 0 <= i < vtxs[v].resolved_inputs@.len()
}

/// The lock script hash of resolved input `i` of VTx `v`.
pub open spec fn input_lock_hash(vtxs: Seq<VirtualTx>, v: int, i: int) -> Seq<u8> {
    script_hash(vtxs[v].resolved_inputs@[i].output.lock@)
}

/// Input `(v1, i1)` comes before input `(v2, i2)` in the order in which
/// the VTxs and their inputs are listed.
pub open spec fn precedes(v1: int, i1: int, v2: int, i2: int) -> bool {
    v1 < v2 || (v1 == v2 && i1 < i2)
}

/// The group lists input `i` of VTx `v`.
pub open spec fn group_lists(group: ScriptGroupInfo, v: int, i: int) -> bool {
    exists|k: int, m: int|
        0 <= k < group.vtx_indices@.len() && 0 <= m < group.local_input_indices@[k]@.len()
            && group.vtx_indices@[k] == v && #[trigger] group.local_input_indices@[k]@[m] == i
}

/// The first input the group lists.
pub open spec fn first_v(group: ScriptGroupInfo) -> int {
    group.vtx_indices@[0] as int
}

/// The first input the group lists, within its first VTx.
pub open spec fn first_i(group: ScriptGroupInfo) -> int {
    group.local_input_indices@[0]@[0] as int
}

/// The group is well formed with respect to `vtxs`: its VTx indices are
/// strictly increasing, each with a non-empty, strictly increasing list of
/// local inputs, all of which carry the group's lock script hash.
pub open spec fn group_well_formed(vtxs: Seq<VirtualTx>, group: ScriptGroupInfo) -> bool {
    let vs = group.vtx_indices@;
    let ls = group.local_input_indices@;
    &&& vs.len() > 0
    &&& ls.len() == vs.len()
    &&& forall|k1: int, k2: int| 0 <= k1 < k2 < vs.len() ==> vs[k1] < vs[k2]
    &&& forall|k: int|
        0 <= k < vs.len() ==> {
            &&& vs[k] < vtxs.len()
            &&& (#[trigger] ls[k])@.len() > 0
            &&& forall|m1: int, m2: int| 0 <= m1 < m2 < ls[k]@.len() ==> ls[k]@[m1] < ls[k]@[m2]
            &&& forall|m: int|
                0 <= m < ls[k]@.len() ==> is_input_of(vtxs, vs[k] as int, #[trigger] ls[k]@[m] as int)
                    && input_lock_hash(vtxs, vs[k] as int, ls[k]@[m] as int) == group.script_hash@
        }
}

/// `groups` are the script groups of the inputs before `(v, i)`: each is
/// well formed, their hashes are distinct, they come in the order of the
/// first input each lists, every input before `(v, i)` is listed, and
/// nothing at or after `(v, i)` is.
pub open spec fn groups_upto(vtxs: Seq<VirtualTx>, groups: Seq<ScriptGroupInfo>, v: int, i: int) -> bool {
    &&& forall|g: int| 0 <= g < groups.len() ==> group_well_formed(vtxs, #[trigger] groups[g])
    &&& forall|g1: int, g2: int|
        0 <= g1 < g2 < groups.len() ==> (#[trigger] groups[g1]).script_hash@ != (#[trigger] groups[g2]).script_hash@
            && precedes(first_v(groups[g1]), first_i(groups[g1]), first_v(groups[g2]), first_i(groups[g2]))
    &&& forall|g: int, v2: int, i2: int|
        0 <= g < groups.len() && #[trigger] group_lists(groups[g], v2, i2) ==> precedes(v2, i2, v, i)
    &&& forall|v2: int, i2: int|
        #[trigger] is_input_of(vtxs, v2, i2) && precedes(v2, i2, v, i) ==> exists|g: int|
            0 <= g < groups.len() && #[trigger] group_lists(groups[g], v2, i2)
}

/// `groups` are the lock script groups of all resolved inputs of `vtxs`.
pub open spec fn script_groups_of(vtxs: Seq<VirtualTx>, groups: Seq<ScriptGroupInfo>) -> bool {
    groups_upto(vtxs, groups, vtxs.len() as int, 0)
}

/// Collect lock script groups across multiple VTxs.
///
/// Lock scripts are grouped by their script hash. A script group that spans
/// multiple VTxs requires multiple verification passes.
pub fn collect_script_groups(vtxs: &[VirtualTx]) -> (r: Vec<ScriptGroupInfo>)
    ensures
        script_groups_of(vtxs@, r@),
{
    let mut groups: Vec<ScriptGroupInfo> = Vec::new();
    let mut vtx_idx: usize = 0;
    while vtx_idx < vtxs.len()
        invariant
            vtx_idx <= vtxs@.len(),
            groups_upto(vtxs@, groups@, vtx_idx as int, 0),
        decreases vtxs@.len() - vtx_idx,
    {
        let vtx = &vtxs[vtx_idx];
        let mut input_idx: usize = 0;
        while input_idx < vtx.resolved_inputs.len()
            invariant
                vtx_idx < vtxs@.len(),
                *vtx == vtxs@[vtx_idx as int],
                input_idx <= vtx.resolved_inputs@.len(),
                groups_upto(vtxs@, groups@, vtx_idx as int, input_idx as int),
            decreases vtx.resolved_inputs@.len() - input_idx,
        {
            let lock_hash = script_hash_of(&vtx.resolved_inputs[input_idx].output.lock);
            add_to_groups(vtxs, &mut groups, vtx_idx, input_idx, lock_hash);
            input_idx = input_idx + 1;
        }
        proof {
            assert forall|v2: int, i2: int|
                #[trigger] is_input_of(vtxs@, v2, i2) && precedes(v2, i2, vtx_idx + 1, 0) implies exists|g: int|
                    0 <= g < groups@.len() && #[trigger] group_lists(groups@[g], v2, i2) by {
                assert(precedes(v2, i2, vtx_idx as int, input_idx as int));
            }
            assert forall|g: int, v2: int, i2: int|
                0 <= g < groups@.len() && #[trigger] group_lists(groups@[g], v2, i2) implies precedes(v2, i2, vtx_idx + 1, 0) by {
                assert(precedes(v2, i2, vtx_idx as int, input_idx as int));
            }
        }
        vtx_idx = vtx_idx + 1;
    }
    groups
}

/// The index of the group with lock script hash `h`, if there is one.
fn find_group(groups: &Vec<ScriptGroupInfo>, h: &[u8; 32]) -> (r: Option<usize>)
    ensures
        r matches Some(g) ==> g < groups@.len() && groups@[g as int].script_hash@ == h@,
        r is None ==> forall|g: int| 0 <= g < groups@.len() ==> groups@[g].script_hash@ != h@,
{
    let mut g: usize = 0;
    while g < groups.len()
        invariant
            g <= groups@.len(),
            forall|j: int| 0 <= j < g ==> groups@[j].script_hash@ != h@,
        decreases groups@.len() - g,
    {
        if bytes32_eq(&groups[g].script_hash, h) {
            return Some(g);
        }
        g = g + 1;
    }
    None
}

/// The position of `v` in `indices`, if it occurs.
fn find_index(indices: &Vec<usize>, v: usize) -> (r: Option<usize>)
    ensures
        r matches Some(k) ==> k < indices@.len() && indices@[k as int] == v,
        r is None ==> forall|k: int| 0 <= k < indices@.len() ==> indices@[k] != v,
{
    let mut k: usize = 0;
    while k < indices.len()
        invariant
            k <= indices@.len(),
            forall|j: int| 0 <= j < k ==> indices@[j] != v,
        decreases indices@.len() - k,
    {
        if indices[k] == v {
            return Some(k);
        }
        k = k + 1;
    }
    None
}

/// The first input a well-formed group lists is one it lists.
proof fn lemma_first_listed(vtxs: Seq<VirtualTx>, group: ScriptGroupInfo)
    requires
        group_well_formed(vtxs, group),
    ensures
        group_lists(group, first_v(group), first_i(group)),
{
    assert(group.local_input_indices@[0]@.len() > 0);
    assert(group.local_input_indices@[0]@[0] == first_i(group));
}

/// Record input `(v, i)`, whose lock hash is `lock_hash`, in the groups of
/// the inputs before it.
fn add_to_groups(vtxs: &[VirtualTx], groups: &mut Vec<ScriptGroupInfo>, v: usize, i: usize, lock_hash: [u8; 32])
    requires
        is_input_of(vtxs@, v as int, i as int),
        lock_hash@ == input_lock_hash(vtxs@, v as int, i as int),
        groups_upto(vtxs@, old(groups)@, v as int, i as int),
    ensures
        groups_upto(vtxs@, final(groups)@, v as int, i + 1),
{
    let ghost old_groups = groups@;
    match find_group(groups, &lock_hash) {
        Some(g) => {
            proof {
                assert(group_well_formed(vtxs@, old_groups[g as int]));
            }
            match find_index(&groups[g].vtx_indices, v) {
                Some(k) => {
                    proof {
                        let old_g = old_groups[g as int];
                        let ls = old_g.local_input_indices@[k as int]@;
                        assert forall|m: int| 0 <= m < ls.len() implies ls[m] < i by {
                            assert(group_lists(old_g, v as int, ls[m] as int));
                        }
                    }
                    groups[g].local_input_indices[k].push(i);
                    proof {
                        lemma_extend_group_entry(vtxs@, old_groups, groups@, g as int, k as int, v, i);
                    }
                },
                None => {
                    proof {
                        let old_g = old_groups[g as int];
                        assert forall|k: int| 0 <= k < old_g.vtx_indices@.len() implies old_g.vtx_indices@[k] < v by {
                            assert(old_g.local_input_indices@[k]@.len() > 0);
                            assert(group_lists(old_g, old_g.vtx_indices@[k] as int, old_g.local_input_indices@[k]@[0] as int));
                        }
                    }
                    let mut locals: Vec<usize> = Vec::new();
                    locals.push(i);
                    groups[g].vtx_indices.push(v);
                    groups[g].local_input_indices.push(locals);
                    proof {
                        lemma_extend_group_vtx(vtxs@, old_groups, groups@, g as int, v, i);
                    }
                },
            }
        },
        None => {
            let mut vs: Vec<usize> = Vec::new();
            vs.push(v);
            let mut locals: Vec<usize> = Vec::new();
            locals.push(i);
            let mut ls: Vec<Vec<usize>> = Vec::new();
            ls.push(locals);
            groups.push(ScriptGroupInfo { script_hash: lock_hash, vtx_indices: vs, local_input_indices: ls });
            proof {
                lemma_new_group(vtxs@, old_groups, groups@, v, i);
            }
        },
    }
}

/// Adding input `(v, i)` to entry `pos` (for VTx `v`) of group `g`.
proof fn lemma_extend_group_entry(
    vtxs: Seq<VirtualTx>,
    old_groups: Seq<ScriptGroupInfo>,
    groups: Seq<ScriptGroupInfo>,
    g: int,
    pos: int,
    v: usize,
    i: usize,
)
    requires
        is_input_of(vtxs, v as int, i as int),
        groups_upto(vtxs, old_groups, v as int, i as int),
        0 <= g < old_groups.len(),
        old_groups[g].script_hash@ == input_lock_hash(vtxs, v as int, i as int),
        0 <= pos < old_groups[g].vtx_indices@.len(),
        old_groups[g].vtx_indices@[pos] == v,
        forall|m: int| 0 <= m < old_groups[g].local_input_indices@[pos]@.len() ==> old_groups[g].local_input_indices@[pos]@[m] < i,
        groups.len() == old_groups.len(),
        forall|j: int| 0 <= j < groups.len() && j != g ==> groups[j] == old_groups[j],
        groups[g].script_hash == old_groups[g].script_hash,
        groups[g].vtx_indices@ == old_groups[g].vtx_indices@,
        groups[g].local_input_indices@.len() == old_groups[g].local_input_indices@.len(),
        forall|j: int| 0 <= j < groups[g].local_input_indices@.len() && j != pos ==> groups[g].local_input_indices@[j] == old_groups[g].local_input_indices@[j],
        groups[g].local_input_indices@[pos]@ == old_groups[g].local_input_indices@[pos]@.push(i),
    ensures
        groups_upto(vtxs, groups, v as int, i + 1),
{
    let old_g = old_groups[g];
    let new_g = groups[g];
    assert(group_well_formed(vtxs, old_g));
    assert(group_well_formed(vtxs, new_g)) by {
        assert(new_g.vtx_indices@ == old_g.vtx_indices@);
        assert(new_g.local_input_indices@.len() == new_g.vtx_indices@.len());
        assert forall|k1: int, k2: int| 0 <= k1 < k2 < new_g.vtx_indices@.len() implies new_g.vtx_indices@[k1] < new_g.vtx_indices@[k2] by {
            assert(old_g.vtx_indices@[k1] < old_g.vtx_indices@[k2]);
        }
        assert forall|j: int| 0 <= j < new_g.vtx_indices@.len() implies #[trigger] new_g.vtx_indices@[j] < vtxs.len() by {
            assert(old_g.local_input_indices@[j]@.len() > 0);
            assert(new_g.vtx_indices@[j] == old_g.vtx_indices@[j]);
        }
        assert forall|j: int| 0 <= j < new_g.vtx_indices@.len() implies {
            &&& new_g.vtx_indices@[j] < vtxs.len()
            &&& (#[trigger] new_g.local_input_indices@[j])@.len() > 0
            &&& forall|m1: int, m2: int| 0 <= m1 < m2 < new_g.local_input_indices@[j]@.len() ==> new_g.local_input_indices@[j]@[m1] < new_g.local_input_indices@[j]@[m2]
            &&& forall|m: int|
                0 <= m < new_g.local_input_indices@[j]@.len() ==> is_input_of(vtxs, new_g.vtx_indices@[j] as int, #[trigger] new_g.local_input_indices@[j]@[m] as int)
                    && input_lock_hash(vtxs, new_g.vtx_indices@[j] as int, new_g.local_input_indices@[j]@[m] as int) == new_g.script_hash@
        } by {
            assert(old_g.local_input_indices@[j]@.len() > 0);
            assert(old_g.vtx_indices@[j] < vtxs.len());
            assert(new_g.vtx_indices@[j] == old_g.vtx_indices@[j]);
            if j != pos {
                assert(new_g.local_input_indices@[j] == old_g.local_input_indices@[j]);
            }
        }
    }
    assert(first_v(new_g) == first_v(old_g));
    assert(first_i(new_g) == first_i(old_g)) by {
        assert(old_g.local_input_indices@[0]@.len() > 0);
    }
    assert forall|j: int| 0 <= j < groups.len() implies group_well_formed(vtxs, #[trigger] groups[j]) by {
        if j != g {
            assert(group_well_formed(vtxs, old_groups[j]));
        }
    }
    assert forall|g1: int, g2: int|
        0 <= g1 < g2 < groups.len() implies (#[trigger] groups[g1]).script_hash@ != (#[trigger] groups[g2]).script_hash@
            && precedes(first_v(groups[g1]), first_i(groups[g1]), first_v(groups[g2]), first_i(groups[g2])) by {
        assert(old_groups[g1].script_hash@ != old_groups[g2].script_hash@);
    }
    assert forall|j: int, v2: int, i2: int|
        0 <= j < groups.len() && #[trigger] group_lists(groups[j], v2, i2) implies precedes(v2, i2, v as int, i + 1) by {
        if j != g {
            assert(group_lists(old_groups[j], v2, i2));
        } else {
            let (kk, mm) = choose|kk: int, mm: int|
                0 <= kk < new_g.vtx_indices@.len() && 0 <= mm < new_g.local_input_indices@[kk]@.len()
                    && new_g.vtx_indices@[kk] == v2 && #[trigger] new_g.local_input_indices@[kk]@[mm] == i2;
            if kk == pos && mm == old_g.local_input_indices@[pos]@.len() {
            } else {
                assert(old_g.local_input_indices@[kk]@[mm] == i2);
                assert(group_lists(old_g, v2, i2));
            }
        }
    }
    assert forall|v2: int, i2: int|
        #[trigger] is_input_of(vtxs, v2, i2) && precedes(v2, i2, v as int, i + 1) implies exists|j: int|
            0 <= j < groups.len() && #[trigger] group_lists(groups[j], v2, i2) by {
        if v2 == v && i2 == i {
            let mm = old_g.local_input_indices@[pos]@.len() as int;
            assert(new_g.local_input_indices@[pos]@[mm] == i2);
            assert(group_lists(groups[g], v2, i2));
        } else {
            assert(precedes(v2, i2, v as int, i as int));
            let j = choose|j: int| 0 <= j < old_groups.len() && #[trigger] group_lists(old_groups[j], v2, i2);
            if j != g {
                assert(group_lists(groups[j], v2, i2));
            } else {
                let (kk, mm) = choose|kk: int, mm: int|
                    0 <= kk < old_g.vtx_indices@.len() && 0 <= mm < old_g.local_input_indices@[kk]@.len()
                        && old_g.vtx_indices@[kk] == v2 && #[trigger] old_g.local_input_indices@[kk]@[mm] == i2;
                assert(new_g.local_input_indices@[kk]@[mm] == i2);
                assert(group_lists(groups[j], v2, i2));
            }
        }
    }
}

/// Adding a new entry for VTx `v`, listing input `i`, to group `g`.
proof fn lemma_extend_group_vtx(
    vtxs: Seq<VirtualTx>,
    old_groups: Seq<ScriptGroupInfo>,
    groups: Seq<ScriptGroupInfo>,
    g: int,
    v: usize,
    i: usize,
)
    requires
        is_input_of(vtxs, v as int, i as int),
        groups_upto(vtxs, old_groups, v as int, i as int),
        0 <= g < old_groups.len(),
        old_groups[g].script_hash@ == input_lock_hash(vtxs, v as int, i as int),
        forall|k: int| 0 <= k < old_groups[g].vtx_indices@.len() ==> old_groups[g].vtx_indices@[k] < v,
        groups.len() == old_groups.len(),
        forall|j: int| 0 <= j < groups.len() && j != g ==> groups[j] == old_groups[j],
        groups[g].script_hash == old_groups[g].script_hash,
        groups[g].vtx_indices@ == old_groups[g].vtx_indices@.push(v),
        groups[g].local_input_indices@.len() == old_groups[g].local_input_indices@.len() + 1,
        forall|j: int| 0 <= j < old_groups[g].local_input_indices@.len() ==> groups[g].local_input_indices@[j] == old_groups[g].local_input_indices@[j],
        groups[g].local_input_indices@[old_groups[g].local_input_indices@.len() as int]@ == seq![i],
    ensures
        groups_upto(vtxs, groups, v as int, i + 1),
{
    let old_g = old_groups[g];
    let new_g = groups[g];
    let n = old_g.vtx_indices@.len() as int;
    assert(group_well_formed(vtxs, old_g));
    assert(group_well_formed(vtxs, new_g)) by {
        assert forall|j: int| 0 <= j < new_g.vtx_indices@.len() implies {
            &&& new_g.vtx_indices@[j] < vtxs.len()
            &&& (#[trigger] new_g.local_input_indices@[j])@.len() > 0
            &&& forall|m1: int, m2: int| 0 <= m1 < m2 < new_g.local_input_indices@[j]@.len() ==> new_g.local_input_indices@[j]@[m1] < new_g.local_input_indices@[j]@[m2]
            &&& forall|m: int|
                0 <= m < new_g.local_input_indices@[j]@.len() ==> is_input_of(vtxs, new_g.vtx_indices@[j] as int, #[trigger] new_g.local_input_indices@[j]@[m] as int)
                    && input_lock_hash(vtxs, new_g.vtx_indices@[j] as int, new_g.local_input_indices@[j]@[m] as int) == new_g.script_hash@
        } by {
            if j < n {
                assert(new_g.local_input_indices@[j] == old_g.local_input_indices@[j]);
            } else {
                assert(new_g.local_input_indices@[j]@ == seq![i]);
            }
        }
    }
    assert(first_v(new_g) == first_v(old_g));
    assert(first_i(new_g) == first_i(old_g));
    assert forall|j: int| 0 <= j < groups.len() implies group_well_formed(vtxs, #[trigger] groups[j]) by {
        if j != g {
            assert(group_well_formed(vtxs, old_groups[j]));
        }
    }
    assert forall|g1: int, g2: int|
        0 <= g1 < g2 < groups.len() implies (#[trigger] groups[g1]).script_hash@ != (#[trigger] groups[g2]).script_hash@
            && precedes(first_v(groups[g1]), first_i(groups[g1]), first_v(groups[g2]), first_i(groups[g2])) by {
        assert(old_groups[g1].script_hash@ != old_groups[g2].script_hash@);
    }
    assert forall|j: int, v2: int, i2: int|
        0 <= j < groups.len() && #[trigger] group_lists(groups[j], v2, i2) implies precedes(v2, i2, v as int, i + 1) by {
        if j != g {
            assert(group_lists(old_groups[j], v2, i2));
        } else {
            let (kk, mm) = choose|kk: int, mm: int|
                0 <= kk < new_g.vtx_indices@.len() && 0 <= mm < new_g.local_input_indices@[kk]@.len()
                    && new_g.vtx_indices@[kk] == v2 && #[trigger] new_g.local_input_indices@[kk]@[mm] == i2;
            if kk == n {
                assert(new_g.local_input_indices@[kk]@ == seq![i]);
            } else {
                assert(old_g.local_input_indices@[kk]@[mm] == i2);
                assert(group_lists(old_g, v2, i2));
            }
        }
    }
    assert forall|v2: int, i2: int|
        #[trigger] is_input_of(vtxs, v2, i2) && precedes(v2, i2, v as int, i + 1) implies exists|j: int|
            0 <= j < groups.len() && #[trigger] group_lists(groups[j], v2, i2) by {
        if v2 == v && i2 == i {
            assert(new_g.local_input_indices@[n]@[0] == i2);
            assert(group_lists(groups[g], v2, i2));
        } else {
            assert(precedes(v2, i2, v as int, i as int));
            let j = choose|j: int| 0 <= j < old_groups.len() && #[trigger] group_lists(old_groups[j], v2, i2);
            if j != g {
                assert(group_lists(groups[j], v2, i2));
            } else {
                let (kk, mm) = choose|kk: int, mm: int|
                    0 <= kk < old_g.vtx_indices@.len() && 0 <= mm < old_g.local_input_indices@[kk]@.len()
                        && old_g.vtx_indices@[kk] == v2 && #[trigger] old_g.local_input_indices@[kk]@[mm] == i2;
                assert(new_g.local_input_indices@[kk]@[mm] == i2);
                assert(group_lists(groups[j], v2, i2));
            }
        }
    }
}

/// Adding a new group for input `(v, i)`, whose lock hash no group has.
proof fn lemma_new_group(
    vtxs: Seq<VirtualTx>,
    old_groups: Seq<ScriptGroupInfo>,
    groups: Seq<ScriptGroupInfo>,
    v: usize,
    i: usize,
)
    requires
        is_input_of(vtxs, v as int, i as int),
        groups_upto(vtxs, old_groups, v as int, i as int),
        groups.len() == old_groups.len() + 1,
        forall|j: int| 0 <= j < old_groups.len() ==> groups[j] == old_groups[j],
        groups.last().script_hash@ == input_lock_hash(vtxs, v as int, i as int),
        forall|j: int| 0 <= j < old_groups.len() ==> old_groups[j].script_hash@ != input_lock_hash(vtxs, v as int, i as int),
        groups.last().vtx_indices@ == seq![v],
        groups.last().local_input_indices@.len() == 1,
        groups.last().local_input_indices@[0]@ == seq![i],
    ensures
        groups_upto(vtxs, groups, v as int, i + 1),
{
    let n = old_groups.len() as int;
    let new_g = groups[n];
    assert(group_well_formed(vtxs, new_g)) by {
        assert forall|j: int| 0 <= j < new_g.vtx_indices@.len() implies {
            &&& new_g.vtx_indices@[j] < vtxs.len()
            &&& (#[trigger] new_g.local_input_indices@[j])@.len() > 0
            &&& forall|m1: int, m2: int| 0 <= m1 < m2 < new_g.local_input_indices@[j]@.len() ==> new_g.local_input_indices@[j]@[m1] < new_g.local_input_indices@[j]@[m2]
            &&& forall|m: int|
                0 <= m < new_g.local_input_indices@[j]@.len() ==> is_input_of(vtxs, new_g.vtx_indices@[j] as int, #[trigger] new_g.local_input_indices@[j]@[m] as int)
                    && input_lock_hash(vtxs, new_g.vtx_indices@[j] as int, new_g.local_input_indices@[j]@[m] as int) == new_g.script_hash@
        } by {
            assert(j == 0);
        }
    }
    assert forall|j: int| 0 <= j < groups.len() implies group_well_formed(vtxs, #[trigger] groups[j]) by {
        if j < n {
            assert(group_well_formed(vtxs, old_groups[j]));
        }
    }
    assert forall|g1: int, g2: int|
        0 <= g1 < g2 < groups.len() implies (#[trigger] groups[g1]).script_hash@ != (#[trigger] groups[g2]).script_hash@
            && precedes(first_v(groups[g1]), first_i(groups[g1]), first_v(groups[g2]), first_i(groups[g2])) by {
        if g2 < n {
            assert(old_groups[g1].script_hash@ != old_groups[g2].script_hash@);
        } else {
            assert(group_well_formed(vtxs, old_groups[g1]));
            lemma_first_listed(vtxs, old_groups[g1]);
            assert(group_lists(old_groups[g1], first_v(old_groups[g1]), first_i(old_groups[g1])));
            assert(first_v(new_g) == v);
            assert(first_i(new_g) == i);
        }
    }
    assert forall|j: int, v2: int, i2: int|
        0 <= j < groups.len() && #[trigger] group_lists(groups[j], v2, i2) implies precedes(v2, i2, v as int, i + 1) by {
        if j < n {
            assert(group_lists(old_groups[j], v2, i2));
        } else {
            let (kk, mm) = choose|kk: int, mm: int|
                0 <= kk < new_g.vtx_indices@.len() && 0 <= mm < new_g.local_input_indices@[kk]@.len()
                    && new_g.vtx_indices@[kk] == v2 && #[trigger] new_g.local_input_indices@[kk]@[mm] == i2;
            assert(kk == 0);
        }
    }
    assert forall|v2: int, i2: int|
        #[trigger] is_input_of(vtxs, v2, i2) && precedes(v2, i2, v as int, i + 1) implies exists|j: int|
            0 <= j < groups.len() && #[trigger] group_lists(groups[j], v2, i2) by {
        if v2 == v && i2 == i {
            assert(new_g.local_input_indices@[0]@[0] == i2);
            assert(group_lists(groups[n], v2, i2));
        } else {
            assert(precedes(v2, i2, v as int, i as int));
            let j = choose|j: int| 0 <= j < old_groups.len() && #[trigger] group_lists(old_groups[j], v2, i2);
            assert(groups[j] == old_groups[j]);
            assert(group_lists(groups[j], v2, i2));
        }
    }
}

/// Lock script groups partition the resolved inputs: every input is listed
/// by a group, every group listing it has the input's lock script hash, and
/// so no other group lists it.
pub proof fn lemma_script_groups_partition(vtxs: Seq<VirtualTx>, groups: Seq<ScriptGroupInfo>, v: int, i: int)
    requires
        script_groups_of(vtxs, groups),
        is_input_of(vtxs, v, i),
    ensures
        exists|g: int| 0 <= g < groups.len() && #[trigger] group_lists(groups[g], v, i),
        forall|g: int|
            0 <= g < groups.len() && #[trigger] group_lists(groups[g], v, i) ==> groups[g].script_hash@ == input_lock_hash(vtxs, v, i),
        forall|g1: int, g2: int|
            0 <= g1 < groups.len() && 0 <= g2 < groups.len() && group_lists(#[trigger] groups[g1], v, i) && group_lists(
                #[trigger] groups[g2],
                v,
                i,
            ) ==> g1 == g2,
{
    assert(precedes(v, i, vtxs.len() as int, 0));
    assert forall|g: int|
        0 <= g < groups.len() && #[trigger] group_lists(groups[g], v, i) implies groups[g].script_hash@ == input_lock_hash(vtxs, v, i) by {
        let grp = groups[g];
        assert(group_well_formed(vtxs, grp));
        let (k, m) = choose|k: int, m: int|
            0 <= k < grp.vtx_indices@.len() && 0 <= m < grp.local_input_indices@[k]@.len()
                && grp.vtx_indices@[k] == v && #[trigger] grp.local_input_indices@[k]@[m] == i;
        assert(grp.local_input_indices@[k]@[m] == i);
    }
    assert forall|g1: int, g2: int|
        0 <= g1 < groups.len() && 0 <= g2 < groups.len() && group_lists(#[trigger] groups[g1], v, i) && group_lists(
            #[trigger] groups[g2],
            v,
            i,
        ) implies g1 == g2 by {
        assert(groups[g1].script_hash@ == input_lock_hash(vtxs, v, i));
        assert(groups[g2].script_hash@ == input_lock_hash(vtxs, v, i));
        if g1 < g2 {
            assert(groups[g1].script_hash@ != groups[g2].script_hash@);
        } else if g2 < g1 {
            assert(groups[g2].script_hash@ != groups[g1].script_hash@);
        }
    }
}

} // verus!
