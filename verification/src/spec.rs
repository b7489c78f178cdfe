//! VTx Specification.
//!
//! The VtxSpec defines how a virtual transaction's components map to positions
//! in the complete (composed) transaction. It is stored in the first input's
//! type script witness.

use std::ops::Range;
use vstd::prelude::*;

use crate::error::{append_number, append_text, decimal, VtxError, VtxResult};

verus! {

/// Specification for how a VTx's components map to the complete transaction.
///
/// Each VTx owns non-overlapping (disjoint) ranges of input and output indices
/// in the composed transaction. Cell deps and header deps are merged with
/// deduplication.
#[derive(Debug)]
pub struct VtxSpec {
    /// The range of input indices this VTx occupies in the composed tx.
    /// Must be disjoint with input ranges of all other VTxs.
    pub input_range: Range<usize>,
    /// The range of output indices this VTx occupies in the composed tx.
    /// Must be disjoint with output ranges of all other VTxs.
    pub output_range: Range<usize>,
    /// Index of this VTx within the set of VTxs being composed.
    pub vtx_index: usize,
    /// Total number of VTxs expected in the composition.
    pub total_vtxs: usize,
}

/// `i` lies in the half-open range `r`.
pub open spec fn in_range(r: Range<usize>, i: int) -> bool {
    r.start <= i < r.end
}

/// The number of indices in `r`.
pub open spec fn range_len(r: Range<usize>) -> nat {
    if r.start < r.end {
        (r.end - r.start) as nat
    } else {
        0
    }
}

/// Two ranges overlap when some index lies in both.
pub open spec fn overlap(a: Range<usize>, b: Range<usize>) -> bool {
    exists|i: int| in_range(a, i) && in_range(b, i)
}

/// The global position of local index `local` in `r`, if it lies in `r`.
pub open spec fn local_to_global(r: Range<usize>, local: int) -> Option<int> {
    if 0 <= local && in_range(r, r.start + local) {
        Some(r.start + local)
    } else {
        None
    }
}

/// The local position of global index `global` in `r`, if it lies in `r`.
pub open spec fn global_to_local(r: Range<usize>, global: int) -> Option<int> {
    if in_range(r, global) {
        Some(global - r.start)
    } else {
        None
    }
}

/// A range written as `start..end`, in decimal.
pub open spec fn range_text(r: Range<usize>) -> Seq<char> {
    decimal(r.start as nat) + ".."@ + decimal(r.end as nat)
}

/// "`kind` ranges `a` and `b` overlap", with the ranges written as
/// `start..end`.
pub open spec fn overlap_message(kind: Seq<char>, a: Range<usize>, b: Range<usize>) -> Seq<char> {
    kind + " ranges "@ + range_text(a) + " and "@ + range_text(b) + " overlap"@
}

impl VtxSpec {
    /// Two specs conflict when their input ranges or their output ranges
    /// overlap.
    pub open spec fn conflicts(self, other: VtxSpec) -> bool {
        overlap(self.input_range, other.input_range) || overlap(
            self.output_range,
            other.output_range,
        )
    }

    /// The message with which `validate_no_overlap` rejects `other`: about
    /// the input ranges when they overlap, otherwise about the output ranges.
    pub open spec fn overlap_error_message(self, other: VtxSpec) -> Seq<char> {
        if overlap(self.input_range, other.input_range) {
            overlap_message("input"@, self.input_range, other.input_range)
        } else {
            overlap_message("output"@, self.output_range, other.output_range)
        }
    }

    /// Create a new VtxSpec.
    pub fn new(
        input_range: Range<usize>,
        output_range: Range<usize>,
        vtx_index: usize,
        total_vtxs: usize,
    ) -> (r: Self)
        ensures
            r.input_range == input_range,
            r.output_range == output_range,
            r.vtx_index == vtx_index,
            r.total_vtxs == total_vtxs,
    {
        Self { input_range, output_range, vtx_index, total_vtxs }
    }

    /// Validate that this spec does not overlap with another spec.
    pub fn validate_no_overlap(&self, other: &VtxSpec) -> (r: VtxResult<()>)
        ensures
            r is Ok <==> !self.conflicts(*other),
            r matches Err(e) ==> e is OverlappingRanges,
            r matches Err(VtxError::OverlappingRanges(m)) ==> m@ == self.overlap_error_message(*other),
    {
        if ranges_overlap(&self.input_range, &other.input_range) {
            return Err(VtxError::OverlappingRanges(describe_overlap("input", &self.input_range, &other.input_range)));
        }
        if ranges_overlap(&self.output_range, &other.output_range) {
            return Err(VtxError::OverlappingRanges(describe_overlap("output", &self.output_range, &other.output_range)));
        }
        Ok(())
    }

    /// Map a global input index to a local index within this VTx.
    /// Returns None if the global index is not within this VTx's range.
    pub fn global_to_local_input(&self, global_index: usize) -> (r: Option<usize>)
        ensures
            r matches Some(l) ==> global_to_local(self.input_range, global_index as int) == Some(l as int),
            r is None ==> global_to_local(self.input_range, global_index as int) is None,
    {
        map_global_to_local(&self.input_range, global_index)
    }

    /// Map a global output index to a local index within this VTx.
    /// Returns None if the global index is not within this VTx's range.
    pub fn global_to_local_output(&self, global_index: usize) -> (r: Option<usize>)
        ensures
            r matches Some(l) ==> global_to_local(self.output_range, global_index as int) == Some(l as int),
            r is None ==> global_to_local(self.output_range, global_index as int) is None,
    {
        map_global_to_local(&self.output_range, global_index)
    }

    /// Map a local input index to the global index in the composed tx.
    pub fn local_to_global_input(&self, local_index: usize) -> (r: Option<usize>)
        requires
            self.input_range.start + local_index <= usize::MAX,
        ensures
            r matches Some(g) ==> local_to_global(self.input_range, local_index as int) == Some(g as int),
            r is None ==> local_to_global(self.input_range, local_index as int) is None,
    {
        map_local_to_global(&self.input_range, local_index)
    }

    /// Map a local output index to the global index in the composed tx.
    pub fn local_to_global_output(&self, local_index: usize) -> (r: Option<usize>)
        requires
            self.output_range.start + local_index <= usize::MAX,
        ensures
            r matches Some(g) ==> local_to_global(self.output_range, local_index as int) == Some(g as int),
            r is None ==> local_to_global(self.output_range, local_index as int) is None,
    {
        map_local_to_global(&self.output_range, local_index)
    }
}

impl Clone for VtxSpec {
    fn clone(&self) -> (r: Self)
        ensures
            r == *self,
    {
        VtxSpec {
            input_range: self.input_range.start..self.input_range.end,
            output_range: self.output_range.start..self.output_range.end,
            vtx_index: self.vtx_index,
            total_vtxs: self.total_vtxs,
        }
    }
}

impl Default for VtxSpec {
    /// The spec of a lone VTx that owns no inputs and no outputs.
    fn default() -> (r: Self)
        ensures
            r.input_range.start == 0 && r.input_range.end == 0,
            r.output_range.start == 0 && r.output_range.end == 0,
            r.vtx_index == 0,
            r.total_vtxs == 1,
    {
        Self { input_range: 0..0, output_range: 0..0, vtx_index: 0, total_vtxs: 1 }
    }
}

fn map_global_to_local(r: &Range<usize>, global_index: usize) -> (res: Option<usize>)
    ensures
        res matches Some(l) ==> global_to_local(*r, global_index as int) == Some(l as int),
        res is None ==> global_to_local(*r, global_index as int) is None,
{
    if r.start <= global_index && global_index < r.end {
        Some(global_index - r.start)
    } else {
        None
    }
}

fn map_local_to_global(r: &Range<usize>, local_index: usize) -> (res: Option<usize>)
    requires
        r.start + local_index <= usize::MAX,
    ensures
        res matches Some(g) ==> local_to_global(*r, local_index as int) == Some(g as int),
        res is None ==> local_to_global(*r, local_index as int) is None,
{
    let global = r.start + local_index;
    if r.start <= global && global < r.end {
        Some(global)
    } else {
        None
    }
}

/// Check if two ranges overlap.
fn ranges_overlap(a: &Range<usize>, b: &Range<usize>) -> (r: bool)
    ensures
        r == overlap(*a, *b),
{
    let r = a.start < a.end && b.start < b.end && a.start < b.end && b.start < a.end;
    if r {
        let m: usize = if a.start < b.start { b.start } else { a.start };
        assert(in_range(*a, m as int) && in_range(*b, m as int));
    }
    r
}

/// "`kind` ranges `a` and `b` overlap", with the ranges written as `start..end`.
fn describe_overlap(kind: &str, a: &Range<usize>, b: &Range<usize>) -> (r: String)
    ensures
        r@ == overlap_message(kind@, *a, *b),
{
    let text = append_text(kind.to_string(), " ranges ");
    let text = append_number(text, a.start as u64);
    let text = append_text(text, "..");
    let text = append_number(text, a.end as u64);
    let text = append_text(text, " and ");
    let text = append_number(text, b.start as u64);
    let text = append_text(text, "..");
    let text = append_number(text, b.end as u64);
    let r = append_text(text, " overlap");
    assert(r@ =~= overlap_message(kind@, *a, *b));
    r
}

/// Overlap is symmetric, so `validate_no_overlap` accepts `a` against `b`
/// exactly when it accepts `b` against `a`.
pub proof fn lemma_conflicts_symmetric(a: VtxSpec, b: VtxSpec)
    ensures
        a.conflicts(b) == b.conflicts(a),
{
    if overlap(a.input_range, b.input_range) {
        let i = choose|i: int| in_range(a.input_range, i) && in_range(b.input_range, i);
        assert(in_range(b.input_range, i) && in_range(a.input_range, i));
    }
    if overlap(b.input_range, a.input_range) {
        let i = choose|i: int| in_range(b.input_range, i) && in_range(a.input_range, i);
        assert(in_range(a.input_range, i) && in_range(b.input_range, i));
    }
    if overlap(a.output_range, b.output_range) {
        let i = choose|i: int| in_range(a.output_range, i) && in_range(b.output_range, i);
        assert(in_range(b.output_range, i) && in_range(a.output_range, i));
    }
    if overlap(b.output_range, a.output_range) {
        let i = choose|i: int| in_range(b.output_range, i) && in_range(a.output_range, i);
        assert(in_range(a.output_range, i) && in_range(b.output_range, i));
    }
}

/// An empty range overlaps nothing.
pub proof fn lemma_empty_range_overlaps_nothing(a: Range<usize>, b: Range<usize>)
    requires
        a.end <= a.start,
    ensures
        !overlap(a, b),
{
}

/// Mapping a local index to the global one and back gives the local index
/// again, and mapping a global index inside the range to the local one and
/// back gives the global index again.
pub proof fn lemma_index_mapping_roundtrip(r: Range<usize>, local: int, global: int)
    ensures
        local_to_global(r, local) matches Some(g) ==> global_to_local(r, g) == Some(local),
        global_to_local(r, global) matches Some(l) ==> local_to_global(r, l) == Some(global),
        global_to_local(r, global) is Some <==> in_range(r, global),
        local_to_global(r, local) is Some <==> 0 <= local < range_len(r),
{
}

} // verus!
