//! Composition of virtual transactions into one complete transaction.

use vstd::prelude::*;

use crate::cell::{
    build_transaction, bytes32_eq, cell_dep_layout, cell_input_layout, cell_output_bytes, copy_bytes,
    encode_cell_deps, encode_inputs, encode_outputs, lemma_hashes_deep_view, lemma_nested_bytes_deep_view,
    out_point_eq, spec_transaction_parts, cell_dep_size, cell_input_size, lemma_le_bytes_len, CellDep, CellInput, CellOutput, CellOutputView,
};
use crate::error::{append_number, append_text, decimal, VtxError, VtxResult};
use crate::spec::{in_range, range_len};
use std::ops::Range;
use vstd::set_lib::{lemma_int_range, lemma_len_subset, lemma_set_disjoint_lens, set_int_range};
use crate::types::VirtualTx;

verus! {

/// The components of a composed transaction, in the order in which they
/// are handed to the transaction builder.
#[derive(Debug)]
pub struct ComposedTx {
    /// The inputs, in the order of their global positions.
    pub inputs: Vec<CellInput>,
    /// The outputs, in the order of their global positions.
    pub outputs: Vec<CellOutput>,
    /// The data of every global output position (empty where no VTx gave any).
    pub outputs_data: Vec<Vec<u8>>,
    /// The witness of every global input position (empty where no VTx gave any).
    pub witnesses: Vec<Vec<u8>>,
    /// The cell deps of all VTxs, each out point once, in order of first appearance.
    pub cell_deps: Vec<CellDep>,
    /// The header deps of all VTxs, each hash once, in order of first appearance.
    pub header_deps: Vec<[u8; 32]>,
}

/// The sum of the input range lengths of the first `k` VTxs.
pub open spec fn inputs_total(vtxs: Seq<VirtualTx>, k: int) -> nat
    decreases k,
{
    if k <= 0 {
        0
    } else {
        inputs_total(vtxs, k - 1) + range_len(vtxs[k - 1].spec.input_range)
    }
}

/// The sum of the output range lengths of the first `k` VTxs.
pub open spec fn outputs_total(vtxs: Seq<VirtualTx>, k: int) -> nat
    decreases k,
{
    if k <= 0 {
        0
    } else {
        outputs_total(vtxs, k - 1) + range_len(vtxs[k - 1].spec.output_range)
    }
}

/// No two VTxs have overlapping input ranges or overlapping output ranges.
pub open spec fn specs_disjoint(vtxs: Seq<VirtualTx>) -> bool {
    forall|a: int, b: int|
        0 <= a < b < vtxs.len() ==> !(#[trigger] vtxs[a]).spec.conflicts((#[trigger] vtxs[b]).spec)
}

/// The input and output ranges of VTx `k` lie below the totals.
pub open spec fn ranges_fit(vtxs: Seq<VirtualTx>, k: int) -> bool {
    let n = vtxs.len() as int;
    &&& range_len(vtxs[k].spec.input_range) > 0 ==> vtxs[k].spec.input_range.end <= inputs_total(vtxs, n)
    &&& range_len(vtxs[k].spec.output_range) > 0 ==> vtxs[k].spec.output_range.end <= outputs_total(vtxs, n)
}

/// Every non-empty range of every VTx lies below the totals.
pub open spec fn ranges_within_totals(vtxs: Seq<VirtualTx>) -> bool {
    forall|k: int| 0 <= k < vtxs.len() ==> #[trigger] ranges_fit(vtxs, k)
}

/// The input placed at global position `g` by the first `k` VTxs: that of
/// the last of them whose input range holds `g` and that has an input at
/// the matching local position.
pub open spec fn input_slot(vtxs: Seq<VirtualTx>, k: int, g: int) -> Option<CellInput>
    decreases k,
{
    if k <= 0 {
        None
    } else {
        let v = vtxs[k - 1];
        let r = v.spec.input_range;
        if in_range(r, g) && g - r.start < v.inputs@.len() {
            Some(v.inputs@[g - r.start])
        } else {
            input_slot(vtxs, k - 1, g)
        }
    }
}

/// The output placed at global position `g` by the first `k` VTxs.
pub open spec fn output_slot(vtxs: Seq<VirtualTx>, k: int, g: int) -> Option<CellOutputView>
    decreases k,
{
    if k <= 0 {
        None
    } else {
        let v = vtxs[k - 1];
        let r = v.spec.output_range;
        if in_range(r, g) && g - r.start < v.outputs@.len() {
            Some(v.outputs@[g - r.start]@)
        } else {
            output_slot(vtxs, k - 1, g)
        }
    }
}

/// The output data placed at global position `g` by the first `k` VTxs.
pub open spec fn output_data_slot(vtxs: Seq<VirtualTx>, k: int, g: int) -> Option<Seq<u8>>
    decreases k,
{
    if k <= 0 {
        None
    } else {
        let v = vtxs[k - 1];
        let r = v.spec.output_range;
        if in_range(r, g) && g - r.start < v.outputs_data@.len() {
            Some(v.outputs_data@[g - r.start]@)
        } else {
            output_data_slot(vtxs, k - 1, g)
        }
    }
}

/// The witness placed at global input position `g` by the first `k` VTxs.
pub open spec fn witness_slot(vtxs: Seq<VirtualTx>, k: int, g: int) -> Option<Seq<u8>>
    decreases k,
{
    if k <= 0 {
        None
    } else {
        let v = vtxs[k - 1];
        let r = v.spec.input_range;
        if in_range(r, g) && g - r.start < v.witnesses@.len() {
            Some(v.witnesses@[g - r.start]@)
        } else {
            witness_slot(vtxs, k - 1, g)
        }
    }
}

/// The present values of `s`, in order.
pub open spec fn somes<T>(s: Seq<Option<T>>) -> Seq<T>
    decreases s.len(),
{
    if s.len() == 0 {
        Seq::empty()
    } else {
        somes(s.drop_last()) + match s.last() {
            Some(x) => seq![x],
            None => Seq::<T>::empty(),
        }
    }
}

/// The bytes held, or no bytes.
pub open spec fn or_empty(b: Option<Seq<u8>>) -> Seq<u8> {
    match b {
        Some(x) => x,
        None => Seq::empty(),
    }
}

/// The cell deps of the first `k` VTxs, one VTx after another.
pub open spec fn cell_deps_upto(vtxs: Seq<VirtualTx>, k: int) -> Seq<CellDep>
    decreases k,
{
    if k <= 0 {
        Seq::empty()
    } else {
        cell_deps_upto(vtxs, k - 1) + vtxs[k - 1].cell_deps@
    }
}

/// The header deps of the first `k` VTxs, one VTx after another.
pub open spec fn header_deps_upto(vtxs: Seq<VirtualTx>, k: int) -> Seq<[u8; 32]>
    decreases k,
{
    if k <= 0 {
        Seq::empty()
    } else {
        header_deps_upto(vtxs, k - 1) + vtxs[k - 1].header_deps@
    }
}

/// The cell deps of `s`, keeping only the first with each out point.
pub open spec fn dedup_cell_deps(s: Seq<CellDep>) -> Seq<CellDep>
    decreases s.len(),
{
    if s.len() == 0 {
        Seq::empty()
    } else {
        let d = dedup_cell_deps(s.drop_last());
        if has_out_point(d, s.last().out_point) {
            d
        } else {
            d.push(s.last())
        }
    }
}

/// The hashes of `s`, keeping only the first of each.
pub open spec fn dedup_hashes(s: Seq<[u8; 32]>) -> Seq<[u8; 32]>
    decreases s.len(),
{
    if s.len() == 0 {
        Seq::empty()
    } else {
        let d = dedup_hashes(s.drop_last());
        if d.contains(s.last()) {
            d
        } else {
            d.push(s.last())
        }
    }
}

/// `tx` is the composition of `vtxs`: every global input and output
/// position takes the component that the VTx owning it holds at the
/// matching local position (positions no VTx fills are dropped), output
/// data and witnesses are kept for every position (empty where absent), and
/// the cell deps and header deps of all VTxs are merged without repeats.
pub open spec fn composed_from(vtxs: Seq<VirtualTx>, tx: ComposedTx) -> bool {
    let n = vtxs.len() as int;
    let total_in = inputs_total(vtxs, n);
    let total_out = outputs_total(vtxs, n);
    &&& tx.inputs@ == somes(Seq::new(total_in, |g: int| input_slot(vtxs, n, g)))
    &&& tx.outputs@.map_values(|o: CellOutput| o@) == somes(Seq::new(total_out, |g: int| output_slot(vtxs, n, g)))
    &&& tx.outputs_data@.map_values(|d: Vec<u8>| d@) == Seq::new(total_out, |g: int| or_empty(output_data_slot(vtxs, n, g)))
    &&& tx.witnesses@.map_values(|w: Vec<u8>| w@) == Seq::new(total_in, |g: int| or_empty(witness_slot(vtxs, n, g)))
    &&& tx.cell_deps@ == dedup_cell_deps(cell_deps_upto(vtxs, n))
    &&& tx.header_deps@ == dedup_hashes(header_deps_upto(vtxs, n))
}

/// The components of the transaction that [`VirtualTx::compose`] builds, in
/// the form in which `ckb-types` receives them: the merged cell deps, the
/// merged header deps, the inputs, the outputs, the output data and the
/// witnesses of the composition, each item as bytes, and the version 0 as
/// 4 little-endian bytes.
pub open spec fn composed_tx_parts(vtxs: Seq<VirtualTx>) -> Seq<Seq<Seq<u8>>> {
    let n = vtxs.len() as int;
    let total_in = inputs_total(vtxs, n);
    let total_out = outputs_total(vtxs, n);
    seq![
        dedup_cell_deps(cell_deps_upto(vtxs, n)).map_values(|d: CellDep| cell_dep_layout(d)),
        dedup_hashes(header_deps_upto(vtxs, n)).map_values(|h: [u8; 32]| h@),
        somes(Seq::new(total_in, |g: int| input_slot(vtxs, n, g))).map_values(|i: CellInput| cell_input_layout(i)),
        somes(Seq::new(total_out, |g: int| output_slot(vtxs, n, g))).map_values(|o: CellOutputView| cell_output_bytes(o)),
        Seq::new(total_out, |g: int| or_empty(output_data_slot(vtxs, n, g))),
        Seq::new(total_in, |g: int| or_empty(witness_slot(vtxs, n, g))),
        seq![seq![0u8, 0u8, 0u8, 0u8]],
    ]
}

/// "`kind` index `index` exceeds total `total`".
pub open spec fn exceeds_message(kind: Seq<char>, index: nat, total: nat) -> Seq<char> {
    kind + " index "@ + decimal(index) + " exceeds total "@ + decimal(total)
}

/// The first position of `r` that is not below `total` (for a range that
/// reaches past `total`): the start, or `total` itself.
pub open spec fn first_past(r: Range<usize>, total: nat) -> nat {
    if r.start >= total {
        r.start as nat
    } else {
        total
    }
}

/// The message with which composition rejects the first VTx, from `k` on,
/// whose input range or (failing that) output range reaches past its total.
pub open spec fn misfit_message(vtxs: Seq<VirtualTx>, k: int) -> Seq<char>
    decreases vtxs.len() - k,
{
    if k < 0 || k >= vtxs.len() {
        Seq::empty()
    } else {
        let n = vtxs.len() as int;
        let total_in = inputs_total(vtxs, n);
        let total_out = outputs_total(vtxs, n);
        let r_in = vtxs[k].spec.input_range;
        let r_out = vtxs[k].spec.output_range;
        if range_len(r_in) > 0 && r_in.end > total_in {
            exceeds_message("input"@, first_past(r_in, total_in), total_in)
        } else if range_len(r_out) > 0 && r_out.end > total_out {
            exceeds_message("output"@, first_past(r_out, total_out), total_out)
        } else {
            misfit_message(vtxs, k + 1)
        }
    }
}

/// The first VTx `b`, from `from` on, whose spec conflicts with that of VTx `a`.
pub open spec fn first_conflict_with(vtxs: Seq<VirtualTx>, a: int, from: int) -> Option<int>
    decreases vtxs.len() - from,
{
    if from < 0 || from >= vtxs.len() {
        None
    } else if vtxs[a].spec.conflicts(vtxs[from].spec) {
        Some(from)
    } else {
        first_conflict_with(vtxs, a, from + 1)
    }
}

/// The message with which composition rejects the first conflicting pair of
/// VTxs `a < b`, taken in order of `a` from `a` on, then of `b`.
pub open spec fn conflict_message(vtxs: Seq<VirtualTx>, a: int) -> Seq<char>
    decreases vtxs.len() - a,
{
    if a < 0 || a >= vtxs.len() {
        Seq::empty()
    } else {
        match first_conflict_with(vtxs, a, a + 1) {
            Some(b) => vtxs[a].spec.overlap_error_message(vtxs[b].spec),
            None => conflict_message(vtxs, a + 1),
        }
    }
}

/// The view of an optional output.
pub open spec fn output_opt_view(o: Option<CellOutput>) -> Option<CellOutputView> {
    match o {
        Some(x) => Some(x@),
        None => None,
    }
}

/// The view of optional bytes.
pub open spec fn bytes_opt_view(b: Option<Vec<u8>>) -> Option<Seq<u8>> {
    match b {
        Some(x) => Some(x@),
        None => None,
    }
}


/// Check every pair of VTxs for overlapping ranges, in order.
fn check_disjoint(vtxs: &[VirtualTx]) -> (r: VtxResult<()>)
    ensures
        r is Ok <==> specs_disjoint(vtxs@),
        r matches Err(e) ==> e is OverlappingRanges,
        r matches Err(VtxError::OverlappingRanges(m)) ==> m@ == conflict_message(vtxs@, 0),
{
    let n = vtxs.len();
    let mut i: usize = 0;
    while i < n
        invariant
            n == vtxs@.len(),
            i <= n,
            forall|a: int, b: int| 0 <= a < i && a < b < n ==> !(#[trigger] vtxs@[a]).spec.conflicts((#[trigger] vtxs@[b]).spec),
        decreases n - i,
    {
        let mut j: usize = i + 1;
        while j < n
            invariant
                n == vtxs@.len(),
                i < n,
                i < j <= n,
                forall|a: int, b: int| 0 <= a < i && a < b < n ==> !(#[trigger] vtxs@[a]).spec.conflicts((#[trigger] vtxs@[b]).spec),
                forall|b: int| i < b < j ==> !vtxs@[i as int].spec.conflicts((#[trigger] vtxs@[b]).spec),
            decreases n - j,
        {
            match vtxs[i].validate_no_overlap(&vtxs[j]) {
                Ok(()) => {},
                Err(e) => {
                    proof {
                        lemma_first_conflict_skip(vtxs@, i as int, i + 1, j as int);
                        lemma_conflict_message_skip(vtxs@, 0, i as int);
                    }
                    return Err(e);
                },
            }
            j = j + 1;
        }
        i = i + 1;
    }
    Ok(())
}

/// No VTx from `from` to `to` conflicts with VTx `a`, so the search for the
/// first conflict may start at `to`.
proof fn lemma_first_conflict_skip(vtxs: Seq<VirtualTx>, a: int, from: int, to: int)
    requires
        0 <= from <= to <= vtxs.len(),
        forall|b: int| from <= b < to ==> !vtxs[a].spec.conflicts((#[trigger] vtxs[b]).spec),
    ensures
        first_conflict_with(vtxs, a, from) == first_conflict_with(vtxs, a, to),
    decreases to - from,
{
    if from < to {
        lemma_first_conflict_skip(vtxs, a, from + 1, to);
    }
}

/// No pair with its first VTx from `a` to `i` conflicts, so the search for
/// the first conflicting pair may start at `i`.
proof fn lemma_conflict_message_skip(vtxs: Seq<VirtualTx>, a: int, i: int)
    requires
        0 <= a <= i <= vtxs.len(),
        forall|x: int, b: int|
            a <= x < i && x < b < vtxs.len() ==> !(#[trigger] vtxs[x]).spec.conflicts((#[trigger] vtxs[b]).spec),
    ensures
        conflict_message(vtxs, a) == conflict_message(vtxs, i),
    decreases i - a,
{
    if a < i {
        assert forall|b: int| a + 1 <= b < vtxs.len() implies !vtxs[a].spec.conflicts((#[trigger] vtxs[b]).spec) by {
            assert(!vtxs[a].spec.conflicts(vtxs[b].spec));
        }
        lemma_first_conflict_skip(vtxs, a, a + 1, vtxs.len() as int);
        lemma_conflict_message_skip(vtxs, a + 1, i);
    }
}

/// The ranges of VTxs `a` to `k` fit, so the search for the first misfit may
/// start at `k`.
proof fn lemma_misfit_skip(vtxs: Seq<VirtualTx>, a: int, k: int)
    requires
        0 <= a <= k <= vtxs.len(),
        forall|j: int| a <= j < k ==> #[trigger] ranges_fit(vtxs, j),
    ensures
        misfit_message(vtxs, a) == misfit_message(vtxs, k),
    decreases k - a,
{
    if a < k {
        assert(ranges_fit(vtxs, a));
        lemma_misfit_skip(vtxs, a + 1, k);
    }
}

/// The input range of `v`, or its output range when `out` holds.
spec fn chosen_range(v: VirtualTx, out: bool) -> Range<usize> {
    if out {
        v.spec.output_range
    } else {
        v.spec.input_range
    }
}

/// The sum of the input (or, when `out` holds, output) range lengths of the
/// first `k` VTxs.
spec fn chosen_total(vtxs: Seq<VirtualTx>, k: int, out: bool) -> nat {
    if out {
        outputs_total(vtxs, k)
    } else {
        inputs_total(vtxs, k)
    }
}

/// The indices that the chosen ranges of the first `k` VTxs hold.
spec fn indices_upto(vtxs: Seq<VirtualTx>, k: int, out: bool) -> Set<int> {
    Set::new(|i: int| exists|j: int| 0 <= j < k && #[trigger] in_range(chosen_range(vtxs[j], out), i))
}

/// With disjoint specs, the chosen ranges of the first `k` VTxs hold as
/// many indices as their lengths add up to, all of them below `usize::MAX`.
proof fn lemma_indices_upto(vtxs: Seq<VirtualTx>, k: int, out: bool)
    requires
        specs_disjoint(vtxs),
        0 <= k <= vtxs.len(),
    ensures
        indices_upto(vtxs, k, out).finite(),
        indices_upto(vtxs, k, out).len() == chosen_total(vtxs, k, out),
        indices_upto(vtxs, k, out).subset_of(set_int_range(0, usize::MAX as int)),
    decreases k,
{
    let s = indices_upto(vtxs, k, out);
    if k == 0 {
        assert(s =~= Set::empty());
    } else {
        lemma_indices_upto(vtxs, k - 1, out);
        let prev = indices_upto(vtxs, k - 1, out);
        let r = chosen_range(vtxs[k - 1], out);
        let rs = Set::new(|i: int| in_range(r, i));
        if r.start < r.end {
            assert(rs =~= set_int_range(r.start as int, r.end as int));
            lemma_int_range(r.start as int, r.end as int);
        } else {
            assert(rs =~= Set::empty());
        }
        assert(s =~= prev + rs) by {
            assert forall|i: int| s.contains(i) implies (prev + rs).contains(i) by {
                let j = choose|j: int| 0 <= j < k && #[trigger] in_range(chosen_range(vtxs[j], out), i);
                if j < k - 1 {
                    assert(prev.contains(i));
                }
            }
            assert forall|i: int| (prev + rs).contains(i) implies s.contains(i) by {
                if rs.contains(i) {
                    assert(in_range(chosen_range(vtxs[k - 1], out), i));
                } else {
                    let j = choose|j: int| 0 <= j < k - 1 && #[trigger] in_range(chosen_range(vtxs[j], out), i);
                    assert(in_range(chosen_range(vtxs[j], out), i));
                }
            }
        }
        assert(prev.disjoint(rs)) by {
            assert forall|i: int| prev.contains(i) implies !rs.contains(i) by {
                let j = choose|j: int| 0 <= j < k - 1 && #[trigger] in_range(chosen_range(vtxs[j], out), i);
                assert(!vtxs[j].spec.conflicts(vtxs[k - 1].spec));
                if rs.contains(i) {
                    if out {
                        assert(in_range(vtxs[j].spec.output_range, i) && in_range(vtxs[k - 1].spec.output_range, i));
                    } else {
                        assert(in_range(vtxs[j].spec.input_range, i) && in_range(vtxs[k - 1].spec.input_range, i));
                    }
                }
            }
        }
        lemma_set_disjoint_lens(prev, rs);
        assert forall|i: int| s.contains(i) implies set_int_range(0, usize::MAX as int).contains(i) by {
            let j = choose|j: int| 0 <= j < k && #[trigger] in_range(chosen_range(vtxs[j], out), i);
        }
    }
}

/// Disjoint specs name at most `usize::MAX` inputs and at most
/// `usize::MAX` outputs in all, so their totals fit in a `usize`.
proof fn lemma_disjoint_totals_fit(vtxs: Seq<VirtualTx>)
    requires
        specs_disjoint(vtxs),
    ensures
        inputs_total(vtxs, vtxs.len() as int) <= usize::MAX,
        outputs_total(vtxs, vtxs.len() as int) <= usize::MAX,
{
    let n = vtxs.len() as int;
    lemma_int_range(0, usize::MAX as int);
    lemma_indices_upto(vtxs, n, false);
    lemma_len_subset(indices_upto(vtxs, n, false), set_int_range(0, usize::MAX as int));
    lemma_indices_upto(vtxs, n, true);
    lemma_len_subset(indices_upto(vtxs, n, true), set_int_range(0, usize::MAX as int));
}

/// The sum of the input range lengths of all VTxs.
fn sum_input_ranges(vtxs: &[VirtualTx]) -> (r: usize)
    requires
        inputs_total(vtxs@, vtxs@.len() as int) <= usize::MAX,
    ensures
        r == inputs_total(vtxs@, vtxs@.len() as int),
{
    let mut total: usize = 0;
    let mut k: usize = 0;
    while k < vtxs.len()
        invariant
            k <= vtxs@.len(),
            inputs_total(vtxs@, vtxs@.len() as int) <= usize::MAX,
            total == inputs_total(vtxs@, k as int),
        decreases vtxs@.len() - k,
    {
        proof {
            lemma_inputs_total_monotone(vtxs@, k + 1, vtxs@.len() as int);
        }
        let r = &vtxs[k].spec.input_range;
        if r.start < r.end {
            total = total + (r.end - r.start);
        }
        k = k + 1;
    }
    total
}

/// The sum of the output range lengths of all VTxs.
fn sum_output_ranges(vtxs: &[VirtualTx]) -> (r: usize)
    requires
        outputs_total(vtxs@, vtxs@.len() as int) <= usize::MAX,
    ensures
        r == outputs_total(vtxs@, vtxs@.len() as int),
{
    let mut total: usize = 0;
    let mut k: usize = 0;
    while k < vtxs.len()
        invariant
            k <= vtxs@.len(),
            outputs_total(vtxs@, vtxs@.len() as int) <= usize::MAX,
            total == outputs_total(vtxs@, k as int),
        decreases vtxs@.len() - k,
    {
        proof {
            lemma_outputs_total_monotone(vtxs@, k + 1, vtxs@.len() as int);
        }
        let r = &vtxs[k].spec.output_range;
        if r.start < r.end {
            total = total + (r.end - r.start);
        }
        k = k + 1;
    }
    total
}

/// The totals never shrink as more VTxs are counted.
proof fn lemma_inputs_total_monotone(vtxs: Seq<VirtualTx>, a: int, b: int)
    requires
        a <= b,
    ensures
        inputs_total(vtxs, a) <= inputs_total(vtxs, b),
    decreases b - a,
{
    if a < b {
        lemma_inputs_total_monotone(vtxs, a, b - 1);
    }
}

/// The totals never shrink as more VTxs are counted.
proof fn lemma_outputs_total_monotone(vtxs: Seq<VirtualTx>, a: int, b: int)
    requires
        a <= b,
    ensures
        outputs_total(vtxs, a) <= outputs_total(vtxs, b),
    decreases b - a,
{
    if a < b {
        lemma_outputs_total_monotone(vtxs, a, b - 1);
    }
}

/// `n` empty slots.
fn empty_slots<T>(n: usize) -> (r: Vec<Option<T>>)
    ensures
        r@.len() == n,
        forall|g: int| 0 <= g < n ==> r@[g] is None,
{
    let mut r: Vec<Option<T>> = Vec::new();
    let mut g: usize = 0;
    while g < n
        invariant
            g <= n,
            r@.len() == g,
            forall|j: int| 0 <= j < g ==> r@[j] is None,
        decreases n - g,
    {
        r.push(None);
        g = g + 1;
    }
    r
}

/// "`kind` index `index` exceeds total `total`".
fn index_exceeds(kind: &str, index: usize, total: usize) -> (r: String)
    ensures
        r@ == exceeds_message(kind@, index as nat, total as nat),
{
    let text = append_text(kind.to_string(), " index ");
    let text = append_number(text, index as u64);
    let text = append_text(text, " exceeds total ");
    append_number(text, total as u64)
}

/// Place the inputs of VTx `k` at their global positions, checking that the
/// positions lie below `total`.
fn place_inputs(vtxs: &[VirtualTx], k: usize, slots: &mut Vec<Option<CellInput>>, total: usize) -> (r: VtxResult<()>)
    requires
        k < vtxs@.len(),
        old(slots)@.len() == total,
        forall|g: int| 0 <= g < total ==> old(slots)@[g] == input_slot(vtxs@, k as int, g),
    ensures
        r is Ok <==> (range_len(vtxs@[k as int].spec.input_range) > 0 ==> vtxs@[k as int].spec.input_range.end <= total),
        r matches Err(e) ==> e is InvalidSpec,
        r matches Err(VtxError::InvalidSpec(m)) ==> m@ == exceeds_message(
            "input"@,
            first_past(vtxs@[k as int].spec.input_range, total as nat),
            total as nat,
        ),
        r is Ok ==> final(slots)@.len() == total,
        r is Ok ==> forall|g: int| 0 <= g < total ==> final(slots)@[g] == input_slot(vtxs@, k + 1, g),
{
    let vtx = &vtxs[k];
    let start = vtx.spec.input_range.start;
    let end = vtx.spec.input_range.end;
    let mut global: usize = start;
    while global < end
        invariant
            k < vtxs@.len(),
            vtx == &vtxs@[k as int],
            start == vtx.spec.input_range.start,
            end == vtx.spec.input_range.end,
            start <= global,
            start < end ==> global <= end,
            start >= end ==> global == start,
            global > start ==> global <= total,
            slots@.len() == total,
            forall|g: int|
                0 <= g < total ==> slots@[g] == (if start <= g < global && g - start < vtx.inputs@.len() {
                    Some(vtx.inputs@[g - start])
                } else {
                    input_slot(vtxs@, k as int, g)
                }),
        decreases end - global,
    {
        if global >= total {
            return Err(VtxError::InvalidSpec(index_exceeds("input", global, total)));
        }
        let local = global - start;
        if local < vtx.inputs.len() {
            slots.set(global, Some(vtx.inputs[local]));
        }
        global = global + 1;
    }
    proof {
        assert forall|g: int| 0 <= g < total implies slots@[g] == input_slot(vtxs@, k + 1, g) by {
            assert(start < end ==> global == end);
            assert(vtxs@[(k + 1) - 1] == *vtx);
            assert(input_slot(vtxs@, k + 1, g) == (if in_range(vtx.spec.input_range, g) && g - start < vtx.inputs@.len() {
                Some(vtx.inputs@[g - start])
            } else {
                input_slot(vtxs@, k as int, g)
            }));
        }
    }
    Ok(())
}

/// Place the outputs and output data of VTx `k` at their global positions,
/// checking that the positions lie below `total`.
fn place_outputs(
    vtxs: &[VirtualTx],
    k: usize,
    slots: &mut Vec<Option<CellOutput>>,
    data_slots: &mut Vec<Option<Vec<u8>>>,
    total: usize,
) -> (r: VtxResult<()>)
    requires
        k < vtxs@.len(),
        old(slots)@.len() == total,
        old(data_slots)@.len() == total,
        forall|g: int| 0 <= g < total ==> output_opt_view(old(slots)@[g]) == output_slot(vtxs@, k as int, g),
        forall|g: int| 0 <= g < total ==> bytes_opt_view(old(data_slots)@[g]) == output_data_slot(vtxs@, k as int, g),
    ensures
        r is Ok <==> (range_len(vtxs@[k as int].spec.output_range) > 0 ==> vtxs@[k as int].spec.output_range.end <= total),
        r matches Err(e) ==> e is InvalidSpec,
        r matches Err(VtxError::InvalidSpec(m)) ==> m@ == exceeds_message(
            "output"@,
            first_past(vtxs@[k as int].spec.output_range, total as nat),
            total as nat,
        ),
        r is Ok ==> final(slots)@.len() == total && final(data_slots)@.len() == total,
        r is Ok ==> forall|g: int| 0 <= g < total ==> output_opt_view(final(slots)@[g]) == output_slot(vtxs@, k + 1, g),
        r is Ok ==> forall|g: int| 0 <= g < total ==> bytes_opt_view(final(data_slots)@[g]) == output_data_slot(vtxs@, k + 1, g),
{
    let vtx = &vtxs[k];
    let start = vtx.spec.output_range.start;
    let end = vtx.spec.output_range.end;
    let mut global: usize = start;
    while global < end
        invariant
            k < vtxs@.len(),
            vtx == &vtxs@[k as int],
            start == vtx.spec.output_range.start,
            end == vtx.spec.output_range.end,
            start <= global,
            start < end ==> global <= end,
            start >= end ==> global == start,
            global > start ==> global <= total,
            slots@.len() == total,
            data_slots@.len() == total,
            forall|g: int|
                0 <= g < total ==> output_opt_view(slots@[g]) == (if start <= g < global && g - start < vtx.outputs@.len() {
                    Some(vtx.outputs@[g - start]@)
                } else {
                    output_slot(vtxs@, k as int, g)
                }),
            forall|g: int|
                0 <= g < total ==> bytes_opt_view(data_slots@[g]) == (if start <= g < global && g - start < vtx.outputs_data@.len() {
                    Some(vtx.outputs_data@[g - start]@)
                } else {
                    output_data_slot(vtxs@, k as int, g)
                }),
        decreases end - global,
    {
        if global >= total {
            return Err(VtxError::InvalidSpec(index_exceeds("output", global, total)));
        }
        let local = global - start;
        if local < vtx.outputs.len() {
            slots.set(global, Some(vtx.outputs[local].copy()));
        }
        if local < vtx.outputs_data.len() {
            data_slots.set(global, Some(copy_bytes(&vtx.outputs_data[local])));
        }
        global = global + 1;
    }
    proof {
        assert forall|g: int| 0 <= g < total implies output_opt_view(slots@[g]) == output_slot(vtxs@, k + 1, g) by {
            assert(start < end ==> global == end);
            assert(vtxs@[(k + 1) - 1] == *vtx);
            assert(output_slot(vtxs@, k + 1, g) == (if in_range(vtx.spec.output_range, g) && g - start < vtx.outputs@.len() {
                Some(vtx.outputs@[g - start]@)
            } else {
                output_slot(vtxs@, k as int, g)
            }));
        }
        assert forall|g: int| 0 <= g < total implies bytes_opt_view(data_slots@[g]) == output_data_slot(vtxs@, k + 1, g) by {
            assert(start < end ==> global == end);
            assert(vtxs@[(k + 1) - 1] == *vtx);
            assert(output_data_slot(vtxs@, k + 1, g) == (if in_range(vtx.spec.output_range, g) && g - start < vtx.outputs_data@.len() {
                Some(vtx.outputs_data@[g - start]@)
            } else {
                output_data_slot(vtxs@, k as int, g)
            }));
        }
    }
    Ok(())
}

/// Place the witnesses of VTx `k` at the global positions of its inputs.
fn place_witnesses(vtxs: &[VirtualTx], k: usize, slots: &mut Vec<Option<Vec<u8>>>, total: usize)
    requires
        k < vtxs@.len(),
        range_len(vtxs@[k as int].spec.input_range) > 0 ==> vtxs@[k as int].spec.input_range.end <= total,
        old(slots)@.len() == total,
        forall|g: int| 0 <= g < total ==> bytes_opt_view(old(slots)@[g]) == witness_slot(vtxs@, k as int, g),
    ensures
        final(slots)@.len() == total,
        forall|g: int| 0 <= g < total ==> bytes_opt_view(final(slots)@[g]) == witness_slot(vtxs@, k + 1, g),
{
    let vtx = &vtxs[k];
    let start = vtx.spec.input_range.start;
    let end = vtx.spec.input_range.end;
    let mut global: usize = start;
    while global < end
        invariant
            k < vtxs@.len(),
            vtx == &vtxs@[k as int],
            start == vtx.spec.input_range.start,
            end == vtx.spec.input_range.end,
            start < end ==> end <= total,
            start <= global,
            start < end ==> global <= end,
            start >= end ==> global == start,
            slots@.len() == total,
            forall|g: int|
                0 <= g < total ==> bytes_opt_view(slots@[g]) == (if start <= g < global && g - start < vtx.witnesses@.len() {
                    Some(vtx.witnesses@[g - start]@)
                } else {
                    witness_slot(vtxs@, k as int, g)
                }),
        decreases end - global,
    {
        let local = global - start;
        if local < vtx.witnesses.len() {
            slots.set(global, Some(copy_bytes(&vtx.witnesses[local])));
        }
        global = global + 1;
    }
    proof {
        assert forall|g: int| 0 <= g < total implies bytes_opt_view(slots@[g]) == witness_slot(vtxs@, k + 1, g) by {
            assert(start < end ==> global == end);
            assert(vtxs@[(k + 1) - 1] == *vtx);
            assert(witness_slot(vtxs@, k + 1, g) == (if in_range(vtx.spec.input_range, g) && g - start < vtx.witnesses@.len() {
                Some(vtx.witnesses@[g - start]@)
            } else {
                witness_slot(vtxs@, k as int, g)
            }));
        }
    }
}


/// Append the cell deps of VTx `k` to `merged`, skipping those whose out
/// point is already there.
fn merge_cell_deps(vtxs: &[VirtualTx], k: usize, merged: &mut Vec<CellDep>)
    requires
        k < vtxs@.len(),
        old(merged)@ == dedup_cell_deps(cell_deps_upto(vtxs@, k as int)),
    ensures
        final(merged)@ == dedup_cell_deps(cell_deps_upto(vtxs@, k + 1)),
{
    let deps = &vtxs[k].cell_deps;
    let ghost prefix = cell_deps_upto(vtxs@, k as int);
    let mut j: usize = 0;
    while j < deps.len()
        invariant
            k < vtxs@.len(),
            deps == &vtxs@[k as int].cell_deps,
            prefix == cell_deps_upto(vtxs@, k as int),
            j <= deps@.len(),
            merged@ == dedup_cell_deps(prefix + deps@.take(j as int)),
        decreases deps@.len() - j,
    {
        let dep = deps[j];
        let mut found = false;
        let mut m: usize = 0;
        while m < merged.len()
            invariant
                m <= merged@.len(),
                found <==> exists|x: int| 0 <= x < m && merged@[x].out_point == dep.out_point,
            decreases merged@.len() - m,
        {
            if out_point_eq(&merged[m].out_point, &dep.out_point) {
                found = true;
            }
            m = m + 1;
        }
        proof {
            let s = prefix + deps@.take(j + 1);
            assert(s.drop_last() =~= prefix + deps@.take(j as int));
            assert(s.last() == dep);
        }
        if !found {
            merged.push(dep);
        }
        j = j + 1;
    }
    proof {
        assert(prefix + deps@.take(deps@.len() as int) =~= cell_deps_upto(vtxs@, k + 1));
    }
}

/// Append the header deps of VTx `k` to `merged`, skipping those already
/// there.
fn merge_header_deps(vtxs: &[VirtualTx], k: usize, merged: &mut Vec<[u8; 32]>)
    requires
        k < vtxs@.len(),
        old(merged)@ == dedup_hashes(header_deps_upto(vtxs@, k as int)),
    ensures
        final(merged)@ == dedup_hashes(header_deps_upto(vtxs@, k + 1)),
{
    let deps = &vtxs[k].header_deps;
    let ghost prefix = header_deps_upto(vtxs@, k as int);
    let mut j: usize = 0;
    while j < deps.len()
        invariant
            k < vtxs@.len(),
            deps == &vtxs@[k as int].header_deps,
            prefix == header_deps_upto(vtxs@, k as int),
            j <= deps@.len(),
            merged@ == dedup_hashes(prefix + deps@.take(j as int)),
        decreases deps@.len() - j,
    {
        let hd = deps[j];
        let mut found = false;
        let mut m: usize = 0;
        while m < merged.len()
            invariant
                m <= merged@.len(),
                found <==> exists|x: int| 0 <= x < m && merged@[x] == hd,
            decreases merged@.len() - m,
        {
            if bytes32_eq(&merged[m], &hd) {
                proof {
                    assert(merged@[m as int] == hd) by {
                        assert(merged@[m as int]@ =~= hd@);
                    }
                }
                found = true;
            }
            m = m + 1;
        }
        proof {
            let s = prefix + deps@.take(j + 1);
            assert(s.drop_last() =~= prefix + deps@.take(j as int));
            assert(s.last() == hd);
            let d = dedup_hashes(s.drop_last());
            if found {
                let x = choose|x: int| 0 <= x < merged@.len() && merged@[x] == hd;
                assert(d.contains(hd));
            } else {
                assert(!d.contains(hd));
            }
        }
        if !found {
            merged.push(hd);
        }
        j = j + 1;
    }
    proof {
        assert(prefix + deps@.take(deps@.len() as int) =~= header_deps_upto(vtxs@, k + 1));
    }
}

/// The inputs in the filled slots, in order.
fn collect_inputs(slots: &Vec<Option<CellInput>>) -> (r: Vec<CellInput>)
    ensures
        r@ == somes(slots@),
{
    let mut r: Vec<CellInput> = Vec::new();
    let mut g: usize = 0;
    while g < slots.len()
        invariant
            g <= slots@.len(),
            r@ == somes(slots@.take(g as int)),
        decreases slots@.len() - g,
    {
        proof {
            assert(slots@.take(g + 1).drop_last() =~= slots@.take(g as int));
        }
        match &slots[g] {
            Some(x) => r.push(*x),
            None => {},
        }
        g = g + 1;
    }
    proof {
        assert(slots@.take(slots@.len() as int) =~= slots@);
    }
    r
}

/// The outputs in the filled slots, in order.
fn collect_outputs(slots: &Vec<Option<CellOutput>>) -> (r: Vec<CellOutput>)
    ensures
        r@.map_values(|o: CellOutput| o@) == somes(slots@.map_values(|o: Option<CellOutput>| output_opt_view(o))),
{
    let ghost views = slots@.map_values(|o: Option<CellOutput>| output_opt_view(o));
    let mut r: Vec<CellOutput> = Vec::new();
    let mut g: usize = 0;
    while g < slots.len()
        invariant
            g <= slots@.len(),
            views == slots@.map_values(|o: Option<CellOutput>| output_opt_view(o)),
            r@.map_values(|o: CellOutput| o@) == somes(views.take(g as int)),
        decreases slots@.len() - g,
    {
        proof {
            assert(views.take(g + 1).drop_last() =~= views.take(g as int));
            assert(views.take(g + 1).last() == output_opt_view(slots@[g as int]));
        }
        let ghost before = r@;
        match &slots[g] {
            Some(x) => {
                r.push(x.copy());
                proof {
                    assert(r@.map_values(|o: CellOutput| o@) =~= before.map_values(|o: CellOutput| o@).push(x@));
                }
            },
            None => {},
        }
        g = g + 1;
    }
    proof {
        assert(views.take(slots@.len() as int) =~= views);
    }
    r
}

/// The bytes of every slot, empty for the empty ones.
fn collect_bytes(slots: &Vec<Option<Vec<u8>>>) -> (r: Vec<Vec<u8>>)
    ensures
        r@.map_values(|b: Vec<u8>| b@) == slots@.map_values(|b: Option<Vec<u8>>| or_empty(bytes_opt_view(b))),
{
    let mut r: Vec<Vec<u8>> = Vec::new();
    let mut g: usize = 0;
    while g < slots.len()
        invariant
            g <= slots@.len(),
            r@.len() == g,
            forall|j: int| 0 <= j < g ==> r@[j]@ == or_empty(bytes_opt_view(slots@[j])),
        decreases slots@.len() - g,
    {
        match &slots[g] {
            Some(x) => r.push(copy_bytes(x)),
            None => r.push(Vec::new()),
        }
        g = g + 1;
    }
    proof {
        assert(r@.map_values(|b: Vec<u8>| b@) =~= slots@.map_values(|b: Option<Vec<u8>>| or_empty(bytes_opt_view(b))));
    }
    r
}



impl VirtualTx {
    /// Compose multiple VTxs into the components of a complete transaction.
    ///
    /// The VTxs must have non-overlapping specs, and every position their
    /// ranges name must lie below the total number of inputs (outputs),
    /// which is the sum of the lengths of the input (output) ranges.
    pub fn compose_parts(vtxs: &[VirtualTx]) -> (r: VtxResult<ComposedTx>)
        ensures
            r is Ok <==> specs_disjoint(vtxs@) && ranges_within_totals(vtxs@),
            r matches Err(e) ==> (e is OverlappingRanges <==> !specs_disjoint(vtxs@)),
            r matches Err(e) ==> (e is InvalidSpec <==> specs_disjoint(vtxs@) && !ranges_within_totals(vtxs@)),
            r matches Err(VtxError::OverlappingRanges(m)) ==> m@ == conflict_message(vtxs@, 0),
            r matches Err(VtxError::InvalidSpec(m)) ==> m@ == misfit_message(vtxs@, 0),
            r matches Ok(tx) ==> composed_from(vtxs@, tx),
    {
        match check_disjoint(vtxs) {
            Ok(()) => {},
            Err(e) => {
                return Err(e);
            },
        }
        proof {
            lemma_disjoint_totals_fit(vtxs@);
        }
        let total_inputs = sum_input_ranges(vtxs);
        let total_outputs = sum_output_ranges(vtxs);
        let ghost n = vtxs@.len() as int;

        let mut all_inputs: Vec<Option<CellInput>> = empty_slots(total_inputs);
        let mut all_outputs: Vec<Option<CellOutput>> = empty_slots(total_outputs);
        let mut all_outputs_data: Vec<Option<Vec<u8>>> = empty_slots(total_outputs);
        let mut all_witnesses: Vec<Option<Vec<u8>>> = empty_slots(total_inputs);
        let mut all_cell_deps: Vec<CellDep> = Vec::new();
        let mut all_header_deps: Vec<[u8; 32]> = Vec::new();
        proof {
            assert(all_cell_deps@ =~= dedup_cell_deps(cell_deps_upto(vtxs@, 0)));
            assert(all_header_deps@ =~= dedup_hashes(header_deps_upto(vtxs@, 0)));
        }

        let mut k: usize = 0;
        while k < vtxs.len()
            invariant
                n == vtxs@.len(),
                k <= n,
                specs_disjoint(vtxs@),
                total_inputs == inputs_total(vtxs@, n),
                total_outputs == outputs_total(vtxs@, n),
                forall|j: int| 0 <= j < k ==> #[trigger] ranges_fit(vtxs@, j),
                all_inputs@.len() == total_inputs,
                all_outputs@.len() == total_outputs,
                all_outputs_data@.len() == total_outputs,
                all_witnesses@.len() == total_inputs,
                forall|g: int| 0 <= g < total_inputs ==> all_inputs@[g] == input_slot(vtxs@, k as int, g),
                forall|g: int| 0 <= g < total_outputs ==> output_opt_view(all_outputs@[g]) == output_slot(vtxs@, k as int, g),
                forall|g: int| 0 <= g < total_outputs ==> bytes_opt_view(all_outputs_data@[g]) == output_data_slot(vtxs@, k as int, g),
                forall|g: int| 0 <= g < total_inputs ==> bytes_opt_view(all_witnesses@[g]) == witness_slot(vtxs@, k as int, g),
                all_cell_deps@ == dedup_cell_deps(cell_deps_upto(vtxs@, k as int)),
                all_header_deps@ == dedup_hashes(header_deps_upto(vtxs@, k as int)),
            decreases n - k,
        {
            match place_inputs(vtxs, k, &mut all_inputs, total_inputs) {
                Ok(()) => {},
                Err(e) => {
                    proof {
                        assert(!ranges_fit(vtxs@, k as int));
                        lemma_misfit_skip(vtxs@, 0, k as int);
                    }
                    return Err(e);
                },
            }
            match place_outputs(vtxs, k, &mut all_outputs, &mut all_outputs_data, total_outputs) {
                Ok(()) => {},
                Err(e) => {
                    proof {
                        assert(!ranges_fit(vtxs@, k as int));
                        lemma_misfit_skip(vtxs@, 0, k as int);
                    }
                    return Err(e);
                },
            }
            place_witnesses(vtxs, k, &mut all_witnesses, total_inputs);
            merge_cell_deps(vtxs, k, &mut all_cell_deps);
            merge_header_deps(vtxs, k, &mut all_header_deps);
            proof {
                assert(ranges_fit(vtxs@, k as int));
            }
            k = k + 1;
        }

        let inputs = collect_inputs(&all_inputs);
        let outputs = collect_outputs(&all_outputs);
        let outputs_data = collect_bytes(&all_outputs_data);
        let witnesses = collect_bytes(&all_witnesses);
        proof {
            assert(all_inputs@ =~= Seq::new(total_inputs as nat, |g: int| input_slot(vtxs@, n, g)));
            assert(all_outputs@.map_values(|o: Option<CellOutput>| output_opt_view(o)) =~= Seq::new(
                total_outputs as nat,
                |g: int| output_slot(vtxs@, n, g),
            ));
            assert(all_outputs_data@.map_values(|b: Option<Vec<u8>>| or_empty(bytes_opt_view(b))) =~= Seq::new(
                total_outputs as nat,
                |g: int| or_empty(output_data_slot(vtxs@, n, g)),
            ));
            assert(all_witnesses@.map_values(|b: Option<Vec<u8>>| or_empty(bytes_opt_view(b))) =~= Seq::new(
                total_inputs as nat,
                |g: int| or_empty(witness_slot(vtxs@, n, g)),
            ));
        }
        Ok(ComposedTx {
            inputs,
            outputs,
            outputs_data,
            witnesses,
            cell_deps: all_cell_deps,
            header_deps: all_header_deps,
        })
    }

    /// Compose multiple VTxs into a complete transaction.
    ///
    /// The VTxs must have non-overlapping specs. Components are placed in the
    /// complete transaction according to each VTx's spec ranges, and the
    /// transaction is built from the components that
    /// [`VirtualTx::compose_parts`] gives.
    pub fn compose(vtxs: &[VirtualTx]) -> (r: VtxResult<ckb_types::core::TransactionView>)
        ensures
            r is Ok <==> specs_disjoint(vtxs@) && ranges_within_totals(vtxs@),
            r matches Err(e) ==> (e is OverlappingRanges <==> !specs_disjoint(vtxs@)),
            r matches Err(e) ==> (e is InvalidSpec <==> specs_disjoint(vtxs@) && !ranges_within_totals(vtxs@)),
            r matches Err(VtxError::OverlappingRanges(m)) ==> m@ == conflict_message(vtxs@, 0),
            r matches Err(VtxError::InvalidSpec(m)) ==> m@ == misfit_message(vtxs@, 0),
            r matches Ok(tx) ==> spec_transaction_parts(tx) == composed_tx_parts(vtxs@),
    {
        let parts = match Self::compose_parts(vtxs) {
            Ok(parts) => parts,
            Err(e) => {
                return Err(e);
            },
        };
        let cell_deps = encode_cell_deps(&parts.cell_deps);
        let inputs = encode_inputs(&parts.inputs);
        let outputs = encode_outputs(&parts.outputs);
        proof {
            assert(parts.outputs@.map_values(|o: CellOutput| o@).map_values(|o: CellOutputView| cell_output_bytes(o))
                =~= parts.outputs@.map_values(|o: CellOutput| cell_output_bytes(o@)));
            lemma_nested_bytes_deep_view(parts.outputs_data);
            lemma_nested_bytes_deep_view(parts.witnesses);
            lemma_hashes_deep_view(parts.header_deps);
            lemma_nested_bytes_deep_view(cell_deps);
            lemma_nested_bytes_deep_view(inputs);
            assert(cell_deps.deep_view().len() == cell_deps@.len());
            assert(parts.cell_deps@.map_values(|d: CellDep| cell_dep_layout(d)).len() == parts.cell_deps@.len());
            assert(inputs.deep_view().len() == inputs@.len());
            assert(parts.inputs@.map_values(|i: CellInput| cell_input_layout(i)).len() == parts.inputs@.len());
            assert forall|i: int| 0 <= i < cell_deps@.len() implies (#[trigger] cell_deps@[i])@.len() == cell_dep_size() by {
                let d = parts.cell_deps@[i];
                assert(cell_deps.deep_view()[i] == cell_deps@[i]@);
                assert(cell_deps@[i]@ == cell_dep_layout(d));
                lemma_le_bytes_len(d.out_point.index as nat, 4);
                assert(d.out_point.tx_hash@.len() == 32);
            }
            assert forall|i: int| 0 <= i < inputs@.len() implies (#[trigger] inputs@[i])@.len() == cell_input_size() by {
                let x = parts.inputs@[i];
                assert(inputs.deep_view()[i] == inputs@[i]@);
                assert(inputs@[i]@ == cell_input_layout(x));
                lemma_le_bytes_len(x.since as nat, 8);
                lemma_le_bytes_len(x.previous_output.index as nat, 4);
                assert(x.previous_output.tx_hash@.len() == 32);
            }
        }
        Ok(build_transaction(
            &cell_deps,
            &parts.header_deps,
            &inputs,
            &outputs,
            &parts.outputs_data,
            &parts.witnesses,
        ))
    }
}


/// Once VTx `k` has placed its components, no later VTx of a disjoint set
/// changes what lies at a position of `k`'s input range.
proof fn lemma_input_owner_stays(vtxs: Seq<VirtualTx>, k: int, m: int, g: int)
    requires
        specs_disjoint(vtxs),
        0 <= k < m <= vtxs.len(),
        in_range(vtxs[k].spec.input_range, g),
    ensures
        input_slot(vtxs, m, g) == input_slot(vtxs, k + 1, g),
        witness_slot(vtxs, m, g) == witness_slot(vtxs, k + 1, g),
    decreases m,
{
    if m > k + 1 {
        lemma_input_owner_stays(vtxs, k, m - 1, g);
        assert(!vtxs[k].spec.conflicts(vtxs[m - 1].spec));
        assert(!in_range(vtxs[m - 1].spec.input_range, g));
    }
}

/// Once VTx `k` has placed its components, no later VTx of a disjoint set
/// changes what lies at a position of `k`'s output range.
proof fn lemma_output_owner_stays(vtxs: Seq<VirtualTx>, k: int, m: int, g: int)
    requires
        specs_disjoint(vtxs),
        0 <= k < m <= vtxs.len(),
        in_range(vtxs[k].spec.output_range, g),
    ensures
        output_slot(vtxs, m, g) == output_slot(vtxs, k + 1, g),
        output_data_slot(vtxs, m, g) == output_data_slot(vtxs, k + 1, g),
    decreases m,
{
    if m > k + 1 {
        lemma_output_owner_stays(vtxs, k, m - 1, g);
        assert(!vtxs[k].spec.conflicts(vtxs[m - 1].spec));
        assert(!in_range(vtxs[m - 1].spec.output_range, g));
    }
}

/// Components are placed according to each VTx's spec ranges: when the
/// specs are disjoint, the composed transaction holds, at global position
/// `start + l` of a VTx's input range, that VTx's input `l` and witness `l`
/// (where it has them), and likewise at position `start + l` of its output
/// range its output `l` and output data `l`.
pub proof fn lemma_compose_places_by_range(vtxs: Seq<VirtualTx>, k: int, l: int)
    requires
        specs_disjoint(vtxs),
        0 <= k < vtxs.len(),
        0 <= l,
    ensures
        ({
            let n = vtxs.len() as int;
            let v = vtxs[k];
            let gi = v.spec.input_range.start + l;
            let go = v.spec.output_range.start + l;
            &&& l < range_len(v.spec.input_range) && l < v.inputs@.len() ==> input_slot(vtxs, n, gi) == Some(v.inputs@[l])
            &&& l < range_len(v.spec.input_range) && l < v.witnesses@.len() ==> witness_slot(vtxs, n, gi) == Some(v.witnesses@[l]@)
            &&& l < range_len(v.spec.output_range) && l < v.outputs@.len() ==> output_slot(vtxs, n, go) == Some(v.outputs@[l]@)
            &&& l < range_len(v.spec.output_range) && l < v.outputs_data@.len() ==> output_data_slot(vtxs, n, go) == Some(v.outputs_data@[l]@)
        }),
{
    let n = vtxs.len() as int;
    let v = vtxs[k];
    let gi = v.spec.input_range.start + l;
    let go = v.spec.output_range.start + l;
    if l < range_len(v.spec.input_range) {
        lemma_input_owner_stays(vtxs, k, n, gi);
    }
    if l < range_len(v.spec.output_range) {
        lemma_output_owner_stays(vtxs, k, n, go);
    }
}

/// A position that no VTx's range holds stays empty.
pub proof fn lemma_compose_unowned_positions_empty(vtxs: Seq<VirtualTx>, g: int)
    ensures
        (forall|k: int| 0 <= k < vtxs.len() ==> !in_range(#[trigger] vtxs[k].spec.input_range, g)) ==> input_slot(
            vtxs,
            vtxs.len() as int,
            g,
        ) is None && witness_slot(vtxs, vtxs.len() as int, g) is None,
        (forall|k: int| 0 <= k < vtxs.len() ==> !in_range(#[trigger] vtxs[k].spec.output_range, g)) ==> output_slot(
            vtxs,
            vtxs.len() as int,
            g,
        ) is None && output_data_slot(vtxs, vtxs.len() as int, g) is None,
{
    lemma_unowned_upto(vtxs, vtxs.len() as int, g);
}

proof fn lemma_unowned_upto(vtxs: Seq<VirtualTx>, m: int, g: int)
    requires
        m <= vtxs.len(),
    ensures
        (forall|k: int| 0 <= k < m ==> !in_range(#[trigger] vtxs[k].spec.input_range, g)) ==> input_slot(vtxs, m, g) is None
            && witness_slot(vtxs, m, g) is None,
        (forall|k: int| 0 <= k < m ==> !in_range(#[trigger] vtxs[k].spec.output_range, g)) ==> output_slot(vtxs, m, g) is None
            && output_data_slot(vtxs, m, g) is None,
    decreases m,
{
    if m > 0 {
        lemma_unowned_upto(vtxs, m - 1, g);
    }
}

/// Every dep's out point occurs once among the merged cell deps.
pub open spec fn out_points_distinct(d: Seq<CellDep>) -> bool {
    forall|a: int, b: int| 0 <= a < b < d.len() ==> (#[trigger] d[a]).out_point != (#[trigger] d[b]).out_point
}

/// Some dep in `d` has out point `o`.
pub open spec fn has_out_point(d: Seq<CellDep>, o: crate::cell::OutPoint) -> bool {
    exists|x: int| 0 <= x < d.len() && (#[trigger] d[x]).out_point == o
}

/// One step of merging: `dedup_cell_deps` of a sequence with one more dep.
proof fn lemma_dedup_cell_deps_step(s: Seq<CellDep>)
    requires
        s.len() > 0,
    ensures
        dedup_cell_deps(s) == (if has_out_point(dedup_cell_deps(s.drop_last()), s.last().out_point) {
            dedup_cell_deps(s.drop_last())
        } else {
            dedup_cell_deps(s.drop_last()).push(s.last())
        }),
{
}

/// Cell deps are merged with deduplication: no two merged deps share an out
/// point, every dep of the input has its out point among the merged ones,
/// and every merged dep is one of the input's.
pub proof fn lemma_dedup_cell_deps(s: Seq<CellDep>)
    ensures
        out_points_distinct(dedup_cell_deps(s)),
        forall|j: int| 0 <= j < s.len() ==> has_out_point(dedup_cell_deps(s), (#[trigger] s[j]).out_point),
        forall|x: int| 0 <= x < dedup_cell_deps(s).len() ==> s.contains(#[trigger] dedup_cell_deps(s)[x]),
    decreases s.len(),
{
    if s.len() > 0 {
        let p = s.drop_last();
        let last = s.last();
        lemma_dedup_cell_deps(p);
        lemma_dedup_cell_deps_step(s);
        let d = dedup_cell_deps(p);
        let ds = dedup_cell_deps(s);
        if has_out_point(d, last.out_point) {
            assert(ds == d);
        } else {
            assert(ds == d.push(last));
            assert forall|a: int, b: int| 0 <= a < b < ds.len() implies (#[trigger] ds[a]).out_point != (#[trigger] ds[b]).out_point by {
                if b == d.len() {
                    assert(ds[a] == d[a]);
                    if d[a].out_point == last.out_point {
                        assert(has_out_point(d, last.out_point));
                    }
                } else {
                    assert(ds[a] == d[a] && ds[b] == d[b]);
                }
            }
        }
        assert forall|j: int| 0 <= j < s.len() implies has_out_point(ds, (#[trigger] s[j]).out_point) by {
            if j < p.len() {
                assert(p[j] == s[j]);
                assert(has_out_point(d, p[j].out_point));
                let x = choose|x: int| 0 <= x < d.len() && (#[trigger] d[x]).out_point == p[j].out_point;
                assert(ds[x] == d[x]);
            } else if has_out_point(d, last.out_point) {
            } else {
                assert(ds[d.len() as int] == last);
            }
        }
        assert forall|x: int| 0 <= x < ds.len() implies s.contains(#[trigger] ds[x]) by {
            if x < d.len() {
                assert(ds[x] == d[x]);
                assert(p.contains(d[x]));
                let y = choose|y: int| 0 <= y < p.len() && p[y] == d[x];
                assert(s[y] == d[x]);
            } else {
                assert(s[s.len() - 1] == ds[x]);
            }
        }
    }
}

/// Header deps are merged with deduplication: no hash occurs twice, and the
/// merged hashes are exactly those of the input.
pub proof fn lemma_dedup_hashes(s: Seq<[u8; 32]>)
    ensures
        dedup_hashes(s).no_duplicates(),
        forall|h: [u8; 32]| #[trigger] dedup_hashes(s).contains(h) <==> s.contains(h),
    decreases s.len(),
{
    if s.len() > 0 {
        let p = s.drop_last();
        let last = s.last();
        lemma_dedup_hashes(p);
        let d = dedup_hashes(p);
        let ds = dedup_hashes(s);
        assert(ds == if d.contains(last) { d } else { d.push(last) });
        if !d.contains(last) {
            assert forall|a: int, b: int| 0 <= a < ds.len() && 0 <= b < ds.len() && a != b implies ds[a] != ds[b] by {
                if a == d.len() {
                    assert(ds[b] == d[b]);
                } else if b == d.len() {
                    assert(ds[a] == d[a]);
                } else {
                    assert(ds[a] == d[a] && ds[b] == d[b]);
                }
            }
        }
        assert forall|h: [u8; 32]| #[trigger] ds.contains(h) <==> s.contains(h) by {
            if s.contains(h) {
                let j = choose|j: int| 0 <= j < s.len() && s[j] == h;
                if j < p.len() {
                    assert(p[j] == h);
                    assert(p.contains(h));
                    assert(d.contains(h));
                    let x = choose|x: int| 0 <= x < d.len() && d[x] == h;
                    assert(ds[x] == h);
                } else if !d.contains(h) {
                    assert(ds[d.len() as int] == h);
                }
            }
            if ds.contains(h) {
                let x = choose|x: int| 0 <= x < ds.len() && ds[x] == h;
                if x < d.len() {
                    assert(ds[x] == d[x]);
                    assert(d.contains(h));
                    assert(p.contains(h));
                    let y = choose|y: int| 0 <= y < p.len() && p[y] == h;
                    assert(s[y] == h);
                } else {
                    assert(s[s.len() - 1] == h);
                }
            }
        }
    }
}

/// When every slot holds a value, taking the present values keeps them all,
/// in place.
pub proof fn lemma_somes_all_present<T>(s: Seq<Option<T>>)
    requires
        forall|g: int| 0 <= g < s.len() ==> (#[trigger] s[g]) is Some,
    ensures
        somes(s).len() == s.len(),
        forall|g: int| 0 <= g < s.len() ==> Some(#[trigger] somes(s)[g]) == s[g],
    decreases s.len(),
{
    if s.len() > 0 {
        let p = s.drop_last();
        assert forall|g: int| 0 <= g < p.len() implies (#[trigger] p[g]) is Some by {
            assert(p[g] == s[g]);
        }
        lemma_somes_all_present(p);
        assert forall|g: int| 0 <= g < s.len() implies Some(#[trigger] somes(s)[g]) == s[g] by {
            if g < p.len() {
                assert(somes(s)[g] == somes(p)[g]);
                assert(p[g] == s[g]);
            } else {
                assert(s[g] == s.last());
            }
        }
    }
}

/// Some VTx's input range holds global position `g` and that VTx has an
/// input at the matching local position.
pub open spec fn input_filled(vtxs: Seq<VirtualTx>, g: int) -> bool {
    exists|j: int|
        0 <= j < vtxs.len() && #[trigger] in_range(vtxs[j].spec.input_range, g) && g - vtxs[j].spec.input_range.start
            < vtxs[j].inputs@.len()
}

/// When every global input position below the total is filled by some VTx,
/// the composed transaction has exactly that many inputs, and its input at
/// global position `start + l` of VTx `k`'s input range is that VTx's input
/// `l`.
pub proof fn lemma_compose_input_at_global(vtxs: Seq<VirtualTx>, tx: ComposedTx, k: int, l: int)
    requires
        specs_disjoint(vtxs),
        ranges_within_totals(vtxs),
        composed_from(vtxs, tx),
        forall|g: int| 0 <= g < inputs_total(vtxs, vtxs.len() as int) ==> #[trigger] input_filled(vtxs, g),
        0 <= k < vtxs.len(),
        0 <= l < range_len(vtxs[k].spec.input_range),
    ensures
        tx.inputs@.len() == inputs_total(vtxs, vtxs.len() as int),
        tx.inputs@[vtxs[k].spec.input_range.start + l] == vtxs[k].inputs@[l],
{
    let n = vtxs.len() as int;
    let total = inputs_total(vtxs, n);
    let slots = Seq::new(total, |g: int| input_slot(vtxs, n, g));
    assert forall|g: int| 0 <= g < slots.len() implies (#[trigger] slots[g]) is Some by {
        assert(input_filled(vtxs, g));
        let j = choose|j: int|
            0 <= j < vtxs.len() && #[trigger] in_range(vtxs[j].spec.input_range, g) && g - vtxs[j].spec.input_range.start
                < vtxs[j].inputs@.len();
        lemma_compose_places_by_range(vtxs, j, g - vtxs[j].spec.input_range.start);
    }
    lemma_somes_all_present(slots);
    assert(ranges_fit(vtxs, k));
    let g = vtxs[k].spec.input_range.start + l;
    assert(input_filled(vtxs, g));
    let j = choose|j: int|
        0 <= j < vtxs.len() && #[trigger] in_range(vtxs[j].spec.input_range, g) && g - vtxs[j].spec.input_range.start
            < vtxs[j].inputs@.len();
    if j != k {
        if j < k {
            assert(!vtxs[j].spec.conflicts(vtxs[k].spec));
        } else {
            assert(!vtxs[k].spec.conflicts(vtxs[j].spec));
        }
        assert(in_range(vtxs[k].spec.input_range, g));
    }
    lemma_compose_places_by_range(vtxs, j, g - vtxs[j].spec.input_range.start);
    assert(Some(somes(slots)[g]) == slots[g]);
}

/// Some VTx's output range holds global position `g` and that VTx has an
/// output at the matching local position.
pub open spec fn output_filled(vtxs: Seq<VirtualTx>, g: int) -> bool {
    exists|j: int|
        0 <= j < vtxs.len() && #[trigger] in_range(vtxs[j].spec.output_range, g) && g - vtxs[j].spec.output_range.start
            < vtxs[j].outputs@.len()
}

/// When every global output position below the total is filled by some VTx,
/// the composed transaction has exactly that many outputs, and its output
/// at global position `start + l` of VTx `k`'s output range is that VTx's
/// output `l`.
pub proof fn lemma_compose_output_at_global(vtxs: Seq<VirtualTx>, tx: ComposedTx, k: int, l: int)
    requires
        specs_disjoint(vtxs),
        ranges_within_totals(vtxs),
        composed_from(vtxs, tx),
        forall|g: int| 0 <= g < outputs_total(vtxs, vtxs.len() as int) ==> #[trigger] output_filled(vtxs, g),
        0 <= k < vtxs.len(),
        0 <= l < range_len(vtxs[k].spec.output_range),
    ensures
        tx.outputs@.len() == outputs_total(vtxs, vtxs.len() as int),
        tx.outputs@[vtxs[k].spec.output_range.start + l]@ == vtxs[k].outputs@[l]@,
{
    let n = vtxs.len() as int;
    let total = outputs_total(vtxs, n);
    let slots = Seq::new(total, |g: int| output_slot(vtxs, n, g));
    assert forall|g: int| 0 <= g < slots.len() implies (#[trigger] slots[g]) is Some by {
        assert(output_filled(vtxs, g));
        let j = choose|j: int|
            0 <= j < vtxs.len() && #[trigger] in_range(vtxs[j].spec.output_range, g) && g - vtxs[j].spec.output_range.start
                < vtxs[j].outputs@.len();
        lemma_compose_places_by_range(vtxs, j, g - vtxs[j].spec.output_range.start);
    }
    lemma_somes_all_present(slots);
    assert(ranges_fit(vtxs, k));
    let g = vtxs[k].spec.output_range.start + l;
    assert(output_filled(vtxs, g));
    let j = choose|j: int|
        0 <= j < vtxs.len() && #[trigger] in_range(vtxs[j].spec.output_range, g) && g - vtxs[j].spec.output_range.start
            < vtxs[j].outputs@.len();
    if j != k {
        if j < k {
            assert(!vtxs[j].spec.conflicts(vtxs[k].spec));
        } else {
            assert(!vtxs[k].spec.conflicts(vtxs[j].spec));
        }
        assert(in_range(vtxs[k].spec.output_range, g));
    }
    lemma_compose_places_by_range(vtxs, j, g - vtxs[j].spec.output_range.start);
    assert(Some(somes(slots)[g]) == slots[g]);
    assert(tx.outputs@.map_values(|o: CellOutput| o@)[g] == tx.outputs@[g]@);
}

/// A hash is among the header deps of the first `m` VTxs exactly when one of
/// those VTxs lists it.
proof fn lemma_header_deps_upto_contains(vtxs: Seq<VirtualTx>, m: int, h: [u8; 32])
    requires
        0 <= m <= vtxs.len(),
    ensures
        header_deps_upto(vtxs, m).contains(h) <==> exists|k: int, j: int|
            0 <= k < m && 0 <= j < vtxs[k].header_deps@.len() && #[trigger] vtxs[k].header_deps@[j] == h,
    decreases m,
{
    if m > 0 {
        lemma_header_deps_upto_contains(vtxs, m - 1, h);
        let p = header_deps_upto(vtxs, m - 1);
        let d = vtxs[m - 1].header_deps@;
        let s = header_deps_upto(vtxs, m);
        assert(s == p + d);
        if s.contains(h) {
            let x = choose|x: int| 0 <= x < s.len() && s[x] == h;
            if x < p.len() {
                assert(p[x] == h);
                assert(p.contains(h));
            } else {
                assert(d[x - p.len()] == h);
            }
        }
        if exists|k: int, j: int| 0 <= k < m && 0 <= j < vtxs[k].header_deps@.len() && #[trigger] vtxs[k].header_deps@[j] == h {
            let (k, j) = choose|k: int, j: int|
                0 <= k < m && 0 <= j < vtxs[k].header_deps@.len() && #[trigger] vtxs[k].header_deps@[j] == h;
            if k < m - 1 {
                assert(p.contains(h));
                let x = choose|x: int| 0 <= x < p.len() && p[x] == h;
                assert(s[x] == h);
            } else {
                assert(s[p.len() + j] == h);
            }
        }
    }
}

/// The header deps of the transaction that `compose` builds hold no hash
/// twice, and they hold a hash exactly when some VTx lists it among its
/// header deps.
pub proof fn lemma_compose_header_deps_merged(vtxs: Seq<VirtualTx>, h: [u8; 32])
    ensures
        composed_tx_parts(vtxs)[1].no_duplicates(),
        composed_tx_parts(vtxs)[1].contains(h@) <==> exists|k: int, j: int|
            0 <= k < vtxs.len() && 0 <= j < vtxs[k].header_deps@.len() && #[trigger] vtxs[k].header_deps@[j] == h,
{
    let n = vtxs.len() as int;
    let s = header_deps_upto(vtxs, n);
    let d = dedup_hashes(s);
    let m = d.map_values(|x: [u8; 32]| x@);
    lemma_dedup_hashes(s);
    lemma_header_deps_upto_contains(vtxs, n, h);
    assert(composed_tx_parts(vtxs)[1] == m);
    assert forall|a: int, b: int| 0 <= a < m.len() && 0 <= b < m.len() && a != b implies m[a] != m[b] by {
        if m[a] == m[b] {
            assert(d[a]@ =~= d[b]@);
            assert(d[a] == d[b]);
        }
    }
    if m.contains(h@) {
        let x = choose|x: int| 0 <= x < m.len() && m[x] == h@;
        assert(d[x]@ =~= h@);
        assert(d[x] == h);
        assert(d.contains(h));
    }
    if d.contains(h) {
        let x = choose|x: int| 0 <= x < d.len() && d[x] == h;
        assert(m[x] == h@);
    }
}

/// A cell dep is among the cell deps of the first `m` VTxs exactly when one
/// of those VTxs lists it.
proof fn lemma_cell_deps_upto_contains(vtxs: Seq<VirtualTx>, m: int, c: CellDep)
    requires
        0 <= m <= vtxs.len(),
    ensures
        cell_deps_upto(vtxs, m).contains(c) <==> exists|k: int, j: int|
            0 <= k < m && 0 <= j < vtxs[k].cell_deps@.len() && #[trigger] vtxs[k].cell_deps@[j] == c,
    decreases m,
{
    if m > 0 {
        lemma_cell_deps_upto_contains(vtxs, m - 1, c);
        let p = cell_deps_upto(vtxs, m - 1);
        let d = vtxs[m - 1].cell_deps@;
        let s = cell_deps_upto(vtxs, m);
        assert(s == p + d);
        if s.contains(c) {
            let x = choose|x: int| 0 <= x < s.len() && s[x] == c;
            if x < p.len() {
                assert(p[x] == c);
                assert(p.contains(c));
            } else {
                assert(d[x - p.len()] == c);
            }
        }
        if exists|k: int, j: int| 0 <= k < m && 0 <= j < vtxs[k].cell_deps@.len() && #[trigger] vtxs[k].cell_deps@[j] == c {
            let (k, j) = choose|k: int, j: int|
                0 <= k < m && 0 <= j < vtxs[k].cell_deps@.len() && #[trigger] vtxs[k].cell_deps@[j] == c;
            if k < m - 1 {
                assert(p.contains(c));
                let x = choose|x: int| 0 <= x < p.len() && p[x] == c;
                assert(s[x] == c);
            } else {
                assert(s[p.len() + j] == c);
            }
        }
    }
}

/// The cell deps of a composition are merged by out point: no two share an
/// out point, each is a cell dep that some VTx lists, and every cell dep
/// that a VTx lists has its out point among them.
pub proof fn lemma_compose_cell_deps_merged(vtxs: Seq<VirtualTx>, tx: ComposedTx, k: int, j: int)
    requires
        composed_from(vtxs, tx),
    ensures
        out_points_distinct(tx.cell_deps@),
        forall|x: int|
            #![trigger tx.cell_deps@[x]]
            0 <= x < tx.cell_deps@.len() ==> exists|k2: int, j2: int|
                0 <= k2 < vtxs.len() && 0 <= j2 < vtxs[k2].cell_deps@.len() && #[trigger] vtxs[k2].cell_deps@[j2]
                    == tx.cell_deps@[x],
        0 <= k < vtxs.len() && 0 <= j < vtxs[k].cell_deps@.len() ==> has_out_point(
            tx.cell_deps@,
            vtxs[k].cell_deps@[j].out_point,
        ),
{
    let n = vtxs.len() as int;
    let s = cell_deps_upto(vtxs, n);
    lemma_dedup_cell_deps(s);
    assert forall|x: int| #![trigger tx.cell_deps@[x]] 0 <= x < tx.cell_deps@.len() implies exists|k2: int, j2: int|
        0 <= k2 < vtxs.len() && 0 <= j2 < vtxs[k2].cell_deps@.len() && #[trigger] vtxs[k2].cell_deps@[j2]
            == tx.cell_deps@[x] by {
        assert(s.contains(dedup_cell_deps(s)[x]));
        lemma_cell_deps_upto_contains(vtxs, n, tx.cell_deps@[x]);
    }
    if 0 <= k < vtxs.len() && 0 <= j < vtxs[k].cell_deps@.len() {
        let c = vtxs[k].cell_deps@[j];
        lemma_cell_deps_upto_contains(vtxs, n, c);
        assert(s.contains(c));
        let y = choose|y: int| 0 <= y < s.len() && s[y] == c;
        assert(has_out_point(dedup_cell_deps(s), s[y].out_point));
    }
}

/// The transaction that `compose` builds holds exactly the encodings of the
/// components of the composition: its cell deps, header deps, inputs,
/// outputs, output data and witnesses, and the version 0.
pub proof fn lemma_composed_tx_parts_encode(vtxs: Seq<VirtualTx>, tx: ComposedTx)
    requires
        composed_from(vtxs, tx),
    ensures
        composed_tx_parts(vtxs) == seq![
            tx.cell_deps@.map_values(|d: CellDep| cell_dep_layout(d)),
            tx.header_deps@.map_values(|h: [u8; 32]| h@),
            tx.inputs@.map_values(|i: CellInput| cell_input_layout(i)),
            tx.outputs@.map_values(|o: CellOutput| cell_output_bytes(o@)),
            tx.outputs_data@.map_values(|d: Vec<u8>| d@),
            tx.witnesses@.map_values(|w: Vec<u8>| w@),
            seq![seq![0u8, 0u8, 0u8, 0u8]],
        ],
{
    assert(tx.outputs@.map_values(|o: CellOutput| o@).map_values(|o: CellOutputView| cell_output_bytes(o))
        =~= tx.outputs@.map_values(|o: CellOutput| cell_output_bytes(o@)));
    assert(composed_tx_parts(vtxs) =~= seq![
        tx.cell_deps@.map_values(|d: CellDep| cell_dep_layout(d)),
        tx.header_deps@.map_values(|h: [u8; 32]| h@),
        tx.inputs@.map_values(|i: CellInput| cell_input_layout(i)),
        tx.outputs@.map_values(|o: CellOutput| cell_output_bytes(o@)),
        tx.outputs_data@.map_values(|d: Vec<u8>| d@),
        tx.witnesses@.map_values(|w: Vec<u8>| w@),
        seq![seq![0u8, 0u8, 0u8, 0u8]],
    ]);
}

} // verus!
