//! The components of a CKB transaction, held as plain values, and their
//! molecule encodings and hashes.
//!
//! The encodings and hashes are computed by `ckb-types`; the functions at the
//! end of this file are the only places where this crate calls it. Each
//! states, over the spec functions below, what the call returns.

use ckb_types::packed;
use ckb_types::prelude::{Builder, Entity, Unpack};
use vstd::prelude::*;

verus! {

#[verifier::external_type_specification]
#[verifier::external_body]
pub struct ExTransactionView(ckb_types::core::TransactionView);

/// A reference to a cell: the hash of the transaction that created it and the
/// index of the output in that transaction.
#[derive(Clone, Copy, Debug, PartialEq, Eq)]
pub struct OutPoint {
    pub tx_hash: [u8; 32],
    pub index: u32,
}

/// A transaction input: the cell it consumes and its `since` lock.
#[derive(Clone, Copy, Debug, PartialEq, Eq)]
pub struct CellInput {
    pub previous_output: OutPoint,
    pub since: u64,
}

/// A cell dependency: the cell referenced and its dep type byte.
#[derive(Clone, Copy, Debug, PartialEq, Eq)]
pub struct CellDep {
    pub out_point: OutPoint,
    pub dep_type: u8,
}

/// A script (lock or type): code hash, hash type byte and arguments.
#[derive(Clone, Debug, PartialEq, Eq)]
pub struct Script {
    pub code_hash: [u8; 32],
    pub hash_type: u8,
    pub args: Vec<u8>,
}

/// A cell output: capacity, lock script and optional type script.
#[derive(Clone, Debug, PartialEq, Eq)]
pub struct CellOutput {
    pub capacity: u64,
    pub lock: Script,
    pub type_: Option<Script>,
}

/// The value of a [`Script`].
pub struct ScriptView {
    pub code_hash: Seq<u8>,
    pub hash_type: u8,
    pub args: Seq<u8>,
}

/// The value of a [`CellOutput`].
pub struct CellOutputView {
    pub capacity: u64,
    pub lock: ScriptView,
    pub type_: Option<ScriptView>,
}

impl View for Script {
    type V = ScriptView;

    open spec fn view(&self) -> ScriptView {
        ScriptView { code_hash: self.code_hash@, hash_type: self.hash_type, args: self.args@ }
    }
}

impl View for CellOutput {
    type V = CellOutputView;

    open spec fn view(&self) -> CellOutputView {
        CellOutputView {
            capacity: self.capacity,
            lock: self.lock@,
            type_: match self.type_ {
                Some(t) => Some(t@),
                None => None,
            },
        }
    }
}

impl Script {
    /// A copy of this script.
    pub fn copy(&self) -> (r: Script)
        ensures
            r@ == self@,
    {
        let args = self.args.clone();
        assert(args@ =~= self.args@);
        Script { code_hash: self.code_hash, hash_type: self.hash_type, args }
    }
}

impl CellOutput {
    /// A copy of this cell output.
    pub fn copy(&self) -> (r: CellOutput)
        ensures
            r@ == self@,
    {
        let type_ = match &self.type_ {
            Some(t) => Some(t.copy()),
            None => None,
        };
        CellOutput { capacity: self.capacity, lock: self.lock.copy(), type_ }
    }
}

/// A copy of a byte vector.
pub fn copy_bytes(v: &Vec<u8>) -> (r: Vec<u8>)
    ensures
        r@ == v@,
{
    let r = v.clone();
    assert(r@ =~= v@);
    r
}

/// The `n` low bytes of `v`, least significant first.
pub open spec fn le_bytes(v: nat, n: nat) -> Seq<u8>
    decreases n,
{
    if n == 0 {
        Seq::empty()
    } else {
        seq![(v % 256) as u8] + le_bytes(v / 256, (n - 1) as nat)
    }
}

/// `le_bytes(v, n)` has `n` bytes.
pub(crate) proof fn lemma_le_bytes_len(v: nat, n: nat)
    ensures
        le_bytes(v, n).len() == n,
    decreases n,
{
    if n > 0 {
        lemma_le_bytes_len(v / 256, (n - 1) as nat);
    }
}

/// 32 zero bytes.
pub open spec fn zero_hash() -> Seq<u8> {
    Seq::new(32, |i: int| 0u8)
}

/// The molecule encoding of an out point: the transaction hash, then the
/// index as 4 little-endian bytes.
pub open spec fn out_point_layout(o: OutPoint) -> Seq<u8> {
    o.tx_hash@ + le_bytes(o.index as nat, 4)
}

/// The molecule encoding of a cell input: `since` as 8 little-endian bytes,
/// then the out point.
pub open spec fn cell_input_layout(i: CellInput) -> Seq<u8> {
    le_bytes(i.since as nat, 8) + out_point_layout(i.previous_output)
}

/// The molecule encoding of a cell dep: the out point, then the dep type byte.
pub open spec fn cell_dep_layout(d: CellDep) -> Seq<u8> {
    out_point_layout(d.out_point) + seq![d.dep_type]
}

/// The molecule encoding of a table whose fields encode to `fields`: the
/// total size, the offset of each field (each number as its 4 low bytes,
/// little-endian, as molecule writes it), then the fields.
pub open spec fn table_layout(fields: Seq<Seq<u8>>) -> Seq<u8> {
    let header_size = 4 * (fields.len() + 1);
    let offsets = Seq::new(
        fields.len(),
        |k: int| le_bytes((header_size + fields.take(k).fold_left(0nat, |acc: nat, f: Seq<u8>| acc + f.len())) as nat, 4),
    );
    let total = header_size + fields.fold_left(0nat, |acc: nat, f: Seq<u8>| acc + f.len());
    le_bytes(total as nat, 4) + offsets.fold_left(Seq::<u8>::empty(), |acc: Seq<u8>, o: Seq<u8>| acc + o)
        + fields.fold_left(Seq::<u8>::empty(), |acc: Seq<u8>, f: Seq<u8>| acc + f)
}

/// The molecule encoding of a script: a table of the code hash, the hash
/// type byte and the arguments (as a byte vector: length, then bytes).
pub open spec fn script_layout(s: ScriptView) -> Seq<u8> {
    table_layout(seq![s.code_hash, seq![s.hash_type], le_bytes(s.args.len(), 4) + s.args])
}

/// The molecule encoding of an optional script: empty when absent.
pub open spec fn script_opt_layout(s: Option<ScriptView>) -> Seq<u8> {
    match s {
        Some(t) => script_layout(t),
        None => Seq::empty(),
    }
}

/// The molecule encoding of a cell output: a table of the capacity (8
/// little-endian bytes), the lock script and the optional type script.
pub open spec fn cell_output_layout(o: CellOutputView) -> Seq<u8> {
    table_layout(seq![le_bytes(o.capacity as nat, 8), script_layout(o.lock), script_opt_layout(o.type_)])
}

/// The script hash that `ckb-types` computes for a script with these parts.
pub uninterp spec fn spec_script_hash(code_hash: Seq<u8>, hash_type: u8, args: Seq<u8>) -> Seq<u8>;

/// The data hash that `ckb-types` computes for cell data.
pub uninterp spec fn spec_data_hash(data: Seq<u8>) -> Seq<u8>;

/// The hash of the transaction that `ckb-types` builds from these encoded
/// inputs, encoded outputs and output data (and nothing else).
pub uninterp spec fn spec_tx_hash(
    inputs: Seq<Seq<u8>>,
    outputs: Seq<Seq<u8>>,
    outputs_data: Seq<Seq<u8>>,
) -> Seq<u8>;

/// The encoding of a script.
pub open spec fn script_bytes(s: ScriptView) -> Seq<u8> {
    script_layout(s)
}

/// The encoding of a cell output.
pub open spec fn cell_output_bytes(o: CellOutputView) -> Seq<u8> {
    cell_output_layout(o)
}

/// The hash of a script.
pub open spec fn script_hash(s: ScriptView) -> Seq<u8> {
    spec_script_hash(s.code_hash, s.hash_type, s.args)
}

/// The deep view of a byte vector is its view.
pub(crate) proof fn lemma_bytes_deep_view(v: Vec<u8>)
    ensures
        v.deep_view() == v@,
{
    assert(v.deep_view() =~= v@);
}

/// The deep view of a vector of byte vectors is the view of each.
pub(crate) proof fn lemma_nested_bytes_deep_view(v: Vec<Vec<u8>>)
    ensures
        v.deep_view() == v@.map_values(|b: Vec<u8>| b@),
{
    assert forall|x: int| 0 <= x < v@.len() implies v.deep_view()[x] == v@[x]@ by {
        lemma_bytes_deep_view(v@[x]);
    }
    assert(v.deep_view() =~= v@.map_values(|b: Vec<u8>| b@));
}

/// The deep view of a vector of hashes is the view of each.
pub(crate) proof fn lemma_hashes_deep_view(v: Vec<[u8; 32]>)
    ensures
        v.deep_view() == v@.map_values(|h: [u8; 32]| h@),
{
    assert forall|x: int| 0 <= x < v@.len() implies v.deep_view()[x] == v@[x]@ by {
        assert(v@[x].deep_view() =~= v@[x]@);
    }
    assert(v.deep_view() =~= v@.map_values(|h: [u8; 32]| h@));
}

/// `v` as 8 little-endian bytes.
pub fn u64_to_le_bytes(v: u64) -> (r: Vec<u8>)
    ensures
        r@ == le_bytes(v as nat, 8),
{
    let mut r: Vec<u8> = Vec::new();
    let mut rest: u64 = v;
    let mut i: usize = 0;
    while i < 8
        invariant
            i <= 8,
            r@ + le_bytes(rest as nat, (8 - i) as nat) == le_bytes(v as nat, 8),
        decreases 8 - i,
    {
        let ghost before = r@;
        assert(le_bytes(rest as nat, (8 - i) as nat) == seq![(rest % 256) as u8] + le_bytes(
            (rest / 256) as nat,
            (8 - i - 1) as nat,
        ));
        r.push((rest % 256) as u8);
        assert(r@ == before + seq![(rest % 256) as u8]);
        assert(before + (seq![(rest % 256) as u8] + le_bytes((rest / 256) as nat, (8 - i - 1) as nat))
            == r@ + le_bytes((rest / 256) as nat, (8 - i - 1) as nat));
        rest = rest / 256;
        i = i + 1;
    }
    assert(r@ + le_bytes(rest as nat, 0) == r@);
    r
}

/// The encodings of cell deps, in order.
pub(crate) fn encode_cell_deps(deps: &Vec<CellDep>) -> (r: Vec<Vec<u8>>)
    ensures
        r.deep_view() == deps@.map_values(|d: CellDep| cell_dep_layout(d)),
{
    let mut r: Vec<Vec<u8>> = Vec::new();
    let mut j: usize = 0;
    while j < deps.len()
        invariant
            j <= deps@.len(),
            r@.len() == j,
            forall|x: int| 0 <= x < j ==> r@[x]@ == cell_dep_layout(deps@[x]),
        decreases deps@.len() - j,
    {
        r.push(cell_dep_encoding(&deps[j]));
        j = j + 1;
    }
    proof {
        lemma_nested_bytes_deep_view(r);
        assert(r@.map_values(|b: Vec<u8>| b@) =~= deps@.map_values(|d: CellDep| cell_dep_layout(d)));
    }
    r
}

/// The encodings of inputs, in order.
pub(crate) fn encode_inputs(inputs: &Vec<CellInput>) -> (r: Vec<Vec<u8>>)
    ensures
        r.deep_view() == inputs@.map_values(|i: CellInput| cell_input_layout(i)),
{
    let mut r: Vec<Vec<u8>> = Vec::new();
    let mut j: usize = 0;
    while j < inputs.len()
        invariant
            j <= inputs@.len(),
            r@.len() == j,
            forall|x: int| 0 <= x < j ==> r@[x]@ == cell_input_layout(inputs@[x]),
        decreases inputs@.len() - j,
    {
        r.push(cell_input_encoding(&inputs[j]));
        j = j + 1;
    }
    proof {
        lemma_nested_bytes_deep_view(r);
        assert(r@.map_values(|b: Vec<u8>| b@) =~= inputs@.map_values(|i: CellInput| cell_input_layout(i)));
    }
    r
}

/// The encodings of outputs, in order.
pub(crate) fn encode_outputs(outputs: &Vec<CellOutput>) -> (r: Vec<Vec<u8>>)
    ensures
        r.deep_view() == outputs@.map_values(|o: CellOutput| cell_output_bytes(o@)),
{
    let mut r: Vec<Vec<u8>> = Vec::new();
    let mut j: usize = 0;
    while j < outputs.len()
        invariant
            j <= outputs@.len(),
            r@.len() == j,
            forall|x: int| 0 <= x < j ==> r@[x]@ == cell_output_bytes(outputs@[x]@),
        decreases outputs@.len() - j,
    {
        r.push(cell_output_encoding(&outputs[j]));
        j = j + 1;
    }
    proof {
        lemma_nested_bytes_deep_view(r);
        assert(r@.map_values(|b: Vec<u8>| b@) =~= outputs@.map_values(|o: CellOutput| cell_output_bytes(o@)));
    }
    r
}

/// Whether two 32-byte values are equal.
pub fn bytes32_eq(a: &[u8; 32], b: &[u8; 32]) -> (r: bool)
    ensures
        r == (a@ == b@),
{
    let mut i: usize = 0;
    while i < 32
        invariant
            i <= 32,
            a@.len() == 32 && b@.len() == 32,
            forall|j: int| 0 <= j < i ==> a@[j] == b@[j],
        decreases 32 - i,
    {
        if a[i] != b[i] {
            return false;
        }
        i = i + 1;
    }
    assert(a@ =~= b@);
    true
}

/// Whether two out points are equal.
pub fn out_point_eq(a: &OutPoint, b: &OutPoint) -> (r: bool)
    ensures
        r == (*a == *b),
{
    let same_hash = bytes32_eq(&a.tx_hash, &b.tx_hash);
    if same_hash && a.index == b.index {
        assert(a.tx_hash == b.tx_hash) by {
            assert(a.tx_hash@ == b.tx_hash@);
        }
        true
    } else {
        false
    }
}

/// The molecule encoding of `s`, from `ckb-types` (`Script` builder, then
/// `as_slice`): a table of the code hash, the hash type and the arguments.
#[verifier::external_body]
pub(crate) fn script_encoding(s: &Script) -> (r: Vec<u8>)
    ensures
        r@ == script_layout(s@),
{
    let hash_type = packed::Byte::new(s.hash_type);
    let args: &[u8] = &s.args;
    let script = packed::Script::new_builder().code_hash(&s.code_hash).hash_type(hash_type).args(args).build();
    script.as_slice().to_vec()
}

/// The molecule encoding of `o`, from `ckb-types` (`CellOutput` builder,
/// then `as_slice`): a table of the capacity, the lock script and the
/// optional type script.
#[verifier::external_body]
pub(crate) fn cell_output_encoding(o: &CellOutput) -> (r: Vec<u8>)
    ensures
        r@ == cell_output_layout(o@),
{
    let pack = |s: &Script| packed::Script::new_builder().code_hash(&s.code_hash).hash_type(packed::Byte::new(s.hash_type)).args(&s.args[..]).build();
    let type_ = o.type_.as_ref().map(pack);
    let output = packed::CellOutput::new_builder().capacity(o.capacity).lock(pack(&o.lock)).type_(type_).build();
    output.as_slice().to_vec()
}

/// The molecule encoding of `i`, from `ckb-types` (`CellInput::new`, then
/// `as_slice`): `since`, then the out point.
#[verifier::external_body]
pub(crate) fn cell_input_encoding(i: &CellInput) -> (r: Vec<u8>)
    ensures
        r@ == cell_input_layout(*i),
{
    let out_point = packed::OutPoint::new(packed::Byte32::new(i.previous_output.tx_hash), i.previous_output.index);
    packed::CellInput::new(out_point, i.since).as_slice().to_vec()
}

/// The molecule encoding of `o`, from `ckb-types` (`OutPoint::new`, then
/// `as_slice`): the transaction hash, then the index.
#[verifier::external_body]
pub(crate) fn out_point_encoding(o: &OutPoint) -> (r: Vec<u8>)
    ensures
        r@ == out_point_layout(*o),
{
    packed::OutPoint::new(packed::Byte32::new(o.tx_hash), o.index).as_slice().to_vec()
}

/// The molecule encoding of `d`, from `ckb-types` (`CellDep` builder, then
/// `as_slice`): the out point, then the dep type.
#[verifier::external_body]
pub(crate) fn cell_dep_encoding(d: &CellDep) -> (r: Vec<u8>)
    ensures
        r@ == cell_dep_layout(*d),
{
    let out_point = packed::OutPoint::new(packed::Byte32::new(d.out_point.tx_hash), d.out_point.index);
    let dep = packed::CellDep::new_builder().out_point(out_point).dep_type(packed::Byte::new(d.dep_type)).build();
    dep.as_slice().to_vec()
}

/// The script hash of `s`, from `ckb-types` (`Script::calc_script_hash`, a
/// hash of the script's encoding).
#[verifier::external_body]
pub(crate) fn script_hash_of(s: &Script) -> (r: [u8; 32])
    ensures
        r@ == spec_script_hash(s.code_hash@, s.hash_type, s.args@),
{
    let args: &[u8] = &s.args;
    let script = packed::Script::new_builder().code_hash(&s.code_hash).hash_type(packed::Byte::new(s.hash_type)).args(args).build();
    script.calc_script_hash().unpack()
}

/// The hash of cell data, from `ckb-types` (`CellOutput::calc_data_hash`),
/// which is all zeros for empty data.
#[verifier::external_body]
pub(crate) fn data_hash_of(data: &[u8]) -> (r: [u8; 32])
    ensures
        r@ == spec_data_hash(data@),
        data@.len() == 0 ==> r@ == zero_hash(),
{
    packed::CellOutput::calc_data_hash(data).unpack()
}

/// The hash of the transaction that `ckb-types` builds (`TransactionBuilder`,
/// then `hash`) from the encoded inputs, the encoded outputs and the output
/// data, with no cell deps, header deps or witnesses.
#[verifier::external_body]
pub(crate) fn tx_hash_of(inputs: &Vec<Vec<u8>>, outputs: &Vec<Vec<u8>>, outputs_data: &Vec<Vec<u8>>) -> (r: [u8; 32])
    ensures
        r@ == spec_tx_hash(inputs.deep_view(), outputs.deep_view(), outputs_data.deep_view()),
{
    let mut builder = ckb_types::core::TransactionBuilder::default();
    for i in inputs {
        builder = builder.input(packed::CellInput::new_unchecked(i.clone().into()));
    }
    for o in outputs {
        builder = builder.output(packed::CellOutput::new_unchecked(o.clone().into()));
    }
    for d in outputs_data {
        builder = builder.output_data(&d[..]);
    }
    builder.build().hash().unpack()
}

/// What a `ckb-types` transaction holds, component by component: its cell
/// deps, header deps, inputs, outputs, output data and witnesses, in this
/// order, each component a sequence of items and each item as bytes (the
/// molecule encoding of a cell dep, input or output; the 32 bytes of a header
/// hash; the raw bytes of output data and witnesses), and last its version
/// as a single item of 4 little-endian bytes.
pub uninterp spec fn spec_transaction_parts(tx: ckb_types::core::TransactionView) -> Seq<Seq<Seq<u8>>>;

/// The molecule encoding of a cell dep is 37 bytes long.
pub open spec fn cell_dep_size() -> nat {
    37
}

/// The molecule encoding of a cell input is 44 bytes long.
pub open spec fn cell_input_size() -> nat {
    44
}

/// The transaction that `ckb-types` builds (`TransactionBuilder::build`) from
/// encoded cell deps, header dep hashes, encoded inputs, encoded outputs,
/// output data and witnesses: it holds exactly these items, in the order
/// given, with the builder's default version 0. Cell deps and inputs are
/// fixed-size molecule items, read back in steps of their size, so each
/// must have that size. Its hashes are not stated.
#[verifier::external_body]
pub(crate) fn build_transaction(
    cell_deps: &Vec<Vec<u8>>,
    header_deps: &Vec<[u8; 32]>,
    inputs: &Vec<Vec<u8>>,
    outputs: &Vec<Vec<u8>>,
    outputs_data: &Vec<Vec<u8>>,
    witnesses: &Vec<Vec<u8>>,
) -> (r: ckb_types::core::TransactionView)
    requires
        forall|i: int| 0 <= i < cell_deps@.len() ==> (#[trigger] cell_deps@[i])@.len() == cell_dep_size(),
        forall|i: int| 0 <= i < inputs@.len() ==> (#[trigger] inputs@[i])@.len() == cell_input_size(),
    ensures
        spec_transaction_parts(r) == seq![
            cell_deps.deep_view(),
            header_deps.deep_view(),
            inputs.deep_view(),
            outputs.deep_view(),
            outputs_data.deep_view(),
            witnesses.deep_view(),
            seq![seq![0u8, 0u8, 0u8, 0u8]],
        ],
{
    let mut b = ckb_types::core::TransactionBuilder::default();
    for d in cell_deps { b = b.cell_dep(packed::CellDep::new_unchecked(d.clone().into())); }
    for h in header_deps { b = b.header_dep(packed::Byte32::new(*h)); }
    for i in inputs { b = b.input(packed::CellInput::new_unchecked(i.clone().into())); }
    for o in outputs { b = b.output(packed::CellOutput::new_unchecked(o.clone().into())); }
    for d in outputs_data { b = b.output_data(&d[..]); }
    for w in witnesses { b = b.witness(&w[..]); }
    b.build()
}

} // verus!
