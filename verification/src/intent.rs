//! Intent declaration for partial transactions.
//!
//! The first input of a VTx can carry an intent that declares what the partial
//! transaction requires from the missing parts. This enables economically
//! incentivized matching of partial transactions.

use vstd::prelude::*;

use crate::error::{append_number, append_text, decimal, VtxError, VtxResult};

verus! {

/// Constraint on an output that must be present in the composed transaction.
#[derive(Clone, Debug, PartialEq, Eq)]
pub struct OutputConstraint {
    /// Minimum capacity required on the output (in shannons).
    pub min_capacity: Option<u64>,
    /// Maximum capacity allowed on the output (in shannons).
    pub max_capacity: Option<u64>,
    /// Required lock script hash (hex-encoded, without 0x prefix).
    pub lock_script_hash: Option<String>,
    /// Required type script hash (hex-encoded, without 0x prefix).
    pub type_script_hash: Option<String>,
}

/// Constraint on the overall transaction fee.
#[derive(Clone, Debug, PartialEq, Eq)]
pub struct FeeConstraint {
    /// Maximum total fee allowed (in shannons).
    pub max_fee: Option<u64>,
}

/// Intent declaration for a partial transaction.
///
/// The intent is carried by the first input of the VTx and describes:
/// - What outputs must be present in the composed transaction
/// - Fee constraints to prevent fee griefing
/// - Additional metadata for matching
#[derive(Clone, Debug, PartialEq, Eq)]
pub struct Intent {
    /// Human-readable description of this partial tx's purpose.
    pub description: Option<String>,
    /// Constraints on outputs that must exist in the composed tx.
    pub output_constraints: Vec<OutputConstraint>,
    /// Fee constraint for the composed transaction.
    pub fee_constraint: Option<FeeConstraint>,
    /// Minimum number of inputs required in the composed tx.
    pub min_inputs: Option<usize>,
    /// Minimum number of outputs required in the composed tx.
    pub min_outputs: Option<usize>,
    /// Application-specific metadata (opaque bytes, hex-encoded).
    pub metadata: Option<String>,
}

/// The fee a transaction pays: input capacity minus output capacity, or zero
/// when the outputs hold more than the inputs.
pub open spec fn fee_paid(total_input_capacity: u64, total_output_capacity: u64) -> int {
    if total_input_capacity >= total_output_capacity {
        total_input_capacity - total_output_capacity
    } else {
        0
    }
}

/// "expected at least `min` `what`, got `got`".
pub open spec fn at_least_message(min: nat, what: Seq<char>, got: nat) -> Seq<char> {
    "expected at least "@ + decimal(min) + " "@ + what + ", got "@ + decimal(got)
}

/// "fee `fee` exceeds max_fee `max_fee`".
pub open spec fn fee_message(fee: nat, max_fee: nat) -> Seq<char> {
    "fee "@ + decimal(fee) + " exceeds max_fee "@ + decimal(max_fee)
}

impl Intent {
    /// A composed transaction with these totals meets every constraint of the
    /// intent that `validate` checks.
    pub open spec fn accepts(
        self,
        total_inputs: usize,
        total_outputs: usize,
        total_input_capacity: u64,
        total_output_capacity: u64,
    ) -> bool {
        &&& self.min_inputs matches Some(min) ==> total_inputs >= min
        &&& self.min_outputs matches Some(min) ==> total_outputs >= min
        &&& self.fee_constraint matches Some(fee) ==> (fee.max_fee matches Some(max_fee) ==> fee_paid(
            total_input_capacity,
            total_output_capacity,
        ) <= max_fee)
    }

    /// The message with which `validate` rejects a transaction with these
    /// totals: about the first constraint that fails, checked in the order
    /// minimum inputs, minimum outputs, fee limit.
    pub open spec fn rejection_message(
        self,
        total_inputs: usize,
        total_outputs: usize,
        total_input_capacity: u64,
        total_output_capacity: u64,
    ) -> Seq<char> {
        if self.min_inputs is Some && total_inputs < self.min_inputs->0 {
            at_least_message(self.min_inputs->0 as nat, "inputs"@, total_inputs as nat)
        } else if self.min_outputs is Some && total_outputs < self.min_outputs->0 {
            at_least_message(self.min_outputs->0 as nat, "outputs"@, total_outputs as nat)
        } else {
            let max_fee = self.fee_constraint->0.max_fee->0;
            fee_message(fee_paid(total_input_capacity, total_output_capacity) as nat, max_fee as nat)
        }
    }

    /// Create a new empty intent.
    pub fn new() -> (r: Self)
        ensures
            r.description is None,
            r.output_constraints@.len() == 0,
            r.fee_constraint is None,
            r.min_inputs is None,
            r.min_outputs is None,
            r.metadata is None,
    {
        Self {
            description: None,
            output_constraints: Vec::new(),
            fee_constraint: None,
            min_inputs: None,
            min_outputs: None,
            metadata: None,
        }
    }

    /// Set the description.
    pub fn with_description(self, description: &str) -> (r: Self)
        ensures
            r.description matches Some(d) && d@ == description@,
            r.output_constraints == self.output_constraints,
            r.fee_constraint == self.fee_constraint,
            r.min_inputs == self.min_inputs,
            r.min_outputs == self.min_outputs,
            r.metadata == self.metadata,
    {
        let mut intent = self;
        intent.description = Some(description.to_string());
        intent
    }

    /// Add an output constraint.
    pub fn with_output_constraint(self, constraint: OutputConstraint) -> (r: Self)
        ensures
            r.output_constraints@ == self.output_constraints@.push(constraint),
            r.description == self.description,
            r.fee_constraint == self.fee_constraint,
            r.min_inputs == self.min_inputs,
            r.min_outputs == self.min_outputs,
            r.metadata == self.metadata,
    {
        let mut intent = self;
        intent.output_constraints.push(constraint);
        intent
    }

    /// Set the fee constraint.
    pub fn with_fee_constraint(self, max_fee: u64) -> (r: Self)
        ensures
            r.fee_constraint == Some(FeeConstraint { max_fee: Some(max_fee) }),
            r.description == self.description,
            r.output_constraints == self.output_constraints,
            r.min_inputs == self.min_inputs,
            r.min_outputs == self.min_outputs,
            r.metadata == self.metadata,
    {
        let mut intent = self;
        intent.fee_constraint = Some(FeeConstraint { max_fee: Some(max_fee) });
        intent
    }

    /// Validate the intent against a composed transaction's properties.
    ///
    /// This checks the constraints that the totals can decide: the minimum
    /// numbers of inputs and outputs and the fee limit. Output constraints
    /// are not checked here.
    pub fn validate(
        &self,
        total_inputs: usize,
        total_outputs: usize,
        total_input_capacity: u64,
        total_output_capacity: u64,
    ) -> (r: VtxResult<()>)
        ensures
            r is Ok <==> self.accepts(total_inputs, total_outputs, total_input_capacity, total_output_capacity),
            r matches Err(e) ==> e is IntentError,
            r matches Err(VtxError::IntentError(m)) ==> m@ == self.rejection_message(
                total_inputs,
                total_outputs,
                total_input_capacity,
                total_output_capacity,
            ),
    {
        if let Some(min) = self.min_inputs {
            if total_inputs < min {
                return Err(VtxError::IntentError(expected_at_least(min, "inputs", total_inputs)));
            }
        }
        if let Some(min) = self.min_outputs {
            if total_outputs < min {
                return Err(VtxError::IntentError(expected_at_least(min, "outputs", total_outputs)));
            }
        }
        if let Some(fee) = &self.fee_constraint {
            let actual_fee = total_input_capacity.saturating_sub(total_output_capacity);
            if let Some(max_fee) = fee.max_fee {
                if actual_fee > max_fee {
                    let text = append_number("fee ".to_string(), actual_fee);
                    let text = append_text(text, " exceeds max_fee ");
                    let text = append_number(text, max_fee);
                    assert(text@ =~= fee_message(actual_fee as nat, max_fee as nat));
                    return Err(VtxError::IntentError(text));
                }
            }
        }
        Ok(())
    }
}

impl Default for Intent {
    /// The empty intent.
    fn default() -> (r: Self)
        ensures
            r.description is None,
            r.output_constraints@.len() == 0,
            r.fee_constraint is None,
            r.min_inputs is None,
            r.min_outputs is None,
            r.metadata is None,
    {
        Self::new()
    }
}

/// "expected at least `min` `what`, got `got`".
fn expected_at_least(min: usize, what: &str, got: usize) -> (r: String)
    ensures
        r@ == at_least_message(min as nat, what@, got as nat),
{
    let text = append_number("expected at least ".to_string(), min as u64);
    let text = append_text(text, " ");
    let text = append_text(text, what);
    let text = append_text(text, ", got ");
    let r = append_number(text, got as u64);
    assert(r@ =~= at_least_message(min as nat, what@, got as nat));
    r
}

/// An intent with no constraints accepts every composed transaction.
pub proof fn lemma_empty_intent_accepts_all(
    intent: Intent,
    total_inputs: usize,
    total_outputs: usize,
    total_input_capacity: u64,
    total_output_capacity: u64,
)
    requires
        intent.min_inputs is None,
        intent.min_outputs is None,
        intent.fee_constraint is None,
    ensures
        intent.accepts(total_inputs, total_outputs, total_input_capacity, total_output_capacity),
{
}

/// Acceptance is monotone in the counts and in the output capacity: more
/// inputs, more outputs, or more output capacity (hence a lower fee) never
/// turns an accepted transaction into a rejected one.
pub proof fn lemma_accepts_monotone(
    intent: Intent,
    total_inputs: usize,
    total_outputs: usize,
    total_input_capacity: u64,
    total_output_capacity: u64,
    more_inputs: usize,
    more_outputs: usize,
    more_output_capacity: u64,
)
    requires
        intent.accepts(total_inputs, total_outputs, total_input_capacity, total_output_capacity),
        more_inputs >= total_inputs,
        more_outputs >= total_outputs,
        more_output_capacity >= total_output_capacity,
    ensures
        intent.accepts(more_inputs, more_outputs, total_input_capacity, more_output_capacity),
{
}

/// With only a fee limit set, a transaction is accepted exactly when the fee
/// it pays (input minus output capacity, never below zero) is at most the
/// limit.
pub proof fn lemma_fee_limit(
    intent: Intent,
    max_fee: u64,
    total_inputs: usize,
    total_outputs: usize,
    total_input_capacity: u64,
    total_output_capacity: u64,
)
    requires
        intent.min_inputs is None,
        intent.min_outputs is None,
        intent.fee_constraint == Some(FeeConstraint { max_fee: Some(max_fee) }),
    ensures
        intent.accepts(total_inputs, total_outputs, total_input_capacity, total_output_capacity)
            <==> fee_paid(total_input_capacity, total_output_capacity) <= max_fee,
{
}

} // verus!
