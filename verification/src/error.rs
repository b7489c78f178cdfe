//! Error types for CKB Virtual Tx.

use vstd::prelude::*;

verus! {

/// Errors that can occur during VTx operations.
#[derive(Debug, Clone)]
pub enum VtxError {
    /// Index out of bound when accessing tx components.
    IndexOutOfBound { context: String, index: usize },
    /// Requested item is missing (e.g., type script on a cell).
    ItemMissing(String),
    /// Invalid source provided to a syscall.
    InvalidSource(u64),
    /// Invalid field provided to a syscall.
    InvalidField(u64),
    /// VTx specification is invalid.
    InvalidSpec(String),
    /// Component ranges overlap between VTxs.
    OverlappingRanges(String),
    /// Script group mismatch across VTxs.
    ScriptGroupError(String),
    /// The intent declaration is invalid or unsatisfied.
    IntentError(String),
    /// Serialization/deserialization error.
    SerializationError(String),
}

/// Result type alias for VTx operations.
pub type VtxResult<T> = Result<T, VtxError>;

/// The character of decimal digit `d`.
pub open spec fn digit_char(d: nat) -> char {
    (48 + d) as char
}

/// The decimal digits of `n`, most significant first, with no leading zeros.
pub open spec fn decimal(n: nat) -> Seq<char>
    decreases n,
{
    if n < 10 {
        seq![digit_char(n)]
    } else {
        decimal(n / 10).push(digit_char(n % 10))
    }
}

/// The one-character text of decimal digit `d`.
fn digit_text(d: u64) -> (r: &'static str)
    requires
        d < 10,
    ensures
        r@ == seq![digit_char(d as nat)],
{
    proof {
        reveal_strlit("0");
        reveal_strlit("1");
        reveal_strlit("2");
        reveal_strlit("3");
        reveal_strlit("4");
        reveal_strlit("5");
        reveal_strlit("6");
        reveal_strlit("7");
        reveal_strlit("8");
        reveal_strlit("9");
    }
    match d {
        0 => "0",
        1 => "1",
        2 => "2",
        3 => "3",
        4 => "4",
        5 => "5",
        6 => "6",
        7 => "7",
        8 => "8",
        _ => "9",
    }
}

/// `text` followed by the decimal digits of `n`.
pub(crate) fn append_number(text: String, n: u64) -> (r: String)
    ensures
        r@ == text@ + decimal(n as nat),
    decreases n,
{
    if n < 10 {
        append_text(text, digit_text(n))
    } else {
        let head = append_number(text, n / 10);
        let r = append_text(head, digit_text(n % 10));
        assert(r@ =~= text@ + decimal(n as nat));
        r
    }
}

/// `text` followed by `more`.
pub(crate) fn append_text(text: String, more: &str) -> (r: String)
    ensures
        r@ == text@ + more@,
{
    let mut text = text;
    text.append(more);
    text
}

} // verus!
