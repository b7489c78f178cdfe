//! Constants for CKB Virtual Tx: syscall numbers, sources, fields and
//! return codes.

use vstd::prelude::*;

pub mod syscall_numbers;

verus! {

/// CKB source types for syscall queries.
///
/// The numeric code of each source is given by [`Source::code`] and
/// computed by [`Source::to_u64`]. An `as` cast gives the variant's
/// position instead, which is not its syscall code.
#[derive(Debug, Clone, Copy, PartialEq, Eq, Structural)]
pub enum Source {
    Input,
    Output,
    CellDep,
    HeaderDep,
    GroupInput,
    GroupOutput,
}

impl Source {
    /// The syscall code of a source.
    pub open spec fn code(self) -> u64 {
        match self {
            Source::Input => 1,
            Source::Output => 2,
            Source::CellDep => 3,
            Source::HeaderDep => 4,
            Source::GroupInput => 0x0100_0000_0000_0001,
            Source::GroupOutput => 0x0100_0000_0000_0002,
        }
    }

    /// The source whose code is `value`, if any.
    pub open spec fn decode(value: u64) -> Option<Source> {
        if value == 1 {
            Some(Source::Input)
        } else if value == 2 {
            Some(Source::Output)
        } else if value == 3 {
            Some(Source::CellDep)
        } else if value == 4 {
            Some(Source::HeaderDep)
        } else if value == 0x0100_0000_0000_0001 {
            Some(Source::GroupInput)
        } else if value == 0x0100_0000_0000_0002 {
            Some(Source::GroupOutput)
        } else {
            None
        }
    }

    /// The source that the group sources read from.
    pub open spec fn base(self) -> Source {
        match self {
            Source::GroupInput => Source::Input,
            Source::GroupOutput => Source::Output,
            other => other,
        }
    }

    /// The syscall code of this source.
    pub fn to_u64(&self) -> (r: u64)
        ensures
            r == self.code(),
    {
        match self {
            Source::Input => 1,
            Source::Output => 2,
            Source::CellDep => 3,
            Source::HeaderDep => 4,
            Source::GroupInput => 0x0100_0000_0000_0001,
            Source::GroupOutput => 0x0100_0000_0000_0002,
        }
    }

    /// Decode a syscall source code.
    pub fn from_u64(value: u64) -> (r: Option<Self>)
        ensures
            r == Source::decode(value),
            r matches Some(s) ==> s.code() == value,
            r is None ==> forall|s: Source| #[trigger] s.code() != value,
    {
        match value {
            1 => Some(Source::Input),
            2 => Some(Source::Output),
            3 => Some(Source::CellDep),
            4 => Some(Source::HeaderDep),
            0x0100_0000_0000_0001 => Some(Source::GroupInput),
            0x0100_0000_0000_0002 => Some(Source::GroupOutput),
            _ => {
                assert forall|s: Source| #[trigger] s.code() != value by {
                    match s {
                        Source::Input => {},
                        Source::Output => {},
                        Source::CellDep => {},
                        Source::HeaderDep => {},
                        Source::GroupInput => {},
                        Source::GroupOutput => {},
                    }
                }
                None
            },
        }
    }

    /// Returns true if this is a group source (GroupInput/GroupOutput).
    pub fn is_group(&self) -> (r: bool)
        ensures
            r == (*self == Source::GroupInput || *self == Source::GroupOutput),
    {
        match self {
            Source::GroupInput | Source::GroupOutput => true,
            _ => false,
        }
    }

    /// Returns the base source for a group source.
    pub fn base_source(&self) -> (r: Source)
        ensures
            r == self.base(),
    {
        match self {
            Source::GroupInput => Source::Input,
            Source::GroupOutput => Source::Output,
            other => *other,
        }
    }
}

/// Decoding a source's own code gives that source back, and different
/// sources have different codes.
pub proof fn lemma_source_code_injective(a: Source, b: Source)
    ensures
        a.code() == b.code() <==> a == b,
        Source::decode(a.code()) == Some(a),
{
}

/// A code decodes to a source exactly when it is that source's code.
pub proof fn lemma_source_decode(value: u64, s: Source)
    ensures
        Source::decode(value) == Some(s) <==> s.code() == value,
{
}

/// The base of any source is not a group source, and taking the base twice
/// is the same as taking it once.
pub proof fn lemma_source_base(s: Source)
    ensures
        s.base() != Source::GroupInput,
        s.base() != Source::GroupOutput,
        s.base().base() == s.base(),
        (s != Source::GroupInput && s != Source::GroupOutput) ==> s.base() == s,
{
}

/// CKB cell fields for the `load_cell_by_field` syscall.
#[derive(Debug, Clone, Copy, PartialEq, Eq, Structural)]
pub enum CellField {
    Capacity,
    DataHash,
    Lock,
    LockHash,
    Type,
    TypeHash,
    OccupiedCapacity,
}

impl CellField {
    /// The syscall code of a cell field.
    pub open spec fn code(self) -> u64 {
        match self {
            CellField::Capacity => 0,
            CellField::DataHash => 1,
            CellField::Lock => 2,
            CellField::LockHash => 3,
            CellField::Type => 4,
            CellField::TypeHash => 5,
            CellField::OccupiedCapacity => 6,
        }
    }

    /// The cell field whose code is `value`, if any.
    pub open spec fn decode(value: u64) -> Option<CellField> {
        if value == 0 {
            Some(CellField::Capacity)
        } else if value == 1 {
            Some(CellField::DataHash)
        } else if value == 2 {
            Some(CellField::Lock)
        } else if value == 3 {
            Some(CellField::LockHash)
        } else if value == 4 {
            Some(CellField::Type)
        } else if value == 5 {
            Some(CellField::TypeHash)
        } else if value == 6 {
            Some(CellField::OccupiedCapacity)
        } else {
            None
        }
    }

    /// The syscall code of this field.
    pub fn to_u64(&self) -> (r: u64)
        ensures
            r == self.code(),
    {
        match self {
            CellField::Capacity => 0,
            CellField::DataHash => 1,
            CellField::Lock => 2,
            CellField::LockHash => 3,
            CellField::Type => 4,
            CellField::TypeHash => 5,
            CellField::OccupiedCapacity => 6,
        }
    }

    /// Decode a cell field code.
    pub fn from_u64(value: u64) -> (r: Option<Self>)
        ensures
            r == CellField::decode(value),
            r matches Some(f) ==> f.code() == value,
            r is None <==> value > 6,
    {
        match value {
            0 => Some(CellField::Capacity),
            1 => Some(CellField::DataHash),
            2 => Some(CellField::Lock),
            3 => Some(CellField::LockHash),
            4 => Some(CellField::Type),
            5 => Some(CellField::TypeHash),
            6 => Some(CellField::OccupiedCapacity),
            _ => None,
        }
    }
}

/// CKB input fields for the `load_input_by_field` syscall.
#[derive(Debug, Clone, Copy, PartialEq, Eq, Structural)]
pub enum InputField {
    OutPoint,
    Since,
}

impl InputField {
    /// The syscall code of an input field.
    pub open spec fn code(self) -> u64 {
        match self {
            InputField::OutPoint => 0,
            InputField::Since => 1,
        }
    }

    /// The input field whose code is `value`, if any.
    pub open spec fn decode(value: u64) -> Option<InputField> {
        if value == 0 {
            Some(InputField::OutPoint)
        } else if value == 1 {
            Some(InputField::Since)
        } else {
            None
        }
    }

    /// The syscall code of this field.
    pub fn to_u64(&self) -> (r: u64)
        ensures
            r == self.code(),
    {
        match self {
            InputField::OutPoint => 0,
            InputField::Since => 1,
        }
    }

    /// Decode an input field code.
    pub fn from_u64(value: u64) -> (r: Option<Self>)
        ensures
            r == InputField::decode(value),
            r matches Some(f) ==> f.code() == value,
            r is None <==> value > 1,
    {
        match value {
            0 => Some(InputField::OutPoint),
            1 => Some(InputField::Since),
            _ => None,
        }
    }
}

/// CKB header fields for the `load_header_by_field` syscall.
#[derive(Debug, Clone, Copy, PartialEq, Eq, Structural)]
pub enum HeaderField {
    EpochNumber,
    EpochStartBlockNumber,
    EpochLength,
}

impl HeaderField {
    /// The syscall code of a header field.
    pub open spec fn code(self) -> u64 {
        match self {
            HeaderField::EpochNumber => 0,
            HeaderField::EpochStartBlockNumber => 1,
            HeaderField::EpochLength => 2,
        }
    }

    /// The syscall code of this field.
    pub fn to_u64(&self) -> (r: u64)
        ensures
            r == self.code(),
    {
        match self {
            HeaderField::EpochNumber => 0,
            HeaderField::EpochStartBlockNumber => 1,
            HeaderField::EpochLength => 2,
        }
    }

    /// Decode a header field code.
    pub fn from_u64(value: u64) -> (r: Option<Self>)
        ensures
            r matches Some(f) ==> f.code() == value,
            r is None <==> value > 2,
    {
        match value {
            0 => Some(HeaderField::EpochNumber),
            1 => Some(HeaderField::EpochStartBlockNumber),
            2 => Some(HeaderField::EpochLength),
            _ => None,
        }
    }
}

/// The codes of the cell, input and header fields are distinct within each
/// kind, so decoding a field's own code gives that field back.
pub proof fn lemma_field_codes_injective(
    a: CellField,
    b: CellField,
    c: InputField,
    d: InputField,
    e: HeaderField,
    f: HeaderField,
)
    ensures
        a.code() == b.code() <==> a == b,
        c.code() == d.code() <==> c == d,
        e.code() == f.code() <==> e == f,
{
}

/// CKB standard return codes.
pub const CKB_SUCCESS: i32 = 0;

pub const CKB_INDEX_OUT_OF_BOUND: i32 = 1;

pub const CKB_ITEM_MISSING: i32 = 2;

/// Code hash of the type script that marks the first input of a transaction
/// holding virtual transactions ("vtx\0" at bytes 16..20, last byte 1).
pub const VTX_INDICATOR_CODE_HASH: [u8; 32] = [
    0x00, 0x00, 0x00, 0x00, 0x00, 0x00, 0x00, 0x00, 0x00, 0x00, 0x00, 0x00, 0x00, 0x00, 0x00,
    0x00, 0x76, 0x74, 0x78, 0x00,
    0x00, 0x00, 0x00, 0x00, 0x00, 0x00, 0x00, 0x00, 0x00, 0x00, 0x00, 0x01,
];

} // verus!
