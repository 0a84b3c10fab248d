//! What can go wrong while decoding a file or loading the profile tables.

use vstd::prelude::*;

verus! {

/// The ways in which a byte buffer can fail to be a well-formed file.
#[derive(Clone, Copy, Debug, PartialEq, Eq, Structural)]
pub enum FitErrorKind {
    /// The buffer ends before a structure that must be there.
    Truncated,
    /// The file header has an implausible size, the wrong magic, or a bad checksum.
    MalformedHeader,
    /// A definition record names an unknown base type, or a field size that is not a
    /// positive multiple of its base type's size.
    MalformedDefinition,
    /// A data record refers to a local message type that no definition has filled.
    UnknownLocalMessageType,
    /// The checksum that trails the records does not match the bytes before it.
    FileCrcMismatch,
}

/// A structural error together with the position in the buffer at which decoding stopped.
#[derive(Clone, Copy, Debug, PartialEq, Eq, Structural)]
pub struct FitError {
    pub kind: FitErrorKind,
    pub offset: usize,
}

/// The ways in which the profile tables can break the rules of the profile loader.
#[derive(Clone, Copy, Debug, PartialEq, Eq, Structural)]
pub enum SchemaErrorKind {
    /// The text is not a table: it cannot be cut into rows of cells.
    Table,
    /// A row has too few or too many cells.
    ColumnCount,
    /// A value or a field row comes before the first type or message.
    Orphan,
    /// A cell that must hold an unsigned number holds something else.
    Number,
    /// A value is too large for the base type of its type.
    ValueRange,
    /// The `array` cell is neither empty, nor `[N]`, nor `[k]` with a count `k` of at
    /// least one.
    Array,
    /// The `scale` cell holds something that is no positive decimal number.
    Scale,
    /// The `offset` cell holds something that is no signed number of sixteen bits.
    Offset,
    /// The `bits` cell holds something that is no unsigned number of eight bits.
    Bits,
    /// The `accumulate` cell holds something that is no unsigned number of eight bits.
    Accumulate,
    /// The `example` cell holds something that is no unsigned number of eight bits.
    Example,
    /// There are scales, but not one for each component.
    ComponentsScale,
    /// There are bit widths, but not one for each component.
    ComponentsBits,
    /// There are accumulate flags, but not one for each component.
    ComponentsAccumulate,
    /// The names and the values of the reference fields do not pair up.
    RefFields,
    /// A group of constants has a base type that is no unsigned integer type.
    BaseType,
}

/// A broken rule of the profile loader, together with the index of the row that breaks
/// it. The heading of a table is not counted: the first row below it has index zero.
#[derive(Clone, Copy, Debug, PartialEq, Eq, Structural)]
pub struct SchemaError {
    pub kind: SchemaErrorKind,
    pub row: usize,
}

} // verus!
