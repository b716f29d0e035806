use vstd::prelude::*;

verus! {

/// Why a decode stopped. Every failure ends the whole parse.
#[derive(Clone, Copy, Debug, PartialEq, Eq, Structural)]
pub enum ParseError {
    /// Fewer bytes were left than a read, a declared length or the padding
    /// behind a payload needs.
    UnexpectedEof,
    /// A constant that the format fixes had another value: the tags `FOR1`
    /// and `BEAM` of the container, the magic word and the format word of a
    /// code chunk.
    MalformedMagic,
    /// A chunk tag outside the recognized set; also bytes that are left over
    /// in the payload of a table behind its last record.
    UnknownChunkTag,
    /// An opcode of 0, above the ceiling that the chunk declares, or outside
    /// the instruction set; also an allocation kind that stands for nothing,
    /// a float or an allocation list where an integer is due, and a `label`
    /// instruction whose operand is not an integer under `U`.
    UnknownOpcode,
    /// A block was to be closed under a label that has a block already.
    DuplicateLabel,
    /// The literal table did not inflate, or not to its declared size.
    CorruptLiteralTable,
    /// An integer's magnitude is longer than eight bytes; also a length that
    /// is given by a length, and an alias of an alias.
    IntegerTooWide,
}

} // verus!
