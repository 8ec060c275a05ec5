use vstd::prelude::*;

verus! {

/// Why a navigation step over the buffer was refused.
#[derive(Clone, Copy, Debug, PartialEq, Eq, Structural)]
pub enum ElfError {
    /// The buffer is shorter than the structure that was asked for.
    Truncated,
    /// The first four bytes are not the ELF signature.
    BadMagic,
    /// An offset/count pair of the file reaches past the end of the buffer.
    OutOfBounds,
    /// A section's declared entry size differs from the record asked for.
    EntrySizeMismatch,
    /// A section's size is not a whole number of the records asked for.
    UnevenSize,
    /// Name resolution was asked of a section that is not a string table.
    NotStringTable,
    /// A name offset lies past the end of its string table.
    NameOutOfRange,
    /// The bytes of a name are not valid UTF-8.
    BadText,
    /// The section-name string table index is not below the section count.
    BadSectionIndex,
}

} // verus!
