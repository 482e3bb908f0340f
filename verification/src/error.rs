//! Failure conditions of the decoding pipeline.

use vstd::prelude::*;

verus! {

/// Everything that can go wrong while decoding a dBASE III+ byte stream.
///
/// `EndOfStream` is a sentinel: the record iterator absorbs it into clean
/// termination and never hands it to the caller.
#[derive(Clone, Copy, Debug, PartialEq, Eq, Structural)]
pub enum DbfError {
    /// The format-type tag (low three bits of the first header byte) is not
    /// in the known enumeration; carries the offending tag.
    Format(u8),
    /// The format-type tag is recognized but not a dBASE III+ variant;
    /// carries the offending tag.
    UnsupportedFormat(u8),
    /// A field descriptor's 11-byte name slot holds no NUL terminator.
    MalformedDescriptor,
    /// Bytes of a strictly decoded field (or of a descriptor name) are not
    /// valid text.
    Encoding,
    /// A field descriptor's type tag is not one of the six known tags;
    /// carries the offending tag.
    UnsupportedFieldType(char),
    /// The stream ended in the middle of a unit that had begun: a header or
    /// descriptor shorter than 32 bytes, or a record cut mid-field.
    Stream,
    /// The stream ended exactly at a record boundary.
    EndOfStream,
}

} // verus!
