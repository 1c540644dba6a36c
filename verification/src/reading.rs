//! The shared shape of the line decoders: their error, and the trait that
//! both record kinds implement.

use vstd::prelude::*;

verus! {

/// Why a line could not be decoded.
///
/// Only header fields can fail a line; the repeating value slots degrade to
/// missing values instead.
#[derive(Clone, Copy, Debug, PartialEq, Eq, Structural)]
pub enum DecodeError {
    /// The header field at the named character range is missing or holds no
    /// number of the expected shape.
    MalformedRecord { from: usize, to: usize },
}

/// A record kind that can be decoded from one fixed-width line.
///
/// The contracts live on the inherent `from_line` and `is_valid` of each
/// implementing type; the trait only lets callers pick the kind generically.
pub trait Reading: Sized {
    /// Decodes one line; for monthly records the file name carries the
    /// dataset and element tags.
    fn from_line(line: &str, file_name: &str) -> Result<Self, DecodeError>;

    /// Whether the record's element is one that ingestion keeps.
    fn is_valid(&self) -> bool;
}

} // verus!
