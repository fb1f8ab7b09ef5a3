//! The ways in which decoding a database can fail.

use vstd::prelude::*;

verus! {

/// Why a decode stopped. Every error is final: the format has no point at
/// which reading could resume, so the cursor is useless afterwards.
#[derive(Clone, Copy, Debug, PartialEq, Eq, Structural)]
pub enum EixError {
    /// The bytes ended in the middle of a field.
    Truncated,
    /// The stream does not start with the marker of an eix database.
    BadMagic,
    /// The database is older than the oldest version the caller accepts.
    UnsupportedVersion,
    /// A text field is not valid UTF-8.
    InvalidEncoding,
    /// An index points past the end of a string table or of the overlay list.
    BadReference,
}

} // verus!
