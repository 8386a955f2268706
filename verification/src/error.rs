//! The ways in which a byte buffer can fail to be a capture file.
use vstd::prelude::*;

verus! {

/// Why a buffer was rejected by the decoder.
#[derive(Debug, Clone, Copy, PartialEq, Eq, Structural)]
pub enum FormatError {
    /// The buffer does not start with the signature `<SALEAE>`.
    BadMagic,
    /// The version field is not `0`.
    UnsupportedVersion,
    /// The tag after the version names no known capture kind; it is carried
    /// here as it was read.
    UnknownVariant(u32),
    /// The buffer ends before the field that is being read does.
    Truncated,
}

/// The outcome of a decoder as the specifications speak of it: the decoded
/// value by its view, an error as it is.
pub open spec fn result_view<T: View>(r: Result<T, FormatError>) -> Result<T::V, FormatError> {
    match r {
        Ok(v) => Ok(v@),
        Err(e) => Err(e),
    }
}

} // verus!
