//! Statuses that a conversion reports.
use vstd::prelude::*;

verus! {

/// Why a conversion failed. Transport-level failures are told apart from the
/// rejection of a well-formed but illegal value.
#[derive(PartialEq, Eq, Structural, Clone, Copy, Debug)]
pub enum ResponseStatus {
    /// The bytes are not a well-formed body of the expected message.
    DeserializingBodyFailed,
    /// The encoder failed on a value.
    SerializingBodyFailed,
    /// A field holds a number that the native value cannot take.
    InvalidEncoding,
    /// An algorithm code is unknown or the algorithm does not fit its use.
    InvalidAlgorithm,
    /// Key attributes with a key type, size, usage or algorithm that do not
    /// go together.
    InvalidKeyAttributes,
    /// An empty key name.
    InvalidKeyName,
    /// A hash whose length is not the digest size of its algorithm.
    InvalidHashLength,
}

} // verus!
