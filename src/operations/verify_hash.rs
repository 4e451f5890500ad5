//! VerifyHash operation: verifies a signature of a hash.
use vstd::prelude::*;
use crate::algorithm::Algorithm;

verus! {

/// Native object for verifying a signature.
#[derive(Clone, Debug, PartialEq, Eq)]
pub struct Operation {
    /// Name of the key.
    pub key_name: String,
    /// The signature algorithm.
    pub alg: Algorithm,
    /// The hash that was signed; as long as the digest of the algorithm's
    /// hash.
    pub hash: Vec<u8>,
    /// The signature to check.
    pub signature: Vec<u8>,
}

/// Native object for the result of verifying a signature; the outcome
/// travels in the status of the response.
#[derive(Copy, Clone, Debug, PartialEq, Eq)]
pub struct Result;

} // verus!
