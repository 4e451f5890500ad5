//! SignHash operation: signs a hash with a key.
use vstd::prelude::*;
use crate::algorithm::Algorithm;

verus! {

/// Native object for signing a hash.
#[derive(Clone, Debug, PartialEq, Eq)]
pub struct Operation {
    /// Name of the key.
    pub key_name: String,
    /// The signature algorithm.
    pub alg: Algorithm,
    /// The hash to sign; as long as the digest of the algorithm's hash.
    pub hash: Vec<u8>,
}

/// Native object for the result of signing a hash.
#[derive(Clone, Debug, PartialEq, Eq)]
pub struct Result {
    /// The signature.
    pub signature: Vec<u8>,
}

} // verus!
