//! ExportPublicKey operation: exports the public part of a key.
use vstd::prelude::*;
verus! {

/// Native object for exporting a public key.
#[derive(Clone, Debug, PartialEq, Eq)]
pub struct Operation {
    /// Name of the key.
    pub key_name: String,
}

/// Native object for the result of exporting a public key.
#[derive(Clone, Debug, PartialEq, Eq)]
pub struct Result {
    /// The public key material.
    pub data: Vec<u8>,
}

} // verus!
