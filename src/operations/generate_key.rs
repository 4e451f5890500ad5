//! GenerateKey operation: generates a key or a key pair.
use vstd::prelude::*;
use crate::key_attributes::KeyAttributes;

verus! {

/// Native object for creating a cryptographic key.
#[derive(Clone, Debug, PartialEq, Eq)]
pub struct Operation {
    /// Name by which the service will identify the key; unique per
    /// application.
    pub key_name: String,
    /// Parameters to be associated with the key.
    pub attributes: KeyAttributes,
}

/// Native object for the result of creating a cryptographic key.
///
/// The true result is returned in the status of the response.
#[derive(Copy, Clone, Debug, PartialEq, Eq)]
pub struct Result;

} // verus!
