//! ImportKey operation: imports key material under a name.
use vstd::prelude::*;
use crate::key_attributes::KeyAttributes;

verus! {

/// Native object for importing a key.
#[derive(Clone, Debug, PartialEq, Eq)]
pub struct Operation {
    /// Name by which the service will identify the key.
    pub key_name: String,
    /// Parameters to be associated with the key.
    pub attributes: KeyAttributes,
    /// The key material.
    pub data: Vec<u8>,
}

/// Native object for the result of importing a key; the outcome travels in
/// the status of the response.
#[derive(Copy, Clone, Debug, PartialEq, Eq)]
pub struct Result;

} // verus!
