//! DestroyKey operation: destroys a key.
use vstd::prelude::*;
verus! {

/// Native object for destroying a key.
#[derive(Clone, Debug, PartialEq, Eq)]
pub struct Operation {
    /// Name of the key.
    pub key_name: String,
}

/// Native object for the result of destroying a key; the outcome travels in
/// the status of the response.
#[derive(Copy, Clone, Debug, PartialEq, Eq)]
pub struct Result;

} // verus!
