//! ListProviders operation: lists the providers that the service offers.
use vstd::prelude::*;
verus! {

/// Native object for listing providers: it carries nothing.
#[derive(Copy, Clone, Debug, PartialEq, Eq)]
pub struct Operation;

/// Native object for the result of listing providers.
#[derive(Clone, Debug, PartialEq, Eq)]
pub struct Result {
    /// Identifiers of the providers, in the order the service gave them.
    pub providers: Vec<u8>,
}

} // verus!
