//! ListOpcodes operation: lists the operations that a provider supports.
use vstd::prelude::*;
use crate::requests::Opcode;

verus! {

/// Native object for listing the opcodes of a provider.
#[derive(Copy, Clone, Debug, PartialEq, Eq)]
pub struct Operation {
    /// The provider asked about.
    pub provider_id: u8,
}

/// Native object for the result of listing opcodes.
#[derive(Clone, Debug, PartialEq, Eq)]
pub struct Result {
    /// The operations that the provider supports.
    pub opcodes: Vec<Opcode>,
}

} // verus!
