//! The native model: one operation and one result type per opcode, gathered
//! in two tagged unions.
use vstd::prelude::*;
use crate::algorithm::Algorithm;
use crate::key_attributes::KeyAttributes;
use crate::requests::Opcode;

pub mod destroy_key;
pub mod export_public_key;
pub mod generate_key;
pub mod import_key;
pub mod list_opcodes;
pub mod list_providers;
pub mod ping;
pub mod sign_hash;
pub mod verify_hash;

verus! {

/// A native operation, one variant per opcode.
#[derive(Clone, Debug, PartialEq, Eq)]
pub enum NativeOperation {
    ListProviders(list_providers::Operation),
    ListOpcodes(list_opcodes::Operation),
    Ping(ping::Operation),
    PsaGenerateKey(generate_key::Operation),
    PsaImportKey(import_key::Operation),
    PsaExportPublicKey(export_public_key::Operation),
    PsaDestroyKey(destroy_key::Operation),
    PsaSignHash(sign_hash::Operation),
    PsaVerifyHash(verify_hash::Operation),
}

/// A native result, one variant per opcode.
#[derive(Clone, Debug, PartialEq, Eq)]
pub enum NativeResult {
    ListProviders(list_providers::Result),
    ListOpcodes(list_opcodes::Result),
    Ping(ping::Result),
    PsaGenerateKey(generate_key::Result),
    PsaImportKey(import_key::Result),
    PsaExportPublicKey(export_public_key::Result),
    PsaDestroyKey(destroy_key::Result),
    PsaSignHash(sign_hash::Result),
    PsaVerifyHash(verify_hash::Result),
}

/// The value of a native operation: names as characters, data as bytes.
pub enum OperationView {
    ListProviders,
    ListOpcodes { provider_id: u8 },
    Ping,
    GenerateKey { key_name: Seq<char>, attributes: KeyAttributes },
    ImportKey { key_name: Seq<char>, attributes: KeyAttributes, data: Seq<u8> },
    ExportPublicKey { key_name: Seq<char> },
    DestroyKey { key_name: Seq<char> },
    SignHash { key_name: Seq<char>, alg: Algorithm, hash: Seq<u8> },
    VerifyHash { key_name: Seq<char>, alg: Algorithm, hash: Seq<u8>, signature: Seq<u8> },
}

/// The value of a native result.
pub enum ResultView {
    ListProviders { providers: Seq<u8> },
    ListOpcodes { opcodes: Seq<Opcode> },
    Ping { maj: u8, min: u8 },
    GenerateKey,
    ImportKey,
    ExportPublicKey { data: Seq<u8> },
    DestroyKey,
    SignHash { signature: Seq<u8> },
    VerifyHash,
}

impl View for NativeOperation {
    type V = OperationView;

    open spec fn view(&self) -> OperationView {
        match self {
            NativeOperation::ListProviders(_) => OperationView::ListProviders,
            NativeOperation::ListOpcodes(o) => OperationView::ListOpcodes {
                provider_id: o.provider_id,
            },
            NativeOperation::Ping(_) => OperationView::Ping,
            NativeOperation::PsaGenerateKey(o) => OperationView::GenerateKey {
                key_name: o.key_name@,
                attributes: o.attributes,
            },
            NativeOperation::PsaImportKey(o) => OperationView::ImportKey {
                key_name: o.key_name@,
                attributes: o.attributes,
                data: o.data@,
            },
            NativeOperation::PsaExportPublicKey(o) => OperationView::ExportPublicKey {
                key_name: o.key_name@,
            },
            NativeOperation::PsaDestroyKey(o) => OperationView::DestroyKey {
                key_name: o.key_name@,
            },
            NativeOperation::PsaSignHash(o) => OperationView::SignHash {
                key_name: o.key_name@,
                alg: o.alg,
                hash: o.hash@,
            },
            NativeOperation::PsaVerifyHash(o) => OperationView::VerifyHash {
                key_name: o.key_name@,
                alg: o.alg,
                hash: o.hash@,
                signature: o.signature@,
            },
        }
    }
}

impl View for NativeResult {
    type V = ResultView;

    open spec fn view(&self) -> ResultView {
        match self {
            NativeResult::ListProviders(r) => ResultView::ListProviders { providers: r.providers@ },
            NativeResult::ListOpcodes(r) => ResultView::ListOpcodes { opcodes: r.opcodes@ },
            NativeResult::Ping(r) => ResultView::Ping {
                maj: r.wire_protocol_version_maj,
                min: r.wire_protocol_version_min,
            },
            NativeResult::PsaGenerateKey(_) => ResultView::GenerateKey,
            NativeResult::PsaImportKey(_) => ResultView::ImportKey,
            NativeResult::PsaExportPublicKey(r) => ResultView::ExportPublicKey { data: r.data@ },
            NativeResult::PsaDestroyKey(_) => ResultView::DestroyKey,
            NativeResult::PsaSignHash(r) => ResultView::SignHash { signature: r.signature@ },
            NativeResult::PsaVerifyHash(_) => ResultView::VerifyHash,
        }
    }
}

/// The opcode that a native operation belongs to.
pub open spec fn operation_opcode(o: OperationView) -> Opcode {
    match o {
        OperationView::ListProviders => Opcode::ListProviders,
        OperationView::ListOpcodes { .. } => Opcode::ListOpcodes,
        OperationView::Ping => Opcode::Ping,
        OperationView::GenerateKey { .. } => Opcode::PsaGenerateKey,
        OperationView::ImportKey { .. } => Opcode::PsaImportKey,
        OperationView::ExportPublicKey { .. } => Opcode::PsaExportPublicKey,
        OperationView::DestroyKey { .. } => Opcode::PsaDestroyKey,
        OperationView::SignHash { .. } => Opcode::PsaSignHash,
        OperationView::VerifyHash { .. } => Opcode::PsaVerifyHash,
    }
}

/// The opcode that a native result belongs to.
pub open spec fn result_opcode(r: ResultView) -> Opcode {
    match r {
        ResultView::ListProviders { .. } => Opcode::ListProviders,
        ResultView::ListOpcodes { .. } => Opcode::ListOpcodes,
        ResultView::Ping { .. } => Opcode::Ping,
        ResultView::GenerateKey => Opcode::PsaGenerateKey,
        ResultView::ImportKey => Opcode::PsaImportKey,
        ResultView::ExportPublicKey { .. } => Opcode::PsaExportPublicKey,
        ResultView::DestroyKey => Opcode::PsaDestroyKey,
        ResultView::SignHash { .. } => Opcode::PsaSignHash,
        ResultView::VerifyHash => Opcode::PsaVerifyHash,
    }
}

impl NativeOperation {
    pub fn opcode(&self) -> (r: Opcode)
        ensures
            r == operation_opcode(self@),
    {
        match self {
            NativeOperation::ListProviders(_) => Opcode::ListProviders,
            NativeOperation::ListOpcodes(_) => Opcode::ListOpcodes,
            NativeOperation::Ping(_) => Opcode::Ping,
            NativeOperation::PsaGenerateKey(_) => Opcode::PsaGenerateKey,
            NativeOperation::PsaImportKey(_) => Opcode::PsaImportKey,
            NativeOperation::PsaExportPublicKey(_) => Opcode::PsaExportPublicKey,
            NativeOperation::PsaDestroyKey(_) => Opcode::PsaDestroyKey,
            NativeOperation::PsaSignHash(_) => Opcode::PsaSignHash,
            NativeOperation::PsaVerifyHash(_) => Opcode::PsaVerifyHash,
        }
    }
}

impl NativeResult {
    pub fn opcode(&self) -> (r: Opcode)
        ensures
            r == result_opcode(self@),
    {
        match self {
            NativeResult::ListProviders(_) => Opcode::ListProviders,
            NativeResult::ListOpcodes(_) => Opcode::ListOpcodes,
            NativeResult::Ping(_) => Opcode::Ping,
            NativeResult::PsaGenerateKey(_) => Opcode::PsaGenerateKey,
            NativeResult::PsaImportKey(_) => Opcode::PsaImportKey,
            NativeResult::PsaExportPublicKey(_) => Opcode::PsaExportPublicKey,
            NativeResult::PsaDestroyKey(_) => Opcode::PsaDestroyKey,
            NativeResult::PsaSignHash(_) => Opcode::PsaSignHash,
            NativeResult::PsaVerifyHash(_) => Opcode::PsaVerifyHash,
        }
    }
}

} // verus!
