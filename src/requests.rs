//! Operation codes and the byte containers of requests and responses.
use vstd::prelude::*;

verus! {

/// The kinds of operation that the service knows.
#[derive(PartialEq, Eq, Structural, Clone, Copy, Debug, Hash)]
pub enum Opcode {
    Ping,
    PsaGenerateKey,
    PsaDestroyKey,
    PsaSignHash,
    PsaVerifyHash,
    PsaImportKey,
    PsaExportPublicKey,
    ListProviders,
    ListOpcodes,
}

/// How a body is encoded.
#[derive(PartialEq, Eq, Structural, Clone, Copy, Debug)]
pub enum BodyType {
    /// Numbered, length-delimited fields with varint keys.
    Protobuf,
}

pub open spec fn opcode_code(o: Opcode) -> u64 {
    match o {
        Opcode::Ping => 1,
        Opcode::PsaGenerateKey => 2,
        Opcode::PsaDestroyKey => 3,
        Opcode::PsaSignHash => 4,
        Opcode::PsaVerifyHash => 5,
        Opcode::PsaImportKey => 6,
        Opcode::PsaExportPublicKey => 7,
        Opcode::ListProviders => 8,
        Opcode::ListOpcodes => 9,
    }
}

pub open spec fn opcode_of_code(c: u64) -> Option<Opcode> {
    if c == 1 {
        Some(Opcode::Ping)
    } else if c == 2 {
        Some(Opcode::PsaGenerateKey)
    } else if c == 3 {
        Some(Opcode::PsaDestroyKey)
    } else if c == 4 {
        Some(Opcode::PsaSignHash)
    } else if c == 5 {
        Some(Opcode::PsaVerifyHash)
    } else if c == 6 {
        Some(Opcode::PsaImportKey)
    } else if c == 7 {
        Some(Opcode::PsaExportPublicKey)
    } else if c == 8 {
        Some(Opcode::ListProviders)
    } else if c == 9 {
        Some(Opcode::ListOpcodes)
    } else {
        None
    }
}

pub fn opcode_to_code(o: Opcode) -> (r: u64)
    ensures
        r == opcode_code(o),
{
    match o {
        Opcode::Ping => 1,
        Opcode::PsaGenerateKey => 2,
        Opcode::PsaDestroyKey => 3,
        Opcode::PsaSignHash => 4,
        Opcode::PsaVerifyHash => 5,
        Opcode::PsaImportKey => 6,
        Opcode::PsaExportPublicKey => 7,
        Opcode::ListProviders => 8,
        Opcode::ListOpcodes => 9,
    }
}

pub fn opcode_from_code(c: u64) -> (r: Option<Opcode>)
    ensures
        r == opcode_of_code(c),
{
    if c == 1 {
        Some(Opcode::Ping)
    } else if c == 2 {
        Some(Opcode::PsaGenerateKey)
    } else if c == 3 {
        Some(Opcode::PsaDestroyKey)
    } else if c == 4 {
        Some(Opcode::PsaSignHash)
    } else if c == 5 {
        Some(Opcode::PsaVerifyHash)
    } else if c == 6 {
        Some(Opcode::PsaImportKey)
    } else if c == 7 {
        Some(Opcode::PsaExportPublicKey)
    } else if c == 8 {
        Some(Opcode::ListProviders)
    } else if c == 9 {
        Some(Opcode::ListOpcodes)
    } else {
        None
    }
}

/// The body of a request: bytes with no structure until decoded.
#[derive(Clone, Debug, PartialEq, Eq)]
pub struct RequestBody {
    bytes: Vec<u8>,
}

impl View for RequestBody {
    type V = Seq<u8>;

    closed spec fn view(&self) -> Seq<u8> {
        self.bytes@
    }
}

impl RequestBody {
    pub fn from_bytes(bytes: Vec<u8>) -> (r: RequestBody)
        ensures
            r@ == bytes@,
    {
        RequestBody { bytes }
    }

    pub fn bytes(&self) -> (r: &[u8])
        ensures
            r@ == self@,
    {
        self.bytes.as_slice()
    }

    pub fn len(&self) -> (r: usize)
        ensures
            r == self@.len(),
    {
        self.bytes.len()
    }
}

/// The body of a response: bytes with no structure until decoded.
#[derive(Clone, Debug, PartialEq, Eq)]
pub struct ResponseBody {
    bytes: Vec<u8>,
}

impl View for ResponseBody {
    type V = Seq<u8>;

    closed spec fn view(&self) -> Seq<u8> {
        self.bytes@
    }
}

impl ResponseBody {
    pub fn from_bytes(bytes: Vec<u8>) -> (r: ResponseBody)
        ensures
            r@ == bytes@,
    {
        ResponseBody { bytes }
    }

    pub fn bytes(&self) -> (r: &[u8])
        ensures
            r@ == self@,
    {
        self.bytes.as_slice()
    }

    pub fn len(&self) -> (r: usize)
        ensures
            r == self@.len(),
    {
        self.bytes.len()
    }
}

} // verus!
