//! Per-operation conversions between decoded fields and native values: the
//! schema of each message, and the validation that decides which wire values
//! are legal native ones.
use vstd::prelude::*;
use vstd::slice::slice_to_vec;
use vstd::utf8::{decode_utf8, encode_utf8, encode_utf8_decode_utf8, encode_utf8_valid_utf8, valid_utf8};
use crate::algorithm::{
    alg_code, alg_of_code, algorithm_from_code, algorithm_to_code, digest_len, hash_len,
    is_sign_alg, Algorithm,
};
use crate::fields::{
    field_bytes, field_int, field_ints, get_bytes, get_int, get_ints, lemma_repeated, lemma_single,
    repeated_ints,
};
use crate::key_attributes::{
    attributes_valid, int_field, key_attributes_fields, key_attributes_from_fields,
    key_attributes_of_fields, key_attributes_to_fields, lemma_key_attributes_decode,
    validate_key_attributes, KeyAttributes,
};
use crate::operations::{
    destroy_key, export_public_key, generate_key, import_key, list_opcodes, list_providers, ping,
    operation_opcode, result_opcode, sign_hash, verify_hash, NativeOperation, NativeResult,
    OperationView, ResultView,
};
use crate::requests::{opcode_code, opcode_from_code, opcode_of_code, opcode_to_code, Opcode};
use crate::status::ResponseStatus;
use crate::wire::{
    decode_message, encode_fields, encode_message, fields_ok, fields_view, lemma_fields_round_trip,
    parse_fields, WField,
    WVal, WireField, WireValue,
};

verus! {

pub open spec fn bytes_field(n: u32, b: Seq<u8>) -> WField {
    WField { num: n, val: WVal::Bytes(b) }
}

pub open spec fn text_field(n: u32, s: Seq<char>) -> WField {
    bytes_field(n, encode_utf8(s))
}

/// The text in field `n`; `None` when the field is malformed or not UTF-8.
pub open spec fn get_text(fs: Seq<WField>, n: u32) -> Option<Seq<char>> {
    match get_bytes(fs, n) {
        Some(b) => if valid_utf8(b) {
            Some(decode_utf8(b))
        } else {
            None
        },
        None => None,
    }
}

/// The fields of the message nested in field `n`.
pub open spec fn get_nested(fs: Seq<WField>, n: u32) -> Option<Seq<WField>> {
    match get_bytes(fs, n) {
        Some(b) => parse_fields(b),
        None => None,
    }
}

/// The hash that a signature algorithm signs.
pub open spec fn sign_digest_len(a: Algorithm) -> nat {
    match a {
        Algorithm::RsaPkcs1v15Sign(h) => digest_len(h),
        Algorithm::Ecdsa(h) => digest_len(h),
        _ => 0,
    }
}

/// The first rule that a native operation breaks, if any: its key attributes,
/// then its algorithm, then its hash length, then its key name.
pub open spec fn operation_check(o: OperationView) -> Option<ResponseStatus> {
    match o {
        OperationView::GenerateKey { key_name, attributes } => if !attributes_valid(attributes) {
            Some(ResponseStatus::InvalidKeyAttributes)
        } else if key_name.len() == 0 {
            Some(ResponseStatus::InvalidKeyName)
        } else {
            None
        },
        OperationView::ImportKey { key_name, attributes, .. } => if !attributes_valid(attributes) {
            Some(ResponseStatus::InvalidKeyAttributes)
        } else if key_name.len() == 0 {
            Some(ResponseStatus::InvalidKeyName)
        } else {
            None
        },
        OperationView::ExportPublicKey { key_name } => if key_name.len() == 0 {
            Some(ResponseStatus::InvalidKeyName)
        } else {
            None
        },
        OperationView::DestroyKey { key_name } => if key_name.len() == 0 {
            Some(ResponseStatus::InvalidKeyName)
        } else {
            None
        },
        OperationView::SignHash { key_name, alg, hash } => sign_check(key_name, alg, hash),
        OperationView::VerifyHash { key_name, alg, hash, .. } => sign_check(key_name, alg, hash),
        _ => None,
    }
}

pub open spec fn sign_check(key_name: Seq<char>, alg: Algorithm, hash: Seq<u8>) -> Option<
    ResponseStatus,
> {
    if !is_sign_alg(alg) {
        Some(ResponseStatus::InvalidAlgorithm)
    } else if hash.len() != sign_digest_len(alg) {
        Some(ResponseStatus::InvalidHashLength)
    } else if key_name.len() == 0 {
        Some(ResponseStatus::InvalidKeyName)
    } else {
        None
    }
}

pub open spec fn checked(o: OperationView) -> Result<OperationView, ResponseStatus> {
    match operation_check(o) {
        Some(e) => Err(e),
        None => Ok(o),
    }
}

/// The fields of the wire message of an operation.
pub open spec fn operation_fields(o: OperationView) -> Seq<WField> {
    match o {
        OperationView::ListProviders => seq![],
        OperationView::Ping => seq![],
        OperationView::ListOpcodes { provider_id } => seq![int_field(1, provider_id as u64)],
        OperationView::GenerateKey { key_name, attributes } => seq![
            text_field(1, key_name),
            bytes_field(2, encode_fields(key_attributes_fields(attributes))),
        ],
        OperationView::ImportKey { key_name, attributes, data } => seq![
            text_field(1, key_name),
            bytes_field(2, encode_fields(key_attributes_fields(attributes))),
            bytes_field(3, data),
        ],
        OperationView::ExportPublicKey { key_name } => seq![text_field(1, key_name)],
        OperationView::DestroyKey { key_name } => seq![text_field(1, key_name)],
        OperationView::SignHash { key_name, alg, hash } => seq![
            text_field(1, key_name),
            int_field(2, alg_code(alg)),
            bytes_field(3, hash),
        ],
        OperationView::VerifyHash { key_name, alg, hash, signature } => seq![
            text_field(1, key_name),
            int_field(2, alg_code(alg)),
            bytes_field(3, hash),
            bytes_field(4, signature),
        ],
    }
}

/// The operation of kind `opcode` that the fields spell. Malformed fields of
/// the message fail it first with `DeserializingBodyFailed`; unknown fields
/// are ignored; then codes are read and the value validated.
pub open spec fn operation_of_fields(opcode: Opcode, fs: Seq<WField>) -> Result<
    OperationView,
    ResponseStatus,
> {
    let deser = Err(ResponseStatus::DeserializingBodyFailed);
    match opcode {
        Opcode::ListProviders => Ok(OperationView::ListProviders),
        Opcode::Ping => Ok(OperationView::Ping),
        Opcode::ListOpcodes => match get_int(fs, 1) {
            Some(p) => if p > 255 {
                Err(ResponseStatus::InvalidEncoding)
            } else {
                Ok(OperationView::ListOpcodes { provider_id: p as u8 })
            },
            None => deser,
        },
        Opcode::PsaGenerateKey => match (get_text(fs, 1), get_nested(fs, 2)) {
            (Some(key_name), Some(afs)) => match key_attributes_of_fields(afs) {
                Ok(attributes) => checked(OperationView::GenerateKey { key_name, attributes }),
                Err(e) => Err(e),
            },
            _ => deser,
        },
        Opcode::PsaImportKey => match (get_text(fs, 1), get_nested(fs, 2), get_bytes(fs, 3)) {
            (Some(key_name), Some(afs), Some(data)) => match key_attributes_of_fields(afs) {
                Ok(attributes) => checked(
                    OperationView::ImportKey { key_name, attributes, data },
                ),
                Err(e) => Err(e),
            },
            _ => deser,
        },
        Opcode::PsaExportPublicKey => match get_text(fs, 1) {
            Some(key_name) => checked(OperationView::ExportPublicKey { key_name }),
            None => deser,
        },
        Opcode::PsaDestroyKey => match get_text(fs, 1) {
            Some(key_name) => checked(OperationView::DestroyKey { key_name }),
            None => deser,
        },
        Opcode::PsaSignHash => match (get_text(fs, 1), get_int(fs, 2), get_bytes(fs, 3)) {
            (Some(key_name), Some(code), Some(hash)) => match alg_of_code(code) {
                Some(alg) => checked(OperationView::SignHash { key_name, alg, hash }),
                None => Err(ResponseStatus::InvalidAlgorithm),
            },
            _ => deser,
        },
        Opcode::PsaVerifyHash => match (
            get_text(fs, 1),
            get_int(fs, 2),
            get_bytes(fs, 3),
            get_bytes(fs, 4),
        ) {
            (Some(key_name), Some(code), Some(hash), Some(signature)) => match alg_of_code(code) {
                Some(alg) => checked(OperationView::VerifyHash { key_name, alg, hash, signature }),
                None => Err(ResponseStatus::InvalidAlgorithm),
            },
            _ => deser,
        },
    }
}

/// The fields of the wire message of a result.
pub open spec fn result_fields(r: ResultView) -> Seq<WField> {
    match r {
        ResultView::ListProviders { providers } => repeated_ints(
            1,
            providers.map_values(|p: u8| p as u64),
        ),
        ResultView::ListOpcodes { opcodes } => repeated_ints(
            1,
            opcodes.map_values(|o: Opcode| opcode_code(o)),
        ),
        ResultView::Ping { maj, min } => seq![int_field(1, maj as u64), int_field(2, min as u64)],
        ResultView::ExportPublicKey { data } => seq![bytes_field(1, data)],
        ResultView::SignHash { signature } => seq![bytes_field(1, signature)],
        _ => seq![],
    }
}

/// The result of kind `opcode` that the fields spell: malformed fields fail
/// it with `DeserializingBodyFailed`, numbers out of the native range with
/// `InvalidEncoding`.
pub open spec fn result_of_fields(opcode: Opcode, fs: Seq<WField>) -> Result<
    ResultView,
    ResponseStatus,
> {
    let deser = Err(ResponseStatus::DeserializingBodyFailed);
    match opcode {
        Opcode::ListProviders => match get_ints(fs, 1) {
            Some(vs) => if exists|i: int| 0 <= i < vs.len() && #[trigger] vs[i] > 255 {
                Err(ResponseStatus::InvalidEncoding)
            } else {
                Ok(ResultView::ListProviders { providers: vs.map_values(|v: u64| v as u8) })
            },
            None => deser,
        },
        Opcode::ListOpcodes => match get_ints(fs, 1) {
            Some(vs) => if exists|i: int|
                0 <= i < vs.len() && (#[trigger] opcode_of_code(vs[i])) is None {
                Err(ResponseStatus::InvalidEncoding)
            } else {
                Ok(
                    ResultView::ListOpcodes {
                        opcodes: vs.map_values(|v: u64| opcode_of_code(v).unwrap()),
                    },
                )
            },
            None => deser,
        },
        Opcode::Ping => match (get_int(fs, 1), get_int(fs, 2)) {
            (Some(maj), Some(min)) => if maj > 255 || min > 255 {
                Err(ResponseStatus::InvalidEncoding)
            } else {
                Ok(ResultView::Ping { maj: maj as u8, min: min as u8 })
            },
            _ => deser,
        },
        Opcode::PsaGenerateKey => Ok(ResultView::GenerateKey),
        Opcode::PsaImportKey => Ok(ResultView::ImportKey),
        Opcode::PsaDestroyKey => Ok(ResultView::DestroyKey),
        Opcode::PsaVerifyHash => Ok(ResultView::VerifyHash),
        Opcode::PsaExportPublicKey => match get_bytes(fs, 1) {
            Some(data) => Ok(ResultView::ExportPublicKey { data }),
            None => deser,
        },
        Opcode::PsaSignHash => match get_bytes(fs, 1) {
            Some(signature) => Ok(ResultView::SignHash { signature }),
            None => deser,
        },
    }
}


/// How a decoded operation stands against its specification value.
pub open spec fn operation_matches(
    r: Result<NativeOperation, ResponseStatus>,
    s: Result<OperationView, ResponseStatus>,
) -> bool {
    match r {
        Ok(x) => s == Ok::<OperationView, ResponseStatus>(x@),
        Err(e) => s == Err::<OperationView, ResponseStatus>(e),
    }
}

/// How a decoded result stands against its specification value.
pub open spec fn result_matches(
    r: Result<NativeResult, ResponseStatus>,
    s: Result<ResultView, ResponseStatus>,
) -> bool {
    match r {
        Ok(x) => s == Ok::<ResultView, ResponseStatus>(x@),
        Err(e) => s == Err::<ResultView, ResponseStatus>(e),
    }
}

/// Relies on std::str::from_utf8: it accepts exactly the valid UTF-8 byte
/// sequences, and the text it gives has those bytes.
#[verifier::external_body]
fn utf8_to_string(b: &[u8]) -> (r: Option<String>)
    ensures
        valid_utf8(b@) <==> r is Some,
        r matches Some(s) ==> s@ == decode_utf8(b@),
{
    match std::str::from_utf8(b) {
        Ok(s) => Some(s.to_string()),
        Err(_) => None,
    }
}

fn owned_bytes_field(n: u32, b: Vec<u8>) -> (r: WireField)
    ensures
        r@ == bytes_field(n, b@),
        b@.len() < 0x1_0000_0000_0000_0000,
{
    assert(b@.len() == b.len());
    WireField { number: n, value: WireValue::Bytes(b) }
}

fn data_field(n: u32, b: &Vec<u8>) -> (r: WireField)
    ensures
        r@ == bytes_field(n, b@),
        b@.len() < 0x1_0000_0000_0000_0000,
{
    owned_bytes_field(n, slice_to_vec(b.as_slice()))
}

fn name_field(n: u32, s: &String) -> (r: WireField)
    ensures
        r@ == text_field(n, s@),
        encode_utf8(s@).len() < 0x1_0000_0000_0000_0000,
{
    owned_bytes_field(n, slice_to_vec(s.as_str().as_bytes()))
}

fn int_wire_field(n: u32, v: u64) -> (r: WireField)
    ensures
        r@ == int_field(n, v),
{
    WireField { number: n, value: WireValue::Varint(v) }
}

fn text_from(fs: &Vec<WireField>, n: u32) -> (r: Option<String>)
    ensures
        match get_text(fields_view(fs@), n) {
            Some(t) => r is Some && r.unwrap()@ == t,
            None => r is None,
        },
{
    match field_bytes(fs, n) {
        Some(b) => utf8_to_string(b.as_slice()),
        None => None,
    }
}

fn nested_from(fs: &Vec<WireField>, n: u32) -> (r: Option<Vec<WireField>>)
    ensures
        match get_nested(fields_view(fs@), n) {
            Some(inner) => r is Some && fields_view(r.unwrap()@) == inner,
            None => r is None,
        },
{
    match field_bytes(fs, n) {
        Some(b) => decode_message(b.as_slice()),
        None => None,
    }
}

fn key_name_empty(s: &String) -> (r: bool)
    ensures
        r == (s@.len() == 0),
{
    s.as_str().is_empty()
}

fn check_sign(key_name: &String, alg: Algorithm, hash: &Vec<u8>) -> (r: Option<ResponseStatus>)
    ensures
        r == sign_check(key_name@, alg, hash@),
{
    let digest = match alg {
        Algorithm::RsaPkcs1v15Sign(h) => hash_len(h),
        Algorithm::Ecdsa(h) => hash_len(h),
        _ => {
            return Some(ResponseStatus::InvalidAlgorithm);
        },
    };
    if hash.len() != digest {
        Some(ResponseStatus::InvalidHashLength)
    } else if key_name_empty(key_name) {
        Some(ResponseStatus::InvalidKeyName)
    } else {
        None
    }
}

/// The first rule that a native operation breaks, if any.
pub fn check_operation(op: &NativeOperation) -> (r: Option<ResponseStatus>)
    ensures
        r == operation_check(op@),
{
    match op {
        NativeOperation::PsaGenerateKey(o) => if !validate_key_attributes(&o.attributes) {
            Some(ResponseStatus::InvalidKeyAttributes)
        } else if key_name_empty(&o.key_name) {
            Some(ResponseStatus::InvalidKeyName)
        } else {
            None
        },
        NativeOperation::PsaImportKey(o) => if !validate_key_attributes(&o.attributes) {
            Some(ResponseStatus::InvalidKeyAttributes)
        } else if key_name_empty(&o.key_name) {
            Some(ResponseStatus::InvalidKeyName)
        } else {
            None
        },
        NativeOperation::PsaExportPublicKey(o) => if key_name_empty(&o.key_name) {
            Some(ResponseStatus::InvalidKeyName)
        } else {
            None
        },
        NativeOperation::PsaDestroyKey(o) => if key_name_empty(&o.key_name) {
            Some(ResponseStatus::InvalidKeyName)
        } else {
            None
        },
        NativeOperation::PsaSignHash(o) => check_sign(&o.key_name, o.alg, &o.hash),
        NativeOperation::PsaVerifyHash(o) => check_sign(&o.key_name, o.alg, &o.hash),
        _ => None,
    }
}

fn checked_operation(op: NativeOperation) -> (r: Result<NativeOperation, ResponseStatus>)
    ensures
        operation_matches(r, checked(op@)),
{
    match check_operation(&op) {
        Some(e) => Err(e),
        None => Ok(op),
    }
}

fn attributes_bytes(a: &KeyAttributes) -> (r: Vec<u8>)
    ensures
        r@ == encode_fields(key_attributes_fields(*a)),
{
    encode_message(&key_attributes_to_fields(a))
}

/// The fields of the wire message of an operation.
pub fn operation_to_fields(op: &NativeOperation) -> (r: Vec<WireField>)
    ensures
        fields_view(r@) == operation_fields(op@),
        fields_ok(fields_view(r@)),
{
    let mut r: Vec<WireField> = Vec::new();
    match op {
        NativeOperation::ListProviders(_) => {},
        NativeOperation::Ping(_) => {},
        NativeOperation::ListOpcodes(o) => {
            r.push(int_wire_field(1, o.provider_id as u64));
        },
        NativeOperation::PsaGenerateKey(o) => {
            r.push(name_field(1, &o.key_name));
            r.push(owned_bytes_field(2, attributes_bytes(&o.attributes)));
        },
        NativeOperation::PsaImportKey(o) => {
            r.push(name_field(1, &o.key_name));
            r.push(owned_bytes_field(2, attributes_bytes(&o.attributes)));
            r.push(data_field(3, &o.data));
        },
        NativeOperation::PsaExportPublicKey(o) => {
            r.push(name_field(1, &o.key_name));
        },
        NativeOperation::PsaDestroyKey(o) => {
            r.push(name_field(1, &o.key_name));
        },
        NativeOperation::PsaSignHash(o) => {
            r.push(name_field(1, &o.key_name));
            r.push(int_wire_field(2, algorithm_to_code(o.alg)));
            r.push(data_field(3, &o.hash));
        },
        NativeOperation::PsaVerifyHash(o) => {
            r.push(name_field(1, &o.key_name));
            r.push(int_wire_field(2, algorithm_to_code(o.alg)));
            r.push(data_field(3, &o.hash));
            r.push(data_field(4, &o.signature));
        },
    }
    assert(fields_view(r@) =~= operation_fields(op@));
    r
}


/// Reads the operation of kind `opcode` from the fields of its message.
pub fn operation_from_fields(opcode: Opcode, fs: &Vec<WireField>) -> (r: Result<
    NativeOperation,
    ResponseStatus,
>)
    ensures
        operation_matches(r, operation_of_fields(opcode, fields_view(fs@))),
{
    let deser = ResponseStatus::DeserializingBodyFailed;
    match opcode {
        Opcode::ListProviders => Ok(NativeOperation::ListProviders(list_providers::Operation)),
        Opcode::Ping => Ok(NativeOperation::Ping(ping::Operation)),
        Opcode::ListOpcodes => match field_int(fs, 1) {
            Some(p) => if p > 255 {
                Err(ResponseStatus::InvalidEncoding)
            } else {
                Ok(NativeOperation::ListOpcodes(list_opcodes::Operation { provider_id: p as u8 }))
            },
            None => Err(deser),
        },
        Opcode::PsaGenerateKey => {
            let key_name = text_from(fs, 1);
            let inner = nested_from(fs, 2);
            match (key_name, inner) {
                (Some(key_name), Some(inner)) => match key_attributes_from_fields(&inner) {
                    Ok(attributes) => checked_operation(
                        NativeOperation::PsaGenerateKey(
                            generate_key::Operation { key_name, attributes },
                        ),
                    ),
                    Err(e) => Err(e),
                },
                _ => Err(deser),
            }
        },
        Opcode::PsaImportKey => {
            let key_name = text_from(fs, 1);
            let inner = nested_from(fs, 2);
            let data = field_bytes(fs, 3);
            match (key_name, inner, data) {
                (Some(key_name), Some(inner), Some(data)) => match key_attributes_from_fields(
                    &inner,
                ) {
                    Ok(attributes) => checked_operation(
                        NativeOperation::PsaImportKey(
                            import_key::Operation { key_name, attributes, data },
                        ),
                    ),
                    Err(e) => Err(e),
                },
                _ => Err(deser),
            }
        },
        Opcode::PsaExportPublicKey => match text_from(fs, 1) {
            Some(key_name) => checked_operation(
                NativeOperation::PsaExportPublicKey(export_public_key::Operation { key_name }),
            ),
            None => Err(deser),
        },
        Opcode::PsaDestroyKey => match text_from(fs, 1) {
            Some(key_name) => checked_operation(
                NativeOperation::PsaDestroyKey(destroy_key::Operation { key_name }),
            ),
            None => Err(deser),
        },
        Opcode::PsaSignHash => {
            let key_name = text_from(fs, 1);
            let code = field_int(fs, 2);
            let hash = field_bytes(fs, 3);
            match (key_name, code, hash) {
                (Some(key_name), Some(code), Some(hash)) => match algorithm_from_code(code) {
                    Ok(alg) => checked_operation(
                        NativeOperation::PsaSignHash(sign_hash::Operation { key_name, alg, hash }),
                    ),
                    Err(e) => Err(e),
                },
                _ => Err(deser),
            }
        },
        Opcode::PsaVerifyHash => {
            let key_name = text_from(fs, 1);
            let code = field_int(fs, 2);
            let hash = field_bytes(fs, 3);
            let signature = field_bytes(fs, 4);
            match (key_name, code, hash, signature) {
                (Some(key_name), Some(code), Some(hash), Some(signature)) => match algorithm_from_code(
                    code,
                ) {
                    Ok(alg) => checked_operation(
                        NativeOperation::PsaVerifyHash(
                            verify_hash::Operation { key_name, alg, hash, signature },
                        ),
                    ),
                    Err(e) => Err(e),
                },
                _ => Err(deser),
            }
        },
    }
}


fn ints_to_fields(vs: &Vec<u64>) -> (r: Vec<WireField>)
    ensures
        fields_view(r@) == repeated_ints(1, vs@),
        fields_ok(fields_view(r@)),
{
    let mut r: Vec<WireField> = Vec::new();
    let mut i: usize = 0;
    while i < vs.len()
        invariant
            i <= vs@.len(),
            fields_view(r@) == repeated_ints(1, vs@.take(i as int)),
        decreases vs@.len() - i,
    {
        let ghost prev = fields_view(r@);
        let f = int_wire_field(1, vs[i]);
        r.push(f);
        assert(fields_view(r@) =~= prev.push(f@));
        assert(repeated_ints(1, vs@.take(i + 1)) =~= repeated_ints(1, vs@.take(i as int)).push(f@));
        i = i + 1;
    }
    assert(vs@.take(vs@.len() as int) =~= vs@);
    r
}

/// The fields of the wire message of a result.
pub fn result_to_fields(res: &NativeResult) -> (r: Vec<WireField>)
    ensures
        fields_view(r@) == result_fields(res@),
        fields_ok(fields_view(r@)),
{
    let mut r: Vec<WireField> = Vec::new();
    match res {
        NativeResult::ListProviders(x) => {
            let mut vs: Vec<u64> = Vec::new();
            let mut i: usize = 0;
            while i < x.providers.len()
                invariant
                    i <= x.providers@.len(),
                    vs@ == x.providers@.take(i as int).map_values(|p: u8| p as u64),
                decreases x.providers@.len() - i,
            {
                vs.push(x.providers[i] as u64);
                i = i + 1;
                assert(vs@ =~= x.providers@.take(i as int).map_values(|p: u8| p as u64));
            }
            assert(x.providers@.take(i as int) =~= x.providers@);
            r = ints_to_fields(&vs);
        },
        NativeResult::ListOpcodes(x) => {
            let mut vs: Vec<u64> = Vec::new();
            let mut i: usize = 0;
            while i < x.opcodes.len()
                invariant
                    i <= x.opcodes@.len(),
                    vs@ == x.opcodes@.take(i as int).map_values(|o: Opcode| opcode_code(o)),
                decreases x.opcodes@.len() - i,
            {
                vs.push(opcode_to_code(x.opcodes[i]));
                i = i + 1;
                assert(vs@ =~= x.opcodes@.take(i as int).map_values(|o: Opcode| opcode_code(o)));
            }
            assert(x.opcodes@.take(i as int) =~= x.opcodes@);
            r = ints_to_fields(&vs);
        },
        NativeResult::Ping(x) => {
            r.push(int_wire_field(1, x.wire_protocol_version_maj as u64));
            r.push(int_wire_field(2, x.wire_protocol_version_min as u64));
        },
        NativeResult::PsaExportPublicKey(x) => {
            r.push(data_field(1, &x.data));
        },
        NativeResult::PsaSignHash(x) => {
            r.push(data_field(1, &x.signature));
        },
        _ => {},
    }
    assert(fields_view(r@) =~= result_fields(res@));
    r
}

/// Reads the result of kind `opcode` from the fields of its message.
pub fn result_from_fields(opcode: Opcode, fs: &Vec<WireField>) -> (r: Result<
    NativeResult,
    ResponseStatus,
>)
    ensures
        result_matches(r, result_of_fields(opcode, fields_view(fs@))),
{
    let deser = ResponseStatus::DeserializingBodyFailed;
    match opcode {
        Opcode::ListProviders => match field_ints(fs, 1) {
            Some(vs) => {
                let mut providers: Vec<u8> = Vec::new();
                let mut i: usize = 0;
                while i < vs.len()
                    invariant
                        i <= vs@.len(),
                        get_ints(fields_view(fs@), 1) == Some(vs@),
                        opcode == Opcode::ListProviders,
                        forall|j: int| 0 <= j < i ==> vs@[j] <= 255,
                        providers@ == vs@.take(i as int).map_values(|v: u64| v as u8),
                    decreases vs@.len() - i,
                {
                    if vs[i] > 255 {
                        assert(vs@[i as int] > 255);
                        return Err(ResponseStatus::InvalidEncoding);
                    }
                    providers.push(vs[i] as u8);
                    i = i + 1;
                    assert(providers@ =~= vs@.take(i as int).map_values(|v: u64| v as u8));
                }
                assert(vs@.take(i as int) =~= vs@);
                Ok(NativeResult::ListProviders(list_providers::Result { providers }))
            },
            None => Err(deser),
        },
        Opcode::ListOpcodes => match field_ints(fs, 1) {
            Some(vs) => {
                let mut opcodes: Vec<Opcode> = Vec::new();
                let mut i: usize = 0;
                while i < vs.len()
                    invariant
                        i <= vs@.len(),
                        get_ints(fields_view(fs@), 1) == Some(vs@),
                        opcode == Opcode::ListOpcodes,
                        forall|j: int| 0 <= j < i ==> (#[trigger] opcode_of_code(vs@[j])) is Some,
                        opcodes@ == vs@.take(i as int).map_values(
                            |v: u64| opcode_of_code(v).unwrap(),
                        ),
                    decreases vs@.len() - i,
                {
                    match opcode_from_code(vs[i]) {
                        Some(o) => opcodes.push(o),
                        None => {
                            assert(opcode_of_code(vs@[i as int]) is None);
                            return Err(ResponseStatus::InvalidEncoding);
                        },
                    }
                    i = i + 1;
                    assert(opcodes@ =~= vs@.take(i as int).map_values(
                        |v: u64| opcode_of_code(v).unwrap(),
                    ));
                }
                assert(vs@.take(i as int) =~= vs@);
                Ok(NativeResult::ListOpcodes(list_opcodes::Result { opcodes }))
            },
            None => Err(deser),
        },
        Opcode::Ping => match (field_int(fs, 1), field_int(fs, 2)) {
            (Some(maj), Some(min)) => if maj > 255 || min > 255 {
                Err(ResponseStatus::InvalidEncoding)
            } else {
                Ok(
                    NativeResult::Ping(
                        ping::Result {
                            wire_protocol_version_maj: maj as u8,
                            wire_protocol_version_min: min as u8,
                        },
                    ),
                )
            },
            _ => Err(deser),
        },
        Opcode::PsaGenerateKey => Ok(NativeResult::PsaGenerateKey(generate_key::Result)),
        Opcode::PsaImportKey => Ok(NativeResult::PsaImportKey(import_key::Result)),
        Opcode::PsaDestroyKey => Ok(NativeResult::PsaDestroyKey(destroy_key::Result)),
        Opcode::PsaVerifyHash => Ok(NativeResult::PsaVerifyHash(verify_hash::Result)),
        Opcode::PsaExportPublicKey => match field_bytes(fs, 1) {
            Some(data) => Ok(NativeResult::PsaExportPublicKey(export_public_key::Result { data })),
            None => Err(deser),
        },
        Opcode::PsaSignHash => match field_bytes(fs, 1) {
            Some(signature) => Ok(NativeResult::PsaSignHash(sign_hash::Result { signature })),
            None => Err(deser),
        },
    }
}


proof fn lemma_text(fs: Seq<WField>, k: int, s: Seq<char>)
    requires
        0 <= k < fs.len(),
        fs[k] == text_field((k + 1) as u32, s),
        forall|i: int| 0 <= i < fs.len() && i != k ==> (#[trigger] fs[i]).num != (k + 1) as u32,
    ensures
        get_text(fs, (k + 1) as u32) == Some(s),
{
    lemma_single(fs, (k + 1) as u32, k);
    encode_utf8_valid_utf8(s);
    encode_utf8_decode_utf8(s);
}

proof fn lemma_nested(fs: Seq<WField>, k: int, a: KeyAttributes)
    requires
        0 <= k < fs.len(),
        fs[k] == bytes_field((k + 1) as u32, encode_fields(key_attributes_fields(a))),
        forall|i: int| 0 <= i < fs.len() && i != k ==> (#[trigger] fs[i]).num != (k + 1) as u32,
    ensures
        get_nested(fs, (k + 1) as u32) == Some(key_attributes_fields(a)),
        key_attributes_of_fields(key_attributes_fields(a)) == if attributes_valid(a) {
            Ok::<KeyAttributes, ResponseStatus>(a)
        } else {
            Err::<KeyAttributes, ResponseStatus>(ResponseStatus::InvalidKeyAttributes)
        },
{
    lemma_single(fs, (k + 1) as u32, k);
    lemma_key_attributes_decode(a);
    lemma_fields_round_trip(key_attributes_fields(a));
}

/// The fields of an operation read back as the same operation, for the
/// opcode it belongs to, where the operation breaks no rule; an operation
/// whose key attributes are illegal reads back as `InvalidKeyAttributes`.
#[verifier::rlimit(60)]
pub proof fn lemma_operation_fields_round_trip(o: OperationView)
    ensures
        operation_check(o) is None ==> operation_of_fields(operation_opcode(o), operation_fields(o))
            == Ok::<OperationView, ResponseStatus>(o),
        operation_check(o) == Some(ResponseStatus::InvalidKeyAttributes) ==> operation_of_fields(
            operation_opcode(o),
            operation_fields(o),
        ) == Err::<OperationView, ResponseStatus>(ResponseStatus::InvalidKeyAttributes),
{
    let fs = operation_fields(o);
    match o {
        OperationView::ListOpcodes { provider_id } => {
            lemma_single(fs, 1, 0);
        },
        OperationView::GenerateKey { key_name, attributes } => {
            lemma_text(fs, 0, key_name);
            lemma_nested(fs, 1, attributes);
        },
        OperationView::ImportKey { key_name, attributes, data } => {
            lemma_text(fs, 0, key_name);
            lemma_nested(fs, 1, attributes);
            lemma_single(fs, 3, 2);
        },
        OperationView::ExportPublicKey { key_name } => {
            lemma_text(fs, 0, key_name);
        },
        OperationView::DestroyKey { key_name } => {
            lemma_text(fs, 0, key_name);
        },
        OperationView::SignHash { key_name, alg, hash } => {
            lemma_text(fs, 0, key_name);
            lemma_single(fs, 2, 1);
            lemma_single(fs, 3, 2);
        },
        OperationView::VerifyHash { key_name, alg, hash, signature } => {
            lemma_text(fs, 0, key_name);
            lemma_single(fs, 2, 1);
            lemma_single(fs, 3, 2);
            lemma_single(fs, 4, 3);
        },
        _ => {},
    }
}

/// The fields of a result read back as the same result, for the opcode it
/// belongs to.
pub proof fn lemma_result_fields_round_trip(r: ResultView)
    ensures
        result_of_fields(result_opcode(r), result_fields(r)) == Ok::<ResultView, ResponseStatus>(r),
{
    let fs = result_fields(r);
    match r {
        ResultView::ListProviders { providers } => {
            let vs = providers.map_values(|p: u8| p as u64);
            lemma_repeated(1, vs);
            assert(vs.map_values(|v: u64| v as u8) =~= providers);
        },
        ResultView::ListOpcodes { opcodes } => {
            let vs = opcodes.map_values(|o: Opcode| opcode_code(o));
            lemma_repeated(1, vs);
            assert forall|i: int| 0 <= i < vs.len() implies (#[trigger] opcode_of_code(
                vs[i],
            )) == Some(opcodes[i]) by {}
            assert(vs.map_values(|v: u64| opcode_of_code(v).unwrap()) =~= opcodes);
        },
        ResultView::Ping { maj, min } => {
            lemma_single(fs, 1, 0);
            lemma_single(fs, 2, 1);
        },
        ResultView::ExportPublicKey { data } => {
            lemma_single(fs, 1, 0);
        },
        ResultView::SignHash { signature } => {
            lemma_single(fs, 1, 0);
        },
        _ => {},
    }
}

} // verus!
