//! The converter between protobuf-encoded bodies and native objects: one
//! dispatch per direction, total over the opcodes.
use vstd::prelude::*;
use crate::convert::{
    check_operation, lemma_operation_fields_round_trip, lemma_result_fields_round_trip,
    operation_check, operation_fields, operation_from_fields, operation_matches,
    operation_of_fields, operation_to_fields, result_fields, result_from_fields, result_matches,
    result_of_fields, result_to_fields,
};
use crate::fields::lemma_other_fields;
use crate::key_attributes::{attributes_valid, KeyAttributes};
use crate::operations::{
    operation_opcode, result_opcode, NativeOperation, NativeResult, OperationView, ResultView,
};
use crate::requests::{BodyType, Opcode, RequestBody, ResponseBody};
use crate::status::ResponseStatus;
use crate::wire::{
    decode_message, encode_fields, encode_message, field_boundary, fields_ok,
    lemma_cut_inside_field, lemma_fields_round_trip, lemma_parse_append, parse_fields,
};

verus! {

/// The operation of kind `opcode` in a request body: `DeserializingBodyFailed`
/// when the bytes are not a sequence of well-formed fields.
pub open spec fn decode_operation(opcode: Opcode, body: Seq<u8>) -> Result<
    OperationView,
    ResponseStatus,
> {
    match parse_fields(body) {
        Some(fs) => operation_of_fields(opcode, fs),
        None => Err(ResponseStatus::DeserializingBodyFailed),
    }
}

/// The result of kind `opcode` in a response body.
pub open spec fn decode_result(opcode: Opcode, body: Seq<u8>) -> Result<
    ResultView,
    ResponseStatus,
> {
    match parse_fields(body) {
        Some(fs) => result_of_fields(opcode, fs),
        None => Err(ResponseStatus::DeserializingBodyFailed),
    }
}

/// The bytes of the body of an operation.
pub open spec fn encode_operation(o: OperationView) -> Seq<u8> {
    encode_fields(operation_fields(o))
}

/// The bytes of the body of a result.
pub open spec fn encode_result(r: ResultView) -> Seq<u8> {
    encode_fields(result_fields(r))
}

/// Converter between protobuf-encoded bodies and native objects.
#[derive(Copy, Clone, Debug)]
pub struct ProtobufConverter;

impl ProtobufConverter {
    /// The encoding that this converter reads and writes.
    pub fn body_type(&self) -> (r: BodyType)
        ensures
            r == BodyType::Protobuf,
    {
        BodyType::Protobuf
    }

    /// Decodes the body of a request for `opcode` and validates it into the
    /// native operation of that opcode.
    pub fn body_to_operation(&self, body: RequestBody, opcode: Opcode) -> (r: Result<
        NativeOperation,
        ResponseStatus,
    >)
        ensures
            operation_matches(r, decode_operation(opcode, body@)),
    {
        match decode_message(body.bytes()) {
            Some(fs) => operation_from_fields(opcode, &fs),
            None => Err(ResponseStatus::DeserializingBodyFailed),
        }
    }

    /// Validates a native operation and encodes it as a request body; the
    /// first rule it breaks is the error.
    pub fn operation_to_body(&self, operation: NativeOperation) -> (r: Result<
        RequestBody,
        ResponseStatus,
    >)
        ensures
            match operation_check(operation@) {
                Some(e) => r == Err::<RequestBody, ResponseStatus>(e),
                None => r is Ok && r.unwrap()@ == encode_operation(operation@) && fields_ok(
                    operation_fields(operation@),
                ),
            },
    {
        match check_operation(&operation) {
            Some(e) => Err(e),
            None => Ok(RequestBody::from_bytes(encode_message(&operation_to_fields(&operation)))),
        }
    }

    /// Decodes the body of a response for `opcode` into the native result of
    /// that opcode.
    pub fn body_to_result(&self, body: ResponseBody, opcode: Opcode) -> (r: Result<
        NativeResult,
        ResponseStatus,
    >)
        ensures
            result_matches(r, decode_result(opcode, body@)),
    {
        match decode_message(body.bytes()) {
            Some(fs) => result_from_fields(opcode, &fs),
            None => Err(ResponseStatus::DeserializingBodyFailed),
        }
    }

    /// Encodes a native result as a response body.
    pub fn result_to_body(&self, result: NativeResult) -> (r: Result<ResponseBody, ResponseStatus>)
        ensures
            r is Ok && r.unwrap()@ == encode_result(result@) && fields_ok(result_fields(result@)),
    {
        Ok(ResponseBody::from_bytes(encode_message(&result_to_fields(&result))))
    }
}

/// Round trip: a legal operation whose fields fit the format decodes, under
/// its own opcode, from its encoding to itself.
pub proof fn lemma_operation_round_trip(o: OperationView)
    requires
        operation_check(o) is None,
        fields_ok(operation_fields(o)),
    ensures
        decode_operation(operation_opcode(o), encode_operation(o)) == Ok::<
            OperationView,
            ResponseStatus,
        >(o),
{
    lemma_fields_round_trip(operation_fields(o));
    lemma_operation_fields_round_trip(o);
}

/// Round trip: a result whose fields fit the format decodes, under its own
/// opcode, from its encoding to itself.
pub proof fn lemma_result_round_trip(r: ResultView)
    requires
        fields_ok(result_fields(r)),
    ensures
        decode_result(result_opcode(r), encode_result(r)) == Ok::<ResultView, ResponseStatus>(r),
{
    lemma_fields_round_trip(result_fields(r));
    lemma_result_fields_round_trip(r);
}

/// Fail-fast: for every opcode, bytes that are not a sequence of well-formed
/// fields are refused with `DeserializingBodyFailed`, as operation and as
/// result.
pub proof fn lemma_malformed_body_rejected(opcode: Opcode, body: Seq<u8>)
    requires
        parse_fields(body) is None,
    ensures
        decode_operation(opcode, body) == Err::<OperationView, ResponseStatus>(
            ResponseStatus::DeserializingBodyFailed,
        ),
        decode_result(opcode, body) == Err::<ResultView, ResponseStatus>(
            ResponseStatus::DeserializingBodyFailed,
        ),
{
}

/// Fail-fast on truncation: the encoding of an operation cut strictly inside
/// one of its fields is refused with `DeserializingBodyFailed`, whatever the
/// opcode.
pub proof fn lemma_truncated_operation_rejected(opcode: Opcode, o: OperationView, i: int, k: int)
    requires
        fields_ok(operation_fields(o)),
        0 <= i < operation_fields(o).len(),
        field_boundary(operation_fields(o), i) < k < field_boundary(operation_fields(o), i + 1),
    ensures
        decode_operation(opcode, encode_operation(o).take(k)) == Err::<
            OperationView,
            ResponseStatus,
        >(ResponseStatus::DeserializingBodyFailed),
{
    lemma_cut_inside_field(operation_fields(o), i, k);
}

/// Fail-fast on truncation: the encoding of a result cut strictly inside one
/// of its fields is refused with `DeserializingBodyFailed`, whatever the
/// opcode.
pub proof fn lemma_truncated_result_rejected(opcode: Opcode, r: ResultView, i: int, k: int)
    requires
        fields_ok(result_fields(r)),
        0 <= i < result_fields(r).len(),
        field_boundary(result_fields(r), i) < k < field_boundary(result_fields(r), i + 1),
    ensures
        decode_result(opcode, encode_result(r).take(k)) == Err::<ResultView, ResponseStatus>(
            ResponseStatus::DeserializingBodyFailed,
        ),
{
    lemma_cut_inside_field(result_fields(r), i, k);
}

/// Unknown fields are ignored: appending to a well-formed body a well-formed
/// run of fields whose numbers no message of this format defines (all above
/// 4) leaves what the body decodes to unchanged, as operation and as result.
pub proof fn lemma_unknown_fields_ignored(opcode: Opcode, body: Seq<u8>, extra: Seq<u8>)
    requires
        parse_fields(body) is Some,
        parse_fields(extra) matches Some(us) && forall|i: int|
            0 <= i < us.len() ==> (#[trigger] us[i]).num > 4,
    ensures
        decode_operation(opcode, body + extra) == decode_operation(opcode, body),
        decode_result(opcode, body + extra) == decode_result(opcode, body),
{
    lemma_parse_append(body, extra);
    let fs = parse_fields(body).unwrap();
    let us = parse_fields(extra).unwrap();
    lemma_other_fields(fs, us, 1);
    lemma_other_fields(fs, us, 2);
    lemma_other_fields(fs, us, 3);
    lemma_other_fields(fs, us, 4);
}

/// Validation rejection: a well-formed key-generation body whose key
/// attributes are an illegal combination is refused with
/// `InvalidKeyAttributes`, never accepted. The body is the encoding of the
/// would-be operation, so every field of it is well-formed.
pub proof fn lemma_illegal_attributes_rejected(key_name: Seq<char>, attributes: KeyAttributes)
    requires
        !attributes_valid(attributes),
        fields_ok(operation_fields(OperationView::GenerateKey { key_name, attributes })),
    ensures
        decode_operation(
            Opcode::PsaGenerateKey,
            encode_operation(OperationView::GenerateKey { key_name, attributes }),
        ) == Err::<OperationView, ResponseStatus>(ResponseStatus::InvalidKeyAttributes),
{
    let o = OperationView::GenerateKey { key_name, attributes };
    lemma_fields_round_trip(operation_fields(o));
    lemma_operation_fields_round_trip(o);
}

/// Exhaustiveness: whatever the body, a decoded operation or result is of
/// the variant of the opcode that was asked for.
pub proof fn lemma_dispatch_matches_opcode(opcode: Opcode, body: Seq<u8>)
    ensures
        decode_operation(opcode, body) matches Ok(o) ==> operation_opcode(o) == opcode,
        decode_result(opcode, body) matches Ok(r) ==> result_opcode(r) == opcode,
{
}

} // verus!
