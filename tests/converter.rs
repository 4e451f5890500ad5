use parsec_wire::algorithm::{Algorithm, HashAlg};
use parsec_wire::key_attributes::{KeyAttributes, KeyType, Lifetime, UsageFlags};
use parsec_wire::operations::{
    destroy_key, export_public_key, generate_key, import_key, list_opcodes, list_providers, ping,
    sign_hash, verify_hash, NativeOperation, NativeResult,
};
use parsec_wire::operations_protobuf::ProtobufConverter;
use parsec_wire::requests::{BodyType, Opcode, RequestBody, ResponseBody};
use parsec_wire::status::ResponseStatus;

const ALL_OPCODES: [Opcode; 9] = [
    Opcode::Ping,
    Opcode::PsaGenerateKey,
    Opcode::PsaDestroyKey,
    Opcode::PsaSignHash,
    Opcode::PsaVerifyHash,
    Opcode::PsaImportKey,
    Opcode::PsaExportPublicKey,
    Opcode::ListProviders,
    Opcode::ListOpcodes,
];

fn rsa_2048_signing() -> KeyAttributes {
    KeyAttributes {
        lifetime: Lifetime::Volatile,
        key_type: KeyType::RsaKeyPair,
        bits: 2048,
        usage: UsageFlags {
            export: false,
            sign_hash: true,
            verify_hash: true,
            encrypt: false,
            decrypt: false,
        },
        permitted_algorithm: Algorithm::RsaPkcs1v15Sign(HashAlg::Sha256),
    }
}

fn aes_256() -> KeyAttributes {
    KeyAttributes {
        lifetime: Lifetime::Persistent,
        key_type: KeyType::Aes,
        bits: 256,
        usage: UsageFlags {
            export: true,
            sign_hash: false,
            verify_hash: false,
            encrypt: true,
            decrypt: true,
        },
        permitted_algorithm: Algorithm::AesCtr,
    }
}

fn encode_op(op: NativeOperation) -> Vec<u8> {
    let body = ProtobufConverter.operation_to_body(op).expect("encodes");
    body.bytes().to_vec()
}

fn decode_op(bytes: &[u8], opcode: Opcode) -> Result<NativeOperation, ResponseStatus> {
    ProtobufConverter.body_to_operation(RequestBody::from_bytes(bytes.to_vec()), opcode)
}

fn decode_res(bytes: &[u8], opcode: Opcode) -> Result<NativeResult, ResponseStatus> {
    ProtobufConverter.body_to_result(ResponseBody::from_bytes(bytes.to_vec()), opcode)
}

fn round_trip_op(op: NativeOperation) {
    let opcode = op.opcode();
    let bytes = encode_op(op.clone());
    assert_eq!(decode_op(&bytes, opcode), Ok(op));
}

fn round_trip_res(res: NativeResult) {
    let opcode = res.opcode();
    let body = ProtobufConverter.result_to_body(res.clone()).expect("encodes");
    assert_eq!(decode_res(body.bytes(), opcode), Ok(res));
}

/// The key-attributes message of an AES-256 key that asks to sign.
fn aes_signing_attributes_bytes() -> Vec<u8> {
    vec![
        0x08, 0x00, 0x10, 0x05, 0x18, 0x80, 0x02, 0x20, 0x00, 0x28, 0x01, 0x30, 0x00, 0x38, 0x00,
        0x40, 0x00, 0x48, 0x00,
    ]
}

#[test]
fn body_type_is_protobuf() {
    assert_eq!(ProtobufConverter.body_type(), BodyType::Protobuf);
}

#[test]
fn ping_empty_body() {
    let op = decode_op(&[], Opcode::Ping).expect("decodes");
    assert_eq!(op, NativeOperation::Ping(ping::Operation));
    assert_eq!(encode_op(op), Vec::<u8>::new());
}

#[test]
fn generate_key_rsa_signing_round_trip() {
    let op = NativeOperation::PsaGenerateKey(generate_key::Operation {
        key_name: String::from("my-key"),
        attributes: rsa_2048_signing(),
    });
    let bytes = encode_op(op.clone());
    assert_eq!(&bytes[..8], &[0x0a, 0x06, b'm', b'y', b'-', b'k', b'e', b'y']);
    let decoded = decode_op(&bytes, Opcode::PsaGenerateKey).expect("decodes");
    assert_eq!(decoded, op);
    assert_eq!(encode_op(decoded), bytes);
}

#[test]
fn generate_key_aes_signing_rejected() {
    let attrs = aes_signing_attributes_bytes();
    let mut body = vec![0x0a, 0x01, b'k', 0x12, attrs.len() as u8];
    body.extend_from_slice(&attrs);
    assert_eq!(
        decode_op(&body, Opcode::PsaGenerateKey),
        Err(ResponseStatus::InvalidKeyAttributes)
    );
}

#[test]
fn sign_hash_wrong_length_rejected() {
    let mut body = vec![0x0a, 0x01, b'k', 0x10, 0x11, 0x1a, 20];
    body.extend_from_slice(&[7u8; 20]);
    assert_eq!(
        decode_op(&body, Opcode::PsaSignHash),
        Err(ResponseStatus::InvalidHashLength)
    );
}

#[test]
fn sign_hash_right_length_accepted() {
    let mut body = vec![0x0a, 0x01, b'k', 0x10, 0x11, 0x1a, 32];
    body.extend_from_slice(&[7u8; 32]);
    assert_eq!(
        decode_op(&body, Opcode::PsaSignHash),
        Ok(NativeOperation::PsaSignHash(sign_hash::Operation {
            key_name: String::from("k"),
            alg: Algorithm::RsaPkcs1v15Sign(HashAlg::Sha256),
            hash: vec![7u8; 32],
        }))
    );
}

#[test]
fn operations_round_trip() {
    round_trip_op(NativeOperation::Ping(ping::Operation));
    round_trip_op(NativeOperation::ListProviders(list_providers::Operation));
    round_trip_op(NativeOperation::ListOpcodes(list_opcodes::Operation { provider_id: 200 }));
    round_trip_op(NativeOperation::PsaGenerateKey(generate_key::Operation {
        key_name: String::from("clé"),
        attributes: aes_256(),
    }));
    round_trip_op(NativeOperation::PsaImportKey(import_key::Operation {
        key_name: String::from("imported"),
        attributes: aes_256(),
        data: vec![1, 2, 3, 4],
    }));
    round_trip_op(NativeOperation::PsaExportPublicKey(export_public_key::Operation {
        key_name: String::from("pub"),
    }));
    round_trip_op(NativeOperation::PsaDestroyKey(destroy_key::Operation {
        key_name: String::from("gone"),
    }));
    round_trip_op(NativeOperation::PsaSignHash(sign_hash::Operation {
        key_name: String::from("signer"),
        alg: Algorithm::Ecdsa(HashAlg::Sha384),
        hash: vec![9u8; 48],
    }));
    round_trip_op(NativeOperation::PsaVerifyHash(verify_hash::Operation {
        key_name: String::from("verifier"),
        alg: Algorithm::RsaPkcs1v15Sign(HashAlg::Sha512),
        hash: vec![3u8; 64],
        signature: vec![5u8; 300],
    }));
}

#[test]
fn results_round_trip() {
    round_trip_res(NativeResult::Ping(ping::Result {
        wire_protocol_version_maj: 1,
        wire_protocol_version_min: 0,
    }));
    round_trip_res(NativeResult::ListProviders(list_providers::Result {
        providers: vec![0, 1, 255],
    }));
    round_trip_res(NativeResult::ListOpcodes(list_opcodes::Result {
        opcodes: ALL_OPCODES.to_vec(),
    }));
    round_trip_res(NativeResult::PsaGenerateKey(generate_key::Result));
    round_trip_res(NativeResult::PsaImportKey(import_key::Result));
    round_trip_res(NativeResult::PsaExportPublicKey(export_public_key::Result {
        data: vec![4, 5, 6],
    }));
    round_trip_res(NativeResult::PsaDestroyKey(destroy_key::Result));
    round_trip_res(NativeResult::PsaSignHash(sign_hash::Result { signature: vec![1; 256] }));
    round_trip_res(NativeResult::PsaVerifyHash(verify_hash::Result));
}

#[test]
fn exact_bytes_of_small_messages() {
    assert_eq!(
        encode_op(NativeOperation::ListOpcodes(list_opcodes::Operation { provider_id: 200 })),
        vec![0x08, 0xc8, 0x01]
    );
    let body = ProtobufConverter
        .result_to_body(NativeResult::Ping(ping::Result {
            wire_protocol_version_maj: 1,
            wire_protocol_version_min: 0,
        }))
        .expect("encodes");
    assert_eq!(body.bytes(), &[0x08, 0x01, 0x10, 0x00]);
}

#[test]
fn malformed_bodies_rejected_for_every_opcode() {
    let bodies: Vec<Vec<u8>> = vec![
        vec![0xff],
        vec![0x08],
        vec![0x0a, 0x05, b'a'],
        vec![0x0b],
        vec![0x00, 0x01],
        vec![0x0d, 0x01, 0x02],
        vec![0x80, 0x80, 0x80, 0x80, 0x80, 0x80, 0x80, 0x80, 0x80, 0x80, 0x01],
    ];
    for opcode in ALL_OPCODES {
        for body in &bodies {
            assert_eq!(
                decode_op(body, opcode),
                Err(ResponseStatus::DeserializingBodyFailed)
            );
            assert_eq!(
                decode_res(body, opcode),
                Err(ResponseStatus::DeserializingBodyFailed)
            );
        }
    }
}

#[test]
fn truncated_body_rejected() {
    let bytes = encode_op(NativeOperation::PsaGenerateKey(generate_key::Operation {
        key_name: String::from("my-key"),
        attributes: rsa_2048_signing(),
    }));
    let cut = &bytes[..bytes.len() - 1];
    assert_eq!(
        decode_op(cut, Opcode::PsaGenerateKey),
        Err(ResponseStatus::DeserializingBodyFailed)
    );
}

#[test]
fn wrong_wire_type_rejected() {
    assert_eq!(
        decode_op(&[0x08, 0x01], Opcode::PsaDestroyKey),
        Err(ResponseStatus::DeserializingBodyFailed)
    );
}

#[test]
fn invalid_utf8_name_rejected() {
    assert_eq!(
        decode_op(&[0x0a, 0x02, 0xc3, 0x28], Opcode::PsaDestroyKey),
        Err(ResponseStatus::DeserializingBodyFailed)
    );
}

#[test]
fn non_ascii_name_decoded() {
    assert_eq!(
        decode_op(&[0x0a, 0x03, b'c', 0xc3, 0xa9], Opcode::PsaDestroyKey),
        Ok(NativeOperation::PsaDestroyKey(destroy_key::Operation {
            key_name: String::from("cé"),
        }))
    );
}

#[test]
fn unknown_fields_ignored() {
    assert_eq!(
        decode_op(&[0x78, 0x05, 0x21, 1, 2, 3, 4, 5, 6, 7, 8], Opcode::Ping),
        Ok(NativeOperation::Ping(ping::Operation))
    );
    assert_eq!(
        decode_op(&[0x0a, 0x01, b'k', 0x7a, 0x01, 0x00], Opcode::PsaDestroyKey),
        Ok(NativeOperation::PsaDestroyKey(destroy_key::Operation {
            key_name: String::from("k"),
        }))
    );
}

#[test]
fn last_occurrence_wins() {
    assert_eq!(
        decode_op(&[0x0a, 0x01, b'a', 0x0a, 0x01, b'b'], Opcode::PsaDestroyKey),
        Ok(NativeOperation::PsaDestroyKey(destroy_key::Operation {
            key_name: String::from("b"),
        }))
    );
}

#[test]
fn empty_key_name_rejected() {
    assert_eq!(
        decode_op(&[], Opcode::PsaDestroyKey),
        Err(ResponseStatus::InvalidKeyName)
    );
    assert_eq!(
        ProtobufConverter.operation_to_body(NativeOperation::PsaExportPublicKey(
            export_public_key::Operation { key_name: String::new() }
        )),
        Err(ResponseStatus::InvalidKeyName)
    );
}

#[test]
fn unknown_algorithm_rejected() {
    let mut body = vec![0x0a, 0x01, b'k', 0x10, 0x14, 0x1a, 32];
    body.extend_from_slice(&[7u8; 32]);
    assert_eq!(
        decode_op(&body, Opcode::PsaSignHash),
        Err(ResponseStatus::InvalidAlgorithm)
    );
}

#[test]
fn non_signing_algorithm_rejected() {
    assert_eq!(
        ProtobufConverter.operation_to_body(NativeOperation::PsaSignHash(sign_hash::Operation {
            key_name: String::from("k"),
            alg: Algorithm::AesCbc,
            hash: vec![0u8; 32],
        })),
        Err(ResponseStatus::InvalidAlgorithm)
    );
}

#[test]
fn illegal_attributes_not_encoded() {
    let mut attrs = rsa_2048_signing();
    attrs.permitted_algorithm = Algorithm::Ecdsa(HashAlg::Sha256);
    assert_eq!(
        ProtobufConverter.operation_to_body(NativeOperation::PsaGenerateKey(
            generate_key::Operation { key_name: String::from("k"), attributes: attrs }
        )),
        Err(ResponseStatus::InvalidKeyAttributes)
    );
    let mut attrs = aes_256();
    attrs.bits = 100;
    assert_eq!(
        ProtobufConverter.operation_to_body(NativeOperation::PsaImportKey(import_key::Operation {
            key_name: String::from("k"),
            attributes: attrs,
            data: vec![],
        })),
        Err(ResponseStatus::InvalidKeyAttributes)
    );
}

#[test]
fn unknown_lifetime_is_invalid_encoding() {
    let attrs = vec![0x08, 0x02, 0x10, 0x05, 0x18, 0x80, 0x01];
    let mut body = vec![0x0a, 0x01, b'k', 0x12, attrs.len() as u8];
    body.extend_from_slice(&attrs);
    assert_eq!(
        decode_op(&body, Opcode::PsaGenerateKey),
        Err(ResponseStatus::InvalidEncoding)
    );
}

#[test]
fn out_of_range_result_numbers_rejected() {
    assert_eq!(
        decode_res(&[0x08, 0x80, 0x02], Opcode::Ping),
        Err(ResponseStatus::InvalidEncoding)
    );
    assert_eq!(
        decode_res(&[0x08, 0x01, 0x08, 0xac, 0x02], Opcode::ListProviders),
        Err(ResponseStatus::InvalidEncoding)
    );
    assert_eq!(
        decode_res(&[0x08, 0x0a], Opcode::ListOpcodes),
        Err(ResponseStatus::InvalidEncoding)
    );
}

#[test]
fn decoded_variant_matches_opcode() {
    for opcode in ALL_OPCODES {
        if let Ok(op) = decode_op(&[], opcode) {
            assert_eq!(op.opcode(), opcode);
        }
        let res = decode_res(&[], opcode).expect("empty result decodes");
        assert_eq!(res.opcode(), opcode);
    }
}

#[test]
fn rsa_key_with_ecdsa_algorithm_rejected() {
    let attrs = vec![
        0x08, 0x00, 0x10, 0x01, 0x18, 0x80, 0x10, 0x20, 0x00, 0x28, 0x01, 0x30, 0x01, 0x38, 0x00,
        0x40, 0x00, 0x48, 0x21,
    ];
    let mut body = vec![0x0a, 0x01, b'k', 0x12, attrs.len() as u8];
    body.extend_from_slice(&attrs);
    assert_eq!(
        decode_op(&body, Opcode::PsaGenerateKey),
        Err(ResponseStatus::InvalidKeyAttributes)
    );
    let last = body.len() - 1;
    body[last] = 0x11;
    assert_eq!(
        decode_op(&body, Opcode::PsaGenerateKey),
        Ok(NativeOperation::PsaGenerateKey(generate_key::Operation {
            key_name: String::from("k"),
            attributes: KeyAttributes {
                lifetime: Lifetime::Volatile,
                key_type: KeyType::RsaKeyPair,
                bits: 2048,
                usage: UsageFlags {
                    export: false,
                    sign_hash: true,
                    verify_hash: true,
                    encrypt: false,
                    decrypt: false,
                },
                permitted_algorithm: Algorithm::RsaPkcs1v15Sign(HashAlg::Sha256),
            },
        }))
    );
}

#[test]
fn unknown_group_fields_skipped() {
    for opcode in ALL_OPCODES {
        assert_eq!(decode_res(&[0x7b, 0x7c], opcode), decode_res(&[], opcode));
        assert_eq!(decode_op(&[0x7b, 0x7c], opcode), decode_op(&[], opcode));
    }
    assert_eq!(
        decode_op(&[0x0b, 0x0c], Opcode::Ping),
        Ok(NativeOperation::Ping(ping::Operation))
    );
    assert_eq!(
        decode_res(&[0x0b, 0x0c], Opcode::PsaGenerateKey),
        Ok(NativeResult::PsaGenerateKey(generate_key::Result))
    );
    assert_eq!(
        decode_op(&[0x0b, 0x08, 0x01, 0x13, 0x14, 0x0c], Opcode::Ping),
        Ok(NativeOperation::Ping(ping::Operation))
    );
    assert_eq!(
        decode_op(&[0x0a, 0x01, b'k', 0x2b, 0x2c], Opcode::PsaDestroyKey),
        Ok(NativeOperation::PsaDestroyKey(destroy_key::Operation {
            key_name: String::from("k"),
        }))
    );
}

#[test]
fn bad_groups_rejected() {
    let bodies: Vec<Vec<u8>> = vec![
        vec![0x0c],
        vec![0x0b, 0x14],
        vec![0x0b],
        vec![0x0b, 0x08],
        vec![0x0a, 0x01, b'k', 0x0b, 0x0c],
    ];
    for body in &bodies {
        assert_eq!(
            decode_op(body, Opcode::PsaDestroyKey),
            Err(ResponseStatus::DeserializingBodyFailed)
        );
    }
}

#[test]
fn packed_repeated_fields_accepted() {
    assert_eq!(
        decode_res(&[0x0a, 0x02, 0x01, 0x02], Opcode::ListOpcodes),
        Ok(NativeResult::ListOpcodes(list_opcodes::Result {
            opcodes: vec![Opcode::Ping, Opcode::PsaGenerateKey],
        }))
    );
    assert_eq!(
        decode_res(&[0x0a, 0x04, 0x00, 0x01, 0xff, 0x01], Opcode::ListProviders),
        Ok(NativeResult::ListProviders(list_providers::Result {
            providers: vec![0, 1, 255],
        }))
    );
    assert_eq!(
        decode_res(&[0x08, 0x05, 0x0a, 0x01, 0x01], Opcode::ListOpcodes),
        Ok(NativeResult::ListOpcodes(list_opcodes::Result {
            opcodes: vec![Opcode::PsaVerifyHash, Opcode::Ping],
        }))
    );
    assert_eq!(
        decode_res(&[0x0a, 0x01, 0x80], Opcode::ListProviders),
        Err(ResponseStatus::DeserializingBodyFailed)
    );
    assert_eq!(
        decode_res(&[0x0a, 0x02, 0x80, 0x02], Opcode::ListProviders),
        Err(ResponseStatus::InvalidEncoding)
    );
}
