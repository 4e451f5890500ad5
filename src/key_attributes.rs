//! Key attributes: what a key is, how it may be used and with which
//! algorithm, and the rules that a legal combination obeys.
use vstd::prelude::*;
use crate::algorithm::{
    alg_code, alg_of_code, algorithm_from_code, algorithm_to_code, lemma_alg_code_round_trip,
    Algorithm,
};
use crate::fields::{field_int, get_int, lemma_single};
use crate::status::ResponseStatus;
use crate::wire::{fields_ok, fields_view, WField, WVal, WireField, WireValue};

verus! {

#[derive(PartialEq, Eq, Structural, Clone, Copy, Debug)]
pub enum Lifetime {
    Volatile,
    Persistent,
}

#[derive(PartialEq, Eq, Structural, Clone, Copy, Debug)]
pub enum KeyType {
    RsaKeyPair,
    RsaPublicKey,
    EccKeyPair,
    EccPublicKey,
    Aes,
    RawData,
}

#[derive(PartialEq, Eq, Structural, Clone, Copy, Debug)]
pub struct UsageFlags {
    pub export: bool,
    pub sign_hash: bool,
    pub verify_hash: bool,
    pub encrypt: bool,
    pub decrypt: bool,
}

#[derive(PartialEq, Eq, Structural, Clone, Copy, Debug)]
pub struct KeyAttributes {
    pub lifetime: Lifetime,
    pub key_type: KeyType,
    pub bits: u32,
    pub usage: UsageFlags,
    pub permitted_algorithm: Algorithm,
}

pub open spec fn is_rsa(t: KeyType) -> bool {
    t is RsaKeyPair || t is RsaPublicKey
}

pub open spec fn is_ecc(t: KeyType) -> bool {
    t is EccKeyPair || t is EccPublicKey
}

/// The key sizes that each key type admits.
pub open spec fn bits_ok(t: KeyType, bits: u32) -> bool {
    match t {
        KeyType::Aes => bits == 128 || bits == 192 || bits == 256,
        KeyType::RsaKeyPair | KeyType::RsaPublicKey => bits == 1024 || bits == 2048 || bits
            == 3072 || bits == 4096,
        KeyType::EccKeyPair | KeyType::EccPublicKey => bits == 256 || bits == 384,
        KeyType::RawData => bits > 0 && bits % 8 == 0,
    }
}

/// Signing and verifying need an asymmetric key; encrypting and decrypting
/// need an AES or RSA key.
pub open spec fn usage_ok(t: KeyType, u: UsageFlags) -> bool {
    &&& (u.sign_hash || u.verify_hash) ==> is_rsa(t) || is_ecc(t)
    &&& (u.encrypt || u.decrypt) ==> t is Aes || is_rsa(t)
}

/// The permitted algorithm belongs to the key's family.
pub open spec fn alg_ok(t: KeyType, a: Algorithm) -> bool {
    match a {
        Algorithm::NoAlgorithm => true,
        Algorithm::RsaPkcs1v15Sign(_) => is_rsa(t),
        Algorithm::Ecdsa(_) => is_ecc(t),
        Algorithm::AesCtr | Algorithm::AesCbc => t is Aes,
    }
}

/// A legal combination of key attributes.
pub open spec fn attributes_valid(a: KeyAttributes) -> bool {
    bits_ok(a.key_type, a.bits) && usage_ok(a.key_type, a.usage) && alg_ok(
        a.key_type,
        a.permitted_algorithm,
    )
}

pub open spec fn lifetime_code(l: Lifetime) -> u64 {
    match l {
        Lifetime::Volatile => 0,
        Lifetime::Persistent => 1,
    }
}

pub open spec fn key_type_code(t: KeyType) -> u64 {
    match t {
        KeyType::RsaKeyPair => 1,
        KeyType::RsaPublicKey => 2,
        KeyType::EccKeyPair => 3,
        KeyType::EccPublicKey => 4,
        KeyType::Aes => 5,
        KeyType::RawData => 6,
    }
}

pub open spec fn key_type_of_code(c: u64) -> Option<KeyType> {
    if c == 1 {
        Some(KeyType::RsaKeyPair)
    } else if c == 2 {
        Some(KeyType::RsaPublicKey)
    } else if c == 3 {
        Some(KeyType::EccKeyPair)
    } else if c == 4 {
        Some(KeyType::EccPublicKey)
    } else if c == 5 {
        Some(KeyType::Aes)
    } else if c == 6 {
        Some(KeyType::RawData)
    } else {
        None
    }
}

pub open spec fn flag_code(b: bool) -> u64 {
    if b {
        1
    } else {
        0
    }
}

pub open spec fn int_field(n: u32, v: u64) -> WField {
    WField { num: n, val: WVal::Int(v) }
}

/// The fields of the key-attributes message: lifetime, key type, size, the
/// five usage flags, and the permitted algorithm, numbered 1 to 9.
pub open spec fn key_attributes_fields(a: KeyAttributes) -> Seq<WField> {
    seq![
        int_field(1, lifetime_code(a.lifetime)),
        int_field(2, key_type_code(a.key_type)),
        int_field(3, a.bits as u64),
        int_field(4, flag_code(a.usage.export)),
        int_field(5, flag_code(a.usage.sign_hash)),
        int_field(6, flag_code(a.usage.verify_hash)),
        int_field(7, flag_code(a.usage.encrypt)),
        int_field(8, flag_code(a.usage.decrypt)),
        int_field(9, alg_code(a.permitted_algorithm)),
    ]
}

/// Every field of the message is a varint where it occurs.
pub open spec fn key_attributes_well_formed(fs: Seq<WField>) -> bool {
    forall|n: u32| 1 <= n <= 9 ==> (#[trigger] get_int(fs, n)) is Some
}

/// The attributes that the fields spell, validated: a malformed message, then
/// an unknown lifetime, then an unknown key type or a size beyond 32 bits,
/// then an unknown algorithm, then an illegal combination.
pub open spec fn key_attributes_of_fields(fs: Seq<WField>) -> Result<KeyAttributes, ResponseStatus> {
    if !key_attributes_well_formed(fs) {
        Err(ResponseStatus::DeserializingBodyFailed)
    } else {
        let lc = get_int(fs, 1).unwrap();
        let tc = get_int(fs, 2).unwrap();
        let bits = get_int(fs, 3).unwrap();
        let ac = get_int(fs, 9).unwrap();
        if lc > 1 {
            Err(ResponseStatus::InvalidEncoding)
        } else if key_type_of_code(tc) is None || bits > 0xFFFF_FFFF {
            Err(ResponseStatus::InvalidKeyAttributes)
        } else if alg_of_code(ac) is None {
            Err(ResponseStatus::InvalidAlgorithm)
        } else {
            let a = KeyAttributes {
                lifetime: if lc == 0 {
                    Lifetime::Volatile
                } else {
                    Lifetime::Persistent
                },
                key_type: key_type_of_code(tc).unwrap(),
                bits: bits as u32,
                usage: UsageFlags {
                    export: get_int(fs, 4).unwrap() != 0,
                    sign_hash: get_int(fs, 5).unwrap() != 0,
                    verify_hash: get_int(fs, 6).unwrap() != 0,
                    encrypt: get_int(fs, 7).unwrap() != 0,
                    decrypt: get_int(fs, 8).unwrap() != 0,
                },
                permitted_algorithm: alg_of_code(ac).unwrap(),
            };
            if attributes_valid(a) {
                Ok(a)
            } else {
                Err(ResponseStatus::InvalidKeyAttributes)
            }
        }
    }
}

/// Decides whether a combination of attributes is legal.
pub fn validate_key_attributes(a: &KeyAttributes) -> (r: bool)
    ensures
        r == attributes_valid(*a),
{
    let t = a.key_type;
    let rsa = match t {
        KeyType::RsaKeyPair | KeyType::RsaPublicKey => true,
        _ => false,
    };
    let ecc = match t {
        KeyType::EccKeyPair | KeyType::EccPublicKey => true,
        _ => false,
    };
    let aes = match t {
        KeyType::Aes => true,
        _ => false,
    };
    let bits = a.bits;
    let size_ok = match t {
        KeyType::Aes => bits == 128 || bits == 192 || bits == 256,
        KeyType::RsaKeyPair | KeyType::RsaPublicKey => bits == 1024 || bits == 2048 || bits
            == 3072 || bits == 4096,
        KeyType::EccKeyPair | KeyType::EccPublicKey => bits == 256 || bits == 384,
        KeyType::RawData => bits > 0 && bits % 8 == 0,
    };
    let u = a.usage;
    let use_ok = (!(u.sign_hash || u.verify_hash) || rsa || ecc) && (!(u.encrypt || u.decrypt)
        || aes || rsa);
    let family_ok = match a.permitted_algorithm {
        Algorithm::NoAlgorithm => true,
        Algorithm::RsaPkcs1v15Sign(_) => rsa,
        Algorithm::Ecdsa(_) => ecc,
        Algorithm::AesCtr | Algorithm::AesCbc => aes,
    };
    size_ok && use_ok && family_ok
}

fn varint_field(n: u32, v: u64) -> (r: WireField)
    ensures
        r@ == int_field(n, v),
{
    WireField { number: n, value: WireValue::Varint(v) }
}

fn flag_to_code(b: bool) -> (r: u64)
    ensures
        r == flag_code(b),
{
    if b {
        1
    } else {
        0
    }
}

/// The fields of the key-attributes message.
pub fn key_attributes_to_fields(a: &KeyAttributes) -> (r: Vec<WireField>)
    ensures
        fields_view(r@) == key_attributes_fields(*a),
        fields_ok(fields_view(r@)),
{
    let lc: u64 = match a.lifetime {
        Lifetime::Volatile => 0,
        Lifetime::Persistent => 1,
    };
    let tc: u64 = match a.key_type {
        KeyType::RsaKeyPair => 1,
        KeyType::RsaPublicKey => 2,
        KeyType::EccKeyPair => 3,
        KeyType::EccPublicKey => 4,
        KeyType::Aes => 5,
        KeyType::RawData => 6,
    };
    let mut r: Vec<WireField> = Vec::new();
    r.push(varint_field(1, lc));
    r.push(varint_field(2, tc));
    r.push(varint_field(3, a.bits as u64));
    r.push(varint_field(4, flag_to_code(a.usage.export)));
    r.push(varint_field(5, flag_to_code(a.usage.sign_hash)));
    r.push(varint_field(6, flag_to_code(a.usage.verify_hash)));
    r.push(varint_field(7, flag_to_code(a.usage.encrypt)));
    r.push(varint_field(8, flag_to_code(a.usage.decrypt)));
    r.push(varint_field(9, algorithm_to_code(a.permitted_algorithm)));
    assert(fields_view(r@) =~= key_attributes_fields(*a));
    r
}

/// Reads and validates key attributes from the fields of their message.
pub fn key_attributes_from_fields(fs: &Vec<WireField>) -> (r: Result<KeyAttributes, ResponseStatus>)
    ensures
        r == key_attributes_of_fields(fields_view(fs@)),
{
    let ghost v = fields_view(fs@);
    let mut vals: Vec<u64> = Vec::new();
    let mut n: u32 = 1;
    while n <= 9
        invariant
            1 <= n <= 10,
            v == fields_view(fs@),
            vals@.len() == n - 1,
            forall|k: u32| 1 <= k < n ==> (#[trigger] get_int(v, k)) == Some(vals@[k - 1]),
        decreases 10 - n,
    {
        match field_int(fs, n) {
            Some(x) => {
                let ghost old_vals = vals@;
                vals.push(x);
                assert forall|k: u32| 1 <= k < n + 1 implies (#[trigger] get_int(v, k)) == Some(
                    vals@[k - 1],
                ) by {
                    if k < n {
                        assert(vals@[k - 1] == old_vals[k - 1]);
                    }
                }
            },
            None => {
                assert(get_int(v, n) is None);
                assert(!key_attributes_well_formed(v));
                return Err(ResponseStatus::DeserializingBodyFailed);
            },
        }
        n = n + 1;
    }
    assert(get_int(v, 1) == Some(vals@[0]));
    assert(get_int(v, 2) == Some(vals@[1]));
    assert(get_int(v, 3) == Some(vals@[2]));
    assert(get_int(v, 4) == Some(vals@[3]));
    assert(get_int(v, 5) == Some(vals@[4]));
    assert(get_int(v, 6) == Some(vals@[5]));
    assert(get_int(v, 7) == Some(vals@[6]));
    assert(get_int(v, 8) == Some(vals@[7]));
    assert(get_int(v, 9) == Some(vals@[8]));
    let lc = vals[0];
    let tc = vals[1];
    let bits = vals[2];
    if lc > 1 {
        return Err(ResponseStatus::InvalidEncoding);
    }
    let key_type = if tc == 1 {
        KeyType::RsaKeyPair
    } else if tc == 2 {
        KeyType::RsaPublicKey
    } else if tc == 3 {
        KeyType::EccKeyPair
    } else if tc == 4 {
        KeyType::EccPublicKey
    } else if tc == 5 {
        KeyType::Aes
    } else if tc == 6 {
        KeyType::RawData
    } else {
        return Err(ResponseStatus::InvalidKeyAttributes);
    };
    if bits > 0xFFFF_FFFF {
        return Err(ResponseStatus::InvalidKeyAttributes);
    }
    let permitted_algorithm = match algorithm_from_code(vals[8]) {
        Ok(x) => x,
        Err(e) => return Err(e),
    };
    let a = KeyAttributes {
        lifetime: if lc == 0 {
            Lifetime::Volatile
        } else {
            Lifetime::Persistent
        },
        key_type,
        bits: bits as u32,
        usage: UsageFlags {
            export: vals[3] != 0,
            sign_hash: vals[4] != 0,
            verify_hash: vals[5] != 0,
            encrypt: vals[6] != 0,
            decrypt: vals[7] != 0,
        },
        permitted_algorithm,
    };
    if validate_key_attributes(&a) {
        Ok(a)
    } else {
        Err(ResponseStatus::InvalidKeyAttributes)
    }
}

/// Key attributes read back from their own fields: the same attributes when
/// the combination is legal, else `InvalidKeyAttributes`.
pub proof fn lemma_key_attributes_decode(a: KeyAttributes)
    ensures
        fields_ok(key_attributes_fields(a)),
        key_attributes_of_fields(key_attributes_fields(a)) == if attributes_valid(a) {
            Ok::<KeyAttributes, ResponseStatus>(a)
        } else {
            Err::<KeyAttributes, ResponseStatus>(ResponseStatus::InvalidKeyAttributes)
        },
{
    let fs = key_attributes_fields(a);
    lemma_single(fs, 1, 0);
    lemma_single(fs, 2, 1);
    lemma_single(fs, 3, 2);
    lemma_single(fs, 4, 3);
    lemma_single(fs, 5, 4);
    lemma_single(fs, 6, 5);
    lemma_single(fs, 7, 6);
    lemma_single(fs, 8, 7);
    lemma_single(fs, 9, 8);
    assert(key_attributes_well_formed(fs));
    lemma_alg_code_round_trip(a.permitted_algorithm);
}

} // verus!
