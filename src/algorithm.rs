//! Cryptographic algorithm identifiers and their numeric wire codes.
use vstd::prelude::*;
use crate::status::ResponseStatus;

verus! {

#[derive(PartialEq, Eq, Structural, Clone, Copy, Debug)]
pub enum HashAlg {
    Sha256,
    Sha384,
    Sha512,
}

#[derive(PartialEq, Eq, Structural, Clone, Copy, Debug)]
pub enum Algorithm {
    NoAlgorithm,
    RsaPkcs1v15Sign(HashAlg),
    Ecdsa(HashAlg),
    AesCtr,
    AesCbc,
}

/// Digest size of a hash, in bytes.
pub open spec fn digest_len(h: HashAlg) -> nat {
    match h {
        HashAlg::Sha256 => 32,
        HashAlg::Sha384 => 48,
        HashAlg::Sha512 => 64,
    }
}

pub open spec fn hash_code(h: HashAlg) -> u64 {
    match h {
        HashAlg::Sha256 => 1,
        HashAlg::Sha384 => 2,
        HashAlg::Sha512 => 3,
    }
}

pub open spec fn hash_of_code(c: u64) -> Option<HashAlg> {
    if c == 1 {
        Some(HashAlg::Sha256)
    } else if c == 2 {
        Some(HashAlg::Sha384)
    } else if c == 3 {
        Some(HashAlg::Sha512)
    } else {
        None
    }
}

/// The wire code of an algorithm: zero for none, the family in the high
/// nibble of the low byte and the hash below it.
pub open spec fn alg_code(a: Algorithm) -> u64 {
    match a {
        Algorithm::NoAlgorithm => 0,
        Algorithm::RsaPkcs1v15Sign(h) => (0x10 + hash_code(h)) as u64,
        Algorithm::Ecdsa(h) => (0x20 + hash_code(h)) as u64,
        Algorithm::AesCtr => 0x30,
        Algorithm::AesCbc => 0x31,
    }
}

/// The algorithm that a wire code stands for; `None` for an unknown or
/// reserved code.
pub open spec fn alg_of_code(c: u64) -> Option<Algorithm> {
    if c == 0 {
        Some(Algorithm::NoAlgorithm)
    } else if 0x10 < c && c < 0x14 {
        Some(Algorithm::RsaPkcs1v15Sign(hash_of_code((c - 0x10) as u64).unwrap()))
    } else if 0x20 < c && c < 0x24 {
        Some(Algorithm::Ecdsa(hash_of_code((c - 0x20) as u64).unwrap()))
    } else if c == 0x30 {
        Some(Algorithm::AesCtr)
    } else if c == 0x31 {
        Some(Algorithm::AesCbc)
    } else {
        None
    }
}

/// An algorithm that signs a hash.
pub open spec fn is_sign_alg(a: Algorithm) -> bool {
    a is RsaPkcs1v15Sign || a is Ecdsa
}

/// Every algorithm reads back from its code.
pub proof fn lemma_alg_code_round_trip(a: Algorithm)
    ensures
        alg_of_code(alg_code(a)) == Some(a),
{
}

pub fn hash_len(h: HashAlg) -> (r: usize)
    ensures
        r == digest_len(h),
{
    match h {
        HashAlg::Sha256 => 32,
        HashAlg::Sha384 => 48,
        HashAlg::Sha512 => 64,
    }
}

fn hash_to_code(h: HashAlg) -> (r: u64)
    ensures
        r == hash_code(h),
{
    match h {
        HashAlg::Sha256 => 1,
        HashAlg::Sha384 => 2,
        HashAlg::Sha512 => 3,
    }
}

fn hash_from_code(c: u64) -> (r: Option<HashAlg>)
    ensures
        r == hash_of_code(c),
{
    if c == 1 {
        Some(HashAlg::Sha256)
    } else if c == 2 {
        Some(HashAlg::Sha384)
    } else if c == 3 {
        Some(HashAlg::Sha512)
    } else {
        None
    }
}

pub fn algorithm_to_code(a: Algorithm) -> (r: u64)
    ensures
        r == alg_code(a),
{
    match a {
        Algorithm::NoAlgorithm => 0,
        Algorithm::RsaPkcs1v15Sign(h) => 0x10 + hash_to_code(h),
        Algorithm::Ecdsa(h) => 0x20 + hash_to_code(h),
        Algorithm::AesCtr => 0x30,
        Algorithm::AesCbc => 0x31,
    }
}

/// Reads an algorithm code, rejecting unknown and reserved ones.
pub fn algorithm_from_code(c: u64) -> (r: Result<Algorithm, ResponseStatus>)
    ensures
        r == match alg_of_code(c) {
            Some(a) => Ok(a),
            None => Err(ResponseStatus::InvalidAlgorithm),
        },
{
    if c == 0 {
        Ok(Algorithm::NoAlgorithm)
    } else if 0x10 < c && c < 0x14 {
        match hash_from_code(c - 0x10) {
            Some(h) => Ok(Algorithm::RsaPkcs1v15Sign(h)),
            None => Err(ResponseStatus::InvalidAlgorithm),
        }
    } else if 0x20 < c && c < 0x24 {
        match hash_from_code(c - 0x20) {
            Some(h) => Ok(Algorithm::Ecdsa(h)),
            None => Err(ResponseStatus::InvalidAlgorithm),
        }
    } else if c == 0x30 {
        Ok(Algorithm::AesCtr)
    } else if c == 0x31 {
        Ok(Algorithm::AesCbc)
    } else {
        Err(ResponseStatus::InvalidAlgorithm)
    }
}

} // verus!
