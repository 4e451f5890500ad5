//! LEB128 variable-length integers, as used for every key, length and scalar
//! of the wire format.
use vstd::prelude::*;

verus! {

/// Bytes of `v` in LEB128: seven bits per byte, least significant group first,
/// the high bit set on every byte but the last.
pub open spec fn varint_bytes(v: nat) -> Seq<u8>
    decreases v,
{
    if v < 128 {
        seq![v as u8]
    } else {
        seq![(v % 128 + 128) as u8] + varint_bytes(v / 128)
    }
}

/// The number that the seven-bit groups of `s` spell, first byte lowest.
pub open spec fn leb_value(s: Seq<u8>) -> nat
    decreases s.len(),
{
    if s.len() == 0 {
        0
    } else {
        (s[0] % 128) as nat + 128 * leb_value(s.drop_first())
    }
}

/// Length of the varint at the front of `s` when its last byte stands at
/// index `i` or later and within the first ten bytes.
pub open spec fn varint_end(s: Seq<u8>, i: nat) -> Option<nat>
    decreases 10 - i,
{
    if i >= 10 || i >= s.len() {
        None
    } else if s[i as int] < 128 {
        Some(i + 1)
    } else {
        varint_end(s, i + 1)
    }
}

/// The varint at the front of `s` and its length in bytes: at most ten bytes,
/// and a value that fits in 64 bits.
pub open spec fn varint_decode(s: Seq<u8>) -> Option<(u64, nat)> {
    match varint_end(s, 0) {
        Some(n) => if leb_value(s.take(n as int)) < 0x1_0000_0000_0000_0000 {
            Some((leb_value(s.take(n as int)) as u64, n))
        } else {
            None
        },
        None => None,
    }
}

/// Relies on prost::encoding::encode_varint: appends the LEB128 bytes of `v`.
#[verifier::external_body]
pub(crate) fn put_varint(v: u64, buf: &mut Vec<u8>)
    ensures
        final(buf)@ == old(buf)@ + varint_bytes(v as nat),
{
    prost::encoding::encode_varint(v, buf)
}

/// Relies on prost::encoding::decode_varint: reads the varint at the front of
/// `b` and hands back what follows it; fails on an empty, unterminated,
/// over-long or overflowing varint.
#[verifier::external_body]
pub(crate) fn take_varint<'a>(b: &'a [u8]) -> (r: Option<(u64, &'a [u8])>)
    ensures
        match varint_decode(b@) {
            Some((v, n)) => r is Some && r.unwrap().0 == v && r.unwrap().1@ == b@.skip(n as int),
            None => r is None,
        },
{
    let mut rest = b;
    match prost::encoding::decode_varint(&mut rest) {
        Ok(v) => Some((v, rest)),
        Err(_) => None,
    }
}

pub open spec fn pow128(k: nat) -> nat
    decreases k,
{
    if k == 0 {
        1
    } else {
        128 * pow128((k - 1) as nat)
    }
}

proof fn lemma_varint_len(v: nat, k: nat)
    requires
        k >= 1,
        v < pow128(k),
    ensures
        1 <= varint_bytes(v).len() <= k,
    decreases v,
{
    if v >= 128 {
        assert(k >= 2) by {
            if k == 1 {
                reveal_with_fuel(pow128, 2);
            }
        }
        assert(v / 128 < pow128((k - 1) as nat)) by (nonlinear_arith)
            requires
                v < 128 * pow128((k - 1) as nat),
        ;
        lemma_varint_len(v / 128, (k - 1) as nat);
    }
}

proof fn lemma_leb_varint(v: nat)
    ensures
        leb_value(varint_bytes(v)) == v,
    decreases v,
{
    if v >= 128 {
        let s = varint_bytes(v);
        lemma_leb_varint(v / 128);
        assert(s.drop_first() =~= varint_bytes(v / 128));
        let b = (v % 128 + 128) as u8;
        assert(s[0] == b);
        assert(b % 128 == v % 128);
        assert(v == v % 128 + 128 * (v / 128));
    } else {
        assert(varint_bytes(v).drop_first() =~= Seq::<u8>::empty());
        assert(leb_value(Seq::<u8>::empty()) == 0);
    }
}

proof fn lemma_varint_end(v: nat, pre: Seq<u8>, rest: Seq<u8>)
    requires
        pre.len() + varint_bytes(v).len() <= 10,
        forall|j: int| 0 <= j < pre.len() ==> pre[j] >= 128,
    ensures
        varint_end(pre + varint_bytes(v) + rest, pre.len()) == Some(
            pre.len() + varint_bytes(v).len(),
        ),
    decreases v,
{
    let s = pre + varint_bytes(v) + rest;
    if v < 128 {
        assert(s[pre.len() as int] == v as u8);
    } else {
        let b = (v % 128 + 128) as u8;
        let pre2 = pre.push(b);
        assert(s[pre.len() as int] == b);
        assert(pre2 + varint_bytes(v / 128) + rest =~= s);
        lemma_varint_end(v / 128, pre2, rest);
    }
}

/// A varint read back from the bytes that encode it gives the same number,
/// whatever follows it.
pub proof fn lemma_varint_round_trip(v: u64, rest: Seq<u8>)
    ensures
        varint_decode(varint_bytes(v as nat) + rest) == Some((v, varint_bytes(v as nat).len())),
        1 <= varint_bytes(v as nat).len() <= 10,
{
    let e = varint_bytes(v as nat);
    assert(pow128(10) == 0x40_0000_0000_0000_0000) by {
        reveal_with_fuel(pow128, 11);
    }
    lemma_varint_len(v as nat, 10);
    lemma_varint_end(v as nat, Seq::empty(), rest);
    assert(Seq::<u8>::empty() + e + rest =~= e + rest);
    assert((e + rest).take(e.len() as int) =~= e);
    lemma_leb_varint(v as nat);
}


proof fn lemma_varint_high_bits(v: nat)
    ensures
        forall|j: int| 0 <= j < varint_bytes(v).len() - 1 ==> varint_bytes(v)[j] >= 128,
    decreases v,
{
    if v >= 128 {
        lemma_varint_high_bits(v / 128);
        let s = varint_bytes(v);
        assert forall|j: int| 0 <= j < s.len() - 1 implies s[j] >= 128 by {
            if j > 0 {
                assert(s[j] == varint_bytes(v / 128)[j - 1]);
            }
        }
    }
}

proof fn lemma_varint_end_none(s: Seq<u8>, i: nat)
    requires
        forall|j: int| i <= j < s.len() ==> s[j] >= 128,
    ensures
        varint_end(s, i) is None,
    decreases 10 - i,
{
    if !(i >= 10 || i >= s.len()) {
        lemma_varint_end_none(s, i + 1);
    }
}

/// A varint cut short does not decode.
pub proof fn lemma_varint_prefix(v: u64, k: nat)
    requires
        k < varint_bytes(v as nat).len(),
    ensures
        varint_decode(varint_bytes(v as nat).take(k as int)) is None,
{
    lemma_varint_high_bits(v as nat);
    lemma_varint_end_none(varint_bytes(v as nat).take(k as int), 0);
}

} // verus!
