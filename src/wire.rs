//! The field layer of the wire format: a body is a sequence of numbered
//! fields, each a key (field number and wire type) followed by its payload.
use vstd::prelude::*;
use vstd::slice::{slice_subrange, slice_to_vec};
use crate::varint::{
    lemma_varint_prefix, lemma_varint_round_trip, put_varint, take_varint, varint_bytes,
    varint_decode, varint_end,
};

verus! {

/// What a field carries, as a value.
pub enum WVal {
    Int(u64),
    Bytes(Seq<u8>),
    /// A fixed-width payload of four or eight bytes; no message of this
    /// format uses one, but a body may carry it.
    Fixed(Seq<u8>),
    /// A group: the bytes from after its start key up to and including its
    /// end key. Groups are skipped, never written.
    Group(Seq<u8>),
}

pub struct WField {
    pub num: u32,
    pub val: WVal,
}

/// The payload of one field.
pub enum WireValue {
    Varint(u64),
    Bytes(Vec<u8>),
    Fixed(Vec<u8>),
    Group(Vec<u8>),
}

/// One numbered field of a body.
pub struct WireField {
    pub number: u32,
    pub value: WireValue,
}

impl View for WireField {
    type V = WField;

    open spec fn view(&self) -> WField {
        WField {
            num: self.number,
            val: match self.value {
                WireValue::Varint(v) => WVal::Int(v),
                WireValue::Bytes(b) => WVal::Bytes(b@),
                WireValue::Fixed(b) => WVal::Fixed(b@),
                WireValue::Group(b) => WVal::Group(b@),
            },
        }
    }
}

pub open spec fn fields_view(fs: Seq<WireField>) -> Seq<WField> {
    fs.map_values(|f: WireField| f@)
}

pub open spec fn wire_type(v: WVal) -> nat {
    match v {
        WVal::Int(_) => 0,
        WVal::Bytes(_) => 2,
        WVal::Fixed(b) => if b.len() == 8 {
            1
        } else {
            5
        },
        WVal::Group(_) => 3,
    }
}

pub open spec fn field_key(f: WField) -> nat {
    f.num as nat * 8 + wire_type(f.val)
}

/// A field that the format can carry: a number from 1 to 2^29 - 1, and a
/// fixed-width payload of four or eight bytes.
pub open spec fn field_ok(f: WField) -> bool {
    &&& 1 <= f.num < 0x2000_0000
    &&& match f.val {
        WVal::Int(_) => true,
        WVal::Bytes(b) => b.len() < 0x1_0000_0000_0000_0000,
        WVal::Fixed(b) => b.len() == 8 || b.len() == 4,
        WVal::Group(_) => false,
    }
}

pub open spec fn fields_ok(fs: Seq<WField>) -> bool {
    forall|i: int| 0 <= i < fs.len() ==> field_ok(#[trigger] fs[i])
}

pub open spec fn encode_field(f: WField) -> Seq<u8> {
    varint_bytes(field_key(f)) + match f.val {
        WVal::Int(v) => varint_bytes(v as nat),
        WVal::Bytes(b) => varint_bytes(b.len()) + b,
        WVal::Fixed(b) => b,
        WVal::Group(b) => b,
    }
}

/// The bytes of a body that holds the fields `fs`, in order.
pub open spec fn encode_fields(fs: Seq<WField>) -> Seq<u8>
    decreases fs.len(),
{
    if fs.len() == 0 {
        Seq::empty()
    } else {
        encode_field(fs[0]) + encode_fields(fs.drop_first())
    }
}

/// The key at the front of `s`: field number, wire type and length. A key
/// must fit in 32 bits, name a wire type from 0 to 5, and a field number of
/// at least 1.
pub open spec fn key_decode(s: Seq<u8>) -> Option<(u32, nat, nat)> {
    match varint_decode(s) {
        Some((k, n)) => if k > 0xFFFF_FFFF || k % 8 > 5 || k / 8 == 0 {
            None
        } else {
            Some(((k / 8) as u32, (k % 8) as nat, n))
        },
        None => None,
    }
}

/// The number of nesting levels that a skipped field may use.
pub open spec fn skip_depth() -> nat {
    100
}

/// How many bytes the payload of a field of wire type `wt` and number `tag`
/// takes at the front of `s`, when skipped with `depth` levels left.
pub open spec fn skip_len(wt: nat, tag: u32, s: Seq<u8>, depth: nat) -> Option<nat>
    decreases s.len(), 1nat,
{
    if depth == 0 {
        None
    } else if wt == 0 {
        match varint_decode(s) {
            Some((_, n)) => Some(n),
            None => None,
        }
    } else if wt == 1 {
        if s.len() >= 8 {
            Some(8)
        } else {
            None
        }
    } else if wt == 5 {
        if s.len() >= 4 {
            Some(4)
        } else {
            None
        }
    } else if wt == 2 {
        match varint_decode(s) {
            Some((l, m)) => if m + l <= s.len() {
                Some((m + l) as nat)
            } else {
                None
            },
            None => None,
        }
    } else if wt == 3 {
        group_len(s, tag, depth)
    } else {
        None
    }
}

/// Length of the rest of a group numbered `tag`: fields skipped one level
/// deeper, up to an end key of the same number.
pub open spec fn group_len(s: Seq<u8>, tag: u32, depth: nat) -> Option<nat>
    decreases s.len(), 0nat,
{
    match key_decode(s) {
        None => None,
        Some((t, w, n)) => if n == 0 || n > s.len() {
            None
        } else if w == 4 {
            if t == tag {
                Some(n)
            } else {
                None
            }
        } else {
            match skip_len(w, t, s.skip(n as int), (depth - 1) as nat) {
                None => None,
                Some(m) => if m > s.len() - n {
                    None
                } else {
                    match group_len(s.skip((n + m) as int), tag, depth) {
                        Some(r) => Some((n + m + r) as nat),
                        None => None,
                    }
                },
            }
        },
    }
}

/// Relies on prost::encoding::decode_key: reads the key at the front of `b`
/// and hands back its field number, its wire type and what follows.
#[verifier::external_body]
fn take_key<'a>(b: &'a [u8]) -> (r: Option<(u32, u8, &'a [u8])>)
    ensures
        match key_decode(b@) {
            Some((t, w, n)) => r is Some && r.unwrap().0 == t && r.unwrap().1 == w
                && r.unwrap().2@ == b@.skip(n as int),
            None => r is None,
        },
{
    let mut rest = b;
    match prost::encoding::decode_key(&mut rest) {
        Ok((tag, wt)) => Some((tag, wt as u8, rest)),
        Err(_) => None,
    }
}

/// Relies on prost::encoding::skip_field with a fresh decode context: skips
/// the rest of a group numbered `tag`, nested fields and groups included, up
/// to its end key, and hands back what follows.
#[verifier::external_body]
fn skip_group<'a>(tag: u32, b: &'a [u8]) -> (r: Option<&'a [u8]>)
    ensures
        match skip_len(3, tag, b@, skip_depth()) {
            Some(n) => r is Some && r.unwrap()@ == b@.skip(n as int),
            None => r is None,
        },
{
    let mut rest = b;
    let ctx = prost::encoding::DecodeContext::default();
    match prost::encoding::skip_field(prost::encoding::WireType::StartGroup, tag, &mut rest, ctx) {
        Ok(()) => Some(rest),
        Err(_) => None,
    }
}

/// Relies on prost::encoding::encode_key: appends the varint of the key
/// `tag * 8 + wt`.
#[verifier::external_body]
fn put_key(tag: u32, wt: u8, buf: &mut Vec<u8>)
    requires
        1 <= tag < 0x2000_0000,
        wt <= 5,
    ensures
        final(buf)@ == old(buf)@ + varint_bytes(tag as nat * 8 + wt as nat),
{
    let wire_type = match wt {
        0 => prost::encoding::WireType::Varint,
        1 => prost::encoding::WireType::SixtyFourBit,
        2 => prost::encoding::WireType::LengthDelimited,
        3 => prost::encoding::WireType::StartGroup,
        4 => prost::encoding::WireType::EndGroup,
        _ => prost::encoding::WireType::ThirtyTwoBit,
    };
    prost::encoding::encode_key(tag, wire_type, buf)
}

pub open spec fn prepend(f: WField, rest: Option<Seq<WField>>) -> Option<Seq<WField>> {
    match rest {
        Some(r) => Some(seq![f] + r),
        None => None,
    }
}

/// The fields of a body, or `None` where the bytes are not a sequence of
/// well-formed fields: a bad or truncated varint, a key above 32 bits, field
/// number zero, a wire type that the format lacks, or a payload that runs past
/// the end.
pub open spec fn parse_fields(s: Seq<u8>) -> Option<Seq<WField>>
    decreases s.len(),
{
    if s.len() == 0 {
        Some(Seq::empty())
    } else {
        match varint_decode(s) {
            None => None,
            Some((key, n)) => {
                let s1 = s.skip(n as int);
                let num = key / 8;
                let wt = key % 8;
                if n == 0 || n > s.len() || key > 0xFFFF_FFFF || num == 0 {
                    None
                } else if wt == 0 {
                    match varint_decode(s1) {
                        None => None,
                        Some((v, m)) => if m > s1.len() {
                            None
                        } else {
                            prepend(
                                WField { num: num as u32, val: WVal::Int(v) },
                                parse_fields(s1.skip(m as int)),
                            )
                        },
                    }
                } else if wt == 2 {
                    match varint_decode(s1) {
                        None => None,
                        Some((len, m)) => {
                            let s2 = s1.skip(m as int);
                            if m > s1.len() || len > s2.len() {
                                None
                            } else {
                                prepend(
                                    WField {
                                        num: num as u32,
                                        val: WVal::Bytes(s2.take(len as int)),
                                    },
                                    parse_fields(s2.skip(len as int)),
                                )
                            }
                        },
                    }
                } else if wt == 1 || wt == 5 {
                    let w: int = if wt == 1 {
                        8
                    } else {
                        4
                    };
                    if s1.len() < w {
                        None
                    } else {
                        prepend(
                            WField { num: num as u32, val: WVal::Fixed(s1.take(w)) },
                            parse_fields(s1.skip(w)),
                        )
                    }
                } else if wt == 3 {
                    match skip_len(3, num as u32, s1, skip_depth()) {
                        Some(g) => if g > s1.len() {
                            None
                        } else {
                            prepend(
                                WField { num: num as u32, val: WVal::Group(s1.take(g as int)) },
                                parse_fields(s1.skip(g as int)),
                            )
                        },
                        None => None,
                    }
                } else {
                    None
                }
            },
        }
    }
}

proof fn lemma_varint_end_bounds(s: Seq<u8>, i: nat)
    ensures
        varint_end(s, i) matches Some(n) ==> i < n <= s.len(),
    decreases 10 - i,
{
    if !(i >= 10 || i >= s.len()) && !(s[i as int] < 128) {
        lemma_varint_end_bounds(s, i + 1);
    }
}

pub proof fn lemma_varint_decode_bounds(s: Seq<u8>)
    ensures
        varint_decode(s) matches Some((v, n)) ==> 1 <= n <= s.len(),
{
    lemma_varint_end_bounds(s, 0);
}


proof fn lemma_key(f: WField)
    requires
        field_ok(f),
    ensures
        field_key(f) < 0x1_0000_0000,
        field_key(f) / 8 == f.num as nat,
        field_key(f) % 8 == wire_type(f.val),
{
}

proof fn lemma_parse_int(f: WField, v: u64, tail: Seq<u8>)
    requires
        field_ok(f),
        f.val == WVal::Int(v),
    ensures
        parse_fields(encode_field(f) + tail) == prepend(f, parse_fields(tail)),
{
    lemma_key(f);
    let key = field_key(f) as u64;
    let kb = varint_bytes(key as nat);
    let vb = varint_bytes(v as nat);
    let s = encode_field(f) + tail;
    assert(s =~= kb + (vb + tail));
    lemma_varint_round_trip(key, vb + tail);
    assert(s.skip(kb.len() as int) =~= vb + tail);
    lemma_varint_round_trip(v, tail);
    assert((vb + tail).skip(vb.len() as int) =~= tail);
}

proof fn lemma_parse_bytes(f: WField, b: Seq<u8>, tail: Seq<u8>)
    requires
        field_ok(f),
        f.val == WVal::Bytes(b),
    ensures
        parse_fields(encode_field(f) + tail) == prepend(f, parse_fields(tail)),
{
    lemma_key(f);
    let key = field_key(f) as u64;
    let kb = varint_bytes(key as nat);
    let lb = varint_bytes(b.len());
    let s = encode_field(f) + tail;
    assert(s =~= kb + (lb + (b + tail)));
    lemma_varint_round_trip(key, lb + (b + tail));
    assert(s.skip(kb.len() as int) =~= lb + (b + tail));
    lemma_varint_round_trip(b.len() as u64, b + tail);
    assert((lb + (b + tail)).skip(lb.len() as int) =~= b + tail);
    assert((b + tail).take(b.len() as int) =~= b);
    assert((b + tail).skip(b.len() as int) =~= tail);
}

proof fn lemma_parse_fixed(f: WField, b: Seq<u8>, tail: Seq<u8>)
    requires
        field_ok(f),
        f.val == WVal::Fixed(b),
    ensures
        parse_fields(encode_field(f) + tail) == prepend(f, parse_fields(tail)),
{
    lemma_key(f);
    let key = field_key(f) as u64;
    let kb = varint_bytes(key as nat);
    let s = encode_field(f) + tail;
    assert(s =~= kb + (b + tail));
    lemma_varint_round_trip(key, b + tail);
    assert(s.skip(kb.len() as int) =~= b + tail);
    assert((b + tail).take(b.len() as int) =~= b);
    assert((b + tail).skip(b.len() as int) =~= tail);
}

/// Reading back the bytes of well-formed fields gives the same fields.
pub proof fn lemma_fields_round_trip(fs: Seq<WField>)
    requires
        fields_ok(fs),
    ensures
        parse_fields(encode_fields(fs)) == Some(fs),
    decreases fs.len(),
{
    if fs.len() > 0 {
        let f = fs[0];
        let tail = encode_fields(fs.drop_first());
        assert(fields_ok(fs.drop_first()));
        lemma_fields_round_trip(fs.drop_first());
        assert(field_ok(f));
        match f.val {
            WVal::Int(v) => lemma_parse_int(f, v, tail),
            WVal::Bytes(b) => lemma_parse_bytes(f, b, tail),
            WVal::Fixed(b) => lemma_parse_fixed(f, b, tail),
            WVal::Group(_) => {},
        }
        assert(seq![f] + fs.drop_first() =~= fs);
    }
}

proof fn lemma_encode_fields_push(fs: Seq<WField>, f: WField)
    ensures
        encode_fields(fs.push(f)) == encode_fields(fs) + encode_field(f),
    decreases fs.len(),
{
    if fs.len() == 0 {
        assert(fs.push(f).drop_first() =~= Seq::<WField>::empty());
        assert(encode_fields(Seq::<WField>::empty()) == Seq::<u8>::empty());
        assert(encode_field(f) + Seq::<u8>::empty() =~= encode_field(f));
        assert(Seq::<u8>::empty() + encode_field(f) =~= encode_field(f));
    } else {
        assert(fs.push(f).drop_first() =~= fs.drop_first().push(f));
        lemma_encode_fields_push(fs.drop_first(), f);
        assert(encode_fields(fs.push(f)) =~= encode_fields(fs) + encode_field(f));
    }
}

/// Writes the fields one after the other.
pub fn encode_message(fs: &Vec<WireField>) -> (r: Vec<u8>)
    requires
        fields_ok(fields_view(fs@)),
    ensures
        r@ == encode_fields(fields_view(fs@)),
{
    let mut out: Vec<u8> = Vec::new();
    let mut i: usize = 0;
    while i < fs.len()
        invariant
            i <= fs@.len(),
            fields_ok(fields_view(fs@)),
            out@ == encode_fields(fields_view(fs@).take(i as int)),
        decreases fs@.len() - i,
    {
        let f = &fs[i];
        assert(field_ok(fields_view(fs@)[i as int]));
        proof {
            lemma_key(f@);
            assert(fields_view(fs@).take(i + 1) =~= fields_view(fs@).take(i as int).push(f@));
            lemma_encode_fields_push(fields_view(fs@).take(i as int), f@);
        }
        match &f.value {
            WireValue::Varint(v) => {
                put_key(f.number, 0, &mut out);
                put_varint(*v, &mut out);
            },
            WireValue::Bytes(b) => {
                put_key(f.number, 2, &mut out);
                put_varint(b.len() as u64, &mut out);
                let mut j: usize = 0;
                let ghost start = out@;
                while j < b.len()
                    invariant
                        j <= b@.len(),
                        out@ == start + b@.take(j as int),
                    decreases b@.len() - j,
                {
                    out.push(b[j]);
                    assert(b@.take(j + 1) =~= b@.take(j as int).push(b@[j as int]));
                    j = j + 1;
                }
                assert(b@.take(b@.len() as int) =~= b@);
            },
            WireValue::Fixed(b) | WireValue::Group(b) => {
                let wt: u8 = match &f.value {
                    WireValue::Group(_) => 3,
                    _ => if b.len() == 8 {
                        1
                    } else {
                        5
                    },
                };
                put_key(f.number, wt, &mut out);
                let mut j: usize = 0;
                let ghost start = out@;
                while j < b.len()
                    invariant
                        j <= b@.len(),
                        out@ == start + b@.take(j as int),
                    decreases b@.len() - j,
                {
                    out.push(b[j]);
                    assert(b@.take(j + 1) =~= b@.take(j as int).push(b@[j as int]));
                    j = j + 1;
                }
                assert(b@.take(b@.len() as int) =~= b@);
            },
        }
        assert(out@ =~= encode_fields(fields_view(fs@).take(i as int)) + encode_field(f@));
        i = i + 1;
    }
    assert(fields_view(fs@).take(fs@.len() as int) =~= fields_view(fs@));
    out
}


proof fn lemma_view_push(acc: Seq<WireField>, f: WireField)
    ensures
        fields_view(acc.push(f)) == fields_view(acc).push(f@),
{
    assert(fields_view(acc.push(f)) =~= fields_view(acc).push(f@));
}

fn copy_bytes(b: &[u8], n: usize) -> (r: (Vec<u8>, &[u8]))
    requires
        n <= b@.len(),
    ensures
        r.0@ == b@.take(n as int),
        r.1@ == b@.skip(n as int),
{
    let data = slice_to_vec(slice_subrange(b, 0, n));
    (data, slice_subrange(b, n, b.len()))
}

proof fn lemma_skip_len_bound(wt: nat, tag: u32, s: Seq<u8>, depth: nat)
    ensures
        skip_len(wt, tag, s, depth) matches Some(m) ==> m <= s.len(),
    decreases s.len(), 1nat,
{
    lemma_varint_decode_bounds(s);
    if depth != 0 && wt == 3 {
        lemma_group_len_bound(s, tag, depth);
    }
}

proof fn lemma_group_len_bound(s: Seq<u8>, tag: u32, depth: nat)
    ensures
        group_len(s, tag, depth) matches Some(m) ==> m <= s.len(),
    decreases s.len(), 0nat,
{
    match key_decode(s) {
        None => {},
        Some((t, w, n)) => {
            if !(n == 0 || n > s.len()) && w != 4 {
                let s1 = s.skip(n as int);
                lemma_skip_len_bound(w, t, s1, (depth - 1) as nat);
                match skip_len(w, t, s1, (depth - 1) as nat) {
                    None => {},
                    Some(m) => {
                        if m <= s.len() - n {
                            lemma_group_len_bound(s.skip((n + m) as int), tag, depth);
                        }
                    },
                }
            }
        },
    }
}

/// Reads the field at the front of a non-empty body.
fn decode_one(rest: &[u8]) -> (r: Option<(WireField, &[u8])>)
    requires
        rest@.len() > 0,
    ensures
        match r {
            Some((f, next)) => parse_fields(rest@) == prepend(f@, parse_fields(next@))
                && next@.len() < rest@.len(),
            None => parse_fields(rest@) is None,
        },
{
    proof {
        lemma_varint_decode_bounds(rest@);
    }
    let (num, wt, r1) = match take_key(rest) {
        Some(x) => x,
        None => return None,
    };
    if wt == 0 {
        proof {
            lemma_varint_decode_bounds(r1@);
        }
        let (v, r2) = match take_varint(r1) {
            Some(x) => x,
            None => return None,
        };
        Some((WireField { number: num, value: WireValue::Varint(v) }, r2))
    } else if wt == 2 {
        proof {
            lemma_varint_decode_bounds(r1@);
        }
        let (len, r2) = match take_varint(r1) {
            Some(x) => x,
            None => return None,
        };
        if len > r2.len() as u64 {
            return None;
        }
        let (data, r3) = copy_bytes(r2, len as usize);
        Some((WireField { number: num, value: WireValue::Bytes(data) }, r3))
    } else if wt == 1 || wt == 5 {
        let w: usize = if wt == 1 {
            8
        } else {
            4
        };
        if r1.len() < w {
            return None;
        }
        let (data, r3) = copy_bytes(r1, w);
        Some((WireField { number: num, value: WireValue::Fixed(data) }, r3))
    } else if wt == 3 {
        proof {
            lemma_skip_len_bound(3, num, r1@, skip_depth());
        }
        let r2 = match skip_group(num, r1) {
            Some(x) => x,
            None => return None,
        };
        let g = r1.len() - r2.len();
        assert(r2@ == r1@.skip(g as int));
        let (data, r3) = copy_bytes(r1, g);
        assert(r3@ =~= r2@);
        Some((WireField { number: num, value: WireValue::Group(data) }, r3))
    } else {
        None
    }
}

/// Reads the fields of a body; `None` exactly where `parse_fields` fails.
pub fn decode_message(b: &[u8]) -> (r: Option<Vec<WireField>>)
    ensures
        match parse_fields(b@) {
            Some(fs) => r is Some && fields_view(r.unwrap()@) == fs,
            None => r is None,
        },
{
    let mut acc: Vec<WireField> = Vec::new();
    let mut rest: &[u8] = b;
    assert(fields_view(acc@) =~= Seq::<WField>::empty());
    assert(Seq::<WField>::empty() + parse_fields(b@).unwrap_or(Seq::empty()) =~= parse_fields(
        b@,
    ).unwrap_or(Seq::empty()));
    loop
        invariant
            match parse_fields(b@) {
                Some(fs) => parse_fields(rest@) is Some && fs == fields_view(acc@) + parse_fields(
                    rest@,
                ).unwrap(),
                None => parse_fields(rest@) is None,
            },
        decreases rest@.len(),
    {
        if rest.len() == 0 {
            assert(fields_view(acc@) + Seq::<WField>::empty() =~= fields_view(acc@));
            return Some(acc);
        }
        let (field, next) = match decode_one(rest) {
            Some(x) => x,
            None => return None,
        };
        proof {
            lemma_view_push(acc@, field);
            if parse_fields(b@) is Some {
                assert(fields_view(acc@) + (seq![field@] + parse_fields(next@).unwrap()) =~= fields_view(
                    acc@,
                ).push(field@) + parse_fields(next@).unwrap());
            }
        }
        acc.push(field);
        rest = next;
    }
}

proof fn lemma_encode_fields_concat(a: Seq<WField>, b: Seq<WField>)
    ensures
        encode_fields(a + b) == encode_fields(a) + encode_fields(b),
    decreases a.len(),
{
    if a.len() == 0 {
        assert(a + b =~= b);
        assert(Seq::<u8>::empty() + encode_fields(b) =~= encode_fields(b));
    } else {
        assert((a + b).drop_first() =~= a.drop_first() + b);
        lemma_encode_fields_concat(a.drop_first(), b);
        assert(encode_fields(a + b) =~= encode_fields(a) + encode_fields(b));
    }
}

proof fn lemma_parse_after(a: Seq<WField>, t: Seq<u8>)
    requires
        fields_ok(a),
    ensures
        parse_fields(t) is None ==> parse_fields(encode_fields(a) + t) is None,
    decreases a.len(),
{
    if a.len() == 0 {
        assert(encode_fields(a) + t =~= t);
    } else {
        let f = a[0];
        let tail = encode_fields(a.drop_first()) + t;
        assert(fields_ok(a.drop_first()));
        lemma_parse_after(a.drop_first(), t);
        assert(field_ok(f));
        match f.val {
            WVal::Int(v) => lemma_parse_int(f, v, tail),
            WVal::Bytes(b) => lemma_parse_bytes(f, b, tail),
            WVal::Fixed(b) => lemma_parse_fixed(f, b, tail),
            WVal::Group(_) => {},
        }
        assert(encode_fields(a) + t =~= encode_field(f) + tail);
    }
}

proof fn lemma_partial_field(f: WField, k: int)
    requires
        field_ok(f),
        0 < k < encode_field(f).len(),
    ensures
        parse_fields(encode_field(f).take(k)) is None,
{
    lemma_key(f);
    let key = field_key(f) as u64;
    let kb = varint_bytes(key as nat);
    let e = encode_field(f);
    let s = e.take(k);
    if k < kb.len() {
        assert(s =~= kb.take(k));
        lemma_varint_prefix(key, k as nat);
    } else {
        let payload = e.skip(kb.len() as int);
        let j = k - kb.len();
        let pj = payload.take(j);
        assert(s =~= kb + pj);
        lemma_varint_round_trip(key, pj);
        assert(s.skip(kb.len() as int) =~= pj);
        match f.val {
            WVal::Int(v) => {
                assert(payload =~= varint_bytes(v as nat));
                lemma_varint_prefix(v, j as nat);
            },
            WVal::Bytes(b) => {
                let lb = varint_bytes(b.len());
                assert(payload =~= lb + b);
                if j < lb.len() {
                    assert(pj =~= lb.take(j));
                    lemma_varint_prefix(b.len() as u64, j as nat);
                } else {
                    let bj = b.take(j - lb.len());
                    assert(pj =~= lb + bj);
                    lemma_varint_round_trip(b.len() as u64, bj);
                    assert(pj.skip(lb.len() as int) =~= bj);
                }
            },
            WVal::Fixed(b) => {
                assert(payload =~= b);
            },
            WVal::Group(_) => {},
        }
    }
}

/// The length of the encoding of the first `i` fields.
pub open spec fn field_boundary(fs: Seq<WField>, i: int) -> nat {
    encode_fields(fs.take(i)).len()
}

/// A body cut strictly inside one of its fields does not read back.
pub proof fn lemma_cut_inside_field(fs: Seq<WField>, i: int, k: int)
    requires
        fields_ok(fs),
        0 <= i < fs.len(),
        field_boundary(fs, i) < k < field_boundary(fs, i + 1),
    ensures
        parse_fields(encode_fields(fs).take(k)) is None,
{
    let a = fs.take(i);
    let f = fs[i];
    assert(fs.take(i + 1) =~= a.push(f));
    lemma_encode_fields_push(a, f);
    assert(fs =~= fs.take(i + 1) + fs.skip(i + 1));
    lemma_encode_fields_concat(fs.take(i + 1), fs.skip(i + 1));
    let ea = encode_fields(a);
    let part = encode_field(f).take(k - ea.len());
    assert(encode_fields(fs).take(k) =~= ea + part);
    assert(field_ok(f));
    lemma_partial_field(f, k - ea.len());
    assert(fields_ok(a));
    lemma_parse_after(a, part);
}


proof fn lemma_varint_end_append(s: Seq<u8>, t: Seq<u8>, i: nat)
    requires
        varint_end(s, i) is Some,
    ensures
        varint_end(s + t, i) == varint_end(s, i),
    decreases 10 - i,
{
    if !(i >= 10 || i >= s.len()) && !(s[i as int] < 128) {
        lemma_varint_end_append(s, t, i + 1);
    }
}

proof fn lemma_varint_append(s: Seq<u8>, t: Seq<u8>)
    requires
        varint_decode(s) is Some,
    ensures
        varint_decode(s + t) == varint_decode(s),
        varint_decode(s) matches Some((v, n)) ==> (s + t).skip(n as int) == s.skip(n as int) + t,
{
    lemma_varint_end_append(s, t, 0);
    lemma_varint_end_bounds(s, 0);
    let n = varint_end(s, 0).unwrap();
    assert((s + t).take(n as int) =~= s.take(n as int));
    assert((s + t).skip(n as int) =~= s.skip(n as int) + t);
}

proof fn lemma_skip_len_append(wt: nat, tag: u32, s: Seq<u8>, t: Seq<u8>, depth: nat)
    requires
        skip_len(wt, tag, s, depth) is Some,
    ensures
        skip_len(wt, tag, s + t, depth) == skip_len(wt, tag, s, depth),
    decreases s.len(), 1nat,
{
    if wt == 0 || wt == 2 {
        lemma_varint_append(s, t);
    } else if wt == 3 {
        lemma_group_len_append(s, tag, t, depth);
    }
}

proof fn lemma_group_len_append(s: Seq<u8>, tag: u32, t: Seq<u8>, depth: nat)
    requires
        group_len(s, tag, depth) is Some,
    ensures
        group_len(s + t, tag, depth) == group_len(s, tag, depth),
    decreases s.len(), 0nat,
{
    lemma_varint_append(s, t);
    let (tg, w, n) = key_decode(s).unwrap();
    if w != 4 {
        let s1 = s.skip(n as int);
        lemma_skip_len_append(w, tg, s1, t, (depth - 1) as nat);
        let m = skip_len(w, tg, s1, (depth - 1) as nat).unwrap();
        assert((s + t).skip(n as int) =~= s1 + t);
        assert((s + t).skip((n + m) as int) =~= s.skip((n + m) as int) + t);
        lemma_group_len_append(s.skip((n + m) as int), tag, t, depth);
    }
}

#[verifier::rlimit(100)]
proof fn lemma_parse_step(s: Seq<u8>, t: Seq<u8>) -> (r: (WField, int))
    requires
        s.len() > 0,
        parse_fields(s) is Some,
    ensures
        0 < r.1 <= s.len(),
        parse_fields(s) == prepend(r.0, parse_fields(s.skip(r.1))),
        parse_fields(s + t) == prepend(r.0, parse_fields(s.skip(r.1) + t)),
{
    lemma_varint_append(s, t);
    let (key, n) = varint_decode(s).unwrap();
    let s1 = s.skip(n as int);
    let wt = key % 8;
    let num = key / 8;
    assert((s + t).skip(n as int) =~= s1 + t);
    let next: int;
    let f: WField;
    if wt == 0 {
        lemma_varint_append(s1, t);
        let (v, m) = varint_decode(s1).unwrap();
        next = m as int;
        f = WField { num: num as u32, val: WVal::Int(v) };
    } else if wt == 2 {
        lemma_varint_append(s1, t);
        let (len, m) = varint_decode(s1).unwrap();
        let s2 = s1.skip(m as int);
        assert((s1 + t).skip(m as int) =~= s2 + t);
        assert((s2 + t).take(len as int) =~= s2.take(len as int));
        assert((s2 + t).skip(len as int) =~= s2.skip(len as int) + t);
        next = m + len;
        assert(s1.skip(next) =~= s2.skip(len as int));
        f = WField { num: num as u32, val: WVal::Bytes(s2.take(len as int)) };
    } else if wt == 1 || wt == 5 {
        let w: int = if wt == 1 {
            8
        } else {
            4
        };
        assert((s1 + t).take(w) =~= s1.take(w));
        assert((s1 + t).skip(w) =~= s1.skip(w) + t);
        next = w;
        f = WField { num: num as u32, val: WVal::Fixed(s1.take(w)) };
    } else {
        lemma_skip_len_append(3, num as u32, s1, t, skip_depth());
        let g = skip_len(3, num as u32, s1, skip_depth()).unwrap();
        assert((s1 + t).take(g as int) =~= s1.take(g as int));
        assert((s1 + t).skip(g as int) =~= s1.skip(g as int) + t);
        next = g as int;
        f = WField { num: num as u32, val: WVal::Group(s1.take(g as int)) };
    }
    assert(s.skip(n + next) =~= s1.skip(next));
    (f, n + next)
}

/// Two well-formed bodies written one after the other read as the fields of
/// the first followed by those of the second.
pub proof fn lemma_parse_append(s: Seq<u8>, t: Seq<u8>)
    requires
        parse_fields(s) is Some,
        parse_fields(t) is Some,
    ensures
        parse_fields(s + t) == Some(parse_fields(s).unwrap() + parse_fields(t).unwrap()),
    decreases s.len(),
{
    if s.len() == 0 {
        assert(s + t =~= t);
        assert(parse_fields(s).unwrap() + parse_fields(t).unwrap() =~= parse_fields(t).unwrap());
    } else {
        let (f, k) = lemma_parse_step(s, t);
        lemma_parse_append(s.skip(k), t);
        assert(parse_fields(s + t).unwrap() =~= parse_fields(s).unwrap() + parse_fields(t).unwrap());
    }
}

} // verus!
