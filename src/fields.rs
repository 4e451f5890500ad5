//! Reading the value of a numbered field out of a decoded body, as the
//! format defines it: the last occurrence wins, an absent field reads as its
//! default, and an occurrence with another wire type fails the body.
use vstd::prelude::*;
use vstd::slice::slice_to_vec;
use crate::varint::{take_varint, varint_decode};
use crate::wire::{fields_view, WField, WVal, WireField, WireValue};

verus! {

/// The integer in field `n`: `Some(0)` when absent, `None` when an occurrence
/// is not a varint.
pub open spec fn get_int(fs: Seq<WField>, n: u32) -> Option<u64>
    decreases fs.len(),
{
    if fs.len() == 0 {
        Some(0)
    } else {
        let f = fs.last();
        let r = get_int(fs.drop_last(), n);
        if f.num != n {
            r
        } else {
            match f.val {
                WVal::Int(v) => if r is Some {
                    Some(v)
                } else {
                    None
                },
                _ => None,
            }
        }
    }
}

/// The bytes in field `n`: empty when absent, `None` when an occurrence is
/// not length-delimited.
pub open spec fn get_bytes(fs: Seq<WField>, n: u32) -> Option<Seq<u8>>
    decreases fs.len(),
{
    if fs.len() == 0 {
        Some(Seq::empty())
    } else {
        let f = fs.last();
        let r = get_bytes(fs.drop_last(), n);
        if f.num != n {
            r
        } else {
            match f.val {
                WVal::Bytes(b) => if r is Some {
                    Some(b)
                } else {
                    None
                },
                _ => None,
            }
        }
    }
}

/// The varints that fill `b` end to end, as a repeated field sends them in
/// packed form; `None` when a varint is bad or runs past the end.
pub open spec fn packed_ints(b: Seq<u8>) -> Option<Seq<u64>>
    decreases b.len(),
{
    if b.len() == 0 {
        Some(Seq::empty())
    } else {
        match varint_decode(b) {
            Some((v, m)) => if m == 0 || m > b.len() {
                None
            } else {
                match packed_ints(b.skip(m as int)) {
                    Some(ps) => Some(seq![v] + ps),
                    None => None,
                }
            },
            None => None,
        }
    }
}

/// Every integer of the repeated field `n`, in order: an occurrence is one
/// varint, or a length-delimited block of packed varints. `None` when an
/// occurrence is of another wire type or a packed block is malformed.
pub open spec fn get_ints(fs: Seq<WField>, n: u32) -> Option<Seq<u64>>
    decreases fs.len(),
{
    if fs.len() == 0 {
        Some(Seq::empty())
    } else {
        let f = fs.last();
        let r = get_ints(fs.drop_last(), n);
        if f.num != n {
            r
        } else {
            match (f.val, r) {
                (WVal::Int(v), Some(vs)) => Some(vs.push(v)),
                (WVal::Bytes(b), Some(vs)) => match packed_ints(b) {
                    Some(ps) => Some(vs + ps),
                    None => None,
                },
                _ => None,
            }
        }
    }
}

/// One field per integer, all under number `n`.
pub open spec fn repeated_ints(n: u32, vs: Seq<u64>) -> Seq<WField> {
    vs.map_values(|v: u64| WField { num: n, val: WVal::Int(v) })
}

/// A field list in which number `n` does not occur.
pub proof fn lemma_absent(fs: Seq<WField>, n: u32)
    requires
        forall|i: int| 0 <= i < fs.len() ==> (#[trigger] fs[i]).num != n,
    ensures
        get_int(fs, n) == Some(0u64),
        get_bytes(fs, n) == Some(Seq::<u8>::empty()),
        get_ints(fs, n) == Some(Seq::<u64>::empty()),
    decreases fs.len(),
{
    if fs.len() > 0 {
        lemma_absent(fs.drop_last(), n);
    }
}

/// A field list in which number `n` occurs once, at index `k`.
pub proof fn lemma_single(fs: Seq<WField>, n: u32, k: int)
    requires
        0 <= k < fs.len(),
        fs[k].num == n,
        forall|i: int| 0 <= i < fs.len() && i != k ==> (#[trigger] fs[i]).num != n,
    ensures
        fs[k].val matches WVal::Int(v) ==> get_int(fs, n) == Some(v),
        fs[k].val matches WVal::Bytes(b) ==> get_bytes(fs, n) == Some(b),
    decreases fs.len(),
{
    if k == fs.len() - 1 {
        lemma_absent(fs.drop_last(), n);
    } else {
        lemma_single(fs.drop_last(), n, k);
    }
}

/// Fields appended under other numbers do not change what field `n` reads.
pub proof fn lemma_other_fields(fs: Seq<WField>, us: Seq<WField>, n: u32)
    requires
        forall|i: int| 0 <= i < us.len() ==> (#[trigger] us[i]).num != n,
    ensures
        get_int(fs + us, n) == get_int(fs, n),
        get_bytes(fs + us, n) == get_bytes(fs, n),
        get_ints(fs + us, n) == get_ints(fs, n),
    decreases us.len(),
{
    if us.len() == 0 {
        assert(fs + us =~= fs);
    } else {
        assert((fs + us).drop_last() =~= fs + us.drop_last());
        assert((fs + us).last() == us[us.len() - 1]);
        lemma_other_fields(fs, us.drop_last(), n);
    }
}

pub proof fn lemma_repeated(n: u32, vs: Seq<u64>)
    ensures
        get_ints(repeated_ints(n, vs), n) == Some(vs),
    decreases vs.len(),
{
    if vs.len() > 0 {
        assert(repeated_ints(n, vs).drop_last() =~= repeated_ints(n, vs.drop_last()));
        lemma_repeated(n, vs.drop_last());
        assert(vs.drop_last().push(vs.last()) =~= vs);
    } else {
        assert(repeated_ints(n, vs) =~= Seq::<WField>::empty());
    }
}

pub fn field_int(fs: &Vec<WireField>, n: u32) -> (r: Option<u64>)
    ensures
        r == get_int(fields_view(fs@), n),
{
    let ghost v = fields_view(fs@);
    let mut cur: Option<u64> = Some(0);
    let mut i: usize = 0;
    assert(v.take(0) =~= Seq::<WField>::empty());
    while i < fs.len()
        invariant
            i <= fs@.len(),
            v == fields_view(fs@),
            cur == get_int(v.take(i as int), n),
        decreases fs@.len() - i,
    {
        assert(v.take(i + 1).drop_last() =~= v.take(i as int));
        if fs[i].number == n {
            match &fs[i].value {
                WireValue::Varint(x) => {
                    if cur.is_some() {
                        cur = Some(*x);
                    }
                },
                _ => {
                    cur = None;
                },
            }
        }
        i = i + 1;
    }
    assert(v.take(fs@.len() as int) =~= v);
    cur
}

pub fn field_bytes(fs: &Vec<WireField>, n: u32) -> (r: Option<Vec<u8>>)
    ensures
        match get_bytes(fields_view(fs@), n) {
            Some(b) => r is Some && r.unwrap()@ == b,
            None => r is None,
        },
{
    let ghost v = fields_view(fs@);
    let mut ok: bool = true;
    let mut last: Option<usize> = None;
    let mut i: usize = 0;
    assert(v.take(0) =~= Seq::<WField>::empty());
    while i < fs.len()
        invariant
            i <= fs@.len(),
            v == fields_view(fs@),
            ok <==> get_bytes(v.take(i as int), n) is Some,
            ok ==> match last {
                None => get_bytes(v.take(i as int), n) == Some(Seq::<u8>::empty()),
                Some(j) => j < i && fs@[j as int].value is Bytes && get_bytes(
                    v.take(i as int),
                    n,
                ) == Some(fs@[j as int].value->Bytes_0@),
            },
        decreases fs@.len() - i,
    {
        assert(v.take(i + 1).drop_last() =~= v.take(i as int));
        if fs[i].number == n {
            match &fs[i].value {
                WireValue::Bytes(_) => {
                    last = Some(i);
                },
                _ => {
                    ok = false;
                },
            }
        }
        i = i + 1;
    }
    assert(v.take(fs@.len() as int) =~= v);
    if !ok {
        return None;
    }
    match last {
        None => Some(Vec::new()),
        Some(j) => match &fs[j].value {
            WireValue::Bytes(b) => Some(slice_to_vec(b.as_slice())),
            _ => None,
        },
    }
}

/// Reads a block of packed varints.
pub fn decode_packed(b: &[u8]) -> (r: Option<Vec<u64>>)
    ensures
        match packed_ints(b@) {
            Some(ps) => r is Some && r.unwrap()@ == ps,
            None => r is None,
        },
{
    let mut out: Vec<u64> = Vec::new();
    let mut rest: &[u8] = b;
    assert(Seq::<u64>::empty() + packed_ints(b@).unwrap_or(Seq::empty()) =~= packed_ints(
        b@,
    ).unwrap_or(Seq::empty()));
    loop
        invariant
            match packed_ints(b@) {
                Some(ps) => packed_ints(rest@) is Some && ps == out@ + packed_ints(rest@).unwrap(),
                None => packed_ints(rest@) is None,
            },
        decreases rest@.len(),
    {
        if rest.len() == 0 {
            assert(out@ + Seq::<u64>::empty() =~= out@);
            return Some(out);
        }
        proof {
            crate::wire::lemma_varint_decode_bounds(rest@);
        }
        let (v, next) = match take_varint(rest) {
            Some(x) => x,
            None => return None,
        };
        proof {
            if packed_ints(b@) is Some {
                assert(out@ + (seq![v] + packed_ints(next@).unwrap()) =~= out@.push(v)
                    + packed_ints(next@).unwrap());
            }
        }
        out.push(v);
        rest = next;
    }
}

pub fn field_ints(fs: &Vec<WireField>, n: u32) -> (r: Option<Vec<u64>>)
    ensures
        match get_ints(fields_view(fs@), n) {
            Some(vs) => r is Some && r.unwrap()@ == vs,
            None => r is None,
        },
{
    let ghost v = fields_view(fs@);
    let mut ok: bool = true;
    let mut out: Vec<u64> = Vec::new();
    let mut i: usize = 0;
    assert(v.take(0) =~= Seq::<WField>::empty());
    while i < fs.len()
        invariant
            i <= fs@.len(),
            v == fields_view(fs@),
            ok <==> get_ints(v.take(i as int), n) is Some,
            ok ==> get_ints(v.take(i as int), n) == Some(out@),
        decreases fs@.len() - i,
    {
        assert(v.take(i + 1).drop_last() =~= v.take(i as int));
        if fs[i].number == n {
            match &fs[i].value {
                WireValue::Varint(x) => {
                    out.push(*x);
                },
                WireValue::Bytes(b) => match decode_packed(b.as_slice()) {
                    Some(ps) => {
                        let mut ps = ps;
                        out.append(&mut ps);
                    },
                    None => {
                        ok = false;
                    },
                },
                _ => {
                    ok = false;
                },
            }
        }
        i = i + 1;
    }
    assert(v.take(fs@.len() as int) =~= v);
    if ok {
        Some(out)
    } else {
        None
    }
}

} // verus!
