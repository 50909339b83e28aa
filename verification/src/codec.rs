//! The binary serialization of field values: a tag byte per node, 64-bit
//! big-endian length prefixes for byte runs and containers, and nested
//! encodings for arrays and dictionaries. Decoding is the exact inverse of
//! encoding on every well-formed value, and rejects every truncated or
//! malformed byte run instead of panicking.

use vstd::prelude::*;
use crate::value::{Value, ValModel, deep_of, deep_list, deep_pairs, lemma_deep_wf, lemma_deep_list_len, lemma_deep_list_index, lemma_deep_pairs_len, lemma_deep_pairs_index, lemma_deep_list_cons, lemma_deep_pairs_cons};

verus! {

pub const TAG_NIL: u8 = 0;
pub const TAG_FALSE: u8 = 1;
pub const TAG_TRUE: u8 = 2;
pub const TAG_UINT: u8 = 3;
pub const TAG_INT: u8 = 4;
pub const TAG_STR: u8 = 5;
pub const TAG_BIN: u8 = 6;
pub const TAG_ARR: u8 = 7;
pub const TAG_DICT: u8 = 8;

// ---------------------------------------------------------------------------
// 64-bit big-endian integers

pub open spec fn spec_u64_bytes(n: u64) -> Seq<u8> {
    seq![
        (n >> 56) as u8,
        (n >> 48) as u8,
        (n >> 40) as u8,
        (n >> 32) as u8,
        (n >> 24) as u8,
        (n >> 16) as u8,
        (n >> 8) as u8,
        n as u8,
    ]
}

/// The integer read back from eight big-endian bytes; meaningful when
/// `s.len() == 8`.
pub open spec fn spec_u64_of(s: Seq<u8>) -> u64 {
    (((s[0] as u64) << 56) | ((s[1] as u64) << 48) | ((s[2] as u64) << 40)
        | ((s[3] as u64) << 32) | ((s[4] as u64) << 24) | ((s[5] as u64) << 16)
        | ((s[6] as u64) << 8) | (s[7] as u64)) as u64
}

pub proof fn lemma_u64_bytes_roundtrip(n: u64)
    ensures
        spec_u64_bytes(n).len() == 8,
        spec_u64_of(spec_u64_bytes(n)) == n,
{
    assert(((((n >> 56) as u8) as u64) << 56 | (((n >> 48) as u8) as u64) << 48
        | (((n >> 40) as u8) as u64) << 40 | (((n >> 32) as u8) as u64) << 32
        | (((n >> 24) as u8) as u64) << 24 | (((n >> 16) as u8) as u64) << 16
        | (((n >> 8) as u8) as u64) << 8 | ((n as u8) as u64)) == n) by (bit_vector);
}

// ---------------------------------------------------------------------------
// Encoding

pub open spec fn spec_encode(m: ValModel) -> Seq<u8>
    decreases m, 0int,
{
    match m {
        ValModel::Nil => seq![TAG_NIL],
        ValModel::Bool(b) => if b {
            seq![TAG_TRUE]
        } else {
            seq![TAG_FALSE]
        },
        ValModel::Uint(n) => seq![TAG_UINT] + spec_u64_bytes(n),
        ValModel::Int(n) => seq![TAG_INT] + spec_u64_bytes(n as u64),
        ValModel::Str(bytes) => seq![TAG_STR] + spec_u64_bytes(bytes.len() as u64) + bytes,
        ValModel::Bin(bytes) => seq![TAG_BIN] + spec_u64_bytes(bytes.len() as u64) + bytes,
        ValModel::Array(items) => seq![TAG_ARR] + spec_u64_bytes(items.len() as u64)
            + spec_encode_list(items),
        ValModel::Dict(pairs) => seq![TAG_DICT] + spec_u64_bytes(pairs.len() as u64)
            + spec_encode_pairs(pairs),
    }
}

pub open spec fn spec_encode_list(s: Seq<ValModel>) -> Seq<u8>
    decreases s, 1int,
{
    if s.len() == 0 {
        Seq::empty()
    } else {
        spec_encode(s[0]) + spec_encode_list(s.skip(1))
    }
}

pub open spec fn spec_encode_pairs(s: Seq<(ValModel, ValModel)>) -> Seq<u8>
    decreases s, 1int,
{
    if s.len() == 0 {
        Seq::empty()
    } else {
        spec_encode(s[0].0) + spec_encode(s[0].1) + spec_encode_pairs(s.skip(1))
    }
}

/// Every encoding carries at least its tag byte.
pub proof fn lemma_encode_positive(m: ValModel)
    ensures
        spec_encode(m).len() >= 1,
{
}

// ---------------------------------------------------------------------------
// Decoding

/// Decodes one value from the front of `b`, returning it with the unread
/// suffix; `None` on a truncated or malformed head.
pub open spec fn spec_decode_val(b: Seq<u8>) -> Option<(ValModel, Seq<u8>)>
    decreases b.len(), 0int, 0nat,
{
    if b.len() < 1 {
        None
    } else {
        let tag = b[0];
        let r = b.skip(1);
        if tag == TAG_NIL {
            Some((ValModel::Nil, r))
        } else if tag == TAG_FALSE {
            Some((ValModel::Bool(false), r))
        } else if tag == TAG_TRUE {
            Some((ValModel::Bool(true), r))
        } else if tag == TAG_UINT {
            if r.len() < 8 {
                None
            } else {
                Some((ValModel::Uint(spec_u64_of(r.take(8))), r.skip(8)))
            }
        } else if tag == TAG_INT {
            if r.len() < 8 {
                None
            } else {
                Some((ValModel::Int(spec_u64_of(r.take(8)) as i64), r.skip(8)))
            }
        } else if tag == TAG_STR {
            if r.len() < 8 {
                None
            } else {
                let n = spec_u64_of(r.take(8)) as int;
                let rest = r.skip(8);
                if rest.len() < n {
                    None
                } else {
                    Some((ValModel::Str(rest.take(n)), rest.skip(n)))
                }
            }
        } else if tag == TAG_BIN {
            if r.len() < 8 {
                None
            } else {
                let n = spec_u64_of(r.take(8)) as int;
                let rest = r.skip(8);
                if rest.len() < n {
                    None
                } else {
                    Some((ValModel::Bin(rest.take(n)), rest.skip(n)))
                }
            }
        } else if tag == TAG_ARR {
            if r.len() < 8 {
                None
            } else {
                let n = spec_u64_of(r.take(8));
                let rest = r.skip(8);
                match spec_decode_list(rest, n as nat) {
                    Some((items, rest2)) => Some((ValModel::Array(items), rest2)),
                    None => None,
                }
            }
        } else if tag == TAG_DICT {
            if r.len() < 8 {
                None
            } else {
                let n = spec_u64_of(r.take(8));
                let rest = r.skip(8);
                match spec_decode_pairs(rest, n as nat) {
                    Some((pairs, rest2)) => Some((ValModel::Dict(pairs), rest2)),
                    None => None,
                }
            }
        } else {
            None
        }
    }
}

/// Decodes `count` values from the front of `b`. Every decoded element must
/// consume at least one byte; a decoder that stands still marks a malformed
/// run.
pub open spec fn spec_decode_list(b: Seq<u8>, count: nat) -> Option<(Seq<ValModel>, Seq<u8>)>
    decreases b.len(), 1int, count,
{
    if count == 0 {
        Some((Seq::empty(), b))
    } else {
        match spec_decode_val(b) {
            None => None,
            Some((v, rest)) => if rest.len() < b.len() {
                match spec_decode_list(rest, (count - 1) as nat) {
                    None => None,
                    Some((items, rest2)) => Some((seq![v] + items, rest2)),
                }
            } else {
                None
            },
        }
    }
}

pub open spec fn spec_decode_pairs(b: Seq<u8>, count: nat) -> Option<
    (Seq<(ValModel, ValModel)>, Seq<u8>),
>
    decreases b.len(), 1int, count,
{
    if count == 0 {
        Some((Seq::empty(), b))
    } else {
        match spec_decode_val(b) {
            None => None,
            Some((k, r1)) => if r1.len() < b.len() {
                match spec_decode_val(r1) {
                    None => None,
                    Some((v, r2)) => if r2.len() < b.len() {
                        match spec_decode_pairs(r2, (count - 1) as nat) {
                            None => None,
                            Some((pairs, rest2)) => Some((seq![(k, v)] + pairs, rest2)),
                        }
                    } else {
                        None
                    },
                }
            } else {
                None
            },
        }
    }
}

// ---------------------------------------------------------------------------
// Round trip: decoding inverts encoding on every well-formed model.

pub open spec fn wf_list(s: Seq<ValModel>) -> bool {
    forall|i: int| #![trigger s[i]] 0 <= i < s.len() ==> s[i].wf()
}

pub open spec fn wf_pairs(s: Seq<(ValModel, ValModel)>) -> bool {
    forall|i: int| #![trigger s[i]] 0 <= i < s.len() ==> s[i].0.wf() && s[i].1.wf()
}

/// A value encoded and decoded compares equal to the original, and decoding
/// stops exactly at the end of the encoding, whatever follows it.
pub proof fn lemma_roundtrip_val(m: ValModel, tail: Seq<u8>)
    requires
        m.wf(),
    ensures
        spec_decode_val(spec_encode(m) + tail) == Some((m, tail)),
    decreases m, 0int,
{
    let b = spec_encode(m) + tail;
    match m {
        ValModel::Nil => {
            assert(b.skip(1) =~= tail);
        }
        ValModel::Bool(v) => {
            assert(b.skip(1) =~= tail);
        }
        ValModel::Uint(n) => {
            lemma_u64_bytes_roundtrip(n);
            let r = b.skip(1);
            assert(r =~= spec_u64_bytes(n) + tail);
            assert(r.take(8) =~= spec_u64_bytes(n));
            assert(r.skip(8) =~= tail);
        }
        ValModel::Int(n) => {
            lemma_u64_bytes_roundtrip(n as u64);
            let r = b.skip(1);
            assert(r =~= spec_u64_bytes(n as u64) + tail);
            assert(r.take(8) =~= spec_u64_bytes(n as u64));
            assert(r.skip(8) =~= tail);
            assert(((n as u64) as i64) == n) by (bit_vector);
        }
        ValModel::Str(bytes) => {
            let n = bytes.len() as u64;
            lemma_u64_bytes_roundtrip(n);
            let r = b.skip(1);
            assert(r =~= spec_u64_bytes(n) + (bytes + tail));
            assert(r.take(8) =~= spec_u64_bytes(n));
            let rest = r.skip(8);
            assert(rest =~= bytes + tail);
            assert(n as int == bytes.len());
            assert(rest.take(n as int) =~= bytes);
            assert(rest.skip(n as int) =~= tail);
        }
        ValModel::Bin(bytes) => {
            let n = bytes.len() as u64;
            lemma_u64_bytes_roundtrip(n);
            let r = b.skip(1);
            assert(r =~= spec_u64_bytes(n) + (bytes + tail));
            assert(r.take(8) =~= spec_u64_bytes(n));
            let rest = r.skip(8);
            assert(rest =~= bytes + tail);
            assert(n as int == bytes.len());
            assert(rest.take(n as int) =~= bytes);
            assert(rest.skip(n as int) =~= tail);
        }
        ValModel::Array(items) => {
            let n = items.len() as u64;
            lemma_u64_bytes_roundtrip(n);
            let r = b.skip(1);
            assert(r =~= spec_u64_bytes(n) + (spec_encode_list(items) + tail));
            assert(r.take(8) =~= spec_u64_bytes(n));
            let rest = r.skip(8);
            assert(rest =~= spec_encode_list(items) + tail);
            assert(n as nat == items.len());
            lemma_roundtrip_list(items, tail);
        }
        ValModel::Dict(pairs) => {
            let n = pairs.len() as u64;
            lemma_u64_bytes_roundtrip(n);
            let r = b.skip(1);
            assert(r =~= spec_u64_bytes(n) + (spec_encode_pairs(pairs) + tail));
            assert(r.take(8) =~= spec_u64_bytes(n));
            let rest = r.skip(8);
            assert(rest =~= spec_encode_pairs(pairs) + tail);
            assert(n as nat == pairs.len());
            lemma_roundtrip_pairs(pairs, tail);
        }
    }
}

pub proof fn lemma_roundtrip_list(s: Seq<ValModel>, tail: Seq<u8>)
    requires
        wf_list(s),
    ensures
        spec_decode_list(spec_encode_list(s) + tail, s.len()) == Some((s, tail)),
    decreases s, 1int,
{
    let b = spec_encode_list(s) + tail;
    if s.len() == 0 {
        assert(b =~= tail);
        assert(s =~= Seq::<ValModel>::empty());
    } else {
        let e0 = spec_encode(s[0]);
        let erest = spec_encode_list(s.skip(1));
        assert(b =~= e0 + (erest + tail));
        lemma_roundtrip_val(s[0], erest + tail);
        lemma_encode_positive(s[0]);
        assert((erest + tail).len() < b.len());
        assert(wf_list(s.skip(1)));
        lemma_roundtrip_list(s.skip(1), tail);
        assert(seq![s[0]] + s.skip(1) =~= s);
    }
}

pub proof fn lemma_roundtrip_pairs(s: Seq<(ValModel, ValModel)>, tail: Seq<u8>)
    requires
        wf_pairs(s),
    ensures
        spec_decode_pairs(spec_encode_pairs(s) + tail, s.len()) == Some((s, tail)),
    decreases s, 1int,
{
    let b = spec_encode_pairs(s) + tail;
    if s.len() == 0 {
        assert(b =~= tail);
        assert(s =~= Seq::<(ValModel, ValModel)>::empty());
    } else {
        let ek = spec_encode(s[0].0);
        let ev = spec_encode(s[0].1);
        let erest = spec_encode_pairs(s.skip(1));
        assert(b =~= ek + (ev + (erest + tail)));
        lemma_roundtrip_val(s[0].0, ev + (erest + tail));
        lemma_encode_positive(s[0].0);
        assert((ev + (erest + tail)).len() < b.len());
        lemma_roundtrip_val(s[0].1, erest + tail);
        lemma_encode_positive(s[0].1);
        assert((erest + tail).len() < b.len());
        assert(wf_pairs(s.skip(1)));
        lemma_roundtrip_pairs(s.skip(1), tail);
        assert(seq![(s[0].0, s[0].1)] + s.skip(1) =~= s);
    }
}

// ---------------------------------------------------------------------------
// Executable encoding

pub proof fn lemma_encode_list_snoc(s: Seq<ValModel>, x: ValModel)
    ensures
        spec_encode_list(s.push(x)) == spec_encode_list(s) + spec_encode(x),
    decreases s.len(),
{
    let whole = s.push(x);
    if s.len() == 0 {
        assert(whole[0] == x);
        assert(whole.skip(1) =~= s);
        assert(spec_encode_list(whole) == spec_encode(x) + spec_encode_list(s));
        assert(spec_encode(x) + spec_encode_list(s) =~= spec_encode_list(s) + spec_encode(x));
    } else {
        assert(whole[0] == s[0]);
        assert(whole.skip(1) =~= s.skip(1).push(x));
        lemma_encode_list_snoc(s.skip(1), x);
        assert(spec_encode(s[0]) + (spec_encode_list(s.skip(1)) + spec_encode(x)) =~= (
        spec_encode(s[0]) + spec_encode_list(s.skip(1))) + spec_encode(x));
    }
}

pub proof fn lemma_encode_pairs_snoc(s: Seq<(ValModel, ValModel)>, x: (ValModel, ValModel))
    ensures
        spec_encode_pairs(s.push(x)) == spec_encode_pairs(s) + spec_encode(x.0) + spec_encode(
            x.1,
        ),
    decreases s.len(),
{
    let whole = s.push(x);
    if s.len() == 0 {
        assert(whole[0] == x);
        assert(whole.skip(1) =~= s);
        assert(spec_encode_pairs(whole) == spec_encode(x.0) + spec_encode(x.1)
            + spec_encode_pairs(s));
        assert(spec_encode(x.0) + spec_encode(x.1) + spec_encode_pairs(s) =~= spec_encode_pairs(s)
            + spec_encode(x.0) + spec_encode(x.1));
    } else {
        assert(whole[0] == s[0]);
        assert(whole.skip(1) =~= s.skip(1).push(x));
        lemma_encode_pairs_snoc(s.skip(1), x);
        assert(spec_encode(s[0].0) + spec_encode(s[0].1) + (spec_encode_pairs(s.skip(1))
            + spec_encode(x.0) + spec_encode(x.1)) =~= (spec_encode(s[0].0) + spec_encode(s[0].1)
            + spec_encode_pairs(s.skip(1))) + spec_encode(x.0) + spec_encode(x.1));
    }
}

pub fn push_u64(out: &mut Vec<u8>, n: u64)
    ensures
        final(out)@ == old(out)@ + spec_u64_bytes(n),
{
    out.push((n >> 56) as u8);
    out.push((n >> 48) as u8);
    out.push((n >> 40) as u8);
    out.push((n >> 32) as u8);
    out.push((n >> 24) as u8);
    out.push((n >> 16) as u8);
    out.push((n >> 8) as u8);
    out.push(n as u8);
    proof {
        assert(out@ =~= old(out)@ + spec_u64_bytes(n));
    }
}

pub fn read_u64(b: &Vec<u8>, pos: usize) -> (n: u64)
    requires
        pos + 8 <= b.len(),
    ensures
        n == spec_u64_of(b@.subrange(pos as int, pos as int + 8)),
{
    let n = ((b[pos] as u64) << 56) | ((b[pos + 1] as u64) << 48) | ((b[pos + 2] as u64) << 40)
        | ((b[pos + 3] as u64) << 32) | ((b[pos + 4] as u64) << 24) | ((b[pos + 5] as u64) << 16)
        | ((b[pos + 6] as u64) << 8) | (b[pos + 7] as u64);
    proof {
        let s = b@.subrange(pos as int, pos as int + 8);
        assert(s[0] == b@[pos as int]);
        assert(s[1] == b@[pos as int + 1]);
        assert(s[2] == b@[pos as int + 2]);
        assert(s[3] == b@[pos as int + 3]);
        assert(s[4] == b@[pos as int + 4]);
        assert(s[5] == b@[pos as int + 5]);
        assert(s[6] == b@[pos as int + 6]);
        assert(s[7] == b@[pos as int + 7]);
    }
    n
}

fn push_bytes(out: &mut Vec<u8>, bytes: &Vec<u8>)
    ensures
        final(out)@ == old(out)@ + bytes@,
{
    let mut i: usize = 0;
    while i < bytes.len()
        invariant
            i <= bytes.len(),
            out@ == old(out)@ + bytes@.take(i as int),
        decreases bytes.len() - i,
    {
        out.push(bytes[i]);
        proof {
            assert(bytes@.take(i as int + 1) =~= bytes@.take(i as int).push(bytes@[i as int]));
            assert(out@ =~= old(out)@ + bytes@.take(i as int + 1));
        }
        i = i + 1;
    }
    proof {
        assert(bytes@.take(bytes.len() as int) =~= bytes@);
    }
}

/// Appends the encoding of `v` to `out`.
pub fn encode_value(v: &Value, out: &mut Vec<u8>)
    ensures
        final(out)@ == old(out)@ + spec_encode(v@),
    decreases *v, 0int,
{
    match v {
        Value::Nil => {
            out.push(TAG_NIL);
            proof {
                assert(out@ =~= old(out)@ + spec_encode(v@));
            }
        }
        Value::Bool(flag) => {
            if *flag {
                out.push(TAG_TRUE);
            } else {
                out.push(TAG_FALSE);
            }
            proof {
                assert(out@ =~= old(out)@ + spec_encode(v@));
            }
        }
        Value::Uint(n) => {
            out.push(TAG_UINT);
            push_u64(out, *n);
            proof {
                assert(out@ =~= old(out)@ + spec_encode(v@));
            }
        }
        Value::Int(n) => {
            out.push(TAG_INT);
            push_u64(out, #[verifier::truncate] (*n as u64));
            proof {
                assert(out@ =~= old(out)@ + spec_encode(v@));
            }
        }
        Value::Str(bytes) => {
            out.push(TAG_STR);
            push_u64(out, bytes.len() as u64);
            push_bytes(out, bytes);
            proof {
                assert(out@ =~= old(out)@ + spec_encode(v@));
            }
        }
        Value::Bin(bytes) => {
            out.push(TAG_BIN);
            push_u64(out, bytes.len() as u64);
            push_bytes(out, bytes);
            proof {
                assert(out@ =~= old(out)@ + spec_encode(v@));
            }
        }
        Value::Array(items) => {
            let ghost m = deep_list(items@);
            proof {
                lemma_deep_list_len(items@);
            }
            out.push(TAG_ARR);
            push_u64(out, items.len() as u64);
            let ghost head = old(out)@ + seq![TAG_ARR] + spec_u64_bytes(m.len() as u64);
            proof {
                assert(out@ =~= head);
            }
            let mut i: usize = 0;
            while i < items.len()
                invariant
                    i <= items.len(),
                    *v == Value::Array(*items),
                    m == deep_list(items@),
                    m.len() == items@.len(),
                    out@ == head + spec_encode_list(m.take(i as int)),
                decreases items.len() - i,
            {
                proof {
                    lemma_deep_list_index(items@, i as int);
                    assert(*v == Value::Array(*items));
                    assert((*v)->Array_0 == *items);
                    assert(decreases_to!(*v => (*v)->Array_0));
                    assert(decreases_to!(*items => items[i as int]));
                    assert(decreases_to!(*v => items[i as int]));
                }
                encode_value(&items[i], out);
                proof {
                    assert(m.take(i as int + 1) =~= m.take(i as int).push(m[i as int]));
                    lemma_encode_list_snoc(m.take(i as int), m[i as int]);
                    assert(out@ =~= head + spec_encode_list(m.take(i as int + 1)));
                }
                i = i + 1;
            }
            proof {
                assert(m.take(m.len() as int) =~= m);
                assert(out@ =~= old(out)@ + spec_encode(v@));
            }
        }
        Value::Dict(pairs) => {
            let ghost m = deep_pairs(pairs@);
            proof {
                lemma_deep_pairs_len(pairs@);
            }
            out.push(TAG_DICT);
            push_u64(out, pairs.len() as u64);
            let ghost head = old(out)@ + seq![TAG_DICT] + spec_u64_bytes(m.len() as u64);
            proof {
                assert(out@ =~= head);
            }
            let mut i: usize = 0;
            while i < pairs.len()
                invariant
                    i <= pairs.len(),
                    *v == Value::Dict(*pairs),
                    m == deep_pairs(pairs@),
                    m.len() == pairs@.len(),
                    out@ == head + spec_encode_pairs(m.take(i as int)),
                decreases pairs.len() - i,
            {
                proof {
                    lemma_deep_pairs_index(pairs@, i as int);
                    assert(*v == Value::Dict(*pairs));
                    assert((*v)->Dict_0 == *pairs);
                    assert(decreases_to!(*v => (*v)->Dict_0));
                    assert(decreases_to!(*pairs => pairs[i as int]));
                    assert(decreases_to!(pairs[i as int] => pairs[i as int].0));
                    assert(decreases_to!(pairs[i as int] => pairs[i as int].1));
                    assert(decreases_to!(*v => pairs[i as int].0));
                    assert(decreases_to!(*v => pairs[i as int].1));
                }
                encode_value(&pairs[i].0, out);
                encode_value(&pairs[i].1, out);
                proof {
                    assert(m.take(i as int + 1) =~= m.take(i as int).push(m[i as int]));
                    lemma_encode_pairs_snoc(m.take(i as int), m[i as int]);
                    assert(out@ =~= head + spec_encode_pairs(m.take(i as int + 1)));
                }
                i = i + 1;
            }
            proof {
                assert(m.take(m.len() as int) =~= m);
                assert(out@ =~= old(out)@ + spec_encode(v@));
            }
        }
    }
}

// ---------------------------------------------------------------------------
// Executable decoding

/// Decodes one value starting at `pos`; returns the value and the position
/// just past it, or `None` exactly where the specification rejects the run.
pub fn decode_value(b: &Vec<u8>, pos: usize) -> (r: Option<(Value, usize)>)
    requires
        pos <= b.len(),
    ensures
        match r {
            Some(p) => pos < p.1 <= b.len() && spec_decode_val(b@.skip(pos as int)) == Some(
                (p.0@, b@.skip(p.1 as int)),
            ),
            None => spec_decode_val(b@.skip(pos as int)) is None,
        },
    decreases b.len() - pos, 0int, 0nat,
{
    let ghost suffix = b@.skip(pos as int);
    if pos >= b.len() {
        return None;
    }
    let tag = b[pos];
    proof {
        assert(suffix[0] == b@[pos as int]);
    }
    if tag == TAG_NIL {
        proof {
            assert(suffix.skip(1) =~= b@.skip(pos as int + 1));
        }
        Some((Value::Nil, pos + 1))
    } else if tag == TAG_FALSE {
        proof {
            assert(suffix.skip(1) =~= b@.skip(pos as int + 1));
        }
        Some((Value::Bool(false), pos + 1))
    } else if tag == TAG_TRUE {
        proof {
            assert(suffix.skip(1) =~= b@.skip(pos as int + 1));
        }
        Some((Value::Bool(true), pos + 1))
    } else if tag == TAG_UINT {
        if b.len() - pos < 9 {
            return None;
        }
        let n = read_u64(b, pos + 1);
        proof {
            assert(suffix.skip(1).take(8) =~= b@.subrange(pos as int + 1, pos as int + 9));
            assert(suffix.skip(1).skip(8) =~= b@.skip(pos as int + 9));
        }
        Some((Value::Uint(n), pos + 9))
    } else if tag == TAG_INT {
        if b.len() - pos < 9 {
            return None;
        }
        let n = read_u64(b, pos + 1);
        proof {
            assert(suffix.skip(1).take(8) =~= b@.subrange(pos as int + 1, pos as int + 9));
            assert(suffix.skip(1).skip(8) =~= b@.skip(pos as int + 9));
        }
        Some((Value::Int(n as i64), pos + 9))
    } else if tag == TAG_STR || tag == TAG_BIN {
        if b.len() - pos < 9 {
            return None;
        }
        let n = read_u64(b, pos + 1);
        proof {
            assert(suffix.skip(1).take(8) =~= b@.subrange(pos as int + 1, pos as int + 9));
            assert(suffix.skip(1).skip(8) =~= b@.skip(pos as int + 9));
        }
        let avail = b.len() - (pos + 9);
        if n > avail as u64 {
            return None;
        }
        let count = n as usize;
        let mut bytes: Vec<u8> = Vec::new();
        let mut i: usize = 0;
        while i < count
            invariant
                i <= count,
                count == n,
                pos + 9 + count <= b.len(),
                bytes@ == b@.subrange(pos as int + 9, pos as int + 9 + i as int),
            decreases count - i,
        {
            bytes.push(b[pos + 9 + i]);
            proof {
                assert(bytes@ =~= b@.subrange(pos as int + 9, pos as int + 9 + i as int + 1));
            }
            i = i + 1;
        }
        proof {
            let rest = b@.skip(pos as int + 9);
            assert(rest.take(n as int) =~= b@.subrange(pos as int + 9, pos as int + 9 + n as int));
            assert(rest.skip(n as int) =~= b@.skip(pos as int + 9 + n as int));
        }
        if tag == TAG_STR {
            Some((Value::Str(bytes), pos + 9 + count))
        } else {
            Some((Value::Bin(bytes), pos + 9 + count))
        }
    } else if tag == TAG_ARR {
        if b.len() - pos < 9 {
            return None;
        }
        let n = read_u64(b, pos + 1);
        proof {
            assert(suffix.skip(1).take(8) =~= b@.subrange(pos as int + 1, pos as int + 9));
            assert(suffix.skip(1).skip(8) =~= b@.skip(pos as int + 9));
        }
        match decode_list(b, pos + 9, n) {
            None => None,
            Some((items, end)) => Some((Value::Array(items), end)),
        }
    } else if tag == TAG_DICT {
        if b.len() - pos < 9 {
            return None;
        }
        let n = read_u64(b, pos + 1);
        proof {
            assert(suffix.skip(1).take(8) =~= b@.subrange(pos as int + 1, pos as int + 9));
            assert(suffix.skip(1).skip(8) =~= b@.skip(pos as int + 9));
        }
        match decode_pairs(b, pos + 9, n) {
            None => None,
            Some((pairs, end)) => Some((Value::Dict(pairs), end)),
        }
    } else {
        None
    }
}

fn decode_list(b: &Vec<u8>, pos: usize, count: u64) -> (r: Option<(Vec<Value>, usize)>)
    requires
        pos <= b.len(),
    ensures
        match r {
            Some(p) => pos <= p.1 <= b.len() && spec_decode_list(b@.skip(pos as int), count as nat)
                == Some((deep_list(p.0@), b@.skip(p.1 as int))),
            None => spec_decode_list(b@.skip(pos as int), count as nat) is None,
        },
    decreases b.len() - pos, 1int, count,
{
    if count == 0 {
        let items: Vec<Value> = Vec::new();
        proof {
            assert(deep_list(items@) =~= Seq::<ValModel>::empty());
        }
        return Some((items, pos));
    }
    match decode_value(b, pos) {
        None => None,
        Some((v, end)) => {
            match decode_list(b, end, count - 1) {
                None => None,
                Some((mut items, end2)) => {
                    proof {
                        lemma_deep_list_cons(v, items@);
                        assert(seq![v] + items@ =~= items@.insert(0, v));
                    }
                    items.insert(0, v);
                    Some((items, end2))
                }
            }
        }
    }
}

fn decode_pairs(b: &Vec<u8>, pos: usize, count: u64) -> (r: Option<(Vec<(Value, Value)>, usize)>)
    requires
        pos <= b.len(),
    ensures
        match r {
            Some(p) => pos <= p.1 <= b.len() && spec_decode_pairs(
                b@.skip(pos as int),
                count as nat,
            ) == Some((deep_pairs(p.0@), b@.skip(p.1 as int))),
            None => spec_decode_pairs(b@.skip(pos as int), count as nat) is None,
        },
    decreases b.len() - pos, 1int, count,
{
    if count == 0 {
        let pairs: Vec<(Value, Value)> = Vec::new();
        proof {
            assert(deep_pairs(pairs@) =~= Seq::<(ValModel, ValModel)>::empty());
        }
        return Some((pairs, pos));
    }
    match decode_value(b, pos) {
        None => None,
        Some((k, end1)) => {
            match decode_value(b, end1) {
                None => None,
                Some((v, end2)) => {
                    match decode_pairs(b, end2, count - 1) {
                        None => None,
                        Some((mut pairs, end3)) => {
                            proof {
                                lemma_deep_pairs_cons(k, v, pairs@);
                                assert(seq![(k, v)] + pairs@ =~= pairs@.insert(0, (k, v)));
                            }
                            pairs.insert(0, (k, v));
                            Some((pairs, end3))
                        }
                    }
                }
            }
        }
    }
}

/// The round trip stated of the executable values the library hands out:
/// decoding the encoding of any `Value` yields its own model, with nothing
/// left over.
pub proof fn lemma_value_roundtrip(v: Value)
    ensures
        spec_decode_val(spec_encode(v@) + Seq::<u8>::empty()) == Some((v@, Seq::<u8>::empty())),
{
    lemma_deep_wf(v);
    lemma_roundtrip_val(v@, Seq::empty());
}

} // verus!
