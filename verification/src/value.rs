//! The field values of the wire format: an ordered, heterogeneous model of
//! the scalars and containers that a tuple may hold, together with the
//! mathematical view (`ValModel`) that all codec contracts are stated over.

use vstd::prelude::*;

verus! {

/// One field of a tuple, or one node of a nested request or response body.
///
/// Strings and binaries both carry raw bytes; a string is understood to hold
/// UTF-8 text, but the codec treats both as opaque byte runs.
#[derive(PartialEq, Eq, Debug)]
pub enum Value {
    Nil,
    Bool(bool),
    Uint(u64),
    Int(i64),
    Str(Vec<u8>),
    Bin(Vec<u8>),
    Array(Vec<Value>),
    Dict(Vec<(Value, Value)>),
}

/// The mathematical shape of a `Value`: the same tree with unbounded
/// sequences in place of vectors.
pub enum ValModel {
    Nil,
    Bool(bool),
    Uint(u64),
    Int(i64),
    Str(Seq<u8>),
    Bin(Seq<u8>),
    Array(Seq<ValModel>),
    Dict(Seq<(ValModel, ValModel)>),
}

impl ValModel {
    /// A model the codec can carry: every byte run and every container is
    /// short enough for its length to ride in a 64-bit prefix.
    pub open spec fn wf(self) -> bool
        decreases self,
    {
        match self {
            ValModel::Nil => true,
            ValModel::Bool(_) => true,
            ValModel::Uint(_) => true,
            ValModel::Int(_) => true,
            ValModel::Str(bytes) => bytes.len() <= u64::MAX,
            ValModel::Bin(bytes) => bytes.len() <= u64::MAX,
            ValModel::Array(items) => items.len() <= u64::MAX && (forall|i: int|
                #![trigger items[i]]
                0 <= i < items.len() ==> items[i].wf()),
            ValModel::Dict(pairs) => pairs.len() <= u64::MAX && (forall|i: int|
                #![trigger pairs[i]]
                0 <= i < pairs.len() ==> pairs[i].0.wf() && pairs[i].1.wf()),
        }
    }
}

pub open spec fn deep_list(s: Seq<Value>) -> Seq<ValModel>
    decreases s, 1int,
{
    if s.len() == 0 {
        Seq::empty()
    } else {
        seq![deep_of(s[0])] + deep_list(s.skip(1))
    }
}

pub open spec fn deep_pairs(s: Seq<(Value, Value)>) -> Seq<(ValModel, ValModel)>
    decreases s, 1int,
{
    if s.len() == 0 {
        Seq::empty()
    } else {
        seq![(deep_of(s[0].0), deep_of(s[0].1))] + deep_pairs(s.skip(1))
    }
}

pub open spec fn deep_of(v: Value) -> ValModel
    decreases v, 0int,
{
    match v {
        Value::Nil => ValModel::Nil,
        Value::Bool(b) => ValModel::Bool(b),
        Value::Uint(n) => ValModel::Uint(n),
        Value::Int(n) => ValModel::Int(n),
        Value::Str(bytes) => ValModel::Str(bytes@),
        Value::Bin(bytes) => ValModel::Bin(bytes@),
        Value::Array(items) => ValModel::Array(deep_list(items@)),
        Value::Dict(pairs) => ValModel::Dict(deep_pairs(pairs@)),
    }
}

impl View for Value {
    type V = ValModel;

    open spec fn view(&self) -> ValModel {
        deep_of(*self)
    }
}

pub broadcast proof fn lemma_deep_list_len(s: Seq<Value>)
    ensures
        #[trigger] deep_list(s).len() == s.len(),
    decreases s.len(),
{
    if s.len() > 0 {
        lemma_deep_list_len(s.skip(1));
    }
}

pub broadcast proof fn lemma_deep_list_index(s: Seq<Value>, i: int)
    requires
        0 <= i < s.len(),
    ensures
        #[trigger] deep_list(s)[i] == deep_of(s[i]),
    decreases s.len(),
{
    lemma_deep_list_len(s);
    if i > 0 {
        lemma_deep_list_index(s.skip(1), i - 1);
    }
}

pub broadcast proof fn lemma_deep_pairs_len(s: Seq<(Value, Value)>)
    ensures
        #[trigger] deep_pairs(s).len() == s.len(),
    decreases s.len(),
{
    if s.len() > 0 {
        lemma_deep_pairs_len(s.skip(1));
    }
}

pub broadcast proof fn lemma_deep_pairs_index(s: Seq<(Value, Value)>, i: int)
    requires
        0 <= i < s.len(),
    ensures
        #[trigger] deep_pairs(s)[i] == (deep_of(s[i].0), deep_of(s[i].1)),
    decreases s.len(),
{
    lemma_deep_pairs_len(s);
    if i > 0 {
        lemma_deep_pairs_index(s.skip(1), i - 1);
    }
}

pub proof fn lemma_deep_list_cons(x: Value, s: Seq<Value>)
    ensures
        deep_list(seq![x] + s) == seq![deep_of(x)] + deep_list(s),
{
    let whole = seq![x] + s;
    assert(whole[0] == x);
    assert(whole.skip(1) =~= s);
}

pub proof fn lemma_deep_pairs_cons(k: Value, v: Value, s: Seq<(Value, Value)>)
    ensures
        deep_pairs(seq![(k, v)] + s) == seq![(deep_of(k), deep_of(v))] + deep_pairs(s),
{
    let whole = seq![(k, v)] + s;
    assert(whole[0] == (k, v));
    assert(whole.skip(1) =~= s);
}

pub proof fn lemma_deep_list_snoc(s: Seq<Value>, x: Value)
    ensures
        deep_list(s.push(x)) == deep_list(s).push(deep_of(x)),
    decreases s.len(),
{
    let whole = s.push(x);
    if s.len() == 0 {
        assert(whole[0] == x);
        assert(whole.skip(1) =~= s);
        assert(seq![deep_of(x)] + deep_list(s) =~= deep_list(s).push(deep_of(x)));
    } else {
        assert(whole[0] == s[0]);
        assert(whole.skip(1) =~= s.skip(1).push(x));
        lemma_deep_list_snoc(s.skip(1), x);
        assert(seq![deep_of(s[0])] + deep_list(s.skip(1)).push(deep_of(x)) =~= (seq![deep_of(
            s[0],
        )] + deep_list(s.skip(1))).push(deep_of(x)));
    }
}

pub proof fn lemma_deep_list_update(s: Seq<Value>, i: int, x: Value)
    requires
        0 <= i < s.len(),
    ensures
        deep_list(s.update(i, x)) == deep_list(s).update(i, deep_of(x)),
{
    let lhs = deep_list(s.update(i, x));
    let rhs = deep_list(s).update(i, deep_of(x));
    lemma_deep_list_len(s);
    lemma_deep_list_len(s.update(i, x));
    assert forall|j: int| 0 <= j < lhs.len() implies lhs[j] == rhs[j] by {
        lemma_deep_list_index(s.update(i, x), j);
        lemma_deep_list_index(s, j);
    }
    assert(lhs =~= rhs);
}

/// The view of every value is a model the codec can carry.
pub proof fn lemma_deep_wf(v: Value)
    ensures
        deep_of(v).wf(),
    decreases v, 0int,
{
    match v {
        Value::Str(bytes) => {
            assert(bytes@.len() == bytes.len());
        }
        Value::Bin(bytes) => {
            assert(bytes@.len() == bytes.len());
        }
        Value::Array(items) => {
            lemma_deep_wf_list(items@);
            lemma_deep_list_len(items@);
            assert(items@.len() == items.len());
        }
        Value::Dict(pairs) => {
            lemma_deep_wf_pairs(pairs@);
            lemma_deep_pairs_len(pairs@);
            assert(pairs@.len() == pairs.len());
        }
        _ => {}
    }
}

pub proof fn lemma_deep_wf_list(s: Seq<Value>)
    ensures
        forall|i: int| #![trigger deep_list(s)[i]]
            0 <= i < deep_list(s).len() ==> deep_list(s)[i].wf(),
    decreases s, 1int,
{
    lemma_deep_list_len(s);
    assert forall|i: int| #![trigger deep_list(s)[i]]
        0 <= i < deep_list(s).len() implies deep_list(s)[i].wf() by {
        lemma_deep_list_index(s, i);
        lemma_deep_wf(s[i]);
    }
}

pub proof fn lemma_deep_wf_pairs(s: Seq<(Value, Value)>)
    ensures
        forall|i: int| #![trigger deep_pairs(s)[i]]
            0 <= i < deep_pairs(s).len() ==> deep_pairs(s)[i].0.wf() && deep_pairs(s)[i].1.wf(),
    decreases s, 1int,
{
    lemma_deep_pairs_len(s);
    assert forall|i: int| #![trigger deep_pairs(s)[i]]
        0 <= i < deep_pairs(s).len() implies deep_pairs(s)[i].0.wf() && deep_pairs(s)[i].1.wf() by {
        lemma_deep_pairs_index(s, i);
        lemma_deep_wf(s[i].0);
        lemma_deep_wf(s[i].1);
    }
}

/// An ordered, immutable sequence of typed fields, as decoded from a
/// response payload or built by a caller for a request.
pub struct Tuple {
    pub fields: Vec<Value>,
}

impl View for Tuple {
    type V = Seq<ValModel>;

    open spec fn view(&self) -> Seq<ValModel> {
        deep_list(self.fields@)
    }
}

impl Tuple {
    pub fn new(fields: Vec<Value>) -> (t: Tuple)
        ensures
            t@ == deep_list(fields@),
    {
        Tuple { fields }
    }
}

} // verus!
