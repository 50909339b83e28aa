//! The command vocabulary of the protocol and the body layout of each
//! request: every command's body is a nested value tree with a fixed shape,
//! so a request is fully determined by the typed arguments of the facade
//! call that built it. The update semantics that a server applies to a
//! stored tuple — an ordered run of (opcode, field, value) operations — is
//! modelled here as well, so that results can be stated and checked.

use vstd::prelude::*;
use crate::value::{
    Value, ValModel, Tuple, deep_of, deep_list, lemma_deep_list_len, lemma_deep_list_index,
    lemma_deep_list_snoc, lemma_deep_list_update,
};

verus! {

/// The request kinds the engine can issue.
#[derive(Clone, Copy, PartialEq, Eq, Structural, Debug)]
pub enum Command {
    Ping,
    Call,
    Eval,
    Select,
    Insert,
    Replace,
    Update,
    Upsert,
    Delete,
    Auth,
    SchemaSpace,
    SchemaIndex,
}

pub open spec fn spec_command_code(c: Command) -> u64 {
    match c {
        Command::Ping => 1,
        Command::Call => 2,
        Command::Eval => 3,
        Command::Select => 4,
        Command::Insert => 5,
        Command::Replace => 6,
        Command::Update => 7,
        Command::Upsert => 8,
        Command::Delete => 9,
        Command::Auth => 10,
        Command::SchemaSpace => 11,
        Command::SchemaIndex => 12,
    }
}

pub fn command_code(c: Command) -> (code: u64)
    ensures
        code == spec_command_code(c),
{
    match c {
        Command::Ping => 1,
        Command::Call => 2,
        Command::Eval => 3,
        Command::Select => 4,
        Command::Insert => 5,
        Command::Replace => 6,
        Command::Update => 7,
        Command::Upsert => 8,
        Command::Delete => 9,
        Command::Auth => 10,
        Command::SchemaSpace => 11,
        Command::SchemaIndex => 12,
    }
}

/// The classification of a range scan.
#[derive(Clone, Copy, PartialEq, Eq, Structural, Debug)]
pub enum IteratorType {
    Eq,
    Req,
    All,
    Lt,
    Le,
    Ge,
    Gt,
}

pub open spec fn spec_iterator_code(t: IteratorType) -> u64 {
    match t {
        IteratorType::Eq => 0,
        IteratorType::Req => 1,
        IteratorType::All => 2,
        IteratorType::Lt => 3,
        IteratorType::Le => 4,
        IteratorType::Ge => 5,
        IteratorType::Gt => 6,
    }
}

pub fn iterator_code(t: IteratorType) -> (code: u64)
    ensures
        code == spec_iterator_code(t),
{
    match t {
        IteratorType::Eq => 0,
        IteratorType::Req => 1,
        IteratorType::All => 2,
        IteratorType::Lt => 3,
        IteratorType::Le => 4,
        IteratorType::Ge => 5,
        IteratorType::Gt => 6,
    }
}

// ---------------------------------------------------------------------------
// Deep views of small literal arrays

proof fn lemma_deep1(a: Value)
    ensures
        deep_list(seq![a]) == seq![deep_of(a)],
{
    let s = seq![a];
    assert(s.skip(1) =~= Seq::<Value>::empty());
    assert(deep_list(Seq::<Value>::empty()) == Seq::<ValModel>::empty());
    assert(deep_list(s) =~= seq![deep_of(a)]);
}

proof fn lemma_deep2(a: Value, b: Value)
    ensures
        deep_list(seq![a, b]) == seq![deep_of(a), deep_of(b)],
{
    let s = seq![a, b];
    assert(s.skip(1) =~= seq![b]);
    lemma_deep1(b);
    assert(deep_list(s) =~= seq![deep_of(a), deep_of(b)]);
}

proof fn lemma_deep3(a: Value, b: Value, c: Value)
    ensures
        deep_list(seq![a, b, c]) == seq![deep_of(a), deep_of(b), deep_of(c)],
{
    let s = seq![a, b, c];
    assert(s.skip(1) =~= seq![b, c]);
    lemma_deep2(b, c);
    assert(deep_list(s) =~= seq![deep_of(a), deep_of(b), deep_of(c)]);
}

proof fn lemma_deep4(a: Value, b: Value, c: Value, d: Value)
    ensures
        deep_list(seq![a, b, c, d]) == seq![deep_of(a), deep_of(b), deep_of(c), deep_of(d)],
{
    let s = seq![a, b, c, d];
    assert(s.skip(1) =~= seq![b, c, d]);
    lemma_deep3(b, c, d);
    assert(deep_list(s) =~= seq![deep_of(a), deep_of(b), deep_of(c), deep_of(d)]);
}

// ---------------------------------------------------------------------------
// Request bodies

pub fn build_ping_body() -> (b: Value)
    ensures
        b@ == ValModel::Array(Seq::<ValModel>::empty()),
{
    let items: Vec<Value> = Vec::new();
    proof {
        assert(deep_list(items@) =~= Seq::<ValModel>::empty());
    }
    Value::Array(items)
}

/// `call` and `eval` share one body shape: a name or expression, then the
/// argument tuple.
pub fn build_call_body(target: Vec<u8>, args: Tuple) -> (b: Value)
    ensures
        b@ == ValModel::Array(seq![ValModel::Str(target@), ValModel::Array(args@)]),
{
    let ghost t = target@;
    let ghost a = args@;
    let head = Value::Str(target);
    let rows = Value::Array(args.fields);
    proof {
        lemma_deep2(head, rows);
    }
    Value::Array(vec![head, rows])
}

pub fn build_auth_body(user: Vec<u8>, token: Vec<u8>) -> (b: Value)
    ensures
        b@ == ValModel::Array(seq![ValModel::Str(user@), ValModel::Bin(token@)]),
{
    let head = Value::Str(user);
    let tail = Value::Bin(token);
    proof {
        lemma_deep2(head, tail);
    }
    Value::Array(vec![head, tail])
}

pub fn build_select_body(space_id: u32, index_id: u32, iterator: IteratorType, key: Tuple) -> (b:
    Value)
    ensures
        b@ == ValModel::Array(
            seq![
                ValModel::Uint(space_id as u64),
                ValModel::Uint(index_id as u64),
                ValModel::Uint(spec_iterator_code(iterator)),
                ValModel::Array(key@),
            ],
        ),
{
    let a = Value::Uint(space_id as u64);
    let b2 = Value::Uint(index_id as u64);
    let c = Value::Uint(iterator_code(iterator));
    let d = Value::Array(key.fields);
    proof {
        lemma_deep4(a, b2, c, d);
    }
    Value::Array(vec![a, b2, c, d])
}

/// `insert` and `replace` share one body shape: the space and the new tuple.
pub fn build_store_body(space_id: u32, tuple: Tuple) -> (b: Value)
    ensures
        b@ == ValModel::Array(seq![ValModel::Uint(space_id as u64), ValModel::Array(tuple@)]),
{
    let a = Value::Uint(space_id as u64);
    let rows = Value::Array(tuple.fields);
    proof {
        lemma_deep2(a, rows);
    }
    Value::Array(vec![a, rows])
}

pub fn build_delete_body(space_id: u32, index_id: u32, key: Tuple) -> (b: Value)
    ensures
        b@ == ValModel::Array(
            seq![
                ValModel::Uint(space_id as u64),
                ValModel::Uint(index_id as u64),
                ValModel::Array(key@),
            ],
        ),
{
    let a = Value::Uint(space_id as u64);
    let b2 = Value::Uint(index_id as u64);
    let c = Value::Array(key.fields);
    proof {
        lemma_deep3(a, b2, c);
    }
    Value::Array(vec![a, b2, c])
}

pub fn build_schema_space_body(name: Vec<u8>) -> (b: Value)
    ensures
        b@ == ValModel::Array(seq![ValModel::Str(name@)]),
{
    let head = Value::Str(name);
    let ghost g = head;
    let items = vec![head];
    proof {
        assert(items@ =~= seq![g]);
        lemma_deep1(g);
    }
    Value::Array(items)
}

pub fn build_schema_index_body(space_id: u32, name: Vec<u8>) -> (b: Value)
    ensures
        b@ == ValModel::Array(seq![ValModel::Uint(space_id as u64), ValModel::Str(name@)]),
{
    let a = Value::Uint(space_id as u64);
    let head = Value::Str(name);
    proof {
        lemma_deep2(a, head);
    }
    Value::Array(vec![a, head])
}

// ---------------------------------------------------------------------------
// Update operations

/// The opcode that assigns a new value to one field.
pub const OP_ASSIGN: u64 = 0;

/// One update operation: an opcode, the index of the field it touches, and
/// its operand. Operations are applied by the server in sequence order.
pub struct UpdateOp {
    pub op: u64,
    pub field: u64,
    pub value: Value,
}

pub open spec fn op_model(o: UpdateOp) -> ValModel {
    ValModel::Array(seq![ValModel::Uint(o.op), ValModel::Uint(o.field), o.value@])
}

pub open spec fn ops_models(s: Seq<UpdateOp>) -> Seq<ValModel>
    decreases s.len(),
{
    if s.len() == 0 {
        Seq::empty()
    } else {
        seq![op_model(s[0])] + ops_models(s.skip(1))
    }
}

fn encode_op(o: UpdateOp) -> (r: Value)
    ensures
        r@ == op_model(o),
{
    let a = Value::Uint(o.op);
    let b = Value::Uint(o.field);
    proof {
        lemma_deep3(a, b, o.value);
    }
    Value::Array(vec![a, b, o.value])
}

fn encode_ops(ops: Vec<UpdateOp>) -> (r: Vec<Value>)
    ensures
        deep_list(r@) == ops_models(ops@),
{
    let ghost orig = ops@;
    let mut rest = ops;
    let mut out: Vec<Value> = Vec::new();
    proof {
        assert(deep_list(out@) =~= Seq::<ValModel>::empty());
        assert(deep_list(out@) + ops_models(rest@) =~= ops_models(orig));
    }
    while rest.len() > 0
        invariant
            deep_list(out@) + ops_models(rest@) == ops_models(orig),
        decreases rest.len(),
    {
        let ghost r0 = rest@;
        let o = rest.remove(0);
        proof {
            assert(r0.skip(1) =~= r0.remove(0));
        }
        let encoded = encode_op(o);
        proof {
            lemma_deep_list_snoc(out@, encoded);
        }
        out.push(encoded);
        proof {
            assert(deep_list(out@) + ops_models(rest@) =~= ops_models(orig));
        }
    }
    proof {
        assert(ops_models(rest@) =~= Seq::<ValModel>::empty());
        assert(deep_list(out@) =~= ops_models(orig));
    }
    out
}

pub fn build_update_body(space_id: u32, index_id: u32, key: Tuple, ops: Vec<UpdateOp>) -> (b:
    Value)
    ensures
        b@ == ValModel::Array(
            seq![
                ValModel::Uint(space_id as u64),
                ValModel::Uint(index_id as u64),
                ValModel::Array(key@),
                ValModel::Array(ops_models(ops@)),
            ],
        ),
{
    let a = Value::Uint(space_id as u64);
    let b2 = Value::Uint(index_id as u64);
    let c = Value::Array(key.fields);
    let d = Value::Array(encode_ops(ops));
    proof {
        lemma_deep4(a, b2, c, d);
    }
    Value::Array(vec![a, b2, c, d])
}

pub fn build_upsert_body(space_id: u32, index_id: u32, tuple: Tuple, ops: Vec<UpdateOp>) -> (b:
    Value)
    ensures
        b@ == ValModel::Array(
            seq![
                ValModel::Uint(space_id as u64),
                ValModel::Uint(index_id as u64),
                ValModel::Array(tuple@),
                ValModel::Array(ops_models(ops@)),
            ],
        ),
{
    let a = Value::Uint(space_id as u64);
    let b2 = Value::Uint(index_id as u64);
    let c = Value::Array(tuple.fields);
    let d = Value::Array(encode_ops(ops));
    proof {
        lemma_deep4(a, b2, c, d);
    }
    Value::Array(vec![a, b2, c, d])
}

// ---------------------------------------------------------------------------
// The effect of an update on a stored tuple

pub open spec fn spec_apply_one(fields: Seq<ValModel>, o: UpdateOp) -> Seq<ValModel> {
    if o.op == OP_ASSIGN && o.field < fields.len() {
        fields.update(o.field as int, o.value@)
    } else {
        fields
    }
}

pub open spec fn spec_apply_ops(fields: Seq<ValModel>, ops: Seq<UpdateOp>) -> Seq<ValModel>
    decreases ops.len(),
{
    if ops.len() == 0 {
        fields
    } else {
        spec_apply_ops(spec_apply_one(fields, ops[0]), ops.skip(1))
    }
}

/// Applies an ordered run of update operations to a tuple, exactly as the
/// server applies them to the stored row: in sequence order, one at a time.
pub fn apply_ops(t: Tuple, ops: Vec<UpdateOp>) -> (r: Tuple)
    ensures
        r@ == spec_apply_ops(t@, ops@),
{
    let ghost fields0 = t@;
    let ghost ops0 = ops@;
    let mut fields = t.fields;
    let mut rest = ops;
    proof {
        assert(spec_apply_ops(deep_list(fields@), rest@) == spec_apply_ops(fields0, ops0));
    }
    while rest.len() > 0
        invariant
            spec_apply_ops(deep_list(fields@), rest@) == spec_apply_ops(fields0, ops0),
        decreases rest.len(),
    {
        let ghost r0 = rest@;
        let ghost f0 = fields@;
        let o = rest.remove(0);
        proof {
            assert(r0.skip(1) =~= r0.remove(0));
        }
        if o.op == OP_ASSIGN && o.field < fields.len() as u64 {
            let idx = o.field as usize;
            let ghost ov = o.value;
            fields.remove(idx);
            fields.insert(idx, o.value);
            proof {
                assert(fields@ =~= f0.update(idx as int, ov));
                lemma_deep_list_update(f0, idx as int, ov);
                lemma_deep_list_len(f0);
                assert(deep_list(fields@) == spec_apply_one(deep_list(f0), r0[0]));
            }
        } else {
            proof {
                lemma_deep_list_len(f0);
                assert(deep_list(fields@) == spec_apply_one(deep_list(f0), r0[0]));
            }
        }
    }
    proof {
        assert(spec_apply_ops(deep_list(fields@), rest@) == deep_list(fields@));
    }
    Tuple { fields }
}

// ---------------------------------------------------------------------------
// Response interpretation

/// Reads a data response body — an array of rows — and hands back the first
/// row as a tuple. An empty array is the well-formed "nothing found" answer,
/// not an error; a body of any other shape yields nothing.
pub fn response_first_tuple(body: Value) -> (r: Option<Tuple>)
    ensures
        match r {
            Some(t) => body@ is Array && body@->Array_0.len() >= 1 && body@->Array_0[0] is Array
                && t@ == body@->Array_0[0]->Array_0,
            None => !(body@ is Array) || body@->Array_0.len() == 0 || !(body@->Array_0[0]
                is Array),
        },
{
    match body {
        Value::Array(mut rows) => {
            if rows.len() == 0 {
                proof {
                    lemma_deep_list_len(rows@);
                }
                None
            } else {
                proof {
                    lemma_deep_list_len(rows@);
                    lemma_deep_list_index(rows@, 0);
                }
                let first = rows.remove(0);
                match first {
                    Value::Array(fields) => Some(Tuple { fields }),
                    _ => None,
                }
            }
        }
        _ => None,
    }
}

/// The number of rows a data response carries.
pub fn response_row_count(body: &Value) -> (r: Option<usize>)
    ensures
        match r {
            Some(n) => body@ is Array && body@->Array_0.len() == n,
            None => !(body@ is Array),
        },
{
    match body {
        Value::Array(rows) => {
            proof {
                lemma_deep_list_len(rows@);
            }
            Some(rows.len())
        }
        _ => None,
    }
}

} // verus!
