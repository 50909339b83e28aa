use netbox::value::{Value, Tuple};
use netbox::frame::{decode_request, encode_response};
use netbox::conn::{Conn, ConnOptions, ConnState, Options, FrameOutcome};
use netbox::space::{RemoteSpace, Lookup};
use netbox::protocol::{
    apply_ops, command_code, Command, IteratorType, UpdateOp, response_first_tuple,
};
use netbox::Error;

fn no_timeout() -> Options {
    Options { timeout: None }
}

fn ready_conn(reconnect_after: u64) -> Conn {
    let opts = ConnOptions {
        user: b"guest".to_vec(),
        password: b"secret".to_vec(),
        reconnect_after,
    };
    let mut conn = Conn::new(b"db.example:3301".to_vec(), opts);
    conn.connect_started();
    conn.greeting_received(b"derived-token".to_vec());
    let handshake = conn.take_writes();
    assert_eq!(handshake.len(), 1);
    conn.auth_ok();
    assert!(conn.is_connected());
    conn
}

fn clone_value(v: &Value) -> Value {
    match v {
        Value::Nil => Value::Nil,
        Value::Bool(b) => Value::Bool(*b),
        Value::Uint(n) => Value::Uint(*n),
        Value::Int(n) => Value::Int(*n),
        Value::Str(s) => Value::Str(s.clone()),
        Value::Bin(s) => Value::Bin(s.clone()),
        Value::Array(items) => Value::Array(items.iter().map(clone_value).collect()),
        Value::Dict(pairs) => Value::Dict(
            pairs.iter().map(|(k, v)| (clone_value(k), clone_value(v))).collect(),
        ),
    }
}

struct ToyServer {
    rows: Vec<Vec<Value>>,
    schema_version: u64,
}

fn as_array(v: Value) -> Vec<Value> {
    match v {
        Value::Array(items) => items,
        other => panic!("expected an array, got {:?}", other),
    }
}

fn as_uint(v: &Value) -> u64 {
    match v {
        Value::Uint(n) => *n,
        other => panic!("expected an unsigned field, got {:?}", other),
    }
}

impl ToyServer {
    fn answer(&mut self, frame: &Vec<u8>) -> Vec<u8> {
        let (sync, code, body) = decode_request(frame).expect("client sent a well-formed frame");
        let mut parts = as_array(body);
        let reply = if code == command_code(Command::Ping) {
            Value::Array(Vec::new())
        } else if code == command_code(Command::Insert) {
            let fields = as_array(parts.remove(1));
            let echoed = Value::Array(fields.iter().map(clone_value).collect());
            self.rows.push(fields);
            Value::Array(vec![echoed])
        } else if code == command_code(Command::Select) {
            let key = as_array(parts.remove(3));
            let hits: Vec<Value> = self
                .rows
                .iter()
                .filter(|row| !row.is_empty() && !key.is_empty() && row[0] == key[0])
                .map(|row| Value::Array(row.iter().map(clone_value).collect()))
                .collect();
            Value::Array(hits)
        } else if code == command_code(Command::Update) {
            let ops_values = as_array(parts.remove(3));
            let key = as_array(parts.remove(2));
            let ops: Vec<UpdateOp> = ops_values
                .into_iter()
                .map(|op| {
                    let mut triple = as_array(op);
                    let value = triple.remove(2);
                    UpdateOp { op: as_uint(&triple[0]), field: as_uint(&triple[1]), value }
                })
                .collect();
            let at = self
                .rows
                .iter()
                .position(|row| !row.is_empty() && !key.is_empty() && row[0] == key[0]);
            match at {
                Some(i) => {
                    let row = self.rows.remove(i);
                    let updated = apply_ops(Tuple::new(row), ops);
                    let echoed = Value::Array(updated.fields.iter().map(clone_value).collect());
                    self.rows.insert(i, updated.fields);
                    Value::Array(vec![echoed])
                }
                None => Value::Array(Vec::new()),
            }
        } else {
            panic!("toy server does not speak command {}", code);
        };
        encode_response(sync, 0, self.schema_version, &reply)
    }
}

fn pump(conn: &mut Conn, server: &mut ToyServer, now: u64) -> Vec<FrameOutcome> {
    let frames = conn.take_writes();
    frames
        .iter()
        .map(|frame| {
            let reply = server.answer(frame);
            conn.on_frame(&reply, now)
        })
        .collect()
}

fn delivered_body(outcome: FrameOutcome, expected_sync: u64) -> Value {
    match outcome {
        FrameOutcome::Delivered(sync, Ok(body)) => {
            assert_eq!(sync, expected_sync);
            body
        }
        other => panic!("expected a delivery, got {:?}", describe(&other)),
    }
}

fn describe(outcome: &FrameOutcome) -> String {
    match outcome {
        FrameOutcome::Corrupt(_) => "corrupt".to_string(),
        FrameOutcome::Delivered(sync, _) => format!("delivered({})", sync),
        FrameOutcome::Unmatched(sync) => format!("unmatched({})", sync),
    }
}

#[test]
fn correlation_ids_are_unique_while_outstanding() {
    let mut conn = ready_conn(0);
    let opts = no_timeout();
    let a = conn.ping(&opts, 0).unwrap();
    let b = conn.ping(&opts, 0).unwrap();
    let c = conn.ping(&opts, 0).unwrap();
    assert!(a != b && b != c && a != c);
}

#[test]
fn response_resolves_exactly_once() {
    let mut conn = ready_conn(0);
    let sync = conn.ping(&no_timeout(), 0).unwrap();
    let _ = conn.take_writes();
    let reply = encode_response(sync, 0, 0, &Value::Array(Vec::new()));
    match conn.on_frame(&reply, 0) {
        FrameOutcome::Delivered(s, Ok(_)) => assert_eq!(s, sync),
        other => panic!("first delivery failed: {}", describe(&other)),
    }
    // The same frame again: the request is gone, so the id is unmatched
    // and the connection is untouched.
    match conn.on_frame(&reply, 0) {
        FrameOutcome::Unmatched(s) => assert_eq!(s, sync),
        other => panic!("second delivery was not dropped: {}", describe(&other)),
    }
    assert!(conn.is_connected());
}

#[test]
fn writes_drain_in_submission_order() {
    let mut conn = ready_conn(0);
    let opts = no_timeout();
    let a = conn.ping(&opts, 0).unwrap();
    let space = RemoteSpace::new(512);
    let b = space.insert(&mut conn, Tuple::new(vec![Value::Uint(1)]), &opts, 0).unwrap();
    let c = space.get(&mut conn, Tuple::new(vec![Value::Uint(1)]), &opts, 0).unwrap();
    let frames = conn.take_writes();
    assert_eq!(frames.len(), 3);
    let observed: Vec<(u64, u64)> = frames
        .iter()
        .map(|f| {
            let (sync, code, _) = decode_request(f).unwrap();
            (sync, code)
        })
        .collect();
    assert_eq!(
        observed,
        vec![
            (a, command_code(Command::Ping)),
            (b, command_code(Command::Insert)),
            (c, command_code(Command::Select)),
        ],
    );
    assert!(conn.take_writes().is_empty());
}

#[test]
fn schema_bump_triggers_exactly_one_refetch() {
    let mut conn = ready_conn(0);
    let opts = no_timeout();
    conn.schema.store_space(b"accounts".to_vec(), 512);
    match conn.space(b"accounts".to_vec(), &opts, 0).unwrap() {
        Lookup::Found(space) => assert_eq!(space.space_id, 512),
        Lookup::Fetching(_) => panic!("a cached lookup must not fetch"),
    }
    assert!(conn.take_writes().is_empty());

    // A response frame arrives carrying a bumped schema version; even an
    // unmatched one invalidates the cache.
    let bump = encode_response(9999, 0, 7, &Value::Array(Vec::new()));
    match conn.on_frame(&bump, 0) {
        FrameOutcome::Unmatched(_) => {}
        other => panic!("expected a dropped frame: {}", describe(&other)),
    }

    // The next lookup misses and places exactly one resolution request.
    let sync = match conn.space(b"accounts".to_vec(), &opts, 0).unwrap() {
        Lookup::Fetching(sync) => sync,
        Lookup::Found(_) => panic!("a stale id survived the version bump"),
    };
    assert_eq!(conn.take_writes().len(), 1);

    // The answer is stored; the lookup hits again with no further fetch.
    let reply = encode_response(sync, 0, 7, &Value::Array(Vec::new()));
    match conn.on_frame(&reply, 0) {
        FrameOutcome::Delivered(s, Ok(_)) => assert_eq!(s, sync),
        other => panic!("lookup answer lost: {}", describe(&other)),
    }
    conn.schema.store_space(b"accounts".to_vec(), 512);
    match conn.space(b"accounts".to_vec(), &opts, 0).unwrap() {
        Lookup::Found(space) => assert_eq!(space.space_id, 512),
        Lookup::Fetching(_) => panic!("a re-resolved id must be cached"),
    }
    assert!(conn.take_writes().is_empty());
}

#[test]
fn ping_timeout_leaves_connection_state_alone() {
    let mut conn = ready_conn(0);
    let sync = conn.ping(&Options { timeout: Some(1) }, 0).unwrap();
    let _unsent = conn.take_writes();
    // The peer never answers; one tick later the deadline has passed.
    let timed_out = conn.expire(1);
    assert_eq!(timed_out.len(), 1);
    assert_eq!(timed_out[0].0, sync);
    assert!(matches!(timed_out[0].1, Error::Timeout));
    assert!(conn.is_connected());
    // The wait was cancelled: a late answer no longer matches anything.
    let late = encode_response(sync, 0, 0, &Value::Array(Vec::new()));
    match conn.on_frame(&late, 1) {
        FrameOutcome::Unmatched(s) => assert_eq!(s, sync),
        other => panic!("timed out request resolved twice: {}", describe(&other)),
    }
}

#[test]
fn insert_then_get_returns_the_record() {
    let mut conn = ready_conn(0);
    let mut server = ToyServer { rows: Vec::new(), schema_version: 0 };
    let opts = no_timeout();
    let space = RemoteSpace::new(512);

    let record = vec![Value::Uint(1), Value::Str(b"first".to_vec())];
    let ins = space
        .insert(&mut conn, Tuple::new(record.iter().map(clone_value).collect()), &opts, 0)
        .unwrap();
    let outcomes = pump(&mut conn, &mut server, 0);
    assert_eq!(outcomes.len(), 1);
    let _ = delivered_body(outcomes.into_iter().next().unwrap(), ins);

    let got = space.get(&mut conn, Tuple::new(vec![Value::Uint(1)]), &opts, 0).unwrap();
    let outcomes = pump(&mut conn, &mut server, 0);
    let body = delivered_body(outcomes.into_iter().next().unwrap(), got);
    let row = response_first_tuple(body).expect("the inserted record is found");
    assert_eq!(row.fields, record);

    let missing = space.get(&mut conn, Tuple::new(vec![Value::Uint(2)]), &opts, 0).unwrap();
    let outcomes = pump(&mut conn, &mut server, 0);
    let body = delivered_body(outcomes.into_iter().next().unwrap(), missing);
    assert!(response_first_tuple(body).is_none());
}

#[test]
fn update_sets_the_named_field() {
    let mut conn = ready_conn(0);
    let mut server = ToyServer { rows: Vec::new(), schema_version: 0 };
    let opts = no_timeout();
    let space = RemoteSpace::new(512);

    let ins = space
        .insert(
            &mut conn,
            Tuple::new(vec![Value::Uint(1), Value::Str(b"Old".to_vec())]),
            &opts,
            0,
        )
        .unwrap();
    let outcomes = pump(&mut conn, &mut server, 0);
    let _ = delivered_body(outcomes.into_iter().next().unwrap(), ins);

    let ops = vec![UpdateOp {
        op: netbox::protocol::OP_ASSIGN,
        field: 1,
        value: Value::Str(b"New".to_vec()),
    }];
    let upd = space
        .update(&mut conn, Tuple::new(vec![Value::Uint(1)]), ops, &opts, 0)
        .unwrap();
    let outcomes = pump(&mut conn, &mut server, 0);
    let body = delivered_body(outcomes.into_iter().next().unwrap(), upd);
    let row = response_first_tuple(body).expect("the updated record is returned");
    assert_eq!(row.fields[1], Value::Str(b"New".to_vec()));
}

#[test]
fn refused_connection_without_policy_stays_down() {
    let opts = ConnOptions {
        user: b"guest".to_vec(),
        password: b"secret".to_vec(),
        reconnect_after: 0,
    };
    let mut conn = Conn::new(b"127.0.0.1:1".to_vec(), opts);
    conn.connect_started();
    // The peer actively refuses the connection.
    let failed = conn.on_io_error(10);
    assert!(failed.is_empty());
    assert!(!conn.is_connected());
    // With a zero interval there is no retry, at any later tick.
    assert!(!conn.tick_reconnect(10));
    assert!(!conn.tick_reconnect(1_000_000));
    assert!(!conn.is_connected());
    assert_eq!(conn.state, ConnState::Broken);
}

#[test]
fn broken_transport_fails_both_outstanding_requests() {
    let mut conn = ready_conn(0);
    let opts = no_timeout();
    let a = conn.ping(&opts, 0).unwrap();
    let b = conn.ping(&opts, 0).unwrap();
    let _ = conn.take_writes();
    // The transport dies mid-flight: both waiters resume at once.
    let failed = conn.on_io_error(5);
    assert_eq!(failed, vec![a, b]);
    assert!(!conn.is_connected());
    // Neither can resolve a second time.
    let late = encode_response(a, 0, 0, &Value::Array(Vec::new()));
    match conn.on_frame(&late, 5) {
        FrameOutcome::Unmatched(s) => assert_eq!(s, a),
        other => panic!("a failed request resolved again: {}", describe(&other)),
    }
}

#[test]
fn reconnection_policy_restores_service() {
    let mut conn = ready_conn(50);
    conn.schema.store_space(b"accounts".to_vec(), 512);
    let failed = conn.on_io_error(100);
    assert!(failed.is_empty());
    assert_eq!(conn.state, ConnState::Broken);
    // Before the interval elapses nothing moves; after it, reconnection.
    assert!(!conn.tick_reconnect(120));
    assert_eq!(conn.state, ConnState::Broken);
    assert!(conn.tick_reconnect(150));
    assert_eq!(conn.state, ConnState::Reconnecting);
    conn.connect_started();
    conn.greeting_received(b"derived-token".to_vec());
    let _auth = conn.take_writes();
    conn.auth_ok();
    assert!(conn.is_connected());
    // The schema cache did not survive the break.
    match conn.space(b"accounts".to_vec(), &no_timeout(), 200).unwrap() {
        Lookup::Fetching(_) => {}
        Lookup::Found(_) => panic!("a pre-break id was trusted after reconnection"),
    }
}

#[test]
fn closed_connection_refuses_immediately() {
    let mut conn = ready_conn(0);
    let sync = conn.ping(&no_timeout(), 0).unwrap();
    let failed = conn.close();
    assert_eq!(failed, vec![sync]);
    assert_eq!(conn.ping(&no_timeout(), 1), Err(Error::ConnectionClosed));
    assert_eq!(conn.state, ConnState::Closed);
}

#[test]
fn broken_connection_refuses_with_connection_lost() {
    let mut conn = ready_conn(0);
    let _ = conn.on_io_error(0);
    assert_eq!(conn.ping(&no_timeout(), 1), Err(Error::ConnectionLost));
}

#[test]
fn server_error_status_reaches_only_its_caller() {
    let mut conn = ready_conn(0);
    let sync = conn.ping(&no_timeout(), 0).unwrap();
    let _ = conn.take_writes();
    let reply = encode_response(sync, 36, 0, &Value::Str(b"duplicate key".to_vec()));
    match conn.on_frame(&reply, 0) {
        FrameOutcome::Delivered(s, Err(Error::Server(code))) => {
            assert_eq!(s, sync);
            assert_eq!(code, 36);
        }
        other => panic!("expected the server's error: {}", describe(&other)),
    }
    // A server error is local to the request: the connection stays ready.
    assert!(conn.is_connected());
}

#[test]
fn corrupt_frame_breaks_the_connection() {
    let mut conn = ready_conn(0);
    let sync = conn.ping(&no_timeout(), 0).unwrap();
    let _ = conn.take_writes();
    let garbage = vec![0u8, 0, 0, 0, 0, 0, 0, 3, 1, 2, 3];
    match conn.on_frame(&garbage, 0) {
        FrameOutcome::Corrupt(failed) => assert_eq!(failed, vec![sync]),
        other => panic!("corruption must break the connection: {}", describe(&other)),
    }
    assert!(!conn.is_connected());
}

#[test]
fn index_lookup_through_the_cache() {
    let mut conn = ready_conn(0);
    let opts = no_timeout();
    let space = RemoteSpace::new(512);
    assert_eq!(space.primary_key().index_id, 0);
    conn.schema.store_index(512, b"name_idx".to_vec(), 2);
    match space.index(&mut conn, b"name_idx".to_vec(), &opts, 0).unwrap() {
        Lookup::Found(idx) => {
            assert_eq!(idx.space_id, 512);
            assert_eq!(idx.index_id, 2);
        }
        Lookup::Fetching(_) => panic!("a cached index lookup must not fetch"),
    }
    match space.index(&mut conn, b"other_idx".to_vec(), &opts, 0).unwrap() {
        Lookup::Fetching(_) => {}
        Lookup::Found(_) => panic!("an unknown index cannot be a hit"),
    }
    // A select through a secondary index names that index on the wire.
    let idx = netbox::space::RemoteIndex::new(512, 2);
    let sync = idx
        .select(&mut conn, IteratorType::Ge, Tuple::new(vec![Value::Uint(5)]), &opts, 0)
        .unwrap();
    let frames = conn.take_writes();
    let (s, code, body) = decode_request(frames.last().unwrap()).unwrap();
    assert_eq!(s, sync);
    assert_eq!(code, command_code(Command::Select));
    let parts = as_array(body);
    assert_eq!(as_uint(&parts[0]), 512);
    assert_eq!(as_uint(&parts[1]), 2);
}

#[test]
fn remaining_commands_name_themselves_on_the_wire() {
    let mut conn = ready_conn(0);
    let opts = no_timeout();
    let space = RemoteSpace::new(512);
    let d = space
        .delete(&mut conn, Tuple::new(vec![Value::Uint(1)]), &opts, 0)
        .unwrap();
    let u = space
        .upsert(
            &mut conn,
            Tuple::new(vec![Value::Uint(1), Value::Str(b"x".to_vec())]),
            vec![UpdateOp { op: netbox::protocol::OP_ASSIGN, field: 1, value: Value::Uint(9) }],
            &opts,
            0,
        )
        .unwrap();
    let r = space
        .replace(&mut conn, Tuple::new(vec![Value::Uint(1)]), &opts, 0)
        .unwrap();
    let c = conn
        .call(b"stats".to_vec(), Tuple::new(vec![Value::Uint(3)]), &opts, 0)
        .unwrap();
    let e = conn
        .eval(b"return 1".to_vec(), Tuple::new(Vec::new()), &opts, 0)
        .unwrap();
    let frames = conn.take_writes();
    let observed: Vec<(u64, u64)> = frames
        .iter()
        .map(|f| {
            let (sync, code, _) = decode_request(f).unwrap();
            (sync, code)
        })
        .collect();
    assert_eq!(
        observed,
        vec![
            (d, command_code(Command::Delete)),
            (u, command_code(Command::Upsert)),
            (r, command_code(Command::Replace)),
            (c, command_code(Command::Call)),
            (e, command_code(Command::Eval)),
        ],
    );
    // The upsert body carries the encoded operation triple.
    let (_, _, body) = decode_request(&frames[1]).unwrap();
    let parts = as_array(body);
    assert_eq!(as_uint(&parts[0]), 512);
    let ops = match &parts[3] {
        Value::Array(items) => items,
        other => panic!("expected the operation list, got {:?}", other),
    };
    assert_eq!(ops.len(), 1);
}
