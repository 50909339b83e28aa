use netbox::value::{Value, Tuple};
use netbox::codec::{encode_value, decode_value};
use netbox::frame::{encode_request, decode_request, encode_response, decode_response};
use netbox::protocol::{apply_ops, UpdateOp, OP_ASSIGN, response_first_tuple, response_row_count};
use netbox::Error;

fn sample_value() -> Value {
    Value::Array(vec![
        Value::Nil,
        Value::Bool(true),
        Value::Bool(false),
        Value::Uint(12345678901234567890),
        Value::Int(-987654321),
        Value::Str(b"hello".to_vec()),
        Value::Bin(vec![0, 1, 2, 255]),
        Value::Array(vec![Value::Uint(1), Value::Array(vec![Value::Str(b"deep".to_vec())])]),
        Value::Dict(vec![
            (Value::Str(b"key".to_vec()), Value::Uint(7)),
            (Value::Uint(0), Value::Nil),
        ]),
    ])
}

#[test]
fn roundtrip_all_field_types() {
    let v = sample_value();
    let mut out = Vec::new();
    encode_value(&v, &mut out);
    let (decoded, end) = decode_value(&out, 0).expect("well-formed");
    assert_eq!(end, out.len());
    assert_eq!(decoded, sample_value());
}

#[test]
fn roundtrip_scalars() {
    for v in [
        Value::Nil,
        Value::Bool(true),
        Value::Uint(0),
        Value::Uint(u64::MAX),
        Value::Int(i64::MIN),
        Value::Int(i64::MAX),
        Value::Str(Vec::new()),
        Value::Bin(b"x".to_vec()),
        Value::Array(Vec::new()),
        Value::Dict(Vec::new()),
    ] {
        let mut out = Vec::new();
        encode_value(&v, &mut out);
        let (decoded, end) = decode_value(&out, 0).expect("well-formed");
        assert_eq!(end, out.len());
        assert_eq!(decoded, v);
    }
}

#[test]
fn uint_encoding_is_big_endian() {
    let mut out = Vec::new();
    encode_value(&Value::Uint(258), &mut out);
    assert_eq!(out, vec![3, 0, 0, 0, 0, 0, 0, 1, 2]);
}

#[test]
fn truncated_value_is_rejected() {
    let mut out = Vec::new();
    encode_value(&sample_value(), &mut out);
    for cut in 0..out.len() {
        let truncated: Vec<u8> = out[..cut].to_vec();
        match decode_value(&truncated, 0) {
            None => {}
            Some((_, end)) => assert!(end <= cut),
        }
    }
}

#[test]
fn unknown_tag_is_rejected() {
    assert!(decode_value(&vec![200u8], 0).is_none());
}

#[test]
fn request_frame_roundtrip() {
    let body = sample_value();
    let frame = encode_request(42, 5, &body);
    let (sync, code, decoded) = decode_request(&frame).expect("well-formed");
    assert_eq!(sync, 42);
    assert_eq!(code, 5);
    assert_eq!(decoded, sample_value());
}

#[test]
fn response_frame_roundtrip() {
    let body = Value::Array(vec![Value::Uint(9)]);
    let frame = encode_response(7, 0, 3, &body);
    let resp = decode_response(&frame).expect("well-formed");
    assert_eq!(resp.sync, 7);
    assert_eq!(resp.status, 0);
    assert_eq!(resp.schema_version, 3);
    assert_eq!(resp.body, Value::Array(vec![Value::Uint(9)]));
}

#[test]
fn malformed_frames_are_protocol_errors() {
    // Too short for a length prefix.
    assert!(matches!(decode_response(&vec![1, 2, 3]), Err(Error::Protocol)));
    // Length prefix disagrees with the payload.
    let mut frame = encode_response(1, 0, 0, &Value::Nil);
    frame.push(0);
    assert!(matches!(decode_response(&frame), Err(Error::Protocol)));
    // Trailing bytes inside a consistent length prefix.
    let good = encode_response(1, 0, 0, &Value::Nil);
    let mut padded = vec![0u8; 8];
    padded.extend_from_slice(&good[8..]);
    padded.push(0);
    let declared = (padded.len() - 8) as u64;
    padded[..8].copy_from_slice(&declared.to_be_bytes());
    assert!(matches!(decode_response(&padded), Err(Error::Protocol)));
}

#[test]
fn apply_ops_assigns_in_sequence_order() {
    let t = Tuple::new(vec![Value::Uint(1), Value::Str(b"Old".to_vec())]);
    let ops = vec![
        UpdateOp { op: OP_ASSIGN, field: 1, value: Value::Str(b"Mid".to_vec()) },
        UpdateOp { op: OP_ASSIGN, field: 1, value: Value::Str(b"New".to_vec()) },
    ];
    let r = apply_ops(t, ops);
    assert_eq!(r.fields[0], Value::Uint(1));
    assert_eq!(r.fields[1], Value::Str(b"New".to_vec()));
}

#[test]
fn apply_ops_ignores_out_of_range_field() {
    let t = Tuple::new(vec![Value::Uint(1)]);
    let ops = vec![UpdateOp { op: OP_ASSIGN, field: 9, value: Value::Nil }];
    let r = apply_ops(t, ops);
    assert_eq!(r.fields, vec![Value::Uint(1)]);
}

#[test]
fn first_tuple_of_data_response() {
    let body = Value::Array(vec![Value::Array(vec![Value::Uint(1), Value::Str(b"a".to_vec())])]);
    let t = response_first_tuple(body).expect("one row");
    assert_eq!(t.fields, vec![Value::Uint(1), Value::Str(b"a".to_vec())]);

    let empty = Value::Array(Vec::new());
    assert!(response_first_tuple(empty).is_none());
    assert_eq!(response_row_count(&Value::Array(Vec::new())), Some(0));
    assert_eq!(response_row_count(&Value::Nil), None);
}
