//! Length-prefixed frames of the wire protocol. A frame announces the byte
//! length of its payload; a request payload carries the correlation id and
//! command code, a response payload carries the correlation id, a status
//! word, and the server's schema version, each ahead of an encoded body.
//! Decoding rejects truncated frames, length mismatches, and trailing bytes.

use vstd::prelude::*;
use crate::value::{Value, ValModel};
use crate::codec::{
    spec_u64_bytes, spec_u64_of, spec_encode, spec_decode_val, lemma_u64_bytes_roundtrip,
    lemma_roundtrip_val, push_u64, read_u64, encode_value, decode_value,
};
use crate::Error;

verus! {

/// A decoded response frame. A zero status word marks success; any other
/// status is the server's error code for the one request this frame answers.
pub struct Response {
    pub sync: u64,
    pub status: u64,
    pub schema_version: u64,
    pub body: Value,
}

pub open spec fn spec_frame(payload: Seq<u8>) -> Seq<u8> {
    spec_u64_bytes(payload.len() as u64) + payload
}

pub open spec fn spec_request_payload(sync: u64, code: u64, body: ValModel) -> Seq<u8> {
    spec_u64_bytes(sync) + spec_u64_bytes(code) + spec_encode(body)
}

pub open spec fn spec_response_payload(
    sync: u64,
    status: u64,
    schema_version: u64,
    body: ValModel,
) -> Seq<u8> {
    spec_u64_bytes(sync) + spec_u64_bytes(status) + spec_u64_bytes(schema_version) + spec_encode(
        body,
    )
}

pub open spec fn spec_decode_request(b: Seq<u8>) -> Option<(u64, u64, ValModel)> {
    if b.len() < 8 {
        None
    } else {
        let n = spec_u64_of(b.take(8));
        let p = b.skip(8);
        if p.len() != n {
            None
        } else if p.len() < 16 {
            None
        } else {
            let sync = spec_u64_of(p.take(8));
            let code = spec_u64_of(p.skip(8).take(8));
            match spec_decode_val(p.skip(16)) {
                Some((m, rest)) => if rest.len() == 0 {
                    Some((sync, code, m))
                } else {
                    None
                },
                None => None,
            }
        }
    }
}

pub open spec fn spec_decode_response(b: Seq<u8>) -> Option<(u64, u64, u64, ValModel)> {
    if b.len() < 8 {
        None
    } else {
        let n = spec_u64_of(b.take(8));
        let p = b.skip(8);
        if p.len() != n {
            None
        } else if p.len() < 24 {
            None
        } else {
            let sync = spec_u64_of(p.take(8));
            let status = spec_u64_of(p.skip(8).take(8));
            let schema_version = spec_u64_of(p.skip(16).take(8));
            match spec_decode_val(p.skip(24)) {
                Some((m, rest)) => if rest.len() == 0 {
                    Some((sync, status, schema_version, m))
                } else {
                    None
                },
                None => None,
            }
        }
    }
}

/// Builds one request frame: correlation id, command code, encoded body,
/// behind a length prefix.
pub fn encode_request(sync: u64, code: u64, body: &Value) -> (r: Vec<u8>)
    ensures
        r@ == spec_frame(spec_request_payload(sync, code, body@)),
{
    let mut payload: Vec<u8> = Vec::new();
    push_u64(&mut payload, sync);
    push_u64(&mut payload, code);
    encode_value(body, &mut payload);
    proof {
        assert(payload@ =~= spec_request_payload(sync, code, body@));
    }
    let mut out: Vec<u8> = Vec::new();
    push_u64(&mut out, payload.len() as u64);
    append_vec(&mut out, &payload);
    proof {
        assert(out@ =~= spec_frame(spec_request_payload(sync, code, body@)));
    }
    out
}

/// Builds one response frame; the shape a server answers with, used here to
/// drive the engine from recorded or simulated peers.
pub fn encode_response(sync: u64, status: u64, schema_version: u64, body: &Value) -> (r: Vec<u8>)
    ensures
        r@ == spec_frame(spec_response_payload(sync, status, schema_version, body@)),
{
    let mut payload: Vec<u8> = Vec::new();
    push_u64(&mut payload, sync);
    push_u64(&mut payload, status);
    push_u64(&mut payload, schema_version);
    encode_value(body, &mut payload);
    proof {
        assert(payload@ =~= spec_response_payload(sync, status, schema_version, body@));
    }
    let mut out: Vec<u8> = Vec::new();
    push_u64(&mut out, payload.len() as u64);
    append_vec(&mut out, &payload);
    proof {
        assert(out@ =~= spec_frame(spec_response_payload(sync, status, schema_version, body@)));
    }
    out
}

fn append_vec(out: &mut Vec<u8>, bytes: &Vec<u8>)
    ensures
        final(out)@ == old(out)@ + bytes@,
{
    let mut i: usize = 0;
    while i < bytes.len()
        invariant
            i <= bytes.len(),
            out@ == old(out)@ + bytes@.take(i as int),
        decreases bytes.len() - i,
    {
        out.push(bytes[i]);
        proof {
            assert(bytes@.take(i as int + 1) =~= bytes@.take(i as int).push(bytes@[i as int]));
            assert(out@ =~= old(out)@ + bytes@.take(i as int + 1));
        }
        i = i + 1;
    }
    proof {
        assert(bytes@.take(bytes.len() as int) =~= bytes@);
    }
}

/// Parses one request frame; the inverse of `encode_request`, used to hold
/// the engine's own output against the wire format.
pub fn decode_request(b: &Vec<u8>) -> (r: Option<(u64, u64, Value)>)
    ensures
        match r {
            Some(p) => spec_decode_request(b@) == Some((p.0, p.1, p.2@)),
            None => spec_decode_request(b@) is None,
        },
{
    if b.len() < 8 {
        return None;
    }
    let n = read_u64(b, 0);
    proof {
        assert(b@.take(8) =~= b@.subrange(0, 8));
    }
    let avail = b.len() - 8;
    if avail as u64 != n {
        return None;
    }
    if avail < 16 {
        return None;
    }
    let sync = read_u64(b, 8);
    let code = read_u64(b, 16);
    proof {
        let p = b@.skip(8);
        assert(p.take(8) =~= b@.subrange(8, 16));
        assert(p.skip(8).take(8) =~= b@.subrange(16, 24));
        assert(p.skip(16) =~= b@.skip(24));
    }
    match decode_value(b, 24) {
        None => None,
        Some((v, end)) => {
            if end == b.len() {
                proof {
                    assert(b@.skip(end as int) =~= Seq::<u8>::empty());
                }
                Some((sync, code, v))
            } else {
                None
            }
        }
    }
}

/// Parses one response frame. Every malformed or truncated frame is the
/// distinct protocol error, never a panic.
pub fn decode_response(b: &Vec<u8>) -> (r: Result<Response, Error>)
    ensures
        match r {
            Ok(resp) => spec_decode_response(b@) == Some(
                (resp.sync, resp.status, resp.schema_version, resp.body@),
            ),
            Err(e) => spec_decode_response(b@) is None && e == Error::Protocol,
        },
{
    if b.len() < 8 {
        return Err(Error::Protocol);
    }
    let n = read_u64(b, 0);
    proof {
        assert(b@.take(8) =~= b@.subrange(0, 8));
    }
    let avail = b.len() - 8;
    if avail as u64 != n {
        return Err(Error::Protocol);
    }
    if avail < 24 {
        return Err(Error::Protocol);
    }
    let sync = read_u64(b, 8);
    let status = read_u64(b, 16);
    let schema_version = read_u64(b, 24);
    proof {
        let p = b@.skip(8);
        assert(p.take(8) =~= b@.subrange(8, 16));
        assert(p.skip(8).take(8) =~= b@.subrange(16, 24));
        assert(p.skip(16).take(8) =~= b@.subrange(24, 32));
        assert(p.skip(24) =~= b@.skip(32));
    }
    match decode_value(b, 32) {
        None => Err(Error::Protocol),
        Some((v, end)) => {
            if end == b.len() {
                proof {
                    assert(b@.skip(end as int) =~= Seq::<u8>::empty());
                }
                Ok(Response { sync, status, schema_version, body: v })
            } else {
                Err(Error::Protocol)
            }
        }
    }
}

/// A request framed by the engine parses back to its own id, code and body.
pub proof fn lemma_request_roundtrip(sync: u64, code: u64, m: ValModel)
    requires
        m.wf(),
        spec_encode(m).len() + 16 <= u64::MAX,
    ensures
        spec_decode_request(spec_frame(spec_request_payload(sync, code, m))) == Some(
            (sync, code, m),
        ),
{
    let payload = spec_request_payload(sync, code, m);
    let b = spec_frame(payload);
    lemma_u64_bytes_roundtrip(payload.len() as u64);
    assert(b.take(8) =~= spec_u64_bytes(payload.len() as u64));
    assert(b.skip(8) =~= payload);
    lemma_u64_bytes_roundtrip(sync);
    lemma_u64_bytes_roundtrip(code);
    assert(payload.take(8) =~= spec_u64_bytes(sync));
    assert(payload.skip(8).take(8) =~= spec_u64_bytes(code));
    assert(payload.skip(16) =~= spec_encode(m) + Seq::<u8>::empty());
    lemma_roundtrip_val(m, Seq::empty());
}

/// A response framed for a given id parses back to exactly that id, status,
/// schema version and body.
pub proof fn lemma_response_roundtrip(sync: u64, status: u64, schema_version: u64, m: ValModel)
    requires
        m.wf(),
        spec_encode(m).len() + 24 <= u64::MAX,
    ensures
        spec_decode_response(spec_frame(spec_response_payload(sync, status, schema_version, m)))
            == Some((sync, status, schema_version, m)),
{
    let payload = spec_response_payload(sync, status, schema_version, m);
    let b = spec_frame(payload);
    lemma_u64_bytes_roundtrip(payload.len() as u64);
    assert(b.take(8) =~= spec_u64_bytes(payload.len() as u64));
    assert(b.skip(8) =~= payload);
    lemma_u64_bytes_roundtrip(sync);
    lemma_u64_bytes_roundtrip(status);
    lemma_u64_bytes_roundtrip(schema_version);
    assert(payload.take(8) =~= spec_u64_bytes(sync));
    assert(payload.skip(8).take(8) =~= spec_u64_bytes(status));
    assert(payload.skip(16).take(8) =~= spec_u64_bytes(schema_version));
    assert(payload.skip(24) =~= spec_encode(m) + Seq::<u8>::empty());
    lemma_roundtrip_val(m, Seq::empty());
}

} // verus!
