//! The connection lifecycle: a state machine that owns the multiplexer and
//! the schema cache, accepts submissions while it is alive, turns decoded
//! frames into resolutions of the matching pending request, fails every
//! outstanding request exactly once when the transport breaks or the
//! connection closes, and re-enters the ready state only through a
//! reconnection policy with a nonzero interval.
//!
//! The machine is driven by events: a driver performs the transport work
//! (connect, read, write) and reports what happened; every decision stands
//! here, verified.

use vstd::prelude::*;
use crate::value::{Value, ValModel};
use crate::frame::{spec_frame, spec_request_payload, spec_decode_response, encode_request,
    decode_response, Response};
use crate::mux::{Multiplexer, MuxView, PendingRequest, contains_sync, syncs_of};
use crate::schema::{SchemaCache, SchemaView};
use crate::protocol::{Command, spec_command_code, command_code, build_ping_body, build_call_body,
    build_auth_body};
use crate::value::Tuple;
use crate::Error;

verus! {

/// The lifecycle states of a connection.
#[derive(Clone, Copy, PartialEq, Eq, Structural, Debug)]
pub enum ConnState {
    Initial,
    Connecting,
    Authenticating,
    Ready,
    Broken,
    Reconnecting,
    Closed,
}

/// Connection-wide configuration: credentials and the reconnection policy.
/// A zero `reconnect_after` disables automatic reconnection.
pub struct ConnOptions {
    pub user: Vec<u8>,
    pub password: Vec<u8>,
    pub reconnect_after: u64,
}

/// Per-request configuration: an optional timeout in ticks.
#[derive(Clone, Copy, Debug)]
pub struct Options {
    pub timeout: Option<u64>,
}

/// The mathematical state of a connection.
pub ghost struct ConnView {
    pub state: ConnState,
    pub reconnect_after: u64,
    pub retry_at: Option<u64>,
    pub user: Seq<u8>,
    pub mux: MuxView,
    pub schema: SchemaView,
}

pub open spec fn spec_deadline(opts: Options, now: u64) -> Option<u64> {
    match opts.timeout {
        Some(t) => Some((now + t) as u64),
        None => None,
    }
}

/// A state in which new submissions are accepted and queued.
pub open spec fn accepts_submissions(s: ConnState) -> bool {
    s == ConnState::Initial || s == ConnState::Connecting || s == ConnState::Authenticating || s
        == ConnState::Ready || s == ConnState::Reconnecting
}

pub open spec fn spec_retry_at(reconnect_after: u64, now: u64) -> Option<u64> {
    if reconnect_after > 0 {
        Some((now + reconnect_after) as u64)
    } else {
        None
    }
}

/// The correlation ids of a timed-out batch, in sweep order.
pub open spec fn sync_parts(s: Seq<(u64, Error)>) -> Seq<u64> {
    s.map_values(|p: (u64, Error)| p.0)
}

/// The one contract of every submission: a closed connection refuses at
/// once, a broken one fails with connection loss, and every living state
/// accepts — registering a fresh pending request and placing the frame
/// (correlation id, command code, body) last in the outbound queue.
pub open spec fn submit_transition(
    v0: ConnView,
    v1: ConnView,
    r: Result<u64, Error>,
    code: u64,
    body: ValModel,
    opts: Options,
    now: u64,
) -> bool {
    &&& (v0.state == ConnState::Closed ==> r == Err::<u64, Error>(Error::ConnectionClosed) && v1
        == v0)
    &&& (v0.state == ConnState::Broken ==> r == Err::<u64, Error>(Error::ConnectionLost) && v1
        == v0)
    &&& (accepts_submissions(v0.state) ==> {
        let (mux1, sync) = v0.mux.issue(spec_deadline(opts, now));
        &&& r == Ok::<u64, Error>(sync)
        &&& sync == v0.mux.next_sync
        &&& !contains_sync(v0.mux.pending, sync)
        &&& v1 == (ConnView {
            mux: mux1.enqueue(spec_frame(spec_request_payload(sync, code, body))),
            ..v0
        })
        &&& v1.mux.wf()
    })
}

/// What one incoming frame did to the connection.
pub enum FrameOutcome {
    /// The frame was malformed: the connection is broken and these
    /// correlation ids were failed with a connection-loss error.
    Corrupt(Vec<u64>),
    /// A well-formed frame matched this outstanding request and resolved it
    /// with the server's answer or the server's error.
    Delivered(u64, Result<Value, Error>),
    /// A well-formed frame carried an id with no matching pending request;
    /// it is dropped and the connection is untouched.
    Unmatched(u64),
}

pub struct Conn {
    pub state: ConnState,
    pub addr: Vec<u8>,
    pub user: Vec<u8>,
    pub password: Vec<u8>,
    pub reconnect_after: u64,
    pub retry_at: Option<u64>,
    pub mux: Multiplexer,
    pub schema: SchemaCache,
}

impl View for Conn {
    type V = ConnView;

    open spec fn view(&self) -> ConnView {
        ConnView {
            state: self.state,
            reconnect_after: self.reconnect_after,
            retry_at: self.retry_at,
            user: self.user@,
            mux: self.mux@,
            schema: self.schema@,
        }
    }
}

impl Conn {
    /// A new connection to `addr`: no socket yet, nothing pending, an empty
    /// schema cache.
    pub fn new(addr: Vec<u8>, opts: ConnOptions) -> (c: Conn)
        ensures
            c@.state == ConnState::Initial,
            c@.retry_at is None,
            c@.reconnect_after == opts.reconnect_after,
            c@.user == opts.user@,
            c@.mux.wf(),
            c@.mux.pending == Seq::<PendingRequest>::empty(),
            c@.mux.writes == Seq::<Seq<u8>>::empty(),
            c@.mux.next_sync == 1,
            c@.schema.version == 0,
    {
        Conn {
            state: ConnState::Initial,
            addr,
            user: opts.user,
            password: opts.password,
            reconnect_after: opts.reconnect_after,
            retry_at: None,
            mux: Multiplexer::new(),
            schema: SchemaCache::new(),
        }
    }

    pub fn is_connected(&self) -> (r: bool)
        ensures
            r == (self@.state == ConnState::Ready),
    {
        self.state == ConnState::Ready
    }

    /// The driver began the transport handshake.
    pub fn connect_started(&mut self)
        requires
            old(self)@.state == ConnState::Initial || old(self)@.state == ConnState::Reconnecting,
        ensures
            final(self)@ == (ConnView { state: ConnState::Connecting, ..old(self)@ }),
    {
        self.state = ConnState::Connecting;
    }

    /// The server's greeting arrived: answer it with the credential
    /// exchange and wait for the verdict. The token is the authentication
    /// proof the driver derived from the password and the greeting's salt.
    pub fn greeting_received(&mut self, token: Vec<u8>)
        requires
            old(self)@.state == ConnState::Connecting,
        ensures
            final(self)@ == (ConnView {
                state: ConnState::Authenticating,
                mux: old(self)@.mux.enqueue(
                    spec_frame(
                        spec_request_payload(
                            0,
                            spec_command_code(Command::Auth),
                            ValModel::Array(
                                seq![
                                    ValModel::Str(old(self)@.user),
                                    ValModel::Bin(token@),
                                ],
                            ),
                        ),
                    ),
                ),
                ..old(self)@
            }),
    {
        let mut user_copy: Vec<u8> = Vec::new();
        let mut i: usize = 0;
        while i < self.user.len()
            invariant
                i <= self.user.len(),
                self == old(self),
                user_copy@ == self.user@.take(i as int),
            decreases self.user.len() - i,
        {
            user_copy.push(self.user[i]);
            proof {
                assert(self.user@.take(i as int + 1) =~= self.user@.take(i as int).push(
                    self.user@[i as int],
                ));
            }
            i = i + 1;
        }
        proof {
            assert(self.user@.take(self.user.len() as int) =~= self.user@);
        }
        let body = build_auth_body(user_copy, token);
        let frame = encode_request(0, command_code(Command::Auth), &body);
        self.mux.enqueue(frame);
        self.state = ConnState::Authenticating;
    }

    /// The credential exchange succeeded: the connection is ready, and the
    /// schema cache starts empty — ids resolved before a reconnection are
    /// never trusted across it.
    pub fn auth_ok(&mut self)
        requires
            old(self)@.state == ConnState::Authenticating,
        ensures
            final(self)@ == (ConnView {
                state: ConnState::Ready,
                schema: SchemaView {
                    version: old(self)@.schema.version,
                    spaces: Seq::empty(),
                    indexes: Seq::empty(),
                },
                ..old(self)@
            }),
    {
        self.state = ConnState::Ready;
        self.schema.invalidate();
    }

    /// The transport failed, the peer closed, or authentication was
    /// refused: the connection breaks, every outstanding request fails with
    /// a connection-loss error exactly once, queued writes are discarded,
    /// and — only under a nonzero reconnection interval — a retry is
    /// scheduled.
    pub fn on_io_error(&mut self, now: u64) -> (failed: Vec<u64>)
        requires
            now + old(self)@.reconnect_after <= u64::MAX,
        ensures
            final(self)@.state == ConnState::Broken,
            final(self)@.retry_at == spec_retry_at(old(self)@.reconnect_after, now),
            failed@ == syncs_of(old(self)@.mux.pending),
            final(self)@.mux.pending == Seq::<PendingRequest>::empty(),
            final(self)@.mux.writes == Seq::<Seq<u8>>::empty(),
            final(self)@.mux.next_sync == old(self)@.mux.next_sync,
            final(self)@.mux.wf(),
            final(self)@.schema == old(self)@.schema,
            final(self)@.reconnect_after == old(self)@.reconnect_after,
            final(self)@.user == old(self)@.user,
    {
        self.state = ConnState::Broken;
        if self.reconnect_after > 0 {
            self.retry_at = Some(now + self.reconnect_after);
        } else {
            self.retry_at = None;
        }
        let failed = self.mux.fail_all();
        let _discarded = self.mux.drain();
        failed
    }

    /// A timer tick: a broken connection with a due retry enters the
    /// reconnecting state. With no scheduled retry — the policy interval
    /// was zero — the connection stays broken forever.
    pub fn tick_reconnect(&mut self, now: u64) -> (started: bool)
        ensures
            started == (old(self)@.state == ConnState::Broken && old(self)@.retry_at is Some
                && old(self)@.retry_at->0 <= now),
            started ==> final(self)@ == (ConnView {
                state: ConnState::Reconnecting,
                retry_at: None,
                ..old(self)@
            }),
            !started ==> final(self)@ == old(self)@,
    {
        if self.state == ConnState::Broken {
            match self.retry_at {
                Some(t) => {
                    if t <= now {
                        self.state = ConnState::Reconnecting;
                        self.retry_at = None;
                        return true;
                    }
                    false
                }
                None => false,
            }
        } else {
            false
        }
    }

    /// Explicit shutdown: terminal. Outstanding requests fail exactly once
    /// with a connection-loss error; every later submission is refused.
    pub fn close(&mut self) -> (failed: Vec<u64>)
        ensures
            final(self)@.state == ConnState::Closed,
            final(self)@.retry_at is None,
            failed@ == syncs_of(old(self)@.mux.pending),
            final(self)@.mux.pending == Seq::<PendingRequest>::empty(),
            final(self)@.mux.writes == Seq::<Seq<u8>>::empty(),
            final(self)@.mux.wf(),
            final(self)@.schema == old(self)@.schema,
    {
        self.state = ConnState::Closed;
        self.retry_at = None;
        let failed = self.mux.fail_all();
        let _discarded = self.mux.drain();
        failed
    }

    /// Registers a request and queues its frame. In the closed state the
    /// submission fails at once with the closed error; in the broken state
    /// with the connection-loss error; in every other state it is accepted,
    /// the fresh correlation id is returned, and the frame — the id, the
    /// command's code, the body — stands last in the outbound queue.
    pub fn submit(&mut self, command: Command, body: &Value, opts: &Options, now: u64) -> (r:
        Result<u64, Error>)
        requires
            old(self)@.mux.wf(),
            old(self)@.mux.next_sync < u64::MAX,
            opts.timeout is Some ==> now + opts.timeout->0 <= u64::MAX,
        ensures
            submit_transition(
                old(self)@,
                final(self)@,
                r,
                spec_command_code(command),
                body@,
                *opts,
                now,
            ),
    {
        match self.state {
            ConnState::Closed => Err(Error::ConnectionClosed),
            ConnState::Broken => Err(Error::ConnectionLost),
            _ => {
                proof {
                    crate::mux::lemma_issue_unique(self@.mux, spec_deadline(*opts, now));
                }
                let deadline = match opts.timeout {
                    Some(t) => Some(now + t),
                    None => None,
                };
                let sync = self.mux.issue(deadline);
                let frame = encode_request(sync, command_code(command), body);
                self.mux.enqueue(frame);
                Ok(sync)
            }
        }
    }

    /// Hands the queued frames to the transport, in submission order, and
    /// leaves the queue empty.
    pub fn take_writes(&mut self) -> (frames: Vec<Vec<u8>>)
        ensures
            frames@.map_values(|w: Vec<u8>| w@) == old(self)@.mux.writes,
            final(self)@ == (ConnView { mux: old(self)@.mux.drain().0, ..old(self)@ }),
    {
        self.mux.drain()
    }

    /// One frame arrived from the transport. A malformed frame is protocol
    /// corruption: the connection breaks and every outstanding request
    /// fails, exactly as on a transport error. A well-formed frame first
    /// carries its schema version into the cache — clearing it on a change
    /// — and then resolves the one pending request with its correlation id:
    /// a zero status delivers the body, any other status delivers the
    /// server's error. An unmatched id is dropped and changes nothing.
    pub fn on_frame(&mut self, bytes: &Vec<u8>, now: u64) -> (outcome: FrameOutcome)
        requires
            old(self)@.mux.wf(),
            now + old(self)@.reconnect_after <= u64::MAX,
        ensures
            final(self)@.mux.wf(),
            match outcome {
                FrameOutcome::Corrupt(failed) => spec_decode_response(bytes@) is None
                    && final(self)@.state == ConnState::Broken && failed@ == syncs_of(
                    old(self)@.mux.pending,
                ) && final(self)@.mux.pending == Seq::<PendingRequest>::empty()
                    && final(self)@.retry_at == spec_retry_at(old(self)@.reconnect_after, now),
                FrameOutcome::Delivered(sync, result) => (spec_decode_response(bytes@)
                    matches Some(h) && h.0 == sync && contains_sync(old(self)@.mux.pending, sync)
                    && final(self)@ == (ConnView {
                    mux: old(self)@.mux.resolve(sync).0,
                    schema: old(self)@.schema.observe(h.2),
                    ..old(self)@
                }) && !contains_sync(final(self)@.mux.pending, sync) && (h.1 == 0 ==> (result
                    matches Ok(v) && v@ == h.3)) && (h.1 != 0 ==> result == Err::<Value, Error>(
                    Error::Server(h.1),
                ))),
                FrameOutcome::Unmatched(sync) => (spec_decode_response(bytes@) matches Some(h)
                    && h.0 == sync && !contains_sync(old(self)@.mux.pending, sync) && final(self)@
                    == (ConnView { schema: old(self)@.schema.observe(h.2), ..old(self)@ })),
            },
    {
        match decode_response(bytes) {
            Err(_) => {
                let failed = self.on_io_error(now);
                FrameOutcome::Corrupt(failed)
            }
            Ok(resp) => {
                let Response { sync, status, schema_version, body } = resp;
                self.schema.observe_version(schema_version);
                let found = self.mux.resolve(sync);
                if found {
                    if status == 0 {
                        FrameOutcome::Delivered(sync, Ok(body))
                    } else {
                        FrameOutcome::Delivered(sync, Err(Error::Server(status)))
                    }
                } else {
                    FrameOutcome::Unmatched(sync)
                }
            }
        }
    }

    /// Retires every pending request whose deadline has passed; each timed
    /// out id resumes its caller with the timeout error, and nothing else —
    /// not the state, not the cache, not the queue — moves.
    pub fn expire(&mut self, now: u64) -> (timed_out: Vec<(u64, Error)>)
        requires
            old(self)@.mux.wf(),
        ensures
            sync_parts(timed_out@) == old(self)@.mux.expire(now).1,
            forall|i: int|
                0 <= i < timed_out@.len() ==> #[trigger] timed_out@[i].1 == Error::Timeout,
            final(self)@.mux.wf(),
            final(self)@ == (ConnView { mux: old(self)@.mux.expire(now).0, ..old(self)@ }),
    {
        let ghost expired = old(self)@.mux.expire(now).1;
        let syncs = self.mux.expire(now);
        let mut timed_out: Vec<(u64, Error)> = Vec::new();
        let mut i: usize = 0;
        while i < syncs.len()
            invariant
                i <= syncs.len(),
                syncs@ == expired,
                sync_parts(timed_out@) == expired.take(i as int),
                forall|j: int|
                    0 <= j < timed_out@.len() ==> #[trigger] timed_out@[j].1 == Error::Timeout,
            decreases syncs.len() - i,
        {
            let ghost prev = timed_out@;
            timed_out.push((syncs[i], Error::Timeout));
            proof {
                assert(sync_parts(prev).len() == prev.len());
                assert(prev.len() == i as int);
                assert forall|j: int| 0 <= j < timed_out@.len() implies sync_parts(
                    timed_out@,
                )[j] == expired.take(i as int + 1)[j] by {
                    assert(sync_parts(timed_out@)[j] == timed_out@[j].0);
                    if j < i as int {
                        assert(timed_out@[j] == prev[j]);
                        assert(sync_parts(prev)[j] == prev[j].0);
                        assert(sync_parts(prev)[j] == expired.take(i as int)[j]);
                    } else {
                        assert(timed_out@[j] == (syncs@[i as int], Error::Timeout));
                    }
                }
                assert(sync_parts(timed_out@).len() == timed_out@.len());
                assert(sync_parts(timed_out@) =~= expired.take(i as int + 1));
            }
            i = i + 1;
        }
        proof {
            assert(expired.take(expired.len() as int) =~= expired);
        }
        timed_out
    }

    /// A liveness probe: an empty body under the ping command.
    pub fn ping(&mut self, opts: &Options, now: u64) -> (r: Result<u64, Error>)
        requires
            old(self)@.mux.wf(),
            old(self)@.mux.next_sync < u64::MAX,
            opts.timeout is Some ==> now + opts.timeout->0 <= u64::MAX,
        ensures
            submit_transition(
                old(self)@,
                final(self)@,
                r,
                spec_command_code(Command::Ping),
                ValModel::Array(Seq::empty()),
                *opts,
                now,
            ),
    {
        let body = build_ping_body();
        self.submit(Command::Ping, &body, opts, now)
    }

    /// A remote procedure call: the function name and an argument tuple;
    /// the answer may carry a result tuple, and its absence is a valid
    /// outcome.
    pub fn call(&mut self, function: Vec<u8>, args: Tuple, opts: &Options, now: u64) -> (r: Result<
        u64,
        Error,
    >)
        requires
            old(self)@.mux.wf(),
            old(self)@.mux.next_sync < u64::MAX,
            opts.timeout is Some ==> now + opts.timeout->0 <= u64::MAX,
        ensures
            submit_transition(
                old(self)@,
                final(self)@,
                r,
                spec_command_code(Command::Call),
                ValModel::Array(seq![ValModel::Str(function@), ValModel::Array(args@)]),
                *opts,
                now,
            ),
    {
        let body = build_call_body(function, args);
        self.submit(Command::Call, &body, opts, now)
    }

    /// Evaluates an expression remotely; the same shape as `call`, under
    /// the eval command.
    pub fn eval(&mut self, expression: Vec<u8>, args: Tuple, opts: &Options, now: u64) -> (r:
        Result<u64, Error>)
        requires
            old(self)@.mux.wf(),
            old(self)@.mux.next_sync < u64::MAX,
            opts.timeout is Some ==> now + opts.timeout->0 <= u64::MAX,
        ensures
            submit_transition(
                old(self)@,
                final(self)@,
                r,
                spec_command_code(Command::Eval),
                ValModel::Array(seq![ValModel::Str(expression@), ValModel::Array(args@)]),
                *opts,
                now,
            ),
    {
        let body = build_call_body(expression, args);
        self.submit(Command::Eval, &body, opts, now)
    }
}

} // verus!
