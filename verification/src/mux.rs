//! The request multiplexer: issues correlation ids from a monotone counter,
//! keeps one pending slot per outstanding request, queues outbound frames in
//! submission order, and resolves each pending request exactly once — by a
//! matching response, by its deadline, or by connection loss.

use vstd::prelude::*;

verus! {

/// One outstanding request: its correlation id and, when the caller set a
/// timeout, the tick at which the wait gives up.
#[derive(Clone, Copy, Debug)]
pub struct PendingRequest {
    pub sync: u64,
    pub deadline: Option<u64>,
}

/// The mathematical state of a multiplexer.
pub ghost struct MuxView {
    pub next_sync: u64,
    pub pending: Seq<PendingRequest>,
    pub writes: Seq<Seq<u8>>,
}

pub open spec fn contains_sync(s: Seq<PendingRequest>, sync: u64) -> bool {
    exists|i: int| 0 <= i < s.len() && #[trigger] s[i].sync == sync
}

pub open spec fn syncs_of(s: Seq<PendingRequest>) -> Seq<u64> {
    s.map_values(|p: PendingRequest| p.sync)
}

pub open spec fn is_expired(p: PendingRequest, now: u64) -> bool {
    p.deadline is Some && p.deadline->0 <= now
}

pub open spec fn keep_live(s: Seq<PendingRequest>, now: u64) -> Seq<PendingRequest>
    decreases s.len(),
{
    if s.len() == 0 {
        Seq::empty()
    } else if is_expired(s[0], now) {
        keep_live(s.skip(1), now)
    } else {
        seq![s[0]] + keep_live(s.skip(1), now)
    }
}

pub open spec fn expired_syncs(s: Seq<PendingRequest>, now: u64) -> Seq<u64>
    decreases s.len(),
{
    if s.len() == 0 {
        Seq::empty()
    } else if is_expired(s[0], now) {
        seq![s[0].sync] + expired_syncs(s.skip(1), now)
    } else {
        expired_syncs(s.skip(1), now)
    }
}

impl MuxView {
    /// No two outstanding requests share a correlation id, and every
    /// outstanding id lies below the counter.
    pub open spec fn wf(self) -> bool {
        &&& (forall|i: int, j: int|
            0 <= i < j < self.pending.len() ==> #[trigger] self.pending[i].sync
                != #[trigger] self.pending[j].sync)
        &&& (forall|i: int|
            0 <= i < self.pending.len() ==> #[trigger] self.pending[i].sync < self.next_sync)
    }

    /// Registers a fresh pending request under the next correlation id.
    pub open spec fn issue(self, deadline: Option<u64>) -> (MuxView, u64) {
        (
            MuxView {
                next_sync: (self.next_sync + 1) as u64,
                pending: self.pending.push(PendingRequest { sync: self.next_sync, deadline }),
                writes: self.writes,
            },
            self.next_sync,
        )
    }

    /// Appends one frame to the outbound queue.
    pub open spec fn enqueue(self, w: Seq<u8>) -> MuxView {
        MuxView { writes: self.writes.push(w), ..self }
    }

    /// Hands the queued frames to the transport, in submission order.
    pub open spec fn drain(self) -> (MuxView, Seq<Seq<u8>>) {
        (MuxView { writes: Seq::empty(), ..self }, self.writes)
    }

    pub open spec fn index_of_sync(self, sync: u64) -> int {
        choose|i: int| 0 <= i < self.pending.len() && #[trigger] self.pending[i].sync == sync
    }

    /// Retires the pending request matching `sync`; an unmatched id changes
    /// nothing.
    pub open spec fn resolve(self, sync: u64) -> (MuxView, bool) {
        if contains_sync(self.pending, sync) {
            (MuxView { pending: self.pending.remove(self.index_of_sync(sync)), ..self }, true)
        } else {
            (self, false)
        }
    }

    /// Retires every pending request whose deadline has passed.
    pub open spec fn expire(self, now: u64) -> (MuxView, Seq<u64>) {
        (
            MuxView { pending: keep_live(self.pending, now), ..self },
            expired_syncs(self.pending, now),
        )
    }

    /// Retires every pending request at once: the connection left the ready
    /// state, or was shut down.
    pub open spec fn fail_all(self) -> (MuxView, Seq<u64>) {
        (MuxView { pending: Seq::empty(), ..self }, syncs_of(self.pending))
    }
}

/// The executable multiplexer; its contracts all speak of `MuxView`.
pub struct Multiplexer {
    pub next_sync: u64,
    pub pending: Vec<PendingRequest>,
    pub outbound: Vec<Vec<u8>>,
}

impl View for Multiplexer {
    type V = MuxView;

    open spec fn view(&self) -> MuxView {
        MuxView {
            next_sync: self.next_sync,
            pending: self.pending@,
            writes: self.outbound@.map_values(|w: Vec<u8>| w@),
        }
    }
}

impl Multiplexer {
    pub fn new() -> (m: Multiplexer)
        ensures
            m@.next_sync == 1,
            m@.pending == Seq::<PendingRequest>::empty(),
            m@.writes == Seq::<Seq<u8>>::empty(),
            m@.wf(),
    {
        let m = Multiplexer { next_sync: 1, pending: Vec::new(), outbound: Vec::new() };
        proof {
            assert(m@.writes =~= Seq::<Seq<u8>>::empty());
        }
        m
    }

    pub fn issue(&mut self, deadline: Option<u64>) -> (sync: u64)
        requires
            old(self)@.next_sync < u64::MAX,
        ensures
            (final(self)@, sync) == old(self)@.issue(deadline),
    {
        let sync = self.next_sync;
        self.next_sync = self.next_sync + 1;
        self.pending.push(PendingRequest { sync, deadline });
        sync
    }

    pub fn enqueue(&mut self, frame: Vec<u8>)
        ensures
            final(self)@ == old(self)@.enqueue(frame@),
    {
        let ghost w = frame@;
        self.outbound.push(frame);
        proof {
            assert(self.outbound@.map_values(|x: Vec<u8>| x@) =~= old(
                self,
            )@.writes.push(w));
        }
    }

    pub fn drain(&mut self) -> (frames: Vec<Vec<u8>>)
        ensures
            final(self)@ == old(self)@.drain().0,
            frames@.map_values(|w: Vec<u8>| w@) == old(self)@.drain().1,
    {
        let mut frames: Vec<Vec<u8>> = Vec::new();
        core::mem::swap(&mut frames, &mut self.outbound);
        proof {
            assert(self.outbound@.map_values(|w: Vec<u8>| w@) =~= Seq::<Seq<u8>>::empty());
        }
        frames
    }

    pub fn resolve(&mut self, sync: u64) -> (found: bool)
        requires
            old(self)@.wf(),
        ensures
            (final(self)@, found) == old(self)@.resolve(sync),
            final(self)@.wf(),
            !contains_sync(final(self)@.pending, sync),
    {
        let ghost v0 = self@;
        let mut i: usize = 0;
        while i < self.pending.len()
            invariant
                i <= self.pending.len(),
                self@ == v0,
                v0 == old(self)@,
                v0.wf(),
                forall|j: int| 0 <= j < i ==> #[trigger] self.pending@[j].sync != sync,
            decreases self.pending.len() - i,
        {
            if self.pending[i].sync == sync {
                self.pending.remove(i);
                proof {
                    assert(contains_sync(v0.pending, sync));
                    let k = v0.index_of_sync(sync);
                    assert(0 <= k < v0.pending.len() && v0.pending[k].sync == sync);
                    assert(k == i as int);
                    lemma_remove_keeps_wf(v0, i as int);
                    lemma_remove_drops_sync(v0, i as int);
                }
                return true;
            }
            i = i + 1;
        }
        proof {
            assert(!contains_sync(v0.pending, sync));
        }
        false
    }

    pub fn expire(&mut self, now: u64) -> (timed_out: Vec<u64>)
        requires
            old(self)@.wf(),
        ensures
            (final(self)@, timed_out@) == old(self)@.expire(now),
            final(self)@.wf(),
    {
        let ghost v0 = self@;
        let ghost s = v0.pending;
        let mut kept: Vec<PendingRequest> = Vec::new();
        let mut timed_out: Vec<u64> = Vec::new();
        proof {
            assert(s.skip(0) =~= s);
        }
        let mut i: usize = 0;
        while i < self.pending.len()
            invariant
                i <= self.pending.len(),
                self@ == v0,
                v0 == old(self)@,
                s == v0.pending,
                kept@ + keep_live(s.skip(i as int), now) =~= keep_live(s, now),
                timed_out@ + expired_syncs(s.skip(i as int), now) =~= expired_syncs(s, now),
            decreases self.pending.len() - i,
        {
            let p = self.pending[i];
            proof {
                let rest = s.skip(i as int);
                assert(rest[0] == s[i as int]);
                assert(rest.skip(1) =~= s.skip(i as int + 1));
            }
            let expired_now = match p.deadline {
                Some(d) => d <= now,
                None => false,
            };
            if expired_now {
                timed_out.push(p.sync);
            } else {
                kept.push(p);
            }
            proof {
                assert(kept@ + keep_live(s.skip(i as int + 1), now) =~= keep_live(s, now));
                assert(timed_out@ + expired_syncs(s.skip(i as int + 1), now) =~= expired_syncs(
                    s,
                    now,
                ));
            }
            i = i + 1;
        }
        proof {
            assert(s.skip(s.len() as int) =~= Seq::<PendingRequest>::empty());
            assert(kept@ =~= keep_live(s, now));
            assert(timed_out@ =~= expired_syncs(s, now));
            lemma_keep_live_wf(v0, now);
        }
        self.pending = kept;
        timed_out
    }

    pub fn fail_all(&mut self) -> (failed: Vec<u64>)
        ensures
            (final(self)@, failed@) == old(self)@.fail_all(),
            final(self)@.wf(),
    {
        let ghost v0 = self@;
        let mut failed: Vec<u64> = Vec::new();
        let mut i: usize = 0;
        while i < self.pending.len()
            invariant
                i <= self.pending.len(),
                self@ == v0,
                v0 == old(self)@,
                failed@ == syncs_of(v0.pending.take(i as int)),
                v0.next_sync == self.next_sync,
            decreases self.pending.len() - i,
        {
            failed.push(self.pending[i].sync);
            proof {
                assert(syncs_of(v0.pending.take(i as int + 1)) =~= syncs_of(
                    v0.pending.take(i as int),
                ).push(v0.pending[i as int].sync));
            }
            i = i + 1;
        }
        self.pending = Vec::new();
        proof {
            assert(v0.pending.take(v0.pending.len() as int) =~= v0.pending);
        }
        failed
    }
}

// ---------------------------------------------------------------------------
// Supporting lemmas

proof fn lemma_remove_keeps_wf(v: MuxView, k: int)
    requires
        v.wf(),
        0 <= k < v.pending.len(),
    ensures
        (MuxView { pending: v.pending.remove(k), ..v }).wf(),
{
    let s = v.pending.remove(k);
    assert forall|i: int, j: int| 0 <= i < j < s.len() implies #[trigger] s[i].sync
        != #[trigger] s[j].sync by {
        let i0: int = if i < k {
            i
        } else {
            i + 1
        };
        let j0: int = if j < k {
            j
        } else {
            j + 1
        };
        assert(s[i] == v.pending[i0]);
        assert(s[j] == v.pending[j0]);
    }
    assert forall|i: int| 0 <= i < s.len() implies #[trigger] s[i].sync < v.next_sync by {
        let i0: int = if i < k {
            i
        } else {
            i + 1
        };
        assert(s[i] == v.pending[i0]);
    }
}

proof fn lemma_remove_drops_sync(v: MuxView, k: int)
    requires
        v.wf(),
        0 <= k < v.pending.len(),
    ensures
        !contains_sync(v.pending.remove(k), v.pending[k].sync),
{
    let s = v.pending.remove(k);
    let sync = v.pending[k].sync;
    assert forall|i: int| 0 <= i < s.len() implies #[trigger] s[i].sync != sync by {
        let i0: int = if i < k {
            i
        } else {
            i + 1
        };
        assert(s[i] == v.pending[i0]);
        assert(i0 != k);
    }
}

/// Every id the sweep keeps stood in the old table.
proof fn lemma_keep_live_mem(s: Seq<PendingRequest>, now: u64)
    ensures
        forall|y: u64| contains_sync(keep_live(s, now), y) ==> contains_sync(s, y),
    decreases s.len(),
{
    if s.len() > 0 {
        lemma_keep_live_mem(s.skip(1), now);
        let kl = keep_live(s, now);
        let tail_kl = keep_live(s.skip(1), now);
        assert forall|y: u64| contains_sync(kl, y) implies contains_sync(s, y) by {
            let i = choose|i: int| 0 <= i < kl.len() && #[trigger] kl[i].sync == y;
            if is_expired(s[0], now) {
                assert(tail_kl[i].sync == y);
                assert(contains_sync(s.skip(1), y));
                let t = choose|t: int|
                    0 <= t < s.skip(1).len() && #[trigger] s.skip(1)[t].sync == y;
                assert(s[t + 1].sync == y);
            } else {
                if i == 0 {
                    assert(s[0].sync == y);
                } else {
                    assert(tail_kl[i - 1].sync == y);
                    assert(contains_sync(s.skip(1), y));
                    let t = choose|t: int|
                        0 <= t < s.skip(1).len() && #[trigger] s.skip(1)[t].sync == y;
                    assert(s[t + 1].sync == y);
                }
            }
        }
    }
}

pub open spec fn distinct_syncs(s: Seq<PendingRequest>) -> bool {
    forall|i: int, j: int|
        0 <= i < j < s.len() ==> #[trigger] s[i].sync != #[trigger] s[j].sync
}

proof fn lemma_keep_live_distinct(s: Seq<PendingRequest>, now: u64)
    requires
        distinct_syncs(s),
    ensures
        distinct_syncs(keep_live(s, now)),
    decreases s.len(),
{
    if s.len() > 0 {
        assert(distinct_syncs(s.skip(1))) by {
            assert(forall|i: int|
                0 <= i < s.skip(1).len() ==> #[trigger] s.skip(1)[i] == s[i + 1]);
        }
        lemma_keep_live_distinct(s.skip(1), now);
        lemma_keep_live_mem(s.skip(1), now);
        let kl = keep_live(s, now);
        let tail_kl = keep_live(s.skip(1), now);
        if !is_expired(s[0], now) {
            assert forall|i: int, j: int| 0 <= i < j < kl.len() implies #[trigger] kl[i].sync
                != #[trigger] kl[j].sync by {
                if i == 0 {
                    assert(kl[j] == tail_kl[j - 1]);
                    assert(contains_sync(tail_kl, tail_kl[j - 1].sync));
                    assert(contains_sync(s.skip(1), tail_kl[j - 1].sync));
                    let t = choose|t: int|
                        0 <= t < s.skip(1).len() && #[trigger] s.skip(1)[t].sync == tail_kl[j
                            - 1].sync;
                    assert(s[t + 1].sync == kl[j].sync);
                    assert(s[0].sync != s[t + 1].sync);
                } else {
                    assert(kl[i] == tail_kl[i - 1]);
                    assert(kl[j] == tail_kl[j - 1]);
                }
            }
        }
    }
}

proof fn lemma_keep_live_wf(v: MuxView, now: u64)
    requires
        v.wf(),
    ensures
        (MuxView { pending: keep_live(v.pending, now), ..v }).wf(),
{
    let s = v.pending;
    let kl = keep_live(s, now);
    lemma_keep_live_distinct(s, now);
    lemma_keep_live_mem(s, now);
    assert forall|i: int| 0 <= i < kl.len() implies #[trigger] kl[i].sync < v.next_sync by {
        assert(contains_sync(kl, kl[i].sync));
        assert(contains_sync(s, kl[i].sync));
        let t = choose|t: int| 0 <= t < s.len() && #[trigger] s[t].sync == kl[i].sync;
    }
}

/// Every id the sweep retires belonged to an expired pending request.
pub proof fn lemma_expired_syncs_sub(s: Seq<PendingRequest>, now: u64)
    ensures
        forall|i: int|
            0 <= i < expired_syncs(s, now).len() ==> contains_sync(
                s,
                #[trigger] expired_syncs(s, now)[i],
            ),
    decreases s.len(),
{
    if s.len() > 0 {
        lemma_expired_syncs_sub(s.skip(1), now);
        let es = expired_syncs(s, now);
        assert forall|i: int| 0 <= i < es.len() implies contains_sync(s, #[trigger] es[i]) by {
            let tail_es = expired_syncs(s.skip(1), now);
            if is_expired(s[0], now) {
                if i > 0 {
                    assert(es[i] == tail_es[i - 1]);
                    let t = choose|t: int|
                        0 <= t < s.skip(1).len() && #[trigger] s.skip(1)[t].sync == tail_es[i - 1];
                    assert(s[t + 1].sync == es[i]);
                } else {
                    assert(s[0].sync == es[0]);
                }
            } else {
                assert(es[i] == tail_es[i]);
                let t = choose|t: int|
                    0 <= t < s.skip(1).len() && #[trigger] s.skip(1)[t].sync == tail_es[i];
                assert(s[t + 1].sync == es[i]);
            }
        }
    }
}

/// Every request the sweep keeps is live, and stood in the old table.
proof fn lemma_keep_live_elems(s: Seq<PendingRequest>, now: u64)
    ensures
        forall|i: int|
            #![trigger keep_live(s, now)[i]]
            0 <= i < keep_live(s, now).len() ==> !is_expired(keep_live(s, now)[i], now) && (
            exists|j: int| 0 <= j < s.len() && s[j] == keep_live(s, now)[i]),
    decreases s.len(),
{
    if s.len() > 0 {
        lemma_keep_live_elems(s.skip(1), now);
        let kl = keep_live(s, now);
        let tail_kl = keep_live(s.skip(1), now);
        assert forall|i: int| #![trigger kl[i]] 0 <= i < kl.len() implies !is_expired(
            kl[i],
            now,
        ) && (exists|j: int| 0 <= j < s.len() && s[j] == kl[i]) by {
            if is_expired(s[0], now) {
                assert(kl[i] == tail_kl[i]);
                let j = choose|j: int| 0 <= j < s.skip(1).len() && s.skip(1)[j] == tail_kl[i];
                assert(s[j + 1] == kl[i]);
            } else {
                if i == 0 {
                    assert(s[0] == kl[0]);
                } else {
                    assert(kl[i] == tail_kl[i - 1]);
                    let j = choose|j: int|
                        0 <= j < s.skip(1).len() && s.skip(1)[j] == tail_kl[i - 1];
                    assert(s[j + 1] == kl[i]);
                }
            }
        }
    }
}

/// There is a pending request with id `y` whose deadline has passed.
pub open spec fn has_expired_with(s: Seq<PendingRequest>, now: u64, y: u64) -> bool {
    exists|k: int| 0 <= k < s.len() && #[trigger] s[k].sync == y && is_expired(s[k], now)
}

/// Every id the sweep retires belonged to a pending request whose deadline
/// had passed.
proof fn lemma_expired_syncs_witness(s: Seq<PendingRequest>, now: u64)
    ensures
        forall|i: int|
            #![trigger expired_syncs(s, now)[i]]
            0 <= i < expired_syncs(s, now).len() ==> has_expired_with(
                s,
                now,
                expired_syncs(s, now)[i],
            ),
    decreases s.len(),
{
    if s.len() > 0 {
        lemma_expired_syncs_witness(s.skip(1), now);
        let es = expired_syncs(s, now);
        let tail_es = expired_syncs(s.skip(1), now);
        assert forall|i: int| #![trigger es[i]] 0 <= i < es.len() implies has_expired_with(
            s,
            now,
            es[i],
        ) by {
            if is_expired(s[0], now) && i == 0 {
                assert(s[0].sync == es[0] && is_expired(s[0], now));
            } else {
                let at: int = if is_expired(s[0], now) {
                    i - 1
                } else {
                    i
                };
                assert(es[i] == tail_es[at]);
                assert(has_expired_with(s.skip(1), now, tail_es[at]));
                let k = choose|k: int|
                    0 <= k < s.skip(1).len() && #[trigger] s.skip(1)[k].sync == tail_es[at]
                        && is_expired(s.skip(1)[k], now);
                assert(s[k + 1].sync == es[i] && is_expired(s[k + 1], now));
            }
        }
    }
}

// ---------------------------------------------------------------------------
// Laws

/// Uniqueness: a freshly issued correlation id differs from every id still
/// outstanding, and distinctness of the outstanding table is preserved, so
/// no two simultaneously outstanding requests ever share an id.
pub proof fn lemma_issue_unique(v: MuxView, deadline: Option<u64>)
    requires
        v.wf(),
        v.next_sync < u64::MAX,
    ensures
        !contains_sync(v.pending, v.issue(deadline).1),
        v.issue(deadline).0.wf(),
        forall|sync: u64|
            #[trigger] contains_sync(v.pending, sync) ==> contains_sync(
                v.issue(deadline).0.pending,
                sync,
            ),
{
    let (v2, sync) = v.issue(deadline);
    assert forall|s: u64| #[trigger] contains_sync(v.pending, s) implies contains_sync(
        v2.pending,
        s,
    ) by {
        let i = choose|i: int| 0 <= i < v.pending.len() && #[trigger] v.pending[i].sync == s;
        assert(v2.pending[i].sync == s);
    }
    assert forall|i: int, j: int| 0 <= i < j < v2.pending.len() implies #[trigger] v2.pending[i].sync
        != #[trigger] v2.pending[j].sync by {
        if j < v.pending.len() as int {
        } else {
            assert(v2.pending[j].sync == v.next_sync);
            assert(v2.pending[i] == v.pending[i]);
        }
    }
}

/// Resolution-once: a pending request retired by a response cannot be
/// retired again — a second response with the same id changes nothing, a
/// later deadline sweep does not report it, and a connection-loss sweep
/// cannot fail it a second time.
pub proof fn lemma_resolution_once(v: MuxView, sync: u64, now: u64)
    requires
        v.wf(),
        contains_sync(v.pending, sync),
    ensures
        v.resolve(sync).1 == true,
        !contains_sync(v.resolve(sync).0.pending, sync),
        v.resolve(sync).0.resolve(sync) == (v.resolve(sync).0, false),
        !v.resolve(sync).0.expire(now).1.contains(sync),
        !v.resolve(sync).0.fail_all().1.contains(sync),
{
    let k = v.index_of_sync(sync);
    assert(0 <= k < v.pending.len() && v.pending[k].sync == sync);
    lemma_remove_keeps_wf(v, k);
    lemma_remove_drops_sync(v, k);
    let v2 = v.resolve(sync).0;
    lemma_expired_syncs_sub(v2.pending, now);
    let es = v2.expire(now).1;
    if es.contains(sync) {
        let i = choose|i: int| 0 <= i < es.len() && es[i] == sync;
        assert(contains_sync(v2.pending, es[i]));
    }
    let fs = v2.fail_all().1;
    if fs.contains(sync) {
        let i = choose|i: int| 0 <= i < fs.len() && fs[i] == sync;
        assert(v2.pending[i].sync == sync);
    }
}

/// Ordering: frames drain in exactly the order they were submitted; two
/// submissions in sequence are observed by the transport in that sequence.
pub proof fn lemma_write_order(v: MuxView, a: Seq<u8>, b: Seq<u8>)
    ensures
        v.enqueue(a).enqueue(b).drain().1 == v.writes + seq![a, b],
        v.enqueue(a).enqueue(b).drain().0.writes == Seq::<Seq<u8>>::empty(),
{
    assert(v.enqueue(a).enqueue(b).drain().1 =~= v.writes + seq![a, b]);
}


/// Resolution-once, the timeout side: an id retired by the deadline sweep
/// is no longer outstanding, so no later response can resolve it again and
/// no connection-loss sweep can fail it a second time.
pub proof fn lemma_timeout_once(v: MuxView, sync: u64, now: u64)
    requires
        v.wf(),
        v.expire(now).1.contains(sync),
    ensures
        !contains_sync(v.expire(now).0.pending, sync),
        v.expire(now).0.resolve(sync) == (v.expire(now).0, false),
        !v.expire(now).0.fail_all().1.contains(sync),
{
    let es = v.expire(now).1;
    let i = choose|i: int| 0 <= i < es.len() && es[i] == sync;
    lemma_expired_syncs_witness(v.pending, now);
    assert(has_expired_with(v.pending, now, sync));
    let k = choose|k: int|
        0 <= k < v.pending.len() && #[trigger] v.pending[k].sync == sync && is_expired(
            v.pending[k],
            now,
        );
    let kl = keep_live(v.pending, now);
    lemma_keep_live_elems(v.pending, now);
    if contains_sync(kl, sync) {
        let t = choose|t: int| 0 <= t < kl.len() && #[trigger] kl[t].sync == sync;
        let j = choose|j: int| 0 <= j < v.pending.len() && v.pending[j] == kl[t];
        assert(v.pending[j].sync == v.pending[k].sync);
        assert(j == k);
        assert(!is_expired(v.pending[k], now));
    }
    let v2 = v.expire(now).0;
    let fs = v2.fail_all().1;
    if fs.contains(sync) {
        let t = choose|t: int| 0 <= t < fs.len() && fs[t] == sync;
        assert(v2.pending[t].sync == sync);
    }
}


/// Resolution-once, the connection-loss side: once every outstanding
/// request has been failed by a loss sweep, nothing is left to resolve —
/// not by a late response, not by a deadline, not by a second sweep.
pub proof fn lemma_connection_loss_once(v: MuxView, sync: u64, now: u64)
    ensures
        v.fail_all().0.resolve(sync) == (v.fail_all().0, false),
        v.fail_all().0.expire(now).1.len() == 0,
        v.fail_all().0.fail_all().1.len() == 0,
{
    let v2 = v.fail_all().0;
    assert(!contains_sync(v2.pending, sync));
    assert(expired_syncs(v2.pending, now).len() == 0);
}

} // verus!
