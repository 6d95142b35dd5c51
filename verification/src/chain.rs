//! The [`Chain`]: the append-only, hash-linked audit log.
use vstd::prelude::*;

use crate::canonical::{canonical_bytes, compute, record_digest};
use crate::clock::{Clock, Timestamp};
use crate::error::{Error, Result, SinkError};
use crate::hash::{zero_bytes, Digest, Hasher};
use crate::record::{Action, Actor, Outcome, Record, RecordId, RecordView, Target};
use crate::sink::Sink;

verus! {

/// The running state of a chain: the id the next record receives, and the
/// hash and timestamp of the most recently appended record.
pub struct ChainState {
    pub next_id: u64,
    pub last_hash: Seq<u8>,
    pub last_timestamp: u64,
}

/// The state of a fresh chain.
pub open spec fn genesis_state() -> ChainState {
    ChainState { next_id: 0, last_hash: zero_bytes(), last_timestamp: 0 }
}

/// Why an append at timestamp `ts` is refused from state `s`, if it is:
/// a timestamp that does not strictly increase (checked once a record
/// exists), then an id counter that would overflow.
pub open spec fn append_refusal(s: ChainState, ts: u64) -> Option<Error> {
    if s.next_id > 0 && ts <= s.last_timestamp {
        Some(Error::NonMonotonicClock)
    } else if s.next_id == u64::MAX {
        Some(Error::Capacity)
    } else {
        None
    }
}

/// The record an append at timestamp `ts` produces from state `s`: the next
/// id, linked to the last hash, hashed by `H` over its canonical bytes.
pub open spec fn draft_record<H: Hasher>(
    s: ChainState,
    ts: u64,
    actor: Seq<char>,
    action: Seq<char>,
    target: Seq<char>,
    outcome: Outcome,
) -> RecordView {
    let unhashed = RecordView {
        id: s.next_id,
        timestamp: ts,
        actor,
        action,
        target,
        outcome,
        prev_hash: s.last_hash,
        hash: zero_bytes(),
    };
    unhashed.with_hash(record_digest::<H>(unhashed))
}

/// The state after `rec` has been appended.
pub open spec fn state_after(s: ChainState, rec: RecordView) -> ChainState {
    ChainState { next_id: (s.next_id + 1) as u64, last_hash: rec.hash, last_timestamp: rec.timestamp }
}

/// Every appended record carries the chain's next id and links to the
/// chain's last hash, and the chain then moves to the following id and to
/// that record's hash and timestamp. In particular an append that failed,
/// leaving the state as it was, is retried with the same id and link.
pub proof fn lemma_draft_links<H: Hasher>(
    s: ChainState,
    ts: u64,
    actor: Seq<char>,
    action: Seq<char>,
    target: Seq<char>,
    outcome: Outcome,
)
    requires
        append_refusal(s, ts) is None,
    ensures
        ({
            let rec = draft_record::<H>(s, ts, actor, action, target, outcome);
            &&& rec.id == s.next_id
            &&& rec.prev_hash == s.last_hash
            &&& rec.timestamp == ts
            &&& state_after(s, rec).next_id == s.next_id + 1
            &&& state_after(s, rec).last_hash == rec.hash
            &&& state_after(s, rec).last_timestamp == ts
            &&& (s.next_id > 0 ==> s.last_timestamp < ts)
        }),
{
}

/// Which appends are admitted: on a fresh chain any timestamp, afterwards
/// exactly the timestamps strictly above the last one; and only while the
/// id counter has room. A timestamp that does not increase is reported as
/// such, even when the counter is also exhausted.
pub proof fn lemma_admission(s: ChainState, ts: u64)
    ensures
        append_refusal(s, ts) is None <==> ((s.next_id == 0 || ts > s.last_timestamp) && s.next_id
            < u64::MAX),
        append_refusal(s, ts) == Some(Error::NonMonotonicClock) <==> (s.next_id > 0 && ts
            <= s.last_timestamp),
        append_refusal(s, ts) == Some(Error::Capacity) <==> ((s.next_id == 0 || ts
            > s.last_timestamp) && s.next_id == u64::MAX),
{
}

/// The record an append builds carries the caller's actor, action, target
/// and outcome unchanged, the clock's reading, the chain's next id and a
/// link to its last hash; its stored hash is the digest of its own
/// canonical bytes, so it passes the verifier's hash check.
pub proof fn lemma_draft_record_fields<H: Hasher>(
    s: ChainState,
    ts: u64,
    actor: Seq<char>,
    action: Seq<char>,
    target: Seq<char>,
    outcome: Outcome,
)
    ensures
        ({
            let rec = draft_record::<H>(s, ts, actor, action, target, outcome);
            &&& rec.id == s.next_id
            &&& rec.timestamp == ts
            &&& rec.actor == actor
            &&& rec.action == action
            &&& rec.target == target
            &&& rec.outcome == outcome
            &&& rec.prev_hash == s.last_hash
            &&& rec.hash == H::digest_of(canonical_bytes(rec))
        }),
{
    let rec = draft_record::<H>(s, ts, actor, action, target, outcome);
    assert(canonical_bytes(rec) == canonical_bytes(RecordView { hash: zero_bytes(), ..rec }));
}

/// One append request as the chain sees it: the timestamp the clock gave
/// and the caller's fields.
pub struct AppendEvent {
    pub timestamp: u64,
    pub actor: Seq<char>,
    pub action: Seq<char>,
    pub target: Seq<char>,
    pub outcome: Outcome,
}

/// The record `e` produces from state `s`.
pub open spec fn event_record<H: Hasher>(s: ChainState, e: AppendEvent) -> RecordView {
    draft_record::<H>(s, e.timestamp, e.actor, e.action, e.target, e.outcome)
}

/// Every event of `events`, applied in order from `s`, is admitted.
pub open spec fn all_admitted<H: Hasher>(s: ChainState, events: Seq<AppendEvent>) -> bool
    decreases events.len(),
{
    events.len() == 0 || {
        &&& append_refusal(s, events[0].timestamp) is None
        &&& all_admitted::<H>(state_after(s, event_record::<H>(s, events[0])), events.drop_first())
    }
}

/// The records that successive successful appends of `events` write,
/// starting from state `s`.
pub open spec fn appended_records<H: Hasher>(s: ChainState, events: Seq<AppendEvent>) -> Seq<
    RecordView,
>
    decreases events.len(),
{
    if events.len() == 0 {
        Seq::empty()
    } else {
        let rec = event_record::<H>(s, events[0]);
        seq![rec] + appended_records::<H>(state_after(s, rec), events.drop_first())
    }
}

/// One record is written per event.
pub proof fn lemma_appended_records_len<H: Hasher>(s: ChainState, events: Seq<AppendEvent>)
    ensures
        appended_records::<H>(s, events).len() == events.len(),
    decreases events.len(),
{
    if events.len() > 0 {
        let rec = event_record::<H>(s, events[0]);
        lemma_appended_records_len::<H>(state_after(s, rec), events.drop_first());
    }
}

/// The chain state after successive successful appends of `events`.
pub open spec fn state_after_all<H: Hasher>(s: ChainState, events: Seq<AppendEvent>) -> ChainState
    decreases events.len(),
{
    if events.len() == 0 {
        s
    } else {
        state_after_all::<H>(state_after(s, event_record::<H>(s, events[0])), events.drop_first())
    }
}

/// An append-only chain of audit records over a hasher, a sink and a clock.
#[derive(Debug)]
pub struct Chain<H, S, C> where H: Hasher, S: Sink, C: Clock {
    hasher: H,
    sink: S,
    clock: C,
    next_id: u64,
    last_hash: Digest,
    last_timestamp: Timestamp,
}

impl<H: Hasher, S: Sink, C: Clock> View for Chain<H, S, C> {
    type V = ChainState;

    closed spec fn view(&self) -> ChainState {
        ChainState {
            next_id: self.next_id,
            last_hash: self.last_hash@,
            last_timestamp: self.last_timestamp@,
        }
    }
}

impl<H: Hasher, S: Sink, C: Clock> Chain<H, S, C> {
    /// The chain's hasher.
    pub closed spec fn hasher_of(&self) -> H {
        self.hasher
    }

    /// The chain's sink.
    pub closed spec fn sink_of(&self) -> S {
        self.sink
    }

    /// The chain's clock.
    pub closed spec fn clock_of(&self) -> C {
        self.clock
    }

    /// Whether an append of the given fields, when the clock read `ts`, may
    /// take this chain to `after` and return `r`. A refused draft returns
    /// its refusal and touches neither the state, the sink nor the hasher.
    /// Otherwise the drafted record is written once to the sink: a write
    /// that succeeds appends it and returns its id; a write that fails
    /// returns the sink's own error and leaves the state as it was.
    pub open spec fn appended(
        &self,
        after: &Self,
        ts: u64,
        actor: Seq<char>,
        action: Seq<char>,
        target: Seq<char>,
        outcome: Outcome,
        r: Result<RecordId>,
    ) -> bool {
        match append_refusal(self@, ts) {
            Some(e) => {
                &&& r == Err::<RecordId, Error>(e)
                &&& after@ == self@
                &&& after.sink_of() == self.sink_of()
                &&& after.hasher_of() == self.hasher_of()
            },
            None => {
                let rec = draft_record::<H>(self@, ts, actor, action, target, outcome);
                match r {
                    Ok(id) => {
                        &&& id@ == self@.next_id
                        &&& after@ == state_after(self@, rec)
                        &&& self.sink_of().wrote(&after.sink_of(), rec, Ok(()))
                    },
                    Err(Error::Sink(e)) => {
                        &&& after@ == self@
                        &&& self.sink_of().wrote(&after.sink_of(), rec, Err(e))
                    },
                    Err(_) => false,
                }
            },
        }
    }

    /// A fresh chain starting from genesis.
    pub fn new(hasher: H, sink: S, clock: C) -> (c: Self)
        ensures
            c@ == genesis_state(),
            c.hasher_of() == hasher,
            c.sink_of() == sink,
            c.clock_of() == clock,
    {
        Chain {
            hasher,
            sink,
            clock,
            next_id: 0,
            last_hash: Digest::zero(),
            last_timestamp: Timestamp::epoch(),
        }
    }

    /// Resume a chain from a previously persisted tail.
    pub fn resume(
        hasher: H,
        sink: S,
        clock: C,
        next_id: RecordId,
        last_hash: Digest,
        last_timestamp: Timestamp,
    ) -> (c: Self)
        ensures
            c@ == (ChainState {
                next_id: next_id@,
                last_hash: last_hash@,
                last_timestamp: last_timestamp@,
            }),
            c.hasher_of() == hasher,
            c.sink_of() == sink,
            c.clock_of() == clock,
    {
        Chain {
            hasher,
            sink,
            clock,
            next_id: next_id.as_u64(),
            last_hash,
            last_timestamp,
        }
    }

    /// Identifier the next appended record will receive.
    pub fn next_id(&self) -> (id: RecordId)
        ensures
            id@ == self@.next_id,
    {
        RecordId::from_u64(self.next_id)
    }

    /// Hash of the most recently appended record (all zeros if none).
    pub fn last_hash(&self) -> (h: Digest)
        ensures
            h@ == self@.last_hash,
    {
        self.last_hash
    }

    /// Timestamp of the most recently appended record (the epoch if none).
    pub fn last_timestamp(&self) -> (t: Timestamp)
        ensures
            t@ == self@.last_timestamp,
    {
        self.last_timestamp
    }

    /// Build the record an append at `timestamp` would write, without
    /// touching the chain state: refused as `append_refusal` says, else the
    /// next id, linked to the last hash and hashed over its canonical bytes.
    pub fn draft<'r>(
        &mut self,
        timestamp: Timestamp,
        actor: Actor<'r>,
        action: Action<'r>,
        target: Target<'r>,
        outcome: Outcome,
    ) -> (r: core::result::Result<Record<'r>, Error>)
        ensures
            final(self)@ == old(self)@,
            final(self).sink_of() == old(self).sink_of(),
            final(self).clock_of() == old(self).clock_of(),
            append_refusal(old(self)@, timestamp@) is Some ==> final(self).hasher_of() == old(
                self,
            ).hasher_of(),
            match append_refusal(old(self)@, timestamp@) {
                Some(e) => r == Err::<Record<'r>, Error>(e),
                None => r matches Ok(rec) && rec@ == draft_record::<H>(
                    old(self)@,
                    timestamp@,
                    actor@,
                    action@,
                    target@,
                    outcome,
                ),
            },
    {
        if self.next_id > 0 && timestamp.as_nanos() <= self.last_timestamp.as_nanos() {
            return Err(Error::NonMonotonicClock);
        }
        if self.next_id == u64::MAX {
            return Err(Error::Capacity);
        }
        let unhashed = Record::new(
            RecordId::from_u64(self.next_id),
            timestamp,
            actor,
            action,
            target,
            outcome,
            self.last_hash,
            Digest::zero(),
        );
        let hash = compute(&mut self.hasher, &unhashed);
        Ok(unhashed.with_hash(hash))
    }

    /// Append a record: take a timestamp from the clock, build the record
    /// as [`Chain::draft`] does, hand it to the sink, and only once the sink
    /// accepted it advance the chain. On any error the chain state is left
    /// unchanged; a refused draft never reaches the sink. What it does for
    /// the reading the clock gave is [`Chain::appended`].
    pub fn append(
        &mut self,
        actor: Actor<'_>,
        action: Action<'_>,
        target: Target<'_>,
        outcome: Outcome,
    ) -> (r: Result<RecordId>)
        ensures
            final(self).clock_of() == old(self).clock_of(),
            exists|ts: u64|
                #[trigger] old(self).clock_of().gives(ts) && old(self).appended(
                    &*final(self),
                    ts,
                    actor@,
                    action@,
                    target@,
                    outcome,
                    r,
                ),
    {
        let timestamp = self.clock.now();
        let ghost start = *self;
        let record = match self.draft(timestamp, actor, action, target, outcome) {
            Ok(record) => record,
            Err(e) => return Err(e),
        };
        match self.sink.write(&record) {
            Err(e) => Err(Error::Sink(e)),
            Ok(u) => {
                // The unit the sink returned is the `Ok(())` its contract speaks of.
                assert(u == ());
                self.next_id = self.next_id + 1;
                self.last_hash = record.hash();
                self.last_timestamp = timestamp;
                let id = record.id();
                assert(start.appended(&*self, timestamp@, actor@, action@, target@, outcome, Ok(id)));
                Ok(id)
            },
        }
    }

    /// Consume the chain and return its three components.
    pub fn into_parts(self) -> (parts: (H, S, C))
        ensures
            parts == (self.hasher_of(), self.sink_of(), self.clock_of()),
    {
        (self.hasher, self.sink, self.clock)
    }

    /// Borrow the configured sink.
    pub fn sink(&self) -> (s: &S)
        ensures
            *s == self.sink_of(),
    {
        &self.sink
    }

    /// Mutably borrow the configured sink.
    pub fn sink_mut(&mut self) -> (s: &mut S)
        ensures
            *s == old(self).sink_of(),
            final(self)@ == old(self)@,
            final(self).sink_of() == *final(s),
            final(self).hasher_of() == old(self).hasher_of(),
            final(self).clock_of() == old(self).clock_of(),
    {
        &mut self.sink
    }
}

/// Whether `cs` are the successive states of one chain through a run of
/// appends: append `i` was made of `events[i]` (its timestamp being what
/// the clock read) and returned `rs[i]`.
pub open spec fn append_steps<H: Hasher, S: Sink, C: Clock>(
    cs: Seq<Chain<H, S, C>>,
    events: Seq<AppendEvent>,
    rs: Seq<Result<RecordId>>,
) -> bool {
    &&& cs.len() == events.len() + 1
    &&& rs.len() == events.len()
    &&& forall|i: int| 0 <= i < events.len() ==> #[trigger] append_step(cs, events, rs, i)
}

/// Append `i` of a run: from `cs[i]`, of `events[i]`, to `cs[i + 1]`,
/// returning `rs[i]`.
pub open spec fn append_step<H: Hasher, S: Sink, C: Clock>(
    cs: Seq<Chain<H, S, C>>,
    events: Seq<AppendEvent>,
    rs: Seq<Result<RecordId>>,
    i: int,
) -> bool {
    cs[i].appended(
        &cs[i + 1],
        events[i].timestamp,
        events[i].actor,
        events[i].action,
        events[i].target,
        events[i].outcome,
        rs[i],
    )
}

/// How many of `rs` are successes.
pub open spec fn successes(rs: Seq<Result<RecordId>>) -> nat
    decreases rs.len(),
{
    if rs.len() == 0 {
        0
    } else {
        (if rs[0] is Ok {
            1nat
        } else {
            0nat
        }) + successes(rs.drop_first())
    }
}

/// A run of appends that starts one step later.
pub proof fn lemma_append_steps_tail<H: Hasher, S: Sink, C: Clock>(
    cs: Seq<Chain<H, S, C>>,
    events: Seq<AppendEvent>,
    rs: Seq<Result<RecordId>>,
)
    requires
        append_steps(cs, events, rs),
        events.len() > 0,
    ensures
        append_steps(cs.drop_first(), events.drop_first(), rs.drop_first()),
        cs[0].appended(
            &cs[1],
            events[0].timestamp,
            events[0].actor,
            events[0].action,
            events[0].target,
            events[0].outcome,
            rs[0],
        ),
{
    let (cs2, ev2, rs2) = (cs.drop_first(), events.drop_first(), rs.drop_first());
    assert forall|i: int| 0 <= i < ev2.len() implies #[trigger] append_step(cs2, ev2, rs2, i) by {
        assert(append_step(cs, events, rs, i + 1));
        assert(cs2[i + 1] == cs[i + 2]);
    }
    assert(append_step(cs, events, rs, 0));
}

/// Ids grow by one per successful append only: after a run of appends the
/// next id has grown by the number of successes, and each success returned
/// the starting next id plus the number of successes before it. From a
/// fresh chain the successes thus return 0, 1, 2, ... in call order.
pub proof fn lemma_ids_count_successes<H: Hasher, S: Sink, C: Clock>(
    cs: Seq<Chain<H, S, C>>,
    events: Seq<AppendEvent>,
    rs: Seq<Result<RecordId>>,
)
    requires
        append_steps(cs, events, rs),
    ensures
        cs.last()@.next_id == cs[0]@.next_id + successes(rs),
        forall|i: int|
            0 <= i < rs.len() && rs[i] is Ok ==> (#[trigger] rs[i])->Ok_0@ == cs[0]@.next_id
                + successes(rs.take(i)),
    decreases events.len(),
{
    if events.len() > 0 {
        let (cs2, ev2, rs2) = (cs.drop_first(), events.drop_first(), rs.drop_first());
        lemma_append_steps_tail(cs, events, rs);
        lemma_ids_count_successes(cs2, ev2, rs2);
        assert(cs2.last() == cs.last());
        assert forall|i: int| 0 <= i < rs.len() && rs[i] is Ok implies (#[trigger] rs[i])->Ok_0@
            == cs[0]@.next_id + successes(rs.take(i)) by {
            if i > 0 {
                assert(rs2[i - 1] == rs[i]);
                assert(rs.take(i).drop_first() =~= rs2.take(i - 1));
            }
        }
    }
}

/// A sink failure costs nothing: after an append that failed in the sink
/// the state is as before, so the next append that succeeds returns the
/// same id and writes a record linked to the same last hash.
pub proof fn lemma_retry_after_sink_failure<H: Hasher, S: Sink, C: Clock>(
    c0: Chain<H, S, C>,
    c1: Chain<H, S, C>,
    c2: Chain<H, S, C>,
    failed: AppendEvent,
    e: SinkError,
    retried: AppendEvent,
    r: Result<RecordId>,
)
    requires
        c0.appended(
            &c1,
            failed.timestamp,
            failed.actor,
            failed.action,
            failed.target,
            failed.outcome,
            Err(Error::Sink(e)),
        ),
        c1.appended(
            &c2,
            retried.timestamp,
            retried.actor,
            retried.action,
            retried.target,
            retried.outcome,
            r,
        ),
        r is Ok,
    ensures
        c1@ == c0@,
        r->Ok_0@ == c0@.next_id,
        c2@.next_id == c0@.next_id + 1,
        ({
            let rec = event_record::<H>(c0@, retried);
            &&& rec.id == c0@.next_id
            &&& rec.prev_hash == c0@.last_hash
            &&& c1.sink_of().wrote(&c2.sink_of(), rec, Ok(()))
        }),
{
}

/// What an append does, in terms of its inputs: when the clock's reading
/// is admitted the append succeeds or fails in the sink only, and on
/// success the sink was handed, once, a record holding the caller's fields
/// unchanged, the reading as its timestamp, the chain's next id and a link
/// to its last hash; the chain then moves past that record. When the
/// reading is not admitted the append fails with the matching refusal and
/// changes nothing.
pub proof fn lemma_append_effect<H: Hasher, S: Sink, C: Clock>(
    c: Chain<H, S, C>,
    after: Chain<H, S, C>,
    ts: u64,
    actor: Seq<char>,
    action: Seq<char>,
    target: Seq<char>,
    outcome: Outcome,
    r: Result<RecordId>,
)
    requires
        c.appended(&after, ts, actor, action, target, outcome, r),
    ensures
        ((c@.next_id == 0 || ts > c@.last_timestamp) && c@.next_id < u64::MAX) ==> (r is Ok || r
            matches Err(Error::Sink(_))),
        c@.next_id > 0 && ts <= c@.last_timestamp ==> r == Err::<RecordId, Error>(
            Error::NonMonotonicClock,
        ) && after@ == c@ && after.sink_of() == c.sink_of(),
        r matches Ok(id) ==> {
            &&& id@ == c@.next_id
            &&& after@.next_id == c@.next_id + 1
            &&& after@.last_timestamp == ts
            &&& exists|rec: RecordView|
                #![trigger c.sink_of().wrote(&after.sink_of(), rec, Ok(()))]
                {
                    &&& c.sink_of().wrote(&after.sink_of(), rec, Ok(()))
                    &&& rec.id == c@.next_id
                    &&& rec.timestamp == ts
                    &&& rec.actor == actor
                    &&& rec.action == action
                    &&& rec.target == target
                    &&& rec.outcome == outcome
                    &&& rec.prev_hash == c@.last_hash
                    &&& after@.last_hash == rec.hash
                }
        },
        r is Err ==> after@ == c@,
{
    lemma_admission(c@, ts);
    lemma_draft_record_fields::<H>(c@, ts, actor, action, target, outcome);
    if r is Ok {
        let rec = draft_record::<H>(c@, ts, actor, action, target, outcome);
        assert(c.sink_of().wrote(&after.sink_of(), rec, Ok(())));
    }
}

} // verus!
