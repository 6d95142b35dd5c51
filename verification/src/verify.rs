//! Chain verification: replay records and prove the chain is untampered.
use vstd::prelude::*;

use crate::canonical::{
    canonical_bytes, compute, lemma_canonical_bytes_injective, record_digest, separator_free,
};
use crate::chain::{
    all_admitted, append_refusal, append_steps, appended_records, draft_record, event_record,
    genesis_state, lemma_appended_records_len, state_after, state_after_all, AppendEvent, Chain,
    ChainState,
};
use crate::clock::{Clock, Timestamp};
use crate::error::{Error, Result};
use crate::hash::{zero_bytes, Digest, Hasher};
use crate::record::{id_of, Outcome, Record, RecordId, RecordView};
use crate::sinks::{lemma_memory_chain_appends, MemorySink};

verus! {

/// The cursor of a verifier: the id the next record must carry, the hash
/// and timestamp of the last accepted record, whether timestamps must
/// strictly increase, and whether a record has been accepted (or the
/// verifier resumed mid-chain).
pub struct VerifierState {
    pub next_id: u64,
    pub last_hash: Seq<u8>,
    pub last_timestamp: u64,
    pub strict_timestamps: bool,
    pub started: bool,
}

/// The outcome of checking record `r` against cursor `v`, with hasher type
/// `H`: id linkage, then prev-hash linkage, then (in strict mode, once
/// started) timestamp monotonicity, then hash integrity; on success the
/// cursor moves past `r`.
pub open spec fn verify_step<H: Hasher>(v: VerifierState, r: RecordView) -> core::result::Result<
    VerifierState,
    Error,
> {
    if r.id != v.next_id {
        Err(Error::IdMismatch(id_of(r.id)))
    } else if r.prev_hash != v.last_hash {
        Err(Error::LinkMismatch(id_of(r.id)))
    } else if v.strict_timestamps && v.started && r.timestamp <= v.last_timestamp {
        Err(Error::NonMonotonicClock)
    } else if record_digest::<H>(r) != r.hash {
        Err(Error::HashMismatch(id_of(r.id)))
    } else if v.next_id == u64::MAX {
        Err(Error::IdMismatch(id_of(r.id)))
    } else {
        Ok(
            VerifierState {
                next_id: (v.next_id + 1) as u64,
                last_hash: r.hash,
                last_timestamp: r.timestamp,
                strict_timestamps: v.strict_timestamps,
                started: true,
            },
        )
    }
}

/// The outcome of checking `recs` in order from cursor `v`: the first
/// failure, or the cursor after the last record.
pub open spec fn verify_all<H: Hasher>(v: VerifierState, recs: Seq<RecordView>) -> core::result::Result<
    VerifierState,
    Error,
>
    decreases recs.len(),
{
    if recs.len() == 0 {
        Ok(v)
    } else {
        match verify_step::<H>(v, recs[0]) {
            Ok(next) => verify_all::<H>(next, recs.drop_first()),
            Err(e) => Err(e),
        }
    }
}

/// A verifier cursor that stands where chain state `s` stands.
pub open spec fn in_step(v: VerifierState, s: ChainState) -> bool {
    &&& v.next_id == s.next_id
    &&& v.last_hash == s.last_hash
    &&& v.last_timestamp == s.last_timestamp
    &&& v.started == (s.next_id > 0)
}

/// With strict timestamps off, a record whose id, link and stored hash are
/// right is accepted whatever its timestamp (equal to the last one, or
/// earlier), and the cursor moves past it.
pub proof fn lemma_relaxed_ignores_timestamps<H: Hasher>(v: VerifierState, r: RecordView)
    requires
        !v.strict_timestamps,
        r.id == v.next_id,
        r.prev_hash == v.last_hash,
        r.hash == H::digest_of(canonical_bytes(r)),
        v.next_id < u64::MAX,
    ensures
        verify_step::<H>(v, r) == Ok::<VerifierState, Error>(
            VerifierState {
                next_id: (v.next_id + 1) as u64,
                last_hash: r.hash,
                last_timestamp: r.timestamp,
                strict_timestamps: false,
                started: true,
            },
        ),
{
}

/// With strict timestamps on, a record whose id, link and stored hash are
/// right is accepted exactly when it is the first one or its timestamp is
/// strictly above the last accepted one; otherwise it is refused as a
/// clock that did not move forward.
pub proof fn lemma_strict_requires_increase<H: Hasher>(v: VerifierState, r: RecordView)
    requires
        v.strict_timestamps,
        r.id == v.next_id,
        r.prev_hash == v.last_hash,
        r.hash == H::digest_of(canonical_bytes(r)),
        v.next_id < u64::MAX,
    ensures
        verify_step::<H>(v, r) is Ok <==> (!v.started || r.timestamp > v.last_timestamp),
        verify_step::<H>(v, r) is Err ==> verify_step::<H>(v, r) == Err::<VerifierState, Error>(
            Error::NonMonotonicClock,
        ),
        verify_step::<H>(v, r) matches Ok(w) ==> w == (VerifierState {
            next_id: (v.next_id + 1) as u64,
            last_hash: r.hash,
            last_timestamp: r.timestamp,
            strict_timestamps: true,
            started: true,
        }),
{
}

/// Which check refuses a record, in order: a wrong id, then a wrong link,
/// then (strict, once started) a timestamp that does not increase, then a
/// stored hash that is not the digest of the record's contents. A refusal
/// carries the record's id where the error has one, and no other failure
/// is reported for a record that passes these checks, but for an id
/// counter that is exhausted.
pub proof fn lemma_verify_step_refusals<H: Hasher>(v: VerifierState, r: RecordView)
    ensures
        r.id != v.next_id ==> verify_step::<H>(v, r) == Err::<VerifierState, Error>(
            Error::IdMismatch(id_of(r.id)),
        ),
        r.id == v.next_id && r.prev_hash != v.last_hash ==> verify_step::<H>(v, r) == Err::<
            VerifierState,
            Error,
        >(Error::LinkMismatch(id_of(r.id))),
        r.id == v.next_id && r.prev_hash == v.last_hash && !(v.strict_timestamps && v.started
            && r.timestamp <= v.last_timestamp) && r.hash != H::digest_of(canonical_bytes(r))
            ==> verify_step::<H>(v, r) == Err::<VerifierState, Error>(
            Error::HashMismatch(id_of(r.id)),
        ),
        verify_step::<H>(v, r) matches Err(e) ==> (e is IdMismatch || e is LinkMismatch || e
            is NonMonotonicClock || e is HashMismatch),
        verify_step::<H>(v, r) is Err && r.id == v.next_id && r.prev_hash == v.last_hash && !(
        v.strict_timestamps && v.started && r.timestamp <= v.last_timestamp) && r.hash
            == H::digest_of(canonical_bytes(r)) ==> v.next_id == u64::MAX,
{
}

/// A fresh chain and a fresh verifier start together: the verifier's
/// first cursor is in step with the chain's first state, any timestamp is
/// admitted for the first record, which takes id 0 and links to the
/// all-zero hash.
pub proof fn lemma_fresh_start<H: Hasher>(
    ts: u64,
    actor: Seq<char>,
    action: Seq<char>,
    target: Seq<char>,
    outcome: Outcome,
)
    ensures
        in_step(
            VerifierState {
                next_id: 0,
                last_hash: zero_bytes(),
                last_timestamp: 0,
                strict_timestamps: true,
                started: false,
            },
            genesis_state(),
        ),
        append_refusal(genesis_state(), ts) is None,
        draft_record::<H>(genesis_state(), ts, actor, action, target, outcome).id == 0,
        draft_record::<H>(genesis_state(), ts, actor, action, target, outcome).prev_hash
            == Seq::new(32, |i: int| 0u8),
{
    assert(zero_bytes() =~= Seq::new(32, |i: int| 0u8));
}

/// A verifier in step with a chain accepts the record the chain appends
/// next, and is then in step with the chain's new state.
pub proof fn lemma_verifier_accepts_next_record<H: Hasher>(
    v: VerifierState,
    s: ChainState,
    e: AppendEvent,
)
    requires
        in_step(v, s),
        append_refusal(s, e.timestamp) is None,
    ensures
        verify_step::<H>(v, event_record::<H>(s, e)) matches Ok(w) && in_step(
            w,
            state_after(s, event_record::<H>(s, e)),
        ) && w.strict_timestamps == v.strict_timestamps,
{
    let rec = event_record::<H>(s, e);
    let unhashed = RecordView { hash: zero_bytes(), ..rec };
    assert(canonical_bytes(rec) == canonical_bytes(unhashed));
}

/// Everything a chain appends verifies: a verifier in step with a chain
/// accepts, in order, every record that successive successful appends
/// write, and ends in step with the chain (with its timestamp mode kept).
pub proof fn lemma_verifier_accepts_appended<H: Hasher>(
    v: VerifierState,
    s: ChainState,
    events: Seq<AppendEvent>,
)
    requires
        in_step(v, s),
        all_admitted::<H>(s, events),
    ensures
        verify_all::<H>(v, appended_records::<H>(s, events)) matches Ok(w) && in_step(
            w,
            state_after_all::<H>(s, events),
        ) && w.strict_timestamps == v.strict_timestamps,
    decreases events.len(),
{
    if events.len() > 0 {
        let rec = event_record::<H>(s, events[0]);
        lemma_verifier_accepts_next_record::<H>(v, s, events[0]);
        let w = verify_step::<H>(v, rec)->Ok_0;
        let rest = events.drop_first();
        lemma_verifier_accepts_appended::<H>(w, state_after(s, rec), rest);
        let recs = appended_records::<H>(s, events);
        assert(recs[0] == rec);
        assert(recs.drop_first() =~= appended_records::<H>(state_after(s, rec), rest));
    }
}

/// Relaxed timestamps only relax: a verifier that does not require strict
/// timestamps never reports `NonMonotonicClock`, and accepts every
/// sequence a strict one accepts, ending at the same cursor.
pub proof fn lemma_relaxed_accepts_more<H: Hasher>(v: VerifierState, recs: Seq<RecordView>)
    ensures
        ({
            let relaxed = VerifierState { strict_timestamps: false, ..v };
            &&& verify_all::<H>(relaxed, recs) != Err::<VerifierState, Error>(
                Error::NonMonotonicClock,
            )
            &&& verify_all::<H>(v, recs) matches Ok(w) ==> verify_all::<H>(relaxed, recs) == Ok::<
                VerifierState,
                Error,
            >(VerifierState { strict_timestamps: false, ..w })
        }),
    decreases recs.len(),
{
    let relaxed = VerifierState { strict_timestamps: false, ..v };
    if recs.len() > 0 {
        if let Ok(w) = verify_step::<H>(relaxed, recs[0]) {
            let next = VerifierState { strict_timestamps: v.strict_timestamps, ..w };
            lemma_relaxed_accepts_more::<H>(next, recs.drop_first());
            assert(VerifierState { strict_timestamps: false, ..next } == w);
        }
    }
}

/// Dropping an appended record is detected: replaying what a chain
/// appended with the record at position `k` left out (any but the last)
/// fails at the record after it, as an id mismatch carrying that record's
/// id.
pub proof fn lemma_dropped_record_detected<H: Hasher>(
    v: VerifierState,
    s: ChainState,
    events: Seq<AppendEvent>,
    k: int,
)
    requires
        in_step(v, s),
        all_admitted::<H>(s, events),
        0 <= k < events.len() - 1,
    ensures
        verify_all::<H>(v, appended_records::<H>(s, events).remove(k)) == Err::<
            VerifierState,
            Error,
        >(Error::IdMismatch(id_of((s.next_id + k + 1) as u64))),
    decreases k,
{
    let rec = event_record::<H>(s, events[0]);
    let s1 = state_after(s, rec);
    let rest = events.drop_first();
    let recs = appended_records::<H>(s, events);
    let tail = appended_records::<H>(s1, rest);
    lemma_appended_records_len::<H>(s1, rest);
    assert(recs =~= seq![rec] + tail);
    assert(rest.len() > 0);
    let rec1 = event_record::<H>(s1, rest[0]);
    assert(tail =~= seq![rec1] + appended_records::<H>(state_after(s1, rec1), rest.drop_first()));
    if k == 0 {
        assert(recs.remove(0) =~= tail);
        assert(rec1.id == s.next_id + 1);
    } else {
        lemma_verifier_accepts_next_record::<H>(v, s, events[0]);
        let w = verify_step::<H>(v, rec)->Ok_0;
        lemma_dropped_record_detected::<H>(w, s1, rest, k - 1);
        assert(recs.remove(k) =~= seq![rec] + tail.remove(k - 1));
        assert((seq![rec] + tail.remove(k - 1))[0] == rec);
        assert((seq![rec] + tail.remove(k - 1)).drop_first() =~= tail.remove(k - 1));
    }
}

/// The records a chain appends carry consecutive ids from the chain's next
/// id.
pub proof fn lemma_appended_ids<H: Hasher>(s: ChainState, events: Seq<AppendEvent>, j: int)
    requires
        all_admitted::<H>(s, events),
        0 <= j < events.len(),
    ensures
        appended_records::<H>(s, events)[j].id == s.next_id + j,
    decreases j,
{
    let rec = event_record::<H>(s, events[0]);
    let s1 = state_after(s, rec);
    let rest = events.drop_first();
    lemma_appended_records_len::<H>(s1, rest);
    assert(appended_records::<H>(s, events) =~= seq![rec] + appended_records::<H>(s1, rest));
    if j > 0 {
        lemma_appended_ids::<H>(s1, rest, j - 1);
    }
}

/// Reordering appended records is detected: a replay that agrees with what
/// a chain appended on its first `k` records but holds at position `k` the
/// later record `j` (which is where any reordering first differs) fails
/// there, as an id mismatch carrying that record's id.
pub proof fn lemma_reordered_record_detected<H: Hasher>(
    v: VerifierState,
    s: ChainState,
    events: Seq<AppendEvent>,
    replay: Seq<RecordView>,
    k: int,
    j: int,
)
    requires
        in_step(v, s),
        all_admitted::<H>(s, events),
        0 <= k < j < events.len(),
        k < replay.len(),
        replay.take(k) == appended_records::<H>(s, events).take(k),
        replay[k] == appended_records::<H>(s, events)[j],
    ensures
        verify_all::<H>(v, replay) == Err::<VerifierState, Error>(
            Error::IdMismatch(id_of((s.next_id + j) as u64)),
        ),
    decreases k,
{
    let rec = event_record::<H>(s, events[0]);
    let s1 = state_after(s, rec);
    let rest = events.drop_first();
    let recs = appended_records::<H>(s, events);
    let tail = appended_records::<H>(s1, rest);
    lemma_appended_records_len::<H>(s1, rest);
    lemma_appended_ids::<H>(s, events, j);
    assert(recs =~= seq![rec] + tail);
    if k == 0 {
        assert(replay[0].id == s.next_id + j);
    } else {
        assert(replay[0] == replay.take(k)[0]);
        lemma_verifier_accepts_next_record::<H>(v, s, events[0]);
        let w = verify_step::<H>(v, rec)->Ok_0;
        assert(replay.drop_first().take(k - 1) =~= tail.take(k - 1)) by {
            assert forall|i: int| 0 <= i < k - 1 implies #[trigger] replay.drop_first().take(
                k - 1,
            )[i] == tail.take(k - 1)[i] by {
                assert(replay.take(k)[i + 1] == recs.take(k)[i + 1]);
            }
        }
        lemma_reordered_record_detected::<H>(w, s1, rest, replay.drop_first(), k - 1, j - 1);
    }
}

/// Tampering with an appended record is detected: a record that keeps the
/// stored hash of the record a chain appended but differs from it in a
/// hashed field (all strings separator-free) is accepted by a verifier in
/// step with the chain only if `H` gives two different hashed inputs the
/// same digest.
pub proof fn lemma_tampered_record_rejected<H: Hasher>(
    v: VerifierState,
    s: ChainState,
    e: AppendEvent,
    r: RecordView,
)
    requires
        in_step(v, s),
        append_refusal(s, e.timestamp) is None,
        separator_free(e.actor),
        separator_free(e.action),
        separator_free(e.target),
        separator_free(r.actor),
        separator_free(r.action),
        separator_free(r.target),
        r.hash == event_record::<H>(s, e).hash,
        r != event_record::<H>(s, e),
    ensures
        verify_step::<H>(v, r) is Ok ==> {
            let rec = event_record::<H>(s, e);
            &&& canonical_bytes(r) != canonical_bytes(rec)
            &&& H::digest_of(canonical_bytes(r)) == H::digest_of(canonical_bytes(rec))
        },
{
    let rec = event_record::<H>(s, e);
    let unhashed = RecordView { hash: zero_bytes(), ..rec };
    assert(canonical_bytes(rec) == canonical_bytes(unhashed));
    if canonical_bytes(r) == canonical_bytes(rec) {
        lemma_canonical_bytes_injective(r, rec);
        assert(r == rec);
    }
}

/// The case of [`lemma_rehashed_record_detected`] where the first appended
/// record is rewritten.
proof fn lemma_rehashed_first_record<H: Hasher>(
    v: VerifierState,
    s: ChainState,
    events: Seq<AppendEvent>,
    r: RecordView,
)
    requires
        in_step(v, s),
        all_admitted::<H>(s, events),
        events.len() > 1,
        r.hash != event_record::<H>(s, events[0]).hash,
    ensures
        verify_all::<H>(v, appended_records::<H>(s, events).update(0, r)) is Err,
{
    let rec = event_record::<H>(s, events[0]);
    let s1 = state_after(s, rec);
    let rest = events.drop_first();
    let rec1 = event_record::<H>(s1, rest[0]);
    let tail2 = appended_records::<H>(state_after(s1, rec1), rest.drop_first());
    let upd = seq![r] + (seq![rec1] + tail2);
    assert(appended_records::<H>(s, events) == seq![rec] + appended_records::<H>(s1, rest));
    assert(appended_records::<H>(s1, rest) == seq![rec1] + tail2);
    assert(appended_records::<H>(s, events).update(0, r) =~= upd);
    assert(upd.drop_first() =~= seq![rec1] + tail2);
    if let Ok(w) = verify_step::<H>(v, r) {
        assert(rec1.prev_hash == rec.hash);
        assert(verify_step::<H>(w, rec1) is Err);
        assert(verify_all::<H>(w, seq![rec1] + tail2) is Err);
    }
}

/// Rewriting an appended record, other than the last, with a different
/// stored hash (for instance one recomputed over the edited fields) is
/// detected: either the edited record is refused, or the record after it no
/// longer links to it.
pub proof fn lemma_rehashed_record_detected<H: Hasher>(
    v: VerifierState,
    s: ChainState,
    events: Seq<AppendEvent>,
    k: int,
    r: RecordView,
)
    requires
        in_step(v, s),
        all_admitted::<H>(s, events),
        0 <= k < events.len() - 1,
        r.hash != appended_records::<H>(s, events)[k].hash,
    ensures
        verify_all::<H>(v, appended_records::<H>(s, events).update(k, r)) is Err,
    decreases k,
{
    let rec = event_record::<H>(s, events[0]);
    let s1 = state_after(s, rec);
    let rest = events.drop_first();
    let recs = appended_records::<H>(s, events);
    let tail = appended_records::<H>(s1, rest);
    lemma_appended_records_len::<H>(s1, rest);
    assert(recs =~= seq![rec] + tail);
    if k == 0 {
        lemma_rehashed_first_record::<H>(v, s, events, r);
    } else {
        lemma_verifier_accepts_next_record::<H>(v, s, events[0]);
        let w = verify_step::<H>(v, rec)->Ok_0;
        lemma_rehashed_record_detected::<H>(w, s1, rest, k - 1, r);
        let upd = recs.update(k, r);
        assert(upd =~= seq![rec] + tail.update(k - 1, r));
        assert(upd[0] == rec);
        assert(upd.drop_first() =~= tail.update(k - 1, r));
    }
}

/// Inserting a record anywhere before the last appended record is
/// detected: either the inserted record is refused, or the appended record
/// after it no longer carries the id the verifier expects.
pub proof fn lemma_inserted_record_detected<H: Hasher>(
    v: VerifierState,
    s: ChainState,
    events: Seq<AppendEvent>,
    k: int,
    r: RecordView,
)
    requires
        in_step(v, s),
        all_admitted::<H>(s, events),
        0 <= k < events.len(),
    ensures
        verify_all::<H>(v, appended_records::<H>(s, events).insert(k, r)) is Err,
    decreases k,
{
    let rec = event_record::<H>(s, events[0]);
    let s1 = state_after(s, rec);
    let rest = events.drop_first();
    let recs = appended_records::<H>(s, events);
    let tail = appended_records::<H>(s1, rest);
    lemma_appended_records_len::<H>(s1, rest);
    assert(recs =~= seq![rec] + tail);
    if k == 0 {
        let ins = recs.insert(0, r);
        assert(ins[0] == r);
        assert(ins.drop_first() =~= recs);
        if let Ok(w) = verify_step::<H>(v, r) {
            assert(recs[0] == rec);
            assert(verify_step::<H>(w, rec) is Err);
            assert(verify_all::<H>(w, recs) is Err);
            assert(verify_all::<H>(v, ins) == verify_all::<H>(w, recs));
        }
    } else {
        lemma_verifier_accepts_next_record::<H>(v, s, events[0]);
        let w = verify_step::<H>(v, rec)->Ok_0;
        lemma_inserted_record_detected::<H>(w, s1, rest, k - 1, r);
        let ins = recs.insert(k, r);
        assert(ins =~= seq![rec] + tail.insert(k - 1, r));
        assert(ins[0] == rec);
        assert(ins.drop_first() =~= tail.insert(k - 1, r));
    }
}

/// Editing any appended record but the last is detected unless the hash
/// function collides: a replay of what a chain appended with record `k`
/// replaced by a different record (all strings separator-free) is accepted
/// only if `H` gives two different hashed inputs the same digest.
pub proof fn lemma_edited_record_detected<H: Hasher>(
    v: VerifierState,
    s: ChainState,
    events: Seq<AppendEvent>,
    k: int,
    r: RecordView,
)
    requires
        in_step(v, s),
        all_admitted::<H>(s, events),
        0 <= k < events.len() - 1,
        forall|i: int|
            0 <= i < events.len() ==> {
                &&& separator_free(#[trigger] events[i].actor)
                &&& separator_free(events[i].action)
                &&& separator_free(events[i].target)
            },
        separator_free(r.actor),
        separator_free(r.action),
        separator_free(r.target),
        r != appended_records::<H>(s, events)[k],
    ensures
        verify_all::<H>(v, appended_records::<H>(s, events).update(k, r)) is Ok ==> {
            let rec = appended_records::<H>(s, events)[k];
            &&& canonical_bytes(r) != canonical_bytes(rec)
            &&& H::digest_of(canonical_bytes(r)) == H::digest_of(canonical_bytes(rec))
        },
    decreases k,
{
    let recs = appended_records::<H>(s, events);
    if r.hash != recs[k].hash {
        lemma_rehashed_record_detected::<H>(v, s, events, k, r);
    } else {
        let rec = event_record::<H>(s, events[0]);
        let s1 = state_after(s, rec);
        let rest = events.drop_first();
        let tail = appended_records::<H>(s1, rest);
        lemma_appended_records_len::<H>(s1, rest);
        assert(recs =~= seq![rec] + tail);
        let upd = recs.update(k, r);
        if k == 0 {
            assert(upd[0] == r);
            assert(separator_free(events[0].actor));
            lemma_tampered_record_rejected::<H>(v, s, events[0], r);
        } else {
            lemma_verifier_accepts_next_record::<H>(v, s, events[0]);
            let w = verify_step::<H>(v, rec)->Ok_0;
            assert forall|i: int| 0 <= i < rest.len() implies {
                &&& separator_free(#[trigger] rest[i].actor)
                &&& separator_free(rest[i].action)
                &&& separator_free(rest[i].target)
            } by {
                assert(separator_free(events[i + 1].actor));
            }
            lemma_edited_record_detected::<H>(w, s1, rest, k - 1, r);
            assert(upd =~= seq![rec] + tail.update(k - 1, r));
            assert(upd[0] == rec);
            assert(upd.drop_first() =~= tail.update(k - 1, r));
        }
    }
}

/// What a run of appends leaves in an initially empty memory sink verifies:
/// a verifier in step with the chain at the start accepts every record the
/// sink holds, in order, and ends in step with the chain.
pub proof fn lemma_memory_chain_verifies<H: Hasher, C: Clock>(
    v: VerifierState,
    cs: Seq<Chain<H, MemorySink, C>>,
    events: Seq<AppendEvent>,
    rs: Seq<Result<RecordId>>,
)
    requires
        append_steps(cs, events, rs),
        all_admitted::<H>(cs[0]@, events),
        cs[0].sink_of()@ == Seq::<RecordView>::empty(),
        in_step(v, cs[0]@),
    ensures
        verify_all::<H>(v, cs.last().sink_of()@) matches Ok(w) && in_step(w, cs.last()@),
{
    lemma_memory_chain_appends::<H, C>(cs, events, rs);
    lemma_verifier_accepts_appended::<H>(v, cs[0]@, events);
    assert(Seq::<RecordView>::empty() + appended_records::<H>(cs[0]@, events) =~= appended_records::<
        H,
    >(cs[0]@, events));
}

/// Replays a chain of records and checks its hash linkage.
#[derive(Debug)]
pub struct Verifier<H> where H: Hasher {
    hasher: H,
    next_id: u64,
    last_hash: Digest,
    last_timestamp: Timestamp,
    strict_timestamps: bool,
    started: bool,
}

impl<H: Hasher> View for Verifier<H> {
    type V = VerifierState;

    closed spec fn view(&self) -> VerifierState {
        VerifierState {
            next_id: self.next_id,
            last_hash: self.last_hash@,
            last_timestamp: self.last_timestamp@,
            strict_timestamps: self.strict_timestamps,
            started: self.started,
        }
    }
}

impl<H: Hasher> Verifier<H> {
    /// The verifier's hasher.
    pub closed spec fn hasher_of(&self) -> H {
        self.hasher
    }

    /// A verifier that expects the genesis record first, with strict
    /// timestamps.
    pub fn new(hasher: H) -> (v: Self)
        ensures
            v@ == (VerifierState {
                next_id: 0,
                last_hash: zero_bytes(),
                last_timestamp: 0,
                strict_timestamps: true,
                started: false,
            }),
            v.hasher_of() == hasher,
    {
        Verifier {
            hasher,
            next_id: 0,
            last_hash: Digest::zero(),
            last_timestamp: Timestamp::epoch(),
            strict_timestamps: true,
            started: false,
        }
    }

    /// A verifier that resumes mid-chain, right after the record whose hash
    /// and timestamp are given.
    pub fn resume(hasher: H, next_id: RecordId, last_hash: Digest, last_timestamp: Timestamp) -> (v:
        Self)
        ensures
            v@ == (VerifierState {
                next_id: next_id@,
                last_hash: last_hash@,
                last_timestamp: last_timestamp@,
                strict_timestamps: true,
                started: true,
            }),
            v.hasher_of() == hasher,
    {
        Verifier {
            hasher,
            next_id: next_id.as_u64(),
            last_hash,
            last_timestamp,
            strict_timestamps: true,
            started: true,
        }
    }

    /// Toggle strict timestamp monotonicity (on by default).
    pub fn with_strict_timestamps(self, strict: bool) -> (v: Self)
        ensures
            v@ == (VerifierState { strict_timestamps: strict, ..self@ }),
            v.hasher_of() == self.hasher_of(),
    {
        let mut v = self;
        v.strict_timestamps = strict;
        v
    }

    /// Id the next verified record must carry.
    pub fn next_id(&self) -> (id: RecordId)
        ensures
            id@ == self@.next_id,
    {
        RecordId::from_u64(self.next_id)
    }

    /// Hash of the last accepted record (all zeros if none yet).
    pub fn last_hash(&self) -> (h: Digest)
        ensures
            h@ == self@.last_hash,
    {
        self.last_hash
    }

    /// Timestamp of the last accepted record (the epoch if none yet).
    pub fn last_timestamp(&self) -> (t: Timestamp)
        ensures
            t@ == self@.last_timestamp,
    {
        self.last_timestamp
    }

    /// Verify a single record against the running state. On success the
    /// cursor moves past the record; on failure it is left unchanged. A
    /// record refused on its id, link or timestamp is refused before it is
    /// hashed, and the hasher is left untouched.
    pub fn verify(&mut self, record: &Record<'_>) -> (r: Result<()>)
        ensures
            match verify_step::<H>(old(self)@, record@) {
                Ok(next) => r is Ok && final(self)@ == next,
                Err(e) => r == Err::<(), Error>(e) && final(self)@ == old(self)@,
            },
            ({
                let (v, rec) = (old(self)@, record@);
                rec.id != v.next_id || rec.prev_hash != v.last_hash || (v.strict_timestamps
                    && v.started && rec.timestamp <= v.last_timestamp)
            }) ==> final(self).hasher_of() == old(self).hasher_of(),
    {
        proof {
            broadcast use crate::record::lemma_id_of_value, crate::record::lemma_id_of_view;
        }
        let id = record.id();
        if id.as_u64() != self.next_id {
            return Err(Error::IdMismatch(id));
        }
        if !record.prev_hash().same_as(&self.last_hash) {
            return Err(Error::LinkMismatch(id));
        }
        if self.strict_timestamps && self.started && record.timestamp().as_nanos()
            <= self.last_timestamp.as_nanos() {
            return Err(Error::NonMonotonicClock);
        }
        let recomputed = compute(&mut self.hasher, record);
        if !recomputed.same_as(&record.hash()) {
            return Err(Error::HashMismatch(id));
        }
        if self.next_id == u64::MAX {
            return Err(Error::IdMismatch(id));
        }
        self.next_id = self.next_id + 1;
        self.last_hash = record.hash();
        self.last_timestamp = record.timestamp();
        self.started = true;
        Ok(())
    }

    /// Consume the verifier and return its hasher.
    pub fn into_hasher(self) -> (h: H)
        ensures
            h == self.hasher_of(),
    {
        self.hasher
    }
}

} // verus!
