use std::cell::Cell;

use audit_trail::{
    Action, Actor, Chain, Clock, Digest, Error, Hasher, MemorySink, Outcome, OwnedRecord, Record,
    RecordId, Sha256Hasher, Sink, SinkError, Target, Timestamp, Verifier, HASH_LEN,
};

struct TickClock(Cell<u64>);

impl Clock for TickClock {
    fn now(&self) -> Timestamp {
        let v = self.0.get();
        self.0.set(v + 1);
        Timestamp::from_nanos(v)
    }
}

/// A clock that replays a fixed list of timestamps.
struct ScriptClock(Cell<usize>, Vec<u64>);

impl Clock for ScriptClock {
    fn now(&self) -> Timestamp {
        let i = self.0.get();
        self.0.set(i + 1);
        Timestamp::from_nanos(self.1[i])
    }
}

/// A hasher whose digest is always all zeros.
#[derive(Default)]
struct ZeroHasher;

impl Hasher for ZeroHasher {
    fn reset(&mut self) {}
    fn update(&mut self, _bytes: &[u8]) {}
    fn finalize(&mut self, out: &mut Digest) {
        *out = Digest::zero();
    }
}

/// A sink that fails its first write and accepts the rest.
struct FlakySink {
    failed_once: bool,
    inner: MemorySink,
}

impl Sink for FlakySink {
    fn write(&mut self, record: &Record<'_>) -> Result<(), SinkError> {
        if !self.failed_once {
            self.failed_once = true;
            return Err(SinkError::Capacity);
        }
        self.inner.write(record)
    }
}

fn three_records() -> Vec<OwnedRecord> {
    let mut chain = Chain::new(Sha256Hasher::new(), MemorySink::new(), TickClock(Cell::new(10)));
    chain.append(Actor::new("a"), Action::new("x"), Target::new("t"), Outcome::Success).unwrap();
    chain.append(Actor::new("b"), Action::new("y"), Target::new("u"), Outcome::Failure).unwrap();
    chain.append(Actor::new("c"), Action::new("z"), Target::new("v"), Outcome::Error).unwrap();
    let (_, sink, _) = chain.into_parts();
    sink.into_records()
}

#[test]
fn appended_records_carry_consecutive_ids_and_links() {
    let records = three_records();
    assert_eq!(records.len(), 3);
    assert_eq!(records[0].id, RecordId::genesis());
    assert_eq!(records[0].prev_hash, Digest::zero());
    assert_eq!(records[0].timestamp, Timestamp::from_nanos(10));
    for i in 1..3 {
        assert_eq!(records[i].id.as_u64(), i as u64);
        assert_eq!(records[i].prev_hash, records[i - 1].hash);
        assert!(records[i].timestamp > records[i - 1].timestamp);
    }
}

#[test]
fn fresh_verifier_accepts_every_appended_record() {
    let records = three_records();
    let mut verifier = Verifier::new(Sha256Hasher::new());
    for r in &records {
        verifier.verify(&r.as_record()).unwrap();
    }
    assert_eq!(verifier.next_id(), RecordId::from_u64(3));
    assert_eq!(verifier.last_hash(), records[2].hash);
    assert_eq!(verifier.last_timestamp(), records[2].timestamp);
}

#[test]
fn tampered_target_is_a_hash_mismatch_and_cursor_stays() {
    let mut records = three_records();
    records[1].target = String::from("w");
    let mut verifier = Verifier::new(Sha256Hasher::new());
    verifier.verify(&records[0].as_record()).unwrap();
    let before = (verifier.next_id(), verifier.last_hash(), verifier.last_timestamp());
    assert_eq!(
        verifier.verify(&records[1].as_record()),
        Err(Error::HashMismatch(RecordId::from_u64(1)))
    );
    assert_eq!((verifier.next_id(), verifier.last_hash(), verifier.last_timestamp()), before);
}

#[test]
fn tampered_outcome_and_timestamp_are_detected() {
    let mut records = three_records();
    records[2].outcome = Outcome::Success;
    let mut verifier = Verifier::new(Sha256Hasher::new());
    verifier.verify(&records[0].as_record()).unwrap();
    verifier.verify(&records[1].as_record()).unwrap();
    assert_eq!(
        verifier.verify(&records[2].as_record()),
        Err(Error::HashMismatch(RecordId::from_u64(2)))
    );

    let mut records = three_records();
    records[1].timestamp = Timestamp::from_nanos(500);
    let mut verifier = Verifier::new(Sha256Hasher::new()).with_strict_timestamps(false);
    verifier.verify(&records[0].as_record()).unwrap();
    assert_eq!(
        verifier.verify(&records[1].as_record()),
        Err(Error::HashMismatch(RecordId::from_u64(1)))
    );
}

#[test]
fn reordered_records_are_an_id_mismatch_at_the_first_moved_record() {
    let records = three_records();
    let mut verifier = Verifier::new(Sha256Hasher::new());
    verifier.verify(&records[0].as_record()).unwrap();
    assert_eq!(
        verifier.verify(&records[2].as_record()),
        Err(Error::IdMismatch(RecordId::from_u64(2)))
    );

    let mut verifier = Verifier::new(Sha256Hasher::new());
    assert_eq!(
        verifier.verify(&records[1].as_record()),
        Err(Error::IdMismatch(RecordId::from_u64(1)))
    );
    assert_eq!(verifier.next_id(), RecordId::genesis());
}

#[test]
fn replaying_a_record_twice_is_an_id_mismatch() {
    let records = three_records();
    let mut verifier = Verifier::new(Sha256Hasher::new());
    verifier.verify(&records[0].as_record()).unwrap();
    assert_eq!(
        verifier.verify(&records[0].as_record()),
        Err(Error::IdMismatch(RecordId::genesis()))
    );
}

#[test]
fn sink_failure_is_retried_with_same_id_and_link() {
    let sink = FlakySink { failed_once: false, inner: MemorySink::new() };
    let mut chain = Chain::new(Sha256Hasher::new(), sink, TickClock(Cell::new(1)));
    let err = chain.append(Actor::new("a"), Action::new("x"), Target::new("t"), Outcome::Success);
    assert_eq!(err, Err(Error::Sink(SinkError::Capacity)));
    assert_eq!(chain.next_id(), RecordId::genesis());
    let id = chain.append(Actor::new("a"), Action::new("x"), Target::new("t"), Outcome::Success);
    assert_eq!(id, Ok(RecordId::genesis()));
    let stored = chain.sink().inner.records();
    assert_eq!(stored.len(), 1);
    assert_eq!(stored[0].prev_hash, Digest::zero());
    assert_eq!(chain.last_hash(), stored[0].hash);
    assert_eq!(chain.last_timestamp(), Timestamp::from_nanos(2));
}

#[test]
fn first_append_accepts_any_timestamp_then_requires_increase() {
    let clock = ScriptClock(Cell::new(0), vec![0, 0, 5, 4, 6]);
    let mut chain = Chain::new(Sha256Hasher::new(), MemorySink::new(), clock);
    let app = |c: &mut Chain<Sha256Hasher, MemorySink, ScriptClock>| {
        c.append(Actor::new("a"), Action::new("x"), Target::new("t"), Outcome::Success)
    };
    assert_eq!(app(&mut chain), Ok(RecordId::from_u64(0)));
    assert_eq!(app(&mut chain), Err(Error::NonMonotonicClock));
    assert_eq!(app(&mut chain), Ok(RecordId::from_u64(1)));
    assert_eq!(app(&mut chain), Err(Error::NonMonotonicClock));
    assert_eq!(app(&mut chain), Ok(RecordId::from_u64(2)));
    assert_eq!(chain.sink().len(), 3);
}

#[test]
fn exhausted_id_counter_is_a_capacity_error() {
    let mut chain = Chain::resume(
        Sha256Hasher::new(),
        MemorySink::new(),
        TickClock(Cell::new(100)),
        RecordId::from_u64(u64::MAX),
        Digest::zero(),
        Timestamp::from_nanos(50),
    );
    let r = chain.append(Actor::new("a"), Action::new("x"), Target::new("t"), Outcome::Success);
    assert_eq!(r, Err(Error::Capacity));
    assert_eq!(chain.next_id(), RecordId::from_u64(u64::MAX));
    assert!(chain.sink().is_empty());
}

#[test]
fn draft_builds_the_record_without_moving_the_chain() {
    let mut chain = Chain::new(Sha256Hasher::new(), MemorySink::new(), TickClock(Cell::new(7)));
    let draft = chain
        .draft(Timestamp::from_nanos(7), Actor::new("a"), Action::new("x"), Target::new("t"), Outcome::Success)
        .unwrap();
    assert_eq!(chain.next_id(), RecordId::genesis());
    chain.append(Actor::new("a"), Action::new("x"), Target::new("t"), Outcome::Success).unwrap();
    assert_eq!(chain.sink().records()[0].as_record(), draft);
    assert_eq!(
        chain.draft(Timestamp::from_nanos(7), Actor::new("a"), Action::new("x"), Target::new("t"), Outcome::Success),
        Err(Error::NonMonotonicClock)
    );
}

#[test]
fn resumed_verifier_follows_resumed_chain() {
    let records = three_records();
    let last = &records[2];
    let mut chain = Chain::resume(
        Sha256Hasher::new(),
        MemorySink::new(),
        TickClock(Cell::new(1_000)),
        RecordId::from_u64(3),
        last.hash,
        last.timestamp,
    );
    chain.append(Actor::new("d"), Action::new("w"), Target::new("q"), Outcome::Denied).unwrap();
    let mut verifier =
        Verifier::resume(Sha256Hasher::new(), RecordId::from_u64(3), last.hash, last.timestamp);
    verifier.verify(&chain.sink().records()[0].as_record()).unwrap();
    assert_eq!(verifier.next_id(), RecordId::from_u64(4));
}

#[test]
fn verifier_at_last_id_refuses_to_advance() {
    let record = Record::new(
        RecordId::from_u64(u64::MAX),
        Timestamp::from_nanos(9),
        Actor::new("a"),
        Action::new("x"),
        Target::new("t"),
        Outcome::Success,
        Digest::zero(),
        Digest::zero(),
    );
    let mut verifier = Verifier::resume(
        ZeroHasher,
        RecordId::from_u64(u64::MAX),
        Digest::zero(),
        Timestamp::from_nanos(1),
    );
    assert_eq!(verifier.verify(&record), Err(Error::IdMismatch(RecordId::from_u64(u64::MAX))));
    assert_eq!(verifier.next_id(), RecordId::from_u64(u64::MAX));
}

#[test]
fn into_parts_and_sink_mut_give_back_the_components() {
    let mut chain = Chain::new(Sha256Hasher::new(), MemorySink::new(), TickClock(Cell::new(1)));
    chain.append(Actor::new("a"), Action::new("x"), Target::new("t"), Outcome::Success).unwrap();
    chain.sink_mut().clear();
    assert!(chain.sink().is_empty());
    let (_, sink, clock) = chain.into_parts();
    assert_eq!(sink.len(), 0);
    assert_eq!(clock.0.get(), 2);
    let _ = HASH_LEN;
}

/// A record built the way a chain builds it, from the given state.
fn forged(next_id: u64, last_hash: Digest, ts: u64, target: &str) -> OwnedRecord {
    let mut chain = Chain::resume(
        Sha256Hasher::new(),
        MemorySink::new(),
        TickClock(Cell::new(0)),
        RecordId::from_u64(next_id),
        last_hash,
        Timestamp::from_nanos(0),
    );
    let r = chain
        .draft(Timestamp::from_nanos(ts), Actor::new("a"), Action::new("x"), Target::new(target), Outcome::Success)
        .unwrap();
    OwnedRecord::from_record(&r)
}

#[test]
fn edited_record_with_recomputed_hash_breaks_the_next_link() {
    let records = three_records();
    let edited = forged(0, Digest::zero(), records[0].timestamp.as_nanos(), "edited");
    assert_eq!(edited.id, records[0].id);
    assert_ne!(edited.hash, records[0].hash);
    let mut verifier = Verifier::new(Sha256Hasher::new());
    verifier.verify(&edited.as_record()).unwrap();
    assert_eq!(
        verifier.verify(&records[1].as_record()),
        Err(Error::LinkMismatch(RecordId::from_u64(1)))
    );
}

#[test]
fn inserted_record_breaks_the_next_id() {
    let records = three_records();
    let inserted = forged(1, records[0].hash, records[0].timestamp.as_nanos() + 1, "inserted");
    let mut verifier = Verifier::new(Sha256Hasher::new());
    verifier.verify(&records[0].as_record()).unwrap();
    verifier.verify(&inserted.as_record()).unwrap();
    assert_eq!(
        verifier.verify(&records[1].as_record()),
        Err(Error::IdMismatch(RecordId::from_u64(1)))
    );
}
