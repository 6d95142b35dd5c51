//! The audit [`Record`] and its component types.
//!
//! A record captures the "who / what / when / where / result" tuple plus the
//! chain links (`prev_hash`, `hash`). Records borrow their string fields.
use vstd::prelude::*;

use crate::clock::Timestamp;
use crate::hash::Digest;

verus! {

/// Identifier of an audit record: `0` for the genesis record, then one more
/// for every successful append.
#[derive(Copy, Clone, Debug, PartialEq, Eq, PartialOrd, Ord, Hash)]
pub struct RecordId(u64);

impl View for RecordId {
    type V = u64;

    closed spec fn view(&self) -> u64 {
        self.0
    }
}

impl RecordId {
    /// The first identifier produced by a fresh chain.
    pub fn genesis() -> (id: RecordId)
        ensures
            id@ == 0,
    {
        RecordId(0)
    }

    /// Wrap a raw `u64` as a [`RecordId`].
    pub fn from_u64(value: u64) -> (id: RecordId)
        ensures
            id@ == value,
    {
        RecordId(value)
    }

    /// The underlying `u64`.
    pub fn as_u64(self) -> (v: u64)
        ensures
            v == self@,
    {
        self.0
    }
}

/// The record id holding the value `v`.
pub closed spec fn id_of(v: u64) -> RecordId {
    RecordId(v)
}

/// `id_of` builds the id with the given value ...
pub broadcast proof fn lemma_id_of_value(v: u64)
    ensures
        #[trigger] id_of(v)@ == v,
{
}

/// ... and every id is the one built from its value.
pub broadcast proof fn lemma_id_of_view(x: RecordId)
    ensures
        #[trigger] id_of(x@) == x,
{
}

impl Default for RecordId {
    fn default() -> (id: RecordId)
        ensures
            id@ == 0,
    {
        RecordId(0)
    }
}

/// The subject performing an audited action (the "who").
#[derive(Copy, Clone, Debug, PartialEq, Eq, Hash)]
pub struct Actor<'a>(&'a str);

impl<'a> View for Actor<'a> {
    type V = Seq<char>;

    closed spec fn view(&self) -> Seq<char> {
        self.0@
    }
}

impl<'a> Actor<'a> {
    /// Wrap a string slice as an [`Actor`].
    pub fn new(value: &'a str) -> (a: Actor<'a>)
        ensures
            a@ == value@,
    {
        Actor(value)
    }

    /// Borrow the underlying string slice.
    pub fn as_str(&self) -> (s: &'a str)
        ensures
            s@ == self@,
    {
        self.0
    }
}

/// The verb of an audited event (the "what").
#[derive(Copy, Clone, Debug, PartialEq, Eq, Hash)]
pub struct Action<'a>(&'a str);

impl<'a> View for Action<'a> {
    type V = Seq<char>;

    closed spec fn view(&self) -> Seq<char> {
        self.0@
    }
}

impl<'a> Action<'a> {
    /// Wrap a string slice as an [`Action`].
    pub fn new(value: &'a str) -> (a: Action<'a>)
        ensures
            a@ == value@,
    {
        Action(value)
    }

    /// Borrow the underlying string slice.
    pub fn as_str(&self) -> (s: &'a str)
        ensures
            s@ == self@,
    {
        self.0
    }
}

/// The resource an audited action was performed on (the "where").
#[derive(Copy, Clone, Debug, PartialEq, Eq, Hash)]
pub struct Target<'a>(&'a str);

impl<'a> View for Target<'a> {
    type V = Seq<char>;

    closed spec fn view(&self) -> Seq<char> {
        self.0@
    }
}

impl<'a> Target<'a> {
    /// Wrap a string slice as a [`Target`].
    pub fn new(value: &'a str) -> (t: Target<'a>)
        ensures
            t@ == value@,
    {
        Target(value)
    }

    /// Borrow the underlying string slice.
    pub fn as_str(&self) -> (s: &'a str)
        ensures
            s@ == self@,
    {
        self.0
    }
}

/// Outcome of an audited action (the "result").
#[derive(Copy, Clone, Debug, PartialEq, Eq, Hash)]
#[non_exhaustive]
pub enum Outcome {
    /// The action completed successfully.
    Success,
    /// The action was attempted and failed for an operational reason.
    Failure,
    /// The action was denied by policy or authorization.
    Denied,
    /// The action errored due to an unexpected condition.
    Error,
}

/// The frozen numeric encoding of an outcome.
pub open spec fn outcome_code(o: Outcome) -> u8 {
    match o {
        Outcome::Success => 0,
        Outcome::Failure => 1,
        Outcome::Denied => 2,
        Outcome::Error => 3,
    }
}

/// The outcome codes are the stable values 0 (success), 1 (failure),
/// 2 (denied) and 3 (error), so no two outcomes share a code.
pub proof fn lemma_outcome_codes(a: Outcome, b: Outcome)
    ensures
        outcome_code(Outcome::Success) == 0,
        outcome_code(Outcome::Failure) == 1,
        outcome_code(Outcome::Denied) == 2,
        outcome_code(Outcome::Error) == 3,
        outcome_code(a) == outcome_code(b) ==> a == b,
{
}

impl Outcome {
    /// Stable numeric encoding, part of the hashed and encoded formats.
    pub fn as_u8(self) -> (b: u8)
        ensures
            b == outcome_code(self),
    {
        match self {
            Outcome::Success => 0,
            Outcome::Failure => 1,
            Outcome::Denied => 2,
            Outcome::Error => 3,
        }
    }
}

/// The mathematical content of a record: every field by its value.
pub struct RecordView {
    pub id: u64,
    pub timestamp: u64,
    pub actor: Seq<char>,
    pub action: Seq<char>,
    pub target: Seq<char>,
    pub outcome: Outcome,
    pub prev_hash: Seq<u8>,
    pub hash: Seq<u8>,
}

impl RecordView {
    /// The same record with its `hash` replaced.
    pub open spec fn with_hash(self, hash: Seq<u8>) -> RecordView {
        RecordView { hash, ..self }
    }
}

/// A single audited event in the chain. String fields are borrowed.
#[derive(Copy, Clone, Debug, PartialEq, Eq)]
pub struct Record<'a> {
    id: RecordId,
    timestamp: Timestamp,
    actor: Actor<'a>,
    action: Action<'a>,
    target: Target<'a>,
    outcome: Outcome,
    prev_hash: Digest,
    hash: Digest,
}

impl<'a> View for Record<'a> {
    type V = RecordView;

    closed spec fn view(&self) -> RecordView {
        RecordView {
            id: self.id@,
            timestamp: self.timestamp@,
            actor: self.actor@,
            action: self.action@,
            target: self.target@,
            outcome: self.outcome,
            prev_hash: self.prev_hash@,
            hash: self.hash@,
        }
    }
}

/// The two hashes of a record hold `HASH_LEN` bytes each.
pub broadcast proof fn lemma_record_hash_lens(r: Record)
    ensures
        (#[trigger] r@).prev_hash.len() == crate::hash::HASH_LEN,
        r@.hash.len() == crate::hash::HASH_LEN,
{
    crate::hash::lemma_digest_len(r.prev_hash);
    crate::hash::lemma_digest_len(r.hash);
}

impl<'a> Record<'a> {
    /// Construct a record from its constituent parts.
    pub fn new(
        id: RecordId,
        timestamp: Timestamp,
        actor: Actor<'a>,
        action: Action<'a>,
        target: Target<'a>,
        outcome: Outcome,
        prev_hash: Digest,
        hash: Digest,
    ) -> (r: Record<'a>)
        ensures
            r@ == (RecordView {
                id: id@,
                timestamp: timestamp@,
                actor: actor@,
                action: action@,
                target: target@,
                outcome,
                prev_hash: prev_hash@,
                hash: hash@,
            }),
    {
        Record { id, timestamp, actor, action, target, outcome, prev_hash, hash }
    }

    /// A copy of this record with `hash` replaced.
    pub fn with_hash(self, hash: Digest) -> (r: Record<'a>)
        ensures
            r@ == self@.with_hash(hash@),
    {
        let mut r = self;
        r.hash = hash;
        r
    }

    /// Record identifier.
    pub fn id(&self) -> (v: RecordId)
        ensures
            v@ == self@.id,
    {
        self.id
    }

    /// Record timestamp.
    pub fn timestamp(&self) -> (v: Timestamp)
        ensures
            v@ == self@.timestamp,
    {
        self.timestamp
    }

    /// The actor (who).
    pub fn actor(&self) -> (v: Actor<'a>)
        ensures
            v@ == self@.actor,
    {
        self.actor
    }

    /// The action (what).
    pub fn action(&self) -> (v: Action<'a>)
        ensures
            v@ == self@.action,
    {
        self.action
    }

    /// The target (where).
    pub fn target(&self) -> (v: Target<'a>)
        ensures
            v@ == self@.target,
    {
        self.target
    }

    /// The outcome (result).
    pub fn outcome(&self) -> (v: Outcome)
        ensures
            v == self@.outcome,
    {
        self.outcome
    }

    /// Hash of the preceding record; all zeros for the genesis record.
    pub fn prev_hash(&self) -> (v: Digest)
        ensures
            v@ == self@.prev_hash,
    {
        self.prev_hash
    }

    /// Hash of this record, computed over all other fields.
    pub fn hash(&self) -> (v: Digest)
        ensures
            v@ == self@.hash,
    {
        self.hash
    }
}

} // verus!
