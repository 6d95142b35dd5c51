//! Owned counterpart to [`Record`] for storage and replay.
use vstd::prelude::*;

use crate::clock::Timestamp;
use crate::hash::Digest;
use crate::record::{Action, Actor, Outcome, Record, RecordId, RecordView, Target};

verus! {

/// Owned counterpart to [`Record`]: the string fields are `String`s, so it
/// can outlive the call that produced it.
#[derive(Clone, Debug, PartialEq, Eq, Hash)]
pub struct OwnedRecord {
    /// Record identifier.
    pub id: RecordId,
    /// Record timestamp.
    pub timestamp: Timestamp,
    /// Actor (who).
    pub actor: String,
    /// Action (what).
    pub action: String,
    /// Target (where).
    pub target: String,
    /// Outcome (result).
    pub outcome: Outcome,
    /// Hash of the preceding record in the chain.
    pub prev_hash: Digest,
    /// Hash of this record.
    pub hash: Digest,
}

impl View for OwnedRecord {
    type V = RecordView;

    open spec fn view(&self) -> RecordView {
        RecordView {
            id: self.id@,
            timestamp: self.timestamp@,
            actor: self.actor@,
            action: self.action@,
            target: self.target@,
            outcome: self.outcome,
            prev_hash: self.prev_hash@,
            hash: self.hash@,
        }
    }
}

impl OwnedRecord {
    /// Copy the fields of a borrowed [`Record`] into a new [`OwnedRecord`].
    pub fn from_record(record: &Record<'_>) -> (r: OwnedRecord)
        ensures
            r@ == record@,
    {
        OwnedRecord {
            id: record.id(),
            timestamp: record.timestamp(),
            actor: record.actor().as_str().to_owned(),
            action: record.action().as_str().to_owned(),
            target: record.target().as_str().to_owned(),
            outcome: record.outcome(),
            prev_hash: record.prev_hash(),
            hash: record.hash(),
        }
    }

    /// Borrow this owned record as a [`Record`].
    pub fn as_record(&self) -> (r: Record<'_>)
        ensures
            r@ == self@,
    {
        Record::new(
            self.id,
            self.timestamp,
            Actor::new(self.actor.as_str()),
            Action::new(self.action.as_str()),
            Target::new(self.target.as_str()),
            self.outcome,
            self.prev_hash,
            self.hash,
        )
    }
}

impl<'a> From<&Record<'a>> for OwnedRecord {
    fn from(record: &Record<'a>) -> (r: OwnedRecord)
        ensures
            r@ == record@,
    {
        OwnedRecord::from_record(record)
    }
}

/// `from` is described by its own `ensures` (equal views): two `String`s
/// with equal contents are not known to be the same value, so no single
/// spec value can stand for the result.
impl<'a> vstd::std_specs::convert::FromSpecImpl<&Record<'a>> for OwnedRecord {
    open spec fn obeys_from_spec() -> bool {
        false
    }

    closed spec fn from_spec(record: &Record<'a>) -> OwnedRecord {
        choose|r: OwnedRecord| r@ == record@
    }
}

} // verus!
