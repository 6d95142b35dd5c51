//! In-memory reference [`Sink`].
use vstd::prelude::*;

use crate::chain::{
    all_admitted, append_refusal, append_steps, appended_records, draft_record, event_record,
    lemma_append_steps_tail, state_after, state_after_all, AppendEvent, Chain,
};
use crate::clock::Clock;
use crate::error::SinkError;
use crate::hash::Hasher;
use crate::owned::OwnedRecord;
use crate::record::{Outcome, Record, RecordId, RecordView};
use crate::sink::Sink;

verus! {

/// The records held, each by its value.
pub open spec fn record_views(records: Seq<OwnedRecord>) -> Seq<RecordView> {
    records.map_values(|r: OwnedRecord| r@)
}

/// In-memory [`Sink`]: keeps every record written to it, in order.
#[derive(Clone, Debug)]
pub struct MemorySink {
    records: Vec<OwnedRecord>,
}

impl View for MemorySink {
    type V = Seq<RecordView>;

    closed spec fn view(&self) -> Seq<RecordView> {
        record_views(self.records@)
    }
}

impl MemorySink {
    /// An empty sink.
    pub fn new() -> (s: MemorySink)
        ensures
            s@ == Seq::<RecordView>::empty(),
    {
        let s = MemorySink { records: Vec::new() };
        assert(s@ =~= Seq::<RecordView>::empty());
        s
    }

    /// An empty sink with room for `cap` records.
    pub fn with_capacity(cap: usize) -> (s: MemorySink)
        ensures
            s@ == Seq::<RecordView>::empty(),
    {
        let s = MemorySink { records: Vec::with_capacity(cap) };
        assert(s@ =~= Seq::<RecordView>::empty());
        s
    }

    /// Number of records held.
    pub fn len(&self) -> (n: usize)
        ensures
            n == self@.len(),
    {
        self.records.len()
    }

    /// `true` if no records are held.
    pub fn is_empty(&self) -> (b: bool)
        ensures
            b == (self@.len() == 0),
    {
        self.records.len() == 0
    }

    /// Borrow the records held.
    pub fn records(&self) -> (rs: &[OwnedRecord])
        ensures
            record_views(rs@) == self@,
    {
        self.records.as_slice()
    }

    /// Consume the sink and return its records.
    pub fn into_records(self) -> (rs: Vec<OwnedRecord>)
        ensures
            record_views(rs@) == self@,
    {
        self.records
    }

    /// Drop all records held.
    pub fn clear(&mut self)
        ensures
            final(self)@ == Seq::<RecordView>::empty(),
    {
        self.records.clear();
        assert(self@ =~= Seq::<RecordView>::empty());
    }
}

impl Default for MemorySink {
    fn default() -> (s: MemorySink)
        ensures
            s@ == Seq::<RecordView>::empty(),
    {
        MemorySink::new()
    }
}

impl Sink for MemorySink {
    /// A memory sink keeps every written record after the earlier ones, and
    /// never fails.
    open spec fn wrote(
        &self,
        after: &Self,
        record: RecordView,
        result: core::result::Result<(), SinkError>,
    ) -> bool {
        result is Ok && after@ == self@.push(record)
    }

    /// Keep a copy of `record`; never fails.
    fn write(&mut self, record: &Record<'_>) -> (r: core::result::Result<(), SinkError>)
        ensures
            r is Ok,
            final(self)@ == old(self)@.push(record@),
    {
        self.records.push(OwnedRecord::from_record(record));
        assert(self@ =~= old(self)@.push(record@));
        Ok(())
    }
}

/// A chain over a memory sink never fails in the sink: an append whose
/// draft is admitted succeeds and leaves exactly its record after those
/// already held; a refused one leaves the sink as it was.
pub proof fn lemma_memory_sink_append<H: Hasher, C: Clock>(
    before: Chain<H, MemorySink, C>,
    after: Chain<H, MemorySink, C>,
    ts: u64,
    actor: Seq<char>,
    action: Seq<char>,
    target: Seq<char>,
    outcome: Outcome,
    r: crate::error::Result<RecordId>,
)
    requires
        before.appended(&after, ts, actor, action, target, outcome, r),
    ensures
        append_refusal(before@, ts) is None ==> {
            &&& r is Ok
            &&& after.sink_of()@ == before.sink_of()@.push(
                draft_record::<H>(before@, ts, actor, action, target, outcome),
            )
        },
        append_refusal(before@, ts) is Some ==> after.sink_of()@ == before.sink_of()@,
{
}

/// Write `i` of a run: `recs[i]` took the sink from `sinks[i]` to
/// `sinks[i + 1]`, reporting `results[i]`.
pub open spec fn write_step(
    sinks: Seq<MemorySink>,
    recs: Seq<RecordView>,
    results: Seq<core::result::Result<(), SinkError>>,
    i: int,
) -> bool {
    sinks[i].wrote(&sinks[i + 1], recs[i], results[i])
}

/// Successive writes to a memory sink all succeed, and the sink then holds
/// what it held before followed by the written records, in write order.
pub proof fn lemma_memory_sink_writes(
    sinks: Seq<MemorySink>,
    recs: Seq<RecordView>,
    results: Seq<core::result::Result<(), SinkError>>,
)
    requires
        sinks.len() == recs.len() + 1,
        results.len() == recs.len(),
        forall|i: int| 0 <= i < recs.len() ==> #[trigger] write_step(sinks, recs, results, i),
    ensures
        forall|i: int| 0 <= i < results.len() ==> #[trigger] results[i] is Ok,
        sinks.last()@ == sinks[0]@ + recs,
    decreases recs.len(),
{
    if recs.len() == 0 {
        assert(sinks[0]@ + recs =~= sinks[0]@);
    } else {
        let (s2, r2, x2) = (sinks.drop_first(), recs.drop_first(), results.drop_first());
        assert forall|i: int| 0 <= i < r2.len() implies #[trigger] write_step(s2, r2, x2, i) by {
            assert(write_step(sinks, recs, results, i + 1));
            assert(s2[i + 1] == sinks[i + 2]);
        }
        lemma_memory_sink_writes(s2, r2, x2);
        assert(write_step(sinks, recs, results, 0));
        assert forall|i: int| 0 <= i < results.len() implies #[trigger] results[i] is Ok by {
            if i > 0 {
                assert(x2[i - 1] == results[i]);
            }
        }
        assert(sinks.last() == s2.last());
        assert(sinks[0]@ + recs =~= sinks[0]@.push(recs[0]) + r2);
    }
}

/// A run of appends on a chain over a memory sink, whose drafts are all
/// admitted, succeeds throughout: the chain ends in the state those appends
/// lead to, and the sink holds what it held before followed by exactly one
/// record per append, the record that append built, in call order.
pub proof fn lemma_memory_chain_appends<H: Hasher, C: Clock>(
    cs: Seq<Chain<H, MemorySink, C>>,
    events: Seq<AppendEvent>,
    rs: Seq<crate::error::Result<RecordId>>,
)
    requires
        append_steps(cs, events, rs),
        all_admitted::<H>(cs[0]@, events),
    ensures
        forall|i: int| 0 <= i < rs.len() ==> #[trigger] rs[i] is Ok,
        cs.last()@ == state_after_all::<H>(cs[0]@, events),
        cs.last().sink_of()@ == cs[0].sink_of()@ + appended_records::<H>(cs[0]@, events),
    decreases events.len(),
{
    if events.len() == 0 {
        assert(cs[0].sink_of()@ + Seq::<RecordView>::empty() =~= cs[0].sink_of()@);
    } else {
        let (cs2, ev2, rs2) = (cs.drop_first(), events.drop_first(), rs.drop_first());
        lemma_append_steps_tail(cs, events, rs);
        let e = events[0];
        lemma_memory_sink_append::<H, C>(
            cs[0],
            cs[1],
            e.timestamp,
            e.actor,
            e.action,
            e.target,
            e.outcome,
            rs[0],
        );
        let rec = event_record::<H>(cs[0]@, e);
        assert(cs[1]@ == state_after(cs[0]@, rec));
        lemma_memory_chain_appends::<H, C>(cs2, ev2, rs2);
        assert forall|i: int| 0 <= i < rs.len() implies #[trigger] rs[i] is Ok by {
            if i > 0 {
                assert(rs2[i - 1] == rs[i]);
            }
        }
        assert(cs.last() == cs2.last());
        assert(cs[0].sink_of()@ + appended_records::<H>(cs[0]@, events) =~= cs[0].sink_of()@.push(
            rec,
        ) + appended_records::<H>(cs[1]@, ev2));
    }
}

} // verus!
