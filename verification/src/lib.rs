//! Tamper-evident audit logging via hash-chained records.
//!
//! Every audited event becomes a [`Record`] holding the who / what / when /
//! where / result tuple together with the hash of the preceding record, so
//! any modification of a past record breaks the chain and is detected by a
//! [`Verifier`].

use vstd::prelude::*;

mod bytes;
mod canonical;
mod chain;
mod clock;
pub mod codec;
mod error;
mod hash;
mod hashers;
mod owned;
mod reader;
mod record;
mod sink;
mod sinks;
mod text;
mod verify;

pub use canonical::{
    canonical_bytes, lemma_canonical_bytes_injective, record_digest, separator_free, FIELD_SEP,
};
pub use chain::{
    all_admitted, append_refusal, append_step, append_steps, appended_records, draft_record,
    event_record, genesis_state, lemma_admission, lemma_append_effect, lemma_append_steps_tail,
    lemma_draft_record_fields, lemma_ids_count_successes,
    lemma_retry_after_sink_failure, successes,
    lemma_appended_records_len, lemma_draft_links, state_after, state_after_all, AppendEvent, Chain,
    ChainState,
};
pub use clock::{Clock, Timestamp};
pub use error::{error_message, sink_error_message, Error, Result, SinkError};
pub use hash::{lemma_digest_len, zero_bytes, Digest, Hasher, HASH_LEN};
pub use hashers::{sha256_of, Sha256Hasher};
pub use owned::OwnedRecord;
pub use reader::{
    encodable, file_records, frame_result, frames, header_result, lemma_cut_frame,
    lemma_written_header_accepted,
    lemma_file_read_back, lemma_frame_read_step, lemma_frames_read_back, lemma_truncated_tail,
    prefix_outcome, records_from, PrefixOutcome, ReadStatus, ReaderMachine,
    ReaderPhase,
};
pub use record::{
    id_of, lemma_id_of_value, lemma_id_of_view, lemma_outcome_codes, lemma_record_hash_lens,
    outcome_code, Action, Actor, Outcome, Record, RecordId, RecordView, Target,
};
pub use sink::Sink;
pub use sinks::{
    frame_record, lemma_memory_chain_appends, lemma_memory_sink_append, lemma_memory_sink_writes,
    record_views, write_step, MemorySink,
};
pub use text::{decimal, digit_char, hex};
pub use verify::{
    in_step, lemma_appended_ids, lemma_dropped_record_detected, lemma_edited_record_detected,
    lemma_inserted_record_detected, lemma_memory_chain_verifies, lemma_rehashed_record_detected,
    lemma_fresh_start, lemma_relaxed_accepts_more, lemma_relaxed_ignores_timestamps,
    lemma_strict_requires_increase, lemma_verify_step_refusals,
    lemma_reordered_record_detected, lemma_tampered_record_rejected, lemma_verifier_accepts_appended,
    lemma_verifier_accepts_next_record, verify_all, verify_step, Verifier, VerifierState,
};

verus! {

/// Crate version string.
pub const VERSION: &'static str = "0.2.0";

} // verus!
