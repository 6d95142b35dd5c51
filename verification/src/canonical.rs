//! The canonical byte string that is hashed for every record.
//!
//! Shared by the chain (which produces record hashes) and the verifier
//! (which recomputes them), so the two can never drift apart.
use vstd::prelude::*;
use vstd::utf8::encode_utf8;

use crate::bytes::{u64_be, u64_to_be};
use crate::hash::{Digest, Hasher};
use crate::record::{outcome_code, Record, RecordView};

verus! {

/// Separator byte placed between hashed fields.
pub const FIELD_SEP: u8 = 0x1f;

/// The bytes fed to the hasher for a record, in order:
/// `id` (u64 big-endian), `timestamp` (u64 big-endian), `actor`, `action`,
/// `target` (UTF-8), `outcome` (one byte), `prev_hash` (32 bytes), each
/// followed by [`FIELD_SEP`] except the last. The record's own `hash` is
/// not part of the input.
pub open spec fn canonical_bytes(r: RecordView) -> Seq<u8> {
    u64_be(r.id) + seq![FIELD_SEP] + u64_be(r.timestamp) + seq![FIELD_SEP] + encode_utf8(r.actor)
        + seq![FIELD_SEP] + encode_utf8(r.action) + seq![FIELD_SEP] + encode_utf8(r.target)
        + seq![FIELD_SEP] + seq![outcome_code(r.outcome)] + seq![FIELD_SEP] + r.prev_hash
}

/// The digest hasher type `H` assigns to a record.
pub open spec fn record_digest<H: Hasher>(r: RecordView) -> Seq<u8> {
    H::digest_of(canonical_bytes(r))
}

/// Feed a record's canonical bytes through `hasher` and return the digest.
pub fn compute<H: Hasher>(hasher: &mut H, record: &Record<'_>) -> (d: Digest)
    ensures
        d@ == record_digest::<H>(record@),
{
    let sep = [FIELD_SEP];
    let outcome = [record.outcome().as_u8()];
    let id_bytes = u64_to_be(record.id().as_u64());
    let ts_bytes = u64_to_be(record.timestamp().as_nanos());
    let actor = record.actor();
    let action = record.action();
    let target = record.target();
    let prev = record.prev_hash();

    hasher.reset();
    hasher.update(id_bytes.as_slice());
    hasher.update(sep.as_slice());
    hasher.update(ts_bytes.as_slice());
    hasher.update(sep.as_slice());
    hasher.update(actor.as_str().as_bytes());
    hasher.update(sep.as_slice());
    hasher.update(action.as_str().as_bytes());
    hasher.update(sep.as_slice());
    hasher.update(target.as_str().as_bytes());
    hasher.update(sep.as_slice());
    hasher.update(outcome.as_slice());
    hasher.update(sep.as_slice());
    hasher.update(prev.as_bytes().as_slice());
    proof {
        assert(sep@ =~= seq![FIELD_SEP]);
        assert(outcome@ =~= seq![outcome_code(record@.outcome)]);
        assert(hasher.absorbed() =~= canonical_bytes(record@));
    }
    let mut out = Digest::zero();
    hasher.finalize(&mut out);
    out
}

} // verus!

verus! {

/// The UTF-8 encoding of `s` holds no [`FIELD_SEP`] byte.
pub open spec fn separator_free(s: Seq<char>) -> bool {
    !encode_utf8(s).contains(FIELD_SEP)
}

/// Splitting at the first separator is unique: if neither head holds a
/// separator, equal joins have equal heads and equal tails.
proof fn lemma_split_at_separator(a1: Seq<u8>, a2: Seq<u8>, t1: Seq<u8>, t2: Seq<u8>)
    requires
        !a1.contains(FIELD_SEP),
        !a2.contains(FIELD_SEP),
        a1 + seq![FIELD_SEP] + t1 == a2 + seq![FIELD_SEP] + t2,
    ensures
        a1 == a2,
        t1 == t2,
{
    let x = a1 + seq![FIELD_SEP] + t1;
    let y = a2 + seq![FIELD_SEP] + t2;
    if a1.len() < a2.len() {
        assert(x[a1.len() as int] == FIELD_SEP);
        assert(y[a1.len() as int] == a2[a1.len() as int]);
        assert(a2.contains(FIELD_SEP));
    } else if a2.len() < a1.len() {
        assert(y[a2.len() as int] == FIELD_SEP);
        assert(x[a2.len() as int] == a1[a2.len() as int]);
        assert(a1.contains(FIELD_SEP));
    } else {
        assert(a1 =~= x.subrange(0, a1.len() as int));
        assert(a2 =~= y.subrange(0, a2.len() as int));
        assert(t1 =~= x.subrange(a1.len() as int + 1, x.len() as int));
        assert(t2 =~= y.subrange(a2.len() as int + 1, y.len() as int));
    }
}

/// The canonical bytes after the id and timestamp, grouped from the right.
spec fn tail_bytes(r: RecordView) -> Seq<u8> {
    encode_utf8(r.actor) + seq![FIELD_SEP] + (encode_utf8(r.action) + seq![FIELD_SEP] + (
    encode_utf8(r.target) + seq![FIELD_SEP] + (seq![outcome_code(r.outcome)] + seq![FIELD_SEP]
        + r.prev_hash)))
}

/// The fixed-width start of the canonical bytes: id and timestamp.
spec fn head_bytes(r: RecordView) -> Seq<u8> {
    u64_be(r.id) + seq![FIELD_SEP] + u64_be(r.timestamp) + seq![FIELD_SEP]
}

proof fn lemma_canonical_split(r: RecordView)
    ensures
        canonical_bytes(r) == head_bytes(r) + tail_bytes(r),
        head_bytes(r).len() == 18,
{
    assert(canonical_bytes(r) =~= head_bytes(r) + tail_bytes(r));
}

proof fn lemma_head_injective(r1: RecordView, r2: RecordView)
    requires
        head_bytes(r1) == head_bytes(r2),
    ensures
        r1.id == r2.id,
        r1.timestamp == r2.timestamp,
{
    crate::bytes::lemma_u64_be_roundtrip(r1.id);
    crate::bytes::lemma_u64_be_roundtrip(r2.id);
    crate::bytes::lemma_u64_be_roundtrip(r1.timestamp);
    crate::bytes::lemma_u64_be_roundtrip(r2.timestamp);
    let h1 = head_bytes(r1);
    let h2 = head_bytes(r2);
    assert(u64_be(r1.id) =~= h1.subrange(0, 8));
    assert(u64_be(r2.id) =~= h2.subrange(0, 8));
    assert(u64_be(r1.timestamp) =~= h1.subrange(9, 17));
    assert(u64_be(r2.timestamp) =~= h2.subrange(9, 17));
}

proof fn lemma_tail_injective(r1: RecordView, r2: RecordView)
    requires
        separator_free(r1.actor),
        separator_free(r1.action),
        separator_free(r1.target),
        separator_free(r2.actor),
        separator_free(r2.action),
        separator_free(r2.target),
        tail_bytes(r1) == tail_bytes(r2),
    ensures
        encode_utf8(r1.actor) == encode_utf8(r2.actor),
        encode_utf8(r1.action) == encode_utf8(r2.action),
        encode_utf8(r1.target) == encode_utf8(r2.target),
        r1.outcome == r2.outcome,
        r1.prev_hash == r2.prev_hash,
{
    let e1 = seq![outcome_code(r1.outcome)] + seq![FIELD_SEP] + r1.prev_hash;
    let e2 = seq![outcome_code(r2.outcome)] + seq![FIELD_SEP] + r2.prev_hash;
    let d1 = encode_utf8(r1.target) + seq![FIELD_SEP] + e1;
    let d2 = encode_utf8(r2.target) + seq![FIELD_SEP] + e2;
    let b1 = encode_utf8(r1.action) + seq![FIELD_SEP] + d1;
    let b2 = encode_utf8(r2.action) + seq![FIELD_SEP] + d2;
    lemma_split_at_separator(encode_utf8(r1.actor), encode_utf8(r2.actor), b1, b2);
    lemma_split_at_separator(encode_utf8(r1.action), encode_utf8(r2.action), d1, d2);
    lemma_split_at_separator(encode_utf8(r1.target), encode_utf8(r2.target), e1, e2);
    assert(e1[0] == e2[0]);
    assert(r1.prev_hash =~= e1.subrange(2, e1.len() as int));
    assert(r2.prev_hash =~= e2.subrange(2, e2.len() as int));
}

/// Records with separator-free strings and equal canonical bytes agree on
/// every hashed field: the hashed input determines the record, so a change
/// to any hashed field changes what is hashed.
pub proof fn lemma_canonical_bytes_injective(r1: RecordView, r2: RecordView)
    requires
        separator_free(r1.actor),
        separator_free(r1.action),
        separator_free(r1.target),
        separator_free(r2.actor),
        separator_free(r2.action),
        separator_free(r2.target),
        canonical_bytes(r1) == canonical_bytes(r2),
    ensures
        r1.id == r2.id,
        r1.timestamp == r2.timestamp,
        r1.actor == r2.actor,
        r1.action == r2.action,
        r1.target == r2.target,
        r1.outcome == r2.outcome,
        r1.prev_hash == r2.prev_hash,
{
    lemma_canonical_split(r1);
    lemma_canonical_split(r2);
    let c = canonical_bytes(r1);
    assert(head_bytes(r1) =~= c.subrange(0, 18));
    assert(head_bytes(r2) =~= c.subrange(0, 18));
    assert(tail_bytes(r1) =~= c.subrange(18, c.len() as int));
    assert(tail_bytes(r2) =~= c.subrange(18, c.len() as int));
    lemma_head_injective(r1, r2);
    lemma_tail_injective(r1, r2);
    vstd::utf8::encode_utf8_decode_utf8(r1.actor);
    vstd::utf8::encode_utf8_decode_utf8(r2.actor);
    vstd::utf8::encode_utf8_decode_utf8(r1.action);
    vstd::utf8::encode_utf8_decode_utf8(r2.action);
    vstd::utf8::encode_utf8_decode_utf8(r1.target);
    vstd::utf8::encode_utf8_decode_utf8(r2.target);
}

} // verus!
