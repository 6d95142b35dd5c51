//! Stable binary codec for audit records.
//!
//! File layout: a 16-byte header (`"AUDTRAIL"`, a version byte, seven zero
//! bytes), then one length-prefixed frame per record. A frame is the body
//! length (u32 big-endian) followed by the body:
//!
//! ```text
//! 0..8    id           u64 big-endian
//! 8..16   timestamp    u64 big-endian
//! 16      outcome      u8
//! 17..49  prev_hash    32 bytes
//! 49..81  hash         32 bytes
//! 81..    actor, action, target, each a u32 big-endian byte length
//!         followed by the UTF-8 bytes
//! ```
use vstd::prelude::*;
use vstd::utf8::{decode_utf8, encode_utf8, valid_utf8};

use crate::bytes::{append_bytes, u32_be, u32_from_be, u32_to_be, u64_be, u64_from_be, u64_to_be};
use crate::clock::Timestamp;
use crate::error::{Error, Result};
use crate::hash::{Digest, HASH_LEN};
use crate::owned::OwnedRecord;
use crate::record::{outcome_code, Outcome, Record, RecordId, RecordView};

verus! {

/// File-format magic bytes (`"AUDTRAIL"`), at the start of every chain file.
pub const FORMAT_MAGIC: [u8; 8] = [0x41u8, 0x55u8, 0x44u8, 0x54u8, 0x52u8, 0x41u8, 0x49u8, 0x4cu8];

/// Current file-format version.
pub const FORMAT_VERSION: u8 = 0x01;

/// Length of the file header in bytes.
pub const FILE_HEADER_LEN: usize = 16;

/// Length of a record body's fixed prefix
/// (`id || timestamp || outcome || prev_hash || hash`).
pub const RECORD_FIXED_LEN: usize = 81;

/// The 16 header bytes: magic, version, seven reserved zero bytes.
pub open spec fn header_bytes() -> Seq<u8> {
    FORMAT_MAGIC@ + seq![FORMAT_VERSION] + seq![0u8, 0u8, 0u8, 0u8, 0u8, 0u8, 0u8]
}

/// What checking the header at the front of `b` gives: too short, then a
/// wrong magic, then an unknown version.
pub open spec fn header_check(b: Seq<u8>) -> core::result::Result<(), Error> {
    if b.len() < FILE_HEADER_LEN {
        Err(Error::Truncated)
    } else if b.subrange(0, 8) != FORMAT_MAGIC@ {
        Err(Error::InvalidFormat)
    } else if b[8] != FORMAT_VERSION {
        Err(Error::InvalidFormat)
    } else {
        Ok(())
    }
}

/// A string field as encoded: its UTF-8 byte length (u32 big-endian) then
/// its UTF-8 bytes.
pub open spec fn field_bytes(s: Seq<char>) -> Seq<u8> {
    u32_be(encode_utf8(s).len() as u32) + encode_utf8(s)
}

/// The length of a record's encoded body.
pub open spec fn body_len(r: RecordView) -> int {
    RECORD_FIXED_LEN + 4 + encode_utf8(r.actor).len() + 4 + encode_utf8(r.action).len() + 4
        + encode_utf8(r.target).len()
}

/// A record's encoded body.
pub open spec fn body_bytes(r: RecordView) -> Seq<u8> {
    u64_be(r.id) + u64_be(r.timestamp) + seq![outcome_code(r.outcome)] + r.prev_hash + r.hash
        + field_bytes(r.actor) + field_bytes(r.action) + field_bytes(r.target)
}

/// A record's frame: body length (u32 big-endian), then the body.
pub open spec fn frame_bytes(r: RecordView) -> Seq<u8> {
    u32_be(body_len(r) as u32) + body_bytes(r)
}

/// The outcome an encoded byte stands for.
pub open spec fn outcome_of_code(b: u8) -> Option<Outcome> {
    if b == 0 {
        Some(Outcome::Success)
    } else if b == 1 {
        Some(Outcome::Failure)
    } else if b == 2 {
        Some(Outcome::Denied)
    } else if b == 3 {
        Some(Outcome::Error)
    } else {
        None
    }
}

/// Reading the string field of `body` at `cursor`: the string and the
/// position after it, or why it cannot be read.
pub open spec fn parse_field(body: Seq<u8>, cursor: int) -> core::result::Result<
    (Seq<char>, int),
    Error,
> {
    if body.len() < cursor + 4 {
        Err(Error::InvalidFormat)
    } else {
        let start = cursor + 4;
        let end = start + u32_from_be(body.subrange(cursor, start)) as int;
        if body.len() < end {
            Err(Error::InvalidFormat)
        } else if !valid_utf8(body.subrange(start, end)) {
            Err(Error::InvalidFormat)
        } else {
            Ok((decode_utf8(body.subrange(start, end)), end))
        }
    }
}

/// The record decoded from a body that holds the fixed prefix, given the
/// outcome and the three strings.
pub open spec fn body_record(
    body: Seq<u8>,
    outcome: Outcome,
    actor: Seq<char>,
    action: Seq<char>,
    target: Seq<char>,
) -> RecordView {
    RecordView {
        id: u64_from_be(body),
        timestamp: u64_from_be(body.subrange(8, 16)),
        actor,
        action,
        target,
        outcome,
        prev_hash: body.subrange(17, 49),
        hash: body.subrange(49, 81),
    }
}

/// Decoding the body of a frame: the fixed prefix, a known outcome byte,
/// three string fields, and nothing after them.
pub open spec fn parse_body(body: Seq<u8>) -> core::result::Result<RecordView, Error> {
    if body.len() < RECORD_FIXED_LEN {
        Err(Error::InvalidFormat)
    } else {
        match outcome_of_code(body[16]) {
            None => Err(Error::InvalidFormat),
            Some(outcome) => match parse_field(body, RECORD_FIXED_LEN as int) {
                Err(e) => Err(e),
                Ok((actor, c1)) => match parse_field(body, c1) {
                    Err(e) => Err(e),
                    Ok((action, c2)) => match parse_field(body, c2) {
                        Err(e) => Err(e),
                        Ok((target, c3)) => if c3 != body.len() {
                            Err(Error::InvalidFormat)
                        } else {
                            Ok(body_record(body, outcome, actor, action, target))
                        },
                    },
                },
            },
        }
    }
}

/// Decoding one frame from the front of `b`: the record and the number of
/// bytes it took, or `Truncated` when the input ends early and
/// `InvalidFormat` when the bytes do not form a record.
pub open spec fn parse_frame(b: Seq<u8>) -> core::result::Result<(RecordView, int), Error> {
    if b.len() < 4 {
        Err(Error::Truncated)
    } else {
        let frame_end = 4 + u32_from_be(b) as int;
        if frame_end > usize::MAX {
            Err(Error::InvalidFormat)
        } else if b.len() < frame_end {
            Err(Error::Truncated)
        } else {
            match parse_body(b.subrange(4, frame_end)) {
                Ok(r) => Ok((r, frame_end)),
                Err(e) => Err(e),
            }
        }
    }
}

/// Append the file header to `out`.
pub fn write_file_header(out: &mut Vec<u8>)
    ensures
        final(out)@ == old(out)@ + header_bytes(),
{
    let magic = FORMAT_MAGIC;
    append_bytes(out, magic.as_slice());
    out.push(FORMAT_VERSION);
    let reserved = [0u8, 0u8, 0u8, 0u8, 0u8, 0u8, 0u8];
    append_bytes(out, reserved.as_slice());
    proof {
        assert(reserved@ =~= seq![0u8, 0u8, 0u8, 0u8, 0u8, 0u8, 0u8]);
        assert(final(out)@ =~= old(out)@ + header_bytes());
    }
}

/// Check that `bytes` begins with a valid file header.
pub fn verify_file_header(bytes: &[u8]) -> (r: Result<()>)
    ensures
        r == header_check(bytes@),
{
    if bytes.len() < FILE_HEADER_LEN {
        return Err(Error::Truncated);
    }
    let magic = FORMAT_MAGIC;
    let mut i: usize = 0;
    while i < 8
        invariant
            i <= 8,
            bytes@.len() >= FILE_HEADER_LEN,
            magic@ == FORMAT_MAGIC@,
            forall|j: int| 0 <= j < i ==> bytes@[j] == magic@[j],
        decreases 8 - i,
    {
        if bytes[i] != magic[i] {
            assert(bytes@.subrange(0, 8)[i as int] != FORMAT_MAGIC@[i as int]);
            return Err(Error::InvalidFormat);
        }
        i = i + 1;
    }
    assert(bytes@.subrange(0, 8) =~= FORMAT_MAGIC@);
    if bytes[8] != FORMAT_VERSION {
        return Err(Error::InvalidFormat);
    }
    Ok(())
}

/// Encode `record` as a length-prefixed frame appended to `out`. Refused
/// with `InvalidFormat`, leaving `out` as it was, when the body length would
/// not fit in a `u32`.
pub fn encode_record(record: &Record<'_>, out: &mut Vec<u8>) -> (r: Result<()>)
    ensures
        match r {
            Ok(()) => body_len(record@) <= u32::MAX && final(out)@ == old(out)@ + frame_bytes(
                record@,
            ),
            Err(e) => body_len(record@) > u32::MAX && e == Error::InvalidFormat && final(out)@
                == old(out)@,
        },
{
    let actor = record.actor();
    let action = record.action();
    let target = record.target();
    let actor_bytes = actor.as_str().as_bytes();
    let action_bytes = action.as_str().as_bytes();
    let target_bytes = target.as_str().as_bytes();

    if actor_bytes.len() > u32::MAX as usize || action_bytes.len() > u32::MAX as usize
        || target_bytes.len() > u32::MAX as usize {
        return Err(Error::InvalidFormat);
    }
    let body_len: u64 = RECORD_FIXED_LEN as u64 + 4 + actor_bytes.len() as u64 + 4
        + action_bytes.len() as u64 + 4 + target_bytes.len() as u64;
    if body_len > u32::MAX as u64 {
        return Err(Error::InvalidFormat);
    }

    let ghost start = out@;
    let sep_outcome = [record.outcome().as_u8()];
    let prev = record.prev_hash();
    let hash = record.hash();
    append_bytes(out, u32_to_be(body_len as u32).as_slice());
    append_bytes(out, u64_to_be(record.id().as_u64()).as_slice());
    append_bytes(out, u64_to_be(record.timestamp().as_nanos()).as_slice());
    append_bytes(out, sep_outcome.as_slice());
    append_bytes(out, prev.as_bytes().as_slice());
    append_bytes(out, hash.as_bytes().as_slice());
    append_bytes(out, u32_to_be(actor_bytes.len() as u32).as_slice());
    append_bytes(out, actor_bytes);
    append_bytes(out, u32_to_be(action_bytes.len() as u32).as_slice());
    append_bytes(out, action_bytes);
    append_bytes(out, u32_to_be(target_bytes.len() as u32).as_slice());
    append_bytes(out, target_bytes);
    proof {
        assert(sep_outcome@ =~= seq![outcome_code(record@.outcome)]);
        assert(out@ =~= start + frame_bytes(record@));
    }
    Ok(())
}

/// Decode a single frame from the front of `bytes`, returning the record
/// and the number of bytes consumed.
pub fn decode_record(bytes: &[u8]) -> (r: Result<(OwnedRecord, usize)>)
    ensures
        match parse_frame(bytes@) {
            Ok((v, n)) => r matches Ok((rec, m)) && rec@ == v && m == n,
            Err(e) => r matches Err(f) && f == e,
        },
{
    if bytes.len() < 4 {
        return Err(Error::Truncated);
    }
    let body_len = read_u32(bytes, 0) as usize;
    let frame_end = match 4usize.checked_add(body_len) {
        Some(end) => end,
        None => return Err(Error::InvalidFormat),
    };
    if bytes.len() < frame_end {
        return Err(Error::Truncated);
    }
    let body = &bytes[4..frame_end];
    if body.len() < RECORD_FIXED_LEN {
        return Err(Error::InvalidFormat);
    }

    let id = RecordId::from_u64(read_u64(body, 0));
    let timestamp = Timestamp::from_nanos(read_u64(body, 8));
    let outcome = match decode_outcome(body[16]) {
        Ok(o) => o,
        Err(e) => return Err(e),
    };
    let prev_hash = read_digest(body, 17);
    let hash = read_digest(body, 49);

    let mut cursor = RECORD_FIXED_LEN;
    let actor = match read_string_field(body, &mut cursor) {
        Ok(s) => s,
        Err(e) => return Err(e),
    };
    let action = match read_string_field(body, &mut cursor) {
        Ok(s) => s,
        Err(e) => return Err(e),
    };
    let target = match read_string_field(body, &mut cursor) {
        Ok(s) => s,
        Err(e) => return Err(e),
    };
    if cursor != body.len() {
        return Err(Error::InvalidFormat);
    }
    let record = OwnedRecord { id, timestamp, actor, action, target, outcome, prev_hash, hash };
    Ok((record, frame_end))
}

/// The outcome an encoded byte stands for, or `InvalidFormat`.
fn decode_outcome(byte: u8) -> (r: Result<Outcome>)
    ensures
        match outcome_of_code(byte) {
            Some(o) => r == Ok::<Outcome, Error>(o),
            None => r == Err::<Outcome, Error>(Error::InvalidFormat),
        },
{
    match byte {
        0 => Ok(Outcome::Success),
        1 => Ok(Outcome::Failure),
        2 => Ok(Outcome::Denied),
        3 => Ok(Outcome::Error),
        _ => Err(Error::InvalidFormat),
    }
}

/// Wraps `core::str::from_utf8`, which (as its documentation says) accepts
/// exactly the valid UTF-8 byte strings and returns a string slice over
/// those same bytes.
#[verifier::external_body]
fn utf8_str(bytes: &[u8]) -> (r: Option<&str>)
    ensures
        r is Some <==> valid_utf8(bytes@),
        r matches Some(s) ==> encode_utf8(s@) == bytes@,
{
    match core::str::from_utf8(bytes) {
        Ok(s) => Some(s),
        Err(_) => None,
    }
}

/// Read the string field of `body` at `*cursor`, moving the cursor past it.
fn read_string_field(body: &[u8], cursor: &mut usize) -> (r: Result<String>)
    ensures
        match parse_field(body@, *old(cursor) as int) {
            Ok((s, end)) => r matches Ok(st) && st@ == s && *final(cursor) == end,
            Err(e) => r matches Err(f) && f == e,
        },
{
    if body.len() < 4 || *cursor > body.len() - 4 {
        return Err(Error::InvalidFormat);
    }
    let start = *cursor + 4;
    let len = read_u32(body, *cursor) as usize;
    if len > body.len() - start {
        return Err(Error::InvalidFormat);
    }
    let end = start + len;
    let s = match utf8_str(&body[start..end]) {
        Some(s) => s,
        None => return Err(Error::InvalidFormat),
    };
    proof {
        vstd::utf8::encode_utf8_decode_utf8(s@);
    }
    *cursor = end;
    Ok(s.to_owned())
}

/// The `u32` stored big-endian at `bytes[at..at + 4]`.
fn read_u32(bytes: &[u8], at: usize) -> (v: u32)
    requires
        at + 4 <= bytes@.len(),
    ensures
        v == u32_from_be(bytes@.subrange(at as int, at + 4)),
{
    (bytes[at] as u32) << 24u32 | (bytes[at + 1] as u32) << 16u32 | (bytes[at + 2] as u32) << 8u32
        | (bytes[at + 3] as u32)
}

/// The `u64` stored big-endian at `bytes[at..at + 8]`.
fn read_u64(bytes: &[u8], at: usize) -> (v: u64)
    requires
        at + 8 <= bytes@.len(),
    ensures
        v == u64_from_be(bytes@.subrange(at as int, at + 8)),
{
    (bytes[at] as u64) << 56u64 | (bytes[at + 1] as u64) << 48u64 | (bytes[at + 2] as u64)
        << 40u64 | (bytes[at + 3] as u64) << 32u64 | (bytes[at + 4] as u64) << 24u64 | (bytes[at
        + 5] as u64) << 16u64 | (bytes[at + 6] as u64) << 8u64 | (bytes[at + 7] as u64)
}

/// The digest stored at `bytes[at..at + 32]`.
fn read_digest(bytes: &[u8], at: usize) -> (d: Digest)
    requires
        at + HASH_LEN <= bytes@.len(),
    ensures
        d@ == bytes@.subrange(at as int, at + HASH_LEN),
{
    let mut a = [0u8; 32];
    let n = bytes.len();
    let mut i: usize = 0;
    while i < HASH_LEN
        invariant
            i <= HASH_LEN,
            n == bytes@.len(),
            at + HASH_LEN <= bytes@.len(),
            a@.len() == HASH_LEN,
            forall|j: int| 0 <= j < i ==> a@[j] == bytes@[at + j],
        decreases HASH_LEN - i,
    {
        a[i] = bytes[at + i];
        i = i + 1;
    }
    assert(a@ =~= bytes@.subrange(at as int, at + HASH_LEN));
    Digest::from_bytes(a)
}

} // verus!

verus! {

/// A written header is accepted, whatever follows it.
pub proof fn lemma_header_roundtrip(rest: Seq<u8>)
    ensures
        header_check(header_bytes() + rest) == Ok::<(), Error>(()),
{
    let b = header_bytes() + rest;
    assert(b.subrange(0, 8) =~= FORMAT_MAGIC@);
}

/// Every outcome's code decodes back to it.
pub proof fn lemma_outcome_code_roundtrip(o: Outcome)
    ensures
        outcome_of_code(outcome_code(o)) == Some(o),
{
}

/// A string field, as encoded, reads back as the same string, and the cursor
/// moves past exactly the field.
pub proof fn lemma_field_roundtrip(body: Seq<u8>, cursor: int, s: Seq<char>)
    requires
        0 <= cursor,
        cursor + field_bytes(s).len() <= body.len(),
        body.subrange(cursor, cursor + field_bytes(s).len()) == field_bytes(s),
        encode_utf8(s).len() <= u32::MAX,
    ensures
        field_bytes(s).len() == 4 + encode_utf8(s).len(),
        parse_field(body, cursor) == Ok::<(Seq<char>, int), Error>(
            (s, cursor + field_bytes(s).len()),
        ),
{
    broadcast use vstd::utf8::encode_utf8_valid_utf8, vstd::utf8::encode_utf8_decode_utf8;

    let enc = encode_utf8(s);
    let n = enc.len() as u32;
    crate::bytes::lemma_u32_be_roundtrip(n);
    let f = field_bytes(s);
    assert(body.subrange(cursor, cursor + 4) =~= f.subrange(0, 4));
    assert(f.subrange(0, 4) =~= u32_be(n));
    assert forall|j: int| 0 <= j < enc.len() implies body[cursor + 4 + j] == enc[j] by {
        assert(body.subrange(cursor, cursor + f.len())[4 + j] == f[4 + j]);
    }
    assert(body.subrange(cursor + 4, cursor + 4 + enc.len()) =~= enc);
}

/// Decoding an encoded frame gives back the record and consumes exactly the
/// frame, whatever bytes follow it. Records whose body length does not fit
/// in a `u32` are not encoded at all; a frame must also fit in memory.
pub proof fn lemma_frame_roundtrip(r: RecordView, rest: Seq<u8>)
    requires
        r.prev_hash.len() == HASH_LEN,
        r.hash.len() == HASH_LEN,
        body_len(r) <= u32::MAX,
        4 + body_len(r) <= usize::MAX,
    ensures
        frame_bytes(r).len() == 4 + body_len(r),
        parse_frame(frame_bytes(r) + rest) == Ok::<(RecordView, int), Error>(
            (r, frame_bytes(r).len() as int),
        ),
{
    let bl = body_len(r);
    let body = body_bytes(r);
    let b = frame_bytes(r) + rest;
    crate::bytes::lemma_u32_be_roundtrip(bl as u32);
    crate::bytes::lemma_u64_be_roundtrip(r.id);
    crate::bytes::lemma_u64_be_roundtrip(r.timestamp);
    lemma_outcome_code_roundtrip(r.outcome);

    let fa = field_bytes(r.actor);
    let fb = field_bytes(r.action);
    let ft = field_bytes(r.target);
    let c0 = RECORD_FIXED_LEN as int;
    let c1 = c0 + fa.len();
    let c2 = c1 + fb.len();
    let c3 = c2 + ft.len();
    assert(u32_be(bl as u32).len() == 4);
    assert(body.len() == c3);
    assert(body.len() == bl);
    assert(b.subrange(0, 4) =~= u32_be(bl as u32));
    assert(u32_from_be(b) == u32_from_be(b.subrange(0, 4)));
    assert(b.subrange(4, 4 + bl) =~= body);

    assert(body.subrange(0, 8) =~= u64_be(r.id));
    assert(u64_from_be(body) == u64_from_be(body.subrange(0, 8)));
    assert(body.subrange(8, 16) =~= u64_be(r.timestamp));
    assert(body[16] == outcome_code(r.outcome));
    assert(body.subrange(17, 49) =~= r.prev_hash);
    assert(body.subrange(49, 81) =~= r.hash);

    assert(body.subrange(c0, c1) =~= fa);
    lemma_field_roundtrip(body, c0, r.actor);
    assert(body.subrange(c1, c2) =~= fb);
    lemma_field_roundtrip(body, c1, r.action);
    assert(body.subrange(c2, c3) =~= ft);
    lemma_field_roundtrip(body, c2, r.target);
    assert(body_record(body, r.outcome, r.actor, r.action, r.target) == r);
}

} // verus!

verus! {

/// A frame cut short anywhere reads as `Truncated`.
pub proof fn lemma_truncated_frame(r: RecordView, k: int)
    requires
        r.prev_hash.len() == HASH_LEN,
        r.hash.len() == HASH_LEN,
        body_len(r) <= u32::MAX,
        4 + body_len(r) <= usize::MAX,
        0 <= k < frame_bytes(r).len(),
    ensures
        parse_frame(frame_bytes(r).take(k)) == Err::<(RecordView, int), Error>(Error::Truncated),
{
    lemma_frame_roundtrip(r, Seq::empty());
    let f = frame_bytes(r);
    let t = f.take(k);
    if k >= 4 {
        let bl = body_len(r);
        crate::bytes::lemma_u32_be_roundtrip(bl as u32);
        assert(u32_from_be(t) == u32_from_be(f));
        assert(f.subrange(0, 4) =~= u32_be(bl as u32));
        assert(u32_from_be(f) == u32_from_be(f.subrange(0, 4)));
    }
}

/// A string field that reads back was encoded canonically: the bytes it
/// spans are exactly the field's encoding.
pub proof fn lemma_parsed_field(body: Seq<u8>, cursor: int)
    requires
        0 <= cursor,
        parse_field(body, cursor) is Ok,
    ensures
        ({
            let (s, end) = parse_field(body, cursor)->Ok_0;
            &&& encode_utf8(s).len() <= u32::MAX
            &&& end == cursor + field_bytes(s).len()
            &&& body.subrange(cursor, end) == field_bytes(s)
        }),
{
    broadcast use vstd::utf8::decode_utf8_encode_utf8;

    let start = cursor + 4;
    let n = u32_from_be(body.subrange(cursor, start));
    let end = start + n as int;
    let bytes = body.subrange(start, end);
    let s = decode_utf8(bytes);
    assert(encode_utf8(s) == bytes);
    crate::bytes::lemma_u32_from_be_bytes(body.subrange(cursor, start));
    assert(body.subrange(cursor, start).subrange(0, 4) =~= body.subrange(cursor, start));
    assert(body.subrange(cursor, end) =~= u32_be(n) + bytes);
}

/// A body that decodes was encoded canonically: it is exactly the body
/// encoding of the record it decodes to.
pub proof fn lemma_parsed_body(body: Seq<u8>)
    requires
        parse_body(body) is Ok,
    ensures
        body == body_bytes(parse_body(body)->Ok_0),
        body.len() == body_len(parse_body(body)->Ok_0),
        parse_body(body)->Ok_0.prev_hash.len() == HASH_LEN,
        parse_body(body)->Ok_0.hash.len() == HASH_LEN,
{
    let r = parse_body(body)->Ok_0;
    let c0 = RECORD_FIXED_LEN as int;
    lemma_parsed_field(body, c0);
    let c1 = parse_field(body, c0)->Ok_0.1;
    lemma_parsed_field(body, c1);
    let c2 = parse_field(body, c1)->Ok_0.1;
    lemma_parsed_field(body, c2);
    crate::bytes::lemma_u64_from_be_bytes(body);
    crate::bytes::lemma_u64_from_be_bytes(body.subrange(8, 16));
    assert(body.subrange(8, 16).subrange(0, 8) =~= body.subrange(8, 16));
    assert(outcome_code(r.outcome) == body[16]);
    assert(body =~= body.subrange(0, 8) + body.subrange(8, 16) + seq![body[16]] + body.subrange(
        17,
        49,
    ) + body.subrange(49, 81) + body.subrange(c0, c1) + body.subrange(c1, c2) + body.subrange(
        c2,
        body.len() as int,
    ));
}

/// A frame that decodes holds its body length first, then a body that
/// decodes to the frame's record.
proof fn lemma_parse_frame_body(b: Seq<u8>)
    requires
        parse_frame(b) is Ok,
    ensures
        ({
            let n = 4 + u32_from_be(b) as int;
            &&& 4 <= n <= b.len()
            &&& n <= usize::MAX
            &&& parse_body(b.subrange(4, n)) is Ok
            &&& parse_frame(b)->Ok_0 == (parse_body(b.subrange(4, n))->Ok_0, n)
        }),
{
}

/// A frame that decodes was encoded canonically: the bytes it consumed are
/// exactly the frame encoding of the record it decodes to, a record with
/// hashes of digest length whose frame fits the format's limits.
pub proof fn lemma_parsed_frame(b: Seq<u8>)
    requires
        parse_frame(b) is Ok,
    ensures
        ({
            let (r, n) = parse_frame(b)->Ok_0;
            &&& b.take(n) == frame_bytes(r)
            &&& r.prev_hash.len() == HASH_LEN
            &&& r.hash.len() == HASH_LEN
            &&& body_len(r) <= u32::MAX
            &&& 4 + body_len(r) <= usize::MAX
        }),
{
    lemma_parse_frame_body(b);
    let n = 4 + u32_from_be(b) as int;
    lemma_parsed_body(b.subrange(4, n));
    lemma_canonical_frame(b, n, parse_body(b.subrange(4, n))->Ok_0);
}

/// Bytes holding a body length `n - 4` and then the body encoding of `r`
/// are exactly `r`'s frame.
proof fn lemma_canonical_frame(b: Seq<u8>, n: int, r: RecordView)
    requires
        4 <= n <= b.len(),
        n == 4 + u32_from_be(b),
        b.subrange(4, n) == body_bytes(r),
        n - 4 == body_len(r),
    ensures
        b.take(n) == frame_bytes(r),
{
    crate::bytes::lemma_u32_from_be_bytes(b);
    assert(u32_be(body_len(r) as u32) == b.subrange(0, 4));
    assert(b.take(n) =~= b.subrange(0, 4) + b.subrange(4, n));
}

/// Where each part of a record sits in its frame: the body length (u32
/// big-endian) at 0..4, then the id at 4..12 and the timestamp at 12..20
/// (u64 big-endian), the outcome code at 20, the previous hash at 21..53,
/// the hash at 53..85, and the actor, action and target fields after them,
/// in that order, to the end of the frame.
pub proof fn lemma_frame_layout(r: RecordView)
    requires
        r.prev_hash.len() == HASH_LEN,
        r.hash.len() == HASH_LEN,
        body_len(r) <= u32::MAX,
    ensures
        ({
            let f = frame_bytes(r);
            let a = 85 + field_bytes(r.actor).len() as int;
            let b = a + field_bytes(r.action).len() as int;
            &&& f.len() == 4 + body_len(r)
            &&& u32_from_be(f) == body_len(r)
            &&& u64_from_be(f.subrange(4, 12)) == r.id
            &&& u64_from_be(f.subrange(12, 20)) == r.timestamp
            &&& f[20] == outcome_code(r.outcome)
            &&& f.subrange(21, 53) == r.prev_hash
            &&& f.subrange(53, 85) == r.hash
            &&& f.subrange(85, a) == field_bytes(r.actor)
            &&& f.subrange(a, b) == field_bytes(r.action)
            &&& f.subrange(b, f.len() as int) == field_bytes(r.target)
        }),
{
    let f = frame_bytes(r);
    let bl = body_len(r);
    crate::bytes::lemma_u32_be_roundtrip(bl as u32);
    crate::bytes::lemma_u64_be_roundtrip(r.id);
    crate::bytes::lemma_u64_be_roundtrip(r.timestamp);
    let fa = field_bytes(r.actor);
    let fb = field_bytes(r.action);
    let ft = field_bytes(r.target);
    assert(fa.len() == 4 + encode_utf8(r.actor).len());
    assert(fb.len() == 4 + encode_utf8(r.action).len());
    assert(ft.len() == 4 + encode_utf8(r.target).len());
    let a = 85 + fa.len() as int;
    let b = a + fb.len() as int;
    assert(f.subrange(0, 4) =~= u32_be(bl as u32));
    assert(u32_from_be(f) == u32_from_be(f.subrange(0, 4)));
    assert(f.subrange(4, 12) =~= u64_be(r.id));
    assert(f.subrange(12, 20) =~= u64_be(r.timestamp));
    assert(f.subrange(21, 53) =~= r.prev_hash);
    assert(f.subrange(53, 85) =~= r.hash);
    assert(f.subrange(85, a) =~= fa);
    assert(f.subrange(a, b) =~= fb);
    assert(f.subrange(b, f.len() as int) =~= ft);
}

/// Decoding fails only as `Truncated` or `InvalidFormat`.
pub proof fn lemma_decode_errors(b: Seq<u8>)
    ensures
        parse_frame(b) matches Err(e) ==> (e == Error::Truncated || e == Error::InvalidFormat),
{
}

} // verus!
