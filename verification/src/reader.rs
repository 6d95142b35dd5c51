//! Decisions of a streaming reader over a chain file.
//!
//! Reading a chain file alternates input and decisions: read the header,
//! check it; read a frame's length prefix, decide whether the stream ended
//! cleanly (no byte of a further frame) or mid-record; read the frame,
//! decode it. The input is done by the caller;
//! [`ReaderMachine`] takes what each read produced and says what follows.
use vstd::prelude::*;

use crate::bytes::u32_from_be;
use crate::codec::{decode_record, header_check, parse_frame};
use crate::error::{Error, Result};
use crate::owned::OwnedRecord;
use crate::record::RecordView;

verus! {

/// How an attempt to fill a buffer completely from the input ended.
#[derive(Copy, Clone, Debug, PartialEq, Eq)]
pub enum ReadStatus {
    /// The buffer was filled.
    Filled,
    /// The input was already at its end: not a byte was read.
    AtEnd,
    /// The input ended after part of the buffer was filled.
    EndOfInput,
    /// The input failed for another reason.
    Failed,
}

/// Where a reader stands.
#[derive(Copy, Clone, Debug, PartialEq, Eq)]
pub enum ReaderPhase {
    /// The header has not been read yet.
    Fresh,
    /// The header was accepted; records follow.
    Reading,
    /// The stream ended, cleanly or at an error; nothing more is yielded.
    Done,
}

/// What a length prefix read leads to.
#[derive(Copy, Clone, Debug, PartialEq, Eq)]
pub enum PrefixOutcome {
    /// The input ended cleanly between records.
    End,
    /// The stream ends with this error.
    Fail(Error),
    /// Read a frame of this many bytes (prefix included) next.
    ReadFrame(usize),
}

/// The header check after trying to read the header: a short or empty
/// input is `Truncated`, another input failure is `Io`.
pub open spec fn header_result(status: ReadStatus, header: Seq<u8>) -> core::result::Result<
    (),
    Error,
> {
    match status {
        ReadStatus::Filled => header_check(header),
        ReadStatus::AtEnd | ReadStatus::EndOfInput => Err(Error::Truncated),
        ReadStatus::Failed => Err(Error::Io),
    }
}

/// What reading a length prefix leads to: a clean end when the input had
/// ended before it, `Truncated` when it ended inside it (mid-record), `Io`
/// when it failed, else a frame of `4 + body length` bytes, refused as
/// `InvalidFormat` when that length does not fit in memory.
pub open spec fn prefix_outcome(status: ReadStatus, prefix: Seq<u8>) -> PrefixOutcome {
    match status {
        ReadStatus::AtEnd => PrefixOutcome::End,
        ReadStatus::EndOfInput => PrefixOutcome::Fail(Error::Truncated),
        ReadStatus::Failed => PrefixOutcome::Fail(Error::Io),
        ReadStatus::Filled => if 4 + u32_from_be(prefix) > usize::MAX {
            PrefixOutcome::Fail(Error::InvalidFormat)
        } else {
            PrefixOutcome::ReadFrame((4 + u32_from_be(prefix)) as usize)
        },
    }
}

/// The record a frame read yields: `Truncated` when the input ended (the
/// length prefix was already read, so this is mid-record), `Io`
/// when it failed, else the decoded frame, which must span the whole buffer.
#[verifier::opaque]
pub open spec fn frame_result(status: ReadStatus, frame: Seq<u8>) -> core::result::Result<
    RecordView,
    Error,
> {
    match status {
        ReadStatus::AtEnd | ReadStatus::EndOfInput => Err(Error::Truncated),
        ReadStatus::Failed => Err(Error::Io),
        ReadStatus::Filled => match parse_frame(frame) {
            Ok((r, n)) => if n == frame.len() {
                Ok(r)
            } else {
                Err(Error::InvalidFormat)
            },
            Err(e) => Err(e),
        },
    }
}

/// The decision half of a chain-file reader.
#[derive(Copy, Clone, Debug, PartialEq, Eq)]
pub struct ReaderMachine {
    phase: ReaderPhase,
}

impl View for ReaderMachine {
    type V = ReaderPhase;

    closed spec fn view(&self) -> ReaderPhase {
        self.phase
    }
}

impl ReaderMachine {
    /// A reader that has not read the header yet.
    pub fn new() -> (m: ReaderMachine)
        ensures
            m@ == ReaderPhase::Fresh,
    {
        ReaderMachine { phase: ReaderPhase::Fresh }
    }

    /// Where the reader stands.
    pub fn phase(&self) -> (p: ReaderPhase)
        ensures
            p == self@,
    {
        self.phase
    }

    /// Take the result of reading the header. On success records follow;
    /// on failure the stream is done and yields the error.
    pub fn header_read(&mut self, status: ReadStatus, header: &[u8]) -> (r: Result<()>)
        requires
            old(self)@ == ReaderPhase::Fresh,
        ensures
            r == header_result(status, header@),
            final(self)@ == (if r is Ok {
                ReaderPhase::Reading
            } else {
                ReaderPhase::Done
            }),
    {
        let r = match status {
            ReadStatus::Filled => crate::codec::verify_file_header(header),
            ReadStatus::AtEnd | ReadStatus::EndOfInput => Err(Error::Truncated),
            ReadStatus::Failed => Err(Error::Io),
        };
        self.phase = match r {
            Ok(()) => ReaderPhase::Reading,
            Err(_) => ReaderPhase::Done,
        };
        r
    }

    /// Take the result of reading a frame's 4-byte length prefix. Unless a
    /// frame is to be read next, the stream is done.
    pub fn prefix_read(&mut self, status: ReadStatus, prefix: &[u8]) -> (o: PrefixOutcome)
        requires
            old(self)@ == ReaderPhase::Reading,
            status == ReadStatus::Filled ==> prefix@.len() >= 4,
        ensures
            o == prefix_outcome(status, prefix@),
            final(self)@ == (if o is ReadFrame {
                ReaderPhase::Reading
            } else {
                ReaderPhase::Done
            }),
    {
        let o = match status {
            ReadStatus::AtEnd => PrefixOutcome::End,
            ReadStatus::EndOfInput => PrefixOutcome::Fail(Error::Truncated),
            ReadStatus::Failed => PrefixOutcome::Fail(Error::Io),
            ReadStatus::Filled => {
                let body_len = ((prefix[0] as u32) << 24u32 | (prefix[1] as u32) << 16u32 | (
                prefix[2] as u32) << 8u32 | (prefix[3] as u32)) as usize;
                match 4usize.checked_add(body_len) {
                    Some(n) => PrefixOutcome::ReadFrame(n),
                    None => PrefixOutcome::Fail(Error::InvalidFormat),
                }
            },
        };
        match o {
            PrefixOutcome::ReadFrame(_) => {},
            _ => self.phase = ReaderPhase::Done,
        }
        o
    }

    /// Take the result of reading a whole frame (length prefix included).
    /// A decoded record keeps the stream going; an error ends it.
    pub fn frame_read(&mut self, status: ReadStatus, frame: &[u8]) -> (r: Result<OwnedRecord>)
        requires
            old(self)@ == ReaderPhase::Reading,
        ensures
            match frame_result(status, frame@) {
                Ok(v) => r matches Ok(rec) && rec@ == v && final(self)@ == ReaderPhase::Reading,
                Err(e) => r matches Err(f) && f == e && final(self)@ == ReaderPhase::Done,
            },
    {
        proof {
            reveal(frame_result);
        }
        let r = match status {
            ReadStatus::AtEnd | ReadStatus::EndOfInput => Err(Error::Truncated),
            ReadStatus::Failed => Err(Error::Io),
            ReadStatus::Filled => match decode_record(frame) {
                Ok((record, consumed)) => if consumed == frame.len() {
                    Ok(record)
                } else {
                    Err(Error::InvalidFormat)
                },
                Err(e) => Err(e),
            },
        };
        if r.is_err() {
            self.phase = ReaderPhase::Done;
        }
        r
    }
}

} // verus!

verus! {

/// What a reader driven by [`ReaderMachine`] yields from an input holding
/// `bytes` after the header, when every read gets the next bytes of the
/// input (a read past the end gets what is left): the records, then the
/// error that ends the stream, or `None` for a clean end, which comes only
/// where the input ends exactly after a frame.
#[verifier::opaque]
pub open spec fn records_from(bytes: Seq<u8>) -> (Seq<RecordView>, Option<Error>)
    decreases bytes.len(),
{
    if bytes.len() == 0 {
        (Seq::empty(), None)
    } else if bytes.len() < 4 {
        (Seq::empty(), Some(Error::Truncated))
    } else {
        match prefix_outcome(ReadStatus::Filled, bytes) {
            PrefixOutcome::ReadFrame(n) => if bytes.len() < n {
                (Seq::empty(), Some(Error::Truncated))
            } else {
                match frame_result(ReadStatus::Filled, bytes.take(n as int)) {
                    Ok(r) => {
                        let (rs, end) = records_from(bytes.skip(n as int));
                        (seq![r] + rs, end)
                    },
                    Err(e) => (Seq::empty(), Some(e)),
                }
            },
            PrefixOutcome::Fail(e) => (Seq::empty(), Some(e)),
            PrefixOutcome::End => (Seq::empty(), None),
        }
    }
}

/// What a reader yields from a whole file: the header check, then the
/// records after it.
pub open spec fn file_records(file: Seq<u8>) -> (Seq<RecordView>, Option<Error>) {
    if file.len() < crate::codec::FILE_HEADER_LEN {
        (Seq::empty(), Some(Error::Truncated))
    } else {
        match header_result(ReadStatus::Filled, file.take(crate::codec::FILE_HEADER_LEN as int)) {
            Err(e) => (Seq::empty(), Some(e)),
            Ok(()) => records_from(file.skip(crate::codec::FILE_HEADER_LEN as int)),
        }
    }
}

/// The frames of `rs`, one after the other.
pub open spec fn frames(rs: Seq<RecordView>) -> Seq<u8>
    decreases rs.len(),
{
    if rs.len() == 0 {
        Seq::empty()
    } else {
        crate::codec::frame_bytes(rs[0]) + frames(rs.drop_first())
    }
}

/// A record that can be written as a frame: hashes of digest length and a
/// body whose length fits in a `u32` (and, with its prefix, in memory).
pub open spec fn encodable(r: RecordView) -> bool {
    &&& r.prev_hash.len() == crate::hash::HASH_LEN
    &&& r.hash.len() == crate::hash::HASH_LEN
    &&& crate::codec::body_len(r) <= u32::MAX
    &&& 4 + crate::codec::body_len(r) <= usize::MAX
}

/// The length prefix of a frame, whatever follows it, asks for exactly that
/// frame.
proof fn lemma_frame_prefix(r: RecordView, rest: Seq<u8>)
    requires
        encodable(r),
    ensures
        crate::codec::frame_bytes(r).len() >= 4,
        prefix_outcome(ReadStatus::Filled, crate::codec::frame_bytes(r) + rest)
            == PrefixOutcome::ReadFrame(crate::codec::frame_bytes(r).len() as usize),
{
    let f = crate::codec::frame_bytes(r);
    let b = f + rest;
    let bl = crate::codec::body_len(r);
    assert(f.len() == 4 + bl) by {
        crate::codec::lemma_frame_roundtrip(r, Seq::empty());
    }
    crate::bytes::lemma_u32_be_roundtrip(bl as u32);
    assert(b.subrange(0, 4) =~= crate::bytes::u32_be(bl as u32));
    assert(u32_from_be(b) == u32_from_be(b.subrange(0, 4)));
}

/// A whole frame, read on its own, yields its record.
proof fn lemma_frame_result(r: RecordView)
    requires
        encodable(r),
    ensures
        frame_result(ReadStatus::Filled, crate::codec::frame_bytes(r)) == Ok::<RecordView, Error>(r),
{
    let f = crate::codec::frame_bytes(r);
    crate::codec::lemma_frame_roundtrip(r, Seq::empty());
    assert(f + Seq::<u8>::empty() =~= f);
    reveal(frame_result);
}

/// A frame followed by more input reads back as its record, then as what
/// that input reads back as.
pub proof fn lemma_frame_read_step(r: RecordView, rest: Seq<u8>)
    requires
        encodable(r),
    ensures
        records_from(crate::codec::frame_bytes(r) + rest) == (
            seq![r] + records_from(rest).0,
            records_from(rest).1,
        ),
{
    let f = crate::codec::frame_bytes(r);
    let b = f + rest;
    let n = f.len() as int;
    lemma_frame_prefix(r, rest);
    lemma_frame_result(r);
    assert(b.take(n) =~= f);
    assert(b.skip(n) =~= rest);
    reveal_with_fuel(records_from, 1);
}

/// Frames written one after another read back as the same records, in
/// order, ending cleanly.
pub proof fn lemma_frames_read_back(rs: Seq<RecordView>)
    requires
        forall|i: int| 0 <= i < rs.len() ==> encodable(#[trigger] rs[i]),
    ensures
        records_from(frames(rs)) == (rs, None::<Error>),
    decreases rs.len(),
{
    if rs.len() > 0 {
        assert(encodable(rs[0]));
        assert forall|i: int| 0 <= i < rs.drop_first().len() implies encodable(
            #[trigger] rs.drop_first()[i],
        ) by {
            assert(encodable(rs[i + 1]));
        }
        lemma_frames_read_back(rs.drop_first());
        lemma_frame_read_step(rs[0], frames(rs.drop_first()));
        assert(seq![rs[0]] + rs.drop_first() =~= rs);
    } else {
        assert(frames(rs).len() == 0);
        reveal_with_fuel(records_from, 1);
    }
}

/// Input that ends inside a frame, before its last byte, reads as
/// `Truncated`, whether it ends inside the length prefix or after it.
pub proof fn lemma_cut_frame(r: RecordView, k: int)
    requires
        encodable(r),
        0 < k < crate::codec::frame_bytes(r).len(),
    ensures
        records_from(crate::codec::frame_bytes(r).take(k)) == (
            Seq::<RecordView>::empty(),
            Some(Error::Truncated),
        ),
{
    let f = crate::codec::frame_bytes(r);
    let cut = f.take(k);
    lemma_frame_prefix(r, Seq::empty());
    assert(f + Seq::<u8>::empty() =~= f);
    if k >= 4 {
        assert(cut.subrange(0, 4) =~= f.subrange(0, 4));
        assert(u32_from_be(cut) == u32_from_be(cut.subrange(0, 4)));
        assert(u32_from_be(f) == u32_from_be(f.subrange(0, 4)));
    }
    reveal_with_fuel(records_from, 1);
}

/// Frames written one after another, then input that ends inside a further
/// frame, read back as the complete records, then `Truncated`.
pub proof fn lemma_truncated_tail(rs: Seq<RecordView>, r: RecordView, k: int)
    requires
        forall|i: int| 0 <= i < rs.len() ==> encodable(#[trigger] rs[i]),
        encodable(r),
        0 < k < crate::codec::frame_bytes(r).len(),
    ensures
        records_from(frames(rs) + crate::codec::frame_bytes(r).take(k)) == (
            rs,
            Some(Error::Truncated),
        ),
    decreases rs.len(),
{
    let cut = crate::codec::frame_bytes(r).take(k);
    if rs.len() > 0 {
        assert(encodable(rs[0]));
        assert forall|i: int| 0 <= i < rs.drop_first().len() implies encodable(
            #[trigger] rs.drop_first()[i],
        ) by {
            assert(encodable(rs[i + 1]));
        }
        lemma_truncated_tail(rs.drop_first(), r, k);
        lemma_frame_read_step(rs[0], frames(rs.drop_first()) + cut);
        assert(frames(rs) + cut =~= crate::codec::frame_bytes(rs[0]) + (frames(rs.drop_first())
            + cut));
        assert(seq![rs[0]] + rs.drop_first() =~= rs);
    } else {
        assert(frames(rs) + cut =~= cut);
        lemma_cut_frame(r, k);
    }
}

/// A file that starts with a header the check accepts (any reserved bytes)
/// followed by the frames of `rs` reads back as exactly `rs`, ending
/// cleanly.
pub proof fn lemma_file_read_back(header: Seq<u8>, rs: Seq<RecordView>)
    requires
        header.len() == crate::codec::FILE_HEADER_LEN,
        crate::codec::header_check(header) is Ok,
        forall|i: int| 0 <= i < rs.len() ==> encodable(#[trigger] rs[i]),
    ensures
        file_records(header + frames(rs)) == (rs, None::<Error>),
{
    let file = header + frames(rs);
    assert(file.take(16) =~= header);
    assert(file.skip(16) =~= frames(rs));
    lemma_frames_read_back(rs);
}

/// The header the library writes passes the check.
pub proof fn lemma_written_header_accepted()
    ensures
        crate::codec::header_bytes().len() == crate::codec::FILE_HEADER_LEN,
        crate::codec::header_check(crate::codec::header_bytes()) is Ok,
{
    crate::codec::lemma_header_roundtrip(Seq::empty());
    assert(crate::codec::header_bytes() + Seq::<u8>::empty() =~= crate::codec::header_bytes());
}

} // verus!
