use audit_trail::codec::{encode_record, write_file_header};
use audit_trail::{
    Chain, Clock, MemorySink, Sha256Hasher, Action, Actor, Digest, Error, Outcome, PrefixOutcome, ReadStatus, ReaderMachine, ReaderPhase,
    Record, RecordId, Target, Timestamp,
};

fn frame() -> Vec<u8> {
    let r = Record::new(
        RecordId::from_u64(3),
        Timestamp::from_nanos(4),
        Actor::new("a"),
        Action::new("b"),
        Target::new("c"),
        Outcome::Denied,
        Digest::zero(),
        Digest::zero(),
    );
    let mut buf = Vec::new();
    encode_record(&r, &mut buf).unwrap();
    buf
}

#[test]
fn header_read_outcomes() {
    let mut header = Vec::new();
    write_file_header(&mut header);

    let mut m = ReaderMachine::new();
    assert_eq!(m.phase(), ReaderPhase::Fresh);
    assert_eq!(m.header_read(ReadStatus::Filled, &header), Ok(()));
    assert_eq!(m.phase(), ReaderPhase::Reading);

    let mut m = ReaderMachine::new();
    assert_eq!(m.header_read(ReadStatus::EndOfInput, &[]), Err(Error::Truncated));
    assert_eq!(m.phase(), ReaderPhase::Done);

    let mut m = ReaderMachine::new();
    assert_eq!(m.header_read(ReadStatus::AtEnd, &[]), Err(Error::Truncated));
    assert_eq!(m.phase(), ReaderPhase::Done);

    let mut m = ReaderMachine::new();
    assert_eq!(m.header_read(ReadStatus::Failed, &[]), Err(Error::Io));
    assert_eq!(m.phase(), ReaderPhase::Done);

    let mut m = ReaderMachine::new();
    assert_eq!(
        m.header_read(ReadStatus::Filled, b"NOTAUDIT\x00\x00\x00\x00\x00\x00\x00\x00"),
        Err(Error::InvalidFormat)
    );
    assert_eq!(m.phase(), ReaderPhase::Done);
}

fn reading() -> ReaderMachine {
    let mut header = Vec::new();
    write_file_header(&mut header);
    let mut m = ReaderMachine::new();
    m.header_read(ReadStatus::Filled, &header).unwrap();
    m
}

#[test]
fn prefix_read_outcomes() {
    let mut m = reading();
    assert_eq!(m.prefix_read(ReadStatus::AtEnd, &[]), PrefixOutcome::End);
    assert_eq!(m.phase(), ReaderPhase::Done);

    let mut m = reading();
    assert_eq!(m.prefix_read(ReadStatus::EndOfInput, &[]), PrefixOutcome::Fail(Error::Truncated));
    assert_eq!(m.phase(), ReaderPhase::Done);

    let mut m = reading();
    assert_eq!(m.prefix_read(ReadStatus::Failed, &[]), PrefixOutcome::Fail(Error::Io));
    assert_eq!(m.phase(), ReaderPhase::Done);

    let mut m = reading();
    assert_eq!(m.prefix_read(ReadStatus::Filled, &[0, 0, 1, 2]), PrefixOutcome::ReadFrame(4 + 258));
    assert_eq!(m.phase(), ReaderPhase::Reading);
}

#[test]
fn frame_read_outcomes() {
    let f = frame();
    let mut m = reading();
    let r = m.frame_read(ReadStatus::Filled, &f).unwrap();
    assert_eq!(r.id, RecordId::from_u64(3));
    assert_eq!(r.target, "c");
    assert_eq!(m.phase(), ReaderPhase::Reading);

    let mut longer = f.clone();
    longer.push(0);
    let mut m = reading();
    assert_eq!(m.frame_read(ReadStatus::Filled, &longer), Err(Error::InvalidFormat));
    assert_eq!(m.phase(), ReaderPhase::Done);

    let mut m = reading();
    assert_eq!(m.frame_read(ReadStatus::EndOfInput, &f), Err(Error::Truncated));
    assert_eq!(m.phase(), ReaderPhase::Done);

    let mut m = reading();
    assert_eq!(m.frame_read(ReadStatus::AtEnd, &f), Err(Error::Truncated));
    assert_eq!(m.phase(), ReaderPhase::Done);

    let mut m = reading();
    assert_eq!(m.frame_read(ReadStatus::Failed, &f), Err(Error::Io));
}

/// Drive a reader over an in-memory input, the way a file reader does.
fn read_all(input: &[u8]) -> (Vec<audit_trail::OwnedRecord>, Option<Error>) {
    let mut pos = 0usize;
    let mut take = |n: usize| -> (ReadStatus, Vec<u8>) {
        if input.len() - pos >= n {
            let out = input[pos..pos + n].to_vec();
            pos += n;
            (ReadStatus::Filled, out)
        } else if pos == input.len() {
            (ReadStatus::AtEnd, vec![0; n])
        } else {
            pos = input.len();
            (ReadStatus::EndOfInput, vec![0; n])
        }
    };
    let mut m = ReaderMachine::new();
    let mut out = Vec::new();
    loop {
        match m.phase() {
            ReaderPhase::Fresh => {
                let (st, h) = take(16);
                if let Err(e) = m.header_read(st, &h) {
                    return (out, Some(e));
                }
            }
            ReaderPhase::Reading => {
                let (st, p) = take(4);
                match m.prefix_read(st, &p) {
                    PrefixOutcome::End => return (out, None),
                    PrefixOutcome::Fail(e) => return (out, Some(e)),
                    PrefixOutcome::ReadFrame(n) => {
                        let (st, rest) = take(n - 4);
                        let mut f = p.clone();
                        f.extend_from_slice(&rest);
                        match m.frame_read(st, &f) {
                            Ok(r) => out.push(r),
                            Err(e) => return (out, Some(e)),
                        }
                    }
                }
            }
            ReaderPhase::Done => return (out, None),
        }
    }
}

fn file_of(records: &[audit_trail::OwnedRecord]) -> Vec<u8> {
    let mut buf = Vec::new();
    write_file_header(&mut buf);
    for r in records {
        encode_record(&r.as_record(), &mut buf).unwrap();
    }
    buf
}

struct Tick(std::cell::Cell<u64>);

impl Clock for Tick {
    fn now(&self) -> Timestamp {
        let v = self.0.get();
        self.0.set(v + 1);
        Timestamp::from_nanos(v)
    }
}

fn chain_records() -> Vec<audit_trail::OwnedRecord> {
    let mut chain = Chain::new(Sha256Hasher::new(), MemorySink::new(), Tick(std::cell::Cell::new(1)));
    chain.append(Actor::new("system"), Action::new("chain.init"), Target::new("chain:0"), Outcome::Success).unwrap();
    chain.append(Actor::new("user-1"), Action::new("user.login"), Target::new("session:abc"), Outcome::Success).unwrap();
    chain.append(Actor::new("user-1"), Action::new("record.delete"), Target::new("record:42"), Outcome::Denied).unwrap();
    chain.into_parts().1.into_records()
}

#[test]
fn written_file_reads_back_and_verifies() {
    let records = chain_records();
    let (read, end) = read_all(&file_of(&records));
    assert_eq!(end, None);
    assert_eq!(read, records);
    let mut v = audit_trail::Verifier::new(audit_trail::Sha256Hasher::new());
    for r in &read {
        v.verify(&r.as_record()).unwrap();
    }
    assert_eq!(v.next_id(), RecordId::from_u64(3));
}

#[test]
fn truncated_file_tail_reads_as_truncated() {
    let records = chain_records();
    let mut file = file_of(&records);
    file.truncate(file.len() - 5);
    let (read, end) = read_all(&file);
    assert_eq!(read.len(), 2);
    assert_eq!(end, Some(Error::Truncated));
}

#[test]
fn bad_header_file_yields_only_the_error() {
    let (read, end) = read_all(b"NOTAUDIT\x00\x00\x00\x00\x00\x00\x00\x00");
    assert!(read.is_empty());
    assert_eq!(end, Some(Error::InvalidFormat));
    let (read, end) = read_all(b"AUDT");
    assert!(read.is_empty());
    assert_eq!(end, Some(Error::Truncated));
}

#[test]
fn partial_length_prefix_is_truncated() {
    let records = chain_records();
    for cut in 1..4 {
        let mut file = file_of(&records[..1]);
        file.extend_from_slice(&[0, 0, 0, 0][..cut]);
        let (read, end) = read_all(&file);
        assert_eq!(read.len(), 1);
        assert_eq!(end, Some(Error::Truncated));
    }
}

#[test]
fn file_ending_after_a_frame_is_a_clean_end() {
    let records = chain_records();
    let (read, end) = read_all(&file_of(&records[..2]));
    assert_eq!(read.len(), 2);
    assert_eq!(end, None);
}
