use audit_trail::codec::{
    decode_record, encode_record, verify_file_header, write_file_header, FILE_HEADER_LEN,
    RECORD_FIXED_LEN,
};
use audit_trail::{Action, Actor, Digest, Error, Outcome, OwnedRecord, Record, RecordId, Target, Timestamp, HASH_LEN};

fn sample() -> OwnedRecord {
    OwnedRecord {
        id: RecordId::from_u64(0x0102_0304_0506_0708),
        timestamp: Timestamp::from_nanos(0x1112_1314_1516_1718),
        actor: String::from("é-actor"),
        action: String::from("do"),
        target: String::from("\u{1F600}"),
        outcome: Outcome::Error,
        prev_hash: Digest::from_bytes([0x21; HASH_LEN]),
        hash: Digest::from_bytes([0x22; HASH_LEN]),
    }
}

#[test]
fn frame_layout_is_exact() {
    let r = sample();
    let mut buf = vec![0xEE];
    encode_record(&r.as_record(), &mut buf).unwrap();
    assert_eq!(buf[0], 0xEE);
    let frame = &buf[1..];
    let actor_len = "é-actor".len();
    let body_len = RECORD_FIXED_LEN + 4 + actor_len + 4 + 2 + 4 + 4;
    assert_eq!(frame.len(), 4 + body_len);
    assert_eq!(&frame[0..4], &(body_len as u32).to_be_bytes());
    assert_eq!(&frame[4..12], &[1, 2, 3, 4, 5, 6, 7, 8]);
    assert_eq!(&frame[12..20], &[0x11, 0x12, 0x13, 0x14, 0x15, 0x16, 0x17, 0x18]);
    assert_eq!(frame[20], 3);
    assert_eq!(&frame[21..53], &[0x21; 32]);
    assert_eq!(&frame[53..85], &[0x22; 32]);
    assert_eq!(&frame[85..89], &(actor_len as u32).to_be_bytes());
    assert_eq!(&frame[89..89 + actor_len], "é-actor".as_bytes());
}

#[test]
fn non_ascii_record_round_trips_with_trailing_bytes() {
    let r = sample();
    let mut buf = Vec::new();
    encode_record(&r.as_record(), &mut buf).unwrap();
    let len = buf.len();
    buf.extend_from_slice(&[9, 9, 9]);
    let (decoded, consumed) = decode_record(&buf).unwrap();
    assert_eq!(consumed, len);
    assert_eq!(decoded, r);
}

#[test]
fn every_proper_prefix_is_truncated() {
    let r = sample();
    let mut buf = Vec::new();
    encode_record(&r.as_record(), &mut buf).unwrap();
    for k in 0..buf.len() {
        assert_eq!(decode_record(&buf[..k]), Err(Error::Truncated), "prefix {k}");
    }
}

#[test]
fn body_shorter_than_fixed_prefix_is_invalid() {
    let mut buf = vec![0, 0, 0, 10];
    buf.extend_from_slice(&[0u8; 10]);
    assert_eq!(decode_record(&buf), Err(Error::InvalidFormat));
}

#[test]
fn string_length_past_body_is_invalid() {
    let r = sample();
    let mut buf = Vec::new();
    encode_record(&r.as_record(), &mut buf).unwrap();
    buf[4 + RECORD_FIXED_LEN + 3] = 0xFF;
    assert_eq!(decode_record(&buf), Err(Error::InvalidFormat));
}

#[test]
fn extra_bytes_inside_body_are_invalid() {
    let r = sample();
    let mut buf = Vec::new();
    encode_record(&r.as_record(), &mut buf).unwrap();
    buf[3] += 1;
    buf.push(0);
    assert_eq!(decode_record(&buf), Err(Error::InvalidFormat));
}

#[test]
fn header_is_checked_only_at_the_front() {
    let mut buf = Vec::new();
    write_file_header(&mut buf);
    assert_eq!(buf.len(), FILE_HEADER_LEN);
    assert_eq!(&buf[9..16], &[0u8; 7]);
    buf.extend_from_slice(b"anything");
    assert_eq!(verify_file_header(&buf), Ok(()));
    assert_eq!(verify_file_header(&buf[..15]), Err(Error::Truncated));
}

#[test]
fn owned_and_borrowed_records_convert_both_ways() {
    let r = sample();
    let borrowed: Record<'_> = r.as_record();
    assert_eq!(OwnedRecord::from_record(&borrowed), r);
    assert_eq!(OwnedRecord::from(&borrowed), r);
    let b2 = Record::new(
        r.id,
        r.timestamp,
        Actor::new(&r.actor),
        Action::new(&r.action),
        Target::new(&r.target),
        r.outcome,
        r.prev_hash,
        r.hash,
    );
    assert_eq!(b2, borrowed);
}

#[test]
fn frame_record_replaces_the_scratch_buffer() {
    let r = sample();
    let mut scratch = vec![1, 2, 3];
    audit_trail::frame_record(&r.as_record(), &mut scratch).unwrap();
    let mut expected = Vec::new();
    encode_record(&r.as_record(), &mut expected).unwrap();
    assert_eq!(scratch, expected);
    let (decoded, n) = decode_record(&scratch).unwrap();
    assert_eq!(n, scratch.len());
    assert_eq!(decoded, r);
}

#[test]
fn hand_built_frame_decodes_and_re_encodes_to_the_same_bytes() {
    let mut body = Vec::new();
    body.extend_from_slice(&7u64.to_be_bytes());
    body.extend_from_slice(&9u64.to_be_bytes());
    body.push(2);
    body.extend_from_slice(&[0x31; 32]);
    body.extend_from_slice(&[0x32; 32]);
    for s in ["ü", "", "xyz"] {
        body.extend_from_slice(&(s.len() as u32).to_be_bytes());
        body.extend_from_slice(s.as_bytes());
    }
    let mut frame = (body.len() as u32).to_be_bytes().to_vec();
    frame.extend_from_slice(&body);
    let mut input = frame.clone();
    input.extend_from_slice(&[1, 2]);

    let (decoded, consumed) = decode_record(&input).unwrap();
    assert_eq!(consumed, frame.len());
    assert_eq!(decoded.outcome, Outcome::Denied);
    assert_eq!(decoded.actor, "ü");
    let mut again = Vec::new();
    encode_record(&decoded.as_record(), &mut again).unwrap();
    assert_eq!(again, frame);
}
