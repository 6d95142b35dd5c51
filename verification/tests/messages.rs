use audit_trail::{Digest, Error, RecordId, SinkError, HASH_LEN};

#[test]
fn error_messages() {
    assert_eq!(Error::ChainBroken.to_string(), "audit hash chain broken");
    assert_eq!(Error::Sink(SinkError::Io).to_string(), "audit sink failure");
    assert_eq!(Error::Capacity.to_string(), "audit capacity exceeded");
    assert_eq!(Error::NonMonotonicClock.to_string(), "audit clock not monotonic");
    assert_eq!(
        Error::HashMismatch(RecordId::from_u64(42)).to_string(),
        "audit hash mismatch at record 42"
    );
    assert_eq!(
        Error::LinkMismatch(RecordId::from_u64(0)).to_string(),
        "audit link mismatch at record 0"
    );
    assert_eq!(
        Error::IdMismatch(RecordId::from_u64(u64::MAX)).to_string(),
        "audit id mismatch at record 18446744073709551615"
    );
    assert_eq!(Error::Truncated.to_string(), "audit input truncated");
    assert_eq!(Error::InvalidFormat.to_string(), "audit input invalid format");
    assert_eq!(Error::Io.to_string(), "audit i/o failure");
}

#[test]
fn sink_error_messages() {
    assert_eq!(SinkError::Io.to_string(), "sink i/o failure");
    assert_eq!(SinkError::Capacity.to_string(), "sink capacity exceeded");
    assert_eq!(SinkError::Closed.to_string(), "sink closed");
    assert_eq!(SinkError::Other.to_string(), "sink error");
}

#[test]
fn sink_errors_convert_and_are_the_source() {
    let e: Error = SinkError::Closed.into();
    assert_eq!(e, Error::Sink(SinkError::Closed));
    assert_eq!(e.source(), Some(SinkError::Closed));
    assert_eq!(Error::Truncated.source(), None);
}

#[test]
fn digest_hex_rendering() {
    assert_eq!(Digest::from_bytes([0xAB; HASH_LEN]).to_hex(), "ab".repeat(32));
    let mut bytes = [0u8; HASH_LEN];
    bytes[0] = 0x01;
    bytes[31] = 0xf0;
    let h = Digest::from_bytes(bytes).to_hex();
    assert_eq!(h.len(), 64);
    assert!(h.starts_with("01"));
    assert!(h.ends_with("f0"));
    assert_eq!(Digest::default(), Digest::zero());
    assert_eq!(Digest::zero().into_bytes(), [0u8; HASH_LEN]);
}
