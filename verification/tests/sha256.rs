use audit_trail::{Digest, Hasher, Sha256Hasher};

fn digest_hex(input: &[&[u8]]) -> String {
    let mut h = Sha256Hasher::new();
    h.reset();
    for part in input {
        h.update(part);
    }
    let mut out = Digest::zero();
    h.finalize(&mut out);
    out.to_hex()
}

#[test]
fn sha256_of_abc_matches_the_standard_vector() {
    assert_eq!(
        digest_hex(&[b"abc"]),
        "ba7816bf8f01cfea414140de5dae2223b00361a396177a9cb410ff61f20015ad"
    );
}

#[test]
fn sha256_of_nothing_matches_the_standard_vector() {
    assert_eq!(
        digest_hex(&[]),
        "e3b0c44298fc1c149afbf4c8996fb92427ae41e4649b934ca495991b7852b855"
    );
}

#[test]
fn split_updates_hash_like_one_update() {
    assert_eq!(digest_hex(&[b"au", b"dit-", b"trail"]), digest_hex(&[b"audit-trail"]));
    assert_ne!(digest_hex(&[b"audit-trail"]), digest_hex(&[b"audit-trai"]));
}

#[test]
fn finalize_starts_a_fresh_input() {
    let mut h = Sha256Hasher::default();
    h.update(b"abc");
    let mut first = Digest::zero();
    h.finalize(&mut first);
    h.update(b"abc");
    let mut second = Digest::zero();
    h.finalize(&mut second);
    assert_eq!(first, second);
    assert_ne!(first, Digest::zero());
}
