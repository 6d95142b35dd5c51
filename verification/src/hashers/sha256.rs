//! SHA-256 [`Hasher`] backed by the `sha2` crate.
use vstd::prelude::*;

use crate::bytes::append_bytes;
use crate::hash::{Digest, Hasher};

verus! {

/// The SHA-256 digest (FIPS 180-4) of a byte string.
pub uninterp spec fn sha256_of(input: Seq<u8>) -> Seq<u8>;

/// Wraps `sha2::Sha256::digest` (one-shot hashing through the `Digest`
/// trait): the 32-byte SHA-256 digest of `data`, which depends on `data`
/// alone. Nothing more is stated of the value.
#[verifier::external_body]
fn sha256_digest(data: &[u8]) -> (d: [u8; 32])
    ensures
        d@ == sha256_of(data@),
{
    <sha2::Sha256 as sha2::Digest>::digest(data).into()
}

/// SHA-256 [`Hasher`]. Absorbed bytes are kept in a buffer that is reused
/// across records; `finalize` hashes them and starts a fresh input.
#[derive(Clone, Debug)]
pub struct Sha256Hasher {
    input: Vec<u8>,
}

impl Sha256Hasher {
    /// A fresh hasher with nothing absorbed.
    pub fn new() -> (h: Sha256Hasher)
        ensures
            h.absorbed() == Seq::<u8>::empty(),
    {
        Sha256Hasher { input: Vec::new() }
    }
}

impl Default for Sha256Hasher {
    fn default() -> (h: Sha256Hasher)
        ensures
            h.absorbed() == Seq::<u8>::empty(),
    {
        Sha256Hasher::new()
    }
}

impl Hasher for Sha256Hasher {
    closed spec fn absorbed(&self) -> Seq<u8> {
        self.input@
    }

    /// The digest is the SHA-256 digest of the absorbed bytes.
    open spec fn digest_of(input: Seq<u8>) -> Seq<u8> {
        sha256_of(input)
    }

    fn reset(&mut self) {
        self.input.clear();
    }

    fn update(&mut self, bytes: &[u8]) {
        append_bytes(&mut self.input, bytes);
    }

    /// Write the digest and start a fresh input.
    fn finalize(&mut self, out: &mut Digest)
        ensures
            final(self).absorbed() == Seq::<u8>::empty(),
    {
        *out = Digest::from_bytes(sha256_digest(self.input.as_slice()));
        self.input.clear();
    }
}

} // verus!
