//! Fixed-size digests and the pluggable [`Hasher`] trait.
use vstd::prelude::*;

use crate::text::{hex, push_hex};

verus! {

/// Size, in bytes, of a hash output produced by a [`Hasher`].
pub const HASH_LEN: usize = 32;

/// Fixed-size hash output, used as the `prev_hash` and `hash` of a record.
#[derive(Copy, Clone, PartialEq, Eq, Hash, Debug)]
pub struct Digest([u8; HASH_LEN]);

impl View for Digest {
    type V = Seq<u8>;

    closed spec fn view(&self) -> Seq<u8> {
        self.0@
    }
}

/// Every digest holds exactly `HASH_LEN` bytes.
pub broadcast proof fn lemma_digest_len(d: Digest)
    ensures
        #[trigger] d@.len() == HASH_LEN,
{
}

/// The all-zero byte string of digest length.
pub open spec fn zero_bytes() -> Seq<u8> {
    Seq::new(HASH_LEN as nat, |i: int| 0u8)
}

impl Digest {
    /// All-zero digest, the `prev_hash` of the genesis record.
    pub fn zero() -> (d: Digest)
        ensures
            d@ == zero_bytes(),
    {
        let d = Digest([0u8; 32]);
        assert(d@ =~= zero_bytes());
        d
    }

    /// Construct a digest from raw bytes.
    pub fn from_bytes(bytes: [u8; HASH_LEN]) -> (d: Digest)
        ensures
            d@ == bytes@,
    {
        Digest(bytes)
    }

    /// Borrow the underlying bytes.
    pub fn as_bytes(&self) -> (b: &[u8; HASH_LEN])
        ensures
            b@ == self@,
    {
        &self.0
    }

    /// Consume the digest and return the underlying bytes.
    pub fn into_bytes(self) -> (b: [u8; HASH_LEN])
        ensures
            b@ == self@,
    {
        self.0
    }

    /// The digest as 64 lowercase hexadecimal digits.
    pub fn to_hex(&self) -> (s: String)
        ensures
            s@ == hex(self@),
    {
        let mut s = String::new();
        push_hex(&mut s, self.0.as_slice());
        s
    }

    /// Byte-wise comparison of two digests.
    pub fn same_as(&self, other: &Digest) -> (r: bool)
        ensures
            r == (self@ == other@),
    {
        let mut i: usize = 0;
        while i < HASH_LEN
            invariant
                i <= HASH_LEN,
                forall|j: int| 0 <= j < i ==> self@[j] == other@[j],
            decreases HASH_LEN - i,
        {
            if self.0[i] != other.0[i] {
                return false;
            }
            i = i + 1;
        }
        assert(self@ =~= other@);
        true
    }
}

impl Default for Digest {
    fn default() -> (d: Digest)
        ensures
            d@ == zero_bytes(),
    {
        Digest::zero()
    }
}

impl AsRef<[u8]> for Digest {
    fn as_ref(&self) -> (b: &[u8])
        ensures
            b@ == self@,
    {
        self.0.as_slice()
    }
}

/// Pluggable hash function used to chain audit records.
///
/// The hasher is stateful: `reset` starts a fresh input, `update` absorbs
/// bytes, `finalize` writes the digest of everything absorbed since the
/// last reset. Implementations must be deterministic: the digest is a
/// function of the absorbed bytes alone.
pub trait Hasher {
    /// Bytes absorbed since the last reset. (The default body is hidden
    /// and never relied on; it lets implementations that give no model,
    /// such as ones written in plain Rust, compile.)
    closed spec fn absorbed(&self) -> Seq<u8> {
        Seq::empty()
    }

    /// The digest this hash function assigns to `input` (default body as
    /// for `absorbed`).
    closed spec fn digest_of(input: Seq<u8>) -> Seq<u8> {
        Seq::empty()
    }

    /// Reset the hasher to its initial state.
    fn reset(&mut self)
        ensures
            final(self).absorbed() == Seq::<u8>::empty(),
    ;

    /// Absorb a byte slice into the hash state.
    fn update(&mut self, bytes: &[u8])
        ensures
            final(self).absorbed() == old(self).absorbed() + bytes@,
    ;

    /// Write the digest of the absorbed bytes into `out`.
    fn finalize(&mut self, out: &mut Digest)
        ensures
            final(out)@ == Self::digest_of(old(self).absorbed()),
    ;
}

} // verus!
