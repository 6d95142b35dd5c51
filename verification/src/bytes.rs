//! Big-endian integer encodings and byte-buffer helpers.
use vstd::prelude::*;

verus! {

/// Big-endian bytes of a `u64`.
pub open spec fn u64_be(x: u64) -> Seq<u8> {
    seq![
        (x >> 56u64) as u8,
        (x >> 48u64) as u8,
        (x >> 40u64) as u8,
        (x >> 32u64) as u8,
        (x >> 24u64) as u8,
        (x >> 16u64) as u8,
        (x >> 8u64) as u8,
        x as u8,
    ]
}

/// Big-endian bytes of a `u32`.
pub open spec fn u32_be(x: u32) -> Seq<u8> {
    seq![(x >> 24u32) as u8, (x >> 16u32) as u8, (x >> 8u32) as u8, x as u8]
}

/// The `u64` whose big-endian bytes start `s`.
pub open spec fn u64_from_be(s: Seq<u8>) -> u64 {
    be8(s[0], s[1], s[2], s[3], s[4], s[5], s[6], s[7])
}

/// The `u32` whose big-endian bytes start `s`.
pub open spec fn u32_from_be(s: Seq<u8>) -> u32 {
    be4(s[0], s[1], s[2], s[3])
}

pub open spec fn be8(b0: u8, b1: u8, b2: u8, b3: u8, b4: u8, b5: u8, b6: u8, b7: u8) -> u64 {
    (b0 as u64) << 56u64 | (b1 as u64) << 48u64 | (b2 as u64) << 40u64 | (b3 as u64) << 32u64
        | (b4 as u64) << 24u64 | (b5 as u64) << 16u64 | (b6 as u64) << 8u64 | (b7 as u64)
}

pub open spec fn be4(b0: u8, b1: u8, b2: u8, b3: u8) -> u32 {
    (b0 as u32) << 24u32 | (b1 as u32) << 16u32 | (b2 as u32) << 8u32 | (b3 as u32)
}

/// Reading back the big-endian bytes of a `u64` gives the `u64`.
pub proof fn lemma_u64_be_roundtrip(x: u64)
    ensures
        u64_be(x).len() == 8,
        u64_from_be(u64_be(x)) == x,
{
    let s = u64_be(x);
    assert(be8(
        (x >> 56u64) as u8,
        (x >> 48u64) as u8,
        (x >> 40u64) as u8,
        (x >> 32u64) as u8,
        (x >> 24u64) as u8,
        (x >> 16u64) as u8,
        (x >> 8u64) as u8,
        x as u8,
    ) == x) by (bit_vector);
}

/// Reading back the big-endian bytes of a `u32` gives the `u32`.
pub proof fn lemma_u32_be_roundtrip(x: u32)
    ensures
        u32_be(x).len() == 4,
        u32_from_be(u32_be(x)) == x,
{
    assert(be4((x >> 24u32) as u8, (x >> 16u32) as u8, (x >> 8u32) as u8, x as u8) == x)
        by (bit_vector);
}

/// Writing back the `u64` read from the front of `s` gives `s`'s first
/// eight bytes.
pub proof fn lemma_u64_from_be_bytes(s: Seq<u8>)
    requires
        s.len() >= 8,
    ensures
        u64_be(u64_from_be(s)) == s.subrange(0, 8),
{
    let (b0, b1, b2, b3, b4, b5, b6, b7) = (s[0], s[1], s[2], s[3], s[4], s[5], s[6], s[7]);
    let x = be8(b0, b1, b2, b3, b4, b5, b6, b7);
    assert({
        &&& (x >> 56u64) as u8 == b0
        &&& (x >> 48u64) as u8 == b1
        &&& (x >> 40u64) as u8 == b2
        &&& (x >> 32u64) as u8 == b3
        &&& (x >> 24u64) as u8 == b4
        &&& (x >> 16u64) as u8 == b5
        &&& (x >> 8u64) as u8 == b6
        &&& x as u8 == b7
    }) by (bit_vector)
        requires
            x == be8(b0, b1, b2, b3, b4, b5, b6, b7),
    ;
    assert(u64_be(x) =~= s.subrange(0, 8));
}

/// Writing back the `u32` read from the front of `s` gives `s`'s first
/// four bytes.
pub proof fn lemma_u32_from_be_bytes(s: Seq<u8>)
    requires
        s.len() >= 4,
    ensures
        u32_be(u32_from_be(s)) == s.subrange(0, 4),
{
    let (b0, b1, b2, b3) = (s[0], s[1], s[2], s[3]);
    let x = be4(b0, b1, b2, b3);
    assert({
        &&& (x >> 24u32) as u8 == b0
        &&& (x >> 16u32) as u8 == b1
        &&& (x >> 8u32) as u8 == b2
        &&& x as u8 == b3
    }) by (bit_vector)
        requires
            x == be4(b0, b1, b2, b3),
    ;
    assert(u32_be(x) =~= s.subrange(0, 4));
}

/// Big-endian bytes of a `u64`.
pub fn u64_to_be(x: u64) -> (b: [u8; 8])
    ensures
        b@ == u64_be(x),
{
    let b = [
        (x >> 56u64) as u8,
        (x >> 48u64) as u8,
        (x >> 40u64) as u8,
        (x >> 32u64) as u8,
        (x >> 24u64) as u8,
        (x >> 16u64) as u8,
        (x >> 8u64) as u8,
        x as u8,
    ];
    assert(b@ =~= u64_be(x));
    b
}

/// Big-endian bytes of a `u32`.
pub fn u32_to_be(x: u32) -> (b: [u8; 4])
    ensures
        b@ == u32_be(x),
{
    let b = [(x >> 24u32) as u8, (x >> 16u32) as u8, (x >> 8u32) as u8, x as u8];
    assert(b@ =~= u32_be(x));
    b
}

/// Append `bytes` to the end of `out`.
pub fn append_bytes(out: &mut Vec<u8>, bytes: &[u8])
    ensures
        final(out)@ == old(out)@ + bytes@,
{
    let mut i: usize = 0;
    while i < bytes.len()
        invariant
            i <= bytes.len(),
            out@ == old(out)@ + bytes@.take(i as int),
        decreases bytes.len() - i,
    {
        out.push(bytes[i]);
        i = i + 1;
        assert(bytes@.take(i as int) =~= bytes@.take(i - 1 as int).push(bytes@[i - 1 as int]));
    }
    assert(bytes@.take(bytes.len() as int) =~= bytes@);
}

} // verus!
