//! Big-endian bytes of a 64-bit number, and rotation of a run of bytes.

use vstd::prelude::*;

verus! {

/// The eight bytes of `x`, most significant first.
pub open spec fn be_bytes(x: u64) -> Seq<u8> {
    seq![
        ((x >> 56) & 0xFF) as u8,
        ((x >> 48) & 0xFF) as u8,
        ((x >> 40) & 0xFF) as u8,
        ((x >> 32) & 0xFF) as u8,
        ((x >> 24) & 0xFF) as u8,
        ((x >> 16) & 0xFF) as u8,
        ((x >> 8) & 0xFF) as u8,
        (x & 0xFF) as u8,
    ]
}

/// The number whose bytes, most significant first, are the first eight of `b`.
pub open spec fn from_be_bytes(b: Seq<u8>) -> u64 {
    (b[0] as u64) << 56 | (b[1] as u64) << 48 | (b[2] as u64) << 40 | (b[3] as u64) << 32
        | (b[4] as u64) << 24 | (b[5] as u64) << 16 | (b[6] as u64) << 8 | (b[7] as u64)
}

/// `s` with its first `k` items moved behind the others.
pub open spec fn rotated_left(s: Seq<u8>, k: int) -> Seq<u8> {
    s.subrange(k, s.len() as int) + s.subrange(0, k)
}

/// `s` with its last `k` items moved before the others.
pub open spec fn rotated_right(s: Seq<u8>, k: int) -> Seq<u8> {
    s.subrange(s.len() - k, s.len() as int) + s.subrange(0, s.len() - k)
}

/// Splitting a number into its bytes and joining them again gives the number.
pub proof fn lemma_from_be_bytes_of_be_bytes(x: u64)
    ensures
        from_be_bytes(be_bytes(x)) == x,
{
    assert((((x >> 56) & 0xFF) as u8 as u64) << 56
        | (((x >> 48) & 0xFF) as u8 as u64) << 48
        | (((x >> 40) & 0xFF) as u8 as u64) << 40
        | (((x >> 32) & 0xFF) as u8 as u64) << 32
        | (((x >> 24) & 0xFF) as u8 as u64) << 24
        | (((x >> 16) & 0xFF) as u8 as u64) << 16
        | (((x >> 8) & 0xFF) as u8 as u64) << 8
        | ((x & 0xFF) as u8 as u64) == x) by (bit_vector);
}

/// Joining eight bytes into a number and splitting it again gives the bytes.
pub proof fn lemma_be_bytes_of_from_be_bytes(b: Seq<u8>)
    requires
        b.len() == 8,
    ensures
        be_bytes(from_be_bytes(b)) == b,
{
    let (b0, b1, b2, b3, b4, b5, b6, b7) = (b[0], b[1], b[2], b[3], b[4], b[5], b[6], b[7]);
    let x = from_be_bytes(b);
    assert(x == (b0 as u64) << 56 | (b1 as u64) << 48 | (b2 as u64) << 40 | (b3 as u64) << 32
        | (b4 as u64) << 24 | (b5 as u64) << 16 | (b6 as u64) << 8 | (b7 as u64));
    assert({
        &&& ((x >> 56) & 0xFF) as u8 == b0
        &&& ((x >> 48) & 0xFF) as u8 == b1
        &&& ((x >> 40) & 0xFF) as u8 == b2
        &&& ((x >> 32) & 0xFF) as u8 == b3
        &&& ((x >> 24) & 0xFF) as u8 == b4
        &&& ((x >> 16) & 0xFF) as u8 == b5
        &&& ((x >> 8) & 0xFF) as u8 == b6
        &&& (x & 0xFF) as u8 == b7
    }) by (bit_vector)
        requires
            x == (b0 as u64) << 56 | (b1 as u64) << 48 | (b2 as u64) << 40 | (b3 as u64) << 32
                | (b4 as u64) << 24 | (b5 as u64) << 16 | (b6 as u64) << 8 | (b7 as u64),
    ;
    assert(be_bytes(x) =~= b);
}

/// The bytes of `x`, most significant first.
pub fn to_be_bytes(x: u64) -> (b: [u8; 8])
    ensures
        b@ == be_bytes(x),
{
    assert({
        &&& (x >> 56) & 0xFF < 256
        &&& (x >> 48) & 0xFF < 256
        &&& (x >> 40) & 0xFF < 256
        &&& (x >> 32) & 0xFF < 256
        &&& (x >> 24) & 0xFF < 256
        &&& (x >> 16) & 0xFF < 256
        &&& (x >> 8) & 0xFF < 256
        &&& x & 0xFF < 256
    }) by (bit_vector);
    let b = [
        ((x >> 56) & 0xFF) as u8,
        ((x >> 48) & 0xFF) as u8,
        ((x >> 40) & 0xFF) as u8,
        ((x >> 32) & 0xFF) as u8,
        ((x >> 24) & 0xFF) as u8,
        ((x >> 16) & 0xFF) as u8,
        ((x >> 8) & 0xFF) as u8,
        (x & 0xFF) as u8,
    ];
    assert(b@ =~= be_bytes(x));
    b
}

/// The number whose bytes, most significant first, are `b`.
pub fn u64_from_be_bytes(b: &[u8; 8]) -> (x: u64)
    ensures
        x == from_be_bytes(b@),
{
    (b[0] as u64) << 56 | (b[1] as u64) << 48 | (b[2] as u64) << 40 | (b[3] as u64) << 32
        | (b[4] as u64) << 24 | (b[5] as u64) << 16 | (b[6] as u64) << 8 | (b[7] as u64)
}

/// Rotates the bytes at positions `from..to` of `a` to the left by `k`
/// places, in place. The bytes outside that run stay where they are.
pub fn rotate_left<const N: usize>(a: &mut [u8; N], from: usize, to: usize, k: usize)
    requires
        from <= to <= N,
        k <= to - from,
    ensures
        final(a)@ == old(a)@.subrange(0, from as int) + rotated_left(
            old(a)@.subrange(from as int, to as int),
            k as int,
        ) + old(a)@.subrange(to as int, N as int),
{
    let src = *a;
    let len = to - from;
    let mut i: usize = 0;
    while i < len
        invariant
            from <= to <= N,
            len == to - from,
            k <= len,
            i <= len,
            src@ == old(a)@,
            a@.len() == N,
            forall|p: int| 0 <= p < from ==> a@[p] == src@[p],
            forall|p: int| to <= p < N ==> a@[p] == src@[p],
            forall|p: int|
                from <= p < from + i ==> #[trigger] a@[p] == src@[if p + k < to {
                    p + k
                } else {
                    p + k - len
                }],
        decreases len - i,
    {
        let offset = if k < len - i {
            i + k
        } else {
            k - (len - i)
        };
        a[from + i] = src[from + offset];
        i = i + 1;
    }
}

/// Rotates the bytes at positions `from..to` of `a` to the right by `k`
/// places, in place. The bytes outside that run stay where they are.
pub fn rotate_right<const N: usize>(a: &mut [u8; N], from: usize, to: usize, k: usize)
    requires
        from <= to <= N,
        k <= to - from,
    ensures
        final(a)@ == old(a)@.subrange(0, from as int) + rotated_right(
            old(a)@.subrange(from as int, to as int),
            k as int,
        ) + old(a)@.subrange(to as int, N as int),
{
    rotate_left(a, from, to, to - from - k);
}

} // verus!
