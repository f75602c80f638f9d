//! Byte-image codec helpers.
//!
//! Every fixed-layout KVM structure in this crate has a byte image: the
//! exact sequence of bytes the kernel sees for it on x86-64, fields at
//! their kernel offsets, each little-endian, lowest byte first.  The
//! helpers here state what the image of one fixed-width field is, append
//! one field to an image under construction, and read one field back out
//! of a received image.

use vstd::prelude::*;

verus! {

/// Reading a structure image from a buffer that cannot hold it fails.
#[derive(Clone, Copy, Debug, PartialEq, Eq)]
pub enum CodecError {
    /// The buffer is shorter than the structure's byte image.
    IncompleteBuffer,
}

/// `n` zero bytes: the image of a zero-filled structure.
pub open spec fn zero_bytes(n: int) -> Seq<u8> {
    Seq::new(n as nat, |i: int| 0u8)
}

/// The two-byte little-endian image of `v`.
pub open spec fn u16_le_bytes(v: u16) -> Seq<u8> {
    seq![(v & 0xff) as u8, ((v >> 8) & 0xff) as u8]
}

/// The four-byte little-endian image of `v`.
pub open spec fn u32_le_bytes(v: u32) -> Seq<u8> {
    seq![
        (v & 0xff) as u8,
        ((v >> 8) & 0xff) as u8,
        ((v >> 16) & 0xff) as u8,
        ((v >> 24) & 0xff) as u8,
    ]
}

/// The eight-byte little-endian image of `v`.
pub open spec fn u64_le_bytes(v: u64) -> Seq<u8> {
    seq![
        (v & 0xff) as u8,
        ((v >> 8) & 0xff) as u8,
        ((v >> 16) & 0xff) as u8,
        ((v >> 24) & 0xff) as u8,
        ((v >> 32) & 0xff) as u8,
        ((v >> 40) & 0xff) as u8,
        ((v >> 48) & 0xff) as u8,
        ((v >> 56) & 0xff) as u8,
    ]
}

/// The value whose two-byte little-endian image is `s`.
pub open spec fn u16_of_le_bytes(s: Seq<u8>) -> u16
    recommends
        s.len() == 2,
{
    (s[0] as u16) | ((s[1] as u16) << 8)
}

/// The value whose four-byte little-endian image is `s`.
pub open spec fn u32_of_le_bytes(s: Seq<u8>) -> u32
    recommends
        s.len() == 4,
{
    (s[0] as u32) | ((s[1] as u32) << 8) | ((s[2] as u32) << 16) | ((s[3] as u32) << 24)
}

/// The value whose eight-byte little-endian image is `s`.
pub open spec fn u64_of_le_bytes(s: Seq<u8>) -> u64
    recommends
        s.len() == 8,
{
    (s[0] as u64) | ((s[1] as u64) << 8) | ((s[2] as u64) << 16) | ((s[3] as u64) << 24) | ((
    s[4] as u64) << 32) | ((s[5] as u64) << 40) | ((s[6] as u64) << 48) | ((s[7] as u64) << 56)
}

/// The four-byte little-endian image of a signed value: the image of its
/// two's-complement bits.
pub open spec fn i32_le_bytes(v: i32) -> Seq<u8> {
    u32_le_bytes(#[verifier::truncate] (v as u32))
}

/// The signed value whose four-byte little-endian image is `s`.
pub open spec fn i32_of_le_bytes(s: Seq<u8>) -> i32
    recommends
        s.len() == 4,
{
    #[verifier::truncate] (u32_of_le_bytes(s) as i32)
}

/// The eight-byte little-endian image of a signed value: the image of its
/// two's-complement bits.
pub open spec fn i64_le_bytes(v: i64) -> Seq<u8> {
    u64_le_bytes(#[verifier::truncate] (v as u64))
}

/// The signed value whose eight-byte little-endian image is `s`.
pub open spec fn i64_of_le_bytes(s: Seq<u8>) -> i64
    recommends
        s.len() == 8,
{
    #[verifier::truncate] (u64_of_le_bytes(s) as i64)
}

/// Reading back a two-byte image yields the value written.
pub proof fn lemma_u16_le_roundtrip(v: u16)
    ensures
        u16_of_le_bytes(u16_le_bytes(v)) == v,
{
    assert((((v & 0xff) as u8) as u16) | (((((v >> 8) & 0xff) as u8) as u16) << 8) == v)
        by (bit_vector);
}

/// Reading back a four-byte image yields the value written.
pub proof fn lemma_u32_le_roundtrip(v: u32)
    ensures
        u32_of_le_bytes(u32_le_bytes(v)) == v,
{
    assert((((v & 0xff) as u8) as u32) | (((((v >> 8) & 0xff) as u8) as u32) << 8) | (((((v >> 16)
        & 0xff) as u8) as u32) << 16) | (((((v >> 24) & 0xff) as u8) as u32) << 24) == v)
        by (bit_vector);
}

/// Reading back an eight-byte image yields the value written.
pub proof fn lemma_u64_le_roundtrip(v: u64)
    ensures
        u64_of_le_bytes(u64_le_bytes(v)) == v,
{
    assert((((v & 0xff) as u8) as u64) | (((((v >> 8) & 0xff) as u8) as u64) << 8) | (((((v >> 16)
        & 0xff) as u8) as u64) << 16) | (((((v >> 24) & 0xff) as u8) as u64) << 24) | (((((v >> 32)
        & 0xff) as u8) as u64) << 32) | (((((v >> 40) & 0xff) as u8) as u64) << 40) | (((((v >> 48)
        & 0xff) as u8) as u64) << 48) | (((((v >> 56) & 0xff) as u8) as u64) << 56) == v)
        by (bit_vector);
}

/// Writing back a two-byte image reproduces it byte for byte.
pub proof fn lemma_u16_le_bytes_of(s: Seq<u8>)
    requires
        s.len() == 2,
    ensures
        u16_le_bytes(u16_of_le_bytes(s)) == s,
{
    let b0 = s[0];
    let b1 = s[1];
    assert(((((b0 as u16) | ((b1 as u16) << 8)) & 0xff) as u8) == b0 && (((((b0 as u16) | ((
    b1 as u16) << 8)) >> 8) & 0xff) as u8) == b1) by (bit_vector);
    assert(u16_le_bytes(u16_of_le_bytes(s)) =~= s);
}

/// Writing back a four-byte image reproduces it byte for byte.
pub proof fn lemma_u32_le_bytes_of(s: Seq<u8>)
    requires
        s.len() == 4,
    ensures
        u32_le_bytes(u32_of_le_bytes(s)) == s,
{
    let b0 = s[0];
    let b1 = s[1];
    let b2 = s[2];
    let b3 = s[3];
    let v = (b0 as u32) | ((b1 as u32) << 8) | ((b2 as u32) << 16) | ((b3 as u32) << 24);
    assert(((v & 0xff) as u8) == b0 && (((v >> 8) & 0xff) as u8) == b1 && (((v >> 16) & 0xff)
        as u8) == b2 && (((v >> 24) & 0xff) as u8) == b3)
        by (bit_vector)
        requires
            v == (b0 as u32) | ((b1 as u32) << 8) | ((b2 as u32) << 16) | ((b3 as u32) << 24),
    ;
    assert(u32_le_bytes(u32_of_le_bytes(s)) =~= s);
}

/// Writing back an eight-byte image reproduces it byte for byte.
pub proof fn lemma_u64_le_bytes_of(s: Seq<u8>)
    requires
        s.len() == 8,
    ensures
        u64_le_bytes(u64_of_le_bytes(s)) == s,
{
    let b0 = s[0];
    let b1 = s[1];
    let b2 = s[2];
    let b3 = s[3];
    let b4 = s[4];
    let b5 = s[5];
    let b6 = s[6];
    let b7 = s[7];
    let v = (b0 as u64) | ((b1 as u64) << 8) | ((b2 as u64) << 16) | ((b3 as u64) << 24) | ((
    b4 as u64) << 32) | ((b5 as u64) << 40) | ((b6 as u64) << 48) | ((b7 as u64) << 56);
    assert(((v & 0xff) as u8) == b0 && (((v >> 8) & 0xff) as u8) == b1 && (((v >> 16) & 0xff)
        as u8) == b2 && (((v >> 24) & 0xff) as u8) == b3 && (((v >> 32) & 0xff) as u8) == b4 && (((
    v >> 40) & 0xff) as u8) == b5 && (((v >> 48) & 0xff) as u8) == b6 && (((v >> 56) & 0xff) as u8)
        == b7)
        by (bit_vector)
        requires
            v == (b0 as u64) | ((b1 as u64) << 8) | ((b2 as u64) << 16) | ((b3 as u64) << 24) | ((
            b4 as u64) << 32) | ((b5 as u64) << 40) | ((b6 as u64) << 48) | ((b7 as u64) << 56),
    ;
    assert(u64_le_bytes(u64_of_le_bytes(s)) =~= s);
}

/// Reading back the image of a signed value yields the value written.
pub proof fn lemma_i32_le_roundtrip(v: i32)
    ensures
        i32_of_le_bytes(i32_le_bytes(v)) == v,
{
    let x = #[verifier::truncate] (v as u32);
    lemma_u32_le_roundtrip(x);
    assert(#[verifier::truncate] ((#[verifier::truncate] (v as u32)) as i32) == v) by (bit_vector);
}

/// Writing back the four-byte image of a signed value reproduces it.
pub proof fn lemma_i32_le_bytes_of(s: Seq<u8>)
    requires
        s.len() == 4,
    ensures
        i32_le_bytes(i32_of_le_bytes(s)) == s,
{
    lemma_u32_le_bytes_of(s);
    let x = u32_of_le_bytes(s);
    assert(#[verifier::truncate] ((#[verifier::truncate] (x as i32)) as u32) == x) by (bit_vector);
}

/// Reading back the image of a signed 64-bit value yields the value
/// written.
pub proof fn lemma_i64_le_roundtrip(v: i64)
    ensures
        i64_of_le_bytes(i64_le_bytes(v)) == v,
{
    let x = #[verifier::truncate] (v as u64);
    lemma_u64_le_roundtrip(x);
    assert(#[verifier::truncate] ((#[verifier::truncate] (v as u64)) as i64) == v) by (bit_vector);
}

/// Writing back the eight-byte image of a signed value reproduces it.
pub proof fn lemma_i64_le_bytes_of(s: Seq<u8>)
    requires
        s.len() == 8,
    ensures
        i64_le_bytes(i64_of_le_bytes(s)) == s,
{
    lemma_u64_le_bytes_of(s);
    let x = u64_of_le_bytes(s);
    assert(#[verifier::truncate] ((#[verifier::truncate] (x as i64)) as u64) == x) by (bit_vector);
}

/// The image of zero is all zero bytes, at every width.
pub proof fn lemma_le_bytes_zero()
    ensures
        u16_le_bytes(0u16) == zero_bytes(2),
        u32_le_bytes(0u32) == zero_bytes(4),
        u64_le_bytes(0u64) == zero_bytes(8),
{
    assert((0u16 & 0xff) as u8 == 0 && ((0u16 >> 8) & 0xff) as u8 == 0) by (bit_vector);
    assert((0u32 & 0xff) as u8 == 0 && ((0u32 >> 8) & 0xff) as u8 == 0 && ((0u32 >> 16) & 0xff)
        as u8 == 0 && ((0u32 >> 24) & 0xff) as u8 == 0) by (bit_vector);
    assert((0u64 & 0xff) as u8 == 0 && ((0u64 >> 8) & 0xff) as u8 == 0 && ((0u64 >> 16) & 0xff)
        as u8 == 0 && ((0u64 >> 24) & 0xff) as u8 == 0 && ((0u64 >> 32) & 0xff) as u8 == 0 && ((
    0u64 >> 40) & 0xff) as u8 == 0 && ((0u64 >> 48) & 0xff) as u8 == 0 && ((0u64 >> 56) & 0xff)
        as u8 == 0) by (bit_vector);
    assert(u16_le_bytes(0u16) =~= zero_bytes(2));
    assert(u32_le_bytes(0u32) =~= zero_bytes(4));
    assert(u64_le_bytes(0u64) =~= zero_bytes(8));
}

/// Concatenation splits on the left part's length.
pub proof fn lemma_concat_parts(x: Seq<u8>, y: Seq<u8>)
    ensures
        (x + y).subrange(0, x.len() as int) == x,
        (x + y).subrange(x.len() as int, (x + y).len() as int) == y,
{
    assert((x + y).subrange(0, x.len() as int) =~= x);
    assert((x + y).subrange(x.len() as int, (x + y).len() as int) =~= y);
}

/// A subrange of a subrange is a subrange of the whole.
pub proof fn lemma_subrange_subrange(s: Seq<u8>, i: int, j: int, a: int, c: int)
    requires
        0 <= i <= j <= s.len(),
        0 <= a <= c <= j - i,
    ensures
        s.subrange(i, j).subrange(a, c) == s.subrange(i + a, i + c),
{
    assert(s.subrange(i, j).subrange(a, c) =~= s.subrange(i + a, i + c));
}

/// A prefix splits at any interior point.
pub proof fn lemma_seq_parts(s: Seq<u8>, m: int, e: int)
    requires
        0 <= m <= e <= s.len(),
    ensures
        s.subrange(0, e) == s.subrange(0, m) + s.subrange(m, e),
{
    assert(s.subrange(0, e) =~= s.subrange(0, m) + s.subrange(m, e));
}

/// Concatenation is associative.
pub proof fn lemma_concat_assoc(x: Seq<u8>, y: Seq<u8>, z: Seq<u8>)
    ensures
        (x + y) + z == x + (y + z),
{
    assert((x + y) + z =~= x + (y + z));
}

/// The empty sequence is a left identity of concatenation.
pub proof fn lemma_concat_empty_left(x: Seq<u8>)
    ensures
        Seq::<u8>::empty() + x == x,
{
    assert(Seq::<u8>::empty() + x =~= x);
}

/// The empty sequence is a right identity of concatenation.
pub proof fn lemma_concat_empty_right(x: Seq<u8>)
    ensures
        x + Seq::<u8>::empty() == x,
{
    assert(x + Seq::<u8>::empty() =~= x);
}

/// A run of zero bytes splits at any interior point.
pub proof fn lemma_zero_bytes_split(m: int, e: int)
    requires
        0 <= m <= e,
    ensures
        zero_bytes(e) == zero_bytes(m) + zero_bytes(e - m),
{
    assert(zero_bytes(e) =~= zero_bytes(m) + zero_bytes(e - m));
}

/// Appends the single-byte image of `v`.
pub fn push_u8(out: &mut Vec<u8>, v: u8)
    ensures
        final(out)@ == old(out)@ + seq![v],
{
    out.push(v);
    proof {
        assert(out@ =~= old(out)@ + seq![v]);
    }
}

/// Appends the two-byte little-endian image of `v`.
pub fn push_u16_le(out: &mut Vec<u8>, v: u16)
    ensures
        final(out)@ == old(out)@ + u16_le_bytes(v),
{
    out.push((v & 0xff) as u8);
    out.push(((v >> 8) & 0xff) as u8);
    proof {
        assert(out@ =~= old(out)@ + u16_le_bytes(v));
    }
}

/// Appends the four-byte little-endian image of `v`.
pub fn push_u32_le(out: &mut Vec<u8>, v: u32)
    ensures
        final(out)@ == old(out)@ + u32_le_bytes(v),
{
    out.push((v & 0xff) as u8);
    out.push(((v >> 8) & 0xff) as u8);
    out.push(((v >> 16) & 0xff) as u8);
    out.push(((v >> 24) & 0xff) as u8);
    proof {
        assert(out@ =~= old(out)@ + u32_le_bytes(v));
    }
}

/// Appends the eight-byte little-endian image of `v`.
pub fn push_u64_le(out: &mut Vec<u8>, v: u64)
    ensures
        final(out)@ == old(out)@ + u64_le_bytes(v),
{
    out.push((v & 0xff) as u8);
    out.push(((v >> 8) & 0xff) as u8);
    out.push(((v >> 16) & 0xff) as u8);
    out.push(((v >> 24) & 0xff) as u8);
    out.push(((v >> 32) & 0xff) as u8);
    out.push(((v >> 40) & 0xff) as u8);
    out.push(((v >> 48) & 0xff) as u8);
    out.push(((v >> 56) & 0xff) as u8);
    proof {
        assert(out@ =~= old(out)@ + u64_le_bytes(v));
    }
}

/// Appends `a` as it stands: an array of single bytes.
pub fn push_u8s<const K: usize>(out: &mut Vec<u8>, a: &[u8; K])
    ensures
        final(out)@ == old(out)@ + a@,
{
    let mut i: usize = 0;
    while i < K
        invariant
            i <= K,
            out@ == old(out)@ + a@.subrange(0, i as int),
        decreases K - i,
    {
        let b = a[i];
        out.push(b);
        proof {
            assert(out@ =~= old(out)@ + a@.subrange(0, i + 1));
        }
        i += 1;
    }
    proof {
        assert(a@.subrange(0, K as int) =~= a@);
    }
}

/// Appends the four-byte little-endian image of a signed value.
pub fn push_i32_le(out: &mut Vec<u8>, v: i32)
    ensures
        final(out)@ == old(out)@ + i32_le_bytes(v),
{
    push_u32_le(out, v as u32);
}

/// Appends the eight-byte little-endian image of a signed value.
pub fn push_i64_le(out: &mut Vec<u8>, v: i64)
    ensures
        final(out)@ == old(out)@ + i64_le_bytes(v),
{
    push_u64_le(out, v as u64);
}

/// Reads the byte at offset `off`.
pub fn read_u8(buf: &[u8], off: usize) -> (r: u8)
    requires
        off < buf@.len(),
    ensures
        r == buf@[off as int],
{
    *vstd::slice::slice_index_get(buf, off)
}

/// Reads the two-byte little-endian value at offset `off`.
pub fn read_u16_le(buf: &[u8], off: usize) -> (r: u16)
    requires
        off + 2 <= buf@.len(),
    ensures
        r == u16_of_le_bytes(buf@.subrange(off as int, off as int + 2)),
{
    let n: usize = buf.len();
    proof {
        assert(off + 2 <= n);
    }
    let b0 = read_u8(buf, off);
    let b1 = read_u8(buf, off + 1);
    (b0 as u16) | ((b1 as u16) << 8)
}

/// Reads the four-byte little-endian value at offset `off`.
pub fn read_u32_le(buf: &[u8], off: usize) -> (r: u32)
    requires
        off + 4 <= buf@.len(),
    ensures
        r == u32_of_le_bytes(buf@.subrange(off as int, off as int + 4)),
{
    let n: usize = buf.len();
    proof {
        assert(off + 4 <= n);
    }
    let b0 = read_u8(buf, off);
    let b1 = read_u8(buf, off + 1);
    let b2 = read_u8(buf, off + 2);
    let b3 = read_u8(buf, off + 3);
    (b0 as u32) | ((b1 as u32) << 8) | ((b2 as u32) << 16) | ((b3 as u32) << 24)
}

/// Reads the eight-byte little-endian value at offset `off`.
pub fn read_u64_le(buf: &[u8], off: usize) -> (r: u64)
    requires
        off + 8 <= buf@.len(),
    ensures
        r == u64_of_le_bytes(buf@.subrange(off as int, off as int + 8)),
{
    let n: usize = buf.len();
    proof {
        assert(off + 8 <= n);
    }
    let b0 = read_u8(buf, off);
    let b1 = read_u8(buf, off + 1);
    let b2 = read_u8(buf, off + 2);
    let b3 = read_u8(buf, off + 3);
    let b4 = read_u8(buf, off + 4);
    let b5 = read_u8(buf, off + 5);
    let b6 = read_u8(buf, off + 6);
    let b7 = read_u8(buf, off + 7);
    (b0 as u64) | ((b1 as u64) << 8) | ((b2 as u64) << 16) | ((b3 as u64) << 24) | ((b4 as u64)
        << 32) | ((b5 as u64) << 40) | ((b6 as u64) << 48) | ((b7 as u64) << 56)
}

/// Reads `K` single bytes starting at offset `off`.
pub fn read_u8s<const K: usize>(buf: &[u8], off: usize) -> (r: [u8; K])
    requires
        off + K <= buf@.len(),
    ensures
        r@ == buf@.subrange(off as int, off as int + K),
{
    let n: usize = buf.len();
    proof {
        assert(off + K <= n);
    }
    let mut r: [u8; K] = vstd::array::array_fill_for_copy_types::<u8, K>(0u8);
    let mut i: usize = 0;
    while i < K
        invariant
            i <= K,
            off + K <= buf@.len(),
            buf@.len() <= usize::MAX,
            r@.len() == K,
            forall|j: int| 0 <= j < i ==> r@[j] == buf@[off + j],
        decreases K - i,
    {
        let b = read_u8(buf, off + i);
        r[i] = b;
        i += 1;
    }
    proof {
        assert(r@ =~= buf@.subrange(off as int, off as int + K));
    }
    r
}

/// Reads the four-byte little-endian signed value at offset `off`.
pub fn read_i32_le(buf: &[u8], off: usize) -> (r: i32)
    requires
        off + 4 <= buf@.len(),
    ensures
        r == i32_of_le_bytes(buf@.subrange(off as int, off as int + 4)),
{
    read_u32_le(buf, off) as i32
}

/// Reads the eight-byte little-endian signed value at offset `off`.
pub fn read_i64_le(buf: &[u8], off: usize) -> (r: i64)
    requires
        off + 8 <= buf@.len(),
    ensures
        r == i64_of_le_bytes(buf@.subrange(off as int, off as int + 8)),
{
    read_u64_le(buf, off) as i64
}

} // verus!
