//! A fixed-size byte buffer exposing reads and writes of arbitrary bit runs.
//!
//! Kernel structures frequently pack several sub-byte fields into a shared
//! run of bits.  [`__BindgenBitfieldUnit`] owns the backing bytes and
//! addresses single bits or runs of up to 64 bits by bit index, least
//! significant bit of the lowest byte first (the x86 in-memory bit order).

use vstd::prelude::*;

verus! {

broadcast use vstd::array::group_array_axioms;

/// True when bit `i` of byte `b` is set; bit 0 is the least significant.
pub open spec fn byte_bit(b: u8, i: int) -> bool {
    (b >> (i as u8)) & 1 == 1
}

/// True when bit `i` of `v` is set; bit 0 is the least significant.
pub open spec fn bit_u64(v: u64, i: int) -> bool {
    (v >> (i as u64)) & 1 == 1
}

/// The value with exactly the `w` lowest bits set.
pub open spec fn low_mask(w: int) -> u64 {
    if w >= 64 {
        0xffff_ffff_ffff_ffffu64
    } else if w <= 0 {
        0u64
    } else {
        ((1u64 << (w as u64)) - 1) as u64
    }
}

/// The integer held by bits `off .. off + w` of `bits`, least significant
/// bit first: bit `i` of the result is `bits[off + i]`.
pub open spec fn unit_read(bits: Seq<bool>, off: int, w: int) -> u64
    recommends
        0 <= off,
        0 <= w <= 64,
        off + w <= bits.len(),
    decreases w,
{
    if w <= 0 {
        0u64
    } else {
        unit_read(bits, off, w - 1) | (if bits[off + w - 1] {
            (1u64 << ((w - 1) as u64)) as u64
        } else {
            0u64
        })
    }
}

/// `bits` with bits `off .. off + w` replaced by the `w` lowest bits of `v`,
/// least significant bit first; all other bits unchanged.
pub open spec fn unit_write(bits: Seq<bool>, off: int, w: int, v: u64) -> Seq<bool> {
    Seq::new(bits.len(), |j: int| if off <= j < off + w {
        bit_u64(v, j - off)
    } else {
        bits[j]
    })
}

/// A fixed-size backing buffer for bit-packed sub-fields.
///
/// Its view is the sequence of its `8 * N` bits, least significant bit of
/// the lowest byte first.
#[derive(Clone, Copy, Debug, PartialEq, Eq, Hash, PartialOrd, Ord)]
#[verifier::ext_equal]
pub struct __BindgenBitfieldUnit<const N: usize> {
    storage: [u8; N],
}

impl<const N: usize> View for __BindgenBitfieldUnit<N> {
    type V = Seq<bool>;

    open spec fn view(&self) -> Seq<bool> {
        Seq::new(8 * (N as nat), |i: int| byte_bit(self.bytes()[i / 8], i % 8))
    }
}

impl<const N: usize> __BindgenBitfieldUnit<N> {
    /// The raw bytes of the backing storage, lowest byte first.
    pub closed spec fn bytes(&self) -> Seq<u8> {
        self.storage@
    }

    /// Wraps caller-supplied backing bytes; no validation is performed.
    pub fn new(storage: [u8; N]) -> (r: Self)
        ensures
            r.bytes() == storage@,
    {
        Self { storage }
    }

    /// Read access to the backing bytes.
    pub fn as_bytes(&self) -> (r: &[u8; N])
        ensures
            r@ == self.bytes(),
    {
        &self.storage
    }

    /// Reads bit `index` of the buffer.
    pub fn get_bit(&self, index: usize) -> (r: bool)
        requires
            index < 8 * N,
        ensures
            r == self@[index as int],
    {
        let byte_index = index / 8;
        let byte = self.storage[byte_index];
        let bit_index = index % 8;
        let mask: u8 = 1u8 << (bit_index as u32);
        let r = byte & mask == mask;
        proof {
            let i = index as int;
            lemma_byte_test(byte, (index % 8) as u8);
            assert(self@[i] == byte_bit(self.storage@[i / 8], i % 8));
            assert(byte == self.storage@[i / 8]);
            assert(i % 8 == (bit_index as u8) as int);
        }
        r
    }

    /// Reads the run of `bit_width` bits starting at `bit_offset`,
    /// composing them into an integer whose bit `i` is the stored bit
    /// `bit_offset + i`.
    pub fn get(&self, bit_offset: usize, bit_width: u8) -> (r: u64)
        requires
            bit_width <= 64,
            bit_offset + bit_width <= 8 * N,
            8 * N <= usize::MAX,
        ensures
            r == unit_read(self@, bit_offset as int, bit_width as int),
            forall|i: int| 0 <= i < bit_width ==> #[trigger] bit_u64(r, i) == self@[bit_offset + i],
            forall|i: int| bit_width <= i < 64 ==> !(#[trigger] bit_u64(r, i)),
    {
        let mut val: u64 = 0;
        let mut i: usize = 0;
        while i < bit_width as usize
            invariant
                i <= bit_width,
                bit_width <= 64,
                bit_offset + bit_width <= 8 * N,
                8 * N <= usize::MAX,
                self@.len() == 8 * N,
                val == unit_read(self@, bit_offset as int, i as int),
            decreases bit_width as usize - i,
        {
            let ghost val0 = val;
            if self.get_bit(bit_offset + i) {
                val = val | (1u64 << (i as u32));
            }
            proof {
                assert(unit_read(self@, bit_offset as int, i + 1) == unit_read(
                    self@,
                    bit_offset as int,
                    i as int,
                ) | (if self@[bit_offset + i] {
                    (1u64 << (i as u64)) as u64
                } else {
                    0u64
                }));
                if !self@[bit_offset + i] {
                    assert(val0 | 0u64 == val0) by (bit_vector);
                }
                assert((1u64 << (i as u32)) == (1u64 << (i as u64)));
            }
            i += 1;
        }
        proof {
            assert forall|j: int| 0 <= j < bit_width implies #[trigger] bit_u64(val, j) == self@[
                bit_offset + j
            ] by {
                lemma_unit_read_bit(self@, bit_offset as int, bit_width as int, j);
            };
            assert forall|j: int| bit_width <= j < 64 implies !(#[trigger] bit_u64(val, j)) by {
                lemma_unit_read_bit(self@, bit_offset as int, bit_width as int, j);
            };
        }
        val
    }

    /// Writes the `bit_width` lowest bits of `val` into the run of bits
    /// starting at `bit_offset`, leaving every bit outside the run
    /// unchanged.
    pub fn set(&mut self, bit_offset: usize, bit_width: u8, val: u64)
        requires
            bit_width <= 64,
            bit_offset + bit_width <= 8 * N,
            8 * N <= usize::MAX,
        ensures
            final(self)@ == unit_write(old(self)@, bit_offset as int, bit_width as int, val),
            final(self).bytes().len() == old(self).bytes().len(),
    {
        let ghost bits0 = self@;
        let mut i: usize = 0;
        while i < bit_width as usize
            invariant
                i <= bit_width,
                bit_width <= 64,
                bit_offset + bit_width <= 8 * N,
                8 * N <= usize::MAX,
                self@.len() == bits0.len(),
                self.bytes().len() == N,
                bits0.len() == 8 * N,
                forall|j: int|
                    0 <= j < bits0.len() && !(bit_offset <= j < bit_offset + i) ==> self@[j]
                        == bits0[j],
                forall|j: int|
                    bit_offset <= j < bit_offset + i ==> self@[j] == bit_u64(val, j - bit_offset),
            decreases bit_width as usize - i,
        {
            let mask: u64 = 1u64 << (i as u32);
            let val_bit_is_set = val & mask == mask;
            proof {
                let k = i as u64;
                assert((val & (1u64 << k) == (1u64 << k)) == (((val >> k) & 1) == 1))
                    by (bit_vector)
                    requires
                        k < 64,
                ;
                assert((1u64 << (i as u32)) == (1u64 << k));
            }
            self.set_bit(bit_offset + i, val_bit_is_set);
            i += 1;
        }
        proof {
            assert(self@ =~= unit_write(bits0, bit_offset as int, bit_width as int, val));
        }
    }

    /// Sets or clears bit `index` of the buffer, leaving every other bit
    /// unchanged.
    pub fn set_bit(&mut self, index: usize, val: bool)
        requires
            index < 8 * N,
        ensures
            final(self)@ == old(self)@.update(index as int, val),
            final(self).bytes().len() == old(self).bytes().len(),
    {
        let ghost bits0 = self@;
        let ghost bytes0 = self.storage@;
        let byte_index = index / 8;
        let bit_index = index % 8;
        let mask: u8 = 1u8 << (bit_index as u32);
        let b = self.storage[byte_index];
        let nb = if val {
            b | mask
        } else {
            b & !mask
        };
        self.storage[byte_index] = nb;
        proof {
            let i = index as int;
            lemma_byte_mask_bits(b, (index % 8) as u8);
            assert(self.storage@ == bytes0.update(i / 8, nb));
            assert forall|k: int| 0 <= k < bits0.len() implies self@[k] == bits0.update(i, val)[k] by {
                vstd::arithmetic::div_mod::lemma_fundamental_div_mod(k, 8);
                vstd::arithmetic::div_mod::lemma_fundamental_div_mod(i, 8);
                let jj = (k % 8) as u8;
                let ii = (i % 8) as u8;
                assert(self@[k] == byte_bit(self.storage@[k / 8], k % 8));
                if k / 8 == i / 8 {
                    assert(self.storage@[k / 8] == nb);
                    if val {
                        assert(((nb >> jj) & 1) == (if ii == jj {
                            1u8
                        } else {
                            (b >> jj) & 1
                        }));
                    } else {
                        assert(((nb >> jj) & 1) == (if ii == jj {
                            0u8
                        } else {
                            (b >> jj) & 1
                        }));
                    }
                    if k == i {
                        assert(ii == jj);
                        assert(self@[k] == val);
                    } else {
                        assert(k % 8 != i % 8);
                        assert(ii != jj);
                        assert(byte_bit(nb, k % 8) == byte_bit(b, k % 8));
                    }
                } else {
                    assert(self.storage@[k / 8] == bytes0[k / 8]);
                }
            };
            assert(self@ =~= bits0.update(i, val));
        }
    }
}

impl<const N: usize> Default for __BindgenBitfieldUnit<N> {
    /// A unit whose bits are all clear.
    fn default() -> (r: Self)
        ensures
            r.bytes() == Seq::<u8>::new(N as nat, |i: int| 0u8),
    {
        let storage = vstd::array::array_fill_for_copy_types::<u8, N>(0u8);
        proof {
            assert(storage@ =~= Seq::<u8>::new(N as nat, |i: int| 0u8));
        }
        Self { storage }
    }
}

/// Bit `i` of `unit_read(bits, off, w)` is the stored bit `bits[off + i]`
/// when `i < w`, and clear when `i >= w`.
pub proof fn lemma_unit_read_bit(bits: Seq<bool>, off: int, w: int, i: int)
    requires
        0 <= off,
        0 <= w <= 64,
        off + w <= bits.len(),
        0 <= i < 64,
    ensures
        bit_u64(unit_read(bits, off, w), i) == (i < w && bits[off + i]),
    decreases w,
{
    let ii = i as u64;
    if w <= 0 {
        assert(((0u64 >> ii) & 1) != 1) by (bit_vector);
    } else {
        lemma_unit_read_bit(bits, off, w - 1, i);
        let a = unit_read(bits, off, w - 1);
        let c: u64 = if bits[off + w - 1] {
            (1u64 << ((w - 1) as u64)) as u64
        } else {
            0u64
        };
        assert((((a | c) >> ii) & 1 == 1) == (((a >> ii) & 1 == 1) || ((c >> ii) & 1 == 1)))
            by (bit_vector);
        if bits[off + w - 1] {
            let s = (w - 1) as u64;
            assert(((((1u64 << s) as u64) >> ii) & 1 == 1) == (s == ii))
                by (bit_vector)
                requires
                    s < 64,
                    ii < 64,
            ;
        } else {
            assert(((0u64 >> ii) & 1) != 1) by (bit_vector);
        }
    }
}

/// A unit's backing storage holds exactly `N` bytes.
pub proof fn lemma_unit_bytes_len<const N: usize>(u: __BindgenBitfieldUnit<N>)
    ensures
        u.bytes().len() == N,
{
}

/// Units with the same backing bytes are the same unit.
pub proof fn lemma_unit_bytes_injective<const N: usize>(
    a: __BindgenBitfieldUnit<N>,
    b: __BindgenBitfieldUnit<N>,
)
    requires
        a.bytes() == b.bytes(),
    ensures
        a == b,
{
    assert(a.storage@ =~= b.storage@);
    assert(a =~= b);
}

/// Two buffers that agree on a bit run hold the same value in it.
pub proof fn lemma_unit_read_frame(b1: Seq<bool>, b2: Seq<bool>, off: int, w: int)
    requires
        0 <= off,
        0 <= w <= 64,
        off + w <= b1.len(),
        off + w <= b2.len(),
        forall|j: int| off <= j < off + w ==> b1[j] == b2[j],
    ensures
        unit_read(b1, off, w) == unit_read(b2, off, w),
    decreases w,
{
    if w <= 0 {
    } else {
        lemma_unit_read_frame(b1, b2, off, w - 1);
    }
}

/// `unit_read` never exceeds the `w`-bit mask.
pub proof fn lemma_unit_read_bound(bits: Seq<bool>, off: int, w: int)
    requires
        0 <= off,
        0 <= w <= 64,
        off + w <= bits.len(),
    ensures
        unit_read(bits, off, w) <= low_mask(w),
    decreases w,
{
    if w <= 0 {
    } else {
        lemma_unit_read_bound(bits, off, w - 1);
        let a = unit_read(bits, off, w - 1);
        let r = unit_read(bits, off, w);
        let s = (w - 1) as u64;
        if w == 64 {
        } else if w == 1 {
            if bits[off] {
                assert((0u64 | ((1u64 << 0u64) as u64)) <= (((1u64 << 1u64) - 1) as u64))
                    by (bit_vector);
            } else {
                assert((0u64 | 0u64) <= (((1u64 << 1u64) - 1) as u64)) by (bit_vector);
            }
        } else {
            let ww = w as u64;
            assert(low_mask(w - 1) == ((1u64 << s) - 1) as u64);
            assert(low_mask(w) == ((1u64 << ww) - 1) as u64);
            if bits[off + w - 1] {
                assert(a <= ((1u64 << s) - 1) as u64 ==> (a | ((1u64 << s) as u64)) <= ((1u64 << (
                s + 1)) - 1) as u64)
                    by (bit_vector)
                    requires
                        s < 63,
                ;
            } else {
                assert(a <= ((1u64 << s) - 1) as u64 ==> (a | 0u64) <= ((1u64 << (s + 1)) - 1)
                    as u64)
                    by (bit_vector)
                    requires
                        s < 63,
                ;
            }
            assert(s + 1 == ww);
        }
    }
}

/// Writing a `w`-bit run and reading the same run back yields the written
/// value truncated to its `w` lowest bits, whatever the buffer held before.
pub proof fn lemma_unit_read_write_roundtrip(bits: Seq<bool>, off: int, w: int, v: u64)
    requires
        0 <= off,
        0 <= w <= 64,
        off + w <= bits.len(),
    ensures
        unit_read(unit_write(bits, off, w, v), off, w) == v & low_mask(w),
{
    lemma_read_write_prefix(bits, off, w, v, w);
}

/// Reading back any prefix of a freshly written `w`-bit run yields the
/// written value truncated to that prefix.
proof fn lemma_read_write_prefix(bits: Seq<bool>, off: int, w: int, v: u64, k: int)
    requires
        0 <= off,
        0 <= k <= w <= 64,
        off + w <= bits.len(),
    ensures
        unit_read(unit_write(bits, off, w, v), off, k) == v & low_mask(k),
    decreases k,
{
    let wr = unit_write(bits, off, w, v);
    if k <= 0 {
        assert(v & 0u64 == 0u64) by (bit_vector);
    } else {
        lemma_read_write_prefix(bits, off, w, v, k - 1);
        let a = unit_read(wr, off, k - 1);
        let r = unit_read(wr, off, k);
        let s = (k - 1) as u64;
        assert(wr[off + k - 1] == bit_u64(v, k - 1));
        if k == 64 {
            if bit_u64(v, 63) {
                assert(((v >> 63u64) & 1 == 1) ==> ((v & (((1u64 << 63u64) - 1) as u64)) | ((1u64
                    << 63u64) as u64)) == (v & 0xffff_ffff_ffff_ffffu64)) by (bit_vector);
            } else {
                assert(((v >> 63u64) & 1 != 1) ==> ((v & (((1u64 << 63u64) - 1) as u64)) | 0u64)
                    == (v & 0xffff_ffff_ffff_ffffu64)) by (bit_vector);
            }
        } else if k == 1 {
            if bit_u64(v, 0) {
                assert(((v >> 0u64) & 1 == 1) ==> ((v & 0u64) | ((1u64 << 0u64) as u64)) == (v & ((
                (1u64 << 1u64) - 1) as u64))) by (bit_vector);
            } else {
                assert(((v >> 0u64) & 1 != 1) ==> ((v & 0u64) | 0u64) == (v & (((1u64 << 1u64)
                    - 1) as u64))) by (bit_vector);
            }
        } else {
            let kk = k as u64;
            assert(low_mask(k - 1) == ((1u64 << s) - 1) as u64);
            assert(low_mask(k) == ((1u64 << kk) - 1) as u64);
            if bit_u64(v, k - 1) {
                assert(((v >> s) & 1 == 1) ==> ((v & (((1u64 << s) - 1) as u64)) | ((1u64 << s)
                    as u64)) == (v & (((1u64 << (s + 1)) - 1) as u64)))
                    by (bit_vector)
                    requires
                        s < 63,
                ;
            } else {
                assert(((v >> s) & 1 != 1) ==> ((v & (((1u64 << s) - 1) as u64)) | 0u64) == (v & ((
                (1u64 << (s + 1)) - 1) as u64)))
                    by (bit_vector)
                    requires
                        s < 63,
                ;
            }
            assert(s + 1 == kk);
        }
    }
}

/// Setting a single bit and reading it back yields the written bit, and no
/// neighboring bit changes.
pub proof fn lemma_single_bit_roundtrip(bits: Seq<bool>, i: int, b: bool)
    requires
        0 <= i < bits.len(),
    ensures
        bits.update(i, b)[i] == b,
        forall|j: int| 0 <= j < bits.len() && j != i ==> bits.update(i, b)[j] == bits[j],
{
}

/// Testing a byte against a single-bit mask reads that bit.
proof fn lemma_byte_test(b: u8, i: u8)
    by (bit_vector)
    requires
        i < 8,
    ensures
        (b & (1u8 << i) == (1u8 << i)) == (((b >> i) & 1) == 1),
{
}

/// OR with a single-bit mask sets that bit; AND with its complement clears
/// it; neither touches any other bit.
proof fn lemma_byte_mask_bits(b: u8, i: u8)
    by (bit_vector)
    requires
        i < 8,
    ensures
        forall|j: u8|
            j < 8 ==> #[trigger] (((b | (1u8 << i)) >> j) & 1) == (if i == j {
                1u8
            } else {
                (b >> j) & 1
            }),
        forall|j: u8|
            j < 8 ==> #[trigger] (((b & !(1u8 << i)) >> j) & 1) == (if i == j {
                0u8
            } else {
                (b >> j) & 1
            }),
{
}

} // verus!
