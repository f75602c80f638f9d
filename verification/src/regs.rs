//! Per-vCPU register state: `kvm_regs`, `kvm_sregs` and their parts.
//!
//! These are the structures a VMM passes through the register get/set
//! ioctls: the general-purpose register block, the segment and descriptor
//! table registers, and the empty synchronized-register block of this
//! kernel snapshot.

use vstd::prelude::*;

verus! {

broadcast use vstd::array::group_array_axioms;

use crate::codec::CodecError;
use crate::codec::lemma_concat_assoc;
use crate::codec::lemma_concat_empty_left;
use crate::codec::lemma_concat_empty_right;
use crate::codec::lemma_concat_parts;
use crate::codec::lemma_le_bytes_zero;
use crate::codec::lemma_seq_parts;
use crate::codec::lemma_subrange_subrange;
use crate::codec::lemma_u16_le_bytes_of;
use crate::codec::lemma_u16_le_roundtrip;
use crate::codec::lemma_u32_le_bytes_of;
use crate::codec::lemma_u32_le_roundtrip;
use crate::codec::lemma_u64_le_bytes_of;
use crate::codec::lemma_u64_le_roundtrip;
use crate::codec::lemma_zero_bytes_split;
use crate::codec::push_u16_le;
use crate::codec::push_u32_le;
use crate::codec::push_u64_le;
use crate::codec::push_u8;
use crate::codec::read_u16_le;
use crate::codec::read_u32_le;
use crate::codec::read_u64_le;
use crate::codec::read_u8;
use crate::codec::u16_le_bytes;
use crate::codec::u16_of_le_bytes;
use crate::codec::u32_le_bytes;
use crate::codec::u32_of_le_bytes;
use crate::codec::u64_le_bytes;
use crate::codec::u64_of_le_bytes;
use crate::codec::zero_bytes;

/// Byte size of the `kvm_segment` kernel image.
pub const KVM_SEGMENT_SIZE: usize = 24;

/// One x86 segment register: its base, limit, selector and access flags.
#[derive(Clone, Copy, Debug, PartialEq)]
#[verifier::ext_equal]
pub struct kvm_segment {
    pub base: u64,
    pub limit: u32,
    pub selector: u16,
    pub type_: u8,
    pub present: u8,
    pub dpl: u8,
    pub db: u8,
    pub s: u8,
    pub l: u8,
    pub g: u8,
    pub avl: u8,
    pub unusable: u8,
    pub padding: u8,
}

impl kvm_segment {
    /// The 24-byte kernel image of `self`: every field little-endian
    /// at its kernel offset.
    pub open spec fn spec_bytes(self) -> Seq<u8> {
        u64_le_bytes(self.base) + u32_le_bytes(self.limit) + u16_le_bytes(self.selector) + seq![self.type_] + seq![self.present] + seq![self.dpl] + seq![self.db] + seq![self.s] + seq![self.l] + seq![self.g] + seq![self.avl] + seq![self.unusable] + seq![self.padding]
    }

    /// Every field of `self` holds zero.
    pub open spec fn is_zeroed(self) -> bool {
        self.base == 0 && self.limit == 0 && self.selector == 0 && self.type_ == 0 && self.present == 0 && self.dpl == 0 && self.db == 0 && self.s == 0 && self.l == 0 && self.g == 0 && self.avl == 0 && self.unusable == 0 && self.padding == 0
    }

    /// Appends the image of `self` to `out`.
    pub fn push_image(&self, out: &mut Vec<u8>)
        ensures
            final(out)@ == old(out)@ + self.spec_bytes(),
    {
        let ghost base: Seq<u8> = out@;
        push_u64_le(out, self.base);
        let ghost mut acc: Seq<u8> = u64_le_bytes(self.base);
        push_u32_le(out, self.limit);
        proof {
            lemma_concat_assoc(base, acc, u32_le_bytes(self.limit));
            acc = acc + (u32_le_bytes(self.limit));
        }
        push_u16_le(out, self.selector);
        proof {
            lemma_concat_assoc(base, acc, u16_le_bytes(self.selector));
            acc = acc + (u16_le_bytes(self.selector));
        }
        push_u8(out, self.type_);
        proof {
            lemma_concat_assoc(base, acc, seq![self.type_]);
            acc = acc + (seq![self.type_]);
        }
        push_u8(out, self.present);
        proof {
            lemma_concat_assoc(base, acc, seq![self.present]);
            acc = acc + (seq![self.present]);
        }
        push_u8(out, self.dpl);
        proof {
            lemma_concat_assoc(base, acc, seq![self.dpl]);
            acc = acc + (seq![self.dpl]);
        }
        push_u8(out, self.db);
        proof {
            lemma_concat_assoc(base, acc, seq![self.db]);
            acc = acc + (seq![self.db]);
        }
        push_u8(out, self.s);
        proof {
            lemma_concat_assoc(base, acc, seq![self.s]);
            acc = acc + (seq![self.s]);
        }
        push_u8(out, self.l);
        proof {
            lemma_concat_assoc(base, acc, seq![self.l]);
            acc = acc + (seq![self.l]);
        }
        push_u8(out, self.g);
        proof {
            lemma_concat_assoc(base, acc, seq![self.g]);
            acc = acc + (seq![self.g]);
        }
        push_u8(out, self.avl);
        proof {
            lemma_concat_assoc(base, acc, seq![self.avl]);
            acc = acc + (seq![self.avl]);
        }
        push_u8(out, self.unusable);
        proof {
            lemma_concat_assoc(base, acc, seq![self.unusable]);
            acc = acc + (seq![self.unusable]);
        }
        push_u8(out, self.padding);
        proof {
            lemma_concat_assoc(base, acc, seq![self.padding]);
            acc = acc + (seq![self.padding]);
        }
        proof {
            assert(out@ == base + acc);
            assert(acc == self.spec_bytes());
        }
    }

    /// The image of `self` as a fresh buffer.
    pub fn to_bytes(&self) -> (out: Vec<u8>)
        ensures
            out@ == self.spec_bytes(),
            out@.len() == KVM_SEGMENT_SIZE,
    {
        let mut out: Vec<u8> = Vec::new();
        self.push_image(&mut out);
        proof {
            lemma_concat_empty_left(self.spec_bytes());
            lemma_kvm_segment_bytes_len(*self);
        }
        out
    }

    /// Reads the structure whose image starts at offset `off` of `buf`.
    pub fn read_at(buf: &[u8], off: usize) -> (v: Self)
        requires
            off + KVM_SEGMENT_SIZE <= buf@.len(),
        ensures
            v.spec_bytes() == buf@.subrange(off as int, off as int + KVM_SEGMENT_SIZE),
    {
        let n: usize = buf.len();
        proof {
            assert(off + KVM_SEGMENT_SIZE <= n);
        }
        let v = kvm_segment {
            base: read_u64_le(buf, off),
            limit: read_u32_le(buf, off + 8),
            selector: read_u16_le(buf, off + 12),
            type_: read_u8(buf, off + 14),
            present: read_u8(buf, off + 15),
            dpl: read_u8(buf, off + 16),
            db: read_u8(buf, off + 17),
            s: read_u8(buf, off + 18),
            l: read_u8(buf, off + 19),
            g: read_u8(buf, off + 20),
            avl: read_u8(buf, off + 21),
            unusable: read_u8(buf, off + 22),
            padding: read_u8(buf, off + 23),
        };
        proof {
            lemma_kvm_segment_read_at(v, buf@, off as int);
        }
        v
    }

    /// Reads a structure image from the start of `buf`, failing when the
    /// buffer is too short to hold one.
    pub fn from_bytes(buf: &[u8]) -> (r: Result<Self, CodecError>)
        ensures
            buf@.len() < KVM_SEGMENT_SIZE ==> r == Err::<kvm_segment, CodecError>(
                CodecError::IncompleteBuffer,
            ),
            buf@.len() >= KVM_SEGMENT_SIZE ==> (r matches Ok(v) && v.spec_bytes() == buf@.subrange(
                0,
                KVM_SEGMENT_SIZE as int,
            )),
    {
        if buf.len() < KVM_SEGMENT_SIZE {
            Err(CodecError::IncompleteBuffer)
        } else {
            Ok(Self::read_at(buf, 0))
        }
    }
}

impl Default for kvm_segment {
    /// Every field zero: the zeroed ioctl argument convention.
    fn default() -> (r: Self)
        ensures
            r.is_zeroed(),
    {
        let r = kvm_segment {
            base: 0,
            limit: 0,
            selector: 0,
            type_: 0,
            present: 0,
            dpl: 0,
            db: 0,
            s: 0,
            l: 0,
            g: 0,
            avl: 0,
            unusable: 0,
            padding: 0,
        };
        r
    }
}

/// The image of a `kvm_segment` is exactly 24 bytes.
pub proof fn lemma_kvm_segment_bytes_len(x: kvm_segment)
    ensures
        x.spec_bytes().len() == KVM_SEGMENT_SIZE,
{
}

/// A `kvm_segment` whose fields were decoded from a buffer has that
/// buffer segment as its image.
#[verifier::rlimit(100)]
#[verifier::spinoff_prover]
proof fn lemma_kvm_segment_read_at(v: kvm_segment, b: Seq<u8>, off: int)
    requires
        0 <= off,
        off + KVM_SEGMENT_SIZE <= b.len(),
        v.base == u64_of_le_bytes(b.subrange(off + 0, off + 8)),
        v.limit == u32_of_le_bytes(b.subrange(off + 8, off + 12)),
        v.selector == u16_of_le_bytes(b.subrange(off + 12, off + 14)),
        v.type_ == b[off + 14],
        v.present == b[off + 15],
        v.dpl == b[off + 16],
        v.db == b[off + 17],
        v.s == b[off + 18],
        v.l == b[off + 19],
        v.g == b[off + 20],
        v.avl == b[off + 21],
        v.unusable == b[off + 22],
        v.padding == b[off + 23],
    ensures
        v.spec_bytes() == b.subrange(off, off + KVM_SEGMENT_SIZE),
{
    let s = b.subrange(off, off + KVM_SEGMENT_SIZE as int);
    lemma_u64_le_bytes_of(b.subrange(off + 0, off + 8));
    lemma_u32_le_bytes_of(b.subrange(off + 8, off + 12));
    lemma_u16_le_bytes_of(b.subrange(off + 12, off + 14));
    assert(seq![v.type_] =~= b.subrange(off + 14, off + 15));
    assert(seq![v.present] =~= b.subrange(off + 15, off + 16));
    assert(seq![v.dpl] =~= b.subrange(off + 16, off + 17));
    assert(seq![v.db] =~= b.subrange(off + 17, off + 18));
    assert(seq![v.s] =~= b.subrange(off + 18, off + 19));
    assert(seq![v.l] =~= b.subrange(off + 19, off + 20));
    assert(seq![v.g] =~= b.subrange(off + 20, off + 21));
    assert(seq![v.avl] =~= b.subrange(off + 21, off + 22));
    assert(seq![v.unusable] =~= b.subrange(off + 22, off + 23));
    assert(seq![v.padding] =~= b.subrange(off + 23, off + 24));
    lemma_subrange_subrange(b, off, off + KVM_SEGMENT_SIZE as int, 0, 8);
    lemma_subrange_subrange(b, off, off + KVM_SEGMENT_SIZE as int, 8, 12);
    lemma_subrange_subrange(b, off, off + KVM_SEGMENT_SIZE as int, 12, 14);
    lemma_subrange_subrange(b, off, off + KVM_SEGMENT_SIZE as int, 14, 15);
    lemma_subrange_subrange(b, off, off + KVM_SEGMENT_SIZE as int, 15, 16);
    lemma_subrange_subrange(b, off, off + KVM_SEGMENT_SIZE as int, 16, 17);
    lemma_subrange_subrange(b, off, off + KVM_SEGMENT_SIZE as int, 17, 18);
    lemma_subrange_subrange(b, off, off + KVM_SEGMENT_SIZE as int, 18, 19);
    lemma_subrange_subrange(b, off, off + KVM_SEGMENT_SIZE as int, 19, 20);
    lemma_subrange_subrange(b, off, off + KVM_SEGMENT_SIZE as int, 20, 21);
    lemma_subrange_subrange(b, off, off + KVM_SEGMENT_SIZE as int, 21, 22);
    lemma_subrange_subrange(b, off, off + KVM_SEGMENT_SIZE as int, 22, 23);
    lemma_subrange_subrange(b, off, off + KVM_SEGMENT_SIZE as int, 23, 24);
    lemma_seq_parts(s, 8, 12);
    lemma_seq_parts(s, 12, 14);
    lemma_seq_parts(s, 14, 15);
    lemma_seq_parts(s, 15, 16);
    lemma_seq_parts(s, 16, 17);
    lemma_seq_parts(s, 17, 18);
    lemma_seq_parts(s, 18, 19);
    lemma_seq_parts(s, 19, 20);
    lemma_seq_parts(s, 20, 21);
    lemma_seq_parts(s, 21, 22);
    lemma_seq_parts(s, 22, 23);
    lemma_seq_parts(s, 23, 24);
    assert(s.subrange(0, KVM_SEGMENT_SIZE as int) =~= s);
    assert(v.spec_bytes() == s);
}

/// Field images of a `kvm_segment`, covering one run of fields.
#[verifier::rlimit(100)]
#[verifier::spinoff_prover]
proof fn lemma_kvm_segment_field_images_seg0(x: kvm_segment)
    ensures
        x.spec_bytes().len() == KVM_SEGMENT_SIZE,
        x.spec_bytes().subrange(23, 24) == seq![x.padding],
        x.spec_bytes().subrange(22, 23) == seq![x.unusable],
        x.spec_bytes().subrange(21, 22) == seq![x.avl],
        x.spec_bytes().subrange(20, 21) == seq![x.g],
        x.spec_bytes().subrange(19, 20) == seq![x.l],
        x.spec_bytes().subrange(18, 19) == seq![x.s],
        x.spec_bytes().subrange(17, 18) == seq![x.db],
        x.spec_bytes().subrange(16, 17) == seq![x.dpl],
        x.spec_bytes().subrange(0, 16) == ((((u64_le_bytes(x.base) + u32_le_bytes(x.limit)) + u16_le_bytes(x.selector)) + seq![x.type_]) + seq![x.present]),
{
    lemma_kvm_segment_bytes_len(x);
    let p0 = u64_le_bytes(x.base);
    let p1 = u32_le_bytes(x.limit);
    let p2 = u16_le_bytes(x.selector);
    let p3 = seq![x.type_];
    let p4 = seq![x.present];
    let p5 = seq![x.dpl];
    let p6 = seq![x.db];
    let p7 = seq![x.s];
    let p8 = seq![x.l];
    let p9 = seq![x.g];
    let p10 = seq![x.avl];
    let p11 = seq![x.unusable];
    let p12 = seq![x.padding];
    let t1 = p0 + p1;
    let t2 = t1 + p2;
    let t3 = t2 + p3;
    let t4 = t3 + p4;
    let t5 = t4 + p5;
    let t6 = t5 + p6;
    let t7 = t6 + p7;
    let t8 = t7 + p8;
    let t9 = t8 + p9;
    let t10 = t9 + p10;
    let t11 = t10 + p11;
    let t12 = t11 + p12;
    assert(x.spec_bytes() == t12);
    lemma_concat_parts(t11, p12);
    lemma_concat_parts(t10, p11);
    lemma_subrange_subrange(x.spec_bytes(), 0, 23, 0, 22);
    lemma_subrange_subrange(x.spec_bytes(), 0, 23, 22, 23);
    lemma_concat_parts(t9, p10);
    lemma_subrange_subrange(x.spec_bytes(), 0, 22, 0, 21);
    lemma_subrange_subrange(x.spec_bytes(), 0, 22, 21, 22);
    lemma_concat_parts(t8, p9);
    lemma_subrange_subrange(x.spec_bytes(), 0, 21, 0, 20);
    lemma_subrange_subrange(x.spec_bytes(), 0, 21, 20, 21);
    lemma_concat_parts(t7, p8);
    lemma_subrange_subrange(x.spec_bytes(), 0, 20, 0, 19);
    lemma_subrange_subrange(x.spec_bytes(), 0, 20, 19, 20);
    lemma_concat_parts(t6, p7);
    lemma_subrange_subrange(x.spec_bytes(), 0, 19, 0, 18);
    lemma_subrange_subrange(x.spec_bytes(), 0, 19, 18, 19);
    lemma_concat_parts(t5, p6);
    lemma_subrange_subrange(x.spec_bytes(), 0, 18, 0, 17);
    lemma_subrange_subrange(x.spec_bytes(), 0, 18, 17, 18);
    lemma_concat_parts(t4, p5);
    lemma_subrange_subrange(x.spec_bytes(), 0, 17, 0, 16);
    lemma_subrange_subrange(x.spec_bytes(), 0, 17, 16, 17);
}

/// Field images of a `kvm_segment`, covering one run of fields.
#[verifier::rlimit(100)]
#[verifier::spinoff_prover]
proof fn lemma_kvm_segment_field_images_seg1(x: kvm_segment)
    ensures
        x.spec_bytes().len() == KVM_SEGMENT_SIZE,
        x.spec_bytes().subrange(15, 16) == seq![x.present],
        x.spec_bytes().subrange(14, 15) == seq![x.type_],
        x.spec_bytes().subrange(12, 14) == u16_le_bytes(x.selector),
        x.spec_bytes().subrange(8, 12) == u32_le_bytes(x.limit),
        x.spec_bytes().subrange(0, 8) == u64_le_bytes(x.base),
{
    lemma_kvm_segment_bytes_len(x);
    let p0 = u64_le_bytes(x.base);
    let p1 = u32_le_bytes(x.limit);
    let p2 = u16_le_bytes(x.selector);
    let p3 = seq![x.type_];
    let p4 = seq![x.present];
    let t1 = p0 + p1;
    let t2 = t1 + p2;
    let t3 = t2 + p3;
    let t4 = t3 + p4;
    lemma_kvm_segment_field_images_seg0(x);
    lemma_concat_parts(t3, p4);
    lemma_subrange_subrange(x.spec_bytes(), 0, 16, 0, 15);
    lemma_subrange_subrange(x.spec_bytes(), 0, 16, 15, 16);
    lemma_concat_parts(t2, p3);
    lemma_subrange_subrange(x.spec_bytes(), 0, 15, 0, 14);
    lemma_subrange_subrange(x.spec_bytes(), 0, 15, 14, 15);
    lemma_concat_parts(t1, p2);
    lemma_subrange_subrange(x.spec_bytes(), 0, 14, 0, 12);
    lemma_subrange_subrange(x.spec_bytes(), 0, 14, 12, 14);
    lemma_concat_parts(p0, p1);
    lemma_subrange_subrange(x.spec_bytes(), 0, 12, 0, 8);
    lemma_subrange_subrange(x.spec_bytes(), 0, 12, 8, 12);
}

/// Each field's image stands at its kernel offset inside the image of
/// a `kvm_segment`.
proof fn lemma_kvm_segment_field_images(x: kvm_segment)
    ensures
        x.spec_bytes().len() == KVM_SEGMENT_SIZE,
        x.spec_bytes().subrange(0, 8) == u64_le_bytes(x.base),
        x.spec_bytes().subrange(8, 12) == u32_le_bytes(x.limit),
        x.spec_bytes().subrange(12, 14) == u16_le_bytes(x.selector),
        x.spec_bytes().subrange(14, 15) == seq![x.type_],
        x.spec_bytes().subrange(15, 16) == seq![x.present],
        x.spec_bytes().subrange(16, 17) == seq![x.dpl],
        x.spec_bytes().subrange(17, 18) == seq![x.db],
        x.spec_bytes().subrange(18, 19) == seq![x.s],
        x.spec_bytes().subrange(19, 20) == seq![x.l],
        x.spec_bytes().subrange(20, 21) == seq![x.g],
        x.spec_bytes().subrange(21, 22) == seq![x.avl],
        x.spec_bytes().subrange(22, 23) == seq![x.unusable],
        x.spec_bytes().subrange(23, 24) == seq![x.padding],
{
    lemma_kvm_segment_field_images_seg0(x);
    lemma_kvm_segment_field_images_seg1(x);
}

/// The byte image determines the structure: reading an image back
/// always yields the one value that produced it.
pub proof fn lemma_kvm_segment_image_injective(a: kvm_segment, b: kvm_segment)
    requires
        a.spec_bytes() == b.spec_bytes(),
    ensures
        a == b,
{
    lemma_kvm_segment_field_images(a);
    lemma_kvm_segment_field_images(b);
    lemma_u64_le_roundtrip(a.base);
    lemma_u64_le_roundtrip(b.base);
    lemma_u32_le_roundtrip(a.limit);
    lemma_u32_le_roundtrip(b.limit);
    lemma_u16_le_roundtrip(a.selector);
    lemma_u16_le_roundtrip(b.selector);
    assert(a.type_ == seq![a.type_][0] && b.type_ == seq![b.type_][0]);
    assert(a.present == seq![a.present][0] && b.present == seq![b.present][0]);
    assert(a.dpl == seq![a.dpl][0] && b.dpl == seq![b.dpl][0]);
    assert(a.db == seq![a.db][0] && b.db == seq![b.db][0]);
    assert(a.s == seq![a.s][0] && b.s == seq![b.s][0]);
    assert(a.l == seq![a.l][0] && b.l == seq![b.l][0]);
    assert(a.g == seq![a.g][0] && b.g == seq![b.g][0]);
    assert(a.avl == seq![a.avl][0] && b.avl == seq![b.avl][0]);
    assert(a.unusable == seq![a.unusable][0] && b.unusable == seq![b.unusable][0]);
    assert(a.padding == seq![a.padding][0] && b.padding == seq![b.padding][0]);
    assert(a =~= b);
}

/// A `kvm_segment` whose fields are all zero has an all-zero byte image,
/// the image of a zeroed ioctl argument buffer.
pub proof fn lemma_kvm_segment_zero_image(x: kvm_segment)
    requires
        x.is_zeroed(),
    ensures
        x.spec_bytes() == zero_bytes(KVM_SEGMENT_SIZE as int),
{
    lemma_le_bytes_zero();
    assert(seq![x.type_] =~= zero_bytes(1));
    assert(seq![x.present] =~= zero_bytes(1));
    assert(seq![x.dpl] =~= zero_bytes(1));
    assert(seq![x.db] =~= zero_bytes(1));
    assert(seq![x.s] =~= zero_bytes(1));
    assert(seq![x.l] =~= zero_bytes(1));
    assert(seq![x.g] =~= zero_bytes(1));
    assert(seq![x.avl] =~= zero_bytes(1));
    assert(seq![x.unusable] =~= zero_bytes(1));
    assert(seq![x.padding] =~= zero_bytes(1));
    lemma_zero_bytes_split(8, 12);
    lemma_zero_bytes_split(12, 14);
    lemma_zero_bytes_split(14, 15);
    lemma_zero_bytes_split(15, 16);
    lemma_zero_bytes_split(16, 17);
    lemma_zero_bytes_split(17, 18);
    lemma_zero_bytes_split(18, 19);
    lemma_zero_bytes_split(19, 20);
    lemma_zero_bytes_split(20, 21);
    lemma_zero_bytes_split(21, 22);
    lemma_zero_bytes_split(22, 23);
    lemma_zero_bytes_split(23, 24);
    assert(x.spec_bytes() == zero_bytes(KVM_SEGMENT_SIZE as int));
}

/// Byte size of the `kvm_dtable` kernel image.
pub const KVM_DTABLE_SIZE: usize = 16;

/// A descriptor table register (GDTR or IDTR): base address and limit.
#[derive(Clone, Copy, Debug, PartialEq)]
#[verifier::ext_equal]
pub struct kvm_dtable {
    pub base: u64,
    pub limit: u16,
    pub padding: [u16; 3],
}

impl kvm_dtable {
    /// The 16-byte kernel image of `self`: every field little-endian
    /// at its kernel offset.
    pub open spec fn spec_bytes(self) -> Seq<u8> {
        u64_le_bytes(self.base) + u16_le_bytes(self.limit) + u16_le_bytes(self.padding@[0]) + u16_le_bytes(self.padding@[1]) + u16_le_bytes(self.padding@[2])
    }

    /// Every field of `self` holds zero.
    pub open spec fn is_zeroed(self) -> bool {
        self.base == 0 && self.limit == 0 && self.padding@ == Seq::new(3, |i: int| 0u16)
    }

    /// Appends the image of `self` to `out`.
    pub fn push_image(&self, out: &mut Vec<u8>)
        ensures
            final(out)@ == old(out)@ + self.spec_bytes(),
    {
        let ghost base: Seq<u8> = out@;
        push_u64_le(out, self.base);
        let ghost mut acc: Seq<u8> = u64_le_bytes(self.base);
        push_u16_le(out, self.limit);
        proof {
            lemma_concat_assoc(base, acc, u16_le_bytes(self.limit));
            acc = acc + (u16_le_bytes(self.limit));
        }
        push_u16_le(out, self.padding[0]);
        proof {
            lemma_concat_assoc(base, acc, u16_le_bytes(self.padding@[0]));
            acc = acc + (u16_le_bytes(self.padding@[0]));
        }
        push_u16_le(out, self.padding[1]);
        proof {
            lemma_concat_assoc(base, acc, u16_le_bytes(self.padding@[1]));
            acc = acc + (u16_le_bytes(self.padding@[1]));
        }
        push_u16_le(out, self.padding[2]);
        proof {
            lemma_concat_assoc(base, acc, u16_le_bytes(self.padding@[2]));
            acc = acc + (u16_le_bytes(self.padding@[2]));
        }
        proof {
            assert(out@ == base + acc);
            assert(acc == self.spec_bytes());
        }
    }

    /// The image of `self` as a fresh buffer.
    pub fn to_bytes(&self) -> (out: Vec<u8>)
        ensures
            out@ == self.spec_bytes(),
            out@.len() == KVM_DTABLE_SIZE,
    {
        let mut out: Vec<u8> = Vec::new();
        self.push_image(&mut out);
        proof {
            lemma_concat_empty_left(self.spec_bytes());
            lemma_kvm_dtable_bytes_len(*self);
        }
        out
    }

    /// Reads the structure whose image starts at offset `off` of `buf`.
    pub fn read_at(buf: &[u8], off: usize) -> (v: Self)
        requires
            off + KVM_DTABLE_SIZE <= buf@.len(),
        ensures
            v.spec_bytes() == buf@.subrange(off as int, off as int + KVM_DTABLE_SIZE),
    {
        let n: usize = buf.len();
        proof {
            assert(off + KVM_DTABLE_SIZE <= n);
        }
        let v = kvm_dtable {
            base: read_u64_le(buf, off),
            limit: read_u16_le(buf, off + 8),
            padding: [read_u16_le(buf, off + 10), read_u16_le(buf, off + 12), read_u16_le(buf, off + 14)],
        };
        proof {
            lemma_kvm_dtable_read_at(v, buf@, off as int);
        }
        v
    }

    /// Reads a structure image from the start of `buf`, failing when the
    /// buffer is too short to hold one.
    pub fn from_bytes(buf: &[u8]) -> (r: Result<Self, CodecError>)
        ensures
            buf@.len() < KVM_DTABLE_SIZE ==> r == Err::<kvm_dtable, CodecError>(
                CodecError::IncompleteBuffer,
            ),
            buf@.len() >= KVM_DTABLE_SIZE ==> (r matches Ok(v) && v.spec_bytes() == buf@.subrange(
                0,
                KVM_DTABLE_SIZE as int,
            )),
    {
        if buf.len() < KVM_DTABLE_SIZE {
            Err(CodecError::IncompleteBuffer)
        } else {
            Ok(Self::read_at(buf, 0))
        }
    }
}

impl Default for kvm_dtable {
    /// Every field zero: the zeroed ioctl argument convention.
    fn default() -> (r: Self)
        ensures
            r.is_zeroed(),
    {
        let r = kvm_dtable {
            base: 0,
            limit: 0,
            padding: vstd::array::array_fill_for_copy_types::<u16, 3>(0u16),
        };
        proof {
            assert(r.padding@ =~= Seq::new(3, |i: int| 0u16));
        }
        r
    }
}

/// The image of a `kvm_dtable` is exactly 16 bytes.
pub proof fn lemma_kvm_dtable_bytes_len(x: kvm_dtable)
    ensures
        x.spec_bytes().len() == KVM_DTABLE_SIZE,
{
}

/// A `kvm_dtable` whose fields were decoded from a buffer has that
/// buffer segment as its image.
#[verifier::rlimit(100)]
#[verifier::spinoff_prover]
proof fn lemma_kvm_dtable_read_at(v: kvm_dtable, b: Seq<u8>, off: int)
    requires
        0 <= off,
        off + KVM_DTABLE_SIZE <= b.len(),
        v.base == u64_of_le_bytes(b.subrange(off + 0, off + 8)),
        v.limit == u16_of_le_bytes(b.subrange(off + 8, off + 10)),
        v.padding@[0] == u16_of_le_bytes(b.subrange(off + 10, off + 12)),
        v.padding@[1] == u16_of_le_bytes(b.subrange(off + 12, off + 14)),
        v.padding@[2] == u16_of_le_bytes(b.subrange(off + 14, off + 16)),
    ensures
        v.spec_bytes() == b.subrange(off, off + KVM_DTABLE_SIZE),
{
    let s = b.subrange(off, off + KVM_DTABLE_SIZE as int);
    lemma_u64_le_bytes_of(b.subrange(off + 0, off + 8));
    lemma_u16_le_bytes_of(b.subrange(off + 8, off + 10));
    lemma_u16_le_bytes_of(b.subrange(off + 10, off + 12));
    lemma_u16_le_bytes_of(b.subrange(off + 12, off + 14));
    lemma_u16_le_bytes_of(b.subrange(off + 14, off + 16));
    lemma_subrange_subrange(b, off, off + KVM_DTABLE_SIZE as int, 0, 8);
    lemma_subrange_subrange(b, off, off + KVM_DTABLE_SIZE as int, 8, 10);
    lemma_subrange_subrange(b, off, off + KVM_DTABLE_SIZE as int, 10, 12);
    lemma_subrange_subrange(b, off, off + KVM_DTABLE_SIZE as int, 12, 14);
    lemma_subrange_subrange(b, off, off + KVM_DTABLE_SIZE as int, 14, 16);
    lemma_seq_parts(s, 8, 10);
    lemma_seq_parts(s, 10, 12);
    lemma_seq_parts(s, 12, 14);
    lemma_seq_parts(s, 14, 16);
    assert(s.subrange(0, KVM_DTABLE_SIZE as int) =~= s);
    assert(v.spec_bytes() == s);
}

/// Field images of a `kvm_dtable`, covering one run of fields.
#[verifier::rlimit(100)]
#[verifier::spinoff_prover]
proof fn lemma_kvm_dtable_field_images_seg0(x: kvm_dtable)
    ensures
        x.spec_bytes().len() == KVM_DTABLE_SIZE,
        x.spec_bytes().subrange(14, 16) == u16_le_bytes(x.padding@[2]),
        x.spec_bytes().subrange(12, 14) == u16_le_bytes(x.padding@[1]),
        x.spec_bytes().subrange(10, 12) == u16_le_bytes(x.padding@[0]),
        x.spec_bytes().subrange(8, 10) == u16_le_bytes(x.limit),
        x.spec_bytes().subrange(0, 8) == u64_le_bytes(x.base),
{
    lemma_kvm_dtable_bytes_len(x);
    let p0 = u64_le_bytes(x.base);
    let p1 = u16_le_bytes(x.limit);
    let p2 = u16_le_bytes(x.padding@[0]);
    let p3 = u16_le_bytes(x.padding@[1]);
    let p4 = u16_le_bytes(x.padding@[2]);
    let t1 = p0 + p1;
    let t2 = t1 + p2;
    let t3 = t2 + p3;
    let t4 = t3 + p4;
    assert(x.spec_bytes() == t4);
    lemma_concat_parts(t3, p4);
    lemma_concat_parts(t2, p3);
    lemma_subrange_subrange(x.spec_bytes(), 0, 14, 0, 12);
    lemma_subrange_subrange(x.spec_bytes(), 0, 14, 12, 14);
    lemma_concat_parts(t1, p2);
    lemma_subrange_subrange(x.spec_bytes(), 0, 12, 0, 10);
    lemma_subrange_subrange(x.spec_bytes(), 0, 12, 10, 12);
    lemma_concat_parts(p0, p1);
    lemma_subrange_subrange(x.spec_bytes(), 0, 10, 0, 8);
    lemma_subrange_subrange(x.spec_bytes(), 0, 10, 8, 10);
}

/// Each field's image stands at its kernel offset inside the image of
/// a `kvm_dtable`.
proof fn lemma_kvm_dtable_field_images(x: kvm_dtable)
    ensures
        x.spec_bytes().len() == KVM_DTABLE_SIZE,
        x.spec_bytes().subrange(0, 8) == u64_le_bytes(x.base),
        x.spec_bytes().subrange(8, 10) == u16_le_bytes(x.limit),
        x.spec_bytes().subrange(10, 12) == u16_le_bytes(x.padding@[0]),
        x.spec_bytes().subrange(12, 14) == u16_le_bytes(x.padding@[1]),
        x.spec_bytes().subrange(14, 16) == u16_le_bytes(x.padding@[2]),
{
    lemma_kvm_dtable_field_images_seg0(x);
}

/// The byte image determines the structure: reading an image back
/// always yields the one value that produced it.
pub proof fn lemma_kvm_dtable_image_injective(a: kvm_dtable, b: kvm_dtable)
    requires
        a.spec_bytes() == b.spec_bytes(),
    ensures
        a == b,
{
    lemma_kvm_dtable_field_images(a);
    lemma_kvm_dtable_field_images(b);
    lemma_u64_le_roundtrip(a.base);
    lemma_u64_le_roundtrip(b.base);
    lemma_u16_le_roundtrip(a.limit);
    lemma_u16_le_roundtrip(b.limit);
    lemma_u16_le_roundtrip(a.padding@[0]);
    lemma_u16_le_roundtrip(b.padding@[0]);
    lemma_u16_le_roundtrip(a.padding@[1]);
    lemma_u16_le_roundtrip(b.padding@[1]);
    lemma_u16_le_roundtrip(a.padding@[2]);
    lemma_u16_le_roundtrip(b.padding@[2]);
    assert(a.padding@ =~= b.padding@);
    assert(a =~= b);
}

/// A `kvm_dtable` whose fields are all zero has an all-zero byte image,
/// the image of a zeroed ioctl argument buffer.
pub proof fn lemma_kvm_dtable_zero_image(x: kvm_dtable)
    requires
        x.is_zeroed(),
    ensures
        x.spec_bytes() == zero_bytes(KVM_DTABLE_SIZE as int),
{
    lemma_le_bytes_zero();
    lemma_zero_bytes_split(8, 10);
    lemma_zero_bytes_split(10, 12);
    lemma_zero_bytes_split(12, 14);
    lemma_zero_bytes_split(14, 16);
    assert(x.spec_bytes() == zero_bytes(KVM_DTABLE_SIZE as int));
}

/// Byte size of the `kvm_regs` kernel image.
pub const KVM_REGS_SIZE: usize = 144;

/// The general-purpose, instruction-pointer and flags registers of a vCPU.
#[derive(Clone, Copy, Debug, PartialEq)]
#[verifier::ext_equal]
pub struct kvm_regs {
    pub rax: u64,
    pub rbx: u64,
    pub rcx: u64,
    pub rdx: u64,
    pub rsi: u64,
    pub rdi: u64,
    pub rsp: u64,
    pub rbp: u64,
    pub r8: u64,
    pub r9: u64,
    pub r10: u64,
    pub r11: u64,
    pub r12: u64,
    pub r13: u64,
    pub r14: u64,
    pub r15: u64,
    pub rip: u64,
    pub rflags: u64,
}

impl kvm_regs {
    /// The 144-byte kernel image of `self`: every field little-endian
    /// at its kernel offset.
    pub open spec fn spec_bytes(self) -> Seq<u8> {
        u64_le_bytes(self.rax) + u64_le_bytes(self.rbx) + u64_le_bytes(self.rcx) + u64_le_bytes(self.rdx) + u64_le_bytes(self.rsi) + u64_le_bytes(self.rdi) + u64_le_bytes(self.rsp) + u64_le_bytes(self.rbp) + u64_le_bytes(self.r8) + u64_le_bytes(self.r9) + u64_le_bytes(self.r10) + u64_le_bytes(self.r11) + u64_le_bytes(self.r12) + u64_le_bytes(self.r13) + u64_le_bytes(self.r14) + u64_le_bytes(self.r15) + u64_le_bytes(self.rip) + u64_le_bytes(self.rflags)
    }

    /// Every field of `self` holds zero.
    pub open spec fn is_zeroed(self) -> bool {
        self.rax == 0 && self.rbx == 0 && self.rcx == 0 && self.rdx == 0 && self.rsi == 0 && self.rdi == 0 && self.rsp == 0 && self.rbp == 0 && self.r8 == 0 && self.r9 == 0 && self.r10 == 0 && self.r11 == 0 && self.r12 == 0 && self.r13 == 0 && self.r14 == 0 && self.r15 == 0 && self.rip == 0 && self.rflags == 0
    }

    /// Appends the image of `self` to `out`.
    pub fn push_image(&self, out: &mut Vec<u8>)
        ensures
            final(out)@ == old(out)@ + self.spec_bytes(),
    {
        let ghost base: Seq<u8> = out@;
        push_u64_le(out, self.rax);
        let ghost mut acc: Seq<u8> = u64_le_bytes(self.rax);
        push_u64_le(out, self.rbx);
        proof {
            lemma_concat_assoc(base, acc, u64_le_bytes(self.rbx));
            acc = acc + (u64_le_bytes(self.rbx));
        }
        push_u64_le(out, self.rcx);
        proof {
            lemma_concat_assoc(base, acc, u64_le_bytes(self.rcx));
            acc = acc + (u64_le_bytes(self.rcx));
        }
        push_u64_le(out, self.rdx);
        proof {
            lemma_concat_assoc(base, acc, u64_le_bytes(self.rdx));
            acc = acc + (u64_le_bytes(self.rdx));
        }
        push_u64_le(out, self.rsi);
        proof {
            lemma_concat_assoc(base, acc, u64_le_bytes(self.rsi));
            acc = acc + (u64_le_bytes(self.rsi));
        }
        push_u64_le(out, self.rdi);
        proof {
            lemma_concat_assoc(base, acc, u64_le_bytes(self.rdi));
            acc = acc + (u64_le_bytes(self.rdi));
        }
        push_u64_le(out, self.rsp);
        proof {
            lemma_concat_assoc(base, acc, u64_le_bytes(self.rsp));
            acc = acc + (u64_le_bytes(self.rsp));
        }
        push_u64_le(out, self.rbp);
        proof {
            lemma_concat_assoc(base, acc, u64_le_bytes(self.rbp));
            acc = acc + (u64_le_bytes(self.rbp));
        }
        push_u64_le(out, self.r8);
        proof {
            lemma_concat_assoc(base, acc, u64_le_bytes(self.r8));
            acc = acc + (u64_le_bytes(self.r8));
        }
        push_u64_le(out, self.r9);
        proof {
            lemma_concat_assoc(base, acc, u64_le_bytes(self.r9));
            acc = acc + (u64_le_bytes(self.r9));
        }
        push_u64_le(out, self.r10);
        proof {
            lemma_concat_assoc(base, acc, u64_le_bytes(self.r10));
            acc = acc + (u64_le_bytes(self.r10));
        }
        push_u64_le(out, self.r11);
        proof {
            lemma_concat_assoc(base, acc, u64_le_bytes(self.r11));
            acc = acc + (u64_le_bytes(self.r11));
        }
        push_u64_le(out, self.r12);
        proof {
            lemma_concat_assoc(base, acc, u64_le_bytes(self.r12));
            acc = acc + (u64_le_bytes(self.r12));
        }
        push_u64_le(out, self.r13);
        proof {
            lemma_concat_assoc(base, acc, u64_le_bytes(self.r13));
            acc = acc + (u64_le_bytes(self.r13));
        }
        push_u64_le(out, self.r14);
        proof {
            lemma_concat_assoc(base, acc, u64_le_bytes(self.r14));
            acc = acc + (u64_le_bytes(self.r14));
        }
        push_u64_le(out, self.r15);
        proof {
            lemma_concat_assoc(base, acc, u64_le_bytes(self.r15));
            acc = acc + (u64_le_bytes(self.r15));
        }
        push_u64_le(out, self.rip);
        proof {
            lemma_concat_assoc(base, acc, u64_le_bytes(self.rip));
            acc = acc + (u64_le_bytes(self.rip));
        }
        push_u64_le(out, self.rflags);
        proof {
            lemma_concat_assoc(base, acc, u64_le_bytes(self.rflags));
            acc = acc + (u64_le_bytes(self.rflags));
        }
        proof {
            assert(out@ == base + acc);
            assert(acc == self.spec_bytes());
        }
    }

    /// The image of `self` as a fresh buffer.
    pub fn to_bytes(&self) -> (out: Vec<u8>)
        ensures
            out@ == self.spec_bytes(),
            out@.len() == KVM_REGS_SIZE,
    {
        let mut out: Vec<u8> = Vec::new();
        self.push_image(&mut out);
        proof {
            lemma_concat_empty_left(self.spec_bytes());
            lemma_kvm_regs_bytes_len(*self);
        }
        out
    }

    /// Reads the structure whose image starts at offset `off` of `buf`.
    pub fn read_at(buf: &[u8], off: usize) -> (v: Self)
        requires
            off + KVM_REGS_SIZE <= buf@.len(),
        ensures
            v.spec_bytes() == buf@.subrange(off as int, off as int + KVM_REGS_SIZE),
    {
        let n: usize = buf.len();
        proof {
            assert(off + KVM_REGS_SIZE <= n);
        }
        let v = kvm_regs {
            rax: read_u64_le(buf, off),
            rbx: read_u64_le(buf, off + 8),
            rcx: read_u64_le(buf, off + 16),
            rdx: read_u64_le(buf, off + 24),
            rsi: read_u64_le(buf, off + 32),
            rdi: read_u64_le(buf, off + 40),
            rsp: read_u64_le(buf, off + 48),
            rbp: read_u64_le(buf, off + 56),
            r8: read_u64_le(buf, off + 64),
            r9: read_u64_le(buf, off + 72),
            r10: read_u64_le(buf, off + 80),
            r11: read_u64_le(buf, off + 88),
            r12: read_u64_le(buf, off + 96),
            r13: read_u64_le(buf, off + 104),
            r14: read_u64_le(buf, off + 112),
            r15: read_u64_le(buf, off + 120),
            rip: read_u64_le(buf, off + 128),
            rflags: read_u64_le(buf, off + 136),
        };
        proof {
            lemma_kvm_regs_read_at(v, buf@, off as int);
        }
        v
    }

    /// Reads a structure image from the start of `buf`, failing when the
    /// buffer is too short to hold one.
    pub fn from_bytes(buf: &[u8]) -> (r: Result<Self, CodecError>)
        ensures
            buf@.len() < KVM_REGS_SIZE ==> r == Err::<kvm_regs, CodecError>(
                CodecError::IncompleteBuffer,
            ),
            buf@.len() >= KVM_REGS_SIZE ==> (r matches Ok(v) && v.spec_bytes() == buf@.subrange(
                0,
                KVM_REGS_SIZE as int,
            )),
    {
        if buf.len() < KVM_REGS_SIZE {
            Err(CodecError::IncompleteBuffer)
        } else {
            Ok(Self::read_at(buf, 0))
        }
    }
}

impl Default for kvm_regs {
    /// Every field zero: the zeroed ioctl argument convention.
    fn default() -> (r: Self)
        ensures
            r.is_zeroed(),
    {
        let r = kvm_regs {
            rax: 0,
            rbx: 0,
            rcx: 0,
            rdx: 0,
            rsi: 0,
            rdi: 0,
            rsp: 0,
            rbp: 0,
            r8: 0,
            r9: 0,
            r10: 0,
            r11: 0,
            r12: 0,
            r13: 0,
            r14: 0,
            r15: 0,
            rip: 0,
            rflags: 0,
        };
        r
    }
}

/// The image of a `kvm_regs` is exactly 144 bytes.
pub proof fn lemma_kvm_regs_bytes_len(x: kvm_regs)
    ensures
        x.spec_bytes().len() == KVM_REGS_SIZE,
{
}

/// A `kvm_regs` whose fields were decoded from a buffer has that
/// buffer segment as its image.
#[verifier::rlimit(100)]
#[verifier::spinoff_prover]
proof fn lemma_kvm_regs_read_at(v: kvm_regs, b: Seq<u8>, off: int)
    requires
        0 <= off,
        off + KVM_REGS_SIZE <= b.len(),
        v.rax == u64_of_le_bytes(b.subrange(off + 0, off + 8)),
        v.rbx == u64_of_le_bytes(b.subrange(off + 8, off + 16)),
        v.rcx == u64_of_le_bytes(b.subrange(off + 16, off + 24)),
        v.rdx == u64_of_le_bytes(b.subrange(off + 24, off + 32)),
        v.rsi == u64_of_le_bytes(b.subrange(off + 32, off + 40)),
        v.rdi == u64_of_le_bytes(b.subrange(off + 40, off + 48)),
        v.rsp == u64_of_le_bytes(b.subrange(off + 48, off + 56)),
        v.rbp == u64_of_le_bytes(b.subrange(off + 56, off + 64)),
        v.r8 == u64_of_le_bytes(b.subrange(off + 64, off + 72)),
        v.r9 == u64_of_le_bytes(b.subrange(off + 72, off + 80)),
        v.r10 == u64_of_le_bytes(b.subrange(off + 80, off + 88)),
        v.r11 == u64_of_le_bytes(b.subrange(off + 88, off + 96)),
        v.r12 == u64_of_le_bytes(b.subrange(off + 96, off + 104)),
        v.r13 == u64_of_le_bytes(b.subrange(off + 104, off + 112)),
        v.r14 == u64_of_le_bytes(b.subrange(off + 112, off + 120)),
        v.r15 == u64_of_le_bytes(b.subrange(off + 120, off + 128)),
        v.rip == u64_of_le_bytes(b.subrange(off + 128, off + 136)),
        v.rflags == u64_of_le_bytes(b.subrange(off + 136, off + 144)),
    ensures
        v.spec_bytes() == b.subrange(off, off + KVM_REGS_SIZE),
{
    let s = b.subrange(off, off + KVM_REGS_SIZE as int);
    lemma_u64_le_bytes_of(b.subrange(off + 0, off + 8));
    lemma_u64_le_bytes_of(b.subrange(off + 8, off + 16));
    lemma_u64_le_bytes_of(b.subrange(off + 16, off + 24));
    lemma_u64_le_bytes_of(b.subrange(off + 24, off + 32));
    lemma_u64_le_bytes_of(b.subrange(off + 32, off + 40));
    lemma_u64_le_bytes_of(b.subrange(off + 40, off + 48));
    lemma_u64_le_bytes_of(b.subrange(off + 48, off + 56));
    lemma_u64_le_bytes_of(b.subrange(off + 56, off + 64));
    lemma_u64_le_bytes_of(b.subrange(off + 64, off + 72));
    lemma_u64_le_bytes_of(b.subrange(off + 72, off + 80));
    lemma_u64_le_bytes_of(b.subrange(off + 80, off + 88));
    lemma_u64_le_bytes_of(b.subrange(off + 88, off + 96));
    lemma_u64_le_bytes_of(b.subrange(off + 96, off + 104));
    lemma_u64_le_bytes_of(b.subrange(off + 104, off + 112));
    lemma_u64_le_bytes_of(b.subrange(off + 112, off + 120));
    lemma_u64_le_bytes_of(b.subrange(off + 120, off + 128));
    lemma_u64_le_bytes_of(b.subrange(off + 128, off + 136));
    lemma_u64_le_bytes_of(b.subrange(off + 136, off + 144));
    lemma_subrange_subrange(b, off, off + KVM_REGS_SIZE as int, 0, 8);
    lemma_subrange_subrange(b, off, off + KVM_REGS_SIZE as int, 8, 16);
    lemma_subrange_subrange(b, off, off + KVM_REGS_SIZE as int, 16, 24);
    lemma_subrange_subrange(b, off, off + KVM_REGS_SIZE as int, 24, 32);
    lemma_subrange_subrange(b, off, off + KVM_REGS_SIZE as int, 32, 40);
    lemma_subrange_subrange(b, off, off + KVM_REGS_SIZE as int, 40, 48);
    lemma_subrange_subrange(b, off, off + KVM_REGS_SIZE as int, 48, 56);
    lemma_subrange_subrange(b, off, off + KVM_REGS_SIZE as int, 56, 64);
    lemma_subrange_subrange(b, off, off + KVM_REGS_SIZE as int, 64, 72);
    lemma_subrange_subrange(b, off, off + KVM_REGS_SIZE as int, 72, 80);
    lemma_subrange_subrange(b, off, off + KVM_REGS_SIZE as int, 80, 88);
    lemma_subrange_subrange(b, off, off + KVM_REGS_SIZE as int, 88, 96);
    lemma_subrange_subrange(b, off, off + KVM_REGS_SIZE as int, 96, 104);
    lemma_subrange_subrange(b, off, off + KVM_REGS_SIZE as int, 104, 112);
    lemma_subrange_subrange(b, off, off + KVM_REGS_SIZE as int, 112, 120);
    lemma_subrange_subrange(b, off, off + KVM_REGS_SIZE as int, 120, 128);
    lemma_subrange_subrange(b, off, off + KVM_REGS_SIZE as int, 128, 136);
    lemma_subrange_subrange(b, off, off + KVM_REGS_SIZE as int, 136, 144);
    lemma_seq_parts(s, 8, 16);
    lemma_seq_parts(s, 16, 24);
    lemma_seq_parts(s, 24, 32);
    lemma_seq_parts(s, 32, 40);
    lemma_seq_parts(s, 40, 48);
    lemma_seq_parts(s, 48, 56);
    lemma_seq_parts(s, 56, 64);
    lemma_seq_parts(s, 64, 72);
    lemma_seq_parts(s, 72, 80);
    lemma_seq_parts(s, 80, 88);
    lemma_seq_parts(s, 88, 96);
    lemma_seq_parts(s, 96, 104);
    lemma_seq_parts(s, 104, 112);
    lemma_seq_parts(s, 112, 120);
    lemma_seq_parts(s, 120, 128);
    lemma_seq_parts(s, 128, 136);
    lemma_seq_parts(s, 136, 144);
    assert(s.subrange(0, KVM_REGS_SIZE as int) =~= s);
    assert(v.spec_bytes() == s);
}

/// Field images of a `kvm_regs`, covering one run of fields.
#[verifier::rlimit(100)]
#[verifier::spinoff_prover]
proof fn lemma_kvm_regs_field_images_seg0(x: kvm_regs)
    ensures
        x.spec_bytes().len() == KVM_REGS_SIZE,
        x.spec_bytes().subrange(136, 144) == u64_le_bytes(x.rflags),
        x.spec_bytes().subrange(128, 136) == u64_le_bytes(x.rip),
        x.spec_bytes().subrange(120, 128) == u64_le_bytes(x.r15),
        x.spec_bytes().subrange(112, 120) == u64_le_bytes(x.r14),
        x.spec_bytes().subrange(104, 112) == u64_le_bytes(x.r13),
        x.spec_bytes().subrange(96, 104) == u64_le_bytes(x.r12),
        x.spec_bytes().subrange(88, 96) == u64_le_bytes(x.r11),
        x.spec_bytes().subrange(80, 88) == u64_le_bytes(x.r10),
        x.spec_bytes().subrange(0, 80) == (((((((((u64_le_bytes(x.rax) + u64_le_bytes(x.rbx)) + u64_le_bytes(x.rcx)) + u64_le_bytes(x.rdx)) + u64_le_bytes(x.rsi)) + u64_le_bytes(x.rdi)) + u64_le_bytes(x.rsp)) + u64_le_bytes(x.rbp)) + u64_le_bytes(x.r8)) + u64_le_bytes(x.r9)),
{
    lemma_kvm_regs_bytes_len(x);
    let p0 = u64_le_bytes(x.rax);
    let p1 = u64_le_bytes(x.rbx);
    let p2 = u64_le_bytes(x.rcx);
    let p3 = u64_le_bytes(x.rdx);
    let p4 = u64_le_bytes(x.rsi);
    let p5 = u64_le_bytes(x.rdi);
    let p6 = u64_le_bytes(x.rsp);
    let p7 = u64_le_bytes(x.rbp);
    let p8 = u64_le_bytes(x.r8);
    let p9 = u64_le_bytes(x.r9);
    let p10 = u64_le_bytes(x.r10);
    let p11 = u64_le_bytes(x.r11);
    let p12 = u64_le_bytes(x.r12);
    let p13 = u64_le_bytes(x.r13);
    let p14 = u64_le_bytes(x.r14);
    let p15 = u64_le_bytes(x.r15);
    let p16 = u64_le_bytes(x.rip);
    let p17 = u64_le_bytes(x.rflags);
    let t1 = p0 + p1;
    let t2 = t1 + p2;
    let t3 = t2 + p3;
    let t4 = t3 + p4;
    let t5 = t4 + p5;
    let t6 = t5 + p6;
    let t7 = t6 + p7;
    let t8 = t7 + p8;
    let t9 = t8 + p9;
    let t10 = t9 + p10;
    let t11 = t10 + p11;
    let t12 = t11 + p12;
    let t13 = t12 + p13;
    let t14 = t13 + p14;
    let t15 = t14 + p15;
    let t16 = t15 + p16;
    let t17 = t16 + p17;
    assert(x.spec_bytes() == t17);
    lemma_concat_parts(t16, p17);
    lemma_concat_parts(t15, p16);
    lemma_subrange_subrange(x.spec_bytes(), 0, 136, 0, 128);
    lemma_subrange_subrange(x.spec_bytes(), 0, 136, 128, 136);
    lemma_concat_parts(t14, p15);
    lemma_subrange_subrange(x.spec_bytes(), 0, 128, 0, 120);
    lemma_subrange_subrange(x.spec_bytes(), 0, 128, 120, 128);
    lemma_concat_parts(t13, p14);
    lemma_subrange_subrange(x.spec_bytes(), 0, 120, 0, 112);
    lemma_subrange_subrange(x.spec_bytes(), 0, 120, 112, 120);
    lemma_concat_parts(t12, p13);
    lemma_subrange_subrange(x.spec_bytes(), 0, 112, 0, 104);
    lemma_subrange_subrange(x.spec_bytes(), 0, 112, 104, 112);
    lemma_concat_parts(t11, p12);
    lemma_subrange_subrange(x.spec_bytes(), 0, 104, 0, 96);
    lemma_subrange_subrange(x.spec_bytes(), 0, 104, 96, 104);
    lemma_concat_parts(t10, p11);
    lemma_subrange_subrange(x.spec_bytes(), 0, 96, 0, 88);
    lemma_subrange_subrange(x.spec_bytes(), 0, 96, 88, 96);
    lemma_concat_parts(t9, p10);
    lemma_subrange_subrange(x.spec_bytes(), 0, 88, 0, 80);
    lemma_subrange_subrange(x.spec_bytes(), 0, 88, 80, 88);
}

/// Field images of a `kvm_regs`, covering one run of fields.
#[verifier::rlimit(100)]
#[verifier::spinoff_prover]
proof fn lemma_kvm_regs_field_images_seg1(x: kvm_regs)
    ensures
        x.spec_bytes().len() == KVM_REGS_SIZE,
        x.spec_bytes().subrange(72, 80) == u64_le_bytes(x.r9),
        x.spec_bytes().subrange(64, 72) == u64_le_bytes(x.r8),
        x.spec_bytes().subrange(56, 64) == u64_le_bytes(x.rbp),
        x.spec_bytes().subrange(48, 56) == u64_le_bytes(x.rsp),
        x.spec_bytes().subrange(40, 48) == u64_le_bytes(x.rdi),
        x.spec_bytes().subrange(32, 40) == u64_le_bytes(x.rsi),
        x.spec_bytes().subrange(24, 32) == u64_le_bytes(x.rdx),
        x.spec_bytes().subrange(16, 24) == u64_le_bytes(x.rcx),
        x.spec_bytes().subrange(0, 16) == (u64_le_bytes(x.rax) + u64_le_bytes(x.rbx)),
{
    lemma_kvm_regs_bytes_len(x);
    let p0 = u64_le_bytes(x.rax);
    let p1 = u64_le_bytes(x.rbx);
    let p2 = u64_le_bytes(x.rcx);
    let p3 = u64_le_bytes(x.rdx);
    let p4 = u64_le_bytes(x.rsi);
    let p5 = u64_le_bytes(x.rdi);
    let p6 = u64_le_bytes(x.rsp);
    let p7 = u64_le_bytes(x.rbp);
    let p8 = u64_le_bytes(x.r8);
    let p9 = u64_le_bytes(x.r9);
    let t1 = p0 + p1;
    let t2 = t1 + p2;
    let t3 = t2 + p3;
    let t4 = t3 + p4;
    let t5 = t4 + p5;
    let t6 = t5 + p6;
    let t7 = t6 + p7;
    let t8 = t7 + p8;
    let t9 = t8 + p9;
    lemma_kvm_regs_field_images_seg0(x);
    lemma_concat_parts(t8, p9);
    lemma_subrange_subrange(x.spec_bytes(), 0, 80, 0, 72);
    lemma_subrange_subrange(x.spec_bytes(), 0, 80, 72, 80);
    lemma_concat_parts(t7, p8);
    lemma_subrange_subrange(x.spec_bytes(), 0, 72, 0, 64);
    lemma_subrange_subrange(x.spec_bytes(), 0, 72, 64, 72);
    lemma_concat_parts(t6, p7);
    lemma_subrange_subrange(x.spec_bytes(), 0, 64, 0, 56);
    lemma_subrange_subrange(x.spec_bytes(), 0, 64, 56, 64);
    lemma_concat_parts(t5, p6);
    lemma_subrange_subrange(x.spec_bytes(), 0, 56, 0, 48);
    lemma_subrange_subrange(x.spec_bytes(), 0, 56, 48, 56);
    lemma_concat_parts(t4, p5);
    lemma_subrange_subrange(x.spec_bytes(), 0, 48, 0, 40);
    lemma_subrange_subrange(x.spec_bytes(), 0, 48, 40, 48);
    lemma_concat_parts(t3, p4);
    lemma_subrange_subrange(x.spec_bytes(), 0, 40, 0, 32);
    lemma_subrange_subrange(x.spec_bytes(), 0, 40, 32, 40);
    lemma_concat_parts(t2, p3);
    lemma_subrange_subrange(x.spec_bytes(), 0, 32, 0, 24);
    lemma_subrange_subrange(x.spec_bytes(), 0, 32, 24, 32);
    lemma_concat_parts(t1, p2);
    lemma_subrange_subrange(x.spec_bytes(), 0, 24, 0, 16);
    lemma_subrange_subrange(x.spec_bytes(), 0, 24, 16, 24);
}

/// Field images of a `kvm_regs`, covering one run of fields.
#[verifier::rlimit(100)]
#[verifier::spinoff_prover]
proof fn lemma_kvm_regs_field_images_seg2(x: kvm_regs)
    ensures
        x.spec_bytes().len() == KVM_REGS_SIZE,
        x.spec_bytes().subrange(8, 16) == u64_le_bytes(x.rbx),
        x.spec_bytes().subrange(0, 8) == u64_le_bytes(x.rax),
{
    lemma_kvm_regs_bytes_len(x);
    let p0 = u64_le_bytes(x.rax);
    let p1 = u64_le_bytes(x.rbx);
    let t1 = p0 + p1;
    lemma_kvm_regs_field_images_seg1(x);
    lemma_concat_parts(p0, p1);
    lemma_subrange_subrange(x.spec_bytes(), 0, 16, 0, 8);
    lemma_subrange_subrange(x.spec_bytes(), 0, 16, 8, 16);
}

/// Each field's image stands at its kernel offset inside the image of
/// a `kvm_regs`.
proof fn lemma_kvm_regs_field_images(x: kvm_regs)
    ensures
        x.spec_bytes().len() == KVM_REGS_SIZE,
        x.spec_bytes().subrange(0, 8) == u64_le_bytes(x.rax),
        x.spec_bytes().subrange(8, 16) == u64_le_bytes(x.rbx),
        x.spec_bytes().subrange(16, 24) == u64_le_bytes(x.rcx),
        x.spec_bytes().subrange(24, 32) == u64_le_bytes(x.rdx),
        x.spec_bytes().subrange(32, 40) == u64_le_bytes(x.rsi),
        x.spec_bytes().subrange(40, 48) == u64_le_bytes(x.rdi),
        x.spec_bytes().subrange(48, 56) == u64_le_bytes(x.rsp),
        x.spec_bytes().subrange(56, 64) == u64_le_bytes(x.rbp),
        x.spec_bytes().subrange(64, 72) == u64_le_bytes(x.r8),
        x.spec_bytes().subrange(72, 80) == u64_le_bytes(x.r9),
        x.spec_bytes().subrange(80, 88) == u64_le_bytes(x.r10),
        x.spec_bytes().subrange(88, 96) == u64_le_bytes(x.r11),
        x.spec_bytes().subrange(96, 104) == u64_le_bytes(x.r12),
        x.spec_bytes().subrange(104, 112) == u64_le_bytes(x.r13),
        x.spec_bytes().subrange(112, 120) == u64_le_bytes(x.r14),
        x.spec_bytes().subrange(120, 128) == u64_le_bytes(x.r15),
        x.spec_bytes().subrange(128, 136) == u64_le_bytes(x.rip),
        x.spec_bytes().subrange(136, 144) == u64_le_bytes(x.rflags),
{
    lemma_kvm_regs_field_images_seg0(x);
    lemma_kvm_regs_field_images_seg1(x);
    lemma_kvm_regs_field_images_seg2(x);
}

/// The byte image determines the structure: reading an image back
/// always yields the one value that produced it.
pub proof fn lemma_kvm_regs_image_injective(a: kvm_regs, b: kvm_regs)
    requires
        a.spec_bytes() == b.spec_bytes(),
    ensures
        a == b,
{
    lemma_kvm_regs_field_images(a);
    lemma_kvm_regs_field_images(b);
    lemma_u64_le_roundtrip(a.rax);
    lemma_u64_le_roundtrip(b.rax);
    lemma_u64_le_roundtrip(a.rbx);
    lemma_u64_le_roundtrip(b.rbx);
    lemma_u64_le_roundtrip(a.rcx);
    lemma_u64_le_roundtrip(b.rcx);
    lemma_u64_le_roundtrip(a.rdx);
    lemma_u64_le_roundtrip(b.rdx);
    lemma_u64_le_roundtrip(a.rsi);
    lemma_u64_le_roundtrip(b.rsi);
    lemma_u64_le_roundtrip(a.rdi);
    lemma_u64_le_roundtrip(b.rdi);
    lemma_u64_le_roundtrip(a.rsp);
    lemma_u64_le_roundtrip(b.rsp);
    lemma_u64_le_roundtrip(a.rbp);
    lemma_u64_le_roundtrip(b.rbp);
    lemma_u64_le_roundtrip(a.r8);
    lemma_u64_le_roundtrip(b.r8);
    lemma_u64_le_roundtrip(a.r9);
    lemma_u64_le_roundtrip(b.r9);
    lemma_u64_le_roundtrip(a.r10);
    lemma_u64_le_roundtrip(b.r10);
    lemma_u64_le_roundtrip(a.r11);
    lemma_u64_le_roundtrip(b.r11);
    lemma_u64_le_roundtrip(a.r12);
    lemma_u64_le_roundtrip(b.r12);
    lemma_u64_le_roundtrip(a.r13);
    lemma_u64_le_roundtrip(b.r13);
    lemma_u64_le_roundtrip(a.r14);
    lemma_u64_le_roundtrip(b.r14);
    lemma_u64_le_roundtrip(a.r15);
    lemma_u64_le_roundtrip(b.r15);
    lemma_u64_le_roundtrip(a.rip);
    lemma_u64_le_roundtrip(b.rip);
    lemma_u64_le_roundtrip(a.rflags);
    lemma_u64_le_roundtrip(b.rflags);
    assert(a =~= b);
}

/// A `kvm_regs` whose fields are all zero has an all-zero byte image,
/// the image of a zeroed ioctl argument buffer.
pub proof fn lemma_kvm_regs_zero_image(x: kvm_regs)
    requires
        x.is_zeroed(),
    ensures
        x.spec_bytes() == zero_bytes(KVM_REGS_SIZE as int),
{
    lemma_le_bytes_zero();
    lemma_zero_bytes_split(8, 16);
    lemma_zero_bytes_split(16, 24);
    lemma_zero_bytes_split(24, 32);
    lemma_zero_bytes_split(32, 40);
    lemma_zero_bytes_split(40, 48);
    lemma_zero_bytes_split(48, 56);
    lemma_zero_bytes_split(56, 64);
    lemma_zero_bytes_split(64, 72);
    lemma_zero_bytes_split(72, 80);
    lemma_zero_bytes_split(80, 88);
    lemma_zero_bytes_split(88, 96);
    lemma_zero_bytes_split(96, 104);
    lemma_zero_bytes_split(104, 112);
    lemma_zero_bytes_split(112, 120);
    lemma_zero_bytes_split(120, 128);
    lemma_zero_bytes_split(128, 136);
    lemma_zero_bytes_split(136, 144);
    assert(x.spec_bytes() == zero_bytes(KVM_REGS_SIZE as int));
}

/// Byte size of the `kvm_sregs` kernel image.
pub const KVM_SREGS_SIZE: usize = 312;

/// The special registers of a vCPU: segment registers, descriptor tables,
/// control registers and the pending-interrupt bitmap.
#[derive(Clone, Copy, Debug, PartialEq)]
#[verifier::ext_equal]
pub struct kvm_sregs {
    pub cs: kvm_segment,
    pub ds: kvm_segment,
    pub es: kvm_segment,
    pub fs: kvm_segment,
    pub gs: kvm_segment,
    pub ss: kvm_segment,
    pub tr: kvm_segment,
    pub ldt: kvm_segment,
    pub gdt: kvm_dtable,
    pub idt: kvm_dtable,
    pub cr0: u64,
    pub cr2: u64,
    pub cr3: u64,
    pub cr4: u64,
    pub cr8: u64,
    pub efer: u64,
    pub apic_base: u64,
    pub interrupt_bitmap: [u64; 4],
}

impl kvm_sregs {
    /// The 312-byte kernel image of `self`: every field little-endian
    /// at its kernel offset.
    pub open spec fn spec_bytes(self) -> Seq<u8> {
        self.cs.spec_bytes() + self.ds.spec_bytes() + self.es.spec_bytes() + self.fs.spec_bytes() + self.gs.spec_bytes() + self.ss.spec_bytes() + self.tr.spec_bytes() + self.ldt.spec_bytes() + self.gdt.spec_bytes() + self.idt.spec_bytes() + u64_le_bytes(self.cr0) + u64_le_bytes(self.cr2) + u64_le_bytes(self.cr3) + u64_le_bytes(self.cr4) + u64_le_bytes(self.cr8) + u64_le_bytes(self.efer) + u64_le_bytes(self.apic_base) + u64_le_bytes(self.interrupt_bitmap@[0]) + u64_le_bytes(self.interrupt_bitmap@[1]) + u64_le_bytes(self.interrupt_bitmap@[2]) + u64_le_bytes(self.interrupt_bitmap@[3])
    }

    /// Every field of `self` holds zero.
    pub open spec fn is_zeroed(self) -> bool {
        self.cs.is_zeroed() && self.ds.is_zeroed() && self.es.is_zeroed() && self.fs.is_zeroed() && self.gs.is_zeroed() && self.ss.is_zeroed() && self.tr.is_zeroed() && self.ldt.is_zeroed() && self.gdt.is_zeroed() && self.idt.is_zeroed() && self.cr0 == 0 && self.cr2 == 0 && self.cr3 == 0 && self.cr4 == 0 && self.cr8 == 0 && self.efer == 0 && self.apic_base == 0 && self.interrupt_bitmap@ == Seq::new(4, |i: int| 0u64)
    }

    /// Appends the image of `self` to `out`.
    pub fn push_image(&self, out: &mut Vec<u8>)
        ensures
            final(out)@ == old(out)@ + self.spec_bytes(),
    {
        let ghost base: Seq<u8> = out@;
        self.cs.push_image(out);
        let ghost mut acc: Seq<u8> = self.cs.spec_bytes();
        self.ds.push_image(out);
        proof {
            lemma_concat_assoc(base, acc, self.ds.spec_bytes());
            acc = acc + (self.ds.spec_bytes());
        }
        self.es.push_image(out);
        proof {
            lemma_concat_assoc(base, acc, self.es.spec_bytes());
            acc = acc + (self.es.spec_bytes());
        }
        self.fs.push_image(out);
        proof {
            lemma_concat_assoc(base, acc, self.fs.spec_bytes());
            acc = acc + (self.fs.spec_bytes());
        }
        self.gs.push_image(out);
        proof {
            lemma_concat_assoc(base, acc, self.gs.spec_bytes());
            acc = acc + (self.gs.spec_bytes());
        }
        self.ss.push_image(out);
        proof {
            lemma_concat_assoc(base, acc, self.ss.spec_bytes());
            acc = acc + (self.ss.spec_bytes());
        }
        self.tr.push_image(out);
        proof {
            lemma_concat_assoc(base, acc, self.tr.spec_bytes());
            acc = acc + (self.tr.spec_bytes());
        }
        self.ldt.push_image(out);
        proof {
            lemma_concat_assoc(base, acc, self.ldt.spec_bytes());
            acc = acc + (self.ldt.spec_bytes());
        }
        self.gdt.push_image(out);
        proof {
            lemma_concat_assoc(base, acc, self.gdt.spec_bytes());
            acc = acc + (self.gdt.spec_bytes());
        }
        self.idt.push_image(out);
        proof {
            lemma_concat_assoc(base, acc, self.idt.spec_bytes());
            acc = acc + (self.idt.spec_bytes());
        }
        push_u64_le(out, self.cr0);
        proof {
            lemma_concat_assoc(base, acc, u64_le_bytes(self.cr0));
            acc = acc + (u64_le_bytes(self.cr0));
        }
        push_u64_le(out, self.cr2);
        proof {
            lemma_concat_assoc(base, acc, u64_le_bytes(self.cr2));
            acc = acc + (u64_le_bytes(self.cr2));
        }
        push_u64_le(out, self.cr3);
        proof {
            lemma_concat_assoc(base, acc, u64_le_bytes(self.cr3));
            acc = acc + (u64_le_bytes(self.cr3));
        }
        push_u64_le(out, self.cr4);
        proof {
            lemma_concat_assoc(base, acc, u64_le_bytes(self.cr4));
            acc = acc + (u64_le_bytes(self.cr4));
        }
        push_u64_le(out, self.cr8);
        proof {
            lemma_concat_assoc(base, acc, u64_le_bytes(self.cr8));
            acc = acc + (u64_le_bytes(self.cr8));
        }
        push_u64_le(out, self.efer);
        proof {
            lemma_concat_assoc(base, acc, u64_le_bytes(self.efer));
            acc = acc + (u64_le_bytes(self.efer));
        }
        push_u64_le(out, self.apic_base);
        proof {
            lemma_concat_assoc(base, acc, u64_le_bytes(self.apic_base));
            acc = acc + (u64_le_bytes(self.apic_base));
        }
        push_u64_le(out, self.interrupt_bitmap[0]);
        proof {
            lemma_concat_assoc(base, acc, u64_le_bytes(self.interrupt_bitmap@[0]));
            acc = acc + (u64_le_bytes(self.interrupt_bitmap@[0]));
        }
        push_u64_le(out, self.interrupt_bitmap[1]);
        proof {
            lemma_concat_assoc(base, acc, u64_le_bytes(self.interrupt_bitmap@[1]));
            acc = acc + (u64_le_bytes(self.interrupt_bitmap@[1]));
        }
        push_u64_le(out, self.interrupt_bitmap[2]);
        proof {
            lemma_concat_assoc(base, acc, u64_le_bytes(self.interrupt_bitmap@[2]));
            acc = acc + (u64_le_bytes(self.interrupt_bitmap@[2]));
        }
        push_u64_le(out, self.interrupt_bitmap[3]);
        proof {
            lemma_concat_assoc(base, acc, u64_le_bytes(self.interrupt_bitmap@[3]));
            acc = acc + (u64_le_bytes(self.interrupt_bitmap@[3]));
        }
        proof {
            assert(out@ == base + acc);
            assert(acc == self.spec_bytes());
        }
    }

    /// The image of `self` as a fresh buffer.
    pub fn to_bytes(&self) -> (out: Vec<u8>)
        ensures
            out@ == self.spec_bytes(),
            out@.len() == KVM_SREGS_SIZE,
    {
        let mut out: Vec<u8> = Vec::new();
        self.push_image(&mut out);
        proof {
            lemma_concat_empty_left(self.spec_bytes());
            lemma_kvm_sregs_bytes_len(*self);
        }
        out
    }

    /// Reads the structure whose image starts at offset `off` of `buf`.
    pub fn read_at(buf: &[u8], off: usize) -> (v: Self)
        requires
            off + KVM_SREGS_SIZE <= buf@.len(),
        ensures
            v.spec_bytes() == buf@.subrange(off as int, off as int + KVM_SREGS_SIZE),
    {
        let n: usize = buf.len();
        proof {
            assert(off + KVM_SREGS_SIZE <= n);
        }
        let v = kvm_sregs {
            cs: kvm_segment::read_at(buf, off),
            ds: kvm_segment::read_at(buf, off + 24),
            es: kvm_segment::read_at(buf, off + 48),
            fs: kvm_segment::read_at(buf, off + 72),
            gs: kvm_segment::read_at(buf, off + 96),
            ss: kvm_segment::read_at(buf, off + 120),
            tr: kvm_segment::read_at(buf, off + 144),
            ldt: kvm_segment::read_at(buf, off + 168),
            gdt: kvm_dtable::read_at(buf, off + 192),
            idt: kvm_dtable::read_at(buf, off + 208),
            cr0: read_u64_le(buf, off + 224),
            cr2: read_u64_le(buf, off + 232),
            cr3: read_u64_le(buf, off + 240),
            cr4: read_u64_le(buf, off + 248),
            cr8: read_u64_le(buf, off + 256),
            efer: read_u64_le(buf, off + 264),
            apic_base: read_u64_le(buf, off + 272),
            interrupt_bitmap: [read_u64_le(buf, off + 280), read_u64_le(buf, off + 288), read_u64_le(buf, off + 296), read_u64_le(buf, off + 304)],
        };
        proof {
            lemma_kvm_sregs_read_at(v, buf@, off as int);
        }
        v
    }

    /// Reads a structure image from the start of `buf`, failing when the
    /// buffer is too short to hold one.
    pub fn from_bytes(buf: &[u8]) -> (r: Result<Self, CodecError>)
        ensures
            buf@.len() < KVM_SREGS_SIZE ==> r == Err::<kvm_sregs, CodecError>(
                CodecError::IncompleteBuffer,
            ),
            buf@.len() >= KVM_SREGS_SIZE ==> (r matches Ok(v) && v.spec_bytes() == buf@.subrange(
                0,
                KVM_SREGS_SIZE as int,
            )),
    {
        if buf.len() < KVM_SREGS_SIZE {
            Err(CodecError::IncompleteBuffer)
        } else {
            Ok(Self::read_at(buf, 0))
        }
    }
}

impl Default for kvm_sregs {
    /// Every field zero: the zeroed ioctl argument convention.
    fn default() -> (r: Self)
        ensures
            r.is_zeroed(),
    {
        let r = kvm_sregs {
            cs: kvm_segment::default(),
            ds: kvm_segment::default(),
            es: kvm_segment::default(),
            fs: kvm_segment::default(),
            gs: kvm_segment::default(),
            ss: kvm_segment::default(),
            tr: kvm_segment::default(),
            ldt: kvm_segment::default(),
            gdt: kvm_dtable::default(),
            idt: kvm_dtable::default(),
            cr0: 0,
            cr2: 0,
            cr3: 0,
            cr4: 0,
            cr8: 0,
            efer: 0,
            apic_base: 0,
            interrupt_bitmap: vstd::array::array_fill_for_copy_types::<u64, 4>(0u64),
        };
        proof {
            assert(r.interrupt_bitmap@ =~= Seq::new(4, |i: int| 0u64));
        }
        r
    }
}

/// The image of a `kvm_sregs` is exactly 312 bytes.
pub proof fn lemma_kvm_sregs_bytes_len(x: kvm_sregs)
    ensures
        x.spec_bytes().len() == KVM_SREGS_SIZE,
{
    lemma_kvm_segment_bytes_len(x.cs);
    lemma_kvm_segment_bytes_len(x.ds);
    lemma_kvm_segment_bytes_len(x.es);
    lemma_kvm_segment_bytes_len(x.fs);
    lemma_kvm_segment_bytes_len(x.gs);
    lemma_kvm_segment_bytes_len(x.ss);
    lemma_kvm_segment_bytes_len(x.tr);
    lemma_kvm_segment_bytes_len(x.ldt);
    lemma_kvm_dtable_bytes_len(x.gdt);
    lemma_kvm_dtable_bytes_len(x.idt);
}

/// A `kvm_sregs` whose fields were decoded from a buffer has that
/// buffer segment as its image.
#[verifier::rlimit(100)]
#[verifier::spinoff_prover]
proof fn lemma_kvm_sregs_read_at(v: kvm_sregs, b: Seq<u8>, off: int)
    requires
        0 <= off,
        off + KVM_SREGS_SIZE <= b.len(),
        v.cs.spec_bytes() == b.subrange(off + 0, off + 24),
        v.ds.spec_bytes() == b.subrange(off + 24, off + 48),
        v.es.spec_bytes() == b.subrange(off + 48, off + 72),
        v.fs.spec_bytes() == b.subrange(off + 72, off + 96),
        v.gs.spec_bytes() == b.subrange(off + 96, off + 120),
        v.ss.spec_bytes() == b.subrange(off + 120, off + 144),
        v.tr.spec_bytes() == b.subrange(off + 144, off + 168),
        v.ldt.spec_bytes() == b.subrange(off + 168, off + 192),
        v.gdt.spec_bytes() == b.subrange(off + 192, off + 208),
        v.idt.spec_bytes() == b.subrange(off + 208, off + 224),
        v.cr0 == u64_of_le_bytes(b.subrange(off + 224, off + 232)),
        v.cr2 == u64_of_le_bytes(b.subrange(off + 232, off + 240)),
        v.cr3 == u64_of_le_bytes(b.subrange(off + 240, off + 248)),
        v.cr4 == u64_of_le_bytes(b.subrange(off + 248, off + 256)),
        v.cr8 == u64_of_le_bytes(b.subrange(off + 256, off + 264)),
        v.efer == u64_of_le_bytes(b.subrange(off + 264, off + 272)),
        v.apic_base == u64_of_le_bytes(b.subrange(off + 272, off + 280)),
        v.interrupt_bitmap@[0] == u64_of_le_bytes(b.subrange(off + 280, off + 288)),
        v.interrupt_bitmap@[1] == u64_of_le_bytes(b.subrange(off + 288, off + 296)),
        v.interrupt_bitmap@[2] == u64_of_le_bytes(b.subrange(off + 296, off + 304)),
        v.interrupt_bitmap@[3] == u64_of_le_bytes(b.subrange(off + 304, off + 312)),
    ensures
        v.spec_bytes() == b.subrange(off, off + KVM_SREGS_SIZE),
{
    let s = b.subrange(off, off + KVM_SREGS_SIZE as int);
    lemma_u64_le_bytes_of(b.subrange(off + 224, off + 232));
    lemma_u64_le_bytes_of(b.subrange(off + 232, off + 240));
    lemma_u64_le_bytes_of(b.subrange(off + 240, off + 248));
    lemma_u64_le_bytes_of(b.subrange(off + 248, off + 256));
    lemma_u64_le_bytes_of(b.subrange(off + 256, off + 264));
    lemma_u64_le_bytes_of(b.subrange(off + 264, off + 272));
    lemma_u64_le_bytes_of(b.subrange(off + 272, off + 280));
    lemma_u64_le_bytes_of(b.subrange(off + 280, off + 288));
    lemma_u64_le_bytes_of(b.subrange(off + 288, off + 296));
    lemma_u64_le_bytes_of(b.subrange(off + 296, off + 304));
    lemma_u64_le_bytes_of(b.subrange(off + 304, off + 312));
    lemma_subrange_subrange(b, off, off + KVM_SREGS_SIZE as int, 0, 24);
    lemma_subrange_subrange(b, off, off + KVM_SREGS_SIZE as int, 24, 48);
    lemma_subrange_subrange(b, off, off + KVM_SREGS_SIZE as int, 48, 72);
    lemma_subrange_subrange(b, off, off + KVM_SREGS_SIZE as int, 72, 96);
    lemma_subrange_subrange(b, off, off + KVM_SREGS_SIZE as int, 96, 120);
    lemma_subrange_subrange(b, off, off + KVM_SREGS_SIZE as int, 120, 144);
    lemma_subrange_subrange(b, off, off + KVM_SREGS_SIZE as int, 144, 168);
    lemma_subrange_subrange(b, off, off + KVM_SREGS_SIZE as int, 168, 192);
    lemma_subrange_subrange(b, off, off + KVM_SREGS_SIZE as int, 192, 208);
    lemma_subrange_subrange(b, off, off + KVM_SREGS_SIZE as int, 208, 224);
    lemma_subrange_subrange(b, off, off + KVM_SREGS_SIZE as int, 224, 232);
    lemma_subrange_subrange(b, off, off + KVM_SREGS_SIZE as int, 232, 240);
    lemma_subrange_subrange(b, off, off + KVM_SREGS_SIZE as int, 240, 248);
    lemma_subrange_subrange(b, off, off + KVM_SREGS_SIZE as int, 248, 256);
    lemma_subrange_subrange(b, off, off + KVM_SREGS_SIZE as int, 256, 264);
    lemma_subrange_subrange(b, off, off + KVM_SREGS_SIZE as int, 264, 272);
    lemma_subrange_subrange(b, off, off + KVM_SREGS_SIZE as int, 272, 280);
    lemma_subrange_subrange(b, off, off + KVM_SREGS_SIZE as int, 280, 288);
    lemma_subrange_subrange(b, off, off + KVM_SREGS_SIZE as int, 288, 296);
    lemma_subrange_subrange(b, off, off + KVM_SREGS_SIZE as int, 296, 304);
    lemma_subrange_subrange(b, off, off + KVM_SREGS_SIZE as int, 304, 312);
    lemma_seq_parts(s, 24, 48);
    lemma_seq_parts(s, 48, 72);
    lemma_seq_parts(s, 72, 96);
    lemma_seq_parts(s, 96, 120);
    lemma_seq_parts(s, 120, 144);
    lemma_seq_parts(s, 144, 168);
    lemma_seq_parts(s, 168, 192);
    lemma_seq_parts(s, 192, 208);
    lemma_seq_parts(s, 208, 224);
    lemma_seq_parts(s, 224, 232);
    lemma_seq_parts(s, 232, 240);
    lemma_seq_parts(s, 240, 248);
    lemma_seq_parts(s, 248, 256);
    lemma_seq_parts(s, 256, 264);
    lemma_seq_parts(s, 264, 272);
    lemma_seq_parts(s, 272, 280);
    lemma_seq_parts(s, 280, 288);
    lemma_seq_parts(s, 288, 296);
    lemma_seq_parts(s, 296, 304);
    lemma_seq_parts(s, 304, 312);
    assert(s.subrange(0, KVM_SREGS_SIZE as int) =~= s);
    assert(v.spec_bytes() == s);
}

/// Field images of a `kvm_sregs`, covering one run of fields.
#[verifier::rlimit(100)]
#[verifier::spinoff_prover]
proof fn lemma_kvm_sregs_field_images_seg0(x: kvm_sregs)
    ensures
        x.spec_bytes().len() == KVM_SREGS_SIZE,
        x.spec_bytes().subrange(304, 312) == u64_le_bytes(x.interrupt_bitmap@[3]),
        x.spec_bytes().subrange(296, 304) == u64_le_bytes(x.interrupt_bitmap@[2]),
        x.spec_bytes().subrange(288, 296) == u64_le_bytes(x.interrupt_bitmap@[1]),
        x.spec_bytes().subrange(280, 288) == u64_le_bytes(x.interrupt_bitmap@[0]),
        x.spec_bytes().subrange(272, 280) == u64_le_bytes(x.apic_base),
        x.spec_bytes().subrange(264, 272) == u64_le_bytes(x.efer),
        x.spec_bytes().subrange(256, 264) == u64_le_bytes(x.cr8),
        x.spec_bytes().subrange(248, 256) == u64_le_bytes(x.cr4),
        x.spec_bytes().subrange(0, 248) == ((((((((((((x.cs.spec_bytes() + x.ds.spec_bytes()) + x.es.spec_bytes()) + x.fs.spec_bytes()) + x.gs.spec_bytes()) + x.ss.spec_bytes()) + x.tr.spec_bytes()) + x.ldt.spec_bytes()) + x.gdt.spec_bytes()) + x.idt.spec_bytes()) + u64_le_bytes(x.cr0)) + u64_le_bytes(x.cr2)) + u64_le_bytes(x.cr3)),
{
    lemma_kvm_sregs_bytes_len(x);
    lemma_kvm_segment_bytes_len(x.cs);
    lemma_kvm_segment_bytes_len(x.ds);
    lemma_kvm_segment_bytes_len(x.es);
    lemma_kvm_segment_bytes_len(x.fs);
    lemma_kvm_segment_bytes_len(x.gs);
    lemma_kvm_segment_bytes_len(x.ss);
    lemma_kvm_segment_bytes_len(x.tr);
    lemma_kvm_segment_bytes_len(x.ldt);
    lemma_kvm_dtable_bytes_len(x.gdt);
    lemma_kvm_dtable_bytes_len(x.idt);
    let p0 = x.cs.spec_bytes();
    let p1 = x.ds.spec_bytes();
    let p2 = x.es.spec_bytes();
    let p3 = x.fs.spec_bytes();
    let p4 = x.gs.spec_bytes();
    let p5 = x.ss.spec_bytes();
    let p6 = x.tr.spec_bytes();
    let p7 = x.ldt.spec_bytes();
    let p8 = x.gdt.spec_bytes();
    let p9 = x.idt.spec_bytes();
    let p10 = u64_le_bytes(x.cr0);
    let p11 = u64_le_bytes(x.cr2);
    let p12 = u64_le_bytes(x.cr3);
    let p13 = u64_le_bytes(x.cr4);
    let p14 = u64_le_bytes(x.cr8);
    let p15 = u64_le_bytes(x.efer);
    let p16 = u64_le_bytes(x.apic_base);
    let p17 = u64_le_bytes(x.interrupt_bitmap@[0]);
    let p18 = u64_le_bytes(x.interrupt_bitmap@[1]);
    let p19 = u64_le_bytes(x.interrupt_bitmap@[2]);
    let p20 = u64_le_bytes(x.interrupt_bitmap@[3]);
    let t1 = p0 + p1;
    let t2 = t1 + p2;
    let t3 = t2 + p3;
    let t4 = t3 + p4;
    let t5 = t4 + p5;
    let t6 = t5 + p6;
    let t7 = t6 + p7;
    let t8 = t7 + p8;
    let t9 = t8 + p9;
    let t10 = t9 + p10;
    let t11 = t10 + p11;
    let t12 = t11 + p12;
    let t13 = t12 + p13;
    let t14 = t13 + p14;
    let t15 = t14 + p15;
    let t16 = t15 + p16;
    let t17 = t16 + p17;
    let t18 = t17 + p18;
    let t19 = t18 + p19;
    let t20 = t19 + p20;
    assert(x.spec_bytes() == t20);
    lemma_concat_parts(t19, p20);
    lemma_concat_parts(t18, p19);
    lemma_subrange_subrange(x.spec_bytes(), 0, 304, 0, 296);
    lemma_subrange_subrange(x.spec_bytes(), 0, 304, 296, 304);
    lemma_concat_parts(t17, p18);
    lemma_subrange_subrange(x.spec_bytes(), 0, 296, 0, 288);
    lemma_subrange_subrange(x.spec_bytes(), 0, 296, 288, 296);
    lemma_concat_parts(t16, p17);
    lemma_subrange_subrange(x.spec_bytes(), 0, 288, 0, 280);
    lemma_subrange_subrange(x.spec_bytes(), 0, 288, 280, 288);
    lemma_concat_parts(t15, p16);
    lemma_subrange_subrange(x.spec_bytes(), 0, 280, 0, 272);
    lemma_subrange_subrange(x.spec_bytes(), 0, 280, 272, 280);
    lemma_concat_parts(t14, p15);
    lemma_subrange_subrange(x.spec_bytes(), 0, 272, 0, 264);
    lemma_subrange_subrange(x.spec_bytes(), 0, 272, 264, 272);
    lemma_concat_parts(t13, p14);
    lemma_subrange_subrange(x.spec_bytes(), 0, 264, 0, 256);
    lemma_subrange_subrange(x.spec_bytes(), 0, 264, 256, 264);
    lemma_concat_parts(t12, p13);
    lemma_subrange_subrange(x.spec_bytes(), 0, 256, 0, 248);
    lemma_subrange_subrange(x.spec_bytes(), 0, 256, 248, 256);
}

/// Field images of a `kvm_sregs`, covering one run of fields.
#[verifier::rlimit(100)]
#[verifier::spinoff_prover]
proof fn lemma_kvm_sregs_field_images_seg1(x: kvm_sregs)
    ensures
        x.spec_bytes().len() == KVM_SREGS_SIZE,
        x.spec_bytes().subrange(240, 248) == u64_le_bytes(x.cr3),
        x.spec_bytes().subrange(232, 240) == u64_le_bytes(x.cr2),
        x.spec_bytes().subrange(224, 232) == u64_le_bytes(x.cr0),
        x.spec_bytes().subrange(208, 224) == x.idt.spec_bytes(),
        x.spec_bytes().subrange(192, 208) == x.gdt.spec_bytes(),
        x.spec_bytes().subrange(168, 192) == x.ldt.spec_bytes(),
        x.spec_bytes().subrange(144, 168) == x.tr.spec_bytes(),
        x.spec_bytes().subrange(120, 144) == x.ss.spec_bytes(),
        x.spec_bytes().subrange(0, 120) == ((((x.cs.spec_bytes() + x.ds.spec_bytes()) + x.es.spec_bytes()) + x.fs.spec_bytes()) + x.gs.spec_bytes()),
{
    lemma_kvm_sregs_bytes_len(x);
    lemma_kvm_segment_bytes_len(x.cs);
    lemma_kvm_segment_bytes_len(x.ds);
    lemma_kvm_segment_bytes_len(x.es);
    lemma_kvm_segment_bytes_len(x.fs);
    lemma_kvm_segment_bytes_len(x.gs);
    lemma_kvm_segment_bytes_len(x.ss);
    lemma_kvm_segment_bytes_len(x.tr);
    lemma_kvm_segment_bytes_len(x.ldt);
    lemma_kvm_dtable_bytes_len(x.gdt);
    lemma_kvm_dtable_bytes_len(x.idt);
    let p0 = x.cs.spec_bytes();
    let p1 = x.ds.spec_bytes();
    let p2 = x.es.spec_bytes();
    let p3 = x.fs.spec_bytes();
    let p4 = x.gs.spec_bytes();
    let p5 = x.ss.spec_bytes();
    let p6 = x.tr.spec_bytes();
    let p7 = x.ldt.spec_bytes();
    let p8 = x.gdt.spec_bytes();
    let p9 = x.idt.spec_bytes();
    let p10 = u64_le_bytes(x.cr0);
    let p11 = u64_le_bytes(x.cr2);
    let p12 = u64_le_bytes(x.cr3);
    let t1 = p0 + p1;
    let t2 = t1 + p2;
    let t3 = t2 + p3;
    let t4 = t3 + p4;
    let t5 = t4 + p5;
    let t6 = t5 + p6;
    let t7 = t6 + p7;
    let t8 = t7 + p8;
    let t9 = t8 + p9;
    let t10 = t9 + p10;
    let t11 = t10 + p11;
    let t12 = t11 + p12;
    lemma_kvm_sregs_field_images_seg0(x);
    lemma_concat_parts(t11, p12);
    lemma_subrange_subrange(x.spec_bytes(), 0, 248, 0, 240);
    lemma_subrange_subrange(x.spec_bytes(), 0, 248, 240, 248);
    lemma_concat_parts(t10, p11);
    lemma_subrange_subrange(x.spec_bytes(), 0, 240, 0, 232);
    lemma_subrange_subrange(x.spec_bytes(), 0, 240, 232, 240);
    lemma_concat_parts(t9, p10);
    lemma_subrange_subrange(x.spec_bytes(), 0, 232, 0, 224);
    lemma_subrange_subrange(x.spec_bytes(), 0, 232, 224, 232);
    lemma_concat_parts(t8, p9);
    lemma_subrange_subrange(x.spec_bytes(), 0, 224, 0, 208);
    lemma_subrange_subrange(x.spec_bytes(), 0, 224, 208, 224);
    lemma_concat_parts(t7, p8);
    lemma_subrange_subrange(x.spec_bytes(), 0, 208, 0, 192);
    lemma_subrange_subrange(x.spec_bytes(), 0, 208, 192, 208);
    lemma_concat_parts(t6, p7);
    lemma_subrange_subrange(x.spec_bytes(), 0, 192, 0, 168);
    lemma_subrange_subrange(x.spec_bytes(), 0, 192, 168, 192);
    lemma_concat_parts(t5, p6);
    lemma_subrange_subrange(x.spec_bytes(), 0, 168, 0, 144);
    lemma_subrange_subrange(x.spec_bytes(), 0, 168, 144, 168);
    lemma_concat_parts(t4, p5);
    lemma_subrange_subrange(x.spec_bytes(), 0, 144, 0, 120);
    lemma_subrange_subrange(x.spec_bytes(), 0, 144, 120, 144);
}

/// Field images of a `kvm_sregs`, covering one run of fields.
#[verifier::rlimit(100)]
#[verifier::spinoff_prover]
proof fn lemma_kvm_sregs_field_images_seg2(x: kvm_sregs)
    ensures
        x.spec_bytes().len() == KVM_SREGS_SIZE,
        x.spec_bytes().subrange(96, 120) == x.gs.spec_bytes(),
        x.spec_bytes().subrange(72, 96) == x.fs.spec_bytes(),
        x.spec_bytes().subrange(48, 72) == x.es.spec_bytes(),
        x.spec_bytes().subrange(24, 48) == x.ds.spec_bytes(),
        x.spec_bytes().subrange(0, 24) == x.cs.spec_bytes(),
{
    lemma_kvm_sregs_bytes_len(x);
    lemma_kvm_segment_bytes_len(x.cs);
    lemma_kvm_segment_bytes_len(x.ds);
    lemma_kvm_segment_bytes_len(x.es);
    lemma_kvm_segment_bytes_len(x.fs);
    lemma_kvm_segment_bytes_len(x.gs);
    lemma_kvm_segment_bytes_len(x.ss);
    lemma_kvm_segment_bytes_len(x.tr);
    lemma_kvm_segment_bytes_len(x.ldt);
    lemma_kvm_dtable_bytes_len(x.gdt);
    lemma_kvm_dtable_bytes_len(x.idt);
    let p0 = x.cs.spec_bytes();
    let p1 = x.ds.spec_bytes();
    let p2 = x.es.spec_bytes();
    let p3 = x.fs.spec_bytes();
    let p4 = x.gs.spec_bytes();
    let t1 = p0 + p1;
    let t2 = t1 + p2;
    let t3 = t2 + p3;
    let t4 = t3 + p4;
    lemma_kvm_sregs_field_images_seg1(x);
    lemma_concat_parts(t3, p4);
    lemma_subrange_subrange(x.spec_bytes(), 0, 120, 0, 96);
    lemma_subrange_subrange(x.spec_bytes(), 0, 120, 96, 120);
    lemma_concat_parts(t2, p3);
    lemma_subrange_subrange(x.spec_bytes(), 0, 96, 0, 72);
    lemma_subrange_subrange(x.spec_bytes(), 0, 96, 72, 96);
    lemma_concat_parts(t1, p2);
    lemma_subrange_subrange(x.spec_bytes(), 0, 72, 0, 48);
    lemma_subrange_subrange(x.spec_bytes(), 0, 72, 48, 72);
    lemma_concat_parts(p0, p1);
    lemma_subrange_subrange(x.spec_bytes(), 0, 48, 0, 24);
    lemma_subrange_subrange(x.spec_bytes(), 0, 48, 24, 48);
}

/// Each field's image stands at its kernel offset inside the image of
/// a `kvm_sregs`.
proof fn lemma_kvm_sregs_field_images(x: kvm_sregs)
    ensures
        x.spec_bytes().len() == KVM_SREGS_SIZE,
        x.spec_bytes().subrange(0, 24) == x.cs.spec_bytes(),
        x.spec_bytes().subrange(24, 48) == x.ds.spec_bytes(),
        x.spec_bytes().subrange(48, 72) == x.es.spec_bytes(),
        x.spec_bytes().subrange(72, 96) == x.fs.spec_bytes(),
        x.spec_bytes().subrange(96, 120) == x.gs.spec_bytes(),
        x.spec_bytes().subrange(120, 144) == x.ss.spec_bytes(),
        x.spec_bytes().subrange(144, 168) == x.tr.spec_bytes(),
        x.spec_bytes().subrange(168, 192) == x.ldt.spec_bytes(),
        x.spec_bytes().subrange(192, 208) == x.gdt.spec_bytes(),
        x.spec_bytes().subrange(208, 224) == x.idt.spec_bytes(),
        x.spec_bytes().subrange(224, 232) == u64_le_bytes(x.cr0),
        x.spec_bytes().subrange(232, 240) == u64_le_bytes(x.cr2),
        x.spec_bytes().subrange(240, 248) == u64_le_bytes(x.cr3),
        x.spec_bytes().subrange(248, 256) == u64_le_bytes(x.cr4),
        x.spec_bytes().subrange(256, 264) == u64_le_bytes(x.cr8),
        x.spec_bytes().subrange(264, 272) == u64_le_bytes(x.efer),
        x.spec_bytes().subrange(272, 280) == u64_le_bytes(x.apic_base),
        x.spec_bytes().subrange(280, 288) == u64_le_bytes(x.interrupt_bitmap@[0]),
        x.spec_bytes().subrange(288, 296) == u64_le_bytes(x.interrupt_bitmap@[1]),
        x.spec_bytes().subrange(296, 304) == u64_le_bytes(x.interrupt_bitmap@[2]),
        x.spec_bytes().subrange(304, 312) == u64_le_bytes(x.interrupt_bitmap@[3]),
{
    lemma_kvm_sregs_field_images_seg0(x);
    lemma_kvm_sregs_field_images_seg1(x);
    lemma_kvm_sregs_field_images_seg2(x);
}

/// The byte image determines the structure: reading an image back
/// always yields the one value that produced it.
pub proof fn lemma_kvm_sregs_image_injective(a: kvm_sregs, b: kvm_sregs)
    requires
        a.spec_bytes() == b.spec_bytes(),
    ensures
        a == b,
{
    lemma_kvm_sregs_field_images(a);
    lemma_kvm_sregs_field_images(b);
    lemma_kvm_segment_image_injective(a.cs, b.cs);
    lemma_kvm_segment_image_injective(a.ds, b.ds);
    lemma_kvm_segment_image_injective(a.es, b.es);
    lemma_kvm_segment_image_injective(a.fs, b.fs);
    lemma_kvm_segment_image_injective(a.gs, b.gs);
    lemma_kvm_segment_image_injective(a.ss, b.ss);
    lemma_kvm_segment_image_injective(a.tr, b.tr);
    lemma_kvm_segment_image_injective(a.ldt, b.ldt);
    lemma_kvm_dtable_image_injective(a.gdt, b.gdt);
    lemma_kvm_dtable_image_injective(a.idt, b.idt);
    lemma_u64_le_roundtrip(a.cr0);
    lemma_u64_le_roundtrip(b.cr0);
    lemma_u64_le_roundtrip(a.cr2);
    lemma_u64_le_roundtrip(b.cr2);
    lemma_u64_le_roundtrip(a.cr3);
    lemma_u64_le_roundtrip(b.cr3);
    lemma_u64_le_roundtrip(a.cr4);
    lemma_u64_le_roundtrip(b.cr4);
    lemma_u64_le_roundtrip(a.cr8);
    lemma_u64_le_roundtrip(b.cr8);
    lemma_u64_le_roundtrip(a.efer);
    lemma_u64_le_roundtrip(b.efer);
    lemma_u64_le_roundtrip(a.apic_base);
    lemma_u64_le_roundtrip(b.apic_base);
    lemma_u64_le_roundtrip(a.interrupt_bitmap@[0]);
    lemma_u64_le_roundtrip(b.interrupt_bitmap@[0]);
    lemma_u64_le_roundtrip(a.interrupt_bitmap@[1]);
    lemma_u64_le_roundtrip(b.interrupt_bitmap@[1]);
    lemma_u64_le_roundtrip(a.interrupt_bitmap@[2]);
    lemma_u64_le_roundtrip(b.interrupt_bitmap@[2]);
    lemma_u64_le_roundtrip(a.interrupt_bitmap@[3]);
    lemma_u64_le_roundtrip(b.interrupt_bitmap@[3]);
    assert(a.interrupt_bitmap@ =~= b.interrupt_bitmap@);
    assert(a =~= b);
}

/// A `kvm_sregs` whose fields are all zero has an all-zero byte image,
/// the image of a zeroed ioctl argument buffer.
pub proof fn lemma_kvm_sregs_zero_image(x: kvm_sregs)
    requires
        x.is_zeroed(),
    ensures
        x.spec_bytes() == zero_bytes(KVM_SREGS_SIZE as int),
{
    lemma_le_bytes_zero();
    lemma_kvm_segment_zero_image(x.cs);
    lemma_kvm_segment_zero_image(x.ds);
    lemma_kvm_segment_zero_image(x.es);
    lemma_kvm_segment_zero_image(x.fs);
    lemma_kvm_segment_zero_image(x.gs);
    lemma_kvm_segment_zero_image(x.ss);
    lemma_kvm_segment_zero_image(x.tr);
    lemma_kvm_segment_zero_image(x.ldt);
    lemma_kvm_dtable_zero_image(x.gdt);
    lemma_kvm_dtable_zero_image(x.idt);
    lemma_zero_bytes_split(24, 48);
    lemma_zero_bytes_split(48, 72);
    lemma_zero_bytes_split(72, 96);
    lemma_zero_bytes_split(96, 120);
    lemma_zero_bytes_split(120, 144);
    lemma_zero_bytes_split(144, 168);
    lemma_zero_bytes_split(168, 192);
    lemma_zero_bytes_split(192, 208);
    lemma_zero_bytes_split(208, 224);
    lemma_zero_bytes_split(224, 232);
    lemma_zero_bytes_split(232, 240);
    lemma_zero_bytes_split(240, 248);
    lemma_zero_bytes_split(248, 256);
    lemma_zero_bytes_split(256, 264);
    lemma_zero_bytes_split(264, 272);
    lemma_zero_bytes_split(272, 280);
    lemma_zero_bytes_split(280, 288);
    lemma_zero_bytes_split(288, 296);
    lemma_zero_bytes_split(296, 304);
    lemma_zero_bytes_split(304, 312);
    assert(x.spec_bytes() == zero_bytes(KVM_SREGS_SIZE as int));
}

/// Byte size of the `kvm_sync_regs` kernel image.
pub const KVM_SYNC_REGS_SIZE: usize = 0;

/// Registers synchronized through the shared run page.  Empty in this
/// kernel snapshot on x86.
#[derive(Clone, Copy, Debug, PartialEq, Eq)]
#[verifier::ext_equal]
pub struct kvm_sync_regs {
}

impl kvm_sync_regs {
    /// The 0-byte kernel image of `self`: every field little-endian
    /// at its kernel offset.
    pub open spec fn spec_bytes(self) -> Seq<u8> {
        Seq::<u8>::empty()
    }

    /// Every field of `self` holds zero.
    pub open spec fn is_zeroed(self) -> bool {
        true
    }

    /// Appends the image of `self` to `out`.
    pub fn push_image(&self, out: &mut Vec<u8>)
        ensures
            final(out)@ == old(out)@ + self.spec_bytes(),
    {
        proof {
            lemma_concat_empty_right(out@);
        }
    }

    /// The image of `self` as a fresh buffer.
    pub fn to_bytes(&self) -> (out: Vec<u8>)
        ensures
            out@ == self.spec_bytes(),
            out@.len() == KVM_SYNC_REGS_SIZE,
    {
        let mut out: Vec<u8> = Vec::new();
        self.push_image(&mut out);
        proof {
            lemma_concat_empty_left(self.spec_bytes());
            lemma_kvm_sync_regs_bytes_len(*self);
        }
        out
    }

    /// Reads the structure whose image starts at offset `off` of `buf`.
    pub fn read_at(buf: &[u8], off: usize) -> (v: Self)
        requires
            off + KVM_SYNC_REGS_SIZE <= buf@.len(),
        ensures
            v.spec_bytes() == buf@.subrange(off as int, off as int + KVM_SYNC_REGS_SIZE),
    {
        let n: usize = buf.len();
        proof {
            assert(off + KVM_SYNC_REGS_SIZE <= n);
        }
        let v = kvm_sync_regs {
        };
        proof {
            lemma_kvm_sync_regs_read_at(v, buf@, off as int);
        }
        v
    }

    /// Reads a structure image from the start of `buf`, failing when the
    /// buffer is too short to hold one.
    pub fn from_bytes(buf: &[u8]) -> (r: Result<Self, CodecError>)
        ensures
            buf@.len() < KVM_SYNC_REGS_SIZE ==> r == Err::<kvm_sync_regs, CodecError>(
                CodecError::IncompleteBuffer,
            ),
            buf@.len() >= KVM_SYNC_REGS_SIZE ==> (r matches Ok(v) && v.spec_bytes() == buf@.subrange(
                0,
                KVM_SYNC_REGS_SIZE as int,
            )),
    {
        if buf.len() < KVM_SYNC_REGS_SIZE {
            Err(CodecError::IncompleteBuffer)
        } else {
            Ok(Self::read_at(buf, 0))
        }
    }
}

impl Default for kvm_sync_regs {
    /// Every field zero: the zeroed ioctl argument convention.
    fn default() -> (r: Self)
        ensures
            r.is_zeroed(),
    {
        let r = kvm_sync_regs {
        };
        r
    }
}

/// The image of a `kvm_sync_regs` is exactly 0 bytes.
pub proof fn lemma_kvm_sync_regs_bytes_len(x: kvm_sync_regs)
    ensures
        x.spec_bytes().len() == KVM_SYNC_REGS_SIZE,
{
}

/// A `kvm_sync_regs` whose fields were decoded from a buffer has that
/// buffer segment as its image.
#[verifier::rlimit(100)]
#[verifier::spinoff_prover]
proof fn lemma_kvm_sync_regs_read_at(v: kvm_sync_regs, b: Seq<u8>, off: int)
    requires
        0 <= off,
        off + KVM_SYNC_REGS_SIZE <= b.len(),
    ensures
        v.spec_bytes() == b.subrange(off, off + KVM_SYNC_REGS_SIZE),
{
    assert(b.subrange(off, off + KVM_SYNC_REGS_SIZE as int) =~= Seq::<u8>::empty());
}

/// Each field's image stands at its kernel offset inside the image of
/// a `kvm_sync_regs`.
proof fn lemma_kvm_sync_regs_field_images(x: kvm_sync_regs)
    ensures
        x.spec_bytes().len() == KVM_SYNC_REGS_SIZE,
{
    lemma_kvm_sync_regs_bytes_len(x);
}

/// The byte image determines the structure: reading an image back
/// always yields the one value that produced it.
pub proof fn lemma_kvm_sync_regs_image_injective(a: kvm_sync_regs, b: kvm_sync_regs)
    requires
        a.spec_bytes() == b.spec_bytes(),
    ensures
        a == b,
{
    lemma_kvm_sync_regs_field_images(a);
    lemma_kvm_sync_regs_field_images(b);
    assert(a =~= b);
}

/// A `kvm_sync_regs` whose fields are all zero has an all-zero byte image,
/// the image of a zeroed ioctl argument buffer.
pub proof fn lemma_kvm_sync_regs_zero_image(x: kvm_sync_regs)
    requires
        x.is_zeroed(),
    ensures
        x.spec_bytes() == zero_bytes(KVM_SYNC_REGS_SIZE as int),
{
    lemma_le_bytes_zero();
    assert(zero_bytes(0) =~= Seq::<u8>::empty());
}

} // verus!
