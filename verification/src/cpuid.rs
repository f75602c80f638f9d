//! MSR and CPUID list structures.
//!
//! `kvm_msrs`, `kvm_msr_list` and `kvm_cpuid2` are flexible-array headers:
//! a fixed-size count block followed, in the caller's allocation, by a
//! variable number of entries marked by an [`__IncompleteArrayField`].
//! Their byte images cover the fixed-size header alone.

use vstd::prelude::*;

verus! {

broadcast use vstd::array::group_array_axioms;

use crate::codec::CodecError;
use crate::codec::lemma_concat_assoc;
use crate::codec::lemma_concat_empty_left;
use crate::codec::lemma_concat_parts;
use crate::codec::lemma_le_bytes_zero;
use crate::codec::lemma_seq_parts;
use crate::codec::lemma_subrange_subrange;
use crate::codec::lemma_u32_le_bytes_of;
use crate::codec::lemma_u32_le_roundtrip;
use crate::codec::lemma_u64_le_bytes_of;
use crate::codec::lemma_u64_le_roundtrip;
use crate::codec::lemma_zero_bytes_split;
use crate::codec::push_u32_le;
use crate::codec::push_u64_le;
use crate::codec::read_u32_le;
use crate::codec::read_u64_le;
use crate::codec::u32_le_bytes;
use crate::codec::u32_of_le_bytes;
use crate::codec::u64_le_bytes;
use crate::codec::u64_of_le_bytes;
use crate::codec::zero_bytes;
use crate::fam::__IncompleteArrayField;

/// Byte size of the `kvm_msr_entry` kernel image.
pub const KVM_MSR_ENTRY_SIZE: usize = 16;

/// One model-specific register: its index and 64-bit value.
#[derive(Clone, Copy, Debug, PartialEq)]
#[verifier::ext_equal]
pub struct kvm_msr_entry {
    pub index: u32,
    pub reserved: u32,
    pub data: u64,
}

impl kvm_msr_entry {
    /// The 16-byte kernel image of `self`: every field little-endian
    /// at its kernel offset.
    pub open spec fn spec_bytes(self) -> Seq<u8> {
        u32_le_bytes(self.index) + u32_le_bytes(self.reserved) + u64_le_bytes(self.data)
    }

    /// Every field of `self` holds zero.
    pub open spec fn is_zeroed(self) -> bool {
        self.index == 0 && self.reserved == 0 && self.data == 0
    }

    /// Appends the image of `self` to `out`.
    pub fn push_image(&self, out: &mut Vec<u8>)
        ensures
            final(out)@ == old(out)@ + self.spec_bytes(),
    {
        let ghost base: Seq<u8> = out@;
        push_u32_le(out, self.index);
        let ghost mut acc: Seq<u8> = u32_le_bytes(self.index);
        push_u32_le(out, self.reserved);
        proof {
            lemma_concat_assoc(base, acc, u32_le_bytes(self.reserved));
            acc = acc + (u32_le_bytes(self.reserved));
        }
        push_u64_le(out, self.data);
        proof {
            lemma_concat_assoc(base, acc, u64_le_bytes(self.data));
            acc = acc + (u64_le_bytes(self.data));
        }
        proof {
            assert(out@ == base + acc);
            assert(acc == self.spec_bytes());
        }
    }

    /// The image of `self` as a fresh buffer.
    pub fn to_bytes(&self) -> (out: Vec<u8>)
        ensures
            out@ == self.spec_bytes(),
            out@.len() == KVM_MSR_ENTRY_SIZE,
    {
        let mut out: Vec<u8> = Vec::new();
        self.push_image(&mut out);
        proof {
            lemma_concat_empty_left(self.spec_bytes());
            lemma_kvm_msr_entry_bytes_len(*self);
        }
        out
    }

    /// Reads the structure whose image starts at offset `off` of `buf`.
    pub fn read_at(buf: &[u8], off: usize) -> (v: Self)
        requires
            off + KVM_MSR_ENTRY_SIZE <= buf@.len(),
        ensures
            v.spec_bytes() == buf@.subrange(off as int, off as int + KVM_MSR_ENTRY_SIZE),
    {
        let n: usize = buf.len();
        proof {
            assert(off + KVM_MSR_ENTRY_SIZE <= n);
        }
        let v = kvm_msr_entry {
            index: read_u32_le(buf, off),
            reserved: read_u32_le(buf, off + 4),
            data: read_u64_le(buf, off + 8),
        };
        proof {
            lemma_kvm_msr_entry_read_at(v, buf@, off as int);
        }
        v
    }

    /// Reads a structure image from the start of `buf`, failing when the
    /// buffer is too short to hold one.
    pub fn from_bytes(buf: &[u8]) -> (r: Result<Self, CodecError>)
        ensures
            buf@.len() < KVM_MSR_ENTRY_SIZE ==> r == Err::<kvm_msr_entry, CodecError>(
                CodecError::IncompleteBuffer,
            ),
            buf@.len() >= KVM_MSR_ENTRY_SIZE ==> (r matches Ok(v) && v.spec_bytes() == buf@.subrange(
                0,
                KVM_MSR_ENTRY_SIZE as int,
            )),
    {
        if buf.len() < KVM_MSR_ENTRY_SIZE {
            Err(CodecError::IncompleteBuffer)
        } else {
            Ok(Self::read_at(buf, 0))
        }
    }
}

impl Default for kvm_msr_entry {
    /// Every field zero: the zeroed ioctl argument convention.
    fn default() -> (r: Self)
        ensures
            r.is_zeroed(),
    {
        let r = kvm_msr_entry {
            index: 0,
            reserved: 0,
            data: 0,
        };
        r
    }
}

/// The image of a `kvm_msr_entry` is exactly 16 bytes.
pub proof fn lemma_kvm_msr_entry_bytes_len(x: kvm_msr_entry)
    ensures
        x.spec_bytes().len() == KVM_MSR_ENTRY_SIZE,
{
}

/// A `kvm_msr_entry` whose fields were decoded from a buffer has that
/// buffer segment as its image.
#[verifier::rlimit(100)]
#[verifier::spinoff_prover]
proof fn lemma_kvm_msr_entry_read_at(v: kvm_msr_entry, b: Seq<u8>, off: int)
    requires
        0 <= off,
        off + KVM_MSR_ENTRY_SIZE <= b.len(),
        v.index == u32_of_le_bytes(b.subrange(off + 0, off + 4)),
        v.reserved == u32_of_le_bytes(b.subrange(off + 4, off + 8)),
        v.data == u64_of_le_bytes(b.subrange(off + 8, off + 16)),
    ensures
        v.spec_bytes() == b.subrange(off, off + KVM_MSR_ENTRY_SIZE),
{
    let s = b.subrange(off, off + KVM_MSR_ENTRY_SIZE as int);
    lemma_u32_le_bytes_of(b.subrange(off + 0, off + 4));
    lemma_u32_le_bytes_of(b.subrange(off + 4, off + 8));
    lemma_u64_le_bytes_of(b.subrange(off + 8, off + 16));
    lemma_subrange_subrange(b, off, off + KVM_MSR_ENTRY_SIZE as int, 0, 4);
    lemma_subrange_subrange(b, off, off + KVM_MSR_ENTRY_SIZE as int, 4, 8);
    lemma_subrange_subrange(b, off, off + KVM_MSR_ENTRY_SIZE as int, 8, 16);
    lemma_seq_parts(s, 4, 8);
    lemma_seq_parts(s, 8, 16);
    assert(s.subrange(0, KVM_MSR_ENTRY_SIZE as int) =~= s);
    assert(v.spec_bytes() == s);
}

/// Field images of a `kvm_msr_entry`, covering one run of fields.
#[verifier::rlimit(100)]
#[verifier::spinoff_prover]
proof fn lemma_kvm_msr_entry_field_images_seg0(x: kvm_msr_entry)
    ensures
        x.spec_bytes().len() == KVM_MSR_ENTRY_SIZE,
        x.spec_bytes().subrange(8, 16) == u64_le_bytes(x.data),
        x.spec_bytes().subrange(4, 8) == u32_le_bytes(x.reserved),
        x.spec_bytes().subrange(0, 4) == u32_le_bytes(x.index),
{
    lemma_kvm_msr_entry_bytes_len(x);
    let p0 = u32_le_bytes(x.index);
    let p1 = u32_le_bytes(x.reserved);
    let p2 = u64_le_bytes(x.data);
    let t1 = p0 + p1;
    let t2 = t1 + p2;
    assert(x.spec_bytes() == t2);
    lemma_concat_parts(t1, p2);
    lemma_concat_parts(p0, p1);
    lemma_subrange_subrange(x.spec_bytes(), 0, 8, 0, 4);
    lemma_subrange_subrange(x.spec_bytes(), 0, 8, 4, 8);
}

/// Each field's image stands at its kernel offset inside the image of
/// a `kvm_msr_entry`.
proof fn lemma_kvm_msr_entry_field_images(x: kvm_msr_entry)
    ensures
        x.spec_bytes().len() == KVM_MSR_ENTRY_SIZE,
        x.spec_bytes().subrange(0, 4) == u32_le_bytes(x.index),
        x.spec_bytes().subrange(4, 8) == u32_le_bytes(x.reserved),
        x.spec_bytes().subrange(8, 16) == u64_le_bytes(x.data),
{
    lemma_kvm_msr_entry_field_images_seg0(x);
}

/// The byte image determines the structure: reading an image back
/// always yields the one value that produced it.
pub proof fn lemma_kvm_msr_entry_image_injective(a: kvm_msr_entry, b: kvm_msr_entry)
    requires
        a.spec_bytes() == b.spec_bytes(),
    ensures
        a == b,
{
    lemma_kvm_msr_entry_field_images(a);
    lemma_kvm_msr_entry_field_images(b);
    lemma_u32_le_roundtrip(a.index);
    lemma_u32_le_roundtrip(b.index);
    lemma_u32_le_roundtrip(a.reserved);
    lemma_u32_le_roundtrip(b.reserved);
    lemma_u64_le_roundtrip(a.data);
    lemma_u64_le_roundtrip(b.data);
    assert(a =~= b);
}

/// A `kvm_msr_entry` whose fields are all zero has an all-zero byte image,
/// the image of a zeroed ioctl argument buffer.
pub proof fn lemma_kvm_msr_entry_zero_image(x: kvm_msr_entry)
    requires
        x.is_zeroed(),
    ensures
        x.spec_bytes() == zero_bytes(KVM_MSR_ENTRY_SIZE as int),
{
    lemma_le_bytes_zero();
    lemma_zero_bytes_split(4, 8);
    lemma_zero_bytes_split(8, 16);
    assert(x.spec_bytes() == zero_bytes(KVM_MSR_ENTRY_SIZE as int));
}

/// Byte size of the `kvm_msrs` kernel image.
pub const KVM_MSRS_SIZE: usize = 8;

/// Header of an MSR list: the entry count, then `nmsrs` entries of type
/// [`kvm_msr_entry`] contiguous in the caller's allocation.
#[derive(Debug)]
#[verifier::ext_equal]
pub struct kvm_msrs {
    pub nmsrs: u32,
    pub pad: u32,
    pub entries: __IncompleteArrayField<kvm_msr_entry>,
}

impl kvm_msrs {
    /// The 8-byte kernel image of `self`: every field little-endian
    /// at its kernel offset.
    pub open spec fn spec_bytes(self) -> Seq<u8> {
        u32_le_bytes(self.nmsrs) + u32_le_bytes(self.pad)
    }

    /// Every field of `self` holds zero.
    pub open spec fn is_zeroed(self) -> bool {
        self.nmsrs == 0 && self.pad == 0
    }

    /// Appends the image of `self` to `out`.
    pub fn push_image(&self, out: &mut Vec<u8>)
        ensures
            final(out)@ == old(out)@ + self.spec_bytes(),
    {
        let ghost base: Seq<u8> = out@;
        push_u32_le(out, self.nmsrs);
        let ghost mut acc: Seq<u8> = u32_le_bytes(self.nmsrs);
        push_u32_le(out, self.pad);
        proof {
            lemma_concat_assoc(base, acc, u32_le_bytes(self.pad));
            acc = acc + (u32_le_bytes(self.pad));
        }
        proof {
            assert(out@ == base + acc);
            assert(acc == self.spec_bytes());
        }
    }

    /// The image of `self` as a fresh buffer.
    pub fn to_bytes(&self) -> (out: Vec<u8>)
        ensures
            out@ == self.spec_bytes(),
            out@.len() == KVM_MSRS_SIZE,
    {
        let mut out: Vec<u8> = Vec::new();
        self.push_image(&mut out);
        proof {
            lemma_concat_empty_left(self.spec_bytes());
            lemma_kvm_msrs_bytes_len(*self);
        }
        out
    }

    /// Reads the structure whose image starts at offset `off` of `buf`.
    pub fn read_at(buf: &[u8], off: usize) -> (v: Self)
        requires
            off + KVM_MSRS_SIZE <= buf@.len(),
        ensures
            v.spec_bytes() == buf@.subrange(off as int, off as int + KVM_MSRS_SIZE),
    {
        let n: usize = buf.len();
        proof {
            assert(off + KVM_MSRS_SIZE <= n);
        }
        let v = kvm_msrs {
            nmsrs: read_u32_le(buf, off),
            pad: read_u32_le(buf, off + 4),
            entries: __IncompleteArrayField::new(),
        };
        proof {
            lemma_kvm_msrs_read_at(v, buf@, off as int);
        }
        v
    }

    /// Reads a structure image from the start of `buf`, failing when the
    /// buffer is too short to hold one.
    pub fn from_bytes(buf: &[u8]) -> (r: Result<Self, CodecError>)
        ensures
            buf@.len() < KVM_MSRS_SIZE ==> r == Err::<kvm_msrs, CodecError>(
                CodecError::IncompleteBuffer,
            ),
            buf@.len() >= KVM_MSRS_SIZE ==> (r matches Ok(v) && v.spec_bytes() == buf@.subrange(
                0,
                KVM_MSRS_SIZE as int,
            )),
    {
        if buf.len() < KVM_MSRS_SIZE {
            Err(CodecError::IncompleteBuffer)
        } else {
            Ok(Self::read_at(buf, 0))
        }
    }
}

impl Default for kvm_msrs {
    /// Every field zero: the zeroed ioctl argument convention.
    fn default() -> (r: Self)
        ensures
            r.is_zeroed(),
    {
        let r = kvm_msrs {
            nmsrs: 0,
            pad: 0,
            entries: __IncompleteArrayField::new(),
        };
        r
    }
}

/// The image of a `kvm_msrs` is exactly 8 bytes.
pub proof fn lemma_kvm_msrs_bytes_len(x: kvm_msrs)
    ensures
        x.spec_bytes().len() == KVM_MSRS_SIZE,
{
}

/// A `kvm_msrs` whose fields were decoded from a buffer has that
/// buffer segment as its image.
#[verifier::rlimit(100)]
#[verifier::spinoff_prover]
proof fn lemma_kvm_msrs_read_at(v: kvm_msrs, b: Seq<u8>, off: int)
    requires
        0 <= off,
        off + KVM_MSRS_SIZE <= b.len(),
        v.nmsrs == u32_of_le_bytes(b.subrange(off + 0, off + 4)),
        v.pad == u32_of_le_bytes(b.subrange(off + 4, off + 8)),
    ensures
        v.spec_bytes() == b.subrange(off, off + KVM_MSRS_SIZE),
{
    let s = b.subrange(off, off + KVM_MSRS_SIZE as int);
    lemma_u32_le_bytes_of(b.subrange(off + 0, off + 4));
    lemma_u32_le_bytes_of(b.subrange(off + 4, off + 8));
    lemma_subrange_subrange(b, off, off + KVM_MSRS_SIZE as int, 0, 4);
    lemma_subrange_subrange(b, off, off + KVM_MSRS_SIZE as int, 4, 8);
    lemma_seq_parts(s, 4, 8);
    assert(s.subrange(0, KVM_MSRS_SIZE as int) =~= s);
    assert(v.spec_bytes() == s);
}

/// Field images of a `kvm_msrs`, covering one run of fields.
#[verifier::rlimit(100)]
#[verifier::spinoff_prover]
proof fn lemma_kvm_msrs_field_images_seg0(x: kvm_msrs)
    ensures
        x.spec_bytes().len() == KVM_MSRS_SIZE,
        x.spec_bytes().subrange(4, 8) == u32_le_bytes(x.pad),
        x.spec_bytes().subrange(0, 4) == u32_le_bytes(x.nmsrs),
{
    lemma_kvm_msrs_bytes_len(x);
    let p0 = u32_le_bytes(x.nmsrs);
    let p1 = u32_le_bytes(x.pad);
    let t1 = p0 + p1;
    assert(x.spec_bytes() == t1);
    lemma_concat_parts(p0, p1);
}

/// Each field's image stands at its kernel offset inside the image of
/// a `kvm_msrs`.
proof fn lemma_kvm_msrs_field_images(x: kvm_msrs)
    ensures
        x.spec_bytes().len() == KVM_MSRS_SIZE,
        x.spec_bytes().subrange(0, 4) == u32_le_bytes(x.nmsrs),
        x.spec_bytes().subrange(4, 8) == u32_le_bytes(x.pad),
{
    lemma_kvm_msrs_field_images_seg0(x);
}

/// The byte image pins every header field; the tail marker itself
/// holds no state.
pub proof fn lemma_kvm_msrs_image_determines_header(a: kvm_msrs, b: kvm_msrs)
    requires
        a.spec_bytes() == b.spec_bytes(),
    ensures
        a.nmsrs == b.nmsrs,
        a.pad == b.pad,
{
    lemma_kvm_msrs_field_images(a);
    lemma_kvm_msrs_field_images(b);
    lemma_u32_le_roundtrip(a.nmsrs);
    lemma_u32_le_roundtrip(b.nmsrs);
    lemma_u32_le_roundtrip(a.pad);
    lemma_u32_le_roundtrip(b.pad);
}

/// A `kvm_msrs` whose fields are all zero has an all-zero byte image,
/// the image of a zeroed ioctl argument buffer.
pub proof fn lemma_kvm_msrs_zero_image(x: kvm_msrs)
    requires
        x.is_zeroed(),
    ensures
        x.spec_bytes() == zero_bytes(KVM_MSRS_SIZE as int),
{
    lemma_le_bytes_zero();
    lemma_zero_bytes_split(4, 8);
    assert(x.spec_bytes() == zero_bytes(KVM_MSRS_SIZE as int));
}

/// Byte size of the `kvm_msr_list` kernel image.
pub const KVM_MSR_LIST_SIZE: usize = 4;

/// Header of an MSR index list: the count, then `nmsrs` 32-bit indices
/// contiguous in the caller's allocation.
#[derive(Debug)]
#[verifier::ext_equal]
pub struct kvm_msr_list {
    pub nmsrs: u32,
    pub indices: __IncompleteArrayField<u32>,
}

impl kvm_msr_list {
    /// The 4-byte kernel image of `self`: every field little-endian
    /// at its kernel offset.
    pub open spec fn spec_bytes(self) -> Seq<u8> {
        u32_le_bytes(self.nmsrs)
    }

    /// Every field of `self` holds zero.
    pub open spec fn is_zeroed(self) -> bool {
        self.nmsrs == 0
    }

    /// Appends the image of `self` to `out`.
    pub fn push_image(&self, out: &mut Vec<u8>)
        ensures
            final(out)@ == old(out)@ + self.spec_bytes(),
    {
        let ghost base: Seq<u8> = out@;
        push_u32_le(out, self.nmsrs);
        let ghost mut acc: Seq<u8> = u32_le_bytes(self.nmsrs);
        proof {
            assert(out@ == base + acc);
            assert(acc == self.spec_bytes());
        }
    }

    /// The image of `self` as a fresh buffer.
    pub fn to_bytes(&self) -> (out: Vec<u8>)
        ensures
            out@ == self.spec_bytes(),
            out@.len() == KVM_MSR_LIST_SIZE,
    {
        let mut out: Vec<u8> = Vec::new();
        self.push_image(&mut out);
        proof {
            lemma_concat_empty_left(self.spec_bytes());
            lemma_kvm_msr_list_bytes_len(*self);
        }
        out
    }

    /// Reads the structure whose image starts at offset `off` of `buf`.
    pub fn read_at(buf: &[u8], off: usize) -> (v: Self)
        requires
            off + KVM_MSR_LIST_SIZE <= buf@.len(),
        ensures
            v.spec_bytes() == buf@.subrange(off as int, off as int + KVM_MSR_LIST_SIZE),
    {
        let n: usize = buf.len();
        proof {
            assert(off + KVM_MSR_LIST_SIZE <= n);
        }
        let v = kvm_msr_list {
            nmsrs: read_u32_le(buf, off),
            indices: __IncompleteArrayField::new(),
        };
        proof {
            lemma_kvm_msr_list_read_at(v, buf@, off as int);
        }
        v
    }

    /// Reads a structure image from the start of `buf`, failing when the
    /// buffer is too short to hold one.
    pub fn from_bytes(buf: &[u8]) -> (r: Result<Self, CodecError>)
        ensures
            buf@.len() < KVM_MSR_LIST_SIZE ==> r == Err::<kvm_msr_list, CodecError>(
                CodecError::IncompleteBuffer,
            ),
            buf@.len() >= KVM_MSR_LIST_SIZE ==> (r matches Ok(v) && v.spec_bytes() == buf@.subrange(
                0,
                KVM_MSR_LIST_SIZE as int,
            )),
    {
        if buf.len() < KVM_MSR_LIST_SIZE {
            Err(CodecError::IncompleteBuffer)
        } else {
            Ok(Self::read_at(buf, 0))
        }
    }
}

impl Default for kvm_msr_list {
    /// Every field zero: the zeroed ioctl argument convention.
    fn default() -> (r: Self)
        ensures
            r.is_zeroed(),
    {
        let r = kvm_msr_list {
            nmsrs: 0,
            indices: __IncompleteArrayField::new(),
        };
        r
    }
}

/// The image of a `kvm_msr_list` is exactly 4 bytes.
pub proof fn lemma_kvm_msr_list_bytes_len(x: kvm_msr_list)
    ensures
        x.spec_bytes().len() == KVM_MSR_LIST_SIZE,
{
}

/// A `kvm_msr_list` whose fields were decoded from a buffer has that
/// buffer segment as its image.
#[verifier::rlimit(100)]
#[verifier::spinoff_prover]
proof fn lemma_kvm_msr_list_read_at(v: kvm_msr_list, b: Seq<u8>, off: int)
    requires
        0 <= off,
        off + KVM_MSR_LIST_SIZE <= b.len(),
        v.nmsrs == u32_of_le_bytes(b.subrange(off + 0, off + 4)),
    ensures
        v.spec_bytes() == b.subrange(off, off + KVM_MSR_LIST_SIZE),
{
    let s = b.subrange(off, off + KVM_MSR_LIST_SIZE as int);
    lemma_u32_le_bytes_of(b.subrange(off + 0, off + 4));
    lemma_subrange_subrange(b, off, off + KVM_MSR_LIST_SIZE as int, 0, 4);
    assert(s.subrange(0, KVM_MSR_LIST_SIZE as int) =~= s);
    assert(v.spec_bytes() == s);
}

/// Each field's image stands at its kernel offset inside the image of
/// a `kvm_msr_list`.
proof fn lemma_kvm_msr_list_field_images(x: kvm_msr_list)
    ensures
        x.spec_bytes().len() == KVM_MSR_LIST_SIZE,
        x.spec_bytes().subrange(0, 4) == u32_le_bytes(x.nmsrs),
{
    lemma_kvm_msr_list_bytes_len(x);
    assert(x.spec_bytes().subrange(0, KVM_MSR_LIST_SIZE as int) =~= x.spec_bytes());
}

/// The byte image pins every header field; the tail marker itself
/// holds no state.
pub proof fn lemma_kvm_msr_list_image_determines_header(a: kvm_msr_list, b: kvm_msr_list)
    requires
        a.spec_bytes() == b.spec_bytes(),
    ensures
        a.nmsrs == b.nmsrs,
{
    lemma_kvm_msr_list_field_images(a);
    lemma_kvm_msr_list_field_images(b);
    lemma_u32_le_roundtrip(a.nmsrs);
    lemma_u32_le_roundtrip(b.nmsrs);
}

/// A `kvm_msr_list` whose fields are all zero has an all-zero byte image,
/// the image of a zeroed ioctl argument buffer.
pub proof fn lemma_kvm_msr_list_zero_image(x: kvm_msr_list)
    requires
        x.is_zeroed(),
    ensures
        x.spec_bytes() == zero_bytes(KVM_MSR_LIST_SIZE as int),
{
    lemma_le_bytes_zero();
    assert(x.spec_bytes() == zero_bytes(KVM_MSR_LIST_SIZE as int));
}

/// Byte size of the `kvm_cpuid_entry` kernel image.
pub const KVM_CPUID_ENTRY_SIZE: usize = 24;

/// One CPUID leaf in the older list format: function and output registers.
#[derive(Clone, Copy, Debug, PartialEq)]
#[verifier::ext_equal]
pub struct kvm_cpuid_entry {
    pub function: u32,
    pub eax: u32,
    pub ebx: u32,
    pub ecx: u32,
    pub edx: u32,
    pub padding: u32,
}

impl kvm_cpuid_entry {
    /// The 24-byte kernel image of `self`: every field little-endian
    /// at its kernel offset.
    pub open spec fn spec_bytes(self) -> Seq<u8> {
        u32_le_bytes(self.function) + u32_le_bytes(self.eax) + u32_le_bytes(self.ebx) + u32_le_bytes(self.ecx) + u32_le_bytes(self.edx) + u32_le_bytes(self.padding)
    }

    /// Every field of `self` holds zero.
    pub open spec fn is_zeroed(self) -> bool {
        self.function == 0 && self.eax == 0 && self.ebx == 0 && self.ecx == 0 && self.edx == 0 && self.padding == 0
    }

    /// Appends the image of `self` to `out`.
    pub fn push_image(&self, out: &mut Vec<u8>)
        ensures
            final(out)@ == old(out)@ + self.spec_bytes(),
    {
        let ghost base: Seq<u8> = out@;
        push_u32_le(out, self.function);
        let ghost mut acc: Seq<u8> = u32_le_bytes(self.function);
        push_u32_le(out, self.eax);
        proof {
            lemma_concat_assoc(base, acc, u32_le_bytes(self.eax));
            acc = acc + (u32_le_bytes(self.eax));
        }
        push_u32_le(out, self.ebx);
        proof {
            lemma_concat_assoc(base, acc, u32_le_bytes(self.ebx));
            acc = acc + (u32_le_bytes(self.ebx));
        }
        push_u32_le(out, self.ecx);
        proof {
            lemma_concat_assoc(base, acc, u32_le_bytes(self.ecx));
            acc = acc + (u32_le_bytes(self.ecx));
        }
        push_u32_le(out, self.edx);
        proof {
            lemma_concat_assoc(base, acc, u32_le_bytes(self.edx));
            acc = acc + (u32_le_bytes(self.edx));
        }
        push_u32_le(out, self.padding);
        proof {
            lemma_concat_assoc(base, acc, u32_le_bytes(self.padding));
            acc = acc + (u32_le_bytes(self.padding));
        }
        proof {
            assert(out@ == base + acc);
            assert(acc == self.spec_bytes());
        }
    }

    /// The image of `self` as a fresh buffer.
    pub fn to_bytes(&self) -> (out: Vec<u8>)
        ensures
            out@ == self.spec_bytes(),
            out@.len() == KVM_CPUID_ENTRY_SIZE,
    {
        let mut out: Vec<u8> = Vec::new();
        self.push_image(&mut out);
        proof {
            lemma_concat_empty_left(self.spec_bytes());
            lemma_kvm_cpuid_entry_bytes_len(*self);
        }
        out
    }

    /// Reads the structure whose image starts at offset `off` of `buf`.
    pub fn read_at(buf: &[u8], off: usize) -> (v: Self)
        requires
            off + KVM_CPUID_ENTRY_SIZE <= buf@.len(),
        ensures
            v.spec_bytes() == buf@.subrange(off as int, off as int + KVM_CPUID_ENTRY_SIZE),
    {
        let n: usize = buf.len();
        proof {
            assert(off + KVM_CPUID_ENTRY_SIZE <= n);
        }
        let v = kvm_cpuid_entry {
            function: read_u32_le(buf, off),
            eax: read_u32_le(buf, off + 4),
            ebx: read_u32_le(buf, off + 8),
            ecx: read_u32_le(buf, off + 12),
            edx: read_u32_le(buf, off + 16),
            padding: read_u32_le(buf, off + 20),
        };
        proof {
            lemma_kvm_cpuid_entry_read_at(v, buf@, off as int);
        }
        v
    }

    /// Reads a structure image from the start of `buf`, failing when the
    /// buffer is too short to hold one.
    pub fn from_bytes(buf: &[u8]) -> (r: Result<Self, CodecError>)
        ensures
            buf@.len() < KVM_CPUID_ENTRY_SIZE ==> r == Err::<kvm_cpuid_entry, CodecError>(
                CodecError::IncompleteBuffer,
            ),
            buf@.len() >= KVM_CPUID_ENTRY_SIZE ==> (r matches Ok(v) && v.spec_bytes() == buf@.subrange(
                0,
                KVM_CPUID_ENTRY_SIZE as int,
            )),
    {
        if buf.len() < KVM_CPUID_ENTRY_SIZE {
            Err(CodecError::IncompleteBuffer)
        } else {
            Ok(Self::read_at(buf, 0))
        }
    }
}

impl Default for kvm_cpuid_entry {
    /// Every field zero: the zeroed ioctl argument convention.
    fn default() -> (r: Self)
        ensures
            r.is_zeroed(),
    {
        let r = kvm_cpuid_entry {
            function: 0,
            eax: 0,
            ebx: 0,
            ecx: 0,
            edx: 0,
            padding: 0,
        };
        r
    }
}

/// The image of a `kvm_cpuid_entry` is exactly 24 bytes.
pub proof fn lemma_kvm_cpuid_entry_bytes_len(x: kvm_cpuid_entry)
    ensures
        x.spec_bytes().len() == KVM_CPUID_ENTRY_SIZE,
{
}

/// A `kvm_cpuid_entry` whose fields were decoded from a buffer has that
/// buffer segment as its image.
#[verifier::rlimit(100)]
#[verifier::spinoff_prover]
proof fn lemma_kvm_cpuid_entry_read_at(v: kvm_cpuid_entry, b: Seq<u8>, off: int)
    requires
        0 <= off,
        off + KVM_CPUID_ENTRY_SIZE <= b.len(),
        v.function == u32_of_le_bytes(b.subrange(off + 0, off + 4)),
        v.eax == u32_of_le_bytes(b.subrange(off + 4, off + 8)),
        v.ebx == u32_of_le_bytes(b.subrange(off + 8, off + 12)),
        v.ecx == u32_of_le_bytes(b.subrange(off + 12, off + 16)),
        v.edx == u32_of_le_bytes(b.subrange(off + 16, off + 20)),
        v.padding == u32_of_le_bytes(b.subrange(off + 20, off + 24)),
    ensures
        v.spec_bytes() == b.subrange(off, off + KVM_CPUID_ENTRY_SIZE),
{
    let s = b.subrange(off, off + KVM_CPUID_ENTRY_SIZE as int);
    lemma_u32_le_bytes_of(b.subrange(off + 0, off + 4));
    lemma_u32_le_bytes_of(b.subrange(off + 4, off + 8));
    lemma_u32_le_bytes_of(b.subrange(off + 8, off + 12));
    lemma_u32_le_bytes_of(b.subrange(off + 12, off + 16));
    lemma_u32_le_bytes_of(b.subrange(off + 16, off + 20));
    lemma_u32_le_bytes_of(b.subrange(off + 20, off + 24));
    lemma_subrange_subrange(b, off, off + KVM_CPUID_ENTRY_SIZE as int, 0, 4);
    lemma_subrange_subrange(b, off, off + KVM_CPUID_ENTRY_SIZE as int, 4, 8);
    lemma_subrange_subrange(b, off, off + KVM_CPUID_ENTRY_SIZE as int, 8, 12);
    lemma_subrange_subrange(b, off, off + KVM_CPUID_ENTRY_SIZE as int, 12, 16);
    lemma_subrange_subrange(b, off, off + KVM_CPUID_ENTRY_SIZE as int, 16, 20);
    lemma_subrange_subrange(b, off, off + KVM_CPUID_ENTRY_SIZE as int, 20, 24);
    lemma_seq_parts(s, 4, 8);
    lemma_seq_parts(s, 8, 12);
    lemma_seq_parts(s, 12, 16);
    lemma_seq_parts(s, 16, 20);
    lemma_seq_parts(s, 20, 24);
    assert(s.subrange(0, KVM_CPUID_ENTRY_SIZE as int) =~= s);
    assert(v.spec_bytes() == s);
}

/// Field images of a `kvm_cpuid_entry`, covering one run of fields.
#[verifier::rlimit(100)]
#[verifier::spinoff_prover]
proof fn lemma_kvm_cpuid_entry_field_images_seg0(x: kvm_cpuid_entry)
    ensures
        x.spec_bytes().len() == KVM_CPUID_ENTRY_SIZE,
        x.spec_bytes().subrange(20, 24) == u32_le_bytes(x.padding),
        x.spec_bytes().subrange(16, 20) == u32_le_bytes(x.edx),
        x.spec_bytes().subrange(12, 16) == u32_le_bytes(x.ecx),
        x.spec_bytes().subrange(8, 12) == u32_le_bytes(x.ebx),
        x.spec_bytes().subrange(4, 8) == u32_le_bytes(x.eax),
        x.spec_bytes().subrange(0, 4) == u32_le_bytes(x.function),
{
    lemma_kvm_cpuid_entry_bytes_len(x);
    let p0 = u32_le_bytes(x.function);
    let p1 = u32_le_bytes(x.eax);
    let p2 = u32_le_bytes(x.ebx);
    let p3 = u32_le_bytes(x.ecx);
    let p4 = u32_le_bytes(x.edx);
    let p5 = u32_le_bytes(x.padding);
    let t1 = p0 + p1;
    let t2 = t1 + p2;
    let t3 = t2 + p3;
    let t4 = t3 + p4;
    let t5 = t4 + p5;
    assert(x.spec_bytes() == t5);
    lemma_concat_parts(t4, p5);
    lemma_concat_parts(t3, p4);
    lemma_subrange_subrange(x.spec_bytes(), 0, 20, 0, 16);
    lemma_subrange_subrange(x.spec_bytes(), 0, 20, 16, 20);
    lemma_concat_parts(t2, p3);
    lemma_subrange_subrange(x.spec_bytes(), 0, 16, 0, 12);
    lemma_subrange_subrange(x.spec_bytes(), 0, 16, 12, 16);
    lemma_concat_parts(t1, p2);
    lemma_subrange_subrange(x.spec_bytes(), 0, 12, 0, 8);
    lemma_subrange_subrange(x.spec_bytes(), 0, 12, 8, 12);
    lemma_concat_parts(p0, p1);
    lemma_subrange_subrange(x.spec_bytes(), 0, 8, 0, 4);
    lemma_subrange_subrange(x.spec_bytes(), 0, 8, 4, 8);
}

/// Each field's image stands at its kernel offset inside the image of
/// a `kvm_cpuid_entry`.
proof fn lemma_kvm_cpuid_entry_field_images(x: kvm_cpuid_entry)
    ensures
        x.spec_bytes().len() == KVM_CPUID_ENTRY_SIZE,
        x.spec_bytes().subrange(0, 4) == u32_le_bytes(x.function),
        x.spec_bytes().subrange(4, 8) == u32_le_bytes(x.eax),
        x.spec_bytes().subrange(8, 12) == u32_le_bytes(x.ebx),
        x.spec_bytes().subrange(12, 16) == u32_le_bytes(x.ecx),
        x.spec_bytes().subrange(16, 20) == u32_le_bytes(x.edx),
        x.spec_bytes().subrange(20, 24) == u32_le_bytes(x.padding),
{
    lemma_kvm_cpuid_entry_field_images_seg0(x);
}

/// The byte image determines the structure: reading an image back
/// always yields the one value that produced it.
pub proof fn lemma_kvm_cpuid_entry_image_injective(a: kvm_cpuid_entry, b: kvm_cpuid_entry)
    requires
        a.spec_bytes() == b.spec_bytes(),
    ensures
        a == b,
{
    lemma_kvm_cpuid_entry_field_images(a);
    lemma_kvm_cpuid_entry_field_images(b);
    lemma_u32_le_roundtrip(a.function);
    lemma_u32_le_roundtrip(b.function);
    lemma_u32_le_roundtrip(a.eax);
    lemma_u32_le_roundtrip(b.eax);
    lemma_u32_le_roundtrip(a.ebx);
    lemma_u32_le_roundtrip(b.ebx);
    lemma_u32_le_roundtrip(a.ecx);
    lemma_u32_le_roundtrip(b.ecx);
    lemma_u32_le_roundtrip(a.edx);
    lemma_u32_le_roundtrip(b.edx);
    lemma_u32_le_roundtrip(a.padding);
    lemma_u32_le_roundtrip(b.padding);
    assert(a =~= b);
}

/// A `kvm_cpuid_entry` whose fields are all zero has an all-zero byte image,
/// the image of a zeroed ioctl argument buffer.
pub proof fn lemma_kvm_cpuid_entry_zero_image(x: kvm_cpuid_entry)
    requires
        x.is_zeroed(),
    ensures
        x.spec_bytes() == zero_bytes(KVM_CPUID_ENTRY_SIZE as int),
{
    lemma_le_bytes_zero();
    lemma_zero_bytes_split(4, 8);
    lemma_zero_bytes_split(8, 12);
    lemma_zero_bytes_split(12, 16);
    lemma_zero_bytes_split(16, 20);
    lemma_zero_bytes_split(20, 24);
    assert(x.spec_bytes() == zero_bytes(KVM_CPUID_ENTRY_SIZE as int));
}

/// Byte size of the `kvm_cpuid_entry2` kernel image.
pub const KVM_CPUID_ENTRY2_SIZE: usize = 40;

/// One CPUID leaf: function, index, flags and the four output registers.
#[derive(Clone, Copy, Debug, PartialEq)]
#[verifier::ext_equal]
pub struct kvm_cpuid_entry2 {
    pub function: u32,
    pub index: u32,
    pub flags: u32,
    pub eax: u32,
    pub ebx: u32,
    pub ecx: u32,
    pub edx: u32,
    pub padding: [u32; 3],
}

impl kvm_cpuid_entry2 {
    /// The 40-byte kernel image of `self`: every field little-endian
    /// at its kernel offset.
    pub open spec fn spec_bytes(self) -> Seq<u8> {
        u32_le_bytes(self.function) + u32_le_bytes(self.index) + u32_le_bytes(self.flags) + u32_le_bytes(self.eax) + u32_le_bytes(self.ebx) + u32_le_bytes(self.ecx) + u32_le_bytes(self.edx) + u32_le_bytes(self.padding@[0]) + u32_le_bytes(self.padding@[1]) + u32_le_bytes(self.padding@[2])
    }

    /// Every field of `self` holds zero.
    pub open spec fn is_zeroed(self) -> bool {
        self.function == 0 && self.index == 0 && self.flags == 0 && self.eax == 0 && self.ebx == 0 && self.ecx == 0 && self.edx == 0 && self.padding@ == Seq::new(3, |i: int| 0u32)
    }

    /// Appends the image of `self` to `out`.
    pub fn push_image(&self, out: &mut Vec<u8>)
        ensures
            final(out)@ == old(out)@ + self.spec_bytes(),
    {
        let ghost base: Seq<u8> = out@;
        push_u32_le(out, self.function);
        let ghost mut acc: Seq<u8> = u32_le_bytes(self.function);
        push_u32_le(out, self.index);
        proof {
            lemma_concat_assoc(base, acc, u32_le_bytes(self.index));
            acc = acc + (u32_le_bytes(self.index));
        }
        push_u32_le(out, self.flags);
        proof {
            lemma_concat_assoc(base, acc, u32_le_bytes(self.flags));
            acc = acc + (u32_le_bytes(self.flags));
        }
        push_u32_le(out, self.eax);
        proof {
            lemma_concat_assoc(base, acc, u32_le_bytes(self.eax));
            acc = acc + (u32_le_bytes(self.eax));
        }
        push_u32_le(out, self.ebx);
        proof {
            lemma_concat_assoc(base, acc, u32_le_bytes(self.ebx));
            acc = acc + (u32_le_bytes(self.ebx));
        }
        push_u32_le(out, self.ecx);
        proof {
            lemma_concat_assoc(base, acc, u32_le_bytes(self.ecx));
            acc = acc + (u32_le_bytes(self.ecx));
        }
        push_u32_le(out, self.edx);
        proof {
            lemma_concat_assoc(base, acc, u32_le_bytes(self.edx));
            acc = acc + (u32_le_bytes(self.edx));
        }
        push_u32_le(out, self.padding[0]);
        proof {
            lemma_concat_assoc(base, acc, u32_le_bytes(self.padding@[0]));
            acc = acc + (u32_le_bytes(self.padding@[0]));
        }
        push_u32_le(out, self.padding[1]);
        proof {
            lemma_concat_assoc(base, acc, u32_le_bytes(self.padding@[1]));
            acc = acc + (u32_le_bytes(self.padding@[1]));
        }
        push_u32_le(out, self.padding[2]);
        proof {
            lemma_concat_assoc(base, acc, u32_le_bytes(self.padding@[2]));
            acc = acc + (u32_le_bytes(self.padding@[2]));
        }
        proof {
            assert(out@ == base + acc);
            assert(acc == self.spec_bytes());
        }
    }

    /// The image of `self` as a fresh buffer.
    pub fn to_bytes(&self) -> (out: Vec<u8>)
        ensures
            out@ == self.spec_bytes(),
            out@.len() == KVM_CPUID_ENTRY2_SIZE,
    {
        let mut out: Vec<u8> = Vec::new();
        self.push_image(&mut out);
        proof {
            lemma_concat_empty_left(self.spec_bytes());
            lemma_kvm_cpuid_entry2_bytes_len(*self);
        }
        out
    }

    /// Reads the structure whose image starts at offset `off` of `buf`.
    pub fn read_at(buf: &[u8], off: usize) -> (v: Self)
        requires
            off + KVM_CPUID_ENTRY2_SIZE <= buf@.len(),
        ensures
            v.spec_bytes() == buf@.subrange(off as int, off as int + KVM_CPUID_ENTRY2_SIZE),
    {
        let n: usize = buf.len();
        proof {
            assert(off + KVM_CPUID_ENTRY2_SIZE <= n);
        }
        let v = kvm_cpuid_entry2 {
            function: read_u32_le(buf, off),
            index: read_u32_le(buf, off + 4),
            flags: read_u32_le(buf, off + 8),
            eax: read_u32_le(buf, off + 12),
            ebx: read_u32_le(buf, off + 16),
            ecx: read_u32_le(buf, off + 20),
            edx: read_u32_le(buf, off + 24),
            padding: [read_u32_le(buf, off + 28), read_u32_le(buf, off + 32), read_u32_le(buf, off + 36)],
        };
        proof {
            lemma_kvm_cpuid_entry2_read_at(v, buf@, off as int);
        }
        v
    }

    /// Reads a structure image from the start of `buf`, failing when the
    /// buffer is too short to hold one.
    pub fn from_bytes(buf: &[u8]) -> (r: Result<Self, CodecError>)
        ensures
            buf@.len() < KVM_CPUID_ENTRY2_SIZE ==> r == Err::<kvm_cpuid_entry2, CodecError>(
                CodecError::IncompleteBuffer,
            ),
            buf@.len() >= KVM_CPUID_ENTRY2_SIZE ==> (r matches Ok(v) && v.spec_bytes() == buf@.subrange(
                0,
                KVM_CPUID_ENTRY2_SIZE as int,
            )),
    {
        if buf.len() < KVM_CPUID_ENTRY2_SIZE {
            Err(CodecError::IncompleteBuffer)
        } else {
            Ok(Self::read_at(buf, 0))
        }
    }
}

impl Default for kvm_cpuid_entry2 {
    /// Every field zero: the zeroed ioctl argument convention.
    fn default() -> (r: Self)
        ensures
            r.is_zeroed(),
    {
        let r = kvm_cpuid_entry2 {
            function: 0,
            index: 0,
            flags: 0,
            eax: 0,
            ebx: 0,
            ecx: 0,
            edx: 0,
            padding: vstd::array::array_fill_for_copy_types::<u32, 3>(0u32),
        };
        proof {
            assert(r.padding@ =~= Seq::new(3, |i: int| 0u32));
        }
        r
    }
}

/// The image of a `kvm_cpuid_entry2` is exactly 40 bytes.
pub proof fn lemma_kvm_cpuid_entry2_bytes_len(x: kvm_cpuid_entry2)
    ensures
        x.spec_bytes().len() == KVM_CPUID_ENTRY2_SIZE,
{
}

/// A `kvm_cpuid_entry2` whose fields were decoded from a buffer has that
/// buffer segment as its image.
#[verifier::rlimit(100)]
#[verifier::spinoff_prover]
proof fn lemma_kvm_cpuid_entry2_read_at(v: kvm_cpuid_entry2, b: Seq<u8>, off: int)
    requires
        0 <= off,
        off + KVM_CPUID_ENTRY2_SIZE <= b.len(),
        v.function == u32_of_le_bytes(b.subrange(off + 0, off + 4)),
        v.index == u32_of_le_bytes(b.subrange(off + 4, off + 8)),
        v.flags == u32_of_le_bytes(b.subrange(off + 8, off + 12)),
        v.eax == u32_of_le_bytes(b.subrange(off + 12, off + 16)),
        v.ebx == u32_of_le_bytes(b.subrange(off + 16, off + 20)),
        v.ecx == u32_of_le_bytes(b.subrange(off + 20, off + 24)),
        v.edx == u32_of_le_bytes(b.subrange(off + 24, off + 28)),
        v.padding@[0] == u32_of_le_bytes(b.subrange(off + 28, off + 32)),
        v.padding@[1] == u32_of_le_bytes(b.subrange(off + 32, off + 36)),
        v.padding@[2] == u32_of_le_bytes(b.subrange(off + 36, off + 40)),
    ensures
        v.spec_bytes() == b.subrange(off, off + KVM_CPUID_ENTRY2_SIZE),
{
    let s = b.subrange(off, off + KVM_CPUID_ENTRY2_SIZE as int);
    lemma_u32_le_bytes_of(b.subrange(off + 0, off + 4));
    lemma_u32_le_bytes_of(b.subrange(off + 4, off + 8));
    lemma_u32_le_bytes_of(b.subrange(off + 8, off + 12));
    lemma_u32_le_bytes_of(b.subrange(off + 12, off + 16));
    lemma_u32_le_bytes_of(b.subrange(off + 16, off + 20));
    lemma_u32_le_bytes_of(b.subrange(off + 20, off + 24));
    lemma_u32_le_bytes_of(b.subrange(off + 24, off + 28));
    lemma_u32_le_bytes_of(b.subrange(off + 28, off + 32));
    lemma_u32_le_bytes_of(b.subrange(off + 32, off + 36));
    lemma_u32_le_bytes_of(b.subrange(off + 36, off + 40));
    lemma_subrange_subrange(b, off, off + KVM_CPUID_ENTRY2_SIZE as int, 0, 4);
    lemma_subrange_subrange(b, off, off + KVM_CPUID_ENTRY2_SIZE as int, 4, 8);
    lemma_subrange_subrange(b, off, off + KVM_CPUID_ENTRY2_SIZE as int, 8, 12);
    lemma_subrange_subrange(b, off, off + KVM_CPUID_ENTRY2_SIZE as int, 12, 16);
    lemma_subrange_subrange(b, off, off + KVM_CPUID_ENTRY2_SIZE as int, 16, 20);
    lemma_subrange_subrange(b, off, off + KVM_CPUID_ENTRY2_SIZE as int, 20, 24);
    lemma_subrange_subrange(b, off, off + KVM_CPUID_ENTRY2_SIZE as int, 24, 28);
    lemma_subrange_subrange(b, off, off + KVM_CPUID_ENTRY2_SIZE as int, 28, 32);
    lemma_subrange_subrange(b, off, off + KVM_CPUID_ENTRY2_SIZE as int, 32, 36);
    lemma_subrange_subrange(b, off, off + KVM_CPUID_ENTRY2_SIZE as int, 36, 40);
    lemma_seq_parts(s, 4, 8);
    lemma_seq_parts(s, 8, 12);
    lemma_seq_parts(s, 12, 16);
    lemma_seq_parts(s, 16, 20);
    lemma_seq_parts(s, 20, 24);
    lemma_seq_parts(s, 24, 28);
    lemma_seq_parts(s, 28, 32);
    lemma_seq_parts(s, 32, 36);
    lemma_seq_parts(s, 36, 40);
    assert(s.subrange(0, KVM_CPUID_ENTRY2_SIZE as int) =~= s);
    assert(v.spec_bytes() == s);
}

/// Field images of a `kvm_cpuid_entry2`, covering one run of fields.
#[verifier::rlimit(100)]
#[verifier::spinoff_prover]
proof fn lemma_kvm_cpuid_entry2_field_images_seg0(x: kvm_cpuid_entry2)
    ensures
        x.spec_bytes().len() == KVM_CPUID_ENTRY2_SIZE,
        x.spec_bytes().subrange(36, 40) == u32_le_bytes(x.padding@[2]),
        x.spec_bytes().subrange(32, 36) == u32_le_bytes(x.padding@[1]),
        x.spec_bytes().subrange(28, 32) == u32_le_bytes(x.padding@[0]),
        x.spec_bytes().subrange(24, 28) == u32_le_bytes(x.edx),
        x.spec_bytes().subrange(20, 24) == u32_le_bytes(x.ecx),
        x.spec_bytes().subrange(16, 20) == u32_le_bytes(x.ebx),
        x.spec_bytes().subrange(12, 16) == u32_le_bytes(x.eax),
        x.spec_bytes().subrange(8, 12) == u32_le_bytes(x.flags),
        x.spec_bytes().subrange(0, 8) == (u32_le_bytes(x.function) + u32_le_bytes(x.index)),
{
    lemma_kvm_cpuid_entry2_bytes_len(x);
    let p0 = u32_le_bytes(x.function);
    let p1 = u32_le_bytes(x.index);
    let p2 = u32_le_bytes(x.flags);
    let p3 = u32_le_bytes(x.eax);
    let p4 = u32_le_bytes(x.ebx);
    let p5 = u32_le_bytes(x.ecx);
    let p6 = u32_le_bytes(x.edx);
    let p7 = u32_le_bytes(x.padding@[0]);
    let p8 = u32_le_bytes(x.padding@[1]);
    let p9 = u32_le_bytes(x.padding@[2]);
    let t1 = p0 + p1;
    let t2 = t1 + p2;
    let t3 = t2 + p3;
    let t4 = t3 + p4;
    let t5 = t4 + p5;
    let t6 = t5 + p6;
    let t7 = t6 + p7;
    let t8 = t7 + p8;
    let t9 = t8 + p9;
    assert(x.spec_bytes() == t9);
    lemma_concat_parts(t8, p9);
    lemma_concat_parts(t7, p8);
    lemma_subrange_subrange(x.spec_bytes(), 0, 36, 0, 32);
    lemma_subrange_subrange(x.spec_bytes(), 0, 36, 32, 36);
    lemma_concat_parts(t6, p7);
    lemma_subrange_subrange(x.spec_bytes(), 0, 32, 0, 28);
    lemma_subrange_subrange(x.spec_bytes(), 0, 32, 28, 32);
    lemma_concat_parts(t5, p6);
    lemma_subrange_subrange(x.spec_bytes(), 0, 28, 0, 24);
    lemma_subrange_subrange(x.spec_bytes(), 0, 28, 24, 28);
    lemma_concat_parts(t4, p5);
    lemma_subrange_subrange(x.spec_bytes(), 0, 24, 0, 20);
    lemma_subrange_subrange(x.spec_bytes(), 0, 24, 20, 24);
    lemma_concat_parts(t3, p4);
    lemma_subrange_subrange(x.spec_bytes(), 0, 20, 0, 16);
    lemma_subrange_subrange(x.spec_bytes(), 0, 20, 16, 20);
    lemma_concat_parts(t2, p3);
    lemma_subrange_subrange(x.spec_bytes(), 0, 16, 0, 12);
    lemma_subrange_subrange(x.spec_bytes(), 0, 16, 12, 16);
    lemma_concat_parts(t1, p2);
    lemma_subrange_subrange(x.spec_bytes(), 0, 12, 0, 8);
    lemma_subrange_subrange(x.spec_bytes(), 0, 12, 8, 12);
}

/// Field images of a `kvm_cpuid_entry2`, covering one run of fields.
#[verifier::rlimit(100)]
#[verifier::spinoff_prover]
proof fn lemma_kvm_cpuid_entry2_field_images_seg1(x: kvm_cpuid_entry2)
    ensures
        x.spec_bytes().len() == KVM_CPUID_ENTRY2_SIZE,
        x.spec_bytes().subrange(4, 8) == u32_le_bytes(x.index),
        x.spec_bytes().subrange(0, 4) == u32_le_bytes(x.function),
{
    lemma_kvm_cpuid_entry2_bytes_len(x);
    let p0 = u32_le_bytes(x.function);
    let p1 = u32_le_bytes(x.index);
    let t1 = p0 + p1;
    lemma_kvm_cpuid_entry2_field_images_seg0(x);
    lemma_concat_parts(p0, p1);
    lemma_subrange_subrange(x.spec_bytes(), 0, 8, 0, 4);
    lemma_subrange_subrange(x.spec_bytes(), 0, 8, 4, 8);
}

/// Each field's image stands at its kernel offset inside the image of
/// a `kvm_cpuid_entry2`.
proof fn lemma_kvm_cpuid_entry2_field_images(x: kvm_cpuid_entry2)
    ensures
        x.spec_bytes().len() == KVM_CPUID_ENTRY2_SIZE,
        x.spec_bytes().subrange(0, 4) == u32_le_bytes(x.function),
        x.spec_bytes().subrange(4, 8) == u32_le_bytes(x.index),
        x.spec_bytes().subrange(8, 12) == u32_le_bytes(x.flags),
        x.spec_bytes().subrange(12, 16) == u32_le_bytes(x.eax),
        x.spec_bytes().subrange(16, 20) == u32_le_bytes(x.ebx),
        x.spec_bytes().subrange(20, 24) == u32_le_bytes(x.ecx),
        x.spec_bytes().subrange(24, 28) == u32_le_bytes(x.edx),
        x.spec_bytes().subrange(28, 32) == u32_le_bytes(x.padding@[0]),
        x.spec_bytes().subrange(32, 36) == u32_le_bytes(x.padding@[1]),
        x.spec_bytes().subrange(36, 40) == u32_le_bytes(x.padding@[2]),
{
    lemma_kvm_cpuid_entry2_field_images_seg0(x);
    lemma_kvm_cpuid_entry2_field_images_seg1(x);
}

/// The byte image determines the structure: reading an image back
/// always yields the one value that produced it.
pub proof fn lemma_kvm_cpuid_entry2_image_injective(a: kvm_cpuid_entry2, b: kvm_cpuid_entry2)
    requires
        a.spec_bytes() == b.spec_bytes(),
    ensures
        a == b,
{
    lemma_kvm_cpuid_entry2_field_images(a);
    lemma_kvm_cpuid_entry2_field_images(b);
    lemma_u32_le_roundtrip(a.function);
    lemma_u32_le_roundtrip(b.function);
    lemma_u32_le_roundtrip(a.index);
    lemma_u32_le_roundtrip(b.index);
    lemma_u32_le_roundtrip(a.flags);
    lemma_u32_le_roundtrip(b.flags);
    lemma_u32_le_roundtrip(a.eax);
    lemma_u32_le_roundtrip(b.eax);
    lemma_u32_le_roundtrip(a.ebx);
    lemma_u32_le_roundtrip(b.ebx);
    lemma_u32_le_roundtrip(a.ecx);
    lemma_u32_le_roundtrip(b.ecx);
    lemma_u32_le_roundtrip(a.edx);
    lemma_u32_le_roundtrip(b.edx);
    lemma_u32_le_roundtrip(a.padding@[0]);
    lemma_u32_le_roundtrip(b.padding@[0]);
    lemma_u32_le_roundtrip(a.padding@[1]);
    lemma_u32_le_roundtrip(b.padding@[1]);
    lemma_u32_le_roundtrip(a.padding@[2]);
    lemma_u32_le_roundtrip(b.padding@[2]);
    assert(a.padding@ =~= b.padding@);
    assert(a =~= b);
}

/// A `kvm_cpuid_entry2` whose fields are all zero has an all-zero byte image,
/// the image of a zeroed ioctl argument buffer.
pub proof fn lemma_kvm_cpuid_entry2_zero_image(x: kvm_cpuid_entry2)
    requires
        x.is_zeroed(),
    ensures
        x.spec_bytes() == zero_bytes(KVM_CPUID_ENTRY2_SIZE as int),
{
    lemma_le_bytes_zero();
    lemma_zero_bytes_split(4, 8);
    lemma_zero_bytes_split(8, 12);
    lemma_zero_bytes_split(12, 16);
    lemma_zero_bytes_split(16, 20);
    lemma_zero_bytes_split(20, 24);
    lemma_zero_bytes_split(24, 28);
    lemma_zero_bytes_split(28, 32);
    lemma_zero_bytes_split(32, 36);
    lemma_zero_bytes_split(36, 40);
    assert(x.spec_bytes() == zero_bytes(KVM_CPUID_ENTRY2_SIZE as int));
}

/// Byte size of the `kvm_cpuid` kernel image.
pub const KVM_CPUID_SIZE: usize = 8;

/// Header of a CPUID list in the older format: the entry count, then
/// `nent` entries of type [`kvm_cpuid_entry`] in the caller's allocation.
#[derive(Debug)]
#[verifier::ext_equal]
pub struct kvm_cpuid {
    pub nent: u32,
    pub padding: u32,
    pub entries: __IncompleteArrayField<kvm_cpuid_entry>,
}

impl kvm_cpuid {
    /// The 8-byte kernel image of `self`: every field little-endian
    /// at its kernel offset.
    pub open spec fn spec_bytes(self) -> Seq<u8> {
        u32_le_bytes(self.nent) + u32_le_bytes(self.padding)
    }

    /// Every field of `self` holds zero.
    pub open spec fn is_zeroed(self) -> bool {
        self.nent == 0 && self.padding == 0
    }

    /// Appends the image of `self` to `out`.
    pub fn push_image(&self, out: &mut Vec<u8>)
        ensures
            final(out)@ == old(out)@ + self.spec_bytes(),
    {
        let ghost base: Seq<u8> = out@;
        push_u32_le(out, self.nent);
        let ghost mut acc: Seq<u8> = u32_le_bytes(self.nent);
        push_u32_le(out, self.padding);
        proof {
            lemma_concat_assoc(base, acc, u32_le_bytes(self.padding));
            acc = acc + (u32_le_bytes(self.padding));
        }
        proof {
            assert(out@ == base + acc);
            assert(acc == self.spec_bytes());
        }
    }

    /// The image of `self` as a fresh buffer.
    pub fn to_bytes(&self) -> (out: Vec<u8>)
        ensures
            out@ == self.spec_bytes(),
            out@.len() == KVM_CPUID_SIZE,
    {
        let mut out: Vec<u8> = Vec::new();
        self.push_image(&mut out);
        proof {
            lemma_concat_empty_left(self.spec_bytes());
            lemma_kvm_cpuid_bytes_len(*self);
        }
        out
    }

    /// Reads the structure whose image starts at offset `off` of `buf`.
    pub fn read_at(buf: &[u8], off: usize) -> (v: Self)
        requires
            off + KVM_CPUID_SIZE <= buf@.len(),
        ensures
            v.spec_bytes() == buf@.subrange(off as int, off as int + KVM_CPUID_SIZE),
    {
        let n: usize = buf.len();
        proof {
            assert(off + KVM_CPUID_SIZE <= n);
        }
        let v = kvm_cpuid {
            nent: read_u32_le(buf, off),
            padding: read_u32_le(buf, off + 4),
            entries: __IncompleteArrayField::new(),
        };
        proof {
            lemma_kvm_cpuid_read_at(v, buf@, off as int);
        }
        v
    }

    /// Reads a structure image from the start of `buf`, failing when the
    /// buffer is too short to hold one.
    pub fn from_bytes(buf: &[u8]) -> (r: Result<Self, CodecError>)
        ensures
            buf@.len() < KVM_CPUID_SIZE ==> r == Err::<kvm_cpuid, CodecError>(
                CodecError::IncompleteBuffer,
            ),
            buf@.len() >= KVM_CPUID_SIZE ==> (r matches Ok(v) && v.spec_bytes() == buf@.subrange(
                0,
                KVM_CPUID_SIZE as int,
            )),
    {
        if buf.len() < KVM_CPUID_SIZE {
            Err(CodecError::IncompleteBuffer)
        } else {
            Ok(Self::read_at(buf, 0))
        }
    }
}

impl Default for kvm_cpuid {
    /// Every field zero: the zeroed ioctl argument convention.
    fn default() -> (r: Self)
        ensures
            r.is_zeroed(),
    {
        let r = kvm_cpuid {
            nent: 0,
            padding: 0,
            entries: __IncompleteArrayField::new(),
        };
        r
    }
}

/// The image of a `kvm_cpuid` is exactly 8 bytes.
pub proof fn lemma_kvm_cpuid_bytes_len(x: kvm_cpuid)
    ensures
        x.spec_bytes().len() == KVM_CPUID_SIZE,
{
}

/// A `kvm_cpuid` whose fields were decoded from a buffer has that
/// buffer segment as its image.
#[verifier::rlimit(100)]
#[verifier::spinoff_prover]
proof fn lemma_kvm_cpuid_read_at(v: kvm_cpuid, b: Seq<u8>, off: int)
    requires
        0 <= off,
        off + KVM_CPUID_SIZE <= b.len(),
        v.nent == u32_of_le_bytes(b.subrange(off + 0, off + 4)),
        v.padding == u32_of_le_bytes(b.subrange(off + 4, off + 8)),
    ensures
        v.spec_bytes() == b.subrange(off, off + KVM_CPUID_SIZE),
{
    let s = b.subrange(off, off + KVM_CPUID_SIZE as int);
    lemma_u32_le_bytes_of(b.subrange(off + 0, off + 4));
    lemma_u32_le_bytes_of(b.subrange(off + 4, off + 8));
    lemma_subrange_subrange(b, off, off + KVM_CPUID_SIZE as int, 0, 4);
    lemma_subrange_subrange(b, off, off + KVM_CPUID_SIZE as int, 4, 8);
    lemma_seq_parts(s, 4, 8);
    assert(s.subrange(0, KVM_CPUID_SIZE as int) =~= s);
    assert(v.spec_bytes() == s);
}

/// Field images of a `kvm_cpuid`, covering one run of fields.
#[verifier::rlimit(100)]
#[verifier::spinoff_prover]
proof fn lemma_kvm_cpuid_field_images_seg0(x: kvm_cpuid)
    ensures
        x.spec_bytes().len() == KVM_CPUID_SIZE,
        x.spec_bytes().subrange(4, 8) == u32_le_bytes(x.padding),
        x.spec_bytes().subrange(0, 4) == u32_le_bytes(x.nent),
{
    lemma_kvm_cpuid_bytes_len(x);
    let p0 = u32_le_bytes(x.nent);
    let p1 = u32_le_bytes(x.padding);
    let t1 = p0 + p1;
    assert(x.spec_bytes() == t1);
    lemma_concat_parts(p0, p1);
}

/// Each field's image stands at its kernel offset inside the image of
/// a `kvm_cpuid`.
proof fn lemma_kvm_cpuid_field_images(x: kvm_cpuid)
    ensures
        x.spec_bytes().len() == KVM_CPUID_SIZE,
        x.spec_bytes().subrange(0, 4) == u32_le_bytes(x.nent),
        x.spec_bytes().subrange(4, 8) == u32_le_bytes(x.padding),
{
    lemma_kvm_cpuid_field_images_seg0(x);
}

/// The byte image pins every header field; the tail marker itself
/// holds no state.
pub proof fn lemma_kvm_cpuid_image_determines_header(a: kvm_cpuid, b: kvm_cpuid)
    requires
        a.spec_bytes() == b.spec_bytes(),
    ensures
        a.nent == b.nent,
        a.padding == b.padding,
{
    lemma_kvm_cpuid_field_images(a);
    lemma_kvm_cpuid_field_images(b);
    lemma_u32_le_roundtrip(a.nent);
    lemma_u32_le_roundtrip(b.nent);
    lemma_u32_le_roundtrip(a.padding);
    lemma_u32_le_roundtrip(b.padding);
}

/// A `kvm_cpuid` whose fields are all zero has an all-zero byte image,
/// the image of a zeroed ioctl argument buffer.
pub proof fn lemma_kvm_cpuid_zero_image(x: kvm_cpuid)
    requires
        x.is_zeroed(),
    ensures
        x.spec_bytes() == zero_bytes(KVM_CPUID_SIZE as int),
{
    lemma_le_bytes_zero();
    lemma_zero_bytes_split(4, 8);
    assert(x.spec_bytes() == zero_bytes(KVM_CPUID_SIZE as int));
}

/// Byte size of the `kvm_cpuid2` kernel image.
pub const KVM_CPUID2_SIZE: usize = 8;

/// Header of a CPUID list: the entry count, then `nent` entries of type
/// [`kvm_cpuid_entry2`] contiguous in the caller's allocation.
#[derive(Debug)]
#[verifier::ext_equal]
pub struct kvm_cpuid2 {
    pub nent: u32,
    pub padding: u32,
    pub entries: __IncompleteArrayField<kvm_cpuid_entry2>,
}

impl kvm_cpuid2 {
    /// The 8-byte kernel image of `self`: every field little-endian
    /// at its kernel offset.
    pub open spec fn spec_bytes(self) -> Seq<u8> {
        u32_le_bytes(self.nent) + u32_le_bytes(self.padding)
    }

    /// Every field of `self` holds zero.
    pub open spec fn is_zeroed(self) -> bool {
        self.nent == 0 && self.padding == 0
    }

    /// Appends the image of `self` to `out`.
    pub fn push_image(&self, out: &mut Vec<u8>)
        ensures
            final(out)@ == old(out)@ + self.spec_bytes(),
    {
        let ghost base: Seq<u8> = out@;
        push_u32_le(out, self.nent);
        let ghost mut acc: Seq<u8> = u32_le_bytes(self.nent);
        push_u32_le(out, self.padding);
        proof {
            lemma_concat_assoc(base, acc, u32_le_bytes(self.padding));
            acc = acc + (u32_le_bytes(self.padding));
        }
        proof {
            assert(out@ == base + acc);
            assert(acc == self.spec_bytes());
        }
    }

    /// The image of `self` as a fresh buffer.
    pub fn to_bytes(&self) -> (out: Vec<u8>)
        ensures
            out@ == self.spec_bytes(),
            out@.len() == KVM_CPUID2_SIZE,
    {
        let mut out: Vec<u8> = Vec::new();
        self.push_image(&mut out);
        proof {
            lemma_concat_empty_left(self.spec_bytes());
            lemma_kvm_cpuid2_bytes_len(*self);
        }
        out
    }

    /// Reads the structure whose image starts at offset `off` of `buf`.
    pub fn read_at(buf: &[u8], off: usize) -> (v: Self)
        requires
            off + KVM_CPUID2_SIZE <= buf@.len(),
        ensures
            v.spec_bytes() == buf@.subrange(off as int, off as int + KVM_CPUID2_SIZE),
    {
        let n: usize = buf.len();
        proof {
            assert(off + KVM_CPUID2_SIZE <= n);
        }
        let v = kvm_cpuid2 {
            nent: read_u32_le(buf, off),
            padding: read_u32_le(buf, off + 4),
            entries: __IncompleteArrayField::new(),
        };
        proof {
            lemma_kvm_cpuid2_read_at(v, buf@, off as int);
        }
        v
    }

    /// Reads a structure image from the start of `buf`, failing when the
    /// buffer is too short to hold one.
    pub fn from_bytes(buf: &[u8]) -> (r: Result<Self, CodecError>)
        ensures
            buf@.len() < KVM_CPUID2_SIZE ==> r == Err::<kvm_cpuid2, CodecError>(
                CodecError::IncompleteBuffer,
            ),
            buf@.len() >= KVM_CPUID2_SIZE ==> (r matches Ok(v) && v.spec_bytes() == buf@.subrange(
                0,
                KVM_CPUID2_SIZE as int,
            )),
    {
        if buf.len() < KVM_CPUID2_SIZE {
            Err(CodecError::IncompleteBuffer)
        } else {
            Ok(Self::read_at(buf, 0))
        }
    }
}

impl Default for kvm_cpuid2 {
    /// Every field zero: the zeroed ioctl argument convention.
    fn default() -> (r: Self)
        ensures
            r.is_zeroed(),
    {
        let r = kvm_cpuid2 {
            nent: 0,
            padding: 0,
            entries: __IncompleteArrayField::new(),
        };
        r
    }
}

/// The image of a `kvm_cpuid2` is exactly 8 bytes.
pub proof fn lemma_kvm_cpuid2_bytes_len(x: kvm_cpuid2)
    ensures
        x.spec_bytes().len() == KVM_CPUID2_SIZE,
{
}

/// A `kvm_cpuid2` whose fields were decoded from a buffer has that
/// buffer segment as its image.
#[verifier::rlimit(100)]
#[verifier::spinoff_prover]
proof fn lemma_kvm_cpuid2_read_at(v: kvm_cpuid2, b: Seq<u8>, off: int)
    requires
        0 <= off,
        off + KVM_CPUID2_SIZE <= b.len(),
        v.nent == u32_of_le_bytes(b.subrange(off + 0, off + 4)),
        v.padding == u32_of_le_bytes(b.subrange(off + 4, off + 8)),
    ensures
        v.spec_bytes() == b.subrange(off, off + KVM_CPUID2_SIZE),
{
    let s = b.subrange(off, off + KVM_CPUID2_SIZE as int);
    lemma_u32_le_bytes_of(b.subrange(off + 0, off + 4));
    lemma_u32_le_bytes_of(b.subrange(off + 4, off + 8));
    lemma_subrange_subrange(b, off, off + KVM_CPUID2_SIZE as int, 0, 4);
    lemma_subrange_subrange(b, off, off + KVM_CPUID2_SIZE as int, 4, 8);
    lemma_seq_parts(s, 4, 8);
    assert(s.subrange(0, KVM_CPUID2_SIZE as int) =~= s);
    assert(v.spec_bytes() == s);
}

/// Field images of a `kvm_cpuid2`, covering one run of fields.
#[verifier::rlimit(100)]
#[verifier::spinoff_prover]
proof fn lemma_kvm_cpuid2_field_images_seg0(x: kvm_cpuid2)
    ensures
        x.spec_bytes().len() == KVM_CPUID2_SIZE,
        x.spec_bytes().subrange(4, 8) == u32_le_bytes(x.padding),
        x.spec_bytes().subrange(0, 4) == u32_le_bytes(x.nent),
{
    lemma_kvm_cpuid2_bytes_len(x);
    let p0 = u32_le_bytes(x.nent);
    let p1 = u32_le_bytes(x.padding);
    let t1 = p0 + p1;
    assert(x.spec_bytes() == t1);
    lemma_concat_parts(p0, p1);
}

/// Each field's image stands at its kernel offset inside the image of
/// a `kvm_cpuid2`.
proof fn lemma_kvm_cpuid2_field_images(x: kvm_cpuid2)
    ensures
        x.spec_bytes().len() == KVM_CPUID2_SIZE,
        x.spec_bytes().subrange(0, 4) == u32_le_bytes(x.nent),
        x.spec_bytes().subrange(4, 8) == u32_le_bytes(x.padding),
{
    lemma_kvm_cpuid2_field_images_seg0(x);
}

/// The byte image pins every header field; the tail marker itself
/// holds no state.
pub proof fn lemma_kvm_cpuid2_image_determines_header(a: kvm_cpuid2, b: kvm_cpuid2)
    requires
        a.spec_bytes() == b.spec_bytes(),
    ensures
        a.nent == b.nent,
        a.padding == b.padding,
{
    lemma_kvm_cpuid2_field_images(a);
    lemma_kvm_cpuid2_field_images(b);
    lemma_u32_le_roundtrip(a.nent);
    lemma_u32_le_roundtrip(b.nent);
    lemma_u32_le_roundtrip(a.padding);
    lemma_u32_le_roundtrip(b.padding);
}

/// A `kvm_cpuid2` whose fields are all zero has an all-zero byte image,
/// the image of a zeroed ioctl argument buffer.
pub proof fn lemma_kvm_cpuid2_zero_image(x: kvm_cpuid2)
    requires
        x.is_zeroed(),
    ensures
        x.spec_bytes() == zero_bytes(KVM_CPUID2_SIZE as int),
{
    lemma_le_bytes_zero();
    lemma_zero_bytes_split(4, 8);
    assert(x.spec_bytes() == zero_bytes(KVM_CPUID2_SIZE as int));
}

} // verus!
