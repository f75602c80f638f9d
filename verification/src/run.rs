//! The shared run page: `kvm_run`.
//!
//! `kvm_run` is the structure mapped between VMM and kernel for each vCPU.
//! Its middle is a 256-byte union carrying the payload of the current exit
//! reason; only the payload named by `exit_reason` is valid to read, and
//! no tag beyond that field is stored.  The tail is a 2048-byte region
//! reserved for synchronized registers.

use vstd::prelude::*;

verus! {

broadcast use vstd::array::group_array_axioms;

use crate::codec::CodecError;
use crate::codec::lemma_concat_assoc;
use crate::codec::lemma_concat_empty_left;
use crate::codec::lemma_concat_parts;
use crate::codec::lemma_le_bytes_zero;
use crate::codec::lemma_seq_parts;
use crate::codec::lemma_subrange_subrange;
use crate::codec::lemma_u16_le_bytes_of;
use crate::codec::lemma_u16_le_roundtrip;
use crate::codec::lemma_u32_le_bytes_of;
use crate::codec::lemma_u32_le_roundtrip;
use crate::codec::lemma_u64_le_bytes_of;
use crate::codec::lemma_u64_le_roundtrip;
use crate::codec::lemma_zero_bytes_split;
use crate::codec::push_u16_le;
use crate::codec::push_u32_le;
use crate::codec::push_u64_le;
use crate::codec::push_u8;
use crate::codec::push_u8s;
use crate::codec::read_u16_le;
use crate::codec::read_u32_le;
use crate::codec::read_u64_le;
use crate::codec::read_u8;
use crate::codec::read_u8s;
use crate::codec::u16_le_bytes;
use crate::codec::u16_of_le_bytes;
use crate::codec::u32_le_bytes;
use crate::codec::u32_of_le_bytes;
use crate::codec::u64_le_bytes;
use crate::codec::u64_of_le_bytes;
use crate::codec::zero_bytes;
use crate::regs::kvm_sync_regs;

/// Byte size of the `kvm_debug_exit_arch` kernel image.
pub const KVM_DEBUG_EXIT_ARCH_SIZE: usize = 32;

/// Details of a debug exit: the exception and debug registers.
#[derive(Clone, Copy, Debug, PartialEq)]
#[verifier::ext_equal]
pub struct kvm_debug_exit_arch {
    pub exception: u32,
    pub pad: u32,
    pub pc: u64,
    pub dr6: u64,
    pub dr7: u64,
}

impl kvm_debug_exit_arch {
    /// The 32-byte kernel image of `self`: every field little-endian
    /// at its kernel offset.
    pub open spec fn spec_bytes(self) -> Seq<u8> {
        u32_le_bytes(self.exception) + u32_le_bytes(self.pad) + u64_le_bytes(self.pc) + u64_le_bytes(self.dr6) + u64_le_bytes(self.dr7)
    }

    /// Every field of `self` holds zero.
    pub open spec fn is_zeroed(self) -> bool {
        self.exception == 0 && self.pad == 0 && self.pc == 0 && self.dr6 == 0 && self.dr7 == 0
    }

    /// Appends the image of `self` to `out`.
    pub fn push_image(&self, out: &mut Vec<u8>)
        ensures
            final(out)@ == old(out)@ + self.spec_bytes(),
    {
        let ghost base: Seq<u8> = out@;
        push_u32_le(out, self.exception);
        let ghost mut acc: Seq<u8> = u32_le_bytes(self.exception);
        push_u32_le(out, self.pad);
        proof {
            lemma_concat_assoc(base, acc, u32_le_bytes(self.pad));
            acc = acc + (u32_le_bytes(self.pad));
        }
        push_u64_le(out, self.pc);
        proof {
            lemma_concat_assoc(base, acc, u64_le_bytes(self.pc));
            acc = acc + (u64_le_bytes(self.pc));
        }
        push_u64_le(out, self.dr6);
        proof {
            lemma_concat_assoc(base, acc, u64_le_bytes(self.dr6));
            acc = acc + (u64_le_bytes(self.dr6));
        }
        push_u64_le(out, self.dr7);
        proof {
            lemma_concat_assoc(base, acc, u64_le_bytes(self.dr7));
            acc = acc + (u64_le_bytes(self.dr7));
        }
        proof {
            assert(out@ == base + acc);
            assert(acc == self.spec_bytes());
        }
    }

    /// The image of `self` as a fresh buffer.
    pub fn to_bytes(&self) -> (out: Vec<u8>)
        ensures
            out@ == self.spec_bytes(),
            out@.len() == KVM_DEBUG_EXIT_ARCH_SIZE,
    {
        let mut out: Vec<u8> = Vec::new();
        self.push_image(&mut out);
        proof {
            lemma_concat_empty_left(self.spec_bytes());
            lemma_kvm_debug_exit_arch_bytes_len(*self);
        }
        out
    }

    /// Reads the structure whose image starts at offset `off` of `buf`.
    pub fn read_at(buf: &[u8], off: usize) -> (v: Self)
        requires
            off + KVM_DEBUG_EXIT_ARCH_SIZE <= buf@.len(),
        ensures
            v.spec_bytes() == buf@.subrange(off as int, off as int + KVM_DEBUG_EXIT_ARCH_SIZE),
    {
        let n: usize = buf.len();
        proof {
            assert(off + KVM_DEBUG_EXIT_ARCH_SIZE <= n);
        }
        let v = kvm_debug_exit_arch {
            exception: read_u32_le(buf, off),
            pad: read_u32_le(buf, off + 4),
            pc: read_u64_le(buf, off + 8),
            dr6: read_u64_le(buf, off + 16),
            dr7: read_u64_le(buf, off + 24),
        };
        proof {
            lemma_kvm_debug_exit_arch_read_at(v, buf@, off as int);
        }
        v
    }

    /// Reads a structure image from the start of `buf`, failing when the
    /// buffer is too short to hold one.
    pub fn from_bytes(buf: &[u8]) -> (r: Result<Self, CodecError>)
        ensures
            buf@.len() < KVM_DEBUG_EXIT_ARCH_SIZE ==> r == Err::<kvm_debug_exit_arch, CodecError>(
                CodecError::IncompleteBuffer,
            ),
            buf@.len() >= KVM_DEBUG_EXIT_ARCH_SIZE ==> (r matches Ok(v) && v.spec_bytes() == buf@.subrange(
                0,
                KVM_DEBUG_EXIT_ARCH_SIZE as int,
            )),
    {
        if buf.len() < KVM_DEBUG_EXIT_ARCH_SIZE {
            Err(CodecError::IncompleteBuffer)
        } else {
            Ok(Self::read_at(buf, 0))
        }
    }
}

impl Default for kvm_debug_exit_arch {
    /// Every field zero: the zeroed ioctl argument convention.
    fn default() -> (r: Self)
        ensures
            r.is_zeroed(),
    {
        let r = kvm_debug_exit_arch {
            exception: 0,
            pad: 0,
            pc: 0,
            dr6: 0,
            dr7: 0,
        };
        r
    }
}

/// The image of a `kvm_debug_exit_arch` is exactly 32 bytes.
pub proof fn lemma_kvm_debug_exit_arch_bytes_len(x: kvm_debug_exit_arch)
    ensures
        x.spec_bytes().len() == KVM_DEBUG_EXIT_ARCH_SIZE,
{
}

/// A `kvm_debug_exit_arch` whose fields were decoded from a buffer has that
/// buffer segment as its image.
#[verifier::rlimit(100)]
#[verifier::spinoff_prover]
proof fn lemma_kvm_debug_exit_arch_read_at(v: kvm_debug_exit_arch, b: Seq<u8>, off: int)
    requires
        0 <= off,
        off + KVM_DEBUG_EXIT_ARCH_SIZE <= b.len(),
        v.exception == u32_of_le_bytes(b.subrange(off + 0, off + 4)),
        v.pad == u32_of_le_bytes(b.subrange(off + 4, off + 8)),
        v.pc == u64_of_le_bytes(b.subrange(off + 8, off + 16)),
        v.dr6 == u64_of_le_bytes(b.subrange(off + 16, off + 24)),
        v.dr7 == u64_of_le_bytes(b.subrange(off + 24, off + 32)),
    ensures
        v.spec_bytes() == b.subrange(off, off + KVM_DEBUG_EXIT_ARCH_SIZE),
{
    let s = b.subrange(off, off + KVM_DEBUG_EXIT_ARCH_SIZE as int);
    lemma_u32_le_bytes_of(b.subrange(off + 0, off + 4));
    lemma_u32_le_bytes_of(b.subrange(off + 4, off + 8));
    lemma_u64_le_bytes_of(b.subrange(off + 8, off + 16));
    lemma_u64_le_bytes_of(b.subrange(off + 16, off + 24));
    lemma_u64_le_bytes_of(b.subrange(off + 24, off + 32));
    lemma_subrange_subrange(b, off, off + KVM_DEBUG_EXIT_ARCH_SIZE as int, 0, 4);
    lemma_subrange_subrange(b, off, off + KVM_DEBUG_EXIT_ARCH_SIZE as int, 4, 8);
    lemma_subrange_subrange(b, off, off + KVM_DEBUG_EXIT_ARCH_SIZE as int, 8, 16);
    lemma_subrange_subrange(b, off, off + KVM_DEBUG_EXIT_ARCH_SIZE as int, 16, 24);
    lemma_subrange_subrange(b, off, off + KVM_DEBUG_EXIT_ARCH_SIZE as int, 24, 32);
    lemma_seq_parts(s, 4, 8);
    lemma_seq_parts(s, 8, 16);
    lemma_seq_parts(s, 16, 24);
    lemma_seq_parts(s, 24, 32);
    assert(s.subrange(0, KVM_DEBUG_EXIT_ARCH_SIZE as int) =~= s);
    assert(v.spec_bytes() == s);
}

/// Field images of a `kvm_debug_exit_arch`, covering one run of fields.
#[verifier::rlimit(100)]
#[verifier::spinoff_prover]
proof fn lemma_kvm_debug_exit_arch_field_images_seg0(x: kvm_debug_exit_arch)
    ensures
        x.spec_bytes().len() == KVM_DEBUG_EXIT_ARCH_SIZE,
        x.spec_bytes().subrange(24, 32) == u64_le_bytes(x.dr7),
        x.spec_bytes().subrange(16, 24) == u64_le_bytes(x.dr6),
        x.spec_bytes().subrange(8, 16) == u64_le_bytes(x.pc),
        x.spec_bytes().subrange(4, 8) == u32_le_bytes(x.pad),
        x.spec_bytes().subrange(0, 4) == u32_le_bytes(x.exception),
{
    lemma_kvm_debug_exit_arch_bytes_len(x);
    let p0 = u32_le_bytes(x.exception);
    let p1 = u32_le_bytes(x.pad);
    let p2 = u64_le_bytes(x.pc);
    let p3 = u64_le_bytes(x.dr6);
    let p4 = u64_le_bytes(x.dr7);
    let t1 = p0 + p1;
    let t2 = t1 + p2;
    let t3 = t2 + p3;
    let t4 = t3 + p4;
    assert(x.spec_bytes() == t4);
    lemma_concat_parts(t3, p4);
    lemma_concat_parts(t2, p3);
    lemma_subrange_subrange(x.spec_bytes(), 0, 24, 0, 16);
    lemma_subrange_subrange(x.spec_bytes(), 0, 24, 16, 24);
    lemma_concat_parts(t1, p2);
    lemma_subrange_subrange(x.spec_bytes(), 0, 16, 0, 8);
    lemma_subrange_subrange(x.spec_bytes(), 0, 16, 8, 16);
    lemma_concat_parts(p0, p1);
    lemma_subrange_subrange(x.spec_bytes(), 0, 8, 0, 4);
    lemma_subrange_subrange(x.spec_bytes(), 0, 8, 4, 8);
}

/// Each field's image stands at its kernel offset inside the image of
/// a `kvm_debug_exit_arch`.
proof fn lemma_kvm_debug_exit_arch_field_images(x: kvm_debug_exit_arch)
    ensures
        x.spec_bytes().len() == KVM_DEBUG_EXIT_ARCH_SIZE,
        x.spec_bytes().subrange(0, 4) == u32_le_bytes(x.exception),
        x.spec_bytes().subrange(4, 8) == u32_le_bytes(x.pad),
        x.spec_bytes().subrange(8, 16) == u64_le_bytes(x.pc),
        x.spec_bytes().subrange(16, 24) == u64_le_bytes(x.dr6),
        x.spec_bytes().subrange(24, 32) == u64_le_bytes(x.dr7),
{
    lemma_kvm_debug_exit_arch_field_images_seg0(x);
}

/// The byte image determines the structure: reading an image back
/// always yields the one value that produced it.
#[verifier::rlimit(100)]
#[verifier::spinoff_prover]
pub proof fn lemma_kvm_debug_exit_arch_image_injective(a: kvm_debug_exit_arch, b: kvm_debug_exit_arch)
    requires
        a.spec_bytes() == b.spec_bytes(),
    ensures
        a == b,
{
    lemma_kvm_debug_exit_arch_field_images(a);
    lemma_kvm_debug_exit_arch_field_images(b);
    lemma_u32_le_roundtrip(a.exception);
    lemma_u32_le_roundtrip(b.exception);
    lemma_u32_le_roundtrip(a.pad);
    lemma_u32_le_roundtrip(b.pad);
    lemma_u64_le_roundtrip(a.pc);
    lemma_u64_le_roundtrip(b.pc);
    lemma_u64_le_roundtrip(a.dr6);
    lemma_u64_le_roundtrip(b.dr6);
    lemma_u64_le_roundtrip(a.dr7);
    lemma_u64_le_roundtrip(b.dr7);
    assert(a =~= b);
}

/// A `kvm_debug_exit_arch` whose fields are all zero has an all-zero byte image,
/// the image of a zeroed ioctl argument buffer.
pub proof fn lemma_kvm_debug_exit_arch_zero_image(x: kvm_debug_exit_arch)
    requires
        x.is_zeroed(),
    ensures
        x.spec_bytes() == zero_bytes(KVM_DEBUG_EXIT_ARCH_SIZE as int),
{
    lemma_le_bytes_zero();
    lemma_zero_bytes_split(4, 8);
    lemma_zero_bytes_split(8, 16);
    lemma_zero_bytes_split(16, 24);
    lemma_zero_bytes_split(24, 32);
    assert(x.spec_bytes() == zero_bytes(KVM_DEBUG_EXIT_ARCH_SIZE as int));
}

/// Byte size of the `kvm_run__bindgen_ty_1__bindgen_ty_1` kernel image.
pub const KVM_RUN_HW_SIZE: usize = 8;

/// The `hw` exit payload: an unknown hardware exit reason.
#[derive(Clone, Copy, Debug, PartialEq)]
#[verifier::ext_equal]
pub struct kvm_run__bindgen_ty_1__bindgen_ty_1 {
    pub hardware_exit_reason: u64,
}

impl kvm_run__bindgen_ty_1__bindgen_ty_1 {
    /// The 8-byte kernel image of `self`: every field little-endian
    /// at its kernel offset.
    pub open spec fn spec_bytes(self) -> Seq<u8> {
        u64_le_bytes(self.hardware_exit_reason)
    }

    /// Every field of `self` holds zero.
    pub open spec fn is_zeroed(self) -> bool {
        self.hardware_exit_reason == 0
    }

    /// Appends the image of `self` to `out`.
    pub fn push_image(&self, out: &mut Vec<u8>)
        ensures
            final(out)@ == old(out)@ + self.spec_bytes(),
    {
        let ghost base: Seq<u8> = out@;
        push_u64_le(out, self.hardware_exit_reason);
        let ghost mut acc: Seq<u8> = u64_le_bytes(self.hardware_exit_reason);
        proof {
            assert(out@ == base + acc);
            assert(acc == self.spec_bytes());
        }
    }

    /// The image of `self` as a fresh buffer.
    pub fn to_bytes(&self) -> (out: Vec<u8>)
        ensures
            out@ == self.spec_bytes(),
            out@.len() == KVM_RUN_HW_SIZE,
    {
        let mut out: Vec<u8> = Vec::new();
        self.push_image(&mut out);
        proof {
            lemma_concat_empty_left(self.spec_bytes());
            lemma_kvm_run__bindgen_ty_1__bindgen_ty_1_bytes_len(*self);
        }
        out
    }

    /// Reads the structure whose image starts at offset `off` of `buf`.
    pub fn read_at(buf: &[u8], off: usize) -> (v: Self)
        requires
            off + KVM_RUN_HW_SIZE <= buf@.len(),
        ensures
            v.spec_bytes() == buf@.subrange(off as int, off as int + KVM_RUN_HW_SIZE),
    {
        let n: usize = buf.len();
        proof {
            assert(off + KVM_RUN_HW_SIZE <= n);
        }
        let v = kvm_run__bindgen_ty_1__bindgen_ty_1 {
            hardware_exit_reason: read_u64_le(buf, off),
        };
        proof {
            lemma_kvm_run__bindgen_ty_1__bindgen_ty_1_read_at(v, buf@, off as int);
        }
        v
    }

    /// Reads a structure image from the start of `buf`, failing when the
    /// buffer is too short to hold one.
    pub fn from_bytes(buf: &[u8]) -> (r: Result<Self, CodecError>)
        ensures
            buf@.len() < KVM_RUN_HW_SIZE ==> r == Err::<kvm_run__bindgen_ty_1__bindgen_ty_1, CodecError>(
                CodecError::IncompleteBuffer,
            ),
            buf@.len() >= KVM_RUN_HW_SIZE ==> (r matches Ok(v) && v.spec_bytes() == buf@.subrange(
                0,
                KVM_RUN_HW_SIZE as int,
            )),
    {
        if buf.len() < KVM_RUN_HW_SIZE {
            Err(CodecError::IncompleteBuffer)
        } else {
            Ok(Self::read_at(buf, 0))
        }
    }
}

impl Default for kvm_run__bindgen_ty_1__bindgen_ty_1 {
    /// Every field zero: the zeroed ioctl argument convention.
    fn default() -> (r: Self)
        ensures
            r.is_zeroed(),
    {
        let r = kvm_run__bindgen_ty_1__bindgen_ty_1 {
            hardware_exit_reason: 0,
        };
        r
    }
}

/// The image of a `kvm_run__bindgen_ty_1__bindgen_ty_1` is exactly 8 bytes.
pub proof fn lemma_kvm_run__bindgen_ty_1__bindgen_ty_1_bytes_len(x: kvm_run__bindgen_ty_1__bindgen_ty_1)
    ensures
        x.spec_bytes().len() == KVM_RUN_HW_SIZE,
{
}

/// A `kvm_run__bindgen_ty_1__bindgen_ty_1` whose fields were decoded from a buffer has that
/// buffer segment as its image.
#[verifier::rlimit(100)]
#[verifier::spinoff_prover]
proof fn lemma_kvm_run__bindgen_ty_1__bindgen_ty_1_read_at(v: kvm_run__bindgen_ty_1__bindgen_ty_1, b: Seq<u8>, off: int)
    requires
        0 <= off,
        off + KVM_RUN_HW_SIZE <= b.len(),
        v.hardware_exit_reason == u64_of_le_bytes(b.subrange(off + 0, off + 8)),
    ensures
        v.spec_bytes() == b.subrange(off, off + KVM_RUN_HW_SIZE),
{
    let s = b.subrange(off, off + KVM_RUN_HW_SIZE as int);
    lemma_u64_le_bytes_of(b.subrange(off + 0, off + 8));
    lemma_subrange_subrange(b, off, off + KVM_RUN_HW_SIZE as int, 0, 8);
    assert(s.subrange(0, KVM_RUN_HW_SIZE as int) =~= s);
    assert(v.spec_bytes() == s);
}

/// Each field's image stands at its kernel offset inside the image of
/// a `kvm_run__bindgen_ty_1__bindgen_ty_1`.
proof fn lemma_kvm_run__bindgen_ty_1__bindgen_ty_1_field_images(x: kvm_run__bindgen_ty_1__bindgen_ty_1)
    ensures
        x.spec_bytes().len() == KVM_RUN_HW_SIZE,
        x.spec_bytes().subrange(0, 8) == u64_le_bytes(x.hardware_exit_reason),
{
    lemma_kvm_run__bindgen_ty_1__bindgen_ty_1_bytes_len(x);
    assert(x.spec_bytes().subrange(0, KVM_RUN_HW_SIZE as int) =~= x.spec_bytes());
}

/// The byte image determines the structure: reading an image back
/// always yields the one value that produced it.
#[verifier::rlimit(100)]
#[verifier::spinoff_prover]
pub proof fn lemma_kvm_run__bindgen_ty_1__bindgen_ty_1_image_injective(a: kvm_run__bindgen_ty_1__bindgen_ty_1, b: kvm_run__bindgen_ty_1__bindgen_ty_1)
    requires
        a.spec_bytes() == b.spec_bytes(),
    ensures
        a == b,
{
    lemma_kvm_run__bindgen_ty_1__bindgen_ty_1_field_images(a);
    lemma_kvm_run__bindgen_ty_1__bindgen_ty_1_field_images(b);
    lemma_u64_le_roundtrip(a.hardware_exit_reason);
    lemma_u64_le_roundtrip(b.hardware_exit_reason);
    assert(a =~= b);
}

/// A `kvm_run__bindgen_ty_1__bindgen_ty_1` whose fields are all zero has an all-zero byte image,
/// the image of a zeroed ioctl argument buffer.
pub proof fn lemma_kvm_run__bindgen_ty_1__bindgen_ty_1_zero_image(x: kvm_run__bindgen_ty_1__bindgen_ty_1)
    requires
        x.is_zeroed(),
    ensures
        x.spec_bytes() == zero_bytes(KVM_RUN_HW_SIZE as int),
{
    lemma_le_bytes_zero();
    assert(x.spec_bytes() == zero_bytes(KVM_RUN_HW_SIZE as int));
}

/// Byte size of the `kvm_run__bindgen_ty_1__bindgen_ty_2` kernel image.
pub const KVM_RUN_FAIL_ENTRY_SIZE: usize = 8;

/// The `fail_entry` exit payload: a failed guest entry.
#[derive(Clone, Copy, Debug, PartialEq)]
#[verifier::ext_equal]
pub struct kvm_run__bindgen_ty_1__bindgen_ty_2 {
    pub hardware_entry_failure_reason: u64,
}

impl kvm_run__bindgen_ty_1__bindgen_ty_2 {
    /// The 8-byte kernel image of `self`: every field little-endian
    /// at its kernel offset.
    pub open spec fn spec_bytes(self) -> Seq<u8> {
        u64_le_bytes(self.hardware_entry_failure_reason)
    }

    /// Every field of `self` holds zero.
    pub open spec fn is_zeroed(self) -> bool {
        self.hardware_entry_failure_reason == 0
    }

    /// Appends the image of `self` to `out`.
    pub fn push_image(&self, out: &mut Vec<u8>)
        ensures
            final(out)@ == old(out)@ + self.spec_bytes(),
    {
        let ghost base: Seq<u8> = out@;
        push_u64_le(out, self.hardware_entry_failure_reason);
        let ghost mut acc: Seq<u8> = u64_le_bytes(self.hardware_entry_failure_reason);
        proof {
            assert(out@ == base + acc);
            assert(acc == self.spec_bytes());
        }
    }

    /// The image of `self` as a fresh buffer.
    pub fn to_bytes(&self) -> (out: Vec<u8>)
        ensures
            out@ == self.spec_bytes(),
            out@.len() == KVM_RUN_FAIL_ENTRY_SIZE,
    {
        let mut out: Vec<u8> = Vec::new();
        self.push_image(&mut out);
        proof {
            lemma_concat_empty_left(self.spec_bytes());
            lemma_kvm_run__bindgen_ty_1__bindgen_ty_2_bytes_len(*self);
        }
        out
    }

    /// Reads the structure whose image starts at offset `off` of `buf`.
    pub fn read_at(buf: &[u8], off: usize) -> (v: Self)
        requires
            off + KVM_RUN_FAIL_ENTRY_SIZE <= buf@.len(),
        ensures
            v.spec_bytes() == buf@.subrange(off as int, off as int + KVM_RUN_FAIL_ENTRY_SIZE),
    {
        let n: usize = buf.len();
        proof {
            assert(off + KVM_RUN_FAIL_ENTRY_SIZE <= n);
        }
        let v = kvm_run__bindgen_ty_1__bindgen_ty_2 {
            hardware_entry_failure_reason: read_u64_le(buf, off),
        };
        proof {
            lemma_kvm_run__bindgen_ty_1__bindgen_ty_2_read_at(v, buf@, off as int);
        }
        v
    }

    /// Reads a structure image from the start of `buf`, failing when the
    /// buffer is too short to hold one.
    pub fn from_bytes(buf: &[u8]) -> (r: Result<Self, CodecError>)
        ensures
            buf@.len() < KVM_RUN_FAIL_ENTRY_SIZE ==> r == Err::<kvm_run__bindgen_ty_1__bindgen_ty_2, CodecError>(
                CodecError::IncompleteBuffer,
            ),
            buf@.len() >= KVM_RUN_FAIL_ENTRY_SIZE ==> (r matches Ok(v) && v.spec_bytes() == buf@.subrange(
                0,
                KVM_RUN_FAIL_ENTRY_SIZE as int,
            )),
    {
        if buf.len() < KVM_RUN_FAIL_ENTRY_SIZE {
            Err(CodecError::IncompleteBuffer)
        } else {
            Ok(Self::read_at(buf, 0))
        }
    }
}

impl Default for kvm_run__bindgen_ty_1__bindgen_ty_2 {
    /// Every field zero: the zeroed ioctl argument convention.
    fn default() -> (r: Self)
        ensures
            r.is_zeroed(),
    {
        let r = kvm_run__bindgen_ty_1__bindgen_ty_2 {
            hardware_entry_failure_reason: 0,
        };
        r
    }
}

/// The image of a `kvm_run__bindgen_ty_1__bindgen_ty_2` is exactly 8 bytes.
pub proof fn lemma_kvm_run__bindgen_ty_1__bindgen_ty_2_bytes_len(x: kvm_run__bindgen_ty_1__bindgen_ty_2)
    ensures
        x.spec_bytes().len() == KVM_RUN_FAIL_ENTRY_SIZE,
{
}

/// A `kvm_run__bindgen_ty_1__bindgen_ty_2` whose fields were decoded from a buffer has that
/// buffer segment as its image.
#[verifier::rlimit(100)]
#[verifier::spinoff_prover]
proof fn lemma_kvm_run__bindgen_ty_1__bindgen_ty_2_read_at(v: kvm_run__bindgen_ty_1__bindgen_ty_2, b: Seq<u8>, off: int)
    requires
        0 <= off,
        off + KVM_RUN_FAIL_ENTRY_SIZE <= b.len(),
        v.hardware_entry_failure_reason == u64_of_le_bytes(b.subrange(off + 0, off + 8)),
    ensures
        v.spec_bytes() == b.subrange(off, off + KVM_RUN_FAIL_ENTRY_SIZE),
{
    let s = b.subrange(off, off + KVM_RUN_FAIL_ENTRY_SIZE as int);
    lemma_u64_le_bytes_of(b.subrange(off + 0, off + 8));
    lemma_subrange_subrange(b, off, off + KVM_RUN_FAIL_ENTRY_SIZE as int, 0, 8);
    assert(s.subrange(0, KVM_RUN_FAIL_ENTRY_SIZE as int) =~= s);
    assert(v.spec_bytes() == s);
}

/// Each field's image stands at its kernel offset inside the image of
/// a `kvm_run__bindgen_ty_1__bindgen_ty_2`.
proof fn lemma_kvm_run__bindgen_ty_1__bindgen_ty_2_field_images(x: kvm_run__bindgen_ty_1__bindgen_ty_2)
    ensures
        x.spec_bytes().len() == KVM_RUN_FAIL_ENTRY_SIZE,
        x.spec_bytes().subrange(0, 8) == u64_le_bytes(x.hardware_entry_failure_reason),
{
    lemma_kvm_run__bindgen_ty_1__bindgen_ty_2_bytes_len(x);
    assert(x.spec_bytes().subrange(0, KVM_RUN_FAIL_ENTRY_SIZE as int) =~= x.spec_bytes());
}

/// The byte image determines the structure: reading an image back
/// always yields the one value that produced it.
#[verifier::rlimit(100)]
#[verifier::spinoff_prover]
pub proof fn lemma_kvm_run__bindgen_ty_1__bindgen_ty_2_image_injective(a: kvm_run__bindgen_ty_1__bindgen_ty_2, b: kvm_run__bindgen_ty_1__bindgen_ty_2)
    requires
        a.spec_bytes() == b.spec_bytes(),
    ensures
        a == b,
{
    lemma_kvm_run__bindgen_ty_1__bindgen_ty_2_field_images(a);
    lemma_kvm_run__bindgen_ty_1__bindgen_ty_2_field_images(b);
    lemma_u64_le_roundtrip(a.hardware_entry_failure_reason);
    lemma_u64_le_roundtrip(b.hardware_entry_failure_reason);
    assert(a =~= b);
}

/// A `kvm_run__bindgen_ty_1__bindgen_ty_2` whose fields are all zero has an all-zero byte image,
/// the image of a zeroed ioctl argument buffer.
pub proof fn lemma_kvm_run__bindgen_ty_1__bindgen_ty_2_zero_image(x: kvm_run__bindgen_ty_1__bindgen_ty_2)
    requires
        x.is_zeroed(),
    ensures
        x.spec_bytes() == zero_bytes(KVM_RUN_FAIL_ENTRY_SIZE as int),
{
    lemma_le_bytes_zero();
    assert(x.spec_bytes() == zero_bytes(KVM_RUN_FAIL_ENTRY_SIZE as int));
}

/// Byte size of the `kvm_run__bindgen_ty_1__bindgen_ty_3` kernel image.
pub const KVM_RUN_EX_SIZE: usize = 8;

/// The `ex` exit payload: an exception with its error code.
#[derive(Clone, Copy, Debug, PartialEq)]
#[verifier::ext_equal]
pub struct kvm_run__bindgen_ty_1__bindgen_ty_3 {
    pub exception: u32,
    pub error_code: u32,
}

impl kvm_run__bindgen_ty_1__bindgen_ty_3 {
    /// The 8-byte kernel image of `self`: every field little-endian
    /// at its kernel offset.
    pub open spec fn spec_bytes(self) -> Seq<u8> {
        u32_le_bytes(self.exception) + u32_le_bytes(self.error_code)
    }

    /// Every field of `self` holds zero.
    pub open spec fn is_zeroed(self) -> bool {
        self.exception == 0 && self.error_code == 0
    }

    /// Appends the image of `self` to `out`.
    pub fn push_image(&self, out: &mut Vec<u8>)
        ensures
            final(out)@ == old(out)@ + self.spec_bytes(),
    {
        let ghost base: Seq<u8> = out@;
        push_u32_le(out, self.exception);
        let ghost mut acc: Seq<u8> = u32_le_bytes(self.exception);
        push_u32_le(out, self.error_code);
        proof {
            lemma_concat_assoc(base, acc, u32_le_bytes(self.error_code));
            acc = acc + (u32_le_bytes(self.error_code));
        }
        proof {
            assert(out@ == base + acc);
            assert(acc == self.spec_bytes());
        }
    }

    /// The image of `self` as a fresh buffer.
    pub fn to_bytes(&self) -> (out: Vec<u8>)
        ensures
            out@ == self.spec_bytes(),
            out@.len() == KVM_RUN_EX_SIZE,
    {
        let mut out: Vec<u8> = Vec::new();
        self.push_image(&mut out);
        proof {
            lemma_concat_empty_left(self.spec_bytes());
            lemma_kvm_run__bindgen_ty_1__bindgen_ty_3_bytes_len(*self);
        }
        out
    }

    /// Reads the structure whose image starts at offset `off` of `buf`.
    pub fn read_at(buf: &[u8], off: usize) -> (v: Self)
        requires
            off + KVM_RUN_EX_SIZE <= buf@.len(),
        ensures
            v.spec_bytes() == buf@.subrange(off as int, off as int + KVM_RUN_EX_SIZE),
    {
        let n: usize = buf.len();
        proof {
            assert(off + KVM_RUN_EX_SIZE <= n);
        }
        let v = kvm_run__bindgen_ty_1__bindgen_ty_3 {
            exception: read_u32_le(buf, off),
            error_code: read_u32_le(buf, off + 4),
        };
        proof {
            lemma_kvm_run__bindgen_ty_1__bindgen_ty_3_read_at(v, buf@, off as int);
        }
        v
    }

    /// Reads a structure image from the start of `buf`, failing when the
    /// buffer is too short to hold one.
    pub fn from_bytes(buf: &[u8]) -> (r: Result<Self, CodecError>)
        ensures
            buf@.len() < KVM_RUN_EX_SIZE ==> r == Err::<kvm_run__bindgen_ty_1__bindgen_ty_3, CodecError>(
                CodecError::IncompleteBuffer,
            ),
            buf@.len() >= KVM_RUN_EX_SIZE ==> (r matches Ok(v) && v.spec_bytes() == buf@.subrange(
                0,
                KVM_RUN_EX_SIZE as int,
            )),
    {
        if buf.len() < KVM_RUN_EX_SIZE {
            Err(CodecError::IncompleteBuffer)
        } else {
            Ok(Self::read_at(buf, 0))
        }
    }
}

impl Default for kvm_run__bindgen_ty_1__bindgen_ty_3 {
    /// Every field zero: the zeroed ioctl argument convention.
    fn default() -> (r: Self)
        ensures
            r.is_zeroed(),
    {
        let r = kvm_run__bindgen_ty_1__bindgen_ty_3 {
            exception: 0,
            error_code: 0,
        };
        r
    }
}

/// The image of a `kvm_run__bindgen_ty_1__bindgen_ty_3` is exactly 8 bytes.
pub proof fn lemma_kvm_run__bindgen_ty_1__bindgen_ty_3_bytes_len(x: kvm_run__bindgen_ty_1__bindgen_ty_3)
    ensures
        x.spec_bytes().len() == KVM_RUN_EX_SIZE,
{
}

/// A `kvm_run__bindgen_ty_1__bindgen_ty_3` whose fields were decoded from a buffer has that
/// buffer segment as its image.
#[verifier::rlimit(100)]
#[verifier::spinoff_prover]
proof fn lemma_kvm_run__bindgen_ty_1__bindgen_ty_3_read_at(v: kvm_run__bindgen_ty_1__bindgen_ty_3, b: Seq<u8>, off: int)
    requires
        0 <= off,
        off + KVM_RUN_EX_SIZE <= b.len(),
        v.exception == u32_of_le_bytes(b.subrange(off + 0, off + 4)),
        v.error_code == u32_of_le_bytes(b.subrange(off + 4, off + 8)),
    ensures
        v.spec_bytes() == b.subrange(off, off + KVM_RUN_EX_SIZE),
{
    let s = b.subrange(off, off + KVM_RUN_EX_SIZE as int);
    lemma_u32_le_bytes_of(b.subrange(off + 0, off + 4));
    lemma_u32_le_bytes_of(b.subrange(off + 4, off + 8));
    lemma_subrange_subrange(b, off, off + KVM_RUN_EX_SIZE as int, 0, 4);
    lemma_subrange_subrange(b, off, off + KVM_RUN_EX_SIZE as int, 4, 8);
    lemma_seq_parts(s, 4, 8);
    assert(s.subrange(0, KVM_RUN_EX_SIZE as int) =~= s);
    assert(v.spec_bytes() == s);
}

/// Field images of a `kvm_run__bindgen_ty_1__bindgen_ty_3`, covering one run of fields.
#[verifier::rlimit(100)]
#[verifier::spinoff_prover]
proof fn lemma_kvm_run__bindgen_ty_1__bindgen_ty_3_field_images_seg0(x: kvm_run__bindgen_ty_1__bindgen_ty_3)
    ensures
        x.spec_bytes().len() == KVM_RUN_EX_SIZE,
        x.spec_bytes().subrange(4, 8) == u32_le_bytes(x.error_code),
        x.spec_bytes().subrange(0, 4) == u32_le_bytes(x.exception),
{
    lemma_kvm_run__bindgen_ty_1__bindgen_ty_3_bytes_len(x);
    let p0 = u32_le_bytes(x.exception);
    let p1 = u32_le_bytes(x.error_code);
    let t1 = p0 + p1;
    assert(x.spec_bytes() == t1);
    lemma_concat_parts(p0, p1);
}

/// Each field's image stands at its kernel offset inside the image of
/// a `kvm_run__bindgen_ty_1__bindgen_ty_3`.
proof fn lemma_kvm_run__bindgen_ty_1__bindgen_ty_3_field_images(x: kvm_run__bindgen_ty_1__bindgen_ty_3)
    ensures
        x.spec_bytes().len() == KVM_RUN_EX_SIZE,
        x.spec_bytes().subrange(0, 4) == u32_le_bytes(x.exception),
        x.spec_bytes().subrange(4, 8) == u32_le_bytes(x.error_code),
{
    lemma_kvm_run__bindgen_ty_1__bindgen_ty_3_field_images_seg0(x);
}

/// The byte image determines the structure: reading an image back
/// always yields the one value that produced it.
#[verifier::rlimit(100)]
#[verifier::spinoff_prover]
pub proof fn lemma_kvm_run__bindgen_ty_1__bindgen_ty_3_image_injective(a: kvm_run__bindgen_ty_1__bindgen_ty_3, b: kvm_run__bindgen_ty_1__bindgen_ty_3)
    requires
        a.spec_bytes() == b.spec_bytes(),
    ensures
        a == b,
{
    lemma_kvm_run__bindgen_ty_1__bindgen_ty_3_field_images(a);
    lemma_kvm_run__bindgen_ty_1__bindgen_ty_3_field_images(b);
    lemma_u32_le_roundtrip(a.exception);
    lemma_u32_le_roundtrip(b.exception);
    lemma_u32_le_roundtrip(a.error_code);
    lemma_u32_le_roundtrip(b.error_code);
    assert(a =~= b);
}

/// A `kvm_run__bindgen_ty_1__bindgen_ty_3` whose fields are all zero has an all-zero byte image,
/// the image of a zeroed ioctl argument buffer.
pub proof fn lemma_kvm_run__bindgen_ty_1__bindgen_ty_3_zero_image(x: kvm_run__bindgen_ty_1__bindgen_ty_3)
    requires
        x.is_zeroed(),
    ensures
        x.spec_bytes() == zero_bytes(KVM_RUN_EX_SIZE as int),
{
    lemma_le_bytes_zero();
    lemma_zero_bytes_split(4, 8);
    assert(x.spec_bytes() == zero_bytes(KVM_RUN_EX_SIZE as int));
}

/// Byte size of the `kvm_run__bindgen_ty_1__bindgen_ty_4` kernel image.
pub const KVM_RUN_IO_SIZE: usize = 16;

/// The `io` exit payload: a port access, with the offset inside the run
/// page where the data sits.
#[derive(Clone, Copy, Debug, PartialEq)]
#[verifier::ext_equal]
pub struct kvm_run__bindgen_ty_1__bindgen_ty_4 {
    pub direction: u8,
    pub size: u8,
    pub port: u16,
    pub count: u32,
    pub data_offset: u64,
}

impl kvm_run__bindgen_ty_1__bindgen_ty_4 {
    /// The 16-byte kernel image of `self`: every field little-endian
    /// at its kernel offset.
    pub open spec fn spec_bytes(self) -> Seq<u8> {
        seq![self.direction] + seq![self.size] + u16_le_bytes(self.port) + u32_le_bytes(self.count) + u64_le_bytes(self.data_offset)
    }

    /// Every field of `self` holds zero.
    pub open spec fn is_zeroed(self) -> bool {
        self.direction == 0 && self.size == 0 && self.port == 0 && self.count == 0 && self.data_offset == 0
    }

    /// Appends the image of `self` to `out`.
    pub fn push_image(&self, out: &mut Vec<u8>)
        ensures
            final(out)@ == old(out)@ + self.spec_bytes(),
    {
        let ghost base: Seq<u8> = out@;
        push_u8(out, self.direction);
        let ghost mut acc: Seq<u8> = seq![self.direction];
        push_u8(out, self.size);
        proof {
            lemma_concat_assoc(base, acc, seq![self.size]);
            acc = acc + (seq![self.size]);
        }
        push_u16_le(out, self.port);
        proof {
            lemma_concat_assoc(base, acc, u16_le_bytes(self.port));
            acc = acc + (u16_le_bytes(self.port));
        }
        push_u32_le(out, self.count);
        proof {
            lemma_concat_assoc(base, acc, u32_le_bytes(self.count));
            acc = acc + (u32_le_bytes(self.count));
        }
        push_u64_le(out, self.data_offset);
        proof {
            lemma_concat_assoc(base, acc, u64_le_bytes(self.data_offset));
            acc = acc + (u64_le_bytes(self.data_offset));
        }
        proof {
            assert(out@ == base + acc);
            assert(acc == self.spec_bytes());
        }
    }

    /// The image of `self` as a fresh buffer.
    pub fn to_bytes(&self) -> (out: Vec<u8>)
        ensures
            out@ == self.spec_bytes(),
            out@.len() == KVM_RUN_IO_SIZE,
    {
        let mut out: Vec<u8> = Vec::new();
        self.push_image(&mut out);
        proof {
            lemma_concat_empty_left(self.spec_bytes());
            lemma_kvm_run__bindgen_ty_1__bindgen_ty_4_bytes_len(*self);
        }
        out
    }

    /// Reads the structure whose image starts at offset `off` of `buf`.
    pub fn read_at(buf: &[u8], off: usize) -> (v: Self)
        requires
            off + KVM_RUN_IO_SIZE <= buf@.len(),
        ensures
            v.spec_bytes() == buf@.subrange(off as int, off as int + KVM_RUN_IO_SIZE),
    {
        let n: usize = buf.len();
        proof {
            assert(off + KVM_RUN_IO_SIZE <= n);
        }
        let v = kvm_run__bindgen_ty_1__bindgen_ty_4 {
            direction: read_u8(buf, off),
            size: read_u8(buf, off + 1),
            port: read_u16_le(buf, off + 2),
            count: read_u32_le(buf, off + 4),
            data_offset: read_u64_le(buf, off + 8),
        };
        proof {
            lemma_kvm_run__bindgen_ty_1__bindgen_ty_4_read_at(v, buf@, off as int);
        }
        v
    }

    /// Reads a structure image from the start of `buf`, failing when the
    /// buffer is too short to hold one.
    pub fn from_bytes(buf: &[u8]) -> (r: Result<Self, CodecError>)
        ensures
            buf@.len() < KVM_RUN_IO_SIZE ==> r == Err::<kvm_run__bindgen_ty_1__bindgen_ty_4, CodecError>(
                CodecError::IncompleteBuffer,
            ),
            buf@.len() >= KVM_RUN_IO_SIZE ==> (r matches Ok(v) && v.spec_bytes() == buf@.subrange(
                0,
                KVM_RUN_IO_SIZE as int,
            )),
    {
        if buf.len() < KVM_RUN_IO_SIZE {
            Err(CodecError::IncompleteBuffer)
        } else {
            Ok(Self::read_at(buf, 0))
        }
    }
}

impl Default for kvm_run__bindgen_ty_1__bindgen_ty_4 {
    /// Every field zero: the zeroed ioctl argument convention.
    fn default() -> (r: Self)
        ensures
            r.is_zeroed(),
    {
        let r = kvm_run__bindgen_ty_1__bindgen_ty_4 {
            direction: 0,
            size: 0,
            port: 0,
            count: 0,
            data_offset: 0,
        };
        r
    }
}

/// The image of a `kvm_run__bindgen_ty_1__bindgen_ty_4` is exactly 16 bytes.
pub proof fn lemma_kvm_run__bindgen_ty_1__bindgen_ty_4_bytes_len(x: kvm_run__bindgen_ty_1__bindgen_ty_4)
    ensures
        x.spec_bytes().len() == KVM_RUN_IO_SIZE,
{
}

/// A `kvm_run__bindgen_ty_1__bindgen_ty_4` whose fields were decoded from a buffer has that
/// buffer segment as its image.
#[verifier::rlimit(100)]
#[verifier::spinoff_prover]
proof fn lemma_kvm_run__bindgen_ty_1__bindgen_ty_4_read_at(v: kvm_run__bindgen_ty_1__bindgen_ty_4, b: Seq<u8>, off: int)
    requires
        0 <= off,
        off + KVM_RUN_IO_SIZE <= b.len(),
        v.direction == b[off + 0],
        v.size == b[off + 1],
        v.port == u16_of_le_bytes(b.subrange(off + 2, off + 4)),
        v.count == u32_of_le_bytes(b.subrange(off + 4, off + 8)),
        v.data_offset == u64_of_le_bytes(b.subrange(off + 8, off + 16)),
    ensures
        v.spec_bytes() == b.subrange(off, off + KVM_RUN_IO_SIZE),
{
    let s = b.subrange(off, off + KVM_RUN_IO_SIZE as int);
    assert(seq![v.direction] =~= b.subrange(off + 0, off + 1));
    assert(seq![v.size] =~= b.subrange(off + 1, off + 2));
    lemma_u16_le_bytes_of(b.subrange(off + 2, off + 4));
    lemma_u32_le_bytes_of(b.subrange(off + 4, off + 8));
    lemma_u64_le_bytes_of(b.subrange(off + 8, off + 16));
    lemma_subrange_subrange(b, off, off + KVM_RUN_IO_SIZE as int, 0, 1);
    lemma_subrange_subrange(b, off, off + KVM_RUN_IO_SIZE as int, 1, 2);
    lemma_subrange_subrange(b, off, off + KVM_RUN_IO_SIZE as int, 2, 4);
    lemma_subrange_subrange(b, off, off + KVM_RUN_IO_SIZE as int, 4, 8);
    lemma_subrange_subrange(b, off, off + KVM_RUN_IO_SIZE as int, 8, 16);
    lemma_seq_parts(s, 1, 2);
    lemma_seq_parts(s, 2, 4);
    lemma_seq_parts(s, 4, 8);
    lemma_seq_parts(s, 8, 16);
    assert(s.subrange(0, KVM_RUN_IO_SIZE as int) =~= s);
    assert(v.spec_bytes() == s);
}

/// Field images of a `kvm_run__bindgen_ty_1__bindgen_ty_4`, covering one run of fields.
#[verifier::rlimit(100)]
#[verifier::spinoff_prover]
proof fn lemma_kvm_run__bindgen_ty_1__bindgen_ty_4_field_images_seg0(x: kvm_run__bindgen_ty_1__bindgen_ty_4)
    ensures
        x.spec_bytes().len() == KVM_RUN_IO_SIZE,
        x.spec_bytes().subrange(8, 16) == u64_le_bytes(x.data_offset),
        x.spec_bytes().subrange(4, 8) == u32_le_bytes(x.count),
        x.spec_bytes().subrange(2, 4) == u16_le_bytes(x.port),
        x.spec_bytes().subrange(1, 2) == seq![x.size],
        x.spec_bytes().subrange(0, 1) == seq![x.direction],
{
    lemma_kvm_run__bindgen_ty_1__bindgen_ty_4_bytes_len(x);
    let p0 = seq![x.direction];
    let p1 = seq![x.size];
    let p2 = u16_le_bytes(x.port);
    let p3 = u32_le_bytes(x.count);
    let p4 = u64_le_bytes(x.data_offset);
    let t1 = p0 + p1;
    let t2 = t1 + p2;
    let t3 = t2 + p3;
    let t4 = t3 + p4;
    assert(x.spec_bytes() == t4);
    lemma_concat_parts(t3, p4);
    lemma_concat_parts(t2, p3);
    lemma_subrange_subrange(x.spec_bytes(), 0, 8, 0, 4);
    lemma_subrange_subrange(x.spec_bytes(), 0, 8, 4, 8);
    lemma_concat_parts(t1, p2);
    lemma_subrange_subrange(x.spec_bytes(), 0, 4, 0, 2);
    lemma_subrange_subrange(x.spec_bytes(), 0, 4, 2, 4);
    lemma_concat_parts(p0, p1);
    lemma_subrange_subrange(x.spec_bytes(), 0, 2, 0, 1);
    lemma_subrange_subrange(x.spec_bytes(), 0, 2, 1, 2);
}

/// Each field's image stands at its kernel offset inside the image of
/// a `kvm_run__bindgen_ty_1__bindgen_ty_4`.
proof fn lemma_kvm_run__bindgen_ty_1__bindgen_ty_4_field_images(x: kvm_run__bindgen_ty_1__bindgen_ty_4)
    ensures
        x.spec_bytes().len() == KVM_RUN_IO_SIZE,
        x.spec_bytes().subrange(0, 1) == seq![x.direction],
        x.spec_bytes().subrange(1, 2) == seq![x.size],
        x.spec_bytes().subrange(2, 4) == u16_le_bytes(x.port),
        x.spec_bytes().subrange(4, 8) == u32_le_bytes(x.count),
        x.spec_bytes().subrange(8, 16) == u64_le_bytes(x.data_offset),
{
    lemma_kvm_run__bindgen_ty_1__bindgen_ty_4_field_images_seg0(x);
}

/// The byte image determines the structure: reading an image back
/// always yields the one value that produced it.
#[verifier::rlimit(100)]
#[verifier::spinoff_prover]
pub proof fn lemma_kvm_run__bindgen_ty_1__bindgen_ty_4_image_injective(a: kvm_run__bindgen_ty_1__bindgen_ty_4, b: kvm_run__bindgen_ty_1__bindgen_ty_4)
    requires
        a.spec_bytes() == b.spec_bytes(),
    ensures
        a == b,
{
    lemma_kvm_run__bindgen_ty_1__bindgen_ty_4_field_images(a);
    lemma_kvm_run__bindgen_ty_1__bindgen_ty_4_field_images(b);
    assert(a.direction == seq![a.direction][0] && b.direction == seq![b.direction][0]);
    assert(seq![a.direction][0] == seq![b.direction][0]);
    assert(a.size == seq![a.size][0] && b.size == seq![b.size][0]);
    assert(seq![a.size][0] == seq![b.size][0]);
    lemma_u16_le_roundtrip(a.port);
    lemma_u16_le_roundtrip(b.port);
    lemma_u32_le_roundtrip(a.count);
    lemma_u32_le_roundtrip(b.count);
    lemma_u64_le_roundtrip(a.data_offset);
    lemma_u64_le_roundtrip(b.data_offset);
    assert(a =~= b);
}

/// A `kvm_run__bindgen_ty_1__bindgen_ty_4` whose fields are all zero has an all-zero byte image,
/// the image of a zeroed ioctl argument buffer.
pub proof fn lemma_kvm_run__bindgen_ty_1__bindgen_ty_4_zero_image(x: kvm_run__bindgen_ty_1__bindgen_ty_4)
    requires
        x.is_zeroed(),
    ensures
        x.spec_bytes() == zero_bytes(KVM_RUN_IO_SIZE as int),
{
    lemma_le_bytes_zero();
    assert(seq![x.direction] =~= zero_bytes(1));
    assert(seq![x.size] =~= zero_bytes(1));
    lemma_zero_bytes_split(1, 2);
    lemma_zero_bytes_split(2, 4);
    lemma_zero_bytes_split(4, 8);
    lemma_zero_bytes_split(8, 16);
    assert(x.spec_bytes() == zero_bytes(KVM_RUN_IO_SIZE as int));
}

/// Byte size of the `kvm_run__bindgen_ty_1__bindgen_ty_5` kernel image.
pub const KVM_RUN_DEBUG_SIZE: usize = 32;

/// The `debug` exit payload: the architectural debug exit details.
#[derive(Clone, Copy, Debug, PartialEq)]
#[verifier::ext_equal]
pub struct kvm_run__bindgen_ty_1__bindgen_ty_5 {
    pub arch: kvm_debug_exit_arch,
}

impl kvm_run__bindgen_ty_1__bindgen_ty_5 {
    /// The 32-byte kernel image of `self`: every field little-endian
    /// at its kernel offset.
    pub open spec fn spec_bytes(self) -> Seq<u8> {
        self.arch.spec_bytes()
    }

    /// Every field of `self` holds zero.
    pub open spec fn is_zeroed(self) -> bool {
        self.arch.is_zeroed()
    }

    /// Appends the image of `self` to `out`.
    pub fn push_image(&self, out: &mut Vec<u8>)
        ensures
            final(out)@ == old(out)@ + self.spec_bytes(),
    {
        let ghost base: Seq<u8> = out@;
        self.arch.push_image(out);
        let ghost mut acc: Seq<u8> = self.arch.spec_bytes();
        proof {
            assert(out@ == base + acc);
            assert(acc == self.spec_bytes());
        }
    }

    /// The image of `self` as a fresh buffer.
    pub fn to_bytes(&self) -> (out: Vec<u8>)
        ensures
            out@ == self.spec_bytes(),
            out@.len() == KVM_RUN_DEBUG_SIZE,
    {
        let mut out: Vec<u8> = Vec::new();
        self.push_image(&mut out);
        proof {
            lemma_concat_empty_left(self.spec_bytes());
            lemma_kvm_run__bindgen_ty_1__bindgen_ty_5_bytes_len(*self);
        }
        out
    }

    /// Reads the structure whose image starts at offset `off` of `buf`.
    pub fn read_at(buf: &[u8], off: usize) -> (v: Self)
        requires
            off + KVM_RUN_DEBUG_SIZE <= buf@.len(),
        ensures
            v.spec_bytes() == buf@.subrange(off as int, off as int + KVM_RUN_DEBUG_SIZE),
    {
        let n: usize = buf.len();
        proof {
            assert(off + KVM_RUN_DEBUG_SIZE <= n);
        }
        let v = kvm_run__bindgen_ty_1__bindgen_ty_5 {
            arch: kvm_debug_exit_arch::read_at(buf, off),
        };
        proof {
            lemma_kvm_run__bindgen_ty_1__bindgen_ty_5_read_at(v, buf@, off as int);
        }
        v
    }

    /// Reads a structure image from the start of `buf`, failing when the
    /// buffer is too short to hold one.
    pub fn from_bytes(buf: &[u8]) -> (r: Result<Self, CodecError>)
        ensures
            buf@.len() < KVM_RUN_DEBUG_SIZE ==> r == Err::<kvm_run__bindgen_ty_1__bindgen_ty_5, CodecError>(
                CodecError::IncompleteBuffer,
            ),
            buf@.len() >= KVM_RUN_DEBUG_SIZE ==> (r matches Ok(v) && v.spec_bytes() == buf@.subrange(
                0,
                KVM_RUN_DEBUG_SIZE as int,
            )),
    {
        if buf.len() < KVM_RUN_DEBUG_SIZE {
            Err(CodecError::IncompleteBuffer)
        } else {
            Ok(Self::read_at(buf, 0))
        }
    }
}

impl Default for kvm_run__bindgen_ty_1__bindgen_ty_5 {
    /// Every field zero: the zeroed ioctl argument convention.
    fn default() -> (r: Self)
        ensures
            r.is_zeroed(),
    {
        let r = kvm_run__bindgen_ty_1__bindgen_ty_5 {
            arch: kvm_debug_exit_arch::default(),
        };
        r
    }
}

/// The image of a `kvm_run__bindgen_ty_1__bindgen_ty_5` is exactly 32 bytes.
pub proof fn lemma_kvm_run__bindgen_ty_1__bindgen_ty_5_bytes_len(x: kvm_run__bindgen_ty_1__bindgen_ty_5)
    ensures
        x.spec_bytes().len() == KVM_RUN_DEBUG_SIZE,
{
    lemma_kvm_debug_exit_arch_bytes_len(x.arch);
}

/// A `kvm_run__bindgen_ty_1__bindgen_ty_5` whose fields were decoded from a buffer has that
/// buffer segment as its image.
#[verifier::rlimit(100)]
#[verifier::spinoff_prover]
proof fn lemma_kvm_run__bindgen_ty_1__bindgen_ty_5_read_at(v: kvm_run__bindgen_ty_1__bindgen_ty_5, b: Seq<u8>, off: int)
    requires
        0 <= off,
        off + KVM_RUN_DEBUG_SIZE <= b.len(),
        v.arch.spec_bytes() == b.subrange(off + 0, off + 32),
    ensures
        v.spec_bytes() == b.subrange(off, off + KVM_RUN_DEBUG_SIZE),
{
    let s = b.subrange(off, off + KVM_RUN_DEBUG_SIZE as int);
    lemma_subrange_subrange(b, off, off + KVM_RUN_DEBUG_SIZE as int, 0, 32);
    assert(s.subrange(0, KVM_RUN_DEBUG_SIZE as int) =~= s);
    assert(v.spec_bytes() == s);
}

/// Each field's image stands at its kernel offset inside the image of
/// a `kvm_run__bindgen_ty_1__bindgen_ty_5`.
proof fn lemma_kvm_run__bindgen_ty_1__bindgen_ty_5_field_images(x: kvm_run__bindgen_ty_1__bindgen_ty_5)
    ensures
        x.spec_bytes().len() == KVM_RUN_DEBUG_SIZE,
        x.spec_bytes().subrange(0, 32) == x.arch.spec_bytes(),
{
    lemma_kvm_run__bindgen_ty_1__bindgen_ty_5_bytes_len(x);
    assert(x.spec_bytes().subrange(0, KVM_RUN_DEBUG_SIZE as int) =~= x.spec_bytes());
}

/// The byte image determines the structure: reading an image back
/// always yields the one value that produced it.
#[verifier::rlimit(100)]
#[verifier::spinoff_prover]
pub proof fn lemma_kvm_run__bindgen_ty_1__bindgen_ty_5_image_injective(a: kvm_run__bindgen_ty_1__bindgen_ty_5, b: kvm_run__bindgen_ty_1__bindgen_ty_5)
    requires
        a.spec_bytes() == b.spec_bytes(),
    ensures
        a == b,
{
    lemma_kvm_run__bindgen_ty_1__bindgen_ty_5_field_images(a);
    lemma_kvm_run__bindgen_ty_1__bindgen_ty_5_field_images(b);
    lemma_kvm_debug_exit_arch_image_injective(a.arch, b.arch);
    assert(a =~= b);
}

/// A `kvm_run__bindgen_ty_1__bindgen_ty_5` whose fields are all zero has an all-zero byte image,
/// the image of a zeroed ioctl argument buffer.
pub proof fn lemma_kvm_run__bindgen_ty_1__bindgen_ty_5_zero_image(x: kvm_run__bindgen_ty_1__bindgen_ty_5)
    requires
        x.is_zeroed(),
    ensures
        x.spec_bytes() == zero_bytes(KVM_RUN_DEBUG_SIZE as int),
{
    lemma_le_bytes_zero();
    lemma_kvm_debug_exit_arch_zero_image(x.arch);
    assert(x.spec_bytes() == zero_bytes(KVM_RUN_DEBUG_SIZE as int));
}

/// Byte size of the `kvm_run__bindgen_ty_1__bindgen_ty_6` kernel image.
pub const KVM_RUN_MMIO_SIZE: usize = 21;

/// The `mmio` exit payload: a guest physical access and its data.  The
/// image covers the 21 meaningful bytes; the kernel structure pads to 24.
#[derive(Clone, Copy, Debug, PartialEq)]
#[verifier::ext_equal]
pub struct kvm_run__bindgen_ty_1__bindgen_ty_6 {
    pub phys_addr: u64,
    pub data: [u8; 8],
    pub len: u32,
    pub is_write: u8,
}

impl kvm_run__bindgen_ty_1__bindgen_ty_6 {
    /// The 21-byte kernel image of `self`: every field little-endian
    /// at its kernel offset.
    pub open spec fn spec_bytes(self) -> Seq<u8> {
        u64_le_bytes(self.phys_addr) + self.data@ + u32_le_bytes(self.len) + seq![self.is_write]
    }

    /// Every field of `self` holds zero.
    pub open spec fn is_zeroed(self) -> bool {
        self.phys_addr == 0 && self.data@ == zero_bytes(8) && self.len == 0 && self.is_write == 0
    }

    /// Appends the image of `self` to `out`.
    pub fn push_image(&self, out: &mut Vec<u8>)
        ensures
            final(out)@ == old(out)@ + self.spec_bytes(),
    {
        let ghost base: Seq<u8> = out@;
        push_u64_le(out, self.phys_addr);
        let ghost mut acc: Seq<u8> = u64_le_bytes(self.phys_addr);
        push_u8s(out, &self.data);
        proof {
            lemma_concat_assoc(base, acc, self.data@);
            acc = acc + (self.data@);
        }
        push_u32_le(out, self.len);
        proof {
            lemma_concat_assoc(base, acc, u32_le_bytes(self.len));
            acc = acc + (u32_le_bytes(self.len));
        }
        push_u8(out, self.is_write);
        proof {
            lemma_concat_assoc(base, acc, seq![self.is_write]);
            acc = acc + (seq![self.is_write]);
        }
        proof {
            assert(out@ == base + acc);
            assert(acc == self.spec_bytes());
        }
    }

    /// The image of `self` as a fresh buffer.
    pub fn to_bytes(&self) -> (out: Vec<u8>)
        ensures
            out@ == self.spec_bytes(),
            out@.len() == KVM_RUN_MMIO_SIZE,
    {
        let mut out: Vec<u8> = Vec::new();
        self.push_image(&mut out);
        proof {
            lemma_concat_empty_left(self.spec_bytes());
            lemma_kvm_run__bindgen_ty_1__bindgen_ty_6_bytes_len(*self);
        }
        out
    }

    /// Reads the structure whose image starts at offset `off` of `buf`.
    pub fn read_at(buf: &[u8], off: usize) -> (v: Self)
        requires
            off + KVM_RUN_MMIO_SIZE <= buf@.len(),
        ensures
            v.spec_bytes() == buf@.subrange(off as int, off as int + KVM_RUN_MMIO_SIZE),
    {
        let n: usize = buf.len();
        proof {
            assert(off + KVM_RUN_MMIO_SIZE <= n);
        }
        let v = kvm_run__bindgen_ty_1__bindgen_ty_6 {
            phys_addr: read_u64_le(buf, off),
            data: read_u8s::<8>(buf, off + 8),
            len: read_u32_le(buf, off + 16),
            is_write: read_u8(buf, off + 20),
        };
        proof {
            lemma_kvm_run__bindgen_ty_1__bindgen_ty_6_read_at(v, buf@, off as int);
        }
        v
    }

    /// Reads a structure image from the start of `buf`, failing when the
    /// buffer is too short to hold one.
    pub fn from_bytes(buf: &[u8]) -> (r: Result<Self, CodecError>)
        ensures
            buf@.len() < KVM_RUN_MMIO_SIZE ==> r == Err::<kvm_run__bindgen_ty_1__bindgen_ty_6, CodecError>(
                CodecError::IncompleteBuffer,
            ),
            buf@.len() >= KVM_RUN_MMIO_SIZE ==> (r matches Ok(v) && v.spec_bytes() == buf@.subrange(
                0,
                KVM_RUN_MMIO_SIZE as int,
            )),
    {
        if buf.len() < KVM_RUN_MMIO_SIZE {
            Err(CodecError::IncompleteBuffer)
        } else {
            Ok(Self::read_at(buf, 0))
        }
    }
}

impl Default for kvm_run__bindgen_ty_1__bindgen_ty_6 {
    /// Every field zero: the zeroed ioctl argument convention.
    fn default() -> (r: Self)
        ensures
            r.is_zeroed(),
    {
        let r = kvm_run__bindgen_ty_1__bindgen_ty_6 {
            phys_addr: 0,
            data: vstd::array::array_fill_for_copy_types::<u8, 8>(0u8),
            len: 0,
            is_write: 0,
        };
        proof {
            assert(r.data@ =~= zero_bytes(8));
        }
        r
    }
}

/// The image of a `kvm_run__bindgen_ty_1__bindgen_ty_6` is exactly 21 bytes.
pub proof fn lemma_kvm_run__bindgen_ty_1__bindgen_ty_6_bytes_len(x: kvm_run__bindgen_ty_1__bindgen_ty_6)
    ensures
        x.spec_bytes().len() == KVM_RUN_MMIO_SIZE,
{
}

/// A `kvm_run__bindgen_ty_1__bindgen_ty_6` whose fields were decoded from a buffer has that
/// buffer segment as its image.
#[verifier::rlimit(100)]
#[verifier::spinoff_prover]
proof fn lemma_kvm_run__bindgen_ty_1__bindgen_ty_6_read_at(v: kvm_run__bindgen_ty_1__bindgen_ty_6, b: Seq<u8>, off: int)
    requires
        0 <= off,
        off + KVM_RUN_MMIO_SIZE <= b.len(),
        v.phys_addr == u64_of_le_bytes(b.subrange(off + 0, off + 8)),
        v.data@ == b.subrange(off + 8, off + 16),
        v.len == u32_of_le_bytes(b.subrange(off + 16, off + 20)),
        v.is_write == b[off + 20],
    ensures
        v.spec_bytes() == b.subrange(off, off + KVM_RUN_MMIO_SIZE),
{
    let s = b.subrange(off, off + KVM_RUN_MMIO_SIZE as int);
    lemma_u64_le_bytes_of(b.subrange(off + 0, off + 8));
    lemma_u32_le_bytes_of(b.subrange(off + 16, off + 20));
    assert(seq![v.is_write] =~= b.subrange(off + 20, off + 21));
    lemma_subrange_subrange(b, off, off + KVM_RUN_MMIO_SIZE as int, 0, 8);
    lemma_subrange_subrange(b, off, off + KVM_RUN_MMIO_SIZE as int, 8, 16);
    lemma_subrange_subrange(b, off, off + KVM_RUN_MMIO_SIZE as int, 16, 20);
    lemma_subrange_subrange(b, off, off + KVM_RUN_MMIO_SIZE as int, 20, 21);
    lemma_seq_parts(s, 8, 16);
    lemma_seq_parts(s, 16, 20);
    lemma_seq_parts(s, 20, 21);
    assert(s.subrange(0, KVM_RUN_MMIO_SIZE as int) =~= s);
    assert(v.spec_bytes() == s);
}

/// Field images of a `kvm_run__bindgen_ty_1__bindgen_ty_6`, covering one run of fields.
#[verifier::rlimit(100)]
#[verifier::spinoff_prover]
proof fn lemma_kvm_run__bindgen_ty_1__bindgen_ty_6_field_images_seg0(x: kvm_run__bindgen_ty_1__bindgen_ty_6)
    ensures
        x.spec_bytes().len() == KVM_RUN_MMIO_SIZE,
        x.spec_bytes().subrange(20, 21) == seq![x.is_write],
        x.spec_bytes().subrange(16, 20) == u32_le_bytes(x.len),
        x.spec_bytes().subrange(8, 16) == x.data@,
        x.spec_bytes().subrange(0, 8) == u64_le_bytes(x.phys_addr),
{
    lemma_kvm_run__bindgen_ty_1__bindgen_ty_6_bytes_len(x);
    let p0 = u64_le_bytes(x.phys_addr);
    let p1 = x.data@;
    let p2 = u32_le_bytes(x.len);
    let p3 = seq![x.is_write];
    let t1 = p0 + p1;
    let t2 = t1 + p2;
    let t3 = t2 + p3;
    assert(x.spec_bytes() == t3);
    lemma_concat_parts(t2, p3);
    lemma_concat_parts(t1, p2);
    lemma_subrange_subrange(x.spec_bytes(), 0, 20, 0, 16);
    lemma_subrange_subrange(x.spec_bytes(), 0, 20, 16, 20);
    lemma_concat_parts(p0, p1);
    lemma_subrange_subrange(x.spec_bytes(), 0, 16, 0, 8);
    lemma_subrange_subrange(x.spec_bytes(), 0, 16, 8, 16);
}

/// Each field's image stands at its kernel offset inside the image of
/// a `kvm_run__bindgen_ty_1__bindgen_ty_6`.
proof fn lemma_kvm_run__bindgen_ty_1__bindgen_ty_6_field_images(x: kvm_run__bindgen_ty_1__bindgen_ty_6)
    ensures
        x.spec_bytes().len() == KVM_RUN_MMIO_SIZE,
        x.spec_bytes().subrange(0, 8) == u64_le_bytes(x.phys_addr),
        x.spec_bytes().subrange(8, 16) == x.data@,
        x.spec_bytes().subrange(16, 20) == u32_le_bytes(x.len),
        x.spec_bytes().subrange(20, 21) == seq![x.is_write],
{
    lemma_kvm_run__bindgen_ty_1__bindgen_ty_6_field_images_seg0(x);
}

/// The byte image determines the structure: reading an image back
/// always yields the one value that produced it.
#[verifier::rlimit(100)]
#[verifier::spinoff_prover]
pub proof fn lemma_kvm_run__bindgen_ty_1__bindgen_ty_6_image_injective(a: kvm_run__bindgen_ty_1__bindgen_ty_6, b: kvm_run__bindgen_ty_1__bindgen_ty_6)
    requires
        a.spec_bytes() == b.spec_bytes(),
    ensures
        a == b,
{
    lemma_kvm_run__bindgen_ty_1__bindgen_ty_6_field_images(a);
    lemma_kvm_run__bindgen_ty_1__bindgen_ty_6_field_images(b);
    lemma_u64_le_roundtrip(a.phys_addr);
    lemma_u64_le_roundtrip(b.phys_addr);
    assert(a.data@ =~= b.data@);
    lemma_u32_le_roundtrip(a.len);
    lemma_u32_le_roundtrip(b.len);
    assert(a.is_write == seq![a.is_write][0] && b.is_write == seq![b.is_write][0]);
    assert(seq![a.is_write][0] == seq![b.is_write][0]);
    assert(a =~= b);
}

/// A `kvm_run__bindgen_ty_1__bindgen_ty_6` whose fields are all zero has an all-zero byte image,
/// the image of a zeroed ioctl argument buffer.
pub proof fn lemma_kvm_run__bindgen_ty_1__bindgen_ty_6_zero_image(x: kvm_run__bindgen_ty_1__bindgen_ty_6)
    requires
        x.is_zeroed(),
    ensures
        x.spec_bytes() == zero_bytes(KVM_RUN_MMIO_SIZE as int),
{
    lemma_le_bytes_zero();
    assert(seq![x.is_write] =~= zero_bytes(1));
    lemma_zero_bytes_split(8, 16);
    lemma_zero_bytes_split(16, 20);
    lemma_zero_bytes_split(20, 21);
    assert(x.spec_bytes() == zero_bytes(KVM_RUN_MMIO_SIZE as int));
}

/// Byte size of the `kvm_run__bindgen_ty_1__bindgen_ty_7` kernel image.
pub const KVM_RUN_HYPERCALL_SIZE: usize = 72;

/// The `hypercall` exit payload: the call number and arguments.
#[derive(Clone, Copy, Debug, PartialEq)]
#[verifier::ext_equal]
pub struct kvm_run__bindgen_ty_1__bindgen_ty_7 {
    pub nr: u64,
    pub args: [u64; 6],
    pub ret: u64,
    pub longmode: u32,
    pub pad: u32,
}

impl kvm_run__bindgen_ty_1__bindgen_ty_7 {
    /// The 72-byte kernel image of `self`: every field little-endian
    /// at its kernel offset.
    pub open spec fn spec_bytes(self) -> Seq<u8> {
        u64_le_bytes(self.nr) + u64_le_bytes(self.args@[0]) + u64_le_bytes(self.args@[1]) + u64_le_bytes(self.args@[2]) + u64_le_bytes(self.args@[3]) + u64_le_bytes(self.args@[4]) + u64_le_bytes(self.args@[5]) + u64_le_bytes(self.ret) + u32_le_bytes(self.longmode) + u32_le_bytes(self.pad)
    }

    /// Every field of `self` holds zero.
    pub open spec fn is_zeroed(self) -> bool {
        self.nr == 0 && self.args@ == Seq::new(6, |i: int| 0u64) && self.ret == 0 && self.longmode == 0 && self.pad == 0
    }

    /// Appends the image of `self` to `out`.
    pub fn push_image(&self, out: &mut Vec<u8>)
        ensures
            final(out)@ == old(out)@ + self.spec_bytes(),
    {
        let ghost base: Seq<u8> = out@;
        push_u64_le(out, self.nr);
        let ghost mut acc: Seq<u8> = u64_le_bytes(self.nr);
        push_u64_le(out, self.args[0]);
        proof {
            lemma_concat_assoc(base, acc, u64_le_bytes(self.args@[0]));
            acc = acc + (u64_le_bytes(self.args@[0]));
        }
        push_u64_le(out, self.args[1]);
        proof {
            lemma_concat_assoc(base, acc, u64_le_bytes(self.args@[1]));
            acc = acc + (u64_le_bytes(self.args@[1]));
        }
        push_u64_le(out, self.args[2]);
        proof {
            lemma_concat_assoc(base, acc, u64_le_bytes(self.args@[2]));
            acc = acc + (u64_le_bytes(self.args@[2]));
        }
        push_u64_le(out, self.args[3]);
        proof {
            lemma_concat_assoc(base, acc, u64_le_bytes(self.args@[3]));
            acc = acc + (u64_le_bytes(self.args@[3]));
        }
        push_u64_le(out, self.args[4]);
        proof {
            lemma_concat_assoc(base, acc, u64_le_bytes(self.args@[4]));
            acc = acc + (u64_le_bytes(self.args@[4]));
        }
        push_u64_le(out, self.args[5]);
        proof {
            lemma_concat_assoc(base, acc, u64_le_bytes(self.args@[5]));
            acc = acc + (u64_le_bytes(self.args@[5]));
        }
        push_u64_le(out, self.ret);
        proof {
            lemma_concat_assoc(base, acc, u64_le_bytes(self.ret));
            acc = acc + (u64_le_bytes(self.ret));
        }
        push_u32_le(out, self.longmode);
        proof {
            lemma_concat_assoc(base, acc, u32_le_bytes(self.longmode));
            acc = acc + (u32_le_bytes(self.longmode));
        }
        push_u32_le(out, self.pad);
        proof {
            lemma_concat_assoc(base, acc, u32_le_bytes(self.pad));
            acc = acc + (u32_le_bytes(self.pad));
        }
        proof {
            assert(out@ == base + acc);
            assert(acc == self.spec_bytes());
        }
    }

    /// The image of `self` as a fresh buffer.
    pub fn to_bytes(&self) -> (out: Vec<u8>)
        ensures
            out@ == self.spec_bytes(),
            out@.len() == KVM_RUN_HYPERCALL_SIZE,
    {
        let mut out: Vec<u8> = Vec::new();
        self.push_image(&mut out);
        proof {
            lemma_concat_empty_left(self.spec_bytes());
            lemma_kvm_run__bindgen_ty_1__bindgen_ty_7_bytes_len(*self);
        }
        out
    }

    /// Reads the structure whose image starts at offset `off` of `buf`.
    pub fn read_at(buf: &[u8], off: usize) -> (v: Self)
        requires
            off + KVM_RUN_HYPERCALL_SIZE <= buf@.len(),
        ensures
            v.spec_bytes() == buf@.subrange(off as int, off as int + KVM_RUN_HYPERCALL_SIZE),
    {
        let n: usize = buf.len();
        proof {
            assert(off + KVM_RUN_HYPERCALL_SIZE <= n);
        }
        let v = kvm_run__bindgen_ty_1__bindgen_ty_7 {
            nr: read_u64_le(buf, off),
            args: [read_u64_le(buf, off + 8), read_u64_le(buf, off + 16), read_u64_le(buf, off + 24), read_u64_le(buf, off + 32), read_u64_le(buf, off + 40), read_u64_le(buf, off + 48)],
            ret: read_u64_le(buf, off + 56),
            longmode: read_u32_le(buf, off + 64),
            pad: read_u32_le(buf, off + 68),
        };
        proof {
            lemma_kvm_run__bindgen_ty_1__bindgen_ty_7_read_at(v, buf@, off as int);
        }
        v
    }

    /// Reads a structure image from the start of `buf`, failing when the
    /// buffer is too short to hold one.
    pub fn from_bytes(buf: &[u8]) -> (r: Result<Self, CodecError>)
        ensures
            buf@.len() < KVM_RUN_HYPERCALL_SIZE ==> r == Err::<kvm_run__bindgen_ty_1__bindgen_ty_7, CodecError>(
                CodecError::IncompleteBuffer,
            ),
            buf@.len() >= KVM_RUN_HYPERCALL_SIZE ==> (r matches Ok(v) && v.spec_bytes() == buf@.subrange(
                0,
                KVM_RUN_HYPERCALL_SIZE as int,
            )),
    {
        if buf.len() < KVM_RUN_HYPERCALL_SIZE {
            Err(CodecError::IncompleteBuffer)
        } else {
            Ok(Self::read_at(buf, 0))
        }
    }
}

impl Default for kvm_run__bindgen_ty_1__bindgen_ty_7 {
    /// Every field zero: the zeroed ioctl argument convention.
    fn default() -> (r: Self)
        ensures
            r.is_zeroed(),
    {
        let r = kvm_run__bindgen_ty_1__bindgen_ty_7 {
            nr: 0,
            args: vstd::array::array_fill_for_copy_types::<u64, 6>(0u64),
            ret: 0,
            longmode: 0,
            pad: 0,
        };
        proof {
            assert(r.args@ =~= Seq::new(6, |i: int| 0u64));
        }
        r
    }
}

/// The image of a `kvm_run__bindgen_ty_1__bindgen_ty_7` is exactly 72 bytes.
pub proof fn lemma_kvm_run__bindgen_ty_1__bindgen_ty_7_bytes_len(x: kvm_run__bindgen_ty_1__bindgen_ty_7)
    ensures
        x.spec_bytes().len() == KVM_RUN_HYPERCALL_SIZE,
{
}

/// A `kvm_run__bindgen_ty_1__bindgen_ty_7` whose fields were decoded from a buffer has that
/// buffer segment as its image.
#[verifier::rlimit(100)]
#[verifier::spinoff_prover]
proof fn lemma_kvm_run__bindgen_ty_1__bindgen_ty_7_read_at(v: kvm_run__bindgen_ty_1__bindgen_ty_7, b: Seq<u8>, off: int)
    requires
        0 <= off,
        off + KVM_RUN_HYPERCALL_SIZE <= b.len(),
        v.nr == u64_of_le_bytes(b.subrange(off + 0, off + 8)),
        v.args@[0] == u64_of_le_bytes(b.subrange(off + 8, off + 16)),
        v.args@[1] == u64_of_le_bytes(b.subrange(off + 16, off + 24)),
        v.args@[2] == u64_of_le_bytes(b.subrange(off + 24, off + 32)),
        v.args@[3] == u64_of_le_bytes(b.subrange(off + 32, off + 40)),
        v.args@[4] == u64_of_le_bytes(b.subrange(off + 40, off + 48)),
        v.args@[5] == u64_of_le_bytes(b.subrange(off + 48, off + 56)),
        v.ret == u64_of_le_bytes(b.subrange(off + 56, off + 64)),
        v.longmode == u32_of_le_bytes(b.subrange(off + 64, off + 68)),
        v.pad == u32_of_le_bytes(b.subrange(off + 68, off + 72)),
    ensures
        v.spec_bytes() == b.subrange(off, off + KVM_RUN_HYPERCALL_SIZE),
{
    let s = b.subrange(off, off + KVM_RUN_HYPERCALL_SIZE as int);
    lemma_u64_le_bytes_of(b.subrange(off + 0, off + 8));
    lemma_u64_le_bytes_of(b.subrange(off + 8, off + 16));
    lemma_u64_le_bytes_of(b.subrange(off + 16, off + 24));
    lemma_u64_le_bytes_of(b.subrange(off + 24, off + 32));
    lemma_u64_le_bytes_of(b.subrange(off + 32, off + 40));
    lemma_u64_le_bytes_of(b.subrange(off + 40, off + 48));
    lemma_u64_le_bytes_of(b.subrange(off + 48, off + 56));
    lemma_u64_le_bytes_of(b.subrange(off + 56, off + 64));
    lemma_u32_le_bytes_of(b.subrange(off + 64, off + 68));
    lemma_u32_le_bytes_of(b.subrange(off + 68, off + 72));
    lemma_subrange_subrange(b, off, off + KVM_RUN_HYPERCALL_SIZE as int, 0, 8);
    lemma_subrange_subrange(b, off, off + KVM_RUN_HYPERCALL_SIZE as int, 8, 16);
    lemma_subrange_subrange(b, off, off + KVM_RUN_HYPERCALL_SIZE as int, 16, 24);
    lemma_subrange_subrange(b, off, off + KVM_RUN_HYPERCALL_SIZE as int, 24, 32);
    lemma_subrange_subrange(b, off, off + KVM_RUN_HYPERCALL_SIZE as int, 32, 40);
    lemma_subrange_subrange(b, off, off + KVM_RUN_HYPERCALL_SIZE as int, 40, 48);
    lemma_subrange_subrange(b, off, off + KVM_RUN_HYPERCALL_SIZE as int, 48, 56);
    lemma_subrange_subrange(b, off, off + KVM_RUN_HYPERCALL_SIZE as int, 56, 64);
    lemma_subrange_subrange(b, off, off + KVM_RUN_HYPERCALL_SIZE as int, 64, 68);
    lemma_subrange_subrange(b, off, off + KVM_RUN_HYPERCALL_SIZE as int, 68, 72);
    lemma_seq_parts(s, 8, 16);
    lemma_seq_parts(s, 16, 24);
    lemma_seq_parts(s, 24, 32);
    lemma_seq_parts(s, 32, 40);
    lemma_seq_parts(s, 40, 48);
    lemma_seq_parts(s, 48, 56);
    lemma_seq_parts(s, 56, 64);
    lemma_seq_parts(s, 64, 68);
    lemma_seq_parts(s, 68, 72);
    assert(s.subrange(0, KVM_RUN_HYPERCALL_SIZE as int) =~= s);
    assert(v.spec_bytes() == s);
}

/// Field images of a `kvm_run__bindgen_ty_1__bindgen_ty_7`, covering one run of fields.
#[verifier::rlimit(100)]
#[verifier::spinoff_prover]
proof fn lemma_kvm_run__bindgen_ty_1__bindgen_ty_7_field_images_seg0(x: kvm_run__bindgen_ty_1__bindgen_ty_7)
    ensures
        x.spec_bytes().len() == KVM_RUN_HYPERCALL_SIZE,
        x.spec_bytes().subrange(68, 72) == u32_le_bytes(x.pad),
        x.spec_bytes().subrange(64, 68) == u32_le_bytes(x.longmode),
        x.spec_bytes().subrange(56, 64) == u64_le_bytes(x.ret),
        x.spec_bytes().subrange(48, 56) == u64_le_bytes(x.args@[5]),
        x.spec_bytes().subrange(40, 48) == u64_le_bytes(x.args@[4]),
        x.spec_bytes().subrange(32, 40) == u64_le_bytes(x.args@[3]),
        x.spec_bytes().subrange(24, 32) == u64_le_bytes(x.args@[2]),
        x.spec_bytes().subrange(16, 24) == u64_le_bytes(x.args@[1]),
        x.spec_bytes().subrange(0, 16) == (u64_le_bytes(x.nr) + u64_le_bytes(x.args@[0])),
{
    lemma_kvm_run__bindgen_ty_1__bindgen_ty_7_bytes_len(x);
    let p0 = u64_le_bytes(x.nr);
    let p1 = u64_le_bytes(x.args@[0]);
    let p2 = u64_le_bytes(x.args@[1]);
    let p3 = u64_le_bytes(x.args@[2]);
    let p4 = u64_le_bytes(x.args@[3]);
    let p5 = u64_le_bytes(x.args@[4]);
    let p6 = u64_le_bytes(x.args@[5]);
    let p7 = u64_le_bytes(x.ret);
    let p8 = u32_le_bytes(x.longmode);
    let p9 = u32_le_bytes(x.pad);
    let t1 = p0 + p1;
    let t2 = t1 + p2;
    let t3 = t2 + p3;
    let t4 = t3 + p4;
    let t5 = t4 + p5;
    let t6 = t5 + p6;
    let t7 = t6 + p7;
    let t8 = t7 + p8;
    let t9 = t8 + p9;
    assert(x.spec_bytes() == t9);
    lemma_concat_parts(t8, p9);
    lemma_concat_parts(t7, p8);
    lemma_subrange_subrange(x.spec_bytes(), 0, 68, 0, 64);
    lemma_subrange_subrange(x.spec_bytes(), 0, 68, 64, 68);
    lemma_concat_parts(t6, p7);
    lemma_subrange_subrange(x.spec_bytes(), 0, 64, 0, 56);
    lemma_subrange_subrange(x.spec_bytes(), 0, 64, 56, 64);
    lemma_concat_parts(t5, p6);
    lemma_subrange_subrange(x.spec_bytes(), 0, 56, 0, 48);
    lemma_subrange_subrange(x.spec_bytes(), 0, 56, 48, 56);
    lemma_concat_parts(t4, p5);
    lemma_subrange_subrange(x.spec_bytes(), 0, 48, 0, 40);
    lemma_subrange_subrange(x.spec_bytes(), 0, 48, 40, 48);
    lemma_concat_parts(t3, p4);
    lemma_subrange_subrange(x.spec_bytes(), 0, 40, 0, 32);
    lemma_subrange_subrange(x.spec_bytes(), 0, 40, 32, 40);
    lemma_concat_parts(t2, p3);
    lemma_subrange_subrange(x.spec_bytes(), 0, 32, 0, 24);
    lemma_subrange_subrange(x.spec_bytes(), 0, 32, 24, 32);
    lemma_concat_parts(t1, p2);
    lemma_subrange_subrange(x.spec_bytes(), 0, 24, 0, 16);
    lemma_subrange_subrange(x.spec_bytes(), 0, 24, 16, 24);
}

/// Field images of a `kvm_run__bindgen_ty_1__bindgen_ty_7`, covering one run of fields.
#[verifier::rlimit(100)]
#[verifier::spinoff_prover]
proof fn lemma_kvm_run__bindgen_ty_1__bindgen_ty_7_field_images_seg1(x: kvm_run__bindgen_ty_1__bindgen_ty_7)
    ensures
        x.spec_bytes().len() == KVM_RUN_HYPERCALL_SIZE,
        x.spec_bytes().subrange(8, 16) == u64_le_bytes(x.args@[0]),
        x.spec_bytes().subrange(0, 8) == u64_le_bytes(x.nr),
{
    lemma_kvm_run__bindgen_ty_1__bindgen_ty_7_bytes_len(x);
    let p0 = u64_le_bytes(x.nr);
    let p1 = u64_le_bytes(x.args@[0]);
    let t1 = p0 + p1;
    lemma_kvm_run__bindgen_ty_1__bindgen_ty_7_field_images_seg0(x);
    lemma_concat_parts(p0, p1);
    lemma_subrange_subrange(x.spec_bytes(), 0, 16, 0, 8);
    lemma_subrange_subrange(x.spec_bytes(), 0, 16, 8, 16);
}

/// Each field's image stands at its kernel offset inside the image of
/// a `kvm_run__bindgen_ty_1__bindgen_ty_7`.
proof fn lemma_kvm_run__bindgen_ty_1__bindgen_ty_7_field_images(x: kvm_run__bindgen_ty_1__bindgen_ty_7)
    ensures
        x.spec_bytes().len() == KVM_RUN_HYPERCALL_SIZE,
        x.spec_bytes().subrange(0, 8) == u64_le_bytes(x.nr),
        x.spec_bytes().subrange(8, 16) == u64_le_bytes(x.args@[0]),
        x.spec_bytes().subrange(16, 24) == u64_le_bytes(x.args@[1]),
        x.spec_bytes().subrange(24, 32) == u64_le_bytes(x.args@[2]),
        x.spec_bytes().subrange(32, 40) == u64_le_bytes(x.args@[3]),
        x.spec_bytes().subrange(40, 48) == u64_le_bytes(x.args@[4]),
        x.spec_bytes().subrange(48, 56) == u64_le_bytes(x.args@[5]),
        x.spec_bytes().subrange(56, 64) == u64_le_bytes(x.ret),
        x.spec_bytes().subrange(64, 68) == u32_le_bytes(x.longmode),
        x.spec_bytes().subrange(68, 72) == u32_le_bytes(x.pad),
{
    lemma_kvm_run__bindgen_ty_1__bindgen_ty_7_field_images_seg0(x);
    lemma_kvm_run__bindgen_ty_1__bindgen_ty_7_field_images_seg1(x);
}

/// The byte image determines the structure: reading an image back
/// always yields the one value that produced it.
#[verifier::rlimit(100)]
#[verifier::spinoff_prover]
pub proof fn lemma_kvm_run__bindgen_ty_1__bindgen_ty_7_image_injective(a: kvm_run__bindgen_ty_1__bindgen_ty_7, b: kvm_run__bindgen_ty_1__bindgen_ty_7)
    requires
        a.spec_bytes() == b.spec_bytes(),
    ensures
        a == b,
{
    lemma_kvm_run__bindgen_ty_1__bindgen_ty_7_field_images(a);
    lemma_kvm_run__bindgen_ty_1__bindgen_ty_7_field_images(b);
    lemma_u64_le_roundtrip(a.nr);
    lemma_u64_le_roundtrip(b.nr);
    lemma_u64_le_roundtrip(a.args@[0]);
    lemma_u64_le_roundtrip(b.args@[0]);
    lemma_u64_le_roundtrip(a.args@[1]);
    lemma_u64_le_roundtrip(b.args@[1]);
    lemma_u64_le_roundtrip(a.args@[2]);
    lemma_u64_le_roundtrip(b.args@[2]);
    lemma_u64_le_roundtrip(a.args@[3]);
    lemma_u64_le_roundtrip(b.args@[3]);
    lemma_u64_le_roundtrip(a.args@[4]);
    lemma_u64_le_roundtrip(b.args@[4]);
    lemma_u64_le_roundtrip(a.args@[5]);
    lemma_u64_le_roundtrip(b.args@[5]);
    assert(a.args@ =~= b.args@);
    lemma_u64_le_roundtrip(a.ret);
    lemma_u64_le_roundtrip(b.ret);
    lemma_u32_le_roundtrip(a.longmode);
    lemma_u32_le_roundtrip(b.longmode);
    lemma_u32_le_roundtrip(a.pad);
    lemma_u32_le_roundtrip(b.pad);
    assert(a =~= b);
}

/// A `kvm_run__bindgen_ty_1__bindgen_ty_7` whose fields are all zero has an all-zero byte image,
/// the image of a zeroed ioctl argument buffer.
pub proof fn lemma_kvm_run__bindgen_ty_1__bindgen_ty_7_zero_image(x: kvm_run__bindgen_ty_1__bindgen_ty_7)
    requires
        x.is_zeroed(),
    ensures
        x.spec_bytes() == zero_bytes(KVM_RUN_HYPERCALL_SIZE as int),
{
    lemma_le_bytes_zero();
    lemma_zero_bytes_split(8, 16);
    lemma_zero_bytes_split(16, 24);
    lemma_zero_bytes_split(24, 32);
    lemma_zero_bytes_split(32, 40);
    lemma_zero_bytes_split(40, 48);
    lemma_zero_bytes_split(48, 56);
    lemma_zero_bytes_split(56, 64);
    lemma_zero_bytes_split(64, 68);
    lemma_zero_bytes_split(68, 72);
    assert(x.spec_bytes() == zero_bytes(KVM_RUN_HYPERCALL_SIZE as int));
}

/// Byte size of the `kvm_run__bindgen_ty_1__bindgen_ty_19` kernel image.
pub const KVM_RUN_EOI_SIZE: usize = 1;

/// The `eoi` exit payload: the vector whose end of interrupt fired.
#[derive(Clone, Copy, Debug, PartialEq)]
#[verifier::ext_equal]
pub struct kvm_run__bindgen_ty_1__bindgen_ty_19 {
    pub vector: u8,
}

impl kvm_run__bindgen_ty_1__bindgen_ty_19 {
    /// The 1-byte kernel image of `self`: every field little-endian
    /// at its kernel offset.
    pub open spec fn spec_bytes(self) -> Seq<u8> {
        seq![self.vector]
    }

    /// Every field of `self` holds zero.
    pub open spec fn is_zeroed(self) -> bool {
        self.vector == 0
    }

    /// Appends the image of `self` to `out`.
    pub fn push_image(&self, out: &mut Vec<u8>)
        ensures
            final(out)@ == old(out)@ + self.spec_bytes(),
    {
        let ghost base: Seq<u8> = out@;
        push_u8(out, self.vector);
        let ghost mut acc: Seq<u8> = seq![self.vector];
        proof {
            assert(out@ == base + acc);
            assert(acc == self.spec_bytes());
        }
    }

    /// The image of `self` as a fresh buffer.
    pub fn to_bytes(&self) -> (out: Vec<u8>)
        ensures
            out@ == self.spec_bytes(),
            out@.len() == KVM_RUN_EOI_SIZE,
    {
        let mut out: Vec<u8> = Vec::new();
        self.push_image(&mut out);
        proof {
            lemma_concat_empty_left(self.spec_bytes());
            lemma_kvm_run__bindgen_ty_1__bindgen_ty_19_bytes_len(*self);
        }
        out
    }

    /// Reads the structure whose image starts at offset `off` of `buf`.
    pub fn read_at(buf: &[u8], off: usize) -> (v: Self)
        requires
            off + KVM_RUN_EOI_SIZE <= buf@.len(),
        ensures
            v.spec_bytes() == buf@.subrange(off as int, off as int + KVM_RUN_EOI_SIZE),
    {
        let n: usize = buf.len();
        proof {
            assert(off + KVM_RUN_EOI_SIZE <= n);
        }
        let v = kvm_run__bindgen_ty_1__bindgen_ty_19 {
            vector: read_u8(buf, off),
        };
        proof {
            lemma_kvm_run__bindgen_ty_1__bindgen_ty_19_read_at(v, buf@, off as int);
        }
        v
    }

    /// Reads a structure image from the start of `buf`, failing when the
    /// buffer is too short to hold one.
    pub fn from_bytes(buf: &[u8]) -> (r: Result<Self, CodecError>)
        ensures
            buf@.len() < KVM_RUN_EOI_SIZE ==> r == Err::<kvm_run__bindgen_ty_1__bindgen_ty_19, CodecError>(
                CodecError::IncompleteBuffer,
            ),
            buf@.len() >= KVM_RUN_EOI_SIZE ==> (r matches Ok(v) && v.spec_bytes() == buf@.subrange(
                0,
                KVM_RUN_EOI_SIZE as int,
            )),
    {
        if buf.len() < KVM_RUN_EOI_SIZE {
            Err(CodecError::IncompleteBuffer)
        } else {
            Ok(Self::read_at(buf, 0))
        }
    }
}

impl Default for kvm_run__bindgen_ty_1__bindgen_ty_19 {
    /// Every field zero: the zeroed ioctl argument convention.
    fn default() -> (r: Self)
        ensures
            r.is_zeroed(),
    {
        let r = kvm_run__bindgen_ty_1__bindgen_ty_19 {
            vector: 0,
        };
        r
    }
}

/// The image of a `kvm_run__bindgen_ty_1__bindgen_ty_19` is exactly 1 bytes.
pub proof fn lemma_kvm_run__bindgen_ty_1__bindgen_ty_19_bytes_len(x: kvm_run__bindgen_ty_1__bindgen_ty_19)
    ensures
        x.spec_bytes().len() == KVM_RUN_EOI_SIZE,
{
}

/// A `kvm_run__bindgen_ty_1__bindgen_ty_19` whose fields were decoded from a buffer has that
/// buffer segment as its image.
#[verifier::rlimit(100)]
#[verifier::spinoff_prover]
proof fn lemma_kvm_run__bindgen_ty_1__bindgen_ty_19_read_at(v: kvm_run__bindgen_ty_1__bindgen_ty_19, b: Seq<u8>, off: int)
    requires
        0 <= off,
        off + KVM_RUN_EOI_SIZE <= b.len(),
        v.vector == b[off + 0],
    ensures
        v.spec_bytes() == b.subrange(off, off + KVM_RUN_EOI_SIZE),
{
    let s = b.subrange(off, off + KVM_RUN_EOI_SIZE as int);
    assert(seq![v.vector] =~= b.subrange(off + 0, off + 1));
    lemma_subrange_subrange(b, off, off + KVM_RUN_EOI_SIZE as int, 0, 1);
    assert(s.subrange(0, KVM_RUN_EOI_SIZE as int) =~= s);
    assert(v.spec_bytes() == s);
}

/// Each field's image stands at its kernel offset inside the image of
/// a `kvm_run__bindgen_ty_1__bindgen_ty_19`.
proof fn lemma_kvm_run__bindgen_ty_1__bindgen_ty_19_field_images(x: kvm_run__bindgen_ty_1__bindgen_ty_19)
    ensures
        x.spec_bytes().len() == KVM_RUN_EOI_SIZE,
        x.spec_bytes().subrange(0, 1) == seq![x.vector],
{
    lemma_kvm_run__bindgen_ty_1__bindgen_ty_19_bytes_len(x);
    assert(x.spec_bytes().subrange(0, KVM_RUN_EOI_SIZE as int) =~= x.spec_bytes());
}

/// The byte image determines the structure: reading an image back
/// always yields the one value that produced it.
#[verifier::rlimit(100)]
#[verifier::spinoff_prover]
pub proof fn lemma_kvm_run__bindgen_ty_1__bindgen_ty_19_image_injective(a: kvm_run__bindgen_ty_1__bindgen_ty_19, b: kvm_run__bindgen_ty_1__bindgen_ty_19)
    requires
        a.spec_bytes() == b.spec_bytes(),
    ensures
        a == b,
{
    lemma_kvm_run__bindgen_ty_1__bindgen_ty_19_field_images(a);
    lemma_kvm_run__bindgen_ty_1__bindgen_ty_19_field_images(b);
    assert(a.vector == seq![a.vector][0] && b.vector == seq![b.vector][0]);
    assert(seq![a.vector][0] == seq![b.vector][0]);
    assert(a =~= b);
}

/// A `kvm_run__bindgen_ty_1__bindgen_ty_19` whose fields are all zero has an all-zero byte image,
/// the image of a zeroed ioctl argument buffer.
pub proof fn lemma_kvm_run__bindgen_ty_1__bindgen_ty_19_zero_image(x: kvm_run__bindgen_ty_1__bindgen_ty_19)
    requires
        x.is_zeroed(),
    ensures
        x.spec_bytes() == zero_bytes(KVM_RUN_EOI_SIZE as int),
{
    lemma_le_bytes_zero();
    assert(seq![x.vector] =~= zero_bytes(1));
    assert(x.spec_bytes() == zero_bytes(KVM_RUN_EOI_SIZE as int));
}

/// Byte size of the `kvm_run__bindgen_ty_1__bindgen_ty_8` kernel image.
pub const KVM_RUN_TPR_ACCESS_SIZE: usize = 16;

/// The `tpr_access` exit payload: a task-priority-register access.
#[derive(Clone, Copy, Debug, PartialEq)]
#[verifier::ext_equal]
pub struct kvm_run__bindgen_ty_1__bindgen_ty_8 {
    pub rip: u64,
    pub is_write: u32,
    pub pad: u32,
}

impl kvm_run__bindgen_ty_1__bindgen_ty_8 {
    /// The 16-byte kernel image of `self`: every field little-endian
    /// at its kernel offset.
    pub open spec fn spec_bytes(self) -> Seq<u8> {
        u64_le_bytes(self.rip) + u32_le_bytes(self.is_write) + u32_le_bytes(self.pad)
    }

    /// Every field of `self` holds zero.
    pub open spec fn is_zeroed(self) -> bool {
        self.rip == 0 && self.is_write == 0 && self.pad == 0
    }

    /// Appends the image of `self` to `out`.
    pub fn push_image(&self, out: &mut Vec<u8>)
        ensures
            final(out)@ == old(out)@ + self.spec_bytes(),
    {
        let ghost base: Seq<u8> = out@;
        push_u64_le(out, self.rip);
        let ghost mut acc: Seq<u8> = u64_le_bytes(self.rip);
        push_u32_le(out, self.is_write);
        proof {
            lemma_concat_assoc(base, acc, u32_le_bytes(self.is_write));
            acc = acc + (u32_le_bytes(self.is_write));
        }
        push_u32_le(out, self.pad);
        proof {
            lemma_concat_assoc(base, acc, u32_le_bytes(self.pad));
            acc = acc + (u32_le_bytes(self.pad));
        }
        proof {
            assert(out@ == base + acc);
            assert(acc == self.spec_bytes());
        }
    }

    /// The image of `self` as a fresh buffer.
    pub fn to_bytes(&self) -> (out: Vec<u8>)
        ensures
            out@ == self.spec_bytes(),
            out@.len() == KVM_RUN_TPR_ACCESS_SIZE,
    {
        let mut out: Vec<u8> = Vec::new();
        self.push_image(&mut out);
        proof {
            lemma_concat_empty_left(self.spec_bytes());
            lemma_kvm_run__bindgen_ty_1__bindgen_ty_8_bytes_len(*self);
        }
        out
    }

    /// Reads the structure whose image starts at offset `off` of `buf`.
    pub fn read_at(buf: &[u8], off: usize) -> (v: Self)
        requires
            off + KVM_RUN_TPR_ACCESS_SIZE <= buf@.len(),
        ensures
            v.spec_bytes() == buf@.subrange(off as int, off as int + KVM_RUN_TPR_ACCESS_SIZE),
    {
        let n: usize = buf.len();
        proof {
            assert(off + KVM_RUN_TPR_ACCESS_SIZE <= n);
        }
        let v = kvm_run__bindgen_ty_1__bindgen_ty_8 {
            rip: read_u64_le(buf, off),
            is_write: read_u32_le(buf, off + 8),
            pad: read_u32_le(buf, off + 12),
        };
        proof {
            lemma_kvm_run__bindgen_ty_1__bindgen_ty_8_read_at(v, buf@, off as int);
        }
        v
    }

    /// Reads a structure image from the start of `buf`, failing when the
    /// buffer is too short to hold one.
    pub fn from_bytes(buf: &[u8]) -> (r: Result<Self, CodecError>)
        ensures
            buf@.len() < KVM_RUN_TPR_ACCESS_SIZE ==> r == Err::<kvm_run__bindgen_ty_1__bindgen_ty_8, CodecError>(
                CodecError::IncompleteBuffer,
            ),
            buf@.len() >= KVM_RUN_TPR_ACCESS_SIZE ==> (r matches Ok(v) && v.spec_bytes() == buf@.subrange(
                0,
                KVM_RUN_TPR_ACCESS_SIZE as int,
            )),
    {
        if buf.len() < KVM_RUN_TPR_ACCESS_SIZE {
            Err(CodecError::IncompleteBuffer)
        } else {
            Ok(Self::read_at(buf, 0))
        }
    }
}

impl Default for kvm_run__bindgen_ty_1__bindgen_ty_8 {
    /// Every field zero: the zeroed ioctl argument convention.
    fn default() -> (r: Self)
        ensures
            r.is_zeroed(),
    {
        let r = kvm_run__bindgen_ty_1__bindgen_ty_8 {
            rip: 0,
            is_write: 0,
            pad: 0,
        };
        r
    }
}

/// The image of a `kvm_run__bindgen_ty_1__bindgen_ty_8` is exactly 16 bytes.
pub proof fn lemma_kvm_run__bindgen_ty_1__bindgen_ty_8_bytes_len(x: kvm_run__bindgen_ty_1__bindgen_ty_8)
    ensures
        x.spec_bytes().len() == KVM_RUN_TPR_ACCESS_SIZE,
{
}

/// A `kvm_run__bindgen_ty_1__bindgen_ty_8` whose fields were decoded from a buffer has that
/// buffer segment as its image.
#[verifier::rlimit(100)]
#[verifier::spinoff_prover]
proof fn lemma_kvm_run__bindgen_ty_1__bindgen_ty_8_read_at(v: kvm_run__bindgen_ty_1__bindgen_ty_8, b: Seq<u8>, off: int)
    requires
        0 <= off,
        off + KVM_RUN_TPR_ACCESS_SIZE <= b.len(),
        v.rip == u64_of_le_bytes(b.subrange(off + 0, off + 8)),
        v.is_write == u32_of_le_bytes(b.subrange(off + 8, off + 12)),
        v.pad == u32_of_le_bytes(b.subrange(off + 12, off + 16)),
    ensures
        v.spec_bytes() == b.subrange(off, off + KVM_RUN_TPR_ACCESS_SIZE),
{
    let s = b.subrange(off, off + KVM_RUN_TPR_ACCESS_SIZE as int);
    lemma_u64_le_bytes_of(b.subrange(off + 0, off + 8));
    lemma_u32_le_bytes_of(b.subrange(off + 8, off + 12));
    lemma_u32_le_bytes_of(b.subrange(off + 12, off + 16));
    lemma_subrange_subrange(b, off, off + KVM_RUN_TPR_ACCESS_SIZE as int, 0, 8);
    lemma_subrange_subrange(b, off, off + KVM_RUN_TPR_ACCESS_SIZE as int, 8, 12);
    lemma_subrange_subrange(b, off, off + KVM_RUN_TPR_ACCESS_SIZE as int, 12, 16);
    lemma_seq_parts(s, 8, 12);
    lemma_seq_parts(s, 12, 16);
    assert(s.subrange(0, KVM_RUN_TPR_ACCESS_SIZE as int) =~= s);
    assert(v.spec_bytes() == s);
}

/// Field images of a `kvm_run__bindgen_ty_1__bindgen_ty_8`, covering one run of fields.
#[verifier::rlimit(100)]
#[verifier::spinoff_prover]
proof fn lemma_kvm_run__bindgen_ty_1__bindgen_ty_8_field_images_seg0(x: kvm_run__bindgen_ty_1__bindgen_ty_8)
    ensures
        x.spec_bytes().len() == KVM_RUN_TPR_ACCESS_SIZE,
        x.spec_bytes().subrange(12, 16) == u32_le_bytes(x.pad),
        x.spec_bytes().subrange(8, 12) == u32_le_bytes(x.is_write),
        x.spec_bytes().subrange(0, 8) == u64_le_bytes(x.rip),
{
    lemma_kvm_run__bindgen_ty_1__bindgen_ty_8_bytes_len(x);
    let p0 = u64_le_bytes(x.rip);
    let p1 = u32_le_bytes(x.is_write);
    let p2 = u32_le_bytes(x.pad);
    let t1 = p0 + p1;
    let t2 = t1 + p2;
    assert(x.spec_bytes() == t2);
    lemma_concat_parts(t1, p2);
    lemma_concat_parts(p0, p1);
    lemma_subrange_subrange(x.spec_bytes(), 0, 12, 0, 8);
    lemma_subrange_subrange(x.spec_bytes(), 0, 12, 8, 12);
}

/// Each field's image stands at its kernel offset inside the image of
/// a `kvm_run__bindgen_ty_1__bindgen_ty_8`.
proof fn lemma_kvm_run__bindgen_ty_1__bindgen_ty_8_field_images(x: kvm_run__bindgen_ty_1__bindgen_ty_8)
    ensures
        x.spec_bytes().len() == KVM_RUN_TPR_ACCESS_SIZE,
        x.spec_bytes().subrange(0, 8) == u64_le_bytes(x.rip),
        x.spec_bytes().subrange(8, 12) == u32_le_bytes(x.is_write),
        x.spec_bytes().subrange(12, 16) == u32_le_bytes(x.pad),
{
    lemma_kvm_run__bindgen_ty_1__bindgen_ty_8_field_images_seg0(x);
}

/// The byte image determines the structure: reading an image back
/// always yields the one value that produced it.
#[verifier::rlimit(100)]
#[verifier::spinoff_prover]
pub proof fn lemma_kvm_run__bindgen_ty_1__bindgen_ty_8_image_injective(a: kvm_run__bindgen_ty_1__bindgen_ty_8, b: kvm_run__bindgen_ty_1__bindgen_ty_8)
    requires
        a.spec_bytes() == b.spec_bytes(),
    ensures
        a == b,
{
    lemma_kvm_run__bindgen_ty_1__bindgen_ty_8_field_images(a);
    lemma_kvm_run__bindgen_ty_1__bindgen_ty_8_field_images(b);
    lemma_u64_le_roundtrip(a.rip);
    lemma_u64_le_roundtrip(b.rip);
    lemma_u32_le_roundtrip(a.is_write);
    lemma_u32_le_roundtrip(b.is_write);
    lemma_u32_le_roundtrip(a.pad);
    lemma_u32_le_roundtrip(b.pad);
    assert(a =~= b);
}

/// A `kvm_run__bindgen_ty_1__bindgen_ty_8` whose fields are all zero has an all-zero byte image,
/// the image of a zeroed ioctl argument buffer.
pub proof fn lemma_kvm_run__bindgen_ty_1__bindgen_ty_8_zero_image(x: kvm_run__bindgen_ty_1__bindgen_ty_8)
    requires
        x.is_zeroed(),
    ensures
        x.spec_bytes() == zero_bytes(KVM_RUN_TPR_ACCESS_SIZE as int),
{
    lemma_le_bytes_zero();
    lemma_zero_bytes_split(8, 12);
    lemma_zero_bytes_split(12, 16);
    assert(x.spec_bytes() == zero_bytes(KVM_RUN_TPR_ACCESS_SIZE as int));
}

/// Byte size of the `kvm_run__bindgen_ty_1__bindgen_ty_12` kernel image.
pub const KVM_RUN_INTERNAL_SIZE: usize = 136;

/// The `internal` exit payload: an internal error with its data words.
#[derive(Clone, Copy, Debug, PartialEq)]
#[verifier::ext_equal]
pub struct kvm_run__bindgen_ty_1__bindgen_ty_12 {
    pub suberror: u32,
    pub ndata: u32,
    pub data: [u64; 16],
}

impl kvm_run__bindgen_ty_1__bindgen_ty_12 {
    /// The 136-byte kernel image of `self`: every field little-endian
    /// at its kernel offset.
    pub open spec fn spec_bytes(self) -> Seq<u8> {
        u32_le_bytes(self.suberror) + u32_le_bytes(self.ndata) + u64_le_bytes(self.data@[0]) + u64_le_bytes(self.data@[1]) + u64_le_bytes(self.data@[2]) + u64_le_bytes(self.data@[3]) + u64_le_bytes(self.data@[4]) + u64_le_bytes(self.data@[5]) + u64_le_bytes(self.data@[6]) + u64_le_bytes(self.data@[7]) + u64_le_bytes(self.data@[8]) + u64_le_bytes(self.data@[9]) + u64_le_bytes(self.data@[10]) + u64_le_bytes(self.data@[11]) + u64_le_bytes(self.data@[12]) + u64_le_bytes(self.data@[13]) + u64_le_bytes(self.data@[14]) + u64_le_bytes(self.data@[15])
    }

    /// Every field of `self` holds zero.
    pub open spec fn is_zeroed(self) -> bool {
        self.suberror == 0 && self.ndata == 0 && self.data@ == Seq::new(16, |i: int| 0u64)
    }

    /// Appends the image of `self` to `out`.
    pub fn push_image(&self, out: &mut Vec<u8>)
        ensures
            final(out)@ == old(out)@ + self.spec_bytes(),
    {
        let ghost base: Seq<u8> = out@;
        push_u32_le(out, self.suberror);
        let ghost mut acc: Seq<u8> = u32_le_bytes(self.suberror);
        push_u32_le(out, self.ndata);
        proof {
            lemma_concat_assoc(base, acc, u32_le_bytes(self.ndata));
            acc = acc + (u32_le_bytes(self.ndata));
        }
        push_u64_le(out, self.data[0]);
        proof {
            lemma_concat_assoc(base, acc, u64_le_bytes(self.data@[0]));
            acc = acc + (u64_le_bytes(self.data@[0]));
        }
        push_u64_le(out, self.data[1]);
        proof {
            lemma_concat_assoc(base, acc, u64_le_bytes(self.data@[1]));
            acc = acc + (u64_le_bytes(self.data@[1]));
        }
        push_u64_le(out, self.data[2]);
        proof {
            lemma_concat_assoc(base, acc, u64_le_bytes(self.data@[2]));
            acc = acc + (u64_le_bytes(self.data@[2]));
        }
        push_u64_le(out, self.data[3]);
        proof {
            lemma_concat_assoc(base, acc, u64_le_bytes(self.data@[3]));
            acc = acc + (u64_le_bytes(self.data@[3]));
        }
        push_u64_le(out, self.data[4]);
        proof {
            lemma_concat_assoc(base, acc, u64_le_bytes(self.data@[4]));
            acc = acc + (u64_le_bytes(self.data@[4]));
        }
        push_u64_le(out, self.data[5]);
        proof {
            lemma_concat_assoc(base, acc, u64_le_bytes(self.data@[5]));
            acc = acc + (u64_le_bytes(self.data@[5]));
        }
        push_u64_le(out, self.data[6]);
        proof {
            lemma_concat_assoc(base, acc, u64_le_bytes(self.data@[6]));
            acc = acc + (u64_le_bytes(self.data@[6]));
        }
        push_u64_le(out, self.data[7]);
        proof {
            lemma_concat_assoc(base, acc, u64_le_bytes(self.data@[7]));
            acc = acc + (u64_le_bytes(self.data@[7]));
        }
        push_u64_le(out, self.data[8]);
        proof {
            lemma_concat_assoc(base, acc, u64_le_bytes(self.data@[8]));
            acc = acc + (u64_le_bytes(self.data@[8]));
        }
        push_u64_le(out, self.data[9]);
        proof {
            lemma_concat_assoc(base, acc, u64_le_bytes(self.data@[9]));
            acc = acc + (u64_le_bytes(self.data@[9]));
        }
        push_u64_le(out, self.data[10]);
        proof {
            lemma_concat_assoc(base, acc, u64_le_bytes(self.data@[10]));
            acc = acc + (u64_le_bytes(self.data@[10]));
        }
        push_u64_le(out, self.data[11]);
        proof {
            lemma_concat_assoc(base, acc, u64_le_bytes(self.data@[11]));
            acc = acc + (u64_le_bytes(self.data@[11]));
        }
        push_u64_le(out, self.data[12]);
        proof {
            lemma_concat_assoc(base, acc, u64_le_bytes(self.data@[12]));
            acc = acc + (u64_le_bytes(self.data@[12]));
        }
        push_u64_le(out, self.data[13]);
        proof {
            lemma_concat_assoc(base, acc, u64_le_bytes(self.data@[13]));
            acc = acc + (u64_le_bytes(self.data@[13]));
        }
        push_u64_le(out, self.data[14]);
        proof {
            lemma_concat_assoc(base, acc, u64_le_bytes(self.data@[14]));
            acc = acc + (u64_le_bytes(self.data@[14]));
        }
        push_u64_le(out, self.data[15]);
        proof {
            lemma_concat_assoc(base, acc, u64_le_bytes(self.data@[15]));
            acc = acc + (u64_le_bytes(self.data@[15]));
        }
        proof {
            assert(out@ == base + acc);
            assert(acc == self.spec_bytes());
        }
    }

    /// The image of `self` as a fresh buffer.
    pub fn to_bytes(&self) -> (out: Vec<u8>)
        ensures
            out@ == self.spec_bytes(),
            out@.len() == KVM_RUN_INTERNAL_SIZE,
    {
        let mut out: Vec<u8> = Vec::new();
        self.push_image(&mut out);
        proof {
            lemma_concat_empty_left(self.spec_bytes());
            lemma_kvm_run__bindgen_ty_1__bindgen_ty_12_bytes_len(*self);
        }
        out
    }

    /// Reads the structure whose image starts at offset `off` of `buf`.
    pub fn read_at(buf: &[u8], off: usize) -> (v: Self)
        requires
            off + KVM_RUN_INTERNAL_SIZE <= buf@.len(),
        ensures
            v.spec_bytes() == buf@.subrange(off as int, off as int + KVM_RUN_INTERNAL_SIZE),
    {
        let n: usize = buf.len();
        proof {
            assert(off + KVM_RUN_INTERNAL_SIZE <= n);
        }
        let v = kvm_run__bindgen_ty_1__bindgen_ty_12 {
            suberror: read_u32_le(buf, off),
            ndata: read_u32_le(buf, off + 4),
            data: [read_u64_le(buf, off + 8), read_u64_le(buf, off + 16), read_u64_le(buf, off + 24), read_u64_le(buf, off + 32), read_u64_le(buf, off + 40), read_u64_le(buf, off + 48), read_u64_le(buf, off + 56), read_u64_le(buf, off + 64), read_u64_le(buf, off + 72), read_u64_le(buf, off + 80), read_u64_le(buf, off + 88), read_u64_le(buf, off + 96), read_u64_le(buf, off + 104), read_u64_le(buf, off + 112), read_u64_le(buf, off + 120), read_u64_le(buf, off + 128)],
        };
        proof {
            lemma_kvm_run__bindgen_ty_1__bindgen_ty_12_read_at(v, buf@, off as int);
        }
        v
    }

    /// Reads a structure image from the start of `buf`, failing when the
    /// buffer is too short to hold one.
    pub fn from_bytes(buf: &[u8]) -> (r: Result<Self, CodecError>)
        ensures
            buf@.len() < KVM_RUN_INTERNAL_SIZE ==> r == Err::<kvm_run__bindgen_ty_1__bindgen_ty_12, CodecError>(
                CodecError::IncompleteBuffer,
            ),
            buf@.len() >= KVM_RUN_INTERNAL_SIZE ==> (r matches Ok(v) && v.spec_bytes() == buf@.subrange(
                0,
                KVM_RUN_INTERNAL_SIZE as int,
            )),
    {
        if buf.len() < KVM_RUN_INTERNAL_SIZE {
            Err(CodecError::IncompleteBuffer)
        } else {
            Ok(Self::read_at(buf, 0))
        }
    }
}

impl Default for kvm_run__bindgen_ty_1__bindgen_ty_12 {
    /// Every field zero: the zeroed ioctl argument convention.
    fn default() -> (r: Self)
        ensures
            r.is_zeroed(),
    {
        let r = kvm_run__bindgen_ty_1__bindgen_ty_12 {
            suberror: 0,
            ndata: 0,
            data: vstd::array::array_fill_for_copy_types::<u64, 16>(0u64),
        };
        proof {
            assert(r.data@ =~= Seq::new(16, |i: int| 0u64));
        }
        r
    }
}

/// The image of a `kvm_run__bindgen_ty_1__bindgen_ty_12` is exactly 136 bytes.
pub proof fn lemma_kvm_run__bindgen_ty_1__bindgen_ty_12_bytes_len(x: kvm_run__bindgen_ty_1__bindgen_ty_12)
    ensures
        x.spec_bytes().len() == KVM_RUN_INTERNAL_SIZE,
{
}

/// A `kvm_run__bindgen_ty_1__bindgen_ty_12` whose fields were decoded from a buffer has that
/// buffer segment as its image.
#[verifier::rlimit(100)]
#[verifier::spinoff_prover]
proof fn lemma_kvm_run__bindgen_ty_1__bindgen_ty_12_read_at(v: kvm_run__bindgen_ty_1__bindgen_ty_12, b: Seq<u8>, off: int)
    requires
        0 <= off,
        off + KVM_RUN_INTERNAL_SIZE <= b.len(),
        v.suberror == u32_of_le_bytes(b.subrange(off + 0, off + 4)),
        v.ndata == u32_of_le_bytes(b.subrange(off + 4, off + 8)),
        v.data@[0] == u64_of_le_bytes(b.subrange(off + 8, off + 16)),
        v.data@[1] == u64_of_le_bytes(b.subrange(off + 16, off + 24)),
        v.data@[2] == u64_of_le_bytes(b.subrange(off + 24, off + 32)),
        v.data@[3] == u64_of_le_bytes(b.subrange(off + 32, off + 40)),
        v.data@[4] == u64_of_le_bytes(b.subrange(off + 40, off + 48)),
        v.data@[5] == u64_of_le_bytes(b.subrange(off + 48, off + 56)),
        v.data@[6] == u64_of_le_bytes(b.subrange(off + 56, off + 64)),
        v.data@[7] == u64_of_le_bytes(b.subrange(off + 64, off + 72)),
        v.data@[8] == u64_of_le_bytes(b.subrange(off + 72, off + 80)),
        v.data@[9] == u64_of_le_bytes(b.subrange(off + 80, off + 88)),
        v.data@[10] == u64_of_le_bytes(b.subrange(off + 88, off + 96)),
        v.data@[11] == u64_of_le_bytes(b.subrange(off + 96, off + 104)),
        v.data@[12] == u64_of_le_bytes(b.subrange(off + 104, off + 112)),
        v.data@[13] == u64_of_le_bytes(b.subrange(off + 112, off + 120)),
        v.data@[14] == u64_of_le_bytes(b.subrange(off + 120, off + 128)),
        v.data@[15] == u64_of_le_bytes(b.subrange(off + 128, off + 136)),
    ensures
        v.spec_bytes() == b.subrange(off, off + KVM_RUN_INTERNAL_SIZE),
{
    let s = b.subrange(off, off + KVM_RUN_INTERNAL_SIZE as int);
    lemma_u32_le_bytes_of(b.subrange(off + 0, off + 4));
    lemma_u32_le_bytes_of(b.subrange(off + 4, off + 8));
    lemma_u64_le_bytes_of(b.subrange(off + 8, off + 16));
    lemma_u64_le_bytes_of(b.subrange(off + 16, off + 24));
    lemma_u64_le_bytes_of(b.subrange(off + 24, off + 32));
    lemma_u64_le_bytes_of(b.subrange(off + 32, off + 40));
    lemma_u64_le_bytes_of(b.subrange(off + 40, off + 48));
    lemma_u64_le_bytes_of(b.subrange(off + 48, off + 56));
    lemma_u64_le_bytes_of(b.subrange(off + 56, off + 64));
    lemma_u64_le_bytes_of(b.subrange(off + 64, off + 72));
    lemma_u64_le_bytes_of(b.subrange(off + 72, off + 80));
    lemma_u64_le_bytes_of(b.subrange(off + 80, off + 88));
    lemma_u64_le_bytes_of(b.subrange(off + 88, off + 96));
    lemma_u64_le_bytes_of(b.subrange(off + 96, off + 104));
    lemma_u64_le_bytes_of(b.subrange(off + 104, off + 112));
    lemma_u64_le_bytes_of(b.subrange(off + 112, off + 120));
    lemma_u64_le_bytes_of(b.subrange(off + 120, off + 128));
    lemma_u64_le_bytes_of(b.subrange(off + 128, off + 136));
    lemma_subrange_subrange(b, off, off + KVM_RUN_INTERNAL_SIZE as int, 0, 4);
    lemma_subrange_subrange(b, off, off + KVM_RUN_INTERNAL_SIZE as int, 4, 8);
    lemma_subrange_subrange(b, off, off + KVM_RUN_INTERNAL_SIZE as int, 8, 16);
    lemma_subrange_subrange(b, off, off + KVM_RUN_INTERNAL_SIZE as int, 16, 24);
    lemma_subrange_subrange(b, off, off + KVM_RUN_INTERNAL_SIZE as int, 24, 32);
    lemma_subrange_subrange(b, off, off + KVM_RUN_INTERNAL_SIZE as int, 32, 40);
    lemma_subrange_subrange(b, off, off + KVM_RUN_INTERNAL_SIZE as int, 40, 48);
    lemma_subrange_subrange(b, off, off + KVM_RUN_INTERNAL_SIZE as int, 48, 56);
    lemma_subrange_subrange(b, off, off + KVM_RUN_INTERNAL_SIZE as int, 56, 64);
    lemma_subrange_subrange(b, off, off + KVM_RUN_INTERNAL_SIZE as int, 64, 72);
    lemma_subrange_subrange(b, off, off + KVM_RUN_INTERNAL_SIZE as int, 72, 80);
    lemma_subrange_subrange(b, off, off + KVM_RUN_INTERNAL_SIZE as int, 80, 88);
    lemma_subrange_subrange(b, off, off + KVM_RUN_INTERNAL_SIZE as int, 88, 96);
    lemma_subrange_subrange(b, off, off + KVM_RUN_INTERNAL_SIZE as int, 96, 104);
    lemma_subrange_subrange(b, off, off + KVM_RUN_INTERNAL_SIZE as int, 104, 112);
    lemma_subrange_subrange(b, off, off + KVM_RUN_INTERNAL_SIZE as int, 112, 120);
    lemma_subrange_subrange(b, off, off + KVM_RUN_INTERNAL_SIZE as int, 120, 128);
    lemma_subrange_subrange(b, off, off + KVM_RUN_INTERNAL_SIZE as int, 128, 136);
    lemma_seq_parts(s, 4, 8);
    lemma_seq_parts(s, 8, 16);
    lemma_seq_parts(s, 16, 24);
    lemma_seq_parts(s, 24, 32);
    lemma_seq_parts(s, 32, 40);
    lemma_seq_parts(s, 40, 48);
    lemma_seq_parts(s, 48, 56);
    lemma_seq_parts(s, 56, 64);
    lemma_seq_parts(s, 64, 72);
    lemma_seq_parts(s, 72, 80);
    lemma_seq_parts(s, 80, 88);
    lemma_seq_parts(s, 88, 96);
    lemma_seq_parts(s, 96, 104);
    lemma_seq_parts(s, 104, 112);
    lemma_seq_parts(s, 112, 120);
    lemma_seq_parts(s, 120, 128);
    lemma_seq_parts(s, 128, 136);
    assert(s.subrange(0, KVM_RUN_INTERNAL_SIZE as int) =~= s);
    assert(v.spec_bytes() == s);
}

/// Field images of a `kvm_run__bindgen_ty_1__bindgen_ty_12`, covering one run of fields.
#[verifier::rlimit(100)]
#[verifier::spinoff_prover]
proof fn lemma_kvm_run__bindgen_ty_1__bindgen_ty_12_field_images_seg0(x: kvm_run__bindgen_ty_1__bindgen_ty_12)
    ensures
        x.spec_bytes().len() == KVM_RUN_INTERNAL_SIZE,
        x.spec_bytes().subrange(128, 136) == u64_le_bytes(x.data@[15]),
        x.spec_bytes().subrange(120, 128) == u64_le_bytes(x.data@[14]),
        x.spec_bytes().subrange(112, 120) == u64_le_bytes(x.data@[13]),
        x.spec_bytes().subrange(104, 112) == u64_le_bytes(x.data@[12]),
        x.spec_bytes().subrange(96, 104) == u64_le_bytes(x.data@[11]),
        x.spec_bytes().subrange(88, 96) == u64_le_bytes(x.data@[10]),
        x.spec_bytes().subrange(80, 88) == u64_le_bytes(x.data@[9]),
        x.spec_bytes().subrange(72, 80) == u64_le_bytes(x.data@[8]),
        x.spec_bytes().subrange(0, 72) == (((((((((u32_le_bytes(x.suberror) + u32_le_bytes(x.ndata)) + u64_le_bytes(x.data@[0])) + u64_le_bytes(x.data@[1])) + u64_le_bytes(x.data@[2])) + u64_le_bytes(x.data@[3])) + u64_le_bytes(x.data@[4])) + u64_le_bytes(x.data@[5])) + u64_le_bytes(x.data@[6])) + u64_le_bytes(x.data@[7])),
{
    lemma_kvm_run__bindgen_ty_1__bindgen_ty_12_bytes_len(x);
    let p0 = u32_le_bytes(x.suberror);
    let p1 = u32_le_bytes(x.ndata);
    let p2 = u64_le_bytes(x.data@[0]);
    let p3 = u64_le_bytes(x.data@[1]);
    let p4 = u64_le_bytes(x.data@[2]);
    let p5 = u64_le_bytes(x.data@[3]);
    let p6 = u64_le_bytes(x.data@[4]);
    let p7 = u64_le_bytes(x.data@[5]);
    let p8 = u64_le_bytes(x.data@[6]);
    let p9 = u64_le_bytes(x.data@[7]);
    let p10 = u64_le_bytes(x.data@[8]);
    let p11 = u64_le_bytes(x.data@[9]);
    let p12 = u64_le_bytes(x.data@[10]);
    let p13 = u64_le_bytes(x.data@[11]);
    let p14 = u64_le_bytes(x.data@[12]);
    let p15 = u64_le_bytes(x.data@[13]);
    let p16 = u64_le_bytes(x.data@[14]);
    let p17 = u64_le_bytes(x.data@[15]);
    let t1 = p0 + p1;
    let t2 = t1 + p2;
    let t3 = t2 + p3;
    let t4 = t3 + p4;
    let t5 = t4 + p5;
    let t6 = t5 + p6;
    let t7 = t6 + p7;
    let t8 = t7 + p8;
    let t9 = t8 + p9;
    let t10 = t9 + p10;
    let t11 = t10 + p11;
    let t12 = t11 + p12;
    let t13 = t12 + p13;
    let t14 = t13 + p14;
    let t15 = t14 + p15;
    let t16 = t15 + p16;
    let t17 = t16 + p17;
    assert(x.spec_bytes() == t17);
    lemma_concat_parts(t16, p17);
    lemma_concat_parts(t15, p16);
    lemma_subrange_subrange(x.spec_bytes(), 0, 128, 0, 120);
    lemma_subrange_subrange(x.spec_bytes(), 0, 128, 120, 128);
    lemma_concat_parts(t14, p15);
    lemma_subrange_subrange(x.spec_bytes(), 0, 120, 0, 112);
    lemma_subrange_subrange(x.spec_bytes(), 0, 120, 112, 120);
    lemma_concat_parts(t13, p14);
    lemma_subrange_subrange(x.spec_bytes(), 0, 112, 0, 104);
    lemma_subrange_subrange(x.spec_bytes(), 0, 112, 104, 112);
    lemma_concat_parts(t12, p13);
    lemma_subrange_subrange(x.spec_bytes(), 0, 104, 0, 96);
    lemma_subrange_subrange(x.spec_bytes(), 0, 104, 96, 104);
    lemma_concat_parts(t11, p12);
    lemma_subrange_subrange(x.spec_bytes(), 0, 96, 0, 88);
    lemma_subrange_subrange(x.spec_bytes(), 0, 96, 88, 96);
    lemma_concat_parts(t10, p11);
    lemma_subrange_subrange(x.spec_bytes(), 0, 88, 0, 80);
    lemma_subrange_subrange(x.spec_bytes(), 0, 88, 80, 88);
    lemma_concat_parts(t9, p10);
    lemma_subrange_subrange(x.spec_bytes(), 0, 80, 0, 72);
    lemma_subrange_subrange(x.spec_bytes(), 0, 80, 72, 80);
}

/// Field images of a `kvm_run__bindgen_ty_1__bindgen_ty_12`, covering one run of fields.
#[verifier::rlimit(100)]
#[verifier::spinoff_prover]
proof fn lemma_kvm_run__bindgen_ty_1__bindgen_ty_12_field_images_seg1(x: kvm_run__bindgen_ty_1__bindgen_ty_12)
    ensures
        x.spec_bytes().len() == KVM_RUN_INTERNAL_SIZE,
        x.spec_bytes().subrange(64, 72) == u64_le_bytes(x.data@[7]),
        x.spec_bytes().subrange(56, 64) == u64_le_bytes(x.data@[6]),
        x.spec_bytes().subrange(48, 56) == u64_le_bytes(x.data@[5]),
        x.spec_bytes().subrange(40, 48) == u64_le_bytes(x.data@[4]),
        x.spec_bytes().subrange(32, 40) == u64_le_bytes(x.data@[3]),
        x.spec_bytes().subrange(24, 32) == u64_le_bytes(x.data@[2]),
        x.spec_bytes().subrange(16, 24) == u64_le_bytes(x.data@[1]),
        x.spec_bytes().subrange(8, 16) == u64_le_bytes(x.data@[0]),
        x.spec_bytes().subrange(0, 8) == (u32_le_bytes(x.suberror) + u32_le_bytes(x.ndata)),
{
    lemma_kvm_run__bindgen_ty_1__bindgen_ty_12_bytes_len(x);
    let p0 = u32_le_bytes(x.suberror);
    let p1 = u32_le_bytes(x.ndata);
    let p2 = u64_le_bytes(x.data@[0]);
    let p3 = u64_le_bytes(x.data@[1]);
    let p4 = u64_le_bytes(x.data@[2]);
    let p5 = u64_le_bytes(x.data@[3]);
    let p6 = u64_le_bytes(x.data@[4]);
    let p7 = u64_le_bytes(x.data@[5]);
    let p8 = u64_le_bytes(x.data@[6]);
    let p9 = u64_le_bytes(x.data@[7]);
    let t1 = p0 + p1;
    let t2 = t1 + p2;
    let t3 = t2 + p3;
    let t4 = t3 + p4;
    let t5 = t4 + p5;
    let t6 = t5 + p6;
    let t7 = t6 + p7;
    let t8 = t7 + p8;
    let t9 = t8 + p9;
    lemma_kvm_run__bindgen_ty_1__bindgen_ty_12_field_images_seg0(x);
    lemma_concat_parts(t8, p9);
    lemma_subrange_subrange(x.spec_bytes(), 0, 72, 0, 64);
    lemma_subrange_subrange(x.spec_bytes(), 0, 72, 64, 72);
    lemma_concat_parts(t7, p8);
    lemma_subrange_subrange(x.spec_bytes(), 0, 64, 0, 56);
    lemma_subrange_subrange(x.spec_bytes(), 0, 64, 56, 64);
    lemma_concat_parts(t6, p7);
    lemma_subrange_subrange(x.spec_bytes(), 0, 56, 0, 48);
    lemma_subrange_subrange(x.spec_bytes(), 0, 56, 48, 56);
    lemma_concat_parts(t5, p6);
    lemma_subrange_subrange(x.spec_bytes(), 0, 48, 0, 40);
    lemma_subrange_subrange(x.spec_bytes(), 0, 48, 40, 48);
    lemma_concat_parts(t4, p5);
    lemma_subrange_subrange(x.spec_bytes(), 0, 40, 0, 32);
    lemma_subrange_subrange(x.spec_bytes(), 0, 40, 32, 40);
    lemma_concat_parts(t3, p4);
    lemma_subrange_subrange(x.spec_bytes(), 0, 32, 0, 24);
    lemma_subrange_subrange(x.spec_bytes(), 0, 32, 24, 32);
    lemma_concat_parts(t2, p3);
    lemma_subrange_subrange(x.spec_bytes(), 0, 24, 0, 16);
    lemma_subrange_subrange(x.spec_bytes(), 0, 24, 16, 24);
    lemma_concat_parts(t1, p2);
    lemma_subrange_subrange(x.spec_bytes(), 0, 16, 0, 8);
    lemma_subrange_subrange(x.spec_bytes(), 0, 16, 8, 16);
}

/// Field images of a `kvm_run__bindgen_ty_1__bindgen_ty_12`, covering one run of fields.
#[verifier::rlimit(100)]
#[verifier::spinoff_prover]
proof fn lemma_kvm_run__bindgen_ty_1__bindgen_ty_12_field_images_seg2(x: kvm_run__bindgen_ty_1__bindgen_ty_12)
    ensures
        x.spec_bytes().len() == KVM_RUN_INTERNAL_SIZE,
        x.spec_bytes().subrange(4, 8) == u32_le_bytes(x.ndata),
        x.spec_bytes().subrange(0, 4) == u32_le_bytes(x.suberror),
{
    lemma_kvm_run__bindgen_ty_1__bindgen_ty_12_bytes_len(x);
    let p0 = u32_le_bytes(x.suberror);
    let p1 = u32_le_bytes(x.ndata);
    let t1 = p0 + p1;
    lemma_kvm_run__bindgen_ty_1__bindgen_ty_12_field_images_seg1(x);
    lemma_concat_parts(p0, p1);
    lemma_subrange_subrange(x.spec_bytes(), 0, 8, 0, 4);
    lemma_subrange_subrange(x.spec_bytes(), 0, 8, 4, 8);
}

/// Each field's image stands at its kernel offset inside the image of
/// a `kvm_run__bindgen_ty_1__bindgen_ty_12`.
proof fn lemma_kvm_run__bindgen_ty_1__bindgen_ty_12_field_images(x: kvm_run__bindgen_ty_1__bindgen_ty_12)
    ensures
        x.spec_bytes().len() == KVM_RUN_INTERNAL_SIZE,
        x.spec_bytes().subrange(0, 4) == u32_le_bytes(x.suberror),
        x.spec_bytes().subrange(4, 8) == u32_le_bytes(x.ndata),
        x.spec_bytes().subrange(8, 16) == u64_le_bytes(x.data@[0]),
        x.spec_bytes().subrange(16, 24) == u64_le_bytes(x.data@[1]),
        x.spec_bytes().subrange(24, 32) == u64_le_bytes(x.data@[2]),
        x.spec_bytes().subrange(32, 40) == u64_le_bytes(x.data@[3]),
        x.spec_bytes().subrange(40, 48) == u64_le_bytes(x.data@[4]),
        x.spec_bytes().subrange(48, 56) == u64_le_bytes(x.data@[5]),
        x.spec_bytes().subrange(56, 64) == u64_le_bytes(x.data@[6]),
        x.spec_bytes().subrange(64, 72) == u64_le_bytes(x.data@[7]),
        x.spec_bytes().subrange(72, 80) == u64_le_bytes(x.data@[8]),
        x.spec_bytes().subrange(80, 88) == u64_le_bytes(x.data@[9]),
        x.spec_bytes().subrange(88, 96) == u64_le_bytes(x.data@[10]),
        x.spec_bytes().subrange(96, 104) == u64_le_bytes(x.data@[11]),
        x.spec_bytes().subrange(104, 112) == u64_le_bytes(x.data@[12]),
        x.spec_bytes().subrange(112, 120) == u64_le_bytes(x.data@[13]),
        x.spec_bytes().subrange(120, 128) == u64_le_bytes(x.data@[14]),
        x.spec_bytes().subrange(128, 136) == u64_le_bytes(x.data@[15]),
{
    lemma_kvm_run__bindgen_ty_1__bindgen_ty_12_field_images_seg0(x);
    lemma_kvm_run__bindgen_ty_1__bindgen_ty_12_field_images_seg1(x);
    lemma_kvm_run__bindgen_ty_1__bindgen_ty_12_field_images_seg2(x);
}

/// The byte image determines the structure: reading an image back
/// always yields the one value that produced it.
#[verifier::rlimit(100)]
#[verifier::spinoff_prover]
pub proof fn lemma_kvm_run__bindgen_ty_1__bindgen_ty_12_image_injective(a: kvm_run__bindgen_ty_1__bindgen_ty_12, b: kvm_run__bindgen_ty_1__bindgen_ty_12)
    requires
        a.spec_bytes() == b.spec_bytes(),
    ensures
        a == b,
{
    lemma_kvm_run__bindgen_ty_1__bindgen_ty_12_field_images(a);
    lemma_kvm_run__bindgen_ty_1__bindgen_ty_12_field_images(b);
    lemma_u32_le_roundtrip(a.suberror);
    lemma_u32_le_roundtrip(b.suberror);
    lemma_u32_le_roundtrip(a.ndata);
    lemma_u32_le_roundtrip(b.ndata);
    lemma_u64_le_roundtrip(a.data@[0]);
    lemma_u64_le_roundtrip(b.data@[0]);
    lemma_u64_le_roundtrip(a.data@[1]);
    lemma_u64_le_roundtrip(b.data@[1]);
    lemma_u64_le_roundtrip(a.data@[2]);
    lemma_u64_le_roundtrip(b.data@[2]);
    lemma_u64_le_roundtrip(a.data@[3]);
    lemma_u64_le_roundtrip(b.data@[3]);
    lemma_u64_le_roundtrip(a.data@[4]);
    lemma_u64_le_roundtrip(b.data@[4]);
    lemma_u64_le_roundtrip(a.data@[5]);
    lemma_u64_le_roundtrip(b.data@[5]);
    lemma_u64_le_roundtrip(a.data@[6]);
    lemma_u64_le_roundtrip(b.data@[6]);
    lemma_u64_le_roundtrip(a.data@[7]);
    lemma_u64_le_roundtrip(b.data@[7]);
    lemma_u64_le_roundtrip(a.data@[8]);
    lemma_u64_le_roundtrip(b.data@[8]);
    lemma_u64_le_roundtrip(a.data@[9]);
    lemma_u64_le_roundtrip(b.data@[9]);
    lemma_u64_le_roundtrip(a.data@[10]);
    lemma_u64_le_roundtrip(b.data@[10]);
    lemma_u64_le_roundtrip(a.data@[11]);
    lemma_u64_le_roundtrip(b.data@[11]);
    lemma_u64_le_roundtrip(a.data@[12]);
    lemma_u64_le_roundtrip(b.data@[12]);
    lemma_u64_le_roundtrip(a.data@[13]);
    lemma_u64_le_roundtrip(b.data@[13]);
    lemma_u64_le_roundtrip(a.data@[14]);
    lemma_u64_le_roundtrip(b.data@[14]);
    lemma_u64_le_roundtrip(a.data@[15]);
    lemma_u64_le_roundtrip(b.data@[15]);
    assert(a.data@ =~= b.data@);
    assert(a =~= b);
}

/// A `kvm_run__bindgen_ty_1__bindgen_ty_12` whose fields are all zero has an all-zero byte image,
/// the image of a zeroed ioctl argument buffer.
pub proof fn lemma_kvm_run__bindgen_ty_1__bindgen_ty_12_zero_image(x: kvm_run__bindgen_ty_1__bindgen_ty_12)
    requires
        x.is_zeroed(),
    ensures
        x.spec_bytes() == zero_bytes(KVM_RUN_INTERNAL_SIZE as int),
{
    lemma_le_bytes_zero();
    lemma_zero_bytes_split(4, 8);
    lemma_zero_bytes_split(8, 16);
    lemma_zero_bytes_split(16, 24);
    lemma_zero_bytes_split(24, 32);
    lemma_zero_bytes_split(32, 40);
    lemma_zero_bytes_split(40, 48);
    lemma_zero_bytes_split(48, 56);
    lemma_zero_bytes_split(56, 64);
    lemma_zero_bytes_split(64, 72);
    lemma_zero_bytes_split(72, 80);
    lemma_zero_bytes_split(80, 88);
    lemma_zero_bytes_split(88, 96);
    lemma_zero_bytes_split(96, 104);
    lemma_zero_bytes_split(104, 112);
    lemma_zero_bytes_split(112, 120);
    lemma_zero_bytes_split(120, 128);
    lemma_zero_bytes_split(128, 136);
    assert(x.spec_bytes() == zero_bytes(KVM_RUN_INTERNAL_SIZE as int));
}

/// Byte size of the `kvm_run__bindgen_ty_1` union.
pub const KVM_RUN_EXIT_UNION_SIZE: usize = 256;

/// The exit-payload union of `kvm_run`: 256 shared bytes carrying the
/// payload of the current exit reason.  Only the payload that
/// `exit_reason` names was written by the kernel; reading another
/// interpretation reinterprets the same bytes, as in the C union.
#[derive(Clone, Copy, Debug, PartialEq)]
#[verifier::ext_equal]
pub struct kvm_run__bindgen_ty_1 {
    storage: [u8; 256],
    align: [u64; 0],
}

impl kvm_run__bindgen_ty_1 {
    /// The shared backing bytes of the union.
    pub closed spec fn spec_bytes(self) -> Seq<u8> {
        self.storage@
    }

    /// All backing bytes zero.
    pub open spec fn is_zeroed(self) -> bool {
        self.spec_bytes() == zero_bytes(256)
    }

    /// Overwrites the first `b.len()` shared bytes, as assigning one
    /// variant of the kernel union does; the rest stay unchanged.
    fn store_prefix(&mut self, b: &Vec<u8>)
        requires
            b@.len() <= 256,
        ensures
            final(self).spec_bytes() == b@ + old(self).spec_bytes().subrange(
                b@.len() as int,
                256,
            ),
    {
        let ghost orig = self.storage@;
        let k = b.len();
        let mut i: usize = 0;
        while i < k
            invariant
                i <= k,
                k == b@.len(),
                k <= 256,
                self.storage@.len() == 256,
                forall|j: int| 0 <= j < i ==> self.storage@[j] == b@[j],
                forall|j: int| i <= j < 256 ==> self.storage@[j] == orig[j],
            decreases k - i,
        {
            let byte = b[i];
            self.storage[i] = byte;
            i += 1;
        }
        proof {
            assert(self.storage@ =~= b@ + orig.subrange(k as int, 256));
        }
    }

    /// The `hw` interpretation: the first 8 payload bytes.
    pub fn hw(&self) -> (r: kvm_run__bindgen_ty_1__bindgen_ty_1)
        ensures
            r.spec_bytes() == self.spec_bytes().subrange(0, 8),
    {
        kvm_run__bindgen_ty_1__bindgen_ty_1::read_at(vstd::array::array_as_slice(&self.storage), 0)
    }

    /// Writes the `hw` interpretation; payload bytes past it stay.
    pub fn set_hw(&mut self, val: kvm_run__bindgen_ty_1__bindgen_ty_1)
        ensures
            final(self).spec_bytes() == val.spec_bytes() + old(self).spec_bytes().subrange(
                8,
                256,
            ),
    {
        let b = val.to_bytes();
        self.store_prefix(&b);
    }

    /// The `fail_entry` interpretation: the first 8 payload bytes.
    pub fn fail_entry(&self) -> (r: kvm_run__bindgen_ty_1__bindgen_ty_2)
        ensures
            r.spec_bytes() == self.spec_bytes().subrange(0, 8),
    {
        kvm_run__bindgen_ty_1__bindgen_ty_2::read_at(vstd::array::array_as_slice(&self.storage), 0)
    }

    /// Writes the `fail_entry` interpretation; payload bytes past it stay.
    pub fn set_fail_entry(&mut self, val: kvm_run__bindgen_ty_1__bindgen_ty_2)
        ensures
            final(self).spec_bytes() == val.spec_bytes() + old(self).spec_bytes().subrange(
                8,
                256,
            ),
    {
        let b = val.to_bytes();
        self.store_prefix(&b);
    }

    /// The `ex` interpretation: the first 8 payload bytes.
    pub fn ex(&self) -> (r: kvm_run__bindgen_ty_1__bindgen_ty_3)
        ensures
            r.spec_bytes() == self.spec_bytes().subrange(0, 8),
    {
        kvm_run__bindgen_ty_1__bindgen_ty_3::read_at(vstd::array::array_as_slice(&self.storage), 0)
    }

    /// Writes the `ex` interpretation; payload bytes past it stay.
    pub fn set_ex(&mut self, val: kvm_run__bindgen_ty_1__bindgen_ty_3)
        ensures
            final(self).spec_bytes() == val.spec_bytes() + old(self).spec_bytes().subrange(
                8,
                256,
            ),
    {
        let b = val.to_bytes();
        self.store_prefix(&b);
    }

    /// The `io` interpretation: the first 16 payload bytes.
    pub fn io(&self) -> (r: kvm_run__bindgen_ty_1__bindgen_ty_4)
        ensures
            r.spec_bytes() == self.spec_bytes().subrange(0, 16),
    {
        kvm_run__bindgen_ty_1__bindgen_ty_4::read_at(vstd::array::array_as_slice(&self.storage), 0)
    }

    /// Writes the `io` interpretation; payload bytes past it stay.
    pub fn set_io(&mut self, val: kvm_run__bindgen_ty_1__bindgen_ty_4)
        ensures
            final(self).spec_bytes() == val.spec_bytes() + old(self).spec_bytes().subrange(
                16,
                256,
            ),
    {
        let b = val.to_bytes();
        self.store_prefix(&b);
    }

    /// The `debug` interpretation: the first 32 payload bytes.
    pub fn debug(&self) -> (r: kvm_run__bindgen_ty_1__bindgen_ty_5)
        ensures
            r.spec_bytes() == self.spec_bytes().subrange(0, 32),
    {
        kvm_run__bindgen_ty_1__bindgen_ty_5::read_at(vstd::array::array_as_slice(&self.storage), 0)
    }

    /// Writes the `debug` interpretation; payload bytes past it stay.
    pub fn set_debug(&mut self, val: kvm_run__bindgen_ty_1__bindgen_ty_5)
        ensures
            final(self).spec_bytes() == val.spec_bytes() + old(self).spec_bytes().subrange(
                32,
                256,
            ),
    {
        let b = val.to_bytes();
        self.store_prefix(&b);
    }

    /// The `mmio` interpretation: the first 21 payload bytes.
    pub fn mmio(&self) -> (r: kvm_run__bindgen_ty_1__bindgen_ty_6)
        ensures
            r.spec_bytes() == self.spec_bytes().subrange(0, 21),
    {
        kvm_run__bindgen_ty_1__bindgen_ty_6::read_at(vstd::array::array_as_slice(&self.storage), 0)
    }

    /// Writes the `mmio` interpretation; payload bytes past it stay.
    pub fn set_mmio(&mut self, val: kvm_run__bindgen_ty_1__bindgen_ty_6)
        ensures
            final(self).spec_bytes() == val.spec_bytes() + old(self).spec_bytes().subrange(
                21,
                256,
            ),
    {
        let b = val.to_bytes();
        self.store_prefix(&b);
    }

    /// The `hypercall` interpretation: the first 72 payload bytes.
    pub fn hypercall(&self) -> (r: kvm_run__bindgen_ty_1__bindgen_ty_7)
        ensures
            r.spec_bytes() == self.spec_bytes().subrange(0, 72),
    {
        kvm_run__bindgen_ty_1__bindgen_ty_7::read_at(vstd::array::array_as_slice(&self.storage), 0)
    }

    /// Writes the `hypercall` interpretation; payload bytes past it stay.
    pub fn set_hypercall(&mut self, val: kvm_run__bindgen_ty_1__bindgen_ty_7)
        ensures
            final(self).spec_bytes() == val.spec_bytes() + old(self).spec_bytes().subrange(
                72,
                256,
            ),
    {
        let b = val.to_bytes();
        self.store_prefix(&b);
    }

    /// The `eoi` interpretation: the first 1 payload bytes.
    pub fn eoi(&self) -> (r: kvm_run__bindgen_ty_1__bindgen_ty_19)
        ensures
            r.spec_bytes() == self.spec_bytes().subrange(0, 1),
    {
        kvm_run__bindgen_ty_1__bindgen_ty_19::read_at(vstd::array::array_as_slice(&self.storage), 0)
    }

    /// Writes the `eoi` interpretation; payload bytes past it stay.
    pub fn set_eoi(&mut self, val: kvm_run__bindgen_ty_1__bindgen_ty_19)
        ensures
            final(self).spec_bytes() == val.spec_bytes() + old(self).spec_bytes().subrange(
                1,
                256,
            ),
    {
        let b = val.to_bytes();
        self.store_prefix(&b);
    }

    /// The `tpr_access` interpretation: the first 16 payload bytes.
    pub fn tpr_access(&self) -> (r: kvm_run__bindgen_ty_1__bindgen_ty_8)
        ensures
            r.spec_bytes() == self.spec_bytes().subrange(0, 16),
    {
        kvm_run__bindgen_ty_1__bindgen_ty_8::read_at(vstd::array::array_as_slice(&self.storage), 0)
    }

    /// Writes the `tpr_access` interpretation; payload bytes past it stay.
    pub fn set_tpr_access(&mut self, val: kvm_run__bindgen_ty_1__bindgen_ty_8)
        ensures
            final(self).spec_bytes() == val.spec_bytes() + old(self).spec_bytes().subrange(
                16,
                256,
            ),
    {
        let b = val.to_bytes();
        self.store_prefix(&b);
    }

    /// The `internal` interpretation: the first 136 payload bytes.
    pub fn internal(&self) -> (r: kvm_run__bindgen_ty_1__bindgen_ty_12)
        ensures
            r.spec_bytes() == self.spec_bytes().subrange(0, 136),
    {
        kvm_run__bindgen_ty_1__bindgen_ty_12::read_at(vstd::array::array_as_slice(&self.storage), 0)
    }

    /// Writes the `internal` interpretation; payload bytes past it stay.
    pub fn set_internal(&mut self, val: kvm_run__bindgen_ty_1__bindgen_ty_12)
        ensures
            final(self).spec_bytes() == val.spec_bytes() + old(self).spec_bytes().subrange(
                136,
                256,
            ),
    {
        let b = val.to_bytes();
        self.store_prefix(&b);
    }

    /// Appends the image of `self` to `out`.
    pub fn push_image(&self, out: &mut Vec<u8>)
        ensures
            final(out)@ == old(out)@ + self.spec_bytes(),
    {
        push_u8s(out, &self.storage);
    }

    /// The image of `self` as a fresh buffer.
    pub fn to_bytes(&self) -> (out: Vec<u8>)
        ensures
            out@ == self.spec_bytes(),
            out@.len() == KVM_RUN_EXIT_UNION_SIZE,
    {
        let mut out: Vec<u8> = Vec::new();
        self.push_image(&mut out);
        proof {
            lemma_concat_empty_left(self.spec_bytes());
        }
        out
    }

    /// Reads the union whose image starts at offset `off` of `buf`.
    pub fn read_at(buf: &[u8], off: usize) -> (v: Self)
        requires
            off + KVM_RUN_EXIT_UNION_SIZE <= buf@.len(),
        ensures
            v.spec_bytes() == buf@.subrange(off as int, off as int + KVM_RUN_EXIT_UNION_SIZE),
    {
        Self { storage: read_u8s::<256>(buf, off), align: [], }
    }

    /// Reads a union image from the start of `buf`, failing when the
    /// buffer is too short to hold one.
    pub fn from_bytes(buf: &[u8]) -> (r: Result<Self, CodecError>)
        ensures
            buf@.len() < KVM_RUN_EXIT_UNION_SIZE ==> r == Err::<kvm_run__bindgen_ty_1, CodecError>(
                CodecError::IncompleteBuffer,
            ),
            buf@.len() >= KVM_RUN_EXIT_UNION_SIZE ==> (r matches Ok(v) && v.spec_bytes() == buf@.subrange(
                0,
                KVM_RUN_EXIT_UNION_SIZE as int,
            )),
    {
        if buf.len() < KVM_RUN_EXIT_UNION_SIZE {
            Err(CodecError::IncompleteBuffer)
        } else {
            Ok(Self::read_at(buf, 0))
        }
    }
}

impl Default for kvm_run__bindgen_ty_1 {
    /// A zero-filled union, the zeroed ioctl argument convention.
    fn default() -> (r: Self)
        ensures
            r.is_zeroed(),
    {
        let r = Self { storage: vstd::array::array_fill_for_copy_types::<u8, 256>(0u8), align: [], };
        proof {
            assert(r.storage@ =~= zero_bytes(256));
        }
        r
    }
}

/// The image of the union is exactly 256 bytes.
pub proof fn lemma_kvm_run__bindgen_ty_1_bytes_len(x: kvm_run__bindgen_ty_1)
    ensures
        x.spec_bytes().len() == KVM_RUN_EXIT_UNION_SIZE,
{
}

/// The byte image determines the union: it holds nothing besides its
/// shared bytes.
pub proof fn lemma_kvm_run__bindgen_ty_1_image_injective(a: kvm_run__bindgen_ty_1, b: kvm_run__bindgen_ty_1)
    requires
        a.spec_bytes() == b.spec_bytes(),
    ensures
        a == b,
{
    assert(a.storage@ =~= b.storage@);
    assert(a.align@ =~= b.align@);
    assert(a =~= b);
}

/// A zero-filled union has an all-zero byte image.
pub proof fn lemma_kvm_run__bindgen_ty_1_zero_image(x: kvm_run__bindgen_ty_1)
    requires
        x.is_zeroed(),
    ensures
        x.spec_bytes() == zero_bytes(KVM_RUN_EXIT_UNION_SIZE as int),
{
}

/// Byte size of the `kvm_run__bindgen_ty_2` union.
pub const KVM_RUN_S_UNION_SIZE: usize = 2048;

/// The synchronized-register region at the tail of `kvm_run`.  In this
/// kernel snapshot the x86 synchronized-register block is empty, so the
/// whole region is reserved bytes.
#[derive(Clone, Copy, Debug, PartialEq)]
#[verifier::ext_equal]
pub struct kvm_run__bindgen_ty_2 {
    storage: [u8; 2048],
}

impl kvm_run__bindgen_ty_2 {
    /// The shared backing bytes of the union.
    pub closed spec fn spec_bytes(self) -> Seq<u8> {
        self.storage@
    }

    /// All backing bytes zero.
    pub open spec fn is_zeroed(self) -> bool {
        self.spec_bytes() == zero_bytes(2048)
    }

    /// Appends the image of `self` to `out`.
    pub fn push_image(&self, out: &mut Vec<u8>)
        ensures
            final(out)@ == old(out)@ + self.spec_bytes(),
    {
        push_u8s(out, &self.storage);
    }

    /// The image of `self` as a fresh buffer.
    pub fn to_bytes(&self) -> (out: Vec<u8>)
        ensures
            out@ == self.spec_bytes(),
            out@.len() == KVM_RUN_S_UNION_SIZE,
    {
        let mut out: Vec<u8> = Vec::new();
        self.push_image(&mut out);
        proof {
            lemma_concat_empty_left(self.spec_bytes());
        }
        out
    }

    /// Reads the union whose image starts at offset `off` of `buf`.
    pub fn read_at(buf: &[u8], off: usize) -> (v: Self)
        requires
            off + KVM_RUN_S_UNION_SIZE <= buf@.len(),
        ensures
            v.spec_bytes() == buf@.subrange(off as int, off as int + KVM_RUN_S_UNION_SIZE),
    {
        Self { storage: read_u8s::<2048>(buf, off), }
    }

    /// Reads a union image from the start of `buf`, failing when the
    /// buffer is too short to hold one.
    pub fn from_bytes(buf: &[u8]) -> (r: Result<Self, CodecError>)
        ensures
            buf@.len() < KVM_RUN_S_UNION_SIZE ==> r == Err::<kvm_run__bindgen_ty_2, CodecError>(
                CodecError::IncompleteBuffer,
            ),
            buf@.len() >= KVM_RUN_S_UNION_SIZE ==> (r matches Ok(v) && v.spec_bytes() == buf@.subrange(
                0,
                KVM_RUN_S_UNION_SIZE as int,
            )),
    {
        if buf.len() < KVM_RUN_S_UNION_SIZE {
            Err(CodecError::IncompleteBuffer)
        } else {
            Ok(Self::read_at(buf, 0))
        }
    }
}

impl Default for kvm_run__bindgen_ty_2 {
    /// A zero-filled union, the zeroed ioctl argument convention.
    fn default() -> (r: Self)
        ensures
            r.is_zeroed(),
    {
        let r = Self { storage: vstd::array::array_fill_for_copy_types::<u8, 2048>(0u8), };
        proof {
            assert(r.storage@ =~= zero_bytes(2048));
        }
        r
    }
}

/// The image of the union is exactly 2048 bytes.
pub proof fn lemma_kvm_run__bindgen_ty_2_bytes_len(x: kvm_run__bindgen_ty_2)
    ensures
        x.spec_bytes().len() == KVM_RUN_S_UNION_SIZE,
{
}

/// The byte image determines the union: it holds nothing besides its
/// shared bytes.
pub proof fn lemma_kvm_run__bindgen_ty_2_image_injective(a: kvm_run__bindgen_ty_2, b: kvm_run__bindgen_ty_2)
    requires
        a.spec_bytes() == b.spec_bytes(),
    ensures
        a == b,
{
    assert(a.storage@ =~= b.storage@);
    assert(a =~= b);
}

/// A zero-filled union has an all-zero byte image.
pub proof fn lemma_kvm_run__bindgen_ty_2_zero_image(x: kvm_run__bindgen_ty_2)
    requires
        x.is_zeroed(),
    ensures
        x.spec_bytes() == zero_bytes(KVM_RUN_S_UNION_SIZE as int),
{
}

impl kvm_run__bindgen_ty_2 {
    /// The `regs` interpretation: the synchronized-register block, empty
    /// in this kernel snapshot.
    pub fn regs(&self) -> (r: kvm_sync_regs)
        ensures
            r.spec_bytes() == Seq::<u8>::empty(),
    {
        kvm_sync_regs {  }
    }
}

/// Byte size of the `kvm_run` kernel image.
pub const KVM_RUN_SIZE: usize = 2352;

/// The per-vCPU run page: control flags, the exit reason with its
/// payload union, and the synchronized-register tail.
#[derive(Clone, Copy, Debug, PartialEq)]
#[verifier::ext_equal]
pub struct kvm_run {
    pub request_interrupt_window: u8,
    pub immediate_exit: u8,
    pub padding1: [u8; 6],
    pub exit_reason: u32,
    pub ready_for_interrupt_injection: u8,
    pub if_flag: u8,
    pub flags: u16,
    pub cr8: u64,
    pub apic_base: u64,
    pub __bindgen_anon_1: kvm_run__bindgen_ty_1,
    pub kvm_valid_regs: u64,
    pub kvm_dirty_regs: u64,
    pub s: kvm_run__bindgen_ty_2,
}

impl kvm_run {
    /// The 2352-byte kernel image of `self`: every field little-endian
    /// at its kernel offset.
    pub open spec fn spec_bytes(self) -> Seq<u8> {
        seq![self.request_interrupt_window] + seq![self.immediate_exit] + self.padding1@ + u32_le_bytes(self.exit_reason) + seq![self.ready_for_interrupt_injection] + seq![self.if_flag] + u16_le_bytes(self.flags) + u64_le_bytes(self.cr8) + u64_le_bytes(self.apic_base) + self.__bindgen_anon_1.spec_bytes() + u64_le_bytes(self.kvm_valid_regs) + u64_le_bytes(self.kvm_dirty_regs) + self.s.spec_bytes()
    }

    /// Every field of `self` holds zero.
    pub open spec fn is_zeroed(self) -> bool {
        self.request_interrupt_window == 0 && self.immediate_exit == 0 && self.padding1@ == zero_bytes(6) && self.exit_reason == 0 && self.ready_for_interrupt_injection == 0 && self.if_flag == 0 && self.flags == 0 && self.cr8 == 0 && self.apic_base == 0 && self.__bindgen_anon_1.is_zeroed() && self.kvm_valid_regs == 0 && self.kvm_dirty_regs == 0 && self.s.is_zeroed()
    }

    /// Appends the image of `self` to `out`.
    pub fn push_image(&self, out: &mut Vec<u8>)
        ensures
            final(out)@ == old(out)@ + self.spec_bytes(),
    {
        let ghost base: Seq<u8> = out@;
        push_u8(out, self.request_interrupt_window);
        let ghost mut acc: Seq<u8> = seq![self.request_interrupt_window];
        push_u8(out, self.immediate_exit);
        proof {
            lemma_concat_assoc(base, acc, seq![self.immediate_exit]);
            acc = acc + (seq![self.immediate_exit]);
        }
        push_u8s(out, &self.padding1);
        proof {
            lemma_concat_assoc(base, acc, self.padding1@);
            acc = acc + (self.padding1@);
        }
        push_u32_le(out, self.exit_reason);
        proof {
            lemma_concat_assoc(base, acc, u32_le_bytes(self.exit_reason));
            acc = acc + (u32_le_bytes(self.exit_reason));
        }
        push_u8(out, self.ready_for_interrupt_injection);
        proof {
            lemma_concat_assoc(base, acc, seq![self.ready_for_interrupt_injection]);
            acc = acc + (seq![self.ready_for_interrupt_injection]);
        }
        push_u8(out, self.if_flag);
        proof {
            lemma_concat_assoc(base, acc, seq![self.if_flag]);
            acc = acc + (seq![self.if_flag]);
        }
        push_u16_le(out, self.flags);
        proof {
            lemma_concat_assoc(base, acc, u16_le_bytes(self.flags));
            acc = acc + (u16_le_bytes(self.flags));
        }
        push_u64_le(out, self.cr8);
        proof {
            lemma_concat_assoc(base, acc, u64_le_bytes(self.cr8));
            acc = acc + (u64_le_bytes(self.cr8));
        }
        push_u64_le(out, self.apic_base);
        proof {
            lemma_concat_assoc(base, acc, u64_le_bytes(self.apic_base));
            acc = acc + (u64_le_bytes(self.apic_base));
        }
        self.__bindgen_anon_1.push_image(out);
        proof {
            lemma_concat_assoc(base, acc, self.__bindgen_anon_1.spec_bytes());
            acc = acc + (self.__bindgen_anon_1.spec_bytes());
        }
        push_u64_le(out, self.kvm_valid_regs);
        proof {
            lemma_concat_assoc(base, acc, u64_le_bytes(self.kvm_valid_regs));
            acc = acc + (u64_le_bytes(self.kvm_valid_regs));
        }
        push_u64_le(out, self.kvm_dirty_regs);
        proof {
            lemma_concat_assoc(base, acc, u64_le_bytes(self.kvm_dirty_regs));
            acc = acc + (u64_le_bytes(self.kvm_dirty_regs));
        }
        self.s.push_image(out);
        proof {
            lemma_concat_assoc(base, acc, self.s.spec_bytes());
            acc = acc + (self.s.spec_bytes());
        }
        proof {
            assert(out@ == base + acc);
            assert(acc == self.spec_bytes());
        }
    }

    /// The image of `self` as a fresh buffer.
    pub fn to_bytes(&self) -> (out: Vec<u8>)
        ensures
            out@ == self.spec_bytes(),
            out@.len() == KVM_RUN_SIZE,
    {
        let mut out: Vec<u8> = Vec::new();
        self.push_image(&mut out);
        proof {
            lemma_concat_empty_left(self.spec_bytes());
            lemma_kvm_run_bytes_len(*self);
        }
        out
    }

    /// Reads the structure whose image starts at offset `off` of `buf`.
    pub fn read_at(buf: &[u8], off: usize) -> (v: Self)
        requires
            off + KVM_RUN_SIZE <= buf@.len(),
        ensures
            v.spec_bytes() == buf@.subrange(off as int, off as int + KVM_RUN_SIZE),
    {
        let n: usize = buf.len();
        proof {
            assert(off + KVM_RUN_SIZE <= n);
        }
        let v = kvm_run {
            request_interrupt_window: read_u8(buf, off),
            immediate_exit: read_u8(buf, off + 1),
            padding1: read_u8s::<6>(buf, off + 2),
            exit_reason: read_u32_le(buf, off + 8),
            ready_for_interrupt_injection: read_u8(buf, off + 12),
            if_flag: read_u8(buf, off + 13),
            flags: read_u16_le(buf, off + 14),
            cr8: read_u64_le(buf, off + 16),
            apic_base: read_u64_le(buf, off + 24),
            __bindgen_anon_1: kvm_run__bindgen_ty_1::read_at(buf, off + 32),
            kvm_valid_regs: read_u64_le(buf, off + 288),
            kvm_dirty_regs: read_u64_le(buf, off + 296),
            s: kvm_run__bindgen_ty_2::read_at(buf, off + 304),
        };
        proof {
            lemma_kvm_run_read_at(v, buf@, off as int);
        }
        v
    }

    /// Reads a structure image from the start of `buf`, failing when the
    /// buffer is too short to hold one.
    pub fn from_bytes(buf: &[u8]) -> (r: Result<Self, CodecError>)
        ensures
            buf@.len() < KVM_RUN_SIZE ==> r == Err::<kvm_run, CodecError>(
                CodecError::IncompleteBuffer,
            ),
            buf@.len() >= KVM_RUN_SIZE ==> (r matches Ok(v) && v.spec_bytes() == buf@.subrange(
                0,
                KVM_RUN_SIZE as int,
            )),
    {
        if buf.len() < KVM_RUN_SIZE {
            Err(CodecError::IncompleteBuffer)
        } else {
            Ok(Self::read_at(buf, 0))
        }
    }
}

impl Default for kvm_run {
    /// Every field zero: the zeroed ioctl argument convention.
    fn default() -> (r: Self)
        ensures
            r.is_zeroed(),
    {
        let r = kvm_run {
            request_interrupt_window: 0,
            immediate_exit: 0,
            padding1: vstd::array::array_fill_for_copy_types::<u8, 6>(0u8),
            exit_reason: 0,
            ready_for_interrupt_injection: 0,
            if_flag: 0,
            flags: 0,
            cr8: 0,
            apic_base: 0,
            __bindgen_anon_1: kvm_run__bindgen_ty_1::default(),
            kvm_valid_regs: 0,
            kvm_dirty_regs: 0,
            s: kvm_run__bindgen_ty_2::default(),
        };
        proof {
            assert(r.padding1@ =~= zero_bytes(6));
        }
        r
    }
}

/// The image of a `kvm_run` is exactly 2352 bytes.
pub proof fn lemma_kvm_run_bytes_len(x: kvm_run)
    ensures
        x.spec_bytes().len() == KVM_RUN_SIZE,
{
    lemma_kvm_run__bindgen_ty_1_bytes_len(x.__bindgen_anon_1);
    lemma_kvm_run__bindgen_ty_2_bytes_len(x.s);
}

/// A `kvm_run` whose fields were decoded from a buffer has that
/// buffer segment as its image.
#[verifier::rlimit(100)]
#[verifier::spinoff_prover]
proof fn lemma_kvm_run_read_at(v: kvm_run, b: Seq<u8>, off: int)
    requires
        0 <= off,
        off + KVM_RUN_SIZE <= b.len(),
        v.request_interrupt_window == b[off + 0],
        v.immediate_exit == b[off + 1],
        v.padding1@ == b.subrange(off + 2, off + 8),
        v.exit_reason == u32_of_le_bytes(b.subrange(off + 8, off + 12)),
        v.ready_for_interrupt_injection == b[off + 12],
        v.if_flag == b[off + 13],
        v.flags == u16_of_le_bytes(b.subrange(off + 14, off + 16)),
        v.cr8 == u64_of_le_bytes(b.subrange(off + 16, off + 24)),
        v.apic_base == u64_of_le_bytes(b.subrange(off + 24, off + 32)),
        v.__bindgen_anon_1.spec_bytes() == b.subrange(off + 32, off + 288),
        v.kvm_valid_regs == u64_of_le_bytes(b.subrange(off + 288, off + 296)),
        v.kvm_dirty_regs == u64_of_le_bytes(b.subrange(off + 296, off + 304)),
        v.s.spec_bytes() == b.subrange(off + 304, off + 2352),
    ensures
        v.spec_bytes() == b.subrange(off, off + KVM_RUN_SIZE),
{
    let s = b.subrange(off, off + KVM_RUN_SIZE as int);
    assert(seq![v.request_interrupt_window] =~= b.subrange(off + 0, off + 1));
    assert(seq![v.immediate_exit] =~= b.subrange(off + 1, off + 2));
    lemma_u32_le_bytes_of(b.subrange(off + 8, off + 12));
    assert(seq![v.ready_for_interrupt_injection] =~= b.subrange(off + 12, off + 13));
    assert(seq![v.if_flag] =~= b.subrange(off + 13, off + 14));
    lemma_u16_le_bytes_of(b.subrange(off + 14, off + 16));
    lemma_u64_le_bytes_of(b.subrange(off + 16, off + 24));
    lemma_u64_le_bytes_of(b.subrange(off + 24, off + 32));
    lemma_u64_le_bytes_of(b.subrange(off + 288, off + 296));
    lemma_u64_le_bytes_of(b.subrange(off + 296, off + 304));
    lemma_subrange_subrange(b, off, off + KVM_RUN_SIZE as int, 0, 1);
    lemma_subrange_subrange(b, off, off + KVM_RUN_SIZE as int, 1, 2);
    lemma_subrange_subrange(b, off, off + KVM_RUN_SIZE as int, 2, 8);
    lemma_subrange_subrange(b, off, off + KVM_RUN_SIZE as int, 8, 12);
    lemma_subrange_subrange(b, off, off + KVM_RUN_SIZE as int, 12, 13);
    lemma_subrange_subrange(b, off, off + KVM_RUN_SIZE as int, 13, 14);
    lemma_subrange_subrange(b, off, off + KVM_RUN_SIZE as int, 14, 16);
    lemma_subrange_subrange(b, off, off + KVM_RUN_SIZE as int, 16, 24);
    lemma_subrange_subrange(b, off, off + KVM_RUN_SIZE as int, 24, 32);
    lemma_subrange_subrange(b, off, off + KVM_RUN_SIZE as int, 32, 288);
    lemma_subrange_subrange(b, off, off + KVM_RUN_SIZE as int, 288, 296);
    lemma_subrange_subrange(b, off, off + KVM_RUN_SIZE as int, 296, 304);
    lemma_subrange_subrange(b, off, off + KVM_RUN_SIZE as int, 304, 2352);
    lemma_seq_parts(s, 1, 2);
    lemma_seq_parts(s, 2, 8);
    lemma_seq_parts(s, 8, 12);
    lemma_seq_parts(s, 12, 13);
    lemma_seq_parts(s, 13, 14);
    lemma_seq_parts(s, 14, 16);
    lemma_seq_parts(s, 16, 24);
    lemma_seq_parts(s, 24, 32);
    lemma_seq_parts(s, 32, 288);
    lemma_seq_parts(s, 288, 296);
    lemma_seq_parts(s, 296, 304);
    lemma_seq_parts(s, 304, 2352);
    assert(s.subrange(0, KVM_RUN_SIZE as int) =~= s);
    assert(v.spec_bytes() == s);
}

/// Field images of a `kvm_run`, covering one run of fields.
#[verifier::rlimit(100)]
#[verifier::spinoff_prover]
proof fn lemma_kvm_run_field_images_seg0(x: kvm_run)
    ensures
        x.spec_bytes().len() == KVM_RUN_SIZE,
        x.spec_bytes().subrange(304, 2352) == x.s.spec_bytes(),
        x.spec_bytes().subrange(296, 304) == u64_le_bytes(x.kvm_dirty_regs),
        x.spec_bytes().subrange(288, 296) == u64_le_bytes(x.kvm_valid_regs),
        x.spec_bytes().subrange(32, 288) == x.__bindgen_anon_1.spec_bytes(),
        x.spec_bytes().subrange(24, 32) == u64_le_bytes(x.apic_base),
        x.spec_bytes().subrange(16, 24) == u64_le_bytes(x.cr8),
        x.spec_bytes().subrange(14, 16) == u16_le_bytes(x.flags),
        x.spec_bytes().subrange(13, 14) == seq![x.if_flag],
        x.spec_bytes().subrange(0, 13) == ((((seq![x.request_interrupt_window] + seq![x.immediate_exit]) + x.padding1@) + u32_le_bytes(x.exit_reason)) + seq![x.ready_for_interrupt_injection]),
{
    lemma_kvm_run_bytes_len(x);
    lemma_kvm_run__bindgen_ty_1_bytes_len(x.__bindgen_anon_1);
    lemma_kvm_run__bindgen_ty_2_bytes_len(x.s);
    let p0 = seq![x.request_interrupt_window];
    let p1 = seq![x.immediate_exit];
    let p2 = x.padding1@;
    let p3 = u32_le_bytes(x.exit_reason);
    let p4 = seq![x.ready_for_interrupt_injection];
    let p5 = seq![x.if_flag];
    let p6 = u16_le_bytes(x.flags);
    let p7 = u64_le_bytes(x.cr8);
    let p8 = u64_le_bytes(x.apic_base);
    let p9 = x.__bindgen_anon_1.spec_bytes();
    let p10 = u64_le_bytes(x.kvm_valid_regs);
    let p11 = u64_le_bytes(x.kvm_dirty_regs);
    let p12 = x.s.spec_bytes();
    let t1 = p0 + p1;
    let t2 = t1 + p2;
    let t3 = t2 + p3;
    let t4 = t3 + p4;
    let t5 = t4 + p5;
    let t6 = t5 + p6;
    let t7 = t6 + p7;
    let t8 = t7 + p8;
    let t9 = t8 + p9;
    let t10 = t9 + p10;
    let t11 = t10 + p11;
    let t12 = t11 + p12;
    assert(x.spec_bytes() == t12);
    lemma_concat_parts(t11, p12);
    lemma_concat_parts(t10, p11);
    lemma_subrange_subrange(x.spec_bytes(), 0, 304, 0, 296);
    lemma_subrange_subrange(x.spec_bytes(), 0, 304, 296, 304);
    lemma_concat_parts(t9, p10);
    lemma_subrange_subrange(x.spec_bytes(), 0, 296, 0, 288);
    lemma_subrange_subrange(x.spec_bytes(), 0, 296, 288, 296);
    lemma_concat_parts(t8, p9);
    lemma_subrange_subrange(x.spec_bytes(), 0, 288, 0, 32);
    lemma_subrange_subrange(x.spec_bytes(), 0, 288, 32, 288);
    lemma_concat_parts(t7, p8);
    lemma_subrange_subrange(x.spec_bytes(), 0, 32, 0, 24);
    lemma_subrange_subrange(x.spec_bytes(), 0, 32, 24, 32);
    lemma_concat_parts(t6, p7);
    lemma_subrange_subrange(x.spec_bytes(), 0, 24, 0, 16);
    lemma_subrange_subrange(x.spec_bytes(), 0, 24, 16, 24);
    lemma_concat_parts(t5, p6);
    lemma_subrange_subrange(x.spec_bytes(), 0, 16, 0, 14);
    lemma_subrange_subrange(x.spec_bytes(), 0, 16, 14, 16);
    lemma_concat_parts(t4, p5);
    lemma_subrange_subrange(x.spec_bytes(), 0, 14, 0, 13);
    lemma_subrange_subrange(x.spec_bytes(), 0, 14, 13, 14);
}

/// Field images of a `kvm_run`, covering one run of fields.
#[verifier::rlimit(100)]
#[verifier::spinoff_prover]
proof fn lemma_kvm_run_field_images_seg1(x: kvm_run)
    ensures
        x.spec_bytes().len() == KVM_RUN_SIZE,
        x.spec_bytes().subrange(12, 13) == seq![x.ready_for_interrupt_injection],
        x.spec_bytes().subrange(8, 12) == u32_le_bytes(x.exit_reason),
        x.spec_bytes().subrange(2, 8) == x.padding1@,
        x.spec_bytes().subrange(1, 2) == seq![x.immediate_exit],
        x.spec_bytes().subrange(0, 1) == seq![x.request_interrupt_window],
{
    lemma_kvm_run_bytes_len(x);
    lemma_kvm_run__bindgen_ty_1_bytes_len(x.__bindgen_anon_1);
    lemma_kvm_run__bindgen_ty_2_bytes_len(x.s);
    let p0 = seq![x.request_interrupt_window];
    let p1 = seq![x.immediate_exit];
    let p2 = x.padding1@;
    let p3 = u32_le_bytes(x.exit_reason);
    let p4 = seq![x.ready_for_interrupt_injection];
    let t1 = p0 + p1;
    let t2 = t1 + p2;
    let t3 = t2 + p3;
    let t4 = t3 + p4;
    lemma_kvm_run_field_images_seg0(x);
    lemma_concat_parts(t3, p4);
    lemma_subrange_subrange(x.spec_bytes(), 0, 13, 0, 12);
    lemma_subrange_subrange(x.spec_bytes(), 0, 13, 12, 13);
    lemma_concat_parts(t2, p3);
    lemma_subrange_subrange(x.spec_bytes(), 0, 12, 0, 8);
    lemma_subrange_subrange(x.spec_bytes(), 0, 12, 8, 12);
    lemma_concat_parts(t1, p2);
    lemma_subrange_subrange(x.spec_bytes(), 0, 8, 0, 2);
    lemma_subrange_subrange(x.spec_bytes(), 0, 8, 2, 8);
    lemma_concat_parts(p0, p1);
    lemma_subrange_subrange(x.spec_bytes(), 0, 2, 0, 1);
    lemma_subrange_subrange(x.spec_bytes(), 0, 2, 1, 2);
}

/// Each field's image stands at its kernel offset inside the image of
/// a `kvm_run`.
proof fn lemma_kvm_run_field_images(x: kvm_run)
    ensures
        x.spec_bytes().len() == KVM_RUN_SIZE,
        x.spec_bytes().subrange(0, 1) == seq![x.request_interrupt_window],
        x.spec_bytes().subrange(1, 2) == seq![x.immediate_exit],
        x.spec_bytes().subrange(2, 8) == x.padding1@,
        x.spec_bytes().subrange(8, 12) == u32_le_bytes(x.exit_reason),
        x.spec_bytes().subrange(12, 13) == seq![x.ready_for_interrupt_injection],
        x.spec_bytes().subrange(13, 14) == seq![x.if_flag],
        x.spec_bytes().subrange(14, 16) == u16_le_bytes(x.flags),
        x.spec_bytes().subrange(16, 24) == u64_le_bytes(x.cr8),
        x.spec_bytes().subrange(24, 32) == u64_le_bytes(x.apic_base),
        x.spec_bytes().subrange(32, 288) == x.__bindgen_anon_1.spec_bytes(),
        x.spec_bytes().subrange(288, 296) == u64_le_bytes(x.kvm_valid_regs),
        x.spec_bytes().subrange(296, 304) == u64_le_bytes(x.kvm_dirty_regs),
        x.spec_bytes().subrange(304, 2352) == x.s.spec_bytes(),
{
    lemma_kvm_run_field_images_seg0(x);
    lemma_kvm_run_field_images_seg1(x);
}

/// The byte image determines the structure: reading an image back
/// always yields the one value that produced it.
#[verifier::rlimit(100)]
#[verifier::spinoff_prover]
pub proof fn lemma_kvm_run_image_injective(a: kvm_run, b: kvm_run)
    requires
        a.spec_bytes() == b.spec_bytes(),
    ensures
        a == b,
{
    lemma_kvm_run_field_images(a);
    lemma_kvm_run_field_images(b);
    assert(a.request_interrupt_window == seq![a.request_interrupt_window][0] && b.request_interrupt_window == seq![b.request_interrupt_window][0]);
    assert(seq![a.request_interrupt_window][0] == seq![b.request_interrupt_window][0]);
    assert(a.immediate_exit == seq![a.immediate_exit][0] && b.immediate_exit == seq![b.immediate_exit][0]);
    assert(seq![a.immediate_exit][0] == seq![b.immediate_exit][0]);
    assert(a.padding1@ =~= b.padding1@);
    lemma_u32_le_roundtrip(a.exit_reason);
    lemma_u32_le_roundtrip(b.exit_reason);
    assert(a.ready_for_interrupt_injection == seq![a.ready_for_interrupt_injection][0] && b.ready_for_interrupt_injection == seq![b.ready_for_interrupt_injection][0]);
    assert(seq![a.ready_for_interrupt_injection][0] == seq![b.ready_for_interrupt_injection][0]);
    assert(a.if_flag == seq![a.if_flag][0] && b.if_flag == seq![b.if_flag][0]);
    assert(seq![a.if_flag][0] == seq![b.if_flag][0]);
    lemma_u16_le_roundtrip(a.flags);
    lemma_u16_le_roundtrip(b.flags);
    lemma_u64_le_roundtrip(a.cr8);
    lemma_u64_le_roundtrip(b.cr8);
    lemma_u64_le_roundtrip(a.apic_base);
    lemma_u64_le_roundtrip(b.apic_base);
    lemma_kvm_run__bindgen_ty_1_image_injective(a.__bindgen_anon_1, b.__bindgen_anon_1);
    lemma_u64_le_roundtrip(a.kvm_valid_regs);
    lemma_u64_le_roundtrip(b.kvm_valid_regs);
    lemma_u64_le_roundtrip(a.kvm_dirty_regs);
    lemma_u64_le_roundtrip(b.kvm_dirty_regs);
    lemma_kvm_run__bindgen_ty_2_image_injective(a.s, b.s);
    assert(a =~= b);
}

/// A `kvm_run` whose fields are all zero has an all-zero byte image,
/// the image of a zeroed ioctl argument buffer.
pub proof fn lemma_kvm_run_zero_image(x: kvm_run)
    requires
        x.is_zeroed(),
    ensures
        x.spec_bytes() == zero_bytes(KVM_RUN_SIZE as int),
{
    lemma_le_bytes_zero();
    lemma_kvm_run__bindgen_ty_1_zero_image(x.__bindgen_anon_1);
    lemma_kvm_run__bindgen_ty_2_zero_image(x.s);
    assert(seq![x.request_interrupt_window] =~= zero_bytes(1));
    assert(seq![x.immediate_exit] =~= zero_bytes(1));
    assert(seq![x.ready_for_interrupt_injection] =~= zero_bytes(1));
    assert(seq![x.if_flag] =~= zero_bytes(1));
    lemma_zero_bytes_split(1, 2);
    lemma_zero_bytes_split(2, 8);
    lemma_zero_bytes_split(8, 12);
    lemma_zero_bytes_split(12, 13);
    lemma_zero_bytes_split(13, 14);
    lemma_zero_bytes_split(14, 16);
    lemma_zero_bytes_split(16, 24);
    lemma_zero_bytes_split(24, 32);
    lemma_zero_bytes_split(32, 288);
    lemma_zero_bytes_split(288, 296);
    lemma_zero_bytes_split(296, 304);
    lemma_zero_bytes_split(304, 2352);
    assert(x.spec_bytes() == zero_bytes(KVM_RUN_SIZE as int));
}

} // verus!
