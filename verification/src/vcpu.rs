//! Per-vCPU event, debug-register and run-state structures.
//!
//! These are exchanged through the vCPU state get/set ioctls: pending
//! exception, interrupt, NMI and SMI state, hardware debug registers,
//! extended control registers and the multiprocessing run state.

use vstd::prelude::*;

verus! {

broadcast use vstd::array::group_array_axioms;

use crate::codec::CodecError;
use crate::codec::lemma_concat_assoc;
use crate::codec::lemma_concat_empty_left;
use crate::codec::lemma_concat_parts;
use crate::codec::lemma_le_bytes_zero;
use crate::codec::lemma_seq_parts;
use crate::codec::lemma_subrange_subrange;
use crate::codec::lemma_u32_le_bytes_of;
use crate::codec::lemma_u32_le_roundtrip;
use crate::codec::lemma_u64_le_bytes_of;
use crate::codec::lemma_u64_le_roundtrip;
use crate::codec::lemma_zero_bytes_split;
use crate::codec::push_u32_le;
use crate::codec::push_u64_le;
use crate::codec::push_u8;
use crate::codec::read_u32_le;
use crate::codec::read_u64_le;
use crate::codec::read_u8;
use crate::codec::u32_le_bytes;
use crate::codec::u32_of_le_bytes;
use crate::codec::u64_le_bytes;
use crate::codec::u64_of_le_bytes;
use crate::codec::zero_bytes;

/// Byte size of the `kvm_vcpu_events__bindgen_ty_1` kernel image.
pub const KVM_VCPU_EVENTS_EXCEPTION_SIZE: usize = 8;

/// The pending-exception block of `kvm_vcpu_events`.
#[derive(Clone, Copy, Debug, PartialEq)]
#[verifier::ext_equal]
pub struct kvm_vcpu_events__bindgen_ty_1 {
    pub injected: u8,
    pub nr: u8,
    pub has_error_code: u8,
    pub pad: u8,
    pub error_code: u32,
}

impl kvm_vcpu_events__bindgen_ty_1 {
    /// The 8-byte kernel image of `self`: every field little-endian
    /// at its kernel offset.
    pub open spec fn spec_bytes(self) -> Seq<u8> {
        seq![self.injected] + seq![self.nr] + seq![self.has_error_code] + seq![self.pad] + u32_le_bytes(self.error_code)
    }

    /// Every field of `self` holds zero.
    pub open spec fn is_zeroed(self) -> bool {
        self.injected == 0 && self.nr == 0 && self.has_error_code == 0 && self.pad == 0 && self.error_code == 0
    }

    /// Appends the image of `self` to `out`.
    pub fn push_image(&self, out: &mut Vec<u8>)
        ensures
            final(out)@ == old(out)@ + self.spec_bytes(),
    {
        let ghost base: Seq<u8> = out@;
        push_u8(out, self.injected);
        let ghost mut acc: Seq<u8> = seq![self.injected];
        push_u8(out, self.nr);
        proof {
            lemma_concat_assoc(base, acc, seq![self.nr]);
            acc = acc + (seq![self.nr]);
        }
        push_u8(out, self.has_error_code);
        proof {
            lemma_concat_assoc(base, acc, seq![self.has_error_code]);
            acc = acc + (seq![self.has_error_code]);
        }
        push_u8(out, self.pad);
        proof {
            lemma_concat_assoc(base, acc, seq![self.pad]);
            acc = acc + (seq![self.pad]);
        }
        push_u32_le(out, self.error_code);
        proof {
            lemma_concat_assoc(base, acc, u32_le_bytes(self.error_code));
            acc = acc + (u32_le_bytes(self.error_code));
        }
        proof {
            assert(out@ == base + acc);
            assert(acc == self.spec_bytes());
        }
    }

    /// The image of `self` as a fresh buffer.
    pub fn to_bytes(&self) -> (out: Vec<u8>)
        ensures
            out@ == self.spec_bytes(),
            out@.len() == KVM_VCPU_EVENTS_EXCEPTION_SIZE,
    {
        let mut out: Vec<u8> = Vec::new();
        self.push_image(&mut out);
        proof {
            lemma_concat_empty_left(self.spec_bytes());
            lemma_kvm_vcpu_events__bindgen_ty_1_bytes_len(*self);
        }
        out
    }

    /// Reads the structure whose image starts at offset `off` of `buf`.
    pub fn read_at(buf: &[u8], off: usize) -> (v: Self)
        requires
            off + KVM_VCPU_EVENTS_EXCEPTION_SIZE <= buf@.len(),
        ensures
            v.spec_bytes() == buf@.subrange(off as int, off as int + KVM_VCPU_EVENTS_EXCEPTION_SIZE),
    {
        let n: usize = buf.len();
        proof {
            assert(off + KVM_VCPU_EVENTS_EXCEPTION_SIZE <= n);
        }
        let v = kvm_vcpu_events__bindgen_ty_1 {
            injected: read_u8(buf, off),
            nr: read_u8(buf, off + 1),
            has_error_code: read_u8(buf, off + 2),
            pad: read_u8(buf, off + 3),
            error_code: read_u32_le(buf, off + 4),
        };
        proof {
            lemma_kvm_vcpu_events__bindgen_ty_1_read_at(v, buf@, off as int);
        }
        v
    }

    /// Reads a structure image from the start of `buf`, failing when the
    /// buffer is too short to hold one.
    pub fn from_bytes(buf: &[u8]) -> (r: Result<Self, CodecError>)
        ensures
            buf@.len() < KVM_VCPU_EVENTS_EXCEPTION_SIZE ==> r == Err::<kvm_vcpu_events__bindgen_ty_1, CodecError>(
                CodecError::IncompleteBuffer,
            ),
            buf@.len() >= KVM_VCPU_EVENTS_EXCEPTION_SIZE ==> (r matches Ok(v) && v.spec_bytes() == buf@.subrange(
                0,
                KVM_VCPU_EVENTS_EXCEPTION_SIZE as int,
            )),
    {
        if buf.len() < KVM_VCPU_EVENTS_EXCEPTION_SIZE {
            Err(CodecError::IncompleteBuffer)
        } else {
            Ok(Self::read_at(buf, 0))
        }
    }
}

impl Default for kvm_vcpu_events__bindgen_ty_1 {
    /// Every field zero: the zeroed ioctl argument convention.
    fn default() -> (r: Self)
        ensures
            r.is_zeroed(),
    {
        let r = kvm_vcpu_events__bindgen_ty_1 {
            injected: 0,
            nr: 0,
            has_error_code: 0,
            pad: 0,
            error_code: 0,
        };
        r
    }
}

/// The image of a `kvm_vcpu_events__bindgen_ty_1` is exactly 8 bytes.
pub proof fn lemma_kvm_vcpu_events__bindgen_ty_1_bytes_len(x: kvm_vcpu_events__bindgen_ty_1)
    ensures
        x.spec_bytes().len() == KVM_VCPU_EVENTS_EXCEPTION_SIZE,
{
}

/// A `kvm_vcpu_events__bindgen_ty_1` whose fields were decoded from a buffer has that
/// buffer segment as its image.
#[verifier::rlimit(100)]
#[verifier::spinoff_prover]
proof fn lemma_kvm_vcpu_events__bindgen_ty_1_read_at(v: kvm_vcpu_events__bindgen_ty_1, b: Seq<u8>, off: int)
    requires
        0 <= off,
        off + KVM_VCPU_EVENTS_EXCEPTION_SIZE <= b.len(),
        v.injected == b[off + 0],
        v.nr == b[off + 1],
        v.has_error_code == b[off + 2],
        v.pad == b[off + 3],
        v.error_code == u32_of_le_bytes(b.subrange(off + 4, off + 8)),
    ensures
        v.spec_bytes() == b.subrange(off, off + KVM_VCPU_EVENTS_EXCEPTION_SIZE),
{
    let s = b.subrange(off, off + KVM_VCPU_EVENTS_EXCEPTION_SIZE as int);
    assert(seq![v.injected] =~= b.subrange(off + 0, off + 1));
    assert(seq![v.nr] =~= b.subrange(off + 1, off + 2));
    assert(seq![v.has_error_code] =~= b.subrange(off + 2, off + 3));
    assert(seq![v.pad] =~= b.subrange(off + 3, off + 4));
    lemma_u32_le_bytes_of(b.subrange(off + 4, off + 8));
    lemma_subrange_subrange(b, off, off + KVM_VCPU_EVENTS_EXCEPTION_SIZE as int, 0, 1);
    lemma_subrange_subrange(b, off, off + KVM_VCPU_EVENTS_EXCEPTION_SIZE as int, 1, 2);
    lemma_subrange_subrange(b, off, off + KVM_VCPU_EVENTS_EXCEPTION_SIZE as int, 2, 3);
    lemma_subrange_subrange(b, off, off + KVM_VCPU_EVENTS_EXCEPTION_SIZE as int, 3, 4);
    lemma_subrange_subrange(b, off, off + KVM_VCPU_EVENTS_EXCEPTION_SIZE as int, 4, 8);
    lemma_seq_parts(s, 1, 2);
    lemma_seq_parts(s, 2, 3);
    lemma_seq_parts(s, 3, 4);
    lemma_seq_parts(s, 4, 8);
    assert(s.subrange(0, KVM_VCPU_EVENTS_EXCEPTION_SIZE as int) =~= s);
    assert(v.spec_bytes() == s);
}

/// Field images of a `kvm_vcpu_events__bindgen_ty_1`, covering one run of fields.
#[verifier::rlimit(100)]
#[verifier::spinoff_prover]
proof fn lemma_kvm_vcpu_events__bindgen_ty_1_field_images_seg0(x: kvm_vcpu_events__bindgen_ty_1)
    ensures
        x.spec_bytes().len() == KVM_VCPU_EVENTS_EXCEPTION_SIZE,
        x.spec_bytes().subrange(4, 8) == u32_le_bytes(x.error_code),
        x.spec_bytes().subrange(3, 4) == seq![x.pad],
        x.spec_bytes().subrange(2, 3) == seq![x.has_error_code],
        x.spec_bytes().subrange(1, 2) == seq![x.nr],
        x.spec_bytes().subrange(0, 1) == seq![x.injected],
{
    lemma_kvm_vcpu_events__bindgen_ty_1_bytes_len(x);
    let p0 = seq![x.injected];
    let p1 = seq![x.nr];
    let p2 = seq![x.has_error_code];
    let p3 = seq![x.pad];
    let p4 = u32_le_bytes(x.error_code);
    let t1 = p0 + p1;
    let t2 = t1 + p2;
    let t3 = t2 + p3;
    let t4 = t3 + p4;
    assert(x.spec_bytes() == t4);
    lemma_concat_parts(t3, p4);
    lemma_concat_parts(t2, p3);
    lemma_subrange_subrange(x.spec_bytes(), 0, 4, 0, 3);
    lemma_subrange_subrange(x.spec_bytes(), 0, 4, 3, 4);
    lemma_concat_parts(t1, p2);
    lemma_subrange_subrange(x.spec_bytes(), 0, 3, 0, 2);
    lemma_subrange_subrange(x.spec_bytes(), 0, 3, 2, 3);
    lemma_concat_parts(p0, p1);
    lemma_subrange_subrange(x.spec_bytes(), 0, 2, 0, 1);
    lemma_subrange_subrange(x.spec_bytes(), 0, 2, 1, 2);
}

/// Each field's image stands at its kernel offset inside the image of
/// a `kvm_vcpu_events__bindgen_ty_1`.
proof fn lemma_kvm_vcpu_events__bindgen_ty_1_field_images(x: kvm_vcpu_events__bindgen_ty_1)
    ensures
        x.spec_bytes().len() == KVM_VCPU_EVENTS_EXCEPTION_SIZE,
        x.spec_bytes().subrange(0, 1) == seq![x.injected],
        x.spec_bytes().subrange(1, 2) == seq![x.nr],
        x.spec_bytes().subrange(2, 3) == seq![x.has_error_code],
        x.spec_bytes().subrange(3, 4) == seq![x.pad],
        x.spec_bytes().subrange(4, 8) == u32_le_bytes(x.error_code),
{
    lemma_kvm_vcpu_events__bindgen_ty_1_field_images_seg0(x);
}

/// The byte image determines the structure: reading an image back
/// always yields the one value that produced it.
#[verifier::rlimit(100)]
#[verifier::spinoff_prover]
pub proof fn lemma_kvm_vcpu_events__bindgen_ty_1_image_injective(a: kvm_vcpu_events__bindgen_ty_1, b: kvm_vcpu_events__bindgen_ty_1)
    requires
        a.spec_bytes() == b.spec_bytes(),
    ensures
        a == b,
{
    lemma_kvm_vcpu_events__bindgen_ty_1_field_images(a);
    lemma_kvm_vcpu_events__bindgen_ty_1_field_images(b);
    assert(a.injected == seq![a.injected][0] && b.injected == seq![b.injected][0]);
    assert(seq![a.injected][0] == seq![b.injected][0]);
    assert(a.nr == seq![a.nr][0] && b.nr == seq![b.nr][0]);
    assert(seq![a.nr][0] == seq![b.nr][0]);
    assert(a.has_error_code == seq![a.has_error_code][0] && b.has_error_code == seq![b.has_error_code][0]);
    assert(seq![a.has_error_code][0] == seq![b.has_error_code][0]);
    assert(a.pad == seq![a.pad][0] && b.pad == seq![b.pad][0]);
    assert(seq![a.pad][0] == seq![b.pad][0]);
    lemma_u32_le_roundtrip(a.error_code);
    lemma_u32_le_roundtrip(b.error_code);
    assert(a =~= b);
}

/// A `kvm_vcpu_events__bindgen_ty_1` whose fields are all zero has an all-zero byte image,
/// the image of a zeroed ioctl argument buffer.
pub proof fn lemma_kvm_vcpu_events__bindgen_ty_1_zero_image(x: kvm_vcpu_events__bindgen_ty_1)
    requires
        x.is_zeroed(),
    ensures
        x.spec_bytes() == zero_bytes(KVM_VCPU_EVENTS_EXCEPTION_SIZE as int),
{
    lemma_le_bytes_zero();
    assert(seq![x.injected] =~= zero_bytes(1));
    assert(seq![x.nr] =~= zero_bytes(1));
    assert(seq![x.has_error_code] =~= zero_bytes(1));
    assert(seq![x.pad] =~= zero_bytes(1));
    lemma_zero_bytes_split(1, 2);
    lemma_zero_bytes_split(2, 3);
    lemma_zero_bytes_split(3, 4);
    lemma_zero_bytes_split(4, 8);
    assert(x.spec_bytes() == zero_bytes(KVM_VCPU_EVENTS_EXCEPTION_SIZE as int));
}

/// Byte size of the `kvm_vcpu_events__bindgen_ty_2` kernel image.
pub const KVM_VCPU_EVENTS_INTERRUPT_SIZE: usize = 4;

/// The pending-interrupt block of `kvm_vcpu_events`.
#[derive(Clone, Copy, Debug, PartialEq)]
#[verifier::ext_equal]
pub struct kvm_vcpu_events__bindgen_ty_2 {
    pub injected: u8,
    pub nr: u8,
    pub soft: u8,
    pub shadow: u8,
}

impl kvm_vcpu_events__bindgen_ty_2 {
    /// The 4-byte kernel image of `self`: every field little-endian
    /// at its kernel offset.
    pub open spec fn spec_bytes(self) -> Seq<u8> {
        seq![self.injected] + seq![self.nr] + seq![self.soft] + seq![self.shadow]
    }

    /// Every field of `self` holds zero.
    pub open spec fn is_zeroed(self) -> bool {
        self.injected == 0 && self.nr == 0 && self.soft == 0 && self.shadow == 0
    }

    /// Appends the image of `self` to `out`.
    pub fn push_image(&self, out: &mut Vec<u8>)
        ensures
            final(out)@ == old(out)@ + self.spec_bytes(),
    {
        let ghost base: Seq<u8> = out@;
        push_u8(out, self.injected);
        let ghost mut acc: Seq<u8> = seq![self.injected];
        push_u8(out, self.nr);
        proof {
            lemma_concat_assoc(base, acc, seq![self.nr]);
            acc = acc + (seq![self.nr]);
        }
        push_u8(out, self.soft);
        proof {
            lemma_concat_assoc(base, acc, seq![self.soft]);
            acc = acc + (seq![self.soft]);
        }
        push_u8(out, self.shadow);
        proof {
            lemma_concat_assoc(base, acc, seq![self.shadow]);
            acc = acc + (seq![self.shadow]);
        }
        proof {
            assert(out@ == base + acc);
            assert(acc == self.spec_bytes());
        }
    }

    /// The image of `self` as a fresh buffer.
    pub fn to_bytes(&self) -> (out: Vec<u8>)
        ensures
            out@ == self.spec_bytes(),
            out@.len() == KVM_VCPU_EVENTS_INTERRUPT_SIZE,
    {
        let mut out: Vec<u8> = Vec::new();
        self.push_image(&mut out);
        proof {
            lemma_concat_empty_left(self.spec_bytes());
            lemma_kvm_vcpu_events__bindgen_ty_2_bytes_len(*self);
        }
        out
    }

    /// Reads the structure whose image starts at offset `off` of `buf`.
    pub fn read_at(buf: &[u8], off: usize) -> (v: Self)
        requires
            off + KVM_VCPU_EVENTS_INTERRUPT_SIZE <= buf@.len(),
        ensures
            v.spec_bytes() == buf@.subrange(off as int, off as int + KVM_VCPU_EVENTS_INTERRUPT_SIZE),
    {
        let n: usize = buf.len();
        proof {
            assert(off + KVM_VCPU_EVENTS_INTERRUPT_SIZE <= n);
        }
        let v = kvm_vcpu_events__bindgen_ty_2 {
            injected: read_u8(buf, off),
            nr: read_u8(buf, off + 1),
            soft: read_u8(buf, off + 2),
            shadow: read_u8(buf, off + 3),
        };
        proof {
            lemma_kvm_vcpu_events__bindgen_ty_2_read_at(v, buf@, off as int);
        }
        v
    }

    /// Reads a structure image from the start of `buf`, failing when the
    /// buffer is too short to hold one.
    pub fn from_bytes(buf: &[u8]) -> (r: Result<Self, CodecError>)
        ensures
            buf@.len() < KVM_VCPU_EVENTS_INTERRUPT_SIZE ==> r == Err::<kvm_vcpu_events__bindgen_ty_2, CodecError>(
                CodecError::IncompleteBuffer,
            ),
            buf@.len() >= KVM_VCPU_EVENTS_INTERRUPT_SIZE ==> (r matches Ok(v) && v.spec_bytes() == buf@.subrange(
                0,
                KVM_VCPU_EVENTS_INTERRUPT_SIZE as int,
            )),
    {
        if buf.len() < KVM_VCPU_EVENTS_INTERRUPT_SIZE {
            Err(CodecError::IncompleteBuffer)
        } else {
            Ok(Self::read_at(buf, 0))
        }
    }
}

impl Default for kvm_vcpu_events__bindgen_ty_2 {
    /// Every field zero: the zeroed ioctl argument convention.
    fn default() -> (r: Self)
        ensures
            r.is_zeroed(),
    {
        let r = kvm_vcpu_events__bindgen_ty_2 {
            injected: 0,
            nr: 0,
            soft: 0,
            shadow: 0,
        };
        r
    }
}

/// The image of a `kvm_vcpu_events__bindgen_ty_2` is exactly 4 bytes.
pub proof fn lemma_kvm_vcpu_events__bindgen_ty_2_bytes_len(x: kvm_vcpu_events__bindgen_ty_2)
    ensures
        x.spec_bytes().len() == KVM_VCPU_EVENTS_INTERRUPT_SIZE,
{
}

/// A `kvm_vcpu_events__bindgen_ty_2` whose fields were decoded from a buffer has that
/// buffer segment as its image.
#[verifier::rlimit(100)]
#[verifier::spinoff_prover]
proof fn lemma_kvm_vcpu_events__bindgen_ty_2_read_at(v: kvm_vcpu_events__bindgen_ty_2, b: Seq<u8>, off: int)
    requires
        0 <= off,
        off + KVM_VCPU_EVENTS_INTERRUPT_SIZE <= b.len(),
        v.injected == b[off + 0],
        v.nr == b[off + 1],
        v.soft == b[off + 2],
        v.shadow == b[off + 3],
    ensures
        v.spec_bytes() == b.subrange(off, off + KVM_VCPU_EVENTS_INTERRUPT_SIZE),
{
    let s = b.subrange(off, off + KVM_VCPU_EVENTS_INTERRUPT_SIZE as int);
    assert(seq![v.injected] =~= b.subrange(off + 0, off + 1));
    assert(seq![v.nr] =~= b.subrange(off + 1, off + 2));
    assert(seq![v.soft] =~= b.subrange(off + 2, off + 3));
    assert(seq![v.shadow] =~= b.subrange(off + 3, off + 4));
    lemma_subrange_subrange(b, off, off + KVM_VCPU_EVENTS_INTERRUPT_SIZE as int, 0, 1);
    lemma_subrange_subrange(b, off, off + KVM_VCPU_EVENTS_INTERRUPT_SIZE as int, 1, 2);
    lemma_subrange_subrange(b, off, off + KVM_VCPU_EVENTS_INTERRUPT_SIZE as int, 2, 3);
    lemma_subrange_subrange(b, off, off + KVM_VCPU_EVENTS_INTERRUPT_SIZE as int, 3, 4);
    lemma_seq_parts(s, 1, 2);
    lemma_seq_parts(s, 2, 3);
    lemma_seq_parts(s, 3, 4);
    assert(s.subrange(0, KVM_VCPU_EVENTS_INTERRUPT_SIZE as int) =~= s);
    assert(v.spec_bytes() == s);
}

/// Field images of a `kvm_vcpu_events__bindgen_ty_2`, covering one run of fields.
#[verifier::rlimit(100)]
#[verifier::spinoff_prover]
proof fn lemma_kvm_vcpu_events__bindgen_ty_2_field_images_seg0(x: kvm_vcpu_events__bindgen_ty_2)
    ensures
        x.spec_bytes().len() == KVM_VCPU_EVENTS_INTERRUPT_SIZE,
        x.spec_bytes().subrange(3, 4) == seq![x.shadow],
        x.spec_bytes().subrange(2, 3) == seq![x.soft],
        x.spec_bytes().subrange(1, 2) == seq![x.nr],
        x.spec_bytes().subrange(0, 1) == seq![x.injected],
{
    lemma_kvm_vcpu_events__bindgen_ty_2_bytes_len(x);
    let p0 = seq![x.injected];
    let p1 = seq![x.nr];
    let p2 = seq![x.soft];
    let p3 = seq![x.shadow];
    let t1 = p0 + p1;
    let t2 = t1 + p2;
    let t3 = t2 + p3;
    assert(x.spec_bytes() == t3);
    lemma_concat_parts(t2, p3);
    lemma_concat_parts(t1, p2);
    lemma_subrange_subrange(x.spec_bytes(), 0, 3, 0, 2);
    lemma_subrange_subrange(x.spec_bytes(), 0, 3, 2, 3);
    lemma_concat_parts(p0, p1);
    lemma_subrange_subrange(x.spec_bytes(), 0, 2, 0, 1);
    lemma_subrange_subrange(x.spec_bytes(), 0, 2, 1, 2);
}

/// Each field's image stands at its kernel offset inside the image of
/// a `kvm_vcpu_events__bindgen_ty_2`.
proof fn lemma_kvm_vcpu_events__bindgen_ty_2_field_images(x: kvm_vcpu_events__bindgen_ty_2)
    ensures
        x.spec_bytes().len() == KVM_VCPU_EVENTS_INTERRUPT_SIZE,
        x.spec_bytes().subrange(0, 1) == seq![x.injected],
        x.spec_bytes().subrange(1, 2) == seq![x.nr],
        x.spec_bytes().subrange(2, 3) == seq![x.soft],
        x.spec_bytes().subrange(3, 4) == seq![x.shadow],
{
    lemma_kvm_vcpu_events__bindgen_ty_2_field_images_seg0(x);
}

/// The byte image determines the structure: reading an image back
/// always yields the one value that produced it.
#[verifier::rlimit(100)]
#[verifier::spinoff_prover]
pub proof fn lemma_kvm_vcpu_events__bindgen_ty_2_image_injective(a: kvm_vcpu_events__bindgen_ty_2, b: kvm_vcpu_events__bindgen_ty_2)
    requires
        a.spec_bytes() == b.spec_bytes(),
    ensures
        a == b,
{
    lemma_kvm_vcpu_events__bindgen_ty_2_field_images(a);
    lemma_kvm_vcpu_events__bindgen_ty_2_field_images(b);
    assert(a.injected == seq![a.injected][0] && b.injected == seq![b.injected][0]);
    assert(seq![a.injected][0] == seq![b.injected][0]);
    assert(a.nr == seq![a.nr][0] && b.nr == seq![b.nr][0]);
    assert(seq![a.nr][0] == seq![b.nr][0]);
    assert(a.soft == seq![a.soft][0] && b.soft == seq![b.soft][0]);
    assert(seq![a.soft][0] == seq![b.soft][0]);
    assert(a.shadow == seq![a.shadow][0] && b.shadow == seq![b.shadow][0]);
    assert(seq![a.shadow][0] == seq![b.shadow][0]);
    assert(a =~= b);
}

/// A `kvm_vcpu_events__bindgen_ty_2` whose fields are all zero has an all-zero byte image,
/// the image of a zeroed ioctl argument buffer.
pub proof fn lemma_kvm_vcpu_events__bindgen_ty_2_zero_image(x: kvm_vcpu_events__bindgen_ty_2)
    requires
        x.is_zeroed(),
    ensures
        x.spec_bytes() == zero_bytes(KVM_VCPU_EVENTS_INTERRUPT_SIZE as int),
{
    lemma_le_bytes_zero();
    assert(seq![x.injected] =~= zero_bytes(1));
    assert(seq![x.nr] =~= zero_bytes(1));
    assert(seq![x.soft] =~= zero_bytes(1));
    assert(seq![x.shadow] =~= zero_bytes(1));
    lemma_zero_bytes_split(1, 2);
    lemma_zero_bytes_split(2, 3);
    lemma_zero_bytes_split(3, 4);
    assert(x.spec_bytes() == zero_bytes(KVM_VCPU_EVENTS_INTERRUPT_SIZE as int));
}

/// Byte size of the `kvm_vcpu_events__bindgen_ty_3` kernel image.
pub const KVM_VCPU_EVENTS_NMI_SIZE: usize = 4;

/// The pending-NMI block of `kvm_vcpu_events`.
#[derive(Clone, Copy, Debug, PartialEq)]
#[verifier::ext_equal]
pub struct kvm_vcpu_events__bindgen_ty_3 {
    pub injected: u8,
    pub pending: u8,
    pub masked: u8,
    pub pad: u8,
}

impl kvm_vcpu_events__bindgen_ty_3 {
    /// The 4-byte kernel image of `self`: every field little-endian
    /// at its kernel offset.
    pub open spec fn spec_bytes(self) -> Seq<u8> {
        seq![self.injected] + seq![self.pending] + seq![self.masked] + seq![self.pad]
    }

    /// Every field of `self` holds zero.
    pub open spec fn is_zeroed(self) -> bool {
        self.injected == 0 && self.pending == 0 && self.masked == 0 && self.pad == 0
    }

    /// Appends the image of `self` to `out`.
    pub fn push_image(&self, out: &mut Vec<u8>)
        ensures
            final(out)@ == old(out)@ + self.spec_bytes(),
    {
        let ghost base: Seq<u8> = out@;
        push_u8(out, self.injected);
        let ghost mut acc: Seq<u8> = seq![self.injected];
        push_u8(out, self.pending);
        proof {
            lemma_concat_assoc(base, acc, seq![self.pending]);
            acc = acc + (seq![self.pending]);
        }
        push_u8(out, self.masked);
        proof {
            lemma_concat_assoc(base, acc, seq![self.masked]);
            acc = acc + (seq![self.masked]);
        }
        push_u8(out, self.pad);
        proof {
            lemma_concat_assoc(base, acc, seq![self.pad]);
            acc = acc + (seq![self.pad]);
        }
        proof {
            assert(out@ == base + acc);
            assert(acc == self.spec_bytes());
        }
    }

    /// The image of `self` as a fresh buffer.
    pub fn to_bytes(&self) -> (out: Vec<u8>)
        ensures
            out@ == self.spec_bytes(),
            out@.len() == KVM_VCPU_EVENTS_NMI_SIZE,
    {
        let mut out: Vec<u8> = Vec::new();
        self.push_image(&mut out);
        proof {
            lemma_concat_empty_left(self.spec_bytes());
            lemma_kvm_vcpu_events__bindgen_ty_3_bytes_len(*self);
        }
        out
    }

    /// Reads the structure whose image starts at offset `off` of `buf`.
    pub fn read_at(buf: &[u8], off: usize) -> (v: Self)
        requires
            off + KVM_VCPU_EVENTS_NMI_SIZE <= buf@.len(),
        ensures
            v.spec_bytes() == buf@.subrange(off as int, off as int + KVM_VCPU_EVENTS_NMI_SIZE),
    {
        let n: usize = buf.len();
        proof {
            assert(off + KVM_VCPU_EVENTS_NMI_SIZE <= n);
        }
        let v = kvm_vcpu_events__bindgen_ty_3 {
            injected: read_u8(buf, off),
            pending: read_u8(buf, off + 1),
            masked: read_u8(buf, off + 2),
            pad: read_u8(buf, off + 3),
        };
        proof {
            lemma_kvm_vcpu_events__bindgen_ty_3_read_at(v, buf@, off as int);
        }
        v
    }

    /// Reads a structure image from the start of `buf`, failing when the
    /// buffer is too short to hold one.
    pub fn from_bytes(buf: &[u8]) -> (r: Result<Self, CodecError>)
        ensures
            buf@.len() < KVM_VCPU_EVENTS_NMI_SIZE ==> r == Err::<kvm_vcpu_events__bindgen_ty_3, CodecError>(
                CodecError::IncompleteBuffer,
            ),
            buf@.len() >= KVM_VCPU_EVENTS_NMI_SIZE ==> (r matches Ok(v) && v.spec_bytes() == buf@.subrange(
                0,
                KVM_VCPU_EVENTS_NMI_SIZE as int,
            )),
    {
        if buf.len() < KVM_VCPU_EVENTS_NMI_SIZE {
            Err(CodecError::IncompleteBuffer)
        } else {
            Ok(Self::read_at(buf, 0))
        }
    }
}

impl Default for kvm_vcpu_events__bindgen_ty_3 {
    /// Every field zero: the zeroed ioctl argument convention.
    fn default() -> (r: Self)
        ensures
            r.is_zeroed(),
    {
        let r = kvm_vcpu_events__bindgen_ty_3 {
            injected: 0,
            pending: 0,
            masked: 0,
            pad: 0,
        };
        r
    }
}

/// The image of a `kvm_vcpu_events__bindgen_ty_3` is exactly 4 bytes.
pub proof fn lemma_kvm_vcpu_events__bindgen_ty_3_bytes_len(x: kvm_vcpu_events__bindgen_ty_3)
    ensures
        x.spec_bytes().len() == KVM_VCPU_EVENTS_NMI_SIZE,
{
}

/// A `kvm_vcpu_events__bindgen_ty_3` whose fields were decoded from a buffer has that
/// buffer segment as its image.
#[verifier::rlimit(100)]
#[verifier::spinoff_prover]
proof fn lemma_kvm_vcpu_events__bindgen_ty_3_read_at(v: kvm_vcpu_events__bindgen_ty_3, b: Seq<u8>, off: int)
    requires
        0 <= off,
        off + KVM_VCPU_EVENTS_NMI_SIZE <= b.len(),
        v.injected == b[off + 0],
        v.pending == b[off + 1],
        v.masked == b[off + 2],
        v.pad == b[off + 3],
    ensures
        v.spec_bytes() == b.subrange(off, off + KVM_VCPU_EVENTS_NMI_SIZE),
{
    let s = b.subrange(off, off + KVM_VCPU_EVENTS_NMI_SIZE as int);
    assert(seq![v.injected] =~= b.subrange(off + 0, off + 1));
    assert(seq![v.pending] =~= b.subrange(off + 1, off + 2));
    assert(seq![v.masked] =~= b.subrange(off + 2, off + 3));
    assert(seq![v.pad] =~= b.subrange(off + 3, off + 4));
    lemma_subrange_subrange(b, off, off + KVM_VCPU_EVENTS_NMI_SIZE as int, 0, 1);
    lemma_subrange_subrange(b, off, off + KVM_VCPU_EVENTS_NMI_SIZE as int, 1, 2);
    lemma_subrange_subrange(b, off, off + KVM_VCPU_EVENTS_NMI_SIZE as int, 2, 3);
    lemma_subrange_subrange(b, off, off + KVM_VCPU_EVENTS_NMI_SIZE as int, 3, 4);
    lemma_seq_parts(s, 1, 2);
    lemma_seq_parts(s, 2, 3);
    lemma_seq_parts(s, 3, 4);
    assert(s.subrange(0, KVM_VCPU_EVENTS_NMI_SIZE as int) =~= s);
    assert(v.spec_bytes() == s);
}

/// Field images of a `kvm_vcpu_events__bindgen_ty_3`, covering one run of fields.
#[verifier::rlimit(100)]
#[verifier::spinoff_prover]
proof fn lemma_kvm_vcpu_events__bindgen_ty_3_field_images_seg0(x: kvm_vcpu_events__bindgen_ty_3)
    ensures
        x.spec_bytes().len() == KVM_VCPU_EVENTS_NMI_SIZE,
        x.spec_bytes().subrange(3, 4) == seq![x.pad],
        x.spec_bytes().subrange(2, 3) == seq![x.masked],
        x.spec_bytes().subrange(1, 2) == seq![x.pending],
        x.spec_bytes().subrange(0, 1) == seq![x.injected],
{
    lemma_kvm_vcpu_events__bindgen_ty_3_bytes_len(x);
    let p0 = seq![x.injected];
    let p1 = seq![x.pending];
    let p2 = seq![x.masked];
    let p3 = seq![x.pad];
    let t1 = p0 + p1;
    let t2 = t1 + p2;
    let t3 = t2 + p3;
    assert(x.spec_bytes() == t3);
    lemma_concat_parts(t2, p3);
    lemma_concat_parts(t1, p2);
    lemma_subrange_subrange(x.spec_bytes(), 0, 3, 0, 2);
    lemma_subrange_subrange(x.spec_bytes(), 0, 3, 2, 3);
    lemma_concat_parts(p0, p1);
    lemma_subrange_subrange(x.spec_bytes(), 0, 2, 0, 1);
    lemma_subrange_subrange(x.spec_bytes(), 0, 2, 1, 2);
}

/// Each field's image stands at its kernel offset inside the image of
/// a `kvm_vcpu_events__bindgen_ty_3`.
proof fn lemma_kvm_vcpu_events__bindgen_ty_3_field_images(x: kvm_vcpu_events__bindgen_ty_3)
    ensures
        x.spec_bytes().len() == KVM_VCPU_EVENTS_NMI_SIZE,
        x.spec_bytes().subrange(0, 1) == seq![x.injected],
        x.spec_bytes().subrange(1, 2) == seq![x.pending],
        x.spec_bytes().subrange(2, 3) == seq![x.masked],
        x.spec_bytes().subrange(3, 4) == seq![x.pad],
{
    lemma_kvm_vcpu_events__bindgen_ty_3_field_images_seg0(x);
}

/// The byte image determines the structure: reading an image back
/// always yields the one value that produced it.
#[verifier::rlimit(100)]
#[verifier::spinoff_prover]
pub proof fn lemma_kvm_vcpu_events__bindgen_ty_3_image_injective(a: kvm_vcpu_events__bindgen_ty_3, b: kvm_vcpu_events__bindgen_ty_3)
    requires
        a.spec_bytes() == b.spec_bytes(),
    ensures
        a == b,
{
    lemma_kvm_vcpu_events__bindgen_ty_3_field_images(a);
    lemma_kvm_vcpu_events__bindgen_ty_3_field_images(b);
    assert(a.injected == seq![a.injected][0] && b.injected == seq![b.injected][0]);
    assert(seq![a.injected][0] == seq![b.injected][0]);
    assert(a.pending == seq![a.pending][0] && b.pending == seq![b.pending][0]);
    assert(seq![a.pending][0] == seq![b.pending][0]);
    assert(a.masked == seq![a.masked][0] && b.masked == seq![b.masked][0]);
    assert(seq![a.masked][0] == seq![b.masked][0]);
    assert(a.pad == seq![a.pad][0] && b.pad == seq![b.pad][0]);
    assert(seq![a.pad][0] == seq![b.pad][0]);
    assert(a =~= b);
}

/// A `kvm_vcpu_events__bindgen_ty_3` whose fields are all zero has an all-zero byte image,
/// the image of a zeroed ioctl argument buffer.
pub proof fn lemma_kvm_vcpu_events__bindgen_ty_3_zero_image(x: kvm_vcpu_events__bindgen_ty_3)
    requires
        x.is_zeroed(),
    ensures
        x.spec_bytes() == zero_bytes(KVM_VCPU_EVENTS_NMI_SIZE as int),
{
    lemma_le_bytes_zero();
    assert(seq![x.injected] =~= zero_bytes(1));
    assert(seq![x.pending] =~= zero_bytes(1));
    assert(seq![x.masked] =~= zero_bytes(1));
    assert(seq![x.pad] =~= zero_bytes(1));
    lemma_zero_bytes_split(1, 2);
    lemma_zero_bytes_split(2, 3);
    lemma_zero_bytes_split(3, 4);
    assert(x.spec_bytes() == zero_bytes(KVM_VCPU_EVENTS_NMI_SIZE as int));
}

/// Byte size of the `kvm_vcpu_events__bindgen_ty_4` kernel image.
pub const KVM_VCPU_EVENTS_SMI_SIZE: usize = 4;

/// The system-management-interrupt block of `kvm_vcpu_events`.
#[derive(Clone, Copy, Debug, PartialEq)]
#[verifier::ext_equal]
pub struct kvm_vcpu_events__bindgen_ty_4 {
    pub smm: u8,
    pub pending: u8,
    pub smm_inside_nmi: u8,
    pub latched_init: u8,
}

impl kvm_vcpu_events__bindgen_ty_4 {
    /// The 4-byte kernel image of `self`: every field little-endian
    /// at its kernel offset.
    pub open spec fn spec_bytes(self) -> Seq<u8> {
        seq![self.smm] + seq![self.pending] + seq![self.smm_inside_nmi] + seq![self.latched_init]
    }

    /// Every field of `self` holds zero.
    pub open spec fn is_zeroed(self) -> bool {
        self.smm == 0 && self.pending == 0 && self.smm_inside_nmi == 0 && self.latched_init == 0
    }

    /// Appends the image of `self` to `out`.
    pub fn push_image(&self, out: &mut Vec<u8>)
        ensures
            final(out)@ == old(out)@ + self.spec_bytes(),
    {
        let ghost base: Seq<u8> = out@;
        push_u8(out, self.smm);
        let ghost mut acc: Seq<u8> = seq![self.smm];
        push_u8(out, self.pending);
        proof {
            lemma_concat_assoc(base, acc, seq![self.pending]);
            acc = acc + (seq![self.pending]);
        }
        push_u8(out, self.smm_inside_nmi);
        proof {
            lemma_concat_assoc(base, acc, seq![self.smm_inside_nmi]);
            acc = acc + (seq![self.smm_inside_nmi]);
        }
        push_u8(out, self.latched_init);
        proof {
            lemma_concat_assoc(base, acc, seq![self.latched_init]);
            acc = acc + (seq![self.latched_init]);
        }
        proof {
            assert(out@ == base + acc);
            assert(acc == self.spec_bytes());
        }
    }

    /// The image of `self` as a fresh buffer.
    pub fn to_bytes(&self) -> (out: Vec<u8>)
        ensures
            out@ == self.spec_bytes(),
            out@.len() == KVM_VCPU_EVENTS_SMI_SIZE,
    {
        let mut out: Vec<u8> = Vec::new();
        self.push_image(&mut out);
        proof {
            lemma_concat_empty_left(self.spec_bytes());
            lemma_kvm_vcpu_events__bindgen_ty_4_bytes_len(*self);
        }
        out
    }

    /// Reads the structure whose image starts at offset `off` of `buf`.
    pub fn read_at(buf: &[u8], off: usize) -> (v: Self)
        requires
            off + KVM_VCPU_EVENTS_SMI_SIZE <= buf@.len(),
        ensures
            v.spec_bytes() == buf@.subrange(off as int, off as int + KVM_VCPU_EVENTS_SMI_SIZE),
    {
        let n: usize = buf.len();
        proof {
            assert(off + KVM_VCPU_EVENTS_SMI_SIZE <= n);
        }
        let v = kvm_vcpu_events__bindgen_ty_4 {
            smm: read_u8(buf, off),
            pending: read_u8(buf, off + 1),
            smm_inside_nmi: read_u8(buf, off + 2),
            latched_init: read_u8(buf, off + 3),
        };
        proof {
            lemma_kvm_vcpu_events__bindgen_ty_4_read_at(v, buf@, off as int);
        }
        v
    }

    /// Reads a structure image from the start of `buf`, failing when the
    /// buffer is too short to hold one.
    pub fn from_bytes(buf: &[u8]) -> (r: Result<Self, CodecError>)
        ensures
            buf@.len() < KVM_VCPU_EVENTS_SMI_SIZE ==> r == Err::<kvm_vcpu_events__bindgen_ty_4, CodecError>(
                CodecError::IncompleteBuffer,
            ),
            buf@.len() >= KVM_VCPU_EVENTS_SMI_SIZE ==> (r matches Ok(v) && v.spec_bytes() == buf@.subrange(
                0,
                KVM_VCPU_EVENTS_SMI_SIZE as int,
            )),
    {
        if buf.len() < KVM_VCPU_EVENTS_SMI_SIZE {
            Err(CodecError::IncompleteBuffer)
        } else {
            Ok(Self::read_at(buf, 0))
        }
    }
}

impl Default for kvm_vcpu_events__bindgen_ty_4 {
    /// Every field zero: the zeroed ioctl argument convention.
    fn default() -> (r: Self)
        ensures
            r.is_zeroed(),
    {
        let r = kvm_vcpu_events__bindgen_ty_4 {
            smm: 0,
            pending: 0,
            smm_inside_nmi: 0,
            latched_init: 0,
        };
        r
    }
}

/// The image of a `kvm_vcpu_events__bindgen_ty_4` is exactly 4 bytes.
pub proof fn lemma_kvm_vcpu_events__bindgen_ty_4_bytes_len(x: kvm_vcpu_events__bindgen_ty_4)
    ensures
        x.spec_bytes().len() == KVM_VCPU_EVENTS_SMI_SIZE,
{
}

/// A `kvm_vcpu_events__bindgen_ty_4` whose fields were decoded from a buffer has that
/// buffer segment as its image.
#[verifier::rlimit(100)]
#[verifier::spinoff_prover]
proof fn lemma_kvm_vcpu_events__bindgen_ty_4_read_at(v: kvm_vcpu_events__bindgen_ty_4, b: Seq<u8>, off: int)
    requires
        0 <= off,
        off + KVM_VCPU_EVENTS_SMI_SIZE <= b.len(),
        v.smm == b[off + 0],
        v.pending == b[off + 1],
        v.smm_inside_nmi == b[off + 2],
        v.latched_init == b[off + 3],
    ensures
        v.spec_bytes() == b.subrange(off, off + KVM_VCPU_EVENTS_SMI_SIZE),
{
    let s = b.subrange(off, off + KVM_VCPU_EVENTS_SMI_SIZE as int);
    assert(seq![v.smm] =~= b.subrange(off + 0, off + 1));
    assert(seq![v.pending] =~= b.subrange(off + 1, off + 2));
    assert(seq![v.smm_inside_nmi] =~= b.subrange(off + 2, off + 3));
    assert(seq![v.latched_init] =~= b.subrange(off + 3, off + 4));
    lemma_subrange_subrange(b, off, off + KVM_VCPU_EVENTS_SMI_SIZE as int, 0, 1);
    lemma_subrange_subrange(b, off, off + KVM_VCPU_EVENTS_SMI_SIZE as int, 1, 2);
    lemma_subrange_subrange(b, off, off + KVM_VCPU_EVENTS_SMI_SIZE as int, 2, 3);
    lemma_subrange_subrange(b, off, off + KVM_VCPU_EVENTS_SMI_SIZE as int, 3, 4);
    lemma_seq_parts(s, 1, 2);
    lemma_seq_parts(s, 2, 3);
    lemma_seq_parts(s, 3, 4);
    assert(s.subrange(0, KVM_VCPU_EVENTS_SMI_SIZE as int) =~= s);
    assert(v.spec_bytes() == s);
}

/// Field images of a `kvm_vcpu_events__bindgen_ty_4`, covering one run of fields.
#[verifier::rlimit(100)]
#[verifier::spinoff_prover]
proof fn lemma_kvm_vcpu_events__bindgen_ty_4_field_images_seg0(x: kvm_vcpu_events__bindgen_ty_4)
    ensures
        x.spec_bytes().len() == KVM_VCPU_EVENTS_SMI_SIZE,
        x.spec_bytes().subrange(3, 4) == seq![x.latched_init],
        x.spec_bytes().subrange(2, 3) == seq![x.smm_inside_nmi],
        x.spec_bytes().subrange(1, 2) == seq![x.pending],
        x.spec_bytes().subrange(0, 1) == seq![x.smm],
{
    lemma_kvm_vcpu_events__bindgen_ty_4_bytes_len(x);
    let p0 = seq![x.smm];
    let p1 = seq![x.pending];
    let p2 = seq![x.smm_inside_nmi];
    let p3 = seq![x.latched_init];
    let t1 = p0 + p1;
    let t2 = t1 + p2;
    let t3 = t2 + p3;
    assert(x.spec_bytes() == t3);
    lemma_concat_parts(t2, p3);
    lemma_concat_parts(t1, p2);
    lemma_subrange_subrange(x.spec_bytes(), 0, 3, 0, 2);
    lemma_subrange_subrange(x.spec_bytes(), 0, 3, 2, 3);
    lemma_concat_parts(p0, p1);
    lemma_subrange_subrange(x.spec_bytes(), 0, 2, 0, 1);
    lemma_subrange_subrange(x.spec_bytes(), 0, 2, 1, 2);
}

/// Each field's image stands at its kernel offset inside the image of
/// a `kvm_vcpu_events__bindgen_ty_4`.
proof fn lemma_kvm_vcpu_events__bindgen_ty_4_field_images(x: kvm_vcpu_events__bindgen_ty_4)
    ensures
        x.spec_bytes().len() == KVM_VCPU_EVENTS_SMI_SIZE,
        x.spec_bytes().subrange(0, 1) == seq![x.smm],
        x.spec_bytes().subrange(1, 2) == seq![x.pending],
        x.spec_bytes().subrange(2, 3) == seq![x.smm_inside_nmi],
        x.spec_bytes().subrange(3, 4) == seq![x.latched_init],
{
    lemma_kvm_vcpu_events__bindgen_ty_4_field_images_seg0(x);
}

/// The byte image determines the structure: reading an image back
/// always yields the one value that produced it.
#[verifier::rlimit(100)]
#[verifier::spinoff_prover]
pub proof fn lemma_kvm_vcpu_events__bindgen_ty_4_image_injective(a: kvm_vcpu_events__bindgen_ty_4, b: kvm_vcpu_events__bindgen_ty_4)
    requires
        a.spec_bytes() == b.spec_bytes(),
    ensures
        a == b,
{
    lemma_kvm_vcpu_events__bindgen_ty_4_field_images(a);
    lemma_kvm_vcpu_events__bindgen_ty_4_field_images(b);
    assert(a.smm == seq![a.smm][0] && b.smm == seq![b.smm][0]);
    assert(seq![a.smm][0] == seq![b.smm][0]);
    assert(a.pending == seq![a.pending][0] && b.pending == seq![b.pending][0]);
    assert(seq![a.pending][0] == seq![b.pending][0]);
    assert(a.smm_inside_nmi == seq![a.smm_inside_nmi][0] && b.smm_inside_nmi == seq![b.smm_inside_nmi][0]);
    assert(seq![a.smm_inside_nmi][0] == seq![b.smm_inside_nmi][0]);
    assert(a.latched_init == seq![a.latched_init][0] && b.latched_init == seq![b.latched_init][0]);
    assert(seq![a.latched_init][0] == seq![b.latched_init][0]);
    assert(a =~= b);
}

/// A `kvm_vcpu_events__bindgen_ty_4` whose fields are all zero has an all-zero byte image,
/// the image of a zeroed ioctl argument buffer.
pub proof fn lemma_kvm_vcpu_events__bindgen_ty_4_zero_image(x: kvm_vcpu_events__bindgen_ty_4)
    requires
        x.is_zeroed(),
    ensures
        x.spec_bytes() == zero_bytes(KVM_VCPU_EVENTS_SMI_SIZE as int),
{
    lemma_le_bytes_zero();
    assert(seq![x.smm] =~= zero_bytes(1));
    assert(seq![x.pending] =~= zero_bytes(1));
    assert(seq![x.smm_inside_nmi] =~= zero_bytes(1));
    assert(seq![x.latched_init] =~= zero_bytes(1));
    lemma_zero_bytes_split(1, 2);
    lemma_zero_bytes_split(2, 3);
    lemma_zero_bytes_split(3, 4);
    assert(x.spec_bytes() == zero_bytes(KVM_VCPU_EVENTS_SMI_SIZE as int));
}

/// Byte size of the `kvm_vcpu_events` kernel image.
pub const KVM_VCPU_EVENTS_SIZE: usize = 64;

/// Pending event state of a vCPU, exchanged whole by the event ioctls.
#[derive(Clone, Copy, Debug, PartialEq)]
#[verifier::ext_equal]
pub struct kvm_vcpu_events {
    pub exception: kvm_vcpu_events__bindgen_ty_1,
    pub interrupt: kvm_vcpu_events__bindgen_ty_2,
    pub nmi: kvm_vcpu_events__bindgen_ty_3,
    pub sipi_vector: u32,
    pub flags: u32,
    pub smi: kvm_vcpu_events__bindgen_ty_4,
    pub reserved: [u32; 9],
}

impl kvm_vcpu_events {
    /// The 64-byte kernel image of `self`: every field little-endian
    /// at its kernel offset.
    pub open spec fn spec_bytes(self) -> Seq<u8> {
        self.exception.spec_bytes() + self.interrupt.spec_bytes() + self.nmi.spec_bytes() + u32_le_bytes(self.sipi_vector) + u32_le_bytes(self.flags) + self.smi.spec_bytes() + u32_le_bytes(self.reserved@[0]) + u32_le_bytes(self.reserved@[1]) + u32_le_bytes(self.reserved@[2]) + u32_le_bytes(self.reserved@[3]) + u32_le_bytes(self.reserved@[4]) + u32_le_bytes(self.reserved@[5]) + u32_le_bytes(self.reserved@[6]) + u32_le_bytes(self.reserved@[7]) + u32_le_bytes(self.reserved@[8])
    }

    /// Every field of `self` holds zero.
    pub open spec fn is_zeroed(self) -> bool {
        self.exception.is_zeroed() && self.interrupt.is_zeroed() && self.nmi.is_zeroed() && self.sipi_vector == 0 && self.flags == 0 && self.smi.is_zeroed() && self.reserved@ == Seq::new(9, |i: int| 0u32)
    }

    /// Appends the image of `self` to `out`.
    pub fn push_image(&self, out: &mut Vec<u8>)
        ensures
            final(out)@ == old(out)@ + self.spec_bytes(),
    {
        let ghost base: Seq<u8> = out@;
        self.exception.push_image(out);
        let ghost mut acc: Seq<u8> = self.exception.spec_bytes();
        self.interrupt.push_image(out);
        proof {
            lemma_concat_assoc(base, acc, self.interrupt.spec_bytes());
            acc = acc + (self.interrupt.spec_bytes());
        }
        self.nmi.push_image(out);
        proof {
            lemma_concat_assoc(base, acc, self.nmi.spec_bytes());
            acc = acc + (self.nmi.spec_bytes());
        }
        push_u32_le(out, self.sipi_vector);
        proof {
            lemma_concat_assoc(base, acc, u32_le_bytes(self.sipi_vector));
            acc = acc + (u32_le_bytes(self.sipi_vector));
        }
        push_u32_le(out, self.flags);
        proof {
            lemma_concat_assoc(base, acc, u32_le_bytes(self.flags));
            acc = acc + (u32_le_bytes(self.flags));
        }
        self.smi.push_image(out);
        proof {
            lemma_concat_assoc(base, acc, self.smi.spec_bytes());
            acc = acc + (self.smi.spec_bytes());
        }
        push_u32_le(out, self.reserved[0]);
        proof {
            lemma_concat_assoc(base, acc, u32_le_bytes(self.reserved@[0]));
            acc = acc + (u32_le_bytes(self.reserved@[0]));
        }
        push_u32_le(out, self.reserved[1]);
        proof {
            lemma_concat_assoc(base, acc, u32_le_bytes(self.reserved@[1]));
            acc = acc + (u32_le_bytes(self.reserved@[1]));
        }
        push_u32_le(out, self.reserved[2]);
        proof {
            lemma_concat_assoc(base, acc, u32_le_bytes(self.reserved@[2]));
            acc = acc + (u32_le_bytes(self.reserved@[2]));
        }
        push_u32_le(out, self.reserved[3]);
        proof {
            lemma_concat_assoc(base, acc, u32_le_bytes(self.reserved@[3]));
            acc = acc + (u32_le_bytes(self.reserved@[3]));
        }
        push_u32_le(out, self.reserved[4]);
        proof {
            lemma_concat_assoc(base, acc, u32_le_bytes(self.reserved@[4]));
            acc = acc + (u32_le_bytes(self.reserved@[4]));
        }
        push_u32_le(out, self.reserved[5]);
        proof {
            lemma_concat_assoc(base, acc, u32_le_bytes(self.reserved@[5]));
            acc = acc + (u32_le_bytes(self.reserved@[5]));
        }
        push_u32_le(out, self.reserved[6]);
        proof {
            lemma_concat_assoc(base, acc, u32_le_bytes(self.reserved@[6]));
            acc = acc + (u32_le_bytes(self.reserved@[6]));
        }
        push_u32_le(out, self.reserved[7]);
        proof {
            lemma_concat_assoc(base, acc, u32_le_bytes(self.reserved@[7]));
            acc = acc + (u32_le_bytes(self.reserved@[7]));
        }
        push_u32_le(out, self.reserved[8]);
        proof {
            lemma_concat_assoc(base, acc, u32_le_bytes(self.reserved@[8]));
            acc = acc + (u32_le_bytes(self.reserved@[8]));
        }
        proof {
            assert(out@ == base + acc);
            assert(acc == self.spec_bytes());
        }
    }

    /// The image of `self` as a fresh buffer.
    pub fn to_bytes(&self) -> (out: Vec<u8>)
        ensures
            out@ == self.spec_bytes(),
            out@.len() == KVM_VCPU_EVENTS_SIZE,
    {
        let mut out: Vec<u8> = Vec::new();
        self.push_image(&mut out);
        proof {
            lemma_concat_empty_left(self.spec_bytes());
            lemma_kvm_vcpu_events_bytes_len(*self);
        }
        out
    }

    /// Reads the structure whose image starts at offset `off` of `buf`.
    pub fn read_at(buf: &[u8], off: usize) -> (v: Self)
        requires
            off + KVM_VCPU_EVENTS_SIZE <= buf@.len(),
        ensures
            v.spec_bytes() == buf@.subrange(off as int, off as int + KVM_VCPU_EVENTS_SIZE),
    {
        let n: usize = buf.len();
        proof {
            assert(off + KVM_VCPU_EVENTS_SIZE <= n);
        }
        let v = kvm_vcpu_events {
            exception: kvm_vcpu_events__bindgen_ty_1::read_at(buf, off),
            interrupt: kvm_vcpu_events__bindgen_ty_2::read_at(buf, off + 8),
            nmi: kvm_vcpu_events__bindgen_ty_3::read_at(buf, off + 12),
            sipi_vector: read_u32_le(buf, off + 16),
            flags: read_u32_le(buf, off + 20),
            smi: kvm_vcpu_events__bindgen_ty_4::read_at(buf, off + 24),
            reserved: [read_u32_le(buf, off + 28), read_u32_le(buf, off + 32), read_u32_le(buf, off + 36), read_u32_le(buf, off + 40), read_u32_le(buf, off + 44), read_u32_le(buf, off + 48), read_u32_le(buf, off + 52), read_u32_le(buf, off + 56), read_u32_le(buf, off + 60)],
        };
        proof {
            lemma_kvm_vcpu_events_read_at(v, buf@, off as int);
        }
        v
    }

    /// Reads a structure image from the start of `buf`, failing when the
    /// buffer is too short to hold one.
    pub fn from_bytes(buf: &[u8]) -> (r: Result<Self, CodecError>)
        ensures
            buf@.len() < KVM_VCPU_EVENTS_SIZE ==> r == Err::<kvm_vcpu_events, CodecError>(
                CodecError::IncompleteBuffer,
            ),
            buf@.len() >= KVM_VCPU_EVENTS_SIZE ==> (r matches Ok(v) && v.spec_bytes() == buf@.subrange(
                0,
                KVM_VCPU_EVENTS_SIZE as int,
            )),
    {
        if buf.len() < KVM_VCPU_EVENTS_SIZE {
            Err(CodecError::IncompleteBuffer)
        } else {
            Ok(Self::read_at(buf, 0))
        }
    }
}

impl Default for kvm_vcpu_events {
    /// Every field zero: the zeroed ioctl argument convention.
    fn default() -> (r: Self)
        ensures
            r.is_zeroed(),
    {
        let r = kvm_vcpu_events {
            exception: kvm_vcpu_events__bindgen_ty_1::default(),
            interrupt: kvm_vcpu_events__bindgen_ty_2::default(),
            nmi: kvm_vcpu_events__bindgen_ty_3::default(),
            sipi_vector: 0,
            flags: 0,
            smi: kvm_vcpu_events__bindgen_ty_4::default(),
            reserved: vstd::array::array_fill_for_copy_types::<u32, 9>(0u32),
        };
        proof {
            assert(r.reserved@ =~= Seq::new(9, |i: int| 0u32));
        }
        r
    }
}

/// The image of a `kvm_vcpu_events` is exactly 64 bytes.
pub proof fn lemma_kvm_vcpu_events_bytes_len(x: kvm_vcpu_events)
    ensures
        x.spec_bytes().len() == KVM_VCPU_EVENTS_SIZE,
{
    lemma_kvm_vcpu_events__bindgen_ty_1_bytes_len(x.exception);
    lemma_kvm_vcpu_events__bindgen_ty_2_bytes_len(x.interrupt);
    lemma_kvm_vcpu_events__bindgen_ty_3_bytes_len(x.nmi);
    lemma_kvm_vcpu_events__bindgen_ty_4_bytes_len(x.smi);
}

/// A `kvm_vcpu_events` whose fields were decoded from a buffer has that
/// buffer segment as its image.
#[verifier::rlimit(100)]
#[verifier::spinoff_prover]
proof fn lemma_kvm_vcpu_events_read_at(v: kvm_vcpu_events, b: Seq<u8>, off: int)
    requires
        0 <= off,
        off + KVM_VCPU_EVENTS_SIZE <= b.len(),
        v.exception.spec_bytes() == b.subrange(off + 0, off + 8),
        v.interrupt.spec_bytes() == b.subrange(off + 8, off + 12),
        v.nmi.spec_bytes() == b.subrange(off + 12, off + 16),
        v.sipi_vector == u32_of_le_bytes(b.subrange(off + 16, off + 20)),
        v.flags == u32_of_le_bytes(b.subrange(off + 20, off + 24)),
        v.smi.spec_bytes() == b.subrange(off + 24, off + 28),
        v.reserved@[0] == u32_of_le_bytes(b.subrange(off + 28, off + 32)),
        v.reserved@[1] == u32_of_le_bytes(b.subrange(off + 32, off + 36)),
        v.reserved@[2] == u32_of_le_bytes(b.subrange(off + 36, off + 40)),
        v.reserved@[3] == u32_of_le_bytes(b.subrange(off + 40, off + 44)),
        v.reserved@[4] == u32_of_le_bytes(b.subrange(off + 44, off + 48)),
        v.reserved@[5] == u32_of_le_bytes(b.subrange(off + 48, off + 52)),
        v.reserved@[6] == u32_of_le_bytes(b.subrange(off + 52, off + 56)),
        v.reserved@[7] == u32_of_le_bytes(b.subrange(off + 56, off + 60)),
        v.reserved@[8] == u32_of_le_bytes(b.subrange(off + 60, off + 64)),
    ensures
        v.spec_bytes() == b.subrange(off, off + KVM_VCPU_EVENTS_SIZE),
{
    let s = b.subrange(off, off + KVM_VCPU_EVENTS_SIZE as int);
    lemma_u32_le_bytes_of(b.subrange(off + 16, off + 20));
    lemma_u32_le_bytes_of(b.subrange(off + 20, off + 24));
    lemma_u32_le_bytes_of(b.subrange(off + 28, off + 32));
    lemma_u32_le_bytes_of(b.subrange(off + 32, off + 36));
    lemma_u32_le_bytes_of(b.subrange(off + 36, off + 40));
    lemma_u32_le_bytes_of(b.subrange(off + 40, off + 44));
    lemma_u32_le_bytes_of(b.subrange(off + 44, off + 48));
    lemma_u32_le_bytes_of(b.subrange(off + 48, off + 52));
    lemma_u32_le_bytes_of(b.subrange(off + 52, off + 56));
    lemma_u32_le_bytes_of(b.subrange(off + 56, off + 60));
    lemma_u32_le_bytes_of(b.subrange(off + 60, off + 64));
    lemma_subrange_subrange(b, off, off + KVM_VCPU_EVENTS_SIZE as int, 0, 8);
    lemma_subrange_subrange(b, off, off + KVM_VCPU_EVENTS_SIZE as int, 8, 12);
    lemma_subrange_subrange(b, off, off + KVM_VCPU_EVENTS_SIZE as int, 12, 16);
    lemma_subrange_subrange(b, off, off + KVM_VCPU_EVENTS_SIZE as int, 16, 20);
    lemma_subrange_subrange(b, off, off + KVM_VCPU_EVENTS_SIZE as int, 20, 24);
    lemma_subrange_subrange(b, off, off + KVM_VCPU_EVENTS_SIZE as int, 24, 28);
    lemma_subrange_subrange(b, off, off + KVM_VCPU_EVENTS_SIZE as int, 28, 32);
    lemma_subrange_subrange(b, off, off + KVM_VCPU_EVENTS_SIZE as int, 32, 36);
    lemma_subrange_subrange(b, off, off + KVM_VCPU_EVENTS_SIZE as int, 36, 40);
    lemma_subrange_subrange(b, off, off + KVM_VCPU_EVENTS_SIZE as int, 40, 44);
    lemma_subrange_subrange(b, off, off + KVM_VCPU_EVENTS_SIZE as int, 44, 48);
    lemma_subrange_subrange(b, off, off + KVM_VCPU_EVENTS_SIZE as int, 48, 52);
    lemma_subrange_subrange(b, off, off + KVM_VCPU_EVENTS_SIZE as int, 52, 56);
    lemma_subrange_subrange(b, off, off + KVM_VCPU_EVENTS_SIZE as int, 56, 60);
    lemma_subrange_subrange(b, off, off + KVM_VCPU_EVENTS_SIZE as int, 60, 64);
    lemma_seq_parts(s, 8, 12);
    lemma_seq_parts(s, 12, 16);
    lemma_seq_parts(s, 16, 20);
    lemma_seq_parts(s, 20, 24);
    lemma_seq_parts(s, 24, 28);
    lemma_seq_parts(s, 28, 32);
    lemma_seq_parts(s, 32, 36);
    lemma_seq_parts(s, 36, 40);
    lemma_seq_parts(s, 40, 44);
    lemma_seq_parts(s, 44, 48);
    lemma_seq_parts(s, 48, 52);
    lemma_seq_parts(s, 52, 56);
    lemma_seq_parts(s, 56, 60);
    lemma_seq_parts(s, 60, 64);
    assert(s.subrange(0, KVM_VCPU_EVENTS_SIZE as int) =~= s);
    assert(v.spec_bytes() == s);
}

/// Field images of a `kvm_vcpu_events`, covering one run of fields.
#[verifier::rlimit(100)]
#[verifier::spinoff_prover]
proof fn lemma_kvm_vcpu_events_field_images_seg0(x: kvm_vcpu_events)
    ensures
        x.spec_bytes().len() == KVM_VCPU_EVENTS_SIZE,
        x.spec_bytes().subrange(60, 64) == u32_le_bytes(x.reserved@[8]),
        x.spec_bytes().subrange(56, 60) == u32_le_bytes(x.reserved@[7]),
        x.spec_bytes().subrange(52, 56) == u32_le_bytes(x.reserved@[6]),
        x.spec_bytes().subrange(48, 52) == u32_le_bytes(x.reserved@[5]),
        x.spec_bytes().subrange(44, 48) == u32_le_bytes(x.reserved@[4]),
        x.spec_bytes().subrange(40, 44) == u32_le_bytes(x.reserved@[3]),
        x.spec_bytes().subrange(36, 40) == u32_le_bytes(x.reserved@[2]),
        x.spec_bytes().subrange(32, 36) == u32_le_bytes(x.reserved@[1]),
        x.spec_bytes().subrange(0, 32) == ((((((x.exception.spec_bytes() + x.interrupt.spec_bytes()) + x.nmi.spec_bytes()) + u32_le_bytes(x.sipi_vector)) + u32_le_bytes(x.flags)) + x.smi.spec_bytes()) + u32_le_bytes(x.reserved@[0])),
{
    lemma_kvm_vcpu_events_bytes_len(x);
    lemma_kvm_vcpu_events__bindgen_ty_1_bytes_len(x.exception);
    lemma_kvm_vcpu_events__bindgen_ty_2_bytes_len(x.interrupt);
    lemma_kvm_vcpu_events__bindgen_ty_3_bytes_len(x.nmi);
    lemma_kvm_vcpu_events__bindgen_ty_4_bytes_len(x.smi);
    let p0 = x.exception.spec_bytes();
    let p1 = x.interrupt.spec_bytes();
    let p2 = x.nmi.spec_bytes();
    let p3 = u32_le_bytes(x.sipi_vector);
    let p4 = u32_le_bytes(x.flags);
    let p5 = x.smi.spec_bytes();
    let p6 = u32_le_bytes(x.reserved@[0]);
    let p7 = u32_le_bytes(x.reserved@[1]);
    let p8 = u32_le_bytes(x.reserved@[2]);
    let p9 = u32_le_bytes(x.reserved@[3]);
    let p10 = u32_le_bytes(x.reserved@[4]);
    let p11 = u32_le_bytes(x.reserved@[5]);
    let p12 = u32_le_bytes(x.reserved@[6]);
    let p13 = u32_le_bytes(x.reserved@[7]);
    let p14 = u32_le_bytes(x.reserved@[8]);
    let t1 = p0 + p1;
    let t2 = t1 + p2;
    let t3 = t2 + p3;
    let t4 = t3 + p4;
    let t5 = t4 + p5;
    let t6 = t5 + p6;
    let t7 = t6 + p7;
    let t8 = t7 + p8;
    let t9 = t8 + p9;
    let t10 = t9 + p10;
    let t11 = t10 + p11;
    let t12 = t11 + p12;
    let t13 = t12 + p13;
    let t14 = t13 + p14;
    assert(x.spec_bytes() == t14);
    lemma_concat_parts(t13, p14);
    lemma_concat_parts(t12, p13);
    lemma_subrange_subrange(x.spec_bytes(), 0, 60, 0, 56);
    lemma_subrange_subrange(x.spec_bytes(), 0, 60, 56, 60);
    lemma_concat_parts(t11, p12);
    lemma_subrange_subrange(x.spec_bytes(), 0, 56, 0, 52);
    lemma_subrange_subrange(x.spec_bytes(), 0, 56, 52, 56);
    lemma_concat_parts(t10, p11);
    lemma_subrange_subrange(x.spec_bytes(), 0, 52, 0, 48);
    lemma_subrange_subrange(x.spec_bytes(), 0, 52, 48, 52);
    lemma_concat_parts(t9, p10);
    lemma_subrange_subrange(x.spec_bytes(), 0, 48, 0, 44);
    lemma_subrange_subrange(x.spec_bytes(), 0, 48, 44, 48);
    lemma_concat_parts(t8, p9);
    lemma_subrange_subrange(x.spec_bytes(), 0, 44, 0, 40);
    lemma_subrange_subrange(x.spec_bytes(), 0, 44, 40, 44);
    lemma_concat_parts(t7, p8);
    lemma_subrange_subrange(x.spec_bytes(), 0, 40, 0, 36);
    lemma_subrange_subrange(x.spec_bytes(), 0, 40, 36, 40);
    lemma_concat_parts(t6, p7);
    lemma_subrange_subrange(x.spec_bytes(), 0, 36, 0, 32);
    lemma_subrange_subrange(x.spec_bytes(), 0, 36, 32, 36);
}

/// Field images of a `kvm_vcpu_events`, covering one run of fields.
#[verifier::rlimit(100)]
#[verifier::spinoff_prover]
proof fn lemma_kvm_vcpu_events_field_images_seg1(x: kvm_vcpu_events)
    ensures
        x.spec_bytes().len() == KVM_VCPU_EVENTS_SIZE,
        x.spec_bytes().subrange(28, 32) == u32_le_bytes(x.reserved@[0]),
        x.spec_bytes().subrange(24, 28) == x.smi.spec_bytes(),
        x.spec_bytes().subrange(20, 24) == u32_le_bytes(x.flags),
        x.spec_bytes().subrange(16, 20) == u32_le_bytes(x.sipi_vector),
        x.spec_bytes().subrange(12, 16) == x.nmi.spec_bytes(),
        x.spec_bytes().subrange(8, 12) == x.interrupt.spec_bytes(),
        x.spec_bytes().subrange(0, 8) == x.exception.spec_bytes(),
{
    lemma_kvm_vcpu_events_bytes_len(x);
    lemma_kvm_vcpu_events__bindgen_ty_1_bytes_len(x.exception);
    lemma_kvm_vcpu_events__bindgen_ty_2_bytes_len(x.interrupt);
    lemma_kvm_vcpu_events__bindgen_ty_3_bytes_len(x.nmi);
    lemma_kvm_vcpu_events__bindgen_ty_4_bytes_len(x.smi);
    let p0 = x.exception.spec_bytes();
    let p1 = x.interrupt.spec_bytes();
    let p2 = x.nmi.spec_bytes();
    let p3 = u32_le_bytes(x.sipi_vector);
    let p4 = u32_le_bytes(x.flags);
    let p5 = x.smi.spec_bytes();
    let p6 = u32_le_bytes(x.reserved@[0]);
    let t1 = p0 + p1;
    let t2 = t1 + p2;
    let t3 = t2 + p3;
    let t4 = t3 + p4;
    let t5 = t4 + p5;
    let t6 = t5 + p6;
    lemma_kvm_vcpu_events_field_images_seg0(x);
    lemma_concat_parts(t5, p6);
    lemma_subrange_subrange(x.spec_bytes(), 0, 32, 0, 28);
    lemma_subrange_subrange(x.spec_bytes(), 0, 32, 28, 32);
    lemma_concat_parts(t4, p5);
    lemma_subrange_subrange(x.spec_bytes(), 0, 28, 0, 24);
    lemma_subrange_subrange(x.spec_bytes(), 0, 28, 24, 28);
    lemma_concat_parts(t3, p4);
    lemma_subrange_subrange(x.spec_bytes(), 0, 24, 0, 20);
    lemma_subrange_subrange(x.spec_bytes(), 0, 24, 20, 24);
    lemma_concat_parts(t2, p3);
    lemma_subrange_subrange(x.spec_bytes(), 0, 20, 0, 16);
    lemma_subrange_subrange(x.spec_bytes(), 0, 20, 16, 20);
    lemma_concat_parts(t1, p2);
    lemma_subrange_subrange(x.spec_bytes(), 0, 16, 0, 12);
    lemma_subrange_subrange(x.spec_bytes(), 0, 16, 12, 16);
    lemma_concat_parts(p0, p1);
    lemma_subrange_subrange(x.spec_bytes(), 0, 12, 0, 8);
    lemma_subrange_subrange(x.spec_bytes(), 0, 12, 8, 12);
}

/// Each field's image stands at its kernel offset inside the image of
/// a `kvm_vcpu_events`.
proof fn lemma_kvm_vcpu_events_field_images(x: kvm_vcpu_events)
    ensures
        x.spec_bytes().len() == KVM_VCPU_EVENTS_SIZE,
        x.spec_bytes().subrange(0, 8) == x.exception.spec_bytes(),
        x.spec_bytes().subrange(8, 12) == x.interrupt.spec_bytes(),
        x.spec_bytes().subrange(12, 16) == x.nmi.spec_bytes(),
        x.spec_bytes().subrange(16, 20) == u32_le_bytes(x.sipi_vector),
        x.spec_bytes().subrange(20, 24) == u32_le_bytes(x.flags),
        x.spec_bytes().subrange(24, 28) == x.smi.spec_bytes(),
        x.spec_bytes().subrange(28, 32) == u32_le_bytes(x.reserved@[0]),
        x.spec_bytes().subrange(32, 36) == u32_le_bytes(x.reserved@[1]),
        x.spec_bytes().subrange(36, 40) == u32_le_bytes(x.reserved@[2]),
        x.spec_bytes().subrange(40, 44) == u32_le_bytes(x.reserved@[3]),
        x.spec_bytes().subrange(44, 48) == u32_le_bytes(x.reserved@[4]),
        x.spec_bytes().subrange(48, 52) == u32_le_bytes(x.reserved@[5]),
        x.spec_bytes().subrange(52, 56) == u32_le_bytes(x.reserved@[6]),
        x.spec_bytes().subrange(56, 60) == u32_le_bytes(x.reserved@[7]),
        x.spec_bytes().subrange(60, 64) == u32_le_bytes(x.reserved@[8]),
{
    lemma_kvm_vcpu_events_field_images_seg0(x);
    lemma_kvm_vcpu_events_field_images_seg1(x);
}

/// The byte image determines the structure: reading an image back
/// always yields the one value that produced it.
#[verifier::rlimit(100)]
#[verifier::spinoff_prover]
pub proof fn lemma_kvm_vcpu_events_image_injective(a: kvm_vcpu_events, b: kvm_vcpu_events)
    requires
        a.spec_bytes() == b.spec_bytes(),
    ensures
        a == b,
{
    lemma_kvm_vcpu_events_field_images(a);
    lemma_kvm_vcpu_events_field_images(b);
    lemma_kvm_vcpu_events__bindgen_ty_1_image_injective(a.exception, b.exception);
    lemma_kvm_vcpu_events__bindgen_ty_2_image_injective(a.interrupt, b.interrupt);
    lemma_kvm_vcpu_events__bindgen_ty_3_image_injective(a.nmi, b.nmi);
    lemma_u32_le_roundtrip(a.sipi_vector);
    lemma_u32_le_roundtrip(b.sipi_vector);
    lemma_u32_le_roundtrip(a.flags);
    lemma_u32_le_roundtrip(b.flags);
    lemma_kvm_vcpu_events__bindgen_ty_4_image_injective(a.smi, b.smi);
    lemma_u32_le_roundtrip(a.reserved@[0]);
    lemma_u32_le_roundtrip(b.reserved@[0]);
    lemma_u32_le_roundtrip(a.reserved@[1]);
    lemma_u32_le_roundtrip(b.reserved@[1]);
    lemma_u32_le_roundtrip(a.reserved@[2]);
    lemma_u32_le_roundtrip(b.reserved@[2]);
    lemma_u32_le_roundtrip(a.reserved@[3]);
    lemma_u32_le_roundtrip(b.reserved@[3]);
    lemma_u32_le_roundtrip(a.reserved@[4]);
    lemma_u32_le_roundtrip(b.reserved@[4]);
    lemma_u32_le_roundtrip(a.reserved@[5]);
    lemma_u32_le_roundtrip(b.reserved@[5]);
    lemma_u32_le_roundtrip(a.reserved@[6]);
    lemma_u32_le_roundtrip(b.reserved@[6]);
    lemma_u32_le_roundtrip(a.reserved@[7]);
    lemma_u32_le_roundtrip(b.reserved@[7]);
    lemma_u32_le_roundtrip(a.reserved@[8]);
    lemma_u32_le_roundtrip(b.reserved@[8]);
    assert(a.reserved@ =~= b.reserved@);
    assert(a =~= b);
}

/// A `kvm_vcpu_events` whose fields are all zero has an all-zero byte image,
/// the image of a zeroed ioctl argument buffer.
pub proof fn lemma_kvm_vcpu_events_zero_image(x: kvm_vcpu_events)
    requires
        x.is_zeroed(),
    ensures
        x.spec_bytes() == zero_bytes(KVM_VCPU_EVENTS_SIZE as int),
{
    lemma_le_bytes_zero();
    lemma_kvm_vcpu_events__bindgen_ty_1_zero_image(x.exception);
    lemma_kvm_vcpu_events__bindgen_ty_2_zero_image(x.interrupt);
    lemma_kvm_vcpu_events__bindgen_ty_3_zero_image(x.nmi);
    lemma_kvm_vcpu_events__bindgen_ty_4_zero_image(x.smi);
    lemma_zero_bytes_split(8, 12);
    lemma_zero_bytes_split(12, 16);
    lemma_zero_bytes_split(16, 20);
    lemma_zero_bytes_split(20, 24);
    lemma_zero_bytes_split(24, 28);
    lemma_zero_bytes_split(28, 32);
    lemma_zero_bytes_split(32, 36);
    lemma_zero_bytes_split(36, 40);
    lemma_zero_bytes_split(40, 44);
    lemma_zero_bytes_split(44, 48);
    lemma_zero_bytes_split(48, 52);
    lemma_zero_bytes_split(52, 56);
    lemma_zero_bytes_split(56, 60);
    lemma_zero_bytes_split(60, 64);
    assert(x.spec_bytes() == zero_bytes(KVM_VCPU_EVENTS_SIZE as int));
}

/// Byte size of the `kvm_debugregs` kernel image.
pub const KVM_DEBUGREGS_SIZE: usize = 128;

/// The hardware debug registers of a vCPU.
#[derive(Clone, Copy, Debug, PartialEq)]
#[verifier::ext_equal]
pub struct kvm_debugregs {
    pub db: [u64; 4],
    pub dr6: u64,
    pub dr7: u64,
    pub flags: u64,
    pub reserved: [u64; 9],
}

impl kvm_debugregs {
    /// The 128-byte kernel image of `self`: every field little-endian
    /// at its kernel offset.
    pub open spec fn spec_bytes(self) -> Seq<u8> {
        u64_le_bytes(self.db@[0]) + u64_le_bytes(self.db@[1]) + u64_le_bytes(self.db@[2]) + u64_le_bytes(self.db@[3]) + u64_le_bytes(self.dr6) + u64_le_bytes(self.dr7) + u64_le_bytes(self.flags) + u64_le_bytes(self.reserved@[0]) + u64_le_bytes(self.reserved@[1]) + u64_le_bytes(self.reserved@[2]) + u64_le_bytes(self.reserved@[3]) + u64_le_bytes(self.reserved@[4]) + u64_le_bytes(self.reserved@[5]) + u64_le_bytes(self.reserved@[6]) + u64_le_bytes(self.reserved@[7]) + u64_le_bytes(self.reserved@[8])
    }

    /// Every field of `self` holds zero.
    pub open spec fn is_zeroed(self) -> bool {
        self.db@ == Seq::new(4, |i: int| 0u64) && self.dr6 == 0 && self.dr7 == 0 && self.flags == 0 && self.reserved@ == Seq::new(9, |i: int| 0u64)
    }

    /// Appends the image of `self` to `out`.
    pub fn push_image(&self, out: &mut Vec<u8>)
        ensures
            final(out)@ == old(out)@ + self.spec_bytes(),
    {
        let ghost base: Seq<u8> = out@;
        push_u64_le(out, self.db[0]);
        let ghost mut acc: Seq<u8> = u64_le_bytes(self.db@[0]);
        push_u64_le(out, self.db[1]);
        proof {
            lemma_concat_assoc(base, acc, u64_le_bytes(self.db@[1]));
            acc = acc + (u64_le_bytes(self.db@[1]));
        }
        push_u64_le(out, self.db[2]);
        proof {
            lemma_concat_assoc(base, acc, u64_le_bytes(self.db@[2]));
            acc = acc + (u64_le_bytes(self.db@[2]));
        }
        push_u64_le(out, self.db[3]);
        proof {
            lemma_concat_assoc(base, acc, u64_le_bytes(self.db@[3]));
            acc = acc + (u64_le_bytes(self.db@[3]));
        }
        push_u64_le(out, self.dr6);
        proof {
            lemma_concat_assoc(base, acc, u64_le_bytes(self.dr6));
            acc = acc + (u64_le_bytes(self.dr6));
        }
        push_u64_le(out, self.dr7);
        proof {
            lemma_concat_assoc(base, acc, u64_le_bytes(self.dr7));
            acc = acc + (u64_le_bytes(self.dr7));
        }
        push_u64_le(out, self.flags);
        proof {
            lemma_concat_assoc(base, acc, u64_le_bytes(self.flags));
            acc = acc + (u64_le_bytes(self.flags));
        }
        push_u64_le(out, self.reserved[0]);
        proof {
            lemma_concat_assoc(base, acc, u64_le_bytes(self.reserved@[0]));
            acc = acc + (u64_le_bytes(self.reserved@[0]));
        }
        push_u64_le(out, self.reserved[1]);
        proof {
            lemma_concat_assoc(base, acc, u64_le_bytes(self.reserved@[1]));
            acc = acc + (u64_le_bytes(self.reserved@[1]));
        }
        push_u64_le(out, self.reserved[2]);
        proof {
            lemma_concat_assoc(base, acc, u64_le_bytes(self.reserved@[2]));
            acc = acc + (u64_le_bytes(self.reserved@[2]));
        }
        push_u64_le(out, self.reserved[3]);
        proof {
            lemma_concat_assoc(base, acc, u64_le_bytes(self.reserved@[3]));
            acc = acc + (u64_le_bytes(self.reserved@[3]));
        }
        push_u64_le(out, self.reserved[4]);
        proof {
            lemma_concat_assoc(base, acc, u64_le_bytes(self.reserved@[4]));
            acc = acc + (u64_le_bytes(self.reserved@[4]));
        }
        push_u64_le(out, self.reserved[5]);
        proof {
            lemma_concat_assoc(base, acc, u64_le_bytes(self.reserved@[5]));
            acc = acc + (u64_le_bytes(self.reserved@[5]));
        }
        push_u64_le(out, self.reserved[6]);
        proof {
            lemma_concat_assoc(base, acc, u64_le_bytes(self.reserved@[6]));
            acc = acc + (u64_le_bytes(self.reserved@[6]));
        }
        push_u64_le(out, self.reserved[7]);
        proof {
            lemma_concat_assoc(base, acc, u64_le_bytes(self.reserved@[7]));
            acc = acc + (u64_le_bytes(self.reserved@[7]));
        }
        push_u64_le(out, self.reserved[8]);
        proof {
            lemma_concat_assoc(base, acc, u64_le_bytes(self.reserved@[8]));
            acc = acc + (u64_le_bytes(self.reserved@[8]));
        }
        proof {
            assert(out@ == base + acc);
            assert(acc == self.spec_bytes());
        }
    }

    /// The image of `self` as a fresh buffer.
    pub fn to_bytes(&self) -> (out: Vec<u8>)
        ensures
            out@ == self.spec_bytes(),
            out@.len() == KVM_DEBUGREGS_SIZE,
    {
        let mut out: Vec<u8> = Vec::new();
        self.push_image(&mut out);
        proof {
            lemma_concat_empty_left(self.spec_bytes());
            lemma_kvm_debugregs_bytes_len(*self);
        }
        out
    }

    /// Reads the structure whose image starts at offset `off` of `buf`.
    pub fn read_at(buf: &[u8], off: usize) -> (v: Self)
        requires
            off + KVM_DEBUGREGS_SIZE <= buf@.len(),
        ensures
            v.spec_bytes() == buf@.subrange(off as int, off as int + KVM_DEBUGREGS_SIZE),
    {
        let n: usize = buf.len();
        proof {
            assert(off + KVM_DEBUGREGS_SIZE <= n);
        }
        let v = kvm_debugregs {
            db: [read_u64_le(buf, off), read_u64_le(buf, off + 8), read_u64_le(buf, off + 16), read_u64_le(buf, off + 24)],
            dr6: read_u64_le(buf, off + 32),
            dr7: read_u64_le(buf, off + 40),
            flags: read_u64_le(buf, off + 48),
            reserved: [read_u64_le(buf, off + 56), read_u64_le(buf, off + 64), read_u64_le(buf, off + 72), read_u64_le(buf, off + 80), read_u64_le(buf, off + 88), read_u64_le(buf, off + 96), read_u64_le(buf, off + 104), read_u64_le(buf, off + 112), read_u64_le(buf, off + 120)],
        };
        proof {
            lemma_kvm_debugregs_read_at(v, buf@, off as int);
        }
        v
    }

    /// Reads a structure image from the start of `buf`, failing when the
    /// buffer is too short to hold one.
    pub fn from_bytes(buf: &[u8]) -> (r: Result<Self, CodecError>)
        ensures
            buf@.len() < KVM_DEBUGREGS_SIZE ==> r == Err::<kvm_debugregs, CodecError>(
                CodecError::IncompleteBuffer,
            ),
            buf@.len() >= KVM_DEBUGREGS_SIZE ==> (r matches Ok(v) && v.spec_bytes() == buf@.subrange(
                0,
                KVM_DEBUGREGS_SIZE as int,
            )),
    {
        if buf.len() < KVM_DEBUGREGS_SIZE {
            Err(CodecError::IncompleteBuffer)
        } else {
            Ok(Self::read_at(buf, 0))
        }
    }
}

impl Default for kvm_debugregs {
    /// Every field zero: the zeroed ioctl argument convention.
    fn default() -> (r: Self)
        ensures
            r.is_zeroed(),
    {
        let r = kvm_debugregs {
            db: vstd::array::array_fill_for_copy_types::<u64, 4>(0u64),
            dr6: 0,
            dr7: 0,
            flags: 0,
            reserved: vstd::array::array_fill_for_copy_types::<u64, 9>(0u64),
        };
        proof {
            assert(r.db@ =~= Seq::new(4, |i: int| 0u64));
            assert(r.reserved@ =~= Seq::new(9, |i: int| 0u64));
        }
        r
    }
}

/// The image of a `kvm_debugregs` is exactly 128 bytes.
pub proof fn lemma_kvm_debugregs_bytes_len(x: kvm_debugregs)
    ensures
        x.spec_bytes().len() == KVM_DEBUGREGS_SIZE,
{
}

/// A `kvm_debugregs` whose fields were decoded from a buffer has that
/// buffer segment as its image.
#[verifier::rlimit(100)]
#[verifier::spinoff_prover]
proof fn lemma_kvm_debugregs_read_at(v: kvm_debugregs, b: Seq<u8>, off: int)
    requires
        0 <= off,
        off + KVM_DEBUGREGS_SIZE <= b.len(),
        v.db@[0] == u64_of_le_bytes(b.subrange(off + 0, off + 8)),
        v.db@[1] == u64_of_le_bytes(b.subrange(off + 8, off + 16)),
        v.db@[2] == u64_of_le_bytes(b.subrange(off + 16, off + 24)),
        v.db@[3] == u64_of_le_bytes(b.subrange(off + 24, off + 32)),
        v.dr6 == u64_of_le_bytes(b.subrange(off + 32, off + 40)),
        v.dr7 == u64_of_le_bytes(b.subrange(off + 40, off + 48)),
        v.flags == u64_of_le_bytes(b.subrange(off + 48, off + 56)),
        v.reserved@[0] == u64_of_le_bytes(b.subrange(off + 56, off + 64)),
        v.reserved@[1] == u64_of_le_bytes(b.subrange(off + 64, off + 72)),
        v.reserved@[2] == u64_of_le_bytes(b.subrange(off + 72, off + 80)),
        v.reserved@[3] == u64_of_le_bytes(b.subrange(off + 80, off + 88)),
        v.reserved@[4] == u64_of_le_bytes(b.subrange(off + 88, off + 96)),
        v.reserved@[5] == u64_of_le_bytes(b.subrange(off + 96, off + 104)),
        v.reserved@[6] == u64_of_le_bytes(b.subrange(off + 104, off + 112)),
        v.reserved@[7] == u64_of_le_bytes(b.subrange(off + 112, off + 120)),
        v.reserved@[8] == u64_of_le_bytes(b.subrange(off + 120, off + 128)),
    ensures
        v.spec_bytes() == b.subrange(off, off + KVM_DEBUGREGS_SIZE),
{
    let s = b.subrange(off, off + KVM_DEBUGREGS_SIZE as int);
    lemma_u64_le_bytes_of(b.subrange(off + 0, off + 8));
    lemma_u64_le_bytes_of(b.subrange(off + 8, off + 16));
    lemma_u64_le_bytes_of(b.subrange(off + 16, off + 24));
    lemma_u64_le_bytes_of(b.subrange(off + 24, off + 32));
    lemma_u64_le_bytes_of(b.subrange(off + 32, off + 40));
    lemma_u64_le_bytes_of(b.subrange(off + 40, off + 48));
    lemma_u64_le_bytes_of(b.subrange(off + 48, off + 56));
    lemma_u64_le_bytes_of(b.subrange(off + 56, off + 64));
    lemma_u64_le_bytes_of(b.subrange(off + 64, off + 72));
    lemma_u64_le_bytes_of(b.subrange(off + 72, off + 80));
    lemma_u64_le_bytes_of(b.subrange(off + 80, off + 88));
    lemma_u64_le_bytes_of(b.subrange(off + 88, off + 96));
    lemma_u64_le_bytes_of(b.subrange(off + 96, off + 104));
    lemma_u64_le_bytes_of(b.subrange(off + 104, off + 112));
    lemma_u64_le_bytes_of(b.subrange(off + 112, off + 120));
    lemma_u64_le_bytes_of(b.subrange(off + 120, off + 128));
    lemma_subrange_subrange(b, off, off + KVM_DEBUGREGS_SIZE as int, 0, 8);
    lemma_subrange_subrange(b, off, off + KVM_DEBUGREGS_SIZE as int, 8, 16);
    lemma_subrange_subrange(b, off, off + KVM_DEBUGREGS_SIZE as int, 16, 24);
    lemma_subrange_subrange(b, off, off + KVM_DEBUGREGS_SIZE as int, 24, 32);
    lemma_subrange_subrange(b, off, off + KVM_DEBUGREGS_SIZE as int, 32, 40);
    lemma_subrange_subrange(b, off, off + KVM_DEBUGREGS_SIZE as int, 40, 48);
    lemma_subrange_subrange(b, off, off + KVM_DEBUGREGS_SIZE as int, 48, 56);
    lemma_subrange_subrange(b, off, off + KVM_DEBUGREGS_SIZE as int, 56, 64);
    lemma_subrange_subrange(b, off, off + KVM_DEBUGREGS_SIZE as int, 64, 72);
    lemma_subrange_subrange(b, off, off + KVM_DEBUGREGS_SIZE as int, 72, 80);
    lemma_subrange_subrange(b, off, off + KVM_DEBUGREGS_SIZE as int, 80, 88);
    lemma_subrange_subrange(b, off, off + KVM_DEBUGREGS_SIZE as int, 88, 96);
    lemma_subrange_subrange(b, off, off + KVM_DEBUGREGS_SIZE as int, 96, 104);
    lemma_subrange_subrange(b, off, off + KVM_DEBUGREGS_SIZE as int, 104, 112);
    lemma_subrange_subrange(b, off, off + KVM_DEBUGREGS_SIZE as int, 112, 120);
    lemma_subrange_subrange(b, off, off + KVM_DEBUGREGS_SIZE as int, 120, 128);
    lemma_seq_parts(s, 8, 16);
    lemma_seq_parts(s, 16, 24);
    lemma_seq_parts(s, 24, 32);
    lemma_seq_parts(s, 32, 40);
    lemma_seq_parts(s, 40, 48);
    lemma_seq_parts(s, 48, 56);
    lemma_seq_parts(s, 56, 64);
    lemma_seq_parts(s, 64, 72);
    lemma_seq_parts(s, 72, 80);
    lemma_seq_parts(s, 80, 88);
    lemma_seq_parts(s, 88, 96);
    lemma_seq_parts(s, 96, 104);
    lemma_seq_parts(s, 104, 112);
    lemma_seq_parts(s, 112, 120);
    lemma_seq_parts(s, 120, 128);
    assert(s.subrange(0, KVM_DEBUGREGS_SIZE as int) =~= s);
    assert(v.spec_bytes() == s);
}

/// Field images of a `kvm_debugregs`, covering one run of fields.
#[verifier::rlimit(100)]
#[verifier::spinoff_prover]
proof fn lemma_kvm_debugregs_field_images_seg0(x: kvm_debugregs)
    ensures
        x.spec_bytes().len() == KVM_DEBUGREGS_SIZE,
        x.spec_bytes().subrange(120, 128) == u64_le_bytes(x.reserved@[8]),
        x.spec_bytes().subrange(112, 120) == u64_le_bytes(x.reserved@[7]),
        x.spec_bytes().subrange(104, 112) == u64_le_bytes(x.reserved@[6]),
        x.spec_bytes().subrange(96, 104) == u64_le_bytes(x.reserved@[5]),
        x.spec_bytes().subrange(88, 96) == u64_le_bytes(x.reserved@[4]),
        x.spec_bytes().subrange(80, 88) == u64_le_bytes(x.reserved@[3]),
        x.spec_bytes().subrange(72, 80) == u64_le_bytes(x.reserved@[2]),
        x.spec_bytes().subrange(64, 72) == u64_le_bytes(x.reserved@[1]),
        x.spec_bytes().subrange(0, 64) == (((((((u64_le_bytes(x.db@[0]) + u64_le_bytes(x.db@[1])) + u64_le_bytes(x.db@[2])) + u64_le_bytes(x.db@[3])) + u64_le_bytes(x.dr6)) + u64_le_bytes(x.dr7)) + u64_le_bytes(x.flags)) + u64_le_bytes(x.reserved@[0])),
{
    lemma_kvm_debugregs_bytes_len(x);
    let p0 = u64_le_bytes(x.db@[0]);
    let p1 = u64_le_bytes(x.db@[1]);
    let p2 = u64_le_bytes(x.db@[2]);
    let p3 = u64_le_bytes(x.db@[3]);
    let p4 = u64_le_bytes(x.dr6);
    let p5 = u64_le_bytes(x.dr7);
    let p6 = u64_le_bytes(x.flags);
    let p7 = u64_le_bytes(x.reserved@[0]);
    let p8 = u64_le_bytes(x.reserved@[1]);
    let p9 = u64_le_bytes(x.reserved@[2]);
    let p10 = u64_le_bytes(x.reserved@[3]);
    let p11 = u64_le_bytes(x.reserved@[4]);
    let p12 = u64_le_bytes(x.reserved@[5]);
    let p13 = u64_le_bytes(x.reserved@[6]);
    let p14 = u64_le_bytes(x.reserved@[7]);
    let p15 = u64_le_bytes(x.reserved@[8]);
    let t1 = p0 + p1;
    let t2 = t1 + p2;
    let t3 = t2 + p3;
    let t4 = t3 + p4;
    let t5 = t4 + p5;
    let t6 = t5 + p6;
    let t7 = t6 + p7;
    let t8 = t7 + p8;
    let t9 = t8 + p9;
    let t10 = t9 + p10;
    let t11 = t10 + p11;
    let t12 = t11 + p12;
    let t13 = t12 + p13;
    let t14 = t13 + p14;
    let t15 = t14 + p15;
    assert(x.spec_bytes() == t15);
    lemma_concat_parts(t14, p15);
    lemma_concat_parts(t13, p14);
    lemma_subrange_subrange(x.spec_bytes(), 0, 120, 0, 112);
    lemma_subrange_subrange(x.spec_bytes(), 0, 120, 112, 120);
    lemma_concat_parts(t12, p13);
    lemma_subrange_subrange(x.spec_bytes(), 0, 112, 0, 104);
    lemma_subrange_subrange(x.spec_bytes(), 0, 112, 104, 112);
    lemma_concat_parts(t11, p12);
    lemma_subrange_subrange(x.spec_bytes(), 0, 104, 0, 96);
    lemma_subrange_subrange(x.spec_bytes(), 0, 104, 96, 104);
    lemma_concat_parts(t10, p11);
    lemma_subrange_subrange(x.spec_bytes(), 0, 96, 0, 88);
    lemma_subrange_subrange(x.spec_bytes(), 0, 96, 88, 96);
    lemma_concat_parts(t9, p10);
    lemma_subrange_subrange(x.spec_bytes(), 0, 88, 0, 80);
    lemma_subrange_subrange(x.spec_bytes(), 0, 88, 80, 88);
    lemma_concat_parts(t8, p9);
    lemma_subrange_subrange(x.spec_bytes(), 0, 80, 0, 72);
    lemma_subrange_subrange(x.spec_bytes(), 0, 80, 72, 80);
    lemma_concat_parts(t7, p8);
    lemma_subrange_subrange(x.spec_bytes(), 0, 72, 0, 64);
    lemma_subrange_subrange(x.spec_bytes(), 0, 72, 64, 72);
}

/// Field images of a `kvm_debugregs`, covering one run of fields.
#[verifier::rlimit(100)]
#[verifier::spinoff_prover]
proof fn lemma_kvm_debugregs_field_images_seg1(x: kvm_debugregs)
    ensures
        x.spec_bytes().len() == KVM_DEBUGREGS_SIZE,
        x.spec_bytes().subrange(56, 64) == u64_le_bytes(x.reserved@[0]),
        x.spec_bytes().subrange(48, 56) == u64_le_bytes(x.flags),
        x.spec_bytes().subrange(40, 48) == u64_le_bytes(x.dr7),
        x.spec_bytes().subrange(32, 40) == u64_le_bytes(x.dr6),
        x.spec_bytes().subrange(24, 32) == u64_le_bytes(x.db@[3]),
        x.spec_bytes().subrange(16, 24) == u64_le_bytes(x.db@[2]),
        x.spec_bytes().subrange(8, 16) == u64_le_bytes(x.db@[1]),
        x.spec_bytes().subrange(0, 8) == u64_le_bytes(x.db@[0]),
{
    lemma_kvm_debugregs_bytes_len(x);
    let p0 = u64_le_bytes(x.db@[0]);
    let p1 = u64_le_bytes(x.db@[1]);
    let p2 = u64_le_bytes(x.db@[2]);
    let p3 = u64_le_bytes(x.db@[3]);
    let p4 = u64_le_bytes(x.dr6);
    let p5 = u64_le_bytes(x.dr7);
    let p6 = u64_le_bytes(x.flags);
    let p7 = u64_le_bytes(x.reserved@[0]);
    let t1 = p0 + p1;
    let t2 = t1 + p2;
    let t3 = t2 + p3;
    let t4 = t3 + p4;
    let t5 = t4 + p5;
    let t6 = t5 + p6;
    let t7 = t6 + p7;
    lemma_kvm_debugregs_field_images_seg0(x);
    lemma_concat_parts(t6, p7);
    lemma_subrange_subrange(x.spec_bytes(), 0, 64, 0, 56);
    lemma_subrange_subrange(x.spec_bytes(), 0, 64, 56, 64);
    lemma_concat_parts(t5, p6);
    lemma_subrange_subrange(x.spec_bytes(), 0, 56, 0, 48);
    lemma_subrange_subrange(x.spec_bytes(), 0, 56, 48, 56);
    lemma_concat_parts(t4, p5);
    lemma_subrange_subrange(x.spec_bytes(), 0, 48, 0, 40);
    lemma_subrange_subrange(x.spec_bytes(), 0, 48, 40, 48);
    lemma_concat_parts(t3, p4);
    lemma_subrange_subrange(x.spec_bytes(), 0, 40, 0, 32);
    lemma_subrange_subrange(x.spec_bytes(), 0, 40, 32, 40);
    lemma_concat_parts(t2, p3);
    lemma_subrange_subrange(x.spec_bytes(), 0, 32, 0, 24);
    lemma_subrange_subrange(x.spec_bytes(), 0, 32, 24, 32);
    lemma_concat_parts(t1, p2);
    lemma_subrange_subrange(x.spec_bytes(), 0, 24, 0, 16);
    lemma_subrange_subrange(x.spec_bytes(), 0, 24, 16, 24);
    lemma_concat_parts(p0, p1);
    lemma_subrange_subrange(x.spec_bytes(), 0, 16, 0, 8);
    lemma_subrange_subrange(x.spec_bytes(), 0, 16, 8, 16);
}

/// Each field's image stands at its kernel offset inside the image of
/// a `kvm_debugregs`.
proof fn lemma_kvm_debugregs_field_images(x: kvm_debugregs)
    ensures
        x.spec_bytes().len() == KVM_DEBUGREGS_SIZE,
        x.spec_bytes().subrange(0, 8) == u64_le_bytes(x.db@[0]),
        x.spec_bytes().subrange(8, 16) == u64_le_bytes(x.db@[1]),
        x.spec_bytes().subrange(16, 24) == u64_le_bytes(x.db@[2]),
        x.spec_bytes().subrange(24, 32) == u64_le_bytes(x.db@[3]),
        x.spec_bytes().subrange(32, 40) == u64_le_bytes(x.dr6),
        x.spec_bytes().subrange(40, 48) == u64_le_bytes(x.dr7),
        x.spec_bytes().subrange(48, 56) == u64_le_bytes(x.flags),
        x.spec_bytes().subrange(56, 64) == u64_le_bytes(x.reserved@[0]),
        x.spec_bytes().subrange(64, 72) == u64_le_bytes(x.reserved@[1]),
        x.spec_bytes().subrange(72, 80) == u64_le_bytes(x.reserved@[2]),
        x.spec_bytes().subrange(80, 88) == u64_le_bytes(x.reserved@[3]),
        x.spec_bytes().subrange(88, 96) == u64_le_bytes(x.reserved@[4]),
        x.spec_bytes().subrange(96, 104) == u64_le_bytes(x.reserved@[5]),
        x.spec_bytes().subrange(104, 112) == u64_le_bytes(x.reserved@[6]),
        x.spec_bytes().subrange(112, 120) == u64_le_bytes(x.reserved@[7]),
        x.spec_bytes().subrange(120, 128) == u64_le_bytes(x.reserved@[8]),
{
    lemma_kvm_debugregs_field_images_seg0(x);
    lemma_kvm_debugregs_field_images_seg1(x);
}

/// The byte image determines the structure: reading an image back
/// always yields the one value that produced it.
#[verifier::rlimit(100)]
#[verifier::spinoff_prover]
pub proof fn lemma_kvm_debugregs_image_injective(a: kvm_debugregs, b: kvm_debugregs)
    requires
        a.spec_bytes() == b.spec_bytes(),
    ensures
        a == b,
{
    lemma_kvm_debugregs_field_images(a);
    lemma_kvm_debugregs_field_images(b);
    lemma_u64_le_roundtrip(a.db@[0]);
    lemma_u64_le_roundtrip(b.db@[0]);
    lemma_u64_le_roundtrip(a.db@[1]);
    lemma_u64_le_roundtrip(b.db@[1]);
    lemma_u64_le_roundtrip(a.db@[2]);
    lemma_u64_le_roundtrip(b.db@[2]);
    lemma_u64_le_roundtrip(a.db@[3]);
    lemma_u64_le_roundtrip(b.db@[3]);
    assert(a.db@ =~= b.db@);
    lemma_u64_le_roundtrip(a.dr6);
    lemma_u64_le_roundtrip(b.dr6);
    lemma_u64_le_roundtrip(a.dr7);
    lemma_u64_le_roundtrip(b.dr7);
    lemma_u64_le_roundtrip(a.flags);
    lemma_u64_le_roundtrip(b.flags);
    lemma_u64_le_roundtrip(a.reserved@[0]);
    lemma_u64_le_roundtrip(b.reserved@[0]);
    lemma_u64_le_roundtrip(a.reserved@[1]);
    lemma_u64_le_roundtrip(b.reserved@[1]);
    lemma_u64_le_roundtrip(a.reserved@[2]);
    lemma_u64_le_roundtrip(b.reserved@[2]);
    lemma_u64_le_roundtrip(a.reserved@[3]);
    lemma_u64_le_roundtrip(b.reserved@[3]);
    lemma_u64_le_roundtrip(a.reserved@[4]);
    lemma_u64_le_roundtrip(b.reserved@[4]);
    lemma_u64_le_roundtrip(a.reserved@[5]);
    lemma_u64_le_roundtrip(b.reserved@[5]);
    lemma_u64_le_roundtrip(a.reserved@[6]);
    lemma_u64_le_roundtrip(b.reserved@[6]);
    lemma_u64_le_roundtrip(a.reserved@[7]);
    lemma_u64_le_roundtrip(b.reserved@[7]);
    lemma_u64_le_roundtrip(a.reserved@[8]);
    lemma_u64_le_roundtrip(b.reserved@[8]);
    assert(a.reserved@ =~= b.reserved@);
    assert(a =~= b);
}

/// A `kvm_debugregs` whose fields are all zero has an all-zero byte image,
/// the image of a zeroed ioctl argument buffer.
pub proof fn lemma_kvm_debugregs_zero_image(x: kvm_debugregs)
    requires
        x.is_zeroed(),
    ensures
        x.spec_bytes() == zero_bytes(KVM_DEBUGREGS_SIZE as int),
{
    lemma_le_bytes_zero();
    lemma_zero_bytes_split(8, 16);
    lemma_zero_bytes_split(16, 24);
    lemma_zero_bytes_split(24, 32);
    lemma_zero_bytes_split(32, 40);
    lemma_zero_bytes_split(40, 48);
    lemma_zero_bytes_split(48, 56);
    lemma_zero_bytes_split(56, 64);
    lemma_zero_bytes_split(64, 72);
    lemma_zero_bytes_split(72, 80);
    lemma_zero_bytes_split(80, 88);
    lemma_zero_bytes_split(88, 96);
    lemma_zero_bytes_split(96, 104);
    lemma_zero_bytes_split(104, 112);
    lemma_zero_bytes_split(112, 120);
    lemma_zero_bytes_split(120, 128);
    assert(x.spec_bytes() == zero_bytes(KVM_DEBUGREGS_SIZE as int));
}

/// Byte size of the `kvm_xcr` kernel image.
pub const KVM_XCR_SIZE: usize = 16;

/// One extended control register and its value.
#[derive(Clone, Copy, Debug, PartialEq)]
#[verifier::ext_equal]
pub struct kvm_xcr {
    pub xcr: u32,
    pub reserved: u32,
    pub value: u64,
}

impl kvm_xcr {
    /// The 16-byte kernel image of `self`: every field little-endian
    /// at its kernel offset.
    pub open spec fn spec_bytes(self) -> Seq<u8> {
        u32_le_bytes(self.xcr) + u32_le_bytes(self.reserved) + u64_le_bytes(self.value)
    }

    /// Every field of `self` holds zero.
    pub open spec fn is_zeroed(self) -> bool {
        self.xcr == 0 && self.reserved == 0 && self.value == 0
    }

    /// Appends the image of `self` to `out`.
    pub fn push_image(&self, out: &mut Vec<u8>)
        ensures
            final(out)@ == old(out)@ + self.spec_bytes(),
    {
        let ghost base: Seq<u8> = out@;
        push_u32_le(out, self.xcr);
        let ghost mut acc: Seq<u8> = u32_le_bytes(self.xcr);
        push_u32_le(out, self.reserved);
        proof {
            lemma_concat_assoc(base, acc, u32_le_bytes(self.reserved));
            acc = acc + (u32_le_bytes(self.reserved));
        }
        push_u64_le(out, self.value);
        proof {
            lemma_concat_assoc(base, acc, u64_le_bytes(self.value));
            acc = acc + (u64_le_bytes(self.value));
        }
        proof {
            assert(out@ == base + acc);
            assert(acc == self.spec_bytes());
        }
    }

    /// The image of `self` as a fresh buffer.
    pub fn to_bytes(&self) -> (out: Vec<u8>)
        ensures
            out@ == self.spec_bytes(),
            out@.len() == KVM_XCR_SIZE,
    {
        let mut out: Vec<u8> = Vec::new();
        self.push_image(&mut out);
        proof {
            lemma_concat_empty_left(self.spec_bytes());
            lemma_kvm_xcr_bytes_len(*self);
        }
        out
    }

    /// Reads the structure whose image starts at offset `off` of `buf`.
    pub fn read_at(buf: &[u8], off: usize) -> (v: Self)
        requires
            off + KVM_XCR_SIZE <= buf@.len(),
        ensures
            v.spec_bytes() == buf@.subrange(off as int, off as int + KVM_XCR_SIZE),
    {
        let n: usize = buf.len();
        proof {
            assert(off + KVM_XCR_SIZE <= n);
        }
        let v = kvm_xcr {
            xcr: read_u32_le(buf, off),
            reserved: read_u32_le(buf, off + 4),
            value: read_u64_le(buf, off + 8),
        };
        proof {
            lemma_kvm_xcr_read_at(v, buf@, off as int);
        }
        v
    }

    /// Reads a structure image from the start of `buf`, failing when the
    /// buffer is too short to hold one.
    pub fn from_bytes(buf: &[u8]) -> (r: Result<Self, CodecError>)
        ensures
            buf@.len() < KVM_XCR_SIZE ==> r == Err::<kvm_xcr, CodecError>(
                CodecError::IncompleteBuffer,
            ),
            buf@.len() >= KVM_XCR_SIZE ==> (r matches Ok(v) && v.spec_bytes() == buf@.subrange(
                0,
                KVM_XCR_SIZE as int,
            )),
    {
        if buf.len() < KVM_XCR_SIZE {
            Err(CodecError::IncompleteBuffer)
        } else {
            Ok(Self::read_at(buf, 0))
        }
    }
}

impl Default for kvm_xcr {
    /// Every field zero: the zeroed ioctl argument convention.
    fn default() -> (r: Self)
        ensures
            r.is_zeroed(),
    {
        let r = kvm_xcr {
            xcr: 0,
            reserved: 0,
            value: 0,
        };
        r
    }
}

/// The image of a `kvm_xcr` is exactly 16 bytes.
pub proof fn lemma_kvm_xcr_bytes_len(x: kvm_xcr)
    ensures
        x.spec_bytes().len() == KVM_XCR_SIZE,
{
}

/// A `kvm_xcr` whose fields were decoded from a buffer has that
/// buffer segment as its image.
#[verifier::rlimit(100)]
#[verifier::spinoff_prover]
proof fn lemma_kvm_xcr_read_at(v: kvm_xcr, b: Seq<u8>, off: int)
    requires
        0 <= off,
        off + KVM_XCR_SIZE <= b.len(),
        v.xcr == u32_of_le_bytes(b.subrange(off + 0, off + 4)),
        v.reserved == u32_of_le_bytes(b.subrange(off + 4, off + 8)),
        v.value == u64_of_le_bytes(b.subrange(off + 8, off + 16)),
    ensures
        v.spec_bytes() == b.subrange(off, off + KVM_XCR_SIZE),
{
    let s = b.subrange(off, off + KVM_XCR_SIZE as int);
    lemma_u32_le_bytes_of(b.subrange(off + 0, off + 4));
    lemma_u32_le_bytes_of(b.subrange(off + 4, off + 8));
    lemma_u64_le_bytes_of(b.subrange(off + 8, off + 16));
    lemma_subrange_subrange(b, off, off + KVM_XCR_SIZE as int, 0, 4);
    lemma_subrange_subrange(b, off, off + KVM_XCR_SIZE as int, 4, 8);
    lemma_subrange_subrange(b, off, off + KVM_XCR_SIZE as int, 8, 16);
    lemma_seq_parts(s, 4, 8);
    lemma_seq_parts(s, 8, 16);
    assert(s.subrange(0, KVM_XCR_SIZE as int) =~= s);
    assert(v.spec_bytes() == s);
}

/// Field images of a `kvm_xcr`, covering one run of fields.
#[verifier::rlimit(100)]
#[verifier::spinoff_prover]
proof fn lemma_kvm_xcr_field_images_seg0(x: kvm_xcr)
    ensures
        x.spec_bytes().len() == KVM_XCR_SIZE,
        x.spec_bytes().subrange(8, 16) == u64_le_bytes(x.value),
        x.spec_bytes().subrange(4, 8) == u32_le_bytes(x.reserved),
        x.spec_bytes().subrange(0, 4) == u32_le_bytes(x.xcr),
{
    lemma_kvm_xcr_bytes_len(x);
    let p0 = u32_le_bytes(x.xcr);
    let p1 = u32_le_bytes(x.reserved);
    let p2 = u64_le_bytes(x.value);
    let t1 = p0 + p1;
    let t2 = t1 + p2;
    assert(x.spec_bytes() == t2);
    lemma_concat_parts(t1, p2);
    lemma_concat_parts(p0, p1);
    lemma_subrange_subrange(x.spec_bytes(), 0, 8, 0, 4);
    lemma_subrange_subrange(x.spec_bytes(), 0, 8, 4, 8);
}

/// Each field's image stands at its kernel offset inside the image of
/// a `kvm_xcr`.
proof fn lemma_kvm_xcr_field_images(x: kvm_xcr)
    ensures
        x.spec_bytes().len() == KVM_XCR_SIZE,
        x.spec_bytes().subrange(0, 4) == u32_le_bytes(x.xcr),
        x.spec_bytes().subrange(4, 8) == u32_le_bytes(x.reserved),
        x.spec_bytes().subrange(8, 16) == u64_le_bytes(x.value),
{
    lemma_kvm_xcr_field_images_seg0(x);
}

/// The byte image determines the structure: reading an image back
/// always yields the one value that produced it.
#[verifier::rlimit(100)]
#[verifier::spinoff_prover]
pub proof fn lemma_kvm_xcr_image_injective(a: kvm_xcr, b: kvm_xcr)
    requires
        a.spec_bytes() == b.spec_bytes(),
    ensures
        a == b,
{
    lemma_kvm_xcr_field_images(a);
    lemma_kvm_xcr_field_images(b);
    lemma_u32_le_roundtrip(a.xcr);
    lemma_u32_le_roundtrip(b.xcr);
    lemma_u32_le_roundtrip(a.reserved);
    lemma_u32_le_roundtrip(b.reserved);
    lemma_u64_le_roundtrip(a.value);
    lemma_u64_le_roundtrip(b.value);
    assert(a =~= b);
}

/// A `kvm_xcr` whose fields are all zero has an all-zero byte image,
/// the image of a zeroed ioctl argument buffer.
pub proof fn lemma_kvm_xcr_zero_image(x: kvm_xcr)
    requires
        x.is_zeroed(),
    ensures
        x.spec_bytes() == zero_bytes(KVM_XCR_SIZE as int),
{
    lemma_le_bytes_zero();
    lemma_zero_bytes_split(4, 8);
    lemma_zero_bytes_split(8, 16);
    assert(x.spec_bytes() == zero_bytes(KVM_XCR_SIZE as int));
}

/// Byte size of the `kvm_xcrs` kernel image.
pub const KVM_XCRS_SIZE: usize = 392;

/// The extended control registers of a vCPU.
#[derive(Clone, Copy, Debug, PartialEq)]
#[verifier::ext_equal]
pub struct kvm_xcrs {
    pub nr_xcrs: u32,
    pub flags: u32,
    pub xcrs: [kvm_xcr; 16],
    pub padding: [u64; 16],
}

impl kvm_xcrs {
    /// The 392-byte kernel image of `self`: every field little-endian
    /// at its kernel offset.
    pub open spec fn spec_bytes(self) -> Seq<u8> {
        u32_le_bytes(self.nr_xcrs) + u32_le_bytes(self.flags) + self.xcrs@[0].spec_bytes() + self.xcrs@[1].spec_bytes() + self.xcrs@[2].spec_bytes() + self.xcrs@[3].spec_bytes() + self.xcrs@[4].spec_bytes() + self.xcrs@[5].spec_bytes() + self.xcrs@[6].spec_bytes() + self.xcrs@[7].spec_bytes() + self.xcrs@[8].spec_bytes() + self.xcrs@[9].spec_bytes() + self.xcrs@[10].spec_bytes() + self.xcrs@[11].spec_bytes() + self.xcrs@[12].spec_bytes() + self.xcrs@[13].spec_bytes() + self.xcrs@[14].spec_bytes() + self.xcrs@[15].spec_bytes() + u64_le_bytes(self.padding@[0]) + u64_le_bytes(self.padding@[1]) + u64_le_bytes(self.padding@[2]) + u64_le_bytes(self.padding@[3]) + u64_le_bytes(self.padding@[4]) + u64_le_bytes(self.padding@[5]) + u64_le_bytes(self.padding@[6]) + u64_le_bytes(self.padding@[7]) + u64_le_bytes(self.padding@[8]) + u64_le_bytes(self.padding@[9]) + u64_le_bytes(self.padding@[10]) + u64_le_bytes(self.padding@[11]) + u64_le_bytes(self.padding@[12]) + u64_le_bytes(self.padding@[13]) + u64_le_bytes(self.padding@[14]) + u64_le_bytes(self.padding@[15])
    }

    /// Every field of `self` holds zero.
    pub open spec fn is_zeroed(self) -> bool {
        self.nr_xcrs == 0 && self.flags == 0 && (forall|k: int| 0 <= k < 16 ==> #[trigger] self.xcrs@[k].is_zeroed()) && self.padding@ == Seq::new(16, |i: int| 0u64)
    }

    /// Appends the image of `self` to `out`.
    pub fn push_image(&self, out: &mut Vec<u8>)
        ensures
            final(out)@ == old(out)@ + self.spec_bytes(),
    {
        let ghost base: Seq<u8> = out@;
        push_u32_le(out, self.nr_xcrs);
        let ghost mut acc: Seq<u8> = u32_le_bytes(self.nr_xcrs);
        push_u32_le(out, self.flags);
        proof {
            lemma_concat_assoc(base, acc, u32_le_bytes(self.flags));
            acc = acc + (u32_le_bytes(self.flags));
        }
        self.xcrs[0].push_image(out);
        proof {
            lemma_concat_assoc(base, acc, self.xcrs@[0].spec_bytes());
            acc = acc + (self.xcrs@[0].spec_bytes());
        }
        self.xcrs[1].push_image(out);
        proof {
            lemma_concat_assoc(base, acc, self.xcrs@[1].spec_bytes());
            acc = acc + (self.xcrs@[1].spec_bytes());
        }
        self.xcrs[2].push_image(out);
        proof {
            lemma_concat_assoc(base, acc, self.xcrs@[2].spec_bytes());
            acc = acc + (self.xcrs@[2].spec_bytes());
        }
        self.xcrs[3].push_image(out);
        proof {
            lemma_concat_assoc(base, acc, self.xcrs@[3].spec_bytes());
            acc = acc + (self.xcrs@[3].spec_bytes());
        }
        self.xcrs[4].push_image(out);
        proof {
            lemma_concat_assoc(base, acc, self.xcrs@[4].spec_bytes());
            acc = acc + (self.xcrs@[4].spec_bytes());
        }
        self.xcrs[5].push_image(out);
        proof {
            lemma_concat_assoc(base, acc, self.xcrs@[5].spec_bytes());
            acc = acc + (self.xcrs@[5].spec_bytes());
        }
        self.xcrs[6].push_image(out);
        proof {
            lemma_concat_assoc(base, acc, self.xcrs@[6].spec_bytes());
            acc = acc + (self.xcrs@[6].spec_bytes());
        }
        self.xcrs[7].push_image(out);
        proof {
            lemma_concat_assoc(base, acc, self.xcrs@[7].spec_bytes());
            acc = acc + (self.xcrs@[7].spec_bytes());
        }
        self.xcrs[8].push_image(out);
        proof {
            lemma_concat_assoc(base, acc, self.xcrs@[8].spec_bytes());
            acc = acc + (self.xcrs@[8].spec_bytes());
        }
        self.xcrs[9].push_image(out);
        proof {
            lemma_concat_assoc(base, acc, self.xcrs@[9].spec_bytes());
            acc = acc + (self.xcrs@[9].spec_bytes());
        }
        self.xcrs[10].push_image(out);
        proof {
            lemma_concat_assoc(base, acc, self.xcrs@[10].spec_bytes());
            acc = acc + (self.xcrs@[10].spec_bytes());
        }
        self.xcrs[11].push_image(out);
        proof {
            lemma_concat_assoc(base, acc, self.xcrs@[11].spec_bytes());
            acc = acc + (self.xcrs@[11].spec_bytes());
        }
        self.xcrs[12].push_image(out);
        proof {
            lemma_concat_assoc(base, acc, self.xcrs@[12].spec_bytes());
            acc = acc + (self.xcrs@[12].spec_bytes());
        }
        self.xcrs[13].push_image(out);
        proof {
            lemma_concat_assoc(base, acc, self.xcrs@[13].spec_bytes());
            acc = acc + (self.xcrs@[13].spec_bytes());
        }
        self.xcrs[14].push_image(out);
        proof {
            lemma_concat_assoc(base, acc, self.xcrs@[14].spec_bytes());
            acc = acc + (self.xcrs@[14].spec_bytes());
        }
        self.xcrs[15].push_image(out);
        proof {
            lemma_concat_assoc(base, acc, self.xcrs@[15].spec_bytes());
            acc = acc + (self.xcrs@[15].spec_bytes());
        }
        push_u64_le(out, self.padding[0]);
        proof {
            lemma_concat_assoc(base, acc, u64_le_bytes(self.padding@[0]));
            acc = acc + (u64_le_bytes(self.padding@[0]));
        }
        push_u64_le(out, self.padding[1]);
        proof {
            lemma_concat_assoc(base, acc, u64_le_bytes(self.padding@[1]));
            acc = acc + (u64_le_bytes(self.padding@[1]));
        }
        push_u64_le(out, self.padding[2]);
        proof {
            lemma_concat_assoc(base, acc, u64_le_bytes(self.padding@[2]));
            acc = acc + (u64_le_bytes(self.padding@[2]));
        }
        push_u64_le(out, self.padding[3]);
        proof {
            lemma_concat_assoc(base, acc, u64_le_bytes(self.padding@[3]));
            acc = acc + (u64_le_bytes(self.padding@[3]));
        }
        push_u64_le(out, self.padding[4]);
        proof {
            lemma_concat_assoc(base, acc, u64_le_bytes(self.padding@[4]));
            acc = acc + (u64_le_bytes(self.padding@[4]));
        }
        push_u64_le(out, self.padding[5]);
        proof {
            lemma_concat_assoc(base, acc, u64_le_bytes(self.padding@[5]));
            acc = acc + (u64_le_bytes(self.padding@[5]));
        }
        push_u64_le(out, self.padding[6]);
        proof {
            lemma_concat_assoc(base, acc, u64_le_bytes(self.padding@[6]));
            acc = acc + (u64_le_bytes(self.padding@[6]));
        }
        push_u64_le(out, self.padding[7]);
        proof {
            lemma_concat_assoc(base, acc, u64_le_bytes(self.padding@[7]));
            acc = acc + (u64_le_bytes(self.padding@[7]));
        }
        push_u64_le(out, self.padding[8]);
        proof {
            lemma_concat_assoc(base, acc, u64_le_bytes(self.padding@[8]));
            acc = acc + (u64_le_bytes(self.padding@[8]));
        }
        push_u64_le(out, self.padding[9]);
        proof {
            lemma_concat_assoc(base, acc, u64_le_bytes(self.padding@[9]));
            acc = acc + (u64_le_bytes(self.padding@[9]));
        }
        push_u64_le(out, self.padding[10]);
        proof {
            lemma_concat_assoc(base, acc, u64_le_bytes(self.padding@[10]));
            acc = acc + (u64_le_bytes(self.padding@[10]));
        }
        push_u64_le(out, self.padding[11]);
        proof {
            lemma_concat_assoc(base, acc, u64_le_bytes(self.padding@[11]));
            acc = acc + (u64_le_bytes(self.padding@[11]));
        }
        push_u64_le(out, self.padding[12]);
        proof {
            lemma_concat_assoc(base, acc, u64_le_bytes(self.padding@[12]));
            acc = acc + (u64_le_bytes(self.padding@[12]));
        }
        push_u64_le(out, self.padding[13]);
        proof {
            lemma_concat_assoc(base, acc, u64_le_bytes(self.padding@[13]));
            acc = acc + (u64_le_bytes(self.padding@[13]));
        }
        push_u64_le(out, self.padding[14]);
        proof {
            lemma_concat_assoc(base, acc, u64_le_bytes(self.padding@[14]));
            acc = acc + (u64_le_bytes(self.padding@[14]));
        }
        push_u64_le(out, self.padding[15]);
        proof {
            lemma_concat_assoc(base, acc, u64_le_bytes(self.padding@[15]));
            acc = acc + (u64_le_bytes(self.padding@[15]));
        }
        proof {
            assert(out@ == base + acc);
            assert(acc == self.spec_bytes());
        }
    }

    /// The image of `self` as a fresh buffer.
    pub fn to_bytes(&self) -> (out: Vec<u8>)
        ensures
            out@ == self.spec_bytes(),
            out@.len() == KVM_XCRS_SIZE,
    {
        let mut out: Vec<u8> = Vec::new();
        self.push_image(&mut out);
        proof {
            lemma_concat_empty_left(self.spec_bytes());
            lemma_kvm_xcrs_bytes_len(*self);
        }
        out
    }

    /// Reads the structure whose image starts at offset `off` of `buf`.
    pub fn read_at(buf: &[u8], off: usize) -> (v: Self)
        requires
            off + KVM_XCRS_SIZE <= buf@.len(),
        ensures
            v.spec_bytes() == buf@.subrange(off as int, off as int + KVM_XCRS_SIZE),
    {
        let n: usize = buf.len();
        proof {
            assert(off + KVM_XCRS_SIZE <= n);
        }
        let v = kvm_xcrs {
            nr_xcrs: read_u32_le(buf, off),
            flags: read_u32_le(buf, off + 4),
            xcrs: [
                kvm_xcr::read_at(buf, off + 8),
                kvm_xcr::read_at(buf, off + 24),
                kvm_xcr::read_at(buf, off + 40),
                kvm_xcr::read_at(buf, off + 56),
                kvm_xcr::read_at(buf, off + 72),
                kvm_xcr::read_at(buf, off + 88),
                kvm_xcr::read_at(buf, off + 104),
                kvm_xcr::read_at(buf, off + 120),
                kvm_xcr::read_at(buf, off + 136),
                kvm_xcr::read_at(buf, off + 152),
                kvm_xcr::read_at(buf, off + 168),
                kvm_xcr::read_at(buf, off + 184),
                kvm_xcr::read_at(buf, off + 200),
                kvm_xcr::read_at(buf, off + 216),
                kvm_xcr::read_at(buf, off + 232),
                kvm_xcr::read_at(buf, off + 248),
            ],
            padding: [read_u64_le(buf, off + 264), read_u64_le(buf, off + 272), read_u64_le(buf, off + 280), read_u64_le(buf, off + 288), read_u64_le(buf, off + 296), read_u64_le(buf, off + 304), read_u64_le(buf, off + 312), read_u64_le(buf, off + 320), read_u64_le(buf, off + 328), read_u64_le(buf, off + 336), read_u64_le(buf, off + 344), read_u64_le(buf, off + 352), read_u64_le(buf, off + 360), read_u64_le(buf, off + 368), read_u64_le(buf, off + 376), read_u64_le(buf, off + 384)],
        };
        proof {
            lemma_kvm_xcrs_read_at(v, buf@, off as int);
        }
        v
    }

    /// Reads a structure image from the start of `buf`, failing when the
    /// buffer is too short to hold one.
    pub fn from_bytes(buf: &[u8]) -> (r: Result<Self, CodecError>)
        ensures
            buf@.len() < KVM_XCRS_SIZE ==> r == Err::<kvm_xcrs, CodecError>(
                CodecError::IncompleteBuffer,
            ),
            buf@.len() >= KVM_XCRS_SIZE ==> (r matches Ok(v) && v.spec_bytes() == buf@.subrange(
                0,
                KVM_XCRS_SIZE as int,
            )),
    {
        if buf.len() < KVM_XCRS_SIZE {
            Err(CodecError::IncompleteBuffer)
        } else {
            Ok(Self::read_at(buf, 0))
        }
    }
}

impl Default for kvm_xcrs {
    /// Every field zero: the zeroed ioctl argument convention.
    fn default() -> (r: Self)
        ensures
            r.is_zeroed(),
    {
        let xcrs_elem = kvm_xcr::default();
        let r = kvm_xcrs {
            nr_xcrs: 0,
            flags: 0,
            xcrs: vstd::array::array_fill_for_copy_types::<kvm_xcr, 16>(xcrs_elem),
            padding: vstd::array::array_fill_for_copy_types::<u64, 16>(0u64),
        };
        proof {
            assert(forall|k: int| 0 <= k < 16 ==> #[trigger] r.xcrs@[k].is_zeroed());
            assert(r.padding@ =~= Seq::new(16, |i: int| 0u64));
        }
        r
    }
}

/// The image of a `kvm_xcrs` is exactly 392 bytes.
pub proof fn lemma_kvm_xcrs_bytes_len(x: kvm_xcrs)
    ensures
        x.spec_bytes().len() == KVM_XCRS_SIZE,
{
    lemma_kvm_xcr_bytes_len(x.xcrs@[0]);
    lemma_kvm_xcr_bytes_len(x.xcrs@[1]);
    lemma_kvm_xcr_bytes_len(x.xcrs@[2]);
    lemma_kvm_xcr_bytes_len(x.xcrs@[3]);
    lemma_kvm_xcr_bytes_len(x.xcrs@[4]);
    lemma_kvm_xcr_bytes_len(x.xcrs@[5]);
    lemma_kvm_xcr_bytes_len(x.xcrs@[6]);
    lemma_kvm_xcr_bytes_len(x.xcrs@[7]);
    lemma_kvm_xcr_bytes_len(x.xcrs@[8]);
    lemma_kvm_xcr_bytes_len(x.xcrs@[9]);
    lemma_kvm_xcr_bytes_len(x.xcrs@[10]);
    lemma_kvm_xcr_bytes_len(x.xcrs@[11]);
    lemma_kvm_xcr_bytes_len(x.xcrs@[12]);
    lemma_kvm_xcr_bytes_len(x.xcrs@[13]);
    lemma_kvm_xcr_bytes_len(x.xcrs@[14]);
    lemma_kvm_xcr_bytes_len(x.xcrs@[15]);
}

/// A `kvm_xcrs` whose fields were decoded from a buffer has that
/// buffer segment as its image.
#[verifier::rlimit(100)]
#[verifier::spinoff_prover]
proof fn lemma_kvm_xcrs_read_at(v: kvm_xcrs, b: Seq<u8>, off: int)
    requires
        0 <= off,
        off + KVM_XCRS_SIZE <= b.len(),
        v.nr_xcrs == u32_of_le_bytes(b.subrange(off + 0, off + 4)),
        v.flags == u32_of_le_bytes(b.subrange(off + 4, off + 8)),
        v.xcrs@[0].spec_bytes() == b.subrange(off + 8, off + 24),
        v.xcrs@[1].spec_bytes() == b.subrange(off + 24, off + 40),
        v.xcrs@[2].spec_bytes() == b.subrange(off + 40, off + 56),
        v.xcrs@[3].spec_bytes() == b.subrange(off + 56, off + 72),
        v.xcrs@[4].spec_bytes() == b.subrange(off + 72, off + 88),
        v.xcrs@[5].spec_bytes() == b.subrange(off + 88, off + 104),
        v.xcrs@[6].spec_bytes() == b.subrange(off + 104, off + 120),
        v.xcrs@[7].spec_bytes() == b.subrange(off + 120, off + 136),
        v.xcrs@[8].spec_bytes() == b.subrange(off + 136, off + 152),
        v.xcrs@[9].spec_bytes() == b.subrange(off + 152, off + 168),
        v.xcrs@[10].spec_bytes() == b.subrange(off + 168, off + 184),
        v.xcrs@[11].spec_bytes() == b.subrange(off + 184, off + 200),
        v.xcrs@[12].spec_bytes() == b.subrange(off + 200, off + 216),
        v.xcrs@[13].spec_bytes() == b.subrange(off + 216, off + 232),
        v.xcrs@[14].spec_bytes() == b.subrange(off + 232, off + 248),
        v.xcrs@[15].spec_bytes() == b.subrange(off + 248, off + 264),
        v.padding@[0] == u64_of_le_bytes(b.subrange(off + 264, off + 272)),
        v.padding@[1] == u64_of_le_bytes(b.subrange(off + 272, off + 280)),
        v.padding@[2] == u64_of_le_bytes(b.subrange(off + 280, off + 288)),
        v.padding@[3] == u64_of_le_bytes(b.subrange(off + 288, off + 296)),
        v.padding@[4] == u64_of_le_bytes(b.subrange(off + 296, off + 304)),
        v.padding@[5] == u64_of_le_bytes(b.subrange(off + 304, off + 312)),
        v.padding@[6] == u64_of_le_bytes(b.subrange(off + 312, off + 320)),
        v.padding@[7] == u64_of_le_bytes(b.subrange(off + 320, off + 328)),
        v.padding@[8] == u64_of_le_bytes(b.subrange(off + 328, off + 336)),
        v.padding@[9] == u64_of_le_bytes(b.subrange(off + 336, off + 344)),
        v.padding@[10] == u64_of_le_bytes(b.subrange(off + 344, off + 352)),
        v.padding@[11] == u64_of_le_bytes(b.subrange(off + 352, off + 360)),
        v.padding@[12] == u64_of_le_bytes(b.subrange(off + 360, off + 368)),
        v.padding@[13] == u64_of_le_bytes(b.subrange(off + 368, off + 376)),
        v.padding@[14] == u64_of_le_bytes(b.subrange(off + 376, off + 384)),
        v.padding@[15] == u64_of_le_bytes(b.subrange(off + 384, off + 392)),
    ensures
        v.spec_bytes() == b.subrange(off, off + KVM_XCRS_SIZE),
{
    let s = b.subrange(off, off + KVM_XCRS_SIZE as int);
    lemma_u32_le_bytes_of(b.subrange(off + 0, off + 4));
    lemma_u32_le_bytes_of(b.subrange(off + 4, off + 8));
    lemma_u64_le_bytes_of(b.subrange(off + 264, off + 272));
    lemma_u64_le_bytes_of(b.subrange(off + 272, off + 280));
    lemma_u64_le_bytes_of(b.subrange(off + 280, off + 288));
    lemma_u64_le_bytes_of(b.subrange(off + 288, off + 296));
    lemma_u64_le_bytes_of(b.subrange(off + 296, off + 304));
    lemma_u64_le_bytes_of(b.subrange(off + 304, off + 312));
    lemma_u64_le_bytes_of(b.subrange(off + 312, off + 320));
    lemma_u64_le_bytes_of(b.subrange(off + 320, off + 328));
    lemma_u64_le_bytes_of(b.subrange(off + 328, off + 336));
    lemma_u64_le_bytes_of(b.subrange(off + 336, off + 344));
    lemma_u64_le_bytes_of(b.subrange(off + 344, off + 352));
    lemma_u64_le_bytes_of(b.subrange(off + 352, off + 360));
    lemma_u64_le_bytes_of(b.subrange(off + 360, off + 368));
    lemma_u64_le_bytes_of(b.subrange(off + 368, off + 376));
    lemma_u64_le_bytes_of(b.subrange(off + 376, off + 384));
    lemma_u64_le_bytes_of(b.subrange(off + 384, off + 392));
    lemma_subrange_subrange(b, off, off + KVM_XCRS_SIZE as int, 0, 4);
    lemma_subrange_subrange(b, off, off + KVM_XCRS_SIZE as int, 4, 8);
    lemma_subrange_subrange(b, off, off + KVM_XCRS_SIZE as int, 8, 24);
    lemma_subrange_subrange(b, off, off + KVM_XCRS_SIZE as int, 24, 40);
    lemma_subrange_subrange(b, off, off + KVM_XCRS_SIZE as int, 40, 56);
    lemma_subrange_subrange(b, off, off + KVM_XCRS_SIZE as int, 56, 72);
    lemma_subrange_subrange(b, off, off + KVM_XCRS_SIZE as int, 72, 88);
    lemma_subrange_subrange(b, off, off + KVM_XCRS_SIZE as int, 88, 104);
    lemma_subrange_subrange(b, off, off + KVM_XCRS_SIZE as int, 104, 120);
    lemma_subrange_subrange(b, off, off + KVM_XCRS_SIZE as int, 120, 136);
    lemma_subrange_subrange(b, off, off + KVM_XCRS_SIZE as int, 136, 152);
    lemma_subrange_subrange(b, off, off + KVM_XCRS_SIZE as int, 152, 168);
    lemma_subrange_subrange(b, off, off + KVM_XCRS_SIZE as int, 168, 184);
    lemma_subrange_subrange(b, off, off + KVM_XCRS_SIZE as int, 184, 200);
    lemma_subrange_subrange(b, off, off + KVM_XCRS_SIZE as int, 200, 216);
    lemma_subrange_subrange(b, off, off + KVM_XCRS_SIZE as int, 216, 232);
    lemma_subrange_subrange(b, off, off + KVM_XCRS_SIZE as int, 232, 248);
    lemma_subrange_subrange(b, off, off + KVM_XCRS_SIZE as int, 248, 264);
    lemma_subrange_subrange(b, off, off + KVM_XCRS_SIZE as int, 264, 272);
    lemma_subrange_subrange(b, off, off + KVM_XCRS_SIZE as int, 272, 280);
    lemma_subrange_subrange(b, off, off + KVM_XCRS_SIZE as int, 280, 288);
    lemma_subrange_subrange(b, off, off + KVM_XCRS_SIZE as int, 288, 296);
    lemma_subrange_subrange(b, off, off + KVM_XCRS_SIZE as int, 296, 304);
    lemma_subrange_subrange(b, off, off + KVM_XCRS_SIZE as int, 304, 312);
    lemma_subrange_subrange(b, off, off + KVM_XCRS_SIZE as int, 312, 320);
    lemma_subrange_subrange(b, off, off + KVM_XCRS_SIZE as int, 320, 328);
    lemma_subrange_subrange(b, off, off + KVM_XCRS_SIZE as int, 328, 336);
    lemma_subrange_subrange(b, off, off + KVM_XCRS_SIZE as int, 336, 344);
    lemma_subrange_subrange(b, off, off + KVM_XCRS_SIZE as int, 344, 352);
    lemma_subrange_subrange(b, off, off + KVM_XCRS_SIZE as int, 352, 360);
    lemma_subrange_subrange(b, off, off + KVM_XCRS_SIZE as int, 360, 368);
    lemma_subrange_subrange(b, off, off + KVM_XCRS_SIZE as int, 368, 376);
    lemma_subrange_subrange(b, off, off + KVM_XCRS_SIZE as int, 376, 384);
    lemma_subrange_subrange(b, off, off + KVM_XCRS_SIZE as int, 384, 392);
    lemma_seq_parts(s, 4, 8);
    lemma_seq_parts(s, 8, 24);
    lemma_seq_parts(s, 24, 40);
    lemma_seq_parts(s, 40, 56);
    lemma_seq_parts(s, 56, 72);
    lemma_seq_parts(s, 72, 88);
    lemma_seq_parts(s, 88, 104);
    lemma_seq_parts(s, 104, 120);
    lemma_seq_parts(s, 120, 136);
    lemma_seq_parts(s, 136, 152);
    lemma_seq_parts(s, 152, 168);
    lemma_seq_parts(s, 168, 184);
    lemma_seq_parts(s, 184, 200);
    lemma_seq_parts(s, 200, 216);
    lemma_seq_parts(s, 216, 232);
    lemma_seq_parts(s, 232, 248);
    lemma_seq_parts(s, 248, 264);
    lemma_seq_parts(s, 264, 272);
    lemma_seq_parts(s, 272, 280);
    lemma_seq_parts(s, 280, 288);
    lemma_seq_parts(s, 288, 296);
    lemma_seq_parts(s, 296, 304);
    lemma_seq_parts(s, 304, 312);
    lemma_seq_parts(s, 312, 320);
    lemma_seq_parts(s, 320, 328);
    lemma_seq_parts(s, 328, 336);
    lemma_seq_parts(s, 336, 344);
    lemma_seq_parts(s, 344, 352);
    lemma_seq_parts(s, 352, 360);
    lemma_seq_parts(s, 360, 368);
    lemma_seq_parts(s, 368, 376);
    lemma_seq_parts(s, 376, 384);
    lemma_seq_parts(s, 384, 392);
    assert(s.subrange(0, KVM_XCRS_SIZE as int) =~= s);
    assert(v.spec_bytes() == s);
}

/// Field images of a `kvm_xcrs`, covering one run of fields.
#[verifier::rlimit(100)]
#[verifier::spinoff_prover]
proof fn lemma_kvm_xcrs_field_images_seg0(x: kvm_xcrs)
    ensures
        x.spec_bytes().len() == KVM_XCRS_SIZE,
        x.spec_bytes().subrange(384, 392) == u64_le_bytes(x.padding@[15]),
        x.spec_bytes().subrange(376, 384) == u64_le_bytes(x.padding@[14]),
        x.spec_bytes().subrange(368, 376) == u64_le_bytes(x.padding@[13]),
        x.spec_bytes().subrange(360, 368) == u64_le_bytes(x.padding@[12]),
        x.spec_bytes().subrange(352, 360) == u64_le_bytes(x.padding@[11]),
        x.spec_bytes().subrange(344, 352) == u64_le_bytes(x.padding@[10]),
        x.spec_bytes().subrange(336, 344) == u64_le_bytes(x.padding@[9]),
        x.spec_bytes().subrange(328, 336) == u64_le_bytes(x.padding@[8]),
        x.spec_bytes().subrange(0, 328) == (((((((((((((((((((((((((u32_le_bytes(x.nr_xcrs) + u32_le_bytes(x.flags)) + x.xcrs@[0].spec_bytes()) + x.xcrs@[1].spec_bytes()) + x.xcrs@[2].spec_bytes()) + x.xcrs@[3].spec_bytes()) + x.xcrs@[4].spec_bytes()) + x.xcrs@[5].spec_bytes()) + x.xcrs@[6].spec_bytes()) + x.xcrs@[7].spec_bytes()) + x.xcrs@[8].spec_bytes()) + x.xcrs@[9].spec_bytes()) + x.xcrs@[10].spec_bytes()) + x.xcrs@[11].spec_bytes()) + x.xcrs@[12].spec_bytes()) + x.xcrs@[13].spec_bytes()) + x.xcrs@[14].spec_bytes()) + x.xcrs@[15].spec_bytes()) + u64_le_bytes(x.padding@[0])) + u64_le_bytes(x.padding@[1])) + u64_le_bytes(x.padding@[2])) + u64_le_bytes(x.padding@[3])) + u64_le_bytes(x.padding@[4])) + u64_le_bytes(x.padding@[5])) + u64_le_bytes(x.padding@[6])) + u64_le_bytes(x.padding@[7])),
{
    lemma_kvm_xcrs_bytes_len(x);
    lemma_kvm_xcr_bytes_len(x.xcrs@[0]);
    lemma_kvm_xcr_bytes_len(x.xcrs@[1]);
    lemma_kvm_xcr_bytes_len(x.xcrs@[2]);
    lemma_kvm_xcr_bytes_len(x.xcrs@[3]);
    lemma_kvm_xcr_bytes_len(x.xcrs@[4]);
    lemma_kvm_xcr_bytes_len(x.xcrs@[5]);
    lemma_kvm_xcr_bytes_len(x.xcrs@[6]);
    lemma_kvm_xcr_bytes_len(x.xcrs@[7]);
    lemma_kvm_xcr_bytes_len(x.xcrs@[8]);
    lemma_kvm_xcr_bytes_len(x.xcrs@[9]);
    lemma_kvm_xcr_bytes_len(x.xcrs@[10]);
    lemma_kvm_xcr_bytes_len(x.xcrs@[11]);
    lemma_kvm_xcr_bytes_len(x.xcrs@[12]);
    lemma_kvm_xcr_bytes_len(x.xcrs@[13]);
    lemma_kvm_xcr_bytes_len(x.xcrs@[14]);
    lemma_kvm_xcr_bytes_len(x.xcrs@[15]);
    let p0 = u32_le_bytes(x.nr_xcrs);
    let p1 = u32_le_bytes(x.flags);
    let p2 = x.xcrs@[0].spec_bytes();
    let p3 = x.xcrs@[1].spec_bytes();
    let p4 = x.xcrs@[2].spec_bytes();
    let p5 = x.xcrs@[3].spec_bytes();
    let p6 = x.xcrs@[4].spec_bytes();
    let p7 = x.xcrs@[5].spec_bytes();
    let p8 = x.xcrs@[6].spec_bytes();
    let p9 = x.xcrs@[7].spec_bytes();
    let p10 = x.xcrs@[8].spec_bytes();
    let p11 = x.xcrs@[9].spec_bytes();
    let p12 = x.xcrs@[10].spec_bytes();
    let p13 = x.xcrs@[11].spec_bytes();
    let p14 = x.xcrs@[12].spec_bytes();
    let p15 = x.xcrs@[13].spec_bytes();
    let p16 = x.xcrs@[14].spec_bytes();
    let p17 = x.xcrs@[15].spec_bytes();
    let p18 = u64_le_bytes(x.padding@[0]);
    let p19 = u64_le_bytes(x.padding@[1]);
    let p20 = u64_le_bytes(x.padding@[2]);
    let p21 = u64_le_bytes(x.padding@[3]);
    let p22 = u64_le_bytes(x.padding@[4]);
    let p23 = u64_le_bytes(x.padding@[5]);
    let p24 = u64_le_bytes(x.padding@[6]);
    let p25 = u64_le_bytes(x.padding@[7]);
    let p26 = u64_le_bytes(x.padding@[8]);
    let p27 = u64_le_bytes(x.padding@[9]);
    let p28 = u64_le_bytes(x.padding@[10]);
    let p29 = u64_le_bytes(x.padding@[11]);
    let p30 = u64_le_bytes(x.padding@[12]);
    let p31 = u64_le_bytes(x.padding@[13]);
    let p32 = u64_le_bytes(x.padding@[14]);
    let p33 = u64_le_bytes(x.padding@[15]);
    let t1 = p0 + p1;
    let t2 = t1 + p2;
    let t3 = t2 + p3;
    let t4 = t3 + p4;
    let t5 = t4 + p5;
    let t6 = t5 + p6;
    let t7 = t6 + p7;
    let t8 = t7 + p8;
    let t9 = t8 + p9;
    let t10 = t9 + p10;
    let t11 = t10 + p11;
    let t12 = t11 + p12;
    let t13 = t12 + p13;
    let t14 = t13 + p14;
    let t15 = t14 + p15;
    let t16 = t15 + p16;
    let t17 = t16 + p17;
    let t18 = t17 + p18;
    let t19 = t18 + p19;
    let t20 = t19 + p20;
    let t21 = t20 + p21;
    let t22 = t21 + p22;
    let t23 = t22 + p23;
    let t24 = t23 + p24;
    let t25 = t24 + p25;
    let t26 = t25 + p26;
    let t27 = t26 + p27;
    let t28 = t27 + p28;
    let t29 = t28 + p29;
    let t30 = t29 + p30;
    let t31 = t30 + p31;
    let t32 = t31 + p32;
    let t33 = t32 + p33;
    assert(x.spec_bytes() == t33);
    lemma_concat_parts(t32, p33);
    lemma_concat_parts(t31, p32);
    lemma_subrange_subrange(x.spec_bytes(), 0, 384, 0, 376);
    lemma_subrange_subrange(x.spec_bytes(), 0, 384, 376, 384);
    lemma_concat_parts(t30, p31);
    lemma_subrange_subrange(x.spec_bytes(), 0, 376, 0, 368);
    lemma_subrange_subrange(x.spec_bytes(), 0, 376, 368, 376);
    lemma_concat_parts(t29, p30);
    lemma_subrange_subrange(x.spec_bytes(), 0, 368, 0, 360);
    lemma_subrange_subrange(x.spec_bytes(), 0, 368, 360, 368);
    lemma_concat_parts(t28, p29);
    lemma_subrange_subrange(x.spec_bytes(), 0, 360, 0, 352);
    lemma_subrange_subrange(x.spec_bytes(), 0, 360, 352, 360);
    lemma_concat_parts(t27, p28);
    lemma_subrange_subrange(x.spec_bytes(), 0, 352, 0, 344);
    lemma_subrange_subrange(x.spec_bytes(), 0, 352, 344, 352);
    lemma_concat_parts(t26, p27);
    lemma_subrange_subrange(x.spec_bytes(), 0, 344, 0, 336);
    lemma_subrange_subrange(x.spec_bytes(), 0, 344, 336, 344);
    lemma_concat_parts(t25, p26);
    lemma_subrange_subrange(x.spec_bytes(), 0, 336, 0, 328);
    lemma_subrange_subrange(x.spec_bytes(), 0, 336, 328, 336);
}

/// Field images of a `kvm_xcrs`, covering one run of fields.
#[verifier::rlimit(100)]
#[verifier::spinoff_prover]
proof fn lemma_kvm_xcrs_field_images_seg1(x: kvm_xcrs)
    ensures
        x.spec_bytes().len() == KVM_XCRS_SIZE,
        x.spec_bytes().subrange(320, 328) == u64_le_bytes(x.padding@[7]),
        x.spec_bytes().subrange(312, 320) == u64_le_bytes(x.padding@[6]),
        x.spec_bytes().subrange(304, 312) == u64_le_bytes(x.padding@[5]),
        x.spec_bytes().subrange(296, 304) == u64_le_bytes(x.padding@[4]),
        x.spec_bytes().subrange(288, 296) == u64_le_bytes(x.padding@[3]),
        x.spec_bytes().subrange(280, 288) == u64_le_bytes(x.padding@[2]),
        x.spec_bytes().subrange(272, 280) == u64_le_bytes(x.padding@[1]),
        x.spec_bytes().subrange(264, 272) == u64_le_bytes(x.padding@[0]),
        x.spec_bytes().subrange(0, 264) == (((((((((((((((((u32_le_bytes(x.nr_xcrs) + u32_le_bytes(x.flags)) + x.xcrs@[0].spec_bytes()) + x.xcrs@[1].spec_bytes()) + x.xcrs@[2].spec_bytes()) + x.xcrs@[3].spec_bytes()) + x.xcrs@[4].spec_bytes()) + x.xcrs@[5].spec_bytes()) + x.xcrs@[6].spec_bytes()) + x.xcrs@[7].spec_bytes()) + x.xcrs@[8].spec_bytes()) + x.xcrs@[9].spec_bytes()) + x.xcrs@[10].spec_bytes()) + x.xcrs@[11].spec_bytes()) + x.xcrs@[12].spec_bytes()) + x.xcrs@[13].spec_bytes()) + x.xcrs@[14].spec_bytes()) + x.xcrs@[15].spec_bytes()),
{
    lemma_kvm_xcrs_bytes_len(x);
    lemma_kvm_xcr_bytes_len(x.xcrs@[0]);
    lemma_kvm_xcr_bytes_len(x.xcrs@[1]);
    lemma_kvm_xcr_bytes_len(x.xcrs@[2]);
    lemma_kvm_xcr_bytes_len(x.xcrs@[3]);
    lemma_kvm_xcr_bytes_len(x.xcrs@[4]);
    lemma_kvm_xcr_bytes_len(x.xcrs@[5]);
    lemma_kvm_xcr_bytes_len(x.xcrs@[6]);
    lemma_kvm_xcr_bytes_len(x.xcrs@[7]);
    lemma_kvm_xcr_bytes_len(x.xcrs@[8]);
    lemma_kvm_xcr_bytes_len(x.xcrs@[9]);
    lemma_kvm_xcr_bytes_len(x.xcrs@[10]);
    lemma_kvm_xcr_bytes_len(x.xcrs@[11]);
    lemma_kvm_xcr_bytes_len(x.xcrs@[12]);
    lemma_kvm_xcr_bytes_len(x.xcrs@[13]);
    lemma_kvm_xcr_bytes_len(x.xcrs@[14]);
    lemma_kvm_xcr_bytes_len(x.xcrs@[15]);
    let p0 = u32_le_bytes(x.nr_xcrs);
    let p1 = u32_le_bytes(x.flags);
    let p2 = x.xcrs@[0].spec_bytes();
    let p3 = x.xcrs@[1].spec_bytes();
    let p4 = x.xcrs@[2].spec_bytes();
    let p5 = x.xcrs@[3].spec_bytes();
    let p6 = x.xcrs@[4].spec_bytes();
    let p7 = x.xcrs@[5].spec_bytes();
    let p8 = x.xcrs@[6].spec_bytes();
    let p9 = x.xcrs@[7].spec_bytes();
    let p10 = x.xcrs@[8].spec_bytes();
    let p11 = x.xcrs@[9].spec_bytes();
    let p12 = x.xcrs@[10].spec_bytes();
    let p13 = x.xcrs@[11].spec_bytes();
    let p14 = x.xcrs@[12].spec_bytes();
    let p15 = x.xcrs@[13].spec_bytes();
    let p16 = x.xcrs@[14].spec_bytes();
    let p17 = x.xcrs@[15].spec_bytes();
    let p18 = u64_le_bytes(x.padding@[0]);
    let p19 = u64_le_bytes(x.padding@[1]);
    let p20 = u64_le_bytes(x.padding@[2]);
    let p21 = u64_le_bytes(x.padding@[3]);
    let p22 = u64_le_bytes(x.padding@[4]);
    let p23 = u64_le_bytes(x.padding@[5]);
    let p24 = u64_le_bytes(x.padding@[6]);
    let p25 = u64_le_bytes(x.padding@[7]);
    let t1 = p0 + p1;
    let t2 = t1 + p2;
    let t3 = t2 + p3;
    let t4 = t3 + p4;
    let t5 = t4 + p5;
    let t6 = t5 + p6;
    let t7 = t6 + p7;
    let t8 = t7 + p8;
    let t9 = t8 + p9;
    let t10 = t9 + p10;
    let t11 = t10 + p11;
    let t12 = t11 + p12;
    let t13 = t12 + p13;
    let t14 = t13 + p14;
    let t15 = t14 + p15;
    let t16 = t15 + p16;
    let t17 = t16 + p17;
    let t18 = t17 + p18;
    let t19 = t18 + p19;
    let t20 = t19 + p20;
    let t21 = t20 + p21;
    let t22 = t21 + p22;
    let t23 = t22 + p23;
    let t24 = t23 + p24;
    let t25 = t24 + p25;
    lemma_kvm_xcrs_field_images_seg0(x);
    lemma_concat_parts(t24, p25);
    lemma_subrange_subrange(x.spec_bytes(), 0, 328, 0, 320);
    lemma_subrange_subrange(x.spec_bytes(), 0, 328, 320, 328);
    lemma_concat_parts(t23, p24);
    lemma_subrange_subrange(x.spec_bytes(), 0, 320, 0, 312);
    lemma_subrange_subrange(x.spec_bytes(), 0, 320, 312, 320);
    lemma_concat_parts(t22, p23);
    lemma_subrange_subrange(x.spec_bytes(), 0, 312, 0, 304);
    lemma_subrange_subrange(x.spec_bytes(), 0, 312, 304, 312);
    lemma_concat_parts(t21, p22);
    lemma_subrange_subrange(x.spec_bytes(), 0, 304, 0, 296);
    lemma_subrange_subrange(x.spec_bytes(), 0, 304, 296, 304);
    lemma_concat_parts(t20, p21);
    lemma_subrange_subrange(x.spec_bytes(), 0, 296, 0, 288);
    lemma_subrange_subrange(x.spec_bytes(), 0, 296, 288, 296);
    lemma_concat_parts(t19, p20);
    lemma_subrange_subrange(x.spec_bytes(), 0, 288, 0, 280);
    lemma_subrange_subrange(x.spec_bytes(), 0, 288, 280, 288);
    lemma_concat_parts(t18, p19);
    lemma_subrange_subrange(x.spec_bytes(), 0, 280, 0, 272);
    lemma_subrange_subrange(x.spec_bytes(), 0, 280, 272, 280);
    lemma_concat_parts(t17, p18);
    lemma_subrange_subrange(x.spec_bytes(), 0, 272, 0, 264);
    lemma_subrange_subrange(x.spec_bytes(), 0, 272, 264, 272);
}

/// Field images of a `kvm_xcrs`, covering one run of fields.
#[verifier::rlimit(100)]
#[verifier::spinoff_prover]
proof fn lemma_kvm_xcrs_field_images_seg2(x: kvm_xcrs)
    ensures
        x.spec_bytes().len() == KVM_XCRS_SIZE,
        x.spec_bytes().subrange(248, 264) == x.xcrs@[15].spec_bytes(),
        x.spec_bytes().subrange(232, 248) == x.xcrs@[14].spec_bytes(),
        x.spec_bytes().subrange(216, 232) == x.xcrs@[13].spec_bytes(),
        x.spec_bytes().subrange(200, 216) == x.xcrs@[12].spec_bytes(),
        x.spec_bytes().subrange(184, 200) == x.xcrs@[11].spec_bytes(),
        x.spec_bytes().subrange(168, 184) == x.xcrs@[10].spec_bytes(),
        x.spec_bytes().subrange(152, 168) == x.xcrs@[9].spec_bytes(),
        x.spec_bytes().subrange(136, 152) == x.xcrs@[8].spec_bytes(),
        x.spec_bytes().subrange(0, 136) == (((((((((u32_le_bytes(x.nr_xcrs) + u32_le_bytes(x.flags)) + x.xcrs@[0].spec_bytes()) + x.xcrs@[1].spec_bytes()) + x.xcrs@[2].spec_bytes()) + x.xcrs@[3].spec_bytes()) + x.xcrs@[4].spec_bytes()) + x.xcrs@[5].spec_bytes()) + x.xcrs@[6].spec_bytes()) + x.xcrs@[7].spec_bytes()),
{
    lemma_kvm_xcrs_bytes_len(x);
    lemma_kvm_xcr_bytes_len(x.xcrs@[0]);
    lemma_kvm_xcr_bytes_len(x.xcrs@[1]);
    lemma_kvm_xcr_bytes_len(x.xcrs@[2]);
    lemma_kvm_xcr_bytes_len(x.xcrs@[3]);
    lemma_kvm_xcr_bytes_len(x.xcrs@[4]);
    lemma_kvm_xcr_bytes_len(x.xcrs@[5]);
    lemma_kvm_xcr_bytes_len(x.xcrs@[6]);
    lemma_kvm_xcr_bytes_len(x.xcrs@[7]);
    lemma_kvm_xcr_bytes_len(x.xcrs@[8]);
    lemma_kvm_xcr_bytes_len(x.xcrs@[9]);
    lemma_kvm_xcr_bytes_len(x.xcrs@[10]);
    lemma_kvm_xcr_bytes_len(x.xcrs@[11]);
    lemma_kvm_xcr_bytes_len(x.xcrs@[12]);
    lemma_kvm_xcr_bytes_len(x.xcrs@[13]);
    lemma_kvm_xcr_bytes_len(x.xcrs@[14]);
    lemma_kvm_xcr_bytes_len(x.xcrs@[15]);
    let p0 = u32_le_bytes(x.nr_xcrs);
    let p1 = u32_le_bytes(x.flags);
    let p2 = x.xcrs@[0].spec_bytes();
    let p3 = x.xcrs@[1].spec_bytes();
    let p4 = x.xcrs@[2].spec_bytes();
    let p5 = x.xcrs@[3].spec_bytes();
    let p6 = x.xcrs@[4].spec_bytes();
    let p7 = x.xcrs@[5].spec_bytes();
    let p8 = x.xcrs@[6].spec_bytes();
    let p9 = x.xcrs@[7].spec_bytes();
    let p10 = x.xcrs@[8].spec_bytes();
    let p11 = x.xcrs@[9].spec_bytes();
    let p12 = x.xcrs@[10].spec_bytes();
    let p13 = x.xcrs@[11].spec_bytes();
    let p14 = x.xcrs@[12].spec_bytes();
    let p15 = x.xcrs@[13].spec_bytes();
    let p16 = x.xcrs@[14].spec_bytes();
    let p17 = x.xcrs@[15].spec_bytes();
    let t1 = p0 + p1;
    let t2 = t1 + p2;
    let t3 = t2 + p3;
    let t4 = t3 + p4;
    let t5 = t4 + p5;
    let t6 = t5 + p6;
    let t7 = t6 + p7;
    let t8 = t7 + p8;
    let t9 = t8 + p9;
    let t10 = t9 + p10;
    let t11 = t10 + p11;
    let t12 = t11 + p12;
    let t13 = t12 + p13;
    let t14 = t13 + p14;
    let t15 = t14 + p15;
    let t16 = t15 + p16;
    let t17 = t16 + p17;
    lemma_kvm_xcrs_field_images_seg1(x);
    lemma_concat_parts(t16, p17);
    lemma_subrange_subrange(x.spec_bytes(), 0, 264, 0, 248);
    lemma_subrange_subrange(x.spec_bytes(), 0, 264, 248, 264);
    lemma_concat_parts(t15, p16);
    lemma_subrange_subrange(x.spec_bytes(), 0, 248, 0, 232);
    lemma_subrange_subrange(x.spec_bytes(), 0, 248, 232, 248);
    lemma_concat_parts(t14, p15);
    lemma_subrange_subrange(x.spec_bytes(), 0, 232, 0, 216);
    lemma_subrange_subrange(x.spec_bytes(), 0, 232, 216, 232);
    lemma_concat_parts(t13, p14);
    lemma_subrange_subrange(x.spec_bytes(), 0, 216, 0, 200);
    lemma_subrange_subrange(x.spec_bytes(), 0, 216, 200, 216);
    lemma_concat_parts(t12, p13);
    lemma_subrange_subrange(x.spec_bytes(), 0, 200, 0, 184);
    lemma_subrange_subrange(x.spec_bytes(), 0, 200, 184, 200);
    lemma_concat_parts(t11, p12);
    lemma_subrange_subrange(x.spec_bytes(), 0, 184, 0, 168);
    lemma_subrange_subrange(x.spec_bytes(), 0, 184, 168, 184);
    lemma_concat_parts(t10, p11);
    lemma_subrange_subrange(x.spec_bytes(), 0, 168, 0, 152);
    lemma_subrange_subrange(x.spec_bytes(), 0, 168, 152, 168);
    lemma_concat_parts(t9, p10);
    lemma_subrange_subrange(x.spec_bytes(), 0, 152, 0, 136);
    lemma_subrange_subrange(x.spec_bytes(), 0, 152, 136, 152);
}

/// Field images of a `kvm_xcrs`, covering one run of fields.
#[verifier::rlimit(100)]
#[verifier::spinoff_prover]
proof fn lemma_kvm_xcrs_field_images_seg3(x: kvm_xcrs)
    ensures
        x.spec_bytes().len() == KVM_XCRS_SIZE,
        x.spec_bytes().subrange(120, 136) == x.xcrs@[7].spec_bytes(),
        x.spec_bytes().subrange(104, 120) == x.xcrs@[6].spec_bytes(),
        x.spec_bytes().subrange(88, 104) == x.xcrs@[5].spec_bytes(),
        x.spec_bytes().subrange(72, 88) == x.xcrs@[4].spec_bytes(),
        x.spec_bytes().subrange(56, 72) == x.xcrs@[3].spec_bytes(),
        x.spec_bytes().subrange(40, 56) == x.xcrs@[2].spec_bytes(),
        x.spec_bytes().subrange(24, 40) == x.xcrs@[1].spec_bytes(),
        x.spec_bytes().subrange(8, 24) == x.xcrs@[0].spec_bytes(),
        x.spec_bytes().subrange(0, 8) == (u32_le_bytes(x.nr_xcrs) + u32_le_bytes(x.flags)),
{
    lemma_kvm_xcrs_bytes_len(x);
    lemma_kvm_xcr_bytes_len(x.xcrs@[0]);
    lemma_kvm_xcr_bytes_len(x.xcrs@[1]);
    lemma_kvm_xcr_bytes_len(x.xcrs@[2]);
    lemma_kvm_xcr_bytes_len(x.xcrs@[3]);
    lemma_kvm_xcr_bytes_len(x.xcrs@[4]);
    lemma_kvm_xcr_bytes_len(x.xcrs@[5]);
    lemma_kvm_xcr_bytes_len(x.xcrs@[6]);
    lemma_kvm_xcr_bytes_len(x.xcrs@[7]);
    lemma_kvm_xcr_bytes_len(x.xcrs@[8]);
    lemma_kvm_xcr_bytes_len(x.xcrs@[9]);
    lemma_kvm_xcr_bytes_len(x.xcrs@[10]);
    lemma_kvm_xcr_bytes_len(x.xcrs@[11]);
    lemma_kvm_xcr_bytes_len(x.xcrs@[12]);
    lemma_kvm_xcr_bytes_len(x.xcrs@[13]);
    lemma_kvm_xcr_bytes_len(x.xcrs@[14]);
    lemma_kvm_xcr_bytes_len(x.xcrs@[15]);
    let p0 = u32_le_bytes(x.nr_xcrs);
    let p1 = u32_le_bytes(x.flags);
    let p2 = x.xcrs@[0].spec_bytes();
    let p3 = x.xcrs@[1].spec_bytes();
    let p4 = x.xcrs@[2].spec_bytes();
    let p5 = x.xcrs@[3].spec_bytes();
    let p6 = x.xcrs@[4].spec_bytes();
    let p7 = x.xcrs@[5].spec_bytes();
    let p8 = x.xcrs@[6].spec_bytes();
    let p9 = x.xcrs@[7].spec_bytes();
    let t1 = p0 + p1;
    let t2 = t1 + p2;
    let t3 = t2 + p3;
    let t4 = t3 + p4;
    let t5 = t4 + p5;
    let t6 = t5 + p6;
    let t7 = t6 + p7;
    let t8 = t7 + p8;
    let t9 = t8 + p9;
    lemma_kvm_xcrs_field_images_seg2(x);
    lemma_concat_parts(t8, p9);
    lemma_subrange_subrange(x.spec_bytes(), 0, 136, 0, 120);
    lemma_subrange_subrange(x.spec_bytes(), 0, 136, 120, 136);
    lemma_concat_parts(t7, p8);
    lemma_subrange_subrange(x.spec_bytes(), 0, 120, 0, 104);
    lemma_subrange_subrange(x.spec_bytes(), 0, 120, 104, 120);
    lemma_concat_parts(t6, p7);
    lemma_subrange_subrange(x.spec_bytes(), 0, 104, 0, 88);
    lemma_subrange_subrange(x.spec_bytes(), 0, 104, 88, 104);
    lemma_concat_parts(t5, p6);
    lemma_subrange_subrange(x.spec_bytes(), 0, 88, 0, 72);
    lemma_subrange_subrange(x.spec_bytes(), 0, 88, 72, 88);
    lemma_concat_parts(t4, p5);
    lemma_subrange_subrange(x.spec_bytes(), 0, 72, 0, 56);
    lemma_subrange_subrange(x.spec_bytes(), 0, 72, 56, 72);
    lemma_concat_parts(t3, p4);
    lemma_subrange_subrange(x.spec_bytes(), 0, 56, 0, 40);
    lemma_subrange_subrange(x.spec_bytes(), 0, 56, 40, 56);
    lemma_concat_parts(t2, p3);
    lemma_subrange_subrange(x.spec_bytes(), 0, 40, 0, 24);
    lemma_subrange_subrange(x.spec_bytes(), 0, 40, 24, 40);
    lemma_concat_parts(t1, p2);
    lemma_subrange_subrange(x.spec_bytes(), 0, 24, 0, 8);
    lemma_subrange_subrange(x.spec_bytes(), 0, 24, 8, 24);
}

/// Field images of a `kvm_xcrs`, covering one run of fields.
#[verifier::rlimit(100)]
#[verifier::spinoff_prover]
proof fn lemma_kvm_xcrs_field_images_seg4(x: kvm_xcrs)
    ensures
        x.spec_bytes().len() == KVM_XCRS_SIZE,
        x.spec_bytes().subrange(4, 8) == u32_le_bytes(x.flags),
        x.spec_bytes().subrange(0, 4) == u32_le_bytes(x.nr_xcrs),
{
    lemma_kvm_xcrs_bytes_len(x);
    lemma_kvm_xcr_bytes_len(x.xcrs@[0]);
    lemma_kvm_xcr_bytes_len(x.xcrs@[1]);
    lemma_kvm_xcr_bytes_len(x.xcrs@[2]);
    lemma_kvm_xcr_bytes_len(x.xcrs@[3]);
    lemma_kvm_xcr_bytes_len(x.xcrs@[4]);
    lemma_kvm_xcr_bytes_len(x.xcrs@[5]);
    lemma_kvm_xcr_bytes_len(x.xcrs@[6]);
    lemma_kvm_xcr_bytes_len(x.xcrs@[7]);
    lemma_kvm_xcr_bytes_len(x.xcrs@[8]);
    lemma_kvm_xcr_bytes_len(x.xcrs@[9]);
    lemma_kvm_xcr_bytes_len(x.xcrs@[10]);
    lemma_kvm_xcr_bytes_len(x.xcrs@[11]);
    lemma_kvm_xcr_bytes_len(x.xcrs@[12]);
    lemma_kvm_xcr_bytes_len(x.xcrs@[13]);
    lemma_kvm_xcr_bytes_len(x.xcrs@[14]);
    lemma_kvm_xcr_bytes_len(x.xcrs@[15]);
    let p0 = u32_le_bytes(x.nr_xcrs);
    let p1 = u32_le_bytes(x.flags);
    let t1 = p0 + p1;
    lemma_kvm_xcrs_field_images_seg3(x);
    lemma_concat_parts(p0, p1);
    lemma_subrange_subrange(x.spec_bytes(), 0, 8, 0, 4);
    lemma_subrange_subrange(x.spec_bytes(), 0, 8, 4, 8);
}

/// Each field's image stands at its kernel offset inside the image of
/// a `kvm_xcrs`.
proof fn lemma_kvm_xcrs_field_images(x: kvm_xcrs)
    ensures
        x.spec_bytes().len() == KVM_XCRS_SIZE,
        x.spec_bytes().subrange(0, 4) == u32_le_bytes(x.nr_xcrs),
        x.spec_bytes().subrange(4, 8) == u32_le_bytes(x.flags),
        x.spec_bytes().subrange(8, 24) == x.xcrs@[0].spec_bytes(),
        x.spec_bytes().subrange(24, 40) == x.xcrs@[1].spec_bytes(),
        x.spec_bytes().subrange(40, 56) == x.xcrs@[2].spec_bytes(),
        x.spec_bytes().subrange(56, 72) == x.xcrs@[3].spec_bytes(),
        x.spec_bytes().subrange(72, 88) == x.xcrs@[4].spec_bytes(),
        x.spec_bytes().subrange(88, 104) == x.xcrs@[5].spec_bytes(),
        x.spec_bytes().subrange(104, 120) == x.xcrs@[6].spec_bytes(),
        x.spec_bytes().subrange(120, 136) == x.xcrs@[7].spec_bytes(),
        x.spec_bytes().subrange(136, 152) == x.xcrs@[8].spec_bytes(),
        x.spec_bytes().subrange(152, 168) == x.xcrs@[9].spec_bytes(),
        x.spec_bytes().subrange(168, 184) == x.xcrs@[10].spec_bytes(),
        x.spec_bytes().subrange(184, 200) == x.xcrs@[11].spec_bytes(),
        x.spec_bytes().subrange(200, 216) == x.xcrs@[12].spec_bytes(),
        x.spec_bytes().subrange(216, 232) == x.xcrs@[13].spec_bytes(),
        x.spec_bytes().subrange(232, 248) == x.xcrs@[14].spec_bytes(),
        x.spec_bytes().subrange(248, 264) == x.xcrs@[15].spec_bytes(),
        x.spec_bytes().subrange(264, 272) == u64_le_bytes(x.padding@[0]),
        x.spec_bytes().subrange(272, 280) == u64_le_bytes(x.padding@[1]),
        x.spec_bytes().subrange(280, 288) == u64_le_bytes(x.padding@[2]),
        x.spec_bytes().subrange(288, 296) == u64_le_bytes(x.padding@[3]),
        x.spec_bytes().subrange(296, 304) == u64_le_bytes(x.padding@[4]),
        x.spec_bytes().subrange(304, 312) == u64_le_bytes(x.padding@[5]),
        x.spec_bytes().subrange(312, 320) == u64_le_bytes(x.padding@[6]),
        x.spec_bytes().subrange(320, 328) == u64_le_bytes(x.padding@[7]),
        x.spec_bytes().subrange(328, 336) == u64_le_bytes(x.padding@[8]),
        x.spec_bytes().subrange(336, 344) == u64_le_bytes(x.padding@[9]),
        x.spec_bytes().subrange(344, 352) == u64_le_bytes(x.padding@[10]),
        x.spec_bytes().subrange(352, 360) == u64_le_bytes(x.padding@[11]),
        x.spec_bytes().subrange(360, 368) == u64_le_bytes(x.padding@[12]),
        x.spec_bytes().subrange(368, 376) == u64_le_bytes(x.padding@[13]),
        x.spec_bytes().subrange(376, 384) == u64_le_bytes(x.padding@[14]),
        x.spec_bytes().subrange(384, 392) == u64_le_bytes(x.padding@[15]),
{
    lemma_kvm_xcrs_field_images_seg0(x);
    lemma_kvm_xcrs_field_images_seg1(x);
    lemma_kvm_xcrs_field_images_seg2(x);
    lemma_kvm_xcrs_field_images_seg3(x);
    lemma_kvm_xcrs_field_images_seg4(x);
}

/// The byte image determines the structure: reading an image back
/// always yields the one value that produced it.
#[verifier::rlimit(100)]
#[verifier::spinoff_prover]
pub proof fn lemma_kvm_xcrs_image_injective(a: kvm_xcrs, b: kvm_xcrs)
    requires
        a.spec_bytes() == b.spec_bytes(),
    ensures
        a == b,
{
    lemma_kvm_xcrs_field_images(a);
    lemma_kvm_xcrs_field_images(b);
    lemma_u32_le_roundtrip(a.nr_xcrs);
    lemma_u32_le_roundtrip(b.nr_xcrs);
    lemma_u32_le_roundtrip(a.flags);
    lemma_u32_le_roundtrip(b.flags);
    lemma_kvm_xcr_image_injective(a.xcrs@[0], b.xcrs@[0]);
    lemma_kvm_xcr_image_injective(a.xcrs@[1], b.xcrs@[1]);
    lemma_kvm_xcr_image_injective(a.xcrs@[2], b.xcrs@[2]);
    lemma_kvm_xcr_image_injective(a.xcrs@[3], b.xcrs@[3]);
    lemma_kvm_xcr_image_injective(a.xcrs@[4], b.xcrs@[4]);
    lemma_kvm_xcr_image_injective(a.xcrs@[5], b.xcrs@[5]);
    lemma_kvm_xcr_image_injective(a.xcrs@[6], b.xcrs@[6]);
    lemma_kvm_xcr_image_injective(a.xcrs@[7], b.xcrs@[7]);
    lemma_kvm_xcr_image_injective(a.xcrs@[8], b.xcrs@[8]);
    lemma_kvm_xcr_image_injective(a.xcrs@[9], b.xcrs@[9]);
    lemma_kvm_xcr_image_injective(a.xcrs@[10], b.xcrs@[10]);
    lemma_kvm_xcr_image_injective(a.xcrs@[11], b.xcrs@[11]);
    lemma_kvm_xcr_image_injective(a.xcrs@[12], b.xcrs@[12]);
    lemma_kvm_xcr_image_injective(a.xcrs@[13], b.xcrs@[13]);
    lemma_kvm_xcr_image_injective(a.xcrs@[14], b.xcrs@[14]);
    lemma_kvm_xcr_image_injective(a.xcrs@[15], b.xcrs@[15]);
    assert(a.xcrs@ =~= b.xcrs@);
    lemma_u64_le_roundtrip(a.padding@[0]);
    lemma_u64_le_roundtrip(b.padding@[0]);
    lemma_u64_le_roundtrip(a.padding@[1]);
    lemma_u64_le_roundtrip(b.padding@[1]);
    lemma_u64_le_roundtrip(a.padding@[2]);
    lemma_u64_le_roundtrip(b.padding@[2]);
    lemma_u64_le_roundtrip(a.padding@[3]);
    lemma_u64_le_roundtrip(b.padding@[3]);
    lemma_u64_le_roundtrip(a.padding@[4]);
    lemma_u64_le_roundtrip(b.padding@[4]);
    lemma_u64_le_roundtrip(a.padding@[5]);
    lemma_u64_le_roundtrip(b.padding@[5]);
    lemma_u64_le_roundtrip(a.padding@[6]);
    lemma_u64_le_roundtrip(b.padding@[6]);
    lemma_u64_le_roundtrip(a.padding@[7]);
    lemma_u64_le_roundtrip(b.padding@[7]);
    lemma_u64_le_roundtrip(a.padding@[8]);
    lemma_u64_le_roundtrip(b.padding@[8]);
    lemma_u64_le_roundtrip(a.padding@[9]);
    lemma_u64_le_roundtrip(b.padding@[9]);
    lemma_u64_le_roundtrip(a.padding@[10]);
    lemma_u64_le_roundtrip(b.padding@[10]);
    lemma_u64_le_roundtrip(a.padding@[11]);
    lemma_u64_le_roundtrip(b.padding@[11]);
    lemma_u64_le_roundtrip(a.padding@[12]);
    lemma_u64_le_roundtrip(b.padding@[12]);
    lemma_u64_le_roundtrip(a.padding@[13]);
    lemma_u64_le_roundtrip(b.padding@[13]);
    lemma_u64_le_roundtrip(a.padding@[14]);
    lemma_u64_le_roundtrip(b.padding@[14]);
    lemma_u64_le_roundtrip(a.padding@[15]);
    lemma_u64_le_roundtrip(b.padding@[15]);
    assert(a.padding@ =~= b.padding@);
    assert(a =~= b);
}

/// A `kvm_xcrs` whose fields are all zero has an all-zero byte image,
/// the image of a zeroed ioctl argument buffer.
pub proof fn lemma_kvm_xcrs_zero_image(x: kvm_xcrs)
    requires
        x.is_zeroed(),
    ensures
        x.spec_bytes() == zero_bytes(KVM_XCRS_SIZE as int),
{
    lemma_le_bytes_zero();
    lemma_kvm_xcr_zero_image(x.xcrs@[0]);
    lemma_kvm_xcr_zero_image(x.xcrs@[1]);
    lemma_kvm_xcr_zero_image(x.xcrs@[2]);
    lemma_kvm_xcr_zero_image(x.xcrs@[3]);
    lemma_kvm_xcr_zero_image(x.xcrs@[4]);
    lemma_kvm_xcr_zero_image(x.xcrs@[5]);
    lemma_kvm_xcr_zero_image(x.xcrs@[6]);
    lemma_kvm_xcr_zero_image(x.xcrs@[7]);
    lemma_kvm_xcr_zero_image(x.xcrs@[8]);
    lemma_kvm_xcr_zero_image(x.xcrs@[9]);
    lemma_kvm_xcr_zero_image(x.xcrs@[10]);
    lemma_kvm_xcr_zero_image(x.xcrs@[11]);
    lemma_kvm_xcr_zero_image(x.xcrs@[12]);
    lemma_kvm_xcr_zero_image(x.xcrs@[13]);
    lemma_kvm_xcr_zero_image(x.xcrs@[14]);
    lemma_kvm_xcr_zero_image(x.xcrs@[15]);
    lemma_zero_bytes_split(4, 8);
    lemma_zero_bytes_split(8, 24);
    lemma_zero_bytes_split(24, 40);
    lemma_zero_bytes_split(40, 56);
    lemma_zero_bytes_split(56, 72);
    lemma_zero_bytes_split(72, 88);
    lemma_zero_bytes_split(88, 104);
    lemma_zero_bytes_split(104, 120);
    lemma_zero_bytes_split(120, 136);
    lemma_zero_bytes_split(136, 152);
    lemma_zero_bytes_split(152, 168);
    lemma_zero_bytes_split(168, 184);
    lemma_zero_bytes_split(184, 200);
    lemma_zero_bytes_split(200, 216);
    lemma_zero_bytes_split(216, 232);
    lemma_zero_bytes_split(232, 248);
    lemma_zero_bytes_split(248, 264);
    lemma_zero_bytes_split(264, 272);
    lemma_zero_bytes_split(272, 280);
    lemma_zero_bytes_split(280, 288);
    lemma_zero_bytes_split(288, 296);
    lemma_zero_bytes_split(296, 304);
    lemma_zero_bytes_split(304, 312);
    lemma_zero_bytes_split(312, 320);
    lemma_zero_bytes_split(320, 328);
    lemma_zero_bytes_split(328, 336);
    lemma_zero_bytes_split(336, 344);
    lemma_zero_bytes_split(344, 352);
    lemma_zero_bytes_split(352, 360);
    lemma_zero_bytes_split(360, 368);
    lemma_zero_bytes_split(368, 376);
    lemma_zero_bytes_split(376, 384);
    lemma_zero_bytes_split(384, 392);
    assert(x.spec_bytes() == zero_bytes(KVM_XCRS_SIZE as int));
}

/// Byte size of the `kvm_mp_state` kernel image.
pub const KVM_MP_STATE_SIZE: usize = 4;

/// The multiprocessing run state of a vCPU.
#[derive(Clone, Copy, Debug, PartialEq)]
#[verifier::ext_equal]
pub struct kvm_mp_state {
    pub mp_state: u32,
}

impl kvm_mp_state {
    /// The 4-byte kernel image of `self`: every field little-endian
    /// at its kernel offset.
    pub open spec fn spec_bytes(self) -> Seq<u8> {
        u32_le_bytes(self.mp_state)
    }

    /// Every field of `self` holds zero.
    pub open spec fn is_zeroed(self) -> bool {
        self.mp_state == 0
    }

    /// Appends the image of `self` to `out`.
    pub fn push_image(&self, out: &mut Vec<u8>)
        ensures
            final(out)@ == old(out)@ + self.spec_bytes(),
    {
        let ghost base: Seq<u8> = out@;
        push_u32_le(out, self.mp_state);
        let ghost mut acc: Seq<u8> = u32_le_bytes(self.mp_state);
        proof {
            assert(out@ == base + acc);
            assert(acc == self.spec_bytes());
        }
    }

    /// The image of `self` as a fresh buffer.
    pub fn to_bytes(&self) -> (out: Vec<u8>)
        ensures
            out@ == self.spec_bytes(),
            out@.len() == KVM_MP_STATE_SIZE,
    {
        let mut out: Vec<u8> = Vec::new();
        self.push_image(&mut out);
        proof {
            lemma_concat_empty_left(self.spec_bytes());
            lemma_kvm_mp_state_bytes_len(*self);
        }
        out
    }

    /// Reads the structure whose image starts at offset `off` of `buf`.
    pub fn read_at(buf: &[u8], off: usize) -> (v: Self)
        requires
            off + KVM_MP_STATE_SIZE <= buf@.len(),
        ensures
            v.spec_bytes() == buf@.subrange(off as int, off as int + KVM_MP_STATE_SIZE),
    {
        let n: usize = buf.len();
        proof {
            assert(off + KVM_MP_STATE_SIZE <= n);
        }
        let v = kvm_mp_state {
            mp_state: read_u32_le(buf, off),
        };
        proof {
            lemma_kvm_mp_state_read_at(v, buf@, off as int);
        }
        v
    }

    /// Reads a structure image from the start of `buf`, failing when the
    /// buffer is too short to hold one.
    pub fn from_bytes(buf: &[u8]) -> (r: Result<Self, CodecError>)
        ensures
            buf@.len() < KVM_MP_STATE_SIZE ==> r == Err::<kvm_mp_state, CodecError>(
                CodecError::IncompleteBuffer,
            ),
            buf@.len() >= KVM_MP_STATE_SIZE ==> (r matches Ok(v) && v.spec_bytes() == buf@.subrange(
                0,
                KVM_MP_STATE_SIZE as int,
            )),
    {
        if buf.len() < KVM_MP_STATE_SIZE {
            Err(CodecError::IncompleteBuffer)
        } else {
            Ok(Self::read_at(buf, 0))
        }
    }
}

impl Default for kvm_mp_state {
    /// Every field zero: the zeroed ioctl argument convention.
    fn default() -> (r: Self)
        ensures
            r.is_zeroed(),
    {
        let r = kvm_mp_state {
            mp_state: 0,
        };
        r
    }
}

/// The image of a `kvm_mp_state` is exactly 4 bytes.
pub proof fn lemma_kvm_mp_state_bytes_len(x: kvm_mp_state)
    ensures
        x.spec_bytes().len() == KVM_MP_STATE_SIZE,
{
}

/// A `kvm_mp_state` whose fields were decoded from a buffer has that
/// buffer segment as its image.
#[verifier::rlimit(100)]
#[verifier::spinoff_prover]
proof fn lemma_kvm_mp_state_read_at(v: kvm_mp_state, b: Seq<u8>, off: int)
    requires
        0 <= off,
        off + KVM_MP_STATE_SIZE <= b.len(),
        v.mp_state == u32_of_le_bytes(b.subrange(off + 0, off + 4)),
    ensures
        v.spec_bytes() == b.subrange(off, off + KVM_MP_STATE_SIZE),
{
    let s = b.subrange(off, off + KVM_MP_STATE_SIZE as int);
    lemma_u32_le_bytes_of(b.subrange(off + 0, off + 4));
    lemma_subrange_subrange(b, off, off + KVM_MP_STATE_SIZE as int, 0, 4);
    assert(s.subrange(0, KVM_MP_STATE_SIZE as int) =~= s);
    assert(v.spec_bytes() == s);
}

/// Each field's image stands at its kernel offset inside the image of
/// a `kvm_mp_state`.
proof fn lemma_kvm_mp_state_field_images(x: kvm_mp_state)
    ensures
        x.spec_bytes().len() == KVM_MP_STATE_SIZE,
        x.spec_bytes().subrange(0, 4) == u32_le_bytes(x.mp_state),
{
    lemma_kvm_mp_state_bytes_len(x);
    assert(x.spec_bytes().subrange(0, KVM_MP_STATE_SIZE as int) =~= x.spec_bytes());
}

/// The byte image determines the structure: reading an image back
/// always yields the one value that produced it.
#[verifier::rlimit(100)]
#[verifier::spinoff_prover]
pub proof fn lemma_kvm_mp_state_image_injective(a: kvm_mp_state, b: kvm_mp_state)
    requires
        a.spec_bytes() == b.spec_bytes(),
    ensures
        a == b,
{
    lemma_kvm_mp_state_field_images(a);
    lemma_kvm_mp_state_field_images(b);
    lemma_u32_le_roundtrip(a.mp_state);
    lemma_u32_le_roundtrip(b.mp_state);
    assert(a =~= b);
}

/// A `kvm_mp_state` whose fields are all zero has an all-zero byte image,
/// the image of a zeroed ioctl argument buffer.
pub proof fn lemma_kvm_mp_state_zero_image(x: kvm_mp_state)
    requires
        x.is_zeroed(),
    ensures
        x.spec_bytes() == zero_bytes(KVM_MP_STATE_SIZE as int),
{
    lemma_le_bytes_zero();
    assert(x.spec_bytes() == zero_bytes(KVM_MP_STATE_SIZE as int));
}

} // verus!
