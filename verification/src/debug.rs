//! Guest debugging structures.
//!
//! `kvm_guest_debug` is the current control block for hardware-assisted
//! guest debugging; `kvm_debug_guest` is its retired predecessor.

use vstd::prelude::*;

verus! {

broadcast use vstd::array::group_array_axioms;

use crate::codec::CodecError;
use crate::codec::lemma_concat_assoc;
use crate::codec::lemma_concat_empty_left;
use crate::codec::lemma_concat_parts;
use crate::codec::lemma_le_bytes_zero;
use crate::codec::lemma_seq_parts;
use crate::codec::lemma_subrange_subrange;
use crate::codec::lemma_u32_le_bytes_of;
use crate::codec::lemma_u32_le_roundtrip;
use crate::codec::lemma_u64_le_bytes_of;
use crate::codec::lemma_u64_le_roundtrip;
use crate::codec::lemma_zero_bytes_split;
use crate::codec::push_u32_le;
use crate::codec::push_u64_le;
use crate::codec::read_u32_le;
use crate::codec::read_u64_le;
use crate::codec::u32_le_bytes;
use crate::codec::u32_of_le_bytes;
use crate::codec::u64_le_bytes;
use crate::codec::u64_of_le_bytes;
use crate::codec::zero_bytes;

/// Byte size of the `kvm_breakpoint` kernel image.
pub const KVM_BREAKPOINT_SIZE: usize = 16;

/// One breakpoint of the retired debug interface.
#[derive(Clone, Copy, Debug, PartialEq)]
#[verifier::ext_equal]
pub struct kvm_breakpoint {
    pub enabled: u32,
    pub padding: u32,
    pub address: u64,
}

impl kvm_breakpoint {
    /// The 16-byte kernel image of `self`: every field little-endian
    /// at its kernel offset.
    pub open spec fn spec_bytes(self) -> Seq<u8> {
        u32_le_bytes(self.enabled) + u32_le_bytes(self.padding) + u64_le_bytes(self.address)
    }

    /// Every field of `self` holds zero.
    pub open spec fn is_zeroed(self) -> bool {
        self.enabled == 0 && self.padding == 0 && self.address == 0
    }

    /// Appends the image of `self` to `out`.
    pub fn push_image(&self, out: &mut Vec<u8>)
        ensures
            final(out)@ == old(out)@ + self.spec_bytes(),
    {
        let ghost base: Seq<u8> = out@;
        push_u32_le(out, self.enabled);
        let ghost mut acc: Seq<u8> = u32_le_bytes(self.enabled);
        push_u32_le(out, self.padding);
        proof {
            lemma_concat_assoc(base, acc, u32_le_bytes(self.padding));
            acc = acc + (u32_le_bytes(self.padding));
        }
        push_u64_le(out, self.address);
        proof {
            lemma_concat_assoc(base, acc, u64_le_bytes(self.address));
            acc = acc + (u64_le_bytes(self.address));
        }
        proof {
            assert(out@ == base + acc);
            assert(acc == self.spec_bytes());
        }
    }

    /// The image of `self` as a fresh buffer.
    pub fn to_bytes(&self) -> (out: Vec<u8>)
        ensures
            out@ == self.spec_bytes(),
            out@.len() == KVM_BREAKPOINT_SIZE,
    {
        let mut out: Vec<u8> = Vec::new();
        self.push_image(&mut out);
        proof {
            lemma_concat_empty_left(self.spec_bytes());
            lemma_kvm_breakpoint_bytes_len(*self);
        }
        out
    }

    /// Reads the structure whose image starts at offset `off` of `buf`.
    pub fn read_at(buf: &[u8], off: usize) -> (v: Self)
        requires
            off + KVM_BREAKPOINT_SIZE <= buf@.len(),
        ensures
            v.spec_bytes() == buf@.subrange(off as int, off as int + KVM_BREAKPOINT_SIZE),
    {
        let n: usize = buf.len();
        proof {
            assert(off + KVM_BREAKPOINT_SIZE <= n);
        }
        let v = kvm_breakpoint {
            enabled: read_u32_le(buf, off),
            padding: read_u32_le(buf, off + 4),
            address: read_u64_le(buf, off + 8),
        };
        proof {
            lemma_kvm_breakpoint_read_at(v, buf@, off as int);
        }
        v
    }

    /// Reads a structure image from the start of `buf`, failing when the
    /// buffer is too short to hold one.
    pub fn from_bytes(buf: &[u8]) -> (r: Result<Self, CodecError>)
        ensures
            buf@.len() < KVM_BREAKPOINT_SIZE ==> r == Err::<kvm_breakpoint, CodecError>(
                CodecError::IncompleteBuffer,
            ),
            buf@.len() >= KVM_BREAKPOINT_SIZE ==> (r matches Ok(v) && v.spec_bytes() == buf@.subrange(
                0,
                KVM_BREAKPOINT_SIZE as int,
            )),
    {
        if buf.len() < KVM_BREAKPOINT_SIZE {
            Err(CodecError::IncompleteBuffer)
        } else {
            Ok(Self::read_at(buf, 0))
        }
    }
}

impl Default for kvm_breakpoint {
    /// Every field zero: the zeroed ioctl argument convention.
    fn default() -> (r: Self)
        ensures
            r.is_zeroed(),
    {
        let r = kvm_breakpoint {
            enabled: 0,
            padding: 0,
            address: 0,
        };
        r
    }
}

/// The image of a `kvm_breakpoint` is exactly 16 bytes.
pub proof fn lemma_kvm_breakpoint_bytes_len(x: kvm_breakpoint)
    ensures
        x.spec_bytes().len() == KVM_BREAKPOINT_SIZE,
{
}

/// A `kvm_breakpoint` whose fields were decoded from a buffer has that
/// buffer segment as its image.
#[verifier::rlimit(100)]
#[verifier::spinoff_prover]
proof fn lemma_kvm_breakpoint_read_at(v: kvm_breakpoint, b: Seq<u8>, off: int)
    requires
        0 <= off,
        off + KVM_BREAKPOINT_SIZE <= b.len(),
        v.enabled == u32_of_le_bytes(b.subrange(off + 0, off + 4)),
        v.padding == u32_of_le_bytes(b.subrange(off + 4, off + 8)),
        v.address == u64_of_le_bytes(b.subrange(off + 8, off + 16)),
    ensures
        v.spec_bytes() == b.subrange(off, off + KVM_BREAKPOINT_SIZE),
{
    let s = b.subrange(off, off + KVM_BREAKPOINT_SIZE as int);
    lemma_u32_le_bytes_of(b.subrange(off + 0, off + 4));
    lemma_u32_le_bytes_of(b.subrange(off + 4, off + 8));
    lemma_u64_le_bytes_of(b.subrange(off + 8, off + 16));
    lemma_subrange_subrange(b, off, off + KVM_BREAKPOINT_SIZE as int, 0, 4);
    lemma_subrange_subrange(b, off, off + KVM_BREAKPOINT_SIZE as int, 4, 8);
    lemma_subrange_subrange(b, off, off + KVM_BREAKPOINT_SIZE as int, 8, 16);
    lemma_seq_parts(s, 4, 8);
    lemma_seq_parts(s, 8, 16);
    assert(s.subrange(0, KVM_BREAKPOINT_SIZE as int) =~= s);
    assert(v.spec_bytes() == s);
}

/// Field images of a `kvm_breakpoint`, covering one run of fields.
#[verifier::rlimit(100)]
#[verifier::spinoff_prover]
proof fn lemma_kvm_breakpoint_field_images_seg0(x: kvm_breakpoint)
    ensures
        x.spec_bytes().len() == KVM_BREAKPOINT_SIZE,
        x.spec_bytes().subrange(8, 16) == u64_le_bytes(x.address),
        x.spec_bytes().subrange(4, 8) == u32_le_bytes(x.padding),
        x.spec_bytes().subrange(0, 4) == u32_le_bytes(x.enabled),
{
    lemma_kvm_breakpoint_bytes_len(x);
    let p0 = u32_le_bytes(x.enabled);
    let p1 = u32_le_bytes(x.padding);
    let p2 = u64_le_bytes(x.address);
    let t1 = p0 + p1;
    let t2 = t1 + p2;
    assert(x.spec_bytes() == t2);
    lemma_concat_parts(t1, p2);
    lemma_concat_parts(p0, p1);
    lemma_subrange_subrange(x.spec_bytes(), 0, 8, 0, 4);
    lemma_subrange_subrange(x.spec_bytes(), 0, 8, 4, 8);
}

/// Each field's image stands at its kernel offset inside the image of
/// a `kvm_breakpoint`.
proof fn lemma_kvm_breakpoint_field_images(x: kvm_breakpoint)
    ensures
        x.spec_bytes().len() == KVM_BREAKPOINT_SIZE,
        x.spec_bytes().subrange(0, 4) == u32_le_bytes(x.enabled),
        x.spec_bytes().subrange(4, 8) == u32_le_bytes(x.padding),
        x.spec_bytes().subrange(8, 16) == u64_le_bytes(x.address),
{
    lemma_kvm_breakpoint_field_images_seg0(x);
}

/// The byte image determines the structure: reading an image back
/// always yields the one value that produced it.
#[verifier::rlimit(100)]
#[verifier::spinoff_prover]
pub proof fn lemma_kvm_breakpoint_image_injective(a: kvm_breakpoint, b: kvm_breakpoint)
    requires
        a.spec_bytes() == b.spec_bytes(),
    ensures
        a == b,
{
    lemma_kvm_breakpoint_field_images(a);
    lemma_kvm_breakpoint_field_images(b);
    lemma_u32_le_roundtrip(a.enabled);
    lemma_u32_le_roundtrip(b.enabled);
    lemma_u32_le_roundtrip(a.padding);
    lemma_u32_le_roundtrip(b.padding);
    lemma_u64_le_roundtrip(a.address);
    lemma_u64_le_roundtrip(b.address);
    assert(a =~= b);
}

/// A `kvm_breakpoint` whose fields are all zero has an all-zero byte image,
/// the image of a zeroed ioctl argument buffer.
pub proof fn lemma_kvm_breakpoint_zero_image(x: kvm_breakpoint)
    requires
        x.is_zeroed(),
    ensures
        x.spec_bytes() == zero_bytes(KVM_BREAKPOINT_SIZE as int),
{
    lemma_le_bytes_zero();
    lemma_zero_bytes_split(4, 8);
    lemma_zero_bytes_split(8, 16);
    assert(x.spec_bytes() == zero_bytes(KVM_BREAKPOINT_SIZE as int));
}

/// Byte size of the `kvm_debug_guest` kernel image.
pub const KVM_DEBUG_GUEST_SIZE: usize = 76;

/// The retired debug control block.  The image covers the 76
/// meaningful bytes; the kernel structure pads to 80.
#[derive(Clone, Copy, Debug, PartialEq)]
#[verifier::ext_equal]
pub struct kvm_debug_guest {
    pub enabled: u32,
    pub pad: u32,
    pub breakpoints: [kvm_breakpoint; 4],
    pub singlestep: u32,
}

impl kvm_debug_guest {
    /// The 76-byte kernel image of `self`: every field little-endian
    /// at its kernel offset.
    pub open spec fn spec_bytes(self) -> Seq<u8> {
        u32_le_bytes(self.enabled) + u32_le_bytes(self.pad) + self.breakpoints@[0].spec_bytes() + self.breakpoints@[1].spec_bytes() + self.breakpoints@[2].spec_bytes() + self.breakpoints@[3].spec_bytes() + u32_le_bytes(self.singlestep)
    }

    /// Every field of `self` holds zero.
    pub open spec fn is_zeroed(self) -> bool {
        self.enabled == 0 && self.pad == 0 && (forall|k: int| 0 <= k < 4 ==> #[trigger] self.breakpoints@[k].is_zeroed()) && self.singlestep == 0
    }

    /// Appends the image of `self` to `out`.
    pub fn push_image(&self, out: &mut Vec<u8>)
        ensures
            final(out)@ == old(out)@ + self.spec_bytes(),
    {
        let ghost base: Seq<u8> = out@;
        push_u32_le(out, self.enabled);
        let ghost mut acc: Seq<u8> = u32_le_bytes(self.enabled);
        push_u32_le(out, self.pad);
        proof {
            lemma_concat_assoc(base, acc, u32_le_bytes(self.pad));
            acc = acc + (u32_le_bytes(self.pad));
        }
        self.breakpoints[0].push_image(out);
        proof {
            lemma_concat_assoc(base, acc, self.breakpoints@[0].spec_bytes());
            acc = acc + (self.breakpoints@[0].spec_bytes());
        }
        self.breakpoints[1].push_image(out);
        proof {
            lemma_concat_assoc(base, acc, self.breakpoints@[1].spec_bytes());
            acc = acc + (self.breakpoints@[1].spec_bytes());
        }
        self.breakpoints[2].push_image(out);
        proof {
            lemma_concat_assoc(base, acc, self.breakpoints@[2].spec_bytes());
            acc = acc + (self.breakpoints@[2].spec_bytes());
        }
        self.breakpoints[3].push_image(out);
        proof {
            lemma_concat_assoc(base, acc, self.breakpoints@[3].spec_bytes());
            acc = acc + (self.breakpoints@[3].spec_bytes());
        }
        push_u32_le(out, self.singlestep);
        proof {
            lemma_concat_assoc(base, acc, u32_le_bytes(self.singlestep));
            acc = acc + (u32_le_bytes(self.singlestep));
        }
        proof {
            assert(out@ == base + acc);
            assert(acc == self.spec_bytes());
        }
    }

    /// The image of `self` as a fresh buffer.
    pub fn to_bytes(&self) -> (out: Vec<u8>)
        ensures
            out@ == self.spec_bytes(),
            out@.len() == KVM_DEBUG_GUEST_SIZE,
    {
        let mut out: Vec<u8> = Vec::new();
        self.push_image(&mut out);
        proof {
            lemma_concat_empty_left(self.spec_bytes());
            lemma_kvm_debug_guest_bytes_len(*self);
        }
        out
    }

    /// Reads the structure whose image starts at offset `off` of `buf`.
    pub fn read_at(buf: &[u8], off: usize) -> (v: Self)
        requires
            off + KVM_DEBUG_GUEST_SIZE <= buf@.len(),
        ensures
            v.spec_bytes() == buf@.subrange(off as int, off as int + KVM_DEBUG_GUEST_SIZE),
    {
        let n: usize = buf.len();
        proof {
            assert(off + KVM_DEBUG_GUEST_SIZE <= n);
        }
        let v = kvm_debug_guest {
            enabled: read_u32_le(buf, off),
            pad: read_u32_le(buf, off + 4),
            breakpoints: [
                kvm_breakpoint::read_at(buf, off + 8),
                kvm_breakpoint::read_at(buf, off + 24),
                kvm_breakpoint::read_at(buf, off + 40),
                kvm_breakpoint::read_at(buf, off + 56),
            ],
            singlestep: read_u32_le(buf, off + 72),
        };
        proof {
            lemma_kvm_debug_guest_read_at(v, buf@, off as int);
        }
        v
    }

    /// Reads a structure image from the start of `buf`, failing when the
    /// buffer is too short to hold one.
    pub fn from_bytes(buf: &[u8]) -> (r: Result<Self, CodecError>)
        ensures
            buf@.len() < KVM_DEBUG_GUEST_SIZE ==> r == Err::<kvm_debug_guest, CodecError>(
                CodecError::IncompleteBuffer,
            ),
            buf@.len() >= KVM_DEBUG_GUEST_SIZE ==> (r matches Ok(v) && v.spec_bytes() == buf@.subrange(
                0,
                KVM_DEBUG_GUEST_SIZE as int,
            )),
    {
        if buf.len() < KVM_DEBUG_GUEST_SIZE {
            Err(CodecError::IncompleteBuffer)
        } else {
            Ok(Self::read_at(buf, 0))
        }
    }
}

impl Default for kvm_debug_guest {
    /// Every field zero: the zeroed ioctl argument convention.
    fn default() -> (r: Self)
        ensures
            r.is_zeroed(),
    {
        let breakpoints_elem = kvm_breakpoint::default();
        let r = kvm_debug_guest {
            enabled: 0,
            pad: 0,
            breakpoints: vstd::array::array_fill_for_copy_types::<kvm_breakpoint, 4>(breakpoints_elem),
            singlestep: 0,
        };
        proof {
            assert(forall|k: int| 0 <= k < 4 ==> #[trigger] r.breakpoints@[k].is_zeroed());
        }
        r
    }
}

/// The image of a `kvm_debug_guest` is exactly 76 bytes.
pub proof fn lemma_kvm_debug_guest_bytes_len(x: kvm_debug_guest)
    ensures
        x.spec_bytes().len() == KVM_DEBUG_GUEST_SIZE,
{
    lemma_kvm_breakpoint_bytes_len(x.breakpoints@[0]);
    lemma_kvm_breakpoint_bytes_len(x.breakpoints@[1]);
    lemma_kvm_breakpoint_bytes_len(x.breakpoints@[2]);
    lemma_kvm_breakpoint_bytes_len(x.breakpoints@[3]);
}

/// A `kvm_debug_guest` whose fields were decoded from a buffer has that
/// buffer segment as its image.
#[verifier::rlimit(100)]
#[verifier::spinoff_prover]
proof fn lemma_kvm_debug_guest_read_at(v: kvm_debug_guest, b: Seq<u8>, off: int)
    requires
        0 <= off,
        off + KVM_DEBUG_GUEST_SIZE <= b.len(),
        v.enabled == u32_of_le_bytes(b.subrange(off + 0, off + 4)),
        v.pad == u32_of_le_bytes(b.subrange(off + 4, off + 8)),
        v.breakpoints@[0].spec_bytes() == b.subrange(off + 8, off + 24),
        v.breakpoints@[1].spec_bytes() == b.subrange(off + 24, off + 40),
        v.breakpoints@[2].spec_bytes() == b.subrange(off + 40, off + 56),
        v.breakpoints@[3].spec_bytes() == b.subrange(off + 56, off + 72),
        v.singlestep == u32_of_le_bytes(b.subrange(off + 72, off + 76)),
    ensures
        v.spec_bytes() == b.subrange(off, off + KVM_DEBUG_GUEST_SIZE),
{
    let s = b.subrange(off, off + KVM_DEBUG_GUEST_SIZE as int);
    lemma_u32_le_bytes_of(b.subrange(off + 0, off + 4));
    lemma_u32_le_bytes_of(b.subrange(off + 4, off + 8));
    lemma_u32_le_bytes_of(b.subrange(off + 72, off + 76));
    lemma_subrange_subrange(b, off, off + KVM_DEBUG_GUEST_SIZE as int, 0, 4);
    lemma_subrange_subrange(b, off, off + KVM_DEBUG_GUEST_SIZE as int, 4, 8);
    lemma_subrange_subrange(b, off, off + KVM_DEBUG_GUEST_SIZE as int, 8, 24);
    lemma_subrange_subrange(b, off, off + KVM_DEBUG_GUEST_SIZE as int, 24, 40);
    lemma_subrange_subrange(b, off, off + KVM_DEBUG_GUEST_SIZE as int, 40, 56);
    lemma_subrange_subrange(b, off, off + KVM_DEBUG_GUEST_SIZE as int, 56, 72);
    lemma_subrange_subrange(b, off, off + KVM_DEBUG_GUEST_SIZE as int, 72, 76);
    lemma_seq_parts(s, 4, 8);
    lemma_seq_parts(s, 8, 24);
    lemma_seq_parts(s, 24, 40);
    lemma_seq_parts(s, 40, 56);
    lemma_seq_parts(s, 56, 72);
    lemma_seq_parts(s, 72, 76);
    assert(s.subrange(0, KVM_DEBUG_GUEST_SIZE as int) =~= s);
    assert(v.spec_bytes() == s);
}

/// Field images of a `kvm_debug_guest`, covering one run of fields.
#[verifier::rlimit(100)]
#[verifier::spinoff_prover]
proof fn lemma_kvm_debug_guest_field_images_seg0(x: kvm_debug_guest)
    ensures
        x.spec_bytes().len() == KVM_DEBUG_GUEST_SIZE,
        x.spec_bytes().subrange(72, 76) == u32_le_bytes(x.singlestep),
        x.spec_bytes().subrange(56, 72) == x.breakpoints@[3].spec_bytes(),
        x.spec_bytes().subrange(40, 56) == x.breakpoints@[2].spec_bytes(),
        x.spec_bytes().subrange(24, 40) == x.breakpoints@[1].spec_bytes(),
        x.spec_bytes().subrange(8, 24) == x.breakpoints@[0].spec_bytes(),
        x.spec_bytes().subrange(4, 8) == u32_le_bytes(x.pad),
        x.spec_bytes().subrange(0, 4) == u32_le_bytes(x.enabled),
{
    lemma_kvm_debug_guest_bytes_len(x);
    lemma_kvm_breakpoint_bytes_len(x.breakpoints@[0]);
    lemma_kvm_breakpoint_bytes_len(x.breakpoints@[1]);
    lemma_kvm_breakpoint_bytes_len(x.breakpoints@[2]);
    lemma_kvm_breakpoint_bytes_len(x.breakpoints@[3]);
    let p0 = u32_le_bytes(x.enabled);
    let p1 = u32_le_bytes(x.pad);
    let p2 = x.breakpoints@[0].spec_bytes();
    let p3 = x.breakpoints@[1].spec_bytes();
    let p4 = x.breakpoints@[2].spec_bytes();
    let p5 = x.breakpoints@[3].spec_bytes();
    let p6 = u32_le_bytes(x.singlestep);
    let t1 = p0 + p1;
    let t2 = t1 + p2;
    let t3 = t2 + p3;
    let t4 = t3 + p4;
    let t5 = t4 + p5;
    let t6 = t5 + p6;
    assert(x.spec_bytes() == t6);
    lemma_concat_parts(t5, p6);
    lemma_concat_parts(t4, p5);
    lemma_subrange_subrange(x.spec_bytes(), 0, 72, 0, 56);
    lemma_subrange_subrange(x.spec_bytes(), 0, 72, 56, 72);
    lemma_concat_parts(t3, p4);
    lemma_subrange_subrange(x.spec_bytes(), 0, 56, 0, 40);
    lemma_subrange_subrange(x.spec_bytes(), 0, 56, 40, 56);
    lemma_concat_parts(t2, p3);
    lemma_subrange_subrange(x.spec_bytes(), 0, 40, 0, 24);
    lemma_subrange_subrange(x.spec_bytes(), 0, 40, 24, 40);
    lemma_concat_parts(t1, p2);
    lemma_subrange_subrange(x.spec_bytes(), 0, 24, 0, 8);
    lemma_subrange_subrange(x.spec_bytes(), 0, 24, 8, 24);
    lemma_concat_parts(p0, p1);
    lemma_subrange_subrange(x.spec_bytes(), 0, 8, 0, 4);
    lemma_subrange_subrange(x.spec_bytes(), 0, 8, 4, 8);
}

/// Each field's image stands at its kernel offset inside the image of
/// a `kvm_debug_guest`.
proof fn lemma_kvm_debug_guest_field_images(x: kvm_debug_guest)
    ensures
        x.spec_bytes().len() == KVM_DEBUG_GUEST_SIZE,
        x.spec_bytes().subrange(0, 4) == u32_le_bytes(x.enabled),
        x.spec_bytes().subrange(4, 8) == u32_le_bytes(x.pad),
        x.spec_bytes().subrange(8, 24) == x.breakpoints@[0].spec_bytes(),
        x.spec_bytes().subrange(24, 40) == x.breakpoints@[1].spec_bytes(),
        x.spec_bytes().subrange(40, 56) == x.breakpoints@[2].spec_bytes(),
        x.spec_bytes().subrange(56, 72) == x.breakpoints@[3].spec_bytes(),
        x.spec_bytes().subrange(72, 76) == u32_le_bytes(x.singlestep),
{
    lemma_kvm_debug_guest_field_images_seg0(x);
}

/// The byte image determines the structure: reading an image back
/// always yields the one value that produced it.
#[verifier::rlimit(100)]
#[verifier::spinoff_prover]
pub proof fn lemma_kvm_debug_guest_image_injective(a: kvm_debug_guest, b: kvm_debug_guest)
    requires
        a.spec_bytes() == b.spec_bytes(),
    ensures
        a == b,
{
    lemma_kvm_debug_guest_field_images(a);
    lemma_kvm_debug_guest_field_images(b);
    lemma_u32_le_roundtrip(a.enabled);
    lemma_u32_le_roundtrip(b.enabled);
    lemma_u32_le_roundtrip(a.pad);
    lemma_u32_le_roundtrip(b.pad);
    lemma_kvm_breakpoint_image_injective(a.breakpoints@[0], b.breakpoints@[0]);
    lemma_kvm_breakpoint_image_injective(a.breakpoints@[1], b.breakpoints@[1]);
    lemma_kvm_breakpoint_image_injective(a.breakpoints@[2], b.breakpoints@[2]);
    lemma_kvm_breakpoint_image_injective(a.breakpoints@[3], b.breakpoints@[3]);
    assert(a.breakpoints@ =~= b.breakpoints@);
    lemma_u32_le_roundtrip(a.singlestep);
    lemma_u32_le_roundtrip(b.singlestep);
    assert(a =~= b);
}

/// A `kvm_debug_guest` whose fields are all zero has an all-zero byte image,
/// the image of a zeroed ioctl argument buffer.
pub proof fn lemma_kvm_debug_guest_zero_image(x: kvm_debug_guest)
    requires
        x.is_zeroed(),
    ensures
        x.spec_bytes() == zero_bytes(KVM_DEBUG_GUEST_SIZE as int),
{
    lemma_le_bytes_zero();
    lemma_kvm_breakpoint_zero_image(x.breakpoints@[0]);
    lemma_kvm_breakpoint_zero_image(x.breakpoints@[1]);
    lemma_kvm_breakpoint_zero_image(x.breakpoints@[2]);
    lemma_kvm_breakpoint_zero_image(x.breakpoints@[3]);
    lemma_zero_bytes_split(4, 8);
    lemma_zero_bytes_split(8, 24);
    lemma_zero_bytes_split(24, 40);
    lemma_zero_bytes_split(40, 56);
    lemma_zero_bytes_split(56, 72);
    lemma_zero_bytes_split(72, 76);
    assert(x.spec_bytes() == zero_bytes(KVM_DEBUG_GUEST_SIZE as int));
}

/// Byte size of the `kvm_guest_debug_arch` kernel image.
pub const KVM_GUEST_DEBUG_ARCH_SIZE: usize = 64;

/// The architectural debug registers handed to the guest debugger.
#[derive(Clone, Copy, Debug, PartialEq)]
#[verifier::ext_equal]
pub struct kvm_guest_debug_arch {
    pub debugreg: [u64; 8],
}

impl kvm_guest_debug_arch {
    /// The 64-byte kernel image of `self`: every field little-endian
    /// at its kernel offset.
    pub open spec fn spec_bytes(self) -> Seq<u8> {
        u64_le_bytes(self.debugreg@[0]) + u64_le_bytes(self.debugreg@[1]) + u64_le_bytes(self.debugreg@[2]) + u64_le_bytes(self.debugreg@[3]) + u64_le_bytes(self.debugreg@[4]) + u64_le_bytes(self.debugreg@[5]) + u64_le_bytes(self.debugreg@[6]) + u64_le_bytes(self.debugreg@[7])
    }

    /// Every field of `self` holds zero.
    pub open spec fn is_zeroed(self) -> bool {
        self.debugreg@ == Seq::new(8, |i: int| 0u64)
    }

    /// Appends the image of `self` to `out`.
    pub fn push_image(&self, out: &mut Vec<u8>)
        ensures
            final(out)@ == old(out)@ + self.spec_bytes(),
    {
        let ghost base: Seq<u8> = out@;
        push_u64_le(out, self.debugreg[0]);
        let ghost mut acc: Seq<u8> = u64_le_bytes(self.debugreg@[0]);
        push_u64_le(out, self.debugreg[1]);
        proof {
            lemma_concat_assoc(base, acc, u64_le_bytes(self.debugreg@[1]));
            acc = acc + (u64_le_bytes(self.debugreg@[1]));
        }
        push_u64_le(out, self.debugreg[2]);
        proof {
            lemma_concat_assoc(base, acc, u64_le_bytes(self.debugreg@[2]));
            acc = acc + (u64_le_bytes(self.debugreg@[2]));
        }
        push_u64_le(out, self.debugreg[3]);
        proof {
            lemma_concat_assoc(base, acc, u64_le_bytes(self.debugreg@[3]));
            acc = acc + (u64_le_bytes(self.debugreg@[3]));
        }
        push_u64_le(out, self.debugreg[4]);
        proof {
            lemma_concat_assoc(base, acc, u64_le_bytes(self.debugreg@[4]));
            acc = acc + (u64_le_bytes(self.debugreg@[4]));
        }
        push_u64_le(out, self.debugreg[5]);
        proof {
            lemma_concat_assoc(base, acc, u64_le_bytes(self.debugreg@[5]));
            acc = acc + (u64_le_bytes(self.debugreg@[5]));
        }
        push_u64_le(out, self.debugreg[6]);
        proof {
            lemma_concat_assoc(base, acc, u64_le_bytes(self.debugreg@[6]));
            acc = acc + (u64_le_bytes(self.debugreg@[6]));
        }
        push_u64_le(out, self.debugreg[7]);
        proof {
            lemma_concat_assoc(base, acc, u64_le_bytes(self.debugreg@[7]));
            acc = acc + (u64_le_bytes(self.debugreg@[7]));
        }
        proof {
            assert(out@ == base + acc);
            assert(acc == self.spec_bytes());
        }
    }

    /// The image of `self` as a fresh buffer.
    pub fn to_bytes(&self) -> (out: Vec<u8>)
        ensures
            out@ == self.spec_bytes(),
            out@.len() == KVM_GUEST_DEBUG_ARCH_SIZE,
    {
        let mut out: Vec<u8> = Vec::new();
        self.push_image(&mut out);
        proof {
            lemma_concat_empty_left(self.spec_bytes());
            lemma_kvm_guest_debug_arch_bytes_len(*self);
        }
        out
    }

    /// Reads the structure whose image starts at offset `off` of `buf`.
    pub fn read_at(buf: &[u8], off: usize) -> (v: Self)
        requires
            off + KVM_GUEST_DEBUG_ARCH_SIZE <= buf@.len(),
        ensures
            v.spec_bytes() == buf@.subrange(off as int, off as int + KVM_GUEST_DEBUG_ARCH_SIZE),
    {
        let n: usize = buf.len();
        proof {
            assert(off + KVM_GUEST_DEBUG_ARCH_SIZE <= n);
        }
        let v = kvm_guest_debug_arch {
            debugreg: [read_u64_le(buf, off), read_u64_le(buf, off + 8), read_u64_le(buf, off + 16), read_u64_le(buf, off + 24), read_u64_le(buf, off + 32), read_u64_le(buf, off + 40), read_u64_le(buf, off + 48), read_u64_le(buf, off + 56)],
        };
        proof {
            lemma_kvm_guest_debug_arch_read_at(v, buf@, off as int);
        }
        v
    }

    /// Reads a structure image from the start of `buf`, failing when the
    /// buffer is too short to hold one.
    pub fn from_bytes(buf: &[u8]) -> (r: Result<Self, CodecError>)
        ensures
            buf@.len() < KVM_GUEST_DEBUG_ARCH_SIZE ==> r == Err::<kvm_guest_debug_arch, CodecError>(
                CodecError::IncompleteBuffer,
            ),
            buf@.len() >= KVM_GUEST_DEBUG_ARCH_SIZE ==> (r matches Ok(v) && v.spec_bytes() == buf@.subrange(
                0,
                KVM_GUEST_DEBUG_ARCH_SIZE as int,
            )),
    {
        if buf.len() < KVM_GUEST_DEBUG_ARCH_SIZE {
            Err(CodecError::IncompleteBuffer)
        } else {
            Ok(Self::read_at(buf, 0))
        }
    }
}

impl Default for kvm_guest_debug_arch {
    /// Every field zero: the zeroed ioctl argument convention.
    fn default() -> (r: Self)
        ensures
            r.is_zeroed(),
    {
        let r = kvm_guest_debug_arch {
            debugreg: vstd::array::array_fill_for_copy_types::<u64, 8>(0u64),
        };
        proof {
            assert(r.debugreg@ =~= Seq::new(8, |i: int| 0u64));
        }
        r
    }
}

/// The image of a `kvm_guest_debug_arch` is exactly 64 bytes.
pub proof fn lemma_kvm_guest_debug_arch_bytes_len(x: kvm_guest_debug_arch)
    ensures
        x.spec_bytes().len() == KVM_GUEST_DEBUG_ARCH_SIZE,
{
}

/// A `kvm_guest_debug_arch` whose fields were decoded from a buffer has that
/// buffer segment as its image.
#[verifier::rlimit(100)]
#[verifier::spinoff_prover]
proof fn lemma_kvm_guest_debug_arch_read_at(v: kvm_guest_debug_arch, b: Seq<u8>, off: int)
    requires
        0 <= off,
        off + KVM_GUEST_DEBUG_ARCH_SIZE <= b.len(),
        v.debugreg@[0] == u64_of_le_bytes(b.subrange(off + 0, off + 8)),
        v.debugreg@[1] == u64_of_le_bytes(b.subrange(off + 8, off + 16)),
        v.debugreg@[2] == u64_of_le_bytes(b.subrange(off + 16, off + 24)),
        v.debugreg@[3] == u64_of_le_bytes(b.subrange(off + 24, off + 32)),
        v.debugreg@[4] == u64_of_le_bytes(b.subrange(off + 32, off + 40)),
        v.debugreg@[5] == u64_of_le_bytes(b.subrange(off + 40, off + 48)),
        v.debugreg@[6] == u64_of_le_bytes(b.subrange(off + 48, off + 56)),
        v.debugreg@[7] == u64_of_le_bytes(b.subrange(off + 56, off + 64)),
    ensures
        v.spec_bytes() == b.subrange(off, off + KVM_GUEST_DEBUG_ARCH_SIZE),
{
    let s = b.subrange(off, off + KVM_GUEST_DEBUG_ARCH_SIZE as int);
    lemma_u64_le_bytes_of(b.subrange(off + 0, off + 8));
    lemma_u64_le_bytes_of(b.subrange(off + 8, off + 16));
    lemma_u64_le_bytes_of(b.subrange(off + 16, off + 24));
    lemma_u64_le_bytes_of(b.subrange(off + 24, off + 32));
    lemma_u64_le_bytes_of(b.subrange(off + 32, off + 40));
    lemma_u64_le_bytes_of(b.subrange(off + 40, off + 48));
    lemma_u64_le_bytes_of(b.subrange(off + 48, off + 56));
    lemma_u64_le_bytes_of(b.subrange(off + 56, off + 64));
    lemma_subrange_subrange(b, off, off + KVM_GUEST_DEBUG_ARCH_SIZE as int, 0, 8);
    lemma_subrange_subrange(b, off, off + KVM_GUEST_DEBUG_ARCH_SIZE as int, 8, 16);
    lemma_subrange_subrange(b, off, off + KVM_GUEST_DEBUG_ARCH_SIZE as int, 16, 24);
    lemma_subrange_subrange(b, off, off + KVM_GUEST_DEBUG_ARCH_SIZE as int, 24, 32);
    lemma_subrange_subrange(b, off, off + KVM_GUEST_DEBUG_ARCH_SIZE as int, 32, 40);
    lemma_subrange_subrange(b, off, off + KVM_GUEST_DEBUG_ARCH_SIZE as int, 40, 48);
    lemma_subrange_subrange(b, off, off + KVM_GUEST_DEBUG_ARCH_SIZE as int, 48, 56);
    lemma_subrange_subrange(b, off, off + KVM_GUEST_DEBUG_ARCH_SIZE as int, 56, 64);
    lemma_seq_parts(s, 8, 16);
    lemma_seq_parts(s, 16, 24);
    lemma_seq_parts(s, 24, 32);
    lemma_seq_parts(s, 32, 40);
    lemma_seq_parts(s, 40, 48);
    lemma_seq_parts(s, 48, 56);
    lemma_seq_parts(s, 56, 64);
    assert(s.subrange(0, KVM_GUEST_DEBUG_ARCH_SIZE as int) =~= s);
    assert(v.spec_bytes() == s);
}

/// Field images of a `kvm_guest_debug_arch`, covering one run of fields.
#[verifier::rlimit(100)]
#[verifier::spinoff_prover]
proof fn lemma_kvm_guest_debug_arch_field_images_seg0(x: kvm_guest_debug_arch)
    ensures
        x.spec_bytes().len() == KVM_GUEST_DEBUG_ARCH_SIZE,
        x.spec_bytes().subrange(56, 64) == u64_le_bytes(x.debugreg@[7]),
        x.spec_bytes().subrange(48, 56) == u64_le_bytes(x.debugreg@[6]),
        x.spec_bytes().subrange(40, 48) == u64_le_bytes(x.debugreg@[5]),
        x.spec_bytes().subrange(32, 40) == u64_le_bytes(x.debugreg@[4]),
        x.spec_bytes().subrange(24, 32) == u64_le_bytes(x.debugreg@[3]),
        x.spec_bytes().subrange(16, 24) == u64_le_bytes(x.debugreg@[2]),
        x.spec_bytes().subrange(8, 16) == u64_le_bytes(x.debugreg@[1]),
        x.spec_bytes().subrange(0, 8) == u64_le_bytes(x.debugreg@[0]),
{
    lemma_kvm_guest_debug_arch_bytes_len(x);
    let p0 = u64_le_bytes(x.debugreg@[0]);
    let p1 = u64_le_bytes(x.debugreg@[1]);
    let p2 = u64_le_bytes(x.debugreg@[2]);
    let p3 = u64_le_bytes(x.debugreg@[3]);
    let p4 = u64_le_bytes(x.debugreg@[4]);
    let p5 = u64_le_bytes(x.debugreg@[5]);
    let p6 = u64_le_bytes(x.debugreg@[6]);
    let p7 = u64_le_bytes(x.debugreg@[7]);
    let t1 = p0 + p1;
    let t2 = t1 + p2;
    let t3 = t2 + p3;
    let t4 = t3 + p4;
    let t5 = t4 + p5;
    let t6 = t5 + p6;
    let t7 = t6 + p7;
    assert(x.spec_bytes() == t7);
    lemma_concat_parts(t6, p7);
    lemma_concat_parts(t5, p6);
    lemma_subrange_subrange(x.spec_bytes(), 0, 56, 0, 48);
    lemma_subrange_subrange(x.spec_bytes(), 0, 56, 48, 56);
    lemma_concat_parts(t4, p5);
    lemma_subrange_subrange(x.spec_bytes(), 0, 48, 0, 40);
    lemma_subrange_subrange(x.spec_bytes(), 0, 48, 40, 48);
    lemma_concat_parts(t3, p4);
    lemma_subrange_subrange(x.spec_bytes(), 0, 40, 0, 32);
    lemma_subrange_subrange(x.spec_bytes(), 0, 40, 32, 40);
    lemma_concat_parts(t2, p3);
    lemma_subrange_subrange(x.spec_bytes(), 0, 32, 0, 24);
    lemma_subrange_subrange(x.spec_bytes(), 0, 32, 24, 32);
    lemma_concat_parts(t1, p2);
    lemma_subrange_subrange(x.spec_bytes(), 0, 24, 0, 16);
    lemma_subrange_subrange(x.spec_bytes(), 0, 24, 16, 24);
    lemma_concat_parts(p0, p1);
    lemma_subrange_subrange(x.spec_bytes(), 0, 16, 0, 8);
    lemma_subrange_subrange(x.spec_bytes(), 0, 16, 8, 16);
}

/// Each field's image stands at its kernel offset inside the image of
/// a `kvm_guest_debug_arch`.
proof fn lemma_kvm_guest_debug_arch_field_images(x: kvm_guest_debug_arch)
    ensures
        x.spec_bytes().len() == KVM_GUEST_DEBUG_ARCH_SIZE,
        x.spec_bytes().subrange(0, 8) == u64_le_bytes(x.debugreg@[0]),
        x.spec_bytes().subrange(8, 16) == u64_le_bytes(x.debugreg@[1]),
        x.spec_bytes().subrange(16, 24) == u64_le_bytes(x.debugreg@[2]),
        x.spec_bytes().subrange(24, 32) == u64_le_bytes(x.debugreg@[3]),
        x.spec_bytes().subrange(32, 40) == u64_le_bytes(x.debugreg@[4]),
        x.spec_bytes().subrange(40, 48) == u64_le_bytes(x.debugreg@[5]),
        x.spec_bytes().subrange(48, 56) == u64_le_bytes(x.debugreg@[6]),
        x.spec_bytes().subrange(56, 64) == u64_le_bytes(x.debugreg@[7]),
{
    lemma_kvm_guest_debug_arch_field_images_seg0(x);
}

/// The byte image determines the structure: reading an image back
/// always yields the one value that produced it.
#[verifier::rlimit(100)]
#[verifier::spinoff_prover]
pub proof fn lemma_kvm_guest_debug_arch_image_injective(a: kvm_guest_debug_arch, b: kvm_guest_debug_arch)
    requires
        a.spec_bytes() == b.spec_bytes(),
    ensures
        a == b,
{
    lemma_kvm_guest_debug_arch_field_images(a);
    lemma_kvm_guest_debug_arch_field_images(b);
    lemma_u64_le_roundtrip(a.debugreg@[0]);
    lemma_u64_le_roundtrip(b.debugreg@[0]);
    lemma_u64_le_roundtrip(a.debugreg@[1]);
    lemma_u64_le_roundtrip(b.debugreg@[1]);
    lemma_u64_le_roundtrip(a.debugreg@[2]);
    lemma_u64_le_roundtrip(b.debugreg@[2]);
    lemma_u64_le_roundtrip(a.debugreg@[3]);
    lemma_u64_le_roundtrip(b.debugreg@[3]);
    lemma_u64_le_roundtrip(a.debugreg@[4]);
    lemma_u64_le_roundtrip(b.debugreg@[4]);
    lemma_u64_le_roundtrip(a.debugreg@[5]);
    lemma_u64_le_roundtrip(b.debugreg@[5]);
    lemma_u64_le_roundtrip(a.debugreg@[6]);
    lemma_u64_le_roundtrip(b.debugreg@[6]);
    lemma_u64_le_roundtrip(a.debugreg@[7]);
    lemma_u64_le_roundtrip(b.debugreg@[7]);
    assert(a.debugreg@ =~= b.debugreg@);
    assert(a =~= b);
}

/// A `kvm_guest_debug_arch` whose fields are all zero has an all-zero byte image,
/// the image of a zeroed ioctl argument buffer.
pub proof fn lemma_kvm_guest_debug_arch_zero_image(x: kvm_guest_debug_arch)
    requires
        x.is_zeroed(),
    ensures
        x.spec_bytes() == zero_bytes(KVM_GUEST_DEBUG_ARCH_SIZE as int),
{
    lemma_le_bytes_zero();
    lemma_zero_bytes_split(8, 16);
    lemma_zero_bytes_split(16, 24);
    lemma_zero_bytes_split(24, 32);
    lemma_zero_bytes_split(32, 40);
    lemma_zero_bytes_split(40, 48);
    lemma_zero_bytes_split(48, 56);
    lemma_zero_bytes_split(56, 64);
    assert(x.spec_bytes() == zero_bytes(KVM_GUEST_DEBUG_ARCH_SIZE as int));
}

/// Byte size of the `kvm_guest_debug` kernel image.
pub const KVM_GUEST_DEBUG_SIZE: usize = 72;

/// The argument of the set-guest-debug ioctl.
#[derive(Clone, Copy, Debug, PartialEq)]
#[verifier::ext_equal]
pub struct kvm_guest_debug {
    pub control: u32,
    pub pad: u32,
    pub arch: kvm_guest_debug_arch,
}

impl kvm_guest_debug {
    /// The 72-byte kernel image of `self`: every field little-endian
    /// at its kernel offset.
    pub open spec fn spec_bytes(self) -> Seq<u8> {
        u32_le_bytes(self.control) + u32_le_bytes(self.pad) + self.arch.spec_bytes()
    }

    /// Every field of `self` holds zero.
    pub open spec fn is_zeroed(self) -> bool {
        self.control == 0 && self.pad == 0 && self.arch.is_zeroed()
    }

    /// Appends the image of `self` to `out`.
    pub fn push_image(&self, out: &mut Vec<u8>)
        ensures
            final(out)@ == old(out)@ + self.spec_bytes(),
    {
        let ghost base: Seq<u8> = out@;
        push_u32_le(out, self.control);
        let ghost mut acc: Seq<u8> = u32_le_bytes(self.control);
        push_u32_le(out, self.pad);
        proof {
            lemma_concat_assoc(base, acc, u32_le_bytes(self.pad));
            acc = acc + (u32_le_bytes(self.pad));
        }
        self.arch.push_image(out);
        proof {
            lemma_concat_assoc(base, acc, self.arch.spec_bytes());
            acc = acc + (self.arch.spec_bytes());
        }
        proof {
            assert(out@ == base + acc);
            assert(acc == self.spec_bytes());
        }
    }

    /// The image of `self` as a fresh buffer.
    pub fn to_bytes(&self) -> (out: Vec<u8>)
        ensures
            out@ == self.spec_bytes(),
            out@.len() == KVM_GUEST_DEBUG_SIZE,
    {
        let mut out: Vec<u8> = Vec::new();
        self.push_image(&mut out);
        proof {
            lemma_concat_empty_left(self.spec_bytes());
            lemma_kvm_guest_debug_bytes_len(*self);
        }
        out
    }

    /// Reads the structure whose image starts at offset `off` of `buf`.
    pub fn read_at(buf: &[u8], off: usize) -> (v: Self)
        requires
            off + KVM_GUEST_DEBUG_SIZE <= buf@.len(),
        ensures
            v.spec_bytes() == buf@.subrange(off as int, off as int + KVM_GUEST_DEBUG_SIZE),
    {
        let n: usize = buf.len();
        proof {
            assert(off + KVM_GUEST_DEBUG_SIZE <= n);
        }
        let v = kvm_guest_debug {
            control: read_u32_le(buf, off),
            pad: read_u32_le(buf, off + 4),
            arch: kvm_guest_debug_arch::read_at(buf, off + 8),
        };
        proof {
            lemma_kvm_guest_debug_read_at(v, buf@, off as int);
        }
        v
    }

    /// Reads a structure image from the start of `buf`, failing when the
    /// buffer is too short to hold one.
    pub fn from_bytes(buf: &[u8]) -> (r: Result<Self, CodecError>)
        ensures
            buf@.len() < KVM_GUEST_DEBUG_SIZE ==> r == Err::<kvm_guest_debug, CodecError>(
                CodecError::IncompleteBuffer,
            ),
            buf@.len() >= KVM_GUEST_DEBUG_SIZE ==> (r matches Ok(v) && v.spec_bytes() == buf@.subrange(
                0,
                KVM_GUEST_DEBUG_SIZE as int,
            )),
    {
        if buf.len() < KVM_GUEST_DEBUG_SIZE {
            Err(CodecError::IncompleteBuffer)
        } else {
            Ok(Self::read_at(buf, 0))
        }
    }
}

impl Default for kvm_guest_debug {
    /// Every field zero: the zeroed ioctl argument convention.
    fn default() -> (r: Self)
        ensures
            r.is_zeroed(),
    {
        let r = kvm_guest_debug {
            control: 0,
            pad: 0,
            arch: kvm_guest_debug_arch::default(),
        };
        r
    }
}

/// The image of a `kvm_guest_debug` is exactly 72 bytes.
pub proof fn lemma_kvm_guest_debug_bytes_len(x: kvm_guest_debug)
    ensures
        x.spec_bytes().len() == KVM_GUEST_DEBUG_SIZE,
{
    lemma_kvm_guest_debug_arch_bytes_len(x.arch);
}

/// A `kvm_guest_debug` whose fields were decoded from a buffer has that
/// buffer segment as its image.
#[verifier::rlimit(100)]
#[verifier::spinoff_prover]
proof fn lemma_kvm_guest_debug_read_at(v: kvm_guest_debug, b: Seq<u8>, off: int)
    requires
        0 <= off,
        off + KVM_GUEST_DEBUG_SIZE <= b.len(),
        v.control == u32_of_le_bytes(b.subrange(off + 0, off + 4)),
        v.pad == u32_of_le_bytes(b.subrange(off + 4, off + 8)),
        v.arch.spec_bytes() == b.subrange(off + 8, off + 72),
    ensures
        v.spec_bytes() == b.subrange(off, off + KVM_GUEST_DEBUG_SIZE),
{
    let s = b.subrange(off, off + KVM_GUEST_DEBUG_SIZE as int);
    lemma_u32_le_bytes_of(b.subrange(off + 0, off + 4));
    lemma_u32_le_bytes_of(b.subrange(off + 4, off + 8));
    lemma_subrange_subrange(b, off, off + KVM_GUEST_DEBUG_SIZE as int, 0, 4);
    lemma_subrange_subrange(b, off, off + KVM_GUEST_DEBUG_SIZE as int, 4, 8);
    lemma_subrange_subrange(b, off, off + KVM_GUEST_DEBUG_SIZE as int, 8, 72);
    lemma_seq_parts(s, 4, 8);
    lemma_seq_parts(s, 8, 72);
    assert(s.subrange(0, KVM_GUEST_DEBUG_SIZE as int) =~= s);
    assert(v.spec_bytes() == s);
}

/// Field images of a `kvm_guest_debug`, covering one run of fields.
#[verifier::rlimit(100)]
#[verifier::spinoff_prover]
proof fn lemma_kvm_guest_debug_field_images_seg0(x: kvm_guest_debug)
    ensures
        x.spec_bytes().len() == KVM_GUEST_DEBUG_SIZE,
        x.spec_bytes().subrange(8, 72) == x.arch.spec_bytes(),
        x.spec_bytes().subrange(4, 8) == u32_le_bytes(x.pad),
        x.spec_bytes().subrange(0, 4) == u32_le_bytes(x.control),
{
    lemma_kvm_guest_debug_bytes_len(x);
    lemma_kvm_guest_debug_arch_bytes_len(x.arch);
    let p0 = u32_le_bytes(x.control);
    let p1 = u32_le_bytes(x.pad);
    let p2 = x.arch.spec_bytes();
    let t1 = p0 + p1;
    let t2 = t1 + p2;
    assert(x.spec_bytes() == t2);
    lemma_concat_parts(t1, p2);
    lemma_concat_parts(p0, p1);
    lemma_subrange_subrange(x.spec_bytes(), 0, 8, 0, 4);
    lemma_subrange_subrange(x.spec_bytes(), 0, 8, 4, 8);
}

/// Each field's image stands at its kernel offset inside the image of
/// a `kvm_guest_debug`.
proof fn lemma_kvm_guest_debug_field_images(x: kvm_guest_debug)
    ensures
        x.spec_bytes().len() == KVM_GUEST_DEBUG_SIZE,
        x.spec_bytes().subrange(0, 4) == u32_le_bytes(x.control),
        x.spec_bytes().subrange(4, 8) == u32_le_bytes(x.pad),
        x.spec_bytes().subrange(8, 72) == x.arch.spec_bytes(),
{
    lemma_kvm_guest_debug_field_images_seg0(x);
}

/// The byte image determines the structure: reading an image back
/// always yields the one value that produced it.
#[verifier::rlimit(100)]
#[verifier::spinoff_prover]
pub proof fn lemma_kvm_guest_debug_image_injective(a: kvm_guest_debug, b: kvm_guest_debug)
    requires
        a.spec_bytes() == b.spec_bytes(),
    ensures
        a == b,
{
    lemma_kvm_guest_debug_field_images(a);
    lemma_kvm_guest_debug_field_images(b);
    lemma_u32_le_roundtrip(a.control);
    lemma_u32_le_roundtrip(b.control);
    lemma_u32_le_roundtrip(a.pad);
    lemma_u32_le_roundtrip(b.pad);
    lemma_kvm_guest_debug_arch_image_injective(a.arch, b.arch);
    assert(a =~= b);
}

/// A `kvm_guest_debug` whose fields are all zero has an all-zero byte image,
/// the image of a zeroed ioctl argument buffer.
pub proof fn lemma_kvm_guest_debug_zero_image(x: kvm_guest_debug)
    requires
        x.is_zeroed(),
    ensures
        x.spec_bytes() == zero_bytes(KVM_GUEST_DEBUG_SIZE as int),
{
    lemma_le_bytes_zero();
    lemma_kvm_guest_debug_arch_zero_image(x.arch);
    lemma_zero_bytes_split(4, 8);
    lemma_zero_bytes_split(8, 72);
    assert(x.spec_bytes() == zero_bytes(KVM_GUEST_DEBUG_SIZE as int));
}

} // verus!
