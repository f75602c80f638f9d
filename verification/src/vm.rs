//! Per-VM structures: guest clock and memory slots.

use vstd::prelude::*;

verus! {

broadcast use vstd::array::group_array_axioms;

use crate::codec::CodecError;
use crate::codec::push_u8;
use crate::codec::push_u8s;
use crate::codec::read_u8;
use crate::codec::read_u8s;
use crate::fam::__IncompleteArrayField;
use crate::codec::lemma_concat_assoc;
use crate::codec::lemma_concat_empty_left;
use crate::codec::lemma_concat_parts;
use crate::codec::lemma_le_bytes_zero;
use crate::codec::lemma_seq_parts;
use crate::codec::lemma_subrange_subrange;
use crate::codec::lemma_u32_le_bytes_of;
use crate::codec::lemma_u32_le_roundtrip;
use crate::codec::lemma_u64_le_bytes_of;
use crate::codec::lemma_u64_le_roundtrip;
use crate::codec::lemma_zero_bytes_split;
use crate::codec::push_u32_le;
use crate::codec::push_u64_le;
use crate::codec::read_u32_le;
use crate::codec::read_u64_le;
use crate::codec::u32_le_bytes;
use crate::codec::u32_of_le_bytes;
use crate::codec::u64_le_bytes;
use crate::codec::u64_of_le_bytes;
use crate::codec::zero_bytes;

/// Byte size of the `kvm_clock_data` kernel image.
pub const KVM_CLOCK_DATA_SIZE: usize = 48;

/// The guest clock, exchanged by the clock get/set ioctls.
#[derive(Clone, Copy, Debug, PartialEq)]
#[verifier::ext_equal]
pub struct kvm_clock_data {
    pub clock: u64,
    pub flags: u32,
    pub pad: [u32; 9],
}

impl kvm_clock_data {
    /// The 48-byte kernel image of `self`: every field little-endian
    /// at its kernel offset.
    pub open spec fn spec_bytes(self) -> Seq<u8> {
        u64_le_bytes(self.clock) + u32_le_bytes(self.flags) + u32_le_bytes(self.pad@[0]) + u32_le_bytes(self.pad@[1]) + u32_le_bytes(self.pad@[2]) + u32_le_bytes(self.pad@[3]) + u32_le_bytes(self.pad@[4]) + u32_le_bytes(self.pad@[5]) + u32_le_bytes(self.pad@[6]) + u32_le_bytes(self.pad@[7]) + u32_le_bytes(self.pad@[8])
    }

    /// Every field of `self` holds zero.
    pub open spec fn is_zeroed(self) -> bool {
        self.clock == 0 && self.flags == 0 && self.pad@ == Seq::new(9, |i: int| 0u32)
    }

    /// Appends the image of `self` to `out`.
    pub fn push_image(&self, out: &mut Vec<u8>)
        ensures
            final(out)@ == old(out)@ + self.spec_bytes(),
    {
        let ghost base: Seq<u8> = out@;
        push_u64_le(out, self.clock);
        let ghost mut acc: Seq<u8> = u64_le_bytes(self.clock);
        push_u32_le(out, self.flags);
        proof {
            lemma_concat_assoc(base, acc, u32_le_bytes(self.flags));
            acc = acc + (u32_le_bytes(self.flags));
        }
        push_u32_le(out, self.pad[0]);
        proof {
            lemma_concat_assoc(base, acc, u32_le_bytes(self.pad@[0]));
            acc = acc + (u32_le_bytes(self.pad@[0]));
        }
        push_u32_le(out, self.pad[1]);
        proof {
            lemma_concat_assoc(base, acc, u32_le_bytes(self.pad@[1]));
            acc = acc + (u32_le_bytes(self.pad@[1]));
        }
        push_u32_le(out, self.pad[2]);
        proof {
            lemma_concat_assoc(base, acc, u32_le_bytes(self.pad@[2]));
            acc = acc + (u32_le_bytes(self.pad@[2]));
        }
        push_u32_le(out, self.pad[3]);
        proof {
            lemma_concat_assoc(base, acc, u32_le_bytes(self.pad@[3]));
            acc = acc + (u32_le_bytes(self.pad@[3]));
        }
        push_u32_le(out, self.pad[4]);
        proof {
            lemma_concat_assoc(base, acc, u32_le_bytes(self.pad@[4]));
            acc = acc + (u32_le_bytes(self.pad@[4]));
        }
        push_u32_le(out, self.pad[5]);
        proof {
            lemma_concat_assoc(base, acc, u32_le_bytes(self.pad@[5]));
            acc = acc + (u32_le_bytes(self.pad@[5]));
        }
        push_u32_le(out, self.pad[6]);
        proof {
            lemma_concat_assoc(base, acc, u32_le_bytes(self.pad@[6]));
            acc = acc + (u32_le_bytes(self.pad@[6]));
        }
        push_u32_le(out, self.pad[7]);
        proof {
            lemma_concat_assoc(base, acc, u32_le_bytes(self.pad@[7]));
            acc = acc + (u32_le_bytes(self.pad@[7]));
        }
        push_u32_le(out, self.pad[8]);
        proof {
            lemma_concat_assoc(base, acc, u32_le_bytes(self.pad@[8]));
            acc = acc + (u32_le_bytes(self.pad@[8]));
        }
        proof {
            assert(out@ == base + acc);
            assert(acc == self.spec_bytes());
        }
    }

    /// The image of `self` as a fresh buffer.
    pub fn to_bytes(&self) -> (out: Vec<u8>)
        ensures
            out@ == self.spec_bytes(),
            out@.len() == KVM_CLOCK_DATA_SIZE,
    {
        let mut out: Vec<u8> = Vec::new();
        self.push_image(&mut out);
        proof {
            lemma_concat_empty_left(self.spec_bytes());
            lemma_kvm_clock_data_bytes_len(*self);
        }
        out
    }

    /// Reads the structure whose image starts at offset `off` of `buf`.
    pub fn read_at(buf: &[u8], off: usize) -> (v: Self)
        requires
            off + KVM_CLOCK_DATA_SIZE <= buf@.len(),
        ensures
            v.spec_bytes() == buf@.subrange(off as int, off as int + KVM_CLOCK_DATA_SIZE),
    {
        let n: usize = buf.len();
        proof {
            assert(off + KVM_CLOCK_DATA_SIZE <= n);
        }
        let v = kvm_clock_data {
            clock: read_u64_le(buf, off),
            flags: read_u32_le(buf, off + 8),
            pad: [read_u32_le(buf, off + 12), read_u32_le(buf, off + 16), read_u32_le(buf, off + 20), read_u32_le(buf, off + 24), read_u32_le(buf, off + 28), read_u32_le(buf, off + 32), read_u32_le(buf, off + 36), read_u32_le(buf, off + 40), read_u32_le(buf, off + 44)],
        };
        proof {
            lemma_kvm_clock_data_read_at(v, buf@, off as int);
        }
        v
    }

    /// Reads a structure image from the start of `buf`, failing when the
    /// buffer is too short to hold one.
    pub fn from_bytes(buf: &[u8]) -> (r: Result<Self, CodecError>)
        ensures
            buf@.len() < KVM_CLOCK_DATA_SIZE ==> r == Err::<kvm_clock_data, CodecError>(
                CodecError::IncompleteBuffer,
            ),
            buf@.len() >= KVM_CLOCK_DATA_SIZE ==> (r matches Ok(v) && v.spec_bytes() == buf@.subrange(
                0,
                KVM_CLOCK_DATA_SIZE as int,
            )),
    {
        if buf.len() < KVM_CLOCK_DATA_SIZE {
            Err(CodecError::IncompleteBuffer)
        } else {
            Ok(Self::read_at(buf, 0))
        }
    }
}

impl Default for kvm_clock_data {
    /// Every field zero: the zeroed ioctl argument convention.
    fn default() -> (r: Self)
        ensures
            r.is_zeroed(),
    {
        let r = kvm_clock_data {
            clock: 0,
            flags: 0,
            pad: vstd::array::array_fill_for_copy_types::<u32, 9>(0u32),
        };
        proof {
            assert(r.pad@ =~= Seq::new(9, |i: int| 0u32));
        }
        r
    }
}

/// The image of a `kvm_clock_data` is exactly 48 bytes.
pub proof fn lemma_kvm_clock_data_bytes_len(x: kvm_clock_data)
    ensures
        x.spec_bytes().len() == KVM_CLOCK_DATA_SIZE,
{
}

/// A `kvm_clock_data` whose fields were decoded from a buffer has that
/// buffer segment as its image.
#[verifier::rlimit(100)]
#[verifier::spinoff_prover]
proof fn lemma_kvm_clock_data_read_at(v: kvm_clock_data, b: Seq<u8>, off: int)
    requires
        0 <= off,
        off + KVM_CLOCK_DATA_SIZE <= b.len(),
        v.clock == u64_of_le_bytes(b.subrange(off + 0, off + 8)),
        v.flags == u32_of_le_bytes(b.subrange(off + 8, off + 12)),
        v.pad@[0] == u32_of_le_bytes(b.subrange(off + 12, off + 16)),
        v.pad@[1] == u32_of_le_bytes(b.subrange(off + 16, off + 20)),
        v.pad@[2] == u32_of_le_bytes(b.subrange(off + 20, off + 24)),
        v.pad@[3] == u32_of_le_bytes(b.subrange(off + 24, off + 28)),
        v.pad@[4] == u32_of_le_bytes(b.subrange(off + 28, off + 32)),
        v.pad@[5] == u32_of_le_bytes(b.subrange(off + 32, off + 36)),
        v.pad@[6] == u32_of_le_bytes(b.subrange(off + 36, off + 40)),
        v.pad@[7] == u32_of_le_bytes(b.subrange(off + 40, off + 44)),
        v.pad@[8] == u32_of_le_bytes(b.subrange(off + 44, off + 48)),
    ensures
        v.spec_bytes() == b.subrange(off, off + KVM_CLOCK_DATA_SIZE),
{
    let s = b.subrange(off, off + KVM_CLOCK_DATA_SIZE as int);
    lemma_u64_le_bytes_of(b.subrange(off + 0, off + 8));
    lemma_u32_le_bytes_of(b.subrange(off + 8, off + 12));
    lemma_u32_le_bytes_of(b.subrange(off + 12, off + 16));
    lemma_u32_le_bytes_of(b.subrange(off + 16, off + 20));
    lemma_u32_le_bytes_of(b.subrange(off + 20, off + 24));
    lemma_u32_le_bytes_of(b.subrange(off + 24, off + 28));
    lemma_u32_le_bytes_of(b.subrange(off + 28, off + 32));
    lemma_u32_le_bytes_of(b.subrange(off + 32, off + 36));
    lemma_u32_le_bytes_of(b.subrange(off + 36, off + 40));
    lemma_u32_le_bytes_of(b.subrange(off + 40, off + 44));
    lemma_u32_le_bytes_of(b.subrange(off + 44, off + 48));
    lemma_subrange_subrange(b, off, off + KVM_CLOCK_DATA_SIZE as int, 0, 8);
    lemma_subrange_subrange(b, off, off + KVM_CLOCK_DATA_SIZE as int, 8, 12);
    lemma_subrange_subrange(b, off, off + KVM_CLOCK_DATA_SIZE as int, 12, 16);
    lemma_subrange_subrange(b, off, off + KVM_CLOCK_DATA_SIZE as int, 16, 20);
    lemma_subrange_subrange(b, off, off + KVM_CLOCK_DATA_SIZE as int, 20, 24);
    lemma_subrange_subrange(b, off, off + KVM_CLOCK_DATA_SIZE as int, 24, 28);
    lemma_subrange_subrange(b, off, off + KVM_CLOCK_DATA_SIZE as int, 28, 32);
    lemma_subrange_subrange(b, off, off + KVM_CLOCK_DATA_SIZE as int, 32, 36);
    lemma_subrange_subrange(b, off, off + KVM_CLOCK_DATA_SIZE as int, 36, 40);
    lemma_subrange_subrange(b, off, off + KVM_CLOCK_DATA_SIZE as int, 40, 44);
    lemma_subrange_subrange(b, off, off + KVM_CLOCK_DATA_SIZE as int, 44, 48);
    lemma_seq_parts(s, 8, 12);
    lemma_seq_parts(s, 12, 16);
    lemma_seq_parts(s, 16, 20);
    lemma_seq_parts(s, 20, 24);
    lemma_seq_parts(s, 24, 28);
    lemma_seq_parts(s, 28, 32);
    lemma_seq_parts(s, 32, 36);
    lemma_seq_parts(s, 36, 40);
    lemma_seq_parts(s, 40, 44);
    lemma_seq_parts(s, 44, 48);
    assert(s.subrange(0, KVM_CLOCK_DATA_SIZE as int) =~= s);
    assert(v.spec_bytes() == s);
}

/// Field images of a `kvm_clock_data`, covering one run of fields.
#[verifier::rlimit(100)]
#[verifier::spinoff_prover]
proof fn lemma_kvm_clock_data_field_images_seg0(x: kvm_clock_data)
    ensures
        x.spec_bytes().len() == KVM_CLOCK_DATA_SIZE,
        x.spec_bytes().subrange(44, 48) == u32_le_bytes(x.pad@[8]),
        x.spec_bytes().subrange(40, 44) == u32_le_bytes(x.pad@[7]),
        x.spec_bytes().subrange(36, 40) == u32_le_bytes(x.pad@[6]),
        x.spec_bytes().subrange(32, 36) == u32_le_bytes(x.pad@[5]),
        x.spec_bytes().subrange(28, 32) == u32_le_bytes(x.pad@[4]),
        x.spec_bytes().subrange(24, 28) == u32_le_bytes(x.pad@[3]),
        x.spec_bytes().subrange(20, 24) == u32_le_bytes(x.pad@[2]),
        x.spec_bytes().subrange(16, 20) == u32_le_bytes(x.pad@[1]),
        x.spec_bytes().subrange(0, 16) == ((u64_le_bytes(x.clock) + u32_le_bytes(x.flags)) + u32_le_bytes(x.pad@[0])),
{
    lemma_kvm_clock_data_bytes_len(x);
    let p0 = u64_le_bytes(x.clock);
    let p1 = u32_le_bytes(x.flags);
    let p2 = u32_le_bytes(x.pad@[0]);
    let p3 = u32_le_bytes(x.pad@[1]);
    let p4 = u32_le_bytes(x.pad@[2]);
    let p5 = u32_le_bytes(x.pad@[3]);
    let p6 = u32_le_bytes(x.pad@[4]);
    let p7 = u32_le_bytes(x.pad@[5]);
    let p8 = u32_le_bytes(x.pad@[6]);
    let p9 = u32_le_bytes(x.pad@[7]);
    let p10 = u32_le_bytes(x.pad@[8]);
    let t1 = p0 + p1;
    let t2 = t1 + p2;
    let t3 = t2 + p3;
    let t4 = t3 + p4;
    let t5 = t4 + p5;
    let t6 = t5 + p6;
    let t7 = t6 + p7;
    let t8 = t7 + p8;
    let t9 = t8 + p9;
    let t10 = t9 + p10;
    assert(x.spec_bytes() == t10);
    lemma_concat_parts(t9, p10);
    lemma_concat_parts(t8, p9);
    lemma_subrange_subrange(x.spec_bytes(), 0, 44, 0, 40);
    lemma_subrange_subrange(x.spec_bytes(), 0, 44, 40, 44);
    lemma_concat_parts(t7, p8);
    lemma_subrange_subrange(x.spec_bytes(), 0, 40, 0, 36);
    lemma_subrange_subrange(x.spec_bytes(), 0, 40, 36, 40);
    lemma_concat_parts(t6, p7);
    lemma_subrange_subrange(x.spec_bytes(), 0, 36, 0, 32);
    lemma_subrange_subrange(x.spec_bytes(), 0, 36, 32, 36);
    lemma_concat_parts(t5, p6);
    lemma_subrange_subrange(x.spec_bytes(), 0, 32, 0, 28);
    lemma_subrange_subrange(x.spec_bytes(), 0, 32, 28, 32);
    lemma_concat_parts(t4, p5);
    lemma_subrange_subrange(x.spec_bytes(), 0, 28, 0, 24);
    lemma_subrange_subrange(x.spec_bytes(), 0, 28, 24, 28);
    lemma_concat_parts(t3, p4);
    lemma_subrange_subrange(x.spec_bytes(), 0, 24, 0, 20);
    lemma_subrange_subrange(x.spec_bytes(), 0, 24, 20, 24);
    lemma_concat_parts(t2, p3);
    lemma_subrange_subrange(x.spec_bytes(), 0, 20, 0, 16);
    lemma_subrange_subrange(x.spec_bytes(), 0, 20, 16, 20);
}

/// Field images of a `kvm_clock_data`, covering one run of fields.
#[verifier::rlimit(100)]
#[verifier::spinoff_prover]
proof fn lemma_kvm_clock_data_field_images_seg1(x: kvm_clock_data)
    ensures
        x.spec_bytes().len() == KVM_CLOCK_DATA_SIZE,
        x.spec_bytes().subrange(12, 16) == u32_le_bytes(x.pad@[0]),
        x.spec_bytes().subrange(8, 12) == u32_le_bytes(x.flags),
        x.spec_bytes().subrange(0, 8) == u64_le_bytes(x.clock),
{
    lemma_kvm_clock_data_bytes_len(x);
    let p0 = u64_le_bytes(x.clock);
    let p1 = u32_le_bytes(x.flags);
    let p2 = u32_le_bytes(x.pad@[0]);
    let t1 = p0 + p1;
    let t2 = t1 + p2;
    lemma_kvm_clock_data_field_images_seg0(x);
    lemma_concat_parts(t1, p2);
    lemma_subrange_subrange(x.spec_bytes(), 0, 16, 0, 12);
    lemma_subrange_subrange(x.spec_bytes(), 0, 16, 12, 16);
    lemma_concat_parts(p0, p1);
    lemma_subrange_subrange(x.spec_bytes(), 0, 12, 0, 8);
    lemma_subrange_subrange(x.spec_bytes(), 0, 12, 8, 12);
}

/// Each field's image stands at its kernel offset inside the image of
/// a `kvm_clock_data`.
proof fn lemma_kvm_clock_data_field_images(x: kvm_clock_data)
    ensures
        x.spec_bytes().len() == KVM_CLOCK_DATA_SIZE,
        x.spec_bytes().subrange(0, 8) == u64_le_bytes(x.clock),
        x.spec_bytes().subrange(8, 12) == u32_le_bytes(x.flags),
        x.spec_bytes().subrange(12, 16) == u32_le_bytes(x.pad@[0]),
        x.spec_bytes().subrange(16, 20) == u32_le_bytes(x.pad@[1]),
        x.spec_bytes().subrange(20, 24) == u32_le_bytes(x.pad@[2]),
        x.spec_bytes().subrange(24, 28) == u32_le_bytes(x.pad@[3]),
        x.spec_bytes().subrange(28, 32) == u32_le_bytes(x.pad@[4]),
        x.spec_bytes().subrange(32, 36) == u32_le_bytes(x.pad@[5]),
        x.spec_bytes().subrange(36, 40) == u32_le_bytes(x.pad@[6]),
        x.spec_bytes().subrange(40, 44) == u32_le_bytes(x.pad@[7]),
        x.spec_bytes().subrange(44, 48) == u32_le_bytes(x.pad@[8]),
{
    lemma_kvm_clock_data_field_images_seg0(x);
    lemma_kvm_clock_data_field_images_seg1(x);
}

/// The byte image determines the structure: reading an image back
/// always yields the one value that produced it.
#[verifier::rlimit(100)]
#[verifier::spinoff_prover]
pub proof fn lemma_kvm_clock_data_image_injective(a: kvm_clock_data, b: kvm_clock_data)
    requires
        a.spec_bytes() == b.spec_bytes(),
    ensures
        a == b,
{
    lemma_kvm_clock_data_field_images(a);
    lemma_kvm_clock_data_field_images(b);
    lemma_u64_le_roundtrip(a.clock);
    lemma_u64_le_roundtrip(b.clock);
    lemma_u32_le_roundtrip(a.flags);
    lemma_u32_le_roundtrip(b.flags);
    lemma_u32_le_roundtrip(a.pad@[0]);
    lemma_u32_le_roundtrip(b.pad@[0]);
    lemma_u32_le_roundtrip(a.pad@[1]);
    lemma_u32_le_roundtrip(b.pad@[1]);
    lemma_u32_le_roundtrip(a.pad@[2]);
    lemma_u32_le_roundtrip(b.pad@[2]);
    lemma_u32_le_roundtrip(a.pad@[3]);
    lemma_u32_le_roundtrip(b.pad@[3]);
    lemma_u32_le_roundtrip(a.pad@[4]);
    lemma_u32_le_roundtrip(b.pad@[4]);
    lemma_u32_le_roundtrip(a.pad@[5]);
    lemma_u32_le_roundtrip(b.pad@[5]);
    lemma_u32_le_roundtrip(a.pad@[6]);
    lemma_u32_le_roundtrip(b.pad@[6]);
    lemma_u32_le_roundtrip(a.pad@[7]);
    lemma_u32_le_roundtrip(b.pad@[7]);
    lemma_u32_le_roundtrip(a.pad@[8]);
    lemma_u32_le_roundtrip(b.pad@[8]);
    assert(a.pad@ =~= b.pad@);
    assert(a =~= b);
}

/// A `kvm_clock_data` whose fields are all zero has an all-zero byte image,
/// the image of a zeroed ioctl argument buffer.
pub proof fn lemma_kvm_clock_data_zero_image(x: kvm_clock_data)
    requires
        x.is_zeroed(),
    ensures
        x.spec_bytes() == zero_bytes(KVM_CLOCK_DATA_SIZE as int),
{
    lemma_le_bytes_zero();
    lemma_zero_bytes_split(8, 12);
    lemma_zero_bytes_split(12, 16);
    lemma_zero_bytes_split(16, 20);
    lemma_zero_bytes_split(20, 24);
    lemma_zero_bytes_split(24, 28);
    lemma_zero_bytes_split(28, 32);
    lemma_zero_bytes_split(32, 36);
    lemma_zero_bytes_split(36, 40);
    lemma_zero_bytes_split(40, 44);
    lemma_zero_bytes_split(44, 48);
    assert(x.spec_bytes() == zero_bytes(KVM_CLOCK_DATA_SIZE as int));
}

/// Byte size of the `kvm_userspace_memory_region` kernel image.
pub const KVM_USERSPACE_MEMORY_REGION_SIZE: usize = 32;

/// One guest memory slot: where guest physical memory lives in the
/// VMM's address space.
#[derive(Clone, Copy, Debug, PartialEq)]
#[verifier::ext_equal]
pub struct kvm_userspace_memory_region {
    pub slot: u32,
    pub flags: u32,
    pub guest_phys_addr: u64,
    pub memory_size: u64,
    pub userspace_addr: u64,
}

impl kvm_userspace_memory_region {
    /// The 32-byte kernel image of `self`: every field little-endian
    /// at its kernel offset.
    pub open spec fn spec_bytes(self) -> Seq<u8> {
        u32_le_bytes(self.slot) + u32_le_bytes(self.flags) + u64_le_bytes(self.guest_phys_addr) + u64_le_bytes(self.memory_size) + u64_le_bytes(self.userspace_addr)
    }

    /// Every field of `self` holds zero.
    pub open spec fn is_zeroed(self) -> bool {
        self.slot == 0 && self.flags == 0 && self.guest_phys_addr == 0 && self.memory_size == 0 && self.userspace_addr == 0
    }

    /// Appends the image of `self` to `out`.
    pub fn push_image(&self, out: &mut Vec<u8>)
        ensures
            final(out)@ == old(out)@ + self.spec_bytes(),
    {
        let ghost base: Seq<u8> = out@;
        push_u32_le(out, self.slot);
        let ghost mut acc: Seq<u8> = u32_le_bytes(self.slot);
        push_u32_le(out, self.flags);
        proof {
            lemma_concat_assoc(base, acc, u32_le_bytes(self.flags));
            acc = acc + (u32_le_bytes(self.flags));
        }
        push_u64_le(out, self.guest_phys_addr);
        proof {
            lemma_concat_assoc(base, acc, u64_le_bytes(self.guest_phys_addr));
            acc = acc + (u64_le_bytes(self.guest_phys_addr));
        }
        push_u64_le(out, self.memory_size);
        proof {
            lemma_concat_assoc(base, acc, u64_le_bytes(self.memory_size));
            acc = acc + (u64_le_bytes(self.memory_size));
        }
        push_u64_le(out, self.userspace_addr);
        proof {
            lemma_concat_assoc(base, acc, u64_le_bytes(self.userspace_addr));
            acc = acc + (u64_le_bytes(self.userspace_addr));
        }
        proof {
            assert(out@ == base + acc);
            assert(acc == self.spec_bytes());
        }
    }

    /// The image of `self` as a fresh buffer.
    pub fn to_bytes(&self) -> (out: Vec<u8>)
        ensures
            out@ == self.spec_bytes(),
            out@.len() == KVM_USERSPACE_MEMORY_REGION_SIZE,
    {
        let mut out: Vec<u8> = Vec::new();
        self.push_image(&mut out);
        proof {
            lemma_concat_empty_left(self.spec_bytes());
            lemma_kvm_userspace_memory_region_bytes_len(*self);
        }
        out
    }

    /// Reads the structure whose image starts at offset `off` of `buf`.
    pub fn read_at(buf: &[u8], off: usize) -> (v: Self)
        requires
            off + KVM_USERSPACE_MEMORY_REGION_SIZE <= buf@.len(),
        ensures
            v.spec_bytes() == buf@.subrange(off as int, off as int + KVM_USERSPACE_MEMORY_REGION_SIZE),
    {
        let n: usize = buf.len();
        proof {
            assert(off + KVM_USERSPACE_MEMORY_REGION_SIZE <= n);
        }
        let v = kvm_userspace_memory_region {
            slot: read_u32_le(buf, off),
            flags: read_u32_le(buf, off + 4),
            guest_phys_addr: read_u64_le(buf, off + 8),
            memory_size: read_u64_le(buf, off + 16),
            userspace_addr: read_u64_le(buf, off + 24),
        };
        proof {
            lemma_kvm_userspace_memory_region_read_at(v, buf@, off as int);
        }
        v
    }

    /// Reads a structure image from the start of `buf`, failing when the
    /// buffer is too short to hold one.
    pub fn from_bytes(buf: &[u8]) -> (r: Result<Self, CodecError>)
        ensures
            buf@.len() < KVM_USERSPACE_MEMORY_REGION_SIZE ==> r == Err::<kvm_userspace_memory_region, CodecError>(
                CodecError::IncompleteBuffer,
            ),
            buf@.len() >= KVM_USERSPACE_MEMORY_REGION_SIZE ==> (r matches Ok(v) && v.spec_bytes() == buf@.subrange(
                0,
                KVM_USERSPACE_MEMORY_REGION_SIZE as int,
            )),
    {
        if buf.len() < KVM_USERSPACE_MEMORY_REGION_SIZE {
            Err(CodecError::IncompleteBuffer)
        } else {
            Ok(Self::read_at(buf, 0))
        }
    }
}

impl Default for kvm_userspace_memory_region {
    /// Every field zero: the zeroed ioctl argument convention.
    fn default() -> (r: Self)
        ensures
            r.is_zeroed(),
    {
        let r = kvm_userspace_memory_region {
            slot: 0,
            flags: 0,
            guest_phys_addr: 0,
            memory_size: 0,
            userspace_addr: 0,
        };
        r
    }
}

/// The image of a `kvm_userspace_memory_region` is exactly 32 bytes.
pub proof fn lemma_kvm_userspace_memory_region_bytes_len(x: kvm_userspace_memory_region)
    ensures
        x.spec_bytes().len() == KVM_USERSPACE_MEMORY_REGION_SIZE,
{
}

/// A `kvm_userspace_memory_region` whose fields were decoded from a buffer has that
/// buffer segment as its image.
#[verifier::rlimit(100)]
#[verifier::spinoff_prover]
proof fn lemma_kvm_userspace_memory_region_read_at(v: kvm_userspace_memory_region, b: Seq<u8>, off: int)
    requires
        0 <= off,
        off + KVM_USERSPACE_MEMORY_REGION_SIZE <= b.len(),
        v.slot == u32_of_le_bytes(b.subrange(off + 0, off + 4)),
        v.flags == u32_of_le_bytes(b.subrange(off + 4, off + 8)),
        v.guest_phys_addr == u64_of_le_bytes(b.subrange(off + 8, off + 16)),
        v.memory_size == u64_of_le_bytes(b.subrange(off + 16, off + 24)),
        v.userspace_addr == u64_of_le_bytes(b.subrange(off + 24, off + 32)),
    ensures
        v.spec_bytes() == b.subrange(off, off + KVM_USERSPACE_MEMORY_REGION_SIZE),
{
    let s = b.subrange(off, off + KVM_USERSPACE_MEMORY_REGION_SIZE as int);
    lemma_u32_le_bytes_of(b.subrange(off + 0, off + 4));
    lemma_u32_le_bytes_of(b.subrange(off + 4, off + 8));
    lemma_u64_le_bytes_of(b.subrange(off + 8, off + 16));
    lemma_u64_le_bytes_of(b.subrange(off + 16, off + 24));
    lemma_u64_le_bytes_of(b.subrange(off + 24, off + 32));
    lemma_subrange_subrange(b, off, off + KVM_USERSPACE_MEMORY_REGION_SIZE as int, 0, 4);
    lemma_subrange_subrange(b, off, off + KVM_USERSPACE_MEMORY_REGION_SIZE as int, 4, 8);
    lemma_subrange_subrange(b, off, off + KVM_USERSPACE_MEMORY_REGION_SIZE as int, 8, 16);
    lemma_subrange_subrange(b, off, off + KVM_USERSPACE_MEMORY_REGION_SIZE as int, 16, 24);
    lemma_subrange_subrange(b, off, off + KVM_USERSPACE_MEMORY_REGION_SIZE as int, 24, 32);
    lemma_seq_parts(s, 4, 8);
    lemma_seq_parts(s, 8, 16);
    lemma_seq_parts(s, 16, 24);
    lemma_seq_parts(s, 24, 32);
    assert(s.subrange(0, KVM_USERSPACE_MEMORY_REGION_SIZE as int) =~= s);
    assert(v.spec_bytes() == s);
}

/// Field images of a `kvm_userspace_memory_region`, covering one run of fields.
#[verifier::rlimit(100)]
#[verifier::spinoff_prover]
proof fn lemma_kvm_userspace_memory_region_field_images_seg0(x: kvm_userspace_memory_region)
    ensures
        x.spec_bytes().len() == KVM_USERSPACE_MEMORY_REGION_SIZE,
        x.spec_bytes().subrange(24, 32) == u64_le_bytes(x.userspace_addr),
        x.spec_bytes().subrange(16, 24) == u64_le_bytes(x.memory_size),
        x.spec_bytes().subrange(8, 16) == u64_le_bytes(x.guest_phys_addr),
        x.spec_bytes().subrange(4, 8) == u32_le_bytes(x.flags),
        x.spec_bytes().subrange(0, 4) == u32_le_bytes(x.slot),
{
    lemma_kvm_userspace_memory_region_bytes_len(x);
    let p0 = u32_le_bytes(x.slot);
    let p1 = u32_le_bytes(x.flags);
    let p2 = u64_le_bytes(x.guest_phys_addr);
    let p3 = u64_le_bytes(x.memory_size);
    let p4 = u64_le_bytes(x.userspace_addr);
    let t1 = p0 + p1;
    let t2 = t1 + p2;
    let t3 = t2 + p3;
    let t4 = t3 + p4;
    assert(x.spec_bytes() == t4);
    lemma_concat_parts(t3, p4);
    lemma_concat_parts(t2, p3);
    lemma_subrange_subrange(x.spec_bytes(), 0, 24, 0, 16);
    lemma_subrange_subrange(x.spec_bytes(), 0, 24, 16, 24);
    lemma_concat_parts(t1, p2);
    lemma_subrange_subrange(x.spec_bytes(), 0, 16, 0, 8);
    lemma_subrange_subrange(x.spec_bytes(), 0, 16, 8, 16);
    lemma_concat_parts(p0, p1);
    lemma_subrange_subrange(x.spec_bytes(), 0, 8, 0, 4);
    lemma_subrange_subrange(x.spec_bytes(), 0, 8, 4, 8);
}

/// Each field's image stands at its kernel offset inside the image of
/// a `kvm_userspace_memory_region`.
proof fn lemma_kvm_userspace_memory_region_field_images(x: kvm_userspace_memory_region)
    ensures
        x.spec_bytes().len() == KVM_USERSPACE_MEMORY_REGION_SIZE,
        x.spec_bytes().subrange(0, 4) == u32_le_bytes(x.slot),
        x.spec_bytes().subrange(4, 8) == u32_le_bytes(x.flags),
        x.spec_bytes().subrange(8, 16) == u64_le_bytes(x.guest_phys_addr),
        x.spec_bytes().subrange(16, 24) == u64_le_bytes(x.memory_size),
        x.spec_bytes().subrange(24, 32) == u64_le_bytes(x.userspace_addr),
{
    lemma_kvm_userspace_memory_region_field_images_seg0(x);
}

/// The byte image determines the structure: reading an image back
/// always yields the one value that produced it.
#[verifier::rlimit(100)]
#[verifier::spinoff_prover]
pub proof fn lemma_kvm_userspace_memory_region_image_injective(a: kvm_userspace_memory_region, b: kvm_userspace_memory_region)
    requires
        a.spec_bytes() == b.spec_bytes(),
    ensures
        a == b,
{
    lemma_kvm_userspace_memory_region_field_images(a);
    lemma_kvm_userspace_memory_region_field_images(b);
    lemma_u32_le_roundtrip(a.slot);
    lemma_u32_le_roundtrip(b.slot);
    lemma_u32_le_roundtrip(a.flags);
    lemma_u32_le_roundtrip(b.flags);
    lemma_u64_le_roundtrip(a.guest_phys_addr);
    lemma_u64_le_roundtrip(b.guest_phys_addr);
    lemma_u64_le_roundtrip(a.memory_size);
    lemma_u64_le_roundtrip(b.memory_size);
    lemma_u64_le_roundtrip(a.userspace_addr);
    lemma_u64_le_roundtrip(b.userspace_addr);
    assert(a =~= b);
}

/// A `kvm_userspace_memory_region` whose fields are all zero has an all-zero byte image,
/// the image of a zeroed ioctl argument buffer.
pub proof fn lemma_kvm_userspace_memory_region_zero_image(x: kvm_userspace_memory_region)
    requires
        x.is_zeroed(),
    ensures
        x.spec_bytes() == zero_bytes(KVM_USERSPACE_MEMORY_REGION_SIZE as int),
{
    lemma_le_bytes_zero();
    lemma_zero_bytes_split(4, 8);
    lemma_zero_bytes_split(8, 16);
    lemma_zero_bytes_split(16, 24);
    lemma_zero_bytes_split(24, 32);
    assert(x.spec_bytes() == zero_bytes(KVM_USERSPACE_MEMORY_REGION_SIZE as int));
}

/// Byte size of the `kvm_memory_region` kernel image.
pub const KVM_MEMORY_REGION_SIZE: usize = 24;

/// A guest memory slot in the oldest set-memory format.
#[derive(Clone, Copy, Debug, PartialEq)]
#[verifier::ext_equal]
pub struct kvm_memory_region {
    pub slot: u32,
    pub flags: u32,
    pub guest_phys_addr: u64,
    pub memory_size: u64,
}

impl kvm_memory_region {
    /// The 24-byte kernel image of `self`: every field little-endian
    /// at its kernel offset.
    pub open spec fn spec_bytes(self) -> Seq<u8> {
        u32_le_bytes(self.slot) + u32_le_bytes(self.flags) + u64_le_bytes(self.guest_phys_addr) + u64_le_bytes(self.memory_size)
    }

    /// Every field of `self` holds zero.
    pub open spec fn is_zeroed(self) -> bool {
        self.slot == 0 && self.flags == 0 && self.guest_phys_addr == 0 && self.memory_size == 0
    }

    /// Appends the image of `self` to `out`.
    pub fn push_image(&self, out: &mut Vec<u8>)
        ensures
            final(out)@ == old(out)@ + self.spec_bytes(),
    {
        let ghost base: Seq<u8> = out@;
        push_u32_le(out, self.slot);
        let ghost mut acc: Seq<u8> = u32_le_bytes(self.slot);
        push_u32_le(out, self.flags);
        proof {
            lemma_concat_assoc(base, acc, u32_le_bytes(self.flags));
            acc = acc + (u32_le_bytes(self.flags));
        }
        push_u64_le(out, self.guest_phys_addr);
        proof {
            lemma_concat_assoc(base, acc, u64_le_bytes(self.guest_phys_addr));
            acc = acc + (u64_le_bytes(self.guest_phys_addr));
        }
        push_u64_le(out, self.memory_size);
        proof {
            lemma_concat_assoc(base, acc, u64_le_bytes(self.memory_size));
            acc = acc + (u64_le_bytes(self.memory_size));
        }
        proof {
            assert(out@ == base + acc);
            assert(acc == self.spec_bytes());
        }
    }

    /// The image of `self` as a fresh buffer.
    pub fn to_bytes(&self) -> (out: Vec<u8>)
        ensures
            out@ == self.spec_bytes(),
            out@.len() == KVM_MEMORY_REGION_SIZE,
    {
        let mut out: Vec<u8> = Vec::new();
        self.push_image(&mut out);
        proof {
            lemma_concat_empty_left(self.spec_bytes());
            lemma_kvm_memory_region_bytes_len(*self);
        }
        out
    }

    /// Reads the structure whose image starts at offset `off` of `buf`.
    pub fn read_at(buf: &[u8], off: usize) -> (v: Self)
        requires
            off + KVM_MEMORY_REGION_SIZE <= buf@.len(),
        ensures
            v.spec_bytes() == buf@.subrange(off as int, off as int + KVM_MEMORY_REGION_SIZE),
    {
        let n: usize = buf.len();
        proof {
            assert(off + KVM_MEMORY_REGION_SIZE <= n);
        }
        let v = kvm_memory_region {
            slot: read_u32_le(buf, off),
            flags: read_u32_le(buf, off + 4),
            guest_phys_addr: read_u64_le(buf, off + 8),
            memory_size: read_u64_le(buf, off + 16),
        };
        proof {
            lemma_kvm_memory_region_read_at(v, buf@, off as int);
        }
        v
    }

    /// Reads a structure image from the start of `buf`, failing when the
    /// buffer is too short to hold one.
    pub fn from_bytes(buf: &[u8]) -> (r: Result<Self, CodecError>)
        ensures
            buf@.len() < KVM_MEMORY_REGION_SIZE ==> r == Err::<kvm_memory_region, CodecError>(
                CodecError::IncompleteBuffer,
            ),
            buf@.len() >= KVM_MEMORY_REGION_SIZE ==> (r matches Ok(v) && v.spec_bytes() == buf@.subrange(
                0,
                KVM_MEMORY_REGION_SIZE as int,
            )),
    {
        if buf.len() < KVM_MEMORY_REGION_SIZE {
            Err(CodecError::IncompleteBuffer)
        } else {
            Ok(Self::read_at(buf, 0))
        }
    }
}

impl Default for kvm_memory_region {
    /// Every field zero: the zeroed ioctl argument convention.
    fn default() -> (r: Self)
        ensures
            r.is_zeroed(),
    {
        let r = kvm_memory_region {
            slot: 0,
            flags: 0,
            guest_phys_addr: 0,
            memory_size: 0,
        };
        r
    }
}

/// The image of a `kvm_memory_region` is exactly 24 bytes.
pub proof fn lemma_kvm_memory_region_bytes_len(x: kvm_memory_region)
    ensures
        x.spec_bytes().len() == KVM_MEMORY_REGION_SIZE,
{
}

/// A `kvm_memory_region` whose fields were decoded from a buffer has that
/// buffer segment as its image.
#[verifier::rlimit(100)]
#[verifier::spinoff_prover]
proof fn lemma_kvm_memory_region_read_at(v: kvm_memory_region, b: Seq<u8>, off: int)
    requires
        0 <= off,
        off + KVM_MEMORY_REGION_SIZE <= b.len(),
        v.slot == u32_of_le_bytes(b.subrange(off + 0, off + 4)),
        v.flags == u32_of_le_bytes(b.subrange(off + 4, off + 8)),
        v.guest_phys_addr == u64_of_le_bytes(b.subrange(off + 8, off + 16)),
        v.memory_size == u64_of_le_bytes(b.subrange(off + 16, off + 24)),
    ensures
        v.spec_bytes() == b.subrange(off, off + KVM_MEMORY_REGION_SIZE),
{
    let s = b.subrange(off, off + KVM_MEMORY_REGION_SIZE as int);
    lemma_u32_le_bytes_of(b.subrange(off + 0, off + 4));
    lemma_u32_le_bytes_of(b.subrange(off + 4, off + 8));
    lemma_u64_le_bytes_of(b.subrange(off + 8, off + 16));
    lemma_u64_le_bytes_of(b.subrange(off + 16, off + 24));
    lemma_subrange_subrange(b, off, off + KVM_MEMORY_REGION_SIZE as int, 0, 4);
    lemma_subrange_subrange(b, off, off + KVM_MEMORY_REGION_SIZE as int, 4, 8);
    lemma_subrange_subrange(b, off, off + KVM_MEMORY_REGION_SIZE as int, 8, 16);
    lemma_subrange_subrange(b, off, off + KVM_MEMORY_REGION_SIZE as int, 16, 24);
    lemma_seq_parts(s, 4, 8);
    lemma_seq_parts(s, 8, 16);
    lemma_seq_parts(s, 16, 24);
    assert(s.subrange(0, KVM_MEMORY_REGION_SIZE as int) =~= s);
    assert(v.spec_bytes() == s);
}

/// Field images of a `kvm_memory_region`, covering one run of fields.
#[verifier::rlimit(100)]
#[verifier::spinoff_prover]
proof fn lemma_kvm_memory_region_field_images_seg0(x: kvm_memory_region)
    ensures
        x.spec_bytes().len() == KVM_MEMORY_REGION_SIZE,
        x.spec_bytes().subrange(16, 24) == u64_le_bytes(x.memory_size),
        x.spec_bytes().subrange(8, 16) == u64_le_bytes(x.guest_phys_addr),
        x.spec_bytes().subrange(4, 8) == u32_le_bytes(x.flags),
        x.spec_bytes().subrange(0, 4) == u32_le_bytes(x.slot),
{
    lemma_kvm_memory_region_bytes_len(x);
    let p0 = u32_le_bytes(x.slot);
    let p1 = u32_le_bytes(x.flags);
    let p2 = u64_le_bytes(x.guest_phys_addr);
    let p3 = u64_le_bytes(x.memory_size);
    let t1 = p0 + p1;
    let t2 = t1 + p2;
    let t3 = t2 + p3;
    assert(x.spec_bytes() == t3);
    lemma_concat_parts(t2, p3);
    lemma_concat_parts(t1, p2);
    lemma_subrange_subrange(x.spec_bytes(), 0, 16, 0, 8);
    lemma_subrange_subrange(x.spec_bytes(), 0, 16, 8, 16);
    lemma_concat_parts(p0, p1);
    lemma_subrange_subrange(x.spec_bytes(), 0, 8, 0, 4);
    lemma_subrange_subrange(x.spec_bytes(), 0, 8, 4, 8);
}

/// Each field's image stands at its kernel offset inside the image of
/// a `kvm_memory_region`.
proof fn lemma_kvm_memory_region_field_images(x: kvm_memory_region)
    ensures
        x.spec_bytes().len() == KVM_MEMORY_REGION_SIZE,
        x.spec_bytes().subrange(0, 4) == u32_le_bytes(x.slot),
        x.spec_bytes().subrange(4, 8) == u32_le_bytes(x.flags),
        x.spec_bytes().subrange(8, 16) == u64_le_bytes(x.guest_phys_addr),
        x.spec_bytes().subrange(16, 24) == u64_le_bytes(x.memory_size),
{
    lemma_kvm_memory_region_field_images_seg0(x);
}

/// The byte image determines the structure: reading an image back
/// always yields the one value that produced it.
#[verifier::rlimit(100)]
#[verifier::spinoff_prover]
pub proof fn lemma_kvm_memory_region_image_injective(a: kvm_memory_region, b: kvm_memory_region)
    requires
        a.spec_bytes() == b.spec_bytes(),
    ensures
        a == b,
{
    lemma_kvm_memory_region_field_images(a);
    lemma_kvm_memory_region_field_images(b);
    lemma_u32_le_roundtrip(a.slot);
    lemma_u32_le_roundtrip(b.slot);
    lemma_u32_le_roundtrip(a.flags);
    lemma_u32_le_roundtrip(b.flags);
    lemma_u64_le_roundtrip(a.guest_phys_addr);
    lemma_u64_le_roundtrip(b.guest_phys_addr);
    lemma_u64_le_roundtrip(a.memory_size);
    lemma_u64_le_roundtrip(b.memory_size);
    assert(a =~= b);
}

/// A `kvm_memory_region` whose fields are all zero has an all-zero byte image,
/// the image of a zeroed ioctl argument buffer.
pub proof fn lemma_kvm_memory_region_zero_image(x: kvm_memory_region)
    requires
        x.is_zeroed(),
    ensures
        x.spec_bytes() == zero_bytes(KVM_MEMORY_REGION_SIZE as int),
{
    lemma_le_bytes_zero();
    lemma_zero_bytes_split(4, 8);
    lemma_zero_bytes_split(8, 16);
    lemma_zero_bytes_split(16, 24);
    assert(x.spec_bytes() == zero_bytes(KVM_MEMORY_REGION_SIZE as int));
}

/// Byte size of the `kvm_memory_alias` kernel image.
pub const KVM_MEMORY_ALIAS_SIZE: usize = 32;

/// An aliased guest memory range in the retired alias format.
#[derive(Clone, Copy, Debug, PartialEq)]
#[verifier::ext_equal]
pub struct kvm_memory_alias {
    pub slot: u32,
    pub flags: u32,
    pub guest_phys_addr: u64,
    pub memory_size: u64,
    pub target_phys_addr: u64,
}

impl kvm_memory_alias {
    /// The 32-byte kernel image of `self`: every field little-endian
    /// at its kernel offset.
    pub open spec fn spec_bytes(self) -> Seq<u8> {
        u32_le_bytes(self.slot) + u32_le_bytes(self.flags) + u64_le_bytes(self.guest_phys_addr) + u64_le_bytes(self.memory_size) + u64_le_bytes(self.target_phys_addr)
    }

    /// Every field of `self` holds zero.
    pub open spec fn is_zeroed(self) -> bool {
        self.slot == 0 && self.flags == 0 && self.guest_phys_addr == 0 && self.memory_size == 0 && self.target_phys_addr == 0
    }

    /// Appends the image of `self` to `out`.
    pub fn push_image(&self, out: &mut Vec<u8>)
        ensures
            final(out)@ == old(out)@ + self.spec_bytes(),
    {
        let ghost base: Seq<u8> = out@;
        push_u32_le(out, self.slot);
        let ghost mut acc: Seq<u8> = u32_le_bytes(self.slot);
        push_u32_le(out, self.flags);
        proof {
            lemma_concat_assoc(base, acc, u32_le_bytes(self.flags));
            acc = acc + (u32_le_bytes(self.flags));
        }
        push_u64_le(out, self.guest_phys_addr);
        proof {
            lemma_concat_assoc(base, acc, u64_le_bytes(self.guest_phys_addr));
            acc = acc + (u64_le_bytes(self.guest_phys_addr));
        }
        push_u64_le(out, self.memory_size);
        proof {
            lemma_concat_assoc(base, acc, u64_le_bytes(self.memory_size));
            acc = acc + (u64_le_bytes(self.memory_size));
        }
        push_u64_le(out, self.target_phys_addr);
        proof {
            lemma_concat_assoc(base, acc, u64_le_bytes(self.target_phys_addr));
            acc = acc + (u64_le_bytes(self.target_phys_addr));
        }
        proof {
            assert(out@ == base + acc);
            assert(acc == self.spec_bytes());
        }
    }

    /// The image of `self` as a fresh buffer.
    pub fn to_bytes(&self) -> (out: Vec<u8>)
        ensures
            out@ == self.spec_bytes(),
            out@.len() == KVM_MEMORY_ALIAS_SIZE,
    {
        let mut out: Vec<u8> = Vec::new();
        self.push_image(&mut out);
        proof {
            lemma_concat_empty_left(self.spec_bytes());
            lemma_kvm_memory_alias_bytes_len(*self);
        }
        out
    }

    /// Reads the structure whose image starts at offset `off` of `buf`.
    pub fn read_at(buf: &[u8], off: usize) -> (v: Self)
        requires
            off + KVM_MEMORY_ALIAS_SIZE <= buf@.len(),
        ensures
            v.spec_bytes() == buf@.subrange(off as int, off as int + KVM_MEMORY_ALIAS_SIZE),
    {
        let n: usize = buf.len();
        proof {
            assert(off + KVM_MEMORY_ALIAS_SIZE <= n);
        }
        let v = kvm_memory_alias {
            slot: read_u32_le(buf, off),
            flags: read_u32_le(buf, off + 4),
            guest_phys_addr: read_u64_le(buf, off + 8),
            memory_size: read_u64_le(buf, off + 16),
            target_phys_addr: read_u64_le(buf, off + 24),
        };
        proof {
            lemma_kvm_memory_alias_read_at(v, buf@, off as int);
        }
        v
    }

    /// Reads a structure image from the start of `buf`, failing when the
    /// buffer is too short to hold one.
    pub fn from_bytes(buf: &[u8]) -> (r: Result<Self, CodecError>)
        ensures
            buf@.len() < KVM_MEMORY_ALIAS_SIZE ==> r == Err::<kvm_memory_alias, CodecError>(
                CodecError::IncompleteBuffer,
            ),
            buf@.len() >= KVM_MEMORY_ALIAS_SIZE ==> (r matches Ok(v) && v.spec_bytes() == buf@.subrange(
                0,
                KVM_MEMORY_ALIAS_SIZE as int,
            )),
    {
        if buf.len() < KVM_MEMORY_ALIAS_SIZE {
            Err(CodecError::IncompleteBuffer)
        } else {
            Ok(Self::read_at(buf, 0))
        }
    }
}

impl Default for kvm_memory_alias {
    /// Every field zero: the zeroed ioctl argument convention.
    fn default() -> (r: Self)
        ensures
            r.is_zeroed(),
    {
        let r = kvm_memory_alias {
            slot: 0,
            flags: 0,
            guest_phys_addr: 0,
            memory_size: 0,
            target_phys_addr: 0,
        };
        r
    }
}

/// The image of a `kvm_memory_alias` is exactly 32 bytes.
pub proof fn lemma_kvm_memory_alias_bytes_len(x: kvm_memory_alias)
    ensures
        x.spec_bytes().len() == KVM_MEMORY_ALIAS_SIZE,
{
}

/// A `kvm_memory_alias` whose fields were decoded from a buffer has that
/// buffer segment as its image.
#[verifier::rlimit(100)]
#[verifier::spinoff_prover]
proof fn lemma_kvm_memory_alias_read_at(v: kvm_memory_alias, b: Seq<u8>, off: int)
    requires
        0 <= off,
        off + KVM_MEMORY_ALIAS_SIZE <= b.len(),
        v.slot == u32_of_le_bytes(b.subrange(off + 0, off + 4)),
        v.flags == u32_of_le_bytes(b.subrange(off + 4, off + 8)),
        v.guest_phys_addr == u64_of_le_bytes(b.subrange(off + 8, off + 16)),
        v.memory_size == u64_of_le_bytes(b.subrange(off + 16, off + 24)),
        v.target_phys_addr == u64_of_le_bytes(b.subrange(off + 24, off + 32)),
    ensures
        v.spec_bytes() == b.subrange(off, off + KVM_MEMORY_ALIAS_SIZE),
{
    let s = b.subrange(off, off + KVM_MEMORY_ALIAS_SIZE as int);
    lemma_u32_le_bytes_of(b.subrange(off + 0, off + 4));
    lemma_u32_le_bytes_of(b.subrange(off + 4, off + 8));
    lemma_u64_le_bytes_of(b.subrange(off + 8, off + 16));
    lemma_u64_le_bytes_of(b.subrange(off + 16, off + 24));
    lemma_u64_le_bytes_of(b.subrange(off + 24, off + 32));
    lemma_subrange_subrange(b, off, off + KVM_MEMORY_ALIAS_SIZE as int, 0, 4);
    lemma_subrange_subrange(b, off, off + KVM_MEMORY_ALIAS_SIZE as int, 4, 8);
    lemma_subrange_subrange(b, off, off + KVM_MEMORY_ALIAS_SIZE as int, 8, 16);
    lemma_subrange_subrange(b, off, off + KVM_MEMORY_ALIAS_SIZE as int, 16, 24);
    lemma_subrange_subrange(b, off, off + KVM_MEMORY_ALIAS_SIZE as int, 24, 32);
    lemma_seq_parts(s, 4, 8);
    lemma_seq_parts(s, 8, 16);
    lemma_seq_parts(s, 16, 24);
    lemma_seq_parts(s, 24, 32);
    assert(s.subrange(0, KVM_MEMORY_ALIAS_SIZE as int) =~= s);
    assert(v.spec_bytes() == s);
}

/// Field images of a `kvm_memory_alias`, covering one run of fields.
#[verifier::rlimit(100)]
#[verifier::spinoff_prover]
proof fn lemma_kvm_memory_alias_field_images_seg0(x: kvm_memory_alias)
    ensures
        x.spec_bytes().len() == KVM_MEMORY_ALIAS_SIZE,
        x.spec_bytes().subrange(24, 32) == u64_le_bytes(x.target_phys_addr),
        x.spec_bytes().subrange(16, 24) == u64_le_bytes(x.memory_size),
        x.spec_bytes().subrange(8, 16) == u64_le_bytes(x.guest_phys_addr),
        x.spec_bytes().subrange(4, 8) == u32_le_bytes(x.flags),
        x.spec_bytes().subrange(0, 4) == u32_le_bytes(x.slot),
{
    lemma_kvm_memory_alias_bytes_len(x);
    let p0 = u32_le_bytes(x.slot);
    let p1 = u32_le_bytes(x.flags);
    let p2 = u64_le_bytes(x.guest_phys_addr);
    let p3 = u64_le_bytes(x.memory_size);
    let p4 = u64_le_bytes(x.target_phys_addr);
    let t1 = p0 + p1;
    let t2 = t1 + p2;
    let t3 = t2 + p3;
    let t4 = t3 + p4;
    assert(x.spec_bytes() == t4);
    lemma_concat_parts(t3, p4);
    lemma_concat_parts(t2, p3);
    lemma_subrange_subrange(x.spec_bytes(), 0, 24, 0, 16);
    lemma_subrange_subrange(x.spec_bytes(), 0, 24, 16, 24);
    lemma_concat_parts(t1, p2);
    lemma_subrange_subrange(x.spec_bytes(), 0, 16, 0, 8);
    lemma_subrange_subrange(x.spec_bytes(), 0, 16, 8, 16);
    lemma_concat_parts(p0, p1);
    lemma_subrange_subrange(x.spec_bytes(), 0, 8, 0, 4);
    lemma_subrange_subrange(x.spec_bytes(), 0, 8, 4, 8);
}

/// Each field's image stands at its kernel offset inside the image of
/// a `kvm_memory_alias`.
proof fn lemma_kvm_memory_alias_field_images(x: kvm_memory_alias)
    ensures
        x.spec_bytes().len() == KVM_MEMORY_ALIAS_SIZE,
        x.spec_bytes().subrange(0, 4) == u32_le_bytes(x.slot),
        x.spec_bytes().subrange(4, 8) == u32_le_bytes(x.flags),
        x.spec_bytes().subrange(8, 16) == u64_le_bytes(x.guest_phys_addr),
        x.spec_bytes().subrange(16, 24) == u64_le_bytes(x.memory_size),
        x.spec_bytes().subrange(24, 32) == u64_le_bytes(x.target_phys_addr),
{
    lemma_kvm_memory_alias_field_images_seg0(x);
}

/// The byte image determines the structure: reading an image back
/// always yields the one value that produced it.
#[verifier::rlimit(100)]
#[verifier::spinoff_prover]
pub proof fn lemma_kvm_memory_alias_image_injective(a: kvm_memory_alias, b: kvm_memory_alias)
    requires
        a.spec_bytes() == b.spec_bytes(),
    ensures
        a == b,
{
    lemma_kvm_memory_alias_field_images(a);
    lemma_kvm_memory_alias_field_images(b);
    lemma_u32_le_roundtrip(a.slot);
    lemma_u32_le_roundtrip(b.slot);
    lemma_u32_le_roundtrip(a.flags);
    lemma_u32_le_roundtrip(b.flags);
    lemma_u64_le_roundtrip(a.guest_phys_addr);
    lemma_u64_le_roundtrip(b.guest_phys_addr);
    lemma_u64_le_roundtrip(a.memory_size);
    lemma_u64_le_roundtrip(b.memory_size);
    lemma_u64_le_roundtrip(a.target_phys_addr);
    lemma_u64_le_roundtrip(b.target_phys_addr);
    assert(a =~= b);
}

/// A `kvm_memory_alias` whose fields are all zero has an all-zero byte image,
/// the image of a zeroed ioctl argument buffer.
pub proof fn lemma_kvm_memory_alias_zero_image(x: kvm_memory_alias)
    requires
        x.is_zeroed(),
    ensures
        x.spec_bytes() == zero_bytes(KVM_MEMORY_ALIAS_SIZE as int),
{
    lemma_le_bytes_zero();
    lemma_zero_bytes_split(4, 8);
    lemma_zero_bytes_split(8, 16);
    lemma_zero_bytes_split(16, 24);
    lemma_zero_bytes_split(24, 32);
    assert(x.spec_bytes() == zero_bytes(KVM_MEMORY_ALIAS_SIZE as int));
}

/// Byte size of the `kvm_dirty_log` tail union.
pub const KVM_DIRTY_LOG_UNION_SIZE: usize = 8;

/// The tail union of `kvm_dirty_log`: eight shared bytes holding either
/// the VMM-side dirty-bitmap pointer or plain padding.  The pointer
/// interpretation belongs to the calling layer; here the bytes are read
/// and written through the `padding2` interpretation.
#[derive(Clone, Copy, Debug, PartialEq)]
#[verifier::ext_equal]
pub struct kvm_dirty_log__bindgen_ty_1 {
    storage: [u8; 8],
    align: [u64; 0],
}

impl kvm_dirty_log__bindgen_ty_1 {
    /// The shared backing bytes of the union.
    pub closed spec fn spec_bytes(self) -> Seq<u8> {
        self.storage@
    }

    /// All backing bytes zero.
    pub open spec fn is_zeroed(self) -> bool {
        self.spec_bytes() == zero_bytes(8)
    }

    /// The `padding2` interpretation: the bytes as one little-endian word.
    pub fn padding2(&self) -> (r: u64)
        ensures
            r == u64_of_le_bytes(self.spec_bytes()),
    {
        let r = read_u64_le(vstd::array::array_as_slice(&self.storage), 0);
        proof {
            assert(self.storage@.subrange(0, 8) =~= self.storage@);
        }
        r
    }

    /// Overwrites the shared bytes through the `padding2` interpretation.
    pub fn set_padding2(&mut self, val: u64)
        ensures
            final(self).spec_bytes() == u64_le_bytes(val),
    {
        self.storage = [
            (val & 0xff) as u8,
            ((val >> 8) & 0xff) as u8,
            ((val >> 16) & 0xff) as u8,
            ((val >> 24) & 0xff) as u8,
            ((val >> 32) & 0xff) as u8,
            ((val >> 40) & 0xff) as u8,
            ((val >> 48) & 0xff) as u8,
            ((val >> 56) & 0xff) as u8,
        ];
        proof {
            assert(self.storage@ =~= u64_le_bytes(val));
        }
    }

    /// Appends the image of `self` to `out`.
    pub fn push_image(&self, out: &mut Vec<u8>)
        ensures
            final(out)@ == old(out)@ + self.spec_bytes(),
    {
        push_u8s(out, &self.storage);
    }

    /// The image of `self` as a fresh buffer.
    pub fn to_bytes(&self) -> (out: Vec<u8>)
        ensures
            out@ == self.spec_bytes(),
            out@.len() == KVM_DIRTY_LOG_UNION_SIZE,
    {
        let mut out: Vec<u8> = Vec::new();
        self.push_image(&mut out);
        proof {
            lemma_concat_empty_left(self.spec_bytes());
        }
        out
    }

    /// Reads the union whose image starts at offset `off` of `buf`.
    pub fn read_at(buf: &[u8], off: usize) -> (v: Self)
        requires
            off + KVM_DIRTY_LOG_UNION_SIZE <= buf@.len(),
        ensures
            v.spec_bytes() == buf@.subrange(off as int, off as int + KVM_DIRTY_LOG_UNION_SIZE),
    {
        Self { storage: read_u8s::<8>(buf, off), align: [] }
    }

    /// Reads a union image from the start of `buf`, failing when the
    /// buffer is too short to hold one.
    pub fn from_bytes(buf: &[u8]) -> (r: Result<Self, CodecError>)
        ensures
            buf@.len() < KVM_DIRTY_LOG_UNION_SIZE ==> r == Err::<
                kvm_dirty_log__bindgen_ty_1,
                CodecError,
            >(CodecError::IncompleteBuffer),
            buf@.len() >= KVM_DIRTY_LOG_UNION_SIZE ==> (r matches Ok(v) && v.spec_bytes()
                == buf@.subrange(0, KVM_DIRTY_LOG_UNION_SIZE as int)),
    {
        if buf.len() < KVM_DIRTY_LOG_UNION_SIZE {
            Err(CodecError::IncompleteBuffer)
        } else {
            Ok(Self::read_at(buf, 0))
        }
    }
}

impl Default for kvm_dirty_log__bindgen_ty_1 {
    /// A zero-filled union, the zeroed ioctl argument convention.
    fn default() -> (r: Self)
        ensures
            r.is_zeroed(),
    {
        let r = Self { storage: vstd::array::array_fill_for_copy_types::<u8, 8>(0u8), align: [] };
        proof {
            assert(r.storage@ =~= zero_bytes(8));
        }
        r
    }
}

/// The image of the dirty-log union is exactly 8 bytes.
pub proof fn lemma_kvm_dirty_log__bindgen_ty_1_bytes_len(x: kvm_dirty_log__bindgen_ty_1)
    ensures
        x.spec_bytes().len() == KVM_DIRTY_LOG_UNION_SIZE,
{
}

/// The byte image determines the union: it holds nothing besides its
/// shared bytes.
pub proof fn lemma_kvm_dirty_log__bindgen_ty_1_image_injective(
    a: kvm_dirty_log__bindgen_ty_1,
    b: kvm_dirty_log__bindgen_ty_1,
)
    requires
        a.spec_bytes() == b.spec_bytes(),
    ensures
        a == b,
{
    assert(a.storage@ =~= b.storage@);
    assert(a.align@ =~= b.align@);
    assert(a =~= b);
}

/// A zero-filled union has an all-zero byte image.
pub proof fn lemma_kvm_dirty_log__bindgen_ty_1_zero_image(x: kvm_dirty_log__bindgen_ty_1)
    requires
        x.is_zeroed(),
    ensures
        x.spec_bytes() == zero_bytes(KVM_DIRTY_LOG_UNION_SIZE as int),
{
}

/// Byte size of the `kvm_dirty_log` kernel image.
pub const KVM_DIRTY_LOG_SIZE: usize = 16;

/// The argument of the get-dirty-log ioctl: the slot and the bitmap\n/// destination.
#[derive(Clone, Copy, Debug, PartialEq)]
#[verifier::ext_equal]
pub struct kvm_dirty_log {
    pub slot: u32,
    pub padding1: u32,
    pub __bindgen_anon_1: kvm_dirty_log__bindgen_ty_1,
}

impl kvm_dirty_log {
    /// The 16-byte kernel image of `self`: every field little-endian
    /// at its kernel offset.
    pub open spec fn spec_bytes(self) -> Seq<u8> {
        u32_le_bytes(self.slot) + u32_le_bytes(self.padding1) + self.__bindgen_anon_1.spec_bytes()
    }

    /// Every field of `self` holds zero.
    pub open spec fn is_zeroed(self) -> bool {
        self.slot == 0 && self.padding1 == 0 && self.__bindgen_anon_1.is_zeroed()
    }

    /// Appends the image of `self` to `out`.
    pub fn push_image(&self, out: &mut Vec<u8>)
        ensures
            final(out)@ == old(out)@ + self.spec_bytes(),
    {
        let ghost base: Seq<u8> = out@;
        push_u32_le(out, self.slot);
        let ghost mut acc: Seq<u8> = u32_le_bytes(self.slot);
        push_u32_le(out, self.padding1);
        proof {
            lemma_concat_assoc(base, acc, u32_le_bytes(self.padding1));
            acc = acc + (u32_le_bytes(self.padding1));
        }
        self.__bindgen_anon_1.push_image(out);
        proof {
            lemma_concat_assoc(base, acc, self.__bindgen_anon_1.spec_bytes());
            acc = acc + (self.__bindgen_anon_1.spec_bytes());
        }
        proof {
            assert(out@ == base + acc);
            assert(acc == self.spec_bytes());
        }
    }

    /// The image of `self` as a fresh buffer.
    pub fn to_bytes(&self) -> (out: Vec<u8>)
        ensures
            out@ == self.spec_bytes(),
            out@.len() == KVM_DIRTY_LOG_SIZE,
    {
        let mut out: Vec<u8> = Vec::new();
        self.push_image(&mut out);
        proof {
            lemma_concat_empty_left(self.spec_bytes());
            lemma_kvm_dirty_log_bytes_len(*self);
        }
        out
    }

    /// Reads the structure whose image starts at offset `off` of `buf`.
    pub fn read_at(buf: &[u8], off: usize) -> (v: Self)
        requires
            off + KVM_DIRTY_LOG_SIZE <= buf@.len(),
        ensures
            v.spec_bytes() == buf@.subrange(off as int, off as int + KVM_DIRTY_LOG_SIZE),
    {
        let n: usize = buf.len();
        proof {
            assert(off + KVM_DIRTY_LOG_SIZE <= n);
        }
        let v = kvm_dirty_log {
            slot: read_u32_le(buf, off),
            padding1: read_u32_le(buf, off + 4),
            __bindgen_anon_1: kvm_dirty_log__bindgen_ty_1::read_at(buf, off + 8),
        };
        proof {
            lemma_kvm_dirty_log_read_at(v, buf@, off as int);
        }
        v
    }

    /// Reads a structure image from the start of `buf`, failing when the
    /// buffer is too short to hold one.
    pub fn from_bytes(buf: &[u8]) -> (r: Result<Self, CodecError>)
        ensures
            buf@.len() < KVM_DIRTY_LOG_SIZE ==> r == Err::<kvm_dirty_log, CodecError>(
                CodecError::IncompleteBuffer,
            ),
            buf@.len() >= KVM_DIRTY_LOG_SIZE ==> (r matches Ok(v) && v.spec_bytes() == buf@.subrange(
                0,
                KVM_DIRTY_LOG_SIZE as int,
            )),
    {
        if buf.len() < KVM_DIRTY_LOG_SIZE {
            Err(CodecError::IncompleteBuffer)
        } else {
            Ok(Self::read_at(buf, 0))
        }
    }
}

impl Default for kvm_dirty_log {
    /// Every field zero: the zeroed ioctl argument convention.
    fn default() -> (r: Self)
        ensures
            r.is_zeroed(),
    {
        let r = kvm_dirty_log {
            slot: 0,
            padding1: 0,
            __bindgen_anon_1: kvm_dirty_log__bindgen_ty_1::default(),
        };
        r
    }
}

/// The image of a `kvm_dirty_log` is exactly 16 bytes.
pub proof fn lemma_kvm_dirty_log_bytes_len(x: kvm_dirty_log)
    ensures
        x.spec_bytes().len() == KVM_DIRTY_LOG_SIZE,
{
    lemma_kvm_dirty_log__bindgen_ty_1_bytes_len(x.__bindgen_anon_1);
}

/// A `kvm_dirty_log` whose fields were decoded from a buffer has that
/// buffer segment as its image.
#[verifier::rlimit(100)]
#[verifier::spinoff_prover]
proof fn lemma_kvm_dirty_log_read_at(v: kvm_dirty_log, b: Seq<u8>, off: int)
    requires
        0 <= off,
        off + KVM_DIRTY_LOG_SIZE <= b.len(),
        v.slot == u32_of_le_bytes(b.subrange(off + 0, off + 4)),
        v.padding1 == u32_of_le_bytes(b.subrange(off + 4, off + 8)),
        v.__bindgen_anon_1.spec_bytes() == b.subrange(off + 8, off + 16),
    ensures
        v.spec_bytes() == b.subrange(off, off + KVM_DIRTY_LOG_SIZE),
{
    let s = b.subrange(off, off + KVM_DIRTY_LOG_SIZE as int);
    lemma_u32_le_bytes_of(b.subrange(off + 0, off + 4));
    lemma_u32_le_bytes_of(b.subrange(off + 4, off + 8));
    lemma_subrange_subrange(b, off, off + KVM_DIRTY_LOG_SIZE as int, 0, 4);
    lemma_subrange_subrange(b, off, off + KVM_DIRTY_LOG_SIZE as int, 4, 8);
    lemma_subrange_subrange(b, off, off + KVM_DIRTY_LOG_SIZE as int, 8, 16);
    lemma_seq_parts(s, 4, 8);
    lemma_seq_parts(s, 8, 16);
    assert(s.subrange(0, KVM_DIRTY_LOG_SIZE as int) =~= s);
    assert(v.spec_bytes() == s);
}

/// Field images of a `kvm_dirty_log`, covering one run of fields.
#[verifier::rlimit(100)]
#[verifier::spinoff_prover]
proof fn lemma_kvm_dirty_log_field_images_seg0(x: kvm_dirty_log)
    ensures
        x.spec_bytes().len() == KVM_DIRTY_LOG_SIZE,
        x.spec_bytes().subrange(8, 16) == x.__bindgen_anon_1.spec_bytes(),
        x.spec_bytes().subrange(4, 8) == u32_le_bytes(x.padding1),
        x.spec_bytes().subrange(0, 4) == u32_le_bytes(x.slot),
{
    lemma_kvm_dirty_log_bytes_len(x);
    lemma_kvm_dirty_log__bindgen_ty_1_bytes_len(x.__bindgen_anon_1);
    let p0 = u32_le_bytes(x.slot);
    let p1 = u32_le_bytes(x.padding1);
    let p2 = x.__bindgen_anon_1.spec_bytes();
    let t1 = p0 + p1;
    let t2 = t1 + p2;
    assert(x.spec_bytes() == t2);
    lemma_concat_parts(t1, p2);
    lemma_concat_parts(p0, p1);
    lemma_subrange_subrange(x.spec_bytes(), 0, 8, 0, 4);
    lemma_subrange_subrange(x.spec_bytes(), 0, 8, 4, 8);
}

/// Each field's image stands at its kernel offset inside the image of
/// a `kvm_dirty_log`.
proof fn lemma_kvm_dirty_log_field_images(x: kvm_dirty_log)
    ensures
        x.spec_bytes().len() == KVM_DIRTY_LOG_SIZE,
        x.spec_bytes().subrange(0, 4) == u32_le_bytes(x.slot),
        x.spec_bytes().subrange(4, 8) == u32_le_bytes(x.padding1),
        x.spec_bytes().subrange(8, 16) == x.__bindgen_anon_1.spec_bytes(),
{
    lemma_kvm_dirty_log_field_images_seg0(x);
}

/// The byte image determines the structure: reading an image back
/// always yields the one value that produced it.
#[verifier::rlimit(100)]
#[verifier::spinoff_prover]
pub proof fn lemma_kvm_dirty_log_image_injective(a: kvm_dirty_log, b: kvm_dirty_log)
    requires
        a.spec_bytes() == b.spec_bytes(),
    ensures
        a == b,
{
    lemma_kvm_dirty_log_field_images(a);
    lemma_kvm_dirty_log_field_images(b);
    lemma_u32_le_roundtrip(a.slot);
    lemma_u32_le_roundtrip(b.slot);
    lemma_u32_le_roundtrip(a.padding1);
    lemma_u32_le_roundtrip(b.padding1);
    lemma_kvm_dirty_log__bindgen_ty_1_image_injective(a.__bindgen_anon_1, b.__bindgen_anon_1);
    assert(a =~= b);
}

/// A `kvm_dirty_log` whose fields are all zero has an all-zero byte image,
/// the image of a zeroed ioctl argument buffer.
pub proof fn lemma_kvm_dirty_log_zero_image(x: kvm_dirty_log)
    requires
        x.is_zeroed(),
    ensures
        x.spec_bytes() == zero_bytes(KVM_DIRTY_LOG_SIZE as int),
{
    lemma_le_bytes_zero();
    lemma_kvm_dirty_log__bindgen_ty_1_zero_image(x.__bindgen_anon_1);
    lemma_zero_bytes_split(4, 8);
    lemma_zero_bytes_split(8, 16);
    assert(x.spec_bytes() == zero_bytes(KVM_DIRTY_LOG_SIZE as int));
}

/// Byte size of the `kvm_signal_mask` kernel image.
pub const KVM_SIGNAL_MASK_SIZE: usize = 4;

/// Header of a signal mask: the byte count, then the mask bytes in the\n/// caller's allocation.
#[derive(Debug)]
#[verifier::ext_equal]
pub struct kvm_signal_mask {
    pub len: u32,
    pub sigset: __IncompleteArrayField<u8>,
}

impl kvm_signal_mask {
    /// The 4-byte kernel image of `self`: every field little-endian
    /// at its kernel offset.
    pub open spec fn spec_bytes(self) -> Seq<u8> {
        u32_le_bytes(self.len)
    }

    /// Every field of `self` holds zero.
    pub open spec fn is_zeroed(self) -> bool {
        self.len == 0
    }

    /// Appends the image of `self` to `out`.
    pub fn push_image(&self, out: &mut Vec<u8>)
        ensures
            final(out)@ == old(out)@ + self.spec_bytes(),
    {
        let ghost base: Seq<u8> = out@;
        push_u32_le(out, self.len);
        let ghost mut acc: Seq<u8> = u32_le_bytes(self.len);
        proof {
            assert(out@ == base + acc);
            assert(acc == self.spec_bytes());
        }
    }

    /// The image of `self` as a fresh buffer.
    pub fn to_bytes(&self) -> (out: Vec<u8>)
        ensures
            out@ == self.spec_bytes(),
            out@.len() == KVM_SIGNAL_MASK_SIZE,
    {
        let mut out: Vec<u8> = Vec::new();
        self.push_image(&mut out);
        proof {
            lemma_concat_empty_left(self.spec_bytes());
            lemma_kvm_signal_mask_bytes_len(*self);
        }
        out
    }

    /// Reads the structure whose image starts at offset `off` of `buf`.
    pub fn read_at(buf: &[u8], off: usize) -> (v: Self)
        requires
            off + KVM_SIGNAL_MASK_SIZE <= buf@.len(),
        ensures
            v.spec_bytes() == buf@.subrange(off as int, off as int + KVM_SIGNAL_MASK_SIZE),
    {
        let n: usize = buf.len();
        proof {
            assert(off + KVM_SIGNAL_MASK_SIZE <= n);
        }
        let v = kvm_signal_mask {
            len: read_u32_le(buf, off),
            sigset: __IncompleteArrayField::new(),
        };
        proof {
            lemma_kvm_signal_mask_read_at(v, buf@, off as int);
        }
        v
    }

    /// Reads a structure image from the start of `buf`, failing when the
    /// buffer is too short to hold one.
    pub fn from_bytes(buf: &[u8]) -> (r: Result<Self, CodecError>)
        ensures
            buf@.len() < KVM_SIGNAL_MASK_SIZE ==> r == Err::<kvm_signal_mask, CodecError>(
                CodecError::IncompleteBuffer,
            ),
            buf@.len() >= KVM_SIGNAL_MASK_SIZE ==> (r matches Ok(v) && v.spec_bytes() == buf@.subrange(
                0,
                KVM_SIGNAL_MASK_SIZE as int,
            )),
    {
        if buf.len() < KVM_SIGNAL_MASK_SIZE {
            Err(CodecError::IncompleteBuffer)
        } else {
            Ok(Self::read_at(buf, 0))
        }
    }
}

impl Default for kvm_signal_mask {
    /// Every field zero: the zeroed ioctl argument convention.
    fn default() -> (r: Self)
        ensures
            r.is_zeroed(),
    {
        let r = kvm_signal_mask {
            len: 0,
            sigset: __IncompleteArrayField::new(),
        };
        r
    }
}

/// The image of a `kvm_signal_mask` is exactly 4 bytes.
pub proof fn lemma_kvm_signal_mask_bytes_len(x: kvm_signal_mask)
    ensures
        x.spec_bytes().len() == KVM_SIGNAL_MASK_SIZE,
{
}

/// A `kvm_signal_mask` whose fields were decoded from a buffer has that
/// buffer segment as its image.
#[verifier::rlimit(100)]
#[verifier::spinoff_prover]
proof fn lemma_kvm_signal_mask_read_at(v: kvm_signal_mask, b: Seq<u8>, off: int)
    requires
        0 <= off,
        off + KVM_SIGNAL_MASK_SIZE <= b.len(),
        v.len == u32_of_le_bytes(b.subrange(off + 0, off + 4)),
    ensures
        v.spec_bytes() == b.subrange(off, off + KVM_SIGNAL_MASK_SIZE),
{
    let s = b.subrange(off, off + KVM_SIGNAL_MASK_SIZE as int);
    lemma_u32_le_bytes_of(b.subrange(off + 0, off + 4));
    lemma_subrange_subrange(b, off, off + KVM_SIGNAL_MASK_SIZE as int, 0, 4);
    assert(s.subrange(0, KVM_SIGNAL_MASK_SIZE as int) =~= s);
    assert(v.spec_bytes() == s);
}

/// Each field's image stands at its kernel offset inside the image of
/// a `kvm_signal_mask`.
proof fn lemma_kvm_signal_mask_field_images(x: kvm_signal_mask)
    ensures
        x.spec_bytes().len() == KVM_SIGNAL_MASK_SIZE,
        x.spec_bytes().subrange(0, 4) == u32_le_bytes(x.len),
{
    lemma_kvm_signal_mask_bytes_len(x);
    assert(x.spec_bytes().subrange(0, KVM_SIGNAL_MASK_SIZE as int) =~= x.spec_bytes());
}

/// The byte image pins every header field; the tail marker itself
/// holds no state.
#[verifier::rlimit(100)]
#[verifier::spinoff_prover]
pub proof fn lemma_kvm_signal_mask_image_determines_header(a: kvm_signal_mask, b: kvm_signal_mask)
    requires
        a.spec_bytes() == b.spec_bytes(),
    ensures
        a.len == b.len,
{
    lemma_kvm_signal_mask_field_images(a);
    lemma_kvm_signal_mask_field_images(b);
    lemma_u32_le_roundtrip(a.len);
    lemma_u32_le_roundtrip(b.len);
}

/// A `kvm_signal_mask` whose fields are all zero has an all-zero byte image,
/// the image of a zeroed ioctl argument buffer.
pub proof fn lemma_kvm_signal_mask_zero_image(x: kvm_signal_mask)
    requires
        x.is_zeroed(),
    ensures
        x.spec_bytes() == zero_bytes(KVM_SIGNAL_MASK_SIZE as int),
{
    lemma_le_bytes_zero();
    assert(x.spec_bytes() == zero_bytes(KVM_SIGNAL_MASK_SIZE as int));
}

/// Byte size of the `kvm_xen_hvm_config` kernel image.
pub const KVM_XEN_HVM_CONFIG_SIZE: usize = 56;

/// Where the Xen hypercall blobs live for a Xen-compatible guest.
#[derive(Clone, Copy, Debug, PartialEq)]
#[verifier::ext_equal]
pub struct kvm_xen_hvm_config {
    pub flags: u32,
    pub msr: u32,
    pub blob_addr_32: u64,
    pub blob_addr_64: u64,
    pub blob_size_32: u8,
    pub blob_size_64: u8,
    pub pad2: [u8; 30],
}

impl kvm_xen_hvm_config {
    /// The 56-byte kernel image of `self`: every field little-endian
    /// at its kernel offset.
    pub open spec fn spec_bytes(self) -> Seq<u8> {
        u32_le_bytes(self.flags) + u32_le_bytes(self.msr) + u64_le_bytes(self.blob_addr_32) + u64_le_bytes(self.blob_addr_64) + seq![self.blob_size_32] + seq![self.blob_size_64] + self.pad2@
    }

    /// Every field of `self` holds zero.
    pub open spec fn is_zeroed(self) -> bool {
        self.flags == 0 && self.msr == 0 && self.blob_addr_32 == 0 && self.blob_addr_64 == 0 && self.blob_size_32 == 0 && self.blob_size_64 == 0 && self.pad2@ == zero_bytes(30)
    }

    /// Appends the image of `self` to `out`.
    pub fn push_image(&self, out: &mut Vec<u8>)
        ensures
            final(out)@ == old(out)@ + self.spec_bytes(),
    {
        let ghost base: Seq<u8> = out@;
        push_u32_le(out, self.flags);
        let ghost mut acc: Seq<u8> = u32_le_bytes(self.flags);
        push_u32_le(out, self.msr);
        proof {
            lemma_concat_assoc(base, acc, u32_le_bytes(self.msr));
            acc = acc + (u32_le_bytes(self.msr));
        }
        push_u64_le(out, self.blob_addr_32);
        proof {
            lemma_concat_assoc(base, acc, u64_le_bytes(self.blob_addr_32));
            acc = acc + (u64_le_bytes(self.blob_addr_32));
        }
        push_u64_le(out, self.blob_addr_64);
        proof {
            lemma_concat_assoc(base, acc, u64_le_bytes(self.blob_addr_64));
            acc = acc + (u64_le_bytes(self.blob_addr_64));
        }
        push_u8(out, self.blob_size_32);
        proof {
            lemma_concat_assoc(base, acc, seq![self.blob_size_32]);
            acc = acc + (seq![self.blob_size_32]);
        }
        push_u8(out, self.blob_size_64);
        proof {
            lemma_concat_assoc(base, acc, seq![self.blob_size_64]);
            acc = acc + (seq![self.blob_size_64]);
        }
        push_u8s(out, &self.pad2);
        proof {
            lemma_concat_assoc(base, acc, self.pad2@);
            acc = acc + (self.pad2@);
        }
        proof {
            assert(out@ == base + acc);
            assert(acc == self.spec_bytes());
        }
    }

    /// The image of `self` as a fresh buffer.
    pub fn to_bytes(&self) -> (out: Vec<u8>)
        ensures
            out@ == self.spec_bytes(),
            out@.len() == KVM_XEN_HVM_CONFIG_SIZE,
    {
        let mut out: Vec<u8> = Vec::new();
        self.push_image(&mut out);
        proof {
            lemma_concat_empty_left(self.spec_bytes());
            lemma_kvm_xen_hvm_config_bytes_len(*self);
        }
        out
    }

    /// Reads the structure whose image starts at offset `off` of `buf`.
    pub fn read_at(buf: &[u8], off: usize) -> (v: Self)
        requires
            off + KVM_XEN_HVM_CONFIG_SIZE <= buf@.len(),
        ensures
            v.spec_bytes() == buf@.subrange(off as int, off as int + KVM_XEN_HVM_CONFIG_SIZE),
    {
        let n: usize = buf.len();
        proof {
            assert(off + KVM_XEN_HVM_CONFIG_SIZE <= n);
        }
        let v = kvm_xen_hvm_config {
            flags: read_u32_le(buf, off),
            msr: read_u32_le(buf, off + 4),
            blob_addr_32: read_u64_le(buf, off + 8),
            blob_addr_64: read_u64_le(buf, off + 16),
            blob_size_32: read_u8(buf, off + 24),
            blob_size_64: read_u8(buf, off + 25),
            pad2: read_u8s::<30>(buf, off + 26),
        };
        proof {
            lemma_kvm_xen_hvm_config_read_at(v, buf@, off as int);
        }
        v
    }

    /// Reads a structure image from the start of `buf`, failing when the
    /// buffer is too short to hold one.
    pub fn from_bytes(buf: &[u8]) -> (r: Result<Self, CodecError>)
        ensures
            buf@.len() < KVM_XEN_HVM_CONFIG_SIZE ==> r == Err::<kvm_xen_hvm_config, CodecError>(
                CodecError::IncompleteBuffer,
            ),
            buf@.len() >= KVM_XEN_HVM_CONFIG_SIZE ==> (r matches Ok(v) && v.spec_bytes() == buf@.subrange(
                0,
                KVM_XEN_HVM_CONFIG_SIZE as int,
            )),
    {
        if buf.len() < KVM_XEN_HVM_CONFIG_SIZE {
            Err(CodecError::IncompleteBuffer)
        } else {
            Ok(Self::read_at(buf, 0))
        }
    }
}

impl Default for kvm_xen_hvm_config {
    /// Every field zero: the zeroed ioctl argument convention.
    fn default() -> (r: Self)
        ensures
            r.is_zeroed(),
    {
        let r = kvm_xen_hvm_config {
            flags: 0,
            msr: 0,
            blob_addr_32: 0,
            blob_addr_64: 0,
            blob_size_32: 0,
            blob_size_64: 0,
            pad2: vstd::array::array_fill_for_copy_types::<u8, 30>(0u8),
        };
        proof {
            assert(r.pad2@ =~= zero_bytes(30));
        }
        r
    }
}

/// The image of a `kvm_xen_hvm_config` is exactly 56 bytes.
pub proof fn lemma_kvm_xen_hvm_config_bytes_len(x: kvm_xen_hvm_config)
    ensures
        x.spec_bytes().len() == KVM_XEN_HVM_CONFIG_SIZE,
{
}

/// A `kvm_xen_hvm_config` whose fields were decoded from a buffer has that
/// buffer segment as its image.
#[verifier::rlimit(100)]
#[verifier::spinoff_prover]
proof fn lemma_kvm_xen_hvm_config_read_at(v: kvm_xen_hvm_config, b: Seq<u8>, off: int)
    requires
        0 <= off,
        off + KVM_XEN_HVM_CONFIG_SIZE <= b.len(),
        v.flags == u32_of_le_bytes(b.subrange(off + 0, off + 4)),
        v.msr == u32_of_le_bytes(b.subrange(off + 4, off + 8)),
        v.blob_addr_32 == u64_of_le_bytes(b.subrange(off + 8, off + 16)),
        v.blob_addr_64 == u64_of_le_bytes(b.subrange(off + 16, off + 24)),
        v.blob_size_32 == b[off + 24],
        v.blob_size_64 == b[off + 25],
        v.pad2@ == b.subrange(off + 26, off + 56),
    ensures
        v.spec_bytes() == b.subrange(off, off + KVM_XEN_HVM_CONFIG_SIZE),
{
    let s = b.subrange(off, off + KVM_XEN_HVM_CONFIG_SIZE as int);
    lemma_u32_le_bytes_of(b.subrange(off + 0, off + 4));
    lemma_u32_le_bytes_of(b.subrange(off + 4, off + 8));
    lemma_u64_le_bytes_of(b.subrange(off + 8, off + 16));
    lemma_u64_le_bytes_of(b.subrange(off + 16, off + 24));
    assert(seq![v.blob_size_32] =~= b.subrange(off + 24, off + 25));
    assert(seq![v.blob_size_64] =~= b.subrange(off + 25, off + 26));
    lemma_subrange_subrange(b, off, off + KVM_XEN_HVM_CONFIG_SIZE as int, 0, 4);
    lemma_subrange_subrange(b, off, off + KVM_XEN_HVM_CONFIG_SIZE as int, 4, 8);
    lemma_subrange_subrange(b, off, off + KVM_XEN_HVM_CONFIG_SIZE as int, 8, 16);
    lemma_subrange_subrange(b, off, off + KVM_XEN_HVM_CONFIG_SIZE as int, 16, 24);
    lemma_subrange_subrange(b, off, off + KVM_XEN_HVM_CONFIG_SIZE as int, 24, 25);
    lemma_subrange_subrange(b, off, off + KVM_XEN_HVM_CONFIG_SIZE as int, 25, 26);
    lemma_subrange_subrange(b, off, off + KVM_XEN_HVM_CONFIG_SIZE as int, 26, 56);
    lemma_seq_parts(s, 4, 8);
    lemma_seq_parts(s, 8, 16);
    lemma_seq_parts(s, 16, 24);
    lemma_seq_parts(s, 24, 25);
    lemma_seq_parts(s, 25, 26);
    lemma_seq_parts(s, 26, 56);
    assert(s.subrange(0, KVM_XEN_HVM_CONFIG_SIZE as int) =~= s);
    assert(v.spec_bytes() == s);
}

/// Field images of a `kvm_xen_hvm_config`, covering one run of fields.
#[verifier::rlimit(100)]
#[verifier::spinoff_prover]
proof fn lemma_kvm_xen_hvm_config_field_images_seg0(x: kvm_xen_hvm_config)
    ensures
        x.spec_bytes().len() == KVM_XEN_HVM_CONFIG_SIZE,
        x.spec_bytes().subrange(26, 56) == x.pad2@,
        x.spec_bytes().subrange(25, 26) == seq![x.blob_size_64],
        x.spec_bytes().subrange(24, 25) == seq![x.blob_size_32],
        x.spec_bytes().subrange(16, 24) == u64_le_bytes(x.blob_addr_64),
        x.spec_bytes().subrange(8, 16) == u64_le_bytes(x.blob_addr_32),
        x.spec_bytes().subrange(4, 8) == u32_le_bytes(x.msr),
        x.spec_bytes().subrange(0, 4) == u32_le_bytes(x.flags),
{
    lemma_kvm_xen_hvm_config_bytes_len(x);
    let p0 = u32_le_bytes(x.flags);
    let p1 = u32_le_bytes(x.msr);
    let p2 = u64_le_bytes(x.blob_addr_32);
    let p3 = u64_le_bytes(x.blob_addr_64);
    let p4 = seq![x.blob_size_32];
    let p5 = seq![x.blob_size_64];
    let p6 = x.pad2@;
    let t1 = p0 + p1;
    let t2 = t1 + p2;
    let t3 = t2 + p3;
    let t4 = t3 + p4;
    let t5 = t4 + p5;
    let t6 = t5 + p6;
    assert(x.spec_bytes() == t6);
    lemma_concat_parts(t5, p6);
    lemma_concat_parts(t4, p5);
    lemma_subrange_subrange(x.spec_bytes(), 0, 26, 0, 25);
    lemma_subrange_subrange(x.spec_bytes(), 0, 26, 25, 26);
    lemma_concat_parts(t3, p4);
    lemma_subrange_subrange(x.spec_bytes(), 0, 25, 0, 24);
    lemma_subrange_subrange(x.spec_bytes(), 0, 25, 24, 25);
    lemma_concat_parts(t2, p3);
    lemma_subrange_subrange(x.spec_bytes(), 0, 24, 0, 16);
    lemma_subrange_subrange(x.spec_bytes(), 0, 24, 16, 24);
    lemma_concat_parts(t1, p2);
    lemma_subrange_subrange(x.spec_bytes(), 0, 16, 0, 8);
    lemma_subrange_subrange(x.spec_bytes(), 0, 16, 8, 16);
    lemma_concat_parts(p0, p1);
    lemma_subrange_subrange(x.spec_bytes(), 0, 8, 0, 4);
    lemma_subrange_subrange(x.spec_bytes(), 0, 8, 4, 8);
}

/// Each field's image stands at its kernel offset inside the image of
/// a `kvm_xen_hvm_config`.
proof fn lemma_kvm_xen_hvm_config_field_images(x: kvm_xen_hvm_config)
    ensures
        x.spec_bytes().len() == KVM_XEN_HVM_CONFIG_SIZE,
        x.spec_bytes().subrange(0, 4) == u32_le_bytes(x.flags),
        x.spec_bytes().subrange(4, 8) == u32_le_bytes(x.msr),
        x.spec_bytes().subrange(8, 16) == u64_le_bytes(x.blob_addr_32),
        x.spec_bytes().subrange(16, 24) == u64_le_bytes(x.blob_addr_64),
        x.spec_bytes().subrange(24, 25) == seq![x.blob_size_32],
        x.spec_bytes().subrange(25, 26) == seq![x.blob_size_64],
        x.spec_bytes().subrange(26, 56) == x.pad2@,
{
    lemma_kvm_xen_hvm_config_field_images_seg0(x);
}

/// The byte image determines the structure: reading an image back
/// always yields the one value that produced it.
#[verifier::rlimit(100)]
#[verifier::spinoff_prover]
pub proof fn lemma_kvm_xen_hvm_config_image_injective(a: kvm_xen_hvm_config, b: kvm_xen_hvm_config)
    requires
        a.spec_bytes() == b.spec_bytes(),
    ensures
        a == b,
{
    lemma_kvm_xen_hvm_config_field_images(a);
    lemma_kvm_xen_hvm_config_field_images(b);
    lemma_u32_le_roundtrip(a.flags);
    lemma_u32_le_roundtrip(b.flags);
    lemma_u32_le_roundtrip(a.msr);
    lemma_u32_le_roundtrip(b.msr);
    lemma_u64_le_roundtrip(a.blob_addr_32);
    lemma_u64_le_roundtrip(b.blob_addr_32);
    lemma_u64_le_roundtrip(a.blob_addr_64);
    lemma_u64_le_roundtrip(b.blob_addr_64);
    assert(a.blob_size_32 == seq![a.blob_size_32][0] && b.blob_size_32 == seq![b.blob_size_32][0]);
    assert(seq![a.blob_size_32][0] == seq![b.blob_size_32][0]);
    assert(a.blob_size_64 == seq![a.blob_size_64][0] && b.blob_size_64 == seq![b.blob_size_64][0]);
    assert(seq![a.blob_size_64][0] == seq![b.blob_size_64][0]);
    assert(a.pad2@ =~= b.pad2@);
    assert(a =~= b);
}

/// A `kvm_xen_hvm_config` whose fields are all zero has an all-zero byte image,
/// the image of a zeroed ioctl argument buffer.
pub proof fn lemma_kvm_xen_hvm_config_zero_image(x: kvm_xen_hvm_config)
    requires
        x.is_zeroed(),
    ensures
        x.spec_bytes() == zero_bytes(KVM_XEN_HVM_CONFIG_SIZE as int),
{
    lemma_le_bytes_zero();
    assert(seq![x.blob_size_32] =~= zero_bytes(1));
    assert(seq![x.blob_size_64] =~= zero_bytes(1));
    lemma_zero_bytes_split(4, 8);
    lemma_zero_bytes_split(8, 16);
    lemma_zero_bytes_split(16, 24);
    lemma_zero_bytes_split(24, 25);
    lemma_zero_bytes_split(25, 26);
    lemma_zero_bytes_split(26, 56);
    assert(x.spec_bytes() == zero_bytes(KVM_XEN_HVM_CONFIG_SIZE as int));
}

/// Byte size of the `kvm_user_trace_setup` kernel image.
pub const KVM_USER_TRACE_SETUP_SIZE: usize = 8;

/// Sizing of the retired user-space trace buffers.
#[derive(Clone, Copy, Debug, PartialEq)]
#[verifier::ext_equal]
pub struct kvm_user_trace_setup {
    pub buf_size: u32,
    pub buf_nr: u32,
}

impl kvm_user_trace_setup {
    /// The 8-byte kernel image of `self`: every field little-endian
    /// at its kernel offset.
    pub open spec fn spec_bytes(self) -> Seq<u8> {
        u32_le_bytes(self.buf_size) + u32_le_bytes(self.buf_nr)
    }

    /// Every field of `self` holds zero.
    pub open spec fn is_zeroed(self) -> bool {
        self.buf_size == 0 && self.buf_nr == 0
    }

    /// Appends the image of `self` to `out`.
    pub fn push_image(&self, out: &mut Vec<u8>)
        ensures
            final(out)@ == old(out)@ + self.spec_bytes(),
    {
        let ghost base: Seq<u8> = out@;
        push_u32_le(out, self.buf_size);
        let ghost mut acc: Seq<u8> = u32_le_bytes(self.buf_size);
        push_u32_le(out, self.buf_nr);
        proof {
            lemma_concat_assoc(base, acc, u32_le_bytes(self.buf_nr));
            acc = acc + (u32_le_bytes(self.buf_nr));
        }
        proof {
            assert(out@ == base + acc);
            assert(acc == self.spec_bytes());
        }
    }

    /// The image of `self` as a fresh buffer.
    pub fn to_bytes(&self) -> (out: Vec<u8>)
        ensures
            out@ == self.spec_bytes(),
            out@.len() == KVM_USER_TRACE_SETUP_SIZE,
    {
        let mut out: Vec<u8> = Vec::new();
        self.push_image(&mut out);
        proof {
            lemma_concat_empty_left(self.spec_bytes());
            lemma_kvm_user_trace_setup_bytes_len(*self);
        }
        out
    }

    /// Reads the structure whose image starts at offset `off` of `buf`.
    pub fn read_at(buf: &[u8], off: usize) -> (v: Self)
        requires
            off + KVM_USER_TRACE_SETUP_SIZE <= buf@.len(),
        ensures
            v.spec_bytes() == buf@.subrange(off as int, off as int + KVM_USER_TRACE_SETUP_SIZE),
    {
        let n: usize = buf.len();
        proof {
            assert(off + KVM_USER_TRACE_SETUP_SIZE <= n);
        }
        let v = kvm_user_trace_setup {
            buf_size: read_u32_le(buf, off),
            buf_nr: read_u32_le(buf, off + 4),
        };
        proof {
            lemma_kvm_user_trace_setup_read_at(v, buf@, off as int);
        }
        v
    }

    /// Reads a structure image from the start of `buf`, failing when the
    /// buffer is too short to hold one.
    pub fn from_bytes(buf: &[u8]) -> (r: Result<Self, CodecError>)
        ensures
            buf@.len() < KVM_USER_TRACE_SETUP_SIZE ==> r == Err::<kvm_user_trace_setup, CodecError>(
                CodecError::IncompleteBuffer,
            ),
            buf@.len() >= KVM_USER_TRACE_SETUP_SIZE ==> (r matches Ok(v) && v.spec_bytes() == buf@.subrange(
                0,
                KVM_USER_TRACE_SETUP_SIZE as int,
            )),
    {
        if buf.len() < KVM_USER_TRACE_SETUP_SIZE {
            Err(CodecError::IncompleteBuffer)
        } else {
            Ok(Self::read_at(buf, 0))
        }
    }
}

impl Default for kvm_user_trace_setup {
    /// Every field zero: the zeroed ioctl argument convention.
    fn default() -> (r: Self)
        ensures
            r.is_zeroed(),
    {
        let r = kvm_user_trace_setup {
            buf_size: 0,
            buf_nr: 0,
        };
        r
    }
}

/// The image of a `kvm_user_trace_setup` is exactly 8 bytes.
pub proof fn lemma_kvm_user_trace_setup_bytes_len(x: kvm_user_trace_setup)
    ensures
        x.spec_bytes().len() == KVM_USER_TRACE_SETUP_SIZE,
{
}

/// A `kvm_user_trace_setup` whose fields were decoded from a buffer has that
/// buffer segment as its image.
#[verifier::rlimit(100)]
#[verifier::spinoff_prover]
proof fn lemma_kvm_user_trace_setup_read_at(v: kvm_user_trace_setup, b: Seq<u8>, off: int)
    requires
        0 <= off,
        off + KVM_USER_TRACE_SETUP_SIZE <= b.len(),
        v.buf_size == u32_of_le_bytes(b.subrange(off + 0, off + 4)),
        v.buf_nr == u32_of_le_bytes(b.subrange(off + 4, off + 8)),
    ensures
        v.spec_bytes() == b.subrange(off, off + KVM_USER_TRACE_SETUP_SIZE),
{
    let s = b.subrange(off, off + KVM_USER_TRACE_SETUP_SIZE as int);
    lemma_u32_le_bytes_of(b.subrange(off + 0, off + 4));
    lemma_u32_le_bytes_of(b.subrange(off + 4, off + 8));
    lemma_subrange_subrange(b, off, off + KVM_USER_TRACE_SETUP_SIZE as int, 0, 4);
    lemma_subrange_subrange(b, off, off + KVM_USER_TRACE_SETUP_SIZE as int, 4, 8);
    lemma_seq_parts(s, 4, 8);
    assert(s.subrange(0, KVM_USER_TRACE_SETUP_SIZE as int) =~= s);
    assert(v.spec_bytes() == s);
}

/// Field images of a `kvm_user_trace_setup`, covering one run of fields.
#[verifier::rlimit(100)]
#[verifier::spinoff_prover]
proof fn lemma_kvm_user_trace_setup_field_images_seg0(x: kvm_user_trace_setup)
    ensures
        x.spec_bytes().len() == KVM_USER_TRACE_SETUP_SIZE,
        x.spec_bytes().subrange(4, 8) == u32_le_bytes(x.buf_nr),
        x.spec_bytes().subrange(0, 4) == u32_le_bytes(x.buf_size),
{
    lemma_kvm_user_trace_setup_bytes_len(x);
    let p0 = u32_le_bytes(x.buf_size);
    let p1 = u32_le_bytes(x.buf_nr);
    let t1 = p0 + p1;
    assert(x.spec_bytes() == t1);
    lemma_concat_parts(p0, p1);
}

/// Each field's image stands at its kernel offset inside the image of
/// a `kvm_user_trace_setup`.
proof fn lemma_kvm_user_trace_setup_field_images(x: kvm_user_trace_setup)
    ensures
        x.spec_bytes().len() == KVM_USER_TRACE_SETUP_SIZE,
        x.spec_bytes().subrange(0, 4) == u32_le_bytes(x.buf_size),
        x.spec_bytes().subrange(4, 8) == u32_le_bytes(x.buf_nr),
{
    lemma_kvm_user_trace_setup_field_images_seg0(x);
}

/// The byte image determines the structure: reading an image back
/// always yields the one value that produced it.
#[verifier::rlimit(100)]
#[verifier::spinoff_prover]
pub proof fn lemma_kvm_user_trace_setup_image_injective(a: kvm_user_trace_setup, b: kvm_user_trace_setup)
    requires
        a.spec_bytes() == b.spec_bytes(),
    ensures
        a == b,
{
    lemma_kvm_user_trace_setup_field_images(a);
    lemma_kvm_user_trace_setup_field_images(b);
    lemma_u32_le_roundtrip(a.buf_size);
    lemma_u32_le_roundtrip(b.buf_size);
    lemma_u32_le_roundtrip(a.buf_nr);
    lemma_u32_le_roundtrip(b.buf_nr);
    assert(a =~= b);
}

/// A `kvm_user_trace_setup` whose fields are all zero has an all-zero byte image,
/// the image of a zeroed ioctl argument buffer.
pub proof fn lemma_kvm_user_trace_setup_zero_image(x: kvm_user_trace_setup)
    requires
        x.is_zeroed(),
    ensures
        x.spec_bytes() == zero_bytes(KVM_USER_TRACE_SETUP_SIZE as int),
{
    lemma_le_bytes_zero();
    lemma_zero_bytes_split(4, 8);
    assert(x.spec_bytes() == zero_bytes(KVM_USER_TRACE_SETUP_SIZE as int));
}

/// Byte size of the `kvm_create_device` kernel image.
pub const KVM_CREATE_DEVICE_SIZE: usize = 12;

/// The argument of the create-device ioctl: device kind in, fd out.
#[derive(Clone, Copy, Debug, PartialEq)]
#[verifier::ext_equal]
pub struct kvm_create_device {
    pub type_: u32,
    pub fd: u32,
    pub flags: u32,
}

impl kvm_create_device {
    /// The 12-byte kernel image of `self`: every field little-endian
    /// at its kernel offset.
    pub open spec fn spec_bytes(self) -> Seq<u8> {
        u32_le_bytes(self.type_) + u32_le_bytes(self.fd) + u32_le_bytes(self.flags)
    }

    /// Every field of `self` holds zero.
    pub open spec fn is_zeroed(self) -> bool {
        self.type_ == 0 && self.fd == 0 && self.flags == 0
    }

    /// Appends the image of `self` to `out`.
    pub fn push_image(&self, out: &mut Vec<u8>)
        ensures
            final(out)@ == old(out)@ + self.spec_bytes(),
    {
        let ghost base: Seq<u8> = out@;
        push_u32_le(out, self.type_);
        let ghost mut acc: Seq<u8> = u32_le_bytes(self.type_);
        push_u32_le(out, self.fd);
        proof {
            lemma_concat_assoc(base, acc, u32_le_bytes(self.fd));
            acc = acc + (u32_le_bytes(self.fd));
        }
        push_u32_le(out, self.flags);
        proof {
            lemma_concat_assoc(base, acc, u32_le_bytes(self.flags));
            acc = acc + (u32_le_bytes(self.flags));
        }
        proof {
            assert(out@ == base + acc);
            assert(acc == self.spec_bytes());
        }
    }

    /// The image of `self` as a fresh buffer.
    pub fn to_bytes(&self) -> (out: Vec<u8>)
        ensures
            out@ == self.spec_bytes(),
            out@.len() == KVM_CREATE_DEVICE_SIZE,
    {
        let mut out: Vec<u8> = Vec::new();
        self.push_image(&mut out);
        proof {
            lemma_concat_empty_left(self.spec_bytes());
            lemma_kvm_create_device_bytes_len(*self);
        }
        out
    }

    /// Reads the structure whose image starts at offset `off` of `buf`.
    pub fn read_at(buf: &[u8], off: usize) -> (v: Self)
        requires
            off + KVM_CREATE_DEVICE_SIZE <= buf@.len(),
        ensures
            v.spec_bytes() == buf@.subrange(off as int, off as int + KVM_CREATE_DEVICE_SIZE),
    {
        let n: usize = buf.len();
        proof {
            assert(off + KVM_CREATE_DEVICE_SIZE <= n);
        }
        let v = kvm_create_device {
            type_: read_u32_le(buf, off),
            fd: read_u32_le(buf, off + 4),
            flags: read_u32_le(buf, off + 8),
        };
        proof {
            lemma_kvm_create_device_read_at(v, buf@, off as int);
        }
        v
    }

    /// Reads a structure image from the start of `buf`, failing when the
    /// buffer is too short to hold one.
    pub fn from_bytes(buf: &[u8]) -> (r: Result<Self, CodecError>)
        ensures
            buf@.len() < KVM_CREATE_DEVICE_SIZE ==> r == Err::<kvm_create_device, CodecError>(
                CodecError::IncompleteBuffer,
            ),
            buf@.len() >= KVM_CREATE_DEVICE_SIZE ==> (r matches Ok(v) && v.spec_bytes() == buf@.subrange(
                0,
                KVM_CREATE_DEVICE_SIZE as int,
            )),
    {
        if buf.len() < KVM_CREATE_DEVICE_SIZE {
            Err(CodecError::IncompleteBuffer)
        } else {
            Ok(Self::read_at(buf, 0))
        }
    }
}

impl Default for kvm_create_device {
    /// Every field zero: the zeroed ioctl argument convention.
    fn default() -> (r: Self)
        ensures
            r.is_zeroed(),
    {
        let r = kvm_create_device {
            type_: 0,
            fd: 0,
            flags: 0,
        };
        r
    }
}

/// The image of a `kvm_create_device` is exactly 12 bytes.
pub proof fn lemma_kvm_create_device_bytes_len(x: kvm_create_device)
    ensures
        x.spec_bytes().len() == KVM_CREATE_DEVICE_SIZE,
{
}

/// A `kvm_create_device` whose fields were decoded from a buffer has that
/// buffer segment as its image.
#[verifier::rlimit(100)]
#[verifier::spinoff_prover]
proof fn lemma_kvm_create_device_read_at(v: kvm_create_device, b: Seq<u8>, off: int)
    requires
        0 <= off,
        off + KVM_CREATE_DEVICE_SIZE <= b.len(),
        v.type_ == u32_of_le_bytes(b.subrange(off + 0, off + 4)),
        v.fd == u32_of_le_bytes(b.subrange(off + 4, off + 8)),
        v.flags == u32_of_le_bytes(b.subrange(off + 8, off + 12)),
    ensures
        v.spec_bytes() == b.subrange(off, off + KVM_CREATE_DEVICE_SIZE),
{
    let s = b.subrange(off, off + KVM_CREATE_DEVICE_SIZE as int);
    lemma_u32_le_bytes_of(b.subrange(off + 0, off + 4));
    lemma_u32_le_bytes_of(b.subrange(off + 4, off + 8));
    lemma_u32_le_bytes_of(b.subrange(off + 8, off + 12));
    lemma_subrange_subrange(b, off, off + KVM_CREATE_DEVICE_SIZE as int, 0, 4);
    lemma_subrange_subrange(b, off, off + KVM_CREATE_DEVICE_SIZE as int, 4, 8);
    lemma_subrange_subrange(b, off, off + KVM_CREATE_DEVICE_SIZE as int, 8, 12);
    lemma_seq_parts(s, 4, 8);
    lemma_seq_parts(s, 8, 12);
    assert(s.subrange(0, KVM_CREATE_DEVICE_SIZE as int) =~= s);
    assert(v.spec_bytes() == s);
}

/// Field images of a `kvm_create_device`, covering one run of fields.
#[verifier::rlimit(100)]
#[verifier::spinoff_prover]
proof fn lemma_kvm_create_device_field_images_seg0(x: kvm_create_device)
    ensures
        x.spec_bytes().len() == KVM_CREATE_DEVICE_SIZE,
        x.spec_bytes().subrange(8, 12) == u32_le_bytes(x.flags),
        x.spec_bytes().subrange(4, 8) == u32_le_bytes(x.fd),
        x.spec_bytes().subrange(0, 4) == u32_le_bytes(x.type_),
{
    lemma_kvm_create_device_bytes_len(x);
    let p0 = u32_le_bytes(x.type_);
    let p1 = u32_le_bytes(x.fd);
    let p2 = u32_le_bytes(x.flags);
    let t1 = p0 + p1;
    let t2 = t1 + p2;
    assert(x.spec_bytes() == t2);
    lemma_concat_parts(t1, p2);
    lemma_concat_parts(p0, p1);
    lemma_subrange_subrange(x.spec_bytes(), 0, 8, 0, 4);
    lemma_subrange_subrange(x.spec_bytes(), 0, 8, 4, 8);
}

/// Each field's image stands at its kernel offset inside the image of
/// a `kvm_create_device`.
proof fn lemma_kvm_create_device_field_images(x: kvm_create_device)
    ensures
        x.spec_bytes().len() == KVM_CREATE_DEVICE_SIZE,
        x.spec_bytes().subrange(0, 4) == u32_le_bytes(x.type_),
        x.spec_bytes().subrange(4, 8) == u32_le_bytes(x.fd),
        x.spec_bytes().subrange(8, 12) == u32_le_bytes(x.flags),
{
    lemma_kvm_create_device_field_images_seg0(x);
}

/// The byte image determines the structure: reading an image back
/// always yields the one value that produced it.
#[verifier::rlimit(100)]
#[verifier::spinoff_prover]
pub proof fn lemma_kvm_create_device_image_injective(a: kvm_create_device, b: kvm_create_device)
    requires
        a.spec_bytes() == b.spec_bytes(),
    ensures
        a == b,
{
    lemma_kvm_create_device_field_images(a);
    lemma_kvm_create_device_field_images(b);
    lemma_u32_le_roundtrip(a.type_);
    lemma_u32_le_roundtrip(b.type_);
    lemma_u32_le_roundtrip(a.fd);
    lemma_u32_le_roundtrip(b.fd);
    lemma_u32_le_roundtrip(a.flags);
    lemma_u32_le_roundtrip(b.flags);
    assert(a =~= b);
}

/// A `kvm_create_device` whose fields are all zero has an all-zero byte image,
/// the image of a zeroed ioctl argument buffer.
pub proof fn lemma_kvm_create_device_zero_image(x: kvm_create_device)
    requires
        x.is_zeroed(),
    ensures
        x.spec_bytes() == zero_bytes(KVM_CREATE_DEVICE_SIZE as int),
{
    lemma_le_bytes_zero();
    lemma_zero_bytes_split(4, 8);
    lemma_zero_bytes_split(8, 12);
    assert(x.spec_bytes() == zero_bytes(KVM_CREATE_DEVICE_SIZE as int));
}

/// Byte size of the `kvm_device_attr` kernel image.
pub const KVM_DEVICE_ATTR_SIZE: usize = 24;

/// One attribute of an in-kernel device: its group, id and payload\n/// address.
#[derive(Clone, Copy, Debug, PartialEq)]
#[verifier::ext_equal]
pub struct kvm_device_attr {
    pub flags: u32,
    pub group: u32,
    pub attr: u64,
    pub addr: u64,
}

impl kvm_device_attr {
    /// The 24-byte kernel image of `self`: every field little-endian
    /// at its kernel offset.
    pub open spec fn spec_bytes(self) -> Seq<u8> {
        u32_le_bytes(self.flags) + u32_le_bytes(self.group) + u64_le_bytes(self.attr) + u64_le_bytes(self.addr)
    }

    /// Every field of `self` holds zero.
    pub open spec fn is_zeroed(self) -> bool {
        self.flags == 0 && self.group == 0 && self.attr == 0 && self.addr == 0
    }

    /// Appends the image of `self` to `out`.
    pub fn push_image(&self, out: &mut Vec<u8>)
        ensures
            final(out)@ == old(out)@ + self.spec_bytes(),
    {
        let ghost base: Seq<u8> = out@;
        push_u32_le(out, self.flags);
        let ghost mut acc: Seq<u8> = u32_le_bytes(self.flags);
        push_u32_le(out, self.group);
        proof {
            lemma_concat_assoc(base, acc, u32_le_bytes(self.group));
            acc = acc + (u32_le_bytes(self.group));
        }
        push_u64_le(out, self.attr);
        proof {
            lemma_concat_assoc(base, acc, u64_le_bytes(self.attr));
            acc = acc + (u64_le_bytes(self.attr));
        }
        push_u64_le(out, self.addr);
        proof {
            lemma_concat_assoc(base, acc, u64_le_bytes(self.addr));
            acc = acc + (u64_le_bytes(self.addr));
        }
        proof {
            assert(out@ == base + acc);
            assert(acc == self.spec_bytes());
        }
    }

    /// The image of `self` as a fresh buffer.
    pub fn to_bytes(&self) -> (out: Vec<u8>)
        ensures
            out@ == self.spec_bytes(),
            out@.len() == KVM_DEVICE_ATTR_SIZE,
    {
        let mut out: Vec<u8> = Vec::new();
        self.push_image(&mut out);
        proof {
            lemma_concat_empty_left(self.spec_bytes());
            lemma_kvm_device_attr_bytes_len(*self);
        }
        out
    }

    /// Reads the structure whose image starts at offset `off` of `buf`.
    pub fn read_at(buf: &[u8], off: usize) -> (v: Self)
        requires
            off + KVM_DEVICE_ATTR_SIZE <= buf@.len(),
        ensures
            v.spec_bytes() == buf@.subrange(off as int, off as int + KVM_DEVICE_ATTR_SIZE),
    {
        let n: usize = buf.len();
        proof {
            assert(off + KVM_DEVICE_ATTR_SIZE <= n);
        }
        let v = kvm_device_attr {
            flags: read_u32_le(buf, off),
            group: read_u32_le(buf, off + 4),
            attr: read_u64_le(buf, off + 8),
            addr: read_u64_le(buf, off + 16),
        };
        proof {
            lemma_kvm_device_attr_read_at(v, buf@, off as int);
        }
        v
    }

    /// Reads a structure image from the start of `buf`, failing when the
    /// buffer is too short to hold one.
    pub fn from_bytes(buf: &[u8]) -> (r: Result<Self, CodecError>)
        ensures
            buf@.len() < KVM_DEVICE_ATTR_SIZE ==> r == Err::<kvm_device_attr, CodecError>(
                CodecError::IncompleteBuffer,
            ),
            buf@.len() >= KVM_DEVICE_ATTR_SIZE ==> (r matches Ok(v) && v.spec_bytes() == buf@.subrange(
                0,
                KVM_DEVICE_ATTR_SIZE as int,
            )),
    {
        if buf.len() < KVM_DEVICE_ATTR_SIZE {
            Err(CodecError::IncompleteBuffer)
        } else {
            Ok(Self::read_at(buf, 0))
        }
    }
}

impl Default for kvm_device_attr {
    /// Every field zero: the zeroed ioctl argument convention.
    fn default() -> (r: Self)
        ensures
            r.is_zeroed(),
    {
        let r = kvm_device_attr {
            flags: 0,
            group: 0,
            attr: 0,
            addr: 0,
        };
        r
    }
}

/// The image of a `kvm_device_attr` is exactly 24 bytes.
pub proof fn lemma_kvm_device_attr_bytes_len(x: kvm_device_attr)
    ensures
        x.spec_bytes().len() == KVM_DEVICE_ATTR_SIZE,
{
}

/// A `kvm_device_attr` whose fields were decoded from a buffer has that
/// buffer segment as its image.
#[verifier::rlimit(100)]
#[verifier::spinoff_prover]
proof fn lemma_kvm_device_attr_read_at(v: kvm_device_attr, b: Seq<u8>, off: int)
    requires
        0 <= off,
        off + KVM_DEVICE_ATTR_SIZE <= b.len(),
        v.flags == u32_of_le_bytes(b.subrange(off + 0, off + 4)),
        v.group == u32_of_le_bytes(b.subrange(off + 4, off + 8)),
        v.attr == u64_of_le_bytes(b.subrange(off + 8, off + 16)),
        v.addr == u64_of_le_bytes(b.subrange(off + 16, off + 24)),
    ensures
        v.spec_bytes() == b.subrange(off, off + KVM_DEVICE_ATTR_SIZE),
{
    let s = b.subrange(off, off + KVM_DEVICE_ATTR_SIZE as int);
    lemma_u32_le_bytes_of(b.subrange(off + 0, off + 4));
    lemma_u32_le_bytes_of(b.subrange(off + 4, off + 8));
    lemma_u64_le_bytes_of(b.subrange(off + 8, off + 16));
    lemma_u64_le_bytes_of(b.subrange(off + 16, off + 24));
    lemma_subrange_subrange(b, off, off + KVM_DEVICE_ATTR_SIZE as int, 0, 4);
    lemma_subrange_subrange(b, off, off + KVM_DEVICE_ATTR_SIZE as int, 4, 8);
    lemma_subrange_subrange(b, off, off + KVM_DEVICE_ATTR_SIZE as int, 8, 16);
    lemma_subrange_subrange(b, off, off + KVM_DEVICE_ATTR_SIZE as int, 16, 24);
    lemma_seq_parts(s, 4, 8);
    lemma_seq_parts(s, 8, 16);
    lemma_seq_parts(s, 16, 24);
    assert(s.subrange(0, KVM_DEVICE_ATTR_SIZE as int) =~= s);
    assert(v.spec_bytes() == s);
}

/// Field images of a `kvm_device_attr`, covering one run of fields.
#[verifier::rlimit(100)]
#[verifier::spinoff_prover]
proof fn lemma_kvm_device_attr_field_images_seg0(x: kvm_device_attr)
    ensures
        x.spec_bytes().len() == KVM_DEVICE_ATTR_SIZE,
        x.spec_bytes().subrange(16, 24) == u64_le_bytes(x.addr),
        x.spec_bytes().subrange(8, 16) == u64_le_bytes(x.attr),
        x.spec_bytes().subrange(4, 8) == u32_le_bytes(x.group),
        x.spec_bytes().subrange(0, 4) == u32_le_bytes(x.flags),
{
    lemma_kvm_device_attr_bytes_len(x);
    let p0 = u32_le_bytes(x.flags);
    let p1 = u32_le_bytes(x.group);
    let p2 = u64_le_bytes(x.attr);
    let p3 = u64_le_bytes(x.addr);
    let t1 = p0 + p1;
    let t2 = t1 + p2;
    let t3 = t2 + p3;
    assert(x.spec_bytes() == t3);
    lemma_concat_parts(t2, p3);
    lemma_concat_parts(t1, p2);
    lemma_subrange_subrange(x.spec_bytes(), 0, 16, 0, 8);
    lemma_subrange_subrange(x.spec_bytes(), 0, 16, 8, 16);
    lemma_concat_parts(p0, p1);
    lemma_subrange_subrange(x.spec_bytes(), 0, 8, 0, 4);
    lemma_subrange_subrange(x.spec_bytes(), 0, 8, 4, 8);
}

/// Each field's image stands at its kernel offset inside the image of
/// a `kvm_device_attr`.
proof fn lemma_kvm_device_attr_field_images(x: kvm_device_attr)
    ensures
        x.spec_bytes().len() == KVM_DEVICE_ATTR_SIZE,
        x.spec_bytes().subrange(0, 4) == u32_le_bytes(x.flags),
        x.spec_bytes().subrange(4, 8) == u32_le_bytes(x.group),
        x.spec_bytes().subrange(8, 16) == u64_le_bytes(x.attr),
        x.spec_bytes().subrange(16, 24) == u64_le_bytes(x.addr),
{
    lemma_kvm_device_attr_field_images_seg0(x);
}

/// The byte image determines the structure: reading an image back
/// always yields the one value that produced it.
#[verifier::rlimit(100)]
#[verifier::spinoff_prover]
pub proof fn lemma_kvm_device_attr_image_injective(a: kvm_device_attr, b: kvm_device_attr)
    requires
        a.spec_bytes() == b.spec_bytes(),
    ensures
        a == b,
{
    lemma_kvm_device_attr_field_images(a);
    lemma_kvm_device_attr_field_images(b);
    lemma_u32_le_roundtrip(a.flags);
    lemma_u32_le_roundtrip(b.flags);
    lemma_u32_le_roundtrip(a.group);
    lemma_u32_le_roundtrip(b.group);
    lemma_u64_le_roundtrip(a.attr);
    lemma_u64_le_roundtrip(b.attr);
    lemma_u64_le_roundtrip(a.addr);
    lemma_u64_le_roundtrip(b.addr);
    assert(a =~= b);
}

/// A `kvm_device_attr` whose fields are all zero has an all-zero byte image,
/// the image of a zeroed ioctl argument buffer.
pub proof fn lemma_kvm_device_attr_zero_image(x: kvm_device_attr)
    requires
        x.is_zeroed(),
    ensures
        x.spec_bytes() == zero_bytes(KVM_DEVICE_ATTR_SIZE as int),
{
    lemma_le_bytes_zero();
    lemma_zero_bytes_split(4, 8);
    lemma_zero_bytes_split(8, 16);
    lemma_zero_bytes_split(16, 24);
    assert(x.spec_bytes() == zero_bytes(KVM_DEVICE_ATTR_SIZE as int));
}

/// Byte size of the `kvm_one_reg` kernel image.
pub const KVM_ONE_REG_SIZE: usize = 16;

/// One register in the generic register interface.
#[derive(Clone, Copy, Debug, PartialEq)]
#[verifier::ext_equal]
pub struct kvm_one_reg {
    pub id: u64,
    pub addr: u64,
}

impl kvm_one_reg {
    /// The 16-byte kernel image of `self`: every field little-endian
    /// at its kernel offset.
    pub open spec fn spec_bytes(self) -> Seq<u8> {
        u64_le_bytes(self.id) + u64_le_bytes(self.addr)
    }

    /// Every field of `self` holds zero.
    pub open spec fn is_zeroed(self) -> bool {
        self.id == 0 && self.addr == 0
    }

    /// Appends the image of `self` to `out`.
    pub fn push_image(&self, out: &mut Vec<u8>)
        ensures
            final(out)@ == old(out)@ + self.spec_bytes(),
    {
        let ghost base: Seq<u8> = out@;
        push_u64_le(out, self.id);
        let ghost mut acc: Seq<u8> = u64_le_bytes(self.id);
        push_u64_le(out, self.addr);
        proof {
            lemma_concat_assoc(base, acc, u64_le_bytes(self.addr));
            acc = acc + (u64_le_bytes(self.addr));
        }
        proof {
            assert(out@ == base + acc);
            assert(acc == self.spec_bytes());
        }
    }

    /// The image of `self` as a fresh buffer.
    pub fn to_bytes(&self) -> (out: Vec<u8>)
        ensures
            out@ == self.spec_bytes(),
            out@.len() == KVM_ONE_REG_SIZE,
    {
        let mut out: Vec<u8> = Vec::new();
        self.push_image(&mut out);
        proof {
            lemma_concat_empty_left(self.spec_bytes());
            lemma_kvm_one_reg_bytes_len(*self);
        }
        out
    }

    /// Reads the structure whose image starts at offset `off` of `buf`.
    pub fn read_at(buf: &[u8], off: usize) -> (v: Self)
        requires
            off + KVM_ONE_REG_SIZE <= buf@.len(),
        ensures
            v.spec_bytes() == buf@.subrange(off as int, off as int + KVM_ONE_REG_SIZE),
    {
        let n: usize = buf.len();
        proof {
            assert(off + KVM_ONE_REG_SIZE <= n);
        }
        let v = kvm_one_reg {
            id: read_u64_le(buf, off),
            addr: read_u64_le(buf, off + 8),
        };
        proof {
            lemma_kvm_one_reg_read_at(v, buf@, off as int);
        }
        v
    }

    /// Reads a structure image from the start of `buf`, failing when the
    /// buffer is too short to hold one.
    pub fn from_bytes(buf: &[u8]) -> (r: Result<Self, CodecError>)
        ensures
            buf@.len() < KVM_ONE_REG_SIZE ==> r == Err::<kvm_one_reg, CodecError>(
                CodecError::IncompleteBuffer,
            ),
            buf@.len() >= KVM_ONE_REG_SIZE ==> (r matches Ok(v) && v.spec_bytes() == buf@.subrange(
                0,
                KVM_ONE_REG_SIZE as int,
            )),
    {
        if buf.len() < KVM_ONE_REG_SIZE {
            Err(CodecError::IncompleteBuffer)
        } else {
            Ok(Self::read_at(buf, 0))
        }
    }
}

impl Default for kvm_one_reg {
    /// Every field zero: the zeroed ioctl argument convention.
    fn default() -> (r: Self)
        ensures
            r.is_zeroed(),
    {
        let r = kvm_one_reg {
            id: 0,
            addr: 0,
        };
        r
    }
}

/// The image of a `kvm_one_reg` is exactly 16 bytes.
pub proof fn lemma_kvm_one_reg_bytes_len(x: kvm_one_reg)
    ensures
        x.spec_bytes().len() == KVM_ONE_REG_SIZE,
{
}

/// A `kvm_one_reg` whose fields were decoded from a buffer has that
/// buffer segment as its image.
#[verifier::rlimit(100)]
#[verifier::spinoff_prover]
proof fn lemma_kvm_one_reg_read_at(v: kvm_one_reg, b: Seq<u8>, off: int)
    requires
        0 <= off,
        off + KVM_ONE_REG_SIZE <= b.len(),
        v.id == u64_of_le_bytes(b.subrange(off + 0, off + 8)),
        v.addr == u64_of_le_bytes(b.subrange(off + 8, off + 16)),
    ensures
        v.spec_bytes() == b.subrange(off, off + KVM_ONE_REG_SIZE),
{
    let s = b.subrange(off, off + KVM_ONE_REG_SIZE as int);
    lemma_u64_le_bytes_of(b.subrange(off + 0, off + 8));
    lemma_u64_le_bytes_of(b.subrange(off + 8, off + 16));
    lemma_subrange_subrange(b, off, off + KVM_ONE_REG_SIZE as int, 0, 8);
    lemma_subrange_subrange(b, off, off + KVM_ONE_REG_SIZE as int, 8, 16);
    lemma_seq_parts(s, 8, 16);
    assert(s.subrange(0, KVM_ONE_REG_SIZE as int) =~= s);
    assert(v.spec_bytes() == s);
}

/// Field images of a `kvm_one_reg`, covering one run of fields.
#[verifier::rlimit(100)]
#[verifier::spinoff_prover]
proof fn lemma_kvm_one_reg_field_images_seg0(x: kvm_one_reg)
    ensures
        x.spec_bytes().len() == KVM_ONE_REG_SIZE,
        x.spec_bytes().subrange(8, 16) == u64_le_bytes(x.addr),
        x.spec_bytes().subrange(0, 8) == u64_le_bytes(x.id),
{
    lemma_kvm_one_reg_bytes_len(x);
    let p0 = u64_le_bytes(x.id);
    let p1 = u64_le_bytes(x.addr);
    let t1 = p0 + p1;
    assert(x.spec_bytes() == t1);
    lemma_concat_parts(p0, p1);
}

/// Each field's image stands at its kernel offset inside the image of
/// a `kvm_one_reg`.
proof fn lemma_kvm_one_reg_field_images(x: kvm_one_reg)
    ensures
        x.spec_bytes().len() == KVM_ONE_REG_SIZE,
        x.spec_bytes().subrange(0, 8) == u64_le_bytes(x.id),
        x.spec_bytes().subrange(8, 16) == u64_le_bytes(x.addr),
{
    lemma_kvm_one_reg_field_images_seg0(x);
}

/// The byte image determines the structure: reading an image back
/// always yields the one value that produced it.
#[verifier::rlimit(100)]
#[verifier::spinoff_prover]
pub proof fn lemma_kvm_one_reg_image_injective(a: kvm_one_reg, b: kvm_one_reg)
    requires
        a.spec_bytes() == b.spec_bytes(),
    ensures
        a == b,
{
    lemma_kvm_one_reg_field_images(a);
    lemma_kvm_one_reg_field_images(b);
    lemma_u64_le_roundtrip(a.id);
    lemma_u64_le_roundtrip(b.id);
    lemma_u64_le_roundtrip(a.addr);
    lemma_u64_le_roundtrip(b.addr);
    assert(a =~= b);
}

/// A `kvm_one_reg` whose fields are all zero has an all-zero byte image,
/// the image of a zeroed ioctl argument buffer.
pub proof fn lemma_kvm_one_reg_zero_image(x: kvm_one_reg)
    requires
        x.is_zeroed(),
    ensures
        x.spec_bytes() == zero_bytes(KVM_ONE_REG_SIZE as int),
{
    lemma_le_bytes_zero();
    lemma_zero_bytes_split(8, 16);
    assert(x.spec_bytes() == zero_bytes(KVM_ONE_REG_SIZE as int));
}

/// Byte size of the `kvm_reg_list` kernel image.
pub const KVM_REG_LIST_SIZE: usize = 8;

/// Header of a register-id list: the count, then `n` 64-bit ids in\n/// the caller's allocation.
#[derive(Debug)]
#[verifier::ext_equal]
pub struct kvm_reg_list {
    pub n: u64,
    pub reg: __IncompleteArrayField<u64>,
}

impl kvm_reg_list {
    /// The 8-byte kernel image of `self`: every field little-endian
    /// at its kernel offset.
    pub open spec fn spec_bytes(self) -> Seq<u8> {
        u64_le_bytes(self.n)
    }

    /// Every field of `self` holds zero.
    pub open spec fn is_zeroed(self) -> bool {
        self.n == 0
    }

    /// Appends the image of `self` to `out`.
    pub fn push_image(&self, out: &mut Vec<u8>)
        ensures
            final(out)@ == old(out)@ + self.spec_bytes(),
    {
        let ghost base: Seq<u8> = out@;
        push_u64_le(out, self.n);
        let ghost mut acc: Seq<u8> = u64_le_bytes(self.n);
        proof {
            assert(out@ == base + acc);
            assert(acc == self.spec_bytes());
        }
    }

    /// The image of `self` as a fresh buffer.
    pub fn to_bytes(&self) -> (out: Vec<u8>)
        ensures
            out@ == self.spec_bytes(),
            out@.len() == KVM_REG_LIST_SIZE,
    {
        let mut out: Vec<u8> = Vec::new();
        self.push_image(&mut out);
        proof {
            lemma_concat_empty_left(self.spec_bytes());
            lemma_kvm_reg_list_bytes_len(*self);
        }
        out
    }

    /// Reads the structure whose image starts at offset `off` of `buf`.
    pub fn read_at(buf: &[u8], off: usize) -> (v: Self)
        requires
            off + KVM_REG_LIST_SIZE <= buf@.len(),
        ensures
            v.spec_bytes() == buf@.subrange(off as int, off as int + KVM_REG_LIST_SIZE),
    {
        let n: usize = buf.len();
        proof {
            assert(off + KVM_REG_LIST_SIZE <= n);
        }
        let v = kvm_reg_list {
            n: read_u64_le(buf, off),
            reg: __IncompleteArrayField::new(),
        };
        proof {
            lemma_kvm_reg_list_read_at(v, buf@, off as int);
        }
        v
    }

    /// Reads a structure image from the start of `buf`, failing when the
    /// buffer is too short to hold one.
    pub fn from_bytes(buf: &[u8]) -> (r: Result<Self, CodecError>)
        ensures
            buf@.len() < KVM_REG_LIST_SIZE ==> r == Err::<kvm_reg_list, CodecError>(
                CodecError::IncompleteBuffer,
            ),
            buf@.len() >= KVM_REG_LIST_SIZE ==> (r matches Ok(v) && v.spec_bytes() == buf@.subrange(
                0,
                KVM_REG_LIST_SIZE as int,
            )),
    {
        if buf.len() < KVM_REG_LIST_SIZE {
            Err(CodecError::IncompleteBuffer)
        } else {
            Ok(Self::read_at(buf, 0))
        }
    }
}

impl Default for kvm_reg_list {
    /// Every field zero: the zeroed ioctl argument convention.
    fn default() -> (r: Self)
        ensures
            r.is_zeroed(),
    {
        let r = kvm_reg_list {
            n: 0,
            reg: __IncompleteArrayField::new(),
        };
        r
    }
}

/// The image of a `kvm_reg_list` is exactly 8 bytes.
pub proof fn lemma_kvm_reg_list_bytes_len(x: kvm_reg_list)
    ensures
        x.spec_bytes().len() == KVM_REG_LIST_SIZE,
{
}

/// A `kvm_reg_list` whose fields were decoded from a buffer has that
/// buffer segment as its image.
#[verifier::rlimit(100)]
#[verifier::spinoff_prover]
proof fn lemma_kvm_reg_list_read_at(v: kvm_reg_list, b: Seq<u8>, off: int)
    requires
        0 <= off,
        off + KVM_REG_LIST_SIZE <= b.len(),
        v.n == u64_of_le_bytes(b.subrange(off + 0, off + 8)),
    ensures
        v.spec_bytes() == b.subrange(off, off + KVM_REG_LIST_SIZE),
{
    let s = b.subrange(off, off + KVM_REG_LIST_SIZE as int);
    lemma_u64_le_bytes_of(b.subrange(off + 0, off + 8));
    lemma_subrange_subrange(b, off, off + KVM_REG_LIST_SIZE as int, 0, 8);
    assert(s.subrange(0, KVM_REG_LIST_SIZE as int) =~= s);
    assert(v.spec_bytes() == s);
}

/// Each field's image stands at its kernel offset inside the image of
/// a `kvm_reg_list`.
proof fn lemma_kvm_reg_list_field_images(x: kvm_reg_list)
    ensures
        x.spec_bytes().len() == KVM_REG_LIST_SIZE,
        x.spec_bytes().subrange(0, 8) == u64_le_bytes(x.n),
{
    lemma_kvm_reg_list_bytes_len(x);
    assert(x.spec_bytes().subrange(0, KVM_REG_LIST_SIZE as int) =~= x.spec_bytes());
}

/// The byte image pins every header field; the tail marker itself
/// holds no state.
#[verifier::rlimit(100)]
#[verifier::spinoff_prover]
pub proof fn lemma_kvm_reg_list_image_determines_header(a: kvm_reg_list, b: kvm_reg_list)
    requires
        a.spec_bytes() == b.spec_bytes(),
    ensures
        a.n == b.n,
{
    lemma_kvm_reg_list_field_images(a);
    lemma_kvm_reg_list_field_images(b);
    lemma_u64_le_roundtrip(a.n);
    lemma_u64_le_roundtrip(b.n);
}

/// A `kvm_reg_list` whose fields are all zero has an all-zero byte image,
/// the image of a zeroed ioctl argument buffer.
pub proof fn lemma_kvm_reg_list_zero_image(x: kvm_reg_list)
    requires
        x.is_zeroed(),
    ensures
        x.spec_bytes() == zero_bytes(KVM_REG_LIST_SIZE as int),
{
    lemma_le_bytes_zero();
    assert(x.spec_bytes() == zero_bytes(KVM_REG_LIST_SIZE as int));
}

/// Byte size of the `kvm_irqfd` kernel image.
pub const KVM_IRQFD_SIZE: usize = 32;

/// Binds an eventfd to a guest interrupt line.
#[derive(Clone, Copy, Debug, PartialEq)]
#[verifier::ext_equal]
pub struct kvm_irqfd {
    pub fd: u32,
    pub gsi: u32,
    pub flags: u32,
    pub resamplefd: u32,
    pub pad: [u8; 16],
}

impl kvm_irqfd {
    /// The 32-byte kernel image of `self`: every field little-endian
    /// at its kernel offset.
    pub open spec fn spec_bytes(self) -> Seq<u8> {
        u32_le_bytes(self.fd) + u32_le_bytes(self.gsi) + u32_le_bytes(self.flags) + u32_le_bytes(self.resamplefd) + self.pad@
    }

    /// Every field of `self` holds zero.
    pub open spec fn is_zeroed(self) -> bool {
        self.fd == 0 && self.gsi == 0 && self.flags == 0 && self.resamplefd == 0 && self.pad@ == zero_bytes(16)
    }

    /// Appends the image of `self` to `out`.
    pub fn push_image(&self, out: &mut Vec<u8>)
        ensures
            final(out)@ == old(out)@ + self.spec_bytes(),
    {
        let ghost base: Seq<u8> = out@;
        push_u32_le(out, self.fd);
        let ghost mut acc: Seq<u8> = u32_le_bytes(self.fd);
        push_u32_le(out, self.gsi);
        proof {
            lemma_concat_assoc(base, acc, u32_le_bytes(self.gsi));
            acc = acc + (u32_le_bytes(self.gsi));
        }
        push_u32_le(out, self.flags);
        proof {
            lemma_concat_assoc(base, acc, u32_le_bytes(self.flags));
            acc = acc + (u32_le_bytes(self.flags));
        }
        push_u32_le(out, self.resamplefd);
        proof {
            lemma_concat_assoc(base, acc, u32_le_bytes(self.resamplefd));
            acc = acc + (u32_le_bytes(self.resamplefd));
        }
        push_u8s(out, &self.pad);
        proof {
            lemma_concat_assoc(base, acc, self.pad@);
            acc = acc + (self.pad@);
        }
        proof {
            assert(out@ == base + acc);
            assert(acc == self.spec_bytes());
        }
    }

    /// The image of `self` as a fresh buffer.
    pub fn to_bytes(&self) -> (out: Vec<u8>)
        ensures
            out@ == self.spec_bytes(),
            out@.len() == KVM_IRQFD_SIZE,
    {
        let mut out: Vec<u8> = Vec::new();
        self.push_image(&mut out);
        proof {
            lemma_concat_empty_left(self.spec_bytes());
            lemma_kvm_irqfd_bytes_len(*self);
        }
        out
    }

    /// Reads the structure whose image starts at offset `off` of `buf`.
    pub fn read_at(buf: &[u8], off: usize) -> (v: Self)
        requires
            off + KVM_IRQFD_SIZE <= buf@.len(),
        ensures
            v.spec_bytes() == buf@.subrange(off as int, off as int + KVM_IRQFD_SIZE),
    {
        let n: usize = buf.len();
        proof {
            assert(off + KVM_IRQFD_SIZE <= n);
        }
        let v = kvm_irqfd {
            fd: read_u32_le(buf, off),
            gsi: read_u32_le(buf, off + 4),
            flags: read_u32_le(buf, off + 8),
            resamplefd: read_u32_le(buf, off + 12),
            pad: read_u8s::<16>(buf, off + 16),
        };
        proof {
            lemma_kvm_irqfd_read_at(v, buf@, off as int);
        }
        v
    }

    /// Reads a structure image from the start of `buf`, failing when the
    /// buffer is too short to hold one.
    pub fn from_bytes(buf: &[u8]) -> (r: Result<Self, CodecError>)
        ensures
            buf@.len() < KVM_IRQFD_SIZE ==> r == Err::<kvm_irqfd, CodecError>(
                CodecError::IncompleteBuffer,
            ),
            buf@.len() >= KVM_IRQFD_SIZE ==> (r matches Ok(v) && v.spec_bytes() == buf@.subrange(
                0,
                KVM_IRQFD_SIZE as int,
            )),
    {
        if buf.len() < KVM_IRQFD_SIZE {
            Err(CodecError::IncompleteBuffer)
        } else {
            Ok(Self::read_at(buf, 0))
        }
    }
}

impl Default for kvm_irqfd {
    /// Every field zero: the zeroed ioctl argument convention.
    fn default() -> (r: Self)
        ensures
            r.is_zeroed(),
    {
        let r = kvm_irqfd {
            fd: 0,
            gsi: 0,
            flags: 0,
            resamplefd: 0,
            pad: vstd::array::array_fill_for_copy_types::<u8, 16>(0u8),
        };
        proof {
            assert(r.pad@ =~= zero_bytes(16));
        }
        r
    }
}

/// The image of a `kvm_irqfd` is exactly 32 bytes.
pub proof fn lemma_kvm_irqfd_bytes_len(x: kvm_irqfd)
    ensures
        x.spec_bytes().len() == KVM_IRQFD_SIZE,
{
}

/// A `kvm_irqfd` whose fields were decoded from a buffer has that
/// buffer segment as its image.
#[verifier::rlimit(100)]
#[verifier::spinoff_prover]
proof fn lemma_kvm_irqfd_read_at(v: kvm_irqfd, b: Seq<u8>, off: int)
    requires
        0 <= off,
        off + KVM_IRQFD_SIZE <= b.len(),
        v.fd == u32_of_le_bytes(b.subrange(off + 0, off + 4)),
        v.gsi == u32_of_le_bytes(b.subrange(off + 4, off + 8)),
        v.flags == u32_of_le_bytes(b.subrange(off + 8, off + 12)),
        v.resamplefd == u32_of_le_bytes(b.subrange(off + 12, off + 16)),
        v.pad@ == b.subrange(off + 16, off + 32),
    ensures
        v.spec_bytes() == b.subrange(off, off + KVM_IRQFD_SIZE),
{
    let s = b.subrange(off, off + KVM_IRQFD_SIZE as int);
    lemma_u32_le_bytes_of(b.subrange(off + 0, off + 4));
    lemma_u32_le_bytes_of(b.subrange(off + 4, off + 8));
    lemma_u32_le_bytes_of(b.subrange(off + 8, off + 12));
    lemma_u32_le_bytes_of(b.subrange(off + 12, off + 16));
    lemma_subrange_subrange(b, off, off + KVM_IRQFD_SIZE as int, 0, 4);
    lemma_subrange_subrange(b, off, off + KVM_IRQFD_SIZE as int, 4, 8);
    lemma_subrange_subrange(b, off, off + KVM_IRQFD_SIZE as int, 8, 12);
    lemma_subrange_subrange(b, off, off + KVM_IRQFD_SIZE as int, 12, 16);
    lemma_subrange_subrange(b, off, off + KVM_IRQFD_SIZE as int, 16, 32);
    lemma_seq_parts(s, 4, 8);
    lemma_seq_parts(s, 8, 12);
    lemma_seq_parts(s, 12, 16);
    lemma_seq_parts(s, 16, 32);
    assert(s.subrange(0, KVM_IRQFD_SIZE as int) =~= s);
    assert(v.spec_bytes() == s);
}

/// Field images of a `kvm_irqfd`, covering one run of fields.
#[verifier::rlimit(100)]
#[verifier::spinoff_prover]
proof fn lemma_kvm_irqfd_field_images_seg0(x: kvm_irqfd)
    ensures
        x.spec_bytes().len() == KVM_IRQFD_SIZE,
        x.spec_bytes().subrange(16, 32) == x.pad@,
        x.spec_bytes().subrange(12, 16) == u32_le_bytes(x.resamplefd),
        x.spec_bytes().subrange(8, 12) == u32_le_bytes(x.flags),
        x.spec_bytes().subrange(4, 8) == u32_le_bytes(x.gsi),
        x.spec_bytes().subrange(0, 4) == u32_le_bytes(x.fd),
{
    lemma_kvm_irqfd_bytes_len(x);
    let p0 = u32_le_bytes(x.fd);
    let p1 = u32_le_bytes(x.gsi);
    let p2 = u32_le_bytes(x.flags);
    let p3 = u32_le_bytes(x.resamplefd);
    let p4 = x.pad@;
    let t1 = p0 + p1;
    let t2 = t1 + p2;
    let t3 = t2 + p3;
    let t4 = t3 + p4;
    assert(x.spec_bytes() == t4);
    lemma_concat_parts(t3, p4);
    lemma_concat_parts(t2, p3);
    lemma_subrange_subrange(x.spec_bytes(), 0, 16, 0, 12);
    lemma_subrange_subrange(x.spec_bytes(), 0, 16, 12, 16);
    lemma_concat_parts(t1, p2);
    lemma_subrange_subrange(x.spec_bytes(), 0, 12, 0, 8);
    lemma_subrange_subrange(x.spec_bytes(), 0, 12, 8, 12);
    lemma_concat_parts(p0, p1);
    lemma_subrange_subrange(x.spec_bytes(), 0, 8, 0, 4);
    lemma_subrange_subrange(x.spec_bytes(), 0, 8, 4, 8);
}

/// Each field's image stands at its kernel offset inside the image of
/// a `kvm_irqfd`.
proof fn lemma_kvm_irqfd_field_images(x: kvm_irqfd)
    ensures
        x.spec_bytes().len() == KVM_IRQFD_SIZE,
        x.spec_bytes().subrange(0, 4) == u32_le_bytes(x.fd),
        x.spec_bytes().subrange(4, 8) == u32_le_bytes(x.gsi),
        x.spec_bytes().subrange(8, 12) == u32_le_bytes(x.flags),
        x.spec_bytes().subrange(12, 16) == u32_le_bytes(x.resamplefd),
        x.spec_bytes().subrange(16, 32) == x.pad@,
{
    lemma_kvm_irqfd_field_images_seg0(x);
}

/// The byte image determines the structure: reading an image back
/// always yields the one value that produced it.
#[verifier::rlimit(100)]
#[verifier::spinoff_prover]
pub proof fn lemma_kvm_irqfd_image_injective(a: kvm_irqfd, b: kvm_irqfd)
    requires
        a.spec_bytes() == b.spec_bytes(),
    ensures
        a == b,
{
    lemma_kvm_irqfd_field_images(a);
    lemma_kvm_irqfd_field_images(b);
    lemma_u32_le_roundtrip(a.fd);
    lemma_u32_le_roundtrip(b.fd);
    lemma_u32_le_roundtrip(a.gsi);
    lemma_u32_le_roundtrip(b.gsi);
    lemma_u32_le_roundtrip(a.flags);
    lemma_u32_le_roundtrip(b.flags);
    lemma_u32_le_roundtrip(a.resamplefd);
    lemma_u32_le_roundtrip(b.resamplefd);
    assert(a.pad@ =~= b.pad@);
    assert(a =~= b);
}

/// A `kvm_irqfd` whose fields are all zero has an all-zero byte image,
/// the image of a zeroed ioctl argument buffer.
pub proof fn lemma_kvm_irqfd_zero_image(x: kvm_irqfd)
    requires
        x.is_zeroed(),
    ensures
        x.spec_bytes() == zero_bytes(KVM_IRQFD_SIZE as int),
{
    lemma_le_bytes_zero();
    lemma_zero_bytes_split(4, 8);
    lemma_zero_bytes_split(8, 12);
    lemma_zero_bytes_split(12, 16);
    lemma_zero_bytes_split(16, 32);
    assert(x.spec_bytes() == zero_bytes(KVM_IRQFD_SIZE as int));
}

/// Byte size of the `kvm_msi` kernel image.
pub const KVM_MSI_SIZE: usize = 32;

/// The argument of the signal-MSI ioctl: one message to deliver.
#[derive(Clone, Copy, Debug, PartialEq)]
#[verifier::ext_equal]
pub struct kvm_msi {
    pub address_lo: u32,
    pub address_hi: u32,
    pub data: u32,
    pub flags: u32,
    pub devid: u32,
    pub pad: [u8; 12],
}

impl kvm_msi {
    /// The 32-byte kernel image of `self`: every field little-endian
    /// at its kernel offset.
    pub open spec fn spec_bytes(self) -> Seq<u8> {
        u32_le_bytes(self.address_lo) + u32_le_bytes(self.address_hi) + u32_le_bytes(self.data) + u32_le_bytes(self.flags) + u32_le_bytes(self.devid) + self.pad@
    }

    /// Every field of `self` holds zero.
    pub open spec fn is_zeroed(self) -> bool {
        self.address_lo == 0 && self.address_hi == 0 && self.data == 0 && self.flags == 0 && self.devid == 0 && self.pad@ == zero_bytes(12)
    }

    /// Appends the image of `self` to `out`.
    pub fn push_image(&self, out: &mut Vec<u8>)
        ensures
            final(out)@ == old(out)@ + self.spec_bytes(),
    {
        let ghost base: Seq<u8> = out@;
        push_u32_le(out, self.address_lo);
        let ghost mut acc: Seq<u8> = u32_le_bytes(self.address_lo);
        push_u32_le(out, self.address_hi);
        proof {
            lemma_concat_assoc(base, acc, u32_le_bytes(self.address_hi));
            acc = acc + (u32_le_bytes(self.address_hi));
        }
        push_u32_le(out, self.data);
        proof {
            lemma_concat_assoc(base, acc, u32_le_bytes(self.data));
            acc = acc + (u32_le_bytes(self.data));
        }
        push_u32_le(out, self.flags);
        proof {
            lemma_concat_assoc(base, acc, u32_le_bytes(self.flags));
            acc = acc + (u32_le_bytes(self.flags));
        }
        push_u32_le(out, self.devid);
        proof {
            lemma_concat_assoc(base, acc, u32_le_bytes(self.devid));
            acc = acc + (u32_le_bytes(self.devid));
        }
        push_u8s(out, &self.pad);
        proof {
            lemma_concat_assoc(base, acc, self.pad@);
            acc = acc + (self.pad@);
        }
        proof {
            assert(out@ == base + acc);
            assert(acc == self.spec_bytes());
        }
    }

    /// The image of `self` as a fresh buffer.
    pub fn to_bytes(&self) -> (out: Vec<u8>)
        ensures
            out@ == self.spec_bytes(),
            out@.len() == KVM_MSI_SIZE,
    {
        let mut out: Vec<u8> = Vec::new();
        self.push_image(&mut out);
        proof {
            lemma_concat_empty_left(self.spec_bytes());
            lemma_kvm_msi_bytes_len(*self);
        }
        out
    }

    /// Reads the structure whose image starts at offset `off` of `buf`.
    pub fn read_at(buf: &[u8], off: usize) -> (v: Self)
        requires
            off + KVM_MSI_SIZE <= buf@.len(),
        ensures
            v.spec_bytes() == buf@.subrange(off as int, off as int + KVM_MSI_SIZE),
    {
        let n: usize = buf.len();
        proof {
            assert(off + KVM_MSI_SIZE <= n);
        }
        let v = kvm_msi {
            address_lo: read_u32_le(buf, off),
            address_hi: read_u32_le(buf, off + 4),
            data: read_u32_le(buf, off + 8),
            flags: read_u32_le(buf, off + 12),
            devid: read_u32_le(buf, off + 16),
            pad: read_u8s::<12>(buf, off + 20),
        };
        proof {
            lemma_kvm_msi_read_at(v, buf@, off as int);
        }
        v
    }

    /// Reads a structure image from the start of `buf`, failing when the
    /// buffer is too short to hold one.
    pub fn from_bytes(buf: &[u8]) -> (r: Result<Self, CodecError>)
        ensures
            buf@.len() < KVM_MSI_SIZE ==> r == Err::<kvm_msi, CodecError>(
                CodecError::IncompleteBuffer,
            ),
            buf@.len() >= KVM_MSI_SIZE ==> (r matches Ok(v) && v.spec_bytes() == buf@.subrange(
                0,
                KVM_MSI_SIZE as int,
            )),
    {
        if buf.len() < KVM_MSI_SIZE {
            Err(CodecError::IncompleteBuffer)
        } else {
            Ok(Self::read_at(buf, 0))
        }
    }
}

impl Default for kvm_msi {
    /// Every field zero: the zeroed ioctl argument convention.
    fn default() -> (r: Self)
        ensures
            r.is_zeroed(),
    {
        let r = kvm_msi {
            address_lo: 0,
            address_hi: 0,
            data: 0,
            flags: 0,
            devid: 0,
            pad: vstd::array::array_fill_for_copy_types::<u8, 12>(0u8),
        };
        proof {
            assert(r.pad@ =~= zero_bytes(12));
        }
        r
    }
}

/// The image of a `kvm_msi` is exactly 32 bytes.
pub proof fn lemma_kvm_msi_bytes_len(x: kvm_msi)
    ensures
        x.spec_bytes().len() == KVM_MSI_SIZE,
{
}

/// A `kvm_msi` whose fields were decoded from a buffer has that
/// buffer segment as its image.
#[verifier::rlimit(100)]
#[verifier::spinoff_prover]
proof fn lemma_kvm_msi_read_at(v: kvm_msi, b: Seq<u8>, off: int)
    requires
        0 <= off,
        off + KVM_MSI_SIZE <= b.len(),
        v.address_lo == u32_of_le_bytes(b.subrange(off + 0, off + 4)),
        v.address_hi == u32_of_le_bytes(b.subrange(off + 4, off + 8)),
        v.data == u32_of_le_bytes(b.subrange(off + 8, off + 12)),
        v.flags == u32_of_le_bytes(b.subrange(off + 12, off + 16)),
        v.devid == u32_of_le_bytes(b.subrange(off + 16, off + 20)),
        v.pad@ == b.subrange(off + 20, off + 32),
    ensures
        v.spec_bytes() == b.subrange(off, off + KVM_MSI_SIZE),
{
    let s = b.subrange(off, off + KVM_MSI_SIZE as int);
    lemma_u32_le_bytes_of(b.subrange(off + 0, off + 4));
    lemma_u32_le_bytes_of(b.subrange(off + 4, off + 8));
    lemma_u32_le_bytes_of(b.subrange(off + 8, off + 12));
    lemma_u32_le_bytes_of(b.subrange(off + 12, off + 16));
    lemma_u32_le_bytes_of(b.subrange(off + 16, off + 20));
    lemma_subrange_subrange(b, off, off + KVM_MSI_SIZE as int, 0, 4);
    lemma_subrange_subrange(b, off, off + KVM_MSI_SIZE as int, 4, 8);
    lemma_subrange_subrange(b, off, off + KVM_MSI_SIZE as int, 8, 12);
    lemma_subrange_subrange(b, off, off + KVM_MSI_SIZE as int, 12, 16);
    lemma_subrange_subrange(b, off, off + KVM_MSI_SIZE as int, 16, 20);
    lemma_subrange_subrange(b, off, off + KVM_MSI_SIZE as int, 20, 32);
    lemma_seq_parts(s, 4, 8);
    lemma_seq_parts(s, 8, 12);
    lemma_seq_parts(s, 12, 16);
    lemma_seq_parts(s, 16, 20);
    lemma_seq_parts(s, 20, 32);
    assert(s.subrange(0, KVM_MSI_SIZE as int) =~= s);
    assert(v.spec_bytes() == s);
}

/// Field images of a `kvm_msi`, covering one run of fields.
#[verifier::rlimit(100)]
#[verifier::spinoff_prover]
proof fn lemma_kvm_msi_field_images_seg0(x: kvm_msi)
    ensures
        x.spec_bytes().len() == KVM_MSI_SIZE,
        x.spec_bytes().subrange(20, 32) == x.pad@,
        x.spec_bytes().subrange(16, 20) == u32_le_bytes(x.devid),
        x.spec_bytes().subrange(12, 16) == u32_le_bytes(x.flags),
        x.spec_bytes().subrange(8, 12) == u32_le_bytes(x.data),
        x.spec_bytes().subrange(4, 8) == u32_le_bytes(x.address_hi),
        x.spec_bytes().subrange(0, 4) == u32_le_bytes(x.address_lo),
{
    lemma_kvm_msi_bytes_len(x);
    let p0 = u32_le_bytes(x.address_lo);
    let p1 = u32_le_bytes(x.address_hi);
    let p2 = u32_le_bytes(x.data);
    let p3 = u32_le_bytes(x.flags);
    let p4 = u32_le_bytes(x.devid);
    let p5 = x.pad@;
    let t1 = p0 + p1;
    let t2 = t1 + p2;
    let t3 = t2 + p3;
    let t4 = t3 + p4;
    let t5 = t4 + p5;
    assert(x.spec_bytes() == t5);
    lemma_concat_parts(t4, p5);
    lemma_concat_parts(t3, p4);
    lemma_subrange_subrange(x.spec_bytes(), 0, 20, 0, 16);
    lemma_subrange_subrange(x.spec_bytes(), 0, 20, 16, 20);
    lemma_concat_parts(t2, p3);
    lemma_subrange_subrange(x.spec_bytes(), 0, 16, 0, 12);
    lemma_subrange_subrange(x.spec_bytes(), 0, 16, 12, 16);
    lemma_concat_parts(t1, p2);
    lemma_subrange_subrange(x.spec_bytes(), 0, 12, 0, 8);
    lemma_subrange_subrange(x.spec_bytes(), 0, 12, 8, 12);
    lemma_concat_parts(p0, p1);
    lemma_subrange_subrange(x.spec_bytes(), 0, 8, 0, 4);
    lemma_subrange_subrange(x.spec_bytes(), 0, 8, 4, 8);
}

/// Each field's image stands at its kernel offset inside the image of
/// a `kvm_msi`.
proof fn lemma_kvm_msi_field_images(x: kvm_msi)
    ensures
        x.spec_bytes().len() == KVM_MSI_SIZE,
        x.spec_bytes().subrange(0, 4) == u32_le_bytes(x.address_lo),
        x.spec_bytes().subrange(4, 8) == u32_le_bytes(x.address_hi),
        x.spec_bytes().subrange(8, 12) == u32_le_bytes(x.data),
        x.spec_bytes().subrange(12, 16) == u32_le_bytes(x.flags),
        x.spec_bytes().subrange(16, 20) == u32_le_bytes(x.devid),
        x.spec_bytes().subrange(20, 32) == x.pad@,
{
    lemma_kvm_msi_field_images_seg0(x);
}

/// The byte image determines the structure: reading an image back
/// always yields the one value that produced it.
#[verifier::rlimit(100)]
#[verifier::spinoff_prover]
pub proof fn lemma_kvm_msi_image_injective(a: kvm_msi, b: kvm_msi)
    requires
        a.spec_bytes() == b.spec_bytes(),
    ensures
        a == b,
{
    lemma_kvm_msi_field_images(a);
    lemma_kvm_msi_field_images(b);
    lemma_u32_le_roundtrip(a.address_lo);
    lemma_u32_le_roundtrip(b.address_lo);
    lemma_u32_le_roundtrip(a.address_hi);
    lemma_u32_le_roundtrip(b.address_hi);
    lemma_u32_le_roundtrip(a.data);
    lemma_u32_le_roundtrip(b.data);
    lemma_u32_le_roundtrip(a.flags);
    lemma_u32_le_roundtrip(b.flags);
    lemma_u32_le_roundtrip(a.devid);
    lemma_u32_le_roundtrip(b.devid);
    assert(a.pad@ =~= b.pad@);
    assert(a =~= b);
}

/// A `kvm_msi` whose fields are all zero has an all-zero byte image,
/// the image of a zeroed ioctl argument buffer.
pub proof fn lemma_kvm_msi_zero_image(x: kvm_msi)
    requires
        x.is_zeroed(),
    ensures
        x.spec_bytes() == zero_bytes(KVM_MSI_SIZE as int),
{
    lemma_le_bytes_zero();
    lemma_zero_bytes_split(4, 8);
    lemma_zero_bytes_split(8, 12);
    lemma_zero_bytes_split(12, 16);
    lemma_zero_bytes_split(16, 20);
    lemma_zero_bytes_split(20, 32);
    assert(x.spec_bytes() == zero_bytes(KVM_MSI_SIZE as int));
}

/// Byte size of the `kvm_vapic_addr` kernel image.
pub const KVM_VAPIC_ADDR_SIZE: usize = 8;

/// The guest address of the virtual APIC page.
#[derive(Clone, Copy, Debug, PartialEq)]
#[verifier::ext_equal]
pub struct kvm_vapic_addr {
    pub vapic_addr: u64,
}

impl kvm_vapic_addr {
    /// The 8-byte kernel image of `self`: every field little-endian
    /// at its kernel offset.
    pub open spec fn spec_bytes(self) -> Seq<u8> {
        u64_le_bytes(self.vapic_addr)
    }

    /// Every field of `self` holds zero.
    pub open spec fn is_zeroed(self) -> bool {
        self.vapic_addr == 0
    }

    /// Appends the image of `self` to `out`.
    pub fn push_image(&self, out: &mut Vec<u8>)
        ensures
            final(out)@ == old(out)@ + self.spec_bytes(),
    {
        let ghost base: Seq<u8> = out@;
        push_u64_le(out, self.vapic_addr);
        let ghost mut acc: Seq<u8> = u64_le_bytes(self.vapic_addr);
        proof {
            assert(out@ == base + acc);
            assert(acc == self.spec_bytes());
        }
    }

    /// The image of `self` as a fresh buffer.
    pub fn to_bytes(&self) -> (out: Vec<u8>)
        ensures
            out@ == self.spec_bytes(),
            out@.len() == KVM_VAPIC_ADDR_SIZE,
    {
        let mut out: Vec<u8> = Vec::new();
        self.push_image(&mut out);
        proof {
            lemma_concat_empty_left(self.spec_bytes());
            lemma_kvm_vapic_addr_bytes_len(*self);
        }
        out
    }

    /// Reads the structure whose image starts at offset `off` of `buf`.
    pub fn read_at(buf: &[u8], off: usize) -> (v: Self)
        requires
            off + KVM_VAPIC_ADDR_SIZE <= buf@.len(),
        ensures
            v.spec_bytes() == buf@.subrange(off as int, off as int + KVM_VAPIC_ADDR_SIZE),
    {
        let n: usize = buf.len();
        proof {
            assert(off + KVM_VAPIC_ADDR_SIZE <= n);
        }
        let v = kvm_vapic_addr {
            vapic_addr: read_u64_le(buf, off),
        };
        proof {
            lemma_kvm_vapic_addr_read_at(v, buf@, off as int);
        }
        v
    }

    /// Reads a structure image from the start of `buf`, failing when the
    /// buffer is too short to hold one.
    pub fn from_bytes(buf: &[u8]) -> (r: Result<Self, CodecError>)
        ensures
            buf@.len() < KVM_VAPIC_ADDR_SIZE ==> r == Err::<kvm_vapic_addr, CodecError>(
                CodecError::IncompleteBuffer,
            ),
            buf@.len() >= KVM_VAPIC_ADDR_SIZE ==> (r matches Ok(v) && v.spec_bytes() == buf@.subrange(
                0,
                KVM_VAPIC_ADDR_SIZE as int,
            )),
    {
        if buf.len() < KVM_VAPIC_ADDR_SIZE {
            Err(CodecError::IncompleteBuffer)
        } else {
            Ok(Self::read_at(buf, 0))
        }
    }
}

impl Default for kvm_vapic_addr {
    /// Every field zero: the zeroed ioctl argument convention.
    fn default() -> (r: Self)
        ensures
            r.is_zeroed(),
    {
        let r = kvm_vapic_addr {
            vapic_addr: 0,
        };
        r
    }
}

/// The image of a `kvm_vapic_addr` is exactly 8 bytes.
pub proof fn lemma_kvm_vapic_addr_bytes_len(x: kvm_vapic_addr)
    ensures
        x.spec_bytes().len() == KVM_VAPIC_ADDR_SIZE,
{
}

/// A `kvm_vapic_addr` whose fields were decoded from a buffer has that
/// buffer segment as its image.
#[verifier::rlimit(100)]
#[verifier::spinoff_prover]
proof fn lemma_kvm_vapic_addr_read_at(v: kvm_vapic_addr, b: Seq<u8>, off: int)
    requires
        0 <= off,
        off + KVM_VAPIC_ADDR_SIZE <= b.len(),
        v.vapic_addr == u64_of_le_bytes(b.subrange(off + 0, off + 8)),
    ensures
        v.spec_bytes() == b.subrange(off, off + KVM_VAPIC_ADDR_SIZE),
{
    let s = b.subrange(off, off + KVM_VAPIC_ADDR_SIZE as int);
    lemma_u64_le_bytes_of(b.subrange(off + 0, off + 8));
    lemma_subrange_subrange(b, off, off + KVM_VAPIC_ADDR_SIZE as int, 0, 8);
    assert(s.subrange(0, KVM_VAPIC_ADDR_SIZE as int) =~= s);
    assert(v.spec_bytes() == s);
}

/// Each field's image stands at its kernel offset inside the image of
/// a `kvm_vapic_addr`.
proof fn lemma_kvm_vapic_addr_field_images(x: kvm_vapic_addr)
    ensures
        x.spec_bytes().len() == KVM_VAPIC_ADDR_SIZE,
        x.spec_bytes().subrange(0, 8) == u64_le_bytes(x.vapic_addr),
{
    lemma_kvm_vapic_addr_bytes_len(x);
    assert(x.spec_bytes().subrange(0, KVM_VAPIC_ADDR_SIZE as int) =~= x.spec_bytes());
}

/// The byte image determines the structure: reading an image back
/// always yields the one value that produced it.
#[verifier::rlimit(100)]
#[verifier::spinoff_prover]
pub proof fn lemma_kvm_vapic_addr_image_injective(a: kvm_vapic_addr, b: kvm_vapic_addr)
    requires
        a.spec_bytes() == b.spec_bytes(),
    ensures
        a == b,
{
    lemma_kvm_vapic_addr_field_images(a);
    lemma_kvm_vapic_addr_field_images(b);
    lemma_u64_le_roundtrip(a.vapic_addr);
    lemma_u64_le_roundtrip(b.vapic_addr);
    assert(a =~= b);
}

/// A `kvm_vapic_addr` whose fields are all zero has an all-zero byte image,
/// the image of a zeroed ioctl argument buffer.
pub proof fn lemma_kvm_vapic_addr_zero_image(x: kvm_vapic_addr)
    requires
        x.is_zeroed(),
    ensures
        x.spec_bytes() == zero_bytes(KVM_VAPIC_ADDR_SIZE as int),
{
    lemma_le_bytes_zero();
    assert(x.spec_bytes() == zero_bytes(KVM_VAPIC_ADDR_SIZE as int));
}

/// Byte size of the `kvm_tpr_access_ctl` kernel image.
pub const KVM_TPR_ACCESS_CTL_SIZE: usize = 40;

/// Enables task-priority-register access reporting.
#[derive(Clone, Copy, Debug, PartialEq)]
#[verifier::ext_equal]
pub struct kvm_tpr_access_ctl {
    pub enabled: u32,
    pub flags: u32,
    pub reserved: [u32; 8],
}

impl kvm_tpr_access_ctl {
    /// The 40-byte kernel image of `self`: every field little-endian
    /// at its kernel offset.
    pub open spec fn spec_bytes(self) -> Seq<u8> {
        u32_le_bytes(self.enabled) + u32_le_bytes(self.flags) + u32_le_bytes(self.reserved@[0]) + u32_le_bytes(self.reserved@[1]) + u32_le_bytes(self.reserved@[2]) + u32_le_bytes(self.reserved@[3]) + u32_le_bytes(self.reserved@[4]) + u32_le_bytes(self.reserved@[5]) + u32_le_bytes(self.reserved@[6]) + u32_le_bytes(self.reserved@[7])
    }

    /// Every field of `self` holds zero.
    pub open spec fn is_zeroed(self) -> bool {
        self.enabled == 0 && self.flags == 0 && self.reserved@ == Seq::new(8, |i: int| 0u32)
    }

    /// Appends the image of `self` to `out`.
    pub fn push_image(&self, out: &mut Vec<u8>)
        ensures
            final(out)@ == old(out)@ + self.spec_bytes(),
    {
        let ghost base: Seq<u8> = out@;
        push_u32_le(out, self.enabled);
        let ghost mut acc: Seq<u8> = u32_le_bytes(self.enabled);
        push_u32_le(out, self.flags);
        proof {
            lemma_concat_assoc(base, acc, u32_le_bytes(self.flags));
            acc = acc + (u32_le_bytes(self.flags));
        }
        push_u32_le(out, self.reserved[0]);
        proof {
            lemma_concat_assoc(base, acc, u32_le_bytes(self.reserved@[0]));
            acc = acc + (u32_le_bytes(self.reserved@[0]));
        }
        push_u32_le(out, self.reserved[1]);
        proof {
            lemma_concat_assoc(base, acc, u32_le_bytes(self.reserved@[1]));
            acc = acc + (u32_le_bytes(self.reserved@[1]));
        }
        push_u32_le(out, self.reserved[2]);
        proof {
            lemma_concat_assoc(base, acc, u32_le_bytes(self.reserved@[2]));
            acc = acc + (u32_le_bytes(self.reserved@[2]));
        }
        push_u32_le(out, self.reserved[3]);
        proof {
            lemma_concat_assoc(base, acc, u32_le_bytes(self.reserved@[3]));
            acc = acc + (u32_le_bytes(self.reserved@[3]));
        }
        push_u32_le(out, self.reserved[4]);
        proof {
            lemma_concat_assoc(base, acc, u32_le_bytes(self.reserved@[4]));
            acc = acc + (u32_le_bytes(self.reserved@[4]));
        }
        push_u32_le(out, self.reserved[5]);
        proof {
            lemma_concat_assoc(base, acc, u32_le_bytes(self.reserved@[5]));
            acc = acc + (u32_le_bytes(self.reserved@[5]));
        }
        push_u32_le(out, self.reserved[6]);
        proof {
            lemma_concat_assoc(base, acc, u32_le_bytes(self.reserved@[6]));
            acc = acc + (u32_le_bytes(self.reserved@[6]));
        }
        push_u32_le(out, self.reserved[7]);
        proof {
            lemma_concat_assoc(base, acc, u32_le_bytes(self.reserved@[7]));
            acc = acc + (u32_le_bytes(self.reserved@[7]));
        }
        proof {
            assert(out@ == base + acc);
            assert(acc == self.spec_bytes());
        }
    }

    /// The image of `self` as a fresh buffer.
    pub fn to_bytes(&self) -> (out: Vec<u8>)
        ensures
            out@ == self.spec_bytes(),
            out@.len() == KVM_TPR_ACCESS_CTL_SIZE,
    {
        let mut out: Vec<u8> = Vec::new();
        self.push_image(&mut out);
        proof {
            lemma_concat_empty_left(self.spec_bytes());
            lemma_kvm_tpr_access_ctl_bytes_len(*self);
        }
        out
    }

    /// Reads the structure whose image starts at offset `off` of `buf`.
    pub fn read_at(buf: &[u8], off: usize) -> (v: Self)
        requires
            off + KVM_TPR_ACCESS_CTL_SIZE <= buf@.len(),
        ensures
            v.spec_bytes() == buf@.subrange(off as int, off as int + KVM_TPR_ACCESS_CTL_SIZE),
    {
        let n: usize = buf.len();
        proof {
            assert(off + KVM_TPR_ACCESS_CTL_SIZE <= n);
        }
        let v = kvm_tpr_access_ctl {
            enabled: read_u32_le(buf, off),
            flags: read_u32_le(buf, off + 4),
            reserved: [read_u32_le(buf, off + 8), read_u32_le(buf, off + 12), read_u32_le(buf, off + 16), read_u32_le(buf, off + 20), read_u32_le(buf, off + 24), read_u32_le(buf, off + 28), read_u32_le(buf, off + 32), read_u32_le(buf, off + 36)],
        };
        proof {
            lemma_kvm_tpr_access_ctl_read_at(v, buf@, off as int);
        }
        v
    }

    /// Reads a structure image from the start of `buf`, failing when the
    /// buffer is too short to hold one.
    pub fn from_bytes(buf: &[u8]) -> (r: Result<Self, CodecError>)
        ensures
            buf@.len() < KVM_TPR_ACCESS_CTL_SIZE ==> r == Err::<kvm_tpr_access_ctl, CodecError>(
                CodecError::IncompleteBuffer,
            ),
            buf@.len() >= KVM_TPR_ACCESS_CTL_SIZE ==> (r matches Ok(v) && v.spec_bytes() == buf@.subrange(
                0,
                KVM_TPR_ACCESS_CTL_SIZE as int,
            )),
    {
        if buf.len() < KVM_TPR_ACCESS_CTL_SIZE {
            Err(CodecError::IncompleteBuffer)
        } else {
            Ok(Self::read_at(buf, 0))
        }
    }
}

impl Default for kvm_tpr_access_ctl {
    /// Every field zero: the zeroed ioctl argument convention.
    fn default() -> (r: Self)
        ensures
            r.is_zeroed(),
    {
        let r = kvm_tpr_access_ctl {
            enabled: 0,
            flags: 0,
            reserved: vstd::array::array_fill_for_copy_types::<u32, 8>(0u32),
        };
        proof {
            assert(r.reserved@ =~= Seq::new(8, |i: int| 0u32));
        }
        r
    }
}

/// The image of a `kvm_tpr_access_ctl` is exactly 40 bytes.
pub proof fn lemma_kvm_tpr_access_ctl_bytes_len(x: kvm_tpr_access_ctl)
    ensures
        x.spec_bytes().len() == KVM_TPR_ACCESS_CTL_SIZE,
{
}

/// A `kvm_tpr_access_ctl` whose fields were decoded from a buffer has that
/// buffer segment as its image.
#[verifier::rlimit(100)]
#[verifier::spinoff_prover]
proof fn lemma_kvm_tpr_access_ctl_read_at(v: kvm_tpr_access_ctl, b: Seq<u8>, off: int)
    requires
        0 <= off,
        off + KVM_TPR_ACCESS_CTL_SIZE <= b.len(),
        v.enabled == u32_of_le_bytes(b.subrange(off + 0, off + 4)),
        v.flags == u32_of_le_bytes(b.subrange(off + 4, off + 8)),
        v.reserved@[0] == u32_of_le_bytes(b.subrange(off + 8, off + 12)),
        v.reserved@[1] == u32_of_le_bytes(b.subrange(off + 12, off + 16)),
        v.reserved@[2] == u32_of_le_bytes(b.subrange(off + 16, off + 20)),
        v.reserved@[3] == u32_of_le_bytes(b.subrange(off + 20, off + 24)),
        v.reserved@[4] == u32_of_le_bytes(b.subrange(off + 24, off + 28)),
        v.reserved@[5] == u32_of_le_bytes(b.subrange(off + 28, off + 32)),
        v.reserved@[6] == u32_of_le_bytes(b.subrange(off + 32, off + 36)),
        v.reserved@[7] == u32_of_le_bytes(b.subrange(off + 36, off + 40)),
    ensures
        v.spec_bytes() == b.subrange(off, off + KVM_TPR_ACCESS_CTL_SIZE),
{
    let s = b.subrange(off, off + KVM_TPR_ACCESS_CTL_SIZE as int);
    lemma_u32_le_bytes_of(b.subrange(off + 0, off + 4));
    lemma_u32_le_bytes_of(b.subrange(off + 4, off + 8));
    lemma_u32_le_bytes_of(b.subrange(off + 8, off + 12));
    lemma_u32_le_bytes_of(b.subrange(off + 12, off + 16));
    lemma_u32_le_bytes_of(b.subrange(off + 16, off + 20));
    lemma_u32_le_bytes_of(b.subrange(off + 20, off + 24));
    lemma_u32_le_bytes_of(b.subrange(off + 24, off + 28));
    lemma_u32_le_bytes_of(b.subrange(off + 28, off + 32));
    lemma_u32_le_bytes_of(b.subrange(off + 32, off + 36));
    lemma_u32_le_bytes_of(b.subrange(off + 36, off + 40));
    lemma_subrange_subrange(b, off, off + KVM_TPR_ACCESS_CTL_SIZE as int, 0, 4);
    lemma_subrange_subrange(b, off, off + KVM_TPR_ACCESS_CTL_SIZE as int, 4, 8);
    lemma_subrange_subrange(b, off, off + KVM_TPR_ACCESS_CTL_SIZE as int, 8, 12);
    lemma_subrange_subrange(b, off, off + KVM_TPR_ACCESS_CTL_SIZE as int, 12, 16);
    lemma_subrange_subrange(b, off, off + KVM_TPR_ACCESS_CTL_SIZE as int, 16, 20);
    lemma_subrange_subrange(b, off, off + KVM_TPR_ACCESS_CTL_SIZE as int, 20, 24);
    lemma_subrange_subrange(b, off, off + KVM_TPR_ACCESS_CTL_SIZE as int, 24, 28);
    lemma_subrange_subrange(b, off, off + KVM_TPR_ACCESS_CTL_SIZE as int, 28, 32);
    lemma_subrange_subrange(b, off, off + KVM_TPR_ACCESS_CTL_SIZE as int, 32, 36);
    lemma_subrange_subrange(b, off, off + KVM_TPR_ACCESS_CTL_SIZE as int, 36, 40);
    lemma_seq_parts(s, 4, 8);
    lemma_seq_parts(s, 8, 12);
    lemma_seq_parts(s, 12, 16);
    lemma_seq_parts(s, 16, 20);
    lemma_seq_parts(s, 20, 24);
    lemma_seq_parts(s, 24, 28);
    lemma_seq_parts(s, 28, 32);
    lemma_seq_parts(s, 32, 36);
    lemma_seq_parts(s, 36, 40);
    assert(s.subrange(0, KVM_TPR_ACCESS_CTL_SIZE as int) =~= s);
    assert(v.spec_bytes() == s);
}

/// Field images of a `kvm_tpr_access_ctl`, covering one run of fields.
#[verifier::rlimit(100)]
#[verifier::spinoff_prover]
proof fn lemma_kvm_tpr_access_ctl_field_images_seg0(x: kvm_tpr_access_ctl)
    ensures
        x.spec_bytes().len() == KVM_TPR_ACCESS_CTL_SIZE,
        x.spec_bytes().subrange(36, 40) == u32_le_bytes(x.reserved@[7]),
        x.spec_bytes().subrange(32, 36) == u32_le_bytes(x.reserved@[6]),
        x.spec_bytes().subrange(28, 32) == u32_le_bytes(x.reserved@[5]),
        x.spec_bytes().subrange(24, 28) == u32_le_bytes(x.reserved@[4]),
        x.spec_bytes().subrange(20, 24) == u32_le_bytes(x.reserved@[3]),
        x.spec_bytes().subrange(16, 20) == u32_le_bytes(x.reserved@[2]),
        x.spec_bytes().subrange(12, 16) == u32_le_bytes(x.reserved@[1]),
        x.spec_bytes().subrange(8, 12) == u32_le_bytes(x.reserved@[0]),
        x.spec_bytes().subrange(0, 8) == (u32_le_bytes(x.enabled) + u32_le_bytes(x.flags)),
{
    lemma_kvm_tpr_access_ctl_bytes_len(x);
    let p0 = u32_le_bytes(x.enabled);
    let p1 = u32_le_bytes(x.flags);
    let p2 = u32_le_bytes(x.reserved@[0]);
    let p3 = u32_le_bytes(x.reserved@[1]);
    let p4 = u32_le_bytes(x.reserved@[2]);
    let p5 = u32_le_bytes(x.reserved@[3]);
    let p6 = u32_le_bytes(x.reserved@[4]);
    let p7 = u32_le_bytes(x.reserved@[5]);
    let p8 = u32_le_bytes(x.reserved@[6]);
    let p9 = u32_le_bytes(x.reserved@[7]);
    let t1 = p0 + p1;
    let t2 = t1 + p2;
    let t3 = t2 + p3;
    let t4 = t3 + p4;
    let t5 = t4 + p5;
    let t6 = t5 + p6;
    let t7 = t6 + p7;
    let t8 = t7 + p8;
    let t9 = t8 + p9;
    assert(x.spec_bytes() == t9);
    lemma_concat_parts(t8, p9);
    lemma_concat_parts(t7, p8);
    lemma_subrange_subrange(x.spec_bytes(), 0, 36, 0, 32);
    lemma_subrange_subrange(x.spec_bytes(), 0, 36, 32, 36);
    lemma_concat_parts(t6, p7);
    lemma_subrange_subrange(x.spec_bytes(), 0, 32, 0, 28);
    lemma_subrange_subrange(x.spec_bytes(), 0, 32, 28, 32);
    lemma_concat_parts(t5, p6);
    lemma_subrange_subrange(x.spec_bytes(), 0, 28, 0, 24);
    lemma_subrange_subrange(x.spec_bytes(), 0, 28, 24, 28);
    lemma_concat_parts(t4, p5);
    lemma_subrange_subrange(x.spec_bytes(), 0, 24, 0, 20);
    lemma_subrange_subrange(x.spec_bytes(), 0, 24, 20, 24);
    lemma_concat_parts(t3, p4);
    lemma_subrange_subrange(x.spec_bytes(), 0, 20, 0, 16);
    lemma_subrange_subrange(x.spec_bytes(), 0, 20, 16, 20);
    lemma_concat_parts(t2, p3);
    lemma_subrange_subrange(x.spec_bytes(), 0, 16, 0, 12);
    lemma_subrange_subrange(x.spec_bytes(), 0, 16, 12, 16);
    lemma_concat_parts(t1, p2);
    lemma_subrange_subrange(x.spec_bytes(), 0, 12, 0, 8);
    lemma_subrange_subrange(x.spec_bytes(), 0, 12, 8, 12);
}

/// Field images of a `kvm_tpr_access_ctl`, covering one run of fields.
#[verifier::rlimit(100)]
#[verifier::spinoff_prover]
proof fn lemma_kvm_tpr_access_ctl_field_images_seg1(x: kvm_tpr_access_ctl)
    ensures
        x.spec_bytes().len() == KVM_TPR_ACCESS_CTL_SIZE,
        x.spec_bytes().subrange(4, 8) == u32_le_bytes(x.flags),
        x.spec_bytes().subrange(0, 4) == u32_le_bytes(x.enabled),
{
    lemma_kvm_tpr_access_ctl_bytes_len(x);
    let p0 = u32_le_bytes(x.enabled);
    let p1 = u32_le_bytes(x.flags);
    let t1 = p0 + p1;
    lemma_kvm_tpr_access_ctl_field_images_seg0(x);
    lemma_concat_parts(p0, p1);
    lemma_subrange_subrange(x.spec_bytes(), 0, 8, 0, 4);
    lemma_subrange_subrange(x.spec_bytes(), 0, 8, 4, 8);
}

/// Each field's image stands at its kernel offset inside the image of
/// a `kvm_tpr_access_ctl`.
proof fn lemma_kvm_tpr_access_ctl_field_images(x: kvm_tpr_access_ctl)
    ensures
        x.spec_bytes().len() == KVM_TPR_ACCESS_CTL_SIZE,
        x.spec_bytes().subrange(0, 4) == u32_le_bytes(x.enabled),
        x.spec_bytes().subrange(4, 8) == u32_le_bytes(x.flags),
        x.spec_bytes().subrange(8, 12) == u32_le_bytes(x.reserved@[0]),
        x.spec_bytes().subrange(12, 16) == u32_le_bytes(x.reserved@[1]),
        x.spec_bytes().subrange(16, 20) == u32_le_bytes(x.reserved@[2]),
        x.spec_bytes().subrange(20, 24) == u32_le_bytes(x.reserved@[3]),
        x.spec_bytes().subrange(24, 28) == u32_le_bytes(x.reserved@[4]),
        x.spec_bytes().subrange(28, 32) == u32_le_bytes(x.reserved@[5]),
        x.spec_bytes().subrange(32, 36) == u32_le_bytes(x.reserved@[6]),
        x.spec_bytes().subrange(36, 40) == u32_le_bytes(x.reserved@[7]),
{
    lemma_kvm_tpr_access_ctl_field_images_seg0(x);
    lemma_kvm_tpr_access_ctl_field_images_seg1(x);
}

/// The byte image determines the structure: reading an image back
/// always yields the one value that produced it.
#[verifier::rlimit(100)]
#[verifier::spinoff_prover]
pub proof fn lemma_kvm_tpr_access_ctl_image_injective(a: kvm_tpr_access_ctl, b: kvm_tpr_access_ctl)
    requires
        a.spec_bytes() == b.spec_bytes(),
    ensures
        a == b,
{
    lemma_kvm_tpr_access_ctl_field_images(a);
    lemma_kvm_tpr_access_ctl_field_images(b);
    lemma_u32_le_roundtrip(a.enabled);
    lemma_u32_le_roundtrip(b.enabled);
    lemma_u32_le_roundtrip(a.flags);
    lemma_u32_le_roundtrip(b.flags);
    lemma_u32_le_roundtrip(a.reserved@[0]);
    lemma_u32_le_roundtrip(b.reserved@[0]);
    lemma_u32_le_roundtrip(a.reserved@[1]);
    lemma_u32_le_roundtrip(b.reserved@[1]);
    lemma_u32_le_roundtrip(a.reserved@[2]);
    lemma_u32_le_roundtrip(b.reserved@[2]);
    lemma_u32_le_roundtrip(a.reserved@[3]);
    lemma_u32_le_roundtrip(b.reserved@[3]);
    lemma_u32_le_roundtrip(a.reserved@[4]);
    lemma_u32_le_roundtrip(b.reserved@[4]);
    lemma_u32_le_roundtrip(a.reserved@[5]);
    lemma_u32_le_roundtrip(b.reserved@[5]);
    lemma_u32_le_roundtrip(a.reserved@[6]);
    lemma_u32_le_roundtrip(b.reserved@[6]);
    lemma_u32_le_roundtrip(a.reserved@[7]);
    lemma_u32_le_roundtrip(b.reserved@[7]);
    assert(a.reserved@ =~= b.reserved@);
    assert(a =~= b);
}

/// A `kvm_tpr_access_ctl` whose fields are all zero has an all-zero byte image,
/// the image of a zeroed ioctl argument buffer.
pub proof fn lemma_kvm_tpr_access_ctl_zero_image(x: kvm_tpr_access_ctl)
    requires
        x.is_zeroed(),
    ensures
        x.spec_bytes() == zero_bytes(KVM_TPR_ACCESS_CTL_SIZE as int),
{
    lemma_le_bytes_zero();
    lemma_zero_bytes_split(4, 8);
    lemma_zero_bytes_split(8, 12);
    lemma_zero_bytes_split(12, 16);
    lemma_zero_bytes_split(16, 20);
    lemma_zero_bytes_split(20, 24);
    lemma_zero_bytes_split(24, 28);
    lemma_zero_bytes_split(28, 32);
    lemma_zero_bytes_split(32, 36);
    lemma_zero_bytes_split(36, 40);
    assert(x.spec_bytes() == zero_bytes(KVM_TPR_ACCESS_CTL_SIZE as int));
}

/// Byte size of the `kvm_reinject_control` kernel image.
pub const KVM_REINJECT_CONTROL_SIZE: usize = 32;

/// Controls timer-interrupt reinjection.
#[derive(Clone, Copy, Debug, PartialEq)]
#[verifier::ext_equal]
pub struct kvm_reinject_control {
    pub pit_reinject: u8,
    pub reserved: [u8; 31],
}

impl kvm_reinject_control {
    /// The 32-byte kernel image of `self`: every field little-endian
    /// at its kernel offset.
    pub open spec fn spec_bytes(self) -> Seq<u8> {
        seq![self.pit_reinject] + self.reserved@
    }

    /// Every field of `self` holds zero.
    pub open spec fn is_zeroed(self) -> bool {
        self.pit_reinject == 0 && self.reserved@ == zero_bytes(31)
    }

    /// Appends the image of `self` to `out`.
    pub fn push_image(&self, out: &mut Vec<u8>)
        ensures
            final(out)@ == old(out)@ + self.spec_bytes(),
    {
        let ghost base: Seq<u8> = out@;
        push_u8(out, self.pit_reinject);
        let ghost mut acc: Seq<u8> = seq![self.pit_reinject];
        push_u8s(out, &self.reserved);
        proof {
            lemma_concat_assoc(base, acc, self.reserved@);
            acc = acc + (self.reserved@);
        }
        proof {
            assert(out@ == base + acc);
            assert(acc == self.spec_bytes());
        }
    }

    /// The image of `self` as a fresh buffer.
    pub fn to_bytes(&self) -> (out: Vec<u8>)
        ensures
            out@ == self.spec_bytes(),
            out@.len() == KVM_REINJECT_CONTROL_SIZE,
    {
        let mut out: Vec<u8> = Vec::new();
        self.push_image(&mut out);
        proof {
            lemma_concat_empty_left(self.spec_bytes());
            lemma_kvm_reinject_control_bytes_len(*self);
        }
        out
    }

    /// Reads the structure whose image starts at offset `off` of `buf`.
    pub fn read_at(buf: &[u8], off: usize) -> (v: Self)
        requires
            off + KVM_REINJECT_CONTROL_SIZE <= buf@.len(),
        ensures
            v.spec_bytes() == buf@.subrange(off as int, off as int + KVM_REINJECT_CONTROL_SIZE),
    {
        let n: usize = buf.len();
        proof {
            assert(off + KVM_REINJECT_CONTROL_SIZE <= n);
        }
        let v = kvm_reinject_control {
            pit_reinject: read_u8(buf, off),
            reserved: read_u8s::<31>(buf, off + 1),
        };
        proof {
            lemma_kvm_reinject_control_read_at(v, buf@, off as int);
        }
        v
    }

    /// Reads a structure image from the start of `buf`, failing when the
    /// buffer is too short to hold one.
    pub fn from_bytes(buf: &[u8]) -> (r: Result<Self, CodecError>)
        ensures
            buf@.len() < KVM_REINJECT_CONTROL_SIZE ==> r == Err::<kvm_reinject_control, CodecError>(
                CodecError::IncompleteBuffer,
            ),
            buf@.len() >= KVM_REINJECT_CONTROL_SIZE ==> (r matches Ok(v) && v.spec_bytes() == buf@.subrange(
                0,
                KVM_REINJECT_CONTROL_SIZE as int,
            )),
    {
        if buf.len() < KVM_REINJECT_CONTROL_SIZE {
            Err(CodecError::IncompleteBuffer)
        } else {
            Ok(Self::read_at(buf, 0))
        }
    }
}

impl Default for kvm_reinject_control {
    /// Every field zero: the zeroed ioctl argument convention.
    fn default() -> (r: Self)
        ensures
            r.is_zeroed(),
    {
        let r = kvm_reinject_control {
            pit_reinject: 0,
            reserved: vstd::array::array_fill_for_copy_types::<u8, 31>(0u8),
        };
        proof {
            assert(r.reserved@ =~= zero_bytes(31));
        }
        r
    }
}

/// The image of a `kvm_reinject_control` is exactly 32 bytes.
pub proof fn lemma_kvm_reinject_control_bytes_len(x: kvm_reinject_control)
    ensures
        x.spec_bytes().len() == KVM_REINJECT_CONTROL_SIZE,
{
}

/// A `kvm_reinject_control` whose fields were decoded from a buffer has that
/// buffer segment as its image.
#[verifier::rlimit(100)]
#[verifier::spinoff_prover]
proof fn lemma_kvm_reinject_control_read_at(v: kvm_reinject_control, b: Seq<u8>, off: int)
    requires
        0 <= off,
        off + KVM_REINJECT_CONTROL_SIZE <= b.len(),
        v.pit_reinject == b[off + 0],
        v.reserved@ == b.subrange(off + 1, off + 32),
    ensures
        v.spec_bytes() == b.subrange(off, off + KVM_REINJECT_CONTROL_SIZE),
{
    let s = b.subrange(off, off + KVM_REINJECT_CONTROL_SIZE as int);
    assert(seq![v.pit_reinject] =~= b.subrange(off + 0, off + 1));
    lemma_subrange_subrange(b, off, off + KVM_REINJECT_CONTROL_SIZE as int, 0, 1);
    lemma_subrange_subrange(b, off, off + KVM_REINJECT_CONTROL_SIZE as int, 1, 32);
    lemma_seq_parts(s, 1, 32);
    assert(s.subrange(0, KVM_REINJECT_CONTROL_SIZE as int) =~= s);
    assert(v.spec_bytes() == s);
}

/// Field images of a `kvm_reinject_control`, covering one run of fields.
#[verifier::rlimit(100)]
#[verifier::spinoff_prover]
proof fn lemma_kvm_reinject_control_field_images_seg0(x: kvm_reinject_control)
    ensures
        x.spec_bytes().len() == KVM_REINJECT_CONTROL_SIZE,
        x.spec_bytes().subrange(1, 32) == x.reserved@,
        x.spec_bytes().subrange(0, 1) == seq![x.pit_reinject],
{
    lemma_kvm_reinject_control_bytes_len(x);
    let p0 = seq![x.pit_reinject];
    let p1 = x.reserved@;
    let t1 = p0 + p1;
    assert(x.spec_bytes() == t1);
    lemma_concat_parts(p0, p1);
}

/// Each field's image stands at its kernel offset inside the image of
/// a `kvm_reinject_control`.
proof fn lemma_kvm_reinject_control_field_images(x: kvm_reinject_control)
    ensures
        x.spec_bytes().len() == KVM_REINJECT_CONTROL_SIZE,
        x.spec_bytes().subrange(0, 1) == seq![x.pit_reinject],
        x.spec_bytes().subrange(1, 32) == x.reserved@,
{
    lemma_kvm_reinject_control_field_images_seg0(x);
}

/// The byte image determines the structure: reading an image back
/// always yields the one value that produced it.
#[verifier::rlimit(100)]
#[verifier::spinoff_prover]
pub proof fn lemma_kvm_reinject_control_image_injective(a: kvm_reinject_control, b: kvm_reinject_control)
    requires
        a.spec_bytes() == b.spec_bytes(),
    ensures
        a == b,
{
    lemma_kvm_reinject_control_field_images(a);
    lemma_kvm_reinject_control_field_images(b);
    assert(a.pit_reinject == seq![a.pit_reinject][0] && b.pit_reinject == seq![b.pit_reinject][0]);
    assert(seq![a.pit_reinject][0] == seq![b.pit_reinject][0]);
    assert(a.reserved@ =~= b.reserved@);
    assert(a =~= b);
}

/// A `kvm_reinject_control` whose fields are all zero has an all-zero byte image,
/// the image of a zeroed ioctl argument buffer.
pub proof fn lemma_kvm_reinject_control_zero_image(x: kvm_reinject_control)
    requires
        x.is_zeroed(),
    ensures
        x.spec_bytes() == zero_bytes(KVM_REINJECT_CONTROL_SIZE as int),
{
    lemma_le_bytes_zero();
    assert(seq![x.pit_reinject] =~= zero_bytes(1));
    lemma_zero_bytes_split(1, 32);
    assert(x.spec_bytes() == zero_bytes(KVM_REINJECT_CONTROL_SIZE as int));
}

/// Byte size of the `kvm_coalesced_mmio_zone` kernel image.
pub const KVM_COALESCED_MMIO_ZONE_SIZE: usize = 16;

/// One guest physical range whose writes are coalesced.
#[derive(Clone, Copy, Debug, PartialEq)]
#[verifier::ext_equal]
pub struct kvm_coalesced_mmio_zone {
    pub addr: u64,
    pub size: u32,
    pub pad: u32,
}

impl kvm_coalesced_mmio_zone {
    /// The 16-byte kernel image of `self`: every field little-endian
    /// at its kernel offset.
    pub open spec fn spec_bytes(self) -> Seq<u8> {
        u64_le_bytes(self.addr) + u32_le_bytes(self.size) + u32_le_bytes(self.pad)
    }

    /// Every field of `self` holds zero.
    pub open spec fn is_zeroed(self) -> bool {
        self.addr == 0 && self.size == 0 && self.pad == 0
    }

    /// Appends the image of `self` to `out`.
    pub fn push_image(&self, out: &mut Vec<u8>)
        ensures
            final(out)@ == old(out)@ + self.spec_bytes(),
    {
        let ghost base: Seq<u8> = out@;
        push_u64_le(out, self.addr);
        let ghost mut acc: Seq<u8> = u64_le_bytes(self.addr);
        push_u32_le(out, self.size);
        proof {
            lemma_concat_assoc(base, acc, u32_le_bytes(self.size));
            acc = acc + (u32_le_bytes(self.size));
        }
        push_u32_le(out, self.pad);
        proof {
            lemma_concat_assoc(base, acc, u32_le_bytes(self.pad));
            acc = acc + (u32_le_bytes(self.pad));
        }
        proof {
            assert(out@ == base + acc);
            assert(acc == self.spec_bytes());
        }
    }

    /// The image of `self` as a fresh buffer.
    pub fn to_bytes(&self) -> (out: Vec<u8>)
        ensures
            out@ == self.spec_bytes(),
            out@.len() == KVM_COALESCED_MMIO_ZONE_SIZE,
    {
        let mut out: Vec<u8> = Vec::new();
        self.push_image(&mut out);
        proof {
            lemma_concat_empty_left(self.spec_bytes());
            lemma_kvm_coalesced_mmio_zone_bytes_len(*self);
        }
        out
    }

    /// Reads the structure whose image starts at offset `off` of `buf`.
    pub fn read_at(buf: &[u8], off: usize) -> (v: Self)
        requires
            off + KVM_COALESCED_MMIO_ZONE_SIZE <= buf@.len(),
        ensures
            v.spec_bytes() == buf@.subrange(off as int, off as int + KVM_COALESCED_MMIO_ZONE_SIZE),
    {
        let n: usize = buf.len();
        proof {
            assert(off + KVM_COALESCED_MMIO_ZONE_SIZE <= n);
        }
        let v = kvm_coalesced_mmio_zone {
            addr: read_u64_le(buf, off),
            size: read_u32_le(buf, off + 8),
            pad: read_u32_le(buf, off + 12),
        };
        proof {
            lemma_kvm_coalesced_mmio_zone_read_at(v, buf@, off as int);
        }
        v
    }

    /// Reads a structure image from the start of `buf`, failing when the
    /// buffer is too short to hold one.
    pub fn from_bytes(buf: &[u8]) -> (r: Result<Self, CodecError>)
        ensures
            buf@.len() < KVM_COALESCED_MMIO_ZONE_SIZE ==> r == Err::<kvm_coalesced_mmio_zone, CodecError>(
                CodecError::IncompleteBuffer,
            ),
            buf@.len() >= KVM_COALESCED_MMIO_ZONE_SIZE ==> (r matches Ok(v) && v.spec_bytes() == buf@.subrange(
                0,
                KVM_COALESCED_MMIO_ZONE_SIZE as int,
            )),
    {
        if buf.len() < KVM_COALESCED_MMIO_ZONE_SIZE {
            Err(CodecError::IncompleteBuffer)
        } else {
            Ok(Self::read_at(buf, 0))
        }
    }
}

impl Default for kvm_coalesced_mmio_zone {
    /// Every field zero: the zeroed ioctl argument convention.
    fn default() -> (r: Self)
        ensures
            r.is_zeroed(),
    {
        let r = kvm_coalesced_mmio_zone {
            addr: 0,
            size: 0,
            pad: 0,
        };
        r
    }
}

/// The image of a `kvm_coalesced_mmio_zone` is exactly 16 bytes.
pub proof fn lemma_kvm_coalesced_mmio_zone_bytes_len(x: kvm_coalesced_mmio_zone)
    ensures
        x.spec_bytes().len() == KVM_COALESCED_MMIO_ZONE_SIZE,
{
}

/// A `kvm_coalesced_mmio_zone` whose fields were decoded from a buffer has that
/// buffer segment as its image.
#[verifier::rlimit(100)]
#[verifier::spinoff_prover]
proof fn lemma_kvm_coalesced_mmio_zone_read_at(v: kvm_coalesced_mmio_zone, b: Seq<u8>, off: int)
    requires
        0 <= off,
        off + KVM_COALESCED_MMIO_ZONE_SIZE <= b.len(),
        v.addr == u64_of_le_bytes(b.subrange(off + 0, off + 8)),
        v.size == u32_of_le_bytes(b.subrange(off + 8, off + 12)),
        v.pad == u32_of_le_bytes(b.subrange(off + 12, off + 16)),
    ensures
        v.spec_bytes() == b.subrange(off, off + KVM_COALESCED_MMIO_ZONE_SIZE),
{
    let s = b.subrange(off, off + KVM_COALESCED_MMIO_ZONE_SIZE as int);
    lemma_u64_le_bytes_of(b.subrange(off + 0, off + 8));
    lemma_u32_le_bytes_of(b.subrange(off + 8, off + 12));
    lemma_u32_le_bytes_of(b.subrange(off + 12, off + 16));
    lemma_subrange_subrange(b, off, off + KVM_COALESCED_MMIO_ZONE_SIZE as int, 0, 8);
    lemma_subrange_subrange(b, off, off + KVM_COALESCED_MMIO_ZONE_SIZE as int, 8, 12);
    lemma_subrange_subrange(b, off, off + KVM_COALESCED_MMIO_ZONE_SIZE as int, 12, 16);
    lemma_seq_parts(s, 8, 12);
    lemma_seq_parts(s, 12, 16);
    assert(s.subrange(0, KVM_COALESCED_MMIO_ZONE_SIZE as int) =~= s);
    assert(v.spec_bytes() == s);
}

/// Field images of a `kvm_coalesced_mmio_zone`, covering one run of fields.
#[verifier::rlimit(100)]
#[verifier::spinoff_prover]
proof fn lemma_kvm_coalesced_mmio_zone_field_images_seg0(x: kvm_coalesced_mmio_zone)
    ensures
        x.spec_bytes().len() == KVM_COALESCED_MMIO_ZONE_SIZE,
        x.spec_bytes().subrange(12, 16) == u32_le_bytes(x.pad),
        x.spec_bytes().subrange(8, 12) == u32_le_bytes(x.size),
        x.spec_bytes().subrange(0, 8) == u64_le_bytes(x.addr),
{
    lemma_kvm_coalesced_mmio_zone_bytes_len(x);
    let p0 = u64_le_bytes(x.addr);
    let p1 = u32_le_bytes(x.size);
    let p2 = u32_le_bytes(x.pad);
    let t1 = p0 + p1;
    let t2 = t1 + p2;
    assert(x.spec_bytes() == t2);
    lemma_concat_parts(t1, p2);
    lemma_concat_parts(p0, p1);
    lemma_subrange_subrange(x.spec_bytes(), 0, 12, 0, 8);
    lemma_subrange_subrange(x.spec_bytes(), 0, 12, 8, 12);
}

/// Each field's image stands at its kernel offset inside the image of
/// a `kvm_coalesced_mmio_zone`.
proof fn lemma_kvm_coalesced_mmio_zone_field_images(x: kvm_coalesced_mmio_zone)
    ensures
        x.spec_bytes().len() == KVM_COALESCED_MMIO_ZONE_SIZE,
        x.spec_bytes().subrange(0, 8) == u64_le_bytes(x.addr),
        x.spec_bytes().subrange(8, 12) == u32_le_bytes(x.size),
        x.spec_bytes().subrange(12, 16) == u32_le_bytes(x.pad),
{
    lemma_kvm_coalesced_mmio_zone_field_images_seg0(x);
}

/// The byte image determines the structure: reading an image back
/// always yields the one value that produced it.
#[verifier::rlimit(100)]
#[verifier::spinoff_prover]
pub proof fn lemma_kvm_coalesced_mmio_zone_image_injective(a: kvm_coalesced_mmio_zone, b: kvm_coalesced_mmio_zone)
    requires
        a.spec_bytes() == b.spec_bytes(),
    ensures
        a == b,
{
    lemma_kvm_coalesced_mmio_zone_field_images(a);
    lemma_kvm_coalesced_mmio_zone_field_images(b);
    lemma_u64_le_roundtrip(a.addr);
    lemma_u64_le_roundtrip(b.addr);
    lemma_u32_le_roundtrip(a.size);
    lemma_u32_le_roundtrip(b.size);
    lemma_u32_le_roundtrip(a.pad);
    lemma_u32_le_roundtrip(b.pad);
    assert(a =~= b);
}

/// A `kvm_coalesced_mmio_zone` whose fields are all zero has an all-zero byte image,
/// the image of a zeroed ioctl argument buffer.
pub proof fn lemma_kvm_coalesced_mmio_zone_zero_image(x: kvm_coalesced_mmio_zone)
    requires
        x.is_zeroed(),
    ensures
        x.spec_bytes() == zero_bytes(KVM_COALESCED_MMIO_ZONE_SIZE as int),
{
    lemma_le_bytes_zero();
    lemma_zero_bytes_split(8, 12);
    lemma_zero_bytes_split(12, 16);
    assert(x.spec_bytes() == zero_bytes(KVM_COALESCED_MMIO_ZONE_SIZE as int));
}

/// Byte size of the `kvm_coalesced_mmio` kernel image.
pub const KVM_COALESCED_MMIO_SIZE: usize = 24;

/// One coalesced write: its address, length and data.
#[derive(Clone, Copy, Debug, PartialEq)]
#[verifier::ext_equal]
pub struct kvm_coalesced_mmio {
    pub phys_addr: u64,
    pub len: u32,
    pub pad: u32,
    pub data: [u8; 8],
}

impl kvm_coalesced_mmio {
    /// The 24-byte kernel image of `self`: every field little-endian
    /// at its kernel offset.
    pub open spec fn spec_bytes(self) -> Seq<u8> {
        u64_le_bytes(self.phys_addr) + u32_le_bytes(self.len) + u32_le_bytes(self.pad) + self.data@
    }

    /// Every field of `self` holds zero.
    pub open spec fn is_zeroed(self) -> bool {
        self.phys_addr == 0 && self.len == 0 && self.pad == 0 && self.data@ == zero_bytes(8)
    }

    /// Appends the image of `self` to `out`.
    pub fn push_image(&self, out: &mut Vec<u8>)
        ensures
            final(out)@ == old(out)@ + self.spec_bytes(),
    {
        let ghost base: Seq<u8> = out@;
        push_u64_le(out, self.phys_addr);
        let ghost mut acc: Seq<u8> = u64_le_bytes(self.phys_addr);
        push_u32_le(out, self.len);
        proof {
            lemma_concat_assoc(base, acc, u32_le_bytes(self.len));
            acc = acc + (u32_le_bytes(self.len));
        }
        push_u32_le(out, self.pad);
        proof {
            lemma_concat_assoc(base, acc, u32_le_bytes(self.pad));
            acc = acc + (u32_le_bytes(self.pad));
        }
        push_u8s(out, &self.data);
        proof {
            lemma_concat_assoc(base, acc, self.data@);
            acc = acc + (self.data@);
        }
        proof {
            assert(out@ == base + acc);
            assert(acc == self.spec_bytes());
        }
    }

    /// The image of `self` as a fresh buffer.
    pub fn to_bytes(&self) -> (out: Vec<u8>)
        ensures
            out@ == self.spec_bytes(),
            out@.len() == KVM_COALESCED_MMIO_SIZE,
    {
        let mut out: Vec<u8> = Vec::new();
        self.push_image(&mut out);
        proof {
            lemma_concat_empty_left(self.spec_bytes());
            lemma_kvm_coalesced_mmio_bytes_len(*self);
        }
        out
    }

    /// Reads the structure whose image starts at offset `off` of `buf`.
    pub fn read_at(buf: &[u8], off: usize) -> (v: Self)
        requires
            off + KVM_COALESCED_MMIO_SIZE <= buf@.len(),
        ensures
            v.spec_bytes() == buf@.subrange(off as int, off as int + KVM_COALESCED_MMIO_SIZE),
    {
        let n: usize = buf.len();
        proof {
            assert(off + KVM_COALESCED_MMIO_SIZE <= n);
        }
        let v = kvm_coalesced_mmio {
            phys_addr: read_u64_le(buf, off),
            len: read_u32_le(buf, off + 8),
            pad: read_u32_le(buf, off + 12),
            data: read_u8s::<8>(buf, off + 16),
        };
        proof {
            lemma_kvm_coalesced_mmio_read_at(v, buf@, off as int);
        }
        v
    }

    /// Reads a structure image from the start of `buf`, failing when the
    /// buffer is too short to hold one.
    pub fn from_bytes(buf: &[u8]) -> (r: Result<Self, CodecError>)
        ensures
            buf@.len() < KVM_COALESCED_MMIO_SIZE ==> r == Err::<kvm_coalesced_mmio, CodecError>(
                CodecError::IncompleteBuffer,
            ),
            buf@.len() >= KVM_COALESCED_MMIO_SIZE ==> (r matches Ok(v) && v.spec_bytes() == buf@.subrange(
                0,
                KVM_COALESCED_MMIO_SIZE as int,
            )),
    {
        if buf.len() < KVM_COALESCED_MMIO_SIZE {
            Err(CodecError::IncompleteBuffer)
        } else {
            Ok(Self::read_at(buf, 0))
        }
    }
}

impl Default for kvm_coalesced_mmio {
    /// Every field zero: the zeroed ioctl argument convention.
    fn default() -> (r: Self)
        ensures
            r.is_zeroed(),
    {
        let r = kvm_coalesced_mmio {
            phys_addr: 0,
            len: 0,
            pad: 0,
            data: vstd::array::array_fill_for_copy_types::<u8, 8>(0u8),
        };
        proof {
            assert(r.data@ =~= zero_bytes(8));
        }
        r
    }
}

/// The image of a `kvm_coalesced_mmio` is exactly 24 bytes.
pub proof fn lemma_kvm_coalesced_mmio_bytes_len(x: kvm_coalesced_mmio)
    ensures
        x.spec_bytes().len() == KVM_COALESCED_MMIO_SIZE,
{
}

/// A `kvm_coalesced_mmio` whose fields were decoded from a buffer has that
/// buffer segment as its image.
#[verifier::rlimit(100)]
#[verifier::spinoff_prover]
proof fn lemma_kvm_coalesced_mmio_read_at(v: kvm_coalesced_mmio, b: Seq<u8>, off: int)
    requires
        0 <= off,
        off + KVM_COALESCED_MMIO_SIZE <= b.len(),
        v.phys_addr == u64_of_le_bytes(b.subrange(off + 0, off + 8)),
        v.len == u32_of_le_bytes(b.subrange(off + 8, off + 12)),
        v.pad == u32_of_le_bytes(b.subrange(off + 12, off + 16)),
        v.data@ == b.subrange(off + 16, off + 24),
    ensures
        v.spec_bytes() == b.subrange(off, off + KVM_COALESCED_MMIO_SIZE),
{
    let s = b.subrange(off, off + KVM_COALESCED_MMIO_SIZE as int);
    lemma_u64_le_bytes_of(b.subrange(off + 0, off + 8));
    lemma_u32_le_bytes_of(b.subrange(off + 8, off + 12));
    lemma_u32_le_bytes_of(b.subrange(off + 12, off + 16));
    lemma_subrange_subrange(b, off, off + KVM_COALESCED_MMIO_SIZE as int, 0, 8);
    lemma_subrange_subrange(b, off, off + KVM_COALESCED_MMIO_SIZE as int, 8, 12);
    lemma_subrange_subrange(b, off, off + KVM_COALESCED_MMIO_SIZE as int, 12, 16);
    lemma_subrange_subrange(b, off, off + KVM_COALESCED_MMIO_SIZE as int, 16, 24);
    lemma_seq_parts(s, 8, 12);
    lemma_seq_parts(s, 12, 16);
    lemma_seq_parts(s, 16, 24);
    assert(s.subrange(0, KVM_COALESCED_MMIO_SIZE as int) =~= s);
    assert(v.spec_bytes() == s);
}

/// Field images of a `kvm_coalesced_mmio`, covering one run of fields.
#[verifier::rlimit(100)]
#[verifier::spinoff_prover]
proof fn lemma_kvm_coalesced_mmio_field_images_seg0(x: kvm_coalesced_mmio)
    ensures
        x.spec_bytes().len() == KVM_COALESCED_MMIO_SIZE,
        x.spec_bytes().subrange(16, 24) == x.data@,
        x.spec_bytes().subrange(12, 16) == u32_le_bytes(x.pad),
        x.spec_bytes().subrange(8, 12) == u32_le_bytes(x.len),
        x.spec_bytes().subrange(0, 8) == u64_le_bytes(x.phys_addr),
{
    lemma_kvm_coalesced_mmio_bytes_len(x);
    let p0 = u64_le_bytes(x.phys_addr);
    let p1 = u32_le_bytes(x.len);
    let p2 = u32_le_bytes(x.pad);
    let p3 = x.data@;
    let t1 = p0 + p1;
    let t2 = t1 + p2;
    let t3 = t2 + p3;
    assert(x.spec_bytes() == t3);
    lemma_concat_parts(t2, p3);
    lemma_concat_parts(t1, p2);
    lemma_subrange_subrange(x.spec_bytes(), 0, 16, 0, 12);
    lemma_subrange_subrange(x.spec_bytes(), 0, 16, 12, 16);
    lemma_concat_parts(p0, p1);
    lemma_subrange_subrange(x.spec_bytes(), 0, 12, 0, 8);
    lemma_subrange_subrange(x.spec_bytes(), 0, 12, 8, 12);
}

/// Each field's image stands at its kernel offset inside the image of
/// a `kvm_coalesced_mmio`.
proof fn lemma_kvm_coalesced_mmio_field_images(x: kvm_coalesced_mmio)
    ensures
        x.spec_bytes().len() == KVM_COALESCED_MMIO_SIZE,
        x.spec_bytes().subrange(0, 8) == u64_le_bytes(x.phys_addr),
        x.spec_bytes().subrange(8, 12) == u32_le_bytes(x.len),
        x.spec_bytes().subrange(12, 16) == u32_le_bytes(x.pad),
        x.spec_bytes().subrange(16, 24) == x.data@,
{
    lemma_kvm_coalesced_mmio_field_images_seg0(x);
}

/// The byte image determines the structure: reading an image back
/// always yields the one value that produced it.
#[verifier::rlimit(100)]
#[verifier::spinoff_prover]
pub proof fn lemma_kvm_coalesced_mmio_image_injective(a: kvm_coalesced_mmio, b: kvm_coalesced_mmio)
    requires
        a.spec_bytes() == b.spec_bytes(),
    ensures
        a == b,
{
    lemma_kvm_coalesced_mmio_field_images(a);
    lemma_kvm_coalesced_mmio_field_images(b);
    lemma_u64_le_roundtrip(a.phys_addr);
    lemma_u64_le_roundtrip(b.phys_addr);
    lemma_u32_le_roundtrip(a.len);
    lemma_u32_le_roundtrip(b.len);
    lemma_u32_le_roundtrip(a.pad);
    lemma_u32_le_roundtrip(b.pad);
    assert(a.data@ =~= b.data@);
    assert(a =~= b);
}

/// A `kvm_coalesced_mmio` whose fields are all zero has an all-zero byte image,
/// the image of a zeroed ioctl argument buffer.
pub proof fn lemma_kvm_coalesced_mmio_zero_image(x: kvm_coalesced_mmio)
    requires
        x.is_zeroed(),
    ensures
        x.spec_bytes() == zero_bytes(KVM_COALESCED_MMIO_SIZE as int),
{
    lemma_le_bytes_zero();
    lemma_zero_bytes_split(8, 12);
    lemma_zero_bytes_split(12, 16);
    lemma_zero_bytes_split(16, 24);
    assert(x.spec_bytes() == zero_bytes(KVM_COALESCED_MMIO_SIZE as int));
}

/// Byte size of the `kvm_coalesced_mmio_ring` kernel image.
pub const KVM_COALESCED_MMIO_RING_SIZE: usize = 8;

/// Header of the coalesced-write ring, followed in the shared page by\n/// the ring entries.
#[derive(Debug)]
#[verifier::ext_equal]
pub struct kvm_coalesced_mmio_ring {
    pub first: u32,
    pub last: u32,
    pub coalesced_mmio: __IncompleteArrayField<kvm_coalesced_mmio>,
}

impl kvm_coalesced_mmio_ring {
    /// The 8-byte kernel image of `self`: every field little-endian
    /// at its kernel offset.
    pub open spec fn spec_bytes(self) -> Seq<u8> {
        u32_le_bytes(self.first) + u32_le_bytes(self.last)
    }

    /// Every field of `self` holds zero.
    pub open spec fn is_zeroed(self) -> bool {
        self.first == 0 && self.last == 0
    }

    /// Appends the image of `self` to `out`.
    pub fn push_image(&self, out: &mut Vec<u8>)
        ensures
            final(out)@ == old(out)@ + self.spec_bytes(),
    {
        let ghost base: Seq<u8> = out@;
        push_u32_le(out, self.first);
        let ghost mut acc: Seq<u8> = u32_le_bytes(self.first);
        push_u32_le(out, self.last);
        proof {
            lemma_concat_assoc(base, acc, u32_le_bytes(self.last));
            acc = acc + (u32_le_bytes(self.last));
        }
        proof {
            assert(out@ == base + acc);
            assert(acc == self.spec_bytes());
        }
    }

    /// The image of `self` as a fresh buffer.
    pub fn to_bytes(&self) -> (out: Vec<u8>)
        ensures
            out@ == self.spec_bytes(),
            out@.len() == KVM_COALESCED_MMIO_RING_SIZE,
    {
        let mut out: Vec<u8> = Vec::new();
        self.push_image(&mut out);
        proof {
            lemma_concat_empty_left(self.spec_bytes());
            lemma_kvm_coalesced_mmio_ring_bytes_len(*self);
        }
        out
    }

    /// Reads the structure whose image starts at offset `off` of `buf`.
    pub fn read_at(buf: &[u8], off: usize) -> (v: Self)
        requires
            off + KVM_COALESCED_MMIO_RING_SIZE <= buf@.len(),
        ensures
            v.spec_bytes() == buf@.subrange(off as int, off as int + KVM_COALESCED_MMIO_RING_SIZE),
    {
        let n: usize = buf.len();
        proof {
            assert(off + KVM_COALESCED_MMIO_RING_SIZE <= n);
        }
        let v = kvm_coalesced_mmio_ring {
            first: read_u32_le(buf, off),
            last: read_u32_le(buf, off + 4),
            coalesced_mmio: __IncompleteArrayField::new(),
        };
        proof {
            lemma_kvm_coalesced_mmio_ring_read_at(v, buf@, off as int);
        }
        v
    }

    /// Reads a structure image from the start of `buf`, failing when the
    /// buffer is too short to hold one.
    pub fn from_bytes(buf: &[u8]) -> (r: Result<Self, CodecError>)
        ensures
            buf@.len() < KVM_COALESCED_MMIO_RING_SIZE ==> r == Err::<kvm_coalesced_mmio_ring, CodecError>(
                CodecError::IncompleteBuffer,
            ),
            buf@.len() >= KVM_COALESCED_MMIO_RING_SIZE ==> (r matches Ok(v) && v.spec_bytes() == buf@.subrange(
                0,
                KVM_COALESCED_MMIO_RING_SIZE as int,
            )),
    {
        if buf.len() < KVM_COALESCED_MMIO_RING_SIZE {
            Err(CodecError::IncompleteBuffer)
        } else {
            Ok(Self::read_at(buf, 0))
        }
    }
}

impl Default for kvm_coalesced_mmio_ring {
    /// Every field zero: the zeroed ioctl argument convention.
    fn default() -> (r: Self)
        ensures
            r.is_zeroed(),
    {
        let r = kvm_coalesced_mmio_ring {
            first: 0,
            last: 0,
            coalesced_mmio: __IncompleteArrayField::new(),
        };
        r
    }
}

/// The image of a `kvm_coalesced_mmio_ring` is exactly 8 bytes.
pub proof fn lemma_kvm_coalesced_mmio_ring_bytes_len(x: kvm_coalesced_mmio_ring)
    ensures
        x.spec_bytes().len() == KVM_COALESCED_MMIO_RING_SIZE,
{
}

/// A `kvm_coalesced_mmio_ring` whose fields were decoded from a buffer has that
/// buffer segment as its image.
#[verifier::rlimit(100)]
#[verifier::spinoff_prover]
proof fn lemma_kvm_coalesced_mmio_ring_read_at(v: kvm_coalesced_mmio_ring, b: Seq<u8>, off: int)
    requires
        0 <= off,
        off + KVM_COALESCED_MMIO_RING_SIZE <= b.len(),
        v.first == u32_of_le_bytes(b.subrange(off + 0, off + 4)),
        v.last == u32_of_le_bytes(b.subrange(off + 4, off + 8)),
    ensures
        v.spec_bytes() == b.subrange(off, off + KVM_COALESCED_MMIO_RING_SIZE),
{
    let s = b.subrange(off, off + KVM_COALESCED_MMIO_RING_SIZE as int);
    lemma_u32_le_bytes_of(b.subrange(off + 0, off + 4));
    lemma_u32_le_bytes_of(b.subrange(off + 4, off + 8));
    lemma_subrange_subrange(b, off, off + KVM_COALESCED_MMIO_RING_SIZE as int, 0, 4);
    lemma_subrange_subrange(b, off, off + KVM_COALESCED_MMIO_RING_SIZE as int, 4, 8);
    lemma_seq_parts(s, 4, 8);
    assert(s.subrange(0, KVM_COALESCED_MMIO_RING_SIZE as int) =~= s);
    assert(v.spec_bytes() == s);
}

/// Field images of a `kvm_coalesced_mmio_ring`, covering one run of fields.
#[verifier::rlimit(100)]
#[verifier::spinoff_prover]
proof fn lemma_kvm_coalesced_mmio_ring_field_images_seg0(x: kvm_coalesced_mmio_ring)
    ensures
        x.spec_bytes().len() == KVM_COALESCED_MMIO_RING_SIZE,
        x.spec_bytes().subrange(4, 8) == u32_le_bytes(x.last),
        x.spec_bytes().subrange(0, 4) == u32_le_bytes(x.first),
{
    lemma_kvm_coalesced_mmio_ring_bytes_len(x);
    let p0 = u32_le_bytes(x.first);
    let p1 = u32_le_bytes(x.last);
    let t1 = p0 + p1;
    assert(x.spec_bytes() == t1);
    lemma_concat_parts(p0, p1);
}

/// Each field's image stands at its kernel offset inside the image of
/// a `kvm_coalesced_mmio_ring`.
proof fn lemma_kvm_coalesced_mmio_ring_field_images(x: kvm_coalesced_mmio_ring)
    ensures
        x.spec_bytes().len() == KVM_COALESCED_MMIO_RING_SIZE,
        x.spec_bytes().subrange(0, 4) == u32_le_bytes(x.first),
        x.spec_bytes().subrange(4, 8) == u32_le_bytes(x.last),
{
    lemma_kvm_coalesced_mmio_ring_field_images_seg0(x);
}

/// The byte image pins every header field; the tail marker itself
/// holds no state.
#[verifier::rlimit(100)]
#[verifier::spinoff_prover]
pub proof fn lemma_kvm_coalesced_mmio_ring_image_determines_header(a: kvm_coalesced_mmio_ring, b: kvm_coalesced_mmio_ring)
    requires
        a.spec_bytes() == b.spec_bytes(),
    ensures
        a.first == b.first,
        a.last == b.last,
{
    lemma_kvm_coalesced_mmio_ring_field_images(a);
    lemma_kvm_coalesced_mmio_ring_field_images(b);
    lemma_u32_le_roundtrip(a.first);
    lemma_u32_le_roundtrip(b.first);
    lemma_u32_le_roundtrip(a.last);
    lemma_u32_le_roundtrip(b.last);
}

/// A `kvm_coalesced_mmio_ring` whose fields are all zero has an all-zero byte image,
/// the image of a zeroed ioctl argument buffer.
pub proof fn lemma_kvm_coalesced_mmio_ring_zero_image(x: kvm_coalesced_mmio_ring)
    requires
        x.is_zeroed(),
    ensures
        x.spec_bytes() == zero_bytes(KVM_COALESCED_MMIO_RING_SIZE as int),
{
    lemma_le_bytes_zero();
    lemma_zero_bytes_split(4, 8);
    assert(x.spec_bytes() == zero_bytes(KVM_COALESCED_MMIO_RING_SIZE as int));
}

/// Byte size of the `kvm_translation` kernel image.
pub const KVM_TRANSLATION_SIZE: usize = 24;

/// The argument of the translate ioctl: a linear address in, its\n/// physical translation out.
#[derive(Clone, Copy, Debug, PartialEq)]
#[verifier::ext_equal]
pub struct kvm_translation {
    pub linear_address: u64,
    pub physical_address: u64,
    pub valid: u8,
    pub writeable: u8,
    pub usermode: u8,
    pub pad: [u8; 5],
}

impl kvm_translation {
    /// The 24-byte kernel image of `self`: every field little-endian
    /// at its kernel offset.
    pub open spec fn spec_bytes(self) -> Seq<u8> {
        u64_le_bytes(self.linear_address) + u64_le_bytes(self.physical_address) + seq![self.valid] + seq![self.writeable] + seq![self.usermode] + self.pad@
    }

    /// Every field of `self` holds zero.
    pub open spec fn is_zeroed(self) -> bool {
        self.linear_address == 0 && self.physical_address == 0 && self.valid == 0 && self.writeable == 0 && self.usermode == 0 && self.pad@ == zero_bytes(5)
    }

    /// Appends the image of `self` to `out`.
    pub fn push_image(&self, out: &mut Vec<u8>)
        ensures
            final(out)@ == old(out)@ + self.spec_bytes(),
    {
        let ghost base: Seq<u8> = out@;
        push_u64_le(out, self.linear_address);
        let ghost mut acc: Seq<u8> = u64_le_bytes(self.linear_address);
        push_u64_le(out, self.physical_address);
        proof {
            lemma_concat_assoc(base, acc, u64_le_bytes(self.physical_address));
            acc = acc + (u64_le_bytes(self.physical_address));
        }
        push_u8(out, self.valid);
        proof {
            lemma_concat_assoc(base, acc, seq![self.valid]);
            acc = acc + (seq![self.valid]);
        }
        push_u8(out, self.writeable);
        proof {
            lemma_concat_assoc(base, acc, seq![self.writeable]);
            acc = acc + (seq![self.writeable]);
        }
        push_u8(out, self.usermode);
        proof {
            lemma_concat_assoc(base, acc, seq![self.usermode]);
            acc = acc + (seq![self.usermode]);
        }
        push_u8s(out, &self.pad);
        proof {
            lemma_concat_assoc(base, acc, self.pad@);
            acc = acc + (self.pad@);
        }
        proof {
            assert(out@ == base + acc);
            assert(acc == self.spec_bytes());
        }
    }

    /// The image of `self` as a fresh buffer.
    pub fn to_bytes(&self) -> (out: Vec<u8>)
        ensures
            out@ == self.spec_bytes(),
            out@.len() == KVM_TRANSLATION_SIZE,
    {
        let mut out: Vec<u8> = Vec::new();
        self.push_image(&mut out);
        proof {
            lemma_concat_empty_left(self.spec_bytes());
            lemma_kvm_translation_bytes_len(*self);
        }
        out
    }

    /// Reads the structure whose image starts at offset `off` of `buf`.
    pub fn read_at(buf: &[u8], off: usize) -> (v: Self)
        requires
            off + KVM_TRANSLATION_SIZE <= buf@.len(),
        ensures
            v.spec_bytes() == buf@.subrange(off as int, off as int + KVM_TRANSLATION_SIZE),
    {
        let n: usize = buf.len();
        proof {
            assert(off + KVM_TRANSLATION_SIZE <= n);
        }
        let v = kvm_translation {
            linear_address: read_u64_le(buf, off),
            physical_address: read_u64_le(buf, off + 8),
            valid: read_u8(buf, off + 16),
            writeable: read_u8(buf, off + 17),
            usermode: read_u8(buf, off + 18),
            pad: read_u8s::<5>(buf, off + 19),
        };
        proof {
            lemma_kvm_translation_read_at(v, buf@, off as int);
        }
        v
    }

    /// Reads a structure image from the start of `buf`, failing when the
    /// buffer is too short to hold one.
    pub fn from_bytes(buf: &[u8]) -> (r: Result<Self, CodecError>)
        ensures
            buf@.len() < KVM_TRANSLATION_SIZE ==> r == Err::<kvm_translation, CodecError>(
                CodecError::IncompleteBuffer,
            ),
            buf@.len() >= KVM_TRANSLATION_SIZE ==> (r matches Ok(v) && v.spec_bytes() == buf@.subrange(
                0,
                KVM_TRANSLATION_SIZE as int,
            )),
    {
        if buf.len() < KVM_TRANSLATION_SIZE {
            Err(CodecError::IncompleteBuffer)
        } else {
            Ok(Self::read_at(buf, 0))
        }
    }
}

impl Default for kvm_translation {
    /// Every field zero: the zeroed ioctl argument convention.
    fn default() -> (r: Self)
        ensures
            r.is_zeroed(),
    {
        let r = kvm_translation {
            linear_address: 0,
            physical_address: 0,
            valid: 0,
            writeable: 0,
            usermode: 0,
            pad: vstd::array::array_fill_for_copy_types::<u8, 5>(0u8),
        };
        proof {
            assert(r.pad@ =~= zero_bytes(5));
        }
        r
    }
}

/// The image of a `kvm_translation` is exactly 24 bytes.
pub proof fn lemma_kvm_translation_bytes_len(x: kvm_translation)
    ensures
        x.spec_bytes().len() == KVM_TRANSLATION_SIZE,
{
}

/// A `kvm_translation` whose fields were decoded from a buffer has that
/// buffer segment as its image.
#[verifier::rlimit(100)]
#[verifier::spinoff_prover]
proof fn lemma_kvm_translation_read_at(v: kvm_translation, b: Seq<u8>, off: int)
    requires
        0 <= off,
        off + KVM_TRANSLATION_SIZE <= b.len(),
        v.linear_address == u64_of_le_bytes(b.subrange(off + 0, off + 8)),
        v.physical_address == u64_of_le_bytes(b.subrange(off + 8, off + 16)),
        v.valid == b[off + 16],
        v.writeable == b[off + 17],
        v.usermode == b[off + 18],
        v.pad@ == b.subrange(off + 19, off + 24),
    ensures
        v.spec_bytes() == b.subrange(off, off + KVM_TRANSLATION_SIZE),
{
    let s = b.subrange(off, off + KVM_TRANSLATION_SIZE as int);
    lemma_u64_le_bytes_of(b.subrange(off + 0, off + 8));
    lemma_u64_le_bytes_of(b.subrange(off + 8, off + 16));
    assert(seq![v.valid] =~= b.subrange(off + 16, off + 17));
    assert(seq![v.writeable] =~= b.subrange(off + 17, off + 18));
    assert(seq![v.usermode] =~= b.subrange(off + 18, off + 19));
    lemma_subrange_subrange(b, off, off + KVM_TRANSLATION_SIZE as int, 0, 8);
    lemma_subrange_subrange(b, off, off + KVM_TRANSLATION_SIZE as int, 8, 16);
    lemma_subrange_subrange(b, off, off + KVM_TRANSLATION_SIZE as int, 16, 17);
    lemma_subrange_subrange(b, off, off + KVM_TRANSLATION_SIZE as int, 17, 18);
    lemma_subrange_subrange(b, off, off + KVM_TRANSLATION_SIZE as int, 18, 19);
    lemma_subrange_subrange(b, off, off + KVM_TRANSLATION_SIZE as int, 19, 24);
    lemma_seq_parts(s, 8, 16);
    lemma_seq_parts(s, 16, 17);
    lemma_seq_parts(s, 17, 18);
    lemma_seq_parts(s, 18, 19);
    lemma_seq_parts(s, 19, 24);
    assert(s.subrange(0, KVM_TRANSLATION_SIZE as int) =~= s);
    assert(v.spec_bytes() == s);
}

/// Field images of a `kvm_translation`, covering one run of fields.
#[verifier::rlimit(100)]
#[verifier::spinoff_prover]
proof fn lemma_kvm_translation_field_images_seg0(x: kvm_translation)
    ensures
        x.spec_bytes().len() == KVM_TRANSLATION_SIZE,
        x.spec_bytes().subrange(19, 24) == x.pad@,
        x.spec_bytes().subrange(18, 19) == seq![x.usermode],
        x.spec_bytes().subrange(17, 18) == seq![x.writeable],
        x.spec_bytes().subrange(16, 17) == seq![x.valid],
        x.spec_bytes().subrange(8, 16) == u64_le_bytes(x.physical_address),
        x.spec_bytes().subrange(0, 8) == u64_le_bytes(x.linear_address),
{
    lemma_kvm_translation_bytes_len(x);
    let p0 = u64_le_bytes(x.linear_address);
    let p1 = u64_le_bytes(x.physical_address);
    let p2 = seq![x.valid];
    let p3 = seq![x.writeable];
    let p4 = seq![x.usermode];
    let p5 = x.pad@;
    let t1 = p0 + p1;
    let t2 = t1 + p2;
    let t3 = t2 + p3;
    let t4 = t3 + p4;
    let t5 = t4 + p5;
    assert(x.spec_bytes() == t5);
    lemma_concat_parts(t4, p5);
    lemma_concat_parts(t3, p4);
    lemma_subrange_subrange(x.spec_bytes(), 0, 19, 0, 18);
    lemma_subrange_subrange(x.spec_bytes(), 0, 19, 18, 19);
    lemma_concat_parts(t2, p3);
    lemma_subrange_subrange(x.spec_bytes(), 0, 18, 0, 17);
    lemma_subrange_subrange(x.spec_bytes(), 0, 18, 17, 18);
    lemma_concat_parts(t1, p2);
    lemma_subrange_subrange(x.spec_bytes(), 0, 17, 0, 16);
    lemma_subrange_subrange(x.spec_bytes(), 0, 17, 16, 17);
    lemma_concat_parts(p0, p1);
    lemma_subrange_subrange(x.spec_bytes(), 0, 16, 0, 8);
    lemma_subrange_subrange(x.spec_bytes(), 0, 16, 8, 16);
}

/// Each field's image stands at its kernel offset inside the image of
/// a `kvm_translation`.
proof fn lemma_kvm_translation_field_images(x: kvm_translation)
    ensures
        x.spec_bytes().len() == KVM_TRANSLATION_SIZE,
        x.spec_bytes().subrange(0, 8) == u64_le_bytes(x.linear_address),
        x.spec_bytes().subrange(8, 16) == u64_le_bytes(x.physical_address),
        x.spec_bytes().subrange(16, 17) == seq![x.valid],
        x.spec_bytes().subrange(17, 18) == seq![x.writeable],
        x.spec_bytes().subrange(18, 19) == seq![x.usermode],
        x.spec_bytes().subrange(19, 24) == x.pad@,
{
    lemma_kvm_translation_field_images_seg0(x);
}

/// The byte image determines the structure: reading an image back
/// always yields the one value that produced it.
#[verifier::rlimit(100)]
#[verifier::spinoff_prover]
pub proof fn lemma_kvm_translation_image_injective(a: kvm_translation, b: kvm_translation)
    requires
        a.spec_bytes() == b.spec_bytes(),
    ensures
        a == b,
{
    lemma_kvm_translation_field_images(a);
    lemma_kvm_translation_field_images(b);
    lemma_u64_le_roundtrip(a.linear_address);
    lemma_u64_le_roundtrip(b.linear_address);
    lemma_u64_le_roundtrip(a.physical_address);
    lemma_u64_le_roundtrip(b.physical_address);
    assert(a.valid == seq![a.valid][0] && b.valid == seq![b.valid][0]);
    assert(seq![a.valid][0] == seq![b.valid][0]);
    assert(a.writeable == seq![a.writeable][0] && b.writeable == seq![b.writeable][0]);
    assert(seq![a.writeable][0] == seq![b.writeable][0]);
    assert(a.usermode == seq![a.usermode][0] && b.usermode == seq![b.usermode][0]);
    assert(seq![a.usermode][0] == seq![b.usermode][0]);
    assert(a.pad@ =~= b.pad@);
    assert(a =~= b);
}

/// A `kvm_translation` whose fields are all zero has an all-zero byte image,
/// the image of a zeroed ioctl argument buffer.
pub proof fn lemma_kvm_translation_zero_image(x: kvm_translation)
    requires
        x.is_zeroed(),
    ensures
        x.spec_bytes() == zero_bytes(KVM_TRANSLATION_SIZE as int),
{
    lemma_le_bytes_zero();
    assert(seq![x.valid] =~= zero_bytes(1));
    assert(seq![x.writeable] =~= zero_bytes(1));
    assert(seq![x.usermode] =~= zero_bytes(1));
    lemma_zero_bytes_split(8, 16);
    lemma_zero_bytes_split(16, 17);
    lemma_zero_bytes_split(17, 18);
    lemma_zero_bytes_split(18, 19);
    lemma_zero_bytes_split(19, 24);
    assert(x.spec_bytes() == zero_bytes(KVM_TRANSLATION_SIZE as int));
}

/// Byte size of the `kvm_interrupt` kernel image.
pub const KVM_INTERRUPT_SIZE: usize = 4;

/// The argument of the interrupt ioctl: the vector to inject.
#[derive(Clone, Copy, Debug, PartialEq)]
#[verifier::ext_equal]
pub struct kvm_interrupt {
    pub irq: u32,
}

impl kvm_interrupt {
    /// The 4-byte kernel image of `self`: every field little-endian
    /// at its kernel offset.
    pub open spec fn spec_bytes(self) -> Seq<u8> {
        u32_le_bytes(self.irq)
    }

    /// Every field of `self` holds zero.
    pub open spec fn is_zeroed(self) -> bool {
        self.irq == 0
    }

    /// Appends the image of `self` to `out`.
    pub fn push_image(&self, out: &mut Vec<u8>)
        ensures
            final(out)@ == old(out)@ + self.spec_bytes(),
    {
        let ghost base: Seq<u8> = out@;
        push_u32_le(out, self.irq);
        let ghost mut acc: Seq<u8> = u32_le_bytes(self.irq);
        proof {
            assert(out@ == base + acc);
            assert(acc == self.spec_bytes());
        }
    }

    /// The image of `self` as a fresh buffer.
    pub fn to_bytes(&self) -> (out: Vec<u8>)
        ensures
            out@ == self.spec_bytes(),
            out@.len() == KVM_INTERRUPT_SIZE,
    {
        let mut out: Vec<u8> = Vec::new();
        self.push_image(&mut out);
        proof {
            lemma_concat_empty_left(self.spec_bytes());
            lemma_kvm_interrupt_bytes_len(*self);
        }
        out
    }

    /// Reads the structure whose image starts at offset `off` of `buf`.
    pub fn read_at(buf: &[u8], off: usize) -> (v: Self)
        requires
            off + KVM_INTERRUPT_SIZE <= buf@.len(),
        ensures
            v.spec_bytes() == buf@.subrange(off as int, off as int + KVM_INTERRUPT_SIZE),
    {
        let n: usize = buf.len();
        proof {
            assert(off + KVM_INTERRUPT_SIZE <= n);
        }
        let v = kvm_interrupt {
            irq: read_u32_le(buf, off),
        };
        proof {
            lemma_kvm_interrupt_read_at(v, buf@, off as int);
        }
        v
    }

    /// Reads a structure image from the start of `buf`, failing when the
    /// buffer is too short to hold one.
    pub fn from_bytes(buf: &[u8]) -> (r: Result<Self, CodecError>)
        ensures
            buf@.len() < KVM_INTERRUPT_SIZE ==> r == Err::<kvm_interrupt, CodecError>(
                CodecError::IncompleteBuffer,
            ),
            buf@.len() >= KVM_INTERRUPT_SIZE ==> (r matches Ok(v) && v.spec_bytes() == buf@.subrange(
                0,
                KVM_INTERRUPT_SIZE as int,
            )),
    {
        if buf.len() < KVM_INTERRUPT_SIZE {
            Err(CodecError::IncompleteBuffer)
        } else {
            Ok(Self::read_at(buf, 0))
        }
    }
}

impl Default for kvm_interrupt {
    /// Every field zero: the zeroed ioctl argument convention.
    fn default() -> (r: Self)
        ensures
            r.is_zeroed(),
    {
        let r = kvm_interrupt {
            irq: 0,
        };
        r
    }
}

/// The image of a `kvm_interrupt` is exactly 4 bytes.
pub proof fn lemma_kvm_interrupt_bytes_len(x: kvm_interrupt)
    ensures
        x.spec_bytes().len() == KVM_INTERRUPT_SIZE,
{
}

/// A `kvm_interrupt` whose fields were decoded from a buffer has that
/// buffer segment as its image.
#[verifier::rlimit(100)]
#[verifier::spinoff_prover]
proof fn lemma_kvm_interrupt_read_at(v: kvm_interrupt, b: Seq<u8>, off: int)
    requires
        0 <= off,
        off + KVM_INTERRUPT_SIZE <= b.len(),
        v.irq == u32_of_le_bytes(b.subrange(off + 0, off + 4)),
    ensures
        v.spec_bytes() == b.subrange(off, off + KVM_INTERRUPT_SIZE),
{
    let s = b.subrange(off, off + KVM_INTERRUPT_SIZE as int);
    lemma_u32_le_bytes_of(b.subrange(off + 0, off + 4));
    lemma_subrange_subrange(b, off, off + KVM_INTERRUPT_SIZE as int, 0, 4);
    assert(s.subrange(0, KVM_INTERRUPT_SIZE as int) =~= s);
    assert(v.spec_bytes() == s);
}

/// Each field's image stands at its kernel offset inside the image of
/// a `kvm_interrupt`.
proof fn lemma_kvm_interrupt_field_images(x: kvm_interrupt)
    ensures
        x.spec_bytes().len() == KVM_INTERRUPT_SIZE,
        x.spec_bytes().subrange(0, 4) == u32_le_bytes(x.irq),
{
    lemma_kvm_interrupt_bytes_len(x);
    assert(x.spec_bytes().subrange(0, KVM_INTERRUPT_SIZE as int) =~= x.spec_bytes());
}

/// The byte image determines the structure: reading an image back
/// always yields the one value that produced it.
#[verifier::rlimit(100)]
#[verifier::spinoff_prover]
pub proof fn lemma_kvm_interrupt_image_injective(a: kvm_interrupt, b: kvm_interrupt)
    requires
        a.spec_bytes() == b.spec_bytes(),
    ensures
        a == b,
{
    lemma_kvm_interrupt_field_images(a);
    lemma_kvm_interrupt_field_images(b);
    lemma_u32_le_roundtrip(a.irq);
    lemma_u32_le_roundtrip(b.irq);
    assert(a =~= b);
}

/// A `kvm_interrupt` whose fields are all zero has an all-zero byte image,
/// the image of a zeroed ioctl argument buffer.
pub proof fn lemma_kvm_interrupt_zero_image(x: kvm_interrupt)
    requires
        x.is_zeroed(),
    ensures
        x.spec_bytes() == zero_bytes(KVM_INTERRUPT_SIZE as int),
{
    lemma_le_bytes_zero();
    assert(x.spec_bytes() == zero_bytes(KVM_INTERRUPT_SIZE as int));
}

} // verus!
