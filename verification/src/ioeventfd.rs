//! I/O event binding: `kvm_ioeventfd`.
//!
//! The argument of the ioeventfd ioctl: it binds an eventfd to a guest
//! I/O address range, with an optional value match.

use vstd::prelude::*;

verus! {

broadcast use vstd::array::group_array_axioms;

use crate::codec::CodecError;
use crate::codec::lemma_concat_assoc;
use crate::codec::lemma_concat_empty_left;
use crate::codec::lemma_concat_parts;
use crate::codec::lemma_le_bytes_zero;
use crate::codec::lemma_seq_parts;
use crate::codec::lemma_subrange_subrange;
use crate::codec::i32_le_bytes;
use crate::codec::i32_of_le_bytes;
use crate::codec::lemma_i32_le_bytes_of;
use crate::codec::lemma_i32_le_roundtrip;
use crate::codec::lemma_u32_le_bytes_of;
use crate::codec::lemma_u32_le_roundtrip;
use crate::codec::lemma_u64_le_bytes_of;
use crate::codec::lemma_u64_le_roundtrip;
use crate::codec::lemma_zero_bytes_split;
use crate::codec::push_i32_le;
use crate::codec::push_u32_le;
use crate::codec::push_u64_le;
use crate::codec::push_u8s;
use crate::codec::read_i32_le;
use crate::codec::read_u32_le;
use crate::codec::read_u64_le;
use crate::codec::read_u8s;
use crate::codec::u32_le_bytes;
use crate::codec::u32_of_le_bytes;
use crate::codec::u64_le_bytes;
use crate::codec::u64_of_le_bytes;
use crate::codec::zero_bytes;

/// Byte size of the `kvm_ioeventfd` kernel image.
pub const KVM_IOEVENTFD_SIZE: usize = 64;

/// Binds an eventfd to a guest I/O address range, with an optional
/// datamatch value.
#[derive(Clone, Copy, Debug, PartialEq)]
#[verifier::ext_equal]
pub struct kvm_ioeventfd {
    pub datamatch: u64,
    pub addr: u64,
    pub len: u32,
    pub fd: i32,
    pub flags: u32,
    pub pad: [u8; 36],
}

impl kvm_ioeventfd {
    /// The 64-byte kernel image of `self`: every field little-endian
    /// at its kernel offset.
    pub open spec fn spec_bytes(self) -> Seq<u8> {
        u64_le_bytes(self.datamatch) + u64_le_bytes(self.addr) + u32_le_bytes(self.len) + i32_le_bytes(self.fd) + u32_le_bytes(self.flags) + self.pad@
    }

    /// Every field of `self` holds zero.
    pub open spec fn is_zeroed(self) -> bool {
        self.datamatch == 0 && self.addr == 0 && self.len == 0 && self.fd == 0 && self.flags == 0 && self.pad@ == zero_bytes(36)
    }

    /// Appends the image of `self` to `out`.
    pub fn push_image(&self, out: &mut Vec<u8>)
        ensures
            final(out)@ == old(out)@ + self.spec_bytes(),
    {
        let ghost base: Seq<u8> = out@;
        push_u64_le(out, self.datamatch);
        let ghost mut acc: Seq<u8> = u64_le_bytes(self.datamatch);
        push_u64_le(out, self.addr);
        proof {
            lemma_concat_assoc(base, acc, u64_le_bytes(self.addr));
            acc = acc + (u64_le_bytes(self.addr));
        }
        push_u32_le(out, self.len);
        proof {
            lemma_concat_assoc(base, acc, u32_le_bytes(self.len));
            acc = acc + (u32_le_bytes(self.len));
        }
        push_i32_le(out, self.fd);
        proof {
            lemma_concat_assoc(base, acc, i32_le_bytes(self.fd));
            acc = acc + (i32_le_bytes(self.fd));
        }
        push_u32_le(out, self.flags);
        proof {
            lemma_concat_assoc(base, acc, u32_le_bytes(self.flags));
            acc = acc + (u32_le_bytes(self.flags));
        }
        push_u8s(out, &self.pad);
        proof {
            lemma_concat_assoc(base, acc, self.pad@);
            acc = acc + (self.pad@);
        }
        proof {
            assert(out@ == base + acc);
            assert(acc == self.spec_bytes());
        }
    }

    /// The image of `self` as a fresh buffer.
    pub fn to_bytes(&self) -> (out: Vec<u8>)
        ensures
            out@ == self.spec_bytes(),
            out@.len() == KVM_IOEVENTFD_SIZE,
    {
        let mut out: Vec<u8> = Vec::new();
        self.push_image(&mut out);
        proof {
            lemma_concat_empty_left(self.spec_bytes());
            lemma_kvm_ioeventfd_bytes_len(*self);
        }
        out
    }

    /// Reads the structure whose image starts at offset `off` of `buf`.
    pub fn read_at(buf: &[u8], off: usize) -> (v: Self)
        requires
            off + KVM_IOEVENTFD_SIZE <= buf@.len(),
        ensures
            v.spec_bytes() == buf@.subrange(off as int, off as int + KVM_IOEVENTFD_SIZE),
    {
        let n: usize = buf.len();
        proof {
            assert(off + KVM_IOEVENTFD_SIZE <= n);
        }
        let v = kvm_ioeventfd {
            datamatch: read_u64_le(buf, off),
            addr: read_u64_le(buf, off + 8),
            len: read_u32_le(buf, off + 16),
            fd: read_i32_le(buf, off + 20),
            flags: read_u32_le(buf, off + 24),
            pad: read_u8s::<36>(buf, off + 28),
        };
        proof {
            lemma_kvm_ioeventfd_read_at(v, buf@, off as int);
        }
        v
    }

    /// Reads a structure image from the start of `buf`, failing when the
    /// buffer is too short to hold one.
    pub fn from_bytes(buf: &[u8]) -> (r: Result<Self, CodecError>)
        ensures
            buf@.len() < KVM_IOEVENTFD_SIZE ==> r == Err::<kvm_ioeventfd, CodecError>(
                CodecError::IncompleteBuffer,
            ),
            buf@.len() >= KVM_IOEVENTFD_SIZE ==> (r matches Ok(v) && v.spec_bytes() == buf@.subrange(
                0,
                KVM_IOEVENTFD_SIZE as int,
            )),
    {
        if buf.len() < KVM_IOEVENTFD_SIZE {
            Err(CodecError::IncompleteBuffer)
        } else {
            Ok(Self::read_at(buf, 0))
        }
    }
}

impl Default for kvm_ioeventfd {
    /// Every field zero: the zeroed ioctl argument convention.
    fn default() -> (r: Self)
        ensures
            r.is_zeroed(),
    {
        let r = kvm_ioeventfd {
            datamatch: 0,
            addr: 0,
            len: 0,
            fd: 0,
            flags: 0,
            pad: vstd::array::array_fill_for_copy_types::<u8, 36>(0u8),
        };
        proof {
            assert(r.pad@ =~= zero_bytes(36));
        }
        r
    }
}

/// The image of a `kvm_ioeventfd` is exactly 64 bytes.
pub proof fn lemma_kvm_ioeventfd_bytes_len(x: kvm_ioeventfd)
    ensures
        x.spec_bytes().len() == KVM_IOEVENTFD_SIZE,
{
}

/// A `kvm_ioeventfd` whose fields were decoded from a buffer has that
/// buffer segment as its image.
#[verifier::rlimit(100)]
#[verifier::spinoff_prover]
proof fn lemma_kvm_ioeventfd_read_at(v: kvm_ioeventfd, b: Seq<u8>, off: int)
    requires
        0 <= off,
        off + KVM_IOEVENTFD_SIZE <= b.len(),
        v.datamatch == u64_of_le_bytes(b.subrange(off + 0, off + 8)),
        v.addr == u64_of_le_bytes(b.subrange(off + 8, off + 16)),
        v.len == u32_of_le_bytes(b.subrange(off + 16, off + 20)),
        v.fd == i32_of_le_bytes(b.subrange(off + 20, off + 24)),
        v.flags == u32_of_le_bytes(b.subrange(off + 24, off + 28)),
        v.pad@ == b.subrange(off + 28, off + 64),
    ensures
        v.spec_bytes() == b.subrange(off, off + KVM_IOEVENTFD_SIZE),
{
    let s = b.subrange(off, off + KVM_IOEVENTFD_SIZE as int);
    lemma_u64_le_bytes_of(b.subrange(off + 0, off + 8));
    lemma_u64_le_bytes_of(b.subrange(off + 8, off + 16));
    lemma_u32_le_bytes_of(b.subrange(off + 16, off + 20));
    lemma_i32_le_bytes_of(b.subrange(off + 20, off + 24));
    lemma_u32_le_bytes_of(b.subrange(off + 24, off + 28));
    lemma_subrange_subrange(b, off, off + KVM_IOEVENTFD_SIZE as int, 0, 8);
    lemma_subrange_subrange(b, off, off + KVM_IOEVENTFD_SIZE as int, 8, 16);
    lemma_subrange_subrange(b, off, off + KVM_IOEVENTFD_SIZE as int, 16, 20);
    lemma_subrange_subrange(b, off, off + KVM_IOEVENTFD_SIZE as int, 20, 24);
    lemma_subrange_subrange(b, off, off + KVM_IOEVENTFD_SIZE as int, 24, 28);
    lemma_subrange_subrange(b, off, off + KVM_IOEVENTFD_SIZE as int, 28, 64);
    lemma_seq_parts(s, 8, 16);
    lemma_seq_parts(s, 16, 20);
    lemma_seq_parts(s, 20, 24);
    lemma_seq_parts(s, 24, 28);
    lemma_seq_parts(s, 28, 64);
    assert(s.subrange(0, KVM_IOEVENTFD_SIZE as int) =~= s);
    assert(v.spec_bytes() == s);
}

/// Field images of a `kvm_ioeventfd`, covering one run of fields.
#[verifier::rlimit(100)]
#[verifier::spinoff_prover]
proof fn lemma_kvm_ioeventfd_field_images_seg0(x: kvm_ioeventfd)
    ensures
        x.spec_bytes().len() == KVM_IOEVENTFD_SIZE,
        x.spec_bytes().subrange(28, 64) == x.pad@,
        x.spec_bytes().subrange(24, 28) == u32_le_bytes(x.flags),
        x.spec_bytes().subrange(20, 24) == i32_le_bytes(x.fd),
        x.spec_bytes().subrange(16, 20) == u32_le_bytes(x.len),
        x.spec_bytes().subrange(8, 16) == u64_le_bytes(x.addr),
        x.spec_bytes().subrange(0, 8) == u64_le_bytes(x.datamatch),
{
    lemma_kvm_ioeventfd_bytes_len(x);
    let p0 = u64_le_bytes(x.datamatch);
    let p1 = u64_le_bytes(x.addr);
    let p2 = u32_le_bytes(x.len);
    let p3 = i32_le_bytes(x.fd);
    let p4 = u32_le_bytes(x.flags);
    let p5 = x.pad@;
    let t1 = p0 + p1;
    let t2 = t1 + p2;
    let t3 = t2 + p3;
    let t4 = t3 + p4;
    let t5 = t4 + p5;
    assert(x.spec_bytes() == t5);
    lemma_concat_parts(t4, p5);
    lemma_concat_parts(t3, p4);
    lemma_subrange_subrange(x.spec_bytes(), 0, 28, 0, 24);
    lemma_subrange_subrange(x.spec_bytes(), 0, 28, 24, 28);
    lemma_concat_parts(t2, p3);
    lemma_subrange_subrange(x.spec_bytes(), 0, 24, 0, 20);
    lemma_subrange_subrange(x.spec_bytes(), 0, 24, 20, 24);
    lemma_concat_parts(t1, p2);
    lemma_subrange_subrange(x.spec_bytes(), 0, 20, 0, 16);
    lemma_subrange_subrange(x.spec_bytes(), 0, 20, 16, 20);
    lemma_concat_parts(p0, p1);
    lemma_subrange_subrange(x.spec_bytes(), 0, 16, 0, 8);
    lemma_subrange_subrange(x.spec_bytes(), 0, 16, 8, 16);
}

/// Each field's image stands at its kernel offset inside the image of
/// a `kvm_ioeventfd`.
proof fn lemma_kvm_ioeventfd_field_images(x: kvm_ioeventfd)
    ensures
        x.spec_bytes().len() == KVM_IOEVENTFD_SIZE,
        x.spec_bytes().subrange(0, 8) == u64_le_bytes(x.datamatch),
        x.spec_bytes().subrange(8, 16) == u64_le_bytes(x.addr),
        x.spec_bytes().subrange(16, 20) == u32_le_bytes(x.len),
        x.spec_bytes().subrange(20, 24) == i32_le_bytes(x.fd),
        x.spec_bytes().subrange(24, 28) == u32_le_bytes(x.flags),
        x.spec_bytes().subrange(28, 64) == x.pad@,
{
    lemma_kvm_ioeventfd_field_images_seg0(x);
}

/// The byte image determines the structure: reading an image back
/// always yields the one value that produced it.
pub proof fn lemma_kvm_ioeventfd_image_injective(a: kvm_ioeventfd, b: kvm_ioeventfd)
    requires
        a.spec_bytes() == b.spec_bytes(),
    ensures
        a == b,
{
    lemma_kvm_ioeventfd_field_images(a);
    lemma_kvm_ioeventfd_field_images(b);
    lemma_u64_le_roundtrip(a.datamatch);
    lemma_u64_le_roundtrip(b.datamatch);
    lemma_u64_le_roundtrip(a.addr);
    lemma_u64_le_roundtrip(b.addr);
    lemma_u32_le_roundtrip(a.len);
    lemma_u32_le_roundtrip(b.len);
    lemma_i32_le_roundtrip(a.fd);
    lemma_i32_le_roundtrip(b.fd);
    lemma_u32_le_roundtrip(a.flags);
    lemma_u32_le_roundtrip(b.flags);
    assert(a.pad@ =~= b.pad@);
    assert(a =~= b);
}

/// A `kvm_ioeventfd` whose fields are all zero has an all-zero byte image,
/// the image of a zeroed ioctl argument buffer.
pub proof fn lemma_kvm_ioeventfd_zero_image(x: kvm_ioeventfd)
    requires
        x.is_zeroed(),
    ensures
        x.spec_bytes() == zero_bytes(KVM_IOEVENTFD_SIZE as int),
{
    lemma_le_bytes_zero();
    assert(i32_le_bytes(x.fd) == u32_le_bytes(0u32));
    lemma_zero_bytes_split(8, 16);
    lemma_zero_bytes_split(16, 20);
    lemma_zero_bytes_split(20, 24);
    lemma_zero_bytes_split(24, 28);
    lemma_zero_bytes_split(28, 64);
    assert(x.spec_bytes() == zero_bytes(KVM_IOEVENTFD_SIZE as int));
}

} // verus!
