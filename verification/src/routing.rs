//! Interrupt routing: `kvm_irq_routing` and its entry types.
//!
//! The routing table is a flexible-array header followed by entries; each
//! entry carries a union of per-kind payloads (irqchip pin, MSI address,
//! s390 adapter, Hyper-V synthetic interrupt) over the same 32 bytes.
//! Writing one payload leaves the bytes past it unchanged, exactly as
//! assigning one variant of the kernel's C union does.

use vstd::prelude::*;

verus! {

broadcast use vstd::array::group_array_axioms;

use crate::codec::CodecError;
use crate::codec::lemma_concat_assoc;
use crate::codec::lemma_concat_empty_left;
use crate::codec::lemma_concat_parts;
use crate::codec::lemma_le_bytes_zero;
use crate::codec::lemma_seq_parts;
use crate::codec::lemma_subrange_subrange;
use crate::codec::lemma_u32_le_bytes_of;
use crate::codec::lemma_u32_le_roundtrip;
use crate::codec::lemma_u64_le_bytes_of;
use crate::codec::lemma_u64_le_roundtrip;
use crate::codec::lemma_zero_bytes_split;
use crate::codec::push_u32_le;
use crate::codec::push_u64_le;
use crate::codec::push_u8s;
use crate::codec::read_u32_le;
use crate::codec::read_u64_le;
use crate::codec::read_u8s;
use crate::codec::u32_le_bytes;
use crate::codec::u32_of_le_bytes;
use crate::codec::u64_le_bytes;
use crate::codec::u64_of_le_bytes;
use crate::codec::zero_bytes;
use crate::fam::__IncompleteArrayField;

/// Byte size of the MSI padding union.
pub const KVM_IRQ_ROUTING_MSI_UNION_SIZE: usize = 4;

/// The tail union of an MSI route: the same four bytes read either as
/// padding (`pad`) or as a device id (`devid`).
#[derive(Clone, Copy, Debug, PartialEq)]
#[verifier::ext_equal]
pub struct kvm_irq_routing_msi__bindgen_ty_1 {
    storage: [u8; 4],
    align: [u32; 0],
}

impl kvm_irq_routing_msi__bindgen_ty_1 {
    /// The shared backing bytes of the union.
    pub closed spec fn spec_bytes(self) -> Seq<u8> {
        self.storage@
    }

    /// All backing bytes zero.
    pub open spec fn is_zeroed(self) -> bool {
        self.spec_bytes() == zero_bytes(4)
    }

    /// The `pad` interpretation of the shared bytes.
    pub fn pad(&self) -> (r: u32)
        ensures
            r == u32_of_le_bytes(self.spec_bytes()),
    {
        let r = read_u32_le(vstd::array::array_as_slice(&self.storage), 0);
        proof {
            assert(self.storage@.subrange(0, 4) =~= self.storage@);
        }
        r
    }

    /// The `devid` interpretation of the same bytes.
    pub fn devid(&self) -> (r: u32)
        ensures
            r == u32_of_le_bytes(self.spec_bytes()),
    {
        self.pad()
    }

    /// Overwrites the shared bytes with a device id (or padding) value.
    pub fn set_devid(&mut self, val: u32)
        ensures
            final(self).spec_bytes() == u32_le_bytes(val),
    {
        self.storage = [
            (val & 0xff) as u8,
            ((val >> 8) & 0xff) as u8,
            ((val >> 16) & 0xff) as u8,
            ((val >> 24) & 0xff) as u8,
        ];
        proof {
            assert(self.storage@ =~= u32_le_bytes(val));
        }
    }

    /// Appends the image of `self` to `out`.
    pub fn push_image(&self, out: &mut Vec<u8>)
        ensures
            final(out)@ == old(out)@ + self.spec_bytes(),
    {
        push_u8s(out, &self.storage);
    }

    /// The image of `self` as a fresh buffer.
    pub fn to_bytes(&self) -> (out: Vec<u8>)
        ensures
            out@ == self.spec_bytes(),
            out@.len() == KVM_IRQ_ROUTING_MSI_UNION_SIZE,
    {
        let mut out: Vec<u8> = Vec::new();
        self.push_image(&mut out);
        proof {
            lemma_concat_empty_left(self.spec_bytes());
        }
        out
    }

    /// Reads the union whose image starts at offset `off` of `buf`.
    pub fn read_at(buf: &[u8], off: usize) -> (v: Self)
        requires
            off + KVM_IRQ_ROUTING_MSI_UNION_SIZE <= buf@.len(),
        ensures
            v.spec_bytes() == buf@.subrange(off as int, off as int + KVM_IRQ_ROUTING_MSI_UNION_SIZE),
    {
        Self { storage: read_u8s::<4>(buf, off), align: [] }
    }

    /// Reads a union image from the start of `buf`, failing when the
    /// buffer is too short to hold one.
    pub fn from_bytes(buf: &[u8]) -> (r: Result<Self, CodecError>)
        ensures
            buf@.len() < KVM_IRQ_ROUTING_MSI_UNION_SIZE ==> r == Err::<
                kvm_irq_routing_msi__bindgen_ty_1,
                CodecError,
            >(CodecError::IncompleteBuffer),
            buf@.len() >= KVM_IRQ_ROUTING_MSI_UNION_SIZE ==> (r matches Ok(v) && v.spec_bytes()
                == buf@.subrange(0, KVM_IRQ_ROUTING_MSI_UNION_SIZE as int)),
    {
        if buf.len() < KVM_IRQ_ROUTING_MSI_UNION_SIZE {
            Err(CodecError::IncompleteBuffer)
        } else {
            Ok(Self::read_at(buf, 0))
        }
    }
}

impl Default for kvm_irq_routing_msi__bindgen_ty_1 {
    /// A zero-filled union, the zeroed ioctl argument convention.
    fn default() -> (r: Self)
        ensures
            r.is_zeroed(),
    {
        let r = Self { storage: vstd::array::array_fill_for_copy_types::<u8, 4>(0u8), align: [] };
        proof {
            assert(r.storage@ =~= zero_bytes(4));
        }
        r
    }
}

/// The image of the MSI tail union is exactly 4 bytes.
pub proof fn lemma_kvm_irq_routing_msi__bindgen_ty_1_bytes_len(x: kvm_irq_routing_msi__bindgen_ty_1)
    ensures
        x.spec_bytes().len() == KVM_IRQ_ROUTING_MSI_UNION_SIZE,
{
}

/// The byte image determines the union: it holds nothing besides its
/// shared bytes.
pub proof fn lemma_kvm_irq_routing_msi__bindgen_ty_1_image_injective(
    a: kvm_irq_routing_msi__bindgen_ty_1,
    b: kvm_irq_routing_msi__bindgen_ty_1,
)
    requires
        a.spec_bytes() == b.spec_bytes(),
    ensures
        a == b,
{
    assert(a.storage@ =~= b.storage@);
    assert(a.align@ =~= b.align@);
    assert(a =~= b);
}

/// A zero-filled union has an all-zero byte image.
pub proof fn lemma_kvm_irq_routing_msi__bindgen_ty_1_zero_image(
    x: kvm_irq_routing_msi__bindgen_ty_1,
)
    requires
        x.is_zeroed(),
    ensures
        x.spec_bytes() == zero_bytes(KVM_IRQ_ROUTING_MSI_UNION_SIZE as int),
{
}

/// Byte size of the per-kind payload union of a routing entry.
pub const KVM_IRQ_ROUTING_PAYLOAD_SIZE: usize = 32;

/// The per-kind payload of a routing entry: the same 32 bytes carry an
/// irqchip pin, an MSI address, an s390 adapter or a Hyper-V synthetic
/// interrupt, depending on the entry's `type_` field.  Writing a payload
/// shorter than 32 bytes leaves the bytes past it unchanged.
#[derive(Clone, Copy, Debug, PartialEq)]
#[verifier::ext_equal]
pub struct kvm_irq_routing_entry__bindgen_ty_1 {
    storage: [u8; 32],
    align: [u64; 0],
}

impl kvm_irq_routing_entry__bindgen_ty_1 {
    /// The shared backing bytes of the union.
    pub closed spec fn spec_bytes(self) -> Seq<u8> {
        self.storage@
    }

    /// All backing bytes zero.
    pub open spec fn is_zeroed(self) -> bool {
        self.spec_bytes() == zero_bytes(32)
    }

    /// Overwrites the first `b.len()` shared bytes, as assigning one
    /// variant of the kernel union does; the rest stay unchanged.
    fn store_prefix(&mut self, b: &Vec<u8>)
        requires
            b@.len() <= 32,
        ensures
            final(self).spec_bytes() == b@ + old(self).spec_bytes().subrange(b@.len() as int, 32),
    {
        let ghost orig = self.storage@;
        let k = b.len();
        let mut i: usize = 0;
        while i < k
            invariant
                i <= k,
                k == b@.len(),
                k <= 32,
                self.storage@.len() == 32,
                forall|j: int| 0 <= j < i ==> self.storage@[j] == b@[j],
                forall|j: int| i <= j < 32 ==> self.storage@[j] == orig[j],
            decreases k - i,
        {
            let byte = b[i];
            self.storage[i] = byte;
            i += 1;
        }
        proof {
            assert(self.storage@ =~= b@ + orig.subrange(k as int, 32));
        }
    }

    /// The `irqchip` interpretation: the first eight payload bytes.
    pub fn irqchip(&self) -> (r: kvm_irq_routing_irqchip)
        ensures
            r.spec_bytes() == self.spec_bytes().subrange(0, 8),
    {
        kvm_irq_routing_irqchip::read_at(vstd::array::array_as_slice(&self.storage), 0)
    }

    /// Writes the `irqchip` interpretation; payload bytes past it stay.
    pub fn set_irqchip(&mut self, val: kvm_irq_routing_irqchip)
        ensures
            final(self).spec_bytes() == val.spec_bytes() + old(self).spec_bytes().subrange(8, 32),
    {
        let b = val.to_bytes();
        self.store_prefix(&b);
    }

    /// The `msi` interpretation: the first sixteen payload bytes.
    pub fn msi(&self) -> (r: kvm_irq_routing_msi)
        ensures
            r.spec_bytes() == self.spec_bytes().subrange(0, 16),
    {
        kvm_irq_routing_msi::read_at(vstd::array::array_as_slice(&self.storage), 0)
    }

    /// Writes the `msi` interpretation; payload bytes past it stay.
    pub fn set_msi(&mut self, val: kvm_irq_routing_msi)
        ensures
            final(self).spec_bytes() == val.spec_bytes() + old(self).spec_bytes().subrange(16, 32),
    {
        let b = val.to_bytes();
        self.store_prefix(&b);
    }

    /// The `adapter` interpretation: the whole 32-byte payload.
    pub fn adapter(&self) -> (r: kvm_irq_routing_s390_adapter)
        ensures
            r.spec_bytes() == self.spec_bytes().subrange(0, 32),
    {
        kvm_irq_routing_s390_adapter::read_at(vstd::array::array_as_slice(&self.storage), 0)
    }

    /// Writes the `adapter` interpretation, covering the whole payload.
    pub fn set_adapter(&mut self, val: kvm_irq_routing_s390_adapter)
        ensures
            final(self).spec_bytes() == val.spec_bytes(),
    {
        let b = val.to_bytes();
        self.store_prefix(&b);
        proof {
            lemma_kvm_irq_routing_s390_adapter_bytes_len(val);
            assert(old(self).spec_bytes().subrange(32, 32) =~= Seq::<u8>::empty());
            assert(val.spec_bytes() + old(self).spec_bytes().subrange(32, 32) =~= val.spec_bytes());
        }
    }

    /// The `hv_sint` interpretation: the first eight payload bytes.
    pub fn hv_sint(&self) -> (r: kvm_irq_routing_hv_sint)
        ensures
            r.spec_bytes() == self.spec_bytes().subrange(0, 8),
    {
        kvm_irq_routing_hv_sint::read_at(vstd::array::array_as_slice(&self.storage), 0)
    }

    /// Writes the `hv_sint` interpretation; payload bytes past it stay.
    pub fn set_hv_sint(&mut self, val: kvm_irq_routing_hv_sint)
        ensures
            final(self).spec_bytes() == val.spec_bytes() + old(self).spec_bytes().subrange(8, 32),
    {
        let b = val.to_bytes();
        self.store_prefix(&b);
    }

    /// Appends the image of `self` to `out`.
    pub fn push_image(&self, out: &mut Vec<u8>)
        ensures
            final(out)@ == old(out)@ + self.spec_bytes(),
    {
        push_u8s(out, &self.storage);
    }

    /// The image of `self` as a fresh buffer.
    pub fn to_bytes(&self) -> (out: Vec<u8>)
        ensures
            out@ == self.spec_bytes(),
            out@.len() == KVM_IRQ_ROUTING_PAYLOAD_SIZE,
    {
        let mut out: Vec<u8> = Vec::new();
        self.push_image(&mut out);
        proof {
            lemma_concat_empty_left(self.spec_bytes());
        }
        out
    }

    /// Reads the payload whose image starts at offset `off` of `buf`.
    pub fn read_at(buf: &[u8], off: usize) -> (v: Self)
        requires
            off + KVM_IRQ_ROUTING_PAYLOAD_SIZE <= buf@.len(),
        ensures
            v.spec_bytes() == buf@.subrange(off as int, off as int + KVM_IRQ_ROUTING_PAYLOAD_SIZE),
    {
        Self { storage: read_u8s::<32>(buf, off), align: [] }
    }

    /// Reads a payload image from the start of `buf`, failing when the
    /// buffer is too short to hold one.
    pub fn from_bytes(buf: &[u8]) -> (r: Result<Self, CodecError>)
        ensures
            buf@.len() < KVM_IRQ_ROUTING_PAYLOAD_SIZE ==> r == Err::<
                kvm_irq_routing_entry__bindgen_ty_1,
                CodecError,
            >(CodecError::IncompleteBuffer),
            buf@.len() >= KVM_IRQ_ROUTING_PAYLOAD_SIZE ==> (r matches Ok(v) && v.spec_bytes()
                == buf@.subrange(0, KVM_IRQ_ROUTING_PAYLOAD_SIZE as int)),
    {
        if buf.len() < KVM_IRQ_ROUTING_PAYLOAD_SIZE {
            Err(CodecError::IncompleteBuffer)
        } else {
            Ok(Self::read_at(buf, 0))
        }
    }
}

impl Default for kvm_irq_routing_entry__bindgen_ty_1 {
    /// A zero-filled payload, the zeroed ioctl argument convention.
    fn default() -> (r: Self)
        ensures
            r.is_zeroed(),
    {
        let r = Self { storage: vstd::array::array_fill_for_copy_types::<u8, 32>(0u8), align: [] };
        proof {
            assert(r.storage@ =~= zero_bytes(32));
        }
        r
    }
}

/// The image of a routing-entry payload is exactly 32 bytes.
pub proof fn lemma_kvm_irq_routing_entry__bindgen_ty_1_bytes_len(
    x: kvm_irq_routing_entry__bindgen_ty_1,
)
    ensures
        x.spec_bytes().len() == KVM_IRQ_ROUTING_PAYLOAD_SIZE,
{
}

/// The byte image determines the payload: the union holds nothing besides
/// its shared bytes.
pub proof fn lemma_kvm_irq_routing_entry__bindgen_ty_1_image_injective(
    a: kvm_irq_routing_entry__bindgen_ty_1,
    b: kvm_irq_routing_entry__bindgen_ty_1,
)
    requires
        a.spec_bytes() == b.spec_bytes(),
    ensures
        a == b,
{
    assert(a.storage@ =~= b.storage@);
    assert(a.align@ =~= b.align@);
    assert(a =~= b);
}

/// A zero-filled payload has an all-zero byte image.
pub proof fn lemma_kvm_irq_routing_entry__bindgen_ty_1_zero_image(
    x: kvm_irq_routing_entry__bindgen_ty_1,
)
    requires
        x.is_zeroed(),
    ensures
        x.spec_bytes() == zero_bytes(KVM_IRQ_ROUTING_PAYLOAD_SIZE as int),
{
}

/// Byte size of the `kvm_irq_routing_irqchip` kernel image.
pub const KVM_IRQ_ROUTING_IRQCHIP_SIZE: usize = 8;

/// An irqchip route: the chip and the pin on it.
#[derive(Clone, Copy, Debug, PartialEq)]
#[verifier::ext_equal]
pub struct kvm_irq_routing_irqchip {
    pub irqchip: u32,
    pub pin: u32,
}

impl kvm_irq_routing_irqchip {
    /// The 8-byte kernel image of `self`: every field little-endian
    /// at its kernel offset.
    pub open spec fn spec_bytes(self) -> Seq<u8> {
        u32_le_bytes(self.irqchip) + u32_le_bytes(self.pin)
    }

    /// Every field of `self` holds zero.
    pub open spec fn is_zeroed(self) -> bool {
        self.irqchip == 0 && self.pin == 0
    }

    /// Appends the image of `self` to `out`.
    pub fn push_image(&self, out: &mut Vec<u8>)
        ensures
            final(out)@ == old(out)@ + self.spec_bytes(),
    {
        let ghost base: Seq<u8> = out@;
        push_u32_le(out, self.irqchip);
        let ghost mut acc: Seq<u8> = u32_le_bytes(self.irqchip);
        push_u32_le(out, self.pin);
        proof {
            lemma_concat_assoc(base, acc, u32_le_bytes(self.pin));
            acc = acc + (u32_le_bytes(self.pin));
        }
        proof {
            assert(out@ == base + acc);
            assert(acc == self.spec_bytes());
        }
    }

    /// The image of `self` as a fresh buffer.
    pub fn to_bytes(&self) -> (out: Vec<u8>)
        ensures
            out@ == self.spec_bytes(),
            out@.len() == KVM_IRQ_ROUTING_IRQCHIP_SIZE,
    {
        let mut out: Vec<u8> = Vec::new();
        self.push_image(&mut out);
        proof {
            lemma_concat_empty_left(self.spec_bytes());
            lemma_kvm_irq_routing_irqchip_bytes_len(*self);
        }
        out
    }

    /// Reads the structure whose image starts at offset `off` of `buf`.
    pub fn read_at(buf: &[u8], off: usize) -> (v: Self)
        requires
            off + KVM_IRQ_ROUTING_IRQCHIP_SIZE <= buf@.len(),
        ensures
            v.spec_bytes() == buf@.subrange(off as int, off as int + KVM_IRQ_ROUTING_IRQCHIP_SIZE),
    {
        let n: usize = buf.len();
        proof {
            assert(off + KVM_IRQ_ROUTING_IRQCHIP_SIZE <= n);
        }
        let v = kvm_irq_routing_irqchip {
            irqchip: read_u32_le(buf, off),
            pin: read_u32_le(buf, off + 4),
        };
        proof {
            lemma_kvm_irq_routing_irqchip_read_at(v, buf@, off as int);
        }
        v
    }

    /// Reads a structure image from the start of `buf`, failing when the
    /// buffer is too short to hold one.
    pub fn from_bytes(buf: &[u8]) -> (r: Result<Self, CodecError>)
        ensures
            buf@.len() < KVM_IRQ_ROUTING_IRQCHIP_SIZE ==> r == Err::<kvm_irq_routing_irqchip, CodecError>(
                CodecError::IncompleteBuffer,
            ),
            buf@.len() >= KVM_IRQ_ROUTING_IRQCHIP_SIZE ==> (r matches Ok(v) && v.spec_bytes() == buf@.subrange(
                0,
                KVM_IRQ_ROUTING_IRQCHIP_SIZE as int,
            )),
    {
        if buf.len() < KVM_IRQ_ROUTING_IRQCHIP_SIZE {
            Err(CodecError::IncompleteBuffer)
        } else {
            Ok(Self::read_at(buf, 0))
        }
    }
}

impl Default for kvm_irq_routing_irqchip {
    /// Every field zero: the zeroed ioctl argument convention.
    fn default() -> (r: Self)
        ensures
            r.is_zeroed(),
    {
        let r = kvm_irq_routing_irqchip {
            irqchip: 0,
            pin: 0,
        };
        r
    }
}

/// The image of a `kvm_irq_routing_irqchip` is exactly 8 bytes.
pub proof fn lemma_kvm_irq_routing_irqchip_bytes_len(x: kvm_irq_routing_irqchip)
    ensures
        x.spec_bytes().len() == KVM_IRQ_ROUTING_IRQCHIP_SIZE,
{
}

/// A `kvm_irq_routing_irqchip` whose fields were decoded from a buffer has that
/// buffer segment as its image.
#[verifier::rlimit(100)]
#[verifier::spinoff_prover]
proof fn lemma_kvm_irq_routing_irqchip_read_at(v: kvm_irq_routing_irqchip, b: Seq<u8>, off: int)
    requires
        0 <= off,
        off + KVM_IRQ_ROUTING_IRQCHIP_SIZE <= b.len(),
        v.irqchip == u32_of_le_bytes(b.subrange(off + 0, off + 4)),
        v.pin == u32_of_le_bytes(b.subrange(off + 4, off + 8)),
    ensures
        v.spec_bytes() == b.subrange(off, off + KVM_IRQ_ROUTING_IRQCHIP_SIZE),
{
    let s = b.subrange(off, off + KVM_IRQ_ROUTING_IRQCHIP_SIZE as int);
    lemma_u32_le_bytes_of(b.subrange(off + 0, off + 4));
    lemma_u32_le_bytes_of(b.subrange(off + 4, off + 8));
    lemma_subrange_subrange(b, off, off + KVM_IRQ_ROUTING_IRQCHIP_SIZE as int, 0, 4);
    lemma_subrange_subrange(b, off, off + KVM_IRQ_ROUTING_IRQCHIP_SIZE as int, 4, 8);
    lemma_seq_parts(s, 4, 8);
    assert(s.subrange(0, KVM_IRQ_ROUTING_IRQCHIP_SIZE as int) =~= s);
    assert(v.spec_bytes() == s);
}

/// Field images of a `kvm_irq_routing_irqchip`, covering one run of fields.
#[verifier::rlimit(100)]
#[verifier::spinoff_prover]
proof fn lemma_kvm_irq_routing_irqchip_field_images_seg0(x: kvm_irq_routing_irqchip)
    ensures
        x.spec_bytes().len() == KVM_IRQ_ROUTING_IRQCHIP_SIZE,
        x.spec_bytes().subrange(4, 8) == u32_le_bytes(x.pin),
        x.spec_bytes().subrange(0, 4) == u32_le_bytes(x.irqchip),
{
    lemma_kvm_irq_routing_irqchip_bytes_len(x);
    let p0 = u32_le_bytes(x.irqchip);
    let p1 = u32_le_bytes(x.pin);
    let t1 = p0 + p1;
    assert(x.spec_bytes() == t1);
    lemma_concat_parts(p0, p1);
}

/// Each field's image stands at its kernel offset inside the image of
/// a `kvm_irq_routing_irqchip`.
proof fn lemma_kvm_irq_routing_irqchip_field_images(x: kvm_irq_routing_irqchip)
    ensures
        x.spec_bytes().len() == KVM_IRQ_ROUTING_IRQCHIP_SIZE,
        x.spec_bytes().subrange(0, 4) == u32_le_bytes(x.irqchip),
        x.spec_bytes().subrange(4, 8) == u32_le_bytes(x.pin),
{
    lemma_kvm_irq_routing_irqchip_field_images_seg0(x);
}

/// The byte image determines the structure: reading an image back
/// always yields the one value that produced it.
pub proof fn lemma_kvm_irq_routing_irqchip_image_injective(a: kvm_irq_routing_irqchip, b: kvm_irq_routing_irqchip)
    requires
        a.spec_bytes() == b.spec_bytes(),
    ensures
        a == b,
{
    lemma_kvm_irq_routing_irqchip_field_images(a);
    lemma_kvm_irq_routing_irqchip_field_images(b);
    lemma_u32_le_roundtrip(a.irqchip);
    lemma_u32_le_roundtrip(b.irqchip);
    lemma_u32_le_roundtrip(a.pin);
    lemma_u32_le_roundtrip(b.pin);
    assert(a =~= b);
}

/// A `kvm_irq_routing_irqchip` whose fields are all zero has an all-zero byte image,
/// the image of a zeroed ioctl argument buffer.
pub proof fn lemma_kvm_irq_routing_irqchip_zero_image(x: kvm_irq_routing_irqchip)
    requires
        x.is_zeroed(),
    ensures
        x.spec_bytes() == zero_bytes(KVM_IRQ_ROUTING_IRQCHIP_SIZE as int),
{
    lemma_le_bytes_zero();
    lemma_zero_bytes_split(4, 8);
    assert(x.spec_bytes() == zero_bytes(KVM_IRQ_ROUTING_IRQCHIP_SIZE as int));
}

/// Byte size of the `kvm_irq_routing_msi` kernel image.
pub const KVM_IRQ_ROUTING_MSI_SIZE: usize = 16;

/// An MSI route: the message address, data and device id.
#[derive(Clone, Copy, Debug, PartialEq)]
#[verifier::ext_equal]
pub struct kvm_irq_routing_msi {
    pub address_lo: u32,
    pub address_hi: u32,
    pub data: u32,
    pub __bindgen_anon_1: kvm_irq_routing_msi__bindgen_ty_1,
}

impl kvm_irq_routing_msi {
    /// The 16-byte kernel image of `self`: every field little-endian
    /// at its kernel offset.
    pub open spec fn spec_bytes(self) -> Seq<u8> {
        u32_le_bytes(self.address_lo) + u32_le_bytes(self.address_hi) + u32_le_bytes(self.data) + self.__bindgen_anon_1.spec_bytes()
    }

    /// Every field of `self` holds zero.
    pub open spec fn is_zeroed(self) -> bool {
        self.address_lo == 0 && self.address_hi == 0 && self.data == 0 && self.__bindgen_anon_1.is_zeroed()
    }

    /// Appends the image of `self` to `out`.
    pub fn push_image(&self, out: &mut Vec<u8>)
        ensures
            final(out)@ == old(out)@ + self.spec_bytes(),
    {
        let ghost base: Seq<u8> = out@;
        push_u32_le(out, self.address_lo);
        let ghost mut acc: Seq<u8> = u32_le_bytes(self.address_lo);
        push_u32_le(out, self.address_hi);
        proof {
            lemma_concat_assoc(base, acc, u32_le_bytes(self.address_hi));
            acc = acc + (u32_le_bytes(self.address_hi));
        }
        push_u32_le(out, self.data);
        proof {
            lemma_concat_assoc(base, acc, u32_le_bytes(self.data));
            acc = acc + (u32_le_bytes(self.data));
        }
        self.__bindgen_anon_1.push_image(out);
        proof {
            lemma_concat_assoc(base, acc, self.__bindgen_anon_1.spec_bytes());
            acc = acc + (self.__bindgen_anon_1.spec_bytes());
        }
        proof {
            assert(out@ == base + acc);
            assert(acc == self.spec_bytes());
        }
    }

    /// The image of `self` as a fresh buffer.
    pub fn to_bytes(&self) -> (out: Vec<u8>)
        ensures
            out@ == self.spec_bytes(),
            out@.len() == KVM_IRQ_ROUTING_MSI_SIZE,
    {
        let mut out: Vec<u8> = Vec::new();
        self.push_image(&mut out);
        proof {
            lemma_concat_empty_left(self.spec_bytes());
            lemma_kvm_irq_routing_msi_bytes_len(*self);
        }
        out
    }

    /// Reads the structure whose image starts at offset `off` of `buf`.
    pub fn read_at(buf: &[u8], off: usize) -> (v: Self)
        requires
            off + KVM_IRQ_ROUTING_MSI_SIZE <= buf@.len(),
        ensures
            v.spec_bytes() == buf@.subrange(off as int, off as int + KVM_IRQ_ROUTING_MSI_SIZE),
    {
        let n: usize = buf.len();
        proof {
            assert(off + KVM_IRQ_ROUTING_MSI_SIZE <= n);
        }
        let v = kvm_irq_routing_msi {
            address_lo: read_u32_le(buf, off),
            address_hi: read_u32_le(buf, off + 4),
            data: read_u32_le(buf, off + 8),
            __bindgen_anon_1: kvm_irq_routing_msi__bindgen_ty_1::read_at(buf, off + 12),
        };
        proof {
            lemma_kvm_irq_routing_msi_read_at(v, buf@, off as int);
        }
        v
    }

    /// Reads a structure image from the start of `buf`, failing when the
    /// buffer is too short to hold one.
    pub fn from_bytes(buf: &[u8]) -> (r: Result<Self, CodecError>)
        ensures
            buf@.len() < KVM_IRQ_ROUTING_MSI_SIZE ==> r == Err::<kvm_irq_routing_msi, CodecError>(
                CodecError::IncompleteBuffer,
            ),
            buf@.len() >= KVM_IRQ_ROUTING_MSI_SIZE ==> (r matches Ok(v) && v.spec_bytes() == buf@.subrange(
                0,
                KVM_IRQ_ROUTING_MSI_SIZE as int,
            )),
    {
        if buf.len() < KVM_IRQ_ROUTING_MSI_SIZE {
            Err(CodecError::IncompleteBuffer)
        } else {
            Ok(Self::read_at(buf, 0))
        }
    }
}

impl Default for kvm_irq_routing_msi {
    /// Every field zero: the zeroed ioctl argument convention.
    fn default() -> (r: Self)
        ensures
            r.is_zeroed(),
    {
        let r = kvm_irq_routing_msi {
            address_lo: 0,
            address_hi: 0,
            data: 0,
            __bindgen_anon_1: kvm_irq_routing_msi__bindgen_ty_1::default(),
        };
        r
    }
}

/// The image of a `kvm_irq_routing_msi` is exactly 16 bytes.
pub proof fn lemma_kvm_irq_routing_msi_bytes_len(x: kvm_irq_routing_msi)
    ensures
        x.spec_bytes().len() == KVM_IRQ_ROUTING_MSI_SIZE,
{
    lemma_kvm_irq_routing_msi__bindgen_ty_1_bytes_len(x.__bindgen_anon_1);
}

/// A `kvm_irq_routing_msi` whose fields were decoded from a buffer has that
/// buffer segment as its image.
#[verifier::rlimit(100)]
#[verifier::spinoff_prover]
proof fn lemma_kvm_irq_routing_msi_read_at(v: kvm_irq_routing_msi, b: Seq<u8>, off: int)
    requires
        0 <= off,
        off + KVM_IRQ_ROUTING_MSI_SIZE <= b.len(),
        v.address_lo == u32_of_le_bytes(b.subrange(off + 0, off + 4)),
        v.address_hi == u32_of_le_bytes(b.subrange(off + 4, off + 8)),
        v.data == u32_of_le_bytes(b.subrange(off + 8, off + 12)),
        v.__bindgen_anon_1.spec_bytes() == b.subrange(off + 12, off + 16),
    ensures
        v.spec_bytes() == b.subrange(off, off + KVM_IRQ_ROUTING_MSI_SIZE),
{
    let s = b.subrange(off, off + KVM_IRQ_ROUTING_MSI_SIZE as int);
    lemma_u32_le_bytes_of(b.subrange(off + 0, off + 4));
    lemma_u32_le_bytes_of(b.subrange(off + 4, off + 8));
    lemma_u32_le_bytes_of(b.subrange(off + 8, off + 12));
    lemma_subrange_subrange(b, off, off + KVM_IRQ_ROUTING_MSI_SIZE as int, 0, 4);
    lemma_subrange_subrange(b, off, off + KVM_IRQ_ROUTING_MSI_SIZE as int, 4, 8);
    lemma_subrange_subrange(b, off, off + KVM_IRQ_ROUTING_MSI_SIZE as int, 8, 12);
    lemma_subrange_subrange(b, off, off + KVM_IRQ_ROUTING_MSI_SIZE as int, 12, 16);
    lemma_seq_parts(s, 4, 8);
    lemma_seq_parts(s, 8, 12);
    lemma_seq_parts(s, 12, 16);
    assert(s.subrange(0, KVM_IRQ_ROUTING_MSI_SIZE as int) =~= s);
    assert(v.spec_bytes() == s);
}

/// Field images of a `kvm_irq_routing_msi`, covering one run of fields.
#[verifier::rlimit(100)]
#[verifier::spinoff_prover]
proof fn lemma_kvm_irq_routing_msi_field_images_seg0(x: kvm_irq_routing_msi)
    ensures
        x.spec_bytes().len() == KVM_IRQ_ROUTING_MSI_SIZE,
        x.spec_bytes().subrange(12, 16) == x.__bindgen_anon_1.spec_bytes(),
        x.spec_bytes().subrange(8, 12) == u32_le_bytes(x.data),
        x.spec_bytes().subrange(4, 8) == u32_le_bytes(x.address_hi),
        x.spec_bytes().subrange(0, 4) == u32_le_bytes(x.address_lo),
{
    lemma_kvm_irq_routing_msi_bytes_len(x);
    lemma_kvm_irq_routing_msi__bindgen_ty_1_bytes_len(x.__bindgen_anon_1);
    let p0 = u32_le_bytes(x.address_lo);
    let p1 = u32_le_bytes(x.address_hi);
    let p2 = u32_le_bytes(x.data);
    let p3 = x.__bindgen_anon_1.spec_bytes();
    let t1 = p0 + p1;
    let t2 = t1 + p2;
    let t3 = t2 + p3;
    assert(x.spec_bytes() == t3);
    lemma_concat_parts(t2, p3);
    lemma_concat_parts(t1, p2);
    lemma_subrange_subrange(x.spec_bytes(), 0, 12, 0, 8);
    lemma_subrange_subrange(x.spec_bytes(), 0, 12, 8, 12);
    lemma_concat_parts(p0, p1);
    lemma_subrange_subrange(x.spec_bytes(), 0, 8, 0, 4);
    lemma_subrange_subrange(x.spec_bytes(), 0, 8, 4, 8);
}

/// Each field's image stands at its kernel offset inside the image of
/// a `kvm_irq_routing_msi`.
proof fn lemma_kvm_irq_routing_msi_field_images(x: kvm_irq_routing_msi)
    ensures
        x.spec_bytes().len() == KVM_IRQ_ROUTING_MSI_SIZE,
        x.spec_bytes().subrange(0, 4) == u32_le_bytes(x.address_lo),
        x.spec_bytes().subrange(4, 8) == u32_le_bytes(x.address_hi),
        x.spec_bytes().subrange(8, 12) == u32_le_bytes(x.data),
        x.spec_bytes().subrange(12, 16) == x.__bindgen_anon_1.spec_bytes(),
{
    lemma_kvm_irq_routing_msi_field_images_seg0(x);
}

/// The byte image determines the structure: reading an image back
/// always yields the one value that produced it.
pub proof fn lemma_kvm_irq_routing_msi_image_injective(a: kvm_irq_routing_msi, b: kvm_irq_routing_msi)
    requires
        a.spec_bytes() == b.spec_bytes(),
    ensures
        a == b,
{
    lemma_kvm_irq_routing_msi_field_images(a);
    lemma_kvm_irq_routing_msi_field_images(b);
    lemma_u32_le_roundtrip(a.address_lo);
    lemma_u32_le_roundtrip(b.address_lo);
    lemma_u32_le_roundtrip(a.address_hi);
    lemma_u32_le_roundtrip(b.address_hi);
    lemma_u32_le_roundtrip(a.data);
    lemma_u32_le_roundtrip(b.data);
    lemma_kvm_irq_routing_msi__bindgen_ty_1_image_injective(a.__bindgen_anon_1, b.__bindgen_anon_1);
    assert(a =~= b);
}

/// A `kvm_irq_routing_msi` whose fields are all zero has an all-zero byte image,
/// the image of a zeroed ioctl argument buffer.
pub proof fn lemma_kvm_irq_routing_msi_zero_image(x: kvm_irq_routing_msi)
    requires
        x.is_zeroed(),
    ensures
        x.spec_bytes() == zero_bytes(KVM_IRQ_ROUTING_MSI_SIZE as int),
{
    lemma_le_bytes_zero();
    lemma_kvm_irq_routing_msi__bindgen_ty_1_zero_image(x.__bindgen_anon_1);
    lemma_zero_bytes_split(4, 8);
    lemma_zero_bytes_split(8, 12);
    lemma_zero_bytes_split(12, 16);
    assert(x.spec_bytes() == zero_bytes(KVM_IRQ_ROUTING_MSI_SIZE as int));
}

/// Byte size of the `kvm_irq_routing_s390_adapter` kernel image.
pub const KVM_IRQ_ROUTING_S390_ADAPTER_SIZE: usize = 32;

/// An s390 adapter route: indicator and summary addresses.
#[derive(Clone, Copy, Debug, PartialEq)]
#[verifier::ext_equal]
pub struct kvm_irq_routing_s390_adapter {
    pub ind_addr: u64,
    pub summary_addr: u64,
    pub ind_offset: u64,
    pub summary_offset: u32,
    pub adapter_id: u32,
}

impl kvm_irq_routing_s390_adapter {
    /// The 32-byte kernel image of `self`: every field little-endian
    /// at its kernel offset.
    pub open spec fn spec_bytes(self) -> Seq<u8> {
        u64_le_bytes(self.ind_addr) + u64_le_bytes(self.summary_addr) + u64_le_bytes(self.ind_offset) + u32_le_bytes(self.summary_offset) + u32_le_bytes(self.adapter_id)
    }

    /// Every field of `self` holds zero.
    pub open spec fn is_zeroed(self) -> bool {
        self.ind_addr == 0 && self.summary_addr == 0 && self.ind_offset == 0 && self.summary_offset == 0 && self.adapter_id == 0
    }

    /// Appends the image of `self` to `out`.
    pub fn push_image(&self, out: &mut Vec<u8>)
        ensures
            final(out)@ == old(out)@ + self.spec_bytes(),
    {
        let ghost base: Seq<u8> = out@;
        push_u64_le(out, self.ind_addr);
        let ghost mut acc: Seq<u8> = u64_le_bytes(self.ind_addr);
        push_u64_le(out, self.summary_addr);
        proof {
            lemma_concat_assoc(base, acc, u64_le_bytes(self.summary_addr));
            acc = acc + (u64_le_bytes(self.summary_addr));
        }
        push_u64_le(out, self.ind_offset);
        proof {
            lemma_concat_assoc(base, acc, u64_le_bytes(self.ind_offset));
            acc = acc + (u64_le_bytes(self.ind_offset));
        }
        push_u32_le(out, self.summary_offset);
        proof {
            lemma_concat_assoc(base, acc, u32_le_bytes(self.summary_offset));
            acc = acc + (u32_le_bytes(self.summary_offset));
        }
        push_u32_le(out, self.adapter_id);
        proof {
            lemma_concat_assoc(base, acc, u32_le_bytes(self.adapter_id));
            acc = acc + (u32_le_bytes(self.adapter_id));
        }
        proof {
            assert(out@ == base + acc);
            assert(acc == self.spec_bytes());
        }
    }

    /// The image of `self` as a fresh buffer.
    pub fn to_bytes(&self) -> (out: Vec<u8>)
        ensures
            out@ == self.spec_bytes(),
            out@.len() == KVM_IRQ_ROUTING_S390_ADAPTER_SIZE,
    {
        let mut out: Vec<u8> = Vec::new();
        self.push_image(&mut out);
        proof {
            lemma_concat_empty_left(self.spec_bytes());
            lemma_kvm_irq_routing_s390_adapter_bytes_len(*self);
        }
        out
    }

    /// Reads the structure whose image starts at offset `off` of `buf`.
    pub fn read_at(buf: &[u8], off: usize) -> (v: Self)
        requires
            off + KVM_IRQ_ROUTING_S390_ADAPTER_SIZE <= buf@.len(),
        ensures
            v.spec_bytes() == buf@.subrange(off as int, off as int + KVM_IRQ_ROUTING_S390_ADAPTER_SIZE),
    {
        let n: usize = buf.len();
        proof {
            assert(off + KVM_IRQ_ROUTING_S390_ADAPTER_SIZE <= n);
        }
        let v = kvm_irq_routing_s390_adapter {
            ind_addr: read_u64_le(buf, off),
            summary_addr: read_u64_le(buf, off + 8),
            ind_offset: read_u64_le(buf, off + 16),
            summary_offset: read_u32_le(buf, off + 24),
            adapter_id: read_u32_le(buf, off + 28),
        };
        proof {
            lemma_kvm_irq_routing_s390_adapter_read_at(v, buf@, off as int);
        }
        v
    }

    /// Reads a structure image from the start of `buf`, failing when the
    /// buffer is too short to hold one.
    pub fn from_bytes(buf: &[u8]) -> (r: Result<Self, CodecError>)
        ensures
            buf@.len() < KVM_IRQ_ROUTING_S390_ADAPTER_SIZE ==> r == Err::<kvm_irq_routing_s390_adapter, CodecError>(
                CodecError::IncompleteBuffer,
            ),
            buf@.len() >= KVM_IRQ_ROUTING_S390_ADAPTER_SIZE ==> (r matches Ok(v) && v.spec_bytes() == buf@.subrange(
                0,
                KVM_IRQ_ROUTING_S390_ADAPTER_SIZE as int,
            )),
    {
        if buf.len() < KVM_IRQ_ROUTING_S390_ADAPTER_SIZE {
            Err(CodecError::IncompleteBuffer)
        } else {
            Ok(Self::read_at(buf, 0))
        }
    }
}

impl Default for kvm_irq_routing_s390_adapter {
    /// Every field zero: the zeroed ioctl argument convention.
    fn default() -> (r: Self)
        ensures
            r.is_zeroed(),
    {
        let r = kvm_irq_routing_s390_adapter {
            ind_addr: 0,
            summary_addr: 0,
            ind_offset: 0,
            summary_offset: 0,
            adapter_id: 0,
        };
        r
    }
}

/// The image of a `kvm_irq_routing_s390_adapter` is exactly 32 bytes.
pub proof fn lemma_kvm_irq_routing_s390_adapter_bytes_len(x: kvm_irq_routing_s390_adapter)
    ensures
        x.spec_bytes().len() == KVM_IRQ_ROUTING_S390_ADAPTER_SIZE,
{
}

/// A `kvm_irq_routing_s390_adapter` whose fields were decoded from a buffer has that
/// buffer segment as its image.
#[verifier::rlimit(100)]
#[verifier::spinoff_prover]
proof fn lemma_kvm_irq_routing_s390_adapter_read_at(v: kvm_irq_routing_s390_adapter, b: Seq<u8>, off: int)
    requires
        0 <= off,
        off + KVM_IRQ_ROUTING_S390_ADAPTER_SIZE <= b.len(),
        v.ind_addr == u64_of_le_bytes(b.subrange(off + 0, off + 8)),
        v.summary_addr == u64_of_le_bytes(b.subrange(off + 8, off + 16)),
        v.ind_offset == u64_of_le_bytes(b.subrange(off + 16, off + 24)),
        v.summary_offset == u32_of_le_bytes(b.subrange(off + 24, off + 28)),
        v.adapter_id == u32_of_le_bytes(b.subrange(off + 28, off + 32)),
    ensures
        v.spec_bytes() == b.subrange(off, off + KVM_IRQ_ROUTING_S390_ADAPTER_SIZE),
{
    let s = b.subrange(off, off + KVM_IRQ_ROUTING_S390_ADAPTER_SIZE as int);
    lemma_u64_le_bytes_of(b.subrange(off + 0, off + 8));
    lemma_u64_le_bytes_of(b.subrange(off + 8, off + 16));
    lemma_u64_le_bytes_of(b.subrange(off + 16, off + 24));
    lemma_u32_le_bytes_of(b.subrange(off + 24, off + 28));
    lemma_u32_le_bytes_of(b.subrange(off + 28, off + 32));
    lemma_subrange_subrange(b, off, off + KVM_IRQ_ROUTING_S390_ADAPTER_SIZE as int, 0, 8);
    lemma_subrange_subrange(b, off, off + KVM_IRQ_ROUTING_S390_ADAPTER_SIZE as int, 8, 16);
    lemma_subrange_subrange(b, off, off + KVM_IRQ_ROUTING_S390_ADAPTER_SIZE as int, 16, 24);
    lemma_subrange_subrange(b, off, off + KVM_IRQ_ROUTING_S390_ADAPTER_SIZE as int, 24, 28);
    lemma_subrange_subrange(b, off, off + KVM_IRQ_ROUTING_S390_ADAPTER_SIZE as int, 28, 32);
    lemma_seq_parts(s, 8, 16);
    lemma_seq_parts(s, 16, 24);
    lemma_seq_parts(s, 24, 28);
    lemma_seq_parts(s, 28, 32);
    assert(s.subrange(0, KVM_IRQ_ROUTING_S390_ADAPTER_SIZE as int) =~= s);
    assert(v.spec_bytes() == s);
}

/// Field images of a `kvm_irq_routing_s390_adapter`, covering one run of fields.
#[verifier::rlimit(100)]
#[verifier::spinoff_prover]
proof fn lemma_kvm_irq_routing_s390_adapter_field_images_seg0(x: kvm_irq_routing_s390_adapter)
    ensures
        x.spec_bytes().len() == KVM_IRQ_ROUTING_S390_ADAPTER_SIZE,
        x.spec_bytes().subrange(28, 32) == u32_le_bytes(x.adapter_id),
        x.spec_bytes().subrange(24, 28) == u32_le_bytes(x.summary_offset),
        x.spec_bytes().subrange(16, 24) == u64_le_bytes(x.ind_offset),
        x.spec_bytes().subrange(8, 16) == u64_le_bytes(x.summary_addr),
        x.spec_bytes().subrange(0, 8) == u64_le_bytes(x.ind_addr),
{
    lemma_kvm_irq_routing_s390_adapter_bytes_len(x);
    let p0 = u64_le_bytes(x.ind_addr);
    let p1 = u64_le_bytes(x.summary_addr);
    let p2 = u64_le_bytes(x.ind_offset);
    let p3 = u32_le_bytes(x.summary_offset);
    let p4 = u32_le_bytes(x.adapter_id);
    let t1 = p0 + p1;
    let t2 = t1 + p2;
    let t3 = t2 + p3;
    let t4 = t3 + p4;
    assert(x.spec_bytes() == t4);
    lemma_concat_parts(t3, p4);
    lemma_concat_parts(t2, p3);
    lemma_subrange_subrange(x.spec_bytes(), 0, 28, 0, 24);
    lemma_subrange_subrange(x.spec_bytes(), 0, 28, 24, 28);
    lemma_concat_parts(t1, p2);
    lemma_subrange_subrange(x.spec_bytes(), 0, 24, 0, 16);
    lemma_subrange_subrange(x.spec_bytes(), 0, 24, 16, 24);
    lemma_concat_parts(p0, p1);
    lemma_subrange_subrange(x.spec_bytes(), 0, 16, 0, 8);
    lemma_subrange_subrange(x.spec_bytes(), 0, 16, 8, 16);
}

/// Each field's image stands at its kernel offset inside the image of
/// a `kvm_irq_routing_s390_adapter`.
proof fn lemma_kvm_irq_routing_s390_adapter_field_images(x: kvm_irq_routing_s390_adapter)
    ensures
        x.spec_bytes().len() == KVM_IRQ_ROUTING_S390_ADAPTER_SIZE,
        x.spec_bytes().subrange(0, 8) == u64_le_bytes(x.ind_addr),
        x.spec_bytes().subrange(8, 16) == u64_le_bytes(x.summary_addr),
        x.spec_bytes().subrange(16, 24) == u64_le_bytes(x.ind_offset),
        x.spec_bytes().subrange(24, 28) == u32_le_bytes(x.summary_offset),
        x.spec_bytes().subrange(28, 32) == u32_le_bytes(x.adapter_id),
{
    lemma_kvm_irq_routing_s390_adapter_field_images_seg0(x);
}

/// The byte image determines the structure: reading an image back
/// always yields the one value that produced it.
pub proof fn lemma_kvm_irq_routing_s390_adapter_image_injective(a: kvm_irq_routing_s390_adapter, b: kvm_irq_routing_s390_adapter)
    requires
        a.spec_bytes() == b.spec_bytes(),
    ensures
        a == b,
{
    lemma_kvm_irq_routing_s390_adapter_field_images(a);
    lemma_kvm_irq_routing_s390_adapter_field_images(b);
    lemma_u64_le_roundtrip(a.ind_addr);
    lemma_u64_le_roundtrip(b.ind_addr);
    lemma_u64_le_roundtrip(a.summary_addr);
    lemma_u64_le_roundtrip(b.summary_addr);
    lemma_u64_le_roundtrip(a.ind_offset);
    lemma_u64_le_roundtrip(b.ind_offset);
    lemma_u32_le_roundtrip(a.summary_offset);
    lemma_u32_le_roundtrip(b.summary_offset);
    lemma_u32_le_roundtrip(a.adapter_id);
    lemma_u32_le_roundtrip(b.adapter_id);
    assert(a =~= b);
}

/// A `kvm_irq_routing_s390_adapter` whose fields are all zero has an all-zero byte image,
/// the image of a zeroed ioctl argument buffer.
pub proof fn lemma_kvm_irq_routing_s390_adapter_zero_image(x: kvm_irq_routing_s390_adapter)
    requires
        x.is_zeroed(),
    ensures
        x.spec_bytes() == zero_bytes(KVM_IRQ_ROUTING_S390_ADAPTER_SIZE as int),
{
    lemma_le_bytes_zero();
    lemma_zero_bytes_split(8, 16);
    lemma_zero_bytes_split(16, 24);
    lemma_zero_bytes_split(24, 28);
    lemma_zero_bytes_split(28, 32);
    assert(x.spec_bytes() == zero_bytes(KVM_IRQ_ROUTING_S390_ADAPTER_SIZE as int));
}

/// Byte size of the `kvm_irq_routing_hv_sint` kernel image.
pub const KVM_IRQ_ROUTING_HV_SINT_SIZE: usize = 8;

/// A Hyper-V synthetic-interrupt route: the vCPU and its interrupt.
#[derive(Clone, Copy, Debug, PartialEq)]
#[verifier::ext_equal]
pub struct kvm_irq_routing_hv_sint {
    pub vcpu: u32,
    pub sint: u32,
}

impl kvm_irq_routing_hv_sint {
    /// The 8-byte kernel image of `self`: every field little-endian
    /// at its kernel offset.
    pub open spec fn spec_bytes(self) -> Seq<u8> {
        u32_le_bytes(self.vcpu) + u32_le_bytes(self.sint)
    }

    /// Every field of `self` holds zero.
    pub open spec fn is_zeroed(self) -> bool {
        self.vcpu == 0 && self.sint == 0
    }

    /// Appends the image of `self` to `out`.
    pub fn push_image(&self, out: &mut Vec<u8>)
        ensures
            final(out)@ == old(out)@ + self.spec_bytes(),
    {
        let ghost base: Seq<u8> = out@;
        push_u32_le(out, self.vcpu);
        let ghost mut acc: Seq<u8> = u32_le_bytes(self.vcpu);
        push_u32_le(out, self.sint);
        proof {
            lemma_concat_assoc(base, acc, u32_le_bytes(self.sint));
            acc = acc + (u32_le_bytes(self.sint));
        }
        proof {
            assert(out@ == base + acc);
            assert(acc == self.spec_bytes());
        }
    }

    /// The image of `self` as a fresh buffer.
    pub fn to_bytes(&self) -> (out: Vec<u8>)
        ensures
            out@ == self.spec_bytes(),
            out@.len() == KVM_IRQ_ROUTING_HV_SINT_SIZE,
    {
        let mut out: Vec<u8> = Vec::new();
        self.push_image(&mut out);
        proof {
            lemma_concat_empty_left(self.spec_bytes());
            lemma_kvm_irq_routing_hv_sint_bytes_len(*self);
        }
        out
    }

    /// Reads the structure whose image starts at offset `off` of `buf`.
    pub fn read_at(buf: &[u8], off: usize) -> (v: Self)
        requires
            off + KVM_IRQ_ROUTING_HV_SINT_SIZE <= buf@.len(),
        ensures
            v.spec_bytes() == buf@.subrange(off as int, off as int + KVM_IRQ_ROUTING_HV_SINT_SIZE),
    {
        let n: usize = buf.len();
        proof {
            assert(off + KVM_IRQ_ROUTING_HV_SINT_SIZE <= n);
        }
        let v = kvm_irq_routing_hv_sint {
            vcpu: read_u32_le(buf, off),
            sint: read_u32_le(buf, off + 4),
        };
        proof {
            lemma_kvm_irq_routing_hv_sint_read_at(v, buf@, off as int);
        }
        v
    }

    /// Reads a structure image from the start of `buf`, failing when the
    /// buffer is too short to hold one.
    pub fn from_bytes(buf: &[u8]) -> (r: Result<Self, CodecError>)
        ensures
            buf@.len() < KVM_IRQ_ROUTING_HV_SINT_SIZE ==> r == Err::<kvm_irq_routing_hv_sint, CodecError>(
                CodecError::IncompleteBuffer,
            ),
            buf@.len() >= KVM_IRQ_ROUTING_HV_SINT_SIZE ==> (r matches Ok(v) && v.spec_bytes() == buf@.subrange(
                0,
                KVM_IRQ_ROUTING_HV_SINT_SIZE as int,
            )),
    {
        if buf.len() < KVM_IRQ_ROUTING_HV_SINT_SIZE {
            Err(CodecError::IncompleteBuffer)
        } else {
            Ok(Self::read_at(buf, 0))
        }
    }
}

impl Default for kvm_irq_routing_hv_sint {
    /// Every field zero: the zeroed ioctl argument convention.
    fn default() -> (r: Self)
        ensures
            r.is_zeroed(),
    {
        let r = kvm_irq_routing_hv_sint {
            vcpu: 0,
            sint: 0,
        };
        r
    }
}

/// The image of a `kvm_irq_routing_hv_sint` is exactly 8 bytes.
pub proof fn lemma_kvm_irq_routing_hv_sint_bytes_len(x: kvm_irq_routing_hv_sint)
    ensures
        x.spec_bytes().len() == KVM_IRQ_ROUTING_HV_SINT_SIZE,
{
}

/// A `kvm_irq_routing_hv_sint` whose fields were decoded from a buffer has that
/// buffer segment as its image.
#[verifier::rlimit(100)]
#[verifier::spinoff_prover]
proof fn lemma_kvm_irq_routing_hv_sint_read_at(v: kvm_irq_routing_hv_sint, b: Seq<u8>, off: int)
    requires
        0 <= off,
        off + KVM_IRQ_ROUTING_HV_SINT_SIZE <= b.len(),
        v.vcpu == u32_of_le_bytes(b.subrange(off + 0, off + 4)),
        v.sint == u32_of_le_bytes(b.subrange(off + 4, off + 8)),
    ensures
        v.spec_bytes() == b.subrange(off, off + KVM_IRQ_ROUTING_HV_SINT_SIZE),
{
    let s = b.subrange(off, off + KVM_IRQ_ROUTING_HV_SINT_SIZE as int);
    lemma_u32_le_bytes_of(b.subrange(off + 0, off + 4));
    lemma_u32_le_bytes_of(b.subrange(off + 4, off + 8));
    lemma_subrange_subrange(b, off, off + KVM_IRQ_ROUTING_HV_SINT_SIZE as int, 0, 4);
    lemma_subrange_subrange(b, off, off + KVM_IRQ_ROUTING_HV_SINT_SIZE as int, 4, 8);
    lemma_seq_parts(s, 4, 8);
    assert(s.subrange(0, KVM_IRQ_ROUTING_HV_SINT_SIZE as int) =~= s);
    assert(v.spec_bytes() == s);
}

/// Field images of a `kvm_irq_routing_hv_sint`, covering one run of fields.
#[verifier::rlimit(100)]
#[verifier::spinoff_prover]
proof fn lemma_kvm_irq_routing_hv_sint_field_images_seg0(x: kvm_irq_routing_hv_sint)
    ensures
        x.spec_bytes().len() == KVM_IRQ_ROUTING_HV_SINT_SIZE,
        x.spec_bytes().subrange(4, 8) == u32_le_bytes(x.sint),
        x.spec_bytes().subrange(0, 4) == u32_le_bytes(x.vcpu),
{
    lemma_kvm_irq_routing_hv_sint_bytes_len(x);
    let p0 = u32_le_bytes(x.vcpu);
    let p1 = u32_le_bytes(x.sint);
    let t1 = p0 + p1;
    assert(x.spec_bytes() == t1);
    lemma_concat_parts(p0, p1);
}

/// Each field's image stands at its kernel offset inside the image of
/// a `kvm_irq_routing_hv_sint`.
proof fn lemma_kvm_irq_routing_hv_sint_field_images(x: kvm_irq_routing_hv_sint)
    ensures
        x.spec_bytes().len() == KVM_IRQ_ROUTING_HV_SINT_SIZE,
        x.spec_bytes().subrange(0, 4) == u32_le_bytes(x.vcpu),
        x.spec_bytes().subrange(4, 8) == u32_le_bytes(x.sint),
{
    lemma_kvm_irq_routing_hv_sint_field_images_seg0(x);
}

/// The byte image determines the structure: reading an image back
/// always yields the one value that produced it.
pub proof fn lemma_kvm_irq_routing_hv_sint_image_injective(a: kvm_irq_routing_hv_sint, b: kvm_irq_routing_hv_sint)
    requires
        a.spec_bytes() == b.spec_bytes(),
    ensures
        a == b,
{
    lemma_kvm_irq_routing_hv_sint_field_images(a);
    lemma_kvm_irq_routing_hv_sint_field_images(b);
    lemma_u32_le_roundtrip(a.vcpu);
    lemma_u32_le_roundtrip(b.vcpu);
    lemma_u32_le_roundtrip(a.sint);
    lemma_u32_le_roundtrip(b.sint);
    assert(a =~= b);
}

/// A `kvm_irq_routing_hv_sint` whose fields are all zero has an all-zero byte image,
/// the image of a zeroed ioctl argument buffer.
pub proof fn lemma_kvm_irq_routing_hv_sint_zero_image(x: kvm_irq_routing_hv_sint)
    requires
        x.is_zeroed(),
    ensures
        x.spec_bytes() == zero_bytes(KVM_IRQ_ROUTING_HV_SINT_SIZE as int),
{
    lemma_le_bytes_zero();
    lemma_zero_bytes_split(4, 8);
    assert(x.spec_bytes() == zero_bytes(KVM_IRQ_ROUTING_HV_SINT_SIZE as int));
}

/// Byte size of the `kvm_irq_routing_entry` kernel image.
pub const KVM_IRQ_ROUTING_ENTRY_SIZE: usize = 48;

/// One routing-table entry: the global interrupt number, the route kind
/// and the per-kind payload.
#[derive(Clone, Copy, Debug, PartialEq)]
#[verifier::ext_equal]
pub struct kvm_irq_routing_entry {
    pub gsi: u32,
    pub type_: u32,
    pub flags: u32,
    pub pad: u32,
    pub u: kvm_irq_routing_entry__bindgen_ty_1,
}

impl kvm_irq_routing_entry {
    /// The 48-byte kernel image of `self`: every field little-endian
    /// at its kernel offset.
    pub open spec fn spec_bytes(self) -> Seq<u8> {
        u32_le_bytes(self.gsi) + u32_le_bytes(self.type_) + u32_le_bytes(self.flags) + u32_le_bytes(self.pad) + self.u.spec_bytes()
    }

    /// Every field of `self` holds zero.
    pub open spec fn is_zeroed(self) -> bool {
        self.gsi == 0 && self.type_ == 0 && self.flags == 0 && self.pad == 0 && self.u.is_zeroed()
    }

    /// Appends the image of `self` to `out`.
    pub fn push_image(&self, out: &mut Vec<u8>)
        ensures
            final(out)@ == old(out)@ + self.spec_bytes(),
    {
        let ghost base: Seq<u8> = out@;
        push_u32_le(out, self.gsi);
        let ghost mut acc: Seq<u8> = u32_le_bytes(self.gsi);
        push_u32_le(out, self.type_);
        proof {
            lemma_concat_assoc(base, acc, u32_le_bytes(self.type_));
            acc = acc + (u32_le_bytes(self.type_));
        }
        push_u32_le(out, self.flags);
        proof {
            lemma_concat_assoc(base, acc, u32_le_bytes(self.flags));
            acc = acc + (u32_le_bytes(self.flags));
        }
        push_u32_le(out, self.pad);
        proof {
            lemma_concat_assoc(base, acc, u32_le_bytes(self.pad));
            acc = acc + (u32_le_bytes(self.pad));
        }
        self.u.push_image(out);
        proof {
            lemma_concat_assoc(base, acc, self.u.spec_bytes());
            acc = acc + (self.u.spec_bytes());
        }
        proof {
            assert(out@ == base + acc);
            assert(acc == self.spec_bytes());
        }
    }

    /// The image of `self` as a fresh buffer.
    pub fn to_bytes(&self) -> (out: Vec<u8>)
        ensures
            out@ == self.spec_bytes(),
            out@.len() == KVM_IRQ_ROUTING_ENTRY_SIZE,
    {
        let mut out: Vec<u8> = Vec::new();
        self.push_image(&mut out);
        proof {
            lemma_concat_empty_left(self.spec_bytes());
            lemma_kvm_irq_routing_entry_bytes_len(*self);
        }
        out
    }

    /// Reads the structure whose image starts at offset `off` of `buf`.
    pub fn read_at(buf: &[u8], off: usize) -> (v: Self)
        requires
            off + KVM_IRQ_ROUTING_ENTRY_SIZE <= buf@.len(),
        ensures
            v.spec_bytes() == buf@.subrange(off as int, off as int + KVM_IRQ_ROUTING_ENTRY_SIZE),
    {
        let n: usize = buf.len();
        proof {
            assert(off + KVM_IRQ_ROUTING_ENTRY_SIZE <= n);
        }
        let v = kvm_irq_routing_entry {
            gsi: read_u32_le(buf, off),
            type_: read_u32_le(buf, off + 4),
            flags: read_u32_le(buf, off + 8),
            pad: read_u32_le(buf, off + 12),
            u: kvm_irq_routing_entry__bindgen_ty_1::read_at(buf, off + 16),
        };
        proof {
            lemma_kvm_irq_routing_entry_read_at(v, buf@, off as int);
        }
        v
    }

    /// Reads a structure image from the start of `buf`, failing when the
    /// buffer is too short to hold one.
    pub fn from_bytes(buf: &[u8]) -> (r: Result<Self, CodecError>)
        ensures
            buf@.len() < KVM_IRQ_ROUTING_ENTRY_SIZE ==> r == Err::<kvm_irq_routing_entry, CodecError>(
                CodecError::IncompleteBuffer,
            ),
            buf@.len() >= KVM_IRQ_ROUTING_ENTRY_SIZE ==> (r matches Ok(v) && v.spec_bytes() == buf@.subrange(
                0,
                KVM_IRQ_ROUTING_ENTRY_SIZE as int,
            )),
    {
        if buf.len() < KVM_IRQ_ROUTING_ENTRY_SIZE {
            Err(CodecError::IncompleteBuffer)
        } else {
            Ok(Self::read_at(buf, 0))
        }
    }
}

impl Default for kvm_irq_routing_entry {
    /// Every field zero: the zeroed ioctl argument convention.
    fn default() -> (r: Self)
        ensures
            r.is_zeroed(),
    {
        let r = kvm_irq_routing_entry {
            gsi: 0,
            type_: 0,
            flags: 0,
            pad: 0,
            u: kvm_irq_routing_entry__bindgen_ty_1::default(),
        };
        r
    }
}

/// The image of a `kvm_irq_routing_entry` is exactly 48 bytes.
pub proof fn lemma_kvm_irq_routing_entry_bytes_len(x: kvm_irq_routing_entry)
    ensures
        x.spec_bytes().len() == KVM_IRQ_ROUTING_ENTRY_SIZE,
{
    lemma_kvm_irq_routing_entry__bindgen_ty_1_bytes_len(x.u);
}

/// A `kvm_irq_routing_entry` whose fields were decoded from a buffer has that
/// buffer segment as its image.
#[verifier::rlimit(100)]
#[verifier::spinoff_prover]
proof fn lemma_kvm_irq_routing_entry_read_at(v: kvm_irq_routing_entry, b: Seq<u8>, off: int)
    requires
        0 <= off,
        off + KVM_IRQ_ROUTING_ENTRY_SIZE <= b.len(),
        v.gsi == u32_of_le_bytes(b.subrange(off + 0, off + 4)),
        v.type_ == u32_of_le_bytes(b.subrange(off + 4, off + 8)),
        v.flags == u32_of_le_bytes(b.subrange(off + 8, off + 12)),
        v.pad == u32_of_le_bytes(b.subrange(off + 12, off + 16)),
        v.u.spec_bytes() == b.subrange(off + 16, off + 48),
    ensures
        v.spec_bytes() == b.subrange(off, off + KVM_IRQ_ROUTING_ENTRY_SIZE),
{
    let s = b.subrange(off, off + KVM_IRQ_ROUTING_ENTRY_SIZE as int);
    lemma_u32_le_bytes_of(b.subrange(off + 0, off + 4));
    lemma_u32_le_bytes_of(b.subrange(off + 4, off + 8));
    lemma_u32_le_bytes_of(b.subrange(off + 8, off + 12));
    lemma_u32_le_bytes_of(b.subrange(off + 12, off + 16));
    lemma_subrange_subrange(b, off, off + KVM_IRQ_ROUTING_ENTRY_SIZE as int, 0, 4);
    lemma_subrange_subrange(b, off, off + KVM_IRQ_ROUTING_ENTRY_SIZE as int, 4, 8);
    lemma_subrange_subrange(b, off, off + KVM_IRQ_ROUTING_ENTRY_SIZE as int, 8, 12);
    lemma_subrange_subrange(b, off, off + KVM_IRQ_ROUTING_ENTRY_SIZE as int, 12, 16);
    lemma_subrange_subrange(b, off, off + KVM_IRQ_ROUTING_ENTRY_SIZE as int, 16, 48);
    lemma_seq_parts(s, 4, 8);
    lemma_seq_parts(s, 8, 12);
    lemma_seq_parts(s, 12, 16);
    lemma_seq_parts(s, 16, 48);
    assert(s.subrange(0, KVM_IRQ_ROUTING_ENTRY_SIZE as int) =~= s);
    assert(v.spec_bytes() == s);
}

/// Field images of a `kvm_irq_routing_entry`, covering one run of fields.
#[verifier::rlimit(100)]
#[verifier::spinoff_prover]
proof fn lemma_kvm_irq_routing_entry_field_images_seg0(x: kvm_irq_routing_entry)
    ensures
        x.spec_bytes().len() == KVM_IRQ_ROUTING_ENTRY_SIZE,
        x.spec_bytes().subrange(16, 48) == x.u.spec_bytes(),
        x.spec_bytes().subrange(12, 16) == u32_le_bytes(x.pad),
        x.spec_bytes().subrange(8, 12) == u32_le_bytes(x.flags),
        x.spec_bytes().subrange(4, 8) == u32_le_bytes(x.type_),
        x.spec_bytes().subrange(0, 4) == u32_le_bytes(x.gsi),
{
    lemma_kvm_irq_routing_entry_bytes_len(x);
    lemma_kvm_irq_routing_entry__bindgen_ty_1_bytes_len(x.u);
    let p0 = u32_le_bytes(x.gsi);
    let p1 = u32_le_bytes(x.type_);
    let p2 = u32_le_bytes(x.flags);
    let p3 = u32_le_bytes(x.pad);
    let p4 = x.u.spec_bytes();
    let t1 = p0 + p1;
    let t2 = t1 + p2;
    let t3 = t2 + p3;
    let t4 = t3 + p4;
    assert(x.spec_bytes() == t4);
    lemma_concat_parts(t3, p4);
    lemma_concat_parts(t2, p3);
    lemma_subrange_subrange(x.spec_bytes(), 0, 16, 0, 12);
    lemma_subrange_subrange(x.spec_bytes(), 0, 16, 12, 16);
    lemma_concat_parts(t1, p2);
    lemma_subrange_subrange(x.spec_bytes(), 0, 12, 0, 8);
    lemma_subrange_subrange(x.spec_bytes(), 0, 12, 8, 12);
    lemma_concat_parts(p0, p1);
    lemma_subrange_subrange(x.spec_bytes(), 0, 8, 0, 4);
    lemma_subrange_subrange(x.spec_bytes(), 0, 8, 4, 8);
}

/// Each field's image stands at its kernel offset inside the image of
/// a `kvm_irq_routing_entry`.
proof fn lemma_kvm_irq_routing_entry_field_images(x: kvm_irq_routing_entry)
    ensures
        x.spec_bytes().len() == KVM_IRQ_ROUTING_ENTRY_SIZE,
        x.spec_bytes().subrange(0, 4) == u32_le_bytes(x.gsi),
        x.spec_bytes().subrange(4, 8) == u32_le_bytes(x.type_),
        x.spec_bytes().subrange(8, 12) == u32_le_bytes(x.flags),
        x.spec_bytes().subrange(12, 16) == u32_le_bytes(x.pad),
        x.spec_bytes().subrange(16, 48) == x.u.spec_bytes(),
{
    lemma_kvm_irq_routing_entry_field_images_seg0(x);
}

/// The byte image determines the structure: reading an image back
/// always yields the one value that produced it.
pub proof fn lemma_kvm_irq_routing_entry_image_injective(a: kvm_irq_routing_entry, b: kvm_irq_routing_entry)
    requires
        a.spec_bytes() == b.spec_bytes(),
    ensures
        a == b,
{
    lemma_kvm_irq_routing_entry_field_images(a);
    lemma_kvm_irq_routing_entry_field_images(b);
    lemma_u32_le_roundtrip(a.gsi);
    lemma_u32_le_roundtrip(b.gsi);
    lemma_u32_le_roundtrip(a.type_);
    lemma_u32_le_roundtrip(b.type_);
    lemma_u32_le_roundtrip(a.flags);
    lemma_u32_le_roundtrip(b.flags);
    lemma_u32_le_roundtrip(a.pad);
    lemma_u32_le_roundtrip(b.pad);
    lemma_kvm_irq_routing_entry__bindgen_ty_1_image_injective(a.u, b.u);
    assert(a =~= b);
}

/// A `kvm_irq_routing_entry` whose fields are all zero has an all-zero byte image,
/// the image of a zeroed ioctl argument buffer.
pub proof fn lemma_kvm_irq_routing_entry_zero_image(x: kvm_irq_routing_entry)
    requires
        x.is_zeroed(),
    ensures
        x.spec_bytes() == zero_bytes(KVM_IRQ_ROUTING_ENTRY_SIZE as int),
{
    lemma_le_bytes_zero();
    lemma_kvm_irq_routing_entry__bindgen_ty_1_zero_image(x.u);
    lemma_zero_bytes_split(4, 8);
    lemma_zero_bytes_split(8, 12);
    lemma_zero_bytes_split(12, 16);
    lemma_zero_bytes_split(16, 48);
    assert(x.spec_bytes() == zero_bytes(KVM_IRQ_ROUTING_ENTRY_SIZE as int));
}

/// Byte size of the `kvm_irq_routing` kernel image.
pub const KVM_IRQ_ROUTING_SIZE: usize = 8;

/// Header of the routing table: the entry count, then `nr` entries of
/// type [`kvm_irq_routing_entry`] contiguous in the caller's allocation.
#[derive(Debug)]
#[verifier::ext_equal]
pub struct kvm_irq_routing {
    pub nr: u32,
    pub flags: u32,
    pub entries: __IncompleteArrayField<kvm_irq_routing_entry>,
}

impl kvm_irq_routing {
    /// The 8-byte kernel image of `self`: every field little-endian
    /// at its kernel offset.
    pub open spec fn spec_bytes(self) -> Seq<u8> {
        u32_le_bytes(self.nr) + u32_le_bytes(self.flags)
    }

    /// Every field of `self` holds zero.
    pub open spec fn is_zeroed(self) -> bool {
        self.nr == 0 && self.flags == 0
    }

    /// Appends the image of `self` to `out`.
    pub fn push_image(&self, out: &mut Vec<u8>)
        ensures
            final(out)@ == old(out)@ + self.spec_bytes(),
    {
        let ghost base: Seq<u8> = out@;
        push_u32_le(out, self.nr);
        let ghost mut acc: Seq<u8> = u32_le_bytes(self.nr);
        push_u32_le(out, self.flags);
        proof {
            lemma_concat_assoc(base, acc, u32_le_bytes(self.flags));
            acc = acc + (u32_le_bytes(self.flags));
        }
        proof {
            assert(out@ == base + acc);
            assert(acc == self.spec_bytes());
        }
    }

    /// The image of `self` as a fresh buffer.
    pub fn to_bytes(&self) -> (out: Vec<u8>)
        ensures
            out@ == self.spec_bytes(),
            out@.len() == KVM_IRQ_ROUTING_SIZE,
    {
        let mut out: Vec<u8> = Vec::new();
        self.push_image(&mut out);
        proof {
            lemma_concat_empty_left(self.spec_bytes());
            lemma_kvm_irq_routing_bytes_len(*self);
        }
        out
    }

    /// Reads the structure whose image starts at offset `off` of `buf`.
    pub fn read_at(buf: &[u8], off: usize) -> (v: Self)
        requires
            off + KVM_IRQ_ROUTING_SIZE <= buf@.len(),
        ensures
            v.spec_bytes() == buf@.subrange(off as int, off as int + KVM_IRQ_ROUTING_SIZE),
    {
        let n: usize = buf.len();
        proof {
            assert(off + KVM_IRQ_ROUTING_SIZE <= n);
        }
        let v = kvm_irq_routing {
            nr: read_u32_le(buf, off),
            flags: read_u32_le(buf, off + 4),
            entries: __IncompleteArrayField::new(),
        };
        proof {
            lemma_kvm_irq_routing_read_at(v, buf@, off as int);
        }
        v
    }

    /// Reads a structure image from the start of `buf`, failing when the
    /// buffer is too short to hold one.
    pub fn from_bytes(buf: &[u8]) -> (r: Result<Self, CodecError>)
        ensures
            buf@.len() < KVM_IRQ_ROUTING_SIZE ==> r == Err::<kvm_irq_routing, CodecError>(
                CodecError::IncompleteBuffer,
            ),
            buf@.len() >= KVM_IRQ_ROUTING_SIZE ==> (r matches Ok(v) && v.spec_bytes() == buf@.subrange(
                0,
                KVM_IRQ_ROUTING_SIZE as int,
            )),
    {
        if buf.len() < KVM_IRQ_ROUTING_SIZE {
            Err(CodecError::IncompleteBuffer)
        } else {
            Ok(Self::read_at(buf, 0))
        }
    }
}

impl Default for kvm_irq_routing {
    /// Every field zero: the zeroed ioctl argument convention.
    fn default() -> (r: Self)
        ensures
            r.is_zeroed(),
    {
        let r = kvm_irq_routing {
            nr: 0,
            flags: 0,
            entries: __IncompleteArrayField::new(),
        };
        r
    }
}

/// The image of a `kvm_irq_routing` is exactly 8 bytes.
pub proof fn lemma_kvm_irq_routing_bytes_len(x: kvm_irq_routing)
    ensures
        x.spec_bytes().len() == KVM_IRQ_ROUTING_SIZE,
{
}

/// A `kvm_irq_routing` whose fields were decoded from a buffer has that
/// buffer segment as its image.
#[verifier::rlimit(100)]
#[verifier::spinoff_prover]
proof fn lemma_kvm_irq_routing_read_at(v: kvm_irq_routing, b: Seq<u8>, off: int)
    requires
        0 <= off,
        off + KVM_IRQ_ROUTING_SIZE <= b.len(),
        v.nr == u32_of_le_bytes(b.subrange(off + 0, off + 4)),
        v.flags == u32_of_le_bytes(b.subrange(off + 4, off + 8)),
    ensures
        v.spec_bytes() == b.subrange(off, off + KVM_IRQ_ROUTING_SIZE),
{
    let s = b.subrange(off, off + KVM_IRQ_ROUTING_SIZE as int);
    lemma_u32_le_bytes_of(b.subrange(off + 0, off + 4));
    lemma_u32_le_bytes_of(b.subrange(off + 4, off + 8));
    lemma_subrange_subrange(b, off, off + KVM_IRQ_ROUTING_SIZE as int, 0, 4);
    lemma_subrange_subrange(b, off, off + KVM_IRQ_ROUTING_SIZE as int, 4, 8);
    lemma_seq_parts(s, 4, 8);
    assert(s.subrange(0, KVM_IRQ_ROUTING_SIZE as int) =~= s);
    assert(v.spec_bytes() == s);
}

/// Field images of a `kvm_irq_routing`, covering one run of fields.
#[verifier::rlimit(100)]
#[verifier::spinoff_prover]
proof fn lemma_kvm_irq_routing_field_images_seg0(x: kvm_irq_routing)
    ensures
        x.spec_bytes().len() == KVM_IRQ_ROUTING_SIZE,
        x.spec_bytes().subrange(4, 8) == u32_le_bytes(x.flags),
        x.spec_bytes().subrange(0, 4) == u32_le_bytes(x.nr),
{
    lemma_kvm_irq_routing_bytes_len(x);
    let p0 = u32_le_bytes(x.nr);
    let p1 = u32_le_bytes(x.flags);
    let t1 = p0 + p1;
    assert(x.spec_bytes() == t1);
    lemma_concat_parts(p0, p1);
}

/// Each field's image stands at its kernel offset inside the image of
/// a `kvm_irq_routing`.
proof fn lemma_kvm_irq_routing_field_images(x: kvm_irq_routing)
    ensures
        x.spec_bytes().len() == KVM_IRQ_ROUTING_SIZE,
        x.spec_bytes().subrange(0, 4) == u32_le_bytes(x.nr),
        x.spec_bytes().subrange(4, 8) == u32_le_bytes(x.flags),
{
    lemma_kvm_irq_routing_field_images_seg0(x);
}

/// The byte image pins every header field; the tail marker itself
/// holds no state.
pub proof fn lemma_kvm_irq_routing_image_determines_header(a: kvm_irq_routing, b: kvm_irq_routing)
    requires
        a.spec_bytes() == b.spec_bytes(),
    ensures
        a.nr == b.nr,
        a.flags == b.flags,
{
    lemma_kvm_irq_routing_field_images(a);
    lemma_kvm_irq_routing_field_images(b);
    lemma_u32_le_roundtrip(a.nr);
    lemma_u32_le_roundtrip(b.nr);
    lemma_u32_le_roundtrip(a.flags);
    lemma_u32_le_roundtrip(b.flags);
}

/// A `kvm_irq_routing` whose fields are all zero has an all-zero byte image,
/// the image of a zeroed ioctl argument buffer.
pub proof fn lemma_kvm_irq_routing_zero_image(x: kvm_irq_routing)
    requires
        x.is_zeroed(),
    ensures
        x.spec_bytes() == zero_bytes(KVM_IRQ_ROUTING_SIZE as int),
{
    lemma_le_bytes_zero();
    lemma_zero_bytes_split(4, 8);
    assert(x.spec_bytes() == zero_bytes(KVM_IRQ_ROUTING_SIZE as int));
}

/// Byte size of the `kvm_enable_cap` kernel image.
pub const KVM_ENABLE_CAP_SIZE: usize = 104;

/// The argument of the enable-capability ioctl.
#[derive(Clone, Copy, Debug, PartialEq)]
#[verifier::ext_equal]
pub struct kvm_enable_cap {
    pub cap: u32,
    pub flags: u32,
    pub args: [u64; 4],
    pub pad: [u8; 64],
}

impl kvm_enable_cap {
    /// The 104-byte kernel image of `self`: every field little-endian
    /// at its kernel offset.
    pub open spec fn spec_bytes(self) -> Seq<u8> {
        u32_le_bytes(self.cap) + u32_le_bytes(self.flags) + u64_le_bytes(self.args@[0]) + u64_le_bytes(self.args@[1]) + u64_le_bytes(self.args@[2]) + u64_le_bytes(self.args@[3]) + self.pad@
    }

    /// Every field of `self` holds zero.
    pub open spec fn is_zeroed(self) -> bool {
        self.cap == 0 && self.flags == 0 && self.args@ == Seq::new(4, |i: int| 0u64) && self.pad@ == zero_bytes(64)
    }

    /// Appends the image of `self` to `out`.
    pub fn push_image(&self, out: &mut Vec<u8>)
        ensures
            final(out)@ == old(out)@ + self.spec_bytes(),
    {
        let ghost base: Seq<u8> = out@;
        push_u32_le(out, self.cap);
        let ghost mut acc: Seq<u8> = u32_le_bytes(self.cap);
        push_u32_le(out, self.flags);
        proof {
            lemma_concat_assoc(base, acc, u32_le_bytes(self.flags));
            acc = acc + (u32_le_bytes(self.flags));
        }
        push_u64_le(out, self.args[0]);
        proof {
            lemma_concat_assoc(base, acc, u64_le_bytes(self.args@[0]));
            acc = acc + (u64_le_bytes(self.args@[0]));
        }
        push_u64_le(out, self.args[1]);
        proof {
            lemma_concat_assoc(base, acc, u64_le_bytes(self.args@[1]));
            acc = acc + (u64_le_bytes(self.args@[1]));
        }
        push_u64_le(out, self.args[2]);
        proof {
            lemma_concat_assoc(base, acc, u64_le_bytes(self.args@[2]));
            acc = acc + (u64_le_bytes(self.args@[2]));
        }
        push_u64_le(out, self.args[3]);
        proof {
            lemma_concat_assoc(base, acc, u64_le_bytes(self.args@[3]));
            acc = acc + (u64_le_bytes(self.args@[3]));
        }
        push_u8s(out, &self.pad);
        proof {
            lemma_concat_assoc(base, acc, self.pad@);
            acc = acc + (self.pad@);
        }
        proof {
            assert(out@ == base + acc);
            assert(acc == self.spec_bytes());
        }
    }

    /// The image of `self` as a fresh buffer.
    pub fn to_bytes(&self) -> (out: Vec<u8>)
        ensures
            out@ == self.spec_bytes(),
            out@.len() == KVM_ENABLE_CAP_SIZE,
    {
        let mut out: Vec<u8> = Vec::new();
        self.push_image(&mut out);
        proof {
            lemma_concat_empty_left(self.spec_bytes());
            lemma_kvm_enable_cap_bytes_len(*self);
        }
        out
    }

    /// Reads the structure whose image starts at offset `off` of `buf`.
    pub fn read_at(buf: &[u8], off: usize) -> (v: Self)
        requires
            off + KVM_ENABLE_CAP_SIZE <= buf@.len(),
        ensures
            v.spec_bytes() == buf@.subrange(off as int, off as int + KVM_ENABLE_CAP_SIZE),
    {
        let n: usize = buf.len();
        proof {
            assert(off + KVM_ENABLE_CAP_SIZE <= n);
        }
        let v = kvm_enable_cap {
            cap: read_u32_le(buf, off),
            flags: read_u32_le(buf, off + 4),
            args: [read_u64_le(buf, off + 8), read_u64_le(buf, off + 16), read_u64_le(buf, off + 24), read_u64_le(buf, off + 32)],
            pad: read_u8s::<64>(buf, off + 40),
        };
        proof {
            lemma_kvm_enable_cap_read_at(v, buf@, off as int);
        }
        v
    }

    /// Reads a structure image from the start of `buf`, failing when the
    /// buffer is too short to hold one.
    pub fn from_bytes(buf: &[u8]) -> (r: Result<Self, CodecError>)
        ensures
            buf@.len() < KVM_ENABLE_CAP_SIZE ==> r == Err::<kvm_enable_cap, CodecError>(
                CodecError::IncompleteBuffer,
            ),
            buf@.len() >= KVM_ENABLE_CAP_SIZE ==> (r matches Ok(v) && v.spec_bytes() == buf@.subrange(
                0,
                KVM_ENABLE_CAP_SIZE as int,
            )),
    {
        if buf.len() < KVM_ENABLE_CAP_SIZE {
            Err(CodecError::IncompleteBuffer)
        } else {
            Ok(Self::read_at(buf, 0))
        }
    }
}

impl Default for kvm_enable_cap {
    /// Every field zero: the zeroed ioctl argument convention.
    fn default() -> (r: Self)
        ensures
            r.is_zeroed(),
    {
        let r = kvm_enable_cap {
            cap: 0,
            flags: 0,
            args: vstd::array::array_fill_for_copy_types::<u64, 4>(0u64),
            pad: vstd::array::array_fill_for_copy_types::<u8, 64>(0u8),
        };
        proof {
            assert(r.args@ =~= Seq::new(4, |i: int| 0u64));
            assert(r.pad@ =~= zero_bytes(64));
        }
        r
    }
}

/// The image of a `kvm_enable_cap` is exactly 104 bytes.
pub proof fn lemma_kvm_enable_cap_bytes_len(x: kvm_enable_cap)
    ensures
        x.spec_bytes().len() == KVM_ENABLE_CAP_SIZE,
{
}

/// A `kvm_enable_cap` whose fields were decoded from a buffer has that
/// buffer segment as its image.
#[verifier::rlimit(100)]
#[verifier::spinoff_prover]
proof fn lemma_kvm_enable_cap_read_at(v: kvm_enable_cap, b: Seq<u8>, off: int)
    requires
        0 <= off,
        off + KVM_ENABLE_CAP_SIZE <= b.len(),
        v.cap == u32_of_le_bytes(b.subrange(off + 0, off + 4)),
        v.flags == u32_of_le_bytes(b.subrange(off + 4, off + 8)),
        v.args@[0] == u64_of_le_bytes(b.subrange(off + 8, off + 16)),
        v.args@[1] == u64_of_le_bytes(b.subrange(off + 16, off + 24)),
        v.args@[2] == u64_of_le_bytes(b.subrange(off + 24, off + 32)),
        v.args@[3] == u64_of_le_bytes(b.subrange(off + 32, off + 40)),
        v.pad@ == b.subrange(off + 40, off + 104),
    ensures
        v.spec_bytes() == b.subrange(off, off + KVM_ENABLE_CAP_SIZE),
{
    let s = b.subrange(off, off + KVM_ENABLE_CAP_SIZE as int);
    lemma_u32_le_bytes_of(b.subrange(off + 0, off + 4));
    lemma_u32_le_bytes_of(b.subrange(off + 4, off + 8));
    lemma_u64_le_bytes_of(b.subrange(off + 8, off + 16));
    lemma_u64_le_bytes_of(b.subrange(off + 16, off + 24));
    lemma_u64_le_bytes_of(b.subrange(off + 24, off + 32));
    lemma_u64_le_bytes_of(b.subrange(off + 32, off + 40));
    lemma_subrange_subrange(b, off, off + KVM_ENABLE_CAP_SIZE as int, 0, 4);
    lemma_subrange_subrange(b, off, off + KVM_ENABLE_CAP_SIZE as int, 4, 8);
    lemma_subrange_subrange(b, off, off + KVM_ENABLE_CAP_SIZE as int, 8, 16);
    lemma_subrange_subrange(b, off, off + KVM_ENABLE_CAP_SIZE as int, 16, 24);
    lemma_subrange_subrange(b, off, off + KVM_ENABLE_CAP_SIZE as int, 24, 32);
    lemma_subrange_subrange(b, off, off + KVM_ENABLE_CAP_SIZE as int, 32, 40);
    lemma_subrange_subrange(b, off, off + KVM_ENABLE_CAP_SIZE as int, 40, 104);
    lemma_seq_parts(s, 4, 8);
    lemma_seq_parts(s, 8, 16);
    lemma_seq_parts(s, 16, 24);
    lemma_seq_parts(s, 24, 32);
    lemma_seq_parts(s, 32, 40);
    lemma_seq_parts(s, 40, 104);
    assert(s.subrange(0, KVM_ENABLE_CAP_SIZE as int) =~= s);
    assert(v.spec_bytes() == s);
}

/// Field images of a `kvm_enable_cap`, covering one run of fields.
#[verifier::rlimit(100)]
#[verifier::spinoff_prover]
proof fn lemma_kvm_enable_cap_field_images_seg0(x: kvm_enable_cap)
    ensures
        x.spec_bytes().len() == KVM_ENABLE_CAP_SIZE,
        x.spec_bytes().subrange(40, 104) == x.pad@,
        x.spec_bytes().subrange(32, 40) == u64_le_bytes(x.args@[3]),
        x.spec_bytes().subrange(24, 32) == u64_le_bytes(x.args@[2]),
        x.spec_bytes().subrange(16, 24) == u64_le_bytes(x.args@[1]),
        x.spec_bytes().subrange(8, 16) == u64_le_bytes(x.args@[0]),
        x.spec_bytes().subrange(4, 8) == u32_le_bytes(x.flags),
        x.spec_bytes().subrange(0, 4) == u32_le_bytes(x.cap),
{
    lemma_kvm_enable_cap_bytes_len(x);
    let p0 = u32_le_bytes(x.cap);
    let p1 = u32_le_bytes(x.flags);
    let p2 = u64_le_bytes(x.args@[0]);
    let p3 = u64_le_bytes(x.args@[1]);
    let p4 = u64_le_bytes(x.args@[2]);
    let p5 = u64_le_bytes(x.args@[3]);
    let p6 = x.pad@;
    let t1 = p0 + p1;
    let t2 = t1 + p2;
    let t3 = t2 + p3;
    let t4 = t3 + p4;
    let t5 = t4 + p5;
    let t6 = t5 + p6;
    assert(x.spec_bytes() == t6);
    lemma_concat_parts(t5, p6);
    lemma_concat_parts(t4, p5);
    lemma_subrange_subrange(x.spec_bytes(), 0, 40, 0, 32);
    lemma_subrange_subrange(x.spec_bytes(), 0, 40, 32, 40);
    lemma_concat_parts(t3, p4);
    lemma_subrange_subrange(x.spec_bytes(), 0, 32, 0, 24);
    lemma_subrange_subrange(x.spec_bytes(), 0, 32, 24, 32);
    lemma_concat_parts(t2, p3);
    lemma_subrange_subrange(x.spec_bytes(), 0, 24, 0, 16);
    lemma_subrange_subrange(x.spec_bytes(), 0, 24, 16, 24);
    lemma_concat_parts(t1, p2);
    lemma_subrange_subrange(x.spec_bytes(), 0, 16, 0, 8);
    lemma_subrange_subrange(x.spec_bytes(), 0, 16, 8, 16);
    lemma_concat_parts(p0, p1);
    lemma_subrange_subrange(x.spec_bytes(), 0, 8, 0, 4);
    lemma_subrange_subrange(x.spec_bytes(), 0, 8, 4, 8);
}

/// Each field's image stands at its kernel offset inside the image of
/// a `kvm_enable_cap`.
proof fn lemma_kvm_enable_cap_field_images(x: kvm_enable_cap)
    ensures
        x.spec_bytes().len() == KVM_ENABLE_CAP_SIZE,
        x.spec_bytes().subrange(0, 4) == u32_le_bytes(x.cap),
        x.spec_bytes().subrange(4, 8) == u32_le_bytes(x.flags),
        x.spec_bytes().subrange(8, 16) == u64_le_bytes(x.args@[0]),
        x.spec_bytes().subrange(16, 24) == u64_le_bytes(x.args@[1]),
        x.spec_bytes().subrange(24, 32) == u64_le_bytes(x.args@[2]),
        x.spec_bytes().subrange(32, 40) == u64_le_bytes(x.args@[3]),
        x.spec_bytes().subrange(40, 104) == x.pad@,
{
    lemma_kvm_enable_cap_field_images_seg0(x);
}

/// The byte image determines the structure: reading an image back
/// always yields the one value that produced it.
pub proof fn lemma_kvm_enable_cap_image_injective(a: kvm_enable_cap, b: kvm_enable_cap)
    requires
        a.spec_bytes() == b.spec_bytes(),
    ensures
        a == b,
{
    lemma_kvm_enable_cap_field_images(a);
    lemma_kvm_enable_cap_field_images(b);
    lemma_u32_le_roundtrip(a.cap);
    lemma_u32_le_roundtrip(b.cap);
    lemma_u32_le_roundtrip(a.flags);
    lemma_u32_le_roundtrip(b.flags);
    lemma_u64_le_roundtrip(a.args@[0]);
    lemma_u64_le_roundtrip(b.args@[0]);
    lemma_u64_le_roundtrip(a.args@[1]);
    lemma_u64_le_roundtrip(b.args@[1]);
    lemma_u64_le_roundtrip(a.args@[2]);
    lemma_u64_le_roundtrip(b.args@[2]);
    lemma_u64_le_roundtrip(a.args@[3]);
    lemma_u64_le_roundtrip(b.args@[3]);
    assert(a.args@ =~= b.args@);
    assert(a.pad@ =~= b.pad@);
    assert(a =~= b);
}

/// A `kvm_enable_cap` whose fields are all zero has an all-zero byte image,
/// the image of a zeroed ioctl argument buffer.
pub proof fn lemma_kvm_enable_cap_zero_image(x: kvm_enable_cap)
    requires
        x.is_zeroed(),
    ensures
        x.spec_bytes() == zero_bytes(KVM_ENABLE_CAP_SIZE as int),
{
    lemma_le_bytes_zero();
    lemma_zero_bytes_split(4, 8);
    lemma_zero_bytes_split(8, 16);
    lemma_zero_bytes_split(16, 24);
    lemma_zero_bytes_split(24, 32);
    lemma_zero_bytes_split(32, 40);
    lemma_zero_bytes_split(40, 104);
    assert(x.spec_bytes() == zero_bytes(KVM_ENABLE_CAP_SIZE as int));
}

} // verus!
