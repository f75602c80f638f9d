//! Interrupt-controller state: PIC, IOAPIC and interrupt-line structures.
//!
//! The IOAPIC redirection-table entry is the kernel's union of one 64-bit
//! word and a packed field structure; `kvm_irq_level` starts with a union
//! of an IRQ number and a status.  Each union is modelled as one shared
//! backing buffer with a typed accessor per interpretation: as in the
//! kernel's C unions, no tag is stored, and the interpretation written
//! last is the one to read back.

use vstd::prelude::*;

verus! {

broadcast use vstd::array::group_array_axioms;

use crate::bitfield::__BindgenBitfieldUnit;
use crate::bitfield::lemma_unit_bytes_injective;
use crate::bitfield::lemma_unit_bytes_len;
use crate::bitfield::lemma_unit_read_bound;
use crate::bitfield::lemma_unit_read_frame;
use crate::bitfield::lemma_unit_read_write_roundtrip;
use crate::bitfield::low_mask;
use crate::bitfield::unit_read;
use crate::bitfield::unit_write;
use crate::codec::CodecError;
use crate::codec::i32_le_bytes;
use crate::codec::i32_of_le_bytes;
use crate::codec::lemma_concat_assoc;
use crate::codec::lemma_concat_empty_left;
use crate::codec::lemma_concat_parts;
use crate::codec::lemma_le_bytes_zero;
use crate::codec::lemma_seq_parts;
use crate::codec::lemma_subrange_subrange;
use crate::codec::lemma_u32_le_bytes_of;
use crate::codec::lemma_u32_le_roundtrip;
use crate::codec::lemma_u64_le_bytes_of;
use crate::codec::lemma_u64_le_roundtrip;
use crate::codec::lemma_zero_bytes_split;
use crate::codec::push_u32_le;
use crate::codec::push_u64_le;
use crate::codec::push_u8;
use crate::codec::push_u8s;
use crate::codec::read_u32_le;
use crate::codec::read_u64_le;
use crate::codec::read_u8;
use crate::codec::read_u8s;
use crate::codec::u32_le_bytes;
use crate::codec::u32_of_le_bytes;
use crate::codec::u64_le_bytes;
use crate::codec::u64_of_le_bytes;
use crate::codec::zero_bytes;

/// Byte size of one IOAPIC redirection-table entry.
pub const KVM_IOAPIC_REDIR_SIZE: usize = 8;

/// One IOAPIC redirection-table entry: the same eight bytes read either as
/// one 64-bit word (`bits`) or as the packed field structure (`fields`).
#[derive(Clone, Copy, Debug, PartialEq)]
#[verifier::ext_equal]
pub struct kvm_ioapic_state__bindgen_ty_1 {
    storage: [u8; 8],
    align: [u64; 0],
}

impl kvm_ioapic_state__bindgen_ty_1 {
    /// The shared backing bytes of the union.
    pub closed spec fn spec_bytes(self) -> Seq<u8> {
        self.storage@
    }

    /// All backing bytes zero.
    pub open spec fn is_zeroed(self) -> bool {
        self.spec_bytes() == zero_bytes(8)
    }

    /// Wraps eight caller-supplied bytes.
    pub fn new(storage: [u8; 8]) -> (r: Self)
        ensures
            r.spec_bytes() == storage@,
    {
        Self { storage, align: [] }
    }

    /// The `bits` interpretation: the bytes as one little-endian word.
    pub fn bits(&self) -> (r: u64)
        ensures
            r == u64_of_le_bytes(self.spec_bytes()),
    {
        let r = read_u64_le(vstd::array::array_as_slice(&self.storage), 0);
        proof {
            assert(self.storage@.subrange(0, 8) =~= self.storage@);
        }
        r
    }

    /// Overwrites the shared bytes through the `bits` interpretation.
    pub fn set_bits(&mut self, val: u64)
        ensures
            final(self).spec_bytes() == u64_le_bytes(val),
    {
        self.storage = [
            (val & 0xff) as u8,
            ((val >> 8) & 0xff) as u8,
            ((val >> 16) & 0xff) as u8,
            ((val >> 24) & 0xff) as u8,
            ((val >> 32) & 0xff) as u8,
            ((val >> 40) & 0xff) as u8,
            ((val >> 48) & 0xff) as u8,
            ((val >> 56) & 0xff) as u8,
        ];
        proof {
            assert(self.storage@ =~= u64_le_bytes(val));
        }
    }

    /// The `fields` interpretation: the bytes as the packed structure.
    pub fn fields(&self) -> (r: kvm_ioapic_state__bindgen_ty_1__bindgen_ty_1)
        ensures
            r.spec_bytes() == self.spec_bytes(),
    {
        let r = kvm_ioapic_state__bindgen_ty_1__bindgen_ty_1::read_at(
            vstd::array::array_as_slice(&self.storage),
            0,
        );
        proof {
            assert(self.storage@.subrange(0, 8) =~= self.storage@);
        }
        r
    }

    /// Overwrites the shared bytes through the `fields` interpretation.
    pub fn set_fields(&mut self, val: kvm_ioapic_state__bindgen_ty_1__bindgen_ty_1)
        ensures
            final(self).spec_bytes() == val.spec_bytes(),
    {
        let bytes = val.to_bytes();
        self.storage = read_u8s::<8>(bytes.as_slice(), 0);
        proof {
            assert(bytes@.subrange(0, 8) =~= bytes@);
        }
    }

    /// Appends the image of `self` to `out`.
    pub fn push_image(&self, out: &mut Vec<u8>)
        ensures
            final(out)@ == old(out)@ + self.spec_bytes(),
    {
        push_u8s(out, &self.storage);
    }

    /// The image of `self` as a fresh buffer.
    pub fn to_bytes(&self) -> (out: Vec<u8>)
        ensures
            out@ == self.spec_bytes(),
            out@.len() == KVM_IOAPIC_REDIR_SIZE,
    {
        let mut out: Vec<u8> = Vec::new();
        self.push_image(&mut out);
        proof {
            lemma_concat_empty_left(self.spec_bytes());
        }
        out
    }

    /// Reads the entry whose image starts at offset `off` of `buf`.
    pub fn read_at(buf: &[u8], off: usize) -> (v: Self)
        requires
            off + KVM_IOAPIC_REDIR_SIZE <= buf@.len(),
        ensures
            v.spec_bytes() == buf@.subrange(off as int, off as int + KVM_IOAPIC_REDIR_SIZE),
    {
        Self { storage: read_u8s::<8>(buf, off), align: [] }
    }

    /// Reads an entry image from the start of `buf`, failing when the
    /// buffer is too short to hold one.
    pub fn from_bytes(buf: &[u8]) -> (r: Result<Self, CodecError>)
        ensures
            buf@.len() < KVM_IOAPIC_REDIR_SIZE ==> r == Err::<
                kvm_ioapic_state__bindgen_ty_1,
                CodecError,
            >(CodecError::IncompleteBuffer),
            buf@.len() >= KVM_IOAPIC_REDIR_SIZE ==> (r matches Ok(v) && v.spec_bytes()
                == buf@.subrange(0, KVM_IOAPIC_REDIR_SIZE as int)),
    {
        if buf.len() < KVM_IOAPIC_REDIR_SIZE {
            Err(CodecError::IncompleteBuffer)
        } else {
            Ok(Self::read_at(buf, 0))
        }
    }
}

impl Default for kvm_ioapic_state__bindgen_ty_1 {
    /// A zero-filled union, the zeroed ioctl argument convention.
    fn default() -> (r: Self)
        ensures
            r.is_zeroed(),
    {
        let r = Self { storage: vstd::array::array_fill_for_copy_types::<u8, 8>(0u8), align: [] };
        proof {
            assert(r.storage@ =~= zero_bytes(8));
        }
        r
    }
}

/// The image of a redirection-table entry is exactly 8 bytes.
pub proof fn lemma_kvm_ioapic_state__bindgen_ty_1_bytes_len(x: kvm_ioapic_state__bindgen_ty_1)
    ensures
        x.spec_bytes().len() == KVM_IOAPIC_REDIR_SIZE,
{
}

/// The byte image determines the entry: the union holds nothing besides
/// its shared bytes.
pub proof fn lemma_kvm_ioapic_state__bindgen_ty_1_image_injective(
    a: kvm_ioapic_state__bindgen_ty_1,
    b: kvm_ioapic_state__bindgen_ty_1,
)
    requires
        a.spec_bytes() == b.spec_bytes(),
    ensures
        a == b,
{
    assert(a.storage@ =~= b.storage@);
    assert(a.align@ =~= b.align@);
    assert(a =~= b);
}

/// A zero-filled entry has an all-zero byte image.
pub proof fn lemma_kvm_ioapic_state__bindgen_ty_1_zero_image(x: kvm_ioapic_state__bindgen_ty_1)
    requires
        x.is_zeroed(),
    ensures
        x.spec_bytes() == zero_bytes(KVM_IOAPIC_REDIR_SIZE as int),
{
}

/// Small shifted constants: the masks of the packed sub-field widths.
proof fn lemma_small_shifts()
    by (bit_vector)
    ensures
        (1u64 << 1u64) == 2,
        (1u64 << 3u64) == 8,
        (1u64 << 7u64) == 128,
{
}

impl kvm_ioapic_state__bindgen_ty_1__bindgen_ty_1 {
    /// Reads the `delivery_mode` sub-field: bits 0 .. 3 of the packed word.
    pub fn delivery_mode(&self) -> (r: u8)
        ensures
            r as u64 == unit_read(self._bitfield_1@, 0, 3),
    {
        proof {
            lemma_small_shifts();
            lemma_unit_read_bound(self._bitfield_1@, 0, 3);
        }
        self._bitfield_1.get(0, 3) as u8
    }

    /// Writes the `delivery_mode` sub-field; no other bit changes.
    pub fn set_delivery_mode(&mut self, val: u8)
        ensures
            final(self)._bitfield_1@ == unit_write(old(self)._bitfield_1@, 0, 3, val as u64),
            final(self).vector == old(self).vector,
            final(self).reserved == old(self).reserved,
            final(self).dest_id == old(self).dest_id,
    {
        self._bitfield_1.set(0, 3, val as u64);
    }

    /// Reads the `dest_mode` sub-field: bit 3 of the packed word.
    pub fn dest_mode(&self) -> (r: u8)
        ensures
            r as u64 == unit_read(self._bitfield_1@, 3, 1),
    {
        proof {
            lemma_small_shifts();
            lemma_unit_read_bound(self._bitfield_1@, 3, 1);
        }
        self._bitfield_1.get(3, 1) as u8
    }

    /// Writes the `dest_mode` sub-field; no other bit changes.
    pub fn set_dest_mode(&mut self, val: u8)
        ensures
            final(self)._bitfield_1@ == unit_write(old(self)._bitfield_1@, 3, 1, val as u64),
            final(self).vector == old(self).vector,
            final(self).reserved == old(self).reserved,
            final(self).dest_id == old(self).dest_id,
    {
        self._bitfield_1.set(3, 1, val as u64);
    }

    /// Reads the `delivery_status` sub-field: bit 4 of the packed word.
    pub fn delivery_status(&self) -> (r: u8)
        ensures
            r as u64 == unit_read(self._bitfield_1@, 4, 1),
    {
        proof {
            lemma_small_shifts();
            lemma_unit_read_bound(self._bitfield_1@, 4, 1);
        }
        self._bitfield_1.get(4, 1) as u8
    }

    /// Writes the `delivery_status` sub-field; no other bit changes.
    pub fn set_delivery_status(&mut self, val: u8)
        ensures
            final(self)._bitfield_1@ == unit_write(old(self)._bitfield_1@, 4, 1, val as u64),
            final(self).vector == old(self).vector,
            final(self).reserved == old(self).reserved,
            final(self).dest_id == old(self).dest_id,
    {
        self._bitfield_1.set(4, 1, val as u64);
    }

    /// Reads the `polarity` sub-field: bit 5 of the packed word.
    pub fn polarity(&self) -> (r: u8)
        ensures
            r as u64 == unit_read(self._bitfield_1@, 5, 1),
    {
        proof {
            lemma_small_shifts();
            lemma_unit_read_bound(self._bitfield_1@, 5, 1);
        }
        self._bitfield_1.get(5, 1) as u8
    }

    /// Writes the `polarity` sub-field; no other bit changes.
    pub fn set_polarity(&mut self, val: u8)
        ensures
            final(self)._bitfield_1@ == unit_write(old(self)._bitfield_1@, 5, 1, val as u64),
            final(self).vector == old(self).vector,
            final(self).reserved == old(self).reserved,
            final(self).dest_id == old(self).dest_id,
    {
        self._bitfield_1.set(5, 1, val as u64);
    }

    /// Reads the `remote_irr` sub-field: bit 6 of the packed word.
    pub fn remote_irr(&self) -> (r: u8)
        ensures
            r as u64 == unit_read(self._bitfield_1@, 6, 1),
    {
        proof {
            lemma_small_shifts();
            lemma_unit_read_bound(self._bitfield_1@, 6, 1);
        }
        self._bitfield_1.get(6, 1) as u8
    }

    /// Writes the `remote_irr` sub-field; no other bit changes.
    pub fn set_remote_irr(&mut self, val: u8)
        ensures
            final(self)._bitfield_1@ == unit_write(old(self)._bitfield_1@, 6, 1, val as u64),
            final(self).vector == old(self).vector,
            final(self).reserved == old(self).reserved,
            final(self).dest_id == old(self).dest_id,
    {
        self._bitfield_1.set(6, 1, val as u64);
    }

    /// Reads the `trig_mode` sub-field: bit 7 of the packed word.
    pub fn trig_mode(&self) -> (r: u8)
        ensures
            r as u64 == unit_read(self._bitfield_1@, 7, 1),
    {
        proof {
            lemma_small_shifts();
            lemma_unit_read_bound(self._bitfield_1@, 7, 1);
        }
        self._bitfield_1.get(7, 1) as u8
    }

    /// Writes the `trig_mode` sub-field; no other bit changes.
    pub fn set_trig_mode(&mut self, val: u8)
        ensures
            final(self)._bitfield_1@ == unit_write(old(self)._bitfield_1@, 7, 1, val as u64),
            final(self).vector == old(self).vector,
            final(self).reserved == old(self).reserved,
            final(self).dest_id == old(self).dest_id,
    {
        self._bitfield_1.set(7, 1, val as u64);
    }

    /// Reads the `mask` sub-field: bit 8 of the packed word.
    pub fn mask(&self) -> (r: u8)
        ensures
            r as u64 == unit_read(self._bitfield_1@, 8, 1),
    {
        proof {
            lemma_small_shifts();
            lemma_unit_read_bound(self._bitfield_1@, 8, 1);
        }
        self._bitfield_1.get(8, 1) as u8
    }

    /// Writes the `mask` sub-field; no other bit changes.
    pub fn set_mask(&mut self, val: u8)
        ensures
            final(self)._bitfield_1@ == unit_write(old(self)._bitfield_1@, 8, 1, val as u64),
            final(self).vector == old(self).vector,
            final(self).reserved == old(self).reserved,
            final(self).dest_id == old(self).dest_id,
    {
        self._bitfield_1.set(8, 1, val as u64);
    }

    /// Reads the `reserve` sub-field: bits 9 .. 16 of the packed word.
    pub fn reserve(&self) -> (r: u8)
        ensures
            r as u64 == unit_read(self._bitfield_1@, 9, 7),
    {
        proof {
            lemma_small_shifts();
            lemma_unit_read_bound(self._bitfield_1@, 9, 7);
        }
        self._bitfield_1.get(9, 7) as u8
    }

    /// Writes the `reserve` sub-field; no other bit changes.
    pub fn set_reserve(&mut self, val: u8)
        ensures
            final(self)._bitfield_1@ == unit_write(old(self)._bitfield_1@, 9, 7, val as u64),
            final(self).vector == old(self).vector,
            final(self).reserved == old(self).reserved,
            final(self).dest_id == old(self).dest_id,
    {
        self._bitfield_1.set(9, 7, val as u64);
    }

    /// Packs the eight sub-fields into a fresh 16-bit unit.  Reading any
    /// sub-field range back yields the value given for it, truncated to
    /// the range's width.
    pub fn new_bitfield_1(
        delivery_mode: u8,
        dest_mode: u8,
        delivery_status: u8,
        polarity: u8,
        remote_irr: u8,
        trig_mode: u8,
        mask: u8,
        reserve: u8,
    ) -> (r: __BindgenBitfieldUnit<2>)
        ensures
            unit_read(r@, 0, 3) == delivery_mode as u64 & low_mask(3),
            unit_read(r@, 3, 1) == dest_mode as u64 & low_mask(1),
            unit_read(r@, 4, 1) == delivery_status as u64 & low_mask(1),
            unit_read(r@, 5, 1) == polarity as u64 & low_mask(1),
            unit_read(r@, 6, 1) == remote_irr as u64 & low_mask(1),
            unit_read(r@, 7, 1) == trig_mode as u64 & low_mask(1),
            unit_read(r@, 8, 1) == mask as u64 & low_mask(1),
            unit_read(r@, 9, 7) == reserve as u64 & low_mask(7),
    {
        let mut u: __BindgenBitfieldUnit<2> = __BindgenBitfieldUnit::new(
            vstd::array::array_fill_for_copy_types::<u8, 2>(0u8),
        );
        let ghost s0 = u@;
        u.set(0, 3, delivery_mode as u64);
        let ghost s1 = u@;
        u.set(3, 1, dest_mode as u64);
        let ghost s2 = u@;
        u.set(4, 1, delivery_status as u64);
        let ghost s3 = u@;
        u.set(5, 1, polarity as u64);
        let ghost s4 = u@;
        u.set(6, 1, remote_irr as u64);
        let ghost s5 = u@;
        u.set(7, 1, trig_mode as u64);
        let ghost s6 = u@;
        u.set(8, 1, mask as u64);
        let ghost s7 = u@;
        u.set(9, 7, reserve as u64);
        let ghost s8 = u@;
        proof {
            lemma_unit_read_write_roundtrip(s0, 0, 3, delivery_mode as u64);
            lemma_unit_read_frame(s2, s1, 0, 3);
            lemma_unit_read_frame(s3, s2, 0, 3);
            lemma_unit_read_frame(s4, s3, 0, 3);
            lemma_unit_read_frame(s5, s4, 0, 3);
            lemma_unit_read_frame(s6, s5, 0, 3);
            lemma_unit_read_frame(s7, s6, 0, 3);
            lemma_unit_read_frame(s8, s7, 0, 3);
            lemma_unit_read_write_roundtrip(s1, 3, 1, dest_mode as u64);
            lemma_unit_read_frame(s3, s2, 3, 1);
            lemma_unit_read_frame(s4, s3, 3, 1);
            lemma_unit_read_frame(s5, s4, 3, 1);
            lemma_unit_read_frame(s6, s5, 3, 1);
            lemma_unit_read_frame(s7, s6, 3, 1);
            lemma_unit_read_frame(s8, s7, 3, 1);
            lemma_unit_read_write_roundtrip(s2, 4, 1, delivery_status as u64);
            lemma_unit_read_frame(s4, s3, 4, 1);
            lemma_unit_read_frame(s5, s4, 4, 1);
            lemma_unit_read_frame(s6, s5, 4, 1);
            lemma_unit_read_frame(s7, s6, 4, 1);
            lemma_unit_read_frame(s8, s7, 4, 1);
            lemma_unit_read_write_roundtrip(s3, 5, 1, polarity as u64);
            lemma_unit_read_frame(s5, s4, 5, 1);
            lemma_unit_read_frame(s6, s5, 5, 1);
            lemma_unit_read_frame(s7, s6, 5, 1);
            lemma_unit_read_frame(s8, s7, 5, 1);
            lemma_unit_read_write_roundtrip(s4, 6, 1, remote_irr as u64);
            lemma_unit_read_frame(s6, s5, 6, 1);
            lemma_unit_read_frame(s7, s6, 6, 1);
            lemma_unit_read_frame(s8, s7, 6, 1);
            lemma_unit_read_write_roundtrip(s5, 7, 1, trig_mode as u64);
            lemma_unit_read_frame(s7, s6, 7, 1);
            lemma_unit_read_frame(s8, s7, 7, 1);
            lemma_unit_read_write_roundtrip(s6, 8, 1, mask as u64);
            lemma_unit_read_frame(s8, s7, 8, 1);
            lemma_unit_read_write_roundtrip(s7, 9, 7, reserve as u64);
        }
        u
    }
}

/// Byte size of the `kvm_irq_level` anonymous union.
pub const KVM_IRQ_LEVEL_UNION_SIZE: usize = 4;

/// The anonymous union at the head of `kvm_irq_level`: the same four
/// bytes read either as the IRQ number (`irq`) or as a status (`status`).
#[derive(Clone, Copy, Debug, PartialEq)]
#[verifier::ext_equal]
pub struct kvm_irq_level__bindgen_ty_1 {
    storage: [u8; 4],
    align: [u32; 0],
}

impl kvm_irq_level__bindgen_ty_1 {
    /// The shared backing bytes of the union.
    pub closed spec fn spec_bytes(self) -> Seq<u8> {
        self.storage@
    }

    /// All backing bytes zero.
    pub open spec fn is_zeroed(self) -> bool {
        self.spec_bytes() == zero_bytes(4)
    }

    /// The `irq` interpretation: the bytes as an unsigned line number.
    pub fn irq(&self) -> (r: u32)
        ensures
            r == u32_of_le_bytes(self.spec_bytes()),
    {
        let r = read_u32_le(vstd::array::array_as_slice(&self.storage), 0);
        proof {
            assert(self.storage@.subrange(0, 4) =~= self.storage@);
        }
        r
    }

    /// Overwrites the shared bytes through the `irq` interpretation.
    pub fn set_irq(&mut self, val: u32)
        ensures
            final(self).spec_bytes() == u32_le_bytes(val),
    {
        self.storage = [
            (val & 0xff) as u8,
            ((val >> 8) & 0xff) as u8,
            ((val >> 16) & 0xff) as u8,
            ((val >> 24) & 0xff) as u8,
        ];
        proof {
            assert(self.storage@ =~= u32_le_bytes(val));
        }
    }

    /// The `status` interpretation: the same bytes as a signed status.
    pub fn status(&self) -> (r: i32)
        ensures
            r == i32_of_le_bytes(self.spec_bytes()),
    {
        let r = read_u32_le(vstd::array::array_as_slice(&self.storage), 0) as i32;
        proof {
            assert(self.storage@.subrange(0, 4) =~= self.storage@);
        }
        r
    }

    /// Overwrites the shared bytes through the `status` interpretation.
    pub fn set_status(&mut self, val: i32)
        ensures
            final(self).spec_bytes() == i32_le_bytes(val),
    {
        self.set_irq(val as u32);
    }

    /// Appends the image of `self` to `out`.
    pub fn push_image(&self, out: &mut Vec<u8>)
        ensures
            final(out)@ == old(out)@ + self.spec_bytes(),
    {
        push_u8s(out, &self.storage);
    }

    /// The image of `self` as a fresh buffer.
    pub fn to_bytes(&self) -> (out: Vec<u8>)
        ensures
            out@ == self.spec_bytes(),
            out@.len() == KVM_IRQ_LEVEL_UNION_SIZE,
    {
        let mut out: Vec<u8> = Vec::new();
        self.push_image(&mut out);
        proof {
            lemma_concat_empty_left(self.spec_bytes());
        }
        out
    }

    /// Reads the union whose image starts at offset `off` of `buf`.
    pub fn read_at(buf: &[u8], off: usize) -> (v: Self)
        requires
            off + KVM_IRQ_LEVEL_UNION_SIZE <= buf@.len(),
        ensures
            v.spec_bytes() == buf@.subrange(off as int, off as int + KVM_IRQ_LEVEL_UNION_SIZE),
    {
        Self { storage: read_u8s::<4>(buf, off), align: [] }
    }

    /// Reads a union image from the start of `buf`, failing when the
    /// buffer is too short to hold one.
    pub fn from_bytes(buf: &[u8]) -> (r: Result<Self, CodecError>)
        ensures
            buf@.len() < KVM_IRQ_LEVEL_UNION_SIZE ==> r == Err::<
                kvm_irq_level__bindgen_ty_1,
                CodecError,
            >(CodecError::IncompleteBuffer),
            buf@.len() >= KVM_IRQ_LEVEL_UNION_SIZE ==> (r matches Ok(v) && v.spec_bytes()
                == buf@.subrange(0, KVM_IRQ_LEVEL_UNION_SIZE as int)),
    {
        if buf.len() < KVM_IRQ_LEVEL_UNION_SIZE {
            Err(CodecError::IncompleteBuffer)
        } else {
            Ok(Self::read_at(buf, 0))
        }
    }
}

impl Default for kvm_irq_level__bindgen_ty_1 {
    /// A zero-filled union, the zeroed ioctl argument convention.
    fn default() -> (r: Self)
        ensures
            r.is_zeroed(),
    {
        let r = Self { storage: vstd::array::array_fill_for_copy_types::<u8, 4>(0u8), align: [] };
        proof {
            assert(r.storage@ =~= zero_bytes(4));
        }
        r
    }
}

/// The image of the interrupt-line union is exactly 4 bytes.
pub proof fn lemma_kvm_irq_level__bindgen_ty_1_bytes_len(x: kvm_irq_level__bindgen_ty_1)
    ensures
        x.spec_bytes().len() == KVM_IRQ_LEVEL_UNION_SIZE,
{
}

/// The byte image determines the union: it holds nothing besides its
/// shared bytes.
pub proof fn lemma_kvm_irq_level__bindgen_ty_1_image_injective(
    a: kvm_irq_level__bindgen_ty_1,
    b: kvm_irq_level__bindgen_ty_1,
)
    requires
        a.spec_bytes() == b.spec_bytes(),
    ensures
        a == b,
{
    assert(a.storage@ =~= b.storage@);
    assert(a.align@ =~= b.align@);
    assert(a =~= b);
}

/// A zero-filled union has an all-zero byte image.
pub proof fn lemma_kvm_irq_level__bindgen_ty_1_zero_image(x: kvm_irq_level__bindgen_ty_1)
    requires
        x.is_zeroed(),
    ensures
        x.spec_bytes() == zero_bytes(KVM_IRQ_LEVEL_UNION_SIZE as int),
{
}

/// Byte size of the `kvm_ioapic_state__bindgen_ty_1__bindgen_ty_1` kernel image.
pub const KVM_IOAPIC_REDIR_FIELDS_SIZE: usize = 8;

/// The packed field structure of a redirection-table entry: the vector,
/// a 16-bit run of sub-byte flags, reserved bytes and the destination.
#[derive(Clone, Copy, Debug, PartialEq)]
#[verifier::ext_equal]
pub struct kvm_ioapic_state__bindgen_ty_1__bindgen_ty_1 {
    pub vector: u8,
    pub _bitfield_1: __BindgenBitfieldUnit<2>,
    pub reserved: [u8; 4],
    pub dest_id: u8,
}

impl kvm_ioapic_state__bindgen_ty_1__bindgen_ty_1 {
    /// The 8-byte kernel image of `self`: every field little-endian
    /// at its kernel offset.
    pub open spec fn spec_bytes(self) -> Seq<u8> {
        seq![self.vector] + self._bitfield_1.bytes() + self.reserved@ + seq![self.dest_id]
    }

    /// Every field of `self` holds zero.
    pub open spec fn is_zeroed(self) -> bool {
        self.vector == 0 && self._bitfield_1.bytes() == zero_bytes(2) && self.reserved@ == zero_bytes(4) && self.dest_id == 0
    }

    /// Appends the image of `self` to `out`.
    pub fn push_image(&self, out: &mut Vec<u8>)
        ensures
            final(out)@ == old(out)@ + self.spec_bytes(),
    {
        let ghost base: Seq<u8> = out@;
        push_u8(out, self.vector);
        let ghost mut acc: Seq<u8> = seq![self.vector];
        push_u8s(out, self._bitfield_1.as_bytes());
        proof {
            lemma_concat_assoc(base, acc, self._bitfield_1.bytes());
            acc = acc + (self._bitfield_1.bytes());
        }
        push_u8s(out, &self.reserved);
        proof {
            lemma_concat_assoc(base, acc, self.reserved@);
            acc = acc + (self.reserved@);
        }
        push_u8(out, self.dest_id);
        proof {
            lemma_concat_assoc(base, acc, seq![self.dest_id]);
            acc = acc + (seq![self.dest_id]);
        }
        proof {
            assert(out@ == base + acc);
            assert(acc == self.spec_bytes());
        }
    }

    /// The image of `self` as a fresh buffer.
    pub fn to_bytes(&self) -> (out: Vec<u8>)
        ensures
            out@ == self.spec_bytes(),
            out@.len() == KVM_IOAPIC_REDIR_FIELDS_SIZE,
    {
        let mut out: Vec<u8> = Vec::new();
        self.push_image(&mut out);
        proof {
            lemma_concat_empty_left(self.spec_bytes());
            lemma_kvm_ioapic_state__bindgen_ty_1__bindgen_ty_1_bytes_len(*self);
        }
        out
    }

    /// Reads the structure whose image starts at offset `off` of `buf`.
    pub fn read_at(buf: &[u8], off: usize) -> (v: Self)
        requires
            off + KVM_IOAPIC_REDIR_FIELDS_SIZE <= buf@.len(),
        ensures
            v.spec_bytes() == buf@.subrange(off as int, off as int + KVM_IOAPIC_REDIR_FIELDS_SIZE),
    {
        let n: usize = buf.len();
        proof {
            assert(off + KVM_IOAPIC_REDIR_FIELDS_SIZE <= n);
        }
        let v = kvm_ioapic_state__bindgen_ty_1__bindgen_ty_1 {
            vector: read_u8(buf, off),
            _bitfield_1: __BindgenBitfieldUnit::new(read_u8s::<2>(buf, off + 1)),
            reserved: read_u8s::<4>(buf, off + 3),
            dest_id: read_u8(buf, off + 7),
        };
        proof {
            lemma_kvm_ioapic_state__bindgen_ty_1__bindgen_ty_1_read_at(v, buf@, off as int);
        }
        v
    }

    /// Reads a structure image from the start of `buf`, failing when the
    /// buffer is too short to hold one.
    pub fn from_bytes(buf: &[u8]) -> (r: Result<Self, CodecError>)
        ensures
            buf@.len() < KVM_IOAPIC_REDIR_FIELDS_SIZE ==> r == Err::<kvm_ioapic_state__bindgen_ty_1__bindgen_ty_1, CodecError>(
                CodecError::IncompleteBuffer,
            ),
            buf@.len() >= KVM_IOAPIC_REDIR_FIELDS_SIZE ==> (r matches Ok(v) && v.spec_bytes() == buf@.subrange(
                0,
                KVM_IOAPIC_REDIR_FIELDS_SIZE as int,
            )),
    {
        if buf.len() < KVM_IOAPIC_REDIR_FIELDS_SIZE {
            Err(CodecError::IncompleteBuffer)
        } else {
            Ok(Self::read_at(buf, 0))
        }
    }
}

impl Default for kvm_ioapic_state__bindgen_ty_1__bindgen_ty_1 {
    /// Every field zero: the zeroed ioctl argument convention.
    fn default() -> (r: Self)
        ensures
            r.is_zeroed(),
    {
        let r = kvm_ioapic_state__bindgen_ty_1__bindgen_ty_1 {
            vector: 0,
            _bitfield_1: __BindgenBitfieldUnit::new(vstd::array::array_fill_for_copy_types::<u8, 2>(0u8)),
            reserved: vstd::array::array_fill_for_copy_types::<u8, 4>(0u8),
            dest_id: 0,
        };
        proof {
            assert(r._bitfield_1.bytes() =~= zero_bytes(2));
            assert(r.reserved@ =~= zero_bytes(4));
        }
        r
    }
}

/// The image of a `kvm_ioapic_state__bindgen_ty_1__bindgen_ty_1` is exactly 8 bytes.
pub proof fn lemma_kvm_ioapic_state__bindgen_ty_1__bindgen_ty_1_bytes_len(x: kvm_ioapic_state__bindgen_ty_1__bindgen_ty_1)
    ensures
        x.spec_bytes().len() == KVM_IOAPIC_REDIR_FIELDS_SIZE,
{
    lemma_unit_bytes_len(x._bitfield_1);
}

/// A `kvm_ioapic_state__bindgen_ty_1__bindgen_ty_1` whose fields were decoded from a buffer has that
/// buffer segment as its image.
#[verifier::rlimit(100)]
#[verifier::spinoff_prover]
proof fn lemma_kvm_ioapic_state__bindgen_ty_1__bindgen_ty_1_read_at(v: kvm_ioapic_state__bindgen_ty_1__bindgen_ty_1, b: Seq<u8>, off: int)
    requires
        0 <= off,
        off + KVM_IOAPIC_REDIR_FIELDS_SIZE <= b.len(),
        v.vector == b[off + 0],
        v._bitfield_1.bytes() == b.subrange(off + 1, off + 3),
        v.reserved@ == b.subrange(off + 3, off + 7),
        v.dest_id == b[off + 7],
    ensures
        v.spec_bytes() == b.subrange(off, off + KVM_IOAPIC_REDIR_FIELDS_SIZE),
{
    let s = b.subrange(off, off + KVM_IOAPIC_REDIR_FIELDS_SIZE as int);
    assert(seq![v.vector] =~= b.subrange(off + 0, off + 1));
    assert(seq![v.dest_id] =~= b.subrange(off + 7, off + 8));
    lemma_subrange_subrange(b, off, off + KVM_IOAPIC_REDIR_FIELDS_SIZE as int, 0, 1);
    lemma_subrange_subrange(b, off, off + KVM_IOAPIC_REDIR_FIELDS_SIZE as int, 1, 3);
    lemma_subrange_subrange(b, off, off + KVM_IOAPIC_REDIR_FIELDS_SIZE as int, 3, 7);
    lemma_subrange_subrange(b, off, off + KVM_IOAPIC_REDIR_FIELDS_SIZE as int, 7, 8);
    lemma_seq_parts(s, 1, 3);
    lemma_seq_parts(s, 3, 7);
    lemma_seq_parts(s, 7, 8);
    assert(s.subrange(0, KVM_IOAPIC_REDIR_FIELDS_SIZE as int) =~= s);
    assert(v.spec_bytes() == s);
}

/// Field images of a `kvm_ioapic_state__bindgen_ty_1__bindgen_ty_1`, covering one run of fields.
#[verifier::rlimit(100)]
#[verifier::spinoff_prover]
proof fn lemma_kvm_ioapic_state__bindgen_ty_1__bindgen_ty_1_field_images_seg0(x: kvm_ioapic_state__bindgen_ty_1__bindgen_ty_1)
    ensures
        x.spec_bytes().len() == KVM_IOAPIC_REDIR_FIELDS_SIZE,
        x.spec_bytes().subrange(7, 8) == seq![x.dest_id],
        x.spec_bytes().subrange(3, 7) == x.reserved@,
        x.spec_bytes().subrange(1, 3) == x._bitfield_1.bytes(),
        x.spec_bytes().subrange(0, 1) == seq![x.vector],
{
    lemma_kvm_ioapic_state__bindgen_ty_1__bindgen_ty_1_bytes_len(x);
    lemma_unit_bytes_len(x._bitfield_1);
    let p0 = seq![x.vector];
    let p1 = x._bitfield_1.bytes();
    let p2 = x.reserved@;
    let p3 = seq![x.dest_id];
    let t1 = p0 + p1;
    let t2 = t1 + p2;
    let t3 = t2 + p3;
    assert(x.spec_bytes() == t3);
    lemma_concat_parts(t2, p3);
    lemma_concat_parts(t1, p2);
    lemma_subrange_subrange(x.spec_bytes(), 0, 7, 0, 3);
    lemma_subrange_subrange(x.spec_bytes(), 0, 7, 3, 7);
    lemma_concat_parts(p0, p1);
    lemma_subrange_subrange(x.spec_bytes(), 0, 3, 0, 1);
    lemma_subrange_subrange(x.spec_bytes(), 0, 3, 1, 3);
}

/// Each field's image stands at its kernel offset inside the image of
/// a `kvm_ioapic_state__bindgen_ty_1__bindgen_ty_1`.
proof fn lemma_kvm_ioapic_state__bindgen_ty_1__bindgen_ty_1_field_images(x: kvm_ioapic_state__bindgen_ty_1__bindgen_ty_1)
    ensures
        x.spec_bytes().len() == KVM_IOAPIC_REDIR_FIELDS_SIZE,
        x.spec_bytes().subrange(0, 1) == seq![x.vector],
        x.spec_bytes().subrange(1, 3) == x._bitfield_1.bytes(),
        x.spec_bytes().subrange(3, 7) == x.reserved@,
        x.spec_bytes().subrange(7, 8) == seq![x.dest_id],
{
    lemma_kvm_ioapic_state__bindgen_ty_1__bindgen_ty_1_field_images_seg0(x);
}

/// The byte image determines the structure: reading an image back
/// always yields the one value that produced it.
pub proof fn lemma_kvm_ioapic_state__bindgen_ty_1__bindgen_ty_1_image_injective(a: kvm_ioapic_state__bindgen_ty_1__bindgen_ty_1, b: kvm_ioapic_state__bindgen_ty_1__bindgen_ty_1)
    requires
        a.spec_bytes() == b.spec_bytes(),
    ensures
        a == b,
{
    lemma_kvm_ioapic_state__bindgen_ty_1__bindgen_ty_1_field_images(a);
    lemma_kvm_ioapic_state__bindgen_ty_1__bindgen_ty_1_field_images(b);
    assert(a.vector == seq![a.vector][0] && b.vector == seq![b.vector][0]);
    assert(seq![a.vector][0] == seq![b.vector][0]);
    lemma_unit_bytes_injective(a._bitfield_1, b._bitfield_1);
    assert(a.reserved@ =~= b.reserved@);
    assert(a.dest_id == seq![a.dest_id][0] && b.dest_id == seq![b.dest_id][0]);
    assert(seq![a.dest_id][0] == seq![b.dest_id][0]);
    assert(a =~= b);
}

/// A `kvm_ioapic_state__bindgen_ty_1__bindgen_ty_1` whose fields are all zero has an all-zero byte image,
/// the image of a zeroed ioctl argument buffer.
pub proof fn lemma_kvm_ioapic_state__bindgen_ty_1__bindgen_ty_1_zero_image(x: kvm_ioapic_state__bindgen_ty_1__bindgen_ty_1)
    requires
        x.is_zeroed(),
    ensures
        x.spec_bytes() == zero_bytes(KVM_IOAPIC_REDIR_FIELDS_SIZE as int),
{
    lemma_le_bytes_zero();
    assert(seq![x.vector] =~= zero_bytes(1));
    assert(seq![x.dest_id] =~= zero_bytes(1));
    lemma_zero_bytes_split(1, 3);
    lemma_zero_bytes_split(3, 7);
    lemma_zero_bytes_split(7, 8);
    assert(x.spec_bytes() == zero_bytes(KVM_IOAPIC_REDIR_FIELDS_SIZE as int));
}

/// Byte size of the `kvm_pic_state` kernel image.
pub const KVM_PIC_STATE_SIZE: usize = 16;

/// The state of one 8259 programmable interrupt controller.
#[derive(Clone, Copy, Debug, PartialEq)]
#[verifier::ext_equal]
pub struct kvm_pic_state {
    pub last_irr: u8,
    pub irr: u8,
    pub imr: u8,
    pub isr: u8,
    pub priority_add: u8,
    pub irq_base: u8,
    pub read_reg_select: u8,
    pub poll: u8,
    pub special_mask: u8,
    pub init_state: u8,
    pub auto_eoi: u8,
    pub rotate_on_auto_eoi: u8,
    pub special_fully_nested_mode: u8,
    pub init4: u8,
    pub elcr: u8,
    pub elcr_mask: u8,
}

impl kvm_pic_state {
    /// The 16-byte kernel image of `self`: every field little-endian
    /// at its kernel offset.
    pub open spec fn spec_bytes(self) -> Seq<u8> {
        seq![self.last_irr] + seq![self.irr] + seq![self.imr] + seq![self.isr] + seq![self.priority_add] + seq![self.irq_base] + seq![self.read_reg_select] + seq![self.poll] + seq![self.special_mask] + seq![self.init_state] + seq![self.auto_eoi] + seq![self.rotate_on_auto_eoi] + seq![self.special_fully_nested_mode] + seq![self.init4] + seq![self.elcr] + seq![self.elcr_mask]
    }

    /// Every field of `self` holds zero.
    pub open spec fn is_zeroed(self) -> bool {
        self.last_irr == 0 && self.irr == 0 && self.imr == 0 && self.isr == 0 && self.priority_add == 0 && self.irq_base == 0 && self.read_reg_select == 0 && self.poll == 0 && self.special_mask == 0 && self.init_state == 0 && self.auto_eoi == 0 && self.rotate_on_auto_eoi == 0 && self.special_fully_nested_mode == 0 && self.init4 == 0 && self.elcr == 0 && self.elcr_mask == 0
    }

    /// Appends the image of `self` to `out`.
    pub fn push_image(&self, out: &mut Vec<u8>)
        ensures
            final(out)@ == old(out)@ + self.spec_bytes(),
    {
        let ghost base: Seq<u8> = out@;
        push_u8(out, self.last_irr);
        let ghost mut acc: Seq<u8> = seq![self.last_irr];
        push_u8(out, self.irr);
        proof {
            lemma_concat_assoc(base, acc, seq![self.irr]);
            acc = acc + (seq![self.irr]);
        }
        push_u8(out, self.imr);
        proof {
            lemma_concat_assoc(base, acc, seq![self.imr]);
            acc = acc + (seq![self.imr]);
        }
        push_u8(out, self.isr);
        proof {
            lemma_concat_assoc(base, acc, seq![self.isr]);
            acc = acc + (seq![self.isr]);
        }
        push_u8(out, self.priority_add);
        proof {
            lemma_concat_assoc(base, acc, seq![self.priority_add]);
            acc = acc + (seq![self.priority_add]);
        }
        push_u8(out, self.irq_base);
        proof {
            lemma_concat_assoc(base, acc, seq![self.irq_base]);
            acc = acc + (seq![self.irq_base]);
        }
        push_u8(out, self.read_reg_select);
        proof {
            lemma_concat_assoc(base, acc, seq![self.read_reg_select]);
            acc = acc + (seq![self.read_reg_select]);
        }
        push_u8(out, self.poll);
        proof {
            lemma_concat_assoc(base, acc, seq![self.poll]);
            acc = acc + (seq![self.poll]);
        }
        push_u8(out, self.special_mask);
        proof {
            lemma_concat_assoc(base, acc, seq![self.special_mask]);
            acc = acc + (seq![self.special_mask]);
        }
        push_u8(out, self.init_state);
        proof {
            lemma_concat_assoc(base, acc, seq![self.init_state]);
            acc = acc + (seq![self.init_state]);
        }
        push_u8(out, self.auto_eoi);
        proof {
            lemma_concat_assoc(base, acc, seq![self.auto_eoi]);
            acc = acc + (seq![self.auto_eoi]);
        }
        push_u8(out, self.rotate_on_auto_eoi);
        proof {
            lemma_concat_assoc(base, acc, seq![self.rotate_on_auto_eoi]);
            acc = acc + (seq![self.rotate_on_auto_eoi]);
        }
        push_u8(out, self.special_fully_nested_mode);
        proof {
            lemma_concat_assoc(base, acc, seq![self.special_fully_nested_mode]);
            acc = acc + (seq![self.special_fully_nested_mode]);
        }
        push_u8(out, self.init4);
        proof {
            lemma_concat_assoc(base, acc, seq![self.init4]);
            acc = acc + (seq![self.init4]);
        }
        push_u8(out, self.elcr);
        proof {
            lemma_concat_assoc(base, acc, seq![self.elcr]);
            acc = acc + (seq![self.elcr]);
        }
        push_u8(out, self.elcr_mask);
        proof {
            lemma_concat_assoc(base, acc, seq![self.elcr_mask]);
            acc = acc + (seq![self.elcr_mask]);
        }
        proof {
            assert(out@ == base + acc);
            assert(acc == self.spec_bytes());
        }
    }

    /// The image of `self` as a fresh buffer.
    pub fn to_bytes(&self) -> (out: Vec<u8>)
        ensures
            out@ == self.spec_bytes(),
            out@.len() == KVM_PIC_STATE_SIZE,
    {
        let mut out: Vec<u8> = Vec::new();
        self.push_image(&mut out);
        proof {
            lemma_concat_empty_left(self.spec_bytes());
            lemma_kvm_pic_state_bytes_len(*self);
        }
        out
    }

    /// Reads the structure whose image starts at offset `off` of `buf`.
    pub fn read_at(buf: &[u8], off: usize) -> (v: Self)
        requires
            off + KVM_PIC_STATE_SIZE <= buf@.len(),
        ensures
            v.spec_bytes() == buf@.subrange(off as int, off as int + KVM_PIC_STATE_SIZE),
    {
        let n: usize = buf.len();
        proof {
            assert(off + KVM_PIC_STATE_SIZE <= n);
        }
        let v = kvm_pic_state {
            last_irr: read_u8(buf, off),
            irr: read_u8(buf, off + 1),
            imr: read_u8(buf, off + 2),
            isr: read_u8(buf, off + 3),
            priority_add: read_u8(buf, off + 4),
            irq_base: read_u8(buf, off + 5),
            read_reg_select: read_u8(buf, off + 6),
            poll: read_u8(buf, off + 7),
            special_mask: read_u8(buf, off + 8),
            init_state: read_u8(buf, off + 9),
            auto_eoi: read_u8(buf, off + 10),
            rotate_on_auto_eoi: read_u8(buf, off + 11),
            special_fully_nested_mode: read_u8(buf, off + 12),
            init4: read_u8(buf, off + 13),
            elcr: read_u8(buf, off + 14),
            elcr_mask: read_u8(buf, off + 15),
        };
        proof {
            lemma_kvm_pic_state_read_at(v, buf@, off as int);
        }
        v
    }

    /// Reads a structure image from the start of `buf`, failing when the
    /// buffer is too short to hold one.
    pub fn from_bytes(buf: &[u8]) -> (r: Result<Self, CodecError>)
        ensures
            buf@.len() < KVM_PIC_STATE_SIZE ==> r == Err::<kvm_pic_state, CodecError>(
                CodecError::IncompleteBuffer,
            ),
            buf@.len() >= KVM_PIC_STATE_SIZE ==> (r matches Ok(v) && v.spec_bytes() == buf@.subrange(
                0,
                KVM_PIC_STATE_SIZE as int,
            )),
    {
        if buf.len() < KVM_PIC_STATE_SIZE {
            Err(CodecError::IncompleteBuffer)
        } else {
            Ok(Self::read_at(buf, 0))
        }
    }
}

impl Default for kvm_pic_state {
    /// Every field zero: the zeroed ioctl argument convention.
    fn default() -> (r: Self)
        ensures
            r.is_zeroed(),
    {
        let r = kvm_pic_state {
            last_irr: 0,
            irr: 0,
            imr: 0,
            isr: 0,
            priority_add: 0,
            irq_base: 0,
            read_reg_select: 0,
            poll: 0,
            special_mask: 0,
            init_state: 0,
            auto_eoi: 0,
            rotate_on_auto_eoi: 0,
            special_fully_nested_mode: 0,
            init4: 0,
            elcr: 0,
            elcr_mask: 0,
        };
        r
    }
}

/// The image of a `kvm_pic_state` is exactly 16 bytes.
pub proof fn lemma_kvm_pic_state_bytes_len(x: kvm_pic_state)
    ensures
        x.spec_bytes().len() == KVM_PIC_STATE_SIZE,
{
}

/// A `kvm_pic_state` whose fields were decoded from a buffer has that
/// buffer segment as its image.
#[verifier::rlimit(100)]
#[verifier::spinoff_prover]
proof fn lemma_kvm_pic_state_read_at(v: kvm_pic_state, b: Seq<u8>, off: int)
    requires
        0 <= off,
        off + KVM_PIC_STATE_SIZE <= b.len(),
        v.last_irr == b[off + 0],
        v.irr == b[off + 1],
        v.imr == b[off + 2],
        v.isr == b[off + 3],
        v.priority_add == b[off + 4],
        v.irq_base == b[off + 5],
        v.read_reg_select == b[off + 6],
        v.poll == b[off + 7],
        v.special_mask == b[off + 8],
        v.init_state == b[off + 9],
        v.auto_eoi == b[off + 10],
        v.rotate_on_auto_eoi == b[off + 11],
        v.special_fully_nested_mode == b[off + 12],
        v.init4 == b[off + 13],
        v.elcr == b[off + 14],
        v.elcr_mask == b[off + 15],
    ensures
        v.spec_bytes() == b.subrange(off, off + KVM_PIC_STATE_SIZE),
{
    let s = b.subrange(off, off + KVM_PIC_STATE_SIZE as int);
    assert(seq![v.last_irr] =~= b.subrange(off + 0, off + 1));
    assert(seq![v.irr] =~= b.subrange(off + 1, off + 2));
    assert(seq![v.imr] =~= b.subrange(off + 2, off + 3));
    assert(seq![v.isr] =~= b.subrange(off + 3, off + 4));
    assert(seq![v.priority_add] =~= b.subrange(off + 4, off + 5));
    assert(seq![v.irq_base] =~= b.subrange(off + 5, off + 6));
    assert(seq![v.read_reg_select] =~= b.subrange(off + 6, off + 7));
    assert(seq![v.poll] =~= b.subrange(off + 7, off + 8));
    assert(seq![v.special_mask] =~= b.subrange(off + 8, off + 9));
    assert(seq![v.init_state] =~= b.subrange(off + 9, off + 10));
    assert(seq![v.auto_eoi] =~= b.subrange(off + 10, off + 11));
    assert(seq![v.rotate_on_auto_eoi] =~= b.subrange(off + 11, off + 12));
    assert(seq![v.special_fully_nested_mode] =~= b.subrange(off + 12, off + 13));
    assert(seq![v.init4] =~= b.subrange(off + 13, off + 14));
    assert(seq![v.elcr] =~= b.subrange(off + 14, off + 15));
    assert(seq![v.elcr_mask] =~= b.subrange(off + 15, off + 16));
    lemma_subrange_subrange(b, off, off + KVM_PIC_STATE_SIZE as int, 0, 1);
    lemma_subrange_subrange(b, off, off + KVM_PIC_STATE_SIZE as int, 1, 2);
    lemma_subrange_subrange(b, off, off + KVM_PIC_STATE_SIZE as int, 2, 3);
    lemma_subrange_subrange(b, off, off + KVM_PIC_STATE_SIZE as int, 3, 4);
    lemma_subrange_subrange(b, off, off + KVM_PIC_STATE_SIZE as int, 4, 5);
    lemma_subrange_subrange(b, off, off + KVM_PIC_STATE_SIZE as int, 5, 6);
    lemma_subrange_subrange(b, off, off + KVM_PIC_STATE_SIZE as int, 6, 7);
    lemma_subrange_subrange(b, off, off + KVM_PIC_STATE_SIZE as int, 7, 8);
    lemma_subrange_subrange(b, off, off + KVM_PIC_STATE_SIZE as int, 8, 9);
    lemma_subrange_subrange(b, off, off + KVM_PIC_STATE_SIZE as int, 9, 10);
    lemma_subrange_subrange(b, off, off + KVM_PIC_STATE_SIZE as int, 10, 11);
    lemma_subrange_subrange(b, off, off + KVM_PIC_STATE_SIZE as int, 11, 12);
    lemma_subrange_subrange(b, off, off + KVM_PIC_STATE_SIZE as int, 12, 13);
    lemma_subrange_subrange(b, off, off + KVM_PIC_STATE_SIZE as int, 13, 14);
    lemma_subrange_subrange(b, off, off + KVM_PIC_STATE_SIZE as int, 14, 15);
    lemma_subrange_subrange(b, off, off + KVM_PIC_STATE_SIZE as int, 15, 16);
    lemma_seq_parts(s, 1, 2);
    lemma_seq_parts(s, 2, 3);
    lemma_seq_parts(s, 3, 4);
    lemma_seq_parts(s, 4, 5);
    lemma_seq_parts(s, 5, 6);
    lemma_seq_parts(s, 6, 7);
    lemma_seq_parts(s, 7, 8);
    lemma_seq_parts(s, 8, 9);
    lemma_seq_parts(s, 9, 10);
    lemma_seq_parts(s, 10, 11);
    lemma_seq_parts(s, 11, 12);
    lemma_seq_parts(s, 12, 13);
    lemma_seq_parts(s, 13, 14);
    lemma_seq_parts(s, 14, 15);
    lemma_seq_parts(s, 15, 16);
    assert(s.subrange(0, KVM_PIC_STATE_SIZE as int) =~= s);
    assert(v.spec_bytes() == s);
}

/// Field images of a `kvm_pic_state`, covering one run of fields.
#[verifier::rlimit(100)]
#[verifier::spinoff_prover]
proof fn lemma_kvm_pic_state_field_images_seg0(x: kvm_pic_state)
    ensures
        x.spec_bytes().len() == KVM_PIC_STATE_SIZE,
        x.spec_bytes().subrange(15, 16) == seq![x.elcr_mask],
        x.spec_bytes().subrange(14, 15) == seq![x.elcr],
        x.spec_bytes().subrange(13, 14) == seq![x.init4],
        x.spec_bytes().subrange(12, 13) == seq![x.special_fully_nested_mode],
        x.spec_bytes().subrange(11, 12) == seq![x.rotate_on_auto_eoi],
        x.spec_bytes().subrange(10, 11) == seq![x.auto_eoi],
        x.spec_bytes().subrange(9, 10) == seq![x.init_state],
        x.spec_bytes().subrange(8, 9) == seq![x.special_mask],
        x.spec_bytes().subrange(0, 8) == (((((((seq![x.last_irr] + seq![x.irr]) + seq![x.imr]) + seq![x.isr]) + seq![x.priority_add]) + seq![x.irq_base]) + seq![x.read_reg_select]) + seq![x.poll]),
{
    lemma_kvm_pic_state_bytes_len(x);
    let p0 = seq![x.last_irr];
    let p1 = seq![x.irr];
    let p2 = seq![x.imr];
    let p3 = seq![x.isr];
    let p4 = seq![x.priority_add];
    let p5 = seq![x.irq_base];
    let p6 = seq![x.read_reg_select];
    let p7 = seq![x.poll];
    let p8 = seq![x.special_mask];
    let p9 = seq![x.init_state];
    let p10 = seq![x.auto_eoi];
    let p11 = seq![x.rotate_on_auto_eoi];
    let p12 = seq![x.special_fully_nested_mode];
    let p13 = seq![x.init4];
    let p14 = seq![x.elcr];
    let p15 = seq![x.elcr_mask];
    let t1 = p0 + p1;
    let t2 = t1 + p2;
    let t3 = t2 + p3;
    let t4 = t3 + p4;
    let t5 = t4 + p5;
    let t6 = t5 + p6;
    let t7 = t6 + p7;
    let t8 = t7 + p8;
    let t9 = t8 + p9;
    let t10 = t9 + p10;
    let t11 = t10 + p11;
    let t12 = t11 + p12;
    let t13 = t12 + p13;
    let t14 = t13 + p14;
    let t15 = t14 + p15;
    assert(x.spec_bytes() == t15);
    lemma_concat_parts(t14, p15);
    lemma_concat_parts(t13, p14);
    lemma_subrange_subrange(x.spec_bytes(), 0, 15, 0, 14);
    lemma_subrange_subrange(x.spec_bytes(), 0, 15, 14, 15);
    lemma_concat_parts(t12, p13);
    lemma_subrange_subrange(x.spec_bytes(), 0, 14, 0, 13);
    lemma_subrange_subrange(x.spec_bytes(), 0, 14, 13, 14);
    lemma_concat_parts(t11, p12);
    lemma_subrange_subrange(x.spec_bytes(), 0, 13, 0, 12);
    lemma_subrange_subrange(x.spec_bytes(), 0, 13, 12, 13);
    lemma_concat_parts(t10, p11);
    lemma_subrange_subrange(x.spec_bytes(), 0, 12, 0, 11);
    lemma_subrange_subrange(x.spec_bytes(), 0, 12, 11, 12);
    lemma_concat_parts(t9, p10);
    lemma_subrange_subrange(x.spec_bytes(), 0, 11, 0, 10);
    lemma_subrange_subrange(x.spec_bytes(), 0, 11, 10, 11);
    lemma_concat_parts(t8, p9);
    lemma_subrange_subrange(x.spec_bytes(), 0, 10, 0, 9);
    lemma_subrange_subrange(x.spec_bytes(), 0, 10, 9, 10);
    lemma_concat_parts(t7, p8);
    lemma_subrange_subrange(x.spec_bytes(), 0, 9, 0, 8);
    lemma_subrange_subrange(x.spec_bytes(), 0, 9, 8, 9);
}

/// Field images of a `kvm_pic_state`, covering one run of fields.
#[verifier::rlimit(100)]
#[verifier::spinoff_prover]
proof fn lemma_kvm_pic_state_field_images_seg1(x: kvm_pic_state)
    ensures
        x.spec_bytes().len() == KVM_PIC_STATE_SIZE,
        x.spec_bytes().subrange(7, 8) == seq![x.poll],
        x.spec_bytes().subrange(6, 7) == seq![x.read_reg_select],
        x.spec_bytes().subrange(5, 6) == seq![x.irq_base],
        x.spec_bytes().subrange(4, 5) == seq![x.priority_add],
        x.spec_bytes().subrange(3, 4) == seq![x.isr],
        x.spec_bytes().subrange(2, 3) == seq![x.imr],
        x.spec_bytes().subrange(1, 2) == seq![x.irr],
        x.spec_bytes().subrange(0, 1) == seq![x.last_irr],
{
    lemma_kvm_pic_state_bytes_len(x);
    let p0 = seq![x.last_irr];
    let p1 = seq![x.irr];
    let p2 = seq![x.imr];
    let p3 = seq![x.isr];
    let p4 = seq![x.priority_add];
    let p5 = seq![x.irq_base];
    let p6 = seq![x.read_reg_select];
    let p7 = seq![x.poll];
    let t1 = p0 + p1;
    let t2 = t1 + p2;
    let t3 = t2 + p3;
    let t4 = t3 + p4;
    let t5 = t4 + p5;
    let t6 = t5 + p6;
    let t7 = t6 + p7;
    lemma_kvm_pic_state_field_images_seg0(x);
    lemma_concat_parts(t6, p7);
    lemma_subrange_subrange(x.spec_bytes(), 0, 8, 0, 7);
    lemma_subrange_subrange(x.spec_bytes(), 0, 8, 7, 8);
    lemma_concat_parts(t5, p6);
    lemma_subrange_subrange(x.spec_bytes(), 0, 7, 0, 6);
    lemma_subrange_subrange(x.spec_bytes(), 0, 7, 6, 7);
    lemma_concat_parts(t4, p5);
    lemma_subrange_subrange(x.spec_bytes(), 0, 6, 0, 5);
    lemma_subrange_subrange(x.spec_bytes(), 0, 6, 5, 6);
    lemma_concat_parts(t3, p4);
    lemma_subrange_subrange(x.spec_bytes(), 0, 5, 0, 4);
    lemma_subrange_subrange(x.spec_bytes(), 0, 5, 4, 5);
    lemma_concat_parts(t2, p3);
    lemma_subrange_subrange(x.spec_bytes(), 0, 4, 0, 3);
    lemma_subrange_subrange(x.spec_bytes(), 0, 4, 3, 4);
    lemma_concat_parts(t1, p2);
    lemma_subrange_subrange(x.spec_bytes(), 0, 3, 0, 2);
    lemma_subrange_subrange(x.spec_bytes(), 0, 3, 2, 3);
    lemma_concat_parts(p0, p1);
    lemma_subrange_subrange(x.spec_bytes(), 0, 2, 0, 1);
    lemma_subrange_subrange(x.spec_bytes(), 0, 2, 1, 2);
}

/// Each field's image stands at its kernel offset inside the image of
/// a `kvm_pic_state`.
proof fn lemma_kvm_pic_state_field_images(x: kvm_pic_state)
    ensures
        x.spec_bytes().len() == KVM_PIC_STATE_SIZE,
        x.spec_bytes().subrange(0, 1) == seq![x.last_irr],
        x.spec_bytes().subrange(1, 2) == seq![x.irr],
        x.spec_bytes().subrange(2, 3) == seq![x.imr],
        x.spec_bytes().subrange(3, 4) == seq![x.isr],
        x.spec_bytes().subrange(4, 5) == seq![x.priority_add],
        x.spec_bytes().subrange(5, 6) == seq![x.irq_base],
        x.spec_bytes().subrange(6, 7) == seq![x.read_reg_select],
        x.spec_bytes().subrange(7, 8) == seq![x.poll],
        x.spec_bytes().subrange(8, 9) == seq![x.special_mask],
        x.spec_bytes().subrange(9, 10) == seq![x.init_state],
        x.spec_bytes().subrange(10, 11) == seq![x.auto_eoi],
        x.spec_bytes().subrange(11, 12) == seq![x.rotate_on_auto_eoi],
        x.spec_bytes().subrange(12, 13) == seq![x.special_fully_nested_mode],
        x.spec_bytes().subrange(13, 14) == seq![x.init4],
        x.spec_bytes().subrange(14, 15) == seq![x.elcr],
        x.spec_bytes().subrange(15, 16) == seq![x.elcr_mask],
{
    lemma_kvm_pic_state_field_images_seg0(x);
    lemma_kvm_pic_state_field_images_seg1(x);
}

/// The byte image determines the structure: reading an image back
/// always yields the one value that produced it.
pub proof fn lemma_kvm_pic_state_image_injective(a: kvm_pic_state, b: kvm_pic_state)
    requires
        a.spec_bytes() == b.spec_bytes(),
    ensures
        a == b,
{
    lemma_kvm_pic_state_field_images(a);
    lemma_kvm_pic_state_field_images(b);
    assert(a.last_irr == seq![a.last_irr][0] && b.last_irr == seq![b.last_irr][0]);
    assert(seq![a.last_irr][0] == seq![b.last_irr][0]);
    assert(a.irr == seq![a.irr][0] && b.irr == seq![b.irr][0]);
    assert(seq![a.irr][0] == seq![b.irr][0]);
    assert(a.imr == seq![a.imr][0] && b.imr == seq![b.imr][0]);
    assert(seq![a.imr][0] == seq![b.imr][0]);
    assert(a.isr == seq![a.isr][0] && b.isr == seq![b.isr][0]);
    assert(seq![a.isr][0] == seq![b.isr][0]);
    assert(a.priority_add == seq![a.priority_add][0] && b.priority_add == seq![b.priority_add][0]);
    assert(seq![a.priority_add][0] == seq![b.priority_add][0]);
    assert(a.irq_base == seq![a.irq_base][0] && b.irq_base == seq![b.irq_base][0]);
    assert(seq![a.irq_base][0] == seq![b.irq_base][0]);
    assert(a.read_reg_select == seq![a.read_reg_select][0] && b.read_reg_select == seq![b.read_reg_select][0]);
    assert(seq![a.read_reg_select][0] == seq![b.read_reg_select][0]);
    assert(a.poll == seq![a.poll][0] && b.poll == seq![b.poll][0]);
    assert(seq![a.poll][0] == seq![b.poll][0]);
    assert(a.special_mask == seq![a.special_mask][0] && b.special_mask == seq![b.special_mask][0]);
    assert(seq![a.special_mask][0] == seq![b.special_mask][0]);
    assert(a.init_state == seq![a.init_state][0] && b.init_state == seq![b.init_state][0]);
    assert(seq![a.init_state][0] == seq![b.init_state][0]);
    assert(a.auto_eoi == seq![a.auto_eoi][0] && b.auto_eoi == seq![b.auto_eoi][0]);
    assert(seq![a.auto_eoi][0] == seq![b.auto_eoi][0]);
    assert(a.rotate_on_auto_eoi == seq![a.rotate_on_auto_eoi][0] && b.rotate_on_auto_eoi == seq![b.rotate_on_auto_eoi][0]);
    assert(seq![a.rotate_on_auto_eoi][0] == seq![b.rotate_on_auto_eoi][0]);
    assert(a.special_fully_nested_mode == seq![a.special_fully_nested_mode][0] && b.special_fully_nested_mode == seq![b.special_fully_nested_mode][0]);
    assert(seq![a.special_fully_nested_mode][0] == seq![b.special_fully_nested_mode][0]);
    assert(a.init4 == seq![a.init4][0] && b.init4 == seq![b.init4][0]);
    assert(seq![a.init4][0] == seq![b.init4][0]);
    assert(a.elcr == seq![a.elcr][0] && b.elcr == seq![b.elcr][0]);
    assert(seq![a.elcr][0] == seq![b.elcr][0]);
    assert(a.elcr_mask == seq![a.elcr_mask][0] && b.elcr_mask == seq![b.elcr_mask][0]);
    assert(seq![a.elcr_mask][0] == seq![b.elcr_mask][0]);
    assert(a =~= b);
}

/// A `kvm_pic_state` whose fields are all zero has an all-zero byte image,
/// the image of a zeroed ioctl argument buffer.
pub proof fn lemma_kvm_pic_state_zero_image(x: kvm_pic_state)
    requires
        x.is_zeroed(),
    ensures
        x.spec_bytes() == zero_bytes(KVM_PIC_STATE_SIZE as int),
{
    lemma_le_bytes_zero();
    assert(seq![x.last_irr] =~= zero_bytes(1));
    assert(seq![x.irr] =~= zero_bytes(1));
    assert(seq![x.imr] =~= zero_bytes(1));
    assert(seq![x.isr] =~= zero_bytes(1));
    assert(seq![x.priority_add] =~= zero_bytes(1));
    assert(seq![x.irq_base] =~= zero_bytes(1));
    assert(seq![x.read_reg_select] =~= zero_bytes(1));
    assert(seq![x.poll] =~= zero_bytes(1));
    assert(seq![x.special_mask] =~= zero_bytes(1));
    assert(seq![x.init_state] =~= zero_bytes(1));
    assert(seq![x.auto_eoi] =~= zero_bytes(1));
    assert(seq![x.rotate_on_auto_eoi] =~= zero_bytes(1));
    assert(seq![x.special_fully_nested_mode] =~= zero_bytes(1));
    assert(seq![x.init4] =~= zero_bytes(1));
    assert(seq![x.elcr] =~= zero_bytes(1));
    assert(seq![x.elcr_mask] =~= zero_bytes(1));
    lemma_zero_bytes_split(1, 2);
    lemma_zero_bytes_split(2, 3);
    lemma_zero_bytes_split(3, 4);
    lemma_zero_bytes_split(4, 5);
    lemma_zero_bytes_split(5, 6);
    lemma_zero_bytes_split(6, 7);
    lemma_zero_bytes_split(7, 8);
    lemma_zero_bytes_split(8, 9);
    lemma_zero_bytes_split(9, 10);
    lemma_zero_bytes_split(10, 11);
    lemma_zero_bytes_split(11, 12);
    lemma_zero_bytes_split(12, 13);
    lemma_zero_bytes_split(13, 14);
    lemma_zero_bytes_split(14, 15);
    lemma_zero_bytes_split(15, 16);
    assert(x.spec_bytes() == zero_bytes(KVM_PIC_STATE_SIZE as int));
}

/// Byte size of the `kvm_ioapic_state` kernel image.
pub const KVM_IOAPIC_STATE_SIZE: usize = 216;

/// The state of the I/O APIC: its registers and the 24-entry
/// redirection table.
#[derive(Clone, Copy, Debug, PartialEq)]
#[verifier::ext_equal]
pub struct kvm_ioapic_state {
    pub base_address: u64,
    pub ioregsel: u32,
    pub id: u32,
    pub irr: u32,
    pub pad: u32,
    pub redirtbl: [kvm_ioapic_state__bindgen_ty_1; 24],
}

impl kvm_ioapic_state {
    /// The 216-byte kernel image of `self`: every field little-endian
    /// at its kernel offset.
    pub open spec fn spec_bytes(self) -> Seq<u8> {
        u64_le_bytes(self.base_address) + u32_le_bytes(self.ioregsel) + u32_le_bytes(self.id) + u32_le_bytes(self.irr) + u32_le_bytes(self.pad) + self.redirtbl@[0].spec_bytes() + self.redirtbl@[1].spec_bytes() + self.redirtbl@[2].spec_bytes() + self.redirtbl@[3].spec_bytes() + self.redirtbl@[4].spec_bytes() + self.redirtbl@[5].spec_bytes() + self.redirtbl@[6].spec_bytes() + self.redirtbl@[7].spec_bytes() + self.redirtbl@[8].spec_bytes() + self.redirtbl@[9].spec_bytes() + self.redirtbl@[10].spec_bytes() + self.redirtbl@[11].spec_bytes() + self.redirtbl@[12].spec_bytes() + self.redirtbl@[13].spec_bytes() + self.redirtbl@[14].spec_bytes() + self.redirtbl@[15].spec_bytes() + self.redirtbl@[16].spec_bytes() + self.redirtbl@[17].spec_bytes() + self.redirtbl@[18].spec_bytes() + self.redirtbl@[19].spec_bytes() + self.redirtbl@[20].spec_bytes() + self.redirtbl@[21].spec_bytes() + self.redirtbl@[22].spec_bytes() + self.redirtbl@[23].spec_bytes()
    }

    /// Every field of `self` holds zero.
    pub open spec fn is_zeroed(self) -> bool {
        self.base_address == 0 && self.ioregsel == 0 && self.id == 0 && self.irr == 0 && self.pad == 0 && (forall|k: int| 0 <= k < 24 ==> #[trigger] self.redirtbl@[k].is_zeroed())
    }

    /// Appends the image of `self` to `out`.
    pub fn push_image(&self, out: &mut Vec<u8>)
        ensures
            final(out)@ == old(out)@ + self.spec_bytes(),
    {
        let ghost base: Seq<u8> = out@;
        push_u64_le(out, self.base_address);
        let ghost mut acc: Seq<u8> = u64_le_bytes(self.base_address);
        push_u32_le(out, self.ioregsel);
        proof {
            lemma_concat_assoc(base, acc, u32_le_bytes(self.ioregsel));
            acc = acc + (u32_le_bytes(self.ioregsel));
        }
        push_u32_le(out, self.id);
        proof {
            lemma_concat_assoc(base, acc, u32_le_bytes(self.id));
            acc = acc + (u32_le_bytes(self.id));
        }
        push_u32_le(out, self.irr);
        proof {
            lemma_concat_assoc(base, acc, u32_le_bytes(self.irr));
            acc = acc + (u32_le_bytes(self.irr));
        }
        push_u32_le(out, self.pad);
        proof {
            lemma_concat_assoc(base, acc, u32_le_bytes(self.pad));
            acc = acc + (u32_le_bytes(self.pad));
        }
        self.redirtbl[0].push_image(out);
        proof {
            lemma_concat_assoc(base, acc, self.redirtbl@[0].spec_bytes());
            acc = acc + (self.redirtbl@[0].spec_bytes());
        }
        self.redirtbl[1].push_image(out);
        proof {
            lemma_concat_assoc(base, acc, self.redirtbl@[1].spec_bytes());
            acc = acc + (self.redirtbl@[1].spec_bytes());
        }
        self.redirtbl[2].push_image(out);
        proof {
            lemma_concat_assoc(base, acc, self.redirtbl@[2].spec_bytes());
            acc = acc + (self.redirtbl@[2].spec_bytes());
        }
        self.redirtbl[3].push_image(out);
        proof {
            lemma_concat_assoc(base, acc, self.redirtbl@[3].spec_bytes());
            acc = acc + (self.redirtbl@[3].spec_bytes());
        }
        self.redirtbl[4].push_image(out);
        proof {
            lemma_concat_assoc(base, acc, self.redirtbl@[4].spec_bytes());
            acc = acc + (self.redirtbl@[4].spec_bytes());
        }
        self.redirtbl[5].push_image(out);
        proof {
            lemma_concat_assoc(base, acc, self.redirtbl@[5].spec_bytes());
            acc = acc + (self.redirtbl@[5].spec_bytes());
        }
        self.redirtbl[6].push_image(out);
        proof {
            lemma_concat_assoc(base, acc, self.redirtbl@[6].spec_bytes());
            acc = acc + (self.redirtbl@[6].spec_bytes());
        }
        self.redirtbl[7].push_image(out);
        proof {
            lemma_concat_assoc(base, acc, self.redirtbl@[7].spec_bytes());
            acc = acc + (self.redirtbl@[7].spec_bytes());
        }
        self.redirtbl[8].push_image(out);
        proof {
            lemma_concat_assoc(base, acc, self.redirtbl@[8].spec_bytes());
            acc = acc + (self.redirtbl@[8].spec_bytes());
        }
        self.redirtbl[9].push_image(out);
        proof {
            lemma_concat_assoc(base, acc, self.redirtbl@[9].spec_bytes());
            acc = acc + (self.redirtbl@[9].spec_bytes());
        }
        self.redirtbl[10].push_image(out);
        proof {
            lemma_concat_assoc(base, acc, self.redirtbl@[10].spec_bytes());
            acc = acc + (self.redirtbl@[10].spec_bytes());
        }
        self.redirtbl[11].push_image(out);
        proof {
            lemma_concat_assoc(base, acc, self.redirtbl@[11].spec_bytes());
            acc = acc + (self.redirtbl@[11].spec_bytes());
        }
        self.redirtbl[12].push_image(out);
        proof {
            lemma_concat_assoc(base, acc, self.redirtbl@[12].spec_bytes());
            acc = acc + (self.redirtbl@[12].spec_bytes());
        }
        self.redirtbl[13].push_image(out);
        proof {
            lemma_concat_assoc(base, acc, self.redirtbl@[13].spec_bytes());
            acc = acc + (self.redirtbl@[13].spec_bytes());
        }
        self.redirtbl[14].push_image(out);
        proof {
            lemma_concat_assoc(base, acc, self.redirtbl@[14].spec_bytes());
            acc = acc + (self.redirtbl@[14].spec_bytes());
        }
        self.redirtbl[15].push_image(out);
        proof {
            lemma_concat_assoc(base, acc, self.redirtbl@[15].spec_bytes());
            acc = acc + (self.redirtbl@[15].spec_bytes());
        }
        self.redirtbl[16].push_image(out);
        proof {
            lemma_concat_assoc(base, acc, self.redirtbl@[16].spec_bytes());
            acc = acc + (self.redirtbl@[16].spec_bytes());
        }
        self.redirtbl[17].push_image(out);
        proof {
            lemma_concat_assoc(base, acc, self.redirtbl@[17].spec_bytes());
            acc = acc + (self.redirtbl@[17].spec_bytes());
        }
        self.redirtbl[18].push_image(out);
        proof {
            lemma_concat_assoc(base, acc, self.redirtbl@[18].spec_bytes());
            acc = acc + (self.redirtbl@[18].spec_bytes());
        }
        self.redirtbl[19].push_image(out);
        proof {
            lemma_concat_assoc(base, acc, self.redirtbl@[19].spec_bytes());
            acc = acc + (self.redirtbl@[19].spec_bytes());
        }
        self.redirtbl[20].push_image(out);
        proof {
            lemma_concat_assoc(base, acc, self.redirtbl@[20].spec_bytes());
            acc = acc + (self.redirtbl@[20].spec_bytes());
        }
        self.redirtbl[21].push_image(out);
        proof {
            lemma_concat_assoc(base, acc, self.redirtbl@[21].spec_bytes());
            acc = acc + (self.redirtbl@[21].spec_bytes());
        }
        self.redirtbl[22].push_image(out);
        proof {
            lemma_concat_assoc(base, acc, self.redirtbl@[22].spec_bytes());
            acc = acc + (self.redirtbl@[22].spec_bytes());
        }
        self.redirtbl[23].push_image(out);
        proof {
            lemma_concat_assoc(base, acc, self.redirtbl@[23].spec_bytes());
            acc = acc + (self.redirtbl@[23].spec_bytes());
        }
        proof {
            assert(out@ == base + acc);
            assert(acc == self.spec_bytes());
        }
    }

    /// The image of `self` as a fresh buffer.
    pub fn to_bytes(&self) -> (out: Vec<u8>)
        ensures
            out@ == self.spec_bytes(),
            out@.len() == KVM_IOAPIC_STATE_SIZE,
    {
        let mut out: Vec<u8> = Vec::new();
        self.push_image(&mut out);
        proof {
            lemma_concat_empty_left(self.spec_bytes());
            lemma_kvm_ioapic_state_bytes_len(*self);
        }
        out
    }

    /// Reads the structure whose image starts at offset `off` of `buf`.
    pub fn read_at(buf: &[u8], off: usize) -> (v: Self)
        requires
            off + KVM_IOAPIC_STATE_SIZE <= buf@.len(),
        ensures
            v.spec_bytes() == buf@.subrange(off as int, off as int + KVM_IOAPIC_STATE_SIZE),
    {
        let n: usize = buf.len();
        proof {
            assert(off + KVM_IOAPIC_STATE_SIZE <= n);
        }
        let v = kvm_ioapic_state {
            base_address: read_u64_le(buf, off),
            ioregsel: read_u32_le(buf, off + 8),
            id: read_u32_le(buf, off + 12),
            irr: read_u32_le(buf, off + 16),
            pad: read_u32_le(buf, off + 20),
            redirtbl: [
                kvm_ioapic_state__bindgen_ty_1::read_at(buf, off + 24),
                kvm_ioapic_state__bindgen_ty_1::read_at(buf, off + 32),
                kvm_ioapic_state__bindgen_ty_1::read_at(buf, off + 40),
                kvm_ioapic_state__bindgen_ty_1::read_at(buf, off + 48),
                kvm_ioapic_state__bindgen_ty_1::read_at(buf, off + 56),
                kvm_ioapic_state__bindgen_ty_1::read_at(buf, off + 64),
                kvm_ioapic_state__bindgen_ty_1::read_at(buf, off + 72),
                kvm_ioapic_state__bindgen_ty_1::read_at(buf, off + 80),
                kvm_ioapic_state__bindgen_ty_1::read_at(buf, off + 88),
                kvm_ioapic_state__bindgen_ty_1::read_at(buf, off + 96),
                kvm_ioapic_state__bindgen_ty_1::read_at(buf, off + 104),
                kvm_ioapic_state__bindgen_ty_1::read_at(buf, off + 112),
                kvm_ioapic_state__bindgen_ty_1::read_at(buf, off + 120),
                kvm_ioapic_state__bindgen_ty_1::read_at(buf, off + 128),
                kvm_ioapic_state__bindgen_ty_1::read_at(buf, off + 136),
                kvm_ioapic_state__bindgen_ty_1::read_at(buf, off + 144),
                kvm_ioapic_state__bindgen_ty_1::read_at(buf, off + 152),
                kvm_ioapic_state__bindgen_ty_1::read_at(buf, off + 160),
                kvm_ioapic_state__bindgen_ty_1::read_at(buf, off + 168),
                kvm_ioapic_state__bindgen_ty_1::read_at(buf, off + 176),
                kvm_ioapic_state__bindgen_ty_1::read_at(buf, off + 184),
                kvm_ioapic_state__bindgen_ty_1::read_at(buf, off + 192),
                kvm_ioapic_state__bindgen_ty_1::read_at(buf, off + 200),
                kvm_ioapic_state__bindgen_ty_1::read_at(buf, off + 208),
            ],
        };
        proof {
            lemma_kvm_ioapic_state_read_at(v, buf@, off as int);
        }
        v
    }

    /// Reads a structure image from the start of `buf`, failing when the
    /// buffer is too short to hold one.
    pub fn from_bytes(buf: &[u8]) -> (r: Result<Self, CodecError>)
        ensures
            buf@.len() < KVM_IOAPIC_STATE_SIZE ==> r == Err::<kvm_ioapic_state, CodecError>(
                CodecError::IncompleteBuffer,
            ),
            buf@.len() >= KVM_IOAPIC_STATE_SIZE ==> (r matches Ok(v) && v.spec_bytes() == buf@.subrange(
                0,
                KVM_IOAPIC_STATE_SIZE as int,
            )),
    {
        if buf.len() < KVM_IOAPIC_STATE_SIZE {
            Err(CodecError::IncompleteBuffer)
        } else {
            Ok(Self::read_at(buf, 0))
        }
    }
}

impl Default for kvm_ioapic_state {
    /// Every field zero: the zeroed ioctl argument convention.
    fn default() -> (r: Self)
        ensures
            r.is_zeroed(),
    {
        let redirtbl_elem = kvm_ioapic_state__bindgen_ty_1::default();
        let r = kvm_ioapic_state {
            base_address: 0,
            ioregsel: 0,
            id: 0,
            irr: 0,
            pad: 0,
            redirtbl: vstd::array::array_fill_for_copy_types::<kvm_ioapic_state__bindgen_ty_1, 24>(redirtbl_elem),
        };
        proof {
            assert(forall|k: int| 0 <= k < 24 ==> #[trigger] r.redirtbl@[k].is_zeroed());
        }
        r
    }
}

/// The image of a `kvm_ioapic_state` is exactly 216 bytes.
pub proof fn lemma_kvm_ioapic_state_bytes_len(x: kvm_ioapic_state)
    ensures
        x.spec_bytes().len() == KVM_IOAPIC_STATE_SIZE,
{
    lemma_kvm_ioapic_state__bindgen_ty_1_bytes_len(x.redirtbl@[0]);
    lemma_kvm_ioapic_state__bindgen_ty_1_bytes_len(x.redirtbl@[1]);
    lemma_kvm_ioapic_state__bindgen_ty_1_bytes_len(x.redirtbl@[2]);
    lemma_kvm_ioapic_state__bindgen_ty_1_bytes_len(x.redirtbl@[3]);
    lemma_kvm_ioapic_state__bindgen_ty_1_bytes_len(x.redirtbl@[4]);
    lemma_kvm_ioapic_state__bindgen_ty_1_bytes_len(x.redirtbl@[5]);
    lemma_kvm_ioapic_state__bindgen_ty_1_bytes_len(x.redirtbl@[6]);
    lemma_kvm_ioapic_state__bindgen_ty_1_bytes_len(x.redirtbl@[7]);
    lemma_kvm_ioapic_state__bindgen_ty_1_bytes_len(x.redirtbl@[8]);
    lemma_kvm_ioapic_state__bindgen_ty_1_bytes_len(x.redirtbl@[9]);
    lemma_kvm_ioapic_state__bindgen_ty_1_bytes_len(x.redirtbl@[10]);
    lemma_kvm_ioapic_state__bindgen_ty_1_bytes_len(x.redirtbl@[11]);
    lemma_kvm_ioapic_state__bindgen_ty_1_bytes_len(x.redirtbl@[12]);
    lemma_kvm_ioapic_state__bindgen_ty_1_bytes_len(x.redirtbl@[13]);
    lemma_kvm_ioapic_state__bindgen_ty_1_bytes_len(x.redirtbl@[14]);
    lemma_kvm_ioapic_state__bindgen_ty_1_bytes_len(x.redirtbl@[15]);
    lemma_kvm_ioapic_state__bindgen_ty_1_bytes_len(x.redirtbl@[16]);
    lemma_kvm_ioapic_state__bindgen_ty_1_bytes_len(x.redirtbl@[17]);
    lemma_kvm_ioapic_state__bindgen_ty_1_bytes_len(x.redirtbl@[18]);
    lemma_kvm_ioapic_state__bindgen_ty_1_bytes_len(x.redirtbl@[19]);
    lemma_kvm_ioapic_state__bindgen_ty_1_bytes_len(x.redirtbl@[20]);
    lemma_kvm_ioapic_state__bindgen_ty_1_bytes_len(x.redirtbl@[21]);
    lemma_kvm_ioapic_state__bindgen_ty_1_bytes_len(x.redirtbl@[22]);
    lemma_kvm_ioapic_state__bindgen_ty_1_bytes_len(x.redirtbl@[23]);
}

/// A `kvm_ioapic_state` whose fields were decoded from a buffer has that
/// buffer segment as its image.
#[verifier::rlimit(100)]
#[verifier::spinoff_prover]
proof fn lemma_kvm_ioapic_state_read_at(v: kvm_ioapic_state, b: Seq<u8>, off: int)
    requires
        0 <= off,
        off + KVM_IOAPIC_STATE_SIZE <= b.len(),
        v.base_address == u64_of_le_bytes(b.subrange(off + 0, off + 8)),
        v.ioregsel == u32_of_le_bytes(b.subrange(off + 8, off + 12)),
        v.id == u32_of_le_bytes(b.subrange(off + 12, off + 16)),
        v.irr == u32_of_le_bytes(b.subrange(off + 16, off + 20)),
        v.pad == u32_of_le_bytes(b.subrange(off + 20, off + 24)),
        v.redirtbl@[0].spec_bytes() == b.subrange(off + 24, off + 32),
        v.redirtbl@[1].spec_bytes() == b.subrange(off + 32, off + 40),
        v.redirtbl@[2].spec_bytes() == b.subrange(off + 40, off + 48),
        v.redirtbl@[3].spec_bytes() == b.subrange(off + 48, off + 56),
        v.redirtbl@[4].spec_bytes() == b.subrange(off + 56, off + 64),
        v.redirtbl@[5].spec_bytes() == b.subrange(off + 64, off + 72),
        v.redirtbl@[6].spec_bytes() == b.subrange(off + 72, off + 80),
        v.redirtbl@[7].spec_bytes() == b.subrange(off + 80, off + 88),
        v.redirtbl@[8].spec_bytes() == b.subrange(off + 88, off + 96),
        v.redirtbl@[9].spec_bytes() == b.subrange(off + 96, off + 104),
        v.redirtbl@[10].spec_bytes() == b.subrange(off + 104, off + 112),
        v.redirtbl@[11].spec_bytes() == b.subrange(off + 112, off + 120),
        v.redirtbl@[12].spec_bytes() == b.subrange(off + 120, off + 128),
        v.redirtbl@[13].spec_bytes() == b.subrange(off + 128, off + 136),
        v.redirtbl@[14].spec_bytes() == b.subrange(off + 136, off + 144),
        v.redirtbl@[15].spec_bytes() == b.subrange(off + 144, off + 152),
        v.redirtbl@[16].spec_bytes() == b.subrange(off + 152, off + 160),
        v.redirtbl@[17].spec_bytes() == b.subrange(off + 160, off + 168),
        v.redirtbl@[18].spec_bytes() == b.subrange(off + 168, off + 176),
        v.redirtbl@[19].spec_bytes() == b.subrange(off + 176, off + 184),
        v.redirtbl@[20].spec_bytes() == b.subrange(off + 184, off + 192),
        v.redirtbl@[21].spec_bytes() == b.subrange(off + 192, off + 200),
        v.redirtbl@[22].spec_bytes() == b.subrange(off + 200, off + 208),
        v.redirtbl@[23].spec_bytes() == b.subrange(off + 208, off + 216),
    ensures
        v.spec_bytes() == b.subrange(off, off + KVM_IOAPIC_STATE_SIZE),
{
    let s = b.subrange(off, off + KVM_IOAPIC_STATE_SIZE as int);
    lemma_u64_le_bytes_of(b.subrange(off + 0, off + 8));
    lemma_u32_le_bytes_of(b.subrange(off + 8, off + 12));
    lemma_u32_le_bytes_of(b.subrange(off + 12, off + 16));
    lemma_u32_le_bytes_of(b.subrange(off + 16, off + 20));
    lemma_u32_le_bytes_of(b.subrange(off + 20, off + 24));
    lemma_subrange_subrange(b, off, off + KVM_IOAPIC_STATE_SIZE as int, 0, 8);
    lemma_subrange_subrange(b, off, off + KVM_IOAPIC_STATE_SIZE as int, 8, 12);
    lemma_subrange_subrange(b, off, off + KVM_IOAPIC_STATE_SIZE as int, 12, 16);
    lemma_subrange_subrange(b, off, off + KVM_IOAPIC_STATE_SIZE as int, 16, 20);
    lemma_subrange_subrange(b, off, off + KVM_IOAPIC_STATE_SIZE as int, 20, 24);
    lemma_subrange_subrange(b, off, off + KVM_IOAPIC_STATE_SIZE as int, 24, 32);
    lemma_subrange_subrange(b, off, off + KVM_IOAPIC_STATE_SIZE as int, 32, 40);
    lemma_subrange_subrange(b, off, off + KVM_IOAPIC_STATE_SIZE as int, 40, 48);
    lemma_subrange_subrange(b, off, off + KVM_IOAPIC_STATE_SIZE as int, 48, 56);
    lemma_subrange_subrange(b, off, off + KVM_IOAPIC_STATE_SIZE as int, 56, 64);
    lemma_subrange_subrange(b, off, off + KVM_IOAPIC_STATE_SIZE as int, 64, 72);
    lemma_subrange_subrange(b, off, off + KVM_IOAPIC_STATE_SIZE as int, 72, 80);
    lemma_subrange_subrange(b, off, off + KVM_IOAPIC_STATE_SIZE as int, 80, 88);
    lemma_subrange_subrange(b, off, off + KVM_IOAPIC_STATE_SIZE as int, 88, 96);
    lemma_subrange_subrange(b, off, off + KVM_IOAPIC_STATE_SIZE as int, 96, 104);
    lemma_subrange_subrange(b, off, off + KVM_IOAPIC_STATE_SIZE as int, 104, 112);
    lemma_subrange_subrange(b, off, off + KVM_IOAPIC_STATE_SIZE as int, 112, 120);
    lemma_subrange_subrange(b, off, off + KVM_IOAPIC_STATE_SIZE as int, 120, 128);
    lemma_subrange_subrange(b, off, off + KVM_IOAPIC_STATE_SIZE as int, 128, 136);
    lemma_subrange_subrange(b, off, off + KVM_IOAPIC_STATE_SIZE as int, 136, 144);
    lemma_subrange_subrange(b, off, off + KVM_IOAPIC_STATE_SIZE as int, 144, 152);
    lemma_subrange_subrange(b, off, off + KVM_IOAPIC_STATE_SIZE as int, 152, 160);
    lemma_subrange_subrange(b, off, off + KVM_IOAPIC_STATE_SIZE as int, 160, 168);
    lemma_subrange_subrange(b, off, off + KVM_IOAPIC_STATE_SIZE as int, 168, 176);
    lemma_subrange_subrange(b, off, off + KVM_IOAPIC_STATE_SIZE as int, 176, 184);
    lemma_subrange_subrange(b, off, off + KVM_IOAPIC_STATE_SIZE as int, 184, 192);
    lemma_subrange_subrange(b, off, off + KVM_IOAPIC_STATE_SIZE as int, 192, 200);
    lemma_subrange_subrange(b, off, off + KVM_IOAPIC_STATE_SIZE as int, 200, 208);
    lemma_subrange_subrange(b, off, off + KVM_IOAPIC_STATE_SIZE as int, 208, 216);
    lemma_seq_parts(s, 8, 12);
    lemma_seq_parts(s, 12, 16);
    lemma_seq_parts(s, 16, 20);
    lemma_seq_parts(s, 20, 24);
    lemma_seq_parts(s, 24, 32);
    lemma_seq_parts(s, 32, 40);
    lemma_seq_parts(s, 40, 48);
    lemma_seq_parts(s, 48, 56);
    lemma_seq_parts(s, 56, 64);
    lemma_seq_parts(s, 64, 72);
    lemma_seq_parts(s, 72, 80);
    lemma_seq_parts(s, 80, 88);
    lemma_seq_parts(s, 88, 96);
    lemma_seq_parts(s, 96, 104);
    lemma_seq_parts(s, 104, 112);
    lemma_seq_parts(s, 112, 120);
    lemma_seq_parts(s, 120, 128);
    lemma_seq_parts(s, 128, 136);
    lemma_seq_parts(s, 136, 144);
    lemma_seq_parts(s, 144, 152);
    lemma_seq_parts(s, 152, 160);
    lemma_seq_parts(s, 160, 168);
    lemma_seq_parts(s, 168, 176);
    lemma_seq_parts(s, 176, 184);
    lemma_seq_parts(s, 184, 192);
    lemma_seq_parts(s, 192, 200);
    lemma_seq_parts(s, 200, 208);
    lemma_seq_parts(s, 208, 216);
    assert(s.subrange(0, KVM_IOAPIC_STATE_SIZE as int) =~= s);
    assert(v.spec_bytes() == s);
}

/// Field images of a `kvm_ioapic_state`, covering one run of fields.
#[verifier::rlimit(100)]
#[verifier::spinoff_prover]
proof fn lemma_kvm_ioapic_state_field_images_seg0(x: kvm_ioapic_state)
    ensures
        x.spec_bytes().len() == KVM_IOAPIC_STATE_SIZE,
        x.spec_bytes().subrange(208, 216) == x.redirtbl@[23].spec_bytes(),
        x.spec_bytes().subrange(200, 208) == x.redirtbl@[22].spec_bytes(),
        x.spec_bytes().subrange(192, 200) == x.redirtbl@[21].spec_bytes(),
        x.spec_bytes().subrange(184, 192) == x.redirtbl@[20].spec_bytes(),
        x.spec_bytes().subrange(176, 184) == x.redirtbl@[19].spec_bytes(),
        x.spec_bytes().subrange(168, 176) == x.redirtbl@[18].spec_bytes(),
        x.spec_bytes().subrange(160, 168) == x.redirtbl@[17].spec_bytes(),
        x.spec_bytes().subrange(152, 160) == x.redirtbl@[16].spec_bytes(),
        x.spec_bytes().subrange(0, 152) == ((((((((((((((((((((u64_le_bytes(x.base_address) + u32_le_bytes(x.ioregsel)) + u32_le_bytes(x.id)) + u32_le_bytes(x.irr)) + u32_le_bytes(x.pad)) + x.redirtbl@[0].spec_bytes()) + x.redirtbl@[1].spec_bytes()) + x.redirtbl@[2].spec_bytes()) + x.redirtbl@[3].spec_bytes()) + x.redirtbl@[4].spec_bytes()) + x.redirtbl@[5].spec_bytes()) + x.redirtbl@[6].spec_bytes()) + x.redirtbl@[7].spec_bytes()) + x.redirtbl@[8].spec_bytes()) + x.redirtbl@[9].spec_bytes()) + x.redirtbl@[10].spec_bytes()) + x.redirtbl@[11].spec_bytes()) + x.redirtbl@[12].spec_bytes()) + x.redirtbl@[13].spec_bytes()) + x.redirtbl@[14].spec_bytes()) + x.redirtbl@[15].spec_bytes()),
{
    lemma_kvm_ioapic_state_bytes_len(x);
    lemma_kvm_ioapic_state__bindgen_ty_1_bytes_len(x.redirtbl@[0]);
    lemma_kvm_ioapic_state__bindgen_ty_1_bytes_len(x.redirtbl@[1]);
    lemma_kvm_ioapic_state__bindgen_ty_1_bytes_len(x.redirtbl@[2]);
    lemma_kvm_ioapic_state__bindgen_ty_1_bytes_len(x.redirtbl@[3]);
    lemma_kvm_ioapic_state__bindgen_ty_1_bytes_len(x.redirtbl@[4]);
    lemma_kvm_ioapic_state__bindgen_ty_1_bytes_len(x.redirtbl@[5]);
    lemma_kvm_ioapic_state__bindgen_ty_1_bytes_len(x.redirtbl@[6]);
    lemma_kvm_ioapic_state__bindgen_ty_1_bytes_len(x.redirtbl@[7]);
    lemma_kvm_ioapic_state__bindgen_ty_1_bytes_len(x.redirtbl@[8]);
    lemma_kvm_ioapic_state__bindgen_ty_1_bytes_len(x.redirtbl@[9]);
    lemma_kvm_ioapic_state__bindgen_ty_1_bytes_len(x.redirtbl@[10]);
    lemma_kvm_ioapic_state__bindgen_ty_1_bytes_len(x.redirtbl@[11]);
    lemma_kvm_ioapic_state__bindgen_ty_1_bytes_len(x.redirtbl@[12]);
    lemma_kvm_ioapic_state__bindgen_ty_1_bytes_len(x.redirtbl@[13]);
    lemma_kvm_ioapic_state__bindgen_ty_1_bytes_len(x.redirtbl@[14]);
    lemma_kvm_ioapic_state__bindgen_ty_1_bytes_len(x.redirtbl@[15]);
    lemma_kvm_ioapic_state__bindgen_ty_1_bytes_len(x.redirtbl@[16]);
    lemma_kvm_ioapic_state__bindgen_ty_1_bytes_len(x.redirtbl@[17]);
    lemma_kvm_ioapic_state__bindgen_ty_1_bytes_len(x.redirtbl@[18]);
    lemma_kvm_ioapic_state__bindgen_ty_1_bytes_len(x.redirtbl@[19]);
    lemma_kvm_ioapic_state__bindgen_ty_1_bytes_len(x.redirtbl@[20]);
    lemma_kvm_ioapic_state__bindgen_ty_1_bytes_len(x.redirtbl@[21]);
    lemma_kvm_ioapic_state__bindgen_ty_1_bytes_len(x.redirtbl@[22]);
    lemma_kvm_ioapic_state__bindgen_ty_1_bytes_len(x.redirtbl@[23]);
    let p0 = u64_le_bytes(x.base_address);
    let p1 = u32_le_bytes(x.ioregsel);
    let p2 = u32_le_bytes(x.id);
    let p3 = u32_le_bytes(x.irr);
    let p4 = u32_le_bytes(x.pad);
    let p5 = x.redirtbl@[0].spec_bytes();
    let p6 = x.redirtbl@[1].spec_bytes();
    let p7 = x.redirtbl@[2].spec_bytes();
    let p8 = x.redirtbl@[3].spec_bytes();
    let p9 = x.redirtbl@[4].spec_bytes();
    let p10 = x.redirtbl@[5].spec_bytes();
    let p11 = x.redirtbl@[6].spec_bytes();
    let p12 = x.redirtbl@[7].spec_bytes();
    let p13 = x.redirtbl@[8].spec_bytes();
    let p14 = x.redirtbl@[9].spec_bytes();
    let p15 = x.redirtbl@[10].spec_bytes();
    let p16 = x.redirtbl@[11].spec_bytes();
    let p17 = x.redirtbl@[12].spec_bytes();
    let p18 = x.redirtbl@[13].spec_bytes();
    let p19 = x.redirtbl@[14].spec_bytes();
    let p20 = x.redirtbl@[15].spec_bytes();
    let p21 = x.redirtbl@[16].spec_bytes();
    let p22 = x.redirtbl@[17].spec_bytes();
    let p23 = x.redirtbl@[18].spec_bytes();
    let p24 = x.redirtbl@[19].spec_bytes();
    let p25 = x.redirtbl@[20].spec_bytes();
    let p26 = x.redirtbl@[21].spec_bytes();
    let p27 = x.redirtbl@[22].spec_bytes();
    let p28 = x.redirtbl@[23].spec_bytes();
    let t1 = p0 + p1;
    let t2 = t1 + p2;
    let t3 = t2 + p3;
    let t4 = t3 + p4;
    let t5 = t4 + p5;
    let t6 = t5 + p6;
    let t7 = t6 + p7;
    let t8 = t7 + p8;
    let t9 = t8 + p9;
    let t10 = t9 + p10;
    let t11 = t10 + p11;
    let t12 = t11 + p12;
    let t13 = t12 + p13;
    let t14 = t13 + p14;
    let t15 = t14 + p15;
    let t16 = t15 + p16;
    let t17 = t16 + p17;
    let t18 = t17 + p18;
    let t19 = t18 + p19;
    let t20 = t19 + p20;
    let t21 = t20 + p21;
    let t22 = t21 + p22;
    let t23 = t22 + p23;
    let t24 = t23 + p24;
    let t25 = t24 + p25;
    let t26 = t25 + p26;
    let t27 = t26 + p27;
    let t28 = t27 + p28;
    assert(x.spec_bytes() == t28);
    lemma_concat_parts(t27, p28);
    lemma_concat_parts(t26, p27);
    lemma_subrange_subrange(x.spec_bytes(), 0, 208, 0, 200);
    lemma_subrange_subrange(x.spec_bytes(), 0, 208, 200, 208);
    lemma_concat_parts(t25, p26);
    lemma_subrange_subrange(x.spec_bytes(), 0, 200, 0, 192);
    lemma_subrange_subrange(x.spec_bytes(), 0, 200, 192, 200);
    lemma_concat_parts(t24, p25);
    lemma_subrange_subrange(x.spec_bytes(), 0, 192, 0, 184);
    lemma_subrange_subrange(x.spec_bytes(), 0, 192, 184, 192);
    lemma_concat_parts(t23, p24);
    lemma_subrange_subrange(x.spec_bytes(), 0, 184, 0, 176);
    lemma_subrange_subrange(x.spec_bytes(), 0, 184, 176, 184);
    lemma_concat_parts(t22, p23);
    lemma_subrange_subrange(x.spec_bytes(), 0, 176, 0, 168);
    lemma_subrange_subrange(x.spec_bytes(), 0, 176, 168, 176);
    lemma_concat_parts(t21, p22);
    lemma_subrange_subrange(x.spec_bytes(), 0, 168, 0, 160);
    lemma_subrange_subrange(x.spec_bytes(), 0, 168, 160, 168);
    lemma_concat_parts(t20, p21);
    lemma_subrange_subrange(x.spec_bytes(), 0, 160, 0, 152);
    lemma_subrange_subrange(x.spec_bytes(), 0, 160, 152, 160);
}

/// Field images of a `kvm_ioapic_state`, covering one run of fields.
#[verifier::rlimit(100)]
#[verifier::spinoff_prover]
proof fn lemma_kvm_ioapic_state_field_images_seg1(x: kvm_ioapic_state)
    ensures
        x.spec_bytes().len() == KVM_IOAPIC_STATE_SIZE,
        x.spec_bytes().subrange(144, 152) == x.redirtbl@[15].spec_bytes(),
        x.spec_bytes().subrange(136, 144) == x.redirtbl@[14].spec_bytes(),
        x.spec_bytes().subrange(128, 136) == x.redirtbl@[13].spec_bytes(),
        x.spec_bytes().subrange(120, 128) == x.redirtbl@[12].spec_bytes(),
        x.spec_bytes().subrange(112, 120) == x.redirtbl@[11].spec_bytes(),
        x.spec_bytes().subrange(104, 112) == x.redirtbl@[10].spec_bytes(),
        x.spec_bytes().subrange(96, 104) == x.redirtbl@[9].spec_bytes(),
        x.spec_bytes().subrange(88, 96) == x.redirtbl@[8].spec_bytes(),
        x.spec_bytes().subrange(0, 88) == ((((((((((((u64_le_bytes(x.base_address) + u32_le_bytes(x.ioregsel)) + u32_le_bytes(x.id)) + u32_le_bytes(x.irr)) + u32_le_bytes(x.pad)) + x.redirtbl@[0].spec_bytes()) + x.redirtbl@[1].spec_bytes()) + x.redirtbl@[2].spec_bytes()) + x.redirtbl@[3].spec_bytes()) + x.redirtbl@[4].spec_bytes()) + x.redirtbl@[5].spec_bytes()) + x.redirtbl@[6].spec_bytes()) + x.redirtbl@[7].spec_bytes()),
{
    lemma_kvm_ioapic_state_bytes_len(x);
    lemma_kvm_ioapic_state__bindgen_ty_1_bytes_len(x.redirtbl@[0]);
    lemma_kvm_ioapic_state__bindgen_ty_1_bytes_len(x.redirtbl@[1]);
    lemma_kvm_ioapic_state__bindgen_ty_1_bytes_len(x.redirtbl@[2]);
    lemma_kvm_ioapic_state__bindgen_ty_1_bytes_len(x.redirtbl@[3]);
    lemma_kvm_ioapic_state__bindgen_ty_1_bytes_len(x.redirtbl@[4]);
    lemma_kvm_ioapic_state__bindgen_ty_1_bytes_len(x.redirtbl@[5]);
    lemma_kvm_ioapic_state__bindgen_ty_1_bytes_len(x.redirtbl@[6]);
    lemma_kvm_ioapic_state__bindgen_ty_1_bytes_len(x.redirtbl@[7]);
    lemma_kvm_ioapic_state__bindgen_ty_1_bytes_len(x.redirtbl@[8]);
    lemma_kvm_ioapic_state__bindgen_ty_1_bytes_len(x.redirtbl@[9]);
    lemma_kvm_ioapic_state__bindgen_ty_1_bytes_len(x.redirtbl@[10]);
    lemma_kvm_ioapic_state__bindgen_ty_1_bytes_len(x.redirtbl@[11]);
    lemma_kvm_ioapic_state__bindgen_ty_1_bytes_len(x.redirtbl@[12]);
    lemma_kvm_ioapic_state__bindgen_ty_1_bytes_len(x.redirtbl@[13]);
    lemma_kvm_ioapic_state__bindgen_ty_1_bytes_len(x.redirtbl@[14]);
    lemma_kvm_ioapic_state__bindgen_ty_1_bytes_len(x.redirtbl@[15]);
    lemma_kvm_ioapic_state__bindgen_ty_1_bytes_len(x.redirtbl@[16]);
    lemma_kvm_ioapic_state__bindgen_ty_1_bytes_len(x.redirtbl@[17]);
    lemma_kvm_ioapic_state__bindgen_ty_1_bytes_len(x.redirtbl@[18]);
    lemma_kvm_ioapic_state__bindgen_ty_1_bytes_len(x.redirtbl@[19]);
    lemma_kvm_ioapic_state__bindgen_ty_1_bytes_len(x.redirtbl@[20]);
    lemma_kvm_ioapic_state__bindgen_ty_1_bytes_len(x.redirtbl@[21]);
    lemma_kvm_ioapic_state__bindgen_ty_1_bytes_len(x.redirtbl@[22]);
    lemma_kvm_ioapic_state__bindgen_ty_1_bytes_len(x.redirtbl@[23]);
    let p0 = u64_le_bytes(x.base_address);
    let p1 = u32_le_bytes(x.ioregsel);
    let p2 = u32_le_bytes(x.id);
    let p3 = u32_le_bytes(x.irr);
    let p4 = u32_le_bytes(x.pad);
    let p5 = x.redirtbl@[0].spec_bytes();
    let p6 = x.redirtbl@[1].spec_bytes();
    let p7 = x.redirtbl@[2].spec_bytes();
    let p8 = x.redirtbl@[3].spec_bytes();
    let p9 = x.redirtbl@[4].spec_bytes();
    let p10 = x.redirtbl@[5].spec_bytes();
    let p11 = x.redirtbl@[6].spec_bytes();
    let p12 = x.redirtbl@[7].spec_bytes();
    let p13 = x.redirtbl@[8].spec_bytes();
    let p14 = x.redirtbl@[9].spec_bytes();
    let p15 = x.redirtbl@[10].spec_bytes();
    let p16 = x.redirtbl@[11].spec_bytes();
    let p17 = x.redirtbl@[12].spec_bytes();
    let p18 = x.redirtbl@[13].spec_bytes();
    let p19 = x.redirtbl@[14].spec_bytes();
    let p20 = x.redirtbl@[15].spec_bytes();
    let t1 = p0 + p1;
    let t2 = t1 + p2;
    let t3 = t2 + p3;
    let t4 = t3 + p4;
    let t5 = t4 + p5;
    let t6 = t5 + p6;
    let t7 = t6 + p7;
    let t8 = t7 + p8;
    let t9 = t8 + p9;
    let t10 = t9 + p10;
    let t11 = t10 + p11;
    let t12 = t11 + p12;
    let t13 = t12 + p13;
    let t14 = t13 + p14;
    let t15 = t14 + p15;
    let t16 = t15 + p16;
    let t17 = t16 + p17;
    let t18 = t17 + p18;
    let t19 = t18 + p19;
    let t20 = t19 + p20;
    lemma_kvm_ioapic_state_field_images_seg0(x);
    lemma_concat_parts(t19, p20);
    lemma_subrange_subrange(x.spec_bytes(), 0, 152, 0, 144);
    lemma_subrange_subrange(x.spec_bytes(), 0, 152, 144, 152);
    lemma_concat_parts(t18, p19);
    lemma_subrange_subrange(x.spec_bytes(), 0, 144, 0, 136);
    lemma_subrange_subrange(x.spec_bytes(), 0, 144, 136, 144);
    lemma_concat_parts(t17, p18);
    lemma_subrange_subrange(x.spec_bytes(), 0, 136, 0, 128);
    lemma_subrange_subrange(x.spec_bytes(), 0, 136, 128, 136);
    lemma_concat_parts(t16, p17);
    lemma_subrange_subrange(x.spec_bytes(), 0, 128, 0, 120);
    lemma_subrange_subrange(x.spec_bytes(), 0, 128, 120, 128);
    lemma_concat_parts(t15, p16);
    lemma_subrange_subrange(x.spec_bytes(), 0, 120, 0, 112);
    lemma_subrange_subrange(x.spec_bytes(), 0, 120, 112, 120);
    lemma_concat_parts(t14, p15);
    lemma_subrange_subrange(x.spec_bytes(), 0, 112, 0, 104);
    lemma_subrange_subrange(x.spec_bytes(), 0, 112, 104, 112);
    lemma_concat_parts(t13, p14);
    lemma_subrange_subrange(x.spec_bytes(), 0, 104, 0, 96);
    lemma_subrange_subrange(x.spec_bytes(), 0, 104, 96, 104);
    lemma_concat_parts(t12, p13);
    lemma_subrange_subrange(x.spec_bytes(), 0, 96, 0, 88);
    lemma_subrange_subrange(x.spec_bytes(), 0, 96, 88, 96);
}

/// Field images of a `kvm_ioapic_state`, covering one run of fields.
#[verifier::rlimit(100)]
#[verifier::spinoff_prover]
proof fn lemma_kvm_ioapic_state_field_images_seg2(x: kvm_ioapic_state)
    ensures
        x.spec_bytes().len() == KVM_IOAPIC_STATE_SIZE,
        x.spec_bytes().subrange(80, 88) == x.redirtbl@[7].spec_bytes(),
        x.spec_bytes().subrange(72, 80) == x.redirtbl@[6].spec_bytes(),
        x.spec_bytes().subrange(64, 72) == x.redirtbl@[5].spec_bytes(),
        x.spec_bytes().subrange(56, 64) == x.redirtbl@[4].spec_bytes(),
        x.spec_bytes().subrange(48, 56) == x.redirtbl@[3].spec_bytes(),
        x.spec_bytes().subrange(40, 48) == x.redirtbl@[2].spec_bytes(),
        x.spec_bytes().subrange(32, 40) == x.redirtbl@[1].spec_bytes(),
        x.spec_bytes().subrange(24, 32) == x.redirtbl@[0].spec_bytes(),
        x.spec_bytes().subrange(0, 24) == ((((u64_le_bytes(x.base_address) + u32_le_bytes(x.ioregsel)) + u32_le_bytes(x.id)) + u32_le_bytes(x.irr)) + u32_le_bytes(x.pad)),
{
    lemma_kvm_ioapic_state_bytes_len(x);
    lemma_kvm_ioapic_state__bindgen_ty_1_bytes_len(x.redirtbl@[0]);
    lemma_kvm_ioapic_state__bindgen_ty_1_bytes_len(x.redirtbl@[1]);
    lemma_kvm_ioapic_state__bindgen_ty_1_bytes_len(x.redirtbl@[2]);
    lemma_kvm_ioapic_state__bindgen_ty_1_bytes_len(x.redirtbl@[3]);
    lemma_kvm_ioapic_state__bindgen_ty_1_bytes_len(x.redirtbl@[4]);
    lemma_kvm_ioapic_state__bindgen_ty_1_bytes_len(x.redirtbl@[5]);
    lemma_kvm_ioapic_state__bindgen_ty_1_bytes_len(x.redirtbl@[6]);
    lemma_kvm_ioapic_state__bindgen_ty_1_bytes_len(x.redirtbl@[7]);
    lemma_kvm_ioapic_state__bindgen_ty_1_bytes_len(x.redirtbl@[8]);
    lemma_kvm_ioapic_state__bindgen_ty_1_bytes_len(x.redirtbl@[9]);
    lemma_kvm_ioapic_state__bindgen_ty_1_bytes_len(x.redirtbl@[10]);
    lemma_kvm_ioapic_state__bindgen_ty_1_bytes_len(x.redirtbl@[11]);
    lemma_kvm_ioapic_state__bindgen_ty_1_bytes_len(x.redirtbl@[12]);
    lemma_kvm_ioapic_state__bindgen_ty_1_bytes_len(x.redirtbl@[13]);
    lemma_kvm_ioapic_state__bindgen_ty_1_bytes_len(x.redirtbl@[14]);
    lemma_kvm_ioapic_state__bindgen_ty_1_bytes_len(x.redirtbl@[15]);
    lemma_kvm_ioapic_state__bindgen_ty_1_bytes_len(x.redirtbl@[16]);
    lemma_kvm_ioapic_state__bindgen_ty_1_bytes_len(x.redirtbl@[17]);
    lemma_kvm_ioapic_state__bindgen_ty_1_bytes_len(x.redirtbl@[18]);
    lemma_kvm_ioapic_state__bindgen_ty_1_bytes_len(x.redirtbl@[19]);
    lemma_kvm_ioapic_state__bindgen_ty_1_bytes_len(x.redirtbl@[20]);
    lemma_kvm_ioapic_state__bindgen_ty_1_bytes_len(x.redirtbl@[21]);
    lemma_kvm_ioapic_state__bindgen_ty_1_bytes_len(x.redirtbl@[22]);
    lemma_kvm_ioapic_state__bindgen_ty_1_bytes_len(x.redirtbl@[23]);
    let p0 = u64_le_bytes(x.base_address);
    let p1 = u32_le_bytes(x.ioregsel);
    let p2 = u32_le_bytes(x.id);
    let p3 = u32_le_bytes(x.irr);
    let p4 = u32_le_bytes(x.pad);
    let p5 = x.redirtbl@[0].spec_bytes();
    let p6 = x.redirtbl@[1].spec_bytes();
    let p7 = x.redirtbl@[2].spec_bytes();
    let p8 = x.redirtbl@[3].spec_bytes();
    let p9 = x.redirtbl@[4].spec_bytes();
    let p10 = x.redirtbl@[5].spec_bytes();
    let p11 = x.redirtbl@[6].spec_bytes();
    let p12 = x.redirtbl@[7].spec_bytes();
    let t1 = p0 + p1;
    let t2 = t1 + p2;
    let t3 = t2 + p3;
    let t4 = t3 + p4;
    let t5 = t4 + p5;
    let t6 = t5 + p6;
    let t7 = t6 + p7;
    let t8 = t7 + p8;
    let t9 = t8 + p9;
    let t10 = t9 + p10;
    let t11 = t10 + p11;
    let t12 = t11 + p12;
    lemma_kvm_ioapic_state_field_images_seg1(x);
    lemma_concat_parts(t11, p12);
    lemma_subrange_subrange(x.spec_bytes(), 0, 88, 0, 80);
    lemma_subrange_subrange(x.spec_bytes(), 0, 88, 80, 88);
    lemma_concat_parts(t10, p11);
    lemma_subrange_subrange(x.spec_bytes(), 0, 80, 0, 72);
    lemma_subrange_subrange(x.spec_bytes(), 0, 80, 72, 80);
    lemma_concat_parts(t9, p10);
    lemma_subrange_subrange(x.spec_bytes(), 0, 72, 0, 64);
    lemma_subrange_subrange(x.spec_bytes(), 0, 72, 64, 72);
    lemma_concat_parts(t8, p9);
    lemma_subrange_subrange(x.spec_bytes(), 0, 64, 0, 56);
    lemma_subrange_subrange(x.spec_bytes(), 0, 64, 56, 64);
    lemma_concat_parts(t7, p8);
    lemma_subrange_subrange(x.spec_bytes(), 0, 56, 0, 48);
    lemma_subrange_subrange(x.spec_bytes(), 0, 56, 48, 56);
    lemma_concat_parts(t6, p7);
    lemma_subrange_subrange(x.spec_bytes(), 0, 48, 0, 40);
    lemma_subrange_subrange(x.spec_bytes(), 0, 48, 40, 48);
    lemma_concat_parts(t5, p6);
    lemma_subrange_subrange(x.spec_bytes(), 0, 40, 0, 32);
    lemma_subrange_subrange(x.spec_bytes(), 0, 40, 32, 40);
    lemma_concat_parts(t4, p5);
    lemma_subrange_subrange(x.spec_bytes(), 0, 32, 0, 24);
    lemma_subrange_subrange(x.spec_bytes(), 0, 32, 24, 32);
}

/// Field images of a `kvm_ioapic_state`, covering one run of fields.
#[verifier::rlimit(100)]
#[verifier::spinoff_prover]
proof fn lemma_kvm_ioapic_state_field_images_seg3(x: kvm_ioapic_state)
    ensures
        x.spec_bytes().len() == KVM_IOAPIC_STATE_SIZE,
        x.spec_bytes().subrange(20, 24) == u32_le_bytes(x.pad),
        x.spec_bytes().subrange(16, 20) == u32_le_bytes(x.irr),
        x.spec_bytes().subrange(12, 16) == u32_le_bytes(x.id),
        x.spec_bytes().subrange(8, 12) == u32_le_bytes(x.ioregsel),
        x.spec_bytes().subrange(0, 8) == u64_le_bytes(x.base_address),
{
    lemma_kvm_ioapic_state_bytes_len(x);
    lemma_kvm_ioapic_state__bindgen_ty_1_bytes_len(x.redirtbl@[0]);
    lemma_kvm_ioapic_state__bindgen_ty_1_bytes_len(x.redirtbl@[1]);
    lemma_kvm_ioapic_state__bindgen_ty_1_bytes_len(x.redirtbl@[2]);
    lemma_kvm_ioapic_state__bindgen_ty_1_bytes_len(x.redirtbl@[3]);
    lemma_kvm_ioapic_state__bindgen_ty_1_bytes_len(x.redirtbl@[4]);
    lemma_kvm_ioapic_state__bindgen_ty_1_bytes_len(x.redirtbl@[5]);
    lemma_kvm_ioapic_state__bindgen_ty_1_bytes_len(x.redirtbl@[6]);
    lemma_kvm_ioapic_state__bindgen_ty_1_bytes_len(x.redirtbl@[7]);
    lemma_kvm_ioapic_state__bindgen_ty_1_bytes_len(x.redirtbl@[8]);
    lemma_kvm_ioapic_state__bindgen_ty_1_bytes_len(x.redirtbl@[9]);
    lemma_kvm_ioapic_state__bindgen_ty_1_bytes_len(x.redirtbl@[10]);
    lemma_kvm_ioapic_state__bindgen_ty_1_bytes_len(x.redirtbl@[11]);
    lemma_kvm_ioapic_state__bindgen_ty_1_bytes_len(x.redirtbl@[12]);
    lemma_kvm_ioapic_state__bindgen_ty_1_bytes_len(x.redirtbl@[13]);
    lemma_kvm_ioapic_state__bindgen_ty_1_bytes_len(x.redirtbl@[14]);
    lemma_kvm_ioapic_state__bindgen_ty_1_bytes_len(x.redirtbl@[15]);
    lemma_kvm_ioapic_state__bindgen_ty_1_bytes_len(x.redirtbl@[16]);
    lemma_kvm_ioapic_state__bindgen_ty_1_bytes_len(x.redirtbl@[17]);
    lemma_kvm_ioapic_state__bindgen_ty_1_bytes_len(x.redirtbl@[18]);
    lemma_kvm_ioapic_state__bindgen_ty_1_bytes_len(x.redirtbl@[19]);
    lemma_kvm_ioapic_state__bindgen_ty_1_bytes_len(x.redirtbl@[20]);
    lemma_kvm_ioapic_state__bindgen_ty_1_bytes_len(x.redirtbl@[21]);
    lemma_kvm_ioapic_state__bindgen_ty_1_bytes_len(x.redirtbl@[22]);
    lemma_kvm_ioapic_state__bindgen_ty_1_bytes_len(x.redirtbl@[23]);
    let p0 = u64_le_bytes(x.base_address);
    let p1 = u32_le_bytes(x.ioregsel);
    let p2 = u32_le_bytes(x.id);
    let p3 = u32_le_bytes(x.irr);
    let p4 = u32_le_bytes(x.pad);
    let t1 = p0 + p1;
    let t2 = t1 + p2;
    let t3 = t2 + p3;
    let t4 = t3 + p4;
    lemma_kvm_ioapic_state_field_images_seg2(x);
    lemma_concat_parts(t3, p4);
    lemma_subrange_subrange(x.spec_bytes(), 0, 24, 0, 20);
    lemma_subrange_subrange(x.spec_bytes(), 0, 24, 20, 24);
    lemma_concat_parts(t2, p3);
    lemma_subrange_subrange(x.spec_bytes(), 0, 20, 0, 16);
    lemma_subrange_subrange(x.spec_bytes(), 0, 20, 16, 20);
    lemma_concat_parts(t1, p2);
    lemma_subrange_subrange(x.spec_bytes(), 0, 16, 0, 12);
    lemma_subrange_subrange(x.spec_bytes(), 0, 16, 12, 16);
    lemma_concat_parts(p0, p1);
    lemma_subrange_subrange(x.spec_bytes(), 0, 12, 0, 8);
    lemma_subrange_subrange(x.spec_bytes(), 0, 12, 8, 12);
}

/// Each field's image stands at its kernel offset inside the image of
/// a `kvm_ioapic_state`.
proof fn lemma_kvm_ioapic_state_field_images(x: kvm_ioapic_state)
    ensures
        x.spec_bytes().len() == KVM_IOAPIC_STATE_SIZE,
        x.spec_bytes().subrange(0, 8) == u64_le_bytes(x.base_address),
        x.spec_bytes().subrange(8, 12) == u32_le_bytes(x.ioregsel),
        x.spec_bytes().subrange(12, 16) == u32_le_bytes(x.id),
        x.spec_bytes().subrange(16, 20) == u32_le_bytes(x.irr),
        x.spec_bytes().subrange(20, 24) == u32_le_bytes(x.pad),
        x.spec_bytes().subrange(24, 32) == x.redirtbl@[0].spec_bytes(),
        x.spec_bytes().subrange(32, 40) == x.redirtbl@[1].spec_bytes(),
        x.spec_bytes().subrange(40, 48) == x.redirtbl@[2].spec_bytes(),
        x.spec_bytes().subrange(48, 56) == x.redirtbl@[3].spec_bytes(),
        x.spec_bytes().subrange(56, 64) == x.redirtbl@[4].spec_bytes(),
        x.spec_bytes().subrange(64, 72) == x.redirtbl@[5].spec_bytes(),
        x.spec_bytes().subrange(72, 80) == x.redirtbl@[6].spec_bytes(),
        x.spec_bytes().subrange(80, 88) == x.redirtbl@[7].spec_bytes(),
        x.spec_bytes().subrange(88, 96) == x.redirtbl@[8].spec_bytes(),
        x.spec_bytes().subrange(96, 104) == x.redirtbl@[9].spec_bytes(),
        x.spec_bytes().subrange(104, 112) == x.redirtbl@[10].spec_bytes(),
        x.spec_bytes().subrange(112, 120) == x.redirtbl@[11].spec_bytes(),
        x.spec_bytes().subrange(120, 128) == x.redirtbl@[12].spec_bytes(),
        x.spec_bytes().subrange(128, 136) == x.redirtbl@[13].spec_bytes(),
        x.spec_bytes().subrange(136, 144) == x.redirtbl@[14].spec_bytes(),
        x.spec_bytes().subrange(144, 152) == x.redirtbl@[15].spec_bytes(),
        x.spec_bytes().subrange(152, 160) == x.redirtbl@[16].spec_bytes(),
        x.spec_bytes().subrange(160, 168) == x.redirtbl@[17].spec_bytes(),
        x.spec_bytes().subrange(168, 176) == x.redirtbl@[18].spec_bytes(),
        x.spec_bytes().subrange(176, 184) == x.redirtbl@[19].spec_bytes(),
        x.spec_bytes().subrange(184, 192) == x.redirtbl@[20].spec_bytes(),
        x.spec_bytes().subrange(192, 200) == x.redirtbl@[21].spec_bytes(),
        x.spec_bytes().subrange(200, 208) == x.redirtbl@[22].spec_bytes(),
        x.spec_bytes().subrange(208, 216) == x.redirtbl@[23].spec_bytes(),
{
    lemma_kvm_ioapic_state_field_images_seg0(x);
    lemma_kvm_ioapic_state_field_images_seg1(x);
    lemma_kvm_ioapic_state_field_images_seg2(x);
    lemma_kvm_ioapic_state_field_images_seg3(x);
}

/// The byte image determines the structure: reading an image back
/// always yields the one value that produced it.
pub proof fn lemma_kvm_ioapic_state_image_injective(a: kvm_ioapic_state, b: kvm_ioapic_state)
    requires
        a.spec_bytes() == b.spec_bytes(),
    ensures
        a == b,
{
    lemma_kvm_ioapic_state_field_images(a);
    lemma_kvm_ioapic_state_field_images(b);
    lemma_u64_le_roundtrip(a.base_address);
    lemma_u64_le_roundtrip(b.base_address);
    lemma_u32_le_roundtrip(a.ioregsel);
    lemma_u32_le_roundtrip(b.ioregsel);
    lemma_u32_le_roundtrip(a.id);
    lemma_u32_le_roundtrip(b.id);
    lemma_u32_le_roundtrip(a.irr);
    lemma_u32_le_roundtrip(b.irr);
    lemma_u32_le_roundtrip(a.pad);
    lemma_u32_le_roundtrip(b.pad);
    lemma_kvm_ioapic_state__bindgen_ty_1_image_injective(a.redirtbl@[0], b.redirtbl@[0]);
    lemma_kvm_ioapic_state__bindgen_ty_1_image_injective(a.redirtbl@[1], b.redirtbl@[1]);
    lemma_kvm_ioapic_state__bindgen_ty_1_image_injective(a.redirtbl@[2], b.redirtbl@[2]);
    lemma_kvm_ioapic_state__bindgen_ty_1_image_injective(a.redirtbl@[3], b.redirtbl@[3]);
    lemma_kvm_ioapic_state__bindgen_ty_1_image_injective(a.redirtbl@[4], b.redirtbl@[4]);
    lemma_kvm_ioapic_state__bindgen_ty_1_image_injective(a.redirtbl@[5], b.redirtbl@[5]);
    lemma_kvm_ioapic_state__bindgen_ty_1_image_injective(a.redirtbl@[6], b.redirtbl@[6]);
    lemma_kvm_ioapic_state__bindgen_ty_1_image_injective(a.redirtbl@[7], b.redirtbl@[7]);
    lemma_kvm_ioapic_state__bindgen_ty_1_image_injective(a.redirtbl@[8], b.redirtbl@[8]);
    lemma_kvm_ioapic_state__bindgen_ty_1_image_injective(a.redirtbl@[9], b.redirtbl@[9]);
    lemma_kvm_ioapic_state__bindgen_ty_1_image_injective(a.redirtbl@[10], b.redirtbl@[10]);
    lemma_kvm_ioapic_state__bindgen_ty_1_image_injective(a.redirtbl@[11], b.redirtbl@[11]);
    lemma_kvm_ioapic_state__bindgen_ty_1_image_injective(a.redirtbl@[12], b.redirtbl@[12]);
    lemma_kvm_ioapic_state__bindgen_ty_1_image_injective(a.redirtbl@[13], b.redirtbl@[13]);
    lemma_kvm_ioapic_state__bindgen_ty_1_image_injective(a.redirtbl@[14], b.redirtbl@[14]);
    lemma_kvm_ioapic_state__bindgen_ty_1_image_injective(a.redirtbl@[15], b.redirtbl@[15]);
    lemma_kvm_ioapic_state__bindgen_ty_1_image_injective(a.redirtbl@[16], b.redirtbl@[16]);
    lemma_kvm_ioapic_state__bindgen_ty_1_image_injective(a.redirtbl@[17], b.redirtbl@[17]);
    lemma_kvm_ioapic_state__bindgen_ty_1_image_injective(a.redirtbl@[18], b.redirtbl@[18]);
    lemma_kvm_ioapic_state__bindgen_ty_1_image_injective(a.redirtbl@[19], b.redirtbl@[19]);
    lemma_kvm_ioapic_state__bindgen_ty_1_image_injective(a.redirtbl@[20], b.redirtbl@[20]);
    lemma_kvm_ioapic_state__bindgen_ty_1_image_injective(a.redirtbl@[21], b.redirtbl@[21]);
    lemma_kvm_ioapic_state__bindgen_ty_1_image_injective(a.redirtbl@[22], b.redirtbl@[22]);
    lemma_kvm_ioapic_state__bindgen_ty_1_image_injective(a.redirtbl@[23], b.redirtbl@[23]);
    assert(a.redirtbl@ =~= b.redirtbl@);
    assert(a =~= b);
}

/// A `kvm_ioapic_state` whose fields are all zero has an all-zero byte image,
/// the image of a zeroed ioctl argument buffer.
pub proof fn lemma_kvm_ioapic_state_zero_image(x: kvm_ioapic_state)
    requires
        x.is_zeroed(),
    ensures
        x.spec_bytes() == zero_bytes(KVM_IOAPIC_STATE_SIZE as int),
{
    lemma_le_bytes_zero();
    lemma_kvm_ioapic_state__bindgen_ty_1_zero_image(x.redirtbl@[0]);
    lemma_kvm_ioapic_state__bindgen_ty_1_zero_image(x.redirtbl@[1]);
    lemma_kvm_ioapic_state__bindgen_ty_1_zero_image(x.redirtbl@[2]);
    lemma_kvm_ioapic_state__bindgen_ty_1_zero_image(x.redirtbl@[3]);
    lemma_kvm_ioapic_state__bindgen_ty_1_zero_image(x.redirtbl@[4]);
    lemma_kvm_ioapic_state__bindgen_ty_1_zero_image(x.redirtbl@[5]);
    lemma_kvm_ioapic_state__bindgen_ty_1_zero_image(x.redirtbl@[6]);
    lemma_kvm_ioapic_state__bindgen_ty_1_zero_image(x.redirtbl@[7]);
    lemma_kvm_ioapic_state__bindgen_ty_1_zero_image(x.redirtbl@[8]);
    lemma_kvm_ioapic_state__bindgen_ty_1_zero_image(x.redirtbl@[9]);
    lemma_kvm_ioapic_state__bindgen_ty_1_zero_image(x.redirtbl@[10]);
    lemma_kvm_ioapic_state__bindgen_ty_1_zero_image(x.redirtbl@[11]);
    lemma_kvm_ioapic_state__bindgen_ty_1_zero_image(x.redirtbl@[12]);
    lemma_kvm_ioapic_state__bindgen_ty_1_zero_image(x.redirtbl@[13]);
    lemma_kvm_ioapic_state__bindgen_ty_1_zero_image(x.redirtbl@[14]);
    lemma_kvm_ioapic_state__bindgen_ty_1_zero_image(x.redirtbl@[15]);
    lemma_kvm_ioapic_state__bindgen_ty_1_zero_image(x.redirtbl@[16]);
    lemma_kvm_ioapic_state__bindgen_ty_1_zero_image(x.redirtbl@[17]);
    lemma_kvm_ioapic_state__bindgen_ty_1_zero_image(x.redirtbl@[18]);
    lemma_kvm_ioapic_state__bindgen_ty_1_zero_image(x.redirtbl@[19]);
    lemma_kvm_ioapic_state__bindgen_ty_1_zero_image(x.redirtbl@[20]);
    lemma_kvm_ioapic_state__bindgen_ty_1_zero_image(x.redirtbl@[21]);
    lemma_kvm_ioapic_state__bindgen_ty_1_zero_image(x.redirtbl@[22]);
    lemma_kvm_ioapic_state__bindgen_ty_1_zero_image(x.redirtbl@[23]);
    lemma_zero_bytes_split(8, 12);
    lemma_zero_bytes_split(12, 16);
    lemma_zero_bytes_split(16, 20);
    lemma_zero_bytes_split(20, 24);
    lemma_zero_bytes_split(24, 32);
    lemma_zero_bytes_split(32, 40);
    lemma_zero_bytes_split(40, 48);
    lemma_zero_bytes_split(48, 56);
    lemma_zero_bytes_split(56, 64);
    lemma_zero_bytes_split(64, 72);
    lemma_zero_bytes_split(72, 80);
    lemma_zero_bytes_split(80, 88);
    lemma_zero_bytes_split(88, 96);
    lemma_zero_bytes_split(96, 104);
    lemma_zero_bytes_split(104, 112);
    lemma_zero_bytes_split(112, 120);
    lemma_zero_bytes_split(120, 128);
    lemma_zero_bytes_split(128, 136);
    lemma_zero_bytes_split(136, 144);
    lemma_zero_bytes_split(144, 152);
    lemma_zero_bytes_split(152, 160);
    lemma_zero_bytes_split(160, 168);
    lemma_zero_bytes_split(168, 176);
    lemma_zero_bytes_split(176, 184);
    lemma_zero_bytes_split(184, 192);
    lemma_zero_bytes_split(192, 200);
    lemma_zero_bytes_split(200, 208);
    lemma_zero_bytes_split(208, 216);
    assert(x.spec_bytes() == zero_bytes(KVM_IOAPIC_STATE_SIZE as int));
}

/// Byte size of the `kvm_irq_level` kernel image.
pub const KVM_IRQ_LEVEL_SIZE: usize = 8;

/// The argument of the interrupt-line ioctl: the line (or, on return,
/// a status) and the level to set it to.
#[derive(Clone, Copy, Debug, PartialEq)]
#[verifier::ext_equal]
pub struct kvm_irq_level {
    pub __bindgen_anon_1: kvm_irq_level__bindgen_ty_1,
    pub level: u32,
}

impl kvm_irq_level {
    /// The 8-byte kernel image of `self`: every field little-endian
    /// at its kernel offset.
    pub open spec fn spec_bytes(self) -> Seq<u8> {
        self.__bindgen_anon_1.spec_bytes() + u32_le_bytes(self.level)
    }

    /// Every field of `self` holds zero.
    pub open spec fn is_zeroed(self) -> bool {
        self.__bindgen_anon_1.is_zeroed() && self.level == 0
    }

    /// Appends the image of `self` to `out`.
    pub fn push_image(&self, out: &mut Vec<u8>)
        ensures
            final(out)@ == old(out)@ + self.spec_bytes(),
    {
        let ghost base: Seq<u8> = out@;
        self.__bindgen_anon_1.push_image(out);
        let ghost mut acc: Seq<u8> = self.__bindgen_anon_1.spec_bytes();
        push_u32_le(out, self.level);
        proof {
            lemma_concat_assoc(base, acc, u32_le_bytes(self.level));
            acc = acc + (u32_le_bytes(self.level));
        }
        proof {
            assert(out@ == base + acc);
            assert(acc == self.spec_bytes());
        }
    }

    /// The image of `self` as a fresh buffer.
    pub fn to_bytes(&self) -> (out: Vec<u8>)
        ensures
            out@ == self.spec_bytes(),
            out@.len() == KVM_IRQ_LEVEL_SIZE,
    {
        let mut out: Vec<u8> = Vec::new();
        self.push_image(&mut out);
        proof {
            lemma_concat_empty_left(self.spec_bytes());
            lemma_kvm_irq_level_bytes_len(*self);
        }
        out
    }

    /// Reads the structure whose image starts at offset `off` of `buf`.
    pub fn read_at(buf: &[u8], off: usize) -> (v: Self)
        requires
            off + KVM_IRQ_LEVEL_SIZE <= buf@.len(),
        ensures
            v.spec_bytes() == buf@.subrange(off as int, off as int + KVM_IRQ_LEVEL_SIZE),
    {
        let n: usize = buf.len();
        proof {
            assert(off + KVM_IRQ_LEVEL_SIZE <= n);
        }
        let v = kvm_irq_level {
            __bindgen_anon_1: kvm_irq_level__bindgen_ty_1::read_at(buf, off),
            level: read_u32_le(buf, off + 4),
        };
        proof {
            lemma_kvm_irq_level_read_at(v, buf@, off as int);
        }
        v
    }

    /// Reads a structure image from the start of `buf`, failing when the
    /// buffer is too short to hold one.
    pub fn from_bytes(buf: &[u8]) -> (r: Result<Self, CodecError>)
        ensures
            buf@.len() < KVM_IRQ_LEVEL_SIZE ==> r == Err::<kvm_irq_level, CodecError>(
                CodecError::IncompleteBuffer,
            ),
            buf@.len() >= KVM_IRQ_LEVEL_SIZE ==> (r matches Ok(v) && v.spec_bytes() == buf@.subrange(
                0,
                KVM_IRQ_LEVEL_SIZE as int,
            )),
    {
        if buf.len() < KVM_IRQ_LEVEL_SIZE {
            Err(CodecError::IncompleteBuffer)
        } else {
            Ok(Self::read_at(buf, 0))
        }
    }
}

impl Default for kvm_irq_level {
    /// Every field zero: the zeroed ioctl argument convention.
    fn default() -> (r: Self)
        ensures
            r.is_zeroed(),
    {
        let r = kvm_irq_level {
            __bindgen_anon_1: kvm_irq_level__bindgen_ty_1::default(),
            level: 0,
        };
        r
    }
}

/// The image of a `kvm_irq_level` is exactly 8 bytes.
pub proof fn lemma_kvm_irq_level_bytes_len(x: kvm_irq_level)
    ensures
        x.spec_bytes().len() == KVM_IRQ_LEVEL_SIZE,
{
    lemma_kvm_irq_level__bindgen_ty_1_bytes_len(x.__bindgen_anon_1);
}

/// A `kvm_irq_level` whose fields were decoded from a buffer has that
/// buffer segment as its image.
#[verifier::rlimit(100)]
#[verifier::spinoff_prover]
proof fn lemma_kvm_irq_level_read_at(v: kvm_irq_level, b: Seq<u8>, off: int)
    requires
        0 <= off,
        off + KVM_IRQ_LEVEL_SIZE <= b.len(),
        v.__bindgen_anon_1.spec_bytes() == b.subrange(off + 0, off + 4),
        v.level == u32_of_le_bytes(b.subrange(off + 4, off + 8)),
    ensures
        v.spec_bytes() == b.subrange(off, off + KVM_IRQ_LEVEL_SIZE),
{
    let s = b.subrange(off, off + KVM_IRQ_LEVEL_SIZE as int);
    lemma_u32_le_bytes_of(b.subrange(off + 4, off + 8));
    lemma_subrange_subrange(b, off, off + KVM_IRQ_LEVEL_SIZE as int, 0, 4);
    lemma_subrange_subrange(b, off, off + KVM_IRQ_LEVEL_SIZE as int, 4, 8);
    lemma_seq_parts(s, 4, 8);
    assert(s.subrange(0, KVM_IRQ_LEVEL_SIZE as int) =~= s);
    assert(v.spec_bytes() == s);
}

/// Field images of a `kvm_irq_level`, covering one run of fields.
#[verifier::rlimit(100)]
#[verifier::spinoff_prover]
proof fn lemma_kvm_irq_level_field_images_seg0(x: kvm_irq_level)
    ensures
        x.spec_bytes().len() == KVM_IRQ_LEVEL_SIZE,
        x.spec_bytes().subrange(4, 8) == u32_le_bytes(x.level),
        x.spec_bytes().subrange(0, 4) == x.__bindgen_anon_1.spec_bytes(),
{
    lemma_kvm_irq_level_bytes_len(x);
    lemma_kvm_irq_level__bindgen_ty_1_bytes_len(x.__bindgen_anon_1);
    let p0 = x.__bindgen_anon_1.spec_bytes();
    let p1 = u32_le_bytes(x.level);
    let t1 = p0 + p1;
    assert(x.spec_bytes() == t1);
    lemma_concat_parts(p0, p1);
}

/// Each field's image stands at its kernel offset inside the image of
/// a `kvm_irq_level`.
proof fn lemma_kvm_irq_level_field_images(x: kvm_irq_level)
    ensures
        x.spec_bytes().len() == KVM_IRQ_LEVEL_SIZE,
        x.spec_bytes().subrange(0, 4) == x.__bindgen_anon_1.spec_bytes(),
        x.spec_bytes().subrange(4, 8) == u32_le_bytes(x.level),
{
    lemma_kvm_irq_level_field_images_seg0(x);
}

/// The byte image determines the structure: reading an image back
/// always yields the one value that produced it.
pub proof fn lemma_kvm_irq_level_image_injective(a: kvm_irq_level, b: kvm_irq_level)
    requires
        a.spec_bytes() == b.spec_bytes(),
    ensures
        a == b,
{
    lemma_kvm_irq_level_field_images(a);
    lemma_kvm_irq_level_field_images(b);
    lemma_kvm_irq_level__bindgen_ty_1_image_injective(a.__bindgen_anon_1, b.__bindgen_anon_1);
    lemma_u32_le_roundtrip(a.level);
    lemma_u32_le_roundtrip(b.level);
    assert(a =~= b);
}

/// A `kvm_irq_level` whose fields are all zero has an all-zero byte image,
/// the image of a zeroed ioctl argument buffer.
pub proof fn lemma_kvm_irq_level_zero_image(x: kvm_irq_level)
    requires
        x.is_zeroed(),
    ensures
        x.spec_bytes() == zero_bytes(KVM_IRQ_LEVEL_SIZE as int),
{
    lemma_le_bytes_zero();
    lemma_kvm_irq_level__bindgen_ty_1_zero_image(x.__bindgen_anon_1);
    lemma_zero_bytes_split(4, 8);
    assert(x.spec_bytes() == zero_bytes(KVM_IRQ_LEVEL_SIZE as int));
}

} // verus!
