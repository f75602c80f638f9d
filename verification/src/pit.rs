//! Programmable interval timer state.
//!
//! `kvm_pit_state2` carries the three counter channels of the 8254 timer
//! together with flags, as the get/set PIT ioctls exchange them.

use vstd::prelude::*;

verus! {

broadcast use vstd::array::group_array_axioms;

use crate::codec::CodecError;
use crate::codec::i64_le_bytes;
use crate::codec::i64_of_le_bytes;
use crate::codec::lemma_concat_assoc;
use crate::codec::lemma_concat_empty_left;
use crate::codec::lemma_concat_parts;
use crate::codec::lemma_i64_le_bytes_of;
use crate::codec::lemma_i64_le_roundtrip;
use crate::codec::lemma_le_bytes_zero;
use crate::codec::lemma_seq_parts;
use crate::codec::lemma_subrange_subrange;
use crate::codec::lemma_u16_le_bytes_of;
use crate::codec::lemma_u16_le_roundtrip;
use crate::codec::lemma_u32_le_bytes_of;
use crate::codec::lemma_u32_le_roundtrip;
use crate::codec::lemma_zero_bytes_split;
use crate::codec::push_i64_le;
use crate::codec::push_u16_le;
use crate::codec::push_u32_le;
use crate::codec::push_u8;
use crate::codec::read_i64_le;
use crate::codec::read_u16_le;
use crate::codec::read_u32_le;
use crate::codec::read_u8;
use crate::codec::u16_le_bytes;
use crate::codec::u16_of_le_bytes;
use crate::codec::u32_le_bytes;
use crate::codec::u32_of_le_bytes;
use crate::codec::u64_le_bytes;
use crate::codec::zero_bytes;

/// Byte size of the `kvm_pit_channel_state` kernel image.
pub const KVM_PIT_CHANNEL_STATE_SIZE: usize = 24;

/// One counter channel of the 8254 timer.
#[derive(Clone, Copy, Debug, PartialEq)]
#[verifier::ext_equal]
pub struct kvm_pit_channel_state {
    pub count: u32,
    pub latched_count: u16,
    pub count_latched: u8,
    pub status_latched: u8,
    pub status: u8,
    pub read_state: u8,
    pub write_state: u8,
    pub write_latch: u8,
    pub rw_mode: u8,
    pub mode: u8,
    pub bcd: u8,
    pub gate: u8,
    pub count_load_time: i64,
}

impl kvm_pit_channel_state {
    /// The 24-byte kernel image of `self`: every field little-endian
    /// at its kernel offset.
    pub open spec fn spec_bytes(self) -> Seq<u8> {
        u32_le_bytes(self.count) + u16_le_bytes(self.latched_count) + seq![self.count_latched] + seq![self.status_latched] + seq![self.status] + seq![self.read_state] + seq![self.write_state] + seq![self.write_latch] + seq![self.rw_mode] + seq![self.mode] + seq![self.bcd] + seq![self.gate] + i64_le_bytes(self.count_load_time)
    }

    /// Every field of `self` holds zero.
    pub open spec fn is_zeroed(self) -> bool {
        self.count == 0 && self.latched_count == 0 && self.count_latched == 0 && self.status_latched == 0 && self.status == 0 && self.read_state == 0 && self.write_state == 0 && self.write_latch == 0 && self.rw_mode == 0 && self.mode == 0 && self.bcd == 0 && self.gate == 0 && self.count_load_time == 0
    }

    /// Appends the image of `self` to `out`.
    pub fn push_image(&self, out: &mut Vec<u8>)
        ensures
            final(out)@ == old(out)@ + self.spec_bytes(),
    {
        let ghost base: Seq<u8> = out@;
        push_u32_le(out, self.count);
        let ghost mut acc: Seq<u8> = u32_le_bytes(self.count);
        push_u16_le(out, self.latched_count);
        proof {
            lemma_concat_assoc(base, acc, u16_le_bytes(self.latched_count));
            acc = acc + (u16_le_bytes(self.latched_count));
        }
        push_u8(out, self.count_latched);
        proof {
            lemma_concat_assoc(base, acc, seq![self.count_latched]);
            acc = acc + (seq![self.count_latched]);
        }
        push_u8(out, self.status_latched);
        proof {
            lemma_concat_assoc(base, acc, seq![self.status_latched]);
            acc = acc + (seq![self.status_latched]);
        }
        push_u8(out, self.status);
        proof {
            lemma_concat_assoc(base, acc, seq![self.status]);
            acc = acc + (seq![self.status]);
        }
        push_u8(out, self.read_state);
        proof {
            lemma_concat_assoc(base, acc, seq![self.read_state]);
            acc = acc + (seq![self.read_state]);
        }
        push_u8(out, self.write_state);
        proof {
            lemma_concat_assoc(base, acc, seq![self.write_state]);
            acc = acc + (seq![self.write_state]);
        }
        push_u8(out, self.write_latch);
        proof {
            lemma_concat_assoc(base, acc, seq![self.write_latch]);
            acc = acc + (seq![self.write_latch]);
        }
        push_u8(out, self.rw_mode);
        proof {
            lemma_concat_assoc(base, acc, seq![self.rw_mode]);
            acc = acc + (seq![self.rw_mode]);
        }
        push_u8(out, self.mode);
        proof {
            lemma_concat_assoc(base, acc, seq![self.mode]);
            acc = acc + (seq![self.mode]);
        }
        push_u8(out, self.bcd);
        proof {
            lemma_concat_assoc(base, acc, seq![self.bcd]);
            acc = acc + (seq![self.bcd]);
        }
        push_u8(out, self.gate);
        proof {
            lemma_concat_assoc(base, acc, seq![self.gate]);
            acc = acc + (seq![self.gate]);
        }
        push_i64_le(out, self.count_load_time);
        proof {
            lemma_concat_assoc(base, acc, i64_le_bytes(self.count_load_time));
            acc = acc + (i64_le_bytes(self.count_load_time));
        }
        proof {
            assert(out@ == base + acc);
            assert(acc == self.spec_bytes());
        }
    }

    /// The image of `self` as a fresh buffer.
    pub fn to_bytes(&self) -> (out: Vec<u8>)
        ensures
            out@ == self.spec_bytes(),
            out@.len() == KVM_PIT_CHANNEL_STATE_SIZE,
    {
        let mut out: Vec<u8> = Vec::new();
        self.push_image(&mut out);
        proof {
            lemma_concat_empty_left(self.spec_bytes());
            lemma_kvm_pit_channel_state_bytes_len(*self);
        }
        out
    }

    /// Reads the structure whose image starts at offset `off` of `buf`.
    pub fn read_at(buf: &[u8], off: usize) -> (v: Self)
        requires
            off + KVM_PIT_CHANNEL_STATE_SIZE <= buf@.len(),
        ensures
            v.spec_bytes() == buf@.subrange(off as int, off as int + KVM_PIT_CHANNEL_STATE_SIZE),
    {
        let n: usize = buf.len();
        proof {
            assert(off + KVM_PIT_CHANNEL_STATE_SIZE <= n);
        }
        let v = kvm_pit_channel_state {
            count: read_u32_le(buf, off),
            latched_count: read_u16_le(buf, off + 4),
            count_latched: read_u8(buf, off + 6),
            status_latched: read_u8(buf, off + 7),
            status: read_u8(buf, off + 8),
            read_state: read_u8(buf, off + 9),
            write_state: read_u8(buf, off + 10),
            write_latch: read_u8(buf, off + 11),
            rw_mode: read_u8(buf, off + 12),
            mode: read_u8(buf, off + 13),
            bcd: read_u8(buf, off + 14),
            gate: read_u8(buf, off + 15),
            count_load_time: read_i64_le(buf, off + 16),
        };
        proof {
            lemma_kvm_pit_channel_state_read_at(v, buf@, off as int);
        }
        v
    }

    /// Reads a structure image from the start of `buf`, failing when the
    /// buffer is too short to hold one.
    pub fn from_bytes(buf: &[u8]) -> (r: Result<Self, CodecError>)
        ensures
            buf@.len() < KVM_PIT_CHANNEL_STATE_SIZE ==> r == Err::<kvm_pit_channel_state, CodecError>(
                CodecError::IncompleteBuffer,
            ),
            buf@.len() >= KVM_PIT_CHANNEL_STATE_SIZE ==> (r matches Ok(v) && v.spec_bytes() == buf@.subrange(
                0,
                KVM_PIT_CHANNEL_STATE_SIZE as int,
            )),
    {
        if buf.len() < KVM_PIT_CHANNEL_STATE_SIZE {
            Err(CodecError::IncompleteBuffer)
        } else {
            Ok(Self::read_at(buf, 0))
        }
    }
}

impl Default for kvm_pit_channel_state {
    /// Every field zero: the zeroed ioctl argument convention.
    fn default() -> (r: Self)
        ensures
            r.is_zeroed(),
    {
        let r = kvm_pit_channel_state {
            count: 0,
            latched_count: 0,
            count_latched: 0,
            status_latched: 0,
            status: 0,
            read_state: 0,
            write_state: 0,
            write_latch: 0,
            rw_mode: 0,
            mode: 0,
            bcd: 0,
            gate: 0,
            count_load_time: 0,
        };
        r
    }
}

/// The image of a `kvm_pit_channel_state` is exactly 24 bytes.
pub proof fn lemma_kvm_pit_channel_state_bytes_len(x: kvm_pit_channel_state)
    ensures
        x.spec_bytes().len() == KVM_PIT_CHANNEL_STATE_SIZE,
{
}

/// A `kvm_pit_channel_state` whose fields were decoded from a buffer has that
/// buffer segment as its image.
#[verifier::rlimit(100)]
#[verifier::spinoff_prover]
proof fn lemma_kvm_pit_channel_state_read_at(v: kvm_pit_channel_state, b: Seq<u8>, off: int)
    requires
        0 <= off,
        off + KVM_PIT_CHANNEL_STATE_SIZE <= b.len(),
        v.count == u32_of_le_bytes(b.subrange(off + 0, off + 4)),
        v.latched_count == u16_of_le_bytes(b.subrange(off + 4, off + 6)),
        v.count_latched == b[off + 6],
        v.status_latched == b[off + 7],
        v.status == b[off + 8],
        v.read_state == b[off + 9],
        v.write_state == b[off + 10],
        v.write_latch == b[off + 11],
        v.rw_mode == b[off + 12],
        v.mode == b[off + 13],
        v.bcd == b[off + 14],
        v.gate == b[off + 15],
        v.count_load_time == i64_of_le_bytes(b.subrange(off + 16, off + 24)),
    ensures
        v.spec_bytes() == b.subrange(off, off + KVM_PIT_CHANNEL_STATE_SIZE),
{
    let s = b.subrange(off, off + KVM_PIT_CHANNEL_STATE_SIZE as int);
    lemma_u32_le_bytes_of(b.subrange(off + 0, off + 4));
    lemma_u16_le_bytes_of(b.subrange(off + 4, off + 6));
    assert(seq![v.count_latched] =~= b.subrange(off + 6, off + 7));
    assert(seq![v.status_latched] =~= b.subrange(off + 7, off + 8));
    assert(seq![v.status] =~= b.subrange(off + 8, off + 9));
    assert(seq![v.read_state] =~= b.subrange(off + 9, off + 10));
    assert(seq![v.write_state] =~= b.subrange(off + 10, off + 11));
    assert(seq![v.write_latch] =~= b.subrange(off + 11, off + 12));
    assert(seq![v.rw_mode] =~= b.subrange(off + 12, off + 13));
    assert(seq![v.mode] =~= b.subrange(off + 13, off + 14));
    assert(seq![v.bcd] =~= b.subrange(off + 14, off + 15));
    assert(seq![v.gate] =~= b.subrange(off + 15, off + 16));
    lemma_i64_le_bytes_of(b.subrange(off + 16, off + 24));
    lemma_subrange_subrange(b, off, off + KVM_PIT_CHANNEL_STATE_SIZE as int, 0, 4);
    lemma_subrange_subrange(b, off, off + KVM_PIT_CHANNEL_STATE_SIZE as int, 4, 6);
    lemma_subrange_subrange(b, off, off + KVM_PIT_CHANNEL_STATE_SIZE as int, 6, 7);
    lemma_subrange_subrange(b, off, off + KVM_PIT_CHANNEL_STATE_SIZE as int, 7, 8);
    lemma_subrange_subrange(b, off, off + KVM_PIT_CHANNEL_STATE_SIZE as int, 8, 9);
    lemma_subrange_subrange(b, off, off + KVM_PIT_CHANNEL_STATE_SIZE as int, 9, 10);
    lemma_subrange_subrange(b, off, off + KVM_PIT_CHANNEL_STATE_SIZE as int, 10, 11);
    lemma_subrange_subrange(b, off, off + KVM_PIT_CHANNEL_STATE_SIZE as int, 11, 12);
    lemma_subrange_subrange(b, off, off + KVM_PIT_CHANNEL_STATE_SIZE as int, 12, 13);
    lemma_subrange_subrange(b, off, off + KVM_PIT_CHANNEL_STATE_SIZE as int, 13, 14);
    lemma_subrange_subrange(b, off, off + KVM_PIT_CHANNEL_STATE_SIZE as int, 14, 15);
    lemma_subrange_subrange(b, off, off + KVM_PIT_CHANNEL_STATE_SIZE as int, 15, 16);
    lemma_subrange_subrange(b, off, off + KVM_PIT_CHANNEL_STATE_SIZE as int, 16, 24);
    lemma_seq_parts(s, 4, 6);
    lemma_seq_parts(s, 6, 7);
    lemma_seq_parts(s, 7, 8);
    lemma_seq_parts(s, 8, 9);
    lemma_seq_parts(s, 9, 10);
    lemma_seq_parts(s, 10, 11);
    lemma_seq_parts(s, 11, 12);
    lemma_seq_parts(s, 12, 13);
    lemma_seq_parts(s, 13, 14);
    lemma_seq_parts(s, 14, 15);
    lemma_seq_parts(s, 15, 16);
    lemma_seq_parts(s, 16, 24);
    assert(s.subrange(0, KVM_PIT_CHANNEL_STATE_SIZE as int) =~= s);
    assert(v.spec_bytes() == s);
}

/// Field images of a `kvm_pit_channel_state`, covering one run of fields.
#[verifier::rlimit(100)]
#[verifier::spinoff_prover]
proof fn lemma_kvm_pit_channel_state_field_images_seg0(x: kvm_pit_channel_state)
    ensures
        x.spec_bytes().len() == KVM_PIT_CHANNEL_STATE_SIZE,
        x.spec_bytes().subrange(16, 24) == i64_le_bytes(x.count_load_time),
        x.spec_bytes().subrange(15, 16) == seq![x.gate],
        x.spec_bytes().subrange(14, 15) == seq![x.bcd],
        x.spec_bytes().subrange(13, 14) == seq![x.mode],
        x.spec_bytes().subrange(12, 13) == seq![x.rw_mode],
        x.spec_bytes().subrange(11, 12) == seq![x.write_latch],
        x.spec_bytes().subrange(10, 11) == seq![x.write_state],
        x.spec_bytes().subrange(9, 10) == seq![x.read_state],
        x.spec_bytes().subrange(0, 9) == ((((u32_le_bytes(x.count) + u16_le_bytes(x.latched_count)) + seq![x.count_latched]) + seq![x.status_latched]) + seq![x.status]),
{
    lemma_kvm_pit_channel_state_bytes_len(x);
    let p0 = u32_le_bytes(x.count);
    let p1 = u16_le_bytes(x.latched_count);
    let p2 = seq![x.count_latched];
    let p3 = seq![x.status_latched];
    let p4 = seq![x.status];
    let p5 = seq![x.read_state];
    let p6 = seq![x.write_state];
    let p7 = seq![x.write_latch];
    let p8 = seq![x.rw_mode];
    let p9 = seq![x.mode];
    let p10 = seq![x.bcd];
    let p11 = seq![x.gate];
    let p12 = i64_le_bytes(x.count_load_time);
    let t1 = p0 + p1;
    let t2 = t1 + p2;
    let t3 = t2 + p3;
    let t4 = t3 + p4;
    let t5 = t4 + p5;
    let t6 = t5 + p6;
    let t7 = t6 + p7;
    let t8 = t7 + p8;
    let t9 = t8 + p9;
    let t10 = t9 + p10;
    let t11 = t10 + p11;
    let t12 = t11 + p12;
    assert(x.spec_bytes() == t12);
    lemma_concat_parts(t11, p12);
    lemma_concat_parts(t10, p11);
    lemma_subrange_subrange(x.spec_bytes(), 0, 16, 0, 15);
    lemma_subrange_subrange(x.spec_bytes(), 0, 16, 15, 16);
    lemma_concat_parts(t9, p10);
    lemma_subrange_subrange(x.spec_bytes(), 0, 15, 0, 14);
    lemma_subrange_subrange(x.spec_bytes(), 0, 15, 14, 15);
    lemma_concat_parts(t8, p9);
    lemma_subrange_subrange(x.spec_bytes(), 0, 14, 0, 13);
    lemma_subrange_subrange(x.spec_bytes(), 0, 14, 13, 14);
    lemma_concat_parts(t7, p8);
    lemma_subrange_subrange(x.spec_bytes(), 0, 13, 0, 12);
    lemma_subrange_subrange(x.spec_bytes(), 0, 13, 12, 13);
    lemma_concat_parts(t6, p7);
    lemma_subrange_subrange(x.spec_bytes(), 0, 12, 0, 11);
    lemma_subrange_subrange(x.spec_bytes(), 0, 12, 11, 12);
    lemma_concat_parts(t5, p6);
    lemma_subrange_subrange(x.spec_bytes(), 0, 11, 0, 10);
    lemma_subrange_subrange(x.spec_bytes(), 0, 11, 10, 11);
    lemma_concat_parts(t4, p5);
    lemma_subrange_subrange(x.spec_bytes(), 0, 10, 0, 9);
    lemma_subrange_subrange(x.spec_bytes(), 0, 10, 9, 10);
}

/// Field images of a `kvm_pit_channel_state`, covering one run of fields.
#[verifier::rlimit(100)]
#[verifier::spinoff_prover]
proof fn lemma_kvm_pit_channel_state_field_images_seg1(x: kvm_pit_channel_state)
    ensures
        x.spec_bytes().len() == KVM_PIT_CHANNEL_STATE_SIZE,
        x.spec_bytes().subrange(8, 9) == seq![x.status],
        x.spec_bytes().subrange(7, 8) == seq![x.status_latched],
        x.spec_bytes().subrange(6, 7) == seq![x.count_latched],
        x.spec_bytes().subrange(4, 6) == u16_le_bytes(x.latched_count),
        x.spec_bytes().subrange(0, 4) == u32_le_bytes(x.count),
{
    lemma_kvm_pit_channel_state_bytes_len(x);
    let p0 = u32_le_bytes(x.count);
    let p1 = u16_le_bytes(x.latched_count);
    let p2 = seq![x.count_latched];
    let p3 = seq![x.status_latched];
    let p4 = seq![x.status];
    let t1 = p0 + p1;
    let t2 = t1 + p2;
    let t3 = t2 + p3;
    let t4 = t3 + p4;
    lemma_kvm_pit_channel_state_field_images_seg0(x);
    lemma_concat_parts(t3, p4);
    lemma_subrange_subrange(x.spec_bytes(), 0, 9, 0, 8);
    lemma_subrange_subrange(x.spec_bytes(), 0, 9, 8, 9);
    lemma_concat_parts(t2, p3);
    lemma_subrange_subrange(x.spec_bytes(), 0, 8, 0, 7);
    lemma_subrange_subrange(x.spec_bytes(), 0, 8, 7, 8);
    lemma_concat_parts(t1, p2);
    lemma_subrange_subrange(x.spec_bytes(), 0, 7, 0, 6);
    lemma_subrange_subrange(x.spec_bytes(), 0, 7, 6, 7);
    lemma_concat_parts(p0, p1);
    lemma_subrange_subrange(x.spec_bytes(), 0, 6, 0, 4);
    lemma_subrange_subrange(x.spec_bytes(), 0, 6, 4, 6);
}

/// Each field's image stands at its kernel offset inside the image of
/// a `kvm_pit_channel_state`.
proof fn lemma_kvm_pit_channel_state_field_images(x: kvm_pit_channel_state)
    ensures
        x.spec_bytes().len() == KVM_PIT_CHANNEL_STATE_SIZE,
        x.spec_bytes().subrange(0, 4) == u32_le_bytes(x.count),
        x.spec_bytes().subrange(4, 6) == u16_le_bytes(x.latched_count),
        x.spec_bytes().subrange(6, 7) == seq![x.count_latched],
        x.spec_bytes().subrange(7, 8) == seq![x.status_latched],
        x.spec_bytes().subrange(8, 9) == seq![x.status],
        x.spec_bytes().subrange(9, 10) == seq![x.read_state],
        x.spec_bytes().subrange(10, 11) == seq![x.write_state],
        x.spec_bytes().subrange(11, 12) == seq![x.write_latch],
        x.spec_bytes().subrange(12, 13) == seq![x.rw_mode],
        x.spec_bytes().subrange(13, 14) == seq![x.mode],
        x.spec_bytes().subrange(14, 15) == seq![x.bcd],
        x.spec_bytes().subrange(15, 16) == seq![x.gate],
        x.spec_bytes().subrange(16, 24) == i64_le_bytes(x.count_load_time),
{
    lemma_kvm_pit_channel_state_field_images_seg0(x);
    lemma_kvm_pit_channel_state_field_images_seg1(x);
}

/// The byte image determines the structure: reading an image back
/// always yields the one value that produced it.
#[verifier::rlimit(100)]
#[verifier::spinoff_prover]
pub proof fn lemma_kvm_pit_channel_state_image_injective(a: kvm_pit_channel_state, b: kvm_pit_channel_state)
    requires
        a.spec_bytes() == b.spec_bytes(),
    ensures
        a == b,
{
    lemma_kvm_pit_channel_state_field_images(a);
    lemma_kvm_pit_channel_state_field_images(b);
    lemma_u32_le_roundtrip(a.count);
    lemma_u32_le_roundtrip(b.count);
    lemma_u16_le_roundtrip(a.latched_count);
    lemma_u16_le_roundtrip(b.latched_count);
    assert(a.count_latched == seq![a.count_latched][0] && b.count_latched == seq![b.count_latched][0]);
    assert(seq![a.count_latched][0] == seq![b.count_latched][0]);
    assert(a.status_latched == seq![a.status_latched][0] && b.status_latched == seq![b.status_latched][0]);
    assert(seq![a.status_latched][0] == seq![b.status_latched][0]);
    assert(a.status == seq![a.status][0] && b.status == seq![b.status][0]);
    assert(seq![a.status][0] == seq![b.status][0]);
    assert(a.read_state == seq![a.read_state][0] && b.read_state == seq![b.read_state][0]);
    assert(seq![a.read_state][0] == seq![b.read_state][0]);
    assert(a.write_state == seq![a.write_state][0] && b.write_state == seq![b.write_state][0]);
    assert(seq![a.write_state][0] == seq![b.write_state][0]);
    assert(a.write_latch == seq![a.write_latch][0] && b.write_latch == seq![b.write_latch][0]);
    assert(seq![a.write_latch][0] == seq![b.write_latch][0]);
    assert(a.rw_mode == seq![a.rw_mode][0] && b.rw_mode == seq![b.rw_mode][0]);
    assert(seq![a.rw_mode][0] == seq![b.rw_mode][0]);
    assert(a.mode == seq![a.mode][0] && b.mode == seq![b.mode][0]);
    assert(seq![a.mode][0] == seq![b.mode][0]);
    assert(a.bcd == seq![a.bcd][0] && b.bcd == seq![b.bcd][0]);
    assert(seq![a.bcd][0] == seq![b.bcd][0]);
    assert(a.gate == seq![a.gate][0] && b.gate == seq![b.gate][0]);
    assert(seq![a.gate][0] == seq![b.gate][0]);
    lemma_i64_le_roundtrip(a.count_load_time);
    lemma_i64_le_roundtrip(b.count_load_time);
    assert(a =~= b);
}

/// A `kvm_pit_channel_state` whose fields are all zero has an all-zero byte image,
/// the image of a zeroed ioctl argument buffer.
pub proof fn lemma_kvm_pit_channel_state_zero_image(x: kvm_pit_channel_state)
    requires
        x.is_zeroed(),
    ensures
        x.spec_bytes() == zero_bytes(KVM_PIT_CHANNEL_STATE_SIZE as int),
{
    lemma_le_bytes_zero();
    assert(seq![x.count_latched] =~= zero_bytes(1));
    assert(seq![x.status_latched] =~= zero_bytes(1));
    assert(seq![x.status] =~= zero_bytes(1));
    assert(seq![x.read_state] =~= zero_bytes(1));
    assert(seq![x.write_state] =~= zero_bytes(1));
    assert(seq![x.write_latch] =~= zero_bytes(1));
    assert(seq![x.rw_mode] =~= zero_bytes(1));
    assert(seq![x.mode] =~= zero_bytes(1));
    assert(seq![x.bcd] =~= zero_bytes(1));
    assert(seq![x.gate] =~= zero_bytes(1));
    assert(i64_le_bytes(x.count_load_time) == u64_le_bytes(0u64));
    lemma_zero_bytes_split(4, 6);
    lemma_zero_bytes_split(6, 7);
    lemma_zero_bytes_split(7, 8);
    lemma_zero_bytes_split(8, 9);
    lemma_zero_bytes_split(9, 10);
    lemma_zero_bytes_split(10, 11);
    lemma_zero_bytes_split(11, 12);
    lemma_zero_bytes_split(12, 13);
    lemma_zero_bytes_split(13, 14);
    lemma_zero_bytes_split(14, 15);
    lemma_zero_bytes_split(15, 16);
    lemma_zero_bytes_split(16, 24);
    assert(x.spec_bytes() == zero_bytes(KVM_PIT_CHANNEL_STATE_SIZE as int));
}

/// Byte size of the `kvm_pit_state2` kernel image.
pub const KVM_PIT_STATE2_SIZE: usize = 112;

/// The full timer state: three channels and the timer flags.
#[derive(Clone, Copy, Debug, PartialEq)]
#[verifier::ext_equal]
pub struct kvm_pit_state2 {
    pub channels: [kvm_pit_channel_state; 3],
    pub flags: u32,
    pub reserved: [u32; 9],
}

impl kvm_pit_state2 {
    /// The 112-byte kernel image of `self`: every field little-endian
    /// at its kernel offset.
    pub open spec fn spec_bytes(self) -> Seq<u8> {
        self.channels@[0].spec_bytes() + self.channels@[1].spec_bytes() + self.channels@[2].spec_bytes() + u32_le_bytes(self.flags) + u32_le_bytes(self.reserved@[0]) + u32_le_bytes(self.reserved@[1]) + u32_le_bytes(self.reserved@[2]) + u32_le_bytes(self.reserved@[3]) + u32_le_bytes(self.reserved@[4]) + u32_le_bytes(self.reserved@[5]) + u32_le_bytes(self.reserved@[6]) + u32_le_bytes(self.reserved@[7]) + u32_le_bytes(self.reserved@[8])
    }

    /// Every field of `self` holds zero.
    pub open spec fn is_zeroed(self) -> bool {
        (forall|k: int| 0 <= k < 3 ==> #[trigger] self.channels@[k].is_zeroed()) && self.flags == 0 && self.reserved@ == Seq::new(9, |i: int| 0u32)
    }

    /// Appends the image of `self` to `out`.
    pub fn push_image(&self, out: &mut Vec<u8>)
        ensures
            final(out)@ == old(out)@ + self.spec_bytes(),
    {
        let ghost base: Seq<u8> = out@;
        self.channels[0].push_image(out);
        let ghost mut acc: Seq<u8> = self.channels@[0].spec_bytes();
        self.channels[1].push_image(out);
        proof {
            lemma_concat_assoc(base, acc, self.channels@[1].spec_bytes());
            acc = acc + (self.channels@[1].spec_bytes());
        }
        self.channels[2].push_image(out);
        proof {
            lemma_concat_assoc(base, acc, self.channels@[2].spec_bytes());
            acc = acc + (self.channels@[2].spec_bytes());
        }
        push_u32_le(out, self.flags);
        proof {
            lemma_concat_assoc(base, acc, u32_le_bytes(self.flags));
            acc = acc + (u32_le_bytes(self.flags));
        }
        push_u32_le(out, self.reserved[0]);
        proof {
            lemma_concat_assoc(base, acc, u32_le_bytes(self.reserved@[0]));
            acc = acc + (u32_le_bytes(self.reserved@[0]));
        }
        push_u32_le(out, self.reserved[1]);
        proof {
            lemma_concat_assoc(base, acc, u32_le_bytes(self.reserved@[1]));
            acc = acc + (u32_le_bytes(self.reserved@[1]));
        }
        push_u32_le(out, self.reserved[2]);
        proof {
            lemma_concat_assoc(base, acc, u32_le_bytes(self.reserved@[2]));
            acc = acc + (u32_le_bytes(self.reserved@[2]));
        }
        push_u32_le(out, self.reserved[3]);
        proof {
            lemma_concat_assoc(base, acc, u32_le_bytes(self.reserved@[3]));
            acc = acc + (u32_le_bytes(self.reserved@[3]));
        }
        push_u32_le(out, self.reserved[4]);
        proof {
            lemma_concat_assoc(base, acc, u32_le_bytes(self.reserved@[4]));
            acc = acc + (u32_le_bytes(self.reserved@[4]));
        }
        push_u32_le(out, self.reserved[5]);
        proof {
            lemma_concat_assoc(base, acc, u32_le_bytes(self.reserved@[5]));
            acc = acc + (u32_le_bytes(self.reserved@[5]));
        }
        push_u32_le(out, self.reserved[6]);
        proof {
            lemma_concat_assoc(base, acc, u32_le_bytes(self.reserved@[6]));
            acc = acc + (u32_le_bytes(self.reserved@[6]));
        }
        push_u32_le(out, self.reserved[7]);
        proof {
            lemma_concat_assoc(base, acc, u32_le_bytes(self.reserved@[7]));
            acc = acc + (u32_le_bytes(self.reserved@[7]));
        }
        push_u32_le(out, self.reserved[8]);
        proof {
            lemma_concat_assoc(base, acc, u32_le_bytes(self.reserved@[8]));
            acc = acc + (u32_le_bytes(self.reserved@[8]));
        }
        proof {
            assert(out@ == base + acc);
            assert(acc == self.spec_bytes());
        }
    }

    /// The image of `self` as a fresh buffer.
    pub fn to_bytes(&self) -> (out: Vec<u8>)
        ensures
            out@ == self.spec_bytes(),
            out@.len() == KVM_PIT_STATE2_SIZE,
    {
        let mut out: Vec<u8> = Vec::new();
        self.push_image(&mut out);
        proof {
            lemma_concat_empty_left(self.spec_bytes());
            lemma_kvm_pit_state2_bytes_len(*self);
        }
        out
    }

    /// Reads the structure whose image starts at offset `off` of `buf`.
    pub fn read_at(buf: &[u8], off: usize) -> (v: Self)
        requires
            off + KVM_PIT_STATE2_SIZE <= buf@.len(),
        ensures
            v.spec_bytes() == buf@.subrange(off as int, off as int + KVM_PIT_STATE2_SIZE),
    {
        let n: usize = buf.len();
        proof {
            assert(off + KVM_PIT_STATE2_SIZE <= n);
        }
        let v = kvm_pit_state2 {
            channels: [
                kvm_pit_channel_state::read_at(buf, off),
                kvm_pit_channel_state::read_at(buf, off + 24),
                kvm_pit_channel_state::read_at(buf, off + 48),
            ],
            flags: read_u32_le(buf, off + 72),
            reserved: [read_u32_le(buf, off + 76), read_u32_le(buf, off + 80), read_u32_le(buf, off + 84), read_u32_le(buf, off + 88), read_u32_le(buf, off + 92), read_u32_le(buf, off + 96), read_u32_le(buf, off + 100), read_u32_le(buf, off + 104), read_u32_le(buf, off + 108)],
        };
        proof {
            lemma_kvm_pit_state2_read_at(v, buf@, off as int);
        }
        v
    }

    /// Reads a structure image from the start of `buf`, failing when the
    /// buffer is too short to hold one.
    pub fn from_bytes(buf: &[u8]) -> (r: Result<Self, CodecError>)
        ensures
            buf@.len() < KVM_PIT_STATE2_SIZE ==> r == Err::<kvm_pit_state2, CodecError>(
                CodecError::IncompleteBuffer,
            ),
            buf@.len() >= KVM_PIT_STATE2_SIZE ==> (r matches Ok(v) && v.spec_bytes() == buf@.subrange(
                0,
                KVM_PIT_STATE2_SIZE as int,
            )),
    {
        if buf.len() < KVM_PIT_STATE2_SIZE {
            Err(CodecError::IncompleteBuffer)
        } else {
            Ok(Self::read_at(buf, 0))
        }
    }
}

impl Default for kvm_pit_state2 {
    /// Every field zero: the zeroed ioctl argument convention.
    fn default() -> (r: Self)
        ensures
            r.is_zeroed(),
    {
        let channels_elem = kvm_pit_channel_state::default();
        let r = kvm_pit_state2 {
            channels: vstd::array::array_fill_for_copy_types::<kvm_pit_channel_state, 3>(channels_elem),
            flags: 0,
            reserved: vstd::array::array_fill_for_copy_types::<u32, 9>(0u32),
        };
        proof {
            assert(forall|k: int| 0 <= k < 3 ==> #[trigger] r.channels@[k].is_zeroed());
            assert(r.reserved@ =~= Seq::new(9, |i: int| 0u32));
        }
        r
    }
}

/// The image of a `kvm_pit_state2` is exactly 112 bytes.
pub proof fn lemma_kvm_pit_state2_bytes_len(x: kvm_pit_state2)
    ensures
        x.spec_bytes().len() == KVM_PIT_STATE2_SIZE,
{
    lemma_kvm_pit_channel_state_bytes_len(x.channels@[0]);
    lemma_kvm_pit_channel_state_bytes_len(x.channels@[1]);
    lemma_kvm_pit_channel_state_bytes_len(x.channels@[2]);
}

/// A `kvm_pit_state2` whose fields were decoded from a buffer has that
/// buffer segment as its image.
#[verifier::rlimit(100)]
#[verifier::spinoff_prover]
proof fn lemma_kvm_pit_state2_read_at(v: kvm_pit_state2, b: Seq<u8>, off: int)
    requires
        0 <= off,
        off + KVM_PIT_STATE2_SIZE <= b.len(),
        v.channels@[0].spec_bytes() == b.subrange(off + 0, off + 24),
        v.channels@[1].spec_bytes() == b.subrange(off + 24, off + 48),
        v.channels@[2].spec_bytes() == b.subrange(off + 48, off + 72),
        v.flags == u32_of_le_bytes(b.subrange(off + 72, off + 76)),
        v.reserved@[0] == u32_of_le_bytes(b.subrange(off + 76, off + 80)),
        v.reserved@[1] == u32_of_le_bytes(b.subrange(off + 80, off + 84)),
        v.reserved@[2] == u32_of_le_bytes(b.subrange(off + 84, off + 88)),
        v.reserved@[3] == u32_of_le_bytes(b.subrange(off + 88, off + 92)),
        v.reserved@[4] == u32_of_le_bytes(b.subrange(off + 92, off + 96)),
        v.reserved@[5] == u32_of_le_bytes(b.subrange(off + 96, off + 100)),
        v.reserved@[6] == u32_of_le_bytes(b.subrange(off + 100, off + 104)),
        v.reserved@[7] == u32_of_le_bytes(b.subrange(off + 104, off + 108)),
        v.reserved@[8] == u32_of_le_bytes(b.subrange(off + 108, off + 112)),
    ensures
        v.spec_bytes() == b.subrange(off, off + KVM_PIT_STATE2_SIZE),
{
    let s = b.subrange(off, off + KVM_PIT_STATE2_SIZE as int);
    lemma_u32_le_bytes_of(b.subrange(off + 72, off + 76));
    lemma_u32_le_bytes_of(b.subrange(off + 76, off + 80));
    lemma_u32_le_bytes_of(b.subrange(off + 80, off + 84));
    lemma_u32_le_bytes_of(b.subrange(off + 84, off + 88));
    lemma_u32_le_bytes_of(b.subrange(off + 88, off + 92));
    lemma_u32_le_bytes_of(b.subrange(off + 92, off + 96));
    lemma_u32_le_bytes_of(b.subrange(off + 96, off + 100));
    lemma_u32_le_bytes_of(b.subrange(off + 100, off + 104));
    lemma_u32_le_bytes_of(b.subrange(off + 104, off + 108));
    lemma_u32_le_bytes_of(b.subrange(off + 108, off + 112));
    lemma_subrange_subrange(b, off, off + KVM_PIT_STATE2_SIZE as int, 0, 24);
    lemma_subrange_subrange(b, off, off + KVM_PIT_STATE2_SIZE as int, 24, 48);
    lemma_subrange_subrange(b, off, off + KVM_PIT_STATE2_SIZE as int, 48, 72);
    lemma_subrange_subrange(b, off, off + KVM_PIT_STATE2_SIZE as int, 72, 76);
    lemma_subrange_subrange(b, off, off + KVM_PIT_STATE2_SIZE as int, 76, 80);
    lemma_subrange_subrange(b, off, off + KVM_PIT_STATE2_SIZE as int, 80, 84);
    lemma_subrange_subrange(b, off, off + KVM_PIT_STATE2_SIZE as int, 84, 88);
    lemma_subrange_subrange(b, off, off + KVM_PIT_STATE2_SIZE as int, 88, 92);
    lemma_subrange_subrange(b, off, off + KVM_PIT_STATE2_SIZE as int, 92, 96);
    lemma_subrange_subrange(b, off, off + KVM_PIT_STATE2_SIZE as int, 96, 100);
    lemma_subrange_subrange(b, off, off + KVM_PIT_STATE2_SIZE as int, 100, 104);
    lemma_subrange_subrange(b, off, off + KVM_PIT_STATE2_SIZE as int, 104, 108);
    lemma_subrange_subrange(b, off, off + KVM_PIT_STATE2_SIZE as int, 108, 112);
    lemma_seq_parts(s, 24, 48);
    lemma_seq_parts(s, 48, 72);
    lemma_seq_parts(s, 72, 76);
    lemma_seq_parts(s, 76, 80);
    lemma_seq_parts(s, 80, 84);
    lemma_seq_parts(s, 84, 88);
    lemma_seq_parts(s, 88, 92);
    lemma_seq_parts(s, 92, 96);
    lemma_seq_parts(s, 96, 100);
    lemma_seq_parts(s, 100, 104);
    lemma_seq_parts(s, 104, 108);
    lemma_seq_parts(s, 108, 112);
    assert(s.subrange(0, KVM_PIT_STATE2_SIZE as int) =~= s);
    assert(v.spec_bytes() == s);
}

/// Field images of a `kvm_pit_state2`, covering one run of fields.
#[verifier::rlimit(100)]
#[verifier::spinoff_prover]
proof fn lemma_kvm_pit_state2_field_images_seg0(x: kvm_pit_state2)
    ensures
        x.spec_bytes().len() == KVM_PIT_STATE2_SIZE,
        x.spec_bytes().subrange(108, 112) == u32_le_bytes(x.reserved@[8]),
        x.spec_bytes().subrange(104, 108) == u32_le_bytes(x.reserved@[7]),
        x.spec_bytes().subrange(100, 104) == u32_le_bytes(x.reserved@[6]),
        x.spec_bytes().subrange(96, 100) == u32_le_bytes(x.reserved@[5]),
        x.spec_bytes().subrange(92, 96) == u32_le_bytes(x.reserved@[4]),
        x.spec_bytes().subrange(88, 92) == u32_le_bytes(x.reserved@[3]),
        x.spec_bytes().subrange(84, 88) == u32_le_bytes(x.reserved@[2]),
        x.spec_bytes().subrange(80, 84) == u32_le_bytes(x.reserved@[1]),
        x.spec_bytes().subrange(0, 80) == ((((x.channels@[0].spec_bytes() + x.channels@[1].spec_bytes()) + x.channels@[2].spec_bytes()) + u32_le_bytes(x.flags)) + u32_le_bytes(x.reserved@[0])),
{
    lemma_kvm_pit_state2_bytes_len(x);
    lemma_kvm_pit_channel_state_bytes_len(x.channels@[0]);
    lemma_kvm_pit_channel_state_bytes_len(x.channels@[1]);
    lemma_kvm_pit_channel_state_bytes_len(x.channels@[2]);
    let p0 = x.channels@[0].spec_bytes();
    let p1 = x.channels@[1].spec_bytes();
    let p2 = x.channels@[2].spec_bytes();
    let p3 = u32_le_bytes(x.flags);
    let p4 = u32_le_bytes(x.reserved@[0]);
    let p5 = u32_le_bytes(x.reserved@[1]);
    let p6 = u32_le_bytes(x.reserved@[2]);
    let p7 = u32_le_bytes(x.reserved@[3]);
    let p8 = u32_le_bytes(x.reserved@[4]);
    let p9 = u32_le_bytes(x.reserved@[5]);
    let p10 = u32_le_bytes(x.reserved@[6]);
    let p11 = u32_le_bytes(x.reserved@[7]);
    let p12 = u32_le_bytes(x.reserved@[8]);
    let t1 = p0 + p1;
    let t2 = t1 + p2;
    let t3 = t2 + p3;
    let t4 = t3 + p4;
    let t5 = t4 + p5;
    let t6 = t5 + p6;
    let t7 = t6 + p7;
    let t8 = t7 + p8;
    let t9 = t8 + p9;
    let t10 = t9 + p10;
    let t11 = t10 + p11;
    let t12 = t11 + p12;
    assert(x.spec_bytes() == t12);
    lemma_concat_parts(t11, p12);
    lemma_concat_parts(t10, p11);
    lemma_subrange_subrange(x.spec_bytes(), 0, 108, 0, 104);
    lemma_subrange_subrange(x.spec_bytes(), 0, 108, 104, 108);
    lemma_concat_parts(t9, p10);
    lemma_subrange_subrange(x.spec_bytes(), 0, 104, 0, 100);
    lemma_subrange_subrange(x.spec_bytes(), 0, 104, 100, 104);
    lemma_concat_parts(t8, p9);
    lemma_subrange_subrange(x.spec_bytes(), 0, 100, 0, 96);
    lemma_subrange_subrange(x.spec_bytes(), 0, 100, 96, 100);
    lemma_concat_parts(t7, p8);
    lemma_subrange_subrange(x.spec_bytes(), 0, 96, 0, 92);
    lemma_subrange_subrange(x.spec_bytes(), 0, 96, 92, 96);
    lemma_concat_parts(t6, p7);
    lemma_subrange_subrange(x.spec_bytes(), 0, 92, 0, 88);
    lemma_subrange_subrange(x.spec_bytes(), 0, 92, 88, 92);
    lemma_concat_parts(t5, p6);
    lemma_subrange_subrange(x.spec_bytes(), 0, 88, 0, 84);
    lemma_subrange_subrange(x.spec_bytes(), 0, 88, 84, 88);
    lemma_concat_parts(t4, p5);
    lemma_subrange_subrange(x.spec_bytes(), 0, 84, 0, 80);
    lemma_subrange_subrange(x.spec_bytes(), 0, 84, 80, 84);
}

/// Field images of a `kvm_pit_state2`, covering one run of fields.
#[verifier::rlimit(100)]
#[verifier::spinoff_prover]
proof fn lemma_kvm_pit_state2_field_images_seg1(x: kvm_pit_state2)
    ensures
        x.spec_bytes().len() == KVM_PIT_STATE2_SIZE,
        x.spec_bytes().subrange(76, 80) == u32_le_bytes(x.reserved@[0]),
        x.spec_bytes().subrange(72, 76) == u32_le_bytes(x.flags),
        x.spec_bytes().subrange(48, 72) == x.channels@[2].spec_bytes(),
        x.spec_bytes().subrange(24, 48) == x.channels@[1].spec_bytes(),
        x.spec_bytes().subrange(0, 24) == x.channels@[0].spec_bytes(),
{
    lemma_kvm_pit_state2_bytes_len(x);
    lemma_kvm_pit_channel_state_bytes_len(x.channels@[0]);
    lemma_kvm_pit_channel_state_bytes_len(x.channels@[1]);
    lemma_kvm_pit_channel_state_bytes_len(x.channels@[2]);
    let p0 = x.channels@[0].spec_bytes();
    let p1 = x.channels@[1].spec_bytes();
    let p2 = x.channels@[2].spec_bytes();
    let p3 = u32_le_bytes(x.flags);
    let p4 = u32_le_bytes(x.reserved@[0]);
    let t1 = p0 + p1;
    let t2 = t1 + p2;
    let t3 = t2 + p3;
    let t4 = t3 + p4;
    lemma_kvm_pit_state2_field_images_seg0(x);
    lemma_concat_parts(t3, p4);
    lemma_subrange_subrange(x.spec_bytes(), 0, 80, 0, 76);
    lemma_subrange_subrange(x.spec_bytes(), 0, 80, 76, 80);
    lemma_concat_parts(t2, p3);
    lemma_subrange_subrange(x.spec_bytes(), 0, 76, 0, 72);
    lemma_subrange_subrange(x.spec_bytes(), 0, 76, 72, 76);
    lemma_concat_parts(t1, p2);
    lemma_subrange_subrange(x.spec_bytes(), 0, 72, 0, 48);
    lemma_subrange_subrange(x.spec_bytes(), 0, 72, 48, 72);
    lemma_concat_parts(p0, p1);
    lemma_subrange_subrange(x.spec_bytes(), 0, 48, 0, 24);
    lemma_subrange_subrange(x.spec_bytes(), 0, 48, 24, 48);
}

/// Each field's image stands at its kernel offset inside the image of
/// a `kvm_pit_state2`.
proof fn lemma_kvm_pit_state2_field_images(x: kvm_pit_state2)
    ensures
        x.spec_bytes().len() == KVM_PIT_STATE2_SIZE,
        x.spec_bytes().subrange(0, 24) == x.channels@[0].spec_bytes(),
        x.spec_bytes().subrange(24, 48) == x.channels@[1].spec_bytes(),
        x.spec_bytes().subrange(48, 72) == x.channels@[2].spec_bytes(),
        x.spec_bytes().subrange(72, 76) == u32_le_bytes(x.flags),
        x.spec_bytes().subrange(76, 80) == u32_le_bytes(x.reserved@[0]),
        x.spec_bytes().subrange(80, 84) == u32_le_bytes(x.reserved@[1]),
        x.spec_bytes().subrange(84, 88) == u32_le_bytes(x.reserved@[2]),
        x.spec_bytes().subrange(88, 92) == u32_le_bytes(x.reserved@[3]),
        x.spec_bytes().subrange(92, 96) == u32_le_bytes(x.reserved@[4]),
        x.spec_bytes().subrange(96, 100) == u32_le_bytes(x.reserved@[5]),
        x.spec_bytes().subrange(100, 104) == u32_le_bytes(x.reserved@[6]),
        x.spec_bytes().subrange(104, 108) == u32_le_bytes(x.reserved@[7]),
        x.spec_bytes().subrange(108, 112) == u32_le_bytes(x.reserved@[8]),
{
    lemma_kvm_pit_state2_field_images_seg0(x);
    lemma_kvm_pit_state2_field_images_seg1(x);
}

/// The byte image determines the structure: reading an image back
/// always yields the one value that produced it.
#[verifier::rlimit(100)]
#[verifier::spinoff_prover]
pub proof fn lemma_kvm_pit_state2_image_injective(a: kvm_pit_state2, b: kvm_pit_state2)
    requires
        a.spec_bytes() == b.spec_bytes(),
    ensures
        a == b,
{
    lemma_kvm_pit_state2_field_images(a);
    lemma_kvm_pit_state2_field_images(b);
    lemma_kvm_pit_channel_state_image_injective(a.channels@[0], b.channels@[0]);
    lemma_kvm_pit_channel_state_image_injective(a.channels@[1], b.channels@[1]);
    lemma_kvm_pit_channel_state_image_injective(a.channels@[2], b.channels@[2]);
    assert(a.channels@ =~= b.channels@);
    lemma_u32_le_roundtrip(a.flags);
    lemma_u32_le_roundtrip(b.flags);
    lemma_u32_le_roundtrip(a.reserved@[0]);
    lemma_u32_le_roundtrip(b.reserved@[0]);
    lemma_u32_le_roundtrip(a.reserved@[1]);
    lemma_u32_le_roundtrip(b.reserved@[1]);
    lemma_u32_le_roundtrip(a.reserved@[2]);
    lemma_u32_le_roundtrip(b.reserved@[2]);
    lemma_u32_le_roundtrip(a.reserved@[3]);
    lemma_u32_le_roundtrip(b.reserved@[3]);
    lemma_u32_le_roundtrip(a.reserved@[4]);
    lemma_u32_le_roundtrip(b.reserved@[4]);
    lemma_u32_le_roundtrip(a.reserved@[5]);
    lemma_u32_le_roundtrip(b.reserved@[5]);
    lemma_u32_le_roundtrip(a.reserved@[6]);
    lemma_u32_le_roundtrip(b.reserved@[6]);
    lemma_u32_le_roundtrip(a.reserved@[7]);
    lemma_u32_le_roundtrip(b.reserved@[7]);
    lemma_u32_le_roundtrip(a.reserved@[8]);
    lemma_u32_le_roundtrip(b.reserved@[8]);
    assert(a.reserved@ =~= b.reserved@);
    assert(a =~= b);
}

/// A `kvm_pit_state2` whose fields are all zero has an all-zero byte image,
/// the image of a zeroed ioctl argument buffer.
pub proof fn lemma_kvm_pit_state2_zero_image(x: kvm_pit_state2)
    requires
        x.is_zeroed(),
    ensures
        x.spec_bytes() == zero_bytes(KVM_PIT_STATE2_SIZE as int),
{
    lemma_le_bytes_zero();
    lemma_kvm_pit_channel_state_zero_image(x.channels@[0]);
    lemma_kvm_pit_channel_state_zero_image(x.channels@[1]);
    lemma_kvm_pit_channel_state_zero_image(x.channels@[2]);
    lemma_zero_bytes_split(24, 48);
    lemma_zero_bytes_split(48, 72);
    lemma_zero_bytes_split(72, 76);
    lemma_zero_bytes_split(76, 80);
    lemma_zero_bytes_split(80, 84);
    lemma_zero_bytes_split(84, 88);
    lemma_zero_bytes_split(88, 92);
    lemma_zero_bytes_split(92, 96);
    lemma_zero_bytes_split(96, 100);
    lemma_zero_bytes_split(100, 104);
    lemma_zero_bytes_split(104, 108);
    lemma_zero_bytes_split(108, 112);
    assert(x.spec_bytes() == zero_bytes(KVM_PIT_STATE2_SIZE as int));
}

/// Byte size of the `kvm_pit_config` kernel image.
pub const KVM_PIT_CONFIG_SIZE: usize = 64;

/// The argument of the create-PIT ioctl.
#[derive(Clone, Copy, Debug, PartialEq)]
#[verifier::ext_equal]
pub struct kvm_pit_config {
    pub flags: u32,
    pub pad: [u32; 15],
}

impl kvm_pit_config {
    /// The 64-byte kernel image of `self`: every field little-endian
    /// at its kernel offset.
    pub open spec fn spec_bytes(self) -> Seq<u8> {
        u32_le_bytes(self.flags) + u32_le_bytes(self.pad@[0]) + u32_le_bytes(self.pad@[1]) + u32_le_bytes(self.pad@[2]) + u32_le_bytes(self.pad@[3]) + u32_le_bytes(self.pad@[4]) + u32_le_bytes(self.pad@[5]) + u32_le_bytes(self.pad@[6]) + u32_le_bytes(self.pad@[7]) + u32_le_bytes(self.pad@[8]) + u32_le_bytes(self.pad@[9]) + u32_le_bytes(self.pad@[10]) + u32_le_bytes(self.pad@[11]) + u32_le_bytes(self.pad@[12]) + u32_le_bytes(self.pad@[13]) + u32_le_bytes(self.pad@[14])
    }

    /// Every field of `self` holds zero.
    pub open spec fn is_zeroed(self) -> bool {
        self.flags == 0 && self.pad@ == Seq::new(15, |i: int| 0u32)
    }

    /// Appends the image of `self` to `out`.
    pub fn push_image(&self, out: &mut Vec<u8>)
        ensures
            final(out)@ == old(out)@ + self.spec_bytes(),
    {
        let ghost base: Seq<u8> = out@;
        push_u32_le(out, self.flags);
        let ghost mut acc: Seq<u8> = u32_le_bytes(self.flags);
        push_u32_le(out, self.pad[0]);
        proof {
            lemma_concat_assoc(base, acc, u32_le_bytes(self.pad@[0]));
            acc = acc + (u32_le_bytes(self.pad@[0]));
        }
        push_u32_le(out, self.pad[1]);
        proof {
            lemma_concat_assoc(base, acc, u32_le_bytes(self.pad@[1]));
            acc = acc + (u32_le_bytes(self.pad@[1]));
        }
        push_u32_le(out, self.pad[2]);
        proof {
            lemma_concat_assoc(base, acc, u32_le_bytes(self.pad@[2]));
            acc = acc + (u32_le_bytes(self.pad@[2]));
        }
        push_u32_le(out, self.pad[3]);
        proof {
            lemma_concat_assoc(base, acc, u32_le_bytes(self.pad@[3]));
            acc = acc + (u32_le_bytes(self.pad@[3]));
        }
        push_u32_le(out, self.pad[4]);
        proof {
            lemma_concat_assoc(base, acc, u32_le_bytes(self.pad@[4]));
            acc = acc + (u32_le_bytes(self.pad@[4]));
        }
        push_u32_le(out, self.pad[5]);
        proof {
            lemma_concat_assoc(base, acc, u32_le_bytes(self.pad@[5]));
            acc = acc + (u32_le_bytes(self.pad@[5]));
        }
        push_u32_le(out, self.pad[6]);
        proof {
            lemma_concat_assoc(base, acc, u32_le_bytes(self.pad@[6]));
            acc = acc + (u32_le_bytes(self.pad@[6]));
        }
        push_u32_le(out, self.pad[7]);
        proof {
            lemma_concat_assoc(base, acc, u32_le_bytes(self.pad@[7]));
            acc = acc + (u32_le_bytes(self.pad@[7]));
        }
        push_u32_le(out, self.pad[8]);
        proof {
            lemma_concat_assoc(base, acc, u32_le_bytes(self.pad@[8]));
            acc = acc + (u32_le_bytes(self.pad@[8]));
        }
        push_u32_le(out, self.pad[9]);
        proof {
            lemma_concat_assoc(base, acc, u32_le_bytes(self.pad@[9]));
            acc = acc + (u32_le_bytes(self.pad@[9]));
        }
        push_u32_le(out, self.pad[10]);
        proof {
            lemma_concat_assoc(base, acc, u32_le_bytes(self.pad@[10]));
            acc = acc + (u32_le_bytes(self.pad@[10]));
        }
        push_u32_le(out, self.pad[11]);
        proof {
            lemma_concat_assoc(base, acc, u32_le_bytes(self.pad@[11]));
            acc = acc + (u32_le_bytes(self.pad@[11]));
        }
        push_u32_le(out, self.pad[12]);
        proof {
            lemma_concat_assoc(base, acc, u32_le_bytes(self.pad@[12]));
            acc = acc + (u32_le_bytes(self.pad@[12]));
        }
        push_u32_le(out, self.pad[13]);
        proof {
            lemma_concat_assoc(base, acc, u32_le_bytes(self.pad@[13]));
            acc = acc + (u32_le_bytes(self.pad@[13]));
        }
        push_u32_le(out, self.pad[14]);
        proof {
            lemma_concat_assoc(base, acc, u32_le_bytes(self.pad@[14]));
            acc = acc + (u32_le_bytes(self.pad@[14]));
        }
        proof {
            assert(out@ == base + acc);
            assert(acc == self.spec_bytes());
        }
    }

    /// The image of `self` as a fresh buffer.
    pub fn to_bytes(&self) -> (out: Vec<u8>)
        ensures
            out@ == self.spec_bytes(),
            out@.len() == KVM_PIT_CONFIG_SIZE,
    {
        let mut out: Vec<u8> = Vec::new();
        self.push_image(&mut out);
        proof {
            lemma_concat_empty_left(self.spec_bytes());
            lemma_kvm_pit_config_bytes_len(*self);
        }
        out
    }

    /// Reads the structure whose image starts at offset `off` of `buf`.
    pub fn read_at(buf: &[u8], off: usize) -> (v: Self)
        requires
            off + KVM_PIT_CONFIG_SIZE <= buf@.len(),
        ensures
            v.spec_bytes() == buf@.subrange(off as int, off as int + KVM_PIT_CONFIG_SIZE),
    {
        let n: usize = buf.len();
        proof {
            assert(off + KVM_PIT_CONFIG_SIZE <= n);
        }
        let v = kvm_pit_config {
            flags: read_u32_le(buf, off),
            pad: [read_u32_le(buf, off + 4), read_u32_le(buf, off + 8), read_u32_le(buf, off + 12), read_u32_le(buf, off + 16), read_u32_le(buf, off + 20), read_u32_le(buf, off + 24), read_u32_le(buf, off + 28), read_u32_le(buf, off + 32), read_u32_le(buf, off + 36), read_u32_le(buf, off + 40), read_u32_le(buf, off + 44), read_u32_le(buf, off + 48), read_u32_le(buf, off + 52), read_u32_le(buf, off + 56), read_u32_le(buf, off + 60)],
        };
        proof {
            lemma_kvm_pit_config_read_at(v, buf@, off as int);
        }
        v
    }

    /// Reads a structure image from the start of `buf`, failing when the
    /// buffer is too short to hold one.
    pub fn from_bytes(buf: &[u8]) -> (r: Result<Self, CodecError>)
        ensures
            buf@.len() < KVM_PIT_CONFIG_SIZE ==> r == Err::<kvm_pit_config, CodecError>(
                CodecError::IncompleteBuffer,
            ),
            buf@.len() >= KVM_PIT_CONFIG_SIZE ==> (r matches Ok(v) && v.spec_bytes() == buf@.subrange(
                0,
                KVM_PIT_CONFIG_SIZE as int,
            )),
    {
        if buf.len() < KVM_PIT_CONFIG_SIZE {
            Err(CodecError::IncompleteBuffer)
        } else {
            Ok(Self::read_at(buf, 0))
        }
    }
}

impl Default for kvm_pit_config {
    /// Every field zero: the zeroed ioctl argument convention.
    fn default() -> (r: Self)
        ensures
            r.is_zeroed(),
    {
        let r = kvm_pit_config {
            flags: 0,
            pad: vstd::array::array_fill_for_copy_types::<u32, 15>(0u32),
        };
        proof {
            assert(r.pad@ =~= Seq::new(15, |i: int| 0u32));
        }
        r
    }
}

/// The image of a `kvm_pit_config` is exactly 64 bytes.
pub proof fn lemma_kvm_pit_config_bytes_len(x: kvm_pit_config)
    ensures
        x.spec_bytes().len() == KVM_PIT_CONFIG_SIZE,
{
}

/// A `kvm_pit_config` whose fields were decoded from a buffer has that
/// buffer segment as its image.
#[verifier::rlimit(100)]
#[verifier::spinoff_prover]
proof fn lemma_kvm_pit_config_read_at(v: kvm_pit_config, b: Seq<u8>, off: int)
    requires
        0 <= off,
        off + KVM_PIT_CONFIG_SIZE <= b.len(),
        v.flags == u32_of_le_bytes(b.subrange(off + 0, off + 4)),
        v.pad@[0] == u32_of_le_bytes(b.subrange(off + 4, off + 8)),
        v.pad@[1] == u32_of_le_bytes(b.subrange(off + 8, off + 12)),
        v.pad@[2] == u32_of_le_bytes(b.subrange(off + 12, off + 16)),
        v.pad@[3] == u32_of_le_bytes(b.subrange(off + 16, off + 20)),
        v.pad@[4] == u32_of_le_bytes(b.subrange(off + 20, off + 24)),
        v.pad@[5] == u32_of_le_bytes(b.subrange(off + 24, off + 28)),
        v.pad@[6] == u32_of_le_bytes(b.subrange(off + 28, off + 32)),
        v.pad@[7] == u32_of_le_bytes(b.subrange(off + 32, off + 36)),
        v.pad@[8] == u32_of_le_bytes(b.subrange(off + 36, off + 40)),
        v.pad@[9] == u32_of_le_bytes(b.subrange(off + 40, off + 44)),
        v.pad@[10] == u32_of_le_bytes(b.subrange(off + 44, off + 48)),
        v.pad@[11] == u32_of_le_bytes(b.subrange(off + 48, off + 52)),
        v.pad@[12] == u32_of_le_bytes(b.subrange(off + 52, off + 56)),
        v.pad@[13] == u32_of_le_bytes(b.subrange(off + 56, off + 60)),
        v.pad@[14] == u32_of_le_bytes(b.subrange(off + 60, off + 64)),
    ensures
        v.spec_bytes() == b.subrange(off, off + KVM_PIT_CONFIG_SIZE),
{
    let s = b.subrange(off, off + KVM_PIT_CONFIG_SIZE as int);
    lemma_u32_le_bytes_of(b.subrange(off + 0, off + 4));
    lemma_u32_le_bytes_of(b.subrange(off + 4, off + 8));
    lemma_u32_le_bytes_of(b.subrange(off + 8, off + 12));
    lemma_u32_le_bytes_of(b.subrange(off + 12, off + 16));
    lemma_u32_le_bytes_of(b.subrange(off + 16, off + 20));
    lemma_u32_le_bytes_of(b.subrange(off + 20, off + 24));
    lemma_u32_le_bytes_of(b.subrange(off + 24, off + 28));
    lemma_u32_le_bytes_of(b.subrange(off + 28, off + 32));
    lemma_u32_le_bytes_of(b.subrange(off + 32, off + 36));
    lemma_u32_le_bytes_of(b.subrange(off + 36, off + 40));
    lemma_u32_le_bytes_of(b.subrange(off + 40, off + 44));
    lemma_u32_le_bytes_of(b.subrange(off + 44, off + 48));
    lemma_u32_le_bytes_of(b.subrange(off + 48, off + 52));
    lemma_u32_le_bytes_of(b.subrange(off + 52, off + 56));
    lemma_u32_le_bytes_of(b.subrange(off + 56, off + 60));
    lemma_u32_le_bytes_of(b.subrange(off + 60, off + 64));
    lemma_subrange_subrange(b, off, off + KVM_PIT_CONFIG_SIZE as int, 0, 4);
    lemma_subrange_subrange(b, off, off + KVM_PIT_CONFIG_SIZE as int, 4, 8);
    lemma_subrange_subrange(b, off, off + KVM_PIT_CONFIG_SIZE as int, 8, 12);
    lemma_subrange_subrange(b, off, off + KVM_PIT_CONFIG_SIZE as int, 12, 16);
    lemma_subrange_subrange(b, off, off + KVM_PIT_CONFIG_SIZE as int, 16, 20);
    lemma_subrange_subrange(b, off, off + KVM_PIT_CONFIG_SIZE as int, 20, 24);
    lemma_subrange_subrange(b, off, off + KVM_PIT_CONFIG_SIZE as int, 24, 28);
    lemma_subrange_subrange(b, off, off + KVM_PIT_CONFIG_SIZE as int, 28, 32);
    lemma_subrange_subrange(b, off, off + KVM_PIT_CONFIG_SIZE as int, 32, 36);
    lemma_subrange_subrange(b, off, off + KVM_PIT_CONFIG_SIZE as int, 36, 40);
    lemma_subrange_subrange(b, off, off + KVM_PIT_CONFIG_SIZE as int, 40, 44);
    lemma_subrange_subrange(b, off, off + KVM_PIT_CONFIG_SIZE as int, 44, 48);
    lemma_subrange_subrange(b, off, off + KVM_PIT_CONFIG_SIZE as int, 48, 52);
    lemma_subrange_subrange(b, off, off + KVM_PIT_CONFIG_SIZE as int, 52, 56);
    lemma_subrange_subrange(b, off, off + KVM_PIT_CONFIG_SIZE as int, 56, 60);
    lemma_subrange_subrange(b, off, off + KVM_PIT_CONFIG_SIZE as int, 60, 64);
    lemma_seq_parts(s, 4, 8);
    lemma_seq_parts(s, 8, 12);
    lemma_seq_parts(s, 12, 16);
    lemma_seq_parts(s, 16, 20);
    lemma_seq_parts(s, 20, 24);
    lemma_seq_parts(s, 24, 28);
    lemma_seq_parts(s, 28, 32);
    lemma_seq_parts(s, 32, 36);
    lemma_seq_parts(s, 36, 40);
    lemma_seq_parts(s, 40, 44);
    lemma_seq_parts(s, 44, 48);
    lemma_seq_parts(s, 48, 52);
    lemma_seq_parts(s, 52, 56);
    lemma_seq_parts(s, 56, 60);
    lemma_seq_parts(s, 60, 64);
    assert(s.subrange(0, KVM_PIT_CONFIG_SIZE as int) =~= s);
    assert(v.spec_bytes() == s);
}

/// Field images of a `kvm_pit_config`, covering one run of fields.
#[verifier::rlimit(100)]
#[verifier::spinoff_prover]
proof fn lemma_kvm_pit_config_field_images_seg0(x: kvm_pit_config)
    ensures
        x.spec_bytes().len() == KVM_PIT_CONFIG_SIZE,
        x.spec_bytes().subrange(60, 64) == u32_le_bytes(x.pad@[14]),
        x.spec_bytes().subrange(56, 60) == u32_le_bytes(x.pad@[13]),
        x.spec_bytes().subrange(52, 56) == u32_le_bytes(x.pad@[12]),
        x.spec_bytes().subrange(48, 52) == u32_le_bytes(x.pad@[11]),
        x.spec_bytes().subrange(44, 48) == u32_le_bytes(x.pad@[10]),
        x.spec_bytes().subrange(40, 44) == u32_le_bytes(x.pad@[9]),
        x.spec_bytes().subrange(36, 40) == u32_le_bytes(x.pad@[8]),
        x.spec_bytes().subrange(32, 36) == u32_le_bytes(x.pad@[7]),
        x.spec_bytes().subrange(0, 32) == (((((((u32_le_bytes(x.flags) + u32_le_bytes(x.pad@[0])) + u32_le_bytes(x.pad@[1])) + u32_le_bytes(x.pad@[2])) + u32_le_bytes(x.pad@[3])) + u32_le_bytes(x.pad@[4])) + u32_le_bytes(x.pad@[5])) + u32_le_bytes(x.pad@[6])),
{
    lemma_kvm_pit_config_bytes_len(x);
    let p0 = u32_le_bytes(x.flags);
    let p1 = u32_le_bytes(x.pad@[0]);
    let p2 = u32_le_bytes(x.pad@[1]);
    let p3 = u32_le_bytes(x.pad@[2]);
    let p4 = u32_le_bytes(x.pad@[3]);
    let p5 = u32_le_bytes(x.pad@[4]);
    let p6 = u32_le_bytes(x.pad@[5]);
    let p7 = u32_le_bytes(x.pad@[6]);
    let p8 = u32_le_bytes(x.pad@[7]);
    let p9 = u32_le_bytes(x.pad@[8]);
    let p10 = u32_le_bytes(x.pad@[9]);
    let p11 = u32_le_bytes(x.pad@[10]);
    let p12 = u32_le_bytes(x.pad@[11]);
    let p13 = u32_le_bytes(x.pad@[12]);
    let p14 = u32_le_bytes(x.pad@[13]);
    let p15 = u32_le_bytes(x.pad@[14]);
    let t1 = p0 + p1;
    let t2 = t1 + p2;
    let t3 = t2 + p3;
    let t4 = t3 + p4;
    let t5 = t4 + p5;
    let t6 = t5 + p6;
    let t7 = t6 + p7;
    let t8 = t7 + p8;
    let t9 = t8 + p9;
    let t10 = t9 + p10;
    let t11 = t10 + p11;
    let t12 = t11 + p12;
    let t13 = t12 + p13;
    let t14 = t13 + p14;
    let t15 = t14 + p15;
    assert(x.spec_bytes() == t15);
    lemma_concat_parts(t14, p15);
    lemma_concat_parts(t13, p14);
    lemma_subrange_subrange(x.spec_bytes(), 0, 60, 0, 56);
    lemma_subrange_subrange(x.spec_bytes(), 0, 60, 56, 60);
    lemma_concat_parts(t12, p13);
    lemma_subrange_subrange(x.spec_bytes(), 0, 56, 0, 52);
    lemma_subrange_subrange(x.spec_bytes(), 0, 56, 52, 56);
    lemma_concat_parts(t11, p12);
    lemma_subrange_subrange(x.spec_bytes(), 0, 52, 0, 48);
    lemma_subrange_subrange(x.spec_bytes(), 0, 52, 48, 52);
    lemma_concat_parts(t10, p11);
    lemma_subrange_subrange(x.spec_bytes(), 0, 48, 0, 44);
    lemma_subrange_subrange(x.spec_bytes(), 0, 48, 44, 48);
    lemma_concat_parts(t9, p10);
    lemma_subrange_subrange(x.spec_bytes(), 0, 44, 0, 40);
    lemma_subrange_subrange(x.spec_bytes(), 0, 44, 40, 44);
    lemma_concat_parts(t8, p9);
    lemma_subrange_subrange(x.spec_bytes(), 0, 40, 0, 36);
    lemma_subrange_subrange(x.spec_bytes(), 0, 40, 36, 40);
    lemma_concat_parts(t7, p8);
    lemma_subrange_subrange(x.spec_bytes(), 0, 36, 0, 32);
    lemma_subrange_subrange(x.spec_bytes(), 0, 36, 32, 36);
}

/// Field images of a `kvm_pit_config`, covering one run of fields.
#[verifier::rlimit(100)]
#[verifier::spinoff_prover]
proof fn lemma_kvm_pit_config_field_images_seg1(x: kvm_pit_config)
    ensures
        x.spec_bytes().len() == KVM_PIT_CONFIG_SIZE,
        x.spec_bytes().subrange(28, 32) == u32_le_bytes(x.pad@[6]),
        x.spec_bytes().subrange(24, 28) == u32_le_bytes(x.pad@[5]),
        x.spec_bytes().subrange(20, 24) == u32_le_bytes(x.pad@[4]),
        x.spec_bytes().subrange(16, 20) == u32_le_bytes(x.pad@[3]),
        x.spec_bytes().subrange(12, 16) == u32_le_bytes(x.pad@[2]),
        x.spec_bytes().subrange(8, 12) == u32_le_bytes(x.pad@[1]),
        x.spec_bytes().subrange(4, 8) == u32_le_bytes(x.pad@[0]),
        x.spec_bytes().subrange(0, 4) == u32_le_bytes(x.flags),
{
    lemma_kvm_pit_config_bytes_len(x);
    let p0 = u32_le_bytes(x.flags);
    let p1 = u32_le_bytes(x.pad@[0]);
    let p2 = u32_le_bytes(x.pad@[1]);
    let p3 = u32_le_bytes(x.pad@[2]);
    let p4 = u32_le_bytes(x.pad@[3]);
    let p5 = u32_le_bytes(x.pad@[4]);
    let p6 = u32_le_bytes(x.pad@[5]);
    let p7 = u32_le_bytes(x.pad@[6]);
    let t1 = p0 + p1;
    let t2 = t1 + p2;
    let t3 = t2 + p3;
    let t4 = t3 + p4;
    let t5 = t4 + p5;
    let t6 = t5 + p6;
    let t7 = t6 + p7;
    lemma_kvm_pit_config_field_images_seg0(x);
    lemma_concat_parts(t6, p7);
    lemma_subrange_subrange(x.spec_bytes(), 0, 32, 0, 28);
    lemma_subrange_subrange(x.spec_bytes(), 0, 32, 28, 32);
    lemma_concat_parts(t5, p6);
    lemma_subrange_subrange(x.spec_bytes(), 0, 28, 0, 24);
    lemma_subrange_subrange(x.spec_bytes(), 0, 28, 24, 28);
    lemma_concat_parts(t4, p5);
    lemma_subrange_subrange(x.spec_bytes(), 0, 24, 0, 20);
    lemma_subrange_subrange(x.spec_bytes(), 0, 24, 20, 24);
    lemma_concat_parts(t3, p4);
    lemma_subrange_subrange(x.spec_bytes(), 0, 20, 0, 16);
    lemma_subrange_subrange(x.spec_bytes(), 0, 20, 16, 20);
    lemma_concat_parts(t2, p3);
    lemma_subrange_subrange(x.spec_bytes(), 0, 16, 0, 12);
    lemma_subrange_subrange(x.spec_bytes(), 0, 16, 12, 16);
    lemma_concat_parts(t1, p2);
    lemma_subrange_subrange(x.spec_bytes(), 0, 12, 0, 8);
    lemma_subrange_subrange(x.spec_bytes(), 0, 12, 8, 12);
    lemma_concat_parts(p0, p1);
    lemma_subrange_subrange(x.spec_bytes(), 0, 8, 0, 4);
    lemma_subrange_subrange(x.spec_bytes(), 0, 8, 4, 8);
}

/// Each field's image stands at its kernel offset inside the image of
/// a `kvm_pit_config`.
proof fn lemma_kvm_pit_config_field_images(x: kvm_pit_config)
    ensures
        x.spec_bytes().len() == KVM_PIT_CONFIG_SIZE,
        x.spec_bytes().subrange(0, 4) == u32_le_bytes(x.flags),
        x.spec_bytes().subrange(4, 8) == u32_le_bytes(x.pad@[0]),
        x.spec_bytes().subrange(8, 12) == u32_le_bytes(x.pad@[1]),
        x.spec_bytes().subrange(12, 16) == u32_le_bytes(x.pad@[2]),
        x.spec_bytes().subrange(16, 20) == u32_le_bytes(x.pad@[3]),
        x.spec_bytes().subrange(20, 24) == u32_le_bytes(x.pad@[4]),
        x.spec_bytes().subrange(24, 28) == u32_le_bytes(x.pad@[5]),
        x.spec_bytes().subrange(28, 32) == u32_le_bytes(x.pad@[6]),
        x.spec_bytes().subrange(32, 36) == u32_le_bytes(x.pad@[7]),
        x.spec_bytes().subrange(36, 40) == u32_le_bytes(x.pad@[8]),
        x.spec_bytes().subrange(40, 44) == u32_le_bytes(x.pad@[9]),
        x.spec_bytes().subrange(44, 48) == u32_le_bytes(x.pad@[10]),
        x.spec_bytes().subrange(48, 52) == u32_le_bytes(x.pad@[11]),
        x.spec_bytes().subrange(52, 56) == u32_le_bytes(x.pad@[12]),
        x.spec_bytes().subrange(56, 60) == u32_le_bytes(x.pad@[13]),
        x.spec_bytes().subrange(60, 64) == u32_le_bytes(x.pad@[14]),
{
    lemma_kvm_pit_config_field_images_seg0(x);
    lemma_kvm_pit_config_field_images_seg1(x);
}

/// The byte image determines the structure: reading an image back
/// always yields the one value that produced it.
#[verifier::rlimit(100)]
#[verifier::spinoff_prover]
pub proof fn lemma_kvm_pit_config_image_injective(a: kvm_pit_config, b: kvm_pit_config)
    requires
        a.spec_bytes() == b.spec_bytes(),
    ensures
        a == b,
{
    lemma_kvm_pit_config_field_images(a);
    lemma_kvm_pit_config_field_images(b);
    lemma_u32_le_roundtrip(a.flags);
    lemma_u32_le_roundtrip(b.flags);
    lemma_u32_le_roundtrip(a.pad@[0]);
    lemma_u32_le_roundtrip(b.pad@[0]);
    lemma_u32_le_roundtrip(a.pad@[1]);
    lemma_u32_le_roundtrip(b.pad@[1]);
    lemma_u32_le_roundtrip(a.pad@[2]);
    lemma_u32_le_roundtrip(b.pad@[2]);
    lemma_u32_le_roundtrip(a.pad@[3]);
    lemma_u32_le_roundtrip(b.pad@[3]);
    lemma_u32_le_roundtrip(a.pad@[4]);
    lemma_u32_le_roundtrip(b.pad@[4]);
    lemma_u32_le_roundtrip(a.pad@[5]);
    lemma_u32_le_roundtrip(b.pad@[5]);
    lemma_u32_le_roundtrip(a.pad@[6]);
    lemma_u32_le_roundtrip(b.pad@[6]);
    lemma_u32_le_roundtrip(a.pad@[7]);
    lemma_u32_le_roundtrip(b.pad@[7]);
    lemma_u32_le_roundtrip(a.pad@[8]);
    lemma_u32_le_roundtrip(b.pad@[8]);
    lemma_u32_le_roundtrip(a.pad@[9]);
    lemma_u32_le_roundtrip(b.pad@[9]);
    lemma_u32_le_roundtrip(a.pad@[10]);
    lemma_u32_le_roundtrip(b.pad@[10]);
    lemma_u32_le_roundtrip(a.pad@[11]);
    lemma_u32_le_roundtrip(b.pad@[11]);
    lemma_u32_le_roundtrip(a.pad@[12]);
    lemma_u32_le_roundtrip(b.pad@[12]);
    lemma_u32_le_roundtrip(a.pad@[13]);
    lemma_u32_le_roundtrip(b.pad@[13]);
    lemma_u32_le_roundtrip(a.pad@[14]);
    lemma_u32_le_roundtrip(b.pad@[14]);
    assert(a.pad@ =~= b.pad@);
    assert(a =~= b);
}

/// A `kvm_pit_config` whose fields are all zero has an all-zero byte image,
/// the image of a zeroed ioctl argument buffer.
pub proof fn lemma_kvm_pit_config_zero_image(x: kvm_pit_config)
    requires
        x.is_zeroed(),
    ensures
        x.spec_bytes() == zero_bytes(KVM_PIT_CONFIG_SIZE as int),
{
    lemma_le_bytes_zero();
    lemma_zero_bytes_split(4, 8);
    lemma_zero_bytes_split(8, 12);
    lemma_zero_bytes_split(12, 16);
    lemma_zero_bytes_split(16, 20);
    lemma_zero_bytes_split(20, 24);
    lemma_zero_bytes_split(24, 28);
    lemma_zero_bytes_split(28, 32);
    lemma_zero_bytes_split(32, 36);
    lemma_zero_bytes_split(36, 40);
    lemma_zero_bytes_split(40, 44);
    lemma_zero_bytes_split(44, 48);
    lemma_zero_bytes_split(48, 52);
    lemma_zero_bytes_split(52, 56);
    lemma_zero_bytes_split(56, 60);
    lemma_zero_bytes_split(60, 64);
    assert(x.spec_bytes() == zero_bytes(KVM_PIT_CONFIG_SIZE as int));
}

/// Byte size of the `kvm_pit_state` kernel image.
pub const KVM_PIT_STATE_SIZE: usize = 72;

/// The older timer-state format: the three channels alone.
#[derive(Clone, Copy, Debug, PartialEq)]
#[verifier::ext_equal]
pub struct kvm_pit_state {
    pub channels: [kvm_pit_channel_state; 3],
}

impl kvm_pit_state {
    /// The 72-byte kernel image of `self`: every field little-endian
    /// at its kernel offset.
    pub open spec fn spec_bytes(self) -> Seq<u8> {
        self.channels@[0].spec_bytes() + self.channels@[1].spec_bytes() + self.channels@[2].spec_bytes()
    }

    /// Every field of `self` holds zero.
    pub open spec fn is_zeroed(self) -> bool {
        (forall|k: int| 0 <= k < 3 ==> #[trigger] self.channels@[k].is_zeroed())
    }

    /// Appends the image of `self` to `out`.
    pub fn push_image(&self, out: &mut Vec<u8>)
        ensures
            final(out)@ == old(out)@ + self.spec_bytes(),
    {
        let ghost base: Seq<u8> = out@;
        self.channels[0].push_image(out);
        let ghost mut acc: Seq<u8> = self.channels@[0].spec_bytes();
        self.channels[1].push_image(out);
        proof {
            lemma_concat_assoc(base, acc, self.channels@[1].spec_bytes());
            acc = acc + (self.channels@[1].spec_bytes());
        }
        self.channels[2].push_image(out);
        proof {
            lemma_concat_assoc(base, acc, self.channels@[2].spec_bytes());
            acc = acc + (self.channels@[2].spec_bytes());
        }
        proof {
            assert(out@ == base + acc);
            assert(acc == self.spec_bytes());
        }
    }

    /// The image of `self` as a fresh buffer.
    pub fn to_bytes(&self) -> (out: Vec<u8>)
        ensures
            out@ == self.spec_bytes(),
            out@.len() == KVM_PIT_STATE_SIZE,
    {
        let mut out: Vec<u8> = Vec::new();
        self.push_image(&mut out);
        proof {
            lemma_concat_empty_left(self.spec_bytes());
            lemma_kvm_pit_state_bytes_len(*self);
        }
        out
    }

    /// Reads the structure whose image starts at offset `off` of `buf`.
    pub fn read_at(buf: &[u8], off: usize) -> (v: Self)
        requires
            off + KVM_PIT_STATE_SIZE <= buf@.len(),
        ensures
            v.spec_bytes() == buf@.subrange(off as int, off as int + KVM_PIT_STATE_SIZE),
    {
        let n: usize = buf.len();
        proof {
            assert(off + KVM_PIT_STATE_SIZE <= n);
        }
        let v = kvm_pit_state {
            channels: [
                kvm_pit_channel_state::read_at(buf, off),
                kvm_pit_channel_state::read_at(buf, off + 24),
                kvm_pit_channel_state::read_at(buf, off + 48),
            ],
        };
        proof {
            lemma_kvm_pit_state_read_at(v, buf@, off as int);
        }
        v
    }

    /// Reads a structure image from the start of `buf`, failing when the
    /// buffer is too short to hold one.
    pub fn from_bytes(buf: &[u8]) -> (r: Result<Self, CodecError>)
        ensures
            buf@.len() < KVM_PIT_STATE_SIZE ==> r == Err::<kvm_pit_state, CodecError>(
                CodecError::IncompleteBuffer,
            ),
            buf@.len() >= KVM_PIT_STATE_SIZE ==> (r matches Ok(v) && v.spec_bytes() == buf@.subrange(
                0,
                KVM_PIT_STATE_SIZE as int,
            )),
    {
        if buf.len() < KVM_PIT_STATE_SIZE {
            Err(CodecError::IncompleteBuffer)
        } else {
            Ok(Self::read_at(buf, 0))
        }
    }
}

impl Default for kvm_pit_state {
    /// Every field zero: the zeroed ioctl argument convention.
    fn default() -> (r: Self)
        ensures
            r.is_zeroed(),
    {
        let channels_elem = kvm_pit_channel_state::default();
        let r = kvm_pit_state {
            channels: vstd::array::array_fill_for_copy_types::<kvm_pit_channel_state, 3>(channels_elem),
        };
        proof {
            assert(forall|k: int| 0 <= k < 3 ==> #[trigger] r.channels@[k].is_zeroed());
        }
        r
    }
}

/// The image of a `kvm_pit_state` is exactly 72 bytes.
pub proof fn lemma_kvm_pit_state_bytes_len(x: kvm_pit_state)
    ensures
        x.spec_bytes().len() == KVM_PIT_STATE_SIZE,
{
    lemma_kvm_pit_channel_state_bytes_len(x.channels@[0]);
    lemma_kvm_pit_channel_state_bytes_len(x.channels@[1]);
    lemma_kvm_pit_channel_state_bytes_len(x.channels@[2]);
}

/// A `kvm_pit_state` whose fields were decoded from a buffer has that
/// buffer segment as its image.
#[verifier::rlimit(100)]
#[verifier::spinoff_prover]
proof fn lemma_kvm_pit_state_read_at(v: kvm_pit_state, b: Seq<u8>, off: int)
    requires
        0 <= off,
        off + KVM_PIT_STATE_SIZE <= b.len(),
        v.channels@[0].spec_bytes() == b.subrange(off + 0, off + 24),
        v.channels@[1].spec_bytes() == b.subrange(off + 24, off + 48),
        v.channels@[2].spec_bytes() == b.subrange(off + 48, off + 72),
    ensures
        v.spec_bytes() == b.subrange(off, off + KVM_PIT_STATE_SIZE),
{
    let s = b.subrange(off, off + KVM_PIT_STATE_SIZE as int);
    lemma_subrange_subrange(b, off, off + KVM_PIT_STATE_SIZE as int, 0, 24);
    lemma_subrange_subrange(b, off, off + KVM_PIT_STATE_SIZE as int, 24, 48);
    lemma_subrange_subrange(b, off, off + KVM_PIT_STATE_SIZE as int, 48, 72);
    lemma_seq_parts(s, 24, 48);
    lemma_seq_parts(s, 48, 72);
    assert(s.subrange(0, KVM_PIT_STATE_SIZE as int) =~= s);
    assert(v.spec_bytes() == s);
}

/// Field images of a `kvm_pit_state`, covering one run of fields.
#[verifier::rlimit(100)]
#[verifier::spinoff_prover]
proof fn lemma_kvm_pit_state_field_images_seg0(x: kvm_pit_state)
    ensures
        x.spec_bytes().len() == KVM_PIT_STATE_SIZE,
        x.spec_bytes().subrange(48, 72) == x.channels@[2].spec_bytes(),
        x.spec_bytes().subrange(24, 48) == x.channels@[1].spec_bytes(),
        x.spec_bytes().subrange(0, 24) == x.channels@[0].spec_bytes(),
{
    lemma_kvm_pit_state_bytes_len(x);
    lemma_kvm_pit_channel_state_bytes_len(x.channels@[0]);
    lemma_kvm_pit_channel_state_bytes_len(x.channels@[1]);
    lemma_kvm_pit_channel_state_bytes_len(x.channels@[2]);
    let p0 = x.channels@[0].spec_bytes();
    let p1 = x.channels@[1].spec_bytes();
    let p2 = x.channels@[2].spec_bytes();
    let t1 = p0 + p1;
    let t2 = t1 + p2;
    assert(x.spec_bytes() == t2);
    lemma_concat_parts(t1, p2);
    lemma_concat_parts(p0, p1);
    lemma_subrange_subrange(x.spec_bytes(), 0, 48, 0, 24);
    lemma_subrange_subrange(x.spec_bytes(), 0, 48, 24, 48);
}

/// Each field's image stands at its kernel offset inside the image of
/// a `kvm_pit_state`.
proof fn lemma_kvm_pit_state_field_images(x: kvm_pit_state)
    ensures
        x.spec_bytes().len() == KVM_PIT_STATE_SIZE,
        x.spec_bytes().subrange(0, 24) == x.channels@[0].spec_bytes(),
        x.spec_bytes().subrange(24, 48) == x.channels@[1].spec_bytes(),
        x.spec_bytes().subrange(48, 72) == x.channels@[2].spec_bytes(),
{
    lemma_kvm_pit_state_field_images_seg0(x);
}

/// The byte image determines the structure: reading an image back
/// always yields the one value that produced it.
#[verifier::rlimit(100)]
#[verifier::spinoff_prover]
pub proof fn lemma_kvm_pit_state_image_injective(a: kvm_pit_state, b: kvm_pit_state)
    requires
        a.spec_bytes() == b.spec_bytes(),
    ensures
        a == b,
{
    lemma_kvm_pit_state_field_images(a);
    lemma_kvm_pit_state_field_images(b);
    lemma_kvm_pit_channel_state_image_injective(a.channels@[0], b.channels@[0]);
    lemma_kvm_pit_channel_state_image_injective(a.channels@[1], b.channels@[1]);
    lemma_kvm_pit_channel_state_image_injective(a.channels@[2], b.channels@[2]);
    assert(a.channels@ =~= b.channels@);
    assert(a =~= b);
}

/// A `kvm_pit_state` whose fields are all zero has an all-zero byte image,
/// the image of a zeroed ioctl argument buffer.
pub proof fn lemma_kvm_pit_state_zero_image(x: kvm_pit_state)
    requires
        x.is_zeroed(),
    ensures
        x.spec_bytes() == zero_bytes(KVM_PIT_STATE_SIZE as int),
{
    lemma_le_bytes_zero();
    lemma_kvm_pit_channel_state_zero_image(x.channels@[0]);
    lemma_kvm_pit_channel_state_zero_image(x.channels@[1]);
    lemma_kvm_pit_channel_state_zero_image(x.channels@[2]);
    lemma_zero_bytes_split(24, 48);
    lemma_zero_bytes_split(48, 72);
    assert(x.spec_bytes() == zero_bytes(KVM_PIT_STATE_SIZE as int));
}

} // verus!
