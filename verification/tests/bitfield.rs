//! Behavior of the bit-run buffer: single bits, runs, packing.

use kvm_bindings::__BindgenBitfieldUnit;
use kvm_bindings::kvm_ioapic_state__bindgen_ty_1__bindgen_ty_1;

#[test]
fn set_get_roundtrip_small() {
    let mut u = __BindgenBitfieldUnit::<8>::default();
    u.set(5, 11, 0x7fa);
    assert_eq!(u.get(5, 11), 0x7fa & 0x7ff);
}

#[test]
fn set_get_roundtrip_truncates_to_width() {
    let mut u = __BindgenBitfieldUnit::<2>::default();
    u.set(0, 4, 0x123);
    assert_eq!(u.get(0, 4), 0x3);
}

#[test]
fn set_get_roundtrip_full_width() {
    let mut u = __BindgenBitfieldUnit::<8>::default();
    u.set(0, 64, 0xfedc_ba98_7654_3210);
    assert_eq!(u.get(0, 64), 0xfedc_ba98_7654_3210);
}

#[test]
fn set_get_roundtrip_offset_width_grid() {
    // a sweep over widths and offsets that fit a four-byte buffer
    for w in 1u8..=16 {
        for o in 0usize..=(32 - w as usize) {
            let mut u = __BindgenBitfieldUnit::<4>::new([0x5a, 0xa5, 0x3c, 0xc3]);
            let v = 0xdead_beef_cafe_f00du64;
            u.set(o, w, v);
            let mask = if w == 64 { u64::MAX } else { (1u64 << w) - 1 };
            assert_eq!(u.get(o, w), v & mask);
        }
    }
}

#[test]
fn get_crosses_byte_boundary() {
    let u = __BindgenBitfieldUnit::<2>::new([0xab, 0xcd]);
    assert_eq!(u.get(4, 8), 0xda);
}

#[test]
fn single_bit_roundtrip_no_bleed() {
    let mut u = __BindgenBitfieldUnit::<2>::default();
    u.set(0, 16, 0xffff);
    u.set_bit(5, false);
    assert!(u.get_bit(4));
    assert!(!u.get_bit(5));
    assert!(u.get_bit(6));
    u.set_bit(5, true);
    assert!(u.get_bit(5));
    assert_eq!(u.get(0, 16), 0xffff);
}

#[test]
fn single_bit_set_and_read_back() {
    let mut u = __BindgenBitfieldUnit::<4>::default();
    for i in 0..32 {
        u.set_bit(i, i % 3 == 0);
    }
    for i in 0..32 {
        assert_eq!(u.get_bit(i), i % 3 == 0);
    }
}

#[test]
fn new_bitfield_1_packs_redirtbl_entry() {
    // the IOAPIC redirection-table entry: delivery_mode is 3 bits wide,
    // then six single-bit flags, then 7 reserved bits
    let u = kvm_ioapic_state__bindgen_ty_1__bindgen_ty_1::new_bitfield_1(5, 1, 0, 1, 0, 1, 1, 0x55);
    assert_eq!(u.get(0, 3), 5);
    assert_eq!(u.get(3, 1), 1);
    assert_eq!(u.get(4, 1), 0);
    assert_eq!(u.get(5, 1), 1);
    assert_eq!(u.get(6, 1), 0);
    assert_eq!(u.get(7, 1), 1);
    assert_eq!(u.get(8, 1), 1);
    assert_eq!(u.get(9, 7), 0x55);
    // and as one unit
    let packed = 5u64 | (1 << 3) | (1 << 5) | (1 << 7) | (1 << 8) | (0x55 << 9);
    assert_eq!(u.get(0, 16), packed);
}

#[test]
fn new_bitfield_1_truncates_oversized_values() {
    let u = kvm_ioapic_state__bindgen_ty_1__bindgen_ty_1::new_bitfield_1(0xff, 2, 3, 2, 3, 2, 3, 0xff);
    assert_eq!(u.get(0, 3), 7);
    assert_eq!(u.get(3, 1), 0);
    assert_eq!(u.get(4, 1), 1);
    assert_eq!(u.get(5, 1), 0);
    assert_eq!(u.get(6, 1), 1);
    assert_eq!(u.get(7, 1), 0);
    assert_eq!(u.get(8, 1), 1);
    assert_eq!(u.get(9, 7), 0x7f);
}

#[test]
fn bitfield_accessors_roundtrip() {
    let mut f = kvm_ioapic_state__bindgen_ty_1__bindgen_ty_1::default();
    f.set_delivery_mode(3);
    f.set_dest_mode(1);
    f.set_delivery_status(1);
    f.set_polarity(0);
    f.set_remote_irr(1);
    f.set_trig_mode(0);
    f.set_mask(1);
    f.set_reserve(0x2a);
    assert_eq!(f.delivery_mode(), 3);
    assert_eq!(f.dest_mode(), 1);
    assert_eq!(f.delivery_status(), 1);
    assert_eq!(f.polarity(), 0);
    assert_eq!(f.remote_irr(), 1);
    assert_eq!(f.trig_mode(), 0);
    assert_eq!(f.mask(), 1);
    assert_eq!(f.reserve(), 0x2a);
    // setters touch nothing outside their run
    f.set_polarity(1);
    assert_eq!(f.delivery_mode(), 3);
    assert_eq!(f.mask(), 1);
    assert_eq!(f.polarity(), 1);
}

#[test]
fn unit_new_wraps_storage_unchanged() {
    let u = __BindgenBitfieldUnit::<3>::new([1, 2, 3]);
    assert_eq!(u.as_bytes(), &[1, 2, 3]);
    assert_eq!(u.get(0, 8), 1);
    assert_eq!(u.get(8, 8), 2);
    assert_eq!(u.get(16, 8), 3);
}

#[test]
fn unit_default_is_all_clear() {
    let u = __BindgenBitfieldUnit::<4>::default();
    assert_eq!(u.as_bytes(), &[0u8; 4]);
    assert_eq!(u.get(0, 32), 0);
}
