//! Layout and codec checks for the shared run page and its exit payloads.

use kvm_bindings::CodecError;
use kvm_bindings::KVM_RUN_EXIT_UNION_SIZE;
use kvm_bindings::KVM_RUN_MMIO_SIZE;
use kvm_bindings::KVM_RUN_SIZE;
use kvm_bindings::KVM_RUN_S_UNION_SIZE;
use kvm_bindings::kvm_debug_exit_arch;
use kvm_bindings::kvm_run;
use kvm_bindings::kvm_run__bindgen_ty_1;
use kvm_bindings::kvm_run__bindgen_ty_1__bindgen_ty_1;
use kvm_bindings::kvm_run__bindgen_ty_1__bindgen_ty_12;
use kvm_bindings::kvm_run__bindgen_ty_1__bindgen_ty_19;
use kvm_bindings::kvm_run__bindgen_ty_1__bindgen_ty_8;
use kvm_bindings::kvm_run__bindgen_ty_1__bindgen_ty_2;
use kvm_bindings::kvm_run__bindgen_ty_1__bindgen_ty_3;
use kvm_bindings::kvm_run__bindgen_ty_1__bindgen_ty_4;
use kvm_bindings::kvm_run__bindgen_ty_1__bindgen_ty_5;
use kvm_bindings::kvm_run__bindgen_ty_1__bindgen_ty_6;
use kvm_bindings::kvm_run__bindgen_ty_1__bindgen_ty_7;
use kvm_bindings::kvm_run__bindgen_ty_2;

#[test]
fn bindgen_test_layout_kvm_run() {
    assert_eq!(core::mem::size_of::<kvm_run>(), 2352usize);
    assert_eq!(core::mem::align_of::<kvm_run>(), 8usize);
    let mut v = kvm_run::default();
    v.request_interrupt_window = 0x11;
    v.immediate_exit = 0x12;
    v.padding1 = [0x13; 6];
    v.exit_reason = 2;
    v.ready_for_interrupt_injection = 0x14;
    v.if_flag = 0x15;
    v.flags = 0x1617;
    v.cr8 = 0x18;
    v.apic_base = 0xfee0_0900;
    v.kvm_valid_regs = 0x19;
    v.kvm_dirty_regs = 0x1a;
    let img = v.to_bytes();
    assert_eq!(img.len(), 2352usize);
    assert_eq!(img[0], 0x11);
    assert_eq!(img[1], 0x12);
    assert_eq!(&img[2..8], &[0x13; 6]);
    assert_eq!(&img[8..12], &2u32.to_le_bytes());
    assert_eq!(img[12], 0x14);
    assert_eq!(img[13], 0x15);
    assert_eq!(&img[14..16], &0x1617u16.to_le_bytes());
    assert_eq!(&img[16..24], &0x18u64.to_le_bytes());
    assert_eq!(&img[24..32], &0xfee0_0900u64.to_le_bytes());
    assert_eq!(&img[288..296], &0x19u64.to_le_bytes());
    assert_eq!(&img[296..304], &0x1au64.to_le_bytes());
    assert_eq!(&img[304..2352], &[0u8; 2048][..]);
}

#[test]
fn bindgen_test_layout_kvm_run__bindgen_ty_1() {
    assert_eq!(core::mem::size_of::<kvm_run__bindgen_ty_1>(), 256usize);
    assert_eq!(core::mem::align_of::<kvm_run__bindgen_ty_1>(), 8usize);
    // every exit payload starts at the union's first byte
    let mut u = kvm_run__bindgen_ty_1::default();
    let mut hw = kvm_run__bindgen_ty_1__bindgen_ty_1::default();
    hw.hardware_exit_reason = 0x31;
    u.set_hw(hw);
    assert_eq!(u.fail_entry().hardware_entry_failure_reason, 0x31);
    assert_eq!(u.hypercall().nr, 0x31);
    let img = u.to_bytes();
    assert_eq!(&img[0..8], &0x31u64.to_le_bytes());
}

#[test]
fn bindgen_test_layout_kvm_run__bindgen_ty_2() {
    assert_eq!(core::mem::size_of::<kvm_run__bindgen_ty_2>(), 2048usize);
    assert_eq!(core::mem::align_of::<kvm_run__bindgen_ty_2>(), 1usize);
    let u = kvm_run__bindgen_ty_2::default();
    assert_eq!(u.to_bytes(), vec![0u8; 2048]);
    assert_eq!(core::mem::size_of_val(&u.regs()), 0);
}

#[test]
fn bindgen_test_layout_kvm_run__bindgen_ty_1__bindgen_ty_1() {
    assert_eq!(core::mem::size_of::<kvm_run__bindgen_ty_1__bindgen_ty_1>(), 8usize);
    assert_eq!(core::mem::align_of::<kvm_run__bindgen_ty_1__bindgen_ty_1>(), 8usize);
    let mut v = kvm_run__bindgen_ty_1__bindgen_ty_1::default();
    v.hardware_exit_reason = 3;
    assert_eq!(&v.to_bytes()[0..8], &3u64.to_le_bytes());
}

#[test]
fn bindgen_test_layout_kvm_run__bindgen_ty_1__bindgen_ty_2() {
    assert_eq!(core::mem::size_of::<kvm_run__bindgen_ty_1__bindgen_ty_2>(), 8usize);
    assert_eq!(core::mem::align_of::<kvm_run__bindgen_ty_1__bindgen_ty_2>(), 8usize);
    let mut v = kvm_run__bindgen_ty_1__bindgen_ty_2::default();
    v.hardware_entry_failure_reason = 5;
    assert_eq!(&v.to_bytes()[0..8], &5u64.to_le_bytes());
}

#[test]
fn bindgen_test_layout_kvm_run__bindgen_ty_1__bindgen_ty_3() {
    assert_eq!(core::mem::size_of::<kvm_run__bindgen_ty_1__bindgen_ty_3>(), 8usize);
    assert_eq!(core::mem::align_of::<kvm_run__bindgen_ty_1__bindgen_ty_3>(), 4usize);
    let mut v = kvm_run__bindgen_ty_1__bindgen_ty_3::default();
    v.exception = 14;
    v.error_code = 2;
    let img = v.to_bytes();
    assert_eq!(&img[0..4], &14u32.to_le_bytes());
    assert_eq!(&img[4..8], &2u32.to_le_bytes());
}

#[test]
fn bindgen_test_layout_kvm_run__bindgen_ty_1__bindgen_ty_4() {
    assert_eq!(core::mem::size_of::<kvm_run__bindgen_ty_1__bindgen_ty_4>(), 16usize);
    assert_eq!(core::mem::align_of::<kvm_run__bindgen_ty_1__bindgen_ty_4>(), 8usize);
    let mut v = kvm_run__bindgen_ty_1__bindgen_ty_4::default();
    v.direction = 1;
    v.size = 2;
    v.port = 0x3f8;
    v.count = 1;
    v.data_offset = 4096;
    let img = v.to_bytes();
    assert_eq!(img[0], 1);
    assert_eq!(img[1], 2);
    assert_eq!(&img[2..4], &0x3f8u16.to_le_bytes());
    assert_eq!(&img[4..8], &1u32.to_le_bytes());
    assert_eq!(&img[8..16], &4096u64.to_le_bytes());
}

#[test]
fn bindgen_test_layout_kvm_run__bindgen_ty_1__bindgen_ty_5() {
    assert_eq!(core::mem::size_of::<kvm_run__bindgen_ty_1__bindgen_ty_5>(), 32usize);
    assert_eq!(core::mem::align_of::<kvm_run__bindgen_ty_1__bindgen_ty_5>(), 8usize);
    let mut v = kvm_run__bindgen_ty_1__bindgen_ty_5::default();
    v.arch.pc = 0x40_0000;
    assert_eq!(&v.to_bytes()[8..16], &0x40_0000u64.to_le_bytes());
}

#[test]
fn bindgen_test_layout_kvm_run__bindgen_ty_1__bindgen_ty_6() {
    assert_eq!(core::mem::size_of::<kvm_run__bindgen_ty_1__bindgen_ty_6>(), 24usize);
    assert_eq!(core::mem::align_of::<kvm_run__bindgen_ty_1__bindgen_ty_6>(), 8usize);
    let mut v = kvm_run__bindgen_ty_1__bindgen_ty_6::default();
    v.phys_addr = 0xfee0_0000;
    v.data = [9, 8, 7, 6, 5, 4, 3, 2];
    v.len = 4;
    v.is_write = 1;
    let img = v.to_bytes();
    assert_eq!(img.len(), KVM_RUN_MMIO_SIZE);
    assert_eq!(&img[0..8], &0xfee0_0000u64.to_le_bytes());
    assert_eq!(&img[8..16], &[9, 8, 7, 6, 5, 4, 3, 2]);
    assert_eq!(&img[16..20], &4u32.to_le_bytes());
    assert_eq!(img[20], 1);
}

#[test]
fn bindgen_test_layout_kvm_run__bindgen_ty_1__bindgen_ty_7() {
    assert_eq!(core::mem::size_of::<kvm_run__bindgen_ty_1__bindgen_ty_7>(), 72usize);
    assert_eq!(core::mem::align_of::<kvm_run__bindgen_ty_1__bindgen_ty_7>(), 8usize);
    let mut v = kvm_run__bindgen_ty_1__bindgen_ty_7::default();
    v.nr = 1;
    v.ret = 2;
    v.longmode = 1;
    let img = v.to_bytes();
    assert_eq!(&img[0..8], &1u64.to_le_bytes());
    assert_eq!(&img[56..64], &2u64.to_le_bytes());
    assert_eq!(&img[64..68], &1u32.to_le_bytes());
}

#[test]
fn bindgen_test_layout_kvm_run__bindgen_ty_1__bindgen_ty_19() {
    assert_eq!(core::mem::size_of::<kvm_run__bindgen_ty_1__bindgen_ty_19>(), 1usize);
    assert_eq!(core::mem::align_of::<kvm_run__bindgen_ty_1__bindgen_ty_19>(), 1usize);
    let mut v = kvm_run__bindgen_ty_1__bindgen_ty_19::default();
    v.vector = 0x21;
    assert_eq!(v.to_bytes(), vec![0x21u8]);
}

#[test]
fn bindgen_test_layout_kvm_debug_exit_arch() {
    assert_eq!(core::mem::size_of::<kvm_debug_exit_arch>(), 32usize);
    assert_eq!(core::mem::align_of::<kvm_debug_exit_arch>(), 8usize);
    let mut v = kvm_debug_exit_arch::default();
    v.exception = 1;
    v.pad = 2;
    v.pc = 3;
    v.dr6 = 4;
    v.dr7 = 5;
    let img = v.to_bytes();
    assert_eq!(&img[0..4], &1u32.to_le_bytes());
    assert_eq!(&img[4..8], &2u32.to_le_bytes());
    assert_eq!(&img[8..16], &3u64.to_le_bytes());
    assert_eq!(&img[16..24], &4u64.to_le_bytes());
    assert_eq!(&img[24..32], &5u64.to_le_bytes());
}

#[test]
fn kvm_run_image_roundtrip() {
    let mut r = kvm_run::default();
    r.exit_reason = 2;
    r.cr8 = 7;
    let mut io = kvm_run__bindgen_ty_1__bindgen_ty_4::default();
    io.direction = 1;
    io.size = 4;
    io.port = 0xcf8;
    io.count = 1;
    io.data_offset = 4096;
    r.__bindgen_anon_1.set_io(io);
    let img = r.to_bytes();
    assert_eq!(img.len(), KVM_RUN_SIZE);
    let s = kvm_run::from_bytes(&img).unwrap();
    assert_eq!(r, s);
    assert_eq!(s.__bindgen_anon_1.io().port, 0xcf8);
    assert_eq!(
        kvm_run::from_bytes(&img[..KVM_RUN_SIZE - 1]),
        Err(CodecError::IncompleteBuffer)
    );
}

#[test]
fn kvm_run_exit_union_short_write_keeps_tail() {
    let mut u = kvm_run__bindgen_ty_1::default();
    let mut hc = kvm_run__bindgen_ty_1__bindgen_ty_7::default();
    hc.nr = u64::MAX;
    hc.args = [u64::MAX; 6];
    hc.ret = u64::MAX;
    hc.longmode = u32::MAX;
    hc.pad = u32::MAX;
    u.set_hypercall(hc);
    let mut eoi = kvm_run__bindgen_ty_1__bindgen_ty_19::default();
    eoi.vector = 0x40;
    u.set_eoi(eoi);
    let img = u.to_bytes();
    assert_eq!(img.len(), KVM_RUN_EXIT_UNION_SIZE);
    assert_eq!(img[0], 0x40);
    assert_eq!(&img[1..72], &[0xffu8; 71][..]);
    assert_eq!(&img[72..256], &[0u8; 184][..]);
}

#[test]
fn kvm_run_default_is_zero_image() {
    assert_eq!(kvm_run::default().to_bytes(), vec![0u8; KVM_RUN_SIZE]);
    assert_eq!(
        kvm_run__bindgen_ty_2::default().to_bytes(),
        vec![0u8; KVM_RUN_S_UNION_SIZE]
    );
}

#[test]
fn bindgen_test_layout_kvm_run__bindgen_ty_1__bindgen_ty_8() {
    assert_eq!(core::mem::size_of::<kvm_run__bindgen_ty_1__bindgen_ty_8>(), 16usize);
    assert_eq!(core::mem::align_of::<kvm_run__bindgen_ty_1__bindgen_ty_8>(), 8usize);
    let mut v = kvm_run__bindgen_ty_1__bindgen_ty_8::default();
    v.rip = 0x40_2000;
    v.is_write = 1;
    v.pad = 2;
    let img = v.to_bytes();
    assert_eq!(&img[0..8], &0x40_2000u64.to_le_bytes());
    assert_eq!(&img[8..12], &1u32.to_le_bytes());
    assert_eq!(&img[12..16], &2u32.to_le_bytes());
}

#[test]
fn bindgen_test_layout_kvm_run__bindgen_ty_1__bindgen_ty_12() {
    assert_eq!(core::mem::size_of::<kvm_run__bindgen_ty_1__bindgen_ty_12>(), 136usize);
    assert_eq!(core::mem::align_of::<kvm_run__bindgen_ty_1__bindgen_ty_12>(), 8usize);
    let mut v = kvm_run__bindgen_ty_1__bindgen_ty_12::default();
    v.suberror = 1;
    v.ndata = 2;
    v.data[0] = 3;
    v.data[15] = 4;
    let img = v.to_bytes();
    assert_eq!(img.len(), 136usize);
    assert_eq!(&img[0..4], &1u32.to_le_bytes());
    assert_eq!(&img[4..8], &2u32.to_le_bytes());
    assert_eq!(&img[8..16], &3u64.to_le_bytes());
    assert_eq!(&img[128..136], &4u64.to_le_bytes());
}

#[test]
fn kvm_run_exit_union_internal_roundtrip() {
    let mut u = kvm_run__bindgen_ty_1::default();
    let mut e = kvm_run__bindgen_ty_1__bindgen_ty_12::default();
    e.suberror = 3;
    e.ndata = 1;
    e.data[0] = 0xdead;
    u.set_internal(e);
    assert_eq!(u.internal(), e);
    // the same leading bytes read back through another interpretation
    assert_eq!(u.tpr_access().rip, (1u64 << 32) | 3);
    let img = u.to_bytes();
    assert_eq!(&img[0..4], &3u32.to_le_bytes());
}
