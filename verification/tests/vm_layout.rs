//! Layout checks for the remaining VM-level, debug and timer structures,
//! held against the values of the kernel headers.

use kvm_bindings::CodecError;
use kvm_bindings::KVM_DEBUG_GUEST_SIZE;
use kvm_bindings::KVM_GUEST_DEBUG_SIZE;
use kvm_bindings::kvm_breakpoint;
use kvm_bindings::kvm_coalesced_mmio;
use kvm_bindings::kvm_coalesced_mmio_ring;
use kvm_bindings::kvm_coalesced_mmio_zone;
use kvm_bindings::kvm_create_device;
use kvm_bindings::kvm_debug_guest;
use kvm_bindings::kvm_device_attr;
use kvm_bindings::kvm_dirty_log;
use kvm_bindings::kvm_dirty_log__bindgen_ty_1;
use kvm_bindings::kvm_guest_debug;
use kvm_bindings::kvm_guest_debug_arch;
use kvm_bindings::kvm_interrupt;
use kvm_bindings::kvm_irqfd;
use kvm_bindings::kvm_memory_alias;
use kvm_bindings::kvm_memory_region;
use kvm_bindings::kvm_msi;
use kvm_bindings::kvm_one_reg;
use kvm_bindings::kvm_pit_config;
use kvm_bindings::kvm_pit_state;
use kvm_bindings::kvm_reg_list;
use kvm_bindings::kvm_reinject_control;
use kvm_bindings::kvm_signal_mask;
use kvm_bindings::kvm_tpr_access_ctl;
use kvm_bindings::kvm_translation;
use kvm_bindings::kvm_user_trace_setup;
use kvm_bindings::kvm_vapic_addr;
use kvm_bindings::kvm_xen_hvm_config;


#[test]
fn bindgen_test_layout_kvm_memory_region() {
    assert_eq!(core::mem::size_of::<kvm_memory_region>(), 24usize);
    assert_eq!(core::mem::align_of::<kvm_memory_region>(), 8usize);
    let mut v = kvm_memory_region::default();
    v.slot = 0x21000000u32;
    v.flags = 0x21000001u32;
    v.guest_phys_addr = 0x2100000000000002u64;
    v.memory_size = 0x2100000000000003u64;
    let img = v.to_bytes();
    assert_eq!(img.len(), 24usize);
    assert_eq!(&img[0..4], &0x21000000u32.to_le_bytes());
    assert_eq!(&img[4..8], &0x21000001u32.to_le_bytes());
    assert_eq!(&img[8..16], &0x2100000000000002u64.to_le_bytes());
    assert_eq!(&img[16..24], &0x2100000000000003u64.to_le_bytes());
}

#[test]
fn bindgen_test_layout_kvm_memory_alias() {
    assert_eq!(core::mem::size_of::<kvm_memory_alias>(), 32usize);
    assert_eq!(core::mem::align_of::<kvm_memory_alias>(), 8usize);
    let mut v = kvm_memory_alias::default();
    v.slot = 0x21000000u32;
    v.flags = 0x21000001u32;
    v.guest_phys_addr = 0x2100000000000002u64;
    v.memory_size = 0x2100000000000003u64;
    v.target_phys_addr = 0x2100000000000004u64;
    let img = v.to_bytes();
    assert_eq!(img.len(), 32usize);
    assert_eq!(&img[0..4], &0x21000000u32.to_le_bytes());
    assert_eq!(&img[4..8], &0x21000001u32.to_le_bytes());
    assert_eq!(&img[8..16], &0x2100000000000002u64.to_le_bytes());
    assert_eq!(&img[16..24], &0x2100000000000003u64.to_le_bytes());
    assert_eq!(&img[24..32], &0x2100000000000004u64.to_le_bytes());
}

#[test]
fn bindgen_test_layout_kvm_signal_mask() {
    assert_eq!(core::mem::size_of::<kvm_signal_mask>(), 4usize);
    assert_eq!(core::mem::align_of::<kvm_signal_mask>(), 4usize);
    let mut v = kvm_signal_mask::default();
    v.len = 0x21000000u32;
    let img = v.to_bytes();
    assert_eq!(img.len(), 4usize);
    assert_eq!(&img[0..4], &0x21000000u32.to_le_bytes());
    assert_eq!(img.len(), 4usize);
}

#[test]
fn bindgen_test_layout_kvm_xen_hvm_config() {
    assert_eq!(core::mem::size_of::<kvm_xen_hvm_config>(), 56usize);
    assert_eq!(core::mem::align_of::<kvm_xen_hvm_config>(), 8usize);
    let mut v = kvm_xen_hvm_config::default();
    v.flags = 0x21000000u32;
    v.msr = 0x21000001u32;
    v.blob_addr_32 = 0x2100000000000002u64;
    v.blob_addr_64 = 0x2100000000000003u64;
    v.blob_size_32 = 0x25u8;
    v.blob_size_64 = 0x26u8;
    v.pad2 = [0x27u8; 30];
    let img = v.to_bytes();
    assert_eq!(img.len(), 56usize);
    assert_eq!(&img[0..4], &0x21000000u32.to_le_bytes());
    assert_eq!(&img[4..8], &0x21000001u32.to_le_bytes());
    assert_eq!(&img[8..16], &0x2100000000000002u64.to_le_bytes());
    assert_eq!(&img[16..24], &0x2100000000000003u64.to_le_bytes());
    assert_eq!(img[24], 0x25u8);
    assert_eq!(img[25], 0x26u8);
    assert_eq!(&img[26..56], &[0x27u8; 30]);
}

#[test]
fn bindgen_test_layout_kvm_user_trace_setup() {
    assert_eq!(core::mem::size_of::<kvm_user_trace_setup>(), 8usize);
    assert_eq!(core::mem::align_of::<kvm_user_trace_setup>(), 4usize);
    let mut v = kvm_user_trace_setup::default();
    v.buf_size = 0x21000000u32;
    v.buf_nr = 0x21000001u32;
    let img = v.to_bytes();
    assert_eq!(img.len(), 8usize);
    assert_eq!(&img[0..4], &0x21000000u32.to_le_bytes());
    assert_eq!(&img[4..8], &0x21000001u32.to_le_bytes());
}

#[test]
fn bindgen_test_layout_kvm_create_device() {
    assert_eq!(core::mem::size_of::<kvm_create_device>(), 12usize);
    assert_eq!(core::mem::align_of::<kvm_create_device>(), 4usize);
    let mut v = kvm_create_device::default();
    v.type_ = 0x21000000u32;
    v.fd = 0x21000001u32;
    v.flags = 0x21000002u32;
    let img = v.to_bytes();
    assert_eq!(img.len(), 12usize);
    assert_eq!(&img[0..4], &0x21000000u32.to_le_bytes());
    assert_eq!(&img[4..8], &0x21000001u32.to_le_bytes());
    assert_eq!(&img[8..12], &0x21000002u32.to_le_bytes());
}

#[test]
fn bindgen_test_layout_kvm_device_attr() {
    assert_eq!(core::mem::size_of::<kvm_device_attr>(), 24usize);
    assert_eq!(core::mem::align_of::<kvm_device_attr>(), 8usize);
    let mut v = kvm_device_attr::default();
    v.flags = 0x21000000u32;
    v.group = 0x21000001u32;
    v.attr = 0x2100000000000002u64;
    v.addr = 0x2100000000000003u64;
    let img = v.to_bytes();
    assert_eq!(img.len(), 24usize);
    assert_eq!(&img[0..4], &0x21000000u32.to_le_bytes());
    assert_eq!(&img[4..8], &0x21000001u32.to_le_bytes());
    assert_eq!(&img[8..16], &0x2100000000000002u64.to_le_bytes());
    assert_eq!(&img[16..24], &0x2100000000000003u64.to_le_bytes());
}

#[test]
fn bindgen_test_layout_kvm_one_reg() {
    assert_eq!(core::mem::size_of::<kvm_one_reg>(), 16usize);
    assert_eq!(core::mem::align_of::<kvm_one_reg>(), 8usize);
    let mut v = kvm_one_reg::default();
    v.id = 0x2100000000000000u64;
    v.addr = 0x2100000000000001u64;
    let img = v.to_bytes();
    assert_eq!(img.len(), 16usize);
    assert_eq!(&img[0..8], &0x2100000000000000u64.to_le_bytes());
    assert_eq!(&img[8..16], &0x2100000000000001u64.to_le_bytes());
}

#[test]
fn bindgen_test_layout_kvm_reg_list() {
    assert_eq!(core::mem::size_of::<kvm_reg_list>(), 8usize);
    assert_eq!(core::mem::align_of::<kvm_reg_list>(), 8usize);
    let mut v = kvm_reg_list::default();
    v.n = 0x2100000000000000u64;
    let img = v.to_bytes();
    assert_eq!(img.len(), 8usize);
    assert_eq!(&img[0..8], &0x2100000000000000u64.to_le_bytes());
    assert_eq!(img.len(), 8usize);
}

#[test]
fn bindgen_test_layout_kvm_irqfd() {
    assert_eq!(core::mem::size_of::<kvm_irqfd>(), 32usize);
    assert_eq!(core::mem::align_of::<kvm_irqfd>(), 4usize);
    let mut v = kvm_irqfd::default();
    v.fd = 0x21000000u32;
    v.gsi = 0x21000001u32;
    v.flags = 0x21000002u32;
    v.resamplefd = 0x21000003u32;
    v.pad = [0x25u8; 16];
    let img = v.to_bytes();
    assert_eq!(img.len(), 32usize);
    assert_eq!(&img[0..4], &0x21000000u32.to_le_bytes());
    assert_eq!(&img[4..8], &0x21000001u32.to_le_bytes());
    assert_eq!(&img[8..12], &0x21000002u32.to_le_bytes());
    assert_eq!(&img[12..16], &0x21000003u32.to_le_bytes());
    assert_eq!(&img[16..32], &[0x25u8; 16]);
}

#[test]
fn bindgen_test_layout_kvm_msi() {
    assert_eq!(core::mem::size_of::<kvm_msi>(), 32usize);
    assert_eq!(core::mem::align_of::<kvm_msi>(), 4usize);
    let mut v = kvm_msi::default();
    v.address_lo = 0x21000000u32;
    v.address_hi = 0x21000001u32;
    v.data = 0x21000002u32;
    v.flags = 0x21000003u32;
    v.devid = 0x21000004u32;
    v.pad = [0x26u8; 12];
    let img = v.to_bytes();
    assert_eq!(img.len(), 32usize);
    assert_eq!(&img[0..4], &0x21000000u32.to_le_bytes());
    assert_eq!(&img[4..8], &0x21000001u32.to_le_bytes());
    assert_eq!(&img[8..12], &0x21000002u32.to_le_bytes());
    assert_eq!(&img[12..16], &0x21000003u32.to_le_bytes());
    assert_eq!(&img[16..20], &0x21000004u32.to_le_bytes());
    assert_eq!(&img[20..32], &[0x26u8; 12]);
}

#[test]
fn bindgen_test_layout_kvm_vapic_addr() {
    assert_eq!(core::mem::size_of::<kvm_vapic_addr>(), 8usize);
    assert_eq!(core::mem::align_of::<kvm_vapic_addr>(), 8usize);
    let mut v = kvm_vapic_addr::default();
    v.vapic_addr = 0x2100000000000000u64;
    let img = v.to_bytes();
    assert_eq!(img.len(), 8usize);
    assert_eq!(&img[0..8], &0x2100000000000000u64.to_le_bytes());
}

#[test]
fn bindgen_test_layout_kvm_tpr_access_ctl() {
    assert_eq!(core::mem::size_of::<kvm_tpr_access_ctl>(), 40usize);
    assert_eq!(core::mem::align_of::<kvm_tpr_access_ctl>(), 4usize);
    let mut v = kvm_tpr_access_ctl::default();
    v.enabled = 0x21000000u32;
    v.flags = 0x21000001u32;
    v.reserved = [0x21000028u32, 0x21000029u32, 0x2100002au32, 0x2100002bu32, 0x2100002cu32, 0x2100002du32, 0x2100002eu32, 0x2100002fu32];
    let img = v.to_bytes();
    assert_eq!(img.len(), 40usize);
    assert_eq!(&img[0..4], &0x21000000u32.to_le_bytes());
    assert_eq!(&img[4..8], &0x21000001u32.to_le_bytes());
    assert_eq!(&img[8..12], &0x21000028u32.to_le_bytes());
    assert_eq!(&img[36..40], &0x2100002fu32.to_le_bytes());
}

#[test]
fn bindgen_test_layout_kvm_reinject_control() {
    assert_eq!(core::mem::size_of::<kvm_reinject_control>(), 32usize);
    assert_eq!(core::mem::align_of::<kvm_reinject_control>(), 1usize);
    let mut v = kvm_reinject_control::default();
    v.pit_reinject = 0x21u8;
    v.reserved = [0x22u8; 31];
    let img = v.to_bytes();
    assert_eq!(img.len(), 32usize);
    assert_eq!(img[0], 0x21u8);
    assert_eq!(&img[1..32], &[0x22u8; 31]);
}

#[test]
fn bindgen_test_layout_kvm_coalesced_mmio_zone() {
    assert_eq!(core::mem::size_of::<kvm_coalesced_mmio_zone>(), 16usize);
    assert_eq!(core::mem::align_of::<kvm_coalesced_mmio_zone>(), 8usize);
    let mut v = kvm_coalesced_mmio_zone::default();
    v.addr = 0x2100000000000000u64;
    v.size = 0x21000001u32;
    v.pad = 0x21000002u32;
    let img = v.to_bytes();
    assert_eq!(img.len(), 16usize);
    assert_eq!(&img[0..8], &0x2100000000000000u64.to_le_bytes());
    assert_eq!(&img[8..12], &0x21000001u32.to_le_bytes());
    assert_eq!(&img[12..16], &0x21000002u32.to_le_bytes());
}

#[test]
fn bindgen_test_layout_kvm_coalesced_mmio() {
    assert_eq!(core::mem::size_of::<kvm_coalesced_mmio>(), 24usize);
    assert_eq!(core::mem::align_of::<kvm_coalesced_mmio>(), 8usize);
    let mut v = kvm_coalesced_mmio::default();
    v.phys_addr = 0x2100000000000000u64;
    v.len = 0x21000001u32;
    v.pad = 0x21000002u32;
    v.data = [0x24u8; 8];
    let img = v.to_bytes();
    assert_eq!(img.len(), 24usize);
    assert_eq!(&img[0..8], &0x2100000000000000u64.to_le_bytes());
    assert_eq!(&img[8..12], &0x21000001u32.to_le_bytes());
    assert_eq!(&img[12..16], &0x21000002u32.to_le_bytes());
    assert_eq!(&img[16..24], &[0x24u8; 8]);
}

#[test]
fn bindgen_test_layout_kvm_coalesced_mmio_ring() {
    assert_eq!(core::mem::size_of::<kvm_coalesced_mmio_ring>(), 8usize);
    assert_eq!(core::mem::align_of::<kvm_coalesced_mmio_ring>(), 8usize);
    let mut v = kvm_coalesced_mmio_ring::default();
    v.first = 0x21000000u32;
    v.last = 0x21000001u32;
    let img = v.to_bytes();
    assert_eq!(img.len(), 8usize);
    assert_eq!(&img[0..4], &0x21000000u32.to_le_bytes());
    assert_eq!(&img[4..8], &0x21000001u32.to_le_bytes());
    assert_eq!(img.len(), 8usize);
}

#[test]
fn bindgen_test_layout_kvm_translation() {
    assert_eq!(core::mem::size_of::<kvm_translation>(), 24usize);
    assert_eq!(core::mem::align_of::<kvm_translation>(), 8usize);
    let mut v = kvm_translation::default();
    v.linear_address = 0x2100000000000000u64;
    v.physical_address = 0x2100000000000001u64;
    v.valid = 0x23u8;
    v.writeable = 0x24u8;
    v.usermode = 0x25u8;
    v.pad = [0x26u8; 5];
    let img = v.to_bytes();
    assert_eq!(img.len(), 24usize);
    assert_eq!(&img[0..8], &0x2100000000000000u64.to_le_bytes());
    assert_eq!(&img[8..16], &0x2100000000000001u64.to_le_bytes());
    assert_eq!(img[16], 0x23u8);
    assert_eq!(img[17], 0x24u8);
    assert_eq!(img[18], 0x25u8);
    assert_eq!(&img[19..24], &[0x26u8; 5]);
}

#[test]
fn bindgen_test_layout_kvm_interrupt() {
    assert_eq!(core::mem::size_of::<kvm_interrupt>(), 4usize);
    assert_eq!(core::mem::align_of::<kvm_interrupt>(), 4usize);
    let mut v = kvm_interrupt::default();
    v.irq = 0x21000000u32;
    let img = v.to_bytes();
    assert_eq!(img.len(), 4usize);
    assert_eq!(&img[0..4], &0x21000000u32.to_le_bytes());
}

#[test]
fn bindgen_test_layout_kvm_pit_config() {
    assert_eq!(core::mem::size_of::<kvm_pit_config>(), 64usize);
    assert_eq!(core::mem::align_of::<kvm_pit_config>(), 4usize);
    let mut v = kvm_pit_config::default();
    v.flags = 0x21000000u32;
    v.pad = [0x21000014u32, 0x21000015u32, 0x21000016u32, 0x21000017u32, 0x21000018u32, 0x21000019u32, 0x2100001au32, 0x2100001bu32, 0x2100001cu32, 0x2100001du32, 0x2100001eu32, 0x2100001fu32, 0x21000020u32, 0x21000021u32, 0x21000022u32];
    let img = v.to_bytes();
    assert_eq!(img.len(), 64usize);
    assert_eq!(&img[0..4], &0x21000000u32.to_le_bytes());
    assert_eq!(&img[4..8], &0x21000014u32.to_le_bytes());
    assert_eq!(&img[60..64], &0x21000022u32.to_le_bytes());
}

#[test]
fn bindgen_test_layout_kvm_breakpoint() {
    assert_eq!(core::mem::size_of::<kvm_breakpoint>(), 16usize);
    assert_eq!(core::mem::align_of::<kvm_breakpoint>(), 8usize);
    let mut v = kvm_breakpoint::default();
    v.enabled = 0x21000000u32;
    v.padding = 0x21000001u32;
    v.address = 0x2100000000000002u64;
    let img = v.to_bytes();
    assert_eq!(img.len(), 16usize);
    assert_eq!(&img[0..4], &0x21000000u32.to_le_bytes());
    assert_eq!(&img[4..8], &0x21000001u32.to_le_bytes());
    assert_eq!(&img[8..16], &0x2100000000000002u64.to_le_bytes());
}

#[test]
fn bindgen_test_layout_kvm_guest_debug_arch() {
    assert_eq!(core::mem::size_of::<kvm_guest_debug_arch>(), 64usize);
    assert_eq!(core::mem::align_of::<kvm_guest_debug_arch>(), 8usize);
    let mut v = kvm_guest_debug_arch::default();
    v.debugreg = [0x2100000000000000u64, 0x2100000000000001u64, 0x2100000000000002u64, 0x2100000000000003u64, 0x2100000000000004u64, 0x2100000000000005u64, 0x2100000000000006u64, 0x2100000000000007u64];
    let img = v.to_bytes();
    assert_eq!(img.len(), 64usize);
    assert_eq!(&img[0..8], &0x2100000000000000u64.to_le_bytes());
    assert_eq!(&img[56..64], &0x2100000000000007u64.to_le_bytes());
}

#[test]
fn bindgen_test_layout_kvm_guest_debug() {
    assert_eq!(core::mem::size_of::<kvm_guest_debug>(), 72usize);
    assert_eq!(core::mem::align_of::<kvm_guest_debug>(), 8usize);
    let mut v = kvm_guest_debug::default();
    v.control = 0x21000000u32;
    v.pad = 0x21000001u32;
    v.arch.debugreg[0] = 0x2100000000000002u64;
    let img = v.to_bytes();
    assert_eq!(img.len(), 72usize);
    assert_eq!(&img[0..4], &0x21000000u32.to_le_bytes());
    assert_eq!(&img[4..8], &0x21000001u32.to_le_bytes());
    assert_eq!(&img[8..16], &0x2100000000000002u64.to_le_bytes());
}

#[test]
fn bindgen_test_layout_kvm_debug_guest() {
    assert_eq!(core::mem::size_of::<kvm_debug_guest>(), 80usize);
    assert_eq!(core::mem::align_of::<kvm_debug_guest>(), 8usize);
    let mut v = kvm_debug_guest::default();
    v.enabled = 1;
    v.pad = 2;
    v.breakpoints[0].address = 0x1000;
    v.breakpoints[3].address = 0x4000;
    v.singlestep = 1;
    let img = v.to_bytes();
    assert_eq!(img.len(), KVM_DEBUG_GUEST_SIZE);
    assert_eq!(&img[0..4], &1u32.to_le_bytes());
    assert_eq!(&img[4..8], &2u32.to_le_bytes());
    assert_eq!(&img[16..24], &0x1000u64.to_le_bytes());
    assert_eq!(&img[64..72], &0x4000u64.to_le_bytes());
    assert_eq!(&img[72..76], &1u32.to_le_bytes());
}

#[test]
fn bindgen_test_layout_kvm_pit_state() {
    assert_eq!(core::mem::size_of::<kvm_pit_state>(), 72usize);
    assert_eq!(core::mem::align_of::<kvm_pit_state>(), 8usize);
    let mut v = kvm_pit_state::default();
    v.channels[0].count = 7;
    v.channels[2].count_load_time = -1;
    let img = v.to_bytes();
    assert_eq!(img.len(), 72usize);
    assert_eq!(&img[0..4], &7u32.to_le_bytes());
    assert_eq!(&img[64..72], &(-1i64).to_le_bytes());
}

#[test]
fn bindgen_test_layout_kvm_dirty_log() {
    assert_eq!(core::mem::size_of::<kvm_dirty_log>(), 16usize);
    assert_eq!(core::mem::align_of::<kvm_dirty_log>(), 8usize);
    let mut v = kvm_dirty_log::default();
    v.slot = 1;
    v.padding1 = 2;
    v.__bindgen_anon_1.set_padding2(0x3333);
    let img = v.to_bytes();
    assert_eq!(img.len(), 16usize);
    assert_eq!(&img[0..4], &1u32.to_le_bytes());
    assert_eq!(&img[4..8], &2u32.to_le_bytes());
    assert_eq!(&img[8..16], &0x3333u64.to_le_bytes());
}

#[test]
fn bindgen_test_layout_kvm_dirty_log__bindgen_ty_1() {
    assert_eq!(core::mem::size_of::<kvm_dirty_log__bindgen_ty_1>(), 8usize);
    assert_eq!(core::mem::align_of::<kvm_dirty_log__bindgen_ty_1>(), 8usize);
    // both interpretations start at the union's first byte
    let mut u = kvm_dirty_log__bindgen_ty_1::default();
    u.set_padding2(u64::MAX);
    assert_eq!(u.padding2(), u64::MAX);
    assert_eq!(u.to_bytes(), vec![0xffu8; 8]);
}

#[test]
fn kvm_guest_debug_image_roundtrip() {
    let mut g = kvm_guest_debug::default();
    g.control = 3;
    g.arch.debugreg = [1, 2, 3, 4, 5, 6, 7, 8];
    let img = g.to_bytes();
    assert_eq!(kvm_guest_debug::from_bytes(&img).unwrap(), g);
    assert_eq!(
        kvm_guest_debug::from_bytes(&img[..KVM_GUEST_DEBUG_SIZE - 1]),
        Err(CodecError::IncompleteBuffer)
    );
}

#[test]
fn kvm_coalesced_mmio_image_roundtrip() {
    let mut c = kvm_coalesced_mmio::default();
    c.phys_addr = 0xa0000;
    c.len = 2;
    c.data = [1, 2, 0, 0, 0, 0, 0, 0];
    let img = c.to_bytes();
    assert_eq!(kvm_coalesced_mmio::from_bytes(&img).unwrap(), c);
}

#[test]
fn kvm_msi_image_roundtrip() {
    let mut m = kvm_msi::default();
    m.address_lo = 0xfee00000;
    m.data = 0x4041;
    m.devid = 9;
    let img = m.to_bytes();
    assert_eq!(kvm_msi::from_bytes(&img).unwrap(), m);
    assert_eq!(kvm_msi::from_bytes(&[]), Err(CodecError::IncompleteBuffer));
}
