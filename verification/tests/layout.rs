//! Layout checks: sizes, alignments and field offsets of every structure,
//! held against the values of the kernel headers.  Offsets are observed
//! through each structure's byte image.

use kvm_bindings::__BindgenBitfieldUnit;
use kvm_bindings::kvm_cpuid;
use kvm_bindings::kvm_cpuid2;
use kvm_bindings::kvm_cpuid_entry;
use kvm_bindings::kvm_cpuid_entry2;
use kvm_bindings::kvm_dtable;
use kvm_bindings::kvm_enable_cap;
use kvm_bindings::kvm_ioapic_state;
use kvm_bindings::kvm_ioapic_state__bindgen_ty_1;
use kvm_bindings::kvm_ioapic_state__bindgen_ty_1__bindgen_ty_1;
use kvm_bindings::kvm_ioeventfd;
use kvm_bindings::kvm_irq_level;
use kvm_bindings::kvm_irq_level__bindgen_ty_1;
use kvm_bindings::kvm_irq_routing;
use kvm_bindings::kvm_irq_routing_entry;
use kvm_bindings::kvm_irq_routing_entry__bindgen_ty_1;
use kvm_bindings::kvm_irq_routing_hv_sint;
use kvm_bindings::kvm_irq_routing_irqchip;
use kvm_bindings::kvm_irq_routing_msi;
use kvm_bindings::kvm_irq_routing_msi__bindgen_ty_1;
use kvm_bindings::kvm_irq_routing_s390_adapter;
use kvm_bindings::kvm_msr_entry;
use kvm_bindings::kvm_msr_list;
use kvm_bindings::kvm_msrs;
use kvm_bindings::kvm_pic_state;
use kvm_bindings::kvm_regs;
use kvm_bindings::kvm_segment;
use kvm_bindings::kvm_sregs;
use kvm_bindings::kvm_sync_regs;
use kvm_bindings::kvm_clock_data;
use kvm_bindings::kvm_debugregs;
use kvm_bindings::kvm_mp_state;
use kvm_bindings::kvm_pit_channel_state;
use kvm_bindings::kvm_pit_state2;
use kvm_bindings::kvm_userspace_memory_region;
use kvm_bindings::kvm_vcpu_events;
use kvm_bindings::kvm_vcpu_events__bindgen_ty_1;
use kvm_bindings::kvm_vcpu_events__bindgen_ty_2;
use kvm_bindings::kvm_vcpu_events__bindgen_ty_3;
use kvm_bindings::kvm_vcpu_events__bindgen_ty_4;
use kvm_bindings::kvm_xcr;
use kvm_bindings::kvm_xcrs;


#[test]
fn bindgen_test_layout_kvm_segment() {
    assert_eq!(core::mem::size_of::<kvm_segment>(), 24usize);
    assert_eq!(core::mem::align_of::<kvm_segment>(), 8usize);
    let mut v = kvm_segment::default();
    v.base = 0x1100000000000000u64;
    v.limit = 0x11000001u32;
    v.selector = 0x1102u16;
    v.type_ = 0x14u8;
    v.present = 0x15u8;
    v.dpl = 0x16u8;
    v.db = 0x17u8;
    v.s = 0x18u8;
    v.l = 0x19u8;
    v.g = 0x1au8;
    v.avl = 0x1bu8;
    v.unusable = 0x1cu8;
    v.padding = 0x1du8;
    let img = v.to_bytes();
    assert_eq!(img.len(), 24usize);
    assert_eq!(&img[0..8], &0x1100000000000000u64.to_le_bytes());
    assert_eq!(&img[8..12], &0x11000001u32.to_le_bytes());
    assert_eq!(&img[12..14], &0x1102u16.to_le_bytes());
    assert_eq!(img[14], 0x14u8);
    assert_eq!(img[15], 0x15u8);
    assert_eq!(img[16], 0x16u8);
    assert_eq!(img[17], 0x17u8);
    assert_eq!(img[18], 0x18u8);
    assert_eq!(img[19], 0x19u8);
    assert_eq!(img[20], 0x1au8);
    assert_eq!(img[21], 0x1bu8);
    assert_eq!(img[22], 0x1cu8);
    assert_eq!(img[23], 0x1du8);
}

#[test]
fn bindgen_test_layout_kvm_dtable() {
    assert_eq!(core::mem::size_of::<kvm_dtable>(), 16usize);
    assert_eq!(core::mem::align_of::<kvm_dtable>(), 8usize);
    let mut v = kvm_dtable::default();
    v.base = 0x1100000000000000u64;
    v.limit = 0x1101u16;
    v.padding = [0x1114u16, 0x1115u16, 0x1116u16];
    let img = v.to_bytes();
    assert_eq!(img.len(), 16usize);
    assert_eq!(&img[0..8], &0x1100000000000000u64.to_le_bytes());
    assert_eq!(&img[8..10], &0x1101u16.to_le_bytes());
    assert_eq!(&img[10..12], &0x1114u16.to_le_bytes());
    assert_eq!(&img[12..14], &0x1115u16.to_le_bytes());
    assert_eq!(&img[14..16], &0x1116u16.to_le_bytes());
}

#[test]
fn bindgen_test_layout_kvm_regs() {
    assert_eq!(core::mem::size_of::<kvm_regs>(), 144usize);
    assert_eq!(core::mem::align_of::<kvm_regs>(), 8usize);
    let mut v = kvm_regs::default();
    v.rax = 0x1100000000000000u64;
    v.rbx = 0x1100000000000001u64;
    v.rcx = 0x1100000000000002u64;
    v.rdx = 0x1100000000000003u64;
    v.rsi = 0x1100000000000004u64;
    v.rdi = 0x1100000000000005u64;
    v.rsp = 0x1100000000000006u64;
    v.rbp = 0x1100000000000007u64;
    v.r8 = 0x1100000000000008u64;
    v.r9 = 0x1100000000000009u64;
    v.r10 = 0x110000000000000au64;
    v.r11 = 0x110000000000000bu64;
    v.r12 = 0x110000000000000cu64;
    v.r13 = 0x110000000000000du64;
    v.r14 = 0x110000000000000eu64;
    v.r15 = 0x110000000000000fu64;
    v.rip = 0x1100000000000010u64;
    v.rflags = 0x1100000000000011u64;
    let img = v.to_bytes();
    assert_eq!(img.len(), 144usize);
    assert_eq!(&img[0..8], &0x1100000000000000u64.to_le_bytes());
    assert_eq!(&img[8..16], &0x1100000000000001u64.to_le_bytes());
    assert_eq!(&img[16..24], &0x1100000000000002u64.to_le_bytes());
    assert_eq!(&img[24..32], &0x1100000000000003u64.to_le_bytes());
    assert_eq!(&img[32..40], &0x1100000000000004u64.to_le_bytes());
    assert_eq!(&img[40..48], &0x1100000000000005u64.to_le_bytes());
    assert_eq!(&img[48..56], &0x1100000000000006u64.to_le_bytes());
    assert_eq!(&img[56..64], &0x1100000000000007u64.to_le_bytes());
    assert_eq!(&img[64..72], &0x1100000000000008u64.to_le_bytes());
    assert_eq!(&img[72..80], &0x1100000000000009u64.to_le_bytes());
    assert_eq!(&img[80..88], &0x110000000000000au64.to_le_bytes());
    assert_eq!(&img[88..96], &0x110000000000000bu64.to_le_bytes());
    assert_eq!(&img[96..104], &0x110000000000000cu64.to_le_bytes());
    assert_eq!(&img[104..112], &0x110000000000000du64.to_le_bytes());
    assert_eq!(&img[112..120], &0x110000000000000eu64.to_le_bytes());
    assert_eq!(&img[120..128], &0x110000000000000fu64.to_le_bytes());
    assert_eq!(&img[128..136], &0x1100000000000010u64.to_le_bytes());
    assert_eq!(&img[136..144], &0x1100000000000011u64.to_le_bytes());
}

#[test]
fn bindgen_test_layout_kvm_sregs() {
    assert_eq!(core::mem::size_of::<kvm_sregs>(), 312usize);
    assert_eq!(core::mem::align_of::<kvm_sregs>(), 8usize);
    let mut v = kvm_sregs::default();
    v.cs.base = 0x1100000000000000u64;
    v.ds.base = 0x1100000000000001u64;
    v.es.base = 0x1100000000000002u64;
    v.fs.base = 0x1100000000000003u64;
    v.gs.base = 0x1100000000000004u64;
    v.ss.base = 0x1100000000000005u64;
    v.tr.base = 0x1100000000000006u64;
    v.ldt.base = 0x1100000000000007u64;
    v.gdt.base = 0x1100000000000008u64;
    v.idt.base = 0x1100000000000009u64;
    v.cr0 = 0x110000000000000au64;
    v.cr2 = 0x110000000000000bu64;
    v.cr3 = 0x110000000000000cu64;
    v.cr4 = 0x110000000000000du64;
    v.cr8 = 0x110000000000000eu64;
    v.efer = 0x110000000000000fu64;
    v.apic_base = 0x1100000000000010u64;
    v.interrupt_bitmap = [0x11000000000000aau64, 0x11000000000000abu64, 0x11000000000000acu64, 0x11000000000000adu64];
    let img = v.to_bytes();
    assert_eq!(img.len(), 312usize);
    assert_eq!(&img[0..8], &0x1100000000000000u64.to_le_bytes());
    assert_eq!(&img[24..32], &0x1100000000000001u64.to_le_bytes());
    assert_eq!(&img[48..56], &0x1100000000000002u64.to_le_bytes());
    assert_eq!(&img[72..80], &0x1100000000000003u64.to_le_bytes());
    assert_eq!(&img[96..104], &0x1100000000000004u64.to_le_bytes());
    assert_eq!(&img[120..128], &0x1100000000000005u64.to_le_bytes());
    assert_eq!(&img[144..152], &0x1100000000000006u64.to_le_bytes());
    assert_eq!(&img[168..176], &0x1100000000000007u64.to_le_bytes());
    assert_eq!(&img[192..200], &0x1100000000000008u64.to_le_bytes());
    assert_eq!(&img[208..216], &0x1100000000000009u64.to_le_bytes());
    assert_eq!(&img[224..232], &0x110000000000000au64.to_le_bytes());
    assert_eq!(&img[232..240], &0x110000000000000bu64.to_le_bytes());
    assert_eq!(&img[240..248], &0x110000000000000cu64.to_le_bytes());
    assert_eq!(&img[248..256], &0x110000000000000du64.to_le_bytes());
    assert_eq!(&img[256..264], &0x110000000000000eu64.to_le_bytes());
    assert_eq!(&img[264..272], &0x110000000000000fu64.to_le_bytes());
    assert_eq!(&img[272..280], &0x1100000000000010u64.to_le_bytes());
    assert_eq!(&img[280..288], &0x11000000000000aau64.to_le_bytes());
    assert_eq!(&img[288..296], &0x11000000000000abu64.to_le_bytes());
    assert_eq!(&img[296..304], &0x11000000000000acu64.to_le_bytes());
    assert_eq!(&img[304..312], &0x11000000000000adu64.to_le_bytes());
}

#[test]
fn bindgen_test_layout_kvm_sync_regs() {
    assert_eq!(core::mem::size_of::<kvm_sync_regs>(), 0usize);
    assert_eq!(core::mem::align_of::<kvm_sync_regs>(), 1usize);
}

#[test]
fn bindgen_test_layout_kvm_pic_state() {
    assert_eq!(core::mem::size_of::<kvm_pic_state>(), 16usize);
    assert_eq!(core::mem::align_of::<kvm_pic_state>(), 1usize);
    let mut v = kvm_pic_state::default();
    v.last_irr = 0x11u8;
    v.irr = 0x12u8;
    v.imr = 0x13u8;
    v.isr = 0x14u8;
    v.priority_add = 0x15u8;
    v.irq_base = 0x16u8;
    v.read_reg_select = 0x17u8;
    v.poll = 0x18u8;
    v.special_mask = 0x19u8;
    v.init_state = 0x1au8;
    v.auto_eoi = 0x1bu8;
    v.rotate_on_auto_eoi = 0x1cu8;
    v.special_fully_nested_mode = 0x1du8;
    v.init4 = 0x1eu8;
    v.elcr = 0x1fu8;
    v.elcr_mask = 0x20u8;
    let img = v.to_bytes();
    assert_eq!(img.len(), 16usize);
    assert_eq!(img[0], 0x11u8);
    assert_eq!(img[1], 0x12u8);
    assert_eq!(img[2], 0x13u8);
    assert_eq!(img[3], 0x14u8);
    assert_eq!(img[4], 0x15u8);
    assert_eq!(img[5], 0x16u8);
    assert_eq!(img[6], 0x17u8);
    assert_eq!(img[7], 0x18u8);
    assert_eq!(img[8], 0x19u8);
    assert_eq!(img[9], 0x1au8);
    assert_eq!(img[10], 0x1bu8);
    assert_eq!(img[11], 0x1cu8);
    assert_eq!(img[12], 0x1du8);
    assert_eq!(img[13], 0x1eu8);
    assert_eq!(img[14], 0x1fu8);
    assert_eq!(img[15], 0x20u8);
}

#[test]
fn bindgen_test_layout_kvm_ioapic_state() {
    assert_eq!(core::mem::size_of::<kvm_ioapic_state>(), 216usize);
    assert_eq!(core::mem::align_of::<kvm_ioapic_state>(), 8usize);
    let mut v = kvm_ioapic_state::default();
    v.base_address = 0x1100000000000000u64;
    v.ioregsel = 0x11000001u32;
    v.id = 0x11000002u32;
    v.irr = 0x11000003u32;
    v.pad = 0x11000004u32;
    v.redirtbl[0].set_bits(0x1100000000000005u64);
    v.redirtbl[23].set_bits(0x1100000000000006u64);
    let img = v.to_bytes();
    assert_eq!(img.len(), 216usize);
    assert_eq!(&img[0..8], &0x1100000000000000u64.to_le_bytes());
    assert_eq!(&img[8..12], &0x11000001u32.to_le_bytes());
    assert_eq!(&img[12..16], &0x11000002u32.to_le_bytes());
    assert_eq!(&img[16..20], &0x11000003u32.to_le_bytes());
    assert_eq!(&img[20..24], &0x11000004u32.to_le_bytes());
    assert_eq!(&img[24..32], &0x1100000000000005u64.to_le_bytes());
    assert_eq!(&img[208..216], &0x1100000000000006u64.to_le_bytes());
}

#[test]
fn bindgen_test_layout_kvm_msr_entry() {
    assert_eq!(core::mem::size_of::<kvm_msr_entry>(), 16usize);
    assert_eq!(core::mem::align_of::<kvm_msr_entry>(), 8usize);
    let mut v = kvm_msr_entry::default();
    v.index = 0x11000000u32;
    v.reserved = 0x11000001u32;
    v.data = 0x1100000000000002u64;
    let img = v.to_bytes();
    assert_eq!(img.len(), 16usize);
    assert_eq!(&img[0..4], &0x11000000u32.to_le_bytes());
    assert_eq!(&img[4..8], &0x11000001u32.to_le_bytes());
    assert_eq!(&img[8..16], &0x1100000000000002u64.to_le_bytes());
}

#[test]
fn bindgen_test_layout_kvm_msrs() {
    assert_eq!(core::mem::size_of::<kvm_msrs>(), 8usize);
    assert_eq!(core::mem::align_of::<kvm_msrs>(), 8usize);
    let mut v = kvm_msrs::default();
    v.nmsrs = 0x11000000u32;
    v.pad = 0x11000001u32;
    let img = v.to_bytes();
    assert_eq!(img.len(), 8usize);
    assert_eq!(&img[0..4], &0x11000000u32.to_le_bytes());
    assert_eq!(&img[4..8], &0x11000001u32.to_le_bytes());
    assert_eq!(img.len(), 8usize);
}

#[test]
fn bindgen_test_layout_kvm_msr_list() {
    assert_eq!(core::mem::size_of::<kvm_msr_list>(), 4usize);
    assert_eq!(core::mem::align_of::<kvm_msr_list>(), 4usize);
    let mut v = kvm_msr_list::default();
    v.nmsrs = 0x11000000u32;
    let img = v.to_bytes();
    assert_eq!(img.len(), 4usize);
    assert_eq!(&img[0..4], &0x11000000u32.to_le_bytes());
    assert_eq!(img.len(), 4usize);
}

#[test]
fn bindgen_test_layout_kvm_cpuid_entry() {
    assert_eq!(core::mem::size_of::<kvm_cpuid_entry>(), 24usize);
    assert_eq!(core::mem::align_of::<kvm_cpuid_entry>(), 4usize);
    let mut v = kvm_cpuid_entry::default();
    v.function = 0x11000000u32;
    v.eax = 0x11000001u32;
    v.ebx = 0x11000002u32;
    v.ecx = 0x11000003u32;
    v.edx = 0x11000004u32;
    v.padding = 0x11000005u32;
    let img = v.to_bytes();
    assert_eq!(img.len(), 24usize);
    assert_eq!(&img[0..4], &0x11000000u32.to_le_bytes());
    assert_eq!(&img[4..8], &0x11000001u32.to_le_bytes());
    assert_eq!(&img[8..12], &0x11000002u32.to_le_bytes());
    assert_eq!(&img[12..16], &0x11000003u32.to_le_bytes());
    assert_eq!(&img[16..20], &0x11000004u32.to_le_bytes());
    assert_eq!(&img[20..24], &0x11000005u32.to_le_bytes());
}

#[test]
fn bindgen_test_layout_kvm_cpuid_entry2() {
    assert_eq!(core::mem::size_of::<kvm_cpuid_entry2>(), 40usize);
    assert_eq!(core::mem::align_of::<kvm_cpuid_entry2>(), 4usize);
    let mut v = kvm_cpuid_entry2::default();
    v.function = 0x11000000u32;
    v.index = 0x11000001u32;
    v.flags = 0x11000002u32;
    v.eax = 0x11000003u32;
    v.ebx = 0x11000004u32;
    v.ecx = 0x11000005u32;
    v.edx = 0x11000006u32;
    v.padding = [0x11000046u32, 0x11000047u32, 0x11000048u32];
    let img = v.to_bytes();
    assert_eq!(img.len(), 40usize);
    assert_eq!(&img[0..4], &0x11000000u32.to_le_bytes());
    assert_eq!(&img[4..8], &0x11000001u32.to_le_bytes());
    assert_eq!(&img[8..12], &0x11000002u32.to_le_bytes());
    assert_eq!(&img[12..16], &0x11000003u32.to_le_bytes());
    assert_eq!(&img[16..20], &0x11000004u32.to_le_bytes());
    assert_eq!(&img[20..24], &0x11000005u32.to_le_bytes());
    assert_eq!(&img[24..28], &0x11000006u32.to_le_bytes());
    assert_eq!(&img[28..32], &0x11000046u32.to_le_bytes());
    assert_eq!(&img[32..36], &0x11000047u32.to_le_bytes());
    assert_eq!(&img[36..40], &0x11000048u32.to_le_bytes());
}

#[test]
fn bindgen_test_layout_kvm_cpuid() {
    assert_eq!(core::mem::size_of::<kvm_cpuid>(), 8usize);
    assert_eq!(core::mem::align_of::<kvm_cpuid>(), 4usize);
    let mut v = kvm_cpuid::default();
    v.nent = 0x11000000u32;
    v.padding = 0x11000001u32;
    let img = v.to_bytes();
    assert_eq!(img.len(), 8usize);
    assert_eq!(&img[0..4], &0x11000000u32.to_le_bytes());
    assert_eq!(&img[4..8], &0x11000001u32.to_le_bytes());
    assert_eq!(img.len(), 8usize);
}

#[test]
fn bindgen_test_layout_kvm_cpuid2() {
    assert_eq!(core::mem::size_of::<kvm_cpuid2>(), 8usize);
    assert_eq!(core::mem::align_of::<kvm_cpuid2>(), 4usize);
    let mut v = kvm_cpuid2::default();
    v.nent = 0x11000000u32;
    v.padding = 0x11000001u32;
    let img = v.to_bytes();
    assert_eq!(img.len(), 8usize);
    assert_eq!(&img[0..4], &0x11000000u32.to_le_bytes());
    assert_eq!(&img[4..8], &0x11000001u32.to_le_bytes());
    assert_eq!(img.len(), 8usize);
}

#[test]
fn bindgen_test_layout_kvm_ioeventfd() {
    assert_eq!(core::mem::size_of::<kvm_ioeventfd>(), 64usize);
    assert_eq!(core::mem::align_of::<kvm_ioeventfd>(), 8usize);
    let mut v = kvm_ioeventfd::default();
    v.datamatch = 0x1100000000000000u64;
    v.addr = 0x1100000000000001u64;
    v.len = 0x11000002u32;
    v.fd = -10i32;
    v.flags = 0x11000004u32;
    v.pad = [0x16u8; 36];
    let img = v.to_bytes();
    assert_eq!(img.len(), 64usize);
    assert_eq!(&img[0..8], &0x1100000000000000u64.to_le_bytes());
    assert_eq!(&img[8..16], &0x1100000000000001u64.to_le_bytes());
    assert_eq!(&img[16..20], &0x11000002u32.to_le_bytes());
    assert_eq!(&img[20..24], &(-10i32).to_le_bytes());
    assert_eq!(&img[24..28], &0x11000004u32.to_le_bytes());
    assert_eq!(&img[28..64], &[0x16u8; 36]);
}

#[test]
fn bindgen_test_layout_kvm_irq_routing_irqchip() {
    assert_eq!(core::mem::size_of::<kvm_irq_routing_irqchip>(), 8usize);
    assert_eq!(core::mem::align_of::<kvm_irq_routing_irqchip>(), 4usize);
    let mut v = kvm_irq_routing_irqchip::default();
    v.irqchip = 0x11000000u32;
    v.pin = 0x11000001u32;
    let img = v.to_bytes();
    assert_eq!(img.len(), 8usize);
    assert_eq!(&img[0..4], &0x11000000u32.to_le_bytes());
    assert_eq!(&img[4..8], &0x11000001u32.to_le_bytes());
}

#[test]
fn bindgen_test_layout_kvm_irq_routing_msi() {
    assert_eq!(core::mem::size_of::<kvm_irq_routing_msi>(), 16usize);
    assert_eq!(core::mem::align_of::<kvm_irq_routing_msi>(), 4usize);
    let mut v = kvm_irq_routing_msi::default();
    v.address_lo = 0x11000000u32;
    v.address_hi = 0x11000001u32;
    v.data = 0x11000002u32;
    v.__bindgen_anon_1.set_devid(0x11000003u32);
    let img = v.to_bytes();
    assert_eq!(img.len(), 16usize);
    assert_eq!(&img[0..4], &0x11000000u32.to_le_bytes());
    assert_eq!(&img[4..8], &0x11000001u32.to_le_bytes());
    assert_eq!(&img[8..12], &0x11000002u32.to_le_bytes());
    assert_eq!(&img[12..16], &0x11000003u32.to_le_bytes());
}

#[test]
fn bindgen_test_layout_kvm_irq_routing_s390_adapter() {
    assert_eq!(core::mem::size_of::<kvm_irq_routing_s390_adapter>(), 32usize);
    assert_eq!(core::mem::align_of::<kvm_irq_routing_s390_adapter>(), 8usize);
    let mut v = kvm_irq_routing_s390_adapter::default();
    v.ind_addr = 0x1100000000000000u64;
    v.summary_addr = 0x1100000000000001u64;
    v.ind_offset = 0x1100000000000002u64;
    v.summary_offset = 0x11000003u32;
    v.adapter_id = 0x11000004u32;
    let img = v.to_bytes();
    assert_eq!(img.len(), 32usize);
    assert_eq!(&img[0..8], &0x1100000000000000u64.to_le_bytes());
    assert_eq!(&img[8..16], &0x1100000000000001u64.to_le_bytes());
    assert_eq!(&img[16..24], &0x1100000000000002u64.to_le_bytes());
    assert_eq!(&img[24..28], &0x11000003u32.to_le_bytes());
    assert_eq!(&img[28..32], &0x11000004u32.to_le_bytes());
}

#[test]
fn bindgen_test_layout_kvm_irq_routing_hv_sint() {
    assert_eq!(core::mem::size_of::<kvm_irq_routing_hv_sint>(), 8usize);
    assert_eq!(core::mem::align_of::<kvm_irq_routing_hv_sint>(), 4usize);
    let mut v = kvm_irq_routing_hv_sint::default();
    v.vcpu = 0x11000000u32;
    v.sint = 0x11000001u32;
    let img = v.to_bytes();
    assert_eq!(img.len(), 8usize);
    assert_eq!(&img[0..4], &0x11000000u32.to_le_bytes());
    assert_eq!(&img[4..8], &0x11000001u32.to_le_bytes());
}

#[test]
fn bindgen_test_layout_kvm_irq_routing_entry() {
    assert_eq!(core::mem::size_of::<kvm_irq_routing_entry>(), 48usize);
    assert_eq!(core::mem::align_of::<kvm_irq_routing_entry>(), 8usize);
    let mut v = kvm_irq_routing_entry::default();
    v.gsi = 0x11000000u32;
    v.type_ = 0x11000001u32;
    v.flags = 0x11000002u32;
    v.pad = 0x11000003u32;
    let mut chip = kvm_irq_routing_irqchip::default();
    chip.irqchip = 0x11000004u32;
    chip.pin = 0x11000005u32;
    v.u.set_irqchip(chip);
    let img = v.to_bytes();
    assert_eq!(img.len(), 48usize);
    assert_eq!(&img[0..4], &0x11000000u32.to_le_bytes());
    assert_eq!(&img[4..8], &0x11000001u32.to_le_bytes());
    assert_eq!(&img[8..12], &0x11000002u32.to_le_bytes());
    assert_eq!(&img[12..16], &0x11000003u32.to_le_bytes());
    assert_eq!(&img[16..20], &0x11000004u32.to_le_bytes());
    assert_eq!(&img[20..24], &0x11000005u32.to_le_bytes());
}

#[test]
fn bindgen_test_layout_kvm_irq_routing() {
    assert_eq!(core::mem::size_of::<kvm_irq_routing>(), 8usize);
    assert_eq!(core::mem::align_of::<kvm_irq_routing>(), 8usize);
    let mut v = kvm_irq_routing::default();
    v.nr = 0x11000000u32;
    v.flags = 0x11000001u32;
    let img = v.to_bytes();
    assert_eq!(img.len(), 8usize);
    assert_eq!(&img[0..4], &0x11000000u32.to_le_bytes());
    assert_eq!(&img[4..8], &0x11000001u32.to_le_bytes());
    assert_eq!(img.len(), 8usize);
}

#[test]
fn bindgen_test_layout_kvm_enable_cap() {
    assert_eq!(core::mem::size_of::<kvm_enable_cap>(), 104usize);
    assert_eq!(core::mem::align_of::<kvm_enable_cap>(), 8usize);
    let mut v = kvm_enable_cap::default();
    v.cap = 0x11000000u32;
    v.flags = 0x11000001u32;
    v.args = [0x1100000000000014u64, 0x1100000000000015u64, 0x1100000000000016u64, 0x1100000000000017u64];
    v.pad = [0x14u8; 64];
    let img = v.to_bytes();
    assert_eq!(img.len(), 104usize);
    assert_eq!(&img[0..4], &0x11000000u32.to_le_bytes());
    assert_eq!(&img[4..8], &0x11000001u32.to_le_bytes());
    assert_eq!(&img[8..16], &0x1100000000000014u64.to_le_bytes());
    assert_eq!(&img[16..24], &0x1100000000000015u64.to_le_bytes());
    assert_eq!(&img[24..32], &0x1100000000000016u64.to_le_bytes());
    assert_eq!(&img[32..40], &0x1100000000000017u64.to_le_bytes());
    assert_eq!(&img[40..104], &[0x14u8; 64]);
}

#[test]
fn bindgen_test_layout_kvm_ioapic_state__bindgen_ty_1__bindgen_ty_1() {
    assert_eq!(core::mem::size_of::<kvm_ioapic_state__bindgen_ty_1__bindgen_ty_1>(), 8usize);
    assert_eq!(core::mem::align_of::<kvm_ioapic_state__bindgen_ty_1__bindgen_ty_1>(), 1usize);
    let mut v = kvm_ioapic_state__bindgen_ty_1__bindgen_ty_1::default();
    v.vector = 0xa1u8;
    v.reserved = [0xb1u8, 0xb2u8, 0xb3u8, 0xb4u8];
    v.dest_id = 0xc7u8;
    v._bitfield_1 = __BindgenBitfieldUnit::new([0x12u8, 0x34u8]);
    let img = v.to_bytes();
    assert_eq!(img.len(), 8usize);
    assert_eq!(img[0], 0xa1u8);
    assert_eq!(&img[1..3], &[0x12u8, 0x34u8]);
    assert_eq!(&img[3..7], &[0xb1u8, 0xb2u8, 0xb3u8, 0xb4u8]);
    assert_eq!(img[7], 0xc7u8);
}

#[test]
fn bindgen_test_layout_kvm_ioapic_state__bindgen_ty_1() {
    assert_eq!(core::mem::size_of::<kvm_ioapic_state__bindgen_ty_1>(), 8usize);
    assert_eq!(core::mem::align_of::<kvm_ioapic_state__bindgen_ty_1>(), 8usize);
    // both interpretations start at the union's first byte
    let mut u = kvm_ioapic_state__bindgen_ty_1::default();
    u.set_bits(0x0807060504030201u64);
    assert_eq!(u.to_bytes(), vec![1u8, 2, 3, 4, 5, 6, 7, 8]);
    assert_eq!(u.bits(), 0x0807060504030201u64);
    assert_eq!(u.fields().vector, 0x01u8);
    assert_eq!(u.fields().dest_id, 0x08u8);
}

#[test]
fn bindgen_test_layout_kvm_irq_level__bindgen_ty_1() {
    assert_eq!(core::mem::size_of::<kvm_irq_level__bindgen_ty_1>(), 4usize);
    assert_eq!(core::mem::align_of::<kvm_irq_level__bindgen_ty_1>(), 4usize);
    // `irq` and `status` overlay the same four bytes at offset 0
    let mut u = kvm_irq_level__bindgen_ty_1::default();
    u.set_irq(0xdeadbeefu32);
    assert_eq!(u.irq(), 0xdeadbeefu32);
    assert_eq!(u.status(), 0xdeadbeefu32 as i32);
    u.set_status(-1);
    assert_eq!(u.irq(), 0xffffffffu32);
}

#[test]
fn bindgen_test_layout_kvm_irq_level() {
    assert_eq!(core::mem::size_of::<kvm_irq_level>(), 8usize);
    assert_eq!(core::mem::align_of::<kvm_irq_level>(), 4usize);
    let mut v = kvm_irq_level::default();
    v.__bindgen_anon_1.set_irq(0x11000011u32);
    v.level = 0x22000022u32;
    let img = v.to_bytes();
    assert_eq!(img.len(), 8usize);
    assert_eq!(&img[0..4], &0x11000011u32.to_le_bytes());
    assert_eq!(&img[4..8], &0x22000022u32.to_le_bytes());
}

#[test]
fn bindgen_test_layout_kvm_irq_routing_msi__bindgen_ty_1() {
    assert_eq!(core::mem::size_of::<kvm_irq_routing_msi__bindgen_ty_1>(), 4usize);
    assert_eq!(core::mem::align_of::<kvm_irq_routing_msi__bindgen_ty_1>(), 4usize);
    // `pad` and `devid` overlay the same four bytes at offset 0
    let mut u = kvm_irq_routing_msi__bindgen_ty_1::default();
    u.set_devid(0x01020304u32);
    assert_eq!(u.pad(), 0x01020304u32);
    assert_eq!(u.devid(), 0x01020304u32);
}

#[test]
fn bindgen_test_layout_kvm_irq_routing_entry__bindgen_ty_1() {
    assert_eq!(core::mem::size_of::<kvm_irq_routing_entry__bindgen_ty_1>(), 32usize);
    assert_eq!(core::mem::align_of::<kvm_irq_routing_entry__bindgen_ty_1>(), 8usize);
    // every variant starts at the union's first byte
    let mut u = kvm_irq_routing_entry__bindgen_ty_1::default();
    let mut m = kvm_irq_routing_msi::default();
    m.address_lo = 0xfee00000u32;
    m.address_hi = 0x1u32;
    m.data = 0x4021u32;
    u.set_msi(m);
    assert_eq!(u.msi().address_lo, 0xfee00000u32);
    assert_eq!(u.irqchip().irqchip, 0xfee00000u32);
    let img = u.to_bytes();
    assert_eq!(&img[0..4], &0xfee00000u32.to_le_bytes());
    assert_eq!(&img[16..32], &[0u8; 16]);
}

#[test]
fn bitfield_unit_layout() {
    assert_eq!(core::mem::size_of::<__BindgenBitfieldUnit<2>>(), 2usize);
    assert_eq!(core::mem::align_of::<__BindgenBitfieldUnit<2>>(), 1usize);
}

#[test]
fn bindgen_test_layout_kvm_pit_channel_state() {
    assert_eq!(core::mem::size_of::<kvm_pit_channel_state>(), 24usize);
    assert_eq!(core::mem::align_of::<kvm_pit_channel_state>(), 8usize);
    let mut v = kvm_pit_channel_state::default();
    v.count = 0x11000000u32;
    v.latched_count = 0x1101u16;
    v.count_latched = 0x13u8;
    v.status_latched = 0x14u8;
    v.status = 0x15u8;
    v.read_state = 0x16u8;
    v.write_state = 0x17u8;
    v.write_latch = 0x18u8;
    v.rw_mode = 0x19u8;
    v.mode = 0x1au8;
    v.bcd = 0x1bu8;
    v.gate = 0x1cu8;
    v.count_load_time = -1012i64;
    let img = v.to_bytes();
    assert_eq!(img.len(), 24usize);
    assert_eq!(&img[0..4], &0x11000000u32.to_le_bytes());
    assert_eq!(&img[4..6], &0x1101u16.to_le_bytes());
    assert_eq!(img[6], 0x13u8);
    assert_eq!(img[7], 0x14u8);
    assert_eq!(img[8], 0x15u8);
    assert_eq!(img[9], 0x16u8);
    assert_eq!(img[10], 0x17u8);
    assert_eq!(img[11], 0x18u8);
    assert_eq!(img[12], 0x19u8);
    assert_eq!(img[13], 0x1au8);
    assert_eq!(img[14], 0x1bu8);
    assert_eq!(img[15], 0x1cu8);
    assert_eq!(&img[16..24], &(-1012i64).to_le_bytes());
}

#[test]
fn bindgen_test_layout_kvm_pit_state2() {
    assert_eq!(core::mem::size_of::<kvm_pit_state2>(), 112usize);
    assert_eq!(core::mem::align_of::<kvm_pit_state2>(), 8usize);
    let mut v = kvm_pit_state2::default();
    v.channels[0].count = 0x11000000u32;
    v.channels[2].count = 0x11000001u32;
    v.flags = 0x11000001u32;
    v.reserved = [0x11000014u32, 0x11000015u32, 0x11000016u32, 0x11000017u32, 0x11000018u32, 0x11000019u32, 0x1100001au32, 0x1100001bu32, 0x1100001cu32];
    let img = v.to_bytes();
    assert_eq!(img.len(), 112usize);
    assert_eq!(&img[0..4], &0x11000000u32.to_le_bytes());
    assert_eq!(&img[48..52], &0x11000001u32.to_le_bytes());
    assert_eq!(&img[72..76], &0x11000001u32.to_le_bytes());
    assert_eq!(&img[76..80], &0x11000014u32.to_le_bytes());
    assert_eq!(&img[80..84], &0x11000015u32.to_le_bytes());
    assert_eq!(&img[84..88], &0x11000016u32.to_le_bytes());
    assert_eq!(&img[88..92], &0x11000017u32.to_le_bytes());
    assert_eq!(&img[92..96], &0x11000018u32.to_le_bytes());
    assert_eq!(&img[96..100], &0x11000019u32.to_le_bytes());
    assert_eq!(&img[100..104], &0x1100001au32.to_le_bytes());
    assert_eq!(&img[104..108], &0x1100001bu32.to_le_bytes());
    assert_eq!(&img[108..112], &0x1100001cu32.to_le_bytes());
}

#[test]
fn bindgen_test_layout_kvm_vcpu_events__bindgen_ty_1() {
    assert_eq!(core::mem::size_of::<kvm_vcpu_events__bindgen_ty_1>(), 8usize);
    assert_eq!(core::mem::align_of::<kvm_vcpu_events__bindgen_ty_1>(), 4usize);
    let mut v = kvm_vcpu_events__bindgen_ty_1::default();
    v.injected = 0x11u8;
    v.nr = 0x12u8;
    v.has_error_code = 0x13u8;
    v.pad = 0x14u8;
    v.error_code = 0x11000004u32;
    let img = v.to_bytes();
    assert_eq!(img.len(), 8usize);
    assert_eq!(img[0], 0x11u8);
    assert_eq!(img[1], 0x12u8);
    assert_eq!(img[2], 0x13u8);
    assert_eq!(img[3], 0x14u8);
    assert_eq!(&img[4..8], &0x11000004u32.to_le_bytes());
}

#[test]
fn bindgen_test_layout_kvm_vcpu_events__bindgen_ty_2() {
    assert_eq!(core::mem::size_of::<kvm_vcpu_events__bindgen_ty_2>(), 4usize);
    assert_eq!(core::mem::align_of::<kvm_vcpu_events__bindgen_ty_2>(), 1usize);
    let mut v = kvm_vcpu_events__bindgen_ty_2::default();
    v.injected = 0x11u8;
    v.nr = 0x12u8;
    v.soft = 0x13u8;
    v.shadow = 0x14u8;
    let img = v.to_bytes();
    assert_eq!(img.len(), 4usize);
    assert_eq!(img[0], 0x11u8);
    assert_eq!(img[1], 0x12u8);
    assert_eq!(img[2], 0x13u8);
    assert_eq!(img[3], 0x14u8);
}

#[test]
fn bindgen_test_layout_kvm_vcpu_events__bindgen_ty_3() {
    assert_eq!(core::mem::size_of::<kvm_vcpu_events__bindgen_ty_3>(), 4usize);
    assert_eq!(core::mem::align_of::<kvm_vcpu_events__bindgen_ty_3>(), 1usize);
    let mut v = kvm_vcpu_events__bindgen_ty_3::default();
    v.injected = 0x11u8;
    v.pending = 0x12u8;
    v.masked = 0x13u8;
    v.pad = 0x14u8;
    let img = v.to_bytes();
    assert_eq!(img.len(), 4usize);
    assert_eq!(img[0], 0x11u8);
    assert_eq!(img[1], 0x12u8);
    assert_eq!(img[2], 0x13u8);
    assert_eq!(img[3], 0x14u8);
}

#[test]
fn bindgen_test_layout_kvm_vcpu_events__bindgen_ty_4() {
    assert_eq!(core::mem::size_of::<kvm_vcpu_events__bindgen_ty_4>(), 4usize);
    assert_eq!(core::mem::align_of::<kvm_vcpu_events__bindgen_ty_4>(), 1usize);
    let mut v = kvm_vcpu_events__bindgen_ty_4::default();
    v.smm = 0x11u8;
    v.pending = 0x12u8;
    v.smm_inside_nmi = 0x13u8;
    v.latched_init = 0x14u8;
    let img = v.to_bytes();
    assert_eq!(img.len(), 4usize);
    assert_eq!(img[0], 0x11u8);
    assert_eq!(img[1], 0x12u8);
    assert_eq!(img[2], 0x13u8);
    assert_eq!(img[3], 0x14u8);
}

#[test]
fn bindgen_test_layout_kvm_vcpu_events() {
    assert_eq!(core::mem::size_of::<kvm_vcpu_events>(), 64usize);
    assert_eq!(core::mem::align_of::<kvm_vcpu_events>(), 4usize);
    let mut v = kvm_vcpu_events::default();
    v.exception.injected = 0x11u8;
    v.interrupt.injected = 0x12u8;
    v.nmi.injected = 0x13u8;
    v.sipi_vector = 0x11000003u32;
    v.flags = 0x11000004u32;
    v.smi.smm = 0x16u8;
    v.reserved = [0x1100003cu32, 0x1100003du32, 0x1100003eu32, 0x1100003fu32, 0x11000040u32, 0x11000041u32, 0x11000042u32, 0x11000043u32, 0x11000044u32];
    let img = v.to_bytes();
    assert_eq!(img.len(), 64usize);
    assert_eq!(img[0], 0x11u8);
    assert_eq!(img[8], 0x12u8);
    assert_eq!(img[12], 0x13u8);
    assert_eq!(&img[16..20], &0x11000003u32.to_le_bytes());
    assert_eq!(&img[20..24], &0x11000004u32.to_le_bytes());
    assert_eq!(img[24], 0x16u8);
    assert_eq!(&img[28..32], &0x1100003cu32.to_le_bytes());
    assert_eq!(&img[32..36], &0x1100003du32.to_le_bytes());
    assert_eq!(&img[36..40], &0x1100003eu32.to_le_bytes());
    assert_eq!(&img[40..44], &0x1100003fu32.to_le_bytes());
    assert_eq!(&img[44..48], &0x11000040u32.to_le_bytes());
    assert_eq!(&img[48..52], &0x11000041u32.to_le_bytes());
    assert_eq!(&img[52..56], &0x11000042u32.to_le_bytes());
    assert_eq!(&img[56..60], &0x11000043u32.to_le_bytes());
    assert_eq!(&img[60..64], &0x11000044u32.to_le_bytes());
}

#[test]
fn bindgen_test_layout_kvm_debugregs() {
    assert_eq!(core::mem::size_of::<kvm_debugregs>(), 128usize);
    assert_eq!(core::mem::align_of::<kvm_debugregs>(), 8usize);
    let mut v = kvm_debugregs::default();
    v.db = [0x1100000000000000u64, 0x1100000000000001u64, 0x1100000000000002u64, 0x1100000000000003u64];
    v.dr6 = 0x1100000000000001u64;
    v.dr7 = 0x1100000000000002u64;
    v.flags = 0x1100000000000003u64;
    v.reserved = [0x1100000000000028u64, 0x1100000000000029u64, 0x110000000000002au64, 0x110000000000002bu64, 0x110000000000002cu64, 0x110000000000002du64, 0x110000000000002eu64, 0x110000000000002fu64, 0x1100000000000030u64];
    let img = v.to_bytes();
    assert_eq!(img.len(), 128usize);
    assert_eq!(&img[0..8], &0x1100000000000000u64.to_le_bytes());
    assert_eq!(&img[8..16], &0x1100000000000001u64.to_le_bytes());
    assert_eq!(&img[16..24], &0x1100000000000002u64.to_le_bytes());
    assert_eq!(&img[24..32], &0x1100000000000003u64.to_le_bytes());
    assert_eq!(&img[32..40], &0x1100000000000001u64.to_le_bytes());
    assert_eq!(&img[40..48], &0x1100000000000002u64.to_le_bytes());
    assert_eq!(&img[48..56], &0x1100000000000003u64.to_le_bytes());
    assert_eq!(&img[56..64], &0x1100000000000028u64.to_le_bytes());
    assert_eq!(&img[64..72], &0x1100000000000029u64.to_le_bytes());
    assert_eq!(&img[72..80], &0x110000000000002au64.to_le_bytes());
    assert_eq!(&img[80..88], &0x110000000000002bu64.to_le_bytes());
    assert_eq!(&img[88..96], &0x110000000000002cu64.to_le_bytes());
    assert_eq!(&img[96..104], &0x110000000000002du64.to_le_bytes());
    assert_eq!(&img[104..112], &0x110000000000002eu64.to_le_bytes());
    assert_eq!(&img[112..120], &0x110000000000002fu64.to_le_bytes());
    assert_eq!(&img[120..128], &0x1100000000000030u64.to_le_bytes());
}

#[test]
fn bindgen_test_layout_kvm_xcr() {
    assert_eq!(core::mem::size_of::<kvm_xcr>(), 16usize);
    assert_eq!(core::mem::align_of::<kvm_xcr>(), 8usize);
    let mut v = kvm_xcr::default();
    v.xcr = 0x11000000u32;
    v.reserved = 0x11000001u32;
    v.value = 0x1100000000000002u64;
    let img = v.to_bytes();
    assert_eq!(img.len(), 16usize);
    assert_eq!(&img[0..4], &0x11000000u32.to_le_bytes());
    assert_eq!(&img[4..8], &0x11000001u32.to_le_bytes());
    assert_eq!(&img[8..16], &0x1100000000000002u64.to_le_bytes());
}

#[test]
fn bindgen_test_layout_kvm_xcrs() {
    assert_eq!(core::mem::size_of::<kvm_xcrs>(), 392usize);
    assert_eq!(core::mem::align_of::<kvm_xcrs>(), 8usize);
    let mut v = kvm_xcrs::default();
    v.nr_xcrs = 0x11000000u32;
    v.flags = 0x11000001u32;
    v.xcrs[0].xcr = 0x11000002u32;
    v.xcrs[15].value = 0x1100000000000002u64;
    v.padding = [0x110000000000001eu64, 0x110000000000001fu64, 0x1100000000000020u64, 0x1100000000000021u64, 0x1100000000000022u64, 0x1100000000000023u64, 0x1100000000000024u64, 0x1100000000000025u64, 0x1100000000000026u64, 0x1100000000000027u64, 0x1100000000000028u64, 0x1100000000000029u64, 0x110000000000002au64, 0x110000000000002bu64, 0x110000000000002cu64, 0x110000000000002du64];
    let img = v.to_bytes();
    assert_eq!(img.len(), 392usize);
    assert_eq!(&img[0..4], &0x11000000u32.to_le_bytes());
    assert_eq!(&img[4..8], &0x11000001u32.to_le_bytes());
    assert_eq!(&img[8..12], &0x11000002u32.to_le_bytes());
    assert_eq!(&img[256..264], &0x1100000000000002u64.to_le_bytes());
    assert_eq!(&img[264..272], &0x110000000000001eu64.to_le_bytes());
    assert_eq!(&img[272..280], &0x110000000000001fu64.to_le_bytes());
    assert_eq!(&img[280..288], &0x1100000000000020u64.to_le_bytes());
    assert_eq!(&img[288..296], &0x1100000000000021u64.to_le_bytes());
    assert_eq!(&img[296..304], &0x1100000000000022u64.to_le_bytes());
    assert_eq!(&img[304..312], &0x1100000000000023u64.to_le_bytes());
    assert_eq!(&img[312..320], &0x1100000000000024u64.to_le_bytes());
    assert_eq!(&img[320..328], &0x1100000000000025u64.to_le_bytes());
    assert_eq!(&img[328..336], &0x1100000000000026u64.to_le_bytes());
    assert_eq!(&img[336..344], &0x1100000000000027u64.to_le_bytes());
    assert_eq!(&img[344..352], &0x1100000000000028u64.to_le_bytes());
    assert_eq!(&img[352..360], &0x1100000000000029u64.to_le_bytes());
    assert_eq!(&img[360..368], &0x110000000000002au64.to_le_bytes());
    assert_eq!(&img[368..376], &0x110000000000002bu64.to_le_bytes());
    assert_eq!(&img[376..384], &0x110000000000002cu64.to_le_bytes());
    assert_eq!(&img[384..392], &0x110000000000002du64.to_le_bytes());
}

#[test]
fn bindgen_test_layout_kvm_mp_state() {
    assert_eq!(core::mem::size_of::<kvm_mp_state>(), 4usize);
    assert_eq!(core::mem::align_of::<kvm_mp_state>(), 4usize);
    let mut v = kvm_mp_state::default();
    v.mp_state = 0x11000000u32;
    let img = v.to_bytes();
    assert_eq!(img.len(), 4usize);
    assert_eq!(&img[0..4], &0x11000000u32.to_le_bytes());
}

#[test]
fn bindgen_test_layout_kvm_clock_data() {
    assert_eq!(core::mem::size_of::<kvm_clock_data>(), 48usize);
    assert_eq!(core::mem::align_of::<kvm_clock_data>(), 8usize);
    let mut v = kvm_clock_data::default();
    v.clock = 0x1100000000000000u64;
    v.flags = 0x11000001u32;
    v.pad = [0x11000014u32, 0x11000015u32, 0x11000016u32, 0x11000017u32, 0x11000018u32, 0x11000019u32, 0x1100001au32, 0x1100001bu32, 0x1100001cu32];
    let img = v.to_bytes();
    assert_eq!(img.len(), 48usize);
    assert_eq!(&img[0..8], &0x1100000000000000u64.to_le_bytes());
    assert_eq!(&img[8..12], &0x11000001u32.to_le_bytes());
    assert_eq!(&img[12..16], &0x11000014u32.to_le_bytes());
    assert_eq!(&img[16..20], &0x11000015u32.to_le_bytes());
    assert_eq!(&img[20..24], &0x11000016u32.to_le_bytes());
    assert_eq!(&img[24..28], &0x11000017u32.to_le_bytes());
    assert_eq!(&img[28..32], &0x11000018u32.to_le_bytes());
    assert_eq!(&img[32..36], &0x11000019u32.to_le_bytes());
    assert_eq!(&img[36..40], &0x1100001au32.to_le_bytes());
    assert_eq!(&img[40..44], &0x1100001bu32.to_le_bytes());
    assert_eq!(&img[44..48], &0x1100001cu32.to_le_bytes());
}

#[test]
fn bindgen_test_layout_kvm_userspace_memory_region() {
    assert_eq!(core::mem::size_of::<kvm_userspace_memory_region>(), 32usize);
    assert_eq!(core::mem::align_of::<kvm_userspace_memory_region>(), 8usize);
    let mut v = kvm_userspace_memory_region::default();
    v.slot = 0x11000000u32;
    v.flags = 0x11000001u32;
    v.guest_phys_addr = 0x1100000000000002u64;
    v.memory_size = 0x1100000000000003u64;
    v.userspace_addr = 0x1100000000000004u64;
    let img = v.to_bytes();
    assert_eq!(img.len(), 32usize);
    assert_eq!(&img[0..4], &0x11000000u32.to_le_bytes());
    assert_eq!(&img[4..8], &0x11000001u32.to_le_bytes());
    assert_eq!(&img[8..16], &0x1100000000000002u64.to_le_bytes());
    assert_eq!(&img[16..24], &0x1100000000000003u64.to_le_bytes());
    assert_eq!(&img[24..32], &0x1100000000000004u64.to_le_bytes());
}

