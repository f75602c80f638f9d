//! Byte-image codec behavior: round trips, zero images, short buffers.

use kvm_bindings::CodecError;
use kvm_bindings::KVM_CPUID2_SIZE;
use kvm_bindings::KVM_CPUID_ENTRY2_SIZE;
use kvm_bindings::KVM_CPUID_ENTRY_SIZE;
use kvm_bindings::KVM_DTABLE_SIZE;
use kvm_bindings::KVM_ENABLE_CAP_SIZE;
use kvm_bindings::KVM_IOAPIC_STATE_SIZE;
use kvm_bindings::KVM_IOEVENTFD_SIZE;
use kvm_bindings::KVM_IRQ_LEVEL_SIZE;
use kvm_bindings::KVM_IRQ_ROUTING_ENTRY_SIZE;
use kvm_bindings::KVM_MSRS_SIZE;
use kvm_bindings::KVM_MSR_ENTRY_SIZE;
use kvm_bindings::KVM_PIC_STATE_SIZE;
use kvm_bindings::KVM_REGS_SIZE;
use kvm_bindings::KVM_SEGMENT_SIZE;
use kvm_bindings::KVM_SREGS_SIZE;
use kvm_bindings::__IncompleteArrayField;
use kvm_bindings::kvm_cpuid2;
use kvm_bindings::kvm_cpuid_entry;
use kvm_bindings::kvm_cpuid_entry2;
use kvm_bindings::kvm_dtable;
use kvm_bindings::kvm_enable_cap;
use kvm_bindings::kvm_ioapic_state;
use kvm_bindings::kvm_ioapic_state__bindgen_ty_1;
use kvm_bindings::kvm_ioapic_state__bindgen_ty_1__bindgen_ty_1;
use kvm_bindings::kvm_ioeventfd;
use kvm_bindings::kvm_irq_level;
use kvm_bindings::kvm_irq_routing;
use kvm_bindings::kvm_irq_routing_entry;
use kvm_bindings::kvm_irq_routing_entry__bindgen_ty_1;
use kvm_bindings::kvm_irq_routing_hv_sint;
use kvm_bindings::kvm_irq_routing_irqchip;
use kvm_bindings::kvm_irq_routing_s390_adapter;
use kvm_bindings::kvm_msr_entry;
use kvm_bindings::kvm_msr_list;
use kvm_bindings::kvm_msrs;
use kvm_bindings::kvm_pic_state;
use kvm_bindings::kvm_regs;
use kvm_bindings::kvm_segment;
use kvm_bindings::kvm_sregs;
use kvm_bindings::kvm_sync_regs;
use kvm_bindings::KVM_CLOCK_DATA_SIZE;
use kvm_bindings::KVM_DEBUGREGS_SIZE;
use kvm_bindings::KVM_MP_STATE_SIZE;
use kvm_bindings::KVM_PIT_CHANNEL_STATE_SIZE;
use kvm_bindings::KVM_PIT_STATE2_SIZE;
use kvm_bindings::KVM_USERSPACE_MEMORY_REGION_SIZE;
use kvm_bindings::KVM_VCPU_EVENTS_SIZE;
use kvm_bindings::KVM_XCRS_SIZE;
use kvm_bindings::kvm_clock_data;
use kvm_bindings::kvm_debugregs;
use kvm_bindings::kvm_mp_state;
use kvm_bindings::kvm_pit_channel_state;
use kvm_bindings::kvm_pit_state2;
use kvm_bindings::kvm_userspace_memory_region;
use kvm_bindings::kvm_vcpu_events;
use kvm_bindings::kvm_xcrs;


#[test]
fn kvm_regs_image_roundtrip() {
    let mut x = kvm_regs::default();
    x.rax = 1;
    x.rbx = 0xdead_beef;
    x.rsp = 0x7fff_ffff_e000;
    x.rip = 0x40_1000;
    x.rflags = 0x202;
    let img = x.to_bytes();
    assert_eq!(img.len(), KVM_REGS_SIZE);
    let y = kvm_regs::from_bytes(&img).unwrap();
    assert_eq!(x, y);
}

#[test]
fn kvm_regs_incomplete_buffer() {
    let img = kvm_regs::default().to_bytes();
    assert_eq!(
        kvm_regs::from_bytes(&img[..KVM_REGS_SIZE - 1]),
        Err(CodecError::IncompleteBuffer)
    );
    assert_eq!(kvm_regs::from_bytes(&[]), Err(CodecError::IncompleteBuffer));
}

#[test]
fn kvm_regs_extra_bytes_ignored() {
    let mut x = kvm_regs::default();
    x.rcx = 77;
    let mut img = x.to_bytes();
    img.push(0xaa);
    img.push(0xbb);
    let y = kvm_regs::from_bytes(&img).unwrap();
    assert_eq!(x, y);
}

#[test]
fn kvm_regs_default_is_zero_image() {
    assert_eq!(kvm_regs::default().to_bytes(), vec![0u8; KVM_REGS_SIZE]);
}

#[test]
fn kvm_segment_image_roundtrip() {
    let mut s = kvm_segment::default();
    s.base = 0xffff_8000_0000_0000;
    s.limit = 0xfffff;
    s.selector = 0x10;
    s.type_ = 11;
    s.present = 1;
    s.dpl = 0;
    s.db = 0;
    s.s = 1;
    s.l = 1;
    s.g = 1;
    let img = s.to_bytes();
    assert_eq!(kvm_segment::from_bytes(&img).unwrap(), s);
    assert_eq!(
        kvm_segment::from_bytes(&img[..KVM_SEGMENT_SIZE - 1]),
        Err(CodecError::IncompleteBuffer)
    );
}

#[test]
fn kvm_dtable_image_roundtrip() {
    let mut d = kvm_dtable::default();
    d.base = 0xfee0_0000;
    d.limit = 0x7f;
    let img = d.to_bytes();
    assert_eq!(kvm_dtable::from_bytes(&img).unwrap(), d);
}

#[test]
fn kvm_sregs_image_roundtrip() {
    let mut s = kvm_sregs::default();
    s.cs.base = 0x1000;
    s.cs.selector = 8;
    s.tr.type_ = 11;
    s.gdt.base = 0x5000;
    s.gdt.limit = 0x27;
    s.cr0 = 0x8000_0011;
    s.cr3 = 0x9000;
    s.efer = 0x500;
    s.interrupt_bitmap = [0, 1 << 9, 0, 0];
    let img = s.to_bytes();
    assert_eq!(img.len(), KVM_SREGS_SIZE);
    let t = kvm_sregs::from_bytes(&img).unwrap();
    assert_eq!(s, t);
    assert_eq!(
        kvm_sregs::from_bytes(&img[..KVM_SREGS_SIZE - 1]),
        Err(CodecError::IncompleteBuffer)
    );
}

#[test]
fn kvm_sregs_default_is_zero_image() {
    assert_eq!(kvm_sregs::default().to_bytes(), vec![0u8; KVM_SREGS_SIZE]);
}

#[test]
fn kvm_sync_regs_empty_image() {
    let x = kvm_sync_regs::default();
    assert_eq!(x.to_bytes(), Vec::<u8>::new());
    assert_eq!(kvm_sync_regs::from_bytes(&[]).unwrap(), x);
}

#[test]
fn kvm_pic_state_image_roundtrip() {
    let mut p = kvm_pic_state::default();
    p.irr = 0x55;
    p.imr = 0xaa;
    p.irq_base = 0x20;
    p.elcr_mask = 0xde;
    let img = p.to_bytes();
    assert_eq!(kvm_pic_state::from_bytes(&img).unwrap(), p);
    assert_eq!(
        kvm_pic_state::from_bytes(&img[..KVM_PIC_STATE_SIZE - 1]),
        Err(CodecError::IncompleteBuffer)
    );
}

#[test]
fn kvm_ioapic_state_image_roundtrip() {
    let mut s = kvm_ioapic_state::default();
    s.base_address = 0xfec0_0000;
    s.ioregsel = 0x10;
    s.id = 2;
    s.irr = 0x8001;
    let mut f = kvm_ioapic_state__bindgen_ty_1__bindgen_ty_1::default();
    f.vector = 0x31;
    f.set_delivery_mode(1);
    f.set_mask(1);
    f.dest_id = 3;
    s.redirtbl[5].set_fields(f);
    s.redirtbl[23].set_bits(0xffff_0000_0000_00ff);
    let img = s.to_bytes();
    assert_eq!(img.len(), KVM_IOAPIC_STATE_SIZE);
    let t = kvm_ioapic_state::from_bytes(&img).unwrap();
    assert_eq!(s, t);
    assert_eq!(t.redirtbl[5].fields().vector, 0x31);
    assert_eq!(t.redirtbl[5].fields().mask(), 1);
    assert_eq!(
        kvm_ioapic_state::from_bytes(&img[..KVM_IOAPIC_STATE_SIZE - 1]),
        Err(CodecError::IncompleteBuffer)
    );
}

#[test]
fn ioapic_union_last_write_wins() {
    let mut u = kvm_ioapic_state__bindgen_ty_1::default();
    u.set_bits(u64::MAX);
    let mut f = kvm_ioapic_state__bindgen_ty_1__bindgen_ty_1::default();
    f.vector = 0x7e;
    u.set_fields(f);
    // the fields write replaced every byte of the earlier bits write
    assert_eq!(u.bits(), 0x7e);
    assert_eq!(u.fields().vector, 0x7e);
    assert_eq!(u.fields().reserve(), 0);
}

#[test]
fn kvm_irq_level_image_roundtrip() {
    let mut v = kvm_irq_level::default();
    v.__bindgen_anon_1.set_irq(9);
    v.level = 1;
    let img = v.to_bytes();
    let w = kvm_irq_level::from_bytes(&img).unwrap();
    assert_eq!(v, w);
    assert_eq!(w.__bindgen_anon_1.irq(), 9);
    assert_eq!(
        kvm_irq_level::from_bytes(&img[..KVM_IRQ_LEVEL_SIZE - 1]),
        Err(CodecError::IncompleteBuffer)
    );
}

#[test]
fn kvm_msr_entry_image_roundtrip() {
    let mut e = kvm_msr_entry::default();
    e.index = 0xc000_0080;
    e.data = 0xd01;
    let img = e.to_bytes();
    assert_eq!(kvm_msr_entry::from_bytes(&img).unwrap(), e);
}

#[test]
fn kvm_msrs_header_roundtrip() {
    let mut m = kvm_msrs::default();
    m.nmsrs = 3;
    let img = m.to_bytes();
    assert_eq!(img.len(), KVM_MSRS_SIZE);
    let n = kvm_msrs::from_bytes(&img).unwrap();
    assert_eq!(n.nmsrs, 3);
    assert_eq!(n.pad, 0);
    assert!(matches!(
        kvm_msrs::from_bytes(&img[..KVM_MSRS_SIZE - 1]),
        Err(CodecError::IncompleteBuffer)
    ));
}

#[test]
fn kvm_msr_list_header_roundtrip() {
    let mut l = kvm_msr_list::default();
    l.nmsrs = 7;
    let img = l.to_bytes();
    assert_eq!(kvm_msr_list::from_bytes(&img).unwrap().nmsrs, 7);
}

#[test]
fn kvm_cpuid_entry2_image_roundtrip() {
    let mut e = kvm_cpuid_entry2::default();
    e.function = 0x8000_0001;
    e.index = 1;
    e.flags = 2;
    e.eax = 0x11;
    e.ebx = 0x22;
    e.ecx = 0x33;
    e.edx = 0x44;
    let img = e.to_bytes();
    assert_eq!(img.len(), KVM_CPUID_ENTRY2_SIZE);
    assert_eq!(kvm_cpuid_entry2::from_bytes(&img).unwrap(), e);
    assert_eq!(
        kvm_cpuid_entry2::from_bytes(&img[..KVM_CPUID_ENTRY2_SIZE - 1]),
        Err(CodecError::IncompleteBuffer)
    );
}

#[test]
fn kvm_cpuid2_header_roundtrip() {
    let mut c = kvm_cpuid2::default();
    c.nent = 4;
    let img = c.to_bytes();
    let d = kvm_cpuid2::from_bytes(&img).unwrap();
    assert_eq!(d.nent, 4);
    assert_eq!(d.padding, 0);
}

#[test]
fn kvm_ioeventfd_image_roundtrip() {
    let mut e = kvm_ioeventfd::default();
    e.datamatch = 0xcafe;
    e.addr = 0x3f8;
    e.len = 4;
    e.fd = -1;
    e.flags = 5;
    let img = e.to_bytes();
    assert_eq!(img.len(), KVM_IOEVENTFD_SIZE);
    assert_eq!(kvm_ioeventfd::from_bytes(&img).unwrap(), e);
    // the signed descriptor is stored in two's complement
    assert_eq!(&img[20..24], &[0xff, 0xff, 0xff, 0xff]);
    assert_eq!(
        kvm_ioeventfd::from_bytes(&img[..KVM_IOEVENTFD_SIZE - 1]),
        Err(CodecError::IncompleteBuffer)
    );
}

#[test]
fn kvm_irq_routing_entry_image_roundtrip() {
    let mut e = kvm_irq_routing_entry::default();
    e.gsi = 5;
    e.type_ = 1;
    let mut chip = kvm_irq_routing_irqchip::default();
    chip.irqchip = 2;
    chip.pin = 11;
    e.u.set_irqchip(chip);
    let img = e.to_bytes();
    assert_eq!(img.len(), KVM_IRQ_ROUTING_ENTRY_SIZE);
    let f = kvm_irq_routing_entry::from_bytes(&img).unwrap();
    assert_eq!(e, f);
    assert_eq!(f.u.irqchip().pin, 11);
    assert_eq!(
        kvm_irq_routing_entry::from_bytes(&img[..KVM_IRQ_ROUTING_ENTRY_SIZE - 1]),
        Err(CodecError::IncompleteBuffer)
    );
}

#[test]
fn routing_payload_short_write_keeps_tail() {
    let mut u = kvm_irq_routing_entry__bindgen_ty_1::default();
    let mut a = kvm_irq_routing_s390_adapter::default();
    a.ind_addr = u64::MAX;
    a.summary_addr = u64::MAX;
    a.ind_offset = u64::MAX;
    a.summary_offset = u32::MAX;
    a.adapter_id = u32::MAX;
    u.set_adapter(a);
    let mut sint = kvm_irq_routing_hv_sint::default();
    sint.vcpu = 1;
    sint.sint = 2;
    u.set_hv_sint(sint);
    // the eight-byte write left the remaining 24 payload bytes as they were
    let img = u.to_bytes();
    assert_eq!(&img[0..4], &1u32.to_le_bytes());
    assert_eq!(&img[4..8], &2u32.to_le_bytes());
    assert_eq!(&img[8..32], &[0xffu8; 24]);
}

#[test]
fn kvm_irq_routing_header_roundtrip() {
    let mut r = kvm_irq_routing::default();
    r.nr = 2;
    r.flags = 0;
    let img = r.to_bytes();
    assert_eq!(kvm_irq_routing::from_bytes(&img).unwrap().nr, 2);
}

#[test]
fn kvm_enable_cap_image_roundtrip() {
    let mut c = kvm_enable_cap::default();
    c.cap = 100;
    c.args = [1, 2, 3, 4];
    let img = c.to_bytes();
    assert_eq!(img.len(), KVM_ENABLE_CAP_SIZE);
    assert_eq!(kvm_enable_cap::from_bytes(&img).unwrap(), c);
}

#[test]
fn read_at_nonzero_offset() {
    let mut a = kvm_msr_entry::default();
    a.index = 1;
    a.data = 10;
    let mut b = kvm_msr_entry::default();
    b.index = 2;
    b.data = 20;
    let mut buf = a.to_bytes();
    buf.extend(b.to_bytes());
    assert_eq!(kvm_msr_entry::read_at(&buf, 0), a);
    assert_eq!(kvm_msr_entry::read_at(&buf, KVM_MSR_ENTRY_SIZE), b);
}

#[test]
fn defaults_are_zero_images() {
    assert_eq!(kvm_segment::default().to_bytes(), vec![0u8; KVM_SEGMENT_SIZE]);
    assert_eq!(kvm_dtable::default().to_bytes(), vec![0u8; KVM_DTABLE_SIZE]);
    assert_eq!(kvm_pic_state::default().to_bytes(), vec![0u8; KVM_PIC_STATE_SIZE]);
    assert_eq!(kvm_ioapic_state::default().to_bytes(), vec![0u8; KVM_IOAPIC_STATE_SIZE]);
    assert_eq!(kvm_irq_level::default().to_bytes(), vec![0u8; KVM_IRQ_LEVEL_SIZE]);
    assert_eq!(kvm_msr_entry::default().to_bytes(), vec![0u8; KVM_MSR_ENTRY_SIZE]);
    assert_eq!(kvm_msrs::default().to_bytes(), vec![0u8; KVM_MSRS_SIZE]);
    assert_eq!(kvm_cpuid_entry::default().to_bytes(), vec![0u8; KVM_CPUID_ENTRY_SIZE]);
    assert_eq!(kvm_cpuid_entry2::default().to_bytes(), vec![0u8; KVM_CPUID_ENTRY2_SIZE]);
    assert_eq!(kvm_cpuid2::default().to_bytes(), vec![0u8; KVM_CPUID2_SIZE]);
    assert_eq!(kvm_ioeventfd::default().to_bytes(), vec![0u8; KVM_IOEVENTFD_SIZE]);
    assert_eq!(
        kvm_irq_routing_entry::default().to_bytes(),
        vec![0u8; KVM_IRQ_ROUTING_ENTRY_SIZE]
    );
    assert_eq!(kvm_enable_cap::default().to_bytes(), vec![0u8; KVM_ENABLE_CAP_SIZE]);
}

#[test]
fn incomplete_array_field_is_empty_marker() {
    let f: __IncompleteArrayField<kvm_msr_entry> = __IncompleteArrayField::new();
    let g = f.clone();
    let h: __IncompleteArrayField<kvm_msr_entry> = Default::default();
    assert_eq!(core::mem::size_of_val(&f), 0);
    assert_eq!(core::mem::size_of_val(&g), 0);
    assert_eq!(core::mem::size_of_val(&h), 0);
    assert_eq!(core::mem::align_of::<__IncompleteArrayField<kvm_msr_entry>>(), 8);
    assert_eq!(core::mem::align_of::<__IncompleteArrayField<u32>>(), 4);
}

#[test]
fn kvm_pit_state2_image_roundtrip() {
    let mut p = kvm_pit_state2::default();
    p.channels[0].count = 0x1234;
    p.channels[0].count_load_time = -42;
    p.channels[2].mode = 3;
    p.flags = 1;
    let img = p.to_bytes();
    assert_eq!(img.len(), KVM_PIT_STATE2_SIZE);
    let q = kvm_pit_state2::from_bytes(&img).unwrap();
    assert_eq!(p, q);
    assert_eq!(q.channels[0].count_load_time, -42);
    assert_eq!(
        kvm_pit_state2::from_bytes(&img[..KVM_PIT_STATE2_SIZE - 1]),
        Err(CodecError::IncompleteBuffer)
    );
}

#[test]
fn kvm_vcpu_events_image_roundtrip() {
    let mut e = kvm_vcpu_events::default();
    e.exception.injected = 1;
    e.exception.nr = 14;
    e.exception.has_error_code = 1;
    e.exception.error_code = 0x7;
    e.interrupt.injected = 1;
    e.interrupt.nr = 32;
    e.nmi.pending = 1;
    e.sipi_vector = 0x9f;
    e.flags = 3;
    e.smi.smm = 1;
    let img = e.to_bytes();
    assert_eq!(img.len(), KVM_VCPU_EVENTS_SIZE);
    assert_eq!(kvm_vcpu_events::from_bytes(&img).unwrap(), e);
    assert_eq!(
        kvm_vcpu_events::from_bytes(&img[..KVM_VCPU_EVENTS_SIZE - 1]),
        Err(CodecError::IncompleteBuffer)
    );
}

#[test]
fn kvm_debugregs_image_roundtrip() {
    let mut d = kvm_debugregs::default();
    d.db = [1, 2, 3, 4];
    d.dr6 = 0xffff_0ff0;
    d.dr7 = 0x400;
    let img = d.to_bytes();
    assert_eq!(kvm_debugregs::from_bytes(&img).unwrap(), d);
}

#[test]
fn kvm_xcrs_image_roundtrip() {
    let mut x = kvm_xcrs::default();
    x.nr_xcrs = 1;
    x.xcrs[0].xcr = 0;
    x.xcrs[0].value = 7;
    let img = x.to_bytes();
    assert_eq!(img.len(), KVM_XCRS_SIZE);
    assert_eq!(kvm_xcrs::from_bytes(&img).unwrap(), x);
}

#[test]
fn kvm_mp_state_image_roundtrip() {
    let mut m = kvm_mp_state::default();
    m.mp_state = 2;
    let img = m.to_bytes();
    assert_eq!(kvm_mp_state::from_bytes(&img).unwrap(), m);
    assert_eq!(kvm_mp_state::from_bytes(&[]), Err(CodecError::IncompleteBuffer));
}

#[test]
fn kvm_clock_data_image_roundtrip() {
    let mut c = kvm_clock_data::default();
    c.clock = 0x1122_3344_5566_7788;
    c.flags = 1;
    let img = c.to_bytes();
    assert_eq!(kvm_clock_data::from_bytes(&img).unwrap(), c);
}

#[test]
fn kvm_userspace_memory_region_image_roundtrip() {
    let mut r = kvm_userspace_memory_region::default();
    r.slot = 3;
    r.guest_phys_addr = 0x1_0000_0000;
    r.memory_size = 0x2000_0000;
    r.userspace_addr = 0x7f00_dead_0000;
    let img = r.to_bytes();
    assert_eq!(img.len(), KVM_USERSPACE_MEMORY_REGION_SIZE);
    assert_eq!(kvm_userspace_memory_region::from_bytes(&img).unwrap(), r);
    assert_eq!(
        kvm_userspace_memory_region::from_bytes(&img[..KVM_USERSPACE_MEMORY_REGION_SIZE - 1]),
        Err(CodecError::IncompleteBuffer)
    );
}

#[test]
fn new_defaults_are_zero_images() {
    assert_eq!(
        kvm_pit_channel_state::default().to_bytes(),
        vec![0u8; KVM_PIT_CHANNEL_STATE_SIZE]
    );
    assert_eq!(kvm_pit_state2::default().to_bytes(), vec![0u8; KVM_PIT_STATE2_SIZE]);
    assert_eq!(kvm_vcpu_events::default().to_bytes(), vec![0u8; KVM_VCPU_EVENTS_SIZE]);
    assert_eq!(kvm_debugregs::default().to_bytes(), vec![0u8; KVM_DEBUGREGS_SIZE]);
    assert_eq!(kvm_xcrs::default().to_bytes(), vec![0u8; KVM_XCRS_SIZE]);
    assert_eq!(kvm_mp_state::default().to_bytes(), vec![0u8; KVM_MP_STATE_SIZE]);
    assert_eq!(kvm_clock_data::default().to_bytes(), vec![0u8; KVM_CLOCK_DATA_SIZE]);
    assert_eq!(
        kvm_userspace_memory_region::default().to_bytes(),
        vec![0u8; KVM_USERSPACE_MEMORY_REGION_SIZE]
    );
}
