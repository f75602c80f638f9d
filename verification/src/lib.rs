//! Data-layout primitives and fixed-layout structures for the KVM ioctl
//! interface on x86.
//!
//! The two building blocks are [`__BindgenBitfieldUnit`], a fixed-size byte
//! buffer exposing reads and writes of arbitrary bit runs, and
//! [`__IncompleteArrayField`], a zero-sized marker standing for a
//! variable-length array that continues past the end of its enclosing
//! structure.  The concrete KVM structures are plain aggregates of fixed-width
//! integers built on top of them; each carries a verified byte-image codec
//! that pins its kernel layout (field offsets, sizes, little-endian order)
//! in its contracts.

#![allow(non_camel_case_types)]

mod bitfield;
mod codec;
mod cpuid;
mod debug;
mod fam;
mod ioeventfd;
mod irqchip;
mod pit;
mod regs;
mod routing;
mod run;
mod vcpu;
mod vm;

pub use bitfield::__BindgenBitfieldUnit;
pub use bitfield::bit_u64;
pub use bitfield::byte_bit;
pub use bitfield::lemma_single_bit_roundtrip;
pub use bitfield::lemma_unit_bytes_injective;
pub use bitfield::lemma_unit_bytes_len;
pub use bitfield::lemma_unit_read_bit;
pub use bitfield::lemma_unit_read_bound;
pub use bitfield::lemma_unit_read_frame;
pub use bitfield::lemma_unit_read_write_roundtrip;
pub use bitfield::low_mask;
pub use bitfield::unit_read;
pub use bitfield::unit_write;
pub use codec::CodecError;
pub use codec::lemma_concat_assoc;
pub use codec::lemma_concat_empty_left;
pub use codec::lemma_concat_empty_right;
pub use codec::lemma_concat_parts;
pub use codec::lemma_i32_le_bytes_of;
pub use codec::lemma_i32_le_roundtrip;
pub use codec::lemma_i64_le_bytes_of;
pub use codec::lemma_i64_le_roundtrip;
pub use codec::lemma_le_bytes_zero;
pub use codec::lemma_seq_parts;
pub use codec::lemma_subrange_subrange;
pub use codec::lemma_u16_le_bytes_of;
pub use codec::lemma_u16_le_roundtrip;
pub use codec::lemma_u32_le_bytes_of;
pub use codec::lemma_u32_le_roundtrip;
pub use codec::lemma_u64_le_bytes_of;
pub use codec::lemma_u64_le_roundtrip;
pub use codec::lemma_zero_bytes_split;
pub use codec::zero_bytes;
pub use cpuid::KVM_CPUID2_SIZE;
pub use cpuid::KVM_CPUID_ENTRY2_SIZE;
pub use cpuid::KVM_CPUID_ENTRY_SIZE;
pub use cpuid::KVM_CPUID_SIZE;
pub use cpuid::KVM_MSRS_SIZE;
pub use cpuid::KVM_MSR_ENTRY_SIZE;
pub use cpuid::KVM_MSR_LIST_SIZE;
pub use cpuid::kvm_cpuid2;
pub use cpuid::kvm_cpuid;
pub use cpuid::kvm_cpuid_entry2;
pub use cpuid::kvm_cpuid_entry;
pub use cpuid::kvm_msr_entry;
pub use cpuid::kvm_msr_list;
pub use cpuid::kvm_msrs;
pub use cpuid::lemma_kvm_cpuid2_bytes_len;
pub use cpuid::lemma_kvm_cpuid2_image_determines_header;
pub use cpuid::lemma_kvm_cpuid2_zero_image;
pub use cpuid::lemma_kvm_cpuid_bytes_len;
pub use cpuid::lemma_kvm_cpuid_entry2_bytes_len;
pub use cpuid::lemma_kvm_cpuid_entry2_image_injective;
pub use cpuid::lemma_kvm_cpuid_entry2_zero_image;
pub use cpuid::lemma_kvm_cpuid_entry_bytes_len;
pub use cpuid::lemma_kvm_cpuid_entry_image_injective;
pub use cpuid::lemma_kvm_cpuid_entry_zero_image;
pub use cpuid::lemma_kvm_cpuid_image_determines_header;
pub use cpuid::lemma_kvm_cpuid_zero_image;
pub use cpuid::lemma_kvm_msr_entry_bytes_len;
pub use cpuid::lemma_kvm_msr_entry_image_injective;
pub use cpuid::lemma_kvm_msr_entry_zero_image;
pub use cpuid::lemma_kvm_msr_list_bytes_len;
pub use cpuid::lemma_kvm_msr_list_image_determines_header;
pub use cpuid::lemma_kvm_msr_list_zero_image;
pub use cpuid::lemma_kvm_msrs_bytes_len;
pub use cpuid::lemma_kvm_msrs_image_determines_header;
pub use cpuid::lemma_kvm_msrs_zero_image;
pub use debug::KVM_BREAKPOINT_SIZE;
pub use debug::KVM_DEBUG_GUEST_SIZE;
pub use debug::KVM_GUEST_DEBUG_ARCH_SIZE;
pub use debug::KVM_GUEST_DEBUG_SIZE;
pub use debug::kvm_breakpoint;
pub use debug::kvm_debug_guest;
pub use debug::kvm_guest_debug;
pub use debug::kvm_guest_debug_arch;
pub use debug::lemma_kvm_breakpoint_bytes_len;
pub use debug::lemma_kvm_breakpoint_image_injective;
pub use debug::lemma_kvm_breakpoint_zero_image;
pub use debug::lemma_kvm_debug_guest_bytes_len;
pub use debug::lemma_kvm_debug_guest_image_injective;
pub use debug::lemma_kvm_debug_guest_zero_image;
pub use debug::lemma_kvm_guest_debug_arch_bytes_len;
pub use debug::lemma_kvm_guest_debug_arch_image_injective;
pub use debug::lemma_kvm_guest_debug_arch_zero_image;
pub use debug::lemma_kvm_guest_debug_bytes_len;
pub use debug::lemma_kvm_guest_debug_image_injective;
pub use debug::lemma_kvm_guest_debug_zero_image;
pub use fam::__IncompleteArrayField;
pub use ioeventfd::KVM_IOEVENTFD_SIZE;
pub use ioeventfd::kvm_ioeventfd;
pub use ioeventfd::lemma_kvm_ioeventfd_bytes_len;
pub use ioeventfd::lemma_kvm_ioeventfd_image_injective;
pub use ioeventfd::lemma_kvm_ioeventfd_zero_image;
pub use irqchip::KVM_IOAPIC_REDIR_FIELDS_SIZE;
pub use irqchip::KVM_IOAPIC_REDIR_SIZE;
pub use irqchip::KVM_IOAPIC_STATE_SIZE;
pub use irqchip::KVM_IRQ_LEVEL_SIZE;
pub use irqchip::KVM_IRQ_LEVEL_UNION_SIZE;
pub use irqchip::KVM_PIC_STATE_SIZE;
pub use irqchip::kvm_ioapic_state;
pub use irqchip::kvm_ioapic_state__bindgen_ty_1;
pub use irqchip::kvm_ioapic_state__bindgen_ty_1__bindgen_ty_1;
pub use irqchip::kvm_irq_level;
pub use irqchip::kvm_irq_level__bindgen_ty_1;
pub use irqchip::kvm_pic_state;
pub use irqchip::lemma_kvm_ioapic_state__bindgen_ty_1__bindgen_ty_1_bytes_len;
pub use irqchip::lemma_kvm_ioapic_state__bindgen_ty_1__bindgen_ty_1_image_injective;
pub use irqchip::lemma_kvm_ioapic_state__bindgen_ty_1__bindgen_ty_1_zero_image;
pub use irqchip::lemma_kvm_ioapic_state__bindgen_ty_1_bytes_len;
pub use irqchip::lemma_kvm_ioapic_state__bindgen_ty_1_image_injective;
pub use irqchip::lemma_kvm_ioapic_state__bindgen_ty_1_zero_image;
pub use irqchip::lemma_kvm_ioapic_state_bytes_len;
pub use irqchip::lemma_kvm_ioapic_state_image_injective;
pub use irqchip::lemma_kvm_ioapic_state_zero_image;
pub use irqchip::lemma_kvm_irq_level__bindgen_ty_1_bytes_len;
pub use irqchip::lemma_kvm_irq_level__bindgen_ty_1_image_injective;
pub use irqchip::lemma_kvm_irq_level__bindgen_ty_1_zero_image;
pub use irqchip::lemma_kvm_irq_level_bytes_len;
pub use irqchip::lemma_kvm_irq_level_image_injective;
pub use irqchip::lemma_kvm_irq_level_zero_image;
pub use irqchip::lemma_kvm_pic_state_bytes_len;
pub use irqchip::lemma_kvm_pic_state_image_injective;
pub use irqchip::lemma_kvm_pic_state_zero_image;
pub use pit::KVM_PIT_CHANNEL_STATE_SIZE;
pub use pit::KVM_PIT_CONFIG_SIZE;
pub use pit::KVM_PIT_STATE2_SIZE;
pub use pit::KVM_PIT_STATE_SIZE;
pub use pit::kvm_pit_channel_state;
pub use pit::kvm_pit_config;
pub use pit::kvm_pit_state2;
pub use pit::kvm_pit_state;
pub use pit::lemma_kvm_pit_channel_state_bytes_len;
pub use pit::lemma_kvm_pit_channel_state_image_injective;
pub use pit::lemma_kvm_pit_channel_state_zero_image;
pub use pit::lemma_kvm_pit_config_bytes_len;
pub use pit::lemma_kvm_pit_config_image_injective;
pub use pit::lemma_kvm_pit_config_zero_image;
pub use pit::lemma_kvm_pit_state2_bytes_len;
pub use pit::lemma_kvm_pit_state2_image_injective;
pub use pit::lemma_kvm_pit_state2_zero_image;
pub use pit::lemma_kvm_pit_state_bytes_len;
pub use pit::lemma_kvm_pit_state_image_injective;
pub use pit::lemma_kvm_pit_state_zero_image;
pub use regs::KVM_DTABLE_SIZE;
pub use regs::KVM_REGS_SIZE;
pub use regs::KVM_SEGMENT_SIZE;
pub use regs::KVM_SREGS_SIZE;
pub use regs::KVM_SYNC_REGS_SIZE;
pub use regs::kvm_dtable;
pub use regs::kvm_regs;
pub use regs::kvm_segment;
pub use regs::kvm_sregs;
pub use regs::kvm_sync_regs;
pub use regs::lemma_kvm_dtable_bytes_len;
pub use regs::lemma_kvm_dtable_image_injective;
pub use regs::lemma_kvm_dtable_zero_image;
pub use regs::lemma_kvm_regs_bytes_len;
pub use regs::lemma_kvm_regs_image_injective;
pub use regs::lemma_kvm_regs_zero_image;
pub use regs::lemma_kvm_segment_bytes_len;
pub use regs::lemma_kvm_segment_image_injective;
pub use regs::lemma_kvm_segment_zero_image;
pub use regs::lemma_kvm_sregs_bytes_len;
pub use regs::lemma_kvm_sregs_image_injective;
pub use regs::lemma_kvm_sregs_zero_image;
pub use regs::lemma_kvm_sync_regs_bytes_len;
pub use regs::lemma_kvm_sync_regs_image_injective;
pub use regs::lemma_kvm_sync_regs_zero_image;
pub use routing::KVM_ENABLE_CAP_SIZE;
pub use routing::KVM_IRQ_ROUTING_ENTRY_SIZE;
pub use routing::KVM_IRQ_ROUTING_HV_SINT_SIZE;
pub use routing::KVM_IRQ_ROUTING_IRQCHIP_SIZE;
pub use routing::KVM_IRQ_ROUTING_MSI_SIZE;
pub use routing::KVM_IRQ_ROUTING_MSI_UNION_SIZE;
pub use routing::KVM_IRQ_ROUTING_PAYLOAD_SIZE;
pub use routing::KVM_IRQ_ROUTING_S390_ADAPTER_SIZE;
pub use routing::KVM_IRQ_ROUTING_SIZE;
pub use routing::kvm_enable_cap;
pub use routing::kvm_irq_routing;
pub use routing::kvm_irq_routing_entry;
pub use routing::kvm_irq_routing_entry__bindgen_ty_1;
pub use routing::kvm_irq_routing_hv_sint;
pub use routing::kvm_irq_routing_irqchip;
pub use routing::kvm_irq_routing_msi;
pub use routing::kvm_irq_routing_msi__bindgen_ty_1;
pub use routing::kvm_irq_routing_s390_adapter;
pub use routing::lemma_kvm_enable_cap_bytes_len;
pub use routing::lemma_kvm_enable_cap_image_injective;
pub use routing::lemma_kvm_enable_cap_zero_image;
pub use routing::lemma_kvm_irq_routing_bytes_len;
pub use routing::lemma_kvm_irq_routing_entry__bindgen_ty_1_bytes_len;
pub use routing::lemma_kvm_irq_routing_entry__bindgen_ty_1_image_injective;
pub use routing::lemma_kvm_irq_routing_entry__bindgen_ty_1_zero_image;
pub use routing::lemma_kvm_irq_routing_entry_bytes_len;
pub use routing::lemma_kvm_irq_routing_entry_image_injective;
pub use routing::lemma_kvm_irq_routing_entry_zero_image;
pub use routing::lemma_kvm_irq_routing_hv_sint_bytes_len;
pub use routing::lemma_kvm_irq_routing_hv_sint_image_injective;
pub use routing::lemma_kvm_irq_routing_hv_sint_zero_image;
pub use routing::lemma_kvm_irq_routing_image_determines_header;
pub use routing::lemma_kvm_irq_routing_irqchip_bytes_len;
pub use routing::lemma_kvm_irq_routing_irqchip_image_injective;
pub use routing::lemma_kvm_irq_routing_irqchip_zero_image;
pub use routing::lemma_kvm_irq_routing_msi__bindgen_ty_1_bytes_len;
pub use routing::lemma_kvm_irq_routing_msi__bindgen_ty_1_image_injective;
pub use routing::lemma_kvm_irq_routing_msi__bindgen_ty_1_zero_image;
pub use routing::lemma_kvm_irq_routing_msi_bytes_len;
pub use routing::lemma_kvm_irq_routing_msi_image_injective;
pub use routing::lemma_kvm_irq_routing_msi_zero_image;
pub use routing::lemma_kvm_irq_routing_s390_adapter_bytes_len;
pub use routing::lemma_kvm_irq_routing_s390_adapter_image_injective;
pub use routing::lemma_kvm_irq_routing_s390_adapter_zero_image;
pub use routing::lemma_kvm_irq_routing_zero_image;
pub use run::KVM_DEBUG_EXIT_ARCH_SIZE;
pub use run::KVM_RUN_DEBUG_SIZE;
pub use run::KVM_RUN_EOI_SIZE;
pub use run::KVM_RUN_EXIT_UNION_SIZE;
pub use run::KVM_RUN_EX_SIZE;
pub use run::KVM_RUN_FAIL_ENTRY_SIZE;
pub use run::KVM_RUN_HW_SIZE;
pub use run::KVM_RUN_HYPERCALL_SIZE;
pub use run::KVM_RUN_INTERNAL_SIZE;
pub use run::KVM_RUN_IO_SIZE;
pub use run::KVM_RUN_MMIO_SIZE;
pub use run::KVM_RUN_SIZE;
pub use run::KVM_RUN_S_UNION_SIZE;
pub use run::KVM_RUN_TPR_ACCESS_SIZE;
pub use run::kvm_debug_exit_arch;
pub use run::kvm_run;
pub use run::kvm_run__bindgen_ty_1;
pub use run::kvm_run__bindgen_ty_1__bindgen_ty_12;
pub use run::kvm_run__bindgen_ty_1__bindgen_ty_19;
pub use run::kvm_run__bindgen_ty_1__bindgen_ty_1;
pub use run::kvm_run__bindgen_ty_1__bindgen_ty_2;
pub use run::kvm_run__bindgen_ty_1__bindgen_ty_3;
pub use run::kvm_run__bindgen_ty_1__bindgen_ty_4;
pub use run::kvm_run__bindgen_ty_1__bindgen_ty_5;
pub use run::kvm_run__bindgen_ty_1__bindgen_ty_6;
pub use run::kvm_run__bindgen_ty_1__bindgen_ty_7;
pub use run::kvm_run__bindgen_ty_1__bindgen_ty_8;
pub use run::kvm_run__bindgen_ty_2;
pub use run::lemma_kvm_debug_exit_arch_bytes_len;
pub use run::lemma_kvm_debug_exit_arch_image_injective;
pub use run::lemma_kvm_debug_exit_arch_zero_image;
pub use run::lemma_kvm_run__bindgen_ty_1__bindgen_ty_19_bytes_len;
pub use run::lemma_kvm_run__bindgen_ty_1__bindgen_ty_19_image_injective;
pub use run::lemma_kvm_run__bindgen_ty_1__bindgen_ty_19_zero_image;
pub use run::lemma_kvm_run__bindgen_ty_1__bindgen_ty_1_bytes_len;
pub use run::lemma_kvm_run__bindgen_ty_1__bindgen_ty_1_image_injective;
pub use run::lemma_kvm_run__bindgen_ty_1__bindgen_ty_1_zero_image;
pub use run::lemma_kvm_run__bindgen_ty_1__bindgen_ty_2_bytes_len;
pub use run::lemma_kvm_run__bindgen_ty_1__bindgen_ty_2_image_injective;
pub use run::lemma_kvm_run__bindgen_ty_1__bindgen_ty_2_zero_image;
pub use run::lemma_kvm_run__bindgen_ty_1__bindgen_ty_3_bytes_len;
pub use run::lemma_kvm_run__bindgen_ty_1__bindgen_ty_3_image_injective;
pub use run::lemma_kvm_run__bindgen_ty_1__bindgen_ty_3_zero_image;
pub use run::lemma_kvm_run__bindgen_ty_1__bindgen_ty_4_bytes_len;
pub use run::lemma_kvm_run__bindgen_ty_1__bindgen_ty_4_image_injective;
pub use run::lemma_kvm_run__bindgen_ty_1__bindgen_ty_4_zero_image;
pub use run::lemma_kvm_run__bindgen_ty_1__bindgen_ty_5_bytes_len;
pub use run::lemma_kvm_run__bindgen_ty_1__bindgen_ty_5_image_injective;
pub use run::lemma_kvm_run__bindgen_ty_1__bindgen_ty_5_zero_image;
pub use run::lemma_kvm_run__bindgen_ty_1__bindgen_ty_6_bytes_len;
pub use run::lemma_kvm_run__bindgen_ty_1__bindgen_ty_6_image_injective;
pub use run::lemma_kvm_run__bindgen_ty_1__bindgen_ty_6_zero_image;
pub use run::lemma_kvm_run__bindgen_ty_1__bindgen_ty_7_bytes_len;
pub use run::lemma_kvm_run__bindgen_ty_1__bindgen_ty_7_image_injective;
pub use run::lemma_kvm_run__bindgen_ty_1__bindgen_ty_7_zero_image;
pub use run::lemma_kvm_run__bindgen_ty_1_bytes_len;
pub use run::lemma_kvm_run__bindgen_ty_1_image_injective;
pub use run::lemma_kvm_run__bindgen_ty_1_zero_image;
pub use run::lemma_kvm_run__bindgen_ty_2_bytes_len;
pub use run::lemma_kvm_run__bindgen_ty_2_image_injective;
pub use run::lemma_kvm_run__bindgen_ty_2_zero_image;
pub use run::lemma_kvm_run_bytes_len;
pub use run::lemma_kvm_run_image_injective;
pub use run::lemma_kvm_run_zero_image;
pub use vcpu::KVM_DEBUGREGS_SIZE;
pub use vcpu::KVM_MP_STATE_SIZE;
pub use vcpu::KVM_VCPU_EVENTS_EXCEPTION_SIZE;
pub use vcpu::KVM_VCPU_EVENTS_INTERRUPT_SIZE;
pub use vcpu::KVM_VCPU_EVENTS_NMI_SIZE;
pub use vcpu::KVM_VCPU_EVENTS_SIZE;
pub use vcpu::KVM_VCPU_EVENTS_SMI_SIZE;
pub use vcpu::KVM_XCRS_SIZE;
pub use vcpu::KVM_XCR_SIZE;
pub use vcpu::kvm_debugregs;
pub use vcpu::kvm_mp_state;
pub use vcpu::kvm_vcpu_events;
pub use vcpu::kvm_vcpu_events__bindgen_ty_1;
pub use vcpu::kvm_vcpu_events__bindgen_ty_2;
pub use vcpu::kvm_vcpu_events__bindgen_ty_3;
pub use vcpu::kvm_vcpu_events__bindgen_ty_4;
pub use vcpu::kvm_xcr;
pub use vcpu::kvm_xcrs;
pub use vcpu::lemma_kvm_debugregs_bytes_len;
pub use vcpu::lemma_kvm_debugregs_image_injective;
pub use vcpu::lemma_kvm_debugregs_zero_image;
pub use vcpu::lemma_kvm_mp_state_bytes_len;
pub use vcpu::lemma_kvm_mp_state_image_injective;
pub use vcpu::lemma_kvm_mp_state_zero_image;
pub use vcpu::lemma_kvm_vcpu_events__bindgen_ty_1_bytes_len;
pub use vcpu::lemma_kvm_vcpu_events__bindgen_ty_1_image_injective;
pub use vcpu::lemma_kvm_vcpu_events__bindgen_ty_1_zero_image;
pub use vcpu::lemma_kvm_vcpu_events__bindgen_ty_2_bytes_len;
pub use vcpu::lemma_kvm_vcpu_events__bindgen_ty_2_image_injective;
pub use vcpu::lemma_kvm_vcpu_events__bindgen_ty_2_zero_image;
pub use vcpu::lemma_kvm_vcpu_events__bindgen_ty_3_bytes_len;
pub use vcpu::lemma_kvm_vcpu_events__bindgen_ty_3_image_injective;
pub use vcpu::lemma_kvm_vcpu_events__bindgen_ty_3_zero_image;
pub use vcpu::lemma_kvm_vcpu_events__bindgen_ty_4_bytes_len;
pub use vcpu::lemma_kvm_vcpu_events__bindgen_ty_4_image_injective;
pub use vcpu::lemma_kvm_vcpu_events__bindgen_ty_4_zero_image;
pub use vcpu::lemma_kvm_vcpu_events_bytes_len;
pub use vcpu::lemma_kvm_vcpu_events_image_injective;
pub use vcpu::lemma_kvm_vcpu_events_zero_image;
pub use vcpu::lemma_kvm_xcr_bytes_len;
pub use vcpu::lemma_kvm_xcr_image_injective;
pub use vcpu::lemma_kvm_xcr_zero_image;
pub use vcpu::lemma_kvm_xcrs_bytes_len;
pub use vcpu::lemma_kvm_xcrs_image_injective;
pub use vcpu::lemma_kvm_xcrs_zero_image;
pub use vm::KVM_CLOCK_DATA_SIZE;
pub use vm::KVM_COALESCED_MMIO_RING_SIZE;
pub use vm::KVM_COALESCED_MMIO_SIZE;
pub use vm::KVM_COALESCED_MMIO_ZONE_SIZE;
pub use vm::KVM_CREATE_DEVICE_SIZE;
pub use vm::KVM_DEVICE_ATTR_SIZE;
pub use vm::KVM_DIRTY_LOG_SIZE;
pub use vm::KVM_DIRTY_LOG_UNION_SIZE;
pub use vm::KVM_INTERRUPT_SIZE;
pub use vm::KVM_IRQFD_SIZE;
pub use vm::KVM_MEMORY_ALIAS_SIZE;
pub use vm::KVM_MEMORY_REGION_SIZE;
pub use vm::KVM_MSI_SIZE;
pub use vm::KVM_ONE_REG_SIZE;
pub use vm::KVM_REG_LIST_SIZE;
pub use vm::KVM_REINJECT_CONTROL_SIZE;
pub use vm::KVM_SIGNAL_MASK_SIZE;
pub use vm::KVM_TPR_ACCESS_CTL_SIZE;
pub use vm::KVM_TRANSLATION_SIZE;
pub use vm::KVM_USERSPACE_MEMORY_REGION_SIZE;
pub use vm::KVM_USER_TRACE_SETUP_SIZE;
pub use vm::KVM_VAPIC_ADDR_SIZE;
pub use vm::KVM_XEN_HVM_CONFIG_SIZE;
pub use vm::kvm_clock_data;
pub use vm::kvm_coalesced_mmio;
pub use vm::kvm_coalesced_mmio_ring;
pub use vm::kvm_coalesced_mmio_zone;
pub use vm::kvm_create_device;
pub use vm::kvm_device_attr;
pub use vm::kvm_dirty_log;
pub use vm::kvm_dirty_log__bindgen_ty_1;
pub use vm::kvm_interrupt;
pub use vm::kvm_irqfd;
pub use vm::kvm_memory_alias;
pub use vm::kvm_memory_region;
pub use vm::kvm_msi;
pub use vm::kvm_one_reg;
pub use vm::kvm_reg_list;
pub use vm::kvm_reinject_control;
pub use vm::kvm_signal_mask;
pub use vm::kvm_tpr_access_ctl;
pub use vm::kvm_translation;
pub use vm::kvm_user_trace_setup;
pub use vm::kvm_userspace_memory_region;
pub use vm::kvm_vapic_addr;
pub use vm::kvm_xen_hvm_config;
pub use vm::lemma_kvm_clock_data_bytes_len;
pub use vm::lemma_kvm_clock_data_image_injective;
pub use vm::lemma_kvm_clock_data_zero_image;
pub use vm::lemma_kvm_coalesced_mmio_bytes_len;
pub use vm::lemma_kvm_coalesced_mmio_image_injective;
pub use vm::lemma_kvm_coalesced_mmio_ring_bytes_len;
pub use vm::lemma_kvm_coalesced_mmio_ring_image_determines_header;
pub use vm::lemma_kvm_coalesced_mmio_ring_zero_image;
pub use vm::lemma_kvm_coalesced_mmio_zero_image;
pub use vm::lemma_kvm_coalesced_mmio_zone_bytes_len;
pub use vm::lemma_kvm_coalesced_mmio_zone_image_injective;
pub use vm::lemma_kvm_coalesced_mmio_zone_zero_image;
pub use vm::lemma_kvm_create_device_bytes_len;
pub use vm::lemma_kvm_create_device_image_injective;
pub use vm::lemma_kvm_create_device_zero_image;
pub use vm::lemma_kvm_device_attr_bytes_len;
pub use vm::lemma_kvm_device_attr_image_injective;
pub use vm::lemma_kvm_device_attr_zero_image;
pub use vm::lemma_kvm_dirty_log__bindgen_ty_1_bytes_len;
pub use vm::lemma_kvm_dirty_log__bindgen_ty_1_image_injective;
pub use vm::lemma_kvm_dirty_log__bindgen_ty_1_zero_image;
pub use vm::lemma_kvm_dirty_log_bytes_len;
pub use vm::lemma_kvm_dirty_log_image_injective;
pub use vm::lemma_kvm_dirty_log_zero_image;
pub use vm::lemma_kvm_interrupt_bytes_len;
pub use vm::lemma_kvm_interrupt_image_injective;
pub use vm::lemma_kvm_interrupt_zero_image;
pub use vm::lemma_kvm_irqfd_bytes_len;
pub use vm::lemma_kvm_irqfd_image_injective;
pub use vm::lemma_kvm_irqfd_zero_image;
pub use vm::lemma_kvm_memory_alias_bytes_len;
pub use vm::lemma_kvm_memory_alias_image_injective;
pub use vm::lemma_kvm_memory_alias_zero_image;
pub use vm::lemma_kvm_memory_region_bytes_len;
pub use vm::lemma_kvm_memory_region_image_injective;
pub use vm::lemma_kvm_memory_region_zero_image;
pub use vm::lemma_kvm_msi_bytes_len;
pub use vm::lemma_kvm_msi_image_injective;
pub use vm::lemma_kvm_msi_zero_image;
pub use vm::lemma_kvm_one_reg_bytes_len;
pub use vm::lemma_kvm_one_reg_image_injective;
pub use vm::lemma_kvm_one_reg_zero_image;
pub use vm::lemma_kvm_reg_list_bytes_len;
pub use vm::lemma_kvm_reg_list_image_determines_header;
pub use vm::lemma_kvm_reg_list_zero_image;
pub use vm::lemma_kvm_reinject_control_bytes_len;
pub use vm::lemma_kvm_reinject_control_image_injective;
pub use vm::lemma_kvm_reinject_control_zero_image;
pub use vm::lemma_kvm_signal_mask_bytes_len;
pub use vm::lemma_kvm_signal_mask_image_determines_header;
pub use vm::lemma_kvm_signal_mask_zero_image;
pub use vm::lemma_kvm_tpr_access_ctl_bytes_len;
pub use vm::lemma_kvm_tpr_access_ctl_image_injective;
pub use vm::lemma_kvm_tpr_access_ctl_zero_image;
pub use vm::lemma_kvm_translation_bytes_len;
pub use vm::lemma_kvm_translation_image_injective;
pub use vm::lemma_kvm_translation_zero_image;
pub use vm::lemma_kvm_user_trace_setup_bytes_len;
pub use vm::lemma_kvm_user_trace_setup_image_injective;
pub use vm::lemma_kvm_user_trace_setup_zero_image;
pub use vm::lemma_kvm_userspace_memory_region_bytes_len;
pub use vm::lemma_kvm_userspace_memory_region_image_injective;
pub use vm::lemma_kvm_userspace_memory_region_zero_image;
pub use vm::lemma_kvm_vapic_addr_bytes_len;
pub use vm::lemma_kvm_vapic_addr_image_injective;
pub use vm::lemma_kvm_vapic_addr_zero_image;
pub use vm::lemma_kvm_xen_hvm_config_bytes_len;
pub use vm::lemma_kvm_xen_hvm_config_image_injective;
pub use vm::lemma_kvm_xen_hvm_config_zero_image;
