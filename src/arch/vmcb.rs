//! The SVM virtual machine control block: a 4 KiB page with the control
//! area at offset 0x000 and the state-save area at offset 0x400.

use vstd::prelude::*;

verus! {

/// The control area, padded to 0x400 bytes.
#[derive(Clone, Copy, Debug)]
pub struct VmcbControlArea {
    pub intercept_cr: u32,
    pub intercept_dr: u32,
    pub intercept_exceptions: u32,
    pub intercept_vector3: u32,
    pub intercept_vector4: u32,
    pub intercept_vector5: u32,
    pub reserved1: [u32; 9],
    pub pause_filter_thresh: u16,
    pub pause_filter_count: u16,
    pub iopm_base_pa: u64,
    pub msrpm_base_pa: u64,
    pub tsc_offset: u64,
    pub guest_asid: u32,
    pub tlb_control: u8,
    pub reserved2: [u8; 3],
    pub int_control: u32,
    pub int_vector: u32,
    pub int_state: u32,
    pub reserved3: [u8; 4],
    pub exit_code: u64,
    pub exit_info_1: u64,
    pub exit_info_2: u64,
    pub exit_int_info: u64,
    pub nested_ctl: u64,
    pub avic_vapic_bar: u64,
    pub reserved4: [u8; 8],
    pub event_inj: u32,
    pub event_inj_err: u32,
    pub nest_cr3: u64,
    pub lbr_control: u64,
    pub clean_bits: u32,
    pub reserved5: u32,
    pub next_rip: u64,
    pub insn_len: u8,
    pub insn_bytes: [u8; 15],
    pub avic_backing_page: u64,
    pub reserved6: [u8; 8],
    pub avic_logical_id: u64,
    pub avic_physical_id: u64,
    pub reserved7: [u64; 96],
}

/// A segment in the state-save area.
#[derive(Clone, Copy, Debug, PartialEq, Eq, Structural)]
pub struct VmcbSegment {
    pub selector: u16,
    pub attr: u16,
    pub limit: u32,
    pub base: u64,
}

/// The state-save area, padded to 0x400 bytes.
#[derive(Clone, Copy, Debug)]
pub struct VmcbStateSaveArea {
    pub es: VmcbSegment,
    pub cs: VmcbSegment,
    pub ss: VmcbSegment,
    pub ds: VmcbSegment,
    pub fs: VmcbSegment,
    pub gs: VmcbSegment,
    pub gdtr: VmcbSegment,
    pub ldtr: VmcbSegment,
    pub idtr: VmcbSegment,
    pub tr: VmcbSegment,
    pub reserved1: [u8; 43],
    pub cpl: u8,
    pub reserved2: [u8; 4],
    pub efer: u64,
    pub reserved3: [u8; 112],
    pub cr4: u64,
    pub cr3: u64,
    pub cr0: u64,
    pub dr7: u64,
    pub dr6: u64,
    pub rflags: u64,
    pub rip: u64,
    pub reserved4: [u8; 88],
    pub rsp: u64,
    pub reserved5: [u8; 24],
    pub rax: u64,
    pub star: u64,
    pub lstar: u64,
    pub cstar: u64,
    pub sfmask: u64,
    pub kernel_gs_base: u64,
    pub sysenter_cs: u64,
    pub sysenter_esp: u64,
    pub sysenter_eip: u64,
    pub cr2: u64,
    pub reserved6: [u8; 32],
    pub g_pat: u64,
    pub dbgctl: u64,
    pub br_from: u64,
    pub br_to: u64,
    pub last_excp_from: u64,
    pub last_excp_to: u64,
    pub reserved7: [u64; 45],
}

/// The whole control block, padded to 4 KiB.
#[derive(Clone, Copy, Debug)]
pub struct Vmcb {
    pub control: VmcbControlArea,
    pub save: VmcbStateSaveArea,
    pub reserved: [u64; 256],
}

impl VmcbSegment {
    pub fn zeroed() -> (r: Self)
        ensures
            r.selector == 0 && r.attr == 0 && r.limit == 0 && r.base == 0,
    {
        VmcbSegment { selector: 0, attr: 0, limit: 0, base: 0 }
    }
}

impl VmcbControlArea {
    pub fn zeroed() -> (r: Self)
        ensures
            r.exit_code == 0 && r.exit_info_1 == 0 && r.exit_info_2 == 0,
            r.event_inj == 0 && r.event_inj_err == 0 && r.clean_bits == 0 && r.nest_cr3 == 0,
            r.nested_ctl == 0 && r.guest_asid == 0,
    {
        VmcbControlArea {
            intercept_cr: 0,
            intercept_dr: 0,
            intercept_exceptions: 0,
            intercept_vector3: 0,
            intercept_vector4: 0,
            intercept_vector5: 0,
            reserved1: [0u32; 9],
            pause_filter_thresh: 0,
            pause_filter_count: 0,
            iopm_base_pa: 0,
            msrpm_base_pa: 0,
            tsc_offset: 0,
            guest_asid: 0,
            tlb_control: 0,
            reserved2: [0u8; 3],
            int_control: 0,
            int_vector: 0,
            int_state: 0,
            reserved3: [0u8; 4],
            exit_code: 0,
            exit_info_1: 0,
            exit_info_2: 0,
            exit_int_info: 0,
            nested_ctl: 0,
            avic_vapic_bar: 0,
            reserved4: [0u8; 8],
            event_inj: 0,
            event_inj_err: 0,
            nest_cr3: 0,
            lbr_control: 0,
            clean_bits: 0,
            reserved5: 0,
            next_rip: 0,
            insn_len: 0,
            insn_bytes: [0u8; 15],
            avic_backing_page: 0,
            reserved6: [0u8; 8],
            avic_logical_id: 0,
            avic_physical_id: 0,
            reserved7: [0u64; 96],
        }
    }
}

impl VmcbStateSaveArea {
    pub fn zeroed() -> (r: Self)
        ensures
            r.cpl == 0 && r.efer == 0 && r.cr0 == 0 && r.cr3 == 0 && r.cr4 == 0,
            r.rip == 0 && r.rsp == 0 && r.rax == 0 && r.rflags == 0,
    {
        let z = VmcbSegment::zeroed();
        VmcbStateSaveArea {
            es: z,
            cs: z,
            ss: z,
            ds: z,
            fs: z,
            gs: z,
            gdtr: z,
            ldtr: z,
            idtr: z,
            tr: z,
            reserved1: [0u8; 43],
            cpl: 0,
            reserved2: [0u8; 4],
            efer: 0,
            reserved3: [0u8; 112],
            cr4: 0,
            cr3: 0,
            cr0: 0,
            dr7: 0,
            dr6: 0,
            rflags: 0,
            rip: 0,
            reserved4: [0u8; 88],
            rsp: 0,
            reserved5: [0u8; 24],
            rax: 0,
            star: 0,
            lstar: 0,
            cstar: 0,
            sfmask: 0,
            kernel_gs_base: 0,
            sysenter_cs: 0,
            sysenter_esp: 0,
            sysenter_eip: 0,
            cr2: 0,
            reserved6: [0u8; 32],
            g_pat: 0,
            dbgctl: 0,
            br_from: 0,
            br_to: 0,
            last_excp_from: 0,
            last_excp_to: 0,
            reserved7: [0u64; 45],
        }
    }
}

impl Vmcb {
    /// A control block with every byte zero.
    pub fn zeroed() -> (r: Self)
        ensures
            r.control.exit_code == 0 && r.control.event_inj == 0,
            r.save.cpl == 0 && r.save.rip == 0 && r.save.rax == 0,
    {
        Vmcb { control: VmcbControlArea::zeroed(), save: VmcbStateSaveArea::zeroed(), reserved: [0u64; 256] }
    }
}

} // verus!
