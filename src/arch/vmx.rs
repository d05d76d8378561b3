//! The Intel VMX backend: enabling VMX, the VMCS guest, host and control
//! fields, guest control-register filtering, and exit decoding.

use vstd::prelude::*;

use super::context::{DescriptorTablePointer, GeneralRegisters, LinuxContext, MachineState, Segment};
use super::page_table::PTEntry;
use crate::memory::addr::align_down;
use crate::memory::pagetable::Level4PageTableImmut;
use super::vmexit::{handle_exit as dispatch_exit, spec_exit_effect, ExitOutcome, ExitReason};
use super::vmm::CpuIdResult;
use crate::hypercall::DisableBarrier;
use crate::percpu::PerCpu;
use super::vmm::{VcpuAccessGuestState, CR0_CD, CR0_NW, CR0_PE, CR0_PG, CR4_OSXSAVE, CR4_PAE, CR4_VMXE, HOST_CR0};
use crate::error::{HvError, HvErrorNum, HvResult};

verus! {

/// IA32_FEATURE_CONTROL bits.
pub const FEATURE_CONTROL_LOCKED: u64 = 0x1;
pub const FEATURE_CONTROL_VMXON_OUTSIDE_SMX: u64 = 0x4;

/// Pin-based controls.
pub const PIN_NMI_EXITING: u32 = 0x8;
/// Primary processor-based controls.
pub const PROC_CR3_LOAD_EXITING: u32 = 0x8000;
pub const PROC_CR3_STORE_EXITING: u32 = 0x1_0000;
pub const PROC_USE_MSR_BITMAPS: u32 = 0x1000_0000;
pub const PROC_SEC_CONTROLS: u32 = 0x8000_0000;
/// Secondary processor-based controls.
pub const PROC2_EPT: u32 = 0x2;
pub const PROC2_RDTSCP: u32 = 0x8;
pub const PROC2_UNRESTRICTED_GUEST: u32 = 0x80;
pub const PROC2_INVPCID: u32 = 0x1000;
pub const PROC2_XSAVES: u32 = 0x10_0000;
/// VM-exit controls: 64-bit host, save and load PAT and EFER.
pub const EXIT_CONTROLS: u32 = 0x3c_0200;
/// VM-entry controls: IA-32e guest, load PAT and EFER.
pub const ENTRY_CONTROLS: u32 = 0xc200;

/// Basic exit reasons.
pub const EXIT_REASON_EXCEPTION_NMI: u32 = 0;
pub const EXIT_REASON_TRIPLE_FAULT: u32 = 2;
pub const EXIT_REASON_CPUID: u32 = 10;
pub const EXIT_REASON_VMCALL: u32 = 18;
pub const EXIT_REASON_MSR_READ: u32 = 31;
pub const EXIT_REASON_MSR_WRITE: u32 = 32;
pub const EXIT_REASON_EPT_VIOLATION: u32 = 48;
/// The highest basic exit reason the architecture defines.
pub const EXIT_REASON_MAX: u32 = 69;

/// The VM-entry interruption information that delivers #GP with an error
/// code: vector 13, hardware exception, error code valid, valid.
pub const INTR_INFO_GP_WITH_ERROR: u32 = 0x8000_0b0d;

/// The value of a control field given the capability MSR `cap`: bits
/// required to be 1 (its low half) and the bits in `set`.
pub open spec fn spec_control_value(cap: u64, set: u32) -> u32 {
    (cap as u32) | set
}

/// Whether the capability MSR `cap` allows setting `set` and clearing
/// `clear`: every bit of `set` may be 1, no bit of `clear` must be 1, and
/// no bit is asked both ways.
pub open spec fn spec_control_allowed(cap: u64, set: u32, clear: u32) -> bool {
    &&& ((cap >> 32u64) as u32) & set == set
    &&& (cap as u32) & clear == 0
    &&& set & clear == 0
}

/// Computes a control field from its capability MSR, the bits to set and
/// the bits to clear; fails with `EIO` when the processor does not allow it.
pub fn set_control(cap: u64, set: u32, clear: u32) -> (r: HvResult<u32>)
    ensures
        spec_control_allowed(cap, set, clear) ==> r is Ok && r->Ok_0 == spec_control_value(cap, set),
        !spec_control_allowed(cap, set, clear) ==> r is Err && r->Err_0.spec_num() == HvErrorNum::EIO,
{
    let allowed0 = cap as u32;
    let allowed1 = (cap >> 32) as u32;
    if allowed1 & set != set || allowed0 & clear != 0 || set & clear != 0 {
        return Err(HvError::from_num(HvErrorNum::EIO));
    }
    Ok(allowed0 | set)
}

/// The VMX capability MSRs of the control fields.
#[derive(Clone, Copy, Debug)]
pub struct VmxCapabilities {
    pub pinbased: u64,
    pub procbased: u64,
    pub procbased2: u64,
    pub exit: u64,
    pub entry: u64,
}

/// Processor features that decide optional controls.
#[derive(Clone, Copy, Debug)]
pub struct CpuFeatures {
    pub has_vmx: bool,
    pub has_xsave: bool,
    pub has_rdtscp: bool,
    pub has_invpcid: bool,
    pub has_xsaves: bool,
}

/// The control fields of the VMCS.
#[derive(Clone, Copy, Debug, PartialEq, Eq, Structural)]
pub struct VmxControls {
    pub pin: u32,
    pub proc: u32,
    pub proc2: u32,
    pub exit: u32,
    pub entry: u32,
    pub ept_pointer: u64,
    pub msr_bitmap: u64,
    pub exception_bitmap: u32,
    pub cr3_target_count: u32,
    pub cr4_guest_host_mask: u64,
}

/// The secondary controls asked for: EPT and unrestricted guest, plus
/// RDTSCP, INVPCID and XSAVES where the processor has them.
pub open spec fn spec_secondary_controls(f: CpuFeatures) -> u32 {
    (PROC2_EPT | PROC2_UNRESTRICTED_GUEST) | (if f.has_rdtscp {
        PROC2_RDTSCP
    } else {
        0
    }) | (if f.has_invpcid {
        PROC2_INVPCID
    } else {
        0
    }) | (if f.has_xsaves {
        PROC2_XSAVES
    } else {
        0
    })
}

/// Computes every control field: NMI exiting only (interrupts pass
/// through), MSR bitmaps and secondary controls without CR3 exiting, the
/// secondary controls above, a 64-bit host that saves and loads PAT and
/// EFER, an IA-32e guest that loads them, the cell's EPT pointer and the
/// MSR bitmap.
pub fn setup_vmcs_control(caps: &VmxCapabilities, features: &CpuFeatures, ept_pointer: u64, msr_bitmap: u64) -> (r: HvResult<VmxControls>)
    ensures
        (spec_control_allowed(caps.pinbased, PIN_NMI_EXITING, 0) && spec_control_allowed(
            caps.procbased,
            PROC_USE_MSR_BITMAPS | PROC_SEC_CONTROLS,
            PROC_CR3_LOAD_EXITING | PROC_CR3_STORE_EXITING,
        ) && spec_control_allowed(caps.procbased2, spec_secondary_controls(*features), 0)
            && spec_control_allowed(caps.exit, EXIT_CONTROLS, 0) && spec_control_allowed(
            caps.entry,
            ENTRY_CONTROLS,
            0,
        )) <==> r is Ok,
        r is Ok ==> {
            let c = r->Ok_0;
            &&& c.pin == spec_control_value(caps.pinbased, PIN_NMI_EXITING)
            &&& c.proc == spec_control_value(caps.procbased, PROC_USE_MSR_BITMAPS | PROC_SEC_CONTROLS)
            &&& c.proc2 == spec_control_value(caps.procbased2, spec_secondary_controls(*features))
            &&& c.exit == spec_control_value(caps.exit, EXIT_CONTROLS)
            &&& c.entry == spec_control_value(caps.entry, ENTRY_CONTROLS)
            &&& c.ept_pointer == ept_pointer
            &&& c.msr_bitmap == msr_bitmap
            &&& c.exception_bitmap == 0
            &&& c.cr3_target_count == 0
            &&& c.cr4_guest_host_mask == 0
        },
        r is Err ==> r->Err_0.spec_num() == HvErrorNum::EIO,
{
    let pin = set_control(caps.pinbased, PIN_NMI_EXITING, 0)?;
    let proc = set_control(
        caps.procbased,
        PROC_USE_MSR_BITMAPS | PROC_SEC_CONTROLS,
        PROC_CR3_LOAD_EXITING | PROC_CR3_STORE_EXITING,
    )?;
    let rdtscp: u32 = if features.has_rdtscp {
        PROC2_RDTSCP
    } else {
        0
    };
    let invpcid: u32 = if features.has_invpcid {
        PROC2_INVPCID
    } else {
        0
    };
    let xsaves: u32 = if features.has_xsaves {
        PROC2_XSAVES
    } else {
        0
    };
    let proc2 = set_control(caps.procbased2, (PROC2_EPT | PROC2_UNRESTRICTED_GUEST) | rdtscp | invpcid | xsaves, 0)?;
    let exit = set_control(caps.exit, EXIT_CONTROLS, 0)?;
    let entry = set_control(caps.entry, ENTRY_CONTROLS, 0)?;
    Ok(VmxControls {
        pin,
        proc,
        proc2,
        exit,
        entry,
        ept_pointer,
        msr_bitmap,
        exception_bitmap: 0,
        cr3_target_count: 0,
        cr4_guest_host_mask: 0,
    })
}

/// What enabling VMX writes to IA32_FEATURE_CONTROL, if anything, given
/// the processor's features, the host CR4 and the MSR's value.
pub open spec fn spec_feature_control_write(feature_control: u64) -> Option<u64> {
    if feature_control & FEATURE_CONTROL_LOCKED == 0 {
        Some(feature_control | FEATURE_CONTROL_LOCKED | FEATURE_CONTROL_VMXON_OUTSIDE_SMX)
    } else {
        None
    }
}

/// Checks that VMX can be turned on: the processor has VMX (else
/// `ENODEV`), the host has not turned it on (else `EIO`), and the BIOS has
/// not locked it off (else `ENODEV`). Returns the value to write to
/// IA32_FEATURE_CONTROL if it is still unlocked.
pub fn check_vmx_enable(features: &CpuFeatures, linux_cr4: u64, feature_control: u64) -> (r: HvResult<Option<u64>>)
    ensures
        !features.has_vmx ==> r is Err && r->Err_0.spec_num() == HvErrorNum::ENODEV,
        features.has_vmx && linux_cr4 & CR4_VMXE != 0 ==> r is Err && r->Err_0.spec_num() == HvErrorNum::EIO,
        features.has_vmx && linux_cr4 & CR4_VMXE == 0 && feature_control & FEATURE_CONTROL_LOCKED != 0
            && feature_control & FEATURE_CONTROL_VMXON_OUTSIDE_SMX == 0 ==> r is Err && r->Err_0.spec_num()
            == HvErrorNum::ENODEV,
        features.has_vmx && linux_cr4 & CR4_VMXE == 0 && (feature_control & FEATURE_CONTROL_LOCKED == 0
            || feature_control & FEATURE_CONTROL_VMXON_OUTSIDE_SMX != 0) ==> r is Ok && r->Ok_0
            == spec_feature_control_write(feature_control),
{
    check_hypervisor_feature(features)?;
    if linux_cr4 & CR4_VMXE != 0 {
        return Err(HvError::from_num(HvErrorNum::EIO));
    }
    let locked = feature_control & FEATURE_CONTROL_LOCKED != 0;
    let vmxon_outside = feature_control & FEATURE_CONTROL_VMXON_OUTSIDE_SMX != 0;
    if !locked {
        Ok(Some(feature_control | FEATURE_CONTROL_LOCKED | FEATURE_CONTROL_VMXON_OUTSIDE_SMX))
    } else if !vmxon_outside {
        Err(HvError::from_num(HvErrorNum::ENODEV))
    } else {
        Ok(None)
    }
}

/// Fails with `ENODEV` when the processor lacks VMX.
pub fn check_hypervisor_feature(features: &CpuFeatures) -> (r: HvResult)
    ensures
        features.has_vmx <==> r is Ok,
        r is Err ==> r->Err_0.spec_num() == HvErrorNum::ENODEV,
{
    if features.has_vmx {
        Ok(())
    } else {
        Err(HvError::from_num(HvErrorNum::ENODEV))
    }
}

/// The host CR4 while VMX is on: VMXE and PAE, and OSXSAVE if supported.
pub fn host_cr4(has_xsave: bool) -> (r: u64)
    ensures
        r == (CR4_VMXE | CR4_PAE) | (if has_xsave {
            CR4_OSXSAVE
        } else {
            0
        }),
{
    let x: u64 = if has_xsave {
        CR4_OSXSAVE
    } else {
        0
    };
    (CR4_VMXE | CR4_PAE) | x
}

/// The host CR0 while VMX is on.
pub fn host_cr0() -> (r: u64)
    ensures
        r == HOST_CR0,
{
    HOST_CR0
}

/// The IA32_VMX_CRn_FIXED MSRs: bits fixed to 1 (FIXED0) and bits allowed
/// to be 1 (FIXED1) of CR0 and CR4 in VMX operation.
#[derive(Clone, Copy, Debug)]
pub struct CrFixed {
    pub cr0_fixed0: u64,
    pub cr0_fixed1: u64,
    pub cr4_fixed0: u64,
    pub cr4_fixed1: u64,
}

/// The guest-state fields of the VMCS that the hypervisor uses.
#[derive(Clone, Copy, Debug, PartialEq, Eq, Structural)]
pub struct VmcsGuest {
    pub rip: u64,
    pub rsp: u64,
    pub rflags: u64,
    pub cr0: u64,
    pub cr3: u64,
    pub cr4: u64,
    pub cr0_read_shadow: u64,
    pub cr0_host_mask: u64,
    pub cr4_read_shadow: u64,
    pub cr4_host_mask: u64,
    pub es: Segment,
    pub cs: Segment,
    pub ss: Segment,
    pub ds: Segment,
    pub fs: Segment,
    pub gs: Segment,
    pub tr: Segment,
    pub ldtr: Segment,
    pub gdtr: DescriptorTablePointer,
    pub idtr: DescriptorTablePointer,
    pub pat: u64,
    pub efer: u64,
    pub dr7: u64,
    pub sysenter_cs: u32,
    pub sysenter_esp: u64,
    pub sysenter_eip: u64,
    pub link_pointer: u64,
    pub entry_intr_info: u32,
    pub entry_exception_error_code: u32,
    pub exit_reason: u32,
}

/// The guest CR0 after filtering `val` through the fixed MSRs: NW and CD
/// stay off, PE and PG are the guest's.
pub open spec fn spec_cr0_must0(fixed: CrFixed) -> u64 {
    fixed.cr0_fixed1 & !(CR0_NW | CR0_CD)
}

pub open spec fn spec_cr0_must1(fixed: CrFixed) -> u64 {
    fixed.cr0_fixed0 & !(CR0_PG | CR0_PE)
}

/// A VMX vCPU: the guest registers the exit trampoline saves and the
/// VMCS fields.
#[derive(Clone, Copy, Debug)]
pub struct Vcpu {
    pub guest_regs: GeneralRegisters,
    pub vmcs: VmcsGuest,
}

impl Vcpu {
    /// A vCPU whose guest starts from the host context `linux`: each
    /// segment, GDTR and IDTR, CR0 and CR4 filtered through `fixed`, CR3,
    /// RSP and RIP, RFLAGS 2, DR7 0x400, and PAT, EFER and the SYSENTER MSRs.
    pub fn new(linux: &LinuxContext, fixed: &CrFixed, sysenter_cs: u32, sysenter_esp: u64, sysenter_eip: u64) -> (r: Self)
        ensures
            r.vmcs.rip == linux.rip && r.vmcs.rsp == linux.rsp && r.vmcs.rflags == 0x2,
            r.vmcs.cr3 == linux.cr3,
            r.vmcs.cr0 == (linux.cr0 & spec_cr0_must0(*fixed)) | spec_cr0_must1(*fixed),
            r.vmcs.cr0_read_shadow == linux.cr0,
            r.vmcs.cr4_read_shadow == linux.cr4 | CR4_VMXE,
            r.vmcs.cr4 == ((linux.cr4 | CR4_VMXE) & fixed.cr4_fixed1) | fixed.cr4_fixed0,
            r.vmcs.cr0_host_mask == spec_cr0_must1(*fixed) | !spec_cr0_must0(*fixed),
            r.vmcs.cr4_host_mask == fixed.cr4_fixed0 | !fixed.cr4_fixed1,
            r.vmcs.sysenter_cs == sysenter_cs && r.vmcs.sysenter_esp == sysenter_esp && r.vmcs.sysenter_eip
                == sysenter_eip,
            r.vmcs.ldtr == (Segment { selector: 0, base: 0, limit: 0, access_rights: 0x10000 }),
            r.vmcs.entry_exception_error_code == 0 && r.vmcs.exit_reason == 0,
            r.guest_regs == GeneralRegisters::spec_zeroed(),
            r.vmcs.cs == linux.cs && r.vmcs.ds == linux.ds && r.vmcs.es == linux.es,
            r.vmcs.fs == linux.fs && r.vmcs.gs == linux.gs && r.vmcs.tr == linux.tss,
            r.vmcs.ss == (Segment { selector: 0, base: 0, limit: 0, access_rights: 0x10000 }),
            r.vmcs.gdtr == linux.gdt && r.vmcs.idtr == linux.idt,
            r.vmcs.pat == linux.pat && r.vmcs.efer == linux.efer,
            r.vmcs.dr7 == 0x400,
            r.vmcs.link_pointer == u64::MAX,
            r.vmcs.entry_intr_info == 0,
    {
        let invalid = Segment::invalid();
        let mut vcpu = Vcpu {
            guest_regs: GeneralRegisters::zeroed(),
            vmcs: VmcsGuest {
                rip: linux.rip,
                rsp: linux.rsp,
                rflags: 0x2,
                cr0: 0,
                cr3: linux.cr3,
                cr4: 0,
                cr0_read_shadow: 0,
                cr0_host_mask: 0,
                cr4_read_shadow: 0,
                cr4_host_mask: 0,
                es: linux.es,
                cs: linux.cs,
                ss: invalid,
                ds: linux.ds,
                fs: linux.fs,
                gs: linux.gs,
                tr: linux.tss,
                ldtr: invalid,
                gdtr: linux.gdt,
                idtr: linux.idt,
                pat: linux.pat,
                efer: linux.efer,
                dr7: 0x400,
                sysenter_cs,
                sysenter_esp,
                sysenter_eip,
                link_pointer: u64::MAX,
                entry_intr_info: 0,
                entry_exception_error_code: 0,
                exit_reason: 0,
            },
        };
        vcpu.set_guest_cr(0, linux.cr0, fixed);
        vcpu.set_guest_cr(4, linux.cr4, fixed);
        vcpu
    }

    /// Writes guest CR0, CR3 or CR4. CR0 and CR4 go through the fixed
    /// MSRs: bits that must be 0 are cleared and bits that must be 1 set;
    /// the guest reads its own value through the read shadow, and the host
    /// mask covers every fixed bit. CR4 keeps VMXE on.
    pub fn set_guest_cr(&mut self, cr_idx: u64, val: u64, fixed: &CrFixed)
        requires
            cr_idx == 0 || cr_idx == 3 || cr_idx == 4,
        ensures
            cr_idx == 0 ==> final(self).vmcs == (VmcsGuest {
                cr0: (val & spec_cr0_must0(*fixed)) | spec_cr0_must1(*fixed),
                cr0_read_shadow: val,
                cr0_host_mask: spec_cr0_must1(*fixed) | !spec_cr0_must0(*fixed),
                ..old(self).vmcs
            }),
            cr_idx == 3 ==> final(self).vmcs == (VmcsGuest { cr3: val, ..old(self).vmcs }),
            cr_idx == 4 ==> final(self).vmcs == (VmcsGuest {
                cr4: ((val | CR4_VMXE) & fixed.cr4_fixed1) | fixed.cr4_fixed0,
                cr4_read_shadow: val | CR4_VMXE,
                cr4_host_mask: fixed.cr4_fixed0 | !fixed.cr4_fixed1,
                ..old(self).vmcs
            }),
            final(self).guest_regs == old(self).guest_regs,
    {
        if cr_idx == 0 {
            let must0 = fixed.cr0_fixed1 & !(CR0_NW | CR0_CD);
            let must1 = fixed.cr0_fixed0 & !(CR0_PG | CR0_PE);
            self.vmcs.cr0 = (val & must0) | must1;
            self.vmcs.cr0_read_shadow = val;
            self.vmcs.cr0_host_mask = must1 | !must0;
        } else if cr_idx == 3 {
            self.vmcs.cr3 = val;
        } else {
            let must0 = fixed.cr4_fixed1;
            let must1 = fixed.cr4_fixed0;
            let val = val | CR4_VMXE;
            self.vmcs.cr4 = (val & must0) | must1;
            self.vmcs.cr4_read_shadow = val;
            self.vmcs.cr4_host_mask = must1 | !must0;
        }
    }

    /// The guest's view of CR0, CR3 or CR4; for CR4, masked bits come from
    /// the read shadow.
    pub fn get_guest_cr(&self, cr_idx: u64) -> (r: u64)
        requires
            cr_idx == 0 || cr_idx == 3 || cr_idx == 4,
        ensures
            r == self.spec_cr(cr_idx),
    {
        if cr_idx == 0 {
            self.vmcs.cr0
        } else if cr_idx == 3 {
            self.vmcs.cr3
        } else {
            let mask = self.vmcs.cr4_host_mask;
            (self.vmcs.cr4_read_shadow & mask) | (self.vmcs.cr4 & !mask)
        }
    }
}

/// The exit reason that the raw VMX exit information stands for.
pub open spec fn spec_decode_exit(raw_reason: u32, vector: u8, guest_paddr: u64) -> ExitReason {
    let basic = raw_reason & 0xffffu32;
    if raw_reason & 0x8000_0000u32 != 0 {
        ExitReason::EntryFailure
    } else if basic > EXIT_REASON_MAX {
        ExitReason::Unknown(raw_reason as u64)
    } else if basic == EXIT_REASON_EXCEPTION_NMI {
        ExitReason::Exception(vector)
    } else if basic == EXIT_REASON_TRIPLE_FAULT {
        ExitReason::Shutdown
    } else if basic == EXIT_REASON_CPUID {
        ExitReason::Cpuid
    } else if basic == EXIT_REASON_VMCALL {
        ExitReason::Hypercall
    } else if basic == EXIT_REASON_MSR_READ {
        ExitReason::MsrRead
    } else if basic == EXIT_REASON_MSR_WRITE {
        ExitReason::MsrWrite
    } else if basic == EXIT_REASON_EPT_VIOLATION {
        ExitReason::NestedPageFault(guest_paddr)
    } else {
        ExitReason::Other(basic as u64)
    }
}

/// Decodes a VMX exit: the exit reason field (bit 31 marks a failed
/// entry), the interruption vector of an exception exit, and the
/// guest-physical address of an EPT violation.
pub fn decode_exit(raw_reason: u32, vector: u8, guest_paddr: u64) -> (r: ExitReason)
    ensures
        r == spec_decode_exit(raw_reason, vector, guest_paddr),
{
    let basic = raw_reason & 0xffff;
    if raw_reason & 0x8000_0000 != 0 {
        ExitReason::EntryFailure
    } else if basic > EXIT_REASON_MAX {
        ExitReason::Unknown(raw_reason as u64)
    } else if basic == EXIT_REASON_EXCEPTION_NMI {
        ExitReason::Exception(vector)
    } else if basic == EXIT_REASON_TRIPLE_FAULT {
        ExitReason::Shutdown
    } else if basic == EXIT_REASON_CPUID {
        ExitReason::Cpuid
    } else if basic == EXIT_REASON_VMCALL {
        ExitReason::Hypercall
    } else if basic == EXIT_REASON_MSR_READ {
        ExitReason::MsrRead
    } else if basic == EXIT_REASON_MSR_WRITE {
        ExitReason::MsrWrite
    } else if basic == EXIT_REASON_EPT_VIOLATION {
        ExitReason::NestedPageFault(guest_paddr)
    } else {
        ExitReason::Other(basic as u64)
    }
}

impl VcpuAccessGuestState for Vcpu {
    open spec fn spec_regs(&self) -> GeneralRegisters {
        self.guest_regs
    }

    open spec fn spec_rip(&self) -> u64 {
        self.vmcs.rip
    }

    open spec fn spec_rsp(&self) -> u64 {
        self.vmcs.rsp
    }

    open spec fn spec_rflags(&self) -> u64 {
        self.vmcs.rflags
    }

    open spec fn spec_cr(&self, idx: u64) -> u64 {
        if idx == 0 {
            self.vmcs.cr0
        } else if idx == 3 {
            self.vmcs.cr3
        } else {
            (self.vmcs.cr4_read_shadow & self.vmcs.cr4_host_mask) | (self.vmcs.cr4 & !self.vmcs.cr4_host_mask)
        }
    }

    /// CS.DPL, bits 5 and 6 of the access rights, is 0.
    open spec fn spec_privileged(&self) -> bool {
        (self.vmcs.cs.access_rights >> 5u32) & 3 == 0
    }

    open spec fn spec_in_hypercall(&self) -> bool {
        self.vmcs.exit_reason & 0xffffu32 == EXIT_REASON_VMCALL && self.vmcs.exit_reason & 0x8000_0000u32 == 0
    }

    open spec fn spec_fault_pending(&self) -> bool {
        self.vmcs.entry_intr_info == INTR_INFO_GP_WITH_ERROR && self.vmcs.entry_exception_error_code == 0
    }


    /// The host context takes back RIP, RSP, the control registers (CR4
    /// without VMXE), the segment selectors, the FS and GS bases, the
    /// descriptor tables, and PAT and EFER.
    open spec fn spec_load_guest(&self, linux: LinuxContext) -> LinuxContext {
        LinuxContext {
            rip: self.vmcs.rip,
            rsp: self.vmcs.rsp,
            cr0: self.vmcs.cr0,
            cr3: self.vmcs.cr3,
            cr4: self.vmcs.cr4 & !CR4_VMXE,
            cs: Segment { selector: self.vmcs.cs.selector, ..linux.cs },
            ds: Segment { selector: self.vmcs.ds.selector, ..linux.ds },
            es: Segment { selector: self.vmcs.es.selector, ..linux.es },
            fs: Segment { selector: self.vmcs.fs.selector, base: self.vmcs.fs.base, ..linux.fs },
            gs: Segment { selector: self.vmcs.gs.selector, base: self.vmcs.gs.base, ..linux.gs },
            tss: Segment { selector: self.vmcs.tr.selector, ..linux.tss },
            gdt: self.vmcs.gdtr,
            idt: self.vmcs.idtr,
            pat: self.vmcs.pat,
            efer: self.vmcs.efer,
            ..linux
        }
    }

    open spec fn spec_with_rip(&self, rip: u64) -> Self {
        Vcpu { vmcs: VmcsGuest { rip, ..self.vmcs }, ..*self }
    }

    open spec fn spec_with_rsp(&self, rsp: u64) -> Self {
        Vcpu { vmcs: VmcsGuest { rsp, ..self.vmcs }, ..*self }
    }

    fn regs(&self) -> (r: GeneralRegisters) {
        self.guest_regs
    }

    fn set_regs(&mut self, regs: GeneralRegisters) {
        self.guest_regs = regs;
    }

    fn instr_pointer(&self) -> (r: u64) {
        self.vmcs.rip
    }

    fn stack_pointer(&self) -> (r: u64) {
        self.vmcs.rsp
    }

    fn set_stack_pointer(&mut self, sp: u64) {
        self.vmcs.rsp = sp;
    }

    fn rflags(&self) -> (r: u64) {
        self.vmcs.rflags
    }

    fn cr(&self, idx: u64) -> (r: u64) {
        self.get_guest_cr(idx)
    }

    fn advance_rip(&mut self, instr_len: u8) -> (r: HvResult) {
        self.vmcs.rip = self.vmcs.rip.wrapping_add(instr_len as u64);
        Ok(())
    }

    fn inject_fault(&mut self) -> (r: HvResult) {
        self.vmcs.entry_intr_info = INTR_INFO_GP_WITH_ERROR;
        self.vmcs.entry_exception_error_code = 0;
        Ok(())
    }

    fn guest_is_privileged(&self) -> (r: bool) {
        (self.vmcs.cs.access_rights >> 5) & 3 == 0
    }

    fn in_hypercall(&self) -> (r: bool) {
        self.vmcs.exit_reason & 0xffff == EXIT_REASON_VMCALL && self.vmcs.exit_reason & 0x8000_0000 == 0
    }

    fn load_guest_context(&self, linux: &mut LinuxContext) {
        linux.rip = self.vmcs.rip;
        linux.rsp = self.vmcs.rsp;
        linux.cr0 = self.vmcs.cr0;
        linux.cr3 = self.vmcs.cr3;
        linux.cr4 = self.vmcs.cr4 & !CR4_VMXE;
        linux.cs.selector = self.vmcs.cs.selector;
        linux.ds.selector = self.vmcs.ds.selector;
        linux.es.selector = self.vmcs.es.selector;
        linux.fs.selector = self.vmcs.fs.selector;
        linux.fs.base = self.vmcs.fs.base;
        linux.gs.selector = self.vmcs.gs.selector;
        linux.gs.base = self.vmcs.gs.base;
        linux.tss.selector = self.vmcs.tr.selector;
        linux.gdt = self.vmcs.gdtr;
        linux.idt = self.vmcs.idtr;
        linux.pat = self.vmcs.pat;
        linux.efer = self.vmcs.efer;
    }
}

/// Why a VMX instruction failed.
#[derive(Debug, Clone, Copy, PartialEq, Eq, Structural)]
pub enum VmFail {
    /// ZF set: failed with an error number in the VMCS.
    VmFailValid,
    /// CF set: failed with no current VMCS.
    VmFailInvalid,
}

/// RFLAGS bits that report VMX instruction failure.
pub const RFLAGS_CF: u64 = 0x1;
pub const RFLAGS_ZF: u64 = 0x40;

/// The outcome of a VMX instruction, read from RFLAGS right after it.
pub fn vmx_capture_status(rflags: u64) -> (r: Result<(), VmFail>)
    ensures
        rflags & RFLAGS_ZF != 0 ==> r == Err::<(), VmFail>(VmFail::VmFailValid),
        rflags & RFLAGS_ZF == 0 && rflags & RFLAGS_CF != 0 ==> r == Err::<(), VmFail>(VmFail::VmFailInvalid),
        rflags & RFLAGS_ZF == 0 && rflags & RFLAGS_CF == 0 ==> r is Ok,
{
    if rflags & RFLAGS_ZF != 0 {
        Err(VmFail::VmFailValid)
    } else if rflags & RFLAGS_CF != 0 {
        Err(VmFail::VmFailInvalid)
    } else {
        Ok(())
    }
}

/// The host-state fields of the VMCS.
#[derive(Clone, Copy, Debug, PartialEq, Eq, Structural)]
pub struct VmcsHost {
    pub pat: u64,
    pub efer: u64,
    pub cr0: u64,
    pub cr3: u64,
    pub cr4: u64,
    pub cs_selector: u16,
    pub tr_selector: u16,
    pub fs_base: u64,
    pub gs_base: u64,
    pub tr_base: u64,
    pub gdtr_base: u64,
    pub idtr_base: u64,
    pub rsp: u64,
    pub rip: u64,
}

/// The selectors of the hypervisor's GDT: kernel code at index 1, the TSS
/// at index 2, both ring 0.
pub const KCODE_SELECTOR: u16 = 0x8;
pub const TSS_SELECTOR: u16 = 0x10;

/// The host state a VM exit loads: the current PAT, EFER and control
/// registers (CR3 without its flags), the hypervisor's code and TSS
/// selectors with null data selectors, the CPU's GS base, the
/// hypervisor's GDT and IDT, the per-CPU stack top and the exit entry.
pub fn setup_vmcs_host(cpu: &MachineState, gdt_base: u64, idt_base: u64, stack_top: u64, exit_entry: u64) -> (r: VmcsHost)
    ensures
        r.pat == cpu.pat && r.efer == cpu.efer && r.cr0 == cpu.cr0 && r.cr4 == cpu.cr4,
        r.cr3 == cpu.cr3 & !0xfffu64,
        r.cs_selector == KCODE_SELECTOR && r.tr_selector == TSS_SELECTOR,
        r.fs_base == 0 && r.tr_base == 0 && r.gs_base == cpu.gs_base,
        r.gdtr_base == gdt_base && r.idtr_base == idt_base,
        r.rsp == stack_top && r.rip == exit_entry,
{
    VmcsHost {
        pat: cpu.pat,
        efer: cpu.efer,
        cr0: cpu.cr0,
        cr3: cpu.cr3 & !0xfff,
        cr4: cpu.cr4,
        cs_selector: KCODE_SELECTOR,
        tr_selector: TSS_SELECTOR,
        fs_base: 0,
        gs_base: cpu.gs_base,
        tr_base: 0,
        gdtr_base: gdt_base,
        idtr_base: idt_base,
        rsp: stack_top,
        rip: exit_entry,
    }
}

impl Vcpu {
    /// The guest's own page table, rooted at its CR3.
    pub fn guest_page_table(&self) -> (r: Level4PageTableImmut<PTEntry>)
        requires
            self.vmcs.cr3 < 0x10_0000_0000_0000,
        ensures
            r.spec_root() == self.vmcs.cr3 - self.vmcs.cr3 % 0x1000,
    {
        Level4PageTableImmut::from_root(align_down(self.vmcs.cr3))
    }
}

/// Handles a VMX exit: decodes the exit reason saved in the VMCS, with
/// the vector of an exception exit and the address of an EPT violation,
/// and dispatches it.
pub fn handle_exit(
    cpu_data: &mut PerCpu<Vcpu>,
    vector: u8,
    guest_paddr: u64,
    native: CpuIdResult,
    barrier: &mut DisableBarrier,
) -> (r: HvResult<ExitOutcome>)
    requires
        old(barrier).arrived < u32::MAX,
    ensures
        spec_exit_effect(
            *old(cpu_data),
            *final(cpu_data),
            spec_decode_exit(old(cpu_data).vcpu.vmcs.exit_reason, vector, guest_paddr),
            native,
            r,
        ),
{
    let reason = decode_exit(cpu_data.vcpu.vmcs.exit_reason, vector, guest_paddr);
    dispatch_exit(cpu_data, reason, native, barrier)
}

} // verus!
