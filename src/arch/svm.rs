//! The AMD SVM backend: enabling SVM, the guest state in the VMCB, and
//! exit decoding.

use vstd::prelude::*;

use super::context::{GeneralRegisters, LinuxContext};
use super::page_table::PTEntry;
use crate::memory::addr::align_down;
use crate::memory::pagetable::Level4PageTableImmut;
use super::vmcb::{Vmcb, VmcbStateSaveArea};
use super::vmexit::{handle_exit as dispatch_exit, spec_exit_effect, ExitOutcome, ExitReason};
use super::vmcb::VmcbControlArea;
use super::vmm::CpuIdResult;
use crate::hypercall::DisableBarrier;
use crate::percpu::PerCpu;
use super::vmm::VcpuAccessGuestState;
use crate::error::{HvError, HvErrorNum, HvResult};

verus! {

/// VM_CR bits.
pub const VM_CR_LOCK: u64 = 0x8;
pub const VM_CR_SVMDIS: u64 = 0x10;
/// EFER.SVME.
pub const EFER_SVME: u64 = 0x1000;

/// Exit codes.
pub const SVM_EXIT_EXCP_BASE: u64 = 0x40;
pub const SVM_EXIT_NMI: u64 = 0x61;
pub const SVM_EXIT_CPUID: u64 = 0x72;
pub const SVM_EXIT_MSR: u64 = 0x7c;
pub const SVM_EXIT_SHUTDOWN: u64 = 0x7f;
pub const SVM_EXIT_VMMCALL: u64 = 0x81;
pub const SVM_EXIT_NPF: u64 = 0x400;
pub const SVM_EXIT_INVALID: u64 = 0xffff_ffff_ffff_ffff;
/// The highest intercept code below the nested-paging codes.
pub const SVM_EXIT_LAST_INTERCEPT: u64 = 0xa5;
/// The highest nested-paging related code.
pub const SVM_EXIT_LAST_NESTED: u64 = 0x403;

/// EVENTINJ value that injects #GP with error code 0.
pub const EVENT_INJ_GP: u32 = 0x8000_0b0d;

/// Clean bits meaning that no guest state was changed.
pub const VMCB_CLEAN_UNMODIFIED: u32 = 0xffff_ffff;

/// The defined bits of VM_CR: DPD, R_INIT, DIS_A20M, LOCK and SVMDIS.
pub const VM_CR_ALL: u64 = 0x1f;

/// The VM_CR flags of a raw MSR value, undefined bits dropped.
pub fn vm_cr_flags(raw: u64) -> (r: u64)
    ensures
        r == raw & VM_CR_ALL,
{
    raw & VM_CR_ALL
}

/// Fails with `ENODEV` when the BIOS disabled SVM in VM_CR.
pub fn check_hypervisor_feature(vm_cr: u64) -> (r: HvResult)
    ensures
        (vm_cr & VM_CR_SVMDIS == 0) <==> r is Ok,
        r is Err ==> r->Err_0.spec_num() == HvErrorNum::ENODEV,
{
    if vm_cr & VM_CR_SVMDIS != 0 {
        return Err(HvError::from_num(HvErrorNum::ENODEV));
    }
    Ok(())
}

/// Checks that SVM can be turned on and returns the EFER value that turns
/// it on: `ENODEV` if the BIOS disabled it, `EBUSY` if it is already on.
pub fn check_svm_enable(vm_cr: u64, efer: u64) -> (r: HvResult<u64>)
    ensures
        vm_cr & VM_CR_SVMDIS != 0 ==> r is Err && r->Err_0.spec_num() == HvErrorNum::ENODEV,
        vm_cr & VM_CR_SVMDIS == 0 && efer & EFER_SVME != 0 ==> r is Err && r->Err_0.spec_num() == HvErrorNum::EBUSY,
        vm_cr & VM_CR_SVMDIS == 0 && efer & EFER_SVME == 0 ==> r is Ok && r->Ok_0 == efer | EFER_SVME,
{
    check_hypervisor_feature(vm_cr)?;
    if efer & EFER_SVME != 0 {
        return Err(HvError::from_num(HvErrorNum::EBUSY));
    }
    Ok(efer | EFER_SVME)
}

/// The EFER value that turns SVM off again.
pub fn svm_disabled_efer(efer: u64) -> (r: u64)
    ensures
        r == efer & !EFER_SVME,
{
    efer & !EFER_SVME
}

/// The exit reason that an SVM exit code stands for; `exit_info_1` tells
/// an MSR read (0) from a write (1), `exit_info_2` holds the faulting
/// guest-physical address of a nested page fault.
pub open spec fn spec_decode_exit(exit_code: u64, exit_info_1: u64, exit_info_2: u64) -> ExitReason {
    if exit_code == SVM_EXIT_INVALID {
        ExitReason::EntryFailure
    } else if !(exit_code <= SVM_EXIT_LAST_INTERCEPT || (SVM_EXIT_NPF <= exit_code && exit_code <= SVM_EXIT_LAST_NESTED)) {
        ExitReason::Unknown(exit_code)
    } else if SVM_EXIT_EXCP_BASE <= exit_code && exit_code < SVM_EXIT_EXCP_BASE + 32 {
        ExitReason::Exception((exit_code - SVM_EXIT_EXCP_BASE) as u8)
    } else if exit_code == SVM_EXIT_NMI {
        ExitReason::Nmi
    } else if exit_code == SVM_EXIT_CPUID {
        ExitReason::Cpuid
    } else if exit_code == SVM_EXIT_VMMCALL {
        ExitReason::Hypercall
    } else if exit_code == SVM_EXIT_NPF {
        ExitReason::NestedPageFault(exit_info_2)
    } else if exit_code == SVM_EXIT_SHUTDOWN {
        ExitReason::Shutdown
    } else if exit_code == SVM_EXIT_MSR && exit_info_1 == 0 {
        ExitReason::MsrRead
    } else if exit_code == SVM_EXIT_MSR && exit_info_1 == 1 {
        ExitReason::MsrWrite
    } else if exit_code == SVM_EXIT_MSR {
        ExitReason::Unknown(exit_code)
    } else {
        ExitReason::Other(exit_code)
    }
}

/// Decodes an SVM exit from the VMCB's exit code and exit information.
pub fn decode_exit(exit_code: u64, exit_info_1: u64, exit_info_2: u64) -> (r: ExitReason)
    ensures
        r == spec_decode_exit(exit_code, exit_info_1, exit_info_2),
{
    if exit_code == SVM_EXIT_INVALID {
        ExitReason::EntryFailure
    } else if !(exit_code <= SVM_EXIT_LAST_INTERCEPT || (SVM_EXIT_NPF <= exit_code && exit_code <= SVM_EXIT_LAST_NESTED)) {
        ExitReason::Unknown(exit_code)
    } else if SVM_EXIT_EXCP_BASE <= exit_code && exit_code < SVM_EXIT_EXCP_BASE + 32 {
        ExitReason::Exception((exit_code - SVM_EXIT_EXCP_BASE) as u8)
    } else if exit_code == SVM_EXIT_NMI {
        ExitReason::Nmi
    } else if exit_code == SVM_EXIT_CPUID {
        ExitReason::Cpuid
    } else if exit_code == SVM_EXIT_VMMCALL {
        ExitReason::Hypercall
    } else if exit_code == SVM_EXIT_NPF {
        ExitReason::NestedPageFault(exit_info_2)
    } else if exit_code == SVM_EXIT_SHUTDOWN {
        ExitReason::Shutdown
    } else if exit_code == SVM_EXIT_MSR && exit_info_1 == 0 {
        ExitReason::MsrRead
    } else if exit_code == SVM_EXIT_MSR && exit_info_1 == 1 {
        ExitReason::MsrWrite
    } else if exit_code == SVM_EXIT_MSR {
        ExitReason::Unknown(exit_code)
    } else {
        ExitReason::Other(exit_code)
    }
}

/// An SVM vCPU: the guest registers, the host stack pointer the exit
/// trampoline switches to, the host state-save area and the VMCB.
#[derive(Clone, Copy, Debug)]
pub struct Vcpu {
    pub guest_regs: GeneralRegisters,
    pub host_stack_top: u64,
    pub host_save_area: u64,
    pub vmcb: Vmcb,
}

impl Vcpu {
    /// A vCPU with a zeroed VMCB at `vmcb_paddr`; VMRUN takes that address
    /// in RAX.
    pub fn new(host_save_area: u64, host_stack_top: u64, vmcb_paddr: u64) -> (r: Self)
        ensures
            r.guest_regs.rax == vmcb_paddr,
            r.host_save_area == host_save_area,
            r.host_stack_top == host_stack_top,
            r.vmcb.control.exit_code == 0 && r.vmcb.control.event_inj == 0,
            r.vmcb.save.cpl == 0 && r.vmcb.save.rip == 0 && r.vmcb.save.rax == 0,
    {
        let mut guest_regs = GeneralRegisters::zeroed();
        guest_regs.rax = vmcb_paddr;
        Vcpu { guest_regs, host_stack_top, host_save_area, vmcb: Vmcb::zeroed() }
    }

    /// This vCPU after an exit: RAX from the VMCB, all guest state marked
    /// unmodified.
    pub open spec fn spec_synced_from(self) -> Self {
        Vcpu {
            guest_regs: GeneralRegisters { rax: self.vmcb.save.rax, ..self.guest_regs },
            vmcb: Vmcb { control: VmcbControlArea { clean_bits: VMCB_CLEAN_UNMODIFIED, ..self.vmcb.control }, ..self.vmcb },
            ..self
        }
    }

    /// This vCPU before the next VMRUN: RAX stored into the VMCB.
    pub open spec fn spec_synced_to(self) -> Self {
        Vcpu { vmcb: Vmcb { save: VmcbStateSaveArea { rax: self.guest_regs.rax, ..self.vmcb.save }, ..self.vmcb }, ..self }
    }

    /// Brings the guest RAX in from the VMCB after an exit, and marks all
    /// guest state unmodified.
    pub fn sync_from_vmcb(&mut self)
        ensures
            *final(self) == old(self).spec_synced_from(),
            final(self).guest_regs == (GeneralRegisters { rax: old(self).vmcb.save.rax, ..old(self).guest_regs }),
            final(self).vmcb.control.clean_bits == VMCB_CLEAN_UNMODIFIED,
            final(self).vmcb.save.rip == old(self).vmcb.save.rip,
            final(self).vmcb.save.cpl == old(self).vmcb.save.cpl,
            final(self).vmcb.control.exit_code == old(self).vmcb.control.exit_code,
            final(self).vmcb.control.exit_info_1 == old(self).vmcb.control.exit_info_1,
            final(self).vmcb.control.exit_info_2 == old(self).vmcb.control.exit_info_2,
    {
        self.guest_regs.rax = self.vmcb.save.rax;
        self.vmcb.control.clean_bits = VMCB_CLEAN_UNMODIFIED;
    }

    /// The guest's own page table, rooted at its CR3.
    pub fn guest_page_table(&self) -> (r: Level4PageTableImmut<PTEntry>)
        requires
            self.vmcb.save.cr3 < 0x10_0000_0000_0000,
        ensures
            r.spec_root() == self.vmcb.save.cr3 - self.vmcb.save.cr3 % 0x1000,
    {
        Level4PageTableImmut::from_root(align_down(self.vmcb.save.cr3))
    }

    /// Stores the guest RAX back into the VMCB before the next VMRUN.
    pub fn sync_to_vmcb(&mut self)
        ensures
            *final(self) == old(self).spec_synced_to(),
            final(self).vmcb.save.rax == old(self).guest_regs.rax,
            final(self).guest_regs == old(self).guest_regs,
            final(self).vmcb.save.rip == old(self).vmcb.save.rip,
    {
        self.vmcb.save.rax = self.guest_regs.rax;
    }
}

impl VcpuAccessGuestState for Vcpu {
    open spec fn spec_regs(&self) -> GeneralRegisters {
        self.guest_regs
    }

    open spec fn spec_rip(&self) -> u64 {
        self.vmcb.save.rip
    }

    open spec fn spec_rsp(&self) -> u64 {
        self.vmcb.save.rsp
    }

    open spec fn spec_rflags(&self) -> u64 {
        self.vmcb.save.rflags
    }

    open spec fn spec_cr(&self, idx: u64) -> u64 {
        if idx == 0 {
            self.vmcb.save.cr0
        } else if idx == 3 {
            self.vmcb.save.cr3
        } else {
            self.vmcb.save.cr4
        }
    }

    open spec fn spec_privileged(&self) -> bool {
        self.vmcb.save.cpl == 0
    }

    open spec fn spec_in_hypercall(&self) -> bool {
        self.vmcb.control.exit_code == SVM_EXIT_VMMCALL
    }

    open spec fn spec_fault_pending(&self) -> bool {
        self.vmcb.control.event_inj == EVENT_INJ_GP && self.vmcb.control.event_inj_err == 0
    }


    /// The VMCB holds no host state to read back.
    open spec fn spec_load_guest(&self, linux: LinuxContext) -> LinuxContext {
        linux
    }

    open spec fn spec_with_rip(&self, rip: u64) -> Self {
        Vcpu { vmcb: Vmcb { save: VmcbStateSaveArea { rip, ..self.vmcb.save }, ..self.vmcb }, ..*self }
    }

    open spec fn spec_with_rsp(&self, rsp: u64) -> Self {
        Vcpu { vmcb: Vmcb { save: VmcbStateSaveArea { rsp, ..self.vmcb.save }, ..self.vmcb }, ..*self }
    }

    fn regs(&self) -> (r: GeneralRegisters) {
        self.guest_regs
    }

    fn set_regs(&mut self, regs: GeneralRegisters) {
        self.guest_regs = regs;
    }

    fn instr_pointer(&self) -> (r: u64) {
        self.vmcb.save.rip
    }

    fn stack_pointer(&self) -> (r: u64) {
        self.vmcb.save.rsp
    }

    fn set_stack_pointer(&mut self, sp: u64) {
        self.vmcb.save.rsp = sp;
    }

    fn rflags(&self) -> (r: u64) {
        self.vmcb.save.rflags
    }

    fn cr(&self, idx: u64) -> (r: u64) {
        if idx == 0 {
            self.vmcb.save.cr0
        } else if idx == 3 {
            self.vmcb.save.cr3
        } else {
            self.vmcb.save.cr4
        }
    }

    fn advance_rip(&mut self, instr_len: u8) -> (r: HvResult) {
        self.vmcb.save.rip = self.vmcb.save.rip.wrapping_add(instr_len as u64);
        Ok(())
    }

    fn inject_fault(&mut self) -> (r: HvResult) {
        self.vmcb.control.event_inj = EVENT_INJ_GP;
        self.vmcb.control.event_inj_err = 0;
        Ok(())
    }

    fn guest_is_privileged(&self) -> (r: bool) {
        self.vmcb.save.cpl == 0
    }

    fn in_hypercall(&self) -> (r: bool) {
        self.vmcb.control.exit_code == SVM_EXIT_VMMCALL
    }

    fn load_guest_context(&self, linux: &mut LinuxContext) {
    }
}

/// Handles an SVM exit: brings the guest RAX in from the VMCB, marks the
/// guest state unmodified, decodes the exit code, dispatches it, and
/// stores the guest RAX back for the next VMRUN.
pub fn handle_exit(cpu_data: &mut PerCpu<Vcpu>, native: CpuIdResult, barrier: &mut DisableBarrier) -> (r: HvResult<ExitOutcome>)
    requires
        old(barrier).arrived < u32::MAX,
    ensures
        (exists|mid: PerCpu<Vcpu>|
            {
                &&& spec_exit_effect(
                    (PerCpu { vcpu: old(cpu_data).vcpu.spec_synced_from(), ..*old(cpu_data) }),
                    mid,
                    spec_decode_exit(
                        old(cpu_data).vcpu.vmcb.control.exit_code,
                        old(cpu_data).vcpu.vmcb.control.exit_info_1,
                        old(cpu_data).vcpu.vmcb.control.exit_info_2,
                    ),
                    native,
                    r,
                )
                &&& *final(cpu_data) == (PerCpu { vcpu: mid.vcpu.spec_synced_to(), ..mid })
            }),
{
    cpu_data.vcpu.sync_from_vmcb();
    let reason = decode_exit(
        cpu_data.vcpu.vmcb.control.exit_code,
        cpu_data.vcpu.vmcb.control.exit_info_1,
        cpu_data.vcpu.vmcb.control.exit_info_2,
    );
    let ghost synced = *cpu_data;
    let res = dispatch_exit(cpu_data, reason, native, barrier);
    let ghost mid = *cpu_data;
    cpu_data.vcpu.sync_to_vmcb();
    assert(synced == (PerCpu { vcpu: old(cpu_data).vcpu.spec_synced_from(), ..*old(cpu_data) }));
    assert(*cpu_data == (PerCpu { vcpu: mid.vcpu.spec_synced_to(), ..mid }));
    res
}

} // verus!
