//! VM-exit dispatch: what each exit reason does to the vCPU, and what
//! happens when a handler fails.

use vstd::prelude::*;

use super::vmm::{
    handle_cpuid, handle_msr_read, handle_msr_write, regs_with_cpuid, regs_with_msr_read,
    set_return_val, spec_cpuid, CpuIdResult, VcpuAccessGuestState, VM_EXIT_LEN_CPUID, VM_EXIT_LEN_HYPERCALL,
    VM_EXIT_LEN_RDMSR, VM_EXIT_LEN_WRMSR,
};
use crate::error::{errno_value, HvError, HvErrorNum, HvResult};
use crate::hypercall::{spec_hypercall_outcome, DisableBarrier, HyperCall, HypercallOutcome};
use crate::percpu::PerCpu;

verus! {

/// Vector of the non-maskable interrupt.
pub const NMI_VECTOR: u8 = 2;

/// A VM exit, decoded from the vendor's exit code.
#[derive(Debug, Clone, Copy, PartialEq, Eq, Structural)]
pub enum ExitReason {
    /// An exception or NMI in the guest, with its vector.
    Exception(u8),
    /// A physical NMI arrived while the guest ran.
    Nmi,
    Cpuid,
    Hypercall,
    MsrRead,
    MsrWrite,
    /// A guest-physical access that the nested tables do not map.
    NestedPageFault(u64),
    /// The guest shut down (triple fault).
    Shutdown,
    /// VM entry failed.
    EntryFailure,
    /// A reason the dispatcher has no handler for.
    Other(u64),
    /// A code the vendor does not define.
    Unknown(u64),
}

/// What the exit loop does after a handled exit.
#[derive(Debug, Clone, Copy, PartialEq, Eq, Structural)]
pub enum ExitOutcome {
    /// Resume the guest; re-raise an NMI on the host first if `reraise_nmi`.
    Resume { reraise_nmi: bool },
    /// Wait at the `disable` barrier, then deactivate.
    Disable,
    /// Stop with a dump of the guest state.
    Fatal,
}

/// The errno a handler fails with for `reason`, if it fails.
pub open spec fn spec_exit_error(reason: ExitReason) -> Option<HvErrorNum> {
    match reason {
        ExitReason::NestedPageFault(_) => Some(HvErrorNum::ENOSYS),
        ExitReason::Other(_) => Some(HvErrorNum::ENOSYS),
        ExitReason::Unknown(_) => Some(HvErrorNum::EIO),
        _ => None,
    }
}

/// The guest instruction pointer moved past an instruction of `len` bytes.
pub open spec fn rip_advanced<V: VcpuAccessGuestState>(old_cpu: PerCpu<V>, new_cpu: PerCpu<V>, len: u8) -> bool {
    new_cpu.vcpu.spec_rip() == ((old_cpu.vcpu.spec_rip() + len) % 0x1_0000_0000_0000_0000) as u64
}

/// What handling exit `reason` does, from `old_cpu` to `new_cpu` with
/// result `r`: the error of the failing reasons with nothing changed; for
/// CPUID the spoofed answer in the registers and RIP past CPUID; for RDMSR
/// zero in RAX and RDX, for WRMSR nothing but RIP; for a hypercall RIP
/// past VMCALL, the registers unchanged, #GP(0) queued for a privilege
/// mismatch and `Disable` for `disable`; for shutdown or failed entry a
/// fatal stop; for exceptions and NMIs nothing but a resume, re-raising an
/// NMI. The CPU's state never changes.
pub open spec fn spec_exit_effect<V: VcpuAccessGuestState>(
    old_cpu: PerCpu<V>,
    new_cpu: PerCpu<V>,
    reason: ExitReason,
    native: CpuIdResult,
    r: HvResult<ExitOutcome>,
) -> bool {
    &&& match spec_exit_error(reason) {
        Some(n) => r is Err && r->Err_0.spec_num() == n && new_cpu == old_cpu,
        None => r is Ok,
    }
    &&& new_cpu.state == old_cpu.state
    &&& reason == ExitReason::Cpuid ==> r == Ok::<ExitOutcome, HvError>(ExitOutcome::Resume { reraise_nmi: false })
        && new_cpu.vcpu.spec_regs() == regs_with_cpuid(
        old_cpu.vcpu.spec_regs(),
        spec_cpuid(old_cpu.vcpu.spec_regs().rax as u32, native, old_cpu.vcpu.spec_cr(4)),
    ) && new_cpu.vcpu.spec_fault_pending() == old_cpu.vcpu.spec_fault_pending() && rip_advanced(old_cpu, new_cpu, VM_EXIT_LEN_CPUID)
    &&& reason == ExitReason::MsrRead ==> r == Ok::<ExitOutcome, HvError>(ExitOutcome::Resume { reraise_nmi: false })
        && new_cpu.vcpu.spec_regs() == regs_with_msr_read(old_cpu.vcpu.spec_regs())
        && rip_advanced(old_cpu, new_cpu, VM_EXIT_LEN_RDMSR)
    &&& reason == ExitReason::MsrWrite ==> r == Ok::<ExitOutcome, HvError>(ExitOutcome::Resume { reraise_nmi: false })
        && new_cpu.vcpu.spec_regs() == old_cpu.vcpu.spec_regs() && rip_advanced(old_cpu, new_cpu, VM_EXIT_LEN_WRMSR)
    &&& reason == ExitReason::Hypercall ==> {
        let outcome = spec_hypercall_outcome(old_cpu.vcpu.spec_regs().rax as u32, old_cpu.vcpu.spec_privileged());
        &&& outcome == HypercallOutcome::Disable ==> r == Ok::<ExitOutcome, HvError>(ExitOutcome::Disable)
        &&& outcome != HypercallOutcome::Disable ==> r == Ok::<ExitOutcome, HvError>(ExitOutcome::Resume { reraise_nmi: false })
        &&& outcome == HypercallOutcome::Faulted ==> new_cpu.vcpu.spec_fault_pending()
        &&& new_cpu.vcpu.spec_regs() == old_cpu.vcpu.spec_regs()
        &&& rip_advanced(old_cpu, new_cpu, VM_EXIT_LEN_HYPERCALL)
    }
    &&& reason == ExitReason::Shutdown || reason == ExitReason::EntryFailure ==> r == Ok::<ExitOutcome, HvError>(ExitOutcome::Fatal)
        && new_cpu == old_cpu
    &&& (exists|v: u8| reason == ExitReason::Exception(v)) ==> r == Ok::<ExitOutcome, HvError>(ExitOutcome::Resume { reraise_nmi: reason == ExitReason::Exception(NMI_VECTOR) })
        && new_cpu == old_cpu
    &&& reason == ExitReason::Nmi ==> r == Ok::<ExitOutcome, HvError>(ExitOutcome::Resume { reraise_nmi: true })
        && new_cpu == old_cpu
}

/// Dispatches one VM exit. `native` is the processor's CPUID answer for the
/// guest's EAX and ECX, used only for a CPUID exit.
pub fn handle_exit<V: VcpuAccessGuestState>(
    cpu_data: &mut PerCpu<V>,
    reason: ExitReason,
    native: CpuIdResult,
    barrier: &mut DisableBarrier,
) -> (r: HvResult<ExitOutcome>)
    requires
        old(barrier).arrived < u32::MAX,
    ensures
        spec_exit_effect(*old(cpu_data), *final(cpu_data), reason, native, r),
{
    match reason {
        ExitReason::Exception(vector) => Ok(ExitOutcome::Resume { reraise_nmi: vector == NMI_VECTOR }),
        ExitReason::Nmi => Ok(ExitOutcome::Resume { reraise_nmi: true }),
        ExitReason::Cpuid => {
            handle_cpuid(&mut cpu_data.vcpu, native)?;
            Ok(ExitOutcome::Resume { reraise_nmi: false })
        },
        ExitReason::Hypercall => {
            cpu_data.vcpu.advance_rip(VM_EXIT_LEN_HYPERCALL)?;
            let regs = cpu_data.vcpu.regs();
            let call = HyperCall::new(regs.rax as u32, regs.rdi, regs.rsi);
            match call.hypercall(cpu_data, barrier)? {
                HypercallOutcome::Disable => Ok(ExitOutcome::Disable),
                _ => Ok(ExitOutcome::Resume { reraise_nmi: false }),
            }
        },
        ExitReason::MsrRead => {
            handle_msr_read(&mut cpu_data.vcpu)?;
            Ok(ExitOutcome::Resume { reraise_nmi: false })
        },
        ExitReason::MsrWrite => {
            handle_msr_write(&mut cpu_data.vcpu)?;
            Ok(ExitOutcome::Resume { reraise_nmi: false })
        },
        ExitReason::NestedPageFault(_) => Err(HvError::from_num(HvErrorNum::ENOSYS)),
        ExitReason::Shutdown => Ok(ExitOutcome::Fatal),
        ExitReason::EntryFailure => Ok(ExitOutcome::Fatal),
        ExitReason::Other(_) => Err(HvError::from_num(HvErrorNum::ENOSYS)),
        ExitReason::Unknown(_) => Err(HvError::from_num(HvErrorNum::EIO)),
    }
}

/// Handles one VM exit and applies the failure policy: a failed handler
/// on a hypercall exit returns the error code to the guest in RAX; on any
/// other exit it injects #GP(0).
pub fn vmexit_handler<V: VcpuAccessGuestState>(
    cpu_data: &mut PerCpu<V>,
    reason: ExitReason,
    native: CpuIdResult,
    barrier: &mut DisableBarrier,
) -> (r: ExitOutcome)
    requires
        old(barrier).arrived < u32::MAX,
    ensures
        final(cpu_data).state == old(cpu_data).state,
        spec_exit_error(reason) is None ==> spec_exit_effect(*old(cpu_data), *final(cpu_data), reason, native, Ok(r)),
        spec_exit_error(reason) is Some && !old(cpu_data).vcpu.spec_in_hypercall() ==> r == (ExitOutcome::Resume { reraise_nmi: false })
            && final(cpu_data).vcpu.spec_fault_pending()
            && final(cpu_data).vcpu.spec_rip() == old(cpu_data).vcpu.spec_rip(),
        spec_exit_error(reason) is Some && old(cpu_data).vcpu.spec_in_hypercall() ==> r == (ExitOutcome::Resume { reraise_nmi: false })
            && final(cpu_data).vcpu.spec_regs().rax == (-errno_value(spec_exit_error(reason)->Some_0)) as u64,
{
    match handle_exit(cpu_data, reason, native, barrier) {
        Ok(outcome) => outcome,
        Err(err) => {
            if cpu_data.vcpu.in_hypercall() {
                let code = err.code();
                set_return_val(&mut cpu_data.vcpu, code as u64);
            } else {
                let _ = cpu_data.fault();
            }
            ExitOutcome::Resume { reraise_nmi: false }
        },
    }
}

} // verus!
