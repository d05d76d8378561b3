//! Per-CPU data: the lifecycle of each physical CPU and the counters that
//! all CPUs share.

use vstd::prelude::*;

use crate::arch::context::{LinuxContext, MachineState, spec_capture, spec_restore, SAVED_LINUX_REGS};
use crate::arch::vmm::{set_return_val, VcpuAccessGuestState};
use crate::error::{errno_value, HvError, HvErrorNum, HvResult};

verus! {

/// Size of the per-CPU block: its data and its stack.
pub const PER_CPU_SIZE: u64 = 0x8_0000;

/// Whether the hypervisor runs under the CPU.
#[derive(Debug, Clone, Copy, PartialEq, Eq, Structural)]
pub enum CpuState {
    HvDisabled,
    HvEnabled,
}

/// The counters shared by all CPUs: how many entered, finished their own
/// initialisation, and run the hypervisor.
pub struct CpuCounters {
    max_cpus: u32,
    entered: u32,
    inited: u32,
    activated: u32,
    activations: Ghost<nat>,
    deactivations: Ghost<nat>,
}

impl CpuCounters {
    pub closed spec fn spec_max_cpus(&self) -> u32 {
        self.max_cpus
    }

    pub closed spec fn spec_entered(&self) -> u32 {
        self.entered
    }

    pub closed spec fn spec_inited(&self) -> u32 {
        self.inited
    }

    pub closed spec fn spec_activated(&self) -> u32 {
        self.activated
    }

    /// How many times a CPU entered guest mode.
    pub closed spec fn spec_activations(&self) -> nat {
        self.activations@
    }

    /// How many times a CPU left the hypervisor.
    pub closed spec fn spec_deactivations(&self) -> nat {
        self.deactivations@
    }

    /// No more CPUs enter than the header allows, no more finish or run
    /// the hypervisor than entered, and the active count is entries minus
    /// exits.
    pub open spec fn wf(&self) -> bool {
        &&& self.spec_entered() <= self.spec_max_cpus()
        &&& self.spec_inited() <= self.spec_entered()
        &&& self.spec_activated() <= self.spec_entered()
        &&& self.spec_activated() == self.spec_activations() - self.spec_deactivations()
        &&& self.spec_deactivations() <= self.spec_activations()
    }

    /// Counters for up to `max_cpus` CPUs, all zero.
    pub fn new(max_cpus: u32) -> (r: Self)
        ensures
            r.wf(),
            r.spec_max_cpus() == max_cpus,
            r.spec_entered() == 0 && r.spec_inited() == 0 && r.spec_activated() == 0,
    {
        CpuCounters {
            max_cpus,
            entered: 0,
            inited: 0,
            activated: 0,
            activations: Ghost(0),
            deactivations: Ghost(0),
        }
    }

    pub fn entered_cpus(&self) -> (r: u32)
        ensures
            r == self.spec_entered(),
    {
        self.entered
    }

    pub fn inited_cpus(&self) -> (r: u32)
        ensures
            r == self.spec_inited(),
    {
        self.inited
    }

    pub fn activated_cpus(&self) -> (r: u32)
        ensures
            r == self.spec_activated(),
    {
        self.activated
    }

    /// Claims the next per-CPU slot; fails with `EINVAL` once `max_cpus`
    /// CPUs have entered.
    pub fn enter(&mut self) -> (r: HvResult<u32>)
        requires
            old(self).wf(),
        ensures
            final(self).wf(),
            final(self).spec_max_cpus() == old(self).spec_max_cpus(),
            final(self).spec_inited() == old(self).spec_inited(),
            final(self).spec_activated() == old(self).spec_activated(),
            old(self).spec_entered() < old(self).spec_max_cpus() ==> r is Ok && r->Ok_0 == old(self).spec_entered()
                && final(self).spec_entered() == old(self).spec_entered() + 1,
            old(self).spec_entered() >= old(self).spec_max_cpus() ==> r is Err && r->Err_0.spec_num()
                == HvErrorNum::EINVAL && final(self).spec_entered() == old(self).spec_entered(),
    {
        if self.entered >= self.max_cpus {
            return Err(HvError::from_num(HvErrorNum::EINVAL));
        }
        let id = self.entered;
        self.entered = self.entered + 1;
        Ok(id)
    }

    /// Records that one more entered CPU finished its initialisation.
    pub fn mark_inited(&mut self)
        requires
            old(self).wf(),
            old(self).spec_inited() < old(self).spec_entered(),
        ensures
            final(self).wf(),
            final(self).spec_inited() == old(self).spec_inited() + 1,
            final(self).spec_entered() == old(self).spec_entered(),
            final(self).spec_max_cpus() == old(self).spec_max_cpus(),
            final(self).spec_activated() == old(self).spec_activated(),
    {
        self.inited = self.inited + 1;
    }

    /// Records a CPU entering guest mode.
    pub fn activate(&mut self)
        requires
            old(self).wf(),
            old(self).spec_activated() < old(self).spec_entered(),
        ensures
            final(self).wf(),
            final(self).spec_activated() == old(self).spec_activated() + 1,
            final(self).spec_activations() == old(self).spec_activations() + 1,
            final(self).spec_deactivations() == old(self).spec_deactivations(),
            final(self).spec_entered() == old(self).spec_entered(),
            final(self).spec_inited() == old(self).spec_inited(),
            final(self).spec_max_cpus() == old(self).spec_max_cpus(),
    {
        self.activated = self.activated + 1;
        proof {
            self.activations@ = self.activations@ + 1;
        }
    }

    /// Records a CPU leaving the hypervisor.
    pub fn deactivate(&mut self)
        requires
            old(self).wf(),
            old(self).spec_activated() > 0,
        ensures
            final(self).wf(),
            final(self).spec_activated() == old(self).spec_activated() - 1,
            final(self).spec_deactivations() == old(self).spec_deactivations() + 1,
            final(self).spec_activations() == old(self).spec_activations(),
            final(self).spec_entered() == old(self).spec_entered(),
            final(self).spec_inited() == old(self).spec_inited(),
            final(self).spec_max_cpus() == old(self).spec_max_cpus(),
    {
        self.activated = self.activated - 1;
        proof {
            self.deactivations@ = self.deactivations@ + 1;
        }
    }
}

/// The data of one physical CPU.
pub struct PerCpu<V: VcpuAccessGuestState> {
    pub self_vaddr: u64,
    pub id: u32,
    pub state: CpuState,
    pub vcpu: V,
    pub linux: LinuxContext,
}

impl<V: VcpuAccessGuestState> PerCpu<V> {
    /// The address of this block.
    pub closed spec fn spec_vaddr(&self) -> u64 {
        self.self_vaddr
    }

    /// The saved host context.
    pub closed spec fn spec_linux(&self) -> LinuxContext {
        self.linux
    }

    /// The block of CPU `id` in the per-CPU array at `array_base`.
    pub fn new(id: u32, array_base: u64, vcpu: V, linux: LinuxContext) -> (r: Self)
        requires
            array_base + (id as int + 1) * PER_CPU_SIZE <= u64::MAX,
        ensures
            r.id == id,
            r.state == CpuState::HvDisabled,
            r.spec_vaddr() == array_base + id * PER_CPU_SIZE,
            r.vcpu == vcpu,
            r.spec_linux() == linux,
    {
        PerCpu { self_vaddr: array_base + id as u64 * PER_CPU_SIZE, id, state: CpuState::HvDisabled, vcpu, linux }
    }

    /// The top of this CPU's hypervisor stack, at the end of its block.
    pub fn stack_top(&self) -> (r: u64)
        requires
            self.spec_vaddr() + PER_CPU_SIZE <= u64::MAX,
        ensures
            r == self.spec_vaddr() + PER_CPU_SIZE - 8,
    {
        self.self_vaddr + PER_CPU_SIZE - 8
    }

    /// The saved host context.
    pub fn linux(&self) -> (r: &LinuxContext)
        ensures
            *r == self.spec_linux(),
    {
        &self.linux
    }

    /// Captures the host context from the loader's stack and the CPU, and
    /// takes over the constructed vCPU: the CPU is then enabled.
    pub fn init(&mut self, linux_sp: u64, regs: &[u64], cpu: &MachineState, vcpu: V)
        requires
            regs@.len() == SAVED_LINUX_REGS,
            linux_sp + 8 * SAVED_LINUX_REGS <= u64::MAX,
        ensures
            final(self).spec_linux() == spec_capture(linux_sp, regs@, *cpu),
            final(self).state == CpuState::HvEnabled,
            final(self).vcpu == vcpu,
            final(self).id == old(self).id,
            final(self).spec_vaddr() == old(self).spec_vaddr(),
    {
        self.state = CpuState::HvDisabled;
        self.linux = LinuxContext::load_from(linux_sp, regs, cpu);
        self.vcpu = vcpu;
        self.state = CpuState::HvEnabled;
    }

    /// Counts this CPU as running the hypervisor, right before it enters
    /// guest mode.
    pub fn activate_vmm(&mut self, counters: &mut CpuCounters)
        requires
            old(counters).wf(),
            old(counters).spec_activated() < old(counters).spec_entered(),
        ensures
            final(counters).wf(),
            final(counters).spec_activated() == old(counters).spec_activated() + 1,
            final(counters).spec_entered() == old(counters).spec_entered(),
            final(self).state == old(self).state,
            final(self).vcpu == old(self).vcpu,
    {
        counters.activate();
    }

    /// Leaves the hypervisor: uncounts the CPU, hands `ret_code` to the
    /// guest, reads the guest state back into the host context and restores
    /// the host's system registers. The CPU is then disabled.
    pub fn deactivate_vmm(&mut self, ret_code: u64, counters: &mut CpuCounters, cpu: &mut MachineState)
        requires
            old(counters).wf(),
            old(counters).spec_activated() > 0,
        ensures
            final(counters).wf(),
            final(counters).spec_activated() == old(counters).spec_activated() - 1,
            final(counters).spec_entered() == old(counters).spec_entered(),
            final(self).state == CpuState::HvDisabled,
            final(self).vcpu.spec_regs().rax == ret_code,
            final(self).vcpu.spec_rip() == old(self).vcpu.spec_rip(),
            final(self).spec_linux() == final(self).vcpu.spec_load_guest(old(self).spec_linux()),
            *final(cpu) == spec_restore(final(self).spec_linux(), *old(cpu)),
    {
        counters.deactivate();
        set_return_val(&mut self.vcpu, ret_code);
        self.vcpu.load_guest_context(&mut self.linux);
        self.linux.restore(cpu);
        self.state = CpuState::HvDisabled;
    }

    /// Injects #GP(0) into the guest.
    pub fn fault(&mut self) -> (r: HvResult)
        ensures
            r is Ok,
            final(self).vcpu.spec_fault_pending(),
            final(self).vcpu.spec_regs() == old(self).vcpu.spec_regs(),
            final(self).vcpu.spec_rip() == old(self).vcpu.spec_rip(),
            final(self).state == old(self).state,
            final(self).id == old(self).id,
            final(self).self_vaddr == old(self).self_vaddr,
            final(self).linux == old(self).linux,
    {
        self.vcpu.inject_fault()
    }
}

/// The best effort of the panic path on the current CPU: if the hypervisor
/// is enabled, deactivate it, handing the guest `EIO` if it was in a
/// hypercall and 0 otherwise; if it is not, fail with `EIO`.
pub fn try_handle_panic<V: VcpuAccessGuestState>(cpu_data: &mut PerCpu<V>, counters: &mut CpuCounters, cpu: &mut MachineState) -> (r: HvResult)
    requires
        old(counters).wf(),
        old(cpu_data).state == CpuState::HvEnabled ==> old(counters).spec_activated() > 0,
    ensures
        final(counters).wf(),
        old(cpu_data).state == CpuState::HvDisabled ==> r is Err && r->Err_0.spec_num() == HvErrorNum::EIO
            && *final(cpu_data) == *old(cpu_data),
        old(cpu_data).state == CpuState::HvEnabled ==> r is Ok && final(cpu_data).state == CpuState::HvDisabled
            && final(counters).spec_activated() == old(counters).spec_activated() - 1
            && final(cpu_data).vcpu.spec_regs().rax == if old(cpu_data).vcpu.spec_in_hypercall() {
            (-errno_value(HvErrorNum::EIO)) as u64
        } else {
            0u64
        },
{
    let ret_code: u64 = if cpu_data.state != CpuState::HvDisabled && cpu_data.vcpu.in_hypercall() {
        HvError::from_num(HvErrorNum::EIO).code() as u64
    } else {
        0
    };
    match cpu_data.state {
        CpuState::HvEnabled => {
            cpu_data.deactivate_vmm(ret_code, counters, cpu);
            Ok(())
        },
        _ => Err(HvError::from_num(HvErrorNum::EIO)),
    }
}

} // verus!
