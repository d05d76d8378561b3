//! Guest-to-hypervisor calls: decoding, the privilege rule and `disable`.

use vstd::prelude::*;

use crate::arch::vmm::VcpuAccessGuestState;
use crate::error::HvResult;
use crate::percpu::PerCpu;

verus! {

/// The recognised hypercall codes.
#[derive(Debug, Eq, PartialEq, Copy, Clone, Structural)]
pub enum HyperCallCode {
    HypervisorDisable,
}

impl HyperCallCode {
    /// The number of each code.
    pub open spec fn spec_value(self) -> u32 {
        match self {
            HyperCallCode::HypervisorDisable => 0,
        }
    }

    /// The code numbered `code`, or `code` itself if none is.
    pub fn try_from(code: u32) -> (r: Result<Self, u32>)
        ensures
            code == 0 ==> r == Ok::<HyperCallCode, u32>(HyperCallCode::HypervisorDisable),
            code != 0 ==> r == Err::<HyperCallCode, u32>(code),
    {
        if code == 0 {
            Ok(HyperCallCode::HypervisorDisable)
        } else {
            Err(code)
        }
    }

    /// Codes whose bits 30 and 31 are clear are privileged.
    pub open spec fn spec_is_privileged(self) -> bool {
        (self.spec_value() >> 30u32) & 3 == 0
    }

    pub fn is_privileged(self) -> (r: bool)
        ensures
            r == self.spec_is_privileged(),
    {
        let v: u32 = match self {
            HyperCallCode::HypervisorDisable => 0,
        };
        (v >> 30u32) & 3 == 0
    }
}

/// Whether the `disable` hypercall is privileged (it is: code 0).
pub proof fn lemma_disable_is_privileged()
    ensures
        HyperCallCode::HypervisorDisable.spec_is_privileged(),
{
    assert((0u32 >> 30u32) & 3 == 0) by (bit_vector);
}

/// How a hypercall ended for the calling CPU.
#[derive(Debug, Eq, PartialEq, Copy, Clone, Structural)]
pub enum HypercallOutcome {
    /// The code is not recognised; the guest continues.
    Unsupported,
    /// The caller's privilege did not match the code's; #GP(0) is queued.
    Faulted,
    /// `disable`: the caller has joined the barrier and must deactivate once
    /// every activated CPU has.
    Disable,
}

/// The barrier of the `disable` hypercall: the number of CPUs that have
/// entered its handler.
pub struct DisableBarrier {
    pub arrived: u32,
}

impl DisableBarrier {
    pub fn new() -> (r: Self)
        ensures
            r.arrived == 0,
    {
        DisableBarrier { arrived: 0 }
    }

    /// One more CPU has entered the handler.
    pub fn arrive(&mut self)
        requires
            old(self).arrived < u32::MAX,
        ensures
            final(self).arrived == old(self).arrived + 1,
    {
        self.arrived = self.arrived + 1;
    }

    /// Whether every activated CPU has entered the handler.
    pub fn all_arrived(&self, activated_cpus: u32) -> (r: bool)
        ensures
            r == (self.arrived >= activated_cpus),
    {
        self.arrived >= activated_cpus
    }
}

/// A decoded hypercall: code in RAX, arguments in RDI and RSI.
pub struct HyperCall {
    pub code: u32,
    pub arg0: u64,
    pub arg1: u64,
}

/// What a hypercall does, given whether the guest is privileged.
pub open spec fn spec_hypercall_outcome(code: u32, privileged: bool) -> HypercallOutcome {
    if code != 0 {
        HypercallOutcome::Unsupported
    } else if !privileged {
        HypercallOutcome::Faulted
    } else {
        HypercallOutcome::Disable
    }
}

impl HyperCall {
    pub fn new(code: u32, arg0: u64, arg1: u64) -> (r: Self)
        ensures
            r.code == code && r.arg0 == arg0 && r.arg1 == arg1,
    {
        HyperCall { code, arg0, arg1 }
    }

    /// Runs the hypercall on `cpu_data`. A code whose privilege does not
    /// match the guest's faults the guest; `disable` joins the barrier.
    pub fn hypercall<V: VcpuAccessGuestState>(&self, cpu_data: &mut PerCpu<V>, barrier: &mut DisableBarrier) -> (r: HvResult<HypercallOutcome>)
        requires
            old(barrier).arrived < u32::MAX,
        ensures
            r is Ok,
            r->Ok_0 == spec_hypercall_outcome(self.code, old(cpu_data).vcpu.spec_privileged()),
            r->Ok_0 == HypercallOutcome::Faulted ==> final(cpu_data).vcpu.spec_fault_pending()
                && final(cpu_data).vcpu.spec_regs() == old(cpu_data).vcpu.spec_regs()
                && final(cpu_data).vcpu.spec_rip() == old(cpu_data).vcpu.spec_rip()
                && final(barrier).arrived == old(barrier).arrived,
            r->Ok_0 == HypercallOutcome::Unsupported ==> *final(cpu_data) == *old(cpu_data)
                && final(barrier).arrived == old(barrier).arrived,
            r->Ok_0 == HypercallOutcome::Disable ==> *final(cpu_data) == *old(cpu_data)
                && final(barrier).arrived == old(barrier).arrived + 1,
            final(cpu_data).state == old(cpu_data).state,
    {
        let code = match HyperCallCode::try_from(self.code) {
            Ok(code) => code,
            Err(_) => return Ok(HypercallOutcome::Unsupported),
        };
        proof {
            lemma_disable_is_privileged();
        }
        if cpu_data.vcpu.guest_is_privileged() {
            if !code.is_privileged() {
                cpu_data.fault()?;
                return Ok(HypercallOutcome::Faulted);
            }
        } else if code.is_privileged() {
            cpu_data.fault()?;
            return Ok(HypercallOutcome::Faulted);
        }
        match code {
            HyperCallCode::HypervisorDisable => Ok(self.hypervisor_disable(barrier)),
        }
    }

    /// `disable`: the caller joins the barrier; once every activated CPU
    /// has, each deactivates.
    pub fn hypervisor_disable(&self, barrier: &mut DisableBarrier) -> (r: HypercallOutcome)
        requires
            old(barrier).arrived < u32::MAX,
        ensures
            r == HypercallOutcome::Disable,
            final(barrier).arrived == old(barrier).arrived + 1,
    {
        barrier.arrive();
        HypercallOutcome::Disable
    }
}

} // verus!
