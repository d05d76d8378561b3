//! Bring-up of all CPUs: the barriers that order the primary CPU's early
//! and late initialisation against the secondaries, and the error that
//! stops every waiter.

use vstd::prelude::*;

use crate::arch::page_table::{PTEntry, X86PagingInstr};
use crate::cell::{init as cell_init, root_cell_regions, Cell};
use crate::config::{config_mem_regions, config_regions_fit, spec_system_config, HvSystemConfig};
use crate::error::{errno_value, HvError, HvErrorNum, HvResult};
use crate::header::HvHeader;
use crate::memory::frame::FrameAllocator;
use crate::memory::init::{dma_wraps, frame_pool_fits, hv_layout_bad, hv_regions, init_frame_allocator, init_hv_page_table};
use crate::memory::mm::regions_buildable;
use crate::consts::HV_BASE;
use crate::memory::mm::MemorySet;
use crate::memory::paging::{GenericPTE, PagingInstr};

verus! {

/// The state that all CPUs share during bring-up.
#[derive(Clone, Copy)]
pub struct BootShared {
    pub inited_cpus: u32,
    pub init_early_ok: u32,
    pub init_late_ok: u32,
    pub error_num: i32,
}

/// Where a CPU is in bring-up.
#[derive(Debug, Clone, Copy, PartialEq, Eq, Structural)]
pub enum BootPhase {
    /// Waiting until every online CPU has entered.
    WaitAllEntered,
    /// The primary CPU, after its early initialisation.
    CpuInit,
    /// A secondary CPU waiting for the primary's early initialisation.
    WaitEarlyInit,
    /// Waiting until every online CPU has finished its own initialisation.
    WaitAllInited,
    /// The primary CPU, after its late initialisation.
    Activate,
    /// A secondary CPU waiting for the primary's late initialisation.
    WaitLateInit,
    /// Bring-up is over for this CPU.
    Done,
    /// Another CPU failed.
    Failed,
}

/// What a CPU does on its way through bring-up.
#[derive(Debug, Clone, Copy, PartialEq, Eq, Structural)]
pub enum BootAction {
    Spin,
    PrimaryInitEarly,
    InitCpu,
    PrimaryInitLate,
    ActivateVmm,
    Fail,
}

/// What a waiting CPU does next.
#[derive(Debug, Clone, Copy, PartialEq, Eq, Structural)]
pub enum WaitStep {
    /// Keep spinning.
    Spin,
    /// The condition no longer holds: go on.
    Ready,
    /// Another CPU failed.
    Failed,
}

/// Whether some CPU stored an error.
pub fn has_err(error_num: i32) -> (r: bool)
    ensures
        r == (error_num != 0),
{
    error_num != 0
}

/// One step of waiting while `condition` holds: an error stops the wait
/// first.
pub fn wait_for(error_num: i32, condition: bool) -> (r: WaitStep)
    ensures
        error_num != 0 ==> r == WaitStep::Failed,
        error_num == 0 && condition ==> r == WaitStep::Spin,
        error_num == 0 && !condition ==> r == WaitStep::Ready,
{
    if has_err(error_num) {
        WaitStep::Failed
    } else if condition {
        WaitStep::Spin
    } else {
        WaitStep::Ready
    }
}

/// One step of waiting until `counter` reaches `max_value`.
pub fn wait_for_counter(error_num: i32, counter: u32, max_value: u32) -> (r: WaitStep)
    ensures
        error_num != 0 ==> r == WaitStep::Failed,
        error_num == 0 && counter < max_value ==> r == WaitStep::Spin,
        error_num == 0 && counter >= max_value ==> r == WaitStep::Ready,
{
    wait_for(error_num, counter < max_value)
}

/// The result of a wait that ended: `EBUSY` if it ended on an error.
pub fn wait_result(step: WaitStep) -> (r: HvResult)
    requires
        step != WaitStep::Spin,
    ensures
        step == WaitStep::Ready <==> r is Ok,
        step == WaitStep::Failed ==> r is Err && r->Err_0.spec_num() == HvErrorNum::EBUSY,
{
    match step {
        WaitStep::Failed => Err(HvError::from_num(HvErrorNum::EBUSY)),
        _ => Ok(()),
    }
}

/// The next phase and the action of a CPU in `phase`: every CPU waits for
/// all to enter; the primary then runs its early initialisation while the
/// secondaries wait for it; each CPU initialises itself; all wait until
/// every CPU is initialised; the primary then runs its late initialisation
/// while the secondaries wait for it; then each activates. An error stored
/// by any CPU ends every wait.
pub open spec fn spec_boot_step(
    is_primary: bool,
    phase: BootPhase,
    error_num: i32,
    entered: u32,
    online: u32,
    shared: BootShared,
) -> (BootPhase, BootAction) {
    let waiting = |cond: bool| if error_num != 0 {
        WaitStep::Failed
    } else if cond {
        WaitStep::Spin
    } else {
        WaitStep::Ready
    };
    match phase {
        BootPhase::WaitAllEntered => match waiting(entered < online) {
            WaitStep::Spin => (phase, BootAction::Spin),
            WaitStep::Failed => (BootPhase::Failed, BootAction::Fail),
            WaitStep::Ready => if is_primary {
                (BootPhase::CpuInit, BootAction::PrimaryInitEarly)
            } else {
                (BootPhase::WaitEarlyInit, BootAction::Spin)
            },
        },
        BootPhase::WaitEarlyInit => match waiting(shared.init_early_ok < 1) {
            WaitStep::Spin => (phase, BootAction::Spin),
            WaitStep::Failed => (BootPhase::Failed, BootAction::Fail),
            WaitStep::Ready => (BootPhase::WaitAllInited, BootAction::InitCpu),
        },
        BootPhase::CpuInit => (BootPhase::WaitAllInited, BootAction::InitCpu),
        BootPhase::WaitAllInited => match waiting(shared.inited_cpus < online) {
            WaitStep::Spin => (phase, BootAction::Spin),
            WaitStep::Failed => (BootPhase::Failed, BootAction::Fail),
            WaitStep::Ready => if is_primary {
                (BootPhase::Activate, BootAction::PrimaryInitLate)
            } else {
                (BootPhase::WaitLateInit, BootAction::Spin)
            },
        },
        BootPhase::WaitLateInit => match waiting(shared.init_late_ok < 1) {
            WaitStep::Spin => (phase, BootAction::Spin),
            WaitStep::Failed => (BootPhase::Failed, BootAction::Fail),
            WaitStep::Ready => (BootPhase::Done, BootAction::ActivateVmm),
        },
        BootPhase::Activate => (BootPhase::Done, BootAction::ActivateVmm),
        BootPhase::Done => (phase, BootAction::Spin),
        BootPhase::Failed => (phase, BootAction::Fail),
    }
}

/// One step of a CPU's bring-up: see `spec_boot_step`.
pub fn boot_step(is_primary: bool, phase: BootPhase, entered: u32, online: u32, shared: &BootShared) -> (r: (BootPhase, BootAction))
    ensures
        r == spec_boot_step(is_primary, phase, shared.error_num, entered, online, *shared),
{
    let err = shared.error_num;
    match phase {
        BootPhase::WaitAllEntered => match wait_for(err, entered < online) {
            WaitStep::Spin => (phase, BootAction::Spin),
            WaitStep::Failed => (BootPhase::Failed, BootAction::Fail),
            WaitStep::Ready => if is_primary {
                (BootPhase::CpuInit, BootAction::PrimaryInitEarly)
            } else {
                (BootPhase::WaitEarlyInit, BootAction::Spin)
            },
        },
        BootPhase::WaitEarlyInit => match wait_for_counter(err, shared.init_early_ok, 1) {
            WaitStep::Spin => (phase, BootAction::Spin),
            WaitStep::Failed => (BootPhase::Failed, BootAction::Fail),
            WaitStep::Ready => (BootPhase::WaitAllInited, BootAction::InitCpu),
        },
        BootPhase::CpuInit => (BootPhase::WaitAllInited, BootAction::InitCpu),
        BootPhase::WaitAllInited => match wait_for_counter(err, shared.inited_cpus, online) {
            WaitStep::Spin => (phase, BootAction::Spin),
            WaitStep::Failed => (BootPhase::Failed, BootAction::Fail),
            WaitStep::Ready => if is_primary {
                (BootPhase::Activate, BootAction::PrimaryInitLate)
            } else {
                (BootPhase::WaitLateInit, BootAction::Spin)
            },
        },
        BootPhase::WaitLateInit => match wait_for_counter(err, shared.init_late_ok, 1) {
            WaitStep::Spin => (phase, BootAction::Spin),
            WaitStep::Failed => (BootPhase::Failed, BootAction::Fail),
            WaitStep::Ready => (BootPhase::Done, BootAction::ActivateVmm),
        },
        BootPhase::Activate => (BootPhase::Done, BootAction::ActivateVmm),
        BootPhase::Done => (phase, BootAction::Spin),
        BootPhase::Failed => (phase, BootAction::Fail),
    }
}

impl BootShared {
    pub fn new() -> (r: Self)
        ensures
            r.inited_cpus == 0 && r.init_early_ok == 0 && r.init_late_ok == 0 && r.error_num == 0,
    {
        BootShared { inited_cpus: 0, init_early_ok: 0, init_late_ok: 0, error_num: 0 }
    }

    /// The primary CPU publishes the end of its early initialisation.
    pub fn primary_init_early_done(&mut self)
        ensures
            final(self).init_early_ok == 1,
            final(self).error_num == old(self).error_num,
            final(self).inited_cpus == old(self).inited_cpus,
    {
        self.init_early_ok = 1;
    }

    /// The primary CPU's late initialisation: nothing to do but publish.
    pub fn primary_init_late(&mut self)
        ensures
            final(self).init_late_ok == 1,
            final(self).error_num == old(self).error_num,
            final(self).inited_cpus == old(self).inited_cpus,
    {
        self.init_late_ok = 1;
    }

    /// Records that one more CPU finished its own initialisation.
    pub fn cpu_inited(&mut self)
        requires
            old(self).inited_cpus < u32::MAX,
        ensures
            final(self).inited_cpus == old(self).inited_cpus + 1,
            final(self).error_num == old(self).error_num,
    {
        self.inited_cpus = self.inited_cpus + 1;
    }

    /// What a CPU hands back to the loader after its main path returned
    /// `result`: a failure stores its code for every waiter, and the code
    /// stored (zero if none) is returned.
    pub fn entry_result(&mut self, result: &HvResult) -> (r: i32)
        ensures
            result is Err ==> final(self).error_num == -errno_value(result->Err_0.spec_num()),
            result is Ok ==> final(self).error_num == old(self).error_num,
            r == final(self).error_num,
    {
        if let Err(e) = result {
            self.error_num = e.code();
        }
        self.error_num
    }
}

/// What the primary CPU builds before the others may go on: the frame
/// pool, the hypervisor's page table and the root cell.
pub struct EarlyInit<PTE: GenericPTE, I: PagingInstr> {
    pub allocator: FrameAllocator,
    pub hv_pt: MemorySet<PTEntry, X86PagingInstr>,
    pub root_cell: Cell<PTE, I>,
}

/// Everything early initialisation needs from the configuration bytes,
/// the header and the empty page, apart from enough free frames.
pub open spec fn early_init_feasible(header: HvHeader, b: Seq<u8>, empty_page_paddr: u64) -> bool {
    let cfg = spec_system_config(b);
    let regions = config_mem_regions(cfg.root_cell, b);
    &&& HvSystemConfig::parse_spec_ok(b)
    &&& frame_pool_fits(header, cfg)
    &&& config_regions_fit(cfg.root_cell, b)
    &&& !hv_layout_bad(header, cfg)
    &&& forall|i: int| 0 <= i < regions.len() ==> !dma_wraps(#[trigger] regions[i], (HV_BASE - cfg.hypervisor_memory.phys_start) as u64)
    &&& regions_buildable(hv_regions(header, cfg, regions))
    &&& regions_buildable(root_cell_regions(cfg, regions, empty_page_paddr))
}

/// The primary CPU's early initialisation: check the system
/// configuration in `config_bytes`, build the frame pool and the
/// hypervisor's page table, check the vendor's virtualisation support
/// (`hypervisor_feature`), build the root cell, and publish that early
/// initialisation is done.
pub fn primary_init_early<PTE: GenericPTE, I: PagingInstr>(
    shared: &mut BootShared,
    header: &HvHeader,
    config_bytes: &[u8],
    empty_page_paddr: u64,
    hypervisor_feature: HvResult,
) -> (r: HvResult<EarlyInit<PTE, I>>)
    ensures
        r is Ok ==> {
            &&& final(shared).init_early_ok == 1
            &&& r->Ok_0.allocator.wf()
            &&& r->Ok_0.hv_pt.wf()
            &&& r->Ok_0.root_cell.gpm.wf()
            &&& HvSystemConfig::parse_spec_ok(config_bytes@)
        },
        r is Err ==> final(shared).init_early_ok == old(shared).init_early_ok,
        hypervisor_feature is Err ==> r is Err,
        hypervisor_feature is Ok && early_init_feasible(*header, config_bytes@, empty_page_paddr) ==> r is Ok
            || r->Err_0.spec_num() == HvErrorNum::ENOMEM,
        !HvSystemConfig::parse_spec_ok(config_bytes@) ==> r is Err && r->Err_0.spec_num() == HvErrorNum::EINVAL,
        final(shared).error_num == old(shared).error_num,
{
    let sys_config = match HvSystemConfig::parse(config_bytes) {
        Ok(c) => c,
        Err(e) => return Err(e),
    };
    match sys_config.check() {
        Ok(()) => {},
        Err(e) => return Err(e),
    }
    let mut allocator = match init_frame_allocator(header, &sys_config) {
        Ok(a) => a,
        Err(e) => return Err(e),
    };
    let regions = match sys_config.root_cell.config().mem_regions(config_bytes) {
        Ok(r) => r,
        Err(e) => return Err(e),
    };
    proof {
        assert(regions@ =~= config_mem_regions(sys_config.root_cell, config_bytes@));
    }
    let hv_pt = match init_hv_page_table(header, &sys_config, &regions, &mut allocator) {
        Ok(ms) => ms,
        Err(e) => return Err(e),
    };
    let root_cell = match cell_init(hypervisor_feature, &sys_config, &regions, empty_page_paddr, &mut allocator) {
        Ok(c) => c,
        Err(e) => return Err(e),
    };
    shared.primary_init_early_done();
    Ok(EarlyInit { allocator, hv_pt, root_cell })
}

} // verus!
