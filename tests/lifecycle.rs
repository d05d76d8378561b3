use rvm::arch::context::{DescriptorTablePointer, LinuxContext, MachineState, Segment};
use rvm::arch::vmexit::{handle_exit, vmexit_handler, ExitOutcome, ExitReason};
use rvm::arch::vmm::{cpuid_spoof, CpuIdResult, VcpuAccessGuestState};
use rvm::arch::vmx::{self, CrFixed};
use rvm::boot::{boot_step, has_err, wait_for, wait_for_counter, wait_result, BootAction, BootPhase, BootShared, WaitStep};
use rvm::error::{HvError, HvErrorNum};
use rvm::hypercall::DisableBarrier;
use rvm::percpu::{try_handle_panic, CpuCounters, CpuState, PerCpu};

fn seg(selector: u16) -> Segment {
    Segment { selector, base: 0x100 * selector as u64, limit: 0xffff, access_rights: 0x93 }
}

fn machine() -> MachineState {
    MachineState {
        es: seg(0),
        cs: Segment { selector: 0x10, base: 0, limit: 0xffff_ffff, access_rights: 0xa09b },
        ss: seg(0x18),
        ds: seg(0),
        fs: seg(0),
        gs: seg(0),
        tr: seg(0x40),
        gdtr: DescriptorTablePointer { limit: 0x7f, base: 0xffff_fe00_0000_1000 },
        idtr: DescriptorTablePointer { limit: 0xfff, base: 0xffff_fe00_0000_0000 },
        cr0: 0x8005_0033,
        cr3: 0x1234_5000,
        cr4: 0x0004_06f0,
        efer: 0xd01,
        star: 1,
        lstar: 2,
        cstar: 3,
        fmask: 4,
        kernel_gsbase: 5,
        pat: 0x0007_0406_0007_0406,
        mtrr_def_type: 0xc00,
        fs_base: 0x7fff_0000,
        gs_base: 0xffff_8880_0000_0000,
    }
}

const STACK: [u64; 8] = [0xffff_8880_1000_0000, 15, 14, 13, 12, 3, 5, 0xffff_ffff_8100_1000];

fn fixed() -> CrFixed {
    CrFixed { cr0_fixed0: 0x8000_0021, cr0_fixed1: 0xffff_ffff, cr4_fixed0: 0x2000, cr4_fixed1: 0x3f_ffff }
}

fn bring_up(counters: &mut CpuCounters, shared: &mut BootShared) -> PerCpu<vmx::Vcpu> {
    let id = counters.enter().unwrap();
    let cpu_state = machine();
    let linux = LinuxContext::load_from(0xffff_c900_0000_0f00, &STACK, &cpu_state);
    let placeholder = vmx::Vcpu::new(&linux, &fixed(), 0, 0, 0);
    let mut cpu = PerCpu::new(id, 0xffff_ff00_0010_0000, placeholder, linux);
    let vcpu = vmx::Vcpu::new(&linux, &fixed(), 0x10, 0, 0);
    cpu.init(0xffff_c900_0000_0f00, &STACK, &cpu_state, vcpu);
    counters.mark_inited();
    shared.cpu_inited();
    cpu
}

#[test]
fn bring_up_of_four_cpus() {
    let mut counters = CpuCounters::new(4);
    let mut shared = BootShared::new();
    assert_eq!(wait_for(shared.error_num, counters.entered_cpus() < 4), WaitStep::Spin);
    let mut cpus = Vec::new();
    for _ in 0..4 {
        cpus.push(bring_up(&mut counters, &mut shared));
        if cpus.len() == 1 {
            assert_eq!(wait_for_counter(shared.error_num, shared.init_early_ok, 1), WaitStep::Spin);
            shared.primary_init_early_done();
        }
    }
    assert_eq!(counters.entered_cpus(), 4);
    assert_eq!(wait_for_counter(shared.error_num, shared.init_early_ok, 1), WaitStep::Ready);
    assert_eq!(wait_for_counter(shared.error_num, shared.inited_cpus, 4), WaitStep::Ready);
    shared.primary_init_late();
    assert_eq!(wait_for_counter(shared.error_num, shared.init_late_ok, 1), WaitStep::Ready);
    for cpu in cpus.iter_mut() {
        assert_eq!(cpu.state, CpuState::HvEnabled);
        cpu.activate_vmm(&mut counters);
    }
    assert_eq!(counters.activated_cpus(), 4);
    assert_eq!(shared.error_num, 0);
    let mut barrier = DisableBarrier::new();
    for cpu in cpus.iter_mut() {
        let mut regs = cpu.vcpu.regs();
        regs.rax = 1;
        cpu.vcpu.set_regs(regs);
        handle_exit(cpu, ExitReason::Cpuid, CpuIdResult { eax: 0x906ea, ebx: 0, ecx: 0x7ffa_fbff, edx: 0 }, &mut barrier).unwrap();
        let ecx = cpu.vcpu.regs().rcx as u32;
        assert_ne!(ecx & (1 << 31), 0);
        assert_eq!(ecx & (1 << 5), 0);
    }
    assert!(counters.enter().is_err());
}

#[test]
fn disable_deactivates_every_cpu() {
    let mut counters = CpuCounters::new(4);
    let mut shared = BootShared::new();
    let mut cpus = Vec::new();
    for _ in 0..4 {
        let mut cpu = bring_up(&mut counters, &mut shared);
        cpu.activate_vmm(&mut counters);
        cpus.push(cpu);
    }
    let mut barrier = DisableBarrier::new();
    let mut outcomes = Vec::new();
    for cpu in cpus.iter_mut() {
        let mut regs = cpu.vcpu.regs();
        regs.rax = 0;
        cpu.vcpu.set_regs(regs);
        let rip = cpu.vcpu.instr_pointer();
        outcomes.push((vmexit_handler(cpu, ExitReason::Hypercall, CpuIdResult { eax: 0, ebx: 0, ecx: 0, edx: 0 }, &mut barrier), rip));
    }
    assert!(barrier.all_arrived(counters.activated_cpus()));
    for (cpu, (outcome, rip)) in cpus.iter_mut().zip(outcomes) {
        assert_eq!(outcome, ExitOutcome::Disable);
        let mut state = machine();
        cpu.deactivate_vmm(0, &mut counters, &mut state);
        assert_eq!(cpu.state, CpuState::HvDisabled);
        assert_eq!(cpu.vcpu.regs().rax, 0);
        assert_eq!(cpu.linux().rip, rip + 3);
    }
    assert_eq!(counters.activated_cpus(), 0);
}

#[test]
fn counters_keep_their_order() {
    let mut c = CpuCounters::new(2);
    assert_eq!(c.enter().unwrap(), 0);
    assert_eq!(c.enter().unwrap(), 1);
    assert_eq!(c.enter().unwrap_err().num(), HvErrorNum::EINVAL);
    c.mark_inited();
    assert!(c.inited_cpus() <= c.entered_cpus());
    c.activate();
    c.activate();
    c.deactivate();
    assert_eq!(c.activated_cpus(), 1);
}

#[test]
fn capture_after_restore_gives_context_back() {
    let cpu = machine();
    let ctx = LinuxContext::load_from(0x8000, &STACK, &cpu);
    assert_eq!(ctx.rsp, 0x8040);
    assert_eq!((ctx.rip, ctx.rbx, ctx.rbp, ctx.r12, ctx.r15), (STACK[7], 3, 5, 12, 15));
    assert_eq!(ctx.gs.base, STACK[0]);
    assert_eq!(ctx.fs.base, 0x7fff_0000);
    let mut other = machine();
    other.efer = 0;
    other.cr0 = 0;
    other.cs = seg(0x8);
    other.fs_base = 0;
    ctx.restore(&mut other);
    let again = LinuxContext::load_from(0x8000, &STACK, &other);
    assert_eq!(again, ctx);
}

#[test]
fn boot_waits_stop_on_error() {
    assert!(!has_err(0));
    assert!(has_err(-16));
    assert_eq!(wait_for(-12, true), WaitStep::Failed);
    assert_eq!(wait_result(WaitStep::Failed).unwrap_err().num(), HvErrorNum::EBUSY);
    assert!(wait_result(WaitStep::Ready).is_ok());
    let mut shared = BootShared::new();
    let failed: Result<(), HvError> = Err(HvError::from_num(HvErrorNum::ENOMEM));
    assert_eq!(shared.entry_result(&failed), -12);
    assert_eq!(shared.entry_result(&Ok(())), -12);
    assert_eq!(wait_for_counter(shared.error_num, 0, 4), WaitStep::Failed);
}

#[test]
fn panic_path_deactivates_enabled_cpu() {
    let mut counters = CpuCounters::new(1);
    let mut shared = BootShared::new();
    let mut cpu = bring_up(&mut counters, &mut shared);
    cpu.activate_vmm(&mut counters);
    cpu.vcpu.vmcs.exit_reason = 18;
    let mut state = machine();
    try_handle_panic(&mut cpu, &mut counters, &mut state).unwrap();
    assert_eq!(cpu.state, CpuState::HvDisabled);
    assert_eq!(cpu.vcpu.regs().rax as i64, -5);
    assert_eq!(counters.activated_cpus(), 0);
    assert_eq!(try_handle_panic(&mut cpu, &mut counters, &mut state).unwrap_err().num(), HvErrorNum::EIO);
}

#[test]
fn stack_top_is_end_of_block() {
    let l = LinuxContext::load_from(0x8000, &STACK, &machine());
    let cpu = PerCpu::new(2, 0x10_0000, vmx::Vcpu::new(&l, &fixed(), 0, 0, 0), l);
    assert_eq!(cpu.stack_top(), 0x10_0000 + 3 * 0x8_0000 - 8);
    let _ = cpuid_spoof(1, CpuIdResult { eax: 0, ebx: 0, ecx: 0, edx: 0 }, 0);
}

#[test]
fn bring_up_steps_order_primary_and_secondary() {
    let mut shared = BootShared::new();
    assert_eq!(boot_step(false, BootPhase::WaitAllEntered, 1, 2, &shared), (BootPhase::WaitAllEntered, BootAction::Spin));
    let (p, a) = boot_step(true, BootPhase::WaitAllEntered, 2, 2, &shared);
    assert_eq!((p, a), (BootPhase::CpuInit, BootAction::PrimaryInitEarly));
    let (s, b) = boot_step(false, BootPhase::WaitAllEntered, 2, 2, &shared);
    assert_eq!((s, b), (BootPhase::WaitEarlyInit, BootAction::Spin));
    assert_eq!(boot_step(false, s, 2, 2, &shared).1, BootAction::Spin);
    shared.primary_init_early_done();
    assert_eq!(boot_step(false, s, 2, 2, &shared), (BootPhase::WaitAllInited, BootAction::InitCpu));
    assert_eq!(boot_step(true, p, 2, 2, &shared), (BootPhase::WaitAllInited, BootAction::InitCpu));
    shared.cpu_inited();
    assert_eq!(boot_step(true, BootPhase::WaitAllInited, 2, 2, &shared).1, BootAction::Spin);
    shared.cpu_inited();
    assert_eq!(boot_step(true, BootPhase::WaitAllInited, 2, 2, &shared), (BootPhase::Activate, BootAction::PrimaryInitLate));
    assert_eq!(boot_step(false, BootPhase::WaitAllInited, 2, 2, &shared), (BootPhase::WaitLateInit, BootAction::Spin));
    shared.primary_init_late();
    assert_eq!(boot_step(false, BootPhase::WaitLateInit, 2, 2, &shared), (BootPhase::Done, BootAction::ActivateVmm));
    assert_eq!(boot_step(true, BootPhase::Activate, 2, 2, &shared), (BootPhase::Done, BootAction::ActivateVmm));
    shared.error_num = -12;
    assert_eq!(boot_step(false, BootPhase::WaitLateInit, 2, 2, &shared), (BootPhase::Failed, BootAction::Fail));
}
