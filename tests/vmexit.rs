use rvm::arch::context::{DescriptorTablePointer, GeneralRegisters, LinuxContext, Segment};
use rvm::arch::svm;
use rvm::arch::vmexit::{handle_exit, vmexit_handler, ExitOutcome, ExitReason};
use rvm::arch::vmm::{cpuid_spoof, needs_native_cpuid, CpuIdResult, VcpuAccessGuestState};
use rvm::arch::vmx::{self, CrFixed, INTR_INFO_GP_WITH_ERROR};
use rvm::error::HvErrorNum;
use rvm::hypercall::{DisableBarrier, HyperCall, HyperCallCode, HypercallOutcome};
use rvm::percpu::{CpuCounters, CpuState, PerCpu};

fn seg(selector: u16, ar: u32) -> Segment {
    Segment { selector, base: 0, limit: 0xffff_ffff, access_rights: ar }
}

fn linux() -> LinuxContext {
    LinuxContext {
        rsp: 0xffff_8000_0010_0000,
        rip: 0xffff_ffff_8100_0000,
        r15: 15,
        r14: 14,
        r13: 13,
        r12: 12,
        rbx: 3,
        rbp: 5,
        es: seg(0, 0x10000),
        cs: seg(0x10, 0xa09b),
        ss: seg(0x18, 0xc093),
        ds: seg(0, 0x10000),
        fs: seg(0, 0x10000),
        gs: seg(0, 0x10000),
        tss: seg(0x40, 0x8b),
        gdt: DescriptorTablePointer { limit: 0x7f, base: 0xffff_fe00_0000_1000 },
        idt: DescriptorTablePointer { limit: 0xfff, base: 0xffff_fe00_0000_0000 },
        cr0: 0x8005_0033,
        cr3: 0x1234_5000,
        cr4: 0x0004_06f0,
        efer: 0xd01,
        star: 0,
        lstar: 0,
        cstar: 0,
        fmask: 0,
        kernel_gsbase: 0,
        pat: 0x0007_0406_0007_0406,
        mtrr_def_type: 0,
    }
}

fn fixed() -> CrFixed {
    CrFixed { cr0_fixed0: 0x8000_0021, cr0_fixed1: 0xffff_ffff, cr4_fixed0: 0x2000, cr4_fixed1: 0x3f_ffff }
}

fn vmx_cpu(id: u32) -> PerCpu<vmx::Vcpu> {
    let l = linux();
    let vcpu = vmx::Vcpu::new(&l, &fixed(), 0x10, 0, 0);
    let mut cpu = PerCpu::new(id, 0xffff_ff00_0010_0000, vcpu, l);
    cpu.state = CpuState::HvEnabled;
    cpu
}

fn svm_cpu(cpl: u8) -> PerCpu<svm::Vcpu> {
    let mut vcpu = svm::Vcpu::new(0x9000, 0xffff_ff00_0017_fff8, 0xa000);
    vcpu.vmcb.save.cpl = cpl;
    vcpu.vmcb.save.rip = 0x1000;
    let mut cpu = PerCpu::new(0, 0xffff_ff00_0010_0000, vcpu, linux());
    cpu.state = CpuState::HvEnabled;
    cpu
}

const NATIVE: CpuIdResult = CpuIdResult { eax: 0x000a_0655, ebx: 0x0010_0800, ecx: 0x7ffa_fbbf, edx: 0xbfeb_fbff };

#[test]
fn cpuid_hypervisor_leaf_signature() {
    let r = cpuid_spoof(0x4000_0000, NATIVE, 0);
    assert_eq!(r.eax, 0x4000_0001);
    let mut sig = Vec::new();
    for w in [r.ebx, r.ecx, r.edx] {
        sig.extend_from_slice(&w.to_le_bytes());
    }
    assert_eq!(&sig[..], b"RVMRVMRVMRVM");
    assert_eq!(cpuid_spoof(0x4000_0001, NATIVE, 0), CpuIdResult { eax: 0, ebx: 0, ecx: 0, edx: 0 });
    assert!(!needs_native_cpuid(0x4000_0000));
    assert!(needs_native_cpuid(1));
}

#[test]
fn cpuid_leaf1_hides_vmx_and_shows_hypervisor() {
    let r = cpuid_spoof(1, NATIVE, 0);
    assert_eq!(r.ecx & (1 << 5), 0);
    assert_ne!(r.ecx & (1 << 31), 0);
    assert_eq!(r.ecx & (1 << 27), 0);
    assert_eq!((r.eax, r.ebx, r.edx), (NATIVE.eax, NATIVE.ebx, NATIVE.edx));
    let with_osxsave = cpuid_spoof(1, NATIVE, 1 << 18);
    assert_ne!(with_osxsave.ecx & (1 << 27), 0);
    let amd = cpuid_spoof(0x8000_0001, CpuIdResult { eax: 0, ebx: 0, ecx: 0xffff_ffff, edx: 7 }, 0);
    assert_eq!(amd.ecx, 0xffff_fffb);
    assert_eq!(cpuid_spoof(7, NATIVE, 0), NATIVE);
}

#[test]
fn cpuid_exit_updates_registers_and_rip() {
    let mut cpu = vmx_cpu(0);
    let mut regs = cpu.vcpu.regs();
    regs.rax = 0x4000_0000;
    cpu.vcpu.set_regs(regs);
    let rip = cpu.vcpu.instr_pointer();
    let mut barrier = DisableBarrier::new();
    let out = handle_exit(&mut cpu, ExitReason::Cpuid, NATIVE, &mut barrier).unwrap();
    assert_eq!(out, ExitOutcome::Resume { reraise_nmi: false });
    let r = cpu.vcpu.regs();
    assert_eq!((r.rax, r.rbx, r.rcx, r.rdx), (0x4000_0001, 0x524d_5652, 0x5652_4d56, 0x4d56_524d));
    assert_eq!(cpu.vcpu.instr_pointer(), rip + 2);
}

#[test]
fn msr_exits() {
    let mut cpu = svm_cpu(0);
    let mut regs = cpu.vcpu.regs();
    regs.rax = 5;
    regs.rdx = 6;
    regs.rcx = 0x10;
    cpu.vcpu.set_regs(regs);
    let mut barrier = DisableBarrier::new();
    handle_exit(&mut cpu, ExitReason::MsrRead, NATIVE, &mut barrier).unwrap();
    assert_eq!((cpu.vcpu.regs().rax, cpu.vcpu.regs().rdx, cpu.vcpu.regs().rcx), (0, 0, 0x10));
    assert_eq!(cpu.vcpu.instr_pointer(), 0x1002);
    handle_exit(&mut cpu, ExitReason::MsrWrite, NATIVE, &mut barrier).unwrap();
    assert_eq!(cpu.vcpu.instr_pointer(), 0x1004);
}

#[test]
fn hypercall_from_user_mode_faults() {
    let mut cpu = svm_cpu(3);
    let mut counters = CpuCounters::new(1);
    counters.enter().unwrap();
    counters.activate();
    let mut regs = cpu.vcpu.regs();
    regs.rax = 0;
    cpu.vcpu.set_regs(regs);
    let mut barrier = DisableBarrier::new();
    let out = vmexit_handler(&mut cpu, ExitReason::Hypercall, NATIVE, &mut barrier);
    assert_eq!(out, ExitOutcome::Resume { reraise_nmi: false });
    assert_eq!(cpu.vcpu.vmcb.control.event_inj, 0x8000_0b0d);
    assert_eq!(cpu.vcpu.vmcb.control.event_inj_err, 0);
    assert_eq!(counters.activated_cpus(), 1);
    assert_eq!(barrier.arrived, 0);
    assert_eq!(cpu.state, CpuState::HvEnabled);
}

#[test]
fn hypercall_privilege_rules() {
    assert!(HyperCallCode::HypervisorDisable.is_privileged());
    assert_eq!(HyperCallCode::try_from(0), Ok(HyperCallCode::HypervisorDisable));
    assert_eq!(HyperCallCode::try_from(7), Err(7));
    let mut cpu = vmx_cpu(0);
    let mut barrier = DisableBarrier::new();
    let before = cpu.vcpu.regs();
    assert_eq!(HyperCall::new(7, 0, 0).hypercall(&mut cpu, &mut barrier).unwrap(), HypercallOutcome::Unsupported);
    assert_eq!(cpu.vcpu.regs(), before);
    cpu.vcpu.vmcs.cs.access_rights = 0xa0fb;
    assert!(!cpu.vcpu.guest_is_privileged());
    assert_eq!(HyperCall::new(0, 0, 0).hypercall(&mut cpu, &mut barrier).unwrap(), HypercallOutcome::Faulted);
    assert_eq!(cpu.vcpu.vmcs.entry_intr_info, INTR_INFO_GP_WITH_ERROR);
}

#[test]
fn nested_page_fault_injects_gp() {
    let mut cpu = vmx_cpu(0);
    let mut counters = CpuCounters::new(1);
    counters.enter().unwrap();
    counters.activate();
    let mut barrier = DisableBarrier::new();
    let err = handle_exit(&mut cpu, ExitReason::NestedPageFault(0xfee0_0000), NATIVE, &mut barrier).unwrap_err();
    assert_eq!(err.num(), HvErrorNum::ENOSYS);
    let out = vmexit_handler(&mut cpu, ExitReason::NestedPageFault(0xfee0_0000), NATIVE, &mut barrier);
    assert_eq!(out, ExitOutcome::Resume { reraise_nmi: false });
    assert_eq!(cpu.vcpu.vmcs.entry_intr_info, INTR_INFO_GP_WITH_ERROR);
    assert_eq!(counters.activated_cpus(), 1);
}

#[test]
fn failed_handler_in_hypercall_returns_code() {
    let mut cpu = svm_cpu(0);
    cpu.vcpu.vmcb.control.exit_code = 0x81;
    let mut barrier = DisableBarrier::new();
    vmexit_handler(&mut cpu, ExitReason::Unknown(0x9999), NATIVE, &mut barrier);
    assert_eq!(cpu.vcpu.regs().rax as i64, -5);
    assert_eq!(cpu.vcpu.vmcb.control.event_inj, 0);
}

#[test]
fn fatal_and_nmi_exits() {
    let mut cpu = vmx_cpu(0);
    let mut barrier = DisableBarrier::new();
    assert_eq!(handle_exit(&mut cpu, ExitReason::Shutdown, NATIVE, &mut barrier).unwrap(), ExitOutcome::Fatal);
    assert_eq!(handle_exit(&mut cpu, ExitReason::EntryFailure, NATIVE, &mut barrier).unwrap(), ExitOutcome::Fatal);
    assert_eq!(
        handle_exit(&mut cpu, ExitReason::Exception(2), NATIVE, &mut barrier).unwrap(),
        ExitOutcome::Resume { reraise_nmi: true }
    );
    assert_eq!(
        handle_exit(&mut cpu, ExitReason::Exception(14), NATIVE, &mut barrier).unwrap(),
        ExitOutcome::Resume { reraise_nmi: false }
    );
    assert_eq!(handle_exit(&mut cpu, ExitReason::Other(12), NATIVE, &mut barrier).unwrap_err().num(), HvErrorNum::ENOSYS);
    assert_eq!(handle_exit(&mut cpu, ExitReason::Unknown(999), NATIVE, &mut barrier).unwrap_err().num(), HvErrorNum::EIO);
}

#[test]
fn exit_decoding() {
    assert_eq!(vmx::decode_exit(10, 0, 0), ExitReason::Cpuid);
    assert_eq!(vmx::decode_exit(18, 0, 0), ExitReason::Hypercall);
    assert_eq!(vmx::decode_exit(48, 0, 0x1234), ExitReason::NestedPageFault(0x1234));
    assert_eq!(vmx::decode_exit(0x8000_0021, 0, 0), ExitReason::EntryFailure);
    assert_eq!(vmx::decode_exit(0, 2, 0), ExitReason::Exception(2));
    assert_eq!(vmx::decode_exit(2, 0, 0), ExitReason::Shutdown);
    assert_eq!(vmx::decode_exit(300, 0, 0), ExitReason::Unknown(300));
    assert_eq!(svm::decode_exit(0x72, 0, 0), ExitReason::Cpuid);
    assert_eq!(svm::decode_exit(0x81, 0, 0), ExitReason::Hypercall);
    assert_eq!(svm::decode_exit(0x7c, 1, 0), ExitReason::MsrWrite);
    assert_eq!(svm::decode_exit(0x7c, 0, 0), ExitReason::MsrRead);
    assert_eq!(svm::decode_exit(0x7c, 2, 0), ExitReason::Unknown(0x7c));
    assert_eq!(svm::decode_exit(0x400, 0, 0xabc), ExitReason::NestedPageFault(0xabc));
    assert_eq!(svm::decode_exit(0x4e, 0, 0), ExitReason::Exception(14));
    assert_eq!(svm::decode_exit(u64::MAX, 0, 0), ExitReason::EntryFailure);
    assert_eq!(svm::decode_exit(0x5000, 0, 0), ExitReason::Unknown(0x5000));
}

#[test]
fn msr_write_value_is_edx_eax() {
    let mut regs = GeneralRegisters::zeroed();
    regs.rax = 0xffff_ffff_1234_5678;
    regs.rdx = 0x9abc_def0;
    assert_eq!(rvm::arch::vmm::msr_write_value(&regs), 0x9abc_def0_1234_5678);
}

#[test]
fn svm_exit_moves_rax_through_the_vmcb() {
    let mut cpu = svm_cpu(0);
    cpu.vcpu.vmcb.save.rax = 0x4000_0000;
    cpu.vcpu.vmcb.control.exit_code = 0x72;
    let mut barrier = DisableBarrier::new();
    let out = svm::handle_exit(&mut cpu, NATIVE, &mut barrier).unwrap();
    assert_eq!(out, ExitOutcome::Resume { reraise_nmi: false });
    assert_eq!(cpu.vcpu.vmcb.save.rax, 0x4000_0001);
    assert_eq!(cpu.vcpu.vmcb.control.clean_bits, 0xffff_ffff);
    assert_eq!(cpu.vcpu.vmcb.save.rip, 0x1002);
    cpu.vcpu.vmcb.control.exit_code = 0x400;
    assert_eq!(svm::handle_exit(&mut cpu, NATIVE, &mut barrier).unwrap_err().num(), HvErrorNum::ENOSYS);
}

#[test]
fn vmx_exit_decodes_and_dispatches() {
    let mut cpu = vmx_cpu(0);
    cpu.vcpu.vmcs.exit_reason = 31;
    let mut regs = cpu.vcpu.regs();
    regs.rax = 9;
    cpu.vcpu.set_regs(regs);
    let mut barrier = DisableBarrier::new();
    vmx::handle_exit(&mut cpu, 0, 0, NATIVE, &mut barrier).unwrap();
    assert_eq!(cpu.vcpu.regs().rax, 0);
    cpu.vcpu.vmcs.exit_reason = 48;
    assert_eq!(vmx::handle_exit(&mut cpu, 0, 0x1000, NATIVE, &mut barrier).unwrap_err().num(), HvErrorNum::ENOSYS);
}
