//! The vendor-agnostic vCPU interface and the VM-exit handlers shared by
//! both backends: CPUID spoofing, MSR stubs and the hypercall bridge.

use vstd::prelude::*;

use super::context::{GeneralRegisters, LinuxContext};
use crate::error::HvResult;

verus! {

/// Fixed lengths of the instructions that exit to the hypervisor.
pub const VM_EXIT_LEN_CPUID: u8 = 2;
pub const VM_EXIT_LEN_RDMSR: u8 = 2;
pub const VM_EXIT_LEN_WRMSR: u8 = 2;
pub const VM_EXIT_LEN_HYPERCALL: u8 = 3;

/// CR0 bits.
pub const CR0_PE: u64 = 0x1;
pub const CR0_MP: u64 = 0x2;
pub const CR0_TS: u64 = 0x8;
pub const CR0_ET: u64 = 0x10;
pub const CR0_NE: u64 = 0x20;
pub const CR0_WP: u64 = 0x1_0000;
pub const CR0_NW: u64 = 0x2000_0000;
pub const CR0_CD: u64 = 0x4000_0000;
pub const CR0_PG: u64 = 0x8000_0000;
/// CR4 bits.
pub const CR4_PAE: u64 = 0x20;
pub const CR4_VMXE: u64 = 0x2000;
pub const CR4_OSXSAVE: u64 = 0x4_0000;

/// The pinned host CR0: PE, MP, TS, ET, NE, WP and PG.
pub const HOST_CR0: u64 = 0x8001_003b;
/// The pinned host CR4 before the vendor bits: PAE.
pub const HOST_CR4: u64 = 0x20;

/// CPUID leaves the hypervisor answers or edits.
pub const CPUID_FEATURE_INFO: u32 = 0x1;
pub const CPUID_HYPERVISOR_INFO: u32 = 0x4000_0000;
pub const CPUID_HYPERVISOR_FEATURES: u32 = 0x4000_0001;
pub const CPUID_AMD_FEATURE_INFO: u32 = 0x8000_0001;
/// ECX bits of leaf 1.
pub const CPUID_ECX_VMX: u32 = 0x20;
pub const CPUID_ECX_OSXSAVE: u32 = 0x800_0000;
pub const CPUID_ECX_HYPERVISOR: u32 = 0x8000_0000;
/// ECX bit of leaf 0x8000_0001.
pub const CPUID_ECX_SVM: u32 = 0x4;
/// "RVMRVMRVMRVM" as the EBX, ECX and EDX words.
pub const HV_SIGNATURE_EBX: u32 = 0x524d_5652;
pub const HV_SIGNATURE_ECX: u32 = 0x5652_4d56;
pub const HV_SIGNATURE_EDX: u32 = 0x4d56_524d;

/// The four registers of a CPUID result.
#[derive(Clone, Copy, Debug, PartialEq, Eq, Structural)]
pub struct CpuIdResult {
    pub eax: u32,
    pub ebx: u32,
    pub ecx: u32,
    pub edx: u32,
}

/// Whether the answer to `function` starts from a native CPUID.
pub open spec fn spec_needs_native_cpuid(function: u32) -> bool {
    function != CPUID_HYPERVISOR_INFO && function != CPUID_HYPERVISOR_FEATURES
}

/// Whether a CPUID exit for `function` needs the native result first.
pub fn needs_native_cpuid(function: u32) -> (r: bool)
    ensures
        r == spec_needs_native_cpuid(function),
{
    function != CPUID_HYPERVISOR_INFO && function != CPUID_HYPERVISOR_FEATURES
}

/// What the guest sees for CPUID `function`, given the native result and
/// the guest's CR4.
pub open spec fn spec_cpuid(function: u32, native: CpuIdResult, guest_cr4: u64) -> CpuIdResult {
    if function == CPUID_HYPERVISOR_INFO {
        CpuIdResult {
            eax: CPUID_HYPERVISOR_FEATURES,
            ebx: HV_SIGNATURE_EBX,
            ecx: HV_SIGNATURE_ECX,
            edx: HV_SIGNATURE_EDX,
        }
    } else if function == CPUID_HYPERVISOR_FEATURES {
        CpuIdResult { eax: 0, ebx: 0, ecx: 0, edx: 0 }
    } else if function == CPUID_FEATURE_INFO {
        let osxsave: u32 = if guest_cr4 & 0x4_0000u64 != 0 {
            0x800_0000u32
        } else {
            0u32
        };
        CpuIdResult {
            ecx: ((native.ecx & !0x800_0020u32) | osxsave) | 0x8000_0000u32,
            ..native
        }
    } else if function == CPUID_AMD_FEATURE_INFO {
        CpuIdResult { ecx: native.ecx & !0x4u32, ..native }
    } else {
        native
    }
}

/// Computes the guest's CPUID answer: the hypervisor leaves are answered
/// directly; leaf 1 reports a hypervisor, hides VMX and shows OSXSAVE as
/// the guest's CR4 has it; leaf 0x8000_0001 hides SVM; everything else
/// passes through.
pub fn cpuid_spoof(function: u32, native: CpuIdResult, guest_cr4: u64) -> (r: CpuIdResult)
    ensures
        r == spec_cpuid(function, native, guest_cr4),
{
    if function == CPUID_HYPERVISOR_INFO {
        CpuIdResult {
            eax: CPUID_HYPERVISOR_FEATURES,
            ebx: HV_SIGNATURE_EBX,
            ecx: HV_SIGNATURE_ECX,
            edx: HV_SIGNATURE_EDX,
        }
    } else if function == CPUID_HYPERVISOR_FEATURES {
        CpuIdResult { eax: 0, ebx: 0, ecx: 0, edx: 0 }
    } else if function == CPUID_FEATURE_INFO {
        let osxsave: u32 = if guest_cr4 & CR4_OSXSAVE != 0 {
            CPUID_ECX_OSXSAVE
        } else {
            0
        };
        CpuIdResult {
            eax: native.eax,
            ebx: native.ebx,
            ecx: ((native.ecx & !0x800_0020u32) | osxsave) | CPUID_ECX_HYPERVISOR,
            edx: native.edx,
        }
    } else if function == CPUID_AMD_FEATURE_INFO {
        CpuIdResult { eax: native.eax, ebx: native.ebx, ecx: native.ecx & !CPUID_ECX_SVM, edx: native.edx }
    } else {
        native
    }
}

proof fn lemma_cpuid_bits(ecx: u32, osxsave: u32)
    by (bit_vector)
    requires
        osxsave == 0 || osxsave == 0x800_0000u32,
    ensures
        (((ecx & !0x800_0020u32) | osxsave) | 0x8000_0000u32) & 0x20u32 == 0,
        (((ecx & !0x800_0020u32) | osxsave) | 0x8000_0000u32) & 0x8000_0000u32 != 0,
        ((((ecx & !0x800_0020u32) | osxsave) | 0x8000_0000u32) & 0x800_0000u32 != 0) == (osxsave != 0),
        (ecx & !0x4u32) & 0x4u32 == 0,
{
}

/// Leaf 1 never shows VMX and always shows a hypervisor, and shows
/// OSXSAVE exactly when the guest enabled it; leaf 0x8000_0001 never shows
/// SVM.
pub proof fn lemma_cpuid_hides_virtualization(native: CpuIdResult, guest_cr4: u64)
    ensures
        spec_cpuid(CPUID_FEATURE_INFO, native, guest_cr4).ecx & CPUID_ECX_VMX == 0,
        spec_cpuid(CPUID_FEATURE_INFO, native, guest_cr4).ecx & CPUID_ECX_HYPERVISOR != 0,
        (spec_cpuid(CPUID_FEATURE_INFO, native, guest_cr4).ecx & CPUID_ECX_OSXSAVE != 0) == (guest_cr4
            & CR4_OSXSAVE != 0),
        spec_cpuid(CPUID_AMD_FEATURE_INFO, native, guest_cr4).ecx & CPUID_ECX_SVM == 0,
{
    let osxsave: u32 = if guest_cr4 & 0x4_0000u64 != 0 {
        0x800_0000u32
    } else {
        0u32
    };
    lemma_cpuid_bits(native.ecx, osxsave);
}

/// The guest registers after a CPUID exit that produced `res`.
pub open spec fn regs_with_cpuid(regs: GeneralRegisters, res: CpuIdResult) -> GeneralRegisters {
    GeneralRegisters {
        rax: res.eax as u64,
        rbx: res.ebx as u64,
        rcx: res.ecx as u64,
        rdx: res.edx as u64,
        ..regs
    }
}

/// The guest registers after an RDMSR exit: the value read is zero.
pub open spec fn regs_with_msr_read(regs: GeneralRegisters) -> GeneralRegisters {
    GeneralRegisters { rax: 0, rdx: 0, ..regs }
}

/// The uniform guest-state interface of a vCPU.
pub trait VcpuAccessGuestState: Sized {
    /// The guest general registers.
    spec fn spec_regs(&self) -> GeneralRegisters;

    /// The guest instruction pointer.
    spec fn spec_rip(&self) -> u64;

    /// The guest stack pointer.
    spec fn spec_rsp(&self) -> u64;

    /// The guest RFLAGS.
    spec fn spec_rflags(&self) -> u64;

    /// The guest's view of control register `idx` (0, 3 or 4).
    spec fn spec_cr(&self, idx: u64) -> u64;

    /// Whether the guest runs at privilege level 0.
    spec fn spec_privileged(&self) -> bool;

    /// Whether the last exit was a hypercall.
    spec fn spec_in_hypercall(&self) -> bool;

    /// Whether a #GP(0) is queued for the next entry.
    spec fn spec_fault_pending(&self) -> bool;

    /// This vCPU with the guest instruction pointer replaced, all else kept.
    spec fn spec_with_rip(&self, rip: u64) -> Self;

    /// This vCPU with the guest stack pointer replaced, all else kept.
    spec fn spec_with_rsp(&self, rsp: u64) -> Self;


    fn regs(&self) -> (r: GeneralRegisters)
        ensures
            r == self.spec_regs(),
    ;

    fn set_regs(&mut self, regs: GeneralRegisters)
        ensures
            final(self).spec_regs() == regs,
            final(self).spec_rip() == old(self).spec_rip(),
            final(self).spec_rsp() == old(self).spec_rsp(),
            final(self).spec_privileged() == old(self).spec_privileged(),
            final(self).spec_in_hypercall() == old(self).spec_in_hypercall(),
            final(self).spec_fault_pending() == old(self).spec_fault_pending(),
            forall|i: u64| final(self).spec_cr(i) == old(self).spec_cr(i),
    ;

    fn instr_pointer(&self) -> (r: u64)
        ensures
            r == self.spec_rip(),
    ;

    fn stack_pointer(&self) -> (r: u64)
        ensures
            r == self.spec_rsp(),
    ;

    fn set_stack_pointer(&mut self, sp: u64)
        ensures
            *final(self) == old(self).spec_with_rsp(sp),
            final(self).spec_rflags() == old(self).spec_rflags(),
            final(self).spec_rsp() == sp,
            final(self).spec_regs() == old(self).spec_regs(),
            final(self).spec_rip() == old(self).spec_rip(),
            final(self).spec_fault_pending() == old(self).spec_fault_pending(),
    ;

    fn rflags(&self) -> (r: u64)
        ensures
            r == self.spec_rflags(),
    ;

    fn cr(&self, idx: u64) -> (r: u64)
        requires
            idx == 0 || idx == 3 || idx == 4,
        ensures
            r == self.spec_cr(idx),
    ;

    /// Moves the guest past an intercepted instruction of `instr_len` bytes.
    fn advance_rip(&mut self, instr_len: u8) -> (r: HvResult)
        ensures
            r is Ok,
            *final(self) == old(self).spec_with_rip(((old(self).spec_rip() + instr_len) % 0x1_0000_0000_0000_0000) as u64),
            final(self).spec_rip() == ((old(self).spec_rip() + instr_len) % 0x1_0000_0000_0000_0000) as u64,
            final(self).spec_rflags() == old(self).spec_rflags(),
            final(self).spec_rip() == (old(self).spec_rip() + instr_len) as u64 || (old(self).spec_rip()
                + instr_len > u64::MAX && final(self).spec_rip() == (old(self).spec_rip() + instr_len
                - 0x1_0000_0000_0000_0000) as u64),
            final(self).spec_regs() == old(self).spec_regs(),
            final(self).spec_rsp() == old(self).spec_rsp(),
            final(self).spec_privileged() == old(self).spec_privileged(),
            final(self).spec_in_hypercall() == old(self).spec_in_hypercall(),
            final(self).spec_fault_pending() == old(self).spec_fault_pending(),
            forall|i: u64| final(self).spec_cr(i) == old(self).spec_cr(i),
    ;

    /// Queues #GP(0) for the next entry.
    fn inject_fault(&mut self) -> (r: HvResult)
        ensures
            r is Ok,
            final(self).spec_fault_pending(),
            final(self).spec_regs() == old(self).spec_regs(),
            final(self).spec_rip() == old(self).spec_rip(),
            final(self).spec_privileged() == old(self).spec_privileged(),
            final(self).spec_in_hypercall() == old(self).spec_in_hypercall(),
    ;

    fn guest_is_privileged(&self) -> (r: bool)
        ensures
            r == self.spec_privileged(),
    ;

    fn in_hypercall(&self) -> (r: bool)
        ensures
            r == self.spec_in_hypercall(),
    ;

    /// The host context after reading the guest state back into it.
    spec fn spec_load_guest(&self, linux: LinuxContext) -> LinuxContext;

    /// Reads the guest state back into the host context before the host
    /// resumes.
    fn load_guest_context(&self, linux: &mut LinuxContext)
        ensures
            *final(linux) == self.spec_load_guest(*old(linux)),
    ;
}

/// Sets the value the guest sees in RAX.
pub fn set_return_val<V: VcpuAccessGuestState>(vcpu: &mut V, ret_val: u64)
    ensures
        final(vcpu).spec_regs() == (GeneralRegisters { rax: ret_val, ..old(vcpu).spec_regs() }),
        final(vcpu).spec_rip() == old(vcpu).spec_rip(),
        final(vcpu).spec_privileged() == old(vcpu).spec_privileged(),
        final(vcpu).spec_in_hypercall() == old(vcpu).spec_in_hypercall(),
        final(vcpu).spec_fault_pending() == old(vcpu).spec_fault_pending(),
{
    let mut regs = vcpu.regs();
    regs.rax = ret_val;
    vcpu.set_regs(regs);
}

/// The guest's frame pointer.
pub fn frame_pointer<V: VcpuAccessGuestState>(vcpu: &V) -> (r: u64)
    ensures
        r == vcpu.spec_regs().rbp,
{
    vcpu.regs().rbp
}

/// Answers a CPUID exit: `native` is the processor's own answer for the
/// guest's EAX and ECX, used unless the leaf is the hypervisor's.
pub fn handle_cpuid<V: VcpuAccessGuestState>(vcpu: &mut V, native: CpuIdResult) -> (r: HvResult)
    ensures
        r is Ok,
        final(vcpu).spec_regs() == regs_with_cpuid(
            old(vcpu).spec_regs(),
            spec_cpuid(old(vcpu).spec_regs().rax as u32, native, old(vcpu).spec_cr(4)),
        ),
        final(vcpu).spec_rip() == ((old(vcpu).spec_rip() + VM_EXIT_LEN_CPUID) % 0x1_0000_0000_0000_0000) as u64,
        final(vcpu).spec_fault_pending() == old(vcpu).spec_fault_pending(),
        final(vcpu).spec_privileged() == old(vcpu).spec_privileged(),
{
    let cr4 = vcpu.cr(4);
    let mut regs = vcpu.regs();
    let res = cpuid_spoof(regs.rax as u32, native, cr4);
    regs.rax = res.eax as u64;
    regs.rbx = res.ebx as u64;
    regs.rcx = res.ecx as u64;
    regs.rdx = res.edx as u64;
    vcpu.set_regs(regs);
    vcpu.advance_rip(VM_EXIT_LEN_CPUID)
}

/// Answers an RDMSR exit with zero.
pub fn handle_msr_read<V: VcpuAccessGuestState>(vcpu: &mut V) -> (r: HvResult)
    ensures
        r is Ok,
        final(vcpu).spec_regs() == regs_with_msr_read(old(vcpu).spec_regs()),
        final(vcpu).spec_rip() == ((old(vcpu).spec_rip() + VM_EXIT_LEN_RDMSR) % 0x1_0000_0000_0000_0000) as u64,
        final(vcpu).spec_fault_pending() == old(vcpu).spec_fault_pending(),
{
    let mut regs = vcpu.regs();
    regs.rax = 0;
    regs.rdx = 0;
    vcpu.set_regs(regs);
    vcpu.advance_rip(VM_EXIT_LEN_RDMSR)
}

/// Ignores a WRMSR exit.
pub fn handle_msr_write<V: VcpuAccessGuestState>(vcpu: &mut V) -> (r: HvResult)
    ensures
        r is Ok,
        final(vcpu).spec_regs() == old(vcpu).spec_regs(),
        final(vcpu).spec_rip() == ((old(vcpu).spec_rip() + VM_EXIT_LEN_WRMSR) % 0x1_0000_0000_0000_0000) as u64,
        final(vcpu).spec_fault_pending() == old(vcpu).spec_fault_pending(),
{
    vcpu.advance_rip(VM_EXIT_LEN_WRMSR)
}

/// The value the guest wrote with WRMSR: EDX:EAX.
pub fn msr_write_value(regs: &GeneralRegisters) -> (r: u64)
    ensures
        r == ((regs.rax & 0xffff_ffffu64) | ((regs.rdx & 0xffff_ffffu64) << 32u64)),
{
    (regs.rax & 0xffff_ffff) | ((regs.rdx & 0xffff_ffff) << 32)
}

} // verus!
