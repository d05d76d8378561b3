use rvm::arch::cpu::{current_time_nanos, frequency};
use rvm::arch::ept::{EPTEntry, EPTMemType};
use rvm::arch::exception::{exception_handler, ExceptionAction, TrapFrame};
use rvm::arch::context::{DescriptorTablePointer, GeneralRegisters, LinuxContext, MachineState, Segment};
use rvm::arch::page_table::{mem_flags_from_ptf, ptf_from_mem_flags, PTEntry, X86PagingInstr};
use rvm::arch::serial::ByteConvertor;
use rvm::arch::svm;
use rvm::arch::vmx::{self, CpuFeatures, VmFail, VmxCapabilities};
use rvm::boot::{primary_init_early, BootShared};
use rvm::arch::npt::{NPTEntry, NPTInstr};
use rvm::config::{HvSystemConfig, SYSTEM_CONFIG_SIZE};
use rvm::consts::{free_memory_start, hv_config_ptr, hv_end, HV_BASE};
use rvm::error::{HvError, HvErrorNum};
use rvm::header::HvHeader;
use rvm::memory::addr::{align_down, align_up, is_aligned, page_count, page_offset};
use rvm::memory::frame::{Frame, FrameAllocator};
use rvm::memory::gaccess::{AsGuestPtr, GuestPtr};
use rvm::memory::init::{init_frame_allocator, init_hv_page_table};
use rvm::memory::pagetable::Level4PageTable;
use rvm::memory::paging::{GenericPTE, MemFlags, PageSize, PagingError};
use rvm::memory::physmem::PhysMemory;

fn features(vmx: bool) -> CpuFeatures {
    CpuFeatures { has_vmx: vmx, has_xsave: true, has_rdtscp: true, has_invpcid: false, has_xsaves: false }
}

fn config_bytes(sig: &[u8; 6], revision: u16, regions: &[(u64, u64, u64, u64)]) -> Vec<u8> {
    let mut b = vec![0u8; SYSTEM_CONFIG_SIZE as usize];
    b[..6].copy_from_slice(sig);
    b[6..8].copy_from_slice(&revision.to_le_bytes());
    b[12..20].copy_from_slice(&0x1_0000_0000u64.to_le_bytes());
    b[28..36].copy_from_slice(&0x400_0000u64.to_le_bytes());
    b[314..318].copy_from_slice(&8u32.to_le_bytes());
    b[318..322].copy_from_slice(&(regions.len() as u32).to_le_bytes());
    b.extend_from_slice(&[0xffu8; 8]);
    for (p, v, s, f) in regions {
        for x in [p, v, s, f] {
            b.extend_from_slice(&x.to_le_bytes());
        }
    }
    b
}

#[test]
fn error_codes_and_texts() {
    let e = HvError::new(HvErrorNum::ENOSYS, "vmexit.rs", 3, 4, None);
    assert_eq!(e.code(), -38);
    assert_eq!(e.num(), HvErrorNum::ENOSYS);
    assert_eq!(HvErrorNum::EBUSY.as_str(), "Device or resource busy");
    assert_eq!(HvErrorNum::EPERM.value(), 1);
    assert_eq!(HvErrorNum::ERANGE.value(), 34);
    assert_eq!(HvError::from_paging(PagingError::NoMemory).num(), HvErrorNum::ENOMEM);
    assert_eq!(HvError::from_paging(PagingError::AlreadyMapped).num(), HvErrorNum::EFAULT);
}

#[test]
fn page_arithmetic() {
    assert_eq!(align_down(0x1fff), 0x1000);
    assert_eq!(align_up(0x1001), 0x2000);
    assert_eq!(align_up(0x3000), 0x3000);
    assert!(is_aligned(0x5000));
    assert!(!is_aligned(0x5008));
    assert_eq!(page_count(0x2001), 3);
    assert_eq!(page_offset(0x1234), 0x234);
    assert_eq!(PageSize::Size2M.align_down(0x40_1234), 0x40_0000);
    assert_eq!(PageSize::Size1G.page_offset(0x4000_0010), 0x10);
    assert!(PageSize::Size1G.is_huge());
    assert!(!PageSize::Size4K.is_huge());
}

#[test]
fn entry_encodings() {
    let rw = MemFlags::from_bits_truncate(MemFlags::READ | MemFlags::WRITE);
    assert_eq!(ptf_from_mem_flags(rw), 0x8000_0000_0000_0003);
    assert_eq!(mem_flags_from_ptf(0x8000_0000_0000_0003).bits(), MemFlags::READ | MemFlags::WRITE);
    assert_eq!(mem_flags_from_ptf(0x5).bits(), MemFlags::READ | MemFlags::EXECUTE | MemFlags::USER);
    let mut e = PTEntry(0);
    e.set_addr(0x1234_5000);
    e.set_flags(rw, true);
    assert_eq!(e.raw(), 0x8000_0000_1234_5083);
    assert!(e.is_huge() && e.is_present());
    e.clear();
    assert!(e.is_unused());
    let mut t = EPTEntry(0);
    t.set_table(0x7000);
    assert_eq!(t.raw(), 0x7007);
    let mut l = EPTEntry(0);
    l.set_addr(0x20_0000);
    l.set_flags(rw, false);
    assert_eq!(l.raw(), 0x20_0033);
    assert_eq!(l.memory_type(), Ok(EPTMemType::WriteBack));
    assert_eq!(EPTEntry(0x8).memory_type(), Ok(EPTMemType::WriteCombining));
    assert_eq!(EPTEntry(0x10).memory_type(), Err(2));
    assert_eq!(l.flags().bits(), MemFlags::READ | MemFlags::WRITE);
}

#[test]
fn frame_allocator_hands_out_pool_frames() {
    let mut a = FrameAllocator::init(0x100_0800, 0x3000);
    let first_frame = a.alloc_frame().unwrap();
    let next_path = a.alloc_frame().unwrap();
    let third_frame = a.alloc_frame().unwrap();
    assert_eq!(first_frame, 0x100_1000);
    assert_ne!(first_frame, next_path);
    assert!(next_path >= 0x100_1000 && third_frame < 0x100_4000);
    assert_eq!(a.alloc_frame(), None);
    a.dealloc_frame(next_path);
    assert_eq!(a.alloc_frame(), Some(next_path));
    let mut mem = PhysMemory::new();
    mem.write(0x100_1008, 77);
    let f = Frame::from_paddr(0x100_1000);
    assert_eq!(f.size(), 0);
    f.zero(&mut mem);
    assert_eq!(mem.read(0x100_1008), 0);
    f.fill(&mut mem, 0xab);
    assert_eq!(mem.read(0x100_1ff8), 0xabab_abab_abab_abab);
    assert_eq!(mem.read_byte(0x100_1003), 0xab);
    let mut empty = FrameAllocator::empty();
    assert_eq!(Frame::new(&mut empty).unwrap_err().num(), HvErrorNum::ENOMEM);
}

#[test]
fn guest_read_straddles_pages() {
    let mut alloc = FrameAllocator::init(0x100_0000, 0x40_0000);
    let mut gpt = Level4PageTable::<PTEntry, X86PagingInstr>::new(&mut alloc).unwrap();
    let rw = MemFlags::from_bits_truncate(MemFlags::READ | MemFlags::WRITE);
    gpt.map_page(0x1000, PageSize::Size4K, 0x10_0000, rw, &mut alloc).unwrap();
    gpt.map_page(0x2000, PageSize::Size4K, 0x30_0000, rw, &mut alloc).unwrap();
    let mut mem = gpt.memory().duplicate();
    mem.write(0x10_0ff8, 0x4433_2211_0000_0000);
    mem.write(0x30_0000, 0x0000_0000_8877_6655);
    let ptr: GuestPtr = 0x1ffcu64.as_guest_ptr(gpt.root_paddr(), 8, 4);
    assert_eq!(ptr.read(&mem).unwrap(), vec![0x11, 0x22, 0x33, 0x44, 0x55, 0x66, 0x77, 0x88]);
    assert_eq!(ptr.as_ref(&mem).unwrap_err().num(), HvErrorNum::EINVAL);
    let inside: GuestPtr = 0x1ff8u64.as_guest_ptr(gpt.root_paddr(), 8, 8);
    assert_eq!(inside.as_ref(&mem).unwrap(), 0x10_0ff8);
    assert_eq!(inside.as_guest_paddr(&mem).unwrap(), 0x10_0ff8);
    let null: GuestPtr = 0u64.as_guest_ptr(gpt.root_paddr(), 8, 8);
    assert_eq!(null.read(&mem).unwrap_err().num(), HvErrorNum::EFAULT);
    let odd: GuestPtr = 0x1ffdu64.as_guest_ptr(gpt.root_paddr(), 8, 4);
    assert_eq!(odd.read(&mem).unwrap_err().num(), HvErrorNum::EINVAL);
    let unmapped: GuestPtr = 0x2ffcu64.as_guest_ptr(gpt.root_paddr(), 8, 4);
    assert_eq!(unmapped.read(&mem).unwrap_err().num(), HvErrorNum::EFAULT);
}

#[test]
fn system_config_parse_and_check() {
    let bytes = config_bytes(b"RVMSYS", 10, &[(0x2000_0000, 0, 0x100_0000, MemFlags::READ | MemFlags::DMA)]);
    let cfg = HvSystemConfig::parse(&bytes).unwrap();
    assert!(cfg.check().is_ok());
    assert_eq!(cfg.hypervisor_memory.phys_start, 0x1_0000_0000);
    assert_eq!(cfg.hypervisor_memory.size, 0x400_0000);
    assert_eq!(cfg.root_cell.config_size(), 8 + 32);
    assert_eq!(cfg.size(), SYSTEM_CONFIG_SIZE + 40);
    let regions = cfg.root_cell.config().mem_regions(&bytes).unwrap();
    assert_eq!(regions.len(), 1);
    assert_eq!(regions[0].phys_start, 0x2000_0000);
    assert_eq!(regions[0].size, 0x100_0000);
    assert!(regions[0].flags.contains(MemFlags::DMA));
    let bad_sig = HvSystemConfig::parse(&config_bytes(b"JHSYST", 10, &[])).unwrap();
    assert_eq!(bad_sig.check().unwrap_err().num(), HvErrorNum::EINVAL);
    let bad_rev = HvSystemConfig::parse(&config_bytes(b"RVMSYS", 9, &[])).unwrap();
    assert_eq!(bad_rev.check().unwrap_err().num(), HvErrorNum::EINVAL);
    assert_eq!(HvSystemConfig::parse(&bytes[..100]).unwrap_err().num(), HvErrorNum::EINVAL);
    assert_eq!(cfg.root_cell.config().mem_regions(&bytes[..400]).unwrap_err().num(), HvErrorNum::EINVAL);
}

#[test]
fn hypervisor_page_table_and_pool() {
    let bytes = config_bytes(b"RVMSYS", 10, &[(0x2000_0000, 0x2000_0000, 0x20_0000, MemFlags::READ | MemFlags::DMA)]);
    let cfg = HvSystemConfig::parse(&bytes).unwrap();
    let regions = cfg.root_cell.config().mem_regions(&bytes).unwrap();
    let mut hb = vec![0u8; 80];
    hb[8..16].copy_from_slice(&0x20_0000u64.to_le_bytes());
    hb[48..52].copy_from_slice(&4u32.to_le_bytes());
    hb[52..56].copy_from_slice(&4u32.to_le_bytes());
    let header = HvHeader::parse(&hb).unwrap();
    assert_eq!((header.core_size, header.max_cpus, header.online_cpus), (0x20_0000, 4, 4));
    assert_eq!(HvHeader::parse(&hb[..10]).unwrap_err().num(), HvErrorNum::EINVAL);
    let mut alloc = init_frame_allocator(&header, &cfg).unwrap();
    let first = alloc.alloc_frame().unwrap();
    assert!(first >= 0x1_0000_0000 + 0x20_0000 + 4 * 0x8_0000);
    let ms = init_hv_page_table(&header, &cfg, &regions, &mut alloc).unwrap();
    let (pa, flags, _) = ms.query(HV_BASE + 0x1234).unwrap();
    assert_eq!(pa, 0x1_0000_1234);
    assert!(flags.contains(MemFlags::EXECUTE));
    let (pa2, _, _) = ms.query(HV_BASE + 0x30_0000).unwrap();
    assert_eq!(pa2, 0x1_0030_0000);
    let dma_view = HV_BASE - 0x1_0000_0000 + 0x2000_0000;
    assert_eq!(ms.query(dma_view + 0x10).unwrap().0, 0x2000_0010);
    assert_eq!(ms.len(), 3);
}

#[test]
fn layout_addresses() {
    assert_eq!(hv_config_ptr(0xffff_ff00_0040_0000, 4), 0xffff_ff00_0060_0000);
    assert_eq!(free_memory_start(0xffff_ff00_0060_0000, 0x1a0), 0xffff_ff00_0060_1000);
    assert_eq!(hv_end(0x400_0000), 0xffff_ff00_0400_0000);
}

#[test]
fn vmx_controls_and_enable_checks() {
    let caps = VmxCapabilities {
        pinbased: 0x0000_007f_0000_0016,
        procbased: 0xfff9_fffe_0400_6172,
        procbased2: 0x0053_7fff_0000_0000,
        exit: 0x01ff_ffff_0003_6dff,
        entry: 0x0003_ffff_0000_11ff,
    };
    let c = vmx::setup_vmcs_control(&caps, &features(true), 0x5000 | 0x1e, 0x6000).unwrap();
    assert_eq!(c.pin, 0x16 | 0x8);
    assert_eq!(c.proc, 0x0400_6172 | 0x9000_0000);
    assert_eq!(c.proc2, 0x2 | 0x80 | 0x8);
    assert_eq!(c.exit, 0x0003_6dff | 0x3c_0200);
    assert_eq!(c.entry, 0x11ff | 0xc200);
    assert_eq!(c.ept_pointer, 0x501e);
    let no_ept = VmxCapabilities { procbased2: 0x0000_0080_0000_0000, ..caps };
    assert_eq!(vmx::setup_vmcs_control(&no_ept, &features(true), 0, 0).unwrap_err().num(), HvErrorNum::EIO);
    assert_eq!(vmx::set_control(0x0000_00ff_0000_0001, 0x2, 0x1).unwrap_err().num(), HvErrorNum::EIO);
    assert_eq!(vmx::set_control(0x0000_00ff_0000_0001, 0x2, 0x4).unwrap(), 0x3);
    assert_eq!(vmx::check_vmx_enable(&features(false), 0, 0).unwrap_err().num(), HvErrorNum::ENODEV);
    assert_eq!(vmx::check_vmx_enable(&features(true), 0x2000, 0).unwrap_err().num(), HvErrorNum::EIO);
    assert_eq!(vmx::check_vmx_enable(&features(true), 0, 0x1).unwrap_err().num(), HvErrorNum::ENODEV);
    assert_eq!(vmx::check_vmx_enable(&features(true), 0, 0x0).unwrap(), Some(0x5));
    assert_eq!(vmx::check_vmx_enable(&features(true), 0, 0x5).unwrap(), None);
    assert_eq!(vmx::host_cr0(), 0x8001_003b);
    assert_eq!(vmx::host_cr4(true), 0x4_2020);
    assert_eq!(vmx::vmx_capture_status(0x40), Err(VmFail::VmFailValid));
    assert_eq!(vmx::vmx_capture_status(0x1), Err(VmFail::VmFailInvalid));
    assert_eq!(vmx::vmx_capture_status(0x2), Ok(()));
}

#[test]
fn svm_enable_checks() {
    assert_eq!(svm::check_svm_enable(0x10, 0).unwrap_err().num(), HvErrorNum::ENODEV);
    assert_eq!(svm::check_svm_enable(0x8, 0x1d01).unwrap_err().num(), HvErrorNum::EBUSY);
    assert_eq!(svm::check_svm_enable(0x8, 0xd01).unwrap(), 0x1d01);
    assert_eq!(svm::svm_disabled_efer(0x1d01), 0xd01);
    assert_eq!(svm::vm_cr_flags(0xff), 0x1f);
    let v = svm::Vcpu::new(0x9000, 0x8000, 0xa000);
    assert_eq!(v.guest_regs.rax, 0xa000);
}

#[test]
fn guest_control_registers_are_filtered() {
    let s = Segment { selector: 0, base: 0, limit: 0, access_rights: 0 };
    let d = DescriptorTablePointer { limit: 0, base: 0 };
    let m = MachineState {
        es: s, cs: s, ss: s, ds: s, fs: s, gs: s, tr: s, gdtr: d, idtr: d,
        cr0: 0x6000_0011, cr3: 0x5000, cr4: 0x20, efer: 0, star: 0, lstar: 0, cstar: 0, fmask: 0,
        kernel_gsbase: 0, pat: 0x70106, mtrr_def_type: 0, fs_base: 0, gs_base: 0x77,
    };
    let l = LinuxContext::load_from(0x1000, &[0; 8], &m);
    let fixed = vmx::CrFixed { cr0_fixed0: 0x8000_0021, cr0_fixed1: 0xffff_ffff, cr4_fixed0: 0x2000, cr4_fixed1: 0x3f_ffff };
    let mut v = vmx::Vcpu::new(&l, &fixed, 0, 0, 0);
    assert_eq!(v.vmcs.cr0, (0x6000_0011u64 & !0x6000_0000) | 0x20);
    assert_eq!(v.vmcs.cr0_read_shadow, 0x6000_0011);
    assert_eq!(v.get_guest_cr(4), 0x2020);
    v.set_guest_cr(3, 0x9000, &fixed);
    assert_eq!(v.get_guest_cr(3), 0x9000);
    assert_eq!(v.guest_page_table().root_paddr(), 0x9000);
    let h = vmx::setup_vmcs_host(&m, 0x100, 0x200, 0x300, 0x400);
    assert_eq!((h.cr3, h.cs_selector, h.tr_selector, h.gs_base, h.rsp, h.rip), (0x5000, 8, 0x10, 0x77, 0x300, 0x400));
}

#[test]
fn console_turns_lf_into_crlf() {
    let mut c = ByteConvertor::new();
    c.write_str(b"a\nb\n").unwrap();
    assert_eq!(c.out, b"a\r\nb\r\n".to_vec());
}

#[test]
fn time_and_frequency() {
    assert_eq!(frequency(None), 4000);
    assert_eq!(frequency(Some(2000)), 4000);
    assert_eq!(frequency(Some(4800)), 4800);
    assert_eq!(current_time_nanos(8000, 4000), 2000);
    assert_eq!(current_time_nanos(u64::MAX, 1000), u64::MAX);
}

#[test]
fn exceptions_taken_by_the_hypervisor() {
    let mut f = TrapFrame { regs: GeneralRegisters::zeroed(), num: 2, error_code: 0, rip: 0, cs: 0, rflags: 0, rsp: 0, ss: 0 };
    assert_eq!(exception_handler(&f), ExceptionAction::WarnNmi);
    f.num = 14;
    assert_eq!(exception_handler(&f), ExceptionAction::PanicPageFault);
    f.num = 0x30;
    assert_eq!(exception_handler(&f), ExceptionAction::PanicInterrupt);
    f.num = 13;
    assert_eq!(exception_handler(&f), ExceptionAction::PanicException);
}

#[test]
fn contiguous_frames_are_aligned_runs() {
    let mut a = FrameAllocator::init(0x200_0000, 0x10_0000);
    let single = a.alloc_frame().unwrap();
    assert_eq!(single, 0x200_0000);
    let run = Frame::new_contiguous(4, 2, &mut a).unwrap();
    assert_eq!(run.start_paddr(), 0x200_4000);
    assert_eq!(run.size(), 0x4000);
    let next = a.alloc_frame().unwrap();
    assert_eq!(next, 0x200_1000);
    run.dealloc(&mut a);
    let again = Frame::new_contiguous(4, 2, &mut a).unwrap();
    assert_eq!(again.start_paddr(), 0x200_4000);
    assert_eq!(Frame::new_contiguous(0x200, 0, &mut a).unwrap_err().num(), HvErrorNum::ENOMEM);
}

#[test]
fn primary_early_init_builds_root_cell() {
    let bytes = config_bytes(b"RVMSYS", 10, &[(0x2000_0000, 0x0, 0x20_0000, MemFlags::READ | MemFlags::WRITE | MemFlags::DMA)]);
    let mut hb = vec![0u8; 80];
    hb[8..16].copy_from_slice(&0x20_0000u64.to_le_bytes());
    hb[48..52].copy_from_slice(&4u32.to_le_bytes());
    let header = HvHeader::parse(&hb).unwrap();
    let mut shared = BootShared::new();
    let early = primary_init_early::<NPTEntry, NPTInstr>(&mut shared, &header, &bytes, 0x7000, Ok(())).unwrap();
    assert_eq!(shared.init_early_ok, 1);
    let gpm = &early.root_cell.gpm;
    let (pa, flags, size) = gpm.query(0x1_0000_1234).unwrap();
    assert_eq!((pa, size), (0x7234, PageSize::Size4K));
    assert!(flags.contains(MemFlags::READ | MemFlags::USER));
    assert!(!flags.contains(MemFlags::WRITE));
    assert_eq!(gpm.query(0x1234).unwrap().0, 0x2000_1234);
    assert_eq!(gpm.len(), 2);
    let mut failed = BootShared::new();
    let refused = primary_init_early::<NPTEntry, NPTInstr>(
        &mut failed,
        &header,
        &bytes,
        0x7000,
        Err(HvError::from_num(HvErrorNum::ENODEV)),
    );
    assert_eq!(refused.err().unwrap().num(), HvErrorNum::ENODEV);
    assert_eq!(failed.init_early_ok, 0);
}
