//! The calls that VTL0 makes.
use litebox::errno::Errno;
use litebox::lvbs::container::MemoryContainer;
use litebox::lvbs::error::{HypervCallError, VerificationError, VsmError};
use litebox::lvbs::heki::{
    Access, HekiKdataType, HekiKexecType, HekiPage, HekiRange, MemAttr, ModMemType, Protection,
};
use litebox::lvbs::kdata::{
    keep_system_certificates, load_kernel_patches, load_kernel_symbols, mshv_vsm_load_kdata,
    KdataAction, KdataLoading, KernelSymtab, KernelSymtabs,
};
use litebox::lvbs::kernel_info::Vtl0KernelInfo;
use litebox::lvbs::kexec::{
    add_crash_segments, mshv_vsm_kexec_validate, KexecAction, KexecSegment, KexecValidation,
    Kimage,
};
use litebox::lvbs::module::{KexecMemoryMetadata, KexecMemoryRange};
use litebox::lvbs::module_ops::{
    mshv_vsm_free_guest_module_init, mshv_vsm_unload_guest_module, mshv_vsm_validate_guest_module,
    ModuleAction, ModuleValidation,
};
use litebox::lvbs::mshv::{
    VsmFunction, HV_REGISTER_VSM_PARTITION_CONFIG, HV_REGISTER_VSM_VP_SECURE_CONFIG_VTL0,
    HV_X64_REGISTER_CR0, HV_X64_REGISTER_CR4, HV_X64_REGISTER_SFMASK,
};
use litebox::lvbs::patch::{HekiPatch, PatchRecordSizes, TextWrite};
use litebox::lvbs::symbol::{HekiKernelSymbol, SymbolLayout};
use litebox::lvbs::text_patch::{mshv_vsm_patch_text, CopyRun, TextPatchAction};
use litebox::lvbs::vsm::{
    boot_aps_result, copy_result, hypercall_result, mshv_vsm_allocate_ringbuffer_memory,
    mshv_vsm_boot_aps, mshv_vsm_configure_partition, mshv_vsm_copy_secondary_key,
    mshv_vsm_enable_aps, mshv_vsm_end_of_boot, mshv_vsm_lock_regs, mshv_vsm_protect_memory,
    mshv_vsm_secure_config_vtl0, mshv_vsm_set_platform_root_key, protect_vtl1_memory,
    vsm_dispatch, ControlRegMap, CpuMask, LockAction, MemoryAction, RegisterWrite, VsmCall,
    LOCKED_REG_INTERCEPTS, NUM_CONTROL_REGS,
};
use litebox::addr::VirtAddr;

const VA: u64 = 0xffff_8880_0000_0000;
const READ: Access = Access::Attr(MemAttr { read: true, write: false, execute: false });
const READ_WRITE: Access = Access::Attr(MemAttr { read: true, write: true, execute: false });
const SIZES: PatchRecordSizes = PatchRecordSizes { info: 16, patch: 64 };
const SYMBOLS: SymbolLayout = SymbolLayout { value_pos: 0, name_pos: 4, len: 12, name_limit: 64 };

fn range(pa: u64, epa: u64) -> HekiRange {
    HekiRange {
        va: VA,
        pa,
        epa,
        mem_attr: None,
        kdata_type: HekiKdataType::Unknown,
        mod_mem_type: ModMemType::Unknown,
        kexec_type: HekiKexecType::Unknown,
    }
}

fn page(ranges: Vec<HekiRange>) -> Option<HekiPage> {
    Some(HekiPage { next_pa: 0, ranges })
}

fn zeros(n: usize) -> Vec<Vec<u8>> {
    vec![vec![0u8; 4096]; n]
}

fn request(pa: u64, num_pages: u64, access: Access) -> Protection {
    Protection { pa, num_pages, access }
}

#[test]
fn control_registers_are_saved_by_name() {
    let mut regs = ControlRegMap { entries: [(0, 0); NUM_CONTROL_REGS] };
    let mut values = [None; NUM_CONTROL_REGS];
    values[0] = Some(0x8001_0033);
    values[10] = Some(7);
    let info = Vtl0KernelInfo::new();
    let mut op = mshv_vsm_lock_regs(&info, &mut regs);
    let mut writes = Vec::new();
    loop {
        op = match op.action(&regs) {
            LockAction::Read { name } => {
                assert!(writes.is_empty());
                let i = regs.reg_names().iter().position(|n| *n == name).unwrap();
                op.read(&mut regs, values[i])
            },
            LockAction::Write { write } => {
                writes.push((write.name, write.value));
                op.written(&regs, Ok(()))
            },
            LockAction::Finish { result } => {
                assert!(matches!(result, Ok(0)));
                break;
            },
        };
    }
    assert_eq!(
        writes,
        vec![(0xe_0000, 0x7f_d543), (0xe_0002, 0xffff_de3f), (0xe_0001, 0x8001_0001)]
    );
    assert_eq!(regs.get(HV_X64_REGISTER_CR0), Some(0x8001_0033));
    assert_eq!(regs.get(HV_X64_REGISTER_CR4), Some(0));
    assert_eq!(regs.get(HV_X64_REGISTER_SFMASK), Some(7));
    assert_eq!(regs.get(1), None);
    regs.set(HV_X64_REGISTER_CR4, 9);
    regs.set(1, 5);
    assert_eq!(regs.get(HV_X64_REGISTER_CR4), Some(9));
    assert_eq!(regs.get(HV_X64_REGISTER_CR0), Some(0x8001_0033));
    assert_eq!(regs.get(1), None);
    assert_eq!(regs.reg_names()[1], HV_X64_REGISTER_CR4);
    regs.init();
    assert_eq!(regs.get(HV_X64_REGISTER_CR4), Some(0));
}

#[test]
fn processors_are_booted() {
    assert!(matches!(mshv_vsm_enable_aps(0), Ok(0)));
    assert!(matches!(mshv_vsm_boot_aps(2), Ok(0x2000)));
    assert!(matches!(mshv_vsm_boot_aps(1 << 52), Ok(0)));
    assert!(matches!(mshv_vsm_boot_aps(1 << 40), Err(VsmError::InvalidPhysicalAddress)));
    let mut online = None;
    let cpus = |cpus: &[u32]| CpuMask { cpus: cpus.to_vec() };
    assert!(matches!(
        boot_aps_result(&mut online, None),
        Err(VsmError::CpuOnlineMaskCopyFailed)
    ));
    let failures = vec![
        Err(HypervCallError { status: 5 }),
        Ok(()),
        Err(HypervCallError { status: 6 }),
        Ok(()),
    ];
    assert!(matches!(
        boot_aps_result(&mut online, Some((cpus(&[0, 1, 2, 3]), failures))),
        Err(VsmError::ApInitFailed(HypervCallError { status: 6 }))
    ));
    assert_eq!(online, None);
    // The mask is kept once.
    assert!(matches!(boot_aps_result(&mut online, Some((cpus(&[0, 1]), vec![Ok(()), Ok(())]))), Ok(0)));
    assert!(matches!(boot_aps_result(&mut online, Some((cpus(&[5]), vec![Ok(())]))), Ok(0)));
    assert_eq!(online, Some(cpus(&[0, 1])));
}

#[test]
fn partition_and_vtl0_are_configured() {
    assert_eq!(
        mshv_vsm_secure_config_vtl0(),
        RegisterWrite { name: HV_REGISTER_VSM_VP_SECURE_CONFIG_VTL0, value: 3 }
    );
    assert_eq!(
        mshv_vsm_configure_partition(),
        RegisterWrite { name: HV_REGISTER_VSM_PARTITION_CONFIG, value: 0x1f }
    );
    assert_eq!(
        protect_vtl1_memory(0x10_0000, 0x2000),
        vec![request(0x10_0000, 2, Access::Attr(MemAttr::empty()))]
    );
    assert_eq!(
        mshv_vsm_allocate_ringbuffer_memory(0x5000, 0x3000),
        vec![request(0x5000, 3, READ)]
    );
    assert!(matches!(mshv_vsm_copy_secondary_key(0, 0), Ok(0)));
    assert!(matches!(hypercall_result(Ok(())), Ok(0)));
    assert!(matches!(
        hypercall_result(Err(HypervCallError { status: 2 })),
        Err(VsmError::HypercallFailed(HypervCallError { status: 2 }))
    ));
    assert!(matches!(copy_result(true), Ok(0)));
    assert!(matches!(copy_result(false), Err(VsmError::Vtl0CopyFailed)));
}

#[test]
fn nothing_is_unlocked_after_boot() {
    let mut info = Vtl0KernelInfo::new();
    let mut regs = ControlRegMap { entries: [(0, 0); NUM_CONTROL_REGS] };
    let mut op = mshv_vsm_lock_regs(&info, &mut regs);
    for _ in 0..NUM_CONTROL_REGS {
        op = op.read(&mut regs, None);
    }
    match op.action(&regs) {
        LockAction::Write { write } => assert_eq!(write.value, LOCKED_REG_INTERCEPTS),
        action => panic!("{action:?}"),
    }
    let op = op.written(&regs, Err(HypervCallError { status: 5 }));
    assert!(matches!(
        op.action(&regs),
        LockAction::Finish { result: Err(VsmError::HypercallFailed(_)) }
    ));
    assert!(matches!(mshv_vsm_set_platform_root_key(&info, 0x1000), Ok(0x1000)));
    assert!(matches!(
        mshv_vsm_set_platform_root_key(&info, 1 << 52),
        Err(VsmError::InvalidPhysicalAddress)
    ));
    assert_eq!(mshv_vsm_end_of_boot(&mut info), 0);
    let refused = |e: VsmError| assert_eq!(Errno::from(e), Errno::EPERM);
    match mshv_vsm_lock_regs(&info, &mut regs).action(&regs) {
        LockAction::Finish { result: Err(e) } => refused(e),
        action => panic!("{action:?}"),
    }
    refused(mshv_vsm_set_platform_root_key(&info, 0x1000).unwrap_err());
    match mshv_vsm_protect_memory(&info, 0x1000, 1).action() {
        MemoryAction::Finish { result: Err(e) } => refused(e),
        _ => panic!("not refused"),
    }
    match mshv_vsm_load_kdata(&info, 0x1000, 1).action(&info) {
        KdataAction::Finish { result: Err(e) } => refused(e),
        _ => panic!("not refused"),
    }
}

#[test]
fn memory_is_protected_up_to_the_first_bad_range() {
    let info = Vtl0KernelInfo::new();
    let mut op = mshv_vsm_protect_memory(&info, 0x1000, 3);
    assert!(matches!(op.action(), MemoryAction::CopyHekiPage { pa: 0x1000 }));
    let first = HekiRange { mem_attr: Some(MemAttr::read_only()), ..range(0x2000, 0x4000) };
    let empty = HekiRange { mem_attr: Some(MemAttr::read_only()), ..range(0x4000, 0x4000) };
    let unaligned = HekiRange { mem_attr: Some(MemAttr::read_only()), ..range(0x5000, 0x5001) };
    op = op.heki_page(page(vec![first, empty, unaligned]));
    match op.action() {
        MemoryAction::Protect { request: r } => assert_eq!(r, request(0x2000, 2, READ)),
        _ => panic!("no request"),
    }
    op = op.protected(Ok(()));
    assert!(matches!(
        op.action(),
        MemoryAction::Finish { result: Err(VsmError::AddressNotPageAligned) }
    ));

    op = mshv_vsm_protect_memory(&info, 0x1000, 1).heki_page(page(vec![first]));
    op = op.protected(Err(HypervCallError { status: 6 }));
    assert!(matches!(
        op.action(),
        MemoryAction::Finish { result: Err(VsmError::HypercallFailed(_)) }
    ));
    op = mshv_vsm_protect_memory(&info, 0x1000, 1).heki_page(page(vec![range(0x1000, 0x2000)]));
    assert!(matches!(
        op.action(),
        MemoryAction::Finish { result: Err(VsmError::MemoryAttributeInvalid) }
    ));
    op = mshv_vsm_protect_memory(&info, 0x1000, 1).heki_page(None);
    assert!(matches!(
        op.action(),
        MemoryAction::Finish { result: Err(VsmError::HekiPagesCopyFailed) }
    ));
    assert!(matches!(
        mshv_vsm_protect_memory(&info, 0x1001, 1).action(),
        MemoryAction::Finish { result: Err(VsmError::InvalidInputAddress) }
    ));
}

fn kdata(kind: HekiKdataType, pa: u64) -> HekiRange {
    HekiRange { kdata_type: kind, ..range(pa, pa + 0x1000) }
}

fn start_kdata(info: &Vtl0KernelInfo, ranges: Vec<HekiRange>) -> KdataLoading {
    mshv_vsm_load_kdata(info, 0x1000, ranges.len() as u64).heki_page(info, page(ranges))
}

#[test]
fn kernel_data_without_certificates_is_refused() {
    let mut info = Vtl0KernelInfo::new();
    let mut op = start_kdata(&info, vec![kdata(HekiKdataType::KernelInfo, 0x8000)]);
    for count in [0, 0, 1] {
        match op.action(&info) {
            KdataAction::CopyPages { pas } => assert_eq!(pas.len(), count),
            _ => panic!("no copy"),
        }
        op = op.pages(&mut info, &zeros(count));
    }
    op = op.pages(&mut info, &zeros(0));
    assert!(matches!(
        op.action(&info),
        KdataAction::Finish { result: Err(VsmError::SystemCertificatesNotFound) }
    ));
    assert!(info.get_system_certificates().is_none());
}

#[test]
fn bytes_that_hold_no_certificate_are_refused() {
    let mut info = Vtl0KernelInfo::new();
    let mut op = start_kdata(&info, vec![kdata(HekiKdataType::SystemCerts, 0x8000)]);
    op = op.pages(&mut info, &zeros(1));
    for _ in 0..3 {
        op = op.pages(&mut info, &zeros(0));
    }
    assert!(matches!(
        op.action(&info),
        KdataAction::Finish { result: Err(VsmError::SystemCertificatesInvalid) }
    ));
}

#[test]
fn kernel_data_of_unknown_kind_is_refused() {
    let mut info = Vtl0KernelInfo::new();
    let op = start_kdata(&info, vec![range(0x8000, 0x9000)]);
    assert!(matches!(
        op.action(&info),
        KdataAction::Finish { result: Err(VsmError::KernelDataTypeInvalid) }
    ));
    let op = start_kdata(&info, vec![kdata(HekiKdataType::SystemCerts, 0x8000)]);
    let op = op.pages(&mut info, &zeros(0));
    assert!(matches!(op.action(&info), KdataAction::Finish { result: Err(VsmError::Vtl0CopyFailed) }));
}

#[test]
fn certificates_are_kept_unless_there_are_none() {
    let mut info = Vtl0KernelInfo::new();
    assert!(matches!(
        keep_system_certificates(&mut info, vec![]),
        Err(VsmError::SystemCertificatesInvalid)
    ));
    assert!(keep_system_certificates(&mut info, vec![vec![1]]).is_ok());
    assert_eq!(info.get_system_certificates().unwrap().len(), 1);
}

fn filled(bytes: &[u8]) -> MemoryContainer {
    let mut mem = MemoryContainer::new();
    assert!(mem.extend_range(&range(0x1000, 0x1000 + bytes.len() as u64)).is_ok());
    let mut content = vec![0u8; 4096];
    content[..bytes.len()].copy_from_slice(bytes);
    assert!(mem.write_bytes_from_heki_range(&vec![content]).is_ok());
    mem
}

#[test]
fn kernel_symbols_are_loaded() {
    let mut info = Vtl0KernelInfo::new();
    let mut bytes = vec![0x40, 0, 0, 0, 8, 0, 0, 0, 0, 0, 0, 0];
    bytes.extend_from_slice(b"kfree\0");
    let data = filled(&bytes);
    let table = |len: u64| KernelSymtab { start: VirtAddr::new(VA), end: VirtAddr::new(VA + len) };
    // The description tells the length of the second table.
    let kinfo = filled(&[12]);
    let tables = |bytes: &[u8]| Ok(KernelSymtabs { gpl: table(0), all: table(u64::from(bytes[0])) });
    let symbol = |bytes: &[u8]| {
        let field = |at: usize| i32::from_le_bytes(bytes[at..at + 4].try_into().unwrap());
        Ok(HekiKernelSymbol { value_offset: field(0), name_offset: field(4) })
    };
    let result = load_kernel_symbols(&mut info, &kinfo, &data, SYMBOLS, &tables, &symbol);
    assert!(matches!(result, Ok(0)));
    assert_eq!(info.symbols.get("kfree").unwrap().value, VA + 0x40);
    assert!(info.gpl_symbols.get("kfree").is_none());
    let none = MemoryContainer::new();
    assert!(matches!(
        load_kernel_symbols(&mut info, &none, &data, SYMBOLS, &tables, &symbol),
        Err(VsmError::KernelSymbolTableNotFound)
    ));
    let undecoded = |_: &[u8]| Err(VsmError::BufferTooSmall("kernel info"));
    assert!(matches!(
        load_kernel_symbols(&mut info, &kinfo, &data, SYMBOLS, &undecoded, &symbol),
        Err(VsmError::BufferTooSmall(_))
    ));
}

/// A header with a mark, and a patch behind it.
fn group(pa_0: u64, pa_1: u64) -> Vec<u8> {
    let words = [1, 1, pa_0, pa_1, 0, 0, 0, 0, 0, 0];
    words.iter().flat_map(|word: &u64| word.to_le_bytes()).collect()
}

fn word(bytes: &[u8], at: usize) -> u64 {
    u64::from_le_bytes(bytes[at..at + 8].try_into().unwrap())
}

fn read_header(bytes: &[u8]) -> Option<u64> {
    (word(bytes, 8) == 1).then_some(word(bytes, 0))
}

fn read_patch(bytes: &[u8]) -> Option<HekiPatch> {
    Some(HekiPatch { pa_0: word(bytes, 0), pa_1: word(bytes, 8), code: vec![0x90; 5] })
}

#[test]
fn text_is_patched_as_announced() {
    let mut info = Vtl0KernelInfo::new();
    let announced = filled(&group(0x2fff, 0x9000));
    let loaded = load_kernel_patches(&mut info, &announced, SIZES, &read_header, &read_patch);
    assert!(loaded.is_ok());
    let requested = || HekiPatch { pa_0: 0x2fff, pa_1: 0x9000, code: vec![1, 2, 3] };

    let mut op = mshv_vsm_patch_text(0x1ff0, 0x7000, 64);
    assert!(matches!(
        op.action(&info),
        TextPatchAction::Copy {
            first: CopyRun { pa: 0x1ff0, len: 16 },
            second: Some(CopyRun { pa: 0x7000, len: 48 }),
        }
    ));
    op = op.copied(&info, Some((vec![1; 16], vec![2; 48])), &|bytes: &[u8]| {
        assert_eq!(bytes, [vec![1; 16], vec![2; 48]].concat());
        (requested(), true)
    });
    assert!(matches!(op.action(&info), TextPatchAction::Compare));
    assert_eq!(op.patches().unwrap().1.code, vec![0x90; 5]);
    op = op.compared(&info, true);
    assert_eq!(op.code(), Some(&[1u8, 2, 3][..]));
    let expected =
        [TextWrite { pa: 0x2fff, from: 0, to: 1 }, TextWrite { pa: 0x9000, from: 1, to: 3 }];
    for write in expected {
        match op.action(&info) {
            TextPatchAction::Write { write: w } => assert_eq!(w, write),
            _ => panic!("no write"),
        }
        op = op.written(&info, true);
    }
    assert!(matches!(op.action(&info), TextPatchAction::Finish { result: Ok(0) }));
}

#[test]
fn suspicious_patches_are_refused() {
    let mut info = Vtl0KernelInfo::new();
    let announced = filled(&group(0x2000, 0));
    let loaded = load_kernel_patches(&mut info, &announced, SIZES, &read_header, &read_patch);
    assert!(loaded.is_ok());
    let patch = |pa_0: u64| HekiPatch { pa_0, pa_1: 0, code: vec![1] };
    let ends = |op: &litebox::lvbs::text_patch::TextPatching| match op.action(&info) {
        TextPatchAction::Finish { result: Err(e) } => Errno::from(e),
        _ => panic!("not finished"),
    };
    assert_eq!(ends(&mshv_vsm_patch_text(0, 0, 64)), Errno::EFAULT);
    let start = || mshv_vsm_patch_text(0x1000, 0, 64);
    assert!(matches!(
        start().action(&info),
        TextPatchAction::Copy { first: CopyRun { pa: 0x1000, len: 64 }, second: None }
    ));
    let decode = |pa_0, valid| move |_: &[u8]| (patch(pa_0), valid);
    assert_eq!(ends(&start().copied(&info, None, &decode(0x2000, true))), Errno::EFAULT);
    let one_run = || Some((vec![0; 64], vec![]));
    let unknown = start().copied(&info, one_run(), &decode(0x4000, true));
    assert_eq!(ends(&unknown), Errno::ENOENT);
    let known = || start().copied(&info, one_run(), &decode(0x2000, false));
    assert_eq!(ends(&known().compared(&info, false)), Errno::EACCES);
    assert_eq!(ends(&known().compared(&info, true).written(&info, false)), Errno::EFAULT);
    let two_pages = mshv_vsm_patch_text(0x1ff0, 0x7000, 64);
    let two_runs = Some((vec![0; 16], vec![0; 48]));
    assert_eq!(ends(&two_pages.copied(&info, two_runs, &decode(0x2000, false))), Errno::EFAULT);
    // A patch that could not be written is refused before that, unless it was announced.
    let apart = || HekiPatch { pa_0: 0x4000, pa_1: 0x9000, code: vec![1] };
    let unknown = start().copied(&info, one_run(), &|_: &[u8]| (apart(), true));
    assert_eq!(ends(&unknown), Errno::ENOENT);
    assert_eq!(ends(&mshv_vsm_patch_text(0xf_ffff_ffff_f001, 7, 64)), Errno::EFAULT);
}

fn module_range(kind: ModMemType, pa: u64) -> HekiRange {
    HekiRange { mod_mem_type: kind, ..range(pa, pa + 0x1000) }
}

fn trusting() -> Vtl0KernelInfo {
    let mut info = Vtl0KernelInfo::new();
    info.set_system_certificates(vec![vec![1]]);
    info
}

/// A module with a page of announced patches.
fn copied_module(info: &Vtl0KernelInfo) -> ModuleValidation {
    let mut patches = [group(0x2010, 0), group(0x9000, 0)].concat();
    patches.resize(4096, 0);
    let ranges = vec![
        module_range(ModMemType::Text, 0x2000),
        module_range(ModMemType::InitText, 0x3000),
        module_range(ModMemType::RoAfterInit, 0x4000),
        module_range(ModMemType::ElfBuffer, 0x5000),
        module_range(ModMemType::Patch, 0x6000),
    ];
    let op = mshv_vsm_validate_guest_module(info, 0x1000, 5, 0).heki_page(info, page(ranges));
    let op = op.pages(info, &zeros(1)).pages(info, &vec![patches]);
    match op.action(info) {
        ModuleAction::CopySections { text, init_text, init_rodata } => {
            assert_eq!((text, init_text), (vec![0x2000], vec![0x3000]));
            assert_eq!(init_rodata, Vec::<u64>::new());
        }
        _ => panic!("no sections"),
    }
    op.sections(info, &zeros(1), &zeros(1), &zeros(0))
}

#[test]
fn valid_module_is_protected_and_registered() {
    let mut info = trusting();
    let mut op = copied_module(&info);
    assert!(matches!(op.action(&info), ModuleAction::VerifySignature));
    assert_eq!(op.layout_ref().unwrap().elf.len(), 4096);
    op = op.signature_verified(&info, Ok(()));
    assert!(matches!(op.action(&info), ModuleAction::Compare));
    op = op.compared(&mut info, Some(true));
    assert!(matches!(op.action(&info), ModuleAction::DecodePatches));
    op = op.store_patches(&mut info, SIZES, &read_header, &read_patch);
    let kinds = [
        (0x2000, ModMemType::Text),
        (0x3000, ModMemType::InitText),
        (0x4000, ModMemType::RoAfterInit),
    ];
    for (pa, kind) in kinds {
        match op.action(&info) {
            ModuleAction::Protect { request: r } => {
                assert_eq!(r, request(pa, 1, Access::ForModuleMemory(kind)));
            }
            _ => panic!("no request"),
        }
        assert!(!info.module_memory_metadata.contains_key(0));
        op = op.protected(&mut info, Ok(()));
    }
    assert!(matches!(op.action(&info), ModuleAction::Finish { result: Ok(0) }));
    assert!(info.module_memory_metadata.contains_key(0));
    assert!(info.precomputed_patches.get(0x2010).is_some());
    assert!(info.precomputed_patches.get(0x9000).is_none());

    let after_init = mshv_vsm_free_guest_module_init(&info, 0).unwrap();
    assert_eq!(after_init, vec![request(0x3000, 1, READ_WRITE), request(0x4000, 1, READ)]);
    assert!(matches!(
        mshv_vsm_free_guest_module_init(&info, 7),
        Err(VsmError::ModuleTokenInvalid)
    ));

    let mut unloading = mshv_vsm_unload_guest_module(&mut info, 0);
    for pa in [0x2000, 0x3000, 0x4000] {
        assert_eq!(unloading.action(&info).ok(), Some(request(pa, 1, READ_WRITE)));
        assert!(info.module_memory_metadata.contains_key(0));
        unloading = unloading.protected(&mut info, Ok(()));
    }
    assert!(matches!(unloading.action(&info), Err(Ok(0))));
    assert!(!info.module_memory_metadata.contains_key(0));
    assert!(info.precomputed_patches.get(0x2010).is_none());
    assert!(matches!(
        mshv_vsm_unload_guest_module(&mut info, 0).action(&info),
        Err(Err(VsmError::ModuleTokenInvalid))
    ));
}

#[test]
fn failed_request_keeps_the_module_loaded() {
    let mut info = trusting();
    let mut op = copied_module(&info).signature_verified(&info, Ok(()));
    op = op.compared(&mut info, Some(true));
    op = op.store_patches(&mut info, SIZES, &read_header, &read_patch);
    for _ in 0..3 {
        op = op.protected(&mut info, Ok(()));
    }
    assert!(matches!(op.action(&info), ModuleAction::Finish { result: Ok(0) }));
    let unloading = mshv_vsm_unload_guest_module(&mut info, 0);
    let unloading = unloading.protected(&mut info, Err(HypervCallError { status: 1 }));
    assert!(matches!(unloading.action(&info), Err(Err(VsmError::HypercallFailed(_)))));
    assert!(info.module_memory_metadata.contains_key(0));
}

#[test]
fn untrustworthy_modules_get_no_token() {
    let ends = |op: &ModuleValidation, info: &Vtl0KernelInfo| match op.action(info) {
        ModuleAction::Finish { result: Err(e) } => Errno::from(e),
        _ => panic!("not finished"),
    };
    let fresh = Vtl0KernelInfo::new();
    let start = |info: &Vtl0KernelInfo| mshv_vsm_validate_guest_module(info, 0x1000, 1, 0);
    assert_eq!(ends(&start(&fresh), &fresh), Errno::EACCES);
    let mut info = trusting();
    let bad_address = mshv_vsm_validate_guest_module(&info, 0x1000, 0, 0);
    assert_eq!(ends(&bad_address, &info), Errno::EFAULT);
    let unknown = start(&info).heki_page(&info, page(vec![range(0x2000, 0x3000)]));
    assert_eq!(ends(&unknown, &info), Errno::EINVAL);
    let unaligned = HekiRange { mod_mem_type: ModMemType::Text, ..range(0x2000, 0x2001) };
    let unaligned = start(&info).heki_page(&info, page(vec![unaligned]));
    assert_eq!(ends(&unaligned, &info), Errno::EINVAL);
    let unsigned = VerificationError { errno: Errno::ENODEV };
    let op = copied_module(&info).signature_verified(&info, Err(unsigned));
    assert_eq!(ends(&op, &info), Errno::ENODEV);
    let op = copied_module(&info).signature_verified(&info, Ok(()));
    let op = op.compared(&mut info, None);
    assert_eq!(ends(&op, &info), Errno::EFAULT);
    let op = copied_module(&info).signature_verified(&info, Ok(()));
    let op = op.compared(&mut info, Some(false));
    assert_eq!(ends(&op, &info), Errno::EINVAL);
    let op = copied_module(&info).signature_verified(&info, Ok(()));
    let op = op.compared(&mut info, Some(true));
    let op = op.store_patches(&mut info, SIZES, &read_header, &read_patch);
    let op = op.protected(&mut info, Err(HypervCallError { status: 1 }));
    assert_eq!(ends(&op, &info), Errno::EIO);
    assert!(!info.module_memory_metadata.contains_key(0));
}

fn kexec_range(kind: HekiKexecType, pa: u64) -> HekiRange {
    HekiRange { kexec_type: kind, ..range(pa, pa + 0x1000) }
}

fn next_request(op: &KexecValidation, info: &Vtl0KernelInfo) -> Protection {
    match op.action(info) {
        KexecAction::Protect { request } => request,
        _ => panic!("no request"),
    }
}

fn validated_kexec(info: &mut Vtl0KernelInfo, crash: u64) -> KexecValidation {
    let ranges = vec![
        kexec_range(HekiKexecType::KexecImage, 0x2000),
        kexec_range(HekiKexecType::KexecKernelBlob, 0x3000),
        kexec_range(HekiKexecType::KexecPages, 0x4000),
    ];
    let op = mshv_vsm_kexec_validate(info, 0x1000, 3, crash);
    op.heki_page(info, page(ranges)).pages(info, &zeros(1)).pages(info, &zeros(1))
}

#[test]
fn kexec_image_is_protected_before_it_is_verified() {
    let mut info = trusting();
    let mut op = validated_kexec(&mut info, 0);
    for pa in [0x2000, 0x4000] {
        assert_eq!(next_request(&op, &info), request(pa, 1, READ));
        assert!(op.kernel_blob().is_none());
        op = op.protected(&mut info, Ok(()));
    }
    assert!(matches!(op.action(&info), KexecAction::VerifySignature));
    assert_eq!(op.kernel_blob().unwrap().len(), 4096);
    op = op.signature_verified(&mut info, Ok(()));
    assert!(matches!(op.action(&info), KexecAction::Finish { result: Ok(0) }));
    assert_eq!(info.kexec_metadata.as_slice().len(), 2);
    assert_eq!(info.crash_kexec_metadata.as_slice().len(), 0);

    let mut op = mshv_vsm_kexec_validate(&mut info, 0, 0, 0);
    for pa in [0x2000, 0x4000] {
        assert_eq!(next_request(&op, &info), request(pa, 1, READ_WRITE));
        op = op.protected(&mut info, Ok(()));
    }
    assert!(matches!(op.action(&info), KexecAction::Finish { result: Ok(0) }));
    assert_eq!(info.kexec_metadata.as_slice().len(), 0);
}

#[test]
fn unsigned_kexec_image_is_unprotected_again() {
    let mut info = trusting();
    let mut op = validated_kexec(&mut info, 0);
    op = op.protected(&mut info, Ok(())).protected(&mut info, Ok(()));
    op = op.signature_verified(&mut info, Err(VerificationError { errno: Errno::EACCES }));
    for pa in [0x2000, 0x4000] {
        assert_eq!(next_request(&op, &info), request(pa, 1, READ_WRITE));
        op = op.protected(&mut info, Ok(()));
    }
    assert!(matches!(
        op.action(&info),
        KexecAction::Finish { result: Err(VsmError::SignatureVerificationFailed(_)) }
    ));
    assert_eq!(info.kexec_metadata.as_slice().len(), 0);
}

#[test]
fn crash_image_protects_its_segments() {
    let mut info = trusting();
    let mut op = validated_kexec(&mut info, 1);
    assert!(matches!(op.action(&info), KexecAction::DecodeImage));
    assert_eq!(op.image().unwrap().len(), 4096);
    op = op.add_segments(&info, 64, &|bytes: &[u8]| {
        assert_eq!(bytes.len(), 64);
        let segment = vec![KexecSegment { buf: VA, mem: 0x8000, memsz: 0x2000 }];
        Some(Kimage { nr_segments: 1, segment })
    });
    for (pa, pages) in [(0x2000, 1), (0x4000, 1), (0x8000, 2)] {
        assert_eq!(next_request(&op, &info), request(pa, pages, READ));
        op = op.protected(&mut info, Ok(()));
    }
    op = op.signature_verified(&mut info, Ok(()));
    assert!(matches!(op.action(&info), KexecAction::Finish { result: Ok(0) }));
    assert_eq!(info.crash_kexec_metadata.as_slice().len(), 3);
    assert_eq!(info.kexec_metadata.as_slice().len(), 0);
}

#[test]
fn kexec_errors() {
    let ends = |op: &KexecValidation, info: &Vtl0KernelInfo| match op.action(info) {
        KexecAction::Finish { result: Err(e) } => Errno::from(e),
        _ => panic!("not finished"),
    };
    let mut fresh = Vtl0KernelInfo::new();
    let op = mshv_vsm_kexec_validate(&mut fresh, 0x1000, 1, 0);
    assert_eq!(ends(&op, &fresh), Errno::EACCES);
    let op = mshv_vsm_kexec_validate(&mut fresh, u64::MAX, 1, 0);
    assert_eq!(ends(&op, &fresh), Errno::EACCES);
    let mut info = trusting();
    let op = mshv_vsm_kexec_validate(&mut info, 0x1000, 1, 0);
    let op = op.heki_page(&info, page(vec![range(0x2000, 0x3000)]));
    assert_eq!(ends(&op, &info), Errno::EINVAL);
    let op = mshv_vsm_kexec_validate(&mut info, 0x1000, 1, 0);
    let op = op.heki_page(&info, page(vec![kexec_range(HekiKexecType::KexecImage, 0x2000)]));
    assert_eq!(ends(&op.pages(&info, &zeros(0)), &info), Errno::EFAULT);
    let op = validated_kexec(&mut info, 0).protected(&mut info, Err(HypervCallError { status: 1 }));
    assert_eq!(ends(&op, &info), Errno::EIO);
    let op = validated_kexec(&mut info, 1).add_segments(&info, 64, &|_: &[u8]| None);
    assert_eq!(ends(&op, &info), Errno::EINVAL);
    let overflow = KexecSegment { buf: VA, mem: u64::MAX, memsz: 1 };
    let image = |nr_segments: u64, segment: Vec<KexecSegment>| Kimage { nr_segments, segment };
    let decode = |_: &[u8]| Some(image(1, vec![overflow]));
    let op = validated_kexec(&mut info, 1).add_segments(&info, 64, &decode);
    assert_eq!(ends(&op, &info), Errno::ERANGE);
    let mut memory = KexecMemoryMetadata::new();
    assert!(matches!(
        add_crash_segments(&mut memory, Some(&image(2, vec![overflow]))),
        Err(VsmError::KexecImageSegmentsInvalid)
    ));
    let two = vec![KexecSegment { buf: VA, mem: 0x1000, memsz: 0x1000 }, overflow];
    assert!(add_crash_segments(&mut memory, Some(&image(2, two))).is_err());
    assert_eq!(memory.as_slice(), &[KexecMemoryRange::new(VA, 0x1000, 0x2000)]);
}

#[test]
fn calls_are_dispatched_by_function() {
    let params = [1u64, 2, 3, 4];
    assert_eq!(
        vsm_dispatch(VsmFunction::ValidateModule, &params),
        VsmCall::ValidateGuestModule { pa: 1, nranges: 2, flags: 3 }
    );
    assert_eq!(
        vsm_dispatch(VsmFunction::UnloadModule, &[u64::MAX]),
        VsmCall::UnloadGuestModule { token: -1 }
    );
    assert_eq!(
        vsm_dispatch(VsmFunction::PatchText, &params),
        VsmCall::PatchText { patch_pa_0: 1, patch_pa_1: 2 }
    );
    assert_eq!(vsm_dispatch(VsmFunction::LockRegs, &[]), VsmCall::LockRegs);
    assert_eq!(
        vsm_dispatch(VsmFunction::OpteeMessage, &[]),
        VsmCall::Refused { error: Errno::ENOTSUP }
    );
}
