//! VTL0 memory as VTL1 sees it: descriptions, contents, modules, symbols and certificates.
use litebox::addr::{PhysAddr, PhysFrameRange, VirtAddr};
use litebox::errno::Errno;
use litebox::lvbs::bootparam::{save_boot_info, BootInfo};
use litebox::lvbs::cert::{accept_cert, next_cert, parse_certs, CertFrame};
use litebox::lvbs::container::{MemoryContainer, MemoryContainerError, ModuleMemory};
use litebox::lvbs::error::{vtl_return, HypervCallError, VerificationError, VsmError};
use litebox::lvbs::heki::{
    protect_physical_memory_range, Access, HekiKdataType, HekiKexecType, HekiPage, HekiPageWalk,
    HekiRange, MemAttr, ModMemType, Protection,
};
use litebox::lvbs::kernel_info::Vtl0KernelInfo;
use litebox::lvbs::mm::{
    is_valid_user_addr, is_valid_user_ctx, HostLvbsInterface, LvbsValidateAccess, MemoryProvider,
};
use litebox::lvbs::module::{
    KexecMemoryMetadata, KexecMemoryRange, ModuleMemoryMetadata, ModuleMemoryMetadataMap,
    ModuleMemoryRange,
};
use litebox::lvbs::ringbuffer::{RingBuffer, RingWrite};
use litebox::lvbs::symbol::{HekiKernelSymbol, Symbol, SymbolLayout, SymbolTable};

fn range(va: u64, pa: u64, epa: u64) -> HekiRange {
    HekiRange {
        va,
        pa,
        epa,
        mem_attr: None,
        kdata_type: HekiKdataType::Unknown,
        mod_mem_type: ModMemType::Text,
        kexec_type: HekiKexecType::Unknown,
    }
}

const KERNEL_VA: u64 = 0xffff_8880_0000_0000;

#[test]
fn addresses_are_checked_and_truncated() {
    assert!(PhysAddr::try_new(0x10_0000_0000_0000).is_none());
    assert_eq!(PhysAddr::new_truncate(0x10_0000_0000_1234).as_u64(), 0x1234);
    assert_eq!(PhysAddr::new(0x1234).page_align_down().as_u64(), 0x1000);
    assert!(VirtAddr::try_new(0x8000_0000_0000).is_none());
    assert_eq!(
        VirtAddr::new_truncate(0x8000_0000_0000).as_u64(),
        0xffff_8000_0000_0000
    );
    let frames = PhysFrameRange::from_addrs(0x1fff, 0x4001);
    assert_eq!((frames.start, frames.end), (0x1000, 0x4000));
    assert_eq!(frames.count(), 3);
    assert!(frames.contains(0x3fff));
    assert!(!frames.contains(0x4000));
    assert_eq!(PhysFrameRange { start: 0x4000, end: 0x1000 }.count(), 0);
}

#[test]
fn ranges_are_validated() {
    assert!(range(KERNEL_VA, 0x1000, 0x3000).is_valid());
    assert!(range(KERNEL_VA, 0x1000, 0x3000).is_aligned());
    assert!(!range(KERNEL_VA, 0x1000, 0x3001).is_aligned());
    assert!(!range(KERNEL_VA, 0x3000, 0x1000).is_valid());
    assert!(!range(0x8000_0000_0000, 0x1000, 0x2000).is_valid());
    assert!(!range(0x7fff_ffff_f000, 0x1000, 0x3000).is_valid());
    assert!(!range(KERNEL_VA, 0x1000, 1 << 52).is_valid());
    assert_eq!(range(KERNEL_VA, 0x1000, 0x3000).phys_frame_range().count(), 2);
}

#[test]
fn page_walk_collects_ranges_along_the_chain() {
    let mut walk = HekiPageWalk::new(0x1000, 3);
    assert_eq!(walk.next_page(), Some(0x1000));
    let first = HekiPage {
        next_pa: 0x5000,
        ranges: vec![range(KERNEL_VA, 0x1000, 0x2000), range(KERNEL_VA, 0x2000, 0x3000)],
    };
    assert!(walk.accept(Some(first)).is_ok());
    assert_eq!(walk.next_page(), Some(0x5000));
    let second = HekiPage {
        next_pa: 0,
        ranges: vec![range(KERNEL_VA, 0x3000, 0x4000)],
    };
    assert!(walk.accept(Some(second)).is_ok());
    assert_eq!(walk.next_page(), None);
    let found = walk.into_ranges();
    assert_eq!(found.len(), 3);
    assert_eq!(found[2].pa, 0x3000);
}

#[test]
fn page_walk_fails_on_bad_pages() {
    let mut walk = HekiPageWalk::new(0x1000, 1);
    assert!(matches!(walk.accept(None), Err(VsmError::HekiPagesCopyFailed)));
    let empty = HekiPage { next_pa: 0, ranges: vec![] };
    assert!(matches!(walk.accept(Some(empty)), Err(VsmError::HekiPagesCopyFailed)));
    let backwards = HekiPage {
        next_pa: 0,
        ranges: vec![range(KERNEL_VA, 0x2000, 0x1000)],
    };
    assert!(matches!(walk.accept(Some(backwards)), Err(VsmError::HekiPagesCopyFailed)));
    assert_eq!(walk.next_page(), Some(0x1000));
}

#[test]
fn protection_requests_name_whole_ranges() {
    let mut requests = Vec::new();
    let access = Access::Attr(MemAttr::read_only());
    protect_physical_memory_range(PhysFrameRange { start: 0x1000, end: 0x4000 }, access, &mut requests);
    protect_physical_memory_range(PhysFrameRange { start: 0x4000, end: 0x4000 }, access, &mut requests);
    assert_eq!(requests, vec![Protection { pa: 0x1000, num_pages: 3, access }]);
    assert_eq!(MemAttr::empty(), MemAttr { read: false, write: false, execute: false });
    assert!(MemAttr::read_write().write);
}

#[test]
fn vsm_errors_have_their_numbers() {
    assert_eq!(Errno::from(VsmError::InvalidInputAddress), Errno::EFAULT);
    assert_eq!(Errno::from(VsmError::PrecomputedPatchNotFound), Errno::ENOENT);
    assert_eq!(Errno::from(VsmError::OperationAfterEndOfBoot("lock")), Errno::EPERM);
    assert_eq!(Errno::from(VsmError::OperationNotSupported("kexec")), Errno::ENOTSUP);
    assert_eq!(Errno::from(VsmError::TextPatchSuspicious), Errno::EACCES);
    assert_eq!(
        Errno::from(VsmError::ModuleElfSizeExceeded { size: 2, max: 1 }),
        Errno::ERANGE
    );
    assert_eq!(
        Errno::from(VsmError::HypercallFailed(HypervCallError { status: 5 })),
        Errno::EIO
    );
    assert_eq!(Errno::from(VsmError::KexecTypeInvalid), Errno::EINVAL);
    let unsigned = VsmError::from(VerificationError { errno: Errno::ENODEV });
    assert_eq!(Errno::from(unsigned), Errno::ENODEV);
    assert_eq!(vtl_return(Ok(7)), 7);
    assert_eq!(vtl_return(Err(VsmError::AddressNotPageAligned)), -22);
}

fn page_of(byte: u8) -> Vec<u8> {
    let mut page = vec![byte; 4096];
    page[0] = 0xee;
    page
}

#[test]
fn container_collects_bytes_across_pages() {
    let mut mem = MemoryContainer::new();
    assert!(mem.extend_range(&range(KERNEL_VA, 0x1ffe, 0x2002)).is_ok());
    assert!(mem.extend_range(&range(KERNEL_VA + 4, 0x9001, 0x9003)).is_ok());
    assert_eq!(mem.page_addrs(), vec![0x1000, 0x2000, 0x9000]);
    let pages = vec![page_of(1), page_of(2), page_of(3)];
    assert_eq!(mem.write_bytes_from_heki_range(&pages), Ok(()));
    assert_eq!(mem.as_slice(), &[1, 1, 0xee, 2, 3, 3]);
    assert_eq!(mem.len(), 6);
    let (start, end) = mem.get_range().unwrap();
    assert_eq!((start.as_u64(), end.as_u64()), (KERNEL_VA, KERNEL_VA + 6));
}

#[test]
fn container_keeps_what_was_copied_before_a_failure() {
    let mut mem = MemoryContainer::default();
    assert!(mem.is_empty());
    assert!(mem.get_range().is_none());
    assert!(mem.extend_range(&range(KERNEL_VA, 0x1ffe, 0x2002)).is_ok());
    assert!(mem.extend_range(&range(KERNEL_VA + 4, 0x9001, 0x9003)).is_ok());
    let pages = vec![page_of(1)];
    assert_eq!(
        mem.write_bytes_from_heki_range(&pages),
        Err(MemoryContainerError::CopyFromVtl0Failed)
    );
    assert_eq!(mem.as_slice(), &[1, 1]);
}

#[test]
fn container_rejects_addresses_that_do_not_exist() {
    let mut mem = MemoryContainer::new();
    assert!(matches!(
        mem.extend_range(&range(0x8000_0000_0000, 0, 0)),
        Err(VsmError::InvalidVirtualAddress)
    ));
    assert!(matches!(
        mem.extend_range(&range(KERNEL_VA, 1 << 52, 0)),
        Err(VsmError::InvalidPhysicalAddress)
    ));
    assert!(mem.get_range().is_none());
}

#[test]
fn module_sections_are_found_by_name() {
    let mut module = ModuleMemory::new();
    let text = range(KERNEL_VA, 0x1000, 0x1002);
    let rodata = range(KERNEL_VA, 0x3000, 0x3001);
    assert!(module.extend_range(ModMemType::Text, &text).is_ok());
    assert!(module.extend_range(ModMemType::InitRoData, &rodata).is_ok());
    assert!(module.extend_range(ModMemType::Data, &text).is_ok());
    assert!(matches!(
        module.extend_range(ModMemType::Text, &range(0x8000_0000_0000, 0, 0)),
        Err(VsmError::InvalidVirtualAddress)
    ));
    assert!(matches!(
        module.extend_range(ModMemType::InitText, &range(KERNEL_VA, 1 << 52, 0)),
        Err(VsmError::InvalidPhysicalAddress)
    ));
    assert!(module.extend_range(ModMemType::Data, &range(0x8000_0000_0000, 0, 0)).is_ok());
    let (a, b, c) = module.page_addrs();
    assert_eq!((a, b, c), (vec![0x1000], vec![], vec![0x3000]));
    let result =
        module.write_bytes_from_heki_range(&vec![page_of(5)], &vec![], &vec![page_of(6)]);
    assert_eq!(result, Ok(()));
    let found = module.find_section_by_name(".text").unwrap();
    assert_eq!(found.as_slice(), &[0xee, 5]);
    assert_eq!(module.find_section_by_name(".init.text").unwrap().len(), 0);
    assert_eq!(module.find_section_by_name(".init.rodata").unwrap().as_slice(), &[0xee]);
    assert!(module.find_section_by_name(".data").is_none());
}

#[test]
fn sections_behind_a_failure_are_not_written() {
    let mut module = ModuleMemory::default();
    assert!(module.extend_range(ModMemType::Text, &range(KERNEL_VA, 0x1000, 0x1001)).is_ok());
    assert!(module.extend_range(ModMemType::InitText, &range(KERNEL_VA, 0x2000, 0x2001)).is_ok());
    let result = module.write_bytes_from_heki_range(&vec![], &vec![page_of(1)], &vec![]);
    assert_eq!(result, Err(MemoryContainerError::CopyFromVtl0Failed));
    assert!(module.find_section_by_name(".init.text").unwrap().is_empty());
}

#[test]
fn modules_are_known_by_their_tokens() {
    let mut registry = ModuleMemoryMetadataMap::new();
    let mut module = ModuleMemoryMetadata::new();
    module.insert_heki_range(&range(KERNEL_VA, 0x1000, 0x3000));
    module.insert_patch_target(0x1234);
    assert_eq!(registry.register_module_memory_metadata(module), 0);
    assert_eq!(
        registry.register_module_memory_metadata(ModuleMemoryMetadata::default()),
        1
    );
    assert!(registry.contains_key(0));
    assert_eq!(registry.get_patch_targets(0), Some(vec![0x1234]));
    assert_eq!(registry.get_patch_targets(1), Some(vec![]));
    assert_eq!(registry.get_patch_targets(2), None);
    let expected = ModuleMemoryRange::new(KERNEL_VA, 0x1000, 0x3000, ModMemType::Text);
    assert_eq!(registry.iter_entry(0).unwrap().as_slice(), &[expected]);
    assert_eq!(registry.iter_entry(0).unwrap().iter().count(), 1);
    assert!(registry.remove(0));
    assert!(!registry.remove(0));
    assert!(!registry.contains_key(0));
    assert!(registry.contains_key(1));
    assert_eq!(
        registry.register_module_memory_metadata(ModuleMemoryMetadata::new()),
        2
    );
}

#[test]
fn kexec_memory_is_recorded_and_cleared() {
    let mut memory = KexecMemoryMetadata::new();
    memory.insert_heki_range(&range(KERNEL_VA, 0x1000, 0x2000));
    memory.insert_memory_range(KexecMemoryRange::default());
    assert_eq!(memory.as_slice().len(), 2);
    assert_eq!(memory.iter().next(), Some(&KexecMemoryRange::new(KERNEL_VA, 0x1000, 0x2000)));
    memory.clear();
    assert_eq!(memory.as_slice().len(), 0);
    assert_eq!(ModuleMemoryRange::default().mod_mem_type, ModMemType::Unknown);
}

const LAYOUT: SymbolLayout = SymbolLayout { value_pos: 0, name_pos: 4, len: 12, name_limit: 8 };

/// An entry: where its value and its name stand.
fn entry(value_offset: i32, name_offset: i32) -> Vec<u8> {
    [value_offset.to_le_bytes(), name_offset.to_le_bytes(), [0; 4]].concat()
}

fn read_symbol(bytes: &[u8]) -> Result<HekiKernelSymbol, VsmError> {
    if bytes.len() < LAYOUT.len {
        return Err(VsmError::BufferTooSmall("symbol"));
    }
    let field = |at: usize| i32::from_le_bytes(bytes[at..at + 4].try_into().unwrap());
    Ok(HekiKernelSymbol { value_offset: field(0), name_offset: field(4) })
}

#[test]
fn symbol_is_read_from_its_entry() {
    let mut bytes = entry(-16, 8);
    bytes.extend_from_slice(b"printk\0");
    let start = VirtAddr::new(KERNEL_VA);
    let (name, symbol) = Symbol::from_bytes(0, start, &bytes, LAYOUT, &read_symbol).unwrap();
    assert_eq!(name, "printk");
    assert_eq!(symbol.value, KERNEL_VA - 16);
    // The entry is read where it stands.
    let shifted = [vec![7; 3], bytes].concat();
    let (name, symbol) = Symbol::from_bytes(3, start, &shifted, LAYOUT, &read_symbol).unwrap();
    assert_eq!((name.as_str(), symbol.value), ("printk", KERNEL_VA - 16));
}

#[test]
fn malformed_symbols_are_rejected() {
    let start = VirtAddr::new(KERNEL_VA);
    let read = |bytes: &[u8]| Symbol::from_bytes(0, start, bytes, LAYOUT, &read_symbol);
    let with_name = |name: &[u8]| {
        let mut bytes = entry(0, 8);
        bytes.extend_from_slice(name);
        bytes
    };
    assert!(matches!(read(&entry(0, -1)), Err(VsmError::SymbolNameOffsetInvalid)));
    assert!(matches!(read(&entry(0, 8)[1..]), Err(VsmError::BufferTooSmall("symbol"))));
    assert!(matches!(
        read(&with_name(b"")),
        Err(VsmError::SymbolNameOffsetInvalid)
    ));
    assert!(matches!(
        read(&with_name(b"abc")),
        Err(VsmError::SymbolNameNoTerminator)
    ));
    assert!(matches!(
        read(&with_name(b"abcdefgh\0")),
        Err(VsmError::SymbolNameTooLong)
    ));
    assert!(matches!(
        read(&with_name(b"\xff\0")),
        Err(VsmError::SymbolNameInvalidUtf8)
    ));
}

fn symbol_memory() -> MemoryContainer {
    let mut page = vec![0u8; 4096];
    page[..12].copy_from_slice(&entry(0x100, 20));
    page[12..24].copy_from_slice(&entry(0x200, 15));
    page[24..31].copy_from_slice(b"printk\0");
    page[31..37].copy_from_slice(b"kfree\0");
    let mut mem = MemoryContainer::new();
    assert!(mem.extend_range(&range(KERNEL_VA, 0x1000, 0x2000)).is_ok());
    assert!(mem.write_bytes_from_heki_range(&vec![page]).is_ok());
    mem
}

#[test]
fn symbol_table_holds_every_entry() {
    let mem = symbol_memory();
    let mut table = SymbolTable::new();
    let start = VirtAddr::new(KERNEL_VA);
    let end = VirtAddr::new(KERNEL_VA + 24);
    let result = table.build_from_container(start, end, &mem, LAYOUT, &read_symbol);
    assert!(matches!(result, Ok(0)));
    assert_eq!(table.get("printk").unwrap().value, KERNEL_VA + 0x100);
    assert_eq!(table.get("kfree").unwrap().value, KERNEL_VA + 12 + 0x200);
    assert!(table.get("vmalloc").is_none());
}

#[test]
fn symbol_table_errors() {
    let mem = symbol_memory();
    let mut table = SymbolTable::default();
    let at = |offset: u64| VirtAddr::new(KERNEL_VA + offset);
    let empty = MemoryContainer::new();
    assert!(matches!(
        table.build_from_container(at(0), at(12), &empty, LAYOUT, &read_symbol),
        Err(VsmError::SymbolTableEmpty)
    ));
    assert!(matches!(
        table.build_from_container(at(4092), at(4104), &mem, LAYOUT, &read_symbol),
        Err(VsmError::SymbolTableOutOfRange)
    ));
    assert!(matches!(
        table.build_from_container(at(0), at(13), &mem, LAYOUT, &read_symbol),
        Err(VsmError::SymbolTableLengthInvalid)
    ));
    // Entries before the first that is malformed are kept.
    let short = |_: &[u8]| Err(VsmError::BufferTooSmall("symbol"));
    assert!(matches!(
        table.build_from_container(at(0), at(12), &mem, LAYOUT, &short),
        Err(VsmError::BufferTooSmall("symbol"))
    ));
    assert!(matches!(table.build_from_container(at(0), at(0), &mem, LAYOUT, &short), Ok(0)));
    assert!(table.get("printk").is_none());
    assert!(table.build_from_container(at(12), at(36), &mem, LAYOUT, &read_symbol).is_err());
    assert!(table.get("kfree").is_some());
}

#[test]
fn certificate_frames_are_delimited() {
    assert_eq!(next_cert(&[0x30, 0x82, 0x00]), CertFrame::End);
    assert_eq!(next_cert(&[0x30, 0x81, 0x00, 0x01, 0x00]), CertFrame::End);
    assert_eq!(
        next_cert(&[0x30, 0x82, 0x01, 0x02, 0x00]),
        CertFrame::Truncated { expected: 262, actual: 5 }
    );
    assert_eq!(
        next_cert(&[0x30, 0x82, 0x00, 0x01, 0x07, 0x09]),
        CertFrame::Sequence { len: 5 }
    );
}

#[test]
fn sequences_that_are_no_certificates_are_refused() {
    assert!(matches!(
        parse_certs(&[0x30, 0x82, 0x00, 0x01, 0x07]),
        Err(VsmError::CertificateParseFailed)
    ));
    assert!(matches!(
        parse_certs(&[0x30, 0x82, 0x00, 0x09, 0x07]),
        Err(VsmError::CertificateDerLengthInvalid { expected: 13, actual: 5 })
    ));
    assert_eq!(parse_certs(&[0u8; 16]).unwrap().len(), 0);
    let mut certs = Vec::new();
    assert!(accept_cert(&mut certs, &[1, 2], true).is_ok());
    assert!(matches!(
        accept_cert(&mut certs, &[3], false),
        Err(VsmError::CertificateParseFailed)
    ));
    assert_eq!(certs, vec![vec![1, 2]]);
}

#[test]
fn certificates_and_end_of_boot_are_set_once() {
    let mut info = Vtl0KernelInfo::new();
    assert!(!info.check_end_of_boot());
    assert!(info.get_system_certificates().is_none());
    info.set_system_certificates(vec![vec![1]]);
    info.set_system_certificates(vec![vec![2]]);
    assert_eq!(info.get_system_certificates(), Some(&vec![vec![1]]));
    info.set_end_of_boot();
    assert!(info.check_end_of_boot());
    assert!(info.find_precomputed_patch(0x1000, 0).is_none());
}

#[test]
fn boot_information_is_saved_once() {
    let mut info = BootInfo::new();
    assert_eq!(info.get_num_possible_cpus(), Err(Errno::EINVAL));
    assert_eq!(info.get_vtl1_memory_info(), Err(Errno::EINVAL));
    save_boot_info(&mut info, 4, 0x1000, 0x2000);
    save_boot_info(&mut info, 8, 0x5000, 0x1000);
    assert_eq!(info.get_num_possible_cpus(), Ok(4));
    assert_eq!(info.get_vtl1_memory_info(), Ok((0x1000, 0x2000)));
}

#[test]
fn addresses_round_trip_through_the_regions() {
    let pa = PhysAddr::new(0x1234_5678);
    let direct = HostLvbsInterface::pa_to_va_direct(pa);
    assert_eq!(direct.as_u64(), 0xffff_8000_1234_5678);
    assert_eq!(HostLvbsInterface::va_to_pa_direct(direct), pa);
    let kernel = HostLvbsInterface::pa_to_va(pa);
    assert_eq!(kernel.as_u64(), 0xffff_e200_1234_5678);
    assert_eq!(HostLvbsInterface::va_to_pa(kernel), pa);
    assert_eq!(HostLvbsInterface::make_pa_private(pa), pa);
}

#[test]
fn user_memory_is_bounded() {
    assert!(!is_valid_user_addr(0xffff));
    assert!(is_valid_user_addr(0x1_0000));
    assert!(!is_valid_user_addr(0x7fff_ffff_f000));
    assert!(is_valid_user_ctx(0x2_0000, 0x1_0000));
    assert!(!is_valid_user_ctx(0x2_0000, 0));
    assert_eq!(LvbsValidateAccess::validate(0x1_0000, 8), Some(0x1_0000));
    assert_eq!(LvbsValidateAccess::validate(0x7fff_ffff_eff8, 8), Some(0x7fff_ffff_eff8));
    assert_eq!(LvbsValidateAccess::validate(0x7fff_ffff_eff9, 8), None);
    assert_eq!(LvbsValidateAccess::validate(u64::MAX, 8), None);
    assert_eq!(LvbsValidateAccess::validate_slice(0x1_0000, 2, 8), Some(0x1_0000));
    assert_eq!(LvbsValidateAccess::validate_slice(0x1_0000, u64::MAX, 8), None);
}

fn runs(writes: &[RingWrite]) -> Vec<(u64, usize, usize)> {
    writes
        .iter()
        .map(|w| match w {
            RingWrite::Run { pa, from, to } => (*pa, *from, *to),
            RingWrite::Span { .. } => panic!("a span"),
        })
        .collect()
}

#[test]
fn ring_buffer_wraps_around() {
    let mut ring = RingBuffer::new(0x1001, 10);
    assert_eq!(runs(&ring.write(b"abcdefg")), vec![(0x1001, 0, 7)]);
    assert_eq!(runs(&ring.write(b"hijkl")), vec![(0x1008, 0, 3), (0x1001, 3, 5)]);
    assert_eq!(ring.write_offset, 2);
    assert_eq!(runs(&ring.write(b"")), vec![]);
    assert_eq!(runs(&ring.write(b"0123456789abc")), vec![(0x1001, 3, 13)]);
    assert_eq!(ring.write_offset, 0);
    assert_eq!(runs(&RingBuffer::new(0x1000, 0).write(b"a")), vec![]);
}

/// What a ring of `size` bytes holds after messages were written from `offset` on, and where the next
/// starts.
fn ring_bytes(pa: u64, size: u64, offset: u64, messages: &[&[u8]]) -> (Vec<u8>, u64) {
    let mut ring = RingBuffer { write_offset: offset, ..RingBuffer::new(pa, size) };
    let mut bytes = vec![b'.'; size as usize];
    for message in messages {
        for write in ring.write(message) {
            match write {
                RingWrite::Run { pa: at, from, to } => {
                    for i in from..to {
                        bytes[(at - pa) as usize + (i - from)] = message[i];
                    }
                }
                RingWrite::Span { pages, offset, from, to } => {
                    for i in from..to {
                        let at = offset as usize + (i - from);
                        bytes[(pages[at / 4096] - pa) as usize + at % 4096] = message[i];
                    }
                }
            }
        }
    }
    (bytes, ring.write_offset)
}

#[test]
fn two_messages_leave_what_one_leaves() {
    let one = ring_bytes(0x1001, 10, 7, &[b"abcde"]);
    assert_eq!(one, (b"de.....abc".to_vec(), 2));
    assert_eq!(ring_bytes(0x1001, 10, 7, &[b"ab", b"cde"]), one);
    assert_eq!(ring_bytes(0x1001, 10, 7, &[b"abcd", b"", b"e"]), one);
    let (head, tail) = (vec![b'x'; 5000], vec![b'y'; 3000]);
    let both = [head.as_slice(), tail.as_slice()].concat();
    assert_eq!(
        ring_bytes(0x1000, 0x3000, 0x2000, &[&head, &tail]),
        ring_bytes(0x1000, 0x3000, 0x2000, &[&both])
    );
    // Messages that fill the ring together do not.
    assert_eq!(ring_bytes(0x1001, 4, 1, &[b"ab", b"cd"]), (b"dabc".to_vec(), 1));
    assert_eq!(ring_bytes(0x1001, 4, 1, &[b"abcd"]), (b"abcd".to_vec(), 0));
    // Of a long message the end is kept.
    assert_eq!(ring_bytes(0x1001, 4, 1, &[b"abcdef"]), (b"cdef".to_vec(), 0));
}

#[test]
fn ring_of_whole_pages_is_written_through_one_mapping() {
    let mut ring = RingBuffer::new(0x1000, 3 * 4096);
    let message = vec![0u8; 4096 + 100];
    let first = ring.write(&message);
    match &first[0] {
        RingWrite::Span { pages, offset, from, to } => {
            assert_eq!(pages.as_slice(), &[0x1000, 0x2000]);
            assert_eq!((*offset, *from, *to), (0, 0, 4196));
        }
        RingWrite::Run { .. } => panic!("a run"),
    }
    let _ = ring.write(&message);
    let wrapped = ring.write(&message);
    match &wrapped[0] {
        RingWrite::Span { pages, offset, .. } => {
            assert_eq!(pages.as_slice(), &[0x3000, 0x1000]);
            assert_eq!(*offset, 200);
        }
        RingWrite::Run { .. } => panic!("a run"),
    }
    assert_eq!(ring.write_offset, 300);
}
