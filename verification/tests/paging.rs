//! Operations on page tables, run against a page table that is a map.
use std::collections::BTreeMap;

use litebox::addr::{PhysFrameRange, VirtAddr};
use litebox::errno::Errno;
use litebox::lvbs::heki::{Access, MemAttr, Protection};
use litebox::lvbs::kernel::{
    allocate_pages, exception_handler, exception_info, kernel_mapping, resumes_user, should_block,
    syscall_context, wait_end, AllocationError, ContinueOperation, ExceptionEnd,
    FixedAddressBehavior, PageTableManager, SaveKind, WaitEnd, XsaveState,
};
use litebox::lvbs::mapping::{map_non_contiguous_phys_frames, map_phys_frame_range, Window};
use litebox::lvbs::mprotect::{mprotect_pages, PermissionUpdateError};
use litebox::lvbs::paging::{
    access_error, after_flush, copy_pml4_entries_from, flush_tlb_range, handle_page_fault,
    map_pages, page_fault_mapped, page_flags, task_owned_pages, vmflags_to_pteflags, FaultDecision,
    MapFailure, PageFaultError, PhysRange, PtAction, PtReply, TlbFlush, Translation, UnmapFailure,
    VmFlags,
};
use litebox::lvbs::remap::{remap_pages, RemapError};
use litebox::lvbs::unmap::{unmap_pages, DeallocationError};
use litebox::lvbs::vmap::{
    first_duplicate, is_contiguous, is_vmap_address, map_vtl0_phys_range, protect,
    unmap_vtl0_pages, validate_unowned, vtl0_copy, PhysPageMapInfo, PhysPageMapPermissions,
    PhysPointerError, Vtl0Copy, VmapAllocError,
};
use litebox::lvbs::vmap_ops::{vmap, vunmap, VmapAction, Vmapping, VunmapAction};
use litebox::shim::signal::EXCEPTION_PAGE_FAULT;
use litebox::shim::thread::PtRegs;

const NX: u64 = 1 << 63;
const GVA: u64 = 0xffff_8000_0000_0000;

/// A page table, and what was done besides changing it.
struct Table {
    leaves: BTreeMap<u64, (u64, u64)>,
    flushes: Vec<(u64, u64)>,
    freed: Vec<u64>,
    cleaned: Vec<(u64, u64)>,
    room: usize,
}

impl Table {
    fn new(leaves: &[(u64, u64, u64)]) -> Table {
        Table {
            leaves: leaves.iter().map(|(page, frame, flags)| (*page, (*frame, *flags))).collect(),
            flushes: Vec::new(),
            freed: Vec::new(),
            cleaned: Vec::new(),
            room: usize::MAX,
        }
    }

    fn perform(&mut self, action: PtAction) -> PtReply {
        match action {
            PtAction::Translate { page } => PtReply::Translated(match self.leaves.get(&page) {
                Some((frame, flags)) => Translation::Mapped { frame: *frame, flags: *flags },
                None => Translation::NotMapped,
            }),
            PtAction::Unmap { page } => PtReply::Unmapped(match self.leaves.remove(&page) {
                Some((frame, _)) => Ok(frame),
                None => Err(UnmapFailure::PageNotMapped),
            }),
            PtAction::MapTo { page, frame, flags, .. } => {
                if let Some((frame, _)) = self.leaves.get(&page) {
                    return PtReply::Mapped(Err(MapFailure::PageAlreadyMapped { frame: *frame }));
                }
                if self.room == 0 {
                    return PtReply::Mapped(Err(MapFailure::FrameAllocationFailed));
                }
                self.room -= 1;
                self.leaves.insert(page, (frame, flags));
                PtReply::Mapped(Ok(()))
            }
            PtAction::UpdateFlags { page, flags } => {
                self.leaves.get_mut(&page).unwrap().1 = flags;
                PtReply::Updated(true)
            }
            PtAction::FlushTlb { start, count } => {
                self.flushes.push((start, count));
                PtReply::Done
            }
            PtAction::FreeFrame { frame } => {
                self.freed.push(frame);
                PtReply::Done
            }
            PtAction::CleanUp { start, last } => {
                self.cleaned.push((start, last));
                PtReply::Done
            }
            PtAction::Finished => unreachable!(),
        }
    }
}

const RW: VmFlags = VmFlags { read: true, write: true, execute: false };

#[test]
fn permissions_become_flags() {
    assert_eq!(vmflags_to_pteflags(RW), NX | 0x6);
    let execute_only = VmFlags { read: false, write: false, execute: true };
    assert_eq!(vmflags_to_pteflags(execute_only), 0);
    let read = VmFlags { read: true, write: false, execute: false };
    assert_eq!(vmflags_to_pteflags(read), NX | 0x4);
}

#[test]
fn kernel_pages_are_writable_or_executable() {
    let ranges = vec![PhysRange { start: 0x1000, end: 0x3000 }];
    assert_eq!(page_flags(0x3, Some(&ranges), 0x2000), 0x1);
    assert_eq!(page_flags(0x3, Some(&ranges), 0x3000), NX | 0x3);
    assert_eq!(page_flags(0x3, None, 0x2000), 0x3);
}

#[test]
fn tlb_flushes_depend_on_size_and_hypercalls() {
    assert_eq!(flush_tlb_range(0x1000, 0, true), TlbFlush::Nothing);
    assert_eq!(
        flush_tlb_range(0x1000, 33, true),
        TlbFlush::HypercallList { start: 0x1000, count: 33 }
    );
    assert_eq!(flush_tlb_range(0x1000, 34, true), TlbFlush::HypercallSpace);
    assert_eq!(
        flush_tlb_range(0x1000, 2, false),
        TlbFlush::LocalPages { start: 0x1000, count: 2 }
    );
    assert_eq!(flush_tlb_range(0x1000, 34, false), TlbFlush::LocalAll);
    assert_eq!(after_flush(TlbFlush::HypercallSpace, false), TlbFlush::LocalAll);
    assert_eq!(after_flush(TlbFlush::HypercallSpace, true), TlbFlush::Nothing);
    assert_eq!(after_flush(TlbFlush::LocalAll, false), TlbFlush::Nothing);
}

#[test]
fn page_faults_are_decided() {
    assert!(matches!(
        handle_page_fault(0x1234, RW, 2, Translation::NotMapped),
        FaultDecision::MapNewFrame { page: 0x1000, flags, table_flags: 7 } if flags == NX | 0x7
    ));
    let read_only = Translation::Mapped { frame: 0, flags: 0x5 };
    let writable = Translation::Mapped { frame: 0, flags: 0x7 };
    assert!(matches!(handle_page_fault(0, RW, 2, writable), FaultDecision::Resolved));
    assert!(matches!(
        handle_page_fault(0, RW, 2, read_only),
        FaultDecision::Failed(PageFaultError::AllocationFailed)
    ));
    assert!(matches!(handle_page_fault(0, RW, 0, read_only), FaultDecision::Resolved));
    assert!(matches!(
        handle_page_fault(0, RW, 1, read_only),
        FaultDecision::Failed(PageFaultError::AccessError("Page fault on present page"))
    ));
    assert!(matches!(
        handle_page_fault(0, RW, 0, Translation::InvalidFrameAddress),
        FaultDecision::Failed(PageFaultError::AccessError("Invalid frame address"))
    ));
    assert!(page_fault_mapped(Ok(())).is_ok());
    assert!(matches!(
        page_fault_mapped(Err(MapFailure::ParentEntryHugePage)),
        Err(PageFaultError::HugePage)
    ));
    assert!(matches!(
        page_fault_mapped(Err(MapFailure::FrameAllocationFailed)),
        Err(PageFaultError::AllocationFailed)
    ));
}

#[test]
fn forbidden_accesses_are_errors() {
    let none = VmFlags { read: false, write: false, execute: false };
    let read = VmFlags { read: true, write: false, execute: false };
    assert!(!access_error(2, RW));
    assert!(access_error(2, read));
    assert!(access_error(1, read));
    assert!(!access_error(0, read));
    assert!(access_error(0, none));
}

#[test]
fn populated_pages_are_listed() {
    assert_eq!(map_pages(0x1000, 0x4000), vec![0x1000, 0x2000, 0x3000]);
    assert_eq!(map_pages(0x1000, 0x1000), Vec::<u64>::new());
    assert_eq!(task_owned_pages(), (0, 0xffff_e1ff_ffff_f000));
}

#[test]
fn kernel_entries_are_shared() {
    let mut dst = vec![None; 512];
    let mut src = vec![None; 512];
    dst[0x1c5] = Some((0x1000, 1));
    src[0x1c3] = Some((0x2000, 1));
    src[0x1c4] = Some((0x3000, 1));
    src[0x1c5] = Some((0x4000, 1));
    copy_pml4_entries_from(&mut dst, &src);
    assert_eq!(dst[0x1c3], None);
    assert_eq!(dst[0x1c4], Some((0x3000, 1)));
    assert_eq!(dst[0x1c5], Some((0x1000, 1)));
}

#[test]
fn pages_are_moved() {
    let mut table = Table::new(&[(0x1000, 0xa000, 7), (0x3000, 0xb000, 5)]);
    let mut op = remap_pages(0x1000, 0x4000, 0x8000, 0xb000).unwrap();
    while op.result().is_none() {
        op.advance(table.perform(op.action()));
    }
    assert_eq!(op.result(), Some(Ok(())));
    assert_eq!(table.leaves, Table::new(&[(0x8000, 0xa000, 7), (0xa000, 0xb000, 5)]).leaves);
    assert_eq!(table.flushes, vec![(0x1000, 3)]);
}

#[test]
fn failed_move_restores_the_page() {
    let mut table = Table::new(&[(0x1000, 0xa000, 7)]);
    table.room = 0;
    let mut op = remap_pages(0x1000, 0x2000, 0x8000, 0x9000).unwrap();
    while op.result().is_none() {
        let action = op.action();
        if let PtAction::MapTo { page: 0x1000, .. } = action {
            table.room = 1;
        }
        op.advance(table.perform(action));
    }
    assert_eq!(op.result(), Some(Err(RemapError::OutOfMemory)));
    assert_eq!(table.leaves, Table::new(&[(0x1000, 0xa000, 7)]).leaves);
}

#[test]
fn moves_that_cannot_be_done() {
    assert_eq!(remap_pages(0x1001, 0x2000, 0x8000, 0x9000), Err(RemapError::Unaligned));
    assert_eq!(remap_pages(0x1000, 0x3000, 0x2000, 0x4000), Err(RemapError::Overlapping));
    let mut table = Table::new(&[(0x1000, 0xa000, 7), (0x8000, 0xb000, 7)]);
    let mut op = remap_pages(0x1000, 0x2000, 0x8000, 0x9000).unwrap();
    while op.result().is_none() {
        op.advance(table.perform(op.action()));
    }
    assert_eq!(op.result(), Some(Err(RemapError::AlreadyAllocated)));
    assert_eq!(table.leaves[&0x1000], (0xa000, 7));
    let mut op = remap_pages(0x1000, 0x2000, 0x8000, 0x9000).unwrap();
    op.advance(PtReply::Translated(Translation::InvalidFrameAddress));
    assert_eq!(op.result(), Some(Err(RemapError::Unaligned)));
}

#[test]
fn move_stops_at_an_occupied_page() {
    let leaves = [(0x1000, 0xa000, 7), (0x2000, 0xb000, 5), (0x3000, 0xc000, 3)];
    let mut table = Table::new(&[leaves[0], leaves[1], leaves[2], (0x9000, 0xd000, 1)]);
    let mut op = remap_pages(0x1000, 0x4000, 0x8000, 0xb000).unwrap();
    while op.result().is_none() {
        op.advance(table.perform(op.action()));
    }
    assert_eq!(op.result(), Some(Err(RemapError::AlreadyAllocated)));
    assert_eq!(op.start, 0x2000);
    let after = [(0x8000, 0xa000, 7), leaves[1], leaves[2], (0x9000, 0xd000, 1)];
    assert_eq!(table.leaves, Table::new(&after).leaves);
    // A page that maps to nothing is passed over, whatever its new page maps to.
    let mut table = Table::new(&[(0x2000, 0xb000, 5), (0x8000, 0xd000, 1)]);
    let mut op = remap_pages(0x1000, 0x3000, 0x8000, 0xa000).unwrap();
    while op.result().is_none() {
        op.advance(table.perform(op.action()));
    }
    assert_eq!(op.result(), Some(Ok(())));
    assert_eq!(table.leaves, Table::new(&[(0x8000, 0xd000, 1), (0x9000, 0xb000, 5)]).leaves);
}

#[test]
fn frames_are_freed_behind_flushes() {
    let leaves: Vec<(u64, u64, u64)> = (1..=40).map(|i| (i * 0x1000, 0x10_0000 + i, 7)).collect();
    let mut table = Table::new(&leaves);
    let mut op = unmap_pages(0x1000, 0x2a000, true, true, true).unwrap();
    while !op.is_finished() {
        let action = op.action();
        if let PtAction::FreeFrame { .. } = action {
            let flushed: u64 = table.flushes.iter().map(|(_, count)| count).sum();
            assert!((table.freed.len() as u64) < flushed);
        }
        op.advance(table.perform(action));
    }
    assert!(table.leaves.is_empty());
    assert_eq!(table.flushes, vec![(0x1000, 32), (0x21000, 9)]);
    assert_eq!(table.freed, (1..=40).map(|i| 0x10_0000 + i).collect::<Vec<u64>>());
    assert_eq!(table.cleaned, vec![(0x1000, 0x29000)]);
}

#[test]
fn pages_are_unmapped_without_freeing() {
    let mut table = Table::new(&[(0x1000, 0xa000, 7), (0x5000, 0xb000, 7)]);
    let mut op = unmap_pages(0x1000, 0x3000, false, true, false).unwrap();
    while !op.is_finished() {
        op.advance(table.perform(op.action()));
    }
    assert_eq!(table.leaves.len(), 1);
    assert_eq!(table.flushes, vec![(0x1000, 2)]);
    assert!(table.freed.is_empty());
    let mut op = unmap_pages(0x5000, 0x6000, true, false, false).unwrap();
    while !op.is_finished() {
        op.advance(table.perform(op.action()));
    }
    assert_eq!(table.freed, vec![0xb000]);
    assert!(matches!(
        unmap_pages(0x5001, 0x6000, true, false, false),
        Err(DeallocationError::Unaligned)
    ));
    assert!(unmap_pages(0x5000, 0x5000, true, true, true).unwrap().is_finished());
}

#[test]
fn permissions_of_mapped_pages_change() {
    let mut table = Table::new(&[(0x1000, 0xa000, 0x67), (0x3000, 0xb000, 0x5)]);
    let read = VmFlags { read: true, write: false, execute: false };
    let mut op = mprotect_pages(0x1000, 0x2001, read).unwrap();
    while op.result().is_none() {
        op.advance(table.perform(op.action()));
    }
    assert_eq!(op.result(), Some(Ok(())));
    assert_eq!(table.leaves[&0x1000], (0xa000, NX | 0x65));
    assert_eq!(table.leaves[&0x3000], (0xb000, 0x5));
    assert_eq!(table.flushes, vec![(0x1000, 2)]);
    assert!(matches!(mprotect_pages(0x1001, 0x2000, read), Err(PermissionUpdateError::Unaligned)));
    let mut op = mprotect_pages(0x1000, 0x2000, read).unwrap();
    op.advance(PtReply::Translated(Translation::Mapped { frame: 0, flags: 7 }));
    op.advance(PtReply::Updated(false));
    assert_eq!(op.result(), Some(Err(PermissionUpdateError::Unaligned)));
}

#[test]
fn frames_appear_in_their_window() {
    let range = PhysFrameRange { start: 0x1000, end: 0x4000 };
    let mut table = Table::new(&[(GVA + 0x2000, 0x2000, 0x55)]);
    let mut op = map_phys_frame_range(Window::Direct, range, 0x3);
    let exec = vec![PhysRange { start: 0x3000, end: 0x4000 }];
    while op.result().is_none() {
        op.advance(table.perform(op.action(Some(&exec))));
    }
    assert_eq!(op.result(), Some(Ok(GVA + 0x1000)));
    assert_eq!(table.leaves[&(GVA + 0x1000)], (0x1000, NX | 0x3));
    assert_eq!(table.leaves[&(GVA + 0x2000)], (0x2000, 0x55));
    assert_eq!(table.leaves[&(GVA + 0x3000)], (0x3000, 0x1));
    assert_eq!(table.flushes, vec![(GVA + 0x1000, 3)]);

    let mut table = Table::new(&[(0xffff_e200_0000_1000, 0x9000, 1)]);
    let mut op = map_phys_frame_range(Window::Kernel, range, 0x3);
    while op.result().is_none() {
        op.advance(table.perform(op.action(None)));
    }
    assert_eq!(op.result(), Some(Err(MapFailure::PageAlreadyMapped { frame: 0x9000 })));
}

#[test]
fn scattered_frames_are_mapped_all_or_none() {
    let base = 0xffff_c100_0000_0000;
    let mut table = Table::new(&[]);
    let mut op = map_non_contiguous_phys_frames(vec![0x5000, 0x1000], base, 3).unwrap();
    while op.result().is_none() {
        op.advance(table.perform(op.action()));
    }
    assert_eq!(op.result(), Some(Ok(base)));
    assert_eq!(table.leaves, Table::new(&[(base, 0x5000, 3), (base + 0x1000, 0x1000, 3)]).leaves);

    let mut table = Table::new(&[(base + 0x2000, 0x9000, 1)]);
    let before = table.leaves.clone();
    let mut op = map_non_contiguous_phys_frames(vec![0x5000, 0x1000, 0x7000], base, 3).unwrap();
    while op.result().is_none() {
        op.advance(table.perform(op.action()));
    }
    assert_eq!(op.result(), Some(Err(MapFailure::PageAlreadyMapped { frame: 0x9000 })));
    assert_eq!(table.leaves, before);
    assert_eq!(table.cleaned, vec![(base, base + 0x1000)]);
    assert!(matches!(
        map_non_contiguous_phys_frames(vec![0x5000], base + 1, 3),
        Err(MapFailure::FrameAllocationFailed)
    ));
}

const READ: PhysPageMapPermissions = PhysPageMapPermissions { read: true, write: false, bits: 1 };
const WRITE: PhysPageMapPermissions = PhysPageMapPermissions { read: true, write: true, bits: 3 };
const NONE: PhysPageMapPermissions = PhysPageMapPermissions { read: false, write: false, bits: 0 };

fn run_vmap(mut op: Vmapping, table: &mut Table, base: u64) -> Vec<VmapAction> {
    let mut others = Vec::new();
    loop {
        let action = op.action();
        op = match action {
            VmapAction::PageTable { action } => op.performed(table.perform(action)),
            VmapAction::Choose { .. } => {
                others.push(action);
                op.chosen(Ok(base))
            }
            VmapAction::Release { .. } => {
                others.push(action);
                op.released()
            }
            VmapAction::Finish { .. } => {
                others.push(action);
                return others;
            }
        };
    }
}

#[test]
fn contiguous_pages_are_mapped_directly() {
    let mut table = Table::new(&[]);
    let actions = run_vmap(vmap(vec![0x1000, 0x2000], WRITE), &mut table, 0);
    let info = PhysPageMapInfo { base: GVA + 0x1000, size: 0x2000 };
    assert_eq!(actions, vec![VmapAction::Finish { result: Ok(info) }]);
    assert_eq!(table.leaves[&(GVA + 0x2000)], (0x2000, NX | 0x3));
    let mut table = Table::new(&[(GVA + 0x1000, 0x9000, 1)]);
    let actions = run_vmap(vmap(vec![0x1000], READ), &mut table, 0);
    let error = PhysPointerError::AlreadyMapped(0x1000);
    assert_eq!(actions, vec![VmapAction::Finish { result: Err(error) }]);
}

#[test]
fn addresses_of_failed_mappings_are_given_back() {
    let base = 0xffff_c100_0000_0000;
    let mut table = Table::new(&[]);
    let actions = run_vmap(vmap(vec![0x5000, 0x1000], READ), &mut table, base);
    let info = PhysPageMapInfo { base, size: 0x2000 };
    assert_eq!(
        actions,
        vec![VmapAction::Choose { pages: 2 }, VmapAction::Finish { result: Ok(info) }]
    );
    assert_eq!(table.leaves[&base], (0x5000, NX | 0x1));

    let mut op = vunmap(info);
    loop {
        op = match op.action() {
            VunmapAction::PageTable { action } => op.performed(table.perform(action)),
            VunmapAction::Release { base: released } => {
                assert_eq!(released, base);
                assert!(table.leaves.is_empty());
                op.released(true)
            }
            VunmapAction::Finish { result } => {
                assert_eq!(result, Ok(()));
                break;
            }
        };
    }

    let mut full = Table::new(&[]);
    full.room = 1;
    let actions = run_vmap(vmap(vec![0x5000, 0x1000], READ), &mut full, base);
    let error = PhysPointerError::FrameAllocationFailed;
    assert_eq!(
        actions,
        vec![
            VmapAction::Choose { pages: 2 },
            VmapAction::Release { base },
            VmapAction::Finish { result: Err(error) }
        ]
    );
    assert!(full.leaves.is_empty());
}

#[test]
fn pages_that_cannot_be_mapped() {
    let ends = |op: Vmapping| match op.action() {
        VmapAction::Finish { result: Err(e) } => e,
        _ => panic!("not finished"),
    };
    assert_eq!(ends(vmap(vec![], READ)), PhysPointerError::InvalidPhysicalAddress(0));
    assert_eq!(
        ends(vmap(vec![0x5000, 0x1000, 0x5000, 0x1000], READ)),
        PhysPointerError::DuplicatePhysicalAddress(0x5000)
    );
    let scattered = || vmap(vec![0x5000, 0x1000], READ);
    assert_eq!(
        ends(scattered().chosen(Err(VmapAllocError::DuplicateMapping))),
        PhysPointerError::AlreadyMapped(0x5000)
    );
    assert_eq!(
        ends(scattered().chosen(Err(VmapAllocError::VaSpaceExhausted))),
        PhysPointerError::VaSpaceExhausted
    );
    assert_eq!(
        ends(scattered().chosen(Err(VmapAllocError::EmptyInput))),
        PhysPointerError::InvalidPhysicalAddress(0)
    );
    let unaligned = vunmap(PhysPageMapInfo { base: GVA + 1, size: 0x1000 });
    assert_eq!(
        unaligned.action(),
        VunmapAction::Finish { result: Err(PhysPointerError::Unmapped(GVA + 1)) }
    );
    let base = 0xffff_c100_0000_0000;
    let unused = vunmap(PhysPageMapInfo { base, size: 0 }).released(false);
    assert_eq!(
        unused.action(),
        VunmapAction::Finish { result: Err(PhysPointerError::Unmapped(base)) }
    );
}

#[test]
fn pages_are_compared() {
    assert!(is_contiguous(&vec![0x1000, 0x2000, 0x3000]));
    assert!(!is_contiguous(&vec![0x1000, 0x3000]));
    assert!(is_contiguous(&vec![]));
    assert!(!is_contiguous(&vec![u64::MAX - 0xfff, 0]));
    assert_eq!(first_duplicate(&vec![1, 2, 3]), None);
    assert_eq!(first_duplicate(&vec![1, 2, 3, 2, 1]), Some(2));
    assert!(is_vmap_address(0xffff_c100_0000_0000));
    assert!(!is_vmap_address(0xffff_e0ff_ffff_f000));
}

#[test]
fn own_pages_are_refused() {
    let vtl1 = PhysFrameRange { start: 0x10_0000, end: 0x20_0000 };
    assert_eq!(validate_unowned(vtl1, &vec![0x1000, 0x20_0000]), Ok(()));
    assert_eq!(
        validate_unowned(vtl1, &vec![0x1000, 0x10_0000, 0x11_0000]),
        Err(PhysPointerError::InvalidPhysicalAddress(0x10_0000))
    );
    assert_eq!(
        map_vtl0_phys_range(vtl1, 0x1234, 0x2345, 1),
        Ok((PhysFrameRange { start: 0x1000, end: 0x3000 }, NX | 1))
    );
    assert_eq!(
        map_vtl0_phys_range(vtl1, 0xf_ffff, 0x10_0001, 1),
        Err(MapFailure::FrameAllocationFailed)
    );
    assert_eq!(vtl0_copy(vtl1, 0x1234, 0, false), Vtl0Copy::Nothing);
    assert_eq!(vtl0_copy(vtl1, 0x10_0000, 8, false), Vtl0Copy::Refused);
    assert_eq!(vtl0_copy(vtl1, 0x1000, u64::MAX, true), Vtl0Copy::Refused);
    match vtl0_copy(vtl1, 0x1234, 8, true) {
        Vtl0Copy::Through(mapping) => {
            assert_eq!((mapping.offset, mapping.size, mapping.flags), (0x234, 8, NX | 3));
            assert_eq!(mapping.range, PhysFrameRange { start: 0x1000, end: 0x2000 });
        }
        other => panic!("{other:?}"),
    }
    assert_eq!(unmap_vtl0_pages(GVA, 0x1001), Ok((GVA, GVA + 0x2000)));
    assert_eq!(unmap_vtl0_pages(GVA + 8, 8), Err(DeallocationError::Unaligned));
    assert_eq!(unmap_vtl0_pages(0x1000, 1 << 47), Err(DeallocationError::Unaligned));
}

#[test]
fn adjacent_pages_are_protected_together() {
    let pages = vec![0x5000, 0x1000, 0x2000, 0x6000, 0x9000, 0x1000];
    let none = Access::Attr(MemAttr::empty());
    let request = |pa: u64, num_pages: u64, access: Access| Protection { pa, num_pages, access };
    assert_eq!(
        protect(&pages, WRITE),
        vec![request(0x1000, 2, none), request(0x5000, 2, none), request(0x9000, 1, none)]
    );
    let read = Access::Attr(MemAttr { read: true, write: false, execute: true });
    assert_eq!(protect(&vec![0x1000], READ), vec![request(0x1000, 1, read)]);
    let all = Access::Attr(MemAttr { read: true, write: true, execute: true });
    assert_eq!(protect(&vec![0x1000], NONE), vec![request(0x1000, 1, all)]);
    assert_eq!(protect(&vec![], READ), vec![]);
}

#[test]
fn task_page_tables_are_created_and_deleted() {
    let mut manager = PageTableManager::new(0x1000);
    assert_eq!(manager.create_task_page_table(None), Err(Errno::ENOMEM));
    assert_eq!(manager.create_task_page_table(Some(0x5000)), Ok(0x5000));
    assert_eq!(manager.load_task(0x5000), Ok(0x5000));
    assert_eq!(manager.load_task(0x6000), Err(Errno::ENOENT));
    assert_eq!(manager.load_task(0), Err(Errno::EINVAL));
    assert_eq!(manager.switch_page_table(0), Ok(0x1000));
    assert_eq!(manager.switch_page_table(0x5000), Ok(0x5000));
    assert_eq!(manager.current_page_table(0x5000), 0x5000);
    assert_eq!(manager.current_page_table_id(0x1000), 0);
    assert_eq!(manager.current_page_table_id(0x5000), 0x5000);
    assert!(manager.is_base_page_table_active(0x1000));
    assert_eq!(manager.delete_task_page_table(0, 0x1000), Err(Errno::EINVAL));
    assert_eq!(manager.delete_task_page_table(0x5000, 0x5000), Err(Errno::EBUSY));
    assert_eq!(manager.delete_task_page_table(0x5000, 0x1000), Ok(()));
    assert_eq!(manager.delete_task_page_table(0x5000, 0x1000), Err(Errno::ENOENT));
    assert_eq!(PageTableManager::USER_ADDR_MIN, 0x1_0000);
}

#[test]
fn kernel_code_is_executable() {
    let hvcall = VirtAddr::new(0xffff_e200_0000_8000);
    let (range, exec) = kernel_mapping(0x1000, 0xa000, 0x2000, 0x4000, hvcall);
    assert_eq!((range.start, range.end), (0x1000, 0xa000));
    assert_eq!(
        exec,
        vec![
            PhysRange { start: 0x2000, end: 0x4000 },
            PhysRange { start: 0x8000, end: 0x9000 }
        ]
    );
}

#[test]
fn allocations_are_planned() {
    let plan = allocate_pages(0x1000, 0x3000, RW, true, FixedAddressBehavior::Replace).unwrap();
    assert!(plan.unmap_first && plan.populate);
    let plan = allocate_pages(0x1000, 0x3000, RW, false, FixedAddressBehavior::Hint).unwrap();
    assert!(!plan.unmap_first && !plan.populate);
    assert_eq!(
        allocate_pages(0x1001, 0x3000, RW, false, FixedAddressBehavior::NoReplace),
        Err(AllocationError::Unaligned)
    );
}

#[test]
fn waits_end() {
    assert!(should_block(1, 1));
    assert!(!should_block(1, 2));
    assert_eq!(wait_end(Ok(())), WaitEnd::Unblocked);
    assert_eq!(wait_end(Err(Errno::EAGAIN)), WaitEnd::ImmediatelyWokenUp);
    assert_eq!(wait_end(Err(Errno::ETIMEDOUT)), WaitEnd::TimedOut);
}

#[test]
fn exceptions_end() {
    let user = (0x2_0000, 0x1_0000);
    assert!(resumes_user(ContinueOperation::Resume, user.0, user.1));
    assert!(!resumes_user(ContinueOperation::Resume, user.0, 0));
    assert!(!resumes_user(ContinueOperation::Terminate, user.0, user.1));
    let end = |operation, kernel_mode, rip, fixup| {
        exception_handler(operation, kernel_mode, 0x2_0000, rip, fixup)
    };
    assert_eq!(end(ContinueOperation::Resume, true, 0, None), ExceptionEnd::Continue);
    assert_eq!(end(ContinueOperation::Terminate, true, 0, Some(7)), ExceptionEnd::Fixup(7));
    assert_eq!(end(ContinueOperation::Resume, false, 0x1_0000, None), ExceptionEnd::SwitchToUser);
    assert_eq!(end(ContinueOperation::Resume, false, 0, None), ExceptionEnd::LeaveThread);
    assert_eq!(end(ContinueOperation::Terminate, false, 0x1_0000, None), ExceptionEnd::LeaveThread);
    let info = exception_info(true, 3, 0x1000, 0x1_0000_0002, 9);
    assert_eq!((info.exception, info.error_code), (EXCEPTION_PAGE_FAULT, 2));
    let info = exception_info(false, 3, 0x1000, 2, 9);
    assert_eq!((info.exception, info.error_code), (3, 9));
}

#[test]
fn extended_registers_are_saved_in_full_first() {
    let fresh = XsaveState::NeverSaved;
    assert_eq!(fresh.restore(), (XsaveState::NeverSaved, false));
    let (saved, kind) = fresh.save();
    assert_eq!((saved, kind), (XsaveState::Saved, SaveKind::Full));
    assert_eq!(saved.save(), (XsaveState::Saved, SaveKind::Full));
    let (restored, done) = saved.restore();
    assert_eq!((restored, done), (XsaveState::Restored, true));
    assert_eq!(restored.save(), (XsaveState::Restored, SaveKind::Optimized));
}

#[test]
fn system_call_registers_start_without_a_result() {
    let regs = PtRegs { rax: 39, rcx: 0x1_0000, ..PtRegs::default() };
    let seen = syscall_context(regs, 0x202);
    assert_eq!(seen.orig_rax, 39);
    assert_eq!(seen.rax as i64, -38);
    assert_eq!(seen.rip, 0x1_0000);
    assert_eq!((seen.r11, seen.eflags), (0x202, 0x202));
}
