//! Page tables: flags, page faults, TLB shootdowns, and the vocabulary in which operations on a page
//! table ask for its entries.
//!
//! An operation on a page table is a machine that names its next action, takes the outcome and moves
//! on. Whoever runs it holds the page table and performs the actions on it.
use vstd::prelude::*;

use crate::addr::{page_align_down, page_aligned, page_down, sign_extend_48, VirtAddr, PAGE_BYTES};

verus! {

/// The entry is valid.
pub const PTE_PRESENT: u64 = 0x1;

/// The page can be written.
pub const PTE_WRITABLE: u64 = 0x2;

/// The page can be accessed in user mode.
pub const PTE_USER_ACCESSIBLE: u64 = 0x4;

/// The page cannot be executed.
pub const PTE_NO_EXECUTE: u64 = 0x8000_0000_0000_0000;

/// The flags that memory permissions decide.
pub const MPROTECT_PTE_MASK: u64 = 0x8000_0000_0000_0006;

/// Flags of the entries above a leaf: permissive, so that the leaf decides.
pub const KERNEL_TABLE_FLAGS: u64 = 0x3;

/// Flags of the entries above a leaf in user memory.
pub const USER_TABLE_FLAGS: u64 = 0x7;

/// More pages than this are flushed by flushing the whole TLB.
pub const TLB_SINGLE_PAGE_FLUSH_CEILING: u64 = 33;

/// Bit position of the index into the top-level table in a virtual address.
pub const PML4_SHIFT: u32 = 39;

/// Bytes of virtual address space that one entry of the top-level table covers.
pub const PML4_SLOT_SIZE: u64 = 0x80_0000_0000;

/// Index of the first top-level entry of the kernel region, which all page tables share.
pub const KERNEL_PML4_START: u64 = 0x1c4;

/// Permissions of a virtual memory area.
#[derive(Clone, Copy, PartialEq, Eq, Structural, Debug)]
pub struct VmFlags {
    pub read: bool,
    pub write: bool,
    pub execute: bool,
}

/// 1 for a set flag, 0 for a cleared one.
pub open spec fn bit_if(b: bool, bit: u64) -> int {
    if b {
        bit as int
    } else {
        0
    }
}

/// The page table flags of a permission: accessible to user mode if it can be read or written,
/// writable if it can be written, not executable unless it can be executed.
pub open spec fn pteflags_of(flags: VmFlags) -> u64 {
    (bit_if(flags.read || flags.write, PTE_USER_ACCESSIBLE) + bit_if(flags.write, PTE_WRITABLE)
        + bit_if(!flags.execute, PTE_NO_EXECUTE)) as u64
}

/// The page table flags of a permission.
pub fn vmflags_to_pteflags(values: VmFlags) -> (r: u64)
    ensures
        r == pteflags_of(values),
{
    let mut flags: u64 = 0;
    if values.read || values.write {
        flags = flags + PTE_USER_ACCESSIBLE;
    }
    if values.write {
        flags = flags + PTE_WRITABLE;
    }
    if !values.execute {
        flags = flags + PTE_NO_EXECUTE;
    }
    flags
}

/// The flags of a permission: writable if it can be written, accessible to user mode if it can be read or
/// written, not executable unless it can be executed, and nothing else.
pub proof fn law_permissions_become_flags(flags: VmFlags)
    ensures
        (pteflags_of(flags) & 0x2 != 0) == flags.write,
        (pteflags_of(flags) & 0x4 != 0) == (flags.read || flags.write),
        (pteflags_of(flags) & 0x8000_0000_0000_0000 != 0) == !flags.execute,
        pteflags_of(flags) & 0x7fff_ffff_ffff_fff9 == 0,
{
    let f = pteflags_of(flags);
    assert((f & 0x2u64 != 0) == (f == 6 || f == 0x8000_0000_0000_0006) && (f & 0x4u64 != 0) == (f != 0 && f
        != 0x8000_0000_0000_0000) && (f & 0x8000_0000_0000_0000u64 != 0) == (f >= 0x8000_0000_0000_0000u64)
        && f & 0x7fff_ffff_ffff_fff9u64 == 0) by (bit_vector)
        requires
            f == 0 || f == 0x4 || f == 0x6 || f == 0x8000_0000_0000_0000 || f
                == 0x8000_0000_0000_0004 || f == 0x8000_0000_0000_0006,
    ;
}

/// The flags of a kernel page: pages in an executable region lose the right to be written, all
/// others the right to be executed.
pub open spec fn exec_range_flags(flags: u64, is_exec: bool) -> u64 {
    if is_exec {
        (flags & !PTE_NO_EXECUTE) & !PTE_WRITABLE
    } else {
        flags | PTE_NO_EXECUTE
    }
}

/// A physical address range, end exclusive.
#[derive(Clone, Copy, PartialEq, Eq, Structural, Debug)]
pub struct PhysRange {
    pub start: u64,
    pub end: u64,
}

/// The address lies in one of the ranges.
pub open spec fn in_some_range(ranges: Seq<PhysRange>, addr: u64) -> bool {
    exists|i: int| 0 <= i < ranges.len() && (#[trigger] ranges[i]).start <= addr < ranges[i].end
}

/// The flags of the page of a frame: as given without executable ranges, else by whether the frame
/// lies in one of them.
pub open spec fn page_flags_spec(flags: u64, exec_ranges: Option<Seq<PhysRange>>, frame: u64) -> u64 {
    match exec_ranges {
        Some(ranges) => exec_range_flags(flags, in_some_range(ranges, frame)),
        None => flags,
    }
}

/// The flags of the page of a frame.
pub fn page_flags(flags: u64, exec_ranges: Option<&Vec<PhysRange>>, frame: u64) -> (r: u64)
    ensures
        r == page_flags_spec(
            flags,
            match exec_ranges {
                Some(ranges) => Some(ranges@),
                None => None,
            },
            frame,
        ),
{
    let ranges = match exec_ranges {
        Some(ranges) => ranges,
        None => return flags,
    };
    let mut is_exec = false;
    let mut i: usize = 0;
    while i < ranges.len()
        invariant
            i <= ranges@.len(),
            is_exec == (exists|j: int|
                0 <= j < i && (#[trigger] ranges@[j]).start <= frame < ranges@[j].end),
        decreases ranges@.len() - i,
    {
        if ranges[i].start <= frame && frame < ranges[i].end {
            is_exec = true;
        }
        i = i + 1;
    }
    if is_exec {
        (flags & !PTE_NO_EXECUTE) & !PTE_WRITABLE
    } else {
        flags | PTE_NO_EXECUTE
    }
}

/// No page that is mapped with executable ranges is both writable and executable.
pub proof fn law_writable_xor_executable(flags: u64, ranges: Seq<PhysRange>, frame: u64)
    ensures
        page_flags_spec(flags, Some(ranges), frame) & PTE_WRITABLE == 0 || page_flags_spec(
            flags,
            Some(ranges),
            frame,
        ) & PTE_NO_EXECUTE != 0,
{
    assert(((flags & !0x8000_0000_0000_0000u64) & !0x2u64) & 0x2u64 == 0) by (bit_vector);
    assert((flags | 0x8000_0000_0000_0000u64) & 0x8000_0000_0000_0000u64 != 0) by (bit_vector);
}

/// What the page table says of a page.
#[derive(Clone, Copy, PartialEq, Eq, Structural, Debug)]
pub enum Translation {
    /// The page maps to a frame with flags.
    Mapped { frame: u64, flags: u64 },
    /// The page maps to nothing.
    NotMapped,
    /// The entry holds no frame address.
    InvalidFrameAddress,
}

/// Why a page could not be unmapped.
#[derive(Clone, Copy, PartialEq, Eq, Structural, Debug)]
pub enum UnmapFailure {
    PageNotMapped,
    ParentEntryHugePage,
    InvalidFrameAddress,
}

/// Why a page could not be mapped.
#[derive(Clone, Copy, PartialEq, Eq, Structural, Debug)]
pub enum MapFailure {
    FrameAllocationFailed,
    /// The page maps to this frame already.
    PageAlreadyMapped { frame: u64 },
    ParentEntryHugePage,
}

/// What an operation asks of the page table, the TLB or the frame allocator.
#[derive(Clone, Copy, PartialEq, Eq, Structural, Debug)]
pub enum PtAction {
    /// Look a page up.
    Translate { page: u64 },
    /// Clear the entry of a page.
    Unmap { page: u64 },
    /// Map a page, with the flags of its entry; `table_flags` are those of the entries above it, or
    /// nothing if they follow from the flags.
    MapTo { page: u64, frame: u64, flags: u64, table_flags: Option<u64> },
    /// Change the flags of a page.
    UpdateFlags { page: u64, flags: u64 },
    /// Flush the TLB entries of `count` pages from `start` on.
    FlushTlb { start: u64, count: u64 },
    /// Return a frame to the allocator.
    FreeFrame { frame: u64 },
    /// Free the tables of the pages from `start` to `last` that have become empty.
    CleanUp { start: u64, last: u64 },
    /// Nothing more.
    Finished,
}

/// The outcome of an action.
#[derive(Clone, Copy, Debug)]
pub enum PtReply {
    Translated(Translation),
    /// The frame that the page mapped to, or why it could not be unmapped.
    Unmapped(Result<u64, UnmapFailure>),
    Mapped(Result<(), MapFailure>),
    /// Whether the flags were changed; they cannot be under a huge page.
    Updated(bool),
    /// Done, with nothing to tell.
    Done,
}

/// The reply answers the action.
pub open spec fn answers(action: PtAction, reply: PtReply) -> bool {
    match action {
        PtAction::Translate { page: _ } => reply is Translated,
        PtAction::Unmap { page: _ } => reply is Unmapped,
        PtAction::MapTo { page: _, frame: _, flags: _, table_flags: _ } => reply is Mapped,
        PtAction::UpdateFlags { page: _, flags: _ } => reply is Updated,
        _ => reply is Done,
    }
}

/// How the TLB entries of a range are flushed.
#[derive(Clone, Copy, PartialEq, Eq, Structural, Debug)]
pub enum TlbFlush {
    Nothing,
    /// Flush the pages on this processor.
    LocalPages { start: u64, count: u64 },
    /// Flush everything on this processor.
    LocalAll,
    /// Flush the pages on all processors by hypercall.
    HypercallList { start: u64, count: u64 },
    /// Flush everything on all processors by hypercall.
    HypercallSpace,
}

/// The flush for `count` pages from `start` on.
pub open spec fn flush_of(start: u64, count: u64, hvcall_ready: bool) -> TlbFlush {
    if count == 0 {
        TlbFlush::Nothing
    } else if count <= TLB_SINGLE_PAGE_FLUSH_CEILING {
        if hvcall_ready {
            TlbFlush::HypercallList { start, count }
        } else {
            TlbFlush::LocalPages { start, count }
        }
    } else {
        if hvcall_ready {
            TlbFlush::HypercallSpace
        } else {
            TlbFlush::LocalAll
        }
    }
}

/// How the TLB entries of `count` pages from `start` on are flushed. Before hypercalls are ready
/// only this processor runs.
pub fn flush_tlb_range(start: u64, count: u64, hvcall_ready: bool) -> (r: TlbFlush)
    ensures
        r == flush_of(start, count, hvcall_ready),
{
    if count == 0 {
        return TlbFlush::Nothing;
    }
    if !hvcall_ready {
        if count <= TLB_SINGLE_PAGE_FLUSH_CEILING {
            return TlbFlush::LocalPages { start, count };
        }
        return TlbFlush::LocalAll;
    }
    if count <= TLB_SINGLE_PAGE_FLUSH_CEILING {
        TlbFlush::HypercallList { start, count }
    } else {
        TlbFlush::HypercallSpace
    }
}

/// What is still to be flushed after a flush was attempted: if a hypercall failed, at least this
/// processor is made coherent.
pub fn after_flush(flush: TlbFlush, succeeded: bool) -> (r: TlbFlush)
    ensures
        r == (if (flush is HypercallList || flush is HypercallSpace) && !succeeded {
            TlbFlush::LocalAll
        } else {
            TlbFlush::Nothing
        }),
{
    match flush {
        TlbFlush::HypercallList { start: _, count: _ } | TlbFlush::HypercallSpace => {
            if succeeded {
                TlbFlush::Nothing
            } else {
                TlbFlush::LocalAll
            }
        },
        _ => TlbFlush::Nothing,
    }
}

/// Why a page fault could not be handled.
#[derive(Clone, Copy, Debug)]
pub enum PageFaultError {
    AllocationFailed,
    AccessError(&'static str),
    HugePage,
}

/// The access that faulted was a write.
pub open spec fn caused_by_write(error_code: u64) -> bool {
    error_code / 2 % 2 == 1
}

/// The page was present, and the fault a violation of its protection.
pub open spec fn protection_violation(error_code: u64) -> bool {
    error_code % 2 == 1
}

/// Whether a fault with this error code is a forbidden access to an area with these permissions.
pub fn access_error(error_code: u64, flags: VmFlags) -> (r: bool)
    ensures
        r == (if caused_by_write(error_code) {
            !flags.write
        } else {
            protection_violation(error_code) || !(flags.read || flags.write || flags.execute)
        }),
{
    if error_code / 2 % 2 == 1 {
        return !flags.write;
    }
    if error_code % 2 == 1 {
        return true;
    }
    !flags.read && !flags.write && !flags.execute
}

/// What is to be done about a page fault.
#[derive(Clone, Copy, Debug)]
pub enum FaultDecision {
    /// Nothing: the page is as the access needs it.
    Resolved,
    /// The fault cannot be handled.
    Failed(PageFaultError),
    /// Map the page to a new frame with these flags.
    MapNewFrame { page: u64, flags: u64, table_flags: u64 },
}

/// What is to be done about a fault on a page of an area with these permissions.
pub open spec fn fault_decision(
    page: u64,
    flags: u64,
    error_code: u64,
    translation: Translation,
) -> FaultDecision {
    match translation {
        Translation::Mapped { frame: _, flags: present } => if caused_by_write(error_code) {
            if present & PTE_WRITABLE != 0 {
                FaultDecision::Resolved
            } else {
                FaultDecision::Failed(PageFaultError::AllocationFailed)
            }
        } else if !protection_violation(error_code) {
            FaultDecision::Resolved
        } else {
            FaultDecision::Failed(PageFaultError::AccessError("Page fault on present page"))
        },
        Translation::NotMapped => FaultDecision::MapNewFrame {
            page,
            flags: flags | PTE_PRESENT,
            table_flags: USER_TABLE_FLAGS,
        },
        Translation::InvalidFrameAddress => FaultDecision::Failed(
            PageFaultError::AccessError("Invalid frame address"),
        ),
    }
}

/// Decides about a page fault, given what the page table says of the page. A write to a page that is
/// mapped but not writable fails: pages are not copied on write.
pub fn handle_page_fault(
    page: u64,
    flags: VmFlags,
    error_code: u64,
    translation: Translation,
) -> (r: FaultDecision)
    ensures
        r == fault_decision(
            page_down(page as int) as u64,
            pteflags_of(flags),
            error_code,
            translation,
        ),
{
    let page: u64 = page_align_down(page);
    let flags: u64 = vmflags_to_pteflags(flags);
    match translation {
        Translation::Mapped { frame: _, flags: present } => {
            if error_code / 2 % 2 == 1 {
                if present & PTE_WRITABLE != 0 {
                    return FaultDecision::Resolved;
                }
                return FaultDecision::Failed(PageFaultError::AllocationFailed);
            }
            if error_code % 2 != 1 {
                return FaultDecision::Resolved;
            }
            FaultDecision::Failed(PageFaultError::AccessError("Page fault on present page"))
        },
        Translation::NotMapped => FaultDecision::MapNewFrame {
            page,
            flags: flags | PTE_PRESENT,
            table_flags: USER_TABLE_FLAGS,
        },
        Translation::InvalidFrameAddress => FaultDecision::Failed(
            PageFaultError::AccessError("Invalid frame address"),
        ),
    }
}

/// The result of mapping a new frame for a page fault. On an error the frame is to be freed. The
/// page was not mapped before, so it cannot be mapped already.
pub fn page_fault_mapped(outcome: Result<(), MapFailure>) -> (r: Result<(), PageFaultError>)
    requires
        !(outcome matches Err(MapFailure::PageAlreadyMapped { frame })),
    ensures
        r == (match outcome {
            Ok(()) => Ok::<(), PageFaultError>(()),
            Err(MapFailure::ParentEntryHugePage) => Err(PageFaultError::HugePage),
            Err(_) => Err(PageFaultError::AllocationFailed),
        }),
{
    match outcome {
        Ok(()) => Ok(()),
        Err(MapFailure::ParentEntryHugePage) => Err(PageFaultError::HugePage),
        Err(_) => Err(PageFaultError::AllocationFailed),
    }
}

/// The pages that a range of addresses populates, in order.
pub fn map_pages(start: u64, end: u64) -> (r: Vec<u64>)
    requires
        page_aligned(start as int),
        page_aligned(end as int),
        start <= end,
    ensures
        r@ == Seq::new(((end - start) / 4096) as nat, |i: int| (start + 4096 * i) as u64),
{
    let mut pages: Vec<u64> = Vec::new();
    let mut page: u64 = start;
    while page < end
        invariant
            page_aligned(start as int),
            page_aligned(end as int),
            start <= page <= end,
            page == start + 4096 * pages@.len(),
            forall|i: int| 0 <= i < pages@.len() ==> #[trigger] pages@[i] == start + 4096 * i,
        decreases end - page,
    {
        pages.push(page);
        page = page + PAGE_BYTES;
    }
    assert(pages@ =~= Seq::new(
        ((end - start) / 4096) as nat,
        |i: int| (start + 4096 * i) as u64,
    ));
    pages
}

/// The pages that a task's page table owns: those of all top-level entries below the kernel region.
/// Returns the first and the last of them; the upper ones lie in the upper canonical half.
pub fn task_owned_pages() -> (r: (u64, u64))
    ensures
        r.0 == 0,
        r.1 == sign_extend_48(KERNEL_PML4_START * PML4_SLOT_SIZE - 4096),
{
    (0, VirtAddr::new_truncate(KERNEL_PML4_START * PML4_SLOT_SIZE - PAGE_BYTES).as_u64())
}

/// An entry of a top-level table: the address and flags that it holds, or nothing if it is unused.
pub type Pml4Entry = Option<(u64, u64)>;

/// The top-level entries of a task's page table, which shares the kernel region of the base table:
/// from the first kernel entry on, each unused entry becomes a copy of the base table's.
pub fn copy_pml4_entries_from(dst: &mut Vec<Pml4Entry>, src: &Vec<Pml4Entry>)
    requires
        old(dst)@.len() == 512,
        src@.len() == 512,
    ensures
        final(dst)@.len() == 512,
        forall|i: int|
            0 <= i < 512 ==> #[trigger] final(dst)@[i] == (if i >= KERNEL_PML4_START
                && old(dst)@[i] is None {
                src@[i]
            } else {
                old(dst)@[i]
            }),
{
    let mut i: usize = KERNEL_PML4_START as usize;
    while i < 512
        invariant
            KERNEL_PML4_START <= i <= 512,
            dst@.len() == 512,
            src@.len() == 512,
            forall|j: int|
                0 <= j < 512 ==> #[trigger] dst@[j] == (if KERNEL_PML4_START <= j < i && old(
                    dst,
                )@[j] is None {
                    src@[j]
                } else {
                    old(dst)@[j]
                }),
        decreases 512 - i,
    {
        if src[i].is_some() && dst[i].is_none() {
            dst.set(i, src[i]);
        }
        i = i + 1;
    }
}

} // verus!
