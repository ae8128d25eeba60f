//! Access of VTL1 to physical pages of VTL0: mapping them, unmapping them, and keeping VTL0 away from
//! them meanwhile.
use vstd::prelude::*;

use crate::addr::{is_canonical, is_phys, page_align_down, page_align_up, page_aligned, page_down, page_up, PhysFrameRange, PAGE_BYTES, PHYS_LIMIT, check_canonical};
use crate::lvbs::heki::{Access, MemAttr, Protection};
use crate::lvbs::mm::{VMAP_END, VMAP_START};
use crate::lvbs::paging::{MapFailure, PTE_NO_EXECUTE, PTE_PRESENT, PTE_WRITABLE};
use crate::lvbs::unmap::DeallocationError;

verus! {

/// Why physical pages cannot be used.
#[derive(Clone, Copy, PartialEq, Eq, Structural, Debug)]
pub enum PhysPointerError {
    InvalidPhysicalAddress(u64),
    DuplicatePhysicalAddress(u64),
    AlreadyMapped(u64),
    Unmapped(u64),
    UnsupportedPermissions(u8),
    Overflow,
    FrameAllocationFailed,
    VaSpaceExhausted,
}

/// What a mapping of physical pages is for.
#[derive(Clone, Copy, PartialEq, Eq, Structural, Debug)]
pub struct PhysPageMapPermissions {
    pub read: bool,
    pub write: bool,
    /// The permissions as bits, for error reports.
    pub bits: u8,
}

/// A mapping of physical pages: its address and its length.
#[derive(Clone, Copy, PartialEq, Eq, Structural, Debug)]
pub struct PhysPageMapInfo {
    pub base: u64,
    pub size: u64,
}

/// Each page follows the one before it in physical memory.
pub open spec fn contiguous(addrs: Seq<u64>) -> bool {
    forall|i: int| 0 <= i < addrs.len() - 1 ==> #[trigger] addrs[i] + 4096 == addrs[i + 1]
}

/// Contiguous pages ascend.
pub proof fn lemma_contiguous(addrs: Seq<u64>)
    requires
        contiguous(addrs),
        addrs.len() > 0,
    ensures
        addrs.last() == addrs[0] + 4096 * (addrs.len() - 1),
    decreases addrs.len(),
{
    if addrs.len() > 1 {
        let rest = addrs.drop_last();
        assert forall|i: int| 0 <= i < rest.len() - 1 implies #[trigger] rest[i] + 4096 == rest[i
            + 1] by {
            assert(rest[i] == addrs[i]);
            assert(rest[i + 1] == addrs[i + 1]);
        }
        lemma_contiguous(rest);
        assert(addrs[addrs.len() - 2] + 4096 == addrs[addrs.len() - 1]);
    }
}

/// Whether each page follows the one before it in physical memory.
pub fn is_contiguous(addrs: &Vec<u64>) -> (r: bool)
    ensures
        r == contiguous(addrs@),
{
    if addrs.len() == 0 {
        return true;
    }
    let mut i: usize = 0;
    while i < addrs.len() - 1
        invariant
            i <= addrs@.len() - 1,
            addrs@.len() > 0,
            forall|j: int| 0 <= j < i ==> #[trigger] addrs@[j] + 4096 == addrs@[j + 1],
        decreases addrs@.len() - i,
    {
        match addrs[i].checked_add(PAGE_BYTES) {
            Some(expected) => {
                if addrs[i + 1] != expected {
                    assert(addrs@[i as int] + 4096 != addrs@[i + 1]);
                    return false;
                }
            },
            None => {
                assert(addrs@[i as int] + 4096 != addrs@[i + 1]);
                return false;
            },
        }
        i = i + 1;
    }
    true
}

/// Addresses that were seen, held by a hash set.
#[verifier::external_body]
pub struct SeenSet {
    inner: hashbrown::HashSet<u64>,
}

/// What a [`SeenSet`] holds.
pub uninterp spec fn seen_set(set: SeenSet) -> Set<u64>;

impl SeenSet {
    /// `hashbrown::HashSet::new`: a set without elements.
    #[verifier::external_body]
    fn new() -> (r: SeenSet)
        ensures
            seen_set(r) == Set::<u64>::empty(),
    {
        SeenSet { inner: hashbrown::HashSet::new() }
    }

    /// `hashbrown::HashSet::insert`: puts the address in, and tells whether it was new.
    #[verifier::external_body]
    fn insert(&mut self, addr: u64) -> (r: bool)
        ensures
            seen_set(*final(self)) == seen_set(*old(self)).insert(addr),
            r == !seen_set(*old(self)).contains(addr),
    {
        self.inner.insert(addr)
    }
}

/// The address at `i` also stands before it.
pub open spec fn repeats(addrs: Seq<u64>, i: int) -> bool {
    0 <= i < addrs.len() && addrs.take(i).contains(addrs[i])
}

/// The first address that also stands before itself.
pub fn first_duplicate(addrs: &Vec<u64>) -> (r: Option<u64>)
    ensures
        match r {
            Some(addr) => exists|i: int|
                #![trigger addrs@[i]]
                repeats(addrs@, i) && addrs@[i] == addr && forall|j: int|
                    0 <= j < i ==> !repeats(addrs@, j),
            None => addrs@.no_duplicates(),
        },
{
    let mut seen = SeenSet::new();
    let mut i: usize = 0;
    assert(seen_set(seen) =~= addrs@.take(0).to_set());
    while i < addrs.len()
        invariant
            i <= addrs@.len(),
            forall|a: u64| #[trigger] seen_set(seen).contains(a) == addrs@.take(i as int).contains(a),
            forall|j: int| 0 <= j < i ==> !repeats(addrs@, j),
        decreases addrs@.len() - i,
    {
        let addr: u64 = addrs[i];
        if !seen.insert(addr) {
            assert(repeats(addrs@, i as int));
            assert(addrs@[i as int] == addr);
            return Some(addr);
        }
        proof {
            let before = addrs@.take(i as int);
            let after = addrs@.take(i + 1);
            assert(after =~= before.push(addr));
            assert forall|a: u64| #[trigger] seen_set(seen).contains(a) == after.contains(a) by {
                if before.contains(a) {
                    let k = choose|k: int| 0 <= k < before.len() && before[k] == a;
                    assert(after[k] == a);
                }
                if after.contains(a) {
                    let k = choose|k: int| 0 <= k < after.len() && after[k] == a;
                    if k < i {
                        assert(before[k] == a);
                    }
                }
                assert(after[i as int] == addr);
            }
            assert(!repeats(addrs@, i as int));
        }
        i = i + 1;
    }
    proof {
        assert forall|x: int, y: int| 0 <= x < y < addrs@.len() implies addrs@[x] != addrs@[y] by {
            assert(!repeats(addrs@, y));
            assert(addrs@.take(y)[x] == addrs@[x]);
        }
    }
    None
}

/// How physical pages are to be mapped.
pub(crate) enum VmapPlan {
    /// Contiguous pages: in the direct map, with these flags.
    Direct { range: PhysFrameRange, flags: u64 },
    /// Scattered pages: at addresses that are still to be chosen, with these flags.
    Scattered { frames: Vec<u64>, flags: u64 },
}

/// The flags of a mapping: VTL0 memory is never executable in VTL1.
pub open spec fn vmap_flags(write: bool) -> u64 {
    if write {
        0x8000_0000_0000_0003
    } else {
        0x8000_0000_0000_0001
    }
}

/// Every address is that of a page.
pub open spec fn are_pages(pages: Seq<u64>) -> bool {
    forall|i: int|
        0 <= i < pages.len() ==> page_aligned(#[trigger] pages[i] as int) && is_phys(pages[i] as int)
}

/// Every address is that of a page, and the page behind it exists too.
pub open spec fn are_inner_pages(pages: Seq<u64>) -> bool {
    forall|i: int|
        0 <= i < pages.len() ==> page_aligned(#[trigger] pages[i] as int) && is_phys(
            pages[i] + 4096,
        )
}

/// Decides how physical pages are mapped.
pub(crate) fn vmap_plan(pages: &Vec<u64>, perms: PhysPageMapPermissions) -> (r: Result<
    VmapPlan,
    PhysPointerError,
>)
    requires
        are_pages(pages@),
        pages@.len() > 0 && contiguous(pages@) ==> is_phys(pages@.last() + 4096),
    ensures
        if pages@.len() == 0 {
            r == Err::<VmapPlan, _>(PhysPointerError::InvalidPhysicalAddress(0))
        } else if contiguous(pages@) {
            r == Ok::<_, PhysPointerError>(
                VmapPlan::Direct {
                    range: PhysFrameRange {
                        start: pages@[0],
                        end: (pages@.last() + 4096) as u64,
                    },
                    flags: vmap_flags(perms.write),
                },
            )
        } else if pages@.no_duplicates() {
            r matches Ok(VmapPlan::Scattered { frames, flags }) && frames@ == pages@ && flags
                == vmap_flags(perms.write)
        } else {
            r matches Err(PhysPointerError::DuplicatePhysicalAddress(addr)) && exists|i: int|
                #![trigger pages@[i]]
                repeats(pages@, i) && pages@[i] == addr && forall|j: int|
                    0 <= j < i ==> !repeats(pages@, j)
        },
{
    if pages.len() == 0 {
        return Err(PhysPointerError::InvalidPhysicalAddress(0));
    }
    let mut flags: u64 = PTE_PRESENT + PTE_NO_EXECUTE;
    if perms.write {
        flags = flags + PTE_WRITABLE;
    }
    if is_contiguous(pages) {
        let last: u64 = pages[pages.len() - 1];
        assert(is_phys(pages@[pages@.len() - 1] + 4096));
        let end: u64 = last + PAGE_BYTES;
        assert(page_aligned(pages@[0] as int));
        assert(page_aligned(pages@[pages@.len() - 1] as int));
        return Ok(VmapPlan::Direct { range: PhysFrameRange::from_addrs(pages[0], end), flags });
    }
    match first_duplicate(pages) {
        Some(addr) => {
            proof {
                let i = choose|i: int|
                    #![trigger pages@[i]]
                    repeats(pages@, i) && pages@[i] == addr && forall|j: int|
                        0 <= j < i ==> !repeats(pages@, j);
                let before = pages@.take(i);
                let k = choose|k: int| 0 <= k < before.len() && before[k] == pages@[i];
                assert(pages@[k] == pages@[i]);
            }
            Err(PhysPointerError::DuplicatePhysicalAddress(addr))
        },
        None => {
            let frames = pages.clone();
            assert(frames@ =~= pages@);
            Ok(VmapPlan::Scattered { frames, flags })
        },
    }
}

/// Why addresses for a mapping could not be chosen.
#[derive(Clone, Copy, PartialEq, Eq, Structural, Debug)]
pub enum VmapAllocError {
    EmptyInput,
    DuplicateMapping,
    VaSpaceExhausted,
}

/// The error that reports a failed choice of addresses.
pub open spec fn vmap_alloc_error_spec(error: VmapAllocError, first_page: u64) -> PhysPointerError {
    match error {
        VmapAllocError::EmptyInput => PhysPointerError::InvalidPhysicalAddress(0),
        VmapAllocError::DuplicateMapping => PhysPointerError::AlreadyMapped(first_page),
        VmapAllocError::VaSpaceExhausted => PhysPointerError::VaSpaceExhausted,
    }
}

/// The error that reports a failed choice of addresses.
pub fn vmap_alloc_error(error: VmapAllocError, first_page: u64) -> (r: PhysPointerError)
    ensures
        r == vmap_alloc_error_spec(error, first_page),
{
    match error {
        VmapAllocError::EmptyInput => PhysPointerError::InvalidPhysicalAddress(0),
        VmapAllocError::DuplicateMapping => PhysPointerError::AlreadyMapped(first_page),
        VmapAllocError::VaSpaceExhausted => PhysPointerError::VaSpaceExhausted,
    }
}

/// The error that reports a failed mapping.
pub open spec fn vmap_error_spec(error: MapFailure, first_page: u64) -> PhysPointerError {
    match error {
        MapFailure::PageAlreadyMapped { frame: _ } => PhysPointerError::AlreadyMapped(first_page),
        MapFailure::FrameAllocationFailed => PhysPointerError::FrameAllocationFailed,
        MapFailure::ParentEntryHugePage => PhysPointerError::InvalidPhysicalAddress(first_page),
    }
}

/// The error that reports a failed mapping.
pub fn vmap_error(error: MapFailure, first_page: u64) -> (r: PhysPointerError)
    ensures
        r == vmap_error_spec(error, first_page),
{
    match error {
        MapFailure::PageAlreadyMapped { frame: _ } => PhysPointerError::AlreadyMapped(first_page),
        MapFailure::FrameAllocationFailed => PhysPointerError::FrameAllocationFailed,
        MapFailure::ParentEntryHugePage => PhysPointerError::InvalidPhysicalAddress(first_page),
    }
}

/// Whether the address belongs to the region for mappings of scattered pages.
pub fn is_vmap_address(va: u64) -> (r: bool)
    ensures
        r == (VMAP_START <= va < VMAP_END),
{
    va >= VMAP_START && va < VMAP_END
}

/// The page lies in the range.
pub open spec fn owned(vtl1: PhysFrameRange, page: u64) -> bool {
    vtl1.start <= page < vtl1.end
}

/// Refuses pages that belong to VTL1 itself.
pub fn validate_unowned(vtl1: PhysFrameRange, pages: &Vec<u64>) -> (r: Result<(), PhysPointerError>)
    ensures
        match r {
            Ok(()) => forall|i: int|
                0 <= i < pages@.len() ==> !owned(vtl1, #[trigger] pages@[i]),
            Err(e) => exists|i: int|
                #![trigger pages@[i]]
                0 <= i < pages@.len() && owned(vtl1, pages@[i]) && e
                    == PhysPointerError::InvalidPhysicalAddress(pages@[i]) && forall|j: int|
                    0 <= j < i ==> !owned(vtl1, #[trigger] pages@[j]),
        },
{
    let mut i: usize = 0;
    while i < pages.len()
        invariant
            i <= pages@.len(),
            forall|j: int| 0 <= j < i ==> !owned(vtl1, #[trigger] pages@[j]),
        decreases pages@.len() - i,
    {
        let addr: u64 = pages[i];
        if addr >= vtl1.start && addr < vtl1.end {
            assert(owned(vtl1, pages@[i as int]));
            return Err(PhysPointerError::InvalidPhysicalAddress(addr));
        }
        i = i + 1;
    }
    Ok(())
}

/// A set of ranges.
#[verifier::external_type_specification]
#[verifier::external_body]
#[verifier::reject_recursive_types(T)]
pub struct ExRangeSet<T>(rangemap::RangeSet<T>);

/// The numbers that a set of ranges covers.
pub uninterp spec fn covered(set: rangemap::RangeSet<u64>) -> Set<u64>;

/// `rangemap::RangeSet::new`: a set that covers nothing.
#[verifier::external_body]
fn range_set_new() -> (r: rangemap::RangeSet<u64>)
    ensures
        covered(r) == Set::<u64>::empty(),
{
    rangemap::RangeSet::new()
}

/// `rangemap::RangeSet::insert`: the set also covers the numbers from `start` up to `end`.
#[verifier::external_body]
fn range_set_insert(set: &mut rangemap::RangeSet<u64>, start: u64, end: u64)
    requires
        start < end,
    ensures
        forall|x: u64| #[trigger]
            covered(*final(set)).contains(x) == (covered(*old(set)).contains(x) || start <= x < end),
{
    set.insert(start..end);
}

/// `rangemap::RangeSet::iter`: the ranges of the set in ascending order. Ranges that overlap or touch
/// were made one, so there is a gap between any two.
#[verifier::external_body]
fn range_set_ranges(set: &rangemap::RangeSet<u64>) -> (r: Vec<(u64, u64)>)
    ensures
        forall|i: int| 0 <= i < r@.len() ==> (#[trigger] r@[i]).0 < r@[i].1,
        forall|i: int, j: int|
            0 <= i < j < r@.len() ==> (#[trigger] r@[i]).1 < (#[trigger] r@[j]).0,
        forall|x: u64| #[trigger]
            covered(*set).contains(x) == exists|i: int|
                0 <= i < r@.len() && (#[trigger] r@[i]).0 <= x < r@[i].1,
{
    set.iter().map(|range| (range.start, range.end)).collect()
}

/// The address lies in one of the pages.
pub open spec fn in_pages(pages: Seq<u64>, x: u64) -> bool {
    exists|i: int| 0 <= i < pages.len() && (#[trigger] pages[i]) <= x < pages[i] + 4096
}

/// The address lies in the pages of one of the requests.
pub open spec fn in_requests(requests: Seq<Protection>, x: u64) -> bool {
    exists|i: int|
        0 <= i < requests.len() && (#[trigger] requests[i]).pa <= x < requests[i].pa + 4096
            * requests[i].num_pages
}

/// Access that VTL0 keeps to pages while VTL1 uses them: none while VTL1 writes them, no writing while
/// VTL1 reads them, all once VTL1 is done.
pub open spec fn vtl0_access(perms: PhysPageMapPermissions) -> MemAttr {
    if perms.write {
        MemAttr { read: false, write: false, execute: false }
    } else if perms.read {
        MemAttr { read: true, write: false, execute: true }
    } else {
        MemAttr { read: true, write: true, execute: true }
    }
}

/// Requests for whole runs of pages: each starts at a page, names at least one, and grants the access;
/// they are ordered and do not touch.
pub open spec fn are_runs(requests: Seq<Protection>, access: Access) -> bool {
    &&& forall|i: int|
        0 <= i < requests.len() ==> page_aligned((#[trigger] requests[i]).pa as int)
            && requests[i].num_pages > 0 && requests[i].access == access
    &&& forall|i: int, j: int|
        0 <= i < j < requests.len() ==> (#[trigger] requests[i]).pa + 4096 * requests[i].num_pages
            < (#[trigger] requests[j]).pa
}

/// A maximal run of covered numbers starts and ends at page boundaries if what is covered consists of
/// pages.
proof fn lemma_run_is_pages(pages: Seq<u64>, runs: Seq<(u64, u64)>, i: int)
    requires
        are_inner_pages(pages),
        forall|k: int| 0 <= k < runs.len() ==> (#[trigger] runs[k]).0 < runs[k].1,
        forall|k: int, j: int|
            0 <= k < j < runs.len() ==> (#[trigger] runs[k]).1 < (#[trigger] runs[j]).0,
        forall|x: u64| #[trigger]
            in_pages(pages, x) == exists|k: int|
                0 <= k < runs.len() && (#[trigger] runs[k]).0 <= x < runs[k].1,
        0 <= i < runs.len(),
    ensures
        page_aligned(runs[i].0 as int),
        page_aligned(runs[i].1 as int),
        is_phys(runs[i].1 as int),
{
    let start = runs[i].0;
    let end = runs[i].1;
    assert(in_pages(pages, start));
    let p = choose|p: int| 0 <= p < pages.len() && (#[trigger] pages[p]) <= start < pages[p] + 4096;
    if start != pages[p] {
        let below = (start - 1) as u64;
        assert(in_pages(pages, below)) by {
            assert(pages[p] <= below < pages[p] + 4096);
        }
        let k = choose|k: int| 0 <= k < runs.len() && (#[trigger] runs[k]).0 <= below < runs[k].1;
        if k < i {
            assert(runs[k].1 < runs[i].0);
        } else if k > i {
            assert(runs[i].1 < runs[k].0);
        }
    }
    let last = (end - 1) as u64;
    assert(runs[i].0 <= last < runs[i].1);
    assert(in_pages(pages, last));
    let q = choose|q: int| 0 <= q < pages.len() && (#[trigger] pages[q]) <= last < pages[q] + 4096;
    assert(is_phys(pages[q] + 4096));
    if end != pages[q] + 4096 {
        assert(in_pages(pages, end)) by {
            assert(pages[q] <= end < pages[q] + 4096);
        }
        let k = choose|k: int| 0 <= k < runs.len() && (#[trigger] runs[k]).0 <= end < runs[k].1;
        if k < i {
            assert(runs[k].1 < runs[i].0);
        } else if k > i {
            assert(runs[i].1 < runs[k].0);
        }
    }
}

/// Restricts the access of VTL0 to pages while VTL1 uses them: the requests to make, as few as
/// possible.
pub fn protect(pages: &Vec<u64>, perms: PhysPageMapPermissions) -> (r: Vec<Protection>)
    requires
        are_inner_pages(pages@),
    ensures
        are_runs(r@, Access::Attr(vtl0_access(perms))),
        forall|x: u64| #[trigger] in_requests(r@, x) == in_pages(pages@, x),
{
    let mut set = range_set_new();
    let mut i: usize = 0;
    while i < pages.len()
        invariant
            i <= pages@.len(),
            are_inner_pages(pages@),
            forall|x: u64| #[trigger]
                covered(set).contains(x) == in_pages(pages@.take(i as int), x),
        decreases pages@.len() - i,
    {
        let start: u64 = pages[i];
        assert(is_phys(pages@[i as int] + 4096));
        let ghost before = set;
        range_set_insert(&mut set, start, start + PAGE_BYTES);
        proof {
            let done = pages@.take(i as int);
            let next = pages@.take(i + 1);
            assert forall|x: u64| #[trigger] covered(set).contains(x) == in_pages(next, x) by {
                assert(covered(before).contains(x) == in_pages(done, x));
                if in_pages(done, x) {
                    let k = choose|k: int|
                        0 <= k < done.len() && (#[trigger] done[k]) <= x < done[k] + 4096;
                    assert(next[k] == done[k]);
                }
                if in_pages(next, x) {
                    let k = choose|k: int|
                        0 <= k < next.len() && (#[trigger] next[k]) <= x < next[k] + 4096;
                    if k < i {
                        assert(done[k] == next[k]);
                    }
                }
                assert(next[i as int] == start);
            }
        }
        i = i + 1;
    }
    assert(pages@.take(i as int) =~= pages@);
    let attr = if perms.write {
        MemAttr::empty()
    } else if perms.read {
        MemAttr { read: true, write: false, execute: true }
    } else {
        MemAttr { read: true, write: true, execute: true }
    };
    let runs = range_set_ranges(&set);
    let mut requests: Vec<Protection> = Vec::new();
    proof {
        assert forall|x: u64| #[trigger]
            in_pages(pages@, x) == exists|k: int|
                0 <= k < runs@.len() && (#[trigger] runs@[k]).0 <= x < runs@[k].1 by {
            assert(covered(set).contains(x) == in_pages(pages@, x));
        }
    }
    let mut k: usize = 0;
    while k < runs.len()
        invariant
            k <= runs@.len(),
            are_inner_pages(pages@),
            requests@.len() == k,
            attr == vtl0_access(perms),
            forall|j: int| 0 <= j < runs@.len() ==> (#[trigger] runs@[j]).0 < runs@[j].1,
            forall|j: int, l: int|
                0 <= j < l < runs@.len() ==> (#[trigger] runs@[j]).1 < (#[trigger] runs@[l]).0,
            forall|x: u64| #[trigger]
                in_pages(pages@, x) == exists|j: int|
                    0 <= j < runs@.len() && (#[trigger] runs@[j]).0 <= x < runs@[j].1,
            forall|j: int|
                0 <= j < k ==> {
                    let q = #[trigger] requests@[j];
                    &&& page_aligned(q.pa as int)
                    &&& q.num_pages > 0
                    &&& q.access == Access::Attr(attr)
                    &&& q.pa == runs@[j].0
                    &&& q.pa + 4096 * q.num_pages == runs@[j].1
                },
        decreases runs@.len() - k,
    {
        let (start, end) = runs[k];
        proof {
            lemma_run_is_pages(pages@, runs@, k as int);
        }
        requests.push(
            Protection {
                pa: start,
                num_pages: (end - start) / PAGE_BYTES,
                access: Access::Attr(attr),
            },
        );
        k = k + 1;
    }
    proof {
        assert forall|i: int, j: int| 0 <= i < j < requests@.len() implies (
        #[trigger] requests@[i]).pa + 4096 * requests@[i].num_pages < (
        #[trigger] requests@[j]).pa by {
            assert(runs@[i].1 < runs@[j].0);
        }
        assert forall|x: u64| #[trigger] in_requests(requests@, x) == in_pages(pages@, x) by {
            if in_requests(requests@, x) {
                let j = choose|j: int|
                    0 <= j < requests@.len() && (#[trigger] requests@[j]).pa <= x < requests@[j].pa
                        + 4096 * requests@[j].num_pages;
                assert(runs@[j].0 <= x < runs@[j].1);
            }
            if in_pages(pages@, x) {
                let j = choose|j: int|
                    0 <= j < runs@.len() && (#[trigger] runs@[j]).0 <= x < runs@[j].1;
                assert(requests@[j].pa == runs@[j].0);
            }
        }
    }
    requests
}

/// The page frames that hold the addresses from `phys_start` up to `phys_end`.
pub open spec fn covering_frames(phys_start: int, phys_end: int) -> PhysFrameRange {
    PhysFrameRange { start: page_down(phys_start) as u64, end: page_up(phys_end) as u64 }
}

/// Decides on a mapping of VTL0 memory in the direct map: the frames to map and their flags, without
/// the right to execute. Frames of VTL1 are refused.
pub fn map_vtl0_phys_range(vtl1: PhysFrameRange, phys_start: u64, phys_end: u64, flags: u64) -> (r:
    Result<(PhysFrameRange, u64), MapFailure>)
    requires
        is_phys(phys_start as int),
        is_phys(phys_end as int),
        is_phys(page_up(phys_end as int)),
    ensures
        ({
            let range = covering_frames(phys_start as int, phys_end as int);
            r == (if range.start < vtl1.end && vtl1.start < range.end {
                Err(MapFailure::FrameAllocationFailed)
            } else {
                Ok((range, flags | PTE_NO_EXECUTE))
            })
        }),
{
    let range = PhysFrameRange {
        start: page_align_down(phys_start),
        end: page_align_up(phys_end),
    };
    if range.start < vtl1.end && vtl1.start < range.end {
        return Err(MapFailure::FrameAllocationFailed);
    }
    Ok((range, flags | PTE_NO_EXECUTE))
}

/// The pages to unmap for a mapping of `length` bytes at `page_addr`: their start and end.
pub fn unmap_vtl0_pages(page_addr: u64, length: u64) -> (r: Result<(u64, u64), DeallocationError>)
    requires
        is_canonical(page_addr as int),
        is_canonical(page_addr + length) ==> page_up(page_addr + length) <= u64::MAX,
    ensures
        r == (if !page_aligned(page_addr as int) || !is_canonical(page_addr + length) {
            Err(DeallocationError::Unaligned)
        } else {
            Ok((page_addr, page_up(page_addr + length) as u64))
        }),
{
    if page_addr % PAGE_BYTES != 0 {
        return Err(DeallocationError::Unaligned);
    }
    match page_addr.checked_add(length) {
        Some(end) => if check_canonical(end) {
            Ok((page_addr, page_align_up(end)))
        } else {
            Err(DeallocationError::Unaligned)
        },
        None => Err(DeallocationError::Unaligned),
    }
}

/// A mapping of VTL0 memory for a copy.
#[derive(Clone, Copy, PartialEq, Eq, Structural, Debug)]
pub struct Vtl0Mapping {
    /// The frames to map.
    pub range: PhysFrameRange,
    pub flags: u64,
    /// Where the memory starts in the mapping.
    pub offset: u64,
    pub size: u64,
}

/// The mapping of `size` bytes of VTL0 memory, if they exist and VTL1 does not own their frames.
pub open spec fn guard_of(vtl1: PhysFrameRange, phys_addr: u64, size: u64, flags: u64) -> Option<
    Vtl0Mapping,
> {
    let range = covering_frames(phys_addr as int, phys_addr + size);
    if !is_phys(phys_addr + size) || (range.start < vtl1.end && vtl1.start < range.end) {
        None
    } else {
        Some(
            Vtl0Mapping {
                range,
                flags: flags | PTE_NO_EXECUTE,
                offset: (phys_addr - page_down(phys_addr as int)) as u64,
                size,
            },
        )
    }
}

/// Decides on the mapping of VTL0 memory for a copy.
pub fn map_vtl0_guard(vtl1: PhysFrameRange, phys_addr: u64, size: u64, flags: u64) -> (r: Option<
    Vtl0Mapping,
>)
    requires
        is_phys(phys_addr as int),
        is_phys(phys_addr + size) ==> is_phys(page_up(phys_addr + size)),
    ensures
        r == guard_of(vtl1, phys_addr, size, flags),
{
    let end: u64 = match phys_addr.checked_add(size) {
        Some(end) => end,
        None => return None,
    };
    if end >= PHYS_LIMIT {
        return None;
    }
    match map_vtl0_phys_range(vtl1, phys_addr, end, flags) {
        Ok((range, flags)) => Some(
            Vtl0Mapping { range, flags, offset: phys_addr - page_align_down(phys_addr), size },
        ),
        Err(_) => None,
    }
}

/// How a copy from or to VTL0 memory is done.
#[derive(Clone, Copy, PartialEq, Eq, Structural, Debug)]
pub enum Vtl0Copy {
    /// There is nothing to copy.
    Nothing,
    /// The memory cannot be mapped: the copy fails.
    Refused,
    /// Map the memory, copy, and unmap it.
    Through(Vtl0Mapping),
}

/// How `size` bytes are copied from VTL0 memory, or to it.
pub open spec fn copy_of(vtl1: PhysFrameRange, phys_addr: u64, size: u64, to_vtl0: bool) -> Vtl0Copy {
    if size == 0 {
        Vtl0Copy::Nothing
    } else {
        match guard_of(
            vtl1,
            phys_addr,
            size,
            if to_vtl0 {
                0x3
            } else {
                0x1
            },
        ) {
            Some(mapping) => Vtl0Copy::Through(mapping),
            None => Vtl0Copy::Refused,
        }
    }
}

/// Decides how `size` bytes are copied from VTL0 memory, or to it.
pub fn vtl0_copy(vtl1: PhysFrameRange, phys_addr: u64, size: u64, to_vtl0: bool) -> (r: Vtl0Copy)
    requires
        is_phys(phys_addr as int),
        is_phys(phys_addr + size) ==> is_phys(page_up(phys_addr + size)),
    ensures
        r == copy_of(vtl1, phys_addr, size, to_vtl0),
{
    if size == 0 {
        return Vtl0Copy::Nothing;
    }
    let flags: u64 = if to_vtl0 {
        PTE_PRESENT + PTE_WRITABLE
    } else {
        PTE_PRESENT
    };
    match map_vtl0_guard(vtl1, phys_addr, size, flags) {
        Some(mapping) => Vtl0Copy::Through(mapping),
        None => Vtl0Copy::Refused,
    }
}

/// No mapping of VTL0 memory can be executed or covers memory of VTL1.
pub proof fn law_vtl0_mappings_are_confined(
    vtl1: PhysFrameRange,
    phys_start: int,
    phys_end: int,
    flags: u64,
    pa: int,
)
    requires
        ({
            let range = covering_frames(phys_start, phys_end);
            !(range.start < vtl1.end && vtl1.start < range.end)
        }),
        0 <= phys_start,
        page_up(phys_end) <= u64::MAX,
        phys_start <= pa < phys_end,
    ensures
        !vtl1.spec_contains(pa),
        (flags | PTE_NO_EXECUTE) & PTE_NO_EXECUTE != 0,
        vmap_flags(true) & PTE_NO_EXECUTE != 0,
        vmap_flags(false) & PTE_NO_EXECUTE != 0,
{
    assert((flags | 0x8000_0000_0000_0000u64) & 0x8000_0000_0000_0000u64 != 0) by (bit_vector);
    assert(0x8000_0000_0000_0003u64 & 0x8000_0000_0000_0000u64 != 0) by (bit_vector);
    assert(0x8000_0000_0000_0001u64 & 0x8000_0000_0000_0000u64 != 0) by (bit_vector);
}

} // verus!
