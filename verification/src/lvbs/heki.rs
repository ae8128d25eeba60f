//! Descriptions of VTL0 memory that the VTL0 kernel hands to VTL1, and the requests to the
//! hypervisor to protect such memory.
use vstd::prelude::*;

use crate::lvbs::error::VsmError;
use crate::addr::{check_canonical, is_canonical, is_phys, page_aligned, page_down, PhysFrameRange, PAGE_BYTES, PHYS_LIMIT};

verus! {

/// Access that VTL0 keeps to a memory range.
#[derive(Clone, Copy, PartialEq, Eq, Structural, Debug)]
pub struct MemAttr {
    pub read: bool,
    pub write: bool,
    pub execute: bool,
}

impl MemAttr {
    /// No access.
    pub fn empty() -> (r: MemAttr)
        ensures
            r == (MemAttr { read: false, write: false, execute: false }),
    {
        MemAttr { read: false, write: false, execute: false }
    }

    /// Read access only.
    pub fn read_only() -> (r: MemAttr)
        ensures
            r == mem_attr_read(),
    {
        MemAttr { read: true, write: false, execute: false }
    }

    /// Read and write access.
    pub fn read_write() -> (r: MemAttr)
        ensures
            r == mem_attr_read_write(),
    {
        MemAttr { read: true, write: true, execute: false }
    }
}

/// Read access only.
pub open spec fn mem_attr_read() -> MemAttr {
    MemAttr { read: true, write: false, execute: false }
}

/// Read and write access, no execution.
pub open spec fn mem_attr_read_write() -> MemAttr {
    MemAttr { read: true, write: true, execute: false }
}

/// Kinds of kernel data that the VTL0 kernel loads into VTL1.
#[derive(Clone, Copy, PartialEq, Eq, Structural, Debug)]
pub enum HekiKdataType {
    SystemCerts,
    RevocationCerts,
    BlocklistHashes,
    KernelInfo,
    KernelData,
    PatchInfo,
    KexecTrampoline,
    Unknown,
}

/// Kinds of memory of a kernel module.
#[derive(Clone, Copy, PartialEq, Eq, Structural, Debug)]
pub enum ModMemType {
    Text,
    Data,
    RoData,
    RoAfterInit,
    InitText,
    InitData,
    InitRoData,
    ElfBuffer,
    Patch,
    Unknown,
}

/// Kinds of memory of a kexec image.
#[derive(Clone, Copy, PartialEq, Eq, Structural, Debug)]
pub enum HekiKexecType {
    KexecImage,
    KexecKernelBlob,
    KexecPages,
    Unknown,
}

/// A range of VTL0 memory: where it starts virtually, where it starts and ends physically, and
/// what its attribute word means in each of the calls that can carry it.
#[derive(Clone, Copy, PartialEq, Eq, Structural, Debug)]
pub struct HekiRange {
    pub va: u64,
    pub pa: u64,
    pub epa: u64,
    /// The attribute word as access rights, if it is a set of access rights.
    pub mem_attr: Option<MemAttr>,
    /// The attribute word as a kind of kernel data.
    pub kdata_type: HekiKdataType,
    /// The attribute word as a kind of module memory.
    pub mod_mem_type: ModMemType,
    /// The attribute word as a kind of kexec memory.
    pub kexec_type: HekiKexecType,
}

impl HekiRange {
    /// The addresses exist, the physical range does not run backwards, and the virtual range of
    /// the same length stays canonical.
    pub open spec fn well_formed(self) -> bool {
        &&& is_canonical(self.va as int)
        &&& is_phys(self.pa as int)
        &&& is_phys(self.epa as int)
        &&& self.pa <= self.epa
        &&& is_canonical(self.va + (self.epa - self.pa))
    }

    /// All three addresses start a page.
    pub open spec fn spec_is_aligned(self) -> bool {
        page_aligned(self.va as int) && page_aligned(self.pa as int) && page_aligned(
            self.epa as int,
        )
    }

    /// The page frames of the range.
    pub open spec fn frames(self) -> PhysFrameRange {
        PhysFrameRange { start: page_down(self.pa as int) as u64, end: page_down(self.epa as int) as u64 }
    }

    /// Whether the addresses exist, the physical range does not run backwards, and the virtual
    /// range of the same length stays canonical.
    pub fn is_valid(&self) -> (r: bool)
        ensures
            r == self.well_formed(),
    {
        if !check_canonical(self.va) || self.pa >= PHYS_LIMIT || self.epa >= PHYS_LIMIT || self.pa
            > self.epa {
            return false;
        }
        match self.va.checked_add(self.epa - self.pa) {
            Some(end) => check_canonical(end),
            None => false,
        }
    }

    /// Whether all three addresses start a page.
    pub fn is_aligned(&self) -> (r: bool)
        ensures
            r == self.spec_is_aligned(),
    {
        self.va % PAGE_BYTES == 0 && self.pa % PAGE_BYTES == 0 && self.epa % PAGE_BYTES == 0
    }

    /// The page frames of the range.
    pub fn phys_frame_range(&self) -> (r: PhysFrameRange)
        requires
            self.well_formed(),
        ensures
            r == self.frames(),
            r.well_formed(),
    {
        PhysFrameRange::from_addrs(self.pa, self.epa)
    }
}

/// Every range of the sequence is well formed.
pub open spec fn ranges_well_formed(ranges: Seq<HekiRange>) -> bool {
    forall|i: int| 0 <= i < ranges.len() ==> (#[trigger] ranges[i]).well_formed()
}

/// A page of range descriptions; pages are chained by physical address.
pub struct HekiPage {
    /// Physical address of the next page.
    pub next_pa: u64,
    /// The ranges that this page describes.
    pub ranges: Vec<HekiRange>,
}

impl HekiPage {
    /// The page describes at least one range, its ranges are well formed and its link is an
    /// address.
    pub open spec fn well_formed(self) -> bool {
        &&& is_phys(self.next_pa as int)
        &&& self.ranges@.len() > 0
        &&& ranges_well_formed(self.ranges@)
    }

    /// Whether the page is well formed.
    pub fn is_valid(&self) -> (r: bool)
        ensures
            r == self.well_formed(),
    {
        if self.next_pa >= PHYS_LIMIT || self.ranges.len() == 0 {
            return false;
        }
        let mut i: usize = 0;
        while i < self.ranges.len()
            invariant
                i <= self.ranges.len(),
                forall|j: int| 0 <= j < i ==> (#[trigger] self.ranges@[j]).well_formed(),
            decreases self.ranges.len() - i,
        {
            if !self.ranges[i].is_valid() {
                assert(!self.ranges@[i as int].well_formed());
                return false;
            }
            i = i + 1;
        }
        true
    }
}

/// A walk along a chain of pages until they have described a wanted number of ranges.
pub struct HekiPageWalk {
    next_pa: u64,
    wanted: u64,
    ranges: Vec<HekiRange>,
}

impl HekiPageWalk {
    /// Where the walk reads next.
    pub closed spec fn position(self) -> u64 {
        self.next_pa
    }

    /// How many ranges the walk looks for.
    pub closed spec fn goal(self) -> int {
        self.wanted as int
    }

    /// The ranges found so far, in the order of their descriptions.
    pub closed spec fn found(self) -> Seq<HekiRange> {
        self.ranges@
    }

    /// The walk reads at a physical address, and all it found is well formed.
    pub open spec fn well_formed(self) -> bool {
        is_phys(self.position() as int) && ranges_well_formed(self.found())
    }

    /// Starts a walk at `pa` for `nranges` ranges.
    pub fn new(pa: u64, nranges: u64) -> (r: HekiPageWalk)
        requires
            is_phys(pa as int),
        ensures
            r.well_formed(),
            r.position() == pa,
            r.goal() == nranges,
            r.found() == Seq::<HekiRange>::empty(),
    {
        HekiPageWalk { next_pa: pa, wanted: nranges, ranges: Vec::new() }
    }

    /// The physical address of the page to copy next, or nothing if enough ranges were found.
    pub fn next_page(&self) -> (r: Option<u64>)
        ensures
            r == (if self.found().len() < self.goal() {
                Some(self.position())
            } else {
                None
            }),
    {
        if (self.ranges.len() as u64) < self.wanted {
            Some(self.next_pa)
        } else {
            None
        }
    }

    /// The physical address of the page that the walk reads next.
    pub fn current(&self) -> (r: u64)
        ensures
            r == self.position(),
    {
        self.next_pa
    }

    /// Takes the page that was copied, or nothing if the copy failed. The walk fails on a failed
    /// copy and on a malformed page.
    pub fn accept(&mut self, page: Option<HekiPage>) -> (r: Result<(), VsmError>)
        requires
            old(self).well_formed(),
        ensures
            final(self).well_formed(),
            r == (if page matches Some(p) && p.well_formed() {
                Ok::<(), VsmError>(())
            } else {
                Err(VsmError::HekiPagesCopyFailed)
            }),
            final(self).goal() == old(self).goal(),
            match page {
                Some(p) if p.well_formed() => {
                    &&& final(self).position() == p.next_pa
                    &&& final(self).found() == old(self).found() + p.ranges@
                },
                _ => *final(self) == *old(self),
            },
    {
        match page {
            Some(page) => {
                if !page.is_valid() {
                    return Err(VsmError::HekiPagesCopyFailed);
                }
                let mut ranges = page.ranges;
                self.next_pa = page.next_pa;
                self.ranges.append(&mut ranges);
                Ok(())
            },
            None => Err(VsmError::HekiPagesCopyFailed),
        }
    }

    /// The ranges that the walk found.
    pub fn into_ranges(self) -> (r: Vec<HekiRange>)
        ensures
            r@ == self.found(),
    {
        self.ranges
    }
}

/// Access to grant on a memory range.
#[derive(Clone, Copy, PartialEq, Eq, Structural, Debug)]
pub enum Access {
    /// The access rights given here.
    Attr(MemAttr),
    /// The access rights that suit this kind of module memory.
    ForModuleMemory(ModMemType),
}

/// A request to the hypervisor to change what VTL0 can do with physical pages.
#[derive(Clone, Copy, PartialEq, Eq, Structural, Debug)]
pub struct Protection {
    /// Start of the first page.
    pub pa: u64,
    /// Number of pages, at least one.
    pub num_pages: u64,
    /// Access that VTL0 keeps.
    pub access: Access,
}

/// The requests that grant `access` on `range`: one, or none if the range has no frame.
pub open spec fn protect_spec(range: PhysFrameRange, access: Access) -> Seq<Protection> {
    if range.spec_count() > 0 {
        seq![Protection { pa: range.start, num_pages: range.spec_count() as u64, access }]
    } else {
        Seq::empty()
    }
}

/// The requests that grant each range its access, in order.
pub open spec fn protect_all_spec(ranges: Seq<(PhysFrameRange, Access)>) -> Seq<Protection>
    decreases ranges.len(),
{
    if ranges.len() == 0 {
        Seq::empty()
    } else {
        protect_all_spec(ranges.drop_last()) + protect_spec(ranges.last().0, ranges.last().1)
    }
}

/// Adds the request that grants `access` on `range`, if the range has a frame.
pub fn protect_physical_memory_range(
    range: PhysFrameRange,
    access: Access,
    requests: &mut Vec<Protection>,
)
    ensures
        final(requests)@ == old(requests)@ + protect_spec(range, access),
{
    let num_pages: u64 = range.count();
    if num_pages > 0 {
        requests.push(Protection { pa: range.start, num_pages, access });
    }
}

/// One more range adds its request behind the others.
pub proof fn lemma_protect_all_push(ranges: Seq<(PhysFrameRange, Access)>, range: PhysFrameRange, access: Access)
    ensures
        protect_all_spec(ranges.push((range, access))) == protect_all_spec(ranges) + protect_spec(
            range,
            access,
        ),
{
    assert(ranges.push((range, access)).drop_last() =~= ranges);
}

/// Requests to the hypervisor that are made one after the other, until one fails.
pub struct ProtectRun {
    requests: Vec<Protection>,
    next: usize,
}

impl ProtectRun {
    /// All requests, in order.
    pub closed spec fn all(self) -> Seq<Protection> {
        self.requests@
    }

    /// How many requests have succeeded.
    pub closed spec fn made(self) -> int {
        self.next as int
    }

    /// No more requests have succeeded than there are.
    pub open spec fn well_formed(self) -> bool {
        0 <= self.made() <= self.all().len()
    }

    /// There is a request to make.
    pub open spec fn in_progress(self) -> bool {
        0 <= self.made() < self.all().len()
    }

    /// The requests that have succeeded.
    pub open spec fn granted(self) -> Seq<Protection> {
        self.all().take(self.made())
    }

    /// No request has been made yet.
    pub fn new(requests: Vec<Protection>) -> (r: ProtectRun)
        ensures
            r.well_formed(),
            r.all() == requests@,
            r.made() == 0,
            r.granted() == Seq::<Protection>::empty(),
    {
        let r = ProtectRun { requests, next: 0 };
        assert(r.granted() =~= Seq::<Protection>::empty());
        r
    }

    /// Whether all requests have succeeded.
    pub fn is_done(&self) -> (r: bool)
        requires
            self.well_formed(),
        ensures
            r == !self.in_progress(),
    {
        self.next >= self.requests.len()
    }

    /// The request to make next.
    pub fn current(&self) -> (r: Protection)
        requires
            self.in_progress(),
        ensures
            r == self.all()[self.made()],
    {
        self.requests[self.next]
    }

    /// Records that the request that [`current`](Self::current) named has succeeded.
    pub fn succeeded(&mut self)
        requires
            old(self).in_progress(),
        ensures
            final(self).well_formed(),
            final(self).all() == old(self).all(),
            final(self).made() == old(self).made() + 1,
            final(self).granted() == old(self).granted().push(old(self).all()[old(self).made()]),
    {
        assert(self.next < self.requests.len());
        self.next = self.next + 1;
        assert(self.granted() =~= old(self).granted().push(old(self).all()[old(self).made()]));
    }
}

/// Every request names at least one whole page and stands for one of the ranges.
pub proof fn law_requests_name_given_ranges(ranges: Seq<(PhysFrameRange, Access)>)
    ensures
        forall|i: int|
            0 <= i < protect_all_spec(ranges).len() ==> {
                let p = #[trigger] protect_all_spec(ranges)[i];
                &&& p.num_pages > 0
                &&& exists|k: int|
                    #![trigger ranges[k]]
                    0 <= k < ranges.len() && p.pa == ranges[k].0.start && p.num_pages
                        == ranges[k].0.spec_count() && p.access == ranges[k].1
            },
    decreases ranges.len(),
{
    if ranges.len() > 0 {
        let rest = ranges.drop_last();
        law_requests_name_given_ranges(rest);
        assert forall|i: int| 0 <= i < protect_all_spec(ranges).len() implies {
            let p = #[trigger] protect_all_spec(ranges)[i];
            &&& p.num_pages > 0
            &&& exists|k: int|
                #![trigger ranges[k]]
                0 <= k < ranges.len() && p.pa == ranges[k].0.start && p.num_pages
                    == ranges[k].0.spec_count() && p.access == ranges[k].1
        } by {
            let p = protect_all_spec(ranges)[i];
            if i < protect_all_spec(rest).len() {
                assert(p == protect_all_spec(rest)[i]);
                let k = choose|k: int|
                    #![trigger rest[k]]
                    0 <= k < rest.len() && p.pa == rest[k].0.start && p.num_pages
                        == rest[k].0.spec_count() && p.access == rest[k].1;
                assert(ranges[k] == rest[k]);
            } else {
                assert(p == protect_spec(ranges.last().0, ranges.last().1)[0]);
                assert(ranges[ranges.len() - 1] == ranges.last());
            }
        }
    }
}

} // verus!
