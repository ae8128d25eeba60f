//! Contents of VTL0 memory, copied page by page into VTL1.
use vstd::prelude::*;

use crate::addr::{is_canonical, is_phys, page_align_down, page_down, VirtAddr, check_canonical, PAGE_BYTES, PAGE_SIZE, PHYS_LIMIT};
use crate::bytes::append_range;
use crate::lvbs::error::VsmError;
use crate::lvbs::heki::{HekiRange, ModMemType};

verus! {

/// A range of VTL0 memory whose contents a container holds.
#[derive(Clone, Copy, PartialEq, Eq, Structural, Debug)]
pub struct MemoryRange {
    /// Virtual address of the first byte.
    pub addr: u64,
    /// Physical address of the first byte.
    pub phys_addr: u64,
    /// Number of bytes.
    pub len: u64,
}

impl MemoryRange {
    /// Both address ranges exist.
    pub open spec fn well_formed(self) -> bool {
        &&& is_canonical(self.addr as int)
        &&& is_canonical(self.addr + self.len)
        &&& is_phys(self.phys_addr + self.len)
    }

    /// The number of pages that the physical range touches.
    pub open spec fn page_count(self) -> int {
        pages_touched(self.phys_addr as int, self.phys_addr + self.len)
    }
}

/// Why a range cannot be added to a container, if it cannot: its addresses do not exist.
pub open spec fn extend_error(range: HekiRange) -> Option<VsmError> {
    if !is_canonical(range.va as int) {
        Some(VsmError::InvalidVirtualAddress)
    } else if !is_phys(range.pa as int) {
        Some(VsmError::InvalidPhysicalAddress)
    } else {
        None
    }
}

/// The memory of a module of this kind is kept.
pub open spec fn is_kept(kind: ModMemType) -> bool {
    kind == ModMemType::Text || kind == ModMemType::InitText || kind == ModMemType::InitRoData
}

/// The range that `range` describes.
pub open spec fn memory_range_of(range: HekiRange) -> MemoryRange {
    MemoryRange { addr: range.va, phys_addr: range.pa, len: (range.epa - range.pa) as u64 }
}

/// The number of pages that the bytes from `start` up to `end` touch.
pub open spec fn pages_touched(start: int, end: int) -> int {
    if start < end {
        (end - 1) / 4096 - start / 4096 + 1
    } else {
        0
    }
}

/// The start addresses of the pages that the bytes from `start` up to `end` touch.
pub open spec fn touched_pages(start: int, end: int) -> Seq<u64> {
    Seq::new(pages_touched(start, end) as nat, |k: int| (page_down(start) + 4096 * k) as u64)
}

/// The bytes from `start` up to `end`, given the pages that they touch in order.
pub open spec fn bytes_in_pages(start: int, end: int, pages: Seq<Vec<u8>>) -> Seq<u8> {
    Seq::new(
        (end - start) as nat,
        |j: int| pages[(start + j) / 4096 - start / 4096]@[(start + j) % 4096],
    )
}

/// The number of pages that all ranges touch, counted for each range on its own.
pub open spec fn total_pages(ranges: Seq<MemoryRange>) -> int
    decreases ranges.len(),
{
    if ranges.len() == 0 {
        0
    } else {
        total_pages(ranges.drop_last()) + ranges.last().page_count()
    }
}

/// The pages of all ranges, range after range.
pub open spec fn all_pages(ranges: Seq<MemoryRange>) -> Seq<u64>
    decreases ranges.len(),
{
    if ranges.len() == 0 {
        Seq::empty()
    } else {
        all_pages(ranges.drop_last()) + touched_pages(
            ranges.last().phys_addr as int,
            ranges.last().phys_addr + ranges.last().len,
        )
    }
}

/// The bytes of all ranges, range after range, given the pages of all ranges.
pub open spec fn all_bytes(ranges: Seq<MemoryRange>, pages: Seq<Vec<u8>>) -> Seq<u8>
    decreases ranges.len(),
{
    if ranges.len() == 0 {
        Seq::empty()
    } else {
        all_bytes(ranges.drop_last(), pages) + bytes_in_pages(
            ranges.last().phys_addr as int,
            ranges.last().phys_addr + ranges.last().len,
            pages.skip(total_pages(ranges.drop_last())),
        )
    }
}

/// How many of the bytes from `start` up to `end` stand in the first `count` pages that they touch.
pub open spec fn bytes_covered(start: int, end: int, count: int) -> int {
    if count >= pages_touched(start, end) {
        end - start
    } else if count <= 0 {
        0
    } else {
        page_down(start) + 4096 * count - start
    }
}

/// The bytes of all ranges up to the first that stands in a page that is missing: `pages` are the
/// first pages of the ranges.
pub open spec fn copied_bytes(ranges: Seq<MemoryRange>, pages: Seq<Vec<u8>>) -> Seq<u8>
    decreases ranges.len(),
{
    if ranges.len() == 0 {
        Seq::empty()
    } else {
        let start = ranges.last().phys_addr as int;
        let end = start + ranges.last().len;
        let before = total_pages(ranges.drop_last());
        copied_bytes(ranges.drop_last(), pages) + bytes_in_pages(
            start,
            end,
            pages.skip(before),
        ).take(bytes_covered(start, end, pages.len() - before))
    }
}

/// If no page is missing, all bytes are copied.
pub proof fn law_all_bytes_are_copied(ranges: Seq<MemoryRange>, pages: Seq<Vec<u8>>)
    requires
        pages.len() >= total_pages(ranges),
    ensures
        copied_bytes(ranges, pages) == all_bytes(ranges, pages),
    decreases ranges.len(),
{
    if ranges.len() > 0 {
        let start = ranges.last().phys_addr as int;
        let end = start + ranges.last().len;
        let before = total_pages(ranges.drop_last());
        lemma_total_pages(ranges.drop_last());
        law_all_bytes_are_copied(ranges.drop_last(), pages);
        assert(bytes_in_pages(start, end, pages.skip(before)).take(end - start) =~= bytes_in_pages(
            start,
            end,
            pages.skip(before),
        ));
    }
}

/// Every page holds a whole page of bytes.
pub open spec fn whole_pages(pages: Seq<Vec<u8>>) -> bool {
    forall|k: int| 0 <= k < pages.len() ==> (#[trigger] pages[k])@.len() == PAGE_SIZE
}

/// The pages of all ranges are as many as the ranges touch.
pub proof fn lemma_total_pages(ranges: Seq<MemoryRange>)
    ensures
        all_pages(ranges).len() == total_pages(ranges),
        total_pages(ranges) >= 0,
    decreases ranges.len(),
{
    if ranges.len() > 0 {
        lemma_total_pages(ranges.drop_last());
    }
}

/// More ranges touch no fewer pages.
proof fn lemma_total_pages_monotonic(ranges: Seq<MemoryRange>, n: int)
    requires
        0 <= n <= ranges.len(),
    ensures
        0 <= total_pages(ranges.take(n)) <= total_pages(ranges),
    decreases ranges.len() - n,
{
    lemma_total_pages(ranges.take(n));
    if n < ranges.len() {
        lemma_total_pages_monotonic(ranges, n + 1);
        assert(ranges.take(n + 1).drop_last() =~= ranges.take(n));
    } else {
        assert(ranges.take(n) =~= ranges);
    }
}

/// Errors of container operations.
#[derive(Clone, Copy, PartialEq, Eq, Structural, Debug)]
pub enum MemoryContainerError {
    CopyFromVtl0Failed,
}

/// Contents of VTL0 memory ranges.
pub struct MemoryContainer {
    range: Vec<MemoryRange>,
    buf: Vec<u8>,
}

impl Default for MemoryContainer {
    fn default() -> (r: Self)
        ensures
            r.ranges() == Seq::<MemoryRange>::empty(),
            r@ == Seq::<u8>::empty(),
            r.well_formed(),
    {
        MemoryContainer { range: Vec::new(), buf: Vec::new() }
    }
}

impl View for MemoryContainer {
    type V = Seq<u8>;

    /// The bytes that the container holds.
    closed spec fn view(&self) -> Seq<u8> {
        self.buf@
    }
}

impl MemoryContainer {
    /// The ranges that the container describes.
    pub closed spec fn ranges(self) -> Seq<MemoryRange> {
        self.range@
    }

    /// Every range exists in both address spaces.
    pub open spec fn well_formed(self) -> bool {
        forall|i: int| 0 <= i < self.ranges().len() ==> (#[trigger] self.ranges()[i]).well_formed()
    }

    /// A container without ranges and bytes.
    pub fn new() -> (r: MemoryContainer)
        ensures
            r.ranges() == Seq::<MemoryRange>::empty(),
            r@ == Seq::<u8>::empty(),
            r.well_formed(),
    {
        MemoryContainer { range: Vec::new(), buf: Vec::new() }
    }

    /// Number of bytes in the container.
    pub fn len(&self) -> (r: usize)
        ensures
            r == self@.len(),
    {
        self.buf.len()
    }

    /// Whether the container holds no byte.
    pub fn is_empty(&self) -> (r: bool)
        ensures
            r == (self@.len() == 0),
    {
        self.len() == 0
    }

    /// The bytes in the container.
    pub fn as_slice(&self) -> (r: &[u8])
        ensures
            r@ == self@,
    {
        self.buf.as_slice()
    }

    /// The virtual addresses from the start of the first range up to the end of the last.
    pub fn get_range(&self) -> (r: Option<(VirtAddr, VirtAddr)>)
        requires
            self.well_formed(),
        ensures
            match r {
                Some((start, end)) => {
                    &&& self.ranges().len() > 0
                    &&& start@ == self.ranges().first().addr
                    &&& end@ == self.ranges().last().addr + self.ranges().last().len
                },
                None => self.ranges().len() == 0,
            },
    {
        if self.range.len() == 0 {
            return None;
        }
        let first = self.range[0];
        let last = self.range[self.range.len() - 1];
        assert(self.ranges()[0].well_formed());
        assert(self.ranges()[self.ranges().len() - 1].well_formed());
        Some((VirtAddr::new(first.addr), VirtAddr::new(last.addr + last.len)))
    }

    /// Adds a range whose contents the container shall hold. Ranges need not be contiguous.
    pub fn extend_range(&mut self, heki_range: &HekiRange) -> (r: Result<(), VsmError>)
        requires
            old(self).well_formed(),
            extend_error(*heki_range) is None ==> heki_range.well_formed(),
        ensures
            final(self).well_formed(),
            final(self)@ == old(self)@,
            match extend_error(*heki_range) {
                Some(e) => r == Err::<(), _>(e) && *final(self) == *old(self),
                None => r is Ok && final(self).ranges() == old(self).ranges().push(
                    memory_range_of(*heki_range),
                ),
            },
    {
        if !check_canonical(heki_range.va) {
            return Err(VsmError::InvalidVirtualAddress);
        }
        if heki_range.pa >= PHYS_LIMIT {
            return Err(VsmError::InvalidPhysicalAddress);
        }
        self.range.push(
            MemoryRange {
                addr: heki_range.va,
                phys_addr: heki_range.pa,
                len: heki_range.epa - heki_range.pa,
            },
        );
        assert forall|i: int| 0 <= i < self.ranges().len() implies (
        #[trigger] self.ranges()[i]).well_formed() by {
            if i < old(self).ranges().len() {
                assert(self.ranges()[i] == old(self).ranges()[i]);
            }
        }
        Ok(())
    }

    /// The start addresses of the VTL0 pages that hold the contents of the ranges, in the order in
    /// which their contents are written.
    pub fn page_addrs(&self) -> (r: Vec<u64>)
        requires
            self.well_formed(),
        ensures
            r@ == all_pages(self.ranges()),
            forall|i: int| 0 <= i < r@.len() ==> is_phys(#[trigger] r@[i] as int),
    {
        let mut addrs: Vec<u64> = Vec::new();
        let mut i: usize = 0;
        assert(self.ranges().take(0) =~= Seq::<MemoryRange>::empty());
        while i < self.range.len()
            invariant
                i <= self.range@.len(),
                self.well_formed(),
                addrs@ == all_pages(self.ranges().take(i as int)),
                forall|k: int| 0 <= k < addrs@.len() ==> is_phys(#[trigger] addrs@[k] as int),
            decreases self.range@.len() - i,
        {
            let range = self.range[i];
            assert(self.ranges()[i as int].well_formed());
            let end: u64 = range.phys_addr + range.len;
            let mut page: u64 = page_align_down(range.phys_addr);
            let ghost before = addrs@;
            let ghost k: int = 0;
            while page < end && range.phys_addr < end
                invariant
                    end == range.phys_addr + range.len,
                    is_phys(end as int),
                    0 <= k <= pages_touched(range.phys_addr as int, end as int),
                    page == page_down(range.phys_addr as int) + 4096 * k,
                    addrs@ == before + touched_pages(range.phys_addr as int, end as int).take(k),
                    forall|k: int| 0 <= k < addrs@.len() ==> is_phys(#[trigger] addrs@[k] as int),
                decreases end + 4096 - page,
            {
                addrs.push(page);
                proof {
                    assert(k < pages_touched(range.phys_addr as int, end as int));
                    assert(addrs@ =~= before + touched_pages(
                        range.phys_addr as int,
                        end as int,
                    ).take(k + 1));
                    k = k + 1;
                }
                page = page + PAGE_BYTES;
            }
            proof {
                assert(k == pages_touched(range.phys_addr as int, end as int));
                assert(touched_pages(range.phys_addr as int, end as int).take(k) =~= touched_pages(
                    range.phys_addr as int,
                    end as int,
                ));
                assert(self.ranges().take(i + 1).drop_last() =~= self.ranges().take(i as int));
            }
            i = i + 1;
        }
        assert(self.ranges().take(i as int) =~= self.ranges());
        addrs
    }

    /// Appends the contents of the ranges. `pages` are the copies of the pages that
    /// [`page_addrs`](Self::page_addrs) lists, up to the first whose copy failed. If one failed,
    /// the bytes that stand before it are appended all the same.
    pub fn write_bytes_from_heki_range(&mut self, pages: &Vec<Vec<u8>>) -> (r: Result<
        (),
        MemoryContainerError,
    >)
        requires
            old(self).well_formed(),
            whole_pages(pages@),
        ensures
            final(self).well_formed(),
            final(self).ranges() == old(self).ranges(),
            final(self)@ == old(self)@ + copied_bytes(old(self).ranges(), pages@),
            r == (if pages@.len() < total_pages(old(self).ranges()) {
                Err::<(), _>(MemoryContainerError::CopyFromVtl0Failed)
            } else {
                Ok(())
            }),
    {
        let ghost ranges = self.ranges();
        let mut first: usize = 0;
        let mut i: usize = 0;
        assert(ranges.take(0) =~= Seq::<MemoryRange>::empty());
        while i < self.range.len()
            invariant
                i <= self.range@.len(),
                self.range@ == ranges,
                whole_pages(pages@),
                first == total_pages(ranges.take(i as int)),
                first <= pages@.len(),
                self@ == old(self)@ + copied_bytes(ranges.take(i as int), pages@),
                ranges == old(self).ranges(),
                old(self).well_formed(),
            decreases self.range@.len() - i,
        {
            let range = self.range[i];
            assert(old(self).ranges()[i as int].well_formed());
            proof {
                lemma_total_pages_monotonic(ranges, i + 1);
                assert(ranges.take(i + 1).drop_last() =~= ranges.take(i as int));
            }
            let used = self.write_vtl0_phys_bytes(
                range.phys_addr,
                range.phys_addr + range.len,
                pages,
                first,
            );
            assert(self@ =~= old(self)@ + copied_bytes(ranges.take(i + 1), pages@));
            match used {
                Ok(used) => {
                    assert(first + used <= pages.len());
                    first = first + used;
                },
                Err(e) => {
                    proof {
                        lemma_nothing_behind_missing_page(ranges, pages@, i + 1);
                    }
                    return Err(e);
                },
            }
            i = i + 1;
        }
        assert(ranges.take(i as int) =~= ranges);
        Ok(())
    }

    /// Appends the bytes from `phys_start` up to `phys_end`, which stand in `pages` from the one at
    /// index `first` on, as far as there are pages. Returns the number of pages used.
    fn write_vtl0_phys_bytes(
        &mut self,
        phys_start: u64,
        phys_end: u64,
        pages: &Vec<Vec<u8>>,
        first: usize,
    ) -> (r: Result<usize, MemoryContainerError>)
        requires
            phys_start <= phys_end,
            is_phys(phys_end as int),
            whole_pages(pages@),
            first <= pages@.len(),
        ensures
            final(self).ranges() == old(self).ranges(),
            final(self)@ == old(self)@ + bytes_in_pages(
                phys_start as int,
                phys_end as int,
                pages@.skip(first as int),
            ).take(bytes_covered(phys_start as int, phys_end as int, pages@.len() - first)),
            match r {
                Ok(used) => used == pages_touched(phys_start as int, phys_end as int) && first
                    + used <= pages@.len(),
                Err(e) => e == MemoryContainerError::CopyFromVtl0Failed && pages@.len() - first
                    < pages_touched(phys_start as int, phys_end as int),
            },
    {
        let ghost all = bytes_in_pages(
            phys_start as int,
            phys_end as int,
            pages@.skip(first as int),
        );
        let mut phys_cur: u64 = phys_start;
        let mut used: usize = 0;
        assert(all.take(0) =~= Seq::<u8>::empty());
        while phys_cur < phys_end
            invariant
                phys_start <= phys_cur <= phys_end,
                is_phys(phys_end as int),
                whole_pages(pages@),
                first + used <= pages@.len(),
                all == bytes_in_pages(phys_start as int, phys_end as int, pages@.skip(first as int)),
                self.range@ == old(self).range@,
                self.buf@ == old(self).buf@ + all.take(phys_cur - phys_start),
                phys_cur < phys_end ==> used == phys_cur / 4096 - phys_start / 4096,
                phys_cur < phys_end ==> phys_cur == phys_start || phys_cur % 4096 == 0,
                phys_cur == phys_end ==> used == pages_touched(phys_start as int, phys_end as int),
            decreases phys_end - phys_cur,
        {
            assert(phys_cur / 4096 <= (phys_end - 1) / 4096);
            if used == pages.len() - first {
                assert(phys_cur - phys_start == bytes_covered(
                    phys_start as int,
                    phys_end as int,
                    used as int,
                ));
                return Err(MemoryContainerError::CopyFromVtl0Failed);
            }
            let src_offset: u64 = phys_cur % PAGE_BYTES;
            let left: u64 = phys_end - phys_cur;
            let src_len: u64 = if left < PAGE_BYTES - src_offset {
                left
            } else {
                PAGE_BYTES - src_offset
            };
            let page = &pages[first + used];
            assert(page@.len() == PAGE_SIZE);
            append_range(
                &mut self.buf,
                page.as_slice(),
                src_offset as usize,
                (src_offset + src_len) as usize,
            );
            proof {
                let done = phys_cur - phys_start;
                assert forall|j: int| done <= j < done + src_len implies all[j] == page@[src_offset
                    + (j - done)] by {
                    assert((phys_start + j) / 4096 == phys_cur / 4096);
                    assert(pages@.skip(first as int)[used as int] == page);
                }
                assert(self.buf@ =~= old(self).buf@ + all.take(done + src_len));
            }
            phys_cur = phys_cur + src_len;
            used = used + 1;
        }
        Ok(used)
    }
}

/// Behind a page that is missing, nothing is copied.
proof fn lemma_nothing_behind_missing_page(
    ranges: Seq<MemoryRange>,
    pages: Seq<Vec<u8>>,
    n: int,
)
    requires
        0 <= n <= ranges.len(),
        pages.len() < total_pages(ranges.take(n)),
    ensures
        copied_bytes(ranges, pages) == copied_bytes(ranges.take(n), pages),
        pages.len() < total_pages(ranges),
    decreases ranges.len(),
{
    if n < ranges.len() {
        let rest = ranges.drop_last();
        assert(rest.take(n) =~= ranges.take(n));
        lemma_nothing_behind_missing_page(rest, pages, n);
        let start = ranges.last().phys_addr as int;
        let end = start + ranges.last().len;
        assert(copied_bytes(ranges, pages) =~= copied_bytes(rest, pages));
    } else {
        assert(ranges.take(n) =~= ranges);
    }
}

/// Contents of the sections of a kernel module that are needed to validate it.
pub struct ModuleMemory {
    text: MemoryContainer,
    init_text: MemoryContainer,
    init_rodata: MemoryContainer,
}

impl Default for ModuleMemory {
    fn default() -> (r: Self)
        ensures
            r.is_new(),
    {
        ModuleMemory {
            text: MemoryContainer::new(),
            init_text: MemoryContainer::new(),
            init_rodata: MemoryContainer::new(),
        }
    }
}

impl ModuleMemory {
    /// The container of the text section.
    pub closed spec fn text_container(self) -> MemoryContainer {
        self.text
    }

    /// The container of the initialization text section.
    pub closed spec fn init_text_container(self) -> MemoryContainer {
        self.init_text
    }

    /// The container of the read-only initialization data section.
    pub closed spec fn init_rodata_container(self) -> MemoryContainer {
        self.init_rodata
    }

    /// All sections are well formed.
    pub open spec fn well_formed(self) -> bool {
        &&& self.text_container().well_formed()
        &&& self.init_text_container().well_formed()
        &&& self.init_rodata_container().well_formed()
    }

    /// No section has a range or a byte.
    pub open spec fn is_new(self) -> bool {
        &&& self.well_formed()
        &&& self.text_container().ranges().len() == 0 && self.text_container()@.len() == 0
        &&& self.init_text_container().ranges().len() == 0 && self.init_text_container()@.len() == 0
        &&& self.init_rodata_container().ranges().len() == 0 && self.init_rodata_container()@.len()
            == 0
    }

    /// A module without sections.
    pub fn new() -> (r: ModuleMemory)
        ensures
            r.is_new(),
    {
        ModuleMemory {
            text: MemoryContainer::new(),
            init_text: MemoryContainer::new(),
            init_rodata: MemoryContainer::new(),
        }
    }

    /// The section with the given name, if the module keeps it.
    pub fn find_section_by_name(&self, name: &str) -> (r: Option<&MemoryContainer>)
        ensures
            r == (if name@ == ".text"@ {
                Some(&self.text_container())
            } else if name@ == ".init.text"@ {
                Some(&self.init_text_container())
            } else if name@ == ".init.rodata"@ {
                Some(&self.init_rodata_container())
            } else {
                None
            }),
    {
        if str_eq(name, ".text") {
            Some(&self.text)
        } else if str_eq(name, ".init.text") {
            Some(&self.init_text)
        } else if str_eq(name, ".init.rodata") {
            Some(&self.init_rodata)
        } else {
            None
        }
    }

    /// Adds a range to the section that keeps memory of kind `mod_mem_type`. Memory of other kinds is not
    /// kept.
    pub fn extend_range(&mut self, mod_mem_type: ModMemType, heki_range: &HekiRange) -> (r: Result<
        (),
        VsmError,
    >)
        requires
            old(self).well_formed(),
            is_kept(mod_mem_type) && extend_error(*heki_range) is None ==> heki_range.well_formed(),
        ensures
            final(self).well_formed(),
            match extend_error(*heki_range) {
                Some(e) if is_kept(mod_mem_type) => r == Err::<(), VsmError>(e) && *final(self) == *old(
                    self,
                ),
                _ => {
                    &&& r is Ok
                    &&& section_extended(
                        old(self).text_container(),
                        final(self).text_container(),
                        *heki_range,
                        mod_mem_type == ModMemType::Text,
                    )
                    &&& section_extended(
                        old(self).init_text_container(),
                        final(self).init_text_container(),
                        *heki_range,
                        mod_mem_type == ModMemType::InitText,
                    )
                    &&& section_extended(
                        old(self).init_rodata_container(),
                        final(self).init_rodata_container(),
                        *heki_range,
                        mod_mem_type == ModMemType::InitRoData,
                    )
                },
            },
    {
        match mod_mem_type {
            ModMemType::Text => self.text.extend_range(heki_range),
            ModMemType::InitText => self.init_text.extend_range(heki_range),
            ModMemType::InitRoData => self.init_rodata.extend_range(heki_range),
            _ => Ok(()),
        }
    }

    /// The start addresses of the VTL0 pages of the text, initialization text and read-only
    /// initialization data sections.
    pub fn page_addrs(&self) -> (r: (Vec<u64>, Vec<u64>, Vec<u64>))
        requires
            self.well_formed(),
        ensures
            r.0@ == all_pages(self.text_container().ranges()),
            r.1@ == all_pages(self.init_text_container().ranges()),
            r.2@ == all_pages(self.init_rodata_container().ranges()),
    {
        (self.text.page_addrs(), self.init_text.page_addrs(), self.init_rodata.page_addrs())
    }

    /// Appends the contents of the ranges of every section, section after section; the pages are
    /// those that [`page_addrs`](Self::page_addrs) lists. Stops at the first section of which a
    /// page is missing.
    pub fn write_bytes_from_heki_range(
        &mut self,
        text_pages: &Vec<Vec<u8>>,
        init_text_pages: &Vec<Vec<u8>>,
        init_rodata_pages: &Vec<Vec<u8>>,
    ) -> (r: Result<(), MemoryContainerError>)
        requires
            old(self).well_formed(),
            whole_pages(text_pages@),
            whole_pages(init_text_pages@),
            whole_pages(init_rodata_pages@),
        ensures
            final(self).well_formed(),
            ({
                let text_ok = text_pages@.len() >= total_pages(old(self).text_container().ranges());
                let init_text_ok = init_text_pages@.len() >= total_pages(
                    old(self).init_text_container().ranges(),
                );
                let init_rodata_ok = init_rodata_pages@.len() >= total_pages(
                    old(self).init_rodata_container().ranges(),
                );
                &&& r == (if text_ok && init_text_ok && init_rodata_ok {
                    Ok::<(), _>(())
                } else {
                    Err(MemoryContainerError::CopyFromVtl0Failed)
                })
                &&& section_filled(
                    old(self).text_container(),
                    final(self).text_container(),
                    text_pages@,
                    true,
                )
                &&& section_filled(
                    old(self).init_text_container(),
                    final(self).init_text_container(),
                    init_text_pages@,
                    text_ok,
                )
                &&& section_filled(
                    old(self).init_rodata_container(),
                    final(self).init_rodata_container(),
                    init_rodata_pages@,
                    text_ok && init_text_ok,
                )
            }),
    {
        match self.text.write_bytes_from_heki_range(text_pages) {
            Ok(()) => {},
            Err(e) => return Err(e),
        }
        match self.init_text.write_bytes_from_heki_range(init_text_pages) {
            Ok(()) => {},
            Err(e) => return Err(e),
        }
        self.init_rodata.write_bytes_from_heki_range(init_rodata_pages)
    }
}

/// What adding `range` makes of a section: one more range if the section keeps it, else nothing.
pub open spec fn section_extended(
    before: MemoryContainer,
    after: MemoryContainer,
    range: HekiRange,
    kept: bool,
) -> bool {
    &&& after@ == before@
    &&& after.ranges() == if kept {
        before.ranges().push(memory_range_of(range))
    } else {
        before.ranges()
    }
}

/// What writing the contents of its ranges makes of a section, if its turn comes.
pub open spec fn section_filled(
    before: MemoryContainer,
    after: MemoryContainer,
    pages: Seq<Vec<u8>>,
    reached: bool,
) -> bool {
    &&& after.ranges() == before.ranges()
    &&& after@ == if reached {
        before@ + copied_bytes(before.ranges(), pages)
    } else {
        before@
    }
}

/// What writing the contents of its ranges makes of a container, if no page is missing.
pub open spec fn filled(before: MemoryContainer, after: MemoryContainer, pages: Seq<Vec<u8>>) -> bool {
    &&& after.well_formed()
    &&& after.ranges() == before.ranges()
    &&& after@ == before@ + all_bytes(before.ranges(), pages)
}

/// Fills a container. Fails if a page is missing.
pub fn fill_container(container: &mut MemoryContainer, pages: &Vec<Vec<u8>>) -> (r: Result<
    (),
    VsmError,
>)
    requires
        old(container).well_formed(),
        whole_pages(pages@),
    ensures
        if pages@.len() < total_pages(old(container).ranges()) {
            r == Err::<(), _>(VsmError::Vtl0CopyFailed)
        } else {
            r is Ok && filled(*old(container), *final(container), pages@)
        },
        final(container).well_formed(),
{
    proof {
        if pages@.len() >= total_pages(old(container).ranges()) {
            law_all_bytes_are_copied(old(container).ranges(), pages@);
        }
    }
    match container.write_bytes_from_heki_range(pages) {
        Ok(()) => Ok(()),
        Err(MemoryContainerError::CopyFromVtl0Failed) => Err(VsmError::Vtl0CopyFailed),
    }
}

/// Whether two strings are equal, character by character.
fn str_eq(a: &str, b: &str) -> (r: bool)
    ensures
        r == (a@ == b@),
{
    a.to_owned() == b.to_owned()
}

/// The bytes of a range are what stands at its addresses: the byte at `phys_addr + j` is the byte
/// at that address' offset in its page.
pub proof fn law_bytes_stand_at_their_addresses(ranges: Seq<MemoryRange>, pages: Seq<Vec<u8>>, j: int)
    requires
        ranges.len() > 0,
        0 <= j < ranges.last().len,
    ensures
        all_bytes(ranges, pages)[all_bytes(ranges.drop_last(), pages).len() + j] == pages.skip(
            total_pages(ranges.drop_last()),
        )[(ranges.last().phys_addr + j) / 4096 - ranges.last().phys_addr as int / 4096]@[(
        ranges.last().phys_addr + j) % 4096],
        all_pages(ranges).skip(total_pages(ranges.drop_last()))[(ranges.last().phys_addr + j) / 4096
            - ranges.last().phys_addr as int / 4096] == page_down(ranges.last().phys_addr + j) as u64,
{
    lemma_total_pages(ranges.drop_last());
    let last = ranges.last();
    let k = (last.phys_addr + j) / 4096 - last.phys_addr as int / 4096;
    assert(0 <= k < pages_touched(last.phys_addr as int, last.phys_addr + last.len));
    assert(all_pages(ranges).skip(total_pages(ranges.drop_last())) =~= touched_pages(
        last.phys_addr as int,
        last.phys_addr + last.len,
    ));
}

} // verus!
