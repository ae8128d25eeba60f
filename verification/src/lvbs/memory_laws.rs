//! Which frames appear at which pages, with which permissions, and what becomes of faults.
use vstd::prelude::*;

use crate::addr::{
    is_canonical, is_phys, page_aligned, page_down, page_up, sign_extend_48, PhysFrameRange,
};
use crate::bytes::first_nul;
use crate::lvbs::container::{
    bytes_covered, extend_error, memory_range_of, pages_touched, touched_pages, MemoryContainer,
};
use crate::lvbs::error::VsmError;
use crate::lvbs::heki::HekiRange;
use crate::lvbs::kernel::{exception_end, ContinueOperation, ExceptionEnd};
use crate::lvbs::mapping::{
    law_scattered_mapping_is_atomic, law_window_shows_frames, lemma_with_mapped, run_map,
    run_scattered, window_usable, with_mapped, MapFrames, ScatteredModel, Window,
};
use crate::lvbs::paging::{
    fault_decision, flush_of, page_flags_spec, FaultDecision, MapFailure, PhysRange, TlbFlush,
    Translation,
};
use crate::lvbs::remap::{perform, PtModel};
use crate::lvbs::ringbuffer::{advance_offset_spec, dropped, write_start};
use crate::lvbs::symbol::{
    entries_added, parse_symbol, symbol_read, symbol_table_error, HekiKernelSymbol, SymbolLayout,
};
use crate::lvbs::vmap::{
    copy_of, guard_of, vmap_alloc_error_spec, vmap_error_spec, vmap_flags, vtl0_access,
    PhysPageMapPermissions, PhysPointerError, VmapAllocError, Vtl0Copy,
};

verus! {

/// Pages have 4096 bytes, physical addresses 52 bits, and virtual addresses 48 bits of which the
/// last is repeated in the bits above.
pub proof fn law_addresses(addr: int)
    requires
        0 <= addr <= u64::MAX,
    ensures
        is_phys(addr) <==> addr < 0x10_0000_0000_0000,
        page_aligned(addr) <==> addr % 4096 == 0,
        page_aligned(page_down(addr)) && page_down(addr) <= addr < page_down(addr) + 4096,
        page_aligned(page_up(addr)) && page_up(addr) - 4096 < addr <= page_up(addr),
        is_canonical(addr) <==> addr / 0x8000_0000_0000 == 0 || addr / 0x8000_0000_0000 == 0x1_ffff,
        is_canonical(sign_extend_48(addr)),
        sign_extend_48(addr) % 0x1_0000_0000_0000 == addr % 0x1_0000_0000_0000,
        is_canonical(addr) ==> sign_extend_48(addr) == addr,
{
}

/// A range of frames contains the addresses from its start up to its end, and counts its pages.
pub proof fn law_frame_ranges(range: PhysFrameRange, pa: int)
    requires
        range.well_formed(),
    ensures
        range.spec_contains(pa) <==> range.start <= pa < range.end,
        range.start <= range.end ==> range.start + 4096 * range.spec_count() == range.end,
        range.start > range.end ==> range.spec_count() == 0,
{
}

/// A page of an executable range can be executed and not written; every other page cannot be
/// executed. All other permissions are as they were given.
pub proof fn law_executable_pages(flags: u64, ranges: Seq<PhysRange>, frame: u64, i: int)
    ensures
        page_flags_spec(flags, None, frame) == flags,
        0 <= i < ranges.len() && ranges[i].start <= frame < ranges[i].end ==> {
            let given = page_flags_spec(flags, Some(ranges), frame);
            &&& given & 0x8000_0000_0000_0002 == 0
            &&& given & 0x7fff_ffff_ffff_fffd == flags & 0x7fff_ffff_ffff_fffd
        },
        (forall|k: int|
            0 <= k < ranges.len() ==> !((#[trigger] ranges[k]).start <= frame < ranges[k].end)) ==> {
            let given = page_flags_spec(flags, Some(ranges), frame);
            &&& given & 0x8000_0000_0000_0000 == 0x8000_0000_0000_0000
            &&& given & 0x7fff_ffff_ffff_ffff == flags & 0x7fff_ffff_ffff_ffff
        },
{
    assert(((flags & !0x8000_0000_0000_0000u64) & !0x2u64) & 0x8000_0000_0000_0002u64 == 0 && ((flags
        & !0x8000_0000_0000_0000u64) & !0x2u64) & 0x7fff_ffff_ffff_fffdu64 == flags
        & 0x7fff_ffff_ffff_fffdu64) by (bit_vector);
    assert((flags | 0x8000_0000_0000_0000u64) & 0x8000_0000_0000_0000u64 == 0x8000_0000_0000_0000u64
        && (flags | 0x8000_0000_0000_0000u64) & 0x7fff_ffff_ffff_ffffu64 == flags
        & 0x7fff_ffff_ffff_ffffu64) by (bit_vector);
}

/// A fault on a page without a frame gets it a new one, present and with the permissions of its
/// area. A fault on a page with a frame is over if the page allows by now what was tried: a write if
/// it is writable, anything else unless the fault was a violation; else it fails.
pub proof fn law_page_faults(page: u64, flags: u64, error_code: u64, translation: Translation)
    ensures
        translation is NotMapped ==> (fault_decision(page, flags, error_code, translation) matches
            FaultDecision::MapNewFrame { page: at, flags: new, table_flags } && at == page && new
            % 2 == 1 && new / 2 == flags / 2 && table_flags == 7),
        translation matches Translation::Mapped { frame: _, flags: present } ==> {
            let decision = fault_decision(page, flags, error_code, translation);
            &&& error_code / 2 % 2 == 1 && present & 2 != 0 ==> decision is Resolved
            &&& error_code / 2 % 2 == 1 && present & 2 == 0 ==> decision is Failed
            &&& error_code / 2 % 2 == 0 && error_code % 2 == 0 ==> decision is Resolved
            &&& error_code / 2 % 2 == 0 && error_code % 2 == 1 ==> decision is Failed
        },
        translation is InvalidFrameAddress ==> fault_decision(page, flags, error_code, translation)
            is Failed,
{
    assert((flags | 1) % 2 == 1 && (flags | 1) / 2 == flags / 2) by (bit_vector);
}

/// After frames are mapped in a window, each of them appears at its address plus the offset of the
/// window. A page that had no frame gets the permissions that were asked for.
pub proof fn law_frames_appear_at_their_offset(m: MapFrames, pt: PtModel, steps: nat, frame: u64)
    requires
        m.well_formed(),
        m.cur == m.range.start,
        m.phase is LookUp || m.phase is Flush,
        window_usable(m, pt),
        steps >= 2 * ((m.range.end - m.cur) / 4096) + 1,
        m.range.start <= frame < m.range.end,
        frame % 4096 == 0,
    ensures
        ({
            let offset: int = match m.window {
                Window::Kernel => 0xffff_e200_0000_0000,
                Window::Direct => 0xffff_8000_0000_0000,
            };
            let page = (frame + offset) as u64;
            let end = run_map(m, None, pt, steps);
            &&& end.0.phase is Mapped
            &&& end.1.dom().contains(page)
            &&& page == frame + offset
            &&& end.1[page].frame == frame
            &&& !pt.dom().contains(page) ==> end.1[page].flags == m.flags
            &&& pt.dom().contains(page) ==> end.1[page].flags == pt[page].flags
        }),
{
    let offset: int = match m.window {
        Window::Kernel => 0xffff_e200_0000_0000,
        Window::Direct => 0xffff_8000_0000_0000,
    };
    let page = (frame + offset) as u64;
    assert(m.range.end - 4096 >= frame);
    assert(page == frame + offset);
    law_window_shows_frames(m, None, pt, steps, page);
}

/// What `with_mapped` puts behind a page.
proof fn lemma_frame_behind_page(pt: PtModel, m: ScatteredModel, n: nat, i: int)
    requires
        m.well_formed(),
        n <= m.frames.len(),
        0 <= i < n,
    ensures
        with_mapped(pt, m, n).dom().contains((m.base + 4096 * i) as u64),
        with_mapped(pt, m, n)[(m.base + 4096 * i) as u64].frame == m.frames[i],
        with_mapped(pt, m, n)[(m.base + 4096 * i) as u64].flags == m.flags,
    decreases n,
{
    if i < n - 1 {
        lemma_frame_behind_page(pt, m, (n - 1) as nat, i);
        assert(m.base + 4096 * i != m.base + 4096 * (n - 1));
    }
}

/// Where no page is in the way, mapping does not fail.
proof fn lemma_scattered_maps(start: ScatteredModel, m: ScatteredModel, pt: PtModel, steps: nat)
    requires
        start.well_formed(),
        m.well_formed(),
        m.base == start.base,
        m.frames == start.frames,
        m.flags == start.flags,
        m.phase is MapPage || m.phase is Flush,
        forall|p: u64|
            m.base <= p < m.base + 4096 * m.frames.len() && page_aligned(p as int) ==> !(
            #[trigger] pt.dom().contains(p)),
        steps >= 2 * m.frames.len() + 3 - m.mapped,
    ensures
        run_scattered(m, with_mapped(pt, start, m.mapped as nat), steps).0.phase is Mapped,
    decreases m.frames.len() - m.mapped, steps,
{
    let cur = with_mapped(pt, start, m.mapped as nat);
    let answered = perform(cur, m.action());
    let next = m.advance(answered.1);
    lemma_with_mapped(pt, start, m.mapped as nat);
    if m.phase is Flush {
        lemma_mapped_stays(next, cur, (steps - 1) as nat);
    } else {
        let page = m.page(m.mapped);
        assert(page == m.base + 4096 * m.mapped);
        assert(!pt.dom().contains(page));
        assert(!cur.dom().contains(page));
        assert(answered.0 == with_mapped(pt, start, next.mapped as nat));
        lemma_scattered_maps(start, next, pt, (steps - 1) as nat);
    }
}

/// What is mapped stays mapped.
proof fn lemma_mapped_stays(m: ScatteredModel, pt: PtModel, steps: nat)
    requires
        m.phase is Mapped,
    ensures
        run_scattered(m, pt, steps).0.phase is Mapped,
    decreases steps,
{
    if steps > 0 {
        lemma_mapped_stays(m, pt, (steps - 1) as nat);
    }
}

/// Scattered frames appear at consecutive pages, in their order and with the permissions that were
/// asked for, unless a page of the range already has a frame. No other page changes.
pub proof fn law_scattered_frames_appear_in_order(
    m: ScatteredModel,
    pt: PtModel,
    steps: nat,
    i: int,
    page: u64,
)
    requires
        m.well_formed(),
        m.phase is MapPage,
        m.mapped == 0,
        forall|p: u64|
            m.base <= p < m.base + 4096 * m.frames.len() && page_aligned(p as int) ==> !(
            #[trigger] pt.dom().contains(p)),
        steps >= 2 * m.frames.len() + 3,
        0 <= i < m.frames.len(),
    ensures
        ({
            let end = run_scattered(m, pt, steps);
            let at = (m.base + 4096 * i) as u64;
            &&& end.0.phase is Mapped
            &&& end.1.dom().contains(at)
            &&& end.1[at].frame == m.frames[i]
            &&& end.1[at].flags == m.flags
            &&& !(m.base <= page < m.base + 4096 * m.frames.len() && page % 4096 == 0) ==> {
                &&& end.1.dom().contains(page) == pt.dom().contains(page)
                &&& pt.dom().contains(page) ==> end.1[page] == pt[page]
            }
        }),
{
    assert(with_mapped(pt, m, 0) == pt);
    lemma_scattered_maps(m, m, pt, steps);
    law_scattered_mapping_is_atomic(m, m, pt, steps);
    let n = m.frames.len();
    lemma_frame_behind_page(pt, m, n, i);
    lemma_with_mapped(pt, m, n);
    if !(m.base <= page < m.base + 4096 * n && page % 4096 == 0) && pt.dom().contains(page) {
        lemma_other_page(pt, m, n, page);
    }
}

/// `with_mapped` changes no page but those of the range.
proof fn lemma_other_page(pt: PtModel, m: ScatteredModel, n: nat, page: u64)
    requires
        m.well_formed(),
        n <= m.frames.len(),
        !(m.base <= page < m.base + 4096 * n && page % 4096 == 0),
        pt.dom().contains(page),
    ensures
        with_mapped(pt, m, n)[page] == pt[page],
    decreases n,
{
    if n > 0 {
        lemma_other_page(pt, m, (n - 1) as nat, page);
    }
}

/// Pages of VTL0 that VTL1 maps are present, cannot be executed, and are writable if asked for.
/// While VTL1 may write to them VTL0 has no access, and while VTL1 reads them VTL0 does not write.
pub proof fn law_borrowed_pages(write: bool, perms: PhysPageMapPermissions)
    ensures
        vmap_flags(write) % 2 == 1,
        vmap_flags(write) / 2 % 2 == if write {
            1int
        } else {
            0
        },
        vmap_flags(write) / 4 == 0x2000_0000_0000_0000,
        vtl0_access(perms).read <==> !perms.write,
        vtl0_access(perms).write <==> !perms.write && !perms.read,
        vtl0_access(perms).execute <==> !perms.write,
{
}

/// Memory of VTL0 is copied through a mapping of just the pages that hold it, in which it stands at
/// its offset in the first of them. Memory that does not exist, and pages of VTL1, are refused.
pub proof fn law_copies_go_through_their_pages(
    vtl1: PhysFrameRange,
    phys_addr: u64,
    size: u64,
    flags: u64,
    pa: int,
)
    requires
        phys_addr < 0x10_0000_0000_0000,
    ensures
        ({
            let first = phys_addr - phys_addr % 4096;
            let last = (phys_addr + size + 4095) / 4096 * 4096;
            let guard = guard_of(vtl1, phys_addr, size, flags);
            &&& guard is Some <==> phys_addr + size < 0x10_0000_0000_0000 && !(first < vtl1.end
                && vtl1.start < last)
            &&& guard matches Some(mapping) ==> {
                &&& mapping.range.start == first
                &&& mapping.range.end == last
                &&& mapping.offset == phys_addr % 4096
                &&& mapping.size == size
                &&& mapping.flags & 0x8000_0000_0000_0000 == 0x8000_0000_0000_0000
                &&& mapping.flags & 0x7fff_ffff_ffff_ffff == flags & 0x7fff_ffff_ffff_ffff
                &&& vtl1.start <= pa < vtl1.end ==> !(phys_addr <= pa < phys_addr + size)
            }
        }),
{
    assert((flags | 0x8000_0000_0000_0000u64) & 0x8000_0000_0000_0000u64 == 0x8000_0000_0000_0000u64
        && (flags | 0x8000_0000_0000_0000u64) & 0x7fff_ffff_ffff_ffffu64 == flags
        & 0x7fff_ffff_ffff_ffffu64) by (bit_vector);
}

/// Nothing is copied where there is nothing to copy. Otherwise the memory is mapped, present and not
/// executable, and writable only for copies to VTL0; a copy whose memory cannot be mapped is refused.
pub proof fn law_copies_map_what_they_need(
    vtl1: PhysFrameRange,
    phys_addr: u64,
    size: u64,
    to_vtl0: bool,
    flags: u64,
)
    requires
        phys_addr < 0x10_0000_0000_0000,
    ensures
        size == 0 ==> copy_of(vtl1, phys_addr, size, to_vtl0) is Nothing,
        size > 0 ==> {
            let copy = copy_of(vtl1, phys_addr, size, to_vtl0);
            &&& copy is Refused <==> guard_of(vtl1, phys_addr, size, flags) is None
            &&& copy is Through <==> guard_of(vtl1, phys_addr, size, flags) is Some
            &&& copy matches Vtl0Copy::Through(mapping) ==> {
                &&& mapping.range == guard_of(vtl1, phys_addr, size, flags)->Some_0.range
                &&& mapping.offset == phys_addr % 4096
                &&& mapping.size == size
                &&& mapping.flags == if to_vtl0 {
                    0x8000_0000_0000_0003int
                } else {
                    0x8000_0000_0000_0001
                }
            }
        },
{
    assert(1u64 | 0x8000_0000_0000_0000 == 0x8000_0000_0000_0001u64 && 3u64 | 0x8000_0000_0000_0000
        == 0x8000_0000_0000_0003u64) by (bit_vector);
}

/// Up to 33 pages are flushed one by one, more of them by flushing everything; on all processors, once
/// there are hypercalls for that.
pub proof fn law_flushes(start: u64, count: u64, hvcall_ready: bool)
    ensures
        count == 0 ==> flush_of(start, count, hvcall_ready) is Nothing,
        0 < count <= 33 && hvcall_ready ==> flush_of(start, count, hvcall_ready) == (
        TlbFlush::HypercallList { start, count }),
        0 < count <= 33 && !hvcall_ready ==> flush_of(start, count, hvcall_ready) == (
        TlbFlush::LocalPages { start, count }),
        count > 33 && hvcall_ready ==> flush_of(start, count, hvcall_ready) is HypercallSpace,
        count > 33 && !hvcall_ready ==> flush_of(start, count, hvcall_ready) is LocalAll,
{
}

/// An exception of the kernel goes on where it happened if the shim mended it, else at the address that
/// was set aside for it. One of user code goes on in user mode if the shim says so and the registers
/// are those of user code; else the thread is left.
pub proof fn law_exceptions_end(
    operation: ContinueOperation,
    kernel_mode: bool,
    rsp: u64,
    rip: u64,
    fixup: Option<u64>,
)
    ensures
        ({
            let end = exception_end(operation, kernel_mode, rsp, rip, fixup);
            let user = 0x1_0000 <= rsp < 0x7fff_ffff_f000 && 0x1_0000 <= rip < 0x7fff_ffff_f000;
            &&& kernel_mode && operation is Resume ==> end is Continue
            &&& kernel_mode && operation is Terminate && fixup is Some ==> end
                == ExceptionEnd::Fixup(fixup->Some_0)
            &&& !kernel_mode && operation is Resume && user ==> end is SwitchToUser
            &&& !kernel_mode && !(operation is Resume && user) ==> end is LeaveThread
        }),
{
}

/// A mapping that fails tells what was in its way: memory that ran out, or the first of its pages.
pub proof fn law_failed_mappings(failure: MapFailure, error: VmapAllocError, first_page: u64)
    ensures
        failure is PageAlreadyMapped ==> vmap_error_spec(failure, first_page)
            == PhysPointerError::AlreadyMapped(first_page),
        failure is FrameAllocationFailed ==> vmap_error_spec(failure, first_page)
            is FrameAllocationFailed,
        failure is ParentEntryHugePage ==> vmap_error_spec(failure, first_page)
            == PhysPointerError::InvalidPhysicalAddress(first_page),
        error is EmptyInput ==> vmap_alloc_error_spec(error, first_page)
            == PhysPointerError::InvalidPhysicalAddress(0),
        error is DuplicateMapping ==> vmap_alloc_error_spec(error, first_page)
            == PhysPointerError::AlreadyMapped(first_page),
        error is VaSpaceExhausted ==> vmap_alloc_error_spec(error, first_page) is VaSpaceExhausted,
{
}

/// Memory is kept for copying as it is described, unless an address of it is none.
pub proof fn law_described_memory_is_kept(range: HekiRange)
    requires
        range.pa <= range.epa,
    ensures
        memory_range_of(range).addr == range.va,
        memory_range_of(range).phys_addr == range.pa,
        memory_range_of(range).phys_addr + memory_range_of(range).len == range.epa,
        0x8000_0000_0000 <= range.va < 0xffff_8000_0000_0000 ==> extend_error(range) == Some(
            VsmError::InvalidVirtualAddress,
        ),
        range.va < 0x8000_0000_0000 || range.va >= 0xffff_8000_0000_0000 ==> extend_error(range) == (
        if range.pa >= 0x10_0000_0000_0000 {
            Some(VsmError::InvalidPhysicalAddress)
        } else {
            None
        }),
{
}

/// The pages that are fetched for a range are those that hold a byte of it, in ascending order.
pub proof fn law_fetched_pages(start: int, end: int, pa: int)
    requires
        0 <= start <= end < 0x10_0000_0000_0000,
    ensures
        touched_pages(start, end).len() == pages_touched(start, end),
        start <= pa < end ==> {
            let k = pa / 4096 - start / 4096;
            &&& 0 <= k < touched_pages(start, end).len()
            &&& touched_pages(start, end)[k] == pa - pa % 4096
        },
        forall|k: int|
            0 <= k < touched_pages(start, end).len() ==> (#[trigger] touched_pages(start, end)[k])
                < end && start < touched_pages(start, end)[k] + 4096,
{
}

/// Where pages of a range are missing, it is copied up to the end of the last page that is there.
pub proof fn law_copies_end_with_a_page(start: int, end: int, count: int)
    requires
        0 <= start <= end,
    ensures
        ({
            let covered = bytes_covered(start, end, count);
            &&& 0 <= covered <= end - start
            &&& count <= 0 ==> covered == 0
            &&& 0 < count < pages_touched(start, end) ==> (start + covered) % 4096 == 0 && (start
                + covered - 1) / 4096 - start / 4096 == count - 1
            &&& count >= pages_touched(start, end) ==> covered == end - start
        }),
{
}

/// A message that fills the ring leaves the next one to its beginning; any other message leaves it to
/// where it ends, round the end of the ring.
pub proof fn law_messages_follow_each_other(size: int, offset: int, len: int)
    requires
        0 <= offset < size,
        0 <= len,
    ensures
        len >= size ==> advance_offset_spec(size, offset, len) == 0,
        len < size ==> advance_offset_spec(size, offset, len) == (offset + len) % size,
        len >= size ==> dropped(size, len) == len - size && write_start(size, offset, len) == 0,
        len < size ==> dropped(size, len) == 0 && write_start(size, offset, len) == offset,
{
    if len < size && offset + len >= size {
        vstd::arithmetic::div_mod::lemma_fundamental_div_mod_converse(
            offset + len,
            size,
            1,
            offset + len - size,
        );
    } else if len < size {
        vstd::arithmetic::div_mod::lemma_small_mod((offset + len) as nat, size as nat);
    }
}

/// Where a text ends.
proof fn lemma_first_nul(bytes: Seq<u8>, from: int)
    requires
        0 <= from,
    ensures
        match first_nul(bytes, from) {
            Some(n) => 0 <= n && from + n < bytes.len() && bytes[from + n] == 0 && forall|i: int|
                from <= i < from + n ==> #[trigger] bytes[i] != 0,
            None => forall|i: int| from <= i < bytes.len() ==> #[trigger] bytes[i] != 0,
        },
    decreases bytes.len() - from,
{
    if from < bytes.len() {
        lemma_first_nul(bytes, from + 1);
    }
}

/// An entry of a symbol table gives the name that stands at its name offset, up to a zero byte, and
/// the value at its value offset, both counted from where the offsets stand. Anything else about the
/// name is refused.
pub proof fn law_symbols_are_read(
    kinfo_start: int,
    start: int,
    ksym: HekiKernelSymbol,
    bytes: Seq<u8>,
    layout: SymbolLayout,
    len: int,
)
    requires
        0 <= kinfo_start,
    ensures
        ({
            let at = kinfo_start + layout.name_pos + ksym.name_offset;
            let symbol = parse_symbol(kinfo_start, start, ksym, bytes, layout);
            &&& ksym.name_offset < 0 || at >= bytes.len() ==> symbol == Err::<
                (Seq<char>, u64),
                VsmError,
            >(VsmError::SymbolNameOffsetInvalid)
            &&& ksym.name_offset >= 0 && at < bytes.len() && (forall|i: int|
                at <= i < bytes.len() ==> #[trigger] bytes[i] != 0) ==> symbol == Err::<
                (Seq<char>, u64),
                VsmError,
            >(VsmError::SymbolNameNoTerminator)
            &&& ksym.name_offset >= 0 && 0 <= len && at + len < bytes.len() && bytes[at + len] == 0 && (
            forall|i: int| at <= i < at + len ==> #[trigger] bytes[i] != 0) ==> {
                let name = bytes.subrange(at, at + len);
                &&& len >= layout.name_limit ==> symbol == Err::<(Seq<char>, u64), VsmError>(
                    VsmError::SymbolNameTooLong,
                )
                &&& len < layout.name_limit && !vstd::utf8::valid_utf8(name) ==> symbol == Err::<
                    (Seq<char>, u64),
                    VsmError,
                >(VsmError::SymbolNameInvalidUtf8)
                &&& len < layout.name_limit && vstd::utf8::valid_utf8(name) ==> {
                    &&& symbol is Ok
                    &&& symbol->Ok_0.0 == vstd::utf8::decode_utf8(name)
                    &&& 0 <= start + layout.value_pos + ksym.value_offset <= u64::MAX
                        ==> symbol->Ok_0.1 == start + layout.value_pos + ksym.value_offset
                }
            }
        }),
{
    let at = kinfo_start + layout.name_pos + ksym.name_offset;
    if ksym.name_offset >= 0 {
        lemma_first_nul(bytes, at);
        if 0 <= len && at + len < bytes.len() && bytes[at + len] == 0 && (forall|i: int|
            at <= i < at + len ==> #[trigger] bytes[i] != 0) {
            let n = first_nul(bytes, at)->Some_0;
            if n < len {
                assert(bytes[at + n] != 0);
            }
        }
    }
}

/// A symbol table is one that was loaded, lies where it was loaded, and holds whole entries.
pub proof fn law_symbol_tables(start: int, end: int, mem: MemoryContainer, layout: SymbolLayout)
    requires
        layout.len > 0,
        mem@.len() > 0,
        mem.ranges().len() > 0,
    ensures
        ({
            let low = mem.ranges()[0].addr;
            let high = mem.ranges()[mem.ranges().len() - 1].addr + mem.ranges()[mem.ranges().len()
                - 1].len;
            let error = symbol_table_error(start, end, mem, layout);
            &&& error is None <==> low <= start && end <= high && (end - start) % (layout.len as int)
                == 0
            &&& start < low || end > high ==> error == Some(VsmError::SymbolTableOutOfRange)
            &&& low <= start && end <= high && (end - start) % (layout.len as int) != 0 ==> error
                == Some(VsmError::SymbolTableLengthInvalid)
        }),
{
}

/// The entry was read, and the symbols hold its name.
pub open spec fn entry_is_kept<S: Fn(&[u8]) -> Result<HekiKernelSymbol, VsmError>>(
    offset: int,
    start: int,
    bytes: Seq<u8>,
    layout: SymbolLayout,
    symbol: S,
    symbols: Map<Seq<char>, u64>,
) -> bool {
    exists|name: Seq<char>, value: u64| #[trigger]
        symbol_read(
            offset,
            start,
            bytes,
            layout,
            symbol,
            Ok::<(Seq<char>, u64), VsmError>((name, value)),
        ) && symbols.dom().contains(name)
}

/// Symbols that are known stay known.
proof fn lemma_symbols_stay<S: Fn(&[u8]) -> Result<HekiKernelSymbol, VsmError>>(
    before: Map<Seq<char>, u64>,
    offset: int,
    start: int,
    count: nat,
    bytes: Seq<u8>,
    layout: SymbolLayout,
    symbol: S,
    after: Map<Seq<char>, u64>,
    error: Option<VsmError>,
    name: Seq<char>,
)
    requires
        entries_added(before, offset, start, count, bytes, layout, symbol, after, error),
        before.dom().contains(name),
    ensures
        after.dom().contains(name),
    decreases count,
{
    if count > 0 {
        let out = choose|out: Result<(Seq<char>, u64), VsmError>| #[trigger]
            symbol_read(offset, start, bytes, layout, symbol, out) && match out {
                Err(e) => after == before && error == Some(e),
                Ok((name, value)) => entries_added(
                    before.insert(name, value),
                    offset + layout.len,
                    start + layout.len,
                    (count - 1) as nat,
                    bytes,
                    layout,
                    symbol,
                    after,
                    error,
                ),
            };
        if let Ok((other, value)) = out {
            lemma_symbols_stay(
                before.insert(other, value),
                offset + layout.len,
                start + layout.len,
                (count - 1) as nat,
                bytes,
                layout,
                symbol,
                after,
                error,
                name,
            );
        }
    }
}

/// If a table is added without an error, the name of each of its entries is known afterwards, and no
/// name that was known is forgotten. `i` is any entry.
pub proof fn law_every_entry_is_added<S: Fn(&[u8]) -> Result<HekiKernelSymbol, VsmError>>(
    before: Map<Seq<char>, u64>,
    offset: int,
    start: int,
    count: nat,
    bytes: Seq<u8>,
    layout: SymbolLayout,
    symbol: S,
    after: Map<Seq<char>, u64>,
    i: int,
)
    requires
        entries_added(before, offset, start, count, bytes, layout, symbol, after, None),
        0 <= i < count,
    ensures
        before.dom().subset_of(after.dom()),
        entry_is_kept(offset + i * layout.len, start + i * layout.len, bytes, layout, symbol, after),
    decreases count,
{
    assert forall|name: Seq<char>| before.dom().contains(name) implies after.dom().contains(
        name,
    ) by {
        lemma_symbols_stay(before, offset, start, count, bytes, layout, symbol, after, None, name);
    }
    let out = choose|out: Result<(Seq<char>, u64), VsmError>| #[trigger]
        symbol_read(offset, start, bytes, layout, symbol, out) && match out {
            Err(e) => after == before && None::<VsmError> == Some(e),
            Ok((name, value)) => entries_added(
                before.insert(name, value),
                offset + layout.len,
                start + layout.len,
                (count - 1) as nat,
                bytes,
                layout,
                symbol,
                after,
                None,
            ),
        };
    let (name, value) = out->Ok_0;
    let now = before.insert(name, value);
    if i == 0 {
        lemma_symbols_stay(
            now,
            offset + layout.len,
            start + layout.len,
            (count - 1) as nat,
            bytes,
            layout,
            symbol,
            after,
            None,
            name,
        );
        assert(out == Ok::<(Seq<char>, u64), VsmError>((name, value)));
        assert(offset + 0 * layout.len == offset && start + 0 * layout.len == start);
    } else {
        law_every_entry_is_added(
            now,
            offset + layout.len,
            start + layout.len,
            (count - 1) as nat,
            bytes,
            layout,
            symbol,
            after,
            i - 1,
        );
        assert((i - 1) * layout.len + layout.len == i * layout.len) by (nonlinear_arith);
    }
}

} // verus!
