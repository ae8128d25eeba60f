//! What the operations of VTL1 go through before they are done: flushes behind changes of page tables,
//! and the steps of a loading.
use vstd::prelude::*;

use crate::lvbs::container::{section_extended, MemoryContainer};
use crate::lvbs::error::VsmError;
use crate::lvbs::heki::HekiRange;
use crate::lvbs::kdata::{trampoline_protections, KdataLayout, KdataLoading, KdataPhase};
use crate::lvbs::kernel_info::Vtl0KernelInfo;
use crate::lvbs::kexec::{protections, same_but_kexec, KexecLayout, KexecPhase, KexecValidation};
use crate::lvbs::mapping::{MapFrames, ScatteredModel, Window};
use crate::lvbs::mm::{direct_va, kernel_va, USER_ADDR_MAX, USER_ADDR_MIN, VMAP_END, VMAP_START};
use crate::lvbs::module::ModuleMemoryRange;
use crate::lvbs::module_ops::{
    module_protections, same_but_modules, ModuleLayout, ModulePhase, ModuleValidation,
};
use crate::lvbs::mprotect::Mprotect;
use crate::lvbs::paging::{PhysRange, PtAction, PtReply};
use crate::lvbs::patch::{
    admitted, announced, module_admits, patch_data_result, PatchDataMapError, PatchGroup, PatchModel,
    PatchRecordSizes,
};
use crate::lvbs::remap::{overlap, Remap};
use crate::lvbs::unmap::UnmapModel;

verus! {

/// Behind a change of permissions the pages from the first to the last are flushed. The operation is
/// over only then.
pub proof fn law_changed_permissions_are_flushed(m: Mprotect, reply: PtReply)
    requires
        m.well_formed(),
    ensures
        m.phase is Flush ==> (m.spec_action() matches PtAction::FlushTlb { start, count } && start
            == m.start && start + 4096 * count == m.last + 4096),
        m.spec_advance(reply).phase is Changed ==> m.phase is Flush || m.phase is Changed,
        m.phase is Flush ==> m.spec_advance(reply).phase is Changed,
{
}

/// Behind new mappings in a window their pages are flushed. The operation is over only then.
pub proof fn law_new_mappings_are_flushed(
    m: MapFrames,
    exec_ranges: Option<Seq<PhysRange>>,
    reply: PtReply,
)
    requires
        m.well_formed(),
        m.range.start < m.range.end,
    ensures
        m.phase is Flush ==> (m.spec_action(exec_ranges) matches PtAction::FlushTlb { start, count }
            && start == m.range.start + (match m.window {
            Window::Kernel => 0xffff_e200_0000_0000int,
            Window::Direct => 0xffff_8000_0000_0000int,
        }) && 4096 * count == m.range.end - m.range.start),
        m.spec_advance(reply).phase is Mapped ==> m.phase is Flush || m.phase is Mapped,
        m.phase is Flush ==> m.spec_advance(reply).phase is Mapped,
        m.phase is MapPage ==> (m.spec_action(exec_ranges) matches PtAction::MapTo {
            table_flags,
            ..
        } && table_flags == Some(3u64)),
{
}

/// Behind new mappings of scattered frames their pages are flushed, and so are those of mappings that
/// are taken back. The operation is over only then.
pub proof fn law_scattered_mappings_are_flushed(m: ScatteredModel, reply: PtReply)
    requires
        m.well_formed(),
    ensures
        m.phase is Flush || m.phase is RollBackFlush ==> (m.action() matches PtAction::FlushTlb {
            start,
            count,
        } && start == m.base && count == m.mapped),
        m.phase is RollBackCleanUp ==> (m.action() matches PtAction::CleanUp { start, last } && start
            == m.base && last == m.base + 4096 * (m.mapped - 1)),
        m.advance(reply).phase is Mapped ==> m.phase is Flush || m.phase is Mapped,
        m.advance(reply).phase is Failed ==> m.phase is RollBackCleanUp || m.phase is Failed || (
        m.phase is MapPage && m.mapped == 0),
        m.advance(reply).phase is RollBackCleanUp ==> m.phase is RollBackFlush || m.phase
            is RollBackCleanUp,
{
}

/// Behind a move all the old pages are flushed. The operation is over only then.
pub proof fn law_moved_pages_are_flushed(m: Remap, reply: PtReply)
    requires
        m.well_formed(),
    ensures
        m.phase is Flush ==> (m.spec_action() matches PtAction::FlushTlb { start, count } && start
            == m.first && start + 4096 * count == m.end),
        m.spec_advance(reply).phase is Moved ==> m.phase is Flush || m.phase is Moved,
{
}

/// A flush behind unmapping covers all pages; where frames are freed too, those of the batch, of which
/// there are 32 at most. Tables are cleaned up for the whole range.
pub proof fn law_unmapped_pages_are_flushed(op: UnmapModel)
    requires
        op.well_formed(),
    ensures
        op.phase is Flush && !op.dealloc_frames ==> (op.action() matches PtAction::FlushTlb {
            start,
            count,
        } && start == op.start && start + 4096 * count == op.end),
        op.phase is Flush && op.dealloc_frames ==> (op.action() matches PtAction::FlushTlb {
            start,
            count,
        } && start == op.flush_start && start + 4096 * count == op.cur && count <= 32),
        op.phase is CleanUp ==> (op.action() matches PtAction::CleanUp { start, last } && start
            == op.start && last == op.end - 4096),
{
    let pages = op.cur - op.flush_start;
    assert(pages % 4096 == 0);
    assert(pages == 4096 * (pages / 4096));
}

/// Unmapping that is to be flushed is not over before it was flushed, and unmapping that is to be cleaned
/// up behind is not over before that was done.
pub proof fn law_unmapping_ends_behind_its_flush(op: UnmapModel, reply: PtReply)
    requires
        op.phase is FreeBatch ==> op.dealloc_frames,
    ensures
        op.flush_tlb && !op.dealloc_frames && (op.advance(reply).phase is CleanUp
            || op.advance(reply).phase is Finished) ==> op.phase is Flush || op.phase is CleanUp
            || op.phase is Finished,
        op.clean_up && op.advance(reply).phase is Finished ==> op.phase is CleanUp || op.phase
            is Finished,
{
}

/// Where the parts of the address space lie: the direct map of physical memory below the mappings of
/// scattered frames, the kernel above them, and tasks at the bottom.
pub proof fn law_address_space(addr: u64)
    ensures
        USER_ADDR_MIN <= addr < USER_ADDR_MAX <==> 0x1_0000 <= addr < 0x7fff_ffff_f000,
        VMAP_START <= addr < VMAP_END <==> 0xffff_c100_0000_0000 <= addr < 0xffff_e0ff_ffff_f000,
        direct_va(addr as int) - addr == 0xffff_8000_0000_0000,
        kernel_va(addr as int) - addr == 0xffff_e200_0000_0000,
{
}

/// Two ranges overlap if an address lies in both.
pub proof fn law_overlapping_ranges(start: int, end: int, other_start: int, other_end: int, at: int)
    ensures
        start <= at < end && other_start <= at < other_end ==> overlap(
            start,
            end,
            other_start,
            other_end,
        ),
        overlap(start, end, other_start, other_end) ==> exists|a: int|
            start <= a < end && #[trigger] in_range(a, other_start, other_end),
{
    if overlap(start, end, other_start, other_end) {
        let low = if start > other_start {
            start
        } else {
            other_start
        };
        assert(in_range(low, other_start, other_end));
    }
}

/// The address lies in the range.
pub open spec fn in_range(a: int, start: int, end: int) -> bool {
    start <= a < end
}

/// Behind the certificates the trampoline is protected, all of it from its beginning, unless it has no
/// pages.
pub proof fn law_trampoline_comes_next(op: KdataLoading, layout: KdataLayout)
    requires
        op.certified(layout),
    ensures
        trampoline_protections(layout.kexec_trampoline).len() > 0 ==> (op.phase
            matches KdataPhase::Protect { layout: kept, run } && kept == layout && run.made() == 0
            && run.all() == trampoline_protections(layout.kexec_trampoline)),
        trampoline_protections(layout.kexec_trampoline).len() == 0 && layout.patch_info@.len() > 0
            ==> op.phase == (KdataPhase::DecodePatches { layout }),
        trampoline_protections(layout.kexec_trampoline).len() == 0 && layout.patch_info@.len() == 0
            && layout.kernel_info@.len() > 0 && layout.kernel_data@.len() > 0 ==> op.phase == (
        KdataPhase::DecodeSymbols { layout }),
{
}

/// Before a kexec image is verified all of its memory is protected, from its beginning.
pub proof fn law_images_are_protected_before_they_are_verified(
    op: KexecValidation,
    layout: KexecLayout,
)
    requires
        op.protecting(layout),
    ensures
        protections(layout.metadata@).len() > 0 ==> (op.phase matches KexecPhase::Protect {
            layout: kept,
            run,
        } && kept == layout && run.made() == 0 && run.all() == protections(layout.metadata@)),
        protections(layout.metadata@).len() == 0 ==> op.phase == (KexecPhase::Verify { layout }),
{
}

/// Before a module is known all of its memory is protected, from its beginning.
pub proof fn law_modules_are_protected_before_they_are_known(
    op: ModuleValidation,
    before: Vtl0KernelInfo,
    after: Vtl0KernelInfo,
    layout: ModuleLayout,
)
    requires
        op.protecting(before, after, layout),
    ensures
        module_protections(layout.metadata).len() > 0 ==> {
            &&& op.phase matches ModulePhase::Protect { layout: kept, run } && kept == layout
                && run.made() == 0 && run.all() == module_protections(layout.metadata)
            &&& after.module_memory_metadata == before.module_memory_metadata
        },
        module_protections(layout.metadata).len() == 0 ==> op.registered(
            before,
            after,
            layout.metadata,
        ),
{
}

/// What is described is looked at whole: one range of an unknown kind is enough to refuse all, and
/// otherwise the loading begins with nothing copied yet.
pub proof fn law_descriptions_are_looked_at_whole(
    kdata: KdataLoading,
    kexec: KexecValidation,
    ranges: Seq<HekiRange>,
    i: int,
)
    requires
        0 <= i < ranges.len(),
    ensures
        kdata.collected(ranges) && ranges[i].kdata_type is Unknown ==> kdata.phase == (
        KdataPhase::Done { result: Err::<i64, VsmError>(VsmError::KernelDataTypeInvalid) }),
        kdata.collected(ranges) && (forall|j: int|
            0 <= j < ranges.len() ==> !((#[trigger] ranges[j]).kdata_type is Unknown)) ==> (
        kdata.phase matches KdataPhase::CopyCerts { layout } && layout.system_certs@.len() == 0
            && layout.patch_info@.len() == 0 && layout.kernel_info@.len() == 0
            && layout.kernel_data@.len() == 0),
        kexec.collected(ranges) && ranges[i].kexec_type is Unknown ==> kexec.phase == (
        KexecPhase::Done { result: Err::<i64, VsmError>(VsmError::KexecTypeInvalid) }),
        kexec.collected(ranges) && (forall|j: int|
            0 <= j < ranges.len() ==> !((#[trigger] ranges[j]).kexec_type is Unknown)) ==> (
        kexec.phase matches KexecPhase::CopyImage { layout } && layout.image@.len() == 0
            && layout.kernel_blob@.len() == 0),
{
}

/// A kexec image changes the table of its own kind of image and no other, a module changes no table
/// but those of modules and patches, and certificates change no table at all.
pub proof fn law_other_tables_stay(before: Vtl0KernelInfo, after: Vtl0KernelInfo, crash: u64)
    ensures
        same_but_kexec(before, after, crash) ==> {
            &&& crash == 0 ==> after.crash_kexec_metadata == before.crash_kexec_metadata
            &&& crash != 0 ==> after.kexec_metadata == before.kexec_metadata
            &&& after.module_memory_metadata == before.module_memory_metadata
            &&& after.precomputed_patches == before.precomputed_patches
            &&& after.symbols == before.symbols && after.gpl_symbols == before.gpl_symbols
            &&& after.boot_done == before.boot_done
            &&& after.certificates() == before.certificates()
        },
        same_but_modules(before, after) ==> {
            &&& after.kexec_metadata == before.kexec_metadata
            &&& after.crash_kexec_metadata == before.crash_kexec_metadata
            &&& after.symbols == before.symbols && after.gpl_symbols == before.gpl_symbols
            &&& after.boot_done == before.boot_done
            &&& after.certificates() == before.certificates()
        },
        after.same_tables(before) ==> {
            &&& after.module_memory_metadata == before.module_memory_metadata
            &&& after.kexec_metadata == before.kexec_metadata
            &&& after.crash_kexec_metadata == before.crash_kexec_metadata
            &&& after.precomputed_patches == before.precomputed_patches
            &&& after.symbols == before.symbols && after.gpl_symbols == before.gpl_symbols
        },
{
}

/// Of the patches that come with a module those are taken, and only those, that lie with both of their
/// addresses in one range of its code. Patches of the kernel are all taken.
pub proof fn law_which_patches_are_taken(
    patches: Seq<PatchModel>,
    memory: Seq<ModuleMemoryRange>,
    patch: PatchModel,
    i: int,
)
    requires
        patches.contains(patch),
    ensures
        admitted(patches, None) == patches,
        0 <= i < memory.len() && (memory[i].mod_mem_type is Text || memory[i].mod_mem_type
            is InitText) && memory[i].phys_frame_range.start <= patch.pa_0
            < memory[i].phys_frame_range.end && (patch.pa_1 == 0
            || memory[i].phys_frame_range.start <= patch.pa_1 < memory[i].phys_frame_range.end)
            ==> admitted(patches, Some(memory)).contains(patch),
        (forall|k: int|
            0 <= k < memory.len() ==> !((#[trigger] memory[k]).phys_frame_range.start <= patch.pa_0
                < memory[k].phys_frame_range.end && (memory[k].mod_mem_type is Text
                || memory[k].mod_mem_type is InitText))) ==> !admitted(
            patches,
            Some(memory),
        ).contains(patch),
{
    let pred = |p: PatchModel| module_admits(memory, p);
    let k = choose|k: int| 0 <= k < patches.len() && patches[k] == patch;
    if pred(patch) {
        patches.lemma_filter_contains(pred, k);
    }
    if patches.filter(pred).contains(patch) {
        let j = choose|j: int| 0 <= j < patches.filter(pred).len() && patches.filter(pred)[j] == patch;
        patches.lemma_filter_pred(pred, j);
    }
}

/// Announced patches are accepted if the data hold at least one header, and all groups behind it are
/// whole and sound.
pub proof fn law_announcements_are_accepted_or_refused(
    len: int,
    sizes: PatchRecordSizes,
    groups: Seq<PatchGroup>,
)
    ensures
        len < sizes.info ==> patch_data_result(len, sizes, groups) == Err::<(), PatchDataMapError>(
            PatchDataMapError::InvalidHekiPatchInfo,
        ),
        len >= sizes.info ==> {
            &&& patch_data_result(len, sizes, groups) is Ok <==> announced(len, sizes, groups, 0).1
                is None
            &&& announced(len, sizes, groups, 0).1 matches Some(e) ==> patch_data_result(
                len,
                sizes,
                groups,
            ) == Err::<(), PatchDataMapError>(e)
        },
{
}

/// A section is extended by a range of its kind, behind those that it has, and by no other.
pub proof fn law_sections_are_extended(
    before: MemoryContainer,
    after: MemoryContainer,
    range: HekiRange,
    i: int,
)
    requires
        range.pa <= range.epa,
        0 <= i < before.ranges().len(),
    ensures
        section_extended(before, after, range, true) ==> {
            &&& after.ranges().len() == before.ranges().len() + 1
            &&& after.ranges()[i] == before.ranges()[i]
            &&& after.ranges().last().addr == range.va
            &&& after.ranges().last().phys_addr == range.pa
            &&& after.ranges().last().phys_addr + after.ranges().last().len == range.epa
            &&& after@ == before@
        },
        section_extended(before, after, range, false) ==> {
            &&& after.ranges().len() == before.ranges().len()
            &&& after.ranges()[i] == before.ranges()[i]
            &&& after@ == before@
        },
{
}

} // verus!
