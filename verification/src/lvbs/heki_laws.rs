//! What becomes of the memory that VTL0 describes: which ranges are protected, and how, and which are copied.
use vstd::prelude::*;

use crate::addr::PhysFrameRange;
use crate::lvbs::container::{memory_range_of, MemoryContainer};
use crate::lvbs::heki::{
    protect_all_spec, protect_spec, Access, HekiKdataType, HekiKexecType, HekiRange, MemAttr,
    ModMemType, Protection,
};
use crate::lvbs::kdata::{has_unknown_kdata, kdata_protections, KdataLayout};
use crate::lvbs::kexec::{has_unknown_kexec, liftings, protections, KexecLayout};
use crate::lvbs::module::{kexec_accesses, kexec_range_of, module_range_of, KexecMemoryRange};
use crate::lvbs::module_ops::{
    first_module_error, is_module_memory, module_accesses, module_liftings, module_protections,
    module_range_error, uniform_accesses, ModuleLayout,
};
use crate::lvbs::vsm::{
    described_accesses, law_described_memory_is_protected, range_error, MemoryPhase, MemoryProtection,
};

verus! {

/// One of the requests gives VTL0 the access to the pages from `start` up to `end`.
pub open spec fn is_granted(requests: Seq<Protection>, start: int, end: int, access: Access) -> bool {
    exists|k: int|
        0 <= k < requests.len() && (#[trigger] requests[k]).pa == start && start + 4096
            * requests[k].num_pages == end && requests[k].access == access
}

/// Every range that is not empty is granted its access, by a request for exactly its pages.
pub proof fn law_every_range_is_granted(ranges: Seq<(PhysFrameRange, Access)>, i: int)
    requires
        0 <= i < ranges.len(),
        ranges[i].0.start % 4096 == 0,
        ranges[i].0.end % 4096 == 0,
        ranges[i].0.start < ranges[i].0.end,
    ensures
        is_granted(
            protect_all_spec(ranges),
            ranges[i].0.start as int,
            ranges[i].0.end as int,
            ranges[i].1,
        ),
    decreases ranges.len(),
{
    let rest = ranges.drop_last();
    let before = protect_all_spec(rest);
    let all = protect_all_spec(ranges);
    let (range, access) = ranges[i];
    if i < rest.len() {
        law_every_range_is_granted(rest, i);
        let k = choose|k: int|
            0 <= k < before.len() && (#[trigger] before[k]).pa == range.start && range.start + 4096
                * before[k].num_pages == range.end && before[k].access == access;
        assert(all[k] == before[k]);
    } else {
        assert(all[before.len() as int] == protect_spec(range, access)[0]);
    }
}

/// Every request is for one of the ranges, and for all of its pages.
pub proof fn law_only_ranges_are_granted(ranges: Seq<(PhysFrameRange, Access)>, k: int) -> (i: int)
    requires
        0 <= k < protect_all_spec(ranges).len(),
        forall|i: int|
            0 <= i < ranges.len() ==> (#[trigger] ranges[i]).0.start % 4096 == 0 && ranges[i].0.end % 4096
                == 0,
    ensures
        0 <= i < ranges.len(),
        protect_all_spec(ranges)[k].pa == ranges[i].0.start,
        ranges[i].0.start + 4096 * protect_all_spec(ranges)[k].num_pages == ranges[i].0.end,
        protect_all_spec(ranges)[k].num_pages > 0,
        protect_all_spec(ranges)[k].access == ranges[i].1,
    decreases ranges.len(),
{
    let rest = ranges.drop_last();
    let before = protect_all_spec(rest);
    let all = protect_all_spec(ranges);
    if k < before.len() {
        assert(all[k] == before[k]);
        let i = law_only_ranges_are_granted(rest, k);
        assert(ranges[i] == rest[i]);
        i
    } else {
        assert(ranges[ranges.len() - 1] == ranges.last());
        assert(all[k] == protect_spec(ranges.last().0, ranges.last().1)[k - before.len()]);
        ranges.len() - 1
    }
}

/// The value is made of a selected element of a sequence.
pub open spec fn is_made<A, B>(s: Seq<A>, pred: spec_fn(A) -> bool, f: spec_fn(A) -> B, b: B) -> bool {
    exists|i: int| 0 <= i < s.len() && pred(#[trigger] s[i]) && f(s[i]) == b
}

/// What is selected from a sequence, and made of each element.
proof fn lemma_selected<A, B>(s: Seq<A>, pred: spec_fn(A) -> bool, f: spec_fn(A) -> B)
    ensures
        forall|i: int|
            0 <= i < s.len() && pred(#[trigger] s[i]) ==> s.filter(pred).map_values(f).contains(f(s[i])),
        forall|k: int|
            0 <= k < s.filter(pred).map_values(f).len() ==> is_made(
                s,
                pred,
                f,
                #[trigger] s.filter(pred).map_values(f)[k],
            ),
{
    let chosen = s.filter(pred);
    let made = chosen.map_values(f);
    assert forall|i: int| 0 <= i < s.len() && pred(#[trigger] s[i]) implies made.contains(f(s[i])) by {
        s.lemma_filter_contains(pred, i);
        let k = choose|k: int| 0 <= k < chosen.len() && chosen[k] == s[i];
        assert(made[k] == f(s[i]));
    }
    assert forall|k: int| 0 <= k < made.len() implies is_made(s, pred, f, #[trigger] made[k]) by {
        s.lemma_filter_pred(pred, k);
        assert(chosen.contains(chosen[k]));
        s.lemma_filter_contains_rev(pred, chosen[k]);
        let i = choose|i: int| 0 <= i < s.len() && s[i] == chosen[k];
        assert(pred(s[i]) && f(s[i]) == made[k]);
    }
}

/// The whole pages of a range, from the page of its start up to the page of its end.
pub open spec fn first_page(range: HekiRange) -> int {
    range.pa - range.pa % 4096
}

/// Where the whole pages of a range end.
pub open spec fn last_page(range: HekiRange) -> int {
    range.epa - range.epa % 4096
}

/// The attributes that let VTL0 only read.
pub open spec fn only_read() -> Access {
    Access::Attr(MemAttr { read: true, write: false, execute: false })
}

/// The attributes that let VTL0 read and write, but not execute.
pub open spec fn read_and_write() -> Access {
    Access::Attr(MemAttr { read: true, write: true, execute: false })
}

/// Memory that was protected on request has the access that was described for it, and the request was for
/// exactly its pages.
pub proof fn law_described_ranges_are_granted(op: MemoryProtection, i: int)
    requires
        op.well_formed(),
        op.phase == (MemoryPhase::Done { result: Ok(0) }),
        0 <= i < op.evidence@.ranges.len(),
        op.evidence@.ranges[i].pa < op.evidence@.ranges[i].epa,
    ensures
        ({
            let range = op.evidence@.ranges[i];
            &&& range.mem_attr is Some
            &&& range.pa % 4096 == 0 && range.epa % 4096 == 0 && range.va % 4096 == 0
            &&& is_granted(
                op.evidence@.granted,
                range.pa as int,
                range.epa as int,
                Access::Attr(range.mem_attr->Some_0),
            )
        }),
{
    law_described_memory_is_protected(op);
    let ranges = op.evidence@.ranges;
    let accesses = described_accesses(ranges);
    assert(range_error(ranges[i]) is None);
    assert(accesses[i].0 == ranges[i].frames());
    law_every_range_is_granted(accesses, i);
}

/// The memory of a kernel image for kexec is its image and its pages, as whole pages: before its signature
/// is verified, VTL0 can only read each of them, and when they are given up VTL0 can read and write them.
pub proof fn law_kexec_memory_is_read_only(layout: KexecLayout, ranges: Seq<HekiRange>, i: int)
    requires
        layout.describes(ranges),
        0 <= i < ranges.len(),
        ranges[i].kexec_type is KexecImage || ranges[i].kexec_type is KexecPages,
        first_page(ranges[i]) < last_page(ranges[i]),
    ensures
        is_granted(
            protections(layout.metadata@),
            first_page(ranges[i]),
            last_page(ranges[i]),
            only_read(),
        ),
        is_granted(
            liftings(layout.metadata@),
            first_page(ranges[i]),
            last_page(ranges[i]),
            read_and_write(),
        ),
{
    let pred = |r: HekiRange| r.kexec_type is KexecImage || r.kexec_type is KexecPages;
    let f = |r: HekiRange| kexec_range_of(r);
    lemma_selected(ranges, pred, f);
    let memory = layout.metadata@;
    assert(memory == ranges.filter(pred).map_values(f));
    assert(pred(ranges[i]));
    let k = choose|k: int| 0 <= k < memory.len() && memory[k] == f(ranges[i]);
    lemma_kexec_granted(memory, k, only_read());
    lemma_kexec_granted(memory, k, read_and_write());
}

proof fn lemma_kexec_granted(memory: Seq<KexecMemoryRange>, k: int, access: Access)
    requires
        0 <= k < memory.len(),
        memory[k].phys_frame_range.start % 4096 == 0,
        memory[k].phys_frame_range.end % 4096 == 0,
        memory[k].phys_frame_range.start < memory[k].phys_frame_range.end,
    ensures
        is_granted(
            protect_all_spec(kexec_accesses(memory, access)),
            memory[k].phys_frame_range.start as int,
            memory[k].phys_frame_range.end as int,
            access,
        ),
{
    let accesses = kexec_accesses(memory, access);
    assert(accesses[k] == (memory[k].phys_frame_range, access));
    law_every_range_is_granted(accesses, k);
}

/// No other memory is protected for a kernel image, and no other access granted.
pub proof fn law_only_kexec_memory_is_protected(layout: KexecLayout, ranges: Seq<HekiRange>, k: int) -> (i:
    int)
    requires
        layout.describes(ranges),
        0 <= k < protections(layout.metadata@).len(),
    ensures
        0 <= i < ranges.len(),
        ranges[i].kexec_type is KexecImage || ranges[i].kexec_type is KexecPages,
        protections(layout.metadata@)[k].pa == first_page(ranges[i]),
        protections(layout.metadata@)[k].access == only_read(),
{
    let pred = |r: HekiRange| r.kexec_type is KexecImage || r.kexec_type is KexecPages;
    let f = |r: HekiRange| kexec_range_of(r);
    lemma_selected(ranges, pred, f);
    let memory = layout.metadata@;
    assert(memory == ranges.filter(pred).map_values(f));
    let accesses = kexec_accesses(memory, only_read());
    assert forall|j: int| 0 <= j < accesses.len() implies (#[trigger] accesses[j]).0.start % 4096 == 0
        && accesses[j].0.end % 4096 == 0 by {
        assert(memory[j] == ranges.filter(pred).map_values(f)[j]);
        assert(is_made(ranges, pred, f, memory[j]));
    }
    let j = law_only_ranges_are_granted(accesses, k);
    assert(accesses[j].0 == memory[j].phys_frame_range);
    let i = choose|i: int| 0 <= i < ranges.len() && pred(#[trigger] ranges[i]) && f(ranges[i]) == memory[j];
    assert(memory[j] == f(ranges[i]));
    i
}

/// The trampoline for kexec, among the kernel data that VTL0 describes, can only be read by VTL0.
pub proof fn law_kexec_trampoline_is_read_only(ranges: Seq<HekiRange>, i: int)
    requires
        0 <= i < ranges.len(),
        ranges[i].kdata_type is KexecTrampoline,
        first_page(ranges[i]) < last_page(ranges[i]),
    ensures
        is_granted(
            kdata_protections(ranges),
            first_page(ranges[i]),
            last_page(ranges[i]),
            only_read(),
        ),
{
    let pred = |r: HekiRange| r.kdata_type == HekiKdataType::KexecTrampoline;
    let f = |r: HekiRange| kexec_range_of(r);
    lemma_selected(ranges, pred, f);
    let memory = ranges.filter(pred).map_values(f);
    assert(pred(ranges[i]));
    let k = choose|k: int| 0 <= k < memory.len() && memory[k] == f(ranges[i]);
    lemma_kexec_granted(memory, k, only_read());
}

/// Every range of a module gets the protection of its kind, but for its ELF file and its announced patches,
/// which are no memory of the module; and when the module is unloaded VTL0 can read and write all of it.
pub proof fn law_module_memory_is_protected(layout: ModuleLayout, ranges: Seq<HekiRange>, i: int)
    requires
        layout.describes(ranges),
        0 <= i < ranges.len(),
        !(ranges[i].mod_mem_type is ElfBuffer) && !(ranges[i].mod_mem_type is Patch),
        first_page(ranges[i]) < last_page(ranges[i]),
    ensures
        is_granted(
            module_protections(layout.metadata),
            first_page(ranges[i]),
            last_page(ranges[i]),
            Access::ForModuleMemory(ranges[i].mod_mem_type),
        ),
        is_granted(
            module_liftings(layout.metadata),
            first_page(ranges[i]),
            last_page(ranges[i]),
            read_and_write(),
        ),
{
    let pred = |r: HekiRange| is_module_memory(r);
    let f = |r: HekiRange| module_range_of(r);
    lemma_selected(ranges, pred, f);
    let memory = layout.metadata.memory();
    assert(memory == ranges.filter(pred).map_values(f));
    assert(pred(ranges[i]));
    let k = choose|k: int| 0 <= k < memory.len() && memory[k] == f(ranges[i]);
    let kind = module_accesses(memory);
    assert(kind[k] == (memory[k].phys_frame_range, Access::ForModuleMemory(memory[k].mod_mem_type)));
    law_every_range_is_granted(kind, k);
    let lifted = uniform_accesses(memory, read_and_write());
    assert(lifted[k] == (memory[k].phys_frame_range, read_and_write()));
    law_every_range_is_granted(lifted, k);
}

/// A container holds a range: its virtual and its physical address, and its length.
pub open spec fn keeps(container: MemoryContainer, range: HekiRange) -> bool {
    exists|k: int|
        0 <= k < container.ranges().len() && (#[trigger] container.ranges()[k]).addr == range.va
            && container.ranges()[k].phys_addr == range.pa && container.ranges()[k].phys_addr
            + container.ranges()[k].len == range.epa
}

proof fn lemma_keeps(
    container: MemoryContainer,
    ranges: Seq<HekiRange>,
    pred: spec_fn(HekiRange) -> bool,
    i: int,
)
    requires
        container.ranges() == ranges.filter(pred).map_values(
            |r: HekiRange| memory_range_of(r),
        ),
        0 <= i < ranges.len(),
        pred(ranges[i]),
        ranges[i].pa <= ranges[i].epa,
    ensures
        keeps(container, ranges[i]),
{
    let f = |r: HekiRange| memory_range_of(r);
    lemma_selected(ranges, pred, f);
    let held = container.ranges();
    let k = choose|k: int| 0 <= k < held.len() && held[k] == f(ranges[i]);
    assert(held[k] == f(ranges[i]));
}

/// Kernel data of each kind that is used is kept by the container of its kind.
pub proof fn law_kernel_data_is_sorted(layout: KdataLayout, ranges: Seq<HekiRange>, i: int)
    requires
        layout.describes(ranges),
        0 <= i < ranges.len(),
        ranges[i].pa <= ranges[i].epa,
    ensures
        ranges[i].kdata_type is SystemCerts ==> keeps(layout.system_certs, ranges[i]),
        ranges[i].kdata_type is PatchInfo ==> keeps(layout.patch_info, ranges[i]),
        ranges[i].kdata_type is KernelInfo ==> keeps(layout.kernel_info, ranges[i]),
        ranges[i].kdata_type is KernelData ==> keeps(layout.kernel_data, ranges[i]),
{
    if ranges[i].kdata_type is SystemCerts {
        let pred = |r: HekiRange| r.kdata_type == HekiKdataType::SystemCerts;
        lemma_keeps(layout.system_certs, ranges, pred, i);
    } else if ranges[i].kdata_type is PatchInfo {
        let pred = |r: HekiRange| r.kdata_type == HekiKdataType::PatchInfo;
        lemma_keeps(layout.patch_info, ranges, pred, i);
    } else if ranges[i].kdata_type is KernelInfo {
        let pred = |r: HekiRange| r.kdata_type == HekiKdataType::KernelInfo;
        lemma_keeps(layout.kernel_info, ranges, pred, i);
    } else if ranges[i].kdata_type is KernelData {
        let pred = |r: HekiRange| r.kdata_type == HekiKdataType::KernelData;
        lemma_keeps(layout.kernel_data, ranges, pred, i);
    }
}

/// The description and the kernel of an image for kexec are kept apart.
pub proof fn law_kexec_data_is_sorted(layout: KexecLayout, ranges: Seq<HekiRange>, i: int)
    requires
        layout.describes(ranges),
        0 <= i < ranges.len(),
        ranges[i].pa <= ranges[i].epa,
    ensures
        ranges[i].kexec_type is KexecImage ==> keeps(layout.image, ranges[i]),
        ranges[i].kexec_type is KexecKernelBlob ==> keeps(layout.kernel_blob, ranges[i]),
{
    if ranges[i].kexec_type is KexecImage {
        let pred = |r: HekiRange| r.kexec_type == HekiKexecType::KexecImage;
        lemma_keeps(layout.image, ranges, pred, i);
    } else if ranges[i].kexec_type is KexecKernelBlob {
        let pred = |r: HekiRange| r.kexec_type == HekiKexecType::KexecKernelBlob;
        lemma_keeps(layout.kernel_blob, ranges, pred, i);
    }
}

/// The ELF file of a module, its announced patches and the sections that are compared with the file are
/// kept, each by its container.
pub proof fn law_module_data_is_sorted(layout: ModuleLayout, ranges: Seq<HekiRange>, i: int)
    requires
        layout.describes(ranges),
        0 <= i < ranges.len(),
        ranges[i].pa <= ranges[i].epa,
    ensures
        ranges[i].mod_mem_type is ElfBuffer ==> keeps(layout.elf, ranges[i]),
        ranges[i].mod_mem_type is Patch ==> keeps(layout.patch_info, ranges[i]),
        ranges[i].mod_mem_type is Text ==> keeps(layout.memory.text_container(), ranges[i]),
        ranges[i].mod_mem_type is InitText ==> keeps(layout.memory.init_text_container(), ranges[i]),
        ranges[i].mod_mem_type is InitRoData ==> keeps(
            layout.memory.init_rodata_container(),
            ranges[i],
        ),
{
    let kind = ranges[i].mod_mem_type;
    let pred = |r: HekiRange| r.mod_mem_type == kind;
    match kind {
        ModMemType::ElfBuffer => lemma_keeps(layout.elf, ranges, pred, i),
        ModMemType::Patch => lemma_keeps(layout.patch_info, ranges, pred, i),
        ModMemType::Text => lemma_keeps(layout.memory.text_container(), ranges, pred, i),
        ModMemType::InitText => lemma_keeps(layout.memory.init_text_container(), ranges, pred, i),
        ModMemType::InitRoData => lemma_keeps(layout.memory.init_rodata_container(), ranges, pred, i),
        _ => {},
    }
}

/// The ranges of a module are accepted only if each is of a known kind, and each that is memory of the
/// module consists of whole pages.
pub proof fn law_accepted_module_ranges(ranges: Seq<HekiRange>)
    ensures
        (first_module_error(ranges) is None) == (forall|i: int|
            0 <= i < ranges.len() ==> {
                let r = #[trigger] ranges[i];
                &&& !(r.mod_mem_type is Unknown)
                &&& r.mod_mem_type is ElfBuffer || r.mod_mem_type is Patch || (r.va % 4096 == 0 && r.pa
                    % 4096 == 0 && r.epa % 4096 == 0)
            }),
    decreases ranges.len(),
{
    if ranges.len() > 0 {
        let rest = ranges.drop_first();
        law_accepted_module_ranges(rest);
        let ok = |r: HekiRange|
            {
                &&& !(r.mod_mem_type is Unknown)
                &&& r.mod_mem_type is ElfBuffer || r.mod_mem_type is Patch || (r.va % 4096 == 0 && r.pa
                    % 4096 == 0 && r.epa % 4096 == 0)
            };
        assert(ok(ranges[0]) == (module_range_error(ranges[0]) is None));
        assert forall|i: int| 0 <= i < rest.len() implies #[trigger] rest[i] == ranges[i + 1] by {}
        if first_module_error(ranges) is None {
            assert forall|i: int| 0 <= i < ranges.len() implies ok(#[trigger] ranges[i]) by {
                if i > 0 {
                    assert(ranges[i] == rest[i - 1]);
                }
            }
        } else if module_range_error(ranges[0]) is None {
            let i = choose|i: int| 0 <= i < rest.len() && !ok(#[trigger] rest[i]);
            assert(!ok(ranges[i + 1]));
        }
    }
}

/// Data of a kind that is not known is refused, and no other.
pub proof fn law_unknown_kinds_are_refused(ranges: Seq<HekiRange>)
    ensures
        has_unknown_kdata(ranges) == exists|i: int|
            0 <= i < ranges.len() && (#[trigger] ranges[i]).kdata_type is Unknown,
        has_unknown_kexec(ranges) == exists|i: int|
            0 <= i < ranges.len() && (#[trigger] ranges[i]).kexec_type is Unknown,
{
}

} // verus!
