//! Loading kernel data into VTL1: system certificates, announced patches and exported symbols.
use vstd::prelude::*;

use crate::addr::VirtAddr;
use crate::bytes::reads;
use crate::lvbs::cert::{cert_bytes, certs_of, parse_certs};
use crate::lvbs::container::{all_pages, fill_container, filled, memory_range_of, total_pages, whole_pages, MemoryContainer, MemoryRange};
use crate::lvbs::error::{HypervCallError, VsmError};
use crate::lvbs::heki::{lemma_protect_all_push, mem_attr_read, protect_all_spec, protect_physical_memory_range, ranges_well_formed, Access, HekiKdataType, HekiPage, HekiPageWalk, HekiRange, MemAttr, ProtectRun, Protection};
use crate::lvbs::kernel_info::Vtl0KernelInfo;
use crate::lvbs::module::{kexec_accesses, kexec_range_of, KexecMemoryMetadata, KexecMemoryRange};
use crate::lvbs::patch::{announced, decodes_patches, groups_read, patch_data_result, stored_all, HekiPatch, PatchGroup, PatchRecordSizes};
use crate::lvbs::symbol::{decodes_symbols, table_added, table_fits, HekiKernelSymbol, SymbolLayout};
use crate::lvbs::vsm::{check_list_addr, list_addr_ok};

verus! {

/// Why kernel data cannot be loaded now, if it cannot.
pub open spec fn load_kdata_error(info: Vtl0KernelInfo, pa: u64, nranges: u64) -> Option<VsmError> {
    if !list_addr_ok(pa, nranges) {
        Some(VsmError::InvalidInputAddress)
    } else if info.booted() {
        Some(VsmError::OperationAfterEndOfBoot("loading kernel data"))
    } else {
        None
    }
}

/// The ranges of one kind of kernel data.
pub open spec fn kdata_ranges(ranges: Seq<HekiRange>, kind: HekiKdataType) -> Seq<HekiRange> {
    ranges.filter(|r: HekiRange| r.kdata_type == kind)
}

/// The memory ranges of one kind of kernel data.
pub open spec fn kdata_memory(ranges: Seq<HekiRange>, kind: HekiKdataType) -> Seq<MemoryRange> {
    kdata_ranges(ranges, kind).map_values(|r: HekiRange| memory_range_of(r))
}

/// The kernel data that VTL0 described, sorted by kind. Kinds that are not listed are not loaded.
pub struct KdataLayout {
    pub system_certs: MemoryContainer,
    pub kexec_trampoline: KexecMemoryMetadata,
    pub patch_info: MemoryContainer,
    pub kernel_info: MemoryContainer,
    pub kernel_data: MemoryContainer,
}

impl KdataLayout {
    /// All containers are well formed.
    pub open spec fn well_formed(self) -> bool {
        &&& self.system_certs.well_formed()
        &&& self.patch_info.well_formed()
        &&& self.kernel_info.well_formed()
        &&& self.kernel_data.well_formed()
    }

    /// The containers describe the ranges of their kinds, and there are no ranges of other kinds.
    pub open spec fn covers(self, ranges: Seq<HekiRange>) -> bool {
        &&& !has_unknown_kdata(ranges)
        &&& self.system_certs.ranges() == kdata_memory(ranges, HekiKdataType::SystemCerts)
        &&& self.patch_info.ranges() == kdata_memory(ranges, HekiKdataType::PatchInfo)
        &&& self.kernel_info.ranges() == kdata_memory(ranges, HekiKdataType::KernelInfo)
        &&& self.kernel_data.ranges() == kdata_memory(ranges, HekiKdataType::KernelData)
        &&& self.kexec_trampoline@ == kdata_ranges(
            ranges,
            HekiKdataType::KexecTrampoline,
        ).map_values(|r: HekiRange| kexec_range_of(r))
    }

    /// The containers describe the ranges of their kinds, and hold no bytes yet.
    pub open spec fn describes(self, ranges: Seq<HekiRange>) -> bool {
        &&& self.well_formed()
        &&& self.system_certs.ranges() == kdata_memory(ranges, HekiKdataType::SystemCerts)
        &&& self.patch_info.ranges() == kdata_memory(ranges, HekiKdataType::PatchInfo)
        &&& self.kernel_info.ranges() == kdata_memory(ranges, HekiKdataType::KernelInfo)
        &&& self.kernel_data.ranges() == kdata_memory(ranges, HekiKdataType::KernelData)
        &&& self.kexec_trampoline@ == kdata_ranges(
            ranges,
            HekiKdataType::KexecTrampoline,
        ).map_values(|r: HekiRange| kexec_range_of(r))
        &&& self.system_certs@.len() == 0
        &&& self.patch_info@.len() == 0
        &&& self.kernel_info@.len() == 0
        &&& self.kernel_data@.len() == 0
    }
}

/// One more range belongs to exactly its kind.
proof fn lemma_kdata_push(ranges: Seq<HekiRange>, range: HekiRange, kind: HekiKdataType)
    ensures
        kdata_ranges(ranges.push(range), kind) == (if range.kdata_type == kind {
            kdata_ranges(ranges, kind).push(range)
        } else {
            kdata_ranges(ranges, kind)
        }),
        kdata_memory(ranges.push(range), kind) == (if range.kdata_type == kind {
            kdata_memory(ranges, kind).push(memory_range_of(range))
        } else {
            kdata_memory(ranges, kind)
        }),
{
    reveal(Seq::filter);
    assert(ranges.push(range).drop_last() =~= ranges);
    assert(kdata_memory(ranges.push(range), kind) =~= (if range.kdata_type == kind {
        kdata_memory(ranges, kind).push(memory_range_of(range))
    } else {
        kdata_memory(ranges, kind)
    }));
}

/// Some range is of a kind that is not known.
pub open spec fn has_unknown_kdata(ranges: Seq<HekiRange>) -> bool {
    exists|i: int| 0 <= i < ranges.len() && (#[trigger] ranges[i]).kdata_type is Unknown
}

/// Sorts the ranges of kernel data by kind. Fails if one is of a kind that is not known.
pub fn collect_kdata(ranges: &Vec<HekiRange>) -> (r: Result<KdataLayout, VsmError>)
    requires
        ranges_well_formed(ranges@),
    ensures
        match r {
            Ok(layout) => !has_unknown_kdata(ranges@) && layout.describes(ranges@),
            Err(e) => has_unknown_kdata(ranges@) && e == VsmError::KernelDataTypeInvalid,
        },
{
    let mut layout = KdataLayout {
        system_certs: MemoryContainer::new(),
        kexec_trampoline: KexecMemoryMetadata::new(),
        patch_info: MemoryContainer::new(),
        kernel_info: MemoryContainer::new(),
        kernel_data: MemoryContainer::new(),
    };
    let mut i: usize = 0;
    proof {
        reveal(Seq::filter);
        let none = ranges@.take(0);
        assert(kdata_memory(none, HekiKdataType::SystemCerts) =~= Seq::empty());
        assert(kdata_memory(none, HekiKdataType::PatchInfo) =~= Seq::empty());
        assert(kdata_memory(none, HekiKdataType::KernelInfo) =~= Seq::empty());
        assert(kdata_memory(none, HekiKdataType::KernelData) =~= Seq::empty());
        assert(kdata_ranges(none, HekiKdataType::KexecTrampoline).map_values(
            |r: HekiRange| kexec_range_of(r),
        ) =~= Seq::empty());
    }
    while i < ranges.len()
        invariant
            i <= ranges@.len(),
            ranges_well_formed(ranges@),
            forall|j: int| 0 <= j < i ==> !((#[trigger] ranges@[j]).kdata_type is Unknown),
            layout.describes(ranges@.take(i as int)),
        decreases ranges@.len() - i,
    {
        let range = &ranges[i];
        let ghost done = ranges@.take(i as int);
        assert(ranges@[i as int].well_formed());
        proof {
            assert(ranges@.take(i + 1) =~= done.push(*range));
            lemma_kdata_push(done, *range, HekiKdataType::SystemCerts);
            lemma_kdata_push(done, *range, HekiKdataType::PatchInfo);
            lemma_kdata_push(done, *range, HekiKdataType::KernelInfo);
            lemma_kdata_push(done, *range, HekiKdataType::KernelData);
            lemma_kdata_push(done, *range, HekiKdataType::KexecTrampoline);
        }
        let extended = match range.kdata_type {
            HekiKdataType::SystemCerts => layout.system_certs.extend_range(range),
            HekiKdataType::KexecTrampoline => {
                layout.kexec_trampoline.insert_heki_range(range);
                Ok(())
            },
            HekiKdataType::PatchInfo => layout.patch_info.extend_range(range),
            HekiKdataType::KernelInfo => layout.kernel_info.extend_range(range),
            HekiKdataType::KernelData => layout.kernel_data.extend_range(range),
            HekiKdataType::Unknown => {
                return Err(VsmError::KernelDataTypeInvalid);
            },
            _ => Ok(()),
        };
        assert(extended is Ok);
        proof {
            let next = ranges@.take(i + 1);
            assert(layout.kexec_trampoline@ =~= kdata_ranges(
                next,
                HekiKdataType::KexecTrampoline,
            ).map_values(|r: HekiRange| kexec_range_of(r)));
        }
        i = i + 1;
    }
    assert(ranges@.take(i as int) =~= ranges@);
    Ok(layout)
}

/// Why the loaded bytes give no system certificates, if they give none.
pub open spec fn system_certs_error(bytes: Seq<u8>) -> Option<VsmError> {
    if bytes.len() == 0 {
        Some(VsmError::SystemCertificatesNotFound)
    } else {
        match certs_of(bytes) {
            Err(e) => Some(e),
            Ok(certs) => if certs.len() == 0 {
                Some(VsmError::SystemCertificatesInvalid)
            } else {
                None
            },
        }
    }
}

/// Keeps the system certificates that were loaded, unless some are kept already.
pub fn load_system_certificates(info: &mut Vtl0KernelInfo, system_certs: &MemoryContainer) -> (r:
    Result<(), VsmError>)
    ensures
        match system_certs_error(system_certs@) {
            Some(e) => r == Err::<(), _>(e) && *final(info) == *old(info),
            None => {
                &&& r is Ok
                &&& final(info).booted() == old(info).booted()
                &&& final(info).same_tables(*old(info))
                &&& final(info).certificates() == (match old(info).certificates() {
                    Some(kept) => Some(kept),
                    None => Some(certs_of(system_certs@)->Ok_0),
                })
            },
        },
{
    if system_certs.is_empty() {
        return Err(VsmError::SystemCertificatesNotFound);
    }
    let certs = match parse_certs(system_certs.as_slice()) {
        Ok(certs) => certs,
        Err(e) => return Err(e),
    };
    if certs.len() == 0 {
        return Err(VsmError::SystemCertificatesInvalid);
    }
    info.set_system_certificates(certs);
    Ok(())
}

/// Keeps system certificates that were already read; see [`load_system_certificates`].
pub fn keep_system_certificates(info: &mut Vtl0KernelInfo, certs: Vec<Vec<u8>>) -> (r: Result<
    (),
    VsmError,
>)
    ensures
        certs@.len() == 0 ==> r == Err::<(), _>(VsmError::SystemCertificatesInvalid)
            && *final(info) == *old(info),
        certs@.len() > 0 ==> {
            &&& r is Ok
            &&& final(info).booted() == old(info).booted()
            &&& final(info).same_tables(*old(info))
            &&& final(info).certificates() == (match old(info).certificates() {
                Some(kept) => Some(kept),
                None => Some(cert_bytes(certs@)),
            })
        },
{
    if certs.len() == 0 {
        return Err(VsmError::SystemCertificatesInvalid);
    }
    info.set_system_certificates(certs);
    Ok(())
}

/// The requests that give the same access to all kexec memory ranges.
pub fn protect_kexec_ranges(ranges: &[KexecMemoryRange], access: Access) -> (r: Vec<Protection>)
    ensures
        r@ == protect_all_spec(kexec_accesses(ranges@, access)),
{
    let mut requests: Vec<Protection> = Vec::new();
    let mut i: usize = 0;
    assert(kexec_accesses(ranges@.take(0), access) =~= Seq::empty());
    while i < ranges.len()
        invariant
            i <= ranges@.len(),
            requests@ == protect_all_spec(kexec_accesses(ranges@.take(i as int), access)),
        decreases ranges@.len() - i,
    {
        let frames = ranges[i].phys_frame_range;
        protect_physical_memory_range(frames, access, &mut requests);
        proof {
            let before = kexec_accesses(ranges@.take(i as int), access);
            lemma_protect_all_push(before, frames, access);
            assert(kexec_accesses(ranges@.take(i + 1), access) =~= before.push((frames, access)));
        }
        i = i + 1;
    }
    assert(ranges@.take(i as int) =~= ranges@);
    requests
}

/// The requests that make the kexec trampoline read-only.
pub open spec fn trampoline_protections(trampoline: KexecMemoryMetadata) -> Seq<Protection> {
    protect_all_spec(kexec_accesses(trampoline@, Access::Attr(mem_attr_read())))
}

/// Stores the patches that were announced for the kernel text, if any were. `header` decodes the number of
/// patches behind a header, `patch` a patch.
pub fn load_kernel_patches<H: Fn(&[u8]) -> Option<u64>, P: Fn(&[u8]) -> Option<HekiPatch>>(
    info: &mut Vtl0KernelInfo,
    patch_info: &MemoryContainer,
    sizes: PatchRecordSizes,
    header: &H,
    patch: &P,
) -> (r: Result<(), VsmError>)
    requires
        decodes_patches(sizes, *header, *patch),
    ensures
        final(info).booted() == old(info).booted(),
        final(info).certificates() == old(info).certificates(),
        final(info).module_memory_metadata == old(info).module_memory_metadata,
        final(info).kexec_metadata == old(info).kexec_metadata,
        final(info).crash_kexec_metadata == old(info).crash_kexec_metadata,
        final(info).symbols == old(info).symbols,
        final(info).gpl_symbols == old(info).gpl_symbols,
        if patch_info@.len() == 0 {
            r is Ok && final(info).precomputed_patches == old(info).precomputed_patches
        } else {
            exists|groups: Seq<PatchGroup>|
                {
                    let len = patch_info@.len() as int;
                    &&& #[trigger] groups_read(patch_info@, sizes, groups, 0, *header, *patch)
                    &&& final(info).precomputed_patches@ == stored_all(
                        old(info).precomputed_patches@,
                        announced(len, sizes, groups, 0).0,
                    )
                    &&& r == (match patch_data_result(len, sizes, groups) {
                        Ok(()) => Ok::<(), VsmError>(()),
                        Err(_) => Err(VsmError::Vtl0CopyFailed),
                    })
                }
        },
{
    if patch_info.is_empty() {
        return Ok(());
    }
    match info.precomputed_patches.insert_patch_data_from_bytes(
        patch_info.as_slice(),
        sizes,
        header,
        patch,
        None,
    ) {
        Ok(()) => Ok(()),
        Err(_) => Err(VsmError::Vtl0CopyFailed),
    }
}

/// Where a symbol table of the kernel lies.
#[derive(Clone, Copy)]
pub struct KernelSymtab {
    pub start: VirtAddr,
    pub end: VirtAddr,
}

impl KernelSymtab {
    /// The entries of the table can be looked for in `data`.
    pub open spec fn fits(self, data: MemoryContainer, layout: SymbolLayout) -> bool {
        table_fits(self.start@, self.end@, data, layout)
    }

    /// Adding the table's symbols to `before` gives `after`, or stops with the error.
    pub open spec fn added<S: Fn(&[u8]) -> Result<HekiKernelSymbol, VsmError>>(
        self,
        before: Map<Seq<char>, u64>,
        data: MemoryContainer,
        layout: SymbolLayout,
        symbol: S,
        after: Map<Seq<char>, u64>,
        error: Option<VsmError>,
    ) -> bool {
        table_added(before, self.start@, self.end@, data, layout, symbol, after, error)
    }
}

/// The two symbol tables that the kernel describes.
#[derive(Clone, Copy)]
pub struct KernelSymtabs {
    /// Symbols for modules under the GPL.
    pub gpl: KernelSymtab,
    /// Symbols for all modules.
    pub all: KernelSymtab,
}

/// The decoder takes the description of the kernel, and the entries of the tables that it gives can be
/// looked for in `data`.
pub open spec fn decodes_symtabs<K: Fn(&[u8]) -> Result<KernelSymtabs, VsmError>>(
    kernel_info: Seq<u8>,
    data: MemoryContainer,
    layout: SymbolLayout,
    symtabs: K,
) -> bool {
    &&& forall|b: &[u8]| b@ == kernel_info ==> #[trigger] call_requires(symtabs, (b,))
    &&& forall|b: &[u8], tabs: KernelSymtabs|
        b@ == kernel_info && #[trigger] call_ensures(symtabs, (b,), Ok(tabs)) ==> tabs.gpl.fits(
            data,
            layout,
        ) && tabs.all.fits(data, layout)
}

/// The exported symbols of both tables were added: first those for modules under the GPL, then, if none
/// of them was malformed, those for all modules. `tabs` are the tables that the kernel describes, or the
/// error of decoding the description.
pub open spec fn symtabs_added<S: Fn(&[u8]) -> Result<HekiKernelSymbol, VsmError>>(
    tabs: Result<KernelSymtabs, VsmError>,
    before: Vtl0KernelInfo,
    after: Vtl0KernelInfo,
    data: MemoryContainer,
    layout: SymbolLayout,
    symbol: S,
    result: Result<i64, VsmError>,
) -> bool {
    match tabs {
        Err(e) => {
            &&& result == Err::<i64, _>(e)
            &&& after.symbols@ == before.symbols@
            &&& after.gpl_symbols@ == before.gpl_symbols@
        },
        Ok(tabs) => {
            ||| exists|e: VsmError|
                {
                    &&& #[trigger] tabs.gpl.added(
                        before.gpl_symbols@,
                        data,
                        layout,
                        symbol,
                        after.gpl_symbols@,
                        Some(e),
                    )
                    &&& result == Err::<i64, _>(e)
                    &&& after.symbols@ == before.symbols@
                }
            ||| {
                &&& tabs.gpl.added(
                    before.gpl_symbols@,
                    data,
                    layout,
                    symbol,
                    after.gpl_symbols@,
                    None,
                )
                &&& tabs.all.added(
                    before.symbols@,
                    data,
                    layout,
                    symbol,
                    after.symbols@,
                    match result {
                        Ok(_) => None,
                        Err(e) => Some(e),
                    },
                )
                &&& result matches Ok(value) ==> value == 0
            }
        },
    }
}

/// Ends loading kernel data: adds the exported symbols. `symtabs` decodes the description of the kernel,
/// `symbol` an entry of a symbol table.
pub fn load_kernel_symbols<
    K: Fn(&[u8]) -> Result<KernelSymtabs, VsmError>,
    S: Fn(&[u8]) -> Result<HekiKernelSymbol, VsmError>,
>(
    info: &mut Vtl0KernelInfo,
    kernel_info: &MemoryContainer,
    kernel_data: &MemoryContainer,
    layout: SymbolLayout,
    symtabs: &K,
    symbol: &S,
) -> (r: Result<i64, VsmError>)
    requires
        kernel_data.well_formed(),
        decodes_symbols(layout, *symbol),
        decodes_symtabs(kernel_info@, *kernel_data, layout, *symtabs),
    ensures
        final(info).booted() == old(info).booted(),
        final(info).certificates() == old(info).certificates(),
        final(info).module_memory_metadata == old(info).module_memory_metadata,
        final(info).kexec_metadata == old(info).kexec_metadata,
        final(info).crash_kexec_metadata == old(info).crash_kexec_metadata,
        final(info).precomputed_patches == old(info).precomputed_patches,
        if kernel_info@.len() == 0 || kernel_data@.len() == 0 {
            r == Err::<i64, _>(VsmError::KernelSymbolTableNotFound) && final(info).symbols@ == old(
                info,
            ).symbols@ && final(info).gpl_symbols@ == old(info).gpl_symbols@
        } else {
            exists|tabs: Result<KernelSymtabs, VsmError>| #[trigger]
                reads(*symtabs, kernel_info@, tabs) && symtabs_added(
                    tabs,
                    *old(info),
                    *final(info),
                    *kernel_data,
                    layout,
                    *symbol,
                    r,
                )
        },
{
    if kernel_info.is_empty() || kernel_data.is_empty() {
        return Err(VsmError::KernelSymbolTableNotFound);
    }
    let slice = kernel_info.as_slice();
    let decoded = symtabs(slice);
    assert(reads(*symtabs, kernel_info@, decoded));
    let tabs = match decoded {
        Ok(tabs) => tabs,
        Err(e) => return Err(e),
    };
    match info.gpl_symbols.build_from_container(
        tabs.gpl.start,
        tabs.gpl.end,
        kernel_data,
        layout,
        symbol,
    ) {
        Ok(_) => {},
        Err(e) => {
            assert(tabs.gpl.added(
                old(info).gpl_symbols@,
                *kernel_data,
                layout,
                *symbol,
                info.gpl_symbols@,
                Some(e),
            ));
            return Err(e);
        },
    }
    match info.symbols.build_from_container(
        tabs.all.start,
        tabs.all.end,
        kernel_data,
        layout,
        symbol,
    ) {
        Ok(_) => Ok(0),
        Err(e) => Err(e),
    }
}

/// How far the loading of kernel data has come.
pub enum KdataPhase {
    /// The ranges of the data are looked for.
    Walk { walk: HekiPageWalk },
    /// The system certificates are copied.
    CopyCerts { layout: KdataLayout },
    /// The announced patches are copied.
    CopyPatchInfo { layout: KdataLayout },
    /// The description of the kernel is copied.
    CopyKernelInfo { layout: KdataLayout },
    /// The data of the kernel is copied.
    CopyKernelData { layout: KdataLayout },
    /// The certificates are kept, and the kexec trampoline is made read-only.
    Protect { layout: KdataLayout, run: ProtectRun },
    /// The announced patches are decoded.
    DecodePatches { layout: KdataLayout },
    /// The symbol tables of the kernel are decoded.
    DecodeSymbols { layout: KdataLayout },
    /// The operation is over.
    Done { result: Result<i64, VsmError> },
}

/// What the loading of kernel data needs next.
pub enum KdataAction {
    /// Copy the page of range descriptions at this address, then call [`KdataLoading::heki_page`].
    CopyHekiPage { pa: u64 },
    /// Copy the pages at these addresses in order, up to the first whose copy fails, then call
    /// [`KdataLoading::pages`].
    CopyPages { pas: Vec<u64> },
    /// Make this request, then call [`KdataLoading::protected`].
    Protect { request: Protection },
    /// Call [`KdataLoading::store_patches`] with decoders for the records.
    DecodePatches,
    /// Call [`KdataLoading::store_symbols`] with decoders for the description of the kernel and for an
    /// entry of a symbol table.
    DecodeSymbols,
    /// Answer VTL0.
    Finish { result: Result<i64, VsmError> },
}

/// What has happened during the loading of kernel data.
pub struct KdataEvidence {
    /// The ranges that VTL0 described.
    pub ranges: Seq<HekiRange>,
    /// The requests to the hypervisor that have succeeded.
    pub granted: Seq<Protection>,
}

/// The requests that make the kexec trampoline among the ranges read-only.
pub open spec fn kdata_protections(ranges: Seq<HekiRange>) -> Seq<Protection> {
    protect_all_spec(
        kexec_accesses(
            kdata_ranges(ranges, HekiKdataType::KexecTrampoline).map_values(
                |r: HekiRange| kexec_range_of(r),
            ),
            Access::Attr(mem_attr_read()),
        ),
    )
}

/// The loading of kernel data. All of it is copied into VTL1 before any of it is used; without
/// valid certificates nothing is used at all.
pub struct KdataLoading {
    pub phase: KdataPhase,
    pub evidence: Ghost<KdataEvidence>,
}

impl KdataLoading {
    /// The layout of the data, in the phases that have one.
    pub open spec fn layout(self) -> KdataLayout {
        match self.phase {
            KdataPhase::CopyCerts { layout } => layout,
            KdataPhase::CopyPatchInfo { layout } => layout,
            KdataPhase::CopyKernelInfo { layout } => layout,
            KdataPhase::CopyKernelData { layout } => layout,
            KdataPhase::Protect { layout, run: _ } => layout,
            KdataPhase::DecodePatches { layout } => layout,
            KdataPhase::DecodeSymbols { layout } => layout,
            _ => arbitrary(),
        }
    }

    /// The ranges that VTL0 described.
    pub open spec fn ranges(self) -> Seq<HekiRange> {
        self.evidence@.ranges
    }

    /// The requests to the hypervisor that have succeeded.
    pub open spec fn granted(self) -> Seq<Protection> {
        self.evidence@.granted
    }

    /// What is known when the operation is in its phase. In particular, patches and symbols are
    /// taken, and the call succeeds, only once certificates are kept and the trampoline is read-only.
    pub open spec fn holds(self, info: Vtl0KernelInfo) -> bool {
        match self.phase {
            KdataPhase::Walk { walk } => {
                &&& walk.well_formed()
                &&& walk.found().len() < walk.goal()
                &&& self.granted().len() == 0
            },
            KdataPhase::CopyCerts { layout } | KdataPhase::CopyPatchInfo { layout }
            | KdataPhase::CopyKernelInfo { layout } | KdataPhase::CopyKernelData { layout } => {
                &&& layout.well_formed()
                &&& layout.covers(self.ranges())
                &&& self.granted().len() == 0
            },
            KdataPhase::Protect { layout, run } => {
                &&& layout.well_formed()
                &&& layout.covers(self.ranges())
                &&& run.in_progress()
                &&& run.all() == trampoline_protections(layout.kexec_trampoline)
                &&& self.granted() == run.granted()
                &&& info.certificates() is Some
            },
            KdataPhase::DecodePatches { layout } => {
                &&& layout.well_formed()
                &&& layout.covers(self.ranges())
                &&& layout.patch_info@.len() > 0
                &&& self.granted() == kdata_protections(self.ranges())
                &&& info.certificates() is Some
            },
            KdataPhase::DecodeSymbols { layout } => {
                &&& layout.well_formed()
                &&& layout.covers(self.ranges())
                &&& layout.kernel_info@.len() > 0
                &&& layout.kernel_data@.len() > 0
                &&& self.granted() == kdata_protections(self.ranges())
                &&& info.certificates() is Some
            },
            KdataPhase::Done { result } => {
                &&& result is Ok ==> {
                    &&& info.certificates() is Some
                    &&& !has_unknown_kdata(self.ranges())
                    &&& self.granted() == kdata_protections(self.ranges())
                }
                &&& self.granted().is_prefix_of(kdata_protections(self.ranges()))
                &&& info.certificates() is None ==> self.granted().len() == 0
            },
        }
    }

    /// The operation failed.
    pub open spec fn failed(self, error: VsmError) -> bool {
        self.phase == (KdataPhase::Done { result: Err(error) })
    }

    /// The ranges were found.
    pub open spec fn collected(self, ranges: Seq<HekiRange>) -> bool {
        if has_unknown_kdata(ranges) {
            self.failed(VsmError::KernelDataTypeInvalid)
        } else {
            self.phase matches KdataPhase::CopyCerts { layout } && layout.describes(ranges)
        }
    }

    /// The certificates are kept: the trampoline is protected, if there is one.
    pub open spec fn certified(self, layout: KdataLayout) -> bool {
        if trampoline_protections(layout.kexec_trampoline).len() == 0 {
            self.trampoline_done(layout)
        } else {
            self.phase matches KdataPhase::Protect { layout: kept, run } && kept == layout
                && run.all() == trampoline_protections(layout.kexec_trampoline) && run.made() == 0
        }
    }

    /// The trampoline is protected: the patches are decoded, if there are any.
    pub open spec fn trampoline_done(self, layout: KdataLayout) -> bool {
        if layout.patch_info@.len() > 0 {
            self.phase == (KdataPhase::DecodePatches { layout })
        } else {
            self.patches_done(layout)
        }
    }

    /// The patches are stored: the symbol tables are decoded, and there must be some.
    pub open spec fn patches_done(self, layout: KdataLayout) -> bool {
        if layout.kernel_info@.len() == 0 || layout.kernel_data@.len() == 0 {
            self.failed(VsmError::KernelSymbolTableNotFound)
        } else {
            self.phase == (KdataPhase::DecodeSymbols { layout })
        }
    }

    /// What the operation needs next.
    pub fn action(&self, info: &Vtl0KernelInfo) -> (r: KdataAction)
        requires
            self.holds(*info),
        ensures
            match self.phase {
                KdataPhase::Walk { walk } => r == (KdataAction::CopyHekiPage {
                    pa: walk.position(),
                }),
                KdataPhase::CopyCerts { layout } => r matches KdataAction::CopyPages { pas } && pas@
                    == all_pages(layout.system_certs.ranges()),
                KdataPhase::CopyPatchInfo { layout } => r matches KdataAction::CopyPages { pas }
                    && pas@ == all_pages(layout.patch_info.ranges()),
                KdataPhase::CopyKernelInfo { layout } => r matches KdataAction::CopyPages { pas }
                    && pas@ == all_pages(layout.kernel_info.ranges()),
                KdataPhase::CopyKernelData { layout } => r matches KdataAction::CopyPages { pas }
                    && pas@ == all_pages(layout.kernel_data.ranges()),
                KdataPhase::Protect { layout: _, run } => r == (KdataAction::Protect {
                    request: run.all()[run.made()],
                }),
                KdataPhase::DecodePatches { layout: _ } => r == KdataAction::DecodePatches,
                KdataPhase::DecodeSymbols { layout: _ } => r == KdataAction::DecodeSymbols,
                KdataPhase::Done { result } => r == (KdataAction::Finish { result }),
            },
    {
        match &self.phase {
            KdataPhase::Walk { walk } => KdataAction::CopyHekiPage { pa: walk.current() },
            KdataPhase::CopyCerts { layout } => KdataAction::CopyPages {
                pas: layout.system_certs.page_addrs(),
            },
            KdataPhase::CopyPatchInfo { layout } => KdataAction::CopyPages {
                pas: layout.patch_info.page_addrs(),
            },
            KdataPhase::CopyKernelInfo { layout } => KdataAction::CopyPages {
                pas: layout.kernel_info.page_addrs(),
            },
            KdataPhase::CopyKernelData { layout } => KdataAction::CopyPages {
                pas: layout.kernel_data.page_addrs(),
            },
            KdataPhase::Protect { layout: _, run } => KdataAction::Protect {
                request: run.current(),
            },
            KdataPhase::DecodePatches { layout: _ } => KdataAction::DecodePatches,
            KdataPhase::DecodeSymbols { layout: _ } => KdataAction::DecodeSymbols,
            KdataPhase::Done { result } => KdataAction::Finish { result: *result },
        }
    }

    /// The data that was copied, while it is decoded.
    pub fn layout_ref(&self) -> (r: Option<&KdataLayout>)
        ensures
            r == (if self.phase is DecodePatches || self.phase is DecodeSymbols {
                Some(&self.layout())
            } else {
                None
            }),
    {
        match &self.phase {
            KdataPhase::DecodePatches { layout } => Some(layout),
            KdataPhase::DecodeSymbols { layout } => Some(layout),
            _ => None,
        }
    }

    fn fail(evidence: Ghost<KdataEvidence>, error: VsmError) -> (r: KdataLoading)
        ensures
            r.failed(error),
            r.evidence == evidence,
    {
        KdataLoading { phase: KdataPhase::Done { result: Err(error) }, evidence }
    }

    fn after_certs(evidence: Ghost<KdataEvidence>, layout: KdataLayout) -> (r: KdataLoading)
        requires
            layout.well_formed(),
            layout.covers(evidence@.ranges),
            evidence@.granted.len() == 0,
        ensures
            r.certified(layout),
            r.evidence == evidence,
            forall|info: Vtl0KernelInfo| info.certificates() is Some ==> #[trigger] r.holds(info),
    {
        let requests = protect_kexec_ranges(
            layout.kexec_trampoline.as_slice(),
            Access::Attr(MemAttr::read_only()),
        );
        if requests.len() == 0 {
            assert(evidence@.granted =~= kdata_protections(evidence@.ranges));
            return KdataLoading::after_trampoline(evidence, layout);
        }
        let run = ProtectRun::new(requests);
        assert(evidence@.granted =~= run.granted());
        KdataLoading { phase: KdataPhase::Protect { layout, run }, evidence }
    }

    fn after_trampoline(evidence: Ghost<KdataEvidence>, layout: KdataLayout) -> (r: KdataLoading)
        requires
            layout.well_formed(),
            layout.covers(evidence@.ranges),
            evidence@.granted == kdata_protections(evidence@.ranges),
        ensures
            r.trampoline_done(layout),
            r.evidence == evidence,
            forall|info: Vtl0KernelInfo| info.certificates() is Some ==> #[trigger] r.holds(info),
    {
        if !layout.patch_info.is_empty() {
            KdataLoading { phase: KdataPhase::DecodePatches { layout }, evidence }
        } else {
            KdataLoading::after_patches(evidence, layout)
        }
    }

    fn after_patches(evidence: Ghost<KdataEvidence>, layout: KdataLayout) -> (r: KdataLoading)
        requires
            layout.well_formed(),
            layout.covers(evidence@.ranges),
            evidence@.granted == kdata_protections(evidence@.ranges),
        ensures
            r.patches_done(layout),
            r.evidence == evidence,
            forall|info: Vtl0KernelInfo| info.certificates() is Some ==> #[trigger] r.holds(info),
    {
        if layout.kernel_info.is_empty() || layout.kernel_data.is_empty() {
            KdataLoading::fail(evidence, VsmError::KernelSymbolTableNotFound)
        } else {
            KdataLoading { phase: KdataPhase::DecodeSymbols { layout }, evidence }
        }
    }

    /// Takes the page of range descriptions that was copied, or nothing if the copy failed.
    pub fn heki_page(self, info: &Vtl0KernelInfo, page: Option<HekiPage>) -> (r: KdataLoading)
        requires
            self.holds(*info),
            self.phase is Walk,
        ensures
            r.holds(*info),
            r.granted() == self.granted(),
            match self.phase {
                KdataPhase::Walk { walk } => match page {
                    Some(p) if p.well_formed() => {
                        let found = walk.found() + p.ranges@;
                        if found.len() < walk.goal() {
                            &&& r.phase matches KdataPhase::Walk { walk: next }
                            &&& next.position() == p.next_pa
                            &&& next.goal() == walk.goal()
                            &&& next.found() == found
                        } else {
                            r.collected(found) && r.ranges() == found
                        }
                    },
                    _ => r.failed(VsmError::HekiPagesCopyFailed),
                },
                _ => true,
            },
    {
        let evidence = self.evidence;
        match self.phase {
            KdataPhase::Walk { walk } => {
                let mut walk = walk;
                match walk.accept(page) {
                    Ok(()) => {},
                    Err(e) => return KdataLoading::fail(evidence, e),
                }
                if walk.next_page().is_some() {
                    return KdataLoading { phase: KdataPhase::Walk { walk }, evidence };
                }
                let ranges = walk.into_ranges();
                let evidence = Ghost(KdataEvidence { ranges: ranges@, ..evidence@ });
                match collect_kdata(&ranges) {
                    Ok(layout) => KdataLoading {
                        phase: KdataPhase::CopyCerts { layout },
                        evidence,
                    },
                    Err(e) => KdataLoading::fail(evidence, e),
                }
            },
            phase => KdataLoading { phase, evidence },
        }
    }

    /// Takes the pages that were copied, up to the first whose copy failed. Once all data is
    /// copied, the certificates are kept.
    pub fn pages(self, info: &mut Vtl0KernelInfo, pages: &Vec<Vec<u8>>) -> (r: KdataLoading)
        requires
            self.holds(*old(info)),
            self.phase is CopyCerts || self.phase is CopyPatchInfo || self.phase is CopyKernelInfo
                || self.phase is CopyKernelData,
            whole_pages(pages@),
        ensures
            r.holds(*final(info)),
            r.evidence == self.evidence,
            final(info).booted() == old(info).booted(),
            final(info).same_tables(*old(info)),
            !(self.phase is CopyKernelData) ==> *final(info) == *old(info),
            match self.phase {
                KdataPhase::CopyCerts { layout } => if pages@.len() < total_pages(
                    layout.system_certs.ranges(),
                ) {
                    r.failed(VsmError::Vtl0CopyFailed)
                } else {
                    &&& r.phase is CopyPatchInfo
                    &&& r.layout() == (KdataLayout {
                        system_certs: r.layout().system_certs,
                        ..layout
                    })
                    &&& filled(layout.system_certs, r.layout().system_certs, pages@)
                },
                KdataPhase::CopyPatchInfo { layout } => if pages@.len() < total_pages(
                    layout.patch_info.ranges(),
                ) {
                    r.failed(VsmError::Vtl0CopyFailed)
                } else {
                    &&& r.phase is CopyKernelInfo
                    &&& r.layout() == (KdataLayout { patch_info: r.layout().patch_info, ..layout })
                    &&& filled(layout.patch_info, r.layout().patch_info, pages@)
                },
                KdataPhase::CopyKernelInfo { layout } => if pages@.len() < total_pages(
                    layout.kernel_info.ranges(),
                ) {
                    r.failed(VsmError::Vtl0CopyFailed)
                } else {
                    &&& r.phase is CopyKernelData
                    &&& r.layout() == (KdataLayout {
                        kernel_info: r.layout().kernel_info,
                        ..layout
                    })
                    &&& filled(layout.kernel_info, r.layout().kernel_info, pages@)
                },
                KdataPhase::CopyKernelData { layout } => if pages@.len() < total_pages(
                    layout.kernel_data.ranges(),
                ) {
                    r.failed(VsmError::Vtl0CopyFailed) && *final(info) == *old(info)
                } else {
                    match system_certs_error(layout.system_certs@) {
                        Some(e) => r.failed(e) && *final(info) == *old(info),
                        None => {
                            &&& final(info).certificates() == (match old(info).certificates() {
                                Some(kept) => Some(kept),
                                None => Some(certs_of(layout.system_certs@)->Ok_0),
                            })
                            &&& exists|next: KdataLayout|
                                {
                                    &&& next == (KdataLayout {
                                        kernel_data: next.kernel_data,
                                        ..layout
                                    })
                                    &&& filled(layout.kernel_data, next.kernel_data, pages@)
                                    &&& #[trigger] r.certified(next)
                                }
                        },
                    }
                },
                _ => true,
            },
    {
        let evidence = self.evidence;
        match self.phase {
            KdataPhase::CopyCerts { layout } => {
                let mut layout = layout;
                match fill_container(&mut layout.system_certs, pages) {
                    Ok(()) => KdataLoading {
                        phase: KdataPhase::CopyPatchInfo { layout },
                        evidence,
                    },
                    Err(e) => KdataLoading::fail(evidence, e),
                }
            },
            KdataPhase::CopyPatchInfo { layout } => {
                let mut layout = layout;
                match fill_container(&mut layout.patch_info, pages) {
                    Ok(()) => KdataLoading {
                        phase: KdataPhase::CopyKernelInfo { layout },
                        evidence,
                    },
                    Err(e) => KdataLoading::fail(evidence, e),
                }
            },
            KdataPhase::CopyKernelInfo { layout } => {
                let mut layout = layout;
                match fill_container(&mut layout.kernel_info, pages) {
                    Ok(()) => KdataLoading {
                        phase: KdataPhase::CopyKernelData { layout },
                        evidence,
                    },
                    Err(e) => KdataLoading::fail(evidence, e),
                }
            },
            KdataPhase::CopyKernelData { layout } => {
                let mut layout = layout;
                match fill_container(&mut layout.kernel_data, pages) {
                    Ok(()) => {},
                    Err(e) => return KdataLoading::fail(evidence, e),
                }
                match load_system_certificates(info, &layout.system_certs) {
                    Ok(()) => KdataLoading::after_certs(evidence, layout),
                    Err(e) => KdataLoading::fail(evidence, e),
                }
            },
            phase => KdataLoading { phase, evidence },
        }
    }

    /// Takes the outcome of a request.
    pub fn protected(self, info: &Vtl0KernelInfo, outcome: Result<(), HypervCallError>) -> (r:
        KdataLoading)
        requires
            self.holds(*info),
            self.phase is Protect,
        ensures
            r.holds(*info),
            r.ranges() == self.ranges(),
            match self.phase {
                KdataPhase::Protect { layout: _, run } if outcome is Ok => r.granted()
                    == self.granted().push(run.all()[run.made()]),
                _ => r.granted() == self.granted(),
            },
            match self.phase {
                KdataPhase::Protect { layout, run } => match outcome {
                    Err(e) => r.failed(VsmError::HypercallFailed(e)),
                    Ok(()) => if run.made() + 1 == run.all().len() {
                        r.trampoline_done(layout)
                    } else {
                        &&& r.phase matches KdataPhase::Protect { layout: kept, run: next }
                        &&& kept == layout
                        &&& next.all() == run.all()
                        &&& next.made() == run.made() + 1
                    },
                },
                _ => true,
            },
    {
        let evidence = self.evidence;
        match self.phase {
            KdataPhase::Protect { layout, run } => {
                match outcome {
                    Ok(()) => {},
                    Err(e) => return KdataLoading::fail(evidence, VsmError::HypercallFailed(e)),
                }
                let mut run = run;
                run.succeeded();
                let evidence = Ghost(KdataEvidence { granted: run.granted(), ..evidence@ });
                if run.is_done() {
                    assert(run.granted() =~= run.all());
                    return KdataLoading::after_trampoline(evidence, layout);
                }
                KdataLoading { phase: KdataPhase::Protect { layout, run }, evidence }
            },
            phase => KdataLoading { phase, evidence },
        }
    }

    /// Stores the patches that the copied data announces, with decoders for their records; see
    /// [`load_kernel_patches`].
    pub fn store_patches<H: Fn(&[u8]) -> Option<u64>, P: Fn(&[u8]) -> Option<HekiPatch>>(
        self,
        info: &mut Vtl0KernelInfo,
        sizes: PatchRecordSizes,
        header: &H,
        patch: &P,
    ) -> (r: KdataLoading)
        requires
            self.holds(*old(info)),
            self.phase is DecodePatches,
            decodes_patches(sizes, *header, *patch),
        ensures
            r.holds(*final(info)),
            r.evidence == self.evidence,
            final(info).booted() == old(info).booted(),
            final(info).certificates() == old(info).certificates(),
            final(info).module_memory_metadata == old(info).module_memory_metadata,
            final(info).kexec_metadata == old(info).kexec_metadata,
            final(info).crash_kexec_metadata == old(info).crash_kexec_metadata,
            final(info).symbols == old(info).symbols,
            final(info).gpl_symbols == old(info).gpl_symbols,
            exists|groups: Seq<PatchGroup>|
                {
                    let len = self.layout().patch_info@.len() as int;
                    &&& #[trigger] groups_read(
                        self.layout().patch_info@,
                        sizes,
                        groups,
                        0,
                        *header,
                        *patch,
                    )
                    &&& final(info).precomputed_patches@ == stored_all(
                        old(info).precomputed_patches@,
                        announced(len, sizes, groups, 0).0,
                    )
                    &&& match patch_data_result(len, sizes, groups) {
                        Ok(()) => r.patches_done(self.layout()),
                        Err(_) => r.failed(VsmError::Vtl0CopyFailed),
                    }
                },
    {
        let evidence = self.evidence;
        match self.phase {
            KdataPhase::DecodePatches { layout } => {
                let ghost bytes = layout.patch_info@;
                let ghost before = info.precomputed_patches@;
                let outcome = load_kernel_patches(info, &layout.patch_info, sizes, header, patch);
                proof {
                    let len = bytes.len() as int;
                    let groups = choose|groups: Seq<PatchGroup>|
                        {
                            &&& #[trigger] groups_read(bytes, sizes, groups, 0, *header, *patch)
                            &&& info.precomputed_patches@ == stored_all(
                                before,
                                announced(len, sizes, groups, 0).0,
                            )
                            &&& outcome is Ok == (patch_data_result(len, sizes, groups) is Ok)
                        };
                    assert(groups_read(self.layout().patch_info@, sizes, groups, 0, *header, *patch));
                }
                match outcome {
                    Ok(()) => KdataLoading::after_patches(evidence, layout),
                    Err(e) => KdataLoading::fail(evidence, e),
                }
            },
            phase => KdataLoading { phase, evidence },
        }
    }

    /// Adds the symbols that the copied data exports, with decoders for the description of the kernel and
    /// for an entry of a symbol table; see [`load_kernel_symbols`].
    pub fn store_symbols<
        K: Fn(&[u8]) -> Result<KernelSymtabs, VsmError>,
        S: Fn(&[u8]) -> Result<HekiKernelSymbol, VsmError>,
    >(
        self,
        info: &mut Vtl0KernelInfo,
        layout: SymbolLayout,
        symtabs: &K,
        symbol: &S,
    ) -> (r: KdataLoading)
        requires
            self.holds(*old(info)),
            self.phase is DecodeSymbols,
            decodes_symbols(layout, *symbol),
            decodes_symtabs(self.layout().kernel_info@, self.layout().kernel_data, layout, *symtabs),
        ensures
            r.holds(*final(info)),
            r.evidence == self.evidence,
            final(info).booted() == old(info).booted(),
            final(info).certificates() == old(info).certificates(),
            final(info).module_memory_metadata == old(info).module_memory_metadata,
            final(info).kexec_metadata == old(info).kexec_metadata,
            final(info).crash_kexec_metadata == old(info).crash_kexec_metadata,
            final(info).precomputed_patches == old(info).precomputed_patches,
            r.phase is Done,
            exists|tabs: Result<KernelSymtabs, VsmError>| #[trigger]
                reads(*symtabs, self.layout().kernel_info@, tabs) && symtabs_added(
                    tabs,
                    *old(info),
                    *final(info),
                    self.layout().kernel_data,
                    layout,
                    *symbol,
                    r.phase->result,
                ),
    {
        let evidence = self.evidence;
        match self.phase {
            KdataPhase::DecodeSymbols { layout: data } => {
                let result = load_kernel_symbols(
                    info,
                    &data.kernel_info,
                    &data.kernel_data,
                    layout,
                    symtabs,
                    symbol,
                );
                KdataLoading { phase: KdataPhase::Done { result }, evidence }
            },
            phase => KdataLoading { phase, evidence },
        }
    }
}

/// Starts loading kernel data, whose ranges are described at `pa`.
pub fn mshv_vsm_load_kdata(info: &Vtl0KernelInfo, pa: u64, nranges: u64) -> (r: KdataLoading)
    ensures
        r.holds(*info),
        r.ranges() == Seq::<HekiRange>::empty(),
        r.granted() == Seq::<Protection>::empty(),
        match load_kdata_error(*info, pa, nranges) {
            Some(e) => r.failed(e),
            None => {
                &&& r.phase matches KdataPhase::Walk { walk }
                &&& walk.position() == pa
                &&& walk.goal() == nranges
                &&& walk.found() == Seq::<HekiRange>::empty()
            },
        },
{
    let evidence = Ghost(KdataEvidence { ranges: Seq::empty(), granted: Seq::empty() });
    if !check_list_addr(pa, nranges) {
        return KdataLoading::fail(evidence, VsmError::InvalidInputAddress);
    }
    if info.check_end_of_boot() {
        return KdataLoading::fail(evidence, VsmError::OperationAfterEndOfBoot("loading kernel data"));
    }
    KdataLoading { phase: KdataPhase::Walk { walk: HekiPageWalk::new(pa, nranges) }, evidence }
}

/// Kernel data that was loaded has certificates that are kept, no range of an unknown kind, and a kexec
/// trampoline that VTL0 can only read.
pub proof fn law_loaded_kdata(op: KdataLoading, info: Vtl0KernelInfo)
    requires
        op.holds(info),
        op.phase == (KdataPhase::Done { result: Ok(0) }),
    ensures
        info.certificates() is Some,
        !has_unknown_kdata(op.ranges()),
        op.granted() == kdata_protections(op.ranges()),
{
}

/// The loading of kernel data asks the hypervisor for nothing but to make the kexec trampoline read-only,
/// range by range in order, and for nothing at all before certificates are kept.
pub proof fn law_kdata_requests(op: KdataLoading, info: Vtl0KernelInfo)
    requires
        op.holds(info),
    ensures
        op.granted().is_prefix_of(kdata_protections(op.ranges())),
        info.certificates() is None ==> op.granted().len() == 0,
{
    match op.phase {
        KdataPhase::Protect { layout: _, run } => {
            assert(run.granted().is_prefix_of(run.all()));
        },
        _ => {},
    }
}

} // verus!
