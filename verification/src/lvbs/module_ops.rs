//! Validating, initializing and unloading kernel modules of VTL0.
use vstd::prelude::*;

use crate::addr::PhysFrameRange;
use crate::lvbs::container::{all_bytes, all_pages, fill_container, filled, law_all_bytes_are_copied, memory_range_of, total_pages, whole_pages, MemoryContainer, MemoryRange, ModuleMemory};
use crate::lvbs::error::{HypervCallError, VerificationError, VsmError};
use crate::lvbs::heki::{lemma_protect_all_push, mem_attr_read, mem_attr_read_write, protect_all_spec, protect_physical_memory_range, protect_spec, ranges_well_formed, Access, HekiPage, HekiPageWalk, HekiRange, MemAttr, ModMemType, ProtectRun, Protection};
use crate::lvbs::kernel_info::Vtl0KernelInfo;
use crate::lvbs::module::{module_range_of, ModuleMemoryMetadata, ModuleMemoryRange};
use crate::lvbs::patch::{admitted, announced, decodes_patches, groups_read, keys_of_all, patch_data_result, stored_all, HekiPatch, PatchGroup, PatchModel, PatchRecordSizes};
use crate::lvbs::vsm::{check_list_addr, list_addr_ok};

verus! {

/// Larger modules are not validated.
pub const MODULE_VALIDATION_MAX_SIZE: usize = 0x400_0000;

/// Why a module cannot be validated now, if it cannot.
pub open spec fn validate_module_error(info: Vtl0KernelInfo, pa: u64, nranges: u64) -> Option<
    VsmError,
> {
    if !list_addr_ok(pa, nranges) {
        Some(VsmError::InvalidInputAddress)
    } else if info.certificates() is None {
        Some(VsmError::SystemCertificatesNotLoaded)
    } else {
        None
    }
}

/// The range holds memory of the loaded module, as opposed to its ELF file or its patches.
pub open spec fn is_module_memory(range: HekiRange) -> bool {
    !(range.mod_mem_type is ElfBuffer) && !(range.mod_mem_type is Patch)
}

/// Why a range cannot belong to a module, if it cannot: its kind is not known, or it holds memory
/// of the loaded module and is not aligned.
pub open spec fn module_range_error(range: HekiRange) -> Option<VsmError> {
    if range.mod_mem_type is Unknown {
        Some(VsmError::ModuleMemoryTypeInvalid)
    } else if is_module_memory(range) && !range.spec_is_aligned() {
        Some(VsmError::AddressNotPageAligned)
    } else {
        None
    }
}

/// The error of the first range that cannot belong to a module.
pub open spec fn first_module_error(ranges: Seq<HekiRange>) -> Option<VsmError>
    decreases ranges.len(),
{
    if ranges.len() == 0 {
        None
    } else if module_range_error(ranges[0]) is Some {
        module_range_error(ranges[0])
    } else {
        first_module_error(ranges.drop_first())
    }
}

/// The first error stands behind ranges without one.
proof fn lemma_first_module_error(ranges: Seq<HekiRange>, i: int)
    requires
        0 <= i <= ranges.len(),
        forall|j: int| 0 <= j < i ==> module_range_error(#[trigger] ranges[j]) is None,
        i < ranges.len() ==> module_range_error(ranges[i]) is Some,
    ensures
        first_module_error(ranges) == (if i < ranges.len() {
            module_range_error(ranges[i])
        } else {
            None
        }),
    decreases i,
{
    if i > 0 {
        let rest = ranges.drop_first();
        assert(module_range_error(ranges[0]) is None);
        assert forall|j: int| 0 <= j < i - 1 implies module_range_error(
            #[trigger] rest[j],
        ) is None by {
            assert(rest[j] == ranges[j + 1]);
        }
        lemma_first_module_error(rest, i - 1);
    }
}

/// The memory ranges of one kind.
pub open spec fn module_kind(ranges: Seq<HekiRange>, kind: ModMemType) -> Seq<MemoryRange> {
    ranges.filter(|r: HekiRange| r.mod_mem_type == kind).map_values(
        |r: HekiRange| memory_range_of(r),
    )
}

/// The memory of the loaded module.
pub open spec fn module_memory(ranges: Seq<HekiRange>) -> Seq<ModuleMemoryRange> {
    ranges.filter(|r: HekiRange| is_module_memory(r)).map_values(|r: HekiRange| module_range_of(r))
}

/// What VTL0 described of a module.
pub struct ModuleLayout {
    /// The memory of the loaded module.
    pub metadata: ModuleMemoryMetadata,
    /// The sections of the loaded module that are validated.
    pub memory: ModuleMemory,
    /// The module's ELF file, which is signed.
    pub elf: MemoryContainer,
    /// The patches that are announced for the module.
    pub patch_info: MemoryContainer,
}

impl ModuleLayout {
    /// All containers are well formed.
    pub open spec fn well_formed(self) -> bool {
        self.memory.well_formed() && self.elf.well_formed() && self.patch_info.well_formed()
    }

    /// The layout describes the ranges, and holds no bytes yet.
    pub open spec fn describes(self, ranges: Seq<HekiRange>) -> bool {
        &&& self.well_formed()
        &&& self.metadata.memory() == module_memory(ranges)
        &&& self.metadata.targets().len() == 0
        &&& self.elf.ranges() == module_kind(ranges, ModMemType::ElfBuffer)
        &&& self.patch_info.ranges() == module_kind(ranges, ModMemType::Patch)
        &&& self.memory.text_container().ranges() == module_kind(ranges, ModMemType::Text)
        &&& self.memory.init_text_container().ranges() == module_kind(ranges, ModMemType::InitText)
        &&& self.memory.init_rodata_container().ranges() == module_kind(
            ranges,
            ModMemType::InitRoData,
        )
        &&& self.elf@.len() == 0
        &&& self.patch_info@.len() == 0
        &&& self.memory.text_container()@.len() == 0
        &&& self.memory.init_text_container()@.len() == 0
        &&& self.memory.init_rodata_container()@.len() == 0
    }
}

/// One more range belongs to exactly its kind.
proof fn lemma_module_kind_push(ranges: Seq<HekiRange>, range: HekiRange, kind: ModMemType)
    ensures
        module_kind(ranges.push(range), kind) == (if range.mod_mem_type == kind {
            module_kind(ranges, kind).push(memory_range_of(range))
        } else {
            module_kind(ranges, kind)
        }),
{
    reveal(Seq::filter);
    assert(ranges.push(range).drop_last() =~= ranges);
    assert(module_kind(ranges.push(range), kind) =~= (if range.mod_mem_type == kind {
        module_kind(ranges, kind).push(memory_range_of(range))
    } else {
        module_kind(ranges, kind)
    }));
}

/// One more range is module memory unless it holds the ELF file or patches.
proof fn lemma_module_memory_push(ranges: Seq<HekiRange>, range: HekiRange)
    ensures
        module_memory(ranges.push(range)) == (if is_module_memory(range) {
            module_memory(ranges).push(module_range_of(range))
        } else {
            module_memory(ranges)
        }),
{
    reveal(Seq::filter);
    assert(ranges.push(range).drop_last() =~= ranges);
    assert(module_memory(ranges.push(range)) =~= (if is_module_memory(range) {
        module_memory(ranges).push(module_range_of(range))
    } else {
        module_memory(ranges)
    }));
}

/// Sorts the ranges of a module.
pub fn collect_module(ranges: &Vec<HekiRange>) -> (r: Result<ModuleLayout, VsmError>)
    requires
        ranges_well_formed(ranges@),
    ensures
        match first_module_error(ranges@) {
            Some(e) => r == Err::<ModuleLayout, _>(e),
            None => r matches Ok(layout) && layout.describes(ranges@),
        },
{
    let mut layout = ModuleLayout {
        metadata: ModuleMemoryMetadata::new(),
        memory: ModuleMemory::new(),
        elf: MemoryContainer::new(),
        patch_info: MemoryContainer::new(),
    };
    let mut i: usize = 0;
    proof {
        reveal(Seq::filter);
        let none = ranges@.take(0);
        assert(module_memory(none) =~= Seq::empty());
        assert(module_kind(none, ModMemType::ElfBuffer) =~= Seq::empty());
        assert(module_kind(none, ModMemType::Patch) =~= Seq::empty());
        assert(module_kind(none, ModMemType::Text) =~= Seq::empty());
        assert(module_kind(none, ModMemType::InitText) =~= Seq::empty());
        assert(module_kind(none, ModMemType::InitRoData) =~= Seq::empty());
        assert(layout.memory.text_container().ranges() =~= Seq::empty());
        assert(layout.memory.init_text_container().ranges() =~= Seq::empty());
        assert(layout.memory.init_rodata_container().ranges() =~= Seq::empty());
    }
    while i < ranges.len()
        invariant
            i <= ranges@.len(),
            ranges_well_formed(ranges@),
            forall|j: int| 0 <= j < i ==> module_range_error(#[trigger] ranges@[j]) is None,
            layout.describes(ranges@.take(i as int)),
        decreases ranges@.len() - i,
    {
        let range = &ranges[i];
        let ghost done = ranges@.take(i as int);
        assert(ranges@[i as int].well_formed());
        proof {
            assert(ranges@.take(i + 1) =~= done.push(*range));
            lemma_module_memory_push(done, *range);
            lemma_module_kind_push(done, *range, ModMemType::ElfBuffer);
            lemma_module_kind_push(done, *range, ModMemType::Patch);
            lemma_module_kind_push(done, *range, ModMemType::Text);
            lemma_module_kind_push(done, *range, ModMemType::InitText);
            lemma_module_kind_push(done, *range, ModMemType::InitRoData);
        }
        let extended = match range.mod_mem_type {
            ModMemType::Unknown => {
                proof {
                    lemma_first_module_error(ranges@, i as int);
                }
                return Err(VsmError::ModuleMemoryTypeInvalid);
            },
            ModMemType::ElfBuffer => layout.elf.extend_range(range),
            ModMemType::Patch => layout.patch_info.extend_range(range),
            _ => {
                if !range.is_aligned() {
                    proof {
                        lemma_first_module_error(ranges@, i as int);
                    }
                    return Err(VsmError::AddressNotPageAligned);
                }
                layout.metadata.insert_heki_range(range);
                layout.memory.extend_range(range.mod_mem_type, range)
            },
        };
        assert(extended is Ok);
        i = i + 1;
    }
    proof {
        lemma_first_module_error(ranges@, i as int);
        assert(ranges@.take(i as int) =~= ranges@);
    }
    Ok(layout)
}

/// Why an ELF file cannot be validated, if it cannot: it is too large.
pub open spec fn module_size_error(elf: MemoryContainer) -> Option<VsmError> {
    if elf@.len() > MODULE_VALIDATION_MAX_SIZE {
        Some(
            VsmError::ModuleElfSizeExceeded {
                size: elf@.len() as usize,
                max: MODULE_VALIDATION_MAX_SIZE,
            },
        )
    } else {
        None
    }
}

/// Whether the ELF file of a module is small enough to be validated.
fn check_module_size(elf: &MemoryContainer) -> (r: Result<(), VsmError>)
    ensures
        r == (match module_size_error(*elf) {
            Some(e) => Err::<(), VsmError>(e),
            None => Ok(()),
        }),
{
    let elf_size: usize = elf.len();
    if elf_size > MODULE_VALIDATION_MAX_SIZE {
        return Err(
            VsmError::ModuleElfSizeExceeded { size: elf_size, max: MODULE_VALIDATION_MAX_SIZE },
        );
    }
    Ok(())
}

/// The patches that a buffer of `len` bytes announces for a module, which decodes to `groups`, and that
/// target its executable memory.
pub open spec fn module_patches(
    len: int,
    sizes: PatchRecordSizes,
    groups: Seq<PatchGroup>,
    memory: Seq<ModuleMemoryRange>,
) -> Seq<PatchModel> {
    admitted(announced(len, sizes, groups, 0).0, Some(memory))
}

/// Stores the patches that were announced for a module, if any were. `header` decodes the number of
/// patches behind a header, `patch` a patch.
pub fn load_module_patches<H: Fn(&[u8]) -> Option<u64>, P: Fn(&[u8]) -> Option<HekiPatch>>(
    info: &mut Vtl0KernelInfo,
    patch_info: &MemoryContainer,
    sizes: PatchRecordSizes,
    header: &H,
    patch: &P,
    metadata: &mut ModuleMemoryMetadata,
) -> (r: Result<(), VsmError>)
    requires
        decodes_patches(sizes, *header, *patch),
    ensures
        final(info).booted() == old(info).booted(),
        final(info).certificates() == old(info).certificates(),
        final(info).module_memory_metadata == old(info).module_memory_metadata,
        final(info).kexec_metadata == old(info).kexec_metadata,
        final(info).crash_kexec_metadata == old(info).crash_kexec_metadata,
        final(info).symbols == old(info).symbols,
        final(info).gpl_symbols == old(info).gpl_symbols,
        final(metadata).memory() == old(metadata).memory(),
        if patch_info@.len() == 0 {
            &&& r is Ok
            &&& final(info).precomputed_patches == old(info).precomputed_patches
            &&& final(metadata).targets() == old(metadata).targets()
        } else {
            exists|groups: Seq<PatchGroup>|
                {
                    let len = patch_info@.len() as int;
                    let kept = module_patches(len, sizes, groups, old(metadata).memory());
                    &&& #[trigger] groups_read(patch_info@, sizes, groups, 0, *header, *patch)
                    &&& final(info).precomputed_patches@ == stored_all(
                        old(info).precomputed_patches@,
                        kept,
                    )
                    &&& final(metadata).targets() == old(metadata).targets() + keys_of_all(kept)
                    &&& r == (match patch_data_result(len, sizes, groups) {
                        Ok(()) => Ok::<(), VsmError>(()),
                        Err(_) => Err(VsmError::Vtl0CopyFailed),
                    })
                }
        },
{
    if patch_info.is_empty() {
        return Ok(());
    }
    match info.precomputed_patches.insert_patch_data_from_bytes(
        patch_info.as_slice(),
        sizes,
        header,
        patch,
        Some(metadata),
    ) {
        Ok(()) => Ok(()),
        Err(_) => Err(VsmError::Vtl0CopyFailed),
    }
}

/// Each range with the access that suits its kind.
pub open spec fn module_accesses(memory: Seq<ModuleMemoryRange>) -> Seq<(PhysFrameRange, Access)> {
    memory.map_values(
        |r: ModuleMemoryRange| (r.phys_frame_range, Access::ForModuleMemory(r.mod_mem_type)),
    )
}

/// Protects the memory of a validated module: the requests to make, in order.
pub fn protect_module(metadata: &ModuleMemoryMetadata) -> (r: Vec<Protection>)
    ensures
        r@ == protect_all_spec(module_accesses(metadata.memory())),
{
    let memory = metadata.as_slice();
    let mut requests: Vec<Protection> = Vec::new();
    let mut i: usize = 0;
    assert(module_accesses(memory@.take(0)) =~= Seq::empty());
    while i < memory.len()
        invariant
            i <= memory@.len(),
            requests@ == protect_all_spec(module_accesses(memory@.take(i as int))),
        decreases memory@.len() - i,
    {
        let range = memory[i];
        let access = Access::ForModuleMemory(range.mod_mem_type);
        protect_physical_memory_range(range.phys_frame_range, access, &mut requests);
        proof {
            let before = module_accesses(memory@.take(i as int));
            lemma_protect_all_push(before, range.phys_frame_range, access);
            assert(module_accesses(memory@.take(i + 1)) =~= before.push(
                (range.phys_frame_range, access),
            ));
        }
        i = i + 1;
    }
    assert(memory@.take(i as int) =~= memory@);
    requests
}

/// The requests that give the memory of a module the access that suits its kinds.
pub open spec fn module_protections(metadata: ModuleMemoryMetadata) -> Seq<Protection> {
    protect_all_spec(module_accesses(metadata.memory()))
}

/// How far the validation of a module has come.
pub enum ModulePhase {
    /// The ranges of the module are looked for.
    Walk { walk: HekiPageWalk },
    /// The ELF file is copied.
    CopyElf { layout: ModuleLayout },
    /// The announced patches are copied.
    CopyPatches { layout: ModuleLayout },
    /// The sections of the loaded module are copied.
    CopySections { layout: ModuleLayout },
    /// The signature of the ELF file is verified.
    Verify { layout: ModuleLayout },
    /// The sections are compared with the ELF file.
    Compare { layout: ModuleLayout },
    /// The announced patches are decoded.
    DecodePatches { layout: ModuleLayout },
    /// The memory of the module is protected.
    Protect { layout: ModuleLayout, run: ProtectRun },
    /// The operation is over; if it succeeded, its result is the token of the module.
    Done { result: Result<i64, VsmError> },
}

/// What the validation of a module needs next.
pub enum ModuleAction {
    /// Copy the page of range descriptions at this address, then call
    /// [`ModuleValidation::heki_page`].
    CopyHekiPage { pa: u64 },
    /// Copy the pages at these addresses in order, up to the first whose copy fails, then call
    /// [`ModuleValidation::pages`].
    CopyPages { pas: Vec<u64> },
    /// Copy the pages of the text, initialization text and read-only initialization data sections
    /// in the same way, then call [`ModuleValidation::sections`].
    CopySections { text: Vec<u64>, init_text: Vec<u64>, init_rodata: Vec<u64> },
    /// Verify the signature of the ELF file of [`ModuleValidation::layout_ref`], then call
    /// [`ModuleValidation::signature_verified`].
    VerifySignature,
    /// Compare the sections of [`ModuleValidation::layout_ref`] with its ELF file, then call
    /// [`ModuleValidation::compared`].
    Compare,
    /// Call [`ModuleValidation::store_patches`] with decoders for the records.
    DecodePatches,
    /// Make this request, then call [`ModuleValidation::protected`].
    Protect { request: Protection },
    /// Answer VTL0.
    Finish { result: Result<i64, VsmError> },
}

/// What speaks for a module that is being validated.
pub struct ModuleEvidence {
    /// The signature of its ELF file was found to be valid.
    pub signed: bool,
    /// Its sections were found to agree with its ELF file.
    pub agrees: bool,
    /// The requests that have succeeded so far, in order.
    pub granted: Seq<Protection>,
}

/// Nothing speaks for a module yet.
pub open spec fn no_evidence() -> ModuleEvidence {
    ModuleEvidence { signed: false, agrees: false, granted: Seq::empty() }
}

/// Everything but the registered modules and the announced patches is as it was.
pub open spec fn same_but_modules(before: Vtl0KernelInfo, after: Vtl0KernelInfo) -> bool {
    &&& after.booted() == before.booted()
    &&& after.certificates() == before.certificates()
    &&& after.kexec_metadata == before.kexec_metadata
    &&& after.crash_kexec_metadata == before.crash_kexec_metadata
    &&& after.symbols == before.symbols
    &&& after.gpl_symbols == before.gpl_symbols
}

/// The validation of a kernel module. A module gets a token only if its ELF file is signed, its
/// sections agree with the file, and its memory is protected.
pub struct ModuleValidation {
    pub phase: ModulePhase,
    /// What speaks for the module so far.
    pub evidence: Ghost<ModuleEvidence>,
}

impl ModuleValidation {
    /// The layout of the module, in the phases that have one.
    pub open spec fn layout(self) -> ModuleLayout {
        match self.phase {
            ModulePhase::CopyElf { layout } => layout,
            ModulePhase::CopyPatches { layout } => layout,
            ModulePhase::CopySections { layout } => layout,
            ModulePhase::Verify { layout } => layout,
            ModulePhase::Compare { layout } => layout,
            ModulePhase::DecodePatches { layout } => layout,
            ModulePhase::Protect { layout, run: _ } => layout,
            _ => arbitrary(),
        }
    }

    /// What has happened when the operation is in its phase. In particular, a module that gets a
    /// token is signed, agrees with its ELF file, and all its memory is protected.
    pub open spec fn holds(self, info: Vtl0KernelInfo) -> bool {
        let modules = info.module_memory_metadata;
        let evidence = self.evidence@;
        &&& modules.well_formed()
        &&& !(self.phase is Done) ==> 0 <= modules.next_token() < i64::MAX
        &&& match self.phase {
            ModulePhase::Walk { walk } => {
                &&& walk.well_formed()
                &&& walk.found().len() < walk.goal()
                &&& evidence.granted.len() == 0
            },
            ModulePhase::CopyElf { layout } | ModulePhase::CopyPatches { layout }
            | ModulePhase::CopySections { layout } | ModulePhase::Verify { layout } => {
                &&& layout.well_formed()
                &&& evidence.granted.len() == 0
            },
            ModulePhase::Compare { layout } => {
                &&& layout.well_formed()
                &&& evidence.signed
                &&& evidence.granted.len() == 0
            },
            ModulePhase::DecodePatches { layout } => {
                &&& layout.well_formed()
                &&& layout.patch_info@.len() > 0
                &&& evidence.signed && evidence.agrees
                &&& evidence.granted.len() == 0
            },
            ModulePhase::Protect { layout, run } => {
                &&& layout.well_formed()
                &&& evidence.signed && evidence.agrees
                &&& run.in_progress()
                &&& run.all() == module_protections(layout.metadata)
                &&& evidence.granted == run.granted()
            },
            ModulePhase::Done { result } => match result {
                Ok(token) => {
                    &&& evidence.signed && evidence.agrees
                    &&& modules@.dom().contains(token)
                    &&& evidence.granted == module_protections(modules@[token])
                },
                Err(_) => evidence.granted.len() > 0 ==> evidence.signed && evidence.agrees,
            },
        }
    }

    /// The operation failed.
    pub open spec fn failed(self, error: VsmError) -> bool {
        self.phase == (ModulePhase::Done { result: Err(error) })
    }

    /// The ranges were found.
    pub open spec fn collected(self, ranges: Seq<HekiRange>) -> bool {
        match first_module_error(ranges) {
            Some(e) => self.failed(e),
            None => self.phase matches ModulePhase::CopyElf { layout } && layout.describes(ranges),
        }
    }

    /// The module got the next token.
    pub open spec fn registered(
        self,
        before: Vtl0KernelInfo,
        after: Vtl0KernelInfo,
        metadata: ModuleMemoryMetadata,
    ) -> bool {
        let token = before.module_memory_metadata.next_token();
        &&& self.phase == (ModulePhase::Done { result: Ok(token) })
        &&& after.module_memory_metadata@ == before.module_memory_metadata@.insert(token, metadata)
        &&& after.module_memory_metadata.next_token() == token + 1
    }

    /// The memory of the module is to be protected, if it has any; then the module is registered.
    pub open spec fn protecting(
        self,
        before: Vtl0KernelInfo,
        after: Vtl0KernelInfo,
        layout: ModuleLayout,
    ) -> bool {
        if module_protections(layout.metadata).len() == 0 {
            self.registered(before, after, layout.metadata)
        } else {
            &&& self.phase matches ModulePhase::Protect { layout: kept, run }
            &&& kept == layout
            &&& run.all() == module_protections(layout.metadata)
            &&& run.made() == 0
            &&& after.module_memory_metadata == before.module_memory_metadata
        }
    }

    /// What the operation needs next.
    pub fn action(&self, info: &Vtl0KernelInfo) -> (r: ModuleAction)
        requires
            self.holds(*info),
        ensures
            match self.phase {
                ModulePhase::Walk { walk } => r == (ModuleAction::CopyHekiPage {
                    pa: walk.position(),
                }),
                ModulePhase::CopyElf { layout } => r matches ModuleAction::CopyPages { pas } && pas@
                    == all_pages(layout.elf.ranges()),
                ModulePhase::CopyPatches { layout } => r matches ModuleAction::CopyPages { pas }
                    && pas@ == all_pages(layout.patch_info.ranges()),
                ModulePhase::CopySections { layout } => {
                    &&& r matches ModuleAction::CopySections { text, init_text, init_rodata }
                    &&& text@ == all_pages(layout.memory.text_container().ranges())
                    &&& init_text@ == all_pages(layout.memory.init_text_container().ranges())
                    &&& init_rodata@ == all_pages(layout.memory.init_rodata_container().ranges())
                },
                ModulePhase::Verify { layout: _ } => r == ModuleAction::VerifySignature,
                ModulePhase::Compare { layout: _ } => r == ModuleAction::Compare,
                ModulePhase::DecodePatches { layout: _ } => r == ModuleAction::DecodePatches,
                ModulePhase::Protect { layout: _, run } => r == (ModuleAction::Protect {
                    request: run.all()[run.made()],
                }),
                ModulePhase::Done { result } => r == (ModuleAction::Finish { result }),
            },
    {
        match &self.phase {
            ModulePhase::Walk { walk } => ModuleAction::CopyHekiPage { pa: walk.current() },
            ModulePhase::CopyElf { layout } => ModuleAction::CopyPages {
                pas: layout.elf.page_addrs(),
            },
            ModulePhase::CopyPatches { layout } => ModuleAction::CopyPages {
                pas: layout.patch_info.page_addrs(),
            },
            ModulePhase::CopySections { layout } => {
                let (text, init_text, init_rodata) = layout.memory.page_addrs();
                ModuleAction::CopySections { text, init_text, init_rodata }
            },
            ModulePhase::Verify { layout: _ } => ModuleAction::VerifySignature,
            ModulePhase::Compare { layout: _ } => ModuleAction::Compare,
            ModulePhase::DecodePatches { layout: _ } => ModuleAction::DecodePatches,
            ModulePhase::Protect { layout: _, run } => ModuleAction::Protect {
                request: run.current(),
            },
            ModulePhase::Done { result } => ModuleAction::Finish { result: *result },
        }
    }

    /// What was copied of the module, while it is verified, compared or decoded.
    pub fn layout_ref(&self) -> (r: Option<&ModuleLayout>)
        ensures
            r == (if self.phase is Verify || self.phase is Compare || self.phase is DecodePatches {
                Some(&self.layout())
            } else {
                None
            }),
    {
        match &self.phase {
            ModulePhase::Verify { layout } => Some(layout),
            ModulePhase::Compare { layout } => Some(layout),
            ModulePhase::DecodePatches { layout } => Some(layout),
            _ => None,
        }
    }

    fn fail(evidence: Ghost<ModuleEvidence>, error: VsmError) -> (r: ModuleValidation)
        ensures
            r.failed(error),
            r.evidence == evidence,
    {
        ModuleValidation { phase: ModulePhase::Done { result: Err(error) }, evidence }
    }

    /// Registers a module whose memory is protected.
    fn register(
        info: &mut Vtl0KernelInfo,
        metadata: ModuleMemoryMetadata,
        evidence: Ghost<ModuleEvidence>,
    ) -> (r: ModuleValidation)
        requires
            old(info).module_memory_metadata.well_formed(),
            0 <= old(info).module_memory_metadata.next_token() < i64::MAX,
            evidence@.signed && evidence@.agrees,
            evidence@.granted == module_protections(metadata),
        ensures
            r.holds(*final(info)),
            r.evidence == evidence,
            r.registered(*old(info), *final(info), metadata),
            same_but_modules(*old(info), *final(info)),
            final(info).precomputed_patches == old(info).precomputed_patches,
    {
        let token: i64 = info.module_memory_metadata.register_module_memory_metadata(metadata);
        ModuleValidation { phase: ModulePhase::Done { result: Ok(token) }, evidence }
    }

    /// Starts to protect the memory of a module.
    fn protect(
        info: &mut Vtl0KernelInfo,
        layout: ModuleLayout,
        evidence: Ghost<ModuleEvidence>,
    ) -> (r: ModuleValidation)
        requires
            old(info).module_memory_metadata.well_formed(),
            0 <= old(info).module_memory_metadata.next_token() < i64::MAX,
            layout.well_formed(),
            evidence@.signed && evidence@.agrees,
            evidence@.granted.len() == 0,
        ensures
            r.holds(*final(info)),
            r.evidence == evidence,
            r.protecting(*old(info), *final(info), layout),
            same_but_modules(*old(info), *final(info)),
            final(info).precomputed_patches == old(info).precomputed_patches,
    {
        let requests = protect_module(&layout.metadata);
        if requests.len() == 0 {
            assert(evidence@.granted =~= module_protections(layout.metadata));
            return ModuleValidation::register(info, layout.metadata, evidence);
        }
        let run = ProtectRun::new(requests);
        assert(evidence@.granted =~= run.granted());
        ModuleValidation { phase: ModulePhase::Protect { layout, run }, evidence }
    }

    /// Takes the page of range descriptions that was copied, or nothing if the copy failed.
    pub fn heki_page(self, info: &Vtl0KernelInfo, page: Option<HekiPage>) -> (r: ModuleValidation)
        requires
            self.holds(*info),
            self.phase is Walk,
        ensures
            r.holds(*info),
            r.evidence == self.evidence,
            match self.phase {
                ModulePhase::Walk { walk } => match page {
                    Some(p) if p.well_formed() => {
                        let found = walk.found() + p.ranges@;
                        if found.len() < walk.goal() {
                            &&& r.phase matches ModulePhase::Walk { walk: next }
                            &&& next.position() == p.next_pa
                            &&& next.goal() == walk.goal()
                            &&& next.found() == found
                        } else {
                            r.collected(found)
                        }
                    },
                    _ => r.failed(VsmError::HekiPagesCopyFailed),
                },
                _ => true,
            },
    {
        let evidence = self.evidence;
        match self.phase {
            ModulePhase::Walk { walk } => {
                let mut walk = walk;
                match walk.accept(page) {
                    Ok(()) => {},
                    Err(e) => return ModuleValidation::fail(self.evidence, e),
                }
                if walk.next_page().is_some() {
                    return ModuleValidation { phase: ModulePhase::Walk { walk }, evidence };
                }
                match collect_module(&walk.into_ranges()) {
                    Ok(layout) => ModuleValidation {
                        phase: ModulePhase::CopyElf { layout },
                        evidence,
                    },
                    Err(e) => ModuleValidation::fail(self.evidence, e),
                }
            },
            phase => ModuleValidation { phase, evidence },
        }
    }

    /// Takes the pages of the ELF file or of the announced patches, up to the first whose copy
    /// failed.
    pub fn pages(self, info: &Vtl0KernelInfo, pages: &Vec<Vec<u8>>) -> (r: ModuleValidation)
        requires
            self.holds(*info),
            self.phase is CopyElf || self.phase is CopyPatches,
            whole_pages(pages@),
        ensures
            r.holds(*info),
            r.evidence == self.evidence,
            match self.phase {
                ModulePhase::CopyElf { layout } => if pages@.len() < total_pages(
                    layout.elf.ranges(),
                ) {
                    r.failed(VsmError::Vtl0CopyFailed)
                } else {
                    &&& r.phase is CopyPatches
                    &&& r.layout() == (ModuleLayout { elf: r.layout().elf, ..layout })
                    &&& filled(layout.elf, r.layout().elf, pages@)
                },
                ModulePhase::CopyPatches { layout } => if pages@.len() < total_pages(
                    layout.patch_info.ranges(),
                ) {
                    r.failed(VsmError::Vtl0CopyFailed)
                } else {
                    &&& r.phase is CopySections
                    &&& r.layout() == (ModuleLayout { patch_info: r.layout().patch_info, ..layout })
                    &&& filled(layout.patch_info, r.layout().patch_info, pages@)
                },
                _ => true,
            },
    {
        let evidence = self.evidence;
        match self.phase {
            ModulePhase::CopyElf { layout } => {
                let mut layout = layout;
                match fill_container(&mut layout.elf, pages) {
                    Ok(()) => ModuleValidation {
                        phase: ModulePhase::CopyPatches { layout },
                        evidence,
                    },
                    Err(e) => ModuleValidation::fail(self.evidence, e),
                }
            },
            ModulePhase::CopyPatches { layout } => {
                let mut layout = layout;
                match fill_container(&mut layout.patch_info, pages) {
                    Ok(()) => ModuleValidation {
                        phase: ModulePhase::CopySections { layout },
                        evidence,
                    },
                    Err(e) => ModuleValidation::fail(self.evidence, e),
                }
            },
            phase => ModuleValidation { phase, evidence },
        }
    }

    /// Takes the pages of the sections, for each section up to the first whose copy failed.
    pub fn sections(
        self,
        info: &Vtl0KernelInfo,
        text: &Vec<Vec<u8>>,
        init_text: &Vec<Vec<u8>>,
        init_rodata: &Vec<Vec<u8>>,
    ) -> (r: ModuleValidation)
        requires
            self.holds(*info),
            self.phase is CopySections,
            whole_pages(text@),
            whole_pages(init_text@),
            whole_pages(init_rodata@),
        ensures
            r.holds(*info),
            r.evidence == self.evidence,
            match self.phase {
                ModulePhase::CopySections { layout } => {
                    let memory = layout.memory;
                    if text@.len() < total_pages(memory.text_container().ranges())
                        || init_text@.len() < total_pages(memory.init_text_container().ranges())
                        || init_rodata@.len() < total_pages(
                        memory.init_rodata_container().ranges(),
                    ) {
                        r.failed(VsmError::Vtl0CopyFailed)
                    } else {
                        match module_size_error(layout.elf) {
                            Some(e) => r.failed(e),
                            None => {
                                let copied = r.layout().memory;
                                &&& r.phase is Verify
                                &&& r.layout() == (ModuleLayout { memory: copied, ..layout })
                                &&& copied.text_container()@ == memory.text_container()@
                                    + all_bytes(memory.text_container().ranges(), text@)
                                &&& copied.init_text_container()@ == memory.init_text_container()@
                                    + all_bytes(memory.init_text_container().ranges(), init_text@)
                                &&& copied.init_rodata_container()@
                                    == memory.init_rodata_container()@ + all_bytes(
                                    memory.init_rodata_container().ranges(),
                                    init_rodata@,
                                )
                            },
                        }
                    }
                },
                _ => true,
            },
    {
        let evidence = self.evidence;
        match self.phase {
            ModulePhase::CopySections { layout } => {
                let mut layout = layout;
                let ghost memory = layout.memory;
                match layout.memory.write_bytes_from_heki_range(text, init_text, init_rodata) {
                    Ok(()) => {},
                    Err(_) => return ModuleValidation::fail(self.evidence, VsmError::Vtl0CopyFailed),
                }
                proof {
                    law_all_bytes_are_copied(memory.text_container().ranges(), text@);
                    law_all_bytes_are_copied(memory.init_text_container().ranges(), init_text@);
                    law_all_bytes_are_copied(memory.init_rodata_container().ranges(), init_rodata@);
                }
                match check_module_size(&layout.elf) {
                    Ok(()) => ModuleValidation { phase: ModulePhase::Verify { layout }, evidence },
                    Err(e) => ModuleValidation::fail(self.evidence, e),
                }
            },
            phase => ModuleValidation { phase, evidence },
        }
    }

    /// Takes the outcome of verifying the signature of the ELF file.
    pub fn signature_verified(
        self,
        info: &Vtl0KernelInfo,
        signature: Result<(), VerificationError>,
    ) -> (r: ModuleValidation)
        requires
            self.holds(*info),
            self.phase is Verify,
        ensures
            r.holds(*info),
            r.evidence@ == (ModuleEvidence {
                signed: self.evidence@.signed || signature is Ok,
                ..self.evidence@
            }),
            match signature {
                Ok(()) => r.phase == (ModulePhase::Compare { layout: self.layout() }),
                Err(e) => r.failed(VsmError::SignatureVerificationFailed(e)),
            },
    {
        match signature {
            Ok(()) => {},
            Err(e) => return ModuleValidation::fail(self.evidence, VsmError::from(e)),
        }
        let evidence = Ghost(ModuleEvidence { signed: true, ..self.evidence@ });
        match self.phase {
            ModulePhase::Verify { layout } => ModuleValidation {
                phase: ModulePhase::Compare { layout },
                evidence,
            },
            phase => ModuleValidation { phase, evidence },
        }
    }

    /// Takes the outcome of comparing the sections with the ELF file: whether they agree, or
    /// nothing if they could not be compared.
    pub fn compared(self, info: &mut Vtl0KernelInfo, matches_elf: Option<bool>) -> (r:
        ModuleValidation)
        requires
            self.holds(*old(info)),
            self.phase is Compare,
        ensures
            r.holds(*final(info)),
            r.evidence@ == (ModuleEvidence {
                agrees: self.evidence@.agrees || matches_elf == Some(true),
                ..self.evidence@
            }),
            same_but_modules(*old(info), *final(info)),
            final(info).precomputed_patches == old(info).precomputed_patches,
            match matches_elf {
                None => r.failed(VsmError::Vtl0CopyFailed) && *final(info) == *old(info),
                Some(false) => r.failed(VsmError::ModuleRelocationInvalid) && *final(info) == *old(
                    info,
                ),
                Some(true) => if self.layout().patch_info@.len() > 0 {
                    r.phase == (ModulePhase::DecodePatches { layout: self.layout() })
                        && *final(info) == *old(info)
                } else {
                    r.protecting(*old(info), *final(info), self.layout())
                },
            },
    {
        match matches_elf {
            None => return ModuleValidation::fail(self.evidence, VsmError::Vtl0CopyFailed),
            Some(agrees) => if !agrees {
                return ModuleValidation::fail(self.evidence, VsmError::ModuleRelocationInvalid);
            },
        }
        let evidence = Ghost(ModuleEvidence { agrees: true, ..self.evidence@ });
        match self.phase {
            ModulePhase::Compare { layout } => if !layout.patch_info.is_empty() {
                ModuleValidation { phase: ModulePhase::DecodePatches { layout }, evidence }
            } else {
                ModuleValidation::protect(info, layout, evidence)
            },
            phase => ModuleValidation { phase, evidence },
        }
    }

    /// Stores the patches that the copied data announces, with decoders for their records; see
    /// [`load_module_patches`].
    pub fn store_patches<H: Fn(&[u8]) -> Option<u64>, P: Fn(&[u8]) -> Option<HekiPatch>>(
        self,
        info: &mut Vtl0KernelInfo,
        sizes: PatchRecordSizes,
        header: &H,
        patch: &P,
    ) -> (r: ModuleValidation)
        requires
            self.holds(*old(info)),
            self.phase is DecodePatches,
            decodes_patches(sizes, *header, *patch),
        ensures
            r.holds(*final(info)),
            r.evidence == self.evidence,
            same_but_modules(*old(info), *final(info)),
            exists|groups: Seq<PatchGroup>|
                {
                    let layout = self.layout();
                    let len = layout.patch_info@.len() as int;
                    let kept = module_patches(len, sizes, groups, layout.metadata.memory());
                    &&& #[trigger] groups_read(
                        self.layout().patch_info@,
                        sizes,
                        groups,
                        0,
                        *header,
                        *patch,
                    )
                    &&& final(info).precomputed_patches@ == stored_all(
                        old(info).precomputed_patches@,
                        kept,
                    )
                    &&& match patch_data_result(len, sizes, groups) {
                        Err(_) => {
                            &&& r.failed(VsmError::Vtl0CopyFailed)
                            &&& final(info).module_memory_metadata == old(
                                info,
                            ).module_memory_metadata
                        },
                        Ok(()) => exists|next: ModuleLayout|
                            {
                                &&& next == (ModuleLayout { metadata: next.metadata, ..layout })
                                &&& next.metadata.memory() == layout.metadata.memory()
                                &&& next.metadata.targets() == layout.metadata.targets()
                                    + keys_of_all(kept)
                                &&& #[trigger] r.protecting(*old(info), *final(info), next)
                            },
                    }
                },
    {
        let evidence = self.evidence;
        match self.phase {
            ModulePhase::DecodePatches { layout } => {
                let mut layout = layout;
                let ghost bytes = layout.patch_info@;
                let ghost before = info.precomputed_patches@;
                let ghost metadata = layout.metadata;
                let outcome = load_module_patches(
                    info,
                    &layout.patch_info,
                    sizes,
                    header,
                    patch,
                    &mut layout.metadata,
                );
                proof {
                    let len = bytes.len() as int;
                    let groups = choose|groups: Seq<PatchGroup>|
                        {
                            let kept = module_patches(len, sizes, groups, metadata.memory());
                            &&& #[trigger] groups_read(bytes, sizes, groups, 0, *header, *patch)
                            &&& info.precomputed_patches@ == stored_all(before, kept)
                            &&& layout.metadata.targets() == metadata.targets() + keys_of_all(kept)
                            &&& outcome is Ok == (patch_data_result(len, sizes, groups) is Ok)
                        };
                    assert(groups_read(self.layout().patch_info@, sizes, groups, 0, *header, *patch));
                }
                match outcome {
                    Ok(()) => {},
                    Err(e) => return ModuleValidation::fail(self.evidence, e),
                }
                let ghost next = layout;
                let ghost loaded = *info;
                let r = ModuleValidation::protect(info, layout, evidence);
                assert(r.protecting(loaded, *info, next));
                assert(r.protecting(*old(info), *info, next));
                r
            },
            phase => ModuleValidation { phase, evidence },
        }
    }

    /// Takes the outcome of a request. Once the memory of the module is protected, the module is
    /// registered.
    pub fn protected(self, info: &mut Vtl0KernelInfo, outcome: Result<(), HypervCallError>) -> (r:
        ModuleValidation)
        requires
            self.holds(*old(info)),
            self.phase is Protect,
        ensures
            r.holds(*final(info)),
            r.evidence@ == (ModuleEvidence {
                granted: match self.phase {
                    ModulePhase::Protect { layout: _, run } if outcome is Ok =>
                        self.evidence@.granted.push(run.all()[run.made()]),
                    _ => self.evidence@.granted,
                },
                ..self.evidence@
            }),
            same_but_modules(*old(info), *final(info)),
            final(info).precomputed_patches == old(info).precomputed_patches,
            match self.phase {
                ModulePhase::Protect { layout, run } => match outcome {
                    Err(e) => r.failed(VsmError::HypercallFailed(e)) && *final(info) == *old(info),
                    Ok(()) => if run.made() + 1 == run.all().len() {
                        r.registered(*old(info), *final(info), layout.metadata)
                    } else {
                        &&& r.phase matches ModulePhase::Protect { layout: kept, run: next }
                        &&& kept == layout
                        &&& next.all() == run.all()
                        &&& next.made() == run.made() + 1
                        &&& *final(info) == *old(info)
                    },
                },
                _ => true,
            },
    {
        match outcome {
            Ok(()) => {},
            Err(e) => return ModuleValidation::fail(self.evidence, VsmError::HypercallFailed(e)),
        }
        let ghost before = self.evidence@;
        match self.phase {
            ModulePhase::Protect { layout, run } => {
                let mut run = run;
                run.succeeded();
                let evidence = Ghost(ModuleEvidence { granted: run.granted(), ..before });
                if run.is_done() {
                    assert(run.granted() =~= run.all());
                    return ModuleValidation::register(info, layout.metadata, evidence);
                }
                ModuleValidation { phase: ModulePhase::Protect { layout, run }, evidence }
            },
            phase => ModuleValidation { phase, evidence: Ghost(before) },
        }
    }
}

/// Starts validating a kernel module, whose ranges are described at `pa`.
pub fn mshv_vsm_validate_guest_module(
    info: &Vtl0KernelInfo,
    pa: u64,
    nranges: u64,
    _flags: u64,
) -> (r: ModuleValidation)
    requires
        info.module_memory_metadata.well_formed(),
        0 <= info.module_memory_metadata.next_token() < i64::MAX,
    ensures
        r.holds(*info),
        r.evidence@ == no_evidence(),
        match validate_module_error(*info, pa, nranges) {
            Some(e) => r.failed(e),
            None => {
                &&& r.phase matches ModulePhase::Walk { walk }
                &&& walk.position() == pa
                &&& walk.goal() == nranges
                &&& walk.found() == Seq::<HekiRange>::empty()
            },
        },
{
    if !check_list_addr(pa, nranges) {
        return ModuleValidation::fail(Ghost(no_evidence()), VsmError::InvalidInputAddress);
    }
    if info.get_system_certificates().is_none() {
        return ModuleValidation::fail(Ghost(no_evidence()), VsmError::SystemCertificatesNotLoaded);
    }
    ModuleValidation {
        phase: ModulePhase::Walk { walk: HekiPageWalk::new(pa, nranges) },
        evidence: Ghost(no_evidence()),
    }
}

/// The access that a memory range gets once the module is initialized, if it changes: memory that
/// only initialization needs becomes writable and not executable, so that VTL0 can free it, and
/// what must not change after initialization becomes read-only.
pub open spec fn after_init_access(kind: ModMemType) -> Option<Access> {
    match kind {
        ModMemType::InitText | ModMemType::InitData | ModMemType::InitRoData => Some(
            Access::Attr(mem_attr_read_write()),
        ),
        ModMemType::RoAfterInit => Some(Access::Attr(mem_attr_read())),
        _ => None,
    }
}

/// The ranges whose access changes once the module is initialized.
pub open spec fn after_init_accesses(memory: Seq<ModuleMemoryRange>) -> Seq<
    (PhysFrameRange, Access),
>
    decreases memory.len(),
{
    if memory.len() == 0 {
        Seq::empty()
    } else {
        let before = after_init_accesses(memory.drop_last());
        match after_init_access(memory.last().mod_mem_type) {
            Some(access) => before.push((memory.last().phys_frame_range, access)),
            None => before,
        }
    }
}

/// Ends the initialization of a module: the requests to make, in order.
pub fn mshv_vsm_free_guest_module_init(info: &Vtl0KernelInfo, token: i64) -> (r: Result<
    Vec<Protection>,
    VsmError,
>)
    ensures
        ({
            let modules = info.module_memory_metadata@;
            match r {
                Ok(requests) => modules.dom().contains(token) && requests@ == protect_all_spec(
                    after_init_accesses(modules[token].memory()),
                ),
                Err(e) => !modules.dom().contains(token) && e == VsmError::ModuleTokenInvalid,
            }
        }),
{
    let metadata = match info.module_memory_metadata.iter_entry(token) {
        Some(metadata) => metadata,
        None => return Err(VsmError::ModuleTokenInvalid),
    };
    let memory = metadata.as_slice();
    let mut requests: Vec<Protection> = Vec::new();
    let mut i: usize = 0;
    while i < memory.len()
        invariant
            i <= memory@.len(),
            requests@ == protect_all_spec(after_init_accesses(memory@.take(i as int))),
        decreases memory@.len() - i,
    {
        let range = memory[i];
        let access = match range.mod_mem_type {
            ModMemType::InitText | ModMemType::InitData | ModMemType::InitRoData => Some(
                Access::Attr(MemAttr::read_write()),
            ),
            ModMemType::RoAfterInit => Some(Access::Attr(MemAttr::read_only())),
            _ => None,
        };
        proof {
            assert(memory@.take(i + 1).drop_last() =~= memory@.take(i as int));
        }
        if let Some(access) = access {
            protect_physical_memory_range(range.phys_frame_range, access, &mut requests);
            proof {
                lemma_protect_all_push(
                    after_init_accesses(memory@.take(i as int)),
                    range.phys_frame_range,
                    access,
                );
            }
        }
        i = i + 1;
    }
    assert(memory@.take(i as int) =~= memory@);
    Ok(requests)
}

/// Each range with the same access.
pub open spec fn uniform_accesses(memory: Seq<ModuleMemoryRange>, access: Access) -> Seq<
    (PhysFrameRange, Access),
> {
    memory.map_values(|r: ModuleMemoryRange| (r.phys_frame_range, access))
}

/// The requests that make all memory of a module writable and not executable.
pub open spec fn module_liftings(metadata: ModuleMemoryMetadata) -> Seq<Protection> {
    protect_all_spec(uniform_accesses(metadata.memory(), Access::Attr(mem_attr_read_write())))
}

/// Makes all memory of a module writable and not executable: the requests to make, in order.
fn lift_module(metadata: &ModuleMemoryMetadata) -> (r: Vec<Protection>)
    ensures
        r@ == module_liftings(*metadata),
{
    let memory = metadata.as_slice();
    let access = Access::Attr(MemAttr::read_write());
    let mut requests: Vec<Protection> = Vec::new();
    let mut i: usize = 0;
    assert(uniform_accesses(memory@.take(0), access) =~= Seq::empty());
    while i < memory.len()
        invariant
            i <= memory@.len(),
            requests@ == protect_all_spec(uniform_accesses(memory@.take(i as int), access)),
        decreases memory@.len() - i,
    {
        let frames = memory[i].phys_frame_range;
        protect_physical_memory_range(frames, access, &mut requests);
        proof {
            let before = uniform_accesses(memory@.take(i as int), access);
            lemma_protect_all_push(before, frames, access);
            assert(uniform_accesses(memory@.take(i + 1), access) =~= before.push((frames, access)));
        }
        i = i + 1;
    }
    assert(memory@.take(i as int) =~= memory@);
    requests
}

/// The module with the token is gone, and with it the patches that were announced for it.
pub open spec fn module_forgotten(before: Vtl0KernelInfo, after: Vtl0KernelInfo, token: i64) -> bool {
    &&& after.module_memory_metadata.well_formed()
    &&& after.module_memory_metadata@ == before.module_memory_metadata@.remove(token)
    &&& after.module_memory_metadata.next_token() == before.module_memory_metadata.next_token()
    &&& after.precomputed_patches@ == before.precomputed_patches@.remove_keys(
        before.module_memory_metadata@[token].targets().to_set(),
    )
    &&& same_but_modules(before, after)
}

/// Forgets a module and the patches that were announced for it.
fn forget_module(info: &mut Vtl0KernelInfo, token: i64)
    requires
        old(info).module_memory_metadata.well_formed(),
        old(info).module_memory_metadata@.dom().contains(token),
    ensures
        module_forgotten(*old(info), *final(info), token),
{
    if let Some(patch_targets) = info.module_memory_metadata.get_patch_targets(token) {
        info.precomputed_patches.remove_patch_data(&patch_targets);
    }
    info.module_memory_metadata.remove(token);
}

/// How far the unloading of a module has come.
pub enum UnloadPhase {
    /// The memory of the module is made writable and not executable, so that VTL0 can unload it.
    Lift { token: i64, run: ProtectRun },
    /// The operation is over.
    Done { result: Result<i64, VsmError> },
}

/// The unloading of a module. A module is forgotten only once none of its memory is executable.
pub struct ModuleUnloading {
    pub phase: UnloadPhase,
}

impl ModuleUnloading {
    /// The module is known as long as its memory is being lifted.
    pub open spec fn holds(self, info: Vtl0KernelInfo) -> bool {
        &&& info.module_memory_metadata.well_formed()
        &&& match self.phase {
            UnloadPhase::Lift { token, run } => {
                &&& info.module_memory_metadata@.dom().contains(token)
                &&& run.in_progress()
                &&& run.all() == module_liftings(info.module_memory_metadata@[token])
            },
            UnloadPhase::Done { result: _ } => true,
        }
    }

    /// The request to make next, or the result once the operation is over.
    pub fn action(&self, info: &Vtl0KernelInfo) -> (r: Result<Protection, Result<i64, VsmError>>)
        requires
            self.holds(*info),
        ensures
            r == (match self.phase {
                UnloadPhase::Lift { token: _, run } => Ok::<Protection, Result<i64, VsmError>>(
                    run.all()[run.made()],
                ),
                UnloadPhase::Done { result } => Err(result),
            }),
    {
        match &self.phase {
            UnloadPhase::Lift { token: _, run } => Ok(run.current()),
            UnloadPhase::Done { result } => Err(*result),
        }
    }

    /// Takes the outcome of a request. Once all have succeeded, the module and the patches that
    /// were announced for it are forgotten.
    pub fn protected(self, info: &mut Vtl0KernelInfo, outcome: Result<(), HypervCallError>) -> (r:
        ModuleUnloading)
        requires
            self.holds(*old(info)),
            self.phase is Lift,
        ensures
            r.holds(*final(info)),
            match self.phase {
                UnloadPhase::Lift { token, run } => match outcome {
                    Err(e) => {
                        &&& r.phase == (UnloadPhase::Done {
                            result: Err(VsmError::HypercallFailed(e)),
                        })
                        &&& *final(info) == *old(info)
                    },
                    Ok(()) => if run.made() + 1 == run.all().len() {
                        &&& r.phase == (UnloadPhase::Done { result: Ok(0) })
                        &&& module_forgotten(*old(info), *final(info), token)
                    } else {
                        &&& r.phase matches UnloadPhase::Lift { token: same, run: next }
                        &&& same == token
                        &&& next.all() == run.all()
                        &&& next.made() == run.made() + 1
                        &&& *final(info) == *old(info)
                    },
                },
                _ => true,
            },
    {
        match self.phase {
            UnloadPhase::Lift { token, run } => {
                match outcome {
                    Ok(()) => {},
                    Err(e) => return ModuleUnloading {
                        phase: UnloadPhase::Done { result: Err(VsmError::HypercallFailed(e)) },
                    },
                }
                let mut run = run;
                run.succeeded();
                if run.is_done() {
                    forget_module(info, token);
                    return ModuleUnloading { phase: UnloadPhase::Done { result: Ok(0) } };
                }
                ModuleUnloading { phase: UnloadPhase::Lift { token, run } }
            },
            phase => ModuleUnloading { phase },
        }
    }
}

/// Starts unloading a module.
pub fn mshv_vsm_unload_guest_module(info: &mut Vtl0KernelInfo, token: i64) -> (r: ModuleUnloading)
    requires
        old(info).module_memory_metadata.well_formed(),
    ensures
        r.holds(*final(info)),
        ({
            let modules = old(info).module_memory_metadata@;
            let requests = module_liftings(modules[token]);
            if !modules.dom().contains(token) {
                &&& r.phase == (UnloadPhase::Done { result: Err(VsmError::ModuleTokenInvalid) })
                &&& *final(info) == *old(info)
            } else if requests.len() == 0 {
                &&& r.phase == (UnloadPhase::Done { result: Ok(0) })
                &&& module_forgotten(*old(info), *final(info), token)
            } else {
                &&& r.phase matches UnloadPhase::Lift { token: same, run }
                &&& same == token
                &&& run.all() == requests
                &&& run.made() == 0
                &&& *final(info) == *old(info)
            }
        }),
{
    let requests = match info.module_memory_metadata.iter_entry(token) {
        Some(metadata) => lift_module(metadata),
        None => return ModuleUnloading {
            phase: UnloadPhase::Done { result: Err(VsmError::ModuleTokenInvalid) },
        },
    };
    if requests.len() == 0 {
        forget_module(info, token);
        return ModuleUnloading { phase: UnloadPhase::Done { result: Ok(0) } };
    }
    let run = ProtectRun::new(requests);
    ModuleUnloading { phase: UnloadPhase::Lift { token, run } }
}

/// A module that got a token is registered under it, its ELF file is signed, its sections agree with the
/// file, and each range of its memory has the protection of its kind.
pub proof fn law_loaded_module(op: ModuleValidation, info: Vtl0KernelInfo, token: i64)
    requires
        op.holds(info),
        op.phase == (ModulePhase::Done { result: Ok(token) }),
    ensures
        info.module_memory_metadata@.dom().contains(token),
        op.evidence@.signed,
        op.evidence@.agrees,
        op.evidence@.granted == module_protections(info.module_memory_metadata@[token]),
{
}

/// Nothing is asked of the hypervisor for a module that is not signed or does not agree with its ELF
/// file.
pub proof fn law_unproven_module_gets_nothing(op: ModuleValidation, info: Vtl0KernelInfo)
    requires
        op.holds(info),
        !op.evidence@.signed || !op.evidence@.agrees,
    ensures
        op.evidence@.granted.len() == 0,
        op.phase matches ModulePhase::Done { result } ==> result is Err,
{
}

/// Memory that a module needed only for its initialization never stays executable behind it, and
/// no range becomes both writable and executable.
pub proof fn law_after_init_not_executable(kind: ModMemType)
    ensures
        kind is InitText ==> after_init_access(kind) == Some(Access::Attr(mem_attr_read_write())),
        match after_init_access(kind) {
            Some(Access::Attr(attr)) => attr.read && !attr.execute,
            _ => true,
        },
{
}

/// What becomes of a range once its module is initialized: memory that only the initialization needed can be
/// read and written but not executed, whatever it held; memory that is read-only from then on can only be
/// read; all other memory is left alone.
pub proof fn law_access_after_init(kind: ModMemType)
    ensures
        kind is InitText || kind is InitData || kind is InitRoData ==> after_init_access(kind) == Some(
            Access::Attr(MemAttr { read: true, write: true, execute: false }),
        ),
        kind is RoAfterInit ==> after_init_access(kind) == Some(
            Access::Attr(MemAttr { read: true, write: false, execute: false }),
        ),
        !(kind is InitText) && !(kind is InitData) && !(kind is InitRoData) && !(kind is RoAfterInit)
            ==> after_init_access(kind) is None,
{
}

/// The request gives the range read and write access if only the initialization of its module needed it, and
/// read access if it is read-only from then on.
pub open spec fn frees(request: Protection, range: ModuleMemoryRange) -> bool {
    &&& request.pa == range.phys_frame_range.start
    &&& request.num_pages == range.phys_frame_range.spec_count()
    &&& match range.mod_mem_type {
        ModMemType::InitText | ModMemType::InitData | ModMemType::InitRoData => request.access
            == Access::Attr(MemAttr { read: true, write: true, execute: false }),
        ModMemType::RoAfterInit => request.access == Access::Attr(
            MemAttr { read: true, write: false, execute: false },
        ),
        _ => false,
    }
}

/// The request frees one of the ranges.
pub open spec fn frees_one(request: Protection, memory: Seq<ModuleMemoryRange>) -> bool {
    exists|i: int| 0 <= i < memory.len() && frees(request, #[trigger] memory[i])
}

/// One of the requests frees the range.
pub open spec fn is_freed(range: ModuleMemoryRange, requests: Seq<Protection>) -> bool {
    exists|k: int| 0 <= k < requests.len() && frees(#[trigger] requests[k], range)
}

/// Once a module is initialized, each of its ranges that only the initialization needed, or that is
/// read-only from then on, gets its access by a request of its own, unless it is empty; and no request is
/// made for any other range.
pub proof fn law_init_memory_is_freed(memory: Seq<ModuleMemoryRange>)
    ensures
        ({
            let requests = protect_all_spec(after_init_accesses(memory));
            &&& forall|k: int| 0 <= k < requests.len() ==> frees_one(#[trigger] requests[k], memory)
            &&& forall|i: int|
                0 <= i < memory.len() && (#[trigger] memory[i]).phys_frame_range.spec_count() > 0 && (
                memory[i].mod_mem_type is InitText || memory[i].mod_mem_type is InitData
                    || memory[i].mod_mem_type is InitRoData || memory[i].mod_mem_type is RoAfterInit)
                    ==> is_freed(memory[i], requests)
        }),
    decreases memory.len(),
{
    let requests = protect_all_spec(after_init_accesses(memory));
    if memory.len() > 0 {
        let rest = memory.drop_last();
        let last = memory.last();
        let before = protect_all_spec(after_init_accesses(rest));
        law_init_memory_is_freed(rest);
        let added = match after_init_access(last.mod_mem_type) {
            Some(access) => {
                lemma_protect_all_push(after_init_accesses(rest), last.phys_frame_range, access);
                protect_spec(last.phys_frame_range, access)
            },
            None => Seq::empty(),
        };
        assert(requests =~= before + added);
        assert forall|k: int| 0 <= k < requests.len() implies frees_one(
            #[trigger] requests[k],
            memory,
        ) by {
            if k < before.len() {
                assert(requests[k] == before[k]);
                let i = choose|i: int| 0 <= i < rest.len() && frees(before[k], #[trigger] rest[i]);
                assert(frees(requests[k], memory[i]));
            } else {
                assert(requests[k] == added[k - before.len()]);
                assert(frees(requests[k], memory[memory.len() - 1]));
            }
        }
        assert forall|i: int|
            0 <= i < memory.len() && (#[trigger] memory[i]).phys_frame_range.spec_count() > 0 && (
            memory[i].mod_mem_type is InitText || memory[i].mod_mem_type is InitData
                || memory[i].mod_mem_type is InitRoData || memory[i].mod_mem_type is RoAfterInit) implies is_freed(
            memory[i],
            requests,
        ) by {
            if i < rest.len() {
                assert(rest[i] == memory[i]);
                let k = choose|k: int| 0 <= k < before.len() && frees(#[trigger] before[k], rest[i]);
                assert(requests[k] == before[k]);
                assert(frees(requests[k], memory[i]));
            } else {
                let k = before.len() as int;
                assert(requests[k] == added[0]);
                assert(frees(requests[k], memory[i]));
            }
        }
    }
}

} // verus!
