//! Validating kernel images for kexec.
use vstd::prelude::*;
use vstd::slice::slice_subrange;

use crate::addr::{is_canonical, is_phys, page_down, PhysFrameRange};
use crate::bytes::reads;
use crate::lvbs::container::{all_pages, fill_container, filled, memory_range_of, total_pages, whole_pages, MemoryContainer, MemoryRange};
use crate::lvbs::error::{HypervCallError, VerificationError, VsmError};
use crate::lvbs::heki::{mem_attr_read, mem_attr_read_write, protect_all_spec, ranges_well_formed, Access, HekiKexecType, HekiPage, HekiPageWalk, HekiRange, MemAttr, ProtectRun, Protection};
use crate::lvbs::kdata::protect_kexec_ranges;
use crate::lvbs::kernel_info::Vtl0KernelInfo;
use crate::lvbs::module::{kexec_accesses, kexec_range_of, KexecMemoryMetadata, KexecMemoryRange};

verus! {

/// The memory of the kexec image that is loaded: for crashes or for a regular restart.
pub open spec fn kexec_memory(info: Vtl0KernelInfo, crash: u64) -> Seq<KexecMemoryRange> {
    if crash != 0 {
        info.crash_kexec_metadata@
    } else {
        info.kexec_metadata@
    }
}

/// The requests that write-protect kexec memory.
pub open spec fn protections(memory: Seq<KexecMemoryRange>) -> Seq<Protection> {
    protect_all_spec(kexec_accesses(memory, Access::Attr(mem_attr_read())))
}

/// The requests that lift the protection of kexec memory.
pub open spec fn liftings(memory: Seq<KexecMemoryRange>) -> Seq<Protection> {
    protect_all_spec(kexec_accesses(memory, Access::Attr(mem_attr_read_write())))
}

/// Everything but the memory of the image in question is as it was.
pub open spec fn same_but_kexec(before: Vtl0KernelInfo, after: Vtl0KernelInfo, crash: u64) -> bool {
    &&& crash != 0 ==> after.kexec_metadata == before.kexec_metadata
    &&& crash == 0 ==> after.crash_kexec_metadata == before.crash_kexec_metadata
    &&& after.module_memory_metadata == before.module_memory_metadata
    &&& after.precomputed_patches == before.precomputed_patches
    &&& after.symbols == before.symbols
    &&& after.gpl_symbols == before.gpl_symbols
    &&& after.booted() == before.booted()
    &&& after.certificates() == before.certificates()
}

/// The image that is loaded, for crashes or for a regular restart.
fn kexec_metadata_of(info: &Vtl0KernelInfo, crash: u64) -> (r: &KexecMemoryMetadata)
    ensures
        r@ == kexec_memory(*info, crash),
{
    if crash != 0 {
        &info.crash_kexec_metadata
    } else {
        &info.kexec_metadata
    }
}

/// Forgets the image that was loaded.
fn clear_kexec_memory(info: &mut Vtl0KernelInfo, crash: u64)
    ensures
        kexec_memory(*final(info), crash) == Seq::<KexecMemoryRange>::empty(),
        same_but_kexec(*old(info), *final(info), crash),
{
    if crash != 0 {
        info.crash_kexec_metadata.clear();
    } else {
        info.kexec_metadata.clear();
    }
}

/// Records the memory of an image, so that a later call can lift its protection.
fn register_kexec_memory(info: &mut Vtl0KernelInfo, crash: u64, metadata: KexecMemoryMetadata)
    ensures
        kexec_memory(*final(info), crash) == metadata@,
        same_but_kexec(*old(info), *final(info), crash),
{
    if crash != 0 {
        info.crash_kexec_metadata = metadata;
    } else {
        info.kexec_metadata = metadata;
    }
}

/// The memory ranges of one kind.
pub open spec fn kexec_kind(ranges: Seq<HekiRange>, kind: HekiKexecType) -> Seq<MemoryRange> {
    ranges.filter(|r: HekiRange| r.kexec_type == kind).map_values(|r: HekiRange| memory_range_of(r))
}

/// The ranges that are protected: the image and its pages, but not the kernel blob.
pub open spec fn kexec_protected(ranges: Seq<HekiRange>) -> Seq<KexecMemoryRange> {
    ranges.filter(
        |r: HekiRange| r.kexec_type is KexecImage || r.kexec_type is KexecPages,
    ).map_values(|r: HekiRange| kexec_range_of(r))
}

/// What VTL0 described of a kexec image.
pub struct KexecLayout {
    /// The memory to protect.
    pub metadata: KexecMemoryMetadata,
    /// The description of the image.
    pub image: MemoryContainer,
    /// The kernel, which is signed.
    pub kernel_blob: MemoryContainer,
}

impl KexecLayout {
    /// Both containers are well formed.
    pub open spec fn well_formed(self) -> bool {
        self.image.well_formed() && self.kernel_blob.well_formed()
    }

    /// The layout describes the ranges, and holds no bytes yet.
    pub open spec fn describes(self, ranges: Seq<HekiRange>) -> bool {
        &&& self.well_formed()
        &&& self.metadata@ == kexec_protected(ranges)
        &&& self.image.ranges() == kexec_kind(ranges, HekiKexecType::KexecImage)
        &&& self.kernel_blob.ranges() == kexec_kind(ranges, HekiKexecType::KexecKernelBlob)
        &&& self.image@.len() == 0
        &&& self.kernel_blob@.len() == 0
    }
}

/// Some range is of a kind that is not known.
pub open spec fn has_unknown_kexec(ranges: Seq<HekiRange>) -> bool {
    exists|i: int| 0 <= i < ranges.len() && (#[trigger] ranges[i]).kexec_type is Unknown
}

/// One more range belongs to exactly its kind.
proof fn lemma_kexec_push(ranges: Seq<HekiRange>, range: HekiRange, kind: HekiKexecType)
    ensures
        kexec_kind(ranges.push(range), kind) == (if range.kexec_type == kind {
            kexec_kind(ranges, kind).push(memory_range_of(range))
        } else {
            kexec_kind(ranges, kind)
        }),
        kexec_protected(ranges.push(range)) == (if range.kexec_type is KexecImage
            || range.kexec_type is KexecPages {
            kexec_protected(ranges).push(kexec_range_of(range))
        } else {
            kexec_protected(ranges)
        }),
{
    reveal(Seq::filter);
    assert(ranges.push(range).drop_last() =~= ranges);
    assert(kexec_kind(ranges.push(range), kind) =~= (if range.kexec_type == kind {
        kexec_kind(ranges, kind).push(memory_range_of(range))
    } else {
        kexec_kind(ranges, kind)
    }));
    assert(kexec_protected(ranges.push(range)) =~= (if range.kexec_type is KexecImage
        || range.kexec_type is KexecPages {
        kexec_protected(ranges).push(kexec_range_of(range))
    } else {
        kexec_protected(ranges)
    }));
}

/// Sorts the ranges of a kexec image by kind. Fails if one is of a kind that is not known.
pub fn collect_kexec(ranges: &Vec<HekiRange>) -> (r: Result<KexecLayout, VsmError>)
    requires
        ranges_well_formed(ranges@),
    ensures
        match r {
            Ok(layout) => !has_unknown_kexec(ranges@) && layout.describes(ranges@),
            Err(e) => has_unknown_kexec(ranges@) && e == VsmError::KexecTypeInvalid,
        },
{
    let mut layout = KexecLayout {
        metadata: KexecMemoryMetadata::new(),
        image: MemoryContainer::new(),
        kernel_blob: MemoryContainer::new(),
    };
    let mut i: usize = 0;
    proof {
        reveal(Seq::filter);
        let none = ranges@.take(0);
        assert(kexec_kind(none, HekiKexecType::KexecImage) =~= Seq::empty());
        assert(kexec_kind(none, HekiKexecType::KexecKernelBlob) =~= Seq::empty());
        assert(kexec_protected(none) =~= Seq::empty());
    }
    while i < ranges.len()
        invariant
            i <= ranges@.len(),
            ranges_well_formed(ranges@),
            forall|j: int| 0 <= j < i ==> !((#[trigger] ranges@[j]).kexec_type is Unknown),
            layout.describes(ranges@.take(i as int)),
        decreases ranges@.len() - i,
    {
        let range = &ranges[i];
        let ghost done = ranges@.take(i as int);
        assert(ranges@[i as int].well_formed());
        proof {
            assert(ranges@.take(i + 1) =~= done.push(*range));
            lemma_kexec_push(done, *range, HekiKexecType::KexecImage);
            lemma_kexec_push(done, *range, HekiKexecType::KexecKernelBlob);
        }
        let extended = match range.kexec_type {
            HekiKexecType::KexecImage => {
                layout.metadata.insert_heki_range(range);
                layout.image.extend_range(range)
            },
            HekiKexecType::KexecKernelBlob => layout.kernel_blob.extend_range(range),
            HekiKexecType::KexecPages => {
                layout.metadata.insert_heki_range(range);
                Ok(())
            },
            HekiKexecType::Unknown => {
                return Err(VsmError::KexecTypeInvalid);
            },
        };
        assert(extended is Ok);
        i = i + 1;
    }
    assert(ranges@.take(i as int) =~= ranges@);
    Ok(layout)
}

/// A segment of a kexec image: its buffer, its destination in memory and its length there.
#[derive(Clone, Copy, PartialEq, Eq, Structural, Debug)]
pub struct KexecSegment {
    pub buf: u64,
    pub mem: u64,
    pub memsz: u64,
}

impl KexecSegment {
    /// The end of the segment is not an address at all.
    pub open spec fn overflows(self) -> bool {
        self.mem + self.memsz > u64::MAX
    }

    /// The addresses of the segment exist.
    pub open spec fn well_formed(self) -> bool {
        is_canonical(self.buf as int) && is_phys(self.mem as int) && is_phys(self.mem + self.memsz)
    }

    /// The memory range of the segment.
    pub open spec fn memory_range(self) -> KexecMemoryRange {
        KexecMemoryRange {
            virt_addr: self.buf,
            phys_frame_range: PhysFrameRange {
                start: page_down(self.mem as int) as u64,
                end: page_down(self.mem + self.memsz) as u64,
            },
        }
    }
}

/// The number of segments before the first that overflows.
pub open spec fn segments_before_overflow(segments: Seq<KexecSegment>) -> int
    decreases segments.len(),
{
    if segments.len() == 0 || segments[0].overflows() {
        0
    } else {
        1 + segments_before_overflow(segments.drop_first())
    }
}

/// No more segments come before the first that overflows than there are.
proof fn lemma_segments_bound(segments: Seq<KexecSegment>)
    ensures
        0 <= segments_before_overflow(segments) <= segments.len(),
    decreases segments.len(),
{
    if segments.len() > 0 && !segments[0].overflows() {
        lemma_segments_bound(segments.drop_first());
    }
}

/// The first overflowing segment stands behind segments that do not overflow.
proof fn lemma_segments_before_overflow(segments: Seq<KexecSegment>, i: int)
    requires
        0 <= i <= segments.len(),
        forall|j: int| 0 <= j < i ==> !(#[trigger] segments[j]).overflows(),
        i < segments.len() ==> segments[i].overflows(),
    ensures
        segments_before_overflow(segments) == i,
    decreases i,
{
    if i > 0 {
        let rest = segments.drop_first();
        assert(!segments[0].overflows());
        assert forall|j: int| 0 <= j < i - 1 implies !(#[trigger] rest[j]).overflows() by {
            assert(rest[j] == segments[j + 1]);
        }
        lemma_segments_before_overflow(rest, i - 1);
    }
}

/// The description of an image: the segments that it has room for, and how many of them it claims to use.
pub struct Kimage {
    pub nr_segments: u64,
    pub segment: Vec<KexecSegment>,
}

impl Kimage {
    /// The segments in use that end at all end at addresses that exist.
    pub open spec fn well_formed(self) -> bool {
        self.nr_segments <= self.segment@.len() ==> forall|i: int|
            0 <= i < self.nr_segments && !(#[trigger] self.segment@[i]).overflows()
                ==> self.segment@[i].well_formed()
    }
}

/// The memory ranges that the segments of a crash image add to the memory to protect, or why they
/// cannot be used. `image` is the description, if it could be decoded.
pub open spec fn crash_segments(image: Option<Kimage>) -> Result<Seq<KexecMemoryRange>, VsmError> {
    match image {
        None => Err(VsmError::KexecImageSegmentsInvalid),
        Some(image) => {
            let used = image.segment@.take(image.nr_segments as int);
            if image.nr_segments > image.segment@.len() {
                Err(VsmError::KexecImageSegmentsInvalid)
            } else if segments_before_overflow(used) < used.len() {
                Err(VsmError::KexecSegmentRangeInvalid)
            } else {
                Ok(used.map_values(|s: KexecSegment| s.memory_range()))
            }
        },
    }
}

/// Adds the segments of a crash image to the memory to protect. `described` is the description of the
/// image, if it could be decoded.
pub fn add_crash_segments(metadata: &mut KexecMemoryMetadata, described: Option<&Kimage>) -> (r: Result<
    (),
    VsmError,
>)
    requires
        described matches Some(image) ==> image.well_formed(),
    ensures
        match described {
            None => r == Err::<(), _>(VsmError::KexecImageSegmentsInvalid) && final(metadata)@
                == old(metadata)@,
            Some(image) => if image.nr_segments > image.segment@.len() {
                r == Err::<(), _>(VsmError::KexecImageSegmentsInvalid) && final(metadata)@ == old(
                    metadata,
                )@
            } else {
                let used = image.segment@.take(image.nr_segments as int);
                let n = segments_before_overflow(used);
                &&& final(metadata)@ == old(metadata)@ + used.take(n).map_values(
                    |s: KexecSegment| s.memory_range(),
                )
                &&& r == (if n == used.len() {
                    Ok::<(), VsmError>(())
                } else {
                    Err(VsmError::KexecSegmentRangeInvalid)
                })
            },
        },
{
    let image = match described {
        Some(image) => image,
        None => return Err(VsmError::KexecImageSegmentsInvalid),
    };
    let all = &image.segment;
    let nr_segments: u64 = image.nr_segments;
    if nr_segments > all.len() as u64 {
        return Err(VsmError::KexecImageSegmentsInvalid);
    }
    let count: usize = nr_segments as usize;
    let ghost used = all@.take(nr_segments as int);
    let ghost before = metadata@;
    let mut i: usize = 0;
    proof {
        assert(before + used.take(0).map_values(|s: KexecSegment| s.memory_range()) =~= before);
    }
    while i < count
        invariant
            i <= count <= all@.len(),
            count == nr_segments,
            used == all@.take(nr_segments as int),
            before == old(metadata)@,
            described == Some(image),
            all@ == image.segment@,
            nr_segments == image.nr_segments,
            forall|i: int|
                0 <= i < nr_segments && !(#[trigger] all@[i]).overflows() ==> all@[i].well_formed(),
            forall|j: int| 0 <= j < i ==> !(#[trigger] used[j]).overflows(),
            metadata@ == before + used.take(i as int).map_values(
                |s: KexecSegment| s.memory_range(),
            ),
        decreases count - i,
    {
        let segment = all[i];
        assert(used[i as int] == segment);
        match segment.mem.checked_add(segment.memsz) {
            Some(epa) => {
                assert(!all@[i as int].overflows());
                metadata.insert_memory_range(KexecMemoryRange::new(segment.buf, segment.mem, epa));
                assert(metadata@ =~= before + used.take(i + 1).map_values(
                    |s: KexecSegment| s.memory_range(),
                ));
            },
            None => {
                proof {
                    lemma_segments_before_overflow(used, i as int);
                }
                return Err(VsmError::KexecSegmentRangeInvalid);
            },
        }
        i = i + 1;
    }
    proof {
        lemma_segments_before_overflow(used, i as int);
    }
    Ok(())
}

/// How far the validation of a kexec image has come.
pub enum KexecPhase {
    /// The protection of the image that was loaded before is lifted.
    Invalidate { run: ProtectRun },
    /// The ranges of the new image are looked for.
    Walk { walk: HekiPageWalk },
    /// The description of the image is copied.
    CopyImage { layout: KexecLayout },
    /// The kernel is copied.
    CopyBlob { layout: KexecLayout },
    /// The segments of a crash image are read from its description.
    DecodeImage { layout: KexecLayout },
    /// The memory of the image is write-protected.
    Protect { layout: KexecLayout, run: ProtectRun },
    /// The signature of the kernel is verified.
    Verify { layout: KexecLayout },
    /// The signature is not valid: the protection is lifted again.
    Unprotect { layout: KexecLayout, run: ProtectRun, error: VerificationError },
    /// The operation is over.
    Done { result: Result<i64, VsmError> },
}

/// What the validation of a kexec image needs next.
pub enum KexecAction {
    /// Make this request, then call [`KexecValidation::protected`].
    Protect { request: Protection },
    /// Copy the page of range descriptions at this address, then call
    /// [`KexecValidation::heki_page`].
    CopyHekiPage { pa: u64 },
    /// Copy the pages at these addresses in order, up to the first whose copy fails, then call
    /// [`KexecValidation::pages`].
    CopyPages { pas: Vec<u64> },
    /// Call [`KexecValidation::add_segments`] with a decoder for the description of the image.
    DecodeImage,
    /// Verify the signature of [`KexecValidation::kernel_blob`], then call
    /// [`KexecValidation::signature_verified`].
    VerifySignature,
    /// Answer VTL0.
    Finish { result: Result<i64, VsmError> },
}

/// The validation of a kernel image for kexec. The image that was loaded before is given up, the
/// memory of the new one is write-protected, and then its signature is verified, so that VTL0
/// cannot change it in between.
pub struct KexecValidation {
    pub phase: KexecPhase,
    /// Where the ranges of the new image are described, or zero if there is none.
    pub pa: u64,
    /// How many ranges there are.
    pub nranges: u64,
    /// Not zero if the image is for crashes.
    pub crash: u64,
    /// The memory of the image that was loaded when the call began.
    pub loaded: Ghost<Seq<KexecMemoryRange>>,
    /// The requests that have succeeded so far, in order.
    pub granted: Ghost<Seq<Protection>>,
    /// The signature of the kernel was found to be valid.
    pub signed: Ghost<bool>,
}

/// The layout after the description of the image was copied.
pub open spec fn image_copied(before: KexecLayout, after: KexecLayout, pages: Seq<Vec<u8>>) -> bool {
    &&& after.well_formed()
    &&& after.metadata == before.metadata
    &&& after.kernel_blob == before.kernel_blob
    &&& filled(before.image, after.image, pages)
}

/// The layout after the kernel was copied.
pub open spec fn blob_copied(before: KexecLayout, after: KexecLayout, pages: Seq<Vec<u8>>) -> bool {
    &&& after.well_formed()
    &&& after.metadata == before.metadata
    &&& after.image == before.image
    &&& filled(before.kernel_blob, after.kernel_blob, pages)
}

/// One more request of a run has succeeded.
pub open spec fn advanced(before: ProtectRun, after: ProtectRun) -> bool {
    after.all() == before.all() && after.made() == before.made() + 1
}

impl KexecValidation {
    /// The parameters of the call: where the ranges are described, how many there are, and whether
    /// the image is for crashes.
    pub open spec fn request(self) -> (u64, u64, u64) {
        (self.pa, self.nranges, self.crash)
    }

    /// The memory of the image that was loaded when the call began.
    pub open spec fn loaded(self) -> Seq<KexecMemoryRange> {
        self.loaded@
    }

    /// The requests that have succeeded so far, in order.
    pub open spec fn granted(self) -> Seq<Protection> {
        self.granted@
    }

    /// The layout of the image, in the phases that have one.
    pub open spec fn layout(self) -> KexecLayout {
        match self.phase {
            KexecPhase::CopyImage { layout } => layout,
            KexecPhase::CopyBlob { layout } => layout,
            KexecPhase::DecodeImage { layout } => layout,
            KexecPhase::Protect { layout, run: _ } => layout,
            KexecPhase::Verify { layout } => layout,
            KexecPhase::Unprotect { layout, run: _, error: _ } => layout,
            _ => arbitrary(),
        }
    }

    /// What has happened when the operation is in its phase. In particular, the signature is
    /// verified only while the memory of the image is write-protected; the image is registered
    /// exactly if the call succeeds, and then its memory is protected; and a call that fails
    /// because of the signature has lifted all protection again.
    pub open spec fn holds(self, info: Vtl0KernelInfo) -> bool {
        let memory = kexec_memory(info, self.request().2);
        let lifted = liftings(self.loaded());
        &&& is_phys(self.request().0 as int) || self.phase is Done
        &&& self.request().0 == 0 ==> self.phase is Invalidate || self.phase is Done
        &&& match self.phase {
            KexecPhase::Invalidate { run } => {
                &&& run.in_progress()
                &&& run.all() == lifted
                &&& self.granted() == run.granted()
                &&& memory == self.loaded()
            },
            KexecPhase::Walk { walk } => {
                &&& walk.well_formed()
                &&& walk.found().len() < walk.goal()
                &&& self.granted() == lifted
                &&& memory.len() == 0
            },
            KexecPhase::CopyImage { layout } | KexecPhase::CopyBlob { layout }
            | KexecPhase::DecodeImage { layout } => {
                &&& layout.well_formed()
                &&& self.granted() == lifted
                &&& memory.len() == 0
            },
            KexecPhase::Protect { layout, run } => {
                &&& layout.well_formed()
                &&& run.in_progress()
                &&& run.all() == protections(layout.metadata@)
                &&& self.granted() == lifted + run.granted()
                &&& memory.len() == 0
            },
            KexecPhase::Verify { layout } => {
                &&& layout.well_formed()
                &&& self.granted() == lifted + protections(layout.metadata@)
                &&& memory.len() == 0
            },
            KexecPhase::Unprotect { layout, run, error: _ } => {
                &&& run.in_progress()
                &&& run.all() == liftings(layout.metadata@)
                &&& self.granted() == lifted + protections(layout.metadata@) + run.granted()
                &&& memory.len() == 0
            },
            KexecPhase::Done { result } => match result {
                Ok(value) => {
                    &&& value == 0
                    &&& self.request().0 == 0 ==> memory.len() == 0 && self.granted() == lifted
                    &&& self.request().0 != 0 ==> self.signed@ && self.granted() == lifted
                        + protections(memory)
                },
                Err(VsmError::SignatureVerificationFailed(_)) => {
                    &&& memory.len() == 0
                    &&& exists|image: Seq<KexecMemoryRange>|
                        self.granted() == lifted + #[trigger] protections(image) + liftings(image)
                },
                Err(_) => memory == self.loaded() || memory.len() == 0,
            },
        }
    }

    /// The ranges are to be looked for, or there is no new image.
    pub open spec fn invalidated(self) -> bool {
        if self.request().0 == 0 {
            self.phase == (KexecPhase::Done { result: Ok(0) })
        } else if self.request().1 == 0 {
            self.collected(Seq::empty())
        } else {
            &&& self.phase matches KexecPhase::Walk { walk }
            &&& walk.position() == self.request().0
            &&& walk.goal() == self.request().1
            &&& walk.found() == Seq::<HekiRange>::empty()
        }
    }

    /// The ranges were found.
    pub open spec fn collected(self, ranges: Seq<HekiRange>) -> bool {
        if has_unknown_kexec(ranges) {
            self.phase == (KexecPhase::Done { result: Err(VsmError::KexecTypeInvalid) })
        } else {
            self.phase matches KexecPhase::CopyImage { layout } && layout.describes(ranges)
        }
    }

    /// The memory of the image is to be protected, if it has any.
    pub open spec fn protecting(self, layout: KexecLayout) -> bool {
        if protections(layout.metadata@).len() == 0 {
            self.phase == (KexecPhase::Verify { layout })
        } else {
            self.phase matches KexecPhase::Protect { layout: kept, run } && kept == layout
                && run.all() == protections(layout.metadata@) && run.made() == 0
        }
    }

    /// Only the phase differs.
    pub open spec fn same_call(self, other: KexecValidation) -> bool {
        self.request() == other.request() && self.loaded() == other.loaded()
    }

    /// What the operation needs next.
    pub fn action(&self, info: &Vtl0KernelInfo) -> (r: KexecAction)
        requires
            self.holds(*info),
        ensures
            match self.phase {
                KexecPhase::Invalidate { run } | KexecPhase::Protect { layout: _, run }
                | KexecPhase::Unprotect { layout: _, run, error: _ } => r == (KexecAction::Protect {
                    request: run.all()[run.made()],
                }),
                KexecPhase::Walk { walk } => r == (KexecAction::CopyHekiPage {
                    pa: walk.position(),
                }),
                KexecPhase::CopyImage { layout } => r matches KexecAction::CopyPages { pas }
                    && pas@ == all_pages(layout.image.ranges()),
                KexecPhase::CopyBlob { layout } => r matches KexecAction::CopyPages { pas }
                    && pas@ == all_pages(layout.kernel_blob.ranges()),
                KexecPhase::DecodeImage { layout: _ } => r == KexecAction::DecodeImage,
                KexecPhase::Verify { layout: _ } => r == KexecAction::VerifySignature,
                KexecPhase::Done { result } => r == (KexecAction::Finish { result }),
            },
    {
        match &self.phase {
            KexecPhase::Invalidate { run } => KexecAction::Protect { request: run.current() },
            KexecPhase::Walk { walk } => KexecAction::CopyHekiPage { pa: walk.current() },
            KexecPhase::CopyImage { layout } => KexecAction::CopyPages {
                pas: layout.image.page_addrs(),
            },
            KexecPhase::CopyBlob { layout } => KexecAction::CopyPages {
                pas: layout.kernel_blob.page_addrs(),
            },
            KexecPhase::DecodeImage { layout: _ } => KexecAction::DecodeImage,
            KexecPhase::Protect { layout: _, run } => KexecAction::Protect {
                request: run.current(),
            },
            KexecPhase::Verify { layout: _ } => KexecAction::VerifySignature,
            KexecPhase::Unprotect { layout: _, run, error: _ } => KexecAction::Protect {
                request: run.current(),
            },
            KexecPhase::Done { result } => KexecAction::Finish { result: *result },
        }
    }

    /// The bytes of the description of the image, while it is to be decoded.
    pub fn image(&self) -> (r: Option<&[u8]>)
        ensures
            match self.phase {
                KexecPhase::DecodeImage { layout } => r matches Some(bytes) && bytes@
                    == layout.image@,
                _ => r is None,
            },
    {
        match &self.phase {
            KexecPhase::DecodeImage { layout } => Some(layout.image.as_slice()),
            _ => None,
        }
    }

    /// The bytes of the kernel, while its signature is to be verified.
    pub fn kernel_blob(&self) -> (r: Option<&[u8]>)
        ensures
            match self.phase {
                KexecPhase::Verify { layout } => r matches Some(bytes) && bytes@
                    == layout.kernel_blob@,
                _ => r is None,
            },
    {
        match &self.phase {
            KexecPhase::Verify { layout } => Some(layout.kernel_blob.as_slice()),
            _ => None,
        }
    }

    /// Forgets the image that was loaded before, whose protection is lifted.
    fn invalidate(self, info: &mut Vtl0KernelInfo) -> (r: KexecValidation)
        requires
            is_phys(self.request().0 as int),
            self.granted() == liftings(self.loaded()),
        ensures
            r.same_call(self),
            r.granted() == self.granted(),
            r.signed == self.signed,
            r.holds(*final(info)),
            r.invalidated(),
            kexec_memory(*final(info), self.request().2).len() == 0,
            same_but_kexec(*old(info), *final(info), self.request().2),
    {
        clear_kexec_memory(info, self.crash);
        if self.pa == 0 {
            return KexecValidation { phase: KexecPhase::Done { result: Ok(0) }, ..self };
        }
        if self.nranges == 0 {
            return self.collect(&Vec::new(), info);
        }
        let walk = HekiPageWalk::new(self.pa, self.nranges);
        KexecValidation { phase: KexecPhase::Walk { walk }, ..self }
    }

    /// Sorts the ranges that were found.
    fn collect(self, ranges: &Vec<HekiRange>, info: &Vtl0KernelInfo) -> (r: KexecValidation)
        requires
            self.request().0 != 0,
            is_phys(self.request().0 as int),
            self.granted() == liftings(self.loaded()),
            kexec_memory(*info, self.request().2).len() == 0,
            ranges_well_formed(ranges@),
        ensures
            r.same_call(self),
            r.granted() == self.granted(),
            r.signed == self.signed,
            r.holds(*info),
            r.collected(ranges@),
    {
        match collect_kexec(ranges) {
            Ok(layout) => KexecValidation { phase: KexecPhase::CopyImage { layout }, ..self },
            Err(e) => KexecValidation { phase: KexecPhase::Done { result: Err(e) }, ..self },
        }
    }

    /// Starts to protect the memory of the image.
    fn protect(self, layout: KexecLayout, info: &Vtl0KernelInfo) -> (r: KexecValidation)
        requires
            self.request().0 != 0,
            is_phys(self.request().0 as int),
            layout.well_formed(),
            self.granted() == liftings(self.loaded()),
            kexec_memory(*info, self.request().2).len() == 0,
        ensures
            r.same_call(self),
            r.granted() == self.granted(),
            r.signed == self.signed,
            r.holds(*info),
            r.protecting(layout),
    {
        let requests = protect_kexec_ranges(
            layout.metadata.as_slice(),
            Access::Attr(MemAttr::read_only()),
        );
        if requests.len() == 0 {
            assert(self.granted() + protections(layout.metadata@) =~= self.granted());
            return KexecValidation { phase: KexecPhase::Verify { layout }, ..self };
        }
        let run = ProtectRun::new(requests);
        assert(self.granted() + run.granted() =~= self.granted());
        KexecValidation { phase: KexecPhase::Protect { layout, run }, ..self }
    }

    /// The operation failed.
    fn fail(self, error: VsmError) -> (r: KexecValidation)
        ensures
            r.same_call(self),
            r.signed == self.signed,
            r.granted() == self.granted(),
            r.phase == (KexecPhase::Done { result: Err(error) }),
    {
        KexecValidation { phase: KexecPhase::Done { result: Err(error) }, ..self }
    }

    /// Takes the outcome of a request.
    pub fn protected(self, info: &mut Vtl0KernelInfo, outcome: Result<(), HypervCallError>) -> (r:
        KexecValidation)
        requires
            self.holds(*old(info)),
            self.phase is Invalidate || self.phase is Protect || self.phase is Unprotect,
        ensures
            r.same_call(self),
            r.signed == self.signed,
            match self.phase {
                KexecPhase::Invalidate { run } | KexecPhase::Protect { layout: _, run }
                | KexecPhase::Unprotect { layout: _, run, error: _ } => r.granted() == (
                if outcome is Ok {
                    self.granted().push(run.all()[run.made()])
                } else {
                    self.granted()
                }),
                _ => true,
            },
            r.holds(*final(info)),
            same_but_kexec(*old(info), *final(info), self.request().2),
            match outcome {
                Err(e) => {
                    &&& r.phase == (KexecPhase::Done { result: Err(VsmError::HypercallFailed(e)) })
                    &&& *final(info) == *old(info)
                },
                Ok(()) => match self.phase {
                    KexecPhase::Invalidate { run } => if run.made() + 1 == run.all().len() {
                        r.invalidated()
                    } else {
                        r.phase matches KexecPhase::Invalidate { run: next } && advanced(run, next)
                    },
                    KexecPhase::Protect { layout, run } => if run.made() + 1 == run.all().len() {
                        r.phase == (KexecPhase::Verify { layout })
                    } else {
                        r.phase matches KexecPhase::Protect { layout: kept, run: next } && kept
                            == layout && advanced(run, next)
                    },
                    KexecPhase::Unprotect { layout, run, error } => if run.made() + 1
                        == run.all().len() {
                        r.phase == (KexecPhase::Done {
                            result: Err(VsmError::SignatureVerificationFailed(error)),
                        })
                    } else {
                        r.phase matches KexecPhase::Unprotect {
                            layout: kept,
                            run: next,
                            error: same,
                        } && kept == layout && same == error && advanced(run, next)
                    },
                    _ => true,
                },
            },
    {
        match outcome {
            Err(e) => return self.fail(VsmError::HypercallFailed(e)),
            Ok(()) => {},
        }
        let ghost lifted = liftings(self.loaded());
        let KexecValidation { phase, pa, nranges, crash, loaded, granted, signed } = self;
        match phase {
            KexecPhase::Invalidate { run } => {
                let mut run = run;
                run.succeeded();
                let granted = Ghost(run.granted());
                if run.is_done() {
                    assert(run.granted() =~= lifted);
                    let rest = KexecValidation {
                        phase: KexecPhase::Done { result: Ok(0) },
                        pa,
                        nranges,
                        crash,
                        loaded,
                        granted,
                        signed,
                    };
                    return rest.invalidate(info);
                }
                KexecValidation {
                    phase: KexecPhase::Invalidate { run },
                    pa,
                    nranges,
                    crash,
                    loaded,
                    granted,
                    signed,
                }
            },
            KexecPhase::Protect { layout, run } => {
                let mut run = run;
                let ghost request = run.all()[run.made()];
                run.succeeded();
                let granted = Ghost(lifted + run.granted());
                assert(granted@ =~= self.granted().push(request));
                if run.is_done() {
                    assert(run.granted() =~= protections(layout.metadata@));
                    return KexecValidation {
                        phase: KexecPhase::Verify { layout },
                        pa,
                        nranges,
                        crash,
                        loaded,
                        granted,
                        signed,
                    };
                }
                KexecValidation {
                    phase: KexecPhase::Protect { layout, run },
                    pa,
                    nranges,
                    crash,
                    loaded,
                    granted,
                    signed,
                }
            },
            KexecPhase::Unprotect { layout, run, error } => {
                let mut run = run;
                let ghost request = run.all()[run.made()];
                run.succeeded();
                let granted = Ghost(lifted + protections(layout.metadata@) + run.granted());
                assert(granted@ =~= self.granted().push(request));
                if run.is_done() {
                    assert(run.granted() =~= liftings(layout.metadata@));
                    return KexecValidation {
                        phase: KexecPhase::Done { result: Err(VsmError::from(error)) },
                        pa,
                        nranges,
                        crash,
                        loaded,
                        granted,
                        signed,
                    };
                }
                KexecValidation {
                    phase: KexecPhase::Unprotect { layout, run, error },
                    pa,
                    nranges,
                    crash,
                    loaded,
                    granted,
                    signed,
                }
            },
            phase => KexecValidation { phase, pa, nranges, crash, loaded, granted, signed },
        }
    }

    /// Takes the page of range descriptions that was copied, or nothing if the copy failed.
    pub fn heki_page(self, info: &Vtl0KernelInfo, page: Option<HekiPage>) -> (r: KexecValidation)
        requires
            self.holds(*info),
            self.phase is Walk,
        ensures
            r.same_call(self),
            r.granted() == self.granted(),
            r.signed == self.signed,
            r.holds(*info),
            match self.phase {
                KexecPhase::Walk { walk } => match page {
                    Some(p) if p.well_formed() => {
                        let found = walk.found() + p.ranges@;
                        if found.len() < walk.goal() {
                            &&& r.phase matches KexecPhase::Walk { walk: next }
                            &&& next.position() == p.next_pa
                            &&& next.goal() == walk.goal()
                            &&& next.found() == found
                        } else {
                            r.collected(found)
                        }
                    },
                    _ => r.phase == (KexecPhase::Done {
                        result: Err(VsmError::HekiPagesCopyFailed),
                    }),
                },
                _ => true,
            },
    {
        let KexecValidation { phase, pa, nranges, crash, loaded, granted, signed } = self;
        match phase {
            KexecPhase::Walk { walk } => {
                let mut walk = walk;
                let rest = KexecValidation {
                    phase: KexecPhase::Done { result: Ok(0) },
                    pa,
                    nranges,
                    crash,
                    loaded,
                    granted,
                    signed,
                };
                match walk.accept(page) {
                    Ok(()) => {},
                    Err(e) => return rest.fail(e),
                }
                if walk.next_page().is_some() {
                    return KexecValidation { phase: KexecPhase::Walk { walk }, ..rest };
                }
                rest.collect(&walk.into_ranges(), info)
            },
            phase => KexecValidation { phase, pa, nranges, crash, loaded, granted, signed },
        }
    }

    /// Takes the pages that were copied, up to the first whose copy failed.
    pub fn pages(self, info: &Vtl0KernelInfo, pages: &Vec<Vec<u8>>) -> (r: KexecValidation)
        requires
            self.holds(*info),
            self.phase is CopyImage || self.phase is CopyBlob,
            whole_pages(pages@),
        ensures
            r.same_call(self),
            r.granted() == self.granted(),
            r.signed == self.signed,
            r.holds(*info),
            match self.phase {
                KexecPhase::CopyImage { layout } => if pages@.len() < total_pages(
                    layout.image.ranges(),
                ) {
                    r.phase == (KexecPhase::Done { result: Err(VsmError::Vtl0CopyFailed) })
                } else {
                    r.phase matches KexecPhase::CopyBlob { layout: next } && image_copied(
                        layout,
                        next,
                        pages@,
                    )
                },
                KexecPhase::CopyBlob { layout } => if pages@.len() < total_pages(
                    layout.kernel_blob.ranges(),
                ) {
                    r.phase == (KexecPhase::Done { result: Err(VsmError::Vtl0CopyFailed) })
                } else {
                    &&& blob_copied(layout, r.layout(), pages@)
                    &&& if self.request().2 != 0 {
                        r.phase is DecodeImage
                    } else {
                        r.protecting(r.layout())
                    }
                },
                _ => true,
            },
    {
        let KexecValidation { phase, pa, nranges, crash, loaded, granted, signed } = self;
        let rest = KexecValidation {
            phase: KexecPhase::Done { result: Ok(0) },
            pa,
            nranges,
            crash,
            loaded,
            granted,
            signed,
        };
        match phase {
            KexecPhase::CopyImage { layout } => {
                let mut layout = layout;
                match fill_container(&mut layout.image, pages) {
                    Ok(()) => KexecValidation { phase: KexecPhase::CopyBlob { layout }, ..rest },
                    Err(e) => rest.fail(e),
                }
            },
            KexecPhase::CopyBlob { layout } => {
                let mut layout = layout;
                match fill_container(&mut layout.kernel_blob, pages) {
                    Ok(()) => {},
                    Err(e) => return rest.fail(e),
                }
                if crash != 0 {
                    KexecValidation { phase: KexecPhase::DecodeImage { layout }, ..rest }
                } else {
                    rest.protect(layout, info)
                }
            },
            phase => KexecValidation { phase, ..rest },
        }
    }

    /// Adds the segments of a crash image, with a decoder for the description of the image, which has
    /// `size` bytes; see [`add_crash_segments`].
    pub fn add_segments<K: Fn(&[u8]) -> Option<Kimage>>(
        self,
        info: &Vtl0KernelInfo,
        size: usize,
        kimage: &K,
    ) -> (r: KexecValidation)
        requires
            self.holds(*info),
            self.phase is DecodeImage,
            size <= self.layout().image@.len(),
            forall|b: &[u8]| b@.len() == size ==> #[trigger] call_requires(*kimage, (b,)),
            forall|b: &[u8], image: Kimage|
                b@.len() == size && #[trigger] call_ensures(*kimage, (b,), Some(image))
                    ==> image.well_formed(),
        ensures
            r.same_call(self),
            r.granted() == self.granted(),
            r.signed == self.signed,
            r.holds(*info),
            exists|image: Option<Kimage>| #[trigger]
                reads(*kimage, self.layout().image@.take(size as int), image) && match crash_segments(
                    image,
                ) {
                    Err(e) => r.phase == (KexecPhase::Done { result: Err(e) }),
                    Ok(added) => {
                        &&& r.layout().image == self.layout().image
                        &&& r.layout().kernel_blob == self.layout().kernel_blob
                        &&& r.layout().metadata@ == self.layout().metadata@ + added
                        &&& r.protecting(r.layout())
                    },
                },
    {
        let KexecValidation { phase, pa, nranges, crash, loaded, granted, signed } = self;
        let rest = KexecValidation {
            phase: KexecPhase::Done { result: Ok(0) },
            pa,
            nranges,
            crash,
            loaded,
            granted,
            signed,
        };
        match phase {
            KexecPhase::DecodeImage { layout } => {
                let mut layout = layout;
                let slice = slice_subrange(layout.image.as_slice(), 0, size);
                assert(slice@ =~= layout.image@.take(size as int));
                let image = kimage(slice);
                assert(reads(*kimage, self.layout().image@.take(size as int), image));
                proof {
                    let decoded = image->Some_0;
                    if image is Some && decoded.nr_segments <= decoded.segment@.len() {
                        lemma_segments_bound(decoded.segment@.take(decoded.nr_segments as int));
                    }
                }
                match add_crash_segments(&mut layout.metadata, image.as_ref()) {
                    Ok(()) => {
                        proof {
                            let image = image->Some_0;
                            let used = image.segment@.take(image.nr_segments as int);
                            assert(used.take(used.len() as int) =~= used);
                        }
                        rest.protect(layout, info)
                    },
                    Err(e) => rest.fail(e),
                }
            },
            phase => KexecValidation { phase, ..rest },
        }
    }

    /// Takes the outcome of verifying the signature of the kernel. If it is valid, the memory of
    /// the image is registered, so that a later call can lift its protection.
    pub fn signature_verified(
        self,
        info: &mut Vtl0KernelInfo,
        signature: Result<(), VerificationError>,
    ) -> (r: KexecValidation)
        requires
            self.holds(*old(info)),
            self.phase is Verify,
        ensures
            r.same_call(self),
            r.granted() == self.granted(),
            r.holds(*final(info)),
            same_but_kexec(*old(info), *final(info), self.request().2),
            r.signed@ == (self.signed@ || signature is Ok),
            match self.phase {
                KexecPhase::Verify { layout } => match signature {
                    Ok(()) => {
                        &&& r.phase == (KexecPhase::Done { result: Ok(0) })
                        &&& kexec_memory(*final(info), self.request().2) == layout.metadata@
                    },
                    Err(error) => {
                        &&& *final(info) == *old(info)
                        &&& if liftings(layout.metadata@).len() == 0 {
                            r.phase == (KexecPhase::Done {
                                result: Err(VsmError::SignatureVerificationFailed(error)),
                            })
                        } else {
                            r.phase matches KexecPhase::Unprotect {
                                layout: kept,
                                run,
                                error: same,
                            } && kept == layout && same == error && run.all() == liftings(
                                layout.metadata@,
                            ) && run.made() == 0
                        }
                    },
                },
                _ => true,
            },
    {
        let ghost lifted = liftings(self.loaded());
        let KexecValidation { phase, pa, nranges, crash, loaded, granted, signed } = self;
        let rest = KexecValidation {
            phase: KexecPhase::Done { result: Ok(0) },
            pa,
            nranges,
            crash,
            loaded,
            granted,
            signed,
        };
        match phase {
            KexecPhase::Verify { layout } => match signature {
                Ok(()) => {
                    register_kexec_memory(info, crash, layout.metadata);
                    KexecValidation { signed: Ghost(true), ..rest }
                },
                Err(error) => {
                    let requests = protect_kexec_ranges(
                        layout.metadata.as_slice(),
                        Access::Attr(MemAttr::read_write()),
                    );
                    let ghost image = layout.metadata@;
                    assert(rest.granted() + Seq::<Protection>::empty() =~= rest.granted());
                    if requests.len() == 0 {
                        assert(liftings(image) =~= Seq::<Protection>::empty());
                        assert(rest.granted() == lifted + protections(image) + liftings(image));
                        return rest.fail(VsmError::from(error));
                    }
                    let run = ProtectRun::new(requests);
                    KexecValidation {
                        phase: KexecPhase::Unprotect { layout, run, error },
                        ..rest
                    }
                },
            },
            phase => KexecValidation { phase, ..rest },
        }
    }
}

/// Starts validating a kexec image, whose ranges are described at `pa`, or giving up the loaded
/// image if `pa` is zero.
pub fn mshv_vsm_kexec_validate(info: &mut Vtl0KernelInfo, pa: u64, nranges: u64, crash: u64) -> (r:
    KexecValidation)
    requires
        old(info).certificates() is Some ==> is_phys(pa as int),
    ensures
        r.request() == (pa, nranges, crash),
        r.loaded() == kexec_memory(*old(info), crash),
        !r.signed@,
        r.holds(*final(info)),
        same_but_kexec(*old(info), *final(info), crash),
        if old(info).certificates() is None {
            r.phase == (KexecPhase::Done { result: Err(VsmError::SystemCertificatesNotLoaded) })
                && *final(info) == *old(info)
        } else if liftings(r.loaded()).len() == 0 {
            r.invalidated()
        } else {
            r.phase matches KexecPhase::Invalidate { run } && run.all() == liftings(r.loaded())
                && run.made() == 0 && *final(info) == *old(info)
        },
{
    let loaded = Ghost(kexec_memory(*info, crash));
    let rest = KexecValidation {
        phase: KexecPhase::Done { result: Ok(0) },
        pa,
        nranges,
        crash,
        loaded,
        granted: Ghost(Seq::empty()),
        signed: Ghost(false),
    };
    if info.get_system_certificates().is_none() {
        return rest.fail(VsmError::SystemCertificatesNotLoaded);
    }
    let requests = protect_kexec_ranges(
        kexec_metadata_of(info, crash).as_slice(),
        Access::Attr(MemAttr::read_write()),
    );
    if requests.len() == 0 {
        assert(liftings(loaded@) =~= Seq::<Protection>::empty());
        return rest.invalidate(info);
    }
    let run = ProtectRun::new(requests);
    KexecValidation { phase: KexecPhase::Invalidate { run }, ..rest }
}

/// An image that was accepted is signed, and VTL0 can only read its memory: after the protection of the
/// image before was lifted, that of the new one was granted, range by range. Where there is no new
/// image, none is registered any more.
pub proof fn law_accepted_kexec_image(op: KexecValidation, info: Vtl0KernelInfo)
    requires
        op.holds(info),
        op.phase == (KexecPhase::Done { result: Ok(0) }),
    ensures
        ({
            let memory = kexec_memory(info, op.request().2);
            let lifted = liftings(op.loaded());
            if op.request().0 == 0 {
                memory.len() == 0 && op.granted() == lifted
            } else {
                op.signed@ && op.granted() == lifted + protections(memory)
            }
        }),
{
}

/// A call that fails registers no new image: that of before stays registered, or none is. If it fails
/// because of the signature, all that it had protected is writable again.
pub proof fn law_refused_kexec_image(op: KexecValidation, info: Vtl0KernelInfo, error: VsmError)
    requires
        op.holds(info),
        op.phase == (KexecPhase::Done { result: Err(error) }),
    ensures
        kexec_memory(info, op.request().2).len() == 0 || kexec_memory(info, op.request().2)
            == op.loaded(),
        error is SignatureVerificationFailed ==> exists|image: Seq<KexecMemoryRange>|
            op.granted() == liftings(op.loaded()) + #[trigger] protections(image) + liftings(image),
{
}

/// The requests that a call makes to protect an image and those that the next call makes to lift
/// the protection name the same pages in the same order.
pub proof fn law_kexec_unprotects_what_it_protected(memory: Seq<KexecMemoryRange>, a: Access, b: Access)
    ensures
        protect_all_spec(kexec_accesses(memory, a)).len() == protect_all_spec(
            kexec_accesses(memory, b),
        ).len(),
        forall|k: int|
            0 <= k < protect_all_spec(kexec_accesses(memory, a)).len() ==> {
                let p = #[trigger] protect_all_spec(kexec_accesses(memory, a))[k];
                let q = protect_all_spec(kexec_accesses(memory, b))[k];
                p.pa == q.pa && p.num_pages == q.num_pages && p.access == a && q.access == b
            },
    decreases memory.len(),
{
    if memory.len() > 0 {
        let rest = memory.drop_last();
        law_kexec_unprotects_what_it_protected(rest, a, b);
        assert(kexec_accesses(memory, a).drop_last() =~= kexec_accesses(rest, a));
        assert(kexec_accesses(memory, b).drop_last() =~= kexec_accesses(rest, b));
        let rest_a = protect_all_spec(kexec_accesses(rest, a));
        let all_a = protect_all_spec(kexec_accesses(memory, a));
        let all_b = protect_all_spec(kexec_accesses(memory, b));
        assert forall|k: int| 0 <= k < all_a.len() implies {
            let p = #[trigger] all_a[k];
            let q = all_b[k];
            p.pa == q.pa && p.num_pages == q.num_pages && p.access == a && q.access == b
        } by {
            if k < rest_a.len() {
                assert(all_a[k] == rest_a[k]);
            }
        }
    }
}

} // verus!
