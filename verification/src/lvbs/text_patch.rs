//! Patching kernel and module text on request of VTL0.
use vstd::prelude::*;

use crate::addr::is_phys;
use crate::bytes::{append_range, reads};
use crate::lvbs::error::VsmError;
use crate::lvbs::kernel_info::{find_patch, Vtl0KernelInfo};
use crate::lvbs::patch::{apply_vtl0_text_patch, copy_heki_patch_from_vtl0, first_page_ends, patch_source_spec, text_writes, HekiPatch, PatchModel, PatchSource, TextWrite};

verus! {

/// How far the patching of text has come.
pub enum TextPatchPhase {
    /// The description of the patch, of `size` bytes, is copied.
    Copy { source: PatchSource, size: u64 },
    /// The patch is compared with the one that was announced.
    Compare { patch: HekiPatch, announced: HekiPatch },
    /// The code of the patch is written, up to the write with number `next`.
    Write { patch: HekiPatch, writes: Vec<TextWrite>, next: usize },
    /// The operation is over.
    Done { result: Result<i64, VsmError> },
}

/// What the patching of text needs next.
#[derive(Clone, Copy, Debug)]
pub enum TextPatchAction {
    /// Copy the bytes of the first run, and of the second where there is one, then call
    /// [`TextPatching::copied`].
    Copy { first: CopyRun, second: Option<CopyRun> },
    /// Compare the patches of [`TextPatching::patches`], then call [`TextPatching::compared`].
    Compare,
    /// Make this write of bytes of [`TextPatching::code`], then call [`TextPatching::written`].
    Write { write: TextWrite },
    /// Answer VTL0.
    Finish { result: Result<i64, VsmError> },
}

/// A run of bytes in VTL0 memory.
#[derive(Clone, Copy, PartialEq, Eq, Structural, Debug)]
pub struct CopyRun {
    pub pa: u64,
    pub len: u64,
}

/// Where the `size` bytes of the description of a patch stand, in order: in one run, or in two.
pub open spec fn copy_runs(source: PatchSource, size: u64) -> (CopyRun, Option<CopyRun>) {
    match source {
        PatchSource::OneRun { pa } => (CopyRun { pa, len: size }, None),
        PatchSource::TwoPages { pa_0, first_len, pa_1 } => (
            CopyRun { pa: pa_0, len: first_len },
            Some(CopyRun { pa: pa_1, len: (size - first_len) as u64 }),
        ),
    }
}

/// The bytes of both runs were copied: those of the second run are empty where there is none.
pub open spec fn runs_copied(source: PatchSource, size: u64, first: Seq<u8>, second: Seq<u8>) -> bool {
    let runs = copy_runs(source, size);
    &&& first.len() == runs.0.len
    &&& second.len() == (match runs.1 {
        Some(run) => run.len as int,
        None => 0,
    })
}

/// What the decoder may make of the description can be dealt with: it is refused as invalid, or the
/// addresses that are looked up to find the announced patch exist.
pub open spec fn decodes_patch<P: Fn(&[u8]) -> (HekiPatch, bool)>(
    patch: P,
    source: PatchSource,
    bytes: Seq<u8>,
    patches: Map<u64, PatchModel>,
) -> bool {
    &&& forall|b: &[u8]| b@ == bytes ==> #[trigger] call_requires(patch, (b,))
    &&& forall|b: &[u8], p: HekiPatch, valid: bool|
        b@ == bytes && #[trigger] call_ensures(patch, (b,), (p, valid)) ==> !valid && source is TwoPages
            || searchable(patches, p.pa_0, p.pa_1)
}

/// The addresses that are looked up to find the announced patch exist.
pub open spec fn searchable(patches: Map<u64, PatchModel>, pa_0: u64, pa_1: u64) -> bool {
    is_phys(pa_0 as int) && (is_phys(pa_1 as int) || find_patch(patches, pa_0, pa_0) is Some)
}

/// The patching of kernel or module text. Only a patch that agrees with one that was announced is
/// written.
pub struct TextPatching {
    pub phase: TextPatchPhase,
    /// Whether the patch was found to agree with the announced one.
    pub agrees: Ghost<bool>,
}

impl TextPatching {
    /// What has happened when the operation is in its phase. In particular, text is written only
    /// for a patch that was announced and agrees with the announcement.
    pub open spec fn holds(self, info: Vtl0KernelInfo) -> bool {
        let patches = info.precomputed_patches@;
        match self.phase {
            TextPatchPhase::Copy { source, size } => source matches PatchSource::TwoPages {
                first_len,
                ..
            } ==> first_len <= size,
            TextPatchPhase::Compare { patch, announced } => find_patch(
                patches,
                patch.pa_0,
                patch.pa_1,
            ) == Some(announced@),
            TextPatchPhase::Write { patch, writes, next } => {
                &&& self.agrees@
                &&& find_patch(patches, patch.pa_0, patch.pa_1) is Some
                &&& writes@ == text_writes(patch@)
                &&& next < writes@.len()
            },
            TextPatchPhase::Done { result } => result is Ok ==> self.agrees@,
        }
    }

    /// The operation failed.
    pub open spec fn failed(self, error: VsmError) -> bool {
        self.phase == (TextPatchPhase::Done { result: Err(error) })
    }

    fn fail(agrees: Ghost<bool>, error: VsmError) -> (r: TextPatching)
        ensures
            r.failed(error),
            r.agrees == agrees,
    {
        TextPatching { phase: TextPatchPhase::Done { result: Err(error) }, agrees }
    }

    /// What the operation needs next.
    pub fn action(&self, info: &Vtl0KernelInfo) -> (r: TextPatchAction)
        requires
            self.holds(*info),
        ensures
            r == (match self.phase {
                TextPatchPhase::Copy { source, size } => TextPatchAction::Copy {
                    first: copy_runs(source, size).0,
                    second: copy_runs(source, size).1,
                },
                TextPatchPhase::Compare { patch: _, announced: _ } => TextPatchAction::Compare,
                TextPatchPhase::Write { patch: _, writes, next } => TextPatchAction::Write {
                    write: writes@[next as int],
                },
                TextPatchPhase::Done { result } => TextPatchAction::Finish { result },
            }),
    {
        match &self.phase {
            TextPatchPhase::Copy { source, size } => match source {
                PatchSource::OneRun { pa } => TextPatchAction::Copy {
                    first: CopyRun { pa: *pa, len: *size },
                    second: None,
                },
                PatchSource::TwoPages { pa_0, first_len, pa_1 } => TextPatchAction::Copy {
                    first: CopyRun { pa: *pa_0, len: *first_len },
                    second: Some(CopyRun { pa: *pa_1, len: *size - *first_len }),
                },
            },
            TextPatchPhase::Compare { patch: _, announced: _ } => TextPatchAction::Compare,
            TextPatchPhase::Write { patch: _, writes, next } => TextPatchAction::Write {
                write: writes[*next],
            },
            TextPatchPhase::Done { result } => TextPatchAction::Finish { result: *result },
        }
    }

    /// The requested patch and the announced one, while they are to be compared.
    pub fn patches(&self) -> (r: Option<(&HekiPatch, &HekiPatch)>)
        ensures
            r == (match self.phase {
                TextPatchPhase::Compare { patch, announced } => Some((&patch, &announced)),
                _ => None,
            }),
    {
        match &self.phase {
            TextPatchPhase::Compare { patch, announced } => Some((patch, announced)),
            _ => None,
        }
    }

    /// The code of the patch, while it is written.
    pub fn code(&self) -> (r: Option<&[u8]>)
        ensures
            match self.phase {
                TextPatchPhase::Write { patch, writes: _, next: _ } => r matches Some(code) && code@
                    == patch.code@,
                _ => r is None,
            },
    {
        match &self.phase {
            TextPatchPhase::Write { patch, writes: _, next: _ } => Some(patch.code.as_slice()),
            _ => None,
        }
    }

    /// Takes the bytes of the description of the patch, or nothing if the copy failed. `patch` decodes
    /// them, and tells whether they form a valid patch: bytes that were put together from two pages must.
    pub fn copied<P: Fn(&[u8]) -> (HekiPatch, bool)>(
        self,
        info: &Vtl0KernelInfo,
        bytes: Option<(Vec<u8>, Vec<u8>)>,
        patch: &P,
    ) -> (r: TextPatching)
        requires
            self.holds(*info),
            self.phase is Copy,
            bytes matches Some((first, second)) ==> {
                &&& runs_copied(self.phase->source, self.phase->size, first@, second@)
                &&& decodes_patch(
                    *patch,
                    self.phase->source,
                    first@ + second@,
                    info.precomputed_patches@,
                )
            },
        ensures
            r.holds(*info),
            !r.agrees@,
            match bytes {
                None => r.failed(VsmError::Vtl0CopyFailed),
                Some((first, second)) => exists|decoded: (HekiPatch, bool)| #[trigger]
                    reads(*patch, first@ + second@, decoded) && if self.phase->source is TwoPages
                        && !decoded.1 {
                        r.failed(VsmError::InvalidInputAddress)
                    } else {
                        match find_patch(
                            info.precomputed_patches@,
                            decoded.0.pa_0,
                            decoded.0.pa_1,
                        ) {
                            None => r.failed(VsmError::PrecomputedPatchNotFound),
                            Some(p) => {
                                &&& r.phase matches TextPatchPhase::Compare { patch: kept, announced }
                                &&& kept == decoded.0
                                &&& announced@ == p
                            },
                        }
                    },
            },
    {
        match self.phase {
            TextPatchPhase::Copy { source, size: _ } => {
                let (first, second) = match bytes {
                    Some(bytes) => bytes,
                    None => return TextPatching::fail(Ghost(false), VsmError::Vtl0CopyFailed),
                };
                let ghost all = first@ + second@;
                let mut whole = first;
                append_range(&mut whole, second.as_slice(), 0, second.len());
                let slice = whole.as_slice();
                assert(slice@ =~= all);
                let (decoded, valid) = patch(slice);
                assert(reads(*patch, all, (decoded, valid)));
                if let PatchSource::TwoPages { pa_0: _, first_len: _, pa_1: _ } = source {
                    if !valid {
                        return TextPatching::fail(Ghost(false), VsmError::InvalidInputAddress);
                    }
                }
                match info.find_precomputed_patch(decoded.pa_0, decoded.pa_1) {
                    Some(announced) => TextPatching {
                        phase: TextPatchPhase::Compare { patch: decoded, announced },
                        agrees: Ghost(false),
                    },
                    None => TextPatching::fail(Ghost(false), VsmError::PrecomputedPatchNotFound),
                }
            },
            phase => TextPatching { phase, agrees: self.agrees },
        }
    }

    /// Takes whether the patch agrees with the announced one.
    pub fn compared(self, info: &Vtl0KernelInfo, agrees: bool) -> (r: TextPatching)
        requires
            self.holds(*info),
            self.phase matches TextPatchPhase::Compare { patch, announced: _ } && (agrees
                ==> patch@.writable()),
        ensures
            r.holds(*info),
            r.agrees@ == agrees,
            match self.phase {
                TextPatchPhase::Compare { patch, announced: _ } => if !agrees {
                    r.failed(VsmError::TextPatchSuspicious)
                } else {
                    &&& r.phase matches TextPatchPhase::Write { patch: kept, writes, next }
                    &&& kept == patch
                    &&& writes@ == text_writes(patch@)
                    &&& next == 0
                },
                _ => true,
            },
    {
        if !agrees {
            return TextPatching::fail(Ghost(false), VsmError::TextPatchSuspicious);
        }
        match self.phase {
            TextPatchPhase::Compare { patch, announced: _ } => {
                let writes = apply_vtl0_text_patch(&patch);
                TextPatching {
                    phase: TextPatchPhase::Write { patch, writes, next: 0 },
                    agrees: Ghost(true),
                }
            },
            phase => TextPatching { phase, agrees: self.agrees },
        }
    }

    /// Takes whether a write succeeded.
    pub fn written(self, info: &Vtl0KernelInfo, written: bool) -> (r: TextPatching)
        requires
            self.holds(*info),
            self.phase is Write,
        ensures
            r.holds(*info),
            r.agrees == self.agrees,
            match self.phase {
                TextPatchPhase::Write { patch, writes, next } => if !written {
                    r.failed(VsmError::Vtl0CopyFailed)
                } else if next + 1 == writes@.len() {
                    r.phase == (TextPatchPhase::Done { result: Ok(0) })
                } else {
                    r.phase == (TextPatchPhase::Write { patch, writes, next: (next + 1) as usize })
                },
                _ => true,
            },
    {
        if !written {
            return TextPatching::fail(self.agrees, VsmError::Vtl0CopyFailed);
        }
        let agrees = self.agrees;
        match self.phase {
            TextPatchPhase::Write { patch, writes, next } => {
                if next + 1 == writes.len() {
                    return TextPatching {
                        phase: TextPatchPhase::Done { result: Ok(0) },
                        agrees,
                    };
                }
                TextPatching {
                    phase: TextPatchPhase::Write { patch, writes, next: next + 1 },
                    agrees,
                }
            },
            phase => TextPatching { phase, agrees },
        }
    }
}

/// Starts patching text: the description of the patch, of `size` bytes, stands at the two addresses.
pub fn mshv_vsm_patch_text(patch_pa_0: u64, patch_pa_1: u64, size: u64) -> (r: TextPatching)
    requires
        size > 0,
        first_page_ends(patch_pa_0 as int, patch_pa_1 as int),
    ensures
        forall|info: Vtl0KernelInfo| #[trigger] r.holds(info),
        !r.agrees@,
        match patch_source_spec(patch_pa_0, patch_pa_1, size) {
            Err(e) => r.failed(e),
            Ok(source) => r.phase == (TextPatchPhase::Copy { source, size }),
        },
{
    match copy_heki_patch_from_vtl0(patch_pa_0, patch_pa_1, size) {
        Ok(source) => TextPatching {
            phase: TextPatchPhase::Copy { source, size },
            agrees: Ghost(false),
        },
        Err(e) => TextPatching::fail(Ghost(false), e),
    }
}

/// Text is written only for a patch that was announced and agrees with the announcement, and what is
/// written are the pieces of its code, in order. A call succeeds only for such a patch.
pub proof fn law_only_announced_patches_are_written(op: TextPatching, info: Vtl0KernelInfo)
    requires
        op.holds(info),
    ensures
        match op.phase {
            TextPatchPhase::Write { patch, writes, next } => {
                &&& op.agrees@
                &&& find_patch(info.precomputed_patches@, patch.pa_0, patch.pa_1) is Some
                &&& writes@[next as int] == text_writes(patch@)[next as int]
            },
            TextPatchPhase::Done { result: Ok(_) } => op.agrees@,
            _ => true,
        },
{
}

} // verus!
