//! Mapping and unmapping physical pages of VTL0 in VTL1, step by step.
use vstd::prelude::*;

use crate::addr::{is_canonical, is_phys, page_aligned, page_up, PhysFrameRange};
use crate::lvbs::mapping::{map_non_contiguous_phys_frames, map_phys_frame_range, MapFrames, MapPhase, MapScattered, ScatteredModel, VmapPhase, Window};
use crate::lvbs::mm::{VMAP_END, VMAP_START};
use crate::lvbs::paging::{answers, PtAction, PtReply};
use crate::lvbs::remap::canonical_range;
use crate::lvbs::unmap::{unmap_pages, Unmap};
use crate::lvbs::vmap::{are_pages, contiguous, is_vmap_address, lemma_contiguous, repeats, unmap_vtl0_pages, vmap_alloc_error, vmap_alloc_error_spec, vmap_error, vmap_error_spec, vmap_flags, vmap_plan, PhysPageMapInfo, PhysPageMapPermissions, PhysPointerError, VmapAllocError, VmapPlan};

verus! {

/// How far the mapping of pages has come.
pub enum VmappingPhase {
    /// Contiguous pages are mapped in the direct map.
    Direct { map: MapFrames },
    /// Addresses for scattered pages are chosen.
    Choose { frames: Vec<u64>, flags: u64 },
    /// Scattered pages are mapped at the addresses that were chosen.
    Scattered { base: u64, map: MapScattered },
    /// The addresses that were chosen are given back, because the pages could not be mapped there.
    Release { base: u64, error: PhysPointerError },
    /// The operation is over.
    Done { result: Result<PhysPageMapInfo, PhysPointerError> },
}

/// What the mapping of pages needs next.
#[derive(Clone, Copy, PartialEq, Eq, Debug)]
pub enum VmapAction {
    /// Perform this on the page table, then call [`Vmapping::performed`].
    PageTable { action: PtAction },
    /// Choose addresses for `pages` pages, then call [`Vmapping::chosen`].
    Choose { pages: usize },
    /// Give the addresses from `base` on back, then call [`Vmapping::released`].
    Release { base: u64 },
    /// Nothing more.
    Finish { result: Result<PhysPageMapInfo, PhysPointerError> },
}

/// The mapping of pages. Addresses that were chosen for a mapping that fails are given back.
pub struct Vmapping {
    /// The pages.
    pub pages: Vec<u64>,
    pub phase: VmappingPhase,
    /// The chosen addresses that were not given back.
    pub chosen: Ghost<Option<u64>>,
}

/// The mapping at `base` of so many pages.
pub open spec fn map_info(base: u64, count: int) -> PhysPageMapInfo {
    PhysPageMapInfo { base, size: (4096 * count) as u64 }
}

impl Vmapping {
    /// What is the case when the operation is in its phase. In particular, addresses stay chosen
    /// exactly while they are mapped or a mapping at them is attempted.
    pub open spec fn holds(self) -> bool {
        &&& self.pages@.len() * 4096 <= u64::MAX
        &&& !(self.phase is Done) ==> self.pages@.len() > 0
        &&& match self.phase {
            VmappingPhase::Direct { map } => {
                &&& map.well_formed()
                &&& map.window == Window::Direct
                &&& !(map.phase is Mapped) && !(map.phase is Failed)
                &&& self.chosen@ is None
            },
            VmappingPhase::Choose { frames, flags: _ } => {
                &&& frames@ == self.pages@
                &&& self.chosen@ is None
            },
            VmappingPhase::Scattered { base, map } => {
                &&& map@.well_formed()
                &&& map@.base == base
                &&& !(map@.phase is Mapped) && !(map@.phase is Failed)
                &&& self.chosen@ == Some(base)
            },
            VmappingPhase::Release { base, error: _ } => self.chosen@ == Some(base),
            VmappingPhase::Done { result } => match result {
                Ok(info) => self.chosen@ is None || self.chosen@ == Some(info.base),
                Err(_) => self.chosen@ is None,
            },
        }
    }

    /// What the operation needs next.
    pub fn action(&self) -> (r: VmapAction)
        requires
            self.holds(),
        ensures
            r == (match self.phase {
                VmappingPhase::Direct { map } => VmapAction::PageTable {
                    action: map.spec_action(None),
                },
                VmappingPhase::Choose { frames, flags: _ } => VmapAction::Choose {
                    pages: frames@.len() as usize,
                },
                VmappingPhase::Scattered { base: _, map } => VmapAction::PageTable {
                    action: map@.action(),
                },
                VmappingPhase::Release { base, error: _ } => VmapAction::Release { base },
                VmappingPhase::Done { result } => VmapAction::Finish { result },
            }),
    {
        match &self.phase {
            VmappingPhase::Direct { map } => VmapAction::PageTable { action: map.action(None) },
            VmappingPhase::Choose { frames, flags: _ } => VmapAction::Choose {
                pages: frames.len(),
            },
            VmappingPhase::Scattered { base: _, map } => VmapAction::PageTable {
                action: map.action(),
            },
            VmappingPhase::Release { base, error: _ } => VmapAction::Release { base: *base },
            VmappingPhase::Done { result } => VmapAction::Finish { result: *result },
        }
    }

    /// Takes the outcome of an action on the page table.
    pub fn performed(self, reply: PtReply) -> (r: Vmapping)
        requires
            self.holds(),
            self.phase is Direct || self.phase is Scattered,
        ensures
            r.holds(),
            r.pages == self.pages,
            match self.phase {
                VmappingPhase::Direct { map } => {
                    let next = map.spec_advance(reply);
                    r.phase == (match next.phase {
                        MapPhase::Mapped => VmappingPhase::Done {
                            result: Ok(
                                map_info(
                                    next.window.va(next.range.start as int) as u64,
                                    self.pages@.len() as int,
                                ),
                            ),
                        },
                        MapPhase::Failed { error } => VmappingPhase::Done {
                            result: Err(vmap_error_spec(error, self.pages@[0])),
                        },
                        _ => VmappingPhase::Direct { map: next },
                    })
                },
                VmappingPhase::Scattered { base, map } => {
                    let next = map@.advance(reply);
                    match next.phase {
                        VmapPhase::Mapped => r.phase == (VmappingPhase::Done {
                            result: Ok(map_info(base, self.pages@.len() as int)),
                        }),
                        VmapPhase::Failed { error } => r.phase == (VmappingPhase::Release {
                            base,
                            error: vmap_error_spec(error, self.pages@[0]),
                        }),
                        _ => r.phase matches VmappingPhase::Scattered { base: same, map: m } && same
                            == base && m@ == next,
                    }
                },
                _ => true,
            },
    {
        let chosen = self.chosen;
        let pages = self.pages;
        let size: u64 = pages.len() as u64 * 4096;
        match self.phase {
            VmappingPhase::Direct { map } => {
                let mut map = map;
                map.advance(reply);
                let phase = match map.result() {
                    Some(Ok(base)) => VmappingPhase::Done {
                        result: Ok(PhysPageMapInfo { base, size }),
                    },
                    Some(Err(error)) => VmappingPhase::Done {
                        result: Err(vmap_error(error, pages[0])),
                    },
                    None => VmappingPhase::Direct { map },
                };
                Vmapping { pages, phase, chosen }
            },
            VmappingPhase::Scattered { base, map } => {
                let mut map = map;
                map.advance(reply);
                let phase = match map.result() {
                    Some(Ok(base)) => VmappingPhase::Done {
                        result: Ok(PhysPageMapInfo { base, size }),
                    },
                    Some(Err(error)) => VmappingPhase::Release {
                        base,
                        error: vmap_error(error, pages[0]),
                    },
                    None => VmappingPhase::Scattered { base, map },
                };
                Vmapping { pages, phase, chosen }
            },
            phase => Vmapping { pages, phase, chosen },
        }
    }

    /// Takes the addresses that were chosen, or why none could be chosen.
    pub fn chosen(self, outcome: Result<u64, VmapAllocError>) -> (r: Vmapping)
        requires
            self.holds(),
            self.phase is Choose,
            outcome matches Ok(base) ==> canonical_range(
                base as int,
                base + 4096 * self.pages@.len(),
            ),
        ensures
            r.holds(),
            r.pages == self.pages,
            match outcome {
                Err(e) => r.phase == (VmappingPhase::Done {
                    result: Err(vmap_alloc_error_spec(e, self.pages@[0])),
                }),
                Ok(base) => if !page_aligned(base as int) {
                    r.phase == (VmappingPhase::Release {
                        base,
                        error: PhysPointerError::FrameAllocationFailed,
                    })
                } else {
                    &&& r.phase matches VmappingPhase::Scattered { base: same, map }
                    &&& same == base
                    &&& map@ == (ScatteredModel {
                        base,
                        frames: self.pages@,
                        flags: self.phase->Choose_flags,
                        mapped: 0,
                        phase: VmapPhase::MapPage,
                    })
                },
            },
    {
        let pages = self.pages;
        match self.phase {
            VmappingPhase::Choose { frames, flags } => {
                let base = match outcome {
                    Ok(base) => base,
                    Err(e) => {
                        let error = vmap_alloc_error(e, pages[0]);
                        return Vmapping {
                            pages,
                            phase: VmappingPhase::Done { result: Err(error) },
                            chosen: Ghost(None),
                        };
                    },
                };
                let phase = match map_non_contiguous_phys_frames(frames, base, flags) {
                    Ok(map) => VmappingPhase::Scattered { base, map },
                    Err(error) => VmappingPhase::Release {
                        base,
                        error: vmap_error(error, pages[0]),
                    },
                };
                Vmapping { pages, phase, chosen: Ghost(Some(base)) }
            },
            phase => Vmapping { pages, phase, chosen: self.chosen },
        }
    }

    /// Takes that the addresses were given back.
    pub fn released(self) -> (r: Vmapping)
        requires
            self.holds(),
            self.phase is Release,
        ensures
            r.holds(),
            r.pages == self.pages,
            r.phase == (VmappingPhase::Done { result: Err(self.phase->Release_error) }),
    {
        let pages = self.pages;
        match self.phase {
            VmappingPhase::Release { base: _, error } => Vmapping {
                pages,
                phase: VmappingPhase::Done { result: Err(error) },
                chosen: Ghost(None),
            },
            phase => Vmapping { pages, phase, chosen: self.chosen },
        }
    }
}

/// Starts mapping pages: contiguous ones in the direct map, others at addresses of their own. The
/// direct map must have room for contiguous pages.
pub fn vmap(pages: Vec<u64>, perms: PhysPageMapPermissions) -> (r: Vmapping)
    requires
        are_pages(pages@),
        pages@.len() * 4096 <= u64::MAX,
        pages@.len() > 0 && contiguous(pages@) ==> is_phys(pages@.last() + 4096)
            && Window::Direct.holds(pages@.last() as int),
    ensures
        r.holds(),
        r.pages == pages,
        if pages@.len() == 0 {
            r.phase == (VmappingPhase::Done {
                result: Err(PhysPointerError::InvalidPhysicalAddress(0)),
            })
        } else if contiguous(pages@) {
            r.phase == (VmappingPhase::Direct {
                map: MapFrames {
                    window: Window::Direct,
                    range: PhysFrameRange {
                        start: pages@[0],
                        end: (pages@.last() + 4096) as u64,
                    },
                    cur: pages@[0],
                    flags: vmap_flags(perms.write),
                    phase: MapPhase::LookUp,
                },
            })
        } else if pages@.no_duplicates() {
            r.phase matches VmappingPhase::Choose { frames, flags } && frames@ == pages@ && flags
                == vmap_flags(perms.write)
        } else {
            r.phase matches VmappingPhase::Done { result: Err(
                PhysPointerError::DuplicatePhysicalAddress(addr),
            ) } && exists|i: int|
                #![trigger pages@[i]]
                repeats(pages@, i) && pages@[i] == addr && forall|j: int|
                    0 <= j < i ==> !repeats(pages@, j)
        },
{
    let phase = match vmap_plan(&pages, perms) {
        Ok(VmapPlan::Direct { range, flags }) => {
            proof {
                lemma_contiguous(pages@);
                assert(page_aligned(pages@[0] as int));
                assert(page_aligned(pages@[pages@.len() - 1] as int));
            }
            VmappingPhase::Direct { map: map_phys_frame_range(Window::Direct, range, flags) }
        },
        Ok(VmapPlan::Scattered { frames, flags }) => VmappingPhase::Choose { frames, flags },
        Err(error) => VmappingPhase::Done { result: Err(error) },
    };
    Vmapping { pages, phase, chosen: Ghost(None) }
}

/// How far the unmapping of pages has come.
pub enum VunmappingPhase {
    /// The pages are unmapped.
    Unmap { op: Unmap },
    /// The addresses are given back.
    Release,
    /// The operation is over.
    Done { result: Result<(), PhysPointerError> },
}

/// What the unmapping of pages needs next.
#[derive(Clone, Copy, PartialEq, Eq, Debug)]
pub enum VunmapAction {
    /// Perform this on the page table, then call [`Vunmapping::performed`].
    PageTable { action: PtAction },
    /// Give the addresses from `base` on back, then call [`Vunmapping::released`].
    Release { base: u64 },
    /// Nothing more.
    Finish { result: Result<(), PhysPointerError> },
}

/// The unmapping of pages. Addresses are given back only once nothing is mapped there, so that they
/// can be used again.
pub struct Vunmapping {
    pub base: u64,
    pub phase: VunmappingPhase,
    /// Whether the pages are unmapped.
    pub unmapped: Ghost<bool>,
}

impl Vunmapping {
    /// What is the case when the operation is in its phase.
    pub open spec fn holds(self) -> bool {
        match self.phase {
            VunmappingPhase::Unmap { op } => op@.well_formed() && !(op@.phase is Finished),
            VunmappingPhase::Release => self.unmapped@ && VMAP_START <= self.base < VMAP_END,
            VunmappingPhase::Done { result } => result is Ok ==> self.unmapped@,
        }
    }

    /// The pages are unmapped: addresses of the region for scattered pages are given back.
    pub open spec fn after_unmapping(self) -> bool {
        if VMAP_START <= self.base < VMAP_END {
            self.phase is Release
        } else {
            self.phase == (VunmappingPhase::Done { result: Ok(()) })
        }
    }

    fn release(base: u64) -> (r: Vunmapping)
        ensures
            r.holds(),
            r.base == base,
            r.after_unmapping(),
    {
        let phase = if is_vmap_address(base) {
            VunmappingPhase::Release
        } else {
            VunmappingPhase::Done { result: Ok(()) }
        };
        Vunmapping { base, phase, unmapped: Ghost(true) }
    }

    /// What the operation needs next.
    pub fn action(&self) -> (r: VunmapAction)
        requires
            self.holds(),
        ensures
            r == (match self.phase {
                VunmappingPhase::Unmap { op } => VunmapAction::PageTable { action: op@.action() },
                VunmappingPhase::Release => VunmapAction::Release { base: self.base },
                VunmappingPhase::Done { result } => VunmapAction::Finish { result },
            }),
    {
        match &self.phase {
            VunmappingPhase::Unmap { op } => VunmapAction::PageTable { action: op.action() },
            VunmappingPhase::Release => VunmapAction::Release { base: self.base },
            VunmappingPhase::Done { result } => VunmapAction::Finish { result: *result },
        }
    }

    /// Takes the outcome of an action on the page table.
    pub fn performed(self, reply: PtReply) -> (r: Vunmapping)
        requires
            self.holds(),
            self.phase is Unmap,
            answers(self.phase->Unmap_op@.action(), reply),
        ensures
            r.holds(),
            r.base == self.base,
            ({
                let next = self.phase->Unmap_op@.advance(reply);
                if next.phase is Finished {
                    r.after_unmapping()
                } else {
                    r.phase matches VunmappingPhase::Unmap { op } && op@ == next
                }
            }),
    {
        match self.phase {
            VunmappingPhase::Unmap { op } => {
                let mut op = op;
                op.advance(reply);
                if op.is_finished() {
                    return Vunmapping::release(self.base);
                }
                Vunmapping {
                    base: self.base,
                    phase: VunmappingPhase::Unmap { op },
                    unmapped: Ghost(false),
                }
            },
            phase => Vunmapping { base: self.base, phase, unmapped: self.unmapped },
        }
    }

    /// Takes whether the addresses were in use, and are given back now.
    pub fn released(self, in_use: bool) -> (r: Vunmapping)
        requires
            self.holds(),
            self.phase is Release,
        ensures
            r.holds(),
            r.base == self.base,
            r.phase == (VunmappingPhase::Done {
                result: if in_use {
                    Ok::<(), PhysPointerError>(())
                } else {
                    Err(PhysPointerError::Unmapped(self.base))
                },
            }),
    {
        let result = if in_use {
            Ok(())
        } else {
            Err(PhysPointerError::Unmapped(self.base))
        };
        Vunmapping {
            base: self.base,
            phase: VunmappingPhase::Done { result },
            unmapped: self.unmapped,
        }
    }
}

/// Starts unmapping what [`vmap`] mapped.
pub fn vunmap(info: PhysPageMapInfo) -> (r: Vunmapping)
    requires
        is_canonical(info.base as int),
        is_canonical(info.base + info.size) ==> page_up(info.base + info.size) <= u64::MAX,
    ensures
        r.holds(),
        r.base == info.base,
        if !page_aligned(info.base as int) || !is_canonical(info.base + info.size) {
            r.phase == (VunmappingPhase::Done {
                result: Err(PhysPointerError::Unmapped(info.base)),
            })
        } else if info.size == 0 {
            r.after_unmapping()
        } else {
            &&& r.phase matches VunmappingPhase::Unmap { op }
            &&& op@.start == info.base
            &&& op@.end == page_up(info.base + info.size)
            &&& op@.cur == info.base
            &&& !op@.dealloc_frames && op@.flush_tlb && !op@.clean_up
        },
{
    let failed = Vunmapping {
        base: info.base,
        phase: VunmappingPhase::Done { result: Err(PhysPointerError::Unmapped(info.base)) },
        unmapped: Ghost(false),
    };
    match unmap_vtl0_pages(info.base, info.size) {
        Ok((start, end)) => match unmap_pages(start, end, false, true, false) {
            Ok(op) => {
                if op.is_finished() {
                    return Vunmapping::release(info.base);
                }
                Vunmapping {
                    base: info.base,
                    phase: VunmappingPhase::Unmap { op },
                    unmapped: Ghost(false),
                }
            },
            Err(_) => failed,
        },
        Err(_) => failed,
    }
}

} // verus!
