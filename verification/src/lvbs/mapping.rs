//! Mapping physical frames, and changing the permissions of mapped pages.
use vstd::prelude::*;

use crate::addr::{page_align_down, page_aligned, page_down, PhysFrameRange, PAGE_BYTES};
use crate::lvbs::mm::{direct_va, kernel_va, GVA_OFFSET, KERNEL_OFFSET, VMAP_START};
use crate::lvbs::paging::{page_flags, page_flags_spec, MapFailure, PhysRange, PtAction, PtReply, Translation, KERNEL_TABLE_FLAGS};
use crate::lvbs::remap::{canonical_range, perform, Leaf, PtModel};

verus! {

/// Where physical frames appear in the virtual address space.
#[derive(Clone, Copy, PartialEq, Eq, Structural, Debug)]
pub enum Window {
    /// In the kernel region.
    Kernel,
    /// In the direct map.
    Direct,
}

impl Window {
    /// The virtual address of a physical address.
    pub open spec fn va(self, pa: int) -> int {
        match self {
            Window::Kernel => kernel_va(pa),
            Window::Direct => direct_va(pa),
        }
    }

    /// The window has room for a physical address, and those before it.
    pub open spec fn holds(self, pa: int) -> bool {
        match self {
            Window::Kernel => kernel_va(pa) <= u64::MAX,
            Window::Direct => direct_va(pa) < VMAP_START,
        }
    }

    /// The window has room for where each of the frames starts.
    pub open spec fn has_room(self, range: PhysFrameRange) -> bool {
        self.holds(range.start as int) && (range.start < range.end ==> self.holds(range.end - 4096))
    }

    /// The virtual address of a physical address.
    pub fn pa_to_va(&self, pa: u64) -> (r: u64)
        requires
            self.holds(pa as int),
        ensures
            r == self.va(pa as int),
    {
        match self {
            Window::Kernel => pa + KERNEL_OFFSET,
            Window::Direct => pa + GVA_OFFSET,
        }
    }
}

/// What a mapping of frames is waiting for.
#[derive(Clone, Copy, PartialEq, Eq, Structural, Debug)]
pub enum MapPhase {
    /// To learn what the current page maps to.
    LookUp,
    /// To map the current page.
    MapPage,
    /// To flush the pages.
    Flush,
    /// Nothing: all frames are mapped.
    Mapped,
    /// Nothing: the current frame could not be mapped. Frames before it are mapped.
    Failed { error: MapFailure },
}

/// A mapping of contiguous frames at their place in a window.
#[derive(Clone, Copy, PartialEq, Eq, Structural, Debug)]
pub struct MapFrames {
    pub window: Window,
    pub range: PhysFrameRange,
    /// The current frame.
    pub cur: u64,
    pub flags: u64,
    pub phase: MapPhase,
}

impl MapFrames {
    /// The frames exist and fit in the window, and the mapping stands between its ends.
    pub open spec fn well_formed(self) -> bool {
        &&& self.range.well_formed()
        &&& self.range.start <= self.cur <= self.range.end
        &&& page_aligned(self.cur as int)
        &&& self.window.has_room(self.range)
        &&& self.phase is LookUp || self.phase is MapPage ==> self.cur < self.range.end
        &&& self.phase is Flush || self.phase is Mapped ==> self.cur == self.range.end
    }

    /// The page of the current frame.
    pub open spec fn page(self) -> u64 {
        self.window.va(self.cur as int) as u64
    }

    /// The mapping behind the current frame.
    pub open spec fn next_frame(self) -> MapFrames {
        let cur = (self.cur + 4096) as u64;
        MapFrames {
            cur,
            phase: if cur < self.range.end {
                MapPhase::LookUp
            } else {
                MapPhase::Flush
            },
            ..self
        }
    }

    /// What the mapping asks for next. With executable ranges, the flags of a page depend on whether
    /// its frame lies in one of them.
    pub open spec fn spec_action(self, exec_ranges: Option<Seq<PhysRange>>) -> PtAction {
        match self.phase {
            MapPhase::LookUp => PtAction::Translate { page: self.page() },
            MapPhase::MapPage => PtAction::MapTo {
                page: self.page(),
                frame: self.cur,
                flags: page_flags_spec(self.flags, exec_ranges, self.cur),
                table_flags: Some(KERNEL_TABLE_FLAGS),
            },
            MapPhase::Flush => PtAction::FlushTlb {
                start: self.window.va(self.range.start as int) as u64,
                count: ((self.range.end - self.range.start) / 4096) as u64,
            },
            MapPhase::Mapped | MapPhase::Failed { error: _ } => PtAction::Finished,
        }
    }

    /// The mapping behind the outcome of its action. A page that maps to its frame already is passed
    /// over; one that maps to another frame is an error.
    pub open spec fn spec_advance(self, reply: PtReply) -> MapFrames {
        match (self.phase, reply) {
            (MapPhase::LookUp, PtReply::Translated(t)) => match t {
                Translation::Mapped { frame, flags: _ } => if frame == self.cur {
                    self.next_frame()
                } else {
                    MapFrames {
                        phase: MapPhase::Failed {
                            error: MapFailure::PageAlreadyMapped {
                                frame: page_down(frame as int) as u64,
                            },
                        },
                        ..self
                    }
                },
                Translation::NotMapped => MapFrames { phase: MapPhase::MapPage, ..self },
                Translation::InvalidFrameAddress => MapFrames {
                    phase: MapPhase::Failed { error: MapFailure::FrameAllocationFailed },
                    ..self
                },
            },
            (MapPhase::MapPage, PtReply::Mapped(r)) => match r {
                Ok(()) => self.next_frame(),
                Err(error) => MapFrames { phase: MapPhase::Failed { error }, ..self },
            },
            (MapPhase::Flush, _) => MapFrames { phase: MapPhase::Mapped, ..self },
            _ => self,
        }
    }

    /// What the mapping asks for next.
    pub fn action(&self, exec_ranges: Option<&Vec<PhysRange>>) -> (r: PtAction)
        requires
            self.well_formed(),
        ensures
            r == self.spec_action(
                match exec_ranges {
                    Some(ranges) => Some(ranges@),
                    None => None,
                },
            ),
    {
        match self.phase {
            MapPhase::LookUp => PtAction::Translate { page: self.window.pa_to_va(self.cur) },
            MapPhase::MapPage => PtAction::MapTo {
                page: self.window.pa_to_va(self.cur),
                frame: self.cur,
                flags: page_flags(self.flags, exec_ranges, self.cur),
                table_flags: Some(KERNEL_TABLE_FLAGS),
            },
            MapPhase::Flush => PtAction::FlushTlb {
                start: self.window.pa_to_va(self.range.start),
                count: (self.range.end - self.range.start) / PAGE_BYTES,
            },
            MapPhase::Mapped | MapPhase::Failed { error: _ } => PtAction::Finished,
        }
    }

    fn move_on(&mut self)
        requires
            old(self).well_formed(),
            old(self).cur < old(self).range.end,
        ensures
            *final(self) == old(self).next_frame(),
            final(self).well_formed(),
    {
        self.cur = self.cur + PAGE_BYTES;
        self.phase = if self.cur < self.range.end {
            MapPhase::LookUp
        } else {
            MapPhase::Flush
        };
    }

    /// Takes the outcome of the action.
    pub fn advance(&mut self, reply: PtReply)
        requires
            old(self).well_formed(),
        ensures
            final(self).well_formed(),
            *final(self) == old(self).spec_advance(reply),
    {
        match (self.phase, reply) {
            (MapPhase::LookUp, PtReply::Translated(t)) => match t {
                Translation::Mapped { frame, flags: _ } => {
                    if frame == self.cur {
                        self.move_on();
                    } else {
                        self.phase = MapPhase::Failed {
                            error: MapFailure::PageAlreadyMapped { frame: page_align_down(frame) },
                        };
                    }
                },
                Translation::NotMapped => {
                    self.phase = MapPhase::MapPage;
                },
                Translation::InvalidFrameAddress => {
                    self.phase = MapPhase::Failed { error: MapFailure::FrameAllocationFailed };
                },
            },
            (MapPhase::MapPage, PtReply::Mapped(r)) => match r {
                Ok(()) => self.move_on(),
                Err(error) => {
                    self.phase = MapPhase::Failed { error };
                },
            },
            (MapPhase::Flush, _) => {
                self.phase = MapPhase::Mapped;
            },
            _ => {},
        }
    }

    /// The result of the mapping, once it has ended: the virtual address of the first frame.
    pub fn result(&self) -> (r: Option<Result<u64, MapFailure>>)
        requires
            self.well_formed(),
        ensures
            r == (match self.phase {
                MapPhase::Mapped => Some(
                    Ok::<u64, MapFailure>(self.window.va(self.range.start as int) as u64),
                ),
                MapPhase::Failed { error } => Some(Err(error)),
                _ => None,
            }),
    {
        match self.phase {
            MapPhase::Mapped => Some(Ok(self.window.pa_to_va(self.range.start))),
            MapPhase::Failed { error } => Some(Err(error)),
            _ => None,
        }
    }
}

/// Starts mapping contiguous frames at their place in a window.
pub fn map_phys_frame_range(window: Window, range: PhysFrameRange, flags: u64) -> (r: MapFrames)
    requires
        range.well_formed(),
        range.start <= range.end,
        window.has_room(range),
    ensures
        r.well_formed(),
        r == (MapFrames {
            window,
            range,
            cur: range.start,
            flags,
            phase: if range.start < range.end {
                MapPhase::LookUp
            } else {
                MapPhase::Flush
            },
        }),
{
    MapFrames {
        window,
        range,
        cur: range.start,
        flags,
        phase: if range.start < range.end {
            MapPhase::LookUp
        } else {
            MapPhase::Flush
        },
    }
}

/// The mapping and the page table after so many steps.
pub open spec fn run_map(
    m: MapFrames,
    exec_ranges: Option<Seq<PhysRange>>,
    pt: PtModel,
    steps: nat,
) -> (MapFrames, PtModel)
    decreases steps,
{
    if steps == 0 {
        (m, pt)
    } else {
        let answered = perform(pt, m.spec_action(exec_ranges));
        run_map(m.spec_advance(answered.1), exec_ranges, answered.0, (steps - 1) as nat)
    }
}

/// The frame that stands behind a page of a window.
pub open spec fn frame_behind(window: Window, page: u64) -> u64 {
    (page - window.va(0)) as u64
}

/// The page belongs to one of the frames that are still to be mapped.
pub open spec fn page_in_window(m: MapFrames, page: u64) -> bool {
    m.window.va(m.cur as int) <= page < m.window.va(m.range.end as int) && page_aligned(page as int)
}

/// No page of the window maps to another frame than its own.
pub open spec fn window_usable(m: MapFrames, pt: PtModel) -> bool {
    forall|page: u64| #[trigger]
        pt.dom().contains(page) && page_in_window(m, page) ==> pt[page].frame == frame_behind(
            m.window,
            page,
        )
}

/// What the page table says of a page of the window once the frames are mapped: its own frame. A
/// page that mapped to it before keeps its flags.
pub open spec fn window_leaf(
    m: MapFrames,
    exec_ranges: Option<Seq<PhysRange>>,
    pt: PtModel,
    page: u64,
) -> Leaf {
    if pt.dom().contains(page) {
        pt[page]
    } else {
        let frame = frame_behind(m.window, page);
        Leaf { frame, flags: page_flags_spec(m.flags, exec_ranges, frame) }
    }
}

/// Runs stay where they ended.
proof fn lemma_map_ended(
    m: MapFrames,
    exec_ranges: Option<Seq<PhysRange>>,
    pt: PtModel,
    steps: nat,
)
    requires
        m.phase is Mapped,
    ensures
        run_map(m, exec_ranges, pt, steps) == (m, pt),
    decreases steps,
{
    if steps > 0 {
        lemma_map_ended(m, exec_ranges, pt, (steps - 1) as nat);
    }
}

/// Mapping frames in a window whose pages are free or show their frames already succeeds: every
/// frame then appears at its place in the window, and no other page changes. `page` is any page.
pub proof fn law_window_shows_frames(
    m: MapFrames,
    exec_ranges: Option<Seq<PhysRange>>,
    pt: PtModel,
    steps: nat,
    page: u64,
)
    requires
        m.well_formed(),
        m.phase is LookUp || m.phase is Flush,
        window_usable(m, pt),
        steps >= 2 * ((m.range.end - m.cur) / 4096) + 1,
    ensures
        ({
            let end = run_map(m, exec_ranges, pt, steps);
            &&& end.0.phase is Mapped
            &&& if page_in_window(m, page) {
                end.1.dom().contains(page) && end.1[page] == window_leaf(m, exec_ranges, pt, page)
            } else {
                &&& end.1.dom().contains(page) == pt.dom().contains(page)
                &&& pt.dom().contains(page) ==> end.1[page] == pt[page]
            }
        }),
    decreases m.range.end - m.cur,
{
    let answered = perform(pt, m.spec_action(exec_ranges));
    let m1 = m.spec_advance(answered.1);
    let s1 = (steps - 1) as nat;
    if m.phase is Flush {
        lemma_map_ended(m1, exec_ranges, pt, s1);
    } else {
        let cur = m.page();
        let next = m.next_frame();
        assert(page_in_window(m, cur));
        assert(frame_behind(m.window, cur) == m.cur);
        let pt1 = pt.insert(cur, window_leaf(m, exec_ranges, pt, cur));
        assert(window_usable(next, pt1)) by {
            assert forall|p: u64| #[trigger]
                pt1.dom().contains(p) && page_in_window(next, p) implies pt1[p].frame
                == frame_behind(next.window, p) by {
                assert(p != cur);
                assert(pt.dom().contains(p) && page_in_window(m, p));
            }
        }
        if pt.dom().contains(cur) {
            assert(m1 == next);
            assert(pt1 =~= pt);
            law_window_shows_frames(next, exec_ranges, pt, s1, page);
        } else {
            let a1 = perform(pt, m1.spec_action(exec_ranges));
            assert(m1.spec_advance(a1.1) == next);
            assert(a1.0 =~= pt1);
            let s2 = (s1 - 1) as nat;
            assert(run_map(m1, exec_ranges, pt, s1) == run_map(next, exec_ranges, pt1, s2));
            law_window_shows_frames(next, exec_ranges, pt1, s2, page);
        }
        if page_in_window(m, page) && page != cur {
            assert(page_in_window(next, page));
        }
    }
}

/// What a mapping of scattered frames is waiting for.
#[derive(Clone, Copy, PartialEq, Eq, Structural, Debug)]
pub enum VmapPhase {
    /// To map the next page.
    MapPage,
    /// To clear a page again, because a later one could not be mapped.
    RollBack { index: usize, error: MapFailure },
    /// To flush the pages that were cleared again.
    RollBackFlush { error: MapFailure },
    /// To free the tables that have become empty.
    RollBackCleanUp { error: MapFailure },
    /// To flush the pages.
    Flush,
    /// Nothing: all frames are mapped.
    Mapped,
    /// Nothing: no frame is mapped.
    Failed { error: MapFailure },
}

/// A mapping of frames that need not be contiguous at consecutive pages, all or none.
pub struct MapScattered {
    base: u64,
    frames: Vec<u64>,
    flags: u64,
    mapped: usize,
    phase: VmapPhase,
}

/// A mapping of scattered frames as a mathematical value.
#[verifier::ext_equal]
pub struct ScatteredModel {
    pub base: u64,
    pub frames: Seq<u64>,
    pub flags: u64,
    /// How many of the frames are mapped.
    pub mapped: int,
    pub phase: VmapPhase,
}

impl ScatteredModel {
    /// The pages exist, and as many frames are mapped as the phase says.
    pub open spec fn well_formed(self) -> bool {
        &&& page_aligned(self.base as int)
        &&& canonical_range(self.base as int, self.base + 4096 * self.frames.len())
        &&& 0 <= self.mapped <= self.frames.len() <= usize::MAX
        &&& match self.phase {
            VmapPhase::MapPage => self.mapped < self.frames.len(),
            VmapPhase::RollBack { index, error: _ } => index < self.mapped,
            VmapPhase::RollBackFlush { error: _ } | VmapPhase::RollBackCleanUp { error: _ } =>
                self.mapped > 0,
            VmapPhase::Flush | VmapPhase::Mapped => self.mapped == self.frames.len(),
            VmapPhase::Failed { error: _ } => true,
        }
    }

    /// The page of frame `i`.
    pub open spec fn page(self, i: int) -> u64 {
        (self.base + 4096 * i) as u64
    }

    /// What the mapping asks for next.
    pub open spec fn action(self) -> PtAction {
        match self.phase {
            VmapPhase::MapPage => PtAction::MapTo {
                page: self.page(self.mapped),
                frame: self.frames[self.mapped],
                flags: self.flags,
                table_flags: Some(KERNEL_TABLE_FLAGS),
            },
            VmapPhase::RollBack { index, error: _ } => PtAction::Unmap {
                page: self.page(index as int),
            },
            VmapPhase::RollBackFlush { error: _ } => PtAction::FlushTlb {
                start: self.base,
                count: self.mapped as u64,
            },
            VmapPhase::RollBackCleanUp { error: _ } => PtAction::CleanUp {
                start: self.base,
                last: self.page(self.mapped - 1),
            },
            VmapPhase::Flush => PtAction::FlushTlb { start: self.base, count: self.mapped as u64 },
            VmapPhase::Mapped | VmapPhase::Failed { error: _ } => PtAction::Finished,
        }
    }

    /// The mapping behind the outcome of its action.
    pub open spec fn advance(self, reply: PtReply) -> ScatteredModel {
        match (self.phase, reply) {
            (VmapPhase::MapPage, PtReply::Mapped(r)) => match r {
                Ok(()) => {
                    let mapped = self.mapped + 1;
                    ScatteredModel {
                        mapped,
                        phase: if mapped < self.frames.len() {
                            VmapPhase::MapPage
                        } else {
                            VmapPhase::Flush
                        },
                        ..self
                    }
                },
                Err(error) => ScatteredModel {
                    phase: if self.mapped > 0 {
                        VmapPhase::RollBack { index: 0, error }
                    } else {
                        VmapPhase::Failed { error }
                    },
                    ..self
                },
            },
            (VmapPhase::RollBack { index, error }, _) => ScatteredModel {
                phase: if index + 1 < self.mapped {
                    VmapPhase::RollBack { index: (index + 1) as usize, error }
                } else {
                    VmapPhase::RollBackFlush { error }
                },
                ..self
            },
            (VmapPhase::RollBackFlush { error }, _) => ScatteredModel {
                phase: VmapPhase::RollBackCleanUp { error },
                ..self
            },
            (VmapPhase::RollBackCleanUp { error }, _) => ScatteredModel {
                phase: VmapPhase::Failed { error },
                ..self
            },
            (VmapPhase::Flush, _) => ScatteredModel { phase: VmapPhase::Mapped, ..self },
            _ => self,
        }
    }
}

impl View for MapScattered {
    type V = ScatteredModel;

    closed spec fn view(&self) -> ScatteredModel {
        ScatteredModel {
            base: self.base,
            frames: self.frames@,
            flags: self.flags,
            mapped: self.mapped as int,
            phase: self.phase,
        }
    }
}

/// Starts mapping frames at consecutive pages from `base_va` on. An address that starts no page is
/// refused as if there were no memory.
pub fn map_non_contiguous_phys_frames(frames: Vec<u64>, base_va: u64, flags: u64) -> (r: Result<
    MapScattered,
    MapFailure,
>)
    requires
        canonical_range(base_va as int, base_va + 4096 * frames@.len()),
    ensures
        if !page_aligned(base_va as int) {
            r == Err::<MapScattered, _>(MapFailure::FrameAllocationFailed)
        } else {
            &&& r matches Ok(m)
            &&& m@.well_formed()
            &&& m@ == (ScatteredModel {
                base: base_va,
                frames: frames@,
                flags,
                mapped: 0,
                phase: if frames@.len() > 0 {
                    VmapPhase::MapPage
                } else {
                    VmapPhase::Flush
                },
            })
        },
{
    if base_va % PAGE_BYTES != 0 {
        return Err(MapFailure::FrameAllocationFailed);
    }
    let phase = if frames.len() > 0 {
        VmapPhase::MapPage
    } else {
        VmapPhase::Flush
    };
    Ok(MapScattered { base: base_va, frames, flags, mapped: 0, phase })
}

impl MapScattered {
    /// What the mapping asks for next.
    pub fn action(&self) -> (r: PtAction)
        requires
            self@.well_formed(),
        ensures
            r == self@.action(),
    {
        match self.phase {
            VmapPhase::MapPage => PtAction::MapTo {
                page: self.base + PAGE_BYTES * self.mapped as u64,
                frame: self.frames[self.mapped],
                flags: self.flags,
                table_flags: Some(KERNEL_TABLE_FLAGS),
            },
            VmapPhase::RollBack { index, error: _ } => PtAction::Unmap {
                page: self.base + PAGE_BYTES * index as u64,
            },
            VmapPhase::RollBackFlush { error: _ } => PtAction::FlushTlb {
                start: self.base,
                count: self.mapped as u64,
            },
            VmapPhase::RollBackCleanUp { error: _ } => PtAction::CleanUp {
                start: self.base,
                last: self.base + PAGE_BYTES * (self.mapped - 1) as u64,
            },
            VmapPhase::Flush => PtAction::FlushTlb { start: self.base, count: self.mapped as u64 },
            VmapPhase::Mapped | VmapPhase::Failed { error: _ } => PtAction::Finished,
        }
    }

    /// Takes the outcome of the action.
    pub fn advance(&mut self, reply: PtReply)
        requires
            old(self)@.well_formed(),
        ensures
            final(self)@.well_formed(),
            final(self)@ == old(self)@.advance(reply),
    {
        match (self.phase, reply) {
            (VmapPhase::MapPage, PtReply::Mapped(r)) => match r {
                Ok(()) => {
                    self.mapped = self.mapped + 1;
                    self.phase = if self.mapped < self.frames.len() {
                        VmapPhase::MapPage
                    } else {
                        VmapPhase::Flush
                    };
                },
                Err(error) => {
                    self.phase = if self.mapped > 0 {
                        VmapPhase::RollBack { index: 0, error }
                    } else {
                        VmapPhase::Failed { error }
                    };
                },
            },
            (VmapPhase::RollBack { index, error }, _) => {
                self.phase = if index + 1 < self.mapped {
                    VmapPhase::RollBack { index: index + 1, error }
                } else {
                    VmapPhase::RollBackFlush { error }
                };
            },
            (VmapPhase::RollBackFlush { error }, _) => {
                self.phase = VmapPhase::RollBackCleanUp { error };
            },
            (VmapPhase::RollBackCleanUp { error }, _) => {
                self.phase = VmapPhase::Failed { error };
            },
            (VmapPhase::Flush, _) => {
                self.phase = VmapPhase::Mapped;
            },
            _ => {},
        }
    }

    /// The result of the mapping, once it has ended: the virtual address of the first frame.
    pub fn result(&self) -> (r: Option<Result<u64, MapFailure>>)
        ensures
            r == (match self@.phase {
                VmapPhase::Mapped => Some(Ok::<u64, MapFailure>(self@.base)),
                VmapPhase::Failed { error } => Some(Err(error)),
                _ => None,
            }),
    {
        match self.phase {
            VmapPhase::Mapped => Some(Ok(self.base)),
            VmapPhase::Failed { error } => Some(Err(error)),
            _ => None,
        }
    }
}

/// The mapping and the page table after so many steps.
pub open spec fn run_scattered(m: ScatteredModel, pt: PtModel, steps: nat) -> (
    ScatteredModel,
    PtModel,
)
    decreases steps,
{
    if steps == 0 {
        (m, pt)
    } else {
        let answered = perform(pt, m.action());
        run_scattered(m.advance(answered.1), answered.0, (steps - 1) as nat)
    }
}

/// The page table with the first `n` frames of a mapping mapped.
pub open spec fn with_mapped(pt: PtModel, m: ScatteredModel, n: nat) -> PtModel
    decreases n,
{
    if n == 0 {
        pt
    } else {
        with_mapped(pt, m, (n - 1) as nat).insert(
            m.page(n - 1),
            Leaf { frame: m.frames[n - 1], flags: m.flags },
        )
    }
}

/// What is mapped by `with_mapped`.
pub proof fn lemma_with_mapped(pt: PtModel, m: ScatteredModel, n: nat)
    requires
        m.well_formed(),
        n <= m.frames.len(),
    ensures
        forall|p: u64| #[trigger]
            with_mapped(pt, m, n).dom().contains(p) <==> pt.dom().contains(p) || (m.base <= p
                < m.base + 4096 * n && page_aligned(p as int)),
        forall|p: u64|
            pt.dom().contains(p) && !(m.base <= p < m.base + 4096 * n) ==> #[trigger] with_mapped(
                pt,
                m,
                n,
            )[p] == pt[p],
    decreases n,
{
    if n > 0 {
        lemma_with_mapped(pt, m, (n - 1) as nat);
        assert forall|p: u64| #[trigger]
            with_mapped(pt, m, n).dom().contains(p) <==> pt.dom().contains(p) || (m.base <= p
                < m.base + 4096 * n && page_aligned(p as int)) by {
            assert(with_mapped(pt, m, (n - 1) as nat).dom().contains(p) <==> pt.dom().contains(p)
                || (m.base <= p < m.base + 4096 * (n - 1) && page_aligned(p as int)));
        }
        assert forall|p: u64|
            pt.dom().contains(p) && !(m.base <= p < m.base + 4096 * n) implies #[trigger] with_mapped(
            pt,
            m,
            n,
        )[p] == pt[p] by {
            assert(with_mapped(pt, m, (n - 1) as nat)[p] == pt[p]);
        }
    }
}

/// The page table while the first `index` of the mapped pages were cleared again.
pub open spec fn rolled_back(pt: PtModel, m: ScatteredModel, index: int) -> PtModel {
    with_mapped(pt, m, m.mapped as nat).remove_keys(
        Set::new(|p: u64| m.base <= p < m.base + 4096 * index && page_aligned(p as int)),
    )
}

/// A mapping that rolls back leaves the page table as it was before the mapping.
proof fn lemma_roll_back(m: ScatteredModel, pt: PtModel, cur: PtModel, steps: nat, error: MapFailure)
    requires
        m.well_formed(),
        m.phase matches VmapPhase::RollBack { index, error: e } && e == error && cur =~= rolled_back(
            pt,
            m,
            index as int,
        ) && steps >= (m.mapped - index) + 2,
        forall|p: u64|
            m.base <= p < m.base + 4096 * m.mapped && page_aligned(p as int) ==> !(
            #[trigger] pt.dom().contains(p)),
    ensures
        run_scattered(m, cur, steps).0.phase == (VmapPhase::Failed { error }),
        run_scattered(m, cur, steps).1 =~= pt,
    decreases steps,
{
    let index = m.phase->RollBack_index;
    lemma_with_mapped(pt, m, m.mapped as nat);
    let page = m.page(index as int);
    assert(page == m.base + 4096 * index);
    let answered = perform(cur, m.action());
    let next = m.advance(answered.1);
    assert(with_mapped(pt, m, m.mapped as nat).dom().contains(page));
    assert(cur.dom().contains(page));
    assert(answered.0 =~= rolled_back(pt, m, index + 1)) by {
        assert forall|p: u64| answered.0.dom().contains(p) == rolled_back(
            pt,
            m,
            index + 1,
        ).dom().contains(p) by {
            if m.base <= p < m.base + 4096 * (index + 1) && page_aligned(p as int) && p != page {
                assert(p < m.base + 4096 * index);
            }
        }
    }
    let s1 = (steps - 1) as nat;
    if index + 1 < m.mapped {
        assert(rolled_back(pt, next, index + 1) =~= rolled_back(pt, m, index + 1)) by {
            lemma_with_mapped_same(pt, m, next, m.mapped as nat);
        }
        lemma_roll_back(next, pt, answered.0, s1, error);
    } else {
        assert(answered.0 =~= pt) by {
            assert forall|p: u64| answered.0.dom().contains(p) == pt.dom().contains(p) by {
                if m.base <= p < m.base + 4096 * m.mapped && page_aligned(p as int) {
                    assert(!pt.dom().contains(p));
                }
            }
            assert forall|p: u64| pt.dom().contains(p) implies answered.0[p] == pt[p] by {
                if m.base <= p < m.base + 4096 * m.mapped {
                    if page_aligned(p as int) {
                        assert(!pt.dom().contains(p));
                    } else {
                        lemma_with_mapped_unaligned(pt, m, m.mapped as nat, p);
                    }
                }
            }
        }
        let cleaning = next.advance(PtReply::Done);
        let failed = cleaning.advance(PtReply::Done);
        let s2 = (s1 - 1) as nat;
        let s3 = (s2 - 1) as nat;
        assert(run_scattered(next, answered.0, s1) == run_scattered(cleaning, answered.0, s2));
        assert(run_scattered(cleaning, answered.0, s2) == run_scattered(failed, answered.0, s3));
        lemma_scattered_ended(failed, answered.0, s3);
    }
}

/// Pages that start nowhere are not touched.
proof fn lemma_with_mapped_unaligned(pt: PtModel, m: ScatteredModel, n: nat, p: u64)
    requires
        m.well_formed(),
        n <= m.frames.len(),
        !page_aligned(p as int),
    ensures
        with_mapped(pt, m, n).dom().contains(p) == pt.dom().contains(p),
        with_mapped(pt, m, n)[p] == pt[p],
    decreases n,
{
    if n > 0 {
        lemma_with_mapped_unaligned(pt, m, (n - 1) as nat, p);
    }
}

/// The mapped pages depend on nothing that changes during a mapping.
proof fn lemma_with_mapped_same(pt: PtModel, m: ScatteredModel, other: ScatteredModel, n: nat)
    requires
        other.base == m.base,
        other.frames == m.frames,
        other.flags == m.flags,
    ensures
        with_mapped(pt, other, n) == with_mapped(pt, m, n),
    decreases n,
{
    if n > 0 {
        lemma_with_mapped_same(pt, m, other, (n - 1) as nat);
    }
}

/// Runs stay where they ended.
proof fn lemma_scattered_ended(m: ScatteredModel, pt: PtModel, steps: nat)
    requires
        m.phase is Mapped || m.phase is Failed,
    ensures
        run_scattered(m, pt, steps) == (m, pt),
    decreases steps,
{
    if steps > 0 {
        lemma_scattered_ended(m, pt, (steps - 1) as nat);
    }
}

/// A mapping of scattered frames maps all of them or none: it ends with every frame mapped at its
/// page, or it fails and leaves the page table as it was. `start` is the mapping at its start, `m`
/// the mapping after some frames were mapped.
pub proof fn law_scattered_mapping_is_atomic(
    start: ScatteredModel,
    m: ScatteredModel,
    pt: PtModel,
    steps: nat,
)
    requires
        start.well_formed(),
        m.well_formed(),
        m.base == start.base,
        m.frames == start.frames,
        m.flags == start.flags,
        m.phase is MapPage || m.phase is Flush,
        forall|p: u64|
            m.base <= p < m.base + 4096 * m.mapped && page_aligned(p as int) ==> !(
            #[trigger] pt.dom().contains(p)),
        steps >= 2 * m.frames.len() + 3 - m.mapped,
    ensures
        ({
            let end = run_scattered(m, with_mapped(pt, start, m.mapped as nat), steps);
            ||| end.0.phase is Mapped && end.1 == with_mapped(
                pt,
                start,
                start.frames.len() as nat,
            )
            ||| end.0.phase is Failed && end.1 == pt
        }),
    decreases m.frames.len() - m.mapped, steps,
{
    let cur = with_mapped(pt, start, m.mapped as nat);
    let answered = perform(cur, m.action());
    let next = m.advance(answered.1);
    let s1 = (steps - 1) as nat;
    lemma_with_mapped(pt, start, m.mapped as nat);
    if m.phase is Flush {
        lemma_scattered_ended(next, cur, s1);
    } else {
        let page = m.page(m.mapped);
        assert(page == m.base + 4096 * m.mapped);
        if cur.dom().contains(page) {
            let error = MapFailure::PageAlreadyMapped { frame: cur[page].frame };
            if m.mapped > 0 {
                assert(cur =~= rolled_back(pt, next, 0)) by {
                    lemma_with_mapped_same(pt, start, next, m.mapped as nat);
                }
                lemma_roll_back(next, pt, cur, s1, error);
            } else {
                lemma_scattered_ended(next, cur, s1);
            }
        } else {
            assert(!pt.dom().contains(page));
            assert(answered.0 =~= with_mapped(pt, start, (m.mapped + 1) as nat));
            assert forall|p: u64|
                next.base <= p < next.base + 4096 * next.mapped && page_aligned(
                    p as int,
                ) implies !(#[trigger] pt.dom().contains(p)) by {
                if p != page {
                    assert(p < m.base + 4096 * m.mapped);
                }
            }
            law_scattered_mapping_is_atomic(start, next, pt, s1);
        }
    }
}

} // verus!
