//! Moving mapped pages to other virtual addresses.
use vstd::prelude::*;

use crate::addr::{is_canonical, page_aligned, CANONICAL_HIGH_START, CANONICAL_LOW_END, PAGE_BYTES};
use crate::lvbs::paging::{answers, MapFailure, PtAction, PtReply, Translation, UnmapFailure};

verus! {

/// Why pages could not be moved.
#[derive(Clone, Copy, PartialEq, Eq, Structural, Debug)]
pub enum RemapError {
    Unaligned,
    Overlapping,
    AlreadyAllocated,
    OutOfMemory,
}

/// What a move is waiting for.
#[derive(Clone, Copy, PartialEq, Eq, Structural, Debug)]
pub enum RemapPhase {
    /// To learn what the old page maps to.
    LookUpOld,
    /// To learn whether the new page is free. The old page has these flags.
    LookUpNew { flags: u64 },
    /// To clear the old page's entry.
    UnmapOld { flags: u64 },
    /// To map the new page to the old page's frame.
    MapNew { frame: u64, flags: u64 },
    /// To restore the old page, whose frame could not be mapped at the new page.
    RestoreOld { frame: u64, flags: u64 },
    /// To flush the old pages, now that all have moved.
    Flush,
    /// Nothing: all pages have moved.
    Moved,
    /// Nothing: the move failed. Pages before the current one have moved.
    Failed { error: RemapError },
}

/// The range of addresses lies in one canonical half, and so does its end.
pub open spec fn canonical_range(start: int, end: int) -> bool {
    &&& start <= end
    &&& is_canonical(start)
    &&& is_canonical(end)
    &&& end < CANONICAL_LOW_END || start >= CANONICAL_HIGH_START
}

/// A move of pages: from the current old page up to `end`, to the current new page and on.
#[derive(Clone, Copy, PartialEq, Eq, Structural, Debug)]
pub struct Remap {
    pub first: u64,
    pub start: u64,
    pub end: u64,
    pub new_start: u64,
    pub phase: RemapPhase,
}

impl Remap {
    /// Both ranges consist of pages that exist, and the move stands between its ends.
    pub open spec fn well_formed(self) -> bool {
        &&& page_aligned(self.first as int)
        &&& page_aligned(self.start as int)
        &&& page_aligned(self.end as int)
        &&& page_aligned(self.new_start as int)
        &&& self.first <= self.start <= self.end
        &&& canonical_range(self.first as int, self.end as int)
        &&& canonical_range(self.new_start as int, self.new_start + (self.end - self.start))
        &&& (self.phase is LookUpOld || self.phase is LookUpNew || self.phase is UnmapOld
            || self.phase is MapNew || self.phase is RestoreOld) ==> self.start < self.end
        &&& (self.phase is Flush || self.phase is Moved) ==> self.start == self.end
    }

    /// The number of pages that have not moved yet.
    pub open spec fn pages_left(self) -> int {
        (self.end - self.start) / 4096
    }

    /// The move behind the current page.
    pub open spec fn next_page(self) -> Remap {
        let start = (self.start + 4096) as u64;
        Remap {
            start,
            new_start: (self.new_start + 4096) as u64,
            phase: if start < self.end {
                RemapPhase::LookUpOld
            } else {
                RemapPhase::Flush
            },
            ..self
        }
    }

    /// The move, failed at the current page.
    pub open spec fn failed(self, error: RemapError) -> Remap {
        Remap { phase: RemapPhase::Failed { error }, ..self }
    }

    /// What the move asks for next. The old entry is cleared only once the new page is known to be
    /// free.
    pub open spec fn spec_action(self) -> PtAction {
        match self.phase {
            RemapPhase::LookUpOld => PtAction::Translate { page: self.start },
            RemapPhase::LookUpNew { flags: _ } => PtAction::Translate { page: self.new_start },
            RemapPhase::UnmapOld { flags: _ } => PtAction::Unmap { page: self.start },
            RemapPhase::MapNew { frame, flags } => PtAction::MapTo {
                page: self.new_start,
                frame,
                flags,
                table_flags: None,
            },
            RemapPhase::RestoreOld { frame, flags } => PtAction::MapTo {
                page: self.start,
                frame,
                flags,
                table_flags: None,
            },
            RemapPhase::Flush => PtAction::FlushTlb {
                start: self.first,
                count: ((self.end - self.first) / 4096) as u64,
            },
            RemapPhase::Moved | RemapPhase::Failed { error: _ } => PtAction::Finished,
        }
    }

    /// The move behind the outcome of its action. A page that maps to nothing is skipped.
    pub open spec fn spec_advance(self, reply: PtReply) -> Remap {
        match (self.phase, reply) {
            (RemapPhase::LookUpOld, PtReply::Translated(t)) => match t {
                Translation::Mapped { frame: _, flags } => Remap {
                    phase: RemapPhase::LookUpNew { flags },
                    ..self
                },
                Translation::NotMapped => self.next_page(),
                Translation::InvalidFrameAddress => self.failed(RemapError::Unaligned),
            },
            (RemapPhase::LookUpNew { flags }, PtReply::Translated(t)) => match t {
                Translation::Mapped { frame: _, flags: _ } => self.failed(
                    RemapError::AlreadyAllocated,
                ),
                Translation::NotMapped => Remap { phase: RemapPhase::UnmapOld { flags }, ..self },
                Translation::InvalidFrameAddress => self.failed(RemapError::Unaligned),
            },
            (RemapPhase::UnmapOld { flags }, PtReply::Unmapped(r)) => match r {
                Ok(frame) => Remap { phase: RemapPhase::MapNew { frame, flags }, ..self },
                Err(_) => self.failed(RemapError::Unaligned),
            },
            (RemapPhase::MapNew { frame, flags }, PtReply::Mapped(r)) => match r {
                Ok(()) => self.next_page(),
                Err(MapFailure::FrameAllocationFailed) => Remap {
                    phase: RemapPhase::RestoreOld { frame, flags },
                    ..self
                },
                Err(_) => self.failed(RemapError::AlreadyAllocated),
            },
            (RemapPhase::RestoreOld { frame: _, flags: _ }, _) => self.failed(
                RemapError::OutOfMemory,
            ),
            (RemapPhase::Flush, _) => Remap { phase: RemapPhase::Moved, ..self },
            _ => self,
        }
    }

    /// What the move asks for next.
    pub fn action(&self) -> (r: PtAction)
        requires
            self.well_formed(),
        ensures
            r == self.spec_action(),
    {
        match self.phase {
            RemapPhase::LookUpOld => PtAction::Translate { page: self.start },
            RemapPhase::LookUpNew { flags: _ } => PtAction::Translate { page: self.new_start },
            RemapPhase::UnmapOld { flags: _ } => PtAction::Unmap { page: self.start },
            RemapPhase::MapNew { frame, flags } => PtAction::MapTo {
                page: self.new_start,
                frame,
                flags,
                table_flags: None,
            },
            RemapPhase::RestoreOld { frame, flags } => PtAction::MapTo {
                page: self.start,
                frame,
                flags,
                table_flags: None,
            },
            RemapPhase::Flush => PtAction::FlushTlb {
                start: self.first,
                count: (self.end - self.first) / PAGE_BYTES,
            },
            RemapPhase::Moved | RemapPhase::Failed { error: _ } => PtAction::Finished,
        }
    }

    fn move_on(&mut self)
        requires
            old(self).well_formed(),
            old(self).start < old(self).end,
        ensures
            *final(self) == old(self).next_page(),
            final(self).well_formed(),
    {
        self.start = self.start + PAGE_BYTES;
        self.new_start = self.new_start + PAGE_BYTES;
        self.phase = if self.start < self.end {
            RemapPhase::LookUpOld
        } else {
            RemapPhase::Flush
        };
    }

    /// Takes the outcome of the action.
    pub fn advance(&mut self, reply: PtReply)
        requires
            old(self).well_formed(),
            answers(old(self).spec_action(), reply),
        ensures
            final(self).well_formed(),
            *final(self) == old(self).spec_advance(reply),
    {
        match (self.phase, reply) {
            (RemapPhase::LookUpOld, PtReply::Translated(t)) => match t {
                Translation::Mapped { frame: _, flags } => {
                    self.phase = RemapPhase::LookUpNew { flags };
                },
                Translation::NotMapped => self.move_on(),
                Translation::InvalidFrameAddress => {
                    self.phase = RemapPhase::Failed { error: RemapError::Unaligned };
                },
            },
            (RemapPhase::LookUpNew { flags }, PtReply::Translated(t)) => match t {
                Translation::Mapped { frame: _, flags: _ } => {
                    self.phase = RemapPhase::Failed { error: RemapError::AlreadyAllocated };
                },
                Translation::NotMapped => {
                    self.phase = RemapPhase::UnmapOld { flags };
                },
                Translation::InvalidFrameAddress => {
                    self.phase = RemapPhase::Failed { error: RemapError::Unaligned };
                },
            },
            (RemapPhase::UnmapOld { flags }, PtReply::Unmapped(r)) => match r {
                Ok(frame) => {
                    self.phase = RemapPhase::MapNew { frame, flags };
                },
                Err(_) => {
                    self.phase = RemapPhase::Failed { error: RemapError::Unaligned };
                },
            },
            (RemapPhase::MapNew { frame, flags }, PtReply::Mapped(r)) => match r {
                Ok(()) => self.move_on(),
                Err(MapFailure::FrameAllocationFailed) => {
                    self.phase = RemapPhase::RestoreOld { frame, flags };
                },
                Err(_) => {
                    self.phase = RemapPhase::Failed { error: RemapError::AlreadyAllocated };
                },
            },
            (RemapPhase::RestoreOld { frame: _, flags: _ }, _) => {
                self.phase = RemapPhase::Failed { error: RemapError::OutOfMemory };
            },
            (RemapPhase::Flush, _) => {
                self.phase = RemapPhase::Moved;
            },
            _ => {},
        }
    }

    /// The result of the move: whether it has ended, and with which error.
    pub fn result(&self) -> (r: Option<Result<(), RemapError>>)
        ensures
            r == (match self.phase {
                RemapPhase::Moved => Some(Ok::<(), RemapError>(())),
                RemapPhase::Failed { error } => Some(Err(error)),
                _ => None,
            }),
    {
        match self.phase {
            RemapPhase::Moved => Some(Ok(())),
            RemapPhase::Failed { error } => Some(Err(error)),
            _ => None,
        }
    }
}

/// Two ranges of addresses share an address.
pub open spec fn overlap(start: int, end: int, other_start: int, other_end: int) -> bool {
    let low = if start > other_start {
        start
    } else {
        other_start
    };
    let high = if end < other_end {
        end
    } else {
        other_end
    };
    low < high
}

/// Starts moving the pages of one range to another.
pub fn remap_pages(old_start: u64, old_end: u64, new_start: u64, new_end: u64) -> (r: Result<
    Remap,
    RemapError,
>)
    requires
        canonical_range(old_start as int, old_end as int),
        canonical_range(new_start as int, new_start + (old_end - old_start)),
    ensures
        if !page_aligned(old_start as int) || !page_aligned(old_end as int) || !page_aligned(
            new_start as int,
        ) || !page_aligned(new_end as int) {
            r == Err::<Remap, _>(RemapError::Unaligned)
        } else if overlap(old_start as int, old_end as int, new_start as int, new_end as int) {
            r == Err::<Remap, _>(RemapError::Overlapping)
        } else {
            &&& r matches Ok(m)
            &&& m.well_formed()
            &&& m == (Remap {
                first: old_start,
                start: old_start,
                end: old_end,
                new_start,
                phase: if old_start < old_end {
                    RemapPhase::LookUpOld
                } else {
                    RemapPhase::Flush
                },
            })
        },
{
    if old_start % PAGE_BYTES != 0 || old_end % PAGE_BYTES != 0 || new_start % PAGE_BYTES != 0
        || new_end % PAGE_BYTES != 0 {
        return Err(RemapError::Unaligned);
    }
    let low: u64 = if old_start > new_start {
        old_start
    } else {
        new_start
    };
    let high: u64 = if old_end < new_end {
        old_end
    } else {
        new_end
    };
    if low < high {
        return Err(RemapError::Overlapping);
    }
    Ok(
        Remap {
            first: old_start,
            start: old_start,
            end: old_end,
            new_start,
            phase: if old_start < old_end {
                RemapPhase::LookUpOld
            } else {
                RemapPhase::Flush
            },
        },
    )
}

/// What a page maps to.
pub struct Leaf {
    pub frame: u64,
    pub flags: u64,
}

/// A page table as a mathematical value: what its pages map to.
pub type PtModel = Map<u64, Leaf>;

/// What such a page table answers to an action, and what the action makes of it, as long as there is
/// memory for its tables.
pub open spec fn perform(pt: PtModel, action: PtAction) -> (PtModel, PtReply) {
    match action {
        PtAction::Translate { page } => (
            pt,
            PtReply::Translated(
                if pt.dom().contains(page) {
                    Translation::Mapped { frame: pt[page].frame, flags: pt[page].flags }
                } else {
                    Translation::NotMapped
                },
            ),
        ),
        PtAction::Unmap { page } => if pt.dom().contains(page) {
            (pt.remove(page), PtReply::Unmapped(Ok(pt[page].frame)))
        } else {
            (pt, PtReply::Unmapped(Err(UnmapFailure::PageNotMapped)))
        },
        PtAction::MapTo { page, frame, flags, table_flags: _ } => if pt.dom().contains(page) {
            (pt, PtReply::Mapped(Err(MapFailure::PageAlreadyMapped { frame: pt[page].frame })))
        } else {
            (pt.insert(page, Leaf { frame, flags }), PtReply::Mapped(Ok(())))
        },
        PtAction::UpdateFlags { page, flags } => if pt.dom().contains(page) {
            (
                pt.insert(page, Leaf { frame: pt[page].frame, flags }),
                PtReply::Updated(true),
            )
        } else {
            (pt, PtReply::Updated(false))
        },
        _ => (pt, PtReply::Done),
    }
}

/// The move and the page table after so many steps.
pub open spec fn run_remap(m: Remap, pt: PtModel, steps: nat) -> (Remap, PtModel)
    decreases steps,
{
    if steps == 0 {
        (m, pt)
    } else {
        let answered = perform(pt, m.spec_action());
        run_remap(m.spec_advance(answered.1), answered.0, (steps - 1) as nat)
    }
}

/// The page table after the page at `from` has moved to `to`.
pub open spec fn page_moved(pt: PtModel, from: u64, to: u64) -> PtModel {
    if pt.dom().contains(from) {
        pt.remove(from).insert(to, pt[from])
    } else {
        pt
    }
}

/// The page table after `count` pages from `from` on have moved to `to` and on.
pub open spec fn pages_moved(pt: PtModel, from: u64, to: u64, count: nat) -> PtModel
    decreases count,
{
    if count == 0 {
        pt
    } else {
        pages_moved(
            page_moved(pt, from, to),
            (from + 4096) as u64,
            (to + 4096) as u64,
            (count - 1) as nat,
        )
    }
}

/// The page that `page` of a range from `from` on moves to, in a range from `to` on.
pub open spec fn moved_to(from: u64, to: u64, page: u64) -> u64 {
    (to + (page - from)) as u64
}

/// No page of a range that maps to something moves to a page that does: none of `count` pages from `from`
/// on, which move to `to` and on.
pub open spec fn unblocked(pt: PtModel, from: u64, to: u64, count: int) -> bool {
    forall|page: u64|
        from <= page < from + 4096 * count && page_aligned(page as int) && #[trigger] pt.dom().contains(
            page,
        ) ==> !pt.dom().contains(moved_to(from, to, page))
}

/// Runs stay where they ended.
proof fn lemma_run_ended(m: Remap, pt: PtModel, steps: nat)
    requires
        m.phase is Moved || m.phase is Failed,
    ensures
        run_remap(m, pt, steps) == (m, pt),
    decreases steps,
{
    if steps > 0 {
        lemma_run_ended(m, pt, (steps - 1) as nat);
    }
}

/// What is left of a range without obstacles, after its first page has moved, has none.
proof fn lemma_unblocked_next(pt: PtModel, from: u64, to: u64, count: int)
    requires
        count > 0,
        page_aligned(from as int),
        page_aligned(to as int),
        from + 4096 * count <= u64::MAX,
        to + 4096 * count <= u64::MAX,
        unblocked(pt, from, to, count),
        !overlap(from as int, from + 4096 * count, to as int, to + 4096 * count),
    ensures
        unblocked(page_moved(pt, from, to), (from + 4096) as u64, (to + 4096) as u64, count - 1),
{
    let moved = page_moved(pt, from, to);
    let from1 = (from + 4096) as u64;
    let to1 = (to + 4096) as u64;
    assert forall|page: u64|
        from1 <= page < from1 + 4096 * (count - 1) && page_aligned(page as int)
            && #[trigger] moved.dom().contains(page) implies !moved.dom().contains(
        moved_to(from1, to1, page),
    ) by {
        assert(moved_to(from1, to1, page) == moved_to(from, to, page));
        assert(page != to);
        assert(pt.dom().contains(page));
        assert(moved_to(from, to, page) != to);
    }
}

/// A run without obstacles for the first `count` pages moves them.
proof fn lemma_run_moves(m: Remap, pt: PtModel, count: nat, steps: nat) -> (left: nat)
    requires
        m.well_formed(),
        m.phase is LookUpOld || m.phase is Flush,
        count <= m.pages_left(),
        unblocked(pt, m.start, m.new_start, count as int),
        !overlap(
            m.start as int,
            m.start + 4096 * count,
            m.new_start as int,
            m.new_start + 4096 * count,
        ),
        steps >= 4 * count,
    ensures
        left >= steps - 4 * count,
        ({
            let start = (m.start + 4096 * count) as u64;
            let reached = Remap {
                start,
                new_start: (m.new_start + 4096 * count) as u64,
                phase: if start < m.end {
                    RemapPhase::LookUpOld
                } else {
                    RemapPhase::Flush
                },
                ..m
            };
            &&& reached.well_formed()
            &&& run_remap(m, pt, steps) == run_remap(
                reached,
                pages_moved(pt, m.start, m.new_start, count),
                left,
            )
        }),
    decreases count,
{
    if count == 0 {
        steps
    } else {
        let from = m.start;
        let to = m.new_start;
        let next = m.next_page();
        let moved = page_moved(pt, from, to);
        let rest = (count - 1) as nat;
        assert(moved_to(from, to, from) == to);
        assert(m.end - m.start == 4096 * m.pages_left());
        assert(next.pages_left() == m.pages_left() - 1);
        lemma_unblocked_next(pt, from, to, count as int);
        let answered = perform(pt, m.spec_action());
        let m1 = m.spec_advance(answered.1);
        let s1 = (steps - 1) as nat;
        if pt.dom().contains(from) {
            let a1 = perform(pt, m1.spec_action());
            let m2 = m1.spec_advance(a1.1);
            let a2 = perform(pt, m2.spec_action());
            let m3 = m2.spec_advance(a2.1);
            let a3 = perform(a2.0, m3.spec_action());
            let m4 = m3.spec_advance(a3.1);
            assert(m4 == next);
            assert(a3.0 =~= moved);
            let s2 = (s1 - 1) as nat;
            let s3 = (s2 - 1) as nat;
            let s4 = (s3 - 1) as nat;
            assert(run_remap(m, pt, steps) == run_remap(m1, pt, s1));
            assert(run_remap(m1, pt, s1) == run_remap(m2, pt, s2));
            assert(run_remap(m2, pt, s2) == run_remap(m3, a2.0, s3));
            assert(run_remap(m3, a2.0, s3) == run_remap(m4, a3.0, s4));
            lemma_run_moves(next, moved, rest, s4)
        } else {
            assert(m1 == next);
            lemma_run_moves(next, moved, rest, s1)
        }
    }
}

/// A move succeeds if no page that maps to something moves to one that does, and the ranges do not
/// overlap: every page that mapped to a frame maps to nothing, and its new page maps to the same frame
/// with the same flags.
pub proof fn law_remap_moves_pages(m: Remap, pt: PtModel, steps: nat)
    requires
        m.well_formed(),
        m.phase is LookUpOld || m.phase is Flush,
        unblocked(pt, m.start, m.new_start, m.pages_left()),
        !overlap(
            m.start as int,
            m.end as int,
            m.new_start as int,
            m.new_start + (m.end - m.start),
        ),
        steps >= 4 * m.pages_left() + 1,
    ensures
        run_remap(m, pt, steps).0.phase is Moved,
        run_remap(m, pt, steps).1 == pages_moved(
            pt,
            m.start,
            m.new_start,
            m.pages_left() as nat,
        ),
{
    let count = m.pages_left() as nat;
    let after = pages_moved(pt, m.start, m.new_start, count);
    assert(m.end - m.start == 4096 * count);
    let left = lemma_run_moves(m, pt, count, steps);
    let reached = Remap {
        start: m.end,
        new_start: (m.new_start + 4096 * count) as u64,
        phase: RemapPhase::Flush,
        ..m
    };
    assert(run_remap(m, pt, steps) == run_remap(reached, after, left));
    let over = Remap { phase: RemapPhase::Moved, ..reached };
    assert(run_remap(reached, after, left) == run_remap(over, after, (left - 1) as nat));
    lemma_run_ended(over, after, (left - 1) as nat);
}

/// A move stops at the first page, behind `count` others, that maps to something and would move to a page
/// that does: the pages before it have moved, and it and the page that it would move to are as they were,
/// like all behind them.
pub proof fn law_remap_stops_at_occupied_page(m: Remap, pt: PtModel, count: nat, steps: nat)
    requires
        m.well_formed(),
        m.phase is LookUpOld,
        count < m.pages_left(),
        unblocked(pt, m.start, m.new_start, count as int),
        pt.dom().contains((m.start + 4096 * count) as u64),
        pt.dom().contains((m.new_start + 4096 * count) as u64),
        !overlap(
            m.start as int,
            m.end as int,
            m.new_start as int,
            m.new_start + (m.end - m.start),
        ),
        steps >= 4 * count + 2,
    ensures
        run_remap(m, pt, steps).0.phase == (RemapPhase::Failed {
            error: RemapError::AlreadyAllocated,
        }),
        run_remap(m, pt, steps).0.start == m.start + 4096 * count,
        run_remap(m, pt, steps).1 == pages_moved(pt, m.start, m.new_start, count),
        ({
            let after = run_remap(m, pt, steps).1;
            let page = (m.start + 4096 * count) as u64;
            let target = (m.new_start + 4096 * count) as u64;
            &&& after.dom().contains(page) && after[page] == pt[page]
            &&& after.dom().contains(target) && after[target] == pt[target]
        }),
{
    let after = pages_moved(pt, m.start, m.new_start, count);
    let page = (m.start + 4096 * count) as u64;
    let target = (m.new_start + 4096 * count) as u64;
    assert(m.end - m.start == 4096 * m.pages_left());
    assert(4096 * count + 4096 <= m.end - m.start);
    assert(!overlap(
        m.start as int,
        m.start + 4096 * count,
        m.new_start as int,
        m.new_start + 4096 * count,
    ));
    let left = lemma_run_moves(m, pt, count, steps);
    law_moved_pages(pt, m.start, m.new_start, count, page);
    law_moved_pages(pt, m.start, m.new_start, count, target);
    let m0 = Remap { start: page, new_start: target, phase: RemapPhase::LookUpOld, ..m };
    assert(run_remap(m, pt, steps) == run_remap(m0, after, left));
    let m1 = Remap { phase: RemapPhase::LookUpNew { flags: after[page].flags }, ..m0 };
    let m2 = m0.failed(RemapError::AlreadyAllocated);
    assert(run_remap(m0, after, left) == run_remap(m1, after, (left - 1) as nat));
    assert(run_remap(m1, after, (left - 1) as nat) == run_remap(m2, after, (left - 2) as nat));
    lemma_run_ended(m2, after, (left - 2) as nat);
}

/// Where the pages of a range are after they have moved to a range that does not overlap it, with no
/// obstacle: old pages map to nothing, new pages to what the old ones mapped to, and all others are as
/// they were.
pub proof fn law_moved_pages(pt: PtModel, from: u64, to: u64, count: nat, page: u64)
    requires
        page_aligned(from as int),
        page_aligned(to as int),
        page_aligned(page as int),
        from + 4096 * count <= u64::MAX,
        to + 4096 * count <= u64::MAX,
        unblocked(pt, from, to, count as int),
        !overlap(from as int, from + 4096 * count, to as int, to + 4096 * count),
    ensures
        ({
            let after = pages_moved(pt, from, to, count);
            let source = (from + (page - to)) as u64;
            if from <= page < from + 4096 * count {
                !after.dom().contains(page)
            } else if to <= page < to + 4096 * count && pt.dom().contains(source) {
                after.dom().contains(page) && after[page] == pt[source]
            } else {
                after.dom().contains(page) == pt.dom().contains(page) && (pt.dom().contains(page)
                    ==> after[page] == pt[page])
            }
        }),
    decreases count,
{
    if count > 0 {
        let rest = (count - 1) as nat;
        lemma_unblocked_next(pt, from, to, count as int);
        law_moved_pages(
            page_moved(pt, from, to),
            (from + 4096) as u64,
            (to + 4096) as u64,
            rest,
            page,
        );
    }
}

/// A failed allocation at the new page loses nothing: the frame goes back to the old page with the
/// same flags, and the move then ends with that error.
pub proof fn law_failed_allocation_restores_page(m: Remap, frame: u64, flags: u64, reply: PtReply)
    requires
        m.phase == (RemapPhase::MapNew { frame, flags }),
    ensures
        ({
            let restore = m.spec_advance(
                PtReply::Mapped(Err(MapFailure::FrameAllocationFailed)),
            );
            &&& restore.spec_action() == (PtAction::MapTo {
                page: m.start,
                frame,
                flags,
                table_flags: None,
            })
            &&& restore.spec_advance(reply).phase == (RemapPhase::Failed {
                error: RemapError::OutOfMemory,
            })
        }),
{
}

} // verus!
