//! Unmapping pages, and freeing the frames behind them.
use vstd::prelude::*;

use crate::addr::{page_aligned, PAGE_BYTES};
use crate::lvbs::paging::{answers, PtAction, PtReply};
use crate::lvbs::remap::{perform, PtModel};
use crate::page_list::{page_list, page_list_clear, page_list_new, page_list_push, page_list_slice};

verus! {

/// Pages whose frames are freed together, after one TLB shootdown.
pub const UNMAP_BATCH: u64 = 32;

/// Pages could not be unmapped because an end of their range is not a page boundary.
#[derive(Clone, Copy, PartialEq, Eq, Structural, Debug)]
pub enum DeallocationError {
    Unaligned,
}

/// What an operation is waiting for.
#[derive(Clone, Copy, PartialEq, Eq, Structural, Debug)]
pub enum UnmapPhase {
    /// To clear the entry of the current page.
    Clear,
    /// To free a frame at once.
    FreeNow { frame: u64 },
    /// To flush the TLB entries of the pages cleared since the last flush.
    Flush,
    /// To free the collected frames, whose pages were flushed; this is the next of them.
    FreeBatch { index: usize },
    /// To free the tables that have become empty.
    CleanUp,
    /// Nothing.
    Finished,
}

/// An operation that unmaps pages, as a mathematical value.
#[verifier::ext_equal]
pub struct UnmapModel {
    pub start: int,
    pub end: int,
    /// The current page.
    pub cur: int,
    /// The first page that was not flushed.
    pub flush_start: int,
    pub dealloc_frames: bool,
    pub flush_tlb: bool,
    pub clean_up: bool,
    /// Frames that wait for a flush, or are being freed behind one.
    pub frames: Seq<u64>,
    /// The pages that those frames were mapped at.
    pub origins: Seq<u64>,
    pub phase: UnmapPhase,
}

impl UnmapModel {
    /// The operation stands between its ends; collected frames come from pages that were cleared
    /// since the last flush, at most a batch of them.
    pub open spec fn well_formed(self) -> bool {
        &&& page_aligned(self.start)
        &&& page_aligned(self.end)
        &&& page_aligned(self.cur)
        &&& page_aligned(self.flush_start)
        &&& 0 <= self.start <= self.flush_start <= self.cur <= self.end <= u64::MAX
        &&& self.start < self.end || self.phase is Finished
        &&& self.origins.len() == self.frames.len()
        &&& 4096 * self.frames.len() <= self.cur - self.flush_start
        &&& forall|i: int|
            0 <= i < self.origins.len() ==> self.flush_start <= #[trigger] self.origins[i]
                < self.cur
        &&& self.batched() ==> {
            &&& (self.flush_start - self.start) % (4096 * UNMAP_BATCH) == 0 || self.flush_start
                == self.end
            &&& self.cur - self.flush_start <= 4096 * UNMAP_BATCH
            &&& self.phase is Clear ==> self.cur - self.flush_start < 4096 * UNMAP_BATCH
            &&& (self.phase is Flush || self.phase is FreeBatch) ==> self.cur == self.end
                || self.cur - self.flush_start == 4096 * UNMAP_BATCH
        }
        &&& !self.batched() ==> self.frames.len() == 0 && self.flush_start == self.start
        &&& match self.phase {
            UnmapPhase::Clear => self.cur < self.end,
            UnmapPhase::FreeNow { frame: _ } => self.dealloc_frames && !self.flush_tlb && self.cur
                < self.end,
            UnmapPhase::Flush => self.flush_tlb && (self.batched() ==> self.frames.len() > 0) && (
            !self.batched() ==> self.cur == self.end),
            UnmapPhase::FreeBatch { index } => self.batched() && index < self.frames.len(),
            UnmapPhase::CleanUp => self.clean_up && self.cur == self.end && self.frames.len() == 0,
            UnmapPhase::Finished => self.frames.len() == 0,
        }
    }

    /// Frames are freed batch by batch, each batch behind a flush.
    pub open spec fn batched(self) -> bool {
        self.dealloc_frames && self.flush_tlb
    }

    /// The operation once all pages are cleared, flushed and freed.
    pub open spec fn ended(self) -> UnmapModel {
        UnmapModel {
            phase: if self.clean_up {
                UnmapPhase::CleanUp
            } else {
                UnmapPhase::Finished
            },
            ..self
        }
    }

    /// The operation behind the current page, whose frame, if it is to be freed behind a flush, was
    /// collected.
    pub open spec fn next_page(self, collected: Option<u64>) -> UnmapModel {
        let cur = self.cur + 4096;
        let frames = match collected {
            Some(frame) => self.frames.push(frame),
            None => self.frames,
        };
        let origins = match collected {
            Some(_) => self.origins.push(self.cur as u64),
            None => self.origins,
        };
        let next = UnmapModel { cur, frames, origins, ..self };
        if self.batched() {
            let full = cur - self.flush_start == 4096 * UNMAP_BATCH;
            if (full || cur == self.end) && frames.len() > 0 {
                UnmapModel { phase: UnmapPhase::Flush, ..next }
            } else if cur == self.end {
                next.ended()
            } else if full {
                UnmapModel { flush_start: cur, phase: UnmapPhase::Clear, ..next }
            } else {
                UnmapModel { phase: UnmapPhase::Clear, ..next }
            }
        } else if cur < self.end {
            UnmapModel { phase: UnmapPhase::Clear, ..next }
        } else if self.flush_tlb {
            UnmapModel { phase: UnmapPhase::Flush, ..next }
        } else {
            next.ended()
        }
    }

    /// The operation once the frames of a batch are freed.
    pub open spec fn batch_freed(self) -> UnmapModel {
        let next = UnmapModel {
            flush_start: self.cur,
            frames: Seq::empty(),
            origins: Seq::empty(),
            ..self
        };
        if self.cur < self.end {
            UnmapModel { phase: UnmapPhase::Clear, ..next }
        } else {
            next.ended()
        }
    }

    /// What the operation asks for next.
    pub open spec fn action(self) -> PtAction {
        match self.phase {
            UnmapPhase::Clear => PtAction::Unmap { page: self.cur as u64 },
            UnmapPhase::FreeNow { frame } => PtAction::FreeFrame { frame },
            UnmapPhase::Flush => PtAction::FlushTlb {
                start: self.flush_start as u64,
                count: ((self.cur - self.flush_start) / 4096) as u64,
            },
            UnmapPhase::FreeBatch { index } => PtAction::FreeFrame {
                frame: self.frames[index as int],
            },
            UnmapPhase::CleanUp => PtAction::CleanUp {
                start: self.start as u64,
                last: (self.end - 4096) as u64,
            },
            UnmapPhase::Finished => PtAction::Finished,
        }
    }

    /// The operation behind the outcome of its action. A page that could not be unmapped is passed
    /// over.
    pub open spec fn advance(self, reply: PtReply) -> UnmapModel {
        match (self.phase, reply) {
            (UnmapPhase::Clear, PtReply::Unmapped(r)) => match r {
                Ok(frame) => if self.batched() {
                    self.next_page(Some(frame))
                } else if self.dealloc_frames {
                    UnmapModel { phase: UnmapPhase::FreeNow { frame }, ..self }
                } else {
                    self.next_page(None)
                },
                Err(_) => self.next_page(None),
            },
            (UnmapPhase::FreeNow { frame: _ }, _) => self.next_page(None),
            (UnmapPhase::Flush, _) => if self.batched() {
                UnmapModel { phase: UnmapPhase::FreeBatch { index: 0 }, ..self }
            } else {
                self.ended()
            },
            (UnmapPhase::FreeBatch { index }, _) => if index + 1 < self.frames.len() {
                UnmapModel { phase: UnmapPhase::FreeBatch { index: (index + 1) as usize }, ..self }
            } else {
                self.batch_freed()
            },
            (UnmapPhase::CleanUp, _) => UnmapModel { phase: UnmapPhase::Finished, ..self },
            _ => self,
        }
    }
}

/// An operation that unmaps pages.
pub struct Unmap {
    start: u64,
    end: u64,
    cur: u64,
    flush_start: u64,
    dealloc_frames: bool,
    flush_tlb: bool,
    clean_up: bool,
    frames: arrayvec::ArrayVec<u64, 32>,
    origins: Ghost<Seq<u64>>,
    phase: UnmapPhase,
}

impl View for Unmap {
    type V = UnmapModel;

    closed spec fn view(&self) -> UnmapModel {
        UnmapModel {
            start: self.start as int,
            end: self.end as int,
            cur: self.cur as int,
            flush_start: self.flush_start as int,
            dealloc_frames: self.dealloc_frames,
            flush_tlb: self.flush_tlb,
            clean_up: self.clean_up,
            frames: page_list(self.frames),
            origins: self.origins@,
            phase: self.phase,
        }
    }
}

/// Starts unmapping the pages from `start` up to `end`, of which there are none if `start` is not below
/// `end`. Frames behind them are freed if `dealloc_frames` is set, TLB entries are flushed if
/// `flush_tlb` is set, and tables that become empty are freed if `clean_up_page_tables` is set. If both
/// frames are freed and TLB entries flushed, no frame is freed before the flush of its page.
pub fn unmap_pages(
    start: u64,
    end: u64,
    dealloc_frames: bool,
    flush_tlb: bool,
    clean_up_page_tables: bool,
) -> (r: Result<Unmap, DeallocationError>)
    ensures
        if start < end && (!page_aligned(start as int) || !page_aligned(end as int)) {
            r == Err::<Unmap, _>(DeallocationError::Unaligned)
        } else {
            &&& r matches Ok(op)
            &&& start < end ==> op@.well_formed()
            &&& op@ == (UnmapModel {
                start: start as int,
                end: end as int,
                cur: start as int,
                flush_start: start as int,
                dealloc_frames,
                flush_tlb,
                clean_up: clean_up_page_tables,
                frames: Seq::empty(),
                origins: Seq::empty(),
                phase: if start < end {
                    UnmapPhase::Clear
                } else {
                    UnmapPhase::Finished
                },
            })
        },
{
    if start < end && (start % PAGE_BYTES != 0 || end % PAGE_BYTES != 0) {
        return Err(DeallocationError::Unaligned);
    }
    let op = Unmap {
        start,
        end,
        cur: start,
        flush_start: start,
        dealloc_frames,
        flush_tlb,
        clean_up: clean_up_page_tables,
        frames: page_list_new(),
        origins: Ghost(Seq::empty()),
        phase: if start < end {
            UnmapPhase::Clear
        } else {
            UnmapPhase::Finished
        },
    };
    assert(op@.frames =~= Seq::empty());
    Ok(op)
}

impl Unmap {
    /// Whether the operation has ended.
    pub fn is_finished(&self) -> (r: bool)
        ensures
            r == (self@.phase is Finished),
    {
        match self.phase {
            UnmapPhase::Finished => true,
            _ => false,
        }
    }

    /// What the operation asks for next.
    pub fn action(&self) -> (r: PtAction)
        requires
            self@.well_formed(),
        ensures
            r == self@.action(),
    {
        match self.phase {
            UnmapPhase::Clear => PtAction::Unmap { page: self.cur },
            UnmapPhase::FreeNow { frame } => PtAction::FreeFrame { frame },
            UnmapPhase::Flush => PtAction::FlushTlb {
                start: self.flush_start,
                count: (self.cur - self.flush_start) / PAGE_BYTES,
            },
            UnmapPhase::FreeBatch { index } => PtAction::FreeFrame {
                frame: page_list_slice(&self.frames)[index],
            },
            UnmapPhase::CleanUp => PtAction::CleanUp {
                start: self.start,
                last: self.end - PAGE_BYTES,
            },
            UnmapPhase::Finished => PtAction::Finished,
        }
    }

    fn end_of_range(&mut self)
        ensures
            final(self)@ == old(self)@.ended(),
    {
        self.phase = if self.clean_up {
            UnmapPhase::CleanUp
        } else {
            UnmapPhase::Finished
        };
    }

    fn move_on(&mut self, collected: Option<u64>)
        requires
            old(self)@.well_formed(),
            old(self)@.phase is Clear || old(self)@.phase is FreeNow,
            collected is Some ==> old(self)@.batched(),
        ensures
            final(self)@ == old(self)@.next_page(collected),
            final(self)@.well_formed(),
    {
        let ghost before = self@;
        match collected {
            Some(frame) => {
                page_list_push(&mut self.frames, frame);
                self.origins = Ghost(self.origins@.push(self.cur));
            },
            None => {},
        }
        self.cur = self.cur + PAGE_BYTES;
        if self.dealloc_frames && self.flush_tlb {
            let full = self.cur - self.flush_start == PAGE_BYTES * UNMAP_BATCH;
            if (full || self.cur == self.end) && page_list_slice(&self.frames).len() > 0 {
                self.phase = UnmapPhase::Flush;
            } else if self.cur == self.end {
                self.end_of_range();
            } else {
                if full {
                    self.flush_start = self.cur;
                }
                self.phase = UnmapPhase::Clear;
            }
        } else if self.cur < self.end {
            self.phase = UnmapPhase::Clear;
        } else if self.flush_tlb {
            self.phase = UnmapPhase::Flush;
        } else {
            self.end_of_range();
        }
        assert(self@ =~= before.next_page(collected));
    }

    /// Takes the outcome of the action.
    pub fn advance(&mut self, reply: PtReply)
        requires
            old(self)@.well_formed(),
            answers(old(self)@.action(), reply),
        ensures
            final(self)@.well_formed(),
            final(self)@ == old(self)@.advance(reply),
    {
        let ghost before = self@;
        match (self.phase, reply) {
            (UnmapPhase::Clear, PtReply::Unmapped(r)) => match r {
                Ok(frame) => {
                    if self.dealloc_frames && self.flush_tlb {
                        self.move_on(Some(frame));
                    } else if self.dealloc_frames {
                        self.phase = UnmapPhase::FreeNow { frame };
                    } else {
                        self.move_on(None);
                    }
                },
                Err(_) => self.move_on(None),
            },
            (UnmapPhase::FreeNow { frame: _ }, _) => self.move_on(None),
            (UnmapPhase::Flush, _) => {
                if self.dealloc_frames && self.flush_tlb {
                    self.phase = UnmapPhase::FreeBatch { index: 0 };
                } else {
                    self.end_of_range();
                }
            },
            (UnmapPhase::FreeBatch { index }, _) => {
                if index + 1 < page_list_slice(&self.frames).len() {
                    self.phase = UnmapPhase::FreeBatch { index: index + 1 };
                } else {
                    page_list_clear(&mut self.frames);
                    self.origins = Ghost(Seq::empty());
                    self.flush_start = self.cur;
                    if self.cur < self.end {
                        self.phase = UnmapPhase::Clear;
                    } else {
                        self.end_of_range();
                    }
                    assert(self@.frames =~= Seq::empty());
                    assert(self@ =~= before.batch_freed());
                }
            },
            (UnmapPhase::CleanUp, _) => {
                self.phase = UnmapPhase::Finished;
            },
            _ => {},
        }
    }
}

/// The flush that precedes the freeing of a batch covers the page of every frame in the batch: the
/// operation flushes a range, then frees frames of pages in that range, with no step between.
pub proof fn law_frames_freed_behind_flush(op: UnmapModel, reply: PtReply)
    requires
        op.well_formed(),
        op.phase is Flush,
        op.batched(),
    ensures
        op.action() matches PtAction::FlushTlb { start, count } && forall|i: int|
            0 <= i < op.frames.len() ==> start <= #[trigger] op.origins[i] < start + 4096 * count,
        op.advance(reply).phase == (UnmapPhase::FreeBatch { index: 0 }),
        op.advance(reply).frames == op.frames,
{
}

/// Where both frames are freed and TLB entries flushed, a frame is freed only in a batch behind a
/// flush, and a batch is entered only by a flush.
pub proof fn law_no_frame_freed_before_flush(op: UnmapModel, reply: PtReply)
    requires
        op.well_formed(),
        op.batched(),
        answers(op.action(), reply),
    ensures
        op.action() is FreeFrame ==> op.phase is FreeBatch,
        op.advance(reply).phase is FreeBatch ==> op.phase is Flush || op.phase is FreeBatch,
{
}

/// The operation, the page table and the frames that were freed after so many steps.
pub open spec fn run_unmap(op: UnmapModel, pt: PtModel, freed: Seq<u64>, steps: nat) -> (
    UnmapModel,
    PtModel,
    Seq<u64>,
)
    decreases steps,
{
    if steps == 0 {
        (op, pt, freed)
    } else {
        let answered = perform(pt, op.action());
        let freed = match op.action() {
            PtAction::FreeFrame { frame } => freed.push(frame),
            _ => freed,
        };
        run_unmap(op.advance(answered.1), answered.0, freed, (steps - 1) as nat)
    }
}

/// The page is one that is still to be cleared.
pub open spec fn to_be_cleared(op: UnmapModel, page: u64) -> bool {
    (if op.phase is FreeNow {
        op.cur < page
    } else {
        op.cur <= page
    }) && page < op.end && page_aligned(page as int)
}

/// Steps that an operation needs at most.
pub open spec fn steps_left(op: UnmapModel) -> int {
    let pages = (op.end - op.cur) / 4096;
    4 * pages + match op.phase {
        UnmapPhase::Clear => op.frames.len() + 2int,
        UnmapPhase::FreeNow { frame: _ } => 1int,
        UnmapPhase::Flush => op.frames.len() + 3int,
        UnmapPhase::FreeBatch { index } => op.frames.len() - index + 2int,
        UnmapPhase::CleanUp => 1int,
        UnmapPhase::Finished => 0int,
    }
}

/// Runs stay where they ended.
proof fn lemma_unmap_ended(op: UnmapModel, pt: PtModel, freed: Seq<u64>, steps: nat)
    requires
        op.phase is Finished,
    ensures
        run_unmap(op, pt, freed, steps) == (op, pt, freed),
    decreases steps,
{
    if steps > 0 {
        lemma_unmap_ended(op, pt, freed, (steps - 1) as nat);
    }
}

/// Unmapping ends with every page of the range unmapped and every other page as it was. `page` is
/// any page.
pub proof fn law_unmapped_pages_are_gone(
    op: UnmapModel,
    pt: PtModel,
    freed: Seq<u64>,
    steps: nat,
    page: u64,
)
    requires
        op.well_formed(),
        steps >= steps_left(op),
    ensures
        ({
            let end = run_unmap(op, pt, freed, steps);
            &&& end.0.phase is Finished
            &&& end.1.dom().contains(page) == (pt.dom().contains(page) && (op.phase is Finished
                || !to_be_cleared(op, page)))
            &&& end.1.dom().contains(page) ==> end.1[page] == pt[page]
        }),
    decreases steps,
{
    if op.phase is Finished {
        lemma_unmap_ended(op, pt, freed, steps);
    } else {
        let answered = perform(pt, op.action());
        let next = op.advance(answered.1);
        let freed1 = match op.action() {
            PtAction::FreeFrame { frame } => freed.push(frame),
            _ => freed,
        };
        lemma_unmap_step(op, answered.1);
        assert(steps_left(op) >= 1);
        law_unmapped_pages_are_gone(next, answered.0, freed1, (steps - 1) as nat, page);
        if op.phase is Clear && page_aligned(page as int) && op.cur <= page < op.end && page
            != op.cur {
            assert(page >= op.cur + 4096);
        }
    }
}

/// A step keeps the operation well formed and takes it closer to its end.
proof fn lemma_unmap_step(op: UnmapModel, reply: PtReply)
    requires
        op.well_formed(),
        !(op.phase is Finished),
        answers(op.action(), reply),
    ensures
        op.advance(reply).well_formed(),
        steps_left(op.advance(reply)) < steps_left(op),
        steps_left(op) >= 1,
{
}

/// The frames behind the pages from `from` up to `end`, in the order of the pages.
pub open spec fn frames_of(pt: PtModel, from: int, end: int) -> Seq<u64>
    decreases
            (if from < end {
                end - from
            } else {
                0
            }),
{
    if from >= end {
        Seq::empty()
    } else {
        (if pt.dom().contains(from as u64) {
            seq![pt[from as u64].frame]
        } else {
            Seq::empty()
        }) + frames_of(pt, from + 4096, end)
    }
}

/// A page before the range does not matter for the frames behind the range.
proof fn lemma_frames_of_later(pt: PtModel, page: u64, from: int, end: int)
    requires
        page < from,
        end <= u64::MAX,
    ensures
        frames_of(pt.remove(page), from, end) == frames_of(pt, from, end),
    decreases
            (if from < end {
                end - from
            } else {
                0
            }),
{
    if from < end {
        lemma_frames_of_later(pt, page, from + 4096, end);
    }
}

/// The frames that were taken from their pages and are not freed yet.
pub open spec fn waiting(op: UnmapModel) -> Seq<u64> {
    match op.phase {
        UnmapPhase::FreeBatch { index } => op.frames.skip(index as int),
        UnmapPhase::FreeNow { frame } => seq![frame],
        _ => op.frames,
    }
}

/// The frames behind the pages that are still to be cleared.
pub open spec fn frames_left(op: UnmapModel, pt: PtModel) -> Seq<u64> {
    match op.phase {
        UnmapPhase::Finished => Seq::empty(),
        UnmapPhase::FreeNow { frame: _ } => frames_of(pt, op.cur + 4096, op.end),
        _ => frames_of(pt, op.cur, op.end),
    }
}

/// If frames are to be freed, each frame behind a page of the range is freed exactly once, in the
/// order of the pages; else none is freed.
pub proof fn law_each_frame_is_freed_once(
    op: UnmapModel,
    pt: PtModel,
    freed: Seq<u64>,
    steps: nat,
)
    requires
        op.well_formed(),
        steps >= steps_left(op),
    ensures
        run_unmap(op, pt, freed, steps).2 == (if op.dealloc_frames {
            freed + waiting(op) + frames_left(op, pt)
        } else {
            freed
        }),
    decreases steps,
{
    if op.phase is Finished {
        lemma_unmap_ended(op, pt, freed, steps);
        assert(freed + waiting(op) + frames_left(op, pt) =~= freed);
    } else {
        let answered = perform(pt, op.action());
        let next = op.advance(answered.1);
        let freed1 = match op.action() {
            PtAction::FreeFrame { frame } => freed.push(frame),
            _ => freed,
        };
        lemma_unmap_step(op, answered.1);
        law_each_frame_is_freed_once(next, answered.0, freed1, (steps - 1) as nat);
        if op.phase is Clear && op.cur < op.end {
            lemma_frames_of_later(pt, op.cur as u64, op.cur + 4096, op.end);
        }
        if op.dealloc_frames {
            assert(freed1 + waiting(next) + frames_left(next, answered.0) =~= freed + waiting(op)
                + frames_left(op, pt));
        }
    }
}

} // verus!
