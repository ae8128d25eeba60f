//! Changing the permissions of mapped pages.
use vstd::prelude::*;

use crate::addr::{page_align_down, page_aligned, page_down, PAGE_BYTES};
use crate::lvbs::paging::{answers, law_permissions_become_flags, pteflags_of, vmflags_to_pteflags, PtAction, PtReply, Translation, VmFlags, MPROTECT_PTE_MASK};
use crate::lvbs::remap::{canonical_range, perform, Leaf, PtModel};

verus! {

/// Permissions could not be changed.
#[derive(Clone, Copy, PartialEq, Eq, Structural, Debug)]
pub enum PermissionUpdateError {
    Unaligned,
}

/// What a change of permissions is waiting for.
#[derive(Clone, Copy, PartialEq, Eq, Structural, Debug)]
pub enum MprotectPhase {
    /// To learn the flags of the current page.
    LookUp,
    /// To give the current page these flags.
    Update { flags: u64 },
    /// To flush the pages.
    Flush,
    /// Nothing: all mapped pages have the permissions.
    Changed,
    /// Nothing: the current page could not be changed. Pages before it were.
    Failed,
}

/// A change of the permissions of the pages from `start` to `last`.
#[derive(Clone, Copy, PartialEq, Eq, Structural, Debug)]
pub struct Mprotect {
    pub start: u64,
    pub last: u64,
    /// The current page.
    pub cur: u64,
    /// The flags that the permissions decide.
    pub new_flags: u64,
    pub phase: MprotectPhase,
}

/// The flags of a page after its permissions were changed: what the permissions decide is as they
/// say, all else as it was.
pub open spec fn changed_flags(flags: u64, new_flags: u64) -> u64 {
    (flags & !MPROTECT_PTE_MASK) | new_flags
}

impl Mprotect {
    /// The pages exist, and the change stands between its ends.
    pub open spec fn well_formed(self) -> bool {
        &&& page_aligned(self.start as int)
        &&& page_aligned(self.last as int)
        &&& page_aligned(self.cur as int)
        &&& self.start <= self.cur
        &&& self.start <= self.last
        &&& self.last + 4096 <= u64::MAX + 1
        &&& self.phase is LookUp || self.phase is Update ==> self.cur <= self.last
    }

    /// The change behind the current page.
    pub open spec fn next_page(self) -> Mprotect {
        if self.cur < self.last {
            Mprotect { cur: (self.cur + 4096) as u64, phase: MprotectPhase::LookUp, ..self }
        } else {
            Mprotect { phase: MprotectPhase::Flush, ..self }
        }
    }

    /// What the change asks for next.
    pub open spec fn spec_action(self) -> PtAction {
        match self.phase {
            MprotectPhase::LookUp => PtAction::Translate { page: self.cur },
            MprotectPhase::Update { flags } => PtAction::UpdateFlags { page: self.cur, flags },
            MprotectPhase::Flush => PtAction::FlushTlb {
                start: self.start,
                count: ((self.last - self.start) / 4096 + 1) as u64,
            },
            MprotectPhase::Changed | MprotectPhase::Failed => PtAction::Finished,
        }
    }

    /// The change behind the outcome of its action. A page that maps to nothing is passed over.
    pub open spec fn spec_advance(self, reply: PtReply) -> Mprotect {
        match (self.phase, reply) {
            (MprotectPhase::LookUp, PtReply::Translated(t)) => match t {
                Translation::Mapped { frame: _, flags } => if flags != self.new_flags {
                    Mprotect {
                        phase: MprotectPhase::Update { flags: changed_flags(flags, self.new_flags) },
                        ..self
                    }
                } else {
                    self.next_page()
                },
                Translation::NotMapped => self.next_page(),
                Translation::InvalidFrameAddress => Mprotect {
                    phase: MprotectPhase::Failed,
                    ..self
                },
            },
            (MprotectPhase::Update { flags: _ }, PtReply::Updated(done)) => if done {
                self.next_page()
            } else {
                Mprotect { phase: MprotectPhase::Failed, ..self }
            },
            (MprotectPhase::Flush, _) => Mprotect { phase: MprotectPhase::Changed, ..self },
            _ => self,
        }
    }

    /// What the change asks for next.
    pub fn action(&self) -> (r: PtAction)
        requires
            self.well_formed(),
        ensures
            r == self.spec_action(),
    {
        match self.phase {
            MprotectPhase::LookUp => PtAction::Translate { page: self.cur },
            MprotectPhase::Update { flags } => PtAction::UpdateFlags { page: self.cur, flags },
            MprotectPhase::Flush => PtAction::FlushTlb {
                start: self.start,
                count: (self.last - self.start) / PAGE_BYTES + 1,
            },
            MprotectPhase::Changed | MprotectPhase::Failed => PtAction::Finished,
        }
    }

    fn move_on(&mut self)
        requires
            old(self).well_formed(),
            old(self).cur <= old(self).last,
        ensures
            *final(self) == old(self).next_page(),
            final(self).well_formed(),
    {
        if self.cur < self.last {
            self.cur = self.cur + PAGE_BYTES;
            self.phase = MprotectPhase::LookUp;
        } else {
            self.phase = MprotectPhase::Flush;
        }
    }

    /// Takes the outcome of the action.
    pub fn advance(&mut self, reply: PtReply)
        requires
            old(self).well_formed(),
            answers(old(self).spec_action(), reply),
        ensures
            final(self).well_formed(),
            *final(self) == old(self).spec_advance(reply),
    {
        match (self.phase, reply) {
            (MprotectPhase::LookUp, PtReply::Translated(t)) => match t {
                Translation::Mapped { frame: _, flags } => {
                    if flags != self.new_flags {
                        self.phase = MprotectPhase::Update {
                            flags: (flags & !MPROTECT_PTE_MASK) | self.new_flags,
                        };
                    } else {
                        self.move_on();
                    }
                },
                Translation::NotMapped => self.move_on(),
                Translation::InvalidFrameAddress => {
                    self.phase = MprotectPhase::Failed;
                },
            },
            (MprotectPhase::Update { flags: _ }, PtReply::Updated(done)) => {
                if done {
                    self.move_on();
                } else {
                    self.phase = MprotectPhase::Failed;
                }
            },
            (MprotectPhase::Flush, _) => {
                self.phase = MprotectPhase::Changed;
            },
            _ => {},
        }
    }

    /// The result of the change, once it has ended.
    pub fn result(&self) -> (r: Option<Result<(), PermissionUpdateError>>)
        ensures
            r == (match self.phase {
                MprotectPhase::Changed => Some(Ok::<(), PermissionUpdateError>(())),
                MprotectPhase::Failed => Some(Err(PermissionUpdateError::Unaligned)),
                _ => None,
            }),
    {
        match self.phase {
            MprotectPhase::Changed => Some(Ok(())),
            MprotectPhase::Failed => Some(Err(PermissionUpdateError::Unaligned)),
            _ => None,
        }
    }
}

/// The flags of a permission are among those that permissions decide.
proof fn lemma_pteflags_masked(flags: VmFlags)
    ensures
        pteflags_of(flags) & MPROTECT_PTE_MASK == pteflags_of(flags),
{
    let f = pteflags_of(flags);
    assert(f & 0x8000_0000_0000_0006u64 == f) by (bit_vector)
        requires
            f == 0 || f == 0x4 || f == 0x6 || f == 0x8000_0000_0000_0000 || f
                == 0x8000_0000_0000_0004 || f == 0x8000_0000_0000_0006,
    ;
}

/// Starts changing the permissions of the pages that hold the addresses from `start` up to `end`.
pub fn mprotect_pages(start: u64, end: u64, new_flags: VmFlags) -> (r: Result<
    Mprotect,
    PermissionUpdateError,
>)
    requires
        start < end,
        canonical_range(start as int, end as int),
    ensures
        if !page_aligned(start as int) {
            r == Err::<Mprotect, _>(PermissionUpdateError::Unaligned)
        } else {
            &&& r matches Ok(m)
            &&& m.well_formed()
            &&& m == (Mprotect {
                start,
                last: page_down(end - 1) as u64,
                cur: start,
                new_flags: pteflags_of(new_flags),
                phase: MprotectPhase::LookUp,
            })
        },
{
    let flags: u64 = vmflags_to_pteflags(new_flags);
    proof {
        lemma_pteflags_masked(new_flags);
    }
    let masked: u64 = flags & MPROTECT_PTE_MASK;
    if start % PAGE_BYTES != 0 {
        return Err(PermissionUpdateError::Unaligned);
    }
    Ok(
        Mprotect {
            start,
            last: page_align_down(end - 1),
            cur: start,
            new_flags: masked,
            phase: MprotectPhase::LookUp,
        },
    )
}

/// The change and the page table after so many steps.
pub open spec fn run_mprotect(m: Mprotect, pt: PtModel, steps: nat) -> (Mprotect, PtModel)
    decreases steps,
{
    if steps == 0 {
        (m, pt)
    } else {
        let answered = perform(pt, m.spec_action());
        run_mprotect(m.spec_advance(answered.1), answered.0, (steps - 1) as nat)
    }
}

/// Flags after a change that finds them already as wanted leaves them.
pub open spec fn flags_after(flags: u64, new_flags: u64) -> u64 {
    if flags == new_flags {
        flags
    } else {
        changed_flags(flags, new_flags)
    }
}

/// The page table after the permissions of the pages from `first` to `last` were changed.
pub open spec fn protected(pt: PtModel, first: u64, last: u64, new_flags: u64) -> PtModel {
    pt.map_entries(
        |page: u64, leaf: Leaf|
            if first <= page <= last && page_aligned(page as int) {
                Leaf { frame: leaf.frame, flags: flags_after(leaf.flags, new_flags) }
            } else {
                leaf
            },
    )
}

/// Runs stay where they ended.
proof fn lemma_mprotect_ended(m: Mprotect, pt: PtModel, steps: nat)
    requires
        m.phase is Changed,
    ensures
        run_mprotect(m, pt, steps) == (m, pt),
    decreases steps,
{
    if steps > 0 {
        lemma_mprotect_ended(m, pt, (steps - 1) as nat);
    }
}

/// A change of permissions gives every mapped page of the range the permissions, and changes neither
/// what pages map to nor any other page.
pub proof fn law_mprotect_changes_only_permissions(m: Mprotect, pt: PtModel, steps: nat)
    requires
        m.well_formed(),
        m.phase is LookUp,
        steps >= 2 * ((m.last - m.cur) / 4096 + 1) + 1,
    ensures
        run_mprotect(m, pt, steps).0.phase is Changed,
        run_mprotect(m, pt, steps).1 == protected(pt, m.cur, m.last, m.new_flags),
    decreases m.last - m.cur,
{
    let answered = perform(pt, m.spec_action());
    let m1 = m.spec_advance(answered.1);
    let s1 = (steps - 1) as nat;
    let page = m.cur;
    let next = m.next_page();
    let pt1 = if pt.dom().contains(page) && pt[page].flags != m.new_flags {
        pt.insert(
            page,
            Leaf { frame: pt[page].frame, flags: changed_flags(pt[page].flags, m.new_flags) },
        )
    } else {
        pt
    };
    let s = if pt.dom().contains(page) && pt[page].flags != m.new_flags {
        let a1 = perform(pt, m1.spec_action());
        assert(m1.spec_advance(a1.1) == next);
        assert(run_mprotect(m1, pt, s1) == run_mprotect(next, pt1, (s1 - 1) as nat));
        (s1 - 1) as nat
    } else {
        assert(m1 == next);
        s1
    };
    assert(run_mprotect(m, pt, steps) == run_mprotect(next, pt1, s));
    if m.cur < m.last {
        law_mprotect_changes_only_permissions(next, pt1, s);
        assert(protected(pt1, next.cur, m.last, m.new_flags) =~= protected(
            pt,
            m.cur,
            m.last,
            m.new_flags,
        )) by {
            assert forall|p: u64| pt.dom().contains(p) implies protected(
                pt1,
                next.cur,
                m.last,
                m.new_flags,
            )[p] == protected(pt, m.cur, m.last, m.new_flags)[p] by {
                if m.cur <= p < next.cur && page_aligned(p as int) {
                    assert(p == page);
                }
            }
        }
    } else {
        let done = next.spec_advance(PtReply::Done);
        assert(run_mprotect(next, pt1, s) == run_mprotect(done, pt1, (s - 1) as nat));
        lemma_mprotect_ended(done, pt1, (s - 1) as nat);
        assert(pt1 =~= protected(pt, m.cur, m.last, m.new_flags)) by {
            assert forall|p: u64| pt.dom().contains(p) implies pt1[p] == protected(
                pt,
                m.cur,
                m.last,
                m.new_flags,
            )[p] by {
                if m.cur <= p <= m.last && page_aligned(p as int) {
                    assert(p == page);
                }
            }
        }
    }
}

/// A change that has ended has given every mapped page of the range exactly the permissions: it is writable,
/// accessible to user mode and executable just as they say. All other flags of the page, the frame that it
/// maps to, and all other pages are as they were.
pub proof fn law_mprotect_grants_permissions(
    m: Mprotect,
    permissions: VmFlags,
    pt: PtModel,
    steps: nat,
    page: u64,
)
    requires
        m.well_formed(),
        m.phase is LookUp,
        m.new_flags == pteflags_of(permissions),
        steps >= 2 * ((m.last - m.cur) / 4096 + 1) + 1,
        pt.dom().contains(page),
    ensures
        ({
            let (done, after) = run_mprotect(m, pt, steps);
            let before = pt[page].flags;
            let flags = after[page].flags;
            &&& done.phase is Changed
            &&& after.dom() == pt.dom()
            &&& after[page].frame == pt[page].frame
            &&& if m.cur <= page <= m.last && page % 4096 == 0 {
                &&& (flags & 0x2 != 0) == permissions.write
                &&& (flags & 0x4 != 0) == (permissions.read || permissions.write)
                &&& (flags & 0x8000_0000_0000_0000 != 0) == !permissions.execute
                &&& flags & 0x7fff_ffff_ffff_fff9 == before & 0x7fff_ffff_ffff_fff9
            } else {
                flags == before
            }
        }),
{
    law_mprotect_changes_only_permissions(m, pt, steps);
    let f = pt[page].flags;
    let n = m.new_flags;
    law_permissions_become_flags(permissions);
    let g = (f & !0x8000_0000_0000_0006u64) | n;
    assert(g & 0x2u64 == n & 0x2u64 && g & 0x4u64 == n & 0x4u64 && g & 0x8000_0000_0000_0000u64 == n
        & 0x8000_0000_0000_0000u64 && g & 0x7fff_ffff_ffff_fff9u64 == f & 0x7fff_ffff_ffff_fff9u64)
        by (bit_vector)
        requires
            g == (f & !0x8000_0000_0000_0006u64) | n,
            n & 0x7fff_ffff_ffff_fff9u64 == 0,
    ;
    assert(run_mprotect(m, pt, steps).1.dom() =~= pt.dom());
}

} // verus!
