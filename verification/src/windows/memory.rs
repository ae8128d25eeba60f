//! Memory of a process on Windows.
//!
//! Windows manages memory in regions: a range of addresses may span several of them, each of which is
//! to be dealt with on its own. The operations here are machines that ask for the region at an address,
//! decide, and name what is to be done with it.
use vstd::arithmetic::div_mod::{lemma_mod_bound, lemma_mod_decreases};
use vstd::prelude::*;

use crate::lvbs::kernel::{AllocationError, FixedAddressBehavior};
use crate::lvbs::paging::VmFlags;

verus! {

/// The lowest address of a task.
pub const TASK_ADDR_MIN: u64 = 0x1_0000;

/// The end of the addresses of a task.
pub const TASK_ADDR_MAX: u64 = 0x7fff_fffe_f000;

pub const PAGE_NOACCESS: u32 = 0x01;

pub const PAGE_READONLY: u32 = 0x02;

pub const PAGE_READWRITE: u32 = 0x04;

pub const PAGE_EXECUTE_READ: u32 = 0x20;

pub const PAGE_EXECUTE_READWRITE: u32 = 0x40;

/// The protection of Windows for permissions. There is no protection that allows writing or executing
/// but not reading, so reading comes along.
pub open spec fn protection_of(flags: VmFlags) -> u32 {
    if flags.execute {
        if flags.write {
            PAGE_EXECUTE_READWRITE
        } else {
            PAGE_EXECUTE_READ
        }
    } else if flags.write {
        PAGE_READWRITE
    } else if flags.read {
        PAGE_READONLY
    } else {
        PAGE_NOACCESS
    }
}

/// The protection of Windows for permissions.
pub fn prot_flags(flags: VmFlags) -> (r: u32)
    ensures
        r == protection_of(flags),
{
    match (flags.read, flags.write, flags.execute) {
        (false, false, false) => PAGE_NOACCESS,
        (true, false, false) => PAGE_READONLY,
        (false, true, false) => PAGE_READWRITE,
        (true, true, false) => PAGE_READWRITE,
        (false, false, true) => PAGE_EXECUTE_READ,
        (true, false, true) => PAGE_EXECUTE_READ,
        (false, true, true) => PAGE_EXECUTE_READWRITE,
        (true, true, true) => PAGE_EXECUTE_READWRITE,
    }
}

/// A protection allows what was asked for.
pub open spec fn allows(protection: u32, flags: VmFlags) -> bool {
    &&& flags.read ==> protection != PAGE_NOACCESS
    &&& flags.write ==> protection == PAGE_READWRITE || protection == PAGE_EXECUTE_READWRITE
    &&& flags.execute ==> protection == PAGE_EXECUTE_READ || protection == PAGE_EXECUTE_READWRITE
}

/// The protection allows what the permissions do; it allows writing and executing only where they do,
/// and nothing at all where they allow nothing.
pub proof fn law_protection_is_tight(flags: VmFlags)
    ensures
        allows(protection_of(flags), flags),
        allows(
            protection_of(flags),
            VmFlags { read: false, write: true, execute: false },
        ) == flags.write,
        allows(
            protection_of(flags),
            VmFlags { read: false, write: false, execute: true },
        ) == flags.execute,
        !flags.read && !flags.write && !flags.execute ==> protection_of(flags) == PAGE_NOACCESS,
{
}

/// The state of a region.
#[derive(Clone, Copy, PartialEq, Eq, Structural, Debug)]
pub enum RegionState {
    Free,
    Reserved,
    Committed,
}

/// A region, as far as it lies behind the address that was asked for.
#[derive(Clone, Copy, PartialEq, Eq, Structural, Debug)]
pub struct Region {
    pub size: u64,
    pub state: RegionState,
}

/// The next multiple of the granularity at or below an address.
pub open spec fn granule_down(x: int, granularity: int) -> int {
    x - x % granularity
}

/// The next multiple of the granularity at or above an address.
pub open spec fn granule_up(x: int, granularity: int) -> int {
    granule_down(x + granularity - 1, granularity)
}

/// Rounds down to a multiple of the granularity.
pub fn round_down_to_granu(x: u64, granularity: u64) -> (r: u64)
    requires
        granularity > 0,
    ensures
        r == granule_down(x as int, granularity as int),
{
    proof {
        lemma_mod_decreases(x as nat, granularity as nat);
    }
    x - x % granularity
}

/// Rounds up to a multiple of the granularity.
pub fn round_up_to_granu(x: u64, granularity: u64) -> (r: u64)
    requires
        granularity > 0,
        x + granularity - 1 <= u64::MAX,
    ensures
        r == granule_up(x as int, granularity as int),
{
    let y: u64 = x + (granularity - 1);
    proof {
        lemma_mod_decreases(y as nat, granularity as nat);
    }
    y - y % granularity
}

/// A walk over the regions of a range.
#[derive(Clone, Copy, PartialEq, Eq, Structural, Debug)]
pub struct RegionWalk {
    pub at: u64,
    pub end: u64,
}

/// The part of a region that belongs to a range that is left.
pub open spec fn piece_len(at: u64, end: u64, size: u64) -> u64 {
    if size <= end - at {
        size
    } else {
        (end - at) as u64
    }
}

impl RegionWalk {
    /// The walk over a range that has not begun. Nothing of a range that ends before it starts is
    /// walked.
    pub open spec fn over(start: u64, end: u64) -> RegionWalk {
        RegionWalk {
            at: if start <= end {
                start
            } else {
                end
            },
            end,
        }
    }

    /// The walk has not left the range.
    pub open spec fn well_formed(self) -> bool {
        self.at <= self.end
    }

    /// The address whose region is needed, while some of the range is left.
    pub fn query(&self) -> (r: Option<u64>)
        ensures
            r == (if self.at < self.end {
                Some(self.at)
            } else {
                None
            }),
    {
        if self.at < self.end {
            Some(self.at)
        } else {
            None
        }
    }

    /// Takes the region at that address. The result is the part of the range to deal with: its start
    /// and its length.
    pub fn take(&mut self, size: u64) -> (r: (u64, u64))
        requires
            old(self).at < old(self).end,
        ensures
            final(self).well_formed(),
            r.0 == old(self).at,
            r.1 == piece_len(old(self).at, old(self).end, size),
            *final(self) == (RegionWalk { at: (r.0 + r.1) as u64, end: old(self).end }),
    {
        let start = self.at;
        let left: u64 = self.end - self.at;
        let len: u64 = if size <= left {
            size
        } else {
            left
        };
        self.at = start + len;
        (start, len)
    }
}

/// Starts a walk over a range, region by region. Nothing of an empty range is walked.
pub fn process_memory_range_by_regions(start: u64, end: u64) -> (r: RegionWalk)
    ensures
        r.well_formed(),
        r == RegionWalk::over(start, end),
{
    if start <= end {
        RegionWalk { at: start, end }
    } else {
        RegionWalk { at: end, end }
    }
}

/// The parts of a range that regions of the given sizes cut it into.
pub open spec fn pieces_of(at: int, end: int, sizes: Seq<u64>) -> Seq<(int, int)>
    decreases sizes.len(),
{
    if sizes.len() == 0 || at >= end {
        Seq::empty()
    } else {
        let len = if sizes[0] <= end - at {
            sizes[0] as int
        } else {
            end - at
        };
        seq![(at, len)] + pieces_of(at + len, end, sizes.skip(1))
    }
}

/// The lengths of all parts together.
pub open spec fn total_len(pieces: Seq<(int, int)>) -> int
    decreases pieces.len(),
{
    if pieces.len() == 0 {
        0
    } else {
        pieces[0].1 + total_len(pieces.skip(1))
    }
}

/// A walk deals with every address of the range once: its parts follow one another without gaps, and
/// with enough regions they make up the whole range.
pub proof fn law_pieces_partition_range(at: int, end: int, sizes: Seq<u64>, i: int)
    requires
        at <= end,
        sizes.len() >= end - at,
        forall|k: int| 0 <= k < sizes.len() ==> #[trigger] sizes[k] > 0,
    ensures
        total_len(pieces_of(at, end, sizes)) == end - at,
        0 <= i < pieces_of(at, end, sizes).len() ==> ({
            let p = pieces_of(at, end, sizes);
            &&& at <= p[i].0 && p[i].1 > 0 && p[i].0 + p[i].1 <= end
            &&& i + 1 < p.len() ==> p[i].0 + p[i].1 == p[i + 1].0
            &&& p[0].0 == at
        }),
    decreases sizes.len(),
{
    if sizes.len() > 0 && at < end {
        let len = if sizes[0] <= end - at {
            sizes[0] as int
        } else {
            end - at
        };
        let rest = sizes.skip(1);
        assert forall|k: int| 0 <= k < rest.len() implies #[trigger] rest[k] > 0 by {
            assert(sizes[k + 1] > 0);
        }
        law_pieces_partition_range(at + len, end, rest, i - 1);
        law_pieces_partition_range(at + len, end, rest, 0);
        let p = pieces_of(at, end, sizes);
        let q = pieces_of(at + len, end, rest);
        assert(p =~= seq![(at, len)] + q);
        assert(p.skip(1) =~= q);
    }
}

/// What an allocation asks to be done.
#[derive(Clone, Copy, PartialEq, Eq, Structural, Debug)]
pub enum MemAction {
    /// Tell the region at an address.
    Query { addr: u64 },
    /// Give pages back, but keep their addresses.
    Decommit { addr: u64, len: u64 },
    /// Reserve addresses: at zero, wherever there is room.
    Reserve { addr: u64, len: u64 },
    /// Put pages at reserved addresses.
    Commit { addr: u64, len: u64, protection: u32 },
    /// Bring pages into memory.
    Prefetch { addr: u64, len: u64 },
    /// There is nothing left to do.
    Finished,
}

/// The outcome of an action. All but queries either succeed or end the process.
#[derive(Clone, Copy, PartialEq, Eq, Structural, Debug)]
pub enum MemReply {
    Region(Region),
    /// The address of what was reserved.
    At(u64),
    Done,
}

/// How far an allocation is.
#[derive(Clone, Copy, PartialEq, Eq, Structural, Debug)]
pub enum AllocPhase {
    /// Looking for pages that are in use.
    Probe { at: u64 },
    /// Looking at the region at an address, which is to be filled.
    Look { at: u64 },
    /// Giving up the pages of a region, which is then filled.
    Decommit { at: u64, len: u64 },
    /// Reserving the addresses of a free region, which is then filled.
    Reserve { at: u64, len: u64 },
    /// Filling a region.
    Commit { at: u64, len: u64 },
    /// Bringing the pages of a region into memory.
    Prefetch { at: u64, len: u64 },
    /// Reserving addresses anywhere.
    ReserveAnywhere,
    /// Filling what was reserved anywhere.
    CommitAnywhere { at: u64 },
    /// Bringing its pages into memory.
    PrefetchAnywhere { at: u64 },
    Done { at: u64 },
    Failed { error: AllocationError },
}

/// An allocation of pages.
#[derive(Clone, Copy, PartialEq, Eq, Structural, Debug)]
pub struct AllocatePages {
    pub start: u64,
    pub end: u64,
    pub protection: u32,
    pub populate: bool,
    pub behavior: FixedAddressBehavior,
    /// The granularity of reservations.
    pub granularity: u64,
    pub phase: AllocPhase,
}

impl AllocatePages {
    /// A range at a given address lies within the addresses of a task, and so does every part of it that
    /// is dealt with; one at any address can be rounded up.
    pub open spec fn well_formed(self) -> bool {
        &&& self.granularity > 0
        &&& self.granularity <= 0x1_0000_0000
        &&& self.start <= self.end || self.phase is Done
        &&& if self.start == 0 {
            self.end + self.granularity - 1 <= u64::MAX
        } else {
            TASK_ADDR_MIN <= self.start && self.end <= TASK_ADDR_MAX
        }
        &&& match self.phase {
            AllocPhase::Probe { at } => self.start != 0 && self.start <= at < self.end,
            AllocPhase::Look { at } => self.start != 0 && self.start <= at < self.end,
            AllocPhase::Decommit { at, len } | AllocPhase::Reserve { at, len }
            | AllocPhase::Commit { at, len } | AllocPhase::Prefetch { at, len } => self.start != 0
                && self.start <= at && 0 < len && at + len <= self.end,
            _ => true,
        }
    }

    /// The allocation in another phase.
    pub open spec fn with_phase(self, phase: AllocPhase) -> AllocatePages {
        AllocatePages { phase, ..self }
    }

    /// The next region to fill, if there is one.
    pub open spec fn fill_from(self, at: u64) -> AllocatePages {
        if at < self.end {
            self.with_phase(AllocPhase::Look { at })
        } else {
            self.with_phase(AllocPhase::Done { at: self.start })
        }
    }

    /// What follows the search for pages in use.
    pub open spec fn probed(self, in_use: bool) -> AllocatePages {
        if in_use && self.behavior == FixedAddressBehavior::Hint {
            self.with_phase(AllocPhase::ReserveAnywhere)
        } else if in_use && self.behavior == FixedAddressBehavior::NoReplace {
            self.with_phase(AllocPhase::Failed { error: AllocationError::AddressInUse })
        } else {
            self.fill_from(self.start)
        }
    }

    /// The next action.
    pub open spec fn spec_action(self) -> MemAction {
        match self.phase {
            AllocPhase::Probe { at } => MemAction::Query { addr: at },
            AllocPhase::Look { at } => MemAction::Query { addr: at },
            AllocPhase::Decommit { at, len } => MemAction::Decommit { addr: at, len },
            AllocPhase::Reserve { at, len } => {
                let from = granule_down(at as int, self.granularity as int);
                let to = granule_up(at + len, self.granularity as int);
                MemAction::Reserve { addr: from as u64, len: (to - from) as u64 }
            },
            AllocPhase::Commit { at, len } => MemAction::Commit {
                addr: at,
                len,
                protection: self.protection,
            },
            AllocPhase::Prefetch { at, len } => MemAction::Prefetch { addr: at, len },
            AllocPhase::ReserveAnywhere => MemAction::Reserve {
                addr: 0,
                len: granule_up(self.end - self.start, self.granularity as int) as u64,
            },
            AllocPhase::CommitAnywhere { at } => MemAction::Commit {
                addr: at,
                len: (self.end - self.start) as u64,
                protection: self.protection,
            },
            AllocPhase::PrefetchAnywhere { at } => MemAction::Prefetch {
                addr: at,
                len: (self.end - self.start) as u64,
            },
            AllocPhase::Done { .. } | AllocPhase::Failed { .. } => MemAction::Finished,
        }
    }

    /// The outcome fits the action. Pages that came into use while others were filled can only be
    /// replaced where that was asked for.
    pub open spec fn answered_by(self, reply: MemReply) -> bool {
        match self.phase {
            AllocPhase::Probe { .. } => reply matches MemReply::Region(r) && r.size > 0,
            AllocPhase::Look { .. } => reply matches MemReply::Region(r) && r.size > 0 && (r.state
                == RegionState::Committed ==> self.behavior == FixedAddressBehavior::Replace),
            AllocPhase::ReserveAnywhere => reply is At,
            AllocPhase::Done { .. } | AllocPhase::Failed { .. } => false,
            _ => reply is Done,
        }
    }

    /// What follows the outcome of the action.
    pub open spec fn spec_advance(self, reply: MemReply) -> AllocatePages {
        match self.phase {
            AllocPhase::Probe { at } => match reply {
                MemReply::Region(r) => if r.state == RegionState::Committed {
                    self.probed(true)
                } else {
                    let next = (at + piece_len(at, self.end, r.size)) as u64;
                    if next < self.end {
                        self.with_phase(AllocPhase::Probe { at: next })
                    } else {
                        self.probed(false)
                    }
                },
                _ => self,
            },
            AllocPhase::Look { at } => match reply {
                MemReply::Region(r) => {
                    let len = piece_len(at, self.end, r.size);
                    self.with_phase(
                        match r.state {
                            RegionState::Committed => AllocPhase::Decommit { at, len },
                            RegionState::Reserved => AllocPhase::Commit { at, len },
                            RegionState::Free => AllocPhase::Reserve { at, len },
                        },
                    )
                },
                _ => self,
            },
            AllocPhase::Decommit { at, len } => self.with_phase(AllocPhase::Commit { at, len }),
            AllocPhase::Reserve { at, len } => self.with_phase(AllocPhase::Commit { at, len }),
            AllocPhase::Commit { at, len } => if self.populate {
                self.with_phase(AllocPhase::Prefetch { at, len })
            } else {
                self.fill_from((at + len) as u64)
            },
            AllocPhase::Prefetch { at, len } => self.fill_from((at + len) as u64),
            AllocPhase::ReserveAnywhere => match reply {
                MemReply::At(at) => self.with_phase(AllocPhase::CommitAnywhere { at }),
                _ => self,
            },
            AllocPhase::CommitAnywhere { at } => if self.populate {
                self.with_phase(AllocPhase::PrefetchAnywhere { at })
            } else {
                self.with_phase(AllocPhase::Done { at })
            },
            AllocPhase::PrefetchAnywhere { at } => self.with_phase(AllocPhase::Done { at }),
            AllocPhase::Done { .. } | AllocPhase::Failed { .. } => self,
        }
    }

    /// The next action.
    pub fn action(&self) -> (r: MemAction)
        requires
            self.well_formed(),
        ensures
            r == self.spec_action(),
    {
        match self.phase {
            AllocPhase::Probe { at } => MemAction::Query { addr: at },
            AllocPhase::Look { at } => MemAction::Query { addr: at },
            AllocPhase::Decommit { at, len } => MemAction::Decommit { addr: at, len },
            AllocPhase::Reserve { at, len } => {
                let from: u64 = round_down_to_granu(at, self.granularity);
                let to: u64 = round_up_to_granu(at + len, self.granularity);
                proof {
                    lemma_granules(at as int, at + len, self.granularity as int);
                }
                MemAction::Reserve { addr: from, len: to - from }
            },
            AllocPhase::Commit { at, len } => MemAction::Commit {
                addr: at,
                len,
                protection: self.protection,
            },
            AllocPhase::Prefetch { at, len } => MemAction::Prefetch { addr: at, len },
            AllocPhase::ReserveAnywhere => MemAction::Reserve {
                addr: 0,
                len: round_up_to_granu(self.end - self.start, self.granularity),
            },
            AllocPhase::CommitAnywhere { at } => MemAction::Commit {
                addr: at,
                len: self.end - self.start,
                protection: self.protection,
            },
            AllocPhase::PrefetchAnywhere { at } => MemAction::Prefetch {
                addr: at,
                len: self.end - self.start,
            },
            AllocPhase::Done { .. } | AllocPhase::Failed { .. } => MemAction::Finished,
        }
    }

    /// Goes on with the outcome of the action.
    pub fn advance(&mut self, reply: MemReply)
        requires
            old(self).well_formed(),
            old(self).answered_by(reply),
        ensures
            final(self).well_formed(),
            *final(self) == old(self).spec_advance(reply),
    {
        let end = self.end;
        match self.phase {
            AllocPhase::Probe { at } => {
                if let MemReply::Region(r) = reply {
                    if r.state == RegionState::Committed {
                        self.end_probe(true);
                    } else {
                        let left: u64 = end - at;
                        let len: u64 = if r.size <= left {
                            r.size
                        } else {
                            left
                        };
                        if at + len < end {
                            self.phase = AllocPhase::Probe { at: at + len };
                        } else {
                            self.end_probe(false);
                        }
                    }
                }
            },
            AllocPhase::Look { at } => {
                if let MemReply::Region(r) = reply {
                    let left: u64 = end - at;
                    let len: u64 = if r.size <= left {
                        r.size
                    } else {
                        left
                    };
                    self.phase =
                    match r.state {
                        RegionState::Committed => AllocPhase::Decommit { at, len },
                        RegionState::Reserved => AllocPhase::Commit { at, len },
                        RegionState::Free => AllocPhase::Reserve { at, len },
                    };
                }
            },
            AllocPhase::Decommit { at, len } => {
                self.phase = AllocPhase::Commit { at, len };
            },
            AllocPhase::Reserve { at, len } => {
                self.phase = AllocPhase::Commit { at, len };
            },
            AllocPhase::Commit { at, len } => {
                if self.populate {
                    self.phase = AllocPhase::Prefetch { at, len };
                } else {
                    self.next_region(at + len);
                }
            },
            AllocPhase::Prefetch { at, len } => {
                self.next_region(at + len);
            },
            AllocPhase::ReserveAnywhere => {
                if let MemReply::At(at) = reply {
                    self.phase = AllocPhase::CommitAnywhere { at };
                }
            },
            AllocPhase::CommitAnywhere { at } => {
                self.phase =
                if self.populate {
                    AllocPhase::PrefetchAnywhere { at }
                } else {
                    AllocPhase::Done { at }
                };
            },
            AllocPhase::PrefetchAnywhere { at } => {
                self.phase = AllocPhase::Done { at };
            },
            AllocPhase::Done { .. } | AllocPhase::Failed { .. } => {},
        }
    }

    fn next_region(&mut self, at: u64)
        requires
            old(self).with_phase(AllocPhase::ReserveAnywhere).well_formed(),
            old(self).start != 0,
            old(self).start <= at,
        ensures
            final(self).well_formed(),
            *final(self) == old(self).fill_from(at),
    {
        self.phase =
        if at < self.end {
            AllocPhase::Look { at }
        } else {
            AllocPhase::Done { at: self.start }
        };
    }

    fn end_probe(&mut self, in_use: bool)
        requires
            old(self).with_phase(AllocPhase::ReserveAnywhere).well_formed(),
            old(self).start != 0,
        ensures
            final(self).well_formed(),
            *final(self) == old(self).probed(in_use),
    {
        if in_use && self.behavior == FixedAddressBehavior::Hint {
            self.phase = AllocPhase::ReserveAnywhere;
        } else if in_use && self.behavior == FixedAddressBehavior::NoReplace {
            self.phase = AllocPhase::Failed { error: AllocationError::AddressInUse };
        } else {
            self.next_region(self.start);
        }
    }

    /// The result, once there is nothing left to do: the address of the pages.
    pub fn result(&self) -> (r: Option<Result<u64, AllocationError>>)
        ensures
            r == (match self.phase {
                AllocPhase::Done { at } => Some(Ok(at)),
                AllocPhase::Failed { error } => Some(Err(error)),
                _ => None,
            }),
    {
        match self.phase {
            AllocPhase::Done { at } => Some(Ok(at)),
            AllocPhase::Failed { error } => Some(Err(error)),
            _ => None,
        }
    }
}

proof fn lemma_granules(from: int, to: int, granularity: int)
    requires
        granularity > 0,
        0 <= from <= to,
    ensures
        0 <= granule_down(from, granularity) <= from,
        to <= granule_up(to, granularity),
{
    lemma_mod_decreases(from as nat, granularity as nat);
    lemma_mod_bound(from, granularity);
    lemma_mod_bound(to + granularity - 1, granularity);
}

/// Where an allocation starts: with a search for pages in use, unless the range starts at zero, which
/// means that any address will do.
pub open spec fn alloc_start(
    start: u64,
    end: u64,
    protection: u32,
    populate: bool,
    behavior: FixedAddressBehavior,
    granularity: u64,
) -> AllocatePages {
    let m = AllocatePages {
        start,
        end,
        protection,
        populate,
        behavior,
        granularity,
        phase: AllocPhase::ReserveAnywhere,
    };
    if start == 0 {
        m
    } else if start < end {
        m.with_phase(AllocPhase::Probe { at: start })
    } else {
        m.probed(false)
    }
}

/// Starts an allocation of pages.
pub fn allocate_pages(
    start: u64,
    end: u64,
    permissions: VmFlags,
    populate: bool,
    behavior: FixedAddressBehavior,
    granularity: u64,
) -> (r: AllocatePages)
    requires
        start != 0 ==> TASK_ADDR_MIN <= start && end <= TASK_ADDR_MAX,
        start == 0 ==> end + granularity - 1 <= u64::MAX,
        0 < granularity <= 0x1_0000_0000,
    ensures
        r.well_formed(),
        r == alloc_start(start, end, protection_of(permissions), populate, behavior, granularity),
{
    let mut m = AllocatePages {
        start,
        end,
        protection: prot_flags(permissions),
        populate,
        behavior,
        granularity,
        phase: AllocPhase::ReserveAnywhere,
    };
    if start != 0 {
        if start < end {
            m.phase = AllocPhase::Probe { at: start };
        } else {
            m.phase = AllocPhase::Done { at: start };
        }
    }
    m
}

/// Starts giving pages back: each region of the range is decommitted.
pub fn deallocate_pages(start: u64, end: u64) -> (r: RegionWalk)
    ensures
        r == RegionWalk::over(start, end),
{
    process_memory_range_by_regions(start, end)
}

/// Starts a change of permissions: each region of the range gets the protection.
pub fn update_permissions(start: u64, end: u64, permissions: VmFlags) -> (r: (RegionWalk, u32))
    ensures
        r == (RegionWalk::over(start, end), protection_of(permissions)),
{
    (process_memory_range_by_regions(start, end), prot_flags(permissions))
}

/// A range of addresses.
#[derive(Clone, Copy, PartialEq, Eq, Structural, Debug)]
pub struct AddrRange {
    pub start: u64,
    pub end: u64,
}

/// A search for the memory that is in use when the platform starts.
pub struct MemoryMaps {
    /// The address whose region is needed; `None` when the search is over.
    pub address: Option<u64>,
    pub reserved: Vec<AddrRange>,
}

/// The ranges are in order, hold something, and end at or before an address.
pub open spec fn ascending(ranges: Seq<AddrRange>, limit: int) -> bool {
    &&& forall|i: int|
        0 <= i < ranges.len() ==> (#[trigger] ranges[i]).start < ranges[i].end && ranges[i].end
            <= limit
    &&& forall|i: int, j: int|
        0 <= i < j < ranges.len() ==> (#[trigger] ranges[i]).end <= (#[trigger] ranges[j]).start
}

impl MemoryMaps {
    /// Takes the region at the address: where it starts, and what it is; `None` where there is none.
    pub fn take(&mut self, region: Option<(u64, Region)>)
        requires
            old(self).address is Some,
        ensures
            match region {
                None => final(self).address is None && final(self).reserved@ == old(
                    self,
                ).reserved@,
                Some((base, r)) => {
                    let end = ((base + r.size) % 0x1_0000_0000_0000_0000) as u64;
                    &&& final(self).address == (if end == 0 {
                        None
                    } else {
                        Some(end)
                    })
                    &&& final(self).reserved@ == (if r.state != RegionState::Free {
                        old(self).reserved@.push(AddrRange { start: base, end })
                    } else {
                        old(self).reserved@
                    })
                },
            },
    {
        match region {
            None => {
                self.address = None;
            },
            Some((base, r)) => {
                let end: u64 = base.wrapping_add(r.size);
                if r.state != RegionState::Free {
                    self.reserved.push(AddrRange { start: base, end });
                }
                self.address =
                if end == 0 {
                    None
                } else {
                    Some(end)
                };
            },
        }
    }
}

/// Starts a search for the memory that is in use, at the lowest address.
pub fn read_memory_maps() -> (r: MemoryMaps)
    ensures
        r.address == Some(0u64),
        r.reserved@ == Seq::<AddrRange>::empty(),
{
    MemoryMaps { address: Some(0), reserved: Vec::new() }
}

/// What was found is in order and does not overlap, as long as every region starts at or behind the
/// address that was asked for, holds something, and ends at an address.
pub proof fn law_reserved_pages_ascend(
    ranges: Seq<AddrRange>,
    address: u64,
    base: u64,
    size: u64,
)
    requires
        ascending(ranges, address as int),
        address <= base,
        0 < size,
        base + size <= u64::MAX,
    ensures
        ascending(
            ranges.push(AddrRange { start: base, end: (base + size) as u64 }),
            base + size,
        ),
        ascending(ranges, base + size),
{
}

/// The smallest power of two that is at least a number.
pub open spec fn power_from(n: int, p: int) -> int
    decreases
            if n > p {
                n - p
            } else {
                0
            },
{
    if p <= 0 || n <= p {
        p
    } else {
        power_from(n, 2 * p)
    }
}

/// How much memory the allocator asks for: a power of two that the layout fits in, but so much that an
/// aligned chunk can be found in it, wherever it starts.
pub fn alloc_size(size: u64, align: u64) -> (r: u64)
    requires
        size <= 0x4000_0000_0000_0000,
        align <= 0x4000_0000_0000_0000,
    ensures
        ({
            let p = power_from(size as int, 1);
            let a = if align > 0x1000 {
                2 * align
            } else {
                0x2000
            };
            r == (if p > a {
                p
            } else {
                a
            })
        }),
        r >= size,
{
    let mut p: u64 = 1;
    while p < size
        invariant
            size <= 0x4000_0000_0000_0000,
            0 < p <= 0x4000_0000_0000_0000 || (p <= 0x8000_0000_0000_0000 && size <= p),
            0 < p,
            power_from(size as int, 1) == power_from(size as int, p as int),
            p < size ==> p < 0x4000_0000_0000_0000,
        decreases 0x8000_0000_0000_0000 - p,
    {
        p = p * 2;
    }
    let a: u64 = if align > 0x1000 {
        2 * align
    } else {
        0x2000
    };
    if p > a {
        p
    } else {
        a
    }
}

} // verus!
