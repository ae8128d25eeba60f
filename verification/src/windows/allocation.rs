//! What allocations do to the memory of a process.
use vstd::arithmetic::div_mod::{lemma_div_is_ordered, lemma_fundamental_div_mod, lemma_mod_bound};
use vstd::arithmetic::mul::{lemma_mul_inequality, lemma_mul_is_commutative};
use vstd::prelude::*;

use crate::lvbs::kernel::{AllocationError, FixedAddressBehavior};
use crate::windows::memory::{
    alloc_start, granule_down, granule_up, piece_len, AllocPhase, AllocatePages, MemAction, MemReply,
    Region, RegionState, TASK_ADDR_MAX, TASK_ADDR_MIN,
};

verus! {

/// The memory of a process: the state of each address.
pub type Memory = spec_fn(int) -> RegionState;

/// A system: how far it says that the region at an address goes, and where it reserves memory for
/// which no address was given.
pub struct System {
    pub region_size: spec_fn(Memory, int) -> u64,
    pub place: spec_fn(Memory, int) -> u64,
}

/// The system tells the truth: regions are not empty, and all addresses of a region are in one state.
pub open spec fn honest(system: System) -> bool {
    &&& forall|mem: Memory, at: int, a: int|
        at <= a < at + #[trigger] (system.region_size)(mem, at) ==> #[trigger] mem(a) == mem(at)
    &&& forall|mem: Memory, at: int| #[trigger] (system.region_size)(mem, at) > 0
}

/// There is room for `len` bytes where the system would reserve them.
pub open spec fn has_room(system: System, mem: Memory, len: int) -> bool {
    let at = (system.place)(mem, len);
    forall|a: int| at <= a < at + len ==> #[trigger] mem(a) == RegionState::Free
}

/// The memory after the addresses of a range got a state.
pub open spec fn set_range(mem: Memory, addr: int, len: int, state: RegionState) -> Memory {
    |a: int|
        if addr <= a < addr + len {
            state
        } else {
            mem(a)
        }
}

/// The memory after free addresses of a range were reserved.
pub open spec fn reserve_range(mem: Memory, addr: int, len: int) -> Memory {
    |a: int|
        if addr <= a < addr + len && mem(a) == RegionState::Free {
            RegionState::Reserved
        } else {
            mem(a)
        }
}

/// Performs an action.
pub open spec fn perform(mem: Memory, system: System, action: MemAction) -> (Memory, MemReply) {
    match action {
        MemAction::Query { addr } => (
            mem,
            MemReply::Region(
                Region { size: (system.region_size)(mem, addr as int), state: mem(addr as int) },
            ),
        ),
        MemAction::Decommit { addr, len } => (
            set_range(mem, addr as int, len as int, RegionState::Reserved),
            MemReply::Done,
        ),
        MemAction::Reserve { addr, len } => if addr == 0 {
            let at = (system.place)(mem, len as int);
            (reserve_range(mem, at as int, len as int), MemReply::At(at))
        } else {
            (reserve_range(mem, addr as int, len as int), MemReply::Done)
        },
        MemAction::Commit { addr, len, .. } => (
            set_range(mem, addr as int, len as int, RegionState::Committed),
            MemReply::Done,
        ),
        MemAction::Prefetch { .. } | MemAction::Finished => (mem, MemReply::Done),
    }
}

/// Runs an allocation for some steps.
pub open spec fn run(m: AllocatePages, mem: Memory, system: System, steps: nat) -> (
    AllocatePages,
    Memory,
)
    decreases steps,
{
    if steps == 0 || m.phase is Done || m.phase is Failed {
        (m, mem)
    } else {
        let (mem2, reply) = perform(mem, system, m.spec_action());
        run(m.spec_advance(reply), mem2, system, (steps - 1) as nat)
    }
}

/// An address is as it was, or was free and is reserved now, close to the range.
pub open spec fn undisturbed(
    before: Memory,
    after: Memory,
    start: int,
    end: int,
    granularity: int,
    a: int,
) -> bool {
    ||| after(a) == before(a)
    ||| before(a) == RegionState::Free && after(a) == RegionState::Reserved && granule_down(
        start,
        granularity,
    ) <= a < granule_up(end, granularity)
}

proof fn lemma_granule_monotonic(x: int, y: int, g: int)
    requires
        g > 0,
        x <= y,
    ensures
        granule_down(x, g) <= granule_down(y, g),
        granule_up(x, g) <= granule_up(y, g),
        granule_down(x, g) <= x < granule_down(x, g) + g,
{
    lemma_fundamental_div_mod(x, g);
    lemma_fundamental_div_mod(y, g);
    lemma_div_is_ordered(x, y, g);
    lemma_mul_inequality(x / g, y / g, g);
    lemma_mul_is_commutative(x / g, g);
    lemma_mul_is_commutative(y / g, g);
    let x2 = x + g - 1;
    let y2 = y + g - 1;
    lemma_fundamental_div_mod(x2, g);
    lemma_fundamental_div_mod(y2, g);
    lemma_div_is_ordered(x2, y2, g);
    lemma_mul_inequality(x2 / g, y2 / g, g);
    lemma_mul_is_commutative(x2 / g, g);
    lemma_mul_is_commutative(y2 / g, g);
    lemma_mod_bound(x, g);
}

/// A range is filled up to an address, and nothing else is disturbed.
pub open spec fn filled(m: AllocatePages, before: Memory, mem: Memory, at: int) -> bool {
    forall|a: int|
        if m.start <= a < at {
            #[trigger] mem(a) == RegionState::Committed
        } else {
            undisturbed(before, mem, m.start as int, m.end as int, m.granularity as int, a)
        }
}

/// Filling a region fills the range up to its end.
#[verifier::rlimit(40)]
#[verifier::spinoff_prover]
proof fn lemma_fill_region(
    m: AllocatePages,
    before: Memory,
    mem: Memory,
    system: System,
    at: u64,
    steps: nat,
) -> (r: (u64, Memory, nat))
    requires
        m.well_formed(),
        m.phase == (AllocPhase::Look { at }),
        honest(system),
        filled(m, before, mem, at as int),
        m.behavior == FixedAddressBehavior::Replace || forall|a: int|
            m.start <= a < m.end ==> #[trigger] before(a) != RegionState::Committed,
        steps >= 4,
        m.granularity <= m.start,
    ensures
        at < r.0 <= m.end,
        steps - 4 <= r.2 < steps,
        filled(m, before, r.1, r.0 as int),
        run(m, mem, system, steps) == run(m.fill_from(r.0), r.1, system, r.2),
{
    reveal_with_fuel(run, 5);
    let size = (system.region_size)(mem, at as int);
    let state = mem(at as int);
    let len = piece_len(at, m.end, size);
    let next = (at + len) as u64;
    let g = m.granularity as int;
    assert(size > 0);
    let reply = MemReply::Region(Region { size, state });
    let m1 = m.spec_advance(reply);
    assert(perform(mem, system, m.spec_action()) == (mem, reply));
    assert(run(m, mem, system, steps) == run(m1, mem, system, (steps - 1) as nat));
    let commit = m.with_phase(AllocPhase::Commit { at, len });
    lemma_granule_monotonic(m.start as int, at as int, g);
    lemma_granule_monotonic(next as int, m.end as int, g);
    lemma_granule_monotonic(at as int, at as int, g);
    let (mem1, left) = match state {
        RegionState::Committed => (
            set_range(mem, at as int, len as int, RegionState::Reserved),
            (steps - 2) as nat,
        ),
        RegionState::Reserved => (mem, (steps - 1) as nat),
        RegionState::Free => {
            let from = granule_down(at as int, g);
            let to = granule_up(next as int, g);
            (reserve_range(mem, from, to - from), (steps - 2) as nat)
        },
    };
    assert(m1.phase == (match state {
        RegionState::Committed => AllocPhase::Decommit { at, len },
        RegionState::Reserved => AllocPhase::Commit { at, len },
        RegionState::Free => AllocPhase::Reserve { at, len },
    }));
    if state == RegionState::Free {
        let from = granule_down(at as int, g);
        let to = granule_up(next as int, g);
        lemma_granule_bounds(at as int, next as int, g);
        assert(m1.spec_action() == (MemAction::Reserve {
            addr: from as u64,
            len: (to - from) as u64,
        }));
        assert(from > 0) by {
            lemma_granule_monotonic(g, at as int, g);
            lemma_granule_of_granularity(g);
        }
        assert(to <= u64::MAX);
        assert(perform(mem, system, m1.spec_action()) == (mem1, MemReply::Done));
    }
    assert(run(m1, mem, system, (steps - 1) as nat) == run(commit, mem1, system, left));
    let mem2 = set_range(mem1, at as int, len as int, RegionState::Committed);
    assert(perform(mem1, system, commit.spec_action()) == (mem2, MemReply::Done));
    let after = commit.spec_advance(MemReply::Done);
    assert(run(commit, mem1, system, left) == run(after, mem2, system, (left - 1) as nat));
    assert(filled(m, before, mem2, next as int)) by {
        assert forall|a: int|
            if m.start <= a < next {
                #[trigger] mem2(a) == RegionState::Committed
            } else {
                undisturbed(before, mem2, m.start as int, m.end as int, g, a)
            } by {
            assert(mem(a) == mem(a));
        }
    }
    if m.populate {
        let fetch = m.with_phase(AllocPhase::Prefetch { at, len });
        assert(after == fetch);
        assert(run(fetch, mem2, system, (left - 1) as nat) == run(
            m.fill_from(next),
            mem2,
            system,
            (left - 2) as nat,
        ));
        (next, mem2, (left - 2) as nat)
    } else {
        assert(after == m.fill_from(next));
        (next, mem2, (left - 1) as nat)
    }
}

proof fn lemma_granule_of_granularity(g: int)
    requires
        g > 0,
    ensures
        granule_down(g, g) == g,
{
    vstd::arithmetic::div_mod::lemma_mod_self_0(g);
}

proof fn lemma_granule_bounds(from: int, to: int, g: int)
    requires
        0 <= from <= to,
        0 < g,
        to + g - 1 <= u64::MAX,
    ensures
        0 <= granule_down(from, g),
        granule_down(from, g) <= granule_up(to, g) <= u64::MAX,
{
    lemma_granule_monotonic(0, from, g);
    lemma_mod_bound(0, g);
    vstd::arithmetic::div_mod::lemma_small_mod(0, g as nat);
    lemma_granule_monotonic(from, from, g);
    lemma_granule_monotonic(to + g - 1, to + g - 1, g);
    lemma_mod_bound(to + g - 1, g);
}

/// Filling the range fills all of it.
proof fn lemma_fill(
    m: AllocatePages,
    before: Memory,
    mem: Memory,
    system: System,
    at: u64,
    steps: nat,
)
    requires
        m.well_formed(),
        m.start != 0,
        m.start <= at <= m.end,
        m == m.fill_from(at),
        honest(system),
        filled(m, before, mem, at as int),
        m.behavior == FixedAddressBehavior::Replace || forall|a: int|
            m.start <= a < m.end ==> #[trigger] before(a) != RegionState::Committed,
        steps >= 4 * (m.end - at),
        m.granularity <= m.start,
    ensures
        ({
            let r = run(m, mem, system, steps);
            r.0.phase == (AllocPhase::Done { at: m.start }) && filled(
                m,
                before,
                r.1,
                m.end as int,
            )
        }),
    decreases m.end - at,
{
    if at < m.end {
        let (next, mem2, left) = lemma_fill_region(m, before, mem, system, at, steps);
        let m2 = m.fill_from(next);
        assert(m2 == m2.fill_from(next));
        lemma_fill(m2, before, mem2, system, next, left);
    }
}

/// The search for pages in use finds them.
proof fn lemma_probe(m: AllocatePages, mem: Memory, system: System, at: u64, steps: nat) -> (r: (
    bool,
    nat,
))
    requires
        m.well_formed(),
        m.phase == (AllocPhase::Probe { at }),
        honest(system),
        forall|a: int| m.start <= a < at ==> #[trigger] mem(a) != RegionState::Committed,
        steps >= m.end - at,
    ensures
        r.0 == (exists|a: int| m.start <= a < m.end && #[trigger] mem(a) == RegionState::Committed),
        steps - (m.end - at) <= r.1 <= steps,
        run(m, mem, system, steps) == run(m.probed(r.0), mem, system, r.1),
    decreases m.end - at,
{
    reveal_with_fuel(run, 2);
    let size = (system.region_size)(mem, at as int);
    let state = mem(at as int);
    let len = piece_len(at, m.end, size);
    let next = (at + len) as u64;
    assert(size > 0);
    let reply = MemReply::Region(Region { size, state });
    assert(perform(mem, system, m.spec_action()) == (mem, reply));
    let m2 = m.spec_advance(reply);
    assert(run(m, mem, system, steps) == run(m2, mem, system, (steps - 1) as nat));
    if state == RegionState::Committed {
        assert(mem(at as int) == RegionState::Committed);
        (true, (steps - 1) as nat)
    } else {
        assert forall|a: int| m.start <= a < next implies #[trigger] mem(a)
            != RegionState::Committed by {
            if at <= a {
                assert(mem(a) == mem(at as int));
            }
        }
        if next < m.end {
            assert(m2 == m.with_phase(AllocPhase::Probe { at: next }));
            let (used, left) = lemma_probe(m2, mem, system, next, (steps - 1) as nat);
            assert(m2.probed(used) == m.probed(used));
            (used, left)
        } else {
            (false, (steps - 1) as nat)
        }
    }
}

/// What an allocation at a given address does. If pages of the range are in use and are not to be
/// replaced, nothing is changed: the allocation fails, or goes elsewhere where the address was only a
/// wish. Otherwise the whole range is in use afterwards, at the address that was asked for; and of the
/// memory around it no more than free addresses in the same granules became reserved.
pub proof fn law_allocation_fills_range(
    start: u64,
    end: u64,
    protection: u32,
    populate: bool,
    behavior: FixedAddressBehavior,
    granularity: u64,
    mem: Memory,
    system: System,
    steps: nat,
)
    requires
        TASK_ADDR_MIN <= start <= end <= TASK_ADDR_MAX,
        0 < granularity <= start,
        granularity <= 0x1_0000_0000,
        honest(system),
        steps >= 5 * (end - start),
    ensures
        ({
            let m = alloc_start(start, end, protection, populate, behavior, granularity);
            let (after, mem2) = run(m, mem, system, steps);
            let in_use = exists|a: int|
                start <= a < end && #[trigger] mem(a) == RegionState::Committed;
            if in_use && behavior == FixedAddressBehavior::NoReplace {
                after.phase == (AllocPhase::Failed { error: AllocationError::AddressInUse })
                    && mem2 == mem
            } else if in_use && behavior == FixedAddressBehavior::Hint {
                exists|left: nat| #[trigger]
                    run(m, mem, system, steps) == run(
                        m.with_phase(AllocPhase::ReserveAnywhere),
                        mem,
                        system,
                        left,
                    )
            } else {
                after.phase == (AllocPhase::Done { at: start }) && filled(m, mem, mem2, end as int)
            }
        }),
{
    reveal_with_fuel(run, 1);
    let m = alloc_start(start, end, protection, populate, behavior, granularity);
    if start < end {
        let (used, left) = lemma_probe(m, mem, system, start, steps);
        let m2 = m.probed(used);
        if used && behavior == FixedAddressBehavior::NoReplace {
        } else if used && behavior == FixedAddressBehavior::Hint {
            assert(m2 == m.with_phase(AllocPhase::ReserveAnywhere));
            assert(run(m, mem, system, steps) == run(
                m.with_phase(AllocPhase::ReserveAnywhere),
                mem,
                system,
                left,
            ));
        } else {
            assert(m2 == m2.fill_from(start));
            assert(filled(m2, mem, mem, start as int));
            lemma_fill(m2, mem, mem, system, start, left);
        }
    } else {
        assert(filled(m, mem, mem, end as int));
    }
}

/// What an allocation anywhere does: as much as was asked for is in use afterwards, where everything
/// was free; all other memory is as it was, but for free addresses that became reserved behind it.
pub proof fn law_allocation_anywhere(m: AllocatePages, mem: Memory, system: System, steps: nat)
    requires
        m.well_formed(),
        m.phase == AllocPhase::ReserveAnywhere,
        has_room(system, mem, granule_up(m.end - m.start, m.granularity as int)),
        steps >= 3,
    ensures
        ({
            let size = m.end - m.start;
            let reserved = granule_up(size, m.granularity as int);
            let at = (system.place)(mem, reserved);
            let (after, mem2) = run(m, mem, system, steps);
            &&& after.phase == (AllocPhase::Done { at })
            &&& forall|a: int|
                at <= a < at + size ==> mem(a) == RegionState::Free && #[trigger] mem2(a)
                    == RegionState::Committed
            &&& forall|a: int|
                !(at <= a < at + reserved) ==> #[trigger] mem2(a) == mem(a)
        }),
{
    reveal_with_fuel(run, 4);
    let size = m.end - m.start;
    let g = m.granularity as int;
    let reserved = granule_up(size, g);
    lemma_granule_bounds(size, size, g);
    lemma_granule_monotonic(size + g - 1, size + g - 1, g);
    let at = (system.place)(mem, reserved);
    let mem1 = reserve_range(mem, at as int, reserved);
    assert(perform(mem, system, m.spec_action()) == (mem1, MemReply::At(at)));
    let m1 = m.with_phase(AllocPhase::CommitAnywhere { at });
    let mem2 = set_range(mem1, at as int, size, RegionState::Committed);
    assert(perform(mem1, system, m1.spec_action()) == (mem2, MemReply::Done));
    assert(run(m, mem, system, steps).1 == mem2);
    assert forall|a: int| at <= a < at + size implies mem(a) == RegionState::Free && #[trigger] mem2(
        a,
    ) == RegionState::Committed by {
        assert(size <= reserved);
    }
}

} // verus!
