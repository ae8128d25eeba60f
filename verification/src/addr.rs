//! Physical and virtual addresses of x86-64, and ranges of 4 KiB page frames.
use vstd::prelude::*;

verus! {

/// Size of a page in bytes.
pub const PAGE_SIZE: usize = 4096;

/// Size of a page in bytes, as an address difference.
pub const PAGE_BYTES: u64 = 4096;

/// Number of bits of an address that select a byte of a page.
pub const PAGE_SHIFT: u64 = 12;

/// First value above the physical address space (52 bits).
pub const PHYS_LIMIT: u64 = 0x10_0000_0000_0000;

/// First value above the lower canonical half of the virtual address space.
pub const CANONICAL_LOW_END: u64 = 0x8000_0000_0000;

/// First value of the upper canonical half of the virtual address space.
pub const CANONICAL_HIGH_START: u64 = 0xffff_8000_0000_0000;

/// A physical address fits in 52 bits.
pub open spec fn is_phys(addr: int) -> bool {
    0 <= addr < PHYS_LIMIT
}

/// A virtual address is canonical if its upper bits repeat bit 47.
pub open spec fn is_canonical(addr: int) -> bool {
    0 <= addr < CANONICAL_LOW_END || CANONICAL_HIGH_START <= addr <= u64::MAX
}

/// An address that starts a page.
pub open spec fn page_aligned(addr: int) -> bool {
    addr % 4096 == 0
}

/// The start of the page that holds `addr`.
pub open spec fn page_down(addr: int) -> int {
    addr - addr % 4096
}

/// The first page boundary at or above `addr`.
pub open spec fn page_up(addr: int) -> int {
    if addr % 4096 == 0 {
        addr
    } else {
        addr - addr % 4096 + 4096
    }
}

/// The canonical address with the same low 48 bits as `addr`.
pub open spec fn sign_extend_48(addr: int) -> int {
    let low = addr % 0x1_0000_0000_0000;
    if low < CANONICAL_LOW_END {
        low
    } else {
        low + 0xffff_0000_0000_0000
    }
}

/// A physical address.
#[derive(Clone, Copy, PartialEq, Eq, Structural, Debug, PartialOrd, Ord, Hash)]
pub struct PhysAddr {
    addr: u64,
}

impl View for PhysAddr {
    type V = int;

    closed spec fn view(&self) -> int {
        self.addr as int
    }
}

impl PhysAddr {
    #[verifier::type_invariant]
    spec fn in_range(self) -> bool {
        is_phys(self.addr as int)
    }

    /// The address of `addr`, if it fits in 52 bits.
    pub fn try_new(addr: u64) -> (r: Option<PhysAddr>)
        ensures
            match r {
                Some(p) => is_phys(addr as int) && p@ == addr,
                None => !is_phys(addr as int),
            },
    {
        if addr < PHYS_LIMIT {
            Some(PhysAddr { addr })
        } else {
            None
        }
    }

    /// The address of `addr`, which must fit in 52 bits.
    pub fn new(addr: u64) -> (r: PhysAddr)
        requires
            is_phys(addr as int),
        ensures
            r@ == addr,
    {
        PhysAddr { addr }
    }

    /// The address that keeps the low 52 bits of `addr`.
    pub fn new_truncate(addr: u64) -> (r: PhysAddr)
        ensures
            r@ == addr as int % PHYS_LIMIT as int,
    {
        PhysAddr { addr: addr % PHYS_LIMIT }
    }

    /// The address as a number.
    pub fn as_u64(&self) -> (r: u64)
        ensures
            r == self@,
            is_phys(self@),
    {
        proof {
            use_type_invariant(self);
        }
        self.addr
    }

    /// Whether this is address zero.
    pub fn is_null(&self) -> (r: bool)
        ensures
            r == (self@ == 0),
    {
        self.addr == 0
    }

    /// The start of the page that holds this address.
    pub fn page_align_down(&self) -> (r: PhysAddr)
        ensures
            r@ == page_down(self@),
    {
        proof {
            use_type_invariant(self);
        }
        PhysAddr { addr: self.addr - self.addr % PAGE_BYTES }
    }
}

/// The start of the page that holds `addr`.
pub fn page_align_down(addr: u64) -> (r: u64)
    ensures
        r == page_down(addr as int),
{
    addr - addr % PAGE_BYTES
}

/// The first page boundary at or above `addr`.
pub fn page_align_up(addr: u64) -> (r: u64)
    requires
        page_up(addr as int) <= u64::MAX,
    ensures
        r == page_up(addr as int),
{
    if addr % PAGE_BYTES == 0 {
        addr
    } else {
        (addr - addr % PAGE_BYTES) + PAGE_BYTES
    }
}

/// Whether `addr` is canonical.
pub fn check_canonical(addr: u64) -> (r: bool)
    ensures
        r == is_canonical(addr as int),
{
    addr < CANONICAL_LOW_END || addr >= CANONICAL_HIGH_START
}

/// A canonical virtual address.
#[derive(Clone, Copy, PartialEq, Eq, Structural, Debug, PartialOrd, Ord, Hash)]
pub struct VirtAddr {
    addr: u64,
}

impl View for VirtAddr {
    type V = int;

    closed spec fn view(&self) -> int {
        self.addr as int
    }
}

impl VirtAddr {
    #[verifier::type_invariant]
    spec fn in_range(self) -> bool {
        is_canonical(self.addr as int)
    }

    /// The address of `addr`, if it is canonical.
    pub fn try_new(addr: u64) -> (r: Option<VirtAddr>)
        ensures
            match r {
                Some(v) => is_canonical(addr as int) && v@ == addr,
                None => !is_canonical(addr as int),
            },
    {
        if check_canonical(addr) {
            Some(VirtAddr { addr })
        } else {
            None
        }
    }

    /// The address of `addr`, which must be canonical.
    pub fn new(addr: u64) -> (r: VirtAddr)
        requires
            is_canonical(addr as int),
        ensures
            r@ == addr,
    {
        VirtAddr { addr }
    }

    /// The canonical address with the same low 48 bits as `addr`.
    pub fn new_truncate(addr: u64) -> (r: VirtAddr)
        ensures
            r@ == sign_extend_48(addr as int),
    {
        let low: u64 = addr % 0x1_0000_0000_0000;
        if low < CANONICAL_LOW_END {
            VirtAddr { addr: low }
        } else {
            VirtAddr { addr: low + 0xffff_0000_0000_0000 }
        }
    }

    /// The address as a number.
    pub fn as_u64(&self) -> (r: u64)
        ensures
            r == self@,
            is_canonical(self@),
    {
        proof {
            use_type_invariant(self);
        }
        self.addr
    }

    /// The address `offset` bytes further; the sum must be canonical.
    pub fn offset_by(&self, offset: u64) -> (r: VirtAddr)
        requires
            is_canonical(self@ + offset),
        ensures
            r@ == self@ + offset,
    {
        VirtAddr { addr: self.addr + offset }
    }
}

/// A range of page frames, given by the start addresses of its first frame and of the frame
/// behind its last.
#[derive(Clone, Copy, PartialEq, Eq, Structural, Debug)]
pub struct PhysFrameRange {
    /// Start of the first frame.
    pub start: u64,
    /// Start of the frame behind the last.
    pub end: u64,
}

impl PhysFrameRange {
    /// Both ends are frame starts in the physical address space.
    pub open spec fn well_formed(self) -> bool {
        &&& is_phys(self.start as int)
        &&& is_phys(self.end as int)
        &&& page_aligned(self.start as int)
        &&& page_aligned(self.end as int)
    }

    /// Number of frames in the range.
    pub open spec fn spec_count(self) -> int {
        if self.start < self.end {
            (self.end - self.start) / 4096
        } else {
            0
        }
    }

    /// Whether the byte at `pa` lies in a frame of the range.
    pub open spec fn spec_contains(self, pa: int) -> bool {
        self.start <= pa < self.end
    }

    /// The frames from the one that holds `start` up to the one that holds `end`, without that.
    pub fn from_addrs(start: u64, end: u64) -> (r: PhysFrameRange)
        requires
            is_phys(start as int),
            is_phys(end as int),
        ensures
            r.well_formed(),
            r.start == page_down(start as int),
            r.end == page_down(end as int),
    {
        PhysFrameRange { start: page_align_down(start), end: page_align_down(end) }
    }

    /// Number of frames in the range.
    pub fn count(&self) -> (r: u64)
        ensures
            r == self.spec_count(),
    {
        if self.start < self.end {
            (self.end - self.start) / PAGE_BYTES
        } else {
            0
        }
    }

    /// Whether the byte at `pa` lies in a frame of the range.
    pub fn contains(&self, pa: u64) -> (r: bool)
        ensures
            r == self.spec_contains(pa as int),
    {
        self.start <= pa && pa < self.end
    }
}

} // verus!
