//! The layout of the virtual address space of VTL1, and how physical memory appears in it.
use vstd::prelude::*;

use crate::addr::{is_phys, sign_extend_48, PhysAddr, VirtAddr, PHYS_LIMIT};

verus! {

/// Offset from a physical address to its virtual address in the direct map.
pub const GVA_OFFSET: u64 = 0xffff_8000_0000_0000;

/// Start of the region for mappings of pages that are not contiguous.
pub const VMAP_START: u64 = 0xffff_c100_0000_0000;

/// End of that region.
pub const VMAP_END: u64 = 0xffff_e0ff_ffff_f000;

/// Offset from a physical address of VTL1 to its virtual address in the kernel region.
pub const KERNEL_OFFSET: u64 = 0xffff_e200_0000_0000;

/// End of the addresses of user memory.
pub const USER_ADDR_MAX: u64 = 0x7fff_ffff_f000;

/// Start of the addresses of user memory.
pub const USER_ADDR_MIN: u64 = 0x1_0000;

/// Sentinel for the page table that holds only kernel mappings; no page table has this address.
pub const BASE_PAGE_TABLE_ID: u64 = 0;

/// Memory of the platform.
pub trait MemoryProvider {
    /// Offset from a physical address to its virtual address in the direct map.
    const GVA_OFFSET: u64;

    /// Bits of a physical address that mark a page as private.
    const PRIVATE_PTE_MASK: u64;

    /// The physical address of a virtual address in the direct map.
    fn va_to_pa_direct(va: VirtAddr) -> (r: PhysAddr)
        requires
            va@ >= Self::GVA_OFFSET,
        ensures
            r@ == (va@ - Self::GVA_OFFSET) % PHYS_LIMIT as int,
    {
        PhysAddr::new_truncate(va.as_u64() - Self::GVA_OFFSET)
    }

    /// The virtual address of a physical address in the direct map, which must be large enough.
    fn pa_to_va_direct(pa: PhysAddr) -> (r: VirtAddr)
        requires
            (pa@ as u64 & !Self::PRIVATE_PTE_MASK) + Self::GVA_OFFSET <= u64::MAX,
            sign_extend_48((pa@ as u64 & !Self::PRIVATE_PTE_MASK) + Self::GVA_OFFSET) < VMAP_START,
        ensures
            r@ == sign_extend_48((pa@ as u64 & !Self::PRIVATE_PTE_MASK) + Self::GVA_OFFSET),
    {
        let pa: u64 = pa.as_u64() & !Self::PRIVATE_PTE_MASK;
        VirtAddr::new_truncate(pa + Self::GVA_OFFSET)
    }

    /// The physical address of a virtual address in the kernel region.
    fn va_to_pa(va: VirtAddr) -> (r: PhysAddr)
        requires
            va@ >= KERNEL_OFFSET,
        ensures
            r@ == (va@ - KERNEL_OFFSET) % PHYS_LIMIT as int,
    {
        PhysAddr::new_truncate(va.as_u64() - KERNEL_OFFSET)
    }

    /// The virtual address of a physical address in the kernel region, which must be large enough.
    fn pa_to_va(pa: PhysAddr) -> (r: VirtAddr)
        requires
            pa@ + KERNEL_OFFSET <= u64::MAX,
        ensures
            r@ == sign_extend_48(pa@ + KERNEL_OFFSET),
    {
        VirtAddr::new_truncate(pa.as_u64() + KERNEL_OFFSET)
    }

    /// The physical address, marked as private.
    fn make_pa_private(pa: PhysAddr) -> (r: PhysAddr)
        ensures
            r@ == (pa@ as u64 | Self::PRIVATE_PTE_MASK) as int % PHYS_LIMIT as int,
    {
        PhysAddr::new_truncate(pa.as_u64() | Self::PRIVATE_PTE_MASK)
    }
}

/// The memory of the platform in VTL1, where no page is marked as private.
pub struct HostLvbsInterface;

impl MemoryProvider for HostLvbsInterface {
    const GVA_OFFSET: u64 = GVA_OFFSET;

    const PRIVATE_PTE_MASK: u64 = 0;
}

/// The virtual address of a physical address in the kernel region.
pub open spec fn kernel_va(pa: int) -> int {
    pa + KERNEL_OFFSET
}

/// The virtual address of a physical address in the direct map.
pub open spec fn direct_va(pa: int) -> int {
    pa + GVA_OFFSET
}

/// A physical address that the kernel region has room for comes back from its virtual address there.
pub proof fn law_kernel_region_round_trip(pa: int)
    requires
        is_phys(pa),
        pa + KERNEL_OFFSET <= u64::MAX,
    ensures
        sign_extend_48(pa + KERNEL_OFFSET) == kernel_va(pa),
        (sign_extend_48(pa + KERNEL_OFFSET) - KERNEL_OFFSET) % PHYS_LIMIT as int == pa,
{
}

/// A physical address that the direct map has room for comes back from its virtual address there.
pub proof fn law_direct_map_round_trip(pa: int)
    requires
        is_phys(pa),
        direct_va(pa) < VMAP_START,
    ensures
        sign_extend_48(pa + GVA_OFFSET) == direct_va(pa),
        (sign_extend_48(pa + GVA_OFFSET) - GVA_OFFSET) % PHYS_LIMIT as int == pa,
{
}

/// User memory, the direct map, the region for mappings that are not contiguous and the kernel
/// region share no address.
pub proof fn law_regions_are_disjoint(user: int, direct: int, vmap: int, kernel: int)
    requires
        USER_ADDR_MIN <= user < USER_ADDR_MAX,
        GVA_OFFSET <= direct < VMAP_START,
        VMAP_START <= vmap < VMAP_END,
        KERNEL_OFFSET <= kernel,
    ensures
        user < direct < vmap < kernel,
{
}

/// Whether an address is one of user memory.
pub fn is_valid_user_addr(addr: u64) -> (r: bool)
    ensures
        r == (USER_ADDR_MIN <= addr < USER_ADDR_MAX),
{
    addr >= USER_ADDR_MIN && addr < USER_ADDR_MAX
}

/// Whether a context can be switched to: its stack and its code lie in user memory.
pub fn is_valid_user_ctx(rsp: u64, rip: u64) -> (r: bool)
    ensures
        r == (USER_ADDR_MIN <= rsp < USER_ADDR_MAX && USER_ADDR_MIN <= rip < USER_ADDR_MAX),
{
    is_valid_user_addr(rsp) && is_valid_user_addr(rip)
}

/// Decides which memory the kernel may access on behalf of a user program.
pub struct LvbsValidateAccess;

impl LvbsValidateAccess {
    /// Whether the `size` bytes at `addr` lie in user memory.
    pub fn validate(addr: u64, size: u64) -> (r: Option<u64>)
        ensures
            r == (if USER_ADDR_MIN <= addr && addr + size <= USER_ADDR_MAX {
                Some(addr)
            } else {
                None
            }),
    {
        match addr.checked_add(size) {
            Some(end) => if addr >= USER_ADDR_MIN && end <= USER_ADDR_MAX {
                Some(addr)
            } else {
                None
            },
            None => None,
        }
    }

    /// Whether the `len` elements of `size` bytes each at `addr` lie in user memory.
    pub fn validate_slice(addr: u64, len: u64, size: u64) -> (r: Option<u64>)
        ensures
            r == (if USER_ADDR_MIN <= addr && addr + len * size <= USER_ADDR_MAX {
                Some(addr)
            } else {
                None
            }),
    {
        match len.checked_mul(size) {
            Some(byte_len) => LvbsValidateAccess::validate(addr, byte_len),
            None => None,
        }
    }
}

} // verus!
