//! What the boot loader told the platform.
use vstd::prelude::*;

use crate::addr::{page_aligned, PAGE_BYTES};
use crate::errno::Errno;

verus! {

/// Boot information. Each part can be saved once.
#[derive(Clone, Copy, Debug)]
pub struct BootInfo {
    /// Number of possible processors.
    pub possible_cpus: Option<u32>,
    /// Physical start and size of the memory of VTL1.
    pub vtl1_memory: Option<(u64, u64)>,
}

/// A memory region of whole pages that starts behind address zero.
pub open spec fn memory_info_ok(start: u64, size: u64) -> bool {
    start > 0 && page_aligned(start as int) && size > 0 && page_aligned(size as int)
}

impl BootInfo {
    /// Nothing saved yet.
    pub fn new() -> (r: BootInfo)
        ensures
            r == (BootInfo { possible_cpus: None, vtl1_memory: None }),
    {
        BootInfo { possible_cpus: None, vtl1_memory: None }
    }

    /// The physical start and size of the memory of VTL1.
    pub fn get_vtl1_memory_info(&self) -> (r: Result<(u64, u64), Errno>)
        ensures
            r == (match self.vtl1_memory {
                Some(pair) => Ok(pair),
                None => Err(Errno::EINVAL),
            }),
    {
        match self.vtl1_memory {
            Some(pair) => Ok(pair),
            None => Err(Errno::EINVAL),
        }
    }

    /// The number of possible processors.
    pub fn get_num_possible_cpus(&self) -> (r: Result<u32, Errno>)
        ensures
            r == (match self.possible_cpus {
                Some(cpus) => Ok(cpus),
                None => Err(Errno::EINVAL),
            }),
    {
        match self.possible_cpus {
            Some(cpus) => Ok(cpus),
            None => Err(Errno::EINVAL),
        }
    }

    /// Saves the memory of VTL1, unless it is saved already.
    fn save_vtl1_memory_info(&mut self, start: u64, size: u64) -> (r: Result<(), Errno>)
        ensures
            r == (if memory_info_ok(start, size) {
                Ok::<(), Errno>(())
            } else {
                Err(Errno::EINVAL)
            }),
            *final(self) == (if memory_info_ok(start, size) && old(self).vtl1_memory is None {
                BootInfo { vtl1_memory: Some((start, size)), ..*old(self) }
            } else {
                *old(self)
            }),
    {
        if start > 0 && start % PAGE_BYTES == 0 && size > 0 && size % PAGE_BYTES == 0 {
            if self.vtl1_memory.is_none() {
                self.vtl1_memory = Some((start, size));
            }
            return Ok(());
        }
        Err(Errno::EINVAL)
    }

    /// Saves the number of possible processors, unless it is saved already.
    fn save_possible_cpus(&mut self, possible_cpus: u32) -> (r: Result<(), Errno>)
        ensures
            r == (if possible_cpus > 0 {
                Ok::<(), Errno>(())
            } else {
                Err(Errno::EINVAL)
            }),
            *final(self) == (if possible_cpus > 0 && old(self).possible_cpus is None {
                BootInfo { possible_cpus: Some(possible_cpus), ..*old(self) }
            } else {
                *old(self)
            }),
    {
        if possible_cpus > 0 {
            if self.possible_cpus.is_none() {
                self.possible_cpus = Some(possible_cpus);
            }
            return Ok(());
        }
        Err(Errno::EINVAL)
    }
}

/// Saves the boot information, which must be usable. What is saved already stays.
pub fn save_boot_info(info: &mut BootInfo, possible_cpus: u32, mem_pa: u64, mem_size: u64)
    requires
        possible_cpus > 0,
        memory_info_ok(mem_pa, mem_size),
    ensures
        final(info).possible_cpus == (match old(info).possible_cpus {
            Some(kept) => Some(kept),
            None => Some(possible_cpus),
        }),
        final(info).vtl1_memory == (match old(info).vtl1_memory {
            Some(kept) => Some(kept),
            None => Some((mem_pa, mem_size)),
        }),
{
    let cpus = info.save_possible_cpus(possible_cpus);
    assert(cpus is Ok);
    let memory = info.save_vtl1_memory_info(mem_pa, mem_size);
    assert(memory is Ok);
}

} // verus!
