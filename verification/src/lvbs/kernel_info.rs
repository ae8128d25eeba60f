//! What VTL1 knows of the VTL0 kernel.
use vstd::prelude::*;

use crate::lvbs::cert::cert_bytes;
use crate::lvbs::module::{KexecMemoryMetadata, KexecMemoryRange, ModuleMemoryMetadata, ModuleMemoryMetadataMap};
use crate::lvbs::patch::{HekiPatch, PatchDataMap, PatchModel};
use crate::lvbs::symbol::SymbolTable;

verus! {

/// The kernel information of VTL0, copied from VTL0 and kept in VTL1.
pub struct Vtl0KernelInfo {
    /// The kernel modules that were validated.
    pub module_memory_metadata: ModuleMemoryMetadataMap,
    /// Whether the end of the boot process was signaled.
    pub boot_done: bool,
    /// The system certificates, each as its DER bytes.
    pub system_certs: Option<Vec<Vec<u8>>>,
    /// Memory of the kexec image.
    pub kexec_metadata: KexecMemoryMetadata,
    /// Memory of the kexec image for crashes.
    pub crash_kexec_metadata: KexecMemoryMetadata,
    /// Patches that were announced in advance.
    pub precomputed_patches: PatchDataMap,
    /// Symbols that the kernel exports.
    pub symbols: SymbolTable,
    /// Symbols that the kernel exports to modules under the GPL.
    pub gpl_symbols: SymbolTable,
}

/// The patch for a request at `pa_0` and `pa_1`: the one announced under the first address, else
/// under the byte before it, else under the second address. A step of a patch sequence may leave
/// the first byte of the patch out.
pub open spec fn find_patch(patches: Map<u64, PatchModel>, pa_0: u64, pa_1: u64) -> Option<
    PatchModel,
> {
    let before = if pa_0 == 0 {
        0u64
    } else {
        (pa_0 - 1) as u64
    };
    if patches.dom().contains(pa_0) {
        Some(patches[pa_0])
    } else if patches.dom().contains(before) {
        Some(patches[before])
    } else if patches.dom().contains(pa_1) {
        Some(patches[pa_1])
    } else {
        None
    }
}

impl Default for Vtl0KernelInfo {
    fn default() -> (r: Self)
        ensures
            r.is_new(),
    {
        Vtl0KernelInfo::new()
    }
}

impl Vtl0KernelInfo {
    /// Whether the end of the boot process was signaled.
    pub open spec fn booted(self) -> bool {
        self.boot_done
    }

    /// The system certificates, if they were loaded.
    pub open spec fn certificates(self) -> Option<Seq<Seq<u8>>> {
        match self.system_certs {
            Some(certs) => Some(cert_bytes(certs@)),
            None => None,
        }
    }

    /// Nothing is known yet.
    pub open spec fn is_new(self) -> bool {
        &&& self.module_memory_metadata.well_formed()
        &&& self.module_memory_metadata@ == Map::<i64, ModuleMemoryMetadata>::empty()
        &&& self.module_memory_metadata.next_token() == 0
        &&& !self.booted()
        &&& self.certificates() is None
        &&& self.kexec_metadata@ == Seq::<KexecMemoryRange>::empty()
        &&& self.crash_kexec_metadata@ == Seq::<KexecMemoryRange>::empty()
        &&& self.precomputed_patches@ == Map::<u64, PatchModel>::empty()
        &&& self.symbols@ == Map::<Seq<char>, u64>::empty()
        &&& self.gpl_symbols@ == Map::<Seq<char>, u64>::empty()
    }

    /// Everything but the certificates and the end of boot is as in `other`.
    pub open spec fn same_tables(self, other: Vtl0KernelInfo) -> bool {
        &&& self.module_memory_metadata == other.module_memory_metadata
        &&& self.kexec_metadata == other.kexec_metadata
        &&& self.crash_kexec_metadata == other.crash_kexec_metadata
        &&& self.precomputed_patches == other.precomputed_patches
        &&& self.symbols == other.symbols
        &&& self.gpl_symbols == other.gpl_symbols
    }

    /// Information in which nothing is known yet.
    pub fn new() -> (r: Vtl0KernelInfo)
        ensures
            r.is_new(),
    {
        Vtl0KernelInfo {
            module_memory_metadata: ModuleMemoryMetadataMap::new(),
            boot_done: false,
            system_certs: None,
            kexec_metadata: KexecMemoryMetadata::new(),
            crash_kexec_metadata: KexecMemoryMetadata::new(),
            precomputed_patches: PatchDataMap::new(),
            symbols: SymbolTable::new(),
            gpl_symbols: SymbolTable::new(),
        }
    }

    /// Records the end of the boot process.
    pub fn set_end_of_boot(&mut self)
        ensures
            final(self).booted(),
            final(self).certificates() == old(self).certificates(),
            final(self).same_tables(*old(self)),
    {
        self.boot_done = true;
    }

    /// Whether the boot process has ended. Calls that only boot may make are refused after that.
    pub fn check_end_of_boot(&self) -> (r: bool)
        ensures
            r == self.booted(),
    {
        self.boot_done
    }

    /// Keeps the system certificates, unless some are kept already.
    pub fn set_system_certificates(&mut self, certs: Vec<Vec<u8>>)
        ensures
            final(self).certificates() == (match old(self).certificates() {
                Some(kept) => Some(kept),
                None => Some(cert_bytes(certs@)),
            }),
            final(self).booted() == old(self).booted(),
            final(self).same_tables(*old(self)),
    {
        if self.system_certs.is_none() {
            self.system_certs = Some(certs);
        }
    }

    /// The system certificates, each as its DER bytes.
    pub fn get_system_certificates(&self) -> (r: Option<&Vec<Vec<u8>>>)
        ensures
            match r {
                Some(certs) => self.certificates() == Some(cert_bytes(certs@)),
                None => self.certificates() is None,
            },
    {
        match &self.system_certs {
            Some(certs) => Some(certs),
            None => None,
        }
    }

    /// The announced patch that a requested patch at these addresses belongs to.
    pub fn find_precomputed_patch(&self, pa_0: u64, pa_1: u64) -> (r: Option<HekiPatch>)
        ensures
            match r {
                Some(p) => find_patch(self.precomputed_patches@, pa_0, pa_1) == Some(p@),
                None => find_patch(self.precomputed_patches@, pa_0, pa_1) is None,
            },
    {
        match self.precomputed_patches.get(pa_0) {
            Some(p) => return Some(p),
            None => {},
        }
        match self.precomputed_patches.get(pa_0.saturating_sub(1)) {
            Some(p) => return Some(p),
            None => {},
        }
        self.precomputed_patches.get(pa_1)
    }
}

} // verus!
