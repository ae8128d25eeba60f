//! Memory ranges of VTL0 kernel modules and kexec images, and the registry of loaded modules.
use vstd::prelude::*;

use crate::addr::{is_canonical, is_phys, page_down, PhysFrameRange};
use crate::lvbs::heki::{Access, HekiRange, ModMemType};
use vstd::std_specs::iter::IteratorSpec;

verus! {

/// A memory range of a kernel module.
#[derive(Clone, Copy, PartialEq, Eq, Structural, Debug)]
pub struct ModuleMemoryRange {
    /// Virtual address of the range.
    pub virt_addr: u64,
    /// Page frames of the range.
    pub phys_frame_range: PhysFrameRange,
    /// Kind of memory.
    pub mod_mem_type: ModMemType,
}

/// The module memory range that `range` describes.
pub open spec fn module_range_of(range: HekiRange) -> ModuleMemoryRange {
    ModuleMemoryRange {
        virt_addr: range.va,
        phys_frame_range: range.frames(),
        mod_mem_type: range.mod_mem_type,
    }
}

impl ModuleMemoryRange {
    /// The range of the frames from the one at `phys_start` up to the one at `phys_end`.
    pub fn new(virt_addr: u64, phys_start: u64, phys_end: u64, mod_mem_type: ModMemType) -> (r:
        ModuleMemoryRange)
        requires
            is_canonical(virt_addr as int),
            is_phys(phys_start as int),
            is_phys(phys_end as int),
        ensures
            r.virt_addr == virt_addr,
            r.phys_frame_range.start == page_down(phys_start as int),
            r.phys_frame_range.end == page_down(phys_end as int),
            r.phys_frame_range.well_formed(),
            r.mod_mem_type == mod_mem_type,
    {
        ModuleMemoryRange {
            virt_addr,
            phys_frame_range: PhysFrameRange::from_addrs(phys_start, phys_end),
            mod_mem_type,
        }
    }
}

impl Default for ModuleMemoryRange {
    fn default() -> (r: Self)
        ensures
            r == (ModuleMemoryRange {
                virt_addr: 0,
                phys_frame_range: PhysFrameRange { start: 0, end: 0 },
                mod_mem_type: ModMemType::Unknown,
            }),
    {
        ModuleMemoryRange::new(0, 0, 0, ModMemType::Unknown)
    }
}

/// The memory ranges of a kernel module, and the addresses in them that may be patched.
pub struct ModuleMemoryMetadata {
    ranges: Vec<ModuleMemoryRange>,
    patch_targets: Vec<u64>,
}

impl Default for ModuleMemoryMetadata {
    fn default() -> (r: Self)
        ensures
            r.memory() == Seq::<ModuleMemoryRange>::empty(),
            r.targets() == Seq::<u64>::empty(),
    {
        ModuleMemoryMetadata { ranges: Vec::new(), patch_targets: Vec::new() }
    }
}

impl ModuleMemoryMetadata {
    /// The memory ranges, in the order in which they were inserted.
    pub closed spec fn memory(self) -> Seq<ModuleMemoryRange> {
        self.ranges@
    }

    /// The patch targets, in the order in which they were inserted.
    pub closed spec fn targets(self) -> Seq<u64> {
        self.patch_targets@
    }

    /// A module without memory.
    pub fn new() -> (r: ModuleMemoryMetadata)
        ensures
            r.memory() == Seq::<ModuleMemoryRange>::empty(),
            r.targets() == Seq::<u64>::empty(),
    {
        ModuleMemoryMetadata { ranges: Vec::new(), patch_targets: Vec::new() }
    }

    /// Adds the memory range that `heki_range` describes.
    pub fn insert_heki_range(&mut self, heki_range: &HekiRange)
        requires
            heki_range.well_formed(),
        ensures
            final(self).memory() == old(self).memory().push(module_range_of(*heki_range)),
            final(self).targets() == old(self).targets(),
    {
        self.insert_memory_range(
            ModuleMemoryRange::new(
                heki_range.va,
                heki_range.pa,
                heki_range.epa,
                heki_range.mod_mem_type,
            ),
        );
    }

    /// Adds a memory range.
    pub fn insert_memory_range(&mut self, mem_range: ModuleMemoryRange)
        ensures
            final(self).memory() == old(self).memory().push(mem_range),
            final(self).targets() == old(self).targets(),
    {
        self.ranges.push(mem_range);
    }

    /// Adds a patch target.
    pub fn insert_patch_target(&mut self, patch_target: u64)
        ensures
            final(self).memory() == old(self).memory(),
            final(self).targets() == old(self).targets().push(patch_target),
    {
        self.patch_targets.push(patch_target);
    }

    /// The patch targets.
    pub fn get_patch_targets(&self) -> (r: &Vec<u64>)
        ensures
            r@ == self.targets(),
    {
        &self.patch_targets
    }

    /// An iterator over the memory ranges.
    pub fn iter(&self) -> (r: core::slice::Iter<'_, ModuleMemoryRange>)
        ensures
            r.remaining() == self.memory().as_ref(),
    {
        let ranges = self.ranges.as_slice();
        proof {
            vstd::std_specs::slice::axiom_spec_slice_iter(ranges);
        }
        ranges.iter()
    }

    /// The memory ranges.
    pub fn as_slice(&self) -> (r: &[ModuleMemoryRange])
        ensures
            r@ == self.memory(),
    {
        self.ranges.as_slice()
    }
}

/// Modules by token, held by a hash map.
#[verifier::external_body]
pub struct ModuleMap {
    inner: hashbrown::HashMap<i64, ModuleMemoryMetadata>,
}

/// What a [`ModuleMap`] holds.
pub uninterp spec fn module_map(map: ModuleMap) -> Map<i64, ModuleMemoryMetadata>;

impl ModuleMap {
    /// `hashbrown::HashMap::new`: a map without entries.
    #[verifier::external_body]
    fn new() -> (r: ModuleMap)
        ensures
            module_map(r).dom() == Set::<i64>::empty(),
    {
        ModuleMap { inner: hashbrown::HashMap::new() }
    }

    /// `hashbrown::HashMap::get`: the value of `key`, if the map has the key.
    #[verifier::external_body]
    fn get(&self, key: i64) -> (r: Option<&ModuleMemoryMetadata>)
        ensures
            r == (if module_map(*self).dom().contains(key) {
                Some(&module_map(*self)[key])
            } else {
                None
            }),
    {
        self.inner.get(&key)
    }

    /// `hashbrown::HashMap::insert`: gives `key` the value, whether or not it had one. What the
    /// method returns, the value that the key had, is not passed on.
    #[verifier::external_body]
    fn insert(&mut self, key: i64, value: ModuleMemoryMetadata)
        ensures
            module_map(*final(self)) == module_map(*old(self)).insert(key, value),
    {
        let _ = self.inner.insert(key, value);
    }

    /// `hashbrown::HashMap::remove`: takes the key out and returns the value that it had.
    #[verifier::external_body]
    fn remove(&mut self, key: i64) -> (r: Option<ModuleMemoryMetadata>)
        ensures
            module_map(*final(self)) == module_map(*old(self)).remove(key),
            r == (if module_map(*old(self)).dom().contains(key) {
                Some(module_map(*old(self))[key])
            } else {
                None
            }),
    {
        self.inner.remove(&key)
    }
}

/// The registry of loaded kernel modules. A module is known by the token that it got when it was
/// registered.
pub struct ModuleMemoryMetadataMap {
    inner: ModuleMap,
    key_gen: i64,
}

impl View for ModuleMemoryMetadataMap {
    type V = Map<i64, ModuleMemoryMetadata>;

    /// The registered modules by token.
    closed spec fn view(&self) -> Map<i64, ModuleMemoryMetadata> {
        module_map(self.inner)
    }
}

impl Default for ModuleMemoryMetadataMap {
    fn default() -> (r: Self)
        ensures
            r.well_formed(),
            r@ == Map::<i64, ModuleMemoryMetadata>::empty(),
            r.next_token() == 0,
    {
        ModuleMemoryMetadataMap { inner: ModuleMap::new(), key_gen: 0 }
    }
}

impl ModuleMemoryMetadataMap {
    /// The token that the next module gets.
    pub closed spec fn next_token(self) -> i64 {
        self.key_gen
    }

    /// All tokens in use were given out before.
    pub open spec fn well_formed(self) -> bool {
        forall|key: i64| #[trigger] self@.dom().contains(key) ==> 0 <= key < self.next_token()
    }

    /// A registry without modules.
    pub fn new() -> (r: ModuleMemoryMetadataMap)
        ensures
            r.well_formed(),
            r@ == Map::<i64, ModuleMemoryMetadata>::empty(),
            r.next_token() == 0,
    {
        ModuleMemoryMetadataMap { inner: ModuleMap::new(), key_gen: 0 }
    }

    /// Whether a module has the token.
    pub fn contains_key(&self, key: i64) -> (r: bool)
        ensures
            r == self@.dom().contains(key),
    {
        self.inner.get(key).is_some()
    }

    /// Registers a module and returns its token, which no registered module has. Tokens count up
    /// from zero and must not run out.
    pub fn register_module_memory_metadata(&mut self, module_memory: ModuleMemoryMetadata) -> (r:
        i64)
        requires
            old(self).well_formed(),
            0 <= old(self).next_token() < i64::MAX,
        ensures
            final(self).well_formed(),
            r == old(self).next_token(),
            !old(self)@.dom().contains(r),
            final(self).next_token() == r + 1,
            final(self)@ == old(self)@.insert(r, module_memory),
    {
        let key: i64 = self.key_gen;
        let ghost before = self@;
        self.key_gen = key + 1;
        self.inner.insert(key, module_memory);
        assert forall|k: i64| #[trigger] self@.dom().contains(k) implies 0 <= k
            < self.next_token() by {
            assert(k == key || before.dom().contains(k));
        }
        key
    }

    /// Forgets the module with the token; answers whether there was one.
    pub fn remove(&mut self, key: i64) -> (r: bool)
        requires
            old(self).well_formed(),
        ensures
            final(self).well_formed(),
            final(self)@ == old(self)@.remove(key),
            final(self).next_token() == old(self).next_token(),
            r == old(self)@.dom().contains(key),
    {
        let ghost before = self@;
        let r = self.inner.remove(key).is_some();
        assert forall|k: i64| #[trigger] self@.dom().contains(k) implies 0 <= k
            < self.next_token() by {
            assert(before.dom().contains(k));
        }
        r
    }

    /// The patch targets of the module with the token.
    pub fn get_patch_targets(&self, key: i64) -> (r: Option<Vec<u64>>)
        ensures
            match r {
                Some(targets) => self@.dom().contains(key) && targets@ == self@[key].targets(),
                None => !self@.dom().contains(key),
            },
    {
        match self.inner.get(key) {
            Some(metadata) => {
                let targets = metadata.get_patch_targets().clone();
                assert(targets@ =~= metadata.targets());
                Some(targets)
            },
            None => None,
        }
    }

    /// The module with the token.
    pub fn iter_entry(&self, key: i64) -> (r: Option<&ModuleMemoryMetadata>)
        ensures
            r == (if self@.dom().contains(key) {
                Some(&self@[key])
            } else {
                None
            }),
    {
        self.inner.get(key)
    }
}

/// A token stands for the same module until the module is removed: registering another module
/// changes nothing of the others, and the new token was not in use.
pub proof fn law_tokens_are_unique(
    before: Map<i64, ModuleMemoryMetadata>,
    next: i64,
    module: ModuleMemoryMetadata,
    other: i64,
)
    requires
        forall|key: i64| #[trigger] before.dom().contains(key) ==> 0 <= key < next,
        before.dom().contains(other),
    ensures
        other != next,
        before.insert(next, module).dom().contains(other),
        before.insert(next, module)[other] == before[other],
        before.insert(next, module)[next] == module,
{
}

/// A memory range of a kexec image.
#[derive(Clone, Copy, PartialEq, Eq, Structural, Debug)]
pub struct KexecMemoryRange {
    /// Virtual address of the range.
    pub virt_addr: u64,
    /// Page frames of the range.
    pub phys_frame_range: PhysFrameRange,
}

/// The kexec memory range that `range` describes.
pub open spec fn kexec_range_of(range: HekiRange) -> KexecMemoryRange {
    KexecMemoryRange { virt_addr: range.va, phys_frame_range: range.frames() }
}

impl KexecMemoryRange {
    /// The range of the frames from the one at `phys_start` up to the one at `phys_end`.
    pub fn new(virt_addr: u64, phys_start: u64, phys_end: u64) -> (r: KexecMemoryRange)
        requires
            is_canonical(virt_addr as int),
            is_phys(phys_start as int),
            is_phys(phys_end as int),
        ensures
            r.virt_addr == virt_addr,
            r.phys_frame_range.start == page_down(phys_start as int),
            r.phys_frame_range.end == page_down(phys_end as int),
            r.phys_frame_range.well_formed(),
    {
        KexecMemoryRange {
            virt_addr,
            phys_frame_range: PhysFrameRange::from_addrs(phys_start, phys_end),
        }
    }
}

impl Default for KexecMemoryRange {
    fn default() -> (r: Self)
        ensures
            r == (KexecMemoryRange {
                virt_addr: 0,
                phys_frame_range: PhysFrameRange { start: 0, end: 0 },
            }),
    {
        KexecMemoryRange::new(0, 0, 0)
    }
}

/// The memory ranges of a kexec image.
pub struct KexecMemoryMetadata {
    ranges: Vec<KexecMemoryRange>,
}

impl View for KexecMemoryMetadata {
    type V = Seq<KexecMemoryRange>;

    /// The memory ranges, in the order in which they were inserted.
    closed spec fn view(&self) -> Seq<KexecMemoryRange> {
        self.ranges@
    }
}

impl Default for KexecMemoryMetadata {
    fn default() -> (r: Self)
        ensures
            r@ == Seq::<KexecMemoryRange>::empty(),
    {
        KexecMemoryMetadata { ranges: Vec::new() }
    }
}

impl KexecMemoryMetadata {
    /// An image without memory.
    pub fn new() -> (r: KexecMemoryMetadata)
        ensures
            r@ == Seq::<KexecMemoryRange>::empty(),
    {
        KexecMemoryMetadata { ranges: Vec::new() }
    }

    /// Adds the memory range that `heki_range` describes.
    pub fn insert_heki_range(&mut self, heki_range: &HekiRange)
        requires
            heki_range.well_formed(),
        ensures
            final(self)@ == old(self)@.push(kexec_range_of(*heki_range)),
    {
        self.insert_memory_range(
            KexecMemoryRange::new(heki_range.va, heki_range.pa, heki_range.epa),
        );
    }

    /// Adds a memory range.
    pub fn insert_memory_range(&mut self, mem_range: KexecMemoryRange)
        ensures
            final(self)@ == old(self)@.push(mem_range),
    {
        self.ranges.push(mem_range);
    }

    /// Forgets all memory ranges.
    pub fn clear(&mut self)
        ensures
            final(self)@ == Seq::<KexecMemoryRange>::empty(),
    {
        self.ranges.clear();
    }

    /// An iterator over the memory ranges.
    pub fn iter(&self) -> (r: core::slice::Iter<'_, KexecMemoryRange>)
        ensures
            r.remaining() == self@.as_ref(),
    {
        let ranges = self.ranges.as_slice();
        proof {
            vstd::std_specs::slice::axiom_spec_slice_iter(ranges);
        }
        ranges.iter()
    }

    /// The memory ranges.
    pub fn as_slice(&self) -> (r: &[KexecMemoryRange])
        ensures
            r@ == self@,
    {
        self.ranges.as_slice()
    }
}

/// The frame ranges of kexec memory, each with the same access.
pub open spec fn kexec_accesses(ranges: Seq<KexecMemoryRange>, access: Access) -> Seq<
    (PhysFrameRange, Access),
> {
    ranges.map_values(|r: KexecMemoryRange| (r.phys_frame_range, access))
}

} // verus!
