//! Patches of kernel and module text: the patches that were announced in advance, and the rules
//! by which a requested patch is copied from and applied to VTL0 memory.
use vstd::arithmetic::div_mod::{lemma_fundamental_div_mod, lemma_fundamental_div_mod_converse};
use vstd::prelude::*;
use vstd::slice::slice_subrange;

use crate::addr::{is_phys, page_align_down, page_align_up, page_aligned, page_down, page_up, PAGE_BYTES, PHYS_LIMIT};
use crate::bytes::{copy_bytes, reads};
use crate::lvbs::error::VsmError;
use crate::lvbs::heki::ModMemType;
use crate::lvbs::module::{ModuleMemoryMetadata, ModuleMemoryRange};

verus! {

/// A patch of VTL0 text: new code, and the physical addresses of its target. The second address is
/// that of the target's second page, or zero if the target lies in one page.
pub struct HekiPatch {
    pub pa_0: u64,
    pub pa_1: u64,
    /// The bytes of the patch.
    pub code: Vec<u8>,
}

/// A patch as a mathematical value.
#[verifier::ext_equal]
pub struct PatchModel {
    pub pa_0: u64,
    pub pa_1: u64,
    pub code: Seq<u8>,
}

impl View for HekiPatch {
    type V = PatchModel;

    open spec fn view(&self) -> PatchModel {
        PatchModel { pa_0: self.pa_0, pa_1: self.pa_1, code: self.code@ }
    }
}

impl PatchModel {
    /// The target addresses exist.
    pub open spec fn well_formed(self) -> bool {
        &&& is_phys(self.pa_0 as int)
        &&& is_phys(self.pa_1 as int)
        &&& self.pa_1 != 0 ==> is_phys(self.pa_0 + 1)
    }

    /// The patch can be written: its addresses exist, and a patch with a second page that is not
    /// adjacent reaches that page.
    pub open spec fn writable(self) -> bool {
        &&& is_phys(self.pa_0 as int)
        &&& is_phys(self.pa_1 as int)
        &&& self.pa_1 == 0 || {
            &&& is_phys(page_up(self.pa_0 as int))
            &&& page_up(self.pa_0 as int) == page_down(self.pa_1 as int) || room_in_page(
                self.pa_0 as int,
            ) <= self.code.len()
        }
    }

    /// Only the first byte of the target lies in its first page.
    pub open spec fn splits_after_first_byte(self) -> bool {
        self.pa_1 != 0 && page_aligned(self.pa_0 + 1)
    }

    /// The addresses under which the patch is found: its target, and also its second page if only
    /// the first byte lies in the first page. A later step of a patch sequence leaves that first
    /// byte out and then knows only the second page.
    pub open spec fn keys(self) -> Seq<u64> {
        if self.splits_after_first_byte() {
            seq![self.pa_0, self.pa_1]
        } else {
            seq![self.pa_0]
        }
    }
}

impl HekiPatch {
    /// A copy of the patch.
    pub fn duplicate(&self) -> (r: HekiPatch)
        ensures
            r@ == self@,
    {
        HekiPatch { pa_0: self.pa_0, pa_1: self.pa_1, code: copy_bytes(self.code.as_slice()) }
    }

    /// Whether only the first byte of the target lies in its first page.
    fn splits(&self) -> (r: bool)
        requires
            self@.well_formed(),
        ensures
            r == self@.splits_after_first_byte(),
    {
        self.pa_1 != 0 && (self.pa_0 + 1) % PAGE_BYTES == 0
    }
}

/// Both target addresses of the patch lie in this executable range.
pub open spec fn range_admits(range: ModuleMemoryRange, patch: PatchModel) -> bool {
    &&& range.mod_mem_type is Text || range.mod_mem_type is InitText
    &&& range.phys_frame_range.spec_contains(patch.pa_0 as int)
    &&& patch.pa_1 == 0 || range.phys_frame_range.spec_contains(patch.pa_1 as int)
}

/// The patch targets one of the executable ranges of a module.
pub open spec fn module_admits(memory: Seq<ModuleMemoryRange>, patch: PatchModel) -> bool {
    exists|i: int| 0 <= i < memory.len() && range_admits(#[trigger] memory[i], patch)
}

/// The patches after one more was stored under its keys.
pub open spec fn stored(map: Map<u64, PatchModel>, patch: PatchModel) -> Map<u64, PatchModel> {
    if patch.splits_after_first_byte() {
        map.insert(patch.pa_0, patch).insert(patch.pa_1, patch)
    } else {
        map.insert(patch.pa_0, patch)
    }
}

/// The patches of `patches` that may be stored: all of them for the kernel, those that the module
/// admits for a module.
pub open spec fn admitted(patches: Seq<PatchModel>, module: Option<Seq<ModuleMemoryRange>>) -> Seq<
    PatchModel,
> {
    match module {
        Some(memory) => patches.filter(|p: PatchModel| module_admits(memory, p)),
        None => patches,
    }
}

/// The patches after all of `patches` were stored in order.
pub open spec fn stored_all(map: Map<u64, PatchModel>, patches: Seq<PatchModel>) -> Map<
    u64,
    PatchModel,
>
    decreases patches.len(),
{
    if patches.len() == 0 {
        map
    } else {
        stored(stored_all(map, patches.drop_last()), patches.last())
    }
}

/// The keys of all of `patches`, in order.
pub open spec fn keys_of_all(patches: Seq<PatchModel>) -> Seq<u64>
    decreases patches.len(),
{
    if patches.len() == 0 {
        Seq::empty()
    } else {
        keys_of_all(patches.drop_last()) + patches.last().keys()
    }
}

/// The patches before the first that could not be decoded.
pub open spec fn decoded_prefix(patches: Seq<Option<HekiPatch>>) -> Seq<PatchModel>
    decreases patches.len(),
{
    if patches.len() == 0 {
        Seq::empty()
    } else {
        match patches[0] {
            Some(p) => seq![p@] + decoded_prefix(patches.drop_first()),
            None => Seq::empty(),
        }
    }
}

/// Errors of operations on announced patches.
#[derive(Clone, Copy, PartialEq, Eq, Structural, Debug)]
pub enum PatchDataMapError {
    InvalidHekiPatchInfo,
    InvalidHekiPatch,
}

/// Patches by address, held by a hash map.
#[verifier::external_body]
pub struct PatchMap {
    inner: hashbrown::HashMap<u64, HekiPatch>,
}

/// What a [`PatchMap`] holds.
pub uninterp spec fn patch_map(map: PatchMap) -> Map<u64, PatchModel>;

impl PatchMap {
    /// `hashbrown::HashMap::new`: a map without entries.
    #[verifier::external_body]
    fn new() -> (r: PatchMap)
        ensures
            patch_map(r).dom() == Set::<u64>::empty(),
    {
        PatchMap { inner: hashbrown::HashMap::new() }
    }

    /// `hashbrown::HashMap::get`: the value of `key`, if the map has the key.
    #[verifier::external_body]
    fn get(&self, key: u64) -> (r: Option<&HekiPatch>)
        ensures
            r is Some == patch_map(*self).dom().contains(key),
            r matches Some(p) ==> p@ == patch_map(*self)[key],
    {
        self.inner.get(&key)
    }

    /// `hashbrown::HashMap::insert`: gives `key` the value, whether or not it had one. What the
    /// method returns, the value that the key had, is not passed on.
    #[verifier::external_body]
    fn insert(&mut self, key: u64, value: HekiPatch)
        ensures
            patch_map(*final(self)) == patch_map(*old(self)).insert(key, value@),
    {
        let _ = self.inner.insert(key, value);
    }

    /// `hashbrown::HashMap::remove`: takes the key out. What the method returns, the value that
    /// the key had, is not passed on.
    #[verifier::external_body]
    fn remove(&mut self, key: u64)
        ensures
            patch_map(*final(self)) == patch_map(*old(self)).remove(key),
    {
        let _ = self.inner.remove(&key);
    }
}

/// The patches that were announced in advance, by target address.
pub struct PatchDataMap {
    inner: PatchMap,
}

impl View for PatchDataMap {
    type V = Map<u64, PatchModel>;

    /// The announced patches by address.
    closed spec fn view(&self) -> Map<u64, PatchModel> {
        patch_map(self.inner)
    }
}

impl Default for PatchDataMap {
    fn default() -> (r: Self)
        ensures
            r@ == Map::<u64, PatchModel>::empty(),
    {
        PatchDataMap { inner: PatchMap::new() }
    }
}

impl PatchDataMap {
    /// No announced patches.
    pub fn new() -> (r: PatchDataMap)
        ensures
            r@ == Map::<u64, PatchModel>::empty(),
    {
        PatchDataMap { inner: PatchMap::new() }
    }

    /// Forgets the patches under the given addresses.
    pub fn remove_patch_data(&mut self, patch_targets: &Vec<u64>)
        ensures
            final(self)@ == old(self)@.remove_keys(patch_targets@.to_set()),
    {
        let mut i: usize = 0;
        let ghost before = self@;
        assert(before.remove_keys(patch_targets@.take(0).to_set()) =~= before);
        while i < patch_targets.len()
            invariant
                i <= patch_targets@.len(),
                self@ == before.remove_keys(patch_targets@.take(i as int).to_set()),
            decreases patch_targets@.len() - i,
        {
            let ghost done = patch_targets@.take(i as int);
            let ghost next = patch_targets@.take(i + 1);
            self.inner.remove(patch_targets[i]);
            proof {
                assert(next =~= done.push(patch_targets@[i as int]));
                assert forall|k: u64| #[trigger]
                    next.to_set().contains(k) == (done.to_set().contains(k) || k
                        == patch_targets@[i as int]) by {
                    if done.contains(k) {
                        let j = choose|j: int| 0 <= j < done.len() && done[j] == k;
                        assert(next[j] == k);
                    }
                    if next.contains(k) {
                        let j = choose|j: int| 0 <= j < next.len() && next[j] == k;
                        if j < i {
                            assert(done[j] == k);
                        }
                    }
                    assert(next[i as int] == patch_targets@[i as int]);
                }
                assert(self@ =~= before.remove_keys(next.to_set()));
            }
            i = i + 1;
        }
        assert(patch_targets@.take(i as int) =~= patch_targets@);
    }

    /// The patch announced under the address.
    pub fn get(&self, addr: u64) -> (r: Option<HekiPatch>)
        ensures
            r is Some == self@.dom().contains(addr),
            r matches Some(p) ==> p@ == self@[addr],
    {
        match self.inner.get(addr) {
            Some(p) => Some(p.duplicate()),
            None => None,
        }
    }

    /// Stores a patch under its keys.
    fn store(&mut self, patch: &HekiPatch)
        requires
            patch@.well_formed(),
        ensures
            final(self)@ == stored(old(self)@, patch@),
    {
        self.inner.insert(patch.pa_0, patch.duplicate());
        if patch.splits() {
            self.inner.insert(patch.pa_1, patch.duplicate());
        }
    }

    /// Stores patches of the kernel in order, up to the first that could not be decoded.
    fn insert_kernel_patches(&mut self, patches: &Vec<Option<HekiPatch>>) -> (r: Result<
        (),
        PatchDataMapError,
    >)
        requires
            forall|i: int|
                #![trigger patches@[i]]
                0 <= i < patches@.len() ==> (patches@[i] matches Some(p) ==> p@.well_formed()),
        ensures
            r is Ok == (decoded_prefix(patches@).len() == patches@.len()),
            r matches Err(e) ==> e == PatchDataMapError::InvalidHekiPatch,
            final(self)@ == stored_all(old(self)@, decoded_prefix(patches@)),
    {
        let mut i: usize = 0;
        let ghost before = self@;
        let ghost done: Seq<PatchModel> = Seq::empty();
        proof {
            assert(patches@.skip(0) =~= patches@);
            assert(done + decoded_prefix(patches@) =~= decoded_prefix(patches@));
        }
        while i < patches.len()
            invariant
                i <= patches@.len(),
                before == old(self)@,
                done.len() == i,
                self@ == stored_all(before, done),
                decoded_prefix(patches@) == done + decoded_prefix(patches@.skip(i as int)),
                forall|i: int|
                    #![trigger patches@[i]]
                    0 <= i < patches@.len() ==> (patches@[i] matches Some(p) ==> p@.well_formed()),
            decreases patches@.len() - i,
        {
            proof {
                assert(patches@.skip(i as int).drop_first() =~= patches@.skip(i + 1));
            }
            match &patches[i] {
                Some(patch) => {
                    self.store(patch);
                    proof {
                        assert(done.push(patch@).drop_last() =~= done);
                        done = done.push(patch@);
                        assert(decoded_prefix(patches@) =~= done + decoded_prefix(
                            patches@.skip(i + 1),
                        ));
                    }
                },
                None => {
                    assert(decoded_prefix(patches@) =~= done);
                    return Err(PatchDataMapError::InvalidHekiPatch);
                },
            }
            i = i + 1;
        }
        assert(decoded_prefix(patches@) =~= done);
        Ok(())
    }

    /// Stores patches of a module in order, up to the first that could not be decoded. They are
    /// stored only if they target one of its executable ranges; the keys under which they are
    /// stored become patch targets of the module.
    fn insert_module_patches(
        &mut self,
        patches: &Vec<Option<HekiPatch>>,
        module: &mut ModuleMemoryMetadata,
    ) -> (r: Result<(), PatchDataMapError>)
        requires
            forall|i: int|
                #![trigger patches@[i]]
                0 <= i < patches@.len() ==> (patches@[i] matches Some(p) ==> p@.well_formed()),
        ensures
            r is Ok == (decoded_prefix(patches@).len() == patches@.len()),
            r matches Err(e) ==> e == PatchDataMapError::InvalidHekiPatch,
            final(self)@ == stored_all(
                old(self)@,
                admitted(decoded_prefix(patches@), Some(old(module).memory())),
            ),
            final(module).memory() == old(module).memory(),
            final(module).targets() == old(module).targets() + keys_of_all(
                admitted(decoded_prefix(patches@), Some(old(module).memory())),
            ),
    {
        let mut i: usize = 0;
        let ghost before = self@;
        let ghost memory = module.memory();
        let ghost targets = module.targets();
        let ghost done: Seq<PatchModel> = Seq::empty();
        proof {
            reveal(Seq::filter);
            assert(admitted(done, Some(memory)) =~= Seq::empty());
            assert(patches@.skip(0) =~= patches@);
            assert(done + decoded_prefix(patches@) =~= decoded_prefix(patches@));
        }
        while i < patches.len()
            invariant
                i <= patches@.len(),
                before == old(self)@,
                memory == old(module).memory(),
                targets == old(module).targets(),
                done.len() == i,
                self@ == stored_all(before, admitted(done, Some(memory))),
                module.memory() == memory,
                module.targets() == targets + keys_of_all(admitted(done, Some(memory))),
                decoded_prefix(patches@) == done + decoded_prefix(patches@.skip(i as int)),
                forall|i: int|
                    #![trigger patches@[i]]
                    0 <= i < patches@.len() ==> (patches@[i] matches Some(p) ==> p@.well_formed()),
            decreases patches@.len() - i,
        {
            proof {
                assert(patches@.skip(i as int).drop_first() =~= patches@.skip(i + 1));
            }
            match &patches[i] {
                Some(patch) => {
                    let ghost kept = admitted(done, Some(memory));
                    proof {
                        lemma_admitted_push(done, patch@, memory);
                        assert(kept.push(patch@).drop_last() =~= kept);
                    }
                    if module_admits_patch(module.as_slice(), patch) {
                        module.insert_patch_target(patch.pa_0);
                        if patch.splits() {
                            module.insert_patch_target(patch.pa_1);
                        }
                        self.store(patch);
                        assert(module.targets() =~= targets + keys_of_all(kept.push(patch@)));
                    }
                    proof {
                        done = done.push(patch@);
                        assert(decoded_prefix(patches@) =~= done + decoded_prefix(
                            patches@.skip(i + 1),
                        ));
                    }
                },
                None => {
                    assert(decoded_prefix(patches@) =~= done);
                    return Err(PatchDataMapError::InvalidHekiPatch);
                },
            }
            i = i + 1;
        }
        assert(decoded_prefix(patches@) =~= done);
        Ok(())
    }
}

/// Whether the patch targets one of the executable ranges.
fn module_admits_patch(memory: &[ModuleMemoryRange], patch: &HekiPatch) -> (r: bool)
    ensures
        r == module_admits(memory@, patch@),
{
    let mut i: usize = 0;
    while i < memory.len()
        invariant
            i <= memory@.len(),
            forall|j: int| 0 <= j < i ==> !range_admits(#[trigger] memory@[j], patch@),
        decreases memory@.len() - i,
    {
        let range = &memory[i];
        let executable = match range.mod_mem_type {
            ModMemType::Text | ModMemType::InitText => true,
            _ => false,
        };
        if executable && range.phys_frame_range.contains(patch.pa_0) && (patch.pa_1 == 0
            || range.phys_frame_range.contains(patch.pa_1)) {
            assert(range_admits(memory@[i as int], patch@));
            return true;
        }
        i = i + 1;
    }
    false
}

/// One more patch is kept behind the others if the module admits it.
proof fn lemma_admitted_push(
    patches: Seq<PatchModel>,
    patch: PatchModel,
    memory: Seq<ModuleMemoryRange>,
)
    ensures
        admitted(patches.push(patch), Some(memory)) == if module_admits(memory, patch) {
            admitted(patches, Some(memory)).push(patch)
        } else {
            admitted(patches, Some(memory))
        },
{
    reveal(Seq::filter);
    assert(patches.push(patch).drop_last() =~= patches);
}

/// What stands under an address after patches were stored stood there before, or is one of the patches,
/// and the address is one of its keys.
proof fn lemma_stored_all_origin(map: Map<u64, PatchModel>, patches: Seq<PatchModel>, addr: u64)
    requires
        stored_all(map, patches).dom().contains(addr),
    ensures
        map.dom().contains(addr) && map[addr] == stored_all(map, patches)[addr] || exists|k: int|
            #![trigger patches[k]]
            0 <= k < patches.len() && patches[k] == stored_all(map, patches)[addr] && (addr
                == patches[k].pa_0 || addr == patches[k].pa_1 && patches[k].pa_1 != 0),
    decreases patches.len(),
{
    if patches.len() > 0 {
        let rest = patches.drop_last();
        let last = patches.last();
        assert(patches[patches.len() - 1] == last);
        if addr == last.pa_0 || (last.splits_after_first_byte() && addr == last.pa_1) {
        } else {
            lemma_stored_all_origin(map, rest, addr);
            if !(map.dom().contains(addr) && map[addr] == stored_all(map, rest)[addr]) {
                let k = choose|k: int|
                    #![trigger rest[k]]
                    0 <= k < rest.len() && rest[k] == stored_all(map, rest)[addr] && (addr
                        == rest[k].pa_0 || addr == rest[k].pa_1 && rest[k].pa_1 != 0);
                assert(patches[k] == rest[k]);
            }
        }
    }
}

/// The address lies in one of the executable ranges of a module.
pub open spec fn in_module_code(memory: Seq<ModuleMemoryRange>, addr: u64) -> bool {
    exists|i: int|
        0 <= i < memory.len() && (#[trigger] memory[i]).phys_frame_range.spec_contains(addr as int) && (
        memory[i].mod_mem_type is Text || memory[i].mod_mem_type is InitText)
}

/// Every patch that a module announces targets one of its executable ranges: whatever stands under an
/// address afterwards stood there before, or the module admits it, and the address lies in one of those
/// ranges. What stood outside them before stands there still.
pub proof fn law_module_patches_stay_in_module(
    map: Map<u64, PatchModel>,
    patches: Seq<PatchModel>,
    memory: Seq<ModuleMemoryRange>,
    addr: u64,
)
    ensures
        ({
            let after = stored_all(map, admitted(patches, Some(memory)));
            &&& after.dom().contains(addr) ==> map.dom().contains(addr) && after[addr] == map[addr] || (
            module_admits(memory, after[addr]) && in_module_code(memory, addr))
            &&& map.dom().contains(addr) ==> after.dom().contains(addr)
            &&& !in_module_code(memory, addr) ==> after.dom().contains(addr) == map.dom().contains(
                addr,
            )
        }),
{
    let kept = admitted(patches, Some(memory));
    let after = stored_all(map, kept);
    let pred = |p: PatchModel| module_admits(memory, p);
    if map.dom().contains(addr) {
        lemma_stored_all_keeps(map, kept, addr);
    }
    if after.dom().contains(addr) {
        lemma_stored_all_origin(map, kept, addr);
        if !(map.dom().contains(addr) && map[addr] == after[addr]) {
            let p = after[addr];
            let k = choose|k: int|
                #![trigger kept[k]]
                0 <= k < kept.len() && kept[k] == p && (addr == kept[k].pa_0 || addr == kept[k].pa_1
                    && kept[k].pa_1 != 0);
            assert(kept == patches.filter(pred));
            patches.lemma_filter_pred(pred, k);
            assert(pred(kept[k]));
            let i = choose|i: int| 0 <= i < memory.len() && range_admits(#[trigger] memory[i], p);
            assert(memory[i].phys_frame_range.spec_contains(addr as int));
        }
    }
}

/// Storing patches removes nothing.
proof fn lemma_stored_all_keeps(map: Map<u64, PatchModel>, patches: Seq<PatchModel>, addr: u64)
    requires
        map.dom().contains(addr),
    ensures
        stored_all(map, patches).dom().contains(addr),
    decreases patches.len(),
{
    if patches.len() > 0 {
        lemma_stored_all_keeps(map, patches.drop_last(), addr);
    }
}

/// Removing the keys under which patches were stored leaves what the map held elsewhere: nothing of
/// the patches remains.
pub proof fn law_removing_targets_undoes_storing(map: Map<u64, PatchModel>, patches: Seq<PatchModel>)
    ensures
        stored_all(map, patches).remove_keys(keys_of_all(patches).to_set()) == map.remove_keys(
            keys_of_all(patches).to_set(),
        ),
    decreases patches.len(),
{
    let keys = keys_of_all(patches).to_set();
    lemma_stored_all_elsewhere(map, patches);
    assert(stored_all(map, patches).remove_keys(keys) =~= map.remove_keys(keys));
}

/// Storing patches changes nothing under other addresses than their keys.
proof fn lemma_stored_all_elsewhere(map: Map<u64, PatchModel>, patches: Seq<PatchModel>)
    ensures
        forall|a: u64| #![trigger stored_all(map, patches).dom().contains(a)]
            !keys_of_all(patches).contains(a) ==> stored_all(map, patches).dom().contains(a)
                == map.dom().contains(a),
        forall|a: u64| #![trigger stored_all(map, patches)[a]]
            !keys_of_all(patches).contains(a) ==> stored_all(map, patches)[a] == map[a],
    decreases patches.len(),
{
    if patches.len() > 0 {
        let rest = patches.drop_last();
        let last = patches.last();
        let keys = keys_of_all(patches);
        let old_keys = keys_of_all(rest);
        lemma_stored_all_elsewhere(map, rest);
        assert forall|a: u64| !keys.contains(a) implies !old_keys.contains(a) && a != last.pa_0 && (
        last.splits_after_first_byte() ==> a != last.pa_1) by {
            assert(keys[old_keys.len() as int] == last.pa_0);
            if last.splits_after_first_byte() {
                assert(keys[old_keys.len() as int + 1] == last.pa_1);
            }
            if old_keys.contains(a) {
                let j = choose|j: int| 0 <= j < old_keys.len() && old_keys[j] == a;
                assert(keys[j] == a);
            }
        }
        assert forall|a: u64| !keys.contains(a) implies #[trigger] stored_all(
            map,
            patches,
        ).dom().contains(a) == map.dom().contains(a) by {
            assert(stored_all(map, rest).dom().contains(a) == map.dom().contains(a));
        }
        assert forall|a: u64| !keys.contains(a) implies #[trigger] stored_all(map, patches)[a]
            == map[a] by {
            assert(stored_all(map, rest)[a] == map[a]);
        }
    }
}

/// Sizes of the records in a buffer of announced patches: a header, which tells how many patches
/// follow it, and a patch.
#[derive(Clone, Copy, PartialEq, Eq, Structural, Debug)]
pub struct PatchRecordSizes {
    pub info: usize,
    pub patch: usize,
}

/// A pass over a buffer of announced patches: headers, each followed by its patches. Bytes at the
/// end that form no valid header are padding.
#[derive(Clone, Copy, PartialEq, Eq, Structural, Debug)]
pub struct PatchDataReader {
    /// Length of the buffer.
    pub len: usize,
    /// Where the next header stands.
    pub index: usize,
    /// Sizes of the records.
    pub sizes: PatchRecordSizes,
}

impl PatchDataReader {
    /// The reader stands inside the buffer.
    pub open spec fn well_formed(self) -> bool {
        self.index <= self.len && self.sizes.info > 0 && self.sizes.patch > 0
    }

    /// Starts a pass over a buffer of `len` bytes, which must hold a header.
    pub fn new(len: usize, sizes: PatchRecordSizes) -> (r: Result<PatchDataReader, PatchDataMapError>)
        requires
            sizes.info > 0,
            sizes.patch > 0,
        ensures
            r == (if len < sizes.info {
                Err(PatchDataMapError::InvalidHekiPatchInfo)
            } else {
                Ok(PatchDataReader { len, index: 0, sizes })
            }),
    {
        if len < sizes.info {
            return Err(PatchDataMapError::InvalidHekiPatchInfo);
        }
        Ok(PatchDataReader { len, index: 0, sizes })
    }

    /// Where the next header stands, if there is room for one.
    pub fn next_info(&self) -> (r: Option<usize>)
        requires
            self.well_formed(),
        ensures
            r == (if self.index + self.sizes.info <= self.len {
                Some(self.index)
            } else {
                None
            }),
    {
        if self.sizes.info <= self.len - self.index {
            Some(self.index)
        } else {
            None
        }
    }

    /// Takes the number of patches behind the header that [`next_info`](Self::next_info) named.
    /// Returns where those patches start and end, and moves behind them; fails if they do not fit
    /// in the buffer.
    pub fn accept_info(&mut self, patch_index: u64) -> (r: Result<(usize, usize), PatchDataMapError>)
        requires
            old(self).well_formed(),
            old(self).index + old(self).sizes.info <= old(self).len,
        ensures
            final(self).well_formed(),
            final(self).len == old(self).len,
            final(self).sizes == old(self).sizes,
            if old(self).index + old(self).sizes.info + old(self).sizes.patch * patch_index <= old(
                self,
            ).len {
                &&& r matches Ok((start, end))
                &&& start == old(self).index + old(self).sizes.info
                &&& end == start + old(self).sizes.patch * patch_index
                &&& final(self).index == end
            } else {
                r == Err::<(usize, usize), _>(PatchDataMapError::InvalidHekiPatchInfo)
                    && *final(self) == *old(self)
            },
    {
        let start: usize = self.index + self.sizes.info;
        let total = match (self.sizes.patch as u64).checked_mul(patch_index) {
            Some(total) => total,
            None => return Err(PatchDataMapError::InvalidHekiPatchInfo),
        };
        if total > (self.len - start) as u64 {
            return Err(PatchDataMapError::InvalidHekiPatchInfo);
        }
        let end: usize = start + total as usize;
        self.index = end;
        Ok((start, end))
    }
}

/// A header of a buffer of announced patches with the patches behind it, decoded.
pub struct PatchGroup {
    /// Number of patches that the header announces.
    pub patch_index: u64,
    /// The records behind the header, up to the first that is no valid patch.
    pub patches: Vec<Option<HekiPatch>>,
}

/// The records of `size` bytes from offset `start` on decode to `patches`: all `count` of them, or those
/// up to the first that is no valid patch.
pub open spec fn patches_read<P: Fn(&[u8]) -> Option<HekiPatch>>(
    buf: Seq<u8>,
    start: int,
    size: int,
    count: int,
    patches: Seq<Option<HekiPatch>>,
    patch: P,
) -> bool {
    &&& patches.len() <= count
    &&& patches.len() < count ==> patches.len() > 0 && patches.last() is None
    &&& forall|i: int| 0 <= i < patches.len() - 1 ==> (#[trigger] patches[i]) is Some
    &&& forall|i: int|
        0 <= i < patches.len() ==> reads(
            patch,
            buf.subrange(start + i * size, start + i * size + size),
            #[trigger] patches[i],
        )
}

/// The buffer decodes to `groups` from offset `index` on: headers, each with the patches that follow it,
/// up to where no header fits or none is valid, or up to the first group that does not fit or holds a
/// record that is no valid patch. `header` gives the number of patches behind a header, `patch` a patch.
pub open spec fn groups_read<H: Fn(&[u8]) -> Option<u64>, P: Fn(&[u8]) -> Option<HekiPatch>>(
    buf: Seq<u8>,
    sizes: PatchRecordSizes,
    groups: Seq<PatchGroup>,
    index: int,
    header: H,
    patch: P,
) -> bool
    decreases groups.len(),
{
    let start = index + sizes.info;
    if start > buf.len() {
        groups.len() == 0
    } else if groups.len() == 0 {
        reads(header, buf.subrange(index, start), None::<u64>)
    } else {
        let group = groups[0];
        let end = start + sizes.patch * group.patch_index;
        &&& reads(header, buf.subrange(index, start), Some(group.patch_index))
        &&& if end > buf.len() {
            group.patches@.len() == 0 && groups.len() == 1
        } else {
            &&& patches_read(
                buf,
                start,
                sizes.patch as int,
                group.patch_index as int,
                group.patches@,
                patch,
            )
            &&& if group.patches@.len() > 0 && group.patches@.last() is None {
                groups.len() == 1
            } else {
                groups_read(buf, sizes, groups.drop_first(), end, header, patch)
            }
        }
    }
}

/// The decoders take records of their sizes, and a decoded patch has target addresses that exist.
pub open spec fn decodes_patches<H: Fn(&[u8]) -> Option<u64>, P: Fn(&[u8]) -> Option<HekiPatch>>(
    sizes: PatchRecordSizes,
    header: H,
    patch: P,
) -> bool {
    &&& sizes.info > 0
    &&& sizes.patch > 0
    &&& forall|b: &[u8]| b@.len() == sizes.info ==> #[trigger] call_requires(header, (b,))
    &&& forall|b: &[u8]| b@.len() == sizes.patch ==> #[trigger] call_requires(patch, (b,))
    &&& forall|b: &[u8], p: HekiPatch|
        b@.len() == sizes.patch && #[trigger] call_ensures(patch, (b,), Some(p)) ==> p@.well_formed()
}

/// Decodes the records from offset `start` up to `end`, up to the first that is no valid patch.
fn read_patches<P: Fn(&[u8]) -> Option<HekiPatch>>(
    buf: &[u8],
    start: usize,
    end: usize,
    size: usize,
    patch: &P,
) -> (r: Vec<Option<HekiPatch>>)
    requires
        size > 0,
        start <= end <= buf@.len(),
        (end - start) % size as int == 0,
        forall|b: &[u8]| b@.len() == size ==> #[trigger] call_requires(*patch, (b,)),
        forall|b: &[u8], p: HekiPatch|
            b@.len() == size && #[trigger] call_ensures(*patch, (b,), Some(p)) ==> p@.well_formed(),
    ensures
        patches_read(buf@, start as int, size as int, (end - start) / size as int, r@, *patch),
        forall|i: int|
            0 <= i < r@.len() ==> (#[trigger] r@[i] matches Some(p) ==> p@.well_formed()),
{
    let mut patches: Vec<Option<HekiPatch>> = Vec::new();
    let mut at: usize = start;
    let ghost count = (end - start) / size as int;
    proof {
        lemma_fundamental_div_mod(end - start, size as int);
        assert(count * size == size * count) by (nonlinear_arith);
        assert(0 * size == 0) by (nonlinear_arith);
    }
    while at < end
        invariant
            size > 0,
            start <= at <= end <= buf@.len(),
            count == (end - start) / size as int,
            end - start == count * size,
            at == start + patches@.len() * size,
            forall|b: &[u8]| b@.len() == size ==> #[trigger] call_requires(*patch, (b,)),
            forall|b: &[u8], p: HekiPatch|
                b@.len() == size && #[trigger] call_ensures(*patch, (b,), Some(p))
                    ==> p@.well_formed(),
            forall|i: int| 0 <= i < patches@.len() ==> (#[trigger] patches@[i]) is Some,
            forall|i: int|
                0 <= i < patches@.len() ==> (#[trigger] patches@[i] matches Some(p)
                    ==> p@.well_formed()),
            forall|i: int|
                0 <= i < patches@.len() ==> reads(
                    *patch,
                    buf@.subrange(start + i * size, start + i * size + size),
                    #[trigger] patches@[i],
                ),
        decreases end - at,
    {
        let ghost n = patches@.len() as int;
        proof {
            assert(n < count && (n + 1) * size <= count * size && (n + 1) * size == n * size + size)
                by (nonlinear_arith)
                requires
                    n * size < count * size,
                    size > 0,
            ;
        }
        let slice = slice_subrange(buf, at, at + size);
        let decoded = patch(slice);
        assert(reads(*patch, buf@.subrange(start + n * size, start + n * size + size), decoded));
        let valid = decoded.is_some();
        patches.push(decoded);
        if !valid {
            return patches;
        }
        at = at + size;
    }
    proof {
        let n = patches@.len() as int;
        assert(n == count) by (nonlinear_arith)
            requires
                n * size == count * size,
                size > 0,
        ;
    }
    patches
}

/// Decodes a buffer of announced patches.
fn read_groups<H: Fn(&[u8]) -> Option<u64>, P: Fn(&[u8]) -> Option<HekiPatch>>(
    buf: &[u8],
    sizes: PatchRecordSizes,
    header: &H,
    patch: &P,
) -> (r: Vec<PatchGroup>)
    requires
        decodes_patches(sizes, *header, *patch),
    ensures
        groups_read(buf@, sizes, r@, 0, *header, *patch),
        groups_well_formed(r@),
{
    let mut groups: Vec<PatchGroup> = Vec::new();
    let mut reader = match PatchDataReader::new(buf.len(), sizes) {
        Ok(reader) => reader,
        Err(_) => return groups,
    };
    assert forall|rest: Seq<PatchGroup>| #[trigger]
        groups_read(buf@, sizes, rest, 0, *header, *patch) implies groups_read(
        buf@,
        sizes,
        groups@ + rest,
        0,
        *header,
        *patch,
    ) by {
        assert(groups@ + rest =~= rest);
    }
    loop
        invariant
            decodes_patches(sizes, *header, *patch),
            reader.well_formed(),
            reader.len == buf@.len(),
            reader.sizes == sizes,
            groups_well_formed(groups@),
            forall|rest: Seq<PatchGroup>| #[trigger]
                groups_read(buf@, sizes, rest, reader.index as int, *header, *patch) ==> groups_read(
                    buf@,
                    sizes,
                    groups@ + rest,
                    0,
                    *header,
                    *patch,
                ),
        decreases reader.len - reader.index,
    {
        let ghost before = groups@;
        let ghost index = reader.index as int;
        let at: usize = match reader.next_info() {
            Some(at) => at,
            None => {
                let ghost none = Seq::<PatchGroup>::empty();
                assert(groups_read(buf@, sizes, none, index, *header, *patch));
                assert(groups@ + none =~= groups@);
                return groups;
            },
        };
        let slice = slice_subrange(buf, at, at + sizes.info);
        let decoded = header(slice);
        assert(reads(*header, buf@.subrange(index, index + sizes.info), decoded));
        let patch_index: u64 = match decoded {
            Some(n) => n,
            None => {
                let ghost none = Seq::<PatchGroup>::empty();
                assert(groups_read(buf@, sizes, none, index, *header, *patch));
                assert(groups@ + none =~= groups@);
                return groups;
            },
        };
        let (start, end) = match reader.accept_info(patch_index) {
            Ok(span) => span,
            Err(_) => {
                let group = PatchGroup { patch_index, patches: Vec::new() };
                let ghost one = seq![group];
                assert(groups_read(buf@, sizes, one, index, *header, *patch));
                assert(before + one =~= before.push(group));
                groups.push(group);
                return groups;
            },
        };
        proof {
            lemma_group_length(start as int, end as int, sizes.patch as int, patch_index as int);
        }
        let patches = read_patches(buf, start, end, sizes.patch, patch);
        let complete = patches.len() == 0 || patches[patches.len() - 1].is_some();
        let group = PatchGroup { patch_index, patches };
        let ghost one = seq![group];
        assert(before + one =~= before.push(group));
        groups.push(group);
        assert(groups_well_formed(groups@)) by {
            assert forall|g: int, i: int|
                #![trigger groups@[g].patches@[i]]
                0 <= g < groups@.len() && 0 <= i < groups@[g].patches@.len() implies (
            groups@[g].patches@[i] matches Some(p) ==> p@.well_formed()) by {
                if g < before.len() {
                    assert(before[g].patches@[i] == groups@[g].patches@[i]);
                }
            }
        }
        if !complete {
            assert(groups_read(buf@, sizes, one, index, *header, *patch));
            return groups;
        }
        assert forall|rest: Seq<PatchGroup>| #[trigger]
            groups_read(buf@, sizes, rest, end as int, *header, *patch) implies groups_read(
            buf@,
            sizes,
            groups@ + rest,
            0,
            *header,
            *patch,
        ) by {
            let more = one + rest;
            assert(more.drop_first() =~= rest);
            assert(groups_read(buf@, sizes, more, index, *header, *patch));
            assert(before + more =~= groups@ + rest);
        }
    }
}

/// The records of a group fill the bytes behind its header.
proof fn lemma_group_length(start: int, end: int, size: int, count: int)
    requires
        size > 0,
        count >= 0,
        end == start + size * count,
    ensures
        end >= start,
        (end - start) % size == 0,
        (end - start) / size == count,
{
    assert(size * count >= 0) by (nonlinear_arith)
        requires
            size > 0,
            count >= 0,
    ;
    assert(size * count == count * size + 0) by (nonlinear_arith);
    lemma_fundamental_div_mod_converse(end - start, size, count, 0);
}

/// The patches that a buffer of `len` bytes announces from offset `index` on, and the error at
/// which the buffer ends, if it ends with one. `groups` are its valid headers in order.
pub open spec fn announced(
    len: int,
    sizes: PatchRecordSizes,
    groups: Seq<PatchGroup>,
    index: int,
) -> (Seq<PatchModel>, Option<PatchDataMapError>)
    decreases groups.len(),
{
    if groups.len() == 0 || index + sizes.info > len {
        (Seq::empty(), None)
    } else {
        let group = groups[0];
        let end = index + sizes.info + sizes.patch * group.patch_index;
        let valid = decoded_prefix(group.patches@);
        if end > len {
            (Seq::empty(), Some(PatchDataMapError::InvalidHekiPatchInfo))
        } else if valid.len() < group.patches@.len() {
            (valid, Some(PatchDataMapError::InvalidHekiPatch))
        } else {
            let rest = announced(len, sizes, groups.drop_first(), end);
            (valid + rest.0, rest.1)
        }
    }
}

/// Every decoded patch has target addresses that exist.
pub open spec fn groups_well_formed(groups: Seq<PatchGroup>) -> bool {
    forall|g: int, i: int|
        #![trigger groups[g].patches@[i]]
        0 <= g < groups.len() && 0 <= i < groups[g].patches@.len() ==> (
        groups[g].patches@[i] matches Some(p) ==> p@.well_formed())
}

/// Storing patches in two parts is the same as storing them all.
proof fn lemma_stored_all_add(map: Map<u64, PatchModel>, a: Seq<PatchModel>, b: Seq<PatchModel>)
    ensures
        stored_all(map, a + b) == stored_all(stored_all(map, a), b),
        keys_of_all(a + b) == keys_of_all(a) + keys_of_all(b),
    decreases b.len(),
{
    if b.len() == 0 {
        assert(a + b =~= a);
        assert(keys_of_all(a) + keys_of_all(b) =~= keys_of_all(a));
    } else {
        assert((a + b).drop_last() =~= a + b.drop_last());
        lemma_stored_all_add(map, a, b.drop_last());
        assert(keys_of_all(a + b) =~= keys_of_all(a) + keys_of_all(b));
    }
}

/// What is admitted of two parts is what is admitted of each.
proof fn lemma_admitted_add(
    a: Seq<PatchModel>,
    b: Seq<PatchModel>,
    module: Option<Seq<ModuleMemoryRange>>,
)
    ensures
        admitted(a + b, module) == admitted(a, module) + admitted(b, module),
{
    match module {
        Some(memory) => {
            Seq::filter_distributes_over_add(a, b, |p: PatchModel| module_admits(memory, p));
        },
        None => {},
    }
}

/// What storing the patches of a buffer of `len` bytes comes to, which decodes to `groups`.
pub open spec fn patch_data_result(len: int, sizes: PatchRecordSizes, groups: Seq<PatchGroup>) -> Result<
    (),
    PatchDataMapError,
> {
    if len < sizes.info {
        Err(PatchDataMapError::InvalidHekiPatchInfo)
    } else {
        match announced(len, sizes, groups, 0).1 {
            Some(e) => Err(e),
            None => Ok(()),
        }
    }
}

impl PatchDataMap {
    /// Stores the patches that a buffer announces. `header` decodes the number of patches behind a
    /// header, `patch` a patch. Patches of a module are stored only if they target one of its
    /// executable ranges; the keys under which they are stored become patch targets of the module.
    pub fn insert_patch_data_from_bytes<
        H: Fn(&[u8]) -> Option<u64>,
        P: Fn(&[u8]) -> Option<HekiPatch>,
    >(
        &mut self,
        buf: &[u8],
        sizes: PatchRecordSizes,
        header: &H,
        patch: &P,
        module: Option<&mut ModuleMemoryMetadata>,
    ) -> (r: Result<(), PatchDataMapError>)
        requires
            decodes_patches(sizes, *header, *patch),
        ensures
            exists|groups: Seq<PatchGroup>|
                {
                    let found = announced(buf@.len() as int, sizes, groups, 0).0;
                    &&& #[trigger] groups_read(buf@, sizes, groups, 0, *header, *patch)
                    &&& r == patch_data_result(buf@.len() as int, sizes, groups)
                    &&& match module {
                        Some(m) => {
                            let kept = admitted(found, Some(m.memory()));
                            &&& final(self)@ == stored_all(old(self)@, kept)
                            &&& final(m).memory() == m.memory()
                            &&& final(m).targets() == m.targets() + keys_of_all(kept)
                        },
                        None => final(self)@ == stored_all(old(self)@, found),
                    }
                },
    {
        let groups = read_groups(buf, sizes, header, patch);
        match module {
            Some(m) => self.insert_module_patch_data(buf.len(), sizes, &groups, m),
            None => self.insert_kernel_patch_data(buf.len(), sizes, &groups),
        }
    }

    /// Stores the patches that a buffer of `len` bytes announces for the kernel.
    fn insert_kernel_patch_data(
        &mut self,
        len: usize,
        sizes: PatchRecordSizes,
        groups: &Vec<PatchGroup>,
    ) -> (r: Result<(), PatchDataMapError>)
        requires
            sizes.info > 0,
            sizes.patch > 0,
            groups_well_formed(groups@),
        ensures
            len < sizes.info ==> r == Err::<(), _>(PatchDataMapError::InvalidHekiPatchInfo)
                && *final(self) == *old(self),
            len >= sizes.info ==> {
                let found = announced(len as int, sizes, groups@, 0);
                &&& final(self)@ == stored_all(old(self)@, found.0)
                &&& r == (match found.1 {
                    Some(e) => Err::<(), PatchDataMapError>(e),
                    None => Ok(()),
                })
            },
    {
        let mut reader = match PatchDataReader::new(len, sizes) {
            Ok(reader) => reader,
            Err(e) => return Err(e),
        };
        let ghost before = self@;
        let ghost done: Seq<PatchModel> = Seq::empty();
        let mut g: usize = 0;
        proof {
            assert(groups@.skip(0) =~= groups@);
            assert(done + announced(len as int, sizes, groups@, 0).0 =~= announced(
                len as int,
                sizes,
                groups@,
                0,
            ).0);
        }
        while g < groups.len()
            invariant
                g <= groups@.len(),
                reader.well_formed(),
                reader.len == len,
                reader.sizes == sizes,
                len >= sizes.info,
                groups_well_formed(groups@),
                before == old(self)@,
                self@ == stored_all(before, done),
                announced(len as int, sizes, groups@, 0).0 == done + announced(
                    len as int,
                    sizes,
                    groups@.skip(g as int),
                    reader.index as int,
                ).0,
                announced(len as int, sizes, groups@, 0).1 == announced(
                    len as int,
                    sizes,
                    groups@.skip(g as int),
                    reader.index as int,
                ).1,
            decreases groups@.len() - g,
        {
            let group = &groups[g];
            let ghost rest = groups@.skip(g as int);
            proof {
                assert(rest[0] == group);
                assert(rest.drop_first() =~= groups@.skip(g + 1));
            }
            if reader.next_info().is_none() {
                assert(done + Seq::<PatchModel>::empty() =~= done);
                return Ok(());
            }
            match reader.accept_info(group.patch_index) {
                Ok(_) => {},
                Err(e) => {
                    assert(done + Seq::<PatchModel>::empty() =~= done);
                    return Err(e);
                },
            }
            assert forall|i: int| 0 <= i < group.patches@.len() implies (
            #[trigger] group.patches@[i] matches Some(p) ==> p@.well_formed()) by {
                assert(groups@[g as int].patches@[i] == group.patches@[i]);
            }
            let stored_group = self.insert_kernel_patches(&group.patches);
            proof {
                let valid = decoded_prefix(group.patches@);
                lemma_stored_all_add(before, done, valid);
                lemma_decoded_prefix_len(group.patches@);
                done = done + valid;
                assert(announced(len as int, sizes, groups@, 0).0 =~= done + announced(
                    len as int,
                    sizes,
                    groups@.skip(g + 1),
                    reader.index as int,
                ).0 || stored_group is Err);
            }
            match stored_group {
                Ok(()) => {},
                Err(e) => return Err(e),
            }
            g = g + 1;
        }
        assert(done + Seq::<PatchModel>::empty() =~= done);
        Ok(())
    }

    /// Stores the patches that a buffer of `len` bytes announces for a module: those that target
    /// one of its executable ranges. The keys under which they are stored become patch targets of
    /// the module.
    fn insert_module_patch_data(
        &mut self,
        len: usize,
        sizes: PatchRecordSizes,
        groups: &Vec<PatchGroup>,
        module: &mut ModuleMemoryMetadata,
    ) -> (r: Result<(), PatchDataMapError>)
        requires
            sizes.info > 0,
            sizes.patch > 0,
            groups_well_formed(groups@),
        ensures
            final(module).memory() == old(module).memory(),
            len < sizes.info ==> {
                &&& r == Err::<(), _>(PatchDataMapError::InvalidHekiPatchInfo)
                &&& final(self)@ == old(self)@
                &&& final(module).targets() == old(module).targets()
            },
            len >= sizes.info ==> {
                let found = announced(len as int, sizes, groups@, 0);
                let kept = admitted(found.0, Some(old(module).memory()));
                &&& final(self)@ == stored_all(old(self)@, kept)
                &&& final(module).targets() == old(module).targets() + keys_of_all(kept)
                &&& r == (match found.1 {
                    Some(e) => Err::<(), PatchDataMapError>(e),
                    None => Ok(()),
                })
            },
    {
        let mut reader = match PatchDataReader::new(len, sizes) {
            Ok(reader) => reader,
            Err(e) => return Err(e),
        };
        let ghost before = self@;
        let ghost memory = module.memory();
        let ghost targets = module.targets();
        let ghost done: Seq<PatchModel> = Seq::empty();
        let mut g: usize = 0;
        proof {
            reveal(Seq::filter);
            assert(admitted(done, Some(memory)) =~= Seq::empty());
            assert(groups@.skip(0) =~= groups@);
            assert(done + announced(len as int, sizes, groups@, 0).0 =~= announced(
                len as int,
                sizes,
                groups@,
                0,
            ).0);
            assert(targets + keys_of_all(admitted(done, Some(memory))) =~= targets);
        }
        while g < groups.len()
            invariant
                g <= groups@.len(),
                reader.well_formed(),
                reader.len == len,
                reader.sizes == sizes,
                len >= sizes.info,
                groups_well_formed(groups@),
                before == old(self)@,
                memory == old(module).memory(),
                targets == old(module).targets(),
                self@ == stored_all(before, admitted(done, Some(memory))),
                module.memory() == memory,
                module.targets() == targets + keys_of_all(admitted(done, Some(memory))),
                announced(len as int, sizes, groups@, 0).0 == done + announced(
                    len as int,
                    sizes,
                    groups@.skip(g as int),
                    reader.index as int,
                ).0,
                announced(len as int, sizes, groups@, 0).1 == announced(
                    len as int,
                    sizes,
                    groups@.skip(g as int),
                    reader.index as int,
                ).1,
            decreases groups@.len() - g,
        {
            let group = &groups[g];
            let ghost rest = groups@.skip(g as int);
            proof {
                assert(rest[0] == group);
                assert(rest.drop_first() =~= groups@.skip(g + 1));
            }
            if reader.next_info().is_none() {
                assert(done + Seq::<PatchModel>::empty() =~= done);
                return Ok(());
            }
            match reader.accept_info(group.patch_index) {
                Ok(_) => {},
                Err(e) => {
                    assert(done + Seq::<PatchModel>::empty() =~= done);
                    return Err(e);
                },
            }
            assert forall|i: int| 0 <= i < group.patches@.len() implies (
            #[trigger] group.patches@[i] matches Some(p) ==> p@.well_formed()) by {
                assert(groups@[g as int].patches@[i] == group.patches@[i]);
            }
            let stored_group = self.insert_module_patches(&group.patches, module);
            proof {
                let valid = decoded_prefix(group.patches@);
                lemma_admitted_add(done, valid, Some(memory));
                lemma_stored_all_add(
                    before,
                    admitted(done, Some(memory)),
                    admitted(valid, Some(memory)),
                );
                lemma_decoded_prefix_len(group.patches@);
                done = done + valid;
                assert(module.targets() =~= targets + keys_of_all(admitted(done, Some(memory))));
                assert(announced(len as int, sizes, groups@, 0).0 =~= done + announced(
                    len as int,
                    sizes,
                    groups@.skip(g + 1),
                    reader.index as int,
                ).0 || stored_group is Err);
            }
            match stored_group {
                Ok(()) => {},
                Err(e) => return Err(e),
            }
            g = g + 1;
        }
        assert(done + Seq::<PatchModel>::empty() =~= done);
        Ok(())
    }
}

/// No more patches decode than there are records.
proof fn lemma_decoded_prefix_len(patches: Seq<Option<HekiPatch>>)
    ensures
        decoded_prefix(patches).len() <= patches.len(),
    decreases patches.len(),
{
    if patches.len() > 0 {
        lemma_decoded_prefix_len(patches.drop_first());
    }
}

/// Where the bytes of a patch description stand in VTL0 memory.
#[derive(Clone, Copy, PartialEq, Eq, Structural, Debug)]
pub enum PatchSource {
    /// All bytes in one run from this address.
    OneRun { pa: u64 },
    /// The first `first_len` bytes from the first address, the others from the second. Bytes that
    /// were put together this way must still form a valid patch.
    TwoPages { pa_0: u64, first_len: u64, pa_1: u64 },
}

/// How many of the `size` bytes of a patch description fit in the page of `pa`.
pub open spec fn bytes_in_first_page(pa: int, size: int) -> int {
    let room = if page_aligned(pa) {
        4096
    } else {
        page_up(pa) - pa
    };
    if room < size {
        room
    } else {
        size
    }
}

/// The end of the page of a description's first byte exists, unless the addresses are refused before
/// it is looked for.
pub open spec fn first_page_ends(pa_0: int, pa_1: int) -> bool {
    is_phys(pa_0) && is_phys(pa_1) && pa_0 != 0 && pa_0 != pa_1 && page_aligned(pa_1) ==> is_phys(
        page_up(pa_0),
    )
}

/// Where a patch description is to be copied from: see [`copy_heki_patch_from_vtl0`]. Both addresses
/// must exist, and a second page must be given exactly if the first does not hold all bytes.
pub open spec fn patch_source_spec(patch_pa_0: u64, patch_pa_1: u64, size: u64) -> Result<
    PatchSource,
    VsmError,
> {
    let pa_0 = patch_pa_0 as int;
    let pa_1 = patch_pa_1 as int;
    let first = bytes_in_first_page(pa_0, size as int);
    if !is_phys(pa_0) || !is_phys(pa_1) {
        Err(VsmError::InvalidPhysicalAddress)
    } else if pa_0 == 0 || pa_0 == pa_1 || !page_aligned(pa_1) || (first < size) != (pa_1 != 0) {
        Err(VsmError::InvalidInputAddress)
    } else if pa_1 == 0 || page_up(pa_0) == page_down(pa_1) {
        Ok(PatchSource::OneRun { pa: patch_pa_0 })
    } else {
        Ok(PatchSource::TwoPages { pa_0: patch_pa_0, first_len: first as u64, pa_1: patch_pa_1 })
    }
}

/// Where a patch description of `size` bytes is to be copied from, given the physical addresses of
/// its first byte and of its second page (zero if it lies in one page).
pub fn copy_heki_patch_from_vtl0(patch_pa_0: u64, patch_pa_1: u64, size: u64) -> (r: Result<
    PatchSource,
    VsmError,
>)
    requires
        size > 0,
        first_page_ends(patch_pa_0 as int, patch_pa_1 as int),
    ensures
        r == patch_source_spec(patch_pa_0, patch_pa_1, size),
{
    if patch_pa_0 >= PHYS_LIMIT || patch_pa_1 >= PHYS_LIMIT {
        return Err(VsmError::InvalidPhysicalAddress);
    }
    if patch_pa_0 == 0 || patch_pa_0 == patch_pa_1 || patch_pa_1 % PAGE_BYTES != 0 {
        return Err(VsmError::InvalidInputAddress);
    }
    let room: u64 = if patch_pa_0 % PAGE_BYTES == 0 {
        PAGE_BYTES
    } else {
        page_align_up(patch_pa_0) - patch_pa_0
    };
    let first_len: u64 = if room < size {
        room
    } else {
        size
    };
    if (first_len < size && patch_pa_1 == 0) || (first_len == size && patch_pa_1 != 0) {
        return Err(VsmError::InvalidInputAddress);
    }
    if patch_pa_1 == 0 || page_align_up(patch_pa_0) == page_align_down(patch_pa_1) {
        Ok(PatchSource::OneRun { pa: patch_pa_0 })
    } else {
        Ok(PatchSource::TwoPages { pa_0: patch_pa_0, first_len, pa_1: patch_pa_1 })
    }
}

/// A write to VTL0 memory: the bytes `from..to` of a patch's code go to `pa`.
#[derive(Clone, Copy, PartialEq, Eq, Structural, Debug)]
pub struct TextWrite {
    pub pa: u64,
    pub from: usize,
    pub to: usize,
}

/// The number of bytes of a patch that lie in the first page of its target.
pub open spec fn room_in_page(pa: int) -> int {
    4096 - pa % 4096
}

/// The writes that apply a patch, in order: one, or one for each page if the pages are not
/// adjacent.
pub open spec fn text_writes(patch: PatchModel) -> Seq<TextWrite> {
    if patch.pa_1 == 0 || page_up(patch.pa_0 as int) == page_down(patch.pa_1 as int) {
        seq![TextWrite { pa: patch.pa_0, from: 0, to: patch.code.len() as usize }]
    } else {
        let first = room_in_page(patch.pa_0 as int);
        seq![
            TextWrite { pa: patch.pa_0, from: 0, to: first as usize },
            TextWrite { pa: patch.pa_1, from: first as usize, to: patch.code.len() as usize },
        ]
    }
}

/// The writes that apply a patch. A patch with a second page that is not adjacent must reach that
/// page.
pub fn apply_vtl0_text_patch(patch: &HekiPatch) -> (r: Vec<TextWrite>)
    requires
        patch@.writable(),
    ensures
        r@ == text_writes(patch@),
{
    let len: usize = patch.code.len();
    let mut writes: Vec<TextWrite> = Vec::new();
    if patch.pa_1 == 0 || page_align_up(patch.pa_0) == page_align_down(patch.pa_1) {
        writes.push(TextWrite { pa: patch.pa_0, from: 0, to: len });
    } else {
        let first: usize = (PAGE_BYTES - patch.pa_0 % PAGE_BYTES) as usize;
        writes.push(TextWrite { pa: patch.pa_0, from: 0, to: first });
        writes.push(TextWrite { pa: patch.pa_1, from: first, to: len });
    }
    writes
}

/// The writes of a patch put every byte of its code exactly once, in order.
pub proof fn law_text_writes_cover_code(patch: PatchModel)
    requires
        patch.code.len() <= usize::MAX,
        patch.pa_1 == 0 || page_up(patch.pa_0 as int) == page_down(patch.pa_1 as int)
            || room_in_page(patch.pa_0 as int) <= patch.code.len(),
    ensures
        text_writes(patch)[0].from == 0,
        text_writes(patch).last().to == patch.code.len(),
        forall|i: int|
            0 < i < text_writes(patch).len() ==> (#[trigger] text_writes(patch)[i]).from
                == text_writes(patch)[i - 1].to,
{
}

} // verus!
