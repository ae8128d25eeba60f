//! How kernel data, modules and kexec images are loaded: what is demanded of them and what is kept.
use vstd::prelude::*;

use crate::lvbs::cert::certs_of;
use crate::lvbs::container::MemoryContainer;
use crate::lvbs::crng::{
    chacha_bytes, filled, first_seed, later_seed, le_bytes, reseed_label, seed_label, sha256,
    CrngModel, SEED_LEN,
};
use crate::lvbs::error::VsmError;
use crate::lvbs::kdata::{
    load_kdata_error, symtabs_added, system_certs_error, KdataLayout, KdataLoading, KdataPhase,
    KernelSymtabs,
};
use crate::lvbs::kernel_info::Vtl0KernelInfo;
use crate::lvbs::kexec::{
    crash_segments, has_unknown_kexec, kexec_memory, segments_before_overflow, KexecPhase,
    KexecSegment, KexecValidation, Kimage,
};
use crate::lvbs::heki::HekiRange;
use crate::lvbs::memory_laws::{entry_is_kept, law_every_entry_is_added};
use crate::lvbs::module::{KexecMemoryRange, ModuleMemoryMetadata};
use crate::lvbs::module_ops::{
    first_module_error, module_forgotten, module_size_error, validate_module_error, ModulePhase,
    ModuleValidation,
};
use crate::lvbs::symbol::{HekiKernelSymbol, SymbolLayout};
use crate::lvbs::vmap_ops::map_info;

verus! {

/// Kernel data are loaded before the end of boot only, and modules once there are certificates only;
/// both are described by a list in whole pages of physical memory.
pub proof fn law_when_loading_is_refused(info: Vtl0KernelInfo, pa: u64, nranges: u64)
    ensures
        ({
            let listed = pa < 0x10_0000_0000_0000 && pa % 4096 == 0 && nranges > 0;
            &&& load_kdata_error(info, pa, nranges) is None <==> listed && !info.boot_done
            &&& !listed ==> load_kdata_error(info, pa, nranges) == Some(
                VsmError::InvalidInputAddress,
            )
            &&& listed && info.boot_done ==> (load_kdata_error(info, pa, nranges) matches Some(e)
                && e is OperationAfterEndOfBoot)
            &&& validate_module_error(info, pa, nranges) is None <==> listed
                && info.system_certs is Some
            &&& !listed ==> validate_module_error(info, pa, nranges) == Some(
                VsmError::InvalidInputAddress,
            )
            &&& listed && info.system_certs is None ==> validate_module_error(info, pa, nranges)
                == Some(VsmError::SystemCertificatesNotLoaded)
        }),
{
}

/// Kernel data need certificates, at least one of them, and all of them sound.
pub proof fn law_certificates_are_needed(bytes: Seq<u8>)
    ensures
        bytes.len() == 0 ==> system_certs_error(bytes) == Some(VsmError::SystemCertificatesNotFound),
        bytes.len() > 0 ==> {
            &&& certs_of(bytes) matches Err(e) ==> system_certs_error(bytes) == Some(e)
            &&& certs_of(bytes) matches Ok(certs) ==> {
                &&& certs.len() == 0 ==> system_certs_error(bytes) == Some(
                    VsmError::SystemCertificatesInvalid,
                )
                &&& certs.len() > 0 ==> system_certs_error(bytes) is None
            }
        },
{
}

/// Behind the trampoline the patches are decoded, if there are any, and behind the patches the
/// symbols, which there have to be.
pub proof fn law_kernel_data_in_order(op: KdataLoading, layout: KdataLayout)
    ensures
        op.trampoline_done(layout) && layout.patch_info@.len() > 0 ==> op.phase
            == (KdataPhase::DecodePatches { layout }),
        (op.trampoline_done(layout) && layout.patch_info@.len() == 0) || op.patches_done(layout)
            ==> {
            &&& layout.kernel_info@.len() > 0 && layout.kernel_data@.len() > 0 ==> op.phase
                == (KdataPhase::DecodeSymbols { layout })
            &&& layout.kernel_info@.len() == 0 || layout.kernel_data@.len() == 0 ==> op.phase
                == (KdataPhase::Done {
                result: Err::<i64, VsmError>(VsmError::KernelSymbolTableNotFound),
            })
        },
{
}

/// If the kernel's symbols are loaded, every entry of its table for modules under the GPL is known
/// as such a symbol, and every entry of its table for all modules as one for all modules. `i` is any
/// entry.
pub proof fn law_kernel_symbols_are_loaded<S: Fn(&[u8]) -> Result<HekiKernelSymbol, VsmError>>(
    tabs: KernelSymtabs,
    before: Vtl0KernelInfo,
    after: Vtl0KernelInfo,
    data: MemoryContainer,
    layout: SymbolLayout,
    symbol: S,
    result: Result<i64, VsmError>,
    i: int,
)
    requires
        symtabs_added(Ok(tabs), before, after, data, layout, symbol, result),
        result is Ok,
        layout.len > 0,
        0 <= i,
    ensures
        result == Ok::<i64, VsmError>(0),
        i < (tabs.gpl.end@ - tabs.gpl.start@) / (layout.len as int) ==> entry_is_kept(
            tabs.gpl.start@ - data.ranges()[0].addr + i * layout.len,
            tabs.gpl.start@ + i * layout.len,
            data@,
            layout,
            symbol,
            after.gpl_symbols@,
        ),
        i < (tabs.all.end@ - tabs.all.start@) / (layout.len as int) ==> entry_is_kept(
            tabs.all.start@ - data.ranges()[0].addr + i * layout.len,
            tabs.all.start@ + i * layout.len,
            data@,
            layout,
            symbol,
            after.symbols@,
        ),
{
    let low = data.ranges().first().addr;
    if i < (tabs.gpl.end@ - tabs.gpl.start@) / (layout.len as int) {
        law_every_entry_is_added(
            before.gpl_symbols@,
            tabs.gpl.start@ - low,
            tabs.gpl.start@ as int,
            ((tabs.gpl.end@ - tabs.gpl.start@) / (layout.len as int)) as nat,
            data@,
            layout,
            symbol,
            after.gpl_symbols@,
            i,
        );
    }
    if i < (tabs.all.end@ - tabs.all.start@) / (layout.len as int) {
        law_every_entry_is_added(
            before.symbols@,
            tabs.all.start@ - low,
            tabs.all.start@ as int,
            ((tabs.all.end@ - tabs.all.start@) / (layout.len as int)) as nat,
            data@,
            layout,
            symbol,
            after.symbols@,
            i,
        );
    }
}

/// If the tables of the kernel cannot be told, no symbols change; if its first table is not loaded, those
/// for all modules do not change.
pub proof fn law_failed_symbols<S: Fn(&[u8]) -> Result<HekiKernelSymbol, VsmError>>(
    tabs: Result<KernelSymtabs, VsmError>,
    before: Vtl0KernelInfo,
    after: Vtl0KernelInfo,
    data: MemoryContainer,
    layout: SymbolLayout,
    symbol: S,
    result: Result<i64, VsmError>,
)
    requires
        symtabs_added(tabs, before, after, data, layout, symbol, result),
    ensures
        tabs matches Err(e) ==> {
            &&& result == Err::<i64, VsmError>(e)
            &&& after.symbols@ == before.symbols@
            &&& after.gpl_symbols@ == before.gpl_symbols@
        },
        tabs matches Ok(tabs) ==> {
            ||| after.symbols@ == before.symbols@
            ||| tabs.gpl.added(
                before.gpl_symbols@,
                data,
                layout,
                symbol,
                after.gpl_symbols@,
                None,
            )
        },
{
}

/// Once an earlier image is forgotten, a call without an address is over, and one with an address
/// goes on to read as many ranges as it tells, from that address.
pub proof fn law_kexec_goes_on(op: KexecValidation)
    requires
        op.invalidated(),
    ensures
        op.request().0 == 0 ==> op.phase == (KexecPhase::Done { result: Ok::<i64, VsmError>(0) }),
        op.request().0 != 0 && op.request().1 > 0 ==> (op.phase matches KexecPhase::Walk { walk }
            && walk.position() == op.request().0 && walk.goal() == op.request().1
            && walk.found().len() == 0),
        op.request().0 != 0 && op.request().1 == 0 ==> op.phase is CopyImage,
{
    if op.request().0 != 0 && op.request().1 == 0 {
        assert(!has_unknown_kexec(Seq::<HekiRange>::empty()));
    }
}

/// The image of a crash kernel and the image of another kernel are kept apart.
pub proof fn law_crash_images_are_kept_apart(info: Vtl0KernelInfo, crash: u64)
    ensures
        crash == 0 ==> kexec_memory(info, crash) == info.kexec_metadata@,
        crash != 0 ==> kexec_memory(info, crash) == info.crash_kexec_metadata@,
{
}

/// How many segments end at all.
proof fn lemma_segments_before_overflow(segments: Seq<KexecSegment>)
    ensures
        0 <= segments_before_overflow(segments) <= segments.len(),
        segments_before_overflow(segments) < segments.len() <==> exists|i: int|
            0 <= i < segments.len() && (#[trigger] segments[i]).mem + segments[i].memsz > u64::MAX,
    decreases segments.len(),
{
    if segments.len() > 0 {
        let rest = segments.drop_first();
        lemma_segments_before_overflow(rest);
        if segments[0].mem + segments[0].memsz <= u64::MAX {
            if exists|i: int|
                0 <= i < segments.len() && (#[trigger] segments[i]).mem + segments[i].memsz
                    > u64::MAX {
                let i = choose|i: int|
                    0 <= i < segments.len() && (#[trigger] segments[i]).mem + segments[i].memsz
                        > u64::MAX;
                assert(rest[i - 1] == segments[i]);
            }
            if exists|i: int|
                0 <= i < rest.len() && (#[trigger] rest[i]).mem + rest[i].memsz > u64::MAX {
                let i = choose|i: int|
                    0 <= i < rest.len() && (#[trigger] rest[i]).mem + rest[i].memsz > u64::MAX;
                assert(segments[i + 1] == rest[i]);
            }
        }
    }
}

/// Of a crash image the segments in use are protected, each from the page of its start up to the
/// page of its end. An image with more segments than it has, or with one that does not end, is
/// refused. `i` is any segment in use.
pub proof fn law_crash_segments_are_protected(image: Kimage, i: int)
    requires
        image.well_formed(),
    ensures
        ({
            let memory = crash_segments(Some(image));
            &&& image.nr_segments > image.segment@.len() ==> memory == Err::<
                Seq<KexecMemoryRange>,
                VsmError,
            >(VsmError::KexecImageSegmentsInvalid)
            &&& image.nr_segments <= image.segment@.len() && 0 <= i < image.nr_segments
                && image.segment@[i].mem + image.segment@[i].memsz > u64::MAX ==> memory == Err::<
                Seq<KexecMemoryRange>,
                VsmError,
            >(VsmError::KexecSegmentRangeInvalid)
            &&& image.nr_segments <= image.segment@.len() && (forall|j: int|
                0 <= j < image.nr_segments ==> (#[trigger] image.segment@[j]).mem
                    + image.segment@[j].memsz <= u64::MAX) ==> {
                &&& memory is Ok
                &&& memory->Ok_0.len() == image.nr_segments
                &&& 0 <= i < image.nr_segments ==> {
                    let segment = image.segment@[i];
                    let end = segment.mem + segment.memsz;
                    &&& memory->Ok_0[i].virt_addr == segment.buf
                    &&& memory->Ok_0[i].phys_frame_range.start == segment.mem - segment.mem % 4096
                    &&& memory->Ok_0[i].phys_frame_range.end == end - end % 4096
                }
            }
        }),
        crash_segments(None) == Err::<Seq<KexecMemoryRange>, VsmError>(
            VsmError::KexecImageSegmentsInvalid,
        ),
{
    if image.nr_segments <= image.segment@.len() {
        let used = image.segment@.take(image.nr_segments as int);
        lemma_segments_before_overflow(used);
        if 0 <= i < image.nr_segments {
            assert(used[i] == image.segment@[i]);
        }
        if segments_before_overflow(used) < used.len() {
            let j = choose|j: int|
                0 <= j < used.len() && (#[trigger] used[j]).mem + used[j].memsz > u64::MAX;
            assert(image.segment@[j] == used[j]);
        }
    }
}

/// A module that is described with sound ranges begins with nothing copied and no patches.
pub proof fn law_modules_begin_empty(op: ModuleValidation, ranges: Seq<HekiRange>)
    requires
        op.collected(ranges),
    ensures
        first_module_error(ranges) is None ==> (op.phase matches ModulePhase::CopyElf { layout }
            && layout.elf@.len() == 0 && layout.patch_info@.len() == 0
            && layout.metadata.targets().len() == 0
            && layout.memory.text_container()@.len() == 0
            && layout.memory.init_text_container()@.len() == 0
            && layout.memory.init_rodata_container()@.len() == 0),
        first_module_error(ranges) matches Some(e) ==> op.phase == (ModulePhase::Done {
            result: Err::<i64, VsmError>(e),
        }),
{
}

/// A module file may have 64 MiB.
pub proof fn law_largest_module(elf: MemoryContainer)
    ensures
        module_size_error(elf) is None <==> elf@.len() <= 0x400_0000,
        module_size_error(elf) matches Some(e) ==> e is ModuleElfSizeExceeded,
{
}

/// A module that is accepted is known afterwards by the token that the call returns, which no other
/// module had. What is known of other modules does not change.
pub proof fn law_accepted_modules_are_known(
    op: ModuleValidation,
    before: Vtl0KernelInfo,
    after: Vtl0KernelInfo,
    metadata: ModuleMemoryMetadata,
    other: i64,
)
    requires
        op.registered(before, after, metadata),
        before.module_memory_metadata.well_formed(),
    ensures
        op.phase is Done && op.phase->Done_result is Ok,
        ({
            let token = op.phase->Done_result->Ok_0;
            &&& !before.module_memory_metadata@.dom().contains(token)
            &&& after.module_memory_metadata@.dom().contains(token)
            &&& after.module_memory_metadata@[token] == metadata
            &&& after.module_memory_metadata.next_token() == token + 1
            &&& other != token ==> {
                &&& after.module_memory_metadata@.dom().contains(other)
                    == before.module_memory_metadata@.dom().contains(other)
                &&& before.module_memory_metadata@.dom().contains(other)
                    ==> after.module_memory_metadata@[other] == before.module_memory_metadata@[other]
            }
        }),
{
}

/// A module that is unloaded is forgotten, and with it the patches at its targets. What is known of
/// other modules, and patches elsewhere, do not change.
pub proof fn law_unloaded_modules_are_forgotten(
    before: Vtl0KernelInfo,
    after: Vtl0KernelInfo,
    token: i64,
    other: i64,
    key: u64,
)
    requires
        module_forgotten(before, after, token),
    ensures
        !after.module_memory_metadata@.dom().contains(token),
        other != token ==> after.module_memory_metadata@.dom().contains(other)
            == before.module_memory_metadata@.dom().contains(other),
        other != token && before.module_memory_metadata@.dom().contains(other)
            ==> after.module_memory_metadata@[other] == before.module_memory_metadata@[other],
        before.module_memory_metadata@[token].targets().contains(key)
            ==> !after.precomputed_patches@.dom().contains(key),
        !before.module_memory_metadata@[token].targets().contains(key)
            ==> after.precomputed_patches@.dom().contains(key)
            == before.precomputed_patches@.dom().contains(key),
        !before.module_memory_metadata@[token].targets().contains(key)
            && before.precomputed_patches@.dom().contains(key) ==> after.precomputed_patches@[key]
            == before.precomputed_patches@[key],
        after.boot_done == before.boot_done,
        after.kexec_metadata == before.kexec_metadata,
        after.crash_kexec_metadata == before.crash_kexec_metadata,
{
    let targets = before.module_memory_metadata@[token].targets();
    assert(targets.to_set().contains(key) <==> targets.contains(key));
}

/// A mapping of pages has 4096 bytes for each of them.
pub proof fn law_size_of_mappings(base: u64, count: int)
    requires
        0 <= 4096 * count <= u64::MAX,
    ensures
        map_info(base, count).base == base,
        map_info(base, count).size == 4096 * count,
{
}

/// The labels that seeds start with.
proof fn lemma_labels(i: int)
    ensures
        seed_label().len() == 25,
        reseed_label().len() == 27,
        0 <= i < 25 ==> seed_label()[i] as char == "litebox-lvbs-crng-seed-v1"@[i],
        0 <= i < 27 ==> reseed_label()[i] as char == "litebox-lvbs-crng-reseed-v1"@[i],
{
    reveal_strlit("litebox-lvbs-crng-seed-v1");
    reveal_strlit("litebox-lvbs-crng-reseed-v1");
}

/// The first seed of the generator is the hash of its label, the key and the first random bytes, one
/// behind the other.
pub proof fn law_first_seed(prk: Seq<u8>, random: Seq<u8>, input: Seq<u8>)
    requires
        input.len() == 25 + prk.len() + random.len(),
        forall|i: int| 0 <= i < 25 ==> (#[trigger] input[i]) as char
            == "litebox-lvbs-crng-seed-v1"@[i],
        forall|i: int| 0 <= i < prk.len() ==> #[trigger] prk[i] == input[25 + i],
        forall|i: int| 0 <= i < random.len() ==> #[trigger] random[i] == input[25 + prk.len() + i],
    ensures
        first_seed(prk, random) == sha256(input),
{
    let hashed = seed_label() + prk + random;
    lemma_labels(0);
    assert forall|i: int| 0 <= i < input.len() implies #[trigger] hashed[i] == input[i] by {
        if i < 25 {
            lemma_labels(i);
            assert(input[i] as char == seed_label()[i] as char);
        } else if i < 25 + prk.len() {
            assert(hashed[i] == prk[i - 25]);
        } else {
            assert(hashed[i] == random[i - 25 - prk.len()]);
        }
    }
    assert(hashed =~= input);
}

/// A later seed is the hash of its label, new random bytes, the count of reseedings in eight bytes
/// from the lowest up, and bytes of the generator itself, one behind the other.
pub proof fn law_later_seed(random: Seq<u8>, counter: u64, state: Seq<u8>, input: Seq<u8>)
    requires
        input.len() == 27 + random.len() + 8 + state.len(),
        forall|i: int| 0 <= i < 27 ==> (#[trigger] input[i]) as char
            == "litebox-lvbs-crng-reseed-v1"@[i],
        forall|i: int| 0 <= i < random.len() ==> #[trigger] random[i] == input[27 + i],
        forall|i: int| 0 <= i < 8 ==> #[trigger] le_bytes(counter)[i] == input[27 + random.len() + i],
        forall|i: int|
            0 <= i < state.len() ==> #[trigger] state[i] == input[27 + random.len() + 8 + i],
    ensures
        later_seed(random, counter, state) == sha256(input),
{
    let hashed = reseed_label() + random + le_bytes(counter) + state;
    lemma_labels(0);
    assert forall|i: int| 0 <= i < input.len() implies #[trigger] hashed[i] == input[i] by {
        if i < 27 {
            lemma_labels(i);
            assert(input[i] as char == reseed_label()[i] as char);
        } else if i < 27 + random.len() {
            assert(hashed[i] == random[i - 27]);
        } else if i < 27 + random.len() + 8 {
            assert(hashed[i] == le_bytes(counter)[i - 27 - random.len()]);
        } else {
            assert(hashed[i] == state[i - 27 - random.len() - 8]);
        }
    }
    assert(hashed =~= input);
}

/// Eight bytes from the lowest up make up their number.
pub proof fn law_bytes_of_counter(x: u64)
    ensures
        le_bytes(x).len() == 8,
        le_bytes(x)[0] + 0x100 * le_bytes(x)[1] + 0x1_0000 * le_bytes(x)[2] + 0x100_0000
            * le_bytes(x)[3] + 0x1_0000_0000 * le_bytes(x)[4] + 0x100_0000_0000 * le_bytes(x)[5]
            + 0x1_0000_0000_0000 * le_bytes(x)[6] + 0x100_0000_0000_0000 * le_bytes(x)[7] == x,
{
    let y1 = x / 0x100;
    let y2 = x / 0x1_0000;
    let y3 = x / 0x100_0000;
    let y4 = x / 0x1_0000_0000;
    let y5 = x / 0x100_0000_0000;
    let y6 = x / 0x1_0000_0000_0000;
    let y7 = x / 0x100_0000_0000_0000;
    assert(y2 == y1 / 0x100 && y3 == y2 / 0x100 && y4 == y3 / 0x100 && y5 == y4 / 0x100 && y6 == y5
        / 0x100 && y7 == y6 / 0x100 && y7 < 0x100) by (bit_vector)
        requires
            y1 == x / 0x100,
            y2 == x / 0x1_0000,
            y3 == x / 0x100_0000,
            y4 == x / 0x1_0000_0000,
            y5 == x / 0x100_0000_0000,
            y6 == x / 0x1_0000_0000_0000,
            y7 == x / 0x100_0000_0000_0000,
    ;
    assert(x == x % 0x100 + 0x100 * y1);
    assert(y1 == y1 % 0x100 + 0x100 * y2);
    assert(y2 == y2 % 0x100 + 0x100 * y3);
    assert(y3 == y3 % 0x100 + 0x100 * y4);
    assert(y4 == y4 % 0x100 + 0x100 * y5);
    assert(y5 == y5 % 0x100 + 0x100 * y6);
    assert(y6 == y6 % 0x100 + 0x100 * y7);
    assert(y7 % 0x100 == y7);
}

/// Up to the next reseeding the generator gives the bytes of its stream from where it stands, and
/// moves on by whole words.
pub proof fn law_bytes_of_stream(model: CrngModel, len: int, seeds: Seq<Option<[u8; SEED_LEN]>>)
    requires
        0 < len < model.bytes_until_reseed,
    ensures
        ({
            let given = filled(model, len, seeds);
            &&& given.0 == chacha_bytes(model.seed, 0, model.word_pos, len)
            &&& given.1.seed == model.seed
            &&& given.1.word_pos == (model.word_pos + (len + 3) / 4) % 0x10_0000_0000_0000_0000
            &&& given.1.bytes_until_reseed == model.bytes_until_reseed - len
            &&& given.1.reseed_counter == model.reseed_counter
        }),
{
}

/// With new random bytes the generator starts a new stream, good for a mebibyte, under a seed that
/// also depends on the old stream; without them it keeps its stream and asks again after 64 KiB.
pub proof fn law_reseeding(model: CrngModel, random: Option<[u8; SEED_LEN]>)
    requires
        model.reseed_counter < u64::MAX,
    ensures
        ({
            let next = model.refreshed(random);
            &&& random matches Some(bytes) ==> {
                &&& next.reseed_counter == model.reseed_counter + 1
                &&& next.word_pos == 0
                &&& next.bytes_until_reseed == 0x10_0000
                &&& next.seed == later_seed(
                    bytes@,
                    next.reseed_counter,
                    chacha_bytes(model.seed, 0, model.word_pos, 32),
                )
            }
            &&& random is None ==> {
                &&& next.reseed_counter == model.reseed_counter
                &&& next.word_pos == model.word_pos
                &&& next.seed == model.seed
                &&& next.bytes_until_reseed == 0x1_0000
            }
        }),
{
}

} // verus!
