//! What the calls of VTL0 are answered: which are refused, with which numbers, and what the others change.
use vstd::prelude::*;

use crate::errno::Errno;
use crate::lvbs::bootparam::memory_info_ok;
use crate::lvbs::cert::{certs_of, der_certificate};
use crate::lvbs::error::{vtl_return_spec, HypervCallError, VsmError};
use crate::lvbs::heki::HekiRange;
use crate::lvbs::kernel::{delete_result, load_result};
use crate::lvbs::kernel_info::{find_patch, Vtl0KernelInfo};
use crate::lvbs::mshv::{HvMessageType, VsmFunction};
use crate::lvbs::patch::{
    announced, decoded_prefix, patch_source_spec, stored, text_writes, HekiPatch, PatchGroup, PatchModel,
    PatchRecordSizes, PatchSource,
};
use crate::lvbs::text_patch::copy_runs;
use crate::lvbs::vsm::{
    described_outcome, good_ranges, last_failure, lock_regs_error, lock_writes, param_count,
    protect_memory_error, set_root_key_error, vsm_call, ControlRegMap, VsmCall,
};

verus! {

/// The lock watches the writes to the control registers, and pins the protecting bits of CR4 and of
/// CR0, in that order.
pub proof fn law_writes_that_lock(i: int)
    requires
        0 <= i < lock_writes().len(),
    ensures
        lock_writes().len() == 3,
        i == 0 ==> lock_writes()[i].name == 0xe_0000 && lock_writes()[i].value == 0x7f_d543,
        i == 1 ==> lock_writes()[i].name == 0xe_0002 && lock_writes()[i].value == 0xffff_de3f,
        i == 2 ==> lock_writes()[i].name == 0xe_0001 && lock_writes()[i].value == 0x8001_0001,
{
}

/// Saving the control registers keeps each value that was read under the name of its register, and
/// zero for each that could not be read.
pub proof fn law_saved_registers(regs: ControlRegMap, values: Seq<Option<u64>>, i: int)
    requires
        regs.saved(values),
        values.len() == 11,
        0 <= i < 11,
    ensures
        regs.entries@[i].1 == (match values[i] {
            Some(value) => value,
            None => 0,
        }),
        i == 0 ==> regs.entries@[i].0 == 0x4_0000,
        i == 1 ==> regs.entries@[i].0 == 0x4_0003,
        i == 2 ==> regs.entries@[i].0 == 0x8_0009,
        i == 3 ==> regs.entries@[i].0 == 0x8_0008,
        i == 4 ==> regs.entries@[i].0 == 0x8_000a,
        i == 5 ==> regs.entries@[i].0 == 0x8_0003,
        i == 6 ==> regs.entries@[i].0 == 0x8_0001,
        i == 7 ==> regs.entries@[i].0 == 0x8_0005,
        i == 8 ==> regs.entries@[i].0 == 0x8_0007,
        i == 9 ==> regs.entries@[i].0 == 0x8_0006,
        i == 10 ==> regs.entries@[i].0 == 0x8_000b,
{
}

/// Starting the other processors fails if one of them failed to start, with the failure of the last
/// of those.
pub proof fn law_last_failure_is_reported(outcomes: Seq<Result<(), HypervCallError>>, i: int)
    requires
        0 <= i < outcomes.len(),
        outcomes[i] is Err,
        forall|j: int| i < j < outcomes.len() ==> (#[trigger] outcomes[j]) is Ok,
    ensures
        last_failure(outcomes) == Some(outcomes[i]->Err_0),
    decreases outcomes.len(),
{
    if i < outcomes.len() - 1 {
        assert(outcomes.last() is Ok);
        assert(outcomes.drop_last()[i] == outcomes[i]);
        law_last_failure_is_reported(outcomes.drop_last(), i);
    }
}

/// Starting the other processors succeeds if all of them started.
pub proof fn law_no_failure_to_report(outcomes: Seq<Result<(), HypervCallError>>)
    requires
        forall|j: int| 0 <= j < outcomes.len() ==> (#[trigger] outcomes[j]) is Ok,
    ensures
        last_failure(outcomes) is None,
    decreases outcomes.len(),
{
    if outcomes.len() > 0 {
        assert(outcomes.last() is Ok);
        law_no_failure_to_report(outcomes.drop_last());
    }
}

/// Memory is protected before the end of boot only, and only as a list in whole pages of physical
/// memory describes it; registers are locked, and the root key is set, before the end of boot only.
pub proof fn law_when_calls_are_refused(info: Vtl0KernelInfo, pa: u64, nranges: u64)
    ensures
        protect_memory_error(info, pa, nranges) is None <==> pa < 0x10_0000_0000_0000 && pa % 4096
            == 0 && nranges > 0 && !info.boot_done,
        pa >= 0x10_0000_0000_0000 || pa % 4096 != 0 || nranges == 0 ==> protect_memory_error(
            info,
            pa,
            nranges,
        ) == Some(VsmError::InvalidInputAddress),
        pa < 0x10_0000_0000_0000 && pa % 4096 == 0 && nranges > 0 && info.boot_done ==> (
        protect_memory_error(info, pa, nranges) matches Some(e) && e is OperationAfterEndOfBoot),
        lock_regs_error(info) is None <==> !info.boot_done,
        info.boot_done ==> (lock_regs_error(info) matches Some(e) && e is OperationAfterEndOfBoot),
        set_root_key_error(info, pa) is None <==> !info.boot_done && pa < 0x10_0000_0000_0000,
        info.boot_done ==> (set_root_key_error(info, pa) matches Some(e)
            && e is OperationAfterEndOfBoot),
        !info.boot_done && pa >= 0x10_0000_0000_0000 ==> set_root_key_error(info, pa) == Some(
            VsmError::InvalidPhysicalAddress,
        ),
{
}

/// Protecting described memory succeeds, with nothing to report, if every range has an access and
/// whole pages.
pub proof fn law_good_ranges_are_accepted(ranges: Seq<HekiRange>)
    requires
        forall|j: int|
            0 <= j < ranges.len() ==> (#[trigger] ranges[j]).mem_attr is Some && ranges[j].va % 4096
                == 0 && ranges[j].pa % 4096 == 0 && ranges[j].epa % 4096 == 0,
    ensures
        good_ranges(ranges) == ranges.len(),
        described_outcome(ranges) == Ok::<i64, VsmError>(0),
    decreases ranges.len(),
{
    if ranges.len() > 0 {
        let rest = ranges.drop_first();
        assert forall|j: int| 0 <= j < rest.len() implies (#[trigger] rest[j]).mem_attr is Some
            && rest[j].va % 4096 == 0 && rest[j].pa % 4096 == 0 && rest[j].epa % 4096 == 0 by {
            assert(rest[j] == ranges[j + 1]);
        }
        law_good_ranges_are_accepted(rest);
        assert(ranges[0].mem_attr is Some);
    }
}

/// Protecting described memory stops at the first range without an access or without whole pages,
/// and says which of the two it was; the ranges before it are protected.
pub proof fn law_first_bad_range_is_reported(ranges: Seq<HekiRange>, i: int)
    requires
        0 <= i < ranges.len(),
        forall|j: int|
            0 <= j < i ==> (#[trigger] ranges[j]).mem_attr is Some && ranges[j].va % 4096 == 0
                && ranges[j].pa % 4096 == 0 && ranges[j].epa % 4096 == 0,
        ranges[i].mem_attr is None || ranges[i].va % 4096 != 0 || ranges[i].pa % 4096 != 0
            || ranges[i].epa % 4096 != 0,
    ensures
        good_ranges(ranges) == i,
        described_outcome(ranges) == Err::<i64, VsmError>(
            if ranges[i].mem_attr is None {
                VsmError::MemoryAttributeInvalid
            } else {
                VsmError::AddressNotPageAligned
            },
        ),
    decreases i,
{
    if i > 0 {
        let rest = ranges.drop_first();
        assert(rest[i - 1] == ranges[i]);
        assert forall|j: int| 0 <= j < i - 1 implies (#[trigger] rest[j]).mem_attr is Some
            && rest[j].va % 4096 == 0 && rest[j].pa % 4096 == 0 && rest[j].epa % 4096 == 0 by {
            assert(rest[j] == ranges[j + 1]);
        }
        law_first_bad_range_is_reported(rest, i - 1);
        assert(ranges[0].mem_attr is Some);
    }
}

/// Each call has its number, and its arguments are the parameters in their order.
pub proof fn law_calls_have_numbers(call: VsmFunction, params: Seq<u64>)
    ensures
        call.id() == 0x1_ffe0 ==> param_count(call) == 1 && vsm_call(call, params) == (
        VsmCall::EnableAps { cpu_present_mask_pfn: params[0] }),
        call.id() == 0x1_ffe1 ==> param_count(call) == 1 && vsm_call(call, params) == (
        VsmCall::BootAps { cpu_online_mask_pfn: params[0] }),
        call.id() == 0x1_ffe2 ==> param_count(call) == 0 && vsm_call(call, params)
            == VsmCall::LockRegs,
        call.id() == 0x1_ffe3 ==> param_count(call) == 0 && vsm_call(call, params)
            == VsmCall::EndOfBoot,
        call.id() == 0x1_ffe4 ==> param_count(call) == 2 && vsm_call(call, params) == (
        VsmCall::ProtectMemory { pa: params[0], nranges: params[1] }),
        call.id() == 0x1_ffe5 ==> param_count(call) == 2 && vsm_call(call, params) == (
        VsmCall::LoadKdata { pa: params[0], nranges: params[1] }),
        call.id() == 0x1_ffe6 ==> param_count(call) == 3 && vsm_call(call, params) == (
        VsmCall::ValidateGuestModule { pa: params[0], nranges: params[1], flags: params[2] }),
        call.id() == 0x1_ffe7 ==> param_count(call) == 1 && vsm_call(call, params) == (
        VsmCall::FreeGuestModuleInit { token: params[0] as i64 }),
        call.id() == 0x1_ffe8 ==> param_count(call) == 1 && vsm_call(call, params) == (
        VsmCall::UnloadGuestModule { token: params[0] as i64 }),
        call.id() == 0x1_ffe9 ==> param_count(call) == 2 && vsm_call(call, params) == (
        VsmCall::CopySecondaryKey { pa: params[0], nranges: params[1] }),
        call.id() == 0x1_ffea ==> param_count(call) == 3 && vsm_call(call, params) == (
        VsmCall::KexecValidate { pa: params[0], nranges: params[1], crash: params[2] }),
        call.id() == 0x1_ffeb ==> param_count(call) == 2 && vsm_call(call, params) == (
        VsmCall::PatchText { patch_pa_0: params[0], patch_pa_1: params[1] }),
        call.id() == 0x1_ffec ==> param_count(call) == 2 && vsm_call(call, params) == (
        VsmCall::AllocateRingbufferMemory { phys_addr: params[0], size: params[1] }),
        call.id() == 0x1_ffed ==> param_count(call) == 1 && vsm_call(call, params) == (
        VsmCall::SetPlatformRootKey { key_pa: params[0] }),
        call.id() == 0x1_fff0 ==> param_count(call) == 0 && vsm_call(call, params) == (
        VsmCall::Refused { error: Errno::ENOTSUP }),
        0x1_ffe0 <= call.id() <= 0x1_ffed || call.id() == 0x1_fff0,
{
}

/// The messages of the hypervisor have its numbers.
pub proof fn law_messages_have_numbers(message: HvMessageType)
    ensures
        message is NoMessage ==> message.number() == 0,
        message is UnmappedGpa ==> message.number() == 0x8000_0000,
        message is GpaIntercept ==> message.number() == 0x8000_0001,
        message is TimerExpired ==> message.number() == 0x8000_0010,
        message is InvalidVpRegisterValue ==> message.number() == 0x8000_0020,
        message is UnrecoverableException ==> message.number() == 0x8000_0021,
        message is UnsupportedFeature ==> message.number() == 0x8000_0022,
        message is EventLogBufferComplete ==> message.number() == 0x8000_0040,
        message is IoPortIntercept ==> message.number() == 0x8001_0000,
        message is MsrIntercept ==> message.number() == 0x8001_0001,
        message is CpuidIntercept ==> message.number() == 0x8001_0002,
        message is ExceptionIntercept ==> message.number() == 0x8001_0003,
        message is ApicEoi ==> message.number() == 0x8001_0004,
        message is LegacyFpError ==> message.number() == 0x8001_0005,
        message is RegisterIntercept ==> message.number() == 0x8001_0006,
        message is Unknown ==> message.number() == 0xffff_ffff,
{
}

/// A call that succeeds returns its value, and one that fails the negative number of its error.
pub proof fn law_errors_are_returned_as_numbers(result: Result<i64, VsmError>)
    ensures
        result matches Ok(value) ==> vtl_return_spec(result) == value,
        result matches Err(e) ==> {
            let number = vtl_return_spec(result);
            &&& e is InvalidInputAddress || e is InvalidPhysicalAddress || e is InvalidVirtualAddress
                || e is DiscontiguousMemoryRange || e is BootSignalPageCopyFailed
                || e is BootSignalWriteFailed || e is CpuOnlineMaskCopyFailed
                || e is HekiPagesCopyFailed || e is Vtl0CopyFailed ==> number == -14
            &&& e is SystemCertificatesNotFound || e is KernelSymbolTableNotFound
                || e is PrecomputedPatchNotFound ==> number == -2
            &&& e is OperationAfterEndOfBoot ==> number == -1
            &&& e is OperationNotSupported ==> number == -95
            &&& e is TextPatchSuspicious || e is SystemCertificatesInvalid
                || e is SystemCertificatesNotLoaded ==> number == -13
            &&& e is BufferTooSmall || e is KexecSegmentRangeInvalid || e is ModuleElfSizeExceeded
                || e is CodePageOffsetOverflow || e is SymbolNameTooLong
                || e is SymbolTableOutOfRange ==> number == -34
            &&& e is ApInitFailed || e is HypercallFailed ==> number == -5
            &&& e is AddressNotPageAligned || e is MemoryAttributeInvalid
                || e is KernelDataTypeInvalid || e is ModuleMemoryTypeInvalid
                || e is CertificateDerLengthInvalid || e is CertificateParseFailed
                || e is ModuleRelocationInvalid || e is ModuleTokenInvalid || e is KexecTypeInvalid
                || e is KexecImageSegmentsInvalid || e is SymbolTableEmpty
                || e is SymbolTableLengthInvalid || e is SymbolParseFailed
                || e is SymbolNameOffsetInvalid || e is SymbolNameNoTerminator
                || e is SymbolNameInvalidUtf8 ==> number == -22
            &&& e matches VsmError::SignatureVerificationFailed(why) ==> number
                == -why.errno.number()
        },
        result matches Err(e) ==> vtl_return_spec(result) < 0,
{
}

/// Memory that the boot loader describes is whole pages, not at address zero.
pub proof fn law_boot_memory_is_pages(start: u64, size: u64)
    ensures
        memory_info_ok(start, size) <==> start != 0 && size != 0 && start % 4096 == 0 && size % 4096
            == 0,
{
}

/// Task page tables are loaded and deleted by their number; the base page table is neither loaded
/// nor deleted so, and the one in use is not deleted.
pub proof fn law_page_table_calls(tables: Set<u64>, id: u64, current: u64)
    ensures
        load_result(tables, id) is Ok <==> id != 0 && tables.contains(id),
        load_result(tables, id) matches Ok(loaded) ==> loaded == id,
        load_result(tables, id) matches Err(e) ==> e.number() == if id == 0 {
            22int
        } else {
            2
        },
        delete_result(tables, id, current) is Ok <==> id != 0 && id != current && tables.contains(
            id,
        ),
        delete_result(tables, id, current) matches Err(e) ==> e.number() == if id == 0 {
            22int
        } else if id == current {
            16
        } else {
            2
        },
{
}

/// The parts that are certificates, one after the other.
pub open spec fn joined(parts: Seq<Seq<u8>>) -> Seq<u8>
    decreases parts.len(),
{
    if parts.len() == 0 {
        Seq::empty()
    } else {
        parts[0] + joined(parts.drop_first())
    }
}

/// Accepted certificates are all that stands in the buffer up to where no certificate begins: each
/// is a DER sequence of the length that its header tells, and parses.
pub proof fn law_certificates_fill_buffer(buf: Seq<u8>)
    requires
        certs_of(buf) is Ok,
    ensures
        ({
            let certs = certs_of(buf)->Ok_0;
            let rest = buf.skip(joined(certs).len() as int);
            &&& joined(certs).len() <= buf.len()
            &&& buf == joined(certs) + rest
            &&& rest.len() < 4 || rest[0] != 0x30 || rest[1] != 0x82
            &&& forall|i: int|
                0 <= i < certs.len() ==> {
                    let cert = #[trigger] certs[i];
                    &&& cert.len() >= 4 && cert[0] == 0x30 && cert[1] == 0x82
                    &&& cert.len() == cert[2] * 256 + cert[3] + 4
                    &&& der_certificate(cert)
                }
        }),
    decreases buf.len(),
{
    let certs = certs_of(buf)->Ok_0;
    if buf.len() < 4 || buf[0] != 0x30 || buf[1] != 0x82 {
        assert(joined(certs) =~= Seq::empty());
        assert(buf.skip(0) =~= buf);
    } else {
        let len = buf[2] * 256 + buf[3] + 4;
        let first = buf.take(len);
        let more = buf.skip(len);
        law_certificates_fill_buffer(more);
        let others = certs_of(more)->Ok_0;
        assert(certs == seq![first] + others);
        assert(certs.drop_first() =~= others);
        assert(certs[0] == first);
        assert(joined(certs) == first + joined(others));
        assert(buf.skip(joined(certs).len() as int) =~= more.skip(joined(others).len() as int));
        assert(buf =~= first + more);
        assert(first + (joined(others) + more.skip(joined(others).len() as int)) =~= joined(certs)
            + more.skip(joined(others).len() as int));
        assert forall|i: int| 0 <= i < certs.len() implies {
            let cert = #[trigger] certs[i];
            &&& cert.len() >= 4 && cert[0] == 0x30 && cert[1] == 0x82
            &&& cert.len() == cert[2] * 256 + cert[3] + 4
            &&& der_certificate(cert)
        } by {
            if i > 0 {
                assert(certs[i] == others[i - 1]);
            }
        }
    }
}

/// A sound certificate is accepted in front of others. One that is cut off or does not parse is refused,
/// and with it all that follow.
pub proof fn law_sound_certificates_are_accepted(cert: Seq<u8>, more: Seq<u8>)
    requires
        cert.len() >= 4,
        cert[0] == 0x30,
        cert[1] == 0x82,
        cert.len() + more.len() <= usize::MAX,
    ensures
        ({
            let told = cert[2] * 256 + cert[3] + 4;
            let all = certs_of(cert + more);
            &&& told == cert.len() && der_certificate(cert) ==> match certs_of(more) {
                Ok(others) => all == Ok::<Seq<Seq<u8>>, VsmError>(seq![cert] + others),
                Err(e) => all == Err::<Seq<Seq<u8>>, VsmError>(e),
            }
            &&& told == cert.len() && !der_certificate(cert) ==> all == Err::<
                Seq<Seq<u8>>,
                VsmError,
            >(VsmError::CertificateParseFailed)
            &&& told > cert.len() + more.len() ==> all == Err::<Seq<Seq<u8>>, VsmError>(
                VsmError::CertificateDerLengthInvalid {
                    expected: told as usize,
                    actual: (cert.len() + more.len()) as usize,
                },
            )
        }),
        more.len() < 4 || more[0] != 0x30 || more[1] != 0x82 ==> certs_of(more) == Ok::<
            Seq<Seq<u8>>,
            VsmError,
        >(Seq::empty()),
{
    let buf = cert + more;
    assert(buf[0] == cert[0] && buf[1] == cert[1] && buf[2] == cert[2] && buf[3] == cert[3]);
    assert(buf.take(cert.len() as int) =~= cert);
    assert(buf.skip(cert.len() as int) =~= more);
}

/// A patch that was announced is found by its own address. One that is split behind its first byte
/// is found by the address of the second part too.
pub proof fn law_announced_patch_is_found(
    map: Map<u64, PatchModel>,
    patch: PatchModel,
    pa_0: u64,
    pa_1: u64,
)
    requires
        patch.well_formed(),
        patch.pa_0 != patch.pa_1,
    ensures
        find_patch(stored(map, patch), patch.pa_0, pa_1) == Some(patch),
        patch.pa_1 != 0 && (patch.pa_0 + 1) % 4096 == 0 ==> find_patch(
            stored(map, patch),
            patch.pa_1,
            pa_1,
        ) == Some(patch),
        pa_0 == patch.pa_0 + 1 && !stored(map, patch).dom().contains(pa_0) ==> find_patch(
            stored(map, patch),
            pa_0,
            pa_1,
        ) == Some(patch),
        pa_0 > 0 && !map.dom().contains(pa_0) && !map.dom().contains((pa_0 - 1) as u64)
            && !map.dom().contains(pa_1) ==> find_patch(map, pa_0, pa_1) is None,
        forall|key: u64|
            key != patch.pa_0 && !(key == patch.pa_1 && patch.pa_1 != 0 && (patch.pa_0 + 1) % 4096
                == 0) ==> (#[trigger] stored(map, patch).dom().contains(key) <==> map.dom().contains(
                key,
            )) && stored(map, patch)[key] == map[key],
{
}

/// A patch is copied from its one address, or from the rest of one page and the beginning of
/// another: as many bytes as a patch has, none of the first run behind the end of its page. What
/// names no such place is refused.
pub proof fn law_patches_are_copied_whole(pa_0: u64, pa_1: u64, size: u64)
    requires
        0 < size <= 4096,
    ensures
        ({
            let room = 4096 - pa_0 % 4096;
            let source = patch_source_spec(pa_0, pa_1, size);
            &&& pa_0 >= 0x10_0000_0000_0000 || pa_1 >= 0x10_0000_0000_0000 ==> source == Err::<
                PatchSource,
                VsmError,
            >(VsmError::InvalidPhysicalAddress)
            &&& source is Ok <==> {
                &&& 0 < pa_0 < 0x10_0000_0000_0000
                &&& pa_1 < 0x10_0000_0000_0000
                &&& pa_1 % 4096 == 0
                &&& pa_0 != pa_1
                &&& if pa_1 == 0 {
                    size <= room
                } else {
                    room < size
                }
            }
            &&& source matches Err(e) ==> e is InvalidPhysicalAddress || e is InvalidInputAddress
            &&& source matches Ok(from) ==> {
                let runs = copy_runs(from, size);
                &&& runs.0.pa == pa_0
                &&& runs.1 is None ==> runs.0.len == size && (pa_1 == 0 || pa_1 == pa_0 + room)
                &&& runs.1 matches Some(second) ==> {
                    &&& pa_1 != pa_0 + room
                    &&& runs.0.len == room
                    &&& second.pa == pa_1
                    &&& second.len == size - room
                }
            }
        }),
{
}

/// Code is written where the patch tells: in one write, unless its second part stands in a page that
/// does not follow; then up to the end of the first page, and the rest there.
pub proof fn law_code_is_written_in_its_pages(patch: PatchModel)
    requires
        patch.writable(),
        patch.code.len() <= usize::MAX,
    ensures
        ({
            let writes = text_writes(patch);
            let room = 4096 - patch.pa_0 % 4096;
            let one = patch.pa_1 == 0 || patch.pa_1 / 4096 == (patch.pa_0 + 4095) / 4096;
            &&& writes.len() == if one {
                1int
            } else {
                2
            }
            &&& writes[0].pa == patch.pa_0
            &&& writes[0].from == 0
            &&& one ==> writes[0].to == patch.code.len()
            &&& !one ==> {
                &&& writes[0].to == room
                &&& writes[1].pa == patch.pa_1
                &&& writes[1].from == room
                &&& writes[1].to == patch.code.len()
            }
        }),
{
}

/// The patches that all could be read are the patches, one for one.
proof fn lemma_all_decoded(patches: Seq<Option<HekiPatch>>)
    requires
        forall|i: int| 0 <= i < patches.len() ==> (#[trigger] patches[i]) is Some,
    ensures
        decoded_prefix(patches).len() == patches.len(),
        forall|i: int|
            0 <= i < patches.len() ==> #[trigger] decoded_prefix(patches)[i] == patches[i]->Some_0@,
    decreases patches.len(),
{
    if patches.len() > 0 {
        let rest = patches.drop_first();
        assert forall|i: int| 0 <= i < rest.len() implies (#[trigger] rest[i]) is Some by {
            assert(rest[i] == patches[i + 1]);
        }
        lemma_all_decoded(rest);
        assert(patches[0] is Some);
        assert forall|i: int| 0 <= i < patches.len() implies #[trigger] decoded_prefix(patches)[i]
            == patches[i]->Some_0@ by {
            if i > 0 {
                assert(decoded_prefix(patches)[i] == decoded_prefix(rest)[i - 1]);
                assert(rest[i - 1] == patches[i]);
            }
        }
    }
}

/// Data without room for another header announce nothing more, and neither does the lack of groups.
pub proof fn law_announcements_end(
    len: int,
    sizes: PatchRecordSizes,
    groups: Seq<PatchGroup>,
    index: int,
)
    requires
        groups.len() == 0 || index + sizes.info > len,
    ensures
        announced(len, sizes, groups, index).0.len() == 0,
        announced(len, sizes, groups, index).1 is None,
{
}

/// Patches of several groups are announced one after the other: first those of the first group, and
/// behind them those that the rest of the data announces.
pub proof fn law_groups_are_announced_in_order(
    len: int,
    sizes: PatchRecordSizes,
    groups: Seq<PatchGroup>,
    index: int,
)
    requires
        groups.len() > 0,
        index + sizes.info <= len,
    ensures
        ({
            let all = announced(len, sizes, groups, index);
            let group = groups[0];
            let end = index + sizes.info + sizes.patch * group.patch_index;
            &&& end > len ==> all.0.len() == 0 && all.1 is Some
            &&& end <= len && (forall|i: int|
                0 <= i < group.patches@.len() ==> (#[trigger] group.patches@[i]) is Some) ==> {
                let rest = announced(len, sizes, groups.drop_first(), end);
                &&& all.0.len() == group.patches@.len() + rest.0.len()
                &&& forall|i: int|
                    0 <= i < group.patches@.len() ==> #[trigger] all.0[i]
                        == group.patches@[i]->Some_0@
                &&& forall|i: int|
                    0 <= i < rest.0.len() ==> #[trigger] rest.0[i] == all.0[group.patches@.len() + i]
                &&& all.1 == rest.1
            }
        }),
{
    let group = groups[0];
    if forall|i: int| 0 <= i < group.patches@.len() ==> (#[trigger] group.patches@[i]) is Some {
        lemma_all_decoded(group.patches@);
    }
}

} // verus!
