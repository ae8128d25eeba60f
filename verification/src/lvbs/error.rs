//! Errors of the Virtual Secure Mode operations and the error numbers that report them to VTL0.
use vstd::prelude::*;

use crate::errno::Errno;

verus! {

/// A failed hypercall, with the status that the hypervisor returned.
#[derive(Clone, Copy, PartialEq, Eq, Structural, Debug)]
pub struct HypervCallError {
    /// Hypervisor status code.
    pub status: u32,
}

/// A failed signature verification, with the error number that reports it.
#[derive(Clone, Copy, PartialEq, Eq, Structural, Debug)]
pub struct VerificationError {
    /// Error number that reports the failure.
    pub errno: Errno,
}

/// Errors of Virtual Secure Mode (VSM) operations.
#[derive(Clone, Copy, Debug)]
pub enum VsmError {
    BootSignalPageCopyFailed,
    ApInitFailed(HypervCallError),
    BootSignalWriteFailed,
    CpuOnlineMaskCopyFailed,
    CodePageOffsetOverflow,
    OperationAfterEndOfBoot(&'static str),
    InvalidInputAddress,
    AddressNotPageAligned,
    InvalidPhysicalAddress,
    MemoryAttributeInvalid,
    HekiPagesCopyFailed,
    KernelDataTypeInvalid,
    ModuleMemoryTypeInvalid,
    SystemCertificatesNotLoaded,
    SystemCertificatesNotFound,
    SystemCertificatesInvalid,
    CertificateDerLengthInvalid { expected: usize, actual: usize },
    CertificateParseFailed,
    ModuleElfSizeExceeded { size: usize, max: usize },
    ModuleRelocationInvalid,
    ModuleTokenInvalid,
    KernelSymbolTableNotFound,
    KexecTypeInvalid,
    KexecImageSegmentsInvalid,
    KexecSegmentRangeInvalid,
    PrecomputedPatchNotFound,
    TextPatchSuspicious,
    OperationNotSupported(&'static str),
    Vtl0CopyFailed,
    HypercallFailed(HypervCallError),
    SignatureVerificationFailed(VerificationError),
    BufferTooSmall(&'static str),
    InvalidVirtualAddress,
    DiscontiguousMemoryRange,
    SymbolTableEmpty,
    SymbolTableOutOfRange,
    SymbolTableLengthInvalid,
    SymbolParseFailed(usize),
    SymbolNameOffsetInvalid,
    SymbolNameNoTerminator,
    SymbolNameTooLong,
    SymbolNameInvalidUtf8,
}

/// The error number that reports `e`: addresses and copies that fault are `EFAULT`, missing data
/// is `ENOENT`, what is locked after boot is `EPERM`, distrusted data is `EACCES`, sizes out of
/// range are `ERANGE`, failures of the hypervisor are `EIO`, and malformed input is `EINVAL`.
pub open spec fn vsm_errno(e: VsmError) -> Errno {
    if e is InvalidInputAddress || e is InvalidPhysicalAddress || e is InvalidVirtualAddress
        || e is DiscontiguousMemoryRange || e is BootSignalPageCopyFailed
        || e is BootSignalWriteFailed || e is CpuOnlineMaskCopyFailed || e is HekiPagesCopyFailed
        || e is Vtl0CopyFailed {
        Errno::EFAULT
    } else if e is SystemCertificatesNotFound || e is KernelSymbolTableNotFound
        || e is PrecomputedPatchNotFound {
        Errno::ENOENT
    } else if e is OperationAfterEndOfBoot {
        Errno::EPERM
    } else if e is OperationNotSupported {
        Errno::ENOTSUP
    } else if e is TextPatchSuspicious || e is SystemCertificatesInvalid
        || e is SystemCertificatesNotLoaded {
        Errno::EACCES
    } else if e is BufferTooSmall || e is KexecSegmentRangeInvalid || e is ModuleElfSizeExceeded
        || e is CodePageOffsetOverflow || e is SymbolNameTooLong || e is SymbolTableOutOfRange {
        Errno::ERANGE
    } else if e is ApInitFailed || e is HypercallFailed {
        Errno::EIO
    } else if e is SignatureVerificationFailed {
        e->SignatureVerificationFailed_0.errno
    } else {
        Errno::EINVAL
    }
}

impl From<VerificationError> for VsmError {
    fn from(e: VerificationError) -> (r: VsmError) {
        VsmError::SignatureVerificationFailed(e)
    }
}

impl vstd::std_specs::convert::FromSpecImpl<VerificationError> for VsmError {
    open spec fn obeys_from_spec() -> bool {
        true
    }

    open spec fn from_spec(e: VerificationError) -> VsmError {
        VsmError::SignatureVerificationFailed(e)
    }
}

impl From<VsmError> for Errno {
    fn from(e: VsmError) -> (r: Errno) {
        match e {
            VsmError::InvalidInputAddress
            | VsmError::InvalidPhysicalAddress
            | VsmError::InvalidVirtualAddress
            | VsmError::DiscontiguousMemoryRange
            | VsmError::BootSignalPageCopyFailed
            | VsmError::BootSignalWriteFailed
            | VsmError::CpuOnlineMaskCopyFailed
            | VsmError::HekiPagesCopyFailed
            | VsmError::Vtl0CopyFailed => Errno::EFAULT,
            VsmError::SystemCertificatesNotFound
            | VsmError::KernelSymbolTableNotFound
            | VsmError::PrecomputedPatchNotFound => Errno::ENOENT,
            VsmError::OperationAfterEndOfBoot(_) => Errno::EPERM,
            VsmError::OperationNotSupported(_) => Errno::ENOTSUP,
            VsmError::TextPatchSuspicious
            | VsmError::SystemCertificatesInvalid
            | VsmError::SystemCertificatesNotLoaded => Errno::EACCES,
            VsmError::BufferTooSmall(_)
            | VsmError::KexecSegmentRangeInvalid
            | VsmError::ModuleElfSizeExceeded { size: _, max: _ }
            | VsmError::CodePageOffsetOverflow
            | VsmError::SymbolNameTooLong
            | VsmError::SymbolTableOutOfRange => Errno::ERANGE,
            VsmError::ApInitFailed(_) | VsmError::HypercallFailed(_) => Errno::EIO,
            VsmError::AddressNotPageAligned
            | VsmError::MemoryAttributeInvalid
            | VsmError::KernelDataTypeInvalid
            | VsmError::ModuleMemoryTypeInvalid
            | VsmError::ModuleRelocationInvalid
            | VsmError::ModuleTokenInvalid
            | VsmError::KexecTypeInvalid
            | VsmError::KexecImageSegmentsInvalid
            | VsmError::SymbolTableEmpty
            | VsmError::SymbolTableLengthInvalid
            | VsmError::SymbolParseFailed(_)
            | VsmError::SymbolNameOffsetInvalid
            | VsmError::SymbolNameInvalidUtf8
            | VsmError::SymbolNameNoTerminator
            | VsmError::CertificateDerLengthInvalid { expected: _, actual: _ }
            | VsmError::CertificateParseFailed => Errno::EINVAL,
            VsmError::SignatureVerificationFailed(e) => e.errno,
        }
    }
}

impl vstd::std_specs::convert::FromSpecImpl<VsmError> for Errno {
    open spec fn obeys_from_spec() -> bool {
        true
    }

    open spec fn from_spec(e: VsmError) -> Errno {
        vsm_errno(e)
    }
}

/// The value that VTL0 receives for the result of an operation: the value itself, or the negated
/// error number.
pub open spec fn vtl_return_spec(result: Result<i64, VsmError>) -> int {
    match result {
        Ok(value) => value as int,
        Err(e) => -vsm_errno(e).number(),
    }
}

/// The value that VTL0 receives for the result of an operation.
pub fn vtl_return(result: Result<i64, VsmError>) -> (r: i64)
    ensures
        r == vtl_return_spec(result),
{
    match result {
        Ok(value) => value,
        Err(e) => Errno::from(e).as_neg() as i64,
    }
}

} // verus!
