//! Hyper-V interface: constants, register layouts and message types.
use vstd::prelude::*;

verus! {

pub const HV_HYPERCALL_REP_COMP_MASK: u64 = 0xfff_0000_0000;

pub const HV_HYPERCALL_REP_COMP_OFFSET: u32 = 32;

pub const HV_HYPERCALL_REP_START_MASK: u64 = 0xfff_0000_0000_0000;

pub const HV_HYPERCALL_REP_START_OFFSET: u32 = 48;

pub const HV_HYPERCALL_RESULT_MASK: u16 = 0xffff;

pub const HV_HYPERCALL_VARHEAD_OFFSET: u64 = 17;

pub const HV_REGISTER_VP_INDEX: u32 = 0x4000_0002;

pub const HV_STATUS_SUCCESS: u32 = 0;

pub const HV_STATUS_INVALID_HYPERCALL_CODE: u32 = 2;

pub const HV_STATUS_INVALID_HYPERCALL_INPUT: u32 = 3;

pub const HV_STATUS_INVALID_ALIGNMENT: u32 = 4;

pub const HV_STATUS_INVALID_PARAMETER: u32 = 5;

pub const HV_STATUS_ACCESS_DENIED: u32 = 6;

pub const HV_STATUS_OPERATION_DENIED: u32 = 8;

pub const HV_STATUS_INSUFFICIENT_MEMORY: u32 = 11;

pub const HV_STATUS_INVALID_PORT_ID: u32 = 17;

pub const HV_STATUS_INVALID_CONNECTION_ID: u32 = 18;

pub const HV_STATUS_INSUFFICIENT_BUFFERS: u32 = 19;

pub const HV_STATUS_TIME_OUT: u32 = 120;

pub const HV_STATUS_VTL_ALREADY_ENABLED: u32 = 134;

pub const HV_X64_MSR_GUEST_OS_ID: u32 = 0x4000_0000;

pub const HV_X64_MSR_HYPERCALL: u32 = 0x4000_0001;

pub const HV_X64_MSR_HYPERCALL_ENABLE: u32 = 0x0000_0001;

pub const HV_X64_MSR_VP_ASSIST_PAGE: u32 = 0x4000_0073;

pub const HV_X64_MSR_VP_ASSIST_PAGE_ENABLE: u64 = 0x0000_0001;

pub const HV_X64_MSR_SCONTROL: u32 = 0x4000_0080;

pub const HV_X64_MSR_SCONTROL_ENABLE: u32 = 0x0000_0001;

pub const HV_X64_MSR_SIEFP: u32 = 0x4000_0082;

pub const HV_X64_MSR_SIEFP_ENABLE: u32 = 0x0000_0001;

pub const HV_X64_MSR_SIMP: u32 = 0x4000_0083;

pub const HV_X64_MSR_SIMP_ENABLE: u32 = 0x0000_0001;

pub const HV_X64_MSR_SINT0: u32 = 0x4000_0090;

pub const HYPERVISOR_CALLBACK_VECTOR: u8 = 0xf3;

pub const HYPERV_CPUID_VENDOR_AND_MAX_FUNCTIONS: u32 = 0x4000_0000;

pub const HYPERV_CPUID_INTERFACE: u32 = 0x4000_0001;

pub const HYPERV_CPUID_IMPLEMENT_LIMITS: u32 = 0x4000_0005;

pub const HYPERV_HYPERVISOR_PRESENT_BIT: u32 = 0x8000_0000;

pub const HV_PARTITION_ID_SELF: u64 = 0xffff_ffff_ffff_ffff;

pub const HV_VP_INDEX_SELF: u32 = 0xffff_fffe;

pub const HV_VTL_NORMAL: u8 = 0x0;

pub const HV_VTL_SECURE: u8 = 0x1;

pub const HV_VTL_MGMT: u8 = 0x2;

pub const VTL_ENTRY_REASON_RESERVED: u32 = 0x0;

pub const VTL_ENTRY_REASON_LOWER_VTL_CALL: u32 = 0x1;

pub const VTL_ENTRY_REASON_INTERRUPT: u32 = 0x2;

pub const HVCALL_FLUSH_VIRTUAL_ADDRESS_SPACE_EX: u16 = 0x0013;

pub const HVCALL_FLUSH_VIRTUAL_ADDRESS_LIST_EX: u16 = 0x0014;

pub const HVCALL_MODIFY_VTL_PROTECTION_MASK: u16 = 0x000c;

pub const HVCALL_ENABLE_VP_VTL: u16 = 0x000f;

pub const HVCALL_GET_VP_REGISTERS: u16 = 0x0050;

pub const HVCALL_SET_VP_REGISTERS: u16 = 0x0051;

pub const HV_FLUSH_ALL_PROCESSORS: u64 = 0x1;

pub const HV_FLUSH_ALL_VIRTUAL_ADDRESS_SPACES: u64 = 0x2;

pub const HV_FLUSH_NON_GLOBAL_MAPPINGS_ONLY: u64 = 0x4;

pub const HV_X64_REGISTER_RIP: u32 = 0x0002_0010;

pub const HV_X64_REGISTER_CR0: u32 = 0x0004_0000;

pub const HV_X64_REGISTER_CR4: u32 = 0x0004_0003;

pub const HV_X64_REGISTER_LDTR: u32 = 0x0006_0006;

pub const HV_X64_REGISTER_TR: u32 = 0x0006_0007;

pub const HV_X64_REGISTER_IDTR: u32 = 0x0007_0000;

pub const HV_X64_REGISTER_GDTR: u32 = 0x0007_0001;

pub const HV_X64_REGISTER_EFER: u32 = 0x0008_0001;

pub const HV_X64_REGISTER_APIC_BASE: u32 = 0x0008_0003;

pub const HV_X64_REGISTER_SYSENTER_CS: u32 = 0x0008_0005;

pub const HV_X64_REGISTER_SYSENTER_EIP: u32 = 0x0008_0006;

pub const HV_X64_REGISTER_SYSENTER_ESP: u32 = 0x0008_0007;

pub const HV_X64_REGISTER_STAR: u32 = 0x0008_0008;

pub const HV_X64_REGISTER_LSTAR: u32 = 0x0008_0009;

pub const HV_X64_REGISTER_CSTAR: u32 = 0x0008_000a;

pub const HV_X64_REGISTER_SFMASK: u32 = 0x0008_000b;

pub const HV_X64_REGISTER_VSM_VP_STATUS: u32 = 0x000d_0003;

pub const HV_REGISTER_VSM_CODEPAGE_OFFSETS: u32 = 0x000d_0002;

pub const HV_REGISTER_VSM_PARTITION_STATUS: u32 = 0x000d_0004;

pub const HV_REGISTER_VSM_PARTITION_CONFIG: u32 = 0x000d_0007;

pub const HV_REGISTER_VSM_VP_SECURE_CONFIG_VTL0: u32 = 0x000d_0010;

pub const HV_REGISTER_CR_INTERCEPT_CONTROL: u32 = 0x000e_0000;

pub const HV_REGISTER_CR_INTERCEPT_CR0_MASK: u32 = 0x000e_0001;

pub const HV_REGISTER_CR_INTERCEPT_CR4_MASK: u32 = 0x000e_0002;

pub const HV_REGISTER_PENDING_EVENT0: u32 = 0x0001_0004;

/// VTL call parameters: a function identifier and three parameters.
pub const NUM_VTLCALL_PARAMS: usize = 4;

pub const VSM_VTL_CALL_FUNC_ID_ENABLE_APS_VTL: u32 = 0x1_ffe0;

pub const VSM_VTL_CALL_FUNC_ID_BOOT_APS: u32 = 0x1_ffe1;

pub const VSM_VTL_CALL_FUNC_ID_LOCK_REGS: u32 = 0x1_ffe2;

pub const VSM_VTL_CALL_FUNC_ID_SIGNAL_END_OF_BOOT: u32 = 0x1_ffe3;

pub const VSM_VTL_CALL_FUNC_ID_PROTECT_MEMORY: u32 = 0x1_ffe4;

pub const VSM_VTL_CALL_FUNC_ID_LOAD_KDATA: u32 = 0x1_ffe5;

pub const VSM_VTL_CALL_FUNC_ID_VALIDATE_MODULE: u32 = 0x1_ffe6;

pub const VSM_VTL_CALL_FUNC_ID_FREE_MODULE_INIT: u32 = 0x1_ffe7;

pub const VSM_VTL_CALL_FUNC_ID_UNLOAD_MODULE: u32 = 0x1_ffe8;

pub const VSM_VTL_CALL_FUNC_ID_COPY_SECONDARY_KEY: u32 = 0x1_ffe9;

pub const VSM_VTL_CALL_FUNC_ID_KEXEC_VALIDATE: u32 = 0x1_ffea;

pub const VSM_VTL_CALL_FUNC_ID_PATCH_TEXT: u32 = 0x1_ffeb;

pub const VSM_VTL_CALL_FUNC_ID_ALLOCATE_RINGBUFFER_MEMORY: u32 = 0x1_ffec;

pub const VSM_VTL_CALL_FUNC_ID_SET_PLATFORM_ROOT_KEY: u32 = 0x1_ffed;

pub const VSM_VTL_CALL_FUNC_ID_OPTEE_MESSAGE: u32 = 0x1_fff0;

pub const MSR_EFER: u32 = 0xc000_0080;

pub const MSR_STAR: u32 = 0xc000_0081;

pub const MSR_LSTAR: u32 = 0xc000_0082;

pub const MSR_CSTAR: u32 = 0xc000_0083;

pub const MSR_SYSCALL_MASK: u32 = 0x0000_0084;

pub const MSR_IA32_APICBASE: u32 = 0x1b;

pub const MSR_IA32_SYSENTER_CS: u32 = 0x0000_0174;

pub const MSR_IA32_SYSENTER_ESP: u32 = 0x0000_0175;

pub const MSR_IA32_SYSENTER_EIP: u32 = 0x0000_0176;

pub const DEFAULT_REG_PIN_MASK: u64 = 0xffff_ffff_ffff_ffff;

pub const HV_GENERIC_SET_SPARSE_4K: u64 = 0;

/// Most guest pages that one request to change a protection mask can name: what fits in one page
/// behind a header of two 64-bit words.
pub const HV_MODIFY_MAX_PAGES: usize = 510;

/// The field of `raw` that `mask` selects after a shift right by `shift`.
pub open spec fn bits_of(raw: u64, shift: u64, mask: u64) -> u64 {
    (raw >> shift) & mask
}

/// `raw` with that field replaced by `value`.
pub open spec fn with_bits(raw: u64, shift: u64, mask: u64, value: u64) -> u64 {
    (raw & !(mask << shift)) | (value << shift)
}

/// 1 for a set flag, 0 for a cleared one.
pub open spec fn flag_bit(b: bool) -> u64 {
    if b {
        1
    } else {
        0
    }
}

/// A field reads back as it was written, for every value that its mask admits.
pub proof fn law_field_reads_back(raw: u64, shift: u64, mask: u64, value: u64)
    requires
        shift < 64,
        value & mask == value,
        (mask << shift) >> shift == mask,
    ensures
        bits_of(with_bits(raw, shift, mask, value), shift, mask) == value,
{
    assert(((((raw & !(mask << shift)) | (value << shift)) >> shift) & mask) == value) by (bit_vector)
        requires
            shift < 64,
            value & mask == value,
            (mask << shift) >> shift == mask,
    ;
}

/// So does a field of a register of one byte, if it lies in the byte.
pub proof fn law_byte_field_reads_back(raw: u8, shift: u64, mask: u64, value: u64)
    requires
        shift < 8,
        mask << shift <= 0xff,
        value & mask == value,
        (mask << shift) >> shift == mask,
    ensures
        bits_of((with_bits(raw as u64, shift, mask, value) as u8) as u64, shift, mask) == value,
{
    assert(((((((raw as u64) & !(mask << shift)) | (value << shift)) as u8) as u64 >> shift) & mask)
        == value) by (bit_vector)
        requires
            shift < 8,
            mask << shift <= 0xff,
            value & mask == value,
            (mask << shift) >> shift == mask,
    ;
}

/// So does a field of a register of four bytes, if it lies in them.
pub proof fn law_word_field_reads_back(raw: u32, shift: u64, mask: u64, value: u64)
    requires
        shift < 32,
        mask << shift <= 0xffff_ffff,
        value & mask == value,
        (mask << shift) >> shift == mask,
    ensures
        bits_of((with_bits(raw as u64, shift, mask, value) as u32) as u64, shift, mask) == value,
{
    assert(((((((raw as u64) & !(mask << shift)) | (value << shift)) as u32) as u64 >> shift)
        & mask) == value) by (bit_vector)
        requires
            shift < 32,
            mask << shift <= 0xffff_ffff,
            value & mask == value,
            (mask << shift) >> shift == mask,
    ;
}

/// Masking before a shift selects the same field as masking after it.
proof fn lemma_mask_before_shift(raw: u64, shift: u64, mask: u64)
    requires
        shift < 64,
        (mask << shift) >> shift == mask,
    ensures
        bits_of(raw, shift, mask) == (raw & (mask << shift)) >> shift,
{
    assert((raw >> shift) & mask == (raw & (mask << shift)) >> shift) by (bit_vector)
        requires
            shift < 64,
            (mask << shift) >> shift == mask,
    ;
}

/// Writing a field leaves every field that shares no bit with it as it was.
pub proof fn law_other_field_kept(
    raw: u64,
    shift: u64,
    mask: u64,
    value: u64,
    other_shift: u64,
    other_mask: u64,
)
    requires
        shift < 64,
        other_shift < 64,
        value & mask == value,
        (mask << shift) & (other_mask << other_shift) == 0,
        (other_mask << other_shift) >> other_shift == other_mask,
    ensures
        bits_of(with_bits(raw, shift, mask, value), other_shift, other_mask) == bits_of(
            raw,
            other_shift,
            other_mask,
        ),
{
    let field: u64 = mask << shift;
    let other: u64 = other_mask << other_shift;
    let placed: u64 = value << shift;
    assert((value << shift) & (mask << shift) == value << shift) by (bit_vector)
        requires
            value & mask == value,
    ;
    assert(((raw & !field) | placed) & other == raw & other) by (bit_vector)
        requires
            placed & field == placed,
            field & other == 0,
    ;
    lemma_mask_before_shift(with_bits(raw, shift, mask, value), other_shift, other_mask);
    lemma_mask_before_shift(raw, other_shift, other_mask);
}

/// The field of `raw` that `mask` selects after a shift right by `shift`.
fn get_bits(raw: u64, shift: u64, mask: u64) -> (r: u64)
    requires
        shift < 64,
    ensures
        r == bits_of(raw, shift, mask),
        r <= mask,
{
    let r: u64 = (raw >> shift) & mask;
    assert((raw >> shift) & mask <= mask) by (bit_vector);
    r
}

/// `raw` with that field replaced by `value`.
fn put_bits(raw: u64, shift: u64, mask: u64, value: u64) -> (r: u64)
    requires
        shift < 64,
    ensures
        r == with_bits(raw, shift, mask, value),
{
    (raw & !(mask << shift)) | (value << shift)
}

/// 1 for a set flag, 0 for a cleared one.
fn flag_value(b: bool) -> (r: u64)
    ensures
        r == flag_bit(b),
{
    if b {
        1
    } else {
        0
    }
}

/// The trust level that a hypercall works on.
#[derive(Clone, Copy, PartialEq, Eq, Structural, Debug)]
pub struct HvInputVtl {
    /// The bits of the register.
    pub bits: u8,
}

impl Default for HvInputVtl {
    fn default() -> (r: Self)
        ensures
            r.bits == 0,
    {
        HvInputVtl { bits: 0 }
    }
}

impl HvInputVtl {
    /// The register with no bit set.
    pub fn new() -> (r: Self)
        ensures
            r.bits == 0,
    {
        HvInputVtl { bits: 0 }
    }

    /// Field "target vtl".
    pub fn target_vtl(&self) -> (r: u8)
        ensures
            r == bits_of(self.bits as u64, 0, 0xf),
    {
        get_bits(self.bits as u64, 0, 0xf) as u8
    }

    /// Sets field "target vtl".
    pub fn set_target_vtl(&mut self, value: u8)
        requires
            value <= 0xf,
        ensures
            final(self).bits == with_bits(old(self).bits as u64, 0, 0xf, value as u64) as u8,
    {
        self.bits = put_bits(self.bits as u64, 0, 0xf, value as u64) as u8;
    }

    /// The register with field "target vtl" set to `value`.
    pub fn with_target_vtl(self, value: u8) -> (r: Self)
        requires
            value <= 0xf,
        ensures
            r.bits == with_bits(self.bits as u64, 0, 0xf, value as u64) as u8,
    {
        let mut r = self;
        r.set_target_vtl(value);
        r
    }

    /// Flag "use target vtl".
    pub fn use_target_vtl(&self) -> (r: bool)
        ensures
            r == (bits_of(self.bits as u64, 4, 1) == 1),
    {
        get_bits(self.bits as u64, 4, 1) == 1
    }

    /// Sets flag "use target vtl".
    pub fn set_use_target_vtl(&mut self, value: bool)
        ensures
            final(self).bits == with_bits(old(self).bits as u64, 4, 1, flag_bit(value)) as u8,
    {
        self.bits = put_bits(self.bits as u64, 4, 1, flag_value(value)) as u8;
    }

    /// The register with flag "use target vtl" set to `value`.
    pub fn with_use_target_vtl(self, value: bool) -> (r: Self)
        ensures
            r.bits == with_bits(self.bits as u64, 4, 1, flag_bit(value)) as u8,
    {
        let mut r = self;
        r.set_use_target_vtl(value);
        r
    }

    /// Names the trust level `target_vtl` (0 to 15).
    pub fn new_for_vtl(target_vtl: u8) -> (r: Self)
        requires
            target_vtl <= 15,
        ensures
            r.bits == target_vtl + 16,
    {
        let r = HvInputVtl::new().with_target_vtl(target_vtl).with_use_target_vtl(true);
        assert(((((((0u64 & !(0xfu64 << 0u64)) | ((target_vtl as u64) << 0u64)) as u8) as u64) & !(1u64
            << 4u64)) | (1u64 << 4u64)) as u8 == target_vtl + 16) by (bit_vector)
            requires
                target_vtl <= 15,
        ;
        r
    }

    /// Names the trust level that the caller runs at.
    pub fn current() -> (r: Self)
        ensures
            r.bits == 0,
    {
        let r = HvInputVtl::new().with_use_target_vtl(false);
        assert(((0u64 & !(1u64 << 4u64)) | (0u64 << 4u64)) as u8 == 0) by (bit_vector);
        r
    }
}

/// Features of nested enlightenments.
#[derive(Clone, Copy, PartialEq, Eq, Structural, Debug)]
pub struct HvNestedEnlightenmentsControlFeatures {
    /// The bits of the register.
    pub bits: u32,
}

impl Default for HvNestedEnlightenmentsControlFeatures {
    fn default() -> (r: Self)
        ensures
            r.bits == 0,
    {
        HvNestedEnlightenmentsControlFeatures { bits: 0 }
    }
}

impl HvNestedEnlightenmentsControlFeatures {
    /// The register with no bit set.
    pub fn new() -> (r: Self)
        ensures
            r.bits == 0,
    {
        HvNestedEnlightenmentsControlFeatures { bits: 0 }
    }

    /// Flag "direct hypercall".
    pub fn direct_hypercall(&self) -> (r: bool)
        ensures
            r == (bits_of(self.bits as u64, 0, 1) == 1),
    {
        get_bits(self.bits as u64, 0, 1) == 1
    }

    /// Sets flag "direct hypercall".
    pub fn set_direct_hypercall(&mut self, value: bool)
        ensures
            final(self).bits == with_bits(old(self).bits as u64, 0, 1, flag_bit(value)) as u32,
    {
        self.bits = put_bits(self.bits as u64, 0, 1, flag_value(value)) as u32;
    }

    /// The register with flag "direct hypercall" set to `value`.
    pub fn with_direct_hypercall(self, value: bool) -> (r: Self)
        ensures
            r.bits == with_bits(self.bits as u64, 0, 1, flag_bit(value)) as u32,
    {
        let mut r = self;
        r.set_direct_hypercall(value);
        r
    }
}

/// Hypercall controls of nested enlightenments.
#[derive(Clone, Copy, PartialEq, Eq, Structural, Debug)]
pub struct HvNestedEnlightenmentsControlHypercallControls {
    /// The bits of the register.
    pub bits: u32,
}

impl Default for HvNestedEnlightenmentsControlHypercallControls {
    fn default() -> (r: Self)
        ensures
            r.bits == 0,
    {
        HvNestedEnlightenmentsControlHypercallControls { bits: 0 }
    }
}

impl HvNestedEnlightenmentsControlHypercallControls {
    /// The register with no bit set.
    pub fn new() -> (r: Self)
        ensures
            r.bits == 0,
    {
        HvNestedEnlightenmentsControlHypercallControls { bits: 0 }
    }

    /// Flag "inter partition comm".
    pub fn inter_partition_comm(&self) -> (r: bool)
        ensures
            r == (bits_of(self.bits as u64, 0, 1) == 1),
    {
        get_bits(self.bits as u64, 0, 1) == 1
    }

    /// Sets flag "inter partition comm".
    pub fn set_inter_partition_comm(&mut self, value: bool)
        ensures
            final(self).bits == with_bits(old(self).bits as u64, 0, 1, flag_bit(value)) as u32,
    {
        self.bits = put_bits(self.bits as u64, 0, 1, flag_value(value)) as u32;
    }

    /// The register with flag "inter partition comm" set to `value`.
    pub fn with_inter_partition_comm(self, value: bool) -> (r: Self)
        ensures
            r.bits == with_bits(self.bits as u64, 0, 1, flag_bit(value)) as u32,
    {
        let mut r = self;
        r.set_inter_partition_comm(value);
        r
    }
}

/// Register with the security configuration of a lower trust level.
#[derive(Clone, Copy, PartialEq, Eq, Structural, Debug)]
pub struct HvRegisterVsmVpSecureVtlConfig {
    /// The bits of the register.
    pub bits: u64,
}

impl Default for HvRegisterVsmVpSecureVtlConfig {
    fn default() -> (r: Self)
        ensures
            r.bits == 0,
    {
        HvRegisterVsmVpSecureVtlConfig { bits: 0 }
    }
}

impl HvRegisterVsmVpSecureVtlConfig {
    /// The register with no bit set.
    pub fn new() -> (r: Self)
        ensures
            r.bits == 0,
    {
        HvRegisterVsmVpSecureVtlConfig { bits: 0 }
    }

    /// Flag "mbec enabled".
    pub fn mbec_enabled(&self) -> (r: bool)
        ensures
            r == (bits_of(self.bits, 0, 1) == 1),
    {
        get_bits(self.bits, 0, 1) == 1
    }

    /// Sets flag "mbec enabled".
    pub fn set_mbec_enabled(&mut self, value: bool)
        ensures
            final(self).bits == with_bits(old(self).bits, 0, 1, flag_bit(value)),
    {
        self.bits = put_bits(self.bits, 0, 1, flag_value(value));
    }

    /// The register with flag "mbec enabled" set to `value`.
    pub fn with_mbec_enabled(self, value: bool) -> (r: Self)
        ensures
            r.bits == with_bits(self.bits, 0, 1, flag_bit(value)),
    {
        let mut r = self;
        r.set_mbec_enabled(value);
        r
    }

    /// Flag "tlb locked".
    pub fn tlb_locked(&self) -> (r: bool)
        ensures
            r == (bits_of(self.bits, 1, 1) == 1),
    {
        get_bits(self.bits, 1, 1) == 1
    }

    /// Sets flag "tlb locked".
    pub fn set_tlb_locked(&mut self, value: bool)
        ensures
            final(self).bits == with_bits(old(self).bits, 1, 1, flag_bit(value)),
    {
        self.bits = put_bits(self.bits, 1, 1, flag_value(value));
    }

    /// The register with flag "tlb locked" set to `value`.
    pub fn with_tlb_locked(self, value: bool) -> (r: Self)
        ensures
            r.bits == with_bits(self.bits, 1, 1, flag_bit(value)),
    {
        let mut r = self;
        r.set_tlb_locked(value);
        r
    }

    /// The bits of the register.
    pub fn as_u64(&self) -> (r: u64)
        ensures
            r == self.bits,
    {
        self.bits
    }
}

/// Register with the VSM configuration of the partition.
#[derive(Clone, Copy, PartialEq, Eq, Structural, Debug)]
pub struct HvRegisterVsmPartitionConfig {
    /// The bits of the register.
    pub bits: u64,
}

impl Default for HvRegisterVsmPartitionConfig {
    fn default() -> (r: Self)
        ensures
            r.bits == 0,
    {
        HvRegisterVsmPartitionConfig { bits: 0 }
    }
}

impl HvRegisterVsmPartitionConfig {
    /// The register with no bit set.
    pub fn new() -> (r: Self)
        ensures
            r.bits == 0,
    {
        HvRegisterVsmPartitionConfig { bits: 0 }
    }

    /// Flag "enable vtl protection".
    pub fn enable_vtl_protection(&self) -> (r: bool)
        ensures
            r == (bits_of(self.bits, 0, 1) == 1),
    {
        get_bits(self.bits, 0, 1) == 1
    }

    /// Sets flag "enable vtl protection".
    pub fn set_enable_vtl_protection(&mut self, value: bool)
        ensures
            final(self).bits == with_bits(old(self).bits, 0, 1, flag_bit(value)),
    {
        self.bits = put_bits(self.bits, 0, 1, flag_value(value));
    }

    /// The register with flag "enable vtl protection" set to `value`.
    pub fn with_enable_vtl_protection(self, value: bool) -> (r: Self)
        ensures
            r.bits == with_bits(self.bits, 0, 1, flag_bit(value)),
    {
        let mut r = self;
        r.set_enable_vtl_protection(value);
        r
    }

    /// Field "default vtl protection mask".
    pub fn default_vtl_protection_mask(&self) -> (r: u8)
        ensures
            r == bits_of(self.bits, 1, 0xf),
    {
        get_bits(self.bits, 1, 0xf) as u8
    }

    /// Sets field "default vtl protection mask".
    pub fn set_default_vtl_protection_mask(&mut self, value: u8)
        requires
            value <= 0xf,
        ensures
            final(self).bits == with_bits(old(self).bits, 1, 0xf, value as u64),
    {
        self.bits = put_bits(self.bits, 1, 0xf, value as u64);
    }

    /// The register with field "default vtl protection mask" set to `value`.
    pub fn with_default_vtl_protection_mask(self, value: u8) -> (r: Self)
        requires
            value <= 0xf,
        ensures
            r.bits == with_bits(self.bits, 1, 0xf, value as u64),
    {
        let mut r = self;
        r.set_default_vtl_protection_mask(value);
        r
    }

    /// Flag "zero memory on reset".
    pub fn zero_memory_on_reset(&self) -> (r: bool)
        ensures
            r == (bits_of(self.bits, 5, 1) == 1),
    {
        get_bits(self.bits, 5, 1) == 1
    }

    /// Sets flag "zero memory on reset".
    pub fn set_zero_memory_on_reset(&mut self, value: bool)
        ensures
            final(self).bits == with_bits(old(self).bits, 5, 1, flag_bit(value)),
    {
        self.bits = put_bits(self.bits, 5, 1, flag_value(value));
    }

    /// The register with flag "zero memory on reset" set to `value`.
    pub fn with_zero_memory_on_reset(self, value: bool) -> (r: Self)
        ensures
            r.bits == with_bits(self.bits, 5, 1, flag_bit(value)),
    {
        let mut r = self;
        r.set_zero_memory_on_reset(value);
        r
    }

    /// Flag "deny lower vtl startup".
    pub fn deny_lower_vtl_startup(&self) -> (r: bool)
        ensures
            r == (bits_of(self.bits, 6, 1) == 1),
    {
        get_bits(self.bits, 6, 1) == 1
    }

    /// Sets flag "deny lower vtl startup".
    pub fn set_deny_lower_vtl_startup(&mut self, value: bool)
        ensures
            final(self).bits == with_bits(old(self).bits, 6, 1, flag_bit(value)),
    {
        self.bits = put_bits(self.bits, 6, 1, flag_value(value));
    }

    /// The register with flag "deny lower vtl startup" set to `value`.
    pub fn with_deny_lower_vtl_startup(self, value: bool) -> (r: Self)
        ensures
            r.bits == with_bits(self.bits, 6, 1, flag_bit(value)),
    {
        let mut r = self;
        r.set_deny_lower_vtl_startup(value);
        r
    }

    /// Flag "intercept acceptance".
    pub fn intercept_acceptance(&self) -> (r: bool)
        ensures
            r == (bits_of(self.bits, 7, 1) == 1),
    {
        get_bits(self.bits, 7, 1) == 1
    }

    /// Sets flag "intercept acceptance".
    pub fn set_intercept_acceptance(&mut self, value: bool)
        ensures
            final(self).bits == with_bits(old(self).bits, 7, 1, flag_bit(value)),
    {
        self.bits = put_bits(self.bits, 7, 1, flag_value(value));
    }

    /// The register with flag "intercept acceptance" set to `value`.
    pub fn with_intercept_acceptance(self, value: bool) -> (r: Self)
        ensures
            r.bits == with_bits(self.bits, 7, 1, flag_bit(value)),
    {
        let mut r = self;
        r.set_intercept_acceptance(value);
        r
    }

    /// Flag "intercept enable vtl protection".
    pub fn intercept_enable_vtl_protection(&self) -> (r: bool)
        ensures
            r == (bits_of(self.bits, 8, 1) == 1),
    {
        get_bits(self.bits, 8, 1) == 1
    }

    /// Sets flag "intercept enable vtl protection".
    pub fn set_intercept_enable_vtl_protection(&mut self, value: bool)
        ensures
            final(self).bits == with_bits(old(self).bits, 8, 1, flag_bit(value)),
    {
        self.bits = put_bits(self.bits, 8, 1, flag_value(value));
    }

    /// The register with flag "intercept enable vtl protection" set to `value`.
    pub fn with_intercept_enable_vtl_protection(self, value: bool) -> (r: Self)
        ensures
            r.bits == with_bits(self.bits, 8, 1, flag_bit(value)),
    {
        let mut r = self;
        r.set_intercept_enable_vtl_protection(value);
        r
    }

    /// Flag "intercept vp startup".
    pub fn intercept_vp_startup(&self) -> (r: bool)
        ensures
            r == (bits_of(self.bits, 9, 1) == 1),
    {
        get_bits(self.bits, 9, 1) == 1
    }

    /// Sets flag "intercept vp startup".
    pub fn set_intercept_vp_startup(&mut self, value: bool)
        ensures
            final(self).bits == with_bits(old(self).bits, 9, 1, flag_bit(value)),
    {
        self.bits = put_bits(self.bits, 9, 1, flag_value(value));
    }

    /// The register with flag "intercept vp startup" set to `value`.
    pub fn with_intercept_vp_startup(self, value: bool) -> (r: Self)
        ensures
            r.bits == with_bits(self.bits, 9, 1, flag_bit(value)),
    {
        let mut r = self;
        r.set_intercept_vp_startup(value);
        r
    }

    /// Flag "intercept cpuid unimplemented".
    pub fn intercept_cpuid_unimplemented(&self) -> (r: bool)
        ensures
            r == (bits_of(self.bits, 10, 1) == 1),
    {
        get_bits(self.bits, 10, 1) == 1
    }

    /// Sets flag "intercept cpuid unimplemented".
    pub fn set_intercept_cpuid_unimplemented(&mut self, value: bool)
        ensures
            final(self).bits == with_bits(old(self).bits, 10, 1, flag_bit(value)),
    {
        self.bits = put_bits(self.bits, 10, 1, flag_value(value));
    }

    /// The register with flag "intercept cpuid unimplemented" set to `value`.
    pub fn with_intercept_cpuid_unimplemented(self, value: bool) -> (r: Self)
        ensures
            r.bits == with_bits(self.bits, 10, 1, flag_bit(value)),
    {
        let mut r = self;
        r.set_intercept_cpuid_unimplemented(value);
        r
    }

    /// Flag "intercept unrecoverable exception".
    pub fn intercept_unrecoverable_exception(&self) -> (r: bool)
        ensures
            r == (bits_of(self.bits, 11, 1) == 1),
    {
        get_bits(self.bits, 11, 1) == 1
    }

    /// Sets flag "intercept unrecoverable exception".
    pub fn set_intercept_unrecoverable_exception(&mut self, value: bool)
        ensures
            final(self).bits == with_bits(old(self).bits, 11, 1, flag_bit(value)),
    {
        self.bits = put_bits(self.bits, 11, 1, flag_value(value));
    }

    /// The register with flag "intercept unrecoverable exception" set to `value`.
    pub fn with_intercept_unrecoverable_exception(self, value: bool) -> (r: Self)
        ensures
            r.bits == with_bits(self.bits, 11, 1, flag_bit(value)),
    {
        let mut r = self;
        r.set_intercept_unrecoverable_exception(value);
        r
    }

    /// Flag "intercept page".
    pub fn intercept_page(&self) -> (r: bool)
        ensures
            r == (bits_of(self.bits, 12, 1) == 1),
    {
        get_bits(self.bits, 12, 1) == 1
    }

    /// Sets flag "intercept page".
    pub fn set_intercept_page(&mut self, value: bool)
        ensures
            final(self).bits == with_bits(old(self).bits, 12, 1, flag_bit(value)),
    {
        self.bits = put_bits(self.bits, 12, 1, flag_value(value));
    }

    /// The register with flag "intercept page" set to `value`.
    pub fn with_intercept_page(self, value: bool) -> (r: Self)
        ensures
            r.bits == with_bits(self.bits, 12, 1, flag_bit(value)),
    {
        let mut r = self;
        r.set_intercept_page(value);
        r
    }

    /// The bits of the register.
    pub fn as_u64(&self) -> (r: u64)
        ensures
            r == self.bits,
    {
        self.bits
    }

    /// The register with the bits of `value`.
    pub fn from_u64(value: u64) -> (r: Self)
        ensures
            r.bits == value,
    {
        HvRegisterVsmPartitionConfig { bits: value }
    }
}

/// Register with the offsets of the trust level switches in the hypercall page.
#[derive(Clone, Copy, PartialEq, Eq, Structural, Debug)]
pub struct HvRegisterVsmCodePageOffsets {
    /// The bits of the register.
    pub bits: u64,
}

impl Default for HvRegisterVsmCodePageOffsets {
    fn default() -> (r: Self)
        ensures
            r.bits == 0,
    {
        HvRegisterVsmCodePageOffsets { bits: 0 }
    }
}

impl HvRegisterVsmCodePageOffsets {
    /// The register with no bit set.
    pub fn new() -> (r: Self)
        ensures
            r.bits == 0,
    {
        HvRegisterVsmCodePageOffsets { bits: 0 }
    }

    /// Field "vtl call offset".
    pub fn vtl_call_offset(&self) -> (r: u16)
        ensures
            r == bits_of(self.bits, 0, 0xfff),
    {
        get_bits(self.bits, 0, 0xfff) as u16
    }

    /// Sets field "vtl call offset".
    pub fn set_vtl_call_offset(&mut self, value: u16)
        requires
            value <= 0xfff,
        ensures
            final(self).bits == with_bits(old(self).bits, 0, 0xfff, value as u64),
    {
        self.bits = put_bits(self.bits, 0, 0xfff, value as u64);
    }

    /// The register with field "vtl call offset" set to `value`.
    pub fn with_vtl_call_offset(self, value: u16) -> (r: Self)
        requires
            value <= 0xfff,
        ensures
            r.bits == with_bits(self.bits, 0, 0xfff, value as u64),
    {
        let mut r = self;
        r.set_vtl_call_offset(value);
        r
    }

    /// Field "vtl return offset".
    pub fn vtl_return_offset(&self) -> (r: u16)
        ensures
            r == bits_of(self.bits, 12, 0xfff),
    {
        get_bits(self.bits, 12, 0xfff) as u16
    }

    /// Sets field "vtl return offset".
    pub fn set_vtl_return_offset(&mut self, value: u16)
        requires
            value <= 0xfff,
        ensures
            final(self).bits == with_bits(old(self).bits, 12, 0xfff, value as u64),
    {
        self.bits = put_bits(self.bits, 12, 0xfff, value as u64);
    }

    /// The register with field "vtl return offset" set to `value`.
    pub fn with_vtl_return_offset(self, value: u16) -> (r: Self)
        requires
            value <= 0xfff,
        ensures
            r.bits == with_bits(self.bits, 12, 0xfff, value as u64),
    {
        let mut r = self;
        r.set_vtl_return_offset(value);
        r
    }

    /// The register with the bits of `value`.
    pub fn from_u64(value: u64) -> (r: Self)
        ensures
            r.bits == value,
    {
        HvRegisterVsmCodePageOffsets { bits: value }
    }
}

/// Register of a synthetic interrupt source.
#[derive(Clone, Copy, PartialEq, Eq, Structural, Debug)]
pub struct HvSynicSint {
    /// The bits of the register.
    pub bits: u64,
}

impl Default for HvSynicSint {
    fn default() -> (r: Self)
        ensures
            r.bits == 0,
    {
        HvSynicSint { bits: 0 }
    }
}

impl HvSynicSint {
    /// The register with no bit set.
    pub fn new() -> (r: Self)
        ensures
            r.bits == 0,
    {
        HvSynicSint { bits: 0 }
    }

    /// Field "vector".
    pub fn vector(&self) -> (r: u8)
        ensures
            r == bits_of(self.bits, 0, 0xff),
    {
        get_bits(self.bits, 0, 0xff) as u8
    }

    /// Sets field "vector".
    pub fn set_vector(&mut self, value: u8)
        ensures
            final(self).bits == with_bits(old(self).bits, 0, 0xff, value as u64),
    {
        self.bits = put_bits(self.bits, 0, 0xff, value as u64);
    }

    /// The register with field "vector" set to `value`.
    pub fn with_vector(self, value: u8) -> (r: Self)
        ensures
            r.bits == with_bits(self.bits, 0, 0xff, value as u64),
    {
        let mut r = self;
        r.set_vector(value);
        r
    }

    /// Flag "masked".
    pub fn masked(&self) -> (r: bool)
        ensures
            r == (bits_of(self.bits, 16, 1) == 1),
    {
        get_bits(self.bits, 16, 1) == 1
    }

    /// Sets flag "masked".
    pub fn set_masked(&mut self, value: bool)
        ensures
            final(self).bits == with_bits(old(self).bits, 16, 1, flag_bit(value)),
    {
        self.bits = put_bits(self.bits, 16, 1, flag_value(value));
    }

    /// The register with flag "masked" set to `value`.
    pub fn with_masked(self, value: bool) -> (r: Self)
        ensures
            r.bits == with_bits(self.bits, 16, 1, flag_bit(value)),
    {
        let mut r = self;
        r.set_masked(value);
        r
    }

    /// Flag "auto eoi".
    pub fn auto_eoi(&self) -> (r: bool)
        ensures
            r == (bits_of(self.bits, 17, 1) == 1),
    {
        get_bits(self.bits, 17, 1) == 1
    }

    /// Sets flag "auto eoi".
    pub fn set_auto_eoi(&mut self, value: bool)
        ensures
            final(self).bits == with_bits(old(self).bits, 17, 1, flag_bit(value)),
    {
        self.bits = put_bits(self.bits, 17, 1, flag_value(value));
    }

    /// The register with flag "auto eoi" set to `value`.
    pub fn with_auto_eoi(self, value: bool) -> (r: Self)
        ensures
            r.bits == with_bits(self.bits, 17, 1, flag_bit(value)),
    {
        let mut r = self;
        r.set_auto_eoi(value);
        r
    }

    /// Flag "polling".
    pub fn polling(&self) -> (r: bool)
        ensures
            r == (bits_of(self.bits, 18, 1) == 1),
    {
        get_bits(self.bits, 18, 1) == 1
    }

    /// Sets flag "polling".
    pub fn set_polling(&mut self, value: bool)
        ensures
            final(self).bits == with_bits(old(self).bits, 18, 1, flag_bit(value)),
    {
        self.bits = put_bits(self.bits, 18, 1, flag_value(value));
    }

    /// The register with flag "polling" set to `value`.
    pub fn with_polling(self, value: bool) -> (r: Self)
        ensures
            r.bits == with_bits(self.bits, 18, 1, flag_bit(value)),
    {
        let mut r = self;
        r.set_polling(value);
        r
    }

    /// The bits of the register.
    pub fn as_uint64(&self) -> (r: u64)
        ensures
            r == self.bits,
    {
        self.bits
    }
}

/// Register with the exception that is pending on a processor.
#[derive(Clone, Copy, PartialEq, Eq, Structural, Debug)]
pub struct HvPendingExceptionEvent {
    /// The bits of the register.
    pub bits: u64,
}

impl Default for HvPendingExceptionEvent {
    fn default() -> (r: Self)
        ensures
            r.bits == 0,
    {
        HvPendingExceptionEvent { bits: 0 }
    }
}

impl HvPendingExceptionEvent {
    /// The register with no bit set.
    pub fn new() -> (r: Self)
        ensures
            r.bits == 0,
    {
        HvPendingExceptionEvent { bits: 0 }
    }

    /// Flag "event pending".
    pub fn event_pending(&self) -> (r: bool)
        ensures
            r == (bits_of(self.bits, 0, 1) == 1),
    {
        get_bits(self.bits, 0, 1) == 1
    }

    /// Sets flag "event pending".
    pub fn set_event_pending(&mut self, value: bool)
        ensures
            final(self).bits == with_bits(old(self).bits, 0, 1, flag_bit(value)),
    {
        self.bits = put_bits(self.bits, 0, 1, flag_value(value));
    }

    /// The register with flag "event pending" set to `value`.
    pub fn with_event_pending(self, value: bool) -> (r: Self)
        ensures
            r.bits == with_bits(self.bits, 0, 1, flag_bit(value)),
    {
        let mut r = self;
        r.set_event_pending(value);
        r
    }

    /// Field "event type".
    pub fn event_type(&self) -> (r: u8)
        ensures
            r == bits_of(self.bits, 1, 0x7),
    {
        get_bits(self.bits, 1, 0x7) as u8
    }

    /// Sets field "event type".
    pub fn set_event_type(&mut self, value: u8)
        requires
            value <= 0x7,
        ensures
            final(self).bits == with_bits(old(self).bits, 1, 0x7, value as u64),
    {
        self.bits = put_bits(self.bits, 1, 0x7, value as u64);
    }

    /// The register with field "event type" set to `value`.
    pub fn with_event_type(self, value: u8) -> (r: Self)
        requires
            value <= 0x7,
        ensures
            r.bits == with_bits(self.bits, 1, 0x7, value as u64),
    {
        let mut r = self;
        r.set_event_type(value);
        r
    }

    /// Flag "deliver error code".
    pub fn deliver_error_code(&self) -> (r: bool)
        ensures
            r == (bits_of(self.bits, 8, 1) == 1),
    {
        get_bits(self.bits, 8, 1) == 1
    }

    /// Sets flag "deliver error code".
    pub fn set_deliver_error_code(&mut self, value: bool)
        ensures
            final(self).bits == with_bits(old(self).bits, 8, 1, flag_bit(value)),
    {
        self.bits = put_bits(self.bits, 8, 1, flag_value(value));
    }

    /// The register with flag "deliver error code" set to `value`.
    pub fn with_deliver_error_code(self, value: bool) -> (r: Self)
        ensures
            r.bits == with_bits(self.bits, 8, 1, flag_bit(value)),
    {
        let mut r = self;
        r.set_deliver_error_code(value);
        r
    }

    /// Field "vector".
    pub fn vector(&self) -> (r: u16)
        ensures
            r == bits_of(self.bits, 16, 0xffff),
    {
        get_bits(self.bits, 16, 0xffff) as u16
    }

    /// Sets field "vector".
    pub fn set_vector(&mut self, value: u16)
        ensures
            final(self).bits == with_bits(old(self).bits, 16, 0xffff, value as u64),
    {
        self.bits = put_bits(self.bits, 16, 0xffff, value as u64);
    }

    /// The register with field "vector" set to `value`.
    pub fn with_vector(self, value: u16) -> (r: Self)
        ensures
            r.bits == with_bits(self.bits, 16, 0xffff, value as u64),
    {
        let mut r = self;
        r.set_vector(value);
        r
    }

    /// Field "error code".
    pub fn error_code(&self) -> (r: u32)
        ensures
            r == bits_of(self.bits, 32, 0xffffffff),
    {
        get_bits(self.bits, 32, 0xffffffff) as u32
    }

    /// Sets field "error code".
    pub fn set_error_code(&mut self, value: u32)
        ensures
            final(self).bits == with_bits(old(self).bits, 32, 0xffffffff, value as u64),
    {
        self.bits = put_bits(self.bits, 32, 0xffffffff, value as u64);
    }

    /// The register with field "error code" set to `value`.
    pub fn with_error_code(self, value: u32) -> (r: Self)
        ensures
            r.bits == with_bits(self.bits, 32, 0xffffffff, value as u64),
    {
        let mut r = self;
        r.set_error_code(value);
        r
    }

    /// The bits of the register.
    pub fn as_u64(&self) -> (r: u64)
        ensures
            r == self.bits,
    {
        self.bits
    }
}

/// Functions that VTL0 can call.
#[derive(Clone, Copy, PartialEq, Eq, Structural, Debug)]
pub enum VsmFunction {
    EnableAPsVtl,
    BootAPs,
    LockRegs,
    SignalEndOfBoot,
    ProtectMemory,
    LoadKData,
    ValidateModule,
    FreeModuleInit,
    UnloadModule,
    CopySecondaryKey,
    KexecValidate,
    PatchText,
    OpteeMessage,
    AllocateRingbufferMemory,
    SetPlatformRootKey,
}

impl VsmFunction {
    /// The identifier of the function in a VTL call.
    pub open spec fn id(self) -> u32 {
        match self {
            VsmFunction::EnableAPsVtl => VSM_VTL_CALL_FUNC_ID_ENABLE_APS_VTL,
            VsmFunction::BootAPs => VSM_VTL_CALL_FUNC_ID_BOOT_APS,
            VsmFunction::LockRegs => VSM_VTL_CALL_FUNC_ID_LOCK_REGS,
            VsmFunction::SignalEndOfBoot => VSM_VTL_CALL_FUNC_ID_SIGNAL_END_OF_BOOT,
            VsmFunction::ProtectMemory => VSM_VTL_CALL_FUNC_ID_PROTECT_MEMORY,
            VsmFunction::LoadKData => VSM_VTL_CALL_FUNC_ID_LOAD_KDATA,
            VsmFunction::ValidateModule => VSM_VTL_CALL_FUNC_ID_VALIDATE_MODULE,
            VsmFunction::FreeModuleInit => VSM_VTL_CALL_FUNC_ID_FREE_MODULE_INIT,
            VsmFunction::UnloadModule => VSM_VTL_CALL_FUNC_ID_UNLOAD_MODULE,
            VsmFunction::CopySecondaryKey => VSM_VTL_CALL_FUNC_ID_COPY_SECONDARY_KEY,
            VsmFunction::KexecValidate => VSM_VTL_CALL_FUNC_ID_KEXEC_VALIDATE,
            VsmFunction::PatchText => VSM_VTL_CALL_FUNC_ID_PATCH_TEXT,
            VsmFunction::OpteeMessage => VSM_VTL_CALL_FUNC_ID_OPTEE_MESSAGE,
            VsmFunction::AllocateRingbufferMemory => VSM_VTL_CALL_FUNC_ID_ALLOCATE_RINGBUFFER_MEMORY,
            VsmFunction::SetPlatformRootKey => VSM_VTL_CALL_FUNC_ID_SET_PLATFORM_ROOT_KEY,
        }
    }

    /// The function with identifier `id`, if there is one.
    pub fn try_from_id(id: u32) -> (r: Option<VsmFunction>)
        ensures
            match r {
                Some(f) => f.id() == id,
                None => forall|f: VsmFunction| #[trigger] f.id() != id,
            },
    {
        if id == VSM_VTL_CALL_FUNC_ID_ENABLE_APS_VTL {
            Some(VsmFunction::EnableAPsVtl)
        } else if id == VSM_VTL_CALL_FUNC_ID_BOOT_APS {
            Some(VsmFunction::BootAPs)
        } else if id == VSM_VTL_CALL_FUNC_ID_LOCK_REGS {
            Some(VsmFunction::LockRegs)
        } else if id == VSM_VTL_CALL_FUNC_ID_SIGNAL_END_OF_BOOT {
            Some(VsmFunction::SignalEndOfBoot)
        } else if id == VSM_VTL_CALL_FUNC_ID_PROTECT_MEMORY {
            Some(VsmFunction::ProtectMemory)
        } else if id == VSM_VTL_CALL_FUNC_ID_LOAD_KDATA {
            Some(VsmFunction::LoadKData)
        } else if id == VSM_VTL_CALL_FUNC_ID_VALIDATE_MODULE {
            Some(VsmFunction::ValidateModule)
        } else if id == VSM_VTL_CALL_FUNC_ID_FREE_MODULE_INIT {
            Some(VsmFunction::FreeModuleInit)
        } else if id == VSM_VTL_CALL_FUNC_ID_UNLOAD_MODULE {
            Some(VsmFunction::UnloadModule)
        } else if id == VSM_VTL_CALL_FUNC_ID_COPY_SECONDARY_KEY {
            Some(VsmFunction::CopySecondaryKey)
        } else if id == VSM_VTL_CALL_FUNC_ID_KEXEC_VALIDATE {
            Some(VsmFunction::KexecValidate)
        } else if id == VSM_VTL_CALL_FUNC_ID_PATCH_TEXT {
            Some(VsmFunction::PatchText)
        } else if id == VSM_VTL_CALL_FUNC_ID_OPTEE_MESSAGE {
            Some(VsmFunction::OpteeMessage)
        } else if id == VSM_VTL_CALL_FUNC_ID_ALLOCATE_RINGBUFFER_MEMORY {
            Some(VsmFunction::AllocateRingbufferMemory)
        } else if id == VSM_VTL_CALL_FUNC_ID_SET_PLATFORM_ROOT_KEY {
            Some(VsmFunction::SetPlatformRootKey)
        } else {
            None
        }
    }
}

/// Types of messages that the hypervisor sends.
#[derive(Clone, Copy, PartialEq, Eq, Structural, Debug)]
pub enum HvMessageType {
    NoMessage,
    UnmappedGpa,
    GpaIntercept,
    TimerExpired,
    InvalidVpRegisterValue,
    UnrecoverableException,
    UnsupportedFeature,
    EventLogBufferComplete,
    IoPortIntercept,
    MsrIntercept,
    CpuidIntercept,
    ExceptionIntercept,
    ApicEoi,
    LegacyFpError,
    RegisterIntercept,
    Unknown,
}

impl Default for HvMessageType {
    fn default() -> (r: Self)
        ensures
            r == HvMessageType::NoMessage,
    {
        HvMessageType::NoMessage
    }
}

impl HvMessageType {
    /// The number of the type.
    pub open spec fn number(self) -> u32 {
        match self {
            HvMessageType::NoMessage => 0x0,
            HvMessageType::UnmappedGpa => 0x8000_0000,
            HvMessageType::GpaIntercept => 0x8000_0001,
            HvMessageType::TimerExpired => 0x8000_0010,
            HvMessageType::InvalidVpRegisterValue => 0x8000_0020,
            HvMessageType::UnrecoverableException => 0x8000_0021,
            HvMessageType::UnsupportedFeature => 0x8000_0022,
            HvMessageType::EventLogBufferComplete => 0x8000_0040,
            HvMessageType::IoPortIntercept => 0x8001_0000,
            HvMessageType::MsrIntercept => 0x8001_0001,
            HvMessageType::CpuidIntercept => 0x8001_0002,
            HvMessageType::ExceptionIntercept => 0x8001_0003,
            HvMessageType::ApicEoi => 0x8001_0004,
            HvMessageType::LegacyFpError => 0x8001_0005,
            HvMessageType::RegisterIntercept => 0x8001_0006,
            HvMessageType::Unknown => 0xffff_ffff,
        }
    }

    /// The number of the type.
    pub fn to_number(&self) -> (r: u32)
        ensures
            r == self.number(),
    {
        match self {
            HvMessageType::NoMessage => 0x0,
            HvMessageType::UnmappedGpa => 0x8000_0000,
            HvMessageType::GpaIntercept => 0x8000_0001,
            HvMessageType::TimerExpired => 0x8000_0010,
            HvMessageType::InvalidVpRegisterValue => 0x8000_0020,
            HvMessageType::UnrecoverableException => 0x8000_0021,
            HvMessageType::UnsupportedFeature => 0x8000_0022,
            HvMessageType::EventLogBufferComplete => 0x8000_0040,
            HvMessageType::IoPortIntercept => 0x8001_0000,
            HvMessageType::MsrIntercept => 0x8001_0001,
            HvMessageType::CpuidIntercept => 0x8001_0002,
            HvMessageType::ExceptionIntercept => 0x8001_0003,
            HvMessageType::ApicEoi => 0x8001_0004,
            HvMessageType::LegacyFpError => 0x8001_0005,
            HvMessageType::RegisterIntercept => 0x8001_0006,
            HvMessageType::Unknown => 0xffff_ffff,
        }
    }

    /// The type with number `number`, if there is one.
    pub fn try_from_number(number: u32) -> (r: Option<HvMessageType>)
        ensures
            match r {
                Some(t) => t.number() == number,
                None => forall|t: HvMessageType| #[trigger] t.number() != number,
            },
    {
        if number == 0x0 {
            Some(HvMessageType::NoMessage)
        } else if number == 0x8000_0000 {
            Some(HvMessageType::UnmappedGpa)
        } else if number == 0x8000_0001 {
            Some(HvMessageType::GpaIntercept)
        } else if number == 0x8000_0010 {
            Some(HvMessageType::TimerExpired)
        } else if number == 0x8000_0020 {
            Some(HvMessageType::InvalidVpRegisterValue)
        } else if number == 0x8000_0021 {
            Some(HvMessageType::UnrecoverableException)
        } else if number == 0x8000_0022 {
            Some(HvMessageType::UnsupportedFeature)
        } else if number == 0x8000_0040 {
            Some(HvMessageType::EventLogBufferComplete)
        } else if number == 0x8001_0000 {
            Some(HvMessageType::IoPortIntercept)
        } else if number == 0x8001_0001 {
            Some(HvMessageType::MsrIntercept)
        } else if number == 0x8001_0002 {
            Some(HvMessageType::CpuidIntercept)
        } else if number == 0x8001_0003 {
            Some(HvMessageType::ExceptionIntercept)
        } else if number == 0x8001_0004 {
            Some(HvMessageType::ApicEoi)
        } else if number == 0x8001_0005 {
            Some(HvMessageType::LegacyFpError)
        } else if number == 0x8001_0006 {
            Some(HvMessageType::RegisterIntercept)
        } else if number == 0xffff_ffff {
            Some(HvMessageType::Unknown)
        } else {
            None
        }
    }
}

/// Output of a hypercall that reads a register: 128 bits in two words.
#[derive(Clone, Copy, PartialEq, Eq, Structural, Debug)]
pub struct HvGetVpRegistersOutput {
    /// Low word.
    pub low: u64,
    /// High word.
    pub high: u64,
}

impl HvGetVpRegistersOutput {
    /// The output with no bit set.
    pub fn new() -> (r: Self)
        ensures
            r.low == 0,
            r.high == 0,
    {
        HvGetVpRegistersOutput { low: 0, high: 0 }
    }

    /// The two 64-bit words, low word first.
    pub fn as64(&self) -> (r: (u64, u64))
        ensures
            r == (self.low, self.high),
    {
        (self.low, self.high)
    }

    /// The four 32-bit words, lowest word first.
    pub fn as32(&self) -> (r: (u32, u32, u32, u32))
        ensures
            r.0 + 0x1_0000_0000 * r.1 == self.low,
            r.2 + 0x1_0000_0000 * r.3 == self.high,
    {
        (
            (self.low % 0x1_0000_0000) as u32,
            (self.low / 0x1_0000_0000) as u32,
            (self.high % 0x1_0000_0000) as u32,
            (self.high / 0x1_0000_0000) as u32,
        )
    }
}

/// A segment register.
#[derive(Clone, Copy, PartialEq, Eq, Structural, Debug)]
pub struct HvX64SegmentRegister {
    pub base: u64,
    pub limit: u32,
    pub selector: u16,
    pub attributes: u16,
}

impl HvX64SegmentRegister {
    /// A flat segment: the largest limit, everything else zero.
    pub fn new() -> (r: Self)
        ensures
            r == (HvX64SegmentRegister { base: 0, limit: u32::MAX, selector: 0, attributes: 0 }),
    {
        HvX64SegmentRegister { base: 0, limit: 0xffff_ffff, selector: 0, attributes: 0 }
    }

    /// Sets the attributes.
    pub fn set_attributes(&mut self, attrs: u16)
        ensures
            *final(self) == (HvX64SegmentRegister { attributes: attrs, ..*old(self) }),
    {
        self.attributes = attrs;
    }

    /// The attributes.
    pub fn get_attributes(&self) -> (r: u16)
        ensures
            r == self.attributes,
    {
        self.attributes
    }
}

/// Access rights that the hypervisor can grant on a page.
pub const HV_PAGE_ACCESS_NONE: u8 = 0x0;

pub const HV_PAGE_READABLE: u8 = 0x1;

pub const HV_PAGE_WRITABLE: u8 = 0x2;

pub const HV_PAGE_KERNEL_EXECUTABLE: u8 = 0x4;

pub const HV_PAGE_USER_EXECUTABLE: u8 = 0x8;

pub const HV_PAGE_EXECUTABLE: u8 = 0xc;

pub const HV_PAGE_FULL_ACCESS: u8 = 0xf;

/// Pinned bits of CR4: all but machine check, global pages, performance counters and VMX.
pub const CR4_PIN_MASK: u32 = 0xffff_de3f;

/// Pinned bits of CR0: protection, write protection and paging.
pub const CR0_PIN_MASK: u32 = 0x8001_0001;

} // verus!
