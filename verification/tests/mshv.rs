//! Registers and messages of the hypervisor.
use litebox::lvbs::mshv::{
    HvGetVpRegistersOutput, HvInputVtl, HvMessageType, HvNestedEnlightenmentsControlFeatures,
    HvNestedEnlightenmentsControlHypercallControls, HvPendingExceptionEvent,
    HvRegisterVsmCodePageOffsets, HvRegisterVsmPartitionConfig, HvRegisterVsmVpSecureVtlConfig,
    HvSynicSint, HvX64SegmentRegister, VsmFunction,
};

#[test]
fn test_hv_input_vtl_bitfield() {
    // Test new_for_vtl constructor
    let vtl = HvInputVtl::new_for_vtl(5);
    assert_eq!(vtl.target_vtl(), 5);
    assert!(vtl.use_target_vtl());

    // Test current constructor
    let current_vtl = HvInputVtl::current();
    assert!(!current_vtl.use_target_vtl());

    // Test individual field manipulation
    let mut vtl = HvInputVtl::new();
    vtl.set_target_vtl(10_u8);
    vtl.set_use_target_vtl(true);
    assert_eq!(vtl.target_vtl(), 10);
    assert!(vtl.use_target_vtl());

    // Test size - should be 1 byte
    assert_eq!(core::mem::size_of::<HvInputVtl>(), 1);

    // Test that VTL values are properly bounded to 4 bits (0-15)
    let vtl = HvInputVtl::new_for_vtl(15);
    assert_eq!(vtl.target_vtl(), 15);

    // Test that Default trait works
    let default_vtl = HvInputVtl::default();
    assert_eq!(default_vtl.target_vtl(), 0);
    assert!(!default_vtl.use_target_vtl());
}

#[test]
fn test_hv_register_vsm_partition_config_bitfield() {
    let mut config = HvRegisterVsmPartitionConfig::new();

    // Test individual boolean flags
    config.set_enable_vtl_protection(true);
    assert!(config.enable_vtl_protection());

    config.set_zero_memory_on_reset(true);
    assert!(config.zero_memory_on_reset());

    config.set_intercept_page(true);
    assert!(config.intercept_page());

    // Test the 4-bit protection mask field
    config.set_default_vtl_protection_mask(0b1010_u8);
    assert_eq!(u64::from(config.default_vtl_protection_mask()), 0b1010);

    // Test size - should be 8 bytes (64 bits)
    assert_eq!(core::mem::size_of::<HvRegisterVsmPartitionConfig>(), 8);

    // Test as_u64 and from_u64 round-trip
    let original = config.as_u64();
    let restored = HvRegisterVsmPartitionConfig::from_u64(original);

    assert!(restored.enable_vtl_protection());
    assert!(restored.zero_memory_on_reset());
    assert!(restored.intercept_page());
    assert_eq!(u64::from(restored.default_vtl_protection_mask()), 0b1010);

    // Test that Default trait works
    let default_config = HvRegisterVsmPartitionConfig::default();
    assert!(!default_config.enable_vtl_protection());
    assert_eq!(default_config.as_u64(), 0);

    // Test chaining builder-style methods (generated by bitfield macro)
    let chained_config = HvRegisterVsmPartitionConfig::new()
        .with_enable_vtl_protection(true)
        .with_intercept_acceptance(true)
        .with_intercept_vp_startup(true);

    assert!(chained_config.enable_vtl_protection());
    assert!(chained_config.intercept_acceptance());
    assert!(chained_config.intercept_vp_startup());
    assert!(!chained_config.zero_memory_on_reset());
}

#[test]
fn test_hv_nested_enlightenments_control_features_bitfield() {
    let mut features = HvNestedEnlightenmentsControlFeatures::new();

    // Test setting direct hypercall flag
    features.set_direct_hypercall(true);
    assert!(features.direct_hypercall());

    // Test direct method
    let mut features2 = HvNestedEnlightenmentsControlFeatures::new();
    features2.set_direct_hypercall(true);
    assert!(features2.direct_hypercall());

    features2.set_direct_hypercall(false);
    assert!(!features2.direct_hypercall());

    // Test size - should be 4 bytes (32 bits)
    assert_eq!(
        core::mem::size_of::<HvNestedEnlightenmentsControlFeatures>(),
        4
    );

    // Test that Default trait works
    let default_features = HvNestedEnlightenmentsControlFeatures::default();
    assert!(!default_features.direct_hypercall());
}

#[test]
fn test_hv_nested_enlightenments_control_hypercall_controls_bitfield() {
    let mut controls = HvNestedEnlightenmentsControlHypercallControls::new();

    // Test setting inter partition comm flag
    controls.set_inter_partition_comm(true);
    assert!(controls.inter_partition_comm());

    // Test direct method
    let mut controls2 = HvNestedEnlightenmentsControlHypercallControls::new();
    controls2.set_inter_partition_comm(true);
    assert!(controls2.inter_partition_comm());

    controls2.set_inter_partition_comm(false);
    assert!(!controls2.inter_partition_comm());

    // Test size - should be 4 bytes (32 bits)
    assert_eq!(
        core::mem::size_of::<HvNestedEnlightenmentsControlHypercallControls>(),
        4
    );

    // Test that Default trait works
    let default_controls = HvNestedEnlightenmentsControlHypercallControls::default();
    assert!(!default_controls.inter_partition_comm());
}

#[test]
fn test_hv_register_vsm_vp_secure_vtl_config_bitfield() {
    let mut config = HvRegisterVsmVpSecureVtlConfig::new();

    // Test individual boolean flags
    config.set_mbec_enabled(true);
    assert!(config.mbec_enabled());

    config.set_tlb_locked(true);
    assert!(config.tlb_locked());

    // Test direct methods
    let mut config2 = HvRegisterVsmVpSecureVtlConfig::new();
    config2.set_mbec_enabled(true);
    assert!(config2.mbec_enabled());

    config2.set_tlb_locked(true);
    assert!(config2.tlb_locked());

    // Test size - should be 8 bytes (64 bits)
    assert_eq!(core::mem::size_of::<HvRegisterVsmVpSecureVtlConfig>(), 8);

    // Test as_u64 method
    let config_u64 = config.as_u64();
    assert_ne!(config_u64, 0); // Should have some bits set

    // Test that Default trait works
    let default_config = HvRegisterVsmVpSecureVtlConfig::default();
    assert!(!default_config.mbec_enabled());
    assert!(!default_config.tlb_locked());
    assert_eq!(default_config.as_u64(), 0);
}

#[test]
fn test_hv_synic_sint_bitfield() {
    let mut sint = HvSynicSint::new();

    // Test vector field (8 bits)
    sint.set_vector(0xf3_u8);
    assert_eq!(sint.vector(), 0xf3);

    // Test boolean flags
    sint.set_masked(true);
    assert!(sint.masked());

    sint.set_auto_eoi(true);
    assert!(sint.auto_eoi());

    sint.set_polling(true);
    assert!(sint.polling());

    // Test direct methods
    let mut sint2 = HvSynicSint::new();
    sint2.set_vector(0xf3_u8);
    assert_eq!(sint2.vector(), 0xf3);

    sint2.set_masked(true);
    assert!(sint2.masked());

    sint2.set_auto_eoi(true);
    assert!(sint2.auto_eoi());

    sint2.set_polling(true);
    assert!(sint2.polling());

    // Test size - should be 8 bytes (64 bits)
    assert_eq!(core::mem::size_of::<HvSynicSint>(), 8);

    // Test as_uint64 method
    let sint_u64 = sint.as_uint64();
    assert_ne!(sint_u64, 0); // Should have some bits set

    // Test that Default trait works
    let default_sint = HvSynicSint::default();
    assert_eq!(default_sint.vector(), 0);
    assert!(!default_sint.masked());
    assert!(!default_sint.auto_eoi());
    assert!(!default_sint.polling());
}

#[test]
fn test_hv_pending_exception_event_bitfield() {
    let mut exception = HvPendingExceptionEvent::new();

    // Test boolean flags
    exception.set_event_pending(true);
    assert!(exception.event_pending());

    exception.set_deliver_error_code(true);
    assert!(exception.deliver_error_code());

    // Test multi-bit fields
    exception.set_event_type(0b101_u8); // 3 bits
    assert_eq!(exception.event_type(), 0b101);

    exception.set_vector(0x1234_u16); // 16 bits
    assert_eq!(exception.vector(), 0x1234);

    exception.set_error_code(0x87654321_u32); // 32 bits
    assert_eq!(exception.error_code(), 0x87654321);

    // Test direct methods
    let mut exception2 = HvPendingExceptionEvent::new();
    exception2.set_event_pending(true);
    assert!(exception2.event_pending());

    exception2.set_deliver_error_code(true);
    assert!(exception2.deliver_error_code());

    exception2.set_event_type(7_u8);
    assert_eq!(exception2.event_type(), 7);

    exception2.set_vector(0xabcd_u16);
    assert_eq!(exception2.vector(), 0xabcd);

    exception2.set_error_code(0x12345678_u32);
    assert_eq!(exception2.error_code(), 0x12345678);

    // Test size - should be 8 bytes (64 bits)
    assert_eq!(core::mem::size_of::<HvPendingExceptionEvent>(), 8);

    // Test as_u64 method
    let exception_u64 = exception.as_u64();
    assert_ne!(exception_u64, 0); // Should have some bits set

    // Test that Default trait works
    let default_exception = HvPendingExceptionEvent::default();
    assert!(!default_exception.event_pending());
    assert!(!default_exception.deliver_error_code());
    assert_eq!(default_exception.event_type(), 0);
    assert_eq!(default_exception.vector(), 0);
    assert_eq!(default_exception.error_code(), 0);
    assert_eq!(default_exception.as_u64(), 0);
}

#[test]
fn fields_stand_at_their_bits() {
    assert_eq!(HvInputVtl::new_for_vtl(5).bits, 0x15);
    assert_eq!(HvInputVtl::current().bits, 0);
    let config = HvRegisterVsmPartitionConfig::new()
        .with_enable_vtl_protection(true)
        .with_default_vtl_protection_mask(0b1010)
        .with_zero_memory_on_reset(true)
        .with_deny_lower_vtl_startup(true);
    assert_eq!(config.as_u64(), 0b111_0101);
    assert_eq!(
        HvRegisterVsmPartitionConfig::new()
            .with_intercept_page(true)
            .as_u64(),
        1 << 12
    );
    assert_eq!(
        HvSynicSint::new()
            .with_vector(0xf3)
            .with_auto_eoi(true)
            .as_uint64(),
        0x2_00f3
    );
    let event = HvPendingExceptionEvent::new()
        .with_event_pending(true)
        .with_event_type(2)
        .with_deliver_error_code(true)
        .with_vector(13)
        .with_error_code(0x12);
    assert_eq!(event.as_u64(), 0x12_000d_0105);
}

#[test]
fn written_field_reads_back_and_others_stay() {
    let all = HvRegisterVsmPartitionConfig::from_u64(u64::MAX);
    let changed = all.with_default_vtl_protection_mask(0b0110);
    assert_eq!(changed.default_vtl_protection_mask(), 0b0110);
    assert_eq!(changed.as_u64(), u64::MAX - 0b1_0010);
    assert!(changed.enable_vtl_protection());
    assert!(changed.zero_memory_on_reset());
}

#[test]
fn code_page_offsets_are_read_from_a_word() {
    let offsets = HvRegisterVsmCodePageOffsets::from_u64(0xff00_0034_5012);
    assert_eq!(offsets.vtl_call_offset(), 0x012);
    assert_eq!(offsets.vtl_return_offset(), 0x345);
}

#[test]
fn register_output_splits_into_words() {
    let output = HvGetVpRegistersOutput {
        low: 0x1111_2222_3333_4444,
        high: 0x5555_6666_7777_8888,
    };
    assert_eq!(output.as64(), (0x1111_2222_3333_4444, 0x5555_6666_7777_8888));
    assert_eq!(
        output.as32(),
        (0x3333_4444, 0x1111_2222, 0x7777_8888, 0x5555_6666)
    );
    assert_eq!(HvGetVpRegistersOutput::new().as64(), (0, 0));
}

#[test]
fn new_segment_is_flat() {
    let mut segment = HvX64SegmentRegister::new();
    assert_eq!(segment.limit, u32::MAX);
    assert_eq!(segment.base, 0);
    segment.set_attributes(0x9b);
    assert_eq!(segment.get_attributes(), 0x9b);
}

#[test]
fn vsm_functions_have_their_numbers() {
    assert_eq!(VsmFunction::try_from_id(0x1_ffe0), Some(VsmFunction::EnableAPsVtl));
    assert_eq!(VsmFunction::try_from_id(0x1_ffeb), Some(VsmFunction::PatchText));
    assert_eq!(
        VsmFunction::try_from_id(0x1_ffed),
        Some(VsmFunction::SetPlatformRootKey)
    );
    assert_eq!(VsmFunction::try_from_id(0x1_fff0), Some(VsmFunction::OpteeMessage));
    assert_eq!(VsmFunction::try_from_id(0x1_ffee), None);
    assert_eq!(VsmFunction::try_from_id(0), None);
}

#[test]
fn message_types_have_their_numbers() {
    assert_eq!(HvMessageType::default(), HvMessageType::NoMessage);
    assert_eq!(HvMessageType::GpaIntercept.to_number(), 0x8000_0001);
    assert_eq!(
        HvMessageType::try_from_number(0x8001_0006),
        Some(HvMessageType::RegisterIntercept)
    );
    assert_eq!(HvMessageType::try_from_number(0xffff_ffff), Some(HvMessageType::Unknown));
    assert_eq!(HvMessageType::try_from_number(7), None);
}
