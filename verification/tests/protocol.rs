use cobuild_otx::error::CoreError;
use cobuild_otx::protocol::{
    AppendPermissions, SegmentFlags, APPEND_PERMISSION_CELL_DEPS_BIT, APPEND_PERMISSION_HEADER_DEPS_BIT,
    APPEND_PERMISSION_INPUTS_BIT, APPEND_PERMISSION_OUTPUTS_BIT, SEGMENT_FLAG_ALLOW_MORE_AFTER,
    SEGMENT_FLAG_COVERAGE_PREVIOUS,
};

#[test]
fn append_permissions_accept_entity_append_bits() {
    let permissions = AppendPermissions::try_from(0x0f).unwrap();

    assert!(permissions.allows(APPEND_PERMISSION_INPUTS_BIT));
    assert!(permissions.allows(APPEND_PERMISSION_OUTPUTS_BIT));
    assert!(permissions.allows(APPEND_PERMISSION_CELL_DEPS_BIT));
    assert!(permissions.allows(APPEND_PERMISSION_HEADER_DEPS_BIT));
}

#[test]
fn append_permissions_reject_reserved_bits() {
    assert_eq!(AppendPermissions::try_from(0x10), Err(CoreError::InvalidOtxLayout));
    assert_eq!(AppendPermissions::try_from(0x80), Err(CoreError::InvalidOtxLayout));
}

#[test]
fn append_permissions_treat_out_of_range_bits_as_disallowed() {
    let permissions = AppendPermissions::try_from(0x0f).unwrap();

    assert!(!permissions.allows(8));
    assert_eq!(permissions.require_allowed(8, 1), Err(CoreError::InvalidOtxLayout));
}

#[test]
fn segment_flags_accept_defined_bits() {
    let flags = SegmentFlags::try_from(0x03).unwrap();

    assert_eq!(flags.raw(), SEGMENT_FLAG_ALLOW_MORE_AFTER | SEGMENT_FLAG_COVERAGE_PREVIOUS);
    assert!(flags.allow_more_segments_after());
    assert!(flags.coverage_previous_segments());
}

#[test]
fn segment_flags_reject_reserved_bits() {
    assert_eq!(SegmentFlags::try_from(0x04), Err(CoreError::InvalidOtxLayout));
    assert_eq!(SegmentFlags::try_from(0x80), Err(CoreError::InvalidOtxLayout));
}

#[test]
fn permission_with_zero_count_is_always_allowed() {
    let none = AppendPermissions::try_from(0x00).unwrap();
    assert_eq!(none.require_allowed(APPEND_PERMISSION_INPUTS_BIT, 0), Ok(()));
    assert_eq!(none.require_allowed(APPEND_PERMISSION_INPUTS_BIT, 1), Err(CoreError::InvalidOtxLayout));
    let inputs_only = AppendPermissions::try_from(0x01).unwrap();
    assert_eq!(inputs_only.require_allowed(APPEND_PERMISSION_INPUTS_BIT, 3), Ok(()));
    assert!(!inputs_only.allows(APPEND_PERMISSION_OUTPUTS_BIT));
}

#[test]
fn segment_flags_without_bits_close_the_run() {
    let flags = SegmentFlags::try_from(0x00).unwrap();
    assert_eq!(flags.raw(), 0);
    assert!(!flags.allow_more_segments_after());
    assert!(!flags.coverage_previous_segments());
}
