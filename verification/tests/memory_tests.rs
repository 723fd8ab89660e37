use enclave_gateway::memory::{MemoryRegion, PointerValidator};
use enclave_gateway::error::{ErrorKind, InvalidMemoryAccess};

fn plain_validator() -> PointerValidator {
    PointerValidator::new(MemoryRegion::new(0x1000, 0x1000), MemoryRegion::new(0, 0), false, false)
}

#[test]
fn region_inside_granted_memory_is_accepted() {
    let v = plain_validator();
    let slice = v.validate_readable(0x1800, 0x100).unwrap();
    assert_eq!(slice.start(), 0x1800);
    assert_eq!(slice.len(), 0x100);
    assert!(!slice.is_writable());
    let slice = v.validate_writable(0x1000, 0x1000).unwrap();
    assert_eq!(slice.start(), 0x1000);
    assert_eq!(slice.len(), 0x1000);
    assert!(slice.is_writable());
}

#[test]
fn region_crossing_the_upper_boundary_is_rejected() {
    let v = plain_validator();
    assert_eq!(
        v.validate_readable(0x1f00, 0x101),
        Err(InvalidMemoryAccess { start: 0x1f00, len: 0x101 })
    );
    assert!(v.validate_readable(0x1f00, 0x100).is_ok());
}

#[test]
fn region_starting_below_granted_memory_is_rejected() {
    let v = plain_validator();
    assert!(v.validate_writable(0xfff, 2).is_err());
    assert!(v.validate_readable(0, 8).is_err());
}

#[test]
fn region_overflowing_the_address_space_is_rejected() {
    let v = PointerValidator::new(
        MemoryRegion::new(0, usize::MAX),
        MemoryRegion::new(0, 0),
        false,
        false,
    );
    assert!(v.validate_readable(usize::MAX, 1).is_err());
    assert!(v.validate_readable(usize::MAX - 1, 2).is_err());
    assert!(v.validate_readable(16, usize::MAX).is_err());
    assert!(v.validate_readable(usize::MAX - 1, 1).is_ok());
}

#[test]
fn granted_memory_that_runs_past_the_address_space_bounds_only_from_below() {
    let v = PointerValidator::new(
        MemoryRegion::new(usize::MAX - 15, 64),
        MemoryRegion::new(0, 0),
        false,
        false,
    );
    assert!(v.validate_readable(usize::MAX - 8, 8).is_ok());
    assert!(v.validate_readable(usize::MAX - 16, 8).is_err());
    assert!(v.validate_readable(usize::MAX - 8, 9).is_err());
}

#[test]
fn empty_region_is_rejected_only_where_data_is_required() {
    let lenient = plain_validator();
    assert!(lenient.validate_readable(0x1800, 0).is_ok());
    assert!(lenient.validate_readable(0x2000, 0).is_ok());
    assert!(lenient.validate_readable(0x2001, 0).is_err());
    let strict = PointerValidator::new(
        MemoryRegion::new(0x1000, 0x1000),
        MemoryRegion::new(0, 0),
        false,
        true,
    );
    assert!(strict.validate_readable(0x1800, 0).is_err());
    assert!(strict.validate_writable(0x1800, 0).is_err());
    assert!(strict.validate_readable(0x1800, 1).is_ok());
}

#[test]
fn host_owned_region_must_stay_clear_of_private_memory() {
    let private = MemoryRegion::new(0x1400, 0x100);
    let host = PointerValidator::new(MemoryRegion::new(0x1000, 0x1000), private, true, false);
    assert!(host.validate_readable(0x1300, 0x100).is_ok());
    assert!(host.validate_readable(0x1300, 0x101).is_err());
    assert!(host.validate_readable(0x1450, 0x10).is_err());
    assert!(host.validate_writable(0x14ff, 0x10).is_err());
    assert!(host.validate_writable(0x1500, 0x10).is_ok());
    let enclave = PointerValidator::new(MemoryRegion::new(0x1000, 0x1000), private, false, false);
    assert!(enclave.validate_readable(0x1450, 0x10).is_ok());
}

#[test]
fn region_helpers_agree_with_the_bounds() {
    let outer = MemoryRegion::new(100, 50);
    assert_eq!(outer.checked_end(), Some(150));
    assert_eq!(MemoryRegion::new(usize::MAX, 1).checked_end(), None);
    assert!(MemoryRegion::new(100, 50).is_within(&outer));
    assert!(!MemoryRegion::new(100, 51).is_within(&outer));
    assert!(!MemoryRegion::new(99, 1).is_within(&outer));
    assert!(MemoryRegion::new(149, 10).does_overlap(&outer));
    assert!(!MemoryRegion::new(150, 10).does_overlap(&outer));
    assert!(!MemoryRegion::new(90, 10).does_overlap(&outer));
    assert!(MemoryRegion::new(90, 11).does_overlap(&outer));
}

#[test]
fn refused_region_is_reported_as_a_failed_call() {
    let refused = plain_validator().validate_readable(0, 1).unwrap_err();
    assert_eq!(refused.to_error_kind(), ErrorKind::FailedFunctionCall);
}

#[test]
fn admitted_range_has_an_end() {
    let v = plain_validator();
    assert_eq!(v.validate_readable(0x1800, 0x100).unwrap().end(), 0x1900);
    assert_eq!(v.validate_writable(0x2000, 0).unwrap().end(), 0x2000);
    let top = PointerValidator::new(
        MemoryRegion::new(0, usize::MAX),
        MemoryRegion::new(0, 0),
        false,
        false,
    );
    assert_eq!(top.validate_readable(usize::MAX - 4, 4).unwrap().end(), usize::MAX);
}
