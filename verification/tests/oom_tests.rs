use enclave_gateway::error::ErrorKind;
use enclave_gateway::oom::OomGuard;

#[test]
fn new_guard_holds_nothing() {
    let guard = OomGuard::new(4096);
    assert_eq!(guard.margin_size(), 4096);
    assert!(!guard.holds_margin());
}

#[test]
fn register_then_restore_succeeds_and_keeps_the_margin() {
    let mut guard = OomGuard::new(4096);
    assert_eq!(guard.register(), Ok(()));
    assert!(guard.holds_margin());
    assert_eq!(guard.restore(), Ok(()));
    assert!(guard.holds_margin());
    assert_eq!(guard.margin_size(), 4096);
    assert!(!guard.get_then_clear_oom_happened());
}

#[test]
fn register_fails_where_the_reserve_is_refused() {
    let mut guard = OomGuard::new(4096);
    assert_eq!(guard.register_with(None), Err(ErrorKind::OutOfMemory));
    assert!(!guard.holds_margin());
    assert_eq!(guard.restore_with(None), Err(ErrorKind::OutOfMemory));
    assert!(!guard.holds_margin());
}

#[test]
fn register_with_a_block_arms_the_guard() {
    let mut guard = OomGuard::new(16);
    assert_eq!(guard.register_with(Some(Vec::with_capacity(16))), Ok(()));
    assert!(guard.holds_margin());
    assert_eq!(guard.register_with(None), Ok(()));
    assert_eq!(guard.restore_with(None), Ok(()));
    assert!(guard.holds_margin());
}

#[test]
fn exhaustion_gives_up_the_margin_and_sets_the_flag() {
    let mut guard = OomGuard::new(64);
    guard.register().unwrap();
    guard.record_exhaustion();
    assert!(!guard.holds_margin());
    assert!(guard.get_then_clear_oom_happened());
    assert!(!guard.get_then_clear_oom_happened());
    assert_eq!(guard.restore(), Ok(()));
    assert!(guard.holds_margin());
}

#[test]
fn register_clears_the_flag_and_restore_keeps_it() {
    let mut guard = OomGuard::new(64);
    guard.record_exhaustion();
    assert_eq!(guard.restore(), Ok(()));
    assert!(guard.get_then_clear_oom_happened());
    guard.record_exhaustion();
    assert_eq!(guard.register(), Ok(()));
    assert!(!guard.get_then_clear_oom_happened());
}

#[test]
fn failed_register_keeps_the_flag() {
    let mut guard = OomGuard::new(64);
    guard.record_exhaustion();
    assert_eq!(guard.register_with(None), Err(ErrorKind::OutOfMemory));
    assert!(guard.get_then_clear_oom_happened());
}

#[test]
fn reserve_too_large_for_any_allocator_is_refused() {
    let mut guard = OomGuard::new(usize::MAX);
    assert_eq!(guard.register(), Err(ErrorKind::OutOfMemory));
    assert!(!guard.holds_margin());
    assert_eq!(guard.restore(), Err(ErrorKind::OutOfMemory));
}
