use enclave_gateway::registry::{BufferRegistry, EnclaveBuffer};

#[test]
fn round_trip_returns_the_bytes_once() {
    let mut registry = BufferRegistry::new();
    let handle = registry.allocate(b"abc");
    assert!(!handle.is_null());
    assert!(registry.is_live(handle));
    assert_eq!(registry.len(), 1);
    assert_eq!(registry.recover(handle), Some(b"abc".to_vec()));
    assert!(!registry.is_live(handle));
    assert_eq!(registry.recover(handle), None);
    assert_eq!(registry.len(), 0);
}

#[test]
fn round_trip_of_an_empty_buffer() {
    let mut registry = BufferRegistry::new();
    let handle = registry.allocate(b"");
    assert!(!handle.is_null());
    assert_eq!(registry.recover(handle), Some(Vec::new()));
    assert_eq!(registry.recover(handle), None);
}

#[test]
fn null_and_forged_handles_yield_nothing() {
    let mut registry = BufferRegistry::new();
    let handle = registry.allocate(b"data");
    assert_eq!(registry.recover(EnclaveBuffer::null()), None);
    assert_eq!(registry.recover(EnclaveBuffer::default()), None);
    assert_eq!(registry.recover(EnclaveBuffer { tag: handle.tag + 1000 }), None);
    assert_eq!(registry.len(), 1);
    assert_eq!(registry.recover(handle), Some(b"data".to_vec()));
}

#[test]
fn default_handle_is_null() {
    assert_eq!(EnclaveBuffer::default(), EnclaveBuffer::null());
    assert!(EnclaveBuffer::default().is_null());
    assert_eq!(EnclaveBuffer::default().tag, 0);
}

#[test]
fn handles_are_distinct_and_never_handed_out_again() {
    let mut registry = BufferRegistry::new();
    let a = registry.allocate(b"a");
    let b = registry.allocate(b"b");
    assert_ne!(a, b);
    assert_eq!(registry.recover(a), Some(b"a".to_vec()));
    let c = registry.allocate(b"c");
    assert_ne!(c, a);
    assert_ne!(c, b);
    assert_eq!(registry.recover(a), None);
    assert_eq!(registry.recover(c), Some(b"c".to_vec()));
    assert_eq!(registry.recover(b), Some(b"b".to_vec()));
}

#[test]
fn recovery_in_any_order_keeps_buffers_apart() {
    let mut registry = BufferRegistry::new();
    let mut handles = Vec::new();
    for i in 0..20u8 {
        handles.push((registry.allocate(&[i, i + 1, i + 2]), i));
    }
    assert_eq!(registry.len(), 20);
    // first to last, middle out, then the rest from the end
    for &(handle, i) in handles.iter().step_by(3) {
        assert_eq!(registry.recover(handle), Some(vec![i, i + 1, i + 2]));
    }
    for &(handle, i) in handles.iter().rev() {
        let expected = if i % 3 == 0 { None } else { Some(vec![i, i + 1, i + 2]) };
        assert_eq!(registry.recover(handle), expected);
    }
    assert_eq!(registry.len(), 0);
    for &(handle, _) in handles.iter() {
        assert_eq!(registry.recover(handle), None);
    }
}

#[test]
fn nested_cycles_interleave() {
    let mut registry = BufferRegistry::new();
    let outer = registry.allocate(b"outer");
    let inner = registry.allocate(b"inner");
    let innermost = registry.allocate(b"innermost");
    assert_eq!(registry.recover(innermost), Some(b"innermost".to_vec()));
    let sibling = registry.allocate(b"sibling");
    assert_eq!(registry.recover(inner), Some(b"inner".to_vec()));
    assert_eq!(registry.recover(sibling), Some(b"sibling".to_vec()));
    assert_eq!(registry.recover(outer), Some(b"outer".to_vec()));
    assert!(!registry.is_spent());
}
