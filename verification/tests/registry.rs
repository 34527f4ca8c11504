use voicebridge::registry::Registry;

#[test]
fn broadcast_with_no_observers_is_noop() {
    let mut registry = Registry::new();
    // Zero live observers: nothing to send to, nothing to prune, no error.
    registry.prune_global(&Vec::new());
    assert!(registry.global_subscribers().is_empty());
    registry.create_scope("CA123");
    registry.prune_scoped("CA123", &Vec::new());
    assert!(registry.call_subscribers("CA123").unwrap().is_empty());
}

#[test]
fn failed_send_prunes_exactly_that_observer() {
    let mut registry = Registry::new();
    registry.create_scope("CA123");
    assert!(registry.subscribe_scoped("CA123", 1));
    assert!(registry.subscribe_scoped("CA123", 2));
    // One send fails, one succeeds: exactly one observer remains.
    registry.prune_scoped("CA123", &vec![false, true]);
    assert_eq!(registry.call_subscribers("CA123").unwrap(), &vec![2]);
}

#[test]
fn global_prune_keeps_successes_in_order() {
    let mut registry = Registry::new();
    registry.subscribe_global(10);
    registry.subscribe_global(11);
    registry.subscribe_global(12);
    registry.prune_global(&vec![true, false, true]);
    assert_eq!(registry.global_subscribers(), &vec![10, 12]);
}

#[test]
fn scoped_subscription_needs_an_existing_scope() {
    let mut registry = Registry::new();
    // The call has not started: the subscription is silently dropped.
    assert!(!registry.subscribe_scoped("CA999", 5));
    assert!(registry.call_subscribers("CA999").is_none());
    registry.create_scope("CA999");
    assert!(registry.subscribe_scoped("CA999", 5));
    assert_eq!(registry.call_subscribers("CA999").unwrap(), &vec![5]);
}

#[test]
fn scopes_are_independent() {
    let mut registry = Registry::new();
    registry.create_scope("CA1");
    registry.create_scope("CA2");
    registry.subscribe_scoped("CA1", 1);
    registry.subscribe_scoped("CA2", 2);
    registry.prune_scoped("CA1", &vec![false]);
    assert!(registry.call_subscribers("CA1").unwrap().is_empty());
    assert_eq!(registry.call_subscribers("CA2").unwrap(), &vec![2]);
}

#[test]
fn removing_a_scope_drops_its_observers() {
    let mut registry = Registry::new();
    registry.create_scope("CA1");
    registry.subscribe_scoped("CA1", 1);
    registry.remove_scope("CA1");
    assert!(registry.call_subscribers("CA1").is_none());
    // Removing a key that has no scope changes nothing.
    registry.remove_scope("CA1");
}
