use voicebridge::handoff::StreamIdSlot;

#[test]
fn first_offer_lands_and_first_take_receives() {
    let mut slot = StreamIdSlot::new();
    assert!(slot.offer("CA123".to_string()));
    assert_eq!(slot.take(), Some("CA123".to_string()));
}

#[test]
fn second_offer_is_ignored() {
    let mut slot = StreamIdSlot::new();
    assert!(slot.offer("CA123".to_string()));
    // A later start event on the same call cannot rebind the identifier.
    assert!(!slot.offer("CA999".to_string()));
    assert_eq!(slot.take(), Some("CA123".to_string()));
}

#[test]
fn second_take_is_empty_not_a_panic() {
    let mut slot = StreamIdSlot::new();
    slot.offer("CA123".to_string());
    assert!(slot.take().is_some());
    assert_eq!(slot.take(), None);
}

#[test]
fn take_before_offer_is_empty() {
    let mut slot = StreamIdSlot::new();
    assert_eq!(slot.take(), None);
    // The slot is still usable afterwards.
    assert!(slot.offer("CA1".to_string()));
    assert_eq!(slot.take(), Some("CA1".to_string()));
}
