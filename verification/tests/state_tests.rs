use magictax::{CloseAction, CloseAttempt, RowElement};

#[test]
fn attempt_resolves_only_when_safe() {
    let mut attempt = CloseAttempt::new();
    assert!(!attempt.is_attempting());
    assert_eq!(attempt.try_resolve(false, true), None);

    attempt.request_close(CloseAction::CloseSession);
    assert!(attempt.is_attempting());

    // Unsaved and unconfirmed: blocked.
    assert_eq!(attempt.try_resolve(false, false), None);
    assert!(attempt.is_attempting());

    // Saved: allowed, and the machine returns to idle.
    assert_eq!(attempt.try_resolve(false, true), Some(CloseAction::CloseSession));
    assert!(!attempt.is_attempting());
}

#[test]
fn writing_blocks_resolution_even_with_override() {
    let mut attempt = CloseAttempt::new();
    attempt.request_close(CloseAction::NewDocument);
    attempt.override_condition();

    // While a save is writing nothing resolves, override or not.
    assert_eq!(attempt.try_resolve(true, true), None);
    assert_eq!(attempt.try_resolve(true, false), None);
    assert!(attempt.is_attempting());

    // Once the completion is observed the same attempt resolves.
    assert_eq!(attempt.try_resolve(false, false), Some(CloseAction::NewDocument));
}

#[test]
fn override_does_not_outlive_its_attempt() {
    let mut attempt = CloseAttempt::new();
    attempt.request_close(CloseAction::OpenDocument);
    attempt.override_condition();
    attempt.cancel();

    attempt.request_close(CloseAction::OpenDocument);
    // The fresh attempt starts unconfirmed: with unsaved changes it stays blocked.
    assert_eq!(attempt.try_resolve(false, false), None);
    assert!(attempt.is_attempting());
}

#[test]
fn override_outside_an_attempt_is_a_no_op() {
    let mut attempt = CloseAttempt::new();
    attempt.override_condition();
    attempt.request_close(CloseAction::NewDocument);
    assert_eq!(attempt.try_resolve(false, false), None);
}

#[test]
fn row_element_navigation_clamps_at_the_ends() {
    assert_eq!(RowElement::Value.previous(), RowElement::Value);
    assert_eq!(RowElement::Label.previous(), RowElement::Value);
    assert_eq!(RowElement::InsertButton.previous(), RowElement::Label);
    assert_eq!(RowElement::RemoveButton.previous(), RowElement::InsertButton);

    assert_eq!(RowElement::Value.next(), RowElement::Label);
    assert_eq!(RowElement::Label.next(), RowElement::InsertButton);
    assert_eq!(RowElement::InsertButton.next(), RowElement::RemoveButton);
    assert_eq!(RowElement::RemoveButton.next(), RowElement::RemoveButton);
}
