use rag_responder::state::{clear_after_success, get_restart, set_restart};

#[test]
fn flag_defaults_to_false() {
    assert!(!get_restart(None));
}

#[test]
fn flag_is_what_was_stored() {
    assert!(get_restart(Some(true)));
    assert!(!get_restart(Some(false)));
}

#[test]
fn set_then_get() {
    assert!(get_restart(set_restart(true)));
    assert!(!get_restart(set_restart(false)));
}

#[test]
fn clearing_stores_false() {
    assert_eq!(clear_after_success(), Some(false));
    assert!(!get_restart(clear_after_success()));
}
