use std::sync::Arc;
use webscout::error::ScoutError;
use webscout::session::{Session, SessionStore};

#[test]
fn new_session_has_coherent_identity_and_empty_jar() {
    let s = Session::new();
    assert_eq!(s.identity.user_agent.contains("Chrome"), s.identity.sec_ch_ua.is_some());
    assert_eq!(s.export_cookies().unwrap(), "[]");
}

#[test]
fn import_rejects_malformed_json() {
    let s = Session::new();
    match s.import_cookies("not json") {
        Err(ScoutError::Session(_)) => {}
        other => panic!("unexpected: {:?}", other),
    }
    assert!(s.import_cookies("[]").is_ok());
    s.clear_cookies();
    assert_eq!(s.export_cookies().unwrap(), "[]");
}

#[test]
fn same_id_gives_same_session() {
    let mut store = SessionStore::new();
    let a = store.get_or_create(Some("alpha"));
    let b = store.get_or_create(Some("alpha"));
    assert!(Arc::ptr_eq(&a, &b));
    let c = store.get_or_create(Some("beta"));
    assert!(!Arc::ptr_eq(&a, &c));
    let d = store.get_or_create(None);
    let e = store.get_or_create(None);
    assert!(!Arc::ptr_eq(&d, &e));
    assert_ne!(d.id, e.id);
    let f = store.get_or_create(Some("alpha"));
    assert!(Arc::ptr_eq(&a, &f));
}

#[test]
fn import_error_carries_the_parser_message() {
    let s = Session::new();
    match s.import_cookies("not json") {
        Err(ScoutError::Session(m)) => assert!(m.contains("line 1"), "{}", m),
        other => panic!("unexpected: {:?}", other),
    }
    assert!(s.import_cookies("  {}").is_err());
    assert!(s.import_cookies("").is_err());
    assert!(s.import_cookies(" \n[ ]").is_ok());
}

#[test]
fn default_store_is_empty_and_hands_out_sessions() {
    let mut store = SessionStore::default();
    let a = store.get_or_create(Some("x"));
    let b = store.get_or_create(Some("x"));
    assert!(Arc::ptr_eq(&a, &b));
}
