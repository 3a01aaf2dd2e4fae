use llmcli::session::{Session, SessionError, SessionStore};
use llmcli::snapshot::{parse_snapshot_str, snapshot_string};
use llmcli::{Message, Role};

fn sample_session() -> Session {
    let mut session = Session::new();
    session.set_system(Message::new(Role::System, "be terse".to_string()));
    session.add_message(Role::User, "line one\nline two".to_string());
    session.add_message(Role::Assistant, "back\\slash and \"quotes\"".to_string());
    session
}

#[test]
fn snapshot_round_trips_exactly() {
    let session = sample_session();
    let text = snapshot_string(&session.messages);
    let back = parse_snapshot_str(&text).unwrap();
    assert_eq!(back.len(), session.messages.len());
    for (a, b) in back.iter().zip(session.messages.iter()) {
        assert_eq!(a.role, b.role);
        assert_eq!(a.content, b.content);
    }
}

#[test]
fn snapshot_of_empty_transcript_is_empty() {
    let session = Session::new();
    let text = snapshot_string(&session.messages);
    assert_eq!(text, "");
    let back = parse_snapshot_str(&text).unwrap();
    assert_eq!(back.len(), 0);
}

#[test]
fn snapshot_escapes_newlines_and_backslashes() {
    let mut session = Session::new();
    session.add_message(Role::User, "a\nb\\c".to_string());
    let text = snapshot_string(&session.messages);
    assert_eq!(text, "ua\\nb\\\\c\n");
}

#[test]
fn tampered_snapshots_are_rejected() {
    assert!(parse_snapshot_str("x\n").is_none());
    assert!(parse_snapshot_str("uabc").is_none());
    assert!(parse_snapshot_str("ua\\qb\n").is_none());
    assert!(parse_snapshot_str("ua\\").is_none());
}

#[test]
fn save_then_load_reproduces_the_sequence() {
    let session = sample_session();
    let mut store = SessionStore::new();
    store.save("alpha", &session);
    let loaded = store.load("alpha").unwrap();
    assert_eq!(loaded.messages.len(), session.messages.len());
    for (a, b) in loaded.messages.iter().zip(session.messages.iter()) {
        assert_eq!(a.role, b.role);
        assert_eq!(a.content, b.content);
    }
}

#[test]
fn save_overwrites_under_the_same_id() {
    let mut store = SessionStore::new();
    let mut first = Session::new();
    first.add_message(Role::User, "one".to_string());
    let mut second = Session::new();
    second.add_message(Role::User, "two".to_string());
    store.save("s", &first);
    store.save("s", &second);
    let loaded = store.load("s").unwrap();
    assert_eq!(loaded.messages.len(), 1);
    assert_eq!(loaded.messages[0].content, "two");
    assert_eq!(store.list(), vec!["s".to_string()]);
}

#[test]
fn load_of_missing_id_is_not_found() {
    let store = SessionStore::new();
    let err = store.load("missing").unwrap_err();
    assert!(matches!(err, SessionError::NotFound));
}

#[test]
fn load_of_corrupt_snapshot_fails_to_deserialize() {
    let mut store = SessionStore::new();
    store.entries.push(("bad".to_string(), "x not a snapshot".to_string()));
    let err = store.load("bad").unwrap_err();
    assert!(matches!(err, SessionError::Serialize));
    assert_eq!(err.message(), "Failed to serialize or deserialize session.");
}

#[test]
fn delete_of_missing_id_leaves_store_unmodified() {
    let mut store = SessionStore::new();
    store.save("kept", &Session::new());
    let err = store.delete("missing").unwrap_err();
    assert!(matches!(err, SessionError::NotFound));
    assert_eq!(store.list(), vec!["kept".to_string()]);
}

#[test]
fn delete_removes_only_the_named_id() {
    let mut store = SessionStore::new();
    store.save("a", &Session::new());
    store.save("b", &Session::new());
    store.save("c", &Session::new());
    store.delete("b").unwrap();
    assert_eq!(
        store.list(),
        vec!["a".to_string(), "c".to_string()]
    );
    assert!(store.load("b").is_err());
}

#[test]
fn list_keeps_first_save_order() {
    let mut store = SessionStore::new();
    store.save("later", &Session::new());
    store.save("earlier", &Session::new());
    store.save("later", &Session::new());
    assert_eq!(
        store.list(),
        vec!["later".to_string(), "earlier".to_string()]
    );
}
