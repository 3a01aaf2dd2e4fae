use llmcli::session::Session;
use llmcli::{Message, Role};

#[test]
fn new_session_is_empty() {
    let session = Session::new();
    assert_eq!(session.messages.len(), 0);
}

#[test]
fn add_message_appends_in_order() {
    let mut session = Session::new();
    session.add_message(Role::User, "first".to_string());
    session.add_message(Role::Assistant, "second".to_string());
    assert_eq!(session.messages.len(), 2);
    assert_eq!(session.messages[0].role, Role::User);
    assert_eq!(session.messages[0].content, "first");
    assert_eq!(session.messages[1].role, Role::Assistant);
    assert_eq!(session.messages[1].content, "second");
}

#[test]
fn clear_empties_everything_including_system() {
    let mut session = Session::new();
    session.set_system(Message::new(Role::System, "be terse".to_string()));
    session.add_message(Role::User, "hello".to_string());
    session.clear();
    assert_eq!(session.messages.len(), 0);
}

#[test]
fn set_system_inserts_at_front() {
    let mut session = Session::new();
    session.add_message(Role::User, "hello".to_string());
    session.set_system(Message::new(Role::System, "be terse".to_string()));
    assert_eq!(session.messages.len(), 2);
    assert_eq!(session.messages[0].role, Role::System);
    assert_eq!(session.messages[0].content, "be terse");
    assert_eq!(session.messages[1].role, Role::User);
}

#[test]
fn set_system_twice_keeps_one_with_latest_content() {
    let mut session = Session::new();
    session.add_message(Role::User, "hello".to_string());
    session.set_system(Message::new(Role::System, "first".to_string()));
    session.set_system(Message::new(Role::System, "second".to_string()));
    let system_count = session
        .messages
        .iter()
        .filter(|m| m.role == Role::System)
        .count();
    assert_eq!(system_count, 1);
    assert_eq!(session.messages[0].role, Role::System);
    assert_eq!(session.messages[0].content, "second");
    assert_eq!(session.messages.len(), 2);
}

#[test]
fn system_message_finds_the_system_entry() {
    let mut session = Session::new();
    assert!(session.system_message().is_none());
    session.add_message(Role::User, "hello".to_string());
    session.set_system(Message::new(Role::System, "be terse".to_string()));
    let found = session.system_message().unwrap();
    assert_eq!(found.content, "be terse");
}
