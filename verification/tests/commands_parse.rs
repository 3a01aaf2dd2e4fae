use llmcli::chatbots::dummy::DummyChatbot;
use llmcli::chatbots::Chatbot;
use llmcli::commands::{Command, CommandCreationError, CommandExecuteError, NoticeKind};
use llmcli::config::Config;
use llmcli::session::{Session, SessionError, SessionStore};
use llmcli::{ChatbotCreationError, Message, Role};

fn parts(line: &[&str]) -> Vec<String> {
    line.iter().map(|s| s.to_string()).collect()
}

fn fresh_state() -> (Session, Chatbot, SessionStore, Config) {
    (
        Session::new(),
        Chatbot::Dummy(DummyChatbot::create("1".to_string(), None).unwrap()),
        SessionStore::new(),
        Config { gemini_model: None, gemini_api_key: None, gemini_env_key: None },
    )
}

#[test]
fn every_command_parses_under_both_names() {
    assert!(matches!(Command::from_parts(&parts(&["/clear"])), Ok(Command::Clear)));
    assert!(matches!(Command::from_parts(&parts(&["/c"])), Ok(Command::Clear)));
    assert!(matches!(
        Command::from_parts(&parts(&["/sys", "hi"])),
        Ok(Command::System { .. })
    ));
    assert!(matches!(
        Command::from_parts(&parts(&["/cb", "dummy"])),
        Ok(Command::SwitchChatbot { .. })
    ));
    assert!(matches!(
        Command::from_parts(&parts(&["/list_chatbots"])),
        Ok(Command::ListChatbots)
    ));
    assert!(matches!(Command::from_parts(&parts(&["/lb"])), Ok(Command::ListChatbots)));
    assert!(matches!(
        Command::from_parts(&parts(&["/m", "2"])),
        Ok(Command::SwitchModel { .. })
    ));
    assert!(matches!(Command::from_parts(&parts(&["/lm"])), Ok(Command::ListModels)));
    assert!(matches!(Command::from_parts(&parts(&["/info"])), Ok(Command::Info)));
    assert!(matches!(Command::from_parts(&parts(&["/i"])), Ok(Command::Info)));
    assert!(matches!(
        Command::from_parts(&parts(&["/s", "f"])),
        Ok(Command::Save { .. })
    ));
    assert!(matches!(
        Command::from_parts(&parts(&["/l", "f"])),
        Ok(Command::Load { .. })
    ));
    assert!(matches!(
        Command::from_parts(&parts(&["/d", "f"])),
        Ok(Command::Delete { .. })
    ));
    assert!(matches!(Command::from_parts(&parts(&["/sessions"])), Ok(Command::Sessions)));
    assert!(matches!(Command::from_parts(&parts(&["/se"])), Ok(Command::Sessions)));
    assert!(matches!(Command::from_parts(&parts(&["/help"])), Ok(Command::Help)));
    assert!(matches!(Command::from_parts(&parts(&["/h"])), Ok(Command::Help)));
    assert!(matches!(Command::from_parts(&parts(&["/quit"])), Ok(Command::Quit)));
    assert!(matches!(Command::from_parts(&parts(&["/q"])), Ok(Command::Quit)));
}

#[test]
fn system_prompt_joins_its_words() {
    match Command::from_parts(&parts(&["/system", "be", "very", "terse"])).unwrap() {
        Command::System { prompt } => {
            assert_eq!(prompt.role, Role::System);
            assert_eq!(prompt.content, "be very terse");
        },
        _ => panic!("expected the system command"),
    }
}

#[test]
fn each_missing_argument_has_its_own_error() {
    assert!(matches!(
        Command::from_parts(&parts(&[])),
        Err(CommandCreationError::MissingCommand)
    ));
    assert!(matches!(
        Command::from_parts(&parts(&["/system"])),
        Err(CommandCreationError::MissingPrompt)
    ));
    assert!(matches!(
        Command::from_parts(&parts(&["/chatbot"])),
        Err(CommandCreationError::MissingChatbotName)
    ));
    assert!(matches!(
        Command::from_parts(&parts(&["/model"])),
        Err(CommandCreationError::MissingModelName)
    ));
    assert!(matches!(
        Command::from_parts(&parts(&["/save"])),
        Err(CommandCreationError::MissingFilename)
    ));
    assert!(matches!(
        Command::from_parts(&parts(&["/load"])),
        Err(CommandCreationError::MissingFilename)
    ));
    assert!(matches!(
        Command::from_parts(&parts(&["/delete"])),
        Err(CommandCreationError::MissingFilename)
    ));
    assert!(matches!(
        Command::from_parts(&parts(&["/nonsense"])),
        Err(CommandCreationError::Invalid)
    ));
    assert_eq!(
        CommandCreationError::Invalid.message(),
        "Invalid command."
    );
}

#[test]
fn clear_command_reports_and_empties() {
    let (mut session, mut chatbot, mut store, config) = fresh_state();
    session.add_message(Role::User, "hello".to_string());
    let notices = Command::Clear
        .execute(&mut session, &mut chatbot, &mut store, &config)
        .unwrap();
    assert_eq!(session.messages.len(), 0);
    assert_eq!(notices[0].text, "Context cleared.");
}

#[test]
fn switch_chatbot_to_dummy_replaces_the_provider() {
    let (mut session, mut chatbot, mut store, config) = fresh_state();
    let notices = Command::SwitchChatbot { name: "dummy".to_string() }
        .execute(&mut session, &mut chatbot, &mut store, &config)
        .unwrap();
    assert_eq!(notices[0].text, "Chatbot changed to Dummy");
    assert_eq!(chatbot.name(), "Dummy");
}

#[test]
fn switch_chatbot_to_gemini_needs_a_configured_model() {
    let (mut session, mut chatbot, mut store, config) = fresh_state();
    let err = Command::SwitchChatbot { name: "gemini".to_string() }
        .execute(&mut session, &mut chatbot, &mut store, &config)
        .unwrap_err();
    assert!(matches!(
        err,
        CommandExecuteError::ChatbotSwitch(ChatbotCreationError::UnknownModel)
    ));
    assert_eq!(chatbot.name(), "Dummy");
}

#[test]
fn switch_chatbot_to_gemini_needs_a_key() {
    let (mut session, mut chatbot, mut store, mut config) = fresh_state();
    config.gemini_model = Some("gemini-1.5-pro".to_string());
    let err = Command::SwitchChatbot { name: "gemini".to_string() }
        .execute(&mut session, &mut chatbot, &mut store, &config)
        .unwrap_err();
    assert!(matches!(
        err,
        CommandExecuteError::ChatbotSwitch(ChatbotCreationError::ApiKeyMissing)
    ));
    assert_eq!(err.message(), "API key missing.");
}

#[test]
fn switch_chatbot_to_gemini_succeeds_with_model_and_key() {
    let (mut session, mut chatbot, mut store, mut config) = fresh_state();
    config.gemini_model = Some("gemini-1.5-pro".to_string());
    config.gemini_env_key = Some("env-key".to_string());
    let notices = Command::SwitchChatbot { name: "gemini".to_string() }
        .execute(&mut session, &mut chatbot, &mut store, &config)
        .unwrap();
    assert_eq!(notices[0].text, "Chatbot changed to Gemini");
    assert_eq!(chatbot.name(), "Gemini");
    assert_eq!(chatbot.model(), "1.5 Pro");
}

#[test]
fn unknown_chatbot_name_is_reported_without_a_switch() {
    let (mut session, mut chatbot, mut store, config) = fresh_state();
    let notices = Command::SwitchChatbot { name: "other".to_string() }
        .execute(&mut session, &mut chatbot, &mut store, &config)
        .unwrap();
    assert!(matches!(notices[0].kind, NoticeKind::Error));
    assert_eq!(notices[0].text, "Invalid chatbot.");
    assert_eq!(chatbot.name(), "Dummy");
}

#[test]
fn switch_model_reports_the_new_label() {
    let (mut session, mut chatbot, mut store, config) = fresh_state();
    let notices = Command::SwitchModel { name: "2".to_string() }
        .execute(&mut session, &mut chatbot, &mut store, &config)
        .unwrap();
    assert_eq!(notices[0].text, "Chatbot model changed to Model 2");
    assert_eq!(chatbot.model(), "Model 2");
}

#[test]
fn list_models_indents_each_model_id() {
    let (mut session, mut chatbot, mut store, config) = fresh_state();
    let notices = Command::ListModels
        .execute(&mut session, &mut chatbot, &mut store, &config)
        .unwrap();
    let texts: Vec<&str> = notices.iter().map(|n| n.text.as_str()).collect();
    assert_eq!(texts, vec!["Available models:", "\t1", "\t2"]);
}

#[test]
fn info_lists_provider_model_and_system_prompt() {
    let (mut session, mut chatbot, mut store, config) = fresh_state();
    session.set_system(Message::new(Role::System, "be terse".to_string()));
    let notices = Command::Info
        .execute(&mut session, &mut chatbot, &mut store, &config)
        .unwrap();
    let texts: Vec<&str> = notices.iter().map(|n| n.text.as_str()).collect();
    assert_eq!(
        texts,
        vec!["Current chatbot: Dummy", "Current model: Model 1", "System prompt: be terse"]
    );
}

#[test]
fn save_load_and_delete_commands_round_trip() {
    let (mut session, mut chatbot, mut store, config) = fresh_state();
    session.add_message(Role::User, "kept".to_string());
    let notices = Command::Save { filename: "work".to_string() }
        .execute(&mut session, &mut chatbot, &mut store, &config)
        .unwrap();
    assert_eq!(notices[0].text, "Session saved to work.json");

    session.clear();
    let notices = Command::Load { filename: "work".to_string() }
        .execute(&mut session, &mut chatbot, &mut store, &config)
        .unwrap();
    assert_eq!(notices[0].text, "Session loaded from work.json");
    assert_eq!(session.messages.len(), 1);
    assert_eq!(session.messages[0].content, "kept");

    let notices = Command::Delete { filename: "work".to_string() }
        .execute(&mut session, &mut chatbot, &mut store, &config)
        .unwrap();
    assert_eq!(notices[0].text, "Session work.json deleted.");
    assert_eq!(store.list().len(), 0);
}

#[test]
fn deleting_a_missing_session_is_not_found() {
    let (mut session, mut chatbot, mut store, config) = fresh_state();
    let err = Command::Delete { filename: "missing".to_string() }
        .execute(&mut session, &mut chatbot, &mut store, &config)
        .unwrap_err();
    assert!(matches!(
        err,
        CommandExecuteError::Session(SessionError::NotFound)
    ));
    assert_eq!(err.message(), "Session not found.");
}

#[test]
fn sessions_command_reports_an_empty_store() {
    let (mut session, mut chatbot, mut store, config) = fresh_state();
    let notices = Command::Sessions
        .execute(&mut session, &mut chatbot, &mut store, &config)
        .unwrap();
    assert_eq!(notices.len(), 1);
    assert!(matches!(notices[0].kind, NoticeKind::Error));
    assert_eq!(notices[0].text, "No saved sessions found.");
}

#[test]
fn sessions_command_lists_stored_ids() {
    let (mut session, mut chatbot, mut store, config) = fresh_state();
    store.save("one", &Session::new());
    store.save("two", &Session::new());
    let notices = Command::Sessions
        .execute(&mut session, &mut chatbot, &mut store, &config)
        .unwrap();
    let texts: Vec<&str> = notices.iter().map(|n| n.text.as_str()).collect();
    assert_eq!(texts, vec!["Saved sessions:", "\tone", "\ttwo"]);
}

#[test]
fn help_lists_every_command() {
    let (mut session, mut chatbot, mut store, config) = fresh_state();
    let notices = Command::Help
        .execute(&mut session, &mut chatbot, &mut store, &config)
        .unwrap();
    assert_eq!(notices.len(), 14);
    assert_eq!(notices[0].text, "Available commands:");
    assert!(notices.iter().any(|n| n.text.contains("/quit or /q")));
}

#[test]
fn quit_is_a_distinguished_outcome() {
    let (mut session, mut chatbot, mut store, config) = fresh_state();
    let err = Command::Quit
        .execute(&mut session, &mut chatbot, &mut store, &config)
        .unwrap_err();
    assert!(matches!(err, CommandExecuteError::Quit));
    assert_eq!(err.message(), "User quit.");
}
