use llmcli::chatbots::dummy::DummyChatbot;
use llmcli::chatbots::gemini::GeminiChatbot;
use llmcli::chatbots::Chatbot;
use llmcli::commands::Command;
use llmcli::config::Config;
use llmcli::engine::{
    dispatch_line, finish_turn, plan_turn, ChatTurn, LineAction, StreamDecoder, StreamIncrement,
    TurnPlan,
};
use llmcli::session::{Session, SessionStore};
use llmcli::text::tokens_of;
use llmcli::{ChatbotChatError, Role};

fn no_gemini_config() -> Config {
    Config { gemini_model: None, gemini_api_key: None, gemini_env_key: None }
}

#[test]
fn blank_lines_are_ignored() {
    assert!(matches!(dispatch_line(""), LineAction::Ignore));
    assert!(matches!(dispatch_line("   \t  "), LineAction::Ignore));
}

#[test]
fn sigil_lines_become_command_tokens() {
    match dispatch_line("/system be terse") {
        LineAction::Command(parts) => {
            assert_eq!(parts, vec!["/system".to_string(), "be".to_string(), "terse".to_string()]);
        },
        _ => panic!("expected a command"),
    }
}

#[test]
fn other_lines_are_chat_input() {
    match dispatch_line("hello there") {
        LineAction::Chat(text) => assert_eq!(text, "hello there"),
        _ => panic!("expected chat input"),
    }
}

#[test]
fn dummy_hello_yields_one_increment_and_appends_it() {
    let chatbot = Chatbot::Dummy(DummyChatbot::create("1".to_string(), None).unwrap());
    let mut session = Session::new();
    session.add_message(Role::User, "hello".to_string());

    let reply = match plan_turn(&chatbot, &session) {
        TurnPlan::Local(reply) => reply,
        TurnPlan::Remote { .. } => panic!("the dummy provider answers locally"),
    };
    assert_eq!(reply, "Dummy response to: \"hello\".");

    let mut turn = ChatTurn::new();
    turn.on_increment(StreamIncrement::Text(reply));
    assert_eq!(turn.fragments.len(), 1);
    let report = finish_turn(&mut session, turn.outcome());
    assert!(report.is_none());
    assert_eq!(session.messages.len(), 2);
    assert_eq!(session.messages[1].role, Role::Assistant);
    assert_eq!(session.messages[1].content, "Dummy response to: \"hello\".");
}

#[test]
fn gemini_turn_is_planned_as_a_remote_request() {
    let chatbot = Chatbot::Gemini(
        GeminiChatbot::create("gemini-1.5-pro".to_string(), Some("key".to_string()), None)
            .unwrap(),
    );
    let mut session = Session::new();
    session.add_message(Role::User, "hi".to_string());
    match plan_turn(&chatbot, &session) {
        TurnPlan::Remote { url, body } => {
            assert!(url.contains("gemini-1.5-pro"));
            assert!(body.contains("\"text\":\"hi\""));
        },
        TurnPlan::Local(_) => panic!("the remote provider needs a request"),
    }
}

#[test]
fn stream_error_discards_partial_reply_and_reports_it() {
    let mut session = Session::new();
    session.add_message(Role::User, "question".to_string());

    let mut turn = ChatTurn::new();
    turn.on_increment(StreamIncrement::Text("part one ".to_string()));
    turn.on_increment(StreamIncrement::Text("part two".to_string()));
    turn.on_increment(StreamIncrement::Failed(ChatbotChatError::Timeout));
    // every fragment was seen before the failure, in order
    assert_eq!(turn.fragments, vec!["part one ".to_string(), "part two".to_string()]);

    let report = finish_turn(&mut session, turn.outcome());
    assert_eq!(report.unwrap(), "Timeout.");
    // the partial assistant reply was discarded; the question remains
    assert_eq!(session.messages.len(), 1);
    assert_eq!(session.messages[0].role, Role::User);
}

#[test]
fn increments_after_a_failure_change_nothing() {
    let mut turn = ChatTurn::new();
    turn.on_increment(StreamIncrement::Failed(ChatbotChatError::Timeout));
    turn.on_increment(StreamIncrement::Text("late".to_string()));
    assert_eq!(turn.fragments.len(), 0);
    assert!(matches!(turn.outcome(), Err(ChatbotChatError::Timeout)));
}

#[test]
fn successful_turn_assembles_all_fragments() {
    let mut turn = ChatTurn::new();
    turn.on_increment(StreamIncrement::Text("Hel".to_string()));
    turn.on_increment(StreamIncrement::Text("lo".to_string()));
    assert_eq!(turn.outcome().unwrap(), "Hello");
}

#[test]
fn stream_decoder_buffers_partial_lines() {
    let mut decoder = StreamDecoder::new();
    let first = decoder.push_chunk(
        "data: {\"candidates\":[{\"content\":{\"parts\":[{\"text\":\"one\"}]}}]}\n\ndata: {\"cand",
    );
    assert_eq!(first.len(), 1);
    assert!(matches!(&first[0], StreamIncrement::Text(t) if t == "one"));

    let second = decoder.push_chunk("idates\":[{\"content\":{\"parts\":[{\"text\":\"two\"}]}}]}\n");
    assert_eq!(second.len(), 1);
    assert!(matches!(&second[0], StreamIncrement::Text(t) if t == "two"));
}

#[test]
fn stream_decoder_marks_unreadable_frames() {
    let mut decoder = StreamDecoder::new();
    let increments = decoder.push_chunk("data: not json\n");
    assert_eq!(increments.len(), 1);
    assert!(matches!(
        &increments[0],
        StreamIncrement::Failed(ChatbotChatError::UnexpectedResponse)
    ));
}

#[test]
fn system_command_line_sets_the_system_prompt() {
    let mut session = Session::new();
    let mut chatbot = Chatbot::Dummy(DummyChatbot::create("1".to_string(), None).unwrap());
    let mut store = SessionStore::new();
    let config = no_gemini_config();

    let parts = match dispatch_line("/system be terse") {
        LineAction::Command(parts) => parts,
        _ => panic!("expected a command"),
    };
    let cmd = Command::from_parts(&parts).unwrap();
    let notices = cmd
        .execute(&mut session, &mut chatbot, &mut store, &config)
        .unwrap();
    assert_eq!(session.messages.len(), 1);
    assert_eq!(session.messages[0].role, Role::System);
    assert_eq!(session.messages[0].content, "be terse");
    assert_eq!(notices.len(), 1);
    assert_eq!(notices[0].text, "System prompt set.");
}

#[test]
fn invalid_model_command_line_keeps_current_model() {
    let mut session = Session::new();
    let mut chatbot = Chatbot::Dummy(DummyChatbot::create("1".to_string(), None).unwrap());
    let mut store = SessionStore::new();
    let config = no_gemini_config();

    let parts = tokens_of("/model not-a-real-model");
    let cmd = Command::from_parts(&parts).unwrap();
    let notices = cmd
        .execute(&mut session, &mut chatbot, &mut store, &config)
        .unwrap();
    assert_eq!(chatbot.model(), "Model 1");
    assert_eq!(notices.len(), 1);
    assert_eq!(notices[0].text, "Invalid model.");
    assert!(matches!(notices[0].kind, llmcli::commands::NoticeKind::Error));
}
