use llmcli::session::Session;
use llmcli::wire::{decode_frame, gemini_request_body};
use llmcli::{ChatbotChatError, Message, Role};

#[test]
fn request_body_extracts_system_instruction() {
    let mut session = Session::new();
    session.set_system(Message::new(Role::System, "be terse".to_string()));
    session.add_message(Role::User, "hello".to_string());
    let body = gemini_request_body(&session.messages);
    assert_eq!(
        body,
        "{\"system_instruction\":{\"parts\":[{\"text\":\"be terse\"}]},\
         \"contents\":[{\"role\":\"user\",\"parts\":[{\"text\":\"hello\"}]}]}"
    );
}

#[test]
fn request_body_without_system_is_null() {
    let mut session = Session::new();
    session.add_message(Role::User, "hi".to_string());
    session.add_message(Role::Assistant, "hey".to_string());
    let body = gemini_request_body(&session.messages);
    assert_eq!(
        body,
        "{\"system_instruction\":null,\"contents\":[\
         {\"role\":\"user\",\"parts\":[{\"text\":\"hi\"}]},\
         {\"role\":\"assistant\",\"parts\":[{\"text\":\"hey\"}]}]}"
    );
}

#[test]
fn request_body_escapes_content() {
    let mut session = Session::new();
    session.add_message(Role::User, "a\"b\\c\nd\te".to_string());
    let body = gemini_request_body(&session.messages);
    assert_eq!(
        body,
        "{\"system_instruction\":null,\"contents\":[\
         {\"role\":\"user\",\"parts\":[{\"text\":\"a\\\"b\\\\c\\nd\\te\"}]}]}"
    );
}

#[test]
fn request_body_escapes_control_characters() {
    let mut session = Session::new();
    session.add_message(Role::User, "a\u{1}b".to_string());
    let body = gemini_request_body(&session.messages);
    assert!(body.contains("a\\u0001b"));
}

#[test]
fn frame_with_expected_schema_yields_its_text() {
    let frame =
        "data: {\"candidates\":[{\"content\":{\"role\":\"model\",\"parts\":[{\"text\":\"Hi\"}]}}]}";
    assert_eq!(decode_frame(frame).unwrap(), "Hi");
}

#[test]
fn frame_with_extra_fields_still_yields_first_part() {
    let frame = "data: {\"modelVersion\":\"v\",\"candidates\":[{\"content\":{\"parts\":\
        [{\"text\":\"Hello\"},{\"text\":\"ignored\"}],\"role\":\"model\"},\"finishReason\":\"STOP\",\
        \"index\":0}],\"usageMetadata\":{\"promptTokenCount\":5,\"probability\":0.25}}";
    assert_eq!(decode_frame(frame).unwrap(), "Hello");
}

#[test]
fn frame_text_unescapes_json_escapes() {
    let frame = "data: {\"candidates\":[{\"content\":{\"parts\":\
        [{\"text\":\"a\\\"b\\\\c\\nd\"}],\"role\":\"model\"}}]}";
    assert_eq!(decode_frame(frame).unwrap(), "a\"b\\c\nd");
}

#[test]
fn frame_without_prefix_is_unexpected() {
    let frame = "{\"candidates\":[{\"content\":{\"parts\":[{\"text\":\"Hi\"}]}}]}";
    assert!(matches!(
        decode_frame(frame),
        Err(ChatbotChatError::UnexpectedResponse)
    ));
}

#[test]
fn malformed_payload_is_unexpected() {
    assert!(decode_frame("data: {candidates").is_err());
    assert!(decode_frame("data: ").is_err());
    assert!(decode_frame("data: 42").is_err());
    assert!(decode_frame("data: {\"candidates\":[]}").is_err());
    assert!(decode_frame("data: {\"other\":1}").is_err());
}

#[test]
fn payload_missing_text_is_unexpected() {
    let frame = "data: {\"candidates\":[{\"content\":{\"parts\":[{\"notText\":\"x\"}]}}]}";
    assert!(decode_frame(frame).is_err());
    let frame = "data: {\"candidates\":[{\"content\":{\"parts\":[]}}]}";
    assert!(decode_frame(frame).is_err());
}

#[test]
fn chat_error_messages_name_the_failure() {
    assert_eq!(ChatbotChatError::Timeout.message(), "Timeout.");
    assert_eq!(
        ChatbotChatError::NetworkError("refused".to_string()).message(),
        "Network error: refused."
    );
    assert_eq!(
        ChatbotChatError::ServerError("500".to_string()).message(),
        "Server error: 500."
    );
    assert_eq!(
        ChatbotChatError::UnexpectedResponse.message(),
        "Unexpected response."
    );
}
