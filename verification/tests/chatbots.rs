use llmcli::chatbots::dummy::DummyChatbot;
use llmcli::chatbots::gemini::GeminiChatbot;
use llmcli::chatbots::Chatbot;
use llmcli::ChatbotCreationError;

#[test]
fn dummy_create_accepts_catalog_models() {
    let bot = DummyChatbot::create("1".to_string(), None).unwrap();
    assert_eq!(bot.model(), "Model 1");
    let bot = DummyChatbot::create("2".to_string(), None).unwrap();
    assert_eq!(bot.model(), "Model 2");
    assert_eq!(bot.name(), "Dummy");
}

#[test]
fn dummy_create_rejects_unknown_model() {
    let err = DummyChatbot::create("3".to_string(), None).unwrap_err();
    assert!(matches!(err, ChatbotCreationError::UnknownModel));
}

#[test]
fn dummy_switch_model_reflects_new_label() {
    let mut bot = DummyChatbot::create("1".to_string(), None).unwrap();
    bot.change_model("2".to_string()).unwrap();
    assert_eq!(bot.model(), "Model 2");
}

#[test]
fn dummy_switch_model_outside_catalog_keeps_state() {
    let mut bot = DummyChatbot::create("1".to_string(), None).unwrap();
    assert!(bot.change_model("9".to_string()).is_err());
    assert_eq!(bot.model(), "Model 1");
}

#[test]
fn dummy_available_models_lists_catalog_in_order() {
    let bot = DummyChatbot::create("1".to_string(), None).unwrap();
    assert_eq!(bot.available_models(), vec!["1".to_string(), "2".to_string()]);
}

#[test]
fn gemini_create_uses_explicit_key_first() {
    let bot = GeminiChatbot::create(
        "gemini-1.5-pro".to_string(),
        Some("given".to_string()),
        Some("from-env".to_string()),
    )
    .unwrap();
    assert_eq!(bot.name(), "Gemini");
    assert_eq!(bot.model(), "1.5 Pro");
    assert_eq!(
        bot.url,
        "https://generativelanguage.googleapis.com/v1beta/models/gemini-1.5-pro:generateContent?key=given"
    );
}

#[test]
fn gemini_create_falls_back_to_environment_key() {
    let bot = GeminiChatbot::create(
        "gemini-1.5-flash".to_string(),
        None,
        Some("from-env".to_string()),
    )
    .unwrap();
    assert!(bot.url.ends_with(":generateContent?key=from-env"));
    assert_eq!(bot.model(), "1.5 Flash");
}

#[test]
fn gemini_create_without_any_key_fails() {
    let err = GeminiChatbot::create("gemini-1.5-pro".to_string(), None, None).unwrap_err();
    assert!(matches!(err, ChatbotCreationError::ApiKeyMissing));
}

#[test]
fn gemini_create_rejects_unknown_model() {
    let err = GeminiChatbot::create(
        "not-a-real-model".to_string(),
        Some("key".to_string()),
        None,
    )
    .unwrap_err();
    assert!(matches!(err, ChatbotCreationError::UnknownModel));
}

#[test]
fn gemini_switch_model_updates_endpoint() {
    let mut bot = GeminiChatbot::create(
        "gemini-1.5-pro".to_string(),
        Some("key".to_string()),
        None,
    )
    .unwrap();
    bot.change_model("gemini-1.0-pro".to_string()).unwrap();
    assert_eq!(bot.model(), "1.0 Pro (Deprecated)");
    assert_eq!(
        bot.url,
        "https://generativelanguage.googleapis.com/v1beta/models/gemini-1.0-pro:generateContent?key=key"
    );
}

#[test]
fn gemini_switch_model_outside_catalog_is_atomic() {
    let mut bot = GeminiChatbot::create(
        "gemini-1.5-pro".to_string(),
        Some("key".to_string()),
        None,
    )
    .unwrap();
    let url_before = bot.url.clone();
    assert!(bot.change_model("bogus".to_string()).is_err());
    assert_eq!(bot.model(), "1.5 Pro");
    assert_eq!(bot.url, url_before);
}

#[test]
fn provider_enum_switches_model_for_each_variant() {
    let mut provider = Chatbot::Dummy(DummyChatbot::create("1".to_string(), None).unwrap());
    provider.change_model("2".to_string()).unwrap();
    assert_eq!(provider.model(), "Model 2");
    assert!(provider.change_model("nope".to_string()).is_err());
    assert_eq!(provider.model(), "Model 2");
    assert_eq!(provider.name(), "Dummy");
    assert_eq!(provider.available_models().len(), 2);
}
