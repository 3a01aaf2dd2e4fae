use llmcli::config::{default_config_text, ConfigManager, ConfigManagerError};
use llmcli::ui::Printer;

fn manager() -> ConfigManager {
    ConfigManager { config_path: "config.toml".to_string() }
}

#[test]
fn config_load_loads_correct_values() {
    let cfg = manager()
        .load("default_provider = \"test-provider\"\ndefault_model = \"test-model\"")
        .unwrap();
    assert_eq!(cfg.default_provider, "test-provider");
    assert_eq!(cfg.default_model, "test-model");
}

#[test]
fn config_has_correct_default_values() {
    let cfg = manager().load(default_config_text().as_str()).unwrap();
    assert_eq!(cfg.default_provider, "gemini");
    assert_eq!(cfg.default_model, "gemini-1.5-pro");
}

#[test]
fn config_accepts_blank_lines_and_comments() {
    let text = "\n# the provider\ndefault_provider = \"dummy\"\n\ndefault_model = \"1\"\n";
    let cfg = manager().load(text).unwrap();
    assert_eq!(cfg.default_provider, "dummy");
    assert_eq!(cfg.default_model, "1");
}

#[test]
fn config_missing_a_key_fails_to_parse() {
    let err = manager().load("default_provider = \"dummy\"").unwrap_err();
    assert!(matches!(err, ConfigManagerError::Parse));
    assert_eq!(err.message(), "Failed to parse configuration.");
}

#[test]
fn config_with_a_malformed_line_fails_to_parse() {
    assert!(manager().load("default_provider: dummy").is_err());
    assert!(manager().load("= \"x\"").is_err());
    assert!(manager().load("default_provider = \"unterminated").is_err());
    assert!(manager().load("default_provider = \"x\" trailing").is_err());
}

#[test]
fn printer_fixes_the_plain_texts() {
    let printer = Printer::new(true);
    assert_eq!(printer.get_user_prefix(), "You:\n");
    assert_eq!(printer.plain_app_message("hi"), "llmcli:\nhi\n");
    assert_eq!(printer.plain_chatbot_prefix("Gemini"), "Gemini:\n");
    assert_eq!(printer.plain_error_message("bad"), "Error:\nbad\n");
}
