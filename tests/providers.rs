use agent_core::providers::{GoogleProvider, MessageRole};

#[test]
fn test_google_provider_creation() {
    let provider = GoogleProvider::new(
        "test-key".to_string(),
        Some("gemini-pro-vision".to_string()),
    );

    assert_eq!(provider.provider_name(), "google");
    assert_eq!(provider.model, "gemini-pro-vision");
    assert_eq!(provider.base_url, "https://generativelanguage.googleapis.com/v1beta");
}

#[test]
fn providers_default_models() {
    assert_eq!(GoogleProvider::new("k".to_string(), None).model, "gemini-pro");
    assert_eq!(GoogleProvider::new("k".to_string(), None).api_key, "k");
}

#[test]
fn providers_role_names() {
    assert_eq!(GoogleProvider::convert_message_role(MessageRole::System), "system");
    assert_eq!(GoogleProvider::convert_message_role(MessageRole::Assistant), "model");
    assert_eq!(GoogleProvider::convert_message_role(MessageRole::User), "user");
}
