use carapace::llm::client::{
    build_messages, extract_response, ChatChoice, ChatMessage, ChatResponse, LlmError, OpenAiProvider,
    OpenRouterProvider,
};

fn reply(texts: &[&str]) -> ChatResponse {
    ChatResponse {
        choices: texts
            .iter()
            .map(|t| ChatChoice { message: ChatMessage { role: "assistant".to_string(), content: t.to_string() } })
            .collect(),
    }
}

#[test]
fn openai_provider_has_correct_name() {
    let provider = OpenAiProvider;
    assert_eq!(provider.name(), "openai");
}

#[test]
fn openrouter_provider_has_correct_name() {
    let provider = OpenRouterProvider;
    assert_eq!(provider.name(), "openrouter");
}

#[test]
fn build_messages_without_system_prompt() {
    let messages = build_messages("Hello", None);
    assert_eq!(messages.len(), 1);
    assert_eq!(messages[0].role, "user");
    assert_eq!(messages[0].content, "Hello");
}

#[test]
fn build_messages_with_system_prompt() {
    let messages = build_messages("Hello", Some("Be helpful"));
    assert_eq!(messages.len(), 2);
    assert_eq!(messages[0].role, "system");
    assert_eq!(messages[0].content, "Be helpful");
    assert_eq!(messages[1].role, "user");
    assert_eq!(messages[1].content, "Hello");
}

#[test]
fn extract_response_returns_content() {
    let response = ChatResponse {
        choices: vec![ChatChoice {
            message: ChatMessage { role: "assistant".into(), content: "Hi there!".into() },
        }],
    };
    let result = extract_response(response).unwrap();
    assert_eq!(result, "Hi there!");
}

#[test]
fn extract_response_empty_choices_returns_error() {
    let response = ChatResponse { choices: vec![] };
    let result = extract_response(response);
    assert!(matches!(result, Err(LlmError::InvalidResponse)));
}

#[test]
fn extract_response_multiple_choices_uses_first() {
    let response = reply(&["First choice.", "Second choice."]);
    let result = extract_response(response).unwrap();
    assert_eq!(result, "First choice.");
}

#[test]
fn build_messages_empty_string_prompt() {
    let messages = build_messages("", Some("System"));
    assert_eq!(messages.len(), 2);
    assert_eq!(messages[1].content, "");
}

#[test]
fn build_messages_empty_system_prompt_omitted() {
    let messages = build_messages("Hello", Some(""));
    assert_eq!(messages.len(), 2);
    assert_eq!(messages[0].content, "");
}

#[test]
fn extract_response_does_not_hand_back_role() {
    let result = extract_response(reply(&["only text"])).unwrap();
    assert_eq!(result, "only text");
    assert_ne!(result, "assistant");
}

#[test]
fn http_error_display() {
    let err = LlmError::Http(reqwest::blocking::Client::new().get("http://127.0.0.1:1").send().unwrap_err());
    let msg = err.message();
    assert!(msg.starts_with("HTTP request failed: "));
}

#[test]
fn json_error_display() {
    let json_err = serde_json::from_str::<()>("invalid json").unwrap_err();
    let err = LlmError::Json(json_err);
    let msg = err.message();
    assert!(msg.starts_with("JSON error: "));
}

#[test]
fn provider_error_display() {
    let err = LlmError::Provider("rate limit exceeded".into());
    assert_eq!(err.message(), "provider returned an error: rate limit exceeded");
}

#[test]
fn missing_config_error_display() {
    let err = LlmError::MissingConfig("OPENROUTER_API_KEY not set".into());
    assert_eq!(err.message(), "missing configuration key: OPENROUTER_API_KEY not set");
}

#[test]
fn invalid_response_display() {
    let err = LlmError::InvalidResponse;
    assert_eq!(err.message(), "invalid response format");
}

#[test]
fn config_parse_error_display() {
    let err = LlmError::ConfigParse("invalid toml at line 1".into());
    assert_eq!(err.message(), "configuration parse error: invalid toml at line 1");
}

#[test]
fn http_error_from_reqwest() {
    let reqwest_err = reqwest::blocking::Client::new().get("http://127.0.0.1:1").send().unwrap_err();
    let err: LlmError = reqwest_err.into();
    assert!(matches!(err, LlmError::Http(_)));
}

#[test]
fn json_error_from_serde() {
    let serde_err = serde_json::from_str::<()>("not json").unwrap_err();
    let err: LlmError = serde_err.into();
    assert!(matches!(err, LlmError::Json(_)));
}
