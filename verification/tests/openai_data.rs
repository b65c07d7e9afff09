use templify::openai::{
    strip_fences, AudioFile, AudioResponse, ChatChoice, ChatCompletionResponse, ChatMessage,
    ChatMessageResponse, ChatResponseFormat, ConfigError, OpenAiConfig,
};

#[test]
fn strip_fences_plain_text_is_trimmed() {
    assert_eq!(strip_fences("  {\"a\":1}\n".to_string()), "{\"a\":1}");
}

#[test]
fn strip_fences_removes_code_fence() {
    assert_eq!(strip_fences("```\n{\"a\":1}\n```".to_string()), "{\"a\":1}");
}

#[test]
fn strip_fences_keeps_language_tag() {
    assert_eq!(strip_fences("```json\n{\"a\":1}\n```  ".to_string()), "json\n{\"a\":1}");
}

#[test]
fn strip_fences_without_closing_fence() {
    assert_eq!(strip_fences("```  body text ".to_string()), "body text");
}

#[test]
fn strip_fences_uses_last_fence() {
    assert_eq!(strip_fences("```a```b```".to_string()), "a```b");
}

#[test]
fn strip_fences_fence_only() {
    assert_eq!(strip_fences("```".to_string()), "");
}

#[test]
fn response_format_request_kind() {
    assert_eq!(ChatResponseFormat::JsonObject.into_request().kind, "json_object");
}

#[test]
fn chat_message_roles() {
    let s = ChatMessage::system("rules".to_string());
    assert_eq!(s.role, "system");
    assert_eq!(s.content, "rules");
    let u = ChatMessage::user("ask".to_string());
    assert_eq!(u.role, "user");
    assert_eq!(u.content, "ask");
}

#[test]
fn audio_file_names() {
    let f = AudioFile::new("clip.wav".to_string(), vec![1, 2]);
    assert_eq!(f.name, "clip.wav");
    assert_eq!(f.bytes, vec![1, 2]);
    let g = AudioFile::for_segment(42, vec![3]);
    assert_eq!(g.name, "segment-42.wav");
    assert_eq!(g.bytes, vec![3]);
    assert!(g.has_audio());
    assert!(!AudioFile::new("x.wav".to_string(), vec![]).has_audio());
}

#[test]
fn reply_text_takes_first_choice() {
    let body = ChatCompletionResponse {
        choices: vec![
            ChatChoice {
                message: Some(ChatMessageResponse { content: Some("```\n ok \n```".to_string()) }),
            },
            ChatChoice { message: Some(ChatMessageResponse { content: Some("second".to_string()) }) },
        ],
    };
    assert_eq!(body.reply_text(), "ok");
}

#[test]
fn reply_text_empty_when_missing() {
    assert_eq!(ChatCompletionResponse { choices: vec![] }.reply_text(), "");
    let no_message = ChatCompletionResponse { choices: vec![ChatChoice { message: None }] };
    assert_eq!(no_message.reply_text(), "");
    let no_content = ChatCompletionResponse {
        choices: vec![ChatChoice { message: Some(ChatMessageResponse { content: None }) }],
    };
    assert_eq!(no_content.reply_text(), "");
}

#[test]
fn transcript_is_trimmed() {
    assert_eq!(AudioResponse { text: Some("  hi there \n".to_string()) }.transcript(), "hi there");
    assert_eq!(AudioResponse { text: None }.transcript(), "");
}

#[test]
fn config_defaults() {
    let c = OpenAiConfig::from_env(Some("k".to_string()), None, None, None, None).unwrap();
    assert_eq!(c.api_key, "k");
    assert_eq!(c.base_url, "https://api.openai.com/v1/");
    assert_eq!(c.template_model, "gpt-5.2");
    assert_eq!(c.transcribe_model, "gpt-4o-transcribe");
    assert_eq!(
        c.endpoint("chat/completions").unwrap(),
        "https://api.openai.com/v1/chat/completions"
    );
}

#[test]
fn config_trailing_slashes_collapse() {
    let c = OpenAiConfig::from_env(
        Some("k".to_string()),
        Some("http://localhost:8080/api///".to_string()),
        None,
        Some("legacy".to_string()),
        Some("whisper".to_string()),
    )
    .unwrap();
    assert_eq!(c.base_url, "http://localhost:8080/api/");
    assert_eq!(c.template_model, "legacy");
    assert_eq!(c.transcribe_model, "whisper");
    assert_eq!(
        c.endpoint("audio/transcriptions").unwrap(),
        "http://localhost:8080/api/audio/transcriptions"
    );
}

#[test]
fn config_primary_template_model_wins() {
    let c = OpenAiConfig::from_env(
        Some("k".to_string()),
        None,
        Some("primary".to_string()),
        Some("legacy".to_string()),
        None,
    )
    .unwrap();
    assert_eq!(c.template_model, "primary");
}

#[test]
fn config_missing_key() {
    let e = OpenAiConfig::from_env(None, Some("not a url".to_string()), None, None, None).unwrap_err();
    assert!(matches!(e, ConfigError::MissingApiKey));
    assert_eq!(e.message(), "OPENAI_API_KEY is not set. Provide it via environment or .env file.");
}

#[test]
fn config_invalid_base_url() {
    let e = OpenAiConfig::from_env(Some("k".to_string()), Some("not a url".to_string()), None, None, None)
        .unwrap_err();
    assert!(matches!(e, ConfigError::InvalidBaseUrl));
    assert_eq!(e.message(), "OPENAI_BASE_URL is not a valid URL");
    assert_eq!(ConfigError::InvalidEndpoint.message(), "Failed to build OpenAI request URL");
}

#[test]
fn config_base_url_is_parsed_serialization() {
    let c = OpenAiConfig::from_env(Some("k".to_string()), Some("HTTPS://Example.COM/v1".to_string()), None, None, None)
        .unwrap();
    assert_eq!(c.base_url, "https://example.com/v1/");
    assert_eq!(c.endpoint("../x").unwrap(), "https://example.com/x");
    assert_eq!(c.endpoint("https://other.org/a").unwrap(), "https://other.org/a");
}

#[test]
fn config_endpoint_fails_on_bad_reference() {
    let c = OpenAiConfig::from_env(Some("k".to_string()), None, None, None, None).unwrap();
    let e = c.endpoint("http://[::1").unwrap_err();
    assert!(matches!(e, ConfigError::InvalidEndpoint));
}
