use llmrc::duration::Duration;
use llmrc::error::{ErrorKind, LlmError, Secret};
use llmrc::types::{ContentPart, Message, MessageRole};

#[test]
fn secret_debug_is_redacted_and_retry_classification_is_stable() {
    let secret = Secret::new("do-not-print");
    assert!(!secret.redacted().contains("do-not-print"));
    assert!(LlmError::Timeout.is_retryable());
    assert!(!LlmError::Authentication.is_retryable());
    assert_eq!(LlmError::Cancelled.kind(), ErrorKind::Cancelled);
}

#[test]
fn secret_exposes_its_value_on_request() {
    let secret = Secret::new("token-1");
    assert_eq!(secret.expose(), "token-1");
    assert_eq!(secret.redacted(), "Secret(REDACTED)");
}

#[test]
fn every_error_has_its_kind_and_only_transient_ones_retry() {
    let cases = vec![
        (LlmError::InvalidRequest("x".into()), ErrorKind::InvalidRequest, false),
        (LlmError::Configuration("x".into()), ErrorKind::Configuration, false),
        (LlmError::Authentication, ErrorKind::Authentication, false),
        (LlmError::RateLimited { retry_after: None }, ErrorKind::RateLimited, true),
        (LlmError::Server("x".into()), ErrorKind::Server, true),
        (LlmError::Transport("x".into()), ErrorKind::Transport, true),
        (LlmError::Decode("x".into()), ErrorKind::Decode, false),
        (LlmError::Cancelled, ErrorKind::Cancelled, false),
        (LlmError::Timeout, ErrorKind::Timeout, true),
        (LlmError::Unsupported("x".into()), ErrorKind::Unsupported, false),
        (LlmError::Provider("x".into()), ErrorKind::Provider, false),
    ];
    for (error, kind, retryable) in cases {
        assert_eq!(error.kind(), kind);
        assert_eq!(error.is_retryable(), retryable);
    }
}

#[test]
fn message_text_joins_text_parts_and_skips_images() {
    let message = Message {
        role: MessageRole::User,
        content: vec![
            ContentPart::text("look "),
            ContentPart::Image {
                source: llmrc::types::ImageSource::Url { url: "https://x/y.png".into(), detail: None },
            },
            ContentPart::text("here"),
        ],
        name: None,
        tool_calls: Vec::new(),
        tool_call_id: None,
    };
    assert_eq!(message.text(), "look here");
    assert_eq!(ContentPart::text("a").as_text(), Some("a"));
    assert_eq!(message.content[1].as_text(), None);
}

#[test]
fn message_constructors_set_role_and_text() {
    assert_eq!(Message::system("s").role, MessageRole::System);
    assert_eq!(Message::user("u").role, MessageRole::User);
    assert_eq!(Message::assistant("a").role, MessageRole::Assistant);
    let tool = Message::tool("call_7", "done");
    assert_eq!(tool.role, MessageRole::Tool);
    assert_eq!(tool.tool_call_id.as_deref(), Some("call_7"));
    assert_eq!(tool.text(), "done");
}

#[test]
fn durations_keep_seconds_and_nanoseconds() {
    let d = Duration::new(3, 500);
    assert_eq!(d.as_secs(), 3);
    assert_eq!(d.subsec_nanos(), 500);
    assert_eq!(Duration::from_millis(1500).as_nanos(), 1_500_000_000);
    assert_eq!(Duration::from_secs(2).min(Duration::from_secs(1)), Duration::from_secs(1));
    assert_eq!(Duration::from_secs(3).half(), Duration::from_millis(1500));
    assert_eq!(Duration::from_secs(1).saturating_sub(Duration::from_secs(2)), Duration::zero());
    assert_eq!(Duration::from_secs(1).checked_mul(4), Some(Duration::from_secs(4)));
}
