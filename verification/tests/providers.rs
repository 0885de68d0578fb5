use llmrc::error::LlmError;
use llmrc::json::{Json, JsonNumber};
use llmrc::ollama::{
    self, to_ollama_message, to_ollama_request, to_ollama_tool, OllamaChunk, OllamaFailure, OllamaResponseCall,
    OllamaResponseMessage, OllamaRole,
};
use llmrc::openai::{
    self, chunk_events, to_openai_message, to_openai_request, OpenAiCallChunk, OpenAiChoice, OpenAiChoiceChunk,
    OpenAiChunk, OpenAiFailure, OpenAiFinishReason, OpenAiMessage, OpenAiResponse, OpenAiResponseCall,
    OpenAiResponseMessage, OpenAiRole, OpenAiUserContent, OpenAiUserPart,
};
use llmrc::provider::ProviderKind;
use llmrc::types::{
    ChatRequest, ContentPart, FinishReason, ImageSource, Message, MessageRole, StreamEvent, TokenCount, TokenUsage,
    ToolCall, ToolDefinition,
};

fn s(text: &str) -> Json {
    Json::String(text.to_string())
}

fn obj(fields: Vec<(&str, Json)>) -> Json {
    Json::Object(fields.into_iter().map(|(k, v)| (k.to_string(), v)).collect())
}

fn image_message(text: &str) -> Message {
    Message {
        role: MessageRole::User,
        content: vec![
            ContentPart::text(text),
            ContentPart::Image {
                source: ImageSource::Base64 { media_type: "image/png".into(), data: "aGVsbG8=".into() },
            },
        ],
        name: None,
        tool_calls: Vec::new(),
        tool_call_id: None,
    }
}

#[test]
fn request_contains_tool_schema_and_base64_image() {
    let request = ChatRequest {
        model: "llama-test".into(),
        messages: vec![image_message("What is this?")],
        temperature: None,
        max_tokens: None,
        tools: vec![ToolDefinition {
            name: "weather".into(),
            description: Some("Get weather".into()),
            parameters: obj(vec![
                ("type", s("object")),
                ("properties", obj(vec![("city", obj(vec![("type", s("string"))]))])),
            ]),
        }],
    };
    let wire = to_ollama_request(&request).unwrap();
    assert_eq!(wire.model, "llama-test");
    assert_eq!(wire.messages[0].images[0], "aGVsbG8=");
    assert_eq!(wire.tools[0].name, "weather");
}

#[test]
fn request_serializes_tools_and_multimodal_user_content() {
    let request = ChatRequest {
        model: "gpt-test".into(),
        messages: vec![image_message("Describe this")],
        temperature: None,
        max_tokens: None,
        tools: vec![ToolDefinition {
            name: "weather".into(),
            description: Some("Get weather".into()),
            parameters: obj(vec![("type", s("object"))]),
        }],
    };
    let wire = to_openai_request(&request).unwrap();
    assert_eq!(wire.model, "gpt-test");
    assert_eq!(wire.tools.as_ref().unwrap()[0].name, "weather");
    match &wire.messages[0] {
        OpenAiMessage::User { content: OpenAiUserContent::Parts(parts), .. } => {
            assert_eq!(parts[1], OpenAiUserPart::ImageUrl("data:image/png;base64,aGVsbG8=".into()))
        }
        other => panic!("unexpected message {other:?}"),
    }
}

#[test]
fn openai_messages_take_their_wire_forms() {
    assert_eq!(
        to_openai_message(&Message::user("hi")).unwrap(),
        OpenAiMessage::User { content: OpenAiUserContent::Text("hi".into()), name: None }
    );
    assert_eq!(to_openai_message(&Message::system("be brief")).unwrap(), OpenAiMessage::System { content: "be brief".into() });
    let mut assistant = Message::assistant("");
    assistant.tool_calls.push(ToolCall { id: "c1".into(), name: "weather".into(), arguments: obj(vec![("city", s("Paris"))]) });
    match to_openai_message(&assistant).unwrap() {
        OpenAiMessage::Assistant { content, tool_calls } => {
            assert_eq!(content, None);
            let calls = tool_calls.unwrap();
            assert_eq!(calls[0].id, "c1");
            assert_eq!(calls[0].arguments, "{\"city\":\"Paris\"}");
        }
        other => panic!("unexpected message {other:?}"),
    }
    let mut orphan = Message::tool("x", "result");
    orphan.tool_call_id = None;
    match to_openai_message(&orphan) {
        Err(LlmError::InvalidRequest(m)) => assert_eq!(m, "tool messages require tool_call_id"),
        other => panic!("unexpected result {other:?}"),
    }
    let request = ChatRequest { messages: vec![Message::user("a"), orphan], ..ChatRequest::default() };
    assert!(to_openai_request(&request).is_err());
    assert!(to_openai_request(&ChatRequest::default()).unwrap().tools.is_none());
}

#[test]
fn openai_responses_read_back_into_chat_types() {
    let message = OpenAiResponseMessage {
        role: OpenAiRole::Function,
        content: None,
        tool_calls: Some(vec![
            OpenAiResponseCall::Function { id: "a".into(), name: "f".into(), arguments: "{\"x\":1}".into() },
            OpenAiResponseCall::Custom,
            OpenAiResponseCall::Function { id: "b".into(), name: "g".into(), arguments: "not json".into() },
        ]),
    };
    let m = openai::response_message(&message);
    assert_eq!(m.role, MessageRole::Tool);
    assert_eq!(m.text(), "");
    assert_eq!(m.tool_calls.len(), 2);
    assert_eq!(m.tool_calls[0].arguments, obj(vec![("x", Json::Number(JsonNumber::PosInt(1)))]));
    assert_eq!(m.tool_calls[1].arguments, s("not json"));

    let empty = OpenAiResponse { id: "r".into(), model: "m".into(), choices: Vec::new(), usage: None };
    match openai::chat_response(&empty) {
        Err(LlmError::Decode(m)) => assert_eq!(m, "provider returned no choices"),
        _ => panic!("expected a decode error"),
    }
    let full = OpenAiResponse {
        id: "r".into(),
        model: "m".into(),
        choices: vec![OpenAiChoice {
            message: OpenAiResponseMessage { role: OpenAiRole::Assistant, content: Some("hello".into()), tool_calls: None },
            finish_reason: Some(OpenAiFinishReason::FunctionCall),
        }],
        usage: Some((3, 4, 7)),
    };
    let response = openai::chat_response(&full).unwrap();
    assert_eq!(response.id.as_deref(), Some("r"));
    assert_eq!(response.message.text(), "hello");
    assert_eq!(response.finish_reason, Some(FinishReason::ToolCalls));
    assert_eq!(
        response.usage,
        Some(TokenUsage { prompt_tokens: 3, completion_tokens: 4, total_tokens: 7, count_type: TokenCount::ProviderReported })
    );
}

#[test]
fn openai_stream_chunks_become_events_in_order() {
    let chunk = OpenAiChunk {
        usage: Some((1, 2, 3)),
        choices: vec![OpenAiChoiceChunk {
            content: Some("hi".into()),
            tool_calls: Some(vec![OpenAiCallChunk { index: 0, id: Some("c".into()), name: Some("f".into()), arguments: None }]),
            finish_reason: Some(OpenAiFinishReason::Stop),
        }],
    };
    let events = chunk_events(&chunk);
    assert_eq!(events.len(), 4);
    assert!(matches!(events[0], StreamEvent::Usage(TokenUsage { total_tokens: 3, .. })));
    assert_eq!(events[1], StreamEvent::TextDelta { text: "hi".into() });
    assert!(matches!(&events[2], StreamEvent::ToolCallDelta(d) if d.id.as_deref() == Some("c")));
    assert_eq!(events[3], StreamEvent::Completed { finish_reason: Some(FinishReason::Stop) });
}

#[test]
fn openai_errors_map_by_status() {
    let api = |status: u16| OpenAiFailure::Api { status, message: "m".into() };
    assert!(matches!(openai::map_error(api(401)), LlmError::Authentication));
    assert!(matches!(openai::map_error(api(403)), LlmError::Authentication));
    assert!(matches!(openai::map_error(api(429)), LlmError::RateLimited { retry_after: None }));
    assert!(matches!(openai::map_error(api(503)), LlmError::Server(_)));
    assert!(matches!(openai::map_error(api(404)), LlmError::Provider(_)));
    assert!(matches!(openai::map_error(OpenAiFailure::Http("x".into())), LlmError::Transport(_)));
    assert!(matches!(openai::map_error(OpenAiFailure::Json("x".into())), LlmError::Decode(_)));
    assert!(matches!(openai::map_error(OpenAiFailure::InvalidArgument("x".into())), LlmError::InvalidRequest(_)));
    assert!(matches!(openai::map_error(OpenAiFailure::Stream("x".into())), LlmError::Transport(_)));
    assert!(matches!(openai::map_error(OpenAiFailure::Other("x".into())), LlmError::Provider(_)));
}

#[test]
fn providers_report_kind_and_capabilities() {
    assert_eq!(openai::provider_kind(openai::OpenAiBackend::OpenAi), ProviderKind::OpenAi);
    assert_eq!(openai::provider_kind(openai::OpenAiBackend::Azure), ProviderKind::AzureOpenAi);
    assert_eq!(ollama::provider_kind(), ProviderKind::Ollama);
    assert!(ollama::capabilities().multimodal && openai::capabilities().streaming);
}

#[test]
fn ollama_refuses_url_images() {
    let message = Message {
        role: MessageRole::User,
        content: vec![ContentPart::Image { source: ImageSource::Url { url: "https://x/y.png".into(), detail: None } }],
        name: None,
        tool_calls: Vec::new(),
        tool_call_id: None,
    };
    match to_ollama_message(&message) {
        Err(LlmError::Unsupported(m)) => {
            assert_eq!(m, "Ollama accepts base64 images; URL images must be downloaded by the caller")
        }
        _ => panic!("URL image accepted"),
    }
    let ok = to_ollama_message(&image_message("see")).unwrap();
    assert_eq!(ok.role, OllamaRole::User);
    assert_eq!(ok.content, "see");
    assert_eq!(ok.images, vec!["aGVsbG8=".to_string()]);
}

#[test]
fn ollama_refuses_schemas_that_are_not_objects() {
    let tool = |parameters: Json| ToolDefinition { name: "t".into(), description: None, parameters };
    let taken = to_ollama_tool(&tool(obj(vec![]))).unwrap();
    assert_eq!(taken.description, "");
    assert!(to_ollama_tool(&tool(Json::Bool(true))).is_ok());
    match to_ollama_tool(&tool(s("nope"))) {
        Err(LlmError::InvalidRequest(m)) => assert!(m.starts_with("invalid tool schema: ")),
        _ => panic!("schema accepted"),
    }
    let request = ChatRequest { tools: vec![tool(Json::Null)], ..ChatRequest::default() };
    assert!(to_ollama_request(&request).is_err());
}

#[test]
fn ollama_responses_number_their_tool_calls() {
    let message = OllamaResponseMessage {
        role: OllamaRole::Assistant,
        content: "ok".into(),
        tool_calls: (0..12)
            .map(|i| OllamaResponseCall { name: format!("f{i}"), arguments: obj(vec![]) })
            .collect(),
    };
    let m = ollama::response_message(&message);
    assert_eq!(m.text(), "ok");
    assert_eq!(m.tool_calls[0].id, "0");
    assert_eq!(m.tool_calls[11].id, "11");
    assert_eq!(m.tool_calls[11].name, "f11");
    let response = ollama::chat_response("llama".into(), &message, Some((5, 6)));
    assert_eq!(response.usage.unwrap().total_tokens, 11);
    assert_eq!(response.finish_reason, Some(FinishReason::Stop));
    assert!(response.id.is_none());
}

#[test]
fn ollama_stream_chunks_become_events_in_order() {
    let chunk = OllamaChunk {
        content: "part".into(),
        tool_calls: vec![OllamaResponseCall { name: "f".into(), arguments: obj(vec![("a", Json::Bool(true))]) }],
        done: true,
        final_data: Some((2, 3)),
    };
    let events = ollama::chunk_events(&chunk);
    assert_eq!(events.len(), 4);
    assert_eq!(events[0], StreamEvent::TextDelta { text: "part".into() });
    match &events[1] {
        StreamEvent::ToolCallDelta(d) => {
            assert_eq!(d.index, 0);
            assert_eq!(d.arguments.as_deref(), Some("{\"a\":true}"));
        }
        other => panic!("unexpected event {other:?}"),
    }
    assert!(matches!(events[2], StreamEvent::Usage(TokenUsage { total_tokens: 5, .. })));
    assert_eq!(events[3], StreamEvent::Completed { finish_reason: Some(FinishReason::Stop) });
    let quiet = OllamaChunk { content: String::new(), tool_calls: Vec::new(), done: false, final_data: None };
    assert!(ollama::chunk_events(&quiet).is_empty());
    assert!(matches!(ollama::stream_failure(), LlmError::Transport(m) if m == "Ollama stream read failed"));
}

#[test]
fn ollama_errors_map_by_kind() {
    assert!(matches!(ollama::map_error(OllamaFailure::Json("x".into())), LlmError::Decode(_)));
    assert!(matches!(ollama::map_error(OllamaFailure::Reqwest("x".into())), LlmError::Transport(_)));
    assert!(matches!(ollama::map_error(OllamaFailure::Internal("x".into())), LlmError::Server(_)));
    assert!(matches!(ollama::map_error(OllamaFailure::ToolCall("x".into())), LlmError::Provider(_)));
    assert!(matches!(ollama::map_error(OllamaFailure::Other("x".into())), LlmError::Provider(_)));
}

#[test]
fn call_arguments_are_sent_as_compact_json_text() {
    let mut assistant = Message::assistant("");
    assistant.tool_calls.push(ToolCall {
        id: "c".into(),
        name: "f".into(),
        arguments: obj(vec![("k", Json::Array(vec![Json::Null, s("v")]))]),
    });
    match to_openai_message(&assistant).unwrap() {
        OpenAiMessage::Assistant { tool_calls: Some(calls), .. } => {
            assert_eq!(calls[0].arguments, "{\"k\":[null,\"v\"]}")
        }
        other => panic!("unexpected message {other:?}"),
    }
}
