//! The OpenAI and Azure OpenAI wire mapping: requests built from chat types,
//! and responses, stream chunks, usage and errors read back.
//!
//! The types here hold, as plain values, what the chat completion API sends
//! and receives; the client that talks to the service converts them one for
//! one into the SDK's types.

use crate::error::LlmError;
use crate::provider::{ProviderCapabilities, ProviderKind};
use crate::json::{json_text, parse_json, serde_json_parse, serde_json_text, Json, JsonV};
use crate::types::{
    message_text, ChatRequest, ChatResponse, ContentPart, FinishReason, ImageSource, Message, MessageRole,
    StreamEvent, Temperature, TokenCount, TokenUsage, ToolCall, ToolCallDelta, ToolDefinition,
};
use vstd::prelude::*;

verus! {

/// One part of a multimodal user message.
#[derive(Debug, Clone, PartialEq, Eq)]
pub enum OpenAiUserPart {
    Text(String),
    ImageUrl(String),
}

/// The content of a user message: plain text, or parts.
#[derive(Debug, Clone, PartialEq, Eq)]
pub enum OpenAiUserContent {
    Text(String),
    Parts(Vec<OpenAiUserPart>),
}

/// A function call in an assistant message, with its arguments as JSON text.
#[derive(Debug, Clone, PartialEq, Eq)]
pub struct OpenAiToolCall {
    pub id: String,
    pub name: String,
    pub arguments: String,
}

/// A message of a chat completion request.
#[derive(Debug, Clone, PartialEq, Eq)]
pub enum OpenAiMessage {
    System { content: String },
    User { content: OpenAiUserContent, name: Option<String> },
    Assistant { content: Option<String>, tool_calls: Option<Vec<OpenAiToolCall>> },
    Tool { content: String, tool_call_id: String },
}

/// A function tool offered in a request.
#[derive(Debug, PartialEq)]
pub struct OpenAiTool {
    pub name: String,
    pub description: Option<String>,
    pub parameters: Json,
}

/// A chat completion request.
#[derive(Debug)]
pub struct OpenAiRequest {
    pub model: String,
    pub messages: Vec<OpenAiMessage>,
    pub temperature: Option<Temperature>,
    pub max_completion_tokens: Option<u32>,
    pub tools: Option<Vec<OpenAiTool>>,
}

/// The text of an image part: its URL, or a `data:` URI of its base64 bytes.
pub open spec fn image_url_text(source: ImageSource) -> Seq<char> {
    match source {
        ImageSource::Url { url, .. } => url@,
        ImageSource::Base64 { media_type, data } => "data:"@ + media_type@ + ";base64,"@ + data@,
    }
}

/// The wire part of a content part.
pub open spec fn user_part_of(p: ContentPart, w: OpenAiUserPart) -> bool {
    match p {
        ContentPart::Text { text } => w matches OpenAiUserPart::Text(t) && t@ == text@,
        ContentPart::Image { source } => w matches OpenAiUserPart::ImageUrl(u) && u@
            == image_url_text(source),
    }
}

/// The wire calls of an assistant message's tool calls.
pub open spec fn openai_calls_of(m: Message, calls: Seq<OpenAiToolCall>) -> bool {
    &&& calls.len() == m.tool_calls@.len()
    &&& forall|i: int|
        0 <= i < calls.len() ==> {
            &&& (#[trigger] calls[i]).id@ == m.tool_calls@[i].id@
            &&& calls[i].name@ == m.tool_calls@[i].name@
            &&& calls[i].arguments@ == serde_json_text(m.tool_calls@[i].arguments@)
        }
}

/// The wire content of a user message: its text when it is a single text
/// part, else one wire part per content part.
pub open spec fn user_content_of(m: Message, content: OpenAiUserContent) -> bool {
    if m.content@.len() == 1 && m.content@[0] is Text {
        content matches OpenAiUserContent::Text(t) && t@ == message_text(m@)
    } else {
        &&& content matches OpenAiUserContent::Parts(parts)
        &&& parts@.len() == m.content@.len()
        &&& forall|i: int| 0 <= i < parts@.len() ==> user_part_of(m.content@[i], #[trigger] parts@[i])
    }
}

/// The wire form of an assistant message: its text unless empty, and its tool
/// calls unless there are none.
pub open spec fn assistant_of(m: Message, content: Option<String>, tool_calls: Option<Vec<OpenAiToolCall>>) -> bool {
    &&& (message_text(m@).len() == 0 ==> content is None)
    &&& (message_text(m@).len() > 0 ==> (content matches Some(c) && c@ == message_text(m@)))
    &&& (m.tool_calls@.len() == 0 ==> tool_calls is None)
    &&& (m.tool_calls@.len() > 0 ==> (tool_calls matches Some(calls) && openai_calls_of(m, calls@)))
}

/// The wire form of a message, or the error for a tool message without the
/// id of the call it answers.
pub open spec fn openai_message_of(m: Message, r: Result<OpenAiMessage, LlmError>) -> bool {
    let text = message_text(m@);
    match m.role {
        MessageRole::System => r matches Ok(OpenAiMessage::System { content }) && content@ == text,
        MessageRole::User => r matches Ok(OpenAiMessage::User { content, name }) && name == m.name
            && user_content_of(m, content),
        MessageRole::Assistant => r matches Ok(OpenAiMessage::Assistant { content, tool_calls })
            && assistant_of(m, content, tool_calls),
        MessageRole::Tool => match m.tool_call_id {
            Some(id) => r matches Ok(OpenAiMessage::Tool { content, tool_call_id }) && content@
                == text && tool_call_id@ == id@,
            None => r matches Err(LlmError::InvalidRequest(e)) && e@
                == "tool messages require tool_call_id"@,
        },
    }
}

/// The wire part of a content part.
fn user_part(part: &ContentPart) -> (w: OpenAiUserPart)
    ensures
        user_part_of(*part, w),
{
    match part {
        ContentPart::Text { text } => OpenAiUserPart::Text(text.clone()),
        ContentPart::Image { source } => match source {
            ImageSource::Url { url, .. } => OpenAiUserPart::ImageUrl(url.clone()),
            ImageSource::Base64 { media_type, data } => {
                let mut u = String::from_str("data:");
                u.append(media_type.as_str());
                u.append(";base64,");
                u.append(data.as_str());
                OpenAiUserPart::ImageUrl(u)
            },
        },
    }
}

/// The wire form of a message.
pub fn to_openai_message(message: &Message) -> (r: Result<OpenAiMessage, LlmError>)
    ensures
        openai_message_of(*message, r),
{
    let text = message.text();
    match message.role {
        MessageRole::System => Ok(OpenAiMessage::System { content: text }),
        MessageRole::User => {
            let single_text = message.content.len() == 1 && message.content[0].as_text().is_some();
            let content = if single_text {
                OpenAiUserContent::Text(text)
            } else {
                let mut parts: Vec<OpenAiUserPart> = Vec::new();
                let mut i: usize = 0;
                while i < message.content.len()
                    invariant
                        i <= message.content@.len(),
                        parts@.len() == i,
                        forall|j: int|
                            0 <= j < i ==> user_part_of(message.content@[j], #[trigger] parts@[j]),
                    decreases message.content@.len() - i,
                {
                    parts.push(user_part(&message.content[i]));
                    i = i + 1;
                }
                OpenAiUserContent::Parts(parts)
            };
            Ok(OpenAiMessage::User { content, name: crate::types::copy_opt_string(&message.name) })
        },
        MessageRole::Assistant => {
            let tool_calls = if message.tool_calls.len() == 0 {
                None
            } else {
                let mut calls: Vec<OpenAiToolCall> = Vec::new();
                let mut i: usize = 0;
                while i < message.tool_calls.len()
                    invariant
                        i <= message.tool_calls@.len(),
                        calls@.len() == i,
                        forall|j: int|
                            0 <= j < i ==> {
                                &&& (#[trigger] calls@[j]).id@ == message.tool_calls@[j].id@
                                &&& calls@[j].name@ == message.tool_calls@[j].name@
                                &&& calls@[j].arguments@ == serde_json_text(
                                    message.tool_calls@[j].arguments@,
                                )
                            },
                    decreases message.tool_calls@.len() - i,
                {
                    let call = &message.tool_calls[i];
                    calls.push(
                        OpenAiToolCall {
                            id: call.id.clone(),
                            name: call.name.clone(),
                            arguments: json_text(&call.arguments),
                        },
                    );
                    i = i + 1;
                }
                Some(calls)
            };
            let content = if text.as_str().is_empty() {
                None
            } else {
                Some(text)
            };
            Ok(OpenAiMessage::Assistant { content, tool_calls })
        },
        MessageRole::Tool => match &message.tool_call_id {
            Some(id) => Ok(OpenAiMessage::Tool { content: text, tool_call_id: id.clone() }),
            None => Err(
                LlmError::InvalidRequest(String::from_str("tool messages require tool_call_id")),
            ),
        },
    }
}

/// The wire form of a tool definition.
pub fn to_openai_tool(tool: &ToolDefinition) -> (t: OpenAiTool)
    ensures
        t.name@ == tool.name@,
        t.description == tool.description,
        t.parameters@ == tool.parameters@,
{
    OpenAiTool {
        name: tool.name.clone(),
        description: crate::types::copy_opt_string(&tool.description),
        parameters: tool.parameters.clone(),
    }
}

/// The wire form of a chat request: every message converted in order (the
/// first failure is returned), the temperature and token limit passed on, and
/// the tools offered only when there are any.
pub fn to_openai_request(request: &ChatRequest) -> (r: Result<OpenAiRequest, LlmError>)
    ensures
        r matches Ok(w) ==> {
            &&& w.model@ == request.model@
            &&& w.messages@.len() == request.messages@.len()
            &&& forall|i: int|
                0 <= i < w.messages@.len() ==> openai_message_of(
                    request.messages@[i],
                    Ok(#[trigger] w.messages@[i]),
                )
            &&& w.temperature == request.temperature
            &&& w.max_completion_tokens == request.max_tokens
            &&& (request.tools@.len() == 0 <==> w.tools is None)
            &&& (w.tools matches Some(ts) ==> ts@.len() == request.tools@.len() && forall|i: int|
                0 <= i < ts@.len() ==> (#[trigger] ts@[i]).name@ == request.tools@[i].name@
                    && ts@[i].description == request.tools@[i].description && ts@[i].parameters@
                    == request.tools@[i].parameters@)
        },
        r matches Err(e) ==> exists|i: int|
            0 <= i < request.messages@.len() && openai_message_of(
                #[trigger] request.messages@[i],
                Err(e),
            ),
{
    let mut messages: Vec<OpenAiMessage> = Vec::new();
    let mut i: usize = 0;
    while i < request.messages.len()
        invariant
            i <= request.messages@.len(),
            messages@.len() == i,
            forall|j: int|
                0 <= j < i ==> openai_message_of(request.messages@[j], Ok(#[trigger] messages@[j])),
        decreases request.messages@.len() - i,
    {
        match to_openai_message(&request.messages[i]) {
            Ok(m) => messages.push(m),
            Err(e) => return Err(e),
        }
        i = i + 1;
    }
    let tools = if request.tools.len() == 0 {
        None
    } else {
        let mut ts: Vec<OpenAiTool> = Vec::new();
        let mut j: usize = 0;
        while j < request.tools.len()
            invariant
                j <= request.tools@.len(),
                ts@.len() == j,
                forall|k: int|
                    0 <= k < j ==> (#[trigger] ts@[k]).name@ == request.tools@[k].name@
                        && ts@[k].description == request.tools@[k].description && ts@[k].parameters@
                        == request.tools@[k].parameters@,
            decreases request.tools@.len() - j,
        {
            ts.push(to_openai_tool(&request.tools[j]));
            j = j + 1;
        }
        Some(ts)
    };
    Ok(
        OpenAiRequest {
            model: request.model.clone(),
            messages,
            temperature: request.temperature,
            max_completion_tokens: request.max_tokens,
            tools,
        },
    )
}


/// The role of a response message.
#[derive(Debug, Clone, Copy, PartialEq, Eq, Structural)]
pub enum OpenAiRole {
    Developer,
    System,
    User,
    Assistant,
    Tool,
    Function,
}

/// A tool call in a response message.
#[derive(Debug, Clone, PartialEq, Eq)]
pub enum OpenAiResponseCall {
    /// A function call; its arguments are JSON text.
    Function { id: String, name: String, arguments: String },
    /// A custom tool call, which the chat types do not carry.
    Custom,
}

/// The message of a response choice.
#[derive(Debug, Clone, PartialEq, Eq)]
pub struct OpenAiResponseMessage {
    pub role: OpenAiRole,
    pub content: Option<String>,
    pub tool_calls: Option<Vec<OpenAiResponseCall>>,
}

/// Why the service stopped.
#[derive(Debug, Clone, Copy, PartialEq, Eq, Structural)]
pub enum OpenAiFinishReason {
    Stop,
    Length,
    ToolCalls,
    ContentFilter,
    FunctionCall,
}

/// The chat role of a response role; developer instructions count as system
/// messages, function results as tool results.
pub open spec fn role_of(r: OpenAiRole) -> MessageRole {
    match r {
        OpenAiRole::Developer => MessageRole::System,
        OpenAiRole::System => MessageRole::System,
        OpenAiRole::User => MessageRole::User,
        OpenAiRole::Assistant => MessageRole::Assistant,
        OpenAiRole::Tool => MessageRole::Tool,
        OpenAiRole::Function => MessageRole::Tool,
    }
}

/// The arguments of a function call: the JSON they parse as, or, when they do
/// not parse, the text itself as a JSON string.
pub open spec fn arguments_of(text: Seq<char>) -> JsonV {
    match serde_json_parse(text) {
        Ok(v) => v,
        Err(_) => JsonV::String(text),
    }
}

/// The function calls among a response's calls, in order.
pub open spec fn function_calls(calls: Seq<OpenAiResponseCall>) -> Seq<OpenAiResponseCall>
    decreases calls.len(),
{
    if calls.len() == 0 {
        Seq::empty()
    } else {
        function_calls(calls.drop_last()) + if calls.last() is Function {
            seq![calls.last()]
        } else {
            Seq::empty()
        }
    }
}

/// A chat tool call read from a function call.
pub open spec fn tool_call_of(w: OpenAiResponseCall, c: ToolCall) -> bool {
    match w {
        OpenAiResponseCall::Function { id, name, arguments } => c.id@ == id@ && c.name@ == name@
            && c.arguments@ == arguments_of(arguments@),
        OpenAiResponseCall::Custom => false,
    }
}

/// The arguments of a function call, parsed.
fn parse_arguments(text: &String) -> (j: Json)
    ensures
        j@ == arguments_of(text@),
{
    match parse_json(text.as_str()) {
        Ok(v) => v,
        Err(_) => Json::String(text.clone()),
    }
}

/// The chat message of a response message: its role, its text (empty when
/// absent) in one part, and its function calls; custom tool calls are left
/// out.
pub open spec fn response_message_of(message: OpenAiResponseMessage, m: Message) -> bool {
    &&& m@.role == role_of(message.role)
    &&& message_text(m@) == match message.content {
        Some(c) => c@,
        None => Seq::empty(),
    }
    &&& m@.content.len() == 1
    &&& m@.name is None
    &&& m@.tool_call_id is None
    &&& (message.tool_calls is None ==> m.tool_calls@.len() == 0)
    &&& (message.tool_calls matches Some(calls) ==> {
        let fs = function_calls(calls@);
        &&& m.tool_calls@.len() == fs.len()
        &&& forall|i: int| 0 <= i < fs.len() ==> tool_call_of(fs[i], #[trigger] m.tool_calls@[i])
    })
}

/// The chat message of a response message: its role, its text (empty when
/// absent) and its function calls; custom tool calls are left out.
pub fn response_message(message: &OpenAiResponseMessage) -> (m: Message)
    ensures
        response_message_of(*message, m),
{
    let role = match message.role {
        OpenAiRole::Developer => MessageRole::System,
        OpenAiRole::System => MessageRole::System,
        OpenAiRole::User => MessageRole::User,
        OpenAiRole::Assistant => MessageRole::Assistant,
        OpenAiRole::Tool => MessageRole::Tool,
        OpenAiRole::Function => MessageRole::Tool,
    };
    let text = match &message.content {
        Some(c) => c.clone(),
        None => String::new(),
    };
    let mut result = Message::new(role, text.as_str());
    match &message.tool_calls {
        None => {},
        Some(calls) => {
            let mut out: Vec<ToolCall> = Vec::new();
            let mut i: usize = 0;
            while i < calls.len()
                invariant
                    i <= calls@.len(),
                    out@.len() == function_calls(calls@.take(i as int)).len(),
                    forall|j: int|
                        0 <= j < out@.len() ==> tool_call_of(
                            function_calls(calls@.take(i as int))[j],
                            #[trigger] out@[j],
                        ),
                decreases calls@.len() - i,
            {
                assert(calls@.take(i + 1).drop_last() =~= calls@.take(i as int));
                let ghost before = function_calls(calls@.take(i as int));
                match &calls[i] {
                    OpenAiResponseCall::Function { id, name, arguments } => {
                        out.push(
                            ToolCall { id: id.clone(), name: name.clone(), arguments: parse_arguments(arguments) },
                        );
                        assert(function_calls(calls@.take(i + 1)) =~= before.push(calls@[i as int]));
                    },
                    OpenAiResponseCall::Custom => {
                        assert(function_calls(calls@.take(i + 1)) =~= before);
                    },
                }
                i = i + 1;
            }
            assert(calls@.take(calls@.len() as int) =~= calls@);
            result.tool_calls = out;
        },
    }
    result
}

/// The chat finish reason of a service finish reason; the legacy function
/// call counts as tool calls.
pub fn finish_reason(reason: OpenAiFinishReason) -> (f: FinishReason)
    ensures
        f == match reason {
            OpenAiFinishReason::Stop => FinishReason::Stop,
            OpenAiFinishReason::Length => FinishReason::Length,
            OpenAiFinishReason::ToolCalls => FinishReason::ToolCalls,
            OpenAiFinishReason::FunctionCall => FinishReason::ToolCalls,
            OpenAiFinishReason::ContentFilter => FinishReason::ContentFilter,
        },
{
    match reason {
        OpenAiFinishReason::Stop => FinishReason::Stop,
        OpenAiFinishReason::Length => FinishReason::Length,
        OpenAiFinishReason::ToolCalls | OpenAiFinishReason::FunctionCall => FinishReason::ToolCalls,
        OpenAiFinishReason::ContentFilter => FinishReason::ContentFilter,
    }
}

/// The usage the service reports, as provider-reported counts.
pub fn openai_usage(prompt_tokens: u32, completion_tokens: u32, total_tokens: u32) -> (u: TokenUsage)
    ensures
        u.prompt_tokens == prompt_tokens,
        u.completion_tokens == completion_tokens,
        u.total_tokens == total_tokens,
        u.count_type == TokenCount::ProviderReported,
{
    TokenUsage {
        prompt_tokens: prompt_tokens as u64,
        completion_tokens: completion_tokens as u64,
        total_tokens: total_tokens as u64,
        count_type: TokenCount::ProviderReported,
    }
}

/// One choice of a chat completion.
#[derive(Debug, Clone, PartialEq, Eq)]
pub struct OpenAiChoice {
    pub message: OpenAiResponseMessage,
    pub finish_reason: Option<OpenAiFinishReason>,
}

/// A chat completion: its id, model, choices, and usage (prompt, completion,
/// total).
#[derive(Debug, Clone, PartialEq, Eq)]
pub struct OpenAiResponse {
    pub id: String,
    pub model: String,
    pub choices: Vec<OpenAiChoice>,
    pub usage: Option<(u32, u32, u32)>,
}

/// The usage of an optional usage report.
pub open spec fn usage_spec(usage: Option<(u32, u32, u32)>) -> Option<TokenUsage> {
    match usage {
        Some(u) => Some(
            TokenUsage {
                prompt_tokens: u.0 as u64,
                completion_tokens: u.1 as u64,
                total_tokens: u.2 as u64,
                count_type: TokenCount::ProviderReported,
            },
        ),
        None => None,
    }
}

/// The chat response of a completion, read from its first choice; a
/// completion without choices cannot be decoded.
pub fn chat_response(response: &OpenAiResponse) -> (r: Result<ChatResponse, LlmError>)
    ensures
        response.choices@.len() == 0 ==> (r matches Err(LlmError::Decode(m)) && m@
            == "provider returned no choices"@),
        response.choices@.len() > 0 ==> (r matches Ok(c) && c.id == Some(response.id) && c.model
            == response.model && response_message_of(response.choices@[0].message, c.message)
            && c.finish_reason == match response.choices@[0].finish_reason {
            Some(f) => Some(finish_reason_spec(f)),
            None => None,
        } && c.usage == usage_spec(response.usage)),
{
    if response.choices.len() == 0 {
        return Err(LlmError::Decode(String::from_str("provider returned no choices")));
    }
    let choice = &response.choices[0];
    let message = response_message(&choice.message);
    let finish = match choice.finish_reason {
        Some(f) => Some(finish_reason(f)),
        None => None,
    };
    let usage = match response.usage {
        Some((p, c, t)) => Some(openai_usage(p, c, t)),
        None => None,
    };
    Ok(
        ChatResponse {
            id: Some(response.id.clone()),
            model: response.model.clone(),
            message,
            finish_reason: finish,
            usage,
        },
    )
}

/// Which service an OpenAI provider talks to.
#[derive(Debug, Clone, Copy, PartialEq, Eq, Structural)]
pub enum OpenAiBackend {
    OpenAi,
    Azure,
}

/// The service kind of a backend.
pub fn provider_kind(backend: OpenAiBackend) -> (k: ProviderKind)
    ensures
        k == match backend {
            OpenAiBackend::OpenAi => ProviderKind::OpenAi,
            OpenAiBackend::Azure => ProviderKind::AzureOpenAi,
        },
{
    match backend {
        OpenAiBackend::OpenAi => ProviderKind::OpenAi,
        OpenAiBackend::Azure => ProviderKind::AzureOpenAi,
    }
}

/// What an OpenAI provider offers: streaming, embeddings, tool calls and
/// images.
pub fn capabilities() -> (c: ProviderCapabilities)
    ensures
        c == (ProviderCapabilities {
            streaming: true,
            embeddings: true,
            tool_calls: true,
            multimodal: true,
        }),
{
    ProviderCapabilities { streaming: true, embeddings: true, tool_calls: true, multimodal: true }
}

/// A failure of the SDK, by kind, with its message.
#[derive(Debug, Clone, PartialEq, Eq)]
pub enum OpenAiFailure {
    InvalidArgument(String),
    Http(String),
    Json(String),
    Api { status: u16, message: String },
    Stream(String),
    Other(String),
}

/// The provider error of an SDK failure: 401 and 403 are authentication
/// failures, 429 a rate limit, 5xx server errors, other statuses provider
/// errors; HTTP and stream failures are transport errors, JSON ones decode
/// errors.
pub fn map_error(failure: OpenAiFailure) -> (e: LlmError)
    ensures
        match failure {
            OpenAiFailure::InvalidArgument(m) => e == LlmError::InvalidRequest(m),
            OpenAiFailure::Http(m) => e == LlmError::Transport(m),
            OpenAiFailure::Json(m) => e == LlmError::Decode(m),
            OpenAiFailure::Api { status, message } => if status == 401 || status == 403 {
                e is Authentication
            } else if status == 429 {
                e == LlmError::RateLimited { retry_after: None }
            } else if 500 <= status <= 599 {
                e == LlmError::Server(message)
            } else {
                e == LlmError::Provider(message)
            },
            OpenAiFailure::Stream(m) => e == LlmError::Transport(m),
            OpenAiFailure::Other(m) => e == LlmError::Provider(m),
        },
{
    match failure {
        OpenAiFailure::InvalidArgument(m) => LlmError::InvalidRequest(m),
        OpenAiFailure::Http(m) => LlmError::Transport(m),
        OpenAiFailure::Json(m) => LlmError::Decode(m),
        OpenAiFailure::Api { status, message } => {
            if status == 401 || status == 403 {
                LlmError::Authentication
            } else if status == 429 {
                LlmError::RateLimited { retry_after: None }
            } else if 500 <= status && status <= 599 {
                LlmError::Server(message)
            } else {
                LlmError::Provider(message)
            }
        },
        OpenAiFailure::Stream(m) => LlmError::Transport(m),
        OpenAiFailure::Other(m) => LlmError::Provider(m),
    }
}

/// A tool call fragment in a stream chunk.
#[derive(Debug, Clone, PartialEq, Eq)]
pub struct OpenAiCallChunk {
    pub index: u32,
    pub id: Option<String>,
    pub name: Option<String>,
    pub arguments: Option<String>,
}

/// One choice of a stream chunk.
#[derive(Debug, Clone, PartialEq, Eq)]
pub struct OpenAiChoiceChunk {
    pub content: Option<String>,
    pub tool_calls: Option<Vec<OpenAiCallChunk>>,
    pub finish_reason: Option<OpenAiFinishReason>,
}

/// A stream chunk: usage (prompt, completion, total) and choices.
#[derive(Debug, Clone, PartialEq, Eq)]
pub struct OpenAiChunk {
    pub usage: Option<(u32, u32, u32)>,
    pub choices: Vec<OpenAiChoiceChunk>,
}

/// The delta event of one call fragment.
pub open spec fn call_delta_spec(c: OpenAiCallChunk) -> StreamEvent {
    StreamEvent::ToolCallDelta(
        ToolCallDelta { index: c.index, id: c.id, name: c.name, arguments: c.arguments },
    )
}

/// The events of one choice, in order: its text, one per call fragment, its
/// completion.
pub open spec fn choice_events_spec(c: OpenAiChoiceChunk) -> Seq<StreamEvent> {
    let text = match c.content {
        Some(t) => seq![StreamEvent::TextDelta { text: t }],
        None => Seq::empty(),
    };
    let calls = match c.tool_calls {
        Some(calls) => calls@.map_values(|d: OpenAiCallChunk| call_delta_spec(d)),
        None => Seq::empty(),
    };
    let done = match c.finish_reason {
        Some(f) => seq![StreamEvent::Completed { finish_reason: Some(finish_reason_spec(f)) }],
        None => Seq::empty(),
    };
    text + calls + done
}

/// The events of a sequence of choices, one choice after the other.
pub open spec fn choices_events_spec(choices: Seq<OpenAiChoiceChunk>) -> Seq<StreamEvent>
    decreases choices.len(),
{
    if choices.len() == 0 {
        Seq::empty()
    } else {
        choices_events_spec(choices.drop_last()) + choice_events_spec(choices.last())
    }
}

/// The events of a stream chunk: its usage first, then each choice's events.
pub open spec fn chunk_events_spec(chunk: OpenAiChunk) -> Seq<StreamEvent> {
    let usage = match chunk.usage {
        Some(u) => seq![
            StreamEvent::Usage(
                TokenUsage {
                    prompt_tokens: u.0 as u64,
                    completion_tokens: u.1 as u64,
                    total_tokens: u.2 as u64,
                    count_type: TokenCount::ProviderReported,
                },
            ),
        ],
        None => Seq::empty(),
    };
    usage + choices_events_spec(chunk.choices@)
}

/// Appends the events of one choice.
fn choice_events(choice: &OpenAiChoiceChunk, out: &mut Vec<StreamEvent>)
    ensures
        final(out)@ == old(out)@ + choice_events_spec(*choice),
{
    let ghost start = out@;
    match &choice.content {
        Some(text) => out.push(StreamEvent::TextDelta { text: text.clone() }),
        None => {},
    }
    let ghost after_text = out@;
    match &choice.tool_calls {
        Some(calls) => {
            let mut i: usize = 0;
            while i < calls.len()
                invariant
                    i <= calls@.len(),
                    out@ == after_text + calls@.take(i as int).map_values(
                        |d: OpenAiCallChunk| call_delta_spec(d),
                    ),
                decreases calls@.len() - i,
            {
                let c = &calls[i];
                out.push(
                    StreamEvent::ToolCallDelta(
                        ToolCallDelta {
                            index: c.index,
                            id: crate::types::copy_opt_string(&c.id),
                            name: crate::types::copy_opt_string(&c.name),
                            arguments: crate::types::copy_opt_string(&c.arguments),
                        },
                    ),
                );
                assert(calls@.take(i + 1).map_values(|d: OpenAiCallChunk| call_delta_spec(d))
                    =~= calls@.take(i as int).map_values(|d: OpenAiCallChunk| call_delta_spec(d)).push(
                    call_delta_spec(calls@[i as int])));
                i = i + 1;
            }
            assert(calls@.take(calls@.len() as int) =~= calls@);
        },
        None => {},
    }
    match choice.finish_reason {
        Some(f) => out.push(StreamEvent::Completed { finish_reason: Some(finish_reason(f)) }),
        None => {},
    }
    assert(out@ =~= start + choice_events_spec(*choice));
}

/// Each call fragment of a choice gives, right after the choice's text (if
/// any) and in the fragments' order, one tool-call delta that carries exactly
/// the fragment's index, id, name and arguments.
pub proof fn lemma_choice_call_deltas(c: OpenAiChoiceChunk)
    ensures
        c.tool_calls matches Some(calls) ==> {
            let offset: int = if c.content is Some { 1 } else { 0 };
            forall|j: int|
                0 <= j < calls@.len() ==> {
                    &&& offset + j < choice_events_spec(c).len()
                    &&& #[trigger] choice_events_spec(c)[offset + j] == StreamEvent::ToolCallDelta(
                        ToolCallDelta {
                            index: calls@[j].index,
                            id: calls@[j].id,
                            name: calls@[j].name,
                            arguments: calls@[j].arguments,
                        },
                    )
                }
        },
{
    match c.tool_calls {
        Some(calls) => {
            let text: Seq<StreamEvent> = match c.content {
                Some(t) => seq![StreamEvent::TextDelta { text: t }],
                None => Seq::empty(),
            };
            let deltas = calls@.map_values(|d: OpenAiCallChunk| call_delta_spec(d));
            let done: Seq<StreamEvent> = match c.finish_reason {
                Some(f) => seq![StreamEvent::Completed { finish_reason: Some(finish_reason_spec(f)) }],
                None => Seq::empty(),
            };
            assert(choice_events_spec(c) == text + deltas + done);
            let offset: int = if c.content is Some { 1 } else { 0 };
            assert(text.len() == offset);
            assert forall|j: int| 0 <= j < calls@.len() implies offset + j < choice_events_spec(c).len()
                && #[trigger] choice_events_spec(c)[offset + j] == StreamEvent::ToolCallDelta(
                ToolCallDelta {
                    index: calls@[j].index,
                    id: calls@[j].id,
                    name: calls@[j].name,
                    arguments: calls@[j].arguments,
                },
            ) by {
                assert((text + deltas + done)[offset + j] == deltas[j]);
            }
        },
        None => {},
    }
}

/// The chat finish reason of a service finish reason.
pub open spec fn finish_reason_spec(reason: OpenAiFinishReason) -> FinishReason {
    match reason {
        OpenAiFinishReason::Stop => FinishReason::Stop,
        OpenAiFinishReason::Length => FinishReason::Length,
        OpenAiFinishReason::ToolCalls => FinishReason::ToolCalls,
        OpenAiFinishReason::FunctionCall => FinishReason::ToolCalls,
        OpenAiFinishReason::ContentFilter => FinishReason::ContentFilter,
    }
}

/// The events of a stream chunk: its usage first, then each choice's events
/// in order.
pub fn chunk_events(chunk: &OpenAiChunk) -> (events: Vec<StreamEvent>)
    ensures
        events@ == chunk_events_spec(*chunk),
{
    let mut events: Vec<StreamEvent> = Vec::new();
    match chunk.usage {
        Some((p, c, t)) => events.push(StreamEvent::Usage(openai_usage(p, c, t))),
        None => {},
    }
    let ghost first = events@;
    let mut i: usize = 0;
    while i < chunk.choices.len()
        invariant
            i <= chunk.choices@.len(),
            events@ == first + choices_events_spec(chunk.choices@.take(i as int)),
        decreases chunk.choices@.len() - i,
    {
        choice_events(&chunk.choices[i], &mut events);
        assert(chunk.choices@.take(i + 1).drop_last() =~= chunk.choices@.take(i as int));
        assert(events@ =~= first + choices_events_spec(chunk.choices@.take(i + 1)));
        i = i + 1;
    }
    assert(chunk.choices@.take(chunk.choices@.len() as int) =~= chunk.choices@);
    events
}

} // verus!
