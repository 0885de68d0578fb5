//! The Ollama wire mapping: chat requests built from chat types, and
//! responses, stream chunks, usage and errors read back.
//!
//! The types here hold, as plain values, what an Ollama server is sent and
//! answers; the client that talks to the server converts them one for one
//! into `ollama-rs` types.

use crate::error::LlmError;
use crate::json::{json_text, serde_json_text, Json, JsonV};
use crate::provider::{ProviderCapabilities, ProviderKind};
use crate::text::{decimal, decimal_text};
use crate::types::{
    events_view, message_text, ChatRequest, ChatResponse, ContentPart, FinishReason,
    ImageSource, Message, MessageRole, StreamEvent, StreamEventV, TokenCount, TokenUsage,
    ToolCall, ToolCallDelta, ToolCallDeltaV, ToolDefinition,
};
use vstd::prelude::*;

verus! {

/// The author of an Ollama message.
#[derive(Debug, Clone, Copy, PartialEq, Eq, Structural)]
pub enum OllamaRole {
    System,
    User,
    Assistant,
    Tool,
}

/// A message of an Ollama chat request: role, text and base64 images.
#[derive(Debug, Clone, PartialEq, Eq)]
pub struct OllamaMessage {
    pub role: OllamaRole,
    pub content: String,
    pub images: Vec<String>,
}

/// A function tool offered to the model, with its JSON schema.
#[derive(Debug, PartialEq)]
pub struct OllamaTool {
    pub name: String,
    pub description: String,
    pub parameters: Json,
}

/// An Ollama chat request.
#[derive(Debug)]
pub struct OllamaRequest {
    pub model: String,
    pub messages: Vec<OllamaMessage>,
    pub tools: Vec<OllamaTool>,
}

/// The service kind of an Ollama provider.
pub fn provider_kind() -> (k: ProviderKind)
    ensures
        k == ProviderKind::Ollama,
{
    ProviderKind::Ollama
}

/// What an Ollama provider offers: streaming, embeddings, tool calls and
/// images.
pub fn capabilities() -> (c: ProviderCapabilities)
    ensures
        c == (ProviderCapabilities {
            streaming: true,
            embeddings: true,
            tool_calls: true,
            multimodal: true,
        }),
{
    ProviderCapabilities { streaming: true, embeddings: true, tool_calls: true, multimodal: true }
}

/// The Ollama role of a chat role.
pub open spec fn ollama_role(role: MessageRole) -> OllamaRole {
    match role {
        MessageRole::System => OllamaRole::System,
        MessageRole::User => OllamaRole::User,
        MessageRole::Assistant => OllamaRole::Assistant,
        MessageRole::Tool => OllamaRole::Tool,
    }
}

/// The chat role of an Ollama role.
pub open spec fn chat_role(role: OllamaRole) -> MessageRole {
    match role {
        OllamaRole::System => MessageRole::System,
        OllamaRole::User => MessageRole::User,
        OllamaRole::Assistant => MessageRole::Assistant,
        OllamaRole::Tool => MessageRole::Tool,
    }
}

/// An image part given by URL.
pub open spec fn is_url_image(p: ContentPart) -> bool {
    p matches ContentPart::Image { source: ImageSource::Url { .. } }
}

/// Some part of the content is an image given by URL.
pub open spec fn has_url_image(parts: Seq<ContentPart>) -> bool {
    exists|i: int| 0 <= i < parts.len() && is_url_image(#[trigger] parts[i])
}

/// The base64 data of the image parts given inline, in order.
pub open spec fn base64_images(parts: Seq<ContentPart>) -> Seq<Seq<char>>
    decreases parts.len(),
{
    if parts.len() == 0 {
        Seq::empty()
    } else {
        base64_images(parts.drop_last()) + match parts.last() {
            ContentPart::Image { source: ImageSource::Base64 { data, .. } } => seq![data@],
            _ => Seq::empty(),
        }
    }
}

/// The message of the error for an image given by URL.
pub open spec fn url_image_message() -> Seq<char> {
    "Ollama accepts base64 images; URL images must be downloaded by the caller"@
}

/// The Ollama form of a message, or the error for an image given by URL.
pub open spec fn ollama_message_of(m: Message, r: Result<OllamaMessage, LlmError>) -> bool {
    if has_url_image(m.content@) {
        r matches Err(LlmError::Unsupported(e)) && e@ == url_image_message()
    } else {
        &&& r matches Ok(w)
        &&& w.role == ollama_role(m.role)
        &&& w.content@ == message_text(m@)
        &&& w.images@.map_values(|s: String| s@) == base64_images(m.content@)
    }
}

/// The Ollama role of a chat role.
fn role_to_ollama(role: MessageRole) -> (r: OllamaRole)
    ensures
        r == ollama_role(role),
{
    match role {
        MessageRole::System => OllamaRole::System,
        MessageRole::User => OllamaRole::User,
        MessageRole::Assistant => OllamaRole::Assistant,
        MessageRole::Tool => OllamaRole::Tool,
    }
}

/// The Ollama form of a message: its role, its text parts joined, and the
/// data of its base64 images. Images given by URL are refused.
pub fn to_ollama_message(message: &Message) -> (r: Result<OllamaMessage, LlmError>)
    ensures
        ollama_message_of(*message, r),
{
    let role = role_to_ollama(message.role);
    let content = message.text();
    let mut images: Vec<String> = Vec::new();
    let mut i: usize = 0;
    while i < message.content.len()
        invariant
            i <= message.content@.len(),
            images@.map_values(|s: String| s@) == base64_images(message.content@.take(i as int)),
            forall|j: int| 0 <= j < i ==> !is_url_image(#[trigger] message.content@[j]),
        decreases message.content@.len() - i,
    {
        let ghost before = images@;
        assert(message.content@.take(i + 1).drop_last() =~= message.content@.take(i as int));
        match &message.content[i] {
            ContentPart::Image { source: ImageSource::Base64 { data, .. } } => {
                images.push(data.clone());
            },
            ContentPart::Image { source: ImageSource::Url { .. } } => {
                assert(is_url_image(message.content@[i as int]));
                return Err(
                    LlmError::Unsupported(
                        String::from_str(
                            "Ollama accepts base64 images; URL images must be downloaded by the caller",
                        ),
                    ),
                );
            },
            ContentPart::Text { .. } => {},
        }
        assert(images@.map_values(|s: String| s@) =~= base64_images(
            message.content@.take(i + 1),
        ));
        i = i + 1;
    }
    assert(message.content@.take(message.content@.len() as int) =~= message.content@);
    Ok(OllamaMessage { role, content, images })
}

/// `schemars` takes a schema that is an object or a boolean.
pub open spec fn schema_accepted(j: JsonV) -> bool {
    j is Bool || j is Object
}

/// The text of the error `serde_json::from_value::<schemars::Schema>`
/// reports for a value that is not a schema.
pub uninterp spec fn schema_error_text(parameters: JsonV) -> Seq<char>;

/// Reads the parameters as a `schemars::Schema` with
/// `serde_json::from_value`: `None` when that succeeds, which `schemars`
/// does exactly for objects and booleans, else the error's text.
#[verifier::external_body]
fn schema_error(parameters: &Json) -> (r: Option<String>)
    ensures
        match r {
            None => schema_accepted(parameters@),
            Some(e) => !schema_accepted(parameters@) && e@ == schema_error_text(parameters@),
        },
{
    match serde_json::from_value::<schemars::Schema>(crate::json::to_serde(parameters)) {
        Ok(_) => None,
        Err(error) => Some(error.to_string()),
    }
}

/// The text of an optional description, empty when absent.
pub open spec fn description_text(d: Option<Seq<char>>) -> Seq<char> {
    match d {
        Some(t) => t,
        None => Seq::empty(),
    }
}

/// The message of the error for a tool whose schema was refused.
pub open spec fn schema_message(error: Seq<char>) -> Seq<char> {
    "invalid tool schema: "@ + error
}

/// The Ollama form of a tool given what reading its schema reported: the
/// tool itself when the schema was taken, else an invalid request that
/// carries the error.
pub fn ollama_tool_of(tool: &ToolDefinition, schema_error: Option<String>) -> (r: Result<OllamaTool, LlmError>)
    ensures
        match schema_error {
            Some(e) => r matches Err(LlmError::InvalidRequest(m)) && m@ == schema_message(e@),
            None => r matches Ok(t) && t.name@ == tool.name@ && t.description@ == description_text(
                tool@.description,
            ) && t.parameters@ == tool.parameters@,
        },
{
    match schema_error {
        Some(e) => {
            let mut m = String::from_str("invalid tool schema: ");
            m.append(e.as_str());
            Err(LlmError::InvalidRequest(m))
        },
        None => {
            let description = match &tool.description {
                Some(d) => d.clone(),
                None => String::new(),
            };
            Ok(
                OllamaTool {
                    name: tool.name.clone(),
                    description,
                    parameters: tool.parameters.clone(),
                },
            )
        },
    }
}

/// The Ollama form of a tool: its name, its description (empty when
/// absent) and its schema; a schema that is neither an object nor a boolean
/// is refused.
pub fn to_ollama_tool(tool: &ToolDefinition) -> (r: Result<OllamaTool, LlmError>)
    ensures
        schema_accepted(tool.parameters@) ==> (r matches Ok(t) && t.name@ == tool.name@
            && t.description@ == description_text(tool@.description) && t.parameters@
            == tool.parameters@),
        !schema_accepted(tool.parameters@) ==> (r matches Err(LlmError::InvalidRequest(m)) && m@
            == schema_message(schema_error_text(tool.parameters@))),
{
    let error = schema_error(&tool.parameters);
    ollama_tool_of(tool, error)
}

/// Index of the first message that holds an image given by URL, or the
/// number of messages.
pub open spec fn messages_accepted(ms: Seq<Message>) -> bool {
    forall|i: int| 0 <= i < ms.len() ==> !has_url_image(#[trigger] ms[i].content@)
}

/// Every tool's schema is accepted.
pub open spec fn tools_accepted(ts: Seq<ToolDefinition>) -> bool {
    forall|i: int| 0 <= i < ts.len() ==> schema_accepted(#[trigger] ts[i].parameters@)
}

/// The Ollama form of a chat request: the model, every message and every
/// tool. A message with an image given by URL is refused first; else the
/// first tool whose schema is refused.
pub fn to_ollama_request(request: &ChatRequest) -> (r: Result<OllamaRequest, LlmError>)
    ensures
        r is Ok <==> messages_accepted(request.messages@) && tools_accepted(request.tools@),
        r matches Ok(q) ==> {
            &&& q.model@ == request.model@
            &&& q.messages@.len() == request.messages@.len()
            &&& forall|i: int|
                0 <= i < q.messages@.len() ==> ollama_message_of(
                    request.messages@[i],
                    Ok(#[trigger] q.messages@[i]),
                )
            &&& q.tools@.len() == request.tools@.len()
            &&& forall|i: int|
                0 <= i < q.tools@.len() ==> {
                    &&& (#[trigger] q.tools@[i]).name@ == request.tools@[i].name@
                    &&& q.tools@[i].description@ == description_text(request.tools@[i]@.description)
                    &&& q.tools@[i].parameters@ == request.tools@[i].parameters@
                }
        },
        !messages_accepted(request.messages@) ==> (r matches Err(LlmError::Unsupported(e)) && e@
            == url_image_message()),
        messages_accepted(request.messages@) && !tools_accepted(request.tools@) ==> exists|j: int|
            0 <= j < request.tools@.len() && !schema_accepted(request.tools@[j].parameters@)
                && (forall|k: int| 0 <= k < j ==> schema_accepted(#[trigger] request.tools@[k].parameters@))
                && (r matches Err(LlmError::InvalidRequest(m)) && m@ == schema_message(
                schema_error_text(request.tools@[j].parameters@),
            )),
{
    let mut messages: Vec<OllamaMessage> = Vec::new();
    let mut i: usize = 0;
    while i < request.messages.len()
        invariant
            i <= request.messages@.len(),
            messages@.len() == i,
            forall|j: int|
                0 <= j < i ==> ollama_message_of(request.messages@[j], Ok(#[trigger] messages@[j])),
            forall|j: int| 0 <= j < i ==> !has_url_image(#[trigger] request.messages@[j].content@),
        decreases request.messages@.len() - i,
    {
        match to_ollama_message(&request.messages[i]) {
            Ok(m) => messages.push(m),
            Err(e) => {
                assert(has_url_image(request.messages@[i as int].content@));
                return Err(e);
            },
        }
        i = i + 1;
    }
    let mut tools: Vec<OllamaTool> = Vec::new();
    let mut k: usize = 0;
    while k < request.tools.len()
        invariant
            k <= request.tools@.len(),
            tools@.len() == k,
            messages_accepted(request.messages@),
            messages@.len() == request.messages@.len(),
            forall|j: int|
                0 <= j < messages@.len() ==> ollama_message_of(
                    request.messages@[j],
                    Ok(#[trigger] messages@[j]),
                ),
            forall|j: int|
                0 <= j < k ==> {
                    &&& (#[trigger] tools@[j]).name@ == request.tools@[j].name@
                    &&& tools@[j].description@ == description_text(request.tools@[j]@.description)
                    &&& tools@[j].parameters@ == request.tools@[j].parameters@
                },
            forall|j: int| 0 <= j < k ==> schema_accepted(#[trigger] request.tools@[j].parameters@),
        decreases request.tools@.len() - k,
    {
        match to_ollama_tool(&request.tools[k]) {
            Ok(t) => tools.push(t),
            Err(e) => {
                assert(!schema_accepted(request.tools@[k as int].parameters@));
                return Err(e);
            },
        }
        k = k + 1;
    }
    Ok(OllamaRequest { model: request.model.clone(), messages, tools })
}

/// A tool call in an Ollama response: the function's name and arguments.
#[derive(Debug, PartialEq)]
pub struct OllamaResponseCall {
    pub name: String,
    pub arguments: Json,
}

/// The message of an Ollama chat response.
#[derive(Debug)]
pub struct OllamaResponseMessage {
    pub role: OllamaRole,
    pub content: String,
    pub tool_calls: Vec<OllamaResponseCall>,
}

/// The chat role of an Ollama role.
fn role_from_ollama(role: OllamaRole) -> (r: MessageRole)
    ensures
        r == chat_role(role),
{
    match role {
        OllamaRole::System => MessageRole::System,
        OllamaRole::User => MessageRole::User,
        OllamaRole::Assistant => MessageRole::Assistant,
        OllamaRole::Tool => MessageRole::Tool,
    }
}

/// The chat message of an Ollama response message: one text part with its
/// content, and its tool calls, each identified by its position in decimal.
pub fn response_message(message: &OllamaResponseMessage) -> (m: Message)
    ensures
        m.role == chat_role(message.role),
        m.content@.len() == 1,
        m.content@[0] matches ContentPart::Text { text } && text@ == message.content@,
        m.name is None,
        m.tool_call_id is None,
        m.tool_calls@.len() == message.tool_calls@.len(),
        forall|i: int|
            0 <= i < m.tool_calls@.len() ==> {
                &&& (#[trigger] m.tool_calls@[i]).id@ == decimal(i as nat)
                &&& m.tool_calls@[i].name@ == message.tool_calls@[i].name@
                &&& m.tool_calls@[i].arguments@ == message.tool_calls@[i].arguments@
            },
{
    let mut result = Message::new(role_from_ollama(message.role), message.content.as_str());
    let mut calls: Vec<ToolCall> = Vec::new();
    let mut i: usize = 0;
    while i < message.tool_calls.len()
        invariant
            i <= message.tool_calls@.len(),
            calls@.len() == i,
            forall|j: int|
                0 <= j < i ==> {
                    &&& (#[trigger] calls@[j]).id@ == decimal(j as nat)
                    &&& calls@[j].name@ == message.tool_calls@[j].name@
                    &&& calls@[j].arguments@ == message.tool_calls@[j].arguments@
                },
        decreases message.tool_calls@.len() - i,
    {
        let call = &message.tool_calls[i];
        calls.push(
            ToolCall {
                id: decimal_text(i),
                name: call.name.clone(),
                arguments: call.arguments.clone(),
            },
        );
        i = i + 1;
    }
    result.tool_calls = calls;
    result
}

/// Usage as Ollama reports it: prompt and generated token counts, and their
/// sum.
pub fn ollama_usage(prompt_eval_count: u64, eval_count: u64) -> (u: TokenUsage)
    requires
        prompt_eval_count + eval_count <= u64::MAX,
    ensures
        u == (TokenUsage {
            prompt_tokens: prompt_eval_count,
            completion_tokens: eval_count,
            total_tokens: (prompt_eval_count + eval_count) as u64,
            count_type: TokenCount::ProviderReported,
        }),
{
    TokenUsage {
        prompt_tokens: prompt_eval_count,
        completion_tokens: eval_count,
        total_tokens: prompt_eval_count + eval_count,
        count_type: TokenCount::ProviderReported,
    }
}

/// The counts (prompt tokens, generated tokens) of a final response add up
/// within `u64`.
pub open spec fn counts_fit(final_data: Option<(u64, u64)>) -> bool {
    match final_data {
        Some(d) => d.0 + d.1 <= u64::MAX,
        None => true,
    }
}

/// The usage of optional final counts.
pub open spec fn usage_of(final_data: Option<(u64, u64)>) -> Option<TokenUsage> {
    match final_data {
        Some(d) => Some(
            TokenUsage {
                prompt_tokens: d.0,
                completion_tokens: d.1,
                total_tokens: (d.0 + d.1) as u64,
                count_type: TokenCount::ProviderReported,
            },
        ),
        None => None,
    }
}

/// The chat response of an Ollama answer: no id, the model, the message,
/// a normal stop, and the usage of the final counts when there are any.
pub fn chat_response(model: String, message: &OllamaResponseMessage, final_data: Option<(u64, u64)>) -> (r: ChatResponse)
    requires
        counts_fit(final_data),
    ensures
        r.id is None,
        r.model == model,
        r.message.role == chat_role(message.role),
        message_text(r.message@) == message.content@,
        r.message.tool_calls@.len() == message.tool_calls@.len(),
        r.finish_reason == Some(FinishReason::Stop),
        r.usage == usage_of(final_data),
{
    let m = response_message(message);
    proof {
        let parts = m.content@;
        assert(parts.drop_last() =~= Seq::<ContentPart>::empty());
        assert(crate::types::content_text(parts) == crate::types::content_text(parts.drop_last())
            + crate::types::part_text(parts.last()));
    }
    let usage = match final_data {
        Some((p, e)) => Some(ollama_usage(p, e)),
        None => None,
    };
    ChatResponse {
        id: None,
        model,
        message: m,
        finish_reason: Some(FinishReason::Stop),
        usage,
    }
}

/// One streamed Ollama response: a piece of content, tool calls, and, on the
/// last one, the final counts.
#[derive(Debug)]
pub struct OllamaChunk {
    pub content: String,
    pub tool_calls: Vec<OllamaResponseCall>,
    pub done: bool,
    pub final_data: Option<(u64, u64)>,
}

/// The delta of a streamed tool call: index 0, no id, its name and its
/// arguments as JSON text.
pub open spec fn call_delta_view(c: OllamaResponseCall) -> StreamEventV {
    StreamEventV::ToolCallDelta(
        ToolCallDeltaV {
            index: 0,
            id: None,
            name: Some(c.name@),
            arguments: Some(serde_json_text(c.arguments@)),
        },
    )
}

/// The events of a streamed response, in order: its content unless empty,
/// one delta per tool call, and when it is the last one, its usage (when
/// counted) and a normal stop.
pub open spec fn chunk_events_spec(c: OllamaChunk) -> Seq<StreamEventV> {
    let text = if c.content@.len() > 0 {
        seq![StreamEventV::TextDelta { text: c.content@ }]
    } else {
        Seq::empty()
    };
    let calls = c.tool_calls@.map_values(|d: OllamaResponseCall| call_delta_view(d));
    let done = if c.done {
        match usage_of(c.final_data) {
            Some(u) => seq![
                StreamEventV::Usage(u),
                StreamEventV::Completed { finish_reason: Some(FinishReason::Stop) },
            ],
            None => seq![StreamEventV::Completed { finish_reason: Some(FinishReason::Stop) }],
        }
    } else {
        Seq::empty()
    };
    text + calls + done
}

/// Each streamed tool call gives, right after the text (if any) and in the
/// calls' order, one tool-call delta with index 0, no id, the call's name and
/// the JSON text of its arguments.
pub proof fn lemma_chunk_call_deltas(c: OllamaChunk)
    ensures
        ({
            let offset: int = if c.content@.len() > 0 { 1 } else { 0 };
            forall|j: int|
                0 <= j < c.tool_calls@.len() ==> {
                    &&& offset + j < chunk_events_spec(c).len()
                    &&& #[trigger] chunk_events_spec(c)[offset + j] == StreamEventV::ToolCallDelta(
                        ToolCallDeltaV {
                            index: 0,
                            id: None,
                            name: Some(c.tool_calls@[j].name@),
                            arguments: Some(serde_json_text(c.tool_calls@[j].arguments@)),
                        },
                    )
                }
        }),
{
    let offset: int = if c.content@.len() > 0 { 1 } else { 0 };
    let text: Seq<StreamEventV> = if c.content@.len() > 0 {
        seq![StreamEventV::TextDelta { text: c.content@ }]
    } else {
        Seq::empty()
    };
    let calls = c.tool_calls@.map_values(|d: OllamaResponseCall| call_delta_view(d));
    let done: Seq<StreamEventV> = if c.done {
        match usage_of(c.final_data) {
            Some(u) => seq![
                StreamEventV::Usage(u),
                StreamEventV::Completed { finish_reason: Some(FinishReason::Stop) },
            ],
            None => seq![StreamEventV::Completed { finish_reason: Some(FinishReason::Stop) }],
        }
    } else {
        Seq::empty()
    };
    assert(chunk_events_spec(c) == text + calls + done);
    assert(text.len() == offset);
    assert forall|j: int| 0 <= j < c.tool_calls@.len() implies offset + j < chunk_events_spec(c).len()
        && #[trigger] chunk_events_spec(c)[offset + j] == StreamEventV::ToolCallDelta(
        ToolCallDeltaV {
            index: 0,
            id: None,
            name: Some(c.tool_calls@[j].name@),
            arguments: Some(serde_json_text(c.tool_calls@[j].arguments@)),
        },
    ) by {
        assert((text + calls + done)[offset + j] == calls[j]);
    }
}

/// The events of one streamed response.
pub fn chunk_events(chunk: &OllamaChunk) -> (events: Vec<StreamEvent>)
    requires
        counts_fit(chunk.final_data),
    ensures
        events_view(events@) == chunk_events_spec(*chunk),
{
    let mut events: Vec<StreamEvent> = Vec::new();
    if !chunk.content.as_str().is_empty() {
        events.push(StreamEvent::TextDelta { text: chunk.content.clone() });
    }
    let ghost after_text = events_view(events@);
    let mut i: usize = 0;
    while i < chunk.tool_calls.len()
        invariant
            i <= chunk.tool_calls@.len(),
            events_view(events@) == after_text + chunk.tool_calls@.take(i as int).map_values(
                |d: OllamaResponseCall| call_delta_view(d),
            ),
        decreases chunk.tool_calls@.len() - i,
    {
        let call = &chunk.tool_calls[i];
        let arguments = json_text(&call.arguments);
        let event = StreamEvent::ToolCallDelta(
            ToolCallDelta { index: 0, id: None, name: Some(call.name.clone()), arguments: Some(arguments) },
        );
        assert(event@ == call_delta_view(chunk.tool_calls@[i as int]));
        let ghost before = events@;
        events.push(event);
        assert(events_view(events@) =~= events_view(before).push(event@));
        assert(chunk.tool_calls@.take(i + 1).map_values(|d: OllamaResponseCall| call_delta_view(d))
            =~= chunk.tool_calls@.take(i as int).map_values(
            |d: OllamaResponseCall| call_delta_view(d),
        ).push(call_delta_view(chunk.tool_calls@[i as int])));
        i = i + 1;
    }
    assert(chunk.tool_calls@.take(chunk.tool_calls@.len() as int) =~= chunk.tool_calls@);
    let ghost after_calls = events@;
    if chunk.done {
        match chunk.final_data {
            Some((p, e)) => {
                let event = StreamEvent::Usage(ollama_usage(p, e));
                events.push(event);
                assert(events_view(events@) =~= events_view(after_calls).push(event@));
            },
            None => {},
        }
        let ghost before = events@;
        let event = StreamEvent::Completed { finish_reason: Some(FinishReason::Stop) };
        events.push(event);
        assert(events_view(events@) =~= events_view(before).push(event@));
    }
    assert(events_view(events@) =~= chunk_events_spec(*chunk));
    events
}

/// The error for a stream item that could not be read.
pub fn stream_failure() -> (e: LlmError)
    ensures
        e matches LlmError::Transport(m) && m@ == "Ollama stream read failed"@,
{
    LlmError::Transport(String::from_str("Ollama stream read failed"))
}

/// A failure reported by the Ollama client, by kind, with its message.
#[derive(Debug, Clone, PartialEq, Eq)]
pub enum OllamaFailure {
    Json(String),
    Reqwest(String),
    Internal(String),
    ToolCall(String),
    Other(String),
}

/// The provider error of a client failure: a JSON failure is a decode error,
/// an HTTP client failure a transport error, an internal server failure a
/// server error, and the rest provider errors; each keeps its message.
pub fn map_error(failure: OllamaFailure) -> (e: LlmError)
    ensures
        match failure {
            OllamaFailure::Json(m) => e == LlmError::Decode(m),
            OllamaFailure::Reqwest(m) => e == LlmError::Transport(m),
            OllamaFailure::Internal(m) => e == LlmError::Server(m),
            OllamaFailure::ToolCall(m) => e == LlmError::Provider(m),
            OllamaFailure::Other(m) => e == LlmError::Provider(m),
        },
{
    match failure {
        OllamaFailure::Json(m) => LlmError::Decode(m),
        OllamaFailure::Reqwest(m) => LlmError::Transport(m),
        OllamaFailure::Internal(m) => LlmError::Server(m),
        OllamaFailure::ToolCall(m) => LlmError::Provider(m),
        OllamaFailure::Other(m) => LlmError::Provider(m),
    }
}

} // verus!
