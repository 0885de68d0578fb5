//! Provider-independent chat types: messages, tools, requests and responses.

use crate::json::{Json, JsonV};
use vstd::prelude::*;

verus! {

/// The author of a message.
#[derive(Debug, Clone, Copy, PartialEq, Eq, Structural)]
pub enum MessageRole {
    System,
    User,
    Assistant,
    Tool,
}

/// Where the bytes of an image come from.
#[derive(Debug, PartialEq, Eq)]
pub enum ImageSource {
    Url { url: String, detail: Option<String> },
    Base64 { media_type: String, data: String },
}

/// The model of an image source.
pub enum ImageSourceV {
    Url { url: Seq<char>, detail: Option<Seq<char>> },
    Base64 { media_type: Seq<char>, data: Seq<char> },
}

/// The text of an optional string.
pub open spec fn opt_text(o: Option<String>) -> Option<Seq<char>> {
    match o {
        Some(s) => Some(s@),
        None => None,
    }
}

/// A copy of an optional string.
pub fn copy_opt_string(o: &Option<String>) -> (r: Option<String>)
    ensures
        r == *o,
{
    match o {
        Some(s) => Some(s.clone()),
        None => None,
    }
}

impl View for ImageSource {
    type V = ImageSourceV;

    open spec fn view(&self) -> ImageSourceV {
        match self {
            ImageSource::Url { url, detail } => ImageSourceV::Url { url: url@, detail: opt_text(*detail) },
            ImageSource::Base64 { media_type, data } => ImageSourceV::Base64 {
                media_type: media_type@,
                data: data@,
            },
        }
    }
}

impl Clone for ImageSource {
    fn clone(&self) -> (r: ImageSource)
        ensures
            r == *self,
    {
        match self {
            ImageSource::Url { url, detail } => ImageSource::Url {
                url: url.clone(),
                detail: copy_opt_string(detail),
            },
            ImageSource::Base64 { media_type, data } => ImageSource::Base64 {
                media_type: media_type.clone(),
                data: data.clone(),
            },
        }
    }
}

/// A single part of a message: text or an image.
#[derive(Debug, PartialEq)]
pub enum ContentPart {
    Text { text: String },
    Image { source: ImageSource },
}

impl Clone for ContentPart {
    fn clone(&self) -> (r: ContentPart)
        ensures
            r == *self,
    {
        match self {
            ContentPart::Text { text } => ContentPart::Text { text: text.clone() },
            ContentPart::Image { source } => ContentPart::Image { source: source.clone() },
        }
    }
}

/// The text a part contributes to its message: its text, or nothing for an image.
pub open spec fn part_text(p: ContentPart) -> Seq<char> {
    match p {
        ContentPart::Text { text } => text@,
        ContentPart::Image { .. } => Seq::empty(),
    }
}

/// The concatenation of the text parts, in order.
pub open spec fn content_text(parts: Seq<ContentPart>) -> Seq<char>
    decreases parts.len(),
{
    if parts.len() == 0 {
        Seq::empty()
    } else {
        content_text(parts.drop_last()) + part_text(parts.last())
    }
}

impl ContentPart {
    /// A text part.
    pub fn text(text: &str) -> (p: ContentPart)
        ensures
            p matches ContentPart::Text { text: t } && t@ == text@,
    {
        ContentPart::Text { text: text.to_owned() }
    }

    /// The text of a text part; `None` for an image.
    pub fn as_text(&self) -> (r: Option<&str>)
        ensures
            match self {
                ContentPart::Text { text } => r matches Some(t) && t@ == text@,
                ContentPart::Image { .. } => r is None,
            },
    {
        match self {
            ContentPart::Text { text } => Some(text.as_str()),
            ContentPart::Image { .. } => None,
        }
    }
}

/// A tool invocation requested by a model.
#[derive(Debug, PartialEq)]
pub struct ToolCall {
    pub id: String,
    pub name: String,
    pub arguments: Json,
}

/// The model of a tool invocation.
pub struct ToolCallV {
    pub id: Seq<char>,
    pub name: Seq<char>,
    pub arguments: JsonV,
}

impl View for ToolCall {
    type V = ToolCallV;

    open spec fn view(&self) -> ToolCallV {
        ToolCallV { id: self.id@, name: self.name@, arguments: self.arguments@ }
    }
}

impl Clone for ToolCall {
    fn clone(&self) -> (r: ToolCall)
        ensures
            r@ == self@,
    {
        ToolCall { id: self.id.clone(), name: self.name.clone(), arguments: self.arguments.clone() }
    }
}

/// The description of a tool offered to a model.
#[derive(Debug, PartialEq)]
pub struct ToolDefinition {
    pub name: String,
    pub description: Option<String>,
    pub parameters: Json,
}

/// The model of a tool description.
pub struct ToolDefinitionV {
    pub name: Seq<char>,
    pub description: Option<Seq<char>>,
    pub parameters: JsonV,
}

impl View for ToolDefinition {
    type V = ToolDefinitionV;

    open spec fn view(&self) -> ToolDefinitionV {
        ToolDefinitionV {
            name: self.name@,
            description: opt_text(self.description),
            parameters: self.parameters@,
        }
    }
}

impl Clone for ToolDefinition {
    fn clone(&self) -> (r: ToolDefinition)
        ensures
            r@ == self@,
    {
        ToolDefinition {
            name: self.name.clone(),
            description: copy_opt_string(&self.description),
            parameters: self.parameters.clone(),
        }
    }
}

/// The models of a list of tool calls.
pub open spec fn tool_calls_view(calls: Seq<ToolCall>) -> Seq<ToolCallV> {
    calls.map_values(|c: ToolCall| c@)
}

/// The models of a list of tool definitions.
pub open spec fn definitions_view(defs: Seq<ToolDefinition>) -> Seq<ToolDefinitionV> {
    defs.map_values(|d: ToolDefinition| d@)
}

/// A copy of a list of tool calls.
pub fn copy_tool_calls(calls: &Vec<ToolCall>) -> (r: Vec<ToolCall>)
    ensures
        tool_calls_view(r@) == tool_calls_view(calls@),
{
    let mut out: Vec<ToolCall> = Vec::new();
    let mut i: usize = 0;
    while i < calls.len()
        invariant
            i <= calls.len(),
            out@.len() == i,
            forall|j: int| 0 <= j < i ==> #[trigger] out@[j]@ == calls@[j]@,
        decreases calls.len() - i,
    {
        out.push(calls[i].clone());
        i = i + 1;
    }
    assert(tool_calls_view(out@) =~= tool_calls_view(calls@));
    out
}

/// A copy of a list of tool definitions.
pub fn copy_definitions(defs: &Vec<ToolDefinition>) -> (r: Vec<ToolDefinition>)
    ensures
        definitions_view(r@) == definitions_view(defs@),
{
    let mut out: Vec<ToolDefinition> = Vec::new();
    let mut i: usize = 0;
    while i < defs.len()
        invariant
            i <= defs.len(),
            out@.len() == i,
            forall|j: int| 0 <= j < i ==> #[trigger] out@[j]@ == defs@[j]@,
        decreases defs.len() - i,
    {
        out.push(defs[i].clone());
        i = i + 1;
    }
    assert(definitions_view(out@) =~= definitions_view(defs@));
    out
}

/// A conversation message exchanged with an LLM provider.
#[derive(Debug, PartialEq)]
pub struct Message {
    pub role: MessageRole,
    pub content: Vec<ContentPart>,
    pub name: Option<String>,
    pub tool_calls: Vec<ToolCall>,
    pub tool_call_id: Option<String>,
}

/// The model of a message.
pub struct MessageV {
    pub role: MessageRole,
    pub content: Seq<ContentPart>,
    pub name: Option<Seq<char>>,
    pub tool_calls: Seq<ToolCallV>,
    pub tool_call_id: Option<Seq<char>>,
}

impl View for Message {
    type V = MessageV;

    open spec fn view(&self) -> MessageV {
        MessageV {
            role: self.role,
            content: self.content@,
            name: opt_text(self.name),
            tool_calls: tool_calls_view(self.tool_calls@),
            tool_call_id: opt_text(self.tool_call_id),
        }
    }
}

/// The models of a list of messages.
pub open spec fn messages_view(ms: Seq<Message>) -> Seq<MessageV> {
    ms.map_values(|m: Message| m@)
}

/// The text of a message: its text parts, concatenated.
pub open spec fn message_text(m: MessageV) -> Seq<char> {
    content_text(m.content)
}

/// A message of one text part, without name, tool calls or tool call id.
pub open spec fn is_plain_message(m: MessageV, role: MessageRole, text: Seq<char>) -> bool {
    &&& m.role == role
    &&& m.content.len() == 1
    &&& m.content[0] matches ContentPart::Text { text: t } && t@ == text
    &&& m.name is None
    &&& m.tool_calls.len() == 0
    &&& m.tool_call_id is None
}

impl Clone for Message {
    fn clone(&self) -> (r: Message)
        ensures
            r@ == self@,
    {
        let mut content: Vec<ContentPart> = Vec::new();
        let mut i: usize = 0;
        while i < self.content.len()
            invariant
                i <= self.content.len(),
                content@ == self.content@.take(i as int),
            decreases self.content.len() - i,
        {
            content.push(self.content[i].clone());
            assert(content@ =~= self.content@.take(i + 1));
            i = i + 1;
        }
        assert(content@ =~= self.content@);
        Message {
            role: self.role,
            content,
            name: copy_opt_string(&self.name),
            tool_calls: copy_tool_calls(&self.tool_calls),
            tool_call_id: copy_opt_string(&self.tool_call_id),
        }
    }
}

/// A copy of a list of messages.
pub fn copy_messages(ms: &Vec<Message>) -> (r: Vec<Message>)
    ensures
        messages_view(r@) == messages_view(ms@),
{
    let mut out: Vec<Message> = Vec::new();
    let mut i: usize = 0;
    while i < ms.len()
        invariant
            i <= ms.len(),
            out@.len() == i,
            forall|j: int| 0 <= j < i ==> #[trigger] out@[j]@ == ms@[j]@,
        decreases ms.len() - i,
    {
        out.push(ms[i].clone());
        i = i + 1;
    }
    assert(messages_view(out@) =~= messages_view(ms@));
    out
}

impl Message {
    /// A message of one text part with the given role.
    pub fn new(role: MessageRole, text: &str) -> (m: Message)
        ensures
            is_plain_message(m@, role, text@),
            message_text(m@) == text@,
    {
        let mut content: Vec<ContentPart> = Vec::new();
        content.push(ContentPart::text(text));
        let m = Message {
            role,
            content,
            name: None,
            tool_calls: Vec::new(),
            tool_call_id: None,
        };
        proof {
            let parts = m@.content;
            assert(parts.drop_last() =~= Seq::<ContentPart>::empty());
            assert(content_text(parts) == content_text(parts.drop_last()) + part_text(parts.last()));
            assert(content_text(parts) =~= text@);
            assert(m@.tool_calls =~= Seq::<ToolCallV>::empty());
        }
        m
    }

    /// A user message.
    pub fn user(text: &str) -> (m: Message)
        ensures
            is_plain_message(m@, MessageRole::User, text@),
            message_text(m@) == text@,
    {
        Self::new(MessageRole::User, text)
    }

    /// A system message.
    pub fn system(text: &str) -> (m: Message)
        ensures
            is_plain_message(m@, MessageRole::System, text@),
            message_text(m@) == text@,
    {
        Self::new(MessageRole::System, text)
    }

    /// An assistant message.
    pub fn assistant(text: &str) -> (m: Message)
        ensures
            is_plain_message(m@, MessageRole::Assistant, text@),
            message_text(m@) == text@,
    {
        Self::new(MessageRole::Assistant, text)
    }

    /// A tool result message answering the call `id`.
    pub fn tool(id: &str, text: &str) -> (m: Message)
        ensures
            m@.role == MessageRole::Tool,
            m@.content.len() == 1,
            m@.content[0] matches ContentPart::Text { text: t } && t@ == text@,
            m@.name is None,
            m@.tool_calls.len() == 0,
            m@.tool_call_id == Some(id@),
            message_text(m@) == text@,
    {
        let mut message = Self::new(MessageRole::Tool, text);
        message.tool_call_id = Some(id.to_owned());
        message
    }

    /// The text parts of the message, concatenated in order; images are skipped.
    pub fn text(&self) -> (t: String)
        ensures
            t@ == message_text(self@),
    {
        let mut out = String::new();
        let mut i: usize = 0;
        while i < self.content.len()
            invariant
                i <= self.content.len(),
                out@ == content_text(self.content@.take(i as int)),
            decreases self.content.len() - i,
        {
            assert(self.content@.take(i + 1).drop_last() =~= self.content@.take(i as int));
            match self.content[i].as_text() {
                Some(t) => out.append(t),
                None => {},
            }
            assert(out@ =~= content_text(self.content@.take(i + 1)));
            i = i + 1;
        }
        assert(self.content@.take(self.content.len() as int) =~= self.content@);
        out
    }
}

/// A call fragment in a stream; fragments with the same index belong together.
#[derive(Debug, Clone, PartialEq)]
pub struct ToolCallDelta {
    pub index: u32,
    pub id: Option<String>,
    pub name: Option<String>,
    pub arguments: Option<String>,
}

/// The result of one tool call.
#[derive(Debug, Clone, PartialEq)]
pub struct ToolResult {
    pub tool_call_id: String,
    pub content: String,
    pub is_error: bool,
}

/// A sampling temperature, held as the IEEE-754 bit pattern of an `f32`.
#[derive(Debug, Clone, Copy, PartialEq, Eq, Structural)]
pub struct Temperature {
    pub bits: u32,
}

/// A chat completion request.
#[derive(Debug)]
pub struct ChatRequest {
    pub model: String,
    pub messages: Vec<Message>,
    pub temperature: Option<Temperature>,
    pub max_tokens: Option<u32>,
    pub tools: Vec<ToolDefinition>,
}

impl Default for ChatRequest {
    fn default() -> (r: ChatRequest)
        ensures
            r.model@ == Seq::<char>::empty(),
            r.messages@.len() == 0,
            r.temperature is None,
            r.max_tokens is None,
            r.tools@.len() == 0,
    {
        ChatRequest {
            model: String::new(),
            messages: Vec::new(),
            temperature: None,
            max_tokens: None,
            tools: Vec::new(),
        }
    }
}

impl Clone for ChatRequest {
    fn clone(&self) -> (r: ChatRequest)
        ensures
            r.model@ == self.model@,
            messages_view(r.messages@) == messages_view(self.messages@),
            r.temperature == self.temperature,
            r.max_tokens == self.max_tokens,
            definitions_view(r.tools@) == definitions_view(self.tools@),
    {
        ChatRequest {
            model: self.model.clone(),
            messages: copy_messages(&self.messages),
            temperature: self.temperature,
            max_tokens: self.max_tokens,
            tools: copy_definitions(&self.tools),
        }
    }
}

/// Why a model stopped producing output.
#[derive(Debug, Clone, Copy, PartialEq, Eq, Structural)]
pub enum FinishReason {
    Stop,
    Length,
    ToolCalls,
    ContentFilter,
    Other,
}

/// How a token count was obtained.
#[derive(Debug, Clone, Copy, PartialEq, Eq, Structural)]
pub enum TokenCount {
    Exact,
    ProviderReported,
    Estimated,
}

/// Token usage reported for one completion.
#[derive(Debug, Clone, Copy, PartialEq, Eq, Structural)]
pub struct TokenUsage {
    pub prompt_tokens: u64,
    pub completion_tokens: u64,
    pub total_tokens: u64,
    pub count_type: TokenCount,
}

/// A chat completion response.
#[derive(Debug)]
pub struct ChatResponse {
    pub id: Option<String>,
    pub model: String,
    pub message: Message,
    pub finish_reason: Option<FinishReason>,
    pub usage: Option<TokenUsage>,
}

/// A request for embeddings of several inputs.
#[derive(Debug, Clone, PartialEq)]
pub struct EmbeddingRequest {
    pub model: String,
    pub input: Vec<String>,
}

/// One event of a streamed chat completion.
#[derive(Debug, Clone, PartialEq)]
pub enum StreamEvent {
    Started { id: Option<String>, model: String },
    TextDelta { text: String },
    ToolCallDelta(ToolCallDelta),
    Usage(TokenUsage),
    Completed { finish_reason: Option<FinishReason> },
}

/// The model of a call fragment.
pub struct ToolCallDeltaV {
    pub index: u32,
    pub id: Option<Seq<char>>,
    pub name: Option<Seq<char>>,
    pub arguments: Option<Seq<char>>,
}

impl View for ToolCallDelta {
    type V = ToolCallDeltaV;

    open spec fn view(&self) -> ToolCallDeltaV {
        ToolCallDeltaV {
            index: self.index,
            id: opt_text(self.id),
            name: opt_text(self.name),
            arguments: opt_text(self.arguments),
        }
    }
}

/// The model of a stream event.
pub enum StreamEventV {
    Started { id: Option<Seq<char>>, model: Seq<char> },
    TextDelta { text: Seq<char> },
    ToolCallDelta(ToolCallDeltaV),
    Usage(TokenUsage),
    Completed { finish_reason: Option<FinishReason> },
}

impl View for StreamEvent {
    type V = StreamEventV;

    open spec fn view(&self) -> StreamEventV {
        match self {
            StreamEvent::Started { id, model } => StreamEventV::Started {
                id: opt_text(*id),
                model: model@,
            },
            StreamEvent::TextDelta { text } => StreamEventV::TextDelta { text: text@ },
            StreamEvent::ToolCallDelta(d) => StreamEventV::ToolCallDelta(d@),
            StreamEvent::Usage(u) => StreamEventV::Usage(*u),
            StreamEvent::Completed { finish_reason } => StreamEventV::Completed {
                finish_reason: *finish_reason,
            },
        }
    }
}

/// The models of a list of stream events.
pub open spec fn events_view(events: Seq<StreamEvent>) -> Seq<StreamEventV> {
    events.map_values(|e: StreamEvent| e@)
}

} // verus!
