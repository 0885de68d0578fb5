//! Model Context Protocol tools: their namespaced names, their definitions
//! and the meaning of their results.

use crate::agent::{is_name_byte, name_byte_allowed, valid_tool_name, ToolError};
use crate::json::{json_as_str, json_get, json_text, serde_json_text, Json, JsonV};
use crate::types::ToolDefinition;
use crate::text::string_from_chars;
use vstd::prelude::*;
use vstd::utf8::{encode_utf8, is_ascii_chars};

verus! {

broadcast use vstd::utf8::group_utf8_lib;

/// Why an MCP request failed.
#[derive(Debug, Clone, PartialEq, Eq)]
pub enum McpError {
    Transport(String),
    Protocol(String),
    Timeout,
    Cancelled,
    UnknownTool(String),
    Tool(String),
}

/// A tool as an MCP server lists it.
#[derive(Debug, PartialEq)]
pub struct McpToolInfo {
    pub name: String,
    pub description: Option<String>,
    pub input_schema: Json,
}

impl Clone for McpToolInfo {
    fn clone(&self) -> (r: McpToolInfo)
        ensures
            r.name@ == self.name@,
            r.description == self.description,
            r.input_schema@ == self.input_schema@,
    {
        McpToolInfo {
            name: self.name.clone(),
            description: crate::types::copy_opt_string(&self.description),
            input_schema: self.input_schema.clone(),
        }
    }
}

/// The result of an MCP tool call.
#[derive(Debug, Clone, PartialEq, Eq)]
pub struct McpCallResult {
    pub content: String,
    pub is_error: bool,
}

/// A byte as it appears in a sanitized name: itself when allowed in tool
/// names, else `_`.
pub open spec fn sanitized_byte(b: u8) -> char {
    if is_name_byte(b) {
        b as char
    } else {
        '_'
    }
}

/// A name made safe for tool schemas: every byte that is not an ASCII letter,
/// digit, `_` or `-` becomes `_`; an empty name becomes `server`.
pub open spec fn sanitized(bytes: Seq<u8>) -> Seq<char> {
    if bytes.len() == 0 {
        "server"@
    } else {
        bytes.map_values(|b: u8| sanitized_byte(b))
    }
}

/// The namespaced name of a server's tool: both names sanitized, joined by
/// `__`, cut to 64 characters.
pub open spec fn namespaced(server: Seq<char>, tool: Seq<char>) -> Seq<char> {
    let full = sanitized(encode_utf8(server)) + "__"@ + sanitized(encode_utf8(tool));
    if full.len() > 64 {
        full.take(64)
    } else {
        full
    }
}

/// Makes a name safe for tool schemas.
pub fn sanitize(value: &str) -> (s: String)
    ensures
        s@ == sanitized(encode_utf8(value@)),
{
    let bytes = value.as_bytes();
    if bytes.len() == 0 {
        return String::from_str("server");
    }
    let mut out: Vec<char> = Vec::new();
    let mut i: usize = 0;
    while i < bytes.len()
        invariant
            i <= bytes@.len(),
            bytes@ == encode_utf8(value@),
            out@ == bytes@.take(i as int).map_values(|b: u8| sanitized_byte(b)),
        decreases bytes@.len() - i,
    {
        let b = bytes[i];
        let c = if name_byte_allowed(b) {
            b as char
        } else {
            '_'
        };
        out.push(c);
        assert(bytes@.take(i + 1).map_values(|b: u8| sanitized_byte(b)) =~= bytes@.take(
            i as int,
        ).map_values(|b: u8| sanitized_byte(b)).push(sanitized_byte(b)));
        i = i + 1;
    }
    assert(bytes@.take(bytes@.len() as int) =~= bytes@);
    string_from_chars(&out)
}

/// The namespaced name of a server's tool: `server__tool`, sanitized and cut
/// to 64 characters.
pub fn namespace(server: &str, tool: &str) -> (s: String)
    ensures
        s@ == namespaced(server@, tool@),
{
    let mut full = sanitize(server);
    full.append("__");
    let t = sanitize(tool);
    full.append(t.as_str());
    let chars = crate::text::chars_of(full.as_str());
    if chars.len() > 64 {
        let mut cut: Vec<char> = Vec::new();
        let mut i: usize = 0;
        while i < 64
            invariant
                i <= 64,
                chars@.len() > 64,
                cut@ == chars@.take(i as int),
            decreases 64 - i,
        {
            cut.push(chars[i]);
            assert(cut@ =~= chars@.take(i + 1));
            i = i + 1;
        }
        string_from_chars(&cut)
    } else {
        full
    }
}

/// Every character of a sanitized name may occur in a tool name.
proof fn lemma_sanitized_chars(bytes: Seq<u8>)
    ensures
        forall|i: int|
            0 <= i < sanitized(bytes).len() ==> '\0' <= #[trigger] sanitized(bytes)[i] <= '\u{7f}'
                && is_name_byte(sanitized(bytes)[i] as u8),
        sanitized(bytes).len() > 0,
{
    reveal_strlit("server");
    assert forall|i: int| 0 <= i < sanitized(bytes).len() implies '\0' <= #[trigger] sanitized(
        bytes,
    )[i] <= '\u{7f}' && is_name_byte(sanitized(bytes)[i] as u8) by {
        if bytes.len() > 0 {
            let b = bytes[i];
            assert(sanitized(bytes)[i] == sanitized_byte(b));
        }
    }
}

/// Namespaced names are valid tool names: 1 to 64 ASCII letters, digits, `_`
/// or `-`.
pub proof fn lemma_namespaced_is_valid_tool_name(server: Seq<char>, tool: Seq<char>)
    ensures
        valid_tool_name(encode_utf8(namespaced(server, tool))),
{
    reveal_strlit("__");
    let a = sanitized(encode_utf8(server));
    let b = sanitized(encode_utf8(tool));
    lemma_sanitized_chars(encode_utf8(server));
    lemma_sanitized_chars(encode_utf8(tool));
    let full = a + "__"@ + b;
    let n = namespaced(server, tool);
    assert forall|i: int| 0 <= i < n.len() implies '\0' <= #[trigger] n[i] <= '\u{7f}' && is_name_byte(
        n[i] as u8,
    ) by {
        assert(n[i] == full[i]);
        if i < a.len() {
            assert(full[i] == a[i]);
        } else if i < a.len() + 2 {
            assert(full[i] == '_');
        } else {
            assert(full[i] == b[i - a.len() - 2]);
        }
    }
    assert(is_ascii_chars(n));
    vstd::utf8::is_ascii_chars_encode_utf8(n);
    let bytes = encode_utf8(n);
    assert(bytes =~= Seq::new(n.len(), |i: int| n[i] as u8));
    assert forall|i: int| 0 <= i < bytes.len() implies is_name_byte(#[trigger] bytes[i]) by {
        assert(bytes[i] == n[i] as u8);
    }
}

/// The definition an agent sees for a listed tool: its namespaced name, its
/// description, and its input schema (`{}` when the server gave none).
pub fn definition_for(server: &str, info: &McpToolInfo) -> (d: ToolDefinition)
    ensures
        d.name@ == namespaced(server@, info.name@),
        d.description == info.description,
        info.input_schema@ is Null ==> d.parameters@ == JsonV::Object(Seq::empty()),
        !(info.input_schema@ is Null) ==> d.parameters@ == info.input_schema@,
{
    let parameters = if info.input_schema.is_null() {
        let p = Json::Object(Vec::new());
        assert(p@ == JsonV::Object(Seq::empty())) by {
            if let JsonV::Object(f) = p@ {
                assert(f =~= Seq::<(Seq<char>, JsonV)>::empty());
            }
        }
        p
    } else {
        info.input_schema.clone()
    };
    ToolDefinition {
        name: namespace(server, info.name.as_str()),
        description: crate::types::copy_opt_string(&info.description),
        parameters,
    }
}

/// The definition an executable MCP tool reports: its namespaced name, its
/// description, and its input schema as listed.
pub fn executable_definition(server: &str, info: &McpToolInfo) -> (d: ToolDefinition)
    ensures
        d.name@ == namespaced(server@, info.name@),
        d.description == info.description,
        d.parameters@ == info.input_schema@,
{
    ToolDefinition {
        name: namespace(server, info.name.as_str()),
        description: crate::types::copy_opt_string(&info.description),
        parameters: info.input_schema.clone(),
    }
}

/// The tool outcome of an MCP call: the content, or why the call failed.
pub open spec fn call_outcome(r: Result<McpCallResult, McpError>) -> Result<Seq<char>, ToolError> {
    match r {
        Ok(output) => if output.is_error {
            Err(ToolError::FailedWithMessage(output.content))
        } else {
            Ok(output.content@)
        },
        Err(McpError::Cancelled) => Err(ToolError::Cancelled),
        Err(McpError::Timeout) => Err(ToolError::Timeout),
        Err(McpError::UnknownTool(_)) => Err(ToolError::Unknown),
        Err(McpError::Tool(message)) => Err(ToolError::FailedWithMessage(message)),
        Err(_) => Err(ToolError::Failed),
    }
}

/// Maps the result of an MCP call onto a tool outcome.
pub fn tool_outcome(r: Result<McpCallResult, McpError>) -> (o: Result<String, ToolError>)
    ensures
        match (o, call_outcome(r)) {
            (Ok(s), Ok(t)) => s@ == t,
            (Err(e), Err(f)) => e == f,
            _ => false,
        },
{
    match r {
        Ok(output) => if output.is_error {
            Err(ToolError::FailedWithMessage(output.content))
        } else {
            Ok(output.content)
        },
        Err(McpError::Cancelled) => Err(ToolError::Cancelled),
        Err(McpError::Timeout) => Err(ToolError::Timeout),
        Err(McpError::UnknownTool(_)) => Err(ToolError::Unknown),
        Err(McpError::Tool(message)) => Err(ToolError::FailedWithMessage(message)),
        Err(_) => Err(ToolError::Failed),
    }
}

/// The `text` members of the items of a content array, joined.
pub open spec fn joined_texts(items: Seq<JsonV>) -> Seq<char>
    decreases items.len(),
{
    if items.len() == 0 {
        Seq::empty()
    } else {
        joined_texts(items.drop_last()) + match json_get(items.last(), "text"@) {
            Some(JsonV::String(t)) => t,
            _ => Seq::empty(),
        }
    }
}

/// The call result a JSON-RPC `tools/call` result holds: `isError` (false
/// when absent), and as content a string `content`, or the joined `text` of
/// the items of an array `content`, or else the JSON text of `content`, or of
/// the whole result when it has no `content`.
pub open spec fn call_result_of(value: JsonV) -> (bool, Seq<char>) {
    let is_error = json_get(value, "isError"@) == Some(JsonV::Bool(true));
    let content = match json_get(value, "content"@) {
        Some(JsonV::String(text)) => text,
        Some(JsonV::Array(items)) => joined_texts(items),
        Some(other) => serde_json_text(other),
        None => serde_json_text(value),
    };
    (is_error, content)
}

/// Reads the result of a JSON-RPC `tools/call`.
pub fn parse_call_result(value: &Json) -> (r: Result<McpCallResult, McpError>)
    ensures
        r matches Ok(c) && c.is_error == call_result_of(value@).0 && c.content@ == call_result_of(
            value@,
        ).1,
{
    let is_error = match value.get("isError") {
        Some(v) => match v.as_bool() {
            Some(b) => b,
            None => false,
        },
        None => false,
    };
    let content = match value.get("content") {
        Some(c) => match c {
            Json::String(text) => text.clone(),
            Json::Array(items) => {
                proof {
                    crate::json::lemma_array_view(*items);
                }
                let ghost model = crate::json::items_model(items@);
                let mut out = String::new();
                let mut i: usize = 0;
                while i < items.len()
                    invariant
                        i <= items@.len(),
                        model == crate::json::items_model(items@),
                        out@ == joined_texts(model.take(i as int)),
                    decreases items@.len() - i,
                {
                    assert(model.take(i + 1).drop_last() =~= model.take(i as int));
                    assert(model.take(i + 1).last() == items@[i as int]@);
                    match items[i].get("text") {
                        Some(t) => match t.as_str() {
                            Some(text) => out.append(text.as_str()),
                            None => {},
                        },
                        None => {},
                    }
                    assert(out@ =~= joined_texts(model.take(i + 1)));
                    i = i + 1;
                }
                assert(model.take(items@.len() as int) =~= model);
                out
            },
            other => json_text(other),
        },
        None => json_text(value),
    };
    Ok(McpCallResult { content, is_error })
}

/// A definition as the bridge reports it for a listed tool.
pub open spec fn definition_of(server: Seq<char>, info: McpToolInfo, d: ToolDefinition) -> bool {
    &&& d.name@ == namespaced(server, info.name@)
    &&& d.description == info.description
    &&& (info.input_schema@ is Null ==> d.parameters@ == JsonV::Object(Seq::empty()))
    &&& (!(info.input_schema@ is Null) ==> d.parameters@ == info.input_schema@)
}

/// The definitions of a server's listed tools, in the order listed.
pub fn definitions_for(server: &str, tools: &Vec<McpToolInfo>) -> (ds: Vec<ToolDefinition>)
    ensures
        ds@.len() == tools@.len(),
        forall|i: int| 0 <= i < ds@.len() ==> definition_of(server@, tools@[i], #[trigger] ds@[i]),
{
    let mut out: Vec<ToolDefinition> = Vec::new();
    let mut i: usize = 0;
    while i < tools.len()
        invariant
            i <= tools@.len(),
            out@.len() == i,
            forall|j: int| 0 <= j < i ==> definition_of(server@, tools@[j], #[trigger] out@[j]),
        decreases tools@.len() - i,
    {
        out.push(definition_for(server, &tools[i]));
        i = i + 1;
    }
    out
}

/// A JSON string value.
fn json_string(text: &str) -> (j: Json)
    ensures
        j@ == JsonV::String(text@),
{
    Json::String(text.to_owned())
}

/// An object of members given in order.
fn json_object(fields: Vec<(String, Json)>) -> (j: Json)
    ensures
        j@ == JsonV::Object(crate::json::fields_model(fields@)),
{
    proof {
        crate::json::lemma_object_view(fields);
    }
    Json::Object(fields)
}

/// The body of a JSON-RPC 2.0 request: `jsonrpc`, `id`, `method` and
/// `params`.
pub open spec fn rpc_request_of(id: u64, method: Seq<char>, params: JsonV) -> JsonV {
    JsonV::Object(
        seq![
            ("jsonrpc"@, JsonV::String("2.0"@)),
            ("id"@, JsonV::Number(crate::json::JsonNumberV::PosInt(id))),
            ("method"@, JsonV::String(method)),
            ("params"@, params),
        ],
    )
}

/// Builds the body of a JSON-RPC 2.0 request.
pub fn rpc_request(id: u64, method: &str, params: Json) -> (j: Json)
    ensures
        j@ == rpc_request_of(id, method@, params@),
{
    let ghost p = params@;
    let mut fields: Vec<(String, Json)> = Vec::new();
    fields.push((String::from_str("jsonrpc"), json_string("2.0")));
    fields.push((String::from_str("id"), Json::Number(crate::json::JsonNumber::PosInt(id))));
    fields.push((String::from_str("method"), json_string(method)));
    fields.push((String::from_str("params"), params));
    let j = json_object(fields);
    assert(crate::json::fields_model(fields@) =~= seq![
        ("jsonrpc"@, JsonV::String("2.0"@)),
        ("id"@, JsonV::Number(crate::json::JsonNumberV::PosInt(id))),
        ("method"@, JsonV::String(method@)),
        ("params"@, p),
    ]);
    j
}

/// The params of a `tools/call` request: the tool's name and its arguments.
pub fn call_params(name: &str, arguments: Json) -> (j: Json)
    ensures
        j@ == JsonV::Object(seq![("name"@, JsonV::String(name@)), ("arguments"@, arguments@)]),
{
    let ghost a = arguments@;
    let mut fields: Vec<(String, Json)> = Vec::new();
    fields.push((String::from_str("name"), json_string(name)));
    fields.push((String::from_str("arguments"), arguments));
    let j = json_object(fields);
    assert(crate::json::fields_model(fields@) =~= seq![("name"@, JsonV::String(name@)), ("arguments"@, a)]);
    j
}

/// The params of a `tools/list` request: an empty object.
pub fn list_params() -> (j: Json)
    ensures
        j@ == JsonV::Object(Seq::empty()),
{
    let j = json_object(Vec::new());
    assert(crate::json::fields_model(Seq::<(String, Json)>::empty()) =~= Seq::empty());
    j
}

/// What a JSON-RPC response answers: a protocol error carrying the JSON text
/// of its `error` member when it has one, else its `result` (null when
/// absent).
pub open spec fn rpc_outcome(response: JsonV) -> Result<JsonV, Seq<char>> {
    match json_get(response, "error"@) {
        Some(e) => Err(serde_json_text(e)),
        None => match json_get(response, "result"@) {
            Some(r) => Ok(r),
            None => Ok(JsonV::Null),
        },
    }
}

/// Reads a JSON-RPC response.
pub fn rpc_result(response: &Json) -> (r: Result<Json, McpError>)
    ensures
        match rpc_outcome(response@) {
            Ok(v) => r matches Ok(j) && j@ == v,
            Err(t) => r matches Err(McpError::Protocol(m)) && m@ == t,
        },
{
    match response.get("error") {
        Some(e) => Err(McpError::Protocol(json_text(e))),
        None => match response.get("result") {
            Some(v) => Ok(v.clone()),
            None => Ok(Json::Null),
        },
    }
}

/// Reads the line a server process answered with: an empty line means the
/// process closed, a line that is not JSON is a protocol error with the
/// parser's message, and otherwise the JSON-RPC response it holds.
pub fn stdio_response(line: &str) -> (r: Result<Json, McpError>)
    ensures
        line@.len() == 0 ==> (r matches Err(McpError::Transport(m)) && m@ == "MCP process closed"@),
        line@.len() > 0 ==> match crate::json::serde_json_parse(line@) {
            Err(t) => r matches Err(McpError::Protocol(m)) && m@ == t,
            Ok(response) => match rpc_outcome(response) {
                Ok(v) => r matches Ok(j) && j@ == v,
                Err(t) => r matches Err(McpError::Protocol(m)) && m@ == t,
            },
        },
{
    if line.is_empty() {
        return Err(McpError::Transport(String::from_str("MCP process closed")));
    }
    match crate::json::parse_json(line) {
        Err(e) => Err(McpError::Protocol(e)),
        Ok(response) => rpc_result(&response),
    }
}

/// The tools a `tools/list` result lists: its `tools` member, an empty array
/// when absent.
pub fn listed_tools(result: &Json) -> (j: Json)
    ensures
        j@ == match json_get(result@, "tools"@) {
            Some(t) => t,
            None => JsonV::Array(Seq::empty()),
        },
{
    match result.get("tools") {
        Some(t) => t.clone(),
        None => {
            let items: Vec<Json> = Vec::new();
            proof {
                crate::json::lemma_array_view(items);
                assert(crate::json::items_model(items@) =~= Seq::empty());
            }
            Json::Array(items)
        },
    }
}

/// The arguments of a call as an MCP session takes them: the members of an
/// object, none for null; other values are refused.
pub fn call_arguments(arguments: Json) -> (r: Result<Vec<(String, Json)>, McpError>)
    ensures
        arguments@ is Object ==> (r matches Ok(fields) && JsonV::Object(
            crate::json::fields_model(fields@),
        ) == arguments@),
        arguments@ is Null ==> (r matches Ok(fields) && fields@.len() == 0),
        !(arguments@ is Object) && !(arguments@ is Null) ==> (r matches Err(McpError::Protocol(m))
            && m@ == "tool arguments must be a JSON object"@),
{
    match arguments {
        Json::Object(fields) => {
            proof {
                crate::json::lemma_object_view(fields);
            }
            Ok(fields)
        },
        Json::Null => Ok(Vec::new()),
        _ => Err(McpError::Protocol(String::from_str("tool arguments must be a JSON object"))),
    }
}

/// The result of a call answered by an MCP session: the texts of its content
/// blocks joined, and whether it is an error (not when unsaid).
pub fn session_call_result(contents: &Vec<String>, is_error: Option<bool>) -> (r: McpCallResult)
    ensures
        r.content@ == crate::bots::concat_all(crate::bots::strings_view(contents@)),
        r.is_error == match is_error {
            Some(b) => b,
            None => false,
        },
{
    let mut content = String::new();
    let mut i: usize = 0;
    assert(crate::bots::strings_view(contents@).skip(0) =~= crate::bots::strings_view(contents@));
    assert(content@ + crate::bots::concat_all(crate::bots::strings_view(contents@)) =~= crate::bots::concat_all(
        crate::bots::strings_view(contents@),
    ));
    while i < contents.len()
        invariant
            i <= contents@.len(),
            content@ + crate::bots::concat_all(crate::bots::strings_view(contents@).skip(i as int))
                == crate::bots::concat_all(crate::bots::strings_view(contents@)),
        decreases contents@.len() - i,
    {
        let ghost rest = crate::bots::strings_view(contents@).skip(i as int);
        assert(rest.drop_first() =~= crate::bots::strings_view(contents@).skip(i + 1));
        assert(rest[0] == contents@[i as int]@);
        let ghost before = content@;
        content.append(contents[i].as_str());
        assert(crate::bots::concat_all(rest) == rest[0] + crate::bots::concat_all(rest.drop_first()));
        assert(content@ + crate::bots::concat_all(rest.drop_first()) =~= before
            + crate::bots::concat_all(rest));
        i = i + 1;
    }
    assert(crate::bots::strings_view(contents@).skip(contents@.len() as int) =~= Seq::<Seq<char>>::empty());
    assert(content@ + Seq::<char>::empty() =~= content@);
    McpCallResult {
        content,
        is_error: match is_error {
            Some(b) => b,
            None => false,
        },
    }
}

} // verus!
