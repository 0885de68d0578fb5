use llmrc::agent::ToolError;
use llmrc::json::{Json, JsonNumber};
use llmrc::mcp::{
    call_arguments, call_params, definitions_for, executable_definition, list_params, listed_tools, namespace,
    parse_call_result, rpc_request, rpc_result, sanitize, session_call_result, stdio_response, tool_outcome,
    McpCallResult, McpError, McpToolInfo,
};
use llmrc::registry::ToolRegistry;
use llmrc::table::str_before;

fn s(text: &str) -> Json {
    Json::String(text.to_string())
}

fn obj(fields: Vec<(&str, Json)>) -> Json {
    Json::Object(fields.into_iter().map(|(k, v)| (k.to_string(), v)).collect())
}

#[test]
fn refresh_namespaces_and_registers_tools() {
    let tools = vec![McpToolInfo {
        name: "search".into(),
        description: Some("find".into()),
        input_schema: obj(vec![("type", s("object"))]),
    }];
    let server = sanitize("docs.server");
    let definitions = definitions_for(&server, &tools);
    assert_eq!(definitions[0].name, "docs_server__search");
    let mut registry: ToolRegistry<usize> = ToolRegistry::new();
    for (i, info) in tools.iter().enumerate() {
        registry.register(executable_definition(&server, info), i).unwrap();
    }
    assert_eq!(registry.definitions()[0].name, "docs_server__search");
}

#[test]
fn names_are_sanitized_and_cut_to_the_provider_limit() {
    assert_eq!(sanitize("a b.c-d_e"), "a_b_c-d_e");
    assert_eq!(sanitize(""), "server");
    assert_eq!(sanitize("é"), "__");
    assert_eq!(namespace("one", "run"), "one__run");
    let long = namespace(&"s".repeat(40), &"t".repeat(40));
    assert_eq!(long.chars().count(), 64);
    assert!(long.starts_with(&"s".repeat(40)));
    assert!(llmrc::agent::validate_tool_name(&long).is_ok());
}

#[test]
fn missing_schemas_become_empty_objects() {
    let tools = vec![McpToolInfo { name: "run".into(), description: None, input_schema: Json::Null }];
    assert_eq!(definitions_for("one", &tools)[0].parameters, obj(vec![]));
    assert_eq!(executable_definition("one", &tools[0]).parameters, Json::Null);
}

#[test]
fn call_outcomes_map_onto_tool_errors() {
    let ok = McpCallResult { content: "done".into(), is_error: false };
    assert_eq!(tool_outcome(Ok(ok)), Ok("done".to_string()));
    let failed = McpCallResult { content: "bad".into(), is_error: true };
    assert_eq!(tool_outcome(Ok(failed)), Err(ToolError::FailedWithMessage("bad".into())));
    assert_eq!(tool_outcome(Err(McpError::Cancelled)), Err(ToolError::Cancelled));
    assert_eq!(tool_outcome(Err(McpError::Timeout)), Err(ToolError::Timeout));
    assert_eq!(tool_outcome(Err(McpError::UnknownTool("x".into()))), Err(ToolError::Unknown));
    assert_eq!(tool_outcome(Err(McpError::Tool("m".into()))), Err(ToolError::FailedWithMessage("m".into())));
    assert_eq!(tool_outcome(Err(McpError::Transport("t".into()))), Err(ToolError::Failed));
    assert_eq!(tool_outcome(Err(McpError::Protocol("p".into()))), Err(ToolError::Failed));
}

#[test]
fn call_results_read_their_content() {
    let items = obj(vec![
        ("content", Json::Array(vec![obj(vec![("text", s("a"))]), obj(vec![("image", s("x"))]), obj(vec![("text", s("b"))])])),
        ("isError", Json::Bool(true)),
    ]);
    assert_eq!(parse_call_result(&items).unwrap(), McpCallResult { content: "ab".into(), is_error: true });
    let text = obj(vec![("content", s("plain"))]);
    assert_eq!(parse_call_result(&text).unwrap(), McpCallResult { content: "plain".into(), is_error: false });
    let other = obj(vec![("content", Json::Number(JsonNumber::PosInt(5)))]);
    assert_eq!(parse_call_result(&other).unwrap().content, "5");
    let bare = obj(vec![("x", Json::Null)]);
    assert_eq!(parse_call_result(&bare).unwrap().content, "{\"x\":null}");
}

#[test]
fn json_rpc_requests_and_responses() {
    let request = rpc_request(7, "tools/call", call_params("run", obj(vec![])));
    assert_eq!(
        request,
        obj(vec![
            ("jsonrpc", s("2.0")),
            ("id", Json::Number(JsonNumber::PosInt(7))),
            ("method", s("tools/call")),
            ("params", obj(vec![("name", s("run")), ("arguments", obj(vec![]))])),
        ])
    );
    assert_eq!(list_params(), obj(vec![]));
    let answer = obj(vec![("result", obj(vec![("tools", Json::Array(vec![]))]))]);
    assert_eq!(rpc_result(&answer).unwrap(), obj(vec![("tools", Json::Array(vec![]))]));
    assert_eq!(rpc_result(&obj(vec![])).unwrap(), Json::Null);
    let failure = obj(vec![("error", obj(vec![("code", Json::Number(JsonNumber::NegInt(-32601)))]))]);
    assert!(matches!(rpc_result(&failure), Err(McpError::Protocol(m)) if m == "{\"code\":-32601}"));
    assert!(matches!(stdio_response(""), Err(McpError::Transport(m)) if m == "MCP process closed"));
    assert!(matches!(stdio_response("{oops"), Err(McpError::Protocol(_))));
    assert_eq!(stdio_response("{\"result\":3}").unwrap(), Json::Number(JsonNumber::PosInt(3)));
    assert_eq!(listed_tools(&obj(vec![])), Json::Array(vec![]));
}

#[test]
fn session_arguments_must_be_objects() {
    assert_eq!(call_arguments(Json::Null).unwrap().len(), 0);
    assert_eq!(call_arguments(obj(vec![("a", Json::Bool(true))])).unwrap().len(), 1);
    assert!(matches!(call_arguments(s("x")), Err(McpError::Protocol(m)) if m == "tool arguments must be a JSON object"));
    let joined = session_call_result(&vec!["a".to_string(), "bc".to_string()], None);
    assert_eq!(joined, McpCallResult { content: "abc".into(), is_error: false });
    assert!(session_call_result(&Vec::new(), Some(true)).is_error);
}

#[test]
fn pool_keeps_servers_isolated() {
    let mut table: llmrc::table::NameTable<Vec<McpToolInfo>> = llmrc::table::NameTable::new();
    let run = |description: Option<&str>| vec![McpToolInfo { name: "run".into(), description: description.map(String::from), input_schema: obj(vec![]) }];
    assert!(table.insert("two".to_string(), run(None)).is_none());
    assert!(table.insert("one".to_string(), run(None)).is_none());
    let mut names = Vec::new();
    for i in 0..table.len() {
        let server = if i == 0 { "one" } else { "two" };
        names.extend(definitions_for(server, table.value_at(i)).into_iter().map(|d| d.name));
    }
    assert_eq!(names, vec!["one__run", "two__run"]);
    let replaced = table.insert("one".to_string(), run(Some("again"))).unwrap();
    assert_eq!(replaced[0].description, None);
    assert_eq!(table.value_at(0)[0].description.as_deref(), Some("again"));
    assert!(table.remove("one").is_some());
    assert!(table.remove("one").is_none());
    assert_eq!(table.len(), 1);
}

#[test]
fn server_names_order_by_characters() {
    assert!(str_before("a", "b"));
    assert!(str_before("ab", "abc"));
    assert!(!str_before("abc", "ab"));
    assert!(!str_before("same", "same"));
    assert!(str_before("Z", "a"));
    assert!(str_before("z", "é"));
}
