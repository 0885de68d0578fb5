use llmrc::agent::{tool_error_message, trim_history, validate_arguments, validate_tool_name, AgentError, ToolError};
use llmrc::json::{Json, JsonNumber};
use llmrc::registry::ToolRegistry;
use llmrc::types::{Message, ToolCall, ToolDefinition};

fn s(text: &str) -> Json {
    Json::String(text.to_string())
}

fn obj(fields: Vec<(&str, Json)>) -> Json {
    Json::Object(fields.into_iter().map(|(k, v)| (k.to_string(), v)).collect())
}

fn city_schema() -> Json {
    obj(vec![
        ("type", s("object")),
        ("required", Json::Array(vec![s("city")])),
        ("properties", obj(vec![("city", obj(vec![("type", s("string"))]))])),
        ("additionalProperties", Json::Bool(false)),
    ])
}

#[test]
fn invalid_tool_arguments_are_rejected() {
    let schema = city_schema();
    assert!(validate_arguments(&schema, &obj(vec![])).is_err());
    assert!(validate_arguments(&schema, &obj(vec![("city", Json::Number(JsonNumber::PosInt(4)))])).is_err());
    assert!(validate_arguments(&schema, &obj(vec![("city", s("Paris"))])).is_ok());
}

#[test]
fn argument_errors_name_the_problem() {
    let schema = city_schema();
    assert_eq!(validate_arguments(&schema, &obj(vec![])), Err("missing required field `city`".to_string()));
    assert_eq!(
        validate_arguments(&schema, &obj(vec![("city", Json::Number(JsonNumber::PosInt(4)))])),
        Err("city: expected string".to_string())
    );
    assert_eq!(
        validate_arguments(&schema, &obj(vec![("city", s("Paris")), ("zip", s("75001"))])),
        Err("unknown field `zip`".to_string())
    );
    assert_eq!(validate_arguments(&schema, &s("Paris")), Err("expected object".to_string()));
    assert_eq!(validate_arguments(&Json::Null, &s("anything")), Ok(()));
    assert_eq!(validate_arguments(&obj(vec![]), &Json::Bool(true)), Ok(()));
    let integer = obj(vec![("type", s("integer"))]);
    assert_eq!(validate_arguments(&integer, &Json::Number(JsonNumber::NegInt(-3))), Ok(()));
    assert_eq!(
        validate_arguments(&integer, &Json::Number(JsonNumber::Float("1.5".to_string()))),
        Err("expected integer".to_string())
    );
}

#[test]
fn trim_history_drops_oldest_non_system_messages_first() {
    let mut history = vec![
        Message::system("sys_prompt"),
        Message::user("u1"),
        Message::assistant("a1"),
        Message::user("u2"),
    ];
    trim_history(&mut history, 3);
    assert_eq!(history.len(), 3);
    assert_eq!(history[0].text(), "sys_prompt");
    assert_eq!(history[1].text(), "a1");
    assert_eq!(history[2].text(), "u2");

    let mut history2 = vec![Message::system("sys1"), Message::system("sys2"), Message::user("u1")];
    trim_history(&mut history2, 1);
    assert_eq!(history2.len(), 1);
    assert_eq!(history2[0].text(), "sys2");

    let mut history3 = vec![Message::system("sys"), Message::user("u")];
    trim_history(&mut history3, 0);
    assert!(history3.is_empty());
}

#[test]
fn trimming_within_the_limit_keeps_everything() {
    let mut history = vec![Message::system("s"), Message::user("u")];
    trim_history(&mut history, 5);
    assert_eq!(history.len(), 2);
    assert_eq!(history[1].text(), "u");
}

#[test]
fn tool_names_follow_the_provider_rule() {
    assert!(validate_tool_name("get_weather-2").is_ok());
    for bad in ["", "has space", "é", &"x".repeat(65)] {
        match validate_tool_name(bad) {
            Err(AgentError::Configuration(m)) => {
                assert_eq!(m, "tool names must be 1-64 ASCII alphanumeric, `_`, or `-`")
            }
            _ => panic!("name accepted: {bad}"),
        }
    }
    assert!(validate_tool_name(&"x".repeat(64)).is_ok());
}

#[test]
fn tool_errors_read_as_messages() {
    assert_eq!(tool_error_message(&ToolError::Unknown), "unknown tool");
    assert_eq!(tool_error_message(&ToolError::InvalidArguments("expected object".into())), "invalid arguments: expected object");
    assert_eq!(tool_error_message(&ToolError::Timeout), "tool timed out");
    assert_eq!(tool_error_message(&ToolError::Cancelled), "tool cancelled");
    assert_eq!(tool_error_message(&ToolError::Failed), "tool failed");
    assert_eq!(tool_error_message(&ToolError::FailedWithMessage("boom".into())), "tool failed: boom");
}

fn definition(name: &str, parameters: Json) -> ToolDefinition {
    ToolDefinition { name: name.to_string(), description: None, parameters }
}

#[test]
fn registry_refuses_bad_and_duplicate_names() {
    let mut registry: ToolRegistry<u32> = ToolRegistry::new();
    assert!(registry.register(definition("weather", city_schema()), 1).is_ok());
    match registry.register(definition("weather", Json::Null), 2) {
        Err(AgentError::Configuration(m)) => assert_eq!(m, "duplicate tool `weather`"),
        _ => panic!("duplicate accepted"),
    }
    assert!(registry.register(definition("bad name", Json::Null), 3).is_err());
    assert!(registry.register(definition("clock", Json::Null), 4).is_ok());
    let names: Vec<String> = registry.definitions().into_iter().map(|d| d.name).collect();
    assert_eq!(names, vec!["weather".to_string(), "clock".to_string()]);
    assert_eq!(registry.get("clock"), Some(&4));
    assert_eq!(registry.get("missing"), None);
}

#[test]
fn calls_are_checked_before_they_run() {
    let mut registry: ToolRegistry<u32> = ToolRegistry::new();
    registry.register(definition("weather", city_schema()), 7).unwrap();
    let call = |name: &str, arguments: Json| ToolCall { id: "c1".into(), name: name.into(), arguments };
    assert_eq!(registry.prepare_call(&call("weather", obj(vec![("city", s("Paris"))]))), Ok(&7));
    assert_eq!(registry.prepare_call(&call("nope", obj(vec![]))), Err(ToolError::Unknown));
    assert_eq!(
        registry.prepare_call(&call("weather", obj(vec![]))),
        Err(ToolError::InvalidArguments("missing required field `city`".into()))
    );
}

#[test]
fn trimming_twice_is_trimming_once() {
    let mut history = vec![Message::system("s"), Message::user("1"), Message::user("2"), Message::user("3")];
    trim_history(&mut history, 2);
    let once: Vec<String> = history.iter().map(|m| m.text()).collect();
    trim_history(&mut history, 2);
    let twice: Vec<String> = history.iter().map(|m| m.text()).collect();
    assert_eq!(once, vec!["s", "3"]);
    assert_eq!(once, twice);
}
