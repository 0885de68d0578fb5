use llmrc::agent::{AgentError, AgentEvent, ToolError};
use llmrc::json::Json;
use llmrc::run::{prepare_history, provider_failure, AgentConfig, AgentRun, TurnOutcome};
use llmrc::error::LlmError;
use llmrc::token::TokenCountResult;
use llmrc::types::{ChatResponse, FinishReason, Message, MessageRole, TokenCount, TokenUsage, ToolCall};

fn config(max_turns: u32, max_tool_calls: u32) -> AgentConfig {
    AgentConfig { model: "m".into(), max_turns, max_tool_calls, ..AgentConfig::default() }
}

fn reply(message: Message, usage: Option<TokenUsage>) -> ChatResponse {
    ChatResponse { id: None, model: "m".into(), message, finish_reason: Some(FinishReason::Stop), usage }
}

fn estimate(tokens: u64) -> TokenCountResult {
    TokenCountResult { tokens, count_type: TokenCount::Estimated }
}

fn call(id: &str, name: &str) -> ToolCall {
    ToolCall { id: id.into(), name: name.into(), arguments: Json::Object(Vec::new()) }
}

#[test]
fn a_run_without_tool_calls_finishes_in_one_turn() {
    let mut run = AgentRun::new(vec![Message::user("hi")], &config(3, 5));
    assert_eq!(run.begin_turn(false).unwrap(), 1);
    let request = run.request(&"m".to_string(), Vec::new());
    assert_eq!(request.messages.len(), 1);
    match run.on_response(reply(Message::assistant("hello"), None), estimate(3), estimate(2)) {
        TurnOutcome::Finished(result) => {
            assert_eq!(result.message.text(), "hello");
            assert_eq!(result.history.len(), 2);
            assert_eq!(result.turns, 1);
            assert_eq!(result.usage.total(), 5);
            assert_eq!(result.usage.prompt_count, Some(TokenCount::Estimated));
            assert_eq!(
                result.events,
                vec![
                    AgentEvent::TurnStarted { turn: 1 },
                    AgentEvent::ProviderCompleted { turn: 1 },
                    AgentEvent::Completed { turn: 1 },
                ]
            );
        }
        _ => panic!("run did not finish"),
    }
}

#[test]
fn reported_usage_wins_over_estimates() {
    let mut run = AgentRun::new(Vec::new(), &config(3, 5));
    run.begin_turn(false).unwrap();
    let usage = TokenUsage { prompt_tokens: 10, completion_tokens: 4, total_tokens: 14, count_type: TokenCount::ProviderReported };
    match run.on_response(reply(Message::assistant("x"), Some(usage)), estimate(99), estimate(99)) {
        TurnOutcome::Finished(result) => {
            assert_eq!(result.usage.prompt_tokens, 10);
            assert_eq!(result.usage.completion_tokens, 4);
        }
        _ => panic!("run did not finish"),
    }
}

#[test]
fn tool_results_join_the_history_in_call_order() {
    let mut run = AgentRun::new(vec![Message::user("go")], &config(3, 5));
    run.begin_turn(false).unwrap();
    let mut assistant = Message::assistant("");
    assistant.tool_calls = vec![call("a", "first"), call("b", "second")];
    let calls = match run.on_response(reply(assistant, None), estimate(1), estimate(1)) {
        TurnOutcome::RunTools(calls) => calls,
        _ => panic!("tools not requested"),
    };
    assert_eq!(calls.len(), 2);
    run.on_tool_results(&calls, vec![Err(ToolError::Timeout), Ok("done".to_string())]);
    assert_eq!(run.tool_calls_used(), 2);
    assert_eq!(run.begin_turn(false).unwrap(), 2);
    let request = run.request(&"m".to_string(), Vec::new());
    let texts: Vec<String> = request.messages.iter().map(|m| m.text()).collect();
    assert_eq!(texts, vec!["go", "", "tool timed out", "done"]);
    assert_eq!(request.messages[2].role, MessageRole::Tool);
    assert_eq!(request.messages[2].tool_call_id.as_deref(), Some("a"));
    assert_eq!(request.messages[3].tool_call_id.as_deref(), Some("b"));
}

#[test]
fn the_tool_call_bound_is_checked_before_anything_runs() {
    let mut run = AgentRun::new(Vec::new(), &config(3, 1));
    run.begin_turn(false).unwrap();
    let mut assistant = Message::assistant("");
    assistant.tool_calls = vec![call("a", "t"), call("b", "t")];
    assert!(matches!(
        run.on_response(reply(assistant, None), estimate(1), estimate(1)),
        TurnOutcome::Failed(AgentError::MaxToolCalls)
    ));
}

#[test]
fn turns_are_bounded_and_cancellation_stops_the_run() {
    let mut run = AgentRun::new(Vec::new(), &config(1, 5));
    assert!(run.turns_left());
    assert!(matches!(run.begin_turn(true), Err(AgentError::Cancelled)));
    assert_eq!(run.turn(), 0);
    run.begin_turn(false).unwrap();
    assert!(!run.turns_left());
    assert!(matches!(run.begin_turn(false), Err(AgentError::MaxTurns)));
}

#[test]
fn prepared_history_ends_with_the_input_and_fits() {
    let mut history = vec![Message::system("s"), Message::user("old")];
    prepare_history(&mut history, "new", 2);
    assert_eq!(history.len(), 2);
    assert_eq!(history[0].text(), "s");
    assert_eq!(history[1].text(), "new");
    assert!(matches!(provider_failure(LlmError::Cancelled), AgentError::Cancelled));
    assert!(matches!(provider_failure(LlmError::Timeout), AgentError::Provider(LlmError::Timeout)));
    assert_eq!(AgentConfig { max_concurrency: 0, ..AgentConfig::default() }.concurrency_limit(), 1);
}
