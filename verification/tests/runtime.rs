use llmrc::budget::RetryBudget;
use llmrc::duration::Duration;
use llmrc::error::LlmError;
use llmrc::retry::{Jitter, RetryPolicy, RetryStep, StreamCollect};
use llmrc::token::{
    merge_count, ExactTokenCounter, HeuristicTokenCounter, ProviderReportedTokenCounter, TokenAccounting,
    TokenCountResult, TokenCounter,
};
use llmrc::json::Json;
use llmrc::types::{ChatRequest, Message, TokenCount, TokenUsage, ToolDefinition};

#[test]
fn retry_after_is_used_for_rate_limits() {
    let policy = RetryPolicy::builder().max_delay(Duration::from_secs(10)).jitter(Jitter::Off).build();
    let error = LlmError::RateLimited { retry_after: Some(Duration::from_secs(3)) };
    assert_eq!(policy.delay_for(1, &error), Duration::from_secs(3));
}

#[test]
fn retry_after_is_capped_by_the_maximum_delay() {
    let policy = RetryPolicy::builder().max_delay(Duration::from_secs(2)).jitter(Jitter::Off).build();
    let error = LlmError::RateLimited { retry_after: Some(Duration::from_secs(30)) };
    assert_eq!(policy.delay_for(1, &error), Duration::from_secs(2));
}

#[test]
fn exponential_backoff_doubles_up_to_the_cap() {
    let policy = RetryPolicy::builder()
        .base_delay(Duration::from_millis(100))
        .max_delay(Duration::from_millis(350))
        .jitter(Jitter::Off)
        .build();
    let error = LlmError::Timeout;
    assert_eq!(policy.delay_for(1, &error), Duration::from_millis(100));
    assert_eq!(policy.delay_for(2, &error), Duration::from_millis(200));
    assert_eq!(policy.delay_for(3, &error), Duration::from_millis(350));
    assert_eq!(policy.delay_for(40, &error), Duration::from_millis(350));
}

#[test]
fn jittered_delays_stay_in_their_range() {
    let base = RetryPolicy::builder().base_delay(Duration::from_millis(800)).max_delay(Duration::from_secs(5));
    let full = RetryPolicy::builder().base_delay(Duration::from_millis(800)).jitter(Jitter::Full).build();
    let equal = base.jitter(Jitter::Equal).build();
    for _ in 0..50 {
        assert!(full.delay_for(1, &LlmError::Timeout).as_nanos() <= 800_000_000);
        let d = equal.delay_for(1, &LlmError::Timeout).as_nanos();
        assert!(400_000_000 <= d && d <= 800_000_000);
    }
}

#[test]
fn failures_retry_only_when_allowed() {
    let policy = RetryPolicy::new(2, Duration::from_millis(10), Duration::from_secs(1));
    let error = LlmError::Server("busy".into());
    assert!(policy.should_retry(&error));
    assert!(!policy.should_retry(&LlmError::Authentication));
    assert!(matches!(policy.after_failure(0, &error, true), RetryStep::Retry { retries: 1, .. }));
    assert!(matches!(policy.after_failure(2, &error, true), RetryStep::Fail));
    assert!(matches!(policy.after_failure(0, &error, false), RetryStep::Fail));
}

#[test]
fn a_shared_budget_caps_retries() {
    let budget = RetryBudget::new(1);
    let policy = RetryPolicy::builder().jitter(Jitter::Off).budget(budget.clone()).max_retries(5).build();
    let error = LlmError::Timeout;
    assert!(matches!(policy.after_failure(0, &error, true), RetryStep::Retry { .. }));
    assert!(matches!(policy.after_failure(1, &error, true), RetryStep::Fail));
    assert_eq!(budget.remaining(), 0);
    assert!(!budget.consume());
}

#[test]
fn visible_stream_output_is_never_replayed() {
    let policy = RetryPolicy::new(3, Duration::from_millis(1), Duration::from_millis(5));
    let error = LlmError::Transport("disconnect".into());
    let mut collect = StreamCollect::new();
    assert!(matches!(collect.on_item_error(&policy, &error, true), RetryStep::Retry { retries: 1, .. }));
    collect.on_item(true);
    assert!(collect.visible_seen());
    assert!(matches!(collect.on_item_error(&policy, &error, true), RetryStep::Fail));
}

#[test]
fn counters_preserve_semantics_without_debugging_prompt_content() {
    let estimated = HeuristicTokenCounter.count_text("abcdefgh");
    assert_eq!(estimated, TokenCountResult { tokens: 2, count_type: TokenCount::Estimated });
    let exact = ExactTokenCounter::new(|text: &str| text.split_whitespace().count() as u64);
    assert_eq!(exact.count_text("secret value").count_type, TokenCount::Exact);
    assert!(!exact.redacted().contains("secret"));
}

#[test]
fn exact_counts_come_from_the_tokenizer() {
    let exact = ExactTokenCounter::new(|text: &str| text.split_whitespace().count() as u64);
    assert_eq!(exact.count_text("one two three").tokens, 3);
}

#[test]
fn heuristic_counts_round_up_quarters() {
    assert_eq!(HeuristicTokenCounter.count_text("").tokens, 0);
    assert_eq!(HeuristicTokenCounter.count_text("abcde").tokens, 2);
    let messages = vec![Message::user("abcd")];
    let counted = HeuristicTokenCounter.count_messages(&messages, &[]);
    assert_eq!(counted, TokenCountResult { tokens: 5, count_type: TokenCount::Estimated });
}

#[test]
fn provider_reported_counts_keep_the_report() {
    let usage = TokenUsage { prompt_tokens: 9, completion_tokens: 3, total_tokens: 12, count_type: TokenCount::ProviderReported };
    let counter = ProviderReportedTokenCounter::new(usage);
    assert_eq!(counter.usage(), usage);
}

#[test]
fn accounting_accumulates_provider_usage() {
    let mut accounting = TokenAccounting::default();
    let usage = TokenUsage { prompt_tokens: 5, completion_tokens: 2, total_tokens: 7, count_type: TokenCount::ProviderReported };
    accounting.record_usage(&usage);
    accounting.record_usage(&usage);
    assert_eq!(accounting.prompt_tokens, 10);
    assert_eq!(accounting.completion_tokens, 4);
    assert_eq!(accounting.total(), 14);
}

#[test]
fn merged_provenance_is_order_free_and_conservative() {
    let all = [TokenCount::Exact, TokenCount::ProviderReported, TokenCount::Estimated];
    for a in all {
        for b in all {
            assert_eq!(merge_count(Some(a), b), merge_count(Some(b), a));
        }
    }
    assert_eq!(merge_count(None, TokenCount::Exact), TokenCount::Exact);
    assert_eq!(merge_count(Some(TokenCount::Exact), TokenCount::Estimated), TokenCount::Estimated);
    assert_eq!(
        merge_count(Some(TokenCount::Exact), TokenCount::ProviderReported),
        TokenCount::ProviderReported
    );
}

#[test]
fn accounting_saturates() {
    let mut accounting = TokenAccounting::default();
    accounting.record_prompt(TokenCountResult { tokens: u64::MAX, count_type: TokenCount::Exact });
    accounting.record_completion(TokenCountResult { tokens: 1, count_type: TokenCount::Estimated });
    assert_eq!(accounting.total(), u64::MAX);
    assert_eq!(accounting.prompt_count, Some(TokenCount::Exact));
    assert_eq!(accounting.completion_count, Some(TokenCount::Estimated));
}

#[test]
fn random_durations_stay_within_their_bound() {
    assert_eq!(llmrc::retry::random_duration(Duration::zero()), Duration::zero());
    for _ in 0..20 {
        assert!(llmrc::retry::random_duration(Duration::from_nanos(7)).as_nanos() <= 7);
        assert!(llmrc::retry::random_duration(Duration::from_secs(u64::MAX)).as_nanos() < 1_000_000_000);
    }
}

#[test]
fn exact_counts_of_messages_add_framing_and_tools() {
    let exact = ExactTokenCounter::new(|text: &str| text.split_whitespace().count() as u64);
    let messages = vec![Message::user("one two"), Message::user("three")];
    let tools = vec![ToolDefinition {
        name: "look up".to_string(),
        description: None,
        parameters: Json::Object(vec![("a b".to_string(), Json::Null)]),
    }];
    // Messages: (2 + 4) + (1 + 4); tool: 2 for the name, 2 for `{"a b":null}`.
    let counted = exact.count_messages(&messages, &tools);
    assert_eq!(counted, TokenCountResult { tokens: 15, count_type: TokenCount::Exact });
    let mut request = ChatRequest::default();
    request.messages = messages;
    request.tools = tools;
    assert_eq!(exact.count_request(&request), counted);
}

#[test]
fn exponential_delay_is_exact_before_the_cap() {
    let policy = RetryPolicy::builder()
        .base_delay(Duration::from_nanos(1))
        .max_delay(Duration::from_secs(30))
        .jitter(Jitter::Off)
        .build();
    assert_eq!(policy.delay_for(33, &LlmError::Timeout), Duration::from_nanos(4_294_967_296));
    assert_eq!(policy.delay_for(u32::MAX, &LlmError::Timeout), Duration::from_secs(30));
    assert_eq!(
        llmrc::retry::capped_exponential(Duration::from_secs(u64::MAX), Duration::from_secs(u64::MAX), 3),
        Duration::from_secs(u64::MAX)
    );
    assert_eq!(llmrc::retry::capped_exponential(Duration::zero(), Duration::from_secs(1), u32::MAX), Duration::zero());
    assert_eq!(
        llmrc::retry::capped_exponential(Duration::from_millis(3), Duration::from_secs(1), 2),
        Duration::from_millis(12)
    );
}

#[test]
fn clock_nanoseconds_map_into_the_bound() {
    assert_eq!(llmrc::retry::span_of(17, Duration::from_nanos(7)), Duration::from_nanos(1));
    assert_eq!(llmrc::retry::span_of(17, Duration::zero()), Duration::zero());
    assert_eq!(llmrc::retry::span_of(123, Duration::from_secs(u64::MAX)), Duration::from_nanos(123));
    assert_eq!(llmrc::retry::span_of(5, Duration::from_secs(1)), Duration::from_nanos(5));
}

#[test]
fn the_budget_answer_decides_a_retry() {
    let policy = RetryPolicy::builder().jitter(Jitter::Off).max_retries(3).build();
    let error = LlmError::Timeout;
    assert_eq!(
        policy.step_after_failure(1, &error, true, true),
        RetryStep::Retry { retries: 2, delay: Duration::from_millis(200) }
    );
    assert_eq!(policy.step_after_failure(1, &error, true, false), RetryStep::Fail);
    assert_eq!(policy.step_after_failure(1, &error, false, true), RetryStep::Fail);
    assert_eq!(policy.step_after_failure(3, &error, true, true), RetryStep::Fail);
}

#[test]
fn a_retry_loop_makes_at_most_max_retries_plus_one_attempts() {
    let policy = RetryPolicy::builder().jitter(Jitter::Off).max_retries(4).build();
    let error = LlmError::Server("busy".into());
    let mut retries: u32 = 0;
    let mut attempts: u32 = 1;
    while let RetryStep::Retry { retries: next, .. } = policy.after_failure(retries, &error, true) {
        retries = next;
        attempts += 1;
    }
    assert_eq!(attempts, 5);
}

#[test]
fn durations_carry_nanoseconds_into_seconds() {
    assert_eq!(Duration::new(1, 1_500_000_000), Duration::from_millis(2_500));
    assert_eq!(Duration::new(2, 7).as_nanos(), 2_000_000_007);
}
