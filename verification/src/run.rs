//! One run of the agent loop, as a state machine: the caller calls the
//! provider and the tools, and hands the outcomes back.

use crate::agent::{
    tool_error_message, tool_error_text, trim_history, trimmed, AgentError, AgentEvent, ToolError,
};
use crate::duration::Duration;
use crate::error::LlmError;
use crate::retry::RetryPolicy;
use crate::token::{merged, sat_add, TokenAccounting, TokenCountResult};
use crate::types::{
    copy_messages, definitions_view, message_text, messages_view, tool_calls_view, ChatRequest,
    ChatResponse, ContentPart, Message, MessageRole, ToolCall, ToolCallV, ToolDefinition,
};
use vstd::prelude::*;

verus! {

/// The bounds of an agent run.
pub struct AgentConfig {
    pub model: String,
    pub max_turns: u32,
    pub max_tool_calls: u32,
    pub deadline: Option<Duration>,
    pub tool_timeout: Option<Duration>,
    pub max_concurrency: usize,
    pub max_history_messages: usize,
    pub retry_policy: RetryPolicy,
}

impl Default for AgentConfig {
    fn default() -> (c: AgentConfig)
        ensures
            c.model@ == Seq::<char>::empty(),
            c.max_turns == 16,
            c.max_tool_calls == 64,
            c.deadline is None,
            c.tool_timeout matches Some(t) && t@ == 30_000_000_000,
            c.max_concurrency == 4,
            c.max_history_messages == 100,
            c.retry_policy.max_retries == 2,
            c.retry_policy.budget is None,
    {
        AgentConfig {
            model: String::new(),
            max_turns: 16,
            max_tool_calls: 64,
            deadline: None,
            tool_timeout: Some(Duration::from_secs(30)),
            max_concurrency: 4,
            max_history_messages: 100,
            retry_policy: RetryPolicy::default(),
        }
    }
}

impl Clone for AgentConfig {
    fn clone(&self) -> (c: AgentConfig)
        ensures
            c.model@ == self.model@,
            c.max_turns == self.max_turns,
            c.max_tool_calls == self.max_tool_calls,
            c.deadline == self.deadline,
            c.tool_timeout == self.tool_timeout,
            c.max_concurrency == self.max_concurrency,
            c.max_history_messages == self.max_history_messages,
    {
        AgentConfig {
            model: self.model.clone(),
            max_turns: self.max_turns,
            max_tool_calls: self.max_tool_calls,
            deadline: self.deadline,
            tool_timeout: self.tool_timeout,
            max_concurrency: self.max_concurrency,
            max_history_messages: self.max_history_messages,
            retry_policy: self.retry_policy.clone(),
        }
    }
}

impl AgentConfig {
    /// The number of tools that may run at once: at least one.
    pub fn concurrency_limit(&self) -> (n: usize)
        ensures
            n == if self.max_concurrency == 0 {
                1
            } else {
                self.max_concurrency
            },
    {
        if self.max_concurrency == 0 {
            1
        } else {
            self.max_concurrency
        }
    }
}

/// A conversation and its history.
pub struct Session {
    pub id: String,
    pub history: Vec<Message>,
}

impl Session {
    /// A session without history.
    pub fn new(id: &str) -> (s: Session)
        ensures
            s.id@ == id@,
            s.history@.len() == 0,
    {
        Session { id: id.to_owned(), history: Vec::new() }
    }
}

impl Clone for Session {
    fn clone(&self) -> (s: Session)
        ensures
            s.id@ == self.id@,
            messages_view(s.history@) == messages_view(self.history@),
    {
        Session { id: self.id.clone(), history: copy_messages(&self.history) }
    }
}

/// The outcome of a successful run.
pub struct AgentResult {
    pub message: Message,
    pub history: Vec<Message>,
    pub events: Vec<AgentEvent>,
    pub usage: TokenAccounting,
    pub turns: u32,
    pub tool_calls: u32,
}

/// Appends the user's input to a loaded history and trims it, as a run does
/// before its first turn.
pub fn prepare_history(history: &mut Vec<Message>, input: &str, max_history: usize)
    ensures
        exists|m: Message|
            crate::types::is_plain_message(m@, MessageRole::User, input@) && final(history)@
                == trimmed(old(history)@.push(m), max_history as nat),
{
    let m = Message::user(input);
    let ghost pushed = history@.push(m);
    history.push(m);
    trim_history(history, max_history);
    assert(crate::types::is_plain_message(pushed.last()@, MessageRole::User, input@));
}

/// The agent error for a failed provider call after retries: cancellation
/// stays cancellation, anything else is a provider error.
pub fn provider_failure(error: LlmError) -> (e: AgentError)
    ensures
        error is Cancelled ==> e is Cancelled,
        !(error is Cancelled) ==> e == AgentError::Provider(error),
{
    match error {
        LlmError::Cancelled => AgentError::Cancelled,
        other => AgentError::Provider(other),
    }
}

/// The text a tool call's outcome shows to the model.
pub open spec fn outcome_text(r: Result<String, ToolError>) -> Seq<char> {
    match r {
        Ok(s) => s@,
        Err(e) => tool_error_text(e),
    }
}

/// `after` is `before` followed by one tool message per call, in call order,
/// answering the call's id with the outcome's text.
pub open spec fn tool_messages_appended(
    before: Seq<Message>,
    calls: Seq<ToolCallV>,
    outcomes: Seq<Result<String, ToolError>>,
    after: Seq<Message>,
) -> bool {
    &&& after.len() == before.len() + calls.len()
    &&& after.take(before.len() as int) == before
    &&& forall|i: int|
        0 <= i < calls.len() ==> {
            let m = #[trigger] after[before.len() + i];
            &&& m@.role == MessageRole::Tool
            &&& m@.tool_call_id == Some(calls[i].id)
            &&& message_text(m@) == outcome_text(outcomes[i])
            &&& m@.tool_calls.len() == 0
        }
}

/// What happens after a provider response.
pub enum TurnOutcome {
    /// The model answered without tool calls: the run is over.
    Finished(AgentResult),
    /// Run these tools, all of them, then hand their outcomes back.
    RunTools(Vec<ToolCall>),
    /// The run failed.
    Failed(AgentError),
}

/// The state of one agent run.
pub struct AgentRun {
    history: Vec<Message>,
    events: Vec<AgentEvent>,
    usage: TokenAccounting,
    turn: u32,
    tool_calls: u32,
    max_turns: u32,
    max_tool_calls: u32,
    max_history: usize,
}

impl AgentRun {
    /// The conversation so far.
    pub closed spec fn spec_history(self) -> Seq<Message> {
        self.history@
    }

    /// The events so far.
    pub closed spec fn spec_events(self) -> Seq<AgentEvent> {
        self.events@
    }

    /// The token usage so far.
    pub closed spec fn spec_usage(self) -> TokenAccounting {
        self.usage
    }

    /// The turns begun so far.
    pub closed spec fn spec_turn(self) -> u32 {
        self.turn
    }

    /// The tool calls accepted so far.
    pub closed spec fn spec_tool_calls(self) -> u32 {
        self.tool_calls
    }

    /// The turn limit.
    pub closed spec fn spec_max_turns(self) -> u32 {
        self.max_turns
    }

    /// The tool call limit.
    pub closed spec fn spec_max_tool_calls(self) -> u32 {
        self.max_tool_calls
    }

    /// The history limit.
    pub closed spec fn spec_max_history(self) -> usize {
        self.max_history
    }

    /// No more turns and no more tool calls than allowed.
    pub open spec fn within_bounds(self) -> bool {
        &&& self.spec_turn() <= self.spec_max_turns()
        &&& self.spec_tool_calls() <= self.spec_max_tool_calls()
    }

    /// A run over a prepared history, under the bounds of `config`.
    pub fn new(history: Vec<Message>, config: &AgentConfig) -> (r: AgentRun)
        ensures
            r.spec_history() == history@,
            r.spec_events().len() == 0,
            r.spec_usage().prompt_tokens == 0,
            r.spec_usage().completion_tokens == 0,
            r.spec_usage().prompt_count is None,
            r.spec_usage().completion_count is None,
            r.spec_turn() == 0,
            r.spec_tool_calls() == 0,
            r.spec_max_turns() == config.max_turns,
            r.spec_max_tool_calls() == config.max_tool_calls,
            r.spec_max_history() == config.max_history_messages,
            r.within_bounds(),
    {
        AgentRun {
            history,
            events: Vec::new(),
            usage: TokenAccounting::default(),
            turn: 0,
            tool_calls: 0,
            max_turns: config.max_turns,
            max_tool_calls: config.max_tool_calls,
            max_history: config.max_history_messages,
        }
    }

    /// The turns begun so far.
    pub fn turn(&self) -> (t: u32)
        ensures
            t == self.spec_turn(),
    {
        self.turn
    }

    /// The tool calls accepted so far.
    pub fn tool_calls_used(&self) -> (n: u32)
        ensures
            n == self.spec_tool_calls(),
    {
        self.tool_calls
    }

    /// Starts a turn. A cancelled run records `Cancelled` and fails with
    /// `Cancelled`; a run that has used all its turns fails with `MaxTurns`;
    /// otherwise the turn number
    /// grows by one and `TurnStarted` is recorded.
    pub fn begin_turn(&mut self, cancelled: bool) -> (r: Result<u32, AgentError>)
        requires
            old(self).within_bounds(),
        ensures
            final(self).within_bounds(),
            cancelled ==> r matches Err(AgentError::Cancelled),
            cancelled ==> final(self).spec_events() == old(self).spec_events().push(AgentEvent::Cancelled),
            !cancelled && old(self).spec_turn() >= old(self).spec_max_turns() ==> r matches Err(
                AgentError::MaxTurns,
            ),
            !cancelled && old(self).spec_turn() >= old(self).spec_max_turns() ==> final(self).spec_events()
                == old(self).spec_events(),
            r is Err ==> final(self).spec_turn() == old(self).spec_turn() && final(self).spec_history()
                == old(self).spec_history(),
            !cancelled && old(self).spec_turn() < old(self).spec_max_turns() ==> {
                &&& r == Ok::<u32, AgentError>((old(self).spec_turn() + 1) as u32)
                &&& final(self).spec_turn() == old(self).spec_turn() + 1
                &&& final(self).spec_events() == old(self).spec_events().push(
                    AgentEvent::TurnStarted { turn: final(self).spec_turn() },
                )
                &&& final(self).spec_history() == old(self).spec_history()
            },
            final(self).spec_tool_calls() == old(self).spec_tool_calls(),
            final(self).spec_usage() == old(self).spec_usage(),
            final(self).spec_max_turns() == old(self).spec_max_turns(),
            final(self).spec_max_tool_calls() == old(self).spec_max_tool_calls(),
            final(self).spec_max_history() == old(self).spec_max_history(),
    {
        if cancelled {
            self.events.push(AgentEvent::Cancelled);
            return Err(AgentError::Cancelled);
        }
        if self.turn >= self.max_turns {
            return Err(AgentError::MaxTurns);
        }
        self.turn = self.turn + 1;
        self.events.push(AgentEvent::TurnStarted { turn: self.turn });
        Ok(self.turn)
    }

    /// The request of the current turn: the model, the whole history and the
    /// tool definitions.
    pub fn request(&self, model: &String, tools: Vec<ToolDefinition>) -> (req: ChatRequest)
        ensures
            req.model@ == model@,
            messages_view(req.messages@) == messages_view(self.spec_history()),
            req.tools@ == tools@,
            req.temperature is None,
            req.max_tokens is None,
    {
        ChatRequest {
            model: model.clone(),
            messages: copy_messages(&self.history),
            temperature: None,
            max_tokens: None,
            tools,
        }
    }

    /// Takes the provider's response. Usage is recorded as reported, or else
    /// as the caller's estimates of prompt and completion. The assistant
    /// message joins the history. Without tool calls the run is finished;
    /// otherwise the calls must fit into the tool call limit, before any of
    /// them runs.
    pub fn on_response(
        &mut self,
        response: ChatResponse,
        prompt_estimate: TokenCountResult,
        completion_estimate: TokenCountResult,
    ) -> (r: TurnOutcome)
        requires
            old(self).within_bounds(),
            old(self).spec_tool_calls() + (response.message.tool_calls@.len() as u32) > u32::MAX
                ==> old(self).spec_max_tool_calls() < u32::MAX,
        ensures
            final(self).within_bounds(),
            match response.usage {
                Some(u) => {
                    &&& final(self).spec_usage().prompt_tokens == sat_add(
                        old(self).spec_usage().prompt_tokens as int,
                        u.prompt_tokens as int,
                    )
                    &&& final(self).spec_usage().completion_tokens == sat_add(
                        old(self).spec_usage().completion_tokens as int,
                        u.completion_tokens as int,
                    )
                    &&& final(self).spec_usage().prompt_count == Some(
                        merged(old(self).spec_usage().prompt_count, u.count_type),
                    )
                    &&& final(self).spec_usage().completion_count == Some(
                        merged(old(self).spec_usage().completion_count, u.count_type),
                    )
                },
                None => {
                    &&& final(self).spec_usage().prompt_tokens == sat_add(
                        old(self).spec_usage().prompt_tokens as int,
                        prompt_estimate.tokens as int,
                    )
                    &&& final(self).spec_usage().completion_tokens == sat_add(
                        old(self).spec_usage().completion_tokens as int,
                        completion_estimate.tokens as int,
                    )
                    &&& final(self).spec_usage().prompt_count == Some(
                        merged(old(self).spec_usage().prompt_count, prompt_estimate.count_type),
                    )
                    &&& final(self).spec_usage().completion_count == Some(
                        merged(
                            old(self).spec_usage().completion_count,
                            completion_estimate.count_type,
                        ),
                    )
                },
            },
            final(self).spec_turn() == old(self).spec_turn(),
            final(self).spec_max_turns() == old(self).spec_max_turns(),
            final(self).spec_max_tool_calls() == old(self).spec_max_tool_calls(),
            final(self).spec_max_history() == old(self).spec_max_history(),
            response.message.tool_calls@.len() == 0 ==> (r matches TurnOutcome::Finished(result) && {
                &&& result.message@ == response.message@
                &&& result.history@ == old(self).spec_history().push(response.message)
                &&& result.turns == old(self).spec_turn()
                &&& result.tool_calls == old(self).spec_tool_calls()
                &&& result.usage == final(self).spec_usage()
                &&& result.events@ == old(self).spec_events().push(
                    AgentEvent::ProviderCompleted { turn: old(self).spec_turn() },
                ).push(AgentEvent::Completed { turn: old(self).spec_turn() })
            }),
            response.message.tool_calls@.len() > 0 && old(self).spec_tool_calls() + (
            response.message.tool_calls@.len() as u32) > old(self).spec_max_tool_calls()
                ==> r matches TurnOutcome::Failed(AgentError::MaxToolCalls),
            response.message.tool_calls@.len() > 0 && old(self).spec_tool_calls() + (
            response.message.tool_calls@.len() as u32) <= old(self).spec_max_tool_calls()
                ==> (r matches TurnOutcome::RunTools(calls) && {
                &&& tool_calls_view(calls@) == tool_calls_view(response.message.tool_calls@)
                &&& final(self).spec_tool_calls() == old(self).spec_tool_calls() + (
                response.message.tool_calls@.len() as u32)
                &&& final(self).spec_history() == old(self).spec_history().push(response.message)
                &&& final(self).spec_events().len() == old(self).spec_events().len() + 1
                    + calls@.len()
                &&& final(self).spec_events()[old(self).spec_events().len() as int]
                    == AgentEvent::ProviderCompleted { turn: old(self).spec_turn() }
                &&& forall|i: int|
                    0 <= i < calls@.len() ==> (#[trigger] final(self).spec_events()[old(
                        self,
                    ).spec_events().len() + 1 + i] matches AgentEvent::ToolStarted {
                        turn,
                        call_id,
                        name,
                    } && turn == old(self).spec_turn() && call_id@ == calls@[i].id@ && name@
                        == calls@[i].name@)
            }),
    {
        match response.usage {
            Some(u) => self.usage.record_usage(&u),
            None => {
                self.usage.record_prompt(prompt_estimate);
                self.usage.record_completion(completion_estimate);
            },
        }
        self.events.push(AgentEvent::ProviderCompleted { turn: self.turn });
        let ghost events_before = self.events@;
        let assistant = response.message;
        let n = assistant.tool_calls.len();
        if n == 0 {
            self.events.push(AgentEvent::Completed { turn: self.turn });
            let mut history: Vec<Message> = Vec::new();
            std::mem::swap(&mut history, &mut self.history);
            let mut events: Vec<AgentEvent> = Vec::new();
            std::mem::swap(&mut events, &mut self.events);
            let message = assistant.clone();
            history.push(assistant);
            return TurnOutcome::Finished(
                AgentResult {
                    message,
                    history,
                    events,
                    usage: self.usage,
                    turns: self.turn,
                    tool_calls: self.tool_calls,
                },
            );
        }
        let calls = crate::types::copy_tool_calls(&assistant.tool_calls);
        self.history.push(assistant);
        let count = n as u32;
        if self.tool_calls.saturating_add(count) > self.max_tool_calls {
            return TurnOutcome::Failed(AgentError::MaxToolCalls);
        }
        self.tool_calls = self.tool_calls + count;
        let ghost snapshot = *self;
        let mut i: usize = 0;
        while i < calls.len()
            invariant
                i <= calls@.len(),
                self.turn == snapshot.turn,
                self.tool_calls == snapshot.tool_calls,
                self.usage == snapshot.usage,
                self.history == snapshot.history,
                self.max_turns == snapshot.max_turns,
                self.max_tool_calls == snapshot.max_tool_calls,
                self.max_history == snapshot.max_history,
                self.events@.len() == events_before.len() + i,
                self.events@.take(events_before.len() as int) == events_before,
                forall|j: int|
                    0 <= j < i ==> (#[trigger] self.events@[events_before.len() + j] matches AgentEvent::ToolStarted {
                        turn,
                        call_id,
                        name,
                    } && turn == self.turn && call_id@ == calls@[j].id@ && name@ == calls@[j].name@),
            decreases calls@.len() - i,
        {
            let ghost before = self.events@;
            self.events.push(
                AgentEvent::ToolStarted {
                    turn: self.turn,
                    call_id: calls[i].id.clone(),
                    name: calls[i].name.clone(),
                },
            );
            assert(self.events@.take(events_before.len() as int) =~= before.take(
                events_before.len() as int,
            ));
            i = i + 1;
        }
        assert(self.events@[events_before.len() - 1] == self.events@.take(
            events_before.len() as int,
        )[events_before.len() - 1]);
        assert(self.events@[old(self).events@.len() as int] == AgentEvent::ProviderCompleted {
            turn: old(self).turn,
        });
        assert(self.history@ == old(self).history@.push(response.message));
        TurnOutcome::RunTools(calls)
    }

    /// Takes the outcomes of the tools, one per call in call order. Each
    /// outcome becomes a tool message answering its call (its text, or the
    /// error's text) and a `ToolCompleted` event, in call order, whatever order
    /// the tools finished in; then the history is trimmed.
    pub fn on_tool_results(&mut self, calls: &Vec<ToolCall>, outcomes: Vec<Result<String, ToolError>>)
        requires
            old(self).within_bounds(),
            outcomes@.len() == calls@.len(),
        ensures
            final(self).within_bounds(),
            final(self).spec_turn() == old(self).spec_turn(),
            final(self).spec_tool_calls() == old(self).spec_tool_calls(),
            final(self).spec_usage() == old(self).spec_usage(),
            final(self).spec_max_turns() == old(self).spec_max_turns(),
            final(self).spec_max_tool_calls() == old(self).spec_max_tool_calls(),
            final(self).spec_max_history() == old(self).spec_max_history(),
            exists|after: Seq<Message>|
                tool_messages_appended(
                    old(self).spec_history(),
                    tool_calls_view(calls@),
                    outcomes@,
                    after,
                ) && final(self).spec_history() == trimmed(
                    after,
                    old(self).spec_max_history() as nat,
                ),
            final(self).spec_events().len() == old(self).spec_events().len() + calls@.len(),
            final(self).spec_events().take(old(self).spec_events().len() as int)
                == old(self).spec_events(),
            forall|i: int|
                0 <= i < calls@.len() ==> (#[trigger] final(self).spec_events()[old(
                    self,
                ).spec_events().len() + i] matches AgentEvent::ToolCompleted {
                    turn,
                    call_id,
                    name,
                    is_error,
                } && turn == old(self).spec_turn() && call_id@ == calls@[i].id@ && name@
                    == calls@[i].name@ && is_error == (outcomes@[i] is Err)),
    {
        let ghost snapshot = *self;
        let ghost calls_v = tool_calls_view(calls@);
        let mut i: usize = 0;
        assert(self.history@.take(self.history@.len() as int) =~= self.history@);
        assert(calls_v.take(0).len() == 0);
        while i < calls.len()
            invariant
                i <= calls@.len(),
                outcomes@.len() == calls@.len(),
                calls_v == tool_calls_view(calls@),
                self.turn == snapshot.turn,
                self.tool_calls == snapshot.tool_calls,
                self.usage == snapshot.usage,
                self.max_turns == snapshot.max_turns,
                self.max_tool_calls == snapshot.max_tool_calls,
                self.max_history == snapshot.max_history,
                tool_messages_appended(
                    snapshot.history@,
                    calls_v.take(i as int),
                    outcomes@.take(i as int),
                    self.history@,
                ),
                self.events@.len() == snapshot.events@.len() + i,
                self.events@.take(snapshot.events@.len() as int) == snapshot.events@,
                forall|j: int|
                    0 <= j < i ==> (#[trigger] self.events@[snapshot.events@.len() + j] matches AgentEvent::ToolCompleted {
                        turn,
                        call_id,
                        name,
                        is_error,
                    } && turn == self.turn && call_id@ == calls@[j].id@ && name@ == calls@[j].name@
                        && is_error == (outcomes@[j] is Err)),
            decreases calls@.len() - i,
        {
            let (content, is_error) = match &outcomes[i] {
                Ok(text) => (text.clone(), false),
                Err(error) => (tool_error_message(error), true),
            };
            let ghost events_before = self.events@;
            self.events.push(
                AgentEvent::ToolCompleted {
                    turn: self.turn,
                    call_id: calls[i].id.clone(),
                    name: calls[i].name.clone(),
                    is_error,
                },
            );
            assert(self.events@.take(snapshot.events@.len() as int) =~= events_before.take(
                snapshot.events@.len() as int,
            ));
            let ghost history_before = self.history@;
            let message = Message::tool(calls[i].id.as_str(), content.as_str());
            self.history.push(message);
            proof {
                let before = snapshot.history@;
                let after = self.history@;
                assert(after.take(before.len() as int) =~= history_before.take(before.len() as int));
                assert(calls_v.take(i + 1)[i as int] == calls_v[i as int]);
                assert(calls_v[i as int] == calls@[i as int]@);
                assert(outcomes@.take(i + 1)[i as int] == outcomes@[i as int]);
                assert forall|j: int| 0 <= j < i + 1 implies {
                    let m = #[trigger] after[before.len() + j];
                    &&& m@.role == MessageRole::Tool
                    &&& m@.tool_call_id == Some(calls_v.take(i + 1)[j].id)
                    &&& message_text(m@) == outcome_text(outcomes@.take(i + 1)[j])
                    &&& m@.tool_calls.len() == 0
                } by {
                    if j < i {
                        assert(after[before.len() + j] == history_before[before.len() + j]);
                        assert(calls_v.take(i + 1)[j] == calls_v.take(i as int)[j]);
                        assert(outcomes@.take(i + 1)[j] == outcomes@.take(i as int)[j]);
                    }
                }
            }
            i = i + 1;
        }
        let ghost after = self.history@;
        assert(calls_v.take(calls@.len() as int) =~= calls_v);
        assert(outcomes@.take(calls@.len() as int) =~= outcomes@);
        assert(tool_messages_appended(snapshot.history@, calls_v, outcomes@, after));
        trim_history(&mut self.history, self.max_history);
        assert(self.history@ == trimmed(after, self.max_history as nat));
    }

    /// Whether the run may still take a turn.
    pub fn turns_left(&self) -> (b: bool)
        ensures
            b == (self.spec_turn() < self.spec_max_turns()),
    {
        self.turn < self.max_turns
    }
}

} // verus!
