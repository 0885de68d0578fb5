//! Token counting with explicit provenance, and accumulation of usage.

use crate::json::json_text;
use crate::json::serde_json_text;
use crate::text::chars_of;
use crate::types::{
    message_text, ChatRequest, Message, MessageV, TokenCount, TokenUsage, ToolDefinition,
};
use vstd::prelude::*;

verus! {

/// A number of tokens and how it was obtained.
#[derive(Debug, Clone, Copy, PartialEq, Eq, Structural)]
pub struct TokenCountResult {
    pub tokens: u64,
    pub count_type: TokenCount,
}

/// The sum of two counts, capped at `u64::MAX`.
pub open spec fn sat_add(a: int, b: int) -> int {
    if a + b > u64::MAX {
        u64::MAX as int
    } else {
        a + b
    }
}

/// `n` is a count that `count_text` can give on `counter` for a text whose
/// characters are `text`.
pub open spec fn counted<C: ?Sized, F: Fn(&C, &str) -> TokenCountResult>(
    count_text: F,
    counter: &C,
    text: Seq<char>,
    n: TokenCountResult,
) -> bool {
    exists|t: &str| t@ == text && #[trigger] call_ensures(count_text, (counter, t), n)
}

/// `counts` holds, message by message, a count that `count_text` can give on
/// `counter` for the message's text.
pub open spec fn messages_counted<C: ?Sized, F: Fn(&C, &str) -> TokenCountResult>(
    count_text: F,
    counter: &C,
    messages: Seq<Message>,
    counts: Seq<TokenCountResult>,
) -> bool {
    &&& counts.len() == messages.len()
    &&& forall|k: int|
        0 <= k < messages.len() ==> counted(count_text, counter, message_text(messages[k]@), #[trigger] counts[k])
}

/// `counts` holds, tool by tool, a count that `count_text` can give on
/// `counter` for the tool's name and one for the JSON text of its parameters.
pub open spec fn tools_counted<C: ?Sized, F: Fn(&C, &str) -> TokenCountResult>(
    count_text: F,
    counter: &C,
    tools: Seq<ToolDefinition>,
    counts: Seq<(TokenCountResult, TokenCountResult)>,
) -> bool {
    &&& counts.len() == tools.len()
    &&& forall|k: int|
        0 <= k < tools.len() ==> {
            &&& counted(count_text, counter, tools[k].name@, (#[trigger] counts[k]).0)
            &&& counted(count_text, counter, serde_json_text(tools[k].parameters@), counts[k].1)
        }
}

/// The sum of message counts, each with four tokens of framing.
pub open spec fn message_counts_total(counts: Seq<TokenCountResult>) -> int
    decreases counts.len(),
{
    if counts.len() == 0 {
        0
    } else {
        sat_add(message_counts_total(counts.drop_last()), counts.last().tokens + 4)
    }
}

/// `start` plus the counts of each tool's name and parameters.
pub open spec fn tool_counts_total(counts: Seq<(TokenCountResult, TokenCountResult)>, start: int) -> int
    decreases counts.len(),
{
    if counts.len() == 0 {
        start
    } else {
        sat_add(
            tool_counts_total(counts.drop_last(), start),
            counts.last().0.tokens + counts.last().1.tokens,
        )
    }
}

/// `r` is what the provided `count_messages` gives on `counter`, each text
/// counted by `count_text`: the messages' counts plus four each, then the
/// tools' counts, with the provenance of a count of the empty text.
pub open spec fn counts_messages<C: ?Sized, F: Fn(&C, &str) -> TokenCountResult>(
    count_text: F,
    counter: &C,
    messages: Seq<Message>,
    tools: Seq<ToolDefinition>,
    r: TokenCountResult,
) -> bool {
    exists|ms: Seq<TokenCountResult>, ts: Seq<(TokenCountResult, TokenCountResult)>, e: TokenCountResult|
        #![trigger messages_counted(count_text, counter, messages, ms), tools_counted(count_text, counter, tools, ts), counted(count_text, counter, Seq::<char>::empty(), e)]
        {
            &&& messages_counted(count_text, counter, messages, ms)
            &&& tools_counted(count_text, counter, tools, ts)
            &&& counted(count_text, counter, Seq::<char>::empty(), e)
            &&& r.tokens == tool_counts_total(ts, message_counts_total(ms))
            &&& r.count_type == e.count_type
        }
}

/// Counts tokens of text. Implementations must not retain or print the text.
///
/// The provided methods count each message's text plus four tokens of
/// framing, and each tool's name and the JSON text of its parameters. Sums
/// saturate at `u64::MAX`.
pub trait TokenCounter {
    fn count_text(&self, text: &str) -> TokenCountResult;

    fn count_messages(&self, messages: &[Message], tools: &[ToolDefinition]) -> (r: TokenCountResult)
        default_ensures
            counts_messages(
                Self::count_text,
                self,
                messages@,
                tools@,
                r,
            ),
    {
        let ghost ms: Seq<TokenCountResult> = Seq::empty();
        let mut total: u64 = 0;
        let mut i: usize = 0;
        while i < messages.len()
            invariant
                i <= messages@.len(),
                ms.len() == i,
                forall|k: int|
                    0 <= k < i ==> counted(Self::count_text, self, message_text(messages@[k]@), #[trigger] ms[k]),
                total == message_counts_total(ms),
            decreases messages@.len() - i,
        {
            let text = messages[i].text();
            let t = text.as_str();
            let c = self.count_text(t);
            assert(counted(Self::count_text, self, message_text(messages@[i as int]@), c));
            let n = c.tokens;
            total = total.saturating_add(n).saturating_add(4);
            proof {
                let prev = ms;
                ms = ms.push(c);
                assert(ms.drop_last() =~= prev);
            }
            i = i + 1;
        }
        assert(messages_counted(Self::count_text, self, messages@, ms));
        let ghost base = total as int;
        let ghost ts: Seq<(TokenCountResult, TokenCountResult)> = Seq::empty();
        let mut j: usize = 0;
        while j < tools.len()
            invariant
                j <= tools@.len(),
                ts.len() == j,
                forall|k: int|
                    0 <= k < j ==> {
                        &&& counted(Self::count_text, self, tools@[k].name@, (#[trigger] ts[k]).0)
                        &&& counted(Self::count_text, self, serde_json_text(tools@[k].parameters@), ts[k].1)
                    },
                total == tool_counts_total(ts, base),
            decreases tools@.len() - j,
        {
            let cn = self.count_text(tools[j].name.as_str());
            let parameters = json_text(&tools[j].parameters);
            let cp = self.count_text(parameters.as_str());
            assert(counted(Self::count_text, self, tools@[j as int].name@, cn));
            assert(counted(Self::count_text, self, serde_json_text(tools@[j as int].parameters@), cp));
            let name = cn.tokens;
            let p = cp.tokens;
            total = total.saturating_add(name).saturating_add(p);
            proof {
                let prev = ts;
                ts = ts.push((cn, cp));
                assert(ts.drop_last() =~= prev);
            }
            j = j + 1;
        }
        assert(tools_counted(Self::count_text, self, tools@, ts));
        let empty: &str = "";
        proof {
            reveal_strlit("");
        }
        assert(empty@ =~= Seq::<char>::empty());
        let e = self.count_text(empty);
        assert(counted(Self::count_text, self, Seq::<char>::empty(), e));
        let r = TokenCountResult { tokens: total, count_type: e.count_type };
        assert(counts_messages(Self::count_text, self, messages@, tools@, r));
        r
    }

    fn count_request(&self, request: &ChatRequest) -> (r: TokenCountResult)
        default_ensures
            exists|ms: &[Message], ts: &[ToolDefinition]|
                ms@ == request.messages@ && ts@ == request.tools@ && #[trigger] call_ensures(
                    Self::count_messages,
                    (self, ms, ts),
                    r,
                ),
    {
        let ms = request.messages.as_slice();
        let ts = request.tools.as_slice();
        let r = self.count_messages(ms, ts);
        assert(call_ensures(Self::count_messages, (self, ms, ts), r));
        r
    }
}

/// The heuristic estimate of a text: its characters divided by four, rounded
/// up; zero for an empty text.
pub open spec fn heuristic_tokens(text: Seq<char>) -> int {
    ((text.len() + 3) / 4) as int
}

/// The heuristic estimate of a list of messages: each message's text plus four.
pub open spec fn heuristic_messages(ms: Seq<MessageV>) -> int
    decreases ms.len(),
{
    if ms.len() == 0 {
        0
    } else {
        sat_add(heuristic_messages(ms.drop_last()), heuristic_tokens(message_text(ms.last())) + 4)
    }
}

/// The heuristic estimate of a list of tools: each name plus its parameters'
/// JSON text.
pub open spec fn heuristic_tools(defs: Seq<ToolDefinition>, start: int) -> int
    decreases defs.len(),
{
    if defs.len() == 0 {
        start
    } else {
        sat_add(
            heuristic_tools(defs.drop_last(), start),
            heuristic_tokens(defs.last().name@) + heuristic_tokens(
                serde_json_text(defs.last().parameters@),
            ),
        )
    }
}

/// One more message adds the estimate of its text plus four framing tokens,
/// capped at `u64::MAX`.
pub proof fn lemma_heuristic_message_adds(ms: Seq<MessageV>, m: MessageV)
    ensures
        heuristic_messages(ms.push(m)) == sat_add(heuristic_messages(ms), heuristic_tokens(message_text(m)) + 4),
{
    assert(ms.push(m).drop_last() =~= ms);
}

/// One more tool adds the estimate of its name and the estimate of the JSON
/// text of its parameters, capped at `u64::MAX`.
pub proof fn lemma_heuristic_tool_adds(defs: Seq<ToolDefinition>, d: ToolDefinition, start: int)
    ensures
        heuristic_tools(defs.push(d), start) == sat_add(
            heuristic_tools(defs, start),
            heuristic_tokens(d.name@) + heuristic_tokens(serde_json_text(d.parameters@)),
        ),
{
    assert(defs.push(d).drop_last() =~= defs);
}

/// The documented estimate for providers without a tokenizer: characters
/// divided by four, rounded up.
#[derive(Debug, Clone, Copy, Default)]
pub struct HeuristicTokenCounter;

/// The heuristic estimate of a text.
fn heuristic_count(text: &str) -> (n: u64)
    ensures
        n == heuristic_tokens(text@),
{
    let chars = chars_of(text);
    let len = chars.len();
    (len / 4 + if len % 4 == 0 {
        0
    } else {
        1
    }) as u64
}

impl TokenCounter for HeuristicTokenCounter {
    fn count_text(&self, text: &str) -> (r: TokenCountResult)
        ensures
            r.tokens == heuristic_tokens(text@),
            r.count_type == TokenCount::Estimated,
    {
        TokenCountResult { tokens: heuristic_count(text), count_type: TokenCount::Estimated }
    }

    fn count_messages(&self, messages: &[Message], tools: &[ToolDefinition]) -> (r: TokenCountResult)
        ensures
            r.tokens == heuristic_tools(
                tools@,
                heuristic_messages(messages@.map_values(|m: Message| m@)),
            ),
            r.count_type == TokenCount::Estimated,
    {
        let ghost ms = messages@.map_values(|m: Message| m@);
        let mut total: u64 = 0;
        let mut i: usize = 0;
        while i < messages.len()
            invariant
                i <= messages@.len(),
                ms == messages@.map_values(|m: Message| m@),
                total == heuristic_messages(ms.take(i as int)),
            decreases messages@.len() - i,
        {
            assert(ms.take(i + 1).drop_last() =~= ms.take(i as int));
            let text = messages[i].text();
            let n = heuristic_count(text.as_str());
            total = total.saturating_add(n).saturating_add(4);
            i = i + 1;
        }
        assert(ms.take(messages@.len() as int) =~= ms);
        let ghost base = total as int;
        let mut j: usize = 0;
        while j < tools.len()
            invariant
                j <= tools@.len(),
                total == heuristic_tools(tools@.take(j as int), base),
            decreases tools@.len() - j,
        {
            assert(tools@.take(j + 1).drop_last() =~= tools@.take(j as int));
            let name = heuristic_count(tools[j].name.as_str());
            let parameters = json_text(&tools[j].parameters);
            let p = heuristic_count(parameters.as_str());
            total = total.saturating_add(name).saturating_add(p);
            j = j + 1;
        }
        assert(tools@.take(tools@.len() as int) =~= tools@);
        TokenCountResult { tokens: total, count_type: TokenCount::Estimated }
    }

    fn count_request(&self, request: &ChatRequest) -> (r: TokenCountResult)
        ensures
            r.tokens == heuristic_tools(
                request.tools@,
                heuristic_messages(request.messages@.map_values(|m: Message| m@)),
            ),
            r.count_type == TokenCount::Estimated,
    {
        self.count_messages(request.messages.as_slice(), request.tools.as_slice())
    }
}

/// An exact counter supplied by an application or a tokenizer.
pub struct ExactTokenCounter<F: Fn(&str) -> u64> {
    counter: F,
}

impl<F: Fn(&str) -> u64> ExactTokenCounter<F> {
    /// The tokenizer accepts every text.
    #[verifier::type_invariant]
    spec fn total(self) -> bool {
        forall|t: &str| call_requires(self.counter, (t,))
    }

    /// The wrapped tokenizer.
    pub closed spec fn tokenizer(self) -> F {
        self.counter
    }

    /// Wraps a tokenizer, which must accept every text.
    pub fn new(counter: F) -> (c: Self)
        requires
            forall|t: &str| call_requires(counter, (t,)),
        ensures
            c.tokenizer() == counter,
    {
        ExactTokenCounter { counter }
    }

    /// The text printed for the counter, which never shows the tokenizer's input.
    pub fn redacted(&self) -> (t: String)
        ensures
            t@ == "ExactTokenCounter(..)"@,
    {
        String::from_str("ExactTokenCounter(..)")
    }
}

impl<F: Fn(&str) -> u64> TokenCounter for ExactTokenCounter<F> {
    fn count_text(&self, text: &str) -> (r: TokenCountResult)
        ensures
            call_ensures(self.tokenizer(), (text,), r.tokens),
            r.count_type == TokenCount::Exact,
    {
        proof {
            use_type_invariant(self);
        }
        let tokens = (self.counter)(text);
        TokenCountResult { tokens, count_type: TokenCount::Exact }
    }
}


/// Counts from a provider's reported usage: the completion count for any
/// text, the prompt count for any list of messages.
#[derive(Debug, Clone, Copy, PartialEq, Eq)]
pub struct ProviderReportedTokenCounter {
    usage: TokenUsage,
}

impl ProviderReportedTokenCounter {
    /// A counter that reports `usage`.
    pub fn new(usage: TokenUsage) -> (c: Self)
        ensures
            c.reported() == usage,
    {
        ProviderReportedTokenCounter { usage }
    }

    /// The usage this counter reports.
    pub closed spec fn reported(self) -> TokenUsage {
        self.usage
    }

    /// The usage this counter reports.
    pub fn usage(&self) -> (u: TokenUsage)
        ensures
            u == self.reported(),
    {
        self.usage
    }
}

impl TokenCounter for ProviderReportedTokenCounter {
    fn count_text(&self, text: &str) -> (r: TokenCountResult)
        ensures
            r.tokens == self.reported().completion_tokens,
            r.count_type == TokenCount::ProviderReported,
    {
        TokenCountResult { tokens: self.usage.completion_tokens, count_type: TokenCount::ProviderReported }
    }

    fn count_messages(&self, messages: &[Message], tools: &[ToolDefinition]) -> (r: TokenCountResult)
        ensures
            r.tokens == self.reported().prompt_tokens,
            r.count_type == TokenCount::ProviderReported,
    {
        TokenCountResult { tokens: self.usage.prompt_tokens, count_type: TokenCount::ProviderReported }
    }

    fn count_request(&self, request: &ChatRequest) -> (r: TokenCountResult)
        ensures
            r.tokens == self.reported().prompt_tokens,
            r.count_type == TokenCount::ProviderReported,
    {
        self.count_messages(request.messages.as_slice(), request.tools.as_slice())
    }
}

/// How much a provenance can be trusted: exact, then provider-reported, then
/// estimated.
pub open spec fn provenance_rank(c: TokenCount) -> nat {
    match c {
        TokenCount::Exact => 0,
        TokenCount::ProviderReported => 1,
        TokenCount::Estimated => 2,
    }
}

/// The provenance of a sum: the least trustworthy of its parts. An empty sum
/// counts as exact.
pub open spec fn merged(current: Option<TokenCount>, next: TokenCount) -> TokenCount {
    match current {
        None => next,
        Some(c) => if provenance_rank(c) >= provenance_rank(next) {
            c
        } else {
            next
        },
    }
}

/// The provenance of a sum of counts.
pub fn merge_count(current: Option<TokenCount>, next: TokenCount) -> (r: TokenCount)
    ensures
        r == merged(current, next),
{
    match (current, next) {
        (Some(TokenCount::Estimated), _) | (_, TokenCount::Estimated) => TokenCount::Estimated,
        (Some(TokenCount::ProviderReported), _) | (_, TokenCount::ProviderReported) => {
            TokenCount::ProviderReported
        },
        _ => TokenCount::Exact,
    }
}

/// Merging provenances does not depend on order.
pub proof fn lemma_merge_commutes(a: TokenCount, b: TokenCount)
    ensures
        merged(Some(a), b) == merged(Some(b), a),
{
}

/// Merging provenances can be grouped either way.
pub proof fn lemma_merge_associates(a: TokenCount, b: TokenCount, c: TokenCount)
    ensures
        merged(Some(merged(Some(a), b)), c) == merged(Some(a), merged(Some(b), c)),
{
}

/// An estimate anywhere makes the sum an estimate; provider-reported mixed with
/// exact is provider-reported.
pub proof fn lemma_merge_conservative(current: Option<TokenCount>, next: TokenCount)
    ensures
        (current == Some(TokenCount::Estimated) || next == TokenCount::Estimated) ==> merged(
            current,
            next,
        ) == TokenCount::Estimated,
        (current == Some(TokenCount::ProviderReported) && next == TokenCount::Exact) || (current
            == Some(TokenCount::Exact) && next == TokenCount::ProviderReported) ==> merged(
            current,
            next,
        ) == TokenCount::ProviderReported,
{
}

/// Prompt and completion tokens accumulated over a run, with their provenance.
#[derive(Debug, Clone, Copy, PartialEq, Eq)]
pub struct TokenAccounting {
    pub prompt_tokens: u64,
    pub completion_tokens: u64,
    pub prompt_count: Option<TokenCount>,
    pub completion_count: Option<TokenCount>,
}

impl Default for TokenAccounting {
    fn default() -> (a: TokenAccounting)
        ensures
            a.prompt_tokens == 0,
            a.completion_tokens == 0,
            a.prompt_count is None,
            a.completion_count is None,
    {
        TokenAccounting { prompt_tokens: 0, completion_tokens: 0, prompt_count: None, completion_count: None }
    }
}

impl TokenAccounting {
    /// Adds a prompt count.
    pub fn record_prompt(&mut self, result: TokenCountResult)
        ensures
            final(self).prompt_tokens == sat_add(old(self).prompt_tokens as int, result.tokens as int),
            final(self).prompt_count == Some(merged(old(self).prompt_count, result.count_type)),
            final(self).completion_tokens == old(self).completion_tokens,
            final(self).completion_count == old(self).completion_count,
    {
        self.prompt_tokens = self.prompt_tokens.saturating_add(result.tokens);
        self.prompt_count = Some(merge_count(self.prompt_count, result.count_type));
    }

    /// Adds a completion count.
    pub fn record_completion(&mut self, result: TokenCountResult)
        ensures
            final(self).completion_tokens == sat_add(
                old(self).completion_tokens as int,
                result.tokens as int,
            ),
            final(self).completion_count == Some(merged(old(self).completion_count, result.count_type)),
            final(self).prompt_tokens == old(self).prompt_tokens,
            final(self).prompt_count == old(self).prompt_count,
    {
        self.completion_tokens = self.completion_tokens.saturating_add(result.tokens);
        self.completion_count = Some(merge_count(self.completion_count, result.count_type));
    }

    /// Adds the prompt and completion counts of a provider's usage report.
    pub fn record_usage(&mut self, usage: &TokenUsage)
        ensures
            final(self).prompt_tokens == sat_add(old(self).prompt_tokens as int, usage.prompt_tokens as int),
            final(self).completion_tokens == sat_add(
                old(self).completion_tokens as int,
                usage.completion_tokens as int,
            ),
            final(self).prompt_count == Some(merged(old(self).prompt_count, usage.count_type)),
            final(self).completion_count == Some(merged(old(self).completion_count, usage.count_type)),
    {
        self.prompt_tokens = self.prompt_tokens.saturating_add(usage.prompt_tokens);
        self.completion_tokens = self.completion_tokens.saturating_add(usage.completion_tokens);
        self.prompt_count = Some(merge_count(self.prompt_count, usage.count_type));
        self.completion_count = Some(merge_count(self.completion_count, usage.count_type));
    }

    /// Prompt plus completion tokens, capped at `u64::MAX`.
    pub fn total(&self) -> (t: u64)
        ensures
            t == sat_add(self.prompt_tokens as int, self.completion_tokens as int),
    {
        self.prompt_tokens.saturating_add(self.completion_tokens)
    }
}

/// Recording a usage report twice adds it twice (below the cap).
pub proof fn lemma_record_usage_twice(start: TokenAccounting, usage: TokenUsage)
    requires
        start.prompt_tokens + 2 * usage.prompt_tokens <= u64::MAX,
        start.completion_tokens + 2 * usage.completion_tokens <= u64::MAX,
    ensures
        sat_add(sat_add(start.prompt_tokens as int, usage.prompt_tokens as int), usage.prompt_tokens as int)
            == start.prompt_tokens + 2 * usage.prompt_tokens,
        sat_add(
            sat_add(start.completion_tokens as int, usage.completion_tokens as int),
            usage.completion_tokens as int,
        ) == start.completion_tokens + 2 * usage.completion_tokens,
{
}

} // verus!
