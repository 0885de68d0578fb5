//! Bounded exponential backoff with jitter, and the decisions of retry loops.

use crate::budget::RetryBudget;
use crate::duration::{min_nat, Duration, MAX_NANOS};
use crate::error::{error_kind, kind_is_transient, LlmError};
use vstd::prelude::*;

verus! {

/// Amount of randomisation applied to exponential backoff.
#[derive(Debug, Clone, Copy, PartialEq, Eq, Structural)]
pub enum Jitter {
    /// No randomisation: the exponential delay itself.
    Off,
    /// A random delay in `[0, exponential_delay]`.
    Full,
    /// A random delay in `[exponential_delay / 2, exponential_delay]`.
    Equal,
}

impl Default for Jitter {
    fn default() -> (j: Jitter)
        ensures
            j == Jitter::Equal,
    {
        Jitter::Equal
    }
}

/// Two to the power `k`.
pub open spec fn two_pow(k: nat) -> nat
    decreases k,
{
    if k == 0 {
        1
    } else {
        2 * two_pow((k - 1) as nat)
    }
}

/// Powers of two do not decrease.
proof fn lemma_two_pow_monotone(i: nat, j: nat)
    requires
        i <= j,
    ensures
        two_pow(i) <= two_pow(j),
    decreases j - i,
{
    if i < j {
        lemma_two_pow_monotone(i, (j - 1) as nat);
    }
}

/// `base * 2^k`, capped at `max`, computed without leaving the range of a
/// span: doubling stops once the span is past `max` or out of range, where the
/// exact product would be too.
pub fn capped_exponential(base: Duration, max: Duration, k: u32) -> (d: Duration)
    ensures
        d@ == min_nat(base@ * two_pow(k as nat), max@),
        d@ <= MAX_NANOS,
{
    if base.is_zero() {
        assert(base@ * two_pow(k as nat) == 0);
        return base;
    }
    let max_nanos = max.as_nanos();
    assert(two_pow(0) == 1);
    let mut e = base;
    let mut i: u32 = 0;
    while i < k
        invariant
            i <= k,
            e@ == base@ * two_pow(i as nat),
            max_nanos == max@,
            max@ <= MAX_NANOS,
        decreases k - i,
    {
        proof {
            lemma_two_pow_monotone(i as nat, k as nat);
            assert(base@ * two_pow(i as nat) <= base@ * two_pow(k as nat)) by (nonlinear_arith)
                requires
                    two_pow(i as nat) <= two_pow(k as nat),
            ;
        }
        if e.as_nanos() > max_nanos {
            return max;
        }
        assert(two_pow((i + 1) as nat) == 2 * two_pow(i as nat));
        assert(base@ * two_pow((i + 1) as nat) == 2 * (base@ * two_pow(i as nat))) by (nonlinear_arith)
            requires
                two_pow((i + 1) as nat) == 2 * two_pow(i as nat),
        ;
        match e.checked_add(e) {
            Some(doubled) => {
                e = doubled;
            },
            None => {
                proof {
                    lemma_two_pow_monotone((i + 1) as nat, k as nat);
                    assert(base@ * two_pow((i + 1) as nat) <= base@ * two_pow(k as nat)) by (nonlinear_arith)
                        requires
                            two_pow((i + 1) as nat) <= two_pow(k as nat),
                    ;
                }
                return max;
            },
        }
        i = i + 1;
    }
    e.min(max)
}

/// The backoff before retry `retry` (one-based), before jitter:
/// `base * 2^(retry - 1)`, capped at `max`.
pub open spec fn exponential_delay(base: nat, max: nat, retry: nat) -> nat {
    let k = if retry >= 1 {
        (retry - 1) as nat
    } else {
        0
    };
    min_nat(base * two_pow(k), max)
}

/// The delays jitter allows around an exponential delay `e`.
pub open spec fn jittered(jitter: Jitter, e: nat, d: nat) -> bool {
    match jitter {
        Jitter::Off => d == e,
        Jitter::Full => d <= e,
        Jitter::Equal => e / 2 <= d <= e,
    }
}

/// A reading of the system clock.
#[verifier::external_type_specification]
#[verifier::external_body]
pub struct ExSystemTime(std::time::SystemTime);

/// The error of a clock reading before the reference instant.
#[verifier::external_type_specification]
#[verifier::external_body]
pub struct ExSystemTimeError(std::time::SystemTimeError);

/// The current time, by `SystemTime::now`; nothing is promised of it.
#[verifier::external_body]
fn clock_now() -> (t: std::time::SystemTime) {
    std::time::SystemTime::now()
}

/// The time elapsed from the Unix epoch to `t`, by
/// `SystemTime::duration_since`; an error when `t` is earlier. Nothing is
/// promised of the value.
#[verifier::external_body]
fn since_unix_epoch(t: &std::time::SystemTime) -> (r: Result<core::time::Duration, std::time::SystemTimeError>) {
    t.duration_since(std::time::UNIX_EPOCH)
}

/// `Duration::subsec_nanos` gives the fractional part of a second, which its
/// documentation says is always less than one billion.
pub assume_specification[ core::time::Duration::subsec_nanos ](d: &core::time::Duration) -> (n: u32)
    ensures
        n < 1_000_000_000,
;

/// The clock's nanoseconds within the current second since the Unix epoch,
/// or 0 when the clock is before the epoch.
fn clock_subsec_nanos() -> (n: u32)
    ensures
        n < 1_000_000_000,
{
    let now = clock_now();
    match since_unix_epoch(&now) {
        Ok(elapsed) => elapsed.subsec_nanos(),
        Err(_) => 0,
    }
}

/// The span drawn from `nanos` nanoseconds of the clock for a bound `max`:
/// zero for an empty bound; `nanos` itself once the bound reaches `u64::MAX`
/// nanoseconds; else `nanos` modulo `max + 1`.
pub open spec fn drawn_span(nanos: nat, max: nat) -> nat {
    if max == 0 {
        0
    } else if max >= u64::MAX {
        nanos
    } else {
        nanos % (max + 1)
    }
}

/// The span that `nanos` nanoseconds of the clock give for a bound `max`.
pub fn span_of(nanos: u64, max: Duration) -> (d: Duration)
    ensures
        d@ == drawn_span(nanos as nat, max@),
        d@ <= max@,
        d@ <= nanos,
{
    if max.is_zero() {
        return Duration::zero();
    }
    let total = max.as_nanos();
    if total >= 0xFFFF_FFFF_FFFF_FFFF {
        Duration::from_nanos(nanos)
    } else {
        let m: u64 = total as u64 + 1;
        let r = nanos % m;
        assert(r <= nanos && r < m) by (nonlinear_arith)
            requires
                r == nanos % m,
                m > 0,
        ;
        Duration::from_nanos(r)
    }
}

/// A pseudo-random span in `[0, max]`, drawn from the nanoseconds of the
/// clock, so shorter than a second.
pub fn random_duration(max: Duration) -> (d: Duration)
    ensures
        exists|n: nat| n < 1_000_000_000 && d@ == drawn_span(n, max@),
        d@ <= max@,
        d@ < 1_000_000_000,
{
    if max.is_zero() {
        let d = Duration::zero();
        assert(d@ == drawn_span(0, max@));
        return d;
    }
    let nanos = clock_subsec_nanos() as u64;
    span_of(nanos, max)
}

/// Bounded exponential backoff with jitter and an optional shared budget.
/// Whether an error is worth retrying is decided by the caller's classifier;
/// [`RetryPolicy::should_retry`] is the default one.
#[derive(Clone)]
pub struct RetryPolicy {
    pub max_retries: u32,
    pub base_delay: Duration,
    pub max_delay: Duration,
    pub jitter: Jitter,
    pub budget: Option<RetryBudget>,
}

/// What a retry loop does after a failed attempt.
#[derive(Debug, Clone, Copy, PartialEq, Eq)]
pub enum RetryStep {
    /// Wait `delay`, then make attempt `retries + 1`.
    Retry { retries: u32, delay: Duration },
    /// Return the error.
    Fail,
}

/// Builds a [`RetryPolicy`]; the defaults are two retries, 100 ms base delay,
/// 30 s cap, equal jitter and no budget.
pub struct RetryPolicyBuilder {
    policy: RetryPolicy,
}

impl RetryPolicyBuilder {
    /// The policy being built.
    pub closed spec fn spec_policy(self) -> RetryPolicy {
        self.policy
    }

    /// Sets the number of retries after the first attempt.
    pub fn max_retries(self, value: u32) -> (b: Self)
        ensures
            b.spec_policy() == (RetryPolicy { max_retries: value, ..self.spec_policy() }),
    {
        let mut b = self;
        b.policy.max_retries = value;
        b
    }

    /// Sets the delay before the first retry.
    pub fn base_delay(self, value: Duration) -> (b: Self)
        ensures
            b.spec_policy() == (RetryPolicy { base_delay: value, ..self.spec_policy() }),
    {
        let mut b = self;
        b.policy.base_delay = value;
        b
    }

    /// Sets the cap of every delay.
    pub fn max_delay(self, value: Duration) -> (b: Self)
        ensures
            b.spec_policy() == (RetryPolicy { max_delay: value, ..self.spec_policy() }),
    {
        let mut b = self;
        b.policy.max_delay = value;
        b
    }

    /// Sets the jitter.
    pub fn jitter(self, value: Jitter) -> (b: Self)
        ensures
            b.spec_policy() == (RetryPolicy { jitter: value, ..self.spec_policy() }),
    {
        let mut b = self;
        b.policy.jitter = value;
        b
    }

    /// Shares a retry budget.
    pub fn budget(self, value: RetryBudget) -> (b: Self)
        ensures
            b.spec_policy() == (RetryPolicy { budget: Some(value), ..self.spec_policy() }),
    {
        let mut b = self;
        b.policy.budget = Some(value);
        b
    }

    /// The policy.
    pub fn build(self) -> (p: RetryPolicy)
        ensures
            p == self.spec_policy(),
    {
        self.policy
    }
}

impl Default for RetryPolicyBuilder {
    fn default() -> (b: RetryPolicyBuilder)
        ensures
            b.spec_policy().max_retries == 2,
            b.spec_policy().base_delay@ == 100_000_000,
            b.spec_policy().max_delay@ == 30_000_000_000,
            b.spec_policy().jitter == Jitter::Equal,
            b.spec_policy().budget is None,
    {
        RetryPolicyBuilder {
            policy: RetryPolicy {
                max_retries: 2,
                base_delay: Duration::from_millis(100),
                max_delay: Duration::from_secs(30),
                jitter: Jitter::default(),
                budget: None,
            },
        }
    }
}

impl Default for RetryPolicy {
    fn default() -> (p: RetryPolicy)
        ensures
            p.max_retries == 2,
            p.base_delay@ == 100_000_000,
            p.max_delay@ == 30_000_000_000,
            p.jitter == Jitter::Equal,
            p.budget is None,
    {
        RetryPolicy::builder().build()
    }
}

/// The delay that jitter gives around an exponential delay `e` when the clock
/// shows `nanos` nanoseconds.
pub open spec fn jitter_draw(jitter: Jitter, e: nat, nanos: nat) -> nat {
    match jitter {
        Jitter::Off => e,
        Jitter::Full => drawn_span(nanos, e),
        Jitter::Equal => e / 2 + drawn_span(nanos, (e - e / 2) as nat),
    }
}

/// The delays a policy may wait before retry `retry` after `error`: the
/// provider's `Retry-After` when a rate limit carries one, else the jittered
/// exponential delay; both capped at the policy's maximum.
pub open spec fn allowed_delay(p: RetryPolicy, retry: nat, error: LlmError, d: nat) -> bool {
    match error {
        LlmError::RateLimited { retry_after: Some(after) } => d == min_nat(after@, p.max_delay@),
        _ => jittered(
            p.jitter,
            exponential_delay(p.base_delay@, p.max_delay@, retry),
            d,
        ),
    }
}

impl RetryPolicy {
    /// A policy with the given bounds and the default equal jitter, no budget.
    pub fn new(max_retries: u32, base_delay: Duration, max_delay: Duration) -> (p: RetryPolicy)
        ensures
            p.max_retries == max_retries,
            p.base_delay == base_delay,
            p.max_delay == max_delay,
            p.jitter == Jitter::Equal,
            p.budget is None,
    {
        Self::builder().max_retries(max_retries).base_delay(base_delay).max_delay(max_delay).build()
    }

    /// A builder with the defaults.
    pub fn builder() -> (b: RetryPolicyBuilder)
        ensures
            b.spec_policy().max_retries == 2,
            b.spec_policy().base_delay@ == 100_000_000,
            b.spec_policy().max_delay@ == 30_000_000_000,
            b.spec_policy().jitter == Jitter::Equal,
            b.spec_policy().budget is None,
    {
        RetryPolicyBuilder::default()
    }

    /// The default classification: transient errors are worth retrying.
    pub fn should_retry(&self, error: &LlmError) -> (b: bool)
        ensures
            b == kind_is_transient(error_kind(*error)),
    {
        error.is_retryable()
    }

    /// The delay before retry `retry_number` (one-based), honoring
    /// `Retry-After` on rate limits and the configured cap.
    pub fn delay_for(&self, retry_number: u32, error: &LlmError) -> (d: Duration)
        ensures
            allowed_delay(*self, retry_number as nat, *error, d@),
            d@ <= self.max_delay@,
            !(error matches LlmError::RateLimited { retry_after: Some(_) }) ==> exists|n: nat|
                n < 1_000_000_000 && d@ == jitter_draw(
                    self.jitter,
                    exponential_delay(self.base_delay@, self.max_delay@, retry_number as nat),
                    n,
                ),
    {
        let k = retry_number.saturating_sub(1);
        let exponential = capped_exponential(self.base_delay, self.max_delay, k);
        assert(exponential@ == exponential_delay(self.base_delay@, self.max_delay@, retry_number as nat));
        let ghost mut nanos: nat = 0;
        let delay = match self.jitter {
            Jitter::Off => exponential,
            Jitter::Full => {
                let r = random_duration(exponential);
                proof {
                    nanos = choose|n: nat| n < 1_000_000_000 && r@ == drawn_span(n, exponential@);
                }
                r
            },
            Jitter::Equal => {
                let half = exponential.half();
                let rest = exponential.saturating_sub(half);
                let extra = random_duration(rest);
                proof {
                    nanos = choose|n: nat| n < 1_000_000_000 && extra@ == drawn_span(n, rest@);
                }
                half.add(extra)
            },
        };
        assert(nanos < 1_000_000_000 && delay@ == jitter_draw(self.jitter, exponential@, nanos));
        match error {
            LlmError::RateLimited { retry_after: Some(after) } => after.min(self.max_delay),
            _ => delay.min(self.max_delay),
        }
    }

    /// Takes one retry from the budget, if there is one.
    fn budget_allows(&self) -> (b: bool)
        ensures
            self.budget is None ==> b,
    {
        match &self.budget {
            None => true,
            Some(budget) => budget.consume(),
        }
    }

    /// The step after attempt `retries + 1` failed with `error`, given the
    /// caller's classification (`retryable`) and whether the budget yielded a
    /// retry (`budget_ok`): a retry exactly when below `max_retries`, for a
    /// retryable error, with the budget's consent; its delay is as
    /// [`allowed_delay`] states.
    pub fn step_after_failure(&self, retries: u32, error: &LlmError, retryable: bool, budget_ok: bool) -> (s: RetryStep)
        ensures
            s is Retry <==> retry_granted(*self, retries as nat, retryable, budget_ok),
            s matches RetryStep::Retry { retries: r, delay } ==> {
                &&& r == retries + 1
                &&& allowed_delay(*self, r as nat, *error, delay@)
            },
    {
        if retries < self.max_retries && retryable && budget_ok {
            let next = retries + 1;
            RetryStep::Retry { retries: next, delay: self.delay_for(next, error) }
        } else {
            RetryStep::Fail
        }
    }

    /// The step after attempt `retries + 1` failed with `error`, which the
    /// caller's classifier judged `retryable`. A retry happens only below
    /// `max_retries`, for a retryable error, and when the budget (if any)
    /// yields one; the budget is asked only when the first two hold. The delay
    /// is as [`allowed_delay`] states.
    pub fn after_failure(&self, retries: u32, error: &LlmError, retryable: bool) -> (s: RetryStep)
        ensures
            s matches RetryStep::Retry { retries: r, delay } ==> {
                &&& retries < self.max_retries
                &&& retryable
                &&& r == retries + 1
                &&& allowed_delay(*self, r as nat, *error, delay@)
            },
            (retries >= self.max_retries || !retryable) ==> s is Fail,
            (retries < self.max_retries && retryable && self.budget is None) ==> s is Retry,
    {
        if retries < self.max_retries && retryable {
            let budget_ok = self.budget_allows();
            self.step_after_failure(retries, error, retryable, budget_ok)
        } else {
            RetryStep::Fail
        }
    }
}

/// Whether a policy grants a retry after `retries` retries, for an error the
/// classifier judged `retryable`, when the budget's answer is `budget_ok`.
pub open spec fn retry_granted(p: RetryPolicy, retries: nat, retryable: bool, budget_ok: bool) -> bool {
    retries < p.max_retries && retryable && budget_ok
}

/// A retry loop makes at most `max_retries + 1` attempts: where the failures
/// of `answers.len()` attempts in a row, counted from zero retries, were each
/// granted a retry (each answer being the classifier's verdict and the
/// budget's), there were at most `max_retries` of them.
pub proof fn lemma_retries_bounded(p: RetryPolicy, answers: Seq<(bool, bool)>)
    requires
        forall|i: int| 0 <= i < answers.len() ==> retry_granted(p, i as nat, #[trigger] answers[i].0, answers[i].1),
    ensures
        answers.len() <= p.max_retries,
{
    if answers.len() > p.max_retries {
        let i = p.max_retries as int;
        assert(retry_granted(p, i as nat, answers[i].0, answers[i].1));
    }
}

/// The state of collecting a stream with safe retries: a failed stream may be
/// opened again only while no user-visible item has been observed.
pub struct StreamCollect {
    retries: u32,
    visible: bool,
}

impl StreamCollect {
    /// The retries made so far.
    pub closed spec fn spec_retries(self) -> u32 {
        self.retries
    }

    /// Whether a user-visible item has been observed in the current stream.
    pub closed spec fn spec_visible(self) -> bool {
        self.visible
    }

    /// No retry made, no visible item observed.
    pub fn new() -> (c: StreamCollect)
        ensures
            c.spec_retries() == 0,
            !c.spec_visible(),
    {
        StreamCollect { retries: 0, visible: false }
    }

    /// The retries made so far.
    pub fn retries(&self) -> (r: u32)
        ensures
            r == self.spec_retries(),
    {
        self.retries
    }

    /// Whether a user-visible item has been observed.
    pub fn visible_seen(&self) -> (b: bool)
        ensures
            b == self.spec_visible(),
    {
        self.visible
    }

    /// Opening the stream failed. Nothing was shown, so the policy decides.
    pub fn on_open_error(&mut self, policy: &RetryPolicy, error: &LlmError, retryable: bool) -> (s: RetryStep)
        requires
            !old(self).spec_visible(),
        ensures
            s matches RetryStep::Retry { retries: r, delay } ==> {
                &&& old(self).spec_retries() < policy.max_retries
                &&& retryable
                &&& r == old(self).spec_retries() + 1
                &&& final(self).spec_retries() == r
                &&& allowed_delay(*policy, r as nat, *error, delay@)
            },
            (old(self).spec_retries() >= policy.max_retries || !retryable) ==> s is Fail,
            (old(self).spec_retries() < policy.max_retries && retryable && policy.budget is None)
                ==> s is Retry,
            s is Fail ==> final(self).spec_retries() == old(self).spec_retries(),
            !final(self).spec_visible(),
    {
        let step = policy.after_failure(self.retries, error, retryable);
        match step {
            RetryStep::Retry { retries, .. } => {
                self.retries = retries;
            },
            RetryStep::Fail => {},
        }
        step
    }

    /// An item arrived; `visible` is the caller's judgement of whether a user
    /// saw it.
    pub fn on_item(&mut self, visible: bool)
        ensures
            final(self).spec_visible() == (old(self).spec_visible() || visible),
            final(self).spec_retries() == old(self).spec_retries(),
    {
        if visible {
            self.visible = true;
        }
    }

    /// The stream failed. After a visible item the error is returned and the
    /// stream is never opened again; before one the policy decides, and a
    /// retry discards the items collected from the failed stream.
    pub fn on_item_error(&mut self, policy: &RetryPolicy, error: &LlmError, retryable: bool) -> (s: RetryStep)
        ensures
            old(self).spec_visible() ==> s is Fail,
            s matches RetryStep::Retry { retries: r, delay } ==> {
                &&& !old(self).spec_visible()
                &&& old(self).spec_retries() < policy.max_retries
                &&& retryable
                &&& r == old(self).spec_retries() + 1
                &&& final(self).spec_retries() == r
                &&& !final(self).spec_visible()
                &&& allowed_delay(*policy, r as nat, *error, delay@)
            },
            (old(self).spec_retries() >= policy.max_retries || !retryable) ==> s is Fail,
            (!old(self).spec_visible() && old(self).spec_retries() < policy.max_retries && retryable
                && policy.budget is None) ==> s is Retry,
            s is Fail ==> final(self).spec_retries() == old(self).spec_retries(),
            final(self).spec_visible() == old(self).spec_visible(),
    {
        if self.visible {
            return RetryStep::Fail;
        }
        self.on_open_error(policy, error, retryable)
    }
}

/// Attempts and retries of a retry loop.
#[derive(Debug, Clone, Copy, Default, PartialEq, Eq, Structural)]
pub struct RetryStats {
    pub attempts: u32,
    pub retries: u32,
}

} // verus!
