//! Token usage of LLM calls, counted against a budget.
use vstd::prelude::*;

verus! {

/// Tokens used by one LLM call.
#[derive(PartialEq, Eq, Structural, Clone, Copy, Debug)]
pub struct TokenUsage {
    pub prompt_tokens: u32,
    pub completion_tokens: u32,
    pub total_tokens: u32,
}

impl TokenUsage {
    /// A usage record with the given counts.
    pub fn new(prompt_tokens: u32, completion_tokens: u32, total_tokens: u32) -> (u: TokenUsage)
        ensures
            u.prompt_tokens == prompt_tokens,
            u.completion_tokens == completion_tokens,
            u.total_tokens == total_tokens,
    {
        TokenUsage { prompt_tokens, completion_tokens, total_tokens }
    }
}

impl Default for TokenUsage {
    fn default() -> (u: TokenUsage)
        ensures
            u.prompt_tokens == 0,
            u.completion_tokens == 0,
            u.total_tokens == 0,
    {
        TokenUsage { prompt_tokens: 0, completion_tokens: 0, total_tokens: 0 }
    }
}

/// Sum of the prompt tokens of `calls`.
pub open spec fn sum_prompt(calls: Seq<TokenUsage>) -> int
    decreases calls.len(),
{
    if calls.len() == 0 { 0 } else { sum_prompt(calls.drop_last()) + calls.last().prompt_tokens }
}

/// Sum of the completion tokens of `calls`.
pub open spec fn sum_completion(calls: Seq<TokenUsage>) -> int
    decreases calls.len(),
{
    if calls.len() == 0 { 0 } else { sum_completion(calls.drop_last()) + calls.last().completion_tokens }
}

/// Sum of the total tokens of `calls`.
pub open spec fn sum_total(calls: Seq<TokenUsage>) -> int
    decreases calls.len(),
{
    if calls.len() == 0 { 0 } else { sum_total(calls.drop_last()) + calls.last().total_tokens }
}

/// Budget left after `used` tokens: never below zero.
pub open spec fn remaining_of(budget: u32, used: int) -> int {
    if used >= budget { 0 } else { budget - used }
}

/// Counts tokens per call and in total, and rounds of the conversation.
pub struct TokenTracker {
    total_usage: TokenUsage,
    per_call: Vec<TokenUsage>,
    round_count: u32,
    budget: u32,
}

impl TokenTracker {
    /// The recorded calls, oldest first.
    pub closed spec fn calls(&self) -> Seq<TokenUsage> {
        self.per_call@
    }

    /// The running totals.
    pub closed spec fn totals(&self) -> TokenUsage {
        self.total_usage
    }

    /// The token budget.
    pub closed spec fn budget(&self) -> u32 {
        self.budget
    }

    /// The number of rounds.
    pub closed spec fn rounds(&self) -> u32 {
        self.round_count
    }

    /// The totals are the sums over the recorded calls.
    pub closed spec fn wf(&self) -> bool {
        &&& self.total_usage.prompt_tokens == sum_prompt(self.per_call@)
        &&& self.total_usage.completion_tokens == sum_completion(self.per_call@)
        &&& self.total_usage.total_tokens == sum_total(self.per_call@)
    }

    /// A tracker with nothing recorded.
    pub fn new(budget: u32) -> (t: TokenTracker)
        ensures
            t.wf(),
            t.calls() == Seq::<TokenUsage>::empty(),
            t.budget() == budget,
            t.rounds() == 0,
    {
        TokenTracker { total_usage: TokenUsage::default(), per_call: Vec::new(), round_count: 0, budget }
    }

    /// Records the usage of one call; the totals must stay within `u32`.
    pub fn record(&mut self, usage: TokenUsage)
        requires
            old(self).wf(),
            sum_prompt(old(self).calls()) + usage.prompt_tokens <= u32::MAX,
            sum_completion(old(self).calls()) + usage.completion_tokens <= u32::MAX,
            sum_total(old(self).calls()) + usage.total_tokens <= u32::MAX,
        ensures
            final(self).wf(),
            final(self).calls() == old(self).calls().push(usage),
            final(self).budget() == old(self).budget(),
            final(self).rounds() == old(self).rounds(),
    {
        self.total_usage.prompt_tokens = self.total_usage.prompt_tokens + usage.prompt_tokens;
        self.total_usage.completion_tokens = self.total_usage.completion_tokens + usage.completion_tokens;
        self.total_usage.total_tokens = self.total_usage.total_tokens + usage.total_tokens;
        self.per_call.push(usage);
        assert(self.per_call@.drop_last() =~= old(self).per_call@);
    }

    /// The running totals: the sums over the recorded calls.
    pub fn usage(&self) -> (u: TokenUsage)
        ensures
            u == self.totals(),
            self.wf() ==> u.prompt_tokens == sum_prompt(self.calls()) && u.completion_tokens == sum_completion(
                self.calls(),
            ) && u.total_tokens == sum_total(self.calls()),
    {
        self.total_usage
    }

    /// Budget left: the budget minus all tokens used, never below zero.
    pub fn remaining(&self) -> (r: u32)
        requires
            self.wf(),
        ensures
            r == remaining_of(self.budget(), sum_total(self.calls())),
    {
        self.budget.saturating_sub(self.total_usage.total_tokens)
    }

    /// Whether the budget is used up.
    pub fn is_exceeded(&self) -> (b: bool)
        requires
            self.wf(),
        ensures
            b == (sum_total(self.calls()) >= self.budget()),
    {
        self.remaining() == 0
    }

    /// The number of recorded calls.
    pub fn call_count(&self) -> (n: usize)
        ensures
            n == self.calls().len(),
    {
        self.per_call.len()
    }

    /// Counts one more round.
    pub fn increment_round(&mut self)
        requires
            old(self).rounds() < u32::MAX,
        ensures
            final(self).rounds() == old(self).rounds() + 1,
            final(self).calls() == old(self).calls(),
            final(self).totals() == old(self).totals(),
            final(self).budget() == old(self).budget(),
    {
        self.round_count = self.round_count + 1;
    }

    /// The number of rounds.
    pub fn round_count(&self) -> (n: u32)
        ensures
            n == self.rounds(),
    {
        self.round_count
    }
}

/// The totals of a well-formed tracker are the sums over its recorded calls.
pub proof fn lemma_totals_are_sums(t: &TokenTracker)
    requires
        t.wf(),
    ensures
        t.totals().prompt_tokens == sum_prompt(t.calls()),
        t.totals().completion_tokens == sum_completion(t.calls()),
        t.totals().total_tokens == sum_total(t.calls()),
{
}

/// Budget accounting: within the budget, what is left and what was used add up to the
/// budget; beyond it nothing is left.
pub proof fn lemma_remaining_accounts(budget: u32, used: int)
    requires
        used >= 0,
    ensures
        used <= budget ==> remaining_of(budget, used) + used == budget,
        used >= budget ==> remaining_of(budget, used) == 0,
        0 <= remaining_of(budget, used) <= budget,
{
}

/// The totals grow by each recorded call: recording a call adds its counts to the sums.
pub proof fn lemma_sums_push(calls: Seq<TokenUsage>, u: TokenUsage)
    ensures
        sum_prompt(calls.push(u)) == sum_prompt(calls) + u.prompt_tokens,
        sum_completion(calls.push(u)) == sum_completion(calls) + u.completion_tokens,
        sum_total(calls.push(u)) == sum_total(calls) + u.total_tokens,
{
    assert(calls.push(u).drop_last() =~= calls);
}

} // verus!
