//! Retry policy: error classification, attempt budget, back-off and hints.
use vstd::prelude::*;
use crate::text::{concat2, decimal_seq, decimal_string};
use super::ToolCallResult;
use vstd::arithmetic::power2::{pow2, lemma_pow2_unfold, lemma_pow2_strictly_increases, lemma2_to64_rest};

verus! {

/// Kind of a tool error.
#[derive(PartialEq, Eq, Structural, Clone, Copy)]
pub enum ToolErrorKind {
    /// Timed out: up to 5 attempts, exponential back-off.
    Timeout,
    /// Permission denied: not retried.
    PermissionDenied,
    /// Resource missing: not retried.
    NotFound,
    /// Network failure: up to 3 attempts, 3 s apart.
    NetworkError,
    /// Output did not parse: not retried.
    ParseError,
    /// Anything else: up to 3 attempts, 3 s apart.
    Unknown,
}

/// Attempt budget of each kind.
pub open spec fn attempts_of(k: ToolErrorKind) -> nat {
    match k {
        ToolErrorKind::Timeout => 5,
        ToolErrorKind::NetworkError => 3,
        ToolErrorKind::Unknown => 3,
        _ => 0,
    }
}

/// Back-off before the retry that follows failed attempt `attempt`, in milliseconds.
pub open spec fn backoff_of(k: ToolErrorKind, attempt: nat) -> nat {
    match k {
        ToolErrorKind::Timeout => pow2(attempt + 1) * 1000,
        ToolErrorKind::NetworkError | ToolErrorKind::Unknown => 3000,
        _ => 0,
    }
}

/// Hint injected back into the model for each kind.
pub open spec fn hint_of(k: ToolErrorKind) -> Seq<char> {
    match k {
        ToolErrorKind::Timeout => "该操作超时，请检查参数或尝试更轻量的替代工具"@,
        ToolErrorKind::PermissionDenied => "权限不足，请确认当前角色是否允许此操作"@,
        ToolErrorKind::NotFound => "资源未找到，请检查参数拼写"@,
        ToolErrorKind::NetworkError => "网络异常，请重试或考虑降级方案"@,
        ToolErrorKind::ParseError => "输出格式不匹配，请严格遵循 JSON Schema"@,
        ToolErrorKind::Unknown => "操作失败，请分析错误信息并调整策略"@,
    }
}

impl ToolErrorKind {
    /// Whether the kind is retried at all.
    pub fn is_retriable(self) -> (b: bool)
        ensures
            b == (self == ToolErrorKind::Timeout || self == ToolErrorKind::NetworkError || self
                == ToolErrorKind::Unknown),
    {
        match self {
            ToolErrorKind::Timeout | ToolErrorKind::NetworkError | ToolErrorKind::Unknown => true,
            _ => false,
        }
    }

    /// Attempt budget (0 = not retried).
    pub fn max_attempts(self) -> (n: u32)
        ensures
            n as nat == attempts_of(self),
    {
        match self {
            ToolErrorKind::Timeout => 5,
            ToolErrorKind::NetworkError => 3,
            ToolErrorKind::Unknown => 3,
            _ => 0,
        }
    }

    /// Back-off after failed attempt `attempt` (0-based), in milliseconds.
    pub fn backoff_ms(self, attempt: u32) -> (ms: u64)
        requires
            self == ToolErrorKind::Timeout ==> attempt <= 53,
        ensures
            ms as nat == backoff_of(self, attempt as nat),
    {
        match self {
            ToolErrorKind::Timeout => {
                let mut p: u64 = 1;
                let mut e: u32 = 0;
                proof {
                    lemma2_to64_rest();
                    assert(pow2(0) == 1) by { vstd::arithmetic::power2::lemma2_to64(); }
                }
                while e < attempt + 1
                    invariant
                        attempt <= 53,
                        e <= attempt + 1,
                        p as nat == pow2(e as nat),
                        pow2(54) == 0x40000000000000,
                    decreases attempt + 1 - e,
                {
                    proof {
                        lemma_pow2_unfold((e + 1) as nat);
                        if e + 1 < 54 {
                            lemma_pow2_strictly_increases((e + 1) as nat, 54);
                        }
                    }
                    p = p * 2;
                    e = e + 1;
                }
                proof {
                    if attempt + 1 < 54 {
                        lemma_pow2_strictly_increases((attempt + 1) as nat, 54);
                    }
                }
                p * 1000
            },
            ToolErrorKind::NetworkError | ToolErrorKind::Unknown => 3000,
            _ => 0,
        }
    }

    /// Hint for the model.
    pub fn hint(self) -> (s: &'static str)
        ensures
            s@ == hint_of(self),
    {
        match self {
            ToolErrorKind::Timeout => "该操作超时，请检查参数或尝试更轻量的替代工具",
            ToolErrorKind::PermissionDenied => "权限不足，请确认当前角色是否允许此操作",
            ToolErrorKind::NotFound => "资源未找到，请检查参数拼写",
            ToolErrorKind::NetworkError => "网络异常，请重试或考虑降级方案",
            ToolErrorKind::ParseError => "输出格式不匹配，请严格遵循 JSON Schema",
            ToolErrorKind::Unknown => "操作失败，请分析错误信息并调整策略",
        }
    }
}

/// What the retry loop does after an attempt.
pub enum RetryStep {
    /// Stop and return this result.
    Finish(ToolCallResult),
    /// Sleep this many milliseconds (0 = none), then try again.
    Retry(u64),
}

/// Message of the final failure after the whole budget was spent.
pub open spec fn exhausted_message(msg: Seq<char>, k: ToolErrorKind) -> Seq<char> {
    msg + " (重试 "@ + decimal_seq(attempts_of(k)) + " 次后仍失败, 提示: "@ + hint_of(k) + ")"@
}

/// Retry policy keyed by error kind.
pub struct RetryPolicy;

impl RetryPolicy {
    /// Decides what follows attempt `attempt` (0-based) that produced `result`, for an
    /// error kind with a non-zero budget: a success ends the loop, the last failure ends
    /// it with the exhausted message, any other failure waits the back-off and retries.
    pub fn next_step(kind: ToolErrorKind, attempt: u32, result: ToolCallResult) -> (s: RetryStep)
        requires
            attempt < attempts_of(kind),
        ensures
            match result {
                ToolCallResult::Success(_) => s == RetryStep::Finish(result),
                ToolCallResult::Failure(msg) => if attempt + 1 == attempts_of(kind) {
                    s matches RetryStep::Finish(ToolCallResult::Failure(m)) && m@
                        == exhausted_message(msg@, kind)
                } else {
                    s == RetryStep::Retry(backoff_of(kind, attempt as nat) as u64)
                },
            },
    {
        let max = kind.max_attempts();
        match result {
            ToolCallResult::Success(s) => RetryStep::Finish(ToolCallResult::Success(s)),
            ToolCallResult::Failure(msg) => {
                if attempt == max - 1 {
                    let mut m = concat2(msg.as_str(), " (重试 ");
                    let count = decimal_string(max as u64);
                    m.append(count.as_str());
                    m.append(" 次后仍失败, 提示: ");
                    m.append(kind.hint());
                    m.append(")");
                    RetryStep::Finish(ToolCallResult::Failure(m))
                } else {
                    RetryStep::Retry(kind.backoff_ms(attempt))
                }
            },
        }
    }
}

/// Time-outs back off exponentially: each wait is twice the one before.
pub proof fn lemma_timeout_backoff_doubles(attempt: nat)
    ensures
        backoff_of(ToolErrorKind::Timeout, attempt + 1) == 2 * backoff_of(ToolErrorKind::Timeout, attempt),
{
    lemma_pow2_unfold(attempt + 2);
    assert(pow2(attempt + 2) * 1000 == 2 * (pow2(attempt + 1) * 1000)) by (nonlinear_arith)
        requires
            pow2(attempt + 2) == 2 * pow2(attempt + 1),
    ;
}

/// An error kind is retried exactly when it has a retry budget: the retriable kinds have
/// attempts, the others none.
pub proof fn lemma_retriable_iff_attempts(k: ToolErrorKind)
    ensures
        (k == ToolErrorKind::Timeout || k == ToolErrorKind::NetworkError || k == ToolErrorKind::Unknown) <==> attempts_of(k) > 0,
{
}

} // verus!
