//! Fallback hand-off of a task to the external coding-agent command line.
use vstd::prelude::*;
use crate::text::{decimal_seq, decimal_string, owned};

verus! {

/// Why the loop fell back.
#[derive(PartialEq, Eq, Structural, Clone, Copy)]
pub enum FallbackReason {
    /// Signal vote escalated.
    SignalEscalation,
    /// Loop detection reached level 3.
    LoopDetected,
    /// Too many rounds.
    MaxIterationsExceeded,
    /// Timed out.
    Timeout,
}

/// Display text of each reason.
pub open spec fn reason_text(r: FallbackReason) -> Seq<char> {
    match r {
        FallbackReason::SignalEscalation => "信号投票触发降级"@,
        FallbackReason::LoopDetected => "检测到死循环，触发降级"@,
        FallbackReason::MaxIterationsExceeded => "超过最大轮次，触发降级"@,
        FallbackReason::Timeout => "超时，触发降级"@,
    }
}

impl FallbackReason {
    /// Human-readable text of the reason.
    pub fn to_string(&self) -> (s: String)
        ensures
            s@ == reason_text(*self),
    {
        match self {
            FallbackReason::SignalEscalation => owned("信号投票触发降级"),
            FallbackReason::LoopDetected => owned("检测到死循环，触发降级"),
            FallbackReason::MaxIterationsExceeded => owned("超过最大轮次，触发降级"),
            FallbackReason::Timeout => owned("超时，触发降级"),
        }
    }
}

/// Result of a fallback run.
pub struct FallbackResult {
    pub success: bool,
    pub output: String,
    pub reason: Option<FallbackReason>,
    pub token_usage: u32,
}

impl FallbackResult {
    pub fn success(output: String, token_usage: u32) -> (r: FallbackResult)
        ensures
            r.success,
            r.output == output,
            r.reason is None,
            r.token_usage == token_usage,
    {
        FallbackResult { success: true, output, reason: None, token_usage }
    }

    pub fn failure(output: String, reason: FallbackReason) -> (r: FallbackResult)
        ensures
            !r.success,
            r.output == output,
            r.reason == Some(reason),
            r.token_usage == 0,
    {
        FallbackResult { success: false, output, reason: Some(reason), token_usage: 0 }
    }
}

/// Builds the external coding-agent command line for a task.
pub struct FallbackHandler {
    claude_path: String,
    timeout_secs: u64,
}

impl FallbackHandler {
    /// Path of the coding-agent executable.
    pub closed spec fn path(&self) -> Seq<char> {
        self.claude_path@
    }

    /// Timeout in seconds.
    pub closed spec fn timeout(&self) -> nat {
        self.timeout_secs as nat
    }

    /// A handler with the default timeout of 300 seconds.
    pub fn new(claude_path: String) -> (h: FallbackHandler)
        ensures
            h.path() == claude_path@,
            h.timeout() == 300,
    {
        FallbackHandler { claude_path, timeout_secs: 300 }
    }

    pub fn set_timeout_secs(&mut self, secs: u64)
        ensures
            final(self).path() == old(self).path(),
            final(self).timeout() == secs,
    {
        self.timeout_secs = secs;
    }

    pub fn timeout_secs(&self) -> (t: u64)
        ensures
            t as nat == self.timeout(),
    {
        self.timeout_secs
    }

    /// `[path, "-p", task, "--branch", branch, "--timeout", <timeout in decimal>]`.
    pub fn build_command(&self, task: &str, branch: &str) -> (v: Vec<String>)
        ensures
            v@.map_values(|s: String| s@) == seq![
                self.path(),
                "-p"@,
                task@,
                "--branch"@,
                branch@,
                "--timeout"@,
                decimal_seq(self.timeout()),
            ],
    {
        let mut v: Vec<String> = Vec::new();
        v.push(self.claude_path.clone());
        v.push(owned("-p"));
        v.push(owned(task));
        v.push(owned("--branch"));
        v.push(owned(branch));
        v.push(owned("--timeout"));
        v.push(decimal_string(self.timeout_secs));
        assert(v@.map_values(|s: String| s@) =~= seq![
            self.path(),
            "-p"@,
            task@,
            "--branch"@,
            branch@,
            "--timeout"@,
            decimal_seq(self.timeout()),
        ]);
        v
    }
}

} // verus!
