//! The process sandbox: limits, environment filtering and the shaping of a finished
//! process's output.
use vstd::prelude::*;
use vstd::utf8::{decode_utf8, valid_utf8};
use crate::text::{concat2, contains_string, names_view, owned};
use super::ExecResult;

verus! {

/// The characters that `String::from_utf8_lossy` makes of `bytes`: invalid sequences become
/// the replacement character.
pub uninterp spec fn lossy_text(bytes: Seq<u8>) -> Seq<char>;

/// Calls `String::from_utf8_lossy`; the result is named by `lossy_text`. Its documentation
/// says that valid UTF-8 is decoded unchanged.
#[verifier::external_body]
pub fn utf8_lossy(bytes: &[u8]) -> (s: String)
    ensures
        s@ == lossy_text(bytes@),
        valid_utf8(bytes@) ==> s@ == decode_utf8(bytes@),
{
    String::from_utf8_lossy(bytes).into_owned()
}

/// Output text of a process: at most `max` bytes decoded, with a marker when cut.
pub open spec fn output_text(bytes: Seq<u8>, max: nat) -> Seq<char> {
    if bytes.len() > max {
        lossy_text(bytes.subrange(0, max as int)) + "[...truncated]"@
    } else {
        lossy_text(bytes)
    }
}

/// Decodes process output, keeping at most `max` bytes.
pub fn build_output(bytes: &[u8], max: usize) -> (s: String)
    ensures
        s@ == output_text(bytes@, max as nat),
{
    if bytes.len() > max {
        let head = vstd::slice::slice_subrange(bytes, 0, max);
        let text = utf8_lossy(head);
        concat2(text.as_str(), "[...truncated]")
    } else {
        utf8_lossy(bytes)
    }
}

/// Limits of the process sandbox.
pub struct ProcessSandboxConfig {
    pub timeout_secs: u64,
    pub max_output_bytes: usize,
    pub allowed_env_keys: Vec<String>,
}

/// Outcome of running a process.
#[derive(Debug, Clone)]
pub struct ProcessResult {
    pub stdout: String,
    pub stderr: String,
    pub exit_code: i32,
    pub timed_out: bool,
    pub truncated: bool,
}

/// The environment entries whose key is allowed, in order.
pub open spec fn allowed_env(vars: Seq<(Seq<char>, Seq<char>)>, allowed: Seq<Seq<char>>) -> Seq<(Seq<char>, Seq<char>)>
    decreases vars.len(),
{
    if vars.len() == 0 {
        Seq::empty()
    } else if allowed.contains(vars.last().0) {
        allowed_env(vars.drop_last(), allowed).push(vars.last())
    } else {
        allowed_env(vars.drop_last(), allowed)
    }
}

/// Key/value pairs as character sequences.
pub open spec fn pairs_view(v: Seq<(String, String)>) -> Seq<(Seq<char>, Seq<char>)> {
    v.map_values(|p: (String, String)| (p.0@, p.1@))
}

/// Runs commands with a timeout, a clean environment and bounded output.
pub struct ProcessSandbox {
    config: ProcessSandboxConfig,
}

impl ProcessSandbox {
    /// Timeout in seconds.
    pub closed spec fn timeout(&self) -> u64 {
        self.config.timeout_secs
    }

    /// Largest output kept per stream, in bytes.
    pub closed spec fn max_output(&self) -> usize {
        self.config.max_output_bytes
    }

    /// The environment keys passed through.
    pub closed spec fn env_keys(&self) -> Seq<Seq<char>> {
        names_view(self.config.allowed_env_keys@)
    }

    /// 30 s, 1 MiB of output, and `PATH`, `HOME`, `LANG`, `LC_ALL` passed through.
    pub fn new() -> (p: ProcessSandbox)
        ensures
            p.timeout() == 30,
            p.max_output() == 1_048_576,
            p.env_keys() == seq!["PATH"@, "HOME"@, "LANG"@, "LC_ALL"@],
    {
        let keys = vec![owned("PATH"), owned("HOME"), owned("LANG"), owned("LC_ALL")];
        assert(names_view(keys@) =~= seq!["PATH"@, "HOME"@, "LANG"@, "LC_ALL"@]);
        ProcessSandbox {
            config: ProcessSandboxConfig {
                timeout_secs: 30,
                max_output_bytes: 1_048_576,
                allowed_env_keys: keys,
            },
        }
    }

    /// A sandbox with the given limits.
    pub fn with_config(config: ProcessSandboxConfig) -> (p: ProcessSandbox)
        ensures
            p.timeout() == config.timeout_secs,
            p.max_output() == config.max_output_bytes,
            p.env_keys() == names_view(config.allowed_env_keys@),
    {
        ProcessSandbox { config }
    }

    /// Timeout in seconds.
    pub fn timeout_secs(&self) -> (t: u64)
        ensures
            t == self.timeout(),
    {
        self.config.timeout_secs
    }

    /// The entries of `vars` whose key is allowed.
    pub fn clean_env(&self, vars: &Vec<(String, String)>) -> (r: Vec<(String, String)>)
        ensures
            pairs_view(r@) == allowed_env(pairs_view(vars@), self.env_keys()),
    {
        let mut r: Vec<(String, String)> = Vec::new();
        let mut i: usize = 0;
        while i < vars.len()
            invariant
                i <= vars.len(),
                pairs_view(r@) == allowed_env(pairs_view(vars@.subrange(0, i as int)), self.env_keys()),
            decreases vars.len() - i,
        {
            let ghost before = vars@.subrange(0, i as int);
            let ghost after = vars@.subrange(0, i + 1);
            assert(pairs_view(after).drop_last() =~= pairs_view(before));
            assert(pairs_view(after).last() == (vars@[i as int].0@, vars@[i as int].1@));
            if contains_string(&self.config.allowed_env_keys, vars[i].0.as_str()) {
                let k = owned(vars[i].0.as_str());
                let v = owned(vars[i].1.as_str());
                r.push((k, v));
                assert(pairs_view(r@) =~= allowed_env(pairs_view(before), self.env_keys()).push((vars@[i as int].0@, vars@[i as int].1@)));
            }
            i = i + 1;
        }
        assert(vars@.subrange(0, vars.len() as int) =~= vars@);
        r
    }

    /// The result of a process that finished: output decoded and cut to the limit,
    /// `truncated` when either stream was over it, exit code -1 when there is none.
    pub fn finished(&self, stdout: &[u8], stderr: &[u8], code: Option<i32>) -> (r: ProcessResult)
        ensures
            r.stdout@ == output_text(stdout@, self.max_output() as nat),
            r.stderr@ == output_text(stderr@, self.max_output() as nat),
            r.exit_code == (match code {
                Some(c) => c,
                None => -1i32,
            }),
            !r.timed_out,
            r.truncated == (stdout@.len() > self.max_output() || stderr@.len() > self.max_output()),
    {
        let max = self.config.max_output_bytes;
        let truncated = stdout.len() > max || stderr.len() > max;
        ProcessResult {
            stdout: build_output(stdout, max),
            stderr: build_output(stderr, max),
            exit_code: match code {
                Some(c) => c,
                None => -1,
            },
            timed_out: false,
            truncated,
        }
    }

    /// The result of a process that could not be waited for: the error text on stderr.
    pub fn failed(error: String) -> (r: ProcessResult)
        ensures
            r.stdout@.len() == 0,
            r.stderr@ == error@,
            r.exit_code == -1,
            !r.timed_out,
            !r.truncated,
    {
        ProcessResult { stdout: String::new(), stderr: error, exit_code: -1, timed_out: false, truncated: false }
    }

    /// The result of a process stopped at the timeout.
    pub fn timed_out() -> (r: ProcessResult)
        ensures
            r.stdout@.len() == 0,
            r.stderr@ == "timeout"@,
            r.exit_code == -1,
            r.timed_out,
            !r.truncated,
    {
        ProcessResult { stdout: String::new(), stderr: owned("timeout"), exit_code: -1, timed_out: true, truncated: false }
    }
}

impl Default for ProcessSandbox {
    fn default() -> (p: ProcessSandbox)
        ensures
            p.timeout() == 30,
            p.max_output() == 1_048_576,
            p.env_keys() == seq!["PATH"@, "HOME"@, "LANG"@, "LC_ALL"@],
    {
        ProcessSandbox::new()
    }
}

/// The sandbox back end that runs commands as local processes.
pub struct ProcessBackend {
    inner: ProcessSandbox,
}

impl ProcessBackend {
    /// The process sandbox used.
    pub closed spec fn sandbox(&self) -> ProcessSandbox {
        self.inner
    }

    /// A back end over the default process sandbox.
    pub fn new() -> (b: ProcessBackend)
        ensures
            b.sandbox().timeout() == 30,
            b.sandbox().max_output() == 1_048_576,
            b.sandbox().env_keys() == seq!["PATH"@, "HOME"@, "LANG"@, "LC_ALL"@],
    {
        ProcessBackend { inner: ProcessSandbox::new() }
    }

    /// A back end over a process sandbox with the given limits.
    pub fn with_config(config: ProcessSandboxConfig) -> (b: ProcessBackend)
        ensures
            b.sandbox().timeout() == config.timeout_secs,
            b.sandbox().max_output() == config.max_output_bytes,
            b.sandbox().env_keys() == names_view(config.allowed_env_keys@),
    {
        ProcessBackend { inner: ProcessSandbox::with_config(config) }
    }

    /// The process sandbox used.
    pub fn inner(&self) -> (s: &ProcessSandbox)
        ensures
            *s == self.sandbox(),
    {
        &self.inner
    }

    /// The sandbox-level result of a process run.
    pub fn exec_result(result: ProcessResult) -> (r: ExecResult)
        ensures
            r.stdout == result.stdout,
            r.stderr == result.stderr,
            r.exit_code == result.exit_code,
    {
        ExecResult { stdout: result.stdout, stderr: result.stderr, exit_code: result.exit_code }
    }
}

} // verus!
