//! Sandbox policy: path validation, file-system isolation, network command
//! blocking, back-end selection and process-output shaping.
pub mod cubesandbox;
pub mod factory;
pub mod fs_isolation;
pub mod network_whitelist;
pub mod path_check;
pub mod process_sandbox;

use vstd::prelude::*;
use vstd::string::StringSliceAdditionalSpecFns;
use vstd::utf8::encode_utf8;
use crate::text::{base64, base64_encode, concat2, names_view, owned};

verus! {

/// Errors of the sandbox layer, each with a message.
#[derive(Debug)]
pub enum SandboxError {
    /// A `..` component was found.
    PathTraversal(String),
    /// A sensitive file was addressed.
    SensitiveFile(String),
    /// The path lies outside the workspace.
    OutsideWorkspace(String),
    /// The command ran out of time.
    TimeoutExceeded(String),
    /// A network command was blocked.
    NetworkBlocked(String),
    /// An I/O failure.
    IoError(String),
}

/// The text of a sandbox error: a label for its kind, `": "`, then its message.
pub open spec fn sandbox_error_text(e: SandboxError) -> Seq<char> {
    match e {
        SandboxError::PathTraversal(m) => "路径穿越: "@ + m@,
        SandboxError::SensitiveFile(m) => "敏感文件访问: "@ + m@,
        SandboxError::OutsideWorkspace(m) => "超出工作区: "@ + m@,
        SandboxError::TimeoutExceeded(m) => "超时: "@ + m@,
        SandboxError::NetworkBlocked(m) => "网络拦截: "@ + m@,
        SandboxError::IoError(m) => "IO 错误: "@ + m@,
    }
}

impl SandboxError {
    /// The error's text, as it is displayed.
    pub fn to_string(&self) -> (s: String)
        ensures
            s@ == sandbox_error_text(*self),
    {
        match self {
            SandboxError::PathTraversal(m) => concat2("路径穿越: ", m.as_str()),
            SandboxError::SensitiveFile(m) => concat2("敏感文件访问: ", m.as_str()),
            SandboxError::OutsideWorkspace(m) => concat2("超出工作区: ", m.as_str()),
            SandboxError::TimeoutExceeded(m) => concat2("超时: ", m.as_str()),
            SandboxError::NetworkBlocked(m) => concat2("网络拦截: ", m.as_str()),
            SandboxError::IoError(m) => concat2("IO 错误: ", m.as_str()),
        }
    }
}

/// Result of running a command in a sandbox.
#[derive(Debug, Clone)]
pub struct ExecResult {
    pub stdout: String,
    pub stderr: String,
    pub exit_code: i32,
}

/// A command and its arguments.
pub type Command = (String, Vec<String>);

/// The command that reads a file: `cat <path>`.
pub fn read_file_command(path: &str) -> (c: Command)
    ensures
        c.0@ == "cat"@,
        names_view(c.1@) == seq![path@],
{
    let args = vec![owned(path)];
    assert(names_view(args@) =~= seq![path@]);
    (owned("cat"), args)
}

/// What reading a file gives: the output on exit code 0, else an error with the path and
/// the error output.
pub fn read_file_outcome(path: &str, result: ExecResult) -> (r: Result<String, String>)
    ensures
        result.exit_code == 0 ==> r == Ok::<String, String>(result.stdout),
        result.exit_code != 0 ==> (r matches Err(e) && e@ == "cat "@ + path@ + " failed: "@ + result.stderr@),
{
    if result.exit_code == 0 {
        Ok(result.stdout)
    } else {
        let mut e = concat2("cat ", path);
        e.append(" failed: ");
        e.append(result.stderr.as_str());
        Err(e)
    }
}

/// The shell command of the process back end that writes `content` to `path` with
/// `printf`, both placed between single quotes as they are.
pub fn printf_write_command(path: &str, content: &str) -> (c: Command)
    ensures
        c.0@ == "sh"@,
        names_view(c.1@) == seq!["-c"@, "printf '%s' '"@ + content@ + "' > '"@ + path@ + "'"@],
{
    let mut cmd = concat2("printf '%s' '", content);
    cmd.append("' > '");
    cmd.append(path);
    cmd.append("'");
    let args = vec![owned("-c"), cmd];
    assert(names_view(args@) =~= seq!["-c"@, "printf '%s' '"@ + content@ + "' > '"@ + path@ + "'"@]);
    (owned("sh"), args)
}

/// The shell command of the CubeSandbox back end that writes `content` to `path`: its
/// UTF-8 bytes in base64, decoded by `base64 -d`.
pub fn base64_write_command(path: &str, content: &str) -> (c: Command)
    ensures
        c.0@ == "sh"@,
        names_view(c.1@) == seq!["-c"@, "echo '"@ + base64(encode_utf8(content@)) + "' | base64 -d > '"@ + path@ + "'"@],
{
    let encoded = base64_encode(content.as_bytes());
    proof {
        assert(content.spec_bytes() == encode_utf8(content@));
    }
    let mut cmd = concat2("echo '", encoded.as_str());
    cmd.append("' | base64 -d > '");
    cmd.append(path);
    cmd.append("'");
    let args = vec![owned("-c"), cmd];
    assert(names_view(args@) =~= seq!["-c"@, "echo '"@ + base64(encode_utf8(content@)) + "' | base64 -d > '"@ + path@ + "'"@]);
    (owned("sh"), args)
}

/// What writing a file gives: nothing on exit code 0, else an error with the path and the
/// error output.
pub fn write_file_outcome(path: &str, result: ExecResult) -> (r: Result<(), String>)
    ensures
        result.exit_code == 0 ==> r is Ok,
        result.exit_code != 0 ==> (r matches Err(e) && e@ == "write "@ + path@ + " failed: "@ + result.stderr@),
{
    if result.exit_code == 0 {
        Ok(())
    } else {
        let mut e = concat2("write ", path);
        e.append(" failed: ");
        e.append(result.stderr.as_str());
        Err(e)
    }
}

} // verus!
