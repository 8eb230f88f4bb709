use devops_agent::json::to_json_text;
use devops_agent::sandbox::cubesandbox::client::{
    collect_process_events, full_command, process_start_body, split_connect_frames, SandboxInfo,
};
use devops_agent::sandbox::cubesandbox::config::{build_envd_url, CubeSandboxConfig};
use devops_agent::sandbox::factory::{BackendProbe, MicrosandboxConfig, SandboxBackend, SandboxFactory};
use devops_agent::sandbox::fs_isolation::{FileSystemIsolator, FsIsolationConfig};
use devops_agent::sandbox::network_whitelist::{NetworkCheckResult, NetworkWhitelist};
use devops_agent::sandbox::path_check::{url_decode, PathValidation, PathValidator};
use devops_agent::sandbox::process_sandbox::{build_output, ProcessSandbox};
use devops_agent::sandbox::{
    base64_write_command, printf_write_command, read_file_command, read_file_outcome, write_file_outcome, ExecResult,
    SandboxError,
};
use devops_agent::text::base64_encode;
use devops_agent::json::{Json, JsonNumber};

#[test]
fn path_validation_outcomes() {
    let v = PathValidator::new("/workspace");
    assert_eq!(v.validate("src/main.rs"), PathValidation::Valid);
    assert_eq!(v.validate("../etc"), PathValidation::TraversalDetected);
    assert_eq!(v.validate("%2e%2e/secret"), PathValidation::TraversalDetected);
    assert_eq!(v.validate("config/.ENV"), PathValidation::SensitiveFile);
    assert_eq!(v.validate("/tmp/file"), PathValidation::OutsideWorkspace);
    assert_eq!(url_decode("a%20b\\c"), "a b/c");
}

#[test]
fn network_whitelist_blocks_network_commands() {
    let mut w = NetworkWhitelist::new();
    assert_eq!(w.check("/usr/bin/CURL", &[]), NetworkCheckResult::Blocked);
    assert_eq!(w.check("ls", &[]), NetworkCheckResult::Allowed);
    w.allow_host("example.com");
    w.allow_host("example.com");
    assert_eq!(w.allowed_hosts, vec!["example.com"]);
}

#[test]
fn fs_isolation_rules() {
    let iso = FileSystemIsolator::new(FsIsolationConfig {
        workspace_root: "/workspace".into(),
        tmp_dir: "/tmp/agent".into(),
        output_dir: "/workspace/out".into(),
        read_only_mounts: vec!["/usr/share".into()],
    });
    assert!(iso.can_read("/usr/share/doc/x"));
    assert!(iso.can_read("notes.txt"));
    assert!(!iso.can_read("/etc/hosts"));
    assert!(iso.can_write("/workspace/out/a.txt"));
    assert!(iso.can_write("a.txt"));
    assert!(!iso.can_write("/workspace/a.txt"));
    assert_eq!(iso.resolve_path("a/b"), Some("/workspace/a/b".to_string()));
    assert_eq!(iso.resolve_path("../x"), None);
    assert_eq!(iso.required_dirs(), vec!["/workspace", "/tmp/agent", "/workspace/out"]);
}

#[test]
fn sandbox_error_texts() {
    assert_eq!(SandboxError::PathTraversal("x".into()).to_string(), "路径穿越: x");
    assert_eq!(SandboxError::SensitiveFile("x".into()).to_string(), "敏感文件访问: x");
    assert_eq!(SandboxError::OutsideWorkspace("x".into()).to_string(), "超出工作区: x");
    assert_eq!(SandboxError::TimeoutExceeded("x".into()).to_string(), "超时: x");
    assert_eq!(SandboxError::NetworkBlocked("x".into()).to_string(), "网络拦截: x");
    assert_eq!(SandboxError::IoError("x".into()).to_string(), "IO 错误: x");
}

#[test]
fn backend_selection() {
    assert_eq!(SandboxBackend::from_setting(Some("process"), true), SandboxBackend::Process);
    assert_eq!(SandboxBackend::from_setting(Some("cubesandbox"), true), SandboxBackend::CubeSandbox);
    assert_eq!(SandboxBackend::from_setting(None, true), SandboxBackend::Microsandbox);
    assert_eq!(SandboxBackend::from_setting(Some("other"), false), SandboxBackend::Process);

    let mut f = SandboxFactory::from_config(
        vec![SandboxBackend::CubeSandbox, SandboxBackend::Microsandbox],
        MicrosandboxConfig::default(),
        CubeSandboxConfig::default(),
    );
    assert_eq!(f.probe(SandboxBackend::CubeSandbox), BackendProbe::Unavailable);
    assert_eq!(f.select(&vec![false, true]), SandboxBackend::Microsandbox);
    assert_eq!(f.create(false), SandboxBackend::Process);
    assert_eq!(f.create(true), SandboxBackend::Microsandbox);
    assert_eq!(f.select(&vec![false, false]), SandboxBackend::Process);
    f.reset_selection();
    assert_eq!(f.create(true), SandboxBackend::Process);
}

#[test]
fn envd_url_forms() {
    let mut c = CubeSandboxConfig::default();
    c.api_url = "https://cube.local".into();
    assert_eq!(build_envd_url(&c, "sb1"), "http://49983-sb1.cube.local");
    c.envd_url_template = "http://{sandbox_id}.proxy".into();
    assert_eq!(build_envd_url(&c, "sb1"), "http://sb1.proxy");
    assert!(!c.is_complete());
    c.template_id = "t".into();
    assert!(c.is_complete());
}

#[test]
fn connect_frames_and_events() {
    let mut data = vec![0u8, 0, 0, 0, 2];
    data.extend_from_slice(b"{}");
    data.extend_from_slice(&[0, 0, 0, 0, 1, b'x']);
    data.extend_from_slice(&[0x80, 0, 0, 0, 0]);
    data.extend_from_slice(&[0, 0, 0, 0, 9]);
    let frames = split_connect_frames(&data);
    assert_eq!(frames.len(), 2);
    assert_eq!(frames[0].payload, b"{}".to_vec());
    assert_eq!(frames[1].payload, b"x".to_vec());

    let num = |n: u64| Json::Number(JsonNumber::PosInt(n));
    let obj = |k: &str, v: Json| Json::Object(vec![(k.to_string(), v)]);
    let data_event = obj("event", obj("data", obj("stdout", Json::Array(vec![num(104), num(105)]))));
    let end_event = obj("event", obj("end", obj("exitCode", num(3))));
    let result = collect_process_events(&vec![Some(obj("event", obj("start", Json::Null))), Some(data_event), None, Some(end_event)]);
    assert_eq!(result.stdout, "hi");
    assert_eq!(result.stderr, "");
    assert_eq!(result.exit_code, 3);
    assert_eq!(collect_process_events(&vec![]).exit_code, -1);
}

#[test]
fn command_line_and_token() {
    assert_eq!(full_command("ls", &["-la".to_string(), "/tmp".to_string()]), "ls -la /tmp");
    let info = SandboxInfo { sandbox_id: "s".into(), envd_access_token: None, sandbox_domain: None };
    assert_eq!(info.access_token(), "dummy");
}

#[test]
fn process_output_shaping() {
    assert_eq!(build_output(b"hello", 10), "hello");
    assert_eq!(build_output(b"hello", 2), "he[...truncated]");
    let p = ProcessSandbox::new();
    let r = p.finished(b"out", b"err", None);
    assert_eq!(r.stdout, "out");
    assert_eq!(r.exit_code, -1);
    assert!(!r.truncated);
    let t = ProcessSandbox::timed_out();
    assert!(t.timed_out);
    assert_eq!(t.stderr, "timeout");
    let env = p.clean_env(&vec![("PATH".into(), "/bin".into()), ("SECRET".into(), "x".into())]);
    assert_eq!(env, vec![("PATH".to_string(), "/bin".to_string())]);
}

#[test]
fn base64_matches_standard_encoding() {
    assert_eq!(base64_encode(b""), "");
    assert_eq!(base64_encode(b"f"), "Zg==");
    assert_eq!(base64_encode(b"fo"), "Zm8=");
    assert_eq!(base64_encode(b"foo"), "Zm9v");
    assert_eq!(base64_encode(b"foobar"), "Zm9vYmFy");
    assert_eq!(base64_encode(&[0xfb, 0xff, 0x3e]), "+/8+");
    assert_eq!(base64_encode("你好".as_bytes()), "5L2g5aW9");
}

#[test]
fn file_commands_and_outcomes() {
    let (c, a) = read_file_command("/w/a.txt");
    assert_eq!(c, "cat");
    assert_eq!(a, vec!["/w/a.txt".to_string()]);
    let (c, a) = printf_write_command("/w/a.txt", "hi");
    assert_eq!(c, "sh");
    assert_eq!(a, vec!["-c".to_string(), "printf '%s' 'hi' > '/w/a.txt'".to_string()]);
    let (c, a) = base64_write_command("/w/b", "hi");
    assert_eq!(c, "sh");
    assert_eq!(a, vec!["-c".to_string(), "echo 'aGk=' | base64 -d > '/w/b'".to_string()]);
    let ok = ExecResult { stdout: "x".into(), stderr: String::new(), exit_code: 0 };
    assert_eq!(read_file_outcome("/p", ok), Ok("x".to_string()));
    let bad = ExecResult { stdout: String::new(), stderr: "no such file".into(), exit_code: 1 };
    assert_eq!(read_file_outcome("/p", bad), Err("cat /p failed: no such file".to_string()));
    let bad = ExecResult { stdout: String::new(), stderr: "denied".into(), exit_code: 2 };
    assert_eq!(write_file_outcome("/p", bad), Err("write /p failed: denied".to_string()));
    let ok = ExecResult { stdout: String::new(), stderr: String::new(), exit_code: 0 };
    assert_eq!(write_file_outcome("/p", ok), Ok(()));
}

#[test]
fn workspace_boundary_is_a_path_component() {
    let v = PathValidator::new("/workspace");
    assert_eq!(v.validate("/workspace2/x"), PathValidation::OutsideWorkspace);
    assert_eq!(v.validate("/workspace"), PathValidation::Valid);
    assert_eq!(v.validate("/workspace/src/a.rs"), PathValidation::Valid);
    assert_eq!(v.validate("src/main.rs"), PathValidation::Valid);
    assert_eq!(v.validate("/etc/hosts"), PathValidation::OutsideWorkspace);
    let r = PathValidator::new("/");
    assert_eq!(r.validate("/etc/hosts"), PathValidation::Valid);
}

#[test]
fn envd_url_uses_configured_port() {
    let mut c = CubeSandboxConfig::default();
    c.api_url = "http://10.0.0.1:3000".into();
    c.envd_port = 50000;
    assert_eq!(build_envd_url(&c, "sb1"), "http://50000-sb1.10.0.0.1:3000");
    c.envd_url_template = "https://e/{sandbox_id}/x".into();
    assert_eq!(build_envd_url(&c, "sb1"), "https://e/sb1/x");
}

#[test]
fn fs_isolation_write_cannot_climb_out_of_output() {
    let iso = FileSystemIsolator::new(FsIsolationConfig {
        workspace_root: "/workspace".into(),
        tmp_dir: "/tmp/agent".into(),
        output_dir: "/workspace/out".into(),
        read_only_mounts: vec![],
    });
    assert!(!iso.can_write("../secrets.txt"));
    assert!(!iso.can_write("sub/../../x"));
    assert!(!iso.can_write("/workspace/out/../a.txt"));
    assert!(iso.can_write("sub/..name"));
    assert!(iso.can_write("sub/report.txt"));
}

#[test]
fn process_start_body_runs_a_login_shell() {
    assert_eq!(
        to_json_text(&process_start_body("ls -la")),
        "{\"process\":{\"args\":[\"-l\",\"-c\",\"ls -la\"],\"cmd\":\"/bin/bash\"},\"stdin\":false}"
    );
}
