//! CubeSandbox settings and the envd address derived from them.
use vstd::prelude::*;
use crate::text::{concat2, decimal_seq, decimal_string, owned, replace_seq, replace_all, starts_with_seq, str_starts_with, chars_of, slice_chars, string_of};

verus! {

/// Settings of the CubeSandbox back end.
#[derive(Debug, Clone)]
pub struct CubeSandboxConfig {
    /// Control-plane API address.
    pub api_url: String,
    /// API key (a placeholder when self-hosted).
    pub api_key: String,
    /// Sandbox template id.
    pub template_id: String,
    /// Sandbox timeout in seconds.
    pub timeout_secs: i32,
    /// Whether the sandbox may reach the internet.
    pub allow_internet: bool,
    /// envd port.
    pub envd_port: u16,
    /// envd address template; `{sandbox_id}` is replaced. Empty: derived from `api_url`.
    pub envd_url_template: String,
}

impl CubeSandboxConfig {
    /// The API address and the template id are both set.
    pub open spec fn complete(self) -> bool {
        self.api_url@.len() > 0 && self.template_id@.len() > 0
    }

    /// Whether the API address and the template id are both set.
    pub fn is_complete(&self) -> (b: bool)
        ensures
            b == self.complete(),
    {
        !self.api_url.as_str().is_empty() && !self.template_id.as_str().is_empty()
    }
}

impl Default for CubeSandboxConfig {
    fn default() -> (c: CubeSandboxConfig)
        ensures
            c.api_url@.len() == 0,
            c.api_key@ == "dummy"@,
            c.template_id@.len() == 0,
            c.timeout_secs == 1800,
            c.allow_internet,
            c.envd_port == 49983,
            c.envd_url_template@.len() == 0,
    {
        let c = CubeSandboxConfig {
            api_url: String::new(),
            api_key: owned("dummy"),
            template_id: String::new(),
            timeout_secs: 1800,
            allow_internet: true,
            envd_port: 49983,
            envd_url_template: String::new(),
        };
        c
    }
}

/// `s` without a leading `p`, when it has one.
pub open spec fn strip_prefix_seq(s: Seq<char>, p: Seq<char>) -> Option<Seq<char>> {
    if starts_with_seq(s, p) {
        Some(s.subrange(p.len() as int, s.len() as int))
    } else {
        None
    }
}

/// The host part of the API address: without a leading `http://` or `https://`.
pub open spec fn api_host(api_url: Seq<char>) -> Seq<char> {
    match strip_prefix_seq(api_url, "http://"@) {
        Some(h) => h,
        None => match strip_prefix_seq(api_url, "https://"@) {
            Some(h) => h,
            None => api_url,
        },
    }
}

/// The envd address of a sandbox: the template with `{sandbox_id}` replaced when a
/// template is set, else `http://{envd_port}-{sandbox_id}.{api host}`.
pub open spec fn envd_url(template: Seq<char>, api_url: Seq<char>, envd_port: u16, sandbox_id: Seq<char>) -> Seq<char> {
    if template.len() > 0 {
        replace_seq(template, "{sandbox_id}"@, sandbox_id)
    } else {
        "http://"@ + decimal_seq(envd_port as nat) + "-"@ + sandbox_id + "."@ + api_host(api_url)
    }
}

/// `s` without the leading `p`, if `s` starts with it.
fn strip_prefix_exec(s: &str, p: &str) -> (r: Option<String>)
    ensures
        match r {
            Some(x) => strip_prefix_seq(s@, p@) == Some(x@),
            None => strip_prefix_seq(s@, p@) is None,
        },
{
    if str_starts_with(s, p) {
        let sv = chars_of(s);
        let pv = chars_of(p);
        let rest = slice_chars(&sv, pv.len(), sv.len());
        Some(string_of(rest.as_slice()))
    } else {
        None
    }
}

/// The envd address of sandbox `sandbox_id` under `config`.
pub fn build_envd_url(config: &CubeSandboxConfig, sandbox_id: &str) -> (r: String)
    ensures
        r@ == envd_url(config.envd_url_template@, config.api_url@, config.envd_port, sandbox_id@),
{
    if !config.envd_url_template.as_str().is_empty() {
        proof {
            reveal_strlit("{sandbox_id}");
        }
        return replace_all(config.envd_url_template.as_str(), "{sandbox_id}", sandbox_id);
    }
    let host = match strip_prefix_exec(config.api_url.as_str(), "http://") {
        Some(h) => h,
        None => match strip_prefix_exec(config.api_url.as_str(), "https://") {
            Some(h) => h,
            None => owned(config.api_url.as_str()),
        },
    };
    let mut r = concat2("http://", decimal_string(config.envd_port as u64).as_str());
    r.append("-");
    r.append(sandbox_id);
    r.append(".");
    r.append(host.as_str());
    r
}

} // verus!
