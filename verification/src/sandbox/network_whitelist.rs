//! Blocking of network commands.
use vstd::prelude::*;
use crate::text::{
    chars_of, contains_string, last_index_of, lemma_last_index_of, lowercase_of, names_view,
    owned, rfind_char, slice_chars, string_of, to_lowercase,
};

verus! {

/// Outcome of checking a command.
#[derive(PartialEq, Eq, Structural, Clone, Copy, Debug)]
pub enum NetworkCheckResult {
    /// Not a network command.
    Allowed,
    /// A network command, refused.
    Blocked,
}

/// The part of a command path after its last `/` (the whole path when it has none).
pub open spec fn command_name(s: Seq<char>) -> Seq<char> {
    s.subrange(last_index_of(s, '/') + 1, s.len() as int)
}

/// The commands blocked by default.
pub open spec fn default_blocked() -> Seq<Seq<char>> {
    seq![
        "curl"@,
        "wget"@,
        "ssh"@,
        "scp"@,
        "nc"@,
        "netcat"@,
        "telnet"@,
        "ftp"@,
        "sftp"@,
    ]
}

/// Blocks commands that reach the network; keeps a list of allowed hosts.
pub struct NetworkWhitelist {
    blocked_commands: Vec<String>,
    pub allowed_hosts: Vec<String>,
}

/// The commands blocked by default.
pub fn default_blocked_commands() -> (v: Vec<String>)
    ensures
        names_view(v@) == default_blocked(),
{
    let v: Vec<String> = vec![
        owned("curl"),
        owned("wget"),
        owned("ssh"),
        owned("scp"),
        owned("nc"),
        owned("netcat"),
        owned("telnet"),
        owned("ftp"),
        owned("sftp"),
    ];
    assert(names_view(v@) =~= default_blocked());
    v
}

/// The name part of a command path, as in `command.split('/').last()`.
fn command_name_exec(command: &str) -> (r: String)
    ensures
        r@ == command_name(command@),
{
    let cv = chars_of(command);
    proof {
        lemma_last_index_of(cv@, '/');
    }
    let start: usize = match rfind_char(&cv, '/') {
        Some(i) => {
            assert(i < cv.len());
            i + 1
        },
        None => 0,
    };
    let name = slice_chars(&cv, start, cv.len());
    string_of(name.as_slice())
}

impl NetworkWhitelist {
    /// The blocked command names.
    pub closed spec fn blocked(&self) -> Seq<Seq<char>> {
        names_view(self.blocked_commands@)
    }

    /// The allowed hosts.
    pub closed spec fn hosts(&self) -> Seq<Seq<char>> {
        names_view(self.allowed_hosts@)
    }

    /// Default blocked commands, no allowed host.
    pub fn new() -> (w: NetworkWhitelist)
        ensures
            w.blocked() == default_blocked(),
            w.hosts() == Seq::<Seq<char>>::empty(),
    {
        let w = NetworkWhitelist { blocked_commands: default_blocked_commands(), allowed_hosts: Vec::new() };
        assert(w.hosts() =~= Seq::<Seq<char>>::empty());
        w
    }

    /// Blocks a command whose lower-cased name is a blocked command; the arguments are
    /// not looked at.
    pub fn check(&self, command: &str, _args: &[String]) -> (r: NetworkCheckResult)
        ensures
            r == (if self.blocked().contains(lowercase_of(command_name(command@))) {
                NetworkCheckResult::Blocked
            } else {
                NetworkCheckResult::Allowed
            }),
    {
        let name = command_name_exec(command);
        let lower = to_lowercase(name.as_str());
        if contains_string(&self.blocked_commands, lower.as_str()) {
            NetworkCheckResult::Blocked
        } else {
            NetworkCheckResult::Allowed
        }
    }

    /// Adds `host` to the allowed hosts unless it is already there.
    pub fn allow_host(&mut self, host: &str)
        ensures
            final(self).blocked() == old(self).blocked(),
            final(self).hosts() == (if old(self).hosts().contains(host@) {
                old(self).hosts()
            } else {
                old(self).hosts().push(host@)
            }),
    {
        if !contains_string(&self.allowed_hosts, host) {
            self.allowed_hosts.push(owned(host));
            assert(self.hosts() =~= old(self).hosts().push(host@));
        }
    }
}

impl Default for NetworkWhitelist {
    fn default() -> (w: NetworkWhitelist)
        ensures
            w.blocked() == default_blocked(),
            w.hosts() == Seq::<Seq<char>>::empty(),
    {
        NetworkWhitelist::new()
    }
}

} // verus!
