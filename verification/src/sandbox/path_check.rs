//! Path validation: traversal, sensitive files and workspace boundary.
use vstd::prelude::*;
use crate::text::{
    chars_of, concat2, contains_exec, contains_seq, lowercase_of, occurs_at, owned, push_char,
    starts_with_seq, str_starts_with, to_lowercase,
};

verus! {

/// Outcome of validating a path.
#[derive(PartialEq, Eq, Structural, Clone, Copy, Debug)]
pub enum PathValidation {
    /// The path is safe.
    Valid,
    /// A `..` component was found.
    TraversalDetected,
    /// A sensitive file pattern was found.
    SensitiveFile,
    /// The path lies outside the workspace.
    OutsideWorkspace,
}

/// Value of a hexadecimal digit, if `c` is one.
pub open spec fn hex_digit(c: char) -> Option<nat> {
    if '0' <= c && c <= '9' {
        Some((c as nat - '0' as nat) as nat)
    } else if 'a' <= c && c <= 'f' {
        Some((c as nat - 'a' as nat + 10) as nat)
    } else if 'A' <= c && c <= 'F' {
        Some((c as nat - 'A' as nat + 10) as nat)
    } else {
        None
    }
}

/// Byte value of a two-character `u8::from_str_radix(_, 16)` input: two hex digits, or
/// `+` followed by one.
pub open spec fn hex_pair(a: char, b: char) -> Option<nat> {
    match (hex_digit(a), hex_digit(b)) {
        (Some(x), Some(y)) => Some(16 * x + y),
        (None, Some(y)) => if a == '+' { Some(y) } else { None },
        _ => None,
    }
}

/// The character with the given Latin-1 code.
pub open spec fn latin1(b: nat) -> char {
    (b as u8) as char
}

/// `%XX` sequences decoded to the character with that code, `\` turned into `/`;
/// a `%` without two valid hex characters after it is kept with what follows it.
pub open spec fn url_decode_seq(s: Seq<char>) -> Seq<char>
    decreases s.len(),
{
    if s.len() == 0 {
        Seq::empty()
    } else if s[0] == '%' {
        if s.len() >= 3 && hex_pair(s[1], s[2]) is Some {
            seq![latin1(hex_pair(s[1], s[2])->0)] + url_decode_seq(s.subrange(3, s.len() as int))
        } else {
            let n: int = if s.len() >= 3 { 3 } else { s.len() as int };
            s.subrange(0, n) + url_decode_seq(s.subrange(n, s.len() as int))
        }
    } else if s[0] == '\\' {
        seq!['/'] + url_decode_seq(s.subrange(1, s.len() as int))
    } else {
        seq![s[0]] + url_decode_seq(s.subrange(1, s.len() as int))
    }
}

/// Some `/`-separated component of `s` is `..`.
pub open spec fn has_parent_component(s: Seq<char>) -> bool {
    exists|i: int|
        #[trigger] occurs_at(s, ".."@, i) && (i == 0 || s[i - 1] == '/') && (i + 2 == s.len() || s[i
            + 2] == '/')
}

/// The sensitive patterns checked by default.
pub open spec fn default_patterns() -> Seq<Seq<char>> {
    seq![
        "/etc/passwd"@,
        "/etc/shadow"@,
        "/etc/sudoers"@,
        ".ssh/"@,
        ".ssh/id_rsa"@,
        ".ssh/id_dsa"@,
        ".ssh/authorized_keys"@,
        ".env"@,
        ".env.local"@,
        ".env.production"@,
        ".aws/credentials"@,
        ".gnupg/"@,
        ".npmrc"@,
    ]
}

/// A path is absolute when it starts at the root, as on Unix.
pub open spec fn is_absolute(p: Seq<char>) -> bool {
    p.len() > 0 && p[0] == '/'
}

/// `full` lies under `root`: it is the root itself, or the root followed by a `/`
/// (a root that already ends with `/` is followed by anything).
pub open spec fn within_root(full: Seq<char>, root: Seq<char>) -> bool {
    &&& starts_with_seq(full, root)
    &&& (full.len() == root.len() || full[root.len() as int] == '/' || (root.len() > 0 && root.last() == '/'))
}

/// Validation result of `path` against a workspace root and sensitive patterns.
pub open spec fn validation_of(root: Seq<char>, patterns: Seq<Seq<char>>, path: Seq<char>) -> PathValidation {
    let decoded = url_decode_seq(path);
    if has_parent_component(decoded) {
        PathValidation::TraversalDetected
    } else if exists|k: int| 0 <= k < patterns.len() && contains_seq(lowercase_of(decoded), #[trigger] patterns[k]) {
        PathValidation::SensitiveFile
    } else {
        let full = if is_absolute(path) { path } else { root + "/"@ + path };
        if within_root(full, root) {
            PathValidation::Valid
        } else {
            PathValidation::OutsideWorkspace
        }
    }
}

/// Validates paths against a workspace root.
pub struct PathValidator {
    workspace_root: String,
    sensitive_patterns: Vec<String>,
}

/// Value of a hex digit.
fn hex_digit_exec(c: char) -> (r: Option<u32>)
    ensures
        match r {
            Some(v) => hex_digit(c) == Some(v as nat),
            None => hex_digit(c) is None,
        },
{
    if '0' <= c && c <= '9' {
        Some((c as u32) - ('0' as u32))
    } else if 'a' <= c && c <= 'f' {
        Some((c as u32) - ('a' as u32) + 10)
    } else if 'A' <= c && c <= 'F' {
        Some((c as u32) - ('A' as u32) + 10)
    } else {
        None
    }
}

/// Decodes `%XX` escapes and turns `\` into `/`.
pub fn url_decode(input: &str) -> (r: String)
    ensures
        r@ == url_decode_seq(input@),
{
    let s = chars_of(input);
    let mut out = String::new();
    let mut i: usize = 0;
    assert(s@.subrange(0, s@.len() as int) =~= s@);
    assert(out@ + url_decode_seq(s@) =~= url_decode_seq(s@));
    while i < s.len()
        invariant
            i <= s.len(),
            out@ + url_decode_seq(s@.subrange(i as int, s.len() as int)) == url_decode_seq(input@),
            s@ == input@,
        decreases s.len() - i,
    {
        let ghost rest = s@.subrange(i as int, s.len() as int);
        let ghost before = out@;
        let c = s[i];
        if c == '%' {
            let mut decoded: Option<u32> = None;
            if s.len() - i >= 3 {
                let a = s[i + 1];
                let b = s[i + 2];
                match (hex_digit_exec(a), hex_digit_exec(b)) {
                    (Some(x), Some(y)) => {
                        decoded = Some(16 * x + y);
                    },
                    (None, Some(y)) => {
                        if a == '+' {
                            decoded = Some(y);
                        }
                    },
                    _ => {},
                }
                assert(rest[1] == a && rest[2] == b);
            }
            match decoded {
                Some(v) => {
                    let ch = (v as u8) as char;
                    push_char(&mut out, ch);
                    i = i + 3;
                    proof {
                        assert(hex_pair(rest[1], rest[2]) == Some(v as nat));
                        assert(rest.subrange(3, rest.len() as int) =~= s@.subrange(i as int, s.len() as int));
                        assert(ch == latin1(v as nat));
                        assert(out@ + url_decode_seq(s@.subrange(i as int, s.len() as int)) =~= before + (seq![ch] + url_decode_seq(s@.subrange(i as int, s.len() as int))));
                    }
                },
                None => {
                    let n: usize = if s.len() - i >= 3 { 3 } else { s.len() - i };
                    let mut t: usize = 0;
                    while t < n
                        invariant
                            t <= n,
                            i + n <= s.len(),
                            out@ == before + s@.subrange(i as int, i + t),
                        decreases n - t,
                    {
                        push_char(&mut out, s[i + t]);
                        t = t + 1;
                        assert(out@ =~= before + s@.subrange(i as int, i + t));
                    }
                    proof {
                        if s.len() - i >= 3 {
                            assert(hex_pair(rest[1], rest[2]) is None);
                        }
                        assert(rest.subrange(0, n as int) =~= s@.subrange(i as int, i + n));
                        assert(rest.subrange(n as int, rest.len() as int) =~= s@.subrange(i + n, s.len() as int));
                    }
                    i = i + n;
                    proof {
                        assert(out@ + url_decode_seq(s@.subrange(i as int, s.len() as int)) =~= before + (rest.subrange(0, n as int) + url_decode_seq(rest.subrange(n as int, rest.len() as int))));
                    }
                },
            }
        } else {
            let d = if c == '\\' { '/' } else { c };
            push_char(&mut out, d);
            i = i + 1;
            proof {
                assert(rest.subrange(1, rest.len() as int) =~= s@.subrange(i as int, s.len() as int));
                assert(out@ + url_decode_seq(s@.subrange(i as int, s.len() as int)) =~= before + (seq![d] + url_decode_seq(s@.subrange(i as int, s.len() as int))));
            }
        }
    }
    assert(out@ + url_decode_seq(s@.subrange(i as int, s.len() as int)) =~= out@);
    out
}

/// Whether a `..` component occurs in `s`.
pub(crate) fn has_parent_component_exec(s: &Vec<char>) -> (b: bool)
    ensures
        b == has_parent_component(s@),
{
    let dots: Vec<char> = vec!['.', '.'];
    assert(dots@ =~= ".."@) by {
        reveal_strlit("..");
    }
    assert(dots@.len() == 2);
    let mut i: usize = 0;
    while i < s.len()
        invariant
            i <= s.len(),
            dots@ == ".."@,
            dots@.len() == 2,
            forall|j: int|
                0 <= j < i ==> !(#[trigger] occurs_at(s@, ".."@, j) && (j == 0 || s@[j - 1] == '/') && (j
                    + 2 == s@.len() || s@[j + 2] == '/')),
        decreases s.len() - i,
    {
        if crate::text::occurs_at_exec(s, &dots, i) && (i == 0 || s[i - 1] == '/') && (i + 2
            == s.len() || s[i + 2] == '/') {
            return true;
        }
        i = i + 1;
    }
    assert forall|j: int|
        !(#[trigger] occurs_at(s@, ".."@, j) && (j == 0 || s@[j - 1] == '/') && (j + 2 == s@.len()
            || s@[j + 2] == '/')) by {
        if j >= s@.len() {
            reveal_strlit("..");
        }
    }
    false
}

/// The sensitive patterns checked by default.
pub fn default_sensitive_patterns() -> (v: Vec<String>)
    ensures
        v@.map_values(|s: String| s@) == default_patterns(),
{
    let v: Vec<String> = vec![
        owned("/etc/passwd"),
        owned("/etc/shadow"),
        owned("/etc/sudoers"),
        owned(".ssh/"),
        owned(".ssh/id_rsa"),
        owned(".ssh/id_dsa"),
        owned(".ssh/authorized_keys"),
        owned(".env"),
        owned(".env.local"),
        owned(".env.production"),
        owned(".aws/credentials"),
        owned(".gnupg/"),
        owned(".npmrc"),
    ];
    assert(v@.map_values(|s: String| s@) =~= default_patterns());
    v
}

impl PathValidator {
    /// Whether `full` lies under the workspace root.
    fn under_root(&self, full: &str) -> (b: bool)
        ensures
            b == within_root(full@, self.workspace_root@),
    {
        let fv = chars_of(full);
        let rv = chars_of(self.workspace_root.as_str());
        if !str_starts_with(full, self.workspace_root.as_str()) {
            return false;
        }
        fv.len() == rv.len() || fv[rv.len()] == '/' || (rv.len() > 0 && rv[rv.len() - 1] == '/')
    }

    /// The workspace root.
    pub closed spec fn root(&self) -> Seq<char> {
        self.workspace_root@
    }

    /// The sensitive patterns.
    pub closed spec fn patterns(&self) -> Seq<Seq<char>> {
        self.sensitive_patterns@.map_values(|s: String| s@)
    }

    /// A validator for `workspace_root` with the default sensitive patterns.
    pub fn new(workspace_root: &str) -> (v: PathValidator)
        ensures
            v.root() == workspace_root@,
            v.patterns() == default_patterns(),
    {
        PathValidator {
            workspace_root: owned(workspace_root),
            sensitive_patterns: default_sensitive_patterns(),
        }
    }

    /// Validates `path`: traversal first, then sensitive patterns, then the workspace boundary.
    pub fn validate(&self, path: &str) -> (r: PathValidation)
        ensures
            r == validation_of(self.root(), self.patterns(), path@),
    {
        let decoded = url_decode(path);
        let dv = chars_of(decoded.as_str());
        if has_parent_component_exec(&dv) {
            return PathValidation::TraversalDetected;
        }
        let lower = to_lowercase(decoded.as_str());
        let lv = chars_of(lower.as_str());
        let mut k: usize = 0;
        while k < self.sensitive_patterns.len()
            invariant
                k <= self.sensitive_patterns.len(),
                lv@ == lowercase_of(url_decode_seq(path@)),
                !has_parent_component(url_decode_seq(path@)),
                forall|k2: int|
                    0 <= k2 < k ==> !contains_seq(lowercase_of(url_decode_seq(path@)), #[trigger] self.patterns()[k2]),
            decreases self.sensitive_patterns.len() - k,
        {
            let pv = chars_of(self.sensitive_patterns[k].as_str());
            if contains_exec(&lv, &pv) {
                assert(self.patterns()[k as int] == pv@);
                assert(contains_seq(lowercase_of(url_decode_seq(path@)), self.patterns()[k as int]));
                return PathValidation::SensitiveFile;
            }
            k = k + 1;
        }
        let full = if str_starts_with(path, "/") {
            owned(path)
        } else {
            let mut f = concat2(self.workspace_root.as_str(), "/");
            f.append(path);
            f
        };
        proof {
            reveal_strlit("/");
            assert("/"@ =~= seq!['/']);
            if path@.len() > 0 {
                assert(path@.subrange(0, 1) =~= seq![path@[0]]);
                if path@[0] == '/' {
                    assert(path@.subrange(0, 1) =~= "/"@);
                }
                if path@.subrange(0, 1) == "/"@ {
                    assert(path@.subrange(0, 1)[0] == "/"@[0]);
                }
            }
            assert(starts_with_seq(path@, "/"@) == is_absolute(path@));
        }
        if self.under_root(full.as_str()) {
            PathValidation::Valid
        } else {
            PathValidation::OutsideWorkspace
        }
    }
}

/// A path whose decoded form has a `..` component is never accepted, whatever the
/// workspace and the patterns.
pub proof fn lemma_traversal_refused(root: Seq<char>, patterns: Seq<Seq<char>>, path: Seq<char>)
    requires
        has_parent_component(url_decode_seq(path)),
    ensures
        validation_of(root, patterns, path) == PathValidation::TraversalDetected,
{
}

/// An accepted path lies inside the workspace: its full form is the workspace root or
/// continues it after a `/`.
pub proof fn lemma_valid_inside_workspace(root: Seq<char>, patterns: Seq<Seq<char>>, path: Seq<char>)
    requires
        validation_of(root, patterns, path) == PathValidation::Valid,
    ensures
        within_root(if is_absolute(path) { path } else { root + "/"@ + path }, root),
        !has_parent_component(url_decode_seq(path)),
{
}

} // verus!
