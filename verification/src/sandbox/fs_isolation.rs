//! File-system isolation: where a sandboxed task may read and write.
use vstd::prelude::*;
use super::path_check::{
    default_patterns, has_parent_component, has_parent_component_exec, is_absolute, validation_of,
    PathValidation, PathValidator,
};
use crate::text::{chars_of, names_view, owned, str_starts_with};

verus! {

/// The `/`-separated parts of `s`, empty parts included.
pub open spec fn slash_parts(s: Seq<char>) -> Seq<Seq<char>>
    decreases s.len(),
{
    if s.len() == 0 {
        seq![Seq::empty()]
    } else {
        let prev = slash_parts(s.drop_last());
        if s.last() == '/' {
            prev.push(Seq::empty())
        } else {
            prev.update(prev.len() - 1, prev.last().push(s.last()))
        }
    }
}

/// The components of a Unix path, as `std::path::Path::components` documents them: a
/// leading `/` is the root (written `/`); a leading `.` is kept as the current directory
/// (written `.`) when no root precedes it; empty parts (repeated or trailing separators)
/// and other `.` parts are dropped; every other part, `..` included, is a component.
pub open spec fn path_components(s: Seq<char>) -> Seq<Seq<char>> {
    let head: Seq<Seq<char>> = if s.len() > 0 && s[0] == '/' {
        seq!["/"@]
    } else if s =~= "."@ || (s.len() >= 2 && s[0] == '.' && s[1] == '/') {
        seq!["."@]
    } else {
        Seq::empty()
    };
    head + slash_parts(s).filter(|p: Seq<char>| p.len() > 0 && p != "."@)
}

/// Component-wise prefix test of `std::path::Path::starts_with`: `base`'s components are the
/// first components of `path`.
pub open spec fn path_prefix(path: Seq<char>, base: Seq<char>) -> bool {
    path_components(base).is_prefix_of(path_components(path))
}

/// The path that `std::path::Path::join` builds on Unix: an absolute `path` replaces
/// `base`; otherwise `path` is appended, after a `/` when `base` is not empty and does not
/// already end with one.
pub open spec fn joined_path(base: Seq<char>, path: Seq<char>) -> Seq<char> {
    if is_absolute(path) {
        path
    } else if base.len() == 0 || base.last() == '/' {
        base + path
    } else {
        base + "/"@ + path
    }
}

/// Whether a Unix path is absolute, as `std::path::Path::is_absolute` documents it: it
/// starts with the root `/`.
fn path_is_absolute(path: &str) -> (b: bool)
    ensures
        b == is_absolute(path@),
{
    let r = str_starts_with(path, "/");
    proof {
        reveal_strlit("/");
        assert("/"@ =~= seq!['/']);
        if path@.len() > 0 && path@[0] == '/' {
            assert(path@.subrange(0, 1) =~= seq!['/']);
        }
        if r {
            assert(path@.subrange(0, 1)[0] == path@[0]);
        }
    }
    r
}

/// Calls `std::path::Path::starts_with`, which its documentation says compares whole
/// components: the contract says that `base`'s components (as `path_components` lists them,
/// Unix only) are the first components of `path`.
#[verifier::external_body]
fn path_starts_with(path: &str, base: &str) -> (b: bool)
    ensures
        b == path_prefix(path@, base@),
{
    std::path::Path::new(path).starts_with(base)
}

/// Calls `std::path::Path::join` and turns the result into a `String` (lossless: both
/// arguments are UTF-8). Its documentation says that an absolute `path` replaces `base` and
/// that a relative one is adjoined after a separator; the contract states that on Unix.
#[verifier::external_body]
fn path_join(base: &str, path: &str) -> (r: String)
    ensures
        r@ == joined_path(base@, path@),
{
    std::path::Path::new(base).join(path).to_string_lossy().into_owned()
}

/// Directories of an isolated task.
pub struct FsIsolationConfig {
    pub workspace_root: String,
    pub tmp_dir: String,
    pub output_dir: String,
    pub read_only_mounts: Vec<String>,
}

/// Whether `path` may be read: an absolute path under a read-only mount, or a path that
/// the validator of `root` accepts.
pub open spec fn readable(root: Seq<char>, mounts: Seq<Seq<char>>, path: Seq<char>) -> bool {
    ||| (is_absolute(path) && exists|k: int| 0 <= k < mounts.len() && path_prefix(path, #[trigger] mounts[k]))
    ||| validation_of(root, default_patterns(), path) == PathValidation::Valid
}

/// Whether `path` may be written: it has no `..` component, so that it cannot climb out,
/// and it lies under the output directory, a relative path being taken from there.
pub open spec fn writable(output: Seq<char>, path: Seq<char>) -> bool {
    if has_parent_component(path) {
        false
    } else if is_absolute(path) {
        path_prefix(path, output)
    } else {
        path_prefix(joined_path(output, path), output)
    }
}

/// The absolute path for an accepted `path`, or `None` when the validator refuses it.
pub open spec fn resolved(root: Seq<char>, path: Seq<char>) -> Option<Seq<char>> {
    if validation_of(root, default_patterns(), path) != PathValidation::Valid {
        None
    } else if is_absolute(path) {
        Some(path)
    } else {
        Some(joined_path(root, path))
    }
}

/// Keeps file operations inside the workspace, the read-only mounts and the output
/// directory.
pub struct FileSystemIsolator {
    config: FsIsolationConfig,
    validator: PathValidator,
}

impl FileSystemIsolator {
    /// The workspace root.
    pub closed spec fn root(&self) -> Seq<char> {
        self.config.workspace_root@
    }

    /// The temporary directory.
    pub closed spec fn tmp(&self) -> Seq<char> {
        self.config.tmp_dir@
    }

    /// The output directory.
    pub closed spec fn output(&self) -> Seq<char> {
        self.config.output_dir@
    }

    /// The read-only mounts.
    pub closed spec fn mounts(&self) -> Seq<Seq<char>> {
        names_view(self.config.read_only_mounts@)
    }

    /// The validator matches the workspace root and the default patterns.
    pub closed spec fn wf(&self) -> bool {
        &&& self.validator.root() == self.config.workspace_root@
        &&& self.validator.patterns() == default_patterns()
    }

    /// An isolator for `config`, validating paths against its workspace root.
    pub fn new(config: FsIsolationConfig) -> (f: FileSystemIsolator)
        ensures
            f.wf(),
            f.root() == config.workspace_root@,
            f.tmp() == config.tmp_dir@,
            f.output() == config.output_dir@,
            f.mounts() == names_view(config.read_only_mounts@),
    {
        let validator = PathValidator::new(config.workspace_root.as_str());
        FileSystemIsolator { config, validator }
    }

    /// Whether `path` may be read.
    pub fn can_read(&self, path: &str) -> (b: bool)
        requires
            self.wf(),
        ensures
            b == readable(self.root(), self.mounts(), path@),
    {
        if path_is_absolute(path) {
            let mut k: usize = 0;
            while k < self.config.read_only_mounts.len()
                invariant
                    k <= self.config.read_only_mounts.len(),
                    is_absolute(path@),
                    forall|j: int| 0 <= j < k ==> !path_prefix(path@, #[trigger] self.mounts()[j]),
                decreases self.config.read_only_mounts.len() - k,
            {
                if path_starts_with(path, self.config.read_only_mounts[k].as_str()) {
                    assert(self.mounts()[k as int] == self.config.read_only_mounts@[k as int]@);
                    return true;
                }
                k = k + 1;
            }
            return self.validator.validate(path) == PathValidation::Valid;
        }
        self.validator.validate(path) == PathValidation::Valid
    }

    /// Whether `path` may be written.
    pub fn can_write(&self, path: &str) -> (b: bool)
        ensures
            b == writable(self.output(), path@),
    {
        let pv = chars_of(path);
        if has_parent_component_exec(&pv) {
            return false;
        }
        if path_is_absolute(path) {
            return path_starts_with(path, self.config.output_dir.as_str());
        }
        let resolved = path_join(self.config.output_dir.as_str(), path);
        path_starts_with(resolved.as_str(), self.config.output_dir.as_str())
    }

    /// The absolute path for `path`, when the validator accepts it.
    pub fn resolve_path(&self, path: &str) -> (r: Option<String>)
        requires
            self.wf(),
        ensures
            match r {
                Some(p) => resolved(self.root(), path@) == Some(p@),
                None => resolved(self.root(), path@) is None,
            },
    {
        let validation = self.validator.validate(path);
        if validation != PathValidation::Valid {
            return None;
        }
        if path_is_absolute(path) {
            Some(owned(path))
        } else {
            Some(path_join(self.config.workspace_root.as_str(), path))
        }
    }

    /// The directories that must exist before a task runs: workspace, temporary and output.
    pub fn required_dirs(&self) -> (v: Vec<String>)
        ensures
            names_view(v@) == seq![self.root(), self.tmp(), self.output()],
    {
        let v = vec![
            owned(self.config.workspace_root.as_str()),
            owned(self.config.tmp_dir.as_str()),
            owned(self.config.output_dir.as_str()),
        ];
        assert(names_view(v@) =~= seq![self.root(), self.tmp(), self.output()]);
        v
    }
}

} // verus!
