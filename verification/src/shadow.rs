use vstd::prelude::*;

use crate::config::{git_ref_problem, str_eq};
use crate::diagnostic::strings_view;
use crate::files::valid_ref;
use crate::json::{json_document, json_get, json_str, parse_json_document, str_opt, JsonValue};
use crate::stage::GateError;
use crate::text::{cat, decimal, decimal_string, push_str, str_owned, string_of, trim_seq, trim_str};

verus! {

/// The file in a kept shadow that records where it came from.
pub const SHADOW_METADATA: &'static str = ".heretek-shadow.json";

/// An isolated copy of the repository where an agent works: a detached git worktree, or a
/// plain copy when the repository is not a git repository.
#[derive(Debug)]
pub struct ShadowWorkspace {
    pub repo_root: String,
    pub path: String,
    pub id: String,
    pub git: bool,
    pub base: String,
    pub snapshots: Vec<String>,
}

/// Where the shadow with `id` lives below the repository.
pub open spec fn shadow_path_of(repo_root: Seq<char>, git: bool, id: Seq<char>) -> Seq<char> {
    repo_root + "/.heretek/"@ + (if git { "worktrees/"@ } else { "shadow/"@ }) + id
}

pub fn shadow_path(repo_root: &str, git: bool, id: &str) -> (r: String)
    ensures
        r@ == shadow_path_of(repo_root@, git, id@),
{
    let mut s = cat(repo_root, "/.heretek/");
    if git {
        push_str(&mut s, "worktrees/");
    } else {
        push_str(&mut s, "shadow/");
    }
    push_str(&mut s, id);
    s
}

fn strings(v: Vec<&str>) -> (r: Vec<String>)
    ensures
        r@.len() == v@.len(),
        forall|i: int| 0 <= i < v@.len() ==> (#[trigger] r@[i])@ == v@[i]@,
{
    let mut out: Vec<String> = Vec::new();
    let mut i: usize = 0;
    while i < v.len()
        invariant
            i <= v.len(),
            out@.len() == i,
            forall|k: int| 0 <= k < i ==> (#[trigger] out@[k])@ == v@[k]@,
        decreases v.len() - i,
    {
        out.push(str_owned(v[i]));
        i = i + 1;
    }
    out
}

/// `git worktree add` for a detached worktree of `rev` at `path`.
pub fn worktree_add_args(path: &str, rev: &str) -> (r: Vec<String>)
    ensures
        strings_view(r@) == seq!["worktree"@, "add"@, "--detach"@, "--force"@, path@, rev@],
{
    let r = strings(vec!["worktree", "add", "--detach", "--force", path, rev]);
    assert(strings_view(r@) =~= seq!["worktree"@, "add"@, "--detach"@, "--force"@, path@, rev@]);
    r
}

/// `git worktree remove` for the worktree at `path`.
pub fn worktree_remove_args(path: &str) -> (r: Vec<String>)
    ensures
        strings_view(r@) == seq!["worktree"@, "remove"@, "--force"@, path@],
{
    let r = strings(vec!["worktree", "remove", "--force", path]);
    assert(strings_view(r@) =~= seq!["worktree"@, "remove"@, "--force"@, path@]);
    r
}

/// Whether `git rev-parse --is-inside-work-tree` answered that the directory is in a
/// worktree (`None` when git failed).
pub fn is_git_repo(rev_parse_output: Option<&str>) -> (r: bool)
    ensures
        r == match rev_parse_output {
            Some(o) => trim_seq(o@) == "true"@,
            None => false,
        },
{
    match rev_parse_output {
        Some(o) => str_eq(string_of(&trim_str(o)).as_str(), "true"),
        None => false,
    }
}

/// Directory entries a plain copy leaves out.
pub open spec fn copy_skips(name: Seq<char>) -> bool {
    name == ".git"@ || name == ".heretek"@ || name == "node_modules"@
}

pub fn is_copy_skipped(name: &str) -> (r: bool)
    ensures
        r == copy_skips(name@),
{
    str_eq(name, ".git") || str_eq(name, ".heretek") || str_eq(name, "node_modules")
}

/// The pathspec that leaves the metadata file out of diffs.
pub open spec fn exclude_spec() -> Seq<char> {
    ":(exclude)"@ + SHADOW_METADATA@
}

/// The two git commands that produce a shadow's patch against `base`: stage everything but
/// the metadata file, then diff the staged tree against `base`.
pub open spec fn patch_commands(base: Seq<char>) -> (Seq<Seq<char>>, Seq<Seq<char>>) {
    (
        seq!["add"@, "-A"@, "--"@, "."@, exclude_spec()],
        seq!["diff"@, "--cached"@, "--binary"@, base, "--"@, "."@, exclude_spec()],
    )
}

pub fn patch_args(base: &str) -> (r: (Vec<String>, Vec<String>))
    ensures
        (strings_view(r.0@), strings_view(r.1@)) == patch_commands(base@),
{
    let exclude = cat(":(exclude)", SHADOW_METADATA);
    let add = strings(vec!["add", "-A", "--", ".", exclude.as_str()]);
    let diff = strings(vec!["diff", "--cached", "--binary", base, "--", ".", exclude.as_str()]);
    assert(strings_view(add@) =~= patch_commands(base@).0);
    assert(strings_view(diff@) =~= patch_commands(base@).1);
    (add, diff)
}

/// The commit that records a snapshot.
pub open spec fn commit_command(label: Seq<char>) -> Seq<Seq<char>> {
    seq!["-c"@, "user.name=heretek"@, "-c"@, "user.email=heretek@localhost"@, "commit"@, "--no-verify"@,
        "--allow-empty"@, "-q"@, "-m"@, "heretek snapshot: "@ + label]
}

/// The checker configurations the harness owns inside a shadow (tsconfig, biome, sgconfig,
/// semgrep, vitest and jest): they are put back as HEAD holds them before each gate run, so a
/// session cannot pass by loosening its own checks.
pub open spec fn harness_configs() -> Seq<&'static str> {
    seq![
        "tsconfig.json",
        "biome.json",
        "biome.jsonc",
        "sgconfig.yml",
        "semgrep.yml",
        ".semgrep.yml",
        "vitest.config.ts",
        "vitest.config.js",
        "vitest.config.mts",
        "jest.config.js",
        "jest.config.ts",
    ]
}

pub fn harness_config_files() -> (r: Vec<&'static str>)
    ensures
        r@ == harness_configs(),
{
    vec![
        "tsconfig.json",
        "biome.json",
        "biome.jsonc",
        "sgconfig.yml",
        "semgrep.yml",
        ".semgrep.yml",
        "vitest.config.ts",
        "vitest.config.js",
        "vitest.config.mts",
        "jest.config.js",
        "jest.config.ts",
    ]
}

/// The git arguments that restore `files` in the shadow as HEAD holds them.
pub fn restore_args(files: &Vec<String>) -> (r: Vec<String>)
    ensures
        strings_view(r@) == seq!["checkout"@, "HEAD"@, "--"@] + strings_view(files@),
{
    let mut r = strings(vec!["checkout", "HEAD", "--"]);
    let ghost head = strings_view(r@);
    let mut i: usize = 0;
    while i < files.len()
        invariant
            i <= files.len(),
            strings_view(r@) == head + strings_view(files@.take(i as int)),
        decreases files.len() - i,
    {
        let ghost before = strings_view(r@);
        r.push(files[i].clone());
        assert(strings_view(r@) =~= before.push(files@[i as int]@));
        assert(strings_view(files@.take(i + 1)) =~= strings_view(files@.take(i as int)).push(files@[i as int]@));
        i = i + 1;
    }
    assert(files@.take(files.len() as int) =~= files@);
    assert(head =~= seq!["checkout"@, "HEAD"@, "--"@]);
    r
}

/// The git arguments of `git apply` reading a patch from its input.
pub open spec fn apply_command() -> Seq<Seq<char>> {
    seq!["apply"@, "--whitespace=nowarn"@, "--recount"@, "-"@]
}

pub fn apply_args() -> (r: Vec<String>)
    ensures
        strings_view(r@) == apply_command(),
{
    let r = strings(vec!["apply", "--whitespace=nowarn", "--recount", "-"]);
    assert(strings_view(r@) =~= apply_command());
    r
}

/// The error of a failed `git apply`, with its trimmed error output.
pub fn apply_failure(stderr: &str) -> (r: GateError)
    ensures
        r matches GateError::Failed { message } && message@ == "git apply failed: "@ + trim_seq(stderr@),
{
    GateError::Failed { message: cat("git apply failed: ", string_of(&trim_str(stderr)).as_str()) }
}

impl ShadowWorkspace {
    /// A git worktree shadow; `base_output` is what `git rev-parse HEAD` printed in it.
    pub fn new_git(repo_root: &str, path: &str, id: &str, base_output: &str) -> (r: Self)
        ensures
            r.repo_root@ == repo_root@ && r.path@ == path@ && r.id@ == id@ && r.git
                && r.base@ == trim_seq(base_output@) && r.snapshots@.len() == 0,
    {
        ShadowWorkspace {
            repo_root: str_owned(repo_root),
            path: str_owned(path),
            id: str_owned(id),
            git: true,
            base: string_of(&trim_str(base_output)),
            snapshots: Vec::new(),
        }
    }

    /// A plain-copy shadow.
    pub fn new_copy(repo_root: &str, path: &str, id: &str) -> (r: Self)
        ensures
            r.repo_root@ == repo_root@ && r.path@ == path@ && r.id@ == id@ && !r.git && r.base@.len() == 0
                && r.snapshots@.len() == 0,
    {
        ShadowWorkspace {
            repo_root: str_owned(repo_root),
            path: str_owned(path),
            id: str_owned(id),
            git: false,
            base: String::new(),
            snapshots: Vec::new(),
        }
    }

    pub fn path(&self) -> (r: &str)
        ensures
            r@ == self.path@,
    {
        self.path.as_str()
    }

    pub fn is_git(&self) -> (r: bool)
        ensures
            r == self.git,
    {
        self.git
    }

    pub fn base(&self) -> (r: &str)
        ensures
            r@ == self.base@,
    {
        self.base.as_str()
    }

    /// A snapshot of a plain copy: only a numbered marker, recorded. Git shadows commit
    /// instead (see `commit_args` and `record_snapshot`).
    pub fn snapshot_marker(&mut self) -> (r: Option<String>)
        ensures
            old(self).git ==> r is None && *final(self) == *old(self),
            !old(self).git ==> (r matches Some(m) && m@ == "copy-"@ + decimal(old(self).snapshots@.len())
                && strings_view(final(self).snapshots@) == strings_view(old(self).snapshots@).push(m@)
                && final(self).git == old(self).git && final(self).path == old(self).path
                && final(self).base == old(self).base && final(self).id == old(self).id),
    {
        if self.git {
            return None;
        }
        let marker = cat("copy-", decimal_string(self.snapshots.len() as u64).as_str());
        let ghost before = self.snapshots@;
        self.snapshots.push(str_owned(marker.as_str()));
        assert(strings_view(self.snapshots@) =~= strings_view(before).push(marker@));
        Some(marker)
    }

    /// The arguments of the commit that records a snapshot labelled `label`.
    pub fn commit_args(label: &str) -> (r: Vec<String>)
        ensures
            strings_view(r@) == commit_command(label@),
    {
        let message = cat("heretek snapshot: ", label);
        let r = strings(vec!["-c", "user.name=heretek", "-c", "user.email=heretek@localhost", "commit", "--no-verify",
            "--allow-empty", "-q", "-m", message.as_str()]);
        assert(strings_view(r@) =~= commit_command(label@));
        r
    }

    /// The ref that names the next snapshot.
    pub fn snapshot_ref(&self) -> (r: String)
        ensures
            r@ == "refs/heretek/turns/"@ + self.id@ + "/"@ + decimal(self.snapshots@.len()),
    {
        let mut s = cat("refs/heretek/turns/", self.id.as_str());
        push_str(&mut s, "/");
        push_str(&mut s, decimal_string(self.snapshots.len() as u64).as_str());
        s
    }

    /// Records the commit `git rev-parse HEAD` printed after a snapshot commit.
    pub fn record_snapshot(&mut self, rev_parse_output: &str) -> (r: String)
        ensures
            r@ == trim_seq(rev_parse_output@),
            strings_view(final(self).snapshots@) == strings_view(old(self).snapshots@).push(r@),
            final(self).git == old(self).git && final(self).path == old(self).path
                && final(self).base == old(self).base && final(self).id == old(self).id,
    {
        let sha = string_of(&trim_str(rev_parse_output));
        let ghost before = self.snapshots@;
        self.snapshots.push(str_owned(sha.as_str()));
        assert(strings_view(self.snapshots@) =~= strings_view(before).push(sha@));
        sha
    }

    /// The git commands that roll the shadow back to `sha`, or why it cannot.
    pub fn rollback_plan(&self, sha: &str) -> (r: Result<Vec<Vec<String>>, GateError>)
        ensures
            git_ref_problem(sha@) is Some ==> (r matches Err(GateError::Failed { message })
                && git_ref_problem(sha@) == Some(message@)),
            git_ref_problem(sha@) is None && !self.git ==> (r matches Err(GateError::Failed { message })
                && message@ == "rollback is not supported for non-git workspaces"@),
            git_ref_problem(sha@) is None && self.git ==> (r matches Ok(cmds) && cmds@.len() == 2
                && strings_view(cmds@[0]@) == seq!["reset"@, "--hard"@, sha@]
                && strings_view(cmds@[1]@) == seq!["clean"@, "-fdq"@]),
    {
        match valid_ref(sha) {
            Ok(()) => {},
            Err(e) => return Err(e),
        }
        if !self.git {
            return Err(GateError::Failed { message: str_owned("rollback is not supported for non-git workspaces") });
        }
        let reset = strings(vec!["reset", "--hard", sha]);
        let clean = strings(vec!["clean", "-fdq"]);
        assert(strings_view(reset@) =~= seq!["reset"@, "--hard"@, sha@]);
        assert(strings_view(clean@) =~= seq!["clean"@, "-fdq"@]);
        Ok(vec![reset, clean])
    }

    /// The git commands that produce the shadow's patch, or why it has none.
    pub fn diff_plan(&self) -> (r: Result<(Vec<String>, Vec<String>), GateError>)
        ensures
            !self.git ==> (r matches Err(GateError::Failed { message })
                && message@ == "diff is not supported for non-git workspaces"@),
            self.git ==> (r matches Ok(p) && (strings_view(p.0@), strings_view(p.1@)) == patch_commands(self.base@)),
    {
        if !self.git {
            return Err(GateError::Failed { message: str_owned("diff is not supported for non-git workspaces") });
        }
        Ok(patch_args(self.base.as_str()))
    }

    /// The metadata a kept shadow records: its repository, base and mode.
    pub fn mode_name(&self) -> (r: &'static str)
        ensures
            r@ == if self.git { "git"@ } else { "copy"@ },
    {
        if self.git {
            "git"
        } else {
            "copy"
        }
    }
}

/// Whether a patch holds no change.
pub fn patch_is_empty(patch: &str) -> (r: bool)
    ensures
        r == (trim_seq(patch@).len() == 0),
{
    trim_str(patch).len() == 0
}

/// What a kept shadow's metadata says.
pub struct ShadowMetadata {
    pub copy: bool,
    pub repo_root: String,
    pub base: Option<String>,
}

/// The metadata read from its JSON text: the mode (git unless it says "copy"), the
/// recorded repository root, and the base revision.
pub open spec fn metadata_of(v: JsonValue) -> (bool, Seq<char>, Option<Seq<char>>) {
    (
        json_str(json_get(v, "mode"@)) == Some("copy"@),
        match json_str(json_get(v, "repo_root"@)) {
            Some(r) => r,
            None => Seq::empty(),
        },
        json_str(json_get(v, "base"@)),
    )
}

pub fn read_metadata(text: &str) -> (r: Result<ShadowMetadata, GateError>)
    ensures
        match json_document(text@) {
            None => r matches Err(GateError::Failed { message })
                && crate::text::starts_with_seq(message@, "invalid shadow metadata: "@),
            Some(v) => r matches Ok(m) && (m.copy, m.repo_root@, crate::diagnostic::opt_view(m.base)) == metadata_of(v),
        },
{
    let v = match parse_json_document(text) {
        Ok(v) => v,
        Err(e) => {
            let m = cat("invalid shadow metadata: ", e.as_str());
            assert(m@.subrange(0, "invalid shadow metadata: "@.len() as int) =~= "invalid shadow metadata: "@);
            return Err(GateError::Failed { message: m });
        },
    };
    let copy = match str_opt(v.get("mode")) {
        Some(m) => str_eq(m.as_str(), "copy"),
        None => false,
    };
    let repo_root = match str_opt(v.get("repo_root")) {
        Some(r) => str_owned(r.as_str()),
        None => String::new(),
    };
    let base = match str_opt(v.get("base")) {
        Some(b) => Some(str_owned(b.as_str())),
        None => None,
    };
    Ok(ShadowMetadata { copy, repo_root, base })
}

/// Refuses to apply a shadow to another repository than the one it was made from; both
/// roots are as resolved by the caller.
pub fn check_owner(recorded: &str, actual: &str) -> (r: Result<(), GateError>)
    ensures
        recorded@ == actual@ ==> r is Ok,
        recorded@ != actual@ ==> (r matches Err(GateError::Failed { message })
            && message@ == "shadow belongs to "@ + recorded@ + " and cannot be applied to "@ + actual@),
{
    if str_eq(recorded, actual) {
        return Ok(());
    }
    let mut m = cat("shadow belongs to ", recorded);
    push_str(&mut m, " and cannot be applied to ");
    push_str(&mut m, actual);
    Err(GateError::Failed { message: m })
}

/// The base revision of a git shadow's metadata, checked as a git ref.
pub fn base_revision(meta: &ShadowMetadata) -> (r: Result<String, GateError>)
    ensures
        match meta.base {
            None => r matches Err(GateError::Failed { message })
                && message@ == "shadow metadata is missing the base revision"@,
            Some(b) => match git_ref_problem(b@) {
                Some(p) => r matches Err(GateError::Failed { message }) && message@ == p,
                None => r matches Ok(s) && s@ == b@,
            },
        },
{
    match &meta.base {
        None => Err(GateError::Failed { message: str_owned("shadow metadata is missing the base revision") }),
        Some(b) => match valid_ref(b.as_str()) {
            Ok(()) => Ok(str_owned(b.as_str())),
            Err(e) => Err(e),
        },
    }
}

/// Refuses an empty patch when applying a kept shadow.
pub fn check_patch(patch: &str) -> (r: Result<(), GateError>)
    ensures
        trim_seq(patch@).len() == 0 ==> (r matches Err(GateError::Failed { message })
            && message@ == "shadow contains no changes"@),
        trim_seq(patch@).len() != 0 ==> r is Ok,
{
    if patch_is_empty(patch) {
        return Err(GateError::Failed { message: str_owned("shadow contains no changes") });
    }
    Ok(())
}

/// The error for a shadow path that does not exist.
pub fn shadow_missing(path: &str) -> (r: GateError)
    ensures
        r matches GateError::Failed { message } && message@ == "shadow not found: "@ + path@,
{
    GateError::Failed { message: cat("shadow not found: ", path) }
}

} // verus!
