use vstd::prelude::*;

use crate::config::str_eq;
use crate::text::{cat, str_owned, trim_seq, trim_str};

verus! {

/// How to run one tool.
#[derive(Debug, Clone)]
pub struct ProcessSpec {
    pub program: String,
    pub args: Vec<String>,
    pub cwd: String,
    pub env: Vec<(String, String)>,
    pub timeout_secs: u64,
    pub max_output_bytes: usize,
    pub allow_network: bool,
}

pub open spec fn env_view(env: Seq<(String, String)>) -> Seq<(Seq<char>, Seq<char>)> {
    env.map_values(|e: (String, String)| (e.0@, e.1@))
}

/// The environment after setting `key` to `value`: the first entry with that key is
/// replaced in place, or a new entry is appended.
pub open spec fn env_set(env: Seq<(Seq<char>, Seq<char>)>, key: Seq<char>, value: Seq<char>) -> Seq<(Seq<char>, Seq<char>)> {
    if exists|i: int| 0 <= i < env.len() && (#[trigger] env[i]).0 == key {
        let i = choose|i: int| 0 <= i < env.len() && (#[trigger] env[i]).0 == key && forall|j: int| 0 <= j < i ==> (#[trigger] env[j]).0 != key;
        env.update(i, (key, value))
    } else {
        env.push((key, value))
    }
}

/// No variable is set twice.
pub open spec fn distinct_env_keys(env: Seq<(Seq<char>, Seq<char>)>) -> bool {
    forall|a: int, b: int| 0 <= a < b < env.len() ==> (#[trigger] env[a]).0 != (#[trigger] env[b]).0
}

proof fn lemma_env_set_distinct(env: Seq<(Seq<char>, Seq<char>)>, key: Seq<char>, value: Seq<char>)
    requires
        distinct_env_keys(env),
    ensures
        distinct_env_keys(env_set(env, key, value)),
{
    let r = env_set(env, key, value);
    if exists|i: int| 0 <= i < env.len() && (#[trigger] env[i]).0 == key {
        let i = choose|i: int| 0 <= i < env.len() && (#[trigger] env[i]).0 == key && forall|j: int| 0 <= j < i ==> (#[trigger] env[j]).0 != key;
        assert forall|a: int, b: int| 0 <= a < b < r.len() implies (#[trigger] r[a]).0 != (#[trigger] r[b]).0 by {
            assert(r[a].0 == env[a].0);
            assert(r[b].0 == env[b].0);
        }
    } else {
        assert forall|a: int, b: int| 0 <= a < b < r.len() implies (#[trigger] r[a]).0 != (#[trigger] r[b]).0 by {
            if b == env.len() {
                assert(r[a] == env[a]);
            } else {
                assert(r[a] == env[a] && r[b] == env[b]);
            }
        }
    }
}

impl ProcessSpec {
    /// A spec with no arguments or extra environment, a 300 second timeout, a 1 MiB output
    /// cap and no network.
    pub fn new(program: &str, cwd: &str) -> (r: Self)
        ensures
            r.program@ == program@,
            r.cwd@ == cwd@,
            r.args@.len() == 0,
            r.env@.len() == 0,
            r.timeout_secs == 300,
            r.max_output_bytes == 1_048_576,
            !r.allow_network,
    {
        ProcessSpec {
            program: program.to_owned(),
            args: Vec::new(),
            cwd: cwd.to_owned(),
            env: Vec::new(),
            timeout_secs: 300,
            max_output_bytes: 1_048_576,
            allow_network: false,
        }
    }

    pub fn args(self, args: Vec<String>) -> (r: Self)
        ensures
            r == (ProcessSpec { args, ..self }),
    {
        ProcessSpec { args, ..self }
    }

    /// Sets one environment variable for the tool; no variable ends up set twice.
    pub fn env(self, key: &str, value: &str) -> (r: Self)
        ensures
            env_view(r.env@) == env_set(env_view(self.env@), key@, value@),
            distinct_env_keys(env_view(self.env@)) ==> distinct_env_keys(env_view(r.env@)),
            r.program == self.program && r.args == self.args && r.cwd == self.cwd && r.timeout_secs == self.timeout_secs
                && r.max_output_bytes == self.max_output_bytes && r.allow_network == self.allow_network,
    {
        proof {
            if distinct_env_keys(env_view(self.env@)) {
                lemma_env_set_distinct(env_view(self.env@), key@, value@);
            }
        }
        let mut s = self;
        let mut i: usize = 0;
        while i < s.env.len()
            invariant
                i <= s.env.len(),
                s.env@ == self.env@,
                s.program == self.program && s.args == self.args && s.cwd == self.cwd && s.timeout_secs == self.timeout_secs
                    && s.max_output_bytes == self.max_output_bytes && s.allow_network == self.allow_network,
                forall|j: int| 0 <= j < i ==> (#[trigger] s.env@[j]).0@ != key@,
            decreases s.env.len() - i,
        {
            if str_eq(s.env[i].0.as_str(), key) {
                let k = s.env[i].0.clone();
                let ghost old_env = s.env@;
                s.env.set(i, (k, value.to_owned()));
                proof {
                    let e = env_view(self.env@);
                    assert(e[i as int].0 == key@);
                    let c = choose|c: int| 0 <= c < e.len() && (#[trigger] e[c]).0 == key@ && forall|j: int| 0 <= j < c ==> (#[trigger] e[j]).0 != key@;
                    assert(0 <= i < e.len() && e[i as int].0 == key@ && forall|j: int| 0 <= j < i ==> (#[trigger] e[j]).0 != key@);
                    if c < i { assert(e[c].0 != key@); }
                    if c > i { assert(e[i as int].0 != key@); }
                    assert(env_view(s.env@) =~= e.update(i as int, (key@, value@)));
                }
                return s;
            }
            i = i + 1;
        }
        let ghost old_env = s.env@;
        s.env.push((key.to_owned(), value.to_owned()));
        proof {
            let e = env_view(self.env@);
            assert forall|c: int| 0 <= c < e.len() implies (#[trigger] e[c]).0 != key@ by {
                assert(e[c].0 == self.env@[c].0@);
            }
            assert(env_view(s.env@) =~= e.push((key@, value@)));
        }
        s
    }

    pub fn timeout(self, secs: u64) -> (r: Self)
        ensures
            r == (ProcessSpec { timeout_secs: secs, ..self }),
    {
        ProcessSpec { timeout_secs: secs, ..self }
    }

    pub fn max_output_bytes(self, max: usize) -> (r: Self)
        ensures
            r == (ProcessSpec { max_output_bytes: max, ..self }),
    {
        ProcessSpec { max_output_bytes: max, ..self }
    }

    pub fn allow_network(self, allow: bool) -> (r: Self)
        ensures
            r == (ProcessSpec { allow_network: allow, ..self }),
    {
        ProcessSpec { allow_network: allow, ..self }
    }
}

/// What a tool printed and how it ended.
#[derive(Debug, Clone, Default)]
pub struct ProcessOutput {
    pub status: Option<i32>,
    pub stdout: String,
    pub stderr: String,
    pub timed_out: bool,
}

/// Standard output and error together: either one alone when the other is blank, else both
/// separated by a newline.
pub open spec fn combined_spec(stdout: Seq<char>, stderr: Seq<char>) -> Seq<char> {
    if trim_seq(stderr).len() == 0 {
        stdout
    } else if trim_seq(stdout).len() == 0 {
        stderr
    } else {
        stdout + "\n"@ + stderr
    }
}

impl ProcessOutput {
    /// The tool exited with status 0.
    pub fn success(&self) -> (r: bool)
        ensures
            r == (self.status == Some(0i32)),
    {
        match self.status {
            Some(code) => code == 0,
            None => false,
        }
    }

    pub fn combined(&self) -> (r: String)
        ensures
            r@ == combined_spec(self.stdout@, self.stderr@),
    {
        if trim_str(self.stderr.as_str()).len() == 0 {
            self.stdout.clone()
        } else if trim_str(self.stdout.as_str()).len() == 0 {
            self.stderr.clone()
        } else {
            let a = cat(self.stdout.as_str(), "\n");
            cat(a.as_str(), self.stderr.as_str())
        }
    }

    /// Either stream reached the byte cap, so the output may have been cut.
    pub fn truncated(&self, max_output_bytes: usize) -> (r: bool)
        ensures
            r == ((vstd::utf8::encode_utf8(self.stdout@).len() as usize) >= max_output_bytes
                || (vstd::utf8::encode_utf8(self.stderr@).len() as usize) >= max_output_bytes),
    {
        self.stdout.as_str().len() >= max_output_bytes || self.stderr.as_str().len() >= max_output_bytes
    }
}

/// The variables a tool inherits from the harness's own environment; every other one is left
/// out.
pub open spec fn inherited_keys() -> Seq<&'static str> {
    seq![
        "PATH", "HOME", "TMPDIR", "TMP", "TEMP", "LANG", "LC_ALL", "NODE_OPTIONS", "NPM_CONFIG_CACHE",
        "XDG_CACHE_HOME", "USER", "LOGNAME", "SHELL",
    ]
}

pub fn inherited_key_list() -> (r: Vec<&'static str>)
    ensures
        r@ == inherited_keys(),
{
    vec![
        "PATH", "HOME", "TMPDIR", "TMP", "TEMP", "LANG", "LC_ALL", "NODE_OPTIONS", "NPM_CONFIG_CACHE",
        "XDG_CACHE_HOME", "USER", "LOGNAME", "SHELL",
    ]
}

pub open spec fn is_inherited(key: Seq<char>) -> bool {
    exists|k: int| 0 <= k < inherited_keys().len() && (#[trigger] inherited_keys()[k])@ == key
}

/// The variables of `vars` a tool inherits, in order.
pub open spec fn allowed_env(vars: Seq<(Seq<char>, Seq<char>)>) -> Seq<(Seq<char>, Seq<char>)>
    decreases vars.len(),
{
    if vars.len() == 0 {
        Seq::empty()
    } else if is_inherited(vars.last().0) {
        allowed_env(vars.drop_last()).push(vars.last())
    } else {
        allowed_env(vars.drop_last())
    }
}

/// Variables every tool gets: no terminal features, no colour, a CI run.
pub open spec fn quiet_env() -> Seq<(Seq<char>, Seq<char>)> {
    seq![("TERM"@, "dumb"@), ("NO_COLOR"@, "1"@), ("CI"@, "1"@)]
}

/// Proxies pointed at an address nothing listens on, for tools that must not reach the
/// network when no network namespace isolates them.
pub open spec fn dead_proxy_env() -> Seq<(Seq<char>, Seq<char>)> {
    seq![
        ("HTTP_PROXY"@, "http://127.0.0.1:9"@),
        ("HTTPS_PROXY"@, "http://127.0.0.1:9"@),
        ("http_proxy"@, "http://127.0.0.1:9"@),
        ("https_proxy"@, "http://127.0.0.1:9"@),
        ("NO_PROXY"@, ""@),
    ]
}

/// The arguments that put a tool into an empty network namespace as an unprivileged user.
pub open spec fn unshare_prefix() -> Seq<Seq<char>> {
    seq!["--user"@, "--map-root-user"@, "--net"@]
}

fn push_pair(v: &mut Vec<(String, String)>, k: &str, val: &str)
    ensures
        env_view(final(v)@) == env_view(old(v)@).push((k@, val@)),
{
    let ghost before = env_view(v@);
    v.push((str_owned(k), str_owned(val)));
    assert(env_view(v@) =~= before.push((k@, val@)));
}

fn key_inherited(keys: &Vec<&'static str>, key: &str) -> (r: bool)
    requires
        keys@ == inherited_keys(),
    ensures
        r == is_inherited(key@),
{
    let mut i: usize = 0;
    while i < keys.len()
        invariant
            i <= keys.len(),
            keys@ == inherited_keys(),
            forall|k: int| 0 <= k < i ==> (#[trigger] inherited_keys()[k])@ != key@,
        decreases keys.len() - i,
    {
        if str_eq(keys[i], key) {
            return true;
        }
        i = i + 1;
    }
    false
}

/// How a tool is started: the program, its arguments and its whole environment. With
/// `isolate`, `unshare` runs the tool in an empty network namespace. The environment is the
/// allow-listed part of `inherited`, then `quiet_env`, then, when the tool may not use the
/// network and is not isolated, `dead_proxy_env`, then the spec's own variables (a later
/// setting of a variable wins).
pub fn command_plan(spec: &ProcessSpec, isolate: bool, inherited: Vec<(String, String)>)
    -> (r: (String, Vec<String>, Vec<(String, String)>))
    ensures
        r.0@ == (if isolate { "unshare"@ } else { spec.program@ }),
        crate::diagnostic::strings_view(r.1@) == (if isolate {
            unshare_prefix().push(spec.program@) + crate::diagnostic::strings_view(spec.args@)
        } else {
            crate::diagnostic::strings_view(spec.args@)
        }),
        env_view(r.2@) == allowed_env(env_view(inherited@)) + quiet_env() + (if !spec.allow_network && !isolate {
            dead_proxy_env()
        } else {
            Seq::empty()
        }) + env_view(spec.env@),
{
    let mut args: Vec<String> = Vec::new();
    let program = if isolate {
        args.push(str_owned("--user"));
        args.push(str_owned("--map-root-user"));
        args.push(str_owned("--net"));
        args.push(str_owned(spec.program.as_str()));
        str_owned("unshare")
    } else {
        str_owned(spec.program.as_str())
    };
    let ghost head = crate::diagnostic::strings_view(args@);
    let mut i: usize = 0;
    while i < spec.args.len()
        invariant
            i <= spec.args.len(),
            crate::diagnostic::strings_view(args@) == head + crate::diagnostic::strings_view(spec.args@.take(i as int)),
        decreases spec.args.len() - i,
    {
        let ghost before = crate::diagnostic::strings_view(args@);
        args.push(spec.args[i].clone());
        assert(crate::diagnostic::strings_view(args@) =~= before.push(spec.args@[i as int]@));
        assert(crate::diagnostic::strings_view(spec.args@.take(i + 1)) =~= crate::diagnostic::strings_view(spec.args@.take(i as int)).push(spec.args@[i as int]@));
        i = i + 1;
    }
    assert(spec.args@.take(spec.args.len() as int) =~= spec.args@);
    proof {
        if isolate {
            assert(head =~= unshare_prefix().push(spec.program@));
        } else {
            assert(head =~= Seq::<Seq<char>>::empty());
        }
    }
    let keys = inherited_key_list();
    let mut env: Vec<(String, String)> = Vec::new();
    let ghost all = env_view(inherited@);
    let mut j: usize = 0;
    while j < inherited.len()
        invariant
            j <= inherited.len(),
            all == env_view(inherited@),
            keys@ == inherited_keys(),
            env_view(env@) == allowed_env(all.take(j as int)),
        decreases inherited.len() - j,
    {
        assert(all.take(j + 1).drop_last() =~= all.take(j as int));
        let (k, v) = &inherited[j];
        if key_inherited(&keys, k.as_str()) {
            push_pair(&mut env, k.as_str(), v.as_str());
        }
        j = j + 1;
    }
    assert(all.take(inherited.len() as int) =~= all);
    let ghost allowed = env_view(env@);
    push_pair(&mut env, "TERM", "dumb");
    push_pair(&mut env, "NO_COLOR", "1");
    push_pair(&mut env, "CI", "1");
    assert(env_view(env@) =~= allowed + quiet_env());
    let ghost quiet = env_view(env@);
    if !spec.allow_network && !isolate {
        push_pair(&mut env, "HTTP_PROXY", "http://127.0.0.1:9");
        push_pair(&mut env, "HTTPS_PROXY", "http://127.0.0.1:9");
        push_pair(&mut env, "http_proxy", "http://127.0.0.1:9");
        push_pair(&mut env, "https_proxy", "http://127.0.0.1:9");
        push_pair(&mut env, "NO_PROXY", "");
        assert(env_view(env@) =~= quiet + dead_proxy_env());
    } else {
        assert(env_view(env@) =~= quiet + Seq::<(Seq<char>, Seq<char>)>::empty());
    }
    let ghost mid = env_view(env@);
    let mut m: usize = 0;
    while m < spec.env.len()
        invariant
            m <= spec.env.len(),
            env_view(env@) == mid + env_view(spec.env@.take(m as int)),
        decreases spec.env.len() - m,
    {
        let (k, v) = &spec.env[m];
        push_pair(&mut env, k.as_str(), v.as_str());
        assert(env_view(spec.env@.take(m + 1)) =~= env_view(spec.env@.take(m as int)).push((k@, v@)));
        m = m + 1;
    }
    assert(spec.env@.take(spec.env.len() as int) =~= spec.env@);
    (program, args, env)
}

} // verus!
