use vstd::prelude::*;

use crate::profile::ModelProfile;
use crate::text::{
    cat, char_in, chars_of, contains, contains_seq, is_control, is_ctrl, is_whitespace, is_ws,
    lemma_lex_antisym, lemma_lex_total, lemma_lex_trans, lex_le, str_le, trim_seq, trim_str,
};

verus! {

/// Name of the configuration file at the repository root.
pub const CONFIG_FILE: &'static str = ".heretek.toml";

/// Why a git ref is refused, if it is.
pub open spec fn git_ref_problem(v: Seq<char>) -> Option<Seq<char>> {
    if trim_seq(v).len() == 0 {
        Some("git ref must not be empty"@)
    } else if v[0] == '-' {
        Some("git ref \""@ + v + "\" must not start with '-'"@)
    } else if exists|i: int| 0 <= i < v.len() && (is_ws(#[trigger] v[i]) || is_ctrl(v[i])) {
        Some("git ref \""@ + v + "\" must not contain whitespace"@)
    } else if contains_seq(v, ".."@) || v.contains('~') || v.contains('^') || v.contains(':') {
        Some("git ref \""@ + v + "\" contains forbidden characters"@)
    } else {
        None
    }
}

fn cat3(a: &str, b: &str, c: &str) -> (r: String)
    ensures
        r@ == a@ + b@ + c@,
{
    let ab = cat(a, b);
    cat(ab.as_str(), c)
}

/// Refuses refs that could be read as options or that hold characters git reserves.
pub fn validate_git_ref(value: &str) -> (r: Result<(), String>)
    ensures
        match r {
            Ok(()) => git_ref_problem(value@) is None,
            Err(m) => git_ref_problem(value@) == Some(m@),
        },
{
    let t = trim_str(value);
    if t.len() == 0 {
        return Err("git ref must not be empty".to_owned());
    }
    let cs = chars_of(value);
    proof {
        crate::text::lemma_trim_end(value@);
        if value@.len() == 0 {
            assert(trim_seq(value@).len() == 0);
        }
    }
    if cs[0] == '-' {
        return Err(cat3("git ref \"", value, "\" must not start with '-'"));
    }
    let mut i: usize = 0;
    while i < cs.len()
        invariant
            i <= cs.len(),
            cs@ == value@,
            value@.len() > 0,
            value@[0] != '-',
            trim_seq(value@).len() != 0,
            forall|j: int| 0 <= j < i ==> !(is_ws(#[trigger] cs@[j]) || is_ctrl(cs@[j])),
        decreases cs.len() - i,
    {
        if is_whitespace(cs[i]) || is_control(cs[i]) {
            assert(is_ws(value@[i as int]) || is_ctrl(value@[i as int]));
            return Err(cat3("git ref \"", value, "\" must not contain whitespace"));
        }
        i = i + 1;
    }
    let dots = chars_of("..");
    if contains(&cs, &dots) || char_in(&cs, '~') || char_in(&cs, '^') || char_in(&cs, ':') {
        return Err(cat3("git ref \"", value, "\" contains forbidden characters"));
    }
    Ok(())
}

/// Which gate stages run.
#[derive(Debug, Clone)]
pub struct StageToggles {
    pub syntax: bool,
    pub format: bool,
    pub typecheck: bool,
    pub tests: bool,
    pub ast_grep: bool,
    pub secrets: bool,
    pub sast: bool,
    pub dead_code: bool,
    pub deps: bool,
}

impl Default for StageToggles {
    fn default() -> (r: Self)
        ensures
            r.syntax && r.format && r.typecheck && r.tests && r.ast_grep && r.secrets && r.sast
                && r.dead_code && r.deps,
    {
        StageToggles {
            syntax: true,
            format: true,
            typecheck: true,
            tests: true,
            ast_grep: true,
            secrets: true,
            sast: true,
            dead_code: true,
            deps: true,
        }
    }
}

/// Gate settings.
#[derive(Debug, Clone)]
pub struct GateConfig {
    pub stages: StageToggles,
    pub baseline: Option<String>,
    pub stage_timeout_secs: u64,
    pub max_output_bytes: usize,
    pub allow_network: bool,
    pub ast_grep_rules: Option<String>,
    pub semgrep_config: Option<String>,
    pub ignore: Vec<String>,
}

impl Default for GateConfig {
    fn default() -> (r: Self)
        ensures
            r.stages.syntax && r.stages.format && r.stages.typecheck && r.stages.tests
                && r.stages.ast_grep && r.stages.secrets && r.stages.sast && r.stages.dead_code
                && r.stages.deps,
            r.baseline is None,
            r.stage_timeout_secs == 300,
            r.max_output_bytes == 1_048_576,
            !r.allow_network,
            r.ast_grep_rules is None,
            r.semgrep_config is None,
            r.ignore@.len() == 0,
    {
        GateConfig {
            stages: StageToggles::default(),
            baseline: None,
            stage_timeout_secs: 300,
            max_output_bytes: 1_048_576,
            allow_network: false,
            ast_grep_rules: None,
            semgrep_config: None,
            ignore: Vec::new(),
        }
    }
}

/// Agent loop budgets.
#[derive(Debug, Clone)]
pub struct AgentConfig {
    pub max_turns: u32,
    pub max_wall_secs: u64,
    pub escalate: bool,
    pub tool_result_token_budget: usize,
}

impl Default for AgentConfig {
    fn default() -> (r: Self)
        ensures
            r.max_turns == 40,
            r.max_wall_secs == 1800,
            r.escalate,
            r.tool_result_token_budget == 3000,
    {
        AgentConfig { max_turns: 40, max_wall_secs: 1800, escalate: true, tool_result_token_budget: 3000 }
    }
}

/// The whole configuration file. `models` lists the model entries in key order.
#[derive(Debug, Clone)]
pub struct HereConfig {
    pub gate: GateConfig,
    pub agent: AgentConfig,
    pub models: Vec<(String, ModelProfile)>,
    pub default_lane: Option<String>,
}

impl Default for HereConfig {
    fn default() -> (r: Self)
        ensures
            r.gate.stage_timeout_secs == 300,
            r.agent.max_turns == 40,
            r.gate.baseline is None,
            r.models@.len() == 0,
            r.default_lane is None,
    {
        HereConfig {
            gate: GateConfig::default(),
            agent: AgentConfig::default(),
            models: Vec::new(),
            default_lane: None,
        }
    }
}

/// Why a configuration could not be used.
#[derive(Debug)]
pub enum ConfigError {
    Read { path: String, message: String },
    Parse { path: String, message: String },
    Invalid(String),
}

/// The message of a configuration error.
pub open spec fn config_error_text(e: ConfigError) -> Seq<char> {
    match e {
        ConfigError::Read { path, message } => "cannot read "@ + path@ + ": "@ + message@,
        ConfigError::Parse { path, message } => "invalid "@ + path@ + ": "@ + message@,
        ConfigError::Invalid(m) => "invalid configuration: "@ + m@,
    }
}

impl ConfigError {
    pub fn text(&self) -> (r: String)
        ensures
            r@ == config_error_text(*self),
    {
        match self {
            ConfigError::Read { path, message } => {
                let head = cat3("cannot read ", path.as_str(), ": ");
                cat(head.as_str(), message.as_str())
            },
            ConfigError::Parse { path, message } => {
                let head = cat3("invalid ", path.as_str(), ": ");
                cat(head.as_str(), message.as_str())
            },
            ConfigError::Invalid(m) => cat("invalid configuration: ", m.as_str()),
        }
    }
}

pub open spec fn has_model(models: Seq<(String, ModelProfile)>, name: Seq<char>) -> bool {
    exists|i: int| 0 <= i < models.len() && (#[trigger] models[i]).0@ == name
}

/// The problem with one model entry, if any.
pub open spec fn model_problem(name: Seq<char>, p: ModelProfile) -> Option<Seq<char>> {
    if trim_seq(p.base_url@).len() == 0 {
        Some("models."@ + name + ".base_url must not be empty"@)
    } else if trim_seq(p.model@).len() == 0 {
        Some("models."@ + name + ".model must not be empty"@)
    } else {
        None
    }
}

/// The first problem among the model entries, in stored order.
pub open spec fn models_problem(models: Seq<(String, ModelProfile)>) -> Option<Seq<char>>
    decreases models.len(),
{
    if models.len() == 0 {
        None
    } else {
        match models_problem(models.drop_last()) {
            Some(m) => Some(m),
            None => model_problem(models.last().0@, models.last().1),
        }
    }
}

/// The first problem of a configuration, in the order the checks run.
pub open spec fn config_problem(c: HereConfig) -> Option<Seq<char>> {
    if c.gate.stage_timeout_secs == 0 {
        Some("gate.stage_timeout_secs must be greater than zero"@)
    } else if c.agent.max_turns == 0 {
        Some("agent.max_turns must be greater than zero"@)
    } else if c.gate.baseline is Some && git_ref_problem(c.gate.baseline->0@) is Some {
        git_ref_problem(c.gate.baseline->0@)
    } else if models_problem(c.models@) is Some {
        models_problem(c.models@)
    } else if c.default_lane is Some && !has_model(c.models@, c.default_lane->0@) {
        Some("default_lane \""@ + c.default_lane->0@ + "\" has no matching models entry"@)
    } else {
        None
    }
}

/// Whether one of the entries is named `name`.
pub fn find_model(models: &Vec<(String, ModelProfile)>, name: &str) -> (r: Option<usize>)
    ensures
        match r {
            Some(i) => i < models@.len() && models@[i as int].0@ == name@ && forall|j: int|
                0 <= j < i ==> (#[trigger] models@[j]).0@ != name@,
            None => !has_model(models@, name@),
        },
{
    let mut i: usize = 0;
    while i < models.len()
        invariant
            i <= models.len(),
            forall|j: int| 0 <= j < i ==> (#[trigger] models@[j]).0@ != name@,
        decreases models.len() - i,
    {
        if str_eq(models[i].0.as_str(), name) {
            return Some(i);
        }
        i = i + 1;
    }
    None
}

/// Equality of two string slices by their characters.
pub fn str_eq(a: &str, b: &str) -> (r: bool)
    ensures
        r == (a@ == b@),
{
    let x = chars_of(a);
    let y = chars_of(b);
    if x.len() != y.len() {
        return false;
    }
    let mut i: usize = 0;
    while i < x.len()
        invariant
            i <= x.len(),
            x.len() == y.len(),
            x@ == a@,
            y@ == b@,
            forall|j: int| 0 <= j < i ==> x@[j] == y@[j],
        decreases x.len() - i,
    {
        if x[i] != y[i] {
            assert(a@[i as int] != b@[i as int]);
            return false;
        }
        i = i + 1;
    }
    assert(x@ =~= y@);
    true
}

/// Entry names strictly increase: each lane has one entry, and the entries come in name order.
pub open spec fn lanes_ordered(models: Seq<(String, ModelProfile)>) -> bool {
    forall|a: int, b: int| 0 <= a < b < models.len() ==>
        lex_le((#[trigger] models[a]).0@, (#[trigger] models[b]).0@) && models[a].0@ != models[b].0@
}

impl HereConfig {
    /// Sets the profile of lane `name`: its entry takes the new profile, or, where it has none,
    /// a new entry goes where its name falls in order.
    pub fn set_model(&mut self, name: String, profile: ModelProfile)
        requires
            lanes_ordered(old(self).models@),
        ensures
            lanes_ordered(final(self).models@),
            final(self).gate == old(self).gate,
            final(self).agent == old(self).agent,
            final(self).default_lane == old(self).default_lane,
            has_model(old(self).models@, name@) ==> exists|i: int| 0 <= i < old(self).models@.len()
                && (#[trigger] old(self).models@[i]).0@ == name@
                && final(self).models@ == old(self).models@.update(i, (old(self).models@[i].0, profile)),
            !has_model(old(self).models@, name@) ==> exists|i: int| 0 <= i <= old(self).models@.len()
                && final(self).models@ == old(self).models@.insert(i, (name, profile)),
    {
        let ghost before = self.models@;
        let mut i: usize = 0;
        while i < self.models.len() && !str_le(name.as_str(), self.models[i].0.as_str())
            invariant
                i <= self.models.len(),
                self.models@ == before,
                lanes_ordered(before),
                forall|a: int| 0 <= a < i ==> lex_le((#[trigger] before[a]).0@, name@) && before[a].0@ != name@,
            decreases self.models.len() - i,
        {
            proof {
                lemma_lex_total(name@, before[i as int].0@);
                lemma_lex_total(name@, name@);
            }
            i = i + 1;
        }
        if i < self.models.len() && str_eq(self.models[i].0.as_str(), name.as_str()) {
            let entry = self.models.remove(i);
            self.models.insert(i, (entry.0, profile));
            assert(self.models@ =~= before.update(i as int, (before[i as int].0, profile)));
            assert(has_model(before, name@));
            assert forall|a: int, b: int| 0 <= a < b < self.models@.len() implies
                lex_le((#[trigger] self.models@[a]).0@, (#[trigger] self.models@[b]).0@)
                && self.models@[a].0@ != self.models@[b].0@ by {
                assert(self.models@[a].0@ == before[a].0@);
                assert(self.models@[b].0@ == before[b].0@);
            }
        } else {
            proof {
                assert forall|j: int| 0 <= j < before.len() implies (#[trigger] before[j]).0@ != name@ by {
                    if j > i && before[j].0@ == name@ {
                        assert(lex_le(before[i as int].0@, before[j].0@) && before[i as int].0@ != before[j].0@);
                        lemma_lex_antisym(name@, before[i as int].0@);
                    }
                }
            }
            self.models.insert(i, (name, profile));
            assert(self.models@ =~= before.insert(i as int, (name, profile)));
            assert forall|a: int, b: int| 0 <= a < b < self.models@.len() implies
                lex_le((#[trigger] self.models@[a]).0@, (#[trigger] self.models@[b]).0@)
                && self.models@[a].0@ != self.models@[b].0@ by {
                if b < i {
                    assert(self.models@[a] == before[a] && self.models@[b] == before[b]);
                } else if b == i {
                    assert(self.models@[a] == before[a]);
                } else if a == i {
                    assert(self.models@[b] == before[b - 1]);
                    if b - 1 > i {
                        assert(lex_le(before[i as int].0@, before[b - 1].0@));
                        lemma_lex_trans(name@, before[i as int].0@, before[b - 1].0@);
                    }
                    if name@ == before[b - 1].0@ {
                        assert(before[b - 1].0@ != name@);
                    }
                } else if a < i {
                    assert(self.models@[a] == before[a] && self.models@[b] == before[b - 1]);
                    if b - 1 > i {
                        lemma_lex_trans(name@, before[i as int].0@, before[b - 1].0@);
                    }
                    lemma_lex_trans(before[a].0@, name@, before[b - 1].0@);
                } else {
                    assert(self.models@[a] == before[a - 1] && self.models@[b] == before[b - 1]);
                }
            }
        }
    }

    /// Checks budgets, the baseline ref, every model entry and the default lane.
    pub fn validate(&self) -> (r: Result<(), ConfigError>)
        ensures
            match r {
                Ok(()) => config_problem(*self) is None,
                Err(ConfigError::Invalid(m)) => config_problem(*self) == Some(m@),
                Err(_) => false,
            },
    {
        if self.gate.stage_timeout_secs == 0 {
            return Err(ConfigError::Invalid("gate.stage_timeout_secs must be greater than zero".to_owned()));
        }
        if self.agent.max_turns == 0 {
            return Err(ConfigError::Invalid("agent.max_turns must be greater than zero".to_owned()));
        }
        if let Some(baseline) = &self.gate.baseline {
            match validate_git_ref(baseline.as_str()) {
                Ok(()) => {},
                Err(m) => {
                    return Err(ConfigError::Invalid(m));
                },
            }
        }
        let mut i: usize = 0;
        while i < self.models.len()
            invariant
                i <= self.models.len(),
                self.gate.stage_timeout_secs != 0,
                self.agent.max_turns != 0,
                self.gate.baseline is Some ==> git_ref_problem(self.gate.baseline->0@) is None,
                models_problem(self.models@.subrange(0, i as int)) is None,
            decreases self.models.len() - i,
        {
            let ghost pre = self.models@.subrange(0, i as int);
            assert(self.models@.subrange(0, i + 1).drop_last() =~= pre);
            assert(self.models@.subrange(0, i + 1).last() == self.models@[i as int]);
            let name = &self.models[i].0;
            let profile = &self.models[i].1;
            if trim_str(profile.base_url.as_str()).len() == 0 {
                let m = cat3("models.", name.as_str(), ".base_url must not be empty");
                proof { lemma_models_problem_prefix(self.models@, i + 1); }
                return Err(ConfigError::Invalid(m));
            }
            if trim_str(profile.model.as_str()).len() == 0 {
                let m = cat3("models.", name.as_str(), ".model must not be empty");
                proof { lemma_models_problem_prefix(self.models@, i + 1); }
                return Err(ConfigError::Invalid(m));
            }
            i = i + 1;
        }
        assert(self.models@.subrange(0, self.models.len() as int) =~= self.models@);
        if let Some(lane) = &self.default_lane {
            if find_model(&self.models, lane.as_str()).is_none() {
                return Err(ConfigError::Invalid(cat3("default_lane \"", lane.as_str(), "\" has no matching models entry")));
            }
        }
        Ok(())
    }
}

/// A problem found in a prefix of the model entries is the problem of the whole list.
pub proof fn lemma_models_problem_prefix(models: Seq<(String, ModelProfile)>, k: int)
    requires
        0 <= k <= models.len(),
        models_problem(models.subrange(0, k)) is Some,
    ensures
        models_problem(models) == models_problem(models.subrange(0, k)),
    decreases models.len(),
{
    if k < models.len() {
        assert(models.drop_last().subrange(0, k) =~= models.subrange(0, k));
        lemma_models_problem_prefix(models.drop_last(), k);
    } else {
        assert(models.subrange(0, k) =~= models);
    }
}

} // verus!
