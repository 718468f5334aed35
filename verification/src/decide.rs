use vstd::prelude::*;

use crate::profile::Lane;
use crate::text::{chars_of, contains, contains_seq, lower_seq, to_lower};

verus! {

#[derive(Debug, Clone, Copy, PartialEq, Eq, PartialOrd, Ord, Structural)]
pub enum RiskTier {
    Low,
    Medium,
    High,
}

/// A routing decision together with the reason code that explains it.
#[derive(Debug, Clone, Copy)]
pub struct Decision<T> {
    pub value: T,
    pub reason: &'static str,
}

impl<T> Decision<T> {
    pub fn new(value: T, reason: &'static str) -> (r: Self)
        ensures
            r.value == value,
            r.reason == reason,
    {
        Decision { value, reason }
    }
}

/// Metadata of a proposed change.
#[derive(Debug, Clone, Default)]
pub struct ChangeSummary {
    pub paths: Vec<String>,
    pub files_changed: usize,
    pub lines_changed: usize,
    pub touches_tests: bool,
    pub touches_dependencies: bool,
}

/// Some path, lower-cased, contains some needle.
pub open spec fn touches_any_spec(paths: Seq<String>, needles: Seq<&str>) -> bool {
    exists|i: int, j: int|
        0 <= i < paths.len() && 0 <= j < needles.len() && contains_seq(
            lower_seq(#[trigger] paths[i]@),
            #[trigger] needles[j]@,
        )
}

fn lowered(s: &str) -> (r: Vec<char>)
    ensures
        r@ == lower_seq(s@),
{
    let cs = chars_of(s);
    let mut out: Vec<char> = Vec::new();
    let mut i: usize = 0;
    while i < cs.len()
        invariant
            i <= cs.len(),
            cs@ == s@,
            out@ == lower_seq(cs@.subrange(0, i as int)),
        decreases cs.len() - i,
    {
        out.push(to_lower(cs[i]));
        assert(out@ =~= lower_seq(cs@.subrange(0, i + 1)));
        i = i + 1;
    }
    assert(cs@.subrange(0, cs.len() as int) =~= cs@);
    out
}

impl ChangeSummary {
    /// Whether any changed path (ASCII lower-cased) contains any of the needles.
    pub fn touches_any(&self, needles: &[&str]) -> (r: bool)
        ensures
            r == touches_any_spec(self.paths@, needles@),
    {
        let mut i: usize = 0;
        while i < self.paths.len()
            invariant
                i <= self.paths.len(),
                forall|a: int, b: int|
                    0 <= a < i && 0 <= b < needles@.len() ==> !contains_seq(
                        lower_seq(#[trigger] self.paths@[a]@),
                        #[trigger] needles@[b]@,
                    ),
            decreases self.paths.len() - i,
        {
            let low = lowered(self.paths[i].as_str());
            let mut j: usize = 0;
            while j < needles.len()
                invariant
                    i < self.paths.len(),
                    j <= needles@.len(),
                    low@ == lower_seq(self.paths@[i as int]@),
                    forall|b: int|
                        0 <= b < j ==> !contains_seq(
                            lower_seq(self.paths@[i as int]@),
                            #[trigger] needles@[b]@,
                        ),
                decreases needles@.len() - j,
            {
                let needle = chars_of(needles[j]);
                if contains(&low, &needle) {
                    assert(contains_seq(lower_seq(self.paths@[i as int]@), needles@[j as int]@));
                    return true;
                }
                j = j + 1;
            }
            i = i + 1;
        }
        false
    }
}

/// Routing decisions over change metadata.
pub trait Decider {
    fn risky_change(&self, change: &ChangeSummary) -> Decision<RiskTier>;

    fn lane_for(&self, risk: RiskTier) -> Decision<Lane>;
}

/// The deterministic heuristics of the first version.
#[derive(Debug, Clone, Copy, Default)]
pub struct HeuristicDecider;

/// Path fragments whose presence marks a change as high risk.
pub open spec fn high_risk_paths() -> Seq<&'static str> {
    seq!["auth", "migration", "migrations", ".github/", "dockerfile", "lock", "ci/", "infra"]
}

fn high_risk_path_list() -> (r: Vec<&'static str>)
    ensures
        r@ == high_risk_paths(),
{
    vec!["auth", "migration", "migrations", ".github/", "dockerfile", "lock", "ci/", "infra"]
}

/// The risk tier and reason that the heuristics assign to a change.
pub open spec fn risk_of(change: ChangeSummary) -> (RiskTier, Seq<char>) {
    if change.touches_dependencies {
        (RiskTier::High, "dependency change"@)
    } else if touches_any_spec(change.paths@, high_risk_paths()) {
        (RiskTier::High, "high-risk path touched"@)
    } else if change.lines_changed > 400 || change.files_changed > 20 {
        (RiskTier::High, "large change"@)
    } else if change.lines_changed < 50 && change.touches_tests {
        (RiskTier::Low, "small change with test coverage"@)
    } else {
        (RiskTier::Medium, "unclassified change"@)
    }
}

/// The lane and reason that the heuristics assign to a risk tier.
pub open spec fn lane_of(risk: RiskTier) -> (Lane, Seq<char>) {
    match risk {
        RiskTier::High => (Lane::Deep, "high risk escalates to deep lane"@),
        _ => (Lane::Fast, "risk within fast lane"@),
    }
}

impl Decider for HeuristicDecider {
    fn risky_change(&self, change: &ChangeSummary) -> (r: Decision<RiskTier>)
        ensures
            r.value == risk_of(*change).0,
            r.reason@ == risk_of(*change).1,
    {
        if change.touches_dependencies {
            return Decision::new(RiskTier::High, "dependency change");
        }
        let needles = high_risk_path_list();
        if change.touches_any(needles.as_slice()) {
            return Decision::new(RiskTier::High, "high-risk path touched");
        }
        if change.lines_changed > 400 || change.files_changed > 20 {
            return Decision::new(RiskTier::High, "large change");
        }
        if change.lines_changed < 50 && change.touches_tests {
            return Decision::new(RiskTier::Low, "small change with test coverage");
        }
        Decision::new(RiskTier::Medium, "unclassified change")
    }

    fn lane_for(&self, risk: RiskTier) -> (r: Decision<Lane>)
        ensures
            r.value == lane_of(risk).0,
            r.reason@ == lane_of(risk).1,
    {
        match risk {
            RiskTier::Low | RiskTier::Medium => Decision::new(Lane::Fast, "risk within fast lane"),
            RiskTier::High => Decision::new(Lane::Deep, "high risk escalates to deep lane"),
        }
    }
}

/// Whether a path, lower-cased, names something risky to change: credentials ("auth"), schema
/// migrations, CI or infrastructure (".github/", "ci/", "infra", "dockerfile") or a lock file.
pub open spec fn risky_path(p: Seq<char>) -> bool {
    let l = lower_seq(p);
    contains_seq(l, "auth"@) || contains_seq(l, "migration"@) || contains_seq(l, ".github/"@)
        || contains_seq(l, "dockerfile"@) || contains_seq(l, "lock"@) || contains_seq(l, "ci/"@)
        || contains_seq(l, "infra"@)
}

proof fn lemma_touches_risky(change: ChangeSummary)
    ensures
        touches_any_spec(change.paths@, high_risk_paths()) <==> exists|i: int|
            0 <= i < change.paths@.len() && risky_path(#[trigger] change.paths@[i]@),
{
    let n = high_risk_paths();
    if touches_any_spec(change.paths@, n) {
        let (i, j) = choose|i: int, j: int|
            0 <= i < change.paths@.len() && 0 <= j < n.len() && contains_seq(lower_seq(#[trigger] change.paths@[i]@), #[trigger] n[j]@);
        let l = lower_seq(change.paths@[i]@);
        if j == 2 {
            let k = choose|k: int| crate::text::has_at(l, n[2]@, k);
            reveal_strlit("migrations");
            reveal_strlit("migration");
            assert(n[2]@ == "migrations"@);
            assert(l.subrange(k, k + 10) == "migrations"@);
            assert(l.subrange(k, k + 9) =~= "migration"@);
            assert(crate::text::has_at(l, "migration"@, k));
        }
        assert(risky_path(change.paths@[i]@));
    }
    if exists|i: int| 0 <= i < change.paths@.len() && risky_path(#[trigger] change.paths@[i]@) {
        let i = choose|i: int| 0 <= i < change.paths@.len() && risky_path(#[trigger] change.paths@[i]@);
        let l = lower_seq(change.paths@[i]@);
        let j: int = if contains_seq(l, "auth"@) { 0 } else if contains_seq(l, "migration"@) { 1 }
            else if contains_seq(l, ".github/"@) { 3 } else if contains_seq(l, "dockerfile"@) { 4 }
            else if contains_seq(l, "lock"@) { 5 } else if contains_seq(l, "ci/"@) { 6 } else { 7 };
        assert(contains_seq(lower_seq(change.paths@[i]@), n[j]@));
    }
}

/// How the heuristics rank a change. A dependency change is high risk; so is a change to a
/// risky path (see `risky_path`); so is a large change, more than 400 changed lines or more
/// than 20 changed files. Otherwise a change under 50 lines that touches tests is low risk,
/// and anything else medium.
pub proof fn law_risk_routing(change: ChangeSummary)
    ensures
        change.touches_dependencies ==> risk_of(change) == (RiskTier::High, "dependency change"@),
        !change.touches_dependencies && (exists|i: int| 0 <= i < change.paths@.len() && risky_path(#[trigger] change.paths@[i]@))
            ==> risk_of(change) == (RiskTier::High, "high-risk path touched"@),
        change.lines_changed > 400 || change.files_changed > 20 ==> risk_of(change).0 == RiskTier::High,
        !change.touches_dependencies && (forall|i: int| 0 <= i < change.paths@.len() ==> !risky_path(#[trigger] change.paths@[i]@))
            ==> risk_of(change) == if change.lines_changed > 400 || change.files_changed > 20 {
                (RiskTier::High, "large change"@)
            } else if change.lines_changed < 50 && change.touches_tests {
                (RiskTier::Low, "small change with test coverage"@)
            } else {
                (RiskTier::Medium, "unclassified change"@)
            },
{
    lemma_touches_risky(change);
}

/// Risk routes to the fast or the deep lane only, and to the deep lane exactly for high risk.
pub proof fn law_deep_lane_only_for_high_risk(risk: RiskTier)
    ensures
        lane_of(risk).0 == Lane::Deep <==> risk == RiskTier::High,
        lane_of(risk).0 != Lane::Micro,
{
}

} // verus!
