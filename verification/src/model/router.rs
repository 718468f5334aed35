use vstd::prelude::*;

use crate::config::{find_model, has_model, HereConfig};
use crate::decide::{lane_of, Decider, HeuristicDecider, RiskTier};
use crate::model::error::ModelError;
use crate::model::types::{health_from, ModelHealth};
use crate::profile::{Lane, ModelProfile};
use crate::text::{cat, lemma_lex_total, lemma_lex_trans, lex_le, push_str, str_le, str_owned};

verus! {

/// Picks model lanes from the configuration.
pub struct Router {
    pub config: HereConfig,
}

/// The entry names joined with ", ".
pub open spec fn joined_names(models: Seq<(String, ModelProfile)>) -> Seq<char>
    decreases models.len(),
{
    if models.len() == 0 {
        Seq::empty()
    } else if models.len() == 1 {
        models[0].0@
    } else {
        joined_names(models.drop_last()) + ", "@ + models.last().0@
    }
}

/// The message for a lane that has no entry.
pub open spec fn unknown_lane_text(lane: Seq<char>, models: Seq<(String, ModelProfile)>) -> Seq<char> {
    if models.len() == 0 {
        "lane \""@ + lane + "\" is not configured; no models configured"@
    } else {
        "lane \""@ + lane + "\" is not configured (available: "@ + joined_names(models) + ")"@
    }
}

/// Entry `i` has a name no greater than any other entry's.
pub open spec fn is_least(models: Seq<(String, ModelProfile)>, i: int) -> bool {
    0 <= i < models.len() && forall|j: int| 0 <= j < models.len() ==> lex_le(models[i].0@, #[trigger] models[j].0@)
}

/// The first entry whose name is the least (in `String` order).
pub open spec fn first_least(models: Seq<(String, ModelProfile)>) -> int {
    choose|i: int| is_least(models, i) && forall|j: int| 0 <= j < i ==> !is_least(models, j)
}

/// The lane used when none is asked for: the configured default, else "fast" when it has an
/// entry, else the least entry name.
pub open spec fn default_lane_of(c: HereConfig) -> Option<Seq<char>> {
    match c.default_lane {
        Some(l) => Some(l@),
        None => if has_model(c.models@, "fast"@) {
            Some("fast"@)
        } else if c.models@.len() > 0 {
            Some(c.models@[first_least(c.models@)].0@)
        } else {
            None
        },
    }
}

/// The index of the first entry with the least name.
fn least_entry(models: &Vec<(String, ModelProfile)>) -> (r: usize)
    requires
        models@.len() > 0,
    ensures
        r == first_least(models@),
        r < models@.len(),
{
    let mut best: usize = 0;
    let mut k: usize = 1;
    proof {
        lemma_lex_total(models@[0].0@, models@[0].0@);
    }
    while k < models.len()
        invariant
            1 <= k <= models.len(),
            best < k,
            forall|j: int| 0 <= j < k ==> lex_le(models@[best as int].0@, #[trigger] models@[j].0@),
            forall|j: int| 0 <= j < best ==> !lex_le(#[trigger] models@[j].0@, models@[best as int].0@),
        decreases models.len() - k,
    {
        if !str_le(models[best].0.as_str(), models[k].0.as_str()) {
            let ghost b = models@[best as int].0@;
            let ghost m = models@[k as int].0@;
            proof {
                lemma_lex_total(b, m);
                assert forall|j: int| 0 <= j < k + 1 implies lex_le(m, #[trigger] models@[j].0@) by {
                    if j < k {
                        lemma_lex_trans(m, b, models@[j].0@);
                    }
                    if j == k {
                        lemma_lex_total(m, m);
                    }
                }
                assert forall|j: int| 0 <= j < k implies !lex_le(#[trigger] models@[j].0@, m) by {
                    if lex_le(models@[j].0@, m) {
                        lemma_lex_trans(b, models@[j].0@, m);
                    }
                }
            }
            best = k;
        }
        k = k + 1;
    }
    proof {
        let m = models@;
        assert(is_least(m, best as int));
        assert forall|j: int| 0 <= j < best implies !is_least(m, j) by {
            assert(!lex_le(m[j].0@, m[best as int].0@));
        }
        let c = first_least(m);
        assert(is_least(m, c) && forall|j: int| 0 <= j < c ==> !is_least(m, j));
        if c < best {
            assert(!is_least(m, c));
        }
        if c > best {
            assert(!is_least(m, best as int));
        }
    }
    best
}

fn joined(models: &Vec<(String, ModelProfile)>) -> (r: String)
    ensures
        r@ == joined_names(models@),
{
    let mut s = String::new();
    let mut i: usize = 0;
    while i < models.len()
        invariant
            i <= models.len(),
            s@ == joined_names(models@.take(i as int)),
        decreases models.len() - i,
    {
        assert(models@.take(i + 1).drop_last() =~= models@.take(i as int));
        if i > 0 {
            push_str(&mut s, ", ");
        }
        push_str(&mut s, models[i].0.as_str());
        assert(s@ =~= joined_names(models@.take(i + 1)));
        i = i + 1;
    }
    assert(models@.take(models.len() as int) =~= models@);
    s
}

impl Router {
    pub fn new(config: HereConfig) -> (r: Self)
        ensures
            r.config == config,
    {
        Router { config }
    }

    /// The profile of a lane, or why there is none.
    pub fn profile_for(&self, lane: &str) -> (r: Result<&ModelProfile, ModelError>)
        ensures
            match r {
                Ok(p) => exists|i: int| 0 <= i < self.config.models.len()
                    && self.config.models@[i].0@ == lane@ && self.config.models@[i].1 == *p,
                Err(e) => !has_model(self.config.models@, lane@)
                    && (e matches ModelError::Config(m) && m@ == unknown_lane_text(lane@, self.config.models@)),
            },
    {
        match find_model(&self.config.models, lane) {
            Some(i) => Ok(&self.config.models[i].1),
            None => {
                if self.config.models.len() == 0 {
                    let mut m = cat("lane \"", lane);
                    push_str(&mut m, "\" is not configured; no models configured");
                    Err(ModelError::Config(m))
                } else {
                    let mut m = cat("lane \"", lane);
                    push_str(&mut m, "\" is not configured (available: ");
                    push_str(&mut m, joined(&self.config.models).as_str());
                    push_str(&mut m, ")");
                    Err(ModelError::Config(m))
                }
            },
        }
    }

    pub fn default_lane(&self) -> (r: Result<&str, ModelError>)
        ensures
            match r {
                Ok(l) => default_lane_of(self.config) == Some(l@),
                Err(e) => default_lane_of(self.config) is None
                    && (e matches ModelError::Config(m) && m@ == "no models configured"@),
            },
    {
        match &self.config.default_lane {
            Some(l) => Ok(l.as_str()),
            None => {
                if find_model(&self.config.models, "fast").is_some() {
                    Ok("fast")
                } else if self.config.models.len() > 0 {
                    Ok(self.config.models[least_entry(&self.config.models)].0.as_str())
                } else {
                    Err(ModelError::Config(str_owned("no models configured")))
                }
            },
        }
    }

    /// "deep" for the risk tiers the heuristics send to the deep lane, else "fast".
    pub fn lane_for_risk(&self, risk: RiskTier) -> (r: &'static str)
        ensures
            r@ == (if lane_of(risk).0 == Lane::Deep { "deep"@ } else { "fast"@ }),
    {
        let decider = HeuristicDecider;
        match decider.lane_for(risk).value {
            Lane::Deep => "deep",
            Lane::Fast | Lane::Micro => "fast",
        }
    }

    /// Pairs each configured lane with the health its probe gave (`outcomes` in the order of the
    /// entries; an error means the lane's client could not be made), sorted by lane name.
    pub fn probe(&self, outcomes: Vec<Result<ModelHealth, String>>) -> (r: Vec<(String, ModelHealth)>)
        requires
            outcomes.len() == self.config.models.len(),
        ensures
            r.len() == outcomes.len(),
            keys_sorted(health_pairs(r@)),
            exists|hs: Seq<ModelHealth>| {
                &&& hs.len() == outcomes.len()
                &&& forall|i: int| 0 <= i < hs.len() ==> health_from(#[trigger] hs[i], outcomes@[i])
                &&& health_pairs(r@).to_multiset() == Seq::new(hs.len(), |i: int| (self.config.models@[i].0@, hs[i])).to_multiset()
            },
    {
        let mut out: Vec<(String, ModelHealth)> = Vec::new();
        let mut rest = outcomes;
        assert(rest@.subrange(0, rest@.len() as int) =~= rest@);
        let ghost all = rest@;
        let ghost mut hs: Seq<ModelHealth> = Seq::empty();
        let mut i: usize = 0;
        while i < self.config.models.len()
            invariant
                i <= self.config.models.len(),
                all.len() == self.config.models.len(),
                rest@ == all.subrange(i as int, all.len() as int),
                out.len() == i,
                hs.len() == i,
                forall|k: int| 0 <= k < i ==> health_from(#[trigger] hs[k], all[k]),
                forall|k: int| 0 <= k < i ==> (#[trigger] out@[k]).0@ == self.config.models@[k].0@
                    && out@[k].1 == hs[k],
            decreases self.config.models.len() - i,
        {
            let o = rest.remove(0);
            assert(o == all[i as int]);
            let h = match o {
                Ok(h) => h,
                Err(e) => ModelHealth::unreachable(e),
            };
            proof {
                hs = hs.push(h);
            }
            out.push((str_owned(self.config.models[i].0.as_str()), h));
            assert(rest@ =~= all.subrange(i + 1, all.len() as int));
            i = i + 1;
        }
        assert(health_pairs(out@) =~= Seq::new(hs.len(), |i: int| (self.config.models@[i].0@, hs[i])));
        sort_by_name(out)
    }
}

/// Name and health of each entry, as plain values.
pub open spec fn health_pairs(v: Seq<(String, ModelHealth)>) -> Seq<(Seq<char>, ModelHealth)> {
    v.map_values(|p: (String, ModelHealth)| (p.0@, p.1))
}

/// The entries are in name order.
pub open spec fn keys_sorted(v: Seq<(Seq<char>, ModelHealth)>) -> bool {
    forall|i: int, j: int| 0 <= i < j < v.len() ==> lex_le(v[i].0, v[j].0)
}

/// The same entries, sorted by name.
fn sort_by_name(v: Vec<(String, ModelHealth)>) -> (r: Vec<(String, ModelHealth)>)
    ensures
        r.len() == v.len(),
        keys_sorted(health_pairs(r@)),
        health_pairs(r@).to_multiset() == health_pairs(v@).to_multiset(),
{
    broadcast use vstd::multiset::group_multiset_axioms;
    let ghost all = health_pairs(v@);
    let mut rest = v;
    let mut out: Vec<(String, ModelHealth)> = Vec::new();
    proof {
        let e = health_pairs(out@);
        assert(e =~= Seq::<(Seq<char>, ModelHealth)>::empty());
        vstd::seq_lib::to_multiset_len(e);
        vstd::multiset::lemma_multiset_empty_len(e.to_multiset());
        assert(e.to_multiset().add(all.to_multiset()) =~= all.to_multiset());
    }
    while rest.len() > 0
        invariant
            keys_sorted(health_pairs(out@)),
            health_pairs(out@).to_multiset().add(health_pairs(rest@).to_multiset()) == all.to_multiset(),
            out.len() + rest.len() == all.len(),
        decreases rest.len(),
    {
        let ghost before = health_pairs(rest@);
        let x = rest.remove(0);
        let ghost xv = (x.0@, x.1);
        proof {
            assert(health_pairs(rest@) =~= before.remove(0));
            vstd::seq_lib::to_multiset_remove(before, 0);
            assert(before[0] == xv);
            assert(before.contains(xv));
            vstd::seq_lib::to_multiset_contains(before, xv);
        }
        let ghost prev = health_pairs(out@);
        let mut j: usize = 0;
        while j < out.len() && str_le(out[j].0.as_str(), x.0.as_str())
            invariant
                j <= out.len(),
                prev == health_pairs(out@),
                forall|k: int| 0 <= k < j ==> lex_le(#[trigger] prev[k].0, x.0@),
            decreases out.len() - j,
        {
            j = j + 1;
        }
        proof {
            if j < out.len() {
                lemma_lex_total(prev[j as int].0, x.0@);
            }
            assert forall|k: int| j <= k < prev.len() implies lex_le(x.0@, #[trigger] prev[k].0) by {
                if k > j {
                    lemma_lex_trans(x.0@, prev[j as int].0, prev[k].0);
                }
            }
        }
        out.insert(j, x);
        proof {
            let now = health_pairs(out@);
            assert(now =~= prev.insert(j as int, xv));
            vstd::seq_lib::to_multiset_insert(prev, j as int, xv);
            assert forall|a: int, b: int| 0 <= a < b < now.len() implies lex_le(now[a].0, now[b].0) by {
                if b == j {
                    assert(now[a] == prev[a]);
                } else if a == j {
                    assert(now[b] == prev[b - 1]);
                } else if a < j && b > j {
                    assert(now[a] == prev[a]);
                    assert(now[b] == prev[b - 1]);
                    lemma_lex_trans(prev[a].0, xv.0, prev[b - 1].0);
                } else if b < j {
                    assert(now[a] == prev[a] && now[b] == prev[b]);
                } else {
                    assert(now[a] == prev[a - 1] && now[b] == prev[b - 1]);
                }
            }
            assert(now.to_multiset().add(health_pairs(rest@).to_multiset()) =~= all.to_multiset());
        }
    }
    proof {
        let e = health_pairs(rest@);
        vstd::seq_lib::to_multiset_len(e);
        vstd::multiset::lemma_multiset_empty_len(e.to_multiset());
    }
    assert(health_pairs(out@).to_multiset().add(health_pairs(rest@).to_multiset()) =~= health_pairs(out@).to_multiset());
    out
}

} // verus!
