pub mod ast_grep;
pub mod deps;
pub mod format;
pub mod knip;
pub mod semgrep;
pub mod syntax;
pub mod tests;
pub mod typecheck;
pub mod util;

use vstd::prelude::*;

use crate::config::{GateConfig, StageToggles};
use crate::diagnostic::GateKind;

verus! {

/// The stages a pipeline can hold, in the order they run.
#[derive(Debug, Clone, Copy, PartialEq, Eq, Structural)]
pub enum StageId {
    Syntax,
    Format,
    Typecheck,
    Tests,
    AstGrep,
    Secrets,
    Sast,
    DeadCode,
    Deps,
}

/// The name a stage reports under.
pub open spec fn stage_name(id: StageId) -> Seq<char> {
    match id {
        StageId::Syntax => "syntax"@,
        StageId::Format => "format"@,
        StageId::Typecheck => "typecheck"@,
        StageId::Tests => "tests"@,
        StageId::AstGrep => "ast-grep"@,
        StageId::Secrets => "secrets"@,
        StageId::Sast => "sast"@,
        StageId::DeadCode => "knip"@,
        StageId::Deps => "deps"@,
    }
}

/// Whether a stage's findings block: the grammar, format, type, test and structural-rule
/// stages block; the secret, SAST, dead-code and dependency scans advise.
pub open spec fn stage_kind(id: StageId) -> GateKind {
    match id {
        StageId::Syntax | StageId::Format | StageId::Typecheck | StageId::Tests | StageId::AstGrep => GateKind::Blocking,
        StageId::Secrets | StageId::Sast | StageId::DeadCode | StageId::Deps => GateKind::Advisory,
    }
}

pub open spec fn keep(on: bool, id: StageId) -> Seq<StageId> {
    if on {
        seq![id]
    } else {
        Seq::empty()
    }
}

/// The enabled stages, in run order.
pub open spec fn enabled_stages_spec(t: StageToggles) -> Seq<StageId> {
    keep(t.syntax, StageId::Syntax) + keep(t.format, StageId::Format) + keep(t.typecheck, StageId::Typecheck)
        + keep(t.tests, StageId::Tests) + keep(t.ast_grep, StageId::AstGrep) + keep(t.secrets, StageId::Secrets)
        + keep(t.sast, StageId::Sast) + keep(t.dead_code, StageId::DeadCode) + keep(t.deps, StageId::Deps)
}

fn push_if(v: &mut Vec<StageId>, on: bool, id: StageId)
    ensures
        final(v)@ == old(v)@ + keep(on, id),
{
    if on {
        v.push(id);
        assert(final(v)@ =~= old(v)@ + keep(on, id));
    } else {
        assert(old(v)@ + keep(on, id) =~= old(v)@);
    }
}

pub fn enabled_stages(config: &GateConfig) -> (r: Vec<StageId>)
    ensures
        r@ == enabled_stages_spec(config.stages),
{
    let t = &config.stages;
    let mut v: Vec<StageId> = Vec::new();
    push_if(&mut v, t.syntax, StageId::Syntax);
    push_if(&mut v, t.format, StageId::Format);
    push_if(&mut v, t.typecheck, StageId::Typecheck);
    push_if(&mut v, t.tests, StageId::Tests);
    push_if(&mut v, t.ast_grep, StageId::AstGrep);
    push_if(&mut v, t.secrets, StageId::Secrets);
    push_if(&mut v, t.sast, StageId::Sast);
    push_if(&mut v, t.dead_code, StageId::DeadCode);
    push_if(&mut v, t.deps, StageId::Deps);
    assert(v@ =~= enabled_stages_spec(config.stages));
    v
}

} // verus!
