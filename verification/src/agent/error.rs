use vstd::prelude::*;

use crate::config::{config_error_text, ConfigError};
use crate::diagnostic::{diagnostics_view, severity_name, DiagnosticView, GateKind};
use crate::model::error::{model_error_text, ModelError};
use crate::report::{stages_view, GateReport, StageReportView};
use crate::stage::{gate_error_text, GateError};
use crate::text::{cat, decimal, decimal_string, join, joined, push_str};

verus! {

/// Why a session could not run.
#[derive(Debug)]
pub enum AgentError {
    Config(ConfigError),
    Model(ModelError),
    Gate(GateError),
    Io(String),
    NoLane(String),
    Session(String),
}

pub open spec fn agent_error_text(e: AgentError) -> Seq<char> {
    match e {
        AgentError::Config(c) => "config error: "@ + config_error_text(c),
        AgentError::Model(m) => "model error: "@ + model_error_text(m),
        AgentError::Gate(g) => "gate error: "@ + gate_error_text(g),
        AgentError::Io(m) => "io error: "@ + m@,
        AgentError::NoLane(m) => "no lane available: "@ + m@,
        AgentError::Session(m) => "session error: "@ + m@,
    }
}

impl AgentError {
    /// The error's message.
    pub fn text(&self) -> (r: String)
        ensures
            r@ == agent_error_text(*self),
    {
        match self {
            AgentError::Config(c) => cat("config error: ", c.text().as_str()),
            AgentError::Model(m) => cat("model error: ", m.text().as_str()),
            AgentError::Gate(g) => cat("gate error: ", g.text().as_str()),
            AgentError::Io(m) => cat("io error: ", m.as_str()),
            AgentError::NoLane(m) => cat("no lane available: ", m.as_str()),
            AgentError::Session(m) => cat("session error: ", m.as_str()),
        }
    }
}

/// One line of gate feedback for a new diagnostic of stage `stage`.
pub open spec fn frame_line(stage: Seq<char>, d: DiagnosticView) -> Seq<char> {
    let hint = match d.hint {
        Some(h) => " hint: "@ + h,
        None => Seq::empty(),
    };
    let code = match d.code {
        Some(c) => c,
        None => Seq::empty(),
    };
    if d.file.len() == 0 {
        "["@ + stage + "] "@ + severity_name(d.severity) + ": "@ + d.message + hint
    } else {
        "["@ + stage + "] "@ + d.file + ":"@ + decimal(d.line as nat) + ":"@ + decimal(d.column as nat) + " "@
            + severity_name(d.severity) + " "@ + code + ": "@ + d.message + hint
    }
}

/// The lines for the new diagnostics among `ds`, in order.
pub open spec fn new_lines(stage: Seq<char>, ds: Seq<DiagnosticView>) -> Seq<Seq<char>>
    decreases ds.len(),
{
    if ds.len() == 0 {
        Seq::empty()
    } else if ds.last().is_new {
        new_lines(stage, ds.drop_last()).push(frame_line(stage, ds.last()))
    } else {
        new_lines(stage, ds.drop_last())
    }
}

/// The lines of all blocking stages, in stage order.
pub open spec fn frame_lines(stages: Seq<StageReportView>) -> Seq<Seq<char>>
    decreases stages.len(),
{
    if stages.len() == 0 {
        Seq::empty()
    } else if stages.last().kind == GateKind::Blocking {
        frame_lines(stages.drop_last()) + new_lines(stages.last().id, stages.last().diagnostics)
    } else {
        frame_lines(stages.drop_last())
    }
}

fn frame_text(stage: &str, d: &crate::diagnostic::Diagnostic) -> (r: String)
    ensures
        r@ == frame_line(stage@, d@),
{
    let mut s = cat("[", stage);
    push_str(&mut s, "] ");
    if d.file.as_str().is_empty() {
        push_str(&mut s, d.severity.as_str());
        push_str(&mut s, ": ");
    } else {
        push_str(&mut s, d.file.as_str());
        push_str(&mut s, ":");
        push_str(&mut s, decimal_string(d.line as u64).as_str());
        push_str(&mut s, ":");
        push_str(&mut s, decimal_string(d.column as u64).as_str());
        push_str(&mut s, " ");
        push_str(&mut s, d.severity.as_str());
        push_str(&mut s, " ");
        match &d.code {
            Some(c) => push_str(&mut s, c.as_str()),
            None => {},
        }
        push_str(&mut s, ": ");
    }
    push_str(&mut s, d.message.as_str());
    match &d.hint {
        Some(h) => {
            push_str(&mut s, " hint: ");
            push_str(&mut s, h.as_str());
        },
        None => {},
    }
    s
}

/// The feedback the model gets for a rejected change: one line per new diagnostic of a
/// blocking stage.
pub fn blocking_frames(report: &GateReport) -> (r: String)
    ensures
        r@ == joined(frame_lines(stages_view(report.stages@)), "\n"@),
{
    let mut lines: Vec<String> = Vec::new();
    let mut i: usize = 0;
    while i < report.stages.len()
        invariant
            i <= report.stages.len(),
            crate::diagnostic::strings_view(lines@) == frame_lines(stages_view(report.stages@.take(i as int))),
        decreases report.stages.len() - i,
    {
        assert(stages_view(report.stages@.take(i + 1)).drop_last() =~= stages_view(report.stages@.take(i as int)));
        let stage = &report.stages[i];
        if stage.kind == GateKind::Blocking {
            let ghost base = crate::diagnostic::strings_view(lines@);
            let mut j: usize = 0;
            while j < stage.diagnostics.len()
                invariant
                    j <= stage.diagnostics.len(),
                    crate::diagnostic::strings_view(lines@) == base
                        + new_lines(stage.id@, diagnostics_view(stage.diagnostics@.take(j as int))),
                decreases stage.diagnostics.len() - j,
            {
                assert(diagnostics_view(stage.diagnostics@.take(j + 1)).drop_last()
                    =~= diagnostics_view(stage.diagnostics@.take(j as int)));
                let d = &stage.diagnostics[j];
                if d.is_new {
                    let line = frame_text(stage.id.as_str(), d);
                    let ghost before = lines@;
                    lines.push(line);
                    assert(crate::diagnostic::strings_view(lines@)
                        =~= crate::diagnostic::strings_view(before).push(line@));
                }
                assert(crate::diagnostic::strings_view(lines@) =~= base
                    + new_lines(stage.id@, diagnostics_view(stage.diagnostics@.take(j + 1))));
                j = j + 1;
            }
            assert(stage.diagnostics@.take(stage.diagnostics.len() as int) =~= stage.diagnostics@);
        }
        i = i + 1;
    }
    assert(report.stages@.take(report.stages.len() as int) =~= report.stages@);
    join(&lines, "\n")
}

} // verus!
