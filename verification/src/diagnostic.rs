use vstd::prelude::*;

use crate::text::{chars_of, is_control, is_ctrl, string_of};

verus! {

/// Schema tag carried by every diagnostic frame.
pub const DIAGNOSTIC_SCHEMA: &'static str = "heretek.diagnostic/1";

#[derive(Debug, Clone, Copy, PartialEq, Eq, Structural)]
pub enum Severity {
    Error,
    Warning,
    Note,
}

pub open spec fn severity_name(s: Severity) -> Seq<char> {
    match s {
        Severity::Error => "error"@,
        Severity::Warning => "warning"@,
        Severity::Note => "note"@,
    }
}

impl Severity {
    pub fn as_str(self) -> (r: &'static str)
        ensures
            r@ == severity_name(self),
    {
        match self {
            Severity::Error => "error",
            Severity::Warning => "warning",
            Severity::Note => "note",
        }
    }
}

#[derive(Debug, Clone, Copy, PartialEq, Eq, Structural)]
pub enum GateKind {
    Blocking,
    Advisory,
}

/// One normalized diagnostic frame.
#[derive(Debug, Clone)]
pub struct Diagnostic {
    pub schema: String,
    pub gate: String,
    pub severity: Severity,
    pub file: String,
    pub line: u32,
    pub column: u32,
    pub code: Option<String>,
    pub message: String,
    pub hint: Option<String>,
    pub context: Vec<String>,
    pub is_new: bool,
}

pub struct DiagnosticView {
    pub schema: Seq<char>,
    pub gate: Seq<char>,
    pub severity: Severity,
    pub file: Seq<char>,
    pub line: u32,
    pub column: u32,
    pub code: Option<Seq<char>>,
    pub message: Seq<char>,
    pub hint: Option<Seq<char>>,
    pub context: Seq<Seq<char>>,
    pub is_new: bool,
}

pub open spec fn opt_view(o: Option<String>) -> Option<Seq<char>> {
    match o {
        Some(s) => Some(s@),
        None => None,
    }
}

pub open spec fn strings_view(v: Seq<String>) -> Seq<Seq<char>> {
    v.map_values(|s: String| s@)
}

impl View for Diagnostic {
    type V = DiagnosticView;

    open spec fn view(&self) -> DiagnosticView {
        DiagnosticView {
            schema: self.schema@,
            gate: self.gate@,
            severity: self.severity,
            file: self.file@,
            line: self.line,
            column: self.column,
            code: opt_view(self.code),
            message: self.message@,
            hint: opt_view(self.hint),
            context: strings_view(self.context@),
            is_new: self.is_new,
        }
    }
}

pub open spec fn diagnostics_view(v: Seq<Diagnostic>) -> Seq<DiagnosticView> {
    v.map_values(|d: Diagnostic| d@)
}

pub open spec fn sanitize_char(c: char) -> char {
    if is_ctrl(c) && c != '\n' && c != '\t' {
        ' '
    } else {
        c
    }
}

/// Control characters other than newline and tab become spaces.
pub open spec fn sanitized(s: Seq<char>) -> Seq<char> {
    Seq::new(s.len(), |i: int| sanitize_char(s[i]))
}

/// Replaces control characters (other than newline and tab) with spaces.
pub fn sanitize(text: &str) -> (r: String)
    ensures
        r@ == sanitized(text@),
{
    let cs = chars_of(text);
    let mut out: Vec<char> = Vec::new();
    let mut i: usize = 0;
    while i < cs.len()
        invariant
            i <= cs.len(),
            cs@ == text@,
            out@ == sanitized(cs@.subrange(0, i as int)),
        decreases cs.len() - i,
    {
        let c = cs[i];
        let d = if is_control(c) && c != '\n' && c != '\t' {
            ' '
        } else {
            c
        };
        out.push(d);
        assert(out@ =~= sanitized(cs@.subrange(0, i + 1)));
        i = i + 1;
    }
    assert(cs@.subrange(0, cs.len() as int) =~= cs@);
    string_of(&out)
}

/// Whether a text holds no control character but newline and tab, so that no terminal escape
/// sequence can start in it.
pub open spec fn printable(s: Seq<char>) -> bool {
    forall|i: int| 0 <= i < s.len() ==> !is_ctrl(#[trigger] s[i]) || s[i] == '\n' || s[i] == '\t'
}

/// Frames carry no terminal escape codes: every text put into a frame (its gate, file, message,
/// hint and context lines) comes out printable, one character for one.
pub proof fn law_frame_text_is_printable(text: Seq<char>)
    ensures
        printable(sanitized(text)),
        sanitized(text).len() == text.len(),
        printable(text) ==> sanitized(text) == text,
{
    assert forall|i: int| 0 <= i < sanitized(text).len() implies !is_ctrl(#[trigger] sanitized(text)[i])
        || sanitized(text)[i] == '\n' || sanitized(text)[i] == '\t' by {
        assert(sanitized(text)[i] == sanitize_char(text[i]));
    }
    if printable(text) {
        assert(sanitized(text) =~= text);
    }
}

/// A frame as `Diagnostic::new` builds it.
pub open spec fn new_diagnostic_view(
    gate: Seq<char>,
    severity: Severity,
    file: Seq<char>,
    line: u32,
    column: u32,
    message: Seq<char>,
) -> DiagnosticView {
    DiagnosticView {
        schema: DIAGNOSTIC_SCHEMA@,
        gate: sanitized(gate),
        severity,
        file: sanitized(file),
        line,
        column,
        code: None,
        message: sanitized(message),
        hint: None,
        context: Seq::empty(),
        is_new: true,
    }
}

/// A copy of an optional string.
pub fn clone_opt(o: &Option<String>) -> (r: Option<String>)
    ensures
        r == *o,
{
    match o {
        Some(s) => Some(s.clone()),
        None => None,
    }
}

/// A copy of a list of strings.
pub fn clone_strings(v: &Vec<String>) -> (r: Vec<String>)
    ensures
        r@ == v@,
{
    let mut out: Vec<String> = Vec::new();
    let mut i: usize = 0;
    while i < v.len()
        invariant
            i <= v.len(),
            out@ == v@.subrange(0, i as int),
        decreases v.len() - i,
    {
        out.push(v[i].clone());
        assert(out@ =~= v@.subrange(0, i + 1));
        i = i + 1;
    }
    assert(v@.subrange(0, v.len() as int) =~= v@);
    out
}

impl Diagnostic {
    /// A field-by-field copy.
    pub fn duplicate(&self) -> (r: Self)
        ensures
            r@ == self@,
    {
        Diagnostic {
            schema: self.schema.clone(),
            gate: self.gate.clone(),
            severity: self.severity,
            file: self.file.clone(),
            line: self.line,
            column: self.column,
            code: clone_opt(&self.code),
            message: self.message.clone(),
            hint: clone_opt(&self.hint),
            context: clone_strings(&self.context),
            is_new: self.is_new,
        }
    }

    /// A new frame: text fields are sanitized, no code, hint or context, and it counts as new.
    pub fn new(gate: &str, severity: Severity, file: &str, line: u32, column: u32, message: &str) -> (r:
        Self)
        ensures
            r@ == new_diagnostic_view(gate@, severity, file@, line, column, message@),
    {
        let r = Diagnostic {
            schema: DIAGNOSTIC_SCHEMA.to_owned(),
            gate: sanitize(gate),
            severity,
            file: sanitize(file),
            line,
            column,
            code: None,
            message: sanitize(message),
            hint: None,
            context: Vec::new(),
            is_new: true,
        };
        assert(strings_view(r.context@) =~= Seq::<Seq<char>>::empty());
        r
    }

    /// Sets the hint (sanitized).
    pub fn with_hint(self, hint: &str) -> (r: Self)
        ensures
            r@ == (DiagnosticView { hint: Some(sanitized(hint@)), ..self@ }),
    {
        let mut d = self;
        d.hint = Some(sanitize(hint));
        d
    }

    /// Sets the context lines (each sanitized).
    pub fn with_context(self, context: Vec<String>) -> (r: Self)
        ensures
            r@ == (DiagnosticView {
                context: context@.map_values(|s: String| sanitized(s@)),
                ..self@
            }),
    {
        let mut lines: Vec<String> = Vec::new();
        let mut i: usize = 0;
        while i < context.len()
            invariant
                i <= context.len(),
                strings_view(lines@) == context@.subrange(0, i as int).map_values(
                    |s: String| sanitized(s@),
                ),
            decreases context.len() - i,
        {
            let ghost prev = lines@;
            let item = sanitize(context[i].as_str());
            lines.push(item);
            assert(lines@ == prev.push(item));
            assert(strings_view(lines@) =~= strings_view(prev).push(item@));
            assert(context@.subrange(0, i + 1).map_values(|s: String| sanitized(s@))
                =~= context@.subrange(0, i as int).map_values(|s: String| sanitized(s@)).push(
                sanitized(context@[i as int]@),
            ));
            i = i + 1;
        }
        assert(context@.subrange(0, context.len() as int) =~= context@);
        let mut d = self;
        d.context = lines;
        d
    }
}

} // verus!
