use vstd::prelude::*;

use crate::stages::{stage_kind, stage_name, StageId};

use crate::agent::context::first_n;
use crate::config::{str_eq, GateConfig};
use crate::diagnostic::{diagnostics_view, new_diagnostic_view, strings_view, Diagnostic, DiagnosticView, GateKind, Severity};
use crate::report::StageStatus;
use crate::stage::{GateContext, StageOutcome};
use crate::stages::tests::file_name;
use crate::stages::util::{diagnostic, filter_ts, ts_files};
use crate::text::{cat, chars_of, push_str, str_owned, string_of};

verus! {

/// A parse check of changed script files with tree-sitter (blocking).
pub struct SyntaxStage;

/// The grammar a file is parsed with.
#[derive(Debug, Clone, Copy, PartialEq, Eq, Structural)]
pub enum SourceLanguage {
    Tsx,
    TypeScript,
    JavaScript,
}

/// A node of a parse tree: its kind, whether it is an error or a missing token, and where it
/// starts (0-based row and column). A tree is held as its nodes in pre-order.
#[derive(Debug)]
pub struct SyntaxNode {
    pub kind: String,
    pub is_error: bool,
    pub is_missing: bool,
    pub row: usize,
    pub column: usize,
}

/// The nodes of the parse tree tree-sitter builds for `source` with the grammar of
/// `language`, in pre-order (a node, then each child's nodes in turn), when it builds one.
pub uninterp spec fn syntax_tree(language: SourceLanguage, source: Seq<char>) -> Option<Seq<SyntaxNode>>;

/// Parses with tree-sitter: `Parser::set_language` with the grammar, then `Parser::parse`;
/// the tree's nodes are copied in pre-order.
#[verifier::external_body]
pub fn parse_source(language: SourceLanguage, source: &str) -> (r: Option<Vec<SyntaxNode>>)
    ensures
        match r {
            Some(nodes) => syntax_tree(language, source@) == Some(nodes@),
            None => syntax_tree(language, source@) is None,
        },
{
    let grammar: tree_sitter::Language = match language {
        SourceLanguage::Tsx => tree_sitter_typescript::LANGUAGE_TSX.into(),
        SourceLanguage::TypeScript => tree_sitter_typescript::LANGUAGE_TYPESCRIPT.into(),
        SourceLanguage::JavaScript => tree_sitter_javascript::LANGUAGE.into(),
    };
    let mut parser = tree_sitter::Parser::new();
    parser.set_language(&grammar).ok()?;
    let tree = parser.parse(source.as_bytes(), None)?;
    Some(preorder_nodes(&tree))
}

#[verifier::external_type_specification]
#[verifier::external_body]
pub struct ExTree(tree_sitter::Tree);

/// Copies a tree's nodes in pre-order with a `TreeCursor`, without recursion, so deeply
/// nested sources cannot exhaust the stack.
#[verifier::external_body]
fn preorder_nodes(tree: &tree_sitter::Tree) -> Vec<SyntaxNode> {
    let mut cursor = tree.walk();
    let mut nodes = Vec::new();
    loop {
        let node = cursor.node();
        let at = node.start_position();
        nodes.push(SyntaxNode { kind: node.kind().to_string(), is_error: node.is_error(), is_missing: node.is_missing(), row: at.row, column: at.column });
        if cursor.goto_first_child() {
            continue;
        }
        while !cursor.goto_next_sibling() {
            if !cursor.goto_parent() {
                return nodes;
            }
        }
    }
}

/// The extension of a path's file name, as `Path::extension` gives it.
pub open spec fn extension_of(path: Seq<char>) -> Option<Seq<char>> {
    let name = file_name(path);
    if exists|k: int| 0 < k < name.len() && name[k] == '.' {
        let k = choose|k: int| 0 < k < name.len() && name[k] == '.' && forall|j: int| k < j < name.len() ==> name[j] != '.';
        Some(name.skip(k + 1))
    } else {
        None
    }
}

/// The grammar for a file, by its extension.
pub open spec fn language_of(path: Seq<char>) -> Option<SourceLanguage> {
    match extension_of(path) {
        Some(e) => if e == "tsx"@ {
            Some(SourceLanguage::Tsx)
        } else if e == "ts"@ || e == "mts"@ || e == "cts"@ {
            Some(SourceLanguage::TypeScript)
        } else if e == "js"@ || e == "jsx"@ || e == "mjs"@ || e == "cjs"@ {
            Some(SourceLanguage::JavaScript)
        } else {
            None
        },
        None => None,
    }
}

fn extension(path: &str) -> (r: Option<String>)
    ensures
        match r {
            Some(e) => extension_of(path@) == Some(e@),
            None => extension_of(path@) is None,
        },
{
    let cs = chars_of(path);
    let mut start: usize = 0;
    let mut i: usize = 0;
    while i < cs.len()
        invariant
            i <= cs.len(),
            start <= i,
            cs@ == path@,
            file_name(cs@.take(i as int)) == cs@.subrange(start as int, i as int),
        decreases cs.len() - i,
    {
        assert(cs@.take(i + 1).drop_last() =~= cs@.take(i as int));
        if cs[i] == '/' {
            start = i + 1;
            assert(file_name(cs@.take(i + 1)) =~= cs@.subrange(start as int, i + 1));
        } else {
            assert(file_name(cs@.take(i + 1)) =~= cs@.subrange(start as int, i + 1));
        }
        i = i + 1;
    }
    assert(cs@.take(cs.len() as int) =~= cs@);
    let ghost name = file_name(path@);
    assert(name =~= cs@.subrange(start as int, cs.len() as int));
    let mut k: usize = cs.len();
    while k - start > 1 && cs[k - 1] != '.'
        invariant
            start <= k <= cs.len(),
            name == cs@.subrange(start as int, cs.len() as int),
            forall|j: int| k <= j < cs.len() ==> cs@[j] != '.',
        decreases k,
    {
        k = k - 1;
    }
    if k - start > 1 {
        let dot = k - 1;
        assert(name[dot - start] == '.');
        proof {
            let c = choose|c: int| 0 < c < name.len() && name[c] == '.' && forall|j: int| c < j < name.len() ==> name[j] != '.';
            assert(name[c] == cs@[start + c]);
            if c < dot - start {
                assert(name[dot - start] == cs@[dot as int]);
            }
            if c > dot - start {
                assert(cs@[start + c] != '.');
            }
            assert(c == dot - start);
        }
        let mut out: Vec<char> = Vec::new();
        let mut j: usize = k;
        while j < cs.len()
            invariant
                k <= j <= cs.len(),
                out@ == cs@.subrange(k as int, j as int),
            decreases cs.len() - j,
        {
            out.push(cs[j]);
            assert(out@ =~= cs@.subrange(k as int, j + 1));
            j = j + 1;
        }
        assert(out@ =~= name.skip(dot - start + 1));
        Some(string_of(&out))
    } else {
        proof {
            assert forall|c: int| 0 < c < name.len() implies name[c] != '.' by {
                assert(name[c] == cs@[start + c]);
            }
        }
        None
    }
}

pub fn language_for(path: &str) -> (r: Option<SourceLanguage>)
    ensures
        r == language_of(path@),
{
    match extension(path) {
        Some(e) => {
            let e = e.as_str();
            if str_eq(e, "tsx") {
                Some(SourceLanguage::Tsx)
            } else if str_eq(e, "ts") || str_eq(e, "mts") || str_eq(e, "cts") {
                Some(SourceLanguage::TypeScript)
            } else if str_eq(e, "js") || str_eq(e, "jsx") || str_eq(e, "mjs") || str_eq(e, "cjs") {
                Some(SourceLanguage::JavaScript)
            } else {
                None
            }
        },
        None => None,
    }
}

/// A line or column from a 0-based position, cut to 32 bits and wrapping.
pub open spec fn position_number(v: usize) -> u32 {
    if (v as u32) == u32::MAX {
        0
    } else {
        ((v as u32) + 1) as u32
    }
}

/// The frame for an error or missing node.
pub open spec fn node_frame(file: Seq<char>, n: SyntaxNode) -> DiagnosticView {
    let message = if n.is_missing {
        "missing token: "@ + n.kind@
    } else {
        "syntax error near '"@ + n.kind@ + "'"@
    };
    DiagnosticView {
        code: Some("syntax"@),
        ..new_diagnostic_view("syntax"@, Severity::Error, file, position_number(n.row), position_number(n.column), message)
    }
}

fn position_of(v: usize) -> (r: u32)
    ensures
        r == position_number(v),
{
    let m: u32 = v as u32;
    if m == u32::MAX {
        0
    } else {
        m + 1
    }
}

fn node_diagnostic(file: &str, n: &SyntaxNode) -> (r: Diagnostic)
    ensures
        r@ == node_frame(file@, *n),
{
    let message = if n.is_missing {
        cat("missing token: ", n.kind.as_str())
    } else {
        let mut m = cat("syntax error near '", n.kind.as_str());
        push_str(&mut m, "'");
        m
    };
    let mut d = diagnostic("syntax", Severity::Error, file, position_of(n.row), position_of(n.column), message.as_str());
    d.code = Some(str_owned("syntax"));
    d
}

/// The nodes that are errors or missing tokens, in order.
pub open spec fn error_nodes(s: Seq<SyntaxNode>) -> Seq<SyntaxNode>
    decreases s.len(),
{
    if s.len() == 0 {
        Seq::empty()
    } else if s.last().is_error || s.last().is_missing {
        error_nodes(s.drop_last()).push(s.last())
    } else {
        error_nodes(s.drop_last())
    }
}

proof fn lemma_error_nodes_grow(s: Seq<SyntaxNode>, i: int)
    requires
        0 <= i <= s.len(),
    ensures
        error_nodes(s.take(i)).len() <= error_nodes(s).len(),
        error_nodes(s.take(i)) == error_nodes(s).take(error_nodes(s.take(i)).len() as int),
    decreases s.len() - i,
{
    if i < s.len() {
        lemma_error_nodes_grow(s, i + 1);
        assert(s.take(i + 1).drop_last() =~= s.take(i));
        let a = error_nodes(s.take(i));
        let b = error_nodes(s.take(i + 1));
        assert(a =~= b.take(a.len() as int));
        assert(b.take(a.len() as int) =~= error_nodes(s).take(b.len() as int).take(a.len() as int));
    } else {
        assert(s.take(i) =~= s);
    }
}

/// The frames of one file's tree (its nodes in pre-order): its first twenty error and
/// missing nodes.
pub open spec fn tree_frames(file: Seq<char>, nodes: Seq<SyntaxNode>) -> Seq<DiagnosticView> {
    first_n(error_nodes(nodes), 20).map_values(|n: SyntaxNode| node_frame(file, n))
}

/// The frames for a file's parse tree, in document order, at most twenty.
pub fn collect_diagnostics(file: &str, nodes: &Vec<SyntaxNode>) -> (r: Vec<Diagnostic>)
    ensures
        diagnostics_view(r@) == tree_frames(file@, nodes@),
{
    let mut found: Vec<Diagnostic> = Vec::new();
    let mut i: usize = 0;
    while i < nodes.len() && found.len() < 20
        invariant
            i <= nodes.len(),
            found@.len() <= 20,
            error_nodes(nodes@.take(i as int)).len() == found@.len(),
            diagnostics_view(found@) == error_nodes(nodes@.take(i as int)).map_values(|n: SyntaxNode| node_frame(file@, n)),
        decreases nodes.len() - i,
    {
        assert(nodes@.take(i + 1).drop_last() =~= nodes@.take(i as int));
        let node = &nodes[i];
        if node.is_error || node.is_missing {
            let d = node_diagnostic(file, node);
            let ghost before = found@;
            found.push(d);
            assert(diagnostics_view(found@) =~= diagnostics_view(before).push(d@));
        }
        i = i + 1;
    }
    proof {
        lemma_error_nodes_grow(nodes@, i as int);
        if i == nodes.len() {
            assert(nodes@.take(i as int) =~= nodes@);
        }
        assert(first_n(error_nodes(nodes@), 20) =~= error_nodes(nodes@.take(i as int)));
    }
    found
}

/// The frames of one read file: none when no grammar fits or the parser gives no tree.
pub open spec fn file_frames(file: Seq<char>, source: Seq<char>) -> Seq<DiagnosticView> {
    match language_of(file) {
        None => Seq::empty(),
        Some(l) => match syntax_tree(l, source) {
            None => Seq::empty(),
            Some(t) => tree_frames(file, t),
        },
    }
}

/// The frames of the files read for a check, file by file.
pub open spec fn files_frames(sources: Seq<(String, String)>) -> Seq<DiagnosticView>
    decreases sources.len(),
{
    if sources.len() == 0 {
        Seq::empty()
    } else {
        files_frames(sources.drop_last()) + file_frames(sources.last().0@, sources.last().1@)
    }
}

impl SyntaxStage {
    pub fn new(config: &GateConfig) -> (r: Self) {
        SyntaxStage
    }

    pub fn id(&self) -> (r: &'static str)
        ensures
            r@ == stage_name(StageId::Syntax),
    {
        "syntax"
    }

    pub fn kind(&self) -> (r: GateKind)
        ensures
            r == stage_kind(StageId::Syntax),
    {
        GateKind::Blocking
    }

    /// The changed script files to check, or the skip when there are none.
    pub fn plan(&self, ctx: &GateContext) -> (r: Result<Vec<String>, StageOutcome>)
        ensures
            ts_files(ctx.files@).len() == 0 ==> r is Err && r->Err_0.status == StageStatus::Skipped
                && crate::diagnostic::opt_view(r->Err_0.skipped_reason) == Some("no TypeScript or JavaScript files changed"@),
            ts_files(ctx.files@).len() > 0 ==> (r matches Ok(files) && files@ == ts_files(ctx.files@)),
    {
        let changed = filter_ts(&ctx.files);
        if changed.len() == 0 {
            return Err(StageOutcome::skipped("no TypeScript or JavaScript files changed"));
        }
        Ok(changed)
    }

    /// Checks the files that could be read, each with its text: any error or missing node
    /// fails the stage.
    pub fn check(&self, sources: &Vec<(String, String)>) -> (r: StageOutcome)
        ensures
            files_frames(sources@).len() == 0 ==> r.status == StageStatus::Passed && r.diagnostics@.len() == 0,
            files_frames(sources@).len() > 0 ==> r.status == StageStatus::Failed
                && diagnostics_view(r.diagnostics@) == files_frames(sources@),
    {
        let mut out: Vec<Diagnostic> = Vec::new();
        let mut i: usize = 0;
        while i < sources.len()
            invariant
                i <= sources.len(),
                diagnostics_view(out@) == files_frames(sources@.take(i as int)),
            decreases sources.len() - i,
        {
            assert(sources@.take(i + 1).drop_last() =~= sources@.take(i as int));
            let file = sources[i].0.as_str();
            let source = sources[i].1.as_str();
            let ghost base = diagnostics_view(out@);
            match language_for(file) {
                Some(language) => match parse_source(language, source) {
                    Some(tree) => {
                        let mut ds = collect_diagnostics(file, &tree);
                        let ghost dv = diagnostics_view(ds@);
                        out.append(&mut ds);
                        assert(diagnostics_view(out@) =~= base + dv);
                    },
                    None => {},
                },
                None => {},
            }
            assert(diagnostics_view(out@) =~= files_frames(sources@.take(i + 1)));
            i = i + 1;
        }
        assert(sources@.take(sources.len() as int) =~= sources@);
        assert(diagnostics_view(out@).len() == out@.len());
        if out.len() == 0 {
            StageOutcome::passed()
        } else {
            StageOutcome::failed(out)
        }
    }
}

/// A parsed file contributes at most twenty syntax findings, and each is an error or a
/// missing token of its tree.
pub proof fn law_syntax_findings_capped(file: Seq<char>, nodes: Seq<SyntaxNode>)
    ensures
        tree_frames(file, nodes).len() <= 20,
        forall|i: int| 0 <= i < first_n(error_nodes(nodes), 20).len()
            ==> (#[trigger] first_n(error_nodes(nodes), 20)[i]).is_error
                || first_n(error_nodes(nodes), 20)[i].is_missing,
{
    lemma_error_nodes_are_errors(nodes);
}

proof fn lemma_error_nodes_are_errors(s: Seq<SyntaxNode>)
    ensures
        forall|i: int| 0 <= i < error_nodes(s).len() ==> (#[trigger] error_nodes(s)[i]).is_error || error_nodes(s)[i].is_missing,
    decreases s.len(),
{
    if s.len() > 0 {
        lemma_error_nodes_are_errors(s.drop_last());
        let prev = error_nodes(s.drop_last());
        if s.last().is_error || s.last().is_missing {
            assert(error_nodes(s) == prev.push(s.last()));
            assert forall|i: int| 0 <= i < error_nodes(s).len() implies (#[trigger] error_nodes(s)[i]).is_error
                || error_nodes(s)[i].is_missing by {
                if i < prev.len() {
                    assert(error_nodes(s)[i] == prev[i]);
                }
            }
        }
    }
}

} // verus!
