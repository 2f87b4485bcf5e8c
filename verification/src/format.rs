//! What story-format parsers produce, and the registry that picks a parser
//! by file extension.
use vstd::prelude::*;
use crate::config::StoryConfig;
use crate::passage::PassageGraph;
use crate::text::{concat2, str_chars, string_of, sub_chars};

verus! {

/// The result of parsing a story file.
#[derive(Debug)]
pub struct ParseOutput {
    /// Story metadata extracted from the file.
    pub config: StoryConfig,
    /// The passage graph built from the file.
    pub graph: PassageGraph,
    /// Warnings and errors collected during parsing.
    pub diagnostics: Vec<Diagnostic>,
}

/// A diagnostic message produced during parsing.
#[derive(Debug)]
pub struct Diagnostic {
    pub severity: Severity,
    pub message: String,
    /// Optional source location for error reporting.
    pub span: Option<SourceSpan>,
}

#[derive(Debug, Clone, Copy, PartialEq, Eq, Structural)]
pub enum Severity {
    Error,
    Warning,
}

/// A position range in the source text.
#[derive(Debug, Clone, Copy, PartialEq, Eq, Structural)]
pub struct SourceSpan {
    /// 0-based line number.
    pub line: usize,
    /// 0-based column (byte offset within the line).
    pub column: usize,
    /// Length in bytes.
    pub length: usize,
}

/// A diagnostic by its content.
pub struct DiagModel {
    pub severity: Severity,
    pub message: Seq<char>,
    pub span: Option<SourceSpan>,
}

impl Diagnostic {
    pub open spec fn model(&self) -> DiagModel {
        DiagModel { severity: self.severity, message: self.message@, span: self.span }
    }

    /// An error without a source location.
    pub fn error(message: String) -> (r: Diagnostic)
        ensures
            r.model() == (DiagModel { severity: Severity::Error, message: message@, span: None }),
    {
        Diagnostic { severity: Severity::Error, message, span: None }
    }

    /// A warning without a source location.
    pub fn warning(message: String) -> (r: Diagnostic)
        ensures
            r.model() == (DiagModel { severity: Severity::Warning, message: message@, span: None }),
    {
        Diagnostic { severity: Severity::Warning, message, span: None }
    }
}

pub open spec fn diags_model(v: Seq<Diagnostic>) -> Seq<DiagModel> {
    Seq::new(v.len(), |i: int| v[i].model())
}

/// A story format parser.
///
/// Each parser handles one file format (`.pathos`, `.toml`, ...).
pub trait FormatParser {
    /// The extensions that `extensions` lists.
    spec fn spec_extensions(&self) -> Seq<Seq<char>>;

    /// File extensions this parser handles (e.g. `pathos`, `toml`).
    fn extensions(&self) -> (r: Vec<String>)
        ensures
            r@.map_values(|s: String| s@) == self.spec_extensions(),
    ;

    /// Parse raw source text into a `ParseOutput`; `None` for a source that
    /// the format's grammar cannot take at all (such as a passage body with
    /// a lone quote for a value).
    fn parse(&self, source: &str) -> Option<ParseOutput>;
}

/// The extension of a path: what follows its last `.`, or the whole path.
pub open spec fn extension_of(path: Seq<char>) -> Seq<char> {
    if exists|i: int| 0 <= i < path.len() && path[i] == '.' {
        let i = choose|i: int|
            0 <= i < path.len() && path[i] == '.' && forall|j: int| i < j < path.len() ==> path[j] != '.';
        path.skip(i + 1)
    } else {
        path
    }
}

pub(crate) fn extension_exec(path: &str) -> (r: Vec<char>)
    ensures
        r@ == extension_of(path@),
{
    let pc = str_chars(path);
    let mut i: usize = pc.len();
    while i > 0
        invariant
            i <= pc.len(),
            pc@ == path@,
            forall|j: int| i <= j < pc.len() ==> pc@[j] != '.',
        decreases i,
    {
        if pc[i - 1] == '.' {
            let ghost k = (i - 1) as int;
            proof {
                let c = choose|c: int|
                    0 <= c < path@.len() && path@[c] == '.' && forall|j: int|
                        c < j < path@.len() ==> path@[j] != '.';
                assert(0 <= k < path@.len() && path@[k] == '.' && forall|j: int|
                    k < j < path@.len() ==> path@[j] != '.');
                if c < k {
                    assert(path@[k] != '.');
                }
                if k < c {
                    assert(path@[c] != '.');
                }
                assert(pc@.subrange(i as int, pc@.len() as int) =~= path@.skip(k + 1));
            }
            return sub_chars(&pc, i, pc.len());
        }
        i = i - 1;
    }
    pc
}

/// A registry of format parsers; `parse` dispatches by file extension.
pub struct FormatRegistry {
    pub parsers: Vec<Box<dyn FormatParser>>,
}

/// The first parser that lists an extension.
pub open spec fn parser_for(parsers: Seq<Box<dyn FormatParser>>, ext: Seq<char>, i: int) -> bool {
    &&& 0 <= i < parsers.len()
    &&& parsers[i].spec_extensions().contains(ext)
    &&& forall|j: int| 0 <= j < i ==> !parsers[j].spec_extensions().contains(ext)
}

impl FormatRegistry {
    /// Create a registry with the given parsers.
    pub fn new(parsers: Vec<Box<dyn FormatParser>>) -> (r: FormatRegistry)
        ensures
            r.parsers == parsers,
    {
        FormatRegistry { parsers }
    }

    /// The first parser that lists the path's extension, if any.
    pub fn parser_index(&self, path: &str) -> (r: Option<usize>)
        ensures
            r matches Some(i) ==> parser_for(self.parsers@, extension_of(path@), i as int),
            r is None ==> forall|j: int|
                0 <= j < self.parsers@.len() ==> !self.parsers@[j].spec_extensions().contains(
                    extension_of(path@),
                ),
    {
        let ext = extension_exec(path);
        let mut i: usize = 0;
        while i < self.parsers.len()
            invariant
                i <= self.parsers.len(),
                ext@ == extension_of(path@),
                forall|j: int|
                    0 <= j < i ==> !self.parsers@[j].spec_extensions().contains(ext@),
            decreases self.parsers.len() - i,
        {
            let exts = self.parsers[i].extensions();
            let ghost es = self.parsers@[i as int].spec_extensions();
            let mut k: usize = 0;
            while k < exts.len()
                invariant
                    k <= exts.len(),
                    i < self.parsers.len(),
                    ext@ == extension_of(path@),
                    es == self.parsers@[i as int].spec_extensions(),
                    forall|j: int|
                        0 <= j < i ==> !self.parsers@[j].spec_extensions().contains(ext@),
                    exts@.map_values(|s: String| s@) == es,
                    forall|m: int| 0 <= m < k ==> es[m] != ext@,
                decreases exts.len() - k,
            {
                if crate::text::chars_eq_str(&ext, exts[k].as_str()) {
                    assert(es[k as int] == ext@);
                    assert(es.contains(ext@));
                    return Some(i);
                }
                k = k + 1;
            }
            assert(!es.contains(ext@));
            i = i + 1;
        }
        None
    }

    /// The output for a path whose extension no parser lists.
    pub fn unsupported(path: &str) -> (r: ParseOutput)
        ensures
            r.graph.nodes@.len() == 0,
            r.graph.edges@.len() == 0,
            r.config.title@.len() == 0,
            r.config.author@.len() == 0,
            r.config.start@.len() == 0,
            r.config.version@.len() == 0,
            r.config.save_slots == 0,
            diags_model(r.diagnostics@) == seq![
                DiagModel {
                    severity: Severity::Error,
                    message: "unsupported file format: ."@ + extension_of(path@),
                    span: None,
                },
            ],
    {
        let ext = string_of(&extension_exec(path));
        let mut diagnostics: Vec<Diagnostic> = Vec::new();
        diagnostics.push(Diagnostic::error(concat2("unsupported file format: .", ext.as_str())));
        assert(diags_model(diagnostics@) =~= seq![
            DiagModel {
                severity: Severity::Error,
                message: "unsupported file format: ."@ + extension_of(path@),
                span: None,
            },
        ]);
        ParseOutput {
            config: StoryConfig::new(String::new(), String::new(), String::new(), String::new(), 0),
            graph: PassageGraph::new(),
            diagnostics,
        }
    }

    /// Look up a parser by file extension and run it; with no parser for
    /// the extension, the output holds an error diagnostic.
    pub fn parse(&self, path: &str, source: &str) -> (r: Option<ParseOutput>)
        ensures
            (forall|j: int|
                0 <= j < self.parsers@.len() ==> !self.parsers@[j].spec_extensions().contains(
                    extension_of(path@),
                )) ==> (r matches Some(out) && diags_model(out.diagnostics@) == seq![
                DiagModel {
                    severity: Severity::Error,
                    message: "unsupported file format: ."@ + extension_of(path@),
                    span: None,
                },
            ] && out.graph.nodes@.len() == 0 && out.graph.edges@.len() == 0),
    {
        match self.parser_index(path) {
            Some(i) => self.parsers[i].parse(source),
            None => Some(FormatRegistry::unsupported(path)),
        }
    }
}

} // verus!
