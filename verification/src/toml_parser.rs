//! The `.toml` story format.
//!
//! ```toml
//! [story]
//! title = "My Story"
//! author = "Author"
//! start = "intro"
//!
//! [passages.intro]
//! tags = ["opening"]
//! body = "Welcome.\n\n[[Go → room]]"
//!
//! [[scripts]]
//! passage = "intro"
//! lang = "rhai"
//! code = "state.set('hp', 100);"
//!
//! [[hooks]]
//! passage = "intro"
//! event = "on_passage_start"
//! lang = "rhai"
//! code = "state.set('hp', 100);"
//! ```
//!
//! Decoding the TOML text into a `TomlStory` is the caller's
//! (`TomlDecoder`); building the story from it is stated here.
use vstd::prelude::*;
use crate::config::StoryConfig;
use crate::format::{
    DiagModel, Diagnostic, FormatParser, ParseOutput, Severity, SourceSpan, diags_model,
};
use crate::inline::{NodeModel, body_diags, inline_spec, try_parse_inline};
use crate::passage::{HookDeclaration, PassageGraph, PassageNode, PassageScript, node_index};
use crate::pathos_parser::{
    ConfigModel, PassageModel, append_diags, config_model, graph_conforms, hooks_model,
    passage_conforms, scripts_model,
};
use crate::text::{concat2, concat3, copy_string, string_eq, strings_model, trim, trim_str};
use crate::value::FloatArith;

verus! {

/// A `[passages.<id>]` table.
pub struct TomlPassage {
    pub id: String,
    pub tags: Vec<String>,
    /// The body text; its inline directives are parsed here.
    pub body: String,
}

/// A `[[scripts]]` entry.
pub struct TomlScript {
    /// The passage this script belongs to.
    pub passage: String,
    pub lang: String,
    pub code: String,
}

/// A `[[hooks]]` entry.
pub struct TomlHook {
    /// The passage this hook belongs to.
    pub passage: String,
    pub event: String,
    pub lang: String,
    pub code: String,
}

/// What a `.toml` story file holds.
pub struct TomlStory {
    pub title: String,
    pub author: String,
    pub start: String,
    pub version: String,
    pub save_slots: u8,
    /// The passages, each id once.
    pub passages: Vec<TomlPassage>,
    pub scripts: Vec<TomlScript>,
    pub hooks: Vec<TomlHook>,
}

/// Why the TOML text could not be decoded.
pub struct TomlError {
    pub message: String,
    /// The byte range `start..end` of the source that the error points at.
    pub span: Option<(usize, usize)>,
}

/// Decoding of TOML story files, which the caller supplies (with serde).
/// Nothing here is assumed of what it returns: `parse_source` states its
/// output for whatever the decoder gave, and `assemble_toml` and
/// `toml_error` state it exactly for each given value.  The passages of a
/// story file form a table, which the decoder may walk in any order.
pub trait TomlDecoder {
    /// The story that the TOML text describes (`version` and `save_slots`
    /// defaulting to `default_version` and `default_save_slots`), or why it
    /// cannot be decoded.
    fn decode(&self, source: &str) -> Result<TomlStory, TomlError>;
}

// ── the story ───────────────────────────────────────────────────────────

/// The scripts that name passage `id`, in file order.
pub open spec fn scripts_for(scripts: Seq<TomlScript>, id: Seq<char>) -> Seq<(Seq<char>, Seq<char>)>
    decreases scripts.len(),
{
    if scripts.len() == 0 {
        Seq::empty()
    } else {
        let pre = scripts_for(scripts.drop_last(), id);
        let s = scripts.last();
        if s.passage@ == id {
            pre.push((s.lang@, s.code@))
        } else {
            pre
        }
    }
}

/// The hooks that name passage `id`, in file order.
pub open spec fn hooks_for(hooks: Seq<TomlHook>, id: Seq<char>) -> Seq<
    (Seq<char>, (Seq<char>, Seq<char>)),
>
    decreases hooks.len(),
{
    if hooks.len() == 0 {
        Seq::empty()
    } else {
        let pre = hooks_for(hooks.drop_last(), id);
        let h = hooks.last();
        if h.passage@ == id {
            pre.push((h.event@, (h.lang@, h.code@)))
        } else {
            pre
        }
    }
}

/// An earlier passage has the same id (and took its scripts and hooks).
pub open spec fn id_taken(ps: Seq<TomlPassage>, i: int) -> bool {
    exists|j: int| 0 <= j < i && #[trigger] ps[j].id@ == ps[i].id@
}

pub open spec fn has_passage(ps: Seq<TomlPassage>, id: Seq<char>) -> bool {
    exists|j: int| 0 <= j < ps.len() && #[trigger] ps[j].id@ == id
}

/// The names that are no passage's id, each once, in order of appearance.
pub open spec fn orphans(names: Seq<Seq<char>>, ps: Seq<TomlPassage>) -> Seq<Seq<char>>
    decreases names.len(),
{
    if names.len() == 0 {
        Seq::empty()
    } else {
        let pre = orphans(names.drop_last(), ps);
        let n = names.last();
        if !has_passage(ps, n) && !names.drop_last().contains(n) {
            pre.push(n)
        } else {
            pre
        }
    }
}

/// A warning for each orphan name.
pub open spec fn orphan_warnings(names: Seq<Seq<char>>, ps: Seq<TomlPassage>, what: Seq<char>) -> Seq<
    DiagModel,
> {
    orphans(names, ps).map_values(
        |n: Seq<char>|
            DiagModel {
                severity: Severity::Warning,
                message: what + " defined for nonexistent passage: "@ + n,
                span: None,
            },
    )
}

/// The nodes of a body: none for a blank one.
pub open spec fn toml_body(body: Seq<char>) -> Option<Seq<NodeModel>> {
    if trim(body).len() == 0 {
        Some(Seq::empty())
    } else {
        inline_spec(body)
    }
}

/// The passage built from table `i`.
pub open spec fn toml_passage(f: TomlStory, i: int, body: Seq<NodeModel>) -> PassageModel {
    let p = f.passages@[i];
    let taken = id_taken(f.passages@, i);
    PassageModel {
        id: p.id@,
        tags: strings_model(p.tags@),
        body,
        scripts: if taken {
            Seq::empty()
        } else {
            scripts_for(f.scripts@, p.id@)
        },
        hooks: if taken {
            Seq::empty()
        } else {
            hooks_for(f.hooks@, p.id@)
        },
    }
}

/// The passages of the first `n` tables and the diagnostics of their
/// bodies; `None` where a body's inline grammar fails.
pub open spec fn toml_passages(f: TomlStory, n: int) -> Option<(Seq<PassageModel>, Seq<DiagModel>)>
    decreases n,
{
    if n <= 0 {
        Some((Seq::empty(), Seq::empty()))
    } else {
        match (toml_passages(f, n - 1), toml_body(f.passages@[n - 1].body@)) {
            (Some((ms, ds)), Some(body)) => Some(
                (ms.push(toml_passage(f, n - 1, body)), ds + body_diags(body)),
            ),
            _ => None,
        }
    }
}

pub open spec fn script_names(f: TomlStory) -> Seq<Seq<char>> {
    f.scripts@.map_values(|s: TomlScript| s.passage@)
}

pub open spec fn hook_names(f: TomlStory) -> Seq<Seq<char>> {
    f.hooks@.map_values(|h: TomlHook| h.passage@)
}

/// The configuration, the passages and the diagnostics before the start
/// check: those of the bodies, then a warning for each passage that
/// scripts name and that does not exist, then the same for hooks.
pub open spec fn toml_spec(f: TomlStory) -> Option<(ConfigModel, Seq<PassageModel>, Seq<DiagModel>)> {
    let cfg = ConfigModel {
        title: f.title@,
        author: f.author@,
        start: f.start@,
        version: f.version@,
        save_slots: f.save_slots,
    };
    match toml_passages(f, f.passages@.len() as int) {
        Some((ms, ds)) => Some(
            (
                cfg,
                ms,
                ds + orphan_warnings(script_names(f), f.passages@, "scripts"@) + orphan_warnings(
                    hook_names(f),
                    f.passages@,
                    "hooks"@,
                ),
            ),
        ),
        None => None,
    }
}

/// An error where no passage has the start passage's id.
pub open spec fn toml_start_diags(start: Seq<char>, nodes: Seq<PassageNode>) -> Seq<DiagModel> {
    if node_index(nodes, start) is None {
        seq![
            DiagModel {
                severity: Severity::Error,
                message: "start passage '"@ + start + "' not found in passages"@,
                span: None,
            },
        ]
    } else {
        Seq::empty()
    }
}

/// The output conforms to the configuration, passages and leading
/// diagnostics, followed by the start check.
pub open spec fn toml_output(out: ParseOutput, cfg: ConfigModel, ms: Seq<PassageModel>, pre: Seq<DiagModel>) -> bool {
    &&& config_model(out.config) == cfg
    &&& graph_conforms(out.graph, ms)
    &&& diags_model(out.diagnostics@) == pre + toml_start_diags(cfg.start, out.graph.nodes@)
}

/// The location of a decoding error: the line holds the start of the byte
/// range, and column and length its size.
pub open spec fn error_span(span: Option<(usize, usize)>) -> Option<SourceSpan> {
    match span {
        Some((start, end)) => {
            let size = if end >= start {
                (end - start) as usize
            } else {
                0usize
            };
            Some(SourceSpan { line: start, column: size, length: size })
        },
        None => None,
    }
}

/// The output for a file that could not be decoded: an empty story and
/// one error.
pub open spec fn toml_error_output(out: ParseOutput, e: TomlError) -> bool {
    &&& config_model(out.config) == (ConfigModel {
        title: Seq::empty(),
        author: Seq::empty(),
        start: Seq::empty(),
        version: Seq::empty(),
        save_slots: 0,
    })
    &&& out.graph.nodes@.len() == 0
    &&& out.graph.edges@.len() == 0
    &&& diags_model(out.diagnostics@) == seq![
        DiagModel {
            severity: Severity::Error,
            message: "TOML parse error: "@ + e.message@,
            span: error_span(e.span),
        },
    ]
}

/// What parsing gives for what decoding gave: `None` where a body's inline
/// grammar fails.
pub open spec fn toml_result(r: Option<ParseOutput>, decoded: Result<TomlStory, TomlError>) -> bool {
    match decoded {
        Ok(f) => match toml_spec(f) {
            Some((cfg, ms, pre)) => r matches Some(out) && toml_output(out, cfg, ms, pre),
            None => r is None,
        },
        Err(e) => r matches Some(out) && toml_error_output(out, e),
    }
}

// ── exec ────────────────────────────────────────────────────────────────

fn copy_strings(v: &Vec<String>) -> (r: Vec<String>)
    ensures
        strings_model(r@) == strings_model(v@),
{
    let mut out: Vec<String> = Vec::new();
    let mut k: usize = 0;
    while k < v.len()
        invariant
            k <= v.len(),
            strings_model(out@) == strings_model(v@).take(k as int),
        decreases v.len() - k,
    {
        let ghost before = out@;
        out.push(copy_string(&v[k]));
        assert(strings_model(out@) =~= strings_model(before).push(v@[k as int]@));
        assert(strings_model(v@).take(k + 1) =~= strings_model(v@).take(k as int).push(
            v@[k as int]@,
        ));
        k = k + 1;
    }
    assert(strings_model(v@).take(v.len() as int) =~= strings_model(v@));
    out
}

fn scripts_for_exec(scripts: &Vec<TomlScript>, id: &String) -> (r: Vec<PassageScript>)
    ensures
        scripts_model(r@) == scripts_for(scripts@, id@),
{
    let mut out: Vec<PassageScript> = Vec::new();
    let mut k: usize = 0;
    assert(scripts_model(out@) =~= scripts_for(scripts@.take(0), id@));
    while k < scripts.len()
        invariant
            k <= scripts.len(),
            scripts_model(out@) == scripts_for(scripts@.take(k as int), id@),
        decreases scripts.len() - k,
    {
        let ghost t = scripts@.take(k + 1);
        assert(t.drop_last() =~= scripts@.take(k as int));
        let s = &scripts[k];
        if string_eq(&s.passage, id) {
            let ghost before = out@;
            out.push(PassageScript { lang: copy_string(&s.lang), code: copy_string(&s.code) });
            assert(scripts_model(out@) =~= scripts_model(before).push((s.lang@, s.code@)));
        }
        k = k + 1;
    }
    assert(scripts@.take(scripts.len() as int) =~= scripts@);
    out
}

fn hooks_for_exec(hooks: &Vec<TomlHook>, id: &String) -> (r: Vec<HookDeclaration>)
    ensures
        hooks_model(r@) == hooks_for(hooks@, id@),
{
    let mut out: Vec<HookDeclaration> = Vec::new();
    let mut k: usize = 0;
    assert(hooks_model(out@) =~= hooks_for(hooks@.take(0), id@));
    while k < hooks.len()
        invariant
            k <= hooks.len(),
            hooks_model(out@) == hooks_for(hooks@.take(k as int), id@),
        decreases hooks.len() - k,
    {
        let ghost t = hooks@.take(k + 1);
        assert(t.drop_last() =~= hooks@.take(k as int));
        let h = &hooks[k];
        if string_eq(&h.passage, id) {
            let ghost before = out@;
            out.push(
                HookDeclaration {
                    event: copy_string(&h.event),
                    script: PassageScript { lang: copy_string(&h.lang), code: copy_string(&h.code) },
                },
            );
            assert(hooks_model(out@) =~= hooks_model(before).push((h.event@, (h.lang@, h.code@))));
        }
        k = k + 1;
    }
    assert(hooks@.take(hooks.len() as int) =~= hooks@);
    out
}

/// Whether some of the first `n` passages has the id.
fn passage_among(ps: &Vec<TomlPassage>, n: usize, id: &String) -> (r: bool)
    requires
        n <= ps.len(),
    ensures
        r == exists|j: int| 0 <= j < n && #[trigger] ps@[j].id@ == id@,
{
    let mut j: usize = 0;
    while j < n
        invariant
            j <= n <= ps.len(),
            forall|m: int| 0 <= m < j ==> #[trigger] ps@[m].id@ != id@,
        decreases n - j,
    {
        if string_eq(&ps[j].id, id) {
            return true;
        }
        j = j + 1;
    }
    false
}

/// Whether one of the first `n` names equals `name`.
fn name_among(get: &Vec<String>, n: usize, name: &String) -> (r: bool)
    requires
        n <= get.len(),
    ensures
        r == strings_model(get@).take(n as int).contains(name@),
{
    let ghost names = strings_model(get@);
    let mut j: usize = 0;
    while j < n
        invariant
            j <= n <= get.len(),
            names == strings_model(get@),
            forall|m: int| 0 <= m < j ==> names[m] != name@,
        decreases n - j,
    {
        if string_eq(&get[j], name) {
            assert(names.take(n as int)[j as int] == name@);
            return true;
        }
        j = j + 1;
    }
    assert(forall|m: int| 0 <= m < n ==> names.take(n as int)[m] != name@);
    false
}

/// A warning for each name that is no passage, each once.
fn orphan_diags_exec(names: &Vec<String>, ps: &Vec<TomlPassage>, what: &str) -> (r: Vec<Diagnostic>)
    ensures
        diags_model(r@) == orphan_warnings(strings_model(names@), ps@, what@),
{
    let ghost nm = strings_model(names@);
    let mut out: Vec<Diagnostic> = Vec::new();
    let mut k: usize = 0;
    assert(nm.take(0) =~= Seq::<Seq<char>>::empty());
    assert(diags_model(out@) =~= orphan_warnings(nm.take(0), ps@, what@));
    while k < names.len()
        invariant
            k <= names.len(),
            nm == strings_model(names@),
            diags_model(out@) == orphan_warnings(nm.take(k as int), ps@, what@),
        decreases names.len() - k,
    {
        let ghost t = nm.take(k + 1);
        assert(t.drop_last() =~= nm.take(k as int));
        assert(t.last() == names@[k as int]@);
        let n = &names[k];
        let found = passage_among(ps, ps.len(), n);
        let seen = name_among(names, k, n);
        if !found && !seen {
            let ghost before = out@;
            let m = concat3(what, " defined for nonexistent passage: ", n.as_str());
            out.push(Diagnostic::warning(m));
            assert(orphans(t, ps@) == orphans(nm.take(k as int), ps@).push(n@));
            assert(diags_model(out@) =~= diags_model(before).push(out@.last().model()));
            assert(orphan_warnings(t, ps@, what@) =~= orphan_warnings(nm.take(k as int), ps@, what@).push(
                out@.last().model(),
            ));
        } else {
            assert(orphans(t, ps@) == orphans(nm.take(k as int), ps@));
        }
        k = k + 1;
    }
    assert(nm.take(names.len() as int) =~= nm);
    out
}

fn script_passages(f: &TomlStory) -> (r: Vec<String>)
    ensures
        strings_model(r@) == script_names(*f),
{
    let mut out: Vec<String> = Vec::new();
    let mut k: usize = 0;
    while k < f.scripts.len()
        invariant
            k <= f.scripts.len(),
            strings_model(out@) == script_names(*f).take(k as int),
        decreases f.scripts.len() - k,
    {
        let ghost before = out@;
        out.push(copy_string(&f.scripts[k].passage));
        assert(strings_model(out@) =~= strings_model(before).push(f.scripts@[k as int].passage@));
        assert(script_names(*f).take(k + 1) =~= script_names(*f).take(k as int).push(
            f.scripts@[k as int].passage@,
        ));
        k = k + 1;
    }
    assert(script_names(*f).take(f.scripts.len() as int) =~= script_names(*f));
    out
}

fn hook_passages(f: &TomlStory) -> (r: Vec<String>)
    ensures
        strings_model(r@) == hook_names(*f),
{
    let mut out: Vec<String> = Vec::new();
    let mut k: usize = 0;
    while k < f.hooks.len()
        invariant
            k <= f.hooks.len(),
            strings_model(out@) == hook_names(*f).take(k as int),
        decreases f.hooks.len() - k,
    {
        let ghost before = out@;
        out.push(copy_string(&f.hooks[k].passage));
        assert(strings_model(out@) =~= strings_model(before).push(f.hooks@[k as int].passage@));
        assert(hook_names(*f).take(k + 1) =~= hook_names(*f).take(k as int).push(
            f.hooks@[k as int].passage@,
        ));
        k = k + 1;
    }
    assert(hook_names(*f).take(f.hooks.len() as int) =~= hook_names(*f));
    out
}

proof fn lemma_toml_passages_none(f: TomlStory, k: int, n: int)
    requires
        0 <= k < n <= f.passages@.len(),
        toml_body(f.passages@[k].body@) is None,
    ensures
        toml_passages(f, n) is None,
    decreases n,
{
    if k < n - 1 {
        lemma_toml_passages_none(f, k, n - 1);
    }
}

/// The passages of the file, in table order; `None` where a body's inline
/// grammar fails.
fn build_passages(f: &TomlStory, arith: &dyn FloatArith) -> (r: Option<
    (Vec<PassageNode>, Vec<Diagnostic>),
>)
    ensures
        match toml_passages(*f, f.passages@.len() as int) {
            Some((ms, d)) => r matches Some((ns, ds)) && ns@.len() == ms.len() && (forall|i: int|
                0 <= i < ms.len() ==> passage_conforms(#[trigger] ns@[i], ms[i])) && diags_model(ds@)
                == d,
            None => r is None,
        },
{
    let mut nodes: Vec<PassageNode> = Vec::new();
    let mut diags: Vec<Diagnostic> = Vec::new();
    let ghost mut ms: Seq<PassageModel> = Seq::empty();
    assert(diags_model(diags@) =~= Seq::<DiagModel>::empty());
    let mut k: usize = 0;
    while k < f.passages.len()
        invariant
            k <= f.passages.len(),
            toml_passages(*f, k as int) == Some((ms, diags_model(diags@))),
            nodes@.len() == ms.len(),
            forall|i: int| 0 <= i < ms.len() ==> passage_conforms(#[trigger] nodes@[i], ms[i]),
        decreases f.passages.len() - k,
    {
        let p = &f.passages[k];
        let parsed = if trim_str(p.body.as_str()).len() == 0 {
            let none: Vec<crate::content::ContentNode> = Vec::new();
            let nd: Vec<Diagnostic> = Vec::new();
            assert(crate::inline::nodes_conform(none@, Seq::<NodeModel>::empty()));
            assert(diags_model(nd@) =~= body_diags(Seq::<NodeModel>::empty()));
            Some((none, nd))
        } else {
            try_parse_inline(p.body.as_str(), arith)
        };
        match parsed {
            Some((body, d)) => {
                let ghost bm = toml_body(p.body@)->0;
                let taken = passage_among(&f.passages, k, &p.id);
                assert(taken == id_taken(f.passages@, k as int));
                let scripts = if taken {
                    let v: Vec<PassageScript> = Vec::new();
                    assert(scripts_model(v@) =~= Seq::<(Seq<char>, Seq<char>)>::empty());
                    v
                } else {
                    scripts_for_exec(&f.scripts, &p.id)
                };
                let hooks = if taken {
                    let v: Vec<HookDeclaration> = Vec::new();
                    assert(hooks_model(v@) =~= Seq::<(Seq<char>, (Seq<char>, Seq<char>))>::empty());
                    v
                } else {
                    hooks_for_exec(&f.hooks, &p.id)
                };
                let node = PassageNode {
                    id: copy_string(&p.id),
                    tags: copy_strings(&p.tags),
                    body,
                    scripts,
                    hooks,
                };
                assert(passage_conforms(node, toml_passage(*f, k as int, bm)));
                nodes.push(node);
                append_diags(&mut diags, d);
                proof {
                    ms = ms.push(toml_passage(*f, k as int, bm));
                }
                assert(forall|i: int| 0 <= i < ms.len() ==> passage_conforms(#[trigger] nodes@[i], ms[i]));
            },
            None => {
                proof {
                    lemma_toml_passages_none(*f, k as int, f.passages@.len() as int);
                }
                return None;
            },
        }
        k = k + 1;
    }
    Some((nodes, diags))
}

/// An error where no passage has the start passage's id.
fn toml_start_check(start: &String, graph: &PassageGraph) -> (r: Vec<Diagnostic>)
    ensures
        diags_model(r@) == toml_start_diags(start@, graph.nodes@),
{
    let mut diags: Vec<Diagnostic> = Vec::new();
    if graph.index_of(start.as_str()).is_none() {
        let m = concat3("start passage '", start.as_str(), "' not found in passages");
        diags.push(Diagnostic::error(m));
        assert(diags_model(diags@) =~= seq![diags@[0].model()]);
    } else {
        assert(diags_model(diags@) =~= Seq::<DiagModel>::empty());
    }
    diags
}

/// The story that a decoded file describes; `None` where a body's inline
/// grammar fails.
pub fn assemble_toml(file: TomlStory, arith: &dyn FloatArith) -> (r: Option<ParseOutput>)
    ensures
        toml_result(r, Ok(file)),
{
    match build_passages(&file, arith) {
        Some((nodes, bd)) => {
            let mut diagnostics = bd;
            let sn = script_passages(&file);
            let od = orphan_diags_exec(&sn, &file.passages, "scripts");
            append_diags(&mut diagnostics, od);
            let hn = hook_passages(&file);
            let oh = orphan_diags_exec(&hn, &file.passages, "hooks");
            append_diags(&mut diagnostics, oh);
            let config = StoryConfig::new(
                copy_string(&file.title),
                copy_string(&file.author),
                copy_string(&file.start),
                copy_string(&file.version),
                file.save_slots,
            );
            let mut graph = PassageGraph { nodes, edges: Vec::new() };
            graph.rebuild_edges();
            let sd = toml_start_check(&config.start, &graph);
            append_diags(&mut diagnostics, sd);
            Some(ParseOutput { config, graph, diagnostics })
        },
        None => None,
    }
}

/// The output for a file that could not be decoded.
pub fn toml_error(e: TomlError) -> (r: ParseOutput)
    ensures
        toml_error_output(r, e),
{
    let span = match e.span {
        Some((start, end)) => {
            let size = if end >= start {
                end - start
            } else {
                0
            };
            Some(SourceSpan { line: start, column: size, length: size })
        },
        None => None,
    };
    let mut diagnostics: Vec<Diagnostic> = Vec::new();
    diagnostics.push(
        Diagnostic {
            severity: Severity::Error,
            message: concat2("TOML parse error: ", e.message.as_str()),
            span,
        },
    );
    assert(diags_model(diagnostics@) =~= seq![diagnostics@[0].model()]);
    ParseOutput {
        config: StoryConfig::new(String::new(), String::new(), String::new(), String::new(), 0),
        graph: PassageGraph::new(),
        diagnostics,
    }
}

/// Parser for `.toml` story files.
pub struct TomlParser {
    /// Decodes the TOML text.
    pub decoder: Box<dyn TomlDecoder>,
    /// Computes with the floating-point literals of passage bodies.
    pub arith: Box<dyn FloatArith>,
}

impl TomlParser {
    /// Parse a `.toml` source: decode it, then build the story from what
    /// the decoder gave.
    pub fn parse_source(&self, source: &str) -> (r: Option<ParseOutput>)
        ensures
            exists|d: Result<TomlStory, TomlError>| #[trigger] toml_result(r, d),
    {
        let decoded = self.decoder.decode(source);
        let ghost d = decoded;
        let r = match decoded {
            Ok(file) => assemble_toml(file, &*self.arith),
            Err(e) => Some(toml_error(e)),
        };
        assert(toml_result(r, d));
        r
    }
}

impl FormatParser for TomlParser {
    open spec fn spec_extensions(&self) -> Seq<Seq<char>> {
        seq!["toml"@]
    }

    fn extensions(&self) -> (r: Vec<String>) {
        let mut v: Vec<String> = Vec::new();
        v.push(String::from_str("toml"));
        assert(v@.map_values(|s: String| s@) =~= seq!["toml"@]);
        v
    }

    fn parse(&self, source: &str) -> (r: Option<ParseOutput>)
        ensures
            exists|d: Result<TomlStory, TomlError>| #[trigger] toml_result(r, d),
    {
        self.parse_source(source)
    }
}

/// The entries of `[[scripts]]` that name passage `id`.
pub open spec fn scripts_naming(id: Seq<char>) -> spec_fn(TomlScript) -> bool {
    |s: TomlScript| s.passage@ == id
}

/// The entries of `[[hooks]]` that name passage `id`.
pub open spec fn hooks_naming(id: Seq<char>) -> spec_fn(TomlHook) -> bool {
    |h: TomlHook| h.passage@ == id
}

/// A script entry as a passage holds it: language and code.
pub open spec fn script_pair() -> spec_fn(TomlScript) -> (Seq<char>, Seq<char>) {
    |s: TomlScript| (s.lang@, s.code@)
}

/// A hook entry as a passage holds it: event, language and code.
pub open spec fn hook_pair() -> spec_fn(TomlHook) -> (Seq<char>, (Seq<char>, Seq<char>)) {
    |h: TomlHook| (h.event@, (h.lang@, h.code@))
}

/// The scripts and hooks of a TOML passage (the first with its id) are
/// the `[[scripts]]` and `[[hooks]]` entries that name it, in the order of
/// the file, none left out and none added.
pub proof fn law_toml_scripts_in_file_order(f: TomlStory, i: int, body: Seq<NodeModel>)
    requires
        0 <= i < f.passages@.len(),
        !id_taken(f.passages@, i),
    ensures
        toml_passage(f, i, body).scripts == f.scripts@.filter(scripts_naming(f.passages@[i].id@)).map_values(
            script_pair(),
        ),
        toml_passage(f, i, body).hooks == f.hooks@.filter(hooks_naming(f.passages@[i].id@)).map_values(
            hook_pair(),
        ),
{
    lemma_scripts_for_filter(f.scripts@, f.passages@[i].id@);
    lemma_hooks_for_filter(f.hooks@, f.passages@[i].id@);
}

proof fn lemma_scripts_for_filter(v: Seq<TomlScript>, id: Seq<char>)
    ensures
        scripts_for(v, id) == v.filter(scripts_naming(id)).map_values(script_pair()),
    decreases v.len(),
{
    reveal(Seq::filter);
    let pred = scripts_naming(id);
    if v.len() == 0 {
        assert(v.filter(pred) =~= Seq::<TomlScript>::empty());
        assert(Seq::<TomlScript>::empty().map_values(script_pair()) =~= Seq::<(Seq<char>, Seq<char>)>::empty());
    } else {
        lemma_scripts_for_filter(v.drop_last(), id);
        let f = v.drop_last().filter(pred);
        if pred(v.last()) {
            assert(v.filter(pred) == f.push(v.last()));
            assert(f.push(v.last()).map_values(script_pair()) =~= f.map_values(script_pair()).push(
                (v.last().lang@, v.last().code@),
            ));
        } else {
            assert(v.filter(pred) == f);
        }
    }
}

proof fn lemma_hooks_for_filter(v: Seq<TomlHook>, id: Seq<char>)
    ensures
        hooks_for(v, id) == v.filter(hooks_naming(id)).map_values(hook_pair()),
    decreases v.len(),
{
    reveal(Seq::filter);
    let pred = hooks_naming(id);
    if v.len() == 0 {
        assert(v.filter(pred) =~= Seq::<TomlHook>::empty());
        assert(Seq::<TomlHook>::empty().map_values(hook_pair()) =~= Seq::<
            (Seq<char>, (Seq<char>, Seq<char>)),
        >::empty());
    } else {
        lemma_hooks_for_filter(v.drop_last(), id);
        let f = v.drop_last().filter(pred);
        if pred(v.last()) {
            assert(v.filter(pred) == f.push(v.last()));
            assert(f.push(v.last()).map_values(hook_pair()) =~= f.map_values(hook_pair()).push(
                (v.last().event@, (v.last().lang@, v.last().code@)),
            ));
        } else {
            assert(v.filter(pred) == f);
        }
    }
}

} // verus!
