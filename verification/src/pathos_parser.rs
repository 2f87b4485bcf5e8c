//! The native `.pathos` story format.
//!
//! Four passes:
//!   P1 — split the source into YAML frontmatter and passage blocks
//!   P2 — parse block-level elements (headings, `@hook:`, fenced code)
//!   P3 — parse the inline elements of each passage body
//!   P4 — build the graph's edges and check its references, the functions
//!        that conditions call and the languages of scripts
//!
//! Decoding the YAML frontmatter is the caller's (`FrontmatterDecoder`);
//! everything else is stated here.
use vstd::prelude::*;
use crate::checks::{story_check_diags, story_checks};
use crate::config::StoryConfig;
use crate::format::{DiagModel, Diagnostic, FormatParser, ParseOutput, Severity, diags_model};
use crate::inline::{NodeModel, body_diags, inline_spec, nodes_conform, try_parse_inline};
use crate::passage::{
    HookDeclaration, PassageEdge, PassageGraph, PassageNode, PassageScript, edge_model,
    graph_edges, node_index,
};
use crate::text::{
    chars_eq_str, concat2, concat3, find_char, find_char_in, first_at, join_texts, seqs_of,
    split_chars, split_on, starts_with, str_chars, string_of, strings_model, sub_chars, trim,
    trim_chars, trim_str, chars_start_with, string_eq,
};
use crate::value::FloatArith;

verus! {

// ── lines ───────────────────────────────────────────────────────────────

/// A line without the `\r` of a `\r\n` ending.
pub open spec fn strip_cr(l: Seq<char>) -> Seq<char> {
    if l.len() > 0 && l.last() == '\r' {
        l.drop_last()
    } else {
        l
    }
}

/// `str::lines`: the text split at `\n` (a `\r` before it dropped), with no
/// empty line after a final `\n`.
pub open spec fn lines_of(s: Seq<char>) -> Seq<Seq<char>> {
    let parts = split_on(s, '\n');
    let body = Seq::new((parts.len() - 1) as nat, |i: int| strip_cr(parts[i]));
    if parts.len() == 0 || parts.last().len() == 0 {
        body
    } else {
        body.push(parts.last())
    }
}

/// Lines joined by `\n`.
pub open spec fn join_lines(ls: Seq<Seq<char>>) -> Seq<char> {
    join_texts(ls, "\n"@)
}

/// The line, trimmed, is `---`.
pub open spec fn is_rule(l: Seq<char>) -> bool {
    trim(l) == "---"@
}

// ── P1 ──────────────────────────────────────────────────────────────────

/// First line from `j` that is `---`, or the end.
pub open spec fn rule_from(ls: Seq<Seq<char>>, j: int) -> int
    decreases ls.len() - j,
{
    if 0 <= j < ls.len() && !is_rule(ls[j]) {
        rule_from(ls, j + 1)
    } else {
        j
    }
}

/// The frontmatter text and the lines after it.  A source whose first line
/// is `---` has frontmatter up to the next `---` line (or the end).
pub open spec fn frontmatter_split(ls: Seq<Seq<char>>) -> (Seq<char>, Seq<Seq<char>>) {
    if ls.len() > 0 && is_rule(ls[0]) {
        let k = rule_from(ls, 1);
        let rest = if k < ls.len() {
            ls.skip(k + 1)
        } else {
            Seq::empty()
        };
        (join_lines(ls.subrange(1, k)), rest)
    } else {
        (Seq::empty(), ls)
    }
}

/// What splitting into passage blocks has built so far.
pub struct BlockSplit {
    pub blocks: Seq<Seq<char>>,
    pub current: Seq<char>,
    pub seen: bool,
}

pub open spec fn is_heading(t: Seq<char>) -> bool {
    starts_with(t, "# "@) && !starts_with(t, "## "@)
}

/// One line of block splitting.  A `---` line or a heading ends the block
/// (one that is not blank is kept); the `---` line belongs to no block, a
/// heading starts the next; blank lines before content are skipped.
pub open spec fn split_step(st: BlockSplit, line: Seq<char>) -> BlockSplit {
    let t = trim(line);
    let flushed = if trim(st.current).len() > 0 {
        st.blocks.push(st.current)
    } else {
        st.blocks
    };
    if t == "---"@ {
        BlockSplit { blocks: flushed, current: Seq::empty(), seen: false }
    } else if is_heading(t) {
        BlockSplit { blocks: flushed, current: line + "\n"@, seen: true }
    } else if !st.seen && t.len() == 0 {
        st
    } else {
        BlockSplit { current: st.current + line + "\n"@, seen: st.seen || t.len() > 0, ..st }
    }
}

pub open spec fn split_lines(ls: Seq<Seq<char>>) -> BlockSplit
    decreases ls.len(),
{
    if ls.len() == 0 {
        BlockSplit { blocks: Seq::empty(), current: Seq::empty(), seen: false }
    } else {
        split_step(split_lines(ls.drop_last()), ls.last())
    }
}

/// The passage blocks of a text: each starts at a `# name` heading or after
/// a `---` line.
pub open spec fn passage_blocks(text: Seq<char>) -> Seq<Seq<char>> {
    let st = split_lines(lines_of(text));
    if trim(st.current).len() > 0 {
        st.blocks.push(st.current)
    } else {
        st.blocks
    }
}

/// P1: the frontmatter text and the passage blocks.
pub open spec fn source_split(source: Seq<char>) -> (Seq<char>, Seq<Seq<char>>) {
    let (fm, rest) = frontmatter_split(lines_of(source));
    (fm, passage_blocks(join_lines(rest)))
}

// ── P2 ──────────────────────────────────────────────────────────────────

/// A line that opens or closes fenced code.
pub open spec fn is_fence(l: Seq<char>) -> bool {
    starts_with(trim(l), "```"@)
}

/// The language of a fence line; `rhai` where it names none.
pub open spec fn fence_lang(l: Seq<char>) -> Seq<char> {
    let info = trim(trim(l).skip(3));
    if info.len() == 0 {
        "rhai"@
    } else {
        info
    }
}

/// First fence line from `j`, or the end.
pub open spec fn fence_from(ls: Seq<Seq<char>>, j: int) -> int
    decreases ls.len() - j,
{
    if 0 <= j < ls.len() && !is_fence(ls[j]) {
        fence_from(ls, j + 1)
    } else {
        j
    }
}

/// The body text, scripts and hooks of a passage's lines after its heading.
pub struct BlockItems {
    pub body: Seq<char>,
    pub scripts: Seq<(Seq<char>, Seq<char>)>,
    pub hooks: Seq<(Seq<char>, (Seq<char>, Seq<char>))>,
}

/// The code of a fenced block opened at line `open`: the lines up to the
/// closing fence, and the line after it.
pub open spec fn fenced(ls: Seq<Seq<char>>, open: int) -> (Seq<char>, int) {
    let k = fence_from(ls, open + 1);
    (join_lines(ls.subrange(open + 1, k)), if k < ls.len() {
        k + 1
    } else {
        k
    })
}

/// Lines from `i` on.  `@hook: event` followed by fenced code declares a
/// hook; without the fence, the `@hook:` line is body text and the line
/// after it, which stood where the fence should, is passed over.  Fenced
/// code on its own is a passage script; other lines are body text.
pub open spec fn block_items(ls: Seq<Seq<char>>, i: int) -> BlockItems
    decreases ls.len() - i,
{
    if i < 0 || i >= ls.len() {
        BlockItems { body: Seq::empty(), scripts: Seq::empty(), hooks: Seq::empty() }
    } else {
        let t = trim(ls[i]);
        if starts_with(t, "@hook:"@) && i + 1 < ls.len() && is_fence(ls[i + 1]) {
            let (code, next) = fenced(ls, i + 1);
            if next <= i || next > ls.len() {
                BlockItems { body: Seq::empty(), scripts: Seq::empty(), hooks: Seq::empty() }
            } else {
                let rest = block_items(ls, next);
                BlockItems {
                    hooks: seq![(trim(t.skip(6)), (fence_lang(ls[i + 1]), code))] + rest.hooks,
                    ..rest
                }
            }
        } else if starts_with(t, "@hook:"@) {
            let rest = if i + 2 <= ls.len() {
                block_items(ls, i + 2)
            } else {
                BlockItems { body: Seq::empty(), scripts: Seq::empty(), hooks: Seq::empty() }
            };
            BlockItems { body: ls[i] + "\n"@ + rest.body, ..rest }
        } else if is_fence(ls[i]) {
            let (code, next) = fenced(ls, i);
            if next <= i || next > ls.len() {
                BlockItems { body: Seq::empty(), scripts: Seq::empty(), hooks: Seq::empty() }
            } else {
                let rest = block_items(ls, next);
                BlockItems { scripts: seq![(fence_lang(ls[i]), code)] + rest.scripts, ..rest }
            }
        } else {
            let rest = block_items(ls, i + 1);
            BlockItems { body: ls[i] + "\n"@ + rest.body, ..rest }
        }
    }
}

/// Tags: the comma-separated parts, trimmed, empty ones dropped.
pub open spec fn tag_list(parts: Seq<Seq<char>>) -> Seq<Seq<char>>
    decreases parts.len(),
{
    if parts.len() == 0 {
        Seq::empty()
    } else {
        let pre = tag_list(parts.drop_last());
        let t = trim(parts.last());
        if t.len() == 0 {
            pre
        } else {
            pre.push(t)
        }
    }
}

/// The id and tags of a heading line `# name {tag, tag}`; an id of all the
/// text where the braces do not close, and an empty id for a line that is
/// no heading.
pub open spec fn heading_of(line: Seq<char>) -> (Seq<char>, Seq<Seq<char>>) {
    let h = trim(line);
    if !starts_with(h, "# "@) {
        (Seq::empty(), Seq::empty())
    } else {
        let rest = trim(h.skip(2));
        match find_char(rest, '{') {
            Some(b) => {
                let tag_part = rest.skip(b);
                match find_char(tag_part, '}') {
                    Some(e) => (trim(rest.take(b)), tag_list(split_on(tag_part.subrange(1, e), ','))),
                    None => (rest, Seq::empty()),
                }
            },
            None => (rest, Seq::empty()),
        }
    }
}

/// A passage by its content.
pub struct PassageModel {
    pub id: Seq<char>,
    pub tags: Seq<Seq<char>>,
    pub body: Seq<NodeModel>,
    pub scripts: Seq<(Seq<char>, Seq<char>)>,
    pub hooks: Seq<(Seq<char>, (Seq<char>, Seq<char>))>,
}

pub open spec fn passage_conforms(n: PassageNode, m: PassageModel) -> bool {
    &&& n.id@ == m.id
    &&& crate::text::strings_model(n.tags@) == m.tags
    &&& nodes_conform(n.body@, m.body)
    &&& n.scripts@.map_values(|s: PassageScript| (s.lang@, s.code@)) == m.scripts
    &&& n.hooks@.map_values(|h: HookDeclaration| (h.event@, (h.script.lang@, h.script.code@)))
        == m.hooks
}

/// First line from `j` that is not blank, or the end.
pub open spec fn nonblank_from(ls: Seq<Seq<char>>, j: int) -> int
    decreases ls.len() - j,
{
    if 0 <= j < ls.len() && trim(ls[j]).len() == 0 {
        nonblank_from(ls, j + 1)
    } else {
        j
    }
}

/// P2 and P3 for one block: the passage and the diagnostics of its body;
/// `None` where the inline grammar fails outright.  Blank lines before the
/// heading are skipped; the heading is the first line that is not blank.
pub open spec fn passage_block_spec(block: Seq<char>) -> Option<(PassageModel, Seq<DiagModel>)> {
    let ls = lines_of(block);
    let h = nonblank_from(ls, 0);
    let (id, tags) = if h < ls.len() {
        heading_of(ls[h])
    } else {
        (Seq::empty(), Seq::empty())
    };
    let items = block_items(if h < ls.len() { ls.skip(h + 1) } else { Seq::empty() }, 0);
    match inline_spec(items.body) {
        Some(body) => Some(
            (
                PassageModel { id, tags, body, scripts: items.scripts, hooks: items.hooks },
                body_diags(body),
            ),
        ),
        None => None,
    }
}

// ── frontmatter ─────────────────────────────────────────────────────────

/// A configuration by its content.
pub struct ConfigModel {
    pub title: Seq<char>,
    pub author: Seq<char>,
    pub start: Seq<char>,
    pub version: Seq<char>,
    pub save_slots: u8,
}

pub open spec fn config_model(c: StoryConfig) -> ConfigModel {
    ConfigModel {
        title: c.title@,
        author: c.author@,
        start: c.start@,
        version: c.version@,
        save_slots: c.save_slots,
    }
}

/// The configuration and diagnostics of the frontmatter text, given what
/// decoding it gave (asked only where it is not blank): a blank one gives
/// empty fields and 10 save slots; a decoding error gives the default
/// configuration and an error.
pub open spec fn frontmatter_spec(yaml: Seq<char>, decoded: Result<ConfigModel, Seq<char>>) -> (
    ConfigModel,
    Seq<DiagModel>,
) {
    if trim(yaml).len() == 0 {
        (
            ConfigModel {
                title: Seq::empty(),
                author: Seq::empty(),
                start: Seq::empty(),
                version: Seq::empty(),
                save_slots: 10,
            },
            Seq::empty(),
        )
    } else {
        match decoded {
            Ok(c) => (c, Seq::empty()),
            Err(m) => (
                ConfigModel {
                    title: Seq::empty(),
                    author: Seq::empty(),
                    start: Seq::empty(),
                    version: Seq::empty(),
                    save_slots: 0,
                },
                seq![
                    DiagModel {
                        severity: Severity::Error,
                        message: "frontmatter parse error: "@ + m,
                        span: None,
                    },
                ],
            ),
        }
    }
}

// ── P4 ──────────────────────────────────────────────────────────────────

/// A warning for each edge whose target is no passage, in edge order.
pub open spec fn semantic_diags(edges: Seq<PassageEdge>, nodes: Seq<PassageNode>) -> Seq<DiagModel>
    decreases edges.len(),
{
    if edges.len() == 0 {
        Seq::empty()
    } else {
        let pre = semantic_diags(edges.drop_last(), nodes);
        let e = edges.last();
        if node_index(nodes, e.to@) is None {
            pre.push(
                DiagModel {
                    severity: Severity::Warning,
                    message: "link target '"@ + e.to@ + "' not found (from '"@ + e.from@ + "')"@,
                    span: None,
                },
            )
        } else {
            pre
        }
    }
}

/// Some edge leads to `id`.
pub open spec fn has_incoming(edges: Seq<PassageEdge>, id: Seq<char>) -> bool {
    exists|i: int| 0 <= i < edges.len() && #[trigger] edges[i].to@ == id
}

/// One warning per passage, in order, that is not the start passage and
/// that no link or display leads to.
pub open spec fn unused_diags(nodes: Seq<PassageNode>, edges: Seq<PassageEdge>, start: Seq<char>) -> Seq<
    DiagModel,
>
    decreases nodes.len(),
{
    if nodes.len() == 0 {
        Seq::empty()
    } else {
        let pre = unused_diags(nodes.drop_last(), edges, start);
        let id = nodes.last().id@;
        if id != start && !has_incoming(edges, id) {
            pre.push(
                DiagModel {
                    severity: Severity::Warning,
                    message: "passage '"@ + id + "' is never linked to"@,
                    span: None,
                },
            )
        } else {
            pre
        }
    }
}

/// An error where the start passage is named but missing.
pub open spec fn start_diags(start: Seq<char>, nodes: Seq<PassageNode>) -> Seq<DiagModel> {
    if start.len() > 0 && node_index(nodes, start) is None {
        seq![
            DiagModel {
                severity: Severity::Error,
                message: "start passage '"@ + start + "' not found"@,
                span: None,
            },
        ]
    } else {
        Seq::empty()
    }
}

// ── lines, exec ─────────────────────────────────────────────────────────

fn strip_cr_exec(l: &Vec<char>) -> (r: Vec<char>)
    ensures
        r@ == strip_cr(l@),
{
    if l.len() > 0 && l[l.len() - 1] == '\r' {
        let r = sub_chars(l, 0, l.len() - 1);
        assert(r@ =~= l@.drop_last());
        r
    } else {
        sub_chars(l, 0, l.len())
    }
}

/// The lines of a text (`str::lines`).
fn lines_exec(s: &Vec<char>) -> (r: Vec<Vec<char>>)
    ensures
        seqs_of(r@) == lines_of(s@),
{
    let parts = split_chars(s, '\n');
    let ghost ps = seqs_of(parts@);
    let n = parts.len();
    let mut out: Vec<Vec<char>> = Vec::new();
    let mut k: usize = 0;
    while k + 1 < n
        invariant
            n == parts.len(),
            n >= 1,
            k + 1 <= n,
            ps == seqs_of(parts@),
            seqs_of(out@) == Seq::new(k as nat, |i: int| strip_cr(ps[i])),
        decreases n - k,
    {
        let ghost before = out@;
        let l = strip_cr_exec(&parts[k]);
        out.push(l);
        assert(out@ == before.push(l));
        assert(seqs_of(out@) =~= seqs_of(before).push(l@));
        assert(seqs_of(out@) =~= Seq::new((k + 1) as nat, |i: int| strip_cr(ps[i])));
        k = k + 1;
    }
    if parts[n - 1].len() > 0 {
        let ghost before = out@;
        let last = sub_chars(&parts[n - 1], 0, parts[n - 1].len());
        assert(last@ =~= ps.last());
        out.push(last);
        assert(out@ == before.push(last));
        assert(seqs_of(out@) =~= seqs_of(before).push(ps.last()));
    }
    out
}

/// Lines `from..to` joined by `\n`.
fn join_lines_exec(ls: &Vec<Vec<char>>, from: usize, to: usize) -> (r: Vec<char>)
    requires
        from <= to <= ls.len(),
    ensures
        r@ == join_lines(seqs_of(ls@).subrange(from as int, to as int)),
{
    let ghost all = seqs_of(ls@).subrange(from as int, to as int);
    proof {
        reveal_strlit("\n");
    }
    let mut out: Vec<char> = Vec::new();
    let mut k: usize = from;
    while k < to
        invariant
            from <= k <= to <= ls.len(),
            all == seqs_of(ls@).subrange(from as int, to as int),
            out@ == join_lines(all.take(k - from)),
        decreases to - k,
    {
        let ghost t = all.take(k + 1 - from);
        assert(t.drop_last() =~= all.take(k - from));
        if k > from {
            let ghost pre = out@;
            out.push('\n');
            proof {
                reveal_strlit("\n");
            }
            assert(out@ =~= pre + "\n"@);
        } else {
            assert(all.take(0) =~= Seq::<Seq<char>>::empty());
        }
        assert(all[k - from] == ls@[k as int]@);
        let ghost before = out@;
        let mut j: usize = 0;
        while j < ls[k].len()
            invariant
                k < to <= ls.len(),
                j <= ls@[k as int]@.len(),
                out@ == before + ls@[k as int]@.take(j as int),
            decreases ls@[k as int]@.len() - j,
        {
            out.push(ls[k][j]);
            assert(ls@[k as int]@.take(j + 1) =~= ls@[k as int]@.take(j as int).push(
                ls@[k as int]@[j as int],
            ));
            j = j + 1;
        }
        assert(ls@[k as int]@.take(ls@[k as int]@.len() as int) =~= ls@[k as int]@);
        if k > from {
            assert(out@ =~= join_lines(all.take(k - from)) + "\n"@ + all[k - from]);
        } else {
            assert(out@ =~= all[0]);
        }
        k = k + 1;
    }
    assert(all.take(to - from) =~= all);
    out
}

/// Copies of lines `from..`.
fn lines_from(ls: &Vec<Vec<char>>, from: usize) -> (r: Vec<Vec<char>>)
    requires
        from <= ls.len(),
    ensures
        seqs_of(r@) == seqs_of(ls@).skip(from as int),
{
    let mut out: Vec<Vec<char>> = Vec::new();
    let mut k: usize = from;
    while k < ls.len()
        invariant
            from <= k <= ls.len(),
            seqs_of(out@) == seqs_of(ls@).subrange(from as int, k as int),
        decreases ls.len() - k,
    {
        let ghost before = out@;
        let l = sub_chars(&ls[k], 0, ls[k].len());
        assert(l@ =~= ls@[k as int]@);
        out.push(l);
        assert(out@ == before.push(l));
        assert(seqs_of(out@) =~= seqs_of(before).push(l@));
        assert(seqs_of(ls@).subrange(from as int, k + 1) =~= seqs_of(ls@).subrange(from as int, k as int).push(
            ls@[k as int]@,
        ));
        assert(seqs_of(out@) =~= seqs_of(ls@).subrange(from as int, k + 1));
        k = k + 1;
    }
    assert(seqs_of(ls@).subrange(from as int, ls.len() as int) =~= seqs_of(ls@).skip(from as int));
    out
}

// ── P1, exec ────────────────────────────────────────────────────────────

fn is_rule_exec(l: &Vec<char>) -> (r: bool)
    ensures
        r == is_rule(l@),
{
    chars_eq_str(&trim_chars(l), "---")
}

pub open spec fn blocks_text(v: Seq<String>) -> Seq<Seq<char>> {
    Seq::new(v.len(), |i: int| v[i]@)
}

/// Split text into passage blocks.  A new passage starts at `# name` or
/// after `---`.
pub fn split_into_passage_blocks(text: &str, diagnostics: &mut Vec<Diagnostic>) -> (r: Vec<String>)
    ensures
        blocks_text(r@) == passage_blocks(text@),
        *final(diagnostics) == *old(diagnostics),
{
    let ls = lines_exec(&str_chars(text));
    let ghost lm = seqs_of(ls@);
    proof {
        reveal_strlit("---");
        reveal_strlit("# ");
        reveal_strlit("## ");
        reveal_strlit("\n");
    }
    let mut blocks: Vec<String> = Vec::new();
    assert(lm.take(0) =~= Seq::<Seq<char>>::empty());
    assert(blocks_text(blocks@) =~= Seq::<Seq<char>>::empty());
    let mut current: Vec<char> = Vec::new();
    let mut seen = false;
    let mut k: usize = 0;
    while k < ls.len()
        invariant
            k <= ls.len(),
            lm == seqs_of(ls@),
            split_lines(lm.take(k as int)) == (BlockSplit {
                blocks: blocks_text(blocks@),
                current: current@,
                seen,
            }),
        decreases ls.len() - k,
    {
        assert(lm.take(k + 1).drop_last() =~= lm.take(k as int));
        proof {
            reveal_strlit("---");
            reveal_strlit("# ");
            reveal_strlit("## ");
            reveal_strlit("\n");
        }
        let line = &ls[k];
        let t = trim_chars(line);
        let keep = trim_chars(&current).len() > 0;
        let ghost before = blocks@;
        if chars_eq_str(&t, "---") {
            if keep {
                blocks.push(string_of(&current));
                assert(blocks_text(blocks@) =~= blocks_text(before).push(current@));
            }
            current = Vec::new();
            seen = false;
        } else if chars_start_with(&t, "# ") && !chars_start_with(&t, "## ") {
            if keep {
                blocks.push(string_of(&current));
                assert(blocks_text(blocks@) =~= blocks_text(before).push(current@));
            }
            let mut next = sub_chars(line, 0, line.len());
            assert(next@ =~= line@);
            next.push('\n');
            assert(next@ =~= line@.push('\n'));
            assert(line@.push('\n') =~= line@ + "\n"@);
            current = next;
            seen = true;
        } else if !seen && t.len() == 0 {
        } else {
            let ghost cur0 = current@;
            let mut j: usize = 0;
            while j < line.len()
                invariant
                    j <= line@.len(),
                    current@ == cur0 + line@.take(j as int),
                decreases line@.len() - j,
            {
                current.push(line[j]);
                assert(line@.take(j + 1) =~= line@.take(j as int).push(line@[j as int]));
                j = j + 1;
            }
            assert(line@.take(line@.len() as int) =~= line@);
            let ghost mid = current@;
            current.push('\n');
            assert(current@ =~= mid.push('\n'));
            assert(current@ =~= cur0 + line@ + "\n"@);
            seen = seen || t.len() > 0;
        }
        k = k + 1;
    }
    assert(lm.take(ls.len() as int) =~= lm);
    if trim_chars(&current).len() > 0 {
        let ghost before = blocks@;
        blocks.push(string_of(&current));
        assert(blocks_text(blocks@) =~= blocks_text(before).push(current@));
    }
    blocks
}

/// P1: split the source into its frontmatter text and its passage blocks.
pub fn split_source(source: &str, diagnostics: &mut Vec<Diagnostic>) -> (r: (String, Vec<String>))
    ensures
        r.0@ == source_split(source@).0,
        blocks_text(r.1@) == source_split(source@).1,
        *final(diagnostics) == *old(diagnostics),
{
    let ls = lines_exec(&str_chars(source));
    let ghost lm = seqs_of(ls@);
    let (fm, rest): (Vec<char>, Vec<Vec<char>>) = if ls.len() > 0 && is_rule_exec(&ls[0]) {
        let mut k: usize = 1;
        while k < ls.len() && !is_rule_exec(&ls[k])
            invariant
                1 <= k <= ls.len(),
                lm == seqs_of(ls@),
                rule_from(lm, k as int) == rule_from(lm, 1),
            decreases ls.len() - k,
        {
            k = k + 1;
        }
        let fm = join_lines_exec(&ls, 1, k);
        let rest = if k < ls.len() {
            lines_from(&ls, k + 1)
        } else {
            Vec::new()
        };
        assert(k >= ls.len() ==> seqs_of(rest@) =~= Seq::<Seq<char>>::empty());
        (fm, rest)
    } else {
        assert(ls@.skip(0) =~= ls@);
        assert(seqs_of(ls@).skip(0) =~= seqs_of(ls@));
        (Vec::new(), lines_from(&ls, 0))
    };
    let text = join_lines_exec(&rest, 0, rest.len());
    assert(seqs_of(rest@).subrange(0, rest.len() as int) =~= seqs_of(rest@));
    let t = string_of(&text);
    let blocks = split_into_passage_blocks(t.as_str(), diagnostics);
    (string_of(&fm), blocks)
}

// ── P2, exec ────────────────────────────────────────────────────────────

/// What the block's lines have given so far, followed by what the rest give.
pub open spec fn combine(a: BlockItems, b: BlockItems) -> BlockItems {
    BlockItems { body: a.body + b.body, scripts: a.scripts + b.scripts, hooks: a.hooks + b.hooks }
}

pub open spec fn scripts_model(v: Seq<PassageScript>) -> Seq<(Seq<char>, Seq<char>)> {
    v.map_values(|s: PassageScript| (s.lang@, s.code@))
}

pub open spec fn hooks_model(v: Seq<HookDeclaration>) -> Seq<(Seq<char>, (Seq<char>, Seq<char>))> {
    v.map_values(|h: HookDeclaration| (h.event@, (h.script.lang@, h.script.code@)))
}

proof fn lemma_fence_from(ls: Seq<Seq<char>>, j: int)
    requires
        0 <= j <= ls.len(),
    ensures
        j <= fence_from(ls, j) <= ls.len(),
    decreases ls.len() - j,
{
    if j < ls.len() && !is_fence(ls[j]) {
        lemma_fence_from(ls, j + 1);
    }
}

fn is_fence_exec(l: &Vec<char>) -> (r: bool)
    ensures
        r == is_fence(l@),
{
    chars_start_with(&trim_chars(l), "```")
}

fn fence_lang_exec(l: &Vec<char>) -> (r: Vec<char>)
    requires
        is_fence(l@),
    ensures
        r@ == fence_lang(l@),
{
    proof {
        reveal_strlit("```");
        reveal_strlit("rhai");
    }
    let t = trim_chars(l);
    let info = trim_chars(&sub_chars(&t, 3, t.len()));
    assert(t@.subrange(3, t@.len() as int) =~= t@.skip(3));
    if info.len() == 0 {
        str_chars("rhai")
    } else {
        info
    }
}

/// The line after fenced code opened at `open`: the closing fence.
fn fence_end(ls: &Vec<Vec<char>>, open: usize) -> (k: usize)
    requires
        open < ls.len(),
    ensures
        k == fence_from(seqs_of(ls@), open + 1),
        open + 1 <= k <= ls.len(),
{
    let ghost lm = seqs_of(ls@);
    proof {
        lemma_fence_from(lm, open + 1);
    }
    let mut k: usize = open + 1;
    while k < ls.len() && !is_fence_exec(&ls[k])
        invariant
            open + 1 <= k <= ls.len(),
            lm == seqs_of(ls@),
            fence_from(lm, k as int) == fence_from(lm, open + 1),
        decreases ls.len() - k,
    {
        k = k + 1;
    }
    k
}

/// `out` followed by the line and a `\n`.
fn push_line(out: &mut Vec<char>, l: &Vec<char>)
    ensures
        final(out)@ == old(out)@ + l@ + "\n"@,
{
    proof {
        reveal_strlit("\n");
    }
    let ghost start = out@;
    let mut j: usize = 0;
    while j < l.len()
        invariant
            j <= l@.len(),
            out@ == start + l@.take(j as int),
        decreases l@.len() - j,
    {
        out.push(l[j]);
        assert(l@.take(j + 1) =~= l@.take(j as int).push(l@[j as int]));
        j = j + 1;
    }
    assert(l@.take(l@.len() as int) =~= l@);
    let ghost mid = out@;
    out.push('\n');
    assert(out@ =~= mid.push('\n'));
    proof {
        reveal_strlit("\n");
    }
    assert(out@ =~= start + l@ + "\n"@);
}

/// The body text, scripts and hooks of a passage's lines.
fn block_items_exec(ls: &Vec<Vec<char>>) -> (r: (Vec<char>, Vec<PassageScript>, Vec<HookDeclaration>))
    ensures
        (BlockItems { body: r.0@, scripts: scripts_model(r.1@), hooks: hooks_model(r.2@) })
            == block_items(seqs_of(ls@), 0),
{
    let ghost lm = seqs_of(ls@);
    let n = ls.len();
    let mut body: Vec<char> = Vec::new();
    let mut scripts: Vec<PassageScript> = Vec::new();
    let mut hooks: Vec<HookDeclaration> = Vec::new();
    assert(combine(
        BlockItems { body: body@, scripts: scripts_model(scripts@), hooks: hooks_model(hooks@) },
        block_items(lm, 0),
    ) =~= block_items(lm, 0));
    let mut i: usize = 0;
    while i < n
        invariant
            i <= n == ls.len(),
            lm == seqs_of(ls@),
            combine(
                BlockItems { body: body@, scripts: scripts_model(scripts@), hooks: hooks_model(hooks@) },
                block_items(lm, i as int),
            ) == block_items(lm, 0),
        decreases n - i,
    {
        proof {
            reveal_strlit("@hook:");
        }
        let ghost acc = BlockItems {
            body: body@,
            scripts: scripts_model(scripts@),
            hooks: hooks_model(hooks@),
        };
        let t = trim_chars(&ls[i]);
        let is_hook = chars_start_with(&t, "@hook:");
        if is_hook && i + 1 < n && is_fence_exec(&ls[i + 1]) {
            let k = fence_end(ls, i + 1);
            let code = join_lines_exec(ls, i + 2, k);
            let next = if k < n {
                k + 1
            } else {
                k
            };
            let event = trim_chars(&sub_chars(&t, 6, t.len()));
            assert(t@.subrange(6, t@.len() as int) =~= t@.skip(6));
            let lang = fence_lang_exec(&ls[i + 1]);
            let ghost h = (event@, (lang@, code@));
            let ghost before = hooks@;
            hooks.push(
                HookDeclaration {
                    event: string_of(&event),
                    script: PassageScript { lang: string_of(&lang), code: string_of(&code) },
                },
            );
            assert(hooks_model(hooks@) =~= hooks_model(before).push(h));
            let ghost rest = block_items(lm, next as int);
            assert(block_items(lm, i as int) == BlockItems { hooks: seq![h] + rest.hooks, ..rest });
            assert(hooks_model(before).push(h) + rest.hooks =~= hooks_model(before) + (seq![h]
                + rest.hooks));
            i = next;
        } else if is_hook {
            let ghost before = body@;
            push_line(&mut body, &ls[i]);
            let next = if i + 1 < n {
                i + 2
            } else {
                n
            };
            let ghost rest = block_items(lm, next as int);
            assert(block_items(lm, i as int) == BlockItems { body: lm[i as int] + "\n"@ + rest.body, ..rest });
            assert(before + lm[i as int] + "\n"@ + rest.body =~= before + (lm[i as int] + "\n"@
                + rest.body));
            i = next;
        } else if is_fence_exec(&ls[i]) {
            let k = fence_end(ls, i);
            let code = join_lines_exec(ls, i + 1, k);
            let next = if k < n {
                k + 1
            } else {
                k
            };
            let lang = fence_lang_exec(&ls[i]);
            let ghost sc = (lang@, code@);
            let ghost before = scripts@;
            scripts.push(PassageScript { lang: string_of(&lang), code: string_of(&code) });
            assert(scripts_model(scripts@) =~= scripts_model(before).push(sc));
            let ghost rest = block_items(lm, next as int);
            assert(block_items(lm, i as int) == BlockItems { scripts: seq![sc] + rest.scripts, ..rest });
            assert(scripts_model(before).push(sc) + rest.scripts =~= scripts_model(before) + (seq![sc]
                + rest.scripts));
            i = next;
        } else {
            let ghost before = body@;
            push_line(&mut body, &ls[i]);
            let ghost rest = block_items(lm, i + 1);
            assert(block_items(lm, i as int) == BlockItems { body: lm[i as int] + "\n"@ + rest.body, ..rest });
            assert(before + lm[i as int] + "\n"@ + rest.body =~= before + (lm[i as int] + "\n"@
                + rest.body));
            i = i + 1;
        }
    }
    let ghost acc = BlockItems { body: body@, scripts: scripts_model(scripts@), hooks: hooks_model(hooks@) };
    assert(acc.body + Seq::<char>::empty() =~= acc.body);
    assert(acc.scripts + Seq::<(Seq<char>, Seq<char>)>::empty() =~= acc.scripts);
    assert(acc.hooks + Seq::<(Seq<char>, (Seq<char>, Seq<char>))>::empty() =~= acc.hooks);
    (body, scripts, hooks)
}

fn tag_list_exec(parts: &Vec<Vec<char>>) -> (r: Vec<String>)
    ensures
        strings_model(r@) == tag_list(seqs_of(parts@)),
{
    let mut out: Vec<String> = Vec::new();
    let mut k: usize = 0;
    while k < parts.len()
        invariant
            k <= parts.len(),
            strings_model(out@) == tag_list(seqs_of(parts@).take(k as int)),
        decreases parts.len() - k,
    {
        let ghost t = seqs_of(parts@).take(k + 1);
        assert(t.drop_last() =~= seqs_of(parts@).take(k as int));
        let tt = trim_chars(&parts[k]);
        if tt.len() > 0 {
            let ghost before = out@;
            out.push(string_of(&tt));
            assert(strings_model(out@) =~= strings_model(before).push(tt@));
        }
        k = k + 1;
    }
    assert(seqs_of(parts@).take(parts.len() as int) =~= seqs_of(parts@));
    out
}

/// The id and tags of a heading line.
fn heading_exec(line: &Vec<char>) -> (r: (Vec<char>, Vec<String>))
    ensures
        r.0@ == heading_of(line@).0,
        strings_model(r.1@) == heading_of(line@).1,
{
    proof {
        reveal_strlit("# ");
    }
    let h = trim_chars(line);
    if !chars_start_with(&h, "# ") {
        let none: Vec<String> = Vec::new();
        assert(strings_model(none@) =~= Seq::<Seq<char>>::empty());
        return (Vec::new(), none);
    }
    let rest = trim_chars(&sub_chars(&h, 2, h.len()));
    assert(h@.subrange(2, h@.len() as int) =~= h@.skip(2));
    let none: Vec<String> = Vec::new();
    assert(strings_model(none@) =~= Seq::<Seq<char>>::empty());
    match find_char_in(&rest, '{') {
        Some(b) => {
            let tag_part = sub_chars(&rest, b, rest.len());
            assert(tag_part@ =~= rest@.skip(b as int));
            match find_char_in(&tag_part, '}') {
                Some(e) => {
                    assert(first_at(tag_part@, '}', e as int));
                    assert(tag_part@[0] == '{');
                    let id = trim_chars(&sub_chars(&rest, 0, b));
                    assert(rest@.subrange(0, b as int) =~= rest@.take(b as int));
                    let inner = sub_chars(&tag_part, 1, e);
                    let parts = split_chars(&inner, ',');
                    (id, tag_list_exec(&parts))
                },
                None => (rest, none),
            }
        },
        None => (rest, none),
    }
}

/// P2 and P3 for one block; `None` where the inline grammar fails.
fn parse_passage_block(block: &str, arith: &dyn FloatArith) -> (r: Option<
    (PassageNode, Vec<Diagnostic>),
>)
    ensures
        match passage_block_spec(block@) {
            Some((m, d)) => r matches Some((n, ds)) && passage_conforms(n, m) && diags_model(ds@)
                == d,
            None => r is None,
        },
{
    let ls = lines_exec(&str_chars(block));
    let ghost lm = seqs_of(ls@);
    let mut h: usize = 0;
    while h < ls.len() && trim_chars(&ls[h]).len() == 0
        invariant
            h <= ls.len(),
            lm == seqs_of(ls@),
            nonblank_from(lm, h as int) == nonblank_from(lm, 0),
        decreases ls.len() - h,
    {
        h = h + 1;
    }
    let (id, tags) = if h < ls.len() {
        heading_exec(&ls[h])
    } else {
        let none: Vec<String> = Vec::new();
        assert(strings_model(none@) =~= Seq::<Seq<char>>::empty());
        (Vec::new(), none)
    };
    let rest = if h < ls.len() {
        lines_from(&ls, h + 1)
    } else {
        let none: Vec<Vec<char>> = Vec::new();
        assert(seqs_of(none@) =~= Seq::<Seq<char>>::empty());
        none
    };
    let (body_text, scripts, hooks) = block_items_exec(&rest);
    let bt = string_of(&body_text);
    match try_parse_inline(bt.as_str(), arith) {
        Some((body, diags)) => {
            let node = PassageNode { id: string_of(&id), tags, body, scripts, hooks };
            Some((node, diags))
        },
        None => None,
    }
}

// ── the whole file ──────────────────────────────────────────────────────

/// The passages and diagnostics of the blocks, in order; `None` where one
/// block's inline grammar fails.
pub open spec fn blocks_spec(blocks: Seq<Seq<char>>) -> Option<(Seq<PassageModel>, Seq<DiagModel>)>
    decreases blocks.len(),
{
    if blocks.len() == 0 {
        Some((Seq::empty(), Seq::empty()))
    } else {
        match (blocks_spec(blocks.drop_last()), passage_block_spec(blocks.last())) {
            (Some((ms, ds)), Some((m, d))) => Some((ms.push(m), ds + d)),
            _ => None,
        }
    }
}

/// A graph whose nodes are the passages, with the edges that their bodies make.
pub open spec fn graph_conforms(g: PassageGraph, ms: Seq<PassageModel>) -> bool {
    &&& g.nodes@.len() == ms.len()
    &&& forall|i: int| 0 <= i < ms.len() ==> passage_conforms(#[trigger] g.nodes@[i], ms[i])
    &&& g.edges@.map_values(|e: PassageEdge| edge_model(e)) == graph_edges(g.nodes@)
}

/// What a decoded configuration holds.
pub open spec fn decoded_model(d: Result<StoryConfig, String>) -> Result<ConfigModel, Seq<char>> {
    match d {
        Ok(c) => Ok(config_model(c)),
        Err(m) => Err(m@),
    }
}

/// A `.pathos` source is parsed (rather than rejected, where the inline
/// grammar fails) exactly when each of its blocks is.
pub open spec fn pathos_accepts(source: Seq<char>) -> bool {
    blocks_spec(source_split(source).1) is Some
}

/// The output of parsing a `.pathos` source, given what decoding its
/// frontmatter gave: the configuration, the passages, and the diagnostics
/// of frontmatter and blocks (before those on the start passage and on
/// links, which depend on the graph).
pub open spec fn pathos_spec(source: Seq<char>, decoded: Result<ConfigModel, Seq<char>>) -> Option<
    (ConfigModel, Seq<PassageModel>, Seq<DiagModel>),
> {
    let (fm, blocks) = source_split(source);
    let (cfg, fd) = frontmatter_spec(fm, decoded);
    match blocks_spec(blocks) {
        Some((ms, bd)) => Some((cfg, ms, fd + bd)),
        None => None,
    }
}

/// The output conforms to the configuration, passages and leading
/// diagnostics; after those come the start check, one warning per link
/// to a missing passage, one per passage that nothing leads to, and, passage
/// by passage, one warning per call of an unknown function in a condition
/// and one error per script or hook in an unknown language.
pub open spec fn pathos_output(out: ParseOutput, cfg: ConfigModel, ms: Seq<PassageModel>, pre: Seq<DiagModel>) -> bool {
    &&& config_model(out.config) == cfg
    &&& graph_conforms(out.graph, ms)
    &&& diags_model(out.diagnostics@) == pre + start_diags(cfg.start, out.graph.nodes@)
        + semantic_diags(out.graph.edges@, out.graph.nodes@) + unused_diags(
        out.graph.nodes@,
        out.graph.edges@,
        cfg.start,
    ) + story_check_diags(out.graph.nodes@)
}

/// `dst` followed by `src`.
pub fn append_diags(dst: &mut Vec<Diagnostic>, src: Vec<Diagnostic>)
    ensures
        diags_model(final(dst)@) == diags_model(old(dst)@) + diags_model(src@),
{
    let mut src = src;
    let ghost a = dst@;
    let ghost b = src@;
    dst.append(&mut src);
    assert(dst@ == a + b);
    assert(diags_model(dst@) =~= diags_model(a) + diags_model(b));
}

/// The configuration and diagnostics of the frontmatter text, given what
/// decoding it gave (looked at only where the text is not blank).
pub fn parse_frontmatter(yaml: &str, decoded: Result<StoryConfig, String>) -> (r: (StoryConfig, Vec<Diagnostic>))
    ensures
        (config_model(r.0), diags_model(r.1@)) == frontmatter_spec(yaml@, decoded_model(decoded)),
{
    let mut diags: Vec<Diagnostic> = Vec::new();
    if trim_str(yaml).len() == 0 {
        let config = StoryConfig::new(String::new(), String::new(), String::new(), String::new(), 10);
        assert(diags_model(diags@) =~= Seq::<DiagModel>::empty());
        return (config, diags);
    }
    match decoded {
        Ok(c) => {
            assert(diags_model(diags@) =~= Seq::<DiagModel>::empty());
            (c, diags)
        },
        Err(m) => {
            diags.push(Diagnostic::error(concat2("frontmatter parse error: ", m.as_str())));
            assert(diags_model(diags@) =~= seq![
                DiagModel {
                    severity: Severity::Error,
                    message: "frontmatter parse error: "@ + m@,
                    span: None,
                },
            ]);
            (StoryConfig::default(), diags)
        },
    }
}

/// P2 and P3 for each block, in order.
fn parse_blocks(blocks: &Vec<String>, arith: &dyn FloatArith) -> (r: Option<
    (Vec<PassageNode>, Vec<Diagnostic>),
>)
    ensures
        match blocks_spec(blocks_text(blocks@)) {
            Some((ms, d)) => r matches Some((ns, ds)) && ns@.len() == ms.len() && (forall|i: int|
                0 <= i < ms.len() ==> passage_conforms(#[trigger] ns@[i], ms[i])) && diags_model(ds@)
                == d,
            None => r is None,
        },
{
    let ghost bt = blocks_text(blocks@);
    let mut nodes: Vec<PassageNode> = Vec::new();
    let mut diags: Vec<Diagnostic> = Vec::new();
    let ghost mut ms: Seq<PassageModel> = Seq::empty();
    assert(bt.take(0) =~= Seq::<Seq<char>>::empty());
    assert(diags_model(diags@) =~= Seq::<DiagModel>::empty());
    let mut k: usize = 0;
    while k < blocks.len()
        invariant
            k <= blocks.len(),
            bt == blocks_text(blocks@),
            blocks_spec(bt.take(k as int)) == Some((ms, diags_model(diags@))),
            nodes@.len() == ms.len(),
            forall|i: int| 0 <= i < ms.len() ==> passage_conforms(#[trigger] nodes@[i], ms[i]),
        decreases blocks.len() - k,
    {
        let ghost t = bt.take(k + 1);
        assert(t.drop_last() =~= bt.take(k as int));
        assert(t.last() == blocks@[k as int]@);
        match parse_passage_block(blocks[k].as_str(), arith) {
            Some((node, d)) => {
                let ghost m = passage_block_spec(blocks@[k as int]@).unwrap().0;
                nodes.push(node);
                append_diags(&mut diags, d);
                proof {
                    ms = ms.push(m);
                }
                assert(forall|i: int| 0 <= i < ms.len() ==> passage_conforms(#[trigger] nodes@[i], ms[i]));
            },
            None => {
                proof {
                    lemma_blocks_spec_none(bt, k as int);
                }
                return None;
            },
        }
        k = k + 1;
    }
    assert(bt.take(blocks.len() as int) =~= bt);
    Some((nodes, diags))
}

proof fn lemma_blocks_spec_none(bt: Seq<Seq<char>>, k: int)
    requires
        0 <= k < bt.len(),
        passage_block_spec(bt[k]) is None,
    ensures
        blocks_spec(bt) is None,
    decreases bt.len(),
{
    if k < bt.len() - 1 {
        assert(bt.drop_last()[k] == bt[k]);
        lemma_blocks_spec_none(bt.drop_last(), k);
    }
}

/// P4: a warning for each edge whose target is no passage.
fn semantic_analysis(graph: &PassageGraph) -> (r: Vec<Diagnostic>)
    ensures
        diags_model(r@) == semantic_diags(graph.edges@, graph.nodes@),
{
    let mut diags: Vec<Diagnostic> = Vec::new();
    let mut k: usize = 0;
    assert(diags_model(diags@) =~= semantic_diags(graph.edges@.take(0), graph.nodes@));
    while k < graph.edges.len()
        invariant
            k <= graph.edges.len(),
            diags_model(diags@) == semantic_diags(graph.edges@.take(k as int), graph.nodes@),
        decreases graph.edges.len() - k,
    {
        let ghost t = graph.edges@.take(k + 1);
        assert(t.drop_last() =~= graph.edges@.take(k as int));
        let e = &graph.edges[k];
        if graph.index_of(e.to.as_str()).is_none() {
            let ghost before = diags@;
            let a = concat3("link target '", e.to.as_str(), "' not found (from '");
            let m = concat3(a.as_str(), e.from.as_str(), "')");
            diags.push(Diagnostic::warning(m));
            assert(diags_model(diags@) =~= diags_model(before).push(diags@.last().model()));
        }
        k = k + 1;
    }
    assert(graph.edges@.take(graph.edges.len() as int) =~= graph.edges@);
    diags
}

/// Whether some edge leads to `id`.
fn has_incoming_exec(edges: &Vec<PassageEdge>, id: &String) -> (r: bool)
    ensures
        r == has_incoming(edges@, id@),
{
    let mut k: usize = 0;
    while k < edges.len()
        invariant
            k <= edges.len(),
            forall|i: int| 0 <= i < k ==> #[trigger] edges@[i].to@ != id@,
        decreases edges.len() - k,
    {
        if string_eq(&edges[k].to, id) {
            return true;
        }
        k = k + 1;
    }
    false
}

/// One warning per passage that is not the start and that nothing leads to.
fn unused_check(graph: &PassageGraph, start: &String) -> (r: Vec<Diagnostic>)
    ensures
        diags_model(r@) == unused_diags(graph.nodes@, graph.edges@, start@),
{
    let mut diags: Vec<Diagnostic> = Vec::new();
    let mut k: usize = 0;
    assert(diags_model(diags@) =~= unused_diags(graph.nodes@.take(0), graph.edges@, start@));
    while k < graph.nodes.len()
        invariant
            k <= graph.nodes.len(),
            diags_model(diags@) == unused_diags(graph.nodes@.take(k as int), graph.edges@, start@),
        decreases graph.nodes.len() - k,
    {
        let ghost t = graph.nodes@.take(k + 1);
        assert(t.drop_last() =~= graph.nodes@.take(k as int));
        let id = &graph.nodes[k].id;
        if !string_eq(id, start) && !has_incoming_exec(&graph.edges, id) {
            let ghost before = diags@;
            let m = concat3("passage '", id.as_str(), "' is never linked to");
            diags.push(Diagnostic::warning(m));
            assert(diags_model(diags@) =~= diags_model(before).push(diags@.last().model()));
        }
        k = k + 1;
    }
    assert(graph.nodes@.take(graph.nodes.len() as int) =~= graph.nodes@);
    diags
}

/// An error where the start passage is named but missing.
fn start_check(start: &String, graph: &PassageGraph) -> (r: Vec<Diagnostic>)
    ensures
        diags_model(r@) == start_diags(start@, graph.nodes@),
{
    let mut diags: Vec<Diagnostic> = Vec::new();
    if !start.as_str().is_empty() && graph.index_of(start.as_str()).is_none() {
        let m = concat3("start passage '", start.as_str(), "' not found");
        diags.push(Diagnostic::error(m));
        assert(diags_model(diags@) =~= seq![diags@[0].model()]);
    } else {
        assert(diags_model(diags@) =~= Seq::<DiagModel>::empty());
    }
    diags
}

/// The output of the frontmatter and blocks of a `.pathos` source: the
/// passages, then the start check, the edges, the link check, the check
/// for passages that nothing leads to, and the checks of conditions and
/// script languages.
pub fn assemble_pathos(
    config: StoryConfig,
    diagnostics: Vec<Diagnostic>,
    blocks: &Vec<String>,
    arith: &dyn FloatArith,
) -> (r: Option<ParseOutput>)
    ensures
        match blocks_spec(blocks_text(blocks@)) {
            Some((ms, bd)) => r matches Some(out) && pathos_output(
                out,
                config_model(config),
                ms,
                diags_model(diagnostics@) + bd,
            ),
            None => r is None,
        },
{
    let mut diagnostics = diagnostics;
    match parse_blocks(blocks, arith) {
        Some((nodes, bd)) => {
            append_diags(&mut diagnostics, bd);
            let mut graph = PassageGraph { nodes, edges: Vec::new() };
            let sd = start_check(&config.start, &graph);
            append_diags(&mut diagnostics, sd);
            graph.rebuild_edges();
            let p4 = semantic_analysis(&graph);
            append_diags(&mut diagnostics, p4);
            let unused = unused_check(&graph, &config.start);
            append_diags(&mut diagnostics, unused);
            let checks = story_checks(&graph.nodes);
            append_diags(&mut diagnostics, checks);
            Some(ParseOutput { config, graph, diagnostics })
        },
        None => None,
    }
}

/// Decoding of YAML frontmatter, which the caller supplies (with serde).
/// Nothing here is assumed of what it returns: `parse_source` states its
/// output for whatever the decoder gave, and `parse_frontmatter` and
/// `assemble_pathos` state it exactly for each given value.
pub trait FrontmatterDecoder {
    /// The configuration that the YAML text describes, fields that it
    /// leaves out taking their defaults (`default_version`,
    /// `default_save_slots`, empty text), or the decoder's error message.
    fn decode(&self, yaml: &str) -> Result<StoryConfig, String>;
}

/// Parser for `.pathos` files (the native Pathos format).
pub struct PathosParser {
    /// Decodes the YAML frontmatter.
    pub frontmatter: Box<dyn FrontmatterDecoder>,
    /// Computes with the floating-point literals of passage bodies.
    pub arith: Box<dyn FloatArith>,
}

impl PathosParser {
    /// Parse a `.pathos` source; `None` where the inline grammar of a
    /// passage body fails.  The frontmatter decoder is asked only about
    /// frontmatter that is not blank.
    pub fn parse_source(&self, source: &str) -> (r: Option<ParseOutput>)
        ensures
            r is Some <==> pathos_accepts(source@),
            r matches Some(out) ==> exists|d: Result<ConfigModel, Seq<char>>|
                #![trigger pathos_spec(source@, d)]
                pathos_spec(source@, d) matches Some((cfg, ms, pre)) && pathos_output(
                    out,
                    cfg,
                    ms,
                    pre,
                ),
    {
        let mut diagnostics: Vec<Diagnostic> = Vec::new();
        let (fm, blocks) = split_source(source, &mut diagnostics);
        let decoded = if trim_str(fm.as_str()).len() == 0 {
            Err(String::new())
        } else {
            self.frontmatter.decode(fm.as_str())
        };
        let ghost d = decoded_model(decoded);
        let (config, fd) = parse_frontmatter(fm.as_str(), decoded);
        assert(diags_model(diagnostics@) =~= Seq::<DiagModel>::empty());
        append_diags(&mut diagnostics, fd);
        assert(diags_model(diagnostics@) =~= frontmatter_spec(fm@, d).1);
        let r = assemble_pathos(config, diagnostics, &blocks, &*self.arith);
        assert(r is Some ==> pathos_spec(source@, d) is Some);
        r
    }
}

impl FormatParser for PathosParser {
    open spec fn spec_extensions(&self) -> Seq<Seq<char>> {
        seq!["pathos"@]
    }

    fn extensions(&self) -> (r: Vec<String>) {
        let mut v: Vec<String> = Vec::new();
        v.push(String::from_str("pathos"));
        assert(v@.map_values(|s: String| s@) =~= seq!["pathos"@]);
        v
    }

    fn parse(&self, source: &str) -> (r: Option<ParseOutput>)
        ensures
            r is Some <==> pathos_accepts(source@),
            r matches Some(out) ==> exists|d: Result<ConfigModel, Seq<char>>|
                #![trigger pathos_spec(source@, d)]
                pathos_spec(source@, d) matches Some((cfg, ms, pre)) && pathos_output(
                    out,
                    cfg,
                    ms,
                    pre,
                ),
    {
        self.parse_source(source)
    }
}

} // verus!
