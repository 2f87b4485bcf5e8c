//! The inline grammar of passage bodies: text, `[[label -> target]]` links,
//! `// ...` and `<!-- ... -->` comments, `{name: args}` directives, and
//! `{if: expr} ... {else} ... {end}` blocks.
//!
//! The grammar is stated below as spec functions over positions in the
//! body's characters, one for each construct; the parser follows them.
//! Two inputs make the grammar fail outright: an `{if:}` block whose body
//! ends with an unclosed `{end`, and a value that is a lone quote; there the
//! meaning is `None`.
use vstd::prelude::*;
use crate::content::{AIMode, ContentNode, MacroArg};
use crate::expr_parser::{ExprModel, conforms, parse_expression, parse_spec};
use crate::expression::Expression;
use crate::format::{DiagModel, Diagnostic, Severity, diags_model};
use crate::text::{
    all_digits, ascii_lower, join_texts,
    chars_eq_str, find_char, find_char_in, starts_with, starts_with_at, is_alphanumeric, is_ascii_alnum, is_ascii_alphanumeric,
    is_ascii_digit, is_digit, parse_i64, parse_i64_chars, split_chars, split_on, seqs_of, str_chars,
    string_eq_str, string_of, sub_chars, trim, trim_chars, unicode_alphanumeric,
};
use crate::value::{FloatArith, Value, ValueModel, float_finite, float_negative, float_parsed, float_read, minus_text, parse_float_bits};

verus! {

// ── models ──────────────────────────────────────────────────────────────

/// A literal value; a float literal stands by its text.
pub enum LitModel {
    Value(ValueModel),
    FloatText(Seq<char>),
}

pub enum ArgModel {
    KeyValue(Seq<char>, LitModel),
    Positional(LitModel),
}

/// A content node by its content.
pub enum NodeModel {
    Text(Seq<char>),
    Link(Seq<char>, Seq<char>, Option<ExprModel>),
    StateInterp(Seq<char>),
    Conditional(ExprModel, Seq<NodeModel>, Seq<NodeModel>),
    Display(Seq<char>),
    AIBlock(AIMode, Seq<char>, Seq<char>, Option<Seq<char>>),
    Macro(Seq<char>, Seq<ArgModel>),
}

/// The value is the literal: a float literal is a finite `Float`, negative
/// exactly where the literal is written with `-`, or `null` where the number
/// is not finite.
pub open spec fn lit_conforms(v: Value, m: LitModel) -> bool {
    match m {
        LitModel::Value(vm) => v.model() == vm,
        LitModel::FloatText(t) => (v matches Value::Float(b) && float_finite(b) && (float_negative(b)
            <==> minus_text(t))) || v is Null,
    }
}

pub open spec fn arg_conforms(a: MacroArg, m: ArgModel) -> bool {
    match (a, m) {
        (MacroArg::KeyValue(k, v), ArgModel::KeyValue(km, vm)) => k@ == km && lit_conforms(v, vm),
        (MacroArg::Positional(v), ArgModel::Positional(vm)) => lit_conforms(v, vm),
        _ => false,
    }
}

pub open spec fn args_conform(v: Seq<MacroArg>, ms: Seq<ArgModel>) -> bool {
    v.len() == ms.len() && forall|i: int| 0 <= i < ms.len() ==> arg_conforms(#[trigger] v[i], ms[i])
}

/// The node has the content `m`.
pub open spec fn node_conforms(n: ContentNode, m: NodeModel) -> bool
    decreases n,
{
    match (n, m) {
        (ContentNode::Text(s), NodeModel::Text(t)) => s@ == t,
        (ContentNode::Link { label, target, enabled_if }, NodeModel::Link(l, t, c)) => label@ == l
            && target@ == t && match (enabled_if, c) {
            (None, None) => true,
            (Some(e), Some(cm)) => conforms(e, cm),
            _ => false,
        },
        (ContentNode::StateInterp { path }, NodeModel::StateInterp(p)) => path@ == p,
        (
            ContentNode::Conditional { condition, then_branch, else_branch },
            NodeModel::Conditional(c, tm, em),
        ) => {
            &&& conforms(condition, c)
            &&& then_branch@.len() == tm.len()
            &&& forall|i: int| 0 <= i < tm.len() ==> node_conforms(#[trigger] then_branch@[i], tm[i])
            &&& else_branch@.len() == em.len()
            &&& forall|i: int| 0 <= i < em.len() ==> node_conforms(#[trigger] else_branch@[i], em[i])
        },
        (ContentNode::Display { passage }, NodeModel::Display(p)) => passage@ == p,
        (ContentNode::AIBlock { mode, prompt, fallback, cache_key }, NodeModel::AIBlock(
            m,
            p,
            f,
            k,
        )) => mode == m && prompt@ == p && fallback@ == f && match (cache_key, k) {
            (Some(x), Some(y)) => x@ == y,
            (None, None) => true,
            _ => false,
        },
        (ContentNode::Macro { name, args }, NodeModel::Macro(nm, am)) => name@ == nm && args_conform(
            args@,
            am,
        ),
        _ => false,
    }
}

pub open spec fn nodes_conform(v: Seq<ContentNode>, ms: Seq<NodeModel>) -> bool {
    v.len() == ms.len() && forall|i: int| 0 <= i < ms.len() ==> node_conforms(#[trigger] v[i], ms[i])
}

// ── character scans ─────────────────────────────────────────────────────

/// Characters that end a run of plain text.
pub open spec fn is_special(c: char) -> bool {
    c == '[' || c == '{' || c == '<' || c == '/'
}

/// End of the plain text from `i`.
pub open spec fn till_special(s: Seq<char>, i: int) -> int
    decreases s.len() - i,
{
    if 0 <= i < s.len() && !is_special(s[i]) {
        till_special(s, i + 1)
    } else {
        i
    }
}

/// First position from `i` holding `c`, or the end.
pub open spec fn till_char(s: Seq<char>, i: int, c: char) -> int
    decreases s.len() - i,
{
    if 0 <= i < s.len() && s[i] != c {
        till_char(s, i + 1, c)
    } else {
        i
    }
}

/// End of a link label: the first `-`, `→` or `]` from `i`.
pub open spec fn till_label_end(s: Seq<char>, i: int) -> int
    decreases s.len() - i,
{
    if 0 <= i < s.len() && s[i] != '-' && s[i] != '\u{2192}' && s[i] != ']' {
        till_label_end(s, i + 1)
    } else {
        i
    }
}

/// End of a directive name (alphanumerics, `_` and `-`) from `i`.
pub open spec fn till_name_end(s: Seq<char>, i: int) -> int
    decreases s.len() - i,
{
    if 0 <= i < s.len() && (unicode_alphanumeric(s[i]) || s[i] == '_' || s[i] == '-') {
        till_name_end(s, i + 1)
    } else {
        i
    }
}

/// End of a block keyword (ASCII alphanumerics, `_` and `-`) from `i`.
pub open spec fn till_keyword_end(s: Seq<char>, i: int) -> int
    decreases s.len() - i,
{
    if 0 <= i < s.len() && (is_ascii_alnum(s[i]) || s[i] == '_' || s[i] == '-') {
        till_keyword_end(s, i + 1)
    } else {
        i
    }
}

/// The `}` that closes a directive, from `j`, with `inner` braces open.
pub open spec fn close_brace(s: Seq<char>, j: int, inner: int) -> int
    decreases s.len() - j,
{
    if j < 0 || j >= s.len() {
        j
    } else if s[j] == '}' && inner == 0 {
        j
    } else if s[j] == '{' {
        close_brace(s, j + 1, inner + 1)
    } else if s[j] == '}' {
        close_brace(s, j + 1, inner - 1)
    } else {
        close_brace(s, j + 1, inner)
    }
}

/// `s[i..]` starts with `p`.
pub open spec fn at(s: Seq<char>, i: int, p: Seq<char>) -> bool {
    0 <= i <= s.len() && starts_with(s.skip(i), p)
}

/// First position from `i` where `p` starts.
pub open spec fn find_from(s: Seq<char>, i: int, p: Seq<char>) -> Option<int>
    decreases s.len() - i,
{
    if i < 0 || i >= s.len() || i + p.len() > s.len() {
        None
    } else if at(s, i, p) {
        Some(i)
    } else {
        find_from(s, i + 1, p)
    }
}

// ── links and comments ──────────────────────────────────────────────────

/// The target text of a link split into the target and its condition:
/// `target {if: expr}` gives the trimmed text before `{if:` and the
/// condition of the text up to the closing `}` that ends the target text.
pub open spec fn link_target(tt: Seq<char>) -> (Seq<char>, Option<ExprModel>) {
    match find_from(tt, 0, "{if:"@) {
        Some(b) => if b + 4 < tt.len() && tt.last() == '}' {
            (trim(tt.take(b)), Some(condition_of(tt.subrange(b + 4, tt.len() - 1))))
        } else {
            (tt, None)
        },
        None => (tt, None),
    }
}

/// `[[label -> target]]` (or `→`), or `[[label -> target {if: expr}]]`,
/// at `i`: label, target, condition and the end.
pub open spec fn link_at(s: Seq<char>, i: int) -> Option<(Seq<char>, Seq<char>, Option<ExprModel>, int)> {
    if !at(s, i, "[["@) {
        None
    } else {
        let p = i + 2;
        let le = till_label_end(s, p);
        let label = trim(s.subrange(p, le));
        if le == p || label.len() == 0 {
            None
        } else {
            let q = if at(s, le, "->"@) {
                le + 2
            } else if at(s, le, "\u{2192}"@) {
                le + 1
            } else {
                -1
            };
            if q < 0 {
                None
            } else {
                let te = till_char(s, q, ']');
                let tt = trim(s.subrange(q, te));
                let (target, cond) = link_target(tt);
                if te == q || tt.len() == 0 || target.len() == 0 || !at(s, te, "]]"@) {
                    None
                } else {
                    Some((label, target, cond, te + 2))
                }
            }
        }
    }
}

/// A comment at `i`: `//` to the end of the line (the newline stays), or
/// `<!--` to the next `-->`.  Where it ends.
pub open spec fn comment_at(s: Seq<char>, i: int) -> Option<int> {
    if at(s, i, "//"@) {
        Some(till_char(s, i + 2, '\n'))
    } else if at(s, i, "<!--"@) {
        match find_from(s, i + 4, "-->"@) {
            Some(k) => Some(k + 3),
            None => None,
        }
    } else {
        None
    }
}

// ── values and arguments ────────────────────────────────────────────────

/// `s` equals the lower-case word `w`, ignoring ASCII case.
pub open spec fn eq_ignore_case(s: Seq<char>, w: Seq<char>) -> bool {
    s.len() == w.len() && forall|i: int| 0 <= i < s.len() ==> ascii_lower(#[trigger] s[i]) == w[i]
}

/// End of the run of decimal digits from `i`.
pub open spec fn digits_end(s: Seq<char>, i: int) -> int
    decreases s.len() - i,
{
    if 0 <= i < s.len() && is_digit(s[i]) {
        digits_end(s, i + 1)
    } else {
        i
    }
}

/// Text that `str::parse::<f64>` accepts: a sign, then `inf`, `infinity`
/// or `nan` in any case, or digits with an optional fraction (one digit at
/// least) and an optional exponent.
pub open spec fn float_syntax(t: Seq<char>) -> bool {
    let u = if t.len() > 0 && (t[0] == '+' || t[0] == '-') {
        t.skip(1)
    } else {
        t
    };
    if eq_ignore_case(u, "inf"@) || eq_ignore_case(u, "infinity"@) || eq_ignore_case(u, "nan"@) {
        true
    } else {
        let a = digits_end(u, 0);
        let (b0, b1) = if a < u.len() && u[a] == '.' {
            (a + 1, digits_end(u, a + 1))
        } else {
            (a, a)
        };
        if a + (b1 - b0) == 0 {
            false
        } else if b1 == u.len() {
            true
        } else if u[b1] == 'e' || u[b1] == 'E' {
            let f = if b1 + 1 < u.len() && (u[b1 + 1] == '+' || u[b1 + 1] == '-') {
                b1 + 2
            } else {
                b1 + 1
            };
            let g = digits_end(u, f);
            g > f && g == u.len()
        } else {
            false
        }
    }
}

/// A literal value: `true`, `false`, `null`, a quoted string, an integer,
/// a float, else the text as a string.  `None` for a lone quote.
pub open spec fn value_literal(s: Seq<char>) -> Option<LitModel> {
    let t = trim(s);
    if t == "true"@ {
        Some(LitModel::Value(ValueModel::Bool(true)))
    } else if t == "false"@ {
        Some(LitModel::Value(ValueModel::Bool(false)))
    } else if t == "null"@ {
        Some(LitModel::Value(ValueModel::Null))
    } else if t.len() > 0 && ((t[0] == '"' && t.last() == '"') || (t[0] == '\'' && t.last()
        == '\'')) {
        if t.len() < 2 {
            None
        } else {
            Some(LitModel::Value(ValueModel::Str(t.subrange(1, t.len() - 1))))
        }
    } else if parse_i64(t) is Some {
        Some(LitModel::Value(ValueModel::Int(parse_i64(t)->0)))
    } else if float_syntax(t) {
        Some(LitModel::FloatText(t))
    } else {
        Some(LitModel::Value(ValueModel::Str(t)))
    }
}

/// A `key = value` argument (split at the first `=`), else what `other`
/// makes of the whole part.
pub open spec fn keyed_arg(part: Seq<char>, other: Option<ArgModel>) -> Option<ArgModel> {
    match find_char(part, '=') {
        Some(eq) => match value_literal(part.skip(eq + 1)) {
            Some(v) => Some(ArgModel::KeyValue(trim(part.take(eq)), v)),
            None => None,
        },
        None => other,
    }
}

/// Arguments of `{set: ...}`: comma-separated parts, trimmed, empty ones
/// skipped; a part without `=` is a string as written.
pub open spec fn set_args_of(parts: Seq<Seq<char>>) -> Option<Seq<ArgModel>>
    decreases parts.len(),
{
    if parts.len() == 0 {
        Some(Seq::empty())
    } else {
        match set_args_of(parts.drop_last()) {
            Some(pre) => {
                let part = trim(parts.last());
                if part.len() == 0 {
                    Some(pre)
                } else {
                    match keyed_arg(
                        part,
                        Some(ArgModel::Positional(LitModel::Value(ValueModel::Str(part)))),
                    ) {
                        Some(a) => Some(pre.push(a)),
                        None => None,
                    }
                }
            },
            None => None,
        }
    }
}

/// Arguments of a general macro: parts from `split_args_spec`, trimmed, empty
/// ones skipped; a part without `=` is a literal.
pub open spec fn macro_args_of(parts: Seq<Seq<char>>) -> Option<Seq<ArgModel>>
    decreases parts.len(),
{
    if parts.len() == 0 {
        Some(Seq::empty())
    } else {
        match macro_args_of(parts.drop_last()) {
            Some(pre) => {
                let part = trim(parts.last());
                if part.len() == 0 {
                    Some(pre)
                } else {
                    let positional = match value_literal(part) {
                        Some(v) => Some(ArgModel::Positional(v)),
                        None => None,
                    };
                    match keyed_arg(part, positional) {
                        Some(a) => Some(pre.push(a)),
                        None => None,
                    }
                }
            },
            None => None,
        }
    }
}

/// Split macro arguments at the commas outside quotes and braces, from
/// position `i`; the current part began at `start`.
pub open spec fn split_args_from(
    s: Seq<char>,
    i: int,
    depth: int,
    quote: Option<char>,
    start: int,
) -> Seq<Seq<char>>
    decreases s.len() - i,
{
    if i < 0 || i >= s.len() {
        seq![s.subrange(start, s.len() as int)]
    } else {
        let c = s[i];
        match quote {
            Some(q) => split_args_from(
                s,
                i + 1,
                depth,
                if c == q {
                    None
                } else {
                    quote
                },
                start,
            ),
            None => if c == '"' || c == '\'' {
                split_args_from(s, i + 1, depth, Some(c), start)
            } else if c == '{' {
                split_args_from(s, i + 1, depth + 1, None, start)
            } else if c == '}' {
                split_args_from(s, i + 1, depth - 1, None, start)
            } else if c == ',' && depth == 0 {
                seq![s.subrange(start, i)] + split_args_from(s, i + 1, depth, None, i + 1)
            } else {
                split_args_from(s, i + 1, depth, None, start)
            },
        }
    }
}

pub open spec fn split_args_spec(s: Seq<char>) -> Seq<Seq<char>> {
    split_args_from(s, 0, 0, None, 0)
}

/// `s` without the leading and trailing `c`s.
pub open spec fn strip_start(s: Seq<char>, c: char) -> Seq<char>
    decreases s.len(),
{
    if s.len() > 0 && s[0] == c {
        strip_start(s.drop_first(), c)
    } else {
        s
    }
}

pub open spec fn strip_end(s: Seq<char>, c: char) -> Seq<char>
    decreases s.len(),
{
    if s.len() > 0 && s.last() == c {
        strip_end(s.drop_last(), c)
    } else {
        s
    }
}

/// `trim().trim_matches('"').trim()`.
pub open spec fn unquoted(s: Seq<char>) -> Seq<char> {
    trim(strip_end(strip_start(trim(s), '"'), '"'))
}

/// `{ai: prompt | fallback}`, `{ai-stream: ...}`, `{ai-cached: key="k" ...}`.
pub open spec fn ai_directive(name: Seq<char>, args: Seq<char>) -> NodeModel {
    let mode = if name == "ai-stream"@ {
        AIMode::Streaming
    } else if name == "ai-cached"@ {
        AIMode::Cached
    } else {
        AIMode::Blocking
    };
    let a = trim(args);
    let (key, rest) = if mode == AIMode::Cached && at(a, 0, "key=\""@) {
        match find_char(a.skip(5), '"') {
            Some(e) => (Some(a.subrange(5, 5 + e)), trim(a.skip(5 + e + 1))),
            None => (None, a),
        }
    } else if mode == AIMode::Cached && at(a, 0, "key="@) {
        match find_char(a.skip(4), ' ') {
            Some(sp) => (Some(a.subrange(4, 4 + sp)), trim(a.skip(4 + sp))),
            None => (None, a),
        }
    } else {
        (None, a)
    };
    match find_char(rest, '|') {
        Some(p) => NodeModel::AIBlock(mode, trim(rest.take(p)), trim(rest.skip(p + 1)), key),
        None => NodeModel::AIBlock(mode, rest, Seq::empty(), key),
    }
}

/// A directive other than `{if:}` by its name; `None` where a value is a
/// lone quote.
pub open spec fn dispatch_directive(name: Seq<char>, args: Seq<char>) -> Option<NodeModel> {
    if name == "state"@ {
        Some(NodeModel::StateInterp(unquoted(args)))
    } else if name == "set"@ {
        match set_args_of(split_on(args, ',')) {
            Some(a) => Some(NodeModel::Macro("set"@, a)),
            None => None,
        }
    } else if name == "display"@ {
        Some(NodeModel::Display(unquoted(args)))
    } else if name == "ai"@ || name == "ai-stream"@ || name == "ai-cached"@ {
        Some(ai_directive(name, args))
    } else {
        match macro_args_of(split_args_spec(args)) {
            Some(a) => Some(NodeModel::Macro(name, a)),
            None => None,
        }
    }
}

// ── conditional blocks ──────────────────────────────────────────────────

/// Where an `{if:}` block's body ends: scanning `t` from `pos` at nesting
/// `depth`, with the last `{else}` at this level at `else_marker` and its
/// text starting at `else_after`.  Gives the then-text, the else-text and
/// how much of `t` the block takes; `None` where an `{end` at the level
/// has nothing after it.
pub open spec fn scan_body(
    t: Seq<char>,
    pos: int,
    depth: int,
    else_marker: Option<int>,
    else_after: Option<int>,
) -> Option<(Seq<char>, Option<Seq<char>>, int)>
    decreases t.len() - pos,
{
    if pos < 0 || pos >= t.len() {
        Some((t, None, t.len() as int))
    } else if t[pos] != '{' {
        scan_body(t, pos + 1, depth, else_marker, else_after)
    } else {
        let k_end = till_keyword_end(t, pos + 1);
        let kw = t.subrange(pos + 1, k_end);
        let j = close_brace(t, k_end, 0);
        let after = if j < t.len() {
            j + 1
        } else {
            k_end + 1
        };
        let is_if = kw == "if"@ && k_end < t.len() && (t[k_end] == ':' || t[k_end] == ' '
            || t[k_end] == '}');
        if kw == "end"@ && depth == 0 {
            if after > t.len() {
                None
            } else {
                let then_end = match else_marker {
                    Some(em) => em,
                    None => pos,
                };
                let else_text = match else_after {
                    Some(ea) => Some(t.subrange(ea, pos)),
                    None => None,
                };
                Some((t.take(then_end), else_text, after))
            }
        } else if after <= pos || after > t.len() {
            Some((t, None, t.len() as int))
        } else if kw == "else"@ && depth == 0 {
            scan_body(t, after, depth, Some(pos), Some(after))
        } else if is_if {
            scan_body(t, after, depth + 1, else_marker, else_after)
        } else if kw == "end"@ {
            scan_body(t, after, depth - 1, else_marker, else_after)
        } else {
            scan_body(t, after, depth, else_marker, else_after)
        }
    }
}

/// The condition of an `{if:}`: the parse of the trimmed text, or `false`
/// where it does not parse.
pub open spec fn condition_of(text: Seq<char>) -> ExprModel {
    match parse_spec(trim(text)) {
        Ok(m) => m,
        Err(_) => ExprModel::Literal(ValueModel::Bool(false)),
    }
}

/// The directive argument text after position `p`: up to the next `}`.
/// Gives the text and the position of the `}`, if there is one.
pub open spec fn directive_args(s: Seq<char>, p: int) -> (Seq<char>, int) {
    if 0 <= p < s.len() && s[p] == '}' {
        (Seq::empty(), p)
    } else {
        let q = till_char(s, p, '}');
        (s.subrange(p, q), q)
    }
}

// ── the grammar ─────────────────────────────────────────────────────────

/// The nodes of a passage body; `None` where the grammar fails outright.
pub open spec fn inline_spec(s: Seq<char>) -> Option<Seq<NodeModel>>
    decreases s.len(), 3nat, 0int,
{
    nodes_from(s, 0)
}

/// The nodes from position `i` on.
pub open spec fn nodes_from(s: Seq<char>, i: int) -> Option<Seq<NodeModel>>
    decreases s.len(), 2nat, s.len() - i,
{
    if i < 0 || i >= s.len() {
        Some(Seq::empty())
    } else {
        match item_at(s, i) {
            Some((item, j)) => if j <= i || j > s.len() {
                None
            } else {
                match nodes_from(s, j) {
                    Some(rest) => Some(
                        match item {
                            Some(n) => seq![n] + rest,
                            None => rest,
                        },
                    ),
                    None => None,
                }
            },
            None => None,
        }
    }
}

/// The item at `i` (a node, or nothing for a comment or a skipped
/// character) and where the next one starts: a link, else a comment, else
/// a directive, else plain text up to the next `[`, `{`, `<` or `/`, else
/// the character is skipped.
pub open spec fn item_at(s: Seq<char>, i: int) -> Option<(Option<NodeModel>, int)>
    decreases s.len(), 1nat, 0int,
{
    match link_at(s, i) {
        Some((l, t, c, j)) => Some((Some(NodeModel::Link(l, t, c)), j)),
        None => match comment_at(s, i) {
            Some(j) => Some((None, j)),
            None => match directive_at(s, i) {
                None => None,
                Some(Some((n, j))) => Some((Some(n), j)),
                Some(None) => {
                    let t = till_special(s, i);
                    if t > i {
                        Some((Some(NodeModel::Text(s.subrange(i, t))), t))
                    } else {
                        Some((None, i + 1))
                    }
                },
            },
        },
    }
}

/// A `{name: args}` or `{name}` directive at `i`: `Some(None)` where there
/// is none, `None` where the grammar fails outright.  `{else}` and `{end}`
/// alone give the text of their name (their `}` stays).
pub open spec fn directive_at(s: Seq<char>, i: int) -> Option<Option<(NodeModel, int)>>
    decreases s.len(), 0nat, 0int,
{
    if !(0 <= i < s.len() && s[i] == '{') {
        Some(None)
    } else {
        let ne = till_name_end(s, i + 1);
        if ne == i + 1 {
            Some(None)
        } else {
            let name = s.subrange(i + 1, ne);
            let p = if ne < s.len() && s[ne] == ':' {
                ne + 1
            } else {
                ne
            };
            if name == "else"@ || name == "end"@ {
                Some(Some((NodeModel::Text(name), p)))
            } else {
                let (args, q) = directive_args(s, p);
                if q >= s.len() {
                    Some(None)
                } else if name == "if"@ {
                    let body = s.skip(q + 1);
                    match scan_body(body, 0, 0, None, None) {
                        None => None,
                        Some((then_text, else_text, used)) => if then_text.len() >= s.len() || (
                        else_text matches Some(e) && e.len() >= s.len()) {
                            None
                        } else {
                            match inline_spec(then_text) {
                                None => None,
                                Some(tn) => {
                                    let en = match else_text {
                                        Some(e) => inline_spec(e),
                                        None => Some(Seq::empty()),
                                    };
                                    match en {
                                        None => None,
                                        Some(en) => Some(
                                            Some(
                                                (
                                                    NodeModel::Conditional(
                                                        condition_of(args),
                                                        tn,
                                                        en,
                                                    ),
                                                    q + 1 + used,
                                                ),
                                            ),
                                        ),
                                    }
                                },
                            }
                        },
                    }
                } else {
                    match dispatch_directive(name, args) {
                        Some(n) => Some(Some((n, q + 1))),
                        None => None,
                    }
                }
            }
        }
    }
}

/// The diagnostics for `{else}` and `{end}` that stand outside a block.
pub open spec fn orphan_diags(nodes: Seq<NodeModel>) -> Seq<DiagModel>
    decreases nodes.len(),
{
    if nodes.len() == 0 {
        Seq::empty()
    } else {
        let pre = orphan_diags(nodes.drop_last());
        match nodes.last() {
            NodeModel::Text(t) => if t == "else"@ {
                pre.push(
                    DiagModel {
                        severity: Severity::Error,
                        message: "unexpected {else} outside {if:} block"@,
                        span: None,
                    },
                )
            } else if t == "end"@ {
                pre.push(
                    DiagModel {
                        severity: Severity::Error,
                        message: "unexpected {end} outside {if:} block"@,
                        span: None,
                    },
                )
            } else {
                pre
            },
            _ => pre,
        }
    }
}

/// An error for each AI directive, at any depth, that gives no fallback
/// text (an empty one after `|`, or no `|` at all).
pub open spec fn fallback_diags(nodes: Seq<NodeModel>) -> Seq<DiagModel>
    decreases nodes,
{
    if nodes.len() == 0 {
        Seq::empty()
    } else {
        fallback_diags(nodes.drop_last()) + node_fallback_diags(nodes.last())
    }
}

pub open spec fn node_fallback_diags(n: NodeModel) -> Seq<DiagModel>
    decreases n,
{
    match n {
        NodeModel::AIBlock(_, _, f, _) => if f.len() == 0 {
            seq![
                DiagModel {
                    severity: Severity::Error,
                    message: "AI directive requires fallback text: {ai: prompt | fallback}"@,
                    span: None,
                },
            ]
        } else {
            Seq::empty()
        },
        NodeModel::Conditional(_, tm, em) => fallback_diags(tm) + fallback_diags(em),
        _ => Seq::empty(),
    }
}

/// The diagnostics of a passage body: stray `{else}`/`{end}`, then AI
/// directives without fallback.
pub open spec fn body_diags(nodes: Seq<NodeModel>) -> Seq<DiagModel> {
    orphan_diags(nodes) + fallback_diags(nodes)
}

// ── scanning ────────────────────────────────────────────────────────────

fn till_special_exec(s: &Vec<char>, i: usize) -> (r: usize)
    requires
        i <= s.len(),
    ensures
        r == till_special(s@, i as int),
        i <= r <= s.len(),
{
    let mut k = i;
    while k < s.len() && !(s[k] == '[' || s[k] == '{' || s[k] == '<' || s[k] == '/')
        invariant
            i <= k <= s.len(),
            till_special(s@, k as int) == till_special(s@, i as int),
        decreases s.len() - k,
    {
        k = k + 1;
    }
    k
}

fn till_char_exec(s: &Vec<char>, i: usize, c: char) -> (r: usize)
    requires
        i <= s.len(),
    ensures
        r == till_char(s@, i as int, c),
        i <= r <= s.len(),
{
    let mut k = i;
    while k < s.len() && s[k] != c
        invariant
            i <= k <= s.len(),
            till_char(s@, k as int, c) == till_char(s@, i as int, c),
        decreases s.len() - k,
    {
        k = k + 1;
    }
    k
}

fn till_label_end_exec(s: &Vec<char>, i: usize) -> (r: usize)
    requires
        i <= s.len(),
    ensures
        r == till_label_end(s@, i as int),
        i <= r <= s.len(),
{
    let mut k = i;
    while k < s.len() && s[k] != '-' && s[k] != '\u{2192}' && s[k] != ']'
        invariant
            i <= k <= s.len(),
            till_label_end(s@, k as int) == till_label_end(s@, i as int),
        decreases s.len() - k,
    {
        k = k + 1;
    }
    k
}

fn till_name_end_exec(s: &Vec<char>, i: usize) -> (r: usize)
    requires
        i <= s.len(),
    ensures
        r == till_name_end(s@, i as int),
        i <= r <= s.len(),
{
    let mut k = i;
    while k < s.len() && (is_alphanumeric(s[k]) || s[k] == '_' || s[k] == '-')
        invariant
            i <= k <= s.len(),
            till_name_end(s@, k as int) == till_name_end(s@, i as int),
        decreases s.len() - k,
    {
        k = k + 1;
    }
    k
}

fn till_keyword_end_exec(s: &Vec<char>, i: usize) -> (r: usize)
    requires
        i <= s.len(),
    ensures
        r == till_keyword_end(s@, i as int),
        i <= r <= s.len(),
{
    let mut k = i;
    while k < s.len() && (is_ascii_alphanumeric(s[k]) || s[k] == '_' || s[k] == '-')
        invariant
            i <= k <= s.len(),
            till_keyword_end(s@, k as int) == till_keyword_end(s@, i as int),
        decreases s.len() - k,
    {
        k = k + 1;
    }
    k
}

fn close_brace_exec(s: &Vec<char>, j0: usize) -> (r: usize)
    requires
        j0 <= s.len(),
    ensures
        r == close_brace(s@, j0 as int, 0),
        j0 <= r <= s.len(),
{
    let mut j = j0;
    let mut inner: i128 = 0;
    while j < s.len()
        invariant
            j0 <= j <= s.len(),
            -(j as int) <= inner <= j,
            close_brace(s@, j as int, inner as int) == close_brace(s@, j0 as int, 0),
        decreases s.len() - j,
    {
        if s[j] == '}' && inner == 0 {
            return j;
        }
        if s[j] == '{' {
            inner = inner + 1;
        } else if s[j] == '}' {
            inner = inner - 1;
        }
        j = j + 1;
    }
    j
}

fn at_exec(s: &Vec<char>, i: usize, p: &str) -> (r: bool)
    ensures
        r == at(s@, i as int, p@),
{
    if i > s.len() {
        return false;
    }
    starts_with_at(s, i, p)
}

fn find_from_exec(s: &Vec<char>, i: usize, p: &str) -> (r: Option<usize>)
    ensures
        match r {
            Some(k) => find_from(s@, i as int, p@) == Some(k as int) && i <= k < s.len() && at(
                s@,
                k as int,
                p@,
            ) && k + p@.len() <= s.len(),
            None => find_from(s@, i as int, p@) is None,
        },
{
    let pl = str_chars(p).len();
    let mut k = i;
    while k < s.len() && pl <= s.len() - k
        invariant
            i <= k,
            pl == p@.len(),
            find_from(s@, k as int, p@) == find_from(s@, i as int, p@),
        decreases s.len() - k,
    {
        if at_exec(s, k, p) {
            proof {
                assert(s@.skip(k as int).take(p@.len() as int) == p@);
            }
            return Some(k);
        }
        k = k + 1;
    }
    None
}

// ── links and comments ──────────────────────────────────────────────────

/// The condition of an `{if:}` text: its parse, or `false`.
fn condition_exec(text: &Vec<char>, arith: &dyn FloatArith) -> (r: Expression)
    ensures
        conforms(r, condition_of(text@)),
{
    let cond_text = string_of(&trim_chars(text));
    match parse_expression(cond_text.as_str(), arith) {
        Ok(e) => e,
        Err(_) => Expression::Literal(Value::Bool(false)),
    }
}

fn link_target_exec(tt: &Vec<char>, arith: &dyn FloatArith) -> (r: (Vec<char>, Option<Expression>))
    ensures
        r.0@ == link_target(tt@).0,
        match (r.1, link_target(tt@).1) {
            (None, None) => true,
            (Some(e), Some(cm)) => conforms(e, cm),
            _ => false,
        },
{
    proof {
        reveal_strlit("{if:");
    }
    match find_from_exec(tt, 0, "{if:") {
        Some(b) => {
            if b + 4 < tt.len() && tt[tt.len() - 1] == '}' {
                let target = trim_chars(&sub_chars(tt, 0, b));
                assert(tt@.subrange(0, b as int) =~= tt@.take(b as int));
                let inner = sub_chars(tt, b + 4, tt.len() - 1);
                (target, Some(condition_exec(&inner, arith)))
            } else {
                (sub_chars(tt, 0, tt.len()), None)
            }
        },
        None => {
            let t = sub_chars(tt, 0, tt.len());
            assert(t@ =~= tt@);
            (t, None)
        },
    }
}

fn link_at_exec(s: &Vec<char>, i: usize, arith: &dyn FloatArith) -> (r: Option<(Vec<char>, Vec<char>, Option<Expression>, usize)>)
    requires
        i <= s.len(),
    ensures
        match r {
            Some((l, t, c, j)) => link_at(s@, i as int) matches Some((lm, tm, cm, jm)) && l@ == lm
                && t@ == tm && j == jm && i < j <= s.len() && match (c, cm) {
                (None, None) => true,
                (Some(e), Some(x)) => conforms(e, x),
                _ => false,
            },
            None => link_at(s@, i as int) is None,
        },
{
    if !at_exec(s, i, "[[") {
        return None;
    }
    proof {
        reveal_strlit("[[");
        reveal_strlit("->");
        reveal_strlit("\u{2192}");
        reveal_strlit("]]");
    }
    let p = i + 2;
    let le = till_label_end_exec(s, p);
    let label = trim_chars(&sub_chars(s, p, le));
    if le == p || label.len() == 0 {
        return None;
    }
    let q = if at_exec(s, le, "->") {
        le + 2
    } else if at_exec(s, le, "\u{2192}") {
        le + 1
    } else {
        return None;
    };
    let te = till_char_exec(s, q, ']');
    let tt = trim_chars(&sub_chars(s, q, te));
    let (target, cond) = link_target_exec(&tt, arith);
    if te == q || tt.len() == 0 || target.len() == 0 || !at_exec(s, te, "]]") {
        return None;
    }
    Some((label, target, cond, te + 2))
}

fn comment_at_exec(s: &Vec<char>, i: usize) -> (r: Option<usize>)
    requires
        i <= s.len(),
    ensures
        match r {
            Some(j) => comment_at(s@, i as int) == Some(j as int) && i < j <= s.len(),
            None => comment_at(s@, i as int) is None,
        },
{
    proof {
        reveal_strlit("//");
        reveal_strlit("<!--");
        reveal_strlit("-->");
    }
    if at_exec(s, i, "//") {
        return Some(till_char_exec(s, i + 2, '\n'));
    }
    if at_exec(s, i, "<!--") {
        return match find_from_exec(s, i + 4, "-->") {
            Some(k) => {
                assert(at(s@, k as int, "-->"@));
                Some(k + 3)
            },
            None => None,
        };
    }
    None
}

// ── values and arguments ────────────────────────────────────────────────

fn digits_end_exec(s: &Vec<char>, i: usize) -> (r: usize)
    requires
        i <= s.len(),
    ensures
        r == digits_end(s@, i as int),
        i <= r <= s.len(),
{
    let mut k = i;
    while k < s.len() && is_ascii_digit(s[k])
        invariant
            i <= k <= s.len(),
            digits_end(s@, k as int) == digits_end(s@, i as int),
        decreases s.len() - k,
    {
        k = k + 1;
    }
    k
}

fn eq_ignore_case_exec(s: &Vec<char>, w: &str) -> (r: bool)
    ensures
        r == eq_ignore_case(s@, w@),
{
    let wv = str_chars(w);
    if s.len() != wv.len() {
        return false;
    }
    let mut k: usize = 0;
    while k < s.len()
        invariant
            k <= s.len(),
            s.len() == wv.len(),
            wv@ == w@,
            forall|j: int| 0 <= j < k ==> ascii_lower(#[trigger] s@[j]) == wv@[j],
        decreases s.len() - k,
    {
        let c = s[k];
        let lc = if 'A' <= c && c <= 'Z' {
            ((c as u32) + 32) as u8 as char
        } else {
            c
        };
        assert(lc == ascii_lower(c)) by {
            if 'A' <= c && c <= 'Z' {
                assert(((c as u32) + 32) as u8 as char == ((c as int) + 32) as char);
            }
        }
        if lc != wv[k] {
            return false;
        }
        k = k + 1;
    }
    true
}

/// Whether `str::parse::<f64>` accepts the text.
fn float_syntax_exec(t: &Vec<char>) -> (r: bool)
    ensures
        r == float_syntax(t@),
{
    let u = if t.len() > 0 && (t[0] == '+' || t[0] == '-') {
        sub_chars(t, 1, t.len())
    } else {
        sub_chars(t, 0, t.len())
    };
    assert(t@.len() > 0 && (t@[0] == '+' || t@[0] == '-') ==> u@ =~= t@.skip(1));
    assert(!(t@.len() > 0 && (t@[0] == '+' || t@[0] == '-')) ==> u@ =~= t@);
    proof {
        reveal_strlit("inf");
        reveal_strlit("infinity");
        reveal_strlit("nan");
    }
    if eq_ignore_case_exec(&u, "inf") || eq_ignore_case_exec(&u, "infinity") || eq_ignore_case_exec(
        &u,
        "nan",
    ) {
        return true;
    }
    let a = digits_end_exec(&u, 0);
    let (b0, b1) = if a < u.len() && u[a] == '.' {
        (a + 1, digits_end_exec(&u, a + 1))
    } else {
        (a, a)
    };
    if a + (b1 - b0) == 0 {
        return false;
    }
    if b1 == u.len() {
        return true;
    }
    if u[b1] == 'e' || u[b1] == 'E' {
        let f = if b1 + 1 < u.len() && (u[b1 + 1] == '+' || u[b1 + 1] == '-') {
            b1 + 2
        } else {
            b1 + 1
        };
        let g = digits_end_exec(&u, f);
        g > f && g == u.len()
    } else {
        false
    }
}

/// The literal value of a text; `None` for a lone quote.
fn value_literal_exec<F: FloatArith + ?Sized>(s: &Vec<char>, arith: &F) -> (r: Option<Value>)
    ensures
        match value_literal(s@) {
            Some(m) => r matches Some(v) && lit_conforms(v, m),
            None => r is None,
        },
        value_literal(s@) matches Some(LitModel::FloatText(t)) ==> (r matches Some(v) && float_read(
            arith,
            t,
            v,
        )),
{
    let t = trim_chars(s);
    proof {
        reveal_strlit("true");
        reveal_strlit("false");
        reveal_strlit("null");
    }
    if chars_eq_str(&t, "true") {
        return Some(Value::Bool(true));
    }
    if chars_eq_str(&t, "false") {
        return Some(Value::Bool(false));
    }
    if chars_eq_str(&t, "null") {
        return Some(Value::Null);
    }
    let n = t.len();
    if n > 0 && ((t[0] == '"' && t[n - 1] == '"') || (t[0] == '\'' && t[n - 1] == '\'')) {
        if n < 2 {
            return None;
        }
        return Some(Value::String(string_of(&sub_chars(&t, 1, n - 1))));
    }
    match parse_i64_chars(&t) {
        Some(i) => {
            return Some(Value::Int(i));
        },
        None => {},
    }
    if float_syntax_exec(&t) {
        let text = string_of(&t);
        let bits = parse_float_bits(text.as_str(), arith);
        assert(float_parsed(arith, t@, bits));
        return match Value::float(bits) {
            Some(v) => Some(v),
            None => Some(Value::Null),
        };
    }
    Some(Value::String(string_of(&t)))
}

/// Parse a literal value: `true`, `false`, `null`, a quoted string, an
/// integer, a float, else the trimmed text as a string.
pub fn parse_value_literal<F: FloatArith + ?Sized>(s: &str, arith: &F) -> (r: Value)
    requires
        value_literal(s@) is Some,
    ensures
        lit_conforms(r, value_literal(s@)->0),
        value_literal(s@) matches Some(LitModel::FloatText(t)) ==> float_read(arith, t, r),
{
    let cs = str_chars(s);
    assert(cs@ == s@);
    match value_literal_exec(&cs, arith) {
        Some(v) => v,
        None => Value::Null,
    }
}

pub open spec fn chars_model(v: Seq<Vec<char>>) -> Seq<Seq<char>> {
    Seq::new(v.len(), |i: int| v[i]@)
}

fn split_args_exec(s: &Vec<char>) -> (r: Vec<Vec<char>>)
    ensures
        chars_model(r@) == split_args_spec(s@),
{
    let mut out: Vec<Vec<char>> = Vec::new();
    let mut depth: i128 = 0;
    let mut quote: Option<char> = None;
    let mut start: usize = 0;
    let mut i: usize = 0;
    while i < s.len()
        invariant
            start <= i <= s.len(),
            -(i as int) <= depth <= i,
            chars_model(out@) + split_args_from(s@, i as int, depth as int, quote, start as int)
                == split_args_spec(s@),
        decreases s.len() - i,
    {
        let c = s[i];
        match quote {
            Some(q) => {
                if c == q {
                    quote = None;
                }
            },
            None => {
                if c == '"' || c == '\'' {
                    quote = Some(c);
                } else if c == '{' {
                    depth = depth + 1;
                } else if c == '}' {
                    depth = depth - 1;
                } else if c == ',' && depth == 0 {
                    let ghost before = out@;
                    let part = sub_chars(s, start, i);
                    out.push(part);
                    assert(chars_model(out@) =~= chars_model(before) + seq![part@]);
                    start = i + 1;
                }
            },
        }
        i = i + 1;
    }
    let ghost before = out@;
    let last = sub_chars(s, start, s.len());
    out.push(last);
    assert(chars_model(out@) =~= chars_model(before) + seq![last@]);
    out
}

/// Split macro arguments at the commas outside quotes and braces.
pub fn split_args(s: &str) -> (r: Vec<String>)
    ensures
        r@.map_values(|x: String| x@) == split_args_spec(s@),
{
    let parts = split_args_exec(&str_chars(s));
    let mut out: Vec<String> = Vec::new();
    let mut k: usize = 0;
    while k < parts.len()
        invariant
            k <= parts.len(),
            out@.map_values(|x: String| x@) == chars_model(parts@).take(k as int),
        decreases parts.len() - k,
    {
        let ghost before = out@;
        let x = string_of(&parts[k]);
        out.push(x);
        assert(out@.map_values(|x: String| x@) =~= before.map_values(|x: String| x@).push(
            parts@[k as int]@,
        ));
        assert(chars_model(parts@).take(k + 1) =~= chars_model(parts@).take(k as int).push(
            parts@[k as int]@,
        ));
        k = k + 1;
    }
    assert(chars_model(parts@).take(parts.len() as int) =~= chars_model(parts@));
    out
}

/// A part split at its first `=` into a keyed argument; `Err(())` where
/// the value is a lone quote, `Ok(None)` where there is no `=`.
fn keyed_arg_exec(part: &Vec<char>, arith: &dyn FloatArith) -> (r: Result<Option<MacroArg>, ()>)
    ensures
        match r {
            Ok(Some(a)) => find_char(part@, '=') is Some && (keyed_arg(part@, None) matches Some(m)
                && arg_conforms(a, m)),
            Ok(None) => find_char(part@, '=') is None,
            Err(()) => find_char(part@, '=') is Some && keyed_arg(part@, None) is None,
        },
{
    match find_char_in(part, '=') {
        Some(eq) => {
            let key = trim_chars(&sub_chars(part, 0, eq));
            let vs = sub_chars(part, eq + 1, part.len());
            assert(vs@ =~= part@.skip(eq + 1));
            assert(part@.subrange(0, eq as int) =~= part@.take(eq as int));
            match value_literal_exec(&vs, arith) {
                Some(v) => Ok(Some(MacroArg::KeyValue(string_of(&key), v))),
                None => Err(()),
            }
        },
        None => Ok(None),
    }
}

/// Arguments of `{set: ...}`.
fn set_args_exec(args: &Vec<char>, arith: &dyn FloatArith) -> (r: Option<Vec<MacroArg>>)
    ensures
        match set_args_of(split_on(args@, ',')) {
            Some(ms) => r matches Some(v) && args_conform(v@, ms),
            None => r is None,
        },
{
    let parts = split_chars(args, ',');
    let ghost ps = seqs_of(parts@);
    let mut out: Vec<MacroArg> = Vec::new();
    let mut k: usize = 0;
    while k < parts.len()
        invariant
            k <= parts.len(),
            ps == seqs_of(parts@),
            ps == split_on(args@, ','),
            set_args_of(ps.take(k as int)) matches Some(ms) && args_conform(out@, ms),
        decreases parts.len() - k,
    {
        assert(ps.take(k + 1).drop_last() =~= ps.take(k as int));
        let ghost ms = set_args_of(ps.take(k as int))->0;
        let part = trim_chars(&parts[k]);
        if part.len() > 0 {
            let a = match keyed_arg_exec(&part, arith) {
                Ok(Some(a)) => a,
                Ok(None) => MacroArg::Positional(Value::String(string_of(&part))),
                Err(()) => {
                    assert(set_args_of(ps.take(k + 1)) is None);
                    proof {
                        lemma_set_args_none(ps, k as int + 1);
                    }
                    assert(ps.take(ps.len() as int) =~= ps);
                    return None;
                },
            };
            let ghost before = out@;
            out.push(a);
            assert(out@ =~= before.push(a));
        }
        k = k + 1;
    }
    assert(ps.take(parts.len() as int) =~= ps);
    Some(out)
}

proof fn lemma_set_args_none(ps: Seq<Seq<char>>, k: int)
    requires
        0 <= k <= ps.len(),
        set_args_of(ps.take(k)) is None,
    ensures
        set_args_of(ps) is None,
    decreases ps.len() - k,
{
    if k < ps.len() {
        assert(ps.take(k + 1).drop_last() =~= ps.take(k));
        lemma_set_args_none(ps, k + 1);
    } else {
        assert(ps.take(k) =~= ps);
    }
}

proof fn lemma_macro_args_none(ps: Seq<Seq<char>>, k: int)
    requires
        0 <= k <= ps.len(),
        macro_args_of(ps.take(k)) is None,
    ensures
        macro_args_of(ps) is None,
    decreases ps.len() - k,
{
    if k < ps.len() {
        assert(ps.take(k + 1).drop_last() =~= ps.take(k));
        lemma_macro_args_none(ps, k + 1);
    } else {
        assert(ps.take(k) =~= ps);
    }
}

/// Arguments of a general macro.
fn macro_args_exec(args: &Vec<char>, arith: &dyn FloatArith) -> (r: Option<Vec<MacroArg>>)
    ensures
        match macro_args_of(split_args_spec(args@)) {
            Some(ms) => r matches Some(v) && args_conform(v@, ms),
            None => r is None,
        },
{
    let parts = split_args_exec(args);
    let ghost ps = chars_model(parts@);
    let mut out: Vec<MacroArg> = Vec::new();
    let mut k: usize = 0;
    while k < parts.len()
        invariant
            k <= parts.len(),
            ps == chars_model(parts@),
            ps == split_args_spec(args@),
            macro_args_of(ps.take(k as int)) matches Some(ms) && args_conform(out@, ms),
        decreases parts.len() - k,
    {
        assert(ps.take(k + 1).drop_last() =~= ps.take(k as int));
        let part = trim_chars(&parts[k]);
        if part.len() > 0 {
            let a = match keyed_arg_exec(&part, arith) {
                Ok(Some(a)) => a,
                Ok(None) => match value_literal_exec(&part, arith) {
                    Some(v) => MacroArg::Positional(v),
                    None => {
                        assert(macro_args_of(ps.take(k + 1)) is None);
                        proof {
                            lemma_macro_args_none(ps, k as int + 1);
                        }
                        return None;
                    },
                },
                Err(()) => {
                    assert(macro_args_of(ps.take(k + 1)) is None);
                    proof {
                        lemma_macro_args_none(ps, k as int + 1);
                    }
                    return None;
                },
            };
            let ghost before = out@;
            out.push(a);
            assert(out@ =~= before.push(a));
        }
        k = k + 1;
    }
    assert(ps.take(parts.len() as int) =~= ps);
    Some(out)
}

// ── directives ──────────────────────────────────────────────────────────

fn strip_start_exec(s: &Vec<char>, c: char) -> (r: Vec<char>)
    ensures
        r@ == strip_start(s@, c),
{
    let mut k: usize = 0;
    assert(s@.skip(0) =~= s@);
    while k < s.len() && s[k] == c
        invariant
            k <= s.len(),
            strip_start(s@.skip(k as int), c) == strip_start(s@, c),
        decreases s.len() - k,
    {
        assert(s@.skip(k as int).drop_first() =~= s@.skip(k + 1));
        k = k + 1;
    }
    let r = sub_chars(s, k, s.len());
    assert(r@ =~= s@.skip(k as int));
    r
}

fn strip_end_exec(s: &Vec<char>, c: char) -> (r: Vec<char>)
    ensures
        r@ == strip_end(s@, c),
{
    let mut k: usize = s.len();
    assert(s@.take(s.len() as int) =~= s@);
    while k > 0 && s[k - 1] == c
        invariant
            k <= s.len(),
            strip_end(s@.take(k as int), c) == strip_end(s@, c),
        decreases k,
    {
        assert(s@.take(k as int).drop_last() =~= s@.take(k - 1));
        k = k - 1;
    }
    assert(s@.take(s.len() as int) =~= s@);
    let r = sub_chars(s, 0, k);
    assert(r@ =~= s@.take(k as int));
    r
}

fn unquoted_exec(s: &Vec<char>) -> (r: Vec<char>)
    ensures
        r@ == unquoted(s@),
{
    trim_chars(&strip_end_exec(&strip_start_exec(&trim_chars(s), '"'), '"'))
}

fn ai_directive_exec(name: &Vec<char>, args: &Vec<char>) -> (r: ContentNode)
    ensures
        node_conforms(r, ai_directive(name@, args@)),
{
    proof {
        reveal_strlit("ai-stream");
        reveal_strlit("ai-cached");
        reveal_strlit("key=\"");
        reveal_strlit("key=");
    }
    let mode = if chars_eq_str(name, "ai-stream") {
        AIMode::Streaming
    } else if chars_eq_str(name, "ai-cached") {
        AIMode::Cached
    } else {
        AIMode::Blocking
    };
    let a = trim_chars(args);
    let (key, rest): (Option<Vec<char>>, Vec<char>) = if mode == AIMode::Cached && at_exec(
        &a,
        0,
        "key=\"",
    ) {
        let tail = sub_chars(&a, 5, a.len());
        assert(tail@ =~= a@.skip(5));
        match find_char_in(&tail, '"') {
            Some(e) => {
                let rest_all = sub_chars(&a, 5 + e + 1, a.len());
                assert(rest_all@ =~= a@.skip(5 + e + 1));
                (Some(sub_chars(&a, 5, 5 + e)), trim_chars(&rest_all))
            },
            None => (None, a),
        }
    } else if mode == AIMode::Cached && at_exec(&a, 0, "key=") {
        let tail = sub_chars(&a, 4, a.len());
        assert(tail@ =~= a@.skip(4));
        match find_char_in(&tail, ' ') {
            Some(sp) => {
                let rest_all = sub_chars(&a, 4 + sp, a.len());
                assert(rest_all@ =~= a@.skip(4 + sp));
                (Some(sub_chars(&a, 4, 4 + sp)), trim_chars(&rest_all))
            },
            None => (None, a),
        }
    } else {
        (None, a)
    };
    let cache_key = match key {
        Some(k) => Some(string_of(&k)),
        None => None,
    };
    match find_char_in(&rest, '|') {
        Some(p) => {
            let pre = sub_chars(&rest, 0, p);
            let post = sub_chars(&rest, p + 1, rest.len());
            assert(pre@ =~= rest@.take(p as int));
            assert(post@ =~= rest@.skip(p + 1));
            ContentNode::AIBlock {
                mode,
                prompt: string_of(&trim_chars(&pre)),
                fallback: string_of(&trim_chars(&post)),
                cache_key,
            }
        },
        None => ContentNode::AIBlock {
            mode,
            prompt: string_of(&rest),
            fallback: String::new(),
            cache_key,
        },
    }
}

/// A directive other than `{if:}`; `None` where a value is a lone quote.
fn dispatch_exec(name: &Vec<char>, args: &Vec<char>, arith: &dyn FloatArith) -> (r: Option<
    ContentNode,
>)
    ensures
        match dispatch_directive(name@, args@) {
            Some(m) => r matches Some(n) && node_conforms(n, m),
            None => r is None,
        },
{
    proof {
        reveal_strlit("state");
        reveal_strlit("set");
        reveal_strlit("display");
        reveal_strlit("ai");
        reveal_strlit("ai-stream");
        reveal_strlit("ai-cached");
    }
    if chars_eq_str(name, "state") {
        Some(ContentNode::StateInterp { path: string_of(&unquoted_exec(args)) })
    } else if chars_eq_str(name, "set") {
        match set_args_exec(args, arith) {
            Some(a) => Some(ContentNode::Macro { name: String::from_str("set"), args: a }),
            None => None,
        }
    } else if chars_eq_str(name, "display") {
        Some(ContentNode::Display { passage: string_of(&unquoted_exec(args)) })
    } else if chars_eq_str(name, "ai") || chars_eq_str(name, "ai-stream") || chars_eq_str(
        name,
        "ai-cached",
    ) {
        Some(ai_directive_exec(name, args))
    } else {
        match macro_args_exec(args, arith) {
            Some(a) => Some(ContentNode::Macro { name: string_of(name), args: a }),
            None => None,
        }
    }
}

/// Where an `{if:}` block's body ends (see `scan_body`).
fn scan_body_exec(t: &Vec<char>) -> (r: Option<(Vec<char>, Option<Vec<char>>, usize)>)
    ensures
        match scan_body(t@, 0, 0, None, None) {
            Some((th, el, used)) => r matches Some((a, b, u)) && a@ == th && u == used && match (
                b,
                el,
            ) {
                (Some(x), Some(y)) => x@ == y,
                (None, None) => true,
                _ => false,
            } && u <= t.len() && a.len() <= t.len() && (b matches Some(x) ==> x.len() <= t.len()),
            None => r is None,
        },
{
    proof {
        reveal_strlit("end");
        reveal_strlit("else");
        reveal_strlit("if");
    }
    let mut pos: usize = 0;
    let mut depth: i128 = 0;
    let mut else_marker: Option<usize> = None;
    let mut else_after: Option<usize> = None;
    while pos < t.len()
        invariant
            pos <= t.len(),
            -(pos as int) <= depth <= pos,
            else_marker matches Some(m) ==> m < pos,
            else_after matches Some(a) ==> a <= pos,
            else_marker is Some <==> else_after is Some,
            scan_body(
                t@,
                pos as int,
                depth as int,
                match else_marker {
                    Some(m) => Some(m as int),
                    None => None,
                },
                match else_after {
                    Some(a) => Some(a as int),
                    None => None,
                },
            ) == scan_body(t@, 0, 0, None, None),
        decreases t.len() - pos,
    {
        if t[pos] != '{' {
            pos = pos + 1;
        } else {
            let k_end = till_keyword_end_exec(t, pos + 1);
            let kw = sub_chars(t, pos + 1, k_end);
            let j = close_brace_exec(t, k_end);
            let (after, beyond) = if j < t.len() {
                (j + 1, false)
            } else if k_end < t.len() {
                (k_end + 1, false)
            } else {
                (t.len(), true)
            };
            let is_if = chars_eq_str(&kw, "if") && k_end < t.len() && (t[k_end] == ':' || t[k_end]
                == ' ' || t[k_end] == '}');
            if chars_eq_str(&kw, "end") && depth == 0 {
                if beyond {
                    return None;
                }
                let then_end = match else_marker {
                    Some(em) => em,
                    None => pos,
                };
                let then_text = sub_chars(t, 0, then_end);
                assert(then_text@ =~= t@.take(then_end as int));
                let else_text = match else_after {
                    Some(ea) => Some(sub_chars(t, ea, pos)),
                    None => None,
                };
                return Some((then_text, else_text, after));
            } else if beyond {
                let whole = sub_chars(t, 0, t.len());
                assert(whole@ =~= t@);
                return Some((whole, None, t.len()));
            } else if chars_eq_str(&kw, "else") && depth == 0 {
                else_marker = Some(pos);
                else_after = Some(after);
                pos = after;
            } else if is_if {
                depth = depth + 1;
                pos = after;
            } else if chars_eq_str(&kw, "end") {
                depth = depth - 1;
                pos = after;
            } else {
                pos = after;
            }
        }
    }
    let whole = sub_chars(t, 0, t.len());
    assert(whole@ =~= t@);
    Some((whole, None, t.len()))
}

// ── the parser ──────────────────────────────────────────────────────────

/// A directive at `i` (see `directive_at`).
fn directive_at_exec(s: &Vec<char>, i: usize, arith: &dyn FloatArith) -> (r: Option<
    Option<(ContentNode, usize)>,
>)
    requires
        i <= s.len(),
    ensures
        match directive_at(s@, i as int) {
            None => r is None,
            Some(None) => r matches Some(None),
            Some(Some((m, j))) => r matches Some(Some((n, k))) && node_conforms(n, m) && k == j && i
                < k <= s.len(),
        },
    decreases s@.len(), 0nat, 0int,
{
    proof {
        reveal_strlit("else");
        reveal_strlit("end");
        reveal_strlit("if");
    }
    if !(i < s.len() && s[i] == '{') {
        return Some(None);
    }
    let ne = till_name_end_exec(s, i + 1);
    if ne == i + 1 {
        return Some(None);
    }
    let name = sub_chars(s, i + 1, ne);
    let p = if ne < s.len() && s[ne] == ':' {
        ne + 1
    } else {
        ne
    };
    if chars_eq_str(&name, "else") || chars_eq_str(&name, "end") {
        return Some(Some((ContentNode::Text(string_of(&name)), p)));
    }
    let (args, q) = if p < s.len() && s[p] == '}' {
        (Vec::new(), p)
    } else {
        let q = till_char_exec(s, p, '}');
        (sub_chars(s, p, q), q)
    };
    assert(directive_args(s@, p as int) == (args@, q as int));
    if q >= s.len() {
        return Some(None);
    }
    if chars_eq_str(&name, "if") {
        let body = sub_chars(s, q + 1, s.len());
        assert(body@ =~= s@.skip(q + 1));
        match scan_body_exec(&body) {
            None => None,
            Some((then_text, else_text, used)) => {
                let tn = match inline_nodes(&then_text, arith) {
                    Some(v) => v,
                    None => {
                        return None;
                    },
                };
                let en = match else_text {
                    Some(e) => match inline_nodes(&e, arith) {
                        Some(v) => v,
                        None => {
                            return None;
                        },
                    },
                    None => Vec::new(),
                };
                let condition = condition_exec(&args, arith);
                Some(
                    Some(
                        (
                            ContentNode::Conditional { condition, then_branch: tn, else_branch: en },
                            q + 1 + used,
                        ),
                    ),
                )
            },
        }
    } else {
        match dispatch_exec(&name, &args, arith) {
            Some(n) => Some(Some((n, q + 1))),
            None => None,
        }
    }
}

/// The item at `i` (see `item_at`).
fn item_at_exec(s: &Vec<char>, i: usize, arith: &dyn FloatArith) -> (r: Option<
    (Option<ContentNode>, usize),
>)
    requires
        i < s.len(),
    ensures
        match item_at(s@, i as int) {
            None => r is None,
            Some((None, j)) => r matches Some((None, k)) && k == j,
            Some((Some(m), j)) => r matches Some((Some(n), k)) && node_conforms(n, m) && k == j,
        },
        r matches Some((_, k)) ==> i < k <= s.len(),
    decreases s@.len(), 1nat, 0int,
{
    match link_at_exec(s, i, arith) {
        Some((l, t, c, j)) => {
            return Some(
                (Some(ContentNode::Link { label: string_of(&l), target: string_of(&t), enabled_if: c }), j),
            );
        },
        None => {},
    }
    match comment_at_exec(s, i) {
        Some(j) => {
            return Some((None, j));
        },
        None => {},
    }
    match directive_at_exec(s, i, arith) {
        None => None,
        Some(Some((n, j))) => Some((Some(n), j)),
        Some(None) => {
            let t = till_special_exec(s, i);
            if t > i {
                Some((Some(ContentNode::Text(string_of(&sub_chars(s, i, t)))), t))
            } else {
                Some((None, i + 1))
            }
        },
    }
}

/// The nodes of a body (see `inline_spec`).
fn inline_nodes(s: &Vec<char>, arith: &dyn FloatArith) -> (r: Option<Vec<ContentNode>>)
    ensures
        match inline_spec(s@) {
            Some(ms) => r matches Some(v) && nodes_conform(v@, ms),
            None => r is None,
        },
    decreases s@.len(), 3nat, 0int,
{
    let mut out: Vec<ContentNode> = Vec::new();
    let ghost mut acc: Seq<NodeModel> = Seq::empty();
    let mut i: usize = 0;
    while i < s.len()
        invariant
            i <= s.len(),
            nodes_conform(out@, acc),
            nodes_from(s@, 0) == match nodes_from(s@, i as int) {
                Some(rest) => Some(acc + rest),
                None => None,
            },
        decreases s.len() - i,
    {
        match item_at_exec(s, i, arith) {
            None => {
                return None;
            },
            Some((item, j)) => {
                match item {
                    Some(n) => {
                        let ghost pair = item_at(s@, i as int)->0;
                        let ghost m = pair.0->0;
                        let ghost before = out@;
                        out.push(n);
                        proof {
                            assert(out@ == before.push(n));
                            assert forall|k: int| 0 <= k < acc.len() + 1 implies node_conforms(
                                #[trigger] out@[k],
                                acc.push(m)[k],
                            ) by {
                                if k < acc.len() {
                                    assert(out@[k] == before[k]);
                                }
                            }
                            assert(nodes_from(s@, i as int) == match nodes_from(s@, j as int) {
                                Some(rest) => Some(seq![m] + rest),
                                None => None,
                            });
                            if let Some(rest) = nodes_from(s@, j as int) {
                                assert(acc + (seq![m] + rest) =~= acc.push(m) + rest);
                            }
                            acc = acc.push(m);
                        }
                    },
                    None => {},
                }
                i = j;
            },
        }
    }
    assert(acc + Seq::<NodeModel>::empty() =~= acc);
    Some(out)
}

fn orphan_diags_exec(nodes: &Vec<ContentNode>, Ghost(ms): Ghost<Seq<NodeModel>>) -> (r: Vec<Diagnostic>)
    requires
        nodes_conform(nodes@, ms),
    ensures
        diags_model(r@) == orphan_diags(ms),
{
    proof {
        reveal_strlit("else");
        reveal_strlit("end");
    }
    let mut out: Vec<Diagnostic> = Vec::new();
    let mut k: usize = 0;
    while k < nodes.len()
        invariant
            k <= nodes.len(),
            nodes_conform(nodes@, ms),
            diags_model(out@) == orphan_diags(ms.take(k as int)),
        decreases nodes.len() - k,
    {
        assert(ms.take(k + 1).drop_last() =~= ms.take(k as int));
        assert(node_conforms(nodes@[k as int], ms[k as int]));
        match &nodes[k] {
            ContentNode::Text(t) => {
                if string_eq_str(t, "else") {
                    let ghost before = out@;
                    out.push(Diagnostic::error(String::from_str("unexpected {else} outside {if:} block")));
                    assert(diags_model(out@) =~= diags_model(before).push(out@.last().model()));
                } else if string_eq_str(t, "end") {
                    let ghost before = out@;
                    out.push(Diagnostic::error(String::from_str("unexpected {end} outside {if:} block")));
                    assert(diags_model(out@) =~= diags_model(before).push(out@.last().model()));
                }
            },
            _ => {},
        }
        k = k + 1;
    }
    assert(ms.take(nodes.len() as int) =~= ms);
    out
}

fn fallback_diags_exec(nodes: &Vec<ContentNode>, Ghost(ms): Ghost<Seq<NodeModel>>, out: &mut Vec<Diagnostic>)
    requires
        nodes_conform(nodes@, ms),
    ensures
        diags_model(final(out)@) == diags_model(old(out)@) + fallback_diags(ms),
    decreases nodes@,
{
    let ghost base = diags_model(out@);
    let mut k: usize = 0;
    while k < nodes.len()
        invariant
            k <= nodes.len(),
            nodes_conform(nodes@, ms),
            diags_model(out@) == base + fallback_diags(ms.take(k as int)),
        decreases nodes.len() - k,
    {
        assert(ms.take(k + 1).drop_last() =~= ms.take(k as int));
        assert(node_conforms(nodes@[k as int], ms[k as int]));
        proof {
            assert(decreases_to!(nodes@ => nodes@[k as int]));
        }
        let ghost before = out@;
        match &nodes[k] {
            ContentNode::AIBlock { fallback, .. } => {
                if fallback.as_str().is_empty() {
                    out.push(
                        Diagnostic::error(
                            String::from_str("AI directive requires fallback text: {ai: prompt | fallback}"),
                        ),
                    );
                    assert(diags_model(out@) =~= diags_model(before) + node_fallback_diags(ms[k as int]));
                } else {
                    assert(diags_model(out@) =~= diags_model(before) + node_fallback_diags(ms[k as int]));
                }
            },
            ContentNode::Conditional { then_branch, else_branch, .. } => {
                let ghost m = ms[k as int];
                let ghost tm = m->Conditional_1;
                let ghost em = m->Conditional_2;
                assert(nodes_conform(then_branch@, tm));
                assert(nodes_conform(else_branch@, em));
                fallback_diags_exec(then_branch, Ghost(tm), out);
                fallback_diags_exec(else_branch, Ghost(em), out);
                assert(diags_model(out@) =~= diags_model(before) + node_fallback_diags(ms[k as int]));
            },
            _ => {
                assert(diags_model(out@) =~= diags_model(before) + node_fallback_diags(ms[k as int]));
            },
        }
        assert(fallback_diags(ms.take(k + 1)) == fallback_diags(ms.take(k as int)) + node_fallback_diags(ms[k as int]));
        k = k + 1;
    }
    assert(ms.take(nodes.len() as int) =~= ms);
}

/// Parse a passage body into nodes and its diagnostics (stray
/// `{else}`/`{end}`, AI directives without fallback); `None` where the
/// grammar fails outright.
pub fn try_parse_inline(source: &str, arith: &dyn FloatArith) -> (r: Option<
    (Vec<ContentNode>, Vec<Diagnostic>),
>)
    ensures
        match inline_spec(source@) {
            Some(ms) => r matches Some((v, d)) && nodes_conform(v@, ms) && diags_model(d@)
                == body_diags(ms),
            None => r is None,
        },
{
    let s = str_chars(source);
    match inline_nodes(&s, arith) {
        Some(nodes) => {
            let ghost ms = inline_spec(source@)->0;
            let mut diags = orphan_diags_exec(&nodes, Ghost(ms));
            fallback_diags_exec(&nodes, Ghost(ms), &mut diags);
            Some((nodes, diags))
        },
        None => None,
    }
}

/// Parse a passage body string into `(nodes, diagnostics)`.
pub fn parse_inline(source: &str, arith: &dyn FloatArith) -> (r: (Vec<ContentNode>, Vec<Diagnostic>))
    requires
        inline_spec(source@) is Some,
    ensures
        nodes_conform(r.0@, inline_spec(source@)->0),
        diags_model(r.1@) == body_diags(inline_spec(source@)->0),
{
    match try_parse_inline(source, arith) {
        Some(r) => r,
        None => (Vec::new(), Vec::new()),
    }
}


/// A body without `[`, `{`, `<` or `/` is one text node, with no
/// diagnostic unless it is a stray `else` or `end`.
pub proof fn law_plain_text(s: Seq<char>)
    requires
        s.len() > 0,
        forall|k: int| 0 <= k < s.len() ==> !is_special(#[trigger] s[k]),
    ensures
        inline_spec(s) == Some(seq![NodeModel::Text(s)]),
        s != "else"@ && s != "end"@ ==> body_diags(seq![NodeModel::Text(s)]) == Seq::<
            DiagModel,
        >::empty(),
{
    let one = seq![NodeModel::Text(s)];
    assert(one.drop_last() =~= Seq::<NodeModel>::empty());
    assert(one.last() == NodeModel::Text(s));
    assert(orphan_diags(Seq::<NodeModel>::empty()) == Seq::<DiagModel>::empty());
    assert(fallback_diags(Seq::<NodeModel>::empty()) == Seq::<DiagModel>::empty());
    assert(node_fallback_diags(one.last()) =~= Seq::<DiagModel>::empty());
    assert(fallback_diags(one) =~= fallback_diags(one.drop_last()) + node_fallback_diags(one.last()));
    assert(fallback_diags(one) =~= Seq::<DiagModel>::empty());
    reveal_strlit("[[");
    reveal_strlit("//");
    reveal_strlit("<!--");
    lemma_till_special_end(s, 0);
    assert(!at(s, 0, "[["@)) by {
        if at(s, 0, "[["@) {
            assert(s.skip(0).take(2)[0] == s[0]);
        }
    }
    assert(!at(s, 0, "//"@)) by {
        if at(s, 0, "//"@) {
            assert(s.skip(0).take(2)[0] == s[0]);
        }
    }
    assert(!at(s, 0, "<!--"@)) by {
        if at(s, 0, "<!--"@) {
            assert(s.skip(0).take(4)[0] == s[0]);
        }
    }
    assert(s.subrange(0, s.len() as int) =~= s);
    assert(nodes_from(s, s.len() as int) == Some(Seq::<NodeModel>::empty()));
    assert(seq![NodeModel::Text(s)] + Seq::<NodeModel>::empty() =~= seq![NodeModel::Text(s)]);
}

proof fn lemma_till_special_end(s: Seq<char>, i: int)
    requires
        0 <= i <= s.len(),
        forall|k: int| 0 <= k < s.len() ==> !is_special(#[trigger] s[k]),
    ensures
        till_special(s, i) == s.len(),
    decreases s.len() - i,
{
    if i < s.len() {
        lemma_till_special_end(s, i + 1);
    }
}


proof fn lemma_till_char_bounds(s: Seq<char>, i: int, c: char)
    requires
        0 <= i <= s.len(),
    ensures
        i <= till_char(s, i, c) <= s.len(),
    decreases s.len() - i,
{
    if i < s.len() && s[i] != c {
        lemma_till_char_bounds(s, i + 1, c);
    }
}

proof fn lemma_till_label_bounds(s: Seq<char>, i: int)
    requires
        0 <= i <= s.len(),
    ensures
        i <= till_label_end(s, i) <= s.len(),
    decreases s.len() - i,
{
    if i < s.len() && s[i] != '-' && s[i] != '\u{2192}' && s[i] != ']' {
        lemma_till_label_bounds(s, i + 1);
    }
}

proof fn lemma_till_special_bounds(s: Seq<char>, i: int)
    requires
        0 <= i <= s.len(),
    ensures
        i <= till_special(s, i) <= s.len(),
    decreases s.len() - i,
{
    if i < s.len() && !is_special(s[i]) {
        lemma_till_special_bounds(s, i + 1);
    }
}

proof fn lemma_find_from_bounds(s: Seq<char>, i: int, p: Seq<char>)
    requires
        find_from(s, i, p) is Some,
    ensures
        i <= find_from(s, i, p)->0,
        find_from(s, i, p)->0 + p.len() <= s.len(),
    decreases s.len() - i,
{
    if !(i < 0 || i >= s.len() || i + p.len() > s.len()) && !at(s, i, p) {
        lemma_find_from_bounds(s, i + 1, p);
    }
}

/// Where no directive starts at `i`, the item there ends after `i` and
/// within the body.
proof fn lemma_item_progress(s: Seq<char>, i: int)
    requires
        0 <= i < s.len(),
        s[i] != '{',
    ensures
        item_at(s, i) matches Some((_, j)) && i < j <= s.len(),
{
    reveal_strlit("[[");
    reveal_strlit("]]");
    reveal_strlit("->");
    reveal_strlit("\u{2192}");
    reveal_strlit("//");
    reveal_strlit("<!--");
    reveal_strlit("-->");
    match link_at(s, i) {
        Some((l, t, c, j)) => {
            let p = i + 2;
            lemma_till_label_bounds(s, p);
            let le = till_label_end(s, p);
            let q = if at(s, le, "->"@) {
                le + 2
            } else {
                le + 1
            };
            lemma_till_char_bounds(s, q, ']');
        },
        None => match comment_at(s, i) {
            Some(j) => {
                if at(s, i, "//"@) {
                    lemma_till_char_bounds(s, i + 2, '\n');
                } else {
                    lemma_find_from_bounds(s, i + 4, "-->"@);
                }
            },
            None => {
                lemma_till_special_bounds(s, i);
            },
        },
    }
}

proof fn lemma_nodes_from_some(s: Seq<char>, i: int)
    requires
        0 <= i <= s.len(),
        !s.contains('{'),
    ensures
        nodes_from(s, i) is Some,
    decreases s.len() - i,
{
    if i < s.len() {
        assert(s[i] != '{');
        lemma_item_progress(s, i);
        let j = item_at(s, i).unwrap().1;
        lemma_nodes_from_some(s, j);
    }
}

/// A body without `{` is always parsed: text is the fallback at every
/// position, so only a directive can make the grammar fail.
pub proof fn law_no_directive_parses(s: Seq<char>)
    requires
        !s.contains('{'),
    ensures
        inline_spec(s) is Some,
{
    lemma_nodes_from_some(s, 0);
}

/// Joining `a` before parts with a separator puts it and the separator in
/// front of their join.
proof fn lemma_join_front(a: Seq<char>, rest: Seq<Seq<char>>, sep: Seq<char>)
    requires
        rest.len() > 0,
    ensures
        join_texts(seq![a] + rest, sep) == a + sep + join_texts(rest, sep),
    decreases rest.len(),
{
    let all = seq![a] + rest;
    if rest.len() == 1 {
        assert(all.drop_last() =~= seq![a]);
        assert(all.last() == rest[0]);
        assert(join_texts(all.drop_last(), sep) == a);
    } else {
        assert(all.drop_last() =~= seq![a] + rest.drop_last());
        assert(all.last() == rest.last());
        lemma_join_front(a, rest.drop_last(), sep);
        assert(join_texts(all, sep) == join_texts(all.drop_last(), sep) + sep + all.last());
        assert(a + sep + join_texts(rest.drop_last(), sep) + sep + rest.last() =~= a + sep + (
        join_texts(rest.drop_last(), sep) + sep + rest.last()));
    }
}

proof fn lemma_split_args_rejoin(s: Seq<char>, i: int, depth: int, quote: Option<char>, start: int)
    requires
        0 <= start <= i <= s.len(),
    ensures
        split_args_from(s, i, depth, quote, start).len() > 0,
        join_texts(split_args_from(s, i, depth, quote, start), ","@) == s.subrange(start, s.len() as int),
    decreases s.len() - i,
{
    reveal_strlit(",");
    if i < s.len() {
        let c = s[i];
        match quote {
            Some(q) => {
                lemma_split_args_rejoin(s, i + 1, depth, if c == q { None } else { quote }, start);
            },
            None => {
                if c == '"' || c == '\'' {
                    lemma_split_args_rejoin(s, i + 1, depth, Some(c), start);
                } else if c == '{' {
                    lemma_split_args_rejoin(s, i + 1, depth + 1, None, start);
                } else if c == '}' {
                    lemma_split_args_rejoin(s, i + 1, depth - 1, None, start);
                } else if c == ',' && depth == 0 {
                    let rest = split_args_from(s, i + 1, depth, None, i + 1);
                    lemma_split_args_rejoin(s, i + 1, depth, None, i + 1);
                    lemma_join_front(s.subrange(start, i), rest, ","@);
                    assert(s.subrange(start, i) + ","@ + s.subrange(i + 1, s.len() as int) =~= s.subrange(
                        start,
                        s.len() as int,
                    ));
                } else {
                    lemma_split_args_rejoin(s, i + 1, depth, None, start);
                }
            },
        }
    } else {
        assert(seq![s.subrange(start, s.len() as int)].len() == 1);
    }
}

/// Splitting macro arguments loses nothing: joining the parts with commas
/// gives the text back, and there is always at least one part.
pub proof fn law_split_args_rejoin(s: Seq<char>)
    ensures
        split_args_spec(s).len() > 0,
        join_texts(split_args_spec(s), ","@) == s,
{
    reveal_strlit(",");
    lemma_split_args_rejoin(s, 0, 0, None, 0);
    assert(s.subrange(0, s.len() as int) =~= s);
}

/// The commas of `s` from position `i` on that stand outside quotes and at
/// brace depth 0, given the quote and depth at `i`.
pub open spec fn top_commas(s: Seq<char>, i: int, depth: int, quote: Option<char>) -> nat
    decreases s.len() - i,
{
    if i < 0 || i >= s.len() {
        0
    } else {
        let c = s[i];
        match quote {
            Some(q) => top_commas(s, i + 1, depth, if c == q { None } else { quote }),
            None => if c == '"' || c == '\'' {
                top_commas(s, i + 1, depth, Some(c))
            } else if c == '{' {
                top_commas(s, i + 1, depth + 1, None)
            } else if c == '}' {
                top_commas(s, i + 1, depth - 1, None)
            } else if c == ',' && depth == 0 {
                1 + top_commas(s, i + 1, depth, None)
            } else {
                top_commas(s, i + 1, depth, None)
            },
        }
    }
}

proof fn lemma_split_args_count(s: Seq<char>, i: int, depth: int, quote: Option<char>, start: int)
    requires
        0 <= start <= i <= s.len(),
    ensures
        split_args_from(s, i, depth, quote, start).len() == 1 + top_commas(s, i, depth, quote),
    decreases s.len() - i,
{
    if i < s.len() {
        let c = s[i];
        match quote {
            Some(q) => {
                lemma_split_args_count(s, i + 1, depth, if c == q { None } else { quote }, start);
            },
            None => {
                if c == '"' || c == '\'' {
                    lemma_split_args_count(s, i + 1, depth, Some(c), start);
                } else if c == '{' {
                    lemma_split_args_count(s, i + 1, depth + 1, None, start);
                } else if c == '}' {
                    lemma_split_args_count(s, i + 1, depth - 1, None, start);
                } else if c == ',' && depth == 0 {
                    lemma_split_args_count(s, i + 1, depth, None, i + 1);
                } else {
                    lemma_split_args_count(s, i + 1, depth, None, start);
                }
            },
        }
    }
}

/// Splitting macro arguments gives one part more than there are commas
/// outside quotes and braces.
pub proof fn law_split_args_count(s: Seq<char>)
    ensures
        split_args_spec(s).len() == 1 + top_commas(s, 0, 0, None),
{
    lemma_split_args_count(s, 0, 0, None, 0);
}


/// Decimal text with a dot at `d`: an optional `-`, at least one digit, the
/// dot, then digits.
pub open spec fn decimal_text(t: Seq<char>, d: int) -> bool {
    let st: int = if t.len() > 0 && t[0] == '-' { 1 } else { 0 };
    &&& 0 <= d < t.len()
    &&& t[d] == '.'
    &&& st < d
    &&& forall|i: int| st <= i < t.len() && i != d ==> is_digit(#[trigger] t[i])
}

proof fn lemma_digits_end_at(s: Seq<char>, i: int, k: int)
    requires
        0 <= i <= k <= s.len(),
        forall|j: int| i <= j < k ==> is_digit(#[trigger] s[j]),
        k == s.len() || !is_digit(s[k]),
    ensures
        digits_end(s, i) == k,
    decreases k - i,
{
    if i < k {
        lemma_digits_end_at(s, i + 1, k);
    }
}

/// A literal whose trimmed text is decimal, negative ones included, is read
/// as a float from its whole trimmed text: by `parse_value_literal`, the
/// `Float` that the `FloatArith` reads from that text, its sign the text's.
pub proof fn law_float_value_literal(s: Seq<char>, d: int)
    requires
        decimal_text(trim(s), d),
    ensures
        value_literal(s) == Some(LitModel::FloatText(trim(s))),
{
    let t = trim(s);
    let st: int = if t[0] == '-' { 1 } else { 0 };
    reveal_strlit("true");
    reveal_strlit("false");
    reveal_strlit("null");
    assert(t[0] == '-' || is_digit(t[0]));
    assert(t != "true"@ && t != "false"@ && t != "null"@) by {
        assert(t[0] != "true"@[0] && t[0] != "false"@[0] && t[0] != "null"@[0]);
    }
    if st == 1 {
        assert(!all_digits(t.drop_first())) by {
            assert(t.drop_first()[d - 1] == '.');
        }
    } else {
        assert(!all_digits(t)) by {
            assert(t[d] == '.');
        }
    }
    assert(parse_i64(t) is None);
    let u = if st == 1 { t.skip(1) } else { t };
    assert(forall|i: int| 0 <= i < u.len() ==> u[i] == t[i + st]);
    assert(is_digit(u[0]));
    reveal_strlit("inf");
    reveal_strlit("infinity");
    reveal_strlit("nan");
    assert(!eq_ignore_case(u, "inf"@) && !eq_ignore_case(u, "infinity"@) && !eq_ignore_case(u, "nan"@)) by {
        assert(ascii_lower(u[0]) == u[0]);
        assert(u[0] != "inf"@[0] && u[0] != "infinity"@[0] && u[0] != "nan"@[0]);
    }
    lemma_digits_end_at(u, 0, d - st);
    lemma_digits_end_at(u, d - st + 1, u.len() as int);
    assert(float_syntax(t));
}

} // verus!
