//! Checks of a parsed story that the `.pathos` parser reports: the names
//! of the functions that conditions call, and the languages of the passage
//! scripts and hooks.
use vstd::prelude::*;
use crate::content::ContentNode;
use crate::expression::Expression;
use crate::format::{DiagModel, Diagnostic, Severity, diags_model};
use crate::passage::PassageNode;
use crate::script::{ScriptLang, known_lang};
use crate::text::{concat2, concat3, copy_string, string_eq_str, strings_model};

verus! {

/// The functions that conditions may call.
pub open spec fn known_function(n: Seq<char>) -> bool {
    n == "random"@ || n == "has_tag"@ || n == "visited"@ || n == "count"@
}

/// The names of the unknown functions that an expression calls, in the
/// order they are written.
pub open spec fn unknown_calls(e: Expression) -> Seq<Seq<char>>
    decreases e,
{
    match e {
        Expression::Literal(_) => Seq::empty(),
        Expression::StateVar(_) => Seq::empty(),
        Expression::Not(a) => unknown_calls(*a),
        Expression::And(a, b) => unknown_calls(*a) + unknown_calls(*b),
        Expression::Or(a, b) => unknown_calls(*a) + unknown_calls(*b),
        Expression::Eq(a, b) => unknown_calls(*a) + unknown_calls(*b),
        Expression::NotEq(a, b) => unknown_calls(*a) + unknown_calls(*b),
        Expression::Lt(a, b) => unknown_calls(*a) + unknown_calls(*b),
        Expression::Lte(a, b) => unknown_calls(*a) + unknown_calls(*b),
        Expression::Gt(a, b) => unknown_calls(*a) + unknown_calls(*b),
        Expression::Gte(a, b) => unknown_calls(*a) + unknown_calls(*b),
        Expression::Add(a, b) => unknown_calls(*a) + unknown_calls(*b),
        Expression::Sub(a, b) => unknown_calls(*a) + unknown_calls(*b),
        Expression::Mul(a, b) => unknown_calls(*a) + unknown_calls(*b),
        Expression::Div(a, b) => unknown_calls(*a) + unknown_calls(*b),
        Expression::Call { name, args } => (if known_function(name@) {
            Seq::empty()
        } else {
            seq![name@]
        }) + args_unknown_calls(args@),
    }
}

/// The unknown functions that a list of arguments calls, in order.
pub open spec fn args_unknown_calls(args: Seq<Expression>) -> Seq<Seq<char>>
    decreases args,
{
    if args.len() == 0 {
        Seq::empty()
    } else {
        args_unknown_calls(args.drop_last()) + unknown_calls(args.last())
    }
}

/// The unknown functions that the conditions of a body call, at any
/// depth: `{if:}` conditions and link conditions, in order.
pub open spec fn body_unknown_calls(body: Seq<ContentNode>) -> Seq<Seq<char>>
    decreases body,
{
    if body.len() == 0 {
        Seq::empty()
    } else {
        body_unknown_calls(body.drop_last()) + node_unknown_calls(body.last())
    }
}

pub open spec fn node_unknown_calls(n: ContentNode) -> Seq<Seq<char>>
    decreases n,
{
    match n {
        ContentNode::Conditional { condition, then_branch, else_branch } => unknown_calls(condition)
            + body_unknown_calls(then_branch@) + body_unknown_calls(else_branch@),
        ContentNode::Link { enabled_if: Some(e), .. } => unknown_calls(e),
        _ => Seq::empty(),
    }
}

/// One warning for each call of an unknown function in a condition.
pub open spec fn call_diags(names: Seq<Seq<char>>, id: Seq<char>) -> Seq<DiagModel> {
    names.map_values(
        |n: Seq<char>|
            DiagModel {
                severity: Severity::Warning,
                message: "unknown function '"@ + n + "' in condition (passage '"@ + id + "')"@,
                span: None,
            },
    )
}

/// The languages of a passage's scripts, then of its hooks.
pub open spec fn passage_langs(n: PassageNode) -> Seq<Seq<char>> {
    n.scripts@.map_values(|s: crate::passage::PassageScript| s.lang@) + n.hooks@.map_values(
        |h: crate::passage::HookDeclaration| h.script.lang@,
    )
}

/// The languages of a list that the engine does not know, in order.
pub open spec fn unknown_langs(ls: Seq<Seq<char>>) -> Seq<Seq<char>>
    decreases ls.len(),
{
    if ls.len() == 0 {
        Seq::empty()
    } else if known_lang(ls.last()) {
        unknown_langs(ls.drop_last())
    } else {
        unknown_langs(ls.drop_last()).push(ls.last())
    }
}

/// One error for each script or hook in a language the engine does not know.
pub open spec fn lang_diags(langs: Seq<Seq<char>>, id: Seq<char>) -> Seq<DiagModel> {
    unknown_langs(langs).map_values(
        |l: Seq<char>|
            DiagModel {
                severity: Severity::Error,
                message: "unknown script language '"@ + l + "' (passage '"@ + id + "')"@,
                span: None,
            },
    )
}

/// The diagnostics of the checks, passage by passage: the unknown
/// functions of its conditions, then the unknown languages of its scripts
/// and hooks.
pub open spec fn story_check_diags(nodes: Seq<PassageNode>) -> Seq<DiagModel>
    decreases nodes.len(),
{
    if nodes.len() == 0 {
        Seq::empty()
    } else {
        let n = nodes.last();
        story_check_diags(nodes.drop_last()) + call_diags(body_unknown_calls(n.body@), n.id@)
            + lang_diags(passage_langs(n), n.id@)
    }
}

fn is_known_function(name: &String) -> (r: bool)
    ensures
        r == known_function(name@),
{
    string_eq_str(name, "random") || string_eq_str(name, "has_tag") || string_eq_str(name, "visited")
        || string_eq_str(name, "count")
}

/// Append the unknown functions that `e` calls.
fn push_unknown_calls(e: &Expression, out: &mut Vec<String>)
    ensures
        strings_model(final(out)@) == strings_model(old(out)@) + unknown_calls(*e),
    decreases *e,
{
    let ghost before = strings_model(out@);
    match e {
        Expression::Literal(_) | Expression::StateVar(_) => {
            assert(strings_model(out@) =~= before + unknown_calls(*e));
        },
        Expression::Not(a) => {
            push_unknown_calls(a, out);
        },
        Expression::And(a, b) | Expression::Or(a, b) | Expression::Eq(a, b) | Expression::NotEq(a, b)
        | Expression::Lt(a, b) | Expression::Lte(a, b) | Expression::Gt(a, b) | Expression::Gte(a, b)
        | Expression::Add(a, b) | Expression::Sub(a, b) | Expression::Mul(a, b) | Expression::Div(a, b) => {
            push_unknown_calls(a, out);
            let ghost mid = strings_model(out@);
            push_unknown_calls(b, out);
            assert(strings_model(out@) =~= before + (unknown_calls(**a) + unknown_calls(**b)));
        },
        Expression::Call { name, args } => {
            if !is_known_function(name) {
                let ghost b0 = out@;
                out.push(copy_string(name));
                assert(strings_model(out@) =~= strings_model(b0).push(name@));
            }
            let ghost mid = strings_model(out@);
            assert(mid =~= before + (if known_function(name@) {
                Seq::<Seq<char>>::empty()
            } else {
                seq![name@]
            }));
            let mut k: usize = 0;
            while k < args.len()
                invariant
                    k <= args.len(),
                    *e == (Expression::Call { name: *name, args: *args }),
                    strings_model(out@) == mid + args_unknown_calls(args@.take(k as int)),
                decreases args.len() - k,
            {
                assert(args@.take(k + 1).drop_last() =~= args@.take(k as int));
                proof {
                    assert(decreases_to!(*e => e->args));
                    assert(decreases_to!(e->args => e->args@));
                    assert(decreases_to!(e->args@ => e->args@[k as int]));
                }
                let ghost m2 = strings_model(out@);
                push_unknown_calls(&args[k], out);
                assert(strings_model(out@) =~= mid + args_unknown_calls(args@.take(k + 1)));
                k = k + 1;
            }
            assert(args@.take(args.len() as int) =~= args@);
            assert(strings_model(out@) =~= before + unknown_calls(*e));
        },
    }
}

/// Append the unknown functions that the conditions of `body` call.
fn push_body_unknown_calls(body: &Vec<ContentNode>, out: &mut Vec<String>)
    ensures
        strings_model(final(out)@) == strings_model(old(out)@) + body_unknown_calls(body@),
    decreases body@,
{
    let ghost base = strings_model(out@);
    let mut k: usize = 0;
    while k < body.len()
        invariant
            k <= body.len(),
            strings_model(out@) == base + body_unknown_calls(body@.take(k as int)),
        decreases body.len() - k,
    {
        let ghost t = body@.take(k + 1);
        assert(t.drop_last() =~= body@.take(k as int));
        proof {
            assert(decreases_to!(body@ => body@[k as int]));
        }
        push_node_unknown_calls(&body[k], out);
        assert(strings_model(out@) =~= base + body_unknown_calls(t));
        k = k + 1;
    }
    assert(body@.take(body.len() as int) =~= body@);
}

fn push_node_unknown_calls(n: &ContentNode, out: &mut Vec<String>)
    ensures
        strings_model(final(out)@) == strings_model(old(out)@) + node_unknown_calls(*n),
    decreases *n,
{
    let ghost before = strings_model(out@);
    match n {
        ContentNode::Conditional { condition, then_branch, else_branch } => {
            push_unknown_calls(condition, out);
            push_body_unknown_calls(then_branch, out);
            push_body_unknown_calls(else_branch, out);
            assert(strings_model(out@) =~= before + node_unknown_calls(*n));
        },
        ContentNode::Link { enabled_if: Some(e), .. } => {
            push_unknown_calls(e, out);
        },
        _ => {
            assert(strings_model(out@) =~= before + node_unknown_calls(*n));
        },
    }
}

/// The unknown languages among `langs`.
fn unknown_langs_exec(langs: &Vec<String>) -> (r: Vec<String>)
    ensures
        strings_model(r@) == unknown_langs(strings_model(langs@)),
{
    let ghost lm = strings_model(langs@);
    let mut r: Vec<String> = Vec::new();
    let mut k: usize = 0;
    while k < langs.len()
        invariant
            k <= langs.len(),
            lm == strings_model(langs@),
            strings_model(r@) == unknown_langs(lm.take(k as int)),
        decreases langs.len() - k,
    {
        assert(lm.take(k + 1).drop_last() =~= lm.take(k as int));
        assert(lm.take(k + 1).last() == langs@[k as int]@);
        if ScriptLang::from_info_string(langs[k].as_str()).is_none() {
            let ghost b0 = r@;
            r.push(copy_string(&langs[k]));
            assert(strings_model(r@) =~= strings_model(b0).push(langs@[k as int]@));
        }
        k = k + 1;
    }
    assert(lm.take(langs.len() as int) =~= lm);
    r
}

/// The checks of one passage.
fn passage_checks(n: &PassageNode, out: &mut Vec<Diagnostic>)
    ensures
        diags_model(final(out)@) == diags_model(old(out)@) + call_diags(body_unknown_calls(n.body@), n.id@)
            + lang_diags(passage_langs(*n), n.id@),
{
    let ghost base = diags_model(out@);
    let mut names: Vec<String> = Vec::new();
    assert(strings_model(names@) =~= Seq::<Seq<char>>::empty());
    push_body_unknown_calls(&n.body, &mut names);
    let ghost nm = strings_model(names@);
    let mut k: usize = 0;
    while k < names.len()
        invariant
            k <= names.len(),
            nm == strings_model(names@),
            diags_model(out@) == base + call_diags(nm.take(k as int), n.id@),
        decreases names.len() - k,
    {
        let ghost b0 = out@;
        let a = concat3("unknown function '", names[k].as_str(), "' in condition (passage '");
        let m = concat3(a.as_str(), n.id.as_str(), "')");
        out.push(Diagnostic::warning(m));
        assert(call_diags(nm.take(k + 1), n.id@) =~= call_diags(nm.take(k as int), n.id@).push(
            out@.last().model(),
        ));
        assert(diags_model(out@) =~= diags_model(b0).push(out@.last().model()));
        k = k + 1;
    }
    assert(nm.take(names.len() as int) =~= nm);
    let mut langs: Vec<String> = Vec::new();
    let mut j: usize = 0;
    while j < n.scripts.len()
        invariant
            j <= n.scripts.len(),
            strings_model(langs@) == n.scripts@.take(j as int).map_values(
                |s: crate::passage::PassageScript| s.lang@,
            ),
        decreases n.scripts.len() - j,
    {
        let ghost b0 = langs@;
        langs.push(copy_string(&n.scripts[j].lang));
        assert(strings_model(langs@) =~= strings_model(b0).push(n.scripts@[j as int].lang@));
        assert(n.scripts@.take(j + 1).map_values(|s: crate::passage::PassageScript| s.lang@)
            =~= n.scripts@.take(j as int).map_values(|s: crate::passage::PassageScript| s.lang@).push(
            n.scripts@[j as int].lang@,
        ));
        j = j + 1;
    }
    assert(n.scripts@.take(n.scripts.len() as int) =~= n.scripts@);
    let ghost sl = strings_model(langs@);
    let mut h: usize = 0;
    while h < n.hooks.len()
        invariant
            h <= n.hooks.len(),
            strings_model(langs@) == sl + n.hooks@.take(h as int).map_values(
                |x: crate::passage::HookDeclaration| x.script.lang@,
            ),
        decreases n.hooks.len() - h,
    {
        let ghost b0 = langs@;
        langs.push(copy_string(&n.hooks[h].script.lang));
        assert(strings_model(langs@) =~= strings_model(b0).push(n.hooks@[h as int].script.lang@));
        assert(n.hooks@.take(h + 1).map_values(|x: crate::passage::HookDeclaration| x.script.lang@)
            =~= n.hooks@.take(h as int).map_values(|x: crate::passage::HookDeclaration| x.script.lang@).push(
            n.hooks@[h as int].script.lang@,
        ));
        h = h + 1;
    }
    assert(n.hooks@.take(n.hooks.len() as int) =~= n.hooks@);
    assert(strings_model(langs@) =~= passage_langs(*n));
    let bad = unknown_langs_exec(&langs);
    let ghost bm = strings_model(bad@);
    let ghost mid = diags_model(out@);
    let mut k: usize = 0;
    while k < bad.len()
        invariant
            k <= bad.len(),
            bm == strings_model(bad@),
            diags_model(out@) == mid + lang_diags(passage_langs(*n), n.id@).take(k as int),
            bm == unknown_langs(passage_langs(*n)),
        decreases bad.len() - k,
    {
        let ghost b0 = out@;
        let a = concat3("unknown script language '", bad[k].as_str(), "' (passage '");
        let m = concat3(a.as_str(), n.id.as_str(), "')");
        out.push(Diagnostic::error(m));
        assert(lang_diags(passage_langs(*n), n.id@).take(k + 1) =~= lang_diags(passage_langs(*n), n.id@).take(
            k as int,
        ).push(out@.last().model()));
        assert(diags_model(out@) =~= diags_model(b0).push(out@.last().model()));
        k = k + 1;
    }
    assert(lang_diags(passage_langs(*n), n.id@).take(bad.len() as int) =~= lang_diags(passage_langs(*n), n.id@));
}

/// The checks of a story, passage by passage.
pub fn story_checks(nodes: &Vec<PassageNode>) -> (r: Vec<Diagnostic>)
    ensures
        diags_model(r@) == story_check_diags(nodes@),
{
    let mut out: Vec<Diagnostic> = Vec::new();
    let mut k: usize = 0;
    assert(diags_model(out@) =~= story_check_diags(nodes@.take(0)));
    while k < nodes.len()
        invariant
            k <= nodes.len(),
            diags_model(out@) == story_check_diags(nodes@.take(k as int)),
        decreases nodes.len() - k,
    {
        let ghost t = nodes@.take(k + 1);
        assert(t.drop_last() =~= nodes@.take(k as int));
        passage_checks(&nodes[k], &mut out);
        k = k + 1;
    }
    assert(nodes@.take(nodes.len() as int) =~= nodes@);
    out
}

} // verus!
