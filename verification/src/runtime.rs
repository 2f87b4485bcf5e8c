//! The narrative runtime: walks passage content into render commands and
//! drives navigation between passages.
//!
//! Scripts run outside the library: navigation is a sequence of steps in
//! which the runtime names the next script to run and the caller reports
//! how it ended (`advance`).
use vstd::prelude::*;
use crate::config::StoryConfig;
use crate::content::{ContentNode, MacroArg};
use crate::error::{CoreError, ErrorModel, error_text};
use crate::expression::{EvalContext, Expression, FloatKind, Outcome, done_value, eval_spec, float_comparison_result};
use crate::hook::{HookRegistry, script_model};
use crate::macros::{
    MacroContext, MacroHandler, MacroItem, MacroOutcome, MacroResult, builtin_macros, item_of,
    items_of,
};
use crate::passage::{PassageGraph, PassageNode, PassageScript, node_index};
use crate::script::{ScriptEngine, ScriptSignal};
use crate::state::{StateModel, StoryState, model_lookup};
use crate::text::{
    concat2, concat3, copy_string, join_strings, join_texts, str_chars, string_of, strings_model,
    trim, trim_chars,
};
use crate::types::{
    Choice, ChoiceModel, CmdModel, RenderCommand, StepResult, UserInput, choices_model, cmds_model,
    copy_choices,
};
use crate::value::{FloatArith, Scope, Value, ValueModel, display, float_shown, has_float};

verus! {

/// How deep displays of one passage inside another may nest.
pub const MAX_DISPLAY_DEPTH: usize = 256;

// ── text paragraphs ─────────────────────────────────────────────────────

/// The parts of `s` from `i` on, split at each `"\n\n"` (left to right, not
/// overlapping), the first part starting with `cur`.
pub open spec fn split_from(s: Seq<char>, i: int, cur: Seq<char>) -> Seq<Seq<char>>
    decreases s.len() - i,
{
    if i < 0 || i >= s.len() {
        seq![cur]
    } else if i + 1 < s.len() && s[i] == '\n' && s[i + 1] == '\n' {
        seq![cur] + split_from(s, i + 2, Seq::empty())
    } else {
        split_from(s, i + 1, cur.push(s[i]))
    }
}

/// Text commands of the trimmed, non-empty parts.
pub open spec fn paragraph_cmds(parts: Seq<Seq<char>>) -> Seq<CmdModel>
    decreases parts.len(),
{
    if parts.len() == 0 {
        Seq::empty()
    } else {
        let pre = paragraph_cmds(parts.drop_last());
        let t = trim(parts.last());
        if t.len() == 0 {
            pre
        } else {
            pre.push(CmdModel::Text(t))
        }
    }
}

/// The commands a text node renders: one per non-empty paragraph.
pub open spec fn text_cmds(s: Seq<char>) -> Seq<CmdModel> {
    paragraph_cmds(split_from(s, 0, Seq::empty()))
}

pub open spec fn seqs_model(v: Seq<Vec<char>>) -> Seq<Seq<char>> {
    Seq::new(v.len(), |i: int| v[i]@)
}

/// Split text at each blank line (`"\n\n"`).
fn split_paragraphs(s: &Vec<char>) -> (r: Vec<Vec<char>>)
    ensures
        seqs_model(r@) == split_from(s@, 0, Seq::empty()),
{
    let mut out: Vec<Vec<char>> = Vec::new();
    let mut cur: Vec<char> = Vec::new();
    let mut i: usize = 0;
    while i < s.len()
        invariant
            i <= s.len(),
            seqs_model(out@) + split_from(s@, i as int, cur@) == split_from(s@, 0, Seq::empty()),
        decreases s.len() - i,
    {
        if i + 1 < s.len() && s[i] == '\n' && s[i + 1] == '\n' {
            let ghost before = out@;
            let done = cur;
            out.push(done);
            cur = Vec::new();
            assert(seqs_model(out@) =~= seqs_model(before).push(done@));
            assert(seqs_model(out@) + split_from(s@, i + 2, cur@) =~= seqs_model(before) + split_from(
                s@,
                i as int,
                done@,
            ));
            i = i + 2;
        } else {
            cur.push(s[i]);
            i = i + 1;
        }
    }
    let ghost before = out@;
    let last = cur;
    out.push(last);
    assert(seqs_model(out@) =~= seqs_model(before) + seq![last@]);
    out
}

// ── the meaning of a walk ───────────────────────────────────────────────

/// What walking content changes: the state, the buffered commands and the
/// pending choices.
pub struct WalkModel {
    pub state: StateModel,
    pub buffer: Seq<CmdModel>,
    pub choices: Seq<ChoiceModel>,
}

pub open spec fn push_cmds(w: WalkModel, cs: Seq<CmdModel>) -> WalkModel {
    WalkModel { buffer: w.buffer + cs, ..w }
}

/// Whether a link guard leaves the link enabled: true unless it evaluates
/// to `false` (float arithmetic gives a number or an error, never a
/// boolean); `None` where a boolean rests on float arithmetic.
pub open spec fn guard_value(o: Outcome) -> Option<bool> {
    match o {
        Outcome::Done(Ok(ValueModel::Bool(b))) => Some(b),
        Outcome::Done(_) => Some(true),
        Outcome::FloatDependent(FloatKind::Number) => Some(true),
        _ => None,
    }
}

/// Whether a condition holds: only `true` does (float arithmetic gives a
/// number or an error, never a boolean); `None` where a boolean rests on
/// float arithmetic.
pub open spec fn condition_value(o: Outcome) -> Option<bool> {
    match o {
        Outcome::Done(Ok(ValueModel::Bool(b))) => Some(b),
        Outcome::Done(_) => Some(false),
        Outcome::FloatDependent(FloatKind::Number) => Some(false),
        _ => None,
    }
}

/// The first macro handler with the given name.
pub open spec fn macro_first(macros: Seq<Box<dyn MacroHandler>>, name: Seq<char>, i: int) -> bool {
    &&& 0 <= i < macros.len()
    &&& macros[i].spec_name() == name
    &&& forall|j: int| 0 <= j < i ==> macros[j].spec_name() != name
}

pub open spec fn macro_index(macros: Seq<Box<dyn MacroHandler>>, name: Seq<char>) -> Option<int> {
    if exists|i: int| macro_first(macros, name, i) {
        Some(choose|i: int| macro_first(macros, name, i))
    } else {
        None
    }
}

/// The text a value interpolates to, or `None` where it holds a float.
pub open spec fn interp_text(v: ValueModel) -> Option<Seq<char>> {
    if has_float(v) {
        None
    } else {
        Some(display(v))
    }
}

/// Walk content nodes in order.  `None` where a float decides a branch or a
/// float's text is shown.
pub open spec fn walk_spec(
    g: &PassageGraph,
    macros: Seq<Box<dyn MacroHandler>>,
    w: WalkModel,
    nodes: Seq<ContentNode>,
    depth: nat,
) -> Option<WalkModel>
    decreases depth, 1nat, nodes,
{
    if nodes.len() == 0 {
        Some(w)
    } else {
        match walk_spec(g, macros, w, nodes.drop_last(), depth) {
            Some(w1) => node_spec(g, macros, w1, nodes.last(), depth),
            None => None,
        }
    }
}

/// Walk one content node.
pub open spec fn node_spec(
    g: &PassageGraph,
    macros: Seq<Box<dyn MacroHandler>>,
    w: WalkModel,
    node: ContentNode,
    depth: nat,
) -> Option<WalkModel>
    decreases depth, 1nat, node,
{
    match node {
        ContentNode::Text(s) => Some(push_cmds(w, text_cmds(s@))),
        ContentNode::Link { label, target, enabled_if } => {
            let enabled = match enabled_if {
                Some(e) => guard_value(eval_spec(&e, w.state, Some(g))),
                None => Some(true),
            };
            match enabled {
                Some(b) => Some(
                    WalkModel {
                        choices: w.choices.push(
                            ChoiceModel { label: label@, target: target@, enabled: b, tooltip: None },
                        ),
                        ..w
                    },
                ),
                None => None,
            }
        },
        ContentNode::StateInterp { path } => match model_lookup(w.state, path@, Scope::Global) {
            Some(v) => match interp_text(v) {
                Some(t) => Some(push_cmds(w, seq![CmdModel::Text(t)])),
                None => None,
            },
            None => Some(push_cmds(w, seq![CmdModel::Text("{state: \""@ + path@ + "\"}"@)])),
        },
        ContentNode::Conditional { condition, then_branch, else_branch } => match condition_value(
            eval_spec(&condition, w.state, Some(g)),
        ) {
            Some(true) => walk_spec(g, macros, w, then_branch@, depth),
            Some(false) => walk_spec(g, macros, w, else_branch@, depth),
            None => None,
        },
        ContentNode::Display { passage } => match node_index(g.nodes@, passage@) {
            Some(i) => if depth > 0 {
                walk_spec(g, macros, w, g.nodes@[i].body@, (depth - 1) as nat)
            } else {
                Some(w)
            },
            None => Some(w),
        },
        ContentNode::AIBlock { fallback, .. } => Some(
            push_cmds(w, seq![CmdModel::StreamFailed(fallback@)]),
        ),
        ContentNode::Macro { name, args } => match macro_index(macros, name@) {
            Some(i) => match macros[i].spec_handle(w.state, args@) {
                Some((st, out)) => {
                    let w2 = WalkModel { state: st, ..w };
                    match out {
                        MacroOutcome::Items(items) => if depth > 0 {
                            items_spec(g, macros, w2, items, (depth - 1) as nat)
                        } else {
                            Some(w2)
                        },
                        MacroOutcome::SideEffect => Some(w2),
                        MacroOutcome::Failed(e) => Some(
                            push_cmds(w2, seq![CmdModel::Text("[macro error: "@ + error_text(e) + "]"@)]),
                        ),
                    }
                },
                None => None,
            },
            None => Some(push_cmds(w, seq![CmdModel::Text("{"@ + name@ + ": ...}"@)])),
        },
    }
}

/// A link without a condition is always offered as enabled.
pub proof fn law_unconditional_link_enabled(
    g: &PassageGraph,
    macros: Seq<Box<dyn MacroHandler>>,
    w: WalkModel,
    label: String,
    target: String,
    depth: nat,
)
    ensures
        node_spec(g, macros, w, ContentNode::Link { label, target, enabled_if: None }, depth)
            == Some(
            WalkModel {
                choices: w.choices.push(
                    ChoiceModel { label: label@, target: target@, enabled: true, tooltip: None },
                ),
                ..w
            },
        ),
{
}

/// A link whose condition evaluates to `false` is offered greyed out.
pub proof fn law_false_guard_disables_link(
    g: &PassageGraph,
    macros: Seq<Box<dyn MacroHandler>>,
    w: WalkModel,
    label: String,
    target: String,
    guard: Expression,
    depth: nat,
)
    requires
        eval_spec(&guard, w.state, Some(g)) == Outcome::Done(Ok(ValueModel::Bool(false))),
    ensures
        node_spec(g, macros, w, ContentNode::Link { label, target, enabled_if: Some(guard) }, depth)
            == Some(
            WalkModel {
                choices: w.choices.push(
                    ChoiceModel { label: label@, target: target@, enabled: false, tooltip: None },
                ),
                ..w
            },
        ),
{
}

/// Render what a macro returned: its texts as they are, and its displays.
pub open spec fn items_spec(
    g: &PassageGraph,
    macros: Seq<Box<dyn MacroHandler>>,
    w: WalkModel,
    items: Seq<MacroItem>,
    depth: nat,
) -> Option<WalkModel>
    decreases depth, 2nat, items,
{
    if items.len() == 0 {
        Some(w)
    } else {
        match items_spec(g, macros, w, items.drop_last(), depth) {
            Some(w1) => match items.last() {
                MacroItem::Text(s) => Some(push_cmds(w1, seq![CmdModel::Text(s)])),
                MacroItem::Display(p) => match node_index(g.nodes@, p) {
                    Some(i) => walk_spec(g, macros, w1, g.nodes@[i].body@, depth),
                    None => Some(w1),
                },
                MacroItem::Other => Some(w1),
            },
            None => None,
        }
    }
}

// ── walking content ─────────────────────────────────────────────────────

pub open spec fn walk_model(st: StoryState, buffer: Seq<RenderCommand>, choices: Seq<Choice>) -> WalkModel {
    WalkModel { state: st@, buffer: cmds_model(buffer), choices: choices_model(choices) }
}

/// The walk only adds to what was rendered and to the choices.
pub open spec fn grows(a: WalkModel, b: WalkModel) -> bool {
    a.buffer.is_prefix_of(b.buffer) && a.choices.is_prefix_of(b.choices)
}

proof fn lemma_grows_trans(a: WalkModel, b: WalkModel, c: WalkModel)
    requires
        grows(a, b),
        grows(b, c),
    ensures
        grows(a, c),
{
    assert(a.buffer =~= c.buffer.subrange(0, a.buffer.len() as int)) by {
        assert forall|i: int| 0 <= i < a.buffer.len() implies a.buffer[i] == c.buffer[i] by {
            assert(a.buffer[i] == b.buffer[i]);
        }
    }
    assert(a.choices =~= c.choices.subrange(0, a.choices.len() as int)) by {
        assert forall|i: int| 0 <= i < a.choices.len() implies a.choices[i] == c.choices[i] by {
            assert(a.choices[i] == b.choices[i]);
        }
    }
}

/// Push the commands of a text node.
fn push_text(buffer: &mut Vec<RenderCommand>, s: &String)
    ensures
        cmds_model(final(buffer)@) == cmds_model(old(buffer)@) + text_cmds(s@),
{
    let chars = string_chars_of(s);
    let parts = split_paragraphs(&chars);
    let ghost ps = seqs_model(parts@);
    let ghost start = cmds_model(buffer@);
    let mut k: usize = 0;
    while k < parts.len()
        invariant
            k <= parts.len(),
            ps == seqs_model(parts@),
            cmds_model(buffer@) == start + paragraph_cmds(ps.take(k as int)),
        decreases parts.len() - k,
    {
        assert(ps.take(k + 1).drop_last() =~= ps.take(k as int));
        let t = trim_chars(&parts[k]);
        if t.len() > 0 {
            let ghost before = buffer@;
            buffer.push(RenderCommand::Text(string_of(&t)));
            assert(cmds_model(buffer@) =~= cmds_model(before).push(CmdModel::Text(t@)));
        }
        k = k + 1;
    }
    assert(ps.take(parts.len() as int) =~= ps);
}

fn string_chars_of(s: &String) -> (r: Vec<char>)
    ensures
        r@ == s@,
{
    str_chars(s.as_str())
}

fn push_cmd(buffer: &mut Vec<RenderCommand>, c: RenderCommand)
    ensures
        cmds_model(final(buffer)@) == cmds_model(old(buffer)@) + seq![c.model()],
{
    let ghost before = buffer@;
    buffer.push(c);
    assert(cmds_model(buffer@) =~= cmds_model(before) + seq![c.model()]);
}

/// Run a macro handler on the state and its arguments.
fn run_macro(
    h: &Box<dyn MacroHandler>,
    state: &mut StoryState,
    args: &[MacroArg],
    arith: &dyn FloatArith,
) -> (r: Result<MacroResult, CoreError>)
    ensures
        h.spec_handle(old(state)@, args@) matches Some((st, o)) ==> final(state)@ == st
            && crate::macros::outcome_of(r) == o,
{
    let ctx = MacroContext { args, arith };
    h.handle(state, &ctx)
}

/// The index of the first handler named `name`.
fn find_macro(macros: &Vec<Box<dyn MacroHandler>>, name: &String) -> (r: Option<usize>)
    ensures
        r matches Some(i) ==> macro_index(macros@, name@) == Some(i as int),
        r is None ==> macro_index(macros@, name@) is None,
{
    let mut i: usize = 0;
    while i < macros.len()
        invariant
            i <= macros.len(),
            forall|j: int| 0 <= j < i ==> macros@[j].spec_name() != name@,
        decreases macros.len() - i,
    {
        let n = macros[i].name();
        if crate::text::string_eq_str(name, n) {
            proof {
                let m = choose|m: int| macro_first(macros@, name@, m);
                assert(macro_first(macros@, name@, i as int));
                if m < i {
                    assert(macros@[m].spec_name() != name@);
                }
                if i < m {
                    assert(macros@[i as int].spec_name() != name@);
                }
            }
            return Some(i);
        }
        i = i + 1;
    }
    None
}

/// Walk content nodes in order, rendering into `buffer` and collecting
/// choices.
fn walk_content(
    g: &PassageGraph,
    macros: &Vec<Box<dyn MacroHandler>>,
    state: &mut StoryState,
    buffer: &mut Vec<RenderCommand>,
    choices: &mut Vec<Choice>,
    nodes: &Vec<ContentNode>,
    depth: usize,
    arith: &dyn FloatArith,
)
    ensures
        walk_spec(g, macros@, walk_model(*old(state), old(buffer)@, old(choices)@), nodes@, depth as nat)
            matches Some(w) ==> walk_model(*final(state), final(buffer)@, final(choices)@) == w,
        grows(
            walk_model(*old(state), old(buffer)@, old(choices)@),
            walk_model(*final(state), final(buffer)@, final(choices)@),
        ),
        forall|j: int|
            0 <= j <= nodes@.len() ==> (#[trigger] walk_spec(
                g,
                macros@,
                walk_model(*old(state), old(buffer)@, old(choices)@),
                nodes@.take(j),
                depth as nat,
            ) matches Some(w) ==> grows(w, walk_model(*final(state), final(buffer)@, final(choices)@))),
    decreases depth, 1nat, nodes@,
{
    let ghost w0 = walk_model(*state, buffer@, choices@);
    let mut k: usize = 0;
    assert(grows(w0, w0));
    while k < nodes.len()
        invariant
            k <= nodes.len(),
            walk_spec(g, macros@, w0, nodes@.take(k as int), depth as nat) matches Some(w)
                ==> walk_model(*state, buffer@, choices@) == w,
            grows(w0, walk_model(*state, buffer@, choices@)),
            forall|j: int|
                0 <= j <= k ==> (#[trigger] walk_spec(g, macros@, w0, nodes@.take(j), depth as nat) matches Some(
                    w,
                ) ==> grows(w, walk_model(*state, buffer@, choices@))),
        decreases nodes.len() - k,
    {
        assert(nodes@.take(k + 1).drop_last() =~= nodes@.take(k as int));
        proof {
            assert(decreases_to!(nodes@ => nodes@[k as int]));
        }
        let ghost wk = walk_model(*state, buffer@, choices@);
        walk_node(g, macros, state, buffer, choices, &nodes[k], depth, arith);
        let ghost wn = walk_model(*state, buffer@, choices@);
        proof {
            lemma_grows_trans(w0, wk, wn);
            assert forall|j: int|
                0 <= j <= k + 1 implies (#[trigger] walk_spec(g, macros@, w0, nodes@.take(j), depth as nat) matches Some(
                    w,
                ) ==> grows(w, wn)) by {
                if j <= k {
                    if let Some(w) = walk_spec(g, macros@, w0, nodes@.take(j), depth as nat) {
                        lemma_grows_trans(w, wk, wn);
                    }
                } else {
                    if let Some(w) = walk_spec(g, macros@, w0, nodes@.take(j), depth as nat) {
                        assert(w == wn);
                        assert(grows(wn, wn));
                    }
                }
            }
        }
        k = k + 1;
    }
    assert(nodes@.take(nodes.len() as int) =~= nodes@);
}

/// Walk one content node.
/// Walking a conditional whose condition is a comparison in float
/// arithmetic: the walk of the then-branch where that comparison gives
/// `true`, else of the else-branch.
pub open spec fn compared_branch<F: FloatArith + ?Sized>(
    arith: &F,
    g: &PassageGraph,
    macros: Seq<Box<dyn MacroHandler>>,
    w: WalkModel,
    condition: Expression,
    then_branch: Seq<ContentNode>,
    else_branch: Seq<ContentNode>,
    depth: nat,
    after: WalkModel,
) -> bool {
    exists|r: Result<Value, CoreError>|
        #[trigger] float_comparison_result(
            arith,
            &condition,
            done_value(eval_spec(&condition.left(), w.state, Some(g))),
            done_value(eval_spec(&condition.right(), w.state, Some(g))),
            r,
        ) && (walk_spec(g, macros, w, if r matches Ok(Value::Bool(true)) {
            then_branch
        } else {
            else_branch
        }, depth) matches Some(w1) ==> after == w1)
}

/// Walking a link whose guard is a comparison in float arithmetic: the
/// link is offered, disabled exactly where that comparison gives `false`.
pub open spec fn compared_guard<F: FloatArith + ?Sized>(
    arith: &F,
    g: &PassageGraph,
    w: WalkModel,
    guard: Expression,
    label: Seq<char>,
    target: Seq<char>,
    after: WalkModel,
) -> bool {
    exists|r: Result<Value, CoreError>|
        #[trigger] float_comparison_result(
            arith,
            &guard,
            done_value(eval_spec(&guard.left(), w.state, Some(g))),
            done_value(eval_spec(&guard.right(), w.state, Some(g))),
            r,
        ) && after == (WalkModel {
            choices: w.choices.push(
                ChoiceModel {
                    label,
                    target,
                    enabled: !(r matches Ok(Value::Bool(false))),
                    tooltip: None,
                },
            ),
            ..w
        })
}

fn walk_node(
    g: &PassageGraph,
    macros: &Vec<Box<dyn MacroHandler>>,
    state: &mut StoryState,
    buffer: &mut Vec<RenderCommand>,
    choices: &mut Vec<Choice>,
    node: &ContentNode,
    depth: usize,
    arith: &dyn FloatArith,
)
    ensures
        node_spec(g, macros@, walk_model(*old(state), old(buffer)@, old(choices)@), *node, depth as nat)
            matches Some(w) ==> walk_model(*final(state), final(buffer)@, final(choices)@) == w,
        *node matches ContentNode::Conditional { condition, then_branch, else_branch } ==> (eval_spec(
            &condition,
            old(state)@,
            Some(g),
        ) == Outcome::FloatDependent(FloatKind::Compare) ==> compared_branch(
            arith,
            g,
            macros@,
            walk_model(*old(state), old(buffer)@, old(choices)@),
            condition,
            then_branch@,
            else_branch@,
            depth as nat,
            walk_model(*final(state), final(buffer)@, final(choices)@),
        )),
        *node matches ContentNode::StateInterp { path } ==> (model_lookup(old(state)@, path@, Scope::Global) matches Some(
            ValueModel::Float(b),
        ) ==> exists|t: Seq<char>|
            #![trigger float_shown(arith, b, t)]
            float_shown(arith, b, t) && walk_model(*final(state), final(buffer)@, final(choices)@) == push_cmds(
                walk_model(*old(state), old(buffer)@, old(choices)@),
                seq![CmdModel::Text(t)],
            )),
        *node matches ContentNode::Link { label, target, enabled_if: Some(e) } ==> (eval_spec(
            &e,
            old(state)@,
            Some(g),
        ) == Outcome::FloatDependent(FloatKind::Compare) ==> compared_guard(
            arith,
            g,
            walk_model(*old(state), old(buffer)@, old(choices)@),
            e,
            label@,
            target@,
            walk_model(*final(state), final(buffer)@, final(choices)@),
        )),
        grows(
            walk_model(*old(state), old(buffer)@, old(choices)@),
            walk_model(*final(state), final(buffer)@, final(choices)@),
        ),
    decreases depth, 1nat, *node,
{
    let ghost w0 = walk_model(*state, buffer@, choices@);
    match node {
        ContentNode::Text(s) => {
            push_text(buffer, s);
        },
        ContentNode::Link { label, target, enabled_if } => {
            let outcome = match enabled_if {
                Some(e) => {
                    let ctx = EvalContext::with_graph(&*state, g);
                    e.try_eval(&ctx, arith)
                },
                None => Some(Ok(Value::Bool(true))),
            };
            let enabled = match &outcome {
                Some(Ok(v)) => match v.as_bool() {
                    Some(b) => b,
                    None => true,
                },
                _ => true,
            };
            let ghost before = choices@;
            let c = Choice { label: copy_string(label), target: copy_string(target), enabled, tooltip: None };
            choices.push(c);
            assert(choices_model(choices@) =~= choices_model(before).push(c.model()));
            assert(node_spec(g, macros@, w0, *node, depth as nat) matches Some(w) ==> walk_model(*state, buffer@, choices@) == w);
            proof {
                if let Some(e) = enabled_if {
                    if eval_spec(&e, w0.state, Some(g)) == Outcome::FloatDependent(FloatKind::Compare) {
                        let r = outcome->Some_0;
                        assert(enabled == !(r matches Ok(Value::Bool(false))));
                        assert(float_comparison_result(
                            arith,
                            &e,
                            done_value(eval_spec(&e.left(), w0.state, Some(g))),
                            done_value(eval_spec(&e.right(), w0.state, Some(g))),
                            r,
                        ));
                    }
                }
            }
        },
        ContentNode::StateInterp { path } => {
            let t = match state.get(path.as_str(), Scope::Global) {
                Some(val) => {
                    let t = val.to_string(arith);
                    proof {
                        if let ValueModel::Float(b) = val.model() {
                            assert(val->Float_0 == b);
                            assert(float_shown(arith, b, t@));
                        }
                    }
                    t
                },
                None => concat3("{state: \"", path.as_str(), "\"}"),
            };
            push_cmd(buffer, RenderCommand::Text(t));
            assert(node_spec(g, macros@, w0, *node, depth as nat) matches Some(w) ==> walk_model(*state, buffer@, choices@) == w);
            assert(walk_model(*state, buffer@, choices@) == push_cmds(w0, seq![CmdModel::Text(t@)]));
        },
        ContentNode::Conditional { condition, then_branch, else_branch } => {
            let outcome = {
                let ctx = EvalContext::with_graph(&*state, g);
                condition.try_eval(&ctx, arith)
            };
            let holds = match &outcome {
                Some(Ok(v)) => match v.as_bool() {
                    Some(b) => b,
                    None => false,
                },
                _ => false,
            };
            if holds {
                walk_content(g, macros, state, buffer, choices, then_branch, depth, arith);
            } else {
                walk_content(g, macros, state, buffer, choices, else_branch, depth, arith);
            }
            proof {
                if eval_spec(condition, w0.state, Some(g)) == Outcome::FloatDependent(FloatKind::Compare) {
                    let r = outcome->Some_0;
                    assert(holds == (r matches Ok(Value::Bool(true))));
                    assert(float_comparison_result(
                        arith,
                        condition,
                        done_value(eval_spec(&condition.left(), w0.state, Some(g))),
                        done_value(eval_spec(&condition.right(), w0.state, Some(g))),
                        r,
                    ));
                }
            }
        },
        ContentNode::Display { passage } => {
            match g.get(passage.as_str()) {
                Some(n) => {
                    if depth > 0 {
                        walk_content(g, macros, state, buffer, choices, &n.body, depth - 1, arith);
                    }
                },
                None => {},
            }
        },
        ContentNode::AIBlock { fallback, .. } => {
            push_cmd(buffer, RenderCommand::StreamFailed { fallback: copy_string(fallback) });
        },
        ContentNode::Macro { name, args } => {
            match find_macro(macros, name) {
                Some(i) => {
                    let result = run_macro(&macros[i], state, args.as_slice(), arith);
                    match result {
                        Ok(MacroResult::Content(nodes)) => {
                            if depth > 0 {
                                walk_items(g, macros, state, buffer, choices, &nodes, depth - 1, arith);
                            }
                        },
                        Ok(MacroResult::SideEffect) => {
                            assert(node_spec(g, macros@, w0, *node, depth as nat) matches Some(w) ==> walk_model(*state, buffer@, choices@) == w);
                        },
                        Err(e) => {
                            let m = e.message();
                            push_cmd(buffer, RenderCommand::Text(concat3("[macro error: ", m.as_str(), "]")));
                            assert(node_spec(g, macros@, w0, *node, depth as nat) matches Some(w) ==> walk_model(*state, buffer@, choices@) == w);
                        },
                    }
                },
                None => {
                    push_cmd(buffer, RenderCommand::Text(concat3("{", name.as_str(), ": ...}")));
                },
            }
        },
    }
}

/// Render the content a macro returned: texts as they are, and displays.
fn walk_items(
    g: &PassageGraph,
    macros: &Vec<Box<dyn MacroHandler>>,
    state: &mut StoryState,
    buffer: &mut Vec<RenderCommand>,
    choices: &mut Vec<Choice>,
    items: &Vec<ContentNode>,
    depth: usize,
    arith: &dyn FloatArith,
)
    ensures
        items_spec(g, macros@, walk_model(*old(state), old(buffer)@, old(choices)@), items_of(items@), depth as nat)
            matches Some(w) ==> walk_model(*final(state), final(buffer)@, final(choices)@) == w,
        grows(
            walk_model(*old(state), old(buffer)@, old(choices)@),
            walk_model(*final(state), final(buffer)@, final(choices)@),
        ),
    decreases depth, 2nat, items_of(items@),
{
    let ghost w0 = walk_model(*state, buffer@, choices@);
    let ghost all = items_of(items@);
    assert(all.len() == items@.len());
    assert(grows(w0, w0));
    let mut k: usize = 0;
    while k < items.len()
        invariant
            k <= items.len(),
            all == items_of(items@),
            items_spec(g, macros@, w0, all.take(k as int), depth as nat) matches Some(w)
                ==> walk_model(*state, buffer@, choices@) == w,
            grows(w0, walk_model(*state, buffer@, choices@)),
        decreases items.len() - k,
    {
        assert(all.take(k + 1).drop_last() =~= all.take(k as int));
        assert(all.take(k + 1).last() == item_of(items@[k as int]));
        let ghost wk = walk_model(*state, buffer@, choices@);
        match &items[k] {
            ContentNode::Text(s) => {
                push_cmd(buffer, RenderCommand::Text(copy_string(s)));
                assert(grows(wk, walk_model(*state, buffer@, choices@)));
            },
            ContentNode::Display { passage } => {
                match g.get(passage.as_str()) {
                    Some(n) => {
                        walk_content(g, macros, state, buffer, choices, &n.body, depth, arith);
                    },
                    None => {},
                }
            },
            _ => {},
        }
        proof {
            lemma_grows_trans(w0, wk, walk_model(*state, buffer@, choices@));
        }
        k = k + 1;
    }
    assert(all.take(items.len() as int) =~= all);
}

// ── the runtime ─────────────────────────────────────────────────────────

/// What a step hands to the backend: the commands it returned, or for a
/// step that returns none, those left in the buffer.
pub open spec fn step_cmds(r: StepResult, rt: NarrativeRuntime) -> Seq<CmdModel> {
    match r {
        StepResult::Render(v) => cmds_model(v@),
        _ => rt.buffered(),
    }
}

/// What one step of a runtime with a current passage does, from `old` to
/// `new`, returning `r`: render the passage and collect its choices; with
/// choices, the rendered commands and the choices after a separator; without,
/// the passage's text the first time and `Finished` after (at once where it
/// renders nothing); a passage missing from the graph is reported.
pub open spec fn stepped(old: NarrativeRuntime, new: NarrativeRuntime, r: StepResult) -> bool {
    &&& new.same_setup(&old)
    &&& new.current() == old.current()
    &&& new.fallback() == old.fallback()
    &&& ({
        let id = old.current()->0;
        match node_index(old.graph.nodes@, id) {
            None => {
                &&& r matches StepResult::Render(v) && cmds_model(v@) == seq![
                    CmdModel::Text("Passage not found: "@ + id),
                ]
                &&& new.buffered().len() == 0
                &&& new.state == old.state
                &&& new.choices() == old.choices()
                &&& new.recent() == old.recent()
                &&& new.end_shown == old.end_shown
            },
            Some(i) => {
                let w0 = WalkModel {
                    state: StateModel { current: Some(id), ..old.state@ },
                    buffer: Seq::empty(),
                    choices: old.choices(),
                };
                &&& (walk_spec(
                    &old.graph,
                    old.macros@,
                    w0,
                    old.graph.nodes@[i].body@,
                    MAX_DISPLAY_DEPTH as nat,
                ) matches Some(w) ==> {
                    &&& new.state@ == w.state
                    &&& new.choices() == w.choices
                    &&& new.recent() == recent_after(old.recent(), w.buffer)
                    &&& if w.choices.len() > 0 {
                        &&& r matches StepResult::Render(v) && cmds_model(v@) == w.buffer
                            + seq![CmdModel::Separator, CmdModel::Choice(w.choices)]
                        &&& new.buffered().len() == 0
                        &&& new.end_shown == old.end_shown
                    } else if !old.end_shown && w.buffer.len() > 0 {
                        &&& r matches StepResult::Render(v) && cmds_model(v@) == w.buffer
                        &&& new.buffered().len() == 0
                        &&& new.end_shown
                    } else {
                        &&& r is Finished
                        &&& new.buffered() == w.buffer
                        &&& new.end_shown == old.end_shown
                    }
                })
                // where a float decides a later node, what the nodes
                // before it render and offer still comes out first
                &&& forall|j: int|
                    0 <= j <= old.graph.nodes@[i].body@.len() ==> (#[trigger] walk_spec(
                        &old.graph,
                        old.macros@,
                        w0,
                        old.graph.nodes@[i].body@.take(j),
                        MAX_DISPLAY_DEPTH as nat,
                    ) matches Some(w) ==> w.choices.is_prefix_of(new.choices())
                        && w.buffer.is_prefix_of(step_cmds(r, new)))
                // choices on offer are shown last, as they are kept
                &&& new.choices().len() > 0 ==> (r matches StepResult::Render(v) && cmds_model(v@).len() > 0
                    && cmds_model(v@).last() == CmdModel::Choice(new.choices()))
            },
        }
    })
}

/// The main narrative runtime.
///
/// Holds all engine state and drives the step-by-step execution loop.  The
/// render backend calls `step()` in a loop, consumes `StepResult` signals,
/// and feeds user input back via `submit_input()` / `feed_stream_token()`.
pub struct NarrativeRuntime {
    pub config: StoryConfig,
    pub graph: PassageGraph,
    pub state: StoryState,
    pub hooks: HookRegistry,
    pub macros: Vec<Box<dyn MacroHandler>>,
    pub turn: u64,
    /// The passage being shown.
    pub current_passage: Option<String>,
    /// Choices collected from the current passage (waiting for user).
    pub pending_choices: Vec<Choice>,
    /// Buffered render commands produced during the current step.
    pub buffer: Vec<RenderCommand>,
    /// If we're in the middle of streaming, this holds the AI fallback text.
    pub ai_fallback: Option<String>,
    /// Recent passage texts (at most `RECENT_TEXTS` of them).
    pub recent_passage_texts: Vec<String>,
    /// The current passage has no choices and its text was rendered: the
    /// next step finishes the story.
    pub end_shown: bool,
}

/// How many recent passage texts the runtime keeps.
pub const RECENT_TEXTS: usize = 20;

/// The metadata a runtime gives the state: title, author, version and
/// save slots of the configuration.
pub open spec fn metadata_model(c: StoryConfig) -> ValueModel {
    ValueModel::Object(
        seq![
            ("title"@, ValueModel::Str(c.title@)),
            ("author"@, ValueModel::Str(c.author@)),
            ("version"@, ValueModel::Str(c.version@)),
            ("save_slots"@, ValueModel::Int(c.save_slots as i64)),
        ],
    )
}

/// The hooks that the passages declare for `e`, passage by passage.
pub open spec fn graph_hooks(nodes: Seq<PassageNode>, e: Seq<char>) -> Seq<(Seq<char>, Seq<char>)>
    decreases nodes.len(),
{
    if nodes.len() == 0 {
        Seq::empty()
    } else {
        graph_hooks(nodes.drop_last(), e) + crate::hook::declared_scripts(nodes.last().hooks@, e)
    }
}

/// The texts of the text commands, in order.
pub open spec fn texts_of(cs: Seq<CmdModel>) -> Seq<Seq<char>>
    decreases cs.len(),
{
    if cs.len() == 0 {
        Seq::empty()
    } else {
        match cs.last() {
            CmdModel::Text(t) => texts_of(cs.drop_last()).push(t),
            _ => texts_of(cs.drop_last()),
        }
    }
}

/// The recent texts after a step rendered `buf`: its text lines joined by
/// newlines join the list when not empty, and the oldest drops out beyond
/// the limit.
pub open spec fn recent_after(recent: Seq<Seq<char>>, buf: Seq<CmdModel>) -> Seq<Seq<char>> {
    let t = join_texts(texts_of(buf), "\n"@);
    if t.len() == 0 {
        recent
    } else if recent.len() + 1 > RECENT_TEXTS {
        recent.push(t).drop_first()
    } else {
        recent.push(t)
    }
}

/// The runtime keeps at most `RECENT_TEXTS` recent passage texts, the
/// newest last.
pub proof fn law_recent_bounded(recent: Seq<Seq<char>>, buf: Seq<CmdModel>)
    requires
        recent.len() <= RECENT_TEXTS,
    ensures
        recent_after(recent, buf).len() <= RECENT_TEXTS,
        join_texts(texts_of(buf), "\n"@).len() > 0 ==> recent_after(recent, buf).last() == join_texts(
            texts_of(buf),
            "\n"@,
        ),
{
}

impl NarrativeRuntime {
    pub open spec fn current(&self) -> Option<Seq<char>> {
        match self.current_passage {
            Some(s) => Some(s@),
            None => None,
        }
    }

    pub open spec fn buffered(&self) -> Seq<CmdModel> {
        cmds_model(self.buffer@)
    }

    pub open spec fn choices(&self) -> Seq<ChoiceModel> {
        choices_model(self.pending_choices@)
    }

    pub open spec fn fallback(&self) -> Option<Seq<char>> {
        match self.ai_fallback {
            Some(s) => Some(s@),
            None => None,
        }
    }

    pub open spec fn recent(&self) -> Seq<Seq<char>> {
        strings_model(self.recent_passage_texts@)
    }

    /// The parts that only `new` sets.
    pub open spec fn same_setup(&self, other: &NarrativeRuntime) -> bool {
        &&& self.config == other.config
        &&& self.graph == other.graph
        &&& self.hooks == other.hooks
        &&& self.macros == other.macros
        &&& self.turn == other.turn
    }

    /// Create a runtime from config, graph, and state.  Hooks are registered
    /// from the passages' `@hook:` declarations, and the configuration is
    /// written into the state's metadata.
    pub fn new(config: StoryConfig, graph: PassageGraph, state: StoryState) -> (r: NarrativeRuntime)
        ensures
            r.config == config,
            r.graph == graph,
            r.state@ == (StateModel { metadata: metadata_model(config), ..state@ }),
            forall|e: Seq<char>| #[trigger] r.hooks.hooks_of(e) == graph_hooks(graph.nodes@, e),
            r.macros@.len() == 5,
            r.turn == 0,
            r.current() is None,
            r.buffered().len() == 0,
            r.choices().len() == 0,
            r.fallback() is None,
            r.recent().len() == 0,
            !r.end_shown,
    {
        let mut hooks = HookRegistry::new();
        let mut n: usize = 0;
        while n < graph.nodes.len()
            invariant
                n <= graph.nodes.len(),
                forall|e: Seq<char>| #[trigger] hooks.hooks_of(e) == graph_hooks(
                    graph.nodes@.take(n as int),
                    e,
                ),
            decreases graph.nodes.len() - n,
        {
            assert(graph.nodes@.take(n + 1).drop_last() =~= graph.nodes@.take(n as int));
            hooks.register_all(graph.nodes[n].hooks.as_slice());
            n = n + 1;
        }
        assert(graph.nodes@.take(graph.nodes.len() as int) =~= graph.nodes@);
        let mut state = state;
        let mut m: Vec<(String, Value)> = Vec::new();
        m.push((String::from_str("title"), Value::String(copy_string(&config.title))));
        m.push((String::from_str("author"), Value::String(copy_string(&config.author))));
        m.push((String::from_str("version"), Value::String(copy_string(&config.version))));
        m.push((String::from_str("save_slots"), Value::Int(config.save_slots as i64)));
        proof {
            crate::value::lemma_object_model(m);
            assert(crate::value::entries_model(m@) =~= metadata_model(config)->Object_0);
        }
        state.metadata = Value::Object(m);
        NarrativeRuntime {
            config,
            graph,
            state,
            hooks,
            macros: builtin_macros(),
            turn: 0,
            current_passage: None,
            pending_choices: Vec::new(),
            buffer: Vec::new(),
            ai_fallback: None,
            recent_passage_texts: Vec::new(),
            end_shown: false,
        }
    }

    /// The passage being shown, if any.
    pub fn current_passage(&self) -> (r: Option<&String>)
        ensures
            match r {
                Some(s) => self.current() == Some(s@),
                None => self.current() is None,
            },
    {
        match &self.current_passage {
            Some(s) => Some(s),
            None => None,
        }
    }

    /// Execute one step of the current passage: render its content and
    /// collect its choices.  With choices the rendered commands (the choices
    /// after a separator) are returned.  Without, the passage's text is
    /// returned the first time, and the story is finished on the step after
    /// (at once where the passage renders nothing).
    pub fn step(&mut self, arith: &dyn FloatArith) -> (r: StepResult)
        requires
            old(self).current() is Some,
        ensures
            stepped(*old(self), *final(self), r),
    {
        self.buffer = Vec::new();
        let id = match &self.current_passage {
            Some(s) => copy_string(s),
            None => copy_string(&self.config.start),
        };
        let node = match self.graph.get(id.as_str()) {
            Some(n) => n,
            None => {
                let mut out: Vec<RenderCommand> = Vec::new();
                out.push(RenderCommand::Text(concat2("Passage not found: ", id.as_str())));
                assert(cmds_model(out@) =~= seq![CmdModel::Text("Passage not found: "@ + id@)]);
                assert(cmds_model(self.buffer@) =~= Seq::<CmdModel>::empty());
                return StepResult::Render(out);
            },
        };
        self.state.current_passage = Some(copy_string(&id));
        proof {
            assert(self.state@ == (StateModel { current: Some(id@), ..old(self).state@ }));
            assert(cmds_model(self.buffer@) =~= Seq::<CmdModel>::empty());
        }
        walk_content(
            &self.graph,
            &self.macros,
            &mut self.state,
            &mut self.buffer,
            &mut self.pending_choices,
            &node.body,
            MAX_DISPLAY_DEPTH,
            arith,
        );
        let text = Self::rendered_text(&self.buffer);
        if !text.as_str().is_empty() {
            let ghost before = self.recent_passage_texts@;
            self.recent_passage_texts.push(text);
            assert(strings_model(self.recent_passage_texts@) =~= strings_model(before).push(text@));
            if self.recent_passage_texts.len() > RECENT_TEXTS {
                let ghost full = self.recent_passage_texts@;
                let _gone = self.recent_passage_texts.remove(0);
                assert(strings_model(self.recent_passage_texts@) =~= strings_model(full).drop_first());
            }
        }
        if self.pending_choices.len() > 0 {
            let choices = copy_choices(&self.pending_choices);
            push_cmd(&mut self.buffer, RenderCommand::Separator);
            push_cmd(&mut self.buffer, RenderCommand::Choice(choices));
            let mut out: Vec<RenderCommand> = Vec::new();
            std::mem::swap(&mut out, &mut self.buffer);
            assert(cmds_model(self.buffer@) =~= Seq::<CmdModel>::empty());
            let r = StepResult::Render(out);
            proof {
                let o = *old(self);
                let n = *self;
                let id = o.current()->0;
                assert(node_index(o.graph.nodes@, id) is Some);
                assert(n.same_setup(&o));
                assert(n.current() == o.current());
                assert(n.fallback() == o.fallback());
                assert(step_cmds(r, n) == cmds_model(out@));
                let i = node_index(o.graph.nodes@, id)->0;
                let w0 = WalkModel {
                    state: StateModel { current: Some(id), ..o.state@ },
                    buffer: Seq::empty(),
                    choices: o.choices(),
                };
                let body = o.graph.nodes@[i].body@;
                assert(forall|j: int|
                    0 <= j <= body.len() ==> (#[trigger] walk_spec(
                        &o.graph,
                        o.macros@,
                        w0,
                        body.take(j),
                        MAX_DISPLAY_DEPTH as nat,
                    ) matches Some(w) ==> w.choices.is_prefix_of(n.choices())
                        && w.buffer.is_prefix_of(step_cmds(r, n))));
                if let Some(w) = walk_spec(&o.graph, o.macros@, w0, body, MAX_DISPLAY_DEPTH as nat) {
                    assert(n.state@ == w.state);
                    assert(n.choices() == w.choices);
                    assert(n.recent() == recent_after(o.recent(), w.buffer));
                    assert(w.choices.len() > 0);
                    assert(cmds_model(out@) == w.buffer + seq![CmdModel::Separator, CmdModel::Choice(w.choices)]);
                }
            }
            return r;
        }
        if !self.end_shown && self.buffer.len() > 0 {
            self.end_shown = true;
            let mut out: Vec<RenderCommand> = Vec::new();
            std::mem::swap(&mut out, &mut self.buffer);
            assert(cmds_model(self.buffer@) =~= Seq::<CmdModel>::empty());
            return StepResult::Render(out);
        }
        StepResult::Finished
    }

    /// The text lines of a batch of commands, joined by newlines.
    fn rendered_text(buffer: &Vec<RenderCommand>) -> (r: String)
        ensures
            r@ == join_texts(texts_of(cmds_model(buffer@)), "\n"@),
    {
        let mut texts: Vec<String> = Vec::new();
        let mut k: usize = 0;
        while k < buffer.len()
            invariant
                k <= buffer.len(),
                strings_model(texts@) == texts_of(cmds_model(buffer@).take(k as int)),
            decreases buffer.len() - k,
        {
            assert(cmds_model(buffer@).take(k + 1).drop_last() =~= cmds_model(buffer@).take(k as int));
            match &buffer[k] {
                RenderCommand::Text(s) => {
                    let ghost before = texts@;
                    texts.push(copy_string(s));
                    assert(strings_model(texts@) =~= strings_model(before).push(s@));
                },
                _ => {},
            }
            k = k + 1;
        }
        assert(cmds_model(buffer@).take(buffer.len() as int) =~= cmds_model(buffer@));
        join_strings(&texts, "\n")
    }

    /// Feed user input back into the engine after a pause.  A valid choice
    /// (one on offer and enabled; a greyed-out choice cannot be selected)
    /// clears the pending choices and returns the passage to navigate to;
    /// text is stored as the temp variable `_input`.
    pub fn submit_input(&mut self, input: UserInput) -> (r: Option<String>)
        ensures
            final(self).same_setup(old(self)),
            final(self).current() == old(self).current(),
            final(self).buffered() == old(self).buffered(),
            final(self).fallback() == old(self).fallback(),
            final(self).recent() == old(self).recent(),
            match input {
                UserInput::Choice(idx) => if idx < old(self).choices().len()
                    && old(self).choices()[idx as int].enabled {
                    &&& r matches Some(t) && t@ == old(self).choices()[idx as int].target
                    &&& final(self).choices().len() == 0
                    &&& final(self).state == old(self).state
                } else {
                    &&& r is None
                    &&& *final(self) == *old(self)
                },
                UserInput::Text(t) => {
                    &&& r is None
                    &&& final(self).choices() == old(self).choices()
                    &&& match crate::state::state_set(
                        old(self).state@,
                        "_input"@,
                        ValueModel::Str(t@),
                        Scope::Temp,
                    ) {
                        Ok(st) => final(self).state@ == st,
                        Err(_) => final(self).state@ == old(self).state@,
                    }
                },
            },
    {
        match input {
            UserInput::Choice(idx) => {
                if idx < self.pending_choices.len() && self.pending_choices[idx].enabled {
                    let target = copy_string(&self.pending_choices[idx].target);
                    self.pending_choices = Vec::new();
                    assert(choices_model(self.pending_choices@) =~= Seq::<ChoiceModel>::empty());
                    Some(target)
                } else {
                    None
                }
            },
            UserInput::Text(text) => {
                proof {
                    reveal_strlit("_input");
                }
                let _ = self.state.set("_input", Value::String(text), Scope::Temp);
                None
            },
        }
    }

    /// Feed a stream token from an LLM response back into the engine.
    pub fn feed_stream_token(&mut self, token: String)
        ensures
            final(self).same_setup(old(self)),
            final(self).state == old(self).state,
            final(self).current() == old(self).current(),
            final(self).choices() == old(self).choices(),
            final(self).fallback() == old(self).fallback(),
            final(self).recent() == old(self).recent(),
            final(self).buffered() == old(self).buffered().push(CmdModel::StreamToken(token@)),
    {
        let ghost t = token@;
        push_cmd(&mut self.buffer, RenderCommand::StreamToken(token));
        assert(seq![CmdModel::StreamToken(t)] =~= seq![CmdModel::StreamToken(t)]);
        assert(old(self).buffered() + seq![CmdModel::StreamToken(t)] =~= old(self).buffered().push(
            CmdModel::StreamToken(t),
        ));
    }

    /// Signal that the LLM stream has ended: on failure the fallback text, if
    /// one is held, is rendered (and given up); on success the end of the
    /// stream is.
    pub fn end_stream(&mut self, result: Result<(), String>)
        ensures
            final(self).same_setup(old(self)),
            final(self).state == old(self).state,
            final(self).current() == old(self).current(),
            final(self).choices() == old(self).choices(),
            final(self).recent() == old(self).recent(),
            match result {
                Ok(()) => final(self).buffered() == old(self).buffered().push(CmdModel::StreamEnd)
                    && final(self).fallback() == old(self).fallback(),
                Err(_) => match old(self).fallback() {
                    Some(f) => final(self).buffered() == old(self).buffered().push(
                        CmdModel::StreamFailed(f),
                    ) && final(self).fallback() is None,
                    None => final(self).buffered() == old(self).buffered() && final(self).fallback()
                        is None,
                },
            },
    {
        match result {
            Err(_) => {
                let mut taken: Option<String> = None;
                std::mem::swap(&mut taken, &mut self.ai_fallback);
                match taken {
                    Some(fallback) => {
                        let ghost f = fallback@;
                        push_cmd(&mut self.buffer, RenderCommand::StreamFailed { fallback });
                        assert(old(self).buffered() + seq![CmdModel::StreamFailed(f)]
                            =~= old(self).buffered().push(CmdModel::StreamFailed(f)));
                    },
                    None => {},
                }
            },
            Ok(()) => {
                push_cmd(&mut self.buffer, RenderCommand::StreamEnd);
                assert(old(self).buffered() + seq![CmdModel::StreamEnd] =~= old(self).buffered().push(
                    CmdModel::StreamEnd,
                ));
            },
        }
    }
}

// ── navigation ──────────────────────────────────────────────────────────

/// The stages of a navigation, in order: the old passage's end hooks, the
/// new passage's start hooks, its scripts, its render hooks.
#[derive(Debug, Clone, Copy, PartialEq, Eq, Structural)]
pub enum NavStage {
    End,
    Start,
    Scripts,
    Render,
}

/// A navigation under way: where it goes, and how far it has come.
#[derive(Debug)]
pub struct Navigation {
    pub target: String,
    pub stage: NavStage,
    /// Scripts of the current stage already handed out.
    pub index: usize,
    /// The first error among the current stage's hooks: the hooks of an
    /// event all run, and the first error is reported once they have.
    pub failure: Option<CoreError>,
}

/// Hooks run to the end of their event even where one fails; passage
/// scripts stop at the first failure.
pub open spec fn runs_all(stage: NavStage) -> bool {
    stage != NavStage::Scripts
}

pub open spec fn failure_model(f: Option<CoreError>) -> Option<ErrorModel> {
    match f {
        Some(e) => Some(e.model()),
        None => None,
    }
}

/// The first failure of the current stage once `last` is taken in.
pub open spec fn failure_after(nav: Navigation, last: Option<Result<ScriptSignal, CoreError>>) -> Option<
    ErrorModel,
> {
    match last {
        Some(Err(e)) => if nav.failure is None {
            Some(e.model())
        } else {
            failure_model(nav.failure)
        },
        _ => failure_model(nav.failure),
    }
}

/// What the caller does next in a navigation.
#[derive(Debug)]
pub enum NavAction {
    /// Run this script against the runtime's state and report how it ended.
    RunScript(PassageScript),
    /// The navigation is over; a navigation signal from a script, or
    /// `Continue`.
    Done(ScriptSignal),
    /// A script failed; the navigation stops with its error.
    Failed(CoreError),
}

/// The content of a signal.
pub enum SignalModel {
    Continue,
    Goto(Seq<char>),
    Restart,
}

pub open spec fn signal_model(s: ScriptSignal) -> SignalModel {
    match s {
        ScriptSignal::Continue => SignalModel::Continue,
        ScriptSignal::Goto(t) => SignalModel::Goto(t@),
        ScriptSignal::Restart => SignalModel::Restart,
    }
}

/// The scripts of a passage, or none where it is not in the graph.
pub open spec fn passage_scripts(g: PassageGraph, id: Seq<char>) -> Seq<(Seq<char>, Seq<char>)> {
    match node_index(g.nodes@, id) {
        Some(i) => g.nodes@[i].scripts@.map_values(|s: PassageScript| script_model(s)),
        None => Seq::empty(),
    }
}

impl NarrativeRuntime {
    /// The scripts that a stage of a navigation to `target` runs.
    pub open spec fn stage_scripts(&self, stage: NavStage, target: Seq<char>) -> Seq<
        (Seq<char>, Seq<char>),
    > {
        match stage {
            NavStage::End => self.hooks.hooks_of("on_passage_end"@),
            NavStage::Start => self.hooks.hooks_of("on_passage_start"@),
            NavStage::Scripts => passage_scripts(self.graph, target),
            NavStage::Render => self.hooks.hooks_of("on_passage_render"@),
        }
    }

    /// The scripts of a stage from position `index` on.
    pub open spec fn stage_rest(&self, stage: NavStage, target: Seq<char>, index: int) -> Seq<
        (Seq<char>, Seq<char>),
    > {
        let sc = self.stage_scripts(stage, target);
        if index <= sc.len() {
            sc.skip(index)
        } else {
            Seq::empty()
        }
    }

    /// The scripts that a navigation has still to run, in order.
    pub open spec fn pending(&self, nav: Navigation) -> Seq<(Seq<char>, Seq<char>)> {
        let t = nav.target@;
        match nav.stage {
            NavStage::End => self.stage_rest(NavStage::End, t, nav.index as int) + self.stage_scripts(
                NavStage::Start,
                t,
            ) + self.stage_scripts(NavStage::Scripts, t) + self.stage_scripts(NavStage::Render, t),
            NavStage::Start => self.stage_rest(NavStage::Start, t, nav.index as int)
                + self.stage_scripts(NavStage::Scripts, t) + self.stage_scripts(NavStage::Render, t),
            NavStage::Scripts => self.stage_rest(NavStage::Scripts, t, nav.index as int)
                + self.stage_scripts(NavStage::Render, t),
            NavStage::Render => self.stage_rest(NavStage::Render, t, nav.index as int),
        }
    }

    /// `new` is `old` on arriving at `target`: it is the current passage (of
    /// the state too), its visit is recorded, and the choices, the buffer
    /// and the stream fallback are cleared.
    pub open spec fn arrived(&self, old: &NarrativeRuntime, target: Seq<char>) -> bool {
        self.arrived_from(old, old.state@, target)
    }

    /// `arrived`, from a runtime whose state was `st`.
    pub open spec fn arrived_from(&self, old: &NarrativeRuntime, st: StateModel, target: Seq<char>) -> bool {
        &&& self.same_setup(old)
        &&& self.current() == Some(target)
        &&& self.state@ == (StateModel {
            current: Some(target),
            visits: st.visits.push(target),
            ..st
        })
        &&& self.choices().len() == 0
        &&& self.buffered().len() == 0
        &&& self.fallback() is None
        &&& self.recent() == old.recent()
        &&& !self.end_shown
    }

    /// Everything but the story state is as in `old`.
    pub open spec fn same_but_state(&self, old: &NarrativeRuntime) -> bool {
        &&& self.same_setup(old)
        &&& self.current_passage == old.current_passage
        &&& self.pending_choices == old.pending_choices
        &&& self.buffer == old.buffer
        &&& self.ai_fallback == old.ai_fallback
        &&& self.recent_passage_texts == old.recent_passage_texts
        &&& self.end_shown == old.end_shown
    }

    fn arrive(&mut self, target: &String)
        ensures
            final(self).arrived(old(self), target@),
    {
        self.current_passage = Some(copy_string(target));
        self.state.current_passage = Some(copy_string(target));
        self.state.mark_visited(target);
        self.pending_choices = Vec::new();
        self.buffer = Vec::new();
        self.ai_fallback = None;
        self.end_shown = false;
        assert(choices_model(self.pending_choices@) =~= Seq::<ChoiceModel>::empty());
        assert(cmds_model(self.buffer@) =~= Seq::<CmdModel>::empty());
    }

    /// Begin navigating to a passage.  The passage must be in the graph;
    /// the temp variables are cleared.  Without a current passage the
    /// runtime arrives at once; otherwise it does after the end hooks.
    pub fn navigate_to(&mut self, target: &str) -> (r: Result<Navigation, CoreError>)
        ensures
            node_index(old(self).graph.nodes@, target@) is None ==> (r matches Err(e) && e.model()
                == ErrorModel::PassageNotFound(target@) && *final(self) == *old(self)),
            node_index(old(self).graph.nodes@, target@) is Some ==> (r matches Ok(nav) && {
                let cleared = StateModel { temp: ValueModel::Object(Seq::empty()), ..old(self).state@ };
                &&& nav.target@ == target@
                &&& nav.index == 0
                &&& nav.failure is None
                &&& old(self).current() is Some ==> nav.stage == NavStage::End
                    && final(self).same_but_state(old(self)) && final(self).state@ == cleared
                &&& old(self).current() is None ==> nav.stage == NavStage::Start
                    && final(self).arrived_from(old(self), cleared, target@)
            }),
    {
        if self.graph.get(target).is_none() {
            return Err(CoreError::PassageNotFound(String::from_str(target)));
        }
        self.state.clear_temp();
        let t = String::from_str(target);
        if self.current_passage.is_some() {
            Ok(Navigation { target: t, stage: NavStage::End, index: 0, failure: None })
        } else {
            self.arrive(&t);
            Ok(Navigation { target: t, stage: NavStage::Start, index: 0, failure: None })
        }
    }

    /// Copy of script `i` of a stage, if it has one.
    fn stage_script(&self, stage: NavStage, target: &String, i: usize) -> (r: Option<PassageScript>)
        ensures
            i < self.stage_scripts(stage, target@).len() ==> (r matches Some(s) && script_model(s)
                == self.stage_scripts(stage, target@)[i as int]),
            i >= self.stage_scripts(stage, target@).len() ==> r is None,
            r is Some ==> i < usize::MAX,
    {
        proof {
            reveal_strlit("on_passage_end");
            reveal_strlit("on_passage_start");
            reveal_strlit("on_passage_render");
        }
        let list = match stage {
            NavStage::End => self.hooks.scripts_for("on_passage_end"),
            NavStage::Start => self.hooks.scripts_for("on_passage_start"),
            NavStage::Scripts => match self.graph.get(target.as_str()) {
                Some(n) => {
                    let mut v: Vec<PassageScript> = Vec::new();
                    let mut k: usize = 0;
                    while k < n.scripts.len()
                        invariant
                            k <= n.scripts.len(),
                            v@.map_values(|s: PassageScript| script_model(s)) == n.scripts@.take(
                                k as int,
                            ).map_values(|s: PassageScript| script_model(s)),
                        decreases n.scripts.len() - k,
                    {
                        let ghost before = v@;
                        v.push(n.scripts[k].copy());
                        assert(v@.map_values(|s: PassageScript| script_model(s)) =~= before.map_values(
                            |s: PassageScript| script_model(s),
                        ).push(script_model(n.scripts@[k as int])));
                        assert(n.scripts@.take(k + 1).map_values(|s: PassageScript| script_model(s))
                            =~= n.scripts@.take(k as int).map_values(|s: PassageScript| script_model(s)).push(
                            script_model(n.scripts@[k as int]),
                        ));
                        k = k + 1;
                    }
                    assert(n.scripts@.take(n.scripts.len() as int) =~= n.scripts@);
                    v
                },
                None => Vec::new(),
            },
            NavStage::Render => self.hooks.scripts_for("on_passage_render"),
        };
        assert(list@.map_values(|s: PassageScript| script_model(s)) == self.stage_scripts(stage, target@));
        if i < list.len() {
            Some(list[i].copy())
        } else {
            None
        }
    }

    /// The next step of a navigation, given how the last script handed out
    /// ended (`None` before the first).  A failed passage script ends the
    /// navigation with its error; a failed hook is remembered and the
    /// event's other hooks still run, the first error ending the navigation
    /// once they have; a navigation signal ends it with that signal.
    /// Otherwise the next pending script is handed out, arriving at the
    /// target once the end hooks are through, and with none left the
    /// navigation is `Done(Continue)`.
    pub fn advance(&mut self, nav: &mut Navigation, last: Option<Result<ScriptSignal, CoreError>>) -> (r: NavAction)
        ensures
            final(nav).target == old(nav).target,
            r matches NavAction::Done(x) && x is Continue ==> final(nav).stage == NavStage::Render,
            match last {
                Some(Err(e)) if !runs_all(old(nav).stage) => r matches NavAction::Failed(x)
                    && x.model() == e.model() && *final(self) == *old(self),
                Some(Ok(sig)) if !(sig is Continue) => r matches NavAction::Done(x) && signal_model(x)
                    == signal_model(sig) && *final(self) == *old(self),
                _ => {
                    let f = failure_after(*old(nav), last);
                    let rest = old(self).stage_rest(old(nav).stage, old(nav).target@, old(nav).index as int);
                    let p = old(self).pending(*old(nav));
                    if rest.len() == 0 && f is Some {
                        &&& r matches NavAction::Failed(x) && Some(x.model()) == f
                        &&& *final(self) == *old(self)
                    } else {
                        &&& p.len() > 0 ==> (r matches NavAction::RunScript(s) && script_model(s)
                            == p[0] && final(self).pending(*final(nav)) == p.drop_first())
                        &&& p.len() == 0 ==> (r matches NavAction::Done(x) && x is Continue)
                        &&& failure_model(final(nav).failure) == if final(nav).stage == old(nav).stage {
                            f
                        } else {
                            None
                        }
                        &&& if old(nav).stage == NavStage::End && final(nav).stage != NavStage::End {
                            final(self).arrived(old(self), old(nav).target@)
                        } else {
                            *final(self) == *old(self)
                        }
                    }
                },
            },
    {
        match last {
            Some(Err(e)) => {
                if nav.stage == NavStage::Scripts {
                    return NavAction::Failed(e);
                }
                if nav.failure.is_none() {
                    nav.failure = Some(e);
                }
            },
            Some(Ok(sig)) => {
                if sig.is_navigation() {
                    return NavAction::Done(sig);
                }
            },
            None => {},
        }
        self.next_script(nav)
    }

    /// Hand out the next pending script, or end the navigation: with the
    /// stage's first failure where its hooks are through, else `Done`.
    fn next_script(&mut self, nav: &mut Navigation) -> (r: NavAction)
        ensures
            final(nav).target == old(nav).target,
            r matches NavAction::Done(x) && x is Continue ==> final(nav).stage == NavStage::Render,
            ({
                let f = failure_model(old(nav).failure);
                let rest = old(self).stage_rest(old(nav).stage, old(nav).target@, old(nav).index as int);
                let p = old(self).pending(*old(nav));
                if rest.len() == 0 && f is Some {
                    &&& r matches NavAction::Failed(x) && Some(x.model()) == f
                    &&& *final(self) == *old(self)
                } else {
                    &&& p.len() > 0 ==> (r matches NavAction::RunScript(s) && script_model(s) == p[0]
                        && final(self).pending(*final(nav)) == p.drop_first())
                    &&& p.len() == 0 ==> (r matches NavAction::Done(x) && x is Continue)
                    &&& failure_model(final(nav).failure) == if final(nav).stage == old(nav).stage {
                        f
                    } else {
                        None
                    }
                    &&& if old(nav).stage == NavStage::End && final(nav).stage != NavStage::End {
                        final(self).arrived(old(self), old(nav).target@)
                    } else {
                        *final(self) == *old(self)
                    }
                }
            }),
    {
        let ghost p = self.pending(*nav);
        let target = copy_string(&nav.target);
        if nav.stage == NavStage::End {
            match self.stage_script(NavStage::End, &target, nav.index) {
                Some(s) => {
                    nav.index = nav.index + 1;
                    assert(self.pending(*nav) =~= p.drop_first());
                    return NavAction::RunScript(s);
                },
                None => {
                    let mut failure: Option<CoreError> = None;
                    std::mem::swap(&mut failure, &mut nav.failure);
                    if let Some(e) = failure {
                        return NavAction::Failed(e);
                    }
                    self.arrive(&target);
                    nav.stage = NavStage::Start;
                    nav.index = 0;
                },
            }
        }
        if nav.stage == NavStage::Start {
            match self.stage_script(NavStage::Start, &target, nav.index) {
                Some(s) => {
                    nav.index = nav.index + 1;
                    assert(self.pending(*nav) =~= p.drop_first());
                    return NavAction::RunScript(s);
                },
                None => {
                    let mut failure: Option<CoreError> = None;
                    std::mem::swap(&mut failure, &mut nav.failure);
                    if let Some(e) = failure {
                        return NavAction::Failed(e);
                    }
                    nav.stage = NavStage::Scripts;
                    nav.index = 0;
                },
            }
        }
        if nav.stage == NavStage::Scripts {
            match self.stage_script(NavStage::Scripts, &target, nav.index) {
                Some(s) => {
                    nav.index = nav.index + 1;
                    assert(self.pending(*nav) =~= p.drop_first());
                    return NavAction::RunScript(s);
                },
                None => {
                    let mut failure: Option<CoreError> = None;
                    std::mem::swap(&mut failure, &mut nav.failure);
                    if let Some(e) = failure {
                        return NavAction::Failed(e);
                    }
                    nav.stage = NavStage::Render;
                    nav.index = 0;
                },
            }
        }
        match self.stage_script(NavStage::Render, &target, nav.index) {
            Some(s) => {
                nav.index = nav.index + 1;
                assert(self.pending(*nav) =~= p.drop_first());
                NavAction::RunScript(s)
            },
            None => {
                let mut failure: Option<CoreError> = None;
                std::mem::swap(&mut failure, &mut nav.failure);
                match failure {
                    Some(e) => NavAction::Failed(e),
                    None => NavAction::Done(ScriptSignal::Continue),
                }
            },
        }
    }

    /// A navigation failed: the buffer holds the error's message alone.
    pub fn navigation_failed(&mut self, e: &CoreError)
        ensures
            final(self).same_setup(old(self)),
            final(self).state == old(self).state,
            final(self).current() == old(self).current(),
            final(self).choices() == old(self).choices(),
            final(self).fallback() == old(self).fallback(),
            final(self).recent() == old(self).recent(),
            final(self).buffered() == seq![CmdModel::Text("Error: "@ + error_text(e.model()))],
    {
        let m = e.message();
        let mut out: Vec<RenderCommand> = Vec::new();
        out.push(RenderCommand::Text(concat2("Error: ", m.as_str())));
        assert(cmds_model(out@) =~= seq![CmdModel::Text("Error: "@ + m@)]);
        self.buffer = out;
    }
}

/// How many times a navigation may be redirected by `game_goto` before it
/// is given up as a cycle: the driver must end, so a chain of redirections
/// longer than this is reported as an error rather than followed on.
pub const MAX_REDIRECTS: usize = 1000;

/// The state on arriving at `target` from a state `st`: temp variables
/// cleared, `target` current, and its visit recorded.
pub open spec fn arrival_state(st: StateModel, target: Seq<char>) -> StateModel {
    StateModel {
        temp: ValueModel::Object(Seq::empty()),
        current: Some(target),
        visits: st.visits.push(target),
        ..st
    }
}

impl NarrativeRuntime {
    /// The hooks and scripts that a navigation to `target` runs, in order:
    /// the end hooks where a passage is current, the start hooks, the
    /// target's scripts, the render hooks.
    pub open spec fn navigation_scripts(&self, target: Seq<char>) -> Seq<(Seq<char>, Seq<char>)> {
        let rest = self.stage_scripts(NavStage::Start, target) + self.stage_scripts(
            NavStage::Scripts,
            target,
        ) + self.stage_scripts(NavStage::Render, target);
        if self.current() is Some {
            self.stage_scripts(NavStage::End, target) + rest
        } else {
            rest
        }
    }

    /// The runtime has arrived at `target` since `old`: it is current (in
    /// the state too), its visit is recorded, the choices, the buffer and
    /// the stream fallback are cleared; the setup, the metadata and the
    /// recent texts are as in `old`.
    pub open spec fn at_passage(&self, old: &NarrativeRuntime, target: Seq<char>) -> bool {
        &&& self.same_setup(old)
        &&& self.current() == Some(target)
        &&& self.state@.current == Some(target)
        &&& self.state@.visits == old.state@.visits.push(target)
        &&& self.state@.metadata == old.state@.metadata
        &&& self.choices().len() == 0
        &&& self.buffered().len() == 0
        &&& self.fallback() is None
        &&& self.recent() == old.recent()
    }
}

/// Navigate to `target`, running with `engine` the hooks and scripts that
/// the runtime hands out, in stage order; the first navigation signal of a
/// script ends it, and so does the first failure (after the rest of its
/// stage's hooks).  `Continue` means the runtime arrived at `target`; with
/// no hook or script to run it always does.  Scripts never change the
/// metadata.
pub fn navigate(runtime: &mut NarrativeRuntime, engine: &ScriptEngine, target: &str) -> (r: Result<
    ScriptSignal,
    CoreError,
>)
    ensures
        final(runtime).same_setup(old(runtime)),
        final(runtime).state@.metadata == old(runtime).state@.metadata,
        node_index(old(runtime).graph.nodes@, target@) is None ==> (r matches Err(e) && e.model()
            == ErrorModel::PassageNotFound(target@) && *final(runtime) == *old(runtime)),
        node_index(old(runtime).graph.nodes@, target@) is Some ==> {
            &&& r matches Err(e) ==> e.model() is Script
            &&& r matches Ok(ScriptSignal::Continue) ==> final(runtime).at_passage(old(runtime), target@)
            &&& old(runtime).navigation_scripts(target@).len() == 0 ==> {
                &&& r matches Ok(ScriptSignal::Continue)
                &&& final(runtime).state@ == arrival_state(old(runtime).state@, target@)
            }
        },
{
    let mut nav = match runtime.navigate_to(target) {
        Ok(n) => n,
        Err(e) => {
            return Err(e);
        },
    };
    let ghost cleared = StateModel { temp: ValueModel::Object(Seq::empty()), ..old(runtime).state@ };
    proof {
        let t = target@;
        assert(runtime.stage_rest(nav.stage, t, 0) =~= runtime.stage_scripts(nav.stage, t));
        assert(runtime.pending(nav) =~= old(runtime).navigation_scripts(t));
    }
    let mut last: Option<Result<ScriptSignal, CoreError>> = None;
    loop
        invariant
            runtime.same_setup(old(runtime)),
            node_index(old(runtime).graph.nodes@, target@) is Some,
            nav.target@ == target@,
            runtime.state@.metadata == old(runtime).state@.metadata,
            cleared == (StateModel { temp: ValueModel::Object(Seq::empty()), ..old(runtime).state@ }),
            nav.failure matches Some(e) ==> e.model() is Script,
            last matches Some(Err(e)) ==> e.model() is Script,
            nav.stage == NavStage::End ==> {
                &&& old(runtime).current() is Some
                &&& runtime.current() == old(runtime).current()
                &&& runtime.state@.current == old(runtime).state@.current
                &&& runtime.state@.visits == old(runtime).state@.visits
                &&& runtime.recent() == old(runtime).recent()
            },
            nav.stage != NavStage::End ==> runtime.at_passage(old(runtime), target@),
            old(runtime).navigation_scripts(target@).len() == 0 ==> {
                &&& last is None
                &&& nav.failure is None
                &&& runtime.pending(nav).len() == 0
                &&& nav.stage == NavStage::End ==> runtime.state@ == cleared
                &&& nav.stage != NavStage::End ==> runtime.state@ == arrival_state(
                    old(runtime).state@,
                    target@,
                )
            },
        decreases runtime.pending(nav).len(),
    {
        let ghost before = runtime.pending(nav);
        let ghost prev = *runtime;
        let ghost prev_stage = nav.stage;
        match runtime.advance(&mut nav, last) {
            NavAction::RunScript(s) => {
                let res = engine.eval(&mut runtime.state, s.code.as_str(), s.lang.as_str());
                last = Some(
                    match res {
                        Ok((_, sig)) => Ok(sig),
                        Err(e) => Err(e),
                    },
                );
                assert(runtime.pending(nav).len() < before.len());
            },
            NavAction::Done(sig) => {
                proof {
                    if sig is Continue {
                        assert(nav.stage != NavStage::End);
                        if prev_stage == NavStage::End {
                            assert(runtime.arrived(&prev, target@));
                        } else {
                            assert(*runtime == prev);
                        }
                        assert(runtime.at_passage(old(runtime), target@));
                    }
                    if old(runtime).navigation_scripts(target@).len() == 0 {
                        assert(sig is Continue);
                        if prev_stage == NavStage::End {
                            assert(runtime.arrived(&prev, target@));
                            assert(runtime.state@ == arrival_state(old(runtime).state@, target@));
                        }
                    }
                }
                return Ok(sig);
            },
            NavAction::Failed(e) => {
                return Err(e);
            },
        }
    }
}

/// What a chain of navigations ended in: `Continue` or `Restart` from the
/// last navigation (never `Goto`, which is followed), or the error that
/// stopped it, left in the buffer as `Error: ` and its message.
pub open spec fn step_ended(new: NarrativeRuntime, old: NarrativeRuntime, r: Result<ScriptSignal, CoreError>) -> bool {
    &&& new.same_setup(&old)
    &&& new.state@.metadata == old.state@.metadata
    &&& match r {
        Ok(sig) => !(sig is Goto) && (sig is Continue ==> new.current() is Some && new.state@.current
            == new.current() && new.choices().len() == 0 && new.buffered().len() == 0),
        Err(e) => new.buffered() == seq![CmdModel::Text("Error: "@ + error_text(e.model()))] && (
        e.model() is Script || e.model() is PassageNotFound),
    }
}

/// Navigate to `target` and follow each `game_goto` that a script raises;
/// an error is left in the runtime's buffer for the next step to show.  A
/// chain of more than `MAX_REDIRECTS` redirections is taken for a cycle and
/// reported as an error.
pub fn run_step(runtime: &mut NarrativeRuntime, engine: &ScriptEngine, target: &str) -> (r: Result<
    ScriptSignal,
    CoreError,
>)
    ensures
        step_ended(*final(runtime), *old(runtime), r),
        node_index(old(runtime).graph.nodes@, target@) is None ==> {
            &&& r matches Err(e) && e.model() == ErrorModel::PassageNotFound(target@)
            &&& final(runtime).state == old(runtime).state
            &&& final(runtime).current() == old(runtime).current()
        },
        node_index(old(runtime).graph.nodes@, target@) is Some ==> {
            old(runtime).navigation_scripts(target@).len() == 0 ==> {
                &&& r matches Ok(ScriptSignal::Continue)
                &&& final(runtime).at_passage(old(runtime), target@)
                &&& final(runtime).state@ == arrival_state(old(runtime).state@, target@)
            }
        },
{
    let mut next = match navigate(runtime, engine, target) {
        Ok(ScriptSignal::Goto(t)) => t,
        Err(e) => {
            runtime.navigation_failed(&e);
            return Err(e);
        },
        Ok(sig) => {
            return Ok(sig);
        },
    };
    let mut hops: usize = 1;
    while hops <= MAX_REDIRECTS
        invariant
            runtime.same_setup(old(runtime)),
            runtime.state@.metadata == old(runtime).state@.metadata,
            node_index(old(runtime).graph.nodes@, target@) is Some,
            old(runtime).navigation_scripts(target@).len() != 0,
        decreases MAX_REDIRECTS + 1 - hops,
    {
        match navigate(runtime, engine, next.as_str()) {
            Ok(ScriptSignal::Goto(t)) => {
                next = t;
            },
            Err(e) => {
                runtime.navigation_failed(&e);
                return Err(e);
            },
            Ok(sig) => {
                return Ok(sig);
            },
        }
        hops = hops + 1;
    }
    let e = CoreError::Script(concat2("too many redirections, last to: ", next.as_str()));
    runtime.navigation_failed(&e);
    Err(e)
}

/// What feeding `input` to a runtime `old` does, leaving `new` and
/// returning `r`: an offered, enabled choice clears the choices and navigates
/// to its target (following redirects); any other choice changes nothing;
/// text goes to the temp variable `_input`.
pub open spec fn submitted(old: NarrativeRuntime, new: NarrativeRuntime, input: UserInput, r: Option<
    Result<ScriptSignal, CoreError>,
>) -> bool {
    &&& new.same_setup(&old)
    &&& match input {
        UserInput::Choice(idx) => if idx < old.choices().len() && old.choices()[idx as int].enabled {
            let t = old.choices()[idx as int].target;
            &&& r is Some
            &&& r matches Some(x) ==> {
                &&& step_ended(new, old, x)
                &&& node_index(old.graph.nodes@, t) is None ==> (x matches Err(e)
                    && e.model() == ErrorModel::PassageNotFound(t))
                &&& (node_index(old.graph.nodes@, t) is Some && old.navigation_scripts(t).len() == 0) ==> {
                    &&& x matches Ok(ScriptSignal::Continue)
                    &&& new.at_passage(&old, t)
                    &&& new.state@ == arrival_state(old.state@, t)
                }
            }
        } else {
            r is None && new == old
        },
        UserInput::Text(t) => {
            &&& r is None
            &&& new.current() == old.current()
            &&& new.choices() == old.choices()
            &&& match crate::state::state_set(old.state@, "_input"@, ValueModel::Str(t@), Scope::Temp) {
                Ok(st) => new.state@ == st,
                Err(_) => new.state@ == old.state@,
            }
        },
    }
}

/// Feed a user input to the story: a choice that is offered and enabled
/// clears the choices and navigates to its target (following redirects);
/// the result is how that ended.  Any other choice changes nothing; text
/// goes to the temp variable `_input`.
pub fn submit(runtime: &mut NarrativeRuntime, engine: &ScriptEngine, input: UserInput) -> (r: Option<
    Result<ScriptSignal, CoreError>,
>)
    ensures
        submitted(*old(runtime), *final(runtime), input, r),
{
    match runtime.submit_input(input) {
        Some(target) => Some(run_step(runtime, engine, target.as_str())),
        None => None,
    }
}

/// One step of the story.  Without a current passage the runtime first
/// navigates to the start passage (following redirects); where that leaves
/// no passage current, the error it left in the buffer is rendered.  Then the
/// current passage is stepped.
pub fn play_step(runtime: &mut NarrativeRuntime, engine: &ScriptEngine, arith: &dyn FloatArith) -> (r: StepResult)
    ensures
        final(runtime).same_setup(old(runtime)),
        old(runtime).current() is Some ==> stepped(*old(runtime), *final(runtime), r),
        old(runtime).current() is None ==> {
            &&& node_index(old(runtime).graph.nodes@, old(runtime).config.start@) is None ==> {
                &&& r matches StepResult::Render(v) && cmds_model(v@) == seq![
                    CmdModel::Text("Error: "@ + error_text(ErrorModel::PassageNotFound(old(runtime).config.start@))),
                ]
                &&& final(runtime).current() is None
                &&& final(runtime).state == old(runtime).state
            }
            &&& (final(runtime).current() is None && r is Render) || exists|mid: NarrativeRuntime|
                mid.current() is Some && mid.same_setup(old(runtime)) && #[trigger] stepped(mid, *final(runtime), r)
        },
{
    if runtime.current_passage.is_none() {
        let start = copy_string(&runtime.config.start);
        let _ = run_step(runtime, engine, start.as_str());
        if runtime.current_passage.is_none() {
            let mut out: Vec<RenderCommand> = Vec::new();
            std::mem::swap(&mut out, &mut runtime.buffer);
            return StepResult::Render(out);
        }
    }
    let ghost mid = *runtime;
    let r = runtime.step(arith);
    assert(stepped(mid, *runtime, r));
    r
}

/// Choosing after a render: a step that offers choices shows them last,
/// exactly as the runtime keeps them, and submitting an index then picks
/// from that list.  An index on offer whose choice is enabled navigates to
/// its target (arriving there with one more visit where no hook or script
/// runs); any other index changes nothing.
pub proof fn law_choose_after_render(
    o: NarrativeRuntime,
    m: NarrativeRuntime,
    v: Vec<RenderCommand>,
    idx: usize,
    f: NarrativeRuntime,
    x: Option<Result<ScriptSignal, CoreError>>,
)
    requires
        o.current() is Some,
        node_index(o.graph.nodes@, o.current()->0) is Some,
        stepped(o, m, StepResult::Render(v)),
        m.choices().len() > 0,
        submitted(m, f, UserInput::Choice(idx), x),
    ensures
        cmds_model(v@).len() > 0,
        cmds_model(v@).last() == CmdModel::Choice(m.choices()),
        idx < m.choices().len() && m.choices()[idx as int].enabled ==> {
            let t = m.choices()[idx as int].target;
            &&& x is Some
            &&& step_ended(f, m, x->0)
            &&& (node_index(m.graph.nodes@, t) is Some && m.navigation_scripts(t).len() == 0) ==> {
                &&& f.current() == Some(t)
                &&& f.state@ == arrival_state(m.state@, t)
                &&& f.choices().len() == 0
            }
        },
        !(idx < m.choices().len() && m.choices()[idx as int].enabled) ==> x is None && f == m,
{
}

/// Rendering a conditional walks exactly one branch: the then-branch where
/// the condition evaluates to `true`, the else-branch where it evaluates to
/// anything else (a number from float arithmetic among them) or fails.
pub proof fn law_conditional_branch(
    g: &PassageGraph,
    macros: Seq<Box<dyn MacroHandler>>,
    w: WalkModel,
    condition: Expression,
    then_branch: Vec<ContentNode>,
    else_branch: Vec<ContentNode>,
    depth: nat,
)
    ensures
        ({
            let n = ContentNode::Conditional { condition, then_branch, else_branch };
            let o = eval_spec(&condition, w.state, Some(g));
            &&& o == Outcome::Done(Ok(ValueModel::Bool(true))) ==> node_spec(g, macros, w, n, depth)
                == walk_spec(g, macros, w, then_branch@, depth)
            &&& ((o is Done && o != Outcome::Done(Ok(ValueModel::Bool(true)))) || o == Outcome::FloatDependent(
                FloatKind::Number,
            )) ==> node_spec(g, macros, w, n, depth) == walk_spec(g, macros, w, else_branch@, depth)
        }),
{
}

} // verus!
