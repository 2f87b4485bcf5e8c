//! Macros: `{name: args}` directives handled by a registered handler.
use vstd::prelude::*;
use crate::content::{ContentNode, MacroArg};
use crate::error::{CoreError, ErrorModel};
use crate::state::{StateModel, StoryState, state_set};
use crate::text::{concat2, copy_string};
use crate::value::{FloatArith, Scope, Value, display, has_float};

verus! {

/// The result of executing a macro.
pub enum MacroResult {
    /// The macro produced content to be rendered.
    Content(Vec<ContentNode>),
    /// The macro performed a side effect (e.g. state mutation) with no render output.
    SideEffect,
}

/// What the runtime uses of a content node that a macro returns.
pub enum MacroItem {
    Text(Seq<char>),
    Display(Seq<char>),
    Other,
}

pub open spec fn item_of(n: ContentNode) -> MacroItem {
    match n {
        ContentNode::Text(s) => MacroItem::Text(s@),
        ContentNode::Display { passage } => MacroItem::Display(passage@),
        _ => MacroItem::Other,
    }
}

pub open spec fn items_of(v: Seq<ContentNode>) -> Seq<MacroItem> {
    Seq::new(v.len(), |i: int| item_of(v[i]))
}

/// The content of a macro's result.
pub enum MacroOutcome {
    Items(Seq<MacroItem>),
    SideEffect,
    Failed(ErrorModel),
}

pub open spec fn outcome_of(r: Result<MacroResult, CoreError>) -> MacroOutcome {
    match r {
        Ok(MacroResult::Content(v)) => MacroOutcome::Items(items_of(v@)),
        Ok(MacroResult::SideEffect) => MacroOutcome::SideEffect,
        Err(e) => MacroOutcome::Failed(e.model()),
    }
}

/// The arguments and services passed to every `MacroHandler::handle()`
/// invocation, beside the story state.
pub struct MacroContext<'a> {
    pub args: &'a [MacroArg],
    /// Float formatting for values that hold floats.
    pub arith: &'a dyn FloatArith,
}

/// A macro handler: the built-in ones below, or one a story registers.
pub trait MacroHandler {
    /// The name that `name` returns.
    spec fn spec_name(&self) -> Seq<char>;

    /// What `handle` does to the state and returns, given the state and the
    /// arguments; `None` where that rests on float formatting.
    spec fn spec_handle(&self, st: StateModel, args: Seq<MacroArg>) -> Option<
        (StateModel, MacroOutcome),
    >;

    /// The macro name used in `{name: args}` syntax.
    fn name(&self) -> (r: &str)
        ensures
            r@ == self.spec_name(),
    ;

    /// Execute this macro.  Returns either content or a side effect.
    fn handle(&self, state: &mut StoryState, ctx: &MacroContext) -> (r: Result<MacroResult, CoreError>)
        ensures
            self.spec_handle(old(state)@, ctx.args@) matches Some((st, o)) ==> final(state)@ == st
                && outcome_of(r) == o,
    ;
}

// ── built-in macros ─────────────────────────────────────────────────────

/// `{set: key = value}`: the keyed arguments in turn set global variables;
/// the first refusal stops with a macro error (earlier ones stay set).
pub open spec fn set_args(st: StateModel, args: Seq<MacroArg>) -> (StateModel, Option<Seq<char>>)
    decreases args.len(),
{
    if args.len() == 0 {
        (st, None)
    } else {
        let (mid, err) = set_args(st, args.drop_last());
        if err is Some {
            (mid, err)
        } else {
            match args.last() {
                MacroArg::KeyValue(k, v) => match state_set(mid, k@, v.model(), Scope::Global) {
                    Ok(s2) => (s2, None),
                    Err(m) => (mid, Some(m)),
                },
                MacroArg::Positional(_) => (mid, None),
            }
        }
    }
}

/// `{set: key = value}` — Set a state variable.
pub struct SetMacro;

impl MacroHandler for SetMacro {
    open spec fn spec_name(&self) -> Seq<char> {
        "set"@
    }

    open spec fn spec_handle(&self, st: StateModel, args: Seq<MacroArg>) -> Option<
        (StateModel, MacroOutcome),
    > {
        let (s2, err) = set_args(st, args);
        Some(
            (
                s2,
                match err {
                    Some(m) => MacroOutcome::Failed(ErrorModel::Macro(m)),
                    None => MacroOutcome::SideEffect,
                },
            ),
        )
    }

    fn name(&self) -> (r: &str) {
        "set"
    }

    fn handle(&self, state: &mut StoryState, ctx: &MacroContext) -> (r: Result<MacroResult, CoreError>) {
        let ghost st0 = state@;
        let ghost all = ctx.args@;
        let mut failure: Option<String> = None;
        let mut i: usize = 0;
        while i < ctx.args.len() && failure.is_none()
            invariant
                i <= ctx.args@.len(),
                ctx.args@ == all,
                failure is None ==> set_args(st0, all.take(i as int)) == (state@, None::<
                    Seq<char>,
                >),
                failure matches Some(m) ==> set_args(st0, all) == (state@, Some(m@)),
            decreases ctx.args.len() - i,
        {
            assert(all.take(i + 1).drop_last() =~= all.take(i as int));
            match &ctx.args[i] {
                MacroArg::KeyValue(key, val) => {
                    let v = val.copy();
                    let ghost mid = state@;
                    match state.set(key.as_str(), v, Scope::Global) {
                        Ok(()) => {},
                        Err(e) => {
                            assert(set_args(st0, all.take(i + 1)) == (mid, Some(e@)));
                            proof {
                                lemma_set_args_stops(st0, all, i + 1);
                            }
                            failure = Some(e);
                        },
                    }
                },
                MacroArg::Positional(_) => {},
            }
            i = i + 1;
        }
        assert(all.take(all.len() as int) =~= all);
        match failure {
            Some(e) => Err(CoreError::Macro(e)),
            None => Ok(MacroResult::SideEffect),
        }
    }
}

/// Once an argument fails, the later ones change nothing.
proof fn lemma_set_args_stops(st: StateModel, args: Seq<MacroArg>, k: int)
    requires
        0 <= k <= args.len(),
        set_args(st, args.take(k)).1 is Some,
    ensures
        set_args(st, args) == set_args(st, args.take(k)),
    decreases args.len() - k,
{
    if k < args.len() {
        assert(args.take(k + 1).drop_last() =~= args.take(k));
        lemma_set_args_stops(st, args, k + 1);
    } else {
        assert(args.take(k) =~= args);
    }
}

/// `{display: "passage_name"}`: the passages that the string arguments name.
pub open spec fn display_items(args: Seq<MacroArg>) -> Seq<MacroItem>
    decreases args.len(),
{
    if args.len() == 0 {
        Seq::empty()
    } else {
        let pre = display_items(args.drop_last());
        match args.last() {
            MacroArg::Positional(Value::String(name)) => pre.push(MacroItem::Display(name@)),
            _ => pre,
        }
    }
}

/// `{display: "passage_name"}` — Embed another passage's content.
pub struct DisplayMacro;

impl MacroHandler for DisplayMacro {
    open spec fn spec_name(&self) -> Seq<char> {
        "display"@
    }

    open spec fn spec_handle(&self, st: StateModel, args: Seq<MacroArg>) -> Option<
        (StateModel, MacroOutcome),
    > {
        Some((st, MacroOutcome::Items(display_items(args))))
    }

    fn name(&self) -> (r: &str) {
        "display"
    }

    fn handle(&self, state: &mut StoryState, ctx: &MacroContext) -> (r: Result<MacroResult, CoreError>) {
        let ghost all = ctx.args@;
        let mut nodes: Vec<ContentNode> = Vec::new();
        let mut i: usize = 0;
        while i < ctx.args.len()
            invariant
                i <= ctx.args@.len(),
                ctx.args@ == all,
                items_of(nodes@) == display_items(all.take(i as int)),
            decreases ctx.args.len() - i,
        {
            assert(all.take(i + 1).drop_last() =~= all.take(i as int));
            let ghost before = nodes@;
            match &ctx.args[i] {
                MacroArg::Positional(Value::String(name)) => {
                    nodes.push(ContentNode::Display { passage: copy_string(name) });
                    assert(items_of(nodes@) =~= items_of(before).push(MacroItem::Display(name@)));
                },
                _ => {},
            }
            i = i + 1;
        }
        assert(all.take(all.len() as int) =~= all);
        Ok(MacroResult::Content(nodes))
    }
}

/// `{print: ...}`: a text per argument, the value's display text or
/// `key: value`.
pub open spec fn print_items(args: Seq<MacroArg>) -> Seq<MacroItem>
    decreases args.len(),
{
    if args.len() == 0 {
        Seq::empty()
    } else {
        let pre = print_items(args.drop_last());
        match args.last() {
            MacroArg::Positional(v) => pre.push(MacroItem::Text(display(v.model()))),
            MacroArg::KeyValue(k, v) => pre.push(MacroItem::Text(k@ + ": "@ + display(v.model()))),
        }
    }
}

/// Some argument's value holds a float.
pub open spec fn args_have_float(args: Seq<MacroArg>) -> bool {
    exists|i: int|
        0 <= i < args.len() && match #[trigger] args[i] {
            MacroArg::Positional(v) => has_float(v.model()),
            MacroArg::KeyValue(_, v) => has_float(v.model()),
        }
}

/// `{print: "text"}` — Output static text.
pub struct PrintMacro;

impl MacroHandler for PrintMacro {
    open spec fn spec_name(&self) -> Seq<char> {
        "print"@
    }

    open spec fn spec_handle(&self, st: StateModel, args: Seq<MacroArg>) -> Option<
        (StateModel, MacroOutcome),
    > {
        if args_have_float(args) {
            None
        } else {
            Some((st, MacroOutcome::Items(print_items(args))))
        }
    }

    fn name(&self) -> (r: &str) {
        "print"
    }

    fn handle(&self, state: &mut StoryState, ctx: &MacroContext) -> (r: Result<MacroResult, CoreError>) {
        let ghost all = ctx.args@;
        let mut nodes: Vec<ContentNode> = Vec::new();
        let mut i: usize = 0;
        while i < ctx.args.len()
            invariant
                i <= ctx.args@.len(),
                ctx.args@ == all,
                !args_have_float(all) ==> items_of(nodes@) == print_items(all.take(i as int)),
            decreases ctx.args.len() - i,
        {
            assert(all.take(i + 1).drop_last() =~= all.take(i as int));
            let ghost before = nodes@;
            match &ctx.args[i] {
                MacroArg::Positional(val) => {
                    let t = val.to_string(ctx.arith);
                    nodes.push(ContentNode::Text(t));
                    proof {
                        if !args_have_float(all) {
                            assert(!has_float(val.model()));
                            assert(items_of(nodes@) =~= items_of(before).push(
                                MacroItem::Text(display(val.model())),
                            ));
                        }
                    }
                },
                MacroArg::KeyValue(key, val) => {
                    let mut t = concat2(key.as_str(), ": ");
                    let vt = val.to_string(ctx.arith);
                    crate::text::push_str(&mut t, vt.as_str());
                    nodes.push(ContentNode::Text(t));
                    proof {
                        if !args_have_float(all) {
                            assert(!has_float(val.model()));
                            assert(items_of(nodes@) =~= items_of(before).push(
                                MacroItem::Text(key@ + ": "@ + display(val.model())),
                            ));
                        }
                    }
                },
            }
            i = i + 1;
        }
        assert(all.take(all.len() as int) =~= all);
        Ok(MacroResult::Content(nodes))
    }
}

/// `{for: i in 0..N} ... {end}` — Iteration (no effect yet).
pub struct ForMacro;

impl MacroHandler for ForMacro {
    open spec fn spec_name(&self) -> Seq<char> {
        "for"@
    }

    open spec fn spec_handle(&self, st: StateModel, args: Seq<MacroArg>) -> Option<
        (StateModel, MacroOutcome),
    > {
        Some((st, MacroOutcome::SideEffect))
    }

    fn name(&self) -> (r: &str) {
        "for"
    }

    fn handle(&self, state: &mut StoryState, ctx: &MacroContext) -> (r: Result<MacroResult, CoreError>) {
        Ok(MacroResult::SideEffect)
    }
}

/// `{switch: expr} {case: val} ... {end}` — Multi-way branch (no effect yet).
pub struct SwitchMacro;

impl MacroHandler for SwitchMacro {
    open spec fn spec_name(&self) -> Seq<char> {
        "switch"@
    }

    open spec fn spec_handle(&self, st: StateModel, args: Seq<MacroArg>) -> Option<
        (StateModel, MacroOutcome),
    > {
        Some((st, MacroOutcome::SideEffect))
    }

    fn name(&self) -> (r: &str) {
        "switch"
    }

    fn handle(&self, state: &mut StoryState, ctx: &MacroContext) -> (r: Result<MacroResult, CoreError>) {
        Ok(MacroResult::SideEffect)
    }
}

/// Create the default set of built-in macros: set, display, print, for,
/// switch.
pub fn builtin_macros() -> (r: Vec<Box<dyn MacroHandler>>)
    ensures
        r@.len() == 5,
{
    let m0: Box<dyn MacroHandler> = Box::new(SetMacro);
    let m1: Box<dyn MacroHandler> = Box::new(DisplayMacro);
    let m2: Box<dyn MacroHandler> = Box::new(PrintMacro);
    let m3: Box<dyn MacroHandler> = Box::new(ForMacro);
    let m4: Box<dyn MacroHandler> = Box::new(SwitchMacro);
    let v: Vec<Box<dyn MacroHandler>> = vec![m0, m1, m2, m3, m4];
    v
}

} // verus!
