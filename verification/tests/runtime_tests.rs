use pathos::config::StoryConfig;
use pathos::content::{ContentNode, MacroArg};
use pathos::error::CoreError;
use pathos::expression::Expression;
use pathos::passage::{HookDeclaration, PassageGraph, PassageNode, PassageScript};
use pathos::runtime::{navigate, play_step, run_step, submit, NarrativeRuntime, NavAction, NavStage};
use pathos::script::{script_outcome, ScriptEngine, ScriptRun, ScriptRunner, ScriptSignal};
use pathos::state::StoryState;
use pathos::types::{RenderCommand, StepResult, UserInput};
use pathos::value::{FloatArith, Scope, Value};

struct F64;

impl FloatArith for F64 {
    fn float_from_int(&self, i: i64) -> u64 {
        (i as f64).to_bits()
    }
    fn float_add(&self, a: u64, b: u64) -> u64 {
        (f64::from_bits(a) + f64::from_bits(b)).to_bits()
    }
    fn float_sub(&self, a: u64, b: u64) -> u64 {
        (f64::from_bits(a) - f64::from_bits(b)).to_bits()
    }
    fn float_mul(&self, a: u64, b: u64) -> u64 {
        (f64::from_bits(a) * f64::from_bits(b)).to_bits()
    }
    fn float_div(&self, a: u64, b: u64) -> u64 {
        (f64::from_bits(a) / f64::from_bits(b)).to_bits()
    }
    fn float_parse(&self, s: &str) -> u64 {
        s.parse::<f64>().unwrap_or(f64::NAN).to_bits()
    }
    fn float_format(&self, a: u64) -> String {
        f64::from_bits(a).to_string()
    }
    fn float_debug(&self, a: u64) -> String {
        format!("{:?}", f64::from_bits(a))
    }
}


fn script(code: &str) -> PassageScript {
    PassageScript { lang: "rhai".into(), code: code.into() }
}

fn hook(event: &str, code: &str) -> HookDeclaration {
    HookDeclaration { event: event.into(), script: script(code) }
}

fn node(id: &str, body: Vec<ContentNode>, scripts: Vec<PassageScript>, hooks: Vec<HookDeclaration>) -> PassageNode {
    PassageNode { id: id.into(), tags: vec![], body, scripts, hooks }
}

fn link(label: &str, target: &str) -> ContentNode {
    ContentNode::Link { label: label.into(), target: target.into(), enabled_if: None }
}

fn config(start: &str) -> StoryConfig {
    StoryConfig::new("T".into(), "A".into(), start.into(), "1.0".into(), 3)
}

fn story() -> NarrativeRuntime {
    let graph = PassageGraph {
        nodes: vec![
            node(
                "a",
                vec![ContentNode::Text("Hello.".into()), link("Go", "b")],
                vec![script("s1"), script("s2")],
                vec![hook("on_passage_start", "h1"), hook("on_passage_end", "e1")],
            ),
            node("b", vec![ContentNode::Text("The end.".into())], vec![], vec![hook("on_passage_render", "r1")]),
        ],
        edges: vec![],
    };
    NarrativeRuntime::new(config("a"), graph, StoryState::default())
}

fn code_of(a: &NavAction) -> String {
    match a {
        NavAction::RunScript(s) => s.code.clone(),
        other => panic!("expected a script, got {:?}", other),
    }
}

#[test]
fn new_runtime_writes_metadata_and_hooks() {
    let rt = story();
    assert_eq!(rt.state.get("title", Scope::Global).unwrap().as_str(), Some("T"));
    assert_eq!(rt.state.get("save_slots", Scope::Global).unwrap().as_int(), Some(3));
    assert_eq!(rt.hooks.count("on_passage_start"), 1);
    assert_eq!(rt.hooks.count("on_passage_end"), 1);
    assert_eq!(rt.hooks.count("on_passage_render"), 1);
    assert!(rt.current_passage().is_none());
    assert_eq!(rt.macros.len(), 5);
}

#[test]
fn navigation_hands_out_hooks_and_scripts_in_order() {
    let mut rt = story();
    let mut nav = rt.navigate_to("a").unwrap();
    assert_eq!(nav.stage, NavStage::Start);
    assert_eq!(rt.current_passage().map(|s| s.as_str()), Some("a"));
    let mut codes = Vec::new();
    let mut last = None;
    loop {
        match rt.advance(&mut nav, last.take()) {
            NavAction::RunScript(s) => {
                codes.push(s.code.clone());
                last = Some(Ok(ScriptSignal::Continue));
            }
            NavAction::Done(sig) => {
                assert!(!sig.is_navigation());
                break;
            }
            NavAction::Failed(e) => panic!("unexpected failure {:?}", e),
        }
    }
    assert_eq!(codes, vec!["h1", "s1", "s2", "r1"]);
    assert!(rt.state.is_visited("a"));
}

#[test]
fn end_hooks_run_before_arriving() {
    let mut rt = story();
    rt.navigate_to("a").unwrap();
    let mut nav = rt.navigate_to("b").unwrap();
    assert_eq!(nav.stage, NavStage::End);
    let first = rt.advance(&mut nav, None);
    assert_eq!(code_of(&first), "e1");
    assert_eq!(rt.current_passage().map(|s| s.as_str()), Some("a"));
    let next = rt.advance(&mut nav, Some(Ok(ScriptSignal::Continue)));
    assert_eq!(code_of(&next), "h1");
    assert_eq!(rt.current_passage().map(|s| s.as_str()), Some("b"));
}

#[test]
fn script_signal_ends_navigation() {
    let mut rt = story();
    let mut nav = rt.navigate_to("a").unwrap();
    rt.advance(&mut nav, None);
    match rt.advance(&mut nav, Some(Ok(ScriptSignal::Goto("b".into())))) {
        NavAction::Done(ScriptSignal::Goto(t)) => assert_eq!(t, "b"),
        other => panic!("unexpected {:?}", other),
    }
}

#[test]
fn failing_passage_script_stops_at_once() {
    let mut rt = story();
    let mut nav = rt.navigate_to("a").unwrap();
    assert_eq!(code_of(&rt.advance(&mut nav, None)), "h1");
    assert_eq!(code_of(&rt.advance(&mut nav, Some(Ok(ScriptSignal::Continue)))), "s1");
    match rt.advance(&mut nav, Some(Err(CoreError::Script("boom".into())))) {
        NavAction::Failed(e) => assert_eq!(e.message(), "script error: boom"),
        other => panic!("unexpected {:?}", other),
    }
}

#[test]
fn failing_hook_lets_the_event_finish_then_fails() {
    let graph = PassageGraph {
        nodes: vec![node(
            "a",
            vec![],
            vec![script("s1")],
            vec![hook("on_passage_start", "h1"), hook("on_passage_start", "h2")],
        )],
        edges: vec![],
    };
    let mut rt = NarrativeRuntime::new(config("a"), graph, StoryState::default());
    let mut nav = rt.navigate_to("a").unwrap();
    assert_eq!(code_of(&rt.advance(&mut nav, None)), "h1");
    let second = rt.advance(&mut nav, Some(Err(CoreError::Script("first".into()))));
    assert_eq!(code_of(&second), "h2");
    match rt.advance(&mut nav, Some(Err(CoreError::Script("second".into())))) {
        NavAction::Failed(e) => assert_eq!(e.message(), "script error: first"),
        other => panic!("unexpected {:?}", other),
    }
}

#[test]
fn unknown_passage_is_refused() {
    let mut rt = story();
    match rt.navigate_to("zzz") {
        Err(e) => assert_eq!(e.message(), "passage not found: zzz"),
        Ok(_) => panic!("expected an error"),
    }
    assert!(rt.current_passage().is_none());
}

#[test]
fn navigation_clears_temp() {
    let mut rt = story();
    rt.state.set("t", Value::Int(1), Scope::Temp).unwrap();
    rt.navigate_to("a").unwrap();
    assert!(!rt.state.has("t", Scope::Temp));
}

#[test]
fn step_renders_choices_then_submit_picks_target() {
    let mut rt = story();
    rt.navigate_to("a").unwrap();
    match rt.step(&F64) {
        StepResult::Render(cmds) => {
            assert!(matches!(cmds[0], RenderCommand::Text(ref s) if s == "Hello."));
            assert!(matches!(cmds[cmds.len() - 2], RenderCommand::Separator));
            match &cmds[cmds.len() - 1] {
                RenderCommand::Choice(cs) => {
                    assert_eq!(cs.len(), 1);
                    assert_eq!(cs[0].target, "b");
                    assert!(cs[0].enabled);
                }
                other => panic!("unexpected {:?}", other),
            }
        }
        other => panic!("expected Render, got {:?}", other),
    }
    assert_eq!(rt.submit_input(UserInput::Choice(5)), None);
    assert_eq!(rt.submit_input(UserInput::Choice(0)), Some("b".to_string()));
    assert_eq!(rt.submit_input(UserInput::Choice(0)), None);
}

#[test]
fn step_without_choices_finishes() {
    let mut rt = story();
    rt.navigate_to("b").unwrap();
    match rt.step(&F64) {
        StepResult::Render(cmds) => {
            assert_eq!(cmds.len(), 1);
            assert!(matches!(cmds[0], RenderCommand::Text(ref s) if s == "The end."));
        }
        other => panic!("expected Render, got {:?}", other),
    }
    assert!(rt.end_shown);
    assert!(matches!(rt.step(&F64), StepResult::Finished));
}

#[test]
fn empty_final_passage_finishes_at_once() {
    let graph = PassageGraph { nodes: vec![node("z", vec![], vec![], vec![])], edges: vec![] };
    let mut rt = NarrativeRuntime::new(config("z"), graph, StoryState::default());
    rt.navigate_to("z").unwrap();
    assert!(matches!(rt.step(&F64), StepResult::Finished));
}

#[test]
fn text_input_goes_to_temp() {
    let mut rt = story();
    assert_eq!(rt.submit_input(UserInput::Text("Ann".into())), None);
    assert_eq!(rt.state.get("_input", Scope::Temp).unwrap().as_str(), Some("Ann"));
    // navigation empties temp, which stays writable
    rt.navigate_to("a").unwrap();
    assert!(rt.state.get("_input", Scope::Temp).is_none());
    assert_eq!(rt.submit_input(UserInput::Text("Bob".into())), None);
    assert_eq!(rt.state.get("_input", Scope::Temp).unwrap().as_str(), Some("Bob"));
}

#[test]
fn navigation_failure_is_buffered() {
    let mut rt = story();
    rt.navigation_failed(&CoreError::PassageNotFound("x".into()));
    assert_eq!(rt.buffer.len(), 1);
    assert!(matches!(rt.buffer[0], RenderCommand::Text(ref s) if s == "Error: passage not found: x"));
}

#[test]
fn streams_feed_and_end() {
    let mut rt = story();
    rt.feed_stream_token("tok".into());
    rt.end_stream(Ok(()));
    assert!(matches!(rt.buffer[0], RenderCommand::StreamToken(ref s) if s == "tok"));
    assert!(matches!(rt.buffer[1], RenderCommand::StreamEnd));
    rt.ai_fallback = Some("fallback".into());
    rt.end_stream(Err("down".into()));
    assert!(matches!(rt.buffer[2], RenderCommand::StreamFailed { ref fallback } if fallback == "fallback"));
    assert!(rt.ai_fallback.is_none());
}

#[test]
fn missing_current_passage_is_reported() {
    let mut rt = story();
    rt.current_passage = Some("ghost".into());
    match rt.step(&F64) {
        StepResult::Render(cmds) => {
            assert!(matches!(cmds[0], RenderCommand::Text(ref s) if s == "Passage not found: ghost"))
        }
        other => panic!("unexpected {:?}", other),
    }
}

#[test]
fn false_guard_greys_out_link() {
    let guarded = ContentNode::Link {
        label: "Door".into(),
        target: "a".into(),
        enabled_if: Some(Expression::Literal(Value::Bool(false))),
    };
    let graph = PassageGraph { nodes: vec![node("a", vec![guarded, link("Back", "a")], vec![], vec![])], edges: vec![] };
    let mut rt = NarrativeRuntime::new(config("a"), graph, StoryState::default());
    rt.navigate_to("a").unwrap();
    match rt.step(&F64) {
        StepResult::Render(cmds) => match &cmds[cmds.len() - 1] {
            RenderCommand::Choice(cs) => {
                assert!(!cs[0].enabled);
                assert!(cs[1].enabled);
            }
            other => panic!("unexpected {:?}", other),
        },
        other => panic!("unexpected {:?}", other),
    }
    assert_eq!(rt.submit_input(UserInput::Choice(0)), None);
    assert_eq!(rt.submit_input(UserInput::Choice(1)), Some("a".to_string()));
}

#[test]
fn recent_texts_keep_the_last_twenty() {
    let mut rt = story();
    rt.navigate_to("a").unwrap();
    for _ in 0..25 {
        rt.step(&F64);
    }
    assert_eq!(rt.recent_passage_texts.len(), 20);
    assert_eq!(rt.recent_passage_texts[19], "Hello.");
}

#[test]
fn macros_run_while_rendering() {
    let body = vec![
        ContentNode::Macro { name: "set".into(), args: vec![MacroArg::KeyValue("gold".into(), Value::Int(7))] },
        ContentNode::Macro { name: "set".into(), args: vec![MacroArg::KeyValue("metadata".into(), Value::Int(1))] },
        ContentNode::Macro { name: "print".into(), args: vec![MacroArg::Positional(Value::String("hi".into()))] },
        ContentNode::StateInterp { path: "gold".into() },
        ContentNode::StateInterp { path: "missing".into() },
        ContentNode::Macro { name: "nope".into(), args: vec![] },
        link("again", "a"),
    ];
    let graph = PassageGraph { nodes: vec![node("a", body, vec![], vec![])], edges: vec![] };
    let mut rt = NarrativeRuntime::new(config("a"), graph, StoryState::default());
    rt.navigate_to("a").unwrap();
    let texts: Vec<String> = match rt.step(&F64) {
        StepResult::Render(cmds) => cmds
            .iter()
            .filter_map(|c| match c {
                RenderCommand::Text(s) => Some(s.clone()),
                _ => None,
            })
            .collect(),
        other => panic!("unexpected {:?}", other),
    };
    assert_eq!(
        texts,
        vec![
            "[macro error: macro error: cannot write to read-only metadata]",
            "hi",
            "7",
            "{state: \"missing\"}",
            "{nope: ...}",
        ]
    );
    assert_eq!(rt.state.get("gold", Scope::Global).unwrap().as_int(), Some(7));
}

/// A stand-in language engine: `goto:X` asks for passage X, `fail` fails,
/// `count` adds one to the global `n`, anything else ends with `null`.
struct Fake;

impl ScriptRunner for Fake {
    fn run(&self, globals: &mut Value, _temp: &mut Value, code: &str) -> ScriptRun {
        if let Some(t) = code.strip_prefix("goto:") {
            return ScriptRun::Goto(t.to_string());
        }
        match code {
            "fail" => ScriptRun::Failed("boom".into()),
            "restart" => ScriptRun::Restart,
            "count" => {
                let n = globals.get("n").and_then(|v| v.as_int()).unwrap_or(0);
                let _ = globals.set("n", Value::Int(n + 1));
                ScriptRun::Finished(Value::Int(n + 1))
            }
            _ => ScriptRun::Finished(Value::Null),
        }
    }
}

fn engine() -> ScriptEngine {
    ScriptEngine { runner: Box::new(Fake) }
}

#[test]
fn eval_refuses_unknown_languages() {
    let mut st = StoryState::default();
    st.set("n", Value::Int(5), Scope::Global).unwrap();
    match engine().eval(&mut st, "count", "lua") {
        Err(CoreError::Script(m)) => assert_eq!(m, "unknown script language: lua"),
        other => panic!("unexpected {:?}", other),
    }
    assert_eq!(st.get("n", Scope::Global).unwrap().as_int(), Some(5));
    match engine().eval(&mut st, "count", " RHAI ") {
        Ok((v, ScriptSignal::Continue)) => assert_eq!(v, Value::Int(6)),
        other => panic!("unexpected {:?}", other),
    }
    assert_eq!(st.get("n", Scope::Global).unwrap().as_int(), Some(6));
}

#[test]
fn eval_reports_navigation_and_errors() {
    let mut st = StoryState::default();
    assert!(matches!(engine().eval(&mut st, "goto:cave", "rhai"), Ok((Value::Null, ScriptSignal::Goto(ref t))) if t == "cave"));
    assert!(matches!(engine().eval(&mut st, "restart", "rhai"), Ok((Value::Null, ScriptSignal::Restart))));
    match engine().eval(&mut st, "fail", "rhai") {
        Err(e) => assert_eq!(e.message(), "script error: boom"),
        other => panic!("unexpected {:?}", other),
    }
    assert!(matches!(script_outcome(ScriptRun::Interrupted), Ok((Value::Null, ScriptSignal::Continue))));
}

#[test]
fn scripts_never_change_metadata() {
    let mut rt = story();
    let before = format!("{:?}", rt.state.metadata);
    let _ = engine().eval(&mut rt.state, "count", "rhai");
    assert_eq!(format!("{:?}", rt.state.metadata), before);
}

#[test]
fn run_step_follows_gotos() {
    let graph = PassageGraph {
        nodes: vec![
            node("a", vec![], vec![script("goto:b")], vec![]),
            node("b", vec![], vec![script("count")], vec![]),
        ],
        edges: vec![],
    };
    let mut rt = NarrativeRuntime::new(config("a"), graph, StoryState::default());
    run_step(&mut rt, &engine(), "a");
    assert_eq!(rt.current_passage().map(|s| s.as_str()), Some("b"));
    assert_eq!(rt.state.get("n", Scope::Global).unwrap().as_int(), Some(1));
    assert!(rt.buffer.is_empty());
}

#[test]
fn run_step_reports_unknown_passages_and_cycles() {
    let mut rt = story();
    run_step(&mut rt, &engine(), "nowhere");
    assert!(rt.current_passage().is_none());
    assert!(matches!(rt.buffer[0], RenderCommand::Text(ref s) if s == "Error: passage not found: nowhere"));
    let graph = PassageGraph { nodes: vec![node("loop", vec![], vec![script("goto:loop")], vec![])], edges: vec![] };
    let mut rt = NarrativeRuntime::new(config("loop"), graph, StoryState::default());
    run_step(&mut rt, &engine(), "loop");
    assert!(matches!(rt.buffer[0], RenderCommand::Text(ref s) if s.starts_with("Error: script error: too many redirections")));
    assert!(matches!(navigate(&mut rt, &engine(), "loop"), Ok(ScriptSignal::Goto(_))));
}

#[test]
fn submit_navigates_to_the_chosen_passage() {
    let graph = PassageGraph {
        nodes: vec![
            node("a", vec![ContentNode::Text("A".into()), link("Go", "b")], vec![], vec![]),
            node("b", vec![ContentNode::Text("B".into())], vec![], vec![]),
        ],
        edges: vec![],
    };
    let mut rt = NarrativeRuntime::new(config("a"), graph, StoryState::default());
    assert!(matches!(play_step(&mut rt, &engine(), &F64), StepResult::Render(_)));
    assert_eq!(rt.current_passage().map(|s| s.as_str()), Some("a"));
    rt.state.set("t", Value::Int(1), Scope::Temp).unwrap();
    assert!(submit(&mut rt, &engine(), UserInput::Choice(3)).is_none());
    assert_eq!(rt.pending_choices.len(), 1);
    assert!(matches!(submit(&mut rt, &engine(), UserInput::Choice(0)), Some(Ok(ScriptSignal::Continue))));
    assert_eq!(rt.current_passage().map(|s| s.as_str()), Some("b"));
    assert_eq!(rt.state.visits, vec!["a".to_string(), "b".to_string()]);
    assert!(rt.pending_choices.is_empty());
    assert!(!rt.state.has("t", Scope::Temp));
    match play_step(&mut rt, &engine(), &F64) {
        StepResult::Render(cmds) => assert!(matches!(cmds[0], RenderCommand::Text(ref s) if s == "B")),
        other => panic!("unexpected {:?}", other),
    }
}

#[test]
fn first_step_shows_a_missing_start() {
    let graph = PassageGraph { nodes: vec![node("a", vec![], vec![], vec![])], edges: vec![] };
    let mut rt = NarrativeRuntime::new(config("gone"), graph, StoryState::default());
    match play_step(&mut rt, &engine(), &F64) {
        StepResult::Render(cmds) => {
            assert_eq!(cmds.len(), 1);
            assert!(matches!(cmds[0], RenderCommand::Text(ref s) if s == "Error: passage not found: gone"));
        }
        other => panic!("unexpected {:?}", other),
    }
    assert!(rt.current_passage().is_none());
}

#[test]
fn navigate_runs_stages_in_order_and_the_first_signal_wins() {
    let graph = PassageGraph {
        nodes: vec![
            node("a", vec![], vec![], vec![hook("on_passage_end", "count")]),
            node("b", vec![], vec![script("count"), script("goto:a"), script("count")], vec![hook("on_passage_start", "count")]),
        ],
        edges: vec![],
    };
    let mut rt = NarrativeRuntime::new(config("a"), graph, StoryState::default());
    // hooks are the story's: arriving at a runs the start hook
    assert!(matches!(navigate(&mut rt, &engine(), "a"), Ok(ScriptSignal::Continue)));
    assert_eq!(rt.current_passage().map(|s| s.as_str()), Some("a"));
    assert_eq!(rt.state.get("n", Scope::Global).unwrap().as_int(), Some(1));
    // end hook, start hook, first script, then the redirect stops it
    assert!(matches!(navigate(&mut rt, &engine(), "b"), Ok(ScriptSignal::Goto(ref t)) if t == "a"));
    assert_eq!(rt.state.get("n", Scope::Global).unwrap().as_int(), Some(4));
    assert_eq!(rt.current_passage().map(|s| s.as_str()), Some("b"));
}
