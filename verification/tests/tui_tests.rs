use pathos::render::RenderBackend;
use pathos::tui::{edit_input, input_line, ChoiceStep, InputKey, InputStep, TuiAction, TuiScreen};
use pathos::types::{Choice, RenderCommand, StepResult};

fn choice(label: &str, enabled: bool) -> Choice {
    Choice { label: label.into(), target: "t".into(), enabled, tooltip: None }
}

#[test]
fn screen_streams_into_the_last_line() {
    let mut s = TuiScreen::new();
    s.apply_commands(vec![
        RenderCommand::Text("Hello".into()),
        RenderCommand::StreamBegin,
        RenderCommand::StreamToken(", wor".into()),
        RenderCommand::StreamToken("ld".into()),
        RenderCommand::StreamEnd,
        RenderCommand::StreamToken("alone".into()),
        RenderCommand::Separator,
        RenderCommand::StreamFailed { fallback: "fb".into() },
    ]);
    assert_eq!(s.text_lines, vec!["Hello, world", "alone", "", "fb"]);
    assert!(!s.in_stream);
    assert_eq!(s.text(), "Hello, world\nalone\n\nfb");
}

#[test]
fn screen_stream_without_lines_starts_one() {
    let mut s = TuiScreen::new();
    s.apply_commands(vec![RenderCommand::StreamBegin, RenderCommand::StreamToken("x".into())]);
    assert_eq!(s.text_lines, vec!["x"]);
    assert!(s.in_stream);
}

#[test]
fn screen_clear_and_choices() {
    let mut s = TuiScreen::new();
    s.apply_commands(vec![
        RenderCommand::Text("a".into()),
        RenderCommand::Choice(vec![choice("Go", true), choice("Stay", false)]),
    ]);
    assert_eq!(s.choice_items(), vec![" [1] Go", " [x] Stay"]);
    s.apply_commands(vec![RenderCommand::Clear]);
    assert!(s.text_lines.is_empty());
    assert!(s.choices.is_empty());
    s.apply_commands(vec![RenderCommand::Text("b".into())]);
    s.clear();
    assert!(s.text_lines.is_empty());
}

#[test]
fn choice_keys() {
    let mut s = TuiScreen::new();
    s.apply_commands(vec![RenderCommand::Choice(vec![choice("a", true), choice("b", true)])]);
    assert_eq!(s.choice_key('1'), Some(0));
    assert_eq!(s.choice_key('2'), Some(1));
    assert_eq!(s.choice_key('3'), None);
    assert_eq!(s.choice_key('0'), None);
    assert_eq!(s.choice_key('q'), None);
}

#[test]
fn step_results_to_actions() {
    let mut s = TuiScreen::new();
    s.push_line("old".into());
    let a = s.on_step(StepResult::Render(vec![
        RenderCommand::Text("new".into()),
        RenderCommand::Choice(vec![choice("c", true)]),
    ]));
    assert!(matches!(a, TuiAction::Choose { redraw: true }));
    assert_eq!(s.text_lines, vec!["new"]);
    assert!(matches!(s.on_step(StepResult::WaitingForChoice), TuiAction::Choose { redraw: false }));

    let mut e = TuiScreen::new();
    assert!(matches!(e.on_step(StepResult::Render(vec![])), TuiAction::Show));
    assert!(matches!(e.on_step(StepResult::WaitingForChoice), TuiAction::Choose { redraw: true }));
    assert_eq!(e.text_lines, vec!["[Internal: WaitingForChoice with no choices]"]);

    let mut i = TuiScreen::new();
    match i.on_step(StepResult::WaitingForInput { prompt: "Name?".into(), default: Some("Ann".into()) }) {
        TuiAction::Ask { default } => assert_eq!(default, Some("Ann".to_string())),
        other => panic!("unexpected {:?}", other),
    }
    assert_eq!(i.text_lines, vec!["Name?"]);

    let mut f = TuiScreen::new();
    assert!(matches!(f.on_step(StepResult::Finished), TuiAction::End));
    assert_eq!(f.text_lines, vec!["", "— The End —"]);
}

#[test]
fn start_failure_line() {
    let mut s = TuiScreen::new();
    s.start_failed("intro", "passage not found: intro");
    assert_eq!(s.text_lines, vec!["Error navigating to 'intro': passage not found: intro"]);
}

#[test]
fn typing_a_line() {
    let mut input: Vec<char> = "ab".chars().collect();
    assert!(matches!(edit_input(&mut input, InputKey::Char('c')), InputStep::Editing));
    assert!(matches!(edit_input(&mut input, InputKey::Backspace), InputStep::Editing));
    assert!(matches!(edit_input(&mut input, InputKey::Other), InputStep::Editing));
    assert_eq!(input_line(&input), "> ab");
    match edit_input(&mut input, InputKey::Enter) {
        InputStep::Submit(s) => assert_eq!(s, "ab"),
        other => panic!("unexpected {:?}", other),
    }
    assert!(matches!(edit_input(&mut input, InputKey::Esc), InputStep::Cancel));
    let mut empty: Vec<char> = Vec::new();
    edit_input(&mut empty, InputKey::Backspace);
    assert!(empty.is_empty());
}

#[test]
fn keys_while_a_choice_is_awaited() {
    let mut s = TuiScreen::new();
    s.on_step(StepResult::Render(vec![RenderCommand::Choice(vec![
        Choice { label: "a".into(), target: "a".into(), enabled: true, tooltip: None },
        Choice { label: "b".into(), target: "b".into(), enabled: true, tooltip: None },
    ])]));
    assert!(matches!(s.on_choice_key(InputKey::Char('q')), ChoiceStep::Quit));
    assert!(matches!(s.on_choice_key(InputKey::Esc), ChoiceStep::Quit));
    assert!(matches!(s.on_choice_key(InputKey::Char('2')), ChoiceStep::Pick(1)));
    assert!(matches!(s.on_choice_key(InputKey::Char('3')), ChoiceStep::Wait));
    assert!(matches!(s.on_choice_key(InputKey::Enter), ChoiceStep::Wait));
}
