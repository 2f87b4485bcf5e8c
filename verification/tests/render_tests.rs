use pathos::render::{MockBackend, RenderBackend};
use pathos::types::{Choice, RenderCommand};

#[test]
fn mock_backend_accumulates_text() {
    let mut backend = MockBackend::new();
    backend.render(vec![
        RenderCommand::Text("Hello".into()),
        RenderCommand::Text("World".into()),
    ]);
    assert_eq!(backend.output, vec!["Hello", "World"]);
}

#[test]
fn mock_backend_clear() {
    let mut backend = MockBackend::new();
    backend.render(vec![RenderCommand::Text("data".into())]);
    backend.clear();
    assert!(backend.output.is_empty());
}

#[test]
fn mock_backend_collects_choices() {
    let mut backend = MockBackend::new();
    backend.render(vec![RenderCommand::Choice(vec![Choice {
        label: "Go".into(),
        target: "room".into(),
        enabled: true,
        tooltip: None,
    }])]);
    let choices = backend.last_choices().unwrap();
    assert_eq!(choices.len(), 1);
    assert_eq!(choices[0].label, "Go");
}

#[test]
fn mock_backend_records_stream_and_separator() {
    let mut backend = MockBackend::new();
    backend.render(vec![
        RenderCommand::StreamBegin,
        RenderCommand::StreamToken("ab".into()),
        RenderCommand::StreamEnd,
        RenderCommand::Separator,
        RenderCommand::StreamFailed { fallback: "fb".into() },
        RenderCommand::Input { prompt: "name?".into(), default: None },
    ]);
    assert_eq!(
        backend.output,
        vec!["[stream begin]", "[token: ab]", "[stream end]", "---", "fb"]
    );
    assert_eq!(backend.text(), "[stream begin]\n[token: ab]\n[stream end]\n---\nfb");
}

#[test]
fn mock_backend_clear_command_empties_output() {
    let mut backend = MockBackend::new();
    backend.render(vec![RenderCommand::Text("a".into())]);
    backend.render(vec![RenderCommand::Clear, RenderCommand::Text("b".into())]);
    assert_eq!(backend.output, vec!["b"]);
}

#[test]
fn mock_backend_two_batches_as_one() {
    let mut one = MockBackend::new();
    one.render(vec![RenderCommand::Text("x".into())]);
    one.render(vec![RenderCommand::Text("y".into()), RenderCommand::Clear, RenderCommand::Text("z".into())]);
    let mut two = MockBackend::new();
    two.render(vec![
        RenderCommand::Text("x".into()),
        RenderCommand::Text("y".into()),
        RenderCommand::Clear,
        RenderCommand::Text("z".into()),
    ]);
    assert_eq!(one.output, two.output);
}

#[test]
fn mock_backend_no_choices_yet() {
    let backend = MockBackend::new();
    assert!(backend.last_choices().is_none());
    assert_eq!(backend.text(), "");
}

#[test]
fn last_choices_come_from_the_last_choice_command() {
    let choice = |t: &str| Choice { label: t.into(), target: t.into(), enabled: true, tooltip: None };
    let mut backend = MockBackend::new();
    backend.render(vec![
        RenderCommand::Choice(vec![choice("a")]),
        RenderCommand::Text("x".into()),
        RenderCommand::Choice(vec![choice("b"), choice("c")]),
        RenderCommand::Separator,
    ]);
    let last = backend.last_choices().unwrap();
    assert_eq!(last.len(), 2);
    assert_eq!(last[0].target, "b");
}

#[test]
fn batch_without_choices_keeps_the_last_choices() {
    let mut backend = MockBackend::new();
    backend.render(vec![RenderCommand::Choice(vec![Choice {
        label: "Go".into(),
        target: "room".into(),
        enabled: true,
        tooltip: None,
    }])]);
    backend.render(vec![RenderCommand::Text("more".into()), RenderCommand::Separator]);
    let last = backend.last_choices().unwrap();
    assert_eq!(last.len(), 1);
    assert_eq!(last[0].label, "Go");
}
