use pathos::config::StoryConfig;
use pathos::content::{AIMode, ContentNode};
use pathos::expression::Expression;
use pathos::format::{FormatParser, ParseOutput, Severity};
use pathos::passage::EdgeKind;
use pathos::pathos_parser::{FrontmatterDecoder, PathosParser};
use pathos::value::{FloatArith, Value};

struct F64;

impl FloatArith for F64 {
    fn float_from_int(&self, i: i64) -> u64 {
        (i as f64).to_bits()
    }
    fn float_add(&self, a: u64, b: u64) -> u64 {
        (f64::from_bits(a) + f64::from_bits(b)).to_bits()
    }
    fn float_sub(&self, a: u64, b: u64) -> u64 {
        (f64::from_bits(a) - f64::from_bits(b)).to_bits()
    }
    fn float_mul(&self, a: u64, b: u64) -> u64 {
        (f64::from_bits(a) * f64::from_bits(b)).to_bits()
    }
    fn float_div(&self, a: u64, b: u64) -> u64 {
        (f64::from_bits(a) / f64::from_bits(b)).to_bits()
    }
    fn float_parse(&self, s: &str) -> u64 {
        s.parse::<f64>().unwrap_or(f64::NAN).to_bits()
    }
    fn float_format(&self, a: u64) -> String {
        f64::from_bits(a).to_string()
    }
    fn float_debug(&self, a: u64) -> String {
        format!("{:?}", f64::from_bits(a))
    }
}


struct Yaml;

impl FrontmatterDecoder for Yaml {
    fn decode(&self, yaml: &str) -> Result<StoryConfig, String> {
        let v: serde_yaml::Value = serde_yaml::from_str(yaml).map_err(|e| e.to_string())?;
        let text = |k: &str| v.get(k).and_then(|x| x.as_str()).unwrap_or("").to_string();
        let version = v.get("version").and_then(|x| x.as_str()).unwrap_or("0.1.0").to_string();
        let slots = v.get("save_slots").and_then(|x| x.as_u64()).unwrap_or(10) as u8;
        Ok(StoryConfig::new(text("title"), text("author"), text("start"), version, slots))
    }
}


fn parse(src: &str) -> ParseOutput {
    PathosParser { frontmatter: Box::new(Yaml), arith: Box::new(F64) }.parse(src).expect("accepted")
}

fn text(n: &ContentNode) -> &str {
    match n {
        ContentNode::Text(s) => s,
        other => panic!("expected text, got {:?}", other),
    }
}

fn call(name: &str, arg: Value) -> Expression {
    Expression::Call { name: name.into(), args: vec![Expression::Literal(arg)] }
}

#[test]
fn snapshot_minimal_pathos() {
    let src = "\
---
title: Test Story
author: Author
start: intro
---

# intro {opening}
Welcome to the story.

[[Go to room -> room]]

# room {safe}
You are in a room. The door is locked.
";
    let out = parse(src);
    assert_eq!(out.config.title, "Test Story");
    assert_eq!(out.config.author, "Author");
    assert_eq!(out.config.start, "intro");
    assert_eq!(out.config.version, "0.1.0");
    assert_eq!(out.config.save_slots, 10);
    assert_eq!(out.graph.nodes.len(), 2);
    let intro = &out.graph.nodes[0];
    assert_eq!(intro.id, "intro");
    assert_eq!(intro.tags, vec!["opening"]);
    assert_eq!(intro.body.len(), 3);
    assert_eq!(text(&intro.body[0]), "Welcome to the story.\n\n");
    assert!(matches!(intro.body[1], ContentNode::Link { ref label, ref target, enabled_if: None }
        if label == "Go to room" && target == "room"));
    assert_eq!(text(&intro.body[2]), "\n\n");
    let room = &out.graph.nodes[1];
    assert_eq!(room.tags, vec!["safe"]);
    assert_eq!(text(&room.body[0]), "You are in a room. The door is locked.\n");
    assert_eq!(out.graph.edges.len(), 1);
    assert_eq!((out.graph.edges[0].from.as_str(), out.graph.edges[0].to.as_str()), ("intro", "room"));
    assert_eq!(out.graph.edges[0].kind, EdgeKind::Link);
    assert!(out.diagnostics.is_empty());
}

#[test]
fn snapshot_passage_with_tags_and_scripts() {
    let src = "\
---
title: Tagged
start: start
---

# start {opening, safe}
Before you stands a door.

```rhai
state.set(\"door_locked\", true);
```

# end
The end.
";
    let out = parse(src);
    assert_eq!(out.config.author, "");
    let start = &out.graph.nodes[0];
    assert_eq!(start.tags, vec!["opening", "safe"]);
    assert_eq!(start.scripts.len(), 1);
    assert_eq!(start.scripts[0].lang, "rhai");
    assert_eq!(start.scripts[0].code, "state.set(\"door_locked\", true);");
    assert_eq!(start.body.len(), 1);
    assert_eq!(text(&start.body[0]), "Before you stands a door.\n\n\n");
    assert_eq!(text(&out.graph.nodes[1].body[0]), "The end.\n");
    assert!(out.graph.edges.is_empty());
    let messages: Vec<&str> = out.diagnostics.iter().map(|d| d.message.as_str()).collect();
    assert_eq!(messages, vec!["passage 'end' is never linked to"]);
    assert_eq!(out.diagnostics[0].severity, Severity::Warning);
}

#[test]
fn snapshot_if_else_end() {
    let src = "\
---
title: Conditional
start: p1
---

# p1
{if: visited(\"cave\")}
  You've been to the cave before.
{else}
  A dark opening looms ahead.
{end}
";
    let out = parse(src);
    let p1 = &out.graph.nodes[0];
    assert_eq!(p1.body.len(), 2);
    match &p1.body[0] {
        ContentNode::Conditional { condition, then_branch, else_branch } => {
            assert_eq!(*condition, call("visited", Value::String("cave".into())));
            assert_eq!(then_branch.len(), 1);
            assert_eq!(text(&then_branch[0]), "\n  You've been to the cave before.\n");
            assert_eq!(else_branch.len(), 1);
            assert_eq!(text(&else_branch[0]), "\n  A dark opening looms ahead.\n");
        }
        other => panic!("expected Conditional, got {:?}", other),
    }
    assert_eq!(text(&p1.body[1]), "\n");
    assert!(out.diagnostics.is_empty());
}

#[test]
fn snapshot_conditional_link() {
    let src = "\
---
title: CondLink
start: p1
---

# p1
[[Enter the void -> void {if: has_tag(\"brave\")}]]
[[Go back -> back]]

# void
It is dark.

# back
You retreat.
";
    let out = parse(src);
    let p1 = &out.graph.nodes[0];
    assert_eq!(p1.body.len(), 4);
    match &p1.body[0] {
        ContentNode::Link { label, target, enabled_if } => {
            assert_eq!(label, "Enter the void");
            assert_eq!(target, "void");
            assert_eq!(*enabled_if, Some(call("has_tag", Value::String("brave".into()))));
        }
        other => panic!("expected Link, got {:?}", other),
    }
    assert_eq!(text(&p1.body[1]), "\n");
    assert!(matches!(p1.body[2], ContentNode::Link { ref target, enabled_if: None, .. } if target == "back"));
    assert_eq!(out.graph.nodes.len(), 3);
    assert_eq!(out.graph.edges.len(), 2);
    assert_eq!(out.graph.edges[0].to, "void");
    assert!(out.diagnostics.is_empty());
}

#[test]
fn snapshot_display_embed() {
    let src = "\
---
title: Display
start: main
---

# main
Hello. {display: sidebar}

# sidebar
This is a sidebar.
";
    let out = parse(src);
    let main = &out.graph.nodes[0];
    assert_eq!(text(&main.body[0]), "Hello. ");
    assert!(matches!(main.body[1], ContentNode::Display { ref passage } if passage == "sidebar"));
    assert_eq!(text(&main.body[2]), "\n\n");
    assert_eq!(out.graph.edges.len(), 1);
    assert_eq!(out.graph.edges[0].kind, EdgeKind::Display);
    assert_eq!(out.graph.edges[0].to, "sidebar");
    assert!(out.diagnostics.is_empty());
}

#[test]
fn snapshot_ai_block() {
    let src = "\
---
title: AI
start: p1
---

# p1
{ai: Describe the room | You see a room.}
{ai-stream: Narrate the journey | The path winds on.}
";
    let out = parse(src);
    let p1 = &out.graph.nodes[0];
    assert_eq!(p1.body.len(), 4);
    assert!(matches!(p1.body[0], ContentNode::AIBlock { mode: AIMode::Blocking, ref prompt, ref fallback, cache_key: None }
        if prompt == "Describe the room" && fallback == "You see a room."));
    assert_eq!(text(&p1.body[1]), "\n");
    assert!(matches!(p1.body[2], ContentNode::AIBlock { mode: AIMode::Streaming, ref prompt, ref fallback, .. }
        if prompt == "Narrate the journey" && fallback == "The path winds on."));
    assert!(out.diagnostics.is_empty());
}

#[test]
fn snapshot_hook_directive() {
    let src = "\
---
title: Hooks
start: p1
---

# p1
@hook: on_passage_start
```rhai
state.set(\"entered\", true);
```

Welcome!

# p2
@hook: on_passage_end
```rhai
state.set(\"left\", true);
```

Goodbye.
";
    let out = parse(src);
    let p1 = &out.graph.nodes[0];
    assert_eq!(p1.hooks.len(), 1);
    assert_eq!(p1.hooks[0].event, "on_passage_start");
    assert_eq!(p1.hooks[0].script.code, "state.set(\"entered\", true);");
    assert_eq!(text(&p1.body[0]), "\nWelcome!\n\n");
    let p2 = &out.graph.nodes[1];
    assert_eq!(p2.hooks[0].event, "on_passage_end");
    assert_eq!(p2.hooks[0].script.lang, "rhai");
    assert_eq!(text(&p2.body[0]), "\nGoodbye.\n");
    let messages: Vec<&str> = out.diagnostics.iter().map(|d| d.message.as_str()).collect();
    assert_eq!(messages, vec!["passage 'p2' is never linked to"]);
}

#[test]
fn snapshot_comments() {
    let src = "\
---
title: Comments
start: p1
---

# p1
visible text // this is a comment
<!-- block comment -->
after block
";
    let out = parse(src);
    let texts: Vec<&str> = out.graph.nodes[0].body.iter().map(text).collect();
    assert_eq!(texts, vec!["visible text ", "\n", "\nafter block\n"]);
    assert!(out.diagnostics.is_empty());
}

#[test]
fn snapshot_expression_forms() {
    let src = "\
---
title: Expr
start: p1
---

# p1
{if: visited(\"cave\") && !has_tag(\"scared\") && count(\"cave\") < 3}
  Welcome back.
{end}

[[Go deeper -> deep {if: random(1, 10) > 5}]]

# deep
The depths.
";
    let out = parse(src);
    let p1 = &out.graph.nodes[0];
    match &p1.body[0] {
        ContentNode::Conditional { condition, then_branch, else_branch } => {
            let expected = Expression::And(
                Box::new(Expression::And(
                    Box::new(call("visited", Value::String("cave".into()))),
                    Box::new(Expression::Not(Box::new(call("has_tag", Value::String("scared".into()))))),
                )),
                Box::new(Expression::Lt(
                    Box::new(call("count", Value::String("cave".into()))),
                    Box::new(Expression::Literal(Value::Int(3))),
                )),
            );
            assert_eq!(*condition, expected);
            assert_eq!(text(&then_branch[0]), "\n  Welcome back.\n");
            assert!(else_branch.is_empty());
        }
        other => panic!("expected Conditional, got {:?}", other),
    }
    match &p1.body[2] {
        ContentNode::Link { target, enabled_if, .. } => {
            assert_eq!(target, "deep");
            let random = Expression::Call {
                name: "random".into(),
                args: vec![Expression::Literal(Value::Int(1)), Expression::Literal(Value::Int(10))],
            };
            let expected = Expression::Gt(Box::new(random), Box::new(Expression::Literal(Value::Int(5))));
            assert_eq!(*enabled_if, Some(expected));
        }
        other => panic!("expected Link, got {:?}", other),
    }
    assert!(out.diagnostics.is_empty());
}

#[test]
fn snapshot_start_passage_not_found() {
    let src = "\
---
title: BadStart
start: nowhere
---

# intro
Hello.
";
    let out = parse(src);
    assert_eq!(out.diagnostics.len(), 2);
    assert_eq!(out.diagnostics[0].severity, Severity::Error);
    assert_eq!(out.diagnostics[0].message, "start passage 'nowhere' not found");
    assert!(out.diagnostics[0].span.is_none());
    assert_eq!(out.diagnostics[1].severity, Severity::Warning);
    assert_eq!(out.diagnostics[1].message, "passage 'intro' is never linked to");
}

#[test]
fn snapshot_unknown_function_in_if() {
    let src = "\
---
title: UnknownFn
start: p1
---

# p1
{if: foobar(1)}
  yes
{end}
";
    let out = parse(src);
    match &out.graph.nodes[0].body[0] {
        ContentNode::Conditional { condition, then_branch, .. } => {
            assert_eq!(*condition, call("foobar", Value::Int(1)));
            assert_eq!(text(&then_branch[0]), "\n  yes\n");
        }
        other => panic!("expected Conditional, got {:?}", other),
    }
    assert_eq!(out.diagnostics.len(), 1);
    assert_eq!(out.diagnostics[0].severity, Severity::Warning);
    assert_eq!(out.diagnostics[0].message, "unknown function 'foobar' in condition (passage 'p1')");
}

#[test]
fn snapshot_unused_passage_warning() {
    let src = "\
---
title: Unused
start: p1
---

# p1
Hello.

# orphan
Nobody links here.
";
    let out = parse(src);
    assert_eq!(out.graph.nodes.len(), 2);
    assert!(out.graph.edges.is_empty());
    assert_eq!(out.diagnostics.len(), 1);
    assert_eq!(out.diagnostics[0].severity, Severity::Warning);
    assert!(out.diagnostics[0].message.contains("orphan"));
    assert!(!out.diagnostics.iter().any(|d| d.message.contains("p1")));
}
