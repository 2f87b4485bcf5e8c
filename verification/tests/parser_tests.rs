use pathos::config::StoryConfig;
use pathos::content::ContentNode;
use pathos::format::{FormatParser, FormatRegistry, ParseOutput, Severity};
use pathos::parse_file;
use pathos::passage::PassageEdge;
use pathos::pathos_parser::{assemble_pathos, parse_frontmatter, split_source, split_into_passage_blocks, FrontmatterDecoder, PathosParser};
use pathos::render::{MockBackend, RenderBackend};
use pathos::report::{check_report, error_listing, has_errors};
use pathos::runtime::{NarrativeRuntime, NavAction};
use pathos::script::ScriptSignal;
use pathos::state::StoryState;
use pathos::toml_parser::{toml_error, TomlDecoder, TomlError, TomlHook, TomlParser, TomlPassage, TomlScript, TomlStory};
use pathos::types::StepResult;
use pathos::value::FloatArith;

struct F64;

impl FloatArith for F64 {
    fn float_from_int(&self, i: i64) -> u64 {
        (i as f64).to_bits()
    }
    fn float_add(&self, a: u64, b: u64) -> u64 {
        (f64::from_bits(a) + f64::from_bits(b)).to_bits()
    }
    fn float_sub(&self, a: u64, b: u64) -> u64 {
        (f64::from_bits(a) - f64::from_bits(b)).to_bits()
    }
    fn float_mul(&self, a: u64, b: u64) -> u64 {
        (f64::from_bits(a) * f64::from_bits(b)).to_bits()
    }
    fn float_div(&self, a: u64, b: u64) -> u64 {
        (f64::from_bits(a) / f64::from_bits(b)).to_bits()
    }
    fn float_parse(&self, s: &str) -> u64 {
        s.parse::<f64>().unwrap_or(f64::NAN).to_bits()
    }
    fn float_format(&self, a: u64) -> String {
        f64::from_bits(a).to_string()
    }
    fn float_debug(&self, a: u64) -> String {
        format!("{:?}", f64::from_bits(a))
    }
}


struct Yaml;

impl FrontmatterDecoder for Yaml {
    fn decode(&self, yaml: &str) -> Result<StoryConfig, String> {
        let v: serde_yaml::Value = serde_yaml::from_str(yaml).map_err(|e| e.to_string())?;
        let text = |k: &str| v.get(k).and_then(|x| x.as_str()).unwrap_or("").to_string();
        let version = v.get("version").and_then(|x| x.as_str()).unwrap_or("0.1.0").to_string();
        let slots = v.get("save_slots").and_then(|x| x.as_u64()).unwrap_or(10) as u8;
        Ok(StoryConfig::new(text("title"), text("author"), text("start"), version, slots))
    }
}

struct Toml;

fn missing(what: &str) -> TomlError {
    TomlError { message: format!("missing field `{}`", what), span: None }
}

fn str_field(t: &toml::Table, k: &str) -> Result<String, TomlError> {
    t.get(k).and_then(|x| x.as_str()).map(|s| s.to_string()).ok_or_else(|| missing(k))
}

impl TomlDecoder for Toml {
    fn decode(&self, source: &str) -> Result<TomlStory, TomlError> {
        let t: toml::Table = toml::from_str(source).map_err(|e| TomlError {
            message: e.to_string(),
            span: e.span().map(|r| (r.start, r.end)),
        })?;
        let story = t.get("story").and_then(|s| s.as_table()).ok_or_else(|| missing("story"))?;
        let mut passages = Vec::new();
        if let Some(ps) = t.get("passages").and_then(|p| p.as_table()) {
            for (id, p) in ps {
                let p = p.as_table().ok_or_else(|| missing("body"))?;
                let tags = p
                    .get("tags")
                    .and_then(|x| x.as_array())
                    .map(|a| a.iter().filter_map(|x| x.as_str().map(|s| s.to_string())).collect())
                    .unwrap_or_default();
                passages.push(TomlPassage { id: id.clone(), tags, body: str_field(p, "body")? });
            }
        }
        let mut scripts = Vec::new();
        for s in t.get("scripts").and_then(|x| x.as_array()).cloned().unwrap_or_default() {
            let s = s.as_table().cloned().unwrap_or_default();
            scripts.push(TomlScript {
                passage: str_field(&s, "passage")?,
                lang: str_field(&s, "lang")?,
                code: str_field(&s, "code")?,
            });
        }
        let mut hooks = Vec::new();
        for h in t.get("hooks").and_then(|x| x.as_array()).cloned().unwrap_or_default() {
            let h = h.as_table().cloned().unwrap_or_default();
            hooks.push(TomlHook {
                passage: str_field(&h, "passage")?,
                event: str_field(&h, "event")?,
                lang: str_field(&h, "lang")?,
                code: str_field(&h, "code")?,
            });
        }
        Ok(TomlStory {
            title: str_field(story, "title")?,
            author: str_field(story, "author")?,
            start: str_field(story, "start")?,
            version: story.get("version").and_then(|x| x.as_str()).unwrap_or("0.1.0").to_string(),
            save_slots: story.get("save_slots").and_then(|x| x.as_integer()).unwrap_or(10) as u8,
            passages,
            scripts,
            hooks,
        })
    }
}

fn pathos_parser() -> PathosParser {
    PathosParser { frontmatter: Box::new(Yaml), arith: Box::new(F64) }
}

fn toml_parser() -> TomlParser {
    TomlParser { decoder: Box::new(Toml), arith: Box::new(F64) }
}

fn parse_pathos(src: &str) -> ParseOutput {
    pathos_parser().parse(src).expect("the source is accepted")
}

fn parse_toml(src: &str) -> ParseOutput {
    toml_parser().parse(src).expect("the source is accepted")
}

/// Drive a navigation through its stages; scripts complete normally.
fn navigate(runtime: &mut NarrativeRuntime, target: &str) {
    let mut nav = runtime.navigate_to(target).unwrap();
    let mut last = None;
    loop {
        match runtime.advance(&mut nav, last.take()) {
            NavAction::RunScript(_) => last = Some(Ok(ScriptSignal::Continue)),
            NavAction::Done(_) => break,
            NavAction::Failed(e) => panic!("navigation failed: {:?}", e),
        }
    }
}

// ── .pathos ─────────────────────────────────────────────────────────────

#[test]
fn parse_minimal_pathos() {
    let src = "\
---
title: Test
author: Author
start: intro
---

# intro {opening}
Welcome to the story.

[[Go \u{2192} room]]

# room
You are in a room.
";
    let output = parse_pathos(src);
    assert_eq!(output.config.title, "Test");
    assert_eq!(output.config.start, "intro");
    assert_eq!(output.graph.nodes.len(), 2);
    assert!(!output.graph.edges.is_empty());
    assert_eq!(output.graph.edges[0].from, "intro");
    assert_eq!(output.graph.edges[0].to, "room");
}

#[test]
fn parse_pathos_with_hooks() {
    let src = "\
---
title: Test
author: A
start: intro
---

# intro
@hook: on_passage_start
```rhai
state.set('hp', 100);
```

Welcome.

# room
Some room.
";
    let output = parse_pathos(src);
    let intro = output.graph.get("intro").unwrap();
    assert_eq!(intro.hooks.len(), 1);
    assert_eq!(intro.hooks[0].event, "on_passage_start");
    assert_eq!(intro.hooks[0].script.lang, "rhai");
    assert!(intro.hooks[0].script.code.contains("state.set"));
}

#[test]
fn parse_pathos_with_scripts() {
    let src = "\
---
title: Test
author: A
start: intro
---

# intro
```rhai
state.set('wisdom', 1);
```

You feel wiser.

# room
A room.
";
    let output = parse_pathos(src);
    let intro = output.graph.get("intro").unwrap();
    assert_eq!(intro.scripts.len(), 1);
    assert_eq!(intro.scripts[0].lang, "rhai");
    assert!(intro.scripts[0].code.contains("state.set"));
}

#[test]
fn parse_pathos_inline_directives() {
    let src = "\
---
title: Test
author: A
start: intro
---

# intro
HP: {state: player.hp}

[[Fight \u{2192} battle]]
";
    let output = parse_pathos(src);
    let intro = output.graph.get("intro").unwrap();
    assert!(intro.body.iter().any(|n| matches!(n, ContentNode::StateInterp { .. })));
    assert!(intro.body.iter().any(|n| matches!(n, ContentNode::Link { .. })));
}

#[test]
fn parse_pathos_orphan_link_warning() {
    let src = "\
---
title: Test
author: A
start: intro
---

# intro
[[Go \u{2192} nowhere]]
";
    let output = parse_pathos(src);
    let warnings: Vec<_> = output.diagnostics.iter().filter(|d| d.severity == Severity::Warning).collect();
    assert!(!warnings.is_empty());
    assert!(warnings.iter().any(|d| d.message.contains("nowhere")));
}

#[test]
fn regression_frontmatter_blank_line_before_heading() {
    let src = "\
---
title: Blank Line Test
start: intro
---

# intro
Hello.
";
    let output = parse_pathos(src);
    let intro = output.graph.get("intro").expect("passage 'intro' should exist");
    assert_eq!(intro.id, "intro");
    assert!(intro.body.iter().any(|n| matches!(n, ContentNode::Text(s) if s.trim() == "Hello.")));
}

#[test]
fn regression_frontmatter_two_blank_lines_before_heading() {
    let src = "\
---
title: Two Blanks
start: start
---


# start
Begin.
";
    let output = parse_pathos(src);
    let start = output.graph.get("start").expect("passage 'start' should exist");
    assert_eq!(start.id, "start");
}

// ── .toml ───────────────────────────────────────────────────────────────

#[test]
fn parse_minimal_toml() {
    let src = r#"
[story]
title = "Test"
author = "Tester"
start = "intro"

[passages.intro]
body = "Hello world."
"#;
    let output = parse_toml(src);
    assert_eq!(output.config.title, "Test");
    assert_eq!(output.config.start, "intro");
    assert_eq!(output.graph.nodes.len(), 1);
    assert_eq!(output.diagnostics.len(), 0);
}

#[test]
fn parse_toml_with_hooks_and_scripts() {
    let src = r#"
[story]
title = "RPG"
author = "Dev"
start = "intro"

[passages.intro]
tags = ["start"]
body = "Welcome.\n\n[[Go → room]]"

[passages.room]
body = "A dark room."

[[scripts]]
passage = "intro"
lang = "rhai"
code = "state.set('hp', 100);"

[[hooks]]
passage = "intro"
event = "on_passage_start"
lang = "rhai"
code = "state.set('hp', 100);"
"#;
    let output = parse_toml(src);
    assert_eq!(output.diagnostics.len(), 0);
    let intro = output.graph.get("intro").unwrap();
    assert_eq!(intro.tags, vec!["start"]);
    assert_eq!(intro.scripts.len(), 1);
    assert_eq!(intro.scripts[0].lang, "rhai");
    assert_eq!(intro.hooks.len(), 1);
    assert_eq!(intro.hooks[0].event, "on_passage_start");
}

#[test]
fn toml_missing_start_passage() {
    let src = r#"
[story]
title = "Bad"
author = "X"
start = "nowhere"

[passages.intro]
body = "Hello."
"#;
    let output = parse_toml(src);
    assert_eq!(output.diagnostics.len(), 1);
    assert_eq!(output.diagnostics[0].severity, Severity::Error);
}

#[test]
fn toml_orphan_script_warning() {
    let src = r#"
[story]
title = "Test"
author = "A"
start = "intro"

[passages.intro]
body = "Hi."

[[scripts]]
passage = "ghost"
lang = "rhai"
code = "// nobody here"
"#;
    let output = parse_toml(src);
    assert_eq!(output.diagnostics.len(), 1);
    assert_eq!(output.diagnostics[0].severity, Severity::Warning);
}

// ── end to end ──────────────────────────────────────────────────────────

#[test]
fn parse_and_verify_structure() {
    let source = "\
---
title: Test Story
author: Tester
start: intro
---

# intro {opening}
Welcome to the test.

[[Go to room \u{2192} room]]

---

# room
You are in a room.

[[Continue \u{2192} end]]

---

# end
The story ends here.
";
    let output = parse_pathos(source);
    let errors: Vec<_> = output.diagnostics.iter().filter(|d| d.severity == Severity::Error).collect();
    assert!(errors.is_empty(), "parse errors: {errors:?}");
    let graph = output.graph;
    assert_eq!(graph.nodes.len(), 3);
    let intro = graph.get("intro").expect("intro missing");
    assert!(intro.tags.contains(&"opening".to_string()));
    assert!(intro.body.iter().any(|n| matches!(n, ContentNode::Text(s) if s.contains("Welcome"))));
    assert!(intro.body.iter().any(|n| matches!(n, ContentNode::Link { label, target, .. }
        if label == "Go to room" && target == "room")));
}

#[test]
fn verify_edges_built() {
    let source = "\
---
title: Test Story
author: Tester
start: intro
---

# intro {opening}
Welcome.

[[Go \u{2192} room]]

---

# room
A room.

[[Go \u{2192} end]]

---

# end
End.
";
    let output = parse_pathos(source);
    assert!(output.diagnostics.iter().all(|d| d.severity != Severity::Error));
    let graph = output.graph;
    assert_eq!(graph.edges.len(), 2);
    assert!(graph.edges.iter().any(|e: &PassageEdge| e.from == "intro" && e.to == "room"));
    assert!(graph.edges.iter().any(|e: &PassageEdge| e.from == "room" && e.to == "end"));
}

#[test]
fn verify_hook_parsing() {
    let source = "\
---
title: Hook Test
author: Tester
start: intro
---

# intro
Welcome.

---

# room
@hook: on_passage_start
```rhai
state.set(\"hook_fired\", true);
```

You are in a room.
";
    let output = parse_pathos(source);
    assert!(output.diagnostics.iter().all(|d| d.severity != Severity::Error));
    let room = output.graph.get("room").expect("room missing");
    assert_eq!(room.hooks.len(), 1);
    assert_eq!(room.hooks[0].event, "on_passage_start");
    assert_eq!(room.hooks[0].script.lang, "rhai");
    assert!(room.hooks[0].script.code.contains("hook_fired"));
}

#[test]
fn parser_diagnostics_orphan_link_warning() {
    let source = "\
---
title: Test
author: A
start: intro
---

# intro
[[Go \u{2192} nowhere]]
";
    let output = parse_pathos(source);
    let warnings: Vec<_> = output.diagnostics.iter().filter(|d| d.severity == Severity::Warning).collect();
    assert!(!warnings.is_empty(), "expected orphan link warning");
    assert!(warnings.iter().any(|d| d.message.contains("nowhere")));
}

#[test]
fn parser_diagnostics_missing_start() {
    let source = "\
---
title: Test
author: A
start: missing
---

# intro
Hello.
";
    let output = parse_pathos(source);
    let errors: Vec<_> = output.diagnostics.iter().filter(|d| d.severity == Severity::Error).collect();
    assert!(!errors.is_empty(), "expected missing start error");
}

#[test]
fn full_story_execution() {
    let source = "\
---
title: Execution Test
author: Tester
start: intro
---

# intro {opening}
Welcome to the test.

[[Go to room \u{2192} room]]

---

# room
You are in a room.

[[Continue \u{2192} end]]

---

# end
The story ends here.
";
    let output = parse_pathos(source);
    assert!(output.diagnostics.iter().all(|d| d.severity != Severity::Error));
    let mut runtime = NarrativeRuntime::new(output.config, output.graph, StoryState::default());
    let mut backend = MockBackend::new();
    navigate(&mut runtime, "intro");
    match runtime.step(&F64) {
        StepResult::Render(cmds) => {
            backend.render(cmds);
            let text = backend.text();
            assert!(text.contains("Welcome"), "expected Welcome, got: {text}");
        }
        other => panic!("expected Render, got {other:?}"),
    }
}

// ── more ────────────────────────────────────────────────────────────────

#[test]
fn messages_of_pathos_diagnostics() {
    let source = "---\ntitle: T\nstart: gone\n---\n# intro\n[[x -> nowhere]]\n";
    let output = parse_pathos(source);
    let messages: Vec<&str> = output.diagnostics.iter().map(|d| d.message.as_str()).collect();
    assert_eq!(
        messages,
        vec![
            "start passage 'gone' not found",
            "link target 'nowhere' not found (from 'intro')",
            "passage 'intro' is never linked to",
        ]
    );
}

#[test]
fn frontmatter_defaults_and_errors() {
    let (blank, d) = parse_frontmatter("  \n", Err(String::new()));
    assert_eq!(blank.save_slots, 10);
    assert_eq!(blank.version, "");
    assert!(d.is_empty());
    let (bad, d) = parse_frontmatter("title: [", Err("oops".to_string()));
    assert_eq!(bad.save_slots, 0);
    assert_eq!(d.len(), 1);
    assert_eq!(d[0].message, "frontmatter parse error: oops");
    assert_eq!(d[0].severity, Severity::Error);
    let (ok, d) = parse_frontmatter(
        "title: X",
        Ok(StoryConfig::new("X".into(), "".into(), "".into(), "0.1.0".into(), 10)),
    );
    assert_eq!(ok.title, "X");
    assert!(d.is_empty());
}

#[test]
fn decoder_defaults_through_the_parser() {
    let output = parse_pathos("---\ntitle: Only\nstart: a\n---\n# a\nx\n");
    assert_eq!(output.config.version, "0.1.0");
    assert_eq!(output.config.save_slots, 10);
    assert!(output.diagnostics.is_empty());
}

#[test]
fn source_without_frontmatter() {
    let mut diags = Vec::new();
    let (fm, blocks) = split_source("# one\nA\n---\n# two\nB\n", &mut diags);
    assert_eq!(fm, "");
    assert_eq!(blocks, vec!["# one\nA\n", "# two\nB\n"]);
    assert!(diags.is_empty());
}

#[test]
fn rule_separates_passages() {
    let mut diags = Vec::new();
    let blocks = split_into_passage_blocks("# a\ntext\n---\nmore\n", &mut diags);
    assert_eq!(blocks, vec!["# a\ntext\n", "more\n"]);
    let blocks = split_into_passage_blocks("# a\nx\n---\n# b\ny", &mut diags);
    assert_eq!(blocks, vec!["# a\nx\n", "# b\ny\n"]);
    assert!(diags.is_empty());
}

#[test]
fn hook_without_fence_is_body_text() {
    let output = parse_pathos("# p\n@hook: on_passage_start\npassed over\nkept\n");
    let p = output.graph.get("p").unwrap();
    assert!(p.hooks.is_empty());
    let text: String = p
        .body
        .iter()
        .filter_map(|n| match n {
            ContentNode::Text(s) => Some(s.clone()),
            _ => None,
        })
        .collect();
    assert_eq!(text, "@hook: on_passage_start\nkept\n");
}

#[test]
fn heading_tags_and_fence_language() {
    let output = parse_pathos("# hall { dark , , cold }\n```\ncode line\n```\n");
    let hall = output.graph.get("hall").unwrap();
    assert_eq!(hall.tags, vec!["dark", "cold"]);
    assert_eq!(hall.scripts[0].lang, "rhai");
    assert_eq!(hall.scripts[0].code, "code line");
}

#[test]
fn rejected_body_makes_no_output() {
    assert!(pathos_parser().parse("# p\n{set: x = \"}\n").is_none());
}

#[test]
fn toml_messages_and_orphan_hooks() {
    let src = r#"
[story]
title = "T"
author = "A"
start = ""

[passages.a]
body = "  "

[[hooks]]
passage = "zzz"
event = "on_passage_start"
lang = "rhai"
code = ""

[[hooks]]
passage = "zzz"
event = "on_passage_end"
lang = "rhai"
code = ""
"#;
    let output = parse_toml(src);
    let messages: Vec<&str> = output.diagnostics.iter().map(|d| d.message.as_str()).collect();
    assert_eq!(
        messages,
        vec!["hooks defined for nonexistent passage: zzz", "start passage '' not found in passages"]
    );
    assert!(output.graph.get("a").unwrap().body.is_empty());
}

#[test]
fn toml_error_output() {
    let out = toml_error(TomlError { message: "bad".into(), span: Some((3, 7)) });
    assert_eq!(out.diagnostics.len(), 1);
    assert_eq!(out.diagnostics[0].message, "TOML parse error: bad");
    let span = out.diagnostics[0].span.unwrap();
    assert_eq!((span.line, span.column, span.length), (3, 4, 4));
    assert_eq!(out.config.save_slots, 0);
    assert!(out.graph.nodes.is_empty());
}

#[test]
fn toml_decode_failure_through_the_parser() {
    let output = parse_toml("this is = = not toml");
    assert_eq!(output.diagnostics.len(), 1);
    assert!(output.diagnostics[0].message.starts_with("TOML parse error: "));
}

#[test]
fn parse_file_dispatches_by_extension() {
    let out = parse_file("story.txt", "", toml_parser(), pathos_parser()).unwrap();
    assert_eq!(out.diagnostics[0].message, "unsupported file format: .txt");
    let out = parse_file("dir/story.pathos", "# a\nhi\n", toml_parser(), pathos_parser()).unwrap();
    assert_eq!(out.graph.nodes.len(), 1);
    let out = parse_file("s.toml", "[story]\ntitle='t'\nauthor='a'\nstart='x'\n[passages.x]\nbody='b'\n", toml_parser(), pathos_parser()).unwrap();
    assert_eq!(out.graph.nodes[0].id, "x");
}

#[test]
fn registry_picks_the_first_parser_for_the_extension() {
    let registry = FormatRegistry::new(vec![Box::new(toml_parser()), Box::new(pathos_parser())]);
    assert_eq!(registry.parser_index("a.toml"), Some(0));
    assert_eq!(registry.parser_index("a.pathos"), Some(1));
    assert_eq!(registry.parser_index("pathos"), Some(1));
    assert_eq!(registry.parser_index("a.json"), None);
    let out = registry.parse("x.json", "{}").unwrap();
    assert_eq!(out.diagnostics[0].message, "unsupported file format: .json");
}

#[test]
fn check_report_lines() {
    let output = parse_pathos("---\ntitle: T\nauthor: A\nstart: s\n---\n# s\n[[go -> nowhere]]\n");
    assert_eq!(
        check_report(&output),
        vec![
            "Story: T",
            "Author: A",
            "Start passage: s",
            "Passages: 1",
            "",
            "[WARNING] link target 'nowhere' not found (from 's')",
            "",
            "0 error(s), 1 warning(s)",
        ]
    );
    assert!(!has_errors(&output.diagnostics));
    let clean = parse_pathos("---\nstart: s\n---\n# s\nok\n");
    assert_eq!(check_report(&clean).last().unwrap(), "No issues found.");
}

#[test]
fn error_listing_lines() {
    let output = parse_pathos("---\nstart: nope\n---\n# s\nok\n");
    assert!(has_errors(&output.diagnostics));
    assert_eq!(
        error_listing(&output.diagnostics),
        vec![
            "Errors found in story file:",
            "  [Error] start passage 'nope' not found",
            "  [Warning] passage 's' is never linked to",
        ]
    );
    let bad = toml_error(TomlError { message: "m".into(), span: Some((0, 2)) });
    assert_eq!(check_report(&bad)[5], "[ERROR] TOML parse error: m");
    assert_eq!(check_report(&bad)[6], "  at line 1, column 3");
}

#[test]
fn blank_lines_before_the_heading_are_skipped() {
    let config = StoryConfig::new("T".into(), "".into(), "intro".into(), "0.1.0".into(), 10);
    let blocks = vec!["\n  \n# intro\nHello.\n".to_string()];
    let out = assemble_pathos(config, Vec::new(), &blocks, &F64).unwrap();
    let p = &out.graph.nodes[0];
    assert_eq!(p.id, "intro");
    assert_eq!(p.body.len(), 1);
    assert!(matches!(p.body[0], ContentNode::Text(ref t) if t == "Hello.\n"));
    assert!(out.diagnostics.is_empty());
}

#[test]
fn passage_nothing_links_to_is_reported() {
    let output = parse_pathos(
        "---\ntitle: Unused\nstart: p1\n---\n\n# p1\nHello.\n{display: side}\n\n# side\nx\n\n# orphan\nNobody links here.\n",
    );
    let messages: Vec<&str> = output.diagnostics.iter().map(|d| d.message.as_str()).collect();
    assert_eq!(messages, vec!["passage 'orphan' is never linked to"]);
    assert_eq!(output.diagnostics[0].severity, Severity::Warning);
}

#[test]
fn links_inside_conditionals_make_edges() {
    let output = parse_pathos("---\nstart: p1\n---\n# p1\n{if: true}[[Go -> cave]]{else}{display: side}{end}\n# cave\nc\n# side\ns\n");
    let edges: Vec<(&str, &str)> = output.graph.edges.iter().map(|e| (e.from.as_str(), e.to.as_str())).collect();
    assert_eq!(edges, vec![("p1", "cave"), ("p1", "side")]);
    assert!(output.diagnostics.is_empty());
}

#[test]
fn unknown_languages_and_functions_are_reported() {
    let output = parse_pathos(
        "---\nstart: p\n---\n# p\n[[Go -> p {if: nope(1) && visited(\"p\")}]]\n{if: true}{if: bad()}x{end}{end}\n```lua\nx = 1\n```\n@hook: on_passage_start\n```js\ny\n```\n```RHAI\nz\n```\n",
    );
    let messages: Vec<&str> = output.diagnostics.iter().map(|d| d.message.as_str()).collect();
    assert_eq!(
        messages,
        vec![
            "unknown function 'nope' in condition (passage 'p')",
            "unknown function 'bad' in condition (passage 'p')",
            "unknown script language 'lua' (passage 'p')",
            "unknown script language 'js' (passage 'p')",
        ]
    );
    assert_eq!(output.diagnostics[2].severity, Severity::Error);
    assert!(has_errors(&output.diagnostics));
}
