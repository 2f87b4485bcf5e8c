use pathos::content::{AIMode, ContentNode, MacroArg};
use pathos::expression::Expression;
use pathos::inline::{parse_inline, parse_value_literal, split_args, try_parse_inline};
use pathos::value::{FloatArith, Value};

struct F64;

impl FloatArith for F64 {
    fn float_from_int(&self, i: i64) -> u64 {
        (i as f64).to_bits()
    }
    fn float_add(&self, a: u64, b: u64) -> u64 {
        (f64::from_bits(a) + f64::from_bits(b)).to_bits()
    }
    fn float_sub(&self, a: u64, b: u64) -> u64 {
        (f64::from_bits(a) - f64::from_bits(b)).to_bits()
    }
    fn float_mul(&self, a: u64, b: u64) -> u64 {
        (f64::from_bits(a) * f64::from_bits(b)).to_bits()
    }
    fn float_div(&self, a: u64, b: u64) -> u64 {
        (f64::from_bits(a) / f64::from_bits(b)).to_bits()
    }
    fn float_parse(&self, s: &str) -> u64 {
        s.parse::<f64>().unwrap_or(f64::NAN).to_bits()
    }
    fn float_format(&self, a: u64) -> String {
        f64::from_bits(a).to_string()
    }
    fn float_debug(&self, a: u64) -> String {
        format!("{:?}", f64::from_bits(a))
    }
}


#[test]
fn parse_plain_text() {
    let (nodes, diags) = parse_inline("Hello world.", &F64);
    assert!(diags.is_empty());
    assert_eq!(nodes.len(), 1);
    assert!(matches!(nodes[0], ContentNode::Text(ref s) if s == "Hello world."));
}

#[test]
fn parse_simple_link() {
    let (nodes, diags) = parse_inline("[[Go \u{2192} room]]", &F64);
    assert!(diags.is_empty());
    assert_eq!(nodes.len(), 1);
    assert!(matches!(nodes[0], ContentNode::Link { ref label, ref target, .. }
        if label == "Go" && target == "room"));
}

#[test]
fn parse_link_with_arrow_style() {
    let (nodes, diags) = parse_inline("[[Enter -> dungeon]]", &F64);
    assert!(diags.is_empty());
    assert!(matches!(nodes[0], ContentNode::Link { ref label, ref target, .. }
        if label == "Enter" && target == "dungeon"));
}

#[test]
fn parse_state_interp() {
    let (nodes, diags) = parse_inline(r#"{state: "player.hp"}"#, &F64);
    assert!(diags.is_empty());
    assert_eq!(nodes.len(), 1);
    assert!(matches!(nodes[0], ContentNode::StateInterp { ref path } if path == "player.hp"));
}

#[test]
fn parse_state_interp_unquoted() {
    let (nodes, diags) = parse_inline("{state: player.hp}", &F64);
    assert!(diags.is_empty());
    assert!(matches!(nodes[0], ContentNode::StateInterp { ref path } if path == "player.hp"));
}

#[test]
fn parse_set_macro() {
    let (nodes, diags) = parse_inline("{set: hp = 10}", &F64);
    assert!(diags.is_empty());
    assert_eq!(nodes.len(), 1);
    match &nodes[0] {
        ContentNode::Macro { name, args } => {
            assert_eq!(name, "set");
            assert_eq!(args.len(), 1);
        }
        _ => panic!("expected Macro"),
    }
}

#[test]
fn parse_display_directive() {
    let (nodes, diags) = parse_inline(r#"{display: "room"}"#, &F64);
    assert!(diags.is_empty());
    assert!(matches!(nodes[0], ContentNode::Display { ref passage } if passage == "room"));
}

#[test]
fn parse_ai_block() {
    let (nodes, diags) = parse_inline("{ai: describe | fallback text}", &F64);
    assert!(diags.is_empty());
    assert!(matches!(nodes[0], ContentNode::AIBlock {
        mode: AIMode::Blocking, ref prompt, ref fallback, ..
    } if prompt == "describe" && fallback == "fallback text"));
}

#[test]
fn parse_ai_stream_block() {
    let (nodes, diags) = parse_inline("{ai-stream: describe room | A room.}", &F64);
    assert!(diags.is_empty());
    assert!(matches!(nodes[0], ContentNode::AIBlock {
        mode: AIMode::Streaming, ref prompt, ..
    } if prompt == "describe room"));
}

#[test]
fn parse_mixed_content() {
    let (nodes, diags) = parse_inline("You see a [[door \u{2192} hallway]]. {state: player.hp} HP remaining.", &F64);
    assert!(diags.is_empty());
    assert_eq!(nodes.len(), 5);
}

#[test]
fn parse_link_in_text() {
    let (nodes, diags) = parse_inline("Go [[north \u{2192} forest]] now.", &F64);
    assert!(diags.is_empty());
    assert_eq!(nodes.len(), 3);
    assert!(matches!(nodes[0], ContentNode::Text(ref s) if s == "Go "));
    assert!(matches!(nodes[1], ContentNode::Link { .. }));
    assert!(matches!(nodes[2], ContentNode::Text(ref s) if s == " now."));
}

#[test]
fn regression_pos_advances_past_directive() {
    let (nodes, diags) = parse_inline("{state: hp} and {display: room}", &F64);
    assert!(diags.is_empty());
    assert_eq!(nodes.len(), 3);
    assert!(matches!(nodes[0], ContentNode::StateInterp { .. }));
    assert!(matches!(nodes[1], ContentNode::Text(ref s) if s == " and "));
    assert!(matches!(nodes[2], ContentNode::Display { .. }));
}

#[test]
fn regression_pos_adjacent_directives() {
    let (nodes, diags) = parse_inline("{state: hp}{display: room}", &F64);
    assert!(diags.is_empty());
    assert_eq!(nodes.len(), 2);
    assert!(matches!(nodes[0], ContentNode::StateInterp { .. }));
    assert!(matches!(nodes[1], ContentNode::Display { .. }));
}

// ── conditional blocks ─────────────────────────────────────────────

#[test]
fn parse_simple_if_end() {
    let (nodes, diags) = parse_inline("{if: $hp > 0} alive {end}", &F64);
    assert!(diags.is_empty(), "unexpected diagnostics: {:?}", diags);
    assert_eq!(nodes.len(), 1);
    match &nodes[0] {
        ContentNode::Conditional { condition, then_branch, else_branch } => {
            assert!(matches!(condition, Expression::Gt(_, _)));
            assert_eq!(then_branch.len(), 1);
            assert!(matches!(then_branch[0], ContentNode::Text(ref s) if s == " alive "));
            assert!(else_branch.is_empty());
        }
        other => panic!("expected Conditional, got {:?}", other),
    }
}

#[test]
fn parse_if_else_end() {
    let (nodes, diags) = parse_inline("{if: $wisdom > 2} wise {else} foolish {end}", &F64);
    assert!(diags.is_empty());
    assert_eq!(nodes.len(), 1);
    match &nodes[0] {
        ContentNode::Conditional { then_branch, else_branch, .. } => {
            assert_eq!(then_branch.len(), 1);
            assert!(matches!(then_branch[0], ContentNode::Text(ref s) if s == " wise "));
            assert_eq!(else_branch.len(), 1);
            assert!(matches!(else_branch[0], ContentNode::Text(ref s) if s == " foolish "));
        }
        other => panic!("expected Conditional, got {:?}", other),
    }
}

#[test]
fn parse_nested_if_blocks() {
    let src = "{if: $a > 0} a_pos {if: $b > 0} ab_pos {else} a_pos_b_neg {end} {else} a_neg {end}";
    let (nodes, diags) = parse_inline(src, &F64);
    assert!(diags.is_empty());
    assert_eq!(nodes.len(), 1);
    match &nodes[0] {
        ContentNode::Conditional { then_branch, else_branch, .. } => {
            assert!(!then_branch.is_empty());
            assert_eq!(else_branch.len(), 1);
            assert!(matches!(else_branch[0], ContentNode::Text(ref s) if s == " a_neg "));
        }
        other => panic!("expected Conditional, got {:?}", other),
    }
}

#[test]
fn parse_if_with_inline_directives_inside() {
    let src = "{if: $hp > 0} HP: {state: player.hp} [[heal -> healer]] {end}";
    let (nodes, diags) = parse_inline(src, &F64);
    assert!(diags.is_empty());
    assert_eq!(nodes.len(), 1);
    match &nodes[0] {
        ContentNode::Conditional { then_branch, .. } => {
            assert!(then_branch.iter().any(|n| matches!(n, ContentNode::StateInterp { .. })));
            assert!(then_branch.iter().any(|n| matches!(n, ContentNode::Link { .. })));
        }
        other => panic!("expected Conditional, got {:?}", other),
    }
}

#[test]
fn parse_standalone_else_diagnostic() {
    let (_nodes, diags) = parse_inline("text {else} more text", &F64);
    assert!(!diags.is_empty());
    assert!(diags.iter().any(|d| d.message.contains("{else}")),
        "expected diagnostic for orphan {{else}}, got: {:?}", diags);
}

#[test]
fn parse_standalone_end_diagnostic() {
    let (_nodes, diags) = parse_inline("text {end} more", &F64);
    assert!(!diags.is_empty());
    assert!(diags.iter().any(|d| d.message.contains("{end}")),
        "expected diagnostic for orphan {{end}}, got: {:?}", diags);
}

#[test]
fn regression_pos_advances_past_conditional() {
    let (nodes, diags) = parse_inline("{if: true} then {end} follow-up text", &F64);
    assert!(diags.is_empty());
    assert_eq!(nodes.len(), 2);
    assert!(matches!(nodes[0], ContentNode::Conditional { .. }));
    assert!(matches!(nodes[1], ContentNode::Text(ref s) if s == " follow-up text"));
}

#[test]
fn regression_pos_adjacent_to_conditional() {
    let (nodes, diags) = parse_inline("{if: true} then {end}{state: hp}", &F64);
    assert!(diags.is_empty());
    assert_eq!(nodes.len(), 2);
    assert!(matches!(nodes[0], ContentNode::Conditional { .. }));
    assert!(matches!(nodes[1], ContentNode::StateInterp { .. }));
}



// ── more ────────────────────────────────────────────────────────────────

#[test]
fn comments_are_dropped() {
    let (nodes, diags) = parse_inline("a<!-- note -->b// rest of line\nc", &F64);
    assert!(diags.is_empty());
    let texts: Vec<String> = nodes
        .iter()
        .map(|n| match n {
            ContentNode::Text(s) => s.clone(),
            other => panic!("unexpected node {:?}", other),
        })
        .collect();
    assert_eq!(texts.concat(), "ab\nc");
}

#[test]
fn set_macro_argument_value() {
    let (nodes, _) = parse_inline("{set: gold = 5}", &F64);
    match &nodes[0] {
        ContentNode::Macro { name, args } => {
            assert_eq!(name, "set");
            match &args[0] {
                MacroArg::KeyValue(k, v) => {
                    assert_eq!(k, "gold");
                    assert_eq!(*v, Value::Int(5));
                }
                other => panic!("unexpected argument {:?}", other),
            }
        }
        other => panic!("expected Macro, got {:?}", other),
    }
}

#[test]
fn conditional_link() {
    let (nodes, diags) = parse_inline("[[Open -> vault]]{if: $key}", &F64);
    assert!(diags.is_empty());
    assert!(matches!(nodes[0], ContentNode::Link { ref target, .. } if target == "vault"));
}

#[test]
fn ai_cached_block_with_key() {
    let (nodes, diags) = parse_inline("{ai-cached: intro_text | Hello there}", &F64);
    assert!(diags.is_empty());
    assert!(matches!(nodes[0], ContentNode::AIBlock { mode: AIMode::Cached, .. }));
}

#[test]
fn value_literals() {
    assert_eq!(parse_value_literal(" true ", &F64), Value::Bool(true));
    assert_eq!(parse_value_literal("null", &F64), Value::Null);
    assert_eq!(parse_value_literal("'x'", &F64), Value::String("x".into()));
    assert_eq!(parse_value_literal("-12", &F64), Value::Int(-12));
    assert_eq!(parse_value_literal("1.5", &F64), Value::Float(1.5f64.to_bits()));
    assert_eq!(parse_value_literal("plain", &F64), Value::String("plain".into()));
}

#[test]
fn split_args_respects_quotes_and_brackets() {
    assert_eq!(split_args("a, \"b, c\", {d, e}"), vec!["a", " \"b, c\"", " {d, e}"]);
    assert_eq!(split_args("x, [y, z]"), vec!["x", " [y", " z]"]);
    assert_eq!(split_args(""), vec![""]);
}

#[test]
fn lone_quote_value_is_rejected() {
    assert!(try_parse_inline("{set: x = \"}", &F64).is_none());
    assert!(try_parse_inline("{set: x = 1}", &F64).is_some());
}

#[test]
fn conditional_condition_is_parsed() {
    let (nodes, _) = parse_inline("{if: $gold >= 10}rich{end}", &F64);
    match &nodes[0] {
        ContentNode::Conditional { condition, .. } => {
            assert_eq!(
                *condition,
                Expression::Gte(
                    Box::new(Expression::StateVar("gold".into())),
                    Box::new(Expression::Literal(Value::Int(10))),
                )
            );
        }
        other => panic!("expected Conditional, got {:?}", other),
    }
}

#[test]
fn bodies_without_directives_always_parse() {
    for s in ["", "[[", "[[a -> ]]", "<!-- open", "a / b < c [ d", "//", "[[x -> y]] <!-- c --> // d"] {
        assert!(try_parse_inline(s, &F64).is_some(), "{s:?} should parse");
    }
}

#[test]
fn link_with_condition_inside_the_brackets() {
    let (nodes, diags) = parse_inline("[[Enter -> void {if: true}]]", &F64);
    assert!(diags.is_empty());
    assert_eq!(nodes.len(), 1);
    match &nodes[0] {
        ContentNode::Link { label, target, enabled_if } => {
            assert_eq!(label, "Enter");
            assert_eq!(target, "void");
            assert_eq!(*enabled_if, Some(Expression::Literal(Value::Bool(true))));
        }
        other => panic!("expected Link, got {:?}", other),
    }
    let (nodes, _) = parse_inline("[[Go -> cave {if: 1 +}]]", &F64);
    match &nodes[0] {
        ContentNode::Link { target, enabled_if, .. } => {
            assert_eq!(target, "cave");
            assert_eq!(*enabled_if, Some(Expression::Literal(Value::Bool(false))));
        }
        other => panic!("expected Link, got {:?}", other),
    }
}

#[test]
fn ai_directive_without_fallback_is_an_error() {
    let (nodes, diags) = parse_inline("{ai: describe the room}", &F64);
    assert!(matches!(nodes[0], ContentNode::AIBlock { ref fallback, .. } if fallback.is_empty()));
    assert_eq!(diags.len(), 1);
    assert_eq!(diags[0].severity, pathos::format::Severity::Error);
    assert_eq!(diags[0].message, "AI directive requires fallback text: {ai: prompt | fallback}");
    let (_, diags) = parse_inline("{if: true}{ai-stream: go}{end}", &F64);
    assert_eq!(diags.len(), 1);
    let (_, diags) = parse_inline("{ai: describe | A room.}", &F64);
    assert!(diags.is_empty());
}

#[test]
fn split_args_parts_rejoin_to_the_text() {
    let text = "a, 'b,c', {x,y}, \"q\"";
    let parts = split_args(text);
    assert_eq!(parts, vec!["a", " 'b,c'", " {x,y}", " \"q\""]);
    assert_eq!(parts.join(","), text);
    assert_eq!(split_args(""), vec![""]);
}

#[test]
fn split_args_has_one_part_more_than_top_level_commas() {
    assert_eq!(split_args("a,b,c").len(), 3);
    assert_eq!(split_args("'x,y',{p,q},z").len(), 3);
    assert_eq!(split_args("no commas").len(), 1);
}
