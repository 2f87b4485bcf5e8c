use pathos::hook::HookRegistry;
use pathos::passage::{HookDeclaration, PassageScript};
use pathos::script::{script_delete, script_get, script_random, script_set, script_step, ScriptLang, ScriptSignal};
use pathos::value::Value;

fn object() -> Value {
    Value::Object(Vec::new())
}

#[test]
fn language_tags() {
    assert_eq!(ScriptLang::from_info_string("rhai"), Some(ScriptLang::Rhai));
    assert_eq!(ScriptLang::from_info_string("  RHAI "), Some(ScriptLang::Rhai));
    assert_eq!(ScriptLang::from_info_string("lua"), None);
    assert_eq!(ScriptLang::from_info_string(ScriptLang::Rhai.as_str()), Some(ScriptLang::Rhai));
}

#[test]
fn navigation_signals() {
    assert!(!ScriptSignal::Continue.is_navigation());
    assert!(ScriptSignal::Goto("x".into()).is_navigation());
    assert!(ScriptSignal::Restart.is_navigation());
}

#[test]
fn random_is_fixed_by_the_range() {
    assert_eq!(script_random(1, 10), 4);
    assert_eq!(script_random(5, 5), 5);
    assert_eq!(script_random(7, 3), 7);
    let r = script_random(-100, 100);
    assert!((-100..100).contains(&r));
}

#[test]
fn script_state_reads_prefer_temp() {
    let mut temp = object();
    let mut globals = object();
    temp.set("x", Value::Int(1)).unwrap();
    globals.set("x", Value::Int(2)).unwrap();
    globals.set("y", Value::Int(3)).unwrap();
    assert_eq!(script_get(&temp, &globals, "x"), Some(&Value::Int(1)));
    assert_eq!(script_get(&temp, &globals, "y"), Some(&Value::Int(3)));
    assert_eq!(script_get(&temp, &globals, "z"), None);
}

#[test]
fn script_inc_dec_and_delete() {
    let mut globals = object();
    assert_eq!(script_step(&mut globals, "n", true), Ok(1));
    assert_eq!(script_step(&mut globals, "n", true), Ok(2));
    assert_eq!(script_step(&mut globals, "n", false), Ok(1));
    assert_eq!(globals.get("n").unwrap().as_int(), Some(1));
    assert_eq!(script_delete(&mut globals, "n"), Ok(()));
    assert!(globals.get("n").is_none());
}

#[test]
fn hooks_register_in_order() {
    let mut reg = HookRegistry::new();
    reg.register("on_passage_start", PassageScript { lang: "rhai".into(), code: "a".into() });
    reg.register_all(&[
        HookDeclaration {
            event: "on_passage_start".into(),
            script: PassageScript { lang: "rhai".into(), code: "b".into() },
        },
        HookDeclaration {
            event: "on_passage_end".into(),
            script: PassageScript { lang: "rhai".into(), code: "c".into() },
        },
    ]);
    assert_eq!(reg.count("on_passage_start"), 2);
    assert_eq!(reg.count("on_passage_end"), 1);
    assert_eq!(reg.count("on_passage_render"), 0);
    let codes: Vec<String> = reg.scripts_for("on_passage_start").into_iter().map(|s| s.code).collect();
    assert_eq!(codes, vec!["a", "b"]);
}

#[test]
fn scripts_cannot_write_metadata() {
    let mut globals = object();
    let refused = Err("cannot write to read-only metadata".to_string());
    assert_eq!(script_set(&mut globals, "metadata.title", Value::String("X".into())), refused);
    assert_eq!(script_set(&mut globals, "metadata", Value::Int(1)), refused);
    assert_eq!(script_step(&mut globals, "metadata.save_slots", true), Err("cannot write to read-only metadata".to_string()));
    assert_eq!(script_delete(&mut globals, "metadata"), Err("cannot write to read-only metadata".to_string()));
    assert_eq!(globals, object());
    assert_eq!(script_set(&mut globals, "metadatax", Value::Int(2)), Ok(()));
    assert_eq!(script_get(&object(), &globals, "metadatax").unwrap().as_int(), Some(2));
}
