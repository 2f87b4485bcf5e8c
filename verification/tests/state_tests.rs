use pathos::state::StoryState;
use pathos::value::{Scope, Value};

#[test]
fn set_and_get_global() {
    let mut s = StoryState::default();
    s.set("hp", Value::Int(100), Scope::Global).unwrap();
    assert_eq!(s.get("hp", Scope::Global).unwrap().as_int(), Some(100));
}

#[test]
fn set_and_get_temp() {
    let mut s = StoryState::default();
    s.set("x", Value::String("hello".into()), Scope::Temp).unwrap();
    assert_eq!(s.get("x", Scope::Temp).unwrap().as_str(), Some("hello"));
}

#[test]
fn temp_not_visible_from_global() {
    let mut s = StoryState::default();
    s.set("x", Value::Int(1), Scope::Temp).unwrap();
    // Global get checks Temp first
    assert_eq!(s.get("x", Scope::Global).unwrap().as_int(), Some(1));
}

#[test]
fn global_scoped_get_skips_temp() {
    let mut s = StoryState::default();
    s.set("x", Value::Int(1), Scope::Temp).unwrap();
    s.set("x", Value::Int(2), Scope::Global).unwrap();
    assert_eq!(s.get("x", Scope::Temp).unwrap().as_int(), Some(1));
}

#[test]
fn cannot_write_metadata() {
    let mut s = StoryState::default();
    assert!(s.set("metadata", Value::Null, Scope::Global).is_err());
    assert!(s.set("metadata.foo", Value::Null, Scope::Global).is_err());
}

#[test]
fn cannot_delete_metadata() {
    let mut s = StoryState::default();
    assert!(s.delete("metadata", Scope::Global).is_err());
}

#[test]
fn inc_from_zero() {
    let mut s = StoryState::default();
    let v = s.inc("count", Scope::Global).unwrap();
    assert_eq!(v, 1);
    assert_eq!(s.get("count", Scope::Global).unwrap().as_int(), Some(1));
}

#[test]
fn inc_existing() {
    let mut s = StoryState::default();
    s.set("hp", Value::Int(10), Scope::Global).unwrap();
    let v = s.inc("hp", Scope::Global).unwrap();
    assert_eq!(v, 11);
}

#[test]
fn dec_existing() {
    let mut s = StoryState::default();
    s.set("hp", Value::Int(10), Scope::Global).unwrap();
    let v = s.dec("hp", Scope::Global).unwrap();
    assert_eq!(v, 9);
}

#[test]
fn has_key() {
    let mut s = StoryState::default();
    assert!(!s.has("hp", Scope::Global));
    s.set("hp", Value::Int(10), Scope::Global).unwrap();
    assert!(s.has("hp", Scope::Global));
}

#[test]
fn delete_key() {
    let mut s = StoryState::default();
    s.set("hp", Value::Int(10), Scope::Global).unwrap();
    assert!(s.has("hp", Scope::Global));
    s.delete("hp", Scope::Global).unwrap();
    assert!(!s.has("hp", Scope::Global));
}

#[test]
fn clear_temp_removes_all() {
    let mut s = StoryState::default();
    s.set("a", Value::Int(1), Scope::Temp).unwrap();
    s.set("b", Value::Int(2), Scope::Temp).unwrap();
    s.clear_temp();
    assert!(!s.has("a", Scope::Temp));
    assert!(!s.has("b", Scope::Temp));
}

#[test]
fn clear_temp_leaves_global_intact() {
    let mut s = StoryState::default();
    s.set("a", Value::Int(1), Scope::Global).unwrap();
    s.set("b", Value::Int(2), Scope::Temp).unwrap();
    s.clear_temp();
    assert!(s.has("a", Scope::Global));
}

// ── more ────────────────────────────────────────────────────────────────

#[test]
fn metadata_error_messages_and_state_unchanged() {
    let mut s = StoryState::default();
    s.set("hp", Value::Int(3), Scope::Global).unwrap();
    assert_eq!(
        s.set("metadata.title", Value::Null, Scope::Global),
        Err("cannot write to read-only metadata".to_string())
    );
    assert_eq!(s.delete("metadata", Scope::Temp), Err("cannot delete metadata".to_string()));
    assert_eq!(s.get("hp", Scope::Global).unwrap().as_int(), Some(3));
}

#[test]
fn invalid_path_error_message() {
    let mut s = StoryState::default();
    s.set("n", Value::Int(1), Scope::Global).unwrap();
    assert_eq!(
        s.set("n.x", Value::Int(2), Scope::Global),
        Err("invalid state path: n.x".to_string())
    );
    assert_eq!(s.get("n", Scope::Global).unwrap().as_int(), Some(1));
}

#[test]
fn cleared_temp_stays_writable() {
    let mut s = StoryState::default();
    s.set("a", Value::Int(1), Scope::Temp).unwrap();
    s.set("g", Value::Int(2), Scope::Global).unwrap();
    s.clear_temp();
    assert!(!s.has("a", Scope::Temp));
    assert!(s.has("g", Scope::Global));
    assert_eq!(s.delete("a", Scope::Temp), Ok(()));
    assert_eq!(s.set("b", Value::Int(3), Scope::Temp), Ok(()));
    assert_eq!(s.get("b", Scope::Temp).unwrap().as_int(), Some(3));
}

#[test]
fn inc_counts_non_integers_as_zero() {
    let mut s = StoryState::default();
    s.set("name", Value::String("x".into()), Scope::Temp).unwrap();
    assert_eq!(s.inc("name", Scope::Temp), Ok(1));
    assert_eq!(s.dec("fresh", Scope::Temp), Ok(-1));
}

#[test]
fn visits_are_counted() {
    let mut s = StoryState::default();
    assert!(!s.is_visited("cave"));
    s.mark_visited(&"cave".to_string());
    s.mark_visited(&"cave".to_string());
    s.mark_visited(&"lake".to_string());
    assert!(s.is_visited("cave"));
    assert_eq!(s.visit_count_of("cave"), 2);
    assert_eq!(s.visit_count_of("lake"), 1);
    assert_eq!(s.visit_count_of("moon"), 0);
}

#[test]
fn global_read_falls_back_to_global_after_temp_cleared() {
    let mut s = StoryState::default();
    s.set("x", Value::Int(1), Scope::Temp).unwrap();
    s.set("x", Value::Int(2), Scope::Global).unwrap();
    assert_eq!(s.get("x", Scope::Global).unwrap().as_int(), Some(1));
    s.clear_temp();
    assert_eq!(s.get("x", Scope::Global).unwrap().as_int(), Some(2));
}
