use aura_core::session::Session;

#[test]
fn fresh_session_holds_only_system_prompt() {
    let s = Session::new("qwen2.5:0.5b".to_string(), "You are a helpful system control assistant.");
    let (history, model) = s.snapshot();
    assert_eq!(history.len(), 1);
    assert_eq!(history[0].role, "system");
    assert_eq!(history[0].content, "You are a helpful system control assistant.");
    assert_eq!(model, "qwen2.5:0.5b");
}

#[test]
fn snapshot_length_is_appends_plus_one_and_order_is_kept() {
    let mut s = Session::new("m".to_string(), "sys");
    s.append("user".to_string(), "first".to_string());
    s.append("assistant".to_string(), "second".to_string());
    s.append("user".to_string(), "third".to_string());
    let (history, _) = s.snapshot();
    assert_eq!(history.len(), 4);
    assert_eq!(history[0].role, "system");
    assert_eq!(history[1].content, "first");
    assert_eq!(history[2].content, "second");
    assert_eq!(history[3].content, "third");
    assert_eq!(history[1].role, "user");
    assert_eq!(history[2].role, "assistant");
    assert_eq!(history[3].role, "user");
}

#[test]
fn set_model_changes_model_only() {
    let mut s = Session::new("first-model".to_string(), "sys");
    s.append("user".to_string(), "hello".to_string());
    s.set_model("second-model".to_string());
    let (history, model) = s.snapshot();
    assert_eq!(model, "second-model");
    assert_eq!(history.len(), 2);
    assert_eq!(history[1].content, "hello");
}

#[test]
fn snapshot_is_a_copy_not_a_borrow() {
    let mut s = Session::new("m".to_string(), "sys");
    let (before, _) = s.snapshot();
    s.append("user".to_string(), "later".to_string());
    assert_eq!(before.len(), 1);
    let (after, _) = s.snapshot();
    assert_eq!(after.len(), 2);
}
