use aura_core::orchestrator::{run_turn, Emission};
use aura_core::session::Session;

fn line(content: &str) -> String {
    format!("{{\"message\":{{\"role\":\"assistant\",\"content\":\"{}\"}}}}", content)
}

#[test]
fn turn_with_tool_call_emits_fragments_then_tool_then_done() {
    let mut s = Session::new("m".to_string(), "system prompt");
    let chunks = vec![
        line("{\\\"tool\\\""),
        format!("{}\n{}", line(":"), line("\\\"lock\\\"}")),
    ];
    let out = run_turn(&mut s, "lock my pc".to_string(), &chunks);
    assert_eq!(out.len(), 4);
    match &out[0] {
        Emission::Fragment(f) => assert_eq!(f, "{\"tool\""),
        _ => panic!("first emission must be a fragment"),
    }
    match &out[1] {
        Emission::Fragment(f) => assert_eq!(f, ":\"lock\"}"),
        _ => panic!("second emission must be a fragment"),
    }
    match &out[2] {
        Emission::ToolDetected(inv) => assert_eq!(inv.tool, "lock"),
        _ => panic!("the tool signal must follow every fragment"),
    }
    assert!(matches!(out[3], Emission::Done));

    let (history, _) = s.snapshot();
    assert_eq!(history.len(), 3);
    assert_eq!(history[1].role, "user");
    assert_eq!(history[1].content, "lock my pc");
    assert_eq!(history[2].role, "assistant");
    assert_eq!(history[2].content, "{\"tool\":\"lock\"}");
}

#[test]
fn turn_without_tool_call_ends_with_done_only() {
    let mut s = Session::new("m".to_string(), "sys");
    let chunks = vec![line("Ready.")];
    let out = run_turn(&mut s, "hello".to_string(), &chunks);
    assert_eq!(out.len(), 2);
    assert!(matches!(&out[0], Emission::Fragment(f) if f == "Ready."));
    assert!(matches!(out[1], Emission::Done));
}

#[test]
fn empty_chunks_emit_no_fragment() {
    let mut s = Session::new("m".to_string(), "sys");
    let chunks = vec!["not json".to_string(), line("hi"), "\n \n".to_string()];
    let out = run_turn(&mut s, "greet".to_string(), &chunks);
    assert_eq!(out.len(), 2);
    assert!(matches!(&out[0], Emission::Fragment(f) if f == "hi"));
    assert!(matches!(out[1], Emission::Done));
    let (history, _) = s.snapshot();
    assert_eq!(history[2].content, "hi");
}

#[test]
fn failed_turn_still_records_the_user_message() {
    // A connection failure surfaces before any chunk arrives: the user
    // message appended at the start of the turn stays appended.
    let mut s = Session::new("m".to_string(), "sys");
    s.append("user".to_string(), "are you there?".to_string());
    let (history, _) = s.snapshot();
    assert_eq!(history.len(), 2);
    assert_eq!(history[1].content, "are you there?");
}

#[test]
fn two_turns_never_interleave_their_appends() {
    let mut s = Session::new("m".to_string(), "sys");
    let out_a = run_turn(&mut s, "first".to_string(), &vec![line("alpha")]);
    assert!(matches!(out_a.last().unwrap(), Emission::Done));
    let out_b = run_turn(&mut s, "second".to_string(), &vec![line("beta")]);
    assert!(matches!(out_b.last().unwrap(), Emission::Done));
    let (history, _) = s.snapshot();
    let roles: Vec<&str> = history.iter().map(|m| m.role.as_str()).collect();
    assert_eq!(roles, ["system", "user", "assistant", "user", "assistant"]);
    assert_eq!(history[1].content, "first");
    assert_eq!(history[2].content, "alpha");
    assert_eq!(history[3].content, "second");
    assert_eq!(history[4].content, "beta");
}
