use aura_core::session::Session;
use aura_core::stream::{build_request, process_chunk};

fn line(content: &str) -> String {
    format!("{{\"message\":{{\"role\":\"assistant\",\"content\":\"{}\"}}}}", content)
}

#[test]
fn well_formed_lines_concatenate_and_malformed_lines_vanish() {
    let chunk = format!("{}\nthis is not json\n{}\n{}\n", line("Hel"), line("lo "), line("world"));
    let r = process_chunk(&chunk);
    assert_eq!(r.unwrap(), "Hello world");
}

#[test]
fn blank_lines_contribute_nothing() {
    let chunk = format!("\n   \n\t\r\n{}\n", line("text"));
    assert_eq!(process_chunk(&chunk).unwrap(), "text");
}

#[test]
fn chunk_without_any_valid_line_yields_nothing() {
    assert!(process_chunk("garbage\nmore garbage").is_none());
    assert!(process_chunk("").is_none());
    assert!(process_chunk("   \n\t\n").is_none());
}

#[test]
fn line_missing_the_expected_shape_is_dropped() {
    let chunk = format!("{{\"message\":\"flat\"}}\n{}", line("kept"));
    assert_eq!(process_chunk(&chunk).unwrap(), "kept");
}

#[test]
fn empty_content_lines_leave_the_fragment_empty() {
    let chunk = format!("{}\n{}", line(""), line(""));
    assert!(process_chunk(&chunk).is_none());
}

#[test]
fn request_carries_model_history_and_stream_flag() {
    let mut s = Session::new("qwen2.5:0.5b".to_string(), "sys prompt");
    s.append("user".to_string(), "hi".to_string());
    let req = build_request(&s);
    assert_eq!(req.model, "qwen2.5:0.5b");
    assert!(req.stream);
    assert_eq!(req.messages.len(), 2);
    assert_eq!(req.messages[0].role, "system");
    assert_eq!(req.messages[1].content, "hi");
}
