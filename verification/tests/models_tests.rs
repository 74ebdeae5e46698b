use aura_core::models::parse_model_list;

#[test]
fn header_is_skipped_and_first_tokens_are_taken() {
    let out = "NAME            ID       SIZE\nqwen2.5:0.5b    abc123   398 MB\nllama3:8b       def456   4.7 GB\n";
    let models = parse_model_list(out);
    assert_eq!(models, ["qwen2.5:0.5b", "llama3:8b"]);
}

#[test]
fn blank_lines_contribute_no_model() {
    let out = "NAME\n\nqwen2.5:0.5b 1 GB\n   \n";
    let models = parse_model_list(out);
    assert_eq!(models, ["qwen2.5:0.5b"]);
}

#[test]
fn header_only_output_yields_no_models() {
    assert!(parse_model_list("NAME ID SIZE\n").is_empty());
    assert!(parse_model_list("NAME ID SIZE").is_empty());
    assert!(parse_model_list("").is_empty());
}

#[test]
fn leading_whitespace_before_a_token_is_skipped() {
    let out = "HEADER\n   spaced-model   2 GB\n";
    assert_eq!(parse_model_list(out), ["spaced-model"]);
}
