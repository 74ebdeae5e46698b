use aura_core::extract::{extract, ParamValue};

#[test]
fn extracts_tool_object_surrounded_by_prose() {
    let r = extract("pick me {\"tool\":\"lock\"} now");
    let inv = r.expect("a tool object should be extracted");
    assert_eq!(inv.tool, "lock");
    let params = inv.params.expect("extraction always carries a mapping");
    assert_eq!(params.entries.len(), 1);
    assert_eq!(params.entries[0].0, "tool");
    assert_eq!(params.entries[0].1, ParamValue::Other);
}

#[test]
fn text_without_braces_yields_nothing() {
    assert!(extract("nothing here").is_none());
}

#[test]
fn two_tool_objects_yield_nothing_outer_span_fails_to_parse() {
    assert!(extract("{\"tool\":\"a\"} mid {\"tool\":\"b\"}").is_none());
}

#[test]
fn object_without_tool_member_yields_nothing() {
    assert!(extract("look: {\"volume\": 3}").is_none());
}

#[test]
fn unparseable_span_yields_nothing() {
    assert!(extract("a { b } c").is_none());
}

#[test]
fn closing_brace_before_opening_brace_yields_nothing() {
    assert!(extract("} and later {").is_none());
}

#[test]
fn params_member_supplies_the_mapping() {
    let r = extract("{\"tool\":\"set_volume\",\"params\":{\"level\":50}}");
    let inv = r.expect("a tool object should be extracted");
    assert_eq!(inv.tool, "set_volume");
    let params = inv.params.expect("extraction always carries a mapping");
    assert_eq!(params.entries.len(), 1);
    assert_eq!(params.entries[0].0, "level");
    assert_eq!(params.entries[0].1, ParamValue::Num(50));
}

#[test]
fn without_params_member_the_object_itself_is_the_mapping() {
    let r = extract("{\"tool\":\"set_volume\",\"level\":25}");
    let inv = r.expect("a tool object should be extracted");
    assert_eq!(inv.tool, "set_volume");
    let params = inv.params.expect("extraction always carries a mapping");
    assert_eq!(params.entries.len(), 2);
    assert!(params.entries.iter().any(|e| e.0 == "level" && e.1 == ParamValue::Num(25)));
}

#[test]
fn non_string_tool_member_yields_nothing() {
    assert!(extract("{\"tool\": 7}").is_none());
}
