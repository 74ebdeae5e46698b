use aura_core::commands::{
    resolve_outcome, u64_digits, CommandError, CommandExecutor, SystemAction, SystemControl,
};
use aura_core::extract::{ParamValue, Params};

fn level_params(v: ParamValue) -> Params {
    Params { entries: vec![("level".to_string(), v)] }
}

#[test]
fn set_volume_reports_the_level() {
    let e = CommandExecutor::new();
    let r = CommandExecutor::execute(&e, "set_volume", Some(&level_params(ParamValue::Num(50))));
    let text = r.expect("a valid volume is accepted");
    assert_eq!(text, "Volume set to 50");
    assert!(text.contains("50"));
}

#[test]
fn set_volume_without_params_is_missing_params() {
    let e = CommandExecutor::new();
    let r = CommandExecutor::execute(&e, "set_volume", None);
    assert_eq!(r.unwrap_err(), CommandError::MissingParams);
}

#[test]
fn unknown_tool_is_reported_with_its_name() {
    let e = CommandExecutor::new();
    let r = CommandExecutor::execute(&e, "unknown_tool", None);
    assert_eq!(r.unwrap_err(), CommandError::UnknownTool("unknown_tool".to_string()));
}

#[test]
fn set_volume_without_level_is_missing_params() {
    let e = CommandExecutor::new();
    let p = Params { entries: vec![("loudness".to_string(), ParamValue::Num(3))] };
    let r = CommandExecutor::execute(&e, "set_volume", Some(&p));
    assert_eq!(r.unwrap_err(), CommandError::MissingParams);
}

#[test]
fn set_volume_with_non_numeric_level_is_invalid_param() {
    let e = CommandExecutor::new();
    let r = CommandExecutor::execute(&e, "set_volume", Some(&level_params(ParamValue::Other)));
    assert_eq!(r.unwrap_err(), CommandError::InvalidParam);
}

#[test]
fn set_volume_above_one_hundred_is_invalid_param() {
    let e = CommandExecutor::new();
    let r = CommandExecutor::execute(&e, "set_volume", Some(&level_params(ParamValue::Num(101))));
    assert_eq!(r.unwrap_err(), CommandError::InvalidParam);
}

#[test]
fn the_four_parameterless_tools_succeed() {
    let e = CommandExecutor::new();
    assert_eq!(CommandExecutor::execute(&e, "mute", None).unwrap(), "Audio muted");
    assert_eq!(CommandExecutor::execute(&e, "lock", None).unwrap(), "Screen locked");
    assert_eq!(CommandExecutor::execute(&e, "clean_desktop", None).unwrap(), "Desktop cleaned");
    assert_eq!(CommandExecutor::execute(&e, "dark_mode", None).unwrap(), "Dark mode enabled");
}

#[test]
fn dispatch_through_the_trait_behaves_the_same() {
    let e = CommandExecutor::new();
    let r = SystemControl::execute(&e, "set_volume", Some(&level_params(ParamValue::Num(0))));
    assert_eq!(r.unwrap(), "Volume set to 0");
}

#[test]
fn digits_are_exact() {
    assert_eq!(u64_digits(0), "0");
    assert_eq!(u64_digits(7), "7");
    assert_eq!(u64_digits(42), "42");
    assert_eq!(u64_digits(100), "100");
}

#[test]
fn failed_platform_call_degrades_for_best_effort_actions() {
    let r = resolve_outcome(SystemAction::Mute, Err("spawn failed".to_string()));
    assert_eq!(r.unwrap(), "Audio mute requested (audio utility not found; nothing done)");
    let r = resolve_outcome(SystemAction::Lock, Err("spawn failed".to_string()));
    assert_eq!(r.unwrap(), "Screen lock requested (lock utility not found; nothing done)");
}

#[test]
fn failed_platform_call_surfaces_for_strict_actions() {
    let r = resolve_outcome(SystemAction::DarkMode, Err("no such utility".to_string()));
    assert_eq!(r.unwrap_err(), CommandError::SubprocessFailure("no such utility".to_string()));
}

#[test]
fn successful_platform_call_reports_the_success_text() {
    let r = resolve_outcome(SystemAction::SetVolume(30), Ok(()));
    assert_eq!(r.unwrap(), "Volume set to 30");
}
