//! The command dispatcher: turning a tool name and an optional parameter
//! mapping into one of the five privileged actions, with its success and
//! failure texts. The platform side effect itself is opaque to this layer;
//! the dispatcher decides what to run, validates the parameters, and says
//! what each outcome of the platform call means.

use vstd::prelude::*;

use crate::chars::str_eq;
use crate::extract::{ParamValue, Params};

verus! {

/// The five privileged actions a host platform can perform.
#[derive(Clone, Copy, PartialEq, Eq, Debug)]
pub enum SystemAction {
    Mute,
    Lock,
    CleanDesktop,
    DarkMode,
    SetVolume(u64),
}

/// A dispatch failure, as the caller sees it.
#[derive(Clone, PartialEq, Eq, Debug)]
pub enum CommandError {
    UnknownTool(String),
    MissingParams,
    InvalidParam,
    SubprocessFailure(String),
}

/// The mathematical value of a dispatch failure.
pub ghost enum ErrorView {
    UnknownTool(Seq<char>),
    MissingParams,
    InvalidParam,
    SubprocessFailure(Seq<char>),
}

impl View for CommandError {
    type V = ErrorView;

    open spec fn view(&self) -> ErrorView {
        match self {
            CommandError::UnknownTool(t) => ErrorView::UnknownTool(t@),
            CommandError::MissingParams => ErrorView::MissingParams,
            CommandError::InvalidParam => ErrorView::InvalidParam,
            CommandError::SubprocessFailure(c) => ErrorView::SubprocessFailure(c@),
        }
    }
}

/// The first value under `key` in the parameter mapping, if any.
pub open spec fn lookup(params: Seq<(Seq<char>, ParamValue)>, key: Seq<char>) -> Option<ParamValue>
    decreases params.len(),
{
    if params.len() == 0 {
        None
    } else if params[0].0 == key {
        Some(params[0].1)
    } else {
        lookup(params.drop_first(), key)
    }
}

/// The parameter mapping's value, seen through the optional reference the
/// dispatcher takes.
pub open spec fn opt_params_view(params: Option<&Params>) -> Option<
    Seq<(Seq<char>, ParamValue)>,
> {
    match params {
        Some(p) => Some(p@),
        None => None,
    }
}

/// Which action a tool name and parameter mapping ask for, or why they are
/// rejected: the five known tools only; `set_volume` demands a `level` that
/// is an integer between 0 and 100, missing parameters or a missing level
/// are `MissingParams`, and a level of any other shape is `InvalidParam`.
pub open spec fn spec_plan(
    tool: Seq<char>,
    params: Option<Seq<(Seq<char>, ParamValue)>>,
) -> Result<SystemAction, ErrorView> {
    if tool == "mute"@ {
        Ok(SystemAction::Mute)
    } else if tool == "lock"@ {
        Ok(SystemAction::Lock)
    } else if tool == "clean_desktop"@ {
        Ok(SystemAction::CleanDesktop)
    } else if tool == "dark_mode"@ {
        Ok(SystemAction::DarkMode)
    } else if tool == "set_volume"@ {
        match params {
            None => Err(ErrorView::MissingParams),
            Some(ps) => match lookup(ps, "level"@) {
                None => Err(ErrorView::MissingParams),
                Some(ParamValue::Num(n)) => if n <= 100 {
                    Ok(SystemAction::SetVolume(n))
                } else {
                    Err(ErrorView::InvalidParam)
                },
                Some(ParamValue::Other) => Err(ErrorView::InvalidParam),
            },
        }
    } else {
        Err(ErrorView::UnknownTool(tool))
    }
}

/// The decimal digits of `n`, most significant first.
pub open spec fn spec_digits(n: nat) -> Seq<char>
    decreases n,
    via spec_digits_decreases
{
    if n < 10 {
        seq![digit_char(n as int)]
    } else {
        spec_digits(n / 10).push(digit_char((n % 10) as int))
    }
}

#[via_fn]
proof fn spec_digits_decreases(n: nat) {
    if n >= 10 {
        assert(n / 10 < n) by (nonlinear_arith)
            requires
                n >= 10,
        ;
    }
}

/// The character of one decimal digit.
pub open spec fn digit_char(d: int) -> char {
    if d == 0 {
        '0'
    } else if d == 1 {
        '1'
    } else if d == 2 {
        '2'
    } else if d == 3 {
        '3'
    } else if d == 4 {
        '4'
    } else if d == 5 {
        '5'
    } else if d == 6 {
        '6'
    } else if d == 7 {
        '7'
    } else if d == 8 {
        '8'
    } else {
        '9'
    }
}

/// The success text each action reports.
pub open spec fn success_text(a: SystemAction) -> Seq<char> {
    match a {
        SystemAction::Mute => "Audio muted"@,
        SystemAction::Lock => "Screen locked"@,
        SystemAction::CleanDesktop => "Desktop cleaned"@,
        SystemAction::DarkMode => "Dark mode enabled"@,
        SystemAction::SetVolume(n) => "Volume set to "@ + spec_digits(n as nat),
    }
}

/// Whether the action degrades to a descriptive no-op success message when
/// the platform utility is missing, instead of failing.
pub open spec fn best_effort(a: SystemAction) -> bool {
    a == SystemAction::Mute || a == SystemAction::Lock
}

/// The no-op text a best-effort action reports when its utility is missing.
pub open spec fn fallback_text(a: SystemAction) -> Seq<char> {
    match a {
        SystemAction::Mute => "Audio mute requested (audio utility not found; nothing done)"@,
        SystemAction::Lock => "Screen lock requested (lock utility not found; nothing done)"@,
        _ => Seq::empty(),
    }
}

/// `spec_execute` composed of planning and reporting, for a platform whose
/// calls all succeed.
pub open spec fn spec_execute(
    tool: Seq<char>,
    params: Option<Seq<(Seq<char>, ParamValue)>>,
) -> Result<Seq<char>, ErrorView> {
    match spec_plan(tool, params) {
        Ok(a) => Ok(success_text(a)),
        Err(e) => Err(e),
    }
}

/// The view of a dispatch result.
pub open spec fn result_view(r: Result<String, CommandError>) -> Result<Seq<char>, ErrorView> {
    match r {
        Ok(s) => Ok(s@),
        Err(e) => Err(e@),
    }
}

/// The polymorphic dispatch contract a host platform satisfies: rejections
/// are decided by `spec_plan` alone; a planned best-effort action always
/// reports success; any other planned action either succeeds or surfaces the
/// platform's failure as `SubprocessFailure`.
pub trait SystemControl {
    fn execute(&self, tool: &str, params: Option<&Params>) -> (r: Result<String, CommandError>)
        ensures
            spec_plan(tool@, opt_params_view(params)) matches Err(e) ==> (r matches Err(ce)
                && ce@ == e),
            spec_plan(tool@, opt_params_view(params)) matches Ok(a) ==> (r is Ok || (
            r matches Err(ce) && ce@ is SubprocessFailure)),
            spec_plan(tool@, opt_params_view(params)) matches Ok(a) && best_effort(a) ==> r is Ok,
    ;
}

/// The digits of `n`, as text.
pub fn u64_digits(n: u64) -> (s: String)
    ensures
        s@ == spec_digits(n as nat),
    decreases n,
{
    if n < 10 {
        digit_string(n)
    } else {
        let mut s = u64_digits(n / 10);
        let d = digit_string(n % 10);
        s.append(d.as_str());
        proof {
            assert(s@ =~= spec_digits(n as nat));
        }
        s
    }
}

/// One digit as text.
fn digit_string(d: u64) -> (s: String)
    requires
        d < 10,
    ensures
        s@ == seq![digit_char(d as int)],
{
    let s = match d {
        0 => "0",
        1 => "1",
        2 => "2",
        3 => "3",
        4 => "4",
        5 => "5",
        6 => "6",
        7 => "7",
        8 => "8",
        _ => "9",
    };
    proof {
        reveal_strlit("0");
        reveal_strlit("1");
        reveal_strlit("2");
        reveal_strlit("3");
        reveal_strlit("4");
        reveal_strlit("5");
        reveal_strlit("6");
        reveal_strlit("7");
        reveal_strlit("8");
        reveal_strlit("9");
        assert(s@ =~= seq![digit_char(d as int)]);
    }
    s.to_owned()
}

/// The first `key` entry of the mapping, as `lookup` says.
pub fn get_param(p: &Params, key: &str) -> (r: Option<ParamValue>)
    ensures
        r == lookup(p@, key@),
{
    let mut i: usize = 0;
    proof {
        assert(p@.skip(0) =~= p@);
    }
    while i < p.entries.len()
        invariant
            i <= p.entries.len(),
            p@.len() == p.entries@.len(),
            forall|k: int| 0 <= k < p@.len() ==> p@[k] == (p.entries@[k].0@, p.entries@[k].1),
            lookup(p@, key@) == lookup(p@.skip(i as int), key@),
        decreases p.entries.len() - i,
    {
        if str_eq(p.entries[i].0.as_str(), key) {
            return Some(p.entries[i].1);
        }
        proof {
            assert(p@.skip(i as int).drop_first() =~= p@.skip(i as int + 1));
        }
        i = i + 1;
    }
    proof {
        assert(p@.skip(i as int) =~= Seq::<(Seq<char>, ParamValue)>::empty());
    }
    None
}

/// The dispatcher used when the host platform is driven elsewhere: it plans,
/// validates, and reports the success text of the planned action. One
/// concrete `SystemControl` implementation is active per process.
pub struct CommandExecutor;

impl CommandExecutor {
    pub fn new() -> (e: CommandExecutor) {
        CommandExecutor
    }

    /// Decide which action the tool name and parameters ask for, or reject
    /// them, exactly as `spec_plan` says.
    pub fn plan(&self, tool: &str, params: Option<&Params>) -> (r: Result<
        SystemAction,
        CommandError,
    >)
        ensures
            match r {
                Ok(a) => spec_plan(tool@, opt_params_view(params)) == Result::<
                    SystemAction,
                    ErrorView,
                >::Ok(a),
                Err(e) => spec_plan(tool@, opt_params_view(params)) == Result::<
                    SystemAction,
                    ErrorView,
                >::Err(e@),
            },
    {
        if str_eq(tool, "mute") {
            Ok(SystemAction::Mute)
        } else if str_eq(tool, "lock") {
            Ok(SystemAction::Lock)
        } else if str_eq(tool, "clean_desktop") {
            Ok(SystemAction::CleanDesktop)
        } else if str_eq(tool, "dark_mode") {
            Ok(SystemAction::DarkMode)
        } else if str_eq(tool, "set_volume") {
            match params {
                None => Err(CommandError::MissingParams),
                Some(p) => match get_param(p, "level") {
                    None => Err(CommandError::MissingParams),
                    Some(ParamValue::Num(n)) => if n <= 100 {
                        Ok(SystemAction::SetVolume(n))
                    } else {
                        Err(CommandError::InvalidParam)
                    },
                    Some(ParamValue::Other) => Err(CommandError::InvalidParam),
                },
            }
        } else {
            Err(CommandError::UnknownTool(tool.to_owned()))
        }
    }

    /// Validate and report as `spec_execute` says: the success text of the
    /// planned action, or the exact rejection.
    pub fn execute(&self, tool: &str, params: Option<&Params>) -> (r: Result<String, CommandError>)
        ensures
            result_view(r) == spec_execute(tool@, opt_params_view(params)),
    {
        match self.plan(tool, params) {
            Ok(a) => Ok(success_message(a)),
            Err(e) => Err(e),
        }
    }
}

impl SystemControl for CommandExecutor {
    fn execute(&self, tool: &str, params: Option<&Params>) -> (r: Result<String, CommandError>) {
        CommandExecutor::execute(self, tool, params)
    }
}

/// The success text of an action, as `success_text` says.
pub fn success_message(action: SystemAction) -> (s: String)
    ensures
        s@ == success_text(action),
{
    match action {
        SystemAction::Mute => "Audio muted".to_owned(),
        SystemAction::Lock => "Screen locked".to_owned(),
        SystemAction::CleanDesktop => "Desktop cleaned".to_owned(),
        SystemAction::DarkMode => "Dark mode enabled".to_owned(),
        SystemAction::SetVolume(n) => {
            let mut s = "Volume set to ".to_owned();
            let d = u64_digits(n);
            s.append(d.as_str());
            s
        },
    }
}

/// Fold the platform call's outcome into the dispatch result: success reports
/// the action's success text; a failed call degrades to the no-op text for a
/// best-effort action and surfaces as `SubprocessFailure` for any other.
pub fn resolve_outcome(action: SystemAction, outcome: Result<(), String>) -> (r: Result<
    String,
    CommandError,
>)
    ensures
        outcome is Ok ==> (r matches Ok(s) && s@ == success_text(action)),
        outcome is Err && best_effort(action) ==> (r matches Ok(s) && s@ == fallback_text(
            action,
        )),
        outcome is Err && !best_effort(action) ==> (r matches Err(e) && e@
            == ErrorView::SubprocessFailure(outcome->Err_0@)),
{
    match outcome {
        Ok(_) => Ok(success_message(action)),
        Err(cause) => match action {
            SystemAction::Mute => Ok(
                "Audio mute requested (audio utility not found; nothing done)".to_owned(),
            ),
            SystemAction::Lock => Ok(
                "Screen lock requested (lock utility not found; nothing done)".to_owned(),
            ),
            _ => Err(CommandError::SubprocessFailure(cause)),
        },
    }
}

} // verus!

