//! The tool-call extractor: a pure function from completed response text to
//! an optional structured invocation.
//!
//! The text is sliced from its first `{` through its last `}` inclusive; the
//! slice must parse as a single JSON object carrying a `tool` member. When the
//! text holds two separate JSON objects, that outer span covers both and
//! generally fails to parse, so nothing is extracted; that weakness of the
//! span rule is part of the behaviour and is kept.

use vstd::prelude::*;

use crate::chars::{is_first_at, is_last_at, rscan_char, scan_char};

verus! {

/// One value of an invocation's parameter mapping, holding exactly what the
/// dispatcher reads: an unsigned integer, or anything else.
#[derive(Clone, Copy, PartialEq, Eq, Debug)]
pub enum ParamValue {
    Num(u64),
    Other,
}

/// The parameter mapping of an invocation: keys in object order, each with
/// the value the dispatcher can read of it.
pub struct Params {
    pub entries: Vec<(String, ParamValue)>,
}

impl View for Params {
    type V = Seq<(Seq<char>, ParamValue)>;

    open spec fn view(&self) -> Seq<(Seq<char>, ParamValue)> {
        self.entries@.map_values(|e: (String, ParamValue)| (e.0@, e.1))
    }
}

/// A structured request to perform one privileged action: the tool's name and
/// its optional parameter mapping.
pub struct ToolInvocation {
    pub tool: String,
    pub params: Option<Params>,
}

/// The mathematical value of the JSON object behind an invocation: the tool
/// name and the parameter mapping.
pub ghost struct ToolJson {
    pub tool: Seq<char>,
    pub params: Seq<(Seq<char>, ParamValue)>,
}

impl View for ToolInvocation {
    type V = ToolJson;

    open spec fn view(&self) -> ToolJson {
        ToolJson {
            tool: self.tool@,
            params: match self.params {
                Some(p) => p@,
                None => Seq::empty(),
            },
        }
    }
}

/// What a candidate slice parses to, if it is a single JSON object whose
/// `tool` member is a string: a function of the slice's characters alone.
/// The parameter mapping is the object's `params` member when that is an
/// object, else the object itself; each value is kept as the unsigned
/// integer it is, or as `Other`.
pub uninterp spec fn tool_json_of(s: Seq<char>) -> Option<ToolJson>;

/// Relies on serde_json::from_str and serde_json::Value::{get, as_str,
/// as_u64, as_object}: the slice either parses as one JSON object with a
/// string `tool` member, or yields nothing; the outcome depends on the
/// characters of the slice alone.
#[verifier::external_body]
fn parse_tool_object(s: &str) -> (r: Option<ToolInvocation>)
    ensures
        r is Some <==> tool_json_of(s@) is Some,
        r is Some ==> r.unwrap().params is Some,
        r is Some ==> r.unwrap()@ == tool_json_of(s@).unwrap(),
{
    let v: serde_json::Value = serde_json::from_str(s).ok()?;
    let tool = v.get("tool")?.as_str()?.to_owned();
    let obj = match v.get("params").and_then(|p| p.as_object()) {
        Some(p) => p,
        None => v.as_object()?,
    };
    let entries = obj
        .iter()
        .map(|(k, val)| (k.clone(), match val.as_u64() {
            Some(n) => ParamValue::Num(n),
            None => ParamValue::Other,
        }))
        .collect();
    Some(ToolInvocation { tool, params: Some(Params { entries }) })
}

/// What extraction yields on `text`: the parse of the span from the first
/// `{` through the last `}`, or nothing when either brace is absent or the
/// last `}` comes before the first `{`.
pub open spec fn spec_extract(text: Seq<char>) -> Option<ToolJson> {
    if (exists|i: int| is_first_at(text, '{', i)) && (exists|j: int| is_last_at(text, '}', j)) {
        let i = choose|i: int| is_first_at(text, '{', i);
        let j = choose|j: int| is_last_at(text, '}', j);
        if i <= j {
            tool_json_of(text.subrange(i, j + 1))
        } else {
            None
        }
    } else {
        None
    }
}

/// Extract a structured invocation from free text, exactly as `spec_extract`
/// says: slice from the first `{` through the last `}` and parse that slice.
pub fn extract(text: &str) -> (r: Option<ToolInvocation>)
    ensures
        r is Some <==> spec_extract(text@) is Some,
        r is Some ==> r.unwrap()@ == spec_extract(text@).unwrap(),
        r is Some ==> r.unwrap().params is Some,
{
    let start = match scan_char(text, 0, '{') {
        Some(i) => i,
        None => {
            proof {
                assert(forall|i: int| !is_first_at(text@, '{', i));
            }
            return None;
        },
    };
    let end = match rscan_char(text, '}') {
        Some(j) => j,
        None => {
            proof {
                assert(forall|j: int| !is_last_at(text@, '}', j));
            }
            return None;
        },
    };
    proof {
        assert(text@.skip(0) =~= text@);
        assert(is_first_at(text@, '{', start as int));
        assert forall|i: int| is_first_at(text@, '{', i) implies i == start as int by {
            if i < start {
                assert(text@[i] != '{');
            }
            if i > start {
                assert(text@[start as int] != '{');
            }
        }
        assert forall|j: int| is_last_at(text@, '}', j) implies j == end as int by {
            if j < end {
                assert(text@[end as int] != '}');
            }
            if j > end {
                assert(text@[j] != '}');
            }
        }
    }
    if end < start {
        return None;
    }
    let n = text.unicode_len();
    proof {
        assert(end < n);
    }
    let slice = text.substring_char(start, end + 1);
    parse_tool_object(slice)
}

} // verus!
