//! The streaming chat protocol: the request that is sent to the inference
//! backend, and the decoder that turns one transport chunk of the
//! line-delimited response body into the text fragment it carries.
//!
//! Each line of the body is one JSON object `{"message": {"role", "content"}}`.
//! A line that is blank, or that does not parse into that shape, contributes
//! nothing and raises no error; the contents of the remaining lines of one
//! chunk are concatenated into a single fragment.

use vstd::prelude::*;

use crate::chars::{find_char, is_blank, line_is_blank, scan_char};
use crate::session::{ChatMessage, MsgView};

verus! {

/// The request body of one chat call: the model, the full ordered history and
/// the flag asking for incremental delivery.
pub struct OllamaRequest {
    pub model: String,
    pub messages: Vec<ChatMessage>,
    pub stream: bool,
}

/// One decoded line of the response body.
pub struct OllamaResponse {
    pub message: ChatMessage,
}

/// Build the request for one chat call from a session snapshot: the active
/// model, the full ordered history, and the flag asking for incremental
/// delivery.
pub fn build_request(session: &crate::session::Session) -> (r: OllamaRequest)
    ensures
        r.model@ == session@.model,
        r.messages@.map_values(|m: ChatMessage| m@) == session@.history,
        r.stream == true,
{
    let (messages, model) = session.snapshot();
    OllamaRequest { model, messages, stream: true }
}

/// What one response line decodes to, if it parses as a JSON object of the
/// expected shape: a function of the line's characters alone.
pub uninterp spec fn chat_line_message(line: Seq<char>) -> Option<MsgView>;

/// Relies on serde_json::from_str and serde_json::Value::{get, as_str}: the
/// line either parses as one JSON value whose `message` member carries string
/// members `role` and `content`, or it yields nothing; the outcome depends on
/// the characters of the line alone.
#[verifier::external_body]
fn parse_chat_line(line: &str) -> (r: Option<OllamaResponse>)
    ensures
        r is Some <==> chat_line_message(line@) is Some,
        r is Some ==> r.unwrap().message@ == chat_line_message(line@).unwrap(),
{
    let v: serde_json::Value = serde_json::from_str(line).ok()?;
    let m = v.get("message")?;
    let role = m.get("role")?.as_str()?.to_owned();
    let content = m.get("content")?.as_str()?.to_owned();
    Some(OllamaResponse { message: ChatMessage { role, content } })
}

/// The lines of a chunk, split at `'\n'`; the text after the last newline is
/// a line too, even when empty.
pub open spec fn spec_lines(s: Seq<char>) -> Seq<Seq<char>>
    decreases s.len(),
    via spec_lines_decreases
{
    match find_char(s, '\n') {
        None => seq![s],
        Some(i) => seq![s.take(i)] + spec_lines(s.skip(i + 1)),
    }
}

#[via_fn]
proof fn spec_lines_decreases(s: Seq<char>) {
    crate::chars::lemma_find_char_spec(s, '\n');
}

/// What one line contributes to the fragment: its decoded content, or nothing
/// when the line is blank or does not decode.
pub open spec fn line_text(line: Seq<char>) -> Seq<char> {
    if !is_blank(line) && chat_line_message(line) is Some {
        chat_line_message(line).unwrap().content
    } else {
        Seq::empty()
    }
}

/// The concatenation of what each line contributes, in order.
pub open spec fn frag_of_lines(lines: Seq<Seq<char>>) -> Seq<char>
    decreases lines.len(),
{
    if lines.len() == 0 {
        Seq::empty()
    } else {
        line_text(lines[0]) + frag_of_lines(lines.drop_first())
    }
}

/// The fragment one transport chunk carries.
pub open spec fn fragment_of(chunk: Seq<char>) -> Seq<char> {
    frag_of_lines(spec_lines(chunk))
}

/// Decode one transport chunk: the concatenated contents of its well-formed,
/// non-blank lines, or nothing when no line contributes any text.
pub fn process_chunk(chunk: &str) -> (r: Option<String>)
    ensures
        r is Some <==> fragment_of(chunk@).len() > 0,
        r is Some ==> r.unwrap()@ == fragment_of(chunk@),
{
    let n = chunk.unicode_len();
    let mut acc = String::new();
    let mut start: usize = 0;
    proof {
        assert(chunk@.skip(0) =~= chunk@);
        assert(Seq::<char>::empty() + fragment_of(chunk@) =~= fragment_of(chunk@));
    }
    loop
        invariant_except_break
            start <= n,
            n == chunk@.len(),
            acc@ + frag_of_lines(spec_lines(chunk@.skip(start as int))) == fragment_of(chunk@),
        ensures
            acc@ == fragment_of(chunk@),
        decreases n - start,
    {
        let scan = scan_char(chunk, start, '\n');
        let line_end = match scan {
            Some(j) => j,
            None => n,
        };
        let line = chunk.substring_char(start, line_end);
        let ghost suffix = chunk@.skip(start as int);
        proof {
            assert(line@ =~= suffix.take(line_end - start));
            match scan {
                Some(j) => {
                    assert(spec_lines(suffix) == seq![suffix.take(j - start)] + spec_lines(
                        suffix.skip(j - start + 1),
                    ));
                    assert(suffix.skip(line_end - start + 1) =~= chunk@.skip(line_end + 1));
                },
                None => {
                    assert(spec_lines(suffix) == seq![suffix]);
                    assert(line@ =~= suffix);
                },
            }
        }
        let blank = line_is_blank(line);
        if !blank {
            if let Some(resp) = parse_chat_line(line) {
                proof {
                    assert(line_text(line@) == chat_line_message(line@).unwrap().content);
                }
                acc.append(resp.message.content.as_str());
            } else {
                proof {
                    assert(line_text(line@) =~= Seq::<char>::empty());
                    assert(acc@ + Seq::<char>::empty() =~= acc@);
                }
            }
        } else {
            proof {
                assert(line_text(line@) =~= Seq::<char>::empty());
                assert(acc@ + Seq::<char>::empty() =~= acc@);
            }
        }
        match scan {
            Some(j) => {
                proof {
                    let rest = spec_lines(chunk@.skip(j + 1));
                    assert(spec_lines(suffix).drop_first() =~= rest);
                    assert((acc@ + frag_of_lines(rest)) =~= fragment_of(chunk@)) by {
                        assert(frag_of_lines(spec_lines(suffix)) == line_text(line@)
                            + frag_of_lines(rest));
                    }
                }
                start = j + 1;
            },
            None => {
                proof {
                    assert(spec_lines(suffix).drop_first() =~= Seq::<Seq<char>>::empty());
                    assert(frag_of_lines(spec_lines(suffix)) == line_text(line@) + frag_of_lines(
                        Seq::<Seq<char>>::empty(),
                    ));
                    assert(acc@ =~= fragment_of(chunk@)) by {
                        assert(line_text(line@) + Seq::<char>::empty() =~= line_text(line@));
                    }
                }
                break ;
            },
        }
    }
    if acc.as_str().is_empty() {
        None
    } else {
        Some(acc)
    }
}

} // verus!
