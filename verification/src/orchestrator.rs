//! One conversation turn, from the user's text to the terminal signal: the
//! user message is appended, each transport chunk's fragment is emitted in
//! arrival order while the full response accumulates, the assistant message
//! is appended, the accumulated text is searched for a tool call, and the
//! turn closes with the terminal signal, strictly last.
//!
//! The session is held exclusively for the whole turn: a second turn's
//! appends can only follow the first turn's, never stand between them.

use vstd::prelude::*;

use crate::extract::{extract, spec_extract, ToolInvocation, ToolJson};
use crate::session::{MsgView, Session};
use crate::stream::{fragment_of, process_chunk};

verus! {

/// One signal the turn emits toward the host, in order.
pub enum Emission {
    Fragment(String),
    ToolDetected(ToolInvocation),
    Done,
}

/// The mathematical value of an emitted signal.
pub ghost enum EmissionView {
    Fragment(Seq<char>),
    ToolDetected(ToolJson),
    Done,
}

impl View for Emission {
    type V = EmissionView;

    open spec fn view(&self) -> EmissionView {
        match self {
            Emission::Fragment(s) => EmissionView::Fragment(s@),
            Emission::ToolDetected(inv) => EmissionView::ToolDetected(inv@),
            Emission::Done => EmissionView::Done,
        }
    }
}

/// The fragments a chunk sequence yields, in arrival order: one per chunk
/// that carries any text.
pub open spec fn spec_fragments(chunks: Seq<Seq<char>>) -> Seq<Seq<char>>
    decreases chunks.len(),
{
    if chunks.len() == 0 {
        Seq::empty()
    } else {
        let head: Seq<Seq<char>> = if fragment_of(chunks[0]).len() > 0 {
            seq![fragment_of(chunks[0])]
        } else {
            Seq::empty()
        };
        head + spec_fragments(chunks.drop_first())
    }
}

/// The full response text: every chunk's fragment, concatenated in order.
pub open spec fn spec_full_text(chunks: Seq<Seq<char>>) -> Seq<char>
    decreases chunks.len(),
{
    if chunks.len() == 0 {
        Seq::empty()
    } else {
        fragment_of(chunks[0]) + spec_full_text(chunks.drop_first())
    }
}

/// Everything one successful turn emits: the fragments in arrival order,
/// then the detected tool call if the full text holds one, then the terminal
/// signal, strictly last.
pub open spec fn spec_turn_emissions(chunks: Seq<Seq<char>>) -> Seq<EmissionView> {
    let frags = spec_fragments(chunks).map_values(|f: Seq<char>| EmissionView::Fragment(f));
    let tool: Seq<EmissionView> = match spec_extract(spec_full_text(chunks)) {
        Some(tj) => seq![EmissionView::ToolDetected(tj)],
        None => Seq::empty(),
    };
    frags + tool + seq![EmissionView::Done]
}

proof fn lemma_fragments_push(chunks: Seq<Seq<char>>, c: Seq<char>)
    ensures
        spec_fragments(chunks.push(c)) == spec_fragments(chunks) + (if fragment_of(c).len() > 0 {
            seq![fragment_of(c)]
        } else {
            Seq::<Seq<char>>::empty()
        }),
        spec_full_text(chunks.push(c)) == spec_full_text(chunks) + fragment_of(c),
    decreases chunks.len(),
{
    let head: Seq<Seq<char>> = if fragment_of(c).len() > 0 {
        seq![fragment_of(c)]
    } else {
        Seq::empty()
    };
    if chunks.len() == 0 {
        assert(chunks.push(c)[0] == c);
        assert(chunks.push(c).drop_first() =~= Seq::<Seq<char>>::empty());
        assert(spec_fragments(Seq::<Seq<char>>::empty()) =~= Seq::<Seq<char>>::empty());
        assert(spec_full_text(Seq::<Seq<char>>::empty()) =~= Seq::<char>::empty());
        assert(head + Seq::<Seq<char>>::empty() =~= head);
        assert(spec_fragments(chunks) + head =~= head);
        assert(fragment_of(c) + Seq::<char>::empty() =~= fragment_of(c));
        assert(Seq::<char>::empty() + fragment_of(c) =~= fragment_of(c));
        assert(spec_fragments(chunks.push(c)) =~= spec_fragments(chunks) + head);
        assert(spec_full_text(chunks.push(c)) =~= spec_full_text(chunks) + fragment_of(c));
    } else {
        assert(chunks.push(c)[0] == chunks[0]);
        assert(chunks.push(c).drop_first() =~= chunks.drop_first().push(c));
        lemma_fragments_push(chunks.drop_first(), c);
        let h0: Seq<Seq<char>> = if fragment_of(chunks[0]).len() > 0 {
            seq![fragment_of(chunks[0])]
        } else {
            Seq::empty()
        };
        assert(h0 + (spec_fragments(chunks.drop_first()) + head) =~= (h0 + spec_fragments(
            chunks.drop_first(),
        )) + head);
        assert(fragment_of(chunks[0]) + (spec_full_text(chunks.drop_first()) + fragment_of(c))
            =~= (fragment_of(chunks[0]) + spec_full_text(chunks.drop_first())) + fragment_of(c));
        assert(spec_fragments(chunks.push(c)) =~= spec_fragments(chunks) + head);
        assert(spec_full_text(chunks.push(c)) =~= spec_full_text(chunks) + fragment_of(c));
    }
}

/// The concatenation of a sequence of text pieces, in order.
pub open spec fn concat_all(pieces: Seq<Seq<char>>) -> Seq<char>
    decreases pieces.len(),
{
    if pieces.len() == 0 {
        Seq::empty()
    } else {
        pieces[0] + concat_all(pieces.drop_first())
    }
}

/// Law: nothing is lost and nothing is reordered between emission and the
/// history: the concatenation of the fragments a turn emits equals the full
/// response text the turn records as the assistant message.
pub proof fn lemma_fragments_concat(chunks: Seq<Seq<char>>)
    ensures
        concat_all(spec_fragments(chunks)) == spec_full_text(chunks),
    decreases chunks.len(),
{
    if chunks.len() > 0 {
        lemma_fragments_concat(chunks.drop_first());
        let rest = spec_fragments(chunks.drop_first());
        if fragment_of(chunks[0]).len() > 0 {
            let whole = seq![fragment_of(chunks[0])] + rest;
            assert(whole[0] == fragment_of(chunks[0]));
            assert(whole.drop_first() =~= rest);
        } else {
            assert(Seq::<Seq<char>>::empty() + rest =~= rest);
            assert(fragment_of(chunks[0]) + spec_full_text(chunks.drop_first())
                =~= spec_full_text(chunks.drop_first()));
        }
    }
}

/// Run one turn against the session: append the user message, fold the
/// response chunks into fragments and the full response text, append the
/// assistant message, check for a tool call, and close. The returned
/// sequence is everything the turn emitted, in emission order.
pub fn run_turn(session: &mut Session, user_text: String, chunks: &Vec<String>) -> (out: Vec<
    Emission,
>)
    requires
        old(session).wf(),
    ensures
        final(session).wf(),
        final(session)@.model == old(session)@.model,
        final(session)@.history == old(session)@.history.push(
            MsgView { role: "user"@, content: user_text@ },
        ).push(
            MsgView {
                role: "assistant"@,
                content: spec_full_text(chunks@.map_values(|c: String| c@)),
            },
        ),
        out@.map_values(|e: Emission| e@) == spec_turn_emissions(
            chunks@.map_values(|c: String| c@),
        ),
{
    let ghost views = chunks@.map_values(|c: String| c@);
    session.append("user".to_owned(), user_text);
    let ghost mid = session@;
    let mut full = String::new();
    let mut out: Vec<Emission> = Vec::new();
    let mut i: usize = 0;
    proof {
        assert(views.take(0) =~= Seq::<Seq<char>>::empty());
        assert(spec_fragments(views.take(0)) =~= Seq::<Seq<char>>::empty());
        assert(out@.map_values(|e: Emission| e@) =~= Seq::<EmissionView>::empty());
        assert(Seq::<Seq<char>>::empty().map_values(|f: Seq<char>| EmissionView::Fragment(f))
            =~= Seq::<EmissionView>::empty());
        assert(spec_fragments(views.take(0)).map_values(
            |f: Seq<char>| EmissionView::Fragment(f),
        ) =~= Seq::<EmissionView>::empty());
    }
    while i < chunks.len()
        invariant
            i <= chunks.len(),
            views == chunks@.map_values(|c: String| c@),
            views.len() == chunks@.len(),
            session@ == mid,
            session.wf(),
            full@ == spec_full_text(views.take(i as int)),
            out@.map_values(|e: Emission| e@) == spec_fragments(views.take(i as int)).map_values(
                |f: Seq<char>| EmissionView::Fragment(f),
            ),
        decreases chunks.len() - i,
    {
        let ghost taken = views.take(i as int);
        let ghost outpre = out@.map_values(|e: Emission| e@);
        proof {
            assert(views.take(i + 1) =~= taken.push(views[i as int]));
            lemma_fragments_push(taken, views[i as int]);
            assert(chunks@[i as int]@ == views[i as int]);
        }
        match process_chunk(chunks[i].as_str()) {
            Some(f) => {
                full.append(f.as_str());
                out.push(Emission::Fragment(f));
                proof {
                    assert(out@.map_values(|e: Emission| e@) =~= outpre.push(
                        EmissionView::Fragment(fragment_of(views[i as int])),
                    ));
                    assert(spec_fragments(taken.push(views[i as int])).map_values(
                        |f: Seq<char>| EmissionView::Fragment(f),
                    ) =~= outpre.push(EmissionView::Fragment(fragment_of(views[i as int]))));
                }
            },
            None => {
                proof {
                    assert(fragment_of(views[i as int]).len() == 0);
                    assert(full@ + fragment_of(views[i as int]) =~= full@);
                    assert(spec_fragments(taken.push(views[i as int])) =~= spec_fragments(taken)
                        + Seq::<Seq<char>>::empty());
                    assert(spec_fragments(taken) + Seq::<Seq<char>>::empty() =~= spec_fragments(
                        taken,
                    ));
                }
            },
        }
        i = i + 1;
    }
    proof {
        assert(views.take(views.len() as int) =~= views);
    }
    session.append("assistant".to_owned(), full.clone());
    let ghost outfrags = out@.map_values(|e: Emission| e@);
    match extract(full.as_str()) {
        Some(inv) => {
            out.push(Emission::ToolDetected(inv));
            out.push(Emission::Done);
            proof {
                assert(out@.map_values(|e: Emission| e@) =~= outfrags + seq![
                    EmissionView::ToolDetected(spec_extract(spec_full_text(views)).unwrap()),
                    EmissionView::Done,
                ]);
                assert(outfrags + seq![
                    EmissionView::ToolDetected(spec_extract(spec_full_text(views)).unwrap()),
                    EmissionView::Done,
                ] =~= spec_turn_emissions(views));
            }
        },
        None => {
            out.push(Emission::Done);
            proof {
                assert(out@.map_values(|e: Emission| e@) =~= outfrags + seq![EmissionView::Done]);
                assert(outfrags + seq![EmissionView::Done] =~= spec_turn_emissions(views));
            }
        },
    }
    out
}

/// Law: the terminal signal is emitted exactly once, strictly after every
/// fragment and after the tool-detection step; a detected tool call is
/// emitted after every fragment and before the terminal signal.
pub proof fn lemma_emission_order(chunks: Seq<Seq<char>>)
    ensures
        spec_turn_emissions(chunks).len() > 0,
        spec_turn_emissions(chunks).last() == EmissionView::Done,
        forall|k: int|
            0 <= k < spec_turn_emissions(chunks).len() - 1 ==> spec_turn_emissions(chunks)[k]
                != EmissionView::Done,
        spec_extract(spec_full_text(chunks)) matches Some(tj) ==> {
            let e = spec_turn_emissions(chunks);
            &&& e[e.len() - 2] == EmissionView::ToolDetected(tj)
            &&& forall|k: int| 0 <= k < e.len() - 2 ==> e[k] is Fragment
        },
        spec_extract(spec_full_text(chunks)) is None ==> forall|k: int|
            0 <= k < spec_turn_emissions(chunks).len() - 1 ==> spec_turn_emissions(chunks)[k]
                is Fragment,
{
    let frags = spec_fragments(chunks).map_values(|f: Seq<char>| EmissionView::Fragment(f));
    let e = spec_turn_emissions(chunks);
    match spec_extract(spec_full_text(chunks)) {
        Some(tj) => {
            assert(e.len() == frags.len() + 2);
            assert(e.last() == EmissionView::Done);
            assert(forall|k: int| 0 <= k < frags.len() ==> e[k] == frags[k]);
            assert(forall|k: int| 0 <= k < frags.len() ==> frags[k] is Fragment);
        },
        None => {
            assert(e.len() == frags.len() + 1);
            assert(e.last() == EmissionView::Done);
            assert(forall|k: int| 0 <= k < frags.len() ==> e[k] == frags[k]);
            assert(forall|k: int| 0 <= k < frags.len() ==> frags[k] is Fragment);
        },
    }
}

/// Law: turns never interleave. The session is exclusive for a whole turn,
/// so when one turn's two appends are followed by another's, the second
/// turn's user message stands strictly after the first turn's assistant
/// message in the history — for any scheduling, the appends of distinct
/// turns form disjoint adjacent pairs.
pub proof fn lemma_turns_never_interleave(
    h0: Seq<MsgView>,
    user_a: MsgView,
    assistant_a: MsgView,
    user_b: MsgView,
    assistant_b: MsgView,
    h1: Seq<MsgView>,
    h2: Seq<MsgView>,
)
    requires
        h1 == h0.push(user_a).push(assistant_a),
        h2 == h1.push(user_b).push(assistant_b),
    ensures
        h2 == h0 + seq![user_a, assistant_a, user_b, assistant_b],
        h2[h0.len() as int + 1] == assistant_a,
        h2[h0.len() as int + 2] == user_b,
{
    assert(h2 =~= h0 + seq![user_a, assistant_a, user_b, assistant_b]);
}

} // verus!
