//! The conversation session: an ordered message history and the active model
//! identifier, mutated only by appending at the tail.

use vstd::prelude::*;

verus! {

/// One message of the conversation, as it stands in the history and on the
/// wire: a role (`system`, `user` or `assistant`) and free text.
pub struct ChatMessage {
    pub role: String,
    pub content: String,
}

/// The mathematical value of a message: its role and content as character
/// sequences.
pub ghost struct MsgView {
    pub role: Seq<char>,
    pub content: Seq<char>,
}

impl View for ChatMessage {
    type V = MsgView;

    open spec fn view(&self) -> MsgView {
        MsgView { role: self.role@, content: self.content@ }
    }
}

/// The mathematical value of a session: the ordered history and the model
/// identifier.
pub ghost struct SessionView {
    pub history: Seq<MsgView>,
    pub model: Seq<char>,
}

/// A conversation session. The first history entry is the system prompt,
/// placed once at construction; every later change appends at the tail.
pub struct Session {
    history: Vec<ChatMessage>,
    model: String,
}

impl View for Session {
    type V = SessionView;

    closed spec fn view(&self) -> SessionView {
        SessionView {
            history: self.history@.map_values(|m: ChatMessage| m@),
            model: self.model@,
        }
    }
}

impl Session {
    /// Well-formed: the history starts with the system message and is never
    /// empty.
    pub open spec fn wf(self) -> bool {
        self@.history.len() >= 1 && self@.history[0].role == "system"@
    }

    /// Create a session whose history holds exactly the system prompt.
    pub fn new(model: String, system_prompt: &str) -> (s: Session)
        ensures
            s.wf(),
            s@.history == seq![MsgView { role: "system"@, content: system_prompt@ }],
            s@.model == model@,
    {
        let mut history: Vec<ChatMessage> = Vec::new();
        history.push(ChatMessage { role: "system".to_owned(), content: system_prompt.to_owned() });
        let s = Session { history, model };
        proof {
            assert(s@.history =~= seq![MsgView { role: "system"@, content: system_prompt@ }]);
        }
        s
    }

    /// Append one message at the tail; nothing else moves.
    pub fn append(&mut self, role: String, content: String)
        requires
            old(self).wf(),
        ensures
            final(self).wf(),
            final(self)@.history == old(self)@.history.push(
                MsgView { role: role@, content: content@ },
            ),
            final(self)@.model == old(self)@.model,
    {
        let ghost pre = self@.history;
        let ghost m = MsgView { role: role@, content: content@ };
        self.history.push(ChatMessage { role, content });
        proof {
            assert(self@.history =~= pre.push(m));
        }
    }

    /// An immutable copy of the full ordered history together with the model
    /// identifier, equal to the session's current value.
    pub fn snapshot(&self) -> (r: (Vec<ChatMessage>, String))
        ensures
            r.0@.map_values(|m: ChatMessage| m@) == self@.history,
            r.1@ == self@.model,
    {
        let mut copy: Vec<ChatMessage> = Vec::new();
        let mut i: usize = 0;
        while i < self.history.len()
            invariant
                i <= self.history.len(),
                copy@.len() == i as nat,
                forall|k: int| 0 <= k < i ==> copy@[k] == self.history@[k],
            decreases self.history.len() - i,
        {
            let m = ChatMessage {
                role: self.history[i].role.clone(),
                content: self.history[i].content.clone(),
            };
            copy.push(m);
            i = i + 1;
        }
        proof {
            assert(copy@ =~= self.history@);
        }
        (copy, self.model.clone())
    }

    /// Replace the active model identifier; the history is untouched.
    pub fn set_model(&mut self, model: String)
        requires
            old(self).wf(),
        ensures
            final(self).wf(),
            final(self)@.model == model@,
            final(self)@.history == old(self)@.history,
    {
        self.model = model;
        proof {
            assert(self@.history =~= old(self)@.history);
        }
    }
}

/// The history that a run of single-message appends leaves behind, starting
/// from `h`.
pub open spec fn after_appends(h: Seq<MsgView>, appended: Seq<MsgView>) -> Seq<MsgView>
    decreases appended.len(),
{
    if appended.len() == 0 {
        h
    } else {
        after_appends(h.push(appended[0]), appended.drop_first())
    }
}

/// Law: any sequence of appends grows the history at the tail only. The
/// resulting history is the starting history followed by the appended
/// messages, in append order, so a snapshot taken afterwards has length equal
/// to the count of appends plus the starting length (one, for a fresh session
/// holding only the system message).
pub proof fn lemma_appends_keep_order(h: Seq<MsgView>, appended: Seq<MsgView>)
    ensures
        after_appends(h, appended) == h + appended,
        after_appends(h, appended).len() == h.len() + appended.len(),
    decreases appended.len(),
{
    if appended.len() == 0 {
        assert(h + appended =~= h);
    } else {
        lemma_appends_keep_order(h.push(appended[0]), appended.drop_first());
        assert(h.push(appended[0]) + appended.drop_first() =~= h + appended);
    }
}

} // verus!
