//! Dialogue Engine: the per-call state machine that turns transcript events
//! into conversation turns. It accumulates transcript fragments, detects
//! utterance completion, hands the full history out for each Dialogue Backend
//! call, and appends the backend's reply — the engine alone owns the history
//! and the accumulator, so a backend retry can never duplicate a turn.

use vstd::prelude::*;

use crate::llm::{
    assistant_message, spec_role_assistant, spec_role_user, user_message, views_of, LlmMessage,
    TurnView,
};

verus! {

/// The engine's state, mathematically: the ordered history, the utterance
/// accumulator (transcript fragments already final, and the latest non-final
/// hypothesis), and whether the call has ended.
#[verifier::ext_equal]
pub struct EngineView {
    pub turns: Seq<TurnView>,
    pub committed: Seq<char>,
    pub pending: Seq<char>,
    pub ended: bool,
}

/// The per-call dialogue state machine.
pub struct DialogueEngine {
    turns: Vec<LlmMessage>,
    committed: String,
    pending: String,
    ended: bool,
}

impl View for DialogueEngine {
    type V = EngineView;

    closed spec fn view(&self) -> EngineView {
        EngineView {
            turns: views_of(self.turns@),
            committed: self.committed@,
            pending: self.pending@,
            ended: self.ended,
        }
    }
}

/// A fragment joined onto already-accumulated text, separated by one space.
pub open spec fn spec_join_utterance(committed: Seq<char>, text: Seq<char>) -> Seq<char> {
    if committed.len() == 0 {
        text
    } else {
        committed + " "@ + text
    }
}

/// The utterance the accumulator currently holds: the final fragments, with
/// the latest non-final hypothesis (which finalized fragments supersede)
/// joined on the end.
pub open spec fn spec_utterance(v: EngineView) -> Seq<char> {
    if v.pending.len() == 0 {
        v.committed
    } else {
        spec_join_utterance(v.committed, v.pending)
    }
}

/// One transcript event. An empty text changes nothing. A final fragment is
/// joined onto the accumulator and clears the pending hypothesis it
/// supersedes; a non-final fragment replaces the pending hypothesis (each
/// hypothesis restates the fragment so far). The history never changes here.
pub open spec fn spec_on_transcript(v: EngineView, text: Seq<char>, is_final: bool) -> EngineView {
    if text.len() == 0 {
        v
    } else if is_final {
        EngineView {
            turns: v.turns,
            committed: spec_join_utterance(v.committed, text),
            pending: Seq::empty(),
            ended: v.ended,
        }
    } else {
        EngineView { turns: v.turns, committed: v.committed, pending: text, ended: v.ended }
    }
}

/// An utterance-boundary marker. With an empty accumulator it is a no-op;
/// otherwise the utterance is appended as a caller turn and the accumulator
/// cleared.
pub open spec fn spec_on_boundary(v: EngineView) -> EngineView {
    let utt = spec_utterance(v);
    if utt.len() == 0 {
        v
    } else {
        EngineView {
            turns: v.turns.push(TurnView { role: spec_role_user(), content: utt }),
            committed: Seq::empty(),
            pending: Seq::empty(),
            ended: v.ended,
        }
    }
}

/// A backend reply: appended as one assistant turn, nothing else moves.
pub open spec fn spec_on_reply(v: EngineView, reply: Seq<char>) -> EngineView {
    EngineView {
        turns: v.turns.push(TurnView { role: spec_role_assistant(), content: reply }),
        committed: v.committed,
        pending: v.pending,
        ended: v.ended,
    }
}

/// One post-call prompt: appended as a caller turn.
pub open spec fn spec_on_post_prompt(v: EngineView, prompt: Seq<char>) -> EngineView {
    EngineView {
        turns: v.turns.push(TurnView { role: spec_role_user(), content: prompt }),
        committed: v.committed,
        pending: v.pending,
        ended: v.ended,
    }
}

impl DialogueEngine {
    /// A fresh engine for one call: the configured pre-call instruction as the
    /// first (caller-role) turn and the configured greeting as the second
    /// (assistant) turn, before any transcript is processed. The greeting is
    /// what the call leg must synthesize and send first.
    pub fn new(pre_call_prompt: &str, initial_call_message: &str) -> (e: Self)
        ensures
            e@.turns.len() == 2,
            e@.turns[0] == (TurnView { role: spec_role_user(), content: pre_call_prompt@ }),
            e@.turns[1] == (TurnView {
                role: spec_role_assistant(),
                content: initial_call_message@,
            }),
            e@.committed.len() == 0,
            e@.pending.len() == 0,
            !e@.ended,
    {
        let mut turns: Vec<LlmMessage> = Vec::new();
        turns.push(user_message(pre_call_prompt.to_owned()));
        turns.push(assistant_message(initial_call_message.to_owned()));
        DialogueEngine { turns, committed: String::new(), pending: String::new(), ended: false }
    }

    /// The ordered history so far.
    pub fn turns(&self) -> (r: &Vec<LlmMessage>)
        ensures
            views_of(r@) == self@.turns,
    {
        &self.turns
    }

    /// Whether the inbound leg has ended: replies from here on belong to the
    /// post-call sequence.
    pub fn is_post_call(&self) -> (r: bool)
        ensures
            r == self@.ended,
    {
        self.ended
    }

    /// The utterance the accumulator currently holds.
    pub fn utterance(&self) -> (r: String)
        ensures
            r@ == spec_utterance(self@),
    {
        if self.pending.as_str().is_empty() {
            self.committed.clone()
        } else if self.committed.as_str().is_empty() {
            self.pending.clone()
        } else {
            let mut r = self.committed.clone();
            r.append(" ");
            r.append(self.pending.as_str());
            r
        }
    }

    /// Feeds one transcript event. Returns whether the telephony leg must be
    /// told to clear queued playback (barge-in): exactly when the caller said
    /// something, final or not. The event itself is also rebroadcast to
    /// observers by the caller of this method, whatever it was.
    pub fn on_transcript(&mut self, text: &str, is_final: bool) -> (clear_playback: bool)
        ensures
            final(self)@ == spec_on_transcript(old(self)@, text@, is_final),
            clear_playback == (text@.len() > 0),
    {
        if text.is_empty() {
            return false;
        }
        if is_final {
            if self.committed.as_str().is_empty() {
                self.committed = text.to_owned();
            } else {
                self.committed.append(" ");
                self.committed.append(text);
            }
            self.pending = String::new();
        } else {
            self.pending = text.to_owned();
        }
        proof {
            assert(self@ =~~= spec_on_transcript(old(self)@, text@, is_final));
        }
        true
    }

    /// Feeds an utterance-boundary marker. With an empty accumulator this is a
    /// no-op and no backend call is owed; otherwise the utterance becomes a
    /// caller turn, the accumulator empties, and the full history to send to
    /// the Dialogue Backend is returned.
    pub fn on_utterance_boundary(&mut self) -> (r: Option<Vec<LlmMessage>>)
        ensures
            final(self)@ == spec_on_boundary(old(self)@),
            r is Some <==> spec_utterance(old(self)@).len() > 0,
            r matches Some(req) ==> views_of(req@) == final(self)@.turns,
    {
        let utt = self.utterance();
        if utt.as_str().is_empty() {
            return None;
        }
        self.turns.push(user_message(utt));
        self.committed = String::new();
        self.pending = String::new();
        let req = self.clone_turns();
        proof {
            assert(self@ =~~= spec_on_boundary(old(self)@));
        }
        Some(req)
    }

    /// Appends the Dialogue Backend's reply as one assistant turn. Retries of
    /// a timed-out backend call happen before this point, on the transport
    /// side: however many attempts a reply took, it is appended exactly once.
    pub fn on_assistant_reply(&mut self, reply: &str)
        ensures
            final(self)@ == spec_on_reply(old(self)@, reply@),
    {
        self.turns.push(assistant_message(reply.to_owned()));
        proof {
            assert(self@ =~~= spec_on_reply(old(self)@, reply@));
        }
    }

    /// Marks the inbound leg's event stream as terminated: the call has ended
    /// and only the post-call sequence remains.
    pub fn on_call_end(&mut self)
        ensures
            final(self)@ == (EngineView {
                turns: old(self)@.turns,
                committed: old(self)@.committed,
                pending: old(self)@.pending,
                ended: true,
            }),
    {
        self.ended = true;
    }

    /// Appends one configured post-call prompt as a caller turn and returns
    /// the full history to send to the Dialogue Backend. Only meaningful once
    /// the call has ended.
    pub fn post_call_prompt(&mut self, prompt: &str) -> (req: Vec<LlmMessage>)
        requires
            old(self)@.ended,
        ensures
            final(self)@ == spec_on_post_prompt(old(self)@, prompt@),
            views_of(req@) == final(self)@.turns,
    {
        self.turns.push(user_message(prompt.to_owned()));
        proof {
            assert(self@ =~~= spec_on_post_prompt(old(self)@, prompt@));
        }
        self.clone_turns()
    }

    /// A copy of the history, turn for turn.
    fn clone_turns(&self) -> (r: Vec<LlmMessage>)
        ensures
            views_of(r@) == self@.turns,
    {
        let mut r: Vec<LlmMessage> = Vec::new();
        let mut i: usize = 0;
        while i < self.turns.len()
            invariant
                0 <= i <= self.turns@.len(),
                r@.len() == i,
                forall|j: int| 0 <= j < i ==> r@[j]@ == self.turns@[j]@,
            decreases self.turns@.len() - i,
        {
            let m = self.turns[i].clone();
            r.push(m);
            i = i + 1;
        }
        proof {
            assert(views_of(r@) =~= views_of(self.turns@));
        }
        r
    }
}

/// An utterance boundary reaching an empty accumulator produces no backend
/// call and changes no state.
pub proof fn lemma_boundary_empty_is_noop(v: EngineView)
    requires
        spec_utterance(v).len() == 0,
    ensures
        spec_on_boundary(v) == v,
{
}

/// One completed exchange — a boundary over a non-empty utterance followed by
/// one backend reply — appends exactly one caller turn and one assistant turn,
/// whatever the utterance was and however many retries the reply took.
pub proof fn lemma_exchange_appends_single_pair(v: EngineView, reply: Seq<char>)
    requires
        spec_utterance(v).len() > 0,
    ensures
        ({
            let v1 = spec_on_reply(spec_on_boundary(v), reply);
            &&& v1.turns == v.turns.push(
                TurnView { role: spec_role_user(), content: spec_utterance(v) },
            ).push(TurnView { role: spec_role_assistant(), content: reply })
            &&& v1.committed.len() == 0
            &&& v1.pending.len() == 0
            &&& v1.ended == v.ended
        }),
{
}

/// The whole post-call sequence, prompt by prompt: each configured prompt is
/// appended as a caller turn and its reply as an assistant turn.
pub open spec fn spec_post_call_run(
    v: EngineView,
    prompts: Seq<Seq<char>>,
    replies: Seq<Seq<char>>,
) -> EngineView
    decreases prompts.len(),
{
    if prompts.len() == 0 {
        v
    } else {
        spec_post_call_run(
            spec_on_reply(spec_on_post_prompt(v, prompts[0]), replies[0]),
            prompts.drop_first(),
            replies.drop_first(),
        )
    }
}

/// The post-call sequence makes exactly one backend exchange per configured
/// prompt, in configured order: the history grows by one caller turn holding
/// the prompt and one assistant turn holding the reply, per prompt, and
/// nothing already in the history moves.
pub proof fn lemma_post_call_appends_pairs(
    v: EngineView,
    prompts: Seq<Seq<char>>,
    replies: Seq<Seq<char>>,
)
    requires
        prompts.len() == replies.len(),
    ensures
        ({
            let vn = spec_post_call_run(v, prompts, replies);
            &&& vn.turns.len() == v.turns.len() + 2 * prompts.len()
            &&& forall|j: int| 0 <= j < v.turns.len() ==> vn.turns[j] == v.turns[j]
            &&& forall|i: int|
                0 <= i < prompts.len() ==> vn.turns[v.turns.len() + 2 * i] == (TurnView {
                    role: spec_role_user(),
                    content: prompts[i],
                }) && vn.turns[v.turns.len() + 2 * i + 1] == (TurnView {
                    role: spec_role_assistant(),
                    content: replies[i],
                })
            &&& vn.ended == v.ended
            &&& vn.committed == v.committed
            &&& vn.pending == v.pending
        }),
    decreases prompts.len(),
{
    if prompts.len() > 0 {
        let v1 = spec_on_reply(spec_on_post_prompt(v, prompts[0]), replies[0]);
        lemma_post_call_appends_pairs(v1, prompts.drop_first(), replies.drop_first());
        let vn = spec_post_call_run(v, prompts, replies);
        assert(vn == spec_post_call_run(v1, prompts.drop_first(), replies.drop_first()));
        assert(v1.turns.len() == v.turns.len() + 2);
        assert(v1.turns[v.turns.len() as int] == (TurnView {
            role: spec_role_user(),
            content: prompts[0],
        }));
        assert(v1.turns[v.turns.len() as int + 1] == (TurnView {
            role: spec_role_assistant(),
            content: replies[0],
        }));
        assert forall|i: int| 0 <= i < prompts.len() implies vn.turns[v.turns.len() + 2 * i]
            == (TurnView { role: spec_role_user(), content: prompts[i] }) && vn.turns[v.turns.len()
            + 2 * i + 1] == (TurnView { role: spec_role_assistant(), content: replies[i] }) by {
            if i == 0 {
                assert(vn.turns[v.turns.len() as int] == v1.turns[v.turns.len() as int]);
                assert(vn.turns[v.turns.len() as int + 1] == v1.turns[v.turns.len() as int + 1]);
            } else {
                assert(prompts.drop_first()[i - 1] == prompts[i]);
                assert(replies.drop_first()[i - 1] == replies[i]);
                assert(v.turns.len() + 2 * i == v1.turns.len() + 2 * (i - 1));
                assert(v.turns.len() + 2 * i + 1 == v1.turns.len() + 2 * (i - 1) + 1);
            }
        }
    }
}

} // verus!
