//! Conversation turns and the Dialogue Backend's request and response shapes.
//! A turn is attributed to the caller (role `user`), the agent (`assistant`),
//! or the system; the full ordered history is resent on every backend call.

use vstd::prelude::*;

verus! {

/// One message of the conversation history.
pub struct LlmMessage {
    pub role: String,
    pub content: String,
}

/// The mathematical shape of one turn: its role and content as character
/// sequences.
#[verifier::ext_equal]
pub struct TurnView {
    pub role: Seq<char>,
    pub content: Seq<char>,
}

impl View for LlmMessage {
    type V = TurnView;

    open spec fn view(&self) -> TurnView {
        TurnView { role: self.role@, content: self.content@ }
    }
}

impl Clone for LlmMessage {
    fn clone(&self) -> (r: Self)
        ensures
            r@ == self@,
    {
        LlmMessage { role: self.role.clone(), content: self.content.clone() }
    }
}

/// The views of a whole history, in order.
pub open spec fn views_of(s: Seq<LlmMessage>) -> Seq<TurnView> {
    s.map_values(|m: LlmMessage| m@)
}

/// The role naming the caller's turns.
pub open spec fn spec_role_user() -> Seq<char> {
    "user"@
}

/// The role naming the agent's turns.
pub open spec fn spec_role_assistant() -> Seq<char> {
    "assistant"@
}

/// A caller turn with the given content.
pub fn user_message(content: String) -> (m: LlmMessage)
    ensures
        m@.role == spec_role_user(),
        m@.content == content@,
{
    LlmMessage { role: "user".to_owned(), content }
}

/// An agent turn with the given content.
pub fn assistant_message(content: String) -> (m: LlmMessage)
    ensures
        m@.role == spec_role_assistant(),
        m@.content == content@,
{
    LlmMessage { role: "assistant".to_owned(), content }
}

/// What `llm_messages_to_string` renders: an empty history gives the empty
/// string; otherwise the last message alone, as `Customer: <content> ` for the
/// caller's role and `Me: <content> ` for any other. Each message overwrites
/// the previous rendering rather than extending it.
pub open spec fn spec_messages_to_string(msgs: Seq<TurnView>) -> Seq<char> {
    if msgs.len() == 0 {
        Seq::empty()
    } else {
        let m = msgs.last();
        let label = if m.role == spec_role_user() {
            "Customer"@
        } else {
            "Me"@
        };
        label + ": "@ + m.content + " "@
    }
}

/// Renders a history for display. Each message's rendering replaces the
/// previous one, so only the last message shows.
pub fn llm_messages_to_string(llm_messages: Vec<LlmMessage>) -> (r: String)
    ensures
        r@ == spec_messages_to_string(views_of(llm_messages@)),
{
    let user_role = "user".to_owned();
    let mut result = String::new();
    let mut i: usize = 0;
    while i < llm_messages.len()
        invariant
            0 <= i <= llm_messages@.len(),
            user_role@ == spec_role_user(),
            result@ == spec_messages_to_string(views_of(llm_messages@.take(i as int))),
        decreases llm_messages@.len() - i,
    {
        let m = &llm_messages[i];
        let label = if m.role == user_role {
            "Customer"
        } else {
            "Me"
        };
        let mut line = label.to_owned();
        line.append(": ");
        line.append(m.content.as_str());
        line.append(" ");
        result = line;
        proof {
            assert(views_of(llm_messages@.take(i + 1)).last() == llm_messages@[i as int]@);
        }
        i = i + 1;
    }
    proof {
        assert(llm_messages@.take(llm_messages@.len() as int) =~= llm_messages@);
    }
    result
}

/// The request body shape of the hosted Dialogue Backend: the ordered history
/// under a single `text` field.
pub struct DgLlmRequest {
    pub text: Vec<LlmMessage>,
}

/// The response body shape of the hosted Dialogue Backend: the reply text
/// under a single `results` field.
pub struct DgLlmResponse {
    pub results: String,
}

/// The chat-completion request shape of the alternative Dialogue Backend.
pub struct ChatGPTRequest {
    pub model: String,
    pub messages: Vec<LlmMessage>,
}

impl ChatGPTRequest {
    /// A request carrying the given history under the fixed model name.
    pub fn new(messages: Vec<LlmMessage>) -> (r: Self)
        ensures
            r.model@ == "gpt-3.5-turbo"@,
            r.messages@ == messages@,
    {
        ChatGPTRequest { model: "gpt-3.5-turbo".to_owned(), messages }
    }
}

/// Token accounting of a chat-completion response.
pub struct ChatGPTUsage {
    pub prompt_tokens: usize,
    pub completion_tokens: usize,
    pub total_tokens: usize,
}

/// One candidate reply of a chat-completion response.
pub struct ChatGPTChoice {
    pub index: usize,
    pub message: LlmMessage,
    pub finish_reason: String,
}

/// The chat-completion response shape of the alternative Dialogue Backend.
pub struct ChatGPTResponse {
    pub id: String,
    pub object: String,
    pub created: u64,
    pub choices: Vec<ChatGPTChoice>,
    pub usage: ChatGPTUsage,
}

/// The reply a chat-completion response carries: the first choice's content,
/// if the response has any choice at all.
pub fn chatgpt_reply(response: ChatGPTResponse) -> (r: Option<String>)
    ensures
        response.choices@.len() == 0 <==> r is None,
        response.choices@.len() > 0 ==> (r matches Some(t) && t@
            == response.choices@[0].message@.content),
{
    if response.choices.len() == 0 {
        None
    } else {
        let m = &response.choices[0].message;
        Some(m.content.clone())
    }
}

} // verus!
