//! What the client sends to and reads from the chat-completion endpoint.
use vstd::prelude::*;
use vstd::string::*;
use crate::session::{role_name, ChatMessage as Turn, Session};

verus! {

/// One message of a chat-completion request.
pub struct ChatMessage {
    pub role: String,
    pub content: String,
}

/// Token counts the server reports with an answer.
pub struct Usage {
    pub prompt_tokens: u32,
    pub completion_tokens: u32,
    pub total_tokens: u32,
}

/// The request message for a transcript turn.
pub open spec fn wire_message(t: Turn) -> (Seq<char>, Seq<char>) {
    (role_name(t.role), t.content@)
}

/// The transcript as request messages, in order.
pub fn request_messages(session: &Session) -> (r: Vec<ChatMessage>)
    ensures
        r@.len() == session.messages@.len(),
        forall|i: int| 0 <= i < r@.len() ==> (#[trigger] r@[i].role@, r@[i].content@) == wire_message(session.messages@[i]),
{
    let mut out: Vec<ChatMessage> = Vec::new();
    let mut i: usize = 0;
    while i < session.messages.len()
        invariant
            i <= session.messages@.len(),
            out@.len() == i,
            forall|j: int| 0 <= j < i ==> (#[trigger] out@[j].role@, out@[j].content@) == wire_message(session.messages@[j]),
        decreases session.messages@.len() - i,
    {
        let m = &session.messages[i];
        out.push(ChatMessage { role: String::from_str(m.role.name()), content: m.content.clone() });
        i += 1;
    }
    out
}

/// The endpoint a completion request is posted to.
pub fn completion_url(api_base: &str) -> (r: String)
    ensures
        r@ == api_base@ + "/chat/completions"@,
{
    let mut u = String::from_str(api_base);
    u.append("/chat/completions");
    u
}

} // verus!
