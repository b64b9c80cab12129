//! Answering a user's message with one plain call of the model: the history that is sent,
//! and the answer that is stored.
use vstd::prelude::*;
use vstd::string::*;
use crate::llm::llm_adapter::LlmMessage;
use crate::messages::messages_db::{CreateMessageRequest, Message};

verus! {

/// Whether storing a message with this role asks the agent for an answer: only a user's
/// message does.
pub fn wants_reply(role: &str) -> (b: bool)
    ensures
        b == (role@ == "user"@),
{
    crate::text::str_eq(role, "user")
}

/// Whether `l` carries the role and the content of the stored message, and nothing else.
pub open spec fn carries(l: LlmMessage, m: Message) -> bool {
    &&& l.role@ == m.role@
    &&& l.content matches Some(c) && c@ == m.content@
    &&& l.tool_calls is None
    &&& l.tool_call_id is None
}

/// The history sent to the model: each stored message, in order, by role and content.
pub fn history_for_model(records: &Vec<Message>) -> (r: Vec<LlmMessage>)
    ensures
        r@.len() == records@.len(),
        forall|i: int| 0 <= i < records@.len() ==> carries(#[trigger] r@[i], records@[i]),
{
    let mut out: Vec<LlmMessage> = Vec::new();
    let mut i: usize = 0;
    while i < records.len()
        invariant
            i <= records@.len(),
            out@.len() == i,
            forall|j: int| 0 <= j < i ==> carries(#[trigger] out@[j], records@[j]),
        decreases records@.len() - i,
    {
        let m = &records[i];
        out.push(
            LlmMessage {
                role: m.role.clone(),
                content: Some(m.content.clone()),
                tool_calls: None,
                tool_call_id: None,
            },
        );
        i = i + 1;
    }
    out
}

/// The message that stores the model's answer in the session.
pub fn assistant_reply(session_id: u128, content: String) -> (r: CreateMessageRequest)
    ensures
        r.session_id == session_id,
        r.role@ == "assistant"@,
        r.content@ == content@,
{
    CreateMessageRequest { session_id, role: String::from_str("assistant"), content }
}

} // verus!
