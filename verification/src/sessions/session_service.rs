//! Opening and showing sessions.
use vstd::prelude::*;
use crate::sessions::sessions_db::{CreateSessionRequest, Session};
use crate::text::{opt_owned, opt_str_view, opt_string_view};

verus! {

/// A session as the API shows it.
#[derive(Debug)]
pub struct SessionResponse {
    pub id: u128,
    pub agent_id: u128,
    pub user_id: u128,
    pub title: Option<String>,
    pub is_active: bool,
}

/// The session to store for a user's new conversation with an agent.
pub fn create_session_request(agent_id: u128, user_id: u128, title: Option<&str>) -> (r:
    CreateSessionRequest)
    ensures
        r.agent_id == agent_id,
        r.user_id == user_id,
        opt_string_view(r.title) == opt_str_view(title),
{
    CreateSessionRequest { agent_id, user_id, title: opt_owned(title) }
}

/// Whether a response shows exactly the stored session.
pub open spec fn shows_session(r: SessionResponse, s: Session) -> bool {
    &&& r.id == s.id
    &&& r.agent_id == s.agent_id
    &&& r.user_id == s.user_id
    &&& opt_string_view(r.title) == opt_string_view(s.title)
    &&& r.is_active == s.is_active
}

/// Law: a response shows a stored session when each of its fields, the title included, holds
/// what the session holds.
pub proof fn law_session_shown_field_by_field(r: SessionResponse, s: Session)
    ensures
        shows_session(r, s) <==> (r.id == s.id && r.agent_id == s.agent_id && r.user_id == s.user_id
            && r.is_active == s.is_active && (r.title is None <==> s.title is None) && (r.title is Some
            ==> r.title->0@ == s.title->0@)),
{
}

/// A stored session as the API shows it.
pub fn session_response(s: Session) -> (r: SessionResponse)
    ensures
        shows_session(r, s),
{
    SessionResponse {
        id: s.id,
        agent_id: s.agent_id,
        user_id: s.user_id,
        title: s.title,
        is_active: s.is_active,
    }
}

/// Stored sessions as the API lists them, in the same order.
pub fn session_responses(sessions: Vec<Session>) -> (r: Vec<SessionResponse>)
    ensures
        r@.len() == sessions@.len(),
        forall|i: int| 0 <= i < sessions@.len() ==> shows_session(#[trigger] r@[i], sessions@[i]),
{
    let mut out: Vec<SessionResponse> = Vec::new();
    let mut rest = sessions;
    let ghost all = sessions@;
    while rest.len() > 0
        invariant
            out@.len() + rest@.len() == all.len(),
            rest@ == all.subrange(out@.len() as int, all.len() as int),
            forall|i: int| 0 <= i < out@.len() ==> shows_session(#[trigger] out@[i], all[i]),
        decreases rest@.len(),
    {
        let s = rest.remove(0);
        out.push(session_response(s));
    }
    out
}

} // verus!
