//! Creating, changing and showing agents.
use vstd::prelude::*;
use crate::agents::db::{Agent, CreateAgentRequest};
use crate::error::{AppError, validation};
use crate::text::{opt_owned, opt_str_view, opt_string_view};

verus! {

/// An agent as the API shows it.
#[derive(Debug)]
pub struct AgentResponse {
    pub id: u128,
    pub user_id: u128,
    pub model_id: u128,
    pub parent_id: Option<u128>,
    pub name: String,
    pub description: Option<String>,
    pub system_prompt: String,
}

/// The agent to store for a new agent of a user: its name and its system prompt are
/// required, the name first.
pub fn create_agent_request(
    user_id: u128,
    model_id: u128,
    name: &str,
    description: Option<&str>,
    system_prompt: &str,
) -> (r: Result<CreateAgentRequest, AppError>)
    ensures
        name@.len() == 0 ==> (r matches Err(AppError::Validation(m)) && m@ == "Name is required"@),
        name@.len() > 0 && system_prompt@.len() == 0 ==> (r matches Err(AppError::Validation(m))
            && m@ == "System prompt is required"@),
        name@.len() > 0 && system_prompt@.len() > 0 ==> (r matches Ok(q) && q.user_id == user_id
            && q.model_id == model_id && q.name@ == name@ && opt_string_view(q.description)
            == opt_str_view(description) && q.system_prompt@ == system_prompt@),
{
    if name.is_empty() {
        return Err(validation("Name is required"));
    }
    if system_prompt.is_empty() {
        return Err(validation("System prompt is required"));
    }
    Ok(
        CreateAgentRequest {
            user_id,
            model_id,
            name: name.to_owned(),
            description: opt_owned(description),
            system_prompt: system_prompt.to_owned(),
        },
    )
}

/// Checks a change of an agent: its name is required.
pub fn validate_agent_update(name: &str) -> (r: Result<(), AppError>)
    ensures
        name@.len() == 0 ==> (r matches Err(AppError::Validation(m)) && m@ == "Name is required"@),
        name@.len() > 0 ==> r is Ok,
{
    if name.is_empty() {
        Err(validation("Name is required"))
    } else {
        Ok(())
    }
}

/// Whether a response shows exactly the stored agent.
pub open spec fn shows_agent(r: AgentResponse, a: Agent) -> bool {
    &&& r.id == a.id
    &&& r.user_id == a.user_id
    &&& r.model_id == a.model_id
    &&& r.parent_id == a.parent_id
    &&& r.name@ == a.name@
    &&& opt_string_view(r.description) == opt_string_view(a.description)
    &&& r.system_prompt@ == a.system_prompt@
}

/// Law: a response shows a stored agent when each of its fields, the description included,
/// holds what the agent holds.
pub proof fn law_agent_shown_field_by_field(r: AgentResponse, a: Agent)
    ensures
        shows_agent(r, a) <==> (r.id == a.id && r.user_id == a.user_id && r.model_id == a.model_id
            && r.parent_id == a.parent_id && r.name@ == a.name@ && r.system_prompt@ == a.system_prompt@
            && (r.description is None <==> a.description is None) && (r.description is Some
            ==> r.description->0@ == a.description->0@)),
{
}

/// A stored agent as the API shows it.
pub fn agent_response(a: Agent) -> (r: AgentResponse)
    ensures
        shows_agent(r, a),
{
    AgentResponse {
        id: a.id,
        user_id: a.user_id,
        model_id: a.model_id,
        parent_id: a.parent_id,
        name: a.name,
        description: a.description,
        system_prompt: a.system_prompt,
    }
}

/// Stored agents as the API lists them, in the same order.
pub fn agent_responses(agents: Vec<Agent>) -> (r: Vec<AgentResponse>)
    ensures
        r@.len() == agents@.len(),
        forall|i: int| 0 <= i < agents@.len() ==> shows_agent(#[trigger] r@[i], agents@[i]),
{
    let mut out: Vec<AgentResponse> = Vec::new();
    let mut rest = agents;
    let ghost all = agents@;
    while rest.len() > 0
        invariant
            out@.len() + rest@.len() == all.len(),
            rest@ == all.subrange(out@.len() as int, all.len() as int),
            forall|i: int| 0 <= i < out@.len() ==> shows_agent(#[trigger] out@[i], all[i]),
        decreases rest@.len(),
    {
        let a = rest.remove(0);
        out.push(agent_response(a));
    }
    out
}

} // verus!
