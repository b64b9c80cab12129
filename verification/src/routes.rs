//! The bodies of the API's requests, and the checks made before an answer is streamed.
use vstd::prelude::*;
use vstd::string::*;

verus! {

/// The body of a request that creates a provider.
#[derive(Debug)]
pub struct CreateProviderRequest {
    pub name: String,
    /// The kind of service (`type` in JSON).
    pub provider_type: String,
    pub api_key: String,
    pub base_url: Option<String>,
}

/// The body of a request that changes a provider.
#[derive(Debug)]
pub struct UpdateProviderRequest {
    pub name: String,
    /// The kind of service (`type` in JSON).
    pub provider_type: String,
    pub api_key: String,
    pub base_url: Option<String>,
}

/// The body of a request that creates a model.
#[derive(Debug)]
pub struct CreateModelRequest {
    pub provider_id: u128,
    pub name: String,
    pub model_identifier: String,
}

/// The body of a request that changes a model.
#[derive(Debug)]
pub struct UpdateModelRequest {
    pub provider_id: u128,
    pub name: String,
    pub model_identifier: String,
}

/// The body of a request that creates an agent.
#[derive(Debug)]
pub struct CreateAgentRequest {
    pub model_id: u128,
    pub name: String,
    pub description: Option<String>,
    pub system_prompt: String,
}

/// The body of a request that changes an agent.
#[derive(Debug)]
pub struct UpdateAgentRequest {
    pub model_id: u128,
    pub name: String,
    pub description: Option<String>,
    pub system_prompt: String,
}

/// The body of a request that opens a session.
#[derive(Debug)]
pub struct CreateSessionRequest {
    pub agent_id: u128,
    pub title: Option<String>,
}

/// The body of a request that sends a message.
#[derive(Debug)]
pub struct SendMessageRequest {
    pub content: String,
}

/// The body of a request that connects a Telegram bot to an agent.
#[derive(Debug)]
pub struct CreateConnectorRequest {
    pub agent_id: u128,
    pub bot_token: String,
}

/// The body of a request that turns a connector on or off.
#[derive(Debug)]
pub struct SetEnabledRequest {
    pub is_enabled: bool,
}

/// The body of a request that adds a Telegram user to an agent's whitelist.
#[derive(Debug)]
pub struct AddWhitelistRequest {
    pub telegram_user_id: i64,
}

/// The plain-text refusal of a request to stream an answer: its HTTP status and text.
#[derive(Debug)]
pub struct StreamRefusal {
    pub status: u16,
    pub text: String,
}

/// Checks the message of a stream request, before anything else: it may not be empty.
pub fn check_stream_content(content: &str) -> (r: Option<StreamRefusal>)
    ensures
        content@.len() == 0 ==> (r matches Some(x) && x.status == 400 && x.text@
            == "content required"@),
        content@.len() > 0 ==> r is None,
{
    if content.is_empty() {
        Some(StreamRefusal { status: 400, text: String::from_str("content required") })
    } else {
        None
    }
}

/// Checks the session of a stream request: it must exist (`owner` is the user of the
/// session found, `None` when the lookup failed) and belong to the basic user.
pub fn check_stream_session(owner: Option<u128>, basic_user_id: u128) -> (r: Option<StreamRefusal>)
    ensures
        owner is None ==> (r matches Some(x) && x.status == 404 && x.text@ == "session not found"@),
        owner matches Some(u) && u != basic_user_id ==> (r matches Some(x) && x.status == 403
            && x.text@ == "forbidden"@),
        owner == Some(basic_user_id) ==> r is None,
{
    match owner {
        None => Some(StreamRefusal { status: 404, text: String::from_str("session not found") }),
        Some(u) => if u != basic_user_id {
            Some(StreamRefusal { status: 403, text: String::from_str("forbidden") })
        } else {
            None
        },
    }
}

} // verus!
