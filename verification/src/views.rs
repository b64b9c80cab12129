//! The data of the HTML pages: lists and forms of providers, models, agents and sessions.
use vstd::prelude::*;

verus! {

/// The page layout.
#[derive(Debug)]
pub struct Layout;

/// The list of providers.
#[derive(Debug)]
pub struct ProvidersList {
    pub providers: Vec<ProviderListItem>,
}

/// The form of a provider, with the errors of its last submission.
#[derive(Debug)]
pub struct ProvidersForm {
    pub provider: Option<ProviderFormItem>,
    pub errors: Vec<String>,
}

#[derive(Debug)]
pub struct ProviderListItem {
    pub id: u128,
    pub name: String,
    pub provider_type: String,
}

#[derive(Debug)]
pub struct ProviderFormItem {
    pub id: u128,
    pub name: String,
    pub provider_type: String,
    pub base_url: Option<String>,
}

/// The list of models.
#[derive(Debug)]
pub struct ModelsList {
    pub models: Vec<ModelListItem>,
}

/// The form of a model, with the providers to choose from.
#[derive(Debug)]
pub struct ModelsForm {
    pub model: Option<ModelFormItem>,
    pub providers: Vec<ProviderFormItem>,
    pub errors: Vec<String>,
}

#[derive(Debug)]
pub struct ModelListItem {
    pub id: u128,
    pub name: String,
    pub model_identifier: String,
    pub provider_id: u128,
}

#[derive(Debug)]
pub struct ModelFormItem {
    pub id: u128,
    pub name: String,
    pub model_identifier: String,
    pub provider_id: u128,
}

/// The list of agents.
#[derive(Debug)]
pub struct AgentsList {
    pub agents: Vec<AgentListItem>,
}

/// The form of an agent, with the models to choose from.
#[derive(Debug)]
pub struct AgentsForm {
    pub agent: Option<AgentFormItem>,
    pub models: Vec<ModelFormItem>,
    pub errors: Vec<String>,
}

#[derive(Debug)]
pub struct AgentListItem {
    pub id: u128,
    pub name: String,
    pub description: Option<String>,
    pub model_id: u128,
}

#[derive(Debug)]
pub struct AgentFormItem {
    pub id: u128,
    pub name: String,
    pub description: Option<String>,
    pub system_prompt: String,
    pub model_id: u128,
}

/// The list of sessions.
#[derive(Debug)]
pub struct SessionsList {
    pub sessions: Vec<SessionListItem>,
}

/// The page that opens a session, with the agents to choose from.
#[derive(Debug)]
pub struct SessionsNew {
    pub agents: Vec<AgentListItem>,
}

/// The chat page of a session.
#[derive(Debug)]
pub struct SessionsChat {
    pub session: SessionFormItem,
    pub messages: Vec<MessageItem>,
}

#[derive(Debug)]
pub struct SessionListItem {
    pub id: u128,
    pub title: Option<String>,
    pub agent_id: u128,
}

#[derive(Debug)]
pub struct SessionFormItem {
    pub id: u128,
    pub title: Option<String>,
    pub agent_id: u128,
}

#[derive(Debug)]
pub struct MessageItem {
    pub id: u128,
    pub content: String,
    pub role: String,
}

} // verus!
