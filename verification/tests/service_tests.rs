use agent_dispatch::agents::agent_service::{
    agent_response, agent_responses, create_agent_request, validate_agent_update, AgentResponse,
};
use agent_dispatch::agents::db::Agent;
use agent_dispatch::error::AppError;
use agent_dispatch::llm_models::db::LlmModel;
use agent_dispatch::llm_models::model_service::{create_model_request, model_responses, validate_model, ModelResponse};
use agent_dispatch::llm_providers::db::{CreateProviderRequest, LlmProvider};
use agent_dispatch::llm_providers::provider_service::{
    create_provider_request, provider_response, validate_provider_update, ProviderResponse,
};
use agent_dispatch::sessions::session_service::{create_session_request, session_responses, SessionResponse};
use agent_dispatch::sessions::sessions_db::Session;
use agent_dispatch::users::db::User;
use agent_dispatch::users::user_service::{basic_user_step, BasicUserStep, BASIC_USER_NAME};
use chrono::Utc;
use uuid::Uuid;
use agent_dispatch::crypto::Cipher;
use agent_dispatch::llm_providers::provider_service::{open_api_key, provider_responses, seal_api_key};
use agent_dispatch::routes::{check_stream_content, check_stream_session};

fn id() -> u128 {
    Uuid::new_v4().as_u128()
}

fn now() -> i64 {
    Utc::now().timestamp_micros()
}

fn validation_message<T: std::fmt::Debug>(r: Result<T, AppError>) -> String {
    match r {
        Err(AppError::Validation(m)) => m,
        other => panic!("expected a validation error, got {:?}", other),
    }
}

#[test]
fn test_agent_response() {
    let resp = AgentResponse {
        id: id(),
        user_id: id(),
        model_id: id(),
        parent_id: None,
        name: "Support Bot".to_string(),
        description: Some("Customer support".to_string()),
        system_prompt: "Be helpful".to_string(),
    };

    assert_eq!(resp.name, "Support Bot");
}

#[test]
fn test_agent_struct() {
    let agent = Agent {
        id: id(),
        user_id: id(),
        model_id: id(),
        parent_id: None,
        name: "My Agent".to_string(),
        description: Some("Test agent".to_string()),
        system_prompt: "You are helpful".to_string(),
        created_at: now(),
        updated_at: now(),
    };

    assert_eq!(agent.name, "My Agent");
    assert!(agent.description.is_some());
}

#[test]
fn agent_creation_is_validated() {
    assert_eq!(validation_message(create_agent_request(1, 2, "", None, "p")), "Name is required");
    assert_eq!(validation_message(create_agent_request(1, 2, "", None, "")), "Name is required");
    assert_eq!(validation_message(create_agent_request(1, 2, "n", None, "")), "System prompt is required");
    let q = create_agent_request(1, 2, "Bot", Some("d"), "Be kind").unwrap();
    assert_eq!((q.user_id, q.model_id), (1, 2));
    assert_eq!(q.name, "Bot");
    assert_eq!(q.description.as_deref(), Some("d"));
    assert_eq!(q.system_prompt, "Be kind");
    assert_eq!(validation_message(validate_agent_update("")), "Name is required");
    assert!(validate_agent_update("x").is_ok());
}

#[test]
fn agents_are_shown_as_stored() {
    let a = Agent {
        id: 5,
        user_id: 6,
        model_id: 7,
        parent_id: Some(8),
        name: "A".to_string(),
        description: None,
        system_prompt: "p".to_string(),
        created_at: 0,
        updated_at: 0,
    };
    let r = agent_response(a);
    assert_eq!((r.id, r.user_id, r.model_id, r.parent_id), (5, 6, 7, Some(8)));
    assert_eq!(r.name, "A");
    let list = agent_responses(vec![
        Agent { id: 1, user_id: 0, model_id: 0, parent_id: None, name: "x".to_string(), description: None, system_prompt: String::new(), created_at: 0, updated_at: 0 },
        Agent { id: 2, user_id: 0, model_id: 0, parent_id: None, name: "y".to_string(), description: None, system_prompt: String::new(), created_at: 0, updated_at: 0 },
    ]);
    assert_eq!(list.len(), 2);
    assert_eq!(list[0].id, 1);
    assert_eq!(list[1].name, "y");
}

#[test]
fn test_llm_model_struct() {
    let model = LlmModel {
        id: id(),
        provider_id: id(),
        name: "GPT-4".to_string(),
        model_identifier: "gpt-4".to_string(),
        created_at: now(),
        updated_at: now(),
    };

    assert_eq!(model.name, "GPT-4");
    assert_eq!(model.model_identifier, "gpt-4");
}

#[test]
fn test_model_response() {
    let resp = ModelResponse {
        id: id(),
        provider_id: id(),
        name: "Mistral Large".to_string(),
        model_identifier: "mistral-large".to_string(),
    };

    assert_eq!(resp.name, "Mistral Large");
}

#[test]
fn model_fields_are_validated() {
    assert_eq!(validation_message(validate_model("", "m")), "Name is required");
    assert_eq!(validation_message(validate_model("n", "")), "Model identifier is required");
    assert!(validate_model("n", "m").is_ok());
    let q = create_model_request(9, "GPT-4", "gpt-4").unwrap();
    assert_eq!(q.provider_id, 9);
    assert_eq!(q.model_identifier, "gpt-4");
    assert_eq!(validation_message(create_model_request(9, "", "")), "Name is required");
    let shown = model_responses(vec![LlmModel {
        id: 1,
        provider_id: 2,
        name: "n".to_string(),
        model_identifier: "m".to_string(),
        created_at: 0,
        updated_at: 0,
    }]);
    assert_eq!(shown[0].provider_id, 2);
    assert_eq!(shown[0].model_identifier, "m");
}

#[test]
fn test_llm_provider_struct() {
    let provider = LlmProvider {
        id: id(),
        name: "OpenAI".to_string(),
        provider_type: "openai".to_string(),
        api_key: "sk-test".to_string(),
        base_url: Some("https://api.openai.com".to_string()),
        created_at: now(),
        updated_at: now(),
    };

    assert_eq!(provider.name, "OpenAI");
    assert_eq!(provider.provider_type, "openai");
}

#[test]
fn test_create_provider_request() {
    let req = CreateProviderRequest {
        name: "Mistral".to_string(),
        provider_type: "mistral".to_string(),
        api_key: "test-key".to_string(),
        base_url: Some("https://api.mistral.ai".to_string()),
    };

    assert_eq!(req.name, "Mistral");
    assert_eq!(req.provider_type, "mistral");
}

#[test]
fn provider_service_test_provider_response() {
    let resp = ProviderResponse {
        id: id(),
        name: "OpenAI".to_string(),
        provider_type: "openai".to_string(),
        base_url: Some("https://api.openai.com".to_string()),
    };

    assert_eq!(resp.name, "OpenAI");
    assert!(resp.base_url.is_some());
}

#[test]
fn service_test_provider_response() {
    let resp = ProviderResponse {
        id: id(),
        name: "OpenAI".to_string(),
        provider_type: "openai".to_string(),
        base_url: Some("https://api.openai.com".to_string()),
    };

    assert_eq!(resp.name, "OpenAI");
    assert!(resp.base_url.is_some());
}

#[test]
fn test_validation_empty_name() {
    assert!("".is_empty());
    assert_eq!(validation_message(create_provider_request("", "openai", "k", None)), "Name is required");
}

#[test]
fn provider_fields_are_validated_and_the_key_is_not_shown() {
    assert_eq!(validation_message(create_provider_request("n", "", "k", None)), "Type is required");
    assert_eq!(validation_message(create_provider_request("n", "t", "", None)), "API key is required");
    let q = create_provider_request("n", "t", "k", Some("u")).unwrap();
    assert_eq!(q.base_url.as_deref(), Some("u"));
    assert_eq!(validation_message(validate_provider_update("")), "Name is required");
    let r = provider_response(LlmProvider {
        id: 3,
        name: "n".to_string(),
        provider_type: "t".to_string(),
        api_key: "secret".to_string(),
        base_url: None,
        created_at: 0,
        updated_at: 0,
    });
    assert_eq!(r.id, 3);
    assert_eq!(r.provider_type, "t");
    assert!(!format!("{:?}", r).contains("secret"));
}

#[test]
fn service_test_session_response() {
    let resp = SessionResponse {
        id: id(),
        agent_id: id(),
        user_id: id(),
        title: Some("New Chat".to_string()),
        is_active: true,
    };

    assert!(resp.is_active);
}

#[test]
fn session_service_test_session_response() {
    let resp = SessionResponse {
        id: id(),
        agent_id: id(),
        user_id: id(),
        title: Some("New Chat".to_string()),
        is_active: true,
    };

    assert!(resp.is_active);
}

#[test]
fn test_session_struct() {
    let session = Session {
        id: id(),
        agent_id: id(),
        user_id: id(),
        title: Some("Chat".to_string()),
        started_at: now(),
        ended_at: None,
        is_active: true,
        created_at: now(),
        updated_at: now(),
    };

    assert!(session.is_active);
    assert!(session.ended_at.is_none());
}

#[test]
fn sessions_are_requested_and_shown() {
    let q = create_session_request(1, 2, Some("telegram:5"));
    assert_eq!((q.agent_id, q.user_id), (1, 2));
    assert_eq!(q.title.as_deref(), Some("telegram:5"));
    assert!(create_session_request(1, 2, None).title.is_none());
    let shown = session_responses(vec![Session {
        id: 4,
        agent_id: 1,
        user_id: 2,
        title: None,
        started_at: 0,
        ended_at: None,
        is_active: false,
        created_at: 0,
        updated_at: 0,
    }]);
    assert_eq!(shown.len(), 1);
    assert_eq!(shown[0].id, 4);
    assert!(!shown[0].is_active);
}

#[test]
fn test_user_struct() {
    let user = User {
        id: id(),
        username: "testuser".to_string(),
        email: Some("test@example.com".to_string()),
        created_at: now(),
        updated_at: now(),
    };

    assert_eq!(user.username, "testuser");
    assert!(user.email.is_some());
}

#[test]
fn service_test_basic_user_constant() {
    assert_eq!(BASIC_USER_NAME, "basic_user");
}

#[test]
fn user_service_test_basic_user_constant() {
    assert_eq!(BASIC_USER_NAME, "basic_user");
}

#[test]
fn the_basic_user_is_created_only_when_missing() {
    match basic_user_step(None) {
        BasicUserStep::Create { username, email } => {
            assert_eq!(username, "basic_user");
            assert_eq!(email, "basic@agent-builder.local");
        }
        other => panic!("unexpected {:?}", other),
    }
    let u = User { id: 1, username: "basic_user".to_string(), email: None, created_at: 0, updated_at: 0 };
    assert!(matches!(basic_user_step(Some(u)), BasicUserStep::Existing(x) if x.id == 1));
}

#[test]
fn test_schema_functions_exist() {
    assert!(true);
}

#[test]
fn test_views_module() {
    let _layout = agent_dispatch::views::Layout;
    assert!(true);
}

#[test]
fn provider_keys_are_sealed_and_opened() {
    let key = "0".repeat(64);
    let cipher = Cipher::new(Some(key.as_str())).unwrap();
    let sealed = seal_api_key(&cipher, "sk-live").unwrap();
    assert_ne!(sealed, "sk-live");
    assert_eq!(open_api_key(&cipher, &sealed).unwrap(), "sk-live");
    assert!(matches!(open_api_key(&cipher, "00"), Err(AppError::Internal(m)) if m == "Decryption failed: Invalid encrypted data: too short"));
    let shown = provider_responses(vec![LlmProvider {
        id: 1,
        name: "n".to_string(),
        provider_type: "t".to_string(),
        api_key: sealed,
        base_url: None,
        created_at: 0,
        updated_at: 0,
    }]);
    assert_eq!(shown.len(), 1);
    assert_eq!(shown[0].name, "n");
}

#[test]
fn stream_requests_are_checked() {
    let r = check_stream_content("").unwrap();
    assert_eq!((r.status, r.text.as_str()), (400, "content required"));
    assert!(check_stream_content("hi").is_none());
    let r = check_stream_session(None, 1).unwrap();
    assert_eq!((r.status, r.text.as_str()), (404, "session not found"));
    let r = check_stream_session(Some(2), 1).unwrap();
    assert_eq!((r.status, r.text.as_str()), (403, "forbidden"));
    assert!(check_stream_session(Some(1), 1).is_none());
}
