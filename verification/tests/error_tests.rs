use agent_dispatch::error::{deleted_or, found_or, AppError, ErrorResponse};
use agent_dispatch::handler::{error_body, HtmlResponse};
use agent_dispatch::json::JsonValue;

#[test]
fn test_not_found_error() {
    let err = AppError::NotFound("Agent not found".to_string());
    assert_eq!(err.to_string(), "Not found: Agent not found");
}

#[test]
fn test_validation_error() {
    let err = AppError::Validation("Name is required".to_string());
    assert_eq!(err.to_string(), "Validation error: Name is required");
}

#[test]
fn test_error_response() {
    let resp = ErrorResponse { error: "Test error".to_string() };
    assert_eq!(resp.error, "Test error");
}

#[test]
fn test_html_response_creation() {
    let _resp = HtmlResponse("<h1>Test</h1>".to_string());
}

#[test]
fn error_texts_of_every_variant() {
    assert_eq!(AppError::Database("x".to_string()).to_string(), "Database error: x");
    assert_eq!(AppError::Internal("x".to_string()).to_string(), "Internal server error: x");
    assert_eq!(AppError::Unauthorized("x".to_string()).to_string(), "Unauthorized: x");
    assert_eq!(AppError::Request("x".to_string()).to_string(), "Request error: x");
    assert_eq!(AppError::Response("x".to_string()).to_string(), "Response error: x");
}

#[test]
fn error_answers_hide_database_detail() {
    let (s, body) = AppError::Database("connection refused at 10.0.0.1".to_string()).to_response();
    assert_eq!(s, 500);
    assert_eq!(body.error, "Database error occurred");
    let (s, body) = AppError::Response("upstream said no".to_string()).to_response();
    assert_eq!(s, 500);
    assert_eq!(body.error, "Response error");
    let (s, body) = AppError::NotFound("Agent not found".to_string()).to_response();
    assert_eq!(s, 404);
    assert_eq!(body.error, "Agent not found");
    let (s, _) = AppError::Validation("v".to_string()).to_response();
    assert_eq!(s, 400);
    let (s, _) = AppError::Unauthorized("u".to_string()).to_response();
    assert_eq!(s, 401);
    let (s, _) = AppError::Request("r".to_string()).to_response();
    assert_eq!(s, 400);
    let (s, body) = AppError::Internal("i".to_string()).to_response();
    assert_eq!(s, 500);
    assert_eq!(body.error, "i");
}

#[test]
fn lookups_and_deletes_report_not_found() {
    assert_eq!(found_or(Some(3u8), "Agent not found").unwrap(), 3);
    match found_or::<u8>(None, "Agent not found") {
        Err(AppError::NotFound(m)) => assert_eq!(m, "Agent not found"),
        other => panic!("unexpected {:?}", other),
    }
    assert!(deleted_or(1, "Model not found").is_ok());
    match deleted_or(0, "Model not found") {
        Err(AppError::NotFound(m)) => assert_eq!(m, "Model not found"),
        other => panic!("unexpected {:?}", other),
    }
}

#[test]
fn error_body_has_the_message() {
    match error_body("boom") {
        JsonValue::Object(es) => {
            assert_eq!(es.len(), 1);
            assert_eq!(es[0].0, "error");
            assert!(matches!(&es[0].1, JsonValue::String(s) if s == "boom"));
        }
        other => panic!("unexpected {:?}", other),
    }
}
