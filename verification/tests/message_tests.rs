use agent_dispatch::error::AppError;
use agent_dispatch::json::{parse_json, JsonValue};
use agent_dispatch::llm::llm_adapter::StreamChunk;
use agent_dispatch::llm::tool_registry::ToolRegistry;
use agent_dispatch::messages::agent_loop_service::{
    agent_config, build_llm_message, build_llm_messages, tool_calls_in, AgentLoop, LoopAction, LoopPhase, MAX_ROUNDS,
};
use agent_dispatch::messages::message_service::{
    message_responses, session_busy_event, to_response, validate_new_message, MessageResponse, SessionGuards,
    SseEvent, TextCollector,
};
use agent_dispatch::messages::messages_db::Message;
use agent_dispatch::messages::tool_call_service::RoundStep;
use agent_dispatch::messages::service::{assistant_reply, history_for_model, wants_reply};
use chrono::Utc;
use uuid::Uuid;

fn message(role: &str, content: &str) -> Message {
    Message {
        id: 1,
        session_id: 2,
        role: role.to_string(),
        content: content.to_string(),
        timestamp: 0,
        metadata: None,
        created_at: 0,
        updated_at: 0,
    }
}

#[test]
fn message_service_test_message_response() {
    let resp = MessageResponse {
        id: Uuid::new_v4().as_u128(),
        session_id: Uuid::new_v4().as_u128(),
        role: "assistant".to_string(),
        content: "Hello there!".to_string(),
    };
    assert_eq!(resp.role, "assistant");
}

#[test]
fn service_test_message_response() {
    let resp = MessageResponse {
        id: Uuid::new_v4().as_u128(),
        session_id: Uuid::new_v4().as_u128(),
        role: "assistant".to_string(),
        content: "Hello there!".to_string(),
    };

    assert_eq!(resp.role, "assistant");
}

#[test]
fn test_message_struct() {
    let msg = Message {
        id: Uuid::new_v4().as_u128(),
        session_id: Uuid::new_v4().as_u128(),
        role: "user".to_string(),
        content: "Hello".to_string(),
        timestamp: Utc::now().timestamp_micros(),
        metadata: None,
        created_at: Utc::now().timestamp_micros(),
        updated_at: Utc::now().timestamp_micros(),
    };

    assert_eq!(msg.role, "user");
    assert_eq!(msg.content, "Hello");
}

#[test]
fn new_messages_are_validated() {
    assert!(matches!(validate_new_message("user", ""), Err(AppError::Validation(m)) if m == "Content is required"));
    assert!(matches!(validate_new_message("", "hi"), Err(AppError::Validation(m)) if m == "Role is required"));
    assert!(validate_new_message("user", "hi").is_ok());
}

#[test]
fn messages_are_shown_as_stored() {
    let r = to_response(message("user", "hi"));
    assert_eq!((r.id, r.session_id), (1, 2));
    assert_eq!(r.content, "hi");
    let list = message_responses(vec![message("user", "a"), message("assistant", "b")]);
    assert_eq!(list.len(), 2);
    assert_eq!(list[1].role, "assistant");
}

#[test]
fn only_user_messages_want_a_reply() {
    assert!(wants_reply("user"));
    assert!(!wants_reply("assistant"));
    let h = history_for_model(&vec![message("user", "a"), message("assistant", "b")]);
    assert_eq!(h.len(), 2);
    assert_eq!(h[1].content.as_deref(), Some("b"));
    let q = assistant_reply(9, "done".to_string());
    assert_eq!((q.session_id, q.role.as_str(), q.content.as_str()), (9, "assistant", "done"));
}

#[test]
fn collected_text_is_the_tokens_until_done() {
    let mut c = TextCollector::new();
    assert!(c.on_event(SseEvent::Token { delta: "Hel".to_string() }).is_none());
    assert!(c.on_event(SseEvent::ToolCall { id: "i".to_string(), name: "n".to_string(), arguments: "a".to_string() }).is_none());
    assert!(c.on_event(SseEvent::Token { delta: "lo".to_string() }).is_none());
    match c.on_event(SseEvent::Done { message_id: 3 }) {
        Some(Ok(t)) => assert_eq!(t, "Hello"),
        other => panic!("unexpected {:?}", other),
    }
    let mut e = TextCollector::new();
    assert!(matches!(e.on_event(SseEvent::Error { message: "bad".to_string() }), Some(Err(AppError::Internal(m))) if m == "bad"));
}

#[test]
fn one_stream_per_session() {
    let mut g = SessionGuards::new();
    assert!(g.try_acquire(1));
    assert!(!g.try_acquire(1));
    assert!(g.try_acquire(2));
    g.release(1);
    assert!(g.try_acquire(1));
    assert!(matches!(session_busy_event(), SseEvent::Error { message } if message == "another stream is already active for this session"));
}

#[test]
fn agent_config_defaults_to_the_openai_endpoint() {
    let c = agent_config("k".to_string(), None, "gpt-4".to_string(), "p".to_string());
    assert_eq!(c.api_endpoint, "https://api.openai.com/v1");
    let c = agent_config("k".to_string(), Some("http://x".to_string()), "m".to_string(), "p".to_string());
    assert_eq!(c.api_endpoint, "http://x");
    assert_eq!(c.model_identifier, "m");
}

#[test]
fn stored_messages_become_protocol_messages() {
    let mut m = message("tool", "out");
    m.metadata = Some(JsonValue::Object(vec![("tool_call_id".to_string(), JsonValue::String("c1".to_string()))]));
    let l = build_llm_message(&m);
    assert_eq!(l.role, "tool");
    assert_eq!(l.content.as_deref(), Some("out"));
    assert_eq!(l.tool_call_id.as_deref(), Some("c1"));
    assert!(l.tool_calls.is_none());

    let mut a = message("assistant", "");
    a.metadata = Some(
        parse_json(r#"{"tool_calls":[{"id":"c1","type":"function","function":{"name":"echo","arguments":"{}"}},["c2","function",["echo","x"]]]}"#)
            .unwrap(),
    );
    let l = build_llm_message(&a);
    assert!(l.content.is_none());
    let calls = l.tool_calls.unwrap();
    assert_eq!(calls.len(), 2);
    assert_eq!(calls[0].id, "c1");
    assert_eq!(calls[0].call_type, "function");
    assert_eq!(calls[0].function.name, "echo");
    assert_eq!(calls[1].id, "c2");
    assert_eq!(calls[1].function.arguments, "x");

    let mut bad = message("assistant", "text");
    bad.metadata = Some(parse_json(r#"{"tool_calls":[{"id":"c1","type":"function"}]}"#).unwrap());
    let l = build_llm_message(&bad);
    assert!(l.tool_calls.is_none());
    assert_eq!(l.content.as_deref(), Some("text"));
    bad.metadata = Some(parse_json(r#"{"tool_calls":{"id":"c1"}}"#).unwrap());
    assert!(tool_calls_in(bad.metadata.as_ref().unwrap()).is_none());
    let history = build_llm_messages(&vec![message("user", "a"), a]);
    assert_eq!(history.len(), 2);
    assert!(history[1].tool_calls.is_some());
}

#[test]
fn a_plain_answer_streams_tokens_then_is_stored() {
    let mut lp = AgentLoop::new(5, ToolRegistry::new());
    let a = lp.start_round();
    assert!(matches!(a.as_slice(), [LoopAction::StreamRound]));
    let a = lp.on_chunk(StreamChunk::Token("Hi".to_string()));
    assert!(matches!(a.as_slice(), [LoopAction::Emit(SseEvent::Token { delta })] if delta == "Hi"));
    let a = lp.on_chunk(StreamChunk::FinishReason("stop".to_string()));
    assert!(a.is_empty());
    let a = lp.on_chunk(StreamChunk::Done);
    match a.as_slice() {
        [LoopAction::PersistFinal(m)] => {
            assert_eq!(m.session_id, 5);
            assert_eq!(m.role, "assistant");
            assert_eq!(m.content, "Hi");
            assert!(m.metadata.is_none());
        }
        other => panic!("unexpected {:?}", other),
    }
    assert!(lp.phase() == LoopPhase::AwaitingFinalSave);
    let a = lp.on_final_saved(77);
    assert!(matches!(a.as_slice(), [LoopAction::Emit(SseEvent::Done { message_id: 77 }), LoopAction::Stop]));
}

#[test]
fn tool_calls_run_and_the_loop_goes_round_again() {
    let mut lp = AgentLoop::new(5, ToolRegistry::new());
    lp.start_round();
    lp.on_chunk(StreamChunk::ToolCallDelta {
        index: 0,
        id: Some("c1".to_string()),
        name: Some("echo".to_string()),
        arguments: Some("{\"text\":".to_string()),
    });
    lp.on_chunk(StreamChunk::ToolCallDelta { index: 0, id: None, name: None, arguments: Some("\"yo\"}".to_string()) });
    lp.on_chunk(StreamChunk::FinishReason("tool_calls".to_string()));
    let mut a = lp.on_stream_end();
    match a.pop() {
        Some(LoopAction::RunToolRound(mut round)) => {
            assert!(a.is_empty());
            let first = round.start();
            assert_eq!(first.role, "assistant");
            match round.on_stored(Ok(())) {
                Ok(RoundStep::Store(m)) => assert_eq!(m.content, "yo"),
                other => panic!("unexpected {:?}", other),
            }
            match round.on_stored(Ok(())) {
                Ok(RoundStep::Finished(events)) => assert_eq!(events.len(), 2),
                other => panic!("unexpected {:?}", other),
            }
        }
        other => panic!("unexpected {:?}", other),
    }
    assert!(lp.phase() == LoopPhase::Idle);
    assert!(matches!(lp.start_round().as_slice(), [LoopAction::StreamRound]));
}

#[test]
fn the_loop_stops_after_the_round_limit() {
    let mut lp = AgentLoop::new(5, ToolRegistry::new());
    for _ in 0..MAX_ROUNDS {
        assert!(matches!(lp.start_round().as_slice(), [LoopAction::StreamRound]));
        lp.on_chunk(StreamChunk::FinishReason("tool_calls".to_string()));
        lp.on_stream_end();
    }
    let a = lp.start_round();
    match a.as_slice() {
        [LoopAction::Emit(SseEvent::Error { message }), LoopAction::Emit(SseEvent::Done { message_id: 0 }), LoopAction::Stop] => {
            assert_eq!(message, "max tool iterations reached")
        }
        other => panic!("unexpected {:?}", other),
    }
    assert!(lp.phase() == LoopPhase::Finished);
}

#[test]
fn a_failed_stream_keeps_the_partial_answer() {
    let mut lp = AgentLoop::new(5, ToolRegistry::new());
    lp.start_round();
    lp.on_chunk(StreamChunk::Token("par".to_string()));
    let a = lp.on_stream_error("timeout".to_string());
    match a.as_slice() {
        [LoopAction::Persist(m), LoopAction::Emit(SseEvent::Error { message }), LoopAction::Emit(SseEvent::Done { message_id: 0 }), LoopAction::Stop] => {
            assert_eq!(m.content, "par");
            assert_eq!(message, "timeout");
            match &m.metadata {
                Some(JsonValue::Object(es)) => {
                    assert_eq!(es.len(), 1);
                    assert_eq!(es[0].0, "error");
                    assert!(matches!(&es[0].1, JsonValue::String(e) if e == "timeout"));
                }
                other => panic!("unexpected {:?}", other),
            }
        }
        other => panic!("unexpected {:?}", other),
    }
    let mut lp = AgentLoop::new(5, ToolRegistry::new());
    lp.start_round();
    let a = lp.on_stream_error("timeout".to_string());
    assert_eq!(a.len(), 3);
}
