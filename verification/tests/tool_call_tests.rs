use agent_dispatch::llm::tool_registry::{echo_answer, ToolCall, ToolRegistry};
use agent_dispatch::messages::agent_loop_service::build_llm_messages;
use agent_dispatch::messages::message_service::SseEvent;
use agent_dispatch::messages::messages_db::Message;
use agent_dispatch::error::AppError;
use agent_dispatch::messages::tool_call_service::{execute_tool_calls, RoundStep, ToolCallAccumulator, ToolRoundRun};
use agent_dispatch::json::{parse_json, JsonValue};

#[test]
fn test_tool_call_accumulator() {
    let mut acc = ToolCallAccumulator::new();
    acc.feed(0, Some("call_1".to_string()), Some("echo".to_string()), None);
    acc.feed(0, None, None, Some("{\"text\":\"he".to_string()));
    acc.feed(0, None, None, Some("llo\"}".to_string()));
    let calls = acc.finish();
    assert_eq!(calls.len(), 1);
    assert_eq!(calls[0].id, "call_1");
    assert_eq!(calls[0].name, "echo");
    assert_eq!(calls[0].arguments, "{\"text\":\"hello\"}");
}

#[test]
fn calls_come_out_by_index_whatever_the_feeding_order() {
    let mut a = ToolCallAccumulator::new();
    a.feed(2, Some("c2".to_string()), Some("echo".to_string()), Some("x".to_string()));
    a.feed(0, Some("c0".to_string()), Some("echo".to_string()), Some("y".to_string()));
    a.feed(2, None, None, Some("z".to_string()));
    let calls = a.finish();
    assert_eq!(calls.len(), 2);
    assert_eq!(calls[0].id, "c0");
    assert_eq!(calls[0].arguments, "y");
    assert_eq!(calls[1].id, "c2");
    assert_eq!(calls[1].arguments, "xz");

    let mut b = ToolCallAccumulator::new();
    b.feed(0, Some("c0".to_string()), Some("echo".to_string()), Some("y".to_string()));
    b.feed(2, Some("c2".to_string()), Some("echo".to_string()), Some("x".to_string()));
    b.feed(2, None, None, Some("z".to_string()));
    let again = b.finish();
    assert_eq!(again.len(), 2);
    assert_eq!(again[0].arguments, calls[0].arguments);
    assert_eq!(again[1].arguments, calls[1].arguments);
}

#[test]
fn later_ids_and_names_replace_earlier_ones() {
    let mut a = ToolCallAccumulator::new();
    a.feed(0, Some("a".to_string()), Some("x".to_string()), None);
    a.feed(0, Some("b".to_string()), None, None);
    let calls = a.finish();
    assert_eq!(calls[0].id, "b");
    assert_eq!(calls[0].name, "x");
    assert_eq!(calls[0].arguments, "");
}

#[test]
fn a_round_of_tool_calls_stores_and_sends_in_order() {
    let calls = vec![
        ToolCall { id: "c1".to_string(), name: "echo".to_string(), arguments: "{\"text\":\"hi\"}".to_string() },
        ToolCall { id: "c2".to_string(), name: "nope".to_string(), arguments: "{}".to_string() },
        ToolCall { id: "c3".to_string(), name: "echo".to_string(), arguments: "not json".to_string() },
        ToolCall { id: "c4".to_string(), name: "echo".to_string(), arguments: "{\"other\":1}".to_string() },
    ];
    let tools = ToolRegistry::new();
    let round = execute_tool_calls(7, &calls, &tools);
    assert_eq!(round.messages.len(), 5);
    assert!(round.messages.iter().all(|m| m.session_id == 7));
    assert_eq!(round.messages[0].role, "assistant");
    assert_eq!(round.messages[0].content, "");
    match &round.messages[0].metadata {
        Some(JsonValue::Object(es)) => {
            assert_eq!(es.len(), 1);
            assert_eq!(es[0].0, "tool_calls");
            assert!(matches!(&es[0].1, JsonValue::Array(xs) if xs.len() == 4));
            match &es[0].1 {
                JsonValue::Array(xs) => match &xs[1] {
                    JsonValue::Object(c) => {
                        let keys: Vec<&str> = c.iter().map(|(k, _)| k.as_str()).collect();
                        assert_eq!(keys, vec!["function", "id", "type"]);
                        assert!(matches!(&c[1].1, JsonValue::String(id) if id == "c2"));
                    }
                    other => panic!("unexpected {:?}", other),
                },
                other => panic!("unexpected {:?}", other),
            }
        }
        other => panic!("unexpected {:?}", other),
    }
    assert_eq!(round.messages[1].role, "tool");
    assert_eq!(round.messages[1].content, "hi");
    match &round.messages[1].metadata {
        Some(JsonValue::Object(es)) => {
            assert_eq!(es.len(), 1);
            assert_eq!(es[0].0, "tool_call_id");
            assert!(matches!(&es[0].1, JsonValue::String(id) if id == "c1"));
        }
        other => panic!("unexpected {:?}", other),
    }
    assert_eq!(round.messages[2].content, "error: unknown tool 'nope'");
    assert_eq!(round.messages[3].content, "error: invalid arguments");
    assert_eq!(round.messages[4].content, "error: missing text field");
    assert_eq!(round.events.len(), 8);
    assert!(matches!(&round.events[0], SseEvent::ToolCall { id, name, .. } if id == "c1" && name == "echo"));
    assert!(matches!(&round.events[1], SseEvent::ToolResult { id, result } if id == "c1" && result == "hi"));
    assert!(matches!(&round.events[3], SseEvent::ToolResult { result, .. } if result == "error: unknown tool 'nope'"));
}

#[test]
fn the_registry_offers_the_echo_schema() {
    let tools = ToolRegistry::new();
    let schemas = tools.get_schemas();
    assert_eq!(schemas.len(), 1);
    match &schemas[0] {
        JsonValue::Object(es) => {
            assert!(es.iter().any(|(k, v)| k == "type" && matches!(v, JsonValue::String(t) if t == "function")));
            match es.iter().find(|(k, _)| k == "function") {
                Some((_, JsonValue::Object(f))) => {
                    assert!(f.iter().any(|(k, v)| k == "name" && matches!(v, JsonValue::String(n) if n == "echo")))
                }
                other => panic!("unexpected {:?}", other),
            }
        }
        other => panic!("unexpected {:?}", other),
    }
}

#[test]
fn the_echo_schema_requires_its_text() {
    let schemas = ToolRegistry::new().get_schemas();
    let function = match &schemas[0] {
        JsonValue::Object(es) => &es[0].1,
        other => panic!("unexpected {:?}", other),
    };
    let parameters = function.get("parameters").expect("parameters");
    assert_eq!(parameters.get_str("type").as_deref(), Some("object"));
    match parameters.get("required") {
        Some(JsonValue::Array(xs)) => {
            assert_eq!(xs.len(), 1);
            assert!(matches!(&xs[0], JsonValue::String(t) if t == "text"));
        }
        other => panic!("unexpected {:?}", other),
    }
    let text = parameters.get("properties").and_then(|p| p.get("text")).expect("text");
    assert_eq!(text.get_str("type").as_deref(), Some("string"));
    assert_eq!(function.get_str("description").as_deref(), Some("Echoes back the provided text"));
}

#[test]
fn the_echo_answer_reads_the_text_member() {
    assert_eq!(echo_answer(parse_json("{\"text\":\"hey\"}")), "hey");
    assert_eq!(echo_answer(parse_json("{\"text\":1}")), "error: missing text field");
    assert_eq!(echo_answer(Err("eof".to_string())), "error: invalid arguments");
    assert_eq!(echo_answer(Ok(JsonValue::Null)), "error: missing text field");
}

#[test]
fn a_stored_round_reads_back_as_its_calls() {
    let calls = vec![
        ToolCall { id: "c1".to_string(), name: "echo".to_string(), arguments: "{\"text\":\"hi\"}".to_string() },
        ToolCall { id: "c2".to_string(), name: "other".to_string(), arguments: "{}".to_string() },
    ];
    let round = execute_tool_calls(7, &calls, &ToolRegistry::new());
    let mut stored = Vec::new();
    for (n, m) in round.messages.into_iter().enumerate() {
        stored.push(Message {
            id: n as u128,
            session_id: m.session_id,
            role: m.role,
            content: m.content,
            timestamp: 0,
            metadata: m.metadata,
            created_at: 0,
            updated_at: 0,
        });
    }
    let history = build_llm_messages(&stored);
    assert_eq!(history.len(), 3);
    assert_eq!(history[0].role, "assistant");
    assert!(history[0].content.is_none());
    let cs = history[0].tool_calls.as_ref().expect("tool calls");
    assert_eq!(cs.len(), 2);
    assert_eq!((cs[0].id.as_str(), cs[0].call_type.as_str()), ("c1", "function"));
    assert_eq!((cs[1].function.name.as_str(), cs[1].function.arguments.as_str()), ("other", "{}"));
    assert_eq!(history[1].tool_call_id.as_deref(), Some("c1"));
    assert_eq!(history[1].content.as_deref(), Some("hi"));
    assert_eq!(history[2].tool_call_id.as_deref(), Some("c2"));
}

fn two_calls() -> Vec<ToolCall> {
    vec![
        ToolCall { id: "c1".to_string(), name: "echo".to_string(), arguments: "{\"text\":\"one\"}".to_string() },
        ToolCall { id: "c2".to_string(), name: "echo".to_string(), arguments: "{\"text\":\"two\"}".to_string() },
    ]
}

#[test]
fn a_round_run_hands_out_its_messages_one_at_a_time() {
    let mut run = ToolRoundRun::new(7, two_calls(), ToolRegistry::new());
    let first = run.start();
    assert_eq!((first.session_id, first.role.as_str(), first.content.as_str()), (7, "assistant", ""));
    let m1 = match run.on_stored(Ok(())) {
        Ok(RoundStep::Store(m)) => m,
        other => panic!("unexpected {:?}", other),
    };
    assert_eq!((m1.role.as_str(), m1.content.as_str()), ("tool", "one"));
    let m2 = match run.on_stored(Ok(())) {
        Ok(RoundStep::Store(m)) => m,
        other => panic!("unexpected {:?}", other),
    };
    assert_eq!(m2.content, "two");
    match run.on_stored(Ok(())) {
        Ok(RoundStep::Finished(events)) => {
            assert_eq!(events.len(), 4);
            assert!(matches!(&events[0], SseEvent::ToolCall { id, .. } if id == "c1"));
            assert!(matches!(&events[1], SseEvent::ToolResult { id, result } if id == "c1" && result == "one"));
            assert!(matches!(&events[2], SseEvent::ToolCall { id, .. } if id == "c2"));
            assert!(matches!(&events[3], SseEvent::ToolResult { id, result } if id == "c2" && result == "two"));
        }
        other => panic!("unexpected {:?}", other),
    }
}

#[test]
fn a_failed_store_ends_the_round_with_its_error() {
    let mut run = ToolRoundRun::new(7, two_calls(), ToolRegistry::new());
    run.start();
    match run.on_stored(Ok(())) {
        Ok(RoundStep::Store(m)) => assert_eq!(m.content, "one"),
        other => panic!("unexpected {:?}", other),
    }
    let failed = run.on_stored(Err(AppError::Database("insert failed".to_string())));
    assert!(matches!(failed, Err(AppError::Database(m)) if m == "insert failed"));
    let mut early = ToolRoundRun::new(7, two_calls(), ToolRegistry::new());
    early.start();
    assert!(matches!(early.on_stored(Err(AppError::Database("down".to_string()))), Err(AppError::Database(_))));
}
