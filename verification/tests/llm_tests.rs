use agent_dispatch::error::AppError;
use agent_dispatch::json::{parse_json, JsonValue};
use agent_dispatch::llm::llm_adapter::{
    bearer_header, build_chat_request, chat_completions_url, classify_sse_line, decode_sse_data,
    parse_stream_chunks, read_chat_response, stream_request_body, validate_llm_call, ChatCompletionResponse,
    ChatMessage, Choice, LlmMessage, LlmRequest, SseLine, SseLineBuffer, StreamChunk, Usage,
};
use agent_dispatch::llm::llm_adapter::{
    call_failed, call_status_failed, reply_unreadable, stream_failed, stream_read_failed, stream_status_failed, SseDecoder,
};

fn user(text: &str) -> LlmMessage {
    LlmMessage { role: "user".to_string(), content: Some(text.to_string()), tool_calls: None, tool_call_id: None }
}

#[test]
fn test_llm_message_struct() {
    let msg = LlmMessage {
        role: "user".to_string(),
        content: Some("Hello".to_string()),
        tool_calls: None,
        tool_call_id: None,
    };

    assert_eq!(msg.role, "user");
    assert_eq!(msg.content, Some("Hello".to_string()));
}

#[test]
fn test_llm_request_struct() {
    let req = LlmRequest {
        model: "gpt-4".to_string(),
        messages: vec![LlmMessage {
            role: "user".to_string(),
            content: Some("Hi".to_string()),
            tool_calls: None,
            tool_call_id: None,
        }],
        system_prompt: "Be helpful".to_string(),
    };

    assert_eq!(req.model, "gpt-4");
    assert_eq!(req.messages.len(), 1);
}

#[test]
fn test_call_llm_api_empty_api_key() {
    assert!(validate_llm_call("", "gpt-4").is_err());
    assert!(matches!(validate_llm_call("", "gpt-4"), Err(AppError::Validation(m)) if m == "API key is required"));
}

#[test]
fn test_call_llm_api_empty_model() {
    assert!(validate_llm_call("test-key", "").is_err());
    assert!(validate_llm_call("test-key", "gpt-4").is_ok());
}

#[test]
fn urls_and_headers() {
    assert_eq!(chat_completions_url("https://api.openai.com/v1"), "https://api.openai.com/v1/chat/completions");
    assert_eq!(chat_completions_url("https://api.openai.com/v1//"), "https://api.openai.com/v1/chat/completions");
    assert_eq!(bearer_header("sk-1"), "Bearer sk-1");
}

#[test]
fn plain_request_puts_the_system_prompt_first() {
    let r = build_chat_request("gpt-4", "Be helpful", &vec![user("Hi")]);
    assert_eq!(r.model, "gpt-4");
    assert_eq!(r.messages.len(), 2);
    assert_eq!(r.messages[0].role, "system");
    assert_eq!(r.messages[0].content, "Be helpful");
    assert_eq!(r.messages[1].role, "user");
    assert_eq!(r.messages[1].content, "Hi");
}

#[test]
fn plain_reply_is_read_from_the_first_choice() {
    let resp = ChatCompletionResponse {
        choices: vec![Choice {
            message: ChatMessage { role: "assistant".to_string(), content: "Hello!".to_string() },
            finish_reason: Some("stop".to_string()),
        }],
        usage: Some(Usage { prompt_tokens: 3, completion_tokens: 2, total_tokens: 5 }),
    };
    let r = read_chat_response(resp).unwrap();
    assert_eq!(r.content, "Hello!");
    match r.usage {
        Some(JsonValue::Object(es)) => {
            assert_eq!(es.len(), 3);
            let total = es.iter().find(|(k, _)| k == "total_tokens").unwrap();
            assert!(matches!(&total.1, JsonValue::Number(n) if n.text == "5" && n.as_i64 == Some(5)));
        }
        other => panic!("unexpected {:?}", other),
    }
    let empty = ChatCompletionResponse { choices: vec![], usage: None };
    assert!(matches!(read_chat_response(empty), Err(AppError::Internal(m)) if m == "No choices in LLM response"));
}

#[test]
fn stream_body_carries_model_messages_and_tools() {
    let body = stream_request_body("gpt-4", "sys", &vec![user("a"), user("b")], vec![]);
    match &body {
        JsonValue::Object(es) => {
            assert!(es.iter().any(|(k, v)| k == "model" && matches!(v, JsonValue::String(s) if s == "gpt-4")));
            assert!(es.iter().any(|(k, v)| k == "stream" && matches!(v, JsonValue::Bool(true))));
            assert!(es.iter().any(|(k, v)| k == "messages" && matches!(v, JsonValue::Array(xs) if xs.len() == 3)));
            assert!(!es.iter().any(|(k, _)| k == "tools"));
        }
        other => panic!("unexpected {:?}", other),
    }
}

#[test]
fn stream_chunks_are_read_from_deltas() {
    let v = parse_json(r#"{"choices":[{"delta":{"content":"Hel"}}]}"#).unwrap();
    assert!(matches!(parse_stream_chunks(&v).as_slice(), [StreamChunk::Token(t)] if t == "Hel"));
    let v = parse_json(r#"{"choices":[{"delta":{},"finish_reason":"tool_calls"}]}"#).unwrap();
    assert!(matches!(parse_stream_chunks(&v).as_slice(), [StreamChunk::FinishReason(r)] if r == "tool_calls"));
    let v = parse_json(
        r#"{"choices":[{"delta":{"tool_calls":[{"index":1,"id":"c","function":{"name":"echo","arguments":"{"}}]}}]}"#,
    )
    .unwrap();
    match parse_stream_chunks(&v).as_slice() {
        [StreamChunk::ToolCallDelta { index, id, name, arguments }] => {
            assert_eq!(*index, 1);
            assert_eq!(id.as_deref(), Some("c"));
            assert_eq!(name.as_deref(), Some("echo"));
            assert_eq!(arguments.as_deref(), Some("{"));
        }
        other => panic!("unexpected {:?}", other),
    }
    let v = parse_json(r#"{"choices":[]}"#).unwrap();
    assert!(parse_stream_chunks(&v).is_empty());
}

#[test]
fn a_delta_that_comes_with_the_finish_reason_is_kept() {
    let v = parse_json(r#"{"choices":[{"delta":{"content":"Hi"},"finish_reason":"stop"}]}"#).unwrap();
    let cs = parse_stream_chunks(&v);
    assert_eq!(cs.len(), 2);
    assert!(matches!(&cs[0], StreamChunk::Token(t) if t == "Hi"));
    assert!(matches!(&cs[1], StreamChunk::FinishReason(r) if r == "stop"));
    let v = parse_json(
        r#"{"choices":[{"delta":{"tool_calls":[{"index":0,"function":{"arguments":"}"}}]},"finish_reason":"tool_calls"}]}"#,
    )
    .unwrap();
    let cs = parse_stream_chunks(&v);
    assert_eq!(cs.len(), 2);
    assert!(matches!(&cs[0], StreamChunk::ToolCallDelta { index: 0, arguments: Some(a), .. } if a == "}"));
    assert!(matches!(&cs[1], StreamChunk::FinishReason(r) if r == "tool_calls"));
    let v = parse_json(r#"{"choices":[{"delta":{"content":""},"finish_reason":""}]}"#).unwrap();
    assert!(parse_stream_chunks(&v).is_empty());
}

#[test]
fn sse_lines_are_split_and_classified() {
    let mut b = SseLineBuffer::new();
    b.push_text("data: {\"a\"");
    assert!(b.next_line().is_none());
    b.push_text(":1}\n\ndata: [DONE]\n");
    let l1 = b.next_line().unwrap();
    assert!(matches!(classify_sse_line(&l1), SseLine::Data(d) if d == "{\"a\":1}"));
    let l2 = b.next_line().unwrap();
    assert!(matches!(classify_sse_line(&l2), SseLine::Skip));
    let l3 = b.next_line().unwrap();
    assert!(matches!(classify_sse_line(&l3), SseLine::Done));
    assert!(b.next_line().is_none());
    let other: Vec<char> = ": keep-alive".chars().collect();
    assert!(matches!(classify_sse_line(&other), SseLine::Skip));
}

#[test]
fn sse_data_that_is_not_json_is_an_error() {
    match decode_sse_data("{oops") {
        Err(AppError::Internal(m)) => {
            assert!(m.starts_with("Invalid SSE JSON from LLM: "));
            assert!(m.ends_with(" | line={oops"));
        }
        other => panic!("unexpected {:?}", other),
    }
    assert!(matches!(decode_sse_data(r#"{"choices":[{"delta":{"content":"x"}}]}"#), Ok(cs) if matches!(cs.as_slice(), [StreamChunk::Token(t)] if t == "x")));
}

#[test]
fn the_decoder_reads_chunks_however_the_text_is_cut() {
    let text = "data: {\"choices\":[{\"delta\":{\"content\":\"Hel\"}}]}\n\n: ping\ndata: {\"choices\":[{\"delta\":{\"content\":\"lo\"}}]}\ndata: [DONE]\ndata: {\"choices\":[]}\n";
    let mut whole = SseDecoder::new();
    let (all, err) = whole.feed(text);
    assert!(err.is_none());
    assert!(whole.finished());
    assert_eq!(all.len(), 3);
    for cut in 1..text.len() {
        if !text.is_char_boundary(cut) {
            continue;
        }
        let mut d = SseDecoder::new();
        let (mut got, e1) = d.feed(&text[..cut]);
        assert!(e1.is_none());
        if !d.finished() {
            let (rest, e2) = d.feed(&text[cut..]);
            assert!(e2.is_none());
            got.extend(rest);
        }
        assert_eq!(got.len(), 3, "cut at {}", cut);
        assert!(matches!(&got[0], StreamChunk::Token(t) if t == "Hel"));
        assert!(matches!(&got[1], StreamChunk::Token(t) if t == "lo"));
        assert!(matches!(&got[2], StreamChunk::Done));
    }
}

#[test]
fn the_decoder_stops_at_bad_json() {
    let mut d = SseDecoder::new();
    let (got, err) = d.feed("data: {\"choices\":[{\"delta\":{\"content\":\"a\"}}]}\ndata: nope\ndata: [DONE]\n");
    assert_eq!(got.len(), 1);
    assert!(matches!(err, Some(AppError::Internal(m)) if m.starts_with("Invalid SSE JSON from LLM: ") && m.ends_with(" | line=nope")));
    assert!(d.finished());
    let mut w = SseDecoder::new();
    let (got, err) = w.feed("data: {\"choices\":[{\"delta\":{\"content\":\"a\"}}]}");
    assert!(got.is_empty() && err.is_none() && !w.finished());
}

#[test]
fn call_errors_carry_their_detail() {
    assert!(matches!(call_failed("dns"), AppError::Internal(m) if m == "LLM API call failed: dns"));
    assert!(matches!(call_status_failed("401 Unauthorized", "no"), AppError::Internal(m) if m == "LLM API returned 401 Unauthorized: no"));
    assert!(matches!(reply_unreadable("eof"), AppError::Internal(m) if m == "Failed to parse LLM response: eof"));
    assert!(matches!(stream_failed("dns"), AppError::Internal(m) if m == "LLM stream request failed: dns"));
    assert!(matches!(stream_status_failed("500 Internal Server Error", "x"), AppError::Internal(m) if m == "LLM API 500 Internal Server Error: x"));
    assert!(matches!(stream_read_failed("reset"), AppError::Internal(m) if m == "Stream read error: reset"));
}
