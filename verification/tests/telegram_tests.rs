use agent_dispatch::crypto::Cipher;
use agent_dispatch::error::AppError;
use agent_dispatch::json::JsonValue;
use agent_dispatch::telegram::telegram_adapter::{
    api_url, get_updates_result, message_body, parse_failed, request_failed, send_message_result,
    send_typing_result, typing_body, updates_query, verify_token_result, ApiResponse, BotInfo, TelegramChat,
    TelegramMessage, TelegramUpdate, TelegramUser,
};
use agent_dispatch::telegram::telegram_service::{
    connector_response, decrypted_token, mask_token, stored_token_or_empty, validate_bot_token,
    TelegramConfig,
};
use agent_dispatch::telegram::telegram_supervisor::{
    backoff, session_title, split_reply, ActiveConnectors, ClaimAction, PollAction, Poller, UpdateFlow,
    UpdateStep, MAX_MESSAGE_CHARS, MAX_POLL_FAILURES,
};

fn update(update_id: i64, text: Option<&str>, from: Option<(i64, bool)>) -> TelegramUpdate {
    TelegramUpdate {
        update_id,
        message: Some(TelegramMessage {
            message_id: update_id * 10,
            from: from.map(|(id, is_bot)| TelegramUser { id, is_bot, first_name: "Ann".to_string() }),
            chat: TelegramChat { id: 99 },
            text: text.map(|t| t.to_string()),
        }),
    }
}

fn config(bot_token: String) -> TelegramConfig {
    TelegramConfig {
        id: 1,
        agent_id: 2,
        bot_token,
        is_enabled: true,
        last_update_id: 0,
        owner_instance_id: None,
        lease_expires_at: None,
        created_at: 3,
        updated_at: 3,
    }
}

#[test]
fn tokens_are_masked_to_their_last_four_characters() {
    assert_eq!(mask_token("123456:ABC-DEF1234ghIkl-zyx57W2v1u123ew11"), "...ew11");
    assert_eq!(mask_token("ab1c"), "...");
    assert_eq!(mask_token(""), "...");
    assert_eq!(mask_token("xyzab1c"), "...ab1c");
    assert_eq!(mask_token("token€"), "...ken€");
    assert_eq!(mask_token("abcde€"), "...cde€");
    assert_eq!(mask_token("€€"), "...");
    assert_eq!(mask_token("a€€€€"), "...€€€€");
    assert_eq!(mask_token("tokenü€"), "...enü€");
    assert_eq!(mask_token("zzzzzab1c"), mask_token("q-ab1c"));
}

#[test]
fn backoff_doubles_up_to_its_cap() {
    let delays: Vec<u64> = (0..12).map(backoff).collect();
    assert_eq!(delays, vec![1, 2, 4, 8, 16, 32, 64, 128, 256, 300, 300, 300]);
    assert_eq!(backoff(20), 300);
    assert_eq!(backoff(u32::MAX), 300);
}

#[test]
fn the_poller_stops_after_ten_failures_in_a_row() {
    let mut p = Poller::new(5);
    for n in 1..MAX_POLL_FAILURES {
        assert!(matches!(p.on_poll_failed(), PollAction::RetryAfter(s) if s == backoff(n)));
    }
    assert!(matches!(p.on_poll_failed(), PollAction::Stop));
    assert_eq!(p.current_offset(), 5);
}

#[test]
fn a_success_forgets_the_failures_and_moves_the_offset() {
    let mut p = Poller::new(5);
    p.on_poll_failed();
    p.on_poll_failed();
    assert!(matches!(p.on_updates(&vec![]), PollAction::Poll));
    assert_eq!(p.current_offset(), 5);
    for _ in 1..MAX_POLL_FAILURES {
        assert!(matches!(p.on_poll_failed(), PollAction::RetryAfter(_)));
    }
    let batch = vec![update(12, Some("a"), None), update(40, None, None), update(7, None, None)];
    assert!(matches!(p.on_updates(&batch), PollAction::SaveAndProcess(41)));
    assert_eq!(p.current_offset(), 41);
    assert!(matches!(p.on_poll_failed(), PollAction::RetryAfter(2)));
}

#[test]
fn only_text_from_people_is_handled() {
    let (f, s) = UpdateFlow::start(&update(1, None, Some((7, false))), 1, 2, 3);
    assert!(f.is_none() && matches!(s, UpdateStep::Done));
    let (f, _) = UpdateFlow::start(&update(1, Some("hi"), None), 1, 2, 3);
    assert!(f.is_none());
    let (f, _) = UpdateFlow::start(&update(1, Some("hi"), Some((7, true))), 1, 2, 3);
    assert!(f.is_none());
    let (f, _) = UpdateFlow::start(&TelegramUpdate { update_id: 1, message: None }, 1, 2, 3);
    assert!(f.is_none());
    let (f, s) = UpdateFlow::start(&update(1, Some("hi"), Some((7, false))), 1, 2, 3);
    assert!(f.is_some());
    assert!(matches!(s, UpdateStep::FetchWhitelist { agent_id: 2 }));
}

#[test]
fn senders_off_the_whitelist_are_rejected() {
    let (f, _) = UpdateFlow::start(&update(1, Some("hi"), Some((7, false))), 1, 2, 3);
    let mut f = f.unwrap();
    match f.on_whitelist(&vec![]) {
        UpdateStep::Reject { chat_id, text } => {
            assert_eq!(chat_id, 99);
            assert_eq!(text, "You are not authorized to use this bot.");
        }
        other => panic!("unexpected {:?}", other),
    }
    let (f, _) = UpdateFlow::start(&update(1, Some("hi"), Some((7, false))), 1, 2, 3);
    let mut f = f.unwrap();
    assert!(matches!(f.on_whitelist(&vec![5, 6]), UpdateStep::Reject { .. }));
}

#[test]
fn a_whitelisted_message_is_answered_in_the_senders_session() {
    let (f, _) = UpdateFlow::start(&update(1, Some("hi"), Some((7, false))), 1, 2, 3);
    let mut f = f.unwrap();
    assert!(matches!(f.on_whitelist(&vec![5, 7]), UpdateStep::RecordProcessed { connector_id: 1, message_id: 10 }));
    match f.on_recorded(true) {
        UpdateStep::FindSession { agent_id, title } => {
            assert_eq!(agent_id, 2);
            assert_eq!(title, "telegram:7");
        }
        other => panic!("unexpected {:?}", other),
    }
    match f.on_session_lookup(None) {
        UpdateStep::CreateSession { agent_id, user_id, title } => {
            assert_eq!((agent_id, user_id), (2, 3));
            assert_eq!(title, "telegram:7");
        }
        other => panic!("unexpected {:?}", other),
    }
    assert!(matches!(f.on_session_created(44), UpdateStep::RunAgent { chat_id: 99, session_id: 44, text } if text == "hi"));
    assert!(matches!(f.on_answer("hello".to_string()), UpdateStep::Reply { chat_id: 99, parts } if parts == vec!["hello".to_string()]));
}

#[test]
fn long_answers_are_sent_in_parts() {
    let answer: String = "ab".repeat(4100) + "€z";
    let parts = split_reply(&answer);
    assert_eq!(parts.len(), 3);
    assert_eq!(parts[0].chars().count(), MAX_MESSAGE_CHARS);
    assert_eq!(parts[1].chars().count(), MAX_MESSAGE_CHARS);
    assert_eq!(parts[2], "ab".repeat(4) + "€z");
    assert_eq!(parts.concat(), answer);
    assert_eq!(split_reply(""), vec![String::new()]);
    let exact = "x".repeat(MAX_MESSAGE_CHARS);
    assert_eq!(split_reply(&exact), vec![exact.clone()]);
    let (f, _) = UpdateFlow::start(&update(1, Some("hi"), Some((7, false))), 1, 2, 3);
    let mut f = f.unwrap();
    f.on_whitelist(&vec![7]);
    f.on_recorded(true);
    f.on_session_lookup(Some(8));
    match f.on_answer(answer.clone()) {
        UpdateStep::Reply { chat_id, parts } => {
            assert_eq!(chat_id, 99);
            assert_eq!(parts.len(), 3);
            assert_eq!(parts.concat(), answer);
        }
        other => panic!("unexpected {:?}", other),
    }
}

#[test]
fn a_message_seen_before_is_skipped() {
    let (f, _) = UpdateFlow::start(&update(1, Some("hi"), Some((7, false))), 1, 2, 3);
    let mut f = f.unwrap();
    f.on_whitelist(&vec![7]);
    assert!(matches!(f.on_recorded(false), UpdateStep::Done));
    let (f, _) = UpdateFlow::start(&update(1, Some("hi"), Some((7, false))), 1, 2, 3);
    let mut f = f.unwrap();
    f.on_whitelist(&vec![7]);
    f.on_recorded(true);
    assert!(matches!(f.on_session_lookup(Some(8)), UpdateStep::RunAgent { session_id: 8, .. }));
    assert_eq!(session_title(-12), "telegram:-12");
}

#[test]
fn running_connectors_are_not_claimed_twice() {
    let mut a = ActiveConnectors::new();
    assert!(a.should_claim(1));
    assert!(matches!(a.on_token(1, Ok("tok".to_string())), ClaimAction::Spawn { connector_id: 1, token } if token == "tok"));
    assert!(!a.should_claim(1));
    assert!(matches!(a.on_token(2, Err(AppError::Internal("x".to_string()))), ClaimAction::Release(2)));
    assert!(a.should_claim(2));
    a.on_token(3, Ok("t3".to_string()));
    assert_eq!(a.len(), 2);
    a.on_task_finished(1);
    assert!(a.should_claim(1));
    assert!(!a.should_claim(3));
    a.on_task_panicked();
    assert_eq!(a.len(), 0);
    assert!(a.should_claim(3));
}

#[test]
fn bot_api_urls_and_bodies() {
    assert_eq!(api_url("123:abc", "getMe"), "https://api.telegram.org/bot123:abc/getMe");
    let q = updates_query(-5);
    assert_eq!(q, vec![("offset".to_string(), "-5".to_string()), ("timeout".to_string(), "30".to_string())]);
    match typing_body(42) {
        JsonValue::Object(es) => {
            assert_eq!(es[0].0, "chat_id");
            assert!(matches!(&es[0].1, JsonValue::Number(n) if n.text == "42" && n.as_i64 == Some(42)));
            assert!(matches!(&es[1].1, JsonValue::String(s) if s == "typing"));
        }
        other => panic!("unexpected {:?}", other),
    }
    match message_body(-42, "hey") {
        JsonValue::Object(es) => {
            assert!(matches!(&es[0].1, JsonValue::Number(n) if n.text == "-42" && n.as_u64.is_none()));
            assert_eq!(es.len(), 3);
            assert_eq!(es[0].0, "chat_id");
            assert_eq!(es[1].0, "text");
            assert!(matches!(&es[1].1, JsonValue::String(s) if s == "hey"));
            assert_eq!(es[2].0, "parse_mode");
            assert!(matches!(&es[2].1, JsonValue::String(s) if s == "Markdown"));
        }
        other => panic!("unexpected {:?}", other),
    }
}

#[test]
fn bot_api_answers_are_interpreted() {
    let ok = ApiResponse { ok: true, result: Some(BotInfo { id: 1, username: "bot".to_string() }), description: None };
    assert_eq!(verify_token_result(ok).unwrap().username, "bot");
    let empty: ApiResponse<BotInfo> = ApiResponse { ok: true, result: None, description: None };
    assert!(matches!(verify_token_result(empty), Err(AppError::Internal(m)) if m == "Empty result from getMe"));
    let bad: ApiResponse<BotInfo> = ApiResponse { ok: false, result: None, description: Some("Unauthorized".to_string()) };
    assert!(matches!(verify_token_result(bad), Err(AppError::Validation(m)) if m == "Invalid bot token: Unauthorized"));
    let none: ApiResponse<Vec<TelegramUpdate>> = ApiResponse { ok: true, result: None, description: None };
    assert!(get_updates_result(none).unwrap().is_empty());
    let failed: ApiResponse<Vec<TelegramUpdate>> = ApiResponse { ok: false, result: None, description: None };
    assert!(matches!(get_updates_result(failed), Err(AppError::Internal(m)) if m == "getUpdates failed: "));
    let t: ApiResponse<bool> = ApiResponse { ok: false, result: None, description: Some("x".to_string()) };
    assert!(matches!(send_typing_result(t), Err(AppError::Internal(m)) if m == "sendChatAction failed: x"));
    let m: ApiResponse<JsonValue> = ApiResponse { ok: false, result: None, description: Some("y".to_string()) };
    assert!(matches!(send_message_result(m), Err(AppError::Internal(e)) if e == "sendMessage failed: y"));
    let m: ApiResponse<JsonValue> = ApiResponse { ok: true, result: Some(JsonValue::Null), description: None };
    assert!(send_message_result(m).is_ok());
    assert!(matches!(request_failed("timeout"), AppError::Internal(m) if m == "Telegram request failed: timeout"));
    assert!(matches!(parse_failed("eof"), AppError::Internal(m) if m == "Telegram response parse failed: eof"));
}

#[test]
fn connectors_show_a_masked_token() {
    assert!(matches!(validate_bot_token(""), Err(AppError::Validation(m)) if m == "Bot token is required"));
    assert!(validate_bot_token("t").is_ok());
    let key = "0".repeat(64);
    let cipher = Cipher::new(Some(key.as_str())).unwrap();
    let stored = cipher.encrypt("123:secret-token").unwrap();
    let c = config(stored);
    let plain = decrypted_token(&cipher, &c).unwrap();
    assert_eq!(plain, "123:secret-token");
    let r = connector_response(&c, &plain);
    assert_eq!(r.masked_token, "...oken");
    assert_eq!((r.id, r.agent_id, r.is_enabled, r.created_at), (1, 2, true, 3));
    let broken = config("zz".to_string());
    assert_eq!(stored_token_or_empty(&cipher, &broken.bot_token), "");
    assert!(matches!(decrypted_token(&cipher, &broken), Err(AppError::Internal(m)) if m.starts_with("Decryption failed: Failed to decode encrypted data: ")));
}

#[test]
fn each_telegram_user_has_a_title_of_their_own() {
    assert_eq!(session_title(7), "telegram:7");
    assert_eq!(session_title(i64::MIN), "telegram:-9223372036854775808");
    assert_ne!(session_title(1), session_title(-1));
    assert_ne!(session_title(12), session_title(1));
    assert_ne!(session_title(0), session_title(-0 - 1));
}

#[test]
fn a_second_message_finds_the_session_the_first_created() {
    let mut sessions: Vec<(u128, u128, String)> = Vec::new();
    let mut used = Vec::new();
    for (n, new_id) in [(1i64, 500u128), (2, 600)] {
        let (f, _) = UpdateFlow::start(&update(n, Some("hi"), Some((7, false))), 1, 2, 3);
        let mut f = f.unwrap();
        f.on_whitelist(&vec![7]);
        let (agent, title) = match f.on_recorded(true) {
            UpdateStep::FindSession { agent_id, title } => (agent_id, title),
            other => panic!("unexpected {:?}", other),
        };
        let found = sessions.iter().find(|(_, a, t)| *a == agent && *t == title).map(|(id, _, _)| *id);
        let step = match f.on_session_lookup(found) {
            UpdateStep::CreateSession { agent_id, title, .. } => {
                sessions.push((new_id, agent_id, title));
                f.on_session_created(new_id)
            }
            other => other,
        };
        match step {
            UpdateStep::RunAgent { session_id, .. } => used.push(session_id),
            other => panic!("unexpected {:?}", other),
        }
    }
    assert_eq!(sessions.len(), 1);
    assert_eq!(used, vec![500, 500]);
}
