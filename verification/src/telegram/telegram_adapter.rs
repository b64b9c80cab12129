//! The Telegram Bot API: what it delivers, the requests the connector sends it, and what
//! its answers mean.
use vstd::prelude::*;
use vstd::string::*;
use crate::error::AppError;
use crate::json::{JsonNumber, JsonValue};
use crate::text::{i64_to_decimal, int_decimal};

verus! {

/// The bot that a token belongs to.
#[derive(Debug)]
pub struct BotInfo {
    pub id: i64,
    pub username: String,
}

/// One update from `getUpdates`.
#[derive(Debug)]
pub struct TelegramUpdate {
    pub update_id: i64,
    pub message: Option<TelegramMessage>,
}

/// A message sent to the bot.
#[derive(Debug)]
pub struct TelegramMessage {
    pub message_id: i64,
    pub from: Option<TelegramUser>,
    pub chat: TelegramChat,
    pub text: Option<String>,
}

/// The sender of a message.
#[derive(Debug)]
pub struct TelegramUser {
    pub id: i64,
    pub is_bot: bool,
    pub first_name: String,
}

/// The chat a message came from.
#[derive(Debug)]
pub struct TelegramChat {
    pub id: i64,
}

/// The envelope of every Bot API answer.
#[derive(Debug)]
pub struct ApiResponse<T> {
    pub ok: bool,
    pub result: Option<T>,
    pub description: Option<String>,
}

/// The text of an optional description: empty when there is none.
pub open spec fn desc_text(d: Option<String>) -> Seq<char> {
    match d {
        Some(s) => s@,
        None => Seq::empty(),
    }
}

fn desc_string(d: Option<String>) -> (s: String)
    ensures
        s@ == desc_text(d),
{
    match d {
        Some(s) => s,
        None => String::new(),
    }
}

/// The URL of a Bot API method for a bot token.
pub open spec fn spec_api_url(token: Seq<char>, method: Seq<char>) -> Seq<char> {
    "https://api.telegram.org/bot"@ + token + "/"@ + method
}

/// Law: a Bot API URL is `https://api.telegram.org/bot`, then the token whole, then `/` and
/// the method's name whole.
pub proof fn law_api_url_parts(token: Seq<char>, method: Seq<char>)
    ensures
        ({
            let u = spec_api_url(token, method);
            let base = "https://api.telegram.org/bot"@;
            &&& u.len() == base.len() + token.len() + 1 + method.len()
            &&& u.subrange(0, base.len() as int) == base
            &&& u.subrange(base.len() as int, (base.len() + token.len()) as int) == token
            &&& u[(base.len() + token.len()) as int] == '/'
            &&& u.subrange((base.len() + token.len() + 1) as int, u.len() as int) == method
        }),
{
    let u = spec_api_url(token, method);
    let base = "https://api.telegram.org/bot"@;
    assert("/"@ == seq!['/']) by {
        reveal_strlit("/");
    }
    assert(u =~= base + token + seq!['/'] + method);
    assert(u.subrange(0, base.len() as int) =~= base);
    assert(u.subrange(base.len() as int, (base.len() + token.len()) as int) =~= token);
    assert(u.subrange((base.len() + token.len() + 1) as int, u.len() as int) =~= method);
}

/// The URL of a Bot API method for a bot token.
pub fn api_url(token: &str, method: &str) -> (u: String)
    ensures
        u@ == spec_api_url(token@, method@),
{
    let mut u = String::from_str("https://api.telegram.org/bot");
    u.append(token);
    u.append("/");
    u.append(method);
    u
}

/// The error for a request to Telegram that could not be made.
pub fn request_failed(detail: &str) -> (e: AppError)
    ensures
        e matches AppError::Internal(m) && m@ == "Telegram request failed: "@ + detail@,
{
    AppError::Internal(String::from_str("Telegram request failed: ").concat(detail))
}

/// The error for a Telegram answer that could not be read.
pub fn parse_failed(detail: &str) -> (e: AppError)
    ensures
        e matches AppError::Internal(m) && m@ == "Telegram response parse failed: "@ + detail@,
{
    AppError::Internal(String::from_str("Telegram response parse failed: ").concat(detail))
}

/// What the answer to `getMe` means: the bot, or an invalid token.
pub fn verify_token_result(resp: ApiResponse<BotInfo>) -> (r: Result<BotInfo, AppError>)
    ensures
        resp.ok ==> match resp.result {
            Some(b) => r == Ok::<BotInfo, AppError>(b),
            None => r matches Err(AppError::Internal(m)) && m@ == "Empty result from getMe"@,
        },
        !resp.ok ==> (r matches Err(AppError::Validation(m)) && m@ == "Invalid bot token: "@
            + desc_text(resp.description)),
{
    if resp.ok {
        match resp.result {
            Some(b) => Ok(b),
            None => Err(AppError::Internal(String::from_str("Empty result from getMe"))),
        }
    } else {
        let d = desc_string(resp.description);
        Err(AppError::Validation(String::from_str("Invalid bot token: ").concat(d.as_str())))
    }
}

/// What the answer to `getUpdates` means: the updates (none when the result is missing), or
/// an error.
pub fn get_updates_result(resp: ApiResponse<Vec<TelegramUpdate>>) -> (r: Result<
    Vec<TelegramUpdate>,
    AppError,
>)
    ensures
        resp.ok ==> (r matches Ok(u) && u@ == match resp.result {
            Some(v) => v@,
            None => Seq::<TelegramUpdate>::empty(),
        }),
        !resp.ok ==> (r matches Err(AppError::Internal(m)) && m@ == "getUpdates failed: "@
            + desc_text(resp.description)),
{
    if resp.ok {
        match resp.result {
            Some(v) => Ok(v),
            None => Ok(Vec::new()),
        }
    } else {
        let d = desc_string(resp.description);
        Err(AppError::Internal(String::from_str("getUpdates failed: ").concat(d.as_str())))
    }
}

/// What the answer to a send request means; `method` names the request in the error.
fn send_result(ok: bool, description: Option<String>, method: &str) -> (r: Result<(), AppError>)
    ensures
        ok ==> r is Ok,
        !ok ==> (r matches Err(AppError::Internal(m)) && m@ == method@ + " failed: "@ + desc_text(
            description,
        )),
{
    if ok {
        Ok(())
    } else {
        let d = desc_string(description);
        let mut m = String::from_str(method);
        m.append(" failed: ");
        m.append(d.as_str());
        Err(AppError::Internal(m))
    }
}

/// What the answer to `sendChatAction` means.
pub fn send_typing_result(resp: ApiResponse<bool>) -> (r: Result<(), AppError>)
    ensures
        resp.ok ==> r is Ok,
        !resp.ok ==> (r matches Err(AppError::Internal(m)) && m@ == "sendChatAction failed: "@
            + desc_text(resp.description)),
{
    let r = send_result(resp.ok, resp.description, "sendChatAction");
    proof {
        reveal_strlit("sendChatAction");
        reveal_strlit(" failed: ");
        reveal_strlit("sendChatAction failed: ");
        assert("sendChatAction"@ + " failed: "@ =~= "sendChatAction failed: "@);
    }
    r
}

/// What the answer to `sendMessage` means; its result is not read.
pub fn send_message_result(resp: ApiResponse<JsonValue>) -> (r: Result<(), AppError>)
    ensures
        resp.ok ==> r is Ok,
        !resp.ok ==> (r matches Err(AppError::Internal(m)) && m@ == "sendMessage failed: "@
            + desc_text(resp.description)),
{
    let r = send_result(resp.ok, resp.description, "sendMessage");
    proof {
        reveal_strlit("sendMessage");
        reveal_strlit(" failed: ");
        reveal_strlit("sendMessage failed: ");
        assert("sendMessage"@ + " failed: "@ =~= "sendMessage failed: "@);
    }
    r
}

/// The query of a long poll from `offset`, waiting up to 30 seconds.
pub fn updates_query(offset: i64) -> (q: Vec<(String, String)>)
    ensures
        q@.len() == 2,
        q@[0].0@ == "offset"@ && q@[0].1@ == int_decimal(offset as int),
        q@[1].0@ == "timeout"@ && q@[1].1@ == "30"@,
{
    let mut q: Vec<(String, String)> = Vec::new();
    q.push((String::from_str("offset"), i64_to_decimal(offset)));
    q.push((String::from_str("timeout"), String::from_str("30")));
    q
}

/// A JSON number for a 64-bit integer.
pub fn json_i64(n: i64) -> (v: JsonValue)
    ensures
        v matches JsonValue::Number(x) && x.as_i64 == Some(n) && x.text@ == int_decimal(n as int)
            && x.as_u64 == (if n >= 0 {
            Some(n as u64)
        } else {
            None
        }),
{
    let text = i64_to_decimal(n);
    let as_u64 = if n >= 0 {
        Some(n as u64)
    } else {
        None
    };
    JsonValue::Number(JsonNumber { as_u64, as_i64: Some(n), text })
}

/// The body of `sendChatAction` that shows "typing…" in a chat.
pub fn typing_body(chat_id: i64) -> (v: JsonValue)
    ensures
        v matches JsonValue::Object(es) && es@.len() == 2 && es@[0].0@ == "chat_id"@
            && (es@[0].1 matches JsonValue::Number(x) && x.as_i64 == Some(chat_id))
            && es@[1].0@ == "action"@ && (es@[1].1 matches JsonValue::String(s) && s@ == "typing"@),
{
    let mut es: Vec<(String, JsonValue)> = Vec::new();
    es.push((String::from_str("chat_id"), json_i64(chat_id)));
    es.push((String::from_str("action"), JsonValue::String(String::from_str("typing"))));
    JsonValue::Object(es)
}

/// The body of `sendMessage` that sends `text` to a chat, formatted as Telegram Markdown.
pub fn message_body(chat_id: i64, text: &str) -> (v: JsonValue)
    ensures
        v matches JsonValue::Object(es) && es@.len() == 3 && es@[0].0@ == "chat_id"@
            && (es@[0].1 matches JsonValue::Number(x) && x.as_i64 == Some(chat_id) && x.text@
            == int_decimal(chat_id as int)) && es@[1].0@ == "text"@ && (es@[1].1 matches JsonValue::String(s)
            && s@ == text@) && es@[2].0@ == "parse_mode"@ && (es@[2].1 matches JsonValue::String(m)
            && m@ == "Markdown"@),
{
    let mut es: Vec<(String, JsonValue)> = Vec::new();
    es.push((String::from_str("chat_id"), json_i64(chat_id)));
    es.push((String::from_str("text"), JsonValue::String(text.to_owned())));
    es.push((String::from_str("parse_mode"), JsonValue::String(String::from_str("Markdown"))));
    JsonValue::Object(es)
}

} // verus!
