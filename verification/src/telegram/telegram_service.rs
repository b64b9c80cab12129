//! Connectors and their whitelists: what is stored, and what the API shows of it.
use vstd::prelude::*;
use vstd::string::*;
use crate::crypto::{Cipher, crypto_error_text, decrypt_spec, decryption_failed};
use crate::error::{AppError, validation};
use crate::text::{chars_of, string_from_range};

verus! {

/// A stored connector: a bot, its encrypted token, and its polling lease. Ids are the
/// 128-bit values of UUIDs; times are microseconds since the Unix epoch.
#[derive(Debug)]
pub struct TelegramConfig {
    pub id: u128,
    pub agent_id: u128,
    /// The bot token, encrypted at rest.
    pub bot_token: String,
    pub is_enabled: bool,
    /// The persisted polling offset.
    pub last_update_id: i64,
    pub owner_instance_id: Option<String>,
    pub lease_expires_at: Option<i64>,
    pub created_at: i64,
    pub updated_at: i64,
}

/// A Telegram user allowed to talk to an agent.
#[derive(Debug)]
pub struct TelegramWhitelistEntry {
    pub id: u128,
    pub agent_id: u128,
    pub telegram_user_id: i64,
    pub created_at: i64,
}

/// A connector as the API shows it: never the raw token.
#[derive(Debug)]
pub struct ConnectorResponse {
    pub id: u128,
    pub agent_id: u128,
    pub is_enabled: bool,
    pub masked_token: String,
    pub created_at: i64,
}

/// The token as the API shows it: `...` and its last four characters, or `...` alone for
/// a token of four characters or fewer.
pub open spec fn masked(token: Seq<char>) -> Seq<char> {
    if token.len() <= 4 {
        "..."@
    } else {
        "..."@ + token.subrange(token.len() - 4, token.len() as int)
    }
}

/// The token as the API shows it: `...` and its last four characters, or `...` alone for
/// a token of four characters or fewer.
pub fn mask_token(token: &str) -> (r: String)
    ensures
        r@ == masked(token@),
{
    let cs = chars_of(token);
    let n = cs.len();
    if n <= 4 {
        String::from_str("...")
    } else {
        let tail = string_from_range(cs.as_slice(), n - 4, n);
        String::from_str("...").concat(tail.as_str())
    }
}

/// Law: the masked form is `...` followed by the token's last four characters when it has
/// more than four, and `...` alone otherwise; it never shows more than seven characters.
pub proof fn law_mask_keeps_the_last_four(token: Seq<char>)
    ensures
        masked(token).len() == if token.len() > 4 {
            7nat
        } else {
            3nat
        },
        masked(token).subrange(0, 3) == "..."@,
        token.len() > 4 ==> forall|i: int|
            0 <= i < 4 ==> #[trigger] masked(token)[3 + i] == token[token.len() - 4 + i],
{
    assert("..."@.len() == 3) by {
        reveal_strlit("...");
    }
    if token.len() > 4 {
        assert(masked(token).subrange(0, 3) =~= "..."@);
    } else {
        assert(masked(token).subrange(0, 3) =~= "..."@);
    }
}

/// Law: the masked form shows nothing of a token but its last four characters: two tokens
/// longer than four characters that end alike are masked alike.
pub proof fn law_mask_shows_only_the_tail(t1: Seq<char>, t2: Seq<char>)
    requires
        t1.len() > 4,
        t2.len() > 4,
        t1.subrange(t1.len() - 4, t1.len() as int) == t2.subrange(t2.len() - 4, t2.len() as int),
    ensures
        masked(t1) == masked(t2),
{
}

/// Checks the token of a new connector: it is required.
pub fn validate_bot_token(bot_token: &str) -> (r: Result<(), AppError>)
    ensures
        bot_token@.len() == 0 ==> (r matches Err(AppError::Validation(m)) && m@
            == "Bot token is required"@),
        bot_token@.len() > 0 ==> r is Ok,
{
    if bot_token.is_empty() {
        Err(validation("Bot token is required"))
    } else {
        Ok(())
    }
}

/// The plaintext of a stored token, or the empty text when it does not decrypt.
pub fn stored_token_or_empty(cipher: &Cipher, stored: &str) -> (r: String)
    ensures
        r@ == match decrypt_spec(cipher.key(), stored@) {
            Ok(p) => p,
            Err(_) => Seq::empty(),
        },
{
    match cipher.decrypt(stored) {
        Ok(p) => p,
        Err(_) => String::new(),
    }
}

/// The plaintext of a stored token, or the internal error that a failed decryption gives.
pub fn decrypted_token(cipher: &Cipher, config: &TelegramConfig) -> (r: Result<String, AppError>)
    ensures
        match decrypt_spec(cipher.key(), config.bot_token@) {
            Ok(p) => r matches Ok(s) && s@ == p,
            Err(e) => r matches Err(AppError::Internal(m)) && m@ == "Decryption failed: "@
                + crypto_error_text(e),
        },
{
    match cipher.decrypt(config.bot_token.as_str()) {
        Ok(p) => Ok(p),
        Err(e) => Err(decryption_failed(e)),
    }
}

/// The API form of a connector whose plaintext token is `plain`.
pub fn connector_response(config: &TelegramConfig, plain: &str) -> (r: ConnectorResponse)
    ensures
        r.id == config.id,
        r.agent_id == config.agent_id,
        r.is_enabled == config.is_enabled,
        r.created_at == config.created_at,
        r.masked_token@ == masked(plain@),
{
    ConnectorResponse {
        id: config.id,
        agent_id: config.agent_id,
        is_enabled: config.is_enabled,
        masked_token: mask_token(plain),
        created_at: config.created_at,
    }
}

} // verus!
