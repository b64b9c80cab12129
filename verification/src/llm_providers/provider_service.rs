//! Creating, changing and showing providers; the API key is stored encrypted and never
//! shown.
use vstd::prelude::*;
use crate::crypto::{
    Cipher, CryptoError, crypto_error_text, decrypt_spec, decryption_failed, seal_secret, seals,
};
use crate::error::{AppError, validation};
use crate::llm_providers::db::{CreateProviderRequest, LlmProvider};
use crate::text::{opt_owned, opt_str_view, opt_string_view};
use vstd::utf8::encode_utf8;

verus! {

/// A provider as the API shows it: without its API key.
#[derive(Debug)]
pub struct ProviderResponse {
    pub id: u128,
    pub name: String,
    /// The kind of service (`type` in JSON).
    pub provider_type: String,
    pub base_url: Option<String>,
}

/// The provider to store for a new provider: its name, its type and its API key are
/// required, in that order.
pub fn create_provider_request(
    name: &str,
    provider_type: &str,
    api_key: &str,
    base_url: Option<&str>,
) -> (r: Result<CreateProviderRequest, AppError>)
    ensures
        name@.len() == 0 ==> (r matches Err(AppError::Validation(m)) && m@ == "Name is required"@),
        name@.len() > 0 && provider_type@.len() == 0 ==> (r matches Err(AppError::Validation(m))
            && m@ == "Type is required"@),
        name@.len() > 0 && provider_type@.len() > 0 && api_key@.len() == 0 ==> (
        r matches Err(AppError::Validation(m)) && m@ == "API key is required"@),
        name@.len() > 0 && provider_type@.len() > 0 && api_key@.len() > 0 ==> (r matches Ok(q)
            && q.name@ == name@ && q.provider_type@ == provider_type@ && q.api_key@ == api_key@
            && opt_string_view(q.base_url) == opt_str_view(base_url)),
{
    if name.is_empty() {
        return Err(validation("Name is required"));
    }
    if provider_type.is_empty() {
        return Err(validation("Type is required"));
    }
    if api_key.is_empty() {
        return Err(validation("API key is required"));
    }
    Ok(
        CreateProviderRequest {
            name: name.to_owned(),
            provider_type: provider_type.to_owned(),
            api_key: api_key.to_owned(),
            base_url: opt_owned(base_url),
        },
    )
}

/// Checks a change of a provider: its name is required.
pub fn validate_provider_update(name: &str) -> (r: Result<(), AppError>)
    ensures
        name@.len() == 0 ==> (r matches Err(AppError::Validation(m)) && m@ == "Name is required"@),
        name@.len() > 0 ==> r is Ok,
{
    if name.is_empty() {
        Err(validation("Name is required"))
    } else {
        Ok(())
    }
}

/// The stored form of an API key: encrypted under the service's key. A key too long to
/// encrypt is an internal error.
pub fn seal_api_key(cipher: &Cipher, api_key: &str) -> (r: Result<String, AppError>)
    ensures
        r is Ok <==> encode_utf8(api_key@).len() / 64 < 0xffff_ffff,
        r matches Ok(s) ==> seals(cipher.key(), s@, api_key@),
        r matches Err(e) ==> (e matches AppError::Internal(m) && m@ == "Encryption failed: "@
            + crypto_error_text(CryptoError::Encryption)),
{
    seal_secret(cipher, api_key)
}

/// The API key of a stored provider, decrypted; a key that does not decrypt is an internal
/// error.
pub fn open_api_key(cipher: &Cipher, stored: &str) -> (r: Result<String, AppError>)
    ensures
        match decrypt_spec(cipher.key(), stored@) {
            Ok(p) => r matches Ok(s) && s@ == p,
            Err(e) => r matches Err(AppError::Internal(m)) && m@ == "Decryption failed: "@
                + crypto_error_text(e),
        },
{
    match cipher.decrypt(stored) {
        Ok(p) => Ok(p),
        Err(e) => Err(decryption_failed(e)),
    }
}

/// Whether a response shows exactly the stored provider, but not its key.
pub open spec fn shows_provider(r: ProviderResponse, p: LlmProvider) -> bool {
    &&& r.id == p.id
    &&& r.name@ == p.name@
    &&& r.provider_type@ == p.provider_type@
    &&& opt_string_view(r.base_url) == opt_string_view(p.base_url)
}

/// Law: a response shows a stored provider when its id, name, type and base URL hold what the
/// provider holds; the response has no field for the API key.
pub proof fn law_provider_shown_field_by_field(r: ProviderResponse, p: LlmProvider)
    ensures
        shows_provider(r, p) <==> (r.id == p.id && r.name@ == p.name@ && r.provider_type@
            == p.provider_type@ && (r.base_url is None <==> p.base_url is None) && (r.base_url is Some
            ==> r.base_url->0@ == p.base_url->0@)),
{
}

/// A stored provider as the API shows it.
pub fn provider_response(p: LlmProvider) -> (r: ProviderResponse)
    ensures
        shows_provider(r, p),
{
    ProviderResponse { id: p.id, name: p.name, provider_type: p.provider_type, base_url: p.base_url }
}

/// Stored providers as the API lists them, in the same order.
pub fn provider_responses(providers: Vec<LlmProvider>) -> (r: Vec<ProviderResponse>)
    ensures
        r@.len() == providers@.len(),
        forall|i: int| 0 <= i < providers@.len() ==> shows_provider(#[trigger] r@[i], providers@[i]),
{
    let mut out: Vec<ProviderResponse> = Vec::new();
    let mut rest = providers;
    let ghost all = providers@;
    while rest.len() > 0
        invariant
            out@.len() + rest@.len() == all.len(),
            rest@ == all.subrange(out@.len() as int, all.len() as int),
            forall|i: int| 0 <= i < out@.len() ==> shows_provider(#[trigger] out@[i], all[i]),
        decreases rest@.len(),
    {
        let p = rest.remove(0);
        out.push(provider_response(p));
    }
    out
}

} // verus!
