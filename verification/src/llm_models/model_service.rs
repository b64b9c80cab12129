//! Creating, changing and showing models.
use vstd::prelude::*;
use crate::error::{AppError, validation};
use crate::llm_models::db::{CreateModelRequest, LlmModel};

verus! {

/// A model as the API shows it.
#[derive(Debug)]
pub struct ModelResponse {
    pub id: u128,
    pub provider_id: u128,
    pub name: String,
    pub model_identifier: String,
}

/// Checks a model's fields, on creation and on change alike: its name and its identifier
/// are required, the name first.
pub fn validate_model(name: &str, model_identifier: &str) -> (r: Result<(), AppError>)
    ensures
        name@.len() == 0 ==> (r matches Err(AppError::Validation(m)) && m@ == "Name is required"@),
        name@.len() > 0 && model_identifier@.len() == 0 ==> (r matches Err(AppError::Validation(m))
            && m@ == "Model identifier is required"@),
        name@.len() > 0 && model_identifier@.len() > 0 ==> r is Ok,
{
    if name.is_empty() {
        return Err(validation("Name is required"));
    }
    if model_identifier.is_empty() {
        return Err(validation("Model identifier is required"));
    }
    Ok(())
}

/// The model to store for a new model of a provider, once its fields are checked.
pub fn create_model_request(provider_id: u128, name: &str, model_identifier: &str) -> (r: Result<
    CreateModelRequest,
    AppError,
>)
    ensures
        match validate_model_spec(name@, model_identifier@) {
            Some(m) => r matches Err(AppError::Validation(x)) && x@ == m,
            None => r matches Ok(q) && q.provider_id == provider_id && q.name@ == name@
                && q.model_identifier@ == model_identifier@,
        },
        name@.len() == 0 ==> (r matches Err(AppError::Validation(m)) && m@ == "Name is required"@),
        name@.len() > 0 && model_identifier@.len() == 0 ==> (r matches Err(AppError::Validation(m))
            && m@ == "Model identifier is required"@),
        name@.len() > 0 && model_identifier@.len() > 0 ==> (r matches Ok(q) && q.provider_id
            == provider_id && q.name@ == name@ && q.model_identifier@ == model_identifier@),
{
    match validate_model(name, model_identifier) {
        Err(e) => Err(e),
        Ok(()) => Ok(
            CreateModelRequest {
                provider_id,
                name: name.to_owned(),
                model_identifier: model_identifier.to_owned(),
            },
        ),
    }
}

/// The validation message for a model's fields, if any.
pub open spec fn validate_model_spec(name: Seq<char>, model_identifier: Seq<char>) -> Option<
    Seq<char>,
> {
    if name.len() == 0 {
        Some("Name is required"@)
    } else if model_identifier.len() == 0 {
        Some("Model identifier is required"@)
    } else {
        None
    }
}

/// Law: a model's fields are refused exactly when its name or its identifier is empty; an
/// empty name is reported first, and an empty identifier under a name is reported as such.
pub proof fn law_model_needs_name_and_identifier(name: Seq<char>, model_identifier: Seq<char>)
    ensures
        validate_model_spec(name, model_identifier) is None <==> (name.len() > 0
            && model_identifier.len() > 0),
        name.len() == 0 ==> validate_model_spec(name, model_identifier) == Some("Name is required"@),
        name.len() > 0 && model_identifier.len() == 0 ==> validate_model_spec(name, model_identifier)
            == Some("Model identifier is required"@),
{
}

/// Whether a response shows exactly the stored model.
pub open spec fn shows_model(r: ModelResponse, m: LlmModel) -> bool {
    &&& r.id == m.id
    &&& r.provider_id == m.provider_id
    &&& r.name@ == m.name@
    &&& r.model_identifier@ == m.model_identifier@
}

/// Law: a response shows a stored model when its id, provider, name and identifier hold what
/// the model holds.
pub proof fn law_model_shown_field_by_field(r: ModelResponse, m: LlmModel)
    ensures
        shows_model(r, m) <==> (r.id == m.id && r.provider_id == m.provider_id && r.name@ == m.name@
            && r.model_identifier@ == m.model_identifier@),
{
}

/// A stored model as the API shows it.
pub fn model_response(m: LlmModel) -> (r: ModelResponse)
    ensures
        shows_model(r, m),
{
    ModelResponse {
        id: m.id,
        provider_id: m.provider_id,
        name: m.name,
        model_identifier: m.model_identifier,
    }
}

/// Stored models as the API lists them, in the same order.
pub fn model_responses(models: Vec<LlmModel>) -> (r: Vec<ModelResponse>)
    ensures
        r@.len() == models@.len(),
        forall|i: int| 0 <= i < models@.len() ==> shows_model(#[trigger] r@[i], models@[i]),
{
    let mut out: Vec<ModelResponse> = Vec::new();
    let mut rest = models;
    let ghost all = models@;
    while rest.len() > 0
        invariant
            out@.len() + rest@.len() == all.len(),
            rest@ == all.subrange(out@.len() as int, all.len() as int),
            forall|i: int| 0 <= i < out@.len() ==> shows_model(#[trigger] out@[i], all[i]),
        decreases rest@.len(),
    {
        let m = rest.remove(0);
        out.push(model_response(m));
    }
    out
}

} // verus!
