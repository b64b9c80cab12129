//! Models: a provider's model, under a name of the user's choosing.
pub mod db;
pub mod model_service;
