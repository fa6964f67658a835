//! Decisions behind OMP's native files: the agent directory, the provider
//! entries of `models.json`, the default role of `config.yml`, and the state
//! shown to the user.
//!
//! Every function here is a function of the bytes that were read; reading and
//! writing files is left to the caller.

pub mod change_laws;
pub mod config;
pub mod entry_laws;
pub mod error;
pub mod files;
pub mod json;
pub mod json_text;
pub mod models;
pub mod models_laws;
pub mod paths;
pub mod place_laws;
pub mod provider;
pub mod provider_map;
pub mod reading_laws;
pub mod request_laws;
pub mod revision;
pub mod role_laws;
pub mod settings;
pub mod state;
pub mod text;
pub mod text_laws;
pub mod yaml;
pub mod yaml_text;
