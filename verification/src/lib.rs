//! Core of a Model-Context-Protocol server: request routing, batching,
//! prompt templates and resource registries, with machine-checked contracts.

pub mod config;
pub mod error;
pub mod json;
pub mod progress;
pub mod prompt;
pub mod protocol;
pub mod registry;
pub mod resource;
pub mod security;
pub mod service;
pub mod template;
pub mod text;
pub mod wire;
