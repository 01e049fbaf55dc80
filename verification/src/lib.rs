//! Core of a desktop translation tool: input normalization, tolerant
//! decoding of backend completions, target-language switching, provider
//! request planning, duplicate-request suppression and a bounded,
//! deduplicated translation history.
//!
//! Network transport, file persistence and the UI live outside this crate;
//! they hand plain values in and take plain values back.

pub mod chat;
pub mod alternatives;
pub mod config;
pub mod extract;
pub mod history;
pub mod json;
pub mod language;
pub mod normalize;
pub mod ollama;
pub mod persist;
pub mod prompt;
pub mod provider;
pub mod text;
pub mod translator;
pub mod translation;
