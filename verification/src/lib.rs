//! Context building for an AI code assistant: cleaning Rust sources,
//! extracting their item signatures, selecting the files a question is
//! about, and composing the prompt context from stored project state.

pub mod text;
pub mod models;
pub mod error_context;
pub mod patterns;
pub mod cleaner;
pub mod skeleton;
pub mod scanner;
pub mod memory;
pub mod error;
pub mod api;
pub mod chat;
pub mod laws;
