//! Narrative prompts for the language model: chat messages, prompt templates,
//! scene context and dialogue prompts.
pub mod client;
pub mod config;
pub mod context;
pub mod dialogue;
pub mod prompt;
