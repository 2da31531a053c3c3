//! Language-model integrations.

/// OpenRouter prompt construction and response clean-up.
pub mod openrouter;
