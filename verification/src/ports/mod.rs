//! Interfaces owned by the application and implemented by external adapters.

/// Semantic job assessment errors.
pub mod assessment;
/// Language-model provider errors.
pub mod llm;
/// Resume-rendering interfaces.
pub mod renderer;
