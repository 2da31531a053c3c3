//! The computing parts of the integrations with external services: request
//! construction, response interpretation and retry decisions. The network
//! calls themselves are made by the application shell.

/// Semantic-assessment integrations.
pub mod assessment;
/// Language-model integrations.
pub mod llm;
