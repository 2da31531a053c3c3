//! Semantic-assessment integrations.

/// TypeSafe Jev request building, answer mapping and retry decisions.
pub mod typesafe;
