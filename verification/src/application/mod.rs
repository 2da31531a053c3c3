//! Application use cases that coordinate the domain logic.

/// Coordinates rule-based and semantic job evaluation.
pub mod evaluator;
