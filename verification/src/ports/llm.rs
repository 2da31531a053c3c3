//! Errors of language-model providers.
use crate::text::string_of;
use vstd::prelude::*;

verus! {

/// Errors that can occur while obtaining or decoding an LLM response.
#[derive(Debug, Clone, PartialEq, Eq)]
pub enum LlmError {
    /// The provider could not be configured from the supplied settings.
    Configuration(String),
    /// The provider request failed before a usable response was received.
    Transport(String),
    /// The provider returned content that could not be decoded as a plan.
    InvalidResponse(String),
    /// The provider returned an application-level error.
    Provider(String),
}

/// The user-facing text of a language-model error.
pub open spec fn llm_error_text(e: LlmError) -> Seq<char> {
    match e {
        LlmError::Configuration(m) => "LLM configuration error: "@ + m@,
        LlmError::Transport(m) => "LLM transport error: "@ + m@,
        LlmError::InvalidResponse(m) => "Invalid LLM response: "@ + m@,
        LlmError::Provider(m) => "LLM provider error: "@ + m@,
    }
}

impl LlmError {
    /// The user-facing text of the error.
    pub fn message(&self) -> (r: String)
        ensures
            r@ == llm_error_text(*self),
    {
        let (prefix, m) = match self {
            LlmError::Configuration(m) => ("LLM configuration error: ", m),
            LlmError::Transport(m) => ("LLM transport error: ", m),
            LlmError::InvalidResponse(m) => ("Invalid LLM response: ", m),
            LlmError::Provider(m) => ("LLM provider error: ", m),
        };
        let mut r = string_of(prefix);
        r.append(m.as_str());
        r
    }
}

} // verus!
