//! Errors of semantic job assessment providers.
use crate::text::string_of;
use vstd::prelude::*;

verus! {

/// Errors that can occur while obtaining or decoding semantic assessments.
#[derive(Debug, Clone, PartialEq, Eq)]
pub enum AssessmentError {
    /// The assessor could not be configured from the supplied settings.
    Configuration(String),
    /// The assessor request failed before a usable response was received.
    Transport(String),
    /// The assessor returned content that could not be decoded as assessments.
    InvalidResponse(String),
    /// The assessor returned an application-level error.
    Provider(String),
}

/// The user-facing text of an assessment error.
pub open spec fn assessment_error_text(e: AssessmentError) -> Seq<char> {
    match e {
        AssessmentError::Configuration(m) => "assessment configuration error: "@ + m@,
        AssessmentError::Transport(m) => "assessment transport error: "@ + m@,
        AssessmentError::InvalidResponse(m) => "invalid assessment response: "@ + m@,
        AssessmentError::Provider(m) => "assessment provider error: "@ + m@,
    }
}

impl AssessmentError {
    /// The user-facing text of the error.
    pub fn message(&self) -> (r: String)
        ensures
            r@ == assessment_error_text(*self),
    {
        let (prefix, m) = match self {
            AssessmentError::Configuration(m) => ("assessment configuration error: ", m),
            AssessmentError::Transport(m) => ("assessment transport error: ", m),
            AssessmentError::InvalidResponse(m) => ("invalid assessment response: ", m),
            AssessmentError::Provider(m) => ("assessment provider error: ", m),
        };
        let mut r = string_of(prefix);
        r.append(m.as_str());
        r
    }
}

} // verus!
