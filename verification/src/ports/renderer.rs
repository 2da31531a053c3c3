//! Interfaces for rendering validated resume plans.
use crate::logic::profile::CandidateProfile;
use crate::logic::resume::ResumePlan;
use crate::text::string_of;
use vstd::prelude::*;

verus! {

/// Application-owned interface for resume renderers.
pub trait ResumeRenderer: Send + Sync {
    /// Renders a validated resume plan and candidate profile into a document.
    fn render(&self, plan: &ResumePlan, profile: &CandidateProfile) -> Result<String, RendererError>;
}

/// Errors returned while validating or rendering a resume.
#[derive(Debug, Clone, PartialEq, Eq)]
pub enum RendererError {
    /// The resume plan references invalid or unverified profile evidence.
    InvalidPlan(String),
    /// The template could not be parsed or rendered.
    Template(String),
    /// A rendered document could not be read or written.
    Io(String),
}

/// The user-facing text of a renderer error.
pub open spec fn renderer_error_text(e: RendererError) -> Seq<char> {
    match e {
        RendererError::InvalidPlan(m) => "invalid resume plan: "@ + m@,
        RendererError::Template(m) => "template rendering error: "@ + m@,
        RendererError::Io(m) => "renderer I/O error: "@ + m@,
    }
}

impl RendererError {
    /// The user-facing text of the error.
    pub fn message(&self) -> (r: String)
        ensures
            r@ == renderer_error_text(*self),
    {
        let (prefix, m) = match self {
            RendererError::InvalidPlan(m) => ("invalid resume plan: ", m),
            RendererError::Template(m) => ("template rendering error: ", m),
            RendererError::Io(m) => ("renderer I/O error: ", m),
        };
        let mut r = string_of(prefix);
        r.append(m.as_str());
        r
    }
}

} // verus!
