//! Job ingestion snapshots and normalized job listings.
//!
//! Points in time are held as nanoseconds since the Unix epoch (UTC). The
//! clock and the fresh identifiers are read by the caller and handed in.
use crate::text::string_of;
use vstd::prelude::*;

verus! {

/// The source-provided identifier for a listing.
///
/// This is intentionally kept separate from the internal UUID stored on
/// [`Job`]. A source identifier can be missing, unstable, or reused by the
/// source.
pub type SourceJobId = String;

/// A job listing exactly as received from a source adapter.
///
/// Raw jobs should be persisted before normalization. Keeping the original
/// payload makes parser improvements and failed ingestion runs replayable.
#[derive(Debug, Clone, PartialEq, Eq)]
pub struct RawJob {
    /// The identifier supplied by the source, if one exists.
    pub id: Option<SourceJobId>,
    /// The stable identifier of the source adapter that produced this listing.
    pub source: String,
    /// The URL from which the raw listing was fetched.
    pub url: String,
    /// The time at which this raw listing was fetched (nanoseconds since the epoch).
    pub fetched_at: i128,
    /// The unmodified content returned by the source.
    pub content: String,
}

impl RawJob {
    /// Creates a raw job snapshot fetched at `fetched_at` (normally the current time).
    pub fn new(
        id: Option<SourceJobId>,
        source: &str,
        url: &str,
        content: &str,
        fetched_at: i128,
    ) -> (r: Self)
        ensures
            r.id == id,
            r.source@ == source@,
            r.url@ == url@,
            r.content@ == content@,
            r.fetched_at == fetched_at,
    {
        RawJob {
            id,
            source: string_of(source),
            url: string_of(url),
            fetched_at,
            content: string_of(content),
        }
    }
}

/// The canonical, normalized representation of a job listing.
#[derive(Debug, Clone, PartialEq)]
pub struct Job {
    /// Internal UUIDv7 identifier. This is not the identifier from a job board.
    pub id: String,
    /// The identifier of the source adapter that supplied this job.
    pub source: String,
    /// The source-provided identifier, when available.
    pub source_job_id: Option<SourceJobId>,
    /// The canonical URL for the listing.
    pub url: String,
    /// The normalized title of the position.
    pub title: String,
    /// The normalized name of the hiring company.
    pub company: String,
    /// The normalized text of the job description.
    pub description: String,
    /// The location or locations associated with the position.
    pub location: Option<String>,
    /// The work-location policy, when it could be determined.
    pub remote_policy: Option<RemotePolicy>,
    /// The employment arrangement, when it could be determined.
    pub employment_type: Option<EmploymentType>,
    /// The advertised compensation, when it was provided and parsed.
    pub compensation: Option<Compensation>,
    /// The time at which the listing was originally posted, when known.
    pub posted_at: Option<i128>,
    /// The first time this canonical job was observed by the application.
    pub first_seen_at: i128,
    /// The most recent time this canonical job was observed by the application.
    pub last_seen_at: i128,
}

impl Job {
    /// Creates a canonical job from normalized fields, with the internal
    /// identifier `id` (normally a fresh UUIDv7) and first observed at
    /// `seen_at` (normally the current time).
    ///
    /// Fields that cannot be reliably extracted are represented as `None`
    /// rather than being guessed. This is important for later rule evaluation.
    #[allow(clippy::too_many_arguments)]
    pub fn new(
        id: &str,
        source: &str,
        source_job_id: Option<SourceJobId>,
        url: &str,
        title: &str,
        company: &str,
        description: &str,
        location: Option<String>,
        remote_policy: Option<RemotePolicy>,
        employment_type: Option<EmploymentType>,
        compensation: Option<Compensation>,
        posted_at: Option<i128>,
        seen_at: i128,
    ) -> (r: Self)
        ensures
            r.id@ == id@,
            r.source@ == source@,
            r.source_job_id == source_job_id,
            r.url@ == url@,
            r.title@ == title@,
            r.company@ == company@,
            r.description@ == description@,
            r.location == location,
            r.remote_policy == remote_policy,
            r.employment_type == employment_type,
            r.compensation == compensation,
            r.posted_at == posted_at,
            r.first_seen_at == seen_at,
            r.last_seen_at == seen_at,
    {
        Job {
            id: string_of(id),
            source: string_of(source),
            source_job_id,
            url: string_of(url),
            title: string_of(title),
            company: string_of(company),
            description: string_of(description),
            location,
            remote_policy,
            employment_type,
            compensation,
            posted_at,
            first_seen_at: seen_at,
            last_seen_at: seen_at,
        }
    }

    /// Records that the source still contains this listing.
    ///
    /// The last-seen time never moves backwards: it becomes the later of the
    /// recorded time and `seen_at`, and nothing else changes.
    pub fn mark_seen(&mut self, seen_at: i128)
        ensures
            final(self).last_seen_at == last_seen_after(old(self).last_seen_at, seen_at),
            *final(self) == (Job { last_seen_at: final(self).last_seen_at, ..*old(self) }),
    {
        if seen_at > self.last_seen_at {
            self.last_seen_at = seen_at;
        }
    }

    /// Returns the source identifier used for matching listings from the same
    /// source. URL matching should be used as a fallback when this is `None`.
    pub fn source_key(&self) -> (r: Option<(&str, &str)>)
        ensures
            match self.source_job_id {
                Some(sid) => r matches Some(pair) && pair.0@ == self.source@ && pair.1@ == sid@,
                None => r is None,
            },
    {
        match &self.source_job_id {
            Some(source_job_id) => Some((self.source.as_str(), source_job_id.as_str())),
            None => None,
        }
    }
}

/// The last-seen time after a sighting at `seen_at`: the later of the two.
pub open spec fn last_seen_after(last_seen: i128, seen_at: i128) -> i128 {
    if seen_at > last_seen {
        seen_at
    } else {
        last_seen
    }
}

/// Recording sightings never moves the last-seen time backwards, and the
/// order in which two sightings are recorded does not matter.
pub proof fn law_sightings_commute_and_never_go_back(last_seen: i128, a: i128, b: i128)
    ensures
        last_seen_after(last_seen, a) >= last_seen,
        last_seen_after(last_seen_after(last_seen, a), b) == last_seen_after(
            last_seen_after(last_seen, b),
            a,
        ),
        last_seen_after(last_seen_after(last_seen, a), a) == last_seen_after(last_seen, a),
{
}

/// Describes where the work is expected to be performed.
#[derive(Debug, Clone, Copy, PartialEq, Eq, Structural)]
pub enum RemotePolicy {
    /// The position is expected to be performed at a workplace.
    OnSite,
    /// The position combines remote work and work at a workplace.
    Hybrid,
    /// The position is intended to be performed remotely.
    Remote,
}

/// Describes the employment arrangement for a job.
#[derive(Debug, Clone, Copy, PartialEq, Eq, Structural)]
pub enum EmploymentType {
    /// A standard full-time position.
    FullTime,
    /// A part-time position.
    PartTime,
    /// A position engaged under a contract.
    Contract,
    /// A temporary position.
    Temporary,
    /// An internship or other explicitly educational position.
    Internship,
    /// An employment arrangement not represented by the other variants.
    Other,
}

/// Represents the compensation advertised for a job.
#[derive(Debug, Clone, PartialEq)]
pub struct Compensation {
    /// The lower end of the advertised range, if provided.
    pub minimum: Option<u64>,
    /// The upper end of the advertised range, if provided.
    pub maximum: Option<u64>,
    /// The ISO 4217 or source-provided currency code.
    pub currency: String,
    /// The period over which the compensation is stated.
    pub period: CompensationPeriod,
}

impl Compensation {
    /// Creates a compensation range with an optional minimum and maximum.
    pub fn new(
        minimum: Option<u64>,
        maximum: Option<u64>,
        currency: &str,
        period: CompensationPeriod,
    ) -> (r: Self)
        ensures
            r.minimum == minimum,
            r.maximum == maximum,
            r.currency@ == currency@,
            r.period == period,
    {
        Compensation { minimum, maximum, currency: string_of(currency), period }
    }
}

/// Describes the period associated with a compensation amount.
#[derive(Debug, Clone, Copy, PartialEq, Eq, Structural)]
pub enum CompensationPeriod {
    /// Compensation is stated per hour.
    Hourly,
    /// Compensation is stated per month.
    Monthly,
    /// Compensation is stated per year.
    Annual,
}

} // verus!
