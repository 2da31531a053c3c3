use head_huntress::logic::job::{Compensation, CompensationPeriod, Job, RawJob};

fn fresh_id() -> String {
    uuid::Uuid::now_v7().to_string()
}

fn now_nanos() -> i128 {
    let now = chrono::Utc::now();
    i128::from(now.timestamp()) * 1_000_000_000 + i128::from(now.timestamp_subsec_nanos())
}

#[test]
fn raw_job_uses_the_fetch_time_by_default() {
    let before = now_nanos();
    let job = RawJob::new(
        Some("source-1".to_owned()),
        "example",
        "https://example.test/job",
        "content",
        now_nanos(),
    );
    let after = now_nanos();

    assert!(job.fetched_at >= before);
    assert!(job.fetched_at <= after);
}

#[test]
fn mark_seen_does_not_move_a_job_backwards() {
    let mut job = Job::new(
        &fresh_id(),
        "example",
        Some("source-1".to_owned()),
        "https://example.test/job",
        "Software Engineer",
        "Example Co",
        "Build useful things.",
        None,
        None,
        None,
        None,
        None,
        now_nanos(),
    );
    let original_last_seen = job.last_seen_at;
    let one_second = 1_000_000_000;

    job.mark_seen(original_last_seen - one_second);
    assert_eq!(job.last_seen_at, original_last_seen);

    let later = original_last_seen + one_second;
    job.mark_seen(later);
    assert_eq!(job.last_seen_at, later);
}

#[test]
fn new_jobs_keep_their_identity_and_sighting_time() {
    let id = fresh_id();
    let job = Job::new(&id, "example", None, "u", "t", "c", "d", None, None, None, None, Some(5), 42);
    assert_eq!(job.id, id);
    assert_eq!(job.first_seen_at, 42);
    assert_eq!(job.last_seen_at, 42);
    assert_eq!(job.posted_at, Some(5));
    assert_eq!(job.source_key(), None);
}

#[test]
fn source_key_pairs_source_and_source_id() {
    let job = Job::new(
        &fresh_id(), "board", Some("42".to_owned()), "u", "t", "c", "d", None, None, None, None, None, now_nanos());
    assert_eq!(job.source_key(), Some(("board", "42")));
}

#[test]
fn compensation_keeps_its_fields() {
    let c = Compensation::new(Some(100), None, "USD", CompensationPeriod::Annual);
    assert_eq!(c.minimum, Some(100));
    assert_eq!(c.maximum, None);
    assert_eq!(c.currency, "USD");
    assert_eq!(c.period, CompensationPeriod::Annual);
}

#[test]
fn sightings_can_be_recorded_in_any_order() {
    let base = Job::new(
        &fresh_id(), "example", None, "u", "t", "c", "d", None, None, None, None, None, now_nanos());
    let t0 = base.last_seen_at;
    let mut first = base.clone();
    first.mark_seen(t0 + 5);
    first.mark_seen(t0 + 3);
    let mut second = base.clone();
    second.mark_seen(t0 + 3);
    second.mark_seen(t0 + 5);
    assert_eq!(first.last_seen_at, t0 + 5);
    assert_eq!(first, second);
    assert_eq!(first.first_seen_at, t0);
}
