use head_huntress::application::evaluator::JobEvaluator;
use head_huntress::logic::job::Job;
use head_huntress::logic::rules::{FilterDecision, JobRules};

fn fresh_id() -> String {
    uuid::Uuid::now_v7().to_string()
}

fn now_nanos() -> i128 {
    let now = chrono::Utc::now();
    i128::from(now.timestamp()) * 1_000_000_000 + i128::from(now.timestamp_subsec_nanos())
}

#[test]
fn evaluator_keeps_the_job_identity() {
    let job = Job::new(
        &fresh_id(),
        "example",
        None,
        "https://example.test/job",
        "Engineer",
        "Example Co",
        "Build useful things.",
        None,
        None,
        None,
        None,
        None,
        now_nanos(),
    );
    let evaluator = JobEvaluator::new(JobRules::default());

    let evaluation = evaluator.evaluate(&job, &[]);

    assert_eq!(evaluation.job_id, job.id);
}

#[test]
fn evaluator_applies_its_rules() {
    let job = Job::new(
        &fresh_id(), "example", None, "u", "Engineer", "Co", "Text.", None, None, None, None, None, now_nanos());
    let evaluator = JobEvaluator::new(JobRules { minimum_score: 200_000, ..JobRules::default() });
    assert_eq!(evaluator.rules().minimum_score, 200_000);
    let evaluation = evaluator.evaluate(&job, &[]);
    assert_eq!(evaluation.result.decision, FilterDecision::Reject);
}
