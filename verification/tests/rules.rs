use head_huntress::logic::job::{EmploymentType, Job, RemotePolicy};
use head_huntress::logic::rules::{
    AssessmentOutcome, FilterDecision, HardConstraints, JobRules, RuleOutcome, SemanticAssessment,
    SemanticRule, SCALE,
};

fn fresh_id() -> String {
    uuid::Uuid::now_v7().to_string()
}

fn now_nanos() -> i128 {
    let now = chrono::Utc::now();
    i128::from(now.timestamp()) * 1_000_000_000 + i128::from(now.timestamp_subsec_nanos())
}

fn job() -> Job {
    Job::new(
        &fresh_id(),
        "example",
        None,
        "https://example.test/job",
        "Backend Engineer",
        "Example Co",
        "Build Rust services and APIs.",
        Some("Remote".to_owned()),
        Some(RemotePolicy::Remote),
        Some(EmploymentType::FullTime),
        None,
        None,
        now_nanos(),
    )
}

fn assessment(rule_id: &str, outcome: AssessmentOutcome, confidence: i32) -> SemanticAssessment {
    SemanticAssessment {
        rule_id: rule_id.to_owned(),
        outcome,
        confidence,
        evidence: vec!["Build Rust services".to_owned()],
        explanation: "The role is backend-focused.".to_owned(),
    }
}

#[test]
fn semantic_prompt_contains_user_preference_rules_and_job_data() {
    let rules = JobRules {
        semantic_prompt: "Prefer infrastructure roles with ownership.".to_owned(),
        semantic_rules: vec![SemanticRule::new(
            "ownership",
            "Meaningful technical ownership",
            1000,
            700,
        )],
        ..JobRules::default()
    };

    let prompt = rules.build_semantic_prompt(&job());

    assert!(prompt.contains("Prefer infrastructure roles with ownership."));
    assert!(prompt.contains("ownership"));
    assert!(prompt.contains("Backend Engineer"));
    assert!(prompt.contains("Build Rust services and APIs."));
}

#[test]
fn hard_failures_reject_a_job() {
    let rules = JobRules {
        hard_constraints: HardConstraints {
            excluded_keywords: vec!["clearance".to_owned()],
            ..HardConstraints::default()
        },
        ..JobRules::default()
    };
    let rejected_job = Job {
        description: "Requires clearance.".to_owned(),
        ..job()
    };

    let result = rules.evaluate(&rejected_job, &[]);

    assert_eq!(result.decision, FilterDecision::Reject);
}

#[test]
fn missing_semantic_assessments_require_review() {
    let rules = JobRules {
        semantic_rules: vec![SemanticRule::new(
            "ownership",
            "Meaningful ownership",
            1000,
            700,
        )],
        ..JobRules::default()
    };

    let result = rules.evaluate(&job(), &[]);

    assert_eq!(result.decision, FilterDecision::Review);
}

#[test]
fn matching_semantic_assessments_can_accept_a_job() {
    let rules = JobRules {
        minimum_score: 70 * SCALE,
        semantic_rules: vec![SemanticRule::new("backend", "Backend focus", 1000, 700)],
        ..JobRules::default()
    };
    let assessment = assessment("backend", AssessmentOutcome::Match, 900);

    let result = rules.evaluate(&job(), &[assessment]);

    assert_eq!(result.decision, FilterDecision::Accept);
    assert_eq!(result.score, 90 * SCALE);
}

#[test]
fn default_rules_require_sixty_five_points() {
    let rules = JobRules::default();
    assert_eq!(rules.minimum_score, 65_000);
    assert!(rules.semantic_rules.is_empty());
    assert_eq!(rules.hard_constraints, HardConstraints::default());
}

#[test]
fn without_semantic_rules_the_score_is_full() {
    let result = JobRules::default().evaluate(&job(), &[]);
    assert_eq!(result.score, 100_000);
    assert_eq!(result.decision, FilterDecision::Accept);
    assert!(result.evaluations.is_empty());
}

#[test]
fn keywords_match_case_insensitively_after_trimming() {
    let rules = JobRules {
        hard_constraints: HardConstraints {
            required_keywords: vec!["  RUST ".to_owned()],
            excluded_keywords: vec!["php".to_owned(), "   ".to_owned()],
            ..HardConstraints::default()
        },
        ..JobRules::default()
    };
    let result = rules.evaluate(&job(), &[]);
    assert_eq!(result.decision, FilterDecision::Accept);
    assert_eq!(result.evaluations.len(), 3);
    assert_eq!(result.evaluations[0].rule_id, "excluded_keyword:php");
    assert_eq!(result.evaluations[0].outcome, RuleOutcome::Pass);
    assert_eq!(result.evaluations[0].reason, "Job does not contain excluded keyword `php`.");
    assert_eq!(result.evaluations[1].outcome, RuleOutcome::Pass);
    assert_eq!(result.evaluations[2].rule_id, "required_keyword:  RUST ");
    assert_eq!(result.evaluations[2].outcome, RuleOutcome::Pass);
    assert_eq!(result.evaluations[2].reason, "Job contains required keyword `  RUST `.");
}

#[test]
fn missing_required_keyword_rejects() {
    let rules = JobRules {
        hard_constraints: HardConstraints {
            required_keywords: vec!["golang".to_owned()],
            ..HardConstraints::default()
        },
        ..JobRules::default()
    };
    let result = rules.evaluate(&job(), &[]);
    assert_eq!(result.decision, FilterDecision::Reject);
    assert_eq!(result.evaluations[0].reason, "Job does not contain required keyword `golang`.");
}

#[test]
fn keywords_are_searched_in_the_location_too() {
    let rules = JobRules {
        hard_constraints: HardConstraints {
            excluded_keywords: vec!["remote".to_owned()],
            ..HardConstraints::default()
        },
        ..JobRules::default()
    };
    let result = rules.evaluate(&job(), &[]);
    assert_eq!(result.decision, FilterDecision::Reject);
    assert_eq!(result.evaluations[0].reason, "Job contains excluded keyword `remote`.");
}

#[test]
fn unknown_remote_policy_requires_review() {
    let rules = JobRules {
        hard_constraints: HardConstraints {
            allowed_remote_policies: Some(vec![RemotePolicy::Remote]),
            allowed_employment_types: Some(vec![EmploymentType::Contract]),
            ..HardConstraints::default()
        },
        ..JobRules::default()
    };
    let unknown = Job { remote_policy: None, employment_type: Some(EmploymentType::Contract), ..job() };
    let result = rules.evaluate(&unknown, &[]);
    assert_eq!(result.decision, FilterDecision::Review);
    assert_eq!(result.evaluations[0].rule_id, "allowed_remote_policy");
    assert_eq!(result.evaluations[0].outcome, RuleOutcome::Unknown);
    assert_eq!(result.evaluations[0].reason, "Job remote policy is unknown.");
    assert_eq!(result.evaluations[1].rule_id, "allowed_employment_type");
    assert_eq!(result.evaluations[1].outcome, RuleOutcome::Pass);

    let disallowed = job();
    let result = rules.evaluate(&disallowed, &[]);
    assert_eq!(result.decision, FilterDecision::Reject);
    assert_eq!(result.evaluations[1].reason, "Job has a disallowed employment type.");
}

#[test]
fn invalid_and_unconfident_assessments_are_unknown() {
    let rules = JobRules {
        semantic_rules: vec![
            SemanticRule::new("a", "A", 1000, 700),
            SemanticRule::new("b", "B", 1000, 700),
        ],
        ..JobRules::default()
    };
    let assessments = [
        assessment("a", AssessmentOutcome::Match, 1500),
        assessment("b", AssessmentOutcome::Match, 650),
    ];
    let result = rules.evaluate(&job(), &assessments);
    assert_eq!(result.decision, FilterDecision::Review);
    assert_eq!(result.score, 0);
    assert_eq!(result.evaluations[0].outcome, RuleOutcome::Unknown);
    assert_eq!(result.evaluations[0].reason, "Semantic assessment confidence is invalid.");
    assert_eq!(result.evaluations[0].confidence, Some(1500));
    assert_eq!(result.evaluations[1].reason, "Confidence is below the rule minimum of 0.70.");
    assert_eq!(result.evaluations[1].evidence, vec!["Build Rust services".to_owned()]);
}

#[test]
fn score_is_the_weighted_share_of_matches() {
    let rules = JobRules {
        minimum_score: 50 * SCALE,
        semantic_rules: vec![
            SemanticRule::new("a", "A", 3000, 500),
            SemanticRule::new("b", "B", 1000, 500),
            SemanticRule::new("c", "C", -2000, 500),
        ],
        ..JobRules::default()
    };
    let assessments = [
        assessment("a", AssessmentOutcome::Match, 800),
        assessment("b", AssessmentOutcome::NoMatch, 900),
        assessment("c", AssessmentOutcome::Match, 1000),
    ];
    let result = rules.evaluate(&job(), &assessments);
    // (3000 * 800) * 100 / (3000 + 1000) = 60_000
    assert_eq!(result.score, 60_000);
    assert_eq!(result.decision, FilterDecision::Accept);
    assert_eq!(result.evaluations[1].outcome, RuleOutcome::Fail);
    assert_eq!(result.evaluations[0].reason, "The role is backend-focused.");
}

#[test]
fn score_below_the_minimum_rejects() {
    let rules = JobRules {
        semantic_rules: vec![SemanticRule::new("backend", "Backend focus", 1000, 500)],
        ..JobRules::default()
    };
    let result = rules.evaluate(&job(), &[assessment("backend", AssessmentOutcome::Match, 600)]);
    assert_eq!(result.score, 60_000);
    assert_eq!(result.decision, FilterDecision::Reject);
}

#[test]
fn prompt_lists_criteria_with_two_decimals() {
    let rules = JobRules {
        semantic_rules: vec![
            SemanticRule::new("a", "First", 1250, 700),
            SemanticRule::new("b", "Second", 1000, 5),
        ],
        ..JobRules::default()
    };
    let prompt = rules.build_semantic_prompt(&Job { location: None, ..job() });
    assert!(prompt.contains("No additional natural-language preference was provided."));
    assert!(prompt.contains(
        "- a: First (weight: 1.25, minimum confidence: 0.70)\n- b: Second (weight: 1.00, minimum confidence: 0.00)"
    ));
    assert!(prompt.contains("Location: unknown"));
    assert!(prompt.starts_with("Evaluate this job against the user's preferences."));
}

#[test]
fn prompt_without_criteria_says_so() {
    let prompt = JobRules::default().build_semantic_prompt(&job());
    assert!(prompt.contains("No semantic scoring criteria were configured."));
    assert!(prompt.contains("Title: Backend Engineer\nCompany: Example Co\nLocation: Remote\nDescription:\nBuild Rust services and APIs."));
}
