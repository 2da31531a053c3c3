use head_huntress::adapters::assessment::typesafe::{
    assessment_for_rule, assessment_request, build_request, initial_retry_state, map_answers,
    next_retry_step, parse_u64, retry_delay_seconds, Answer, EvaluationResponse, RetryAction,
    RetryDelay, RetryState,
};
use head_huntress::logic::job::Job;
use head_huntress::logic::rules::{AssessmentOutcome, FilterDecision, JobRules, RuleOutcome, SemanticRule};

fn fresh_id() -> String {
    uuid::Uuid::now_v7().to_string()
}

fn now_nanos() -> i128 {
    let now = chrono::Utc::now();
    i128::from(now.timestamp()) * 1_000_000_000 + i128::from(now.timestamp_subsec_nanos())
}

fn rules() -> JobRules {
    JobRules {
        semantic_rules: vec![SemanticRule::new(
            "backend",
            "Backend or platform engineering focus.",
            1000,
            700,
        )],
        ..JobRules::default()
    }
}

#[test]
fn request_batches_one_noul_question_per_rule() {
    let rules = rules();
    let request = build_request("Backend Engineer at Example Co.", &rules, "jev-latest");

    assert_eq!(request.model, "jev-latest");
    let question = &request
        .questions
        .iter()
        .find(|(id, _)| id == "backend")
        .expect("rule becomes a question")
        .1;
    assert_eq!(question.kind, "noul");
    assert!(question.instructions.contains("Backend or platform"));
}

#[test]
fn request_criteria_describe_yes_and_no() {
    let rules = rules();
    let request = build_request("state", &rules, "jev-latest");
    assert_eq!(request.state, "state");
    let criteria = request.questions[0].1.criteria.as_ref().expect("criteria are set");
    assert_eq!(criteria.when_yes, "Backend or platform engineering focus.");
    assert_eq!(criteria.when_no, "The job does not satisfy this preference.");
    assert_eq!(
        request.questions[0].1.instructions,
        "Does the job satisfy this preference? Backend or platform engineering focus."
    );
}

#[test]
fn probabilities_map_to_calibrated_outcomes() {
    let rules = rules();
    let response = |noul: i64| EvaluationResponse {
        answers: vec![("backend".to_owned(), Answer::Noul { noul })],
    };

    let confident = map_answers(&response(900), &rules.semantic_rules);
    assert_eq!(confident[0].outcome, AssessmentOutcome::Match);
    assert_eq!(confident[0].confidence, 900);

    let refuted = map_answers(&response(200), &rules.semantic_rules);
    assert_eq!(refuted[0].outcome, AssessmentOutcome::NoMatch);

    let uncertain = map_answers(&response(500), &rules.semantic_rules);
    assert_eq!(uncertain[0].outcome, AssessmentOutcome::Uncertain);
}

#[test]
fn missing_answers_become_uncertain() {
    let rules = rules();
    let response = EvaluationResponse { answers: Vec::new() };

    let assessments = map_answers(&response, &rules.semantic_rules);

    assert_eq!(assessments[0].outcome, AssessmentOutcome::Uncertain);
    assert_eq!(assessments[0].confidence, 0);
}

#[test]
fn answer_texts_explain_the_mapping() {
    let rules = rules();
    let clamped = map_answers(
        &EvaluationResponse { answers: vec![("backend".to_owned(), Answer::Noul { noul: 1400 })] },
        &rules.semantic_rules,
    );
    assert_eq!(clamped[0].confidence, 1000);
    assert_eq!(
        clamped[0].explanation,
        "Jev assigned a 1.00 probability that this job satisfies: Backend or platform engineering focus."
    );
    let missing = map_answers(&EvaluationResponse { answers: Vec::new() }, &rules.semantic_rules);
    assert_eq!(missing[0].explanation, "TypeSafe returned no usable Noul answer for this rule (None).");
    let choice = map_answers(
        &EvaluationResponse {
            answers: vec![(
                "backend".to_owned(),
                Answer::Choice { choice: "yes".to_owned(), confidence: Some(500) },
            )],
        },
        &rules.semantic_rules,
    );
    assert_eq!(
        choice[0].explanation,
        "TypeSafe returned no usable Noul answer for this rule (Some(Choice { choice: \"yes\", confidence: Some(0.5) }))."
    );
    assert!(choice[0].evidence.is_empty());
}

#[test]
fn throttled_requests_retry_with_doubling_backoff() {
    let s0 = initial_retry_state();
    let (s1, a1) = next_retry_step(s0, 429, None);
    assert_eq!(a1, RetryAction::Retry(RetryDelay::BackoffMillis(500)));
    let (s2, a2) = next_retry_step(s1, 503, Some(7));
    assert_eq!(a2, RetryAction::Retry(RetryDelay::ServerAdvisedSeconds(7)));
    assert_eq!(s2.backoff_millis, 2000);
    let (s3, a3) = next_retry_step(s2, 503, None);
    assert_eq!(s3, s2);
    assert_eq!(a3, RetryAction::ReadBody { success: false });
    let (_, ok) = next_retry_step(s0, 200, None);
    assert_eq!(ok, RetryAction::ReadBody { success: true });
    let (_, bad) = next_retry_step(s0, 404, None);
    assert_eq!(bad, RetryAction::ReadBody { success: false });
}

#[test]
fn retry_after_values_parse_like_u64_from_str() {
    assert_eq!(parse_u64("120"), Some(120));
    assert_eq!(parse_u64("+7"), Some(7));
    assert_eq!(parse_u64("18446744073709551615"), Some(u64::MAX));
    assert_eq!(parse_u64("18446744073709551616"), None);
    assert_eq!(parse_u64(""), None);
    assert_eq!(parse_u64("+"), None);
    assert_eq!(parse_u64("-1"), None);
    assert_eq!(parse_u64(" 1"), None);
    assert_eq!(parse_u64("Wed, 21 Oct 2015 07:28:00 GMT"), None);
    for s in ["0", "007", "+00", "99999", "1x"] {
        assert_eq!(parse_u64(s), s.parse::<u64>().ok());
    }
    assert_eq!(retry_delay_seconds(Some("3")), Some(3));
    assert_eq!(retry_delay_seconds(None), None);
}

#[test]
fn mapped_answers_leave_no_rule_unassessed() {
    let rules = JobRules {
        minimum_score: 50_000,
        semantic_rules: vec![
            SemanticRule::new("backend", "Backend focus.", 1000, 700),
            SemanticRule::new("remote", "Remote friendly.", 1000, 700),
        ],
        ..JobRules::default()
    };
    let response = EvaluationResponse {
        answers: vec![
            ("remote".to_owned(), Answer::Noul { noul: 100 }),
            ("backend".to_owned(), Answer::Noul { noul: 950 }),
        ],
    };
    let assessments = map_answers(&response, &rules.semantic_rules);
    let job = Job::new(
        &fresh_id(), "example", None, "u", "Backend Engineer", "Co", "Text.", None, None, None, None, None, now_nanos());
    let result = rules.evaluate(&job, &assessments);
    assert_eq!(result.evaluations[0].outcome, RuleOutcome::Pass);
    // The no-match probability is below the rule's minimum confidence.
    assert_eq!(result.evaluations[1].outcome, RuleOutcome::Unknown);
    assert_eq!(result.evaluations[1].reason, "Confidence is below the rule minimum of 0.70.");
    assert_eq!(result.evaluations[1].confidence, Some(100));
    assert_eq!(result.score, 47_500);
    assert_eq!(result.decision, FilterDecision::Review);
}

#[test]
fn choice_text_is_escaped_like_debug_output() {
    let rules = rules();
    let choice = "say \"hi\"\\ok\n\t\u{1}\u{7f}é'\u{200b}\u{ad}\u{2028}e\u{301}";
    let mapped = map_answers(
        &EvaluationResponse {
            answers: vec![("backend".to_owned(), Answer::Choice { choice: choice.to_owned(), confidence: None })],
        },
        &rules.semantic_rules,
    );
    let expected = format!(
        "TypeSafe returned no usable Noul answer for this rule (Some(Choice {{ choice: {:?}, confidence: None }})).",
        choice
    );
    assert_eq!(mapped[0].explanation, expected);
}

#[test]
fn later_rules_replace_earlier_rules_with_the_same_id() {
    let rules = JobRules {
        semantic_rules: vec![
            SemanticRule::new("backend", "Backend focus.", 1000, 700),
            SemanticRule::new("remote", "Remote friendly.", 1000, 700),
            SemanticRule::new("backend", "Platform focus.", 500, 600),
        ],
        ..JobRules::default()
    };
    let request = build_request("state", &rules, "jev-latest");
    let ids: Vec<&str> = request.questions.iter().map(|(id, _)| id.as_str()).collect();
    assert_eq!(ids, vec!["remote", "backend"]);
    assert_eq!(
        request.questions[1].1.instructions,
        "Does the job satisfy this preference? Platform focus."
    );
}

#[test]
fn only_rule_sets_with_semantic_rules_are_sent() {
    assert_eq!(assessment_request("state", &JobRules::default(), "jev-latest"), None);
    let rules = rules();
    let request = assessment_request("state", &rules, "jev-latest").expect("a rule is asked");
    assert_eq!(request, build_request("state", &rules, "jev-latest"));
}

#[test]
fn choice_answers_quote_the_rendering_they_are_given() {
    let rule = SemanticRule::new("backend", "Backend focus.", 1000, 700);
    let answer = Answer::Choice { choice: "yes".to_owned(), confidence: Some(250) };
    let assessment = assessment_for_rule(&rule, Some(&answer), "<yes>");
    assert_eq!(
        assessment.explanation,
        "TypeSafe returned no usable Noul answer for this rule (Some(Choice { choice: <yes>, confidence: Some(0.25) }))."
    );
    assert_eq!(assessment.outcome, AssessmentOutcome::Uncertain);
    let noul = assessment_for_rule(&rule, Some(&Answer::Noul { noul: 700 }), "ignored");
    assert_eq!(noul.outcome, AssessmentOutcome::Match);
    assert_eq!(
        noul.explanation,
        "Jev assigned a 0.70 probability that this job satisfies: Backend focus."
    );
}

fn run(statuses: &[u16]) -> (usize, Option<RetryAction>, RetryState) {
    let mut state = initial_retry_state();
    let mut retries = 0;
    for &status in statuses {
        let (next, action) = next_retry_step(state, status, None);
        state = next;
        match action {
            RetryAction::Retry(_) => retries += 1,
            read => return (retries, Some(read), state),
        }
    }
    (retries, None, state)
}

#[test]
fn a_run_of_throttled_replies_is_retried_at_most_twice() {
    assert_eq!(run(&[200]), (0, Some(RetryAction::ReadBody { success: true }), initial_retry_state()));
    let (retries, read, _) = run(&[429, 200]);
    assert_eq!((retries, read), (1, Some(RetryAction::ReadBody { success: true })));
    let (retries, read, state) = run(&[503, 429, 500, 200]);
    assert_eq!((retries, read), (2, Some(RetryAction::ReadBody { success: false })));
    assert_eq!(state.attempt, 3);
    let (retries, read, _) = run(&[502, 404, 200]);
    assert_eq!((retries, read), (1, Some(RetryAction::ReadBody { success: false })));
}

#[test]
fn unusable_answers_show_numbers_as_float_debug_output() {
    let rules = rules();
    for v in (-2500i64..=2500).chain([1_000_000, 2_147_483_647, -2_147_483_648]) {
        let x = v as f64 / 1000.0;
        let mapped = map_answers(
            &EvaluationResponse {
                answers: vec![("backend".to_owned(), Answer::Score { score: v, confidence: Some(v) })],
            },
            &rules.semantic_rules,
        );
        let expected = format!(
            "TypeSafe returned no usable Noul answer for this rule (Some(Score {{ score: {x:?}, confidence: Some({x:?}) }}))."
        );
        assert_eq!(mapped[0].explanation, expected, "rendering {v} thousandths");
    }
}
