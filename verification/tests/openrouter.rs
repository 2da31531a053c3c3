use head_huntress::adapters::llm::openrouter::{
    assessment_error, build_assessment_prompt, first_text_choice, strip_code_fence,
};
use head_huntress::logic::rules::{JobRules, SemanticRule};
use head_huntress::ports::assessment::AssessmentError;
use head_huntress::ports::llm::LlmError;

#[test]
fn strips_markdown_code_fences() {
    let json = strip_code_fence("```json\n{\"assessments\":[]}\n```");
    let value: serde_json::Value = serde_json::from_str(&json).expect("valid fenced assessment JSON");

    assert!(value["assessments"].as_array().expect("an array").is_empty());
}

#[test]
fn fences_and_whitespace_are_removed_in_order() {
    assert_eq!(strip_code_fence("  ```\n[1]\n```  "), "[1]");
    assert_eq!(strip_code_fence("{\"a\":1}"), "{\"a\":1}");
    assert_eq!(strip_code_fence("```json```"), "");
}

#[test]
fn assessment_prompt_contains_user_preference_rules_and_state() {
    let rules = JobRules {
        semantic_prompt: "Prefer infrastructure roles with ownership.".to_owned(),
        semantic_rules: vec![SemanticRule::new(
            "ownership",
            "Meaningful technical ownership",
            1000,
            700,
        )],
        ..JobRules::default()
    };

    let prompt = build_assessment_prompt(
        "Backend Engineer at Example Co. Build Rust services and APIs.",
        &rules,
    );

    assert!(prompt.contains("Prefer infrastructure roles with ownership."));
    assert!(prompt.contains("ownership"));
    assert!(prompt.contains("Backend Engineer"));
    assert!(prompt.contains("Build Rust services and APIs."));
}

#[test]
fn llm_errors_become_assessment_errors_of_the_same_kind() {
    assert_eq!(
        assessment_error(LlmError::Transport("down".to_owned())),
        AssessmentError::Transport("down".to_owned())
    );
    assert_eq!(
        assessment_error(LlmError::InvalidResponse("bad".to_owned())).message(),
        "invalid assessment response: bad"
    );
    assert_eq!(LlmError::Provider("x".to_owned()).message(), "LLM provider error: x");
}

#[test]
fn a_json_fence_gives_back_the_trimmed_payload() {
    assert_eq!(strip_code_fence("```json  {\"x\": [1]}\n```"), "{\"x\": [1]}");
    let stripped = strip_code_fence("\n  ```\n  [2] \n```\n");
    assert_eq!(stripped, "[2]");
    assert_eq!(stripped.trim(), stripped);
}

#[test]
fn the_first_choice_carries_the_completion_text() {
    let no_text = Err(LlmError::InvalidResponse("response contained no text choice".to_owned()));
    assert_eq!(first_text_choice(&vec![Some("a".to_owned()), Some("b".to_owned())]), Ok("a".to_owned()));
    assert_eq!(first_text_choice(&Vec::new()), no_text.clone());
    assert_eq!(first_text_choice(&vec![None, Some("b".to_owned())]), no_text);
}
