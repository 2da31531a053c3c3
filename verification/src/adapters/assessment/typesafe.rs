//! TypeSafe Jev semantic assessment: request construction, answer mapping
//! and the retry policy of the evaluation call.
//!
//! Each semantic rule becomes one batched Noul question, and the returned
//! yes-probability becomes the assessment confidence. Jev returns calibrated
//! judgments rather than generated text, so assessments carry no evidence
//! quotes by construction. Probabilities are fixed-point thousandths, as
//! everywhere in the rules.
use crate::logic::rules::{
    find_assessment, lemma_find_assessment_some, valid_confidence, AssessmentModel, AssessmentOutcome,
    JobRules, SemanticAssessment, SemanticRule, SCALE,
};
use crate::text::{
    decimal, fixed2, push_char, push_decimal, push_fixed2, str_debug, str_debug_text, string_of, two_pow,
};
use vstd::prelude::*;

verus! {

/// The maximum number of attempts made per evaluation request.
pub const MAX_ATTEMPTS: u32 = 3;

/// The initial backoff, in milliseconds, applied to throttled or failed requests.
pub const INITIAL_BACKOFF_MILLIS: u64 = 500;

/// The wire content of a TypeSafe evaluation request.
#[derive(Debug, Clone, PartialEq, Eq)]
pub struct EvaluationRequest {
    /// The job state text being judged.
    pub state: String,
    /// The TypeSafe model identifier.
    pub model: String,
    /// One question per semantic rule, keyed by rule id, in rule order.
    pub questions: Vec<(String, NoulQuestion)>,
}

/// A single Noul (yes/no) question for one semantic rule.
#[derive(Debug, Clone, PartialEq, Eq)]
pub struct NoulQuestion {
    /// The question type tag.
    pub kind: String,
    /// The instructions given to the judge.
    pub instructions: String,
    /// What a yes and a no mean, when stated.
    pub criteria: Option<NoulCriteria>,
}

/// Descriptions of what a yes and a no mean for a Noul question.
#[derive(Debug, Clone, PartialEq, Eq)]
pub struct NoulCriteria {
    /// The meaning of a yes.
    pub when_yes: String,
    /// The meaning of a no.
    pub when_no: String,
}

/// One typed answer, tagged by its question type. Numbers are thousandths.
///
/// Choice and Score are read so that future rule styles can consume them
/// without a wire-format change, but only Noul answers are used.
#[derive(Debug, Clone, PartialEq, Eq)]
pub enum Answer {
    /// A yes/no probability.
    Noul {
        /// The probability that the answer is yes.
        noul: i64,
    },
    /// A selected option with its distribution confidence.
    Choice {
        /// The highest-probability option.
        choice: String,
        /// Certainty derived from the option distribution.
        confidence: Option<i64>,
    },
    /// A weighted rubric score with its confidence.
    Score {
        /// The probability-weighted score value.
        score: i64,
        /// Certainty derived from the level distribution.
        confidence: Option<i64>,
    },
}

/// The content of a TypeSafe evaluation response: answers keyed by rule id.
#[derive(Debug, Clone, PartialEq, Eq)]
pub struct EvaluationResponse {
    /// The answers, each with the id of the question it answers.
    pub answers: Vec<(String, Answer)>,
}

// ---------------------------------------------------------------------------
// Request construction
// ---------------------------------------------------------------------------

/// Whether `q` is the Noul question asked for `rule`.
pub open spec fn is_question_for(rule: SemanticRule, q: NoulQuestion) -> bool {
    &&& q.kind@ == "noul"@
    &&& q.instructions@ == "Does the job satisfy this preference? "@ + rule.description@
    &&& q.criteria matches Some(c) && c.when_yes@ == rule.description@ && c.when_no@
        == "The job does not satisfy this preference."@
}

/// Whether no rule after position `i` has the id of rule `i`.
pub open spec fn is_last_with_its_id(rs: Seq<SemanticRule>, i: int) -> bool {
    forall|j: int| i < j < rs.len() ==> (#[trigger] rs[j]).id@ != rs[i].id@
}

/// Among the first `n` rules, those that are the last with their id, in order.
pub open spec fn asked_rules_upto(rs: Seq<SemanticRule>, n: int) -> Seq<SemanticRule>
    decreases n,
{
    if n <= 0 {
        Seq::empty()
    } else {
        asked_rules_upto(rs, n - 1) + if is_last_with_its_id(rs, n - 1) {
            seq![rs[n - 1]]
        } else {
            Seq::empty()
        }
    }
}

/// The rules that get a question: for each id, the last rule with that id,
/// in rule order. This is the reading of the questions as a map keyed by
/// rule id, where a later rule replaces an earlier one with the same id.
pub open spec fn asked_rules(rs: Seq<SemanticRule>) -> Seq<SemanticRule> {
    asked_rules_upto(rs, rs.len() as int)
}

/// Whether some asked rule has the id `id`.
pub open spec fn asks_for_id(rs: Seq<SemanticRule>, id: Seq<char>) -> bool {
    exists|k: int| 0 <= k < asked_rules(rs).len() && (#[trigger] asked_rules(rs)[k]).id@ == id
}

/// Whether rule `i` is the last with its id.
fn is_last_with_its_id_exec(rs: &Vec<SemanticRule>, i: usize) -> (b: bool)
    requires
        i < rs.len(),
    ensures
        b == is_last_with_its_id(rs@, i as int),
{
    let mut j = i + 1;
    while j < rs.len()
        invariant
            i < j <= rs.len(),
            forall|k: int| i < k < j ==> (#[trigger] rs@[k]).id@ != rs@[i as int].id@,
        decreases rs.len() - j,
    {
        if rs[j].id == rs[i].id {
            assert(rs@[j as int].id@ == rs@[i as int].id@);
            return false;
        }
        j = j + 1;
    }
    true
}

/// The Noul question asked for one rule.
fn question_for(rule: &SemanticRule) -> (q: NoulQuestion)
    ensures
        is_question_for(*rule, q),
{
    let mut instructions = string_of("Does the job satisfy this preference? ");
    instructions.append(rule.description.as_str());
    NoulQuestion {
        kind: string_of("noul"),
        instructions,
        criteria: Some(
            NoulCriteria {
                when_yes: rule.description.clone(),
                when_no: string_of("The job does not satisfy this preference."),
            },
        ),
    }
}

/// Builds one batched Noul question per semantic rule id: a later rule with
/// the same id replaces an earlier one, as in a map keyed by rule id.
pub fn build_request(state: &str, rules: &JobRules, model: &str) -> (r: EvaluationRequest)
    ensures
        r.state@ == state@,
        r.model@ == model@,
        r.questions@.len() == asked_rules(rules.semantic_rules@).len(),
        forall|k: int|
            0 <= k < r.questions@.len() ==> (#[trigger] r.questions@[k]).0@ == asked_rules(
                rules.semantic_rules@,
            )[k].id@ && is_question_for(asked_rules(rules.semantic_rules@)[k], r.questions@[k].1),
{
    let rs = &rules.semantic_rules;
    let mut questions: Vec<(String, NoulQuestion)> = Vec::new();
    let mut i: usize = 0;
    while i < rs.len()
        invariant
            rs == &rules.semantic_rules,
            i <= rs.len(),
            questions@.len() == asked_rules_upto(rs@, i as int).len(),
            forall|k: int|
                0 <= k < questions@.len() ==> (#[trigger] questions@[k]).0@ == asked_rules_upto(
                    rs@,
                    i as int,
                )[k].id@ && is_question_for(asked_rules_upto(rs@, i as int)[k], questions@[k].1),
        decreases rs.len() - i,
    {
        let ghost before = asked_rules_upto(rs@, i as int);
        if is_last_with_its_id_exec(rs, i) {
            let rule = &rs[i];
            questions.push((rule.id.clone(), question_for(rule)));
            assert(asked_rules_upto(rs@, i + 1) == before.push(rs@[i as int]));
        } else {
            assert(asked_rules_upto(rs@, i + 1) == before);
        }
        i = i + 1;
    }
    EvaluationRequest { state: string_of(state), model: string_of(model), questions }
}

/// The request to send for a rule set, or `None` when it has no semantic
/// rules and nothing needs to be asked.
pub fn assessment_request(state: &str, rules: &JobRules, model: &str) -> (r: Option<EvaluationRequest>)
    ensures
        rules.semantic_rules@.len() == 0 <==> r is None,
        r matches Some(req) ==> {
            &&& req.state@ == state@
            &&& req.model@ == model@
            &&& req.questions@.len() == asked_rules(rules.semantic_rules@).len()
            &&& forall|k: int|
                0 <= k < req.questions@.len() ==> (#[trigger] req.questions@[k]).0@ == asked_rules(
                    rules.semantic_rules@,
                )[k].id@ && is_question_for(asked_rules(rules.semantic_rules@)[k], req.questions@[k].1)
        },
{
    if rules.semantic_rules.len() == 0 {
        None
    } else {
        Some(build_request(state, rules, model))
    }
}

/// The asked rules among the first `m` rules are a prefix of those among the first `n`.
proof fn lemma_asked_prefix(rs: Seq<SemanticRule>, m: int, n: int)
    requires
        0 <= m <= n,
    ensures
        asked_rules_upto(rs, m).len() <= asked_rules_upto(rs, n).len(),
        forall|k: int| 0 <= k < asked_rules_upto(rs, m).len() ==> asked_rules_upto(rs, n)[k] == #[trigger] asked_rules_upto(rs, m)[k],
    decreases n - m,
{
    if m < n {
        lemma_asked_prefix(rs, m, n - 1);
    }
}

/// Every asked rule comes from a rule that is last with its id, at the
/// position given by the number of asked rules before it.
proof fn lemma_asked_source(rs: Seq<SemanticRule>, n: int, k: int) -> (j: int)
    requires
        0 <= k < asked_rules_upto(rs, n).len(),
    ensures
        0 <= j < n,
        is_last_with_its_id(rs, j),
        asked_rules_upto(rs, j).len() == k,
        asked_rules_upto(rs, n)[k] == rs[j],
    decreases n,
{
    if k < asked_rules_upto(rs, n - 1).len() {
        lemma_asked_source(rs, n - 1, k)
    } else {
        n - 1
    }
}

/// The rule at `i`, followed by every later rule with the same id, ends at
/// a rule that is last with that id.
proof fn lemma_last_occurrence(rs: Seq<SemanticRule>, i: int) -> (j: int)
    requires
        0 <= i < rs.len(),
    ensures
        i <= j < rs.len(),
        rs[j].id@ == rs[i].id@,
        is_last_with_its_id(rs, j),
    decreases rs.len() - i,
{
    if is_last_with_its_id(rs, i) {
        i
    } else {
        let j = choose|j: int| i < j < rs.len() && (#[trigger] rs[j]).id@ == rs[i].id@;
        lemma_last_occurrence(rs, j)
    }
}

/// Read as a map keyed by rule id, the questions hold each id once, and the
/// question for an id is the one for the last rule with that id.
pub proof fn law_questions_form_a_map_by_rule_id(rs: Seq<SemanticRule>)
    ensures
        forall|k1: int, k2: int|
            0 <= k1 < k2 < asked_rules(rs).len() ==> (#[trigger] asked_rules(rs)[k1]).id@ != (#[trigger] asked_rules(rs)[k2]).id@,
        forall|i: int| 0 <= i < rs.len() ==> asks_for_id(rs, (#[trigger] rs[i]).id@),
        forall|k: int|
            0 <= k < asked_rules(rs).len() ==> exists|j: int|
                0 <= j < rs.len() && is_last_with_its_id(rs, j) && #[trigger] asked_rules(rs)[k] == rs[j],
{
    let n = rs.len() as int;
    assert forall|k1: int, k2: int|
        0 <= k1 < k2 < asked_rules(rs).len() implies (#[trigger] asked_rules(rs)[k1]).id@ != (#[trigger] asked_rules(rs)[k2]).id@ by {
        let j1 = lemma_asked_source(rs, n, k1);
        let j2 = lemma_asked_source(rs, n, k2);
        if j2 <= j1 {
            lemma_asked_prefix(rs, j2, j1);
        }
        assert(j1 < j2);
        assert(rs[j2].id@ != rs[j1].id@);
    }
    assert forall|i: int| 0 <= i < rs.len() implies asks_for_id(rs, (#[trigger] rs[i]).id@) by {
        let j = lemma_last_occurrence(rs, i);
        lemma_asked_prefix(rs, j + 1, n);
        let k = asked_rules_upto(rs, j).len() as int;
        assert(asked_rules_upto(rs, j + 1)[k] == rs[j]);
        assert(asked_rules(rs)[k] == rs[j]);
        assert(0 <= k < asked_rules(rs).len());
    }
    assert forall|k: int| 0 <= k < asked_rules(rs).len() implies exists|j: int|
        0 <= j < rs.len() && is_last_with_its_id(rs, j) && #[trigger] asked_rules(rs)[k] == rs[j] by {
        let j = lemma_asked_source(rs, n, k);
    }
}

// ---------------------------------------------------------------------------
// Answer mapping
// ---------------------------------------------------------------------------

/// Index of the first answer at or after `i` keyed by `id`.
pub open spec fn find_answer(answers: Seq<(String, Answer)>, id: Seq<char>, i: int) -> Option<int>
    decreases answers.len() - i,
{
    if i < 0 || i >= answers.len() {
        None
    } else if answers[i].0@ == id {
        Some(i)
    } else {
        find_answer(answers, id, i + 1)
    }
}

/// The answer keyed by `id`, if any.
pub open spec fn answer_for(answers: Seq<(String, Answer)>, id: Seq<char>) -> Option<Answer> {
    match find_answer(answers, id, 0) {
        Some(k) => Some(answers[k].1),
        None => None,
    }
}

/// A probability clamped to `0..=SCALE`.
pub open spec fn clamp_probability(p: int) -> int {
    if p < 0 {
        0
    } else if p > SCALE {
        SCALE as int
    } else {
        p
    }
}

/// The classification of a probability against a rule's confidence threshold:
/// at or above the threshold is a match, at or below its complement is a
/// non-match, anything between is uncertain.
pub open spec fn outcome_for(probability: int, minimum_confidence: int) -> AssessmentOutcome {
    if probability >= minimum_confidence {
        AssessmentOutcome::Match
    } else if probability <= SCALE - minimum_confidence {
        AssessmentOutcome::NoMatch
    } else {
        AssessmentOutcome::Uncertain
    }
}

/// A thousandths value written with one to three decimals, trailing zeros
/// dropped: `500` as `0.5`, `1000` as `1.0`, `125` as `0.125`.
pub open spec fn short_decimal(v: int) -> Seq<char> {
    let a = if v < 0 { -v } else { v };
    let f = a % 1000;
    let sign = if v < 0 { seq!['-'] } else { Seq::<char>::empty() };
    let frac = if (f / 10) % 10 == 0 && f % 10 == 0 {
        seq![crate::text::digit_char((f / 100) as nat)]
    } else if f % 10 == 0 {
        seq![crate::text::digit_char((f / 100) as nat), crate::text::digit_char(((f / 10) % 10) as nat)]
    } else {
        seq![
            crate::text::digit_char((f / 100) as nat),
            crate::text::digit_char(((f / 10) % 10) as nat),
            crate::text::digit_char((f % 10) as nat),
        ]
    };
    sign + decimal((a / 1000) as nat) + seq!['.'] + frac
}

/// The debug rendering of an optional number.
pub open spec fn optional_number_text(v: Option<i64>) -> Seq<char> {
    match v {
        Some(x) => "Some("@ + short_decimal(x as int) + ")"@,
        None => "None"@,
    }
}

/// The debug rendering of an answer, given the debug rendering of a
/// choice's text (quotes included).
pub open spec fn answer_text(a: Answer, choice_debug: Seq<char>) -> Seq<char> {
    match a {
        Answer::Noul { noul } => "Noul { noul: "@ + short_decimal(noul as int) + " }"@,
        Answer::Choice { choice, confidence } => "Choice { choice: "@ + choice_debug + ", confidence: "@
            + optional_number_text(confidence) + " }"@,
        Answer::Score { score, confidence } => "Score { score: "@ + short_decimal(score as int)
            + ", confidence: "@ + optional_number_text(confidence) + " }"@,
    }
}

/// The debug rendering of an optional answer.
pub open spec fn optional_answer_text(a: Option<Answer>, choice_debug: Seq<char>) -> Seq<char> {
    match a {
        Some(x) => "Some("@ + answer_text(x, choice_debug) + ")"@,
        None => "None"@,
    }
}

/// The assessment made for one rule from the answer keyed by its id, given
/// the debug rendering of the answer's choice text when it is a choice.
pub open spec fn assessment_with_choice_debug(
    rule: SemanticRule,
    answer: Option<Answer>,
    choice_debug: Seq<char>,
) -> AssessmentModel {
    match answer {
        Some(Answer::Noul { noul }) => {
            let p = clamp_probability(noul as int);
            AssessmentModel {
                rule_id: rule.id@,
                outcome: outcome_for(p, rule.minimum_confidence as int),
                confidence: p as i32,
                evidence: Seq::empty(),
                explanation: "Jev assigned a "@ + fixed2(p) + " probability that this job satisfies: "@
                    + rule.description@,
            }
        },
        _ => AssessmentModel {
            rule_id: rule.id@,
            outcome: AssessmentOutcome::Uncertain,
            confidence: 0,
            evidence: Seq::empty(),
            explanation: "TypeSafe returned no usable Noul answer for this rule ("@
                + optional_answer_text(answer, choice_debug) + ")."@,
        },
    }
}

/// The debug rendering of an answer's choice text, as std writes it; empty
/// for an answer that is no choice.
pub open spec fn choice_debug_of(answer: Option<Answer>) -> Seq<char> {
    match answer {
        Some(Answer::Choice { choice, .. }) => str_debug_text(choice@),
        _ => Seq::empty(),
    }
}

/// The assessment made for one rule from the answer keyed by its id.
pub open spec fn assessment_from_answer(rule: SemanticRule, answer: Option<Answer>) -> AssessmentModel {
    assessment_with_choice_debug(rule, answer, choice_debug_of(answer))
}

/// The assessments for all rules, in rule order.
pub open spec fn answers_model(response: EvaluationResponse, rules: Seq<SemanticRule>) -> Seq<AssessmentModel> {
    rules.map_values(|r: SemanticRule| assessment_from_answer(r, answer_for(response.answers@, r.id@)))
}

/// The views of a sequence of assessments.
pub open spec fn assessment_models(a: Seq<SemanticAssessment>) -> Seq<AssessmentModel> {
    a.map_values(|s: SemanticAssessment| s@)
}

/// Index of the answer keyed by `id`.
fn find_answer_index(answers: &Vec<(String, Answer)>, id: &String) -> (r: Option<usize>)
    ensures
        match r {
            Some(k) => find_answer(answers@, id@, 0) == Some(k as int) && k < answers@.len(),
            None => find_answer(answers@, id@, 0) is None,
        },
{
    let mut i: usize = 0;
    while i < answers.len()
        invariant
            i <= answers@.len(),
            find_answer(answers@, id@, 0) == find_answer(answers@, id@, i as int),
        decreases answers.len() - i,
    {
        if answers[i].0 == *id {
            return Some(i);
        }
        i = i + 1;
    }
    None
}

/// Appends a thousandths value with one to three decimals.
fn push_short_decimal(out: &mut String, v: i64)
    ensures
        final(out)@ == old(out)@ + short_decimal(v as int),
{
    let ghost start = out@;
    let a: u64 = if v < 0 { (-(v as i128)) as u64 } else { v as u64 };
    let f: u64 = a % 1000;
    if v < 0 {
        push_char(out, '-');
    }
    push_decimal(out, a / 1000);
    push_char(out, '.');
    push_char(out, digit_of(f / 100));
    if (f / 10) % 10 == 0 && f % 10 == 0 {
    } else if f % 10 == 0 {
        push_char(out, digit_of((f / 10) % 10));
    } else {
        push_char(out, digit_of((f / 10) % 10));
        push_char(out, digit_of(f % 10));
    }
    assert(out@ == start + short_decimal(v as int));
}

/// The character for decimal digit `d`.
fn digit_of(d: u64) -> (c: char)
    requires
        d < 10,
    ensures
        c == crate::text::digit_char(d as nat),
{
    ((d + 48) as u8) as char
}

/// Appends the debug rendering of an optional number.
fn push_optional_number(out: &mut String, v: Option<i64>)
    ensures
        final(out)@ == old(out)@ + optional_number_text(v),
{
    match v {
        Some(x) => {
            let ghost start = out@;
            out.append("Some(");
            push_short_decimal(out, x);
            out.append(")");
            assert(out@ == start + optional_number_text(v));
        },
        None => out.append("None"),
    }
}

/// Appends the debug rendering of an optional answer.
fn push_optional_answer(out: &mut String, a: Option<&Answer>, choice_debug: &str)
    ensures
        final(out)@ == old(out)@ + optional_answer_text(
            match a {
                Some(x) => Some(*x),
                None => None,
            },
            choice_debug@,
        ),
{
    let ghost start = out@;
    match a {
        None => out.append("None"),
        Some(x) => {
            out.append("Some(");
            match x {
                Answer::Noul { noul } => {
                    out.append("Noul { noul: ");
                    push_short_decimal(out, *noul);
                    out.append(" }");
                },
                Answer::Choice { choice, confidence } => {
                    out.append("Choice { choice: ");
                    out.append(choice_debug);
                    out.append(", confidence: ");
                    push_optional_number(out, *confidence);
                    out.append(" }");
                },
                Answer::Score { score, confidence } => {
                    out.append("Score { score: ");
                    push_short_decimal(out, *score);
                    out.append(", confidence: ");
                    push_optional_number(out, *confidence);
                    out.append(" }");
                },
            }
            out.append(")");
            assert(out@ == start + optional_answer_text(Some(*x), choice_debug@));
        },
    }
}

/// The assessment for one rule from the answer keyed by its id, given the
/// debug rendering of the answer's choice text (quotes included) when the
/// answer is a choice; the rendering is not read for other answers.
pub fn assessment_for_rule(rule: &SemanticRule, answer: Option<&Answer>, choice_debug: &str) -> (r: SemanticAssessment)
    ensures
        r@ == assessment_with_choice_debug(
            *rule,
            match answer {
                Some(x) => Some(*x),
                None => None,
            },
            choice_debug@,
        ),
{
    match answer {
        Some(Answer::Noul { noul }) => {
            let p: i32 = if *noul < 0 {
                0
            } else if *noul > SCALE as i64 {
                SCALE
            } else {
                *noul as i32
            };
            let outcome = if p >= rule.minimum_confidence {
                AssessmentOutcome::Match
            } else if (p as i64) <= (SCALE as i64) - (rule.minimum_confidence as i64) {
                AssessmentOutcome::NoMatch
            } else {
                AssessmentOutcome::Uncertain
            };
            let mut explanation = string_of("Jev assigned a ");
            push_fixed2(&mut explanation, p);
            explanation.append(" probability that this job satisfies: ");
            explanation.append(rule.description.as_str());
            let r = SemanticAssessment {
                rule_id: rule.id.clone(),
                outcome,
                confidence: p,
                evidence: Vec::new(),
                explanation,
            };
            assert(crate::text::views(r.evidence@) == Seq::<Seq<char>>::empty());
            r
        },
        _ => {
            let mut explanation = string_of("TypeSafe returned no usable Noul answer for this rule (");
            push_optional_answer(&mut explanation, answer, choice_debug);
            explanation.append(").");
            let r = SemanticAssessment {
                rule_id: rule.id.clone(),
                outcome: AssessmentOutcome::Uncertain,
                confidence: 0,
                evidence: Vec::new(),
                explanation,
            };
            assert(crate::text::views(r.evidence@) == Seq::<Seq<char>>::empty());
            r
        },
    }
}

/// Converts TypeSafe answers into calibrated domain assessments, one per rule, in rule order.
pub fn map_answers(response: &EvaluationResponse, rules: &[SemanticRule]) -> (r: Vec<SemanticAssessment>)
    ensures
        assessment_models(r@) == answers_model(*response, rules@),
{
    let ghost expected = answers_model(*response, rules@);
    let mut out: Vec<SemanticAssessment> = Vec::new();
    let mut i: usize = 0;
    while i < rules.len()
        invariant
            i <= rules@.len(),
            expected == answers_model(*response, rules@),
            assessment_models(out@) == expected.take(i as int),
        decreases rules.len() - i,
    {
        let rule = &rules[i];
        let answer = match find_answer_index(&response.answers, &rule.id) {
            Some(k) => Some(&response.answers[k].1),
            None => None,
        };
        let choice_debug = match answer {
            Some(Answer::Choice { choice, .. }) => str_debug(choice.as_str()),
            _ => String::new(),
        };
        let a = assessment_for_rule(rule, answer, choice_debug.as_str());
        let ghost before = out@;
        out.push(a);
        proof {
            assert(assessment_models(before.push(a)) == assessment_models(before).push(a@));
            assert(expected.take(i + 1) == expected.take(i as int).push(expected[i as int]));
        }
        i = i + 1;
    }
    proof {
        assert(expected.take(expected.len() as int) == expected);
    }
    out
}

// ---------------------------------------------------------------------------
// Retry policy
// ---------------------------------------------------------------------------

/// Progress of a retried evaluation request.
#[derive(Debug, Clone, Copy, PartialEq, Eq)]
pub struct RetryState {
    /// The number of the attempt about to be, or just, made (from 1).
    pub attempt: u32,
    /// The backoff to wait when no server advice is given, in milliseconds.
    pub backoff_millis: u64,
}

/// How long to wait before the next attempt.
#[derive(Debug, Clone, Copy, PartialEq, Eq)]
pub enum RetryDelay {
    /// The delay the server advised, in seconds.
    ServerAdvisedSeconds(u64),
    /// The current exponential backoff, in milliseconds.
    BackoffMillis(u64),
}

/// What to do with a response.
#[derive(Debug, Clone, Copy, PartialEq, Eq)]
pub enum RetryAction {
    /// Wait, then send the request again.
    Retry(RetryDelay),
    /// Read the body: decode it when the status is a success, else report it.
    ReadBody {
        /// Whether the status code is a success (2xx).
        success: bool,
    },
}

/// The backoff in effect at an attempt: it starts at the initial backoff and doubles per attempt.
pub open spec fn backoff_at(attempt: nat) -> nat
    decreases attempt,
{
    if attempt <= 1 {
        INITIAL_BACKOFF_MILLIS as nat
    } else {
        2 * backoff_at((attempt - 1) as nat)
    }
}

/// A reachable retry state.
pub open spec fn retry_state_wf(s: RetryState) -> bool {
    1 <= s.attempt <= MAX_ATTEMPTS && s.backoff_millis == backoff_at(s.attempt as nat)
}

/// Whether a status asks for another attempt: throttling (429) or a server error (5xx).
pub open spec fn is_retryable_status(status: u16) -> bool {
    status == 429 || (500 <= status <= 599)
}

/// The state before the first attempt.
pub fn initial_retry_state() -> (s: RetryState)
    ensures
        retry_state_wf(s),
        s.attempt == 1,
{
    RetryState { attempt: 1, backoff_millis: INITIAL_BACKOFF_MILLIS }
}

/// Decides what to do with a response of status `status`, given the server's
/// advised delay in seconds, if any.
///
/// A throttled or failed response is retried while attempts remain, waiting
/// the advised delay or else the backoff, which then doubles; any other
/// response, and every response to the last attempt, has its body read.
pub fn next_retry_step(state: RetryState, status: u16, retry_after_seconds: Option<u64>) -> (r: (
    RetryState,
    RetryAction,
))
    requires
        retry_state_wf(state),
    ensures
        retry_state_wf(r.0),
        r == retry_step_model(state, status, retry_after_seconds),
        if state.attempt < MAX_ATTEMPTS && is_retryable_status(status) {
            &&& r.0.attempt == state.attempt + 1
            &&& r.1 == RetryAction::Retry(
                match retry_after_seconds {
                    Some(secs) => RetryDelay::ServerAdvisedSeconds(secs),
                    None => RetryDelay::BackoffMillis(state.backoff_millis),
                },
            )
        } else {
            &&& r.0 == state
            &&& r.1 == RetryAction::ReadBody { success: 200 <= status <= 299 }
        },
{
    if state.attempt < MAX_ATTEMPTS && (status == 429 || (500 <= status && status <= 599)) {
        let delay = match retry_after_seconds {
            Some(secs) => RetryDelay::ServerAdvisedSeconds(secs),
            None => RetryDelay::BackoffMillis(state.backoff_millis),
        };
        assert(state.backoff_millis <= 1000) by {
            assert(backoff_at(1) == 500);
            assert(backoff_at(2) == 1000);
        }
        let next = RetryState { attempt: state.attempt + 1, backoff_millis: state.backoff_millis * 2 };
        (next, RetryAction::Retry(delay))
    } else {
        (state, RetryAction::ReadBody { success: 200 <= status && status <= 299 })
    }
}

/// The state and action that follow a response, as [`next_retry_step`] computes them.
pub open spec fn retry_step_model(state: RetryState, status: u16, advice: Option<u64>) -> (RetryState, RetryAction) {
    if state.attempt < MAX_ATTEMPTS && is_retryable_status(status) {
        (
            RetryState { attempt: (state.attempt + 1) as u32, backoff_millis: (state.backoff_millis * 2) as u64 },
            RetryAction::Retry(
                match advice {
                    Some(secs) => RetryDelay::ServerAdvisedSeconds(secs),
                    None => RetryDelay::BackoffMillis(state.backoff_millis),
                },
            ),
        )
    } else {
        (state, RetryAction::ReadBody { success: 200 <= status <= 299 })
    }
}

/// The number of retries made for a run of responses before a body is read.
pub open spec fn retries_before_read(state: RetryState, responses: Seq<(u16, Option<u64>)>) -> nat
    decreases responses.len(),
{
    if responses.len() == 0 {
        0
    } else {
        let (next, action) = retry_step_model(state, responses[0].0, responses[0].1);
        match action {
            RetryAction::Retry(_) => 1 + retries_before_read(next, responses.drop_first()),
            RetryAction::ReadBody { .. } => 0,
        }
    }
}

/// A request is sent at most [`MAX_ATTEMPTS`] times: whatever the responses,
/// a run that starts at attempt `n` retries at most `MAX_ATTEMPTS - n` times.
pub proof fn law_retries_are_bounded(state: RetryState, responses: Seq<(u16, Option<u64>)>)
    requires
        retry_state_wf(state),
    ensures
        retries_before_read(state, responses) <= MAX_ATTEMPTS - state.attempt,
    decreases responses.len(),
{
    if responses.len() > 0 {
        let (next, action) = retry_step_model(state, responses[0].0, responses[0].1);
        if action is Retry {
            assert(backoff_at(1) == 500);
            assert(backoff_at(2) == 1000);
            assert(backoff_at(3) == 2000);
            law_retries_are_bounded(next, responses.drop_first());
        }
    }
}

/// The number of leading responses whose status asks for another attempt.
pub open spec fn leading_retryable(responses: Seq<(u16, Option<u64>)>) -> nat
    decreases responses.len(),
{
    if responses.len() == 0 {
        0
    } else if is_retryable_status(responses[0].0) {
        1 + leading_retryable(responses.drop_first())
    } else {
        0
    }
}

/// The delays waited before each retry of a run of responses.
pub open spec fn retry_delays(state: RetryState, responses: Seq<(u16, Option<u64>)>) -> Seq<RetryDelay>
    decreases responses.len(),
{
    if responses.len() == 0 {
        Seq::empty()
    } else {
        let (next, action) = retry_step_model(state, responses[0].0, responses[0].1);
        match action {
            RetryAction::Retry(d) => seq![d] + retry_delays(next, responses.drop_first()),
            RetryAction::ReadBody { .. } => Seq::empty(),
        }
    }
}

/// The action taken on the response whose body is read, if the run reaches one.
pub open spec fn body_read(state: RetryState, responses: Seq<(u16, Option<u64>)>) -> Option<RetryAction>
    decreases responses.len(),
{
    if responses.len() == 0 {
        None
    } else {
        let (next, action) = retry_step_model(state, responses[0].0, responses[0].1);
        match action {
            RetryAction::Retry(_) => body_read(next, responses.drop_first()),
            RetryAction::ReadBody { .. } => Some(action),
        }
    }
}

/// From any reachable state, a run of responses is retried as long as the
/// responses ask for it and attempts remain: the number of retries is the
/// smaller of the attempts left and the number of leading throttled or
/// failed responses. Before retry `i` (from 0) the wait is the delay the
/// server advised in response `i`, or else the backoff of attempt
/// `attempt + i`, which starts at 500 ms and doubles per attempt. The body
/// read is that of the first response not retried, and the outcome depends
/// on that response's status alone.
pub proof fn law_retry_run(state: RetryState, responses: Seq<(u16, Option<u64>)>)
    requires
        retry_state_wf(state),
    ensures
        body_read(state, responses) == if retries_before_read(state, responses) < responses.len() {
            Some(
                RetryAction::ReadBody {
                    success: 200 <= responses[retries_before_read(state, responses) as int].0 <= 299,
                },
            )
        } else {
            None::<RetryAction>
        },
        retries_before_read(state, responses) == if leading_retryable(responses) < MAX_ATTEMPTS - state.attempt {
            leading_retryable(responses) as int
        } else {
            MAX_ATTEMPTS - state.attempt
        },
        retry_delays(state, responses).len() == retries_before_read(state, responses),
        forall|i: int|
            0 <= i < retry_delays(state, responses).len() ==> #[trigger] retry_delays(state, responses)[i]
                == match responses[i].1 {
                Some(secs) => RetryDelay::ServerAdvisedSeconds(secs),
                None => RetryDelay::BackoffMillis(backoff_at((state.attempt + i) as nat) as u64),
            },
    decreases responses.len(),
{
    if responses.len() > 0 {
        let (next, action) = retry_step_model(state, responses[0].0, responses[0].1);
        if action is Retry {
            assert(backoff_at(1) == 500);
            assert(backoff_at(2) == 1000);
            assert(backoff_at(3) == 2000);
            law_retry_run(next, responses.drop_first());
            let r = retries_before_read(next, responses.drop_first());
            if r < responses.len() - 1 {
                assert(responses.drop_first()[r as int] == responses[r as int + 1]);
            }
            let ds = retry_delays(state, responses);
            let rest = retry_delays(next, responses.drop_first());
            assert forall|i: int| 0 <= i < ds.len() implies #[trigger] ds[i] == match responses[i].1 {
                Some(secs) => RetryDelay::ServerAdvisedSeconds(secs),
                None => RetryDelay::BackoffMillis(backoff_at((state.attempt + i) as nat) as u64),
            } by {
                if i > 0 {
                    assert(ds[i] == rest[i - 1]);
                    assert(responses.drop_first()[i - 1] == responses[i]);
                    assert(next.attempt + (i - 1) == state.attempt + i);
                }
            }
        }
    }
}

/// From the initial state, a run of responses is retried at most twice:
/// the number of retries is the smaller of 2 and the number of leading
/// throttled or failed responses, so the number of requests sent is the
/// smaller of 3 and one more than that count. Before retry `i` (from 0) the
/// wait is the delay advised in response `i`, or else 500 ms doubled `i`
/// times.
pub proof fn law_retry_run_from_start(responses: Seq<(u16, Option<u64>)>)
    ensures
        retries_before_read(RetryState { attempt: 1, backoff_millis: INITIAL_BACKOFF_MILLIS }, responses)
            == if leading_retryable(responses) < 2 { leading_retryable(responses) as int } else { 2 },
        retries_before_read(RetryState { attempt: 1, backoff_millis: INITIAL_BACKOFF_MILLIS }, responses) + 1
            == if leading_retryable(responses) + 1 < MAX_ATTEMPTS {
            leading_retryable(responses) + 1
        } else {
            MAX_ATTEMPTS as nat
        },
        forall|i: int|
            0 <= i < retry_delays(RetryState { attempt: 1, backoff_millis: INITIAL_BACKOFF_MILLIS }, responses).len()
                ==> #[trigger] retry_delays(RetryState { attempt: 1, backoff_millis: INITIAL_BACKOFF_MILLIS }, responses)[i]
                == match responses[i].1 {
                Some(secs) => RetryDelay::ServerAdvisedSeconds(secs),
                None => RetryDelay::BackoffMillis((INITIAL_BACKOFF_MILLIS * two_pow(i as nat)) as u64),
            },
{
    let s = RetryState { attempt: 1, backoff_millis: INITIAL_BACKOFF_MILLIS };
    assert(backoff_at(1) == 500);
    law_retry_run(s, responses);
    assert forall|i: int| 0 <= i < retry_delays(s, responses).len() implies #[trigger] retry_delays(s, responses)[i]
        == match responses[i].1 {
        Some(secs) => RetryDelay::ServerAdvisedSeconds(secs),
        None => RetryDelay::BackoffMillis((INITIAL_BACKOFF_MILLIS * two_pow(i as nat)) as u64),
    } by {
        lemma_backoff_doubles(i as nat);
    }
}

/// The backoff of attempt `1 + i` is 500 ms doubled `i` times.
proof fn lemma_backoff_doubles(i: nat)
    ensures
        backoff_at(1 + i) == INITIAL_BACKOFF_MILLIS * two_pow(i),
    decreases i,
{
    if i > 0 {
        lemma_backoff_doubles((i - 1) as nat);
        assert(backoff_at(1 + i) == 2 * backoff_at(i));
    }
}

// ---------------------------------------------------------------------------
// Retry-After parsing
// ---------------------------------------------------------------------------

/// Whether `d` is a non-empty run of ASCII digits.
pub open spec fn is_digits(d: Seq<char>) -> bool {
    d.len() > 0 && forall|i: int| 0 <= i < d.len() ==> '0' <= #[trigger] d[i] <= '9'
}

/// The value of a run of ASCII digits.
pub open spec fn digits_value(d: Seq<char>) -> nat
    decreases d.len(),
{
    if d.len() == 0 {
        0
    } else {
        digits_value(d.drop_last()) * 10 + ((d.last() as u32) - 48) as nat
    }
}

/// The value of an unsigned decimal integer as `u64::from_str` reads it: an
/// optional `+` followed by at least one ASCII digit, the value fitting in
/// a `u64`; `None` for anything else.
pub open spec fn u64_text_value(s: Seq<char>) -> Option<nat> {
    let d = if s.len() > 0 && s[0] == '+' { s.drop_first() } else { s };
    if is_digits(d) && digits_value(d) <= u64::MAX {
        Some(digits_value(d))
    } else {
        None
    }
}

/// Appending digits never lowers the value.
proof fn lemma_digits_value_monotone(d: Seq<char>, i: int)
    requires
        0 <= i <= d.len(),
        forall|k: int| 0 <= k < d.len() ==> '0' <= #[trigger] d[k] <= '9',
    ensures
        digits_value(d.take(i)) <= digits_value(d),
    decreases d.len() - i,
{
    if i < d.len() {
        lemma_digits_value_monotone(d, i + 1);
        assert(d.take(i + 1).drop_last() == d.take(i));
    } else {
        assert(d.take(i) == d);
    }
}

/// Reads an unsigned decimal integer as `u64::from_str` does.
pub fn parse_u64(s: &str) -> (r: Option<u64>)
    ensures
        match r {
            Some(v) => u64_text_value(s@) == Some(v as nat),
            None => u64_text_value(s@) is None,
        },
{
    let v = crate::text::chars_of(s);
    let start: usize = if v.len() > 0 && v[0] == '+' { 1 } else { 0 };
    let ghost d = if s@.len() > 0 && s@[0] == '+' { s@.drop_first() } else { s@ };
    assert(d == v@.subrange(start as int, v@.len() as int));
    if start >= v.len() {
        return None;
    }
    let mut acc: u128 = 0;
    let mut i: usize = start;
    while i < v.len()
        invariant
            v@ == s@,
            start <= i <= v@.len(),
            d == v@.subrange(start as int, v@.len() as int),
            d == (if s@.len() > 0 && s@[0] == '+' { s@.drop_first() } else { s@ }),
            forall|k: int| 0 <= k < i - start ==> '0' <= #[trigger] d[k] <= '9',
            acc == digits_value(d.take(i - start)),
            acc <= u64::MAX,
        decreases v.len() - i,
    {
        let c = v[i];
        assert(c == d[i - start]);
        if !('0' <= c && c <= '9') {
            assert(!is_digits(d));
            return None;
        }
        assert(d.take(i - start + 1).drop_last() == d.take(i - start));
        assert(d.take(i - start + 1).last() == c);
        let next: u128 = acc * 10 + ((c as u32) - 48) as u128;
        if next > u64::MAX as u128 {
            proof {
                assert forall|k: int| 0 <= k < i - start + 1 implies '0' <= #[trigger] d.take(i - start + 1)[k] <= '9' by {
                    assert(d.take(i - start + 1)[k] == d[k]);
                }
                assert(digits_value(d.take(i - start + 1)) == next);
                if is_digits(d) {
                    lemma_digits_value_monotone(d, i - start + 1);
                }
                assert(u64_text_value(s@) is None);
            }
            return None;
        }
        acc = next;
        i = i + 1;
    }
    assert(d.take(d.len() as int) == d);
    Some(acc as u64)
}

/// The retry delay, in seconds, advised by a `Retry-After` header value.
pub fn retry_delay_seconds(header: Option<&str>) -> (r: Option<u64>)
    ensures
        match header {
            Some(h) => match r {
                Some(v) => u64_text_value(h@) == Some(v as nat),
                None => u64_text_value(h@) is None,
            },
            None => r is None,
        },
{
    match header {
        Some(h) => parse_u64(h),
        None => None,
    }
}

// ---------------------------------------------------------------------------
// Laws
// ---------------------------------------------------------------------------

/// Every assessment made from TypeSafe answers names its rule, carries a
/// valid confidence and no evidence quotes; a match is at least as confident
/// as the rule demands, and a non-match at most its complement.
pub proof fn law_mapped_assessments_are_calibrated(response: EvaluationResponse, rules: Seq<SemanticRule>, i: int)
    requires
        0 <= i < rules.len(),
    ensures
        answers_model(response, rules)[i].rule_id == rules[i].id@,
        answers_model(response, rules)[i].evidence.len() == 0,
        0 <= answers_model(response, rules)[i].confidence <= SCALE,
        answers_model(response, rules)[i].outcome == AssessmentOutcome::Match
            ==> answers_model(response, rules)[i].confidence >= rules[i].minimum_confidence,
        answers_model(response, rules)[i].outcome == AssessmentOutcome::NoMatch
            ==> answers_model(response, rules)[i].confidence <= SCALE - rules[i].minimum_confidence,
{
}

/// Assessments made from TypeSafe answers leave no semantic rule without a
/// usable assessment: evaluation finds one for every rule, and its
/// confidence is valid.
pub proof fn law_mapped_assessments_cover_every_rule(
    response: EvaluationResponse,
    rules: Seq<SemanticRule>,
    a: Seq<SemanticAssessment>,
    i: int,
)
    requires
        assessment_models(a) == answers_model(response, rules),
        0 <= i < rules.len(),
    ensures
        find_assessment(a, rules[i].id@, 0) matches Some(k) && valid_confidence(a[k].confidence as int),
{
    assert(assessment_models(a).len() == a.len());
    assert(answers_model(response, rules).len() == rules.len());
    assert(assessment_models(a)[i] == a[i]@);
    lemma_find_assessment_some(a, rules[i].id@, 0, i);
    let k = find_assessment(a, rules[i].id@, 0)->0;
    assert(assessment_models(a)[k] == a[k]@);
}

/// A Noul answer's yes-probability, clamped to `0..=SCALE`, becomes the
/// assessment's confidence whatever the outcome; the outcome is a match
/// exactly when that probability reaches the rule's minimum confidence, and a
/// non-match exactly when it falls short of it and is at most its complement.
/// Any other answer, or none, gives an uncertain assessment with confidence
/// zero.
pub proof fn law_noul_probability_is_the_confidence(
    rule: SemanticRule,
    answer: Option<Answer>,
    choice_debug: Seq<char>,
)
    ensures
        ({
            let m = assessment_with_choice_debug(rule, answer, choice_debug);
            &&& m.rule_id == rule.id@
            &&& m.evidence.len() == 0
            &&& match answer {
                Some(Answer::Noul { noul }) => {
                    &&& m.confidence == (if noul < 0 { 0 } else if noul > 1000 { 1000 } else { noul })
                    &&& (m.outcome == AssessmentOutcome::Match) == (m.confidence >= rule.minimum_confidence)
                    &&& (m.outcome == AssessmentOutcome::NoMatch) == (m.confidence < rule.minimum_confidence
                        && m.confidence <= 1000 - rule.minimum_confidence)
                },
                _ => m.confidence == 0 && m.outcome == AssessmentOutcome::Uncertain,
            }
        }),
{
}

/// Every throttled (429) or server-error (500 to 599) response is retried
/// while attempts remain, the attempt count going up by one and the backoff
/// doubling; every other response, and every response to the last attempt,
/// has its body read, which counts as a success exactly for 200 to 299.
pub proof fn law_server_errors_and_throttling_are_retried(
    state: RetryState,
    status: u16,
    advice: Option<u64>,
)
    requires
        retry_state_wf(state),
    ensures
        ({
            let (next, action) = retry_step_model(state, status, advice);
            if state.attempt < 3 && (500 <= status <= 599 || status == 429) {
                &&& action is Retry
                &&& next.attempt == state.attempt + 1
                &&& next.backoff_millis == 2 * state.backoff_millis
            } else {
                &&& next == state
                &&& action == RetryAction::ReadBody { success: 200 <= status && status <= 299 }
            }
        }),
{
    assert(backoff_at(1) == 500);
    assert(backoff_at(2) == 1000);
    assert(backoff_at(3) == 2000);
}

} // verus!
