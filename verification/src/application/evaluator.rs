//! Application service for evaluating jobs against configured rules.
use crate::logic::job::Job;
use crate::logic::rules::{
    decision_model, evaluation_models, models_of, score_model, FilterResult, JobRules,
    SemanticAssessment,
};
use vstd::prelude::*;

verus! {

/// Coordinates deterministic and semantic evaluation for jobs.
#[derive(Debug, Clone)]
pub struct JobEvaluator {
    rules: JobRules,
}

/// Evaluation result associated with a specific job.
#[derive(Debug, Clone, PartialEq)]
pub struct JobEvaluation {
    /// Internal ID of the evaluated job.
    pub job_id: String,
    /// The auditable rule evaluation result.
    pub result: FilterResult,
}

impl JobEvaluator {
    /// The rule set this evaluator applies.
    pub closed spec fn rule_set(&self) -> JobRules {
        self.rules
    }

    /// Creates an evaluator using the supplied rule set.
    pub fn new(rules: JobRules) -> (r: Self)
        ensures
            r.rule_set() == rules,
    {
        JobEvaluator { rules }
    }

    /// Returns the rules used by this evaluator.
    pub fn rules(&self) -> (r: &JobRules)
        ensures
            *r == self.rule_set(),
    {
        &self.rules
    }

    /// Evaluates one job and attaches its internal ID to the result.
    pub fn evaluate(&self, job: &Job, assessments: &[SemanticAssessment]) -> (r: JobEvaluation)
        ensures
            r.job_id@ == job.id@,
            models_of(r.result.evaluations@) == evaluation_models(self.rule_set(), *job, assessments@),
            r.result.score as int == score_model(self.rule_set().semantic_rules@, assessments@),
            r.result.decision == decision_model(
                evaluation_models(self.rule_set(), *job, assessments@),
                r.result.score as int,
                self.rule_set().minimum_score as int,
            ),
    {
        JobEvaluation { job_id: job.id.clone(), result: self.rules.evaluate(job, assessments) }
    }
}

} // verus!
