//! Evidence-backed resume planning.
use super::profile::{
    achievement_status, experience_present, lemma_status_kept_by_append, CandidateProfile, Experience,
};
use crate::text::{is_blank, is_blank_str, string_of};
use vstd::prelude::*;

verus! {

/// A structured plan for tailoring a resume to a particular job.
#[derive(Debug, Clone, PartialEq, Eq)]
pub struct ResumePlan {
    /// Internal ID of the target job.
    pub job_id: String,
    /// Tailored summary proposed for the resume.
    pub summary: Option<String>,
    /// Experience IDs selected for inclusion.
    pub selected_experience_ids: Vec<String>,
    /// Skill names selected for inclusion.
    pub selected_skills: Vec<String>,
    /// Rewritten bullets that retain links to source achievements.
    pub bullet_rewrites: Vec<BulletRewrite>,
    /// Warnings that should be shown during human review.
    pub warnings: Vec<String>,
}

/// A generated bullet tied to a verified source achievement.
#[derive(Debug, Clone, PartialEq, Eq)]
pub struct BulletRewrite {
    /// ID of the original achievement in the candidate profile.
    pub source_achievement_id: String,
    /// Tailored text intended for the rendered resume.
    pub text: String,
}

impl BulletRewrite {
    /// Creates a rewrite linked to a source achievement.
    pub fn new(source_achievement_id: &str, text: &str) -> (r: Self)
        ensures
            r.source_achievement_id@ == source_achievement_id@,
            r.text@ == text@,
    {
        BulletRewrite { source_achievement_id: string_of(source_achievement_id), text: string_of(text) }
    }
}

/// A problem that prevents a resume plan from being safely rendered.
#[derive(Debug, Clone, PartialEq, Eq)]
pub enum ResumeValidationError {
    /// The plan references an experience absent from the profile.
    MissingExperience {
        /// The missing experience ID.
        experience_id: String,
    },
    /// The plan references an achievement absent from the profile.
    MissingAchievement {
        /// The missing achievement ID.
        achievement_id: String,
    },
    /// The plan references an achievement that has not been verified.
    UnverifiedAchievement {
        /// The unverified achievement ID.
        achievement_id: String,
    },
    /// A rewrite has no usable text.
    EmptyBullet {
        /// The achievement associated with the empty rewrite.
        achievement_id: String,
    },
}

/// The mathematical content of a [`ResumeValidationError`].
pub enum ValidationErrorModel {
    MissingExperience(Seq<char>),
    MissingAchievement(Seq<char>),
    UnverifiedAchievement(Seq<char>),
    EmptyBullet(Seq<char>),
}

impl View for ResumeValidationError {
    type V = ValidationErrorModel;

    open spec fn view(&self) -> ValidationErrorModel {
        match self {
            ResumeValidationError::MissingExperience { experience_id } => ValidationErrorModel::MissingExperience(experience_id@),
            ResumeValidationError::MissingAchievement { achievement_id } => ValidationErrorModel::MissingAchievement(achievement_id@),
            ResumeValidationError::UnverifiedAchievement { achievement_id } => ValidationErrorModel::UnverifiedAchievement(achievement_id@),
            ResumeValidationError::EmptyBullet { achievement_id } => ValidationErrorModel::EmptyBullet(achievement_id@),
        }
    }
}

/// The views of a sequence of validation errors.
pub open spec fn error_models(es: Seq<ResumeValidationError>) -> Seq<ValidationErrorModel> {
    es.map_values(|e: ResumeValidationError| e@)
}

/// The errors for the selected experiences: one per ID absent from the profile, in order.
pub open spec fn experience_errors(profile: CandidateProfile, ids: Seq<String>) -> Seq<ValidationErrorModel>
    decreases ids.len(),
{
    if ids.len() == 0 {
        Seq::empty()
    } else {
        experience_errors(profile, ids.drop_last()) + if experience_present(profile.experiences@, ids.last()@) {
            Seq::empty()
        } else {
            seq![ValidationErrorModel::MissingExperience(ids.last()@)]
        }
    }
}

/// The errors for one rewrite: its evidence problem, if any, then an empty-text error, if any.
pub open spec fn rewrite_errors(profile: CandidateProfile, r: BulletRewrite) -> Seq<ValidationErrorModel> {
    let id = r.source_achievement_id@;
    let evidence = match achievement_status(profile.experiences@, id) {
        None => seq![ValidationErrorModel::MissingAchievement(id)],
        Some(false) => seq![ValidationErrorModel::UnverifiedAchievement(id)],
        Some(true) => Seq::empty(),
    };
    evidence + if is_blank(r.text@) {
        seq![ValidationErrorModel::EmptyBullet(id)]
    } else {
        Seq::empty()
    }
}

/// The errors for all rewrites, in order.
pub open spec fn bullet_errors(profile: CandidateProfile, rs: Seq<BulletRewrite>) -> Seq<ValidationErrorModel>
    decreases rs.len(),
{
    if rs.len() == 0 {
        Seq::empty()
    } else {
        bullet_errors(profile, rs.drop_last()) + rewrite_errors(profile, rs.last())
    }
}

/// Every problem of a plan against a profile: experience errors, then rewrite errors.
pub open spec fn plan_errors(plan: ResumePlan, profile: CandidateProfile) -> Seq<ValidationErrorModel> {
    experience_errors(profile, plan.selected_experience_ids@) + bullet_errors(profile, plan.bullet_rewrites@)
}

/// Whether every reference of the plan is backed by the profile: each selected
/// experience exists, and each rewrite cites an existing, verified achievement
/// and has non-blank text.
pub open spec fn plan_is_supported(plan: ResumePlan, profile: CandidateProfile) -> bool {
    &&& forall|i: int| 0 <= i < plan.selected_experience_ids@.len()
        ==> experience_present(profile.experiences@, (#[trigger] plan.selected_experience_ids@[i])@)
    &&& forall|j: int| 0 <= j < plan.bullet_rewrites@.len()
        ==> achievement_status(profile.experiences@, (#[trigger] plan.bullet_rewrites@[j]).source_achievement_id@) == Some(true)
            && !is_blank(plan.bullet_rewrites@[j].text@)
}

/// An error model together with the pushes that produced it.
proof fn lemma_push_model(es: Seq<ResumeValidationError>, e: ResumeValidationError)
    ensures
        error_models(es.push(e)) == error_models(es).push(e@),
{
    assert(error_models(es.push(e)) =~= error_models(es).push(e@));
}

impl ResumePlan {
    /// Creates an empty plan for a target job.
    pub fn new(job_id: &str) -> (r: Self)
        ensures
            r.job_id@ == job_id@,
            r.summary is None,
            r.selected_experience_ids@.len() == 0,
            r.selected_skills@.len() == 0,
            r.bullet_rewrites@.len() == 0,
            r.warnings@.len() == 0,
    {
        ResumePlan {
            job_id: string_of(job_id),
            summary: None,
            selected_experience_ids: Vec::new(),
            selected_skills: Vec::new(),
            bullet_rewrites: Vec::new(),
            warnings: Vec::new(),
        }
    }

    /// Validates that every selected source item exists in the candidate profile.
    ///
    /// This prevents a renderer from producing a resume containing unsupported
    /// or fabricated experience references. The errors, when there are any,
    /// are exactly [`plan_errors`], in order.
    pub fn validate(&self, profile: &CandidateProfile) -> (r: Result<(), Vec<ResumeValidationError>>)
        ensures
            match r {
                Ok(()) => plan_errors(*self, *profile).len() == 0,
                Err(errors) => error_models(errors@) == plan_errors(*self, *profile) && errors@.len() > 0,
            },
    {
        let mut errors: Vec<ResumeValidationError> = Vec::new();
        let ids = &self.selected_experience_ids;
        let mut i: usize = 0;
        while i < ids.len()
            invariant
                ids == &self.selected_experience_ids,
                i <= ids.len(),
                error_models(errors@) == experience_errors(*profile, ids@.take(i as int)),
            decreases ids.len() - i,
        {
            assert(ids@.take(i + 1).drop_last() == ids@.take(i as int));
            if !profile.has_experience(ids[i].as_str()) {
                let e = ResumeValidationError::MissingExperience { experience_id: ids[i].clone() };
                proof {
                    lemma_push_model(errors@, e);
                }
                errors.push(e);
            } else {
                assert(experience_errors(*profile, ids@.take(i + 1)) == experience_errors(*profile, ids@.take(i as int)) + Seq::<ValidationErrorModel>::empty());
            }
            i = i + 1;
        }
        assert(ids@.take(ids@.len() as int) == ids@);
        let ghost exp_errors = error_models(errors@);
        let rs = &self.bullet_rewrites;
        let mut j: usize = 0;
        while j < rs.len()
            invariant
                rs == &self.bullet_rewrites,
                j <= rs.len(),
                exp_errors == experience_errors(*profile, self.selected_experience_ids@),
                error_models(errors@) == exp_errors + bullet_errors(*profile, rs@.take(j as int)),
            decreases rs.len() - j,
        {
            let rewrite = &rs[j];
            let ghost before = error_models(errors@);
            assert(rs@.take(j + 1).drop_last() == rs@.take(j as int));
            match profile.is_achievement_verified(rewrite.source_achievement_id.as_str()) {
                None => {
                    let e = ResumeValidationError::MissingAchievement {
                        achievement_id: rewrite.source_achievement_id.clone(),
                    };
                    proof {
                        lemma_push_model(errors@, e);
                    }
                    errors.push(e);
                },
                Some(false) => {
                    let e = ResumeValidationError::UnverifiedAchievement {
                        achievement_id: rewrite.source_achievement_id.clone(),
                    };
                    proof {
                        lemma_push_model(errors@, e);
                    }
                    errors.push(e);
                },
                Some(true) => {},
            }
            let ghost mid = error_models(errors@);
            if is_blank_str(rewrite.text.as_str()) {
                let e = ResumeValidationError::EmptyBullet {
                    achievement_id: rewrite.source_achievement_id.clone(),
                };
                proof {
                    lemma_push_model(errors@, e);
                }
                errors.push(e);
            }
            proof {
                let re = rewrite_errors(*profile, *rewrite);
                assert(error_models(errors@) == before + re);
                assert(bullet_errors(*profile, rs@.take(j + 1)) == bullet_errors(*profile, rs@.take(j as int)) + re);
            }
            j = j + 1;
        }
        assert(rs@.take(rs@.len() as int) == rs@);
        if errors.len() == 0 {
            Ok(())
        } else {
            Err(errors)
        }
    }
}

/// The experience errors are empty exactly when every selected experience exists.
proof fn lemma_experience_errors_empty(profile: CandidateProfile, ids: Seq<String>)
    ensures
        (experience_errors(profile, ids).len() == 0) == (forall|i: int| 0 <= i < ids.len()
            ==> experience_present(profile.experiences@, (#[trigger] ids[i])@)),
    decreases ids.len(),
{
    if ids.len() > 0 {
        lemma_experience_errors_empty(profile, ids.drop_last());
        if forall|i: int| 0 <= i < ids.drop_last().len() ==> experience_present(profile.experiences@, (#[trigger] ids.drop_last()[i])@) {
            assert forall|i: int| 0 <= i < ids.len() - 1 implies experience_present(profile.experiences@, (#[trigger] ids[i])@) by {
                assert(ids[i] == ids.drop_last()[i]);
            }
        } else {
            let k = choose|k: int| 0 <= k < ids.drop_last().len() && !experience_present(profile.experiences@, (#[trigger] ids.drop_last()[k])@);
            assert(ids[k] == ids.drop_last()[k]);
        }
    }
}

/// The rewrite errors are empty exactly when every rewrite cites a verified achievement with non-blank text.
proof fn lemma_bullet_errors_empty(profile: CandidateProfile, rs: Seq<BulletRewrite>)
    ensures
        (bullet_errors(profile, rs).len() == 0) == (forall|j: int| 0 <= j < rs.len()
            ==> achievement_status(profile.experiences@, (#[trigger] rs[j]).source_achievement_id@) == Some(true)
                && !is_blank(rs[j].text@)),
    decreases rs.len(),
{
    if rs.len() > 0 {
        lemma_bullet_errors_empty(profile, rs.drop_last());
        let last = rs.last();
        assert((rewrite_errors(profile, last).len() == 0) == (achievement_status(profile.experiences@, last.source_achievement_id@) == Some(true) && !is_blank(last.text@)));
        if forall|j: int| 0 <= j < rs.drop_last().len() ==> achievement_status(profile.experiences@, (#[trigger] rs.drop_last()[j]).source_achievement_id@) == Some(true) && !is_blank(rs.drop_last()[j].text@) {
            assert forall|j: int| 0 <= j < rs.len() - 1 implies achievement_status(profile.experiences@, (#[trigger] rs[j]).source_achievement_id@) == Some(true) && !is_blank(rs[j].text@) by {
                assert(rs[j] == rs.drop_last()[j]);
            }
        } else {
            let k = choose|k: int| 0 <= k < rs.drop_last().len() && !(achievement_status(profile.experiences@, (#[trigger] rs.drop_last()[k]).source_achievement_id@) == Some(true) && !is_blank(rs.drop_last()[k].text@));
            assert(rs[k] == rs.drop_last()[k]);
        }
    }
}

/// Validation accepts a plan exactly when the plan is supported by the
/// profile: every selected experience exists, and every rewritten bullet
/// cites an existing, verified achievement and has non-blank text.
pub proof fn law_validation_accepts_exactly_supported_plans(plan: ResumePlan, profile: CandidateProfile)
    ensures
        (plan_errors(plan, profile).len() == 0) == plan_is_supported(plan, profile),
{
    lemma_experience_errors_empty(profile, plan.selected_experience_ids@);
    lemma_bullet_errors_empty(profile, plan.bullet_rewrites@);
}

/// A supported plan stays supported when experiences are appended to the profile.
pub proof fn law_supported_plan_stays_supported_when_experiences_are_added(
    plan: ResumePlan,
    profile: CandidateProfile,
    extended: CandidateProfile,
    added: Seq<Experience>,
)
    requires
        plan_is_supported(plan, profile),
        extended.experiences@ == profile.experiences@ + added,
    ensures
        plan_is_supported(plan, extended),
{
    let es = profile.experiences@;
    assert forall|i: int| 0 <= i < plan.selected_experience_ids@.len()
        implies experience_present(extended.experiences@, (#[trigger] plan.selected_experience_ids@[i])@) by {
        let id = plan.selected_experience_ids@[i]@;
        let k = choose|k: int| 0 <= k < es.len() && (#[trigger] es[k]).id@ == id;
        assert(extended.experiences@[k] == es[k]);
    }
    assert forall|j: int| 0 <= j < plan.bullet_rewrites@.len()
        implies achievement_status(extended.experiences@, (#[trigger] plan.bullet_rewrites@[j]).source_achievement_id@) == Some(true)
            && !is_blank(plan.bullet_rewrites@[j].text@) by {
        lemma_status_kept_by_append(es, added, plan.bullet_rewrites@[j].source_achievement_id@);
    }
}

/// The missing-experience errors among the experience errors are one per
/// absent selected ID, in selection order.
proof fn lemma_experience_errors_report_absent_ids(
    profile: CandidateProfile,
    ids: Seq<String>,
    is_missing: spec_fn(ValidationErrorModel) -> bool,
    absent: spec_fn(String) -> bool,
    report: spec_fn(String) -> ValidationErrorModel,
)
    requires
        forall|e: ValidationErrorModel| #[trigger] is_missing(e) == (e is MissingExperience),
        forall|id: String| #[trigger] absent(id) == !experience_present(profile.experiences@, id@),
        forall|id: String| #[trigger] report(id) == ValidationErrorModel::MissingExperience(id@),
    ensures
        experience_errors(profile, ids).filter(is_missing) == ids.filter(absent).map_values(report),
    decreases ids.len(),
{
    reveal(Seq::filter);
    if ids.len() > 0 {
        lemma_experience_errors_report_absent_ids(profile, ids.drop_last(), is_missing, absent, report);
        let tail = if experience_present(profile.experiences@, ids.last()@) {
            Seq::<ValidationErrorModel>::empty()
        } else {
            seq![ValidationErrorModel::MissingExperience(ids.last()@)]
        };
        Seq::filter_distributes_over_add(experience_errors(profile, ids.drop_last()), tail, is_missing);
        if experience_present(profile.experiences@, ids.last()@) {
            assert(tail.filter(is_missing) =~= Seq::empty());
        } else {
            assert(tail.drop_last() =~= Seq::<ValidationErrorModel>::empty());
            assert(is_missing(tail.last()));
            assert(tail.filter(is_missing) =~= tail);
        }
        assert(ids.filter(absent).map_values(report) =~= if absent(ids.last()) {
            ids.drop_last().filter(absent).map_values(report).push(report(ids.last()))
        } else {
            ids.drop_last().filter(absent).map_values(report)
        });
    }
}

/// Rewrite errors are never missing-experience errors.
proof fn lemma_bullet_errors_report_no_experience(
    profile: CandidateProfile,
    rs: Seq<BulletRewrite>,
    is_missing: spec_fn(ValidationErrorModel) -> bool,
)
    requires
        forall|e: ValidationErrorModel| #[trigger] is_missing(e) == (e is MissingExperience),
    ensures
        bullet_errors(profile, rs).filter(is_missing) == Seq::<ValidationErrorModel>::empty(),
    decreases rs.len(),
{
    if rs.len() > 0 {
        lemma_bullet_errors_report_no_experience(profile, rs.drop_last(), is_missing);
        let r = rewrite_errors(profile, rs.last());
        Seq::filter_distributes_over_add(bullet_errors(profile, rs.drop_last()), r, is_missing);
        assert forall|i: int| 0 <= i < r.len() implies !is_missing(#[trigger] r[i]) by {}
        r.lemma_all_neg_filter_empty(is_missing);
    }
}

/// Validation reports a missing experience once for every selected
/// experience ID that the profile lacks, in selection order, and reports no
/// other missing experience.
pub proof fn law_every_absent_experience_is_reported(plan: ResumePlan, profile: CandidateProfile)
    ensures
        plan_errors(plan, profile).filter(|e: ValidationErrorModel| e is MissingExperience)
            == plan.selected_experience_ids@.filter(
            |id: String| !experience_present(profile.experiences@, id@),
        ).map_values(|id: String| ValidationErrorModel::MissingExperience(id@)),
        forall|i: int|
            0 <= i < plan.selected_experience_ids@.len() && !experience_present(
                profile.experiences@,
                (#[trigger] plan.selected_experience_ids@[i])@,
            ) ==> plan_errors(plan, profile).contains(
                ValidationErrorModel::MissingExperience(plan.selected_experience_ids@[i]@),
            ),
{
    let is_missing = |e: ValidationErrorModel| e is MissingExperience;
    let absent = |id: String| !experience_present(profile.experiences@, id@);
    let report = |id: String| ValidationErrorModel::MissingExperience(id@);
    let ids = plan.selected_experience_ids@;
    lemma_experience_errors_report_absent_ids(profile, ids, is_missing, absent, report);
    lemma_bullet_errors_report_no_experience(profile, plan.bullet_rewrites@, is_missing);
    Seq::filter_distributes_over_add(
        experience_errors(profile, ids),
        bullet_errors(profile, plan.bullet_rewrites@),
        is_missing,
    );
    assert(plan_errors(plan, profile).filter(is_missing) =~= ids.filter(absent).map_values(report));
    assert forall|i: int|
        0 <= i < ids.len() && !experience_present(profile.experiences@, (#[trigger] ids[i])@)
        implies plan_errors(plan, profile).contains(ValidationErrorModel::MissingExperience(ids[i]@)) by {
        ids.lemma_filter_contains(absent, i);
        let j = choose|j: int| 0 <= j < ids.filter(absent).len() && ids.filter(absent)[j] == ids[i];
        let fe = plan_errors(plan, profile).filter(is_missing);
        assert(fe[j] == report(ids[i]));
        plan_errors(plan, profile).lemma_filter_contains_rev(is_missing, fe[j]);
        assert(fe.contains(fe[j]));
    }
}

/// Every error of every rewrite is among the rewrite errors.
proof fn lemma_bullet_errors_include_rewrite(profile: CandidateProfile, rs: Seq<BulletRewrite>, j: int, e: ValidationErrorModel)
    requires
        0 <= j < rs.len(),
        rewrite_errors(profile, rs[j]).contains(e),
    ensures
        bullet_errors(profile, rs).contains(e),
    decreases rs.len(),
{
    let pre = bullet_errors(profile, rs.drop_last());
    let last = rewrite_errors(profile, rs.last());
    if j == rs.len() - 1 {
        let k = choose|k: int| 0 <= k < last.len() && last[k] == e;
        assert((pre + last)[pre.len() + k] == e);
    } else {
        assert(rs.drop_last()[j] == rs[j]);
        lemma_bullet_errors_include_rewrite(profile, rs.drop_last(), j, e);
        let k = choose|k: int| 0 <= k < pre.len() && pre[k] == e;
        assert((pre + last)[k] == e);
    }
}

/// Validation reports, for every rewritten bullet, a missing achievement when
/// the profile has no achievement with the cited ID, an unverified
/// achievement when the cited achievement is not verified, and an empty
/// bullet when the text is blank.
pub proof fn law_every_unsupported_bullet_is_reported(plan: ResumePlan, profile: CandidateProfile, j: int)
    requires
        0 <= j < plan.bullet_rewrites@.len(),
    ensures
        ({
            let r = plan.bullet_rewrites@[j];
            let id = r.source_achievement_id@;
            let errs = plan_errors(plan, profile);
            &&& achievement_status(profile.experiences@, id) is None ==> errs.contains(
                ValidationErrorModel::MissingAchievement(id),
            )
            &&& achievement_status(profile.experiences@, id) == Some(false) ==> errs.contains(
                ValidationErrorModel::UnverifiedAchievement(id),
            )
            &&& is_blank(r.text@) ==> errs.contains(ValidationErrorModel::EmptyBullet(id))
        }),
{
    let r = plan.bullet_rewrites@[j];
    let id = r.source_achievement_id@;
    let re = rewrite_errors(profile, r);
    let ee = experience_errors(profile, plan.selected_experience_ids@);
    let be = bullet_errors(profile, plan.bullet_rewrites@);
    assert forall|e: ValidationErrorModel| re.contains(e) implies plan_errors(plan, profile).contains(e) by {
        lemma_bullet_errors_include_rewrite(profile, plan.bullet_rewrites@, j, e);
        let k = choose|k: int| 0 <= k < be.len() && be[k] == e;
        assert((ee + be)[ee.len() + k] == e);
    }
    if achievement_status(profile.experiences@, id) is None {
        assert(re[0] == ValidationErrorModel::MissingAchievement(id));
        assert(re.contains(ValidationErrorModel::MissingAchievement(id)));
    }
    if achievement_status(profile.experiences@, id) == Some(false) {
        assert(re[0] == ValidationErrorModel::UnverifiedAchievement(id));
        assert(re.contains(ValidationErrorModel::UnverifiedAchievement(id)));
    }
    if is_blank(r.text@) {
        assert(re[re.len() - 1] == ValidationErrorModel::EmptyBullet(id));
        assert(re.contains(ValidationErrorModel::EmptyBullet(id)));
    }
}

} // verus!
