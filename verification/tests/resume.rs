use head_huntress::logic::profile::{Achievement, CandidateProfile, Experience};
use head_huntress::logic::resume::{BulletRewrite, ResumePlan, ResumeValidationError};

#[test]
fn plan_validation_accepts_profile_evidence() {
    let mut profile = CandidateProfile::new("Jane Doe");
    let mut experience = Experience::new("experience-1", "Example Co", "Engineer");
    experience
        .achievements
        .push(Achievement::new("achievement-1", "Improved reliability."));
    profile.experiences.push(experience);

    let mut plan = ResumePlan::new("job-1");
    plan.selected_experience_ids.push("experience-1".to_owned());
    plan.bullet_rewrites.push(BulletRewrite::new(
        "achievement-1",
        "Improved reliability by 40%.",
    ));

    assert!(plan.validate(&profile).is_ok());
}

#[test]
fn plan_validation_rejects_unverified_evidence() {
    let mut profile = CandidateProfile::new("Jane Doe");
    let mut experience = Experience::new("experience-1", "Example Co", "Engineer");
    let mut achievement = Achievement::new("achievement-1", "Unverified claim.");
    achievement.verified = false;
    experience.achievements.push(achievement);
    profile.experiences.push(experience);

    let mut plan = ResumePlan::new("job-1");
    plan.bullet_rewrites
        .push(BulletRewrite::new("achievement-1", "Unverified claim."));

    let errors = plan.validate(&profile).expect_err("plan should be invalid");

    assert!(matches!(
        errors[0],
        ResumeValidationError::UnverifiedAchievement { .. }
    ));
}

#[test]
fn plan_validation_rejects_unknown_evidence() {
    let profile = CandidateProfile::new("Jane Doe");
    let mut plan = ResumePlan::new("job-1");
    plan.bullet_rewrites
        .push(BulletRewrite::new("missing", "Unsupported claim."));

    let errors = plan.validate(&profile).expect_err("plan should be invalid");

    assert_eq!(errors.len(), 1);
    assert!(matches!(
        errors[0],
        ResumeValidationError::MissingAchievement { .. }
    ));
}

#[test]
fn plan_validation_lists_every_problem_in_order() {
    let mut profile = CandidateProfile::new("Jane Doe");
    let mut experience = Experience::new("experience-1", "Example Co", "Engineer");
    experience.achievements.push(Achievement::new("achievement-1", "Shipped."));
    profile.experiences.push(experience);

    let mut plan = ResumePlan::new("job-1");
    plan.selected_experience_ids.push("experience-9".to_owned());
    plan.selected_experience_ids.push("experience-1".to_owned());
    plan.bullet_rewrites.push(BulletRewrite::new("achievement-1", " \t\n"));
    plan.bullet_rewrites.push(BulletRewrite::new("ghost", ""));

    let errors = plan.validate(&profile).expect_err("plan should be invalid");
    assert_eq!(
        errors,
        vec![
            ResumeValidationError::MissingExperience { experience_id: "experience-9".to_owned() },
            ResumeValidationError::EmptyBullet { achievement_id: "achievement-1".to_owned() },
            ResumeValidationError::MissingAchievement { achievement_id: "ghost".to_owned() },
            ResumeValidationError::EmptyBullet { achievement_id: "ghost".to_owned() },
        ]
    );
}

#[test]
fn empty_plans_are_valid() {
    let plan = ResumePlan::new("job-1");
    assert_eq!(plan.job_id, "job-1");
    assert!(plan.validate(&CandidateProfile::new("Jane")).is_ok());
}

#[test]
fn valid_plans_stay_valid_when_experiences_are_added() {
    let mut profile = CandidateProfile::new("Jane Doe");
    let mut experience = Experience::new("experience-1", "Example Co", "Engineer");
    experience.achievements.push(Achievement::new("achievement-1", "Shipped."));
    profile.experiences.push(experience);
    let mut plan = ResumePlan::new("job-1");
    plan.selected_experience_ids.push("experience-1".to_owned());
    plan.bullet_rewrites.push(BulletRewrite::new("achievement-1", "Shipped it."));
    assert!(plan.validate(&profile).is_ok());

    let mut later = Experience::new("experience-2", "Other Co", "Lead");
    let mut unverified = Achievement::new("achievement-1", "Same id, unverified.");
    unverified.verified = false;
    later.achievements.push(unverified);
    profile.experiences.push(later);
    assert!(plan.validate(&profile).is_ok());
}
