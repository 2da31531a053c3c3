use head_huntress::logic::profile::{Achievement, CandidateProfile, Experience};

#[test]
fn profile_can_find_nested_achievements() {
    let mut profile = CandidateProfile::new("Jane Doe");
    let mut experience = Experience::new("experience-1", "Example Co", "Engineer");
    experience
        .achievements
        .push(Achievement::new("achievement-1", "Improved reliability."));
    profile.experiences.push(experience);

    assert!(profile.has_experience("experience-1"));
    assert!(profile.has_achievement("achievement-1"));
    assert!(!profile.has_achievement("missing"));
}

#[test]
fn the_first_achievement_with_an_id_decides_verification() {
    let mut profile = CandidateProfile::new("Jane Doe");
    let mut first = Experience::new("e1", "A", "Engineer");
    let mut unverified = Achievement::new("shared", "Claim.");
    unverified.verified = false;
    first.achievements.push(unverified);
    let mut second = Experience::new("e2", "B", "Engineer");
    second.achievements.push(Achievement::new("shared", "Claim."));
    second.achievements.push(Achievement::new("other", "Claim."));
    profile.experiences.push(first);
    profile.experiences.push(second);

    assert_eq!(profile.is_achievement_verified("shared"), Some(false));
    assert_eq!(profile.is_achievement_verified("other"), Some(true));
    assert_eq!(profile.is_achievement_verified("none"), None);
    assert!(!profile.has_experience("e3"));
    assert!(profile.has_experience("e2"));
}

#[test]
fn new_profiles_and_achievements_start_empty_and_verified() {
    let profile = CandidateProfile::new("Jane");
    assert_eq!(profile.name, "Jane");
    assert!(profile.summary.is_none() && profile.experiences.is_empty() && profile.skills.is_empty());
    let a = Achievement::new("id", "text");
    assert!(a.verified && a.tags.is_empty());
    let e = Experience::new("x", "Co", "Dev");
    assert!(e.start_date.is_none() && e.end_date.is_none() && e.achievements.is_empty());
}

#[test]
fn achievements_are_found_in_any_experience() {
    let mut profile = CandidateProfile::new("Jane Doe");
    profile.experiences.push(Experience::new("empty", "A", "Intern"));
    let mut second = Experience::new("e2", "B", "Engineer");
    second.achievements.push(Achievement::new("a1", "One."));
    second.achievements.push(Achievement::new("a2", "Two."));
    profile.experiences.push(second);
    assert!(profile.has_achievement("a2"));
    assert!(profile.has_achievement("a1"));
    assert!(!profile.has_achievement("e2"));
}
