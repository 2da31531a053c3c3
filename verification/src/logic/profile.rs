//! Candidate profile data used for job evaluation and resume planning.
use crate::text::{str_eq, string_of};
use vstd::prelude::*;

verus! {

/// A candidate's reusable source of truth for job matching and resume generation.
#[derive(Debug, Clone, PartialEq, Eq)]
pub struct CandidateProfile {
    /// The candidate's name.
    pub name: String,
    /// A general-purpose professional summary, when available.
    pub summary: Option<String>,
    /// The candidate's professional experience.
    pub experiences: Vec<Experience>,
    /// Skills that may be selected for a job-specific resume.
    pub skills: Vec<String>,
}

/// Whether some experience has the identifier `id`.
pub open spec fn experience_present(es: Seq<Experience>, id: Seq<char>) -> bool {
    exists|i: int| 0 <= i < es.len() && (#[trigger] es[i]).id@ == id
}

/// Every achievement of every experience, in order.
pub open spec fn all_achievements(es: Seq<Experience>) -> Seq<Achievement>
    decreases es.len(),
{
    if es.len() == 0 {
        Seq::empty()
    } else {
        all_achievements(es.drop_last()) + es.last().achievements@
    }
}

/// Index of the first achievement at or after `i` with identifier `id`.
pub open spec fn find_achievement(achs: Seq<Achievement>, id: Seq<char>, i: int) -> Option<int>
    decreases achs.len() - i,
{
    if i < 0 || i >= achs.len() {
        None
    } else if achs[i].id@ == id {
        Some(i)
    } else {
        find_achievement(achs, id, i + 1)
    }
}

/// Whether some achievement of the profile has the identifier `id`.
pub open spec fn achievement_present(es: Seq<Experience>, id: Seq<char>) -> bool {
    exists|i: int| 0 <= i < all_achievements(es).len() && (#[trigger] all_achievements(es)[i]).id@ == id
}

/// The verification flag of the first achievement with identifier `id`, if any.
pub open spec fn achievement_status(es: Seq<Experience>, id: Seq<char>) -> Option<bool> {
    match find_achievement(all_achievements(es), id, 0) {
        Some(k) => Some(all_achievements(es)[k].verified),
        None => None,
    }
}

/// `find_achievement` from `i` finds a match exactly when one exists at or after `i`.
proof fn lemma_find_achievement(achs: Seq<Achievement>, id: Seq<char>, i: int)
    requires
        0 <= i <= achs.len(),
    ensures
        (find_achievement(achs, id, i) is Some) == (exists|k: int| i <= k < achs.len() && (#[trigger] achs[k]).id@ == id),
        find_achievement(achs, id, i) matches Some(k) ==> i <= k < achs.len() && achs[k].id@ == id,
    decreases achs.len() - i,
{
    if i < achs.len() {
        lemma_find_achievement(achs, id, i + 1);
    }
}

impl CandidateProfile {
    /// Creates an empty profile for the supplied candidate name.
    pub fn new(name: &str) -> (r: Self)
        ensures
            r.name@ == name@,
            r.summary is None,
            r.experiences@.len() == 0,
            r.skills@.len() == 0,
    {
        CandidateProfile {
            name: string_of(name),
            summary: None,
            experiences: Vec::new(),
            skills: Vec::new(),
        }
    }

    /// Returns whether the profile contains an experience with the given ID.
    pub fn has_experience(&self, experience_id: &str) -> (b: bool)
        ensures
            b == experience_present(self.experiences@, experience_id@),
    {
        let mut i: usize = 0;
        while i < self.experiences.len()
            invariant
                i <= self.experiences.len(),
                forall|k: int| 0 <= k < i ==> (#[trigger] self.experiences@[k]).id@ != experience_id@,
            decreases self.experiences.len() - i,
        {
            if str_eq(self.experiences[i].id.as_str(), experience_id) {
                assert(self.experiences@[i as int].id@ == experience_id@);
                return true;
            }
            i = i + 1;
        }
        false
    }

    /// Finds the first achievement with the given ID, searching experiences in order.
    fn find_achievement_flag(&self, achievement_id: &str) -> (r: Option<bool>)
        ensures
            r == achievement_status(self.experiences@, achievement_id@),
    {
        let ghost es = self.experiences@;
        let ghost id = achievement_id@;
        let mut i: usize = 0;
        while i < self.experiences.len()
            invariant
                es == self.experiences@,
                id == achievement_id@,
                i <= es.len(),
                es.take(i as int).len() == i,
                find_achievement(all_achievements(es.take(i as int)), id, 0) is None,
            decreases es.len() - i,
        {
            let achs = &self.experiences[i].achievements;
            let ghost prefix = all_achievements(es.take(i as int));
            proof {
                assert(es.take(i + 1).drop_last() == es.take(i as int));
                assert(all_achievements(es.take(i + 1)) == prefix + achs@);
                lemma_find_achievement(prefix, id, 0);
            }
            let mut j: usize = 0;
            while j < achs.len()
                invariant
                    es == self.experiences@,
                    id == achievement_id@,
                    i < es.len(),
                    achs == &self.experiences@[i as int].achievements,
                    prefix == all_achievements(es.take(i as int)),
                    all_achievements(es.take(i + 1)) == prefix + achs@,
                    forall|k: int| 0 <= k < prefix.len() ==> (#[trigger] prefix[k]).id@ != id,
                    j <= achs.len(),
                    forall|k: int| 0 <= k < j ==> (#[trigger] achs@[k]).id@ != id,
                decreases achs.len() - j,
            {
                if str_eq(achs[j].id.as_str(), achievement_id) {
                    proof {
                        let all = all_achievements(es.take(i + 1));
                        let pos = prefix.len() + j;
                        assert(all[pos] == achs@[j as int]);
                        assert forall|k: int| 0 <= k < pos implies (#[trigger] all[k]).id@ != id by {
                            if k < prefix.len() {
                                assert(all[k] == prefix[k]);
                            } else {
                                assert(all[k] == achs@[k - prefix.len()]);
                            }
                        }
                        lemma_find_prefix_free(all, id, pos);
                        lemma_all_achievements_prefix(es, i + 1);
                        lemma_find_extends(all, all_achievements(es), id, pos);
                    }
                    return Some(achs[j].verified);
                }
                j = j + 1;
            }
            proof {
                let all = all_achievements(es.take(i + 1));
                assert forall|k: int| 0 <= k < all.len() implies (#[trigger] all[k]).id@ != id by {
                    if k < prefix.len() {
                        assert(all[k] == prefix[k]);
                    } else {
                        assert(all[k] == achs@[k - prefix.len()]);
                    }
                }
                lemma_find_achievement(all, id, 0);
            }
            i = i + 1;
        }
        proof {
            assert(es.take(es.len() as int) == es);
        }
        None
    }

    /// Returns whether the profile contains an achievement with the given ID.
    pub fn has_achievement(&self, achievement_id: &str) -> (b: bool)
        ensures
            b == achievement_present(self.experiences@, achievement_id@),
    {
        let r = self.find_achievement_flag(achievement_id);
        proof {
            lemma_find_achievement(all_achievements(self.experiences@), achievement_id@, 0);
        }
        r.is_some()
    }

    /// Returns whether an achievement exists and is marked as verified.
    ///
    /// When several achievements share the ID, the first one (in experience
    /// order, then achievement order) decides.
    pub fn is_achievement_verified(&self, achievement_id: &str) -> (r: Option<bool>)
        ensures
            r == achievement_status(self.experiences@, achievement_id@),
    {
        self.find_achievement_flag(achievement_id)
    }
}

/// If no achievement in `i..pos` has the id and the one at `pos` does, the search from `i` finds `pos`.
proof fn lemma_find_from(achs: Seq<Achievement>, id: Seq<char>, i: int, pos: int)
    requires
        0 <= i <= pos < achs.len(),
        achs[pos].id@ == id,
        forall|k: int| i <= k < pos ==> (#[trigger] achs[k]).id@ != id,
    ensures
        find_achievement(achs, id, i) == Some(pos),
    decreases pos - i,
{
    if i < pos {
        lemma_find_from(achs, id, i + 1, pos);
    }
}

/// If no achievement before `pos` has the id and the one at `pos` does, the search finds `pos`.
proof fn lemma_find_prefix_free(achs: Seq<Achievement>, id: Seq<char>, pos: int)
    requires
        0 <= pos < achs.len(),
        achs[pos].id@ == id,
        forall|k: int| 0 <= k < pos ==> (#[trigger] achs[k]).id@ != id,
    ensures
        find_achievement(achs, id, 0) == Some(pos),
{
    lemma_find_from(achs, id, 0, pos);
}

/// The achievements of the first `n` experiences are a prefix of all achievements.
proof fn lemma_all_achievements_prefix(es: Seq<Experience>, n: int)
    requires
        0 <= n <= es.len(),
    ensures
        all_achievements(es.take(n)).len() <= all_achievements(es).len(),
        forall|k: int| 0 <= k < all_achievements(es.take(n)).len() ==> all_achievements(es)[k] == #[trigger] all_achievements(es.take(n))[k],
    decreases es.len(),
{
    if n < es.len() {
        lemma_all_achievements_prefix(es.drop_last(), n);
        assert(es.drop_last().take(n) == es.take(n));
    } else {
        assert(es.take(n) == es);
    }
}

/// A search whose match lies in a prefix gives the same answer on the whole sequence.
proof fn lemma_find_extends(pre: Seq<Achievement>, all: Seq<Achievement>, id: Seq<char>, pos: int)
    requires
        pre.len() <= all.len(),
        forall|k: int| 0 <= k < pre.len() ==> all[k] == #[trigger] pre[k],
        find_achievement(pre, id, 0) == Some(pos),
    ensures
        find_achievement(all, id, 0) == Some(pos),
{
    lemma_find_achievement(pre, id, 0);
    assert forall|k: int| 0 <= k < pos implies (#[trigger] all[k]).id@ != id by {
        assert(all[k] == pre[k]);
        lemma_find_first(pre, id, 0, k);
    }
    assert(all[pos] == pre[pos]);
    lemma_find_prefix_free(all, id, pos);
}

/// No position before the found index has the id.
proof fn lemma_find_first(achs: Seq<Achievement>, id: Seq<char>, i: int, k: int)
    requires
        0 <= i <= k,
        find_achievement(achs, id, i) matches Some(p) && k < p,
    ensures
        achs[k].id@ != id,
    decreases k - i,
{
    if i < k {
        lemma_find_first(achs, id, i + 1, k);
    }
}

/// A position held by the candidate.
#[derive(Debug, Clone, PartialEq, Eq)]
pub struct Experience {
    /// Stable identifier used to reference this experience from a resume plan.
    pub id: String,
    /// The employer or organization.
    pub company: String,
    /// The title held by the candidate.
    pub title: String,
    /// The beginning of the experience, represented in the profile's chosen format.
    pub start_date: Option<String>,
    /// The end of the experience, or `None` for a current position.
    pub end_date: Option<String>,
    /// Verifiable accomplishments from this experience.
    pub achievements: Vec<Achievement>,
}

impl Experience {
    /// Creates an experience with no achievements or dates.
    pub fn new(id: &str, company: &str, title: &str) -> (r: Self)
        ensures
            r.id@ == id@,
            r.company@ == company@,
            r.title@ == title@,
            r.start_date is None,
            r.end_date is None,
            r.achievements@.len() == 0,
    {
        Experience {
            id: string_of(id),
            company: string_of(company),
            title: string_of(title),
            start_date: None,
            end_date: None,
            achievements: Vec::new(),
        }
    }
}

/// A verifiable accomplishment that may be used in a tailored resume.
#[derive(Debug, Clone, PartialEq, Eq)]
pub struct Achievement {
    /// Stable identifier used to preserve provenance in generated documents.
    pub id: String,
    /// The source text describing what the candidate did.
    pub text: String,
    /// Skills or concepts demonstrated by the accomplishment.
    pub tags: Vec<String>,
    /// Whether the candidate has verified this claim.
    pub verified: bool,
}

impl Achievement {
    /// Creates a verified achievement from source text.
    pub fn new(id: &str, text: &str) -> (r: Self)
        ensures
            r.id@ == id@,
            r.text@ == text@,
            r.tags@.len() == 0,
            r.verified,
    {
        Achievement { id: string_of(id), text: string_of(text), tags: Vec::new(), verified: true }
    }
}

/// An achievement is present in a profile exactly when its verification
/// status is known.
pub proof fn law_achievement_present_iff_status_known(profile: CandidateProfile, id: Seq<char>)
    ensures
        achievement_present(profile.experiences@, id) == (achievement_status(profile.experiences@, id) is Some),
{
    lemma_find_achievement(all_achievements(profile.experiences@), id, 0);
}

/// The achievements of `es` are a prefix of those of `es + ms`.
proof fn lemma_all_achievements_append(es: Seq<Experience>, ms: Seq<Experience>)
    ensures
        all_achievements(es).len() <= all_achievements(es + ms).len(),
        forall|k: int| 0 <= k < all_achievements(es).len() ==> all_achievements(es + ms)[k] == #[trigger] all_achievements(es)[k],
    decreases ms.len(),
{
    if ms.len() == 0 {
        assert(es + ms == es);
    } else {
        lemma_all_achievements_append(es, ms.drop_last());
        assert((es + ms).drop_last() == es + ms.drop_last());
        assert((es + ms).last() == ms.last());
    }
}

/// Experiences appended to a profile keep every known achievement status:
/// a search that succeeds on the original profile gives the same answer.
pub proof fn lemma_status_kept_by_append(es: Seq<Experience>, ms: Seq<Experience>, id: Seq<char>)
    requires
        achievement_status(es, id) is Some,
    ensures
        achievement_status(es + ms, id) == achievement_status(es, id),
{
    let pos = find_achievement(all_achievements(es), id, 0)->0;
    lemma_all_achievements_append(es, ms);
    lemma_find_achievement(all_achievements(es), id, 0);
    lemma_find_extends(all_achievements(es), all_achievements(es + ms), id, pos);
}

/// An achievement is present in a profile exactly when some experience has
/// an achievement with that id.
pub proof fn law_achievement_present_iff_some_experience_has_it(es: Seq<Experience>, id: Seq<char>)
    ensures
        achievement_present(es, id) == exists|i: int, j: int|
            0 <= i < es.len() && 0 <= j < es[i].achievements@.len()
                && (#[trigger] es[i].achievements@[j]).id@ == id,
    decreases es.len(),
{
    if es.len() > 0 {
        let front = es.drop_last();
        let last = es.last().achievements@;
        let all = all_achievements(es);
        let pre = all_achievements(front);
        law_achievement_present_iff_some_experience_has_it(front, id);
        assert(all == pre + last);
        if achievement_present(es, id) {
            let k = choose|k: int| 0 <= k < all.len() && (#[trigger] all[k]).id@ == id;
            if k < pre.len() {
                assert(all[k] == pre[k]);
                assert(achievement_present(front, id));
                let (i, j) = choose|i: int, j: int|
                    0 <= i < front.len() && 0 <= j < front[i].achievements@.len()
                        && (#[trigger] front[i].achievements@[j]).id@ == id;
                assert(es[i] == front[i]);
                assert(es[i].achievements@[j].id@ == id);
            } else {
                assert(all[k] == last[k - pre.len()]);
                assert(es[es.len() - 1].achievements@[k - pre.len()].id@ == id);
            }
        }
        if exists|i: int, j: int|
            0 <= i < es.len() && 0 <= j < es[i].achievements@.len()
                && (#[trigger] es[i].achievements@[j]).id@ == id {
            let (i, j) = choose|i: int, j: int|
                0 <= i < es.len() && 0 <= j < es[i].achievements@.len()
                    && (#[trigger] es[i].achievements@[j]).id@ == id;
            if i < es.len() - 1 {
                assert(front[i] == es[i]);
                assert(front[i].achievements@[j].id@ == id);
                let k = choose|k: int| 0 <= k < pre.len() && (#[trigger] pre[k]).id@ == id;
                assert(all[k] == pre[k]);
            } else {
                assert(all[pre.len() + j] == last[j]);
            }
        }
    }
}

} // verus!
