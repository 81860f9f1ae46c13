//! The records that the matching engine reads and produces.

use crate::ratio::Ratio;
use uuid::Uuid;
use vstd::prelude::*;

verus! {

/// The identifier type `uuid::Uuid`. The engine never looks inside one: it
/// copies a candidate's identifier into the result that speaks of them.
#[verifier::external_type_specification]
#[verifier::external_body]
pub struct ExUuid(uuid::Uuid);

/// `Clone` for `uuid::Uuid`, which the crate derives on a `Copy` type of
/// sixteen bytes. Trusted: the clone is the identifier itself.
pub assume_specification[ <Uuid as Clone>::clone ](id: &Uuid) -> (r: Uuid)
    ensures
        r == *id,
;

/// The texts of a list of tags.
pub open spec fn tags(list: Seq<String>) -> Seq<Seq<char>> {
    list.map_values(|t: String| t@)
}

/// A learner as the engine reads them: texts and numbers.
pub struct UserView {
    pub id: Uuid,
    pub skills: Seq<Seq<char>>,
    pub learning_goals: Seq<Seq<char>>,
    pub location: Seq<char>,
    pub availability: int,
    pub experience_level: Seq<char>,
    pub preferred_languages: Seq<Seq<char>>,
}

/// A mentor candidate as the engine reads them: texts and numbers.
pub struct MentorView {
    pub id: Uuid,
    pub expertise: Seq<Seq<char>>,
    pub location: Seq<char>,
    pub availability: int,
    pub experience_years: int,
    pub rating: nat,
    pub hourly_rate: int,
    pub teaching_style: Seq<char>,
}

/// One ranked candidate, with the sentence as text.
pub struct MatchResultView {
    pub mentor_id: Uuid,
    pub score: Ratio,
    pub reasoning: Seq<char>,
    pub compatibility_factors: CompatibilityFactors,
}

/// A learner looking for a mentor.
#[derive(Debug, Clone)]
pub struct User {
    pub id: Uuid,
    pub skills: Vec<String>,
    pub learning_goals: Vec<String>,
    pub location: String,
    /// Hours per week.
    pub availability: i32,
    pub experience_level: String,
    pub preferred_languages: Vec<String>,
}

/// A mentor candidate.
#[derive(Debug, Clone)]
pub struct Mentor {
    pub id: Uuid,
    pub expertise: Vec<String>,
    pub location: String,
    /// Hours per week.
    pub availability: i32,
    pub experience_years: i32,
    /// In hundredths of a rating point.
    pub rating: u32,
    pub hourly_rate: i32,
    pub teaching_style: String,
}

impl View for User {
    type V = UserView;

    open spec fn view(&self) -> UserView {
        UserView {
            id: self.id,
            skills: tags(self.skills@),
            learning_goals: tags(self.learning_goals@),
            location: self.location@,
            availability: self.availability as int,
            experience_level: self.experience_level@,
            preferred_languages: tags(self.preferred_languages@),
        }
    }
}

impl View for Mentor {
    type V = MentorView;

    open spec fn view(&self) -> MentorView {
        MentorView {
            id: self.id,
            expertise: tags(self.expertise@),
            location: self.location@,
            availability: self.availability as int,
            experience_years: self.experience_years as int,
            rating: self.rating as nat,
            hourly_rate: self.hourly_rate as int,
            teaching_style: self.teaching_style@,
        }
    }
}

/// The candidates of a list as the engine reads them.
pub open spec fn mentor_views(list: Seq<Mentor>) -> Seq<MentorView> {
    list.map_values(|m: Mentor| m@)
}

/// The five factors by which one candidate suits one learner.
#[derive(Clone, Copy, Debug, PartialEq, Eq, Structural)]
pub struct CompatibilityFactors {
    pub skill_overlap: Ratio,
    pub location_match: bool,
    pub availability_match: Ratio,
    pub experience_compatibility: Ratio,
    pub teaching_style_match: Ratio,
}

impl CompatibilityFactors {
    /// Every numeric factor lies between 0 and 1.
    pub open spec fn valid(&self) -> bool {
        &&& self.skill_overlap.is_unit()
        &&& self.availability_match.is_unit()
        &&& self.experience_compatibility.is_unit()
        &&& self.teaching_style_match.is_unit()
    }

    /// The factors are valid, and each is written over a denominator small
    /// enough for the weighted sum to be exact in 128 bits: the overlap over
    /// the tags of two lists of 64-bit length, the availability over 32-bit
    /// hours, the two table factors over hundredths at most.
    pub open spec fn wf(&self) -> bool {
        &&& self.valid()
        &&& self.skill_overlap.den <= 2 * u64::MAX
        &&& self.availability_match.den <= u32::MAX
        &&& self.experience_compatibility.den <= 100
        &&& self.teaching_style_match.den <= 100
    }

    /// Whether the factors are well formed.
    pub fn is_wf(&self) -> (b: bool)
        ensures
            b == self.wf(),
    {
        let s: Ratio = self.skill_overlap;
        let a: Ratio = self.availability_match;
        let e: Ratio = self.experience_compatibility;
        let t: Ratio = self.teaching_style_match;
        let in_unit: bool = s.den > 0 && s.num <= s.den && a.den > 0 && a.num <= a.den && e.den > 0
            && e.num <= e.den && t.den > 0 && t.num <= t.den;
        let in_reach: bool = s.den <= 0x1_ffff_ffff_ffff_fffe && a.den <= 0xffff_ffff && e.den
            <= 100 && t.den <= 100;
        in_unit && in_reach
    }
}

/// One ranked candidate.
#[derive(Debug, Clone)]
pub struct MatchResult {
    pub mentor_id: Uuid,
    /// Between 0 and 100.
    pub score: Ratio,
    pub reasoning: String,
    pub compatibility_factors: CompatibilityFactors,
}

impl View for MatchResult {
    type V = MatchResultView;

    open spec fn view(&self) -> MatchResultView {
        MatchResultView {
            mentor_id: self.mentor_id,
            score: self.score,
            reasoning: self.reasoning@,
            compatibility_factors: self.compatibility_factors,
        }
    }
}

/// The results of a list, each with its sentence as text.
pub open spec fn result_views(list: Seq<MatchResult>) -> Seq<MatchResultView> {
    list.map_values(|r: MatchResult| r@)
}

/// A request to rank candidates for one learner.
#[derive(Debug, Clone)]
pub struct MatchingRequest {
    pub learner: User,
    pub mentors: Vec<Mentor>,
    pub limit: Option<usize>,
}

} // verus!
