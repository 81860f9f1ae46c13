//! The matcher: every candidate scored, the best of them listed.

use crate::factors::{
    availability_match, experience_compatibility, lowercase_all, teaching_style_match,
};
use crate::location::location_match;
use crate::models::{
    mentor_views, result_views, CompatibilityFactors, MatchResult, MatchResultView, Mentor,
    MentorView, User, UserView,
};
use crate::ranking::{is_ranking, least, lemma_ranking_sorted, lemma_ranking_unique, rank_top};
use crate::ratio::Ratio;
use crate::reasoning::reasoning_text;
use crate::score::{score_of, weighted_score};
use crate::skills::skill_overlap;
use crate::text::lowercase;
use rayon::iter::{IntoParallelRefIterator, ParallelIterator};
use vstd::prelude::*;
use vstd::string::*;

verus! {

/// Ranks mentor candidates for a learner.
pub struct MentorMatcher {
    algorithm_version: String,
}

/// The factors by which `mentor` suits `learner`.
pub open spec fn factors_of(learner: UserView, mentor: MentorView) -> CompatibilityFactors {
    CompatibilityFactors {
        skill_overlap: skill_overlap(learner.skills, mentor.expertise),
        location_match: location_match(learner.location, mentor.location),
        availability_match: availability_match(learner.availability, mentor.availability),
        experience_compatibility: experience_compatibility(
            lowercase(learner.experience_level),
            mentor.experience_years,
        ),
        teaching_style_match: teaching_style_match(
            lowercase(mentor.teaching_style),
            lowercase_all(learner.learning_goals),
        ),
    }
}

/// The score of each candidate, in the order they were named.
pub open spec fn scores_of(learner: UserView, mentors: Seq<MentorView>) -> Seq<Ratio> {
    Seq::new(mentors.len(), |i: int| score_of(factors_of(learner, mentors[i])))
}

/// How many candidates a caller who asks for `limit` gets at most: what was
/// asked for, but at least 1 and at most 20.
pub open spec fn effective_limit(limit: int) -> int {
    if limit < 1 {
        1
    } else if limit > 20 {
        20
    } else {
        limit
    }
}

/// What is said of `mentor` at the given rank: their identifier, their
/// score and factors, and the sentence for those factors and that rank.
pub open spec fn result_for(learner: UserView, mentor: MentorView, rank: nat) -> MatchResultView {
    MatchResultView {
        mentor_id: mentor.id,
        score: score_of(factors_of(learner, mentor)),
        reasoning: reasoning_text(factors_of(learner, mentor), rank),
        compatibility_factors: factors_of(learner, mentor),
    }
}

/// Every result holds well-formed factors and a score between 0 and 100.
pub open spec fn all_in_range(out: Seq<MatchResultView>) -> bool {
    forall|k: int|
        0 <= k < out.len() ==> {
            &&& (#[trigger] out[k]).compatibility_factors.wf()
            &&& out[k].score.wf()
            &&& out[k].score.num <= 100 * out[k].score.den
        }
}

/// `out` lists the candidates that `order` names, best first, each at its
/// rank counted from 1.
pub open spec fn is_listing(
    learner: UserView,
    mentors: Seq<MentorView>,
    order: Seq<usize>,
    out: Seq<MatchResultView>,
) -> bool {
    &&& is_ranking(scores_of(learner, mentors), order)
    &&& out.len() == order.len()
    &&& forall|k: int|
        0 <= k < out.len() ==> #[trigger] out[k] == result_for(
            learner,
            mentors[order[k] as int],
            (k + 1) as nat,
        )
}

/// Evaluates every candidate on rayon's thread pool: `par_iter` on the slice,
/// `map` with the evaluation of one candidate, `collect` into a vector.
///
/// Trusted: rayon hands each candidate to the closure once, and since the
/// parallel iterator of a slice knows its length, `collect` writes each
/// result at the place of its candidate, as a sequential `map` and `collect`
/// would. The closure is [`MentorMatcher::evaluate`], whose result is proved.
#[verifier::external_body]
fn evaluate_all(matcher: &MentorMatcher, learner: &User, mentors: &[Mentor]) -> (out: Vec<
    (Ratio, CompatibilityFactors),
>)
    ensures
        out@.len() == mentors@.len(),
        forall|i: int|
            0 <= i < mentors@.len() ==> #[trigger] out@[i] == (
                score_of(factors_of(learner@, mentors@[i]@)),
                factors_of(learner@, mentors@[i]@),
            ),
{
    mentors.par_iter().map(|mentor| matcher.evaluate(learner, mentor)).collect()
}

impl MentorMatcher {
    /// The version of the scoring rules.
    pub closed spec fn version(&self) -> Seq<char> {
        self.algorithm_version@
    }

    /// A matcher for version 1.0.0 of the scoring rules.
    pub fn new() -> (matcher: Self)
        ensures
            matcher.version() == "1.0.0"@,
    {
        MentorMatcher { algorithm_version: String::from_str("1.0.0") }
    }

    /// The version of the scoring rules, as text.
    pub fn algorithm_version(&self) -> (v: String)
        ensures
            v@ == self.version(),
    {
        self.algorithm_version.clone()
    }

    /// The five factors for one learner and one candidate.
    pub fn calculate_compatibility_factors(&self, learner: &User, mentor: &Mentor) -> (f:
        CompatibilityFactors)
        ensures
            f == factors_of(learner@, mentor@),
            f.wf(),
    {
        CompatibilityFactors {
            skill_overlap: self.calculate_skill_overlap(
                learner.skills.as_slice(),
                mentor.expertise.as_slice(),
            ),
            location_match: self.calculate_location_match(
                learner.location.as_str(),
                mentor.location.as_str(),
            ),
            availability_match: self.calculate_availability_match(
                learner.availability,
                mentor.availability,
            ),
            experience_compatibility: self.calculate_experience_compatibility(
                learner.experience_level.as_str(),
                mentor.experience_years,
            ),
            teaching_style_match: self.calculate_teaching_style_match(learner, mentor),
        }
    }

    /// The score of one candidate for one learner, between 0 and 100.
    pub fn calculate_compatibility_score(&self, learner: &User, mentor: &Mentor) -> (r: Ratio)
        ensures
            r == score_of(factors_of(learner@, mentor@)),
            r.wf(),
            r.num <= 100 * r.den,
    {
        let factors: CompatibilityFactors = self.calculate_compatibility_factors(learner, mentor);
        weighted_score(&factors)
    }

    /// The score and the factors of one candidate for one learner.
    pub fn evaluate(&self, learner: &User, mentor: &Mentor) -> (r: (Ratio, CompatibilityFactors))
        ensures
            r == (score_of(factors_of(learner@, mentor@)), factors_of(learner@, mentor@)),
            r.0.wf(),
            r.1.wf(),
    {
        let factors: CompatibilityFactors = self.calculate_compatibility_factors(learner, mentor);
        (weighted_score(&factors), factors)
    }

    /// Lists the best candidates for a learner, best first.
    ///
    /// As many are listed as `limit` asks for, but at least 1 and at most 20,
    /// and no more than there are. A candidate with a higher score comes
    /// first; of two with equal scores the one named first in `mentors`
    /// does. Each result holds the candidate's identifier, factors and score,
    /// and the sentence for its rank.
    pub fn find_matches(&self, learner: &User, mentors: &[Mentor], limit: usize) -> (out: Vec<
        MatchResult,
    >)
        ensures
            out@.len() == least(effective_limit(limit as int), mentors@.len() as int),
            out@.len() <= 20,
            exists|order: Seq<usize>|
                is_listing(learner@, mentor_views(mentors@), order, result_views(out@)),
            all_in_range(result_views(out@)),
    {
        let evaluated: Vec<(Ratio, CompatibilityFactors)> = evaluate_all(self, learner, mentors);
        let n: usize = mentors.len();
        let mut scores: Vec<Ratio> = Vec::with_capacity(n);
        let mut i: usize = 0;
        while i < n
            invariant
                n == mentors@.len(),
                n == evaluated@.len(),
                i <= n,
                scores@.len() == i,
                forall|j: int|
                    0 <= j < n ==> #[trigger] evaluated@[j] == (
                        score_of(factors_of(learner@, mentors@[j]@)),
                        factors_of(learner@, mentors@[j]@),
                    ),
                forall|j: int|
                    0 <= j < i ==> #[trigger] scores@[j] == score_of(
                        factors_of(learner@, mentors@[j]@),
                    ),
            decreases n - i,
        {
            scores.push(evaluated[i].0);
            i = i + 1;
        }
        assert(scores@ =~= scores_of(learner@, mentor_views(mentors@)));
        let take: usize = if limit < 1 {
            1
        } else if limit > 20 {
            20
        } else {
            limit
        };
        proof {
            assert forall|j: int| 0 <= j < scores@.len() implies (#[trigger] scores@[j]).wf() by {
                lemma_factors_wf(*learner, mentors@[j]);
                crate::score::lemma_score_in_range(factors_of(learner@, mentors@[j]@));
            }
        }
        let order: Vec<usize> = rank_top(&scores, take);
        let mut out: Vec<MatchResult> = Vec::with_capacity(order.len());
        let mut k: usize = 0;
        while k < order.len()
            invariant
                n == mentors@.len(),
                n == evaluated@.len(),
                scores@ == scores_of(learner@, mentor_views(mentors@)),
                is_ranking(scores@, order@),
                order@.len() <= 20,
                k <= order@.len(),
                out@.len() == k,
                forall|j: int|
                    0 <= j < n ==> #[trigger] evaluated@[j] == (
                        score_of(factors_of(learner@, mentors@[j]@)),
                        factors_of(learner@, mentors@[j]@),
                    ),
                forall|p: int|
                    0 <= p < k ==> (#[trigger] out@[p])@ == result_for(
                        learner@,
                        mentors@[order@[p] as int]@,
                        (p + 1) as nat,
                    ),
                all_in_range(result_views(out@)),
            decreases order@.len() - k,
        {
            let index: usize = order[k];
            let score: Ratio = evaluated[index].0;
            let factors: CompatibilityFactors = evaluated[index].1;
            proof {
                lemma_factors_wf(*learner, mentors@[index as int]);
                crate::score::lemma_score_in_range(factors);
            }
            let result: MatchResult = MatchResult {
                mentor_id: mentors[index].id,
                score,
                reasoning: self.generate_reasoning(&factors, k + 1),
                compatibility_factors: factors,
            };
            let ghost before = out@;
            out.push(result);
            assert(result_views(out@) =~= result_views(before).push(result@));
            k = k + 1;
        }
        assert(is_listing(learner@, mentor_views(mentors@), order@, result_views(out@)));
        out
    }
}

/// The factors of any learner and candidate are well formed.
pub proof fn lemma_factors_wf(learner: User, mentor: Mentor)
    ensures
        factors_of(learner@, mentor@).wf(),
{
    assert(learner.skills.len() == learner.skills@.len());
    assert(mentor.expertise.len() == mentor.expertise@.len());
    crate::skills::lemma_skill_overlap_is_unit(learner@.skills, mentor@.expertise);
    crate::skills::lemma_skill_overlap_den(learner@.skills, mentor@.expertise);
    crate::factors::lemma_availability_match(learner.availability, mentor.availability);
    crate::factors::lemma_experience_values(
        lowercase(learner@.experience_level),
        mentor@.experience_years,
    );
    crate::factors::lemma_teaching_style_values(
        lowercase(mentor@.teaching_style),
        lowercase_all(learner@.learning_goals),
    );
}

/// A listing is sorted: no result scores below one that follows it, and of
/// two results with equal scores the first speaks of the candidate named
/// first.
pub proof fn lemma_listing_sorted(
    learner: UserView,
    mentors: Seq<MentorView>,
    order: Seq<usize>,
    out: Seq<MatchResultView>,
    k1: int,
    k2: int,
)
    requires
        is_listing(learner, mentors, order, out),
        0 <= k1 < k2 < out.len(),
    ensures
        out[k2].score.le(out[k1].score),
        out[k2].score.same(out[k1].score) ==> order[k1] < order[k2],
{
    lemma_ranking_sorted(scores_of(learner, mentors), order, k1, k2);
}

/// Ranking is determined by its input: two listings of the same candidates
/// for the same learner, of the same length, name the same candidates in the
/// same order and are the same, letter for letter.
pub proof fn lemma_listing_unique(
    learner: UserView,
    mentors: Seq<MentorView>,
    order1: Seq<usize>,
    out1: Seq<MatchResultView>,
    order2: Seq<usize>,
    out2: Seq<MatchResultView>,
)
    requires
        is_listing(learner, mentors, order1, out1),
        is_listing(learner, mentors, order2, out2),
        out1.len() == out2.len(),
    ensures
        order1 == order2,
        out1 == out2,
{
    lemma_ranking_unique(scores_of(learner, mentors), order1, order2);
    assert(out1 =~= out2);
}

} // verus!
