//! The sentence that explains a ranked candidate.

use crate::factors::tenths;
use crate::matching::MentorMatcher;
use crate::models::CompatibilityFactors;
use crate::ratio::Ratio;
use crate::text::{decimal, decimal_string, names};
use vstd::prelude::*;
use vstd::string::*;

verus! {

/// What the skill overlap earns: praise above 0.7, a mention above 0.4.
pub open spec fn skill_phrase(f: CompatibilityFactors) -> Seq<Seq<char>> {
    if tenths(7).lt(f.skill_overlap) {
        seq!["Excellent skill alignment"@]
    } else if tenths(4).lt(f.skill_overlap) {
        seq!["Good skill overlap"@]
    } else {
        Seq::empty()
    }
}

/// What a location match earns.
pub open spec fn location_phrase(f: CompatibilityFactors) -> Seq<Seq<char>> {
    if f.location_match {
        seq!["Location match"@]
    } else {
        Seq::empty()
    }
}

/// What an availability above 0.8 earns.
pub open spec fn availability_phrase(f: CompatibilityFactors) -> Seq<Seq<char>> {
    if tenths(8).lt(f.availability_match) {
        seq!["Availability compatibility"@]
    } else {
        Seq::empty()
    }
}

/// What an experience compatibility above 0.8 earns.
pub open spec fn experience_phrase(f: CompatibilityFactors) -> Seq<Seq<char>> {
    if tenths(8).lt(f.experience_compatibility) {
        seq!["Experience level match"@]
    } else {
        Seq::empty()
    }
}

/// The phrases that the factors earn, in their fixed order.
pub open spec fn phrases(f: CompatibilityFactors) -> Seq<Seq<char>> {
    skill_phrase(f) + location_phrase(f) + availability_phrase(f) + experience_phrase(f)
}

/// The parts, each two separated by `sep`.
pub open spec fn joined(parts: Seq<Seq<char>>, sep: Seq<char>) -> Seq<char>
    decreases parts.len(),
{
    if parts.len() == 0 {
        Seq::empty()
    } else if parts.len() == 1 {
        parts[0]
    } else {
        joined(parts.drop_last(), sep) + sep + parts.last()
    }
}

/// The sentence for a candidate of the given rank: the rank, then the
/// phrases earned, or a general remark where none is.
pub open spec fn reasoning_text(f: CompatibilityFactors, rank: nat) -> Seq<char> {
    if phrases(f).len() == 0 {
        "Rank "@ + decimal(rank) + " match based on overall compatibility"@
    } else {
        "Rank "@ + decimal(rank) + " match: "@ + joined(phrases(f), ", "@)
    }
}

/// Joins fixed wordings with a separator.
pub fn join(parts: &Vec<&'static str>, sep: &str) -> (s: String)
    ensures
        s@ == joined(names(parts@), sep@),
{
    let mut s: String = String::new();
    let mut i: usize = 0;
    while i < parts.len()
        invariant
            i <= parts@.len(),
            s@ == joined(names(parts@).subrange(0, i as int), sep@),
        decreases parts@.len() - i,
    {
        let ghost before = names(parts@).subrange(0, i as int);
        let ghost after = names(parts@).subrange(0, i + 1);
        proof {
            assert(after.drop_last() =~= before);
            assert(after.last() == parts@[i as int]@);
        }
        if i > 0 {
            s.append(sep);
        }
        s.append(parts[i]);
        proof {
            if i == 0 {
                assert(s@ =~= after[0]);
            }
        }
        i = i + 1;
    }
    assert(names(parts@).subrange(0, i as int) =~= names(parts@));
    s
}

impl MentorMatcher {
    /// Writes [`reasoning_text`].
    pub fn generate_reasoning(&self, factors: &CompatibilityFactors, rank: usize) -> (s: String)
        requires
            factors.skill_overlap.wf(),
            factors.availability_match.wf(),
            factors.experience_compatibility.wf(),
        ensures
            s@ == reasoning_text(*factors, rank as nat),
    {
        let seven: Ratio = Ratio::new(7, 10);
        let four: Ratio = Ratio::new(4, 10);
        let eight: Ratio = Ratio::new(8, 10);
        let mut reasons: Vec<&'static str> = Vec::new();
        if factors.skill_overlap.is_above(&seven) {
            reasons.push("Excellent skill alignment");
        } else if factors.skill_overlap.is_above(&four) {
            reasons.push("Good skill overlap");
        }
        assert(names(reasons@) =~= skill_phrase(*factors));
        let ghost first = reasons@;
        if factors.location_match {
            reasons.push("Location match");
        }
        assert(names(reasons@) =~= names(first) + location_phrase(*factors));
        let ghost second = reasons@;
        if factors.availability_match.is_above(&eight) {
            reasons.push("Availability compatibility");
        }
        assert(names(reasons@) =~= names(second) + availability_phrase(*factors));
        let ghost third = reasons@;
        if factors.experience_compatibility.is_above(&eight) {
            reasons.push("Experience level match");
        }
        assert(names(reasons@) =~= names(third) + experience_phrase(*factors));
        assert(names(reasons@) == phrases(*factors));
        let mut s: String = String::from_str("Rank ");
        let numeral: String = decimal_string(rank);
        s.append(numeral.as_str());
        if reasons.len() == 0 {
            s.append(" match based on overall compatibility");
        } else {
            s.append(" match: ");
            let listed: String = join(&reasons, ", ");
            s.append(listed.as_str());
        }
        s
    }
}

} // verus!
