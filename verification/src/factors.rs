//! The factors that are read off a table: availability, experience and
//! teaching style.

use crate::matching::MentorMatcher;
use crate::models::{tags, Mentor, User};
use crate::ratio::Ratio;
use crate::text::{contains_chars, is_substring, lowercase, to_chars, to_lowercase};
use vstd::prelude::*;
use vstd::string::*;

verus! {

/// `n / 10`.
pub open spec fn tenths(n: int) -> Ratio {
    Ratio { num: n as u128, den: 10 }
}

/// `n / 100`.
pub open spec fn hundredths(n: int) -> Ratio {
    Ratio { num: n as u128, den: 100 }
}

/// The size of a number of hours, whatever its sign.
pub open spec fn magnitude(hours: int) -> int {
    if hours < 0 {
        -hours
    } else {
        hours
    }
}

/// The learner's hours divided by the mentor's are at most 1.
pub open spec fn within_capacity(learner_hours: int, mentor_hours: int) -> bool {
    ||| mentor_hours > 0 && learner_hours <= mentor_hours
    ||| mentor_hours < 0 && learner_hours >= mentor_hours
}

/// How well a mentor's weekly hours cover a learner's.
///
/// Nothing for a mentor without hours; 1 when the mentor has the hours the
/// learner asks for; otherwise the share of the learner's hours that the
/// mentor has, but no less than a tenth.
pub open spec fn availability_match(learner_hours: int, mentor_hours: int) -> Ratio {
    if mentor_hours == 0 {
        Ratio { num: 0, den: 1 }
    } else if within_capacity(learner_hours, mentor_hours) {
        Ratio { num: 1, den: 1 }
    } else if 10 * magnitude(mentor_hours) >= magnitude(learner_hours) {
        Ratio { num: magnitude(mentor_hours) as u128, den: magnitude(learner_hours) as u128 }
    } else {
        tenths(1)
    }
}

/// How well a mentor's years of experience suit a learner's level, given in
/// lower case.
pub open spec fn experience_compatibility(level: Seq<char>, mentor_years: int) -> Ratio {
    if level == "beginner"@ {
        if mentor_years >= 2 {
            tenths(10)
        } else {
            tenths(7)
        }
    } else if level == "intermediate"@ {
        if mentor_years >= 3 {
            tenths(10)
        } else if mentor_years >= 1 {
            tenths(8)
        } else {
            tenths(5)
        }
    } else if level == "advanced"@ {
        if mentor_years >= 5 {
            tenths(10)
        } else if mentor_years >= 3 {
            tenths(8)
        } else {
            tenths(6)
        }
    } else {
        tenths(5)
    }
}

/// One of the goals, given in lower case, speaks of a project.
pub open spec fn mentions_project(goals: Seq<Seq<char>>) -> bool {
    exists|i: int| 0 <= i < goals.len() && is_substring(#[trigger] goals[i], "project"@)
}

/// How well a mentor's teaching style suits a learner's goals, both given in
/// lower case.
pub open spec fn teaching_style_match(style: Seq<char>, goals: Seq<Seq<char>>) -> Ratio {
    if style == "structured"@ {
        hundredths(90)
    } else if style == "flexible"@ {
        hundredths(80)
    } else if style == "hands-on"@ {
        if mentions_project(goals) {
            hundredths(95)
        } else {
            hundredths(70)
        }
    } else {
        hundredths(60)
    }
}

/// The size of a number of hours.
fn hours_magnitude(hours: i32) -> (m: u128)
    ensures
        m == magnitude(hours as int),
        m <= 0x8000_0000,
{
    if hours < 0 {
        (-(hours as i64)) as u128
    } else {
        hours as u128
    }
}

impl MentorMatcher {
    /// Computes [`availability_match`].
    pub fn calculate_availability_match(&self, learner_hours: i32, mentor_hours: i32) -> (r: Ratio)
        ensures
            r == availability_match(learner_hours as int, mentor_hours as int),
            r.is_unit(),
            r.den <= u32::MAX,
            r.num == 0 <==> mentor_hours == 0,
            0 < mentor_hours && learner_hours <= mentor_hours ==> r.num == r.den,
    {
        if mentor_hours == 0 {
            return Ratio::new(0, 1);
        }
        if (mentor_hours > 0 && learner_hours <= mentor_hours) || (mentor_hours < 0 && learner_hours
            >= mentor_hours) {
            return Ratio::new(1, 1);
        }
        let have: u128 = hours_magnitude(mentor_hours);
        let want: u128 = hours_magnitude(learner_hours);
        if 10 * have >= want {
            Ratio::new(have, want)
        } else {
            Ratio::new(1, 10)
        }
    }

    /// Computes [`experience_compatibility`], whatever the case the level is
    /// written in.
    pub fn calculate_experience_compatibility(&self, learner_level: &str, mentor_years: i32) -> (r:
        Ratio)
        ensures
            r == experience_compatibility(lowercase(learner_level@), mentor_years as int),
            r.is_unit(),
            r.den <= 100,
    {
        let level: String = to_lowercase(learner_level);
        experience_factor(&level, mentor_years)
    }

    /// Computes [`teaching_style_match`], whatever the case the style and the
    /// goals are written in.
    pub fn calculate_teaching_style_match(&self, learner: &User, mentor: &Mentor) -> (r: Ratio)
        ensures
            r == teaching_style_match(
                lowercase(mentor@.teaching_style),
                lowercase_all(learner@.learning_goals),
            ),
            r.is_unit(),
            r.den <= 100,
    {
        let style: String = to_lowercase(mentor.teaching_style.as_str());
        let goals: Vec<String> = lowercase_each(&learner.learning_goals);
        teaching_style_factor(&style, &goals)
    }
}

/// Each text of a list in lower case.
pub open spec fn lowercase_all(list: Seq<Seq<char>>) -> Seq<Seq<char>> {
    list.map_values(|t: Seq<char>| lowercase(t))
}

/// Puts each text of a list in lower case.
pub fn lowercase_each(list: &Vec<String>) -> (lowered: Vec<String>)
    ensures
        tags(lowered@) == lowercase_all(tags(list@)),
{
    let mut lowered: Vec<String> = Vec::with_capacity(list.len());
    let mut i: usize = 0;
    while i < list.len()
        invariant
            i <= list@.len(),
            lowered@.len() == i,
            forall|j: int| 0 <= j < i ==> (#[trigger] lowered@[j])@ == lowercase(list@[j]@),
        decreases list@.len() - i,
    {
        lowered.push(to_lowercase(list[i].as_str()));
        i = i + 1;
    }
    assert(tags(lowered@) =~= lowercase_all(tags(list@)));
    lowered
}

/// Whether a text reads exactly as `word`.
pub fn text_is(s: &String, word: &str) -> (b: bool)
    ensures
        b == (s@ == word@),
{
    let w: String = String::from_str(word);
    *s == w
}

/// Computes [`experience_compatibility`] for a level given in lower case.
pub fn experience_factor(level: &String, mentor_years: i32) -> (r: Ratio)
    ensures
        r == experience_compatibility(level@, mentor_years as int),
        r.is_unit(),
        r.den <= 100,
{
    if text_is(level, "beginner") {
        if mentor_years >= 2 {
            Ratio::new(10, 10)
        } else {
            Ratio::new(7, 10)
        }
    } else if text_is(level, "intermediate") {
        if mentor_years >= 3 {
            Ratio::new(10, 10)
        } else if mentor_years >= 1 {
            Ratio::new(8, 10)
        } else {
            Ratio::new(5, 10)
        }
    } else if text_is(level, "advanced") {
        if mentor_years >= 5 {
            Ratio::new(10, 10)
        } else if mentor_years >= 3 {
            Ratio::new(8, 10)
        } else {
            Ratio::new(6, 10)
        }
    } else {
        Ratio::new(5, 10)
    }
}

/// Whether one of the goals, given in lower case, speaks of a project.
pub fn any_mentions_project(goals: &Vec<String>) -> (b: bool)
    ensures
        b == mentions_project(tags(goals@)),
{
    let word: Vec<char> = to_chars("project");
    let ghost texts = tags(goals@);
    let mut i: usize = 0;
    while i < goals.len()
        invariant
            i <= goals@.len(),
            word@ == "project"@,
            texts == tags(goals@),
            forall|j: int| 0 <= j < i ==> !is_substring(#[trigger] texts[j], "project"@),
        decreases goals@.len() - i,
    {
        let goal: Vec<char> = to_chars(goals[i].as_str());
        if contains_chars(&goal, &word) {
            assert(is_substring(texts[i as int], "project"@));
            return true;
        }
        i = i + 1;
    }
    false
}

/// Computes [`teaching_style_match`] for a style and goals given in lower
/// case.
pub fn teaching_style_factor(style: &String, goals: &Vec<String>) -> (r: Ratio)
    ensures
        r == teaching_style_match(style@, tags(goals@)),
        r.is_unit(),
        r.den <= 100,
{
    if text_is(style, "structured") {
        Ratio::new(90, 100)
    } else if text_is(style, "flexible") {
        Ratio::new(80, 100)
    } else if text_is(style, "hands-on") {
        if any_mentions_project(goals) {
            Ratio::new(95, 100)
        } else {
            Ratio::new(70, 100)
        }
    } else {
        Ratio::new(60, 100)
    }
}

/// The availability factor lies between 0 and 1; it is 0 exactly for a
/// mentor without hours, never below a tenth for any other, and 1 whenever
/// the learner asks for no more hours than a mentor with hours has.
pub proof fn lemma_availability_match(learner_hours: i32, mentor_hours: i32)
    ensures
        availability_match(learner_hours as int, mentor_hours as int).is_unit(),
        availability_match(learner_hours as int, mentor_hours as int).num == 0 <==> mentor_hours
            == 0,
        mentor_hours != 0 ==> tenths(1).le(
            availability_match(learner_hours as int, mentor_hours as int),
        ),
        0 < mentor_hours && learner_hours <= mentor_hours ==> availability_match(
            learner_hours as int,
            mentor_hours as int,
        ) == (Ratio { num: 1, den: 1 }),
{
    let r = availability_match(learner_hours as int, mentor_hours as int);
    let have = magnitude(mentor_hours as int);
    let want = magnitude(learner_hours as int);
    if mentor_hours != 0 && !within_capacity(learner_hours as int, mentor_hours as int) {
        assert(0 < have < want);
        if 10 * have >= want {
            assert(r.num == have && r.den == want);
            assert(1 * r.den <= r.num * 10);
        }
    }
}

/// The experience factor is one of 1.0, 0.8, 0.7, 0.6 and 0.5, whatever the
/// level and the years.
pub proof fn lemma_experience_values(level: Seq<char>, mentor_years: int)
    ensures
        ({
            let r = experience_compatibility(level, mentor_years);
            r == tenths(10) || r == tenths(8) || r == tenths(7) || r == tenths(6) || r == tenths(5)
        }),
{
}

/// The teaching-style factor is one of 0.95, 0.9, 0.8, 0.7 and 0.6, whatever
/// the style and the goals.
pub proof fn lemma_teaching_style_values(style: Seq<char>, goals: Seq<Seq<char>>)
    ensures
        ({
            let r = teaching_style_match(style, goals);
            r == hundredths(95) || r == hundredths(90) || r == hundredths(80) || r == hundredths(70)
                || r == hundredths(60)
        }),
{
}

} // verus!
