//! Location match: the same place, or two places of one region.

use crate::matching::MentorMatcher;
use crate::text::{contains_chars, is_substring, lowercase, names, to_chars, to_lowercase};
use vstd::prelude::*;
use vstd::string::*;

verus! {

/// The regions, each as the place names that stand for it, in the order
/// Africa, Europe, Asia, the Americas. A location lies in a region when it
/// holds one of the region's names.
pub open spec fn regions() -> Seq<Seq<Seq<char>>> {
    seq![
        seq!["nigeria"@, "kenya"@, "south africa"@, "ghana"@, "uganda"@],
        seq!["uk"@, "germany"@, "france"@, "spain"@, "italy"@],
        seq!["india"@, "china"@, "japan"@, "singapore"@],
        seq!["usa"@, "canada"@, "brazil"@, "mexico"@],
    ]
}

/// The texts of a table of place names.
pub open spec fn table(rows: Seq<Vec<&'static str>>) -> Seq<Seq<Seq<char>>> {
    rows.map_values(|row: Vec<&'static str>| names(row@))
}

/// A location in lower case holds one of the place names.
pub open spec fn in_region(location: Seq<char>, places: Seq<Seq<char>>) -> bool {
    exists|j: int| 0 <= j < places.len() && is_substring(location, #[trigger] places[j])
}

/// Two locations in lower case lie in one region.
pub open spec fn same_region(a: Seq<char>, b: Seq<char>) -> bool {
    exists|r: int|
        0 <= r < regions().len() && in_region(a, #[trigger] regions()[r]) && in_region(
            b,
            regions()[r],
        )
}

/// Two locations in lower case match: they read the same, or lie in one
/// region.
pub open spec fn location_match_lowered(a: Seq<char>, b: Seq<char>) -> bool {
    a == b || same_region(a, b)
}

/// Two locations match, whatever their case.
pub open spec fn location_match(a: Seq<char>, b: Seq<char>) -> bool {
    location_match_lowered(lowercase(a), lowercase(b))
}

/// The region table as data.
pub fn region_table() -> (rows: Vec<Vec<&'static str>>)
    ensures
        table(rows@) == regions(),
{
    let africa: Vec<&'static str> = vec!["nigeria", "kenya", "south africa", "ghana", "uganda"];
    let europe: Vec<&'static str> = vec!["uk", "germany", "france", "spain", "italy"];
    let asia: Vec<&'static str> = vec!["india", "china", "japan", "singapore"];
    let americas: Vec<&'static str> = vec!["usa", "canada", "brazil", "mexico"];
    proof {
        assert(names(africa@) =~= regions()[0]);
        assert(names(europe@) =~= regions()[1]);
        assert(names(asia@) =~= regions()[2]);
        assert(names(americas@) =~= regions()[3]);
    }
    let rows: Vec<Vec<&'static str>> = vec![africa, europe, asia, americas];
    assert(table(rows@) =~= regions());
    rows
}

/// Whether a location in lower case holds one of the place names.
pub fn lies_in(location: &Vec<char>, places: &Vec<&'static str>) -> (b: bool)
    ensures
        b == in_region(location@, names(places@)),
{
    let mut j: usize = 0;
    while j < places.len()
        invariant
            j <= places@.len(),
            forall|k: int| 0 <= k < j ==> !is_substring(location@, #[trigger] names(places@)[k]),
        decreases places@.len() - j,
    {
        let place: Vec<char> = to_chars(places[j]);
        if contains_chars(location, &place) {
            assert(is_substring(location@, names(places@)[j as int]));
            return true;
        }
        j = j + 1;
    }
    false
}

/// Whether two locations in lower case lie in one region.
pub fn same_region_lowered(a: &str, b: &str) -> (m: bool)
    ensures
        m == same_region(a@, b@),
{
    let first: Vec<char> = to_chars(a);
    let second: Vec<char> = to_chars(b);
    let rows: Vec<Vec<&'static str>> = region_table();
    let mut r: usize = 0;
    while r < rows.len()
        invariant
            r <= rows@.len(),
            table(rows@) == regions(),
            first@ == a@,
            second@ == b@,
            forall|k: int|
                0 <= k < r ==> !(in_region(a@, #[trigger] regions()[k]) && in_region(
                    b@,
                    regions()[k],
                )),
        decreases rows@.len() - r,
    {
        assert(table(rows@)[r as int] == names(rows@[r as int]@));
        if lies_in(&first, &rows[r]) && lies_in(&second, &rows[r]) {
            return true;
        }
        r = r + 1;
    }
    false
}

/// Whether two locations in lower case match.
pub fn location_match_of(a: &String, b: &String) -> (m: bool)
    ensures
        m == location_match_lowered(a@, b@),
{
    *a == *b || same_region_lowered(a.as_str(), b.as_str())
}

impl MentorMatcher {
    /// Whether two locations match, whatever their case.
    pub fn calculate_location_match(&self, learner_location: &str, mentor_location: &str) -> (m:
        bool)
        ensures
            m == location_match(learner_location@, mentor_location@),
    {
        let a: String = to_lowercase(learner_location);
        let b: String = to_lowercase(mentor_location);
        location_match_of(&a, &b)
    }

    /// Whether two locations lie in one region, whatever their case.
    pub fn is_same_region(&self, loc1: &str, loc2: &str) -> (m: bool)
        ensures
            m == same_region(lowercase(loc1@), lowercase(loc2@)),
    {
        let a: String = to_lowercase(loc1);
        let b: String = to_lowercase(loc2);
        same_region_lowered(a.as_str(), b.as_str())
    }
}

/// Matching does not depend on which location is named first.
pub proof fn lemma_location_match_symmetric(a: Seq<char>, b: Seq<char>)
    ensures
        same_region(a, b) == same_region(b, a),
        location_match_lowered(a, b) == location_match_lowered(b, a),
        location_match(a, b) == location_match(b, a),
{
    lemma_same_region_swap(a, b);
    lemma_same_region_swap(b, a);
    lemma_same_region_swap(lowercase(a), lowercase(b));
    lemma_same_region_swap(lowercase(b), lowercase(a));
}

/// Two locations of one region are so in either order.
proof fn lemma_same_region_swap(a: Seq<char>, b: Seq<char>)
    ensures
        same_region(a, b) ==> same_region(b, a),
{
    if same_region(a, b) {
        let r = choose|r: int|
            0 <= r < regions().len() && in_region(a, #[trigger] regions()[r]) && in_region(
                b,
                regions()[r],
            );
        assert(in_region(b, regions()[r]) && in_region(a, regions()[r]));
    }
}

} // verus!
