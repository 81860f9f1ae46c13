//! Skill overlap: how much of what a learner and a mentor know is shared.

use crate::matching::MentorMatcher;
use crate::models::tags;
use crate::ratio::Ratio;
use vstd::prelude::*;

verus! {

/// The Jaccard similarity of two tag lists read as sets: the number of tags
/// in both, over the number of tags in either. Nothing when a list is empty.
/// Tags are compared letter for letter.
pub open spec fn skill_overlap(learner: Seq<Seq<char>>, mentor: Seq<Seq<char>>) -> Ratio {
    if learner.len() == 0 || mentor.len() == 0 {
        Ratio { num: 0, den: 1 }
    } else {
        Ratio {
            num: learner.to_set().intersect(mentor.to_set()).len() as u128,
            den: learner.to_set().union(mentor.to_set()).len() as u128,
        }
    }
}

/// The texts of a list of borrowed tags.
pub open spec fn ref_tags(list: Seq<&String>) -> Seq<Seq<char>> {
    list.map_values(|t: &String| t@)
}

/// Whether `tag` is among the tags collected in `seen`.
fn is_listed(seen: &Vec<&String>, tag: &String) -> (b: bool)
    ensures
        b == ref_tags(seen@).contains(tag@),
{
    let mut i: usize = 0;
    while i < seen.len()
        invariant
            i <= seen@.len(),
            forall|j: int| 0 <= j < i ==> ref_tags(seen@)[j] != tag@,
        decreases seen@.len() - i,
    {
        let other: &String = seen[i];
        if *other == *tag {
            assert(ref_tags(seen@)[i as int] == tag@);
            return true;
        }
        i = i + 1;
    }
    false
}

/// Whether `tag` is among the tags of `list`.
fn is_among(list: &[String], tag: &String) -> (b: bool)
    ensures
        b == tags(list@).contains(tag@),
{
    let mut i: usize = 0;
    while i < list.len()
        invariant
            i <= list@.len(),
            forall|j: int| 0 <= j < i ==> tags(list@)[j] != tag@,
        decreases list@.len() - i,
    {
        if list[i] == *tag {
            assert(tags(list@)[i as int] == tag@);
            return true;
        }
        i = i + 1;
    }
    false
}

/// Appends to `seen` each tag of `list` that it does not hold yet, once.
fn add_distinct<'a>(seen: &mut Vec<&'a String>, list: &'a [String])
    requires
        ref_tags(old(seen)@).no_duplicates(),
    ensures
        ref_tags(final(seen)@).no_duplicates(),
        old(seen)@.len() <= final(seen)@.len(),
        final(seen)@.subrange(0, old(seen)@.len() as int) == old(seen)@,
        forall|t: Seq<char>|
            #![trigger ref_tags(final(seen)@).contains(t)]
            #![trigger ref_tags(old(seen)@).contains(t)]
            #![trigger tags(list@).contains(t)]
            ref_tags(final(seen)@).contains(t) <==> ref_tags(old(seen)@).contains(t) || tags(
                list@,
            ).contains(t),
{
    let ghost before = ref_tags(seen@);
    let ghost added = tags(list@);
    let mut i: usize = 0;
    while i < list.len()
        invariant
            i <= list@.len(),
            before == ref_tags(old(seen)@),
            added == tags(list@),
            ref_tags(seen@).no_duplicates(),
            old(seen)@.len() <= seen@.len(),
            seen@.subrange(0, old(seen)@.len() as int) == old(seen)@,
            forall|j: int| 0 <= j < i ==> ref_tags(seen@).contains(#[trigger] added[j]),
            forall|p: int|
                0 <= p < seen@.len() ==> before.contains(#[trigger] ref_tags(seen@)[p]) || (exists|
                    j: int,
                |
                    0 <= j < i && added[j] == ref_tags(seen@)[p]),
        decreases list@.len() - i,
    {
        let tag: &'a String = &list[i];
        let ghost prior = seen@;
        if !is_listed(seen, tag) {
            seen.push(tag);
            proof {
                assert(ref_tags(seen@) =~= ref_tags(prior).push(tag@));
                assert(seen@.subrange(0, old(seen)@.len() as int) =~= prior.subrange(
                    0,
                    old(seen)@.len() as int,
                ));
                assert forall|j: int| 0 <= j < i implies ref_tags(seen@).contains(
                    #[trigger] added[j],
                ) by {
                    let p = choose|p: int|
                        0 <= p < ref_tags(prior).len() && ref_tags(prior)[p] == added[j];
                    assert(ref_tags(seen@)[p] == added[j]);
                }
                assert(ref_tags(seen@)[prior.len() as int] == added[i as int]);
            }
        }
        proof {
            assert(added[i as int] == tag@);
            assert(ref_tags(seen@).contains(added[i as int]));
            assert forall|p: int| 0 <= p < seen@.len() implies before.contains(
                #[trigger] ref_tags(seen@)[p],
            ) || (exists|j: int| 0 <= j < i + 1 && added[j] == ref_tags(seen@)[p]) by {
                if p < prior.len() {
                    assert(ref_tags(seen@)[p] == ref_tags(prior)[p]);
                    if !before.contains(ref_tags(prior)[p]) {
                        let j = choose|j: int| 0 <= j < i && added[j] == ref_tags(prior)[p];
                        assert(0 <= j < i + 1 && added[j] == ref_tags(seen@)[p]);
                    }
                } else {
                    assert(added[i as int] == ref_tags(seen@)[p]);
                }
            }
        }
        i = i + 1;
    }
    proof {
        let after = ref_tags(seen@);
        assert forall|t: Seq<char>| after.contains(t) <==> before.contains(t) || added.contains(
            t,
        ) by {
            if after.contains(t) {
                let p = choose|p: int| 0 <= p < after.len() && after[p] == t;
                if !before.contains(after[p]) {
                    let j = choose|j: int| 0 <= j < i && added[j] == after[p];
                    assert(added[j] == t);
                }
            }
            if before.contains(t) {
                let p = choose|p: int| 0 <= p < before.len() && before[p] == t;
                assert(seen@.subrange(0, old(seen)@.len() as int)[p] == seen@[p]);
                assert(after[p] == t);
            }
            if added.contains(t) {
                let j = choose|j: int| 0 <= j < added.len() && added[j] == t;
                assert(after.contains(added[j]));
            }
        }
    }
}

impl MentorMatcher {
    /// Computes [`skill_overlap`] by collecting the distinct tags of both lists.
    pub fn calculate_skill_overlap(
        &self,
        learner_skills: &[String],
        mentor_expertise: &[String],
    ) -> (r: Ratio)
        ensures
            r == skill_overlap(tags(learner_skills@), tags(mentor_expertise@)),
            r.is_unit(),
            r.den <= u64::MAX,
    {
        if learner_skills.len() == 0 || mentor_expertise.len() == 0 {
            return Ratio::new(0, 1);
        }
        let ghost mine = tags(learner_skills@);
        let ghost theirs = tags(mentor_expertise@);
        let mut distinct: Vec<&String> = Vec::new();
        assert(ref_tags(distinct@).len() == 0);
        add_distinct(&mut distinct, learner_skills);
        let own: usize = distinct.len();
        let ghost first = ref_tags(distinct@);
        proof {
            assert forall|t: Seq<char>| first.contains(t) <==> mine.contains(t) by {}
            assert(mine.contains(mine[0]));
            assert(first.contains(mine[0]));
        }
        let mut shared: usize = 0;
        let ghost mut common: Set<Seq<char>> = Set::empty();
        let mut p: usize = 0;
        while p < own
            invariant
                p <= own,
                own == distinct@.len(),
                first == ref_tags(distinct@),
                first.no_duplicates(),
                theirs == tags(mentor_expertise@),
                forall|t: Seq<char>| first.contains(t) <==> mine.contains(t),
                common.finite(),
                common.len() == shared,
                shared <= p,
                forall|t: Seq<char>|
                    common.contains(t) <==> theirs.contains(t) && (exists|q: int|
                        0 <= q < p && first[q] == t),
            decreases own - p,
        {
            let tag: &String = distinct[p];
            assert(tag@ == first[p as int]);
            if is_among(mentor_expertise, tag) {
                proof {
                    if common.contains(first[p as int]) {
                        let q = choose|q: int| 0 <= q < p && first[q] == first[p as int];
                        assert(false);
                    }
                    common = common.insert(first[p as int]);
                }
                shared = shared + 1;
            }
            p = p + 1;
        }
        proof {
            assert forall|t: Seq<char>| common.contains(t) <==> mine.to_set().intersect(
                theirs.to_set(),
            ).contains(t) by {
                if first.contains(t) {
                    let q = choose|q: int| 0 <= q < first.len() && first[q] == t;
                    assert(0 <= q < p && first[q] == t);
                }
            }
            assert(common =~= mine.to_set().intersect(theirs.to_set()));
        }
        add_distinct(&mut distinct, mentor_expertise);
        let total: usize = distinct.len();
        proof {
            let all = ref_tags(distinct@);
            assert forall|t: Seq<char>| all.contains(t) <==> mine.contains(t) || theirs.contains(
                t,
            ) by {
                assert(first.contains(t) <==> mine.contains(t));
            }
            assert(all.to_set() =~= mine.to_set().union(theirs.to_set()));
            all.unique_seq_to_set();
        }
        Ratio::new(shared as u128, total as u128)
    }
}

/// The two lists have no tag in common.
pub open spec fn no_shared_tag(learner: Seq<Seq<char>>, mentor: Seq<Seq<char>>) -> bool {
    learner.to_set().intersect(mentor.to_set()) == Set::<Seq<char>>::empty()
}

/// The overlap of two lists that a machine can hold lies between 0 and 1.
pub proof fn lemma_skill_overlap_is_unit(learner: Seq<Seq<char>>, mentor: Seq<Seq<char>>)
    requires
        learner.len() <= usize::MAX,
        mentor.len() <= usize::MAX,
    ensures
        skill_overlap(learner, mentor).is_unit(),
        learner.len() > 0 && mentor.len() > 0 ==> {
            &&& skill_overlap(learner, mentor).num == learner.to_set().intersect(
                mentor.to_set(),
            ).len()
            &&& skill_overlap(learner, mentor).den == learner.to_set().union(mentor.to_set()).len()
        },
{
    broadcast use vstd::seq_lib::seq_to_set_is_finite;
    broadcast use vstd::set::group_set_axioms;

    let a = learner.to_set();
    let b = mentor.to_set();
    learner.lemma_cardinality_of_set();
    mentor.lemma_cardinality_of_set();
    vstd::set_lib::lemma_len_union(a, b);
    vstd::set_lib::lemma_len_subset(a.intersect(b), a.union(b));
    if learner.len() > 0 && mentor.len() > 0 {
        assert(learner.contains(learner[0]));
        assert(a.union(b).contains(learner[0]));
        if a.union(b).len() == 0 {
            a.union(b).lemma_len0_is_empty();
        }
    }
}

/// The overlap of two lists that a machine can hold is written over no more
/// than the tags of both.
pub proof fn lemma_skill_overlap_den(learner: Seq<Seq<char>>, mentor: Seq<Seq<char>>)
    requires
        learner.len() <= usize::MAX,
        mentor.len() <= usize::MAX,
    ensures
        skill_overlap(learner, mentor).den <= learner.len() + mentor.len() || skill_overlap(
            learner,
            mentor,
        ).den == 1,
        skill_overlap(learner, mentor).den <= 2 * u64::MAX,
{
    broadcast use vstd::seq_lib::seq_to_set_is_finite;

    lemma_skill_overlap_is_unit(learner, mentor);
    learner.lemma_cardinality_of_set();
    mentor.lemma_cardinality_of_set();
    vstd::set_lib::lemma_len_union(learner.to_set(), mentor.to_set());
}

/// The overlap is 0 exactly when the lists share no tag, which includes an
/// empty list on either side.
pub proof fn lemma_skill_overlap_zero(learner: Seq<Seq<char>>, mentor: Seq<Seq<char>>)
    requires
        learner.len() <= usize::MAX,
        mentor.len() <= usize::MAX,
    ensures
        skill_overlap(learner, mentor).num == 0 <==> no_shared_tag(learner, mentor),
        learner.len() == 0 || mentor.len() == 0 ==> no_shared_tag(learner, mentor),
{
    broadcast use vstd::seq_lib::seq_to_set_is_finite;
    broadcast use vstd::set::group_set_axioms;

    let a = learner.to_set();
    let b = mentor.to_set();
    lemma_skill_overlap_is_unit(learner, mentor);
    if learner.len() == 0 || mentor.len() == 0 {
        assert(a.intersect(b) =~= Set::<Seq<char>>::empty());
    } else if a.intersect(b).len() == 0 {
        a.intersect(b).lemma_len0_is_empty();
    }
}

/// Among lists that share a tag whenever neither is empty, the overlap is 0
/// exactly when one of the two is empty.
pub proof fn lemma_skill_overlap_zero_iff_empty(learner: Seq<Seq<char>>, mentor: Seq<Seq<char>>)
    requires
        learner.len() <= usize::MAX,
        mentor.len() <= usize::MAX,
        learner.len() > 0 && mentor.len() > 0 ==> !no_shared_tag(learner, mentor),
    ensures
        skill_overlap(learner, mentor).num == 0 <==> learner.len() == 0 || mentor.len() == 0,
{
    lemma_skill_overlap_zero(learner, mentor);
}

/// The overlap is 1 exactly when the two lists hold the same tags and at
/// least one.
pub proof fn lemma_skill_overlap_one(learner: Seq<Seq<char>>, mentor: Seq<Seq<char>>)
    requires
        learner.len() <= usize::MAX,
        mentor.len() <= usize::MAX,
    ensures
        skill_overlap(learner, mentor).num == skill_overlap(learner, mentor).den <==> learner.len()
            > 0 && mentor.len() > 0 && learner.to_set() == mentor.to_set(),
{
    broadcast use vstd::seq_lib::seq_to_set_is_finite;
    broadcast use vstd::set::group_set_axioms;

    let a = learner.to_set();
    let b = mentor.to_set();
    lemma_skill_overlap_is_unit(learner, mentor);
    if learner.len() > 0 && mentor.len() > 0 {
        if a.intersect(b).len() == a.union(b).len() {
            vstd::set_lib::lemma_subset_equality(a.intersect(b), a.union(b));
            assert forall|t: Seq<char>| a.contains(t) <==> b.contains(t) by {
                assert(a.union(b).contains(t) == a.intersect(b).contains(t));
            }
            assert(a =~= b);
        }
        if a == b {
            assert(a.intersect(b) =~= a.union(b));
        }
    }
}

} // verus!
