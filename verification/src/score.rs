//! The aggregate score: a weighted sum of the five factors, out of 100.

use crate::models::CompatibilityFactors;
use crate::ratio::Ratio;
use vstd::prelude::*;

verus! {

/// The points that the skill overlap can earn.
pub const SKILL_WEIGHT: u128 = 40;

/// The points that each of the other four factors can earn.
pub const OTHER_WEIGHT: u128 = 15;

/// The weights of the five factors add up to the whole of 100 points.
pub proof fn lemma_weights_add_up()
    ensures
        SKILL_WEIGHT + 4 * OTHER_WEIGHT == 100,
{
}

/// The denominator that the four numeric factors share.
pub open spec fn common_den(f: CompatibilityFactors) -> int {
    f.skill_overlap.den * f.availability_match.den * f.experience_compatibility.den
        * f.teaching_style_match.den
}

/// The weighted sum of the factors, counted in [`common_den`]-ths of a
/// point: 40 points for the skill overlap, 15 for each other factor.
pub open spec fn weighted_sum(f: CompatibilityFactors) -> int {
    let s = f.skill_overlap;
    let a = f.availability_match;
    let e = f.experience_compatibility;
    let t = f.teaching_style_match;
    40 * (s.num * a.den * e.den * t.den) + 15 * (if f.location_match {
        s.den * a.den * e.den * t.den
    } else {
        0
    }) + 15 * (s.den * a.num * e.den * t.den) + 15 * (s.den * a.den * e.num * t.den) + 15 * (s.den
        * a.den * e.den * t.num)
}

/// The aggregate score of well-formed factors: their weighted sum, held to
/// at most 100.
pub open spec fn score_of(f: CompatibilityFactors) -> Ratio {
    if weighted_sum(f) > 100 * common_den(f) {
        Ratio { num: 100, den: 1 }
    } else {
        Ratio { num: weighted_sum(f) as u128, den: common_den(f) as u128 }
    }
}

/// The product of two bounded numbers is bounded by the product of the
/// bounds.
proof fn lemma_product_bound(x: int, y: int, bx: int, by: int)
    requires
        0 <= x <= bx,
        0 <= y <= by,
    ensures
        0 <= x * y <= bx * by,
{
    assert(0 <= x * y <= bx * by) by (nonlinear_arith)
        requires
            0 <= x <= bx,
            0 <= y <= by,
    ;
}

/// The weighted sum of valid factors lies between 0 and 100 points, whatever
/// the size of their parts.
pub proof fn lemma_weighted_sum_in_range(f: CompatibilityFactors)
    requires
        f.valid(),
    ensures
        0 < common_den(f),
        0 <= weighted_sum(f) <= 100 * common_den(f),
{
    let s = f.skill_overlap;
    let a = f.availability_match;
    let e = f.experience_compatibility;
    let t = f.teaching_style_match;
    let sa: int = s.den * a.den;
    let sae: int = sa * e.den;
    lemma_product_bound(1, 1, s.den as int, a.den as int);
    lemma_product_bound(1, 1, sa, e.den as int);
    lemma_product_bound(1, 1, sae, t.den as int);
    lemma_product_bound(s.num as int, a.den as int, s.den as int, a.den as int);
    lemma_product_bound(s.den as int, a.num as int, s.den as int, a.den as int);
    lemma_product_bound(s.num * a.den, e.den as int, sa, e.den as int);
    lemma_product_bound(s.den * a.num, e.den as int, sa, e.den as int);
    lemma_product_bound(sa, e.num as int, sa, e.den as int);
    lemma_product_bound(s.num * a.den * e.den, t.den as int, sae, t.den as int);
    lemma_product_bound(s.den * a.num * e.den, t.den as int, sae, t.den as int);
    lemma_product_bound(sa * e.num, t.den as int, sae, t.den as int);
    lemma_product_bound(sae, t.num as int, sae, t.den as int);
}

/// The most that [`common_den`] can be for well-formed factors.
pub open spec fn den_limit() -> int {
    0x1_ffff_ffff_ffff_fffe_int * 0xffff_ffff_int * 10000
}

/// For well-formed factors every product that the weighted sum is made of
/// lies between 0 and the common denominator, which is positive and fits in
/// 128 bits a hundred times over.
proof fn lemma_terms_bounded(f: CompatibilityFactors)
    requires
        f.wf(),
    ensures
        ({
            let s = f.skill_overlap;
            let a = f.availability_match;
            let e = f.experience_compatibility;
            let t = f.teaching_style_match;
            let sa = s.den * a.den;
            let sae = sa * e.den;
            let all = sae * t.den;
            &&& 0 < sa <= sae <= all <= den_limit()
            &&& all == common_den(f)
            &&& 0 <= s.num * a.den <= sa
            &&& 0 <= s.den * a.num <= sa
            &&& 0 <= s.num * a.den * e.den <= sae
            &&& 0 <= s.den * a.num * e.den <= sae
            &&& 0 <= sa * e.num <= sae
            &&& 0 <= s.num * a.den * e.den * t.den <= all
            &&& 0 <= s.den * a.num * e.den * t.den <= all
            &&& 0 <= sa * e.num * t.den <= all
            &&& 0 <= sae * t.num <= all
            &&& 0 <= weighted_sum(f) <= 100 * all
        }),
{
    let s = f.skill_overlap;
    let a = f.availability_match;
    let e = f.experience_compatibility;
    let t = f.teaching_style_match;
    let sa: int = s.den * a.den;
    let sae: int = sa * e.den;
    let bound: int = 0x1_ffff_ffff_ffff_fffe_int * 0xffff_ffff_int;
    lemma_product_bound(s.den as int, a.den as int, 0x1_ffff_ffff_ffff_fffe, 0xffff_ffff);
    lemma_product_bound(s.num as int, a.den as int, s.den as int, a.den as int);
    lemma_product_bound(s.den as int, a.num as int, s.den as int, a.den as int);
    lemma_product_bound(sa, e.den as int, bound, 100);
    lemma_product_bound(s.num * a.den, e.den as int, sa, e.den as int);
    lemma_product_bound(s.den * a.num, e.den as int, sa, e.den as int);
    lemma_product_bound(sa, e.num as int, sa, e.den as int);
    lemma_product_bound(sae, t.den as int, bound * 100, 100);
    lemma_product_bound(s.num * a.den * e.den, t.den as int, sae, t.den as int);
    lemma_product_bound(s.den * a.num * e.den, t.den as int, sae, t.den as int);
    lemma_product_bound(sa * e.num, t.den as int, sae, t.den as int);
    lemma_product_bound(sae, t.num as int, sae, t.den as int);
    lemma_product_bound(1, 1, s.den as int, a.den as int);
    lemma_product_bound(sa, 1, sa, e.den as int);
    lemma_product_bound(sae, 1, sae, t.den as int);
}

/// Computes [`score_of`].
pub fn weighted_score(factors: &CompatibilityFactors) -> (r: Ratio)
    requires
        factors.wf(),
    ensures
        r == score_of(*factors),
        r.wf(),
        r.num <= 100 * r.den,
        r.num == weighted_sum(*factors),
        r.den == common_den(*factors),
{
    let s: Ratio = factors.skill_overlap;
    let a: Ratio = factors.availability_match;
    let e: Ratio = factors.experience_compatibility;
    let t: Ratio = factors.teaching_style_match;
    proof {
        lemma_terms_bounded(*factors);
    }
    let den: u128 = s.den * a.den * e.den * t.den;
    let skill: u128 = s.num * a.den * e.den * t.den;
    let location: u128 = if factors.location_match {
        den
    } else {
        0
    };
    let availability: u128 = s.den * a.num * e.den * t.den;
    let experience: u128 = s.den * a.den * e.num * t.den;
    let style: u128 = s.den * a.den * e.den * t.num;
    let num: u128 = SKILL_WEIGHT * skill + OTHER_WEIGHT * location + OTHER_WEIGHT * availability
        + OTHER_WEIGHT * experience + OTHER_WEIGHT * style;
    // well-formed factors never add up to more; the guard is for tables
    // that one day allow more than 1
    if num > 100 * den {
        Ratio::new(100, 1)
    } else {
        Ratio::new(num, den)
    }
}

/// The score of well-formed factors lies between 0 and 100.
pub proof fn lemma_score_in_range(f: CompatibilityFactors)
    requires
        f.wf(),
    ensures
        score_of(f).wf(),
        score_of(f).le(Ratio { num: 100, den: 1 }),
        score_of(f) == (Ratio { num: weighted_sum(f) as u128, den: common_den(f) as u128 }),
{
    lemma_terms_bounded(f);
}

} // verus!
