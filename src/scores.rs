use vstd::prelude::*;
use crate::chars::chars_of;
use crate::levenshtein::{
    lemma_lev_at_least_len_diff,
    lemma_lev_at_most_max,
    lev,
    levenshtein,
    max_nat,
    min_nat,
};
use crate::partial::{lemma_partial_at_most_shorter, partial_lev, partial_levenshtein};

verus! {

/// An exact fraction `num / den`, the form in which normalized scores leave
/// the library.
#[derive(Clone, Copy, Debug, PartialEq, Eq)]
pub struct Ratio {
    pub num: usize,
    pub den: usize,
}

impl Ratio {
    /// A well-formed ratio lies in `[0, 1]` and has a positive denominator.
    pub open spec fn wf(self) -> bool {
        0 < self.den && self.num <= self.den
    }
}

/// Levenshtein distance between the characters of `a` and of `b`.
pub fn rdistance(a: &str, b: &str) -> (r: usize)
    requires
        a@.len() < usize::MAX,
        b@.len() < usize::MAX,
    ensures
        r == lev(a@, b@),
        r <= max_nat(a@.len(), b@.len()),
        r >= a@.len() - b@.len(),
        r >= b@.len() - a@.len(),
{
    let ac = chars_of(a);
    let bc = chars_of(b);
    proof {
        lemma_lev_at_most_max(a@, b@);
        lemma_lev_at_least_len_diff(a@, b@);
    }
    levenshtein(ac.as_slice(), bc.as_slice())
}

/// Distance over the longer length, with both strings empty counting as
/// identical (`0 / 1`).
pub fn normalized_distance_ratio(a: &str, b: &str) -> (r: Ratio)
    requires
        a@.len() < usize::MAX,
        b@.len() < usize::MAX,
    ensures
        r.wf(),
        a@.len() == 0 && b@.len() == 0 ==> r == (Ratio { num: 0, den: 1 }),
        a@.len() > 0 || b@.len() > 0 ==> r.num == lev(a@, b@) && r.den == max_nat(
            a@.len(),
            b@.len(),
        ),
{
    let ac = chars_of(a);
    let bc = chars_of(b);
    let max = ac.len().max(bc.len());
    if max == 0 {
        return Ratio { num: 0, den: 1 };
    }
    proof {
        lemma_lev_at_most_max(a@, b@);
    }
    Ratio { num: levenshtein(ac.as_slice(), bc.as_slice()), den: max }
}

/// Raw similarity: the longer length less the distance.
pub fn rsimilarity(a: &str, b: &str) -> (r: usize)
    requires
        a@.len() < usize::MAX,
        b@.len() < usize::MAX,
    ensures
        r == max_nat(a@.len(), b@.len()) - lev(a@, b@),
{
    let ac = chars_of(a);
    let bc = chars_of(b);
    let max = ac.len().max(bc.len());
    proof {
        lemma_lev_at_most_max(a@, b@);
    }
    max.saturating_sub(levenshtein(ac.as_slice(), bc.as_slice()))
}

/// Partial distance between the characters of `a` and of `b`.
pub fn rpartial_distance(a: &str, b: &str) -> (r: usize)
    requires
        a@.len() < usize::MAX,
        b@.len() < usize::MAX,
    ensures
        r == partial_lev(a@, b@),
        r <= min_nat(a@.len(), b@.len()),
{
    let ac = chars_of(a);
    let bc = chars_of(b);
    proof {
        lemma_partial_at_most_shorter(a@, b@);
    }
    partial_levenshtein(ac.as_slice(), bc.as_slice())
}

/// Partial distance over the shorter length, with an empty shorter string
/// counting as identical (`0 / 1`).
pub fn normalized_partial_distance_ratio(a: &str, b: &str) -> (r: Ratio)
    requires
        a@.len() < usize::MAX,
        b@.len() < usize::MAX,
    ensures
        r.wf(),
        a@.len() == 0 || b@.len() == 0 ==> r == (Ratio { num: 0, den: 1 }),
        a@.len() > 0 && b@.len() > 0 ==> r.num == partial_lev(a@, b@) && r.den == min_nat(
            a@.len(),
            b@.len(),
        ),
{
    let ac = chars_of(a);
    let bc = chars_of(b);
    let min = ac.len().min(bc.len());
    if min == 0 {
        return Ratio { num: 0, den: 1 };
    }
    proof {
        lemma_partial_at_most_shorter(a@, b@);
    }
    Ratio { num: partial_levenshtein(ac.as_slice(), bc.as_slice()), den: min }
}

/// Raw partial similarity: the shorter length less the partial distance.
pub fn rpartial_similarity(a: &str, b: &str) -> (r: usize)
    requires
        a@.len() < usize::MAX,
        b@.len() < usize::MAX,
    ensures
        r == min_nat(a@.len(), b@.len()) - partial_lev(a@, b@),
{
    let ac = chars_of(a);
    let bc = chars_of(b);
    let min = ac.len().min(bc.len());
    proof {
        lemma_partial_at_most_shorter(a@, b@);
    }
    min.saturating_sub(partial_levenshtein(ac.as_slice(), bc.as_slice()))
}

} // verus!
