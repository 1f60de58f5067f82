use vstd::prelude::*;
use vstd::slice::slice_subrange;
use crate::levenshtein::{lemma_lev_self, lemma_lev_symmetric, lev, levenshtein, min_nat};

verus! {

/// The shorter of two sequences; the first one when their lengths are equal.
pub open spec fn shorter(a: Seq<char>, b: Seq<char>) -> Seq<char> {
    if a.len() <= b.len() {
        a
    } else {
        b
    }
}

/// The longer of two sequences; the second one when their lengths are equal.
pub open spec fn longer(a: Seq<char>, b: Seq<char>) -> Seq<char> {
    if a.len() <= b.len() {
        b
    } else {
        a
    }
}

/// The window of `l` that starts at `start` and is as long as `s`.
pub open spec fn window(s: Seq<char>, l: Seq<char>, start: int) -> Seq<char> {
    l.subrange(start, start + s.len())
}

/// The least distance from `s` to the windows of `l` that start at
/// `0`, `1`, ..., `k - 1` (the first window alone when `k` is 0 or 1).
pub open spec fn best_window(s: Seq<char>, l: Seq<char>, k: nat) -> nat
    decreases k,
{
    if k <= 1 {
        lev(s, window(s, l, 0))
    } else {
        min_nat(best_window(s, l, (k - 1) as nat), lev(s, window(s, l, k - 1)))
    }
}

/// Partial distance: the least distance from the shorter sequence to a
/// window of the longer one of the same length; zero when the shorter one
/// is empty.
pub open spec fn partial_lev(a: Seq<char>, b: Seq<char>) -> nat {
    let s = shorter(a, b);
    let l = longer(a, b);
    if s.len() == 0 {
        0
    } else {
        best_window(s, l, (l.len() - s.len() + 1) as nat)
    }
}

/// `best_window` is attained by one of its windows and bounded by each.
pub proof fn lemma_best_window_is_min(s: Seq<char>, l: Seq<char>, k: nat)
    requires
        k >= 1,
    ensures
        forall|i: int| 0 <= i < k ==> best_window(s, l, k) <= lev(s, #[trigger] window(s, l, i)),
        exists|i: int| 0 <= i < k && best_window(s, l, k) == lev(s, #[trigger] window(s, l, i)),
    decreases k,
{
    if k > 1 {
        lemma_best_window_is_min(s, l, (k - 1) as nat);
        let i0 = choose|i: int|
            0 <= i < k - 1 && best_window(s, l, (k - 1) as nat) == lev(s, #[trigger] window(s, l, i));
        if best_window(s, l, (k - 1) as nat) <= lev(s, window(s, l, k - 1)) {
            assert(best_window(s, l, k) == lev(s, window(s, l, i0)));
        } else {
            assert(best_window(s, l, k) == lev(s, window(s, l, k - 1)));
        }
    } else {
        assert(best_window(s, l, k) == lev(s, window(s, l, 0)));
    }
}

/// Partial distance between two character slices: the shorter slice is
/// compared with every window of the longer one, and the scan stops at the
/// first window that matches exactly.
pub fn partial_levenshtein(a: &[char], b: &[char]) -> (r: usize)
    requires
        a@.len() < usize::MAX,
        b@.len() < usize::MAX,
    ensures
        r == partial_lev(a@, b@),
{
    let (short, long) = if a.len() <= b.len() {
        (a, b)
    } else {
        (b, a)
    };
    let n = short.len();
    let m = long.len();
    let ghost s = shorter(a@, b@);
    let ghost l = longer(a@, b@);
    assert(short@ == s && long@ == l);
    if n == 0 {
        return 0;
    }
    if n == m {
        assert(window(s, l, 0) =~= l);
        return levenshtein(short, long);
    }
    let ghost count: nat = (m - n + 1) as nat;
    let mut min_dist: usize = usize::MAX;
    let mut start: usize = 0;
    while start <= m - n
        invariant
            n == s.len(),
            m == l.len(),
            0 < n < m < usize::MAX,
            short@ == s,
            long@ == l,
            count == m - n + 1,
            start <= count,
            start == 0 ==> min_dist == usize::MAX,
            start > 0 ==> min_dist == best_window(s, l, start as nat),
        ensures
            start > 0,
            min_dist == best_window(s, l, start as nat),
            start == count || min_dist == 0,
        decreases count - start,
    {
        let d = levenshtein(short, slice_subrange(long, start, start + n));
        assert(window(s, l, start as int) == long@.subrange(start as int, start + n));
        proof {
            lev_at_most_max_window(s, l, start as int);
        }
        if d < min_dist {
            min_dist = d;
        }
        start += 1;
        if min_dist == 0 {
            break;
        }
    }
    proof {
        if start < count {
            lemma_best_window_is_min(s, l, count);
            lemma_best_window_is_min(s, l, start as nat);
            let i0 = choose|i: int|
                0 <= i < start && best_window(s, l, start as nat) == lev(
                    s,
                    #[trigger] window(s, l, i),
                );
            assert(best_window(s, l, count) <= lev(s, window(s, l, i0)));
        }
    }
    min_dist
}

/// A window distance fits below `usize::MAX`.
proof fn lev_at_most_max_window(s: Seq<char>, l: Seq<char>, start: int)
    requires
        0 <= start,
        start + s.len() <= l.len(),
        l.len() < usize::MAX,
    ensures
        lev(s, window(s, l, start)) < usize::MAX,
{
    crate::levenshtein::lemma_lev_at_most_max(s, window(s, l, start));
}

/// The partial distance is at most the distance from the shorter sequence
/// to any window of the longer one.
pub proof fn lemma_partial_at_most_window(a: Seq<char>, b: Seq<char>, start: int)
    requires
        0 <= start <= longer(a, b).len() - shorter(a, b).len(),
    ensures
        partial_lev(a, b) <= lev(shorter(a, b), window(shorter(a, b), longer(a, b), start)),
{
    let s = shorter(a, b);
    let l = longer(a, b);
    if s.len() > 0 {
        lemma_best_window_is_min(s, l, (l.len() - s.len() + 1) as nat);
        assert(partial_lev(a, b) <= lev(s, window(s, l, start)));
    }
}

/// The partial distance is zero when the shorter sequence occurs in the
/// longer one as a contiguous run.
pub proof fn lemma_partial_zero_on_substring(a: Seq<char>, b: Seq<char>, start: int)
    requires
        0 <= start <= longer(a, b).len() - shorter(a, b).len(),
        window(shorter(a, b), longer(a, b), start) == shorter(a, b),
    ensures
        partial_lev(a, b) == 0,
{
    lemma_lev_self(shorter(a, b));
    lemma_partial_at_most_window(a, b, start);
}

/// On sequences of equal length the partial distance is the distance.
pub proof fn lemma_partial_equal_lengths(a: Seq<char>, b: Seq<char>)
    requires
        a.len() == b.len(),
    ensures
        partial_lev(a, b) == lev(a, b),
{
    assert(window(a, b, 0) =~= b);
    if a.len() == 0 {
        assert(b.len() == 0);
    }
}

/// The partial distance does not depend on the order of its arguments.
pub proof fn lemma_partial_symmetric(a: Seq<char>, b: Seq<char>)
    ensures
        partial_lev(a, b) == partial_lev(b, a),
{
    if a.len() == b.len() {
        lemma_partial_equal_lengths(a, b);
        lemma_partial_equal_lengths(b, a);
        lemma_lev_symmetric(a, b);
    }
}

/// The partial distance never exceeds the shorter length.
pub proof fn lemma_partial_at_most_shorter(a: Seq<char>, b: Seq<char>)
    ensures
        partial_lev(a, b) <= shorter(a, b).len(),
{
    let s = shorter(a, b);
    let l = longer(a, b);
    if s.len() > 0 {
        lemma_partial_at_most_window(a, b, 0);
        crate::levenshtein::lemma_lev_at_most_max(s, window(s, l, 0));
    }
}

} // verus!
