use vstd::prelude::*;

verus! {

/// The smaller of two naturals.
pub open spec fn min_nat(x: nat, y: nat) -> nat {
    if x <= y {
        x
    } else {
        y
    }
}

/// The larger of two naturals.
pub open spec fn max_nat(x: nat, y: nat) -> nat {
    if x >= y {
        x
    } else {
        y
    }
}

/// Levenshtein distance between two character sequences: the least number
/// of single-character deletions, insertions and substitutions that turn
/// `a` into `b`, stated by the usual recurrence on the last characters.
pub open spec fn lev(a: Seq<char>, b: Seq<char>) -> nat
    decreases a.len() + b.len(),
{
    if a.len() == 0 {
        b.len()
    } else if b.len() == 0 {
        a.len()
    } else {
        let cost: nat = if a.last() == b.last() {
            0
        } else {
            1
        };
        min_nat(
            min_nat(lev(a.drop_last(), b) + 1, lev(a, b.drop_last()) + 1),
            lev(a.drop_last(), b.drop_last()) + cost,
        )
    }
}

/// The distance never exceeds the longer length.
pub proof fn lemma_lev_at_most_max(a: Seq<char>, b: Seq<char>)
    ensures
        lev(a, b) <= max_nat(a.len(), b.len()),
    decreases a.len() + b.len(),
{
    if a.len() > 0 && b.len() > 0 {
        lemma_lev_at_most_max(a.drop_last(), b.drop_last());
    }
}

/// The distance is at least the difference of the lengths.
pub proof fn lemma_lev_at_least_len_diff(a: Seq<char>, b: Seq<char>)
    ensures
        lev(a, b) >= a.len() - b.len(),
        lev(a, b) >= b.len() - a.len(),
    decreases a.len() + b.len(),
{
    if a.len() > 0 && b.len() > 0 {
        lemma_lev_at_least_len_diff(a.drop_last(), b);
        lemma_lev_at_least_len_diff(a, b.drop_last());
        lemma_lev_at_least_len_diff(a.drop_last(), b.drop_last());
    }
}

/// The distance does not depend on the order of its arguments.
pub proof fn lemma_lev_symmetric(a: Seq<char>, b: Seq<char>)
    ensures
        lev(a, b) == lev(b, a),
    decreases a.len() + b.len(),
{
    if a.len() > 0 && b.len() > 0 {
        lemma_lev_symmetric(a.drop_last(), b);
        lemma_lev_symmetric(a, b.drop_last());
        lemma_lev_symmetric(a.drop_last(), b.drop_last());
    }
}

/// A sequence is at distance zero from itself.
pub proof fn lemma_lev_self(a: Seq<char>)
    ensures
        lev(a, a) == 0,
    decreases a.len(),
{
    if a.len() > 0 {
        lemma_lev_self(a.drop_last());
    }
}

/// One step of the recurrence, seen on prefixes: the distance between the
/// first `i + 1` characters of `a` and the first `j + 1` characters of `b`
/// follows from the three neighbouring prefix distances.
proof fn lemma_lev_prefix_step(a: Seq<char>, b: Seq<char>, i: int, j: int)
    requires
        0 <= i < a.len(),
        0 <= j < b.len(),
    ensures
        lev(a.take(i + 1), b.take(j + 1)) == min_nat(
            min_nat(lev(a.take(i), b.take(j + 1)) + 1, lev(a.take(i + 1), b.take(j)) + 1),
            lev(a.take(i), b.take(j)) + (if a[i] == b[j] {
                0nat
            } else {
                1nat
            }),
        ),
{
    let x = a.take(i + 1);
    let y = b.take(j + 1);
    assert(x.drop_last() =~= a.take(i));
    assert(y.drop_last() =~= b.take(j));
    assert(x.last() == a[i]);
    assert(y.last() == b[j]);
}

/// Levenshtein distance between two character slices, by the
/// Wagner–Fischer recurrence kept in two rows of `b.len() + 1` entries
/// that trade roles after each character of `a`.
pub fn levenshtein(a: &[char], b: &[char]) -> (r: usize)
    requires
        a@.len() < usize::MAX,
        b@.len() < usize::MAX,
    ensures
        r == lev(a@, b@),
{
    let n = a.len();
    let m = b.len();
    if n == 0 {
        return m;
    }
    if m == 0 {
        return n;
    }
    let mut prev: Vec<usize> = Vec::new();
    let mut k: usize = 0;
    while k <= m
        invariant
            m == b@.len(),
            m < usize::MAX,
            k <= m + 1,
            prev@.len() == k,
            forall|t: int| 0 <= t < k ==> prev@[t] == t,
        decreases m + 1 - k,
    {
        prev.push(k);
        k += 1;
    }
    proof {
        assert forall|t: int| 0 <= t <= m implies prev@[t] == lev(a@.take(0), b@.take(t)) by {
            assert(a@.take(0).len() == 0);
        }
    }
    let mut curr: Vec<usize> = vec![0; m + 1];
    let mut i: usize = 0;
    while i < n
        invariant
            n == a@.len(),
            m == b@.len(),
            n < usize::MAX,
            m < usize::MAX,
            0 < m,
            i <= n,
            prev@.len() == m + 1,
            curr@.len() == m + 1,
            forall|t: int| 0 <= t <= m ==> prev@[t] == lev(a@.take(i as int), b@.take(t)),
        decreases n - i,
    {
        curr.set(0, i + 1);
        proof {
            assert(b@.take(0).len() == 0);
            assert(a@.take(i + 1).len() == i + 1);
        }
        let ac = a[i];
        let mut j: usize = 0;
        while j < m
            invariant
                n == a@.len(),
                m == b@.len(),
                n < usize::MAX,
                m < usize::MAX,
                i < n,
                j <= m,
                ac == a@[i as int],
                prev@.len() == m + 1,
                curr@.len() == m + 1,
                forall|t: int| 0 <= t <= m ==> prev@[t] == lev(a@.take(i as int), b@.take(t)),
                forall|t: int| 0 <= t <= j ==> curr@[t] == lev(a@.take(i + 1), b@.take(t)),
            decreases m - j,
        {
            proof {
                lemma_lev_prefix_step(a@, b@, i as int, j as int);
                lemma_lev_at_most_max(a@.take(i as int), b@.take(j + 1));
                lemma_lev_at_most_max(a@.take(i + 1), b@.take(j as int));
                lemma_lev_at_most_max(a@.take(i as int), b@.take(j as int));
            }
            let cost: usize = if ac == b[j] {
                0
            } else {
                1
            };
            let deletion = prev[j + 1] + 1;
            let insertion = curr[j] + 1;
            let substitution = prev[j] + cost;
            curr.set(j + 1, deletion.min(insertion).min(substitution));
            j += 1;
        }
        std::mem::swap(&mut prev, &mut curr);
        i += 1;
    }
    proof {
        assert(a@.take(n as int) =~= a@);
        assert(b@.take(m as int) =~= b@);
    }
    prev[m]
}

} // verus!
