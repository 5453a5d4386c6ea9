//! Generic character-level edit distance (Wagner–Fischer dynamic program).

use vstd::prelude::*;

verus! {

/// The smallest of three naturals.
pub open spec fn min3(a: nat, b: nat, c: nat) -> nat {
    if a <= b && a <= c {
        a
    } else if b <= c {
        b
    } else {
        c
    }
}

/// The larger of two naturals.
pub open spec fn max_nat(a: nat, b: nat) -> nat {
    if a >= b {
        a
    } else {
        b
    }
}

/// Edit distance between two character sequences: the minimum number of
/// single-character insertions, deletions and substitutions (unit cost each)
/// that turns one into the other, defined by the classic recurrence.
pub open spec fn edit_dist(s: Seq<char>, t: Seq<char>) -> nat
    decreases s.len() + t.len(),
{
    if s.len() == 0 {
        t.len()
    } else if t.len() == 0 {
        s.len()
    } else {
        let cost: nat = if s.last() == t.last() {
            0
        } else {
            1
        };
        min3(
            edit_dist(s.drop_last(), t) + 1,
            edit_dist(s, t.drop_last()) + 1,
            edit_dist(s.drop_last(), t.drop_last()) + cost,
        )
    }
}

/// A sequence is at edit distance zero from itself.
pub proof fn lemma_edit_dist_self(s: Seq<char>)
    ensures
        edit_dist(s, s) == 0,
    decreases s.len(),
{
    if s.len() > 0 {
        lemma_edit_dist_self(s.drop_last());
    }
}

/// Edit distance is symmetric in its two arguments.
pub proof fn lemma_edit_dist_symmetric(s: Seq<char>, t: Seq<char>)
    ensures
        edit_dist(s, t) == edit_dist(t, s),
    decreases s.len() + t.len(),
{
    if s.len() > 0 && t.len() > 0 {
        lemma_edit_dist_symmetric(s.drop_last(), t);
        lemma_edit_dist_symmetric(s, t.drop_last());
        lemma_edit_dist_symmetric(s.drop_last(), t.drop_last());
    }
}

/// Edit distance is at least the length difference and at most the length
/// of the longer sequence.
pub proof fn lemma_edit_dist_bounds(s: Seq<char>, t: Seq<char>)
    ensures
        edit_dist(s, t) <= max_nat(s.len(), t.len()),
        edit_dist(s, t) + s.len() >= t.len(),
        edit_dist(s, t) + t.len() >= s.len(),
    decreases s.len() + t.len(),
{
    if s.len() > 0 && t.len() > 0 {
        lemma_edit_dist_bounds(s.drop_last(), t);
        lemma_edit_dist_bounds(s, t.drop_last());
        lemma_edit_dist_bounds(s.drop_last(), t.drop_last());
    }
}

/// Removing the last character of the right argument changes the distance
/// by at most one.
pub proof fn lemma_edit_dist_drop_last_right(s: Seq<char>, t: Seq<char>)
    requires
        t.len() > 0,
    ensures
        edit_dist(s, t.drop_last()) <= edit_dist(s, t) + 1,
    decreases s.len() + t.len(),
{
    if s.len() > 0 {
        lemma_edit_dist_drop_last_right(s.drop_last(), t);
    }
}

/// Removing the last character of the left argument changes the distance
/// by at most one.
pub proof fn lemma_edit_dist_drop_last_left(s: Seq<char>, t: Seq<char>)
    requires
        s.len() > 0,
    ensures
        edit_dist(s.drop_last(), t) <= edit_dist(s, t) + 1,
{
    lemma_edit_dist_symmetric(s, t);
    lemma_edit_dist_symmetric(s.drop_last(), t);
    lemma_edit_dist_drop_last_right(t, s);
}

/// When the last characters agree, the distance equals the distance of the
/// two sequences with their last characters removed.
pub proof fn lemma_edit_dist_same_last(s: Seq<char>, t: Seq<char>)
    requires
        s.len() > 0,
        t.len() > 0,
        s.last() == t.last(),
    ensures
        edit_dist(s, t) == edit_dist(s.drop_last(), t.drop_last()),
{
    lemma_edit_dist_drop_last_right(s.drop_last(), t);
    lemma_edit_dist_drop_last_left(s, t.drop_last());
}

/// Character-level edit distance over two slices of characters.
pub fn levenshtein_distance_chars(s: &[char], t: &[char]) -> (d: usize)
    ensures
        d == edit_dist(s@, t@),
{
    let m = s.len();
    let n = t.len();
    // `prev` holds one column of the distance matrix: after processing
    // column `j`, `prev[i] == edit_dist(s[..i], t[..j])`.
    let mut prev: Vec<usize> = Vec::new();
    prev.push(0);
    for im in 0..m
        invariant
            prev@.len() == im + 1,
            m == s@.len(),
            forall|k: int| 0 <= k <= im ==> prev@[k] == edit_dist(s@.take(k), t@.take(0)),
    {
        let i = im + 1;
        prev.push(i);
        proof {
            assert(s@.take(i as int).len() == i);
            assert(edit_dist(s@.take(i as int), t@.take(0)) == i);
        }
    }
    for jm in 0..n
        invariant
            prev@.len() == m + 1,
            m == s@.len(),
            n == t@.len(),
            forall|k: int| 0 <= k <= m ==> prev@[k] == edit_dist(s@.take(k), t@.take(jm as int)),
    {
        let j = jm + 1;
        let mut curr: Vec<usize> = Vec::new();
        curr.push(j);
        proof {
            assert(t@.take(j as int).len() == j);
            assert(edit_dist(s@.take(0), t@.take(j as int)) == j);
        }
        for im in 0..m
            invariant
                curr@.len() == im + 1,
                prev@.len() == m + 1,
                m == s@.len(),
                n == t@.len(),
                j == jm + 1,
                jm < n,
                forall|k: int| 0 <= k <= m ==> prev@[k] == edit_dist(
                    s@.take(k),
                    t@.take(jm as int),
                ),
                forall|k: int| 0 <= k <= im ==> curr@[k] == edit_dist(
                    s@.take(k),
                    t@.take(j as int),
                ),
        {
            let i = im + 1;
            let sub = prev[im];
            let del = curr[im];
            let ins = prev[i];
            proof {
                assert(s@.take(i as int).drop_last() =~= s@.take(im as int));
                assert(t@.take(j as int).drop_last() =~= t@.take(jm as int));
                assert(s@.take(i as int).last() == s@[im as int]);
                assert(t@.take(j as int).last() == t@[jm as int]);
            }
            let cell: usize;
            if s[im] == t[jm] {
                proof {
                    lemma_edit_dist_same_last(s@.take(i as int), t@.take(j as int));
                }
                cell = sub;
            } else {
                let lo = if del < ins {
                    del
                } else {
                    ins
                };
                let lo = if sub < lo {
                    sub
                } else {
                    lo
                };
                proof {
                    lemma_edit_dist_bounds(s@.take(im as int), t@.take(jm as int));
                }
                cell = lo + 1;
            }
            curr.push(cell);
        }
        prev = curr;
    }
    proof {
        assert(s@.take(m as int) =~= s@);
        assert(t@.take(n as int) =~= t@);
    }
    prev[m]
}

/// Character-level edit distance between two strings, the sequence elements
/// being the strings' Unicode scalar values.
pub fn levenshtein_distance(s: &str, t: &str) -> (d: usize)
    ensures
        d == edit_dist(s@, t@),
{
    let s_chars = chars_of(s);
    let t_chars = chars_of(t);
    levenshtein_distance_chars(s_chars.as_slice(), t_chars.as_slice())
}

/// The characters of a string, in order, as a vector.
pub fn chars_of(s: &str) -> (r: Vec<char>)
    ensures
        r@ == s@,
{
    let mut r: Vec<char> = Vec::new();
    for c in it: s.chars()
        invariant
            it.seq() == s@,
            r@.len() == it.index(),
            forall|k: int| 0 <= k < r@.len() ==> r@[k] == s@[k],
    {
        r.push(c);
    }
    proof {
        assert(r@ =~= s@);
    }
    r
}

} // verus!
