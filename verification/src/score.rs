//! Korean consonant-normalized similarity scoring: per-syllable edit
//! distances over normalized jamo sequences, summed and paired with the
//! length-based maximum that the caller divides by.

use vstd::prelude::*;
use unicode_segmentation::UnicodeSegmentation;
use crate::distance::edit_dist;
use crate::distance::max_nat;
use crate::distance::levenshtein_distance_chars;
use crate::distance::lemma_edit_dist_self;
use crate::distance::lemma_edit_dist_symmetric;
use crate::jamo::normalize;
use crate::jamo::normalized;

verus! {

/// The extended grapheme clusters of a string, in order: one sequence of
/// characters per user-perceived character (for Korean, one per syllable
/// block).
pub uninterp spec fn graphemes_of(s: Seq<char>) -> Seq<Seq<char>>;

/// Relies on unicode_segmentation's `UnicodeSegmentation::graphemes` with
/// `is_extended = true`: it splits a string into its extended grapheme
/// clusters, in order; the segmentation depends on the string alone, the
/// empty string has no cluster, and a nonempty string has at least one.
#[verifier::external_body]
fn grapheme_split(s: &str) -> (r: Vec<String>)
    ensures
        r@.len() == graphemes_of(s@).len(),
        forall|i: int| 0 <= i < r@.len() ==> r@[i]@ == graphemes_of(s@)[i],
        s@.len() == 0 <==> r@.len() == 0,
{
    s.graphemes(true).map(|g| g.to_string()).collect()
}

/// The grapheme at position `i`, or the empty sequence past the end: a
/// position beyond the shorter string counts as a missing syllable.
pub open spec fn syllable_at(g: Seq<Seq<char>>, i: int) -> Seq<char> {
    if 0 <= i < g.len() {
        g[i]
    } else {
        Seq::empty()
    }
}

/// The edit distance contributed by syllable position `i`: the distance
/// between the normalized jamo sequences of the two graphemes at `i`.
pub open spec fn syllable_dist(gs: Seq<Seq<char>>, ts: Seq<Seq<char>>, i: int) -> nat {
    edit_dist(normalized(syllable_at(gs, i)), normalized(syllable_at(ts, i)))
}

/// The sum of the syllable distances at positions `0 .. n`.
pub open spec fn total_dist_upto(gs: Seq<Seq<char>>, ts: Seq<Seq<char>>, n: int) -> nat
    decreases n,
{
    if n <= 0 {
        0
    } else {
        total_dist_upto(gs, ts, n - 1) + syllable_dist(gs, ts, n - 1)
    }
}

/// The summed syllable distance over every position of the longer of the
/// two segmented strings.
pub open spec fn total_dist(gs: Seq<Seq<char>>, ts: Seq<Seq<char>>) -> nat {
    total_dist_upto(gs, ts, max_nat(gs.len(), ts.len()) as int)
}

/// The two integer parts of the similarity score of two strings: the summed
/// per-syllable edit distance, and the denominator `max(3|S|, 3|T|)` over
/// the grapheme counts.  Both are zero exactly when both strings are empty
/// (the caller's short-circuit: the score is then zero, not a division).
pub open spec fn score_parts(s: Seq<char>, t: Seq<char>) -> (nat, nat) {
    if s.len() == 0 && t.len() == 0 {
        (0, 0)
    } else {
        let gs = graphemes_of(s);
        let ts = graphemes_of(t);
        (total_dist(gs, ts), max_nat(3 * gs.len(), 3 * ts.len()))
    }
}

/// Summed syllable distances only grow as more positions are taken in.
proof fn lemma_total_dist_upto_mono(gs: Seq<Seq<char>>, ts: Seq<Seq<char>>, a: int, b: int)
    requires
        a <= b,
    ensures
        total_dist_upto(gs, ts, a) <= total_dist_upto(gs, ts, b),
    decreases b - a,
{
    if a < b {
        lemma_total_dist_upto_mono(gs, ts, a, b - 1);
    }
}

/// Numerator and denominator of the similarity score of `s` and `t`: the
/// summed per-syllable edit distance between the consonant-normalized jamo
/// sequences of the two strings' graphemes, and the denominator
/// `max(3|S|, 3|T|)`.  Returns `None` exactly when one of the two parts
/// does not fit in `usize`.
pub fn k_edit_distance_parts(s: &str, t: &str) -> (r: Option<(usize, usize)>)
    ensures
        r is Some <==> score_parts(s@, t@).0 <= usize::MAX && score_parts(s@, t@).1 <= usize::MAX,
        r matches Some(p) ==> p.0 == score_parts(s@, t@).0 && p.1 == score_parts(s@, t@).1,
{
    if s.is_empty() && t.is_empty() {
        return Some((0, 0));
    }
    let gs = grapheme_split(s);
    let ts = grapheme_split(t);
    let ghost gsv = graphemes_of(s@);
    let ghost tsv = graphemes_of(t@);
    let gl = gs.len();
    let tl = ts.len();
    let l = if gl > tl {
        gl
    } else {
        tl
    };
    if l > usize::MAX / 3 {
        proof {
            assert(score_parts(s@, t@).1 == 3 * (l as nat));
            assert(3 * (l as nat) > usize::MAX);
        }
        return None;
    }
    let denom = 3 * l;
    let mut total: usize = 0;
    for i in 0..l
        invariant
            gl == gsv.len(),
            tl == tsv.len(),
            gs@.len() == gl,
            ts@.len() == tl,
            forall|k: int| 0 <= k < gl ==> gs@[k]@ == gsv[k],
            forall|k: int| 0 <= k < tl ==> ts@[k]@ == tsv[k],
            l == max_nat(gsv.len(), tsv.len()),
            !(s@.len() == 0 && t@.len() == 0),
            gsv == graphemes_of(s@),
            tsv == graphemes_of(t@),
            total == total_dist_upto(gsv, tsv, i as int),
    {
        let s_norm: Vec<char> = if i < gl {
            normalize(gs[i].as_str())
        } else {
            Vec::new()
        };
        let t_norm: Vec<char> = if i < tl {
            normalize(ts[i].as_str())
        } else {
            Vec::new()
        };
        proof {
            assert(s_norm@ == normalized(syllable_at(gsv, i as int)));
            assert(t_norm@ == normalized(syllable_at(tsv, i as int)));
        }
        let d = levenshtein_distance_chars(s_norm.as_slice(), t_norm.as_slice());
        match total.checked_add(d) {
            Some(nt) => {
                total = nt;
            },
            None => {
                proof {
                    assert(d == syllable_dist(gsv, tsv, i as int));
                    assert(total_dist_upto(gsv, tsv, i + 1) == total_dist_upto(gsv, tsv, i as int)
                        + syllable_dist(gsv, tsv, i as int));
                    lemma_total_dist_upto_mono(gsv, tsv, i + 1, l as int);
                    assert(total_dist(gsv, tsv) > usize::MAX);
                }
                return None;
            },
        }
    }
    Some((total, denom))
}

/// A string scored against itself contributes no distance at any syllable
/// position: the numerator of its score parts is zero.
pub proof fn lemma_score_self(s: Seq<char>)
    ensures
        score_parts(s, s).0 == 0,
{
    if s.len() > 0 {
        let g = graphemes_of(s);
        lemma_total_dist_upto_self(g, max_nat(g.len(), g.len()) as int);
    }
}

proof fn lemma_total_dist_upto_self(g: Seq<Seq<char>>, n: int)
    ensures
        total_dist_upto(g, g, n) == 0,
    decreases n,
{
    if n > 0 {
        lemma_total_dist_upto_self(g, n - 1);
        lemma_edit_dist_self(normalized(syllable_at(g, n - 1)));
    }
}

/// The score parts are symmetric in the two strings.
pub proof fn lemma_score_symmetric(s: Seq<char>, t: Seq<char>)
    ensures
        score_parts(s, t) == score_parts(t, s),
{
    if !(s.len() == 0 && t.len() == 0) {
        let gs = graphemes_of(s);
        let ts = graphemes_of(t);
        lemma_total_dist_upto_sym(gs, ts, max_nat(gs.len(), ts.len()) as int);
    }
}

proof fn lemma_total_dist_upto_sym(gs: Seq<Seq<char>>, ts: Seq<Seq<char>>, n: int)
    ensures
        total_dist_upto(gs, ts, n) == total_dist_upto(ts, gs, n),
    decreases n,
{
    if n > 0 {
        lemma_total_dist_upto_sym(gs, ts, n - 1);
        lemma_edit_dist_symmetric(
            normalized(syllable_at(gs, n - 1)),
            normalized(syllable_at(ts, n - 1)),
        );
    }
}

} // verus!
