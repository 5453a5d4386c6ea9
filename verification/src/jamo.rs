//! Jamo normalization: canonical decomposition of each character, removal of
//! spaces, and collapse of confusable Korean consonants (plain/tense/aspirated
//! variants) to the plain representative of their class.

use vstd::prelude::*;
use unicode_normalization::UnicodeNormalization;
use crate::distance::edit_dist;
use crate::distance::lemma_edit_dist_self;

verus! {

/// The canonical decomposition (Unicode Normalization Form D) of one
/// character: a precomposed Korean syllable block decomposes into its
/// constituent jamo; a character with no canonical decomposition stays as is.
pub uninterp spec fn nfd_char(c: char) -> Seq<char>;

/// Relies on unicode_normalization's `UnicodeNormalization::nfd` for `char`:
/// it yields the canonical decomposition (Unicode NFD) of the character,
/// which depends on the character alone.
#[verifier::external_body]
fn nfd_decompose(c: char) -> (r: Vec<char>)
    ensures
        r@ == nfd_char(c),
{
    c.nfd().collect()
}

/// The class representative of a confusable Korean consonant; any other
/// character is its own representative.  The five classes collapse the
/// tense and aspirated variants of a consonant to the plain form, written
/// here as Hangul compatibility jamo:
/// KIYEOK (U+3131) for KHIEUKH (U+314B) and SSANGKIYEOK (U+3132);
/// TIKEUT (U+3137) for SSANGTIKEUT (U+3138) and THIEUTH (U+314C);
/// PIEUP (U+3142) for SSANGPIEUP (U+3143) and PHIEUPH (U+314D);
/// SIOS (U+3145) for SSANGSIOS (U+3146);
/// CIEUC (U+3148) for SSANGCIEUC (U+3149) and CHIEUCH (U+314A).
pub open spec fn folded_consonant(c: char) -> char {
    if c == '\u{3131}' || c == '\u{314b}' || c == '\u{3132}' {
        '\u{3131}'
    } else if c == '\u{3137}' || c == '\u{3138}' || c == '\u{314c}' {
        '\u{3137}'
    } else if c == '\u{3142}' || c == '\u{3143}' || c == '\u{314d}' {
        '\u{3142}'
    } else if c == '\u{3145}' || c == '\u{3146}' {
        '\u{3145}'
    } else if c == '\u{3148}' || c == '\u{3149}' || c == '\u{314a}' {
        '\u{3148}'
    } else {
        c
    }
}

/// Whether a character belongs to one of the five consonant equivalence
/// classes of the substitution table.
pub open spec fn in_confusable_class(c: char) -> bool {
    c == '\u{3131}' || c == '\u{314b}' || c == '\u{3132}' || c == '\u{3137}' || c == '\u{3138}'
        || c == '\u{314c}' || c == '\u{3142}' || c == '\u{3143}' || c == '\u{314d}' || c
        == '\u{3145}' || c == '\u{3146}' || c == '\u{3148}' || c == '\u{3149}' || c == '\u{314a}'
}

/// Whether two characters are consonants of the same equivalence class.
pub open spec fn same_consonant_class(a: char, b: char) -> bool {
    in_confusable_class(a) && in_confusable_class(b) && folded_consonant(a) == folded_consonant(b)
}

fn fold_consonant(c: char) -> (r: char)
    ensures
        r == folded_consonant(c),
{
    match c {
        '\u{3131}' | '\u{314b}' | '\u{3132}' => '\u{3131}',
        '\u{3137}' | '\u{3138}' | '\u{314c}' => '\u{3137}',
        '\u{3142}' | '\u{3143}' | '\u{314d}' => '\u{3142}',
        '\u{3145}' | '\u{3146}' => '\u{3145}',
        '\u{3148}' | '\u{3149}' | '\u{314a}' => '\u{3148}',
        _ => c,
    }
}

/// What the space-dropping and consonant-folding steps make of an already
/// decomposed sequence of code points: spaces are removed and every other
/// code point is replaced by its class representative, in order.
pub open spec fn clean_jamo(s: Seq<char>) -> Seq<char>
    decreases s.len(),
{
    if s.len() == 0 {
        Seq::empty()
    } else {
        clean_jamo(s.drop_last()) + (if s.last() == ' ' {
            Seq::<char>::empty()
        } else {
            seq![folded_consonant(s.last())]
        })
    }
}

/// The concatenation of the canonical decompositions of a sequence's
/// characters, in order.
pub open spec fn decomposition(s: Seq<char>) -> Seq<char>
    decreases s.len(),
{
    if s.len() == 0 {
        Seq::empty()
    } else {
        decomposition(s.drop_last()) + nfd_char(s.last())
    }
}

/// What `normalize` returns for a string with the given characters.
pub open spec fn normalized(s: Seq<char>) -> Seq<char> {
    clean_jamo(decomposition(s))
}

/// Normalize a grapheme (or any string) into a sequence of code points:
/// canonically decompose each character, drop spaces, and collapse
/// confusable consonants to their class representative.
pub fn normalize(s: &str) -> (r: Vec<char>)
    ensures
        r@ == normalized(s@),
{
    let cs = crate::distance::chars_of(s);
    let mut out: Vec<char> = Vec::new();
    let n = cs.len();
    for k in 0..n
        invariant
            n == cs@.len(),
            cs@ == s@,
            out@ == clean_jamo(decomposition(s@.take(k as int))),
    {
        let parts = nfd_decompose(cs[k]);
        let ghost done = decomposition(s@.take(k as int));
        let pn = parts.len();
        for p in 0..pn
            invariant
                n == cs@.len(),
                cs@ == s@,
                k < n,
                pn == parts@.len(),
                parts@ == nfd_char(s@[k as int]),
                done == decomposition(s@.take(k as int)),
                out@ == clean_jamo(done + parts@.take(p as int)),
        {
            let c = parts[p];
            proof {
                assert((done + parts@.take(p + 1)).drop_last() =~= done + parts@.take(p as int));
                assert((done + parts@.take(p + 1)).last() == parts@[p as int]);
            }
            if c != ' ' {
                out.push(fold_consonant(c));
            }
        }
        proof {
            assert(parts@.take(pn as int) =~= parts@);
            assert(s@.take(k + 1).drop_last() =~= s@.take(k as int));
            assert(s@.take(k + 1).last() == s@[k as int]);
        }
    }
    proof {
        assert(s@.take(n as int) =~= s@);
    }
    out
}

/// Substituting one consonant of an equivalence class for another, in an
/// otherwise identical decomposed sequence, leaves the normalized form
/// unchanged, so the two normalized forms are at edit distance zero.
pub proof fn lemma_consonant_class_collapse(pre: Seq<char>, a: char, b: char, suf: Seq<char>)
    requires
        same_consonant_class(a, b),
    ensures
        clean_jamo(pre + seq![a] + suf) == clean_jamo(pre + seq![b] + suf),
        edit_dist(clean_jamo(pre + seq![a] + suf), clean_jamo(pre + seq![b] + suf)) == 0,
    decreases suf.len(),
{
    if suf.len() == 0 {
        assert((pre + seq![a] + suf).drop_last() =~= pre);
        assert((pre + seq![b] + suf).drop_last() =~= pre);
        assert((pre + seq![a] + suf).last() == a);
        assert((pre + seq![b] + suf).last() == b);
    } else {
        lemma_consonant_class_collapse(pre, a, b, suf.drop_last());
        assert((pre + seq![a] + suf).drop_last() =~= pre + seq![a] + suf.drop_last());
        assert((pre + seq![b] + suf).drop_last() =~= pre + seq![b] + suf.drop_last());
        assert((pre + seq![a] + suf).last() == suf.last());
        assert((pre + seq![b] + suf).last() == suf.last());
    }
    lemma_edit_dist_self(clean_jamo(pre + seq![a] + suf));
}

} // verus!
