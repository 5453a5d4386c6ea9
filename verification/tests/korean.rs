use k_edit_distance::k_edit_distance_parts;
use k_edit_distance::normalize;

/// The similarity score as the original program computes it: the integer
/// parts from the library, divided in single-precision floating point, with
/// the empty/empty short-circuit.
fn score(s: &str, t: &str) -> f32 {
    let (total, denom) = k_edit_distance_parts(s, t).unwrap();
    if denom == 0 {
        return 0.0;
    }
    total as f32 / denom as f32
}

#[test]
fn test_kang_seung_shik_distance() {
    // These are from the paper
    assert_eq!(score("\u{ad6d}\u{c5b4}", "\u{c219}\u{c5b4}"), 0.16666667);
    assert_eq!(
        score(
            "\u{b098}\u{bb34}\u{ac00}\u{c9c0}",
            "\u{b098}\u{bb47}\u{ac00}\u{c9c0}"
        ),
        0.083333336
    );
    // These are ones that confuse me
    assert_eq!(score("\u{c2e0}\u{bb38}", "\u{c2dd}\u{bb3c}"), 0.33333334);
    assert_eq!(score("\u{c2e0}\u{bb38}", "\u{c2dd}\u{bb3c}"), 0.33333334);
    // These are super different
    assert_eq!(
        score("\u{ac80}\u{c740}\u{c0c9}", "\u{bd84}\u{d64d}\u{c0c9}"),
        0.6666667
    );
    assert_eq!(
        score("\u{c2e0}\u{d638}\u{b4f1}", "\u{d0dd}\u{c2dc}"),
        0.8888889
    );
    assert_eq!(
        score(
            "\u{c9c4}\u{acf5}\u{ccad}\u{c18c}\u{ae30}",
            "\u{c1a5}"
        ),
        0.8666667
    );
    assert_eq!(score("\u{d558}\u{b298}", "\u{d0dd}\u{c2dc}"), 1.0);

    assert_eq!(score("", ""), 0.);
}

#[test]
fn test_empty_parts_short_circuit() {
    assert_eq!(k_edit_distance_parts("", ""), Some((0, 0)));
}

#[test]
fn test_identical_strings_score_zero() {
    assert_eq!(score("\u{c2e0}\u{bb38}", "\u{c2e0}\u{bb38}"), 0.0);
    assert_eq!(score("hello", "hello"), 0.0);
    assert_eq!(
        k_edit_distance_parts("\u{c2e0}\u{bb38}", "\u{c2e0}\u{bb38}"),
        Some((0, 6))
    );
}

#[test]
fn test_score_symmetry() {
    let pairs = [
        ("\u{ad6d}\u{c5b4}", "\u{c219}\u{c5b4}"),
        ("\u{d558}\u{b298}", "\u{d0dd}\u{c2dc}"),
        ("abc", ""),
        ("\u{c2e0}\u{bb38}", "\u{c2dd}\u{bb3c}"),
    ];
    for (s, t) in pairs {
        assert_eq!(k_edit_distance_parts(s, t), k_edit_distance_parts(t, s));
    }
}

#[test]
fn test_missing_syllables_count_fully() {
    // One grapheme against the empty string: the whole normalized jamo
    // sequence of the extra syllable is the distance.
    assert_eq!(k_edit_distance_parts("a", ""), Some((1, 3)));
    // A precomposed syllable decomposes into three jamo.
    assert_eq!(k_edit_distance_parts("\u{ad6d}", ""), Some((3, 3)));
}

#[test]
fn test_grapheme_segmentation_keeps_combining_marks() {
    // "a" followed by a combining acute accent is one grapheme, so the
    // denominator counts one syllable on each side, and the accent alone
    // separates the two normalized sequences.
    assert_eq!(k_edit_distance_parts("a\u{301}", "a"), Some((1, 3)));
}

#[test]
fn test_normalize_decomposes_syllable_blocks() {
    // A precomposed syllable block splits into its conjoining jamo.
    assert_eq!(
        normalize("\u{ad6d}"),
        vec!['\u{1100}', '\u{116e}', '\u{11a8}']
    );
    assert_eq!(normalize(""), Vec::<char>::new());
}

#[test]
fn test_normalize_drops_spaces() {
    assert_eq!(normalize("a b"), vec!['a', 'b']);
    assert_eq!(normalize(" "), Vec::<char>::new());
}

#[test]
fn test_normalize_collapses_consonant_classes() {
    // Every member of each class maps to the plain representative.
    assert_eq!(normalize("\u{3131}\u{314b}\u{3132}"), vec!['\u{3131}', '\u{3131}', '\u{3131}']);
    assert_eq!(normalize("\u{3137}\u{3138}\u{314c}"), vec!['\u{3137}', '\u{3137}', '\u{3137}']);
    assert_eq!(normalize("\u{3142}\u{3143}\u{314d}"), vec!['\u{3142}', '\u{3142}', '\u{3142}']);
    assert_eq!(normalize("\u{3145}\u{3146}"), vec!['\u{3145}', '\u{3145}']);
    assert_eq!(normalize("\u{3148}\u{3149}\u{314a}"), vec!['\u{3148}', '\u{3148}', '\u{3148}']);
    // Other characters pass through unchanged.
    assert_eq!(normalize("x\u{3134}"), vec!['x', '\u{3134}']);
}

#[test]
fn test_confusable_consonants_score_zero() {
    // Two syllables written with consonants of the same class normalize to
    // the same sequence and contribute no distance.
    assert_eq!(k_edit_distance_parts("\u{3131}", "\u{314b}"), Some((0, 3)));
    assert_eq!(score("\u{3145}", "\u{3146}"), 0.0);
}
