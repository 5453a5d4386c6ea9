use k_edit_distance::levenshtein_distance;

#[test]
fn test_levenshtein_distance() {
    assert_eq!(levenshtein_distance("hello", "hello"), 0);
    assert_eq!(levenshtein_distance("", ""), 0);
    assert_eq!(levenshtein_distance("kitten", "sitten"), 1);
    assert_eq!(levenshtein_distance("sitten", "sittin"), 1);
    assert_eq!(levenshtein_distance("sittin", "sitting"), 1);
    assert_eq!(levenshtein_distance("book", "back"), 2);
    assert_eq!(levenshtein_distance("apple", "back"), 5);
    assert_eq!(levenshtein_distance("hello", ""), 5);
}

#[test]
fn test_levenshtein_distance_symmetry() {
    assert_eq!(
        levenshtein_distance("kitten", "sitting"),
        levenshtein_distance("sitting", "kitten")
    );
    assert_eq!(levenshtein_distance("", "hello"), 5);
    assert_eq!(
        levenshtein_distance("abc", ""),
        levenshtein_distance("", "abc")
    );
}

#[test]
fn test_levenshtein_distance_bounds() {
    let cases = [("kitten", "sitting"), ("book", "back"), ("", "abc"), ("a", "a")];
    for (s, t) in cases {
        let d = levenshtein_distance(s, t);
        let m = s.chars().count();
        let n = t.chars().count();
        assert!(d <= m.max(n));
        assert!(d >= m.abs_diff(n));
    }
}
