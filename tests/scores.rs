use edit_distance::chars::chars_of;
use edit_distance::levenshtein::levenshtein;
use edit_distance::partial::partial_levenshtein;
use edit_distance::scores::{
    normalized_distance_ratio, normalized_partial_distance_ratio, rdistance, rpartial_distance,
    rpartial_similarity, rsimilarity, Ratio,
};

fn as_f64(r: Ratio) -> f64 {
    r.num as f64 / r.den as f64
}

#[test]
fn distance_kitten_sitting() {
    assert_eq!(rdistance("kitten", "sitting"), 3);
}

#[test]
fn distance_against_empty() {
    assert_eq!(rdistance("", "abc"), 3);
    assert_eq!(rdistance("abc", ""), 3);
    assert_eq!(rdistance("", ""), 0);
}

#[test]
fn normalized_distance_identical_and_empty() {
    assert_eq!(normalized_distance_ratio("abc", "abc"), Ratio { num: 0, den: 3 });
    assert_eq!(as_f64(normalized_distance_ratio("abc", "abc")), 0.0);
    assert_eq!(normalized_distance_ratio("", ""), Ratio { num: 0, den: 1 });
    assert_eq!(as_f64(normalized_distance_ratio("", "")), 0.0);
}

#[test]
fn normalized_distance_over_longer_length() {
    assert_eq!(normalized_distance_ratio("kitten", "sitting"), Ratio { num: 3, den: 7 });
    assert_eq!(normalized_distance_ratio("", "ab"), Ratio { num: 2, den: 2 });
    assert_eq!(as_f64(normalized_distance_ratio("abc", "xyz")), 1.0);
}

#[test]
fn normalized_similarity_complements_distance() {
    for (a, b) in [("kitten", "sitting"), ("abc", "abd"), ("", "x"), ("same", "same")] {
        let d = as_f64(normalized_distance_ratio(a, b));
        let s = 1.0 - d;
        assert!((0.0..=1.0).contains(&d));
        assert!((0.0..=1.0).contains(&s));
        assert_eq!(s + d, 1.0);
    }
    assert_eq!(1.0 - as_f64(normalized_distance_ratio("", "")), 1.0);
}

#[test]
fn partial_distance_exact_substring() {
    assert_eq!(rpartial_distance("abc", "xxabcxx"), 0);
    assert_eq!(rpartial_distance("xxabcxx", "abc"), 0);
}

#[test]
fn similarity_one_substitution() {
    assert_eq!(rsimilarity("abc", "abd"), 2);
}

#[test]
fn similarity_is_longer_length_less_distance() {
    assert_eq!(rsimilarity("kitten", "sitting"), 4);
    assert_eq!(rsimilarity("abc", "xyz"), 0);
    assert_eq!(rsimilarity("", ""), 0);
    assert_eq!(rsimilarity("", "abcd"), 0);
}

#[test]
fn normalized_partial_similarity_identical_and_empty() {
    assert_eq!(1.0 - as_f64(normalized_partial_distance_ratio("ab", "ab")), 1.0);
    assert_eq!(1.0 - as_f64(normalized_partial_distance_ratio("", "")), 1.0);
}

#[test]
fn normalized_partial_distance_over_shorter_length() {
    assert_eq!(normalized_partial_distance_ratio("ab", "xxab"), Ratio { num: 0, den: 2 });
    assert_eq!(normalized_partial_distance_ratio("abc", "xxabdxx"), Ratio { num: 1, den: 3 });
    assert_eq!(normalized_partial_distance_ratio("", "abc"), Ratio { num: 0, den: 1 });
    assert_eq!(as_f64(normalized_partial_distance_ratio("abc", "xyzxyz")), 1.0);
}

#[test]
fn partial_similarity_is_shorter_length_less_partial_distance() {
    assert_eq!(rpartial_similarity("abc", "xxabdxx"), 2);
    assert_eq!(rpartial_similarity("abc", "xxabcxx"), 3);
    assert_eq!(rpartial_similarity("", "abc"), 0);
    assert_eq!(rpartial_similarity("abc", "zzzzz"), 0);
}

#[test]
fn distance_by_character_not_byte() {
    assert_eq!(rdistance("日本語", "日本語"), 0);
    assert_eq!(rdistance("日本語", "日本"), 1);
    assert_eq!(rdistance("héllo", "hello"), 1);
    assert_eq!(rsimilarity("日本語", "日本人"), 2);
    assert_eq!(rpartial_distance("本語", "日本語です"), 0);
    assert_eq!(normalized_distance_ratio("日本語", "日本"), Ratio { num: 1, den: 3 });
}

#[test]
fn characters_are_collected_in_order() {
    assert_eq!(chars_of("añb"), vec!['a', 'ñ', 'b']);
    assert_eq!(chars_of(""), Vec::<char>::new());
}

#[test]
fn distance_is_symmetric() {
    for (a, b) in [("kitten", "sitting"), ("", "abc"), ("flaw", "lawn"), ("ab", "ba")] {
        assert_eq!(rdistance(a, b), rdistance(b, a));
    }
}

#[test]
fn distance_to_itself_is_zero() {
    for a in ["", "a", "kitten", "日本語"] {
        assert_eq!(rdistance(a, a), 0);
    }
}

#[test]
fn distance_between_length_difference_and_longer_length() {
    for (a, b) in [("kitten", "sitting"), ("", "abc"), ("abc", "xyz"), ("a", "abcdef")] {
        let (n, m) = (a.chars().count(), b.chars().count());
        let d = rdistance(a, b);
        assert!(d >= n.abs_diff(m));
        assert!(d <= n.max(m));
    }
    assert_eq!(rdistance("a", "abcdef"), 5);
    assert_eq!(rdistance("abc", "xyz"), 3);
}

#[test]
fn distance_of_slices() {
    assert_eq!(levenshtein(&['a', 'b'], &['b', 'a']), 2);
    assert_eq!(levenshtein(&['f', 'l', 'a', 'w'], &['l', 'a', 'w', 'n']), 2);
    assert_eq!(levenshtein(&[], &['x']), 1);
}

#[test]
fn partial_distance_at_most_every_window() {
    let short = "abc";
    let long = "xabyzabd";
    let p = rpartial_distance(short, long);
    let chars: Vec<char> = long.chars().collect();
    for start in 0..=chars.len() - 3 {
        let w: String = chars[start..start + 3].iter().collect();
        assert!(p <= rdistance(short, &w));
    }
    assert_eq!(p, 1);
}

#[test]
fn partial_distance_is_symmetric() {
    for (a, b) in [("abc", "xxabdxx"), ("ab", "ba"), ("", "abc"), ("kitten", "sitting")] {
        assert_eq!(rpartial_distance(a, b), rpartial_distance(b, a));
    }
}

#[test]
fn partial_distance_on_equal_lengths_is_distance() {
    for (a, b) in [("ab", "ba"), ("abcd", "xbcx"), ("flaw", "lawn"), ("", "")] {
        assert_eq!(rpartial_distance(a, b), rdistance(a, b));
    }
    assert_eq!(rpartial_distance("abcd", "xbcx"), 2);
}

#[test]
fn partial_distance_of_slices() {
    assert_eq!(partial_levenshtein(&['b', 'c'], &['a', 'b', 'c', 'd']), 0);
    assert_eq!(partial_levenshtein(&['a', 'b', 'c', 'd'], &['q', 'c']), 1);
    assert_eq!(partial_levenshtein(&[], &['q']), 0);
}
