use wasm_test_runner::text::{
    chars_of, contains_from, find_from, matches_at, push_decimal, push_range, push_signed_decimal,
    same_text, split_nonempty,
};

fn chars(s: &str) -> Vec<char> {
    s.chars().collect()
}

#[test]
fn characters_round_trip() {
    for s in ["", "a", "héllo wörld", "line\nfeed\r"] {
        assert_eq!(chars_of(s), chars(s));
        let mut back = String::new();
        push_range(&mut back, &chars_of(s), 0, s.chars().count());
        assert_eq!(back, s);
    }
}

#[test]
fn range_is_appended_to_what_is_there() {
    let mut out = "ab".to_string();
    push_range(&mut out, &chars("012345"), 2, 5);
    assert_eq!(out, "ab234");
    push_range(&mut out, &chars("012345"), 3, 3);
    assert_eq!(out, "ab234");
}

#[test]
fn decimal_numerals() {
    for n in [0u64, 1, 9, 10, 11, 99, 100, 101, 1234567890, u64::MAX] {
        let mut out = "n=".to_string();
        push_decimal(&mut out, n);
        assert_eq!(out, format!("n={}", n));
    }
}

#[test]
fn signed_decimal_numerals() {
    for i in [0i32, 1, -1, 10, -10, 255, -255, i32::MAX, i32::MIN] {
        let mut out = String::new();
        push_signed_decimal(&mut out, i);
        assert_eq!(out, format!("{}", i));
    }
}

#[test]
fn occurrence_at_an_offset() {
    let hay = chars("doctest_bundle_2024");
    assert!(matches_at(&hay, &chars("doctest_"), 0));
    assert!(matches_at(&hay, &chars("bundle"), 8));
    assert!(!matches_at(&hay, &chars("bundle"), 7));
    assert!(matches_at(&hay, &chars(""), 19));
    assert!(!matches_at(&hay, &chars(""), 20));
    assert!(!matches_at(&hay, &chars("2024x"), 15));
    assert!(!matches_at(&hay, &chars("x"), usize::MAX));
}

#[test]
fn first_occurrence_from_an_offset() {
    let hay = chars("abcabcabc");
    assert_eq!(find_from(&hay, &chars("bc"), 0), Some(1));
    assert_eq!(find_from(&hay, &chars("bc"), 1), Some(1));
    assert_eq!(find_from(&hay, &chars("bc"), 2), Some(4));
    assert_eq!(find_from(&hay, &chars("bc"), 8), None);
    assert_eq!(find_from(&hay, &chars("x"), 0), None);
    assert_eq!(find_from(&hay, &chars(""), 9), Some(9));
    assert_eq!(find_from(&hay, &chars(""), 10), None);
    assert_eq!(find_from(&hay, &chars("abcabcabcd"), 0), None);
}

#[test]
fn containment_behind_an_offset() {
    let hay = chars("xx__doctest_0");
    assert!(contains_from(&hay, &chars("__doctest_"), 0));
    assert!(contains_from(&hay, &chars("__doctest_"), 2));
    assert!(!contains_from(&hay, &chars("__doctest_"), 3));
    assert!(contains_from(&hay, &chars(""), 13));
    assert!(!contains_from(&hay, &chars(""), 14));
    assert!(!contains_from(&hay, &chars("x"), usize::MAX));
}

#[test]
fn texts_are_compared_character_by_character() {
    assert!(same_text(&chars("main"), &chars("main")));
    assert!(same_text(&chars(""), &chars("")));
    assert!(!same_text(&chars("main"), &chars("main2")));
    assert!(!same_text(&chars("main"), &chars("mair")));
    assert!(!same_text(&chars("main"), &chars("")));
}

#[test]
fn split_drops_empty_pieces() {
    let pieces = |s: &str| split_nonempty(s, ',');
    assert_eq!(pieces(""), Vec::<String>::new());
    assert_eq!(pieces("a"), vec!["a"]);
    assert_eq!(pieces("a,b"), vec!["a", "b"]);
    assert_eq!(pieces(",a,,b,,"), vec!["a", "b"]);
    assert_eq!(split_nonempty("a:b,c", ':'), vec!["a", "b,c"]);
}
