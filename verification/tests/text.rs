use staticify::text::{chars_of, find_from, matches_at, same_text};

#[test]
fn characters_one_by_one() {
    assert_eq!(chars_of(""), Vec::<char>::new());
    assert_eq!(chars_of("a–b"), vec!['a', '–', 'b']);
}

#[test]
fn pattern_at_a_place() {
    let text = chars_of("abcabc");
    let pattern = chars_of("bc");
    assert!(matches_at(&text, &pattern, 1));
    assert!(matches_at(&text, &pattern, 4));
    assert!(!matches_at(&text, &pattern, 0));
    assert!(!matches_at(&text, &pattern, 5));
    assert!(!matches_at(&text, &pattern, 6));
    assert!(!matches_at(&text, &pattern, 7));
    assert!(!matches_at(&text, &pattern, usize::MAX));
    let nothing = chars_of("");
    assert!(matches_at(&text, &nothing, 0));
    assert!(matches_at(&text, &nothing, 6));
    assert!(!matches_at(&text, &nothing, 7));
}

#[test]
fn first_place_of_a_pattern() {
    let text = chars_of("abcabc");
    let pattern = chars_of("bc");
    assert_eq!(find_from(&text, &pattern, 0), Some(1));
    assert_eq!(find_from(&text, &pattern, 1), Some(1));
    assert_eq!(find_from(&text, &pattern, 2), Some(4));
    assert_eq!(find_from(&text, &pattern, 5), None);
    assert_eq!(find_from(&text, &pattern, 100), None);
    assert_eq!(find_from(&text, &chars_of("x"), 0), None);
    assert_eq!(find_from(&text, &chars_of(""), 6), Some(6));
    assert_eq!(find_from(&text, &chars_of(""), 7), None);
}

#[test]
fn same_and_different_texts() {
    assert!(same_text("", ""));
    assert!(same_text("post", "post"));
    assert!(!same_text("post", "posts"));
    assert!(!same_text("posts", "post"));
    assert!(!same_text("post", "pose"));
    assert!(!same_text("post", ""));
}
