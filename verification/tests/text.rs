use mcerv::text::{
    all_whitespace, byte_offset, char_width, chars_of, contains, copy_range, count_dashes, find,
    find_first, find_word_start, is_whitespace, join_strings, matches_at, seq_eq, starts_with,
    str_eq,
};

fn chars(s: &str) -> Vec<char> {
    s.chars().collect()
}

#[test]
fn whitespace_agrees_with_the_standard_library_everywhere() {
    for c in (0..=0x10FFFFu32).filter_map(char::from_u32) {
        assert_eq!(is_whitespace(c), c.is_whitespace(), "U+{:04X}", c as u32);
    }
}

#[test]
fn char_width_is_the_length_in_utf8() {
    for c in (0..=0x10FFFFu32).filter_map(char::from_u32) {
        assert_eq!(char_width(c), c.len_utf8(), "U+{:04X}", c as u32);
    }
}

#[test]
fn chars_of_gives_the_characters() {
    assert_eq!(chars_of("a\u{e9}\u{1F600}"), vec!['a', '\u{e9}', '\u{1F600}']);
    assert_eq!(chars_of(""), Vec::<char>::new());
}

#[test]
fn texts_are_compared_by_their_characters() {
    assert!(str_eq("", ""));
    assert!(str_eq("abc", "abc"));
    assert!(!str_eq("abc", "abd"));
    assert!(!str_eq("abc", "ab"));
    assert!(seq_eq(&chars("x"), &chars("x")));
    assert!(!seq_eq(&chars("x"), &chars("")));
}

#[test]
fn occurrences_are_found_from_the_left() {
    let s = chars("abcabc");
    assert!(matches_at(&s, &chars("bc"), 1));
    assert!(!matches_at(&s, &chars("bc"), 2));
    assert!(matches_at(&s, &chars(""), 6));
    assert!(!matches_at(&s, &chars(""), 7));
    assert!(!matches_at(&s, &chars("c"), usize::MAX));
    assert!(starts_with(&s, &chars("abc")));
    assert!(starts_with(&s, &chars("")));
    assert!(!starts_with(&s, &chars("bc")));
    assert!(!starts_with(&chars("ab"), &s));
    assert_eq!(find(&s, &chars("bc")), Some(1));
    assert_eq!(find(&s, &chars("ca")), Some(2));
    assert_eq!(find(&s, &chars("")), Some(0));
    assert_eq!(find(&s, &chars("cb")), None);
    assert_eq!(find(&chars(""), &chars("")), Some(0));
    assert_eq!(find(&chars("a"), &chars("ab")), None);
    assert_eq!(find_first(&s, &chars("c")), Some(2));
    assert_eq!(find_first(&s, &chars("d")), None);
    assert!(contains(&s, &chars("cab")));
    assert!(!contains(&s, &chars("abcc")));
}

#[test]
fn word_start_is_after_the_last_whitespace() {
    assert_eq!(find_word_start(&chars("")), 0);
    assert_eq!(find_word_start(&chars("abc")), 0);
    assert_eq!(find_word_start(&chars("ab cd")), 3);
    assert_eq!(find_word_start(&chars("ab cd ")), 6);
    assert_eq!(find_word_start(&chars("ab\tcd\u{a0}e")), 6);
    assert!(all_whitespace(&chars("")));
    assert!(all_whitespace(&chars(" \t\u{3000}")));
    assert!(!all_whitespace(&chars(" a ")));
}

#[test]
fn dashes_are_counted_at_the_start() {
    assert_eq!(count_dashes(&chars("")), 0);
    assert_eq!(count_dashes(&chars("opt")), 0);
    assert_eq!(count_dashes(&chars("-o")), 1);
    assert_eq!(count_dashes(&chars("--opt-1")), 2);
    assert_eq!(count_dashes(&chars("---")), 3);
}

#[test]
fn byte_offsets_follow_the_encoding() {
    let s = chars("a\u{e9}\u{20ac}\u{1F600}z");
    let expected = [0, 1, 3, 6, 10, 11];
    for (n, offset) in expected.iter().enumerate() {
        assert_eq!(byte_offset(&s, n), *offset);
    }
}

#[test]
fn ranges_are_copied() {
    let s = chars("abcdef");
    assert_eq!(copy_range(&s, 1, 4), chars("bcd"));
    assert_eq!(copy_range(&s, 2, 2), chars(""));
    assert_eq!(copy_range(&s, 0, 6), s);
}

#[test]
fn strings_are_joined_with_a_separator() {
    let parts: Vec<String> = ["a", "", "b"].iter().map(|p| p.to_string()).collect();
    assert_eq!(join_strings(&parts, ", "), "a, , b");
    assert_eq!(join_strings(&parts[..1], ", "), "a");
    assert_eq!(join_strings(&[], ", "), "");
}
