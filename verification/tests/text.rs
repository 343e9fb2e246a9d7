use zellij_sessions::text::{
    contains_chars, find_char_from, is_space_char, same_opt_text, same_text, skip_spaces_from,
    skip_word_from, to_chars, trim_end_from,
};

fn chars(text: &str) -> Vec<char> {
    text.chars().collect()
}

#[test]
fn white_space_is_what_the_standard_library_takes_for_it() {
    for code in 0..=0x10ffffu32 {
        if let Some(c) = char::from_u32(code) {
            assert_eq!(is_space_char(c), c.is_whitespace(), "U+{code:04X}");
        }
    }
}

#[test]
fn texts_are_the_same_when_their_characters_are() {
    assert!(same_text("", ""));
    assert!(same_text("layout", "layout"));
    assert!(same_text("日本語", "日本語"));
    assert!(!same_text("layout", "Layout"));
    assert!(!same_text("layout", "layouts"));
    assert!(!same_text("", " "));
    assert!(!same_text("é", "e\u{301}"));
    assert!(same_opt_text(&None, &None));
    assert!(same_opt_text(&Some("a".to_string()), &Some("a".to_string())));
    assert!(!same_opt_text(&Some("a".to_string()), &None));
    assert!(!same_opt_text(&None, &Some(String::new())));
    assert!(!same_opt_text(&Some("a".to_string()), &Some("b".to_string())));
}

#[test]
fn characters_are_taken_one_by_one() {
    assert_eq!(to_chars("aé日\u{1b}"), vec!['a', 'é', '日', '\u{1b}']);
    assert_eq!(to_chars(""), Vec::<char>::new());
}

#[test]
fn a_character_is_found_from_a_position_on() {
    let text = chars("a:b:c");
    assert_eq!(find_char_from(&text, ':', 0), 1);
    assert_eq!(find_char_from(&text, ':', 1), 1);
    assert_eq!(find_char_from(&text, ':', 2), 3);
    assert_eq!(find_char_from(&text, ':', 4), 5);
    assert_eq!(find_char_from(&text, ':', 5), 5);
    assert_eq!(find_char_from(&text, 'x', 0), 5);
    assert_eq!(find_char_from(&chars(""), 'x', 0), 0);
}

#[test]
fn white_space_is_skipped_and_cut_off() {
    let text = chars("  ab cd \t");
    assert_eq!(skip_spaces_from(&text, 0), 2);
    assert_eq!(skip_word_from(&text, 2), 4);
    assert_eq!(skip_spaces_from(&text, 4), 5);
    assert_eq!(skip_word_from(&text, 5), 7);
    assert_eq!(skip_spaces_from(&text, 7), 9);
    assert_eq!(skip_word_from(&text, 9), 9);
    assert_eq!(trim_end_from(&text, 0), 7);
    assert_eq!(trim_end_from(&text, 7), 7);
    assert_eq!(trim_end_from(&text, 8), 8);
    assert_eq!(trim_end_from(&chars("   "), 0), 0);
    assert_eq!(trim_end_from(&chars("   "), 2), 2);
}

#[test]
fn a_pattern_is_found_wherever_it_stands() {
    let marker = chars("EXITED");
    assert!(contains_chars(&chars("EXITED"), &marker));
    assert!(contains_chars(&chars("x (EXITED - attach)"), &marker));
    assert!(contains_chars(&chars("EXITEEXITED"), &marker));
    assert!(!contains_chars(&chars("EXITE"), &marker));
    assert!(!contains_chars(&chars("exited"), &marker));
    assert!(!contains_chars(&chars("EXIT ED"), &marker));
    assert!(!contains_chars(&chars(""), &marker));
    assert!(contains_chars(&chars("abc"), &chars("")));
    assert!(contains_chars(&chars(""), &chars("")));
}

#[test]
fn a_pattern_is_found_as_the_standard_library_finds_it() {
    for text in ["", "a", "ab", "aab", "abab", "baaab", "aaa", "xyz"] {
        for pattern in ["", "a", "ab", "aa", "aab", "b", "abc"] {
            assert_eq!(
                contains_chars(&chars(text), &chars(pattern)),
                text.contains(pattern),
                "{text:?} {pattern:?}"
            );
        }
    }
}
