use tusk_php::text::{
    cut, cut_end, cut_start, eq_ignoring_case, join_strings, run_length, same, strip_prefix,
    text_lines, text_split, text_words, to_chars, to_text, CharClass,
};

const SAMPLES: [&str; 16] = [
    "",
    "\n",
    "\r\n",
    "\r",
    "a",
    "a\n",
    "a\r\n",
    "a\r",
    "a\rb\r\nc",
    "a\n\nb\n\n",
    "  a  b\tc ",
    "\u{a0}x\u{3000}y\u{2009}\u{85}",
    "a/b//c/",
    "/",
    "\u{e9}\u{4e2d}\u{1f418} \u{df}\n",
    "\r\r\n\n\r",
];

#[test]
fn white_space_is_that_of_unicode() {
    for code in 0..=0x10ffffu32 {
        if let Some(c) = char::from_u32(code) {
            assert_eq!(CharClass::WhiteSpace.contains(c), c.is_whitespace(), "{:x}", code);
            assert_eq!(
                CharClass::Identifier.contains(c),
                c.is_ascii_alphanumeric() || c == '_',
                "{:x}",
                code
            );
        }
    }
}

#[test]
fn lines_are_those_of_the_standard_library() {
    for sample in SAMPLES {
        let chars = to_chars(sample);
        let found: Vec<String> = text_lines(&chars).into_iter().map(to_text).collect();
        let wanted: Vec<&str> = sample.lines().collect();
        assert_eq!(found, wanted, "{:?}", sample);
    }
}

#[test]
fn words_are_those_of_the_standard_library() {
    for sample in SAMPLES {
        let chars = to_chars(sample);
        let found: Vec<String> = text_words(&chars).into_iter().map(to_text).collect();
        let wanted: Vec<&str> = sample.split_whitespace().collect();
        assert_eq!(found, wanted, "{:?}", sample);
    }
}

#[test]
fn pieces_are_those_of_the_standard_library() {
    for sample in SAMPLES {
        let chars = to_chars(sample);
        let found: Vec<String> = text_split(&chars, '/').into_iter().map(to_text).collect();
        let wanted: Vec<&str> = sample.split('/').collect();
        assert_eq!(found, wanted, "{:?}", sample);
    }
}

#[test]
fn cuts_are_those_of_the_standard_library() {
    for sample in SAMPLES {
        let chars = to_chars(sample);
        assert_eq!(to_text(cut(&chars, CharClass::WhiteSpace)), sample.trim());
        assert_eq!(to_text(cut_start(&chars, CharClass::WhiteSpace)), sample.trim_start());
        assert_eq!(to_text(cut_end(&chars, CharClass::WhiteSpace)), sample.trim_end());
        assert_eq!(to_text(cut(&chars, CharClass::Only('/'))), sample.trim_matches('/'));
    }
}

#[test]
fn a_run_ends_at_the_first_other_character() {
    let chars = to_chars("ab;c");
    assert_eq!(run_length(&chars, CharClass::Either(';', '{'), false), 2);
    assert_eq!(run_length(&chars, CharClass::Identifier, true), 2);
    assert_eq!(run_length(&chars, CharClass::Only('x'), false), 4);
}

#[test]
fn a_prefix_is_taken_off() {
    let chars = to_chars("namespace App;");
    assert_eq!(strip_prefix(&chars, "namespace ").map(to_text), Some("App;".to_string()));
    assert_eq!(strip_prefix(&chars, "Namespace ").map(to_text), None);
    assert_eq!(strip_prefix(&chars, "namespace App; ").map(to_text), None);
    assert!(same(&chars, "namespace App;"));
    assert!(!same(&chars, "namespace App"));
}

#[test]
fn strings_are_joined() {
    assert_eq!(join_strings(&[], " "), "");
    assert_eq!(join_strings(&["a".to_string()], " "), "a");
    let list = ["a".to_string(), "".to_string(), "b".to_string()];
    assert_eq!(join_strings(&list, "\\"), list.join("\\"));
}

#[test]
fn letter_case_is_ignored_in_ascii_only() {
    assert!(eq_ignoring_case("aBcZ09", "AbCz09"));
    assert!(!eq_ignoring_case("abc", "abcd"));
    assert!(!eq_ignoring_case("abd", "abc"));
    assert!(!eq_ignoring_case("\u{e9}", "\u{c9}"));
    assert!(!eq_ignoring_case("@", "`"));
    assert!(!eq_ignoring_case("[", "{"));
}
