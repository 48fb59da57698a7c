use twitch_translator::text::{
    chars_of, contains_word, find_char, find_word, is_empty, join2, join3, join4, lines,
    repeated, replace, same_text, starts_with_word, string_of, trim, trim_end_char,
    trim_start_char,
};

const SAMPLES: [&str; 14] = [
    "",
    " ",
    "a",
    "ab",
    "aab",
    "  a b\t\n",
    "a\r\nb\nc\r",
    "\n\n",
    "\r\n",
    "x\n",
    "::a:",
    "привет мир",
    "\u{3000}да\u{85}",
    "\u{200b}\u{feff}",
];

#[test]
fn lines_are_those_of_the_standard_library() {
    for s in SAMPLES {
        let expected: Vec<&str> = s.lines().collect();
        assert_eq!(lines(&chars_of(s)), expected);
    }
}

#[test]
fn trimming_is_that_of_the_standard_library() {
    for s in SAMPLES {
        let chars = chars_of(s);
        assert_eq!(string_of(trim(&chars)), s.trim());
        assert_eq!(string_of(trim_start_char(&chars, ':')), s.trim_start_matches(':'));
        assert_eq!(string_of(trim_end_char(&chars, ':')), s.trim_end_matches(':'));
    }
    for code in 0..0x11000u32 {
        if let Some(c) = char::from_u32(code) {
            assert_eq!(trim(&[c]).is_empty(), c.is_whitespace());
        }
    }
}

#[test]
fn searching_is_that_of_the_standard_library() {
    for s in SAMPLES {
        let chars = chars_of(s);
        for w in ["", "a", "ab", "\n", "мир", "b\t"] {
            let word = chars_of(w);
            let expected = s.find(w).map(|i| s[..i].chars().count());
            assert_eq!(find_word(&chars, &word), expected);
            assert_eq!(contains_word(&chars, w), s.contains(w));
            assert_eq!(starts_with_word(&chars, w), s.starts_with(w));
            assert_eq!(same_text(s, w), s == w);
            if !w.is_empty() {
                let replaced = replace(&chars, &word, &chars_of("--"));
                assert_eq!(string_of(&replaced), s.replace(w, "--"));
            }
        }
        for c in ['a', ':', 'и'] {
            assert_eq!(find_char(&chars, c), s.chars().position(|d| d == c));
        }
        assert_eq!(is_empty(s), s.is_empty());
    }
}

#[test]
fn overlapping_words_are_replaced_from_the_left() {
    let replaced = replace(&chars_of("aaa"), &chars_of("aa"), &chars_of("b"));
    assert_eq!(string_of(&replaced), "ba");
}

#[test]
fn joining() {
    assert_eq!(join2("a", "b"), "ab");
    assert_eq!(join3("a", "", "c"), "ac");
    assert_eq!(join4("a", "b", "c", "d"), "abcd");
    assert_eq!(repeated('─', 3), "───");
    assert_eq!(repeated('x', 0), "");
}
