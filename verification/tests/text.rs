//! Character-level primitives.

use mayfly_helper::text::{
    chars_eq, eq_ignoring_case, from_chars, is_control, is_literal, is_whitespace, parse_u32,
    split_line, split_word, strip_leading, strip_trailing, to_ascii_lower, to_chars, trim,
    trim_end, trim_start,
};

fn chars(s: &str) -> Vec<char> {
    s.chars().collect()
}

fn string(s: &[char]) -> String {
    s.iter().collect()
}

const SAMPLES: [&str; 10] = [
    "",
    " ",
    "a",
    "  a b  ",
    "\u{3000}x\u{85}",
    "x\t\n",
    "one two\tthree",
    "a\nb\r\nc",
    "\n\n",
    "last line without end\r",
];

#[test]
fn character_classes_agree_with_std() {
    for u in 0..=0x10ffffu32 {
        if let Some(c) = char::from_u32(u) {
            assert_eq!(is_whitespace(c), c.is_whitespace(), "{u:x}");
            assert_eq!(is_control(c), c.is_control(), "{u:x}");
            assert_eq!(to_ascii_lower(c), c.to_ascii_lowercase(), "{u:x}");
        }
    }
}

#[test]
fn conversions_round_trip() {
    for s in SAMPLES {
        assert_eq!(to_chars(s), chars(s));
        assert_eq!(from_chars(&chars(s)), s);
        assert!(is_literal(&chars(s), s));
        assert!(!is_literal(&chars(s), "something else"));
    }
    assert!(chars_eq(&chars("ab"), &chars("ab")));
    assert!(!chars_eq(&chars("ab"), &chars("aB")));
    assert!(!chars_eq(&chars("ab"), &chars("abc")));
}

#[test]
fn trimming_agrees_with_std() {
    for s in SAMPLES {
        assert_eq!(string(trim(&chars(s))), s.trim());
        assert_eq!(string(trim_start(&chars(s))), s.trim_start());
        assert_eq!(string(trim_end(&chars(s))), s.trim_end());
    }
    for s in ["//a//", "", "///", "a"] {
        assert_eq!(
            string(strip_leading(&chars(s), '/')),
            s.trim_start_matches('/')
        );
        assert_eq!(
            string(strip_trailing(&chars(s), '/')),
            s.trim_end_matches('/')
        );
    }
}

#[test]
fn case_is_ignored_in_ascii_only() {
    assert!(eq_ignoring_case(&chars("InClUdE"), "include"));
    assert!(!eq_ignoring_case(&chars("Includes"), "include"));
    assert!(!eq_ignoring_case(&chars("\u{c9}"), "\u{e9}"));
}

#[test]
fn words_and_lines_agree_with_std() {
    for s in SAMPLES {
        let all = chars(s);
        let mut rest = all.as_slice();
        let mut lines = Vec::new();
        while !rest.is_empty() {
            let (line, tail) = split_line(rest);
            lines.push(string(line));
            rest = tail;
        }
        assert_eq!(lines, s.lines().collect::<Vec<_>>());

        let mut rest = trim_start(&all);
        let mut words = Vec::new();
        while !rest.is_empty() {
            let (word, tail) = split_word(rest);
            words.push(string(word));
            rest = trim_start(tail);
        }
        assert_eq!(words, s.split_whitespace().collect::<Vec<_>>());
    }
}

#[test]
fn numbers_are_parsed() {
    assert_eq!(parse_u32(&chars("120")), Some(120));
    assert_eq!(parse_u32(&chars("+120")), Some(120));
    assert_eq!(parse_u32(&chars(" 120")), None);
    assert_eq!(parse_u32(&chars("")), None);
}
