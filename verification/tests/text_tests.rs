use arp_scan::text::{
    chars_of, contains, is_whitespace, join_from, remove_char, split, split_words, to_uppercase,
};

fn chars(s: &str) -> Vec<char> {
    s.chars().collect()
}

fn strings(parts: &[Vec<char>]) -> Vec<String> {
    parts.iter().map(|p| p.iter().collect()).collect()
}

#[test]
fn chars_of_lists_the_characters() {
    assert_eq!(chars_of(""), Vec::<char>::new());
    assert_eq!(chars_of("a/b"), vec!['a', '/', 'b']);
    assert_eq!(chars_of("äé✓"), vec!['ä', 'é', '✓']);
}

#[test]
fn whitespace_is_what_the_standard_library_says() {
    for n in 0u32..=0x10FFFF {
        if let Some(c) = char::from_u32(n) {
            assert_eq!(is_whitespace(c), c.is_whitespace(), "U+{:04X}", n);
        }
    }
}

#[test]
fn split_keeps_empty_pieces() {
    for text in ["", "a", "a.b", "a..b", ".a", "a.", "...", "1.2.3.4", "x/y"] {
        let expected: Vec<String> = text.split('.').map(|p| p.to_string()).collect();
        assert_eq!(strings(&split(&chars(text), '.')), expected, "{:?}", text);
    }
}

#[test]
fn split_words_drops_all_blanks() {
    for text in [
        "",
        " ",
        "one",
        "  one  ",
        "one two",
        "one \t two\u{a0}three\n",
        "AA-BB-CC   (hex)\t\tACME Corp",
        "\u{3000}wide\u{2003}spaces\u{85}",
    ] {
        let expected: Vec<String> = text.split_whitespace().map(|p| p.to_string()).collect();
        assert_eq!(strings(&split_words(&chars(text))), expected, "{:?}", text);
    }
}

#[test]
fn contains_finds_the_pattern_anywhere() {
    let cases = [
        ("", ""),
        ("abc", ""),
        ("", "a"),
        ("(hex)", "(hex)"),
        ("x (hex) y", "(hex)"),
        ("x (hex", "(hex)"),
        ("base 16", "base 16"),
        ("(base 16)", "base 16"),
        ("base  16", "base 16"),
        ("base 1", "base 16"),
        ("aaab", "aab"),
        ("abab", "bab"),
        ("abab", "abb"),
    ];
    for (text, pat) in cases {
        assert_eq!(contains(&chars(text), &chars(pat)), text.contains(pat), "{:?} {:?}", text, pat);
    }
}

#[test]
fn remove_char_takes_every_occurrence() {
    for text in ["", "-", "---", "AA-BB-CC", "AABBCC", "-A-", "a--b"] {
        let expected: Vec<char> = text.replace('-', "").chars().collect();
        assert_eq!(remove_char(&chars(text), '-'), expected, "{:?}", text);
    }
}

#[test]
fn join_puts_one_blank_between_parts() {
    let parts: Vec<Vec<char>> = vec![chars("a"), chars("b"), chars("ACME"), chars("Corp"), chars("Intl")];
    assert_eq!(join_from(&parts, 3), chars("Corp Intl"));
    assert_eq!(join_from(&parts, 2), chars("ACME Corp Intl"));
    assert_eq!(join_from(&parts, 4), chars("Intl"));
    assert_eq!(join_from(&parts, 5), chars(""));
    assert_eq!(join_from(&parts, 0), chars("a b ACME Corp Intl"));
}

#[test]
fn upper_case_of_ascii_is_what_the_standard_library_says() {
    for n in 0u32..0x80 {
        let c = char::from_u32(n).unwrap();
        let expected: Vec<char> = c.to_string().to_uppercase().chars().collect();
        assert_eq!(to_uppercase(&vec![c]), expected, "U+{:04X}", n);
    }
    for text in ["", "aabbcc", "AaBbCc", "00-1a-2b", "z{`@[a", "hello, world!", "\t\n~\u{7f}"] {
        let expected: Vec<char> = text.to_uppercase().chars().collect();
        assert_eq!(to_uppercase(&chars(text)), expected, "{:?}", text);
    }
}

#[test]
fn upper_case_beyond_ascii_is_what_the_standard_library_says() {
    for text in ["straße", "ﬀ", "aﬀe", "éa", "ǆ", "ŉ", "i\u{307}", "ὐ", "ab\u{80}", "日本語abc", "ſ", "µ"] {
        let expected: Vec<char> = text.to_uppercase().chars().collect();
        assert_eq!(to_uppercase(&chars(text)), expected, "{:?}", text);
    }
    assert_eq!(to_uppercase(&chars("aﬀe")), chars("AFFE"));
}
