use kuk::text::{
    chars_of, contains_chars, decimal, first_line_chars, join, parse_usize, slice_chars,
    split_chars, starts_with, string_of, strip_end_chars, strip_start_chars, trim_chars,
};

fn chars(s: &str) -> Vec<char> {
    s.chars().collect()
}

#[test]
fn chars_and_strings_convert_both_ways() {
    assert_eq!(chars_of("añb"), vec!['a', 'ñ', 'b']);
    assert_eq!(string_of(&vec!['a', 'ñ', 'b']), "añb");
    assert_eq!(string_of(&Vec::new()), "");
    assert_eq!(kuk::text::concat("ab", "cd"), "abcd");
    assert_eq!(slice_chars(&chars("hello"), 1, 3), chars("el"));
}

#[test]
fn contains_finds_a_run_anywhere() {
    assert!(contains_chars(&chars("Task A"), &chars("k A")));
    assert!(contains_chars(&chars("Task A"), &chars("")));
    assert!(contains_chars(&chars(""), &chars("")));
    assert!(contains_chars(&chars("aab"), &chars("ab")));
    assert!(contains_chars(&chars("abc"), &chars("abc")));
    assert!(!contains_chars(&chars("abc"), &chars("abcd")));
    assert!(!contains_chars(&chars("abc"), &chars("ac")));
    assert!(!contains_chars(&chars(""), &chars("a")));
}

#[test]
fn numbers_parse_as_in_std() {
    for text in ["0", "7", "+7", "007", "18446744073709551615", "18446744073709551616", "", "+",
        "-1", "1_000", " 1", "1 ", "٣", "0x10", "++1", "1+", "99999999999999999999999"]
    {
        assert_eq!(parse_usize(text), text.parse::<usize>().ok(), "{text:?}");
    }
    assert_eq!(parse_usize("42"), Some(42));
    assert_eq!(parse_usize("+0"), Some(0));
}

#[test]
fn decimal_writes_numbers_as_std_does() {
    for n in [0usize, 1, 9, 10, 11, 99, 100, 101, 12345, 1_000_000, usize::MAX] {
        assert_eq!(decimal(n), n.to_string());
    }
}

#[test]
fn join_puts_the_separator_between() {
    assert_eq!(join(&Vec::new(), ", "), "");
    assert_eq!(join(&vec!["a".to_string()], ", "), "a");
    assert_eq!(join(&vec!["a".to_string(), "".to_string(), "c".to_string()], ", "), "a, , c");
    assert_eq!(join(&vec!["x".to_string(), "y".to_string()], ""), "xy");
}

#[test]
fn trimming_and_lines_follow_std() {
    for text in ["", " ", "a", "  a b \t\n", "\u{a0}x\u{2003}", "\r\n", "a\r\nb", "a\nb\n", "a\r",
        "\nfirst", "one\rtwo\nthree", "\r\nx"]
    {
        assert_eq!(string_of(&trim_chars(&chars(text))), text.trim(), "{text:?}");
        assert_eq!(
            string_of(&first_line_chars(&chars(text))),
            text.lines().next().unwrap_or(text),
            "{text:?}"
        );
    }
}

#[test]
fn stripping_and_splitting_follow_std() {
    for text in ["", "/", "//", "a", "a/", "/a", "a//b/", "///a///", "a/b/c"] {
        assert_eq!(string_of(&strip_end_chars(&chars(text), '/')), text.trim_end_matches('/'));
        assert_eq!(string_of(&strip_start_chars(&chars(text), '/')), text.trim_start_matches('/'));
        let parts: Vec<String> = split_chars(&chars(text), '/').iter().map(string_of).collect();
        let expected: Vec<&str> = text.split('/').collect();
        assert_eq!(parts, expected, "{text:?}");
    }
}

#[test]
fn starts_with_compares_the_beginning() {
    assert!(starts_with(&chars("feat: x"), &chars("feat")));
    assert!(starts_with(&chars("feat"), &chars("feat")));
    assert!(starts_with(&chars("feat"), &chars("")));
    assert!(!starts_with(&chars("fea"), &chars("feat")));
    assert!(!starts_with(&chars("xfeat"), &chars("feat")));
}

/// The characters that count as white space.
fn is_space(c: char) -> bool {
    matches!(
        c as u32,
        0x09..=0x0d
            | 0x20
            | 0x85
            | 0xa0
            | 0x1680
            | 0x2000..=0x200a
            | 0x2028
            | 0x2029
            | 0x202f
            | 0x205f
            | 0x3000
    )
}

#[test]
fn white_space_is_what_trimming_takes_away() {
    let mut spaces = 0;
    for c in (0..=0x10ffff_u32).filter_map(char::from_u32) {
        assert_eq!(c.is_whitespace(), is_space(c), "{:x}", c as u32);
        let kept = kuk::text::trim_chars(&vec![c, 'a', c]);
        if is_space(c) {
            spaces += 1;
            assert_eq!(kept, vec!['a']);
        } else {
            assert_eq!(kept, vec![c, 'a', c]);
        }
    }
    assert_eq!(spaces, 25);
}
