use pkg_inventory::chars::{
    contains, ends_with, is_whitespace, split, split_lines, split_whitespace, starts_with,
    to_chars, to_string, trim,
};

fn chars(s: &str) -> Vec<char> {
    s.chars().collect()
}

fn strings(v: Vec<&[char]>) -> Vec<String> {
    v.into_iter().map(|s| s.iter().collect()).collect()
}

#[test]
fn to_chars_gives_the_characters_in_order() {
    assert_eq!(to_chars("aé\n"), vec!['a', 'é', '\n']);
    assert_eq!(to_chars(""), Vec::<char>::new());
}

#[test]
fn to_string_gives_back_the_text() {
    assert_eq!(to_string(&chars("héllo wörld")), "héllo wörld");
    assert_eq!(to_string(&[]), "");
}

#[test]
fn starts_with_compares_the_prefix() {
    assert!(starts_with(&chars("libssl3"), "lib"));
    assert!(starts_with(&chars("lib"), "lib"));
    assert!(starts_with(&chars("anything"), ""));
    assert!(!starts_with(&chars("li"), "lib"));
    assert!(!starts_with(&chars("glib"), "lib"));
}

#[test]
fn ends_with_compares_the_suffix() {
    assert!(ends_with(&chars("tzdata-data"), "-data"));
    assert!(ends_with(&chars("-common"), "-common"));
    assert!(ends_with(&chars("x"), ""));
    assert!(!ends_with(&chars("data"), "-data"));
    assert!(!ends_with(&chars("foo-data-x"), "-data"));
}

#[test]
fn contains_finds_a_substring_anywhere() {
    assert!(contains(&chars("classic,base"), "base"));
    assert!(contains(&chars("base"), "base"));
    assert!(contains(&chars("abase"), "base"));
    assert!(contains(&chars(""), ""));
    assert!(contains(&chars("abc"), ""));
    assert!(!contains(&chars("bas"), "base"));
    assert!(!contains(&chars("b-a-s-e"), "base"));
}

#[test]
fn trim_removes_whitespace_at_both_ends_only() {
    assert_eq!(to_string(trim(&chars("  a b \t\r\n"))), "a b");
    assert_eq!(to_string(trim(&chars("\u{a0}x\u{3000}"))), "x");
    assert_eq!(to_string(trim(&chars(" \t "))), "");
    assert_eq!(to_string(trim(&chars(""))), "");
    assert_eq!(to_string(trim(&chars("x"))), "x");
}

#[test]
fn split_keeps_empty_fields() {
    assert_eq!(strings(split(&chars("a\tb\t"), '\t')), vec!["a", "b", ""]);
    assert_eq!(strings(split(&chars(""), '\t')), vec![""]);
    assert_eq!(strings(split(&chars("\t"), '\t')), vec!["", ""]);
    assert_eq!(strings(split(&chars("name"), '\t')), vec!["name"]);
}

#[test]
fn split_lines_ends_lines_at_line_feeds() {
    assert_eq!(strings(split_lines(&chars("a\r\nb\n\nc"))), vec!["a", "b", "", "c"]);
    assert_eq!(strings(split_lines(&chars("a\n"))), vec!["a"]);
    assert_eq!(strings(split_lines(&chars("\n"))), vec![""]);
    assert_eq!(strings(split_lines(&chars(""))), Vec::<String>::new());
    assert_eq!(strings(split_lines(&chars("a\r"))), vec!["a\r"]);
    assert_eq!(strings(split_lines(&chars("a\r\n"))), vec!["a"]);
}

#[test]
fn split_lines_agrees_with_the_standard_library() {
    for text in ["", "\n", "a", "a\n", "a\nb", "a\r\nb\r", "\r\n\r\n", "x\n\ny\n", "\r", "a\r\r\nb"] {
        let expected: Vec<String> = text.lines().map(|l| l.to_string()).collect();
        assert_eq!(strings(split_lines(&chars(text))), expected);
    }
}

#[test]
fn split_whitespace_gives_the_words() {
    assert_eq!(strings(split_whitespace(&chars("  foo   bar\tbaz "))), vec!["foo", "bar", "baz"]);
    assert_eq!(strings(split_whitespace(&chars("a\u{a0}b"))), vec!["a", "b"]);
    assert_eq!(strings(split_whitespace(&chars(" \t "))), Vec::<String>::new());
    assert_eq!(strings(split_whitespace(&chars(""))), Vec::<String>::new());
    assert_eq!(strings(split_whitespace(&chars("one"))), vec!["one"]);
}

#[test]
fn is_whitespace_agrees_with_the_standard_library_on_every_character() {
    for code in 0..=0x10ffffu32 {
        if let Some(c) = char::from_u32(code) {
            assert_eq!(is_whitespace(c), c.is_whitespace(), "U+{:04X}", code);
        }
    }
}

#[test]
fn trim_agrees_with_the_standard_library() {
    for text in ["", " ", "a", " a", "a ", "\t a b \r\n", "\u{a0}\u{2003}x y\u{3000}", "\u{200b}x\u{200b}", "\n\n"] {
        assert_eq!(to_string(trim(&chars(text))), text.trim());
    }
}

#[test]
fn split_whitespace_agrees_with_the_standard_library() {
    for text in ["", " ", "a", " a  b ", "a\tb\nc\r\nd", "x\u{a0}y\u{2003}z", "\u{200b} q", "core20  20240416  2318  latest/stable  canonical**  base"] {
        let expected: Vec<String> = text.split_whitespace().map(|w| w.to_string()).collect();
        assert_eq!(strings(split_whitespace(&chars(text))), expected);
    }
}

#[test]
fn split_agrees_with_the_standard_library() {
    for text in ["", "\t", "a", "a\tb", "a\t\tb\t", "\ta", "htop\t3.2.2-2"] {
        let expected: Vec<String> = text.split('\t').map(|w| w.to_string()).collect();
        assert_eq!(strings(split(&chars(text), '\t')), expected);
    }
}
