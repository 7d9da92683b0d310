use ilc::text::{append, is_whitespace, rejoin, strip_one, tokenize, word_is, word_starts_with};

fn chars_of(text: &str) -> Vec<char> {
    text.chars().collect()
}

fn words_of(texts: &[&str]) -> Vec<Vec<char>> {
    texts.iter().map(|t| chars_of(t)).collect()
}

#[test]
fn whitespace_is_what_std_calls_whitespace() {
    let mut code: u32 = 0;
    while code <= 0x10FFFF {
        if let Some(c) = char::from_u32(code) {
            assert_eq!(is_whitespace(c), c.is_whitespace());
        }
        code += 1;
    }
}

#[test]
fn line_is_cut_at_every_whitespace_character() {
    let (words, seps) = tokenize(&chars_of("a  b\tc "));
    assert_eq!(words, words_of(&["a", "", "b", "c", ""]));
    assert_eq!(seps, vec![' ', ' ', '\t', ' ']);
}

#[test]
fn line_without_whitespace_is_one_word() {
    assert_eq!(tokenize(&chars_of("abc")), (words_of(&["abc"]), vec![]));
    assert_eq!(tokenize(&chars_of("")), (words_of(&[""]), vec![]));
}

#[test]
fn words_and_separators_give_the_line_again() {
    let lines = ["", " ", "a", "a b", "  a \t b\u{3000}c  ", "12:34 <x>  hello   world"];
    let mut i = 0;
    while i < lines.len() {
        let line = chars_of(lines[i]);
        let (words, seps) = tokenize(&line);
        assert_eq!(words.len(), seps.len() + 1);
        assert_eq!(rejoin(&words, &seps), line);
        i += 1;
    }
}

#[test]
fn tail_of_a_line_keeps_its_spacing() {
    let (words, seps) = tokenize(&chars_of("12:34 nick hello   world \t !"));
    assert_eq!(rejoin(&words[2..], &seps[2..]), chars_of("hello   world \t !"));
    assert_eq!(rejoin(&words[5..], &seps[5..]), chars_of("world \t !"));
}

#[test]
fn rejoin_stops_with_the_words_or_the_separators() {
    assert_eq!(rejoin(&words_of(&[]), &[' ']), chars_of(""));
    assert_eq!(rejoin(&words_of(&["a"]), &[' ', ' ']), chars_of("a"));
    assert_eq!(rejoin(&words_of(&["a", "b"]), &['-', '+']), chars_of("a-b"));
    assert_eq!(rejoin(&words_of(&["a", "b", "c"]), &['-']), chars_of("a-b"));
    assert_eq!(rejoin(&words_of(&["a", "b", "c"]), &[]), chars_of("a"));
}

#[test]
fn one_layer_is_stripped() {
    assert_eq!(strip_one(&chars_of("(a@b)")), chars_of("a@b"));
    assert_eq!(strip_one(&chars_of("((a))")), chars_of("(a)"));
    assert_eq!(strip_one(&chars_of("[x]")), chars_of("x"));
    assert_eq!(strip_one(&chars_of("()")), chars_of(""));
    assert_eq!(strip_one(&chars_of("a")), chars_of(""));
    assert_eq!(strip_one(&chars_of("")), chars_of(""));
    assert_eq!(strip_one(&chars_of("\u{e9}x\u{e9}")), chars_of("x"));
}

#[test]
fn word_is_compared_with_a_text() {
    assert!(word_is(&chars_of("has"), "has"));
    assert!(!word_is(&chars_of("has"), "had"));
    assert!(!word_is(&chars_of("has"), "ha"));
    assert!(!word_is(&chars_of("ha"), "has"));
    assert!(word_is(&chars_of(""), ""));
    assert!(word_is(&chars_of("\u{e9}t\u{e9}"), "\u{e9}t\u{e9}"));
}

#[test]
fn word_is_tested_for_its_start() {
    assert!(word_starts_with(&chars_of("Notice(bob):"), "Notice("));
    assert!(word_starts_with(&chars_of("Notice("), "Notice("));
    assert!(!word_starts_with(&chars_of("Notice"), "Notice("));
    assert!(!word_starts_with(&chars_of("notice(bob):"), "Notice("));
    assert!(word_starts_with(&chars_of("x"), ""));
}

#[test]
fn items_are_appended() {
    let mut out = vec![1u8, 2];
    append(&mut out, &[3, 4]);
    append(&mut out, &[]);
    assert_eq!(out, vec![1, 2, 3, 4]);
}
