use clint::sorting::{sort_order, text_before};
use clint::text::{
    chars_equal, contains, contains_char, copy_chars, ends_with, find, from_chars, matches_at,
    push_chars, push_str, slice, starts_with, str_equal, to_chars,
};
use clint::words::{
    find_char, is_blank, join, join_range, lines, replace, rfind_char, split, split_whitespace,
    trim, trim_end, trim_start,
};

fn c(s: &str) -> Vec<char> {
    s.chars().collect()
}

fn texts(parts: &Vec<Vec<char>>) -> Vec<String> {
    parts.iter().map(|p| p.iter().collect()).collect()
}

#[test]
fn strings_and_characters_go_both_ways() {
    assert_eq!(to_chars("héllo ☃"), c("héllo ☃"));
    assert_eq!(from_chars(&c("héllo ☃")), "héllo ☃");
    assert_eq!(from_chars(&to_chars("")), "");
    assert_eq!(copy_chars(&c("abc")), c("abc"));
    assert_eq!(slice(&c("abcdef"), 2, 4), c("cd"));
    assert_eq!(slice(&c("abcdef"), 3, 3), c(""));
    let mut v = c("ab");
    push_chars(&mut v, &c("cd"));
    push_str(&mut v, "é");
    assert_eq!(v, c("abcdé"));
    assert!(chars_equal(&c("abc"), &c("abc")));
    assert!(!chars_equal(&c("abc"), &c("abd")));
    assert!(!chars_equal(&c("abc"), &c("ab")));
    assert!(str_equal("", ""));
    assert!(!str_equal("a", "A"));
}

#[test]
fn texts_are_found_in_texts() {
    assert_eq!(find(&c("hello world"), &c("o")), Some(4));
    assert_eq!(find(&c("hello world"), &c("world")), Some(6));
    assert_eq!(find(&c("hello"), &c("")), Some(0));
    assert_eq!(find(&c(""), &c("")), Some(0));
    assert_eq!(find(&c("hello"), &c("hello!")), None);
    assert_eq!(find(&c("aaab"), &c("ab")), Some(2));
    assert_eq!(find(&c("héllo"), &c("llo")), Some(2));
    assert!(contains(&c("usage:"), &c("usage")));
    assert!(!contains(&c("usag"), &c("usage")));
    assert!(contains_char(&c("a=b"), '='));
    assert!(!contains_char(&c("ab"), '='));
    assert!(matches_at(&c("abc"), &c("bc"), 1));
    assert!(!matches_at(&c("abc"), &c("bc"), 2));
    assert!(!matches_at(&c("abc"), &c("bc"), 7));
    assert!(matches_at(&c("abc"), &c(""), 3));
    assert!(!matches_at(&c("abc"), &c(""), 4));
    assert!(starts_with(&c("--flag"), &c("--")));
    assert!(!starts_with(&c("-"), &c("--")));
    assert!(ends_with(&c("files..."), &c("...")));
    assert!(!ends_with(&c(".."), &c("...")));
    assert_eq!(find_char(&c("a,b,c"), ',', 0), Some(1));
    assert_eq!(find_char(&c("a,b,c"), ',', 2), Some(3));
    assert_eq!(find_char(&c("a,b,c"), ',', 4), None);
    assert_eq!(find_char(&c("a,b,c"), ',', 9), None);
    assert_eq!(rfind_char(&c("a-b-c"), '-'), Some(3));
    assert_eq!(rfind_char(&c("abc"), '-'), None);
}

#[test]
fn white_space_is_cut_off() {
    assert_eq!(trim(&c("  a b \t\n")), c("a b"));
    assert_eq!(trim(&c("\u{a0}x\u{2003}")), c("x"));
    assert_eq!(trim(&c("   ")), c(""));
    assert_eq!(trim(&c("")), c(""));
    assert_eq!(trim(&c("x")), c("x"));
    assert_eq!(trim_start(&c("  a ")), c("a "));
    assert_eq!(trim_end(&c("  a ")), c("  a"));
    assert_eq!(trim_start(&c("   ")), c(""));
    assert_eq!(trim_end(&c("   ")), c(""));
    assert!(is_blank(&c(" \t ")));
    assert!(is_blank(&c("")));
    assert!(!is_blank(&c(" . ")));
}

#[test]
fn texts_are_cut_and_joined() {
    assert_eq!(texts(&split_whitespace(&c("  one two\t\tthree \n"))), vec!["one", "two", "three"]);
    assert!(split_whitespace(&c("   ")).is_empty());
    assert_eq!(texts(&split(&c("a, b,c, "), &c(", "))), vec!["a", "b,c", ""]);
    assert_eq!(texts(&split(&c("abc"), &c(", "))), vec!["abc"]);
    assert_eq!(texts(&split(&c(""), &c("/"))), vec![""]);
    assert_eq!(texts(&split(&c("/a//b/"), &c("/"))), vec!["", "a", "", "b", ""]);
    assert_eq!(texts(&split(&c("aaa"), &c("aa"))), vec!["", "a"]);
    assert_eq!(texts(&split(&c("abc"), &c(""))), vec!["abc"]);
    let parts = vec![c("a"), c("b"), c(""), c("c")];
    assert_eq!(join(&parts, &c(", ")), c("a, b, , c"));
    assert_eq!(join_range(&parts, 1, 3, &c("-")), c("b-"));
    assert_eq!(join_range(&parts, 2, 2, &c("-")), c(""));
    assert_eq!(join(&Vec::new(), &c(", ")), c(""));
    assert_eq!(join(&vec![c("only")], &c(", ")), c("only"));
}

#[test]
fn lines_end_at_line_feeds() {
    assert_eq!(texts(&lines(&c("a\nb\r\nc"))), vec!["a", "b", "c"]);
    assert_eq!(texts(&lines(&c("a\n\nb\n"))), vec!["a", "", "b"]);
    assert_eq!(texts(&lines(&c("a\rb\r"))), vec!["a\rb\r"]);
    assert_eq!(texts(&lines(&c("\r\n"))), vec![""]);
    assert_eq!(texts(&lines(&c("\n"))), vec![""]);
    assert!(lines(&c("")).is_empty());
    for text in ["x\r\r\ny", "\n\n", "no end", "é\n☃\r\n", "a\r\nb\n\r\n"] {
        let expected: Vec<String> = text.lines().map(|l| l.to_string()).collect();
        assert_eq!(texts(&lines(&c(text))), expected);
    }
}

#[test]
fn occurrences_are_replaced() {
    assert_eq!(replace(&c("a.ts/b.ts"), &c(".ts"), &c("")), c("a/b"));
    assert_eq!(replace(&c("aaa"), &c("aa"), &c("b")), c("ba"));
    assert_eq!(replace(&c("it's"), &c("'"), &c("\\'")), c("it\\'s"));
    assert_eq!(replace(&c("abc"), &c(""), &c("x")), c("abc"));
    assert_eq!(replace(&c(""), &c("a"), &c("x")), c(""));
    assert_eq!(replace(&c("abc"), &c("abcd"), &c("x")), c("abc"));
}

#[test]
fn texts_are_ordered_character_by_character() {
    assert!(text_before(&c("a"), &c("b")));
    assert!(text_before(&c(""), &c("a")));
    assert!(text_before(&c("ab"), &c("abc")));
    assert!(text_before(&c("Z"), &c("a")));
    assert!(text_before(&c("10"), &c("9")));
    assert!(!text_before(&c("a"), &c("a")));
    assert!(!text_before(&c("b"), &c("a")));
    assert!(!text_before(&c("a"), &c("")));
    let keys: Vec<Vec<char>> = ["pear", "apple", "fig", "apple", "", "Pear"].iter().map(|s| c(s)).collect();
    assert_eq!(sort_order(&keys), vec![4, 5, 1, 3, 2, 0]);
    let mut expected: Vec<usize> = (0..keys.len()).collect();
    expected.sort_by(|a, b| keys[*a].cmp(&keys[*b]));
    assert_eq!(sort_order(&keys), expected);
    assert!(sort_order(&Vec::new()).is_empty());
}
