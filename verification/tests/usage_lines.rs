use clint::models::{ComponentType, UsageComponent};
use clint::usage_parser::{
    classify_token, extract_token, extract_until_matching, parse_alternatives, parse_tokens,
    parse_usage_line, strip_trailing_dots, token_component,
};

fn names(components: &Vec<UsageComponent>) -> Vec<String> {
    components.iter().map(|c| c.name.clone()).collect()
}

#[test]
fn bracket_groups_are_optional_and_not_repeatable() {
    let parsed = parse_usage_line("cmd [--foo] [--bar baz]", "cmd");
    assert_eq!(parsed.len(), 2);
    for group in &parsed {
        assert_eq!(group.component_type, ComponentType::Group);
        assert!(!group.repeatable);
        assert!(!group.required);
        assert!(group.name.is_empty());
        assert!(group.alternatives.is_empty());
    }
    assert_eq!(names(&parsed[0].children), vec!["--foo"]);
    assert_eq!(parsed[0].children[0].component_type, ComponentType::Flag);
    assert_eq!(names(&parsed[1].children), vec!["--bar", "baz"]);
    assert_eq!(parsed[1].children[1].component_type, ComponentType::Keyword);
}

#[test]
fn dots_after_a_group_make_it_repeatable() {
    let parsed = parse_usage_line("cmd [--foo]...", "cmd");
    assert_eq!(parsed.len(), 1);
    assert_eq!(parsed[0].component_type, ComponentType::Group);
    assert!(parsed[0].repeatable);
    assert_eq!(names(&parsed[0].children), vec!["--foo"]);
}

#[test]
fn alternatives_are_kept_side_by_side() {
    let parsed = parse_usage_line("cmd (--a|--b)", "cmd");
    assert_eq!(parsed.len(), 1);
    let group = &parsed[0];
    assert_eq!(group.component_type, ComponentType::AlternativeGroup);
    assert!(group.required);
    assert!(group.children.is_empty());
    assert_eq!(group.alternatives.len(), 2);
    assert_eq!(names(&group.alternatives[0]), vec!["--a"]);
    assert_eq!(names(&group.alternatives[1]), vec!["--b"]);
}

fn c(s: &str) -> Vec<char> {
    s.chars().collect()
}

#[test]
fn usage_is_read_after_the_name_of_the_command() {
    assert_eq!(names(&parse_usage_line("  Usage: app serve <dir> [flags]  ", "serve")), vec!["<dir>", ""]);
    assert_eq!(names(&parse_usage_line("app app x", "app")), vec!["app", "x"]);
    // A line that does not hold the name is read whole.
    assert_eq!(names(&parse_usage_line("tool run", "other")), vec!["tool", "run"]);
    // An empty name is found at the start.
    assert_eq!(names(&parse_usage_line("tool run", "")), vec!["tool", "run"]);
}

#[test]
fn line_that_goes_on_with_a_hyphen_has_no_components() {
    assert!(parse_usage_line("app --version", "app").is_empty());
    assert!(parse_usage_line("app   -h", "app").is_empty());
    assert!(parse_usage_line("-x", "app").is_empty());
    assert!(parse_usage_line("app", "app").is_empty());
    assert!(parse_usage_line("", "app").is_empty());
    assert!(!parse_usage_line("app [-x]", "app").is_empty());
}

#[test]
fn tokens_are_flags_arguments_or_keywords() {
    let parsed = parse_tokens("--flag <arg> word KEY=value <k>=<v> files... --opt=1 <open");
    let kinds: Vec<(String, ComponentType, bool, bool)> =
        parsed.iter().map(|c| (c.name.clone(), c.component_type, c.repeatable, c.key_value)).collect();
    assert_eq!(kinds, vec![
        ("--flag".to_string(), ComponentType::Flag, false, false),
        ("<arg>".to_string(), ComponentType::Argument, false, false),
        ("word".to_string(), ComponentType::Keyword, false, false),
        ("KEY=value".to_string(), ComponentType::Argument, false, true),
        ("<k>=<v>".to_string(), ComponentType::Argument, false, true),
        ("files".to_string(), ComponentType::Keyword, true, false),
        ("--opt=1".to_string(), ComponentType::Flag, false, true),
        ("<open".to_string(), ComponentType::Keyword, false, false),
    ]);
    for component in &parsed {
        assert!(component.required);
        assert!(component.children.is_empty());
        assert!(component.alternatives.is_empty());
    }
}

#[test]
fn token_goes_by_the_answer_for_the_key_value_pattern() {
    let plain = token_component(&c("name"), Some(false));
    assert_eq!(plain.component_type, ComponentType::Keyword);
    assert!(!plain.key_value);
    let matched = token_component(&c("name"), Some(true));
    assert_eq!(matched.component_type, ComponentType::Argument);
    assert!(matched.key_value);
    let refused = token_component(&c("a=b"), None);
    assert_eq!(refused.component_type, ComponentType::Argument);
    assert!(refused.key_value);
    let flag = token_component(&c("--x......"), Some(true));
    assert_eq!(flag.component_type, ComponentType::Flag);
    assert_eq!(flag.name, "--x");
    assert!(flag.repeatable);
    // The pattern is asked of the name without its dots.
    let pair = classify_token(&c("<key>=<value>..."));
    assert_eq!(pair.name, "<key>=<value>");
    assert!(pair.key_value && pair.repeatable);
    assert_eq!(pair.component_type, ComponentType::Argument);
    let not_pair = classify_token(&c("<key>"));
    assert!(!not_pair.key_value);
    assert_eq!(strip_trailing_dots(&c("a......")), c("a"));
    assert_eq!(strip_trailing_dots(&c("a..")), c("a.."));
    assert_eq!(strip_trailing_dots(&c("...")), c(""));
    assert_eq!(strip_trailing_dots(&c("a...b")), c("a...b"));
}

#[test]
fn dots_alone_are_a_repeatable_keyword_without_name() {
    let parsed = parse_tokens("cmd ...");
    assert_eq!(names(&parsed), vec!["cmd", ""]);
    assert!(parsed[1].repeatable);
    assert_eq!(parsed[1].component_type, ComponentType::Keyword);
}

#[test]
fn groups_nest_and_brackets_are_counted() {
    let parsed = parse_tokens("[a [b [c]] d] e");
    assert_eq!(parsed.len(), 2);
    let outer = &parsed[0];
    assert_eq!(names(&outer.children), vec!["a", "", "d"]);
    let middle = &outer.children[1];
    assert_eq!(middle.component_type, ComponentType::Group);
    assert_eq!(names(&middle.children), vec!["b", ""]);
    assert_eq!(names(&middle.children[1].children), vec!["c"]);
    assert_eq!(parsed[1].name, "e");
}

#[test]
fn group_is_repeatable_by_dots_inside_or_after() {
    let inside = parse_tokens("[FILE...]");
    assert_eq!(inside.len(), 1);
    assert!(inside[0].repeatable);
    assert_eq!(names(&inside[0].children), vec!["FILE"]);
    assert!(inside[0].children[0].repeatable);
    // White space before the bracket keeps the dots from ending the interior.
    let spaced = parse_tokens("[FILE... ]");
    assert!(!spaced[0].repeatable);
    let after = parse_tokens("[FILE]... next");
    assert_eq!(after.len(), 2);
    assert!(after[0].repeatable);
    assert!(!after[0].children[0].repeatable);
    assert_eq!(after[1].name, "next");
    // Dots that do not follow at once belong to what comes next.
    let apart = parse_tokens("[FILE] ...");
    assert_eq!(apart.len(), 2);
    assert!(!apart[0].repeatable);
    assert!(apart[1].repeatable);
    let alternative = parse_tokens("(a|b)...");
    assert_eq!(alternative.len(), 1);
    assert!(alternative[0].repeatable);
}

#[test]
fn brackets_that_are_never_closed_close_at_the_end() {
    let parsed = parse_tokens("run [--force <path>");
    assert_eq!(parsed.len(), 2);
    assert_eq!(parsed[1].component_type, ComponentType::Group);
    assert_eq!(names(&parsed[1].children), vec!["--force", "<path>"]);
    let parsed = parse_tokens("run (a | b");
    assert_eq!(parsed.len(), 2);
    assert_eq!(parsed[1].alternatives.len(), 2);
    let parsed = parse_tokens("[");
    assert_eq!(parsed.len(), 1);
    assert!(parsed[0].children.is_empty());
    let parsed = parse_tokens("[[[[");
    assert_eq!(parsed.len(), 1);
    assert!(parse_tokens("(").is_empty());
}

#[test]
fn brackets_that_close_nothing_are_passed_over() {
    assert_eq!(names(&parse_tokens("a ] b ) c | d")), vec!["a", "b", "c", "d"]);
    assert_eq!(names(&parse_tokens("a]b)c|d")), vec!["a", "b", "c", "d"]);
    assert!(parse_tokens("]])|").is_empty());
}

#[test]
fn token_ends_where_a_bracket_opens() {
    let parsed = parse_tokens("FILE[...] name(a|b)");
    assert_eq!(parsed.len(), 4);
    assert_eq!(parsed[0].name, "FILE");
    assert_eq!(parsed[1].component_type, ComponentType::Group);
    assert_eq!(parsed[2].name, "name");
    assert_eq!(parsed[3].component_type, ComponentType::AlternativeGroup);
}

#[test]
fn tokens_end_at_any_white_space() {
    assert_eq!(names(&parse_tokens("a\tb\u{a0}c\nd")), vec!["a", "b", "c", "d"]);
}

#[test]
fn alternatives_are_cut_at_bars_outside_nested_brackets() {
    let sides = parse_alternatives("--a <x> | [b|c] | (d|e) f");
    assert_eq!(sides.len(), 3);
    assert_eq!(names(&sides[0]), vec!["--a", "<x>"]);
    assert_eq!(sides[1].len(), 1);
    assert_eq!(sides[1][0].component_type, ComponentType::Group);
    assert_eq!(names(&sides[1][0].children), vec!["b", "c"]);
    assert_eq!(sides[2].len(), 2);
    assert_eq!(sides[2][0].component_type, ComponentType::AlternativeGroup);
    assert_eq!(sides[2][0].alternatives.len(), 2);
    assert_eq!(sides[2][1].name, "f");
}

#[test]
fn empty_sides_stay_and_empty_groups_go() {
    let parsed = parse_tokens("x (a|) y");
    assert_eq!(parsed.len(), 3);
    assert_eq!(parsed[1].alternatives.len(), 2);
    assert_eq!(names(&parsed[1].alternatives[0]), vec!["a"]);
    assert!(parsed[1].alternatives[1].is_empty());
    assert_eq!(names(&parse_tokens("x () y ( | ) z")), vec!["x", "y", "z"]);
    let one = parse_alternatives("");
    assert_eq!(one.len(), 1);
    assert!(one[0].is_empty());
}

#[test]
fn no_component_has_both_children_and_alternatives() {
    fn check(components: &Vec<UsageComponent>) {
        for component in components {
            assert!(component.children.is_empty() || component.alternatives.is_empty());
            match component.component_type {
                ComponentType::Group => {
                    assert!(component.name.is_empty() && !component.required);
                    assert!(component.alternatives.is_empty());
                }
                ComponentType::AlternativeGroup => {
                    assert!(component.name.is_empty() && component.required);
                    assert!(component.alternatives.iter().any(|a| !a.is_empty()));
                }
                ComponentType::KeyValuePair => panic!("never given"),
                _ => assert!(component.required && component.children.is_empty()),
            }
            check(&component.children);
            for side in &component.alternatives {
                check(side);
            }
        }
    }
    for line in [
        "cmd [--foo] [--bar baz]",
        "cmd (a|b [c (d|e)...]...) <f>... [[g]",
        "cmd ((((|)))) [] () [()] ([])",
        "cmd ]])|([ a=b",
    ] {
        check(&parse_usage_line(line, "cmd"));
    }
}

#[test]
fn matching_bracket_is_found_by_counting() {
    let text = c("a [b] c] d");
    assert_eq!(extract_until_matching(&text, 0, text.len(), '[', ']'), 7);
    assert_eq!(extract_until_matching(&text, 0, 5, '[', ']'), 5);
    assert_eq!(extract_until_matching(&c("no end"), 0, 6, '(', ')'), 6);
    assert_eq!(extract_until_matching(&c(")"), 0, 1, '(', ')'), 0);
    assert_eq!(extract_token(&c("abc def"), 0, 7), 3);
    assert_eq!(extract_token(&c("abc[def"), 1, 7), 3);
    assert_eq!(extract_token(&c("abc"), 0, 3), 3);
    assert_eq!(extract_token(&c("abc"), 0, 2), 2);
    assert_eq!(extract_token(&c(" abc"), 0, 4), 0);
}
