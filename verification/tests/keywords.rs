use clint::keyword_extractor::extract_keywords_from_json;
use clint::models::LineFlag;
use clint::summary_generator::{extract_data, generate_summary, without_repetitions};
use clint::tree::{Children, CstNode, Outputs};

fn flag(short: Option<&str>, long: Option<&str>) -> LineFlag {
    LineFlag {
        short: short.map(|s| s.to_string()),
        long: long.map(|s| s.to_string()),
        data_type: None,
        description: None,
        parent_header: "Flags".to_string(),
    }
}

fn node(name: &str, flags: Vec<LineFlag>, commands: Vec<CstNode>) -> CstNode {
    CstNode {
        name: name.to_string(),
        description: String::new(),
        version: None,
        depth: 0,
        command_path: name.to_string(),
        parent_header: String::new(),
        parent: String::new(),
        outputs: Outputs { help_page: None },
        children: Children { commands, flags, usages: Vec::new(), others: Vec::new() },
    }
}

fn sample() -> CstNode {
    node("tool", vec![flag(Some("-r"), Some("--root-only"))], vec![
        node("remote", vec![flag(Some("-v"), Some("--verbose")), flag(Some("-h"), Some("--help"))], vec![
            node("add", vec![flag(Some("-h"), Some("--help")), flag(None, Some("--tags"))], vec![]),
            node("remove", vec![flag(Some("-h"), Some("--help"))], vec![
                node("all", vec![flag(Some("-f"), None)], vec![]),
            ]),
        ]),
        node("add", vec![flag(Some("-h"), Some("--help"))], vec![
            node("all", vec![], vec![]),
        ]),
    ])
}

#[test]
fn data_holds_every_occurrence() {
    let data = extract_data(&sample());
    assert_eq!(data.base_program, "tool");
    assert_eq!(data.commands, vec!["remote", "add"]);
    assert_eq!(data.subcommands, vec!["add", "remove", "all", "all"]);
    // The flags of the deepest commands come first; those of the root are left out.
    assert_eq!(data.short_flags, vec!["-h", "-f", "-h", "-v", "-h", "-h"]);
    assert_eq!(data.long_flags, vec!["--help", "--tags", "--help", "--verbose", "--help", "--help"]);
}

#[test]
fn keywords_hold_each_text_once() {
    let keywords = extract_keywords_from_json(&sample());
    assert_eq!(keywords.base_program, "tool");
    assert_eq!(keywords.commands, vec!["remote", "add"]);
    assert_eq!(keywords.subcommands, vec!["add", "remove", "all"]);
    assert_eq!(keywords.short_flags, vec!["-h", "-f", "-v"]);
    assert_eq!(keywords.long_flags, vec!["--help", "--tags", "--verbose"]);
}

#[test]
fn summary_counts_all_and_different_keywords() {
    let summary = generate_summary(&sample()).expect("the counts fit");
    assert_eq!(summary.total_command_count, 2);
    assert_eq!(summary.total_subcommand_count, 4);
    assert_eq!(summary.total_short_flag_count, 6);
    assert_eq!(summary.total_long_flag_count, 6);
    assert_eq!(summary.unique_command_count, 2);
    assert_eq!(summary.unique_subcommand_count, 3);
    assert_eq!(summary.unique_short_flag_count, 3);
    assert_eq!(summary.unique_long_flag_count, 3);
    assert_eq!(summary.unique_keywords_count, 11);
}

#[test]
fn summary_of_a_bare_program_is_zero() {
    let summary = generate_summary(&node("tool", vec![flag(Some("-x"), Some("--x"))], vec![])).expect("the counts fit");
    assert_eq!(summary.unique_keywords_count, 0);
    assert_eq!(summary.total_command_count, 0);
    assert_eq!(summary.total_short_flag_count, 0);
}

#[test]
fn repetitions_go_and_first_places_stay() {
    let texts: Vec<String> = ["b", "a", "b", "c", "a", "b"].iter().map(|s| s.to_string()).collect();
    assert_eq!(without_repetitions(&texts), vec!["b", "a", "c"]);
    assert!(without_repetitions(&Vec::new()).is_empty());
}
