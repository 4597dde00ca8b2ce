use clint::comparison::{
    compare_flags, compare_structures, format_flag_display, get_flag_signature, ChangeType,
};
use clint::models::LineFlag;
use clint::tree::{Children, CstNode, Outputs};

fn flag(short: Option<&str>, long: Option<&str>, data_type: Option<&str>, description: Option<&str>) -> LineFlag {
    LineFlag {
        short: short.map(|s| s.to_string()),
        long: long.map(|s| s.to_string()),
        data_type: data_type.map(|s| s.to_string()),
        description: description.map(|s| s.to_string()),
        parent_header: "Flags".to_string(),
    }
}

fn node(name: &str, flags: Vec<LineFlag>, commands: Vec<CstNode>) -> CstNode {
    CstNode {
        name: name.to_string(),
        description: String::new(),
        version: None,
        depth: 0,
        command_path: name.to_string(),
        parent_header: String::new(),
        parent: String::new(),
        outputs: Outputs { help_page: None },
        children: Children { commands, flags, usages: Vec::new(), others: Vec::new() },
    }
}

fn lines(changes: &Vec<ChangeType>) -> Vec<String> {
    changes.iter().map(|c| c.format()).collect()
}

#[test]
fn equal_trees_have_no_changes() {
    let a = node("app", vec![flag(Some("-h"), Some("--help"), None, Some("help"))], vec![node(
        "serve",
        vec![flag(None, Some("--port"), Some("uint"), Some("Port"))],
        vec![],
    )]);
    let b = node("app", vec![flag(Some("-h"), Some("--help"), None, Some("help"))], vec![node(
        "serve",
        vec![flag(None, Some("--port"), Some("uint"), Some("Port"))],
        vec![],
    )]);
    assert!(compare_structures(&a, &b).is_empty());
}

#[test]
fn changes_come_in_the_order_of_the_comparison() {
    let from = node("app", vec![], vec![
        node("keep", vec![
            flag(Some("-a"), Some("--all"), None, Some("All of them")),
            flag(None, Some("--old"), None, Some("Old")),
            flag(Some("-t"), Some("--type"), Some("string"), Some("Type")),
        ], vec![
            node("inner", vec![], vec![]),
            node("gone-inner", vec![], vec![]),
        ]),
        node("gone", vec![], vec![]),
    ]);
    let to = node("app", vec![], vec![
        node("new", vec![], vec![]),
        node("keep", vec![
            flag(Some("-t"), Some("--type"), Some("uint"), Some("Type")),
            flag(Some("-a"), Some("--all"), None, Some("Every one")),
            flag(None, Some("--fresh"), None, Some("Fresh")),
        ], vec![
            node("inner", vec![], vec![]),
            node("new-inner", vec![], vec![]),
        ]),
    ]);
    let changes = compare_structures(&from, &to);
    assert_eq!(lines(&changes), vec![
        "+ Added command: new",
        "- Removed command: gone",
        "+ Added flag: --fresh (command: keep)",
        "- Removed flag: --old (command: keep)",
        "~ Modified flag: -a/--all (command: keep)\n    Description changed:\n      Before: \"All of them\"\n      After:  \"Every one\"",
        "~ Modified flag: -t/--type (command: keep)\n    Data type changed: string -> uint",
        "+ Added command: new-inner (to keep)",
        "- Removed command: gone-inner (from keep)",
    ]);
}

#[test]
fn flags_of_the_root_are_not_compared() {
    let from = node("app", vec![flag(None, Some("--a"), None, None)], vec![]);
    let to = node("app", vec![flag(None, Some("--b"), None, None)], vec![]);
    assert!(compare_structures(&from, &to).is_empty());
}

#[test]
fn nested_commands_are_reported_under_their_path() {
    let from = node("app", vec![], vec![node("a", vec![], vec![node("b", vec![], vec![node(
        "c",
        vec![flag(None, Some("--x"), None, Some("one"))],
        vec![],
    )])])]);
    let to = node("app", vec![], vec![node("a", vec![], vec![node("b", vec![], vec![node(
        "c",
        vec![flag(None, Some("--x"), None, Some("two"))],
        vec![node("d", vec![], vec![])],
    )])])]);
    assert_eq!(lines(&compare_structures(&from, &to)), vec![
        "~ Modified flag: --x (command: a b c)\n    Description changed:\n      Before: \"one\"\n      After:  \"two\"",
        "+ Added command: d (to a b c)",
    ]);
}

#[test]
fn missing_type_differs_from_every_type() {
    let mut changes = Vec::new();
    compare_flags(
        &vec![flag(None, Some("--n"), None, Some("d"))],
        &vec![flag(None, Some("--n"), Some("int"), Some("d"))],
        "cmd",
        &mut changes,
    );
    assert_eq!(lines(&changes), vec![
        "~ Modified flag: --n (command: cmd)\n    Data type changed: none -> int",
    ]);
    match &changes[0] {
        ChangeType::FlagDataTypeChanged { old_type, new_type, .. } => {
            assert_eq!(old_type, &None);
            assert_eq!(new_type.as_deref(), Some("int"));
        }
        other => panic!("unexpected change {:?}", other),
    }
}

#[test]
fn missing_description_counts_as_empty() {
    let mut changes = Vec::new();
    compare_flags(
        &vec![flag(None, Some("--n"), None, None)],
        &vec![flag(None, Some("--n"), None, Some(""))],
        "cmd",
        &mut changes,
    );
    assert!(changes.is_empty());
    compare_flags(
        &vec![flag(None, Some("--n"), None, None)],
        &vec![flag(None, Some("--n"), None, Some("now described"))],
        "cmd",
        &mut changes,
    );
    assert_eq!(lines(&changes), vec![
        "~ Modified flag: --n (command: cmd)\n    Description changed:\n      Before: \"\"\n      After:  \"now described\"",
    ]);
}

#[test]
fn both_changes_of_one_flag_are_reported_description_first() {
    let mut changes = Vec::new();
    compare_flags(
        &vec![flag(Some("-n"), None, Some("int"), Some("a"))],
        &vec![flag(Some("-n"), None, Some("uint"), Some("b"))],
        "cmd",
        &mut changes,
    );
    assert_eq!(changes.len(), 2);
    assert!(matches!(changes[0], ChangeType::FlagDescriptionChanged { .. }));
    assert!(matches!(changes[1], ChangeType::FlagDataTypeChanged { .. }));
}

#[test]
fn flags_are_known_by_long_name_then_short_name() {
    assert_eq!(get_flag_signature(&flag(Some("-v"), Some("--verbose"), None, None)), "--verbose");
    assert_eq!(get_flag_signature(&flag(Some("-v"), None, None, None)), "-v");
    assert_eq!(get_flag_signature(&flag(Some("-v"), Some(""), None, None)), "-v");
    assert_eq!(get_flag_signature(&flag(None, None, None, None)), "");
    assert_eq!(format_flag_display(&flag(Some("-v"), Some("--verbose"), None, None)), "-v/--verbose");
    assert_eq!(format_flag_display(&flag(Some("-v"), None, None, None)), "-v");
    assert_eq!(format_flag_display(&flag(None, Some("--verbose"), None, None)), "--verbose");
    assert_eq!(format_flag_display(&flag(Some(""), Some(""), None, None)), "unknown");
    assert_eq!(format_flag_display(&flag(None, None, None, None)), "unknown");
}

#[test]
fn same_long_name_is_the_same_flag_whatever_the_short_name() {
    let mut changes = Vec::new();
    compare_flags(
        &vec![flag(Some("-v"), Some("--verbose"), None, Some("d"))],
        &vec![flag(Some("-V"), Some("--verbose"), None, Some("d"))],
        "cmd",
        &mut changes,
    );
    assert!(changes.is_empty());
}

#[test]
fn last_flag_of_a_signature_stands_for_it() {
    let mut changes = Vec::new();
    compare_flags(
        &vec![
            flag(None, Some("--x"), None, Some("first")),
            flag(None, Some("--x"), None, Some("second")),
        ],
        &vec![flag(None, Some("--x"), None, Some("second"))],
        "cmd",
        &mut changes,
    );
    assert!(changes.is_empty());
    compare_flags(
        &vec![],
        &vec![
            flag(None, Some("--y"), None, Some("first")),
            flag(Some("-y"), Some("--y"), None, Some("second")),
        ],
        "cmd",
        &mut changes,
    );
    assert_eq!(lines(&changes), vec!["+ Added flag: -y/--y (command: cmd)"]);
}

#[test]
fn every_kind_of_change_has_its_line() {
    let s = |t: &str| t.to_string();
    assert_eq!(
        ChangeType::CommandAdded { parent: s(""), command: s("serve") }.format(),
        "+ Added command: serve"
    );
    assert_eq!(
        ChangeType::CommandAdded { parent: s("app run"), command: s("serve") }.format(),
        "+ Added command: serve (to app run)"
    );
    assert_eq!(
        ChangeType::CommandRemoved { parent: s(""), command: s("serve") }.format(),
        "- Removed command: serve"
    );
    assert_eq!(
        ChangeType::CommandRemoved { parent: s("app"), command: s("serve") }.format(),
        "- Removed command: serve (from app)"
    );
    assert_eq!(
        ChangeType::FlagAdded { command: s("serve"), flag: s("-p/--port") }.format(),
        "+ Added flag: -p/--port (command: serve)"
    );
    assert_eq!(
        ChangeType::FlagRemoved { command: s("serve"), flag: s("--port") }.format(),
        "- Removed flag: --port (command: serve)"
    );
    assert_eq!(
        ChangeType::FlagDescriptionChanged {
            command: s("serve"),
            flag: s("--port"),
            old_desc: s("Port"),
            new_desc: s("The \"port\""),
        }
        .format(),
        "~ Modified flag: --port (command: serve)\n    Description changed:\n      Before: \"Port\"\n      After:  \"The \"port\"\""
    );
    assert_eq!(
        ChangeType::FlagDataTypeChanged {
            command: s("serve"),
            flag: s("--port"),
            old_type: Some(s("int")),
            new_type: None,
        }
        .format(),
        "~ Modified flag: --port (command: serve)\n    Data type changed: int -> none"
    );
}

/// A change turned round, as a line.
fn mirrored(change: &ChangeType) -> String {
    match change.clone() {
        ChangeType::CommandAdded { parent, command } => ChangeType::CommandRemoved { parent, command },
        ChangeType::CommandRemoved { parent, command } => ChangeType::CommandAdded { parent, command },
        ChangeType::FlagAdded { command, flag } => ChangeType::FlagRemoved { command, flag },
        ChangeType::FlagRemoved { command, flag } => ChangeType::FlagAdded { command, flag },
        ChangeType::FlagDescriptionChanged { command, flag, old_desc, new_desc } => {
            ChangeType::FlagDescriptionChanged { command, flag, old_desc: new_desc, new_desc: old_desc }
        }
        ChangeType::FlagDataTypeChanged { command, flag, old_type, new_type } => {
            ChangeType::FlagDataTypeChanged { command, flag, old_type: new_type, new_type: old_type }
        }
    }
    .format()
}

#[test]
fn comparing_the_other_way_round_turns_every_change_round() {
    let a = node("app", vec![], vec![
        node("one", vec![
            flag(Some("-a"), Some("--all"), None, Some("All")),
            flag(None, Some("--only-a"), None, None),
            flag(Some("-t"), Some("--type"), Some("string"), Some("Type")),
        ], vec![node("deep", vec![flag(None, Some("--d"), None, Some("x"))], vec![])]),
        node("only-a", vec![], vec![]),
        node("two", vec![], vec![]),
    ]);
    let b = node("app", vec![], vec![
        node("two", vec![flag(None, Some("--late"), None, None)], vec![]),
        node("only-b", vec![], vec![]),
        node("one", vec![
            flag(Some("-t"), Some("--type"), None, Some("Kind")),
            flag(Some("-a"), Some("--all"), None, Some("Everything")),
        ], vec![node("deep", vec![flag(None, Some("--d"), Some("int"), Some("x"))], vec![])]),
    ]);
    let forward = compare_structures(&a, &b);
    let backward = compare_structures(&b, &a);
    assert_eq!(forward.len(), 8);
    let mut expected: Vec<String> = forward.iter().map(mirrored).collect();
    let mut got = lines(&backward);
    expected.sort();
    got.sort();
    assert_eq!(got, expected);
}

#[test]
fn a_changed_flag_is_shown_as_the_older_tree_shows_it() {
    let a = node("app", vec![], vec![node("c", vec![flag(Some("-v"), Some("--verbose"), None, Some("a"))], vec![])]);
    let b = node("app", vec![], vec![node("c", vec![flag(Some("-V"), Some("--verbose"), None, Some("b"))], vec![])]);
    assert_eq!(lines(&compare_structures(&a, &b)), vec![
        "~ Modified flag: -v/--verbose (command: c)\n    Description changed:\n      Before: \"a\"\n      After:  \"b\"",
    ]);
    assert_eq!(lines(&compare_structures(&b, &a)), vec![
        "~ Modified flag: -V/--verbose (command: c)\n    Description changed:\n      Before: \"b\"\n      After:  \"a\"",
    ]);
}
