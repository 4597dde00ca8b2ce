use clint::cli_parser::{
    get_flag_line, handle_child_line, is_header_line, parse_child_line, parse_help_page,
    LineScanner,
};
use clint::models::{ChildLineType, ComponentType, OutputLine};

#[test]
fn flag_line_is_split_into_names_and_description() {
    let record = parse_child_line("app", "  -v, --verbose   Enable verbose output", Some("Flags"))
        .expect("a flag line gives a record");
    match record.line_type {
        OutputLine::Flag(flag) => {
            assert_eq!(flag.short.as_deref(), Some("-v"));
            assert_eq!(flag.long.as_deref(), Some("--verbose"));
            assert_eq!(flag.description.as_deref(), Some("Enable verbose output"));
            assert_eq!(flag.data_type, None);
            assert_eq!(flag.parent_header, "Flags");
        }
        other => panic!("expected a flag, got {:?}", other),
    }
}

#[test]
fn flag_line_is_a_flag_under_any_header() {
    for header in ["Usage", "Examples", "Available Commands", "Whatever"] {
        let record =
            parse_child_line("app", "  -v, --verbose   Enable verbose output", Some(header))
                .expect("a flag line gives a record");
        assert!(matches!(record.line_type, OutputLine::Flag(_)));
    }
}

#[test]
fn flag_line_without_header_stands_under_none() {
    let record = parse_child_line("app", "  --all", None).expect("a flag line gives a record");
    match record.line_type {
        OutputLine::Flag(flag) => {
            assert_eq!(flag.parent_header, "None");
            assert_eq!(flag.long.as_deref(), Some("--all"));
            assert_eq!(flag.short, None);
            assert_eq!(flag.description, None);
        }
        other => panic!("expected a flag, got {:?}", other),
    }
}

#[test]
fn flag_value_type_is_the_first_plain_word_of_the_definition() {
    let flag = get_flag_line(vec!["-n,", "--count", "uint", "Number", "of", "items"], "Flags");
    assert_eq!(flag.short.as_deref(), Some("-n"));
    assert_eq!(flag.long.as_deref(), Some("--count"));
    // `uint` starts with no hyphen and holds no comma: the description starts there.
    assert_eq!(flag.data_type, None);
    assert_eq!(flag.description.as_deref(), Some("uint Number of items"));

    let flag = get_flag_line(vec!["--name,", "string,", "--other", "rest"], "Flags");
    assert_eq!(flag.long.as_deref(), Some("--name"));
    assert_eq!(flag.data_type.as_deref(), Some("string"));
    assert_eq!(flag.description.as_deref(), Some("rest"));
}

#[test]
fn single_flag_goes_by_its_hyphens() {
    let flag = get_flag_line(vec!["--help"], "Flags");
    assert_eq!(flag.long.as_deref(), Some("--help"));
    assert_eq!(flag.short, None);
    let flag = get_flag_line(vec!["-h"], "Flags");
    assert_eq!(flag.short.as_deref(), Some("-h"));
    assert_eq!(flag.long, None);
}

#[test]
fn shortest_flag_of_each_kind_wins() {
    let flag = get_flag_line(vec!["--verbose,", "--v,", "-vv,", "-q"], "Flags");
    assert_eq!(flag.long.as_deref(), Some("--v"));
    assert_eq!(flag.short.as_deref(), Some("-q"));
    // Among flags of one length the first found wins.
    let flag = get_flag_line(vec!["--bb,", "--aa,", "-y,", "-x"], "Flags");
    assert_eq!(flag.long.as_deref(), Some("--bb"));
    assert_eq!(flag.short.as_deref(), Some("-y"));
}

#[test]
fn header_lines_are_not_indented() {
    assert!(is_header_line("Flags:"));
    assert!(is_header_line("Available Commands"));
    assert!(is_header_line("x"));
    assert!(!is_header_line("  -h, --help"));
    assert!(!is_header_line(" Flags:"));
    assert!(!is_header_line("\tFlags:"));
    assert!(!is_header_line(""));
}

#[test]
fn single_token_line_carries_its_components() {
    let record = parse_child_line("app", "  <file>", Some("Arguments")).expect("a record");
    match record.line_type {
        OutputLine::Other(other) => {
            assert_eq!(other.line_contents, "<file>");
            assert_eq!(other.parent_header, "Arguments");
            let components = other.components.expect("components");
            assert_eq!(components.len(), 1);
            assert_eq!(components[0].component_type, ComponentType::Argument);
            assert_eq!(components[0].name, "<file>");
        }
        other => panic!("expected free text, got {:?}", other),
    }
}

#[test]
fn single_token_line_without_components_is_dropped() {
    // What is left after the command's name is empty.
    assert!(parse_child_line("app", "  app", Some("Usage")).is_none());
    // A blank line has one empty part and no components.
    assert!(parse_child_line("app", "   ", Some("Usage")).is_none());
}

#[test]
fn usage_section_gives_usage_records() {
    let record = parse_child_line("app", "  app [command]", Some("Usage")).expect("a record");
    match record.line_type {
        OutputLine::Usage(usage) => {
            assert_eq!(usage.usage_string, "app [command]");
            assert_eq!(usage.parent_header, "Usage");
            assert_eq!(usage.usage_components.len(), 1);
            assert_eq!(usage.usage_components[0].component_type, ComponentType::Group);
            assert_eq!(usage.usage_components[0].children.len(), 1);
            assert_eq!(usage.usage_components[0].children[0].name, "command");
            assert_eq!(
                usage.usage_components[0].children[0].component_type,
                ComponentType::Keyword
            );
        }
        other => panic!("expected a usage line, got {:?}", other),
    }
}

#[test]
fn example_section_keeps_the_line_as_it_is() {
    let record = parse_child_line("app", "  app serve --port 80", Some("Examples")).expect("a record");
    match record.line_type {
        OutputLine::Other(other) => {
            assert_eq!(other.line_contents, "  app serve --port 80");
            assert!(other.components.is_none());
        }
        other => panic!("expected free text, got {:?}", other),
    }
}

#[test]
fn command_section_gives_commands() {
    for header in ["Available Commands", "COMMANDS", "Subcommands"] {
        let record =
            parse_child_line("app", "  serve  Start the   server", Some(header)).expect("a record");
        match record.line_type {
            OutputLine::Command(command) => {
                assert_eq!(command.name, "serve");
                assert_eq!(command.description, "Start the server");
                assert_eq!(command.parent, "app");
                assert_eq!(command.parent_header, header);
                assert!(command.children.is_empty());
            }
            other => panic!("expected a command, got {:?}", other),
        }
    }
}

#[test]
fn other_sections_give_free_text() {
    let record = parse_child_line("app", "  see the manual", Some("Notes")).expect("a record");
    match record.line_type {
        OutputLine::Other(other) => {
            assert_eq!(other.line_contents, "  see the manual");
            assert!(other.components.is_none());
        }
        other => panic!("expected free text, got {:?}", other),
    }
}

#[test]
fn usage_wins_over_example_and_commands() {
    let record =
        parse_child_line("app", "  app run now", Some("Usage examples for commands")).expect("a record");
    assert!(matches!(record.line_type, OutputLine::Usage(_)));
    let record = parse_child_line("app", "  app run now", Some("Example commands")).expect("a record");
    assert!(matches!(record.line_type, OutputLine::Other(_)));
}

#[test]
fn handled_line_carries_its_kind() {
    let (kind, record) = handle_child_line("app", "Flags", "  -h, --help   help for app").expect("a record");
    assert_eq!(kind, ChildLineType::Flag);
    assert!(matches!(record, OutputLine::Flag(_)));
    let (kind, _) = handle_child_line("app", "Usage", "  app [flags]").expect("a record");
    assert_eq!(kind, ChildLineType::Usage);
    let (kind, _) = handle_child_line("app", "Available Commands", "  serve  Start").expect("a record");
    assert_eq!(kind, ChildLineType::Command);
    let (kind, _) = handle_child_line("app", "Notes", "  some words").expect("a record");
    assert_eq!(kind, ChildLineType::Other);
    assert!(handle_child_line("app", "Notes", "   ").is_none());
}

#[test]
fn help_page_is_read_section_by_section() {
    let page = parse_help_page(
        "app",
        "App description\nUsage:\n  app [command]\nAvailable Commands:\n  serve  Start the server\nFlags:\n  -h, --help   help for app\n",
    );
    assert_eq!(page.description, "App description");
    assert_eq!(page.entries.len(), 3);
    match &page.entries[0].line_type {
        OutputLine::Usage(usage) => {
            assert_eq!(usage.usage_string, "app [command]");
            assert_eq!(usage.parent_header, "Usage");
        }
        other => panic!("expected a usage line, got {:?}", other),
    }
    match &page.entries[1].line_type {
        OutputLine::Command(command) => {
            assert_eq!(command.name, "serve");
            assert_eq!(command.description, "Start the server");
            assert_eq!(command.parent_header, "Available Commands");
        }
        other => panic!("expected a command, got {:?}", other),
    }
    match &page.entries[2].line_type {
        OutputLine::Flag(flag) => {
            assert_eq!(flag.short.as_deref(), Some("-h"));
            assert_eq!(flag.long.as_deref(), Some("--help"));
            assert_eq!(flag.description.as_deref(), Some("help for app"));
            assert_eq!(flag.parent_header, "Flags");
        }
        other => panic!("expected a flag, got {:?}", other),
    }
}

#[test]
fn help_page_passes_over_what_is_no_record() {
    // Indented lines before any header, lines indented by one space, blank lines.
    let page = parse_help_page("tool sub", "  early line\n\nNotes\n one space only\n\ttabbed words here\n\r\n");
    assert_eq!(page.description, "");
    assert_eq!(page.entries.len(), 1);
    match &page.entries[0].line_type {
        OutputLine::Other(other) => {
            assert_eq!(other.line_contents, "\ttabbed words here");
            assert_eq!(other.parent_header, "Notes");
        }
        other => panic!("expected free text, got {:?}", other),
    }
}

#[test]
fn usage_lines_are_read_after_the_last_word_of_the_command() {
    let page = parse_help_page("tool remote add", "Usage:\n  tool remote add <name> <url>\n");
    match &page.entries[0].line_type {
        OutputLine::Usage(usage) => {
            let names: Vec<&str> = usage.usage_components.iter().map(|c| c.name.as_str()).collect();
            assert_eq!(names, vec!["<name>", "<url>"]);
        }
        other => panic!("expected a usage line, got {:?}", other),
    }
}

#[test]
fn scanner_opens_a_section_at_each_header() {
    let mut scanner = LineScanner::new("demo");
    assert_eq!(scanner.command_word, "demo".chars().collect::<Vec<char>>());
    assert!(scanner.section.is_none());

    // Before any header an indented line gives nothing.
    let early: Vec<char> = "  serve   Start the server".chars().collect();
    assert!(scanner.scan(&early).is_none());
    assert!(scanner.section.is_none());

    let header: Vec<char> = "Available Commands:".chars().collect();
    assert!(scanner.scan(&header).is_none());
    assert_eq!(
        scanner.section,
        Some("Available Commands".chars().collect::<Vec<char>>())
    );

    let blank: Vec<char> = "   ".chars().collect();
    assert!(scanner.scan(&blank).is_none());
    assert!(scanner.section.is_some());

    let record = scanner.scan(&early).expect("a command line gives a record");
    match record.line_type {
        OutputLine::Command(c) => {
            assert_eq!(c.name, "serve");
            assert_eq!(c.description, "Start the server");
        }
        _ => panic!("a command was expected"),
    }

    // A line behind a single space gives nothing and leaves the section open.
    let plain: Vec<char> = " text behind one space".chars().collect();
    assert!(scanner.scan(&plain).is_none());
    assert_eq!(
        scanner.section,
        Some("Available Commands".chars().collect::<Vec<char>>())
    );

    let flags: Vec<char> = "Flags:".chars().collect();
    assert!(scanner.scan(&flags).is_none());
    assert_eq!(scanner.section, Some("Flags".chars().collect::<Vec<char>>()));
}

#[test]
fn scanner_reads_the_last_word_of_the_command() {
    let scanner = LineScanner::new("demo remote add");
    assert_eq!(scanner.command_word, "add".chars().collect::<Vec<char>>());
    let empty = LineScanner::new("   ");
    assert!(empty.command_word.is_empty());
}
