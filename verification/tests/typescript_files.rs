use clint::comparison::ChangeType;
use clint::typescript_diff::{
    analyze_typescript_changes, compare_typescript_files, extract_command_from_path,
    extract_flags_from_typescript, extract_property_value, parse_flag_objects, parse_single_flag,
    TsFile, TypeScriptFlag,
};

const SERVE_V1: &str = "import type { Command, CommandFlag } from './schema';\n\nexport const SERVE_FLAGS: CommandFlag[] = [\n  {\n    longName: '--port',\n    shortName: '-p',\n    valueDataType: CommandComponentDataType.INTEGER,\n    description: 'Port to listen on [default]',\n    required: false,\n    examples: [],\n    namingConvention: 'String'\n  },\n  {\n    longName: '--host',\n    valueDataType: CommandComponentDataType.STRING,\n    description: 'Host name',\n    required: false,\n    examples: [],\n    namingConvention: 'String'\n  },\n];\n\nexport const ServeCommand: Command = {\n  name: 'serve',\n};\n";

const SERVE_V2: &str = "import type { Command, CommandFlag } from './schema';\n\nexport const SERVE_FLAGS: CommandFlag[] = [\n  {\n    longName: '--port',\n    shortName: '-p',\n    valueDataType: CommandComponentDataType.STRING,\n    description: 'The port',\n    required: false,\n    examples: [],\n    namingConvention: 'String'\n  },\n  {\n    longName: '--tls',\n    valueDataType: CommandComponentDataType.BOOLEAN,\n    description: 'Use TLS',\n    required: false,\n    examples: [],\n    namingConvention: 'String'\n  },\n];\n";

fn lines(changes: &Vec<ChangeType>) -> Vec<String> {
    changes.iter().map(|c| c.format()).collect()
}

#[test]
fn path_names_the_command_and_those_above_it() {
    let info = extract_command_from_path("help.ts").expect("a command");
    assert_eq!((info.parent.as_str(), info.command.as_str()), ("", "help"));
    let info = extract_command_from_path("secret/create.ts").expect("a command");
    assert_eq!((info.parent.as_str(), info.command.as_str()), ("secret", "create"));
    let info = extract_command_from_path("checkpoint/model/list.ts").expect("a command");
    assert_eq!((info.parent.as_str(), info.command.as_str()), ("checkpoint model", "list"));
    // Every `.ts` goes, wherever it stands.
    let info = extract_command_from_path("a.ts/b.tsx").expect("a command");
    assert_eq!((info.parent.as_str(), info.command.as_str()), ("a", "bx"));
    let info = extract_command_from_path("").expect("a command");
    assert_eq!((info.parent.as_str(), info.command.as_str()), ("", ""));
}

#[test]
fn property_values_are_read_with_and_without_quotes() {
    assert_eq!(extract_property_value("{ longName: '--port', x: 1 }", "longName").as_deref(), Some("--port"));
    assert_eq!(extract_property_value("{ longName:\"--port\" }", "longName").as_deref(), Some("--port"));
    assert_eq!(extract_property_value("{ longName: '', x: 1 }", "longName").as_deref(), Some(""));
    assert_eq!(extract_property_value("{ longName: '--port }", "longName"), None);
    assert_eq!(
        extract_property_value("{ valueDataType: Kind.INTEGER, d: 2 }", "valueDataType").as_deref(),
        Some("Kind.INTEGER")
    );
    assert_eq!(extract_property_value("{ required: false\n}", "required").as_deref(), Some("false"));
    assert_eq!(extract_property_value("{ required: false }", "required").as_deref(), Some("false"));
    assert_eq!(extract_property_value("{ required: false", "required").as_deref(), Some("false"));
    // A comma wins over a line feed that stands before it.
    assert_eq!(extract_property_value("a: x\ny, z", "a").as_deref(), Some("x\ny"));
    assert_eq!(extract_property_value("{ required: , }", "required"), None);
    assert_eq!(extract_property_value("{ other: 1 }", "required"), None);
}

#[test]
fn object_needs_a_name_and_a_description() {
    let flag = parse_single_flag("{ longName: '--a', shortName: '-a', description: 'An a', valueDataType: T.S }")
        .expect("a flag");
    assert_eq!(flag.long_name.as_deref(), Some("--a"));
    assert_eq!(flag.short_name.as_deref(), Some("-a"));
    assert_eq!(flag.description, "An a");
    assert_eq!(flag.data_type, "T.S");
    let flag = parse_single_flag("{ shortName: '-a', description: 'An a' }").expect("a flag");
    assert_eq!(flag.long_name, None);
    assert_eq!(flag.data_type, "");
    assert!(parse_single_flag("{ longName: '--a' }").is_none());
    assert!(parse_single_flag("{ longName: '--a', description: '' }").is_none());
    assert!(parse_single_flag("{ description: 'nameless' }").is_none());
}

#[test]
fn objects_are_cut_at_matching_braces() {
    let flags = parse_flag_objects(
        " { longName: '--a', description: 'a', nested: { deep: 1 } }, junk { description: 'no name' } { shortName: '-b', description: 'b' }",
    );
    let names: Vec<String> = flags.iter().map(|f| f.get_signature()).collect();
    assert_eq!(names, vec!["--a", "-b"]);
    // A brace that closes nothing is counted: the object after it never ends.
    let flags = parse_flag_objects("{ longName: '--a', description: 'a' } } { shortName: '-b', description: 'b' }");
    let names: Vec<String> = flags.iter().map(|f| f.get_signature()).collect();
    assert_eq!(names, vec!["--a"]);
    assert!(parse_flag_objects("").is_empty());
    assert!(parse_flag_objects("{ longName: '--open', description: 'never closed'").is_empty());
}

#[test]
fn flags_are_read_from_the_flags_array() {
    let flags = extract_flags_from_typescript(SERVE_V1);
    assert_eq!(flags.len(), 2);
    assert_eq!(flags[0].long_name.as_deref(), Some("--port"));
    assert_eq!(flags[0].short_name.as_deref(), Some("-p"));
    assert_eq!(flags[0].description, "Port to listen on [default]");
    assert_eq!(flags[0].data_type, "CommandComponentDataType.INTEGER");
    assert_eq!(flags[1].long_name.as_deref(), Some("--host"));
    assert_eq!(flags[1].short_name, None);
    assert!(extract_flags_from_typescript("export const X = 1;").is_empty());
    // An array that is never closed gives no flags.
    assert!(extract_flags_from_typescript("A_FLAGS: CommandFlag[] = [ { longName: '--a', description: 'a' }").is_empty());
    // A bracket in a string does not close the array.
    let flags = extract_flags_from_typescript(
        "A_FLAGS: CommandFlag[] = [ { longName: '--a', description: 'a ] b \\' ] c' }, { longName: '--b', description: \"x\" } ];",
    );
    assert_eq!(flags.len(), 2);
    assert_eq!(flags[0].description, "a ] b \\");
}

#[test]
fn shown_and_known_by_the_names_present() {
    let f = |short: Option<&str>, long: Option<&str>| TypeScriptFlag {
        long_name: long.map(|s| s.to_string()),
        short_name: short.map(|s| s.to_string()),
        description: "d".to_string(),
        data_type: "t".to_string(),
    };
    assert_eq!(f(Some("-a"), Some("--all")).get_signature(), "--all");
    assert_eq!(f(Some("-a"), None).get_signature(), "-a");
    assert_eq!(f(None, None).get_signature(), "unknown");
    assert_eq!(f(Some("-a"), Some("--all")).format_display(), "-a/--all");
    assert_eq!(f(Some("-a"), None).format_display(), "-a");
    assert_eq!(f(None, Some("--all")).format_display(), "--all");
    assert_eq!(f(None, None).format_display(), "unknown");
}

#[test]
fn changes_of_one_file() {
    let mut changes = Vec::new();
    analyze_typescript_changes(SERVE_V1, SERVE_V2, "app/serve.ts", &mut changes);
    assert_eq!(lines(&changes), vec![
        "+ Added flag: --tls (command: app serve)",
        "- Removed flag: --host (command: app serve)",
        "~ Modified flag: -p/--port (command: app serve)\n    Description changed:\n      Before: \"Port to listen on [default]\"\n      After:  \"The port\"",
        "~ Modified flag: -p/--port (command: app serve)\n    Data type changed: CommandComponentDataType.INTEGER -> CommandComponentDataType.STRING",
    ]);
    let mut more = Vec::new();
    analyze_typescript_changes(SERVE_V1, SERVE_V1, "serve.ts", &mut more);
    assert!(more.is_empty());
}

#[test]
fn changes_of_two_directories() {
    let file = |path: &str, content: &str| TsFile { path: path.to_string(), content: content.to_string() };
    let from = vec![file("serve.ts", SERVE_V1), file("old.ts", "x"), file("same.ts", SERVE_V1), file("a/gone.ts", "")];
    let to = vec![file("a/b/new.ts", "y"), file("same.ts", SERVE_V1), file("serve.ts", SERVE_V2)];
    let changes = compare_typescript_files(&from, &to);
    assert_eq!(lines(&changes), vec![
        "+ Added command: new (to a b)",
        "- Removed command: old",
        "- Removed command: gone (from a)",
        "+ Added flag: --tls (command: serve)",
        "- Removed flag: --host (command: serve)",
        "~ Modified flag: -p/--port (command: serve)\n    Description changed:\n      Before: \"Port to listen on [default]\"\n      After:  \"The port\"",
        "~ Modified flag: -p/--port (command: serve)\n    Data type changed: CommandComponentDataType.INTEGER -> CommandComponentDataType.STRING",
    ]);
    assert!(compare_typescript_files(&from, &from).is_empty());
}
