use clint::models::{LineFlag, LineUsage};
use clint::tree::{Children, CstNode, Outputs};
use clint::typescript_generator::{
    arguments_of, command_file_content, data_type_enum, flag_is_required, flag_object,
    generate_flags_constant, generate_typescript_files, index_content,
};
use clint::usage_parser::parse_usage_line;

fn flag(short: Option<&str>, long: Option<&str>, data_type: Option<&str>, description: Option<&str>) -> LineFlag {
    LineFlag {
        short: short.map(|s| s.to_string()),
        long: long.map(|s| s.to_string()),
        data_type: data_type.map(|s| s.to_string()),
        description: description.map(|s| s.to_string()),
        parent_header: "Flags".to_string(),
    }
}

fn usage(line: &str, command: &str) -> LineUsage {
    LineUsage {
        usage_string: line.to_string(),
        parent_header: "Usage".to_string(),
        usage_components: parse_usage_line(line, command),
    }
}

fn node(name: &str, description: &str, flags: Vec<LineFlag>, usages: Vec<LineUsage>, commands: Vec<CstNode>) -> CstNode {
    CstNode {
        name: name.to_string(),
        description: description.to_string(),
        version: None,
        depth: 1,
        command_path: name.to_string(),
        parent_header: String::new(),
        parent: String::new(),
        outputs: Outputs { help_page: None },
        children: Children { commands, flags, usages, others: Vec::new() },
    }
}

fn serve_flags() -> Vec<LineFlag> {
    vec![
        flag(Some("-p"), Some("--port"), None, Some("uint Port to listen on (default 8080)")),
        flag(None, Some("--all"), None, Some("Show all")),
        flag(Some("-x"), None, None, Some("No long name")),
        flag(Some("-h"), Some("--help"), None, Some("help for serve")),
    ]
}

const SERVE_FLAGS: &str = "export const SERVE_FLAGS: CommandFlag[] = [\n  {\n    longName: '--all',\n    valueDataType: CommandComponentDataType.STRING,\n    description: 'Show all',\n    required: false,\n    examples: [],\n    namingConvention: 'String'\n  },\n  {\n    longName: '--help',\n    shortName: '-h',\n    valueDataType: CommandComponentDataType.BOOLEAN,\n    description: 'help for serve',\n    required: false,\n    examples: [],\n    namingConvention: 'String'\n  },\n  {\n    longName: '--port',\n    shortName: '-p',\n    valueDataType: CommandComponentDataType.INTEGER,\n    defaultValue: '8080',\n    description: 'Port to listen on (default 8080)',\n    required: false,\n    examples: [],\n    namingConvention: 'String'\n  },\n];\n\n";

#[test]
fn flags_constant_lists_the_named_flags_in_order_of_their_names() {
    let children = Children {
        commands: Vec::new(),
        flags: serve_flags(),
        usages: vec![usage("app serve NAME [flags]", "serve")],
        others: Vec::new(),
    };
    assert_eq!(generate_flags_constant(&children, "serve"), SERVE_FLAGS);
}

#[test]
fn flags_constant_of_a_command_without_flags_is_empty() {
    assert_eq!(generate_flags_constant(&Children::new(), "serve"), "");
}

#[test]
fn flags_of_one_name_keep_their_order() {
    let children = Children {
        commands: Vec::new(),
        flags: vec![
            flag(None, Some("--b"), None, Some("second b")),
            flag(None, Some("-a"), None, Some("it's an a")),
            flag(None, Some("---b"), None, Some("third b")),
            flag(None, Some("b"), None, Some("fourth b")),
        ],
        usages: Vec::new(),
        others: Vec::new(),
    };
    let text = generate_flags_constant(&children, "my-cmd.x");
    assert!(text.starts_with("export const MY_CMD_X_FLAGS: CommandFlag[] = [\n"));
    let order: Vec<&str> = text.lines().filter(|l| l.contains("description:")).collect();
    assert_eq!(order, vec![
        "    description: 'it\\'s an a',",
        "    description: 'second b',",
        "    description: 'third b',",
        "    description: 'fourth b',",
    ]);
}

#[test]
fn value_types_are_mapped() {
    assert_eq!(data_type_enum("stringArray", "", "Tags", "--tags"), "[CommandComponentDataType.STRING]");
    assert_eq!(data_type_enum("stringArray", "", "Labels as key=value", "--l"), "CommandComponentDataType.KEY_VALUE_MAPPING");
    assert_eq!(data_type_enum("stringToString", "", "", "--l"), "CommandComponentDataType.KEY_VALUE_MAPPING");
    assert_eq!(data_type_enum("uint", "", "", "--n"), "CommandComponentDataType.INTEGER");
    assert_eq!(data_type_enum("int", "", "", "--n"), "CommandComponentDataType.INTEGER");
    assert_eq!(data_type_enum("bool", "", "", "--n"), "CommandComponentDataType.BOOLEAN");
    assert_eq!(data_type_enum("string", "", "", "--n"), "CommandComponentDataType.STRING");
    assert_eq!(data_type_enum("float", "", "", "--n"), "CommandComponentDataType.FLOAT");
    assert_eq!(data_type_enum("duration", "", "", "--help"), "CommandComponentDataType.STRING");
    // The type of the flag wins over the type in its description.
    assert_eq!(data_type_enum("bool", "uint", "", "--n"), "CommandComponentDataType.BOOLEAN");
    assert_eq!(data_type_enum("", "float", "", "--n"), "CommandComponentDataType.FLOAT");
    assert_eq!(data_type_enum("", "", "", "--help"), "CommandComponentDataType.BOOLEAN");
    assert_eq!(data_type_enum("", "", "help for x", "--x"), "CommandComponentDataType.BOOLEAN");
    assert_eq!(data_type_enum("", "", "x", "--no-color"), "CommandComponentDataType.BOOLEAN");
    assert_eq!(data_type_enum("", "", "x", "--color"), "CommandComponentDataType.STRING");
}

#[test]
fn required_flags_are_told_from_description_and_usage() {
    assert!(!flag_is_required("Port (default 1)", "app <--port>", "--port", ""));
    assert!(!flag_is_required("The Default is 1, required", "", "--port", ""));
    assert!(!flag_is_required("Defaults to 1", "", "--port", ""));
    assert!(!flag_is_required("required", "", "--help", ""));
    assert!(!flag_is_required("help for app (required)", "", "--x", ""));
    assert!(flag_is_required("The port (REQUIRED)", "app [--port]", "--port", ""));
    assert!(flag_is_required("A mandatory port", "", "--port", ""));
    assert!(flag_is_required("Must be provided", "", "--port", ""));
    assert!(flag_is_required("You must specify it", "", "--port", ""));
    assert!(flag_is_required("The port", "app --port PORT", "--port", ""));
    assert!(!flag_is_required("The port", "app [--port]", "--port", ""));
    assert!(!flag_is_required("The port", "", "--port", ""));
}

#[test]
fn flag_object_takes_the_type_out_of_the_description() {
    let object = flag_object(&flag(Some("-n"), Some("--count"), None, Some("int How many (default 3)")), "");
    assert_eq!(object.long_flag, "--count");
    assert_eq!(object.short_flag, "-n");
    assert_eq!(object.data_type_enum, "CommandComponentDataType.INTEGER");
    assert_eq!(object.clean_description, "How many (default 3)");
    assert_eq!(object.default_value.as_deref(), Some("3"));
    assert!(!object.is_required);
}

#[test]
fn arguments_are_the_upper_case_keywords_of_the_usage_lines() {
    let usages = vec![
        usage("app copy SOURCE [DEST_DIR] <file> --flag FLAGS lower", "copy"),
        usage("app copy OTHER", "copy"),
    ];
    let arguments = arguments_of(&usages);
    let names: Vec<(&str, bool)> = arguments.iter().map(|a| (a.name.as_str(), a.required)).collect();
    assert_eq!(names, vec![("SOURCE", true), ("OTHER", true)]);
}

#[test]
fn command_file_has_imports_flags_and_the_command() {
    let serve = node(
        "serve",
        "Start the server",
        serve_flags(),
        vec![usage("app serve NAME [flags]", "serve")],
        vec![node("start", "Start it", vec![], vec![], vec![])],
    );
    let expected = format!(
        "import type {{ Command, CommandFlag }} from './schema';\nimport {{ CommandComponentDataType }} from './schema';\nimport {{ NamingConventions }} from './naming-convention';\nimport {{ StartCommand }} from './serve/start';\n\n{}\nexport const ServeCommand: Command = {{\n  name: 'serve',\n  description: 'Start the server',\n  usage: 'app serve NAME [flags]',\n  arguments: {{\n    name: {{\n      description: 'The name to use.',\n      required: true,\n      valueDataType: CommandComponentDataType.STRING,\n      formats: [\n        {{\n          namingConvention: NamingConventions.ResourceName(),\n          examples: [],\n        }}\n      ]\n    }},\n  }},\n  flags: SERVE_FLAGS,\n  subcommands: {{\n    'start': StartCommand;\n  }};\n}};\n\n",
        SERVE_FLAGS
    );
    assert_eq!(command_file_content(&serve, ""), expected);
}

#[test]
fn command_file_of_a_bare_subcommand() {
    let start = node("start it", "It's started", vec![], vec![], vec![]);
    assert_eq!(
        command_file_content(&start, "serve"),
        "import type { Command, CommandFlag } from '../schema';\n\nexport const StartItCommand: Command = {\n  name: 'start it',\n  description: 'It\\'s started',\n};\n\n"
    );
}

#[test]
fn files_of_subcommands_come_before_the_file_of_their_command() {
    let tree = node("app", "", vec![], vec![], vec![
        node("serve", "", vec![], vec![], vec![
            node("start", "", vec![], vec![], vec![node("now", "", vec![], vec![], vec![])]),
            node("stop it", "", vec![], vec![], vec![]),
        ]),
        node("version", "", vec![], vec![], vec![]),
    ]);
    let files = generate_typescript_files(&tree);
    let paths: Vec<&str> = files.iter().map(|f| f.path.as_str()).collect();
    assert_eq!(paths, vec![
        "serve/start/now.ts",
        "serve/start.ts",
        "serve/stop_it.ts",
        "serve.ts",
        "version.ts",
    ]);
    assert_eq!(files[0].content, command_file_content(&tree.children.commands[0].children.commands[0].children.commands[0], "serve/start"));
    assert_eq!(files[3].content, command_file_content(&tree.children.commands[0], ""));
    assert!(files[1].content.contains("import { NowCommand } from '../start/now';"));
    assert!(files[3].content.contains("import { StopItCommand } from './serve/stop_it';"));
    assert_eq!(
        index_content("1.2.3", &files),
        "// Auto-generated command exports\nexport * from './schema';\n\nexport const version = '1.2.3';\nexport * from './serve/start/now';\nexport * from './serve/start';\nexport * from './serve/stop_it';\nexport * from './serve';\nexport * from './version';\n"
    );
}
