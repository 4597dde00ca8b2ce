use clint::replicator::{
    generate_cli_builder, generate_main_builder, handler_file_content, replicate, ChildrenSpec,
    CliSpec, CommandSpec, FlagSpec, ReplicateError,
};

fn flag(short: Option<&str>, long: Option<&str>, data_type: Option<&str>, description: Option<&str>, required: Option<bool>) -> FlagSpec {
    FlagSpec {
        short: short.map(|s| s.to_string()),
        long: long.map(|s| s.to_string()),
        data_type: data_type.map(|s| s.to_string()),
        description: description.map(|s| s.to_string()),
        parent_header: "Flags".to_string(),
        required,
    }
}

fn children(flags: Vec<FlagSpec>, commands: Vec<CommandSpec>) -> ChildrenSpec {
    ChildrenSpec { commands, flags, usages: Vec::new(), others: Vec::new() }
}

fn command(name: &str, description: &str, flags: Vec<FlagSpec>, commands: Vec<CommandSpec>) -> CommandSpec {
    CommandSpec {
        name: name.to_string(),
        description: description.to_string(),
        parent: String::new(),
        parent_header: None,
        children: children(flags, commands),
    }
}

fn sample() -> CliSpec {
    CliSpec {
        name: "app".to_string(),
        description: "An \"app\"".to_string(),
        version: "1.0".to_string(),
        children: children(
            vec![
                flag(Some("-v"), Some("--verbose"), None, Some("Verbose"), None),
                flag(None, Some("--config"), Some("string"), Some("Config file"), None),
                flag(Some("-h"), Some("--help"), None, Some("help for app"), None),
            ],
            vec![
                command(
                    "serve",
                    "Serve",
                    vec![
                        flag(Some("-p"), Some("--port"), Some("uint32"), Some("Port"), Some(true)),
                        flag(None, Some("--dry-run"), Some("stringArray"), Some("Tags"), Some(false)),
                        flag(Some("-h"), None, None, None, None),
                    ],
                    vec![command("start", "Start", vec![flag(None, Some("--now"), None, None, None)], vec![])],
                ),
                command("stop", "Stop", vec![], vec![]),
            ],
        ),
    }
}

#[test]
fn command_line_definition() {
    let expected = "use clap::{Command, Arg, ArgAction};\n\npub fn build_cli() -> Command {\n    let mut cmd = Command::new(\"app\").version(\"1.0\").about(\"An \\\"app\\\"\");\n    cmd = cmd.disable_help_subcommand(true);\n\n    // Global flags\n    cmd = cmd.arg(Arg::new(\"config\").long(\"config\").help(\"Config file\").action(ArgAction::Set).required(false));\n\n    cmd = cmd.subcommands(vec![\n        Command::new(\"serve\").about(\"Serve\").arg(Arg::new(\"port\").short('p').long(\"port\").help(\"Port\").action(ArgAction::Set).required(true)).arg(Arg::new(\"dry-run\").long(\"dry-run\").help(\"Tags\").action(ArgAction::Set).required(false)).arg(Arg::new(\"h\").short('h').help(\"\").action(ArgAction::Count).required(false)).subcommands(vec![Command::new(\"start\").about(\"Start\").arg(Arg::new(\"now\").long(\"now\").help(\"\").action(ArgAction::Count).required(false)),]),\n        Command::new(\"stop\").about(\"Stop\"),\n    ]);\n    cmd\n}\n";
    assert_eq!(generate_cli_builder(&sample(), false, false), expected);
}

#[test]
fn kept_flags_stay_in_the_definition() {
    let text = generate_cli_builder(&sample(), true, true);
    assert!(!text.contains("disable_help_subcommand"));
    assert!(text.contains("    cmd = cmd.arg(Arg::new(\"verbose\").short('v').long(\"verbose\").help(\"Verbose\").action(ArgAction::Count).required(false));\n"));
    assert!(text.contains("    cmd = cmd.arg(Arg::new(\"help\").short('h').long(\"help\").help(\"help for app\").action(ArgAction::Count).required(false));\n"));
    let text = generate_cli_builder(&sample(), true, false);
    assert!(!text.contains("Arg::new(\"verbose\")"));
    assert!(text.contains("Arg::new(\"help\")"));
}

#[test]
fn main_dispatches_on_commands_and_subcommands() {
    let expected = "mod cli;\nuse cli::build_cli;\n\nfn main() {\n    let mut cmd = build_cli();\n    let matches = cmd.clone().try_get_matches().unwrap_or_else(|e| e.exit());\n    match matches.subcommand() {\n        Some((\"serve\", sub_m)) => {\n            let port: u32 = sub_m.get_one::<u32>(\"port\").copied().unwrap_or(0);\n            let dry_run: Vec<String> = sub_m.get_many::<String>(\"dry-run\").map(|vals| vals.cloned().collect()).unwrap_or_else(|| vec![\"mock_value\".to_string()]);\n            let h: bool = sub_m.get_flag(\"h\");\n            match sub_m.subcommand() {\n                Some((\"start\", sub_sub_m)) => {\n                    let now: bool = sub_sub_m.get_flag(\"now\");\n                    println!(\"Called serve start with args: {:?}\", sub_sub_m);\n                }\n                                _ => {\n                    match cmd.clone().find_subcommand_mut(\"serve\") {\n                        Some(c) => { c.print_help().expect(\"Failed to print help\"); },\n                        _ => std::process::exit(1),\n                    }\n                }\n            }\n        }\n        Some((\"stop\", sub_m)) => {\n            println!(\"Called stop with args: {:?}\", sub_m);\n        }\n        _ => { cmd.print_help().expect(\"Failed to print help\"); }\n    }\n}";
    assert_eq!(generate_main_builder(&sample(), false, false), expected);
}

#[test]
fn main_reads_each_kind_of_flag() {
    let spec = CliSpec {
        name: "t".to_string(),
        description: String::new(),
        version: String::new(),
        children: children(vec![], vec![command(
            "c",
            "",
            vec![
                flag(None, Some("--name"), Some("string"), None, None),
                flag(None, Some("--n"), Some("uint"), None, None),
                flag(None, Some("--help"), None, None, None),
                flag(None, Some("--verbose"), None, None, None),
            ],
            vec![command("s", "", vec![
                flag(None, Some("--name"), Some("string"), None, None),
                flag(None, Some("--tags"), Some("stringArray"), None, None),
                flag(None, Some("--n"), Some("uint32"), None, None),
            ], vec![])],
        )]),
    };
    let text = generate_main_builder(&spec, false, true);
    assert!(text.contains("            let name: String = sub_m.get_one::<String>(\"name\").cloned().unwrap_or_else(|| \"mock_value\".to_string());\n"));
    assert!(text.contains("            let n: u32 = sub_m.get_one::<u32>(\"n\").copied().unwrap_or(0);\n"));
    assert!(text.contains("            let verbose: bool = sub_m.get_flag(\"verbose\");\n"));
    assert!(!text.contains("let help"));
    assert!(text.contains("                    let name: String = sub_sub_m.get_one::<String>(\"name\").cloned().unwrap_or_default();\n"));
    assert!(text.contains("                    let tags: Vec<String> = sub_sub_m.get_many::<String>(\"tags\").map(|vals| vals.cloned().collect()).unwrap_or_default();\n"));
    assert!(text.contains("                    let n: u32 = sub_sub_m.get_one::<u32>(\"n\").copied().unwrap_or_default();\n"));
}

#[test]
fn handlers_of_a_command_and_its_subcommands() {
    let spec = sample();
    assert_eq!(
        handler_file_content(&spec.children.commands[0]),
        "use clap::ArgMatches;\n\npub fn handle_serve(matches: &ArgMatches, print_help: impl Fn()) {    if matches.args_present() {\n        println!(\"Called serve with args: {:?}\", matches);\n    } else {\n        print_help();\n    }\n}\n\npub fn handle_serve_start(matches: &ArgMatches, print_help: impl Fn()) {    if matches.args_present() {\n        println!(\"Called serve start with args: {:?}\", matches);\n    } else {\n        print_help();\n    }\n}\n\n"
    );
}

#[test]
fn replica_is_the_definition_main_and_the_handlers() {
    let spec = sample();
    assert!(spec.is_well_formed());
    let files = replicate(&spec, false, true).expect("every flag has a name");
    let paths: Vec<&str> = files.iter().map(|f| f.path.as_str()).collect();
    assert_eq!(paths, vec!["src/cli.rs", "src/main.rs", "src/commands/serve.rs", "src/commands/stop.rs"]);
    assert_eq!(files[0].content, generate_cli_builder(&spec, false, true));
    assert_eq!(files[1].content, generate_main_builder(&spec, false, true));
    assert_eq!(files[2].content, handler_file_content(&spec.children.commands[0]));
}

#[test]
fn flag_without_a_name_is_refused() {
    let mut spec = sample();
    spec.children.commands[0].children.commands[0].children.flags.push(flag(None, None, None, Some("nameless"), None));
    assert!(!spec.is_well_formed());
    assert_eq!(replicate(&spec, true, true).err(), Some(ReplicateError::FlagWithoutName));
    let mut spec = sample();
    spec.children.flags.push(flag(None, None, None, None, None));
    assert!(!spec.is_well_formed());
    let mut spec = sample();
    spec.children.commands[1].children.flags.push(flag(None, None, None, None, None));
    assert!(!spec.is_well_formed());
}
