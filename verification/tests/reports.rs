use clint::comparison::{compare_json_structures, ChangeType, CompareError, LoadError};
use clint::models::{CLIKeywords, CLISummary, FileOutputFormat, OutputFile, ParseOutputFormat};
use clint::naive_tooltip_content_generator::{
    serialize_token_object_to_ts, write_ts_file, TokenContents, TokenObject,
};
use clint::reports::{
    cached_tree_name, comparison_report, default_output_parts, fallback_report, render_keywords,
    render_summary, select_versions, tagged_output_parts, version_parts, SelectError,
};
use clint::serve::{
    app_label, app_name, backup_name, candidate_port, version_label, version_order, PortSearch,
    PortStep, VersionFile, PREFERRED_PORT,
};
use clint::tree::{Children, CstNode, Outputs};
use clint::typescript_writer::{write_tokens_list_ts, Token, ToolTipContents};

fn strings(items: &[&str]) -> Vec<String> {
    items.iter().map(|s| s.to_string()).collect()
}

fn keywords() -> CLIKeywords {
    CLIKeywords {
        base_program: "tool".to_string(),
        commands: strings(&["add", "remove"]),
        subcommands: strings(&["all", "one"]),
        short_flags: strings(&["-a"]),
        long_flags: Vec::new(),
    }
}

#[test]
fn keywords_in_each_format() {
    assert_eq!(
        render_keywords(&keywords(), FileOutputFormat::Markdown).as_deref(),
        Some("# `tool`\n\n## First level commands\n\nadd\n- remove\n\n## All subcommands\n\nall one\n\n## Short flags\n\n-a\n\n## Long flags\n\n")
    );
    assert_eq!(
        render_keywords(&keywords(), FileOutputFormat::Text).as_deref(),
        Some("tool:\n\nFirst level commands:\nadd\n- remove\n\nAll subcommands:\nall one\n\nShort flags:\n-a\n\nLong flags:\n")
    );
    assert_eq!(
        render_keywords(&keywords(), FileOutputFormat::Csv).as_deref(),
        Some("type,value\nbase_program,tool\ncommand,add\ncommand,remove\nsubcommand,all\nsubcommand,one\nshort_flag,-a\n")
    );
    assert_eq!(render_keywords(&keywords(), FileOutputFormat::Json), None);
}

fn summary() -> CLISummary {
    CLISummary {
        unique_keywords_count: 11,
        unique_command_count: 2,
        unique_subcommand_count: 3,
        unique_short_flag_count: 3,
        unique_long_flag_count: 3,
        total_command_count: 2,
        total_subcommand_count: 4,
        total_short_flag_count: 6,
        total_long_flag_count: 10,
    }
}

#[test]
fn summary_in_each_format() {
    assert_eq!(
        render_summary(&summary(), FileOutputFormat::Markdown).as_deref(),
        Some("# CLI Summary\n\n## Unique Keywords Count\n\n11\n\n## Unique Command Count\n\n2\n\n## Unique Subcommand Count\n\n3\n\n## Unique Short Flag Count\n\n3\n\n## Unique Long Flag Count\n\n3\n\n## Total Command Count\n\n2\n\n## Total Subcommand Count\n\n4\n\n## Total Short Flag Count\n\n6\n\n## Total Long Flag Count\n\n10")
    );
    assert_eq!(
        render_summary(&summary(), FileOutputFormat::Text).as_deref(),
        Some("Unique Keywords Count: 11\n\nUnique Command Count: 2\n\nUnique Subcommand Count: 3\n\nUnique Short Flag Count: 3\n\nUnique Long Flag Count: 3\n\nTotal Command Count: 2\n\nTotal Subcommand Count: 4\n\nTotal Short Flag Count: 6\n\nTotal Long Flag Count: 10")
    );
    assert_eq!(
        render_summary(&summary(), FileOutputFormat::Csv).as_deref(),
        Some("metric,value\nunique_keywords_count,11\nunique_command_count,2\nunique_subcommand_count,3\nunique_short_flag_count,3\nunique_long_flag_count,3\ntotal_command_count,2\ntotal_subcommand_count,4\ntotal_short_flag_count,6\ntotal_long_flag_count,10\n")
    );
    assert_eq!(render_summary(&summary(), FileOutputFormat::Json), None);
}

#[test]
fn formats_are_named() {
    assert_eq!(ParseOutputFormat::from_str("JSON"), Some(ParseOutputFormat::Json));
    assert_eq!(ParseOutputFormat::from_str("json-schema"), Some(ParseOutputFormat::JsonSchema));
    assert_eq!(ParseOutputFormat::from_str("Zod"), Some(ParseOutputFormat::ZodSchema));
    for name in ["ts-dir", "typescript-dir", "TypeScript-Directory", "zod-dir", "zod-directory"] {
        assert_eq!(ParseOutputFormat::from_str(name), Some(ParseOutputFormat::TypeScriptDirectory));
    }
    assert_eq!(ParseOutputFormat::from_str("yaml"), None);
    assert_eq!(ParseOutputFormat::from_str(""), None);
    assert_eq!(ParseOutputFormat::Json.get_file_extension(), "json");
    assert_eq!(ParseOutputFormat::JsonSchema.get_file_extension(), "schema.json");
    assert_eq!(ParseOutputFormat::ZodSchema.get_file_extension(), "zod.ts");
    assert_eq!(ParseOutputFormat::TypeScriptDirectory.get_file_extension(), "");
    assert_eq!(FileOutputFormat::from_str("json"), Some(FileOutputFormat::Json));
    assert_eq!(FileOutputFormat::from_str("MD"), Some(FileOutputFormat::Markdown));
    assert_eq!(FileOutputFormat::from_str("markdown"), Some(FileOutputFormat::Markdown));
    assert_eq!(FileOutputFormat::from_str("txt"), Some(FileOutputFormat::Text));
    assert_eq!(FileOutputFormat::from_str("text"), Some(FileOutputFormat::Text));
    assert_eq!(FileOutputFormat::from_str("Csv"), Some(FileOutputFormat::Csv));
    assert_eq!(FileOutputFormat::from_str("anything"), Some(FileOutputFormat::Text));
    let file = OutputFile::new("out/report.md", FileOutputFormat::Markdown);
    assert_eq!(file.path, "out/report.md");
    assert_eq!(file.format, FileOutputFormat::Markdown);
}

#[test]
fn versions_to_compare_are_the_two_greatest() {
    let available = strings(&["1.0.0", "2.0.0", "1.5.0", "latest"]);
    assert_eq!(select_versions(&available, None, None), Ok(("latest".to_string(), "2.0.0".to_string())));
    assert_eq!(select_versions(&available, Some("1.0.0"), None), Ok(("1.0.0".to_string(), "2.0.0".to_string())));
    assert_eq!(select_versions(&available, None, Some("old")), Ok(("latest".to_string(), "old".to_string())));
    assert_eq!(select_versions(&strings(&["only"]), None, None), Err(SelectError::NeedTwoVersions));
    assert_eq!(select_versions(&strings(&["only"]), Some("a"), None), Err(SelectError::NeedTwoVersions));
    assert_eq!(select_versions(&strings(&["only"]), None, Some("b")), Ok(("only".to_string(), "b".to_string())));
    assert_eq!(select_versions(&Vec::new(), Some("a"), Some("b")), Err(SelectError::NoVersions));
    // Texts are ordered character by character: 10 comes before 9.
    assert_eq!(select_versions(&strings(&["9", "10", "1"]), None, None), Ok(("9".to_string(), "10".to_string())));
}

#[test]
fn places_of_the_trees() {
    assert_eq!(default_output_parts("tool", "1.2", None, ParseOutputFormat::Json), strings(&["out", "tool", "1.2", "parsed.json"]));
    assert_eq!(default_output_parts("tool", "", None, ParseOutputFormat::ZodSchema), strings(&["out", "tool", "latest", "parsed.zod.ts"]));
    assert_eq!(default_output_parts("tool", "Unknown", None, ParseOutputFormat::JsonSchema), strings(&["out", "tool", "latest", "parsed.schema.json"]));
    assert_eq!(default_output_parts("tool", "1.2", Some("beta"), ParseOutputFormat::TypeScriptDirectory), strings(&["out", "tool", "beta", "tool"]));
    assert_eq!(tagged_output_parts("tool", "beta", ParseOutputFormat::Json), strings(&["tool", "beta", "parsed.json"]));
    assert_eq!(tagged_output_parts("tool", "beta", ParseOutputFormat::TypeScriptDirectory), strings(&["tool", "beta", "parsed."]));
    assert_eq!(version_parts("tool", "1.0", ParseOutputFormat::Json), strings(&["1.0", "parsed.json"]));
    assert_eq!(version_parts("tool", "1.0", ParseOutputFormat::TypeScriptDirectory), strings(&["1.0", "tool"]));
    assert_eq!(cached_tree_name("/usr/local/bin/tool"), "tool.json");
    assert_eq!(cached_tree_name("tool"), "tool.json");
    assert_eq!(cached_tree_name("bin/"), ".json");
}

#[test]
fn comparison_is_reported() {
    let changes = vec![
        ChangeType::CommandAdded { parent: String::new(), command: "new".to_string() },
        ChangeType::FlagRemoved { command: "run".to_string(), flag: "--x".to_string() },
    ];
    assert_eq!(
        comparison_report(&changes, "1.0", "2.0", "out/t/1.0/parsed.json", "out/t/2.0/parsed.json", false),
        "Changes found between 1.0 and 2.0:\n\n+ Added command: new\n- Removed flag: --x (command: run)\n\nSummary: 2 changes detected\n\nTip: Use a JSON diff tool for raw comparison:\n  diff <(jq . out/t/1.0/parsed.json) <(jq . out/t/2.0/parsed.json)\n"
    );
    assert_eq!(
        comparison_report(&changes[..1].to_vec(), "a", "b", "x", "y", true),
        "Changes found between a and b:\n\n+ Added command: new\n\nSummary: 1 changes detected\n\nTip: Use git diff for file-level comparison:\n  diff -r x y\n"
    );
    assert_eq!(comparison_report(&Vec::new(), "a", "b", "x", "y", true), "No differences found between a and b\n");
    assert_eq!(
        fallback_report("bad json", true, "a", "b", "x", "y"),
        "Error comparing JSON structures: bad json\nFalling back to simple file comparison...\n\nNo differences found between a and b\n"
    );
    assert_eq!(
        fallback_report("bad json", false, "a", "b", "x", "y"),
        "Error comparing JSON structures: bad json\nFalling back to simple file comparison...\n\nFiles differ between a and b\n\nTip: Use diff or a JSON tool for detailed comparison:\n  diff x y\n"
    );
}

fn tree(commands: Vec<&str>) -> CstNode {
    let node = |name: &str, commands: Vec<CstNode>| CstNode {
        name: name.to_string(),
        description: String::new(),
        version: None,
        depth: 0,
        command_path: name.to_string(),
        parent_header: String::new(),
        parent: String::new(),
        outputs: Outputs { help_page: None },
        children: Children { commands, flags: Vec::new(), usages: Vec::new(), others: Vec::new() },
    };
    let children = commands.into_iter().map(|c| node(c, Vec::new())).collect();
    node("app", children)
}

#[test]
fn comparison_fails_as_a_whole_when_a_tree_is_missing() {
    let read = |m: &str| LoadError::Read(m.to_string());
    let parse = |m: &str| LoadError::Parse(m.to_string());
    let changes = compare_json_structures(Ok(tree(vec!["a"])), Ok(tree(vec!["a", "b"]))).expect("both trees are there");
    assert_eq!(changes.len(), 1);
    assert_eq!(changes[0].format(), "+ Added command: b");
    assert!(matches!(
        compare_json_structures(Err(read("no from")), Err(read("no to"))),
        Err(CompareError::From(LoadError::Read(m))) if m == "no from"
    ));
    assert!(matches!(
        compare_json_structures(Err(parse("bad from")), Err(read("no to"))),
        Err(CompareError::To(LoadError::Read(m))) if m == "no to"
    ));
    assert!(matches!(
        compare_json_structures(Err(parse("bad from")), Err(parse("bad to"))),
        Err(CompareError::From(LoadError::Parse(m))) if m == "bad from"
    ));
    assert!(matches!(
        compare_json_structures(Ok(tree(vec![])), Err(parse("bad to"))),
        Err(CompareError::To(LoadError::Parse(m))) if m == "bad to"
    ));
    assert!(matches!(
        compare_json_structures(Err(parse("bad from")), Ok(tree(vec![]))),
        Err(CompareError::From(LoadError::Parse(m))) if m == "bad from"
    ));
}

#[test]
fn tokens_are_listed_for_tooltips() {
    let tokens = vec![
        Token {
            key: "kubectl get".to_string(),
            contents: ToolTipContents {
                title: "get".to_string(),
                component_type: "COMMAND".to_string(),
                parent: Some("kubectl".to_string()),
                parent_chain: Some(strings(&["kubectl", "root"])),
                description: "Display \"one\"\nor many".to_string(),
                alias: None,
            },
        },
        Token {
            key: "kubectl".to_string(),
            contents: ToolTipContents {
                title: "kubectl".to_string(),
                component_type: "PROGRAM".to_string(),
                parent: None,
                parent_chain: Some(Vec::new()),
                description: String::new(),
                alias: Some("k".to_string()),
            },
        },
    ];
    assert_eq!(
        write_tokens_list_ts(&tokens),
        "export enum ComponentType {\n  PROGRAM,\n  COMMAND,\n  SUBCOMMAND,\n  FLAG_SHORT,\n  FLAG_LONG,\n  ARGUMENT,\n  OTHER\n}\n\nexport const tokensList: Record<string, ToolTipContents> = {\n  \"kubectl get\": {\n    title: \"get\",\n    type: ComponentType.COMMAND,\n    parent: \"kubectl\",\n    parent_chain: [\"kubectl\", \"root\"],\n    description: \"Display \\\"one\\\"\\nor many\",\n    alias: null\n  },\n  \"kubectl\": {\n    title: \"kubectl\",\n    type: ComponentType.PROGRAM,\n    parent: null,\n    parent_chain: [],\n    description: \"\",\n    alias: \"k\"\n  },\n};\n\nexport type ToolTipContents = {\n  title: string;\n  type: ComponentType;\n  parent: string | null;\n  parent_chain: string[] | null;\n  description: string;\n  alias: string | null;\n};\n"
    );
}

#[test]
fn token_object_is_serialized_with_the_types() {
    let tokens = vec![TokenObject {
        key: "app run".to_string(),
        contents: TokenContents {
            title: None,
            component_type: "flag_long".to_string(),
            parent: None,
            parent_chain: None,
            description: "Runs \"it\"".to_string(),
            alias: Some("r".to_string()),
        },
    }, TokenObject {
        key: "app".to_string(),
        contents: TokenContents {
            title: Some("The \"app\"".to_string()),
            component_type: "Program".to_string(),
            parent: Some("none".to_string()),
            parent_chain: Some(strings(&["a"])),
            description: String::new(),
            alias: None,
        },
    }];
    let list = serialize_token_object_to_ts(&tokens);
    assert_eq!(
        list,
        "const tokensList: TokenObject = {\n  \"app run\": {\n    title: \"<missing title>\",\n    type: ComponentType.FLAG_LONG,\n    parent: null,\n    parent_chain: null,\n    description: \"Runs \\\"it\\\"\",\n    alias: \"r\"\n  },\n  \"app\": {\n    title: \"The \\\"app\\\"\",\n    type: ComponentType.PROGRAM,\n    parent: \"none\",\n    parent_chain: [\"a\"],\n    description: \"\",\n    alias: null\n  },\n};\n"
    );
    let file = write_ts_file(&tokens);
    assert!(file.starts_with("\nenum ToolTipExampleMediaType {\n  Image = \"image\",\n"));
    assert!(file.contains("type Reference = {\n  name?: string;\n  description?: string;\n  r#type: ReferenceType;\n  url: string;\n}\n"));
    assert!(file.contains("type TokenObject = {\n  [key: string]: ToolTipContents\n}\n\n\nconst tokensList: TokenObject = {\n"));
    assert!(file.ends_with(&list));
    assert_eq!(file.len(), 1001 + 2 + list.len());
    let sum: u32 = file.bytes().take(1001).map(|b| b as u32).sum();
    assert_eq!(sum, 83105);
}

#[test]
fn ports_are_searched_a_few_times() {
    assert_eq!(PREFERRED_PORT, 8899);
    assert_eq!(candidate_port(0), 8000);
    assert_eq!(candidate_port(1999), 9999);
    assert_eq!(candidate_port(2000), 8000);
    assert_eq!(candidate_port(65535), 8000 + 65535 % 2000);
    for _ in 0..50 {
        let mut search = PortSearch::new(PREFERRED_PORT);
        let mut tried = vec![PREFERRED_PORT];
        let mut steps = 0;
        loop {
            match search.next_port() {
                PortStep::Try(port) => {
                    assert!((8000..10000).contains(&port));
                    assert!(!tried.contains(&port));
                    tried.push(port);
                    steps += 1;
                    assert!(steps <= 4);
                }
                PortStep::GiveUp => break,
            }
        }
        assert_eq!(search.next_port(), PortStep::GiveUp);
    }
}

#[test]
fn versions_are_offered_newest_first() {
    let file = |name: &str, created: u64| VersionFile { filename: name.to_string(), created };
    let files = vec![
        file("tool-1.2.3.json", 10),
        file("tool-latest.json", 50),
        file("tool-1.10.0.json", 5),
        file("tool-beta.json", 70),
        file("tool-2.0.0.json", 1),
        file("tool-1.2.3.json", 99),
        file("tool-dev.json", 50),
    ];
    assert_eq!(version_order(&files), vec![4, 2, 0, 5, 3, 1, 6]);
    assert!(version_order(&Vec::new()).is_empty());
}

#[test]
fn programs_and_versions_are_labelled() {
    assert_eq!(app_label("tool", 1), "tool (1 version)");
    assert_eq!(app_label("tool", 0), "tool (0 versions)");
    assert_eq!(app_label("tool", 12), "tool (12 versions)");
    assert_eq!(version_label("tool-1.2.3.json", Some(1000), 1000 + 86400 * 3), "1.2.3 (created 3 days ago)");
    assert_eq!(version_label("tool-1.2.3.json", Some(1000), 1000), "1.2.3 (created today)");
    assert_eq!(version_label("tool.json", None, 5), "unknown (unknown date)");
    assert_eq!(app_name("my-tool-1.2.3"), "my-tool");
    assert_eq!(app_name("tool"), "tool");
    assert_eq!(app_name("-x"), "");
}

#[test]
fn backup_is_named_by_six_hexadecimal_digits() {
    assert_eq!(backup_name(0), "default_backup_000000");
    assert_eq!(backup_name(0xabcdef), "default_backup_abcdef");
    assert_eq!(backup_name(0x1234_5678_9abc_def0), "default_backup_bcdef0");
    assert_eq!(backup_name(255), "default_backup_0000ff");
    assert_eq!(backup_name(u64::MAX), "default_backup_ffffff");
}
