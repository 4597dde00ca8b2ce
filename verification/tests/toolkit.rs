use clint::cli_navigator_toolkit::{
    check_flag_in_usage_string, decimal, escape_string, extract_data_type_from_description,
    extract_default_value, extract_examples, extract_version_from_filename, format_timestamp,
    has_usage_arguments, is_key_value_mapping, parse_semver, sanitize_filename,
    sanitize_js_variable_name, to_pascal_case,
};
use clint::models::LineUsage;
use clint::tree::Children;
use clint::usage_parser::parse_usage_line;

#[test]
fn version_follows_the_last_hyphen() {
    assert_eq!(extract_version_from_filename("kubectl-1.29.0.json"), "1.29.0");
    assert_eq!(extract_version_from_filename("my-tool-2.0.json"), "2.0");
    assert_eq!(extract_version_from_filename("tool-1.0.json.json"), "1.0");
    assert_eq!(extract_version_from_filename("tool.json"), "unknown");
    assert_eq!(extract_version_from_filename("tool-"), "");
    assert_eq!(extract_version_from_filename(""), "unknown");
}

#[test]
fn semver_is_three_numbers() {
    assert_eq!(parse_semver("1.2.3"), Some((1, 2, 3)));
    assert_eq!(parse_semver("10.0.4294967295"), Some((10, 0, 4294967295)));
    assert_eq!(parse_semver("1.2.3.4"), Some((1, 2, 3)));
    assert_eq!(parse_semver("+1.+2.03"), Some((1, 2, 3)));
    assert_eq!(parse_semver("1.2"), None);
    assert_eq!(parse_semver("1.2.x"), None);
    assert_eq!(parse_semver("1..3"), None);
    assert_eq!(parse_semver("1.2.+"), None);
    assert_eq!(parse_semver("1.2.-3"), None);
    assert_eq!(parse_semver("v1.2.3"), None);
    assert_eq!(parse_semver("1.2.4294967296"), None);
    assert_eq!(parse_semver("1.2.99999999999999999999999999"), None);
    assert_eq!(parse_semver(""), None);
}

#[test]
fn timestamps_are_told_in_days() {
    assert_eq!(format_timestamp(1000, 1000), "today");
    assert_eq!(format_timestamp(1000, 1000 + 86399), "today");
    assert_eq!(format_timestamp(1000, 1000 + 86400), "yesterday");
    assert_eq!(format_timestamp(1000, 1000 + 2 * 86400 - 1), "yesterday");
    assert_eq!(format_timestamp(1000, 1000 + 2 * 86400), "2 days ago");
    assert_eq!(format_timestamp(0, 86400 * 365), "365 days ago");
    assert_eq!(format_timestamp(0, u64::MAX), "213503982334601 days ago");
}

#[test]
fn numbers_are_written_in_decimal() {
    assert_eq!(decimal(0), "0");
    assert_eq!(decimal(7), "7");
    assert_eq!(decimal(10), "10");
    assert_eq!(decimal(1234567890), "1234567890");
    assert_eq!(decimal(u64::MAX), "18446744073709551615");
}

#[test]
fn names_are_made_fit() {
    assert_eq!(sanitize_filename("my-cmd_1"), "my-cmd_1");
    assert_eq!(sanitize_filename("a b/c.d:e"), "a_b_c_d_e");
    assert_eq!(sanitize_filename("héllo"), "héllo");
    assert_eq!(sanitize_filename(""), "");
    assert_eq!(sanitize_js_variable_name("my-cmd_1"), "my_cmd_1");
    assert_eq!(sanitize_js_variable_name("a b/c"), "a_b_c");
}

#[test]
fn pascal_case_joins_capitalized_words() {
    assert_eq!(to_pascal_case("get-template"), "GetTemplate");
    assert_eq!(to_pascal_case("my_long name"), "MyLongName");
    assert_eq!(to_pascal_case("ALREADY"), "Already");
    assert_eq!(to_pascal_case("a--b"), "AB");
    assert_eq!(to_pascal_case("-x-"), "X");
    assert_eq!(to_pascal_case("ßeta"), "SSeta");
    assert_eq!(to_pascal_case(""), "");
}

#[test]
fn quotes_and_line_ends_are_escaped() {
    assert_eq!(escape_string("it's"), "it\\'s");
    assert_eq!(escape_string("a\nb\rc"), "a\\nb\\rc");
    assert_eq!(escape_string("plain"), "plain");
    assert_eq!(escape_string("''"), "\\'\\'");
}

#[test]
fn type_at_the_start_of_a_description_is_split_off() {
    let pair = |d: &str| {
        let (rest, kind) = extract_data_type_from_description(d);
        (rest, kind)
    };
    assert_eq!(pair("uint Number of servers"), ("Number of servers".to_string(), "uint".to_string()));
    assert_eq!(pair("stringArray Tags to set"), ("Tags to set".to_string(), "stringArray".to_string()));
    assert_eq!(pair("stringToString Labels"), ("Labels".to_string(), "stringToString".to_string()));
    assert_eq!(pair("string A name"), ("A name".to_string(), "string".to_string()));
    assert_eq!(pair("int "), ("".to_string(), "int".to_string()));
    assert_eq!(pair("integer value"), ("integer value".to_string(), "".to_string()));
    assert_eq!(pair("bool"), ("bool".to_string(), "".to_string()));
    assert_eq!(pair("Float value"), ("Float value".to_string(), "".to_string()));
}

#[test]
fn default_value_is_read_from_the_description() {
    assert_eq!(extract_default_value("Number of servers (default 1)").as_deref(), Some("1"));
    assert_eq!(extract_default_value("Path (default \"/tmp/x y\") to use").as_deref(), Some("\"/tmp/x y\""));
    assert_eq!(extract_default_value("Driver, default is nvidia for now").as_deref(), Some("nvidia"));
    assert_eq!(extract_default_value("The default is   spaced").as_deref(), Some("spaced"));
    assert_eq!(extract_default_value("Broken (default 1 and default is two").as_deref(), Some("two"));
    assert_eq!(extract_default_value("Ends with default is "), None);
    assert_eq!(extract_default_value("No default here"), None);
    assert_eq!(extract_default_value("(default )").as_deref(), Some(""));
}

#[test]
fn no_examples_are_read() {
    assert!(extract_examples("for example: --x 1").is_empty());
}

#[test]
fn key_value_descriptions_are_recognized() {
    assert!(is_key_value_mapping("Labels as key=value"));
    assert!(is_key_value_mapping("Key/Value labels"));
    assert!(is_key_value_mapping("key/value labels"));
    assert!(is_key_value_mapping("key:value labels"));
    assert!(is_key_value_mapping("a=b pair"));
    assert!(is_key_value_mapping("mapping of a=b"));
    assert!(!is_key_value_mapping("a=b"));
    assert!(!is_key_value_mapping("a pair"));
    assert!(!is_key_value_mapping("KEY=VALUE"));
}

#[test]
fn usage_line_says_whether_a_flag_is_required() {
    assert!(check_flag_in_usage_string("tool run <--name> [flags]", "--name", ""));
    assert!(check_flag_in_usage_string("tool run (--name)", "--name", "-n"));
    assert!(check_flag_in_usage_string("tool run (-n)", "--name", "-n"));
    assert!(check_flag_in_usage_string("tool run <-n> [--name]", "--name", "-n"));
    assert!(!check_flag_in_usage_string("tool run [--name]", "--name", "-n"));
    assert!(!check_flag_in_usage_string("tool run [-n]", "--name", "-n"));
    assert!(!check_flag_in_usage_string("tool run --name NAME [flags]", "--name", ""));
    // An empty short name makes `[]` mean optional.
    assert!(!check_flag_in_usage_string("tool run [] --name NAME", "--name", ""));
    assert!(check_flag_in_usage_string("tool export --storage-provider STORAGE-PROVIDER", "--storage-provider", ""));
    assert!(check_flag_in_usage_string("tool export --storage-provider STORAGE_PROVIDER", "--storage-provider", ""));
    assert!(check_flag_in_usage_string("tool export --destination PATH", "--destination", ""));
    assert!(check_flag_in_usage_string("tool export --model NAME", "--model", ""));
    assert!(check_flag_in_usage_string("tool export --model ID", "--model", ""));
    assert!(!check_flag_in_usage_string("tool export --model value", "--model", ""));
    assert!(!check_flag_in_usage_string("tool export", "--model", "-m"));
}

#[test]
fn upper_case_keywords_are_arguments() {
    let children = |line: &str| Children {
        commands: Vec::new(),
        flags: Vec::new(),
        usages: vec![LineUsage {
            usage_string: line.to_string(),
            parent_header: "Usage".to_string(),
            usage_components: parse_usage_line(line, "tool"),
        }],
        others: Vec::new(),
    };
    assert!(has_usage_arguments(&children("tool run STUFF_NAME [flags]")));
    assert!(!has_usage_arguments(&children("tool run FLAGS")));
    assert!(!has_usage_arguments(&children("tool run name [NAME]")));
    assert!(!has_usage_arguments(&children("tool run <NAME> --NAME Name N1")));
    assert!(!has_usage_arguments(&Children::new()));
}
