use clint::crawler::{get_program_version, CrawlStep, Crawler, Probe, ProbeKind, MAX_DEPTH};
use clint::models::ComponentType;
use clint::tree::{CstNode, HelpPage};

fn page(stdout: &str, status: i32) -> HelpPage {
    HelpPage { stdout: stdout.to_string(), stderr: String::new(), status }
}

/// Runs a crawl against a program that answers by `answer`, and gives the
/// tree with the runs that were made, in order.
fn crawl(
    base: &str,
    name: Option<&str>,
    max_depth: u16,
    answer: &dyn Fn(&str, ProbeKind) -> HelpPage,
) -> (CstNode, Vec<String>) {
    let mut crawler = Crawler::new(base, name.map(|n| n.to_string()), max_depth);
    let mut runs = Vec::new();
    loop {
        match crawler.next_step() {
            CrawlStep::Done(tree) => return (tree, runs),
            CrawlStep::Probe(probe) => {
                assert!(runs.len() < 1000, "the crawl does not come to an end");
                let line = format!("{} {}", probe.command, probe.kind.argument());
                assert!(!runs.contains(&line), "{} is run twice", line);
                runs.push(line);
                let result = answer(&probe.command, probe.kind);
                crawler = crawler.record(probe, result);
            }
        }
    }
}

const APP_HELP: &str = "App description\nUsage:\n  app [command]\nAvailable Commands:\n  serve  Start the server\nFlags:\n  -h, --help   help for app";

#[test]
fn end_to_end_tree_of_a_small_program() {
    let (tree, runs) = crawl("app", None, MAX_DEPTH, &|command, kind| match (command, kind) {
        ("app", ProbeKind::Version) => page("1.2.3", 0),
        ("app", ProbeKind::Help) => page(APP_HELP, 0),
        _ => page("", 1),
    });
    assert_eq!(runs, vec!["app version", "app --help", "app serve --help"]);
    assert_eq!(tree.name, "app");
    assert_eq!(tree.description, "App description");
    assert_eq!(tree.version.as_deref(), Some("1.2.3"));
    assert_eq!(tree.depth, 0);
    assert_eq!(tree.command_path, "app");
    assert_eq!(tree.outputs.help_page.as_ref().map(|p| p.stdout.as_str()), Some(APP_HELP));

    assert_eq!(tree.children.commands.len(), 1);
    let serve = &tree.children.commands[0];
    assert_eq!(serve.name, "serve");
    assert_eq!(serve.description, "Start the server");
    assert_eq!(serve.depth, 1);
    assert_eq!(serve.command_path, "app serve");
    assert_eq!(serve.parent, "app");
    assert_eq!(serve.parent_header, "Available Commands");
    assert!(serve.outputs.help_page.is_none());
    assert!(serve.children.commands.is_empty());

    assert_eq!(tree.children.flags.len(), 1);
    let help = &tree.children.flags[0];
    assert_eq!(help.short.as_deref(), Some("-h"));
    assert_eq!(help.long.as_deref(), Some("--help"));
    assert_eq!(help.description.as_deref(), Some("help for app"));

    assert_eq!(tree.children.usages.len(), 1);
    let usage = &tree.children.usages[0];
    assert_eq!(usage.usage_string, "app [command]");
    assert_eq!(usage.usage_components.len(), 1);
    assert_eq!(usage.usage_components[0].component_type, ComponentType::Group);
    assert_eq!(usage.usage_components[0].children.len(), 1);
    assert_eq!(usage.usage_components[0].children[0].component_type, ComponentType::Keyword);
    assert_eq!(usage.usage_components[0].children[0].name, "command");
    assert!(tree.children.others.is_empty());
}

#[test]
fn child_page_fills_the_child() {
    let (tree, runs) = crawl("app", None, MAX_DEPTH, &|command, kind| match (command, kind) {
        ("app", ProbeKind::Version) => page("v1", 0),
        ("app", ProbeKind::Help) => page("Root\nCommands:\n  serve  Start the server\n  stop  Stop it", 0),
        ("app serve", ProbeKind::Help) => {
            page("Serve pages over HTTP\nFlags:\n  -p, --port uint   Port to listen on", 0)
        }
        ("app stop", ProbeKind::Help) => page("  no description here\nFlags:\n  --now   At once", 0),
        _ => page("", 1),
    });
    assert_eq!(runs, vec!["app version", "app --help", "app serve --help", "app stop --help"]);
    let serve = &tree.children.commands[0];
    assert_eq!(serve.description, "Serve pages over HTTP");
    assert_eq!(serve.children.flags.len(), 1);
    assert_eq!(serve.children.flags[0].long.as_deref(), Some("--port"));
    assert_eq!(serve.children.flags[0].data_type, None);
    assert_eq!(serve.children.flags[0].description.as_deref(), Some("uint Port to listen on"));
    assert_eq!(
        serve.outputs.help_page.as_ref().map(|p| p.stdout.as_str()),
        Some("Serve pages over HTTP\nFlags:\n  -p, --port uint   Port to listen on")
    );
    // A page without a description leaves the description of the parent's line.
    let stop = &tree.children.commands[1];
    assert_eq!(stop.description, "Stop it");
    assert_eq!(stop.children.flags.len(), 1);
    assert!(stop.outputs.help_page.is_some());
}

#[test]
fn failed_run_cuts_off_only_its_subtree() {
    let (tree, _) = crawl("app", None, MAX_DEPTH, &|command, kind| match (command, kind) {
        ("app", ProbeKind::Version) => page("", -1),
        ("app", ProbeKind::Help) => page("Root\nCommands:\n  broken  Fails\n  fine  Works", 0),
        ("app broken", ProbeKind::Help) => page("Commands:\n  never  Seen", 2),
        ("app fine", ProbeKind::Help) => page("Fine\nCommands:\n  deep  Down", 0),
        _ => page("", 1),
    });
    assert_eq!(tree.version.as_deref(), Some("Unknown"));
    let broken = &tree.children.commands[0];
    assert_eq!(broken.name, "broken");
    assert!(broken.children.commands.is_empty());
    assert!(broken.outputs.help_page.is_none());
    let fine = &tree.children.commands[1];
    assert_eq!(fine.children.commands.len(), 1);
    assert_eq!(fine.children.commands[0].name, "deep");
    assert_eq!(fine.children.commands[0].depth, 2);
    assert_eq!(fine.children.commands[0].command_path, "app fine deep");
}

#[test]
fn root_page_is_read_whatever_its_status() {
    let (tree, _) = crawl("app", None, MAX_DEPTH, &|command, kind| match (command, kind) {
        ("app", ProbeKind::Help) => page("Root\nFlags:\n  --x   An x", 3),
        _ => page("", 1),
    });
    assert_eq!(tree.description, "Root");
    assert_eq!(tree.children.flags.len(), 1);
    assert_eq!(tree.outputs.help_page.as_ref().map(|p| p.status), Some(3));
}

#[test]
fn crawl_may_start_at_a_command() {
    let (tree, runs) = crawl("app", Some("remote"), MAX_DEPTH, &|command, kind| match (command, kind) {
        ("app", ProbeKind::Version) => page("2.0", 0),
        ("app remote", ProbeKind::Help) => page("Remotes\nUsage:\n  app remote add <name>", 0),
        _ => page("", 1),
    });
    assert_eq!(runs, vec!["app version", "app remote --help"]);
    assert_eq!(tree.name, "app remote");
    assert_eq!(tree.command_path, "app remote");
    assert_eq!(tree.version.as_deref(), Some("2.0"));
    let names: Vec<&str> =
        tree.children.usages[0].usage_components.iter().map(|c| c.name.as_str()).collect();
    assert_eq!(names, vec!["add", "<name>"]);
}

/// A program each of whose pages names the subcommand `again`.
fn endless(command: &str, kind: ProbeKind) -> HelpPage {
    match kind {
        ProbeKind::Version => page("1", 0),
        ProbeKind::Help => page(&format!("Page of {}\nCommands:\n  again  Once more", command), 0),
    }
}

#[test]
fn depth_is_capped() {
    let (tree, runs) = crawl("app", None, 2, &endless);
    assert_eq!(
        runs,
        vec!["app version", "app --help", "app again --help", "app again again --help"]
    );
    let first = &tree.children.commands[0];
    assert_eq!(first.depth, 1);
    let second = &first.children.commands[0];
    assert_eq!(second.depth, 2);
    assert_eq!(second.description, "Page of app again again");
    let third = &second.children.commands[0];
    assert_eq!(third.depth, 3);
    assert_eq!(third.command_path, "app again again again");
    assert_eq!(third.description, "Once more");
    assert!(third.children.commands.is_empty());
    assert!(third.children.flags.is_empty());
    assert!(third.outputs.help_page.is_none());
}

#[test]
fn default_depth_allows_five_levels_of_runs() {
    let (tree, runs) = crawl("app", None, MAX_DEPTH, &endless);
    // The version, the root, and one run for each of five levels.
    assert_eq!(runs.len(), 7);
    let mut node = &tree;
    let mut levels = 0;
    while !node.children.commands.is_empty() {
        node = &node.children.commands[0];
        levels += 1;
        assert_eq!(node.depth, levels);
    }
    assert_eq!(levels, 6);
}

#[test]
fn depth_zero_runs_no_subcommand() {
    let (tree, runs) = crawl("app", None, 0, &endless);
    assert_eq!(runs, vec!["app version", "app --help"]);
    assert_eq!(tree.children.commands.len(), 1);
    assert!(tree.children.commands[0].children.commands.is_empty());
}

#[test]
fn command_named_twice_is_walked_once_and_kept_as_a_leaf() {
    let (tree, runs) = crawl("app", None, MAX_DEPTH, &|command, kind| match (command, kind) {
        ("app", ProbeKind::Help) => {
            page("Root\nCommands:\n  serve  First mention\n  other  Another\n  serve  Second mention", 0)
        }
        ("app serve", ProbeKind::Help) => page("Serve\nFlags:\n  --port   Port", 0),
        ("app other", ProbeKind::Help) => page("Other", 0),
        _ => page("", 1),
    });
    assert_eq!(runs, vec!["app version", "app --help", "app serve --help", "app other --help"]);
    // One node for each name; the second mention replaced the first.
    assert_eq!(tree.children.commands.len(), 2);
    let serve = &tree.children.commands[0];
    assert_eq!(serve.name, "serve");
    assert_eq!(serve.description, "Second mention");
    assert_eq!(serve.depth, 1);
    assert_eq!(serve.command_path, "app serve");
    assert!(serve.children.flags.is_empty());
    assert!(serve.children.commands.is_empty());
    assert!(serve.outputs.help_page.is_none());
    assert_eq!(tree.children.commands[1].name, "other");
}

#[test]
fn crawling_twice_gives_the_same_tree() {
    let answer = |command: &str, kind: ProbeKind| match (command, kind) {
        ("app", ProbeKind::Version) => page("1.0", 0),
        ("app", ProbeKind::Help) => page("Root\nCommands:\n  a  An a\n  b  A b\nFlags:\n  -x, --ex   Ex", 0),
        ("app a", ProbeKind::Help) => page("A\nUsage:\n  app a <file>...\nCommands:\n  c  A c", 0),
        ("app a c", ProbeKind::Help) => page("C\nFlags:\n  --deep   Deep", 0),
        _ => page("", 1),
    };
    let (first, first_runs) = crawl("app", None, MAX_DEPTH, &answer);
    let (second, second_runs) = crawl("app", None, MAX_DEPTH, &answer);
    assert_eq!(first_runs, second_runs);
    assert_eq!(format!("{:?}", first), format!("{:?}", second));
}

#[test]
fn answers_recorded_in_another_order_give_the_same_tree() {
    let answer = |command: &str, kind: ProbeKind| match (command, kind) {
        ("app", ProbeKind::Version) => page("1.0", 0),
        ("app", ProbeKind::Help) => page("Root\nCommands:\n  a  An a\n  b  A b", 0),
        ("app a", ProbeKind::Help) => page("A\nFlags:\n  --one   One", 0),
        ("app b", ProbeKind::Help) => page("B\nFlags:\n  --two   Two", 0),
        _ => page("", 1),
    };
    let (expected, _) = crawl("app", None, MAX_DEPTH, &answer);
    let mut crawler = Crawler::new("app", None, MAX_DEPTH);
    for (command, kind) in [
        ("app b", ProbeKind::Help),
        ("app unrelated", ProbeKind::Help),
        ("app a", ProbeKind::Help),
        ("app", ProbeKind::Help),
        ("app", ProbeKind::Version),
    ] {
        let result = answer(command, kind);
        crawler = crawler.record(Probe { command: command.to_string(), kind }, result);
    }
    match crawler.next_step() {
        CrawlStep::Done(tree) => assert_eq!(format!("{:?}", tree), format!("{:?}", expected)),
        CrawlStep::Probe(probe) => panic!("nothing more is needed, but {:?} is asked", probe),
    }
}

#[test]
fn first_answer_recorded_for_a_run_stays() {
    let mut crawler = Crawler::new("app", None, MAX_DEPTH);
    crawler = crawler.record(Probe { command: "app".to_string(), kind: ProbeKind::Version }, page("1", 0));
    crawler = crawler.record(Probe { command: "app".to_string(), kind: ProbeKind::Version }, page("2", 0));
    crawler = crawler.record(Probe { command: "app".to_string(), kind: ProbeKind::Help }, page("Root", 0));
    match crawler.next_step() {
        CrawlStep::Done(tree) => assert_eq!(tree.version.as_deref(), Some("1")),
        CrawlStep::Probe(probe) => panic!("nothing more is needed, but {:?} is asked", probe),
    }
}

#[test]
fn new_crawl_asks_for_the_version_first() {
    let crawler = Crawler::new("app", None, MAX_DEPTH);
    match crawler.next_step() {
        CrawlStep::Probe(probe) => {
            assert_eq!(probe.command, "app");
            assert_eq!(probe.kind, ProbeKind::Version);
            assert_eq!(probe.kind.argument(), "version");
        }
        CrawlStep::Done(_) => panic!("a crawl without answers cannot be finished"),
    }
    assert_eq!(ProbeKind::Help.argument(), "--help");
}

#[test]
fn version_is_unknown_when_the_run_fails() {
    assert_eq!(get_program_version(&page("3.1.4", 0)), "3.1.4");
    assert_eq!(get_program_version(&page("3.1.4", 1)), "Unknown");
    assert_eq!(get_program_version(&page("", -1)), "Unknown");
    assert_eq!(get_program_version(&page("", 0)), "");
}
