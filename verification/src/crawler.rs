//! The walk through the help pages of a program.
//!
//! The tree of a program is a function of what the program answers when it
//! is run: with `version` once, and with `--help` for the root and for every
//! subcommand that a help page names. The library runs nothing. A
//! [`Crawler`] holds the answers known so far and says, from them alone,
//! either which run it needs next or what the finished tree is; its caller
//! makes the run and records the answer.
//!
//! Two guards bound the walk. A subcommand whose command line was walked
//! before is recorded without children and not run again, and so is one that
//! lies deeper than the depth allowed. A run that fails cuts off only the
//! subtree below it.
use vstd::prelude::*;
use crate::cli_parser::{ParsedPage, ParsedPageView, parse_help_page, spec_parse_help_page};
use crate::models::{
    ChildLine, LineCommand, LineCommandView, OutputLine, OutputLineView, option_view,
};
use crate::text::{chars_equal, copy_chars, from_chars, push_chars, push_str, to_chars};
use crate::tree::{
    Children, ChildrenView, CstNode, CstNodeView, HelpPage, HelpPageView, Outputs, copy_flag,
    copy_help_page, copy_other, copy_usage, insert_command, no_children, put_command,
};
use crate::words::{
    lemma_views_push, spec_split_whitespace, spec_trim, split_whitespace, trim, views,
};

verus! {

/// The depth below which subcommands are no longer run, unless the caller
/// sets another.
pub const MAX_DEPTH: u16 = 5;

/// What a program is run for.
#[derive(Debug, Clone, Copy, PartialEq, Eq, Structural)]
pub enum ProbeKind {
    /// Its version: the argument `version`.
    Version,
    /// A help page: the argument `--help`.
    Help,
}

/// A run of the program: a command line and the argument added to it.
#[derive(Debug)]
pub struct Probe {
    pub command: String,
    pub kind: ProbeKind,
}

/// The mathematical value of a [`Probe`].
pub struct ProbeView {
    pub command: Seq<char>,
    pub kind: ProbeKind,
}

impl View for Probe {
    type V = ProbeView;

    open spec fn view(&self) -> ProbeView {
        ProbeView { command: self.command@, kind: self.kind }
    }
}

/// The argument that a kind of run adds to the command line.
pub open spec fn spec_argument(kind: ProbeKind) -> Seq<char> {
    match kind {
        ProbeKind::Version => "version"@,
        ProbeKind::Help => "--help"@,
    }
}

impl ProbeKind {
    /// The argument that this kind of run adds to the command line.
    pub fn argument(&self) -> (r: &'static str)
        ensures
            r@ == spec_argument(*self),
    {
        match self {
            ProbeKind::Version => "version",
            ProbeKind::Help => "--help",
        }
    }
}

/// The answers known of a program: the outcome of each run made so far.
pub type Answers = Map<ProbeView, HelpPageView>;

/// How far a walk came: to a run whose answer is not known, or to its end.
pub enum Walk<T> {
    Need(ProbeView),
    Got(T),
}

/// What the walk of one node gives: what the node holds, and the command
/// lines walked so far.
pub struct Visit {
    pub description: Seq<char>,
    pub children: ChildrenView,
    pub visited: Seq<Seq<char>>,
}

/// The command line of the subcommand `name` of `command`.
pub open spec fn child_command(command: Seq<char>, name: Seq<char>) -> Seq<char> {
    command + seq![' '] + name
}

/// The node of a subcommand as its line in the parent's help page gives it:
/// without children.
pub open spec fn leaf_node(c: LineCommandView, depth: nat, path: Seq<char>) -> CstNodeView {
    CstNodeView {
        name: c.name,
        description: c.description,
        version: None,
        depth,
        command_path: path,
        parent_header: c.parent_header,
        parent: c.parent,
        help_page: None,
        children: no_children(),
    }
}

/// The node of a subcommand whose own help page was read: with what that
/// page holds, and with its description where it has one.
pub open spec fn probed_node(
    leaf: CstNodeView,
    page: HelpPageView,
    description: Seq<char>,
    children: ChildrenView,
) -> CstNodeView {
    CstNodeView {
        description: if description.len() > 0 {
            description
        } else {
            leaf.description
        },
        help_page: Some(page),
        children,
        ..leaf
    }
}

/// The children `acc` with the command `node` put among them.
pub open spec fn with_command(acc: ChildrenView, node: CstNodeView) -> ChildrenView {
    ChildrenView { commands: insert_command(acc.commands, node), ..acc }
}

/// The run that asks for the help page of `command`.
pub open spec fn help_probe(command: Seq<char>) -> ProbeView {
    ProbeView { command, kind: ProbeKind::Help }
}

/// The walk through the records of a help page from record `i` on.
///
/// `command` is the command line of the node, `path` its path, `depth` its
/// depth; `acc` is what the node holds so far and `visited` the command
/// lines walked so far. A flag, a usage line and a line of free text are
/// added as they are. A subcommand is added as a leaf where its command line
/// was walked before, where the node lies at the depth `cap`, or where its
/// own run of `--help` failed; else it is added with what the walk of its
/// own page gives. The walk stops at the first run whose answer is not known.
pub open spec fn walk_entries(
    answers: Answers,
    command: Seq<char>,
    path: Seq<char>,
    entries: Seq<OutputLineView>,
    i: int,
    depth: nat,
    cap: nat,
    acc: ChildrenView,
    visited: Seq<Seq<char>>,
) -> Walk<(ChildrenView, Seq<Seq<char>>)>
    decreases cap - depth, 0nat, entries.len() - i,
{
    if i < 0 || i >= entries.len() {
        Walk::Got((acc, visited))
    } else {
        match entries[i] {
            OutputLineView::Flag(f) => walk_entries(
                answers,
                command,
                path,
                entries,
                i + 1,
                depth,
                cap,
                ChildrenView { flags: acc.flags.push(f), ..acc },
                visited,
            ),
            OutputLineView::Usage(u) => walk_entries(
                answers,
                command,
                path,
                entries,
                i + 1,
                depth,
                cap,
                ChildrenView { usages: acc.usages.push(u), ..acc },
                visited,
            ),
            OutputLineView::Other(o) => walk_entries(
                answers,
                command,
                path,
                entries,
                i + 1,
                depth,
                cap,
                ChildrenView { others: acc.others.push(o), ..acc },
                visited,
            ),
            OutputLineView::Command(c) => {
                let child = child_command(command, c.name);
                let leaf = leaf_node(c, depth + 1, child_command(path, c.name));
                if visited.contains(child) || depth >= cap {
                    walk_entries(
                        answers,
                        command,
                        path,
                        entries,
                        i + 1,
                        depth,
                        cap,
                        with_command(acc, leaf),
                        visited,
                    )
                } else if !answers.contains_key(help_probe(child)) {
                    Walk::Need(help_probe(child))
                } else if answers[help_probe(child)].status != 0 {
                    walk_entries(
                        answers,
                        command,
                        path,
                        entries,
                        i + 1,
                        depth,
                        cap,
                        with_command(acc, leaf),
                        visited,
                    )
                } else {
                    match walk_page(
                        answers,
                        child,
                        child_command(path, c.name),
                        spec_parse_help_page(child, answers[help_probe(child)].stdout),
                        depth + 1,
                        cap,
                        visited,
                    ) {
                        Walk::Need(p) => Walk::Need(p),
                        Walk::Got(v) => walk_entries(
                            answers,
                            command,
                            path,
                            entries,
                            i + 1,
                            depth,
                            cap,
                            with_command(
                                acc,
                                probed_node(
                                    leaf,
                                    answers[help_probe(child)],
                                    v.description,
                                    v.children,
                                ),
                            ),
                            v.visited,
                        ),
                    }
                }
            },
        }
    }
}

/// The walk of the node of `command`, whose help page reads as `page`: the
/// command line counts as walked, and the records of the page are walked in
/// order.
pub open spec fn walk_page(
    answers: Answers,
    command: Seq<char>,
    path: Seq<char>,
    page: ParsedPageView,
    depth: nat,
    cap: nat,
    visited: Seq<Seq<char>>,
) -> Walk<Visit>
    decreases cap - depth, 1nat, 0nat,
{
    match walk_entries(
        answers,
        command,
        path,
        page.entries,
        0,
        depth,
        cap,
        no_children(),
        visited.push(command),
    ) {
        Walk::Need(p) => Walk::Need(p),
        Walk::Got((children, walked)) => Walk::Got(
            Visit { description: page.description, children, visited: walked },
        ),
    }
}

/// The version that a run with `version` reports: what it printed, or
/// `Unknown` where it failed.
pub open spec fn spec_program_version(result: HelpPageView) -> Seq<char> {
    if result.status == 0 {
        result.stdout
    } else {
        "Unknown"@
    }
}

/// The command line of the root: the program, and the command after it
/// where one is given.
pub open spec fn root_command(base_command: Seq<char>, command_name: Option<Seq<char>>) -> Seq<
    char,
> {
    match command_name {
        Some(name) => child_command(base_command, name),
        None => base_command,
    }
}

/// The walk of the root, whose help page the answers hold: at depth 0, with
/// no command line walked before.
pub open spec fn root_walk(answers: Answers, root: Seq<char>, cap: nat) -> Walk<Visit> {
    walk_page(
        answers,
        root,
        root,
        spec_parse_help_page(root, answers[help_probe(root)].stdout),
        0,
        cap,
        Seq::empty(),
    )
}

/// The tree of a program, as far as the answers reach.
///
/// The program is run with `version` first, then the root with `--help`.
/// The root's page is read whatever its exit status, at depth 0.
pub open spec fn spec_crawl(
    answers: Answers,
    base_command: Seq<char>,
    command_name: Option<Seq<char>>,
    cap: nat,
) -> Walk<CstNodeView> {
    let root = root_command(base_command, command_name);
    let version = ProbeView { command: base_command, kind: ProbeKind::Version };
    if !answers.contains_key(version) {
        Walk::Need(version)
    } else if !answers.contains_key(help_probe(root)) {
        Walk::Need(help_probe(root))
    } else {
        match root_walk(answers, root, cap) {
            Walk::Need(p) => Walk::Need(p),
            Walk::Got(v) => Walk::Got(
                CstNodeView {
                    name: root,
                    description: v.description,
                    version: Some(spec_program_version(answers[version])),
                    depth: 0,
                    command_path: root,
                    parent_header: Seq::empty(),
                    parent: Seq::empty(),
                    help_page: Some(answers[help_probe(root)]),
                    children: v.children,
                },
            ),
        }
    }
}

/// The version that a run with `version` reports.
pub fn get_program_version(result: &HelpPage) -> (r: String)
    ensures
        r@ == spec_program_version(result@),
{
    if result.status == 0 {
        result.stdout.clone()
    } else {
        String::from_str("Unknown")
    }
}

/// The words of the command line of a run: those of the command, which
/// white space separates, and the argument of the kind of run. The first is
/// the program to start, the others are its arguments.
pub open spec fn spec_command_words(probe: ProbeView) -> Seq<Seq<char>> {
    spec_split_whitespace(probe.command).push(spec_argument(probe.kind))
}

/// The words of the command line of a run.
pub fn command_words(probe: &Probe) -> (r: Vec<String>)
    ensures
        views(r@) == spec_command_words(probe@),
        r.len() > 0,
{
    let words = split_whitespace(&to_chars(probe.command.as_str()));
    let mut out: Vec<String> = Vec::new();
    let mut i: usize = 0;
    assert(views(out@) =~= views(words@).take(0));
    while i < words.len()
        invariant
            i <= words.len(),
            views(out@) == views(words@).take(i as int),
        decreases words.len() - i,
    {
        let word = from_chars(&words[i]);
        proof {
            lemma_views_push(out@, word);
            assert(views(words@).take(i + 1) =~= views(words@).take(i as int).push(
                words@[i as int]@,
            ));
        }
        out.push(word);
        i += 1;
    }
    assert(views(words@).take(words@.len() as int) =~= views(words@));
    let argument = String::from_str(probe.kind.argument());
    proof {
        lemma_views_push(out@, argument);
    }
    out.push(argument);
    out
}

/// The outcome of a run that ended: what it printed, without white space
/// round it, and its exit status, or -1 where it has none.
pub open spec fn spec_probe_outcome(stdout: Seq<char>, stderr: Seq<char>, code: Option<i32>) -> HelpPageView {
    HelpPageView {
        stdout: spec_trim(stdout),
        stderr: spec_trim(stderr),
        status: match code {
            Some(c) => c,
            None => -1i32,
        },
    }
}

/// The outcome of a run that ended with the output `stdout` and `stderr`
/// and the exit status `code`.
pub fn probe_outcome(stdout: &str, stderr: &str, code: Option<i32>) -> (r: HelpPage)
    ensures
        r@ == spec_probe_outcome(stdout@, stderr@, code),
{
    HelpPage {
        stdout: from_chars(&trim(&to_chars(stdout))),
        stderr: from_chars(&trim(&to_chars(stderr))),
        status: match code {
            Some(c) => c,
            None => -1,
        },
    }
}

/// The outcome of a run that could not be started: nothing printed, the
/// reason as its error output, and the status -1. A failure to start is an
/// outcome like any other.
pub open spec fn spec_probe_failure(reason: Seq<char>) -> HelpPageView {
    HelpPageView {
        stdout: Seq::empty(),
        stderr: "Error executing command: "@ + reason,
        status: -1i32,
    }
}

/// The outcome of a run that could not be started, for the reason `reason`.
pub fn probe_failure(reason: &str) -> (r: HelpPage)
    ensures
        r@ == spec_probe_failure(reason@),
{
    let mut stderr = to_chars("Error executing command: ");
    push_str(&mut stderr, reason);
    HelpPage { stdout: String::new(), stderr: from_chars(&stderr), status: -1 }
}

/// A run that was made, with its outcome and, for a help page, what the
/// page says.
struct ProbeRecord {
    probe: Probe,
    result: HelpPage,
    page: ParsedPage,
}

/// The mathematical value of a [`ProbeRecord`].
pub struct ProbeRecordView {
    pub probe: ProbeView,
    pub result: HelpPageView,
    pub page: ParsedPageView,
}

impl View for ProbeRecord {
    type V = ProbeRecordView;

    closed spec fn view(&self) -> ProbeRecordView {
        ProbeRecordView { probe: self.probe@, result: self.result@, page: self.page@ }
    }
}

/// The answers that a log of runs holds: for each run, its first outcome.
pub open spec fn answers_of(log: Seq<ProbeRecordView>) -> Answers
    decreases log.len(),
{
    if log.len() == 0 {
        Map::empty()
    } else {
        let before = answers_of(log.drop_last());
        if before.contains_key(log.last().probe) {
            before
        } else {
            before.insert(log.last().probe, log.last().result)
        }
    }
}

/// Whether each help page of the log is kept with what it says.
pub open spec fn pages_parsed(log: Seq<ProbeRecordView>) -> bool {
    forall|k: int|
        0 <= k < log.len() && (#[trigger] log[k]).probe.kind == ProbeKind::Help ==> log[k].page
            == spec_parse_help_page(log[k].probe.command, log[k].result.stdout)
}

/// A run that no record of the log is for has no answer.
proof fn lemma_answers_absent(log: Seq<ProbeRecordView>, probe: ProbeView)
    requires
        forall|j: int| 0 <= j < log.len() ==> (#[trigger] log[j]).probe != probe,
    ensures
        !answers_of(log).contains_key(probe),
    decreases log.len(),
{
    if log.len() > 0 {
        assert(log.last() == log[log.len() - 1]);
        assert forall|j: int| 0 <= j < log.drop_last().len() implies (
        #[trigger] log.drop_last()[j]).probe != probe by {
            assert(log.drop_last()[j] == log[j]);
        }
        lemma_answers_absent(log.drop_last(), probe);
    }
}

/// The answer to a run is the outcome in the first record that is for it.
proof fn lemma_answers_first(log: Seq<ProbeRecordView>, k: int)
    requires
        0 <= k < log.len(),
        forall|j: int| 0 <= j < k ==> (#[trigger] log[j]).probe != log[k].probe,
    ensures
        answers_of(log).contains_key(log[k].probe),
        answers_of(log)[log[k].probe] == log[k].result,
    decreases log.len(),
{
    let before = log.drop_last();
    if k == log.len() - 1 {
        assert forall|j: int| 0 <= j < before.len() implies (#[trigger] before[j]).probe
            != log[k].probe by {
            assert(before[j] == log[j]);
        }
        lemma_answers_absent(before, log[k].probe);
    } else {
        assert(before[k] == log[k]);
        assert forall|j: int| 0 <= j < k implies (#[trigger] before[j]).probe
            != before[k].probe by {
            assert(before[j] == log[j]);
        }
        lemma_answers_first(before, k);
    }
}

/// The index of the first record for the run of `command` for `kind`.
fn find_record(log: &Vec<ProbeRecord>, command: &Vec<char>, kind: ProbeKind) -> (r: Option<
    usize,
>)
    ensures
        match r {
            Some(k) => k < log.len() && log@[k as int]@.probe == (ProbeView {
                command: command@,
                kind,
            }) && answers_of(views(log@)).contains_key(ProbeView { command: command@, kind })
                && answers_of(views(log@))[ProbeView { command: command@, kind }]
                == log@[k as int]@.result,
            None => !answers_of(views(log@)).contains_key(ProbeView { command: command@, kind }),
        },
{
    let ghost probe = ProbeView { command: command@, kind };
    let mut i: usize = 0;
    while i < log.len()
        invariant
            i <= log.len(),
            probe == (ProbeView { command: command@, kind }),
            forall|j: int| 0 <= j < i ==> (#[trigger] views(log@)[j]).probe != probe,
        decreases log.len() - i,
    {
        let name = to_chars(log[i].probe.command.as_str());
        if log[i].probe.kind == kind && chars_equal(&name, command) {
            proof {
                assert(views(log@)[i as int].probe == probe);
                lemma_answers_first(views(log@), i as int);
            }
            return Some(i);
        }
        i += 1;
    }
    proof {
        lemma_answers_absent(views(log@), probe);
    }
    None
}

/// Whether `text` is among `walked`.
fn was_walked(walked: &Vec<Vec<char>>, text: &Vec<char>) -> (r: bool)
    ensures
        r == views(walked@).contains(text@),
{
    let mut i: usize = 0;
    while i < walked.len()
        invariant
            i <= walked.len(),
            forall|j: int| 0 <= j < i ==> views(walked@)[j] != text@,
        decreases walked.len() - i,
    {
        if chars_equal(&walked[i], text) {
            assert(views(walked@)[i as int] == text@);
            return true;
        }
        i += 1;
    }
    false
}

/// The command line of the subcommand `name` of `command`.
fn child_command_of(command: &Vec<char>, name: &str) -> (r: Vec<char>)
    ensures
        r@ == child_command(command@, name@),
{
    let mut r = copy_chars(command);
    r.push(' ');
    let n = to_chars(name);
    push_chars(&mut r, &n);
    assert(r@ =~= child_command(command@, name@));
    r
}

/// The node of a subcommand as its line in the parent's help page gives it.
fn leaf_of(c: &LineCommand, depth: usize, path: &Vec<char>) -> (r: CstNode)
    ensures
        r@ == leaf_node(c@, depth as nat, path@),
{
    CstNode {
        name: c.name.clone(),
        description: c.description.clone(),
        version: None,
        depth,
        command_path: from_chars(path),
        parent_header: c.parent_header.clone(),
        parent: c.parent.clone(),
        outputs: Outputs { help_page: None },
        children: Children::new(),
    }
}

/// How far the walk of a node came.
enum Walked {
    Need(Probe),
    Got(String, Children),
}

/// The walk of the node of `command`, whose help page reads as `page`.
fn walk(
    log: &Vec<ProbeRecord>,
    command: &Vec<char>,
    path: &Vec<char>,
    page: &ParsedPage,
    depth: usize,
    cap: u16,
    visited: &mut Vec<Vec<char>>,
) -> (r: Walked)
    requires
        pages_parsed(views(log@)),
        depth <= cap,
    ensures
        match r {
            Walked::Need(p) => walk_page(
                answers_of(views(log@)),
                command@,
                path@,
                page@,
                depth as nat,
                cap as nat,
                views(old(visited)@),
            ) == Walk::<Visit>::Need(p@),
            Walked::Got(description, children) => walk_page(
                answers_of(views(log@)),
                command@,
                path@,
                page@,
                depth as nat,
                cap as nat,
                views(old(visited)@),
            ) == Walk::Got(
                Visit {
                    description: description@,
                    children: children@,
                    visited: views(final(visited)@),
                },
            ),
        },
    decreases cap - depth,
{
    let ghost answers = answers_of(views(log@));
    let ghost entries = views(page.entries@);
    let ghost whole = walk_entries(
        answers,
        command@,
        path@,
        entries,
        0,
        depth as nat,
        cap as nat,
        no_children(),
        views(old(visited)@).push(command@),
    );
    let own = copy_chars(command);
    proof {
        lemma_views_push(visited@, own);
    }
    visited.push(own);
    let mut children = Children::new();
    let mut i: usize = 0;
    while i < page.entries.len()
        invariant
            i <= page.entries.len(),
            pages_parsed(views(log@)),
            depth <= cap,
            answers == answers_of(views(log@)),
            entries == views(page.entries@),
            walk_entries(
                answers,
                command@,
                path@,
                entries,
                i as int,
                depth as nat,
                cap as nat,
                children@,
                views(visited@),
            ) == whole,
            whole == walk_entries(
                answers,
                command@,
                path@,
                entries,
                0,
                depth as nat,
                cap as nat,
                no_children(),
                views(old(visited)@).push(command@),
            ),
        decreases page.entries.len() - i,
    {
        let ghost acc = children@;
        match &page.entries[i].line_type {
            OutputLine::Flag(f) => {
                let flag = copy_flag(f);
                proof {
                    lemma_views_push(children.flags@, flag);
                }
                children.flags.push(flag);
                assert(children@ == ChildrenView { flags: acc.flags.push(f@), ..acc });
            },
            OutputLine::Usage(u) => {
                let usage = copy_usage(u);
                proof {
                    lemma_views_push(children.usages@, usage);
                }
                children.usages.push(usage);
                assert(children@ == ChildrenView { usages: acc.usages.push(u@), ..acc });
            },
            OutputLine::Other(o) => {
                let other = copy_other(o);
                proof {
                    lemma_views_push(children.others@, other);
                }
                children.others.push(other);
                assert(children@ == ChildrenView { others: acc.others.push(o@), ..acc });
            },
            OutputLine::Command(c) => {
                let child = child_command_of(command, c.name.as_str());
                let child_path = child_command_of(path, c.name.as_str());
                let mut node = leaf_of(c, depth + 1, &child_path);
                if !was_walked(visited, &child) && depth < cap as usize {
                    match find_record(log, &child, ProbeKind::Help) {
                        None => {
                            return Walked::Need(
                                Probe { command: from_chars(&child), kind: ProbeKind::Help },
                            );
                        },
                        Some(k) => {
                            if log[k].result.status == 0 {
                                assert(views(log@)[k as int].page == spec_parse_help_page(
                                    child@,
                                    answers[help_probe(child@)].stdout,
                                ));
                                match walk(
                                    log,
                                    &child,
                                    &child_path,
                                    &log[k].page,
                                    depth + 1,
                                    cap,
                                    visited,
                                ) {
                                    Walked::Need(p) => {
                                        return Walked::Need(p);
                                    },
                                    Walked::Got(description, below) => {
                                        if description.as_str().unicode_len() > 0 {
                                            node.description = description;
                                        }
                                        node.outputs = Outputs {
                                            help_page: Some(copy_help_page(&log[k].result)),
                                        };
                                        node.children = below;
                                    },
                                }
                            }
                        },
                    }
                }
                put_command(&mut children.commands, node);
            },
        }
        i += 1;
    }
    Walked::Got(from_chars_of(&page.description), children)
}

/// A copy of a string.
fn from_chars_of(s: &String) -> (r: String)
    ensures
        r@ == s@,
{
    s.clone()
}

/// The next thing to do in a crawl: a run to make, or nothing more.
#[derive(Debug)]
pub enum CrawlStep {
    /// The program is to be run, and the outcome recorded.
    Probe(Probe),
    /// Every answer is known: this is the tree.
    Done(CstNode),
}

impl View for CrawlStep {
    type V = Walk<CstNodeView>;

    open spec fn view(&self) -> Walk<CstNodeView> {
        match self {
            CrawlStep::Probe(p) => Walk::Need(p@),
            CrawlStep::Done(tree) => Walk::Got(tree@),
        }
    }
}

/// A crawl of one program: the program, the depth allowed, and the answers
/// recorded so far.
pub struct Crawler {
    base_command: String,
    command_name: Option<String>,
    max_depth: u16,
    log: Vec<ProbeRecord>,
}

impl Crawler {
    #[verifier::type_invariant]
    spec fn well_formed(self) -> bool {
        pages_parsed(views(self.log@))
    }

    /// The program that is crawled.
    pub closed spec fn base_command(&self) -> Seq<char> {
        self.base_command@
    }

    /// The command of the program at which the crawl starts, if not at the
    /// program itself.
    pub closed spec fn command_name(&self) -> Option<Seq<char>> {
        option_view(self.command_name)
    }

    /// The depth at which subcommands are no longer run.
    pub closed spec fn max_depth(&self) -> nat {
        self.max_depth as nat
    }

    /// The answers recorded so far.
    pub closed spec fn answers(&self) -> Answers {
        answers_of(views(self.log@))
    }

    /// A crawl of `base_command`, or of its command `command_name`, in which
    /// nothing is known yet.
    pub fn new(base_command: &str, command_name: Option<String>, max_depth: u16) -> (r: Crawler)
        ensures
            r.base_command() == base_command@,
            r.command_name() == option_view(command_name),
            r.max_depth() == max_depth,
            r.answers() == Map::<ProbeView, HelpPageView>::empty(),
    {
        let log: Vec<ProbeRecord> = Vec::new();
        assert(views(log@) =~= Seq::<ProbeRecordView>::empty());
        Crawler { base_command: String::from_str(base_command), command_name, max_depth, log }
    }

    /// The crawl with the outcome of a run recorded. The first outcome
    /// recorded for a run stays: a later one for the same run changes nothing.
    pub fn record(self, probe: Probe, result: HelpPage) -> (r: Crawler)
        ensures
            r.base_command() == self.base_command(),
            r.command_name() == self.command_name(),
            r.max_depth() == self.max_depth(),
            r.answers() == if self.answers().contains_key(probe@) {
                self.answers()
            } else {
                self.answers().insert(probe@, result@)
            },
    {
        proof {
            use_type_invariant(&self);
        }
        let command = to_chars(probe.command.as_str());
        if find_record(&self.log, &command, probe.kind).is_some() {
            return self;
        }
        let page = match probe.kind {
            ProbeKind::Help => parse_help_page(probe.command.as_str(), result.stdout.as_str()),
            ProbeKind::Version => {
                let entries: Vec<ChildLine> = Vec::new();
                ParsedPage { description: String::new(), entries }
            },
        };
        let record = ProbeRecord { probe, result, page };
        let Crawler { base_command, command_name, max_depth, log } = self;
        let mut log = log;
        proof {
            lemma_views_push(log@, record);
            assert(views(log@).push(record@).drop_last() =~= views(log@));
        }
        log.push(record);
        Crawler { base_command, command_name, max_depth, log }
    }

    /// What the crawl needs next: a run whose answer is not recorded, or
    /// nothing more, and then the tree.
    pub fn next_step(&self) -> (r: CrawlStep)
        ensures
            r@ == spec_crawl(
                self.answers(),
                self.base_command(),
                self.command_name(),
                self.max_depth(),
            ),
            r matches CrawlStep::Probe(p) ==> !self.answers().contains_key(p@),
    {
        proof {
            use_type_invariant(self);
        }
        let base = to_chars(self.base_command.as_str());
        let root = match &self.command_name {
            Some(name) => child_command_of(&base, name.as_str()),
            None => copy_chars(&base),
        };
        let version = match find_record(&self.log, &base, ProbeKind::Version) {
            None => {
                return CrawlStep::Probe(
                    Probe { command: from_chars(&base), kind: ProbeKind::Version },
                );
            },
            Some(k) => get_program_version(&self.log[k].result),
        };
        let k = match find_record(&self.log, &root, ProbeKind::Help) {
            None => {
                return CrawlStep::Probe(Probe { command: from_chars(&root), kind: ProbeKind::Help });
            },
            Some(k) => k,
        };
        let mut visited: Vec<Vec<char>> = Vec::new();
        assert(views(visited@) =~= Seq::<Seq<char>>::empty());
        assert(views(self.log@)[k as int].page == spec_parse_help_page(
            root@,
            self.answers()[help_probe(root@)].stdout,
        ));
        assert(root@ == root_command(self.base_command(), self.command_name()));
        match walk(&self.log, &root, &root, &self.log[k].page, 0, self.max_depth, &mut visited) {
            Walked::Need(p) => {
                proof {
                    lemma_need_is_unanswered(
                        self.answers(),
                        root@,
                        root@,
                        self.log[k as int].page@,
                        0,
                        self.max_depth as nat,
                        Seq::empty(),
                    );
                }
                CrawlStep::Probe(p)
            },
            Walked::Got(description, children) => CrawlStep::Done(
                CstNode {
                    name: from_chars(&root),
                    description,
                    version: Some(version),
                    depth: 0,
                    command_path: from_chars(&root),
                    parent_header: String::new(),
                    parent: String::new(),
                    outputs: Outputs { help_page: Some(copy_help_page(&self.log[k].result)) },
                    children,
                },
            ),
        }
    }
}

/// A walk stops only at a run that has no answer.
pub proof fn lemma_need_is_unanswered(
    answers: Answers,
    command: Seq<char>,
    path: Seq<char>,
    page: ParsedPageView,
    depth: nat,
    cap: nat,
    visited: Seq<Seq<char>>,
)
    ensures
        walk_page(answers, command, path, page, depth, cap, visited) matches Walk::Need(p)
            ==> !answers.contains_key(p),
    decreases cap - depth, 1nat, 0nat,
{
    lemma_need_in_entries(
        answers,
        command,
        path,
        page.entries,
        0,
        depth,
        cap,
        no_children(),
        visited.push(command),
    );
}

/// A walk through records stops only at a run that has no answer.
pub proof fn lemma_need_in_entries(
    answers: Answers,
    command: Seq<char>,
    path: Seq<char>,
    entries: Seq<OutputLineView>,
    i: int,
    depth: nat,
    cap: nat,
    acc: ChildrenView,
    visited: Seq<Seq<char>>,
)
    ensures
        walk_entries(answers, command, path, entries, i, depth, cap, acc, visited) matches Walk::Need(
            p,
        ) ==> !answers.contains_key(p),
    decreases cap - depth, 0nat, entries.len() - i,
{
    if 0 <= i < entries.len() {
        match entries[i] {
            OutputLineView::Flag(f) => {
                lemma_need_in_entries(
                    answers,
                    command,
                    path,
                    entries,
                    i + 1,
                    depth,
                    cap,
                    ChildrenView { flags: acc.flags.push(f), ..acc },
                    visited,
                );
            },
            OutputLineView::Usage(u) => {
                lemma_need_in_entries(
                    answers,
                    command,
                    path,
                    entries,
                    i + 1,
                    depth,
                    cap,
                    ChildrenView { usages: acc.usages.push(u), ..acc },
                    visited,
                );
            },
            OutputLineView::Other(o) => {
                lemma_need_in_entries(
                    answers,
                    command,
                    path,
                    entries,
                    i + 1,
                    depth,
                    cap,
                    ChildrenView { others: acc.others.push(o), ..acc },
                    visited,
                );
            },
            OutputLineView::Command(c) => {
                let child = child_command(command, c.name);
                let child_path = child_command(path, c.name);
                let leaf = leaf_node(c, depth + 1, child_path);
                if visited.contains(child) || depth >= cap {
                    lemma_need_in_entries(
                        answers,
                        command,
                        path,
                        entries,
                        i + 1,
                        depth,
                        cap,
                        with_command(acc, leaf),
                        visited,
                    );
                } else if !answers.contains_key(help_probe(child)) {
                } else if answers[help_probe(child)].status != 0 {
                    lemma_need_in_entries(
                        answers,
                        command,
                        path,
                        entries,
                        i + 1,
                        depth,
                        cap,
                        with_command(acc, leaf),
                        visited,
                    );
                } else {
                    let page = spec_parse_help_page(child, answers[help_probe(child)].stdout);
                    lemma_need_is_unanswered(
                        answers,
                        child,
                        child_path,
                        page,
                        depth + 1,
                        cap,
                        visited,
                    );
                    match walk_page(answers, child, child_path, page, depth + 1, cap, visited) {
                        Walk::Need(p) => {},
                        Walk::Got(v) => {
                            lemma_need_in_entries(
                                answers,
                                command,
                                path,
                                entries,
                                i + 1,
                                depth,
                                cap,
                                with_command(
                                    acc,
                                    probed_node(
                                        leaf,
                                        answers[help_probe(child)],
                                        v.description,
                                        v.children,
                                    ),
                                ),
                                v.visited,
                            );
                        },
                    }
                }
            },
        }
    }
}

} // verus!
