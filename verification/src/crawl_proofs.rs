//! What holds of every walk: the depth allowed bounds the tree, no command
//! line is walked twice, and the tree depends on the program's answers alone.
use vstd::prelude::*;
use crate::cli_parser::{ParsedPageView, spec_parse_help_page};
use crate::crawler::{
    Answers, ProbeKind, ProbeView, Walk, child_command, help_probe, leaf_node, probed_node,
    root_command, root_walk, spec_crawl, walk_entries, walk_page, with_command,
};
use crate::models::OutputLineView;
use crate::tree::{
    ChildrenView, CstNodeView, index_of_name, lemma_index_of_name, lemma_insert_command_distinct,
    names_distinct, no_children,
};

verus! {

/// Whether the commands below a node at depth `depth`, whose path is
/// `path`, stand where they belong: each lies one deeper than its parent,
/// the path of each is that of its parent, a space and its name, each that
/// lies deeper than `cap` holds nothing, and so on below each.
pub open spec fn within_depth(children: ChildrenView, depth: nat, path: Seq<char>, cap: nat) -> bool
    decreases children,
{
    forall|k: int|
        0 <= k < children.commands.len() ==> {
            &&& (#[trigger] children.commands[k]).depth == depth + 1
            &&& children.commands[k].command_path == child_command(
                path,
                children.commands[k].name,
            )
            &&& (depth >= cap ==> children.commands[k].children == no_children())
            &&& within_depth(
                children.commands[k].children,
                depth + 1,
                children.commands[k].command_path,
                cap,
            )
        }
}

/// Whether a node may stand below a node at depth `depth` with the path
/// `path`.
pub open spec fn fits_below(node: CstNodeView, depth: nat, path: Seq<char>, cap: nat) -> bool {
    &&& node.depth == depth + 1
    &&& node.command_path == child_command(path, node.name)
    &&& (depth >= cap ==> node.children == no_children())
    &&& within_depth(node.children, depth + 1, node.command_path, cap)
}

/// Putting a node that fits among commands that respect the depth gives
/// commands that respect it.
pub proof fn lemma_with_command_within_depth(
    acc: ChildrenView,
    node: CstNodeView,
    depth: nat,
    path: Seq<char>,
    cap: nat,
)
    requires
        within_depth(acc, depth, path, cap),
        fits_below(node, depth, path, cap),
    ensures
        within_depth(with_command(acc, node), depth, path, cap),
{
    lemma_index_of_name(acc.commands, node.name, 0);
    let r = with_command(acc, node);
    assert forall|k: int| 0 <= k < r.commands.len() implies {
        &&& (#[trigger] r.commands[k]).depth == depth + 1
        &&& r.commands[k].command_path == child_command(path, r.commands[k].name)
        &&& (depth >= cap ==> r.commands[k].children == no_children())
        &&& within_depth(r.commands[k].children, depth + 1, r.commands[k].command_path, cap)
    } by {
        match index_of_name(acc.commands, node.name, 0) {
            Some(j) => {
                if k != j {
                    assert(r.commands[k] == acc.commands[k]);
                }
            },
            None => {
                if k < acc.commands.len() {
                    assert(r.commands[k] == acc.commands[k]);
                }
            },
        }
    }
}

/// What a walk through records adds respects the depth.
pub proof fn lemma_walk_entries_within_depth(
    answers: Answers,
    command: Seq<char>,
    path: Seq<char>,
    entries: Seq<OutputLineView>,
    i: int,
    depth: nat,
    cap: nat,
    acc: ChildrenView,
    visited: Seq<Seq<char>>,
)
    requires
        within_depth(acc, depth, path, cap),
    ensures
        walk_entries(answers, command, path, entries, i, depth, cap, acc, visited) matches Walk::Got(
            r,
        ) ==> within_depth(r.0, depth, path, cap),
    decreases cap - depth, 0nat, entries.len() - i,
{
    if 0 <= i < entries.len() {
        match entries[i] {
            OutputLineView::Flag(f) => {
                let next = ChildrenView { flags: acc.flags.push(f), ..acc };
                assert(within_depth(next, depth, path, cap));
                lemma_walk_entries_within_depth(
                    answers,
                    command,
                    path,
                    entries,
                    i + 1,
                    depth,
                    cap,
                    next,
                    visited,
                );
            },
            OutputLineView::Usage(u) => {
                let next = ChildrenView { usages: acc.usages.push(u), ..acc };
                assert(within_depth(next, depth, path, cap));
                lemma_walk_entries_within_depth(
                    answers,
                    command,
                    path,
                    entries,
                    i + 1,
                    depth,
                    cap,
                    next,
                    visited,
                );
            },
            OutputLineView::Other(o) => {
                let next = ChildrenView { others: acc.others.push(o), ..acc };
                assert(within_depth(next, depth, path, cap));
                lemma_walk_entries_within_depth(
                    answers,
                    command,
                    path,
                    entries,
                    i + 1,
                    depth,
                    cap,
                    next,
                    visited,
                );
            },
            OutputLineView::Command(c) => {
                let child = child_command(command, c.name);
                let child_path = child_command(path, c.name);
                let leaf = leaf_node(c, depth + 1, child_path);
                assert(within_depth(no_children(), depth + 1, child_path, cap));
                assert(fits_below(leaf, depth, path, cap));
                if visited.contains(child) || depth >= cap || (answers.contains_key(
                    help_probe(child),
                ) && answers[help_probe(child)].status != 0) {
                    lemma_with_command_within_depth(acc, leaf, depth, path, cap);
                    lemma_walk_entries_within_depth(
                        answers,
                        command,
                        path,
                        entries,
                        i + 1,
                        depth,
                        cap,
                        with_command(acc, leaf),
                        visited,
                    );
                } else if answers.contains_key(help_probe(child)) {
                    let page = spec_parse_help_page(child, answers[help_probe(child)].stdout);
                    lemma_walk_page_within_depth(
                        answers,
                        child,
                        child_path,
                        page,
                        depth + 1,
                        cap,
                        visited,
                    );
                    match walk_page(answers, child, child_path, page, depth + 1, cap, visited) {
                        Walk::Need(p) => {},
                        Walk::Got(v) => {
                            let node = probed_node(
                                leaf,
                                answers[help_probe(child)],
                                v.description,
                                v.children,
                            );
                            assert(fits_below(node, depth, path, cap));
                            lemma_with_command_within_depth(acc, node, depth, path, cap);
                            lemma_walk_entries_within_depth(
                                answers,
                                command,
                                path,
                                entries,
                                i + 1,
                                depth,
                                cap,
                                with_command(acc, node),
                                v.visited,
                            );
                        },
                    }
                }
            },
        }
    }
}

/// What the walk of a node finds below it respects the depth.
pub proof fn lemma_walk_page_within_depth(
    answers: Answers,
    command: Seq<char>,
    path: Seq<char>,
    page: ParsedPageView,
    depth: nat,
    cap: nat,
    visited: Seq<Seq<char>>,
)
    ensures
        walk_page(answers, command, path, page, depth, cap, visited) matches Walk::Got(v)
            ==> within_depth(v.children, depth, path, cap),
    decreases cap - depth, 1nat, 0nat,
{
    assert(within_depth(no_children(), depth, path, cap));
    lemma_walk_entries_within_depth(
        answers,
        command,
        path,
        page.entries,
        0,
        depth,
        cap,
        no_children(),
        visited.push(command),
    );
}

/// The depth allowed bounds the tree: whatever the program answers, in a
/// finished tree every command lies one deeper than its parent, the root at
/// depth 0, the path of every command is the path of its parent, a space
/// and its name, and every command that lies deeper than the depth allowed
/// is a leaf, without children.
pub proof fn lemma_depth_safety(
    answers: Answers,
    base_command: Seq<char>,
    command_name: Option<Seq<char>>,
    cap: nat,
)
    ensures
        spec_crawl(answers, base_command, command_name, cap) matches Walk::Got(tree) ==> {
            &&& tree.depth == 0
            &&& tree.command_path == root_command(base_command, command_name)
            &&& within_depth(tree.children, 0, tree.command_path, cap)
        },
{
    let root = root_command(base_command, command_name);
    if answers.contains_key(help_probe(root)) {
        lemma_walk_page_within_depth(
            answers,
            root,
            root,
            spec_parse_help_page(root, answers[help_probe(root)].stdout),
            0,
            cap,
            Seq::empty(),
        );
    }
}

/// Putting a node among commands of distinct names keeps the names distinct.
pub proof fn lemma_with_command_names_distinct(acc: ChildrenView, node: CstNodeView)
    requires
        names_distinct(acc),
        names_distinct(node.children),
    ensures
        names_distinct(with_command(acc, node)),
{
    lemma_index_of_name(acc.commands, node.name, 0);
    lemma_insert_command_distinct(acc.commands, node);
    let r = with_command(acc, node);
    assert forall|k: int| 0 <= k < r.commands.len() implies names_distinct(
        (#[trigger] r.commands[k]).children,
    ) by {
        match index_of_name(acc.commands, node.name, 0) {
            Some(j) => {
                if k != j {
                    assert(r.commands[k] == acc.commands[k]);
                }
            },
            None => {
                if k < acc.commands.len() {
                    assert(r.commands[k] == acc.commands[k]);
                }
            },
        }
    }
}

/// A walk through records gives no node two commands of one name.
pub proof fn lemma_walk_entries_names_distinct(
    answers: Answers,
    command: Seq<char>,
    path: Seq<char>,
    entries: Seq<OutputLineView>,
    i: int,
    depth: nat,
    cap: nat,
    acc: ChildrenView,
    visited: Seq<Seq<char>>,
)
    requires
        names_distinct(acc),
    ensures
        walk_entries(answers, command, path, entries, i, depth, cap, acc, visited) matches Walk::Got(
            r,
        ) ==> names_distinct(r.0),
    decreases cap - depth, 0nat, entries.len() - i,
{
    if 0 <= i < entries.len() {
        match entries[i] {
            OutputLineView::Flag(f) => {
                let next = ChildrenView { flags: acc.flags.push(f), ..acc };
                assert(names_distinct(next));
                lemma_walk_entries_names_distinct(
                    answers,
                    command,
                    path,
                    entries,
                    i + 1,
                    depth,
                    cap,
                    next,
                    visited,
                );
            },
            OutputLineView::Usage(u) => {
                let next = ChildrenView { usages: acc.usages.push(u), ..acc };
                assert(names_distinct(next));
                lemma_walk_entries_names_distinct(
                    answers,
                    command,
                    path,
                    entries,
                    i + 1,
                    depth,
                    cap,
                    next,
                    visited,
                );
            },
            OutputLineView::Other(o) => {
                let next = ChildrenView { others: acc.others.push(o), ..acc };
                assert(names_distinct(next));
                lemma_walk_entries_names_distinct(
                    answers,
                    command,
                    path,
                    entries,
                    i + 1,
                    depth,
                    cap,
                    next,
                    visited,
                );
            },
            OutputLineView::Command(c) => {
                let child = child_command(command, c.name);
                let child_path = child_command(path, c.name);
                let leaf = leaf_node(c, depth + 1, child_path);
                assert(names_distinct(no_children()));
                if visited.contains(child) || depth >= cap || (answers.contains_key(
                    help_probe(child),
                ) && answers[help_probe(child)].status != 0) {
                    lemma_with_command_names_distinct(acc, leaf);
                    lemma_walk_entries_names_distinct(
                        answers,
                        command,
                        path,
                        entries,
                        i + 1,
                        depth,
                        cap,
                        with_command(acc, leaf),
                        visited,
                    );
                } else if answers.contains_key(help_probe(child)) {
                    let page = spec_parse_help_page(child, answers[help_probe(child)].stdout);
                    lemma_walk_page_names_distinct(
                        answers,
                        child,
                        child_path,
                        page,
                        depth + 1,
                        cap,
                        visited,
                    );
                    match walk_page(answers, child, child_path, page, depth + 1, cap, visited) {
                        Walk::Need(p) => {},
                        Walk::Got(v) => {
                            let node = probed_node(
                                leaf,
                                answers[help_probe(child)],
                                v.description,
                                v.children,
                            );
                            lemma_with_command_names_distinct(acc, node);
                            lemma_walk_entries_names_distinct(
                                answers,
                                command,
                                path,
                                entries,
                                i + 1,
                                depth,
                                cap,
                                with_command(acc, node),
                                v.visited,
                            );
                        },
                    }
                }
            },
        }
    }
}

/// The walk of a node gives no node below it two commands of one name.
pub proof fn lemma_walk_page_names_distinct(
    answers: Answers,
    command: Seq<char>,
    path: Seq<char>,
    page: ParsedPageView,
    depth: nat,
    cap: nat,
    visited: Seq<Seq<char>>,
)
    ensures
        walk_page(answers, command, path, page, depth, cap, visited) matches Walk::Got(v)
            ==> names_distinct(v.children),
    decreases cap - depth, 1nat, 0nat,
{
    assert(names_distinct(no_children()));
    lemma_walk_entries_names_distinct(
        answers,
        command,
        path,
        page.entries,
        0,
        depth,
        cap,
        no_children(),
        visited.push(command),
    );
}

/// In a finished tree no two commands of one node have one name, whatever
/// the program answers and however often a help page names a command.
pub proof fn lemma_crawl_names_distinct(
    answers: Answers,
    base_command: Seq<char>,
    command_name: Option<Seq<char>>,
    cap: nat,
)
    ensures
        spec_crawl(answers, base_command, command_name, cap) matches Walk::Got(tree)
            ==> names_distinct(tree.children),
{
    let root = root_command(base_command, command_name);
    lemma_walk_page_names_distinct(
        answers,
        root,
        root,
        spec_parse_help_page(root, answers[help_probe(root)].stdout),
        0,
        cap,
        Seq::empty(),
    );
}

/// A subcommand whose command line was walked before is recorded as a leaf:
/// nothing is asked of the program for it, it gets no children, and the
/// walk goes on with the next record as if the line had named a command
/// without a help page.
pub proof fn lemma_repeated_command_is_leaf(
    answers: Answers,
    command: Seq<char>,
    path: Seq<char>,
    entries: Seq<OutputLineView>,
    i: int,
    depth: nat,
    cap: nat,
    acc: ChildrenView,
    visited: Seq<Seq<char>>,
)
    requires
        0 <= i < entries.len(),
        entries[i] is Command,
        visited.contains(child_command(command, entries[i]->Command_0.name)),
    ensures
        walk_entries(answers, command, path, entries, i, depth, cap, acc, visited) == walk_entries(
            answers,
            command,
            path,
            entries,
            i + 1,
            depth,
            cap,
            with_command(
                acc,
                leaf_node(
                    entries[i]->Command_0,
                    depth + 1,
                    child_command(path, entries[i]->Command_0.name),
                ),
            ),
            visited,
        ),
{
}

/// Whether `walked` goes on from `visited`: it starts with it.
pub open spec fn goes_on_from(walked: Seq<Seq<char>>, visited: Seq<Seq<char>>) -> bool {
    visited.len() <= walked.len() && walked.subrange(0, visited.len() as int) == visited
}

/// A walk through records walks no command line twice.
pub proof fn lemma_walk_entries_once(
    answers: Answers,
    command: Seq<char>,
    path: Seq<char>,
    entries: Seq<OutputLineView>,
    i: int,
    depth: nat,
    cap: nat,
    acc: ChildrenView,
    visited: Seq<Seq<char>>,
)
    requires
        visited.no_duplicates(),
    ensures
        walk_entries(answers, command, path, entries, i, depth, cap, acc, visited) matches Walk::Got(
            r,
        ) ==> r.1.no_duplicates() && goes_on_from(r.1, visited),
    decreases cap - depth, 0nat, entries.len() - i,
{
    assert(visited.subrange(0, visited.len() as int) =~= visited);
    if 0 <= i < entries.len() {
        match entries[i] {
            OutputLineView::Flag(f) => {
                lemma_walk_entries_once(
                    answers,
                    command,
                    path,
                    entries,
                    i + 1,
                    depth,
                    cap,
                    ChildrenView { flags: acc.flags.push(f), ..acc },
                    visited,
                );
            },
            OutputLineView::Usage(u) => {
                lemma_walk_entries_once(
                    answers,
                    command,
                    path,
                    entries,
                    i + 1,
                    depth,
                    cap,
                    ChildrenView { usages: acc.usages.push(u), ..acc },
                    visited,
                );
            },
            OutputLineView::Other(o) => {
                lemma_walk_entries_once(
                    answers,
                    command,
                    path,
                    entries,
                    i + 1,
                    depth,
                    cap,
                    ChildrenView { others: acc.others.push(o), ..acc },
                    visited,
                );
            },
            OutputLineView::Command(c) => {
                let child = child_command(command, c.name);
                let child_path = child_command(path, c.name);
                let leaf = leaf_node(c, depth + 1, child_path);
                if visited.contains(child) || depth >= cap || (answers.contains_key(
                    help_probe(child),
                ) && answers[help_probe(child)].status != 0) {
                    lemma_walk_entries_once(
                        answers,
                        command,
                        path,
                        entries,
                        i + 1,
                        depth,
                        cap,
                        with_command(acc, leaf),
                        visited,
                    );
                } else if answers.contains_key(help_probe(child)) {
                    let page = spec_parse_help_page(child, answers[help_probe(child)].stdout);
                    lemma_walk_page_once(answers, child, child_path, page, depth + 1, cap, visited);
                    match walk_page(answers, child, child_path, page, depth + 1, cap, visited) {
                        Walk::Need(p) => {},
                        Walk::Got(v) => {
                            let node = probed_node(
                                leaf,
                                answers[help_probe(child)],
                                v.description,
                                v.children,
                            );
                            lemma_walk_entries_once(
                                answers,
                                command,
                                path,
                                entries,
                                i + 1,
                                depth,
                                cap,
                                with_command(acc, node),
                                v.visited,
                            );
                            match walk_entries(
                                answers,
                                command,
                                path,
                                entries,
                                i + 1,
                                depth,
                                cap,
                                with_command(acc, node),
                                v.visited,
                            ) {
                                Walk::Need(p) => {},
                                Walk::Got(r) => {
                                    assert(r.1.subrange(0, visited.len() as int)
                                        =~= v.visited.subrange(0, visited.len() as int)) by {
                                        assert(r.1.subrange(0, v.visited.len() as int)
                                            == v.visited);
                                        assert forall|k: int|
                                            0 <= k < visited.len() implies r.1[k]
                                            == v.visited[k] by {
                                            assert(r.1.subrange(0, v.visited.len() as int)[k]
                                                == r.1[k]);
                                        }
                                    }
                                    assert(v.visited.subrange(0, visited.len() as int)
                                        =~= visited) by {
                                        let with_child = visited.push(child);
                                        assert(v.visited.subrange(0, with_child.len() as int)
                                            == with_child);
                                        assert forall|k: int|
                                            0 <= k < visited.len() implies v.visited[k]
                                            == visited[k] by {
                                            assert(v.visited.subrange(
                                                0,
                                                with_child.len() as int,
                                            )[k] == v.visited[k]);
                                        }
                                    }
                                },
                            }
                        },
                    }
                }
            },
        }
    }
}

/// The walk of a node whose command line was not walked before walks no
/// command line twice, and its own command line first.
pub proof fn lemma_walk_page_once(
    answers: Answers,
    command: Seq<char>,
    path: Seq<char>,
    page: ParsedPageView,
    depth: nat,
    cap: nat,
    visited: Seq<Seq<char>>,
)
    requires
        visited.no_duplicates(),
        !visited.contains(command),
    ensures
        walk_page(answers, command, path, page, depth, cap, visited) matches Walk::Got(v)
            ==> v.visited.no_duplicates() && goes_on_from(v.visited, visited.push(command)),
    decreases cap - depth, 1nat, 0nat,
{
    let started = visited.push(command);
    assert(started.no_duplicates()) by {
        assert forall|a: int, b: int| 0 <= a < started.len() && 0 <= b < started.len() && a
            != b implies started[a] != started[b] by {
            if a == visited.len() {
                assert(visited[b] == started[b]);
            } else if b == visited.len() {
                assert(visited[a] == started[a]);
            }
        }
    }
    lemma_walk_entries_once(
        answers,
        command,
        path,
        page.entries,
        0,
        depth,
        cap,
        no_children(),
        started,
    );
}

/// Cycle safety: whatever the program answers, a finished walk of the root
/// has walked no command line twice. A help page that names a command line
/// walked before starts no other walk of it.
pub proof fn lemma_cycle_safety(answers: Answers, root: Seq<char>, cap: nat)
    ensures
        root_walk(answers, root, cap) matches Walk::Got(v) ==> v.visited.no_duplicates(),
{
    lemma_walk_page_once(
        answers,
        root,
        root,
        spec_parse_help_page(root, answers[help_probe(root)].stdout),
        0,
        cap,
        Seq::empty(),
    );
}

/// A walk through records that came to its end with the answers `known`
/// comes to the same end with any answers that hold them.
pub proof fn lemma_walk_entries_extend(
    known: Answers,
    more: Answers,
    command: Seq<char>,
    path: Seq<char>,
    entries: Seq<OutputLineView>,
    i: int,
    depth: nat,
    cap: nat,
    acc: ChildrenView,
    visited: Seq<Seq<char>>,
)
    requires
        known.submap_of(more),
    ensures
        walk_entries(known, command, path, entries, i, depth, cap, acc, visited) is Got
            ==> walk_entries(more, command, path, entries, i, depth, cap, acc, visited)
            == walk_entries(known, command, path, entries, i, depth, cap, acc, visited),
    decreases cap - depth, 0nat, entries.len() - i,
{
    if 0 <= i < entries.len() {
        match entries[i] {
            OutputLineView::Flag(f) => {
                lemma_walk_entries_extend(
                    known,
                    more,
                    command,
                    path,
                    entries,
                    i + 1,
                    depth,
                    cap,
                    ChildrenView { flags: acc.flags.push(f), ..acc },
                    visited,
                );
            },
            OutputLineView::Usage(u) => {
                lemma_walk_entries_extend(
                    known,
                    more,
                    command,
                    path,
                    entries,
                    i + 1,
                    depth,
                    cap,
                    ChildrenView { usages: acc.usages.push(u), ..acc },
                    visited,
                );
            },
            OutputLineView::Other(o) => {
                lemma_walk_entries_extend(
                    known,
                    more,
                    command,
                    path,
                    entries,
                    i + 1,
                    depth,
                    cap,
                    ChildrenView { others: acc.others.push(o), ..acc },
                    visited,
                );
            },
            OutputLineView::Command(c) => {
                let child = child_command(command, c.name);
                let child_path = child_command(path, c.name);
                let leaf = leaf_node(c, depth + 1, child_path);
                if visited.contains(child) || depth >= cap {
                    lemma_walk_entries_extend(
                        known,
                        more,
                        command,
                        path,
                        entries,
                        i + 1,
                        depth,
                        cap,
                        with_command(acc, leaf),
                        visited,
                    );
                } else if known.contains_key(help_probe(child)) {
                    assert(known.dom().contains(help_probe(child)));
                    assert(more.contains_key(help_probe(child)));
                    assert(more[help_probe(child)] == known[help_probe(child)]);
                    if known[help_probe(child)].status != 0 {
                        lemma_walk_entries_extend(
                            known,
                            more,
                            command,
                            path,
                            entries,
                            i + 1,
                            depth,
                            cap,
                            with_command(acc, leaf),
                            visited,
                        );
                    } else {
                        let page = spec_parse_help_page(child, known[help_probe(child)].stdout);
                        lemma_walk_page_extend(
                            known,
                            more,
                            child,
                            child_path,
                            page,
                            depth + 1,
                            cap,
                            visited,
                        );
                        match walk_page(known, child, child_path, page, depth + 1, cap, visited) {
                            Walk::Need(p) => {},
                            Walk::Got(v) => {
                                lemma_walk_entries_extend(
                                    known,
                                    more,
                                    command,
                                    path,
                                    entries,
                                    i + 1,
                                    depth,
                                    cap,
                                    with_command(
                                        acc,
                                        probed_node(
                                            leaf,
                                            known[help_probe(child)],
                                            v.description,
                                            v.children,
                                        ),
                                    ),
                                    v.visited,
                                );
                            },
                        }
                    }
                }
            },
        }
    }
}

/// The walk of a node that came to its end with the answers `known` comes
/// to the same end with any answers that hold them.
pub proof fn lemma_walk_page_extend(
    known: Answers,
    more: Answers,
    command: Seq<char>,
    path: Seq<char>,
    page: ParsedPageView,
    depth: nat,
    cap: nat,
    visited: Seq<Seq<char>>,
)
    requires
        known.submap_of(more),
    ensures
        walk_page(known, command, path, page, depth, cap, visited) is Got ==> walk_page(
            more,
            command,
            path,
            page,
            depth,
            cap,
            visited,
        ) == walk_page(known, command, path, page, depth, cap, visited),
    decreases cap - depth, 1nat, 0nat,
{
    lemma_walk_entries_extend(
        known,
        more,
        command,
        path,
        page.entries,
        0,
        depth,
        cap,
        no_children(),
        visited.push(command),
    );
}

/// A crawl that is finished stays as it is when more answers are recorded.
pub proof fn lemma_crawl_extend(
    known: Answers,
    more: Answers,
    base_command: Seq<char>,
    command_name: Option<Seq<char>>,
    cap: nat,
)
    requires
        known.submap_of(more),
    ensures
        spec_crawl(known, base_command, command_name, cap) is Got ==> spec_crawl(
            more,
            base_command,
            command_name,
            cap,
        ) == spec_crawl(known, base_command, command_name, cap),
{
    let root = root_command(base_command, command_name);
    let version = ProbeView { command: base_command, kind: ProbeKind::Version };
    if known.contains_key(version) && known.contains_key(help_probe(root)) {
        assert(known.dom().contains(version));
        assert(known.dom().contains(help_probe(root)));
        assert(more[version] == known[version]);
        assert(more[help_probe(root)] == known[help_probe(root)]);
        lemma_walk_page_extend(
            known,
            more,
            root,
            root,
            spec_parse_help_page(root, known[help_probe(root)].stdout),
            0,
            cap,
            Seq::empty(),
        );
    }
}

/// Idempotence: two finished crawls of one program give one tree. The
/// program is what it answers to every run; each crawl has recorded some of
/// those answers, in whatever order, and the tree of each is the tree of the
/// program.
pub proof fn lemma_crawl_idempotent(
    program: Answers,
    first: Answers,
    second: Answers,
    base_command: Seq<char>,
    command_name: Option<Seq<char>>,
    cap: nat,
)
    requires
        first.submap_of(program),
        second.submap_of(program),
        spec_crawl(first, base_command, command_name, cap) is Got,
        spec_crawl(second, base_command, command_name, cap) is Got,
    ensures
        spec_crawl(first, base_command, command_name, cap) == spec_crawl(
            second,
            base_command,
            command_name,
            cap,
        ),
{
    lemma_crawl_extend(first, program, base_command, command_name, cap);
    lemma_crawl_extend(second, program, base_command, command_name, cap);
}

} // verus!
