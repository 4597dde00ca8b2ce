//! Why a crawl comes to an end.
//!
//! A program is what it answers to every run. The walk of a program makes
//! finitely many runs. A crawl that holds some of the program's answers and
//! is not finished asks for one of these runs, and for one that it does not
//! hold yet; so each answer recorded leaves fewer runs to ask for.
use vstd::prelude::*;
use crate::cli_parser::{ParsedPageView, spec_parse_help_page};
use crate::crawl_proofs::lemma_walk_page_extend;
use crate::crawler::{
    Answers, ProbeKind, ProbeView, Walk, child_command, help_probe, leaf_node,
    lemma_need_is_unanswered, probed_node, root_command, spec_crawl, walk_entries, walk_page,
    with_command,
};
use crate::models::OutputLineView;
use crate::words::lemma_add_contains;
use crate::tree::{ChildrenView, no_children};

verus! {

/// The runs that the walk through the records of a help page looks up,
/// from record `i` on, in the order in which it looks them up. The walk
/// looks up the help page of every subcommand that it does not record as a
/// leaf at once, and goes no further than a run that has no answer.
pub open spec fn entries_runs(
    answers: Answers,
    command: Seq<char>,
    path: Seq<char>,
    entries: Seq<OutputLineView>,
    i: int,
    depth: nat,
    cap: nat,
    visited: Seq<Seq<char>>,
) -> Seq<ProbeView>
    decreases cap - depth, 0nat, entries.len() - i,
{
    if i < 0 || i >= entries.len() {
        Seq::empty()
    } else {
        match entries[i] {
            OutputLineView::Command(c) => {
                let child = child_command(command, c.name);
                if visited.contains(child) || depth >= cap {
                    entries_runs(answers, command, path, entries, i + 1, depth, cap, visited)
                } else if !answers.contains_key(help_probe(child)) {
                    seq![help_probe(child)]
                } else if answers[help_probe(child)].status != 0 {
                    seq![help_probe(child)] + entries_runs(
                        answers,
                        command,
                        path,
                        entries,
                        i + 1,
                        depth,
                        cap,
                        visited,
                    )
                } else {
                    seq![help_probe(child)] + page_runs(
                        answers,
                        child,
                        child_command(path, c.name),
                        spec_parse_help_page(child, answers[help_probe(child)].stdout),
                        depth + 1,
                        cap,
                        visited,
                    ) + (match walk_page(
                        answers,
                        child,
                        child_command(path, c.name),
                        spec_parse_help_page(child, answers[help_probe(child)].stdout),
                        depth + 1,
                        cap,
                        visited,
                    ) {
                        Walk::Need(p) => Seq::empty(),
                        Walk::Got(v) => entries_runs(
                            answers,
                            command,
                            path,
                            entries,
                            i + 1,
                            depth,
                            cap,
                            v.visited,
                        ),
                    })
                }
            },
            _ => entries_runs(answers, command, path, entries, i + 1, depth, cap, visited),
        }
    }
}

/// The runs that the walk of the node of `command` looks up.
pub open spec fn page_runs(
    answers: Answers,
    command: Seq<char>,
    path: Seq<char>,
    page: ParsedPageView,
    depth: nat,
    cap: nat,
    visited: Seq<Seq<char>>,
) -> Seq<ProbeView>
    decreases cap - depth, 1nat, 0nat,
{
    entries_runs(answers, command, path, page.entries, 0, depth, cap, visited.push(command))
}

/// The runs that a crawl looks up: that for the version, that for the help
/// page of the root, and those of the walk of the root.
pub open spec fn crawl_runs(
    answers: Answers,
    base_command: Seq<char>,
    command_name: Option<Seq<char>>,
    cap: nat,
) -> Seq<ProbeView> {
    let root = root_command(base_command, command_name);
    let version = ProbeView { command: base_command, kind: ProbeKind::Version };
    if !answers.contains_key(version) {
        seq![version]
    } else if !answers.contains_key(help_probe(root)) {
        seq![version, help_probe(root)]
    } else {
        seq![version, help_probe(root)] + page_runs(
            answers,
            root,
            root,
            spec_parse_help_page(root, answers[help_probe(root)].stdout),
            0,
            cap,
            Seq::empty(),
        )
    }
}

/// The run at which a walk through records stops, with some of the answers
/// of a program, is one that the walk with all the answers looks up.
pub proof fn lemma_needed_run_in_entries(
    known: Answers,
    program: Answers,
    command: Seq<char>,
    path: Seq<char>,
    entries: Seq<OutputLineView>,
    i: int,
    depth: nat,
    cap: nat,
    acc: ChildrenView,
    visited: Seq<Seq<char>>,
)
    requires
        known.submap_of(program),
    ensures
        walk_entries(known, command, path, entries, i, depth, cap, acc, visited) matches Walk::Need(
            p,
        ) ==> entries_runs(program, command, path, entries, i, depth, cap, visited).contains(p),
    decreases cap - depth, 0nat, entries.len() - i,
{
    if 0 <= i < entries.len() {
        match entries[i] {
            OutputLineView::Flag(f) => {
                lemma_needed_run_in_entries(
                    known,
                    program,
                    command,
                    path,
                    entries,
                    i + 1,
                    depth,
                    cap,
                    ChildrenView { flags: acc.flags.push(f), ..acc },
                    visited,
                );
            },
            OutputLineView::Usage(u) => {
                lemma_needed_run_in_entries(
                    known,
                    program,
                    command,
                    path,
                    entries,
                    i + 1,
                    depth,
                    cap,
                    ChildrenView { usages: acc.usages.push(u), ..acc },
                    visited,
                );
            },
            OutputLineView::Other(o) => {
                lemma_needed_run_in_entries(
                    known,
                    program,
                    command,
                    path,
                    entries,
                    i + 1,
                    depth,
                    cap,
                    ChildrenView { others: acc.others.push(o), ..acc },
                    visited,
                );
            },
            OutputLineView::Command(c) => {
                let child = child_command(command, c.name);
                let child_path = child_command(path, c.name);
                let leaf = leaf_node(c, depth + 1, child_path);
                let probe = help_probe(child);
                if visited.contains(child) || depth >= cap {
                    lemma_needed_run_in_entries(
                        known,
                        program,
                        command,
                        path,
                        entries,
                        i + 1,
                        depth,
                        cap,
                        with_command(acc, leaf),
                        visited,
                    );
                } else if !known.contains_key(probe) {
                    let runs = entries_runs(
                        program,
                        command,
                        path,
                        entries,
                        i,
                        depth,
                        cap,
                        visited,
                    );
                    assert(runs[0] == probe);
                } else {
                    assert(known.dom().contains(probe));
                    assert(program.contains_key(probe));
                    assert(program[probe] == known[probe]);
                    let first = seq![probe];
                    if known[probe].status != 0 {
                        let rest = entries_runs(
                            program,
                            command,
                            path,
                            entries,
                            i + 1,
                            depth,
                            cap,
                            visited,
                        );
                        lemma_needed_run_in_entries(
                            known,
                            program,
                            command,
                            path,
                            entries,
                            i + 1,
                            depth,
                            cap,
                            with_command(acc, leaf),
                            visited,
                        );
                        match walk_entries(
                            known,
                            command,
                            path,
                            entries,
                            i,
                            depth,
                            cap,
                            acc,
                            visited,
                        ) {
                            Walk::Need(p) => {
                                lemma_add_contains(first, rest, p);
                            },
                            Walk::Got(r) => {},
                        }
                    } else {
                        let page = spec_parse_help_page(child, known[probe].stdout);
                        let below = page_runs(
                            program,
                            child,
                            child_path,
                            page,
                            depth + 1,
                            cap,
                            visited,
                        );
                        lemma_needed_run_in_page(
                            known,
                            program,
                            child,
                            child_path,
                            page,
                            depth + 1,
                            cap,
                            visited,
                        );
                        lemma_walk_page_extend(
                            known,
                            program,
                            child,
                            child_path,
                            page,
                            depth + 1,
                            cap,
                            visited,
                        );
                        match walk_page(known, child, child_path, page, depth + 1, cap, visited) {
                            Walk::Need(p) => {
                                let after = match walk_page(
                                    program,
                                    child,
                                    child_path,
                                    page,
                                    depth + 1,
                                    cap,
                                    visited,
                                ) {
                                    Walk::Need(q) => Seq::empty(),
                                    Walk::Got(v) => entries_runs(
                                        program,
                                        command,
                                        path,
                                        entries,
                                        i + 1,
                                        depth,
                                        cap,
                                        v.visited,
                                    ),
                                };
                                lemma_add_contains(first, below, p);
                                lemma_add_contains(first + below, after, p);
                            },
                            Walk::Got(v) => {
                                let node = probed_node(
                                    leaf,
                                    known[probe],
                                    v.description,
                                    v.children,
                                );
                                let rest = entries_runs(
                                    program,
                                    command,
                                    path,
                                    entries,
                                    i + 1,
                                    depth,
                                    cap,
                                    v.visited,
                                );
                                lemma_needed_run_in_entries(
                                    known,
                                    program,
                                    command,
                                    path,
                                    entries,
                                    i + 1,
                                    depth,
                                    cap,
                                    with_command(acc, node),
                                    v.visited,
                                );
                                match walk_entries(
                                    known,
                                    command,
                                    path,
                                    entries,
                                    i,
                                    depth,
                                    cap,
                                    acc,
                                    visited,
                                ) {
                                    Walk::Need(p) => {
                                        lemma_add_contains(first + below, rest, p);
                                    },
                                    Walk::Got(r) => {},
                                }
                            },
                        }
                    }
                }
            },
        }
    }
}

/// The run at which the walk of a node stops, with some of the answers of
/// a program, is one that the walk with all the answers looks up.
pub proof fn lemma_needed_run_in_page(
    known: Answers,
    program: Answers,
    command: Seq<char>,
    path: Seq<char>,
    page: ParsedPageView,
    depth: nat,
    cap: nat,
    visited: Seq<Seq<char>>,
)
    requires
        known.submap_of(program),
    ensures
        walk_page(known, command, path, page, depth, cap, visited) matches Walk::Need(p)
            ==> page_runs(program, command, path, page, depth, cap, visited).contains(p),
    decreases cap - depth, 1nat, 0nat,
{
    lemma_needed_run_in_entries(
        known,
        program,
        command,
        path,
        page.entries,
        0,
        depth,
        cap,
        no_children(),
        visited.push(command),
    );
}

/// Progress: the run that an unfinished crawl asks for is one of the runs
/// that the walk of the program makes, and one whose answer the crawl does
/// not hold.
pub proof fn lemma_crawl_asks_for_a_run_of_the_program(
    known: Answers,
    program: Answers,
    base_command: Seq<char>,
    command_name: Option<Seq<char>>,
    cap: nat,
)
    requires
        known.submap_of(program),
        forall|p: ProbeView| program.contains_key(p),
    ensures
        spec_crawl(known, base_command, command_name, cap) matches Walk::Need(p) ==> crawl_runs(
            program,
            base_command,
            command_name,
            cap,
        ).contains(p) && !known.contains_key(p),
{
    let root = root_command(base_command, command_name);
    let version = ProbeView { command: base_command, kind: ProbeKind::Version };
    let runs = crawl_runs(program, base_command, command_name, cap);
    let first = seq![version, help_probe(root)];
    let page = spec_parse_help_page(root, program[help_probe(root)].stdout);
    let below = page_runs(program, root, root, page, 0, cap, Seq::empty());
    assert(program.contains_key(version));
    assert(program.contains_key(help_probe(root)));
    assert(runs == first + below);
    if !known.contains_key(version) {
        assert(first[0] == version);
        lemma_add_contains(first, below, version);
    } else if !known.contains_key(help_probe(root)) {
        assert(first[1] == help_probe(root));
        lemma_add_contains(first, below, help_probe(root));
    } else {
        assert(known.dom().contains(help_probe(root)));
        assert(program[help_probe(root)] == known[help_probe(root)]);
        lemma_needed_run_in_page(known, program, root, root, page, 0, cap, Seq::empty());
        lemma_need_is_unanswered(known, root, root, page, 0, cap, Seq::empty());
        match spec_crawl(known, base_command, command_name, cap) {
            Walk::Need(p) => {
                lemma_add_contains(first, below, p);
            },
            Walk::Got(tree) => {},
        }
    }
}

/// The runs of the walk of a program whose answers a crawl does not hold.
pub open spec fn runs_left(
    known: Answers,
    program: Answers,
    base_command: Seq<char>,
    command_name: Option<Seq<char>>,
    cap: nat,
) -> Set<ProbeView> {
    crawl_runs(program, base_command, command_name, cap).to_set().difference(known.dom())
}

/// Termination: once the answer to the run that a crawl asks for is
/// recorded, fewer runs of the walk of the program are left to ask for. The
/// walk of a program makes finitely many runs, so a crawl asks for no more
/// runs than that, and then is finished.
pub proof fn lemma_crawl_comes_to_an_end(
    known: Answers,
    program: Answers,
    base_command: Seq<char>,
    command_name: Option<Seq<char>>,
    cap: nat,
)
    requires
        known.submap_of(program),
        forall|p: ProbeView| program.contains_key(p),
    ensures
        runs_left(known, program, base_command, command_name, cap).finite(),
        spec_crawl(known, base_command, command_name, cap) matches Walk::Need(p) ==> {
            &&& known.insert(p, program[p]).submap_of(program)
            &&& runs_left(
                known.insert(p, program[p]),
                program,
                base_command,
                command_name,
                cap,
            ).len() < runs_left(known, program, base_command, command_name, cap).len()
        },
{
    lemma_crawl_asks_for_a_run_of_the_program(known, program, base_command, command_name, cap);
    let runs = crawl_runs(program, base_command, command_name, cap);
    let left = runs_left(known, program, base_command, command_name, cap);
    vstd::seq_lib::seq_to_set_is_finite(runs);
    assert(left.finite());
    match spec_crawl(known, base_command, command_name, cap) {
        Walk::Need(p) => {
            let more = known.insert(p, program[p]);
            let left_after = runs_left(more, program, base_command, command_name, cap);
            assert(more.submap_of(program)) by {
                assert forall|k: ProbeView| #[trigger] more.dom().contains(k) implies program.dom().contains(
                    k,
                ) && more[k] == program[k] by {
                    if k != p {
                        assert(known.dom().contains(k));
                    }
                }
            }
            assert(left.contains(p));
            assert(left_after =~= left.remove(p));
        },
        Walk::Got(tree) => {},
    }
}

} // verus!
