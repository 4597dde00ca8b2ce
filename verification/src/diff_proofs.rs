//! The symmetry of the structural difference: comparing two trees the other
//! way round reports the same changes, each turned round.
use vstd::prelude::*;
use crate::comparison::{
    ChangeView, FlagFactsView, command_path, commands_added, commands_changed, commands_removed,
    compare_facts, facts_of_flags, flag_with_signature, flags_added, flags_changed, flags_removed,
    has_command, last_with_signature, pair_changes, spec_compare_commands, spec_compare_flags,
    spec_compare_structures, stands_for_signature,
};
use crate::words::{lemma_add_contains, lemma_push_contains};
use crate::tree::{ChildrenView, CstNodeView, index_of_name, lemma_index_of_name, names_distinct};

verus! {

/// A change turned round: what was added is removed, and the old and the
/// new value change places.
pub open spec fn mirror(change: ChangeView) -> ChangeView {
    match change {
        ChangeView::CommandAdded { parent, command } => ChangeView::CommandRemoved {
            parent,
            command,
        },
        ChangeView::CommandRemoved { parent, command } => ChangeView::CommandAdded {
            parent,
            command,
        },
        ChangeView::FlagAdded { command, flag } => ChangeView::FlagRemoved { command, flag },
        ChangeView::FlagRemoved { command, flag } => ChangeView::FlagAdded { command, flag },
        ChangeView::FlagDescriptionChanged {
            command,
            flag,
            old_desc,
            new_desc,
        } => ChangeView::FlagDescriptionChanged {
            command,
            flag,
            old_desc: new_desc,
            new_desc: old_desc,
        },
        ChangeView::FlagDataTypeChanged {
            command,
            flag,
            old_type,
            new_type,
        } => ChangeView::FlagDataTypeChanged {
            command,
            flag,
            old_type: new_type,
            new_type: old_type,
        },
    }
}

/// Turning a change round twice gives the change.
pub proof fn lemma_mirror_twice(change: ChangeView)
    ensures
        mirror(mirror(change)) == change,
{
}

/// A command reported as added is reported as removed the other way round.
proof fn lemma_commands_added_mirror(
    from: Seq<CstNodeView>,
    to: Seq<CstNodeView>,
    parent: Seq<char>,
    n: int,
    c: ChangeView,
)
    requires
        commands_added(from, to, parent, n).contains(c),
    ensures
        commands_removed(to, from, parent, n).contains(mirror(c)),
    decreases n,
{
    if 0 < n <= to.len() {
        if has_command(from, to[n - 1].name) {
            lemma_commands_added_mirror(from, to, parent, n - 1, c);
        } else {
            let last = ChangeView::CommandAdded { parent, command: to[n - 1].name };
            lemma_push_contains(commands_added(from, to, parent, n - 1), last, c);
            lemma_push_contains(commands_removed(to, from, parent, n - 1), mirror(last), mirror(c));
            if c != last {
                lemma_commands_added_mirror(from, to, parent, n - 1, c);
            }
        }
    }
}

/// A command reported as removed is reported as added the other way round.
proof fn lemma_commands_removed_mirror(
    from: Seq<CstNodeView>,
    to: Seq<CstNodeView>,
    parent: Seq<char>,
    n: int,
    c: ChangeView,
)
    requires
        commands_removed(from, to, parent, n).contains(c),
    ensures
        commands_added(to, from, parent, n).contains(mirror(c)),
    decreases n,
{
    if 0 < n <= from.len() {
        if has_command(to, from[n - 1].name) {
            lemma_commands_removed_mirror(from, to, parent, n - 1, c);
        } else {
            let last = ChangeView::CommandRemoved { parent, command: from[n - 1].name };
            lemma_push_contains(commands_removed(from, to, parent, n - 1), last, c);
            lemma_push_contains(commands_added(to, from, parent, n - 1), mirror(last), mirror(c));
            if c != last {
                lemma_commands_removed_mirror(from, to, parent, n - 1, c);
            }
        }
    }
}

/// A flag reported as added is reported as removed the other way round.
proof fn lemma_flags_added_mirror(
    from: Seq<FlagFactsView>,
    to: Seq<FlagFactsView>,
    command: Seq<char>,
    n: int,
    c: ChangeView,
)
    requires
        flags_added(from, to, command, n).contains(c),
    ensures
        flags_removed(to, from, command, n).contains(mirror(c)),
    decreases n,
{
    if 0 < n <= to.len() {
        if stands_for_signature(to, n - 1) && flag_with_signature(
            from,
            to[n - 1].signature,
        ) is None {
            let last = ChangeView::FlagAdded { command, flag: to[n - 1].display };
            lemma_push_contains(flags_added(from, to, command, n - 1), last, c);
            lemma_push_contains(flags_removed(to, from, command, n - 1), mirror(last), mirror(c));
            if c != last {
                lemma_flags_added_mirror(from, to, command, n - 1, c);
            }
        } else {
            lemma_flags_added_mirror(from, to, command, n - 1, c);
        }
    }
}

/// A flag reported as removed is reported as added the other way round.
proof fn lemma_flags_removed_mirror(
    from: Seq<FlagFactsView>,
    to: Seq<FlagFactsView>,
    command: Seq<char>,
    n: int,
    c: ChangeView,
)
    requires
        flags_removed(from, to, command, n).contains(c),
    ensures
        flags_added(to, from, command, n).contains(mirror(c)),
    decreases n,
{
    if 0 < n <= from.len() {
        if stands_for_signature(from, n - 1) && flag_with_signature(
            to,
            from[n - 1].signature,
        ) is None {
            let last = ChangeView::FlagRemoved { command, flag: from[n - 1].display };
            lemma_push_contains(flags_removed(from, to, command, n - 1), last, c);
            lemma_push_contains(flags_added(to, from, command, n - 1), mirror(last), mirror(c));
            if c != last {
                lemma_flags_removed_mirror(from, to, command, n - 1, c);
            }
        } else {
            lemma_flags_removed_mirror(from, to, command, n - 1, c);
        }
    }
}

/// Whether two flags of one signature differ in what a comparison reports.
pub open spec fn flags_differ(a: FlagFactsView, b: FlagFactsView) -> bool {
    a.description != b.description || a.data_type != b.data_type
}

/// Whether every flag of `from` that differs from the flag of `to` with its
/// signature is shown as that flag is.
pub open spec fn flags_shown_alike(from: Seq<FlagFactsView>, to: Seq<FlagFactsView>) -> bool {
    forall|i: int|
        0 <= i < from.len() && #[trigger] stands_for_signature(from, i) ==> (match flag_with_signature(
            to,
            from[i].signature,
        ) {
            Some(j) => flags_differ(from[i], to[j]) ==> from[i].display == to[j].display,
            None => true,
        })
}

/// A change between two flags that are shown alike is the change between
/// them the other way round, turned round.
proof fn lemma_pair_mirror(a: FlagFactsView, b: FlagFactsView, command: Seq<char>, c: ChangeView)
    requires
        pair_changes(a, b, command).contains(c),
        a.display == b.display,
    ensures
        pair_changes(b, a, command).contains(mirror(c)),
{
    let description = ChangeView::FlagDescriptionChanged {
        command,
        flag: a.display,
        old_desc: a.description,
        new_desc: b.description,
    };
    let data_type = ChangeView::FlagDataTypeChanged {
        command,
        flag: a.display,
        old_type: a.data_type,
        new_type: b.data_type,
    };
    let first = if a.description != b.description {
        seq![description]
    } else {
        Seq::empty()
    };
    let second = if a.data_type != b.data_type {
        seq![data_type]
    } else {
        Seq::empty()
    };
    let first_back = if b.description != a.description {
        seq![mirror(description)]
    } else {
        Seq::empty()
    };
    let second_back = if b.data_type != a.data_type {
        seq![mirror(data_type)]
    } else {
        Seq::empty()
    };
    assert(pair_changes(a, b, command) == first + second);
    assert(pair_changes(b, a, command) == first_back + second_back);
    lemma_add_contains(first, second, c);
    lemma_add_contains(first_back, second_back, mirror(c));
    if first.contains(c) {
        assert(first[0] == c);
        assert(first_back[0] == mirror(c));
    } else {
        assert(second[0] == c);
        assert(second_back[0] == mirror(c));
    }
}

/// Two flags between which a change is reported differ.
proof fn lemma_pair_differs(a: FlagFactsView, b: FlagFactsView, command: Seq<char>, c: ChangeView)
    requires
        pair_changes(a, b, command).contains(c),
    ensures
        flags_differ(a, b),
{
    if !flags_differ(a, b) {
        assert(pair_changes(a, b, command) =~= Seq::<ChangeView>::empty());
    }
}

/// What `last_with_signature` finds has the signature, and no later flag
/// among the first `n` has it; it finds nothing only where none has it.
pub proof fn lemma_last_with_signature(flags: Seq<FlagFactsView>, signature: Seq<char>, n: int)
    requires
        0 <= n <= flags.len(),
    ensures
        match last_with_signature(flags, signature, n) {
            Some(k) => 0 <= k < n && flags[k].signature == signature && forall|j: int|
                k < j < n ==> (#[trigger] flags[j]).signature != signature,
            None => forall|j: int|
                0 <= j < n ==> (#[trigger] flags[j]).signature != signature,
        },
    decreases n,
{
    if n > 0 && flags[n - 1].signature != signature {
        lemma_last_with_signature(flags, signature, n - 1);
    }
}

/// The changes of the first flags are among the changes of more flags.
proof fn lemma_flags_changed_grows(
    from: Seq<FlagFactsView>,
    to: Seq<FlagFactsView>,
    command: Seq<char>,
    m: int,
    n: int,
    c: ChangeView,
)
    requires
        0 <= m <= n <= from.len(),
        flags_changed(from, to, command, m).contains(c),
    ensures
        flags_changed(from, to, command, n).contains(c),
    decreases n - m,
{
    if m < n {
        lemma_flags_changed_grows(from, to, command, m, n - 1, c);
        if stands_for_signature(from, n - 1) {
            match flag_with_signature(to, from[n - 1].signature) {
                Some(j) => {
                    lemma_add_contains(
                        flags_changed(from, to, command, n - 1),
                        pair_changes(from[n - 1], to[j], command),
                        c,
                    );
                },
                None => {},
            }
        }
    }
}

/// A change of a flag is reported, turned round, the other way round.
proof fn lemma_flags_changed_mirror(
    from: Seq<FlagFactsView>,
    to: Seq<FlagFactsView>,
    command: Seq<char>,
    n: int,
    c: ChangeView,
)
    requires
        0 <= n <= from.len(),
        flags_changed(from, to, command, n).contains(c),
        flags_shown_alike(from, to),
    ensures
        flags_changed(to, from, command, to.len() as int).contains(mirror(c)),
    decreases n,
{
    if n > 0 {
        let i = n - 1;
        let before = flags_changed(from, to, command, n - 1);
        if stands_for_signature(from, i) && flag_with_signature(
            to,
            from[i].signature,
        ) is Some {
            let signature = from[i].signature;
            let j = flag_with_signature(to, signature)->0;
            let pair = pair_changes(from[i], to[j], command);
            lemma_add_contains(before, pair, c);
            if pair.contains(c) {
                lemma_last_with_signature(to, signature, to.len() as int);
                lemma_last_with_signature(from, signature, from.len() as int);
                lemma_pair_differs(from[i], to[j], command, c);
                lemma_pair_mirror(from[i], to[j], command, c);
                assert(stands_for_signature(to, j));
                assert(flag_with_signature(from, to[j].signature) == Some(i));
                lemma_add_contains(
                    flags_changed(to, from, command, j),
                    pair_changes(to[j], from[i], command),
                    mirror(c),
                );
                assert(flags_changed(to, from, command, j + 1).contains(mirror(c)));
                lemma_flags_changed_grows(to, from, command, j + 1, to.len() as int, mirror(c));
            } else {
                lemma_flags_changed_mirror(from, to, command, n - 1, c);
            }
        } else {
            lemma_flags_changed_mirror(from, to, command, n - 1, c);
        }
    }
}

/// A change between the flags of a command is reported, turned round, the
/// other way round.
pub proof fn lemma_compare_flags_mirror(
    from: Seq<FlagFactsView>,
    to: Seq<FlagFactsView>,
    command: Seq<char>,
    c: ChangeView,
)
    requires
        compare_facts(from, to, command).contains(c),
        flags_shown_alike(from, to),
    ensures
        compare_facts(to, from, command).contains(mirror(c)),
{
    let added = flags_added(from, to, command, to.len() as int);
    let removed = flags_removed(from, to, command, from.len() as int);
    let changed = flags_changed(from, to, command, from.len() as int);
    let added_back = flags_added(to, from, command, from.len() as int);
    let removed_back = flags_removed(to, from, command, to.len() as int);
    let changed_back = flags_changed(to, from, command, to.len() as int);
    lemma_add_contains(added + removed, changed, c);
    lemma_add_contains(added, removed, c);
    lemma_add_contains(added_back + removed_back, changed_back, mirror(c));
    lemma_add_contains(added_back, removed_back, mirror(c));
    if added.contains(c) {
        lemma_flags_added_mirror(from, to, command, to.len() as int, c);
    } else if removed.contains(c) {
        lemma_flags_removed_mirror(from, to, command, from.len() as int, c);
    } else {
        lemma_flags_changed_mirror(from, to, command, from.len() as int, c);
    }
}

/// Whether, in every command that both `from` and `to` have, at every level,
/// the flags of `from` are shown as those of `to` where they differ.
pub open spec fn shown_alike(from: ChildrenView, to: ChildrenView) -> bool
    decreases from,
{
    forall|i: int|
        0 <= i < from.commands.len() ==> (match index_of_name(
            to.commands,
            (#[trigger] from.commands[i]).name,
            0,
        ) {
            Some(j) => flags_shown_alike(
                facts_of_flags(from.commands[i].children.flags),
                facts_of_flags(to.commands[j].children.flags),
            ) && shown_alike(from.commands[i].children, to.commands[j].children),
            None => true,
        })
}

/// The changes below the first commands are among the changes below more
/// commands.
proof fn lemma_commands_changed_grows(
    from: ChildrenView,
    to: ChildrenView,
    parent: Seq<char>,
    m: int,
    n: int,
    c: ChangeView,
)
    requires
        0 <= m <= n <= from.commands.len(),
        commands_changed(from, to, parent, m).contains(c),
    ensures
        commands_changed(from, to, parent, n).contains(c),
    decreases n - m,
{
    if m < n {
        lemma_commands_changed_grows(from, to, parent, m, n - 1, c);
        match index_of_name(to.commands, from.commands[n - 1].name, 0) {
            Some(j) => {
                let path = command_path(parent, from.commands[n - 1].name);
                let flags = spec_compare_flags(
                    from.commands[n - 1].children.flags,
                    to.commands[j].children.flags,
                    path,
                );
                let below = spec_compare_commands(
                    from.commands[n - 1].children,
                    to.commands[j].children,
                    path,
                );
                lemma_add_contains(commands_changed(from, to, parent, n - 1) + flags, below, c);
                lemma_add_contains(commands_changed(from, to, parent, n - 1), flags, c);
            },
            None => {},
        }
    }
}

/// A change below a command that both nodes have is reported, turned
/// round, the other way round.
proof fn lemma_commands_changed_mirror(
    from: ChildrenView,
    to: ChildrenView,
    parent: Seq<char>,
    n: int,
    c: ChangeView,
)
    requires
        0 <= n <= from.commands.len(),
        names_distinct(from),
        names_distinct(to),
        shown_alike(from, to),
        commands_changed(from, to, parent, n).contains(c),
    ensures
        commands_changed(to, from, parent, to.commands.len() as int).contains(mirror(c)),
    decreases from, n,
{
    if n > 0 {
        let i = n - 1;
        let before = commands_changed(from, to, parent, n - 1);
        match index_of_name(to.commands, from.commands[i].name, 0) {
            Some(j) => {
                let path = command_path(parent, from.commands[i].name);
                let flags = spec_compare_flags(
                    from.commands[i].children.flags,
                    to.commands[j].children.flags,
                    path,
                );
                let below = spec_compare_commands(
                    from.commands[i].children,
                    to.commands[j].children,
                    path,
                );
                lemma_add_contains(before + flags, below, c);
                lemma_add_contains(before, flags, c);
                if before.contains(c) {
                    lemma_commands_changed_mirror(from, to, parent, n - 1, c);
                } else {
                    lemma_index_of_name(to.commands, from.commands[i].name, 0);
                    lemma_index_of_name(from.commands, to.commands[j].name, 0);
                    assert(index_of_name(from.commands, to.commands[j].name, 0) == Some(i)) by {
                        let k = index_of_name(from.commands, to.commands[j].name, 0);
                        if k is Some && k->0 != i {
                            let k0 = k->0;
                            if k0 < i {
                                assert(from.commands[k0].name != from.commands[i].name);
                            } else {
                                assert(from.commands[i].name != from.commands[k0].name);
                            }
                        }
                    }
                    let flags_back = spec_compare_flags(
                        to.commands[j].children.flags,
                        from.commands[i].children.flags,
                        path,
                    );
                    let below_back = spec_compare_commands(
                        to.commands[j].children,
                        from.commands[i].children,
                        path,
                    );
                    let before_back = commands_changed(to, from, parent, j);
                    assert(shown_alike(from.commands[i].children, to.commands[j].children));
                    assert(names_distinct(from.commands[i].children));
                    assert(names_distinct(to.commands[j].children));
                    if flags.contains(c) {
                        lemma_compare_flags_mirror(
                            facts_of_flags(from.commands[i].children.flags),
                            facts_of_flags(to.commands[j].children.flags),
                            path,
                            c,
                        );
                    } else {
                        lemma_compare_commands_mirror(
                            from.commands[i].children,
                            to.commands[j].children,
                            path,
                            c,
                        );
                    }
                    lemma_add_contains(before_back + flags_back, below_back, mirror(c));
                    lemma_add_contains(before_back, flags_back, mirror(c));
                    assert(commands_changed(to, from, parent, j + 1).contains(mirror(c)));
                    lemma_commands_changed_grows(
                        to,
                        from,
                        parent,
                        j + 1,
                        to.commands.len() as int,
                        mirror(c),
                    );
                }
            },
            None => {
                lemma_commands_changed_mirror(from, to, parent, n - 1, c);
            },
        }
    }
}

/// A change between what two nodes hold below them is reported, turned
/// round, the other way round.
pub proof fn lemma_compare_commands_mirror(
    from: ChildrenView,
    to: ChildrenView,
    parent: Seq<char>,
    c: ChangeView,
)
    requires
        names_distinct(from),
        names_distinct(to),
        shown_alike(from, to),
        spec_compare_commands(from, to, parent).contains(c),
    ensures
        spec_compare_commands(to, from, parent).contains(mirror(c)),
    decreases from, from.commands.len() + 1,
{
    let added = commands_added(from.commands, to.commands, parent, to.commands.len() as int);
    let removed = commands_removed(
        from.commands,
        to.commands,
        parent,
        from.commands.len() as int,
    );
    let changed = commands_changed(from, to, parent, from.commands.len() as int);
    let added_back = commands_added(
        to.commands,
        from.commands,
        parent,
        from.commands.len() as int,
    );
    let removed_back = commands_removed(
        to.commands,
        from.commands,
        parent,
        to.commands.len() as int,
    );
    let changed_back = commands_changed(to, from, parent, to.commands.len() as int);
    lemma_add_contains(added + removed, changed, c);
    lemma_add_contains(added, removed, c);
    lemma_add_contains(added_back + removed_back, changed_back, mirror(c));
    lemma_add_contains(added_back, removed_back, mirror(c));
    if added.contains(c) {
        lemma_commands_added_mirror(
            from.commands,
            to.commands,
            parent,
            to.commands.len() as int,
            c,
        );
    } else if removed.contains(c) {
        lemma_commands_removed_mirror(
            from.commands,
            to.commands,
            parent,
            from.commands.len() as int,
            c,
        );
    } else {
        lemma_commands_changed_mirror(from, to, parent, from.commands.len() as int, c);
    }
}

/// Symmetry of the difference: the comparison of `b` with `a` reports
/// exactly the changes that the comparison of `a` with `b` reports, each
/// turned round: added for removed, and the old value for the new.
///
/// This holds of trees in which no two commands of a node share a name, and
/// in which a flag that changed is shown alike in both trees: a change names
/// its flag as the older tree shows it, so where the two trees give one long
/// name different short names, the two reports name the flag differently.
pub proof fn lemma_diff_symmetry(a: CstNodeView, b: CstNodeView)
    requires
        names_distinct(a.children),
        names_distinct(b.children),
        shown_alike(a.children, b.children),
        shown_alike(b.children, a.children),
    ensures
        forall|c: ChangeView|
            spec_compare_structures(a, b).contains(c) <==> #[trigger] spec_compare_structures(
                b,
                a,
            ).contains(mirror(c)),
{
    assert forall|c: ChangeView|
        spec_compare_structures(a, b).contains(c) <==> #[trigger] spec_compare_structures(
            b,
            a,
        ).contains(mirror(c)) by {
        if spec_compare_structures(a, b).contains(c) {
            lemma_compare_commands_mirror(a.children, b.children, Seq::empty(), c);
        }
        if spec_compare_structures(b, a).contains(mirror(c)) {
            lemma_compare_commands_mirror(b.children, a.children, Seq::empty(), mirror(c));
            lemma_mirror_twice(c);
        }
    }
}

} // verus!
