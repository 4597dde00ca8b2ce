//! The structural difference of two command trees.
//!
//! Two trees are compared level by level, from the subcommands of the two
//! roots down. At each level the commands of the newer tree that the older
//! lacks are reported as added, then those of the older that the newer lacks
//! as removed; for each command that both have, their flags are compared,
//! and then their subcommands in the same way.
//!
//! A flag is known by its signature: its long name, or its short name where
//! it has no long one. Where several flags of a command share a signature,
//! the last of them stands for it.
use vstd::prelude::*;
use crate::models::{LineFlag, LineFlagView, option_view};
use crate::text::{copy_chars, from_chars, push_chars, push_str, str_equal, to_chars};
use crate::tree::{
    Children, ChildrenView, CstNode, CstNodeView, index_of_name, lemma_nodes_view, nodes_view,
};
use crate::words::{lemma_views_push, views};

verus! {

/// One difference between two command trees.
#[derive(Debug, Clone)]
pub enum ChangeType {
    CommandAdded { parent: String, command: String },
    CommandRemoved { parent: String, command: String },
    FlagAdded { command: String, flag: String },
    FlagRemoved { command: String, flag: String },
    FlagDescriptionChanged { command: String, flag: String, old_desc: String, new_desc: String },
    FlagDataTypeChanged {
        command: String,
        flag: String,
        old_type: Option<String>,
        new_type: Option<String>,
    },
}

/// The mathematical value of a [`ChangeType`].
pub enum ChangeView {
    CommandAdded { parent: Seq<char>, command: Seq<char> },
    CommandRemoved { parent: Seq<char>, command: Seq<char> },
    FlagAdded { command: Seq<char>, flag: Seq<char> },
    FlagRemoved { command: Seq<char>, flag: Seq<char> },
    FlagDescriptionChanged {
        command: Seq<char>,
        flag: Seq<char>,
        old_desc: Seq<char>,
        new_desc: Seq<char>,
    },
    FlagDataTypeChanged {
        command: Seq<char>,
        flag: Seq<char>,
        old_type: Option<Seq<char>>,
        new_type: Option<Seq<char>>,
    },
}

impl View for ChangeType {
    type V = ChangeView;

    open spec fn view(&self) -> ChangeView {
        match self {
            ChangeType::CommandAdded { parent, command } => ChangeView::CommandAdded {
                parent: parent@,
                command: command@,
            },
            ChangeType::CommandRemoved { parent, command } => ChangeView::CommandRemoved {
                parent: parent@,
                command: command@,
            },
            ChangeType::FlagAdded { command, flag } => ChangeView::FlagAdded {
                command: command@,
                flag: flag@,
            },
            ChangeType::FlagRemoved { command, flag } => ChangeView::FlagRemoved {
                command: command@,
                flag: flag@,
            },
            ChangeType::FlagDescriptionChanged {
                command,
                flag,
                old_desc,
                new_desc,
            } => ChangeView::FlagDescriptionChanged {
                command: command@,
                flag: flag@,
                old_desc: old_desc@,
                new_desc: new_desc@,
            },
            ChangeType::FlagDataTypeChanged {
                command,
                flag,
                old_type,
                new_type,
            } => ChangeView::FlagDataTypeChanged {
                command: command@,
                flag: flag@,
                old_type: option_view(*old_type),
                new_type: option_view(*new_type),
            },
        }
    }
}

/// The text of an optional text: `none` where there is none.
pub open spec fn or_none(o: Option<Seq<char>>) -> Seq<char> {
    match o {
        Some(s) => s,
        None => "none"@,
    }
}

/// The line, or lines, that report a change.
pub open spec fn spec_format(change: ChangeView) -> Seq<char> {
    match change {
        ChangeView::CommandAdded { parent, command } => if parent.len() == 0 {
            "+ Added command: "@ + command
        } else {
            "+ Added command: "@ + command + " (to "@ + parent + ")"@
        },
        ChangeView::CommandRemoved { parent, command } => if parent.len() == 0 {
            "- Removed command: "@ + command
        } else {
            "- Removed command: "@ + command + " (from "@ + parent + ")"@
        },
        ChangeView::FlagAdded { command, flag } => "+ Added flag: "@ + flag + " (command: "@
            + command + ")"@,
        ChangeView::FlagRemoved { command, flag } => "- Removed flag: "@ + flag + " (command: "@
            + command + ")"@,
        ChangeView::FlagDescriptionChanged { command, flag, old_desc, new_desc } =>
            "~ Modified flag: "@ + flag + " (command: "@ + command
                + ")\n    Description changed:\n      Before: \""@ + old_desc
                + "\"\n      After:  \""@ + new_desc + "\""@,
        ChangeView::FlagDataTypeChanged { command, flag, old_type, new_type } =>
            "~ Modified flag: "@ + flag + " (command: "@ + command
                + ")\n    Data type changed: "@ + or_none(old_type) + " -> "@ + or_none(new_type),
    }
}

/// The text of an optional string, `none` where there is none.
fn text_or_none(o: &Option<String>) -> (r: Vec<char>)
    ensures
        r@ == or_none(option_view(*o)),
{
    match o {
        Some(s) => to_chars(s.as_str()),
        None => to_chars("none"),
    }
}

impl ChangeType {
    /// The line, or lines, that report this change.
    pub fn format(&self) -> (r: String)
        ensures
            r@ == spec_format(self@),
    {
        let mut out: Vec<char> = Vec::new();
        match self {
            ChangeType::CommandAdded { parent, command } => {
                push_str(&mut out, "+ Added command: ");
                push_str(&mut out, command.as_str());
                if parent.as_str().unicode_len() > 0 {
                    push_str(&mut out, " (to ");
                    push_str(&mut out, parent.as_str());
                    push_str(&mut out, ")");
                }
                assert(Seq::<char>::empty() + "+ Added command: "@ =~= "+ Added command: "@);
            },
            ChangeType::CommandRemoved { parent, command } => {
                push_str(&mut out, "- Removed command: ");
                push_str(&mut out, command.as_str());
                if parent.as_str().unicode_len() > 0 {
                    push_str(&mut out, " (from ");
                    push_str(&mut out, parent.as_str());
                    push_str(&mut out, ")");
                }
                assert(Seq::<char>::empty() + "- Removed command: "@ =~= "- Removed command: "@);
            },
            ChangeType::FlagAdded { command, flag } => {
                push_str(&mut out, "+ Added flag: ");
                push_str(&mut out, flag.as_str());
                push_str(&mut out, " (command: ");
                push_str(&mut out, command.as_str());
                push_str(&mut out, ")");
                assert(Seq::<char>::empty() + "+ Added flag: "@ =~= "+ Added flag: "@);
            },
            ChangeType::FlagRemoved { command, flag } => {
                push_str(&mut out, "- Removed flag: ");
                push_str(&mut out, flag.as_str());
                push_str(&mut out, " (command: ");
                push_str(&mut out, command.as_str());
                push_str(&mut out, ")");
                assert(Seq::<char>::empty() + "- Removed flag: "@ =~= "- Removed flag: "@);
            },
            ChangeType::FlagDescriptionChanged { command, flag, old_desc, new_desc } => {
                push_str(&mut out, "~ Modified flag: ");
                push_str(&mut out, flag.as_str());
                push_str(&mut out, " (command: ");
                push_str(&mut out, command.as_str());
                push_str(&mut out, ")\n    Description changed:\n      Before: \"");
                push_str(&mut out, old_desc.as_str());
                push_str(&mut out, "\"\n      After:  \"");
                push_str(&mut out, new_desc.as_str());
                push_str(&mut out, "\"");
                assert(Seq::<char>::empty() + "~ Modified flag: "@ =~= "~ Modified flag: "@);
            },
            ChangeType::FlagDataTypeChanged { command, flag, old_type, new_type } => {
                let old_text = text_or_none(old_type);
                let new_text = text_or_none(new_type);
                push_str(&mut out, "~ Modified flag: ");
                push_str(&mut out, flag.as_str());
                push_str(&mut out, " (command: ");
                push_str(&mut out, command.as_str());
                push_str(&mut out, ")\n    Data type changed: ");
                push_chars(&mut out, &old_text);
                push_str(&mut out, " -> ");
                push_chars(&mut out, &new_text);
                assert(Seq::<char>::empty() + "~ Modified flag: "@ =~= "~ Modified flag: "@);
            },
        }
        from_chars(&out)
    }
}

/// The text of an optional text: empty where there is none.
pub open spec fn or_empty(o: Option<Seq<char>>) -> Seq<char> {
    match o {
        Some(s) => s,
        None => Seq::empty(),
    }
}

/// The signature of a flag: its long name, or its short name where the long
/// name is missing or empty.
pub open spec fn spec_flag_signature(flag: LineFlagView) -> Seq<char> {
    if or_empty(flag.long).len() > 0 {
        or_empty(flag.long)
    } else {
        or_empty(flag.short)
    }
}

/// How a flag is shown: `short/long` where it has both names, the one name
/// where it has one, `unknown` where it has none.
pub open spec fn spec_flag_display(flag: LineFlagView) -> Seq<char> {
    let short = or_empty(flag.short);
    let long = or_empty(flag.long);
    if short.len() > 0 && long.len() > 0 {
        short + seq!['/'] + long
    } else if short.len() > 0 {
        short
    } else if long.len() > 0 {
        long
    } else {
        "unknown"@
    }
}

/// The text of an optional string, empty where there is none.
fn text_or_empty(o: &Option<String>) -> (r: Vec<char>)
    ensures
        r@ == or_empty(option_view(*o)),
{
    match o {
        Some(s) => to_chars(s.as_str()),
        None => Vec::new(),
    }
}

/// The signature of a flag.
pub fn get_flag_signature(flag: &LineFlag) -> (r: String)
    ensures
        r@ == spec_flag_signature(flag@),
{
    from_chars(&signature_of(flag))
}

/// The signature of a flag, as characters.
fn signature_of(flag: &LineFlag) -> (r: Vec<char>)
    ensures
        r@ == spec_flag_signature(flag@),
{
    let long = text_or_empty(&flag.long);
    if long.len() > 0 {
        long
    } else {
        text_or_empty(&flag.short)
    }
}

/// How a flag is shown in a report.
pub fn format_flag_display(flag: &LineFlag) -> (r: String)
    ensures
        r@ == spec_flag_display(flag@),
{
    let short = text_or_empty(&flag.short);
    let long = text_or_empty(&flag.long);
    if short.len() > 0 && long.len() > 0 {
        let mut out = copy_chars(&short);
        out.push('/');
        push_chars(&mut out, &long);
        assert(out@ =~= short@ + seq!['/'] + long@);
        from_chars(&out)
    } else if short.len() > 0 {
        from_chars(&short)
    } else if long.len() > 0 {
        from_chars(&long)
    } else {
        String::from_str("unknown")
    }
}

/// What a comparison reads of a flag: the signature it is known by, how it
/// is shown, its description and the type of its value.
#[derive(Debug)]
pub struct FlagFacts {
    pub signature: String,
    pub display: String,
    pub description: String,
    pub data_type: Option<String>,
}

/// The mathematical value of a [`FlagFacts`].
pub struct FlagFactsView {
    pub signature: Seq<char>,
    pub display: Seq<char>,
    pub description: Seq<char>,
    pub data_type: Option<Seq<char>>,
}

impl View for FlagFacts {
    type V = FlagFactsView;

    open spec fn view(&self) -> FlagFactsView {
        FlagFactsView {
            signature: self.signature@,
            display: self.display@,
            description: self.description@,
            data_type: option_view(self.data_type),
        }
    }
}

/// What a comparison reads of a flag of a help page: a missing description
/// counts as empty.
pub open spec fn line_flag_facts(flag: LineFlagView) -> FlagFactsView {
    FlagFactsView {
        signature: spec_flag_signature(flag),
        display: spec_flag_display(flag),
        description: or_empty(flag.description),
        data_type: flag.data_type,
    }
}

/// What a comparison reads of the flags of a command.
pub open spec fn facts_of_flags(flags: Seq<LineFlagView>) -> Seq<FlagFactsView> {
    Seq::new(flags.len(), |i: int| line_flag_facts(flags[i]))
}

/// The index of the last of the first `n` flags that has the signature
/// `signature`.
pub open spec fn last_with_signature(flags: Seq<FlagFactsView>, signature: Seq<char>, n: int) -> Option<
    int,
>
    decreases n,
{
    if n <= 0 || n > flags.len() {
        None
    } else if flags[n - 1].signature == signature {
        Some(n - 1)
    } else {
        last_with_signature(flags, signature, n - 1)
    }
}

/// The flag that stands for a signature among `flags`, if any has it.
pub open spec fn flag_with_signature(flags: Seq<FlagFactsView>, signature: Seq<char>) -> Option<
    int,
> {
    last_with_signature(flags, signature, flags.len() as int)
}

/// Whether the flag at `i` stands for its signature: no later flag has it.
pub open spec fn stands_for_signature(flags: Seq<FlagFactsView>, i: int) -> bool {
    flag_with_signature(flags, flags[i].signature) == Some(i)
}

/// The changes between two flags of one signature: one where their
/// descriptions differ, and one where the types of their values differ, a
/// missing type differing from every type. The flag is shown as the older
/// one is.
pub open spec fn pair_changes(from: FlagFactsView, to: FlagFactsView, command: Seq<char>) -> Seq<
    ChangeView,
> {
    let description = if from.description != to.description {
        seq![
            ChangeView::FlagDescriptionChanged {
                command,
                flag: from.display,
                old_desc: from.description,
                new_desc: to.description,
            },
        ]
    } else {
        Seq::empty()
    };
    let data_type = if from.data_type != to.data_type {
        seq![
            ChangeView::FlagDataTypeChanged {
                command,
                flag: from.display,
                old_type: from.data_type,
                new_type: to.data_type,
            },
        ]
    } else {
        Seq::empty()
    };
    description + data_type
}

/// The flags among the first `n` of `to` that stand for a signature that no
/// flag of `from` has, each reported as added.
pub open spec fn flags_added(
    from: Seq<FlagFactsView>,
    to: Seq<FlagFactsView>,
    command: Seq<char>,
    n: int,
) -> Seq<ChangeView>
    decreases n,
{
    if n <= 0 || n > to.len() {
        Seq::empty()
    } else if stands_for_signature(to, n - 1) && flag_with_signature(from, to[n - 1].signature)
        is None {
        flags_added(from, to, command, n - 1).push(
            ChangeView::FlagAdded { command, flag: to[n - 1].display },
        )
    } else {
        flags_added(from, to, command, n - 1)
    }
}

/// The flags among the first `n` of `from` that stand for a signature that
/// no flag of `to` has, each reported as removed.
pub open spec fn flags_removed(
    from: Seq<FlagFactsView>,
    to: Seq<FlagFactsView>,
    command: Seq<char>,
    n: int,
) -> Seq<ChangeView>
    decreases n,
{
    if n <= 0 || n > from.len() {
        Seq::empty()
    } else if stands_for_signature(from, n - 1) && flag_with_signature(to, from[n - 1].signature)
        is None {
        flags_removed(from, to, command, n - 1).push(
            ChangeView::FlagRemoved { command, flag: from[n - 1].display },
        )
    } else {
        flags_removed(from, to, command, n - 1)
    }
}

/// The changes of the flags among the first `n` of `from` that stand for a
/// signature that a flag of `to` has too.
pub open spec fn flags_changed(
    from: Seq<FlagFactsView>,
    to: Seq<FlagFactsView>,
    command: Seq<char>,
    n: int,
) -> Seq<ChangeView>
    decreases n,
{
    if n <= 0 || n > from.len() {
        Seq::empty()
    } else if stands_for_signature(from, n - 1) {
        match flag_with_signature(to, from[n - 1].signature) {
            Some(j) => flags_changed(from, to, command, n - 1) + pair_changes(
                from[n - 1],
                to[j],
                command,
            ),
            None => flags_changed(from, to, command, n - 1),
        }
    } else {
        flags_changed(from, to, command, n - 1)
    }
}

/// The changes between two lists of flags of the command `command`: the
/// flags added, the flags removed, then the flags that changed.
pub open spec fn compare_facts(
    from: Seq<FlagFactsView>,
    to: Seq<FlagFactsView>,
    command: Seq<char>,
) -> Seq<ChangeView> {
    flags_added(from, to, command, to.len() as int) + flags_removed(
        from,
        to,
        command,
        from.len() as int,
    ) + flags_changed(from, to, command, from.len() as int)
}

/// The changes between the flags of a command in two trees.
pub open spec fn spec_compare_flags(
    from: Seq<LineFlagView>,
    to: Seq<LineFlagView>,
    command: Seq<char>,
) -> Seq<ChangeView> {
    compare_facts(facts_of_flags(from), facts_of_flags(to), command)
}

/// What a comparison reads of a flag of a help page.
pub fn facts_of_flag(flag: &LineFlag) -> (r: FlagFacts)
    ensures
        r@ == line_flag_facts(flag@),
{
    FlagFacts {
        signature: get_flag_signature(flag),
        display: format_flag_display(flag),
        description: from_chars(&text_or_empty(&flag.description)),
        data_type: copy_text_option(&flag.data_type),
    }
}

/// What a comparison reads of the flags of a command.
pub fn facts_of(flags: &Vec<LineFlag>) -> (r: Vec<FlagFacts>)
    ensures
        views(r@) == facts_of_flags(views(flags@)),
{
    let mut out: Vec<FlagFacts> = Vec::new();
    let mut i: usize = 0;
    while i < flags.len()
        invariant
            i <= flags.len(),
            out.len() == i,
            forall|k: int| 0 <= k < i ==> (#[trigger] out@[k])@ == line_flag_facts(flags@[k]@),
        decreases flags.len() - i,
    {
        out.push(facts_of_flag(&flags[i]));
        i += 1;
    }
    assert(views(out@) =~= facts_of_flags(views(flags@)));
    out
}

/// The index of the last flag of `flags` with the signature `signature`.
fn find_flag(flags: &Vec<FlagFacts>, signature: &str) -> (r: Option<usize>)
    ensures
        match r {
            Some(k) => flag_with_signature(views(flags@), signature@) == Some(k as int) && k
                < flags.len(),
            None => flag_with_signature(views(flags@), signature@) is None,
        },
{
    let mut n: usize = flags.len();
    while n > 0
        invariant
            n <= flags.len(),
            last_with_signature(views(flags@), signature@, n as int) == flag_with_signature(
                views(flags@),
                signature@,
            ),
        decreases n,
    {
        if str_equal(flags[n - 1].signature.as_str(), signature) {
            return Some(n - 1);
        }
        n -= 1;
    }
    None
}

/// Whether the flag at `i` stands for its signature.
fn stands_for(flags: &Vec<FlagFacts>, i: usize) -> (r: bool)
    requires
        i < flags.len(),
    ensures
        r == stands_for_signature(views(flags@), i as int),
{
    match find_flag(flags, flags[i].signature.as_str()) {
        Some(k) => k == i,
        None => false,
    }
}

/// Appends the changes between two flags of one signature.
fn push_pair_changes(
    from: &FlagFacts,
    to: &FlagFacts,
    command: &Vec<char>,
    changes: &mut Vec<ChangeType>,
)
    ensures
        views(final(changes)@) == views(old(changes)@) + pair_changes(from@, to@, command@),
{
    let ghost before = views(changes@);
    let ghost description = if from@.description != to@.description {
        seq![
            ChangeView::FlagDescriptionChanged {
                command: command@,
                flag: from@.display,
                old_desc: from@.description,
                new_desc: to@.description,
            },
        ]
    } else {
        Seq::empty()
    };
    if !str_equal(from.description.as_str(), to.description.as_str()) {
        let change = ChangeType::FlagDescriptionChanged {
            command: from_chars(command),
            flag: from.display.clone(),
            old_desc: from.description.clone(),
            new_desc: to.description.clone(),
        };
        proof {
            lemma_views_push(changes@, change);
        }
        changes.push(change);
    }
    assert(views(changes@) =~= before + description);
    if !same_option(&from.data_type, &to.data_type) {
        let change = ChangeType::FlagDataTypeChanged {
            command: from_chars(command),
            flag: from.display.clone(),
            old_type: copy_text_option(&from.data_type),
            new_type: copy_text_option(&to.data_type),
        };
        proof {
            lemma_views_push(changes@, change);
        }
        changes.push(change);
    }
    assert(views(changes@) =~= before + pair_changes(from@, to@, command@));
}

/// Whether two optional strings are both missing or hold the same text.
fn same_option(a: &Option<String>, b: &Option<String>) -> (r: bool)
    ensures
        r == (option_view(*a) == option_view(*b)),
{
    match (a, b) {
        (Some(x), Some(y)) => str_equal(x.as_str(), y.as_str()),
        (None, None) => true,
        _ => false,
    }
}

/// A copy of an optional string.
fn copy_text_option(o: &Option<String>) -> (r: Option<String>)
    ensures
        option_view(r) == option_view(*o),
{
    match o {
        Some(s) => Some(s.clone()),
        None => None,
    }
}

/// Appends the changes between the flags of a command in two trees.
pub fn compare_flags(
    from: &Vec<LineFlag>,
    to: &Vec<LineFlag>,
    command_path: &str,
    changes: &mut Vec<ChangeType>,
)
    ensures
        views(final(changes)@) == views(old(changes)@) + spec_compare_flags(
            views(from@),
            views(to@),
            command_path@,
        ),
{
    let command = to_chars(command_path);
    let from_facts = facts_of(from);
    let to_facts = facts_of(to);
    compare_fact_lists(&from_facts, &to_facts, &command, changes);
}

/// Appends the changes between two lists of flags of the command `command`.
pub fn compare_fact_lists(
    from: &Vec<FlagFacts>,
    to: &Vec<FlagFacts>,
    command: &Vec<char>,
    changes: &mut Vec<ChangeType>,
)
    ensures
        views(final(changes)@) == views(old(changes)@) + compare_facts(
            views(from@),
            views(to@),
            command@,
        ),
{
    let ghost before = views(changes@);
    let ghost f = views(from@);
    let ghost t = views(to@);
    let mut j: usize = 0;
    assert(views(changes@) =~= before + flags_added(f, t, command@, 0));
    while j < to.len()
        invariant
            j <= to.len(),
            f == views(from@),
            t == views(to@),
            views(changes@) == before + flags_added(f, t, command@, j as int),
        decreases to.len() - j,
    {
        if stands_for(to, j) && find_flag(from, to[j].signature.as_str()).is_none() {
            let change = ChangeType::FlagAdded {
                command: from_chars(command),
                flag: to[j].display.clone(),
            };
            proof {
                lemma_views_push(changes@, change);
                assert((before + flags_added(f, t, command@, j as int)).push(change@) =~= before
                    + flags_added(f, t, command@, j as int).push(change@));
            }
            changes.push(change);
        }
        j += 1;
    }
    let ghost added = flags_added(f, t, command@, t.len() as int);
    let mut i: usize = 0;
    assert(views(changes@) =~= before + added + flags_removed(f, t, command@, 0));
    while i < from.len()
        invariant
            i <= from.len(),
            f == views(from@),
            t == views(to@),
            views(changes@) == before + added + flags_removed(f, t, command@, i as int),
        decreases from.len() - i,
    {
        if stands_for(from, i) && find_flag(to, from[i].signature.as_str()).is_none() {
            let change = ChangeType::FlagRemoved {
                command: from_chars(command),
                flag: from[i].display.clone(),
            };
            proof {
                lemma_views_push(changes@, change);
                assert((before + added + flags_removed(f, t, command@, i as int)).push(change@)
                    =~= before + added + flags_removed(f, t, command@, i as int).push(change@));
            }
            changes.push(change);
        }
        i += 1;
    }
    let ghost removed = flags_removed(f, t, command@, f.len() as int);
    let mut i: usize = 0;
    assert(views(changes@) =~= before + added + removed + flags_changed(f, t, command@, 0));
    while i < from.len()
        invariant
            i <= from.len(),
            f == views(from@),
            t == views(to@),
            views(changes@) == before + added + removed + flags_changed(
                f,
                t,
                command@,
                i as int,
            ),
        decreases from.len() - i,
    {
        if stands_for(from, i) {
            match find_flag(to, from[i].signature.as_str()) {
                Some(k) => {
                    push_pair_changes(&from[i], &to[k], command, changes);
                    assert(views(changes@) =~= before + added + removed + (flags_changed(
                        f,
                        t,
                        command@,
                        i as int,
                    ) + pair_changes(f[i as int], t[k as int], command@)));
                },
                None => {},
            }
        }
        i += 1;
    }
}

/// Whether a node of `commands` has the name `name`.
pub open spec fn has_command(commands: Seq<CstNodeView>, name: Seq<char>) -> bool {
    index_of_name(commands, name, 0) is Some
}

/// The path of the command `name` below the path `parent`.
pub open spec fn command_path(parent: Seq<char>, name: Seq<char>) -> Seq<char> {
    if parent.len() == 0 {
        name
    } else {
        parent + seq![' '] + name
    }
}

/// The commands among the first `n` of `to` whose name no command of `from`
/// has, each reported as added.
pub open spec fn commands_added(
    from: Seq<CstNodeView>,
    to: Seq<CstNodeView>,
    parent: Seq<char>,
    n: int,
) -> Seq<ChangeView>
    decreases n,
{
    if n <= 0 || n > to.len() {
        Seq::empty()
    } else if has_command(from, to[n - 1].name) {
        commands_added(from, to, parent, n - 1)
    } else {
        commands_added(from, to, parent, n - 1).push(
            ChangeView::CommandAdded { parent, command: to[n - 1].name },
        )
    }
}

/// The commands among the first `n` of `from` whose name no command of `to`
/// has, each reported as removed.
pub open spec fn commands_removed(
    from: Seq<CstNodeView>,
    to: Seq<CstNodeView>,
    parent: Seq<char>,
    n: int,
) -> Seq<ChangeView>
    decreases n,
{
    if n <= 0 || n > from.len() {
        Seq::empty()
    } else if has_command(to, from[n - 1].name) {
        commands_removed(from, to, parent, n - 1)
    } else {
        commands_removed(from, to, parent, n - 1).push(
            ChangeView::CommandRemoved { parent, command: from[n - 1].name },
        )
    }
}

/// The changes below the commands among the first `n` of `from` that `to`
/// has too: for each, the changes of its flags, then those of its
/// subcommands.
pub open spec fn commands_changed(
    from: ChildrenView,
    to: ChildrenView,
    parent: Seq<char>,
    n: int,
) -> Seq<ChangeView>
    decreases from, n,
{
    if n <= 0 || n > from.commands.len() {
        Seq::empty()
    } else {
        match index_of_name(to.commands, from.commands[n - 1].name, 0) {
            Some(j) => commands_changed(from, to, parent, n - 1) + spec_compare_flags(
                from.commands[n - 1].children.flags,
                to.commands[j].children.flags,
                command_path(parent, from.commands[n - 1].name),
            ) + spec_compare_commands(
                from.commands[n - 1].children,
                to.commands[j].children,
                command_path(parent, from.commands[n - 1].name),
            ),
            None => commands_changed(from, to, parent, n - 1),
        }
    }
}

/// The changes between what two nodes hold below them, under the path
/// `parent`: the commands added, the commands removed, then the changes
/// below the commands that both have.
pub open spec fn spec_compare_commands(
    from: ChildrenView,
    to: ChildrenView,
    parent: Seq<char>,
) -> Seq<ChangeView>
    decreases from, from.commands.len() + 1,
{
    commands_added(from.commands, to.commands, parent, to.commands.len() as int)
        + commands_removed(from.commands, to.commands, parent, from.commands.len() as int)
        + commands_changed(from, to, parent, from.commands.len() as int)
}

/// The changes from the tree `from` to the tree `to`.
pub open spec fn spec_compare_structures(from: CstNodeView, to: CstNodeView) -> Seq<ChangeView> {
    spec_compare_commands(from.children, to.children, Seq::empty())
}

/// The index of the first node of `commands` with the name `name`.
pub fn find_command(commands: &Vec<CstNode>, name: &str) -> (r: Option<usize>)
    ensures
        match r {
            Some(k) => index_of_name(nodes_view(commands@), name@, 0) == Some(k as int) && k
                < commands.len(),
            None => index_of_name(nodes_view(commands@), name@, 0) is None,
        },
{
    proof {
        lemma_nodes_view(commands@);
    }
    let mut i: usize = 0;
    while i < commands.len()
        invariant
            i <= commands.len(),
            nodes_view(commands@).len() == commands@.len(),
            forall|j: int|
                0 <= j < commands@.len() ==> #[trigger] nodes_view(commands@)[j] == commands@[j]@,
            index_of_name(nodes_view(commands@), name@, i as int) == index_of_name(
                nodes_view(commands@),
                name@,
                0,
            ),
        decreases commands.len() - i,
    {
        if str_equal(commands[i].name.as_str(), name) {
            return Some(i);
        }
        i += 1;
    }
    None
}

/// The path of the command `name` below the path `parent`.
fn path_of(parent: &Vec<char>, name: &str) -> (r: Vec<char>)
    ensures
        r@ == command_path(parent@, name@),
{
    if parent.len() == 0 {
        to_chars(name)
    } else {
        let mut r = copy_chars(parent);
        r.push(' ');
        push_str(&mut r, name);
        assert(r@ =~= parent@ + seq![' '] + name@);
        r
    }
}

/// Appends the changes between what two nodes hold below them, under the
/// path `parent_path`.
pub fn compare_commands(
    from: &Children,
    to: &Children,
    parent_path: &Vec<char>,
    changes: &mut Vec<ChangeType>,
)
    ensures
        views(final(changes)@) == views(old(changes)@) + spec_compare_commands(
            from@,
            to@,
            parent_path@,
        ),
    decreases from,
{
    let ghost before = views(changes@);
    let ghost f = from@;
    let ghost t = to@;
    let ghost p = parent_path@;
    proof {
        lemma_nodes_view(from.commands@);
        lemma_nodes_view(to.commands@);
    }
    let mut j: usize = 0;
    assert(views(changes@) =~= before + commands_added(f.commands, t.commands, p, 0));
    while j < to.commands.len()
        invariant
            j <= to.commands.len(),
            f == from@,
            t == to@,
            p == parent_path@,
            t.commands.len() == to.commands@.len(),
            forall|k: int| 0 <= k < to.commands@.len() ==> #[trigger] t.commands[k] == to.commands@[k]@,
            views(changes@) == before + commands_added(f.commands, t.commands, p, j as int),
        decreases to.commands.len() - j,
    {
        if find_command(&from.commands, to.commands[j].name.as_str()).is_none() {
            let change = ChangeType::CommandAdded {
                parent: from_chars(parent_path),
                command: to.commands[j].name.clone(),
            };
            proof {
                lemma_views_push(changes@, change);
                assert((before + commands_added(f.commands, t.commands, p, j as int)).push(
                    change@,
                ) =~= before + commands_added(f.commands, t.commands, p, j as int).push(change@));
            }
            changes.push(change);
        }
        j += 1;
    }
    let ghost added = commands_added(f.commands, t.commands, p, t.commands.len() as int);
    let mut i: usize = 0;
    assert(views(changes@) =~= before + added + commands_removed(f.commands, t.commands, p, 0));
    while i < from.commands.len()
        invariant
            i <= from.commands.len(),
            f == from@,
            t == to@,
            p == parent_path@,
            f.commands.len() == from.commands@.len(),
            forall|k: int|
                0 <= k < from.commands@.len() ==> #[trigger] f.commands[k] == from.commands@[k]@,
            views(changes@) == before + added + commands_removed(
                f.commands,
                t.commands,
                p,
                i as int,
            ),
        decreases from.commands.len() - i,
    {
        if find_command(&to.commands, from.commands[i].name.as_str()).is_none() {
            let change = ChangeType::CommandRemoved {
                parent: from_chars(parent_path),
                command: from.commands[i].name.clone(),
            };
            proof {
                lemma_views_push(changes@, change);
                assert((before + added + commands_removed(f.commands, t.commands, p, i as int)).push(
                    change@,
                ) =~= before + added + commands_removed(f.commands, t.commands, p, i as int).push(
                    change@,
                ));
            }
            changes.push(change);
        }
        i += 1;
    }
    let ghost removed = commands_removed(f.commands, t.commands, p, f.commands.len() as int);
    let mut i: usize = 0;
    assert(views(changes@) =~= before + added + removed + commands_changed(f, t, p, 0));
    while i < from.commands.len()
        invariant
            i <= from.commands.len(),
            f == from@,
            t == to@,
            p == parent_path@,
            f.commands.len() == from.commands@.len(),
            t.commands.len() == to.commands@.len(),
            forall|k: int|
                0 <= k < from.commands@.len() ==> #[trigger] f.commands[k] == from.commands@[k]@,
            forall|k: int| 0 <= k < to.commands@.len() ==> #[trigger] t.commands[k] == to.commands@[k]@,
            views(changes@) == before + added + removed + commands_changed(f, t, p, i as int),
        decreases from.commands.len() - i,
    {
        match find_command(&to.commands, from.commands[i].name.as_str()) {
            Some(k) => {
                let path = path_of(parent_path, from.commands[i].name.as_str());
                let ghost so_far = views(changes@);
                let from_facts = facts_of(&from.commands[i].children.flags);
                let to_facts = facts_of(&to.commands[k].children.flags);
                compare_fact_lists(&from_facts, &to_facts, &path, changes);
                compare_commands(
                    &from.commands[i].children,
                    &to.commands[k].children,
                    &path,
                    changes,
                );
                proof {
                    let flags = spec_compare_flags(
                        f.commands[i as int].children.flags,
                        t.commands[k as int].children.flags,
                        path@,
                    );
                    let below = spec_compare_commands(
                        f.commands[i as int].children,
                        t.commands[k as int].children,
                        path@,
                    );
                    assert(so_far + flags + below =~= before + added + removed + (
                    commands_changed(f, t, p, i as int) + flags + below));
                }
            },
            None => {},
        }
        i += 1;
    }
}

/// Why a tree could not be had from a file.
#[derive(Debug)]
pub enum LoadError {
    /// The file could not be read.
    Read(String),
    /// What the file holds is no tree.
    Parse(String),
}

/// Why two trees could not be compared.
#[derive(Debug)]
pub enum CompareError {
    /// The older tree could not be had.
    From(LoadError),
    /// The newer tree could not be had.
    To(LoadError),
}

/// The mathematical value of a [`LoadError`].
pub enum LoadErrorView {
    Read(Seq<char>),
    Parse(Seq<char>),
}

impl View for LoadError {
    type V = LoadErrorView;

    open spec fn view(&self) -> LoadErrorView {
        match self {
            LoadError::Read(m) => LoadErrorView::Read(m@),
            LoadError::Parse(m) => LoadErrorView::Parse(m@),
        }
    }
}

/// The mathematical value of a [`CompareError`].
pub enum CompareErrorView {
    From(LoadErrorView),
    To(LoadErrorView),
}

impl View for CompareError {
    type V = CompareErrorView;

    open spec fn view(&self) -> CompareErrorView {
        match self {
            CompareError::From(e) => CompareErrorView::From(e@),
            CompareError::To(e) => CompareErrorView::To(e@),
        }
    }
}

/// The value of a tree that was to be had from a file.
pub open spec fn loaded_view(r: Result<CstNode, LoadError>) -> Result<CstNodeView, LoadErrorView> {
    match r {
        Ok(tree) => Ok(tree@),
        Err(e) => Err(e@),
    }
}

/// The value of the outcome of a comparison.
pub open spec fn compared_view(r: Result<Vec<ChangeType>, CompareError>) -> Result<
    Seq<ChangeView>,
    CompareErrorView,
> {
    match r {
        Ok(changes) => Ok(views(changes@)),
        Err(e) => Err(e@),
    }
}

/// The changes between two trees that were to be had from files, or why
/// there are none to give. The comparison fails as a whole where either tree
/// is missing. Both files are read before either is taken apart, so of
/// several failures the first of these is reported: the older file was not
/// read, the newer was not read, the older holds no tree, the newer holds
/// none.
pub open spec fn spec_compare_json_structures(
    from: Result<CstNodeView, LoadErrorView>,
    to: Result<CstNodeView, LoadErrorView>,
) -> Result<Seq<ChangeView>, CompareErrorView> {
    match (from, to) {
        (Err(LoadErrorView::Read(m)), _) => Err(CompareErrorView::From(LoadErrorView::Read(m))),
        (_, Err(LoadErrorView::Read(m))) => Err(CompareErrorView::To(LoadErrorView::Read(m))),
        (Err(LoadErrorView::Parse(m)), _) => Err(CompareErrorView::From(LoadErrorView::Parse(m))),
        (_, Err(LoadErrorView::Parse(m))) => Err(CompareErrorView::To(LoadErrorView::Parse(m))),
        (Ok(a), Ok(b)) => Ok(spec_compare_structures(a, b)),
    }
}

/// The changes between two trees that were to be had from files, or why
/// there are none to give.
pub fn compare_json_structures(from: Result<CstNode, LoadError>, to: Result<CstNode, LoadError>) -> (r:
    Result<Vec<ChangeType>, CompareError>)
    ensures
        compared_view(r) == spec_compare_json_structures(loaded_view(from), loaded_view(to)),
{
    match (from, to) {
        (Err(LoadError::Read(m)), _) => Err(CompareError::From(LoadError::Read(m))),
        (_, Err(LoadError::Read(m))) => Err(CompareError::To(LoadError::Read(m))),
        (Err(LoadError::Parse(m)), _) => Err(CompareError::From(LoadError::Parse(m))),
        (_, Err(LoadError::Parse(m))) => Err(CompareError::To(LoadError::Parse(m))),
        (Ok(a), Ok(b)) => Ok(compare_structures(&a, &b)),
    }
}

/// The changes from the tree `from` to the tree `to`, in the order in which
/// the comparison finds them.
pub fn compare_structures(from: &CstNode, to: &CstNode) -> (r: Vec<ChangeType>)
    ensures
        views(r@) == spec_compare_structures(from@, to@),
{
    let mut changes: Vec<ChangeType> = Vec::new();
    let parent: Vec<char> = Vec::new();
    assert(views(changes@) =~= Seq::<ChangeView>::empty());
    compare_commands(&from.children, &to.children, &parent, &mut changes);
    assert(Seq::<ChangeView>::empty() + spec_compare_structures(from@, to@)
        =~= spec_compare_structures(from@, to@));
    changes
}

} // verus!
