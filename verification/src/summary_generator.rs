//! The keywords of a command tree, and how many there are.
//!
//! The commands are the subcommands of the root. The subcommands are all
//! commands below those, and the flags are the flags of every command but
//! the root, each as often as it occurs.
use vstd::prelude::*;
use crate::models::{CLIKeywords, CLISummary, LineFlag, LineFlagView};
use crate::text::str_equal;
use crate::tree::{Children, ChildrenView, CstNode, CstNodeView, lemma_nodes_view};
use crate::words::{lemma_views_push, views};

verus! {

/// The names of the first `n` commands of `children`.
pub open spec fn direct_names(children: ChildrenView, n: int) -> Seq<Seq<char>>
    decreases n,
{
    if n <= 0 || n > children.commands.len() {
        Seq::empty()
    } else {
        direct_names(children, n - 1).push(children.commands[n - 1].name)
    }
}

/// The names of the first `n` commands of `children` and of all commands
/// below them: each command before those below it.
pub open spec fn names_within(children: ChildrenView, n: int) -> Seq<Seq<char>>
    decreases children, n,
{
    if n <= 0 || n > children.commands.len() {
        Seq::empty()
    } else {
        names_within(children, n - 1).push(children.commands[n - 1].name) + names_within(
            children.commands[n - 1].children,
            children.commands[n - 1].children.commands.len() as int,
        )
    }
}

/// The names of all commands below the first `n` commands of `children`.
pub open spec fn names_below(children: ChildrenView, n: int) -> Seq<Seq<char>>
    decreases n,
{
    if n <= 0 || n > children.commands.len() {
        Seq::empty()
    } else {
        names_below(children, n - 1) + names_within(
            children.commands[n - 1].children,
            children.commands[n - 1].children.commands.len() as int,
        )
    }
}

/// The name of a flag of the kind asked for: the long one, if `long`, else
/// the short one.
pub open spec fn flag_name(flag: LineFlagView, long: bool) -> Option<Seq<char>> {
    if long {
        flag.long
    } else {
        flag.short
    }
}

/// The names of the kind asked for that the first `n` flags have.
pub open spec fn flag_names(flags: Seq<LineFlagView>, long: bool, n: int) -> Seq<Seq<char>>
    decreases n,
{
    if n <= 0 || n > flags.len() {
        Seq::empty()
    } else {
        match flag_name(flags[n - 1], long) {
            Some(name) => flag_names(flags, long, n - 1).push(name),
            None => flag_names(flags, long, n - 1),
        }
    }
}

/// The flag names of the first `n` commands of `children` and of all
/// commands below them.
pub open spec fn flag_names_within(children: ChildrenView, long: bool, n: int) -> Seq<Seq<char>>
    decreases children, n,
{
    if n <= 0 || n > children.commands.len() {
        Seq::empty()
    } else {
        flag_names_within(children, long, n - 1) + flag_names_of(
            children.commands[n - 1].children,
            long,
        )
    }
}

/// The flag names of a command that holds `children`: those of the commands
/// below it, then its own.
pub open spec fn flag_names_of(children: ChildrenView, long: bool) -> Seq<Seq<char>>
    decreases children, children.commands.len() + 1,
{
    flag_names_within(children, long, children.commands.len() as int) + flag_names(
        children.flags,
        long,
        children.flags.len() as int,
    )
}

/// The mathematical value of a [`CLIKeywords`].
pub struct CLIKeywordsView {
    pub base_program: Seq<char>,
    pub commands: Seq<Seq<char>>,
    pub subcommands: Seq<Seq<char>>,
    pub short_flags: Seq<Seq<char>>,
    pub long_flags: Seq<Seq<char>>,
}

impl View for CLIKeywords {
    type V = CLIKeywordsView;

    open spec fn view(&self) -> CLIKeywordsView {
        CLIKeywordsView {
            base_program: self.base_program@,
            commands: views(self.commands@),
            subcommands: views(self.subcommands@),
            short_flags: views(self.short_flags@),
            long_flags: views(self.long_flags@),
        }
    }
}

/// The keywords of a tree, each as often as it occurs.
pub open spec fn spec_extract_data(tree: CstNodeView) -> CLIKeywordsView {
    let n = tree.children.commands.len() as int;
    CLIKeywordsView {
        base_program: tree.name,
        commands: direct_names(tree.children, n),
        subcommands: names_below(tree.children, n),
        short_flags: flag_names_within(tree.children, false, n),
        long_flags: flag_names_within(tree.children, true, n),
    }
}

/// Appends the names of the kind asked for that `flags` have.
fn push_flag_names(flags: &Vec<LineFlag>, long: bool, out: &mut Vec<String>)
    ensures
        views(final(out)@) == views(old(out)@) + flag_names(
            views(flags@),
            long,
            flags@.len() as int,
        ),
{
    let ghost before = views(out@);
    let ghost f = views(flags@);
    let mut i: usize = 0;
    assert(views(out@) =~= before + flag_names(f, long, 0));
    while i < flags.len()
        invariant
            i <= flags.len(),
            f == views(flags@),
            views(out@) == before + flag_names(f, long, i as int),
        decreases flags.len() - i,
    {
        let name = if long {
            &flags[i].long
        } else {
            &flags[i].short
        };
        match name {
            Some(text) => {
                let copy = text.clone();
                proof {
                    lemma_views_push(out@, copy);
                    assert((before + flag_names(f, long, i as int)).push(copy@) =~= before
                        + flag_names(f, long, i as int).push(copy@));
                }
                out.push(copy);
            },
            None => {},
        }
        i += 1;
    }
}

/// Appends the flag names of a command that holds `children`.
fn push_flag_names_of(children: &Children, long: bool, out: &mut Vec<String>)
    ensures
        views(final(out)@) == views(old(out)@) + flag_names_of(children@, long),
    decreases children,
{
    let ghost before = views(out@);
    let ghost c = children@;
    proof {
        lemma_nodes_view(children.commands@);
    }
    let mut i: usize = 0;
    assert(views(out@) =~= before + flag_names_within(c, long, 0));
    while i < children.commands.len()
        invariant
            i <= children.commands.len(),
            c == children@,
            c.commands.len() == children.commands@.len(),
            forall|k: int|
                0 <= k < children.commands@.len() ==> #[trigger] c.commands[k]
                    == children.commands@[k]@,
            views(out@) == before + flag_names_within(c, long, i as int),
        decreases children.commands.len() - i,
    {
        push_flag_names_of(&children.commands[i].children, long, out);
        assert(views(out@) =~= before + (flag_names_within(c, long, i as int) + flag_names_of(
            c.commands[i as int].children,
            long,
        )));
        i += 1;
    }
    let ghost within = flag_names_within(c, long, c.commands.len() as int);
    push_flag_names(&children.flags, long, out);
    assert(views(out@) =~= before + (within + flag_names(
        c.flags,
        long,
        c.flags.len() as int,
    )));
}

/// Appends the names of the commands of `children` and of all commands
/// below them.
fn push_names_within(children: &Children, out: &mut Vec<String>)
    ensures
        views(final(out)@) == views(old(out)@) + names_within(
            children@,
            children@.commands.len() as int,
        ),
    decreases children,
{
    let ghost before = views(out@);
    let ghost c = children@;
    proof {
        lemma_nodes_view(children.commands@);
    }
    let mut i: usize = 0;
    assert(views(out@) =~= before + names_within(c, 0));
    while i < children.commands.len()
        invariant
            i <= children.commands.len(),
            c == children@,
            c.commands.len() == children.commands@.len(),
            forall|k: int|
                0 <= k < children.commands@.len() ==> #[trigger] c.commands[k]
                    == children.commands@[k]@,
            views(out@) == before + names_within(c, i as int),
        decreases children.commands.len() - i,
    {
        let name = children.commands[i].name.clone();
        proof {
            lemma_views_push(out@, name);
        }
        out.push(name);
        push_names_within(&children.commands[i].children, out);
        assert(views(out@) =~= before + (names_within(c, i as int).push(
            c.commands[i as int].name,
        ) + names_within(
            c.commands[i as int].children,
            c.commands[i as int].children.commands.len() as int,
        )));
        i += 1;
    }
}

/// Collects what lies below each subcommand of the root: the names of the
/// commands there, and the names of the flags of the subcommand and of all
/// commands below it.
pub fn walk_commands_recursively(
    children: &Children,
    subcommands: &mut Vec<String>,
    short_flags: &mut Vec<String>,
    long_flags: &mut Vec<String>,
)
    ensures
        views(final(subcommands)@) == views(old(subcommands)@) + names_within(
            children@,
            children@.commands.len() as int,
        ),
        views(final(short_flags)@) == views(old(short_flags)@) + flag_names_of(children@, false),
        views(final(long_flags)@) == views(old(long_flags)@) + flag_names_of(children@, true),
{
    push_names_within(children, subcommands);
    push_flag_names_of(children, false, short_flags);
    push_flag_names_of(children, true, long_flags);
}

/// The keywords of a tree, each as often as it occurs.
pub fn extract_data(tree: &CstNode) -> (r: CLIKeywords)
    ensures
        r@ == spec_extract_data(tree@),
{
    let mut commands: Vec<String> = Vec::new();
    let mut subcommands: Vec<String> = Vec::new();
    let mut short_flags: Vec<String> = Vec::new();
    let mut long_flags: Vec<String> = Vec::new();
    let ghost c = tree@.children;
    proof {
        lemma_nodes_view(tree.children.commands@);
    }
    assert(views(commands@) =~= direct_names(c, 0));
    assert(views(subcommands@) =~= names_below(c, 0));
    assert(views(short_flags@) =~= flag_names_within(c, false, 0));
    assert(views(long_flags@) =~= flag_names_within(c, true, 0));
    let mut i: usize = 0;
    while i < tree.children.commands.len()
        invariant
            i <= tree.children.commands.len(),
            c == tree@.children,
            c.commands.len() == tree.children.commands@.len(),
            forall|k: int|
                0 <= k < tree.children.commands@.len() ==> #[trigger] c.commands[k]
                    == tree.children.commands@[k]@,
            views(commands@) == direct_names(c, i as int),
            views(subcommands@) == names_below(c, i as int),
            views(short_flags@) == flag_names_within(c, false, i as int),
            views(long_flags@) == flag_names_within(c, true, i as int),
        decreases tree.children.commands.len() - i,
    {
        let name = tree.children.commands[i].name.clone();
        proof {
            lemma_views_push(commands@, name);
        }
        commands.push(name);
        walk_commands_recursively(
            &tree.children.commands[i].children,
            &mut subcommands,
            &mut short_flags,
            &mut long_flags,
        );
        i += 1;
    }
    CLIKeywords {
        base_program: tree.name.clone(),
        commands,
        subcommands,
        short_flags,
        long_flags,
    }
}

/// The first `n` texts of `s` without repetitions: each text stands where it
/// first occurs.
pub open spec fn distinct(s: Seq<Seq<char>>, n: int) -> Seq<Seq<char>>
    decreases n,
{
    if n <= 0 || n > s.len() {
        Seq::empty()
    } else if distinct(s, n - 1).contains(s[n - 1]) {
        distinct(s, n - 1)
    } else {
        distinct(s, n - 1).push(s[n - 1])
    }
}

/// `distinct` holds no text twice, and holds exactly the texts that the
/// first `n` of `s` hold.
pub proof fn lemma_distinct(s: Seq<Seq<char>>, n: int)
    requires
        0 <= n <= s.len(),
    ensures
        distinct(s, n).no_duplicates(),
        forall|x: Seq<char>|
            #[trigger] distinct(s, n).contains(x) <==> s.subrange(0, n).contains(x),
        distinct(s, n).len() <= n,
    decreases n,
{
    if n > 0 {
        lemma_distinct(s, n - 1);
        let d = distinct(s, n - 1);
        let last = s[n - 1];
        let shorter = s.subrange(0, n - 1);
        let longer = s.subrange(0, n);
        let now = distinct(s, n);
        assert forall|x: Seq<char>| #[trigger] now.contains(x) <==> longer.contains(x) by {
            if longer.contains(x) {
                let k = choose|k: int| 0 <= k < longer.len() && longer[k] == x;
                if k < n - 1 {
                    assert(shorter[k] == x);
                    assert(d.contains(x));
                    if !d.contains(last) {
                        let j = choose|j: int| 0 <= j < d.len() && d[j] == x;
                        assert(d.push(last)[j] == x);
                    }
                } else {
                    if !d.contains(last) {
                        assert(d.push(last)[d.len() as int] == x);
                    }
                }
            }
            if now.contains(x) {
                let j = choose|j: int| 0 <= j < now.len() && now[j] == x;
                if d.contains(last) || j < d.len() {
                    assert(d[j] == x);
                    assert(d.contains(x));
                    let k = choose|k: int| 0 <= k < shorter.len() && shorter[k] == x;
                    assert(longer[k] == x);
                } else {
                    assert(longer[n - 1] == x);
                }
            }
        }
        if !d.contains(last) {
            assert forall|a: int, b: int|
                0 <= a < d.push(last).len() && 0 <= b < d.push(last).len() && a
                    != b implies d.push(last)[a] != d.push(last)[b] by {
                if a < d.len() && b < d.len() {
                    assert(d[a] != d[b]);
                } else if a < d.len() {
                    assert(d[a] == d.push(last)[a]);
                    assert(d.contains(d[a]));
                } else {
                    assert(d[b] == d.push(last)[b]);
                    assert(d.contains(d[b]));
                }
            }
        }
    }
}

/// The number of different texts in `s`.
pub open spec fn distinct_count(s: Seq<Seq<char>>) -> nat {
    distinct(s, s.len() as int).len()
}

/// The number of different texts in `s` is the size of the set of its texts.
pub proof fn lemma_distinct_count(s: Seq<Seq<char>>)
    ensures
        distinct_count(s) == s.to_set().len(),
{
    let d = distinct(s, s.len() as int);
    lemma_distinct(s, s.len() as int);
    d.unique_seq_to_set();
    assert(s.subrange(0, s.len() as int) =~= s);
    assert(d.to_set() =~= s.to_set());
}

/// Whether `text` is among `texts`.
fn holds_text(texts: &Vec<String>, text: &str) -> (r: bool)
    ensures
        r == views(texts@).contains(text@),
{
    let mut i: usize = 0;
    while i < texts.len()
        invariant
            i <= texts.len(),
            forall|j: int| 0 <= j < i ==> views(texts@)[j] != text@,
        decreases texts.len() - i,
    {
        if str_equal(texts[i].as_str(), text) {
            assert(views(texts@)[i as int] == text@);
            return true;
        }
        i += 1;
    }
    false
}

/// The texts of `texts` without repetitions, each where it first occurs.
pub fn without_repetitions(texts: &Vec<String>) -> (r: Vec<String>)
    ensures
        views(r@) == distinct(views(texts@), texts@.len() as int),
        r.len() <= texts.len(),
{
    let mut out: Vec<String> = Vec::new();
    let mut i: usize = 0;
    assert(views(out@) =~= distinct(views(texts@), 0));
    while i < texts.len()
        invariant
            i <= texts.len(),
            out.len() <= i,
            views(out@) == distinct(views(texts@), i as int),
        decreases texts.len() - i,
    {
        if !holds_text(&out, texts[i].as_str()) {
            let copy = texts[i].clone();
            proof {
                lemma_views_push(out@, copy);
            }
            out.push(copy);
        }
        i += 1;
    }
    out
}

/// Why a summary cannot be given.
#[derive(Debug, Clone, Copy, PartialEq, Eq, Structural)]
pub enum SummaryError {
    /// The number of different keywords does not fit the machine's integer.
    TooManyKeywords,
}

/// The number of different keywords of a tree: commands, subcommands, short
/// flags and long flags, each kind counted by itself.
pub open spec fn unique_keywords(keywords: CLIKeywordsView) -> nat {
    distinct_count(keywords.commands) + distinct_count(keywords.subcommands) + distinct_count(
        keywords.short_flags,
    ) + distinct_count(keywords.long_flags)
}

/// Whether `summary` counts the keywords `keywords`.
pub open spec fn summarizes(summary: CLISummary, keywords: CLIKeywordsView) -> bool {
    &&& summary.total_command_count == keywords.commands.len()
    &&& summary.total_subcommand_count == keywords.subcommands.len()
    &&& summary.total_short_flag_count == keywords.short_flags.len()
    &&& summary.total_long_flag_count == keywords.long_flags.len()
    &&& summary.unique_command_count == distinct_count(keywords.commands)
    &&& summary.unique_subcommand_count == distinct_count(keywords.subcommands)
    &&& summary.unique_short_flag_count == distinct_count(keywords.short_flags)
    &&& summary.unique_long_flag_count == distinct_count(keywords.long_flags)
    &&& summary.unique_keywords_count == unique_keywords(keywords)
}

/// The counts of the keywords `keywords`.
pub fn summarize(keywords: &CLIKeywords) -> (r: Result<CLISummary, SummaryError>)
    ensures
        match r {
            Ok(summary) => summarizes(summary, keywords@),
            Err(e) => unique_keywords(keywords@) > usize::MAX,
        },
{
    let unique_command_count = without_repetitions(&keywords.commands).len();
    let unique_subcommand_count = without_repetitions(&keywords.subcommands).len();
    let unique_short_flag_count = without_repetitions(&keywords.short_flags).len();
    let unique_long_flag_count = without_repetitions(&keywords.long_flags).len();
    let commands_and_subcommands = match unique_command_count.checked_add(unique_subcommand_count) {
        Some(n) => n,
        None => {
            return Err(SummaryError::TooManyKeywords);
        },
    };
    let flags = match unique_short_flag_count.checked_add(unique_long_flag_count) {
        Some(n) => n,
        None => {
            return Err(SummaryError::TooManyKeywords);
        },
    };
    let unique_keywords_count = match commands_and_subcommands.checked_add(flags) {
        Some(n) => n,
        None => {
            return Err(SummaryError::TooManyKeywords);
        },
    };
    Ok(
        CLISummary {
            unique_keywords_count,
            unique_command_count,
            unique_subcommand_count,
            unique_short_flag_count,
            unique_long_flag_count,
            total_command_count: keywords.commands.len(),
            total_subcommand_count: keywords.subcommands.len(),
            total_short_flag_count: keywords.short_flags.len(),
            total_long_flag_count: keywords.long_flags.len(),
        },
    )
}

/// The counts of the keywords of a tree: how many commands, subcommands,
/// short flags and long flags it holds, and how many different ones. The
/// counts are given unless the number of different keywords is too large
/// for the machine's integer.
pub fn generate_summary(tree: &CstNode) -> (r: Result<CLISummary, SummaryError>)
    ensures
        match r {
            Ok(summary) => summarizes(summary, spec_extract_data(tree@)),
            Err(e) => unique_keywords(spec_extract_data(tree@)) > usize::MAX,
        },
{
    let data = extract_data(tree);
    summarize(&data)
}

} // verus!
