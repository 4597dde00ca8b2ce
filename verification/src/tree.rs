//! The command tree of a program.
//!
//! A node holds what one help page says of one command: its description,
//! its flags, usage lines and free text in the order of the page, and a node
//! for every subcommand. Within a node no two subcommands have one name.
use vstd::prelude::*;
use crate::models::{
    LineFlag, LineFlagView, LineOther, LineOtherView, LineUsage, LineUsageView, UsageComponent,
    alternatives_view, components_view, lemma_alternatives_view_push, lemma_components_view_push,
    option_view,
};
use crate::words::{views};

verus! {

/// What one run of a program gave: its two output streams and its exit
/// status. A program that could not be run has status -1 and the reason in
/// `stderr`.
#[derive(Debug)]
pub struct HelpPage {
    pub stdout: String,
    pub stderr: String,
    pub status: i32,
}

/// The mathematical value of a [`HelpPage`].
pub struct HelpPageView {
    pub stdout: Seq<char>,
    pub stderr: Seq<char>,
    pub status: i32,
}

impl View for HelpPage {
    type V = HelpPageView;

    open spec fn view(&self) -> HelpPageView {
        HelpPageView { stdout: self.stdout@, stderr: self.stderr@, status: self.status }
    }
}

/// The raw outputs kept with a node.
#[derive(Debug)]
pub struct Outputs {
    /// The run of `--help` that the node was read from, where there was one.
    pub help_page: Option<HelpPage>,
}

/// What a node holds below it.
#[derive(Debug)]
pub struct Children {
    /// The subcommands. No two have the same name.
    pub commands: Vec<CstNode>,
    /// The flags, in the order of the help page.
    pub flags: Vec<LineFlag>,
    /// The usage lines, in the order of the help page.
    pub usages: Vec<LineUsage>,
    /// The lines of free text, in the order of the help page.
    pub others: Vec<LineOther>,
}

/// A node of the command tree.
#[derive(Debug)]
pub struct CstNode {
    pub name: String,
    pub description: String,
    /// What the program reports as its version; present at the root only.
    pub version: Option<String>,
    /// The number of commands between the root and this node, itself
    /// included.
    pub depth: usize,
    /// The names from the root down to this node, separated by spaces.
    pub command_path: String,
    /// The title of the section that named the command; empty at the root.
    pub parent_header: String,
    /// The command whose help page named this one; empty at the root.
    pub parent: String,
    pub outputs: Outputs,
    pub children: Children,
}

/// The mathematical value of a [`Children`].
pub struct ChildrenView {
    pub commands: Seq<CstNodeView>,
    pub flags: Seq<LineFlagView>,
    pub usages: Seq<LineUsageView>,
    pub others: Seq<LineOtherView>,
}

/// The mathematical value of a [`CstNode`].
pub struct CstNodeView {
    pub name: Seq<char>,
    pub description: Seq<char>,
    pub version: Option<Seq<char>>,
    pub depth: nat,
    pub command_path: Seq<char>,
    pub parent_header: Seq<char>,
    pub parent: Seq<char>,
    pub help_page: Option<HelpPageView>,
    pub children: ChildrenView,
}

/// The value of an optional help page.
pub open spec fn help_page_view(page: Option<HelpPage>) -> Option<HelpPageView> {
    match page {
        Some(p) => Some(p@),
        None => None,
    }
}

/// The value of a node.
pub open spec fn node_view(n: CstNode) -> CstNodeView
    decreases n, 0nat,
{
    CstNodeView {
        name: n.name@,
        description: n.description@,
        version: option_view(n.version),
        depth: n.depth as nat,
        command_path: n.command_path@,
        parent_header: n.parent_header@,
        parent: n.parent@,
        help_page: help_page_view(n.outputs.help_page),
        children: children_view(n.children),
    }
}

/// The value of what a node holds below it.
pub open spec fn children_view(c: Children) -> ChildrenView
    decreases c, 0nat,
{
    ChildrenView {
        commands: nodes_view(c.commands@),
        flags: views(c.flags@),
        usages: views(c.usages@),
        others: views(c.others@),
    }
}

/// The values of a sequence of nodes.
pub open spec fn nodes_view(v: Seq<CstNode>) -> Seq<CstNodeView>
    decreases v, 1nat,
{
    if v.len() == 0 {
        Seq::empty()
    } else {
        nodes_view(v.drop_last()).push(node_view(v.last()))
    }
}

impl View for CstNode {
    type V = CstNodeView;

    open spec fn view(&self) -> CstNodeView {
        node_view(*self)
    }
}

impl View for Children {
    type V = ChildrenView;

    open spec fn view(&self) -> ChildrenView {
        children_view(*self)
    }
}

/// The values of a sequence of nodes are the values of its elements.
pub proof fn lemma_nodes_view(v: Seq<CstNode>)
    ensures
        nodes_view(v).len() == v.len(),
        forall|i: int| 0 <= i < v.len() ==> #[trigger] nodes_view(v)[i] == v[i]@,
    decreases v.len(),
{
    if v.len() > 0 {
        lemma_nodes_view(v.drop_last());
    }
}

/// Appending a node appends its value.
pub proof fn lemma_nodes_view_push(v: Seq<CstNode>, n: CstNode)
    ensures
        nodes_view(v.push(n)) == nodes_view(v).push(n@),
{
    assert(v.push(n).drop_last() =~= v);
}

/// Replacing a node replaces its value.
pub proof fn lemma_nodes_view_update(v: Seq<CstNode>, k: int, n: CstNode)
    requires
        0 <= k < v.len(),
    ensures
        nodes_view(v.update(k, n)) == nodes_view(v).update(k, n@),
{
    lemma_nodes_view(v);
    lemma_nodes_view(v.update(k, n));
    assert(nodes_view(v.update(k, n)) =~= nodes_view(v).update(k, n@));
}

/// The value of a node that holds nothing below it.
pub open spec fn no_children() -> ChildrenView {
    ChildrenView {
        commands: Seq::empty(),
        flags: Seq::empty(),
        usages: Seq::empty(),
        others: Seq::empty(),
    }
}

impl Children {
    /// Children that hold nothing.
    pub fn new() -> (r: Children)
        ensures
            r@ == no_children(),
    {
        let r = Children {
            commands: Vec::new(),
            flags: Vec::new(),
            usages: Vec::new(),
            others: Vec::new(),
        };
        assert(views(r.flags@) =~= Seq::<LineFlagView>::empty());
        assert(views(r.usages@) =~= Seq::<LineUsageView>::empty());
        assert(views(r.others@) =~= Seq::<LineOtherView>::empty());
        r
    }
}

/// A copy of an optional string.
pub fn copy_option(o: &Option<String>) -> (r: Option<String>)
    ensures
        option_view(r) == option_view(*o),
{
    match o {
        Some(s) => Some(s.clone()),
        None => None,
    }
}

/// A copy of a usage component.
pub fn copy_component(c: &UsageComponent) -> (r: UsageComponent)
    ensures
        r@ == c@,
    decreases c, 0nat,
{
    UsageComponent {
        component_type: c.component_type,
        name: c.name.clone(),
        required: c.required,
        repeatable: c.repeatable,
        key_value: c.key_value,
        alternatives: copy_alternatives(&c.alternatives),
        children: copy_components(&c.children),
    }
}

/// A copy of a sequence of usage components.
pub fn copy_components(v: &Vec<UsageComponent>) -> (r: Vec<UsageComponent>)
    ensures
        components_view(r@) == components_view(v@),
    decreases v, 1nat,
{
    let mut out: Vec<UsageComponent> = Vec::new();
    let mut i: usize = 0;
    assert(v@.take(0) =~= Seq::<UsageComponent>::empty());
    while i < v.len()
        invariant
            i <= v.len(),
            components_view(out@) == components_view(v@.take(i as int)),
        decreases v.len() - i,
    {
        let c = copy_component(&v[i]);
        proof {
            lemma_components_view_push(out@, c);
            lemma_components_view_push(v@.take(i as int), v@[i as int]);
            assert(v@.take(i + 1) =~= v@.take(i as int).push(v@[i as int]));
        }
        out.push(c);
        i += 1;
    }
    assert(v@.take(v@.len() as int) =~= v@);
    out
}

/// A copy of a sequence of alternatives.
pub fn copy_alternatives(v: &Vec<Vec<UsageComponent>>) -> (r: Vec<Vec<UsageComponent>>)
    ensures
        alternatives_view(r@) == alternatives_view(v@),
    decreases v, 2nat,
{
    let mut out: Vec<Vec<UsageComponent>> = Vec::new();
    let mut i: usize = 0;
    assert(v@.take(0) =~= Seq::<Vec<UsageComponent>>::empty());
    while i < v.len()
        invariant
            i <= v.len(),
            alternatives_view(out@) == alternatives_view(v@.take(i as int)),
        decreases v.len() - i,
    {
        let a = copy_components(&v[i]);
        proof {
            lemma_alternatives_view_push(out@, a);
            lemma_alternatives_view_push(v@.take(i as int), v@[i as int]);
            assert(v@.take(i + 1) =~= v@.take(i as int).push(v@[i as int]));
        }
        out.push(a);
        i += 1;
    }
    assert(v@.take(v@.len() as int) =~= v@);
    out
}

/// A copy of a flag.
pub fn copy_flag(f: &LineFlag) -> (r: LineFlag)
    ensures
        r@ == f@,
{
    LineFlag {
        short: copy_option(&f.short),
        long: copy_option(&f.long),
        data_type: copy_option(&f.data_type),
        description: copy_option(&f.description),
        parent_header: f.parent_header.clone(),
    }
}

/// A copy of a usage line.
pub fn copy_usage(u: &LineUsage) -> (r: LineUsage)
    ensures
        r@ == u@,
{
    LineUsage {
        usage_string: u.usage_string.clone(),
        parent_header: u.parent_header.clone(),
        usage_components: copy_components(&u.usage_components),
    }
}

/// A copy of a line of free text.
pub fn copy_other(o: &LineOther) -> (r: LineOther)
    ensures
        r@ == o@,
{
    LineOther {
        line_contents: o.line_contents.clone(),
        parent_header: o.parent_header.clone(),
        components: match &o.components {
            Some(c) => Some(copy_components(c)),
            None => None,
        },
    }
}

/// A copy of the outcome of a run.
pub fn copy_help_page(p: &HelpPage) -> (r: HelpPage)
    ensures
        r@ == p@,
{
    HelpPage { stdout: p.stdout.clone(), stderr: p.stderr.clone(), status: p.status }
}

/// The index of the first node of `commands` with the name `name`.
pub open spec fn index_of_name(commands: Seq<CstNodeView>, name: Seq<char>, i: int) -> Option<
    int,
>
    decreases commands.len() - i,
{
    if i < 0 || i >= commands.len() {
        None
    } else if commands[i].name == name {
        Some(i)
    } else {
        index_of_name(commands, name, i + 1)
    }
}

/// `index_of_name` gives the least index from `i` on of a node with that
/// name, and nothing exactly when there is none.
pub proof fn lemma_index_of_name(commands: Seq<CstNodeView>, name: Seq<char>, i: int)
    requires
        0 <= i,
    ensures
        match index_of_name(commands, name, i) {
            Some(k) => i <= k < commands.len() && commands[k].name == name && forall|j: int|
                i <= j < k ==> (#[trigger] commands[j]).name != name,
            None => forall|j: int|
                i <= j < commands.len() ==> (#[trigger] commands[j]).name != name,
        },
    decreases commands.len() - i,
{
    if i < commands.len() && commands[i].name != name {
        lemma_index_of_name(commands, name, i + 1);
    }
}

/// The subcommands with `node` among them: in the place of the one that has
/// its name, or at the end where none has.
pub open spec fn insert_command(commands: Seq<CstNodeView>, node: CstNodeView) -> Seq<
    CstNodeView,
> {
    match index_of_name(commands, node.name, 0) {
        Some(k) => commands.update(k, node),
        None => commands.push(node),
    }
}

/// Whether no two nodes of `commands` have one name.
pub open spec fn distinct_names(commands: Seq<CstNodeView>) -> bool {
    forall|i: int, j: int|
        0 <= i < j < commands.len() ==> (#[trigger] commands[i]).name != (
        #[trigger] commands[j]).name
}

/// Whether no two commands of one node have one name, in the whole of what
/// a node holds below it.
pub open spec fn names_distinct(children: ChildrenView) -> bool
    decreases children,
{
    distinct_names(children.commands) && forall|k: int|
        0 <= k < children.commands.len() ==> names_distinct(
            (#[trigger] children.commands[k]).children,
        )
}

/// Inserting a command keeps the names distinct.
pub proof fn lemma_insert_command_distinct(commands: Seq<CstNodeView>, node: CstNodeView)
    requires
        distinct_names(commands),
    ensures
        distinct_names(insert_command(commands, node)),
{
    lemma_index_of_name(commands, node.name, 0);
    let r = insert_command(commands, node);
    assert forall|i: int, j: int| 0 <= i < j < r.len() implies (#[trigger] r[i]).name != (
    #[trigger] r[j]).name by {
        match index_of_name(commands, node.name, 0) {
            Some(k) => {
                if i != k && j != k {
                    assert(commands[i].name != commands[j].name);
                } else if i == k {
                    assert(commands[k].name != commands[j].name);
                } else {
                    assert(commands[i].name != commands[k].name);
                }
            },
            None => {
                if j < commands.len() {
                    assert(commands[i].name != commands[j].name);
                } else {
                    assert(commands[i].name != node.name);
                }
            },
        }
    }
}

/// Puts `node` among the subcommands `commands`: in the place of the one
/// that has its name, or at the end where none has.
pub fn put_command(commands: &mut Vec<CstNode>, node: CstNode)
    ensures
        nodes_view(final(commands)@) == insert_command(nodes_view(old(commands)@), node@),
{
    proof {
        lemma_nodes_view(commands@);
    }
    let mut i: usize = 0;
    while i < commands.len()
        invariant
            i <= commands.len(),
            commands@ == old(commands)@,
            nodes_view(commands@).len() == commands@.len(),
            forall|j: int|
                0 <= j < commands@.len() ==> #[trigger] nodes_view(commands@)[j] == commands@[j]@,
            index_of_name(nodes_view(commands@), node@.name, i as int) == index_of_name(
                nodes_view(commands@),
                node@.name,
                0,
            ),
        decreases commands.len() - i,
    {
        if crate::text::str_equal(commands[i].name.as_str(), node.name.as_str()) {
            proof {
                lemma_nodes_view_update(commands@, i as int, node);
            }
            commands.set(i, node);
            return ;
        }
        i += 1;
    }
    proof {
        lemma_nodes_view_push(commands@, node);
    }
    commands.push(node);
}

} // verus!
