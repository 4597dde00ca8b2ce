//! The source of a program that takes the commands and flags of a command
//! tree: a command-line definition for the `clap` crate, a `main` that
//! dispatches on the subcommand, and a file of handlers for each command.
//!
//! The tree is read two levels deep: the commands of the root and their
//! subcommands. Every flag must have a name, long or short.
use vstd::prelude::*;
use crate::cli_navigator_toolkit::{strip_hyphens, without_hyphens};
use crate::comparison::or_empty;
use crate::models::option_view;
use crate::text::{from_chars, push_chars, push_str, str_equal, to_chars};
use crate::typescript_generator::bool_text;
use crate::words::{replace, spec_replace, views};

verus! {

/// A flag of the tree.
#[derive(Debug)]
pub struct FlagSpec {
    pub short: Option<String>,
    pub long: Option<String>,
    pub data_type: Option<String>,
    pub description: Option<String>,
    pub parent_header: String,
    pub required: Option<bool>,
}

/// A usage line of the tree.
#[derive(Debug)]
pub struct UsageSpec {
    pub usage_string: String,
    pub parent_header: String,
}

/// A line of free text of the tree.
#[derive(Debug)]
pub struct OtherSpec {
    pub line_contents: String,
    pub parent_header: String,
}

/// What a command of the tree holds.
#[derive(Debug)]
pub struct ChildrenSpec {
    pub commands: Vec<CommandSpec>,
    pub flags: Vec<FlagSpec>,
    pub usages: Vec<UsageSpec>,
    pub others: Vec<OtherSpec>,
}

/// A command of the tree.
#[derive(Debug)]
pub struct CommandSpec {
    pub name: String,
    pub description: String,
    pub parent: String,
    pub parent_header: Option<String>,
    pub children: ChildrenSpec,
}

/// The tree of a program.
#[derive(Debug)]
pub struct CliSpec {
    pub name: String,
    pub description: String,
    pub version: String,
    pub children: ChildrenSpec,
}

/// The mathematical value of a [`FlagSpec`], as far as the generated source
/// depends on it.
pub struct FlagSpecView {
    pub short: Option<Seq<char>>,
    pub long: Option<Seq<char>>,
    pub data_type: Option<Seq<char>>,
    pub description: Option<Seq<char>>,
    pub required: Option<bool>,
}

impl View for FlagSpec {
    type V = FlagSpecView;

    open spec fn view(&self) -> FlagSpecView {
        FlagSpecView {
            short: option_view(self.short),
            long: option_view(self.long),
            data_type: option_view(self.data_type),
            description: option_view(self.description),
            required: self.required,
        }
    }
}

/// The mathematical value of a [`CommandSpec`], as far as the generated
/// source depends on it.
pub struct CommandSpecView {
    pub name: Seq<char>,
    pub description: Seq<char>,
    pub flags: Seq<FlagSpecView>,
    pub commands: Seq<CommandSpecView>,
}

/// The value of a command.
pub open spec fn command_view(c: CommandSpec) -> CommandSpecView
    decreases c, 0nat,
{
    CommandSpecView {
        name: c.name@,
        description: c.description@,
        flags: views(c.children.flags@),
        commands: commands_view(c.children.commands@),
    }
}

/// The values of a sequence of commands.
pub open spec fn commands_view(v: Seq<CommandSpec>) -> Seq<CommandSpecView>
    decreases v, 1nat,
{
    if v.len() == 0 {
        Seq::empty()
    } else {
        commands_view(v.drop_last()).push(command_view(v.last()))
    }
}

impl View for CommandSpec {
    type V = CommandSpecView;

    open spec fn view(&self) -> CommandSpecView {
        command_view(*self)
    }
}

/// The values of a sequence of commands are the values of its elements.
pub proof fn lemma_commands_view(v: Seq<CommandSpec>)
    ensures
        commands_view(v).len() == v.len(),
        forall|i: int| 0 <= i < v.len() ==> #[trigger] commands_view(v)[i] == v[i]@,
    decreases v.len(),
{
    if v.len() > 0 {
        lemma_commands_view(v.drop_last());
    }
}

/// The mathematical value of a [`CliSpec`], as far as the generated source
/// depends on it.
pub struct CliSpecView {
    pub name: Seq<char>,
    pub description: Seq<char>,
    pub version: Seq<char>,
    pub flags: Seq<FlagSpecView>,
    pub commands: Seq<CommandSpecView>,
}

impl View for CliSpec {
    type V = CliSpecView;

    open spec fn view(&self) -> CliSpecView {
        CliSpecView {
            name: self.name@,
            description: self.description@,
            version: self.version@,
            flags: views(self.children.flags@),
            commands: commands_view(self.children.commands@),
        }
    }
}

/// Whether every flag has a name, long or short.
pub open spec fn flags_named(flags: Seq<FlagSpecView>) -> bool {
    forall|k: int| 0 <= k < flags.len() ==> (#[trigger] flags[k]).long is Some || flags[k].short
        is Some
}

/// Whether every flag of every command of `commands` has a name.
pub open spec fn level_named(commands: Seq<CommandSpecView>) -> bool {
    forall|i: int| 0 <= i < commands.len() ==> flags_named((#[trigger] commands[i]).flags)
}

/// Whether every flag of the commands and of their subcommands has a name.
pub open spec fn commands_named(commands: Seq<CommandSpecView>) -> bool {
    level_named(commands) && forall|i: int|
        0 <= i < commands.len() ==> level_named((#[trigger] commands[i]).commands)
}

/// Whether every flag that the generated source reads has a name: the flags
/// of the root, of its commands and of their subcommands.
pub open spec fn spec_well_formed(spec: CliSpecView) -> bool {
    flags_named(spec.flags) && commands_named(spec.commands)
}

/// Whether every flag of `flags` has a name.
fn all_named(flags: &Vec<FlagSpec>) -> (r: bool)
    ensures
        r == flags_named(views(flags@)),
{
    let mut k: usize = 0;
    while k < flags.len()
        invariant
            k <= flags.len(),
            forall|j: int|
                0 <= j < k ==> (#[trigger] views(flags@)[j]).long is Some || views(
                    flags@,
                )[j].short is Some,
        decreases flags.len() - k,
    {
        if flags[k].long.is_none() && flags[k].short.is_none() {
            assert(!(views(flags@)[k as int].long is Some || views(flags@)[k as int].short
                is Some));
            return false;
        }
        k += 1;
    }
    true
}

/// Whether every flag of every command of `commands` has a name.
fn all_commands_named(commands: &Vec<CommandSpec>) -> (r: bool)
    ensures
        r == level_named(commands_view(commands@)),
{
    let ghost cs = commands_view(commands@);
    proof {
        lemma_commands_view(commands@);
    }
    let mut i: usize = 0;
    while i < commands.len()
        invariant
            i <= commands.len(),
            cs == commands_view(commands@),
            cs.len() == commands@.len(),
            forall|k: int| 0 <= k < commands@.len() ==> #[trigger] cs[k] == commands@[k]@,
            forall|a: int| 0 <= a < i ==> flags_named((#[trigger] cs[a]).flags),
        decreases commands.len() - i,
    {
        if !all_named(&commands[i].children.flags) {
            assert(!flags_named(cs[i as int].flags));
            return false;
        }
        i += 1;
    }
    true
}

impl CliSpec {
    /// Whether every flag that the generated source reads has a name.
    pub fn is_well_formed(&self) -> (r: bool)
        ensures
            r == spec_well_formed(self@),
    {
        let commands = &self.children.commands;
        if !all_named(&self.children.flags) || !all_commands_named(commands) {
            return false;
        }
        let ghost cs = commands_view(commands@);
        proof {
            lemma_commands_view(commands@);
        }
        let mut i: usize = 0;
        while i < commands.len()
            invariant
                i <= commands.len(),
                cs == commands_view(commands@),
                cs == self@.commands,
                flags_named(self@.flags),
                level_named(cs),
                cs.len() == commands@.len(),
                forall|k: int| 0 <= k < commands@.len() ==> #[trigger] cs[k] == commands@[k]@,
                forall|a: int| 0 <= a < i ==> level_named((#[trigger] cs[a]).commands),
            decreases commands.len() - i,
        {
            if !all_commands_named(&commands[i].children.commands) {
                assert(!level_named(cs[i as int].commands));
                return false;
            }
            i += 1;
        }
        true
    }
}

/// The name of a flag without its hyphens: that of its long name, or of its
/// short name where it has no long one.
pub open spec fn flag_key(flag: FlagSpecView) -> Seq<char> {
    without_hyphens(
        match flag.long {
            Some(long) => long,
            None => or_empty(flag.short),
        },
    )
}

/// Whether a flag is left out: the flag `help` unless the help flags are
/// kept, and the flag `verbose` unless the verbose flags are kept.
pub open spec fn is_left_out(name: Seq<char>, keep_help: bool, keep_verbose: bool) -> bool {
    (!keep_help && name == "help"@) || (!keep_verbose && name == "verbose"@)
}

/// A text for a string in double quotes: a backslash before every double
/// quote.
pub open spec fn quoted(text: Seq<char>) -> Seq<char> {
    spec_replace(text, seq!['"'], seq!['\\', '"'])
}

/// How the value of a flag is taken: set, for a type that holds a value,
/// and counted for every other.
pub open spec fn arg_action(data_type: Option<Seq<char>>) -> Seq<char> {
    if data_type == Some("string"@) || data_type == Some("stringArray"@) || data_type == Some(
        "uint"@,
    ) || data_type == Some("uint32"@) {
        "ArgAction::Set"@
    } else {
        "ArgAction::Count"@
    }
}

/// The call that gives an argument its short name; empty where the flag has
/// none.
pub open spec fn short_call(short: Option<Seq<char>>) -> Seq<char> {
    match short {
        Some(s) => ".short('"@ + without_hyphens(s) + "')"@,
        None => Seq::empty(),
    }
}

/// The call that gives an argument its long name; empty where the flag has
/// none.
pub open spec fn long_call(long: Option<Seq<char>>) -> Seq<char> {
    match long {
        Some(l) => ".long(\""@ + without_hyphens(l) + "\")"@,
        None => Seq::empty(),
    }
}

/// The call that adds a flag to a command.
pub open spec fn arg_call(flag: FlagSpecView) -> Seq<char> {
    ".arg(Arg::new(\""@ + flag_key(flag) + "\")"@ + short_call(flag.short) + long_call(flag.long)
        + ".help(\""@ + quoted(or_empty(flag.description)) + "\").action("@ + arg_action(
        flag.data_type,
    ) + ").required("@ + bool_text(
        match flag.required {
            Some(r) => r,
            None => false,
        },
    ) + "))"@
}

/// The calls that add the first `n` flags, those left out excepted, each
/// between `before` and `after`.
pub open spec fn arg_calls(
    flags: Seq<FlagSpecView>,
    keep_help: bool,
    keep_verbose: bool,
    before: Seq<char>,
    after: Seq<char>,
    n: int,
) -> Seq<char>
    decreases n,
{
    if n <= 0 || n > flags.len() {
        Seq::empty()
    } else if is_left_out(flag_key(flags[n - 1]), keep_help, keep_verbose) {
        arg_calls(flags, keep_help, keep_verbose, before, after, n - 1)
    } else {
        arg_calls(flags, keep_help, keep_verbose, before, after, n - 1) + before + arg_call(
            flags[n - 1],
        ) + after
    }
}

/// The expression that builds a command with its flags.
pub open spec fn command_head(command: CommandSpecView, keep_help: bool, keep_verbose: bool) -> Seq<
    char,
> {
    "Command::new(\""@ + command.name + "\").about(\""@ + quoted(command.description) + "\")"@
        + arg_calls(
        command.flags,
        keep_help,
        keep_verbose,
        Seq::empty(),
        Seq::empty(),
        command.flags.len() as int,
    )
}

/// The expressions that build the first `n` subcommands, a comma after
/// each.
pub open spec fn subcommand_builders(
    commands: Seq<CommandSpecView>,
    keep_help: bool,
    keep_verbose: bool,
    n: int,
) -> Seq<char>
    decreases n,
{
    if n <= 0 || n > commands.len() {
        Seq::empty()
    } else {
        subcommand_builders(commands, keep_help, keep_verbose, n - 1) + command_head(
            commands[n - 1],
            keep_help,
            keep_verbose,
        ) + ","@
    }
}

/// The expression that builds a command of the root, with its flags and
/// its subcommands.
pub open spec fn command_builder(command: CommandSpecView, keep_help: bool, keep_verbose: bool) -> Seq<
    char,
> {
    command_head(command, keep_help, keep_verbose) + (if command.commands.len() > 0 {
        ".subcommands(vec!["@ + subcommand_builders(
            command.commands,
            keep_help,
            keep_verbose,
            command.commands.len() as int,
        ) + "])"@
    } else {
        Seq::empty()
    })
}

/// The lines that build the first `n` commands of the root.
pub open spec fn command_builders(
    commands: Seq<CommandSpecView>,
    keep_help: bool,
    keep_verbose: bool,
    n: int,
) -> Seq<char>
    decreases n,
{
    if n <= 0 || n > commands.len() {
        Seq::empty()
    } else {
        command_builders(commands, keep_help, keep_verbose, n - 1) + "        "@
            + command_builder(commands[n - 1], keep_help, keep_verbose) + ",\n"@
    }
}

/// The source of the file that defines the command line.
pub open spec fn spec_cli_builder(spec: CliSpecView, keep_help: bool, keep_verbose: bool) -> Seq<
    char,
> {
    "use clap::{Command, Arg, ArgAction};\n\npub fn build_cli() -> Command {\n    let mut cmd = Command::new(\""@
        + spec.name + "\").version(\""@ + spec.version + "\").about(\""@ + quoted(
        spec.description,
    ) + "\");\n"@ + (if keep_help {
        Seq::empty()
    } else {
        "    cmd = cmd.disable_help_subcommand(true);\n"@
    }) + "\n    // Global flags\n"@ + arg_calls(
        spec.flags,
        keep_help,
        keep_verbose,
        "    cmd = cmd"@,
        ";\n"@,
        spec.flags.len() as int,
    ) + "\n    cmd = cmd.subcommands(vec![\n"@ + command_builders(
        spec.commands,
        keep_help,
        keep_verbose,
        spec.commands.len() as int,
    ) + "    ]);\n    cmd\n}\n"@
}

/// The text of an optional string, empty where there is none.
fn str_or_empty(o: &Option<String>) -> (r: &str)
    ensures
        r@ == or_empty(option_view(*o)),
{
    proof {
        reveal_strlit("");
    }
    match o {
        Some(s) => s.as_str(),
        None => "",
    }
}

/// The name of a flag without its hyphens.
fn key_of(flag: &FlagSpec) -> (r: Vec<char>)
    ensures
        r@ == flag_key(flag@),
{
    let name = match &flag.long {
        Some(long) => to_chars(long.as_str()),
        None => to_chars(str_or_empty(&flag.short)),
    };
    strip_hyphens(&name)
}

/// Whether the flag of the name `name` is left out.
fn left_out(name: &Vec<char>, keep_help: bool, keep_verbose: bool) -> (r: bool)
    ensures
        r == is_left_out(name@, keep_help, keep_verbose),
{
    let text = from_chars(name);
    (!keep_help && str_equal(text.as_str(), "help")) || (!keep_verbose && str_equal(
        text.as_str(),
        "verbose",
    ))
}

/// A text for a string in double quotes.
fn quote(text: &str) -> (r: Vec<char>)
    ensures
        r@ == quoted(text@),
{
    let mark: Vec<char> = vec!['"'];
    let escaped: Vec<char> = vec!['\\', '"'];
    assert(mark@ =~= seq!['"']);
    assert(escaped@ =~= seq!['\\', '"']);
    replace(&to_chars(text), &mark, &escaped)
}

/// Whether an optional string holds the text `text`.
fn is_text(o: &Option<String>, text: &str) -> (r: bool)
    ensures
        r == (option_view(*o) == Some(text@)),
{
    match o {
        Some(s) => str_equal(s.as_str(), text),
        None => false,
    }
}

/// How the value of a flag is taken.
fn action_of(data_type: &Option<String>) -> (r: &'static str)
    ensures
        r@ == arg_action(option_view(*data_type)),
{
    if is_text(data_type, "string") || is_text(data_type, "stringArray") || is_text(
        data_type,
        "uint",
    ) || is_text(data_type, "uint32") {
        "ArgAction::Set"
    } else {
        "ArgAction::Count"
    }
}

/// The text `true` or `false`.
fn text_of_bool(b: bool) -> (r: &'static str)
    ensures
        r@ == bool_text(b),
{
    if b {
        "true"
    } else {
        "false"
    }
}

/// The call that adds a flag to a command.
fn arg_call_chars(flag: &FlagSpec) -> (r: Vec<char>)
    ensures
        r@ == arg_call(flag@),
{
    let mut short: Vec<char> = Vec::new();
    match &flag.short {
        Some(s) => {
            short = to_chars(".short('");
            push_chars(&mut short, &strip_hyphens(&to_chars(s.as_str())));
            push_str(&mut short, "')");
        },
        None => {},
    }
    let mut long: Vec<char> = Vec::new();
    match &flag.long {
        Some(l) => {
            long = to_chars(".long(\"");
            push_chars(&mut long, &strip_hyphens(&to_chars(l.as_str())));
            push_str(&mut long, "\")");
        },
        None => {},
    }
    let required = match flag.required {
        Some(r) => r,
        None => false,
    };
    let mut out = to_chars(".arg(Arg::new(\"");
    push_chars(&mut out, &key_of(flag));
    push_str(&mut out, "\")");
    push_chars(&mut out, &short);
    push_chars(&mut out, &long);
    push_str(&mut out, ".help(\"");
    push_chars(&mut out, &quote(str_or_empty(&flag.description)));
    push_str(&mut out, "\").action(");
    push_str(&mut out, action_of(&flag.data_type));
    push_str(&mut out, ").required(");
    push_str(&mut out, text_of_bool(required));
    push_str(&mut out, "))");
    out
}

/// The calls that add the flags `flags`, those left out excepted, each
/// between `before` and `after`.
fn arg_calls_chars(
    flags: &Vec<FlagSpec>,
    keep_help: bool,
    keep_verbose: bool,
    before: &str,
    after: &str,
) -> (r: Vec<char>)
    ensures
        r@ == arg_calls(
            views(flags@),
            keep_help,
            keep_verbose,
            before@,
            after@,
            flags@.len() as int,
        ),
{
    let mut out: Vec<char> = Vec::new();
    let mut i: usize = 0;
    while i < flags.len()
        invariant
            i <= flags.len(),
            out@ == arg_calls(views(flags@), keep_help, keep_verbose, before@, after@, i as int),
        decreases flags.len() - i,
    {
        if !left_out(&key_of(&flags[i]), keep_help, keep_verbose) {
            push_str(&mut out, before);
            push_chars(&mut out, &arg_call_chars(&flags[i]));
            push_str(&mut out, after);
        }
        i += 1;
    }
    out
}

/// The expression that builds a command with its flags.
fn command_head_chars(command: &CommandSpec, keep_help: bool, keep_verbose: bool) -> (r: Vec<
    char,
>)
    ensures
        r@ == command_head(command@, keep_help, keep_verbose),
{
    proof {
        reveal_strlit("");
        assert(""@ =~= Seq::<char>::empty());
    }
    let mut out = to_chars("Command::new(\"");
    push_str(&mut out, command.name.as_str());
    push_str(&mut out, "\").about(\"");
    push_chars(&mut out, &quote(command.description.as_str()));
    push_str(&mut out, "\")");
    push_chars(&mut out, &arg_calls_chars(&command.children.flags, keep_help, keep_verbose, "", ""));
    out
}

/// The expression that builds a command of the root.
fn command_builder_chars(command: &CommandSpec, keep_help: bool, keep_verbose: bool) -> (r: Vec<
    char,
>)
    ensures
        r@ == command_builder(command@, keep_help, keep_verbose),
{
    let subs = &command.children.commands;
    let ghost ss = commands_view(subs@);
    proof {
        lemma_commands_view(subs@);
    }
    let mut nested: Vec<char> = Vec::new();
    if subs.len() > 0 {
        let mut builders: Vec<char> = Vec::new();
        let mut j: usize = 0;
        while j < subs.len()
            invariant
                j <= subs.len(),
                ss == commands_view(subs@),
                ss.len() == subs@.len(),
                forall|k: int| 0 <= k < subs@.len() ==> #[trigger] ss[k] == subs@[k]@,
                builders@ == subcommand_builders(ss, keep_help, keep_verbose, j as int),
            decreases subs.len() - j,
        {
            push_chars(&mut builders, &command_head_chars(&subs[j], keep_help, keep_verbose));
            push_str(&mut builders, ",");
            j += 1;
        }
        nested = to_chars(".subcommands(vec![");
        push_chars(&mut nested, &builders);
        push_str(&mut nested, "])");
    }
    let mut out = command_head_chars(command, keep_help, keep_verbose);
    push_chars(&mut out, &nested);
    out
}

/// The source of the file that defines the command line of the program:
/// the root with its name, version and description, its flags, and its
/// commands with their flags and subcommands.
pub fn generate_cli_builder(spec: &CliSpec, keep_help: bool, keep_verbose: bool) -> (r: String)
    requires
        spec_well_formed(spec@),
    ensures
        r@ == spec_cli_builder(spec@, keep_help, keep_verbose),
{
    let commands = &spec.children.commands;
    let ghost cs = commands_view(commands@);
    proof {
        lemma_commands_view(commands@);
    }
    let mut builders: Vec<char> = Vec::new();
    let mut i: usize = 0;
    while i < commands.len()
        invariant
            i <= commands.len(),
            cs == commands_view(commands@),
            cs.len() == commands@.len(),
            forall|k: int| 0 <= k < commands@.len() ==> #[trigger] cs[k] == commands@[k]@,
            builders@ == command_builders(cs, keep_help, keep_verbose, i as int),
        decreases commands.len() - i,
    {
        push_str(&mut builders, "        ");
        push_chars(&mut builders, &command_builder_chars(&commands[i], keep_help, keep_verbose));
        push_str(&mut builders, ",\n");
        i += 1;
    }
    let mut no_help: Vec<char> = Vec::new();
    if !keep_help {
        no_help = to_chars("    cmd = cmd.disable_help_subcommand(true);\n");
    }
    let mut out = to_chars(
        "use clap::{Command, Arg, ArgAction};\n\npub fn build_cli() -> Command {\n    let mut cmd = Command::new(\"",
    );
    push_str(&mut out, spec.name.as_str());
    push_str(&mut out, "\").version(\"");
    push_str(&mut out, spec.version.as_str());
    push_str(&mut out, "\").about(\"");
    push_chars(&mut out, &quote(spec.description.as_str()));
    push_str(&mut out, "\");\n");
    push_chars(&mut out, &no_help);
    push_str(&mut out, "\n    // Global flags\n");
    push_chars(
        &mut out,
        &arg_calls_chars(&spec.children.flags, keep_help, keep_verbose, "    cmd = cmd", ";\n"),
    );
    push_str(&mut out, "\n    cmd = cmd.subcommands(vec![\n");
    push_chars(&mut out, &builders);
    push_str(&mut out, "    ]);\n    cmd\n}\n");
    from_chars(&out)
}

/// The name of the variable that holds the value of a flag: the name of
/// the flag with `_` for every `-`.
pub open spec fn flag_variable(flag: FlagSpecView) -> Seq<char> {
    spec_replace(flag_key(flag), seq!['-'], seq!['_'])
}

/// The statement that reads the value of a flag of a command of the root
/// from the matches `sub_m`.
pub open spec fn command_flag_line(flag: FlagSpecView) -> Seq<char> {
    let v = flag_variable(flag);
    let k = flag_key(flag);
    if flag.data_type == Some("string"@) {
        "            let "@ + v + ": String = sub_m.get_one::<String>(\""@ + k
            + "\").cloned().unwrap_or_else(|| \"mock_value\".to_string());"@
    } else if flag.data_type == Some("stringArray"@) {
        "            let "@ + v + ": Vec<String> = sub_m.get_many::<String>(\""@ + k
            + "\").map(|vals| vals.cloned().collect()).unwrap_or_else(|| vec![\"mock_value\".to_string()]);"@
    } else if flag.data_type == Some("uint"@) || flag.data_type == Some("uint32"@) {
        "            let "@ + v + ": u32 = sub_m.get_one::<u32>(\""@ + k
            + "\").copied().unwrap_or(0);"@
    } else {
        "            let "@ + v + ": bool = sub_m.get_flag(\""@ + k + "\");"@
    }
}

/// The statement that reads the value of a flag of a subcommand from the
/// matches `sub_sub_m`.
pub open spec fn subcommand_flag_line(flag: FlagSpecView) -> Seq<char> {
    let v = flag_variable(flag);
    let k = flag_key(flag);
    if flag.data_type == Some("string"@) {
        "                    let "@ + v + ": String = sub_sub_m.get_one::<String>(\""@ + k
            + "\").cloned().unwrap_or_default();"@
    } else if flag.data_type == Some("stringArray"@) {
        "                    let "@ + v + ": Vec<String> = sub_sub_m.get_many::<String>(\""@ + k
            + "\").map(|vals| vals.cloned().collect()).unwrap_or_default();"@
    } else if flag.data_type == Some("uint"@) || flag.data_type == Some("uint32"@) {
        "                    let "@ + v + ": u32 = sub_sub_m.get_one::<u32>(\""@ + k
            + "\").copied().unwrap_or_default();"@
    } else {
        "                    let "@ + v + ": bool = sub_sub_m.get_flag(\""@ + k + "\");"@
    }
}

/// The statements that read the first `n` flags, those left out excepted,
/// one on each line: of a subcommand if `nested`, else of a command of the
/// root.
pub open spec fn flag_lines(
    flags: Seq<FlagSpecView>,
    keep_help: bool,
    keep_verbose: bool,
    nested: bool,
    n: int,
) -> Seq<char>
    decreases n,
{
    if n <= 0 || n > flags.len() {
        Seq::empty()
    } else if is_left_out(flag_variable(flags[n - 1]), keep_help, keep_verbose) {
        flag_lines(flags, keep_help, keep_verbose, nested, n - 1)
    } else {
        flag_lines(flags, keep_help, keep_verbose, nested, n - 1) + (if nested {
            subcommand_flag_line(flags[n - 1])
        } else {
            command_flag_line(flags[n - 1])
        }) + "\n"@
    }
}

/// The arms of the match on the first `n` subcommands of the command
/// `command_name`.
pub open spec fn subcommand_arms(
    commands: Seq<CommandSpecView>,
    command_name: Seq<char>,
    keep_help: bool,
    keep_verbose: bool,
    n: int,
) -> Seq<char>
    decreases n,
{
    if n <= 0 || n > commands.len() {
        Seq::empty()
    } else {
        subcommand_arms(commands, command_name, keep_help, keep_verbose, n - 1)
            + "                Some((\""@ + commands[n - 1].name + "\", sub_sub_m)) => {\n"@
            + flag_lines(
            commands[n - 1].flags,
            keep_help,
            keep_verbose,
            true,
            commands[n - 1].flags.len() as int,
        ) + "                    println!(\"Called "@ + command_name + " "@ + commands[n - 1].name
            + " with args: {:?}\", sub_sub_m);\n                }\n"@
    }
}

/// What the arm of a command of the root does: it matches on the
/// subcommands, and prints the help of the command where none is given; a
/// command without subcommands only says that it was called.
pub open spec fn command_body(command: CommandSpecView, keep_help: bool, keep_verbose: bool) -> Seq<
    char,
> {
    if command.commands.len() > 0 {
        "            match sub_m.subcommand() {\n"@ + subcommand_arms(
            command.commands,
            command.name,
            keep_help,
            keep_verbose,
            command.commands.len() as int,
        ) + "                                _ => {\n                    match cmd.clone().find_subcommand_mut(\""@
            + command.name
            + "\") {\n                        Some(c) => { c.print_help().expect(\"Failed to print help\"); },\n                        _ => std::process::exit(1),\n                    }\n                }\n            }\n"@
    } else {
        "            println!(\"Called "@ + command.name + " with args: {:?}\", sub_m);\n"@
    }
}

/// The arms of the match on the first `n` commands of the root.
pub open spec fn command_arms(
    commands: Seq<CommandSpecView>,
    keep_help: bool,
    keep_verbose: bool,
    n: int,
) -> Seq<char>
    decreases n,
{
    if n <= 0 || n > commands.len() {
        Seq::empty()
    } else {
        command_arms(commands, keep_help, keep_verbose, n - 1) + "        Some((\""@
            + commands[n - 1].name + "\", sub_m)) => {\n"@ + flag_lines(
            commands[n - 1].flags,
            keep_help,
            keep_verbose,
            false,
            commands[n - 1].flags.len() as int,
        ) + command_body(commands[n - 1], keep_help, keep_verbose) + "        }\n"@
    }
}

/// The source of `main`: it builds the command line, matches on the
/// subcommand given, and prints the help where none is.
pub open spec fn spec_main_builder(spec: CliSpecView, keep_help: bool, keep_verbose: bool) -> Seq<
    char,
> {
    "mod cli;\nuse cli::build_cli;\n\nfn main() {\n    let mut cmd = build_cli();\n    let matches = cmd.clone().try_get_matches().unwrap_or_else(|e| e.exit());\n    match matches.subcommand() {\n"@
        + command_arms(spec.commands, keep_help, keep_verbose, spec.commands.len() as int)
        + "        _ => { cmd.print_help().expect(\"Failed to print help\"); }\n    }\n}"@
}

/// The name of the variable that holds the value of a flag.
fn variable_of(flag: &FlagSpec) -> (r: Vec<char>)
    ensures
        r@ == flag_variable(flag@),
{
    let hyphen: Vec<char> = vec!['-'];
    let underscore: Vec<char> = vec!['_'];
    assert(hyphen@ =~= seq!['-']);
    assert(underscore@ =~= seq!['_']);
    replace(&key_of(flag), &hyphen, &underscore)
}

/// The statement that reads the value of a flag.
fn flag_line_chars(flag: &FlagSpec, nested: bool) -> (r: Vec<char>)
    ensures
        r@ == (if nested {
            subcommand_flag_line(flag@)
        } else {
            command_flag_line(flag@)
        }),
{
    let v = variable_of(flag);
    let k = key_of(flag);
    let mut out = if nested {
        to_chars("                    let ")
    } else {
        to_chars("            let ")
    };
    push_chars(&mut out, &v);
    if is_text(&flag.data_type, "string") {
        if nested {
            push_str(&mut out, ": String = sub_sub_m.get_one::<String>(\"");
            push_chars(&mut out, &k);
            push_str(&mut out, "\").cloned().unwrap_or_default();");
        } else {
            push_str(&mut out, ": String = sub_m.get_one::<String>(\"");
            push_chars(&mut out, &k);
            push_str(
                &mut out,
                "\").cloned().unwrap_or_else(|| \"mock_value\".to_string());",
            );
        }
    } else if is_text(&flag.data_type, "stringArray") {
        if nested {
            push_str(&mut out, ": Vec<String> = sub_sub_m.get_many::<String>(\"");
            push_chars(&mut out, &k);
            push_str(
                &mut out,
                "\").map(|vals| vals.cloned().collect()).unwrap_or_default();",
            );
        } else {
            push_str(&mut out, ": Vec<String> = sub_m.get_many::<String>(\"");
            push_chars(&mut out, &k);
            push_str(
                &mut out,
                "\").map(|vals| vals.cloned().collect()).unwrap_or_else(|| vec![\"mock_value\".to_string()]);",
            );
        }
    } else if is_text(&flag.data_type, "uint") || is_text(&flag.data_type, "uint32") {
        if nested {
            push_str(&mut out, ": u32 = sub_sub_m.get_one::<u32>(\"");
            push_chars(&mut out, &k);
            push_str(&mut out, "\").copied().unwrap_or_default();");
        } else {
            push_str(&mut out, ": u32 = sub_m.get_one::<u32>(\"");
            push_chars(&mut out, &k);
            push_str(&mut out, "\").copied().unwrap_or(0);");
        }
    } else {
        if nested {
            push_str(&mut out, ": bool = sub_sub_m.get_flag(\"");
        } else {
            push_str(&mut out, ": bool = sub_m.get_flag(\"");
        }
        push_chars(&mut out, &k);
        push_str(&mut out, "\");");
    }
    out
}

/// The statements that read the flags `flags`, those left out excepted.
fn flag_lines_chars(flags: &Vec<FlagSpec>, keep_help: bool, keep_verbose: bool, nested: bool) -> (r:
    Vec<char>)
    ensures
        r@ == flag_lines(views(flags@), keep_help, keep_verbose, nested, flags@.len() as int),
{
    let mut out: Vec<char> = Vec::new();
    let mut i: usize = 0;
    while i < flags.len()
        invariant
            i <= flags.len(),
            out@ == flag_lines(views(flags@), keep_help, keep_verbose, nested, i as int),
        decreases flags.len() - i,
    {
        if !left_out(&variable_of(&flags[i]), keep_help, keep_verbose) {
            push_chars(&mut out, &flag_line_chars(&flags[i], nested));
            push_str(&mut out, "\n");
        }
        i += 1;
    }
    out
}

/// What the arm of a command of the root does.
fn command_body_chars(command: &CommandSpec, keep_help: bool, keep_verbose: bool) -> (r: Vec<
    char,
>)
    ensures
        r@ == command_body(command@, keep_help, keep_verbose),
{
    let subs = &command.children.commands;
    let ghost ss = commands_view(subs@);
    proof {
        lemma_commands_view(subs@);
    }
    if subs.len() > 0 {
        let mut arms: Vec<char> = Vec::new();
        let mut j: usize = 0;
        while j < subs.len()
            invariant
                j <= subs.len(),
                ss == commands_view(subs@),
                ss.len() == subs@.len(),
                forall|k: int| 0 <= k < subs@.len() ==> #[trigger] ss[k] == subs@[k]@,
                arms@ == subcommand_arms(ss, command@.name, keep_help, keep_verbose, j as int),
            decreases subs.len() - j,
        {
            push_str(&mut arms, "                Some((\"");
            push_str(&mut arms, subs[j].name.as_str());
            push_str(&mut arms, "\", sub_sub_m)) => {\n");
            push_chars(
                &mut arms,
                &flag_lines_chars(&subs[j].children.flags, keep_help, keep_verbose, true),
            );
            push_str(&mut arms, "                    println!(\"Called ");
            push_str(&mut arms, command.name.as_str());
            push_str(&mut arms, " ");
            push_str(&mut arms, subs[j].name.as_str());
            push_str(&mut arms, " with args: {:?}\", sub_sub_m);\n                }\n");
            j += 1;
        }
        let mut out = to_chars("            match sub_m.subcommand() {\n");
        push_chars(&mut out, &arms);
        push_str(
            &mut out,
            "                                _ => {\n                    match cmd.clone().find_subcommand_mut(\"",
        );
        push_str(&mut out, command.name.as_str());
        push_str(
            &mut out,
            "\") {\n                        Some(c) => { c.print_help().expect(\"Failed to print help\"); },\n                        _ => std::process::exit(1),\n                    }\n                }\n            }\n",
        );
        out
    } else {
        let mut out = to_chars("            println!(\"Called ");
        push_str(&mut out, command.name.as_str());
        push_str(&mut out, " with args: {:?}\", sub_m);\n");
        out
    }
}

/// The source of `main` of the program.
pub fn generate_main_builder(spec: &CliSpec, keep_help: bool, keep_verbose: bool) -> (r: String)
    requires
        spec_well_formed(spec@),
    ensures
        r@ == spec_main_builder(spec@, keep_help, keep_verbose),
{
    let commands = &spec.children.commands;
    let ghost cs = commands_view(commands@);
    proof {
        lemma_commands_view(commands@);
    }
    let mut arms: Vec<char> = Vec::new();
    let mut i: usize = 0;
    while i < commands.len()
        invariant
            i <= commands.len(),
            cs == commands_view(commands@),
            cs.len() == commands@.len(),
            forall|k: int| 0 <= k < commands@.len() ==> #[trigger] cs[k] == commands@[k]@,
            arms@ == command_arms(cs, keep_help, keep_verbose, i as int),
        decreases commands.len() - i,
    {
        push_str(&mut arms, "        Some((\"");
        push_str(&mut arms, commands[i].name.as_str());
        push_str(&mut arms, "\", sub_m)) => {\n");
        push_chars(
            &mut arms,
            &flag_lines_chars(&commands[i].children.flags, keep_help, keep_verbose, false),
        );
        push_chars(&mut arms, &command_body_chars(&commands[i], keep_help, keep_verbose));
        push_str(&mut arms, "        }\n");
        i += 1;
    }
    let mut out = to_chars(
        "mod cli;\nuse cli::build_cli;\n\nfn main() {\n    let mut cmd = build_cli();\n    let matches = cmd.clone().try_get_matches().unwrap_or_else(|e| e.exit());\n    match matches.subcommand() {\n",
    );
    push_chars(&mut out, &arms);
    push_str(
        &mut out,
        "        _ => { cmd.print_help().expect(\"Failed to print help\"); }\n    }\n}",
    );
    from_chars(&out)
}

/// A source file of the program: its path below the directory of the
/// program, with `/` between its parts, and its contents.
#[derive(Debug)]
pub struct SourceFile {
    pub path: String,
    pub content: String,
}

/// The mathematical value of a [`SourceFile`].
pub struct SourceFileView {
    pub path: Seq<char>,
    pub content: Seq<char>,
}

impl View for SourceFile {
    type V = SourceFileView;

    open spec fn view(&self) -> SourceFileView {
        SourceFileView { path: self.path@, content: self.content@ }
    }
}

/// The files of the handlers of the first `n` commands of the root.
pub open spec fn handler_files(commands: Seq<CommandSpecView>, n: int) -> Seq<SourceFileView>
    decreases n,
{
    if n <= 0 || n > commands.len() {
        Seq::empty()
    } else {
        handler_files(commands, n - 1).push(
            SourceFileView {
                path: "src/commands/"@ + commands[n - 1].name + ".rs"@,
                content: spec_handler_file(commands[n - 1]),
            },
        )
    }
}

/// The source files of the program: the definition of the command line,
/// `main`, and the handlers of each command of the root.
pub open spec fn spec_source_files(spec: CliSpecView, keep_help: bool, keep_verbose: bool) -> Seq<
    SourceFileView,
> {
    seq![
        SourceFileView {
            path: "src/cli.rs"@,
            content: spec_cli_builder(spec, keep_help, keep_verbose),
        },
        SourceFileView {
            path: "src/main.rs"@,
            content: spec_main_builder(spec, keep_help, keep_verbose),
        },
    ] + handler_files(spec.commands, spec.commands.len() as int)
}

/// Why no program can be written for a tree.
#[derive(Debug, Clone, Copy, PartialEq, Eq, Structural)]
pub enum ReplicateError {
    /// A flag has neither a long nor a short name.
    FlagWithoutName,
}

/// The source files of a program that takes the commands and flags of the
/// tree `spec`; none where a flag of the tree has no name.
pub fn replicate(spec: &CliSpec, keep_help_flags: bool, keep_verbose_flags: bool) -> (r: Result<
    Vec<SourceFile>,
    ReplicateError,
>)
    ensures
        match r {
            Ok(files) => spec_well_formed(spec@) && views(files@) == spec_source_files(
                spec@,
                keep_help_flags,
                keep_verbose_flags,
            ),
            Err(e) => !spec_well_formed(spec@),
        },
{
    if !spec.is_well_formed() {
        return Err(ReplicateError::FlagWithoutName);
    }
    let mut files: Vec<SourceFile> = vec![
        SourceFile {
            path: String::from_str("src/cli.rs"),
            content: generate_cli_builder(spec, keep_help_flags, keep_verbose_flags),
        },
        SourceFile {
            path: String::from_str("src/main.rs"),
            content: generate_main_builder(spec, keep_help_flags, keep_verbose_flags),
        },
    ];
    let ghost first = views(files@);
    let commands = &spec.children.commands;
    let ghost cs = commands_view(commands@);
    proof {
        lemma_commands_view(commands@);
    }
    let mut i: usize = 0;
    assert(views(files@) =~= first + handler_files(cs, 0));
    while i < commands.len()
        invariant
            i <= commands.len(),
            cs == commands_view(commands@),
            cs.len() == commands@.len(),
            forall|k: int| 0 <= k < commands@.len() ==> #[trigger] cs[k] == commands@[k]@,
            views(files@) == first + handler_files(cs, i as int),
        decreases commands.len() - i,
    {
        let mut path = to_chars("src/commands/");
        push_str(&mut path, commands[i].name.as_str());
        push_str(&mut path, ".rs");
        let file = SourceFile {
            path: from_chars(&path),
            content: handler_file_content(&commands[i]),
        };
        proof {
            crate::words::lemma_views_push(files@, file);
            assert((first + handler_files(cs, i as int)).push(file@) =~= first + handler_files(
                cs,
                i as int,
            ).push(file@));
        }
        files.push(file);
        i += 1;
    }
    assert(first =~= seq![
        SourceFileView {
            path: "src/cli.rs"@,
            content: spec_cli_builder(spec@, keep_help_flags, keep_verbose_flags),
        },
        SourceFileView {
            path: "src/main.rs"@,
            content: spec_main_builder(spec@, keep_help_flags, keep_verbose_flags),
        },
    ]);
    Ok(files)
}

/// The handler of a command, or of a subcommand, of the name `name`, which
/// is called as `called`.
pub open spec fn handler_text(name: Seq<char>, called: Seq<char>) -> Seq<char> {
    "pub fn handle_"@ + name
        + "(matches: &ArgMatches, print_help: impl Fn()) {    if matches.args_present() {\n        println!(\"Called "@
        + called + " with args: {:?}\", matches);\n    } else {\n        print_help();\n    }\n}\n\n"@
}

/// The handlers of the first `n` subcommands of the command `command_name`.
pub open spec fn subcommand_handlers(commands: Seq<CommandSpecView>, command_name: Seq<char>, n: int) -> Seq<
    char,
>
    decreases n,
{
    if n <= 0 || n > commands.len() {
        Seq::empty()
    } else {
        subcommand_handlers(commands, command_name, n - 1) + handler_text(
            command_name + "_"@ + commands[n - 1].name,
            command_name + " "@ + commands[n - 1].name,
        )
    }
}

/// The source of the file of the handlers of a command: its own handler,
/// and one for each of its subcommands.
pub open spec fn spec_handler_file(command: CommandSpecView) -> Seq<char> {
    "use clap::ArgMatches;\n\n"@ + handler_text(command.name, command.name) + subcommand_handlers(
        command.commands,
        command.name,
        command.commands.len() as int,
    )
}

/// The handler of the name `name`, which is called as `called`.
fn handler_chars(name: &Vec<char>, called: &Vec<char>) -> (r: Vec<char>)
    ensures
        r@ == handler_text(name@, called@),
{
    let mut out = to_chars("pub fn handle_");
    push_chars(&mut out, name);
    push_str(
        &mut out,
        "(matches: &ArgMatches, print_help: impl Fn()) {    if matches.args_present() {\n        println!(\"Called ",
    );
    push_chars(&mut out, called);
    push_str(
        &mut out,
        " with args: {:?}\", matches);\n    } else {\n        print_help();\n    }\n}\n\n",
    );
    out
}

/// The source of the file of the handlers of a command.
pub fn handler_file_content(command: &CommandSpec) -> (r: String)
    ensures
        r@ == spec_handler_file(command@),
{
    let subs = &command.children.commands;
    let ghost ss = commands_view(subs@);
    proof {
        lemma_commands_view(subs@);
    }
    let name = to_chars(command.name.as_str());
    let mut handlers: Vec<char> = Vec::new();
    let mut j: usize = 0;
    while j < subs.len()
        invariant
            j <= subs.len(),
            name@ == command@.name,
            ss == commands_view(subs@),
            ss.len() == subs@.len(),
            forall|k: int| 0 <= k < subs@.len() ==> #[trigger] ss[k] == subs@[k]@,
            handlers@ == subcommand_handlers(ss, command@.name, j as int),
        decreases subs.len() - j,
    {
        let mut function = crate::text::copy_chars(&name);
        push_str(&mut function, "_");
        push_str(&mut function, subs[j].name.as_str());
        let mut called = crate::text::copy_chars(&name);
        push_str(&mut called, " ");
        push_str(&mut called, subs[j].name.as_str());
        push_chars(&mut handlers, &handler_chars(&function, &called));
        j += 1;
    }
    let mut out = to_chars("use clap::ArgMatches;\n\n");
    push_chars(&mut out, &handler_chars(&name, &name));
    push_chars(&mut out, &handlers);
    from_chars(&out)
}

} // verus!
