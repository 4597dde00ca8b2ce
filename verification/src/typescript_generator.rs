//! The TypeScript files of a command tree: one file for each command, with
//! its flags, its arguments and its subcommands, and an index of them all.
//!
//! Nothing is written here. The files are given as paths and contents, in
//! the order in which they are to be written.
use vstd::prelude::*;
use crate::cli_navigator_toolkit::{
    argument_keyword, check_flag_in_usage_string, escape_chars,
    extract_data_type_from_description, extract_default_value, is_argument_keyword,
    is_key_value_mapping, sanitize_filename, sanitize_js_variable_name, spec_default_value,
    spec_escape_string, spec_flag_required_by_usage, spec_is_key_value_mapping,
    spec_sanitize_filename, spec_sanitize_js_variable_name, spec_to_pascal_case, split_data_type,
    strip_hyphens, to_pascal_case, without_hyphens,
};
use crate::comparison::or_empty;
use crate::models::{
    LineFlag, LineFlagView, LineUsage, LineUsageView, UsageComponentView, components_view,
    lemma_components_view, option_view,
};
use crate::sorting::{sort_order, sorted_order};
use crate::text::{
    contains, from_chars, lowercase, matches_at, push_chars, push_str, spec_contains,
    spec_ends_with, spec_starts_with, str_equal, to_chars, uppercase,
};
use crate::tree::{Children, ChildrenView, CstNode, CstNodeView, lemma_nodes_view, nodes_view};
use crate::words::{lemma_views_push, views};

verus! {

/// What the file of a command says of one flag.
#[derive(Debug)]
pub struct FlagObject {
    pub long_flag: String,
    pub short_flag: String,
    pub data_type_enum: String,
    pub clean_description: String,
    pub default_value: Option<String>,
    pub is_required: bool,
}

/// The mathematical value of a [`FlagObject`].
pub struct FlagObjectView {
    pub long_flag: Seq<char>,
    pub short_flag: Seq<char>,
    pub data_type_enum: Seq<char>,
    pub clean_description: Seq<char>,
    pub default_value: Option<Seq<char>>,
    pub is_required: bool,
}

impl View for FlagObject {
    type V = FlagObjectView;

    open spec fn view(&self) -> FlagObjectView {
        FlagObjectView {
            long_flag: self.long_flag@,
            short_flag: self.short_flag@,
            data_type_enum: self.data_type_enum@,
            clean_description: self.clean_description@,
            default_value: option_view(self.default_value),
            is_required: self.is_required,
        }
    }
}

/// The TypeScript type that the name of a type of value stands for.
pub open spec fn type_enum_of(name: Seq<char>, clean_description: Seq<char>) -> Seq<char> {
    if name == "stringArray"@ {
        if spec_is_key_value_mapping(clean_description) {
            "CommandComponentDataType.KEY_VALUE_MAPPING"@
        } else {
            "[CommandComponentDataType.STRING]"@
        }
    } else if name == "stringToString"@ {
        "CommandComponentDataType.KEY_VALUE_MAPPING"@
    } else if name == "uint"@ || name == "int"@ {
        "CommandComponentDataType.INTEGER"@
    } else if name == "bool"@ {
        "CommandComponentDataType.BOOLEAN"@
    } else if name == "float"@ {
        "CommandComponentDataType.FLOAT"@
    } else {
        "CommandComponentDataType.STRING"@
    }
}

/// The TypeScript type of the value of a flag: that of its type where it
/// has one, else that of the type its description starts with, else a
/// boolean for `--help`, for a description that starts with `help for` and
/// for a flag `--no-...`, and a string for every other flag.
pub open spec fn spec_data_type_enum(
    data_type: Seq<char>,
    extracted: Seq<char>,
    clean_description: Seq<char>,
    long_flag: Seq<char>,
) -> Seq<char> {
    if data_type.len() > 0 {
        type_enum_of(data_type, clean_description)
    } else if extracted.len() > 0 {
        type_enum_of(extracted, clean_description)
    } else if long_flag == "--help"@ || spec_starts_with(clean_description, "help for"@)
        || spec_starts_with(long_flag, "--no-"@) {
        "CommandComponentDataType.BOOLEAN"@
    } else {
        "CommandComponentDataType.STRING"@
    }
}

/// Whether a flag is taken as required.
///
/// It is not where its description names a default (`(default`, `default
/// is`, `defaults to`), where it is `--help`, or where its description
/// starts with `help for`. Else it is where its description says so
/// (`required`, `mandatory`, `must be provided`, `must specify`). Else the
/// usage line of the command decides.
pub open spec fn spec_flag_is_required(
    description: Seq<char>,
    usage: Seq<char>,
    long_flag: Seq<char>,
    short_flag: Seq<char>,
) -> bool {
    let lower = lowercase(description);
    if spec_contains(description, "(default"@) || spec_contains(lower, "default is"@)
        || spec_contains(lower, "defaults to"@) || long_flag == "--help"@ || spec_starts_with(
        description,
        "help for"@,
    ) {
        false
    } else if spec_contains(lower, "required"@) || spec_contains(lower, "mandatory"@)
        || spec_contains(lower, "must be provided"@) || spec_contains(lower, "must specify"@)
        || spec_ends_with(description, "(required)"@) || spec_ends_with(
        description,
        "(mandatory)"@,
    ) {
        true
    } else {
        spec_flag_required_by_usage(usage, long_flag, short_flag)
    }
}

/// What the file of a command says of a flag that has a long name, given
/// the usage line of the command.
pub open spec fn spec_flag_object(flag: LineFlagView, usage: Seq<char>) -> FlagObjectView {
    let long_flag = or_empty(flag.long);
    let short_flag = or_empty(flag.short);
    let description = or_empty(flag.description);
    let split = split_data_type(description, 0);
    FlagObjectView {
        long_flag,
        short_flag,
        data_type_enum: spec_data_type_enum(or_empty(flag.data_type), split.1, split.0, long_flag),
        clean_description: split.0,
        default_value: spec_default_value(split.0),
        is_required: spec_flag_is_required(description, usage, long_flag, short_flag),
    }
}

/// What the file of a command says of the first `n` of its flags: of each
/// that has a long name, in their order.
pub open spec fn flag_objects(flags: Seq<LineFlagView>, usage: Seq<char>, n: int) -> Seq<
    FlagObjectView,
>
    decreases n,
{
    if n <= 0 || n > flags.len() {
        Seq::empty()
    } else if flags[n - 1].long is Some {
        flag_objects(flags, usage, n - 1).push(spec_flag_object(flags[n - 1], usage))
    } else {
        flag_objects(flags, usage, n - 1)
    }
}

/// Whether the text `text` holds the word `word`.
fn holds(text: &Vec<char>, word: &str) -> (r: bool)
    ensures
        r == spec_contains(text@, word@),
{
    let w = to_chars(word);
    contains(text, &w)
}

/// Whether the text `text` starts with `word`.
fn begins(text: &Vec<char>, word: &str) -> (r: bool)
    ensures
        r == spec_starts_with(text@, word@),
{
    let w = to_chars(word);
    matches_at(text, &w, 0)
}

/// Whether the text `text` ends with `word`.
fn ends(text: &Vec<char>, word: &str) -> (r: bool)
    ensures
        r == spec_ends_with(text@, word@),
{
    let w = to_chars(word);
    crate::text::ends_with(text, &w)
}

/// The TypeScript type that the name of a type of value stands for.
fn type_enum(name: &str, clean_description: &str) -> (r: &'static str)
    ensures
        r@ == type_enum_of(name@, clean_description@),
{
    if str_equal(name, "stringArray") {
        if is_key_value_mapping(clean_description) {
            "CommandComponentDataType.KEY_VALUE_MAPPING"
        } else {
            "[CommandComponentDataType.STRING]"
        }
    } else if str_equal(name, "stringToString") {
        "CommandComponentDataType.KEY_VALUE_MAPPING"
    } else if str_equal(name, "uint") || str_equal(name, "int") {
        "CommandComponentDataType.INTEGER"
    } else if str_equal(name, "bool") {
        "CommandComponentDataType.BOOLEAN"
    } else if str_equal(name, "float") {
        "CommandComponentDataType.FLOAT"
    } else {
        "CommandComponentDataType.STRING"
    }
}

/// The TypeScript type of the value of a flag.
pub fn data_type_enum(
    data_type: &str,
    extracted: &str,
    clean_description: &str,
    long_flag: &str,
) -> (r: &'static str)
    ensures
        r@ == spec_data_type_enum(data_type@, extracted@, clean_description@, long_flag@),
{
    if data_type.unicode_len() > 0 {
        type_enum(data_type, clean_description)
    } else if extracted.unicode_len() > 0 {
        type_enum(extracted, clean_description)
    } else {
        let clean = to_chars(clean_description);
        let long = to_chars(long_flag);
        if str_equal(long_flag, "--help") || begins(&clean, "help for") || begins(&long, "--no-") {
            "CommandComponentDataType.BOOLEAN"
        } else {
            "CommandComponentDataType.STRING"
        }
    }
}

/// Whether a flag is taken as required.
pub fn flag_is_required(description: &str, usage: &str, long_flag: &str, short_flag: &str) -> (r:
    bool)
    ensures
        r == spec_flag_is_required(description@, usage@, long_flag@, short_flag@),
{
    let text = to_chars(description);
    let lower_text = description.to_lowercase();
    let lower = to_chars(lower_text.as_str());
    if holds(&text, "(default") || holds(&lower, "default is") || holds(&lower, "defaults to")
        || str_equal(long_flag, "--help") || begins(&text, "help for") {
        false
    } else if holds(&lower, "required") || holds(&lower, "mandatory") || holds(
        &lower,
        "must be provided",
    ) || holds(&lower, "must specify") || ends(&text, "(required)") || ends(
        &text,
        "(mandatory)",
    ) {
        true
    } else {
        check_flag_in_usage_string(usage, long_flag, short_flag)
    }
}

/// The text of an optional string, empty where there is none.
fn str_or_empty(o: &Option<String>) -> (r: &str)
    ensures
        r@ == or_empty(option_view(*o)),
{
    proof {
        reveal_strlit("");
    }
    match o {
        Some(s) => s.as_str(),
        None => "",
    }
}

/// What the file of a command says of a flag, given the usage line of the
/// command.
pub fn flag_object(flag: &LineFlag, usage: &str) -> (r: FlagObject)
    ensures
        r@ == spec_flag_object(flag@, usage@),
{
    let long_flag = str_or_empty(&flag.long);
    let short_flag = str_or_empty(&flag.short);
    let description = str_or_empty(&flag.description);
    let data_type = str_or_empty(&flag.data_type);
    let (clean_description, extracted) = extract_data_type_from_description(description);
    let kind = data_type_enum(
        data_type,
        extracted.as_str(),
        clean_description.as_str(),
        long_flag,
    );
    let default_value = extract_default_value(clean_description.as_str());
    let is_required = flag_is_required(description, usage, long_flag, short_flag);
    FlagObject {
        long_flag: String::from_str(long_flag),
        short_flag: String::from_str(short_flag),
        data_type_enum: String::from_str(kind),
        clean_description,
        default_value,
        is_required,
    }
}

/// What the file of a command says of its flags: of each that has a long
/// name, in their order.
pub fn flag_objects_of(flags: &Vec<LineFlag>, usage: &str) -> (r: Vec<FlagObject>)
    ensures
        views(r@) == flag_objects(views(flags@), usage@, flags@.len() as int),
{
    let mut out: Vec<FlagObject> = Vec::new();
    let mut i: usize = 0;
    assert(views(out@) =~= flag_objects(views(flags@), usage@, 0));
    while i < flags.len()
        invariant
            i <= flags.len(),
            views(out@) == flag_objects(views(flags@), usage@, i as int),
        decreases flags.len() - i,
    {
        if flags[i].long.is_some() {
            let object = flag_object(&flags[i], usage);
            proof {
                lemma_views_push(out@, object);
            }
            out.push(object);
        }
        i += 1;
    }
    out
}

/// The text `true` or `false`.
pub open spec fn bool_text(b: bool) -> Seq<char> {
    if b {
        "true"@
    } else {
        "false"@
    }
}

/// The text `true` or `false`.
fn text_of_bool(b: bool) -> (r: &'static str)
    ensures
        r@ == bool_text(b),
{
    if b {
        "true"
    } else {
        "false"
    }
}

/// The line that gives the short name of a flag; empty where it has none.
pub open spec fn short_name_line(short_flag: Seq<char>) -> Seq<char> {
    if short_flag.len() > 0 {
        "    shortName: '"@ + short_flag + "',\n"@
    } else {
        Seq::empty()
    }
}

/// The line that gives the default value of a flag; empty where it has
/// none.
pub open spec fn default_value_line(default_value: Option<Seq<char>>) -> Seq<char> {
    match default_value {
        Some(value) => "    defaultValue: '"@ + spec_escape_string(value) + "',\n"@,
        None => Seq::empty(),
    }
}

/// The object that stands for a flag in the array of the flags of a
/// command.
pub open spec fn flag_object_text(object: FlagObjectView) -> Seq<char> {
    "  {\n    longName: '"@ + object.long_flag + "',\n"@ + short_name_line(object.short_flag)
        + "    valueDataType: "@ + object.data_type_enum + ",\n"@ + default_value_line(
        object.default_value,
    ) + "    description: '"@ + spec_escape_string(object.clean_description)
        + "',\n    required: "@ + bool_text(object.is_required)
        + ",\n    examples: [],\n    namingConvention: 'String'\n  },\n"@
}

/// The object that stands for a flag in the array of the flags of a
/// command.
fn flag_object_chars(object: &FlagObject) -> (r: Vec<char>)
    ensures
        r@ == flag_object_text(object@),
{
    let mut short_line: Vec<char> = Vec::new();
    if object.short_flag.as_str().unicode_len() > 0 {
        short_line = to_chars("    shortName: '");
        push_str(&mut short_line, object.short_flag.as_str());
        push_str(&mut short_line, "',\n");
    }
    let mut default_line: Vec<char> = Vec::new();
    match &object.default_value {
        Some(value) => {
            default_line = to_chars("    defaultValue: '");
            let v = to_chars(value.as_str());
            push_chars(&mut default_line, &escape_chars(&v));
            push_str(&mut default_line, "',\n");
        },
        None => {},
    }
    let description = to_chars(object.clean_description.as_str());
    let mut out = to_chars("  {\n    longName: '");
    push_str(&mut out, object.long_flag.as_str());
    push_str(&mut out, "',\n");
    push_chars(&mut out, &short_line);
    push_str(&mut out, "    valueDataType: ");
    push_str(&mut out, object.data_type_enum.as_str());
    push_str(&mut out, ",\n");
    push_chars(&mut out, &default_line);
    push_str(&mut out, "    description: '");
    push_chars(&mut out, &escape_chars(&description));
    push_str(&mut out, "',\n    required: ");
    push_str(&mut out, text_of_bool(object.is_required));
    push_str(&mut out, ",\n    examples: [],\n    namingConvention: 'String'\n  },\n");
    out
}

/// The key by which the flags of a command are sorted: the long name
/// without the hyphens at its start.
pub open spec fn sort_keys(objects: Seq<FlagObjectView>) -> Seq<Seq<char>> {
    Seq::new(objects.len(), |i: int| without_hyphens(objects[i].long_flag))
}

/// The objects of the first `n` flags in `order`, one after the other.
pub open spec fn objects_text(objects: Seq<FlagObjectView>, order: Seq<int>, n: int) -> Seq<char>
    decreases n,
{
    if n <= 0 || n > order.len() {
        Seq::empty()
    } else {
        objects_text(objects, order, n - 1) + flag_object_text(objects[order[n - 1]])
    }
}

/// The name of the constant that holds the flags of a command.
pub open spec fn flags_constant_name(safe_command_name: Seq<char>) -> Seq<char> {
    uppercase(spec_sanitize_js_variable_name(safe_command_name)) + "_FLAGS"@
}

/// The usage line by which the flags of a command are judged: its first;
/// empty where it has none.
pub open spec fn first_usage(usages: Seq<LineUsageView>) -> Seq<char> {
    if usages.len() > 0 {
        usages[0].usage_string
    } else {
        Seq::empty()
    }
}

/// The declaration of the constant that holds the flags of a command: an
/// array with one object for each flag that has a long name, sorted by the
/// long names without their hyphens, flags of one name in their order.
/// Empty for a command without flags.
pub open spec fn spec_flags_constant(children: ChildrenView, safe_command_name: Seq<char>) -> Seq<
    char,
> {
    if children.flags.len() == 0 {
        Seq::empty()
    } else {
        let objects = flag_objects(
            children.flags,
            first_usage(children.usages),
            children.flags.len() as int,
        );
        "export const "@ + flags_constant_name(safe_command_name) + ": CommandFlag[] = [\n"@
            + objects_text(
            objects,
            sorted_order(sort_keys(objects), objects.len() as int),
            objects.len() as int,
        ) + "];\n\n"@
    }
}

/// The name of the constant that holds the flags of a command.
fn constant_name(safe_command_name: &str) -> (r: Vec<char>)
    ensures
        r@ == flags_constant_name(safe_command_name@),
{
    let name = sanitize_js_variable_name(safe_command_name);
    let upper = name.as_str().to_uppercase();
    let mut r = to_chars(upper.as_str());
    push_str(&mut r, "_FLAGS");
    r
}

/// The usage line by which the flags of a command are judged.
fn first_usage_of(usages: &Vec<LineUsage>) -> (r: &str)
    ensures
        r@ == first_usage(views(usages@)),
{
    proof {
        reveal_strlit("");
    }
    if usages.len() > 0 {
        usages[0].usage_string.as_str()
    } else {
        ""
    }
}

/// The declaration of the constant that holds the flags of a command;
/// empty for a command without flags.
pub fn generate_flags_constant(children: &Children, safe_command_name: &str) -> (r: String)
    ensures
        r@ == spec_flags_constant(children@, safe_command_name@),
{
    if children.flags.len() == 0 {
        return String::new();
    }
    let usage = first_usage_of(&children.usages);
    let objects = flag_objects_of(&children.flags, usage);
    let mut keys: Vec<Vec<char>> = Vec::new();
    let mut i: usize = 0;
    while i < objects.len()
        invariant
            i <= objects.len(),
            keys.len() == i,
            forall|k: int|
                0 <= k < i ==> (#[trigger] keys@[k])@ == without_hyphens(objects@[k]@.long_flag),
        decreases objects.len() - i,
    {
        let long = to_chars(objects[i].long_flag.as_str());
        keys.push(strip_hyphens(&long));
        i += 1;
    }
    assert(views(keys@) =~= sort_keys(views(objects@)));
    let order = sort_order(&keys);
    let ghost spec_order = sorted_order(sort_keys(views(objects@)), objects@.len() as int);
    let mut body: Vec<char> = Vec::new();
    let mut k: usize = 0;
    while k < order.len()
        invariant
            k <= order.len(),
            order.len() == objects.len(),
            forall|j: int| 0 <= j < order.len() ==> order@[j] < objects.len(),
            order@.map_values(|i: usize| i as int) == spec_order,
            body@ == objects_text(views(objects@), spec_order, k as int),
        decreases order.len() - k,
    {
        assert(spec_order[k as int] == order@[k as int] as int);
        let text = flag_object_chars(&objects[order[k]]);
        push_chars(&mut body, &text);
        k += 1;
    }
    let mut out = to_chars("export const ");
    push_chars(&mut out, &constant_name(safe_command_name));
    push_str(&mut out, ": CommandFlag[] = [\n");
    push_chars(&mut out, &body);
    push_str(&mut out, "];\n\n");
    from_chars(&out)
}

/// An argument of a command: its name and whether it must be given.
pub struct ArgumentView {
    pub name: Seq<char>,
    pub required: bool,
}

/// An argument of a command: its name and whether it must be given.
#[derive(Debug)]
pub struct Argument {
    pub name: String,
    pub required: bool,
}

impl View for Argument {
    type V = ArgumentView;

    open spec fn view(&self) -> ArgumentView {
        ArgumentView { name: self.name@, required: self.required }
    }
}

/// The arguments among the first `n` components of a usage line.
pub open spec fn line_arguments(components: Seq<UsageComponentView>, n: int) -> Seq<ArgumentView>
    decreases n,
{
    if n <= 0 || n > components.len() {
        Seq::empty()
    } else if is_argument_keyword(components[n - 1]) {
        line_arguments(components, n - 1).push(
            ArgumentView { name: components[n - 1].name, required: components[n - 1].required },
        )
    } else {
        line_arguments(components, n - 1)
    }
}

/// The arguments of the first `n` usage lines of a command: the top-level
/// components that name an argument, in their order.
pub open spec fn usage_arguments(usages: Seq<LineUsageView>, n: int) -> Seq<ArgumentView>
    decreases n,
{
    if n <= 0 || n > usages.len() {
        Seq::empty()
    } else {
        usage_arguments(usages, n - 1) + line_arguments(
            usages[n - 1].usage_components,
            usages[n - 1].usage_components.len() as int,
        )
    }
}

/// The arguments of the usage lines of a command.
pub fn arguments_of(usages: &Vec<LineUsage>) -> (r: Vec<Argument>)
    ensures
        views(r@) == usage_arguments(views(usages@), usages@.len() as int),
{
    let mut out: Vec<Argument> = Vec::new();
    let ghost us = views(usages@);
    let mut u: usize = 0;
    assert(views(out@) =~= usage_arguments(us, 0));
    while u < usages.len()
        invariant
            u <= usages.len(),
            us == views(usages@),
            views(out@) == usage_arguments(us, u as int),
        decreases usages.len() - u,
    {
        let components = &usages[u].usage_components;
        let ghost cs = us[u as int].usage_components;
        let ghost before = views(out@);
        proof {
            lemma_components_view(components@);
        }
        let mut k: usize = 0;
        assert(views(out@) =~= before + line_arguments(cs, 0));
        while k < components.len()
            invariant
                k <= components.len(),
                cs == components_view(components@),
                cs.len() == components@.len(),
                forall|j: int| 0 <= j < components@.len() ==> #[trigger] cs[j] == components@[j]@,
                views(out@) == before + line_arguments(cs, k as int),
            decreases components.len() - k,
        {
            if argument_keyword(&components[k]) {
                let argument = Argument {
                    name: components[k].name.clone(),
                    required: components[k].required,
                };
                proof {
                    lemma_views_push(out@, argument);
                    assert((before + line_arguments(cs, k as int)).push(argument@) =~= before
                        + line_arguments(cs, k as int).push(argument@));
                }
                out.push(argument);
            }
            k += 1;
        }
        u += 1;
    }
    out
}

/// The entry of an argument in the file of a command.
pub open spec fn argument_text(argument: ArgumentView) -> Seq<char> {
    "    "@ + spec_sanitize_js_variable_name(lowercase(argument.name))
        + ": {\n      description: 'The "@ + lowercase(argument.name)
        + " to use.',\n      required: "@ + bool_text(argument.required)
        + ",\n      valueDataType: CommandComponentDataType.STRING,\n      formats: [\n        {\n          namingConvention: NamingConventions.ResourceName(),\n          examples: [],\n        }\n      ]\n    },\n"@
}

/// The entries of the first `n` arguments.
pub open spec fn arguments_text(arguments: Seq<ArgumentView>, n: int) -> Seq<char>
    decreases n,
{
    if n <= 0 || n > arguments.len() {
        Seq::empty()
    } else {
        arguments_text(arguments, n - 1) + argument_text(arguments[n - 1])
    }
}

/// The part of the file of a command that lists its arguments; empty where
/// it has none.
pub open spec fn arguments_block(arguments: Seq<ArgumentView>) -> Seq<char> {
    if arguments.len() == 0 {
        Seq::empty()
    } else {
        "  arguments: {\n"@ + arguments_text(arguments, arguments.len() as int) + "  },\n"@
    }
}

/// The part of the file of a command that lists its arguments.
fn arguments_block_chars(arguments: &Vec<Argument>) -> (r: Vec<char>)
    ensures
        r@ == arguments_block(views(arguments@)),
{
    if arguments.len() == 0 {
        return Vec::new();
    }
    let mut body: Vec<char> = Vec::new();
    let mut i: usize = 0;
    while i < arguments.len()
        invariant
            i <= arguments.len(),
            body@ == arguments_text(views(arguments@), i as int),
        decreases arguments.len() - i,
    {
        let lower = arguments[i].name.as_str().to_lowercase();
        let variable = sanitize_js_variable_name(lower.as_str());
        let mut entry = to_chars("    ");
        push_str(&mut entry, variable.as_str());
        push_str(&mut entry, ": {\n      description: 'The ");
        push_str(&mut entry, lower.as_str());
        push_str(&mut entry, " to use.',\n      required: ");
        push_str(&mut entry, text_of_bool(arguments[i].required));
        push_str(
            &mut entry,
            ",\n      valueDataType: CommandComponentDataType.STRING,\n      formats: [\n        {\n          namingConvention: NamingConventions.ResourceName(),\n          examples: [],\n        }\n      ]\n    },\n",
        );
        push_chars(&mut body, &entry);
        i += 1;
    }
    let mut out = to_chars("  arguments: {\n");
    push_chars(&mut out, &body);
    push_str(&mut out, "  },\n");
    out
}

/// The directory of the shared files as the file of a command sees it:
/// its own directory for a command of the root, the one above for every
/// other.
pub open spec fn up(parent_path: Seq<char>) -> Seq<char> {
    if parent_path.len() == 0 {
        "./"@
    } else {
        "../"@
    }
}

/// The lines that import the files of the first `n` subcommands.
pub open spec fn subcommand_imports(
    commands: Seq<CstNodeView>,
    safe_command_name: Seq<char>,
    parent_path: Seq<char>,
    n: int,
) -> Seq<char>
    decreases n,
{
    if n <= 0 || n > commands.len() {
        Seq::empty()
    } else {
        subcommand_imports(commands, safe_command_name, parent_path, n - 1) + "import { "@
            + spec_to_pascal_case(commands[n - 1].name) + "Command } from '"@ + up(parent_path)
            + safe_command_name + "/"@ + spec_sanitize_filename(commands[n - 1].name) + "';\n"@
    }
}

/// The entries of the first `n` subcommands in the file of a command.
pub open spec fn subcommand_entries(commands: Seq<CstNodeView>, n: int) -> Seq<char>
    decreases n,
{
    if n <= 0 || n > commands.len() {
        Seq::empty()
    } else {
        subcommand_entries(commands, n - 1) + "    '"@ + commands[n - 1].name + "': "@
            + spec_to_pascal_case(commands[n - 1].name) + "Command;\n"@
    }
}

/// The part of the file of a command that lists its subcommands; empty
/// where it has none.
pub open spec fn subcommands_block(commands: Seq<CstNodeView>) -> Seq<char> {
    if commands.len() == 0 {
        Seq::empty()
    } else {
        "  subcommands: {\n"@ + subcommand_entries(commands, commands.len() as int) + "  };\n"@
    }
}

/// Whether the file of a command speaks of types of values: the command
/// has flags or arguments.
pub open spec fn needs_data_type(children: ChildrenView) -> bool {
    children.flags.len() > 0 || usage_arguments(children.usages, children.usages.len() as int).len()
        > 0
}

/// The lines that import the shared files.
pub open spec fn shared_imports(children: ChildrenView, parent_path: Seq<char>) -> Seq<char> {
    "import type { Command, CommandFlag } from '"@ + up(parent_path) + "schema';\n"@ + (
    if needs_data_type(children) {
        "import { CommandComponentDataType } from '"@ + up(parent_path) + "schema';\n"@
    } else {
        Seq::empty()
    }) + (if usage_arguments(children.usages, children.usages.len() as int).len() > 0 {
        "import { NamingConventions } from '"@ + up(parent_path) + "naming-convention';\n"@
    } else {
        Seq::empty()
    })
}

/// The line that gives the usage of a command; empty where it has no usage
/// line.
pub open spec fn usage_line(usages: Seq<LineUsageView>) -> Seq<char> {
    if usages.len() > 0 {
        "  usage: '"@ + spec_escape_string(usages[0].usage_string) + "',\n"@
    } else {
        Seq::empty()
    }
}

/// The part of the file of a command that holds its flags: the constant,
/// and a blank line; empty for a command without flags.
pub open spec fn flags_part(children: ChildrenView, safe_command_name: Seq<char>) -> Seq<char> {
    if children.flags.len() > 0 {
        spec_flags_constant(children, safe_command_name) + "\n"@
    } else {
        Seq::empty()
    }
}

/// The line by which a command refers to the constant of its flags; empty
/// for a command without flags.
pub open spec fn flags_line(children: ChildrenView, safe_command_name: Seq<char>) -> Seq<char> {
    if children.flags.len() > 0 {
        "  flags: "@ + flags_constant_name(safe_command_name) + ",\n"@
    } else {
        Seq::empty()
    }
}

/// The contents of the file of the command `node`, which lies below the
/// directory `parent_path`.
pub open spec fn spec_command_file(node: CstNodeView, parent_path: Seq<char>) -> Seq<char> {
    let safe = spec_sanitize_filename(node.name);
    let children = node.children;
    shared_imports(children, parent_path) + subcommand_imports(
        children.commands,
        safe,
        parent_path,
        children.commands.len() as int,
    ) + "\n"@ + flags_part(children, safe) + "export const "@ + spec_to_pascal_case(safe)
        + "Command: Command = {\n  name: '"@ + node.name + "',\n  description: '"@
        + spec_escape_string(node.description) + "',\n"@ + usage_line(children.usages)
        + arguments_block(usage_arguments(children.usages, children.usages.len() as int))
        + flags_line(children, safe) + subcommands_block(children.commands) + "};\n\n"@
}

/// The lines that import the shared files.
fn shared_imports_chars(children: &Children, has_arguments: bool, parent_path: &str) -> (r: Vec<
    char,
>)
    requires
        has_arguments == (usage_arguments(children@.usages, children@.usages.len() as int).len()
            > 0),
    ensures
        r@ == shared_imports(children@, parent_path@),
{
    let up_dir = up_of(parent_path);
    let mut data_type: Vec<char> = Vec::new();
    if children.flags.len() > 0 || has_arguments {
        data_type = to_chars("import { CommandComponentDataType } from '");
        push_str(&mut data_type, up_dir);
        push_str(&mut data_type, "schema';\n");
    }
    let mut naming: Vec<char> = Vec::new();
    if has_arguments {
        naming = to_chars("import { NamingConventions } from '");
        push_str(&mut naming, up_dir);
        push_str(&mut naming, "naming-convention';\n");
    }
    let mut out = to_chars("import type { Command, CommandFlag } from '");
    push_str(&mut out, up_dir);
    push_str(&mut out, "schema';\n");
    push_chars(&mut out, &data_type);
    push_chars(&mut out, &naming);
    out
}

/// The directory of the shared files as the file of a command sees it.
fn up_of(parent_path: &str) -> (r: &'static str)
    ensures
        r@ == up(parent_path@),
{
    if parent_path.unicode_len() == 0 {
        "./"
    } else {
        "../"
    }
}

/// The lines that import the files of the subcommands.
fn subcommand_imports_chars(commands: &Vec<CstNode>, safe_command_name: &str, parent_path: &str) -> (r:
    Vec<char>)
    ensures
        r@ == subcommand_imports(
            nodes_view(commands@),
            safe_command_name@,
            parent_path@,
            commands@.len() as int,
        ),
{
    let mut out: Vec<char> = Vec::new();
    let ghost cs = nodes_view(commands@);
    proof {
        lemma_nodes_view(commands@);
    }
    let mut i: usize = 0;
    while i < commands.len()
        invariant
            i <= commands.len(),
            cs == nodes_view(commands@),
            cs.len() == commands@.len(),
            forall|k: int| 0 <= k < commands@.len() ==> #[trigger] cs[k] == commands@[k]@,
            out@ == subcommand_imports(cs, safe_command_name@, parent_path@, i as int),
        decreases commands.len() - i,
    {
        let name = commands[i].name.as_str();
        let ghost before = out@;
        push_str(&mut out, "import { ");
        push_str(&mut out, to_pascal_case(name).as_str());
        push_str(&mut out, "Command } from '");
        push_str(&mut out, up_of(parent_path));
        push_str(&mut out, safe_command_name);
        push_str(&mut out, "/");
        push_str(&mut out, sanitize_filename(name).as_str());
        push_str(&mut out, "';\n");
        i += 1;
    }
    out
}

/// The part of the file of a command that lists its subcommands.
fn subcommands_block_chars(commands: &Vec<CstNode>) -> (r: Vec<char>)
    ensures
        r@ == subcommands_block(nodes_view(commands@)),
{
    proof {
        lemma_nodes_view(commands@);
    }
    if commands.len() == 0 {
        return Vec::new();
    }
    let mut body: Vec<char> = Vec::new();
    let ghost cs = nodes_view(commands@);
    let mut i: usize = 0;
    while i < commands.len()
        invariant
            i <= commands.len(),
            cs == nodes_view(commands@),
            cs.len() == commands@.len(),
            forall|k: int| 0 <= k < commands@.len() ==> #[trigger] cs[k] == commands@[k]@,
            body@ == subcommand_entries(cs, i as int),
        decreases commands.len() - i,
    {
        let name = commands[i].name.as_str();
        push_str(&mut body, "    '");
        push_str(&mut body, name);
        push_str(&mut body, "': ");
        push_str(&mut body, to_pascal_case(name).as_str());
        push_str(&mut body, "Command;\n");
        i += 1;
    }
    let mut out = to_chars("  subcommands: {\n");
    push_chars(&mut out, &body);
    push_str(&mut out, "  };\n");
    out
}

/// The contents of the file of the command `node`, which lies below the
/// directory `parent_path`.
pub fn command_file_content(node: &CstNode, parent_path: &str) -> (r: String)
    ensures
        r@ == spec_command_file(node@, parent_path@),
{
    let safe = sanitize_filename(node.name.as_str());
    let children = &node.children;
    let arguments = arguments_of(&children.usages);
    let has_arguments = arguments.len() > 0;
    let mut flags: Vec<char> = Vec::new();
    let mut flags_reference: Vec<char> = Vec::new();
    if children.flags.len() > 0 {
        flags = to_chars(generate_flags_constant(children, safe.as_str()).as_str());
        push_str(&mut flags, "\n");
        flags_reference = to_chars("  flags: ");
        push_chars(&mut flags_reference, &constant_name(safe.as_str()));
        push_str(&mut flags_reference, ",\n");
    }
    let mut usage: Vec<char> = Vec::new();
    if children.usages.len() > 0 {
        usage = to_chars("  usage: '");
        let line = to_chars(children.usages[0].usage_string.as_str());
        push_chars(&mut usage, &escape_chars(&line));
        push_str(&mut usage, "',\n");
    }
    let description = to_chars(node.description.as_str());
    proof {
        lemma_nodes_view(children.commands@);
    }
    let mut out = shared_imports_chars(children, has_arguments, parent_path);
    push_chars(
        &mut out,
        &subcommand_imports_chars(&children.commands, safe.as_str(), parent_path),
    );
    push_str(&mut out, "\n");
    push_chars(&mut out, &flags);
    push_str(&mut out, "export const ");
    push_str(&mut out, to_pascal_case(safe.as_str()).as_str());
    push_str(&mut out, "Command: Command = {\n  name: '");
    push_str(&mut out, node.name.as_str());
    push_str(&mut out, "',\n  description: '");
    push_chars(&mut out, &escape_chars(&description));
    push_str(&mut out, "',\n");
    push_chars(&mut out, &usage);
    push_chars(&mut out, &arguments_block_chars(&arguments));
    push_chars(&mut out, &flags_reference);
    push_chars(&mut out, &subcommands_block_chars(&children.commands));
    push_str(&mut out, "};\n\n");
    from_chars(&out)
}

/// A file to be written: its path below the directory of the tree, with
/// `/` between its parts, and its contents.
#[derive(Debug)]
pub struct GeneratedFile {
    pub path: String,
    pub content: String,
}

/// The mathematical value of a [`GeneratedFile`].
pub struct GeneratedFileView {
    pub path: Seq<char>,
    pub content: Seq<char>,
}

impl View for GeneratedFile {
    type V = GeneratedFileView;

    open spec fn view(&self) -> GeneratedFileView {
        GeneratedFileView { path: self.path@, content: self.content@ }
    }
}

/// A path below another: the two with `/` between them, or the second alone
/// where the first is empty.
pub open spec fn below(parent_path: Seq<char>, name: Seq<char>) -> Seq<char> {
    if parent_path.len() == 0 {
        name
    } else {
        parent_path + "/"@ + name
    }
}

/// The files of the first `n` commands of `commands`, which lie below the
/// directory `parent_path`, and of all commands below them.
pub open spec fn commands_files(commands: Seq<CstNodeView>, parent_path: Seq<char>, n: int) -> Seq<
    GeneratedFileView,
>
    decreases commands, n,
{
    if n <= 0 || n > commands.len() {
        Seq::empty()
    } else {
        commands_files(commands, parent_path, n - 1) + command_files(
            commands[n - 1],
            parent_path,
        )
    }
}

/// The files of the command `node`, which lies below the directory
/// `parent_path`: those of its subcommands, in a directory of its name, and
/// then its own.
pub open spec fn command_files(node: CstNodeView, parent_path: Seq<char>) -> Seq<
    GeneratedFileView,
>
    decreases node,
{
    let safe = spec_sanitize_filename(node.name);
    commands_files(
        node.children.commands,
        below(parent_path, safe),
        node.children.commands.len() as int,
    ).push(
        GeneratedFileView {
            path: below(parent_path, safe) + ".ts"@,
            content: spec_command_file(node, parent_path),
        },
    )
}

/// The path of a file without the `.ts` at its end.
pub open spec fn without_extension(path: Seq<char>) -> Seq<char> {
    if spec_ends_with(path, ".ts"@) {
        path.subrange(0, path.len() - ".ts"@.len())
    } else {
        path
    }
}

/// The lines of the index that export the first `n` files.
pub open spec fn export_lines(files: Seq<GeneratedFileView>, n: int) -> Seq<char>
    decreases n,
{
    if n <= 0 || n > files.len() {
        Seq::empty()
    } else {
        export_lines(files, n - 1) + "export * from './"@ + without_extension(files[n - 1].path)
            + "';\n"@
    }
}

/// The contents of the index of a tree of the version `version`, whose
/// files are `files`.
pub open spec fn spec_index_content(version: Seq<char>, files: Seq<GeneratedFileView>) -> Seq<
    char,
> {
    "// Auto-generated command exports\nexport * from './schema';\n\nexport const version = '"@
        + version + "';\n"@ + export_lines(files, files.len() as int)
}

/// A path below another.
fn below_of(parent_path: &str, name: &str) -> (r: String)
    ensures
        r@ == below(parent_path@, name@),
{
    if parent_path.unicode_len() == 0 {
        String::from_str(name)
    } else {
        let mut out = to_chars(parent_path);
        push_str(&mut out, "/");
        push_str(&mut out, name);
        from_chars(&out)
    }
}

/// Appends the files of the command `node`, which lies below the directory
/// `parent_path`: those of its subcommands first, then its own.
pub fn generate_command_file(node: &CstNode, parent_path: &str, files: &mut Vec<GeneratedFile>)
    ensures
        views(final(files)@) == views(old(files)@) + command_files(node@, parent_path@),
    decreases node,
{
    let safe = sanitize_filename(node.name.as_str());
    let directory = below_of(parent_path, safe.as_str());
    let ghost before = views(files@);
    let ghost cs = node@.children.commands;
    proof {
        lemma_nodes_view(node.children.commands@);
    }
    let mut i: usize = 0;
    assert(views(files@) =~= before + commands_files(cs, directory@, 0));
    while i < node.children.commands.len()
        invariant
            i <= node.children.commands.len(),
            cs == node@.children.commands,
            cs.len() == node.children.commands@.len(),
            forall|k: int|
                0 <= k < node.children.commands@.len() ==> #[trigger] cs[k]
                    == node.children.commands@[k]@,
            views(files@) == before + commands_files(cs, directory@, i as int),
        decreases node.children.commands.len() - i,
    {
        generate_command_file(&node.children.commands[i], directory.as_str(), files);
        assert(views(files@) =~= before + (commands_files(cs, directory@, i as int)
            + command_files(cs[i as int], directory@)));
        i += 1;
    }
    let mut path = to_chars(directory.as_str());
    push_str(&mut path, ".ts");
    let file = GeneratedFile {
        path: from_chars(&path),
        content: command_file_content(node, parent_path),
    };
    proof {
        lemma_views_push(files@, file);
        let subs = commands_files(cs, directory@, cs.len() as int);
        assert((before + subs).push(file@) =~= before + subs.push(file@));
    }
    files.push(file);
}

/// The files of a tree, one for each command, those of the subcommands of
/// a command before its own.
pub fn generate_typescript_files(tree: &CstNode) -> (r: Vec<GeneratedFile>)
    ensures
        views(r@) == commands_files(
            tree@.children.commands,
            Seq::empty(),
            tree@.children.commands.len() as int,
        ),
{
    let mut files: Vec<GeneratedFile> = Vec::new();
    let ghost cs = tree@.children.commands;
    proof {
        lemma_nodes_view(tree.children.commands@);
        reveal_strlit("");
        assert(""@ =~= Seq::<char>::empty());
    }
    let mut i: usize = 0;
    assert(views(files@) =~= commands_files(cs, Seq::empty(), 0));
    while i < tree.children.commands.len()
        invariant
            i <= tree.children.commands.len(),
            cs == tree@.children.commands,
            cs.len() == tree.children.commands@.len(),
            forall|k: int|
                0 <= k < tree.children.commands@.len() ==> #[trigger] cs[k]
                    == tree.children.commands@[k]@,
            views(files@) == commands_files(cs, Seq::empty(), i as int),
            ""@ == Seq::<char>::empty(),
        decreases tree.children.commands.len() - i,
    {
        generate_command_file(&tree.children.commands[i], "", &mut files);
        i += 1;
    }
    files
}

/// The contents of the index of a tree of the version `version`, whose
/// files are `files`: one line of export for each file, in their order.
pub fn index_content(version: &str, files: &Vec<GeneratedFile>) -> (r: String)
    ensures
        r@ == spec_index_content(version@, views(files@)),
{
    let extension = to_chars(".ts");
    let mut lines: Vec<char> = Vec::new();
    let mut i: usize = 0;
    while i < files.len()
        invariant
            i <= files.len(),
            extension@ == ".ts"@,
            lines@ == export_lines(views(files@), i as int),
        decreases files.len() - i,
    {
        let path = to_chars(files[i].path.as_str());
        let bare = if crate::text::ends_with(&path, &extension) {
            crate::text::slice(&path, 0, path.len() - extension.len())
        } else {
            path
        };
        push_str(&mut lines, "export * from './");
        push_chars(&mut lines, &bare);
        push_str(&mut lines, "';\n");
        i += 1;
    }
    let mut out = to_chars(
        "// Auto-generated command exports\nexport * from './schema';\n\nexport const version = '",
    );
    push_str(&mut out, version);
    push_str(&mut out, "';\n");
    push_chars(&mut out, &lines);
    from_chars(&out)
}

} // verus!
