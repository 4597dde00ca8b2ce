//! The records that a help page is read into, and the formats of the
//! reports written from them.
use vstd::prelude::*;
use crate::text::{lowercase, str_equal};

verus! {

/// What a component of a usage line is.
#[derive(Debug, Clone, Copy, PartialEq, Eq, Structural)]
pub enum ComponentType {
    Flag,
    Argument,
    Keyword,
    Group,
    AlternativeGroup,
    KeyValuePair,
}

/// One node of a parsed usage line.
///
/// A node is a plain token, a bracket group with `children`, or a
/// parenthesised group with `alternatives`; it never has both.
#[derive(Debug)]
pub struct UsageComponent {
    pub component_type: ComponentType,
    /// The token's text; empty for a group.
    pub name: String,
    /// False only for what stands in square brackets.
    pub required: bool,
    /// Whether `...` followed the token or group.
    pub repeatable: bool,
    /// Whether the token holds `=`.
    pub key_value: bool,
    /// The sides of a parenthesised group, each with its components.
    pub alternatives: Vec<Vec<UsageComponent>>,
    /// The contents of a bracket group.
    pub children: Vec<UsageComponent>,
}

/// The mathematical value of a [`UsageComponent`].
pub struct UsageComponentView {
    pub component_type: ComponentType,
    pub name: Seq<char>,
    pub required: bool,
    pub repeatable: bool,
    pub key_value: bool,
    pub alternatives: Seq<Seq<UsageComponentView>>,
    pub children: Seq<UsageComponentView>,
}

/// The value of one component.
pub open spec fn component_view(c: UsageComponent) -> UsageComponentView
    decreases c, 0nat,
{
    UsageComponentView {
        component_type: c.component_type,
        name: c.name@,
        required: c.required,
        repeatable: c.repeatable,
        key_value: c.key_value,
        alternatives: alternatives_view(c.alternatives@),
        children: components_view(c.children@),
    }
}

/// The values of a sequence of components.
pub open spec fn components_view(v: Seq<UsageComponent>) -> Seq<UsageComponentView>
    decreases v, 1nat,
{
    if v.len() == 0 {
        Seq::empty()
    } else {
        components_view(v.drop_last()).push(component_view(v.last()))
    }
}

/// The values of a sequence of alternatives.
pub open spec fn alternatives_view(v: Seq<Vec<UsageComponent>>) -> Seq<Seq<UsageComponentView>>
    decreases v, 2nat,
{
    if v.len() == 0 {
        Seq::empty()
    } else {
        alternatives_view(v.drop_last()).push(components_view(v.last()@))
    }
}

impl View for UsageComponent {
    type V = UsageComponentView;

    open spec fn view(&self) -> UsageComponentView {
        component_view(*self)
    }
}

/// The values of a sequence of components are the values of its elements.
pub proof fn lemma_components_view(v: Seq<UsageComponent>)
    ensures
        components_view(v).len() == v.len(),
        forall|i: int| 0 <= i < v.len() ==> #[trigger] components_view(v)[i] == v[i]@,
    decreases v.len(),
{
    if v.len() > 0 {
        lemma_components_view(v.drop_last());
    }
}

/// Appending a component appends its value.
pub proof fn lemma_components_view_push(v: Seq<UsageComponent>, c: UsageComponent)
    ensures
        components_view(v.push(c)) == components_view(v).push(c@),
{
    assert(v.push(c).drop_last() =~= v);
}

/// The values of a sequence of alternatives are the values of its elements.
pub proof fn lemma_alternatives_view(v: Seq<Vec<UsageComponent>>)
    ensures
        alternatives_view(v).len() == v.len(),
        forall|i: int|
            0 <= i < v.len() ==> #[trigger] alternatives_view(v)[i] == components_view(v[i]@),
    decreases v.len(),
{
    if v.len() > 0 {
        lemma_alternatives_view(v.drop_last());
    }
}

/// Appending an alternative appends its value.
pub proof fn lemma_alternatives_view_push(v: Seq<Vec<UsageComponent>>, a: Vec<UsageComponent>)
    ensures
        alternatives_view(v.push(a)) == alternatives_view(v).push(components_view(a@)),
{
    assert(v.push(a).drop_last() =~= v);
}

/// The text of an optional string.
pub open spec fn option_view(o: Option<String>) -> Option<Seq<char>> {
    match o {
        Some(s) => Some(s@),
        None => None,
    }
}

/// The keywords of a command tree.
#[derive(Debug)]
pub struct CLIKeywords {
    pub base_program: String,
    pub commands: Vec<String>,
    pub subcommands: Vec<String>,
    pub short_flags: Vec<String>,
    pub long_flags: Vec<String>,
}

/// How many keywords a command tree holds, of each kind, counted with and
/// without repetitions.
#[derive(Debug, Clone, Copy, PartialEq, Eq, Structural)]
pub struct CLISummary {
    pub unique_keywords_count: usize,
    pub unique_command_count: usize,
    pub unique_subcommand_count: usize,
    pub unique_short_flag_count: usize,
    pub unique_long_flag_count: usize,
    pub total_command_count: usize,
    pub total_subcommand_count: usize,
    pub total_short_flag_count: usize,
    pub total_long_flag_count: usize,
}

/// The format of a report file.
#[derive(Debug, Clone, Copy, PartialEq, Eq, Structural)]
pub enum FileOutputFormat {
    Markdown,
    Json,
    Text,
    Csv,
}

/// The format in which a parsed command tree is written.
#[derive(Debug, Clone, Copy, PartialEq, Eq, Structural)]
pub enum ParseOutputFormat {
    Json,
    JsonSchema,
    ZodSchema,
    TypeScriptDirectory,
}

/// The format that a lower-case name stands for.
pub open spec fn spec_parse_output_format(lower: Seq<char>) -> Option<ParseOutputFormat> {
    if lower == "json"@ {
        Some(ParseOutputFormat::Json)
    } else if lower == "json-schema"@ {
        Some(ParseOutputFormat::JsonSchema)
    } else if lower == "zod"@ {
        Some(ParseOutputFormat::ZodSchema)
    } else if lower == "ts-dir"@ || lower == "typescript-dir"@ || lower
        == "typescript-directory"@ || lower == "zod-dir"@ || lower == "zod-directory"@ {
        Some(ParseOutputFormat::TypeScriptDirectory)
    } else {
        None
    }
}

/// The extension of the files of a format.
pub open spec fn spec_file_extension(format: ParseOutputFormat) -> Seq<char> {
    match format {
        ParseOutputFormat::Json => "json"@,
        ParseOutputFormat::JsonSchema => "schema.json"@,
        ParseOutputFormat::ZodSchema => "zod.ts"@,
        ParseOutputFormat::TypeScriptDirectory => ""@,
    }
}

impl ParseOutputFormat {
    /// The format that `format` names, whatever the case of its letters;
    /// `None` for a name that stands for no format.
    pub fn from_str(format: &str) -> (r: Option<ParseOutputFormat>)
        ensures
            r == spec_parse_output_format(lowercase(format@)),
    {
        let lower = format.to_lowercase();
        let name = lower.as_str();
        if str_equal(name, "json") {
            Some(ParseOutputFormat::Json)
        } else if str_equal(name, "json-schema") {
            Some(ParseOutputFormat::JsonSchema)
        } else if str_equal(name, "zod") {
            Some(ParseOutputFormat::ZodSchema)
        } else if str_equal(name, "ts-dir") || str_equal(name, "typescript-dir") || str_equal(
            name,
            "typescript-directory",
        ) || str_equal(name, "zod-dir") || str_equal(name, "zod-directory") {
            Some(ParseOutputFormat::TypeScriptDirectory)
        } else {
            None
        }
    }

    /// The extension of the files of this format; empty for a directory.
    pub fn get_file_extension(&self) -> (r: &'static str)
        ensures
            r@ == spec_file_extension(*self),
    {
        match self {
            ParseOutputFormat::Json => "json",
            ParseOutputFormat::JsonSchema => "schema.json",
            ParseOutputFormat::ZodSchema => "zod.ts",
            ParseOutputFormat::TypeScriptDirectory => "",
        }
    }
}

/// The report format that a lower-case name stands for: plain text for
/// every name that stands for no other.
pub open spec fn spec_file_output_format(lower: Seq<char>) -> FileOutputFormat {
    if lower == "json"@ {
        FileOutputFormat::Json
    } else if lower == "md"@ || lower == "markdown"@ {
        FileOutputFormat::Markdown
    } else if lower == "csv"@ {
        FileOutputFormat::Csv
    } else {
        FileOutputFormat::Text
    }
}

impl FileOutputFormat {
    /// The report format that `format` names, whatever the case of its
    /// letters. Every name gives a format: an unknown one gives plain text.
    pub fn from_str(format: &str) -> (r: Option<FileOutputFormat>)
        ensures
            r == Some(spec_file_output_format(lowercase(format@))),
    {
        let lower = format.to_lowercase();
        let name = lower.as_str();
        if str_equal(name, "json") {
            Some(FileOutputFormat::Json)
        } else if str_equal(name, "md") || str_equal(name, "markdown") {
            Some(FileOutputFormat::Markdown)
        } else if str_equal(name, "csv") {
            Some(FileOutputFormat::Csv)
        } else {
            Some(FileOutputFormat::Text)
        }
    }
}

/// A report file to be written: where, and in which format.
#[derive(Debug)]
pub struct OutputFile {
    /// The path of the file, as text.
    pub path: String,
    pub format: FileOutputFormat,
}

impl OutputFile {
    /// The report file at `path` in the format `format`.
    pub fn new(path: &str, format: FileOutputFormat) -> (r: OutputFile)
        ensures
            r.path@ == path@,
            r.format == format,
    {
        OutputFile { path: String::from_str(path), format }
    }
}

/// The kind of record that a line of a help page gives.
#[derive(Debug, Clone, Copy, PartialEq, Eq, Hash, Structural)]
pub enum ChildLineType {
    Flag,
    Command,
    Usage,
    Other,
}

/// A line that names a subcommand.
#[derive(Debug)]
pub struct LineCommand {
    pub name: String,
    pub description: String,
    /// Empty when the line is read: the subcommand's own page fills the tree.
    pub children: Vec<LineCommand>,
    /// The title of the section the line stands in.
    pub parent_header: String,
    /// The command whose help page holds the line.
    pub parent: String,
}

/// The mathematical value of a [`LineCommand`].
pub struct LineCommandView {
    pub name: Seq<char>,
    pub description: Seq<char>,
    pub children: Seq<LineCommandView>,
    pub parent_header: Seq<char>,
    pub parent: Seq<char>,
}

/// The value of one command line.
pub open spec fn line_command_view(c: LineCommand) -> LineCommandView
    decreases c, 0nat,
{
    LineCommandView {
        name: c.name@,
        description: c.description@,
        children: line_commands_view(c.children@),
        parent_header: c.parent_header@,
        parent: c.parent@,
    }
}

/// The values of a sequence of command lines.
pub open spec fn line_commands_view(v: Seq<LineCommand>) -> Seq<LineCommandView>
    decreases v, 1nat,
{
    if v.len() == 0 {
        Seq::empty()
    } else {
        line_commands_view(v.drop_last()).push(line_command_view(v.last()))
    }
}

impl View for LineCommand {
    type V = LineCommandView;

    open spec fn view(&self) -> LineCommandView {
        line_command_view(*self)
    }
}

/// A line that defines a flag. At least one of `short` and `long` is
/// present in a record read from a flag line.
#[derive(Debug)]
pub struct LineFlag {
    pub short: Option<String>,
    pub long: Option<String>,
    pub data_type: Option<String>,
    pub description: Option<String>,
    pub parent_header: String,
}

/// The mathematical value of a [`LineFlag`].
pub struct LineFlagView {
    pub short: Option<Seq<char>>,
    pub long: Option<Seq<char>>,
    pub data_type: Option<Seq<char>>,
    pub description: Option<Seq<char>>,
    pub parent_header: Seq<char>,
}

impl View for LineFlag {
    type V = LineFlagView;

    open spec fn view(&self) -> LineFlagView {
        LineFlagView {
            short: option_view(self.short),
            long: option_view(self.long),
            data_type: option_view(self.data_type),
            description: option_view(self.description),
            parent_header: self.parent_header@,
        }
    }
}

/// A usage line with its parsed components.
#[derive(Debug)]
pub struct LineUsage {
    pub usage_string: String,
    pub parent_header: String,
    pub usage_components: Vec<UsageComponent>,
}

/// The mathematical value of a [`LineUsage`].
pub struct LineUsageView {
    pub usage_string: Seq<char>,
    pub parent_header: Seq<char>,
    pub usage_components: Seq<UsageComponentView>,
}

impl View for LineUsage {
    type V = LineUsageView;

    open spec fn view(&self) -> LineUsageView {
        LineUsageView {
            usage_string: self.usage_string@,
            parent_header: self.parent_header@,
            usage_components: components_view(self.usage_components@),
        }
    }
}

/// A line of free text, with its components where it is a single token that
/// reads as usage syntax.
#[derive(Debug)]
pub struct LineOther {
    pub line_contents: String,
    pub parent_header: String,
    pub components: Option<Vec<UsageComponent>>,
}

/// The mathematical value of a [`LineOther`].
pub struct LineOtherView {
    pub line_contents: Seq<char>,
    pub parent_header: Seq<char>,
    pub components: Option<Seq<UsageComponentView>>,
}

impl View for LineOther {
    type V = LineOtherView;

    open spec fn view(&self) -> LineOtherView {
        LineOtherView {
            line_contents: self.line_contents@,
            parent_header: self.parent_header@,
            components: match self.components {
                Some(c) => Some(components_view(c@)),
                None => None,
            },
        }
    }
}

/// The record that a line of a help page gives.
#[derive(Debug)]
pub enum OutputLine {
    Other(LineOther),
    Usage(LineUsage),
    Command(LineCommand),
    Flag(LineFlag),
}

/// The mathematical value of an [`OutputLine`].
pub enum OutputLineView {
    Other(LineOtherView),
    Usage(LineUsageView),
    Command(LineCommandView),
    Flag(LineFlagView),
}

impl View for OutputLine {
    type V = OutputLineView;

    open spec fn view(&self) -> OutputLineView {
        match self {
            OutputLine::Other(o) => OutputLineView::Other(o@),
            OutputLine::Usage(u) => OutputLineView::Usage(u@),
            OutputLine::Command(c) => OutputLineView::Command(c@),
            OutputLine::Flag(f) => OutputLineView::Flag(f@),
        }
    }
}

/// A classified line of a help page.
#[derive(Debug)]
pub struct ChildLine {
    pub line_type: OutputLine,
}

impl View for ChildLine {
    type V = OutputLineView;

    open spec fn view(&self) -> OutputLineView {
        self.line_type@
    }
}

} // verus!
