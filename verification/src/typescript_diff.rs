//! The difference of two command trees that were written out as TypeScript
//! files, one file for each command.
//!
//! The path of a file names its command: `remote/add.ts` is the command
//! `add` of `remote`. The flags of a command are read from the array that
//! the file assigns to its `_FLAGS` constant, one object for each flag.
use vstd::prelude::*;
use crate::comparison::{
    ChangeType, ChangeView, FlagFacts, FlagFactsView, command_path, compare_fact_lists,
    compare_facts, or_empty,
};
use crate::models::option_view;
use crate::text::{
    find, find_from, from_chars, lemma_find_from, matches_at, occurs_at, push_chars, slice,
    spec_find, str_equal, to_chars,
};
use crate::words::{
    find_char, index_of_char, join_range, lemma_views_push, replace, spec_join, spec_replace,
    spec_split, spec_trim, spec_trim_start, split, trim, trim_start, views,
};

verus! {

/// The text that opens the array of the flags of a command.
pub const FLAGS_MARKER: &'static str = "_FLAGS: CommandFlag[] = [";

/// The command that a file stands for, and the commands above it.
#[derive(Debug)]
pub struct CommandInfo {
    /// The commands above, separated by spaces; empty for a command of the
    /// root.
    pub parent: String,
    pub command: String,
}

/// The mathematical value of a [`CommandInfo`].
pub struct CommandInfoView {
    pub parent: Seq<char>,
    pub command: Seq<char>,
}

impl View for CommandInfo {
    type V = CommandInfoView;

    open spec fn view(&self) -> CommandInfoView {
        CommandInfoView { parent: self.parent@, command: self.command@ }
    }
}

/// The command that the file at `path` stands for: the last part of the
/// path, without any `.ts`, and above it the parts before.
pub open spec fn spec_command_info(path: Seq<char>) -> CommandInfoView {
    let parts = spec_split(spec_replace(path, ".ts"@, Seq::empty()), seq!['/']);
    CommandInfoView { parent: spec_join(parts.drop_last(), seq![' ']), command: parts.last() }
}

/// The command that the file at `file_path` stands for. Every path stands
/// for a command.
pub fn extract_command_from_path(file_path: &str) -> (r: Option<CommandInfo>)
    ensures
        r matches Some(info) && info@ == spec_command_info(file_path@),
{
    let path = to_chars(file_path);
    let extension = to_chars(".ts");
    let nothing: Vec<char> = Vec::new();
    let slash: Vec<char> = vec!['/'];
    let space: Vec<char> = vec![' '];
    assert(slash@ =~= seq!['/']);
    assert(space@ =~= seq![' ']);
    let bare = replace(&path, &extension, &nothing);
    let parts = split(&bare, &slash);
    let last: usize = parts.len() - 1;
    let parent = join_range(&parts, 0, last, &space);
    assert(views(parts@).subrange(0, last as int) =~= views(parts@).drop_last());
    Some(CommandInfo { parent: from_chars(&parent), command: from_chars(&parts[last]) })
}

/// A flag as a TypeScript file defines it.
#[derive(Debug, Clone)]
pub struct TypeScriptFlag {
    pub long_name: Option<String>,
    pub short_name: Option<String>,
    pub description: String,
    pub data_type: String,
}

/// The mathematical value of a [`TypeScriptFlag`].
pub struct TypeScriptFlagView {
    pub long_name: Option<Seq<char>>,
    pub short_name: Option<Seq<char>>,
    pub description: Seq<char>,
    pub data_type: Seq<char>,
}

impl View for TypeScriptFlag {
    type V = TypeScriptFlagView;

    open spec fn view(&self) -> TypeScriptFlagView {
        TypeScriptFlagView {
            long_name: option_view(self.long_name),
            short_name: option_view(self.short_name),
            description: self.description@,
            data_type: self.data_type@,
        }
    }
}

/// The signature of a flag: its long name, else its short name, else
/// `unknown`.
pub open spec fn spec_ts_signature(flag: TypeScriptFlagView) -> Seq<char> {
    match flag.long_name {
        Some(long) => long,
        None => match flag.short_name {
            Some(short) => short,
            None => "unknown"@,
        },
    }
}

/// How a flag is shown: `short/long` where it has both names, the one name
/// where it has one, `unknown` where it has none.
pub open spec fn spec_ts_display(flag: TypeScriptFlagView) -> Seq<char> {
    match (flag.short_name, flag.long_name) {
        (Some(short), Some(long)) => short + seq!['/'] + long,
        (Some(short), None) => short,
        (None, Some(long)) => long,
        (None, None) => "unknown"@,
    }
}

impl TypeScriptFlag {
    /// The signature that the flag is known by.
    pub fn get_signature(&self) -> (r: String)
        ensures
            r@ == spec_ts_signature(self@),
    {
        match &self.long_name {
            Some(long) => long.clone(),
            None => match &self.short_name {
                Some(short) => short.clone(),
                None => String::from_str("unknown"),
            },
        }
    }

    /// How the flag is shown in a report.
    pub fn format_display(&self) -> (r: String)
        ensures
            r@ == spec_ts_display(self@),
    {
        match (&self.short_name, &self.long_name) {
            (Some(short), Some(long)) => {
                let mut out = to_chars(short.as_str());
                out.push('/');
                let l = to_chars(long.as_str());
                push_chars(&mut out, &l);
                assert(out@ =~= short@ + seq!['/'] + long@);
                from_chars(&out)
            },
            (Some(short), None) => short.clone(),
            (None, Some(long)) => long.clone(),
            (None, None) => String::from_str("unknown"),
        }
    }
}

/// Where the value of a property ends that stands in no quotes: at the
/// first comma; where there is none, at the first line feed; where there is
/// none, at the first `}`; else at the end.
pub open spec fn value_end(rest: Seq<char>) -> int {
    match index_of_char(rest, ',', 0) {
        Some(k) => k,
        None => match index_of_char(rest, '\n', 0) {
            Some(k) => k,
            None => match index_of_char(rest, '}', 0) {
                Some(k) => k,
                None => rest.len() as int,
            },
        },
    }
}

/// The value that the text of an object gives the property `property`.
///
/// The value follows the first `property:` and any white space. Where it
/// starts with a quote, single or double, it runs up to the next such quote,
/// and there is none where that quote is missing. Else it runs to where
/// [`value_end`] says, is trimmed, and there is none where nothing is left.
pub open spec fn spec_property_value(object: Seq<char>, property: Seq<char>) -> Option<
    Seq<char>,
> {
    let pattern = property + seq![':'];
    match spec_find(object, pattern) {
        None => None,
        Some(start) => {
            let rest = spec_trim_start(
                object.subrange(start + pattern.len(), object.len() as int),
            );
            if rest.len() > 0 && (rest[0] == '\'' || rest[0] == '"') {
                match index_of_char(rest, rest[0], 1) {
                    Some(end) => Some(rest.subrange(1, end)),
                    None => None,
                }
            } else {
                let value = spec_trim(rest.subrange(0, value_end(rest)));
                if value.len() > 0 {
                    Some(value)
                } else {
                    None
                }
            }
        },
    }
}

/// The index at which the value of a property ends that stands in no
/// quotes.
fn value_end_of(rest: &Vec<char>) -> (r: usize)
    ensures
        r == value_end(rest@),
        r <= rest.len(),
{
    match find_char(rest, ',', 0) {
        Some(k) => k,
        None => match find_char(rest, '\n', 0) {
            Some(k) => k,
            None => match find_char(rest, '}', 0) {
                Some(k) => k,
                None => rest.len(),
            },
        },
    }
}

/// The value that the text of an object gives the property `property`.
pub fn extract_property_value(object_str: &str, property: &str) -> (r: Option<String>)
    ensures
        option_view(r) == spec_property_value(object_str@, property@),
{
    let object = to_chars(object_str);
    property_value(&object, property)
}

/// The value that the text `object` gives the property `property`.
fn property_value(object: &Vec<char>, property: &str) -> (r: Option<String>)
    ensures
        option_view(r) == spec_property_value(object@, property@),
{
    let mut pattern = to_chars(property);
    pattern.push(':');
    assert(pattern@ =~= property@ + seq![':']);
    match find(object, &pattern) {
        None => None,
        Some(start) => {
            proof {
                lemma_find_from(object@, pattern@, 0);
                assert(occurs_at(object@, pattern@, start as int));
            }
            let n = object.len();
            let after = slice(object, start + pattern.len(), n);
            let rest = trim_start(&after);
            if rest.len() > 0 && (rest[0] == '\'' || rest[0] == '"') {
                match find_char(&rest, rest[0], 1) {
                    Some(end) => Some(from_chars(&slice(&rest, 1, end))),
                    None => None,
                }
            } else {
                let end = value_end_of(&rest);
                let value = trim(&slice(&rest, 0, end));
                if value.len() > 0 {
                    Some(from_chars(&value))
                } else {
                    None
                }
            }
        },
    }
}

/// The flag that the text of an object defines: one with a name, long or
/// short, and a description that is not empty; else none.
pub open spec fn spec_single_flag(object: Seq<char>) -> Option<TypeScriptFlagView> {
    let long_name = spec_property_value(object, "longName"@);
    let short_name = spec_property_value(object, "shortName"@);
    let description = or_empty(spec_property_value(object, "description"@));
    let data_type = or_empty(spec_property_value(object, "valueDataType"@));
    if (long_name is Some || short_name is Some) && description.len() > 0 {
        Some(TypeScriptFlagView { long_name, short_name, description, data_type })
    } else {
        None
    }
}

/// The text of an optional string, empty where there is none.
fn string_or_empty(o: Option<String>) -> (r: String)
    ensures
        r@ == or_empty(option_view(o)),
{
    match o {
        Some(s) => s,
        None => String::new(),
    }
}

/// The view of an optional flag.
pub open spec fn flag_option_view(o: Option<TypeScriptFlag>) -> Option<TypeScriptFlagView> {
    match o {
        Some(f) => Some(f@),
        None => None,
    }
}

/// The flag that the text of an object defines.
pub fn parse_single_flag(object_str: &str) -> (r: Option<TypeScriptFlag>)
    ensures
        flag_option_view(r) == spec_single_flag(object_str@),
{
    let object = to_chars(object_str);
    single_flag(&object)
}

/// The flag that the text `object` defines.
fn single_flag(object: &Vec<char>) -> (r: Option<TypeScriptFlag>)
    ensures
        flag_option_view(r) == spec_single_flag(object@),
{
    let long_name = property_value(object, "longName");
    let short_name = property_value(object, "shortName");
    let description = string_or_empty(property_value(object, "description"));
    let data_type = string_or_empty(property_value(object, "valueDataType"));
    if (long_name.is_some() || short_name.is_some()) && description.as_str().unicode_len() > 0 {
        Some(TypeScriptFlag { long_name, short_name, description, data_type })
    } else {
        None
    }
}

/// The flags that the objects of a text define, read from index `i` on,
/// where `count` braces are open, `in_object` says whether an object is
/// being read, and `current` is what was read of it.
///
/// `{` opens a brace and starts or goes on with an object; `}` closes one,
/// and the object ends where it closes the last one. The text of an object
/// that defines no flag is passed over.
pub open spec fn scan_objects(
    s: Seq<char>,
    i: int,
    count: int,
    in_object: bool,
    current: Seq<char>,
) -> Seq<TypeScriptFlagView>
    decreases s.len() - i,
{
    if i < 0 || i >= s.len() {
        Seq::empty()
    } else if s[i] == '{' {
        scan_objects(s, i + 1, count + 1, true, current.push(s[i]))
    } else if s[i] == '}' {
        if in_object && count == 1 {
            (match spec_single_flag(current.push(s[i])) {
                Some(flag) => seq![flag],
                None => Seq::empty(),
            }) + scan_objects(s, i + 1, 0, false, Seq::empty())
        } else {
            scan_objects(s, i + 1, count - 1, in_object, current.push(s[i]))
        }
    } else {
        scan_objects(
            s,
            i + 1,
            count,
            in_object,
            if in_object {
                current.push(s[i])
            } else {
                current
            },
        )
    }
}

/// The flags that the objects of the text of an array define.
pub open spec fn spec_flag_objects(content: Seq<char>) -> Seq<TypeScriptFlagView> {
    scan_objects(content, 0, 0, false, Seq::empty())
}

/// The flags that the objects of the text of an array define.
pub fn parse_flag_objects(flags_content: &str) -> (r: Vec<TypeScriptFlag>)
    ensures
        views(r@) == spec_flag_objects(flags_content@),
{
    let content = to_chars(flags_content);
    flag_objects(&content)
}

/// The flags that the objects of the text `content` define.
fn flag_objects(content: &Vec<char>) -> (r: Vec<TypeScriptFlag>)
    ensures
        views(r@) == spec_flag_objects(content@),
{
    let mut flags: Vec<TypeScriptFlag> = Vec::new();
    let mut current: Vec<char> = Vec::new();
    let mut count: i128 = 0;
    let mut in_object = false;
    let mut i: usize = 0;
    assert(views(flags@) + scan_objects(content@, 0, 0, false, current@) =~= spec_flag_objects(
        content@,
    ));
    while i < content.len()
        invariant
            i <= content.len(),
            -(i as int) <= count <= i as int,
            views(flags@) + scan_objects(content@, i as int, count as int, in_object, current@)
                == spec_flag_objects(content@),
        decreases content.len() - i,
    {
        let c = content[i];
        if c == '{' {
            count += 1;
            in_object = true;
            current.push(c);
        } else if c == '}' {
            current.push(c);
            if in_object && count == 1 {
                let ghost rest = scan_objects(content@, i + 1, 0, false, Seq::empty());
                match single_flag(&current) {
                    Some(flag) => {
                        proof {
                            lemma_views_push(flags@, flag);
                            assert(views(flags@).push(flag@) + rest =~= views(flags@) + (seq![
                                flag@,
                            ] + rest));
                        }
                        flags.push(flag);
                    },
                    None => {
                        assert(views(flags@) + rest =~= views(flags@) + (Seq::<
                            TypeScriptFlagView,
                        >::empty() + rest));
                    },
                }
                current = Vec::new();
                in_object = false;
                count = 0;
            } else {
                count -= 1;
            }
        } else if in_object {
            current.push(c);
        }
        i += 1;
    }
    assert(views(flags@) + Seq::<TypeScriptFlagView>::empty() =~= views(flags@));
    flags
}

/// Whether `c` opens a string: `'`, `"` or a backtick.
pub open spec fn is_quote(c: char) -> bool {
    c == '\'' || c == '"' || c == '`'
}

/// The index, from `i` on, of the `]` that closes the array, where
/// `bracket` square brackets and `brace` braces are open, `quote` is the
/// quote of the string being read, if any, and `escape` says whether the
/// character before was a backslash in a string.
///
/// Inside a string nothing counts but its closing quote, and a backslash
/// takes the character after it with it. Outside, brackets and braces are
/// counted, and the array closes at a `]` that finds none open.
pub open spec fn array_end(
    s: Seq<char>,
    i: int,
    bracket: int,
    brace: int,
    quote: Option<char>,
    escape: bool,
) -> Option<int>
    decreases s.len() - i,
{
    if i < 0 || i >= s.len() {
        None
    } else if escape {
        array_end(s, i + 1, bracket, brace, quote, false)
    } else {
        match quote {
            Some(q) => if s[i] == '\\' {
                array_end(s, i + 1, bracket, brace, quote, true)
            } else if s[i] == q {
                array_end(s, i + 1, bracket, brace, None, false)
            } else {
                array_end(s, i + 1, bracket, brace, quote, false)
            },
            None => if is_quote(s[i]) {
                array_end(s, i + 1, bracket, brace, Some(s[i]), false)
            } else if s[i] == '[' {
                array_end(s, i + 1, bracket + 1, brace, None, false)
            } else if s[i] == ']' {
                if bracket == 0 && brace == 0 {
                    Some(i)
                } else {
                    array_end(s, i + 1, bracket - 1, brace, None, false)
                }
            } else if s[i] == '{' {
                array_end(s, i + 1, bracket, brace + 1, None, false)
            } else if s[i] == '}' {
                array_end(s, i + 1, bracket, brace - 1, None, false)
            } else {
                array_end(s, i + 1, bracket, brace, None, false)
            },
        }
    }
}

/// Where the contents of the array of flags start: after the first `= [`
/// that stands at or after the first marker of the array.
pub open spec fn array_start(content: Seq<char>) -> Option<int> {
    match spec_find(content, FLAGS_MARKER@) {
        None => None,
        Some(marker) => match find_from(content, "= ["@, marker) {
            Some(assign) => Some(assign + 3),
            None => None,
        },
    }
}

/// The flags that the contents of a TypeScript file define: those of the
/// objects of its array of flags; none where it has no such array, or where
/// the array is never closed.
pub open spec fn spec_extract_flags(content: Seq<char>) -> Seq<TypeScriptFlagView> {
    match array_start(content) {
        None => Seq::empty(),
        Some(start) => match array_end(content, start, 0, 0, None, false) {
            Some(end) => spec_flag_objects(content.subrange(start, end)),
            None => Seq::empty(),
        },
    }
}

/// The first index at or after `from` where `pat` stands in `v`.
fn find_after(v: &Vec<char>, pat: &Vec<char>, from: usize) -> (r: Option<usize>)
    requires
        from <= v.len(),
    ensures
        match r {
            Some(k) => find_from(v@, pat@, from as int) == Some(k as int) && from <= k && k
                + pat.len() <= v.len(),
            None => find_from(v@, pat@, from as int) is None,
        },
{
    if pat.len() > v.len() || from > v.len() - pat.len() {
        return None;
    }
    let last: usize = v.len() - pat.len();
    let mut i: usize = from;
    while i < last
        invariant
            from <= i <= last,
            last == v.len() - pat.len(),
            find_from(v@, pat@, i as int) == find_from(v@, pat@, from as int),
        decreases last - i,
    {
        if matches_at(v, pat, i) {
            return Some(i);
        }
        i += 1;
    }
    assert(find_from(v@, pat@, last + 1) is None);
    if matches_at(v, pat, last) {
        Some(last)
    } else {
        None
    }
}

/// The index of the `]` that closes the array whose contents start at
/// `from`.
fn find_array_end(content: &Vec<char>, from: usize) -> (r: Option<usize>)
    requires
        from <= content.len(),
    ensures
        match r {
            Some(e) => array_end(content@, from as int, 0, 0, None, false) == Some(e as int)
                && from <= e < content.len(),
            None => array_end(content@, from as int, 0, 0, None, false) is None,
        },
{
    let mut bracket: i128 = 0;
    let mut brace: i128 = 0;
    let mut quote: Option<char> = None;
    let mut escape = false;
    let mut i: usize = from;
    while i < content.len()
        invariant
            from <= i <= content.len(),
            -(i as int) <= bracket <= i as int,
            -(i as int) <= brace <= i as int,
            array_end(content@, i as int, bracket as int, brace as int, quote, escape)
                == array_end(content@, from as int, 0, 0, None, false),
        decreases content.len() - i,
    {
        let c = content[i];
        if escape {
            escape = false;
        } else {
            match quote {
                Some(q) => {
                    if c == '\\' {
                        escape = true;
                    } else if c == q {
                        quote = None;
                    }
                },
                None => {
                    if c == '\'' || c == '"' || c == '`' {
                        quote = Some(c);
                    } else if c == '[' {
                        bracket += 1;
                    } else if c == ']' {
                        if bracket == 0 && brace == 0 {
                            return Some(i);
                        }
                        bracket -= 1;
                    } else if c == '{' {
                        brace += 1;
                    } else if c == '}' {
                        brace -= 1;
                    }
                },
            }
        }
        i += 1;
    }
    None
}

/// The flags that the contents of a TypeScript file define.
pub fn extract_flags_from_typescript(content: &str) -> (r: Vec<TypeScriptFlag>)
    ensures
        views(r@) == spec_extract_flags(content@),
{
    let text = to_chars(content);
    let marker = to_chars(FLAGS_MARKER);
    let assign = to_chars("= [");
    let empty: Vec<TypeScriptFlag> = Vec::new();
    assert(views(empty@) =~= Seq::<TypeScriptFlagView>::empty());
    let marker_at = match find(&text, &marker) {
        Some(k) => k,
        None => {
            return empty;
        },
    };
    proof {
        lemma_find_from(text@, marker@, 0);
        assert(occurs_at(text@, marker@, marker_at as int));
        reveal_strlit("= [");
    }
    let assign_at = match find_after(&text, &assign, marker_at) {
        Some(k) => k,
        None => {
            return empty;
        },
    };
    let start: usize = assign_at + 3;
    match find_array_end(&text, start) {
        Some(end) => {
            let inner = slice(&text, start, end);
            flag_objects(&inner)
        },
        None => empty,
    }
}

/// What a comparison reads of a flag of a TypeScript file.
pub open spec fn ts_flag_facts(flag: TypeScriptFlagView) -> FlagFactsView {
    FlagFactsView {
        signature: spec_ts_signature(flag),
        display: spec_ts_display(flag),
        description: flag.description,
        data_type: Some(flag.data_type),
    }
}

/// What a comparison reads of the flags of a TypeScript file.
pub open spec fn facts_of_ts_flags(flags: Seq<TypeScriptFlagView>) -> Seq<FlagFactsView> {
    Seq::new(flags.len(), |i: int| ts_flag_facts(flags[i]))
}

/// What a comparison reads of the flags of a TypeScript file.
fn ts_facts(flags: &Vec<TypeScriptFlag>) -> (r: Vec<FlagFacts>)
    ensures
        views(r@) == facts_of_ts_flags(views(flags@)),
{
    let mut out: Vec<FlagFacts> = Vec::new();
    let mut i: usize = 0;
    while i < flags.len()
        invariant
            i <= flags.len(),
            out.len() == i,
            forall|k: int| 0 <= k < i ==> (#[trigger] out@[k])@ == ts_flag_facts(flags@[k]@),
        decreases flags.len() - i,
    {
        out.push(
            FlagFacts {
                signature: flags[i].get_signature(),
                display: flags[i].format_display(),
                description: flags[i].description.clone(),
                data_type: Some(flags[i].data_type.clone()),
            },
        );
        i += 1;
    }
    assert(views(out@) =~= facts_of_ts_flags(views(flags@)));
    out
}

/// The changes between two versions of the file of one command: the flags
/// added, the flags removed, and the flags whose description or type
/// changed, under the path that the file's path gives the command.
pub open spec fn spec_analyze_typescript_changes(
    from_content: Seq<char>,
    to_content: Seq<char>,
    file_path: Seq<char>,
) -> Seq<ChangeView> {
    compare_facts(
        facts_of_ts_flags(spec_extract_flags(from_content)),
        facts_of_ts_flags(spec_extract_flags(to_content)),
        command_path(spec_command_info(file_path).parent, spec_command_info(file_path).command),
    )
}

/// Appends the changes between two versions of the file of one command.
pub fn analyze_typescript_changes(
    from_content: &str,
    to_content: &str,
    file_path: &str,
    changes: &mut Vec<ChangeType>,
)
    ensures
        views(final(changes)@) == views(old(changes)@) + spec_analyze_typescript_changes(
            from_content@,
            to_content@,
            file_path@,
        ),
{
    let path = match extract_command_from_path(file_path) {
        Some(info) => {
            if info.parent.as_str().unicode_len() == 0 {
                to_chars(info.command.as_str())
            } else {
                let mut p = to_chars(info.parent.as_str());
                p.push(' ');
                let c = to_chars(info.command.as_str());
                push_chars(&mut p, &c);
                assert(p@ =~= info.parent@ + seq![' '] + info.command@);
                p
            }
        },
        None => Vec::new(),
    };
    let from_flags = ts_facts(&extract_flags_from_typescript(from_content));
    let to_flags = ts_facts(&extract_flags_from_typescript(to_content));
    compare_fact_lists(&from_flags, &to_flags, &path, changes);
}

/// A TypeScript file: its path below the directory of its tree, and its
/// contents.
#[derive(Debug, Clone)]
pub struct TsFile {
    pub path: String,
    pub content: String,
}

/// The mathematical value of a [`TsFile`].
pub struct TsFileView {
    pub path: Seq<char>,
    pub content: Seq<char>,
}

impl View for TsFile {
    type V = TsFileView;

    open spec fn view(&self) -> TsFileView {
        TsFileView { path: self.path@, content: self.content@ }
    }
}

/// The index of the first file, from `i` on, with the path `path`.
pub open spec fn index_of_path(files: Seq<TsFileView>, path: Seq<char>, i: int) -> Option<int>
    decreases files.len() - i,
{
    if i < 0 || i >= files.len() {
        None
    } else if files[i].path == path {
        Some(i)
    } else {
        index_of_path(files, path, i + 1)
    }
}

/// The commands of the first `n` files of `to` whose path no file of `from`
/// has, each reported as added.
pub open spec fn files_added(from: Seq<TsFileView>, to: Seq<TsFileView>, n: int) -> Seq<
    ChangeView,
>
    decreases n,
{
    if n <= 0 || n > to.len() {
        Seq::empty()
    } else if index_of_path(from, to[n - 1].path, 0) is Some {
        files_added(from, to, n - 1)
    } else {
        files_added(from, to, n - 1).push(
            ChangeView::CommandAdded {
                parent: spec_command_info(to[n - 1].path).parent,
                command: spec_command_info(to[n - 1].path).command,
            },
        )
    }
}

/// The commands of the first `n` files of `from` whose path no file of `to`
/// has, each reported as removed.
pub open spec fn files_removed(from: Seq<TsFileView>, to: Seq<TsFileView>, n: int) -> Seq<
    ChangeView,
>
    decreases n,
{
    if n <= 0 || n > from.len() {
        Seq::empty()
    } else if index_of_path(to, from[n - 1].path, 0) is Some {
        files_removed(from, to, n - 1)
    } else {
        files_removed(from, to, n - 1).push(
            ChangeView::CommandRemoved {
                parent: spec_command_info(from[n - 1].path).parent,
                command: spec_command_info(from[n - 1].path).command,
            },
        )
    }
}

/// The changes of the first `n` files of `from` whose path a file of `to`
/// has too, with other contents.
pub open spec fn files_changed(from: Seq<TsFileView>, to: Seq<TsFileView>, n: int) -> Seq<
    ChangeView,
>
    decreases n,
{
    if n <= 0 || n > from.len() {
        Seq::empty()
    } else {
        match index_of_path(to, from[n - 1].path, 0) {
            Some(j) => if from[n - 1].content != to[j].content {
                files_changed(from, to, n - 1) + spec_analyze_typescript_changes(
                    from[n - 1].content,
                    to[j].content,
                    from[n - 1].path,
                )
            } else {
                files_changed(from, to, n - 1)
            },
            None => files_changed(from, to, n - 1),
        }
    }
}

/// The changes between two trees written out as TypeScript files: the
/// commands added, the commands removed, then the changes of the flags of
/// the commands whose files differ.
pub open spec fn spec_compare_typescript_files(from: Seq<TsFileView>, to: Seq<TsFileView>) -> Seq<
    ChangeView,
> {
    files_added(from, to, to.len() as int) + files_removed(from, to, from.len() as int)
        + files_changed(from, to, from.len() as int)
}

/// The index of the first file of `files` with the path `path`.
fn find_file(files: &Vec<TsFile>, path: &str) -> (r: Option<usize>)
    ensures
        match r {
            Some(k) => index_of_path(views(files@), path@, 0) == Some(k as int) && k
                < files.len(),
            None => index_of_path(views(files@), path@, 0) is None,
        },
{
    let mut i: usize = 0;
    while i < files.len()
        invariant
            i <= files.len(),
            index_of_path(views(files@), path@, i as int) == index_of_path(
                views(files@),
                path@,
                0,
            ),
        decreases files.len() - i,
    {
        if str_equal(files[i].path.as_str(), path) {
            return Some(i);
        }
        i += 1;
    }
    None
}

/// The changes between two trees written out as TypeScript files.
pub fn compare_typescript_files(from: &Vec<TsFile>, to: &Vec<TsFile>) -> (r: Vec<ChangeType>)
    ensures
        views(r@) == spec_compare_typescript_files(views(from@), views(to@)),
{
    let mut changes: Vec<ChangeType> = Vec::new();
    let ghost f = views(from@);
    let ghost t = views(to@);
    let mut j: usize = 0;
    assert(views(changes@) =~= files_added(f, t, 0));
    while j < to.len()
        invariant
            j <= to.len(),
            f == views(from@),
            t == views(to@),
            views(changes@) == files_added(f, t, j as int),
        decreases to.len() - j,
    {
        if find_file(from, to[j].path.as_str()).is_none() {
            match extract_command_from_path(to[j].path.as_str()) {
                Some(info) => {
                    let change = ChangeType::CommandAdded {
                        parent: info.parent,
                        command: info.command,
                    };
                    proof {
                        lemma_views_push(changes@, change);
                    }
                    changes.push(change);
                },
                None => {},
            }
        }
        j += 1;
    }
    let ghost added = files_added(f, t, t.len() as int);
    let mut i: usize = 0;
    assert(views(changes@) =~= added + files_removed(f, t, 0));
    while i < from.len()
        invariant
            i <= from.len(),
            f == views(from@),
            t == views(to@),
            views(changes@) == added + files_removed(f, t, i as int),
        decreases from.len() - i,
    {
        if find_file(to, from[i].path.as_str()).is_none() {
            match extract_command_from_path(from[i].path.as_str()) {
                Some(info) => {
                    let change = ChangeType::CommandRemoved {
                        parent: info.parent,
                        command: info.command,
                    };
                    proof {
                        lemma_views_push(changes@, change);
                        assert((added + files_removed(f, t, i as int)).push(change@) =~= added
                            + files_removed(f, t, i as int).push(change@));
                    }
                    changes.push(change);
                },
                None => {},
            }
        }
        i += 1;
    }
    let ghost removed = files_removed(f, t, f.len() as int);
    let mut i: usize = 0;
    assert(views(changes@) =~= added + removed + files_changed(f, t, 0));
    while i < from.len()
        invariant
            i <= from.len(),
            f == views(from@),
            t == views(to@),
            views(changes@) == added + removed + files_changed(f, t, i as int),
        decreases from.len() - i,
    {
        match find_file(to, from[i].path.as_str()) {
            Some(k) => {
                if !str_equal(from[i].content.as_str(), to[k].content.as_str()) {
                    let ghost so_far = views(changes@);
                    analyze_typescript_changes(
                        from[i].content.as_str(),
                        to[k].content.as_str(),
                        from[i].path.as_str(),
                        &mut changes,
                    );
                    assert(views(changes@) =~= added + removed + (files_changed(f, t, i as int)
                        + spec_analyze_typescript_changes(
                        f[i as int].content,
                        t[k as int].content,
                        f[i as int].path,
                    )));
                }
            },
            None => {},
        }
        i += 1;
    }
    changes
}

} // verus!
