//! The texts of the reports, and the places of the files of a program.
//!
//! A report is made as one text. Where a format has no text of its own
//! (JSON is written by the caller from the values themselves), none is
//! given.
use vstd::prelude::*;
use crate::cli_navigator_toolkit::{push_decimal, spec_decimal};
use crate::comparison::{ChangeType, ChangeView, spec_format};
use crate::models::{
    CLIKeywords, CLISummary, FileOutputFormat, ParseOutputFormat, option_view, spec_file_extension,
};
use crate::sorting::{sort_order, sorted_order};
use crate::summary_generator::CLIKeywordsView;
use crate::text::{from_chars, push_chars, push_str, str_equal, to_chars};
use crate::words::{last_index_of_char, rfind_char, spec_join, views};

verus! {

/// The strings of `parts` in one text, with `sep` between each two.
pub fn join_strings(parts: &Vec<String>, sep: &str) -> (r: Vec<char>)
    ensures
        r@ == spec_join(views(parts@), sep@),
{
    let mut out: Vec<char> = Vec::new();
    let ghost all = views(parts@);
    let mut i: usize = 0;
    while i < parts.len()
        invariant
            i <= parts.len(),
            all == views(parts@),
            out@ == spec_join(all.take(i as int), sep@),
        decreases parts.len() - i,
    {
        let ghost before = all.take(i as int);
        let ghost after = all.take(i + 1);
        assert(after.drop_last() =~= before);
        assert(after.last() == parts@[i as int]@);
        if i > 0 {
            push_str(&mut out, sep);
        } else {
            assert(out@ + parts@[i as int]@ =~= parts@[i as int]@);
        }
        push_str(&mut out, parts[i].as_str());
        i += 1;
    }
    assert(all.take(parts@.len() as int) =~= all);
    out
}

/// One line for each of the first `n` texts: the label, a comma and the
/// text.
pub open spec fn labelled_lines(label: Seq<char>, items: Seq<Seq<char>>, n: int) -> Seq<char>
    decreases n,
{
    if n <= 0 || n > items.len() {
        Seq::empty()
    } else {
        labelled_lines(label, items, n - 1) + label + ","@ + items[n - 1] + "\n"@
    }
}

/// One line for each text of `items`: the label, a comma and the text.
fn labelled_lines_chars(label: &str, items: &Vec<String>) -> (r: Vec<char>)
    ensures
        r@ == labelled_lines(label@, views(items@), items@.len() as int),
{
    let mut out: Vec<char> = Vec::new();
    let mut i: usize = 0;
    while i < items.len()
        invariant
            i <= items.len(),
            out@ == labelled_lines(label@, views(items@), i as int),
        decreases items.len() - i,
    {
        push_str(&mut out, label);
        push_str(&mut out, ",");
        push_str(&mut out, items[i].as_str());
        push_str(&mut out, "\n");
        i += 1;
    }
    out
}

/// The report of the keywords of a program in Markdown.
pub open spec fn keywords_markdown(k: CLIKeywordsView) -> Seq<char> {
    "# `"@ + k.base_program + "`\n\n## First level commands\n\n"@ + spec_join(
        k.commands,
        "\n- "@,
    ) + "\n\n## All subcommands\n\n"@ + spec_join(k.subcommands, " "@) + "\n\n## Short flags\n\n"@
        + spec_join(k.short_flags, " "@) + "\n\n## Long flags\n\n"@ + spec_join(
        k.long_flags,
        " "@,
    )
}

/// The report of the keywords of a program as plain text.
pub open spec fn keywords_text(k: CLIKeywordsView) -> Seq<char> {
    k.base_program + ":\n\nFirst level commands:\n"@ + spec_join(k.commands, "\n- "@)
        + "\n\nAll subcommands:\n"@ + spec_join(k.subcommands, " "@) + "\n\nShort flags:\n"@
        + spec_join(k.short_flags, " "@) + "\n\nLong flags:\n"@ + spec_join(k.long_flags, " "@)
}

/// The report of the keywords of a program as comma-separated values: a
/// line for the program, and one for each keyword with its kind.
pub open spec fn keywords_csv(k: CLIKeywordsView) -> Seq<char> {
    "type,value\nbase_program,"@ + k.base_program + "\n"@ + labelled_lines(
        "command"@,
        k.commands,
        k.commands.len() as int,
    ) + labelled_lines("subcommand"@, k.subcommands, k.subcommands.len() as int)
        + labelled_lines("short_flag"@, k.short_flags, k.short_flags.len() as int)
        + labelled_lines("long_flag"@, k.long_flags, k.long_flags.len() as int)
}

/// The report of the keywords of a program in a format; none for JSON.
pub open spec fn spec_render_keywords(k: CLIKeywordsView, format: FileOutputFormat) -> Option<
    Seq<char>,
> {
    match format {
        FileOutputFormat::Markdown => Some(keywords_markdown(k)),
        FileOutputFormat::Text => Some(keywords_text(k)),
        FileOutputFormat::Csv => Some(keywords_csv(k)),
        FileOutputFormat::Json => None,
    }
}

/// The report of the keywords of a program in the format `format`; none for
/// JSON, which is written from the keywords themselves.
pub fn render_keywords(keywords: &CLIKeywords, format: FileOutputFormat) -> (r: Option<String>)
    ensures
        option_view(r) == spec_render_keywords(keywords@, format),
{
    match format {
        FileOutputFormat::Markdown => {
            let mut out = to_chars("# `");
            push_str(&mut out, keywords.base_program.as_str());
            push_str(&mut out, "`\n\n## First level commands\n\n");
            push_chars(&mut out, &join_strings(&keywords.commands, "\n- "));
            push_str(&mut out, "\n\n## All subcommands\n\n");
            push_chars(&mut out, &join_strings(&keywords.subcommands, " "));
            push_str(&mut out, "\n\n## Short flags\n\n");
            push_chars(&mut out, &join_strings(&keywords.short_flags, " "));
            push_str(&mut out, "\n\n## Long flags\n\n");
            push_chars(&mut out, &join_strings(&keywords.long_flags, " "));
            Some(from_chars(&out))
        },
        FileOutputFormat::Text => {
            let mut out = to_chars(keywords.base_program.as_str());
            push_str(&mut out, ":\n\nFirst level commands:\n");
            push_chars(&mut out, &join_strings(&keywords.commands, "\n- "));
            push_str(&mut out, "\n\nAll subcommands:\n");
            push_chars(&mut out, &join_strings(&keywords.subcommands, " "));
            push_str(&mut out, "\n\nShort flags:\n");
            push_chars(&mut out, &join_strings(&keywords.short_flags, " "));
            push_str(&mut out, "\n\nLong flags:\n");
            push_chars(&mut out, &join_strings(&keywords.long_flags, " "));
            Some(from_chars(&out))
        },
        FileOutputFormat::Csv => {
            let mut out = to_chars("type,value\nbase_program,");
            push_str(&mut out, keywords.base_program.as_str());
            push_str(&mut out, "\n");
            push_chars(&mut out, &labelled_lines_chars("command", &keywords.commands));
            push_chars(&mut out, &labelled_lines_chars("subcommand", &keywords.subcommands));
            push_chars(&mut out, &labelled_lines_chars("short_flag", &keywords.short_flags));
            push_chars(&mut out, &labelled_lines_chars("long_flag", &keywords.long_flags));
            Some(from_chars(&out))
        },
        FileOutputFormat::Json => None,
    }
}

/// The nine counts of a summary, in the order of the reports.
pub open spec fn summary_counts(s: CLISummary) -> Seq<nat> {
    seq![
        s.unique_keywords_count as nat,
        s.unique_command_count as nat,
        s.unique_subcommand_count as nat,
        s.unique_short_flag_count as nat,
        s.unique_long_flag_count as nat,
        s.total_command_count as nat,
        s.total_subcommand_count as nat,
        s.total_short_flag_count as nat,
        s.total_long_flag_count as nat,
    ]
}

/// The title of each count of a summary.
pub open spec fn summary_titles() -> Seq<Seq<char>> {
    seq![
        "Unique Keywords Count"@,
        "Unique Command Count"@,
        "Unique Subcommand Count"@,
        "Unique Short Flag Count"@,
        "Unique Long Flag Count"@,
        "Total Command Count"@,
        "Total Subcommand Count"@,
        "Total Short Flag Count"@,
        "Total Long Flag Count"@,
    ]
}

/// The name of each count of a summary.
pub open spec fn summary_names() -> Seq<Seq<char>> {
    seq![
        "unique_keywords_count"@,
        "unique_command_count"@,
        "unique_subcommand_count"@,
        "unique_short_flag_count"@,
        "unique_long_flag_count"@,
        "total_command_count"@,
        "total_subcommand_count"@,
        "total_short_flag_count"@,
        "total_long_flag_count"@,
    ]
}

/// The first `n` counts in Markdown: for each a heading and the number,
/// with blank lines between.
pub open spec fn summary_sections(counts: Seq<nat>, n: int) -> Seq<char>
    decreases n,
{
    if n <= 0 || n > counts.len() || n > summary_titles().len() {
        Seq::empty()
    } else {
        summary_sections(counts, n - 1) + "\n\n## "@ + summary_titles()[n - 1] + "\n\n"@
            + spec_decimal(counts[n - 1])
    }
}

/// The first `n` counts as plain text: for each its title and the number,
/// a blank line between each two.
pub open spec fn summary_lines(counts: Seq<nat>, n: int) -> Seq<char>
    decreases n,
{
    if n <= 0 || n > counts.len() || n > summary_titles().len() {
        Seq::empty()
    } else if n == 1 {
        summary_titles()[0] + ": "@ + spec_decimal(counts[0])
    } else {
        summary_lines(counts, n - 1) + "\n\n"@ + summary_titles()[n - 1] + ": "@ + spec_decimal(
            counts[n - 1],
        )
    }
}

/// The first `n` counts as comma-separated values: for each a line with
/// its name and the number.
pub open spec fn summary_rows(counts: Seq<nat>, n: int) -> Seq<char>
    decreases n,
{
    if n <= 0 || n > counts.len() || n > summary_names().len() {
        Seq::empty()
    } else {
        summary_rows(counts, n - 1) + summary_names()[n - 1] + ","@ + spec_decimal(counts[n - 1])
            + "\n"@
    }
}

/// The report of a summary in a format; none for JSON.
pub open spec fn spec_render_summary(s: CLISummary, format: FileOutputFormat) -> Option<
    Seq<char>,
> {
    match format {
        FileOutputFormat::Markdown => Some("# CLI Summary"@ + summary_sections(summary_counts(s), 9)),
        FileOutputFormat::Text => Some(summary_lines(summary_counts(s), 9)),
        FileOutputFormat::Csv => Some("metric,value\n"@ + summary_rows(summary_counts(s), 9)),
        FileOutputFormat::Json => None,
    }
}

/// The nine counts of a summary, in the order of the reports.
fn counts_of(s: &CLISummary) -> (r: Vec<u64>)
    ensures
        r@.map_values(|c: u64| c as nat) == summary_counts(*s),
        r.len() == 9,
{
    let r: Vec<u64> = vec![
        s.unique_keywords_count as u64,
        s.unique_command_count as u64,
        s.unique_subcommand_count as u64,
        s.unique_short_flag_count as u64,
        s.unique_long_flag_count as u64,
        s.total_command_count as u64,
        s.total_subcommand_count as u64,
        s.total_short_flag_count as u64,
        s.total_long_flag_count as u64,
    ];
    assert(r@.map_values(|c: u64| c as nat) =~= summary_counts(*s));
    r
}

/// The title of each count of a summary.
fn titles() -> (r: Vec<&'static str>)
    ensures
        views(r@) == summary_titles(),
        r.len() == 9,
{
    let r: Vec<&'static str> = vec![
        "Unique Keywords Count",
        "Unique Command Count",
        "Unique Subcommand Count",
        "Unique Short Flag Count",
        "Unique Long Flag Count",
        "Total Command Count",
        "Total Subcommand Count",
        "Total Short Flag Count",
        "Total Long Flag Count",
    ];
    assert(views(r@) =~= summary_titles());
    r
}

/// The name of each count of a summary.
fn names() -> (r: Vec<&'static str>)
    ensures
        views(r@) == summary_names(),
        r.len() == 9,
{
    let r: Vec<&'static str> = vec![
        "unique_keywords_count",
        "unique_command_count",
        "unique_subcommand_count",
        "unique_short_flag_count",
        "unique_long_flag_count",
        "total_command_count",
        "total_subcommand_count",
        "total_short_flag_count",
        "total_long_flag_count",
    ];
    assert(views(r@) =~= summary_names());
    r
}

/// The report of a summary in the format `format`; none for JSON, which is
/// written from the counts themselves.
pub fn render_summary(summary: &CLISummary, format: FileOutputFormat) -> (r: Option<String>)
    ensures
        option_view(r) == spec_render_summary(*summary, format),
{
    let counts = counts_of(summary);
    let ghost cs = summary_counts(*summary);
    match format {
        FileOutputFormat::Markdown => {
            let all = titles();
            let mut body: Vec<char> = Vec::new();
            let mut i: usize = 0;
            while i < 9
                invariant
                    i <= 9,
                    counts.len() == 9,
                    all.len() == 9,
                    views(all@) == summary_titles(),
                    counts@.map_values(|c: u64| c as nat) == cs,
                    body@ == summary_sections(cs, i as int),
                decreases 9 - i,
            {
                assert(cs[i as int] == counts@[i as int] as nat);
                assert(views(all@)[i as int] == all@[i as int]@);
                push_str(&mut body, "\n\n## ");
                push_str(&mut body, all[i]);
                push_str(&mut body, "\n\n");
                push_decimal(&mut body, counts[i]);
                i += 1;
            }
            let mut out = to_chars("# CLI Summary");
            push_chars(&mut out, &body);
            Some(from_chars(&out))
        },
        FileOutputFormat::Text => {
            let all = titles();
            let mut body: Vec<char> = Vec::new();
            let mut i: usize = 0;
            while i < 9
                invariant
                    i <= 9,
                    counts.len() == 9,
                    all.len() == 9,
                    views(all@) == summary_titles(),
                    counts@.map_values(|c: u64| c as nat) == cs,
                    body@ == summary_lines(cs, i as int),
                decreases 9 - i,
            {
                assert(cs[i as int] == counts@[i as int] as nat);
                assert(views(all@)[i as int] == all@[i as int]@);
                if i > 0 {
                    push_str(&mut body, "\n\n");
                    push_str(&mut body, all[i]);
                } else {
                    body = to_chars(all[i]);
                }
                push_str(&mut body, ": ");
                push_decimal(&mut body, counts[i]);
                i += 1;
            }
            Some(from_chars(&body))
        },
        FileOutputFormat::Csv => {
            let all = names();
            let mut body: Vec<char> = Vec::new();
            let mut i: usize = 0;
            while i < 9
                invariant
                    i <= 9,
                    counts.len() == 9,
                    all.len() == 9,
                    views(all@) == summary_names(),
                    counts@.map_values(|c: u64| c as nat) == cs,
                    body@ == summary_rows(cs, i as int),
                decreases 9 - i,
            {
                assert(cs[i as int] == counts@[i as int] as nat);
                assert(views(all@)[i as int] == all@[i as int]@);
                push_str(&mut body, all[i]);
                push_str(&mut body, ",");
                push_decimal(&mut body, counts[i]);
                push_str(&mut body, "\n");
                i += 1;
            }
            let mut out = to_chars("metric,value\n");
            push_chars(&mut out, &body);
            Some(from_chars(&out))
        },
        FileOutputFormat::Json => None,
    }
}

/// Why two versions cannot be chosen for a comparison.
#[derive(Debug, Clone, Copy, PartialEq, Eq, Structural)]
pub enum SelectError {
    /// No version of the program is at hand.
    NoVersions,
    /// No second version is named and fewer than two are at hand.
    NeedTwoVersions,
}

/// The version at place `place` of the versions at hand, counted from the
/// greatest down.
pub open spec fn version_at(available: Seq<Seq<char>>, place: int) -> Seq<char> {
    available[sorted_order(available, available.len() as int)[available.len() - 1 - place]]
}

/// The two versions to compare: the first is the one named, or else the
/// greatest at hand; the second is the one named, or else the next
/// greatest. None can be chosen where no version is at hand, even where both
/// are named, nor where no second is named and only one is at hand.
pub open spec fn spec_select_versions(
    available: Seq<Seq<char>>,
    from_tag: Option<Seq<char>>,
    to_tag: Option<Seq<char>>,
) -> Result<(Seq<char>, Seq<char>), SelectError> {
    if available.len() == 0 {
        Err(SelectError::NoVersions)
    } else if to_tag is None && available.len() < 2 {
        Err(SelectError::NeedTwoVersions)
    } else {
        Ok(
            (
                match from_tag {
                    Some(tag) => tag,
                    None => version_at(available, 0),
                },
                match to_tag {
                    Some(tag) => tag,
                    None => version_at(available, 1),
                },
            ),
        )
    }
}

/// The view of a choice of versions.
pub open spec fn selection_view(r: Result<(String, String), SelectError>) -> Result<
    (Seq<char>, Seq<char>),
    SelectError,
> {
    match r {
        Ok((from, to)) => Ok((from@, to@)),
        Err(e) => Err(e),
    }
}

/// The two versions to compare, of those at hand.
pub fn select_versions(
    available: &Vec<String>,
    from_tag: Option<&str>,
    to_tag: Option<&str>,
) -> (r: Result<(String, String), SelectError>)
    ensures
        selection_view(r) == spec_select_versions(
            views(available@),
            match from_tag {
                Some(t) => Some(t@),
                None => None,
            },
            match to_tag {
                Some(t) => Some(t@),
                None => None,
            },
        ),
{
    if available.len() == 0 {
        return Err(SelectError::NoVersions);
    }
    if to_tag.is_none() && available.len() < 2 {
        return Err(SelectError::NeedTwoVersions);
    }
    let mut keys: Vec<Vec<char>> = Vec::new();
    let mut i: usize = 0;
    while i < available.len()
        invariant
            i <= available.len(),
            keys.len() == i,
            forall|k: int| 0 <= k < i ==> (#[trigger] keys@[k])@ == available@[k]@,
        decreases available.len() - i,
    {
        keys.push(to_chars(available[i].as_str()));
        i += 1;
    }
    assert(views(keys@) =~= views(available@));
    let order = sort_order(&keys);
    let n = available.len();
    let from = match from_tag {
        Some(tag) => String::from_str(tag),
        None => {
            assert(order@.map_values(|i: usize| i as int)[n - 1] == order@[n - 1] as int);
            available[order[n - 1]].clone()
        },
    };
    let to = match to_tag {
        Some(tag) => String::from_str(tag),
        None => {
            assert(order@.map_values(|i: usize| i as int)[n - 2] == order@[n - 2] as int);
            available[order[n - 2]].clone()
        },
    };
    Ok((from, to))
}

/// The name of the file that holds a parsed tree in a format.
pub open spec fn parsed_file_name(format: ParseOutputFormat) -> Seq<char> {
    "parsed."@ + spec_file_extension(format)
}

/// The name of the file that holds a parsed tree in the format `format`.
pub fn parsed_file_name_of(format: ParseOutputFormat) -> (r: String)
    ensures
        r@ == parsed_file_name(format),
{
    let mut out = to_chars("parsed.");
    push_str(&mut out, format.get_file_extension());
    from_chars(&out)
}

/// The directory of a program's tree: the tag, where one is given; else
/// the version of the program, or `latest` where that is empty or unknown.
pub open spec fn version_or_tag(version: Seq<char>, tag: Option<Seq<char>>) -> Seq<char> {
    match tag {
        Some(t) => t,
        None => if version.len() == 0 || version == "Unknown"@ {
            "latest"@
        } else {
            version
        },
    }
}

/// The place of the tree of a program where none is asked for: the parts
/// of the path `out/<program>/<tag or version>/<file>`, where the file is
/// named after the program for a TypeScript directory and `parsed` with the
/// extension of the format for every other format.
pub open spec fn spec_default_output_parts(
    program_name: Seq<char>,
    program_version: Seq<char>,
    tag: Option<Seq<char>>,
    format: ParseOutputFormat,
) -> Seq<Seq<char>> {
    seq![
        "out"@,
        program_name,
        version_or_tag(program_version, tag),
        if format == ParseOutputFormat::TypeScriptDirectory {
            program_name
        } else {
            parsed_file_name(format)
        },
    ]
}

/// The place of the tree of a program where none is asked for, as the
/// parts of a path below the working directory.
pub fn default_output_parts(
    program_name: &str,
    program_version: &str,
    tag: Option<&str>,
    format: ParseOutputFormat,
) -> (r: Vec<String>)
    ensures
        views(r@) == spec_default_output_parts(
            program_name@,
            program_version@,
            match tag {
                Some(t) => Some(t@),
                None => None,
            },
            format,
        ),
{
    let directory = match tag {
        Some(t) => String::from_str(t),
        None => {
            if program_version.unicode_len() == 0 || str_equal(program_version, "Unknown") {
                String::from_str("latest")
            } else {
                String::from_str(program_version)
            }
        },
    };
    let file = match format {
        ParseOutputFormat::TypeScriptDirectory => String::from_str(program_name),
        _ => parsed_file_name_of(format),
    };
    let r: Vec<String> = vec![
        String::from_str("out"),
        String::from_str(program_name),
        directory,
        file,
    ];
    assert(views(r@) =~= spec_default_output_parts(
        program_name@,
        program_version@,
        match tag {
            Some(t) => Some(t@),
            None => None,
        },
        format,
    ));
    r
}

/// The place of the tree of a program below a directory that is asked
/// for, under a tag: the parts `<program>/<tag>/parsed.<extension>`.
pub open spec fn spec_tagged_output_parts(
    program_name: Seq<char>,
    tag: Seq<char>,
    format: ParseOutputFormat,
) -> Seq<Seq<char>> {
    seq![program_name, tag, parsed_file_name(format)]
}

/// The place of the tree of a program below a directory that is asked
/// for, under the tag `tag`.
pub fn tagged_output_parts(program_name: &str, tag: &str, format: ParseOutputFormat) -> (r: Vec<
    String,
>)
    ensures
        views(r@) == spec_tagged_output_parts(program_name@, tag@, format),
{
    let r: Vec<String> = vec![
        String::from_str(program_name),
        String::from_str(tag),
        parsed_file_name_of(format),
    ];
    assert(views(r@) =~= spec_tagged_output_parts(program_name@, tag@, format));
    r
}

/// The place of the tree of one version of a program that is compared:
/// the parts `<version>/<program>` for a TypeScript directory, and
/// `<version>/parsed.<extension>` for every other format.
pub open spec fn spec_version_parts(
    program_name: Seq<char>,
    version: Seq<char>,
    format: ParseOutputFormat,
) -> Seq<Seq<char>> {
    seq![
        version,
        if format == ParseOutputFormat::TypeScriptDirectory {
            program_name
        } else {
            parsed_file_name(format)
        },
    ]
}

/// The place of the tree of the version `version` of a program, below the
/// directory of the program.
pub fn version_parts(program_name: &str, version: &str, format: ParseOutputFormat) -> (r: Vec<
    String,
>)
    ensures
        views(r@) == spec_version_parts(program_name@, version@, format),
{
    let file = match format {
        ParseOutputFormat::TypeScriptDirectory => String::from_str(program_name),
        _ => parsed_file_name_of(format),
    };
    let r: Vec<String> = vec![String::from_str(version), file];
    assert(views(r@) =~= spec_version_parts(program_name@, version@, format));
    r
}

/// The name of the file in which the tree of a program is looked for
/// before the program is run: what follows the last `/` of the command,
/// with `.json` after it.
pub open spec fn spec_cached_tree_name(command: Seq<char>) -> Seq<char> {
    (match last_index_of_char(command, '/', command.len() as int) {
        Some(slash) => command.subrange(slash + 1, command.len() as int),
        None => command,
    }) + ".json"@
}

/// The name of the file in which the tree of the program `command` is
/// looked for before the program is run.
pub fn cached_tree_name(command: &str) -> (r: String)
    ensures
        r@ == spec_cached_tree_name(command@),
{
    let chars = to_chars(command);
    let mut out = match rfind_char(&chars, '/') {
        Some(slash) => crate::text::slice(&chars, slash + 1, chars.len()),
        None => chars,
    };
    push_str(&mut out, ".json");
    from_chars(&out)
}

/// The lines of the first `n` changes, one change after the other.
pub open spec fn change_lines(changes: Seq<ChangeView>, n: int) -> Seq<char>
    decreases n,
{
    if n <= 0 || n > changes.len() {
        Seq::empty()
    } else {
        change_lines(changes, n - 1) + spec_format(changes[n - 1]) + "\n"@
    }
}

/// The hint that follows a list of changes: how to compare the two trees
/// by other means.
pub open spec fn comparison_tip(from_path: Seq<char>, to_path: Seq<char>, typescript: bool) -> Seq<
    char,
> {
    if typescript {
        "Tip: Use git diff for file-level comparison:\n  diff -r "@ + from_path + " "@ + to_path
            + "\n"@
    } else {
        "Tip: Use a JSON diff tool for raw comparison:\n  diff <(jq . "@ + from_path
            + ") <(jq . "@ + to_path + ")\n"@
    }
}

/// The report of a comparison of two versions: that nothing differs, or
/// the changes, their number, and a hint.
pub open spec fn spec_comparison_report(
    changes: Seq<ChangeView>,
    from_version: Seq<char>,
    to_version: Seq<char>,
    from_path: Seq<char>,
    to_path: Seq<char>,
    typescript: bool,
) -> Seq<char> {
    if changes.len() == 0 {
        "No differences found between "@ + from_version + " and "@ + to_version + "\n"@
    } else {
        "Changes found between "@ + from_version + " and "@ + to_version + ":\n\n"@
            + change_lines(changes, changes.len() as int) + "\nSummary: "@ + spec_decimal(
            changes.len(),
        ) + " changes detected\n\n"@ + comparison_tip(from_path, to_path, typescript)
    }
}

/// The report of a comparison of two versions.
pub fn comparison_report(
    changes: &Vec<ChangeType>,
    from_version: &str,
    to_version: &str,
    from_path: &str,
    to_path: &str,
    typescript: bool,
) -> (r: String)
    ensures
        r@ == spec_comparison_report(
            views(changes@),
            from_version@,
            to_version@,
            from_path@,
            to_path@,
            typescript,
        ),
{
    if changes.len() == 0 {
        let mut out = to_chars("No differences found between ");
        push_str(&mut out, from_version);
        push_str(&mut out, " and ");
        push_str(&mut out, to_version);
        push_str(&mut out, "\n");
        return from_chars(&out);
    }
    let mut lines: Vec<char> = Vec::new();
    let mut i: usize = 0;
    while i < changes.len()
        invariant
            i <= changes.len(),
            lines@ == change_lines(views(changes@), i as int),
        decreases changes.len() - i,
    {
        push_str(&mut lines, changes[i].format().as_str());
        push_str(&mut lines, "\n");
        i += 1;
    }
    let mut tip: Vec<char>;
    if typescript {
        tip = to_chars("Tip: Use git diff for file-level comparison:\n  diff -r ");
        push_str(&mut tip, from_path);
        push_str(&mut tip, " ");
        push_str(&mut tip, to_path);
        push_str(&mut tip, "\n");
    } else {
        tip = to_chars("Tip: Use a JSON diff tool for raw comparison:\n  diff <(jq . ");
        push_str(&mut tip, from_path);
        push_str(&mut tip, ") <(jq . ");
        push_str(&mut tip, to_path);
        push_str(&mut tip, ")\n");
    }
    let mut out = to_chars("Changes found between ");
    push_str(&mut out, from_version);
    push_str(&mut out, " and ");
    push_str(&mut out, to_version);
    push_str(&mut out, ":\n\n");
    push_chars(&mut out, &lines);
    push_str(&mut out, "\nSummary: ");
    push_decimal(&mut out, changes.len() as u64);
    push_str(&mut out, " changes detected\n\n");
    push_chars(&mut out, &tip);
    from_chars(&out)
}

/// The report of a comparison of two files that could not be read as
/// trees: the reason, and whether the files are the same text.
pub open spec fn spec_fallback_report(
    error: Seq<char>,
    same: bool,
    from_version: Seq<char>,
    to_version: Seq<char>,
    from_path: Seq<char>,
    to_path: Seq<char>,
) -> Seq<char> {
    "Error comparing JSON structures: "@ + error
        + "\nFalling back to simple file comparison...\n\n"@ + (if same {
        "No differences found between "@ + from_version + " and "@ + to_version + "\n"@
    } else {
        "Files differ between "@ + from_version + " and "@ + to_version
            + "\n\nTip: Use diff or a JSON tool for detailed comparison:\n  diff "@ + from_path
            + " "@ + to_path + "\n"@
    })
}

/// The report of a comparison of two files that could not be read as
/// trees.
pub fn fallback_report(
    error: &str,
    same: bool,
    from_version: &str,
    to_version: &str,
    from_path: &str,
    to_path: &str,
) -> (r: String)
    ensures
        r@ == spec_fallback_report(
            error@,
            same,
            from_version@,
            to_version@,
            from_path@,
            to_path@,
        ),
{
    let mut rest: Vec<char>;
    if same {
        rest = to_chars("No differences found between ");
        push_str(&mut rest, from_version);
        push_str(&mut rest, " and ");
        push_str(&mut rest, to_version);
        push_str(&mut rest, "\n");
    } else {
        rest = to_chars("Files differ between ");
        push_str(&mut rest, from_version);
        push_str(&mut rest, " and ");
        push_str(&mut rest, to_version);
        push_str(&mut rest, "\n\nTip: Use diff or a JSON tool for detailed comparison:\n  diff ");
        push_str(&mut rest, from_path);
        push_str(&mut rest, " ");
        push_str(&mut rest, to_path);
        push_str(&mut rest, "\n");
    }
    let mut out = to_chars("Error comparing JSON structures: ");
    push_str(&mut out, error);
    push_str(&mut out, "\nFalling back to simple file comparison...\n\n");
    push_chars(&mut out, &rest);
    from_chars(&out)
}

} // verus!
