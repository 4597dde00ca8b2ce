//! The classification of the lines of a help page.
//!
//! A help page is a sequence of sections. A line that is not indented is a
//! section header; the indented lines below it are read as flags, usage
//! lines, subcommands or free text, by their first characters and by the
//! title of the section they stand in.
use vstd::prelude::*;
use crate::models::{
    ChildLine, ChildLineType, LineCommand, LineCommandView, LineFlag, LineFlagView, LineOther,
    LineOtherView, LineUsage, LineUsageView, OutputLine, OutputLineView, lemma_components_view,
};
use crate::text::{
    contains, contains_char, copy_chars, from_chars, lowercase, matches_at, slice, spec_contains,
    spec_ends_with, spec_starts_with, to_chars,
};
use crate::words::{
    is_blank, join_range, lemma_views_add, lemma_views_push, lines, spec_join, spec_lines,
    spec_split, spec_split_whitespace, spec_trim, split, split_whitespace, trim, views,
};
use crate::pattern::{is_match, regex_is_match, regex_split};
use crate::usage_parser::{parse_usage_chars, spec_parse_usage_line};

verus! {

/// The regular expression of a line that defines a flag: one or two hyphens
/// and a character that is no white space, after any white space.
pub const FLAG_LINE_PATTERN: &'static str = "^\\s*(-{1,2}\\S+)";

/// The regular expression of a run of white space.
pub const WHITESPACE_PATTERN: &'static str = "\\s+";

/// The title under which a line stands that no header precedes.
pub const NO_SECTION: &'static str = "None";

/// Whether `line` is a section header: it starts with neither a space nor a
/// tab, and it holds a colon or anything but white space.
pub open spec fn spec_is_header_line(line: Seq<char>) -> bool {
    !(line.len() > 0 && (line[0] == ' ' || line[0] == '\t')) && (line.contains(':') || spec_trim(
        line,
    ).len() > 0)
}

/// Whether `line` is a section header.
pub fn is_header_line(line: &str) -> (r: bool)
    ensures
        r == spec_is_header_line(line@),
{
    let chars = to_chars(line);
    header_line(&chars)
}

/// Whether the line `chars` is a section header.
pub fn header_line(chars: &Vec<char>) -> (r: bool)
    ensures
        r == spec_is_header_line(chars@),
{
    if chars.len() > 0 && (chars[0] == ' ' || chars[0] == '\t') {
        false
    } else if contains_char(chars, ':') {
        true
    } else {
        !is_blank(chars)
    }
}

/// Whether a token of a flag line belongs to the definition of the flag: it
/// starts with a hyphen or holds a comma.
pub open spec fn is_flag_part(token: Seq<char>) -> bool {
    spec_starts_with(token, seq!['-']) || token.contains(',')
}

/// The number of tokens, from `i` on, that belong to the definition of the
/// flag, added to `i`.
pub open spec fn flag_run(tokens: Seq<Seq<char>>, i: int) -> int
    decreases tokens.len() - i,
{
    if 0 <= i < tokens.len() && is_flag_part(tokens[i]) {
        flag_run(tokens, i + 1)
    } else {
        i
    }
}

/// The words of all the texts of `defs`, in order.
pub open spec fn flat_words(defs: Seq<Seq<char>>) -> Seq<Seq<char>>
    decreases defs.len(),
{
    if defs.len() == 0 {
        Seq::empty()
    } else {
        flat_words(defs.drop_last()) + spec_split_whitespace(defs.last())
    }
}

/// The words of the definition of a flag: its tokens joined by spaces, cut
/// at every `, `, and each piece cut at white space.
pub open spec fn definition_words(definition: Seq<Seq<char>>) -> Seq<Seq<char>> {
    flat_words(spec_split(spec_join(definition, seq![' ']), seq![',', ' ']))
}

/// Whether a word is a long flag (it starts with `--`), if `long`, or a
/// short one (it starts with one hyphen only), if not.
pub open spec fn is_flag_of_kind(word: Seq<char>, long: bool) -> bool {
    if long {
        spec_starts_with(word, seq!['-', '-'])
    } else {
        spec_starts_with(word, seq!['-']) && !spec_starts_with(word, seq!['-', '-'])
    }
}

/// The number of bytes that a text takes in UTF-8, as a machine integer.
pub open spec fn byte_len(s: Seq<char>) -> usize {
    vstd::utf8::encode_utf8(s).len() as usize
}

/// The index, among the first `n` words, of the flag of the given kind
/// that takes the fewest bytes, the first of them where several do.
pub open spec fn pick_shortest(words: Seq<Seq<char>>, long: bool, n: int) -> Option<int>
    decreases n,
{
    if n <= 0 || n > words.len() {
        None
    } else {
        let prev = pick_shortest(words, long, n - 1);
        if is_flag_of_kind(words[n - 1], long) && (prev is None || byte_len(words[n - 1])
            < byte_len(words[prev->0])) {
            Some(n - 1)
        } else {
            prev
        }
    }
}

/// What `pick_shortest` picks is a flag of the kind asked for, no other such
/// flag is shorter, and none before it is as short. It picks nothing only
/// where there is no such flag.
pub proof fn lemma_pick_shortest(words: Seq<Seq<char>>, long: bool, n: int)
    requires
        0 <= n <= words.len(),
    ensures
        match pick_shortest(words, long, n) {
            Some(k) => 0 <= k < n && is_flag_of_kind(words[k], long) && (forall|j: int|
                0 <= j < n && is_flag_of_kind(words[j], long) ==> byte_len(words[k]) <= byte_len(
                    #[trigger] words[j],
                )) && (forall|j: int|
                0 <= j < k && is_flag_of_kind(words[j], long) ==> byte_len(words[k]) < byte_len(
                    #[trigger] words[j],
                )),
            None => forall|j: int| 0 <= j < n ==> !is_flag_of_kind(#[trigger] words[j], long),
        },
    decreases n,
{
    if n > 0 {
        lemma_pick_shortest(words, long, n - 1);
    }
}

/// The index, from `i` on, of the first word that starts with no hyphen.
pub open spec fn first_plain(words: Seq<Seq<char>>, i: int) -> Option<int>
    decreases words.len() - i,
{
    if i < 0 || i >= words.len() {
        None
    } else if !spec_starts_with(words[i], seq!['-']) {
        Some(i)
    } else {
        first_plain(words, i + 1)
    }
}

/// The word at an index, if there is an index.
pub open spec fn word_at(words: Seq<Seq<char>>, index: Option<int>) -> Option<Seq<char>> {
    match index {
        Some(k) => Some(words[k]),
        None => None,
    }
}

/// The flag that the tokens of a flag line define, under the section
/// `header`.
///
/// The tokens that start with a hyphen or hold a comma, up to the first that
/// does neither, define the flag; the others, joined by spaces, describe it.
/// Of the words of the definition, the shortest that starts with `--` is the
/// long name, the shortest that starts with one hyphen is the short name,
/// and the first that starts with none is the type of the flag's value.
pub open spec fn spec_flag_line(tokens: Seq<Seq<char>>, header: Seq<char>) -> LineFlagView {
    let n = flag_run(tokens, 0);
    let words = definition_words(tokens.subrange(0, n));
    LineFlagView {
        short: word_at(words, pick_shortest(words, false, words.len() as int)),
        long: word_at(words, pick_shortest(words, true, words.len() as int)),
        data_type: word_at(words, first_plain(words, 0)),
        description: if n < tokens.len() {
            Some(spec_join(tokens.subrange(n, tokens.len() as int), seq![' ']))
        } else {
            None
        },
        parent_header: header,
    }
}

/// The number of tokens at the start of `tokens` that define the flag.
fn definition_len(tokens: &Vec<Vec<char>>) -> (n: usize)
    ensures
        n == flag_run(views(tokens@), 0),
        n <= tokens.len(),
{
    let dash: Vec<char> = vec!['-'];
    assert(dash@ =~= seq!['-']);
    let mut i: usize = 0;
    while i < tokens.len() && (matches_at(&tokens[i], &dash, 0) || contains_char(&tokens[i], ','))
        invariant
            i <= tokens.len(),
            dash@ == seq!['-'],
            flag_run(views(tokens@), i as int) == flag_run(views(tokens@), 0),
        decreases tokens.len() - i,
    {
        i += 1;
    }
    i
}

/// The words of all the texts of `defs`, in order.
fn words_of(defs: &Vec<Vec<char>>) -> (r: Vec<Vec<char>>)
    ensures
        views(r@) == flat_words(views(defs@)),
{
    let mut out: Vec<Vec<char>> = Vec::new();
    let mut i: usize = 0;
    assert(views(out@) =~= Seq::<Seq<char>>::empty());
    assert(views(defs@).take(0) =~= Seq::<Seq<char>>::empty());
    while i < defs.len()
        invariant
            i <= defs.len(),
            views(out@) == flat_words(views(defs@).take(i as int)),
        decreases defs.len() - i,
    {
        let mut ws = split_whitespace(&defs[i]);
        proof {
            lemma_views_add(out@, ws@);
            assert(views(defs@).take(i + 1).drop_last() =~= views(defs@).take(i as int));
        }
        out.append(&mut ws);
        i += 1;
    }
    assert(views(defs@).take(defs@.len() as int) =~= views(defs@));
    out
}

/// Whether `word` is a flag of the kind asked for.
fn flag_of_kind(word: &Vec<char>, long: bool) -> (r: bool)
    ensures
        r == is_flag_of_kind(word@, long),
{
    let dash: Vec<char> = vec!['-'];
    let dashes: Vec<char> = vec!['-', '-'];
    assert(dash@ =~= seq!['-']);
    assert(dashes@ =~= seq!['-', '-']);
    if long {
        matches_at(word, &dashes, 0)
    } else {
        matches_at(word, &dash, 0) && !matches_at(word, &dashes, 0)
    }
}

/// The number of bytes that `word` takes in UTF-8.
fn byte_length(word: &Vec<char>) -> (r: usize)
    ensures
        r == byte_len(word@),
{
    let text = from_chars(word);
    text.as_str().len()
}

/// The index of the flag of the given kind that takes the fewest bytes.
fn pick_flag(words: &Vec<Vec<char>>, long: bool) -> (r: Option<usize>)
    ensures
        match r {
            Some(k) => pick_shortest(views(words@), long, words@.len() as int) == Some(k as int),
            None => pick_shortest(views(words@), long, words@.len() as int) is None,
        },
        r matches Some(k) ==> k < words.len(),
{
    let mut best: Option<usize> = None;
    let mut best_len: usize = 0;
    let mut i: usize = 0;
    while i < words.len()
        invariant
            i <= words.len(),
            match best {
                Some(k) => pick_shortest(views(words@), long, i as int) == Some(k as int) && k < i
                    && best_len == byte_len(words@[k as int]@),
                None => pick_shortest(views(words@), long, i as int) is None,
            },
        decreases words.len() - i,
    {
        if flag_of_kind(&words[i], long) {
            let n = byte_length(&words[i]);
            if best.is_none() || n < best_len {
                best = Some(i);
                best_len = n;
            }
        }
        i += 1;
    }
    best
}

/// The index of the first word that starts with no hyphen.
fn pick_plain(words: &Vec<Vec<char>>) -> (r: Option<usize>)
    ensures
        match r {
            Some(k) => first_plain(views(words@), 0) == Some(k as int),
            None => first_plain(views(words@), 0) is None,
        },
        r matches Some(k) ==> k < words.len(),
{
    let dash: Vec<char> = vec!['-'];
    assert(dash@ =~= seq!['-']);
    let mut i: usize = 0;
    while i < words.len()
        invariant
            i <= words.len(),
            dash@ == seq!['-'],
            first_plain(views(words@), i as int) == first_plain(views(words@), 0),
        decreases words.len() - i,
    {
        if !matches_at(&words[i], &dash, 0) {
            return Some(i);
        }
        i += 1;
    }
    None
}

/// The word at an index, as a string.
fn word_string(words: &Vec<Vec<char>>, index: Option<usize>) -> (r: Option<String>)
    requires
        index matches Some(k) ==> k < words.len(),
    ensures
        crate::models::option_view(r) == (match index {
            Some(k) => Some(words@[k as int]@),
            None => None,
        }),
{
    match index {
        Some(k) => Some(from_chars(&words[k])),
        None => None,
    }
}

/// The flag that the tokens of a flag line define, under the section
/// `section_header`.
pub fn flag_line_of(tokens: &Vec<Vec<char>>, section_header: &Vec<char>) -> (r: LineFlag)
    ensures
        r@ == spec_flag_line(views(tokens@), section_header@),
{
    let space: Vec<char> = vec![' '];
    let comma_space: Vec<char> = vec![',', ' '];
    assert(space@ =~= seq![' ']);
    assert(comma_space@ =~= seq![',', ' ']);
    let n = definition_len(tokens);
    let definition = join_range(tokens, 0, n, &space);
    let defs = split(&definition, &comma_space);
    let words = words_of(&defs);
    let short = pick_flag(&words, false);
    let long = pick_flag(&words, true);
    let data_type = pick_plain(&words);
    let description = if n < tokens.len() {
        let d = join_range(tokens, n, tokens.len(), &space);
        Some(from_chars(&d))
    } else {
        None
    };
    LineFlag {
        short: word_string(&words, short),
        long: word_string(&words, long),
        data_type: word_string(&words, data_type),
        description,
        parent_header: from_chars(section_header),
    }
}

/// The flag that the tokens of a flag line define, under the section
/// `section_header_name`.
pub fn get_flag_line(raw_flag_vec: Vec<&str>, section_header_name: &str) -> (r: LineFlag)
    ensures
        r@ == spec_flag_line(views(raw_flag_vec@), section_header_name@),
{
    let mut tokens: Vec<Vec<char>> = Vec::new();
    let mut i: usize = 0;
    assert(views(tokens@) =~= views(raw_flag_vec@).take(0));
    while i < raw_flag_vec.len()
        invariant
            i <= raw_flag_vec.len(),
            views(tokens@) == views(raw_flag_vec@).take(i as int),
        decreases raw_flag_vec.len() - i,
    {
        let token = to_chars(raw_flag_vec[i]);
        proof {
            lemma_views_push(tokens@, token);
            assert(views(raw_flag_vec@).take(i + 1) =~= views(raw_flag_vec@).take(i as int).push(
                raw_flag_vec@[i as int]@,
            ));
        }
        tokens.push(token);
        i += 1;
    }
    assert(views(raw_flag_vec@).take(raw_flag_vec@.len() as int) =~= views(raw_flag_vec@));
    let header = to_chars(section_header_name);
    flag_line_of(&tokens, &header)
}

/// Whether the lower-case title of a section marks a list of subcommands.
pub open spec fn is_command_section(lower: Seq<char>) -> bool {
    spec_contains(lower, "commands"@) || spec_contains(lower, "available commands"@)
        || spec_contains(lower, "subcommands"@)
}

/// The record of the indented line `line` of the help page of `command`,
/// under the section `header`, given what the `regex` crate answered for the
/// trimmed line: whether the flag pattern matches it, and its parts between
/// runs of white space.
///
/// In this order: a line that the flag pattern matches defines a flag. A
/// line of one part is free text with the usage components of that part,
/// and no record where it has none. A line of more parts is a usage line
/// under a title that holds `usage`, free text under one that holds
/// `example`, a subcommand (its first part the name, the others the
/// description) under one that lists commands, and free text otherwise. A
/// pattern that the `regex` crate refuses matches nothing and gives no parts.
pub open spec fn spec_classify_line(
    command: Seq<char>,
    line: Seq<char>,
    header: Seq<char>,
    flag_match: Option<bool>,
    parts: Option<Seq<Seq<char>>>,
) -> Option<OutputLineView> {
    let trimmed = spec_trim(line);
    let words = match parts {
        Some(p) => p,
        None => Seq::empty(),
    };
    let lower = lowercase(header);
    if flag_match == Some(true) {
        Some(OutputLineView::Flag(spec_flag_line(words, header)))
    } else if words.len() == 1 {
        let components = spec_parse_usage_line(trimmed, command);
        if components.len() == 0 {
            None
        } else {
            Some(
                OutputLineView::Other(
                    LineOtherView {
                        line_contents: words[0],
                        parent_header: header,
                        components: Some(components),
                    },
                ),
            )
        }
    } else if words.len() >= 2 {
        if spec_contains(lower, "usage"@) {
            Some(
                OutputLineView::Usage(
                    LineUsageView {
                        usage_string: trimmed,
                        parent_header: header,
                        usage_components: spec_parse_usage_line(trimmed, command),
                    },
                ),
            )
        } else if spec_contains(lower, "example"@) {
            Some(
                OutputLineView::Other(
                    LineOtherView { line_contents: line, parent_header: header, components: None },
                ),
            )
        } else if is_command_section(lower) {
            Some(
                OutputLineView::Command(
                    LineCommandView {
                        name: words[0],
                        description: spec_join(
                            words.subrange(1, words.len() as int),
                            seq![' '],
                        ),
                        children: Seq::empty(),
                        parent_header: header,
                        parent: command,
                    },
                ),
            )
        } else {
            Some(
                OutputLineView::Other(
                    LineOtherView { line_contents: line, parent_header: header, components: None },
                ),
            )
        }
    } else {
        None
    }
}

/// The title of the section of a line: that of its header, or `None` for a
/// line that no header precedes.
pub open spec fn section_title(section_header_name: Option<Seq<char>>) -> Seq<char> {
    match section_header_name {
        Some(h) => h,
        None => NO_SECTION@,
    }
}

/// The record of the indented line `line` of the help page of `command`,
/// with the answers of the `regex` crate for the trimmed line.
pub open spec fn spec_parse_child_line(
    command: Seq<char>,
    line: Seq<char>,
    section_header_name: Option<Seq<char>>,
) -> Option<OutputLineView> {
    spec_classify_line(
        command,
        line,
        section_title(section_header_name),
        regex_is_match(FLAG_LINE_PATTERN@, spec_trim(line)),
        regex_split(WHITESPACE_PATTERN@, spec_trim(line)),
    )
}

/// Whether the text `lower` holds the word `word`.
fn holds(lower: &Vec<char>, word: &str) -> (r: bool)
    ensures
        r == spec_contains(lower@, word@),
{
    let w = to_chars(word);
    contains(lower, &w)
}

/// The record of the indented line `line` of the help page of `command`,
/// under the section `header`, given what the `regex` crate answered for the
/// trimmed line.
pub fn classify_line(
    command: &Vec<char>,
    line: &Vec<char>,
    header: &Vec<char>,
    flag_match: Option<bool>,
    parts: Option<Vec<Vec<char>>>,
) -> (r: Option<ChildLine>)
    ensures
        match r {
            Some(record) => Some(record@),
            None => None,
        } == spec_classify_line(
            command@,
            line@,
            header@,
            flag_match,
            match parts {
                Some(p) => Some(views(p@)),
                None => None,
            },
        ),
{
    let trimmed = trim(line);
    let words: Vec<Vec<char>> = match parts {
        Some(p) => p,
        None => {
            let empty: Vec<Vec<char>> = Vec::new();
            assert(views(empty@) =~= Seq::<Seq<char>>::empty());
            empty
        },
    };
    let is_flag = match flag_match {
        Some(m) => m,
        None => false,
    };
    if is_flag {
        return Some(ChildLine { line_type: OutputLine::Flag(flag_line_of(&words, header)) });
    }
    if words.len() == 1 {
        let components = parse_usage_chars(&trimmed, command);
        proof {
            lemma_components_view(components@);
        }
        if components.len() == 0 {
            return None;
        }
        return Some(
            ChildLine {
                line_type: OutputLine::Other(
                    LineOther {
                        line_contents: from_chars(&words[0]),
                        parent_header: from_chars(header),
                        components: Some(components),
                    },
                ),
            },
        );
    }
    if words.len() >= 2 {
        let header_text = from_chars(header);
        let lower_text = header_text.as_str().to_lowercase();
        let lower = to_chars(lower_text.as_str());
        if holds(&lower, "usage") {
            let components = parse_usage_chars(&trimmed, command);
            return Some(
                ChildLine {
                    line_type: OutputLine::Usage(
                        LineUsage {
                            usage_string: from_chars(&trimmed),
                            parent_header: header_text,
                            usage_components: components,
                        },
                    ),
                },
            );
        }
        if holds(&lower, "example") {
            return Some(
                ChildLine {
                    line_type: OutputLine::Other(
                        LineOther {
                            line_contents: from_chars(line),
                            parent_header: header_text,
                            components: None,
                        },
                    ),
                },
            );
        }
        if holds(&lower, "commands") || holds(&lower, "available commands") || holds(
            &lower,
            "subcommands",
        ) {
            let space: Vec<char> = vec![' '];
            assert(space@ =~= seq![' ']);
            let description = join_range(&words, 1, words.len(), &space);
            return Some(
                ChildLine {
                    line_type: OutputLine::Command(
                        LineCommand {
                            name: from_chars(&words[0]),
                            description: from_chars(&description),
                            children: Vec::new(),
                            parent_header: header_text,
                            parent: from_chars(command),
                        },
                    ),
                },
            );
        }
        return Some(
            ChildLine {
                line_type: OutputLine::Other(
                    LineOther {
                        line_contents: from_chars(line),
                        parent_header: header_text,
                        components: None,
                    },
                ),
            },
        );
    }
    None
}

/// The record of the indented line `line` of the help page of `command`,
/// under the section `header`. The `regex` crate says whether the trimmed
/// line defines a flag, and cuts it at its runs of white space.
pub fn child_line_of(command: &Vec<char>, line: &Vec<char>, header: &Vec<char>) -> (r: Option<
    ChildLine,
>)
    ensures
        match r {
            Some(record) => Some(record@),
            None => None,
        } == spec_parse_child_line(command@, line@, Some(header@)),
{
    let trimmed = trim(line);
    let text = from_chars(&trimmed);
    let flag_match = is_match(FLAG_LINE_PATTERN, text.as_str());
    let parts = match crate::pattern::split(WHITESPACE_PATTERN, text.as_str()) {
        Some(strings) => Some(chars_of_each(&strings)),
        None => None,
    };
    classify_line(command, line, header, flag_match, parts)
}

/// The characters of each string of `strings`.
fn chars_of_each(strings: &Vec<String>) -> (r: Vec<Vec<char>>)
    ensures
        views(r@) == views(strings@),
{
    let mut out: Vec<Vec<char>> = Vec::new();
    let mut i: usize = 0;
    while i < strings.len()
        invariant
            i <= strings.len(),
            out.len() == i,
            forall|k: int| 0 <= k < i ==> (#[trigger] out@[k])@ == strings@[k]@,
        decreases strings.len() - i,
    {
        out.push(to_chars(strings[i].as_str()));
        i += 1;
    }
    assert(views(out@) =~= views(strings@));
    out
}

/// A flag line one of whose definition words starts with a hyphen gives a
/// flag with a name, short or long.
pub proof fn lemma_flag_has_name(tokens: Seq<Seq<char>>, header: Seq<char>, k: int)
    requires
        0 <= k < definition_words(tokens.subrange(0, flag_run(tokens, 0))).len(),
        spec_starts_with(
            definition_words(tokens.subrange(0, flag_run(tokens, 0)))[k],
            seq!['-'],
        ),
    ensures
        spec_flag_line(tokens, header).short is Some || spec_flag_line(tokens, header).long
            is Some,
{
    let words = definition_words(tokens.subrange(0, flag_run(tokens, 0)));
    lemma_pick_shortest(words, true, words.len() as int);
    lemma_pick_shortest(words, false, words.len() as int);
    assert(is_flag_of_kind(words[k], true) || is_flag_of_kind(words[k], false));
}

/// The record of the indented line `line` of the help page of `command`,
/// under the section `section_header_name`; no record for a line that gives
/// none.
pub fn parse_child_line(command: &str, line: &str, section_header_name: Option<&str>) -> (r:
    Option<ChildLine>)
    ensures
        match r {
            Some(record) => Some(record@),
            None => None,
        } == spec_parse_child_line(
            command@,
            line@,
            match section_header_name {
                Some(h) => Some(h@),
                None => None,
            },
        ),
{
    let header = match section_header_name {
        Some(h) => to_chars(h),
        None => to_chars(NO_SECTION),
    };
    let c = to_chars(command);
    let l = to_chars(line);
    child_line_of(&c, &l, &header)
}

/// The kind of a record.
pub open spec fn kind_of(record: OutputLineView) -> ChildLineType {
    match record {
        OutputLineView::Flag(_) => ChildLineType::Flag,
        OutputLineView::Command(_) => ChildLineType::Command,
        OutputLineView::Usage(_) => ChildLineType::Usage,
        OutputLineView::Other(_) => ChildLineType::Other,
    }
}

/// The record of the indented line `line`, with its kind.
pub fn handle_child_line(command: &str, section_header_name: &str, line: &str) -> (r: Option<
    (ChildLineType, OutputLine),
>)
    ensures
        match r {
            Some((kind, record)) => Some(record@),
            None => None,
        } == spec_parse_child_line(command@, line@, Some(section_header_name@)),
        r matches Some((kind, record)) ==> kind == kind_of(record@),
{
    match parse_child_line(command, line, Some(section_header_name)) {
        Some(child) => {
            let kind = match &child.line_type {
                OutputLine::Flag(_) => ChildLineType::Flag,
                OutputLine::Command(_) => ChildLineType::Command,
                OutputLine::Usage(_) => ChildLineType::Usage,
                OutputLine::Other(_) => ChildLineType::Other,
            };
            Some((kind, child.line_type))
        },
        None => None,
    }
}

/// What a help page says of its command.
#[derive(Debug)]
pub struct ParsedPage {
    /// The first line of the page, where it is not indented.
    pub description: String,
    /// The records of the indented lines, in the order of the page.
    pub entries: Vec<ChildLine>,
}

/// The mathematical value of a [`ParsedPage`].
pub struct ParsedPageView {
    pub description: Seq<char>,
    pub entries: Seq<OutputLineView>,
}

impl View for ParsedPage {
    type V = ParsedPageView;

    open spec fn view(&self) -> ParsedPageView {
        ParsedPageView { description: self.description@, entries: views(self.entries@) }
    }
}

/// The last word of a command line; empty where it has no word.
pub open spec fn last_word(command: Seq<char>) -> Seq<char> {
    let words = spec_split_whitespace(command);
    if words.len() > 0 {
        words.last()
    } else {
        Seq::empty()
    }
}

/// The title that a header line gives its section: the trimmed line without
/// the colon at its end.
pub open spec fn header_title(line: Seq<char>) -> Seq<char> {
    let t = spec_trim(line);
    if spec_ends_with(t, seq![':']) {
        t.drop_last()
    } else {
        t
    }
}

/// Whether a line is indented as the lines of a section are: by two spaces
/// or by a tab.
pub open spec fn is_indented(line: Seq<char>) -> bool {
    spec_starts_with(line, seq![' ', ' ']) || spec_starts_with(line, seq!['\t'])
}

/// The section that is open after `line`, where `section` was open before
/// it: a header line that is not blank opens the section of its title, and
/// every other line leaves the section as it is.
pub open spec fn section_after(line: Seq<char>, section: Option<Seq<char>>) -> Option<Seq<char>> {
    if spec_trim(line).len() != 0 && spec_is_header_line(line) {
        Some(header_title(line))
    } else {
        section
    }
}

/// The record that `line` gives where `section` is open: that of its
/// classification, for an indented line in a section that is neither blank
/// nor a header; none for every other line.
pub open spec fn line_record(
    command_word: Seq<char>,
    line: Seq<char>,
    section: Option<Seq<char>>,
) -> Option<OutputLineView> {
    if spec_trim(line).len() != 0 && !spec_is_header_line(line) && section is Some && is_indented(
        line,
    ) {
        spec_parse_child_line(command_word, line, section)
    } else {
        None
    }
}

/// The records of the lines of a help page from line `i` on, where the
/// section `section` is open: what each line gives in turn, each under the
/// section that the lines before it have left open.
pub open spec fn scan_lines(
    command_word: Seq<char>,
    lines: Seq<Seq<char>>,
    i: int,
    section: Option<Seq<char>>,
) -> Seq<OutputLineView>
    decreases lines.len() - i,
{
    if i < 0 || i >= lines.len() {
        Seq::empty()
    } else {
        let rest = scan_lines(command_word, lines, i + 1, section_after(lines[i], section));
        match line_record(command_word, lines[i], section) {
            Some(record) => seq![record] + rest,
            None => rest,
        }
    }
}

/// The description that a help page gives: its first line, unless that
/// starts with a space.
pub open spec fn page_description(lines: Seq<Seq<char>>) -> Seq<char> {
    if lines.len() > 0 && !spec_starts_with(lines[0], seq![' ']) {
        lines[0]
    } else {
        Seq::empty()
    }
}

/// What the help page `output` says of the command `command`. The last word
/// of `command` is the name that its usage lines are read after.
pub open spec fn spec_parse_help_page(command: Seq<char>, output: Seq<char>) -> ParsedPageView {
    ParsedPageView {
        description: page_description(spec_lines(output)),
        entries: scan_lines(last_word(command), spec_lines(output), 0, None),
    }
}

/// The text of an optional character vector.
pub open spec fn chars_option_view(o: Option<Vec<char>>) -> Option<Seq<char>> {
    match o {
        Some(v) => Some(v@),
        None => None,
    }
}

/// The last word of a command line.
pub fn last_word_of(command: &Vec<char>) -> (r: Vec<char>)
    ensures
        r@ == last_word(command@),
{
    let words = split_whitespace(command);
    if words.len() > 0 {
        copy_chars(&words[words.len() - 1])
    } else {
        Vec::new()
    }
}

/// The title that the header line `line` gives its section.
pub fn title_of(line: &Vec<char>) -> (r: Vec<char>)
    ensures
        r@ == header_title(line@),
{
    let t = trim(line);
    let colon: Vec<char> = vec![':'];
    assert(colon@ =~= seq![':']);
    if t.len() >= 1 && matches_at(&t, &colon, t.len() - 1) {
        slice(&t, 0, t.len() - 1)
    } else {
        t
    }
}

/// Whether `line` is indented by two spaces or by a tab.
pub fn indented(line: &Vec<char>) -> (r: bool)
    ensures
        r == is_indented(line@),
{
    let spaces: Vec<char> = vec![' ', ' '];
    let tab: Vec<char> = vec!['\t'];
    assert(spaces@ =~= seq![' ', ' ']);
    assert(tab@ =~= seq!['\t']);
    matches_at(line, &spaces, 0) || matches_at(line, &tab, 0)
}

/// The state in which the lines of one help page are read, one after the
/// other: the name of the command that the page is of, and the section that
/// the lines read so far have left open.
pub struct LineScanner {
    pub command_word: Vec<char>,
    pub section: Option<Vec<char>>,
}

impl LineScanner {
    /// The state before the first line of the help page of `command`: no
    /// section is open.
    pub fn new(command: &str) -> (r: LineScanner)
        ensures
            r.command_word@ == last_word(command@),
            r.section is None,
    {
        let command_chars = to_chars(command);
        LineScanner { command_word: last_word_of(&command_chars), section: None }
    }

    /// Reads the next line of the page: gives the record that the line
    /// stands for under the open section, if any, and opens the section of a
    /// header line.
    pub fn scan(&mut self, line: &Vec<char>) -> (r: Option<ChildLine>)
        ensures
            final(self).command_word@ == old(self).command_word@,
            chars_option_view(final(self).section) == section_after(
                line@,
                chars_option_view(old(self).section),
            ),
            match r {
                Some(record) => Some(record@),
                None => None,
            } == line_record(old(self).command_word@, line@, chars_option_view(old(self).section)),
    {
        if is_blank(line) {
            None
        } else if header_line(line) {
            self.section = Some(title_of(line));
            None
        } else if indented(line) {
            match &self.section {
                Some(header) => child_line_of(&self.command_word, line, header),
                None => None,
            }
        } else {
            None
        }
    }
}

/// What the help page `output` says of the command `command`.
pub fn parse_help_page(command: &str, output: &str) -> (r: ParsedPage)
    ensures
        r@ == spec_parse_help_page(command@, output@),
{
    let command_chars = to_chars(command);
    let word = last_word_of(&command_chars);
    let text = to_chars(output);
    let all = lines(&text);
    let space: Vec<char> = vec![' '];
    assert(space@ =~= seq![' ']);
    let description = if all.len() > 0 && !matches_at(&all[0], &space, 0) {
        from_chars(&all[0])
    } else {
        String::new()
    };
    let mut entries: Vec<ChildLine> = Vec::new();
    let mut scanner = LineScanner { command_word: word, section: None };
    let mut i: usize = 0;
    let ghost ls = views(all@);
    let ghost w = scanner.command_word@;
    assert(views(entries@) =~= Seq::<OutputLineView>::empty());
    while i < all.len()
        invariant
            i <= all.len(),
            ls == views(all@),
            scanner.command_word@ == w,
            views(entries@) + scan_lines(w, ls, i as int, chars_option_view(scanner.section))
                == scan_lines(w, ls, 0, None),
        decreases all.len() - i,
    {
        let ghost before = chars_option_view(scanner.section);
        match scanner.scan(&all[i]) {
            Some(record) => {
                proof {
                    let rest = scan_lines(w, ls, i + 1, section_after(ls[i as int], before));
                    lemma_views_push(entries@, record);
                    assert(views(entries@).push(record@) + rest =~= views(entries@) + (
                    seq![record@] + rest));
                }
                entries.push(record);
            },
            None => {},
        }
        i += 1;
    }
    assert(views(entries@) + Seq::<OutputLineView>::empty() =~= views(entries@));
    ParsedPage { description, entries }
}

} // verus!
