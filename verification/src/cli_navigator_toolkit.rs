//! Small rules on names, versions and descriptions that the reports and
//! the generated files share.
use vstd::prelude::*;
use crate::models::{
    ComponentType, LineUsageView, UsageComponent, UsageComponentView, components_view,
    lemma_components_view, option_view,
};
use crate::text::{
    alphanumeric, char_uppercase, chars_equal, contains, find, from_chars, lemma_find_from,
    lowercase, matches_at, occurs_at, push_chars, push_str, slice, spec_contains, spec_ends_with,
    spec_find, spec_starts_with, to_chars, uppercase, uppercase_letter, uppercase_of,
};
use crate::tree::{Children};
use crate::words::{
    find_char, index_of_char, last_index_of_char, lemma_index_of_char, replace, rfind_char,
    spec_replace, spec_split, spec_split_whitespace, split, split_whitespace, views,
};

verus! {

/// The character of a decimal digit.
pub open spec fn digit_char(d: nat) -> char {
    if d == 0 {
        '0'
    } else if d == 1 {
        '1'
    } else if d == 2 {
        '2'
    } else if d == 3 {
        '3'
    } else if d == 4 {
        '4'
    } else if d == 5 {
        '5'
    } else if d == 6 {
        '6'
    } else if d == 7 {
        '7'
    } else if d == 8 {
        '8'
    } else {
        '9'
    }
}

/// The decimal digits of a number, without leading zeros.
pub open spec fn spec_decimal(n: nat) -> Seq<char>
    decreases n,
{
    if n < 10 {
        seq![digit_char(n)]
    } else {
        spec_decimal(n / 10).push(digit_char(n % 10))
    }
}

/// The character of a decimal digit.
fn digit_of(d: u64) -> (r: char)
    requires
        d < 10,
    ensures
        r == digit_char(d as nat),
{
    if d == 0 {
        '0'
    } else if d == 1 {
        '1'
    } else if d == 2 {
        '2'
    } else if d == 3 {
        '3'
    } else if d == 4 {
        '4'
    } else if d == 5 {
        '5'
    } else if d == 6 {
        '6'
    } else if d == 7 {
        '7'
    } else if d == 8 {
        '8'
    } else {
        '9'
    }
}

/// Appends the decimal digits of `n`.
pub fn push_decimal(out: &mut Vec<char>, n: u64)
    ensures
        final(out)@ == old(out)@ + spec_decimal(n as nat),
    decreases n,
{
    if n >= 10 {
        push_decimal(out, n / 10);
    }
    out.push(digit_of(n % 10));
    assert(out@ =~= old(out)@ + spec_decimal(n as nat));
}

/// The decimal digits of `n`.
pub fn decimal(n: u64) -> (r: String)
    ensures
        r@ == spec_decimal(n as nat),
{
    let mut out: Vec<char> = Vec::new();
    push_decimal(&mut out, n);
    assert(Seq::<char>::empty() + spec_decimal(n as nat) =~= spec_decimal(n as nat));
    from_chars(&out)
}

/// `s` without every `suffix` at its end.
pub open spec fn strip_suffixes(s: Seq<char>, suffix: Seq<char>) -> Seq<char>
    decreases s.len(),
{
    if suffix.len() > 0 && spec_ends_with(s, suffix) {
        strip_suffixes(s.subrange(0, s.len() - suffix.len()), suffix)
    } else {
        s
    }
}

/// The length of `v` once every `suffix` at its end is cut off.
fn strip_suffixes_len(v: &Vec<char>, suffix: &Vec<char>) -> (n: usize)
    ensures
        n <= v.len(),
        v@.subrange(0, n as int) == strip_suffixes(v@, suffix@),
{
    let mut n: usize = v.len();
    assert(v@.subrange(0, n as int) =~= v@);
    if suffix.len() == 0 {
        return n;
    }
    while n >= suffix.len() && matches_at(v, suffix, n - suffix.len())
        invariant
            n <= v.len(),
            suffix.len() > 0,
            strip_suffixes(v@.subrange(0, n as int), suffix@) == strip_suffixes(v@, suffix@),
        decreases n,
    {
        proof {
            let t = v@.subrange(0, n as int);
            let m = n - suffix@.len();
            assert(t.subrange(m, n as int) =~= v@.subrange(m, n as int));
            assert(t.subrange(0, m) =~= v@.subrange(0, m));
        }
        n -= suffix.len();
    }
    proof {
        let t = v@.subrange(0, n as int);
        if n >= suffix@.len() {
            let m = n - suffix@.len();
            assert(t.subrange(m, n as int) =~= v@.subrange(m, n as int));
        }
    }
    n
}

/// The version in the name of a file `name-version.json`: what follows the
/// last hyphen, once every `.json` at the end is cut off; `unknown` where
/// the name holds no hyphen.
pub open spec fn spec_version_from_filename(filename: Seq<char>) -> Seq<char> {
    let bare = strip_suffixes(filename, ".json"@);
    match last_index_of_char(bare, '-', bare.len() as int) {
        Some(dash) => bare.subrange(dash + 1, bare.len() as int),
        None => "unknown"@,
    }
}

/// The version in the name of a file `name-version.json`.
pub fn extract_version_from_filename(filename: &str) -> (r: String)
    ensures
        r@ == spec_version_from_filename(filename@),
{
    let name = to_chars(filename);
    let extension = to_chars(".json");
    let n = strip_suffixes_len(&name, &extension);
    let bare = slice(&name, 0, n);
    match rfind_char(&bare, '-') {
        Some(dash) => from_chars(&slice(&bare, dash + 1, bare.len())),
        None => String::from_str("unknown"),
    }
}

/// The value of a decimal digit.
pub open spec fn digit_value(c: char) -> Option<nat> {
    if c == '0' {
        Some(0)
    } else if c == '1' {
        Some(1)
    } else if c == '2' {
        Some(2)
    } else if c == '3' {
        Some(3)
    } else if c == '4' {
        Some(4)
    } else if c == '5' {
        Some(5)
    } else if c == '6' {
        Some(6)
    } else if c == '7' {
        Some(7)
    } else if c == '8' {
        Some(8)
    } else if c == '9' {
        Some(9)
    } else {
        None
    }
}

/// The number that the first `n` characters of `s` are the decimal digits
/// of; none where one of them is no digit.
pub open spec fn digits_value(s: Seq<char>, n: int) -> Option<nat>
    decreases n,
{
    if n <= 0 || n > s.len() {
        Some(0)
    } else {
        match (digits_value(s, n - 1), digit_value(s[n - 1])) {
            (Some(v), Some(d)) => Some(v * 10 + d),
            _ => None,
        }
    }
}

/// Where more digits are read, the number does not get smaller, and it stays
/// none where it was none.
proof fn lemma_digits_value_grows(s: Seq<char>, m: int, n: int)
    requires
        0 <= m <= n <= s.len(),
    ensures
        digits_value(s, m) is None ==> digits_value(s, n) is None,
        digits_value(s, n) matches Some(v) ==> digits_value(s, m) matches Some(w) && w <= v,
    decreases n - m,
{
    if m < n {
        lemma_digits_value_grows(s, m, n - 1);
    }
}

/// The number that `s` stands for as an unsigned integer of 32 bits: an
/// optional `+`, then at least one decimal digit and nothing else, with a
/// value that fits.
pub open spec fn spec_parse_u32(s: Seq<char>) -> Option<u32> {
    let body = if s.len() > 0 && s[0] == '+' {
        s.subrange(1, s.len() as int)
    } else {
        s
    };
    if body.len() == 0 {
        None
    } else {
        match digits_value(body, body.len() as int) {
            Some(v) => if v <= u32::MAX {
                Some(v as u32)
            } else {
                None
            },
            None => None,
        }
    }
}

/// The value of a decimal digit.
fn value_of_digit(c: char) -> (r: Option<u64>)
    ensures
        match r {
            Some(d) => digit_value(c) == Some(d as nat) && d < 10,
            None => digit_value(c) is None,
        },
{
    if c == '0' {
        Some(0)
    } else if c == '1' {
        Some(1)
    } else if c == '2' {
        Some(2)
    } else if c == '3' {
        Some(3)
    } else if c == '4' {
        Some(4)
    } else if c == '5' {
        Some(5)
    } else if c == '6' {
        Some(6)
    } else if c == '7' {
        Some(7)
    } else if c == '8' {
        Some(8)
    } else if c == '9' {
        Some(9)
    } else {
        None
    }
}

/// The number that `text` stands for as an unsigned integer of 32 bits.
pub fn parse_u32(text: &Vec<char>) -> (r: Option<u32>)
    ensures
        r == spec_parse_u32(text@),
{
    let from: usize = if text.len() > 0 && text[0] == '+' {
        1
    } else {
        0
    };
    let body = slice(text, from, text.len());
    if from == 0 {
        assert(body@ =~= text@);
    }
    if body.len() == 0 {
        return None;
    }
    let mut value: u64 = 0;
    let mut i: usize = 0;
    while i < body.len()
        invariant
            i <= body.len(),
            body.len() > 0,
            body@ == (if text@.len() > 0 && text@[0] == '+' {
                text@.subrange(1, text@.len() as int)
            } else {
                text@
            }),
            value <= u32::MAX,
            digits_value(body@, i as int) == Some(value as nat),
        decreases body.len() - i,
    {
        match value_of_digit(body[i]) {
            Some(d) => {
                let next = value * 10 + d;
                assert(digits_value(body@, i + 1) == Some(next as nat));
                if next > 0xffff_ffff {
                    proof {
                        lemma_digits_value_grows(body@, i + 1, body@.len() as int);
                    }
                    return None;
                }
                value = next;
            },
            None => {
                assert(digits_value(body@, i + 1) is None);
                proof {
                    lemma_digits_value_grows(body@, i + 1, body@.len() as int);
                }
                return None;
            },
        }
        i += 1;
    }
    Some(value as u32)
}

/// The three numbers of a version `major.minor.patch`: those of its first
/// three parts between dots; none where it has fewer parts or one of the
/// three is no number.
pub open spec fn spec_parse_semver(version: Seq<char>) -> Option<(u32, u32, u32)> {
    let parts = spec_split(version, seq!['.']);
    if parts.len() >= 3 {
        match (spec_parse_u32(parts[0]), spec_parse_u32(parts[1]), spec_parse_u32(parts[2])) {
            (Some(major), Some(minor), Some(patch)) => Some((major, minor, patch)),
            _ => None,
        }
    } else {
        None
    }
}

/// The three numbers of a version `major.minor.patch`.
pub fn parse_semver(version: &str) -> (r: Option<(u32, u32, u32)>)
    ensures
        r == spec_parse_semver(version@),
{
    let text = to_chars(version);
    let dot: Vec<char> = vec!['.'];
    assert(dot@ =~= seq!['.']);
    let parts = split(&text, &dot);
    if parts.len() >= 3 {
        match (parse_u32(&parts[0]), parse_u32(&parts[1]), parse_u32(&parts[2])) {
            (Some(major), Some(minor), Some(patch)) => Some((major, minor, patch)),
            _ => None,
        }
    } else {
        None
    }
}

/// The number of seconds in a day.
pub const SECONDS_PER_DAY: u64 = 86400;

/// How long ago a moment was, in whole days before `now`: `today`,
/// `yesterday`, or the number of days.
pub open spec fn spec_format_timestamp(timestamp: u64, now: u64) -> Seq<char> {
    let days = (now - timestamp) / 86400;
    if days == 0 {
        "today"@
    } else if days == 1 {
        "yesterday"@
    } else {
        spec_decimal(days as nat) + " days ago"@
    }
}

/// How long before `now` the moment `timestamp` was, both in seconds since
/// the same start.
pub fn format_timestamp(timestamp: u64, now: u64) -> (r: String)
    requires
        timestamp <= now,
    ensures
        r@ == spec_format_timestamp(timestamp, now),
{
    let days = (now - timestamp) / SECONDS_PER_DAY;
    if days == 0 {
        String::from_str("today")
    } else if days == 1 {
        String::from_str("yesterday")
    } else {
        let mut out: Vec<char> = Vec::new();
        push_decimal(&mut out, days);
        push_str(&mut out, " days ago");
        assert(out@ =~= spec_decimal(days as nat) + " days ago"@);
        from_chars(&out)
    }
}

/// A name made fit for a file: every character that is neither a letter, a
/// digit, `_` nor `-` gives way to `_`.
pub open spec fn spec_sanitize_filename(name: Seq<char>) -> Seq<char> {
    Seq::new(
        name.len(),
        |i: int|
            if alphanumeric(name[i]) || name[i] == '_' || name[i] == '-' {
                name[i]
            } else {
                '_'
            },
    )
}

/// A name made fit for a file.
pub fn sanitize_filename(name: &str) -> (r: String)
    ensures
        r@ == spec_sanitize_filename(name@),
{
    let chars = to_chars(name);
    let mut out: Vec<char> = Vec::new();
    let mut i: usize = 0;
    while i < chars.len()
        invariant
            i <= chars.len(),
            out@ == spec_sanitize_filename(chars@).take(i as int),
        decreases chars.len() - i,
    {
        let c = chars[i];
        if c.is_alphanumeric() || c == '_' || c == '-' {
            out.push(c);
        } else {
            out.push('_');
        }
        assert(out@ =~= spec_sanitize_filename(chars@).take(i + 1));
        i += 1;
    }
    from_chars(&out)
}

/// A name made fit for a JavaScript variable: every character that is
/// neither a letter, a digit nor `_` gives way to `_`.
pub open spec fn spec_sanitize_js_variable_name(name: Seq<char>) -> Seq<char> {
    Seq::new(
        name.len(),
        |i: int|
            if alphanumeric(name[i]) || name[i] == '_' {
                name[i]
            } else {
                '_'
            },
    )
}

/// A name made fit for a JavaScript variable.
pub fn sanitize_js_variable_name(name: &str) -> (r: String)
    ensures
        r@ == spec_sanitize_js_variable_name(name@),
{
    let chars = to_chars(name);
    let mut out: Vec<char> = Vec::new();
    let mut i: usize = 0;
    while i < chars.len()
        invariant
            i <= chars.len(),
            out@ == spec_sanitize_js_variable_name(chars@).take(i as int),
        decreases chars.len() - i,
    {
        let c = chars[i];
        if c.is_alphanumeric() || c == '_' {
            out.push(c);
        } else {
            out.push('_');
        }
        assert(out@ =~= spec_sanitize_js_variable_name(chars@).take(i + 1));
        i += 1;
    }
    from_chars(&out)
}

/// Whether `c` separates the words of a name: `-`, `_` or a space.
pub open spec fn is_word_separator(c: char) -> bool {
    c == '-' || c == '_' || c == ' '
}

/// A word with its first character in upper case and the others in lower
/// case.
pub open spec fn capitalized(word: Seq<char>) -> Seq<char> {
    if word.len() == 0 {
        Seq::empty()
    } else {
        char_uppercase(word[0]) + lowercase(word.subrange(1, word.len() as int))
    }
}

/// The words of `s` from the word that starts at `start` on, each
/// capitalized, where the scan stands at `i`.
pub open spec fn pascal_from(s: Seq<char>, start: int, i: int) -> Seq<char>
    decreases s.len() - i,
{
    if start < 0 || i < start || i >= s.len() {
        if 0 <= start <= s.len() {
            capitalized(s.subrange(start, s.len() as int))
        } else {
            Seq::empty()
        }
    } else if is_word_separator(s[i]) {
        capitalized(s.subrange(start, i)) + pascal_from(s, i + 1, i + 1)
    } else {
        pascal_from(s, start, i + 1)
    }
}

/// A name in Pascal case: its words, which `-`, `_` and spaces separate,
/// each capitalized and put together.
pub open spec fn spec_to_pascal_case(s: Seq<char>) -> Seq<char> {
    pascal_from(s, 0, 0)
}

/// Appends the word of `s` from `from` to `to`, capitalized.
fn push_capitalized(out: &mut Vec<char>, s: &Vec<char>, from: usize, to: usize)
    requires
        from <= to <= s.len(),
    ensures
        final(out)@ == old(out)@ + capitalized(s@.subrange(from as int, to as int)),
{
    if from < to {
        let first = uppercase_of(s[from]);
        let rest = from_chars(&slice(s, from + 1, to));
        let lower = rest.as_str().to_lowercase();
        push_chars(out, &first);
        push_str(out, lower.as_str());
        proof {
            let word = s@.subrange(from as int, to as int);
            assert(word.subrange(1, word.len() as int) =~= s@.subrange(from + 1, to as int));
            assert(out@ =~= old(out)@ + capitalized(word));
        }
    } else {
        assert(out@ =~= old(out)@ + Seq::<char>::empty());
    }
}

/// A name in Pascal case.
pub fn to_pascal_case(s: &str) -> (r: String)
    ensures
        r@ == spec_to_pascal_case(s@),
{
    let chars = to_chars(s);
    let mut out: Vec<char> = Vec::new();
    let mut start: usize = 0;
    let mut i: usize = 0;
    assert(out@ + pascal_from(chars@, 0, 0) =~= spec_to_pascal_case(chars@));
    while i < chars.len()
        invariant
            start <= i <= chars.len(),
            out@ + pascal_from(chars@, start as int, i as int) == spec_to_pascal_case(chars@),
        decreases chars.len() - i,
    {
        let c = chars[i];
        if c == '-' || c == '_' || c == ' ' {
            let ghost before = out@;
            push_capitalized(&mut out, &chars, start, i);
            proof {
                let word = capitalized(chars@.subrange(start as int, i as int));
                let rest = pascal_from(chars@, i + 1, i + 1);
                assert((before + word) + rest =~= before + (word + rest));
            }
            start = i + 1;
        }
        i += 1;
    }
    push_capitalized(&mut out, &chars, start, chars.len());
    from_chars(&out)
}

/// A text made fit for a TypeScript string in single quotes: a backslash
/// before every single quote, and `\n` and `\r` written out.
pub open spec fn spec_escape_string(s: Seq<char>) -> Seq<char> {
    spec_replace(
        spec_replace(spec_replace(s, seq!['\''], seq!['\\', '\'']), seq!['\n'], seq!['\\', 'n']),
        seq!['\r'],
        seq!['\\', 'r'],
    )
}

/// A text made fit for a TypeScript string in single quotes.
pub fn escape_string(s: &str) -> (r: String)
    ensures
        r@ == spec_escape_string(s@),
{
    let chars = to_chars(s);
    from_chars(&escape_chars(&chars))
}

/// A text made fit for a TypeScript string in single quotes.
pub fn escape_chars(chars: &Vec<char>) -> (r: Vec<char>)
    ensures
        r@ == spec_escape_string(chars@),
{
    let quote: Vec<char> = vec!['\''];
    let quote_escaped: Vec<char> = vec!['\\', '\''];
    let feed: Vec<char> = vec!['\n'];
    let feed_escaped: Vec<char> = vec!['\\', 'n'];
    let ret: Vec<char> = vec!['\r'];
    let ret_escaped: Vec<char> = vec!['\\', 'r'];
    proof {
        assert(quote@ =~= seq!['\'']);
        assert(quote_escaped@ =~= seq!['\\', '\'']);
        assert(feed@ =~= seq!['\n']);
        assert(feed_escaped@ =~= seq!['\\', 'n']);
        assert(ret@ =~= seq!['\r']);
        assert(ret_escaped@ =~= seq!['\\', 'r']);
    }
    let a = replace(chars, &quote, &quote_escaped);
    let b = replace(&a, &feed, &feed_escaped);
    replace(&b, &ret, &ret_escaped)
}

/// The names of the types that a description may start with, in the order
/// in which they are tried.
pub open spec fn data_type_prefixes() -> Seq<Seq<char>> {
    seq![
        "stringArray"@,
        "stringToString"@,
        "uint"@,
        "int"@,
        "string"@,
        "bool"@,
        "float"@,
    ]
}

/// The description without the type it starts with, and that type: the
/// first of the prefixes, from index `k` on, that the description starts
/// with, a space after it; the description as it is, and no type, where it
/// starts with none.
pub open spec fn split_data_type(description: Seq<char>, k: int) -> (Seq<char>, Seq<char>)
    decreases data_type_prefixes().len() - k,
{
    if k < 0 || k >= data_type_prefixes().len() {
        (description, Seq::empty())
    } else if spec_starts_with(description, data_type_prefixes()[k] + seq![' ']) {
        (
            description.subrange(
                data_type_prefixes()[k].len() as int + 1,
                description.len() as int,
            ),
            data_type_prefixes()[k],
        )
    } else {
        split_data_type(description, k + 1)
    }
}

/// The names of the types that a description may start with.
fn prefixes() -> (r: Vec<Vec<char>>)
    ensures
        views(r@) == data_type_prefixes(),
{
    let r: Vec<Vec<char>> = vec![
        to_chars("stringArray"),
        to_chars("stringToString"),
        to_chars("uint"),
        to_chars("int"),
        to_chars("string"),
        to_chars("bool"),
        to_chars("float"),
    ];
    assert(views(r@) =~= data_type_prefixes());
    r
}

/// The description without the type it starts with, and that type; the
/// description as it is, and an empty type, where it starts with none.
pub fn extract_data_type_from_description(description: &str) -> (r: (String, String))
    ensures
        (r.0@, r.1@) == split_data_type(description@, 0),
{
    let text = to_chars(description);
    let all = prefixes();
    let mut k: usize = 0;
    while k < all.len()
        invariant
            k <= all.len(),
            text@ == description@,
            views(all@) == data_type_prefixes(),
            split_data_type(text@, k as int) == split_data_type(text@, 0),
        decreases all.len() - k,
    {
        assert(views(all@)[k as int] == all@[k as int]@);
        let mut pattern = crate::text::copy_chars(&all[k]);
        pattern.push(' ');
        assert(pattern@ =~= data_type_prefixes()[k as int] + seq![' ']);
        if matches_at(&text, &pattern, 0) {
            let rest = slice(&text, pattern.len(), text.len());
            let cleaned = from_chars(&rest);
            let found = from_chars(&all[k]);
            assert(split_data_type(text@, k as int) == (cleaned@, found@));
            return (cleaned, found);
        }
        k += 1;
    }
    (from_chars(&text), String::new())
}

/// The default value that a description names.
///
/// Where it holds `(default ` and, from there on, a `)`, the value is what
/// stands between them. Else, where it holds `default is `, the value is
/// the word that follows, if one does. Else there is none.
pub open spec fn spec_default_value(description: Seq<char>) -> Option<Seq<char>> {
    let in_parens = match spec_find(description, "(default "@) {
        Some(start) => match index_of_char(description, ')', start) {
            Some(end) => Some(description.subrange(start + "(default "@.len(), end)),
            None => None,
        },
        None => None,
    };
    if in_parens is Some {
        in_parens
    } else {
        match spec_find(description, "default is "@) {
            Some(start) => {
                let words = spec_split_whitespace(
                    description.subrange(
                        start + "default is "@.len(),
                        description.len() as int,
                    ),
                );
                if words.len() > 0 {
                    Some(words[0])
                } else {
                    None
                }
            },
            None => None,
        }
    }
}

/// The default value that a description names.
pub fn extract_default_value(description: &str) -> (r: Option<String>)
    ensures
        option_view(r) == spec_default_value(description@),
{
    let text = to_chars(description);
    let open = to_chars("(default ");
    proof {
        reveal_strlit("(default ");
        lemma_find_from(text@, open@, 0);
    }
    match find(&text, &open) {
        Some(start) => {
            assert(occurs_at(text@, open@, start as int));
            match find_char(&text, ')', start) {
                Some(end) => {
                    proof {
                        lemma_index_of_char(text@, ')', start as int);
                        assert(text@.subrange(start as int, start + 9)[8] == ' ');
                        assert forall|j: int| start <= j < start + 9 implies text@[j] != ')' by {
                            assert(text@.subrange(start as int, start + 9)[j - start] == text@[j]);
                        }
                    }
                    return Some(from_chars(&slice(&text, start + open.len(), end)));
                },
                None => {},
            }
        },
        None => {},
    }
    let is = to_chars("default is ");
    match find(&text, &is) {
        Some(start) => {
            proof {
                lemma_find_from(text@, is@, 0);
                assert(occurs_at(text@, is@, start as int));
            }
            let n = text.len();
            let words = split_whitespace(&slice(&text, start + is.len(), n));
            if words.len() > 0 {
                assert(views(words@)[0] == words@[0]@);
                Some(from_chars(&words[0]))
            } else {
                None
            }
        },
        None => None,
    }
}

/// The examples that a description holds: none are read from it.
pub fn extract_examples(_description: &str) -> (r: Vec<String>)
    ensures
        r@.len() == 0,
{
    Vec::new()
}

/// Whether a description speaks of pairs of keys and values.
pub open spec fn spec_is_key_value_mapping(d: Seq<char>) -> bool {
    spec_contains(d, "key=value"@) || spec_contains(d, "Key/Value"@) || spec_contains(
        d,
        "key/value"@,
    ) || (spec_contains(d, "="@) && (spec_contains(d, "pair"@) || spec_contains(d, "mapping"@)))
        || spec_contains(d, "key:value"@)
}

/// Whether the text `text` holds the text `word`.
fn holds(text: &Vec<char>, word: &str) -> (r: bool)
    ensures
        r == spec_contains(text@, word@),
{
    let w = to_chars(word);
    contains(text, &w)
}

/// Whether a description speaks of pairs of keys and values.
pub fn is_key_value_mapping(description: &str) -> (r: bool)
    ensures
        r == spec_is_key_value_mapping(description@),
{
    let d = to_chars(description);
    holds(&d, "key=value") || holds(&d, "Key/Value") || holds(&d, "key/value") || (holds(&d, "=")
        && (holds(&d, "pair") || holds(&d, "mapping"))) || holds(&d, "key:value")
}

/// The index of the first character of `s`, from `i` on, that is no hyphen.
pub open spec fn skip_hyphens(s: Seq<char>, i: int) -> int
    decreases s.len() - i,
{
    if 0 <= i < s.len() && s[i] == '-' {
        skip_hyphens(s, i + 1)
    } else {
        i
    }
}

/// `s` without the hyphens at its start.
pub open spec fn without_hyphens(s: Seq<char>) -> Seq<char> {
    s.subrange(skip_hyphens(s, 0), s.len() as int)
}

/// `v` without the hyphens at its start.
pub fn strip_hyphens(v: &Vec<char>) -> (r: Vec<char>)
    ensures
        r@ == without_hyphens(v@),
{
    let mut i: usize = 0;
    while i < v.len() && v[i] == '-'
        invariant
            i <= v.len(),
            skip_hyphens(v@, i as int) == skip_hyphens(v@, 0),
        decreases v.len() - i,
    {
        i += 1;
    }
    slice(v, i, v.len())
}

/// `name` between the two characters `open` and `close`.
pub open spec fn wrapped(open: char, name: Seq<char>, close: char) -> Seq<char> {
    seq![open] + name + seq![close]
}

/// Whether the usage line shows the flag as required.
///
/// It does where it holds the long name, or the short name if there is one,
/// in angle brackets or in round brackets. Else it does not where it holds
/// either name in square brackets, or `[flags]`. Else it does where the long
/// name is followed by a space and a placeholder: the name without its
/// hyphens in upper case, the same with `_` for `-`, or one of `PATH`,
/// `NAME` and `ID`. Else it does not.
pub open spec fn spec_flag_required_by_usage(
    usage: Seq<char>,
    long_flag: Seq<char>,
    short_flag: Seq<char>,
) -> bool {
    let bare = without_hyphens(long_flag);
    if spec_contains(usage, wrapped('<', long_flag, '>')) || spec_contains(
        usage,
        wrapped('(', long_flag, ')'),
    ) || (short_flag.len() > 0 && spec_contains(usage, wrapped('<', short_flag, '>'))) || (
    short_flag.len() > 0 && spec_contains(usage, wrapped('(', short_flag, ')'))) {
        true
    } else if spec_contains(usage, wrapped('[', long_flag, ']')) || spec_contains(
        usage,
        wrapped('[', short_flag, ']'),
    ) || spec_contains(usage, "[flags]"@) {
        false
    } else {
        spec_contains(usage, long_flag + seq![' '] + uppercase(bare)) || spec_contains(
            usage,
            long_flag + seq![' '] + uppercase(spec_replace(bare, seq!['-'], seq!['_'])),
        ) || spec_contains(usage, long_flag + " PATH"@) || spec_contains(
            usage,
            long_flag + " NAME"@,
        ) || spec_contains(usage, long_flag + " ID"@)
    }
}

/// Whether `usage` holds `name` between the characters `open` and `close`.
fn holds_wrapped(usage: &Vec<char>, open: char, name: &Vec<char>, close: char) -> (r: bool)
    ensures
        r == spec_contains(usage@, wrapped(open, name@, close)),
{
    let mut pattern: Vec<char> = Vec::new();
    pattern.push(open);
    push_chars(&mut pattern, name);
    pattern.push(close);
    assert(pattern@ =~= wrapped(open, name@, close));
    contains(usage, &pattern)
}

/// Whether `usage` holds `name` with `tail` after it.
fn holds_followed(usage: &Vec<char>, name: &Vec<char>, tail: &str) -> (r: bool)
    ensures
        r == spec_contains(usage@, name@ + tail@),
{
    let mut pattern = crate::text::copy_chars(name);
    push_str(&mut pattern, tail);
    contains(usage, &pattern)
}

/// Whether `usage` holds `name`, a space and `placeholder`.
fn holds_placeholder(usage: &Vec<char>, name: &Vec<char>, placeholder: &str) -> (r: bool)
    ensures
        r == spec_contains(usage@, name@ + seq![' '] + placeholder@),
{
    let mut pattern = crate::text::copy_chars(name);
    pattern.push(' ');
    push_str(&mut pattern, placeholder);
    assert(pattern@ =~= name@ + seq![' '] + placeholder@);
    contains(usage, &pattern)
}

/// Whether the usage line shows the flag as required.
pub fn check_flag_in_usage_string(usage_string: &str, long_flag: &str, short_flag: &str) -> (r:
    bool)
    ensures
        r == spec_flag_required_by_usage(usage_string@, long_flag@, short_flag@),
{
    let usage = to_chars(usage_string);
    let long = to_chars(long_flag);
    let short = to_chars(short_flag);
    if holds_wrapped(&usage, '<', &long, '>') || holds_wrapped(&usage, '(', &long, ')') || (
    short.len() > 0 && holds_wrapped(&usage, '<', &short, '>')) || (short.len() > 0
        && holds_wrapped(&usage, '(', &short, ')')) {
        return true;
    }
    if holds_wrapped(&usage, '[', &long, ']') || holds_wrapped(&usage, '[', &short, ']') || holds(
        &usage,
        "[flags]",
    ) {
        return false;
    }
    let bare = strip_hyphens(&long);
    let hyphen: Vec<char> = vec!['-'];
    let underscore: Vec<char> = vec!['_'];
    assert(hyphen@ =~= seq!['-']);
    assert(underscore@ =~= seq!['_']);
    let upper = from_chars(&bare).as_str().to_uppercase();
    let snake = from_chars(&replace(&bare, &hyphen, &underscore)).as_str().to_uppercase();
    holds_placeholder(&usage, &long, upper.as_str()) || holds_placeholder(
        &usage,
        &long,
        snake.as_str(),
    ) || holds_followed(&usage, &long, " PATH") || holds_followed(&usage, &long, " NAME")
        || holds_followed(&usage, &long, " ID")
}

/// Whether a component of a usage line names an argument: a keyword, other
/// than `FLAGS`, all of whose characters are upper-case letters or `_`.
pub open spec fn is_argument_keyword(c: UsageComponentView) -> bool {
    c.component_type == ComponentType::Keyword && (forall|k: int|
        0 <= k < c.name.len() ==> uppercase_letter(#[trigger] c.name[k]) || c.name[k] == '_')
        && c.name != "FLAGS"@
}

/// Whether a component of a usage line names an argument.
pub fn argument_keyword(c: &UsageComponent) -> (r: bool)
    ensures
        r == is_argument_keyword(c@),
{
    if c.component_type != ComponentType::Keyword {
        return false;
    }
    let name = to_chars(c.name.as_str());
    let mut k: usize = 0;
    while k < name.len()
        invariant
            k <= name.len(),
            name@ == c@.name,
            c.component_type == ComponentType::Keyword,
            forall|j: int| 0 <= j < k ==> uppercase_letter(#[trigger] name@[j]) || name@[j] == '_',
        decreases name.len() - k,
    {
        if !(name[k].is_uppercase() || name[k] == '_') {
            assert(!(uppercase_letter(c@.name[k as int]) || c@.name[k as int] == '_'));
            return false;
        }
        k += 1;
    }
    let flags = to_chars("FLAGS");
    !chars_equal(&name, &flags)
}

/// Whether one of the usage lines holds, at its top level, a component that
/// names an argument.
pub open spec fn spec_has_usage_arguments(usages: Seq<LineUsageView>) -> bool {
    exists|u: int, k: int|
        0 <= u < usages.len() && 0 <= k < usages[u].usage_components.len()
            && is_argument_keyword(#[trigger] usages[u].usage_components[k])
}

/// Whether one of the usage lines of `children` holds, at its top level, a
/// component that names an argument.
pub fn has_usage_arguments(children: &Children) -> (r: bool)
    ensures
        r == spec_has_usage_arguments(children@.usages),
{
    let ghost usages = children@.usages;
    let mut u: usize = 0;
    while u < children.usages.len()
        invariant
            u <= children.usages.len(),
            usages == views(children.usages@),
            forall|a: int, k: int|
                0 <= a < u && 0 <= k < usages[a].usage_components.len() ==> !is_argument_keyword(
                    #[trigger] usages[a].usage_components[k],
                ),
        decreases children.usages.len() - u,
    {
        let components = &children.usages[u].usage_components;
        proof {
            lemma_components_view(components@);
        }
        let mut k: usize = 0;
        while k < components.len()
            invariant
                k <= components.len(),
                u < children.usages.len(),
                usages == views(children.usages@),
                components == &children.usages@[u as int].usage_components,
                components_view(components@).len() == components@.len(),
                forall|j: int|
                    0 <= j < components@.len() ==> #[trigger] components_view(components@)[j]
                        == components@[j]@,
                forall|j: int|
                    0 <= j < k ==> !is_argument_keyword(
                        #[trigger] usages[u as int].usage_components[j],
                    ),
            decreases components.len() - k,
        {
            if argument_keyword(&components[k]) {
                assert(is_argument_keyword(usages[u as int].usage_components[k as int]));
                return true;
            }
            k += 1;
        }
        u += 1;
    }
    false
}

} // verus!
