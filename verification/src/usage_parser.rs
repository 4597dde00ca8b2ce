//! The grammar of usage lines.
//!
//! A usage line is read from left to right. `[` opens a group that is
//! optional, `(` opens a group of alternatives that `|` separates, and every
//! other run of characters that holds no white space, bracket or `|` is a
//! token. Brackets are matched by counting depth; a bracket that is never
//! closed closes at the end of the text.
use vstd::prelude::*;
use crate::models::{
    ComponentType, UsageComponent, UsageComponentView, alternatives_view, components_view,
    lemma_alternatives_view_push, lemma_components_view_push,
};
use crate::text::{
    contains_char, find, from_chars, is_white_space, lemma_find_from, matches_at, occurs_at,
    slice, spec_ends_with, spec_find, spec_starts_with, to_chars,
};
use crate::words::{spec_trim, trim};
use crate::pattern::{is_match, regex_is_match};

verus! {

/// The regular expression of a token that pairs two placeholders,
/// `<key>=<value>`.
pub const KEY_VALUE_PATTERN: &'static str = "^<[^>]+>=<[^>]+>$";

/// The mark of repetition, `...`.
pub open spec fn dots() -> Seq<char> {
    seq!['.', '.', '.']
}

/// Whether `c` ends a token: white space, a bracket or `|`.
pub open spec fn is_delimiter(c: char) -> bool {
    is_white_space(c) || c == '[' || c == ']' || c == '(' || c == ')' || c == '|'
}

/// The index, from `i` on and before `end`, of the `close` that matches an
/// `open` standing before `i`, where `depth` more are open; `end` where
/// there is none.
pub open spec fn matching_close(
    s: Seq<char>,
    open: char,
    close: char,
    i: int,
    end: int,
    depth: nat,
) -> int
    decreases end - i,
{
    if i < 0 || i >= end || end > s.len() {
        end
    } else if s[i] == open {
        matching_close(s, open, close, i + 1, end, depth + 1)
    } else if s[i] == close {
        if depth == 0 {
            i
        } else {
            matching_close(s, open, close, i + 1, end, (depth - 1) as nat)
        }
    } else {
        matching_close(s, open, close, i + 1, end, depth)
    }
}

/// The matching bracket lies between `i` and `end`.
pub proof fn lemma_matching_close(
    s: Seq<char>,
    open: char,
    close: char,
    i: int,
    end: int,
    depth: nat,
)
    requires
        0 <= i <= end <= s.len(),
    ensures
        i <= matching_close(s, open, close, i, end, depth) <= end,
    decreases end - i,
{
    if i < end {
        if s[i] == open {
            lemma_matching_close(s, open, close, i + 1, end, depth + 1);
        } else if s[i] == close {
            if depth > 0 {
                lemma_matching_close(s, open, close, i + 1, end, (depth - 1) as nat);
            }
        } else {
            lemma_matching_close(s, open, close, i + 1, end, depth);
        }
    }
}

/// The first index from `i` on, before `end`, that holds a delimiter; `end`
/// where there is none.
pub open spec fn token_end(s: Seq<char>, i: int, end: int) -> int
    decreases end - i,
{
    if 0 <= i < end <= s.len() && !is_delimiter(s[i]) {
        token_end(s, i + 1, end)
    } else {
        i
    }
}

/// A token ends between `i` and `end`.
pub proof fn lemma_token_end(s: Seq<char>, i: int, end: int)
    requires
        0 <= i <= end <= s.len(),
    ensures
        i <= token_end(s, i, end) <= end,
    decreases end - i,
{
    if i < end && !is_delimiter(s[i]) {
        lemma_token_end(s, i + 1, end);
    }
}

/// `t` without every `...` at its end.
pub open spec fn strip_dots(t: Seq<char>) -> Seq<char>
    decreases t.len(),
{
    if spec_ends_with(t, dots()) {
        strip_dots(t.subrange(0, t.len() - 3))
    } else {
        t
    }
}

/// The component that a token stands for, given what the key-value pattern
/// answered for the token's name.
///
/// The name is the token without the `...` at its end, and the token is
/// repeatable where it had any. It is a key-value pair where the pattern
/// matched or the token holds `=`. A name that starts with `--` is a flag;
/// one in angle brackets, or a key-value pair, is an argument; any other is
/// a keyword. A token is always required.
pub open spec fn spec_token_component(
    token: Seq<char>,
    kv_match: Option<bool>,
) -> UsageComponentView {
    let name = strip_dots(token);
    let key_value = kv_match == Some(true) || token.contains('=');
    UsageComponentView {
        component_type: if spec_starts_with(name, seq!['-', '-']) {
            ComponentType::Flag
        } else if (spec_starts_with(name, seq!['<']) && spec_ends_with(name, seq!['>']))
            || key_value {
            ComponentType::Argument
        } else {
            ComponentType::Keyword
        },
        name,
        required: true,
        repeatable: spec_ends_with(token, dots()),
        key_value,
        alternatives: Seq::empty(),
        children: Seq::empty(),
    }
}

/// The component of a token, with the answer of the `regex` crate for its
/// name.
pub open spec fn spec_classify_token(token: Seq<char>) -> UsageComponentView {
    spec_token_component(token, regex_is_match(KEY_VALUE_PATTERN@, strip_dots(token)))
}

/// The component of a bracket group.
pub open spec fn group_component(
    children: Seq<UsageComponentView>,
    repeatable: bool,
) -> UsageComponentView {
    UsageComponentView {
        component_type: ComponentType::Group,
        name: Seq::empty(),
        required: false,
        repeatable,
        key_value: false,
        alternatives: Seq::empty(),
        children,
    }
}

/// The component of a group of alternatives.
pub open spec fn alternative_group_component(
    alternatives: Seq<Seq<UsageComponentView>>,
    repeatable: bool,
) -> UsageComponentView {
    UsageComponentView {
        component_type: ComponentType::AlternativeGroup,
        name: Seq::empty(),
        required: true,
        repeatable,
        key_value: false,
        alternatives,
        children: Seq::empty(),
    }
}

/// Whether no alternative holds a component.
pub open spec fn all_empty(alternatives: Seq<Seq<UsageComponentView>>) -> bool {
    forall|k: int| 0 <= k < alternatives.len() ==> (#[trigger] alternatives[k]).len() == 0
}

/// The index after the bracket at `close`; `end` where the group ran to the
/// end unclosed.
pub open spec fn after_close(close: int, end: int) -> int {
    if close < end {
        close + 1
    } else {
        end
    }
}

/// Whether `...` stands at `at`, before `end`.
pub open spec fn dots_follow(s: Seq<char>, at: int, end: int) -> bool {
    at + 3 <= end && occurs_at(s, dots(), at)
}

/// Where reading goes on after a group that closed at `close`: after the
/// bracket, and after the `...` that follows it, if any.
pub open spec fn after_group(s: Seq<char>, close: int, end: int) -> int {
    if dots_follow(s, after_close(close, end), end) {
        after_close(close, end) + 3
    } else {
        after_close(close, end)
    }
}

/// Whether the group whose interior runs from `from` to `close` is
/// repeatable: its interior ends with `...`, or `...` follows its bracket.
pub open spec fn group_repeatable(s: Seq<char>, from: int, close: int, end: int) -> bool {
    (from + 3 <= close && occurs_at(s, dots(), close - 3)) || dots_follow(
        s,
        after_close(close, end),
        end,
    )
}

/// The components of `s` from `i` up to `end`.
pub open spec fn parse_range(s: Seq<char>, i: int, end: int) -> Seq<UsageComponentView>
    decreases end - i, 0nat, 0nat,
{
    if i < 0 || i >= end || end > s.len() {
        Seq::empty()
    } else if s[i] == '[' {
        let close = matching_close(s, '[', ']', i + 1, end, 0);
        proof {
            lemma_matching_close(s, '[', ']', i + 1, end, 0);
        }
        seq![
            group_component(
                parse_range(s, i + 1, close),
                group_repeatable(s, i + 1, close, end),
            ),
        ] + parse_range(s, after_group(s, close, end), end)
    } else if s[i] == '(' {
        let close = matching_close(s, '(', ')', i + 1, end, 0);
        proof {
            lemma_matching_close(s, '(', ')', i + 1, end, 0);
        }
        let alternatives = alternatives_range(s, i + 1, i + 1, close, 0);
        if all_empty(alternatives) {
            parse_range(s, after_group(s, close, end), end)
        } else {
            seq![
                alternative_group_component(alternatives, group_repeatable(s, i + 1, close, end)),
            ] + parse_range(s, after_group(s, close, end), end)
        }
    } else if is_delimiter(s[i]) {
        parse_range(s, i + 1, end)
    } else {
        let e = token_end(s, i + 1, end);
        proof {
            lemma_token_end(s, i + 1, end);
        }
        seq![spec_classify_token(s.subrange(i, e))] + parse_range(s, e, end)
    }
}

/// The alternatives of the interior of a parenthesised group: the sides of
/// every `|` that stands in no nested bracket, each with its components. The
/// side being read starts at `start`, the scan stands at `i`, and `depth`
/// nested brackets are open.
pub open spec fn alternatives_range(
    s: Seq<char>,
    start: int,
    i: int,
    end: int,
    depth: nat,
) -> Seq<Seq<UsageComponentView>>
    decreases end - start, 1nat, end - i,
{
    if start < 0 || i < start || i >= end || end > s.len() {
        seq![parse_range(s, start, end)]
    } else if s[i] == '|' && depth == 0 {
        seq![parse_range(s, start, i)] + alternatives_range(s, i + 1, i + 1, end, 0)
    } else if s[i] == '[' || s[i] == '(' {
        alternatives_range(s, start, i + 1, end, depth + 1)
    } else if s[i] == ']' || s[i] == ')' {
        alternatives_range(
            s,
            start,
            i + 1,
            end,
            if depth > 0 {
                (depth - 1) as nat
            } else {
                0
            },
        )
    } else {
        alternatives_range(s, start, i + 1, end, depth)
    }
}

/// The components of a text that holds usage syntax.
pub open spec fn spec_parse_tokens(s: Seq<char>) -> Seq<UsageComponentView> {
    parse_range(s, 0, s.len() as int)
}

/// The alternatives of the interior of a parenthesised group.
pub open spec fn spec_parse_alternatives(s: Seq<char>) -> Seq<Seq<UsageComponentView>> {
    alternatives_range(s, 0, 0, s.len() as int, 0)
}

/// What is left of a usage line once the text up to the first occurrence of
/// the command's name, and that name, are cut off, without white space round
/// it. A line that does not hold the name is left whole.
pub open spec fn usage_remainder(line: Seq<char>, command_name: Seq<char>) -> Seq<char> {
    let t = spec_trim(line);
    spec_trim(
        match spec_find(t, command_name) {
            Some(idx) => t.subrange(idx + command_name.len(), t.len() as int),
            None => t,
        },
    )
}

/// The components of a usage line of the command `command_name`: none where
/// what follows the command's name starts with `-`.
pub open spec fn spec_parse_usage_line(
    line: Seq<char>,
    command_name: Seq<char>,
) -> Seq<UsageComponentView> {
    let rest = usage_remainder(line, command_name);
    if rest.len() > 0 && rest[0] == '-' {
        Seq::empty()
    } else {
        spec_parse_tokens(rest)
    }
}

/// The index of the `close` that matches an `open` standing before `from`;
/// `to` where the text ends first.
pub fn extract_until_matching(
    chars: &Vec<char>,
    from: usize,
    to: usize,
    open: char,
    close: char,
) -> (r: usize)
    requires
        from <= to <= chars.len(),
    ensures
        r == matching_close(chars@, open, close, from as int, to as int, 0),
        from <= r <= to,
{
    let mut i: usize = from;
    let mut depth: usize = 0;
    while i < to
        invariant
            from <= i <= to <= chars.len(),
            depth <= i - from,
            matching_close(chars@, open, close, i as int, to as int, depth as nat)
                == matching_close(chars@, open, close, from as int, to as int, 0),
        decreases to - i,
    {
        let c = chars[i];
        if c == open {
            depth += 1;
        } else if c == close {
            if depth == 0 {
                return i;
            }
            depth -= 1;
        }
        i += 1;
    }
    i
}

/// The index at which the token that starts at `from` ends: that of the
/// first delimiter, or `to`.
pub fn extract_token(chars: &Vec<char>, from: usize, to: usize) -> (r: usize)
    requires
        from <= to <= chars.len(),
    ensures
        r == token_end(chars@, from as int, to as int),
        from <= r <= to,
{
    let mut i: usize = from;
    while i < to && !delimiter(chars[i])
        invariant
            from <= i <= to <= chars.len(),
            token_end(chars@, i as int, to as int) == token_end(chars@, from as int, to as int),
        decreases to - i,
    {
        i += 1;
    }
    i
}

/// Whether `c` ends a token.
pub fn delimiter(c: char) -> (r: bool)
    ensures
        r == is_delimiter(c),
{
    c.is_whitespace() || c == '[' || c == ']' || c == '(' || c == ')' || c == '|'
}

/// The characters of `...`.
fn dots_chars() -> (r: Vec<char>)
    ensures
        r@ == dots(),
{
    let r = vec!['.', '.', '.'];
    assert(r@ =~= dots());
    r
}

/// `token` without every `...` at its end.
pub fn strip_trailing_dots(token: &Vec<char>) -> (r: Vec<char>)
    ensures
        r@ == strip_dots(token@),
{
    let pat = dots_chars();
    let mut n: usize = token.len();
    assert(token@.subrange(0, n as int) =~= token@);
    while n >= 3 && matches_at(token, &pat, n - 3)
        invariant
            n <= token.len(),
            pat@ == dots(),
            strip_dots(token@.subrange(0, n as int)) == strip_dots(token@),
        decreases n,
    {
        proof {
            let t = token@.subrange(0, n as int);
            assert(t.subrange(n - 3, n as int) =~= token@.subrange(n - 3, n as int));
            assert(t.subrange(0, n - 3) =~= token@.subrange(0, n - 3));
        }
        n -= 3;
    }
    proof {
        let t = token@.subrange(0, n as int);
        if n >= 3 {
            assert(t.subrange(n - 3, n as int) =~= token@.subrange(n - 3, n as int));
        }
        assert(token@.subrange(0, token@.len() as int) =~= token@);
    }
    slice(token, 0, n)
}

/// The component that `token` stands for, given what the key-value pattern
/// answered for the token's name.
pub fn token_component(token: &Vec<char>, kv_match: Option<bool>) -> (c: UsageComponent)
    ensures
        c@ == spec_token_component(token@, kv_match),
{
    let pat = dots_chars();
    let repeatable = token.len() >= 3 && matches_at(token, &pat, token.len() - 3);
    let name = strip_trailing_dots(token);
    let matched = match kv_match {
        Some(m) => m,
        None => false,
    };
    let key_value = matched || contains_char(token, '=');
    let dashes: Vec<char> = vec!['-', '-'];
    let lt: Vec<char> = vec!['<'];
    let gt: Vec<char> = vec!['>'];
    proof {
        assert(dashes@ =~= seq!['-', '-']);
        assert(lt@ =~= seq!['<']);
        assert(gt@ =~= seq!['>']);
    }
    let component_type = if matches_at(&name, &dashes, 0) {
        ComponentType::Flag
    } else if (matches_at(&name, &lt, 0) && name.len() >= 1 && matches_at(
        &name,
        &gt,
        name.len() - 1,
    )) || key_value {
        ComponentType::Argument
    } else {
        ComponentType::Keyword
    };
    UsageComponent {
        component_type,
        name: from_chars(&name),
        required: true,
        repeatable,
        key_value,
        alternatives: Vec::new(),
        children: Vec::new(),
    }
}

/// The component that `token` stands for. The `regex` crate says whether the
/// token's name pairs two placeholders.
pub fn classify_token(token: &Vec<char>) -> (c: UsageComponent)
    ensures
        c@ == spec_classify_token(token@),
{
    let name = strip_trailing_dots(token);
    let name_text = from_chars(&name);
    let kv_match = is_match(KEY_VALUE_PATTERN, name_text.as_str());
    token_component(token, kv_match)
}

/// Where reading goes on after a group that closed at `close`, and whether
/// `...` follows the group.
fn group_end(chars: &Vec<char>, close: usize, to: usize) -> (r: (usize, bool))
    requires
        close <= to <= chars.len(),
    ensures
        r.0 == after_group(chars@, close as int, to as int),
        r.1 == dots_follow(chars@, after_close(close as int, to as int), to as int),
        close <= r.0 <= to,
        close < to ==> close < r.0,
{
    let pat = dots_chars();
    let after: usize = if close < to {
        close + 1
    } else {
        to
    };
    if to - after >= 3 && matches_at(chars, &pat, after) {
        (after + 3, true)
    } else {
        (after, false)
    }
}

/// Whether the interior of a group, from `from` to `close`, ends with `...`.
fn interior_ends_with_dots(chars: &Vec<char>, from: usize, close: usize) -> (r: bool)
    requires
        from <= close <= chars.len(),
    ensures
        r == (from + 3 <= close && occurs_at(chars@, dots(), close - 3)),
{
    let pat = dots_chars();
    close - from >= 3 && matches_at(chars, &pat, close - 3)
}

/// Whether no alternative holds a component.
fn no_components(alternatives: &Vec<Vec<UsageComponent>>) -> (r: bool)
    ensures
        r == all_empty(alternatives_view(alternatives@)),
{
    proof {
        crate::models::lemma_alternatives_view(alternatives@);
    }
    let mut k: usize = 0;
    while k < alternatives.len()
        invariant
            k <= alternatives.len(),
            alternatives_view(alternatives@).len() == alternatives@.len(),
            forall|j: int|
                0 <= j < alternatives@.len() ==> #[trigger] alternatives_view(
                    alternatives@,
                )[j] == components_view(alternatives@[j]@),
            forall|j: int|
                0 <= j < k ==> (#[trigger] alternatives_view(alternatives@)[j]).len() == 0,
        decreases alternatives.len() - k,
    {
        proof {
            crate::models::lemma_components_view(alternatives@[k as int]@);
        }
        if alternatives[k].len() > 0 {
            assert(alternatives_view(alternatives@)[k as int].len() > 0);
            return false;
        }
        k += 1;
    }
    true
}

/// The components of `chars` from `from` up to `to`.
pub fn parse_range_of(chars: &Vec<char>, from: usize, to: usize) -> (r: Vec<UsageComponent>)
    requires
        from <= to <= chars.len(),
    ensures
        components_view(r@) == parse_range(chars@, from as int, to as int),
    decreases to - from, 0nat,
{
    let mut out: Vec<UsageComponent> = Vec::new();
    let mut i: usize = from;
    let ghost s = chars@;
    assert(components_view(out@) + parse_range(s, i as int, to as int) =~= parse_range(
        s,
        from as int,
        to as int,
    ));
    while i < to
        invariant
            from <= i <= to <= chars.len(),
            s == chars@,
            components_view(out@) + parse_range(s, i as int, to as int) == parse_range(
                s,
                from as int,
                to as int,
            ),
        decreases to - i,
    {
        let c = chars[i];
        if c == '[' {
            let close = extract_until_matching(chars, i + 1, to, '[', ']');
            let children = parse_range_of(chars, i + 1, close);
            let inner = interior_ends_with_dots(chars, i + 1, close);
            let (next, suffixed) = group_end(chars, close, to);
            let group = UsageComponent {
                component_type: ComponentType::Group,
                name: String::new(),
                required: false,
                repeatable: inner || suffixed,
                key_value: false,
                alternatives: Vec::new(),
                children,
            };
            proof {
                let rest = parse_range(s, next as int, to as int);
                lemma_components_view_push(out@, group);
                assert(components_view(out@).push(group@) + rest =~= components_view(out@) + (
                seq![group@] + rest));
            }
            out.push(group);
            i = next;
        } else if c == '(' {
            let close = extract_until_matching(chars, i + 1, to, '(', ')');
            let alternatives = alternatives_range_of(chars, i + 1, close);
            let inner = interior_ends_with_dots(chars, i + 1, close);
            let (next, suffixed) = group_end(chars, close, to);
            if !no_components(&alternatives) {
                let group = UsageComponent {
                    component_type: ComponentType::AlternativeGroup,
                    name: String::new(),
                    required: true,
                    repeatable: inner || suffixed,
                    key_value: false,
                    alternatives,
                    children: Vec::new(),
                };
                proof {
                    let rest = parse_range(s, next as int, to as int);
                    lemma_components_view_push(out@, group);
                    assert(components_view(out@).push(group@) + rest =~= components_view(out@)
                        + (seq![group@] + rest));
                }
                out.push(group);
            }
            i = next;
        } else if delimiter(c) {
            i += 1;
        } else {
            let e = extract_token(chars, i + 1, to);
            let token = slice(chars, i, e);
            let component = classify_token(&token);
            proof {
                let rest = parse_range(s, e as int, to as int);
                lemma_components_view_push(out@, component);
                assert(components_view(out@).push(component@) + rest =~= components_view(out@)
                    + (seq![component@] + rest));
            }
            out.push(component);
            i = e;
        }
    }
    assert(components_view(out@) + Seq::<UsageComponentView>::empty() =~= components_view(out@));
    out
}

/// The alternatives of the interior of a parenthesised group that runs from
/// `from` up to `to`.
pub fn alternatives_range_of(chars: &Vec<char>, from: usize, to: usize) -> (r: Vec<
    Vec<UsageComponent>,
>)
    requires
        from <= to <= chars.len(),
    ensures
        alternatives_view(r@) == alternatives_range(
            chars@,
            from as int,
            from as int,
            to as int,
            0,
        ),
    decreases to - from, 1nat,
{
    let mut out: Vec<Vec<UsageComponent>> = Vec::new();
    let mut start: usize = from;
    let mut i: usize = from;
    let mut depth: usize = 0;
    let ghost s = chars@;
    assert(alternatives_view(out@) + alternatives_range(
        s,
        start as int,
        i as int,
        to as int,
        depth as nat,
    ) =~= alternatives_range(s, from as int, from as int, to as int, 0));
    while i < to
        invariant
            from <= start <= i <= to <= chars.len(),
            depth <= i - start,
            s == chars@,
            alternatives_view(out@) + alternatives_range(
                s,
                start as int,
                i as int,
                to as int,
                depth as nat,
            ) == alternatives_range(s, from as int, from as int, to as int, 0),
        decreases to - i,
    {
        let c = chars[i];
        if c == '|' && depth == 0 {
            let side = parse_range_of(chars, start, i);
            proof {
                let rest = alternatives_range(s, i + 1, i + 1, to as int, 0);
                lemma_alternatives_view_push(out@, side);
                assert(alternatives_view(out@).push(components_view(side@)) + rest
                    =~= alternatives_view(out@) + (seq![components_view(side@)] + rest));
            }
            out.push(side);
            i += 1;
            start = i;
        } else if c == '[' || c == '(' {
            depth += 1;
            i += 1;
        } else if c == ']' || c == ')' {
            if depth > 0 {
                depth -= 1;
            }
            i += 1;
        } else {
            i += 1;
        }
    }
    let side = parse_range_of(chars, start, to);
    proof {
        lemma_alternatives_view_push(out@, side);
        assert(alternatives_view(out@).push(components_view(side@)) =~= alternatives_view(out@)
            + seq![components_view(side@)]);
    }
    out.push(side);
    out
}

/// The components of a text that holds usage syntax.
pub fn parse_tokens(line: &str) -> (r: Vec<UsageComponent>)
    ensures
        components_view(r@) == spec_parse_tokens(line@),
{
    let chars = to_chars(line);
    parse_range_of(&chars, 0, chars.len())
}

/// The alternatives of the interior of a parenthesised group: one for each
/// side of every `|` that stands in no nested bracket.
pub fn parse_alternatives(group: &str) -> (r: Vec<Vec<UsageComponent>>)
    ensures
        alternatives_view(r@) == spec_parse_alternatives(group@),
{
    let chars = to_chars(group);
    alternatives_range_of(&chars, 0, chars.len())
}

/// The components of a usage line of the command `command_name`.
///
/// The line is read after the first occurrence of `command_name` in it, or
/// from its start where it does not hold that name. Where what is left
/// starts with `-` the line is no usage syntax, and has no components.
pub fn parse_usage_line(child_line: &str, command_name: &str) -> (r: Vec<UsageComponent>)
    ensures
        components_view(r@) == spec_parse_usage_line(child_line@, command_name@),
{
    let line = to_chars(child_line);
    let name = to_chars(command_name);
    parse_usage_chars(&line, &name)
}

/// The components of a usage line, given as characters.
pub fn parse_usage_chars(line: &Vec<char>, command_name: &Vec<char>) -> (r: Vec<UsageComponent>)
    ensures
        components_view(r@) == spec_parse_usage_line(line@, command_name@),
{
    let t = trim(line);
    let rest = match find(&t, command_name) {
        Some(idx) => {
            proof {
                lemma_find_from(t@, command_name@, 0);
                assert(occurs_at(t@, command_name@, idx as int));
            }
            let n = t.len();
            let r = slice(&t, idx + command_name.len(), n);
            trim(&r)
        },
        None => trim(&t),
    };
    if rest.len() > 0 && rest[0] == '-' {
        Vec::new()
    } else {
        parse_range_of(&rest, 0, rest.len())
    }
}

} // verus!
