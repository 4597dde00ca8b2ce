//! The shape of what the usage parser gives: a node is a plain token, a
//! bracket group with children, or a group of alternatives, and never has
//! both children and alternatives.
use vstd::prelude::*;
use crate::models::{ComponentType, UsageComponentView};
use crate::usage_parser::{
    after_group, all_empty, alternative_group_component, alternatives_range, group_component,
    group_repeatable, is_delimiter, lemma_matching_close, lemma_token_end, matching_close,
    parse_range, spec_classify_token, spec_parse_usage_line, token_end, usage_remainder,
};

verus! {

/// Whether a component, and every component in it, has one of the three
/// shapes.
///
/// A bracket group has no name, is not required, and holds children and no
/// alternatives. A group of alternatives has no name, is required, holds no
/// children, and at least one of its alternatives holds a component. A
/// token, which is a flag, an argument or a keyword, is required and holds
/// neither.
pub open spec fn well_shaped(c: UsageComponentView) -> bool
    decreases c,
{
    match c.component_type {
        ComponentType::Group => {
            &&& c.name.len() == 0
            &&& !c.required
            &&& !c.key_value
            &&& c.alternatives.len() == 0
            &&& forall|k: int| 0 <= k < c.children.len() ==> well_shaped(#[trigger] c.children[k])
        },
        ComponentType::AlternativeGroup => {
            &&& c.name.len() == 0
            &&& c.required
            &&& !c.key_value
            &&& c.children.len() == 0
            &&& !all_empty(c.alternatives)
            &&& forall|a: int, k: int|
                0 <= a < c.alternatives.len() && 0 <= k < c.alternatives[a].len() ==> well_shaped(
                    #[trigger] c.alternatives[a][k],
                )
        },
        ComponentType::Flag | ComponentType::Argument | ComponentType::Keyword => {
            &&& c.required
            &&& c.alternatives.len() == 0
            &&& c.children.len() == 0
        },
        ComponentType::KeyValuePair => false,
    }
}

/// Whether every component of every alternative is well shaped.
pub open spec fn alternatives_well_shaped(alternatives: Seq<Seq<UsageComponentView>>) -> bool {
    forall|a: int, k: int|
        0 <= a < alternatives.len() && 0 <= k < alternatives[a].len() ==> well_shaped(
            #[trigger] alternatives[a][k],
        )
}

/// Whether every component of a sequence is well shaped.
pub open spec fn all_well_shaped(components: Seq<UsageComponentView>) -> bool {
    forall|k: int| 0 <= k < components.len() ==> well_shaped(#[trigger] components[k])
}

/// A well-shaped component does not hold both children and alternatives.
pub proof fn lemma_children_or_alternatives(c: UsageComponentView)
    requires
        well_shaped(c),
    ensures
        c.children.len() == 0 || c.alternatives.len() == 0,
{
}

/// Putting a well-shaped component before well-shaped components gives
/// well-shaped components.
proof fn lemma_cons_well_shaped(first: UsageComponentView, rest: Seq<UsageComponentView>)
    requires
        well_shaped(first),
        all_well_shaped(rest),
    ensures
        all_well_shaped(seq![first] + rest),
{
    let all = seq![first] + rest;
    assert forall|k: int| 0 <= k < all.len() implies well_shaped(#[trigger] all[k]) by {
        if k > 0 {
            assert(all[k] == rest[k - 1]);
        }
    }
}

/// The components that the parser reads from a range of a text are well
/// shaped.
pub proof fn lemma_parse_range_well_shaped(s: Seq<char>, i: int, end: int)
    ensures
        all_well_shaped(parse_range(s, i, end)),
    decreases end - i, 0nat, 0nat,
{
    if 0 <= i < end <= s.len() {
        if s[i] == '[' {
            let close = matching_close(s, '[', ']', i + 1, end, 0);
            lemma_matching_close(s, '[', ']', i + 1, end, 0);
            lemma_parse_range_well_shaped(s, i + 1, close);
            lemma_parse_range_well_shaped(s, after_group(s, close, end), end);
            let group = group_component(
                parse_range(s, i + 1, close),
                group_repeatable(s, i + 1, close, end),
            );
            assert(well_shaped(group));
            lemma_cons_well_shaped(group, parse_range(s, after_group(s, close, end), end));
        } else if s[i] == '(' {
            let close = matching_close(s, '(', ')', i + 1, end, 0);
            lemma_matching_close(s, '(', ')', i + 1, end, 0);
            lemma_alternatives_range_well_shaped(s, i + 1, i + 1, close, 0);
            lemma_parse_range_well_shaped(s, after_group(s, close, end), end);
            let alternatives = alternatives_range(s, i + 1, i + 1, close, 0);
            if !all_empty(alternatives) {
                let group = alternative_group_component(
                    alternatives,
                    group_repeatable(s, i + 1, close, end),
                );
                assert(well_shaped(group));
                lemma_cons_well_shaped(group, parse_range(s, after_group(s, close, end), end));
            }
        } else if is_delimiter(s[i]) {
            lemma_parse_range_well_shaped(s, i + 1, end);
        } else {
            let e = token_end(s, i + 1, end);
            lemma_token_end(s, i + 1, end);
            lemma_parse_range_well_shaped(s, e, end);
            let token = spec_classify_token(s.subrange(i, e));
            assert(well_shaped(token));
            lemma_cons_well_shaped(token, parse_range(s, e, end));
        }
    }
}

/// The components of the alternatives that the parser reads from the
/// interior of a group are well shaped.
pub proof fn lemma_alternatives_range_well_shaped(
    s: Seq<char>,
    start: int,
    i: int,
    end: int,
    depth: nat,
)
    ensures
        alternatives_well_shaped(alternatives_range(s, start, i, end, depth)),
    decreases end - start, 1nat, end - i,
{
    let all = alternatives_range(s, start, i, end, depth);
    if start < 0 || i < start || i >= end || end > s.len() {
        lemma_parse_range_well_shaped(s, start, end);
        let only = parse_range(s, start, end);
        assert forall|a: int, k: int| 0 <= a < all.len() && 0 <= k < all[a].len() implies well_shaped(
            #[trigger] all[a][k],
        ) by {
            assert(all[a] == only);
            assert(well_shaped(only[k]));
        }
    } else if s[i] == '|' && depth == 0 {
        lemma_parse_range_well_shaped(s, start, i);
        lemma_alternatives_range_well_shaped(s, i + 1, i + 1, end, 0);
        let first = parse_range(s, start, i);
        let rest = alternatives_range(s, i + 1, i + 1, end, 0);
        assert forall|a: int, k: int| 0 <= a < all.len() && 0 <= k < all[a].len() implies well_shaped(
            #[trigger] all[a][k],
        ) by {
            if a > 0 {
                assert(all[a] == rest[a - 1]);
                assert(well_shaped(rest[a - 1][k]));
            } else {
                assert(all[a] == first);
                assert(well_shaped(first[k]));
            }
        }
    } else if s[i] == '[' || s[i] == '(' {
        lemma_alternatives_range_well_shaped(s, start, i + 1, end, depth + 1);
    } else if s[i] == ']' || s[i] == ')' {
        lemma_alternatives_range_well_shaped(
            s,
            start,
            i + 1,
            end,
            if depth > 0 {
                (depth - 1) as nat
            } else {
                0
            },
        );
    } else {
        lemma_alternatives_range_well_shaped(s, start, i + 1, end, depth);
    }
}

/// Every component that a usage line is read into is well shaped: no node
/// holds both children and alternatives, at any depth.
pub proof fn lemma_usage_line_well_shaped(line: Seq<char>, command_name: Seq<char>)
    ensures
        all_well_shaped(spec_parse_usage_line(line, command_name)),
{
    let rest = usage_remainder(line, command_name);
    lemma_parse_range_well_shaped(rest, 0, rest.len() as int);
}

} // verus!
