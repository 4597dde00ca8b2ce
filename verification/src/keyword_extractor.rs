//! The different keywords of a command tree.
use vstd::prelude::*;
use crate::models::CLIKeywords;
use crate::summary_generator::{
    CLIKeywordsView, distinct, extract_data, lemma_distinct, spec_extract_data,
    without_repetitions,
};
use crate::tree::{CstNode, CstNodeView};

verus! {

/// The keywords of a tree: the subcommands of the root as the tree holds
/// them, and the subcommands below them, the short flags and the long flags
/// without repetitions, each where it first occurs.
pub open spec fn spec_extract_keywords(tree: CstNodeView) -> CLIKeywordsView {
    let data = spec_extract_data(tree);
    CLIKeywordsView {
        base_program: data.base_program,
        commands: data.commands,
        subcommands: distinct(data.subcommands, data.subcommands.len() as int),
        short_flags: distinct(data.short_flags, data.short_flags.len() as int),
        long_flags: distinct(data.long_flags, data.long_flags.len() as int),
    }
}

/// The keywords of a tree.
pub fn extract_keywords_from_json(tree: &CstNode) -> (r: CLIKeywords)
    ensures
        r@ == spec_extract_keywords(tree@),
{
    let data = extract_data(tree);
    CLIKeywords {
        subcommands: without_repetitions(&data.subcommands),
        short_flags: without_repetitions(&data.short_flags),
        long_flags: without_repetitions(&data.long_flags),
        base_program: data.base_program,
        commands: data.commands,
    }
}

/// No subcommand and no flag is among the keywords of a tree twice.
pub proof fn lemma_keywords_occur_once(tree: CstNodeView)
    ensures
        spec_extract_keywords(tree).subcommands.no_duplicates(),
        spec_extract_keywords(tree).short_flags.no_duplicates(),
        spec_extract_keywords(tree).long_flags.no_duplicates(),
{
    let data = spec_extract_data(tree);
    lemma_distinct(data.subcommands, data.subcommands.len() as int);
    lemma_distinct(data.short_flags, data.short_flags.len() as int);
    lemma_distinct(data.long_flags, data.long_flags.len() as int);
}

} // verus!
