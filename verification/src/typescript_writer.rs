//! The TypeScript file that lists the tokens of a program with what a
//! tooltip shows of each.
use vstd::prelude::*;
use crate::models::option_view;
use crate::text::{from_chars, push_chars, push_str, to_chars};
use crate::words::{replace, spec_replace, views};

verus! {

/// What a tooltip shows of a token.
#[derive(Debug)]
pub struct ToolTipContents {
    pub title: String,
    /// The kind of the token, one of the names of `ComponentType` in the
    /// file written.
    pub component_type: String,
    pub parent: Option<String>,
    pub parent_chain: Option<Vec<String>>,
    pub description: String,
    pub alias: Option<String>,
}

/// The mathematical value of a [`ToolTipContents`].
pub struct ToolTipContentsView {
    pub title: Seq<char>,
    pub component_type: Seq<char>,
    pub parent: Option<Seq<char>>,
    pub parent_chain: Option<Seq<Seq<char>>>,
    pub description: Seq<char>,
    pub alias: Option<Seq<char>>,
}

impl View for ToolTipContents {
    type V = ToolTipContentsView;

    open spec fn view(&self) -> ToolTipContentsView {
        ToolTipContentsView {
            title: self.title@,
            component_type: self.component_type@,
            parent: option_view(self.parent),
            parent_chain: match self.parent_chain {
                Some(chain) => Some(views(chain@)),
                None => None,
            },
            description: self.description@,
            alias: option_view(self.alias),
        }
    }
}

/// A token with what a tooltip shows of it.
#[derive(Debug)]
pub struct Token {
    pub key: String,
    pub contents: ToolTipContents,
}

/// The mathematical value of a [`Token`].
pub struct TokenView {
    pub key: Seq<char>,
    pub contents: ToolTipContentsView,
}

impl View for Token {
    type V = TokenView;

    open spec fn view(&self) -> TokenView {
        TokenView { key: self.key@, contents: self.contents@ }
    }
}

/// An optional text as a TypeScript value: in double quotes, or `null`.
pub open spec fn string_or_null(o: Option<Seq<char>>) -> Seq<char> {
    match o {
        Some(s) => "\""@ + s + "\""@,
        None => "null"@,
    }
}

/// The first `n` texts of a chain, each in double quotes, with `, `
/// between each two.
pub open spec fn chain_items(chain: Seq<Seq<char>>, n: int) -> Seq<char>
    decreases n,
{
    if n <= 0 || n > chain.len() {
        Seq::empty()
    } else if n == 1 {
        "\""@ + chain[0] + "\""@
    } else {
        chain_items(chain, n - 1) + ", "@ + "\""@ + chain[n - 1] + "\""@
    }
}

/// An optional chain of texts as a TypeScript value: an array of strings,
/// or `null`.
pub open spec fn chain_or_null(o: Option<Seq<Seq<char>>>) -> Seq<char> {
    match o {
        Some(chain) => "["@ + chain_items(chain, chain.len() as int) + "]"@,
        None => "null"@,
    }
}

/// An optional string as a TypeScript value.
pub fn string_or_null_chars(o: &Option<String>) -> (r: Vec<char>)
    ensures
        r@ == string_or_null(option_view(*o)),
{
    match o {
        Some(s) => {
            let mut out = to_chars("\"");
            push_str(&mut out, s.as_str());
            push_str(&mut out, "\"");
            out
        },
        None => to_chars("null"),
    }
}

/// An optional chain of texts as a TypeScript value.
pub fn chain_or_null_chars(o: &Option<Vec<String>>) -> (r: Vec<char>)
    ensures
        r@ == chain_or_null(
            match *o {
                Some(chain) => Some(views(chain@)),
                None => None,
            },
        ),
{
    match o {
        Some(chain) => {
            let mut items: Vec<char> = Vec::new();
            let mut i: usize = 0;
            while i < chain.len()
                invariant
                    i <= chain.len(),
                    items@ == chain_items(views(chain@), i as int),
                decreases chain.len() - i,
            {
                if i > 0 {
                    push_str(&mut items, ", ");
                    push_str(&mut items, "\"");
                    push_str(&mut items, chain[i].as_str());
                    push_str(&mut items, "\"");
                } else {
                    items = to_chars("\"");
                    push_str(&mut items, chain[i].as_str());
                    push_str(&mut items, "\"");
                }
                i += 1;
            }
            let mut out = to_chars("[");
            push_chars(&mut out, &items);
            push_str(&mut out, "]");
            out
        },
        None => to_chars("null"),
    }
}

/// A description for a string in double quotes: `\n` for every line feed,
/// then a backslash before every double quote.
pub open spec fn escaped_description(text: Seq<char>) -> Seq<char> {
    spec_replace(spec_replace(text, seq!['\n'], seq!['\\', 'n']), seq!['"'], seq!['\\', '"'])
}

/// A description for a string in double quotes.
fn escape_description(text: &str) -> (r: Vec<char>)
    ensures
        r@ == escaped_description(text@),
{
    let feed: Vec<char> = vec!['\n'];
    let feed_escaped: Vec<char> = vec!['\\', 'n'];
    let mark: Vec<char> = vec!['"'];
    let mark_escaped: Vec<char> = vec!['\\', '"'];
    proof {
        assert(feed@ =~= seq!['\n']);
        assert(feed_escaped@ =~= seq!['\\', 'n']);
        assert(mark@ =~= seq!['"']);
        assert(mark_escaped@ =~= seq!['\\', '"']);
    }
    let a = replace(&to_chars(text), &feed, &feed_escaped);
    replace(&a, &mark, &mark_escaped)
}

/// The entry of a token in the list of tokens.
pub open spec fn token_entry(token: TokenView) -> Seq<char> {
    "  \""@ + token.key + "\": {\n    title: \""@ + token.contents.title
        + "\",\n    type: ComponentType."@ + token.contents.component_type + ",\n    parent: "@
        + string_or_null(token.contents.parent) + ",\n    parent_chain: "@ + chain_or_null(
        token.contents.parent_chain,
    ) + ",\n    description: \""@ + escaped_description(token.contents.description)
        + "\",\n    alias: "@ + string_or_null(token.contents.alias) + "\n  },\n"@
}

/// The entries of the first `n` tokens.
pub open spec fn token_entries(tokens: Seq<TokenView>, n: int) -> Seq<char>
    decreases n,
{
    if n <= 0 || n > tokens.len() {
        Seq::empty()
    } else {
        token_entries(tokens, n - 1) + token_entry(tokens[n - 1])
    }
}

/// The contents of the file that lists the tokens: the kinds of tokens,
/// the list with one entry for each token, and the type of an entry.
pub open spec fn spec_tokens_list_ts(tokens: Seq<TokenView>) -> Seq<char> {
    "export enum ComponentType {\n  PROGRAM,\n  COMMAND,\n  SUBCOMMAND,\n  FLAG_SHORT,\n  FLAG_LONG,\n  ARGUMENT,\n  OTHER\n}\n\nexport const tokensList: Record<string, ToolTipContents> = {\n"@
        + token_entries(tokens, tokens.len() as int)
        + "};\n\nexport type ToolTipContents = {\n  title: string;\n  type: ComponentType;\n  parent: string | null;\n  parent_chain: string[] | null;\n  description: string;\n  alias: string | null;\n};\n"@
}

/// The entry of a token in the list of tokens.
fn token_entry_chars(token: &Token) -> (r: Vec<char>)
    ensures
        r@ == token_entry(token@),
{
    let mut out = to_chars("  \"");
    push_str(&mut out, token.key.as_str());
    push_str(&mut out, "\": {\n    title: \"");
    push_str(&mut out, token.contents.title.as_str());
    push_str(&mut out, "\",\n    type: ComponentType.");
    push_str(&mut out, token.contents.component_type.as_str());
    push_str(&mut out, ",\n    parent: ");
    push_chars(&mut out, &string_or_null_chars(&token.contents.parent));
    push_str(&mut out, ",\n    parent_chain: ");
    push_chars(&mut out, &chain_or_null_chars(&token.contents.parent_chain));
    push_str(&mut out, ",\n    description: \"");
    push_chars(&mut out, &escape_description(token.contents.description.as_str()));
    push_str(&mut out, "\",\n    alias: ");
    push_chars(&mut out, &string_or_null_chars(&token.contents.alias));
    push_str(&mut out, "\n  },\n");
    out
}

/// The contents of the file that lists the tokens `data`.
pub fn write_tokens_list_ts(data: &Vec<Token>) -> (r: String)
    ensures
        r@ == spec_tokens_list_ts(views(data@)),
{
    let mut entries: Vec<char> = Vec::new();
    let mut i: usize = 0;
    while i < data.len()
        invariant
            i <= data.len(),
            entries@ == token_entries(views(data@), i as int),
        decreases data.len() - i,
    {
        push_chars(&mut entries, &token_entry_chars(&data[i]));
        i += 1;
    }
    let mut out = to_chars(
        "export enum ComponentType {\n  PROGRAM,\n  COMMAND,\n  SUBCOMMAND,\n  FLAG_SHORT,\n  FLAG_LONG,\n  ARGUMENT,\n  OTHER\n}\n\nexport const tokensList: Record<string, ToolTipContents> = {\n",
    );
    push_chars(&mut out, &entries);
    push_str(
        &mut out,
        "};\n\nexport type ToolTipContents = {\n  title: string;\n  type: ComponentType;\n  parent: string | null;\n  parent_chain: string[] | null;\n  description: string;\n  alias: string | null;\n};\n",
    );
    from_chars(&out)
}

} // verus!
