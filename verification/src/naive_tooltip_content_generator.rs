//! The TypeScript file of the tooltip component: the types it needs, and
//! the list of tokens with what a tooltip shows of each.
use vstd::prelude::*;
use crate::models::option_view;
use crate::text::{from_chars, push_chars, push_str, to_chars, uppercase};
use crate::typescript_writer::{
    chain_or_null, chain_or_null_chars, string_or_null, string_or_null_chars,
};
use crate::words::{replace, spec_replace, views};

verus! {

/// What a tooltip shows of a token. The title may be missing.
#[derive(Debug)]
pub struct TokenContents {
    pub title: Option<String>,
    /// The kind of the token; it is written in upper case.
    pub component_type: String,
    pub parent: Option<String>,
    pub parent_chain: Option<Vec<String>>,
    pub description: String,
    pub alias: Option<String>,
}

/// The mathematical value of a [`TokenContents`].
pub struct TokenContentsView {
    pub title: Option<Seq<char>>,
    pub component_type: Seq<char>,
    pub parent: Option<Seq<char>>,
    pub parent_chain: Option<Seq<Seq<char>>>,
    pub description: Seq<char>,
    pub alias: Option<Seq<char>>,
}

impl View for TokenContents {
    type V = TokenContentsView;

    open spec fn view(&self) -> TokenContentsView {
        TokenContentsView {
            title: option_view(self.title),
            component_type: self.component_type@,
            parent: option_view(self.parent),
            parent_chain: match self.parent_chain {
                Some(chain) => Some(views(chain@)),
                None => None,
            },
            description: self.description@,
            alias: option_view(self.alias),
        }
    }
}

/// A token with what a tooltip shows of it.
#[derive(Debug)]
pub struct TokenObject {
    pub key: String,
    pub contents: TokenContents,
}

/// The mathematical value of a [`TokenObject`].
pub struct TokenObjectView {
    pub key: Seq<char>,
    pub contents: TokenContentsView,
}

impl View for TokenObject {
    type V = TokenObjectView;

    open spec fn view(&self) -> TokenObjectView {
        TokenObjectView { key: self.key@, contents: self.contents@ }
    }
}

/// The types that the list of tokens is written in.
pub open spec fn spec_type_definitions() -> Seq<char> {
    "\nenum ToolTipExampleMediaType {\n  Image = \"image\",\n  Video = \"video\",\n  Gif = \"gif\",\n}\n\nenum ReferenceType {\n  Guide = \"guide\",\n  DocsReference = \"docsReference\",\n  Tutorial = \"tutorial\",\n  Video = \"video\",\n  BlogPost = \"blogPost\",\n  External = \"external\",\n  Example = \"example\",\n}\n\ntype Reference = {\n  name?: string;\n  description?: string;\n  r"@
        + "#type: ReferenceType;\n  url: string;\n}\n\ntype ToolTipExampleMedia = {\n  r"@
        + "#type: ToolTipExampleMediaType;\n  src: string;\n}\n\ntype ToolTipContentsExample = {\n  code?: string;\n  description?: string;\n  title?: string;\n  media?: ToolTipExampleMedia[]\n}\n\nenum ComponentType {\n  PROGRAM,\n  COMMAND,\n  SUBCOMMAND,\n  FLAG_SHORT,\n  FLAG_LONG,\n  ARGUMENT,\n  OTHER\n}\n\ntype ToolTipContents = {\n  title: Option<string>;\n  r"@
        + "#type: ComponentType;\n  parent: string|null;\n  parent_chain: string[]|null;\n  description: string;\n  examples?: ToolTipContentsExample[];\n  references?: Reference[];\n  alias: string|null;\n}\n\ntype TokenObject = {\n  [key: string]: ToolTipContents\n}\n"@
}

/// The types that the list of tokens is written in.
pub fn type_definitions() -> (r: Vec<char>)
    ensures
        r@ == spec_type_definitions(),
{
    let mut out = to_chars(
        "\nenum ToolTipExampleMediaType {\n  Image = \"image\",\n  Video = \"video\",\n  Gif = \"gif\",\n}\n\nenum ReferenceType {\n  Guide = \"guide\",\n  DocsReference = \"docsReference\",\n  Tutorial = \"tutorial\",\n  Video = \"video\",\n  BlogPost = \"blogPost\",\n  External = \"external\",\n  Example = \"example\",\n}\n\ntype Reference = {\n  name?: string;\n  description?: string;\n  r",
    );
    push_str(
        &mut out,
        "#type: ReferenceType;\n  url: string;\n}\n\ntype ToolTipExampleMedia = {\n  r",
    );
    push_str(
        &mut out,
        "#type: ToolTipExampleMediaType;\n  src: string;\n}\n\ntype ToolTipContentsExample = {\n  code?: string;\n  description?: string;\n  title?: string;\n  media?: ToolTipExampleMedia[]\n}\n\nenum ComponentType {\n  PROGRAM,\n  COMMAND,\n  SUBCOMMAND,\n  FLAG_SHORT,\n  FLAG_LONG,\n  ARGUMENT,\n  OTHER\n}\n\ntype ToolTipContents = {\n  title: Option<string>;\n  r",
    );
    push_str(
        &mut out,
        "#type: ComponentType;\n  parent: string|null;\n  parent_chain: string[]|null;\n  description: string;\n  examples?: ToolTipContentsExample[];\n  references?: Reference[];\n  alias: string|null;\n}\n\ntype TokenObject = {\n  [key: string]: ToolTipContents\n}\n",
    );
    out
}

/// A text for a string in double quotes: a backslash before every double
/// quote.
pub open spec fn quoted(text: Seq<char>) -> Seq<char> {
    spec_replace(text, seq!['"'], seq!['\\', '"'])
}

/// A text for a string in double quotes.
fn quote(text: &str) -> (r: Vec<char>)
    ensures
        r@ == quoted(text@),
{
    let mark: Vec<char> = vec!['"'];
    let escaped: Vec<char> = vec!['\\', '"'];
    assert(mark@ =~= seq!['"']);
    assert(escaped@ =~= seq!['\\', '"']);
    replace(&to_chars(text), &mark, &escaped)
}

/// The title of a token: its own, or a note that it is missing.
pub open spec fn title_or_missing(title: Option<Seq<char>>) -> Seq<char> {
    match title {
        Some(t) => t,
        None => "<missing title>"@,
    }
}

/// The entry of a token in the list of tokens.
pub open spec fn token_object_entry(token: TokenObjectView) -> Seq<char> {
    "  \""@ + token.key + "\": {\n    title: \""@ + quoted(
        title_or_missing(token.contents.title),
    ) + "\",\n    type: ComponentType."@ + uppercase(token.contents.component_type)
        + ",\n    parent: "@ + string_or_null(token.contents.parent) + ",\n    parent_chain: "@
        + chain_or_null(token.contents.parent_chain) + ",\n    description: \""@ + quoted(
        token.contents.description,
    ) + "\",\n    alias: "@ + string_or_null(token.contents.alias) + "\n  },\n"@
}

/// The entries of the first `n` tokens.
pub open spec fn token_object_entries(tokens: Seq<TokenObjectView>, n: int) -> Seq<char>
    decreases n,
{
    if n <= 0 || n > tokens.len() {
        Seq::empty()
    } else {
        token_object_entries(tokens, n - 1) + token_object_entry(tokens[n - 1])
    }
}

/// The declaration of the list of tokens.
pub open spec fn spec_serialize_token_object(tokens: Seq<TokenObjectView>) -> Seq<char> {
    "const tokensList: TokenObject = {\n"@ + token_object_entries(tokens, tokens.len() as int)
        + "};\n"@
}

/// The entry of a token in the list of tokens.
fn token_object_entry_chars(token: &TokenObject) -> (r: Vec<char>)
    ensures
        r@ == token_object_entry(token@),
{
    let title = match &token.contents.title {
        Some(t) => quote(t.as_str()),
        None => quote("<missing title>"),
    };
    let kind = token.contents.component_type.as_str().to_uppercase();
    let mut out = to_chars("  \"");
    push_str(&mut out, token.key.as_str());
    push_str(&mut out, "\": {\n    title: \"");
    push_chars(&mut out, &title);
    push_str(&mut out, "\",\n    type: ComponentType.");
    push_str(&mut out, kind.as_str());
    push_str(&mut out, ",\n    parent: ");
    push_chars(&mut out, &string_or_null_chars(&token.contents.parent));
    push_str(&mut out, ",\n    parent_chain: ");
    push_chars(&mut out, &chain_or_null_chars(&token.contents.parent_chain));
    push_str(&mut out, ",\n    description: \"");
    push_chars(&mut out, &quote(token.contents.description.as_str()));
    push_str(&mut out, "\",\n    alias: ");
    push_chars(&mut out, &string_or_null_chars(&token.contents.alias));
    push_str(&mut out, "\n  },\n");
    out
}

/// The declaration of the list of the tokens `tokens`, one entry for each,
/// in their order.
pub fn serialize_token_object_to_ts(tokens: &Vec<TokenObject>) -> (r: String)
    ensures
        r@ == spec_serialize_token_object(views(tokens@)),
{
    let mut entries: Vec<char> = Vec::new();
    let mut i: usize = 0;
    while i < tokens.len()
        invariant
            i <= tokens.len(),
            entries@ == token_object_entries(views(tokens@), i as int),
        decreases tokens.len() - i,
    {
        push_chars(&mut entries, &token_object_entry_chars(&tokens[i]));
        i += 1;
    }
    let mut out = to_chars("const tokensList: TokenObject = {\n");
    push_chars(&mut out, &entries);
    push_str(&mut out, "};\n");
    from_chars(&out)
}

/// The contents of the file of the tooltip component: the types, two line
/// feeds, and the list of tokens.
pub open spec fn spec_tooltip_file(tokens: Seq<TokenObjectView>) -> Seq<char> {
    spec_type_definitions() + "\n\n"@ + spec_serialize_token_object(tokens)
}

/// The contents of the file of the tooltip component for the tokens
/// `tokens`.
pub fn write_ts_file(tokens: &Vec<TokenObject>) -> (r: String)
    ensures
        r@ == spec_tooltip_file(views(tokens@)),
{
    let mut out = type_definitions();
    push_str(&mut out, "\n\n");
    push_str(&mut out, serialize_token_object_to_ts(tokens).as_str());
    from_chars(&out)
}

} // verus!
