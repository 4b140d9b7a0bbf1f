//! The tree-sitter library as the extractors use it: grammars, compiled
//! queries, and what a query captures in a source text.
//!
//! A grammar and a compiled query are handles of tree-sitter. Nothing is known
//! of what stands behind a handle, only that it does not change while the
//! handle lives: what a parser and a query do with a text rests on the
//! handles and on the text. What a handle does is tied to plain values where
//! the handle is made: a query does what its patterns and its grammar say,
//! and the grammar of a grammar crate is the same at every call. Nothing in
//! this file is proved; the contracts say what is taken from tree-sitter on
//! trust.

use vstd::prelude::*;
use tree_sitter::Language;
use tree_sitter::LanguageError;
use tree_sitter::Query;
use tree_sitter::QueryError;
use crate::discovery::Lang;

verus! {

/// A compiled grammar of tree-sitter. Nothing is known of its contents.
#[verifier::external_type_specification]
#[verifier::external_body]
pub struct ExLanguage(Language);

/// A compiled query of tree-sitter. Nothing is known of its contents.
#[verifier::external_type_specification]
#[verifier::external_body]
pub struct ExQuery(Query);

/// The error of tree-sitter's `Query::new`.
#[verifier::external_type_specification]
#[verifier::external_body]
pub struct ExQueryError(QueryError);

/// The error of tree-sitter's `Parser::set_language`.
#[verifier::external_type_specification]
#[verifier::external_body]
pub struct ExLanguageError(LanguageError);

/// One node that a query captured: the row on which the node starts, counted
/// from zero, the index of the capture in the query, and the node's text, or
/// `None` where its bytes are no UTF-8 text.
#[derive(Debug, PartialEq, Eq)]
pub struct Capture {
    pub row: u32,
    pub index: u32,
    pub text: Option<String>,
}

/// The mathematical value of a [`Capture`].
pub struct CaptureView {
    pub row: u32,
    pub index: u32,
    pub text: Option<Seq<char>>,
}

impl View for Capture {
    type V = CaptureView;

    open spec fn view(&self) -> CaptureView {
        CaptureView { row: self.row, index: self.index, text: self.text.deep_view() }
    }
}

impl DeepView for Capture {
    type V = CaptureView;

    open spec fn deep_view(&self) -> CaptureView {
        self@
    }
}

/// The views of the captures of each match.
pub open spec fn matches_view(found: Option<Vec<Vec<Capture>>>) -> Option<Seq<Seq<CaptureView>>> {
    found.deep_view()
}

/// Whether a parser of tree-sitter takes `language`: whether `set_language`
/// returns `Ok` for it, which it does where the version of the grammar is one
/// that the library reads.
pub uninterp spec fn language_accepted(language: Language) -> bool;

/// What `query` captures in `source` read as a text of `language`: for each
/// match of the query, in the order in which tree-sitter finds them, its
/// captured nodes in the order of the match. `None` where the parser does not
/// take `language` or gives no tree for `source`.
pub uninterp spec fn query_captures(language: Language, query: Query, source: Seq<char>) -> Option<
    Seq<Seq<CaptureView>>,
>;

/// What the patterns `patterns`, compiled for `grammar`, capture in `source`
/// read as a text of `language`.
pub uninterp spec fn patterns_capture(
    language: Language,
    grammar: Language,
    patterns: Seq<char>,
    source: Seq<char>,
) -> Option<Seq<Seq<CaptureView>>>;

/// `query` is what the patterns `patterns` make for `grammar`: in every text
/// it captures what they capture.
pub open spec fn compiled_from(query: Query, grammar: Language, patterns: Seq<char>) -> bool {
    forall|language: Language, source: Seq<char>|
        #[trigger] query_captures(language, query, source) == patterns_capture(
            language,
            grammar,
            patterns,
            source,
        )
}

/// `c` can stand in the name of a node, a field or a capture of a query: it
/// is a letter, a digit, `_` or `-`.
pub open spec fn name_char(c: char) -> bool {
    ||| ('0' <= c && c <= '9')
    ||| ('a' <= c && c <= 'z')
    ||| ('A' <= c && c <= 'Z')
    ||| c == '_'
    ||| c == '-'
}

/// The patterns `source` do not end inside a name: they are not empty, and
/// their last character cannot stand in a name.
pub open spec fn well_ended(source: Seq<char>) -> bool {
    source.len() > 0 && !name_char(source.last())
}

/// Whether the patterns `source` compile for `language`: whether `Query::new`
/// returns `Ok` for the two.
pub uninterp spec fn query_compiles(language: Language, source: Seq<char>) -> bool;

/// Whether a parser takes the grammar that the grammar crate of `lang` holds.
pub uninterp spec fn grammar_accepted(lang: Lang) -> bool;

/// Whether the patterns `patterns` compile for the grammar that the grammar
/// crate of `lang` holds.
pub uninterp spec fn grammar_compiles(lang: Lang, patterns: Seq<char>) -> bool;

/// What the patterns `patterns`, compiled for the grammar that the grammar
/// crate of `lang` holds, capture in `source` read as a text of that grammar.
pub uninterp spec fn grammar_captures(lang: Lang, patterns: Seq<char>, source: Seq<char>) -> Option<
    Seq<Seq<CaptureView>>,
>;

/// `grammar` is the grammar that the grammar crate of `lang` holds, as far
/// as a parser and a query can tell.
pub open spec fn bundled(grammar: Language, lang: Lang) -> bool {
    &&& language_accepted(grammar) == grammar_accepted(lang)
    &&& forall|patterns: Seq<char>|
        #[trigger] query_compiles(grammar, patterns) == grammar_compiles(lang, patterns)
    &&& forall|patterns: Seq<char>, source: Seq<char>|
        #[trigger] patterns_capture(grammar, grammar, patterns, source) == grammar_captures(
            lang,
            patterns,
            source,
        )
}

/// `tree_sitter_go::language`: the grammar of Go. The function returns the
/// address of the one grammar that the C source of the crate holds, the same
/// at every call. So whether a parser takes the grammar, which patterns
/// compile for it, and what they capture in a text of it, is the same for
/// every result of the function: it rests on the language alone.
#[verifier::external_body]
pub(crate) fn go_grammar() -> (grammar: Language)
    ensures
        language_accepted(grammar) == grammar_accepted(Lang::Go),
        forall|patterns: Seq<char>|
            #[trigger] query_compiles(grammar, patterns) == grammar_compiles(Lang::Go, patterns),
        forall|patterns: Seq<char>, source: Seq<char>|
            #[trigger] patterns_capture(grammar, grammar, patterns, source) == grammar_captures(
                Lang::Go,
                patterns,
                source,
            ),
{
    tree_sitter_go::language()
}

/// `tree_sitter_rust::language`: the grammar of Rust. The function returns the
/// address of the one grammar that the C source of the crate holds, the same
/// at every call. So whether a parser takes the grammar, which patterns
/// compile for it, and what they capture in a text of it, is the same for
/// every result of the function: it rests on the language alone.
#[verifier::external_body]
pub(crate) fn rust_grammar() -> (grammar: Language)
    ensures
        language_accepted(grammar) == grammar_accepted(Lang::Rust),
        forall|patterns: Seq<char>|
            #[trigger] query_compiles(grammar, patterns) == grammar_compiles(Lang::Rust, patterns),
        forall|patterns: Seq<char>, source: Seq<char>|
            #[trigger] patterns_capture(grammar, grammar, patterns, source) == grammar_captures(
                Lang::Rust,
                patterns,
                source,
            ),
{
    tree_sitter_rust::language()
}

/// `tree_sitter_lua::language`: the grammar of Lua. The function returns the
/// address of the one grammar that the C source of the crate holds, the same
/// at every call. So whether a parser takes the grammar, which patterns
/// compile for it, and what they capture in a text of it, is the same for
/// every result of the function: it rests on the language alone.
#[verifier::external_body]
pub(crate) fn lua_grammar() -> (grammar: Language)
    ensures
        language_accepted(grammar) == grammar_accepted(Lang::Lua),
        forall|patterns: Seq<char>|
            #[trigger] query_compiles(grammar, patterns) == grammar_compiles(Lang::Lua, patterns),
        forall|patterns: Seq<char>, source: Seq<char>|
            #[trigger] patterns_capture(grammar, grammar, patterns, source) == grammar_captures(
                Lang::Lua,
                patterns,
                source,
            ),
{
    tree_sitter_lua::language()
}

/// `Query::new`: compiles the patterns of `source` for `language`. Whether it
/// succeeds rests on the two arguments alone, and so does what the query
/// captures that it makes; nothing is stated of the error. The patterns are
/// asked to be ASCII and not to end inside a name: where a name is unknown,
/// the function cuts `source` at the byte where the name begins and again
/// where it ends, and takes the length of `source` for the end of a name that
/// nothing follows.
pub assume_specification[ Query::new ](grammar: Language, source: &str) -> (compiled: Result<
    Query,
    QueryError,
>)
    requires
        source.is_ascii(),
        well_ended(source@),
    ensures
        compiled is Ok <==> query_compiles(grammar, source@),
        compiled matches Ok(query) ==> forall|language: Language, text: Seq<char>|
            #[trigger] query_captures(language, query, text) == patterns_capture(
                language,
                grammar,
                source@,
                text,
            ),
;

/// `Parser::set_language` on a new parser: whether a parser takes `language`.
/// The outcome rests on the version of `language` alone.
#[verifier::external_body]
pub(crate) fn try_language(language: Language) -> (taken: Result<(), LanguageError>)
    ensures
        taken is Ok <==> language_accepted(language),
{
    tree_sitter::Parser::new().set_language(language)
}

/// Parses `source` with a new parser for `language` (`Parser::parse`) and runs
/// `query` on the root of the tree (`QueryCursor::matches`). Each capture is
/// handed out as plain values: the row of `Node::start_position`, the capture's
/// index, and the text that `Node::utf8_text` gives, if it gives one. The
/// result rests on the three arguments alone; it is `None` where the parser
/// does not take `language` or gives no tree.
#[verifier::external_body]
pub(crate) fn captures(language: Language, query: &Query, source: &str) -> (found: Option<
    Vec<Vec<Capture>>,
>)
    ensures
        matches_view(found) == query_captures(language, *query, source@),
{
    let mut parser = tree_sitter::Parser::new();
    parser.set_language(language).ok()?;
    let tree = parser.parse(source, None)?;
    let mut cursor = tree_sitter::QueryCursor::new();
    let found = cursor.matches(query, tree.root_node(), source.as_bytes());
    Some(found.map(|m| m.captures.iter().map(|c| Capture {
        row: c.node.start_position().row as u32,
        index: c.index,
        text: c.node.utf8_text(source.as_bytes()).ok().map(String::from),
    }).collect()).collect())
}

} // verus!
