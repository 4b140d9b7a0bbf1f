//! The extractor of Rust. Its elements are final as the query captures them.

use vstd::prelude::*;
use vstd::utf8::is_ascii_chars;
use tree_sitter::Language;
use tree_sitter::Query;
use crate::discovery::File;
use crate::discovery::Lang;
use crate::grammar::rust_grammar;
use crate::parser::found_in;
use crate::parser::lemma_unchanged_is_canonical;
use crate::parser::passes;
use crate::parser::raw_elements;
use crate::grammar::bundled;
use crate::grammar::compiled_from;
use crate::grammar::grammar_compiles;
use crate::parser::closed;
use crate::parser::load_query;
use crate::parser::loads;
use crate::parser::Container;
use crate::parser::Element;
use crate::parser::ElementView;
use crate::parser::Error;
use crate::parser::Parser;

verus! {

/// The query of Rust: the name of every function, with a body or without, each under the one capture name.
pub const RUST_QUERY: &'static str =
    "(function_item name: (identifier) @name)\n(function_signature_item name: (identifier) @name)\n";

/// This extractor takes the files of Rust.
pub struct RustParser {
    container: Container,
    language: Language,
    query: Query,
}

impl RustParser {
    /// What the making of an extractor of Rust on the container `c` with the
    /// grammar `language` comes to. It succeeds if, and only if, the query of
    /// Rust makes a query for the grammar; the extractor then holds the
    /// container, the grammar, and what the query of Rust makes for the
    /// grammar. It fails with `ParseFile` where the query is not ASCII, else
    /// with `TSQuery`.
    pub open spec fn made_with(
        c: Container,
        language: Language,
        made: Result<RustParser, Error>,
    ) -> bool {
        &&& made is Ok <==> loads(language, RUST_QUERY@)
        &&& made matches Ok(p) ==> {
            &&& p.state() == c
            &&& p.target() == Lang::Rust
            &&& p.grammar() == language
            &&& compiled_from(p.pattern(), language, closed(RUST_QUERY@))
        }
        &&& made matches Err(e) ==> (is_ascii_chars(RUST_QUERY@) ==> e is TSQuery) && (
        !is_ascii_chars(RUST_QUERY@) ==> e is ParseFile)
    }

    /// An extractor of Rust on the container `c`, with `language` for the
    /// grammar of Rust: the query of Rust is compiled for it.
    pub fn with_grammar(c: Container, language: Language) -> (made: Result<RustParser, Error>)
        ensures
            RustParser::made_with(c, language, made),
    {
        match load_query(language, RUST_QUERY) {
            Ok(query) => Ok(RustParser { container: c, language: language, query: query }),
            Err(e) => Err(e),
        }
    }

    /// An extractor of Rust on the container `c`, with the grammar of Rust that
    /// the library brings. It succeeds if, and only if, the query of Rust is
    /// ASCII and compiles for that grammar; the extractor then holds the
    /// container, that grammar, and what the query of Rust makes for it. It
    /// fails with `ParseFile` where the query is not ASCII, else with
    /// `TSQuery`.
    pub fn new(c: Container) -> (made: Result<RustParser, Error>)
        ensures
            made is Ok <==> is_ascii_chars(RUST_QUERY@) && grammar_compiles(
                Lang::Rust,
                closed(RUST_QUERY@),
            ),
            made matches Ok(p) ==> {
                &&& p.state() == c
                &&& p.target() == Lang::Rust
                &&& bundled(p.grammar(), Lang::Rust)
                &&& compiled_from(p.pattern(), p.grammar(), closed(RUST_QUERY@))
            },
            made matches Err(e) ==> (is_ascii_chars(RUST_QUERY@) ==> e is TSQuery) && (
            !is_ascii_chars(RUST_QUERY@) ==> e is ParseFile),
    {
        RustParser::with_grammar(c, rust_grammar())
    }
}

impl Parser for RustParser {
    closed spec fn state(&self) -> Container {
        self.container
    }

    open spec fn target(&self) -> Lang {
        Lang::Rust
    }

    closed spec fn grammar(&self) -> Language {
        self.language
    }

    closed spec fn pattern(&self) -> Query {
        self.query
    }

    open spec fn canonical(raw: Seq<ElementView>) -> (Seq<ElementView>, nat) {
        (raw, 0)
    }

    proof fn canonical_holds(raw: Seq<ElementView>) {
        lemma_unchanged_is_canonical(raw);
    }

    fn container(&mut self) -> (c: &mut Container) {
        &mut self.container
    }

    fn ro_container(&self) -> (c: &Container) {
        &self.container
    }

    fn supported(&self, f: &File) -> (yes: bool) {
        f.lang == Lang::Rust
    }

    fn language(&self) -> (language: Language) {
        self.language
    }

    fn query(&self) -> (query: &Query) {
        &self.query
    }

    /// Every element stays as it is, and none is dropped.
    fn func_repr(&self, v: Vec<Element>) -> (form: (Vec<Element>, usize)) {
        (v, 0)
    }
}

/// The extractor of Rust finds what the query captures, as it captures it,
/// without the elements whose name holds a filter.
pub proof fn lemma_found_as_captured(p: &RustParser, sources: Seq<Option<Seq<char>>>)
    ensures
        found_in(p, sources) == raw_elements(
            p.grammar(),
            p.pattern(),
            p.state().files(),
            sources,
        ).filter(passes(p.state().filters())),
{
}

} // verus!
