//! The extractor of Lua. Its elements are final as the query captures them.

use vstd::prelude::*;
use vstd::utf8::is_ascii_chars;
use tree_sitter::Language;
use tree_sitter::Query;
use crate::discovery::File;
use crate::discovery::Lang;
use crate::grammar::lua_grammar;
use crate::parser::found_in;
use crate::parser::lemma_unchanged_is_canonical;
use crate::parser::passes;
use crate::parser::raw_elements;
use crate::grammar::bundled;
use crate::grammar::compiled_from;
use crate::grammar::grammar_compiles;
use crate::parser::closed;
use crate::parser::load_query;
use crate::parser::loads;
use crate::parser::Container;
use crate::parser::Element;
use crate::parser::ElementView;
use crate::parser::Error;
use crate::parser::Parser;

verus! {

/// The query of Lua: the name of every function that is declared or assigned to a name, without the table before it, each under the one capture name.
pub const LUA_QUERY: &'static str =
    "(function_declaration name: (identifier) @name)\n(function_declaration name: (dot_index_expression field: (identifier) @name))\n(function_declaration name: (method_index_expression method: (identifier) @name))\n(assignment_statement (variable_list . name: (identifier) @name) (expression_list . value: (function_definition)))\n(assignment_statement (variable_list . name: (dot_index_expression field: (identifier) @name)) (expression_list . value: (function_definition)))\n";

/// This extractor takes the files of Lua.
pub struct LuaParser {
    container: Container,
    language: Language,
    query: Query,
}

impl LuaParser {
    /// What the making of an extractor of Lua on the container `c` with the
    /// grammar `language` comes to. It succeeds if, and only if, the query of
    /// Lua makes a query for the grammar; the extractor then holds the
    /// container, the grammar, and what the query of Lua makes for the
    /// grammar. It fails with `ParseFile` where the query is not ASCII, else
    /// with `TSQuery`.
    pub open spec fn made_with(
        c: Container,
        language: Language,
        made: Result<LuaParser, Error>,
    ) -> bool {
        &&& made is Ok <==> loads(language, LUA_QUERY@)
        &&& made matches Ok(p) ==> {
            &&& p.state() == c
            &&& p.target() == Lang::Lua
            &&& p.grammar() == language
            &&& compiled_from(p.pattern(), language, closed(LUA_QUERY@))
        }
        &&& made matches Err(e) ==> (is_ascii_chars(LUA_QUERY@) ==> e is TSQuery) && (
        !is_ascii_chars(LUA_QUERY@) ==> e is ParseFile)
    }

    /// An extractor of Lua on the container `c`, with `language` for the
    /// grammar of Lua: the query of Lua is compiled for it.
    pub fn with_grammar(c: Container, language: Language) -> (made: Result<LuaParser, Error>)
        ensures
            LuaParser::made_with(c, language, made),
    {
        match load_query(language, LUA_QUERY) {
            Ok(query) => Ok(LuaParser { container: c, language: language, query: query }),
            Err(e) => Err(e),
        }
    }

    /// An extractor of Lua on the container `c`, with the grammar of Lua that
    /// the library brings. It succeeds if, and only if, the query of Lua is
    /// ASCII and compiles for that grammar; the extractor then holds the
    /// container, that grammar, and what the query of Lua makes for it. It
    /// fails with `ParseFile` where the query is not ASCII, else with
    /// `TSQuery`.
    pub fn new(c: Container) -> (made: Result<LuaParser, Error>)
        ensures
            made is Ok <==> is_ascii_chars(LUA_QUERY@) && grammar_compiles(
                Lang::Lua,
                closed(LUA_QUERY@),
            ),
            made matches Ok(p) ==> {
                &&& p.state() == c
                &&& p.target() == Lang::Lua
                &&& bundled(p.grammar(), Lang::Lua)
                &&& compiled_from(p.pattern(), p.grammar(), closed(LUA_QUERY@))
            },
            made matches Err(e) ==> (is_ascii_chars(LUA_QUERY@) ==> e is TSQuery) && (
            !is_ascii_chars(LUA_QUERY@) ==> e is ParseFile),
    {
        LuaParser::with_grammar(c, lua_grammar())
    }
}

impl Parser for LuaParser {
    closed spec fn state(&self) -> Container {
        self.container
    }

    open spec fn target(&self) -> Lang {
        Lang::Lua
    }

    closed spec fn grammar(&self) -> Language {
        self.language
    }

    closed spec fn pattern(&self) -> Query {
        self.query
    }

    open spec fn canonical(raw: Seq<ElementView>) -> (Seq<ElementView>, nat) {
        (raw, 0)
    }

    proof fn canonical_holds(raw: Seq<ElementView>) {
        lemma_unchanged_is_canonical(raw);
    }

    fn container(&mut self) -> (c: &mut Container) {
        &mut self.container
    }

    fn ro_container(&self) -> (c: &Container) {
        &self.container
    }

    fn supported(&self, f: &File) -> (yes: bool) {
        f.lang == Lang::Lua
    }

    fn language(&self) -> (language: Language) {
        self.language
    }

    fn query(&self) -> (query: &Query) {
        &self.query
    }

    /// Every element stays as it is, and none is dropped.
    fn func_repr(&self, v: Vec<Element>) -> (form: (Vec<Element>, usize)) {
        (v, 0)
    }
}

/// The extractor of Lua finds what the query captures, as it captures it,
/// without the elements whose name holds a filter.
pub proof fn lemma_found_as_captured(p: &LuaParser, sources: Seq<Option<Seq<char>>>)
    ensures
        found_in(p, sources) == raw_elements(
            p.grammar(),
            p.pattern(),
            p.state().files(),
            sources,
        ).filter(passes(p.state().filters())),
{
}

} // verus!
