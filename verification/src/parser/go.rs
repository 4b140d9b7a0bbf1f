//! The extractor of Go. A method is found as its receiver and its name; the
//! canonical form joins the two.

use vstd::prelude::*;
use vstd::utf8::is_ascii_chars;
use tree_sitter::Language;
use tree_sitter::Query;
use crate::discovery::File;
use crate::discovery::Lang;
use crate::grammar::go_grammar;
use crate::parser::canonical_of;
use crate::parser::found_in;
use crate::parser::passes;
use crate::parser::raw_elements;
use crate::parser::placed_in;
use crate::grammar::bundled;
use crate::grammar::compiled_from;
use crate::grammar::grammar_compiles;
use crate::parser::closed;
use crate::parser::load_query;
use crate::parser::loads;
use crate::parser::Container;
use crate::parser::Element;
use crate::parser::ElementView;
use crate::parser::Error;
use crate::parser::Parser;
use crate::text::concat;
use crate::text::from_chars;
use crate::text::to_chars;

verus! {

/// The query of Go. A method's receiver is captured before its name, under
/// the first capture name; every name of a function comes under the second.
pub const GO_QUERY: &'static str =
    "(method_declaration receiver: (parameter_list) @receiver)\n(method_declaration name: (field_identifier) @name)\n(function_declaration name: (identifier) @name)\n(short_var_declaration left: (expression_list (identifier) @name) right: (expression_list (func_literal)))\n(var_spec name: (identifier) @name value: (expression_list (func_literal)))\n";

/// The place of the first space of `s` at or after `from`; the length of `s`
/// where there is none.
pub open spec fn first_space(s: Seq<char>, from: int) -> int
    decreases s.len() - from,
{
    if from >= s.len() {
        s.len() as int
    } else if s[from] == ' ' {
        from
    } else {
        first_space(s, from + 1)
    }
}

/// The type in a receiver as the query captures it, such as `(r *T)`: what
/// stands between the first space and the next space or the end. Where the
/// receiver has no space, the receiver without its first character.
pub open spec fn receiver_type(receiver: Seq<char>) -> Seq<char> {
    let space = first_space(receiver, 0);
    if space < receiver.len() {
        receiver.subrange(space + 1, first_space(receiver, space + 1))
    } else if receiver.len() > 0 {
        receiver.subrange(1, receiver.len() as int)
    } else {
        receiver
    }
}

/// The name of the method `name` on `receiver`: an opening bracket, the type
/// of the receiver, a space and the name. With the receiver `(r *T)` and the
/// name `Run` it is `(*T) Run`.
pub open spec fn method_name(receiver: Seq<char>, name: Seq<char>) -> Seq<char> {
    seq!['('] + receiver_type(receiver) + seq![' '] + name
}

/// Where the joining of receivers and names stands after a list of elements:
/// the elements kept, the receiver that waits for its method, if one does,
/// and the number of elements dropped.
pub struct Joined {
    pub out: Seq<ElementView>,
    pub pending: Option<Seq<char>>,
    pub dropped: nat,
}

/// The joining of receivers and names over `raw`, element by element. An
/// element with the capture index 0 is a receiver: it is dropped and waits,
/// in place of one that waited. Any other element is kept; where a receiver
/// waits, the element takes the method's name and the receiver waits no more.
pub open spec fn joined(raw: Seq<ElementView>) -> Joined
    decreases raw.len(),
{
    if raw.len() == 0 {
        Joined { out: Seq::empty(), pending: None, dropped: 0 }
    } else {
        let before = joined(raw.drop_last());
        let e = raw.last();
        if e.index == 0 {
            Joined { out: before.out, pending: Some(e.name), dropped: before.dropped + 1 }
        } else {
            match before.pending {
                Some(receiver) => Joined {
                    out: before.out.push(
                        ElementView {
                            name: method_name(receiver, e.name),
                            file: e.file,
                            line: e.line,
                            index: e.index,
                        },
                    ),
                    pending: None,
                    dropped: before.dropped,
                },
                None => Joined { out: before.out.push(e), pending: None, dropped: before.dropped },
            }
        }
    }
}

/// Joining drops what it counts, and what it keeps has the file and the line
/// of an element of the list, and a capture index that is not 0.
pub proof fn lemma_joined(raw: Seq<ElementView>)
    ensures
        canonical_of(raw, (joined(raw).out, joined(raw).dropped)),
        forall|j: int| 0 <= j < joined(raw).out.len() ==> (#[trigger] joined(raw).out[j]).index >= 1,
    decreases raw.len(),
{
    if raw.len() > 0 {
        let front = raw.drop_last();
        lemma_joined(front);
        let before = joined(front);
        let after = joined(raw);
        assert forall|j: int| 0 <= j < after.out.len() implies placed_in(
            raw,
            #[trigger] after.out[j],
        ) by {
            if j < before.out.len() {
                assert(after.out[j] == before.out[j]);
                let i = choose|i: int|
                    0 <= i < front.len() && (#[trigger] front[i]).file == before.out[j].file
                        && front[i].line == before.out[j].line;
                assert(raw[i] == front[i]);
            } else {
                assert(raw[raw.len() - 1] == raw.last());
            }
        }
    }
}

/// The place of the first space of `s` at or after `from`.
fn find_space(s: &Vec<char>, from: usize) -> (at: usize)
    requires
        from <= s.len(),
    ensures
        at == first_space(s@, from as int),
        from <= at <= s.len(),
{
    let mut at: usize = from;
    while at < s.len() && s[at] != ' '
        invariant
            from <= at <= s.len(),
            first_space(s@, from as int) == first_space(s@, at as int),
        decreases s.len() - at,
    {
        at += 1;
    }
    at
}

/// The name of the method `name` on `receiver`.
pub fn join_name(receiver: &str, name: &str) -> (joined: String)
    ensures
        joined@ == method_name(receiver@, name@),
{
    let r = to_chars(receiver);
    let space = find_space(&r, 0);
    let (from, to) = if space < r.len() {
        (space + 1, find_space(&r, space + 1))
    } else if r.len() > 0 {
        (1, r.len())
    } else {
        (0, 0)
    };
    proof {
        reveal_strlit("(");
        reveal_strlit(" ");
    }
    assert("("@ =~= seq!['('] && " "@ =~= seq![' ']);
    let kind = from_chars(&r, from, to);
    concat(concat(concat("(", kind.as_str()).as_str(), " ").as_str(), name)
}

/// This extractor takes the files of Go.
pub struct GoParser {
    container: Container,
    language: Language,
    query: Query,
}

impl GoParser {
    /// What the making of an extractor of Go on the container `c` with the
    /// grammar `language` comes to. It succeeds if, and only if, the query of
    /// Go makes a query for the grammar; the extractor then holds the
    /// container, the grammar, and what the query of Go makes for the
    /// grammar. It fails with `ParseFile` where the query is not ASCII, else
    /// with `TSQuery`.
    pub open spec fn made_with(
        c: Container,
        language: Language,
        made: Result<GoParser, Error>,
    ) -> bool {
        &&& made is Ok <==> loads(language, GO_QUERY@)
        &&& made matches Ok(p) ==> {
            &&& p.state() == c
            &&& p.target() == Lang::Go
            &&& p.grammar() == language
            &&& compiled_from(p.pattern(), language, closed(GO_QUERY@))
        }
        &&& made matches Err(e) ==> (is_ascii_chars(GO_QUERY@) ==> e is TSQuery) && (
        !is_ascii_chars(GO_QUERY@) ==> e is ParseFile)
    }

    /// An extractor of Go on the container `c`, with `language` for the
    /// grammar of Go: the query of Go is compiled for it.
    pub fn with_grammar(c: Container, language: Language) -> (made: Result<GoParser, Error>)
        ensures
            GoParser::made_with(c, language, made),
    {
        match load_query(language, GO_QUERY) {
            Ok(query) => Ok(GoParser { container: c, language: language, query: query }),
            Err(e) => Err(e),
        }
    }

    /// An extractor of Go on the container `c`, with the grammar of Go that
    /// the library brings. It succeeds if, and only if, the query of Go is
    /// ASCII and compiles for that grammar; the extractor then holds the
    /// container, that grammar, and what the query of Go makes for it. It
    /// fails with `ParseFile` where the query is not ASCII, else with
    /// `TSQuery`.
    pub fn new(c: Container) -> (made: Result<GoParser, Error>)
        ensures
            made is Ok <==> is_ascii_chars(GO_QUERY@) && grammar_compiles(
                Lang::Go,
                closed(GO_QUERY@),
            ),
            made matches Ok(p) ==> {
                &&& p.state() == c
                &&& p.target() == Lang::Go
                &&& bundled(p.grammar(), Lang::Go)
                &&& compiled_from(p.pattern(), p.grammar(), closed(GO_QUERY@))
            },
            made matches Err(e) ==> (is_ascii_chars(GO_QUERY@) ==> e is TSQuery) && (
            !is_ascii_chars(GO_QUERY@) ==> e is ParseFile),
    {
        GoParser::with_grammar(c, go_grammar())
    }
}

impl Parser for GoParser {
    closed spec fn state(&self) -> Container {
        self.container
    }

    open spec fn target(&self) -> Lang {
        Lang::Go
    }

    closed spec fn grammar(&self) -> Language {
        self.language
    }

    closed spec fn pattern(&self) -> Query {
        self.query
    }

    open spec fn canonical(raw: Seq<ElementView>) -> (Seq<ElementView>, nat) {
        (joined(raw).out, joined(raw).dropped)
    }

    proof fn canonical_holds(raw: Seq<ElementView>) {
        lemma_joined(raw);
    }

    fn container(&mut self) -> (c: &mut Container) {
        &mut self.container
    }

    fn ro_container(&self) -> (c: &Container) {
        &self.container
    }

    fn supported(&self, f: &File) -> (yes: bool) {
        f.lang == Lang::Go
    }

    fn language(&self) -> (language: Language) {
        self.language
    }

    fn query(&self) -> (query: &Query) {
        &self.query
    }

    /// Joins each receiver with the method that follows it, and counts the
    /// receivers.
    fn func_repr(&self, v: Vec<Element>) -> (form: (Vec<Element>, usize)) {
        let ghost all = v.deep_view();
        let count = v.len();
        let mut prev: Option<String> = None;
        let mut redacted: usize = 0;
        let mut res: Vec<Element> = Vec::new();
        for e in it: v
            invariant
                it.seq().len() == all.len() == count,
                forall|k: int|
                    0 <= k < all.len() ==> (#[trigger] it.seq()[k]).deep_view() == all[k],
                res.deep_view() == joined(all.take(it.index())).out,
                prev.deep_view() == joined(all.take(it.index())).pending,
                redacted == joined(all.take(it.index())).dropped,
                redacted <= it.index(),
        {
            assert(all.take(it.index() + 1).drop_last() =~= all.take(it.index()));
            if e.index == 0 {
                prev = Some(e.name);
                redacted += 1;
            } else {
                match prev {
                    Some(receiver) => {
                        let name = join_name(receiver.as_str(), e.name.as_str());
                        res.push(Element { name: name, file: e.file, line: e.line, index: e.index });
                        prev = None;
                    },
                    None => {
                        res.push(e);
                    },
                }
            }
        }
        assert(all.take(all.len() as int) =~= all);
        (res, redacted)
    }
}

/// No receiver is left among the elements that the extractor of Go finds:
/// the capture index of each is 1 or more.
pub proof fn lemma_found_without_receivers(p: &GoParser, sources: Seq<Option<Seq<char>>>, j: int)
    requires
        0 <= j < found_in(p, sources).len(),
    ensures
        found_in(p, sources)[j].index >= 1,
{
    let raw = raw_elements(p.grammar(), p.pattern(), p.state().files(), sources);
    let test = passes(p.state().filters());
    let e = joined(raw).out.filter(test)[j];
    lemma_joined(raw);
    joined(raw).out.lemma_filter_contains_rev(test, e);
    let k = choose|k: int| 0 <= k < joined(raw).out.len() && joined(raw).out[k] == e;
    assert(joined(raw).out[k].index >= 1);
}

} // verus!
