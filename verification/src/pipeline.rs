//! The decisions of a run between its readings and its writings: how the
//! options set up discovery and extraction, which extractor gets which file,
//! and what the outcome of an extraction means for the run.

use vstd::prelude::*;
use vstd::utf8::is_ascii_chars;
use tree_sitter::Language;
use crate::args::rooted;
use crate::args::Opt;
use crate::discovery::Discovery;
use crate::discovery::File;
use crate::discovery::FileView;
use crate::discovery::Lang;
use crate::insight;
use crate::parser::go::GoParser;
use crate::parser::go::GO_QUERY;
use crate::parser::lua::LuaParser;
use crate::parser::lua::LUA_QUERY;
use crate::parser::rust::RustParser;
use crate::parser::rust::RUST_QUERY;
use crate::grammar::bundled;
use crate::grammar::compiled_from;
use crate::grammar::grammar_compiles;
use crate::grammar::go_grammar;
use crate::grammar::language_accepted;
use crate::grammar::lua_grammar;
use crate::grammar::rust_grammar;
use crate::parser::all_of;
use crate::parser::emitted_in;
use crate::parser::closed;
use crate::parser::found_in;
use crate::parser::lemma_found_is_stable;
use crate::parser::loads;
use crate::parser::ElementView;
use crate::progress::lowered;
use crate::progress::raised;
use crate::progress::Progress;
use crate::parser::Container;
use crate::parser::Element;
use crate::parser::Error;
use crate::parser::Parser;
use crate::text::concat;
use crate::text::texts;

verus! {

/// The extractors of a run, one for each language.
pub struct Extractors {
    /// The extractor of Go.
    pub go: GoParser,
    /// The extractor of Rust.
    pub rust: RustParser,
    /// The extractor of Lua.
    pub lua: LuaParser,
}

/// What the outcome of an extraction means for the run.
#[derive(Debug, PartialEq, Eq)]
pub enum Step {
    /// The elements are to be looked up in the history.
    Rows(Vec<Element>),
    /// The extractor has nothing to give; the run goes on with the next.
    Skip(Error),
    /// The run ends with the error.
    Abort(Error),
}

/// The texts of the files of each extractor, in the order in which the files
/// were handed to it; `None` stands for a file that could not be read.
#[derive(Debug, PartialEq, Eq)]
pub struct Sources {
    /// The texts of the files of Go.
    pub go: Vec<Option<String>>,
    /// The texts of the files of Rust.
    pub rust: Vec<Option<String>>,
    /// The texts of the files of Lua.
    pub lua: Vec<Option<String>>,
}

/// Why a run ends without a table.
#[derive(Debug, PartialEq, Eq)]
pub enum Failure {
    /// Discovery kept no file.
    NoFiles,
    /// No inspector could be made for the root.
    Inspector(insight::Error),
    /// An extractor failed in a way that no other extractor can make up for.
    Extractor(Error),
}

impl Failure {
    /// What the failure says to the reader.
    pub open spec fn text(self) -> Seq<char> {
        match self {
            Failure::NoFiles => "No files found in the current directory"@,
            Failure::Inspector(e) => e.text(),
            Failure::Extractor(e) => e.text(),
        }
    }

    /// What the failure says to the reader.
    pub fn message(&self) -> (message: String)
        ensures
            message@ == self.text(),
    {
        match self {
            Failure::NoFiles => "No files found in the current directory".to_owned(),
            Failure::Inspector(e) => e.message(),
            Failure::Extractor(e) => e.message(),
        }
    }
}

/// The test that a file passes when it is of the language `lang`.
pub open spec fn of_lang(lang: Lang) -> spec_fn(FileView) -> bool {
    |f: FileView| f.lang == lang
}

/// The paths of `files`, in their order.
pub open spec fn paths(files: Seq<FileView>) -> Seq<Seq<char>> {
    files.map_values(|f: FileView| f.path)
}

/// The extractor `p` has something to give: it has files, and a parser
/// takes its grammar.
pub open spec fn gives<P: Parser>(p: &P) -> bool {
    p.state().files().len() > 0 && language_accepted(p.grammar())
}

/// What the extractor `p` gives the run from the texts `sources` of its
/// files: the elements that it finds, or nothing where it has nothing to
/// give.
pub open spec fn part_of<P: Parser>(p: &P, sources: Seq<Option<Seq<char>>>) -> Seq<ElementView> {
    if gives(p) {
        found_in(p, sources)
    } else {
        Seq::empty()
    }
}

/// The functions of a run, in the order in which they are looked up in the
/// history: what the extractor of Go gives, then what that of Rust gives,
/// then what that of Lua gives.
pub open spec fn found_by(all: &Extractors, sources: &Sources) -> Seq<ElementView> {
    part_of(&all.go, sources.go.deep_view()) + part_of(&all.rust, sources.rust.deep_view())
        + part_of(&all.lua, sources.lua.deep_view())
}

/// The extractors are made of what the library brings: each holds the
/// grammar of its language, and what the query of its language makes for
/// that grammar. [`Extractors::new`] makes such extractors, and neither
/// [`Extractors::dispatch`] nor [`Extractors::find_functions`] changes it.
pub open spec fn genuine(all: &Extractors) -> bool {
    &&& bundled(all.go.grammar(), Lang::Go)
    &&& bundled(all.rust.grammar(), Lang::Rust)
    &&& bundled(all.lua.grammar(), Lang::Lua)
    &&& compiled_from(all.go.pattern(), all.go.grammar(), closed(GO_QUERY@))
    &&& compiled_from(all.rust.pattern(), all.rust.grammar(), closed(RUST_QUERY@))
    &&& compiled_from(all.lua.pattern(), all.lua.grammar(), closed(LUA_QUERY@))
}

/// The functions of a run rest on the files and the filters of the
/// extractors and on the texts of the files, and on nothing else: two runs
/// with extractors that the library made, which were handed the same files
/// and filters and are given the same texts, look the same functions up, in
/// the same order.
pub proof fn lemma_run_is_stable(a: &Extractors, b: &Extractors, sources: &Sources)
    requires
        genuine(a),
        genuine(b),
        a.go.state().files() == b.go.state().files(),
        a.rust.state().files() == b.rust.state().files(),
        a.lua.state().files() == b.lua.state().files(),
        a.go.state().filters() == b.go.state().filters(),
        a.rust.state().filters() == b.rust.state().filters(),
        a.lua.state().filters() == b.lua.state().filters(),
    ensures
        found_by(a, sources) == found_by(b, sources),
{
    lemma_found_is_stable(&a.go, &b.go, Lang::Go, closed(GO_QUERY@), sources.go.deep_view());
    lemma_found_is_stable(
        &a.rust,
        &b.rust,
        Lang::Rust,
        closed(RUST_QUERY@),
        sources.rust.deep_view(),
    );
    lemma_found_is_stable(&a.lua, &b.lua, Lang::Lua, closed(LUA_QUERY@), sources.lua.deep_view());
}

/// The length of a bar of the length `length` after the extractor `p` has
/// searched the texts `sources`: longer by the number of elements that it
/// gives.
pub open spec fn length_after<P: Parser>(
    length: Option<u64>,
    p: &P,
    sources: Seq<Option<Seq<char>>>,
) -> Option<u64> {
    if gives(p) {
        lowered(
            raised(length, emitted_in(p, sources)),
            (emitted_in(p, sources) - found_in(p, sources).len()) as nat,
        )
    } else {
        length
    }
}

/// The files of `files` that are of the language `lang` are all of that
/// language.
pub proof fn lemma_of_lang(files: Seq<FileView>, lang: Lang)
    ensures
        all_of(files.filter(of_lang(lang)), lang),
{
    assert forall|i: int| 0 <= i < files.filter(of_lang(lang)).len() implies (
    #[trigger] files.filter(of_lang(lang))[i]).lang == lang by {
        files.lemma_filter_pred(of_lang(lang), i);
    }
}

/// Every file goes one way: the files of Go, of Rust, of Lua and of no such
/// language are together as many as the files.
pub proof fn lemma_dispatch_is_partition(files: Seq<FileView>)
    ensures
        files.filter(of_lang(Lang::Go)).len() + files.filter(of_lang(Lang::Rust)).len()
            + files.filter(of_lang(Lang::Lua)).len() + files.filter(
            of_lang(Lang::Undefined),
        ).len() == files.len(),
    decreases files.len(),
{
    reveal(Seq::filter);
    if files.len() > 0 {
        lemma_dispatch_is_partition(files.drop_last());
    }
}

/// `prefix` behind `./`.
pub fn root_prefix(prefix: &str) -> (path: String)
    ensures
        path@ == rooted(prefix@),
{
    proof {
        reveal_strlit("./");
    }
    assert("./"@ =~= seq!['.', '/']);
    concat("./", prefix)
}

/// The discovery that the options ask for: it keeps to the paths that begin
/// with one of the prefixes, each behind `./`, and leaves out those that hold
/// one of the inverted matches.
pub fn discoverer(opt: &Opt) -> (d: Discovery)
    ensures
        d.prefixes() == texts(opt.prefix@).map_values(|p: Seq<char>| rooted(p)),
        d.excluded() == texts(opt.invert_match@),
{
    let mut d = Discovery::default();
    let mut i: usize = 0;
    while i < opt.prefix.len()
        invariant
            i <= opt.prefix.len(),
            d.prefixes() == texts(opt.prefix@).take(i as int).map_values(
                |p: Seq<char>| rooted(p),
            ),
            d.excluded() == Seq::<Seq<char>>::empty(),
        decreases opt.prefix.len() - i,
    {
        d.with_prefix(root_prefix(opt.prefix[i].as_str()));
        i += 1;
    }
    let mut i: usize = 0;
    while i < opt.invert_match.len()
        invariant
            i <= opt.invert_match.len(),
            d.prefixes() == texts(opt.prefix@).map_values(|p: Seq<char>| rooted(p)),
            d.excluded() == texts(opt.invert_match@).take(i as int),
        decreases opt.invert_match.len() - i,
    {
        d.not_contains(opt.invert_match[i].clone());
        i += 1;
    }
    d
}

/// Adds each of `terms` to the filters of `p`.
pub fn filter_names<P: Parser>(p: &mut P, terms: &Vec<String>)
    ensures
        final(p).state().filters() == old(p).state().filters() + texts(terms@),
        final(p).state().files() == old(p).state().files(),
        final(p).target() == old(p).target(),
        final(p).grammar() == old(p).grammar(),
        final(p).pattern() == old(p).pattern(),
{
    let mut i: usize = 0;
    while i < terms.len()
        invariant
            i <= terms.len(),
            p.state().filters() == old(p).state().filters() + texts(terms@).take(i as int),
            p.state().files() == old(p).state().files(),
            p.target() == old(p).target(),
            p.grammar() == old(p).grammar(),
            p.pattern() == old(p).pattern(),
        decreases terms.len() - i,
    {
        p.filter_name(terms[i].clone());
        i += 1;
    }
}

/// What the outcome of discovery means for the run: without a file the run
/// ends.
pub fn files_found(found: Option<Vec<File>>) -> (files: Result<Vec<File>, Failure>)
    ensures
        files == match found {
            Some(list) => Ok::<Vec<File>, Failure>(list),
            None => Err::<Vec<File>, Failure>(Failure::NoFiles),
        },
{
    match found {
        Some(list) => Ok(list),
        None => Err(Failure::NoFiles),
    }
}

/// What the outcome of an extraction means for the run: its elements go on
/// to the history; an extractor without files, or one whose parser cannot be
/// set up, is passed over; any other error ends the run.
pub fn settle(outcome: Result<Vec<Element>, Error>) -> (step: Step)
    ensures
        step == match outcome {
            Ok(elements) => Step::Rows(elements),
            Err(Error::NoFilesAdded) => Step::Skip(Error::NoFilesAdded),
            Err(Error::ParseFile(msg)) => Step::Skip(Error::ParseFile(msg)),
            Err(e) => Step::Abort(e),
        },
{
    match outcome {
        Ok(elements) => Step::Rows(elements),
        Err(Error::NoFilesAdded) => Step::Skip(Error::NoFilesAdded),
        Err(Error::ParseFile(msg)) => Step::Skip(Error::ParseFile(msg)),
        Err(e) => Step::Abort(e),
    }
}

impl Extractors {
    /// What the making of the extractors for the options `opt` with the
    /// grammars `go`, `rust` and `lua` comes to. It succeeds if, and only if,
    /// the query of each language makes a query for its grammar; each
    /// extractor is then without files, holds its grammar, and has the
    /// excluded functions of the options as its filters.
    pub open spec fn made_with(
        opt: &Opt,
        go: Language,
        rust: Language,
        lua: Language,
        made: Result<Extractors, Error>,
    ) -> bool {
        &&& made is Ok <==> loads(go, GO_QUERY@) && loads(rust, RUST_QUERY@) && loads(
            lua,
            LUA_QUERY@,
        )
        &&& made matches Ok(all) ==> {
            &&& all.go.state().files() == Seq::<FileView>::empty()
            &&& all.rust.state().files() == Seq::<FileView>::empty()
            &&& all.lua.state().files() == Seq::<FileView>::empty()
            &&& all.go.state().filters() == texts(opt.exclude_func@)
            &&& all.rust.state().filters() == texts(opt.exclude_func@)
            &&& all.lua.state().filters() == texts(opt.exclude_func@)
            &&& all.go.grammar() == go
            &&& all.rust.grammar() == rust
            &&& all.lua.grammar() == lua
            &&& compiled_from(all.go.pattern(), go, closed(GO_QUERY@))
            &&& compiled_from(all.rust.pattern(), rust, closed(RUST_QUERY@))
            &&& compiled_from(all.lua.pattern(), lua, closed(LUA_QUERY@))
        }
        &&& made matches Err(e) ==> e is TSQuery || e is ParseFile
    }

    /// The extractors that the options ask for, with `go`, `rust` and `lua`
    /// for the grammars of the three languages.
    pub fn with_grammars(opt: &Opt, go: Language, rust: Language, lua: Language) -> (made: Result<
        Extractors,
        Error,
    >)
        ensures
            Extractors::made_with(opt, go, rust, lua, made),
    {
        let made_go = GoParser::with_grammar(Container::new(100), go);
        let made_rust = RustParser::with_grammar(Container::new(100), rust);
        let made_lua = LuaParser::with_grammar(Container::new(100), lua);
        match (made_go, made_rust, made_lua) {
            (Ok(mut go), Ok(mut rust), Ok(mut lua)) => {
                filter_names(&mut go, &opt.exclude_func);
                filter_names(&mut rust, &opt.exclude_func);
                filter_names(&mut lua, &opt.exclude_func);
                Ok(Extractors { go: go, rust: rust, lua: lua })
            },
            (Err(e), _, _) => Err(e),
            (_, Err(e), _) => Err(e),
            (_, _, Err(e)) => Err(e),
        }
    }

    /// The extractors that the options ask for, with the grammars that the
    /// library brings. It succeeds if, and only if, the query of each language
    /// is ASCII and compiles for the grammar of the language; each extractor
    /// is then without files, has the excluded functions of the options as
    /// its filters, and is made of the library's grammar and query.
    pub fn new(opt: &Opt) -> (made: Result<Extractors, Error>)
        ensures
            made is Ok <==> {
                &&& is_ascii_chars(GO_QUERY@) && grammar_compiles(Lang::Go, closed(GO_QUERY@))
                &&& is_ascii_chars(RUST_QUERY@) && grammar_compiles(
                    Lang::Rust,
                    closed(RUST_QUERY@),
                )
                &&& is_ascii_chars(LUA_QUERY@) && grammar_compiles(Lang::Lua, closed(LUA_QUERY@))
            },
            made matches Ok(all) ==> {
                &&& all.go.state().files() == Seq::<FileView>::empty()
                &&& all.rust.state().files() == Seq::<FileView>::empty()
                &&& all.lua.state().files() == Seq::<FileView>::empty()
                &&& all.go.state().filters() == texts(opt.exclude_func@)
                &&& all.rust.state().filters() == texts(opt.exclude_func@)
                &&& all.lua.state().filters() == texts(opt.exclude_func@)
                &&& genuine(&all)
            },
            made matches Err(e) ==> e is TSQuery || e is ParseFile,
    {
        Extractors::with_grammars(opt, go_grammar(), rust_grammar(), lua_grammar())
    }

    /// The functions of all files: what the extractor of Go gives, then what
    /// that of Rust gives, then what that of Lua gives. An extractor without
    /// files, and one whose parser does not take its grammar, gives nothing.
    /// The extractors are left as they were.
    pub fn find_functions(&mut self, sources: &Sources, pb: &mut Progress) -> (found: Result<
        Vec<Element>,
        Failure,
    >)
        ensures
            found matches Ok(elements) && elements.deep_view() == found_by(old(self), sources),
            final(pb).length == length_after(
                length_after(
                    length_after(old(pb).length, &old(self).go, sources.go.deep_view()),
                    &old(self).rust,
                    sources.rust.deep_view(),
                ),
                &old(self).lua,
                sources.lua.deep_view(),
            ),
            final(pb).position == old(pb).position,
            final(self).go.state() == old(self).go.state(),
            final(self).rust.state() == old(self).rust.state(),
            final(self).lua.state() == old(self).lua.state(),
            final(self).go.grammar() == old(self).go.grammar(),
            final(self).rust.grammar() == old(self).rust.grammar(),
            final(self).lua.grammar() == old(self).lua.grammar(),
            final(self).go.pattern() == old(self).go.pattern(),
            final(self).rust.pattern() == old(self).rust.pattern(),
            final(self).lua.pattern() == old(self).lua.pattern(),
    {
        let mut all: Vec<Element> = Vec::new();
        match settle(self.go.find_functions(&sources.go, pb)) {
            Step::Rows(mut elements) => {
                all.append(&mut elements);
            },
            Step::Skip(_) => {},
            Step::Abort(e) => {
                return Err(Failure::Extractor(e));
            },
        }
        match settle(self.rust.find_functions(&sources.rust, pb)) {
            Step::Rows(mut elements) => {
                all.append(&mut elements);
            },
            Step::Skip(_) => {},
            Step::Abort(e) => {
                return Err(Failure::Extractor(e));
            },
        }
        match settle(self.lua.find_functions(&sources.lua, pb)) {
            Step::Rows(mut elements) => {
                all.append(&mut elements);
            },
            Step::Skip(_) => {},
            Step::Abort(e) => {
                return Err(Failure::Extractor(e));
            },
        }
        Ok(all)
    }

    /// Hands each of `files` to the extractor of its language, in the order
    /// of `files`, and returns the paths of the files of no such language.
    pub fn dispatch(&mut self, files: Vec<File>) -> (unsupported: Vec<String>)
        ensures
            final(self).go.state().files() == old(self).go.state().files() + files.deep_view().filter(
                of_lang(Lang::Go),
            ),
            final(self).rust.state().files() == old(self).rust.state().files()
                + files.deep_view().filter(of_lang(Lang::Rust)),
            final(self).lua.state().files() == old(self).lua.state().files()
                + files.deep_view().filter(of_lang(Lang::Lua)),
            unsupported.deep_view() == paths(files.deep_view().filter(of_lang(Lang::Undefined))),
            all_of(old(self).go.state().files(), Lang::Go) ==> all_of(
                final(self).go.state().files(),
                Lang::Go,
            ),
            all_of(old(self).rust.state().files(), Lang::Rust) ==> all_of(
                final(self).rust.state().files(),
                Lang::Rust,
            ),
            all_of(old(self).lua.state().files(), Lang::Lua) ==> all_of(
                final(self).lua.state().files(),
                Lang::Lua,
            ),
            final(self).go.state().filters() == old(self).go.state().filters(),
            final(self).rust.state().filters() == old(self).rust.state().filters(),
            final(self).lua.state().filters() == old(self).lua.state().filters(),
            final(self).go.grammar() == old(self).go.grammar(),
            final(self).rust.grammar() == old(self).rust.grammar(),
            final(self).lua.grammar() == old(self).lua.grammar(),
            final(self).go.pattern() == old(self).go.pattern(),
            final(self).rust.pattern() == old(self).rust.pattern(),
            final(self).lua.pattern() == old(self).lua.pattern(),
    {
        let ghost all = files.deep_view();
        let mut unsupported: Vec<String> = Vec::new();
        proof {
            reveal(Seq::filter);
        }
        for file in it: files
            invariant
                it.seq().len() == all.len(),
                forall|k: int|
                    0 <= k < all.len() ==> (#[trigger] it.seq()[k]).deep_view() == all[k],
                self.go.state().files() == old(self).go.state().files() + all.take(
                    it.index(),
                ).filter(of_lang(Lang::Go)),
                self.rust.state().files() == old(self).rust.state().files() + all.take(
                    it.index(),
                ).filter(of_lang(Lang::Rust)),
                self.lua.state().files() == old(self).lua.state().files() + all.take(
                    it.index(),
                ).filter(of_lang(Lang::Lua)),
                unsupported.deep_view() == paths(
                    all.take(it.index()).filter(of_lang(Lang::Undefined)),
                ),
                self.go.state().filters() == old(self).go.state().filters(),
                self.rust.state().filters() == old(self).rust.state().filters(),
                self.lua.state().filters() == old(self).lua.state().filters(),
                self.go.grammar() == old(self).go.grammar(),
                self.rust.grammar() == old(self).rust.grammar(),
                self.lua.grammar() == old(self).lua.grammar(),
                self.go.pattern() == old(self).go.pattern(),
                self.rust.pattern() == old(self).rust.pattern(),
                self.lua.pattern() == old(self).lua.pattern(),
        {
            let ghost at = it.index();
            proof {
                reveal(Seq::filter);
                assert(all.take(at + 1).drop_last() =~= all.take(at));
            }
            match file.lang {
                Lang::Go => {
                    let _ = self.go.add_file(file);
                },
                Lang::Rust => {
                    let _ = self.rust.add_file(file);
                },
                Lang::Lua => {
                    let _ = self.lua.add_file(file);
                },
                Lang::Undefined => {
                    unsupported.push(file.path);
                    assert(paths(all.take(at).filter(of_lang(Lang::Undefined)).push(all[at]))
                        =~= paths(all.take(at).filter(of_lang(Lang::Undefined))).push(
                        all[at].path,
                    ));
                },
            }
        }
        assert(all.take(all.len() as int) =~= all);
        proof {
            lemma_of_lang(all, Lang::Go);
            lemma_of_lang(all, Lang::Rust);
            lemma_of_lang(all, Lang::Lua);
        }
        unsupported
    }
}

} // verus!
