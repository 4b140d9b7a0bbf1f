//! Extraction of the functions and methods of source files: what a query of
//! tree-sitter captures becomes a list of [`Element`]s.

pub mod go;
pub mod lua;
pub mod rust;

use vstd::prelude::*;
use vstd::utf8::is_ascii_chars;
use tree_sitter::Language;
use tree_sitter::Query;
use tree_sitter::QueryError;
use crate::discovery::File;
use crate::discovery::FileView;
use crate::discovery::Lang;
use crate::grammar::captures;
use crate::grammar::bundled;
use crate::grammar::compiled_from;
use crate::grammar::patterns_capture;
use crate::grammar::language_accepted;
use crate::grammar::name_char;
use crate::grammar::query_compiles;
use crate::grammar::well_ended;
use crate::grammar::query_captures;
use crate::grammar::try_language;
use crate::grammar::Capture;
use crate::grammar::CaptureView;
use crate::progress::lowered;
use crate::progress::raised;
use crate::progress::Progress;
use crate::text::contains_any;
use crate::text::contains_any_exec;
use crate::text::concat;
use crate::text::texts;
use crate::text::to_chars;

verus! {

/// Why an extractor could not do what it was asked.
#[derive(Debug, PartialEq, Eq)]
pub enum Error {
    /// The file is of another language than the extractor's.
    NotCompatible,
    /// No file was added to the extractor.
    NoFilesAdded,
    /// The query of the language does not compile; the text says why.
    TSQuery(String),
    /// The parser cannot be set up for the language, or the query cannot be
    /// read; the text says why.
    ParseFile(String),
}

impl Error {
    /// What the error says to the reader.
    pub open spec fn text(self) -> Seq<char> {
        match self {
            Error::NotCompatible => "File is not compatible with this parser"@,
            Error::NoFilesAdded => "No files have added"@,
            Error::TSQuery(msg) => msg@,
            Error::ParseFile(msg) => "Can't parse file: "@ + msg@,
        }
    }

    /// What the error says to the reader.
    pub fn message(&self) -> (message: String)
        ensures
            message@ == self.text(),
    {
        match self {
            Error::NotCompatible => "File is not compatible with this parser".to_owned(),
            Error::NoFilesAdded => "No files have added".to_owned(),
            Error::TSQuery(msg) => msg.clone(),
            Error::ParseFile(msg) => concat("Can't parse file: ", msg.as_str()),
        }
    }
}

/// A function or a method found in a file.
#[derive(Debug, PartialEq, Eq, Clone)]
pub struct Element {
    /// Name of the function or method.
    pub name: String,
    /// Path of the file that holds it.
    pub file: String,
    /// Line on which its name stands, counted from 1.
    pub line: u64,
    /// Index of the capture in the query of the language.
    pub index: u32,
}

/// The mathematical value of an [`Element`].
pub struct ElementView {
    pub name: Seq<char>,
    pub file: Seq<char>,
    pub line: u64,
    pub index: u32,
}

impl View for Element {
    type V = ElementView;

    open spec fn view(&self) -> ElementView {
        ElementView { name: self.name@, file: self.file@, line: self.line, index: self.index }
    }
}

impl DeepView for Element {
    type V = ElementView;

    open spec fn deep_view(&self) -> ElementView {
        self@
    }
}

/// The files queued for an extractor and the texts that exclude a function
/// by its name, each in the order in which it was added.
#[derive(Debug, PartialEq, Eq)]
pub struct Container {
    files: Vec<File>,
    filters: Vec<String>,
}

impl Container {
    /// The files queued, in the order of their arrival.
    pub closed spec fn files(&self) -> Seq<FileView> {
        self.files.deep_view()
    }

    /// The texts that exclude a name, in the order of their arrival.
    pub closed spec fn filters(&self) -> Seq<Seq<char>> {
        texts(self.filters@)
    }

    /// An empty container. `cap` says how many files are expected; it is a
    /// hint and binds nothing.
    pub fn new(cap: usize) -> (c: Container)
        ensures
            c.files() == Seq::<FileView>::empty(),
            c.filters() == Seq::<Seq<char>>::empty(),
    {
        let c = Container { files: Vec::new(), filters: Vec::new() };
        c
    }
}

/// What one row of a query's result says: the line, the capture's index and
/// the captured text.
pub type Row = (u64, u32, String);

/// What a match contributes: its first capture that has a text, with the line
/// of its row. Nothing where no capture of the match has a text.
pub open spec fn first_text(m: Seq<CaptureView>) -> Option<(u64, u32, Seq<char>)>
    decreases m.len(),
{
    if m.len() == 0 {
        None
    } else if m[0].text is Some {
        Some(((m[0].row + 1) as u64, m[0].index, m[0].text->0))
    } else {
        first_text(m.drop_first())
    }
}

/// The rows of a list of matches: what each match contributes, in the order of
/// the matches.
pub open spec fn collected(found: Seq<Seq<CaptureView>>) -> Seq<(u64, u32, Seq<char>)> {
    found.filter_map(|m: Seq<CaptureView>| first_text(m))
}

/// The first capture of `m` that has a text, as a row.
fn first_capture(m: &Vec<Capture>) -> (row: Option<Row>)
    ensures
        row.deep_view() == first_text(m.deep_view()),
{
    let mut k: usize = 0;
    assert(m.deep_view().skip(0) =~= m.deep_view());
    while k < m.len()
        invariant
            k <= m.len(),
            first_text(m.deep_view()) == first_text(m.deep_view().skip(k as int)),
        decreases m.len() - k,
    {
        assert(m.deep_view().skip(k as int).drop_first() =~= m.deep_view().skip(k + 1));
        match &m[k].text {
            Some(text) => {
                return Some((m[k].row as u64 + 1, m[k].index, text.clone()));
            },
            None => {},
        }
        k += 1;
    }
    None
}

/// The rows of `found`: of each match the first capture that has a text, with
/// the line of its row, which is the row plus one.
pub fn collect_matches(found: &Vec<Vec<Capture>>) -> (rows: Vec<Row>)
    ensures
        rows.deep_view() == collected(found.deep_view()),
{
    let mut rows: Vec<Row> = Vec::new();
    let mut i: usize = 0;
    while i < found.len()
        invariant
            i <= found.len(),
            rows.deep_view() == collected(found.deep_view().take(i as int)),
        decreases found.len() - i,
    {
        assert(found.deep_view().take(i + 1).drop_last() =~= found.deep_view().take(i as int));
        match first_capture(&found[i]) {
            Some(row) => {
                rows.push(row);
            },
            None => {},
        }
        i += 1;
    }
    assert(found.deep_view().take(found.len() as int) =~= found.deep_view());
    rows
}

/// The elements that the rows of one file stand for.
pub open spec fn elements_of(file: Seq<char>, rows: Seq<(u64, u32, Seq<char>)>) -> Seq<
    ElementView,
> {
    rows.map_values(
        |row: (u64, u32, Seq<char>)|
            ElementView { name: row.2, file: file, line: row.0, index: row.1 },
    )
}

/// The text of the `i`-th file, where it was read: `sources` holds the texts
/// in the order of the files, `None` for a file that could not be read, and a
/// file without an entry counts as one that could not be read.
pub open spec fn source_at(sources: Seq<Option<Seq<char>>>, i: int) -> Option<Seq<char>> {
    if 0 <= i < sources.len() {
        sources[i]
    } else {
        None
    }
}

/// The elements of one file: none where the file could not be read or the
/// parser gave no tree for it, else the rows of what the query captures.
pub open spec fn file_elements(
    language: Language,
    query: Query,
    file: Seq<char>,
    source: Option<Seq<char>>,
) -> Seq<ElementView> {
    match source {
        Some(text) => match query_captures(language, query, text) {
            Some(found) => elements_of(file, collected(found)),
            None => Seq::empty(),
        },
        None => Seq::empty(),
    }
}

/// The elements of all files, file after file in the order of `files`.
pub open spec fn raw_elements(
    language: Language,
    query: Query,
    files: Seq<FileView>,
    sources: Seq<Option<Seq<char>>>,
) -> Seq<ElementView>
    decreases files.len(),
{
    if files.len() == 0 {
        Seq::empty()
    } else {
        raw_elements(language, query, files.drop_last(), sources) + file_elements(
            language,
            query,
            files.last().path,
            source_at(sources, files.len() - 1),
        )
    }
}

/// The test that an element passes when its name holds none of `filters`.
pub open spec fn passes(filters: Seq<Seq<char>>) -> spec_fn(ElementView) -> bool {
    |e: ElementView| !contains_any(e.name, filters)
}

/// What is left of a canonical form and its count once the elements whose
/// name holds one of `filters` are taken out.
pub open spec fn extracted(form: (Seq<ElementView>, nat), filters: Seq<Seq<char>>) -> Seq<
    ElementView,
> {
    form.0.filter(passes(filters))
}

/// `e` stands where an element of `raw` stands: in its file, on its line.
pub open spec fn placed_in(raw: Seq<ElementView>, e: ElementView) -> bool {
    exists|i: int| 0 <= i < raw.len() && (#[trigger] raw[i]).file == e.file && raw[i].line == e.line
}

/// What a canonical form may do to a list of elements: drop some, counting
/// each, and rename others; whatever stays keeps the file and the line of an
/// element of the list.
pub open spec fn canonical_of(raw: Seq<ElementView>, form: (Seq<ElementView>, nat)) -> bool {
    &&& form.0.len() + form.1 == raw.len()
    &&& forall|j: int| 0 <= j < form.0.len() ==> placed_in(raw, #[trigger] form.0[j])
}

/// To leave a list as it is, and to drop nothing, is a canonical form.
pub proof fn lemma_unchanged_is_canonical(raw: Seq<ElementView>)
    ensures
        canonical_of(raw, (raw, 0nat)),
{
    assert forall|j: int| 0 <= j < raw.len() implies placed_in(raw, #[trigger] raw[j]) by {}
}

/// Appends to `out` the elements that `rows` stand for in `file`.
fn push_elements(out: &mut Vec<Element>, file: &String, rows: Vec<Row>)
    ensures
        final(out).deep_view() == old(out).deep_view() + elements_of(file@, rows.deep_view()),
{
    let ghost before = out.deep_view();
    let ghost all = rows.deep_view();
    for row in it: rows
        invariant
            it.seq().len() == all.len(),
            forall|k: int| 0 <= k < all.len() ==> (#[trigger] it.seq()[k]).deep_view() == all[k],
            out.deep_view() == before + elements_of(file@, all.take(it.index())),
    {
        let ghost sofar = out.deep_view();
        let ghost at = it.index();
        let (line, index, name) = row;
        out.push(Element { name: name, file: file.clone(), line: line, index: index });
        assert(out.deep_view() =~= sofar.push(
            ElementView { name: all[at].2, file: file@, line: all[at].0, index: all[at].1 },
        ));
    }
}

/// The elements of `list` whose name holds none of `filters`, in their order.
fn drop_excluded(list: Vec<Element>, filters: &Vec<String>) -> (kept: Vec<Element>)
    ensures
        kept.deep_view() == list.deep_view().filter(passes(texts(filters@))),
{
    let ghost all = list.deep_view();
    let ghost pass = passes(texts(filters@));
    let mut kept: Vec<Element> = Vec::new();
    proof {
        reveal(Seq::filter);
    }
    for e in it: list
        invariant
            pass == passes(texts(filters@)),
            it.seq().len() == all.len(),
            forall|k: int| 0 <= k < all.len() ==> (#[trigger] it.seq()[k]).deep_view() == all[k],
            kept.deep_view() == all.take(it.index()).filter(pass),
    {
        proof {
            reveal(Seq::filter);
            assert(all.take(it.index() + 1).drop_last() =~= all.take(it.index()));
        }
        if !contains_any_exec(e.name.as_str(), filters) {
            kept.push(e);
        }
    }
    assert(all.take(all.len() as int) =~= all);
    kept
}

/// Every file of `files` is of the language `lang`.
pub open spec fn all_of(files: Seq<FileView>, lang: Lang) -> bool {
    forall|i: int| 0 <= i < files.len() ==> (#[trigger] files[i]).lang == lang
}

/// What the outcome of compiling a query means for an extractor: the query,
/// or the error `TSQuery` with the text of the outcome's error.
pub fn compiled_query(compiled: Result<Query, QueryError>) -> (query: Result<Query, Error>)
    ensures
        match compiled {
            Ok(q) => query == Ok::<Query, Error>(q),
            Err(_) => query matches Err(Error::TSQuery(_)),
        },
{
    match compiled {
        Ok(q) => Ok(q),
        Err(e) => Err(Error::TSQuery(e.to_string())),
    }
}

/// The patterns `text` as they are compiled: as they stand where they do not
/// end inside a name, else with a line end behind them.
pub open spec fn closed(text: Seq<char>) -> Seq<char> {
    if well_ended(text) {
        text
    } else {
        text.push('\n')
    }
}

/// The patterns `text` make a query for `language`: they are ASCII, and as
/// they are compiled they compile for the grammar.
pub open spec fn loads(language: Language, text: Seq<char>) -> bool {
    is_ascii_chars(text) && query_compiles(language, closed(text))
}

/// Whether `c` can stand in the name of a node, a field or a capture.
fn in_name(c: char) -> (yes: bool)
    ensures
        yes == name_char(c),
{
    ('0' <= c && c <= '9') || ('a' <= c && c <= 'z') || ('A' <= c && c <= 'Z') || c == '_' || c
        == '-'
}

/// The query that the patterns `text` make for `language`. Patterns that end
/// inside a name are compiled with a line end behind them. Fails with
/// `ParseFile` if, and only if, `text` is not ASCII, and with `TSQuery` if,
/// and only if, `text` is ASCII and the patterns do not compile for the
/// grammar.
pub fn load_query(language: Language, text: &str) -> (query: Result<Query, Error>)
    ensures
        query is Ok <==> loads(language, text@),
        query matches Ok(q) ==> compiled_from(q, language, closed(text@)),
        !is_ascii_chars(text@) <==> query matches Err(Error::ParseFile(_)),
        is_ascii_chars(text@) && !query_compiles(language, closed(text@)) <==> query matches Err(
            Error::TSQuery(_),
        ),
{
    if !text.is_ascii() {
        return Err(Error::ParseFile("Can't parse queries".to_owned()));
    }
    let chars = to_chars(text);
    if chars.len() > 0 && !in_name(chars[chars.len() - 1]) {
        compiled_query(Query::new(language, text))
    } else {
        let all = concat(text, "\n");
        proof {
            reveal_strlit("\n");
            assert(all@ =~= text@.push('\n'));
        }
        compiled_query(Query::new(language, all.as_str()))
    }
}

/// An extractor of one language: it queues files of its language, and finds
/// the functions in their texts.
pub trait Parser {
    /// The files and filters of the extractor.
    spec fn state(&self) -> Container;

    /// The language whose files the extractor takes.
    spec fn target(&self) -> Lang;

    /// The grammar of the language.
    spec fn grammar(&self) -> Language;

    /// The compiled query of the language.
    spec fn pattern(&self) -> Query;

    /// The canonical form that the language gives a list of elements, and the
    /// number of elements that it dropped.
    spec fn canonical(raw: Seq<ElementView>) -> (Seq<ElementView>, nat);

    /// The canonical form is one.
    proof fn canonical_holds(raw: Seq<ElementView>)
        ensures
            canonical_of(raw, Self::canonical(raw)),
    ;

    /// The container, to change it. No other part of the extractor changes.
    fn container(&mut self) -> (c: &mut Container)
        ensures
            *c == old(self).state(),
            final(self).state() == *final(c),
            final(self).target() == old(self).target(),
            final(self).grammar() == old(self).grammar(),
            final(self).pattern() == old(self).pattern(),
    ;

    /// The container, to read it.
    fn ro_container(&self) -> (c: &Container)
        ensures
            *c == self.state(),
    ;

    /// Whether the extractor takes `f`: whether `f` is of its language.
    fn supported(&self, f: &File) -> (yes: bool)
        ensures
            yes == (f.lang == self.target()),
    ;

    /// Queues `f` after the files queued so far, if it is of the extractor's
    /// language; refuses it with `NotCompatible` if not.
    fn add_file(&mut self, f: File) -> (added: Result<(), Error>)
        ensures
            f.lang == old(self).target() ==> {
                &&& added == Ok::<(), Error>(())
                &&& final(self).state().files() == old(self).state().files().push(f@)
            },
            f.lang != old(self).target() ==> {
                &&& added == Err::<(), Error>(Error::NotCompatible)
                &&& final(self).state().files() == old(self).state().files()
            },
            all_of(old(self).state().files(), old(self).target()) ==> all_of(
                final(self).state().files(),
                final(self).target(),
            ),
            final(self).state().filters() == old(self).state().filters(),
            final(self).target() == old(self).target(),
            final(self).grammar() == old(self).grammar(),
            final(self).pattern() == old(self).pattern(),
    {
        if !self.supported(&f) {
            return Err(Error::NotCompatible);
        }
        self.container().files.push(f);
        Ok(())
    }

    /// The grammar of the language.
    fn language(&self) -> (language: Language)
        ensures
            language == self.grammar(),
    ;

    /// The compiled query of the language.
    fn query(&self) -> (query: &Query)
        ensures
            *query == self.pattern(),
    ;

    /// The files queued; `NoFilesAdded` where there is none.
    fn files(&self) -> (queued: Result<&[File], Error>)
        ensures
            self.state().files().len() == 0 ==> queued == Err::<&[File], Error>(
                Error::NoFilesAdded,
            ),
            self.state().files().len() > 0 ==> queued is Ok && queued->Ok_0.deep_view()
                == self.state().files(),
    {
        let files = self.ro_container().files.as_slice();
        if files.len() == 0 {
            Err(Error::NoFilesAdded)
        } else {
            Ok(files)
        }
    }

    /// Adds `s` to the texts that exclude a function by its name.
    fn filter_name(&mut self, s: String)
        ensures
            final(self).state().filters() == old(self).state().filters().push(s@),
            final(self).state().files() == old(self).state().files(),
            final(self).target() == old(self).target(),
            final(self).grammar() == old(self).grammar(),
            final(self).pattern() == old(self).pattern(),
    {
        self.container().filters.push(s);
    }

    /// Whether the name `p` is excluded: whether it holds one of the filters.
    fn filter(&self, p: &str) -> (excluded: bool)
        ensures
            excluded == contains_any(p@, self.state().filters()),
    {
        contains_any_exec(p, &self.ro_container().filters)
    }

    /// The canonical form of `v`, and the number of elements dropped for it.
    fn func_repr(&self, v: Vec<Element>) -> (form: (Vec<Element>, usize))
        ensures
            (form.0.deep_view(), form.1 as nat) == Self::canonical(v.deep_view()),
    ;

    /// The functions of all queued files. `sources` holds the texts of the
    /// files, in the order in which the files were added: `None` for a file
    /// that could not be read; a file without an entry counts as such. Such a
    /// file, and one for which the parser gives no tree, is passed over.
    ///
    /// The elements are those that the query captures, file after file, in
    /// their canonical form and without those whose name holds a filter. The
    /// length of `pb` grows by the number of elements returned, as far as a
    /// `u64` holds it. The extractor itself is left as it was.
    ///
    /// Fails with `NoFilesAdded` where no file is queued, and with `ParseFile`
    /// where a parser does not take the grammar; `pb` is then left as it was.
    fn find_functions(&mut self, sources: &Vec<Option<String>>, pb: &mut Progress) -> (found:
        Result<Vec<Element>, Error>)
        ensures
            final(self).state() == old(self).state(),
            final(self).target() == old(self).target(),
            final(self).grammar() == old(self).grammar(),
            final(self).pattern() == old(self).pattern(),
            final(pb).position == old(pb).position,
            old(self).state().files().len() == 0 ==> {
                &&& found == Err::<Vec<Element>, Error>(Error::NoFilesAdded)
                &&& *final(pb) == *old(pb)
            },
            old(self).state().files().len() > 0 && !language_accepted(old(self).grammar()) ==> {
                &&& found matches Err(Error::ParseFile(_))
                &&& *final(pb) == *old(pb)
            },
            old(self).state().files().len() > 0 && language_accepted(old(self).grammar()) ==> {
                &&& found matches Ok(elements)
                &&& elements.deep_view() == extracted(
                    Self::canonical(
                        raw_elements(
                            old(self).grammar(),
                            old(self).pattern(),
                            old(self).state().files(),
                            sources.deep_view(),
                        ),
                    ),
                    old(self).state().filters(),
                )
                &&& final(pb).length == lowered(
                    raised(
                        old(pb).length,
                        raw_elements(
                            old(self).grammar(),
                            old(self).pattern(),
                            old(self).state().files(),
                            sources.deep_view(),
                        ).len(),
                    ),
                    (raw_elements(
                        old(self).grammar(),
                        old(self).pattern(),
                        old(self).state().files(),
                        sources.deep_view(),
                    ).len() - elements.len()) as nat,
                )
            },
    {
        let files = match self.files() {
            Ok(files) => files,
            Err(e) => {
                return Err(e);
            },
        };
        let language = self.language();
        match try_language(language) {
            Ok(()) => {},
            Err(e) => {
                return Err(Error::ParseFile(e.to_string()));
            },
        }
        let query = self.query();
        let mut ret: Vec<Element> = Vec::new();
        let mut i: usize = 0;
        while i < files.len()
            invariant
                i <= files.len(),
                ret.deep_view() == raw_elements(
                    language,
                    *query,
                    files.deep_view().take(i as int),
                    sources.deep_view(),
                ),
            decreases files.len() - i,
        {
            assert(files.deep_view().take(i + 1).drop_last() =~= files.deep_view().take(i as int));
            if i < sources.len() {
                match &sources[i] {
                    Some(text) => {
                        match captures(language, query, text.as_str()) {
                            Some(matched) => {
                                let rows = collect_matches(&matched);
                                push_elements(&mut ret, &files[i].path, rows);
                            },
                            None => {},
                        }
                    },
                    None => {},
                }
            }
            i += 1;
        }
        assert(files.deep_view().take(files.len() as int) =~= files.deep_view());
        let ghost raw = ret.deep_view();
        let emitted = ret.len();
        let (res, dropped) = self.func_repr(ret);
        proof {
            Self::canonical_holds(raw);
        }
        let shown = res.len();
        let kept = drop_excluded(res, &self.ro_container().filters);
        proof {
            res.deep_view().lemma_filter_len(passes(self.state().filters()));
        }
        let redacted = dropped + (shown - kept.len());
        pb.inc_length(emitted as u64);
        if let Some(len) = pb.length() {
            pb.set_length(len.saturating_sub(redacted as u64));
        }
        Ok(kept)
    }
}

/// The number of elements that the query captures in the texts `sources` of
/// the files of `p`, before any is dropped.
pub open spec fn emitted_in<P: Parser + ?Sized>(p: &P, sources: Seq<Option<Seq<char>>>) -> nat {
    raw_elements(p.grammar(), p.pattern(), p.state().files(), sources).len()
}

/// The elements that `p` finds in the texts `sources` of its files: what the
/// query captures, file after file, in the canonical form of the language and
/// without the elements whose name holds a filter.
pub open spec fn found_in<P: Parser + ?Sized>(p: &P, sources: Seq<Option<Seq<char>>>) -> Seq<
    ElementView,
> {
    extracted(
        P::canonical(raw_elements(p.grammar(), p.pattern(), p.state().files(), sources)),
        p.state().filters(),
    )
}

/// `e` stands in one of `files`, on a line that is counted from 1.
pub open spec fn stands_in(files: Seq<FileView>, e: ElementView) -> bool {
    &&& e.line >= 1
    &&& exists|i: int| 0 <= i < files.len() && (#[trigger] files[i]).path == e.file
}

/// The line of every row is counted from 1.
pub proof fn lemma_collected_lines(found: Seq<Seq<CaptureView>>)
    ensures
        forall|k: int| 0 <= k < collected(found).len() ==> (#[trigger] collected(found)[k]).0 >= 1,
    decreases found.len(),
{
    if found.len() > 0 {
        let front = collected(found.drop_last());
        lemma_collected_lines(found.drop_last());
        lemma_first_text_line(found.last());
        assert forall|k: int| 0 <= k < collected(found).len() implies (#[trigger] collected(
            found,
        )[k]).0 >= 1 by {
            if k < front.len() {
                assert(collected(found)[k] == front[k]);
            }
        }
    }
}

/// The line of what a match contributes is counted from 1.
proof fn lemma_first_text_line(m: Seq<CaptureView>)
    ensures
        first_text(m) matches Some(row) ==> row.0 >= 1,
    decreases m.len(),
{
    if m.len() > 0 && m[0].text is None {
        lemma_first_text_line(m.drop_first());
    }
}

/// Every element that the query captures stands in one of the files, on a
/// line that is counted from 1.
pub proof fn lemma_raw_elements(
    language: Language,
    query: Query,
    files: Seq<FileView>,
    sources: Seq<Option<Seq<char>>>,
)
    ensures
        forall|k: int|
            0 <= k < raw_elements(language, query, files, sources).len() ==> stands_in(
                files,
                #[trigger] raw_elements(language, query, files, sources)[k],
            ),
    decreases files.len(),
{
    if files.len() > 0 {
        let front = files.drop_last();
        let head = raw_elements(language, query, front, sources);
        let source = source_at(sources, files.len() - 1);
        let tail = file_elements(language, query, files.last().path, source);
        lemma_raw_elements(language, query, front, sources);
        if source is Some && query_captures(language, query, source->0) is Some {
            lemma_collected_lines(query_captures(language, query, source->0)->0);
        }
        assert forall|k: int| 0 <= k < (head + tail).len() implies stands_in(
            files,
            #[trigger] (head + tail)[k],
        ) by {
            if k < head.len() {
                assert(stands_in(front, head[k]));
                let i = choose|i: int|
                    0 <= i < front.len() && (#[trigger] front[i]).path == head[k].file;
                assert(files[i] == front[i]);
            } else {
                assert(files[files.len() - 1].path == tail[k - head.len()].file);
            }
        }
    }
}

/// Every element that an extractor finds stands in one of its files, on a
/// line that is counted from 1, and its name holds none of the filters.
pub proof fn lemma_found_elements<P: Parser>(p: &P, sources: Seq<Option<Seq<char>>>, j: int)
    requires
        0 <= j < found_in(p, sources).len(),
    ensures
        stands_in(p.state().files(), found_in(p, sources)[j]),
        !contains_any(found_in(p, sources)[j].name, p.state().filters()),
{
    let files = p.state().files();
    let raw = raw_elements(p.grammar(), p.pattern(), files, sources);
    let form = P::canonical(raw);
    let test = passes(p.state().filters());
    let e = form.0.filter(test)[j];
    lemma_raw_elements(p.grammar(), p.pattern(), files, sources);
    P::canonical_holds(raw);
    form.0.lemma_filter_pred(test, j);
    form.0.lemma_filter_contains_rev(test, e);
    let k = choose|k: int| 0 <= k < form.0.len() && form.0[k] == e;
    assert(placed_in(raw, form.0[k]));
    let r = choose|r: int|
        0 <= r < raw.len() && (#[trigger] raw[r]).file == e.file && raw[r].line == e.line;
    assert(stands_in(files, raw[r]));
}

/// What two queries capture in the texts of the same files is the same
/// where each is what the patterns `patterns` make for its grammar, and each
/// grammar is the one that the grammar crate of `lang` holds.
pub proof fn lemma_raw_elements_agree(
    lang: Lang,
    patterns: Seq<char>,
    first: (Language, Query),
    second: (Language, Query),
    files: Seq<FileView>,
    sources: Seq<Option<Seq<char>>>,
)
    requires
        bundled(first.0, lang),
        bundled(second.0, lang),
        compiled_from(first.1, first.0, patterns),
        compiled_from(second.1, second.0, patterns),
    ensures
        raw_elements(first.0, first.1, files, sources) == raw_elements(
            second.0,
            second.1,
            files,
            sources,
        ),
    decreases files.len(),
{
    if files.len() > 0 {
        lemma_raw_elements_agree(lang, patterns, first, second, files.drop_last(), sources);
        let source = source_at(sources, files.len() - 1);
        if source is Some {
            assert(query_captures(first.0, first.1, source->0) == patterns_capture(
                first.0,
                first.0,
                patterns,
                source->0,
            ));
            assert(query_captures(second.0, second.1, source->0) == patterns_capture(
                second.0,
                second.0,
                patterns,
                source->0,
            ));
        }
    }
}

/// What an extractor finds rests on its files and its filters, on the texts
/// that it is given, and on the language and the patterns of which it is
/// made: two extractors of one language find the same elements in the same
/// order where they agree in files and filters, each holds the grammar that
/// the grammar crate of `lang` holds, and each holds what the patterns
/// `patterns` make for its grammar.
pub proof fn lemma_found_is_stable<P: Parser>(
    a: &P,
    b: &P,
    lang: Lang,
    patterns: Seq<char>,
    sources: Seq<Option<Seq<char>>>,
)
    requires
        a.state().files() == b.state().files(),
        a.state().filters() == b.state().filters(),
        bundled(a.grammar(), lang),
        bundled(b.grammar(), lang),
        compiled_from(a.pattern(), a.grammar(), patterns),
        compiled_from(b.pattern(), b.grammar(), patterns),
    ensures
        found_in(a, sources) == found_in(b, sources),
        emitted_in(a, sources) == emitted_in(b, sources),
        language_accepted(a.grammar()) == language_accepted(b.grammar()),
{
    lemma_raw_elements_agree(
        lang,
        patterns,
        (a.grammar(), a.pattern()),
        (b.grammar(), b.pattern()),
        a.state().files(),
        sources,
    );
}

/// To find the functions again without a file added in between gives the
/// same elements: `after` stands for the extractor as a first search left
/// it, with the state, the grammar and the query that it had before.
pub proof fn lemma_found_again<P: Parser>(before: &P, after: &P, sources: Seq<Option<Seq<char>>>)
    requires
        after.state() == before.state(),
        after.grammar() == before.grammar(),
        after.pattern() == before.pattern(),
    ensures
        found_in(after, sources) == found_in(before, sources),
{
}

/// A file that is added twice gives its elements twice: the elements of a
/// list of files with one more file are those of the list, and then those of
/// that file.
pub proof fn lemma_raw_elements_push(
    language: Language,
    query: Query,
    files: Seq<FileView>,
    file: FileView,
    sources: Seq<Option<Seq<char>>>,
)
    ensures
        raw_elements(language, query, files.push(file), sources) == raw_elements(
            language,
            query,
            files,
            sources,
        ) + file_elements(language, query, file.path, source_at(sources, files.len() as int)),
{
    assert(files.push(file).drop_last() =~= files);
}

} // verus!
