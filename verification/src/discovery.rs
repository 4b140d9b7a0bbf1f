//! Discovery of the files of a project: which entries of a directory walk are
//! kept, and the language of each.

use vstd::prelude::*;
use vstd::std_specs::convert::FromSpecImpl;
use crate::text::begins_with_any;
use crate::text::begins_with_any_exec;
use crate::text::contains_any;
use crate::text::contains_any_exec;
use crate::text::same_text;
use crate::text::texts;
use crate::text::to_chars;

verus! {

/// The languages whose functions can be extracted. `Undefined` stands for
/// every other language.
#[derive(Debug, Clone, Copy, PartialEq, Eq, Structural)]
pub enum Lang {
    /// The Rust language.
    Rust,
    /// The Go language.
    Go,
    /// The Lua language.
    Lua,
    /// Any language without an extractor.
    Undefined,
}

/// The language that a language tag names: `go`, `rust` and `lua` name
/// theirs, every other tag names none.
pub open spec fn lang_of_tag(tag: Seq<char>) -> Lang {
    if tag == "go"@ {
        Lang::Go
    } else if tag == "rust"@ {
        Lang::Rust
    } else if tag == "lua"@ {
        Lang::Lua
    } else {
        Lang::Undefined
    }
}

impl From<&str> for Lang {
    /// The language that the tag `value` names.
    fn from(value: &str) -> (lang: Lang) {
        if same_text(value, "go") {
            Lang::Go
        } else if same_text(value, "rust") {
            Lang::Rust
        } else if same_text(value, "lua") {
            Lang::Lua
        } else {
            Lang::Undefined
        }
    }
}

impl FromSpecImpl<&str> for Lang {
    open spec fn obeys_from_spec() -> bool {
        true
    }

    open spec fn from_spec(value: &str) -> Lang {
        lang_of_tag(value@)
    }
}

/// A file of the project: its path as the walk met it, and its language.
#[derive(Debug, PartialEq, Eq)]
pub struct File {
    /// Path of the file.
    pub path: String,
    /// Language of the file.
    pub lang: Lang,
}

/// The mathematical value of a [`File`].
pub struct FileView {
    pub path: Seq<char>,
    pub lang: Lang,
}

impl View for File {
    type V = FileView;

    open spec fn view(&self) -> FileView {
        FileView { path: self.path@, lang: self.lang }
    }
}

impl DeepView for File {
    type V = FileView;

    open spec fn deep_view(&self) -> FileView {
        self@
    }
}

/// What a walk through a directory reports of one entry: its path, or `None`
/// where the path is no text, and whether it is a directory.
#[derive(Debug, PartialEq, Eq)]
pub struct Entry {
    /// Path of the entry, from the root of the walk.
    pub path: Option<String>,
    /// Whether the entry is a directory.
    pub is_dir: bool,
}

/// The mathematical value of an [`Entry`].
pub struct EntryView {
    pub path: Option<Seq<char>>,
    pub is_dir: bool,
}

impl View for Entry {
    type V = EntryView;

    open spec fn view(&self) -> EntryView {
        EntryView { path: self.path.deep_view(), is_dir: self.is_dir }
    }
}

impl DeepView for Entry {
    type V = EntryView;

    open spec fn deep_view(&self) -> EntryView {
        self@
    }
}

/// Where the last part of `path` begins: behind its last `/`, or at 0 where
/// it has none.
pub open spec fn name_start(path: Seq<char>) -> int
    decreases path.len(),
{
    if path.len() == 0 {
        0
    } else if path.last() == '/' {
        path.len() as int
    } else {
        name_start(path.drop_last())
    }
}

/// The last part of `path` begins with a dot.
pub open spec fn is_hidden(path: Seq<char>) -> bool {
    name_start(path) < path.len() && path[name_start(path)] == '.'
}

/// The entry is a file of a project: it is no directory, its path is a text,
/// and the last part of the path does not begin with a dot.
pub open spec fn project_file(entry: EntryView) -> bool {
    &&& !entry.is_dir
    &&& entry.path is Some
    &&& !is_hidden(entry.path->0)
}

/// The entry is kept: it is a file of a project, its path begins with one of
/// `prefixes`, if there is any, and holds none of `excluded`.
pub open spec fn kept(
    prefixes: Seq<Seq<char>>,
    excluded: Seq<Seq<char>>,
    entry: EntryView,
) -> bool {
    &&& project_file(entry)
    &&& prefixes.len() == 0 || begins_with_any(entry.path->0, prefixes)
    &&& !contains_any(entry.path->0, excluded)
}

/// The test of [`kept`] as a function of the entry.
pub open spec fn keeps(prefixes: Seq<Seq<char>>, excluded: Seq<Seq<char>>) -> spec_fn(
    EntryView,
) -> bool {
    |entry: EntryView| kept(prefixes, excluded, entry)
}

/// The tag that `detect_lang::from_path` gives the language of `path`, which
/// it takes from the extension of the path; `None` where it knows none.
pub uninterp spec fn detected_tag(path: Seq<char>) -> Option<Seq<char>>;

/// The language of the file at `path`.
pub open spec fn lang_of_path(path: Seq<char>) -> Lang {
    match detected_tag(path) {
        Some(tag) => lang_of_tag(tag),
        None => Lang::Undefined,
    }
}

/// The file that a kept entry becomes.
pub open spec fn file_of(entry: EntryView) -> FileView {
    FileView { path: entry.path->0, lang: lang_of_path(entry.path->0) }
}

/// The files discovered among `entries`: the entries that are kept, in their
/// order, each with the language of its path.
pub open spec fn discovered(
    prefixes: Seq<Seq<char>>,
    excluded: Seq<Seq<char>>,
    entries: Seq<EntryView>,
) -> Seq<FileView> {
    entries.filter(keeps(prefixes, excluded)).map_values(|entry: EntryView| file_of(entry))
}

/// Calls `detect_lang::from_path` and hands out the `id` of the language that
/// it found. The function looks the extension of `path` up in a table: the
/// result rests on `path` alone.
#[verifier::external_body]
fn detect(path: &str) -> (tag: Option<String>)
    ensures
        tag.deep_view() == detected_tag(path@),
{
    detect_lang::from_path(path).map(|language| language.id().to_owned())
}

/// The language of the file at `path`.
pub fn language_of(path: &str) -> (lang: Lang)
    ensures
        lang == lang_of_path(path@),
{
    match detect(path) {
        Some(tag) => Lang::from(tag.as_str()),
        None => Lang::Undefined,
    }
}

/// Whether the last part of `path` begins with a dot.
pub fn hidden(path: &str) -> (yes: bool)
    ensures
        yes == is_hidden(path@),
{
    let chars = to_chars(path);
    let mut start: usize = chars.len();
    assert(chars@.take(chars.len() as int) =~= chars@);
    while start > 0 && chars[start - 1] != '/'
        invariant
            start <= chars.len(),
            name_start(chars@) == name_start(chars@.take(start as int)),
        decreases start,
    {
        assert(chars@.take(start as int).drop_last() =~= chars@.take(start - 1));
        start -= 1;
    }
    start < chars.len() && chars[start] == '.'
}

/// Checks if the given entry is a non-hidden file and not a directory.
pub fn is_project_file(entry: &Entry) -> (yes: bool)
    ensures
        yes == project_file(entry@),
{
    if entry.is_dir {
        return false;
    }
    match &entry.path {
        Some(path) => !hidden(path.as_str()),
        None => false,
    }
}

/// Discovery finds the files of a project among the entries of a walk. It can
/// keep to the files whose path begins with one of some texts, and leave out
/// those whose path holds one of some others.
pub struct Discovery {
    prefixes: Vec<String>,
    not_contains: Vec<String>,
}

impl Default for Discovery {
    /// A discovery that keeps every file of a project.
    fn default() -> (d: Discovery)
        ensures
            d.prefixes() == Seq::<Seq<char>>::empty(),
            d.excluded() == Seq::<Seq<char>>::empty(),
    {
        let d = Discovery { prefixes: Vec::new(), not_contains: Vec::new() };
        d
    }
}

impl Discovery {
    /// The beginnings of paths that the discovery keeps to; none where it
    /// keeps every path.
    pub closed spec fn prefixes(&self) -> Seq<Seq<char>> {
        texts(self.prefixes@)
    }

    /// The texts whose presence in a path leaves the file out.
    pub closed spec fn excluded(&self) -> Seq<Seq<char>> {
        texts(self.not_contains@)
    }

    /// Conditions the discovery to only find files that start with the given prefix.
    pub fn with_prefix(&mut self, p: String)
        ensures
            final(self).prefixes() == old(self).prefixes().push(p@),
            final(self).excluded() == old(self).excluded(),
    {
        self.prefixes.push(p);
    }

    /// Conditions the discovery to only find files that do not contain the given string.
    pub fn not_contains(&mut self, p: String)
        ensures
            final(self).excluded() == old(self).excluded().push(p@),
            final(self).prefixes() == old(self).prefixes(),
    {
        self.not_contains.push(p);
    }

    /// Whether the discovery keeps `entry`.
    pub fn keeps_entry(&self, entry: &Entry) -> (yes: bool)
        ensures
            yes == kept(self.prefixes(), self.excluded(), entry@),
    {
        if !is_project_file(entry) {
            return false;
        }
        match &entry.path {
            Some(path) => {
                if self.prefixes.len() > 0 && !begins_with_any_exec(path.as_str(), &self.prefixes) {
                    return false;
                }
                !contains_any_exec(path.as_str(), &self.not_contains)
            },
            None => false,
        }
    }

    /// Discovers the files among the entries of a walk: those that the
    /// discovery keeps, in the order of the walk, each with its language. It
    /// returns `None` where it keeps none.
    pub fn discover(&self, entries: &Vec<Entry>) -> (found: Option<Vec<File>>)
        ensures
            discovered(self.prefixes(), self.excluded(), entries.deep_view()).len() == 0
                ==> found is None,
            discovered(self.prefixes(), self.excluded(), entries.deep_view()).len() > 0 ==> {
                &&& found matches Some(files)
                &&& files.deep_view() == discovered(
                    self.prefixes(),
                    self.excluded(),
                    entries.deep_view(),
                )
            },
    {
        let ghost all = entries.deep_view();
        let ghost test = keeps(self.prefixes(), self.excluded());
        let ghost make = |entry: EntryView| file_of(entry);
        let mut res: Vec<File> = Vec::new();
        let mut i: usize = 0;
        proof {
            reveal(Seq::filter);
        }
        while i < entries.len()
            invariant
                i <= entries.len(),
                all == entries.deep_view(),
                test == keeps(self.prefixes(), self.excluded()),
                make == |entry: EntryView| file_of(entry),
                res.deep_view() == all.take(i as int).filter(test).map_values(make),
            decreases entries.len() - i,
        {
            let ghost before = all.take(i as int).filter(test);
            proof {
                reveal(Seq::filter);
                assert(all.take(i + 1).drop_last() =~= all.take(i as int));
            }
            if self.keeps_entry(&entries[i]) {
                match &entries[i].path {
                    Some(path) => {
                        let lang = language_of(path.as_str());
                        res.push(File { path: path.clone(), lang: lang });
                        assert(before.push(entries@[i as int]@).map_values(make)
                            =~= before.map_values(make).push(file_of(entries@[i as int]@)));
                    },
                    None => {},
                }
            }
            i += 1;
        }
        assert(all.take(entries.len() as int) =~= all);
        if res.len() == 0 {
            None
        } else {
            Some(res)
        }
    }
}

/// Every file discovered is the file of an entry of the walk that is no
/// directory; the last part of its path does not begin with a dot; where
/// there are prefixes its path begins with one of them; and its path holds
/// none of the excluded texts.
pub proof fn lemma_discovered_files(
    prefixes: Seq<Seq<char>>,
    excluded: Seq<Seq<char>>,
    entries: Seq<EntryView>,
    j: int,
)
    requires
        0 <= j < discovered(prefixes, excluded, entries).len(),
    ensures
        exists|i: int|
            0 <= i < entries.len() && !(#[trigger] entries[i]).is_dir && entries[i].path == Some(
                discovered(prefixes, excluded, entries)[j].path,
            ),
        !is_hidden(discovered(prefixes, excluded, entries)[j].path),
        prefixes.len() > 0 ==> begins_with_any(
            discovered(prefixes, excluded, entries)[j].path,
            prefixes,
        ),
        !contains_any(discovered(prefixes, excluded, entries)[j].path, excluded),
        discovered(prefixes, excluded, entries)[j].lang == lang_of_path(
            discovered(prefixes, excluded, entries)[j].path,
        ),
{
    let test = keeps(prefixes, excluded);
    let chosen = entries.filter(test);
    let entry = chosen[j];
    entries.lemma_filter_pred(test, j);
    entries.lemma_filter_contains_rev(test, entry);
    let i = choose|i: int| 0 <= i < entries.len() && entries[i] == entry;
    assert(!entries[i].is_dir && entries[i].path == Some(file_of(entry).path));
}

/// Discovery keeps the order of the walk and adds nothing: it finds no more
/// files than the walk has entries.
pub proof fn lemma_discovered_len(
    prefixes: Seq<Seq<char>>,
    excluded: Seq<Seq<char>>,
    entries: Seq<EntryView>,
)
    ensures
        discovered(prefixes, excluded, entries).len() <= entries.len(),
{
    entries.lemma_filter_len(keeps(prefixes, excluded));
}

} // verus!
