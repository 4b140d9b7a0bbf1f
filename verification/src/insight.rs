//! The history of a function: which commits of a git log touched it.

use vstd::prelude::*;
use vstd::string::StringSliceAdditionalSpecFns;
use vstd::utf8::decode_utf8;
use vstd::utf8::encode_utf8_decode_utf8;
use vstd::utf8::valid_utf8;
use crate::text::concat;
use crate::text::from_chars;
use crate::text::occurs_at;
use crate::text::occurs_at_exec;
use crate::text::to_chars;

verus! {

/// Why a history could not be had.
#[derive(Debug, PartialEq, Eq)]
pub enum Error {
    /// Git could not be run; the text says why.
    IO(String),
    /// The output of git is no UTF-8 text.
    UTF8,
    /// The path is not inside a work tree of git.
    NotGitRepo,
}

impl Error {
    /// What the error says to the reader.
    pub open spec fn text(self) -> Seq<char> {
        match self {
            Error::IO(msg) => msg@,
            Error::UTF8 => "The output of git is not valid UTF-8"@,
            Error::NotGitRepo => "Not a git directory"@,
        }
    }

    /// What the error says to the reader.
    pub fn message(&self) -> (message: String)
        ensures
            message@ == self.text(),
    {
        match self {
            Error::IO(msg) => msg.clone(),
            Error::UTF8 => "The output of git is not valid UTF-8".to_owned(),
            Error::NotGitRepo => "Not a git directory".to_owned(),
        }
    }
}

/// The word that opens the header of a commit in a log, with the space
/// behind it.
pub open spec fn commit_word() -> Seq<char> {
    seq!['c', 'o', 'm', 'm', 'i', 't', ' ']
}

/// `c` is a digit of a hash: `0` to `9` or `a` to `f`.
pub open spec fn is_hex(c: char) -> bool {
    ('0' <= c && c <= '9') || ('a' <= c && c <= 'f')
}

/// A line of `log` begins at `at`.
pub open spec fn line_start(log: Seq<char>, at: int) -> bool {
    0 <= at < log.len() && (at == 0 || log[at - 1] == '\n')
}

/// The header of a commit stands at `at`: a line begins there with the word
/// `commit`, a space and 40 digits of a hash.
pub open spec fn header_at(log: Seq<char>, at: int) -> bool {
    &&& line_start(log, at)
    &&& occurs_at(log, commit_word(), at)
    &&& at + 47 <= log.len()
    &&& forall|k: int| 7 <= k < 47 ==> is_hex(#[trigger] log[at + k])
}

/// The hash of the header at `at`.
pub open spec fn hash_at(log: Seq<char>, at: int) -> Seq<char> {
    log.subrange(at + 7, at + 47)
}

/// The hashes of the headers that stand before `end`, in their order.
pub open spec fn hashes_before(log: Seq<char>, end: int) -> Seq<Seq<char>>
    decreases end,
{
    if end <= 0 {
        Seq::empty()
    } else if header_at(log, end - 1) {
        hashes_before(log, end - 1).push(hash_at(log, end - 1))
    } else {
        hashes_before(log, end - 1)
    }
}

/// The hashes of all commits of `log`, in the order of the log.
pub open spec fn commit_hashes(log: Seq<char>) -> Seq<Seq<char>> {
    hashes_before(log, log.len() as int)
}

/// The range of lines that a log is asked for: a colon, the name of the
/// function, a colon, the name of the file. Nothing in the two names is
/// quoted.
pub open spec fn line_range(filename: Seq<char>, func_name: Seq<char>) -> Seq<char> {
    seq![':'] + func_name + seq![':'] + filename
}

/// `std::str::from_utf8`: the text that `bytes` encode, where they are valid
/// UTF-8, and nothing where they are not.
#[verifier::external_body]
fn decode(bytes: &[u8]) -> (text: Option<&str>)
    ensures
        text is Some <==> valid_utf8(bytes@),
        text matches Some(t) ==> t.spec_bytes() == bytes@,
{
    std::str::from_utf8(bytes).ok()
}

/// Whether `c` is a digit of a hash.
fn hex(c: char) -> (yes: bool)
    ensures
        yes == is_hex(c),
{
    ('0' <= c && c <= '9') || ('a' <= c && c <= 'f')
}

/// The seven characters of the word `commit` and its space.
fn word() -> (w: Vec<char>)
    ensures
        w@ == commit_word(),
{
    let mut w: Vec<char> = Vec::new();
    w.push('c');
    w.push('o');
    w.push('m');
    w.push('m');
    w.push('i');
    w.push('t');
    w.push(' ');
    w
}

/// Whether the header of a commit stands at `at`.
fn header(log: &Vec<char>, word: &Vec<char>, at: usize) -> (yes: bool)
    requires
        word@ == commit_word(),
        at < log.len(),
    ensures
        yes == header_at(log@, at as int),
{
    if at > 0 && log[at - 1] != '\n' {
        return false;
    }
    if !occurs_at_exec(log, word, at) {
        return false;
    }
    if log.len() - at < 47 {
        return false;
    }
    let mut k: usize = 7;
    while k < 47
        invariant
            7 <= k <= 47,
            at + 47 <= log.len(),
            forall|j: int| 7 <= j < k ==> is_hex(#[trigger] log@[at + j]),
        decreases 47 - k,
    {
        if !hex(log[at + k]) {
            return false;
        }
        k += 1;
    }
    true
}

/// Inspector interrogates the logs of git for the history of functions and
/// methods. It holds the path of the work tree in which git is run.
#[derive(Debug, PartialEq, Eq)]
pub struct Inspector {
    path: String,
}

impl Inspector {
    /// The path of the work tree.
    pub closed spec fn root(&self) -> Seq<char> {
        self.path@
    }

    /// The arguments with which git says whether a directory is inside a work
    /// tree: `rev-parse` and `--is-inside-work-tree`.
    pub fn probe_args() -> (args: Vec<String>)
        ensures
            args.deep_view() == seq!["rev-parse"@, "--is-inside-work-tree"@],
    {
        let mut args: Vec<String> = Vec::new();
        args.push("rev-parse".to_owned());
        args.push("--is-inside-work-tree".to_owned());
        args
    }

    /// An inspector of the work tree at `path`. `probe` says how git fared in
    /// that directory with the arguments of [`Self::probe_args`]: whether it
    /// ended with success, or why it could not be run. Fails with `IO` and
    /// the reason where git could not be run, and with `NotGitRepo` where it
    /// ran and did not end with success.
    pub fn new(path: &str, probe: Result<bool, String>) -> (made: Result<Inspector, Error>)
        ensures
            probe matches Ok(true) ==> made is Ok && made->Ok_0.root() == path@,
            probe matches Ok(false) ==> made == Err::<Inspector, Error>(Error::NotGitRepo),
            probe matches Err(reason) ==> made == Err::<Inspector, Error>(Error::IO(reason)),
    {
        match probe {
            Ok(true) => Ok(Inspector { path: path.to_owned() }),
            Ok(false) => Err(Error::NotGitRepo),
            Err(reason) => Err(Error::IO(reason)),
        }
    }

    /// The path of the work tree, in which git is to run.
    pub fn path(&self) -> (path: &str)
        ensures
            path@ == self.root(),
    {
        self.path.as_str()
    }

    /// The arguments with which git logs the history of the function
    /// `func_name` of the file `filename`: `log`, `-L` and the range of lines.
    pub fn log_args(&self, filename: &str, func_name: &str) -> (args: Vec<String>)
        ensures
            args.deep_view() == seq!["log"@, "-L"@, line_range(filename@, func_name@)],
    {
        proof {
            reveal_strlit(":");
        }
        assert(":"@ =~= seq![':']);
        let range = concat(concat(concat(":", func_name).as_str(), ":").as_str(), filename);
        let mut args: Vec<String> = Vec::new();
        args.push("log".to_owned());
        args.push("-L".to_owned());
        args.push(range);
        args
    }

    /// The commits in which a function appears. `output` says how git fared
    /// with the arguments of [`Self::log_args`]: what it wrote to its standard
    /// output, or why it could not be run. Fails with `IO` and the reason
    /// where git could not be run, and with `UTF8` if, and only if, it ran and
    /// its output is no UTF-8 text.
    pub fn function_history(&self, output: Result<Vec<u8>, String>) -> (history: Result<
        Vec<String>,
        Error,
    >)
        ensures
            output matches Err(reason) ==> history == Err::<Vec<String>, Error>(Error::IO(reason)),
            output matches Ok(bytes) && !valid_utf8(bytes@) ==> history == Err::<Vec<String>, Error>(
                Error::UTF8,
            ),
            output matches Ok(bytes) && valid_utf8(bytes@) ==> history is Ok && history->Ok_0.deep_view()
                == commit_hashes(decode_utf8(output->Ok_0@)),
    {
        match output {
            Ok(bytes) => match decode(bytes.as_slice()) {
                Some(text) => {
                    proof {
                        encode_utf8_decode_utf8(text@);
                    }
                    self.commits(text)
                },
                None => Err(Error::UTF8),
            },
            Err(reason) => Err(Error::IO(reason)),
        }
    }

    /// The hashes of the commits of the log `input`, in the order of the log:
    /// of each line that begins with `commit`, a space and 40 digits of a
    /// hash, those 40 digits.
    pub fn commits(&self, input: &str) -> (hashes: Result<Vec<String>, Error>)
        ensures
            hashes is Ok,
            hashes->Ok_0.deep_view() == commit_hashes(input@),
    {
        let log = to_chars(input);
        let word = word();
        let mut matches: Vec<String> = Vec::new();
        let mut at: usize = 0;
        while at < log.len()
            invariant
                at <= log.len(),
                word@ == commit_word(),
                matches.deep_view() == hashes_before(log@, at as int),
            decreases log.len() - at,
        {
            if header(&log, &word, at) {
                let hash = from_chars(&log, at + 7, at + 47);
                matches.push(hash);
            }
            at += 1;
        }
        Ok(matches)
    }
}

/// Every hash of a log is made of 40 digits of a hash, and stands in the log
/// behind the word `commit` at the beginning of a line.
pub proof fn lemma_hashes(log: Seq<char>, end: int, j: int)
    requires
        0 <= j < hashes_before(log, end).len(),
    ensures
        hashes_before(log, end)[j].len() == 40,
        forall|k: int| 0 <= k < 40 ==> is_hex(#[trigger] hashes_before(log, end)[j][k]),
        exists|at: int| 0 <= at < end && header_at(log, at) && hashes_before(log, end)[j] == hash_at(log, at),
    decreases end,
{
    if end > 0 {
        let front = hashes_before(log, end - 1);
        if j < front.len() {
            lemma_hashes(log, end - 1, j);
            let at = choose|at: int|
                0 <= at < end - 1 && header_at(log, at) && front[j] == hash_at(log, at);
            assert(header_at(log, at) && hashes_before(log, end)[j] == hash_at(log, at));
        } else {
            let hash = hash_at(log, end - 1);
            assert forall|k: int| 0 <= k < 40 implies is_hex(#[trigger] hash[k]) by {
                assert(hash[k] == log[(end - 1) + (k + 7)]);
            }
            assert(header_at(log, end - 1) && hashes_before(log, end)[j] == hash);
        }
    }
}

/// The number of commits of a history is not negative, and a log has no more
/// commits than characters.
pub proof fn lemma_history_count(log: Seq<char>, end: int)
    ensures
        0 <= hashes_before(log, end).len(),
        end >= 0 ==> hashes_before(log, end).len() <= end,
    decreases end,
{
    if end > 0 {
        lemma_history_count(log, end - 1);
    }
}

} // verus!
