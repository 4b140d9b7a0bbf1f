//! The options of a run, as plain values.

use vstd::prelude::*;

verus! {

/// What a run does in place of a search.
#[derive(Debug, Clone, Copy, PartialEq, Eq, Structural)]
pub enum Command {
    /// Print the application version.
    Version,
}

/// How much of what happens is logged.
#[derive(Debug, Clone, Copy, PartialEq, Eq, Structural)]
pub enum Level {
    /// Nothing.
    Off,
    /// Errors.
    Error,
    /// Errors and warnings.
    Warn,
    /// Errors, warnings and notes.
    Info,
    /// Everything.
    Debug,
}

/// The options of a run.
#[derive(Debug, PartialEq, Eq)]
pub struct Opt {
    /// Total number of results.
    pub total: usize,
    /// Number of results passed over before the first.
    pub skip: usize,
    /// How often more logging was asked for.
    pub log_level: u8,
    /// Beginnings of paths: only files whose path begins with one are read.
    pub prefix: Vec<String>,
    /// Parts of paths: files whose path holds one are left out.
    pub invert_match: Vec<String>,
    /// Parts of names: functions whose name holds one are left out.
    pub exclude_func: Vec<String>,
    /// Root of the project to inspect.
    pub root: String,
    /// What to do in place of a search, if anything.
    pub sub_commands: Option<Command>,
}

/// The level that `count` requests for more logging stand for.
pub open spec fn level_of(count: u8) -> Level {
    if count == 0 {
        Level::Off
    } else if count == 1 {
        Level::Error
    } else if count == 2 {
        Level::Warn
    } else if count == 3 {
        Level::Info
    } else {
        Level::Debug
    }
}

/// `prefix` as it is held against the paths of a walk from `.`: behind `./`.
pub open spec fn rooted(prefix: Seq<char>) -> Seq<char> {
    seq!['.', '/'] + prefix
}

impl Opt {
    /// The options of a run without arguments: the first 50 results, from the
    /// directory `.`, with nothing left out and nothing logged.
    pub fn new() -> (opt: Opt)
        ensures
            opt.total == 50,
            opt.skip == 0,
            opt.log_level == 0,
            opt.prefix@ == Seq::<String>::empty(),
            opt.invert_match@ == Seq::<String>::empty(),
            opt.exclude_func@ == Seq::<String>::empty(),
            opt.root@ == seq!['.'],
            opt.sub_commands is None,
    {
        proof {
            reveal_strlit(".");
        }
        let root = ".".to_owned();
        Opt {
            total: 50,
            skip: 0,
            log_level: 0,
            prefix: Vec::new(),
            invert_match: Vec::new(),
            exclude_func: Vec::new(),
            root: root,
            sub_commands: None,
        }
    }

    /// The level of logging that the options ask for.
    pub fn level(&self) -> (level: Level)
        ensures
            level == level_of(self.log_level),
    {
        match self.log_level {
            0 => Level::Off,
            1 => Level::Error,
            2 => Level::Warn,
            3 => Level::Info,
            _ => Level::Debug,
        }
    }
}

} // verus!
