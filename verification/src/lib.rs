//! Finds the functions of a source tree that changed most often in the history
//! of its git repository.
//!
//! The library holds the rules of a run, on plain values:
//!
//! - [`discovery`] keeps the files of a project among the entries of a
//!   directory walk and gives each its language;
//! - [`parser`] queues the files of one language and finds their functions in
//!   what a query of tree-sitter captures; [`grammar`] holds the calls into
//!   tree-sitter;
//! - [`insight`] says how git is asked for the history of a function, and reads
//!   the commits out of its answer;
//! - [`report`] turns functions and histories into the rows of a table, the
//!   functions that changed most often first;
//! - [`pipeline`] and [`args`] hold the decisions between these steps;
//!   [`progress`] counts the rows, and [`text`] searches in texts.
//!
//! Reading directories and files, running git and printing the table are left
//! to the program around the library.

pub mod args;
pub mod discovery;
pub mod grammar;
pub mod insight;
pub mod parser;
pub mod pipeline;
pub mod progress;
pub mod report;
pub mod text;
