//! The progress of a run in plain numbers: how many rows are expected, and how
//! many are done.

use vstd::prelude::*;

verus! {

/// A progress bar reduced to its numbers. A bar without a length keeps none,
/// whatever is added to it.
#[derive(Debug, Clone, Copy, PartialEq, Eq)]
pub struct Progress {
    /// The number of rows expected, if the bar has a length.
    pub length: Option<u64>,
    /// The number of rows done.
    pub position: u64,
}

/// `length` raised by `delta`, held at the largest `u64`.
pub open spec fn raised(length: Option<u64>, delta: nat) -> Option<u64> {
    match length {
        Some(len) => Some(
            if len + delta > u64::MAX {
                u64::MAX
            } else {
                (len + delta) as u64
            },
        ),
        None => None,
    }
}

/// `length` lowered by `delta`, held at zero.
pub open spec fn lowered(length: Option<u64>, delta: nat) -> Option<u64> {
    match length {
        Some(len) => Some(
            if len < delta {
                0u64
            } else {
                (len - delta) as u64
            },
        ),
        None => None,
    }
}

impl Progress {
    /// A bar that expects `len` rows, none of them done.
    pub fn new(len: u64) -> (bar: Progress)
        ensures
            bar.length == Some(len),
            bar.position == 0,
    {
        Progress { length: Some(len), position: 0 }
    }

    /// A bar without a length.
    pub fn hidden() -> (bar: Progress)
        ensures
            bar.length is None,
            bar.position == 0,
    {
        Progress { length: None, position: 0 }
    }

    /// The number of rows expected.
    pub fn length(&self) -> (len: Option<u64>)
        ensures
            len == self.length,
    {
        self.length
    }

    /// The number of rows done.
    pub fn position(&self) -> (pos: u64)
        ensures
            pos == self.position,
    {
        self.position
    }

    /// Expects `len` rows from now on.
    pub fn set_length(&mut self, len: u64)
        ensures
            final(self).length == Some(len),
            final(self).position == old(self).position,
    {
        self.length = Some(len);
    }

    /// Expects `delta` rows more.
    pub fn inc_length(&mut self, delta: u64)
        ensures
            final(self).length == raised(old(self).length, delta as nat),
            final(self).position == old(self).position,
    {
        if let Some(len) = self.length {
            self.length = Some(len.saturating_add(delta));
        }
    }

    /// Counts `delta` rows more as done. The count wraps round at the largest
    /// `u64`.
    pub fn inc(&mut self, delta: u64)
        ensures
            final(self).position == old(self).position.wrapping_add(delta),
            final(self).length == old(self).length,
    {
        self.position = self.position.wrapping_add(delta);
    }
}

} // verus!
