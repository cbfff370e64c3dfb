use vstd::prelude::*;

verus! {

/// A closed range of uids or gids, as written in a container's `uids` and
/// `gids` lists and in the host's subuid/subgid allocation files.
///
/// `start > end` encodes the empty range; the matching algorithm shrinks
/// ranges from the front until they become empty.
#[derive(Clone, Copy, Debug, PartialEq, Eq, Structural)]
pub struct Range {
    pub start: u32,
    pub end: u32,
}

impl Range {
    /// Number of ids in the range, as a mathematical integer.
    pub open spec fn spec_len(self) -> int {
        if self.start <= self.end {
            self.end - self.start + 1
        } else {
            0
        }
    }

    pub fn new(start: u32, end: u32) -> (r: Range)
        ensures
            r.start == start,
            r.end == end,
    {
        Range { start, end }
    }

    pub fn start(&self) -> (r: u32)
        ensures
            r == self.start,
    {
        self.start
    }

    pub fn end(&self) -> (r: u32)
        ensures
            r == self.end,
    {
        self.end
    }

    pub fn len(&self) -> (r: u64)
        ensures
            r == self.spec_len(),
    {
        if self.start <= self.end {
            (self.end - self.start) as u64 + 1
        } else {
            0
        }
    }

    /// The range with its first `count` ids dropped.
    pub open spec fn spec_shift(self, count: int) -> Range {
        if count == 0 {
            self
        } else if count == self.spec_len() {
            Range { start: 1, end: 0 }
        } else {
            Range { start: (self.start + count) as u32, end: self.end }
        }
    }

    /// Drop the first `count` ids from the front of the range.
    pub fn shift(&self, count: u64) -> (r: Range)
        requires
            count <= self.spec_len(),
        ensures
            r == self.spec_shift(count as int),
            r.spec_len() == self.spec_len() - count,
    {
        if count == 0 {
            *self
        } else if count == self.len() {
            Range { start: 1, end: 0 }
        } else {
            Range { start: self.start + (count as u32), end: self.end }
        }
    }
}

} // verus!
