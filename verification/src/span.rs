//! Source locations.

use vstd::prelude::*;

verus! {

/// A source file of the session.
#[derive(Debug, Clone, Copy, PartialEq, Eq, Hash, Structural)]
pub struct FileIdx(pub usize);

/// The index of the file that spans belong to when nothing else is said.
pub const ROOT_FILE_IDX: usize = 0;

/// A range of bytes of one source file, from `lo` up to `hi`.
#[derive(Debug, Clone, Copy, PartialEq, Eq, Hash, Structural)]
pub struct Span {
    pub file: FileIdx,
    pub lo: usize,
    pub hi: usize,
}

impl Span {
    /// Whether the span ends where it starts or behind it.
    pub open spec fn wf(&self) -> bool {
        self.lo <= self.hi
    }

    /// The span from `start` up to `end`, which is not before `start`.
    pub fn new(file: FileIdx, start: usize, end: usize) -> (s: Span)
        requires
            start <= end,
        ensures
            s == (Span { file, lo: start, hi: end }),
            s.wf(),
    {
        Span { file, lo: start, hi: end }
    }

    /// The empty span at the start of the root file.
    pub fn empty() -> (s: Span)
        ensures
            s == (Span { file: FileIdx(ROOT_FILE_IDX), lo: 0, hi: 0 }),
            s.wf(),
    {
        Span { file: FileIdx(ROOT_FILE_IDX), lo: 0, hi: 0 }
    }

    pub open spec fn spec_is_empty(&self) -> bool {
        self.lo == self.hi
    }

    #[verifier::when_used_as_spec(spec_is_empty)]
    pub fn is_empty(&self) -> (b: bool)
        ensures
            b == self.spec_is_empty(),
    {
        self.lo == self.hi
    }

    /// The smallest span that covers both: from the lesser start to the
    /// greater end. Both lie in one file.
    pub fn merge(self, other: Span) -> (s: Span)
        requires
            self.file == other.file,
        ensures
            s.file == self.file,
            s.lo == if self.lo <= other.lo {
                self.lo
            } else {
                other.lo
            },
            s.hi == if self.hi >= other.hi {
                self.hi
            } else {
                other.hi
            },
            self.wf() && other.wf() ==> s.wf(),
    {
        Span {
            file: self.file,
            lo: if self.lo <= other.lo {
                self.lo
            } else {
                other.lo
            },
            hi: if self.hi >= other.hi {
                self.hi
            } else {
                other.hi
            },
        }
    }
}

} // verus!
