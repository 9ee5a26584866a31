//! Core of a lint engine over a lossless concrete syntax tree: a rule
//! registry that dispatches tree nodes to subscribed rules, a guarded
//! structural matcher for each rule, and a diagnostic model whose fixes
//! are range-scoped text replacements backed by synthesized subtrees.

use vstd::prelude::*;

pub mod session;
pub mod syntax;
pub mod report;
pub mod make;
pub mod rules;
pub mod dispatch;
pub mod laws;

verus! {

/// Half-open range of positions into the original source text; positions
/// count the characters of the source.
#[derive(Clone, Copy, PartialEq, Eq, Structural, Debug)]
pub struct TextRange {
    pub start: usize,
    pub end: usize,
}

impl TextRange {
    /// A range is well formed when its start does not pass its end.
    pub open spec fn wf(self) -> bool {
        self.start <= self.end
    }

    /// `self` lies entirely within `outer`.
    pub open spec fn contained_in(self, outer: TextRange) -> bool {
        outer.start <= self.start && self.end <= outer.end
    }

    pub fn new(start: usize, end: usize) -> (r: TextRange)
        requires
            start <= end,
        ensures
            r.start == start,
            r.end == end,
            r.wf(),
    {
        TextRange { start, end }
    }
}

} // verus!
