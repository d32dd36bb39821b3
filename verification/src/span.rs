//! Byte spans into the single input line currently being processed.

use vstd::prelude::*;

verus! {

/// A half-open byte range `[start, end)` into the current input line.
#[derive(Clone, Copy, Debug, PartialEq, Eq, Structural)]
pub struct Span {
    pub start: usize,
    pub end: usize,
}

impl Span {
    /// A span is well formed for a line of `n` bytes when it is a
    /// half-open range that lies inside the line.
    pub open spec fn wf(self, n: nat) -> bool {
        self.start <= self.end <= n
    }
}

} // verus!
