//! Where the lines of the source begin.

use crate::span::Span;
use vstd::prelude::*;

verus! {

/// The positions at which a new line begins: for each line break in the
/// source, the position just behind it.
pub struct SourceMap {
    line_starts: Vec<u32>,
}

impl View for SourceMap {
    type V = Seq<u32>;

    closed spec fn view(&self) -> Seq<u32> {
        self.line_starts@
    }
}

/// Whether a line begins behind the start of `span` and not behind its end:
/// the two ends of the span lie on different lines.
pub open spec fn crosses_line(line_starts: Seq<u32>, span: Span) -> bool {
    exists|i: int| 0 <= i < line_starts.len() && span.lo < #[trigger] line_starts[i] <= span.hi
}

/// The line starts that the first `n` bytes of a source give rise to.
pub open spec fn line_starts_of(src: Seq<u8>, n: nat) -> Seq<u32>
    decreases n,
{
    if n == 0 || n > src.len() {
        Seq::empty()
    } else if src[n - 1] == 10u8 {
        line_starts_of(src, (n - 1) as nat).push(n as u32)
    } else {
        line_starts_of(src, (n - 1) as nat)
    }
}

impl SourceMap {
    /// A map of a source with the given line starts.
    pub fn new(line_starts: Vec<u32>) -> (map: SourceMap)
        ensures
            map@ == line_starts@,
    {
        SourceMap { line_starts }
    }

    /// Finds the line starts of a source text.
    pub fn from_bytes(src: &[u8]) -> (map: SourceMap)
        requires
            src@.len() <= u32::MAX,
        ensures
            map@ == line_starts_of(src@, src@.len()),
    {
        let mut line_starts: Vec<u32> = Vec::new();
        let mut i: usize = 0;
        while i < src.len()
            invariant
                i <= src@.len(),
                src@.len() <= u32::MAX,
                line_starts@ == line_starts_of(src@, i as nat),
            decreases src@.len() - i,
        {
            if src[i] == 10u8 {
                line_starts.push((i + 1) as u32);
            }
            i = i + 1;
        }
        SourceMap { line_starts }
    }

    /// Whether the two ends of `span` lie on different lines.
    pub fn is_multiline(&self, span: Span) -> (r: bool)
        ensures
            r == crosses_line(self@, span),
    {
        let mut i: usize = 0;
        while i < self.line_starts.len()
            invariant
                i <= self.line_starts@.len(),
                forall|j: int|
                    0 <= j < i ==> !(span.lo < #[trigger] self.line_starts@[j] <= span.hi),
            decreases self.line_starts@.len() - i,
        {
            let start = self.line_starts[i];
            if span.lo < start && start <= span.hi {
                return true;
            }
            i = i + 1;
        }
        false
    }
}

} // verus!
