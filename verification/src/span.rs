//! Byte-offset ranges into the content of a source file.

use vstd::prelude::*;

verus! {

/// A pair of byte offsets `(start, end)` into a source file's content.
///
/// A span is used for diagnostics only. It is well formed when the start does
/// not lie behind the end.
#[derive(Clone, Copy, Debug, PartialEq, Eq, Structural)]
pub struct Span(pub usize, pub usize);

impl Span {
    /// The offset at which the span begins.
    pub open spec fn start(self) -> nat {
        self.0 as nat
    }

    /// The offset at which the span ends.
    pub open spec fn end(self) -> nat {
        self.1 as nat
    }

    /// A span is well formed when `start <= end`.
    pub open spec fn wf(self) -> bool {
        self.0 <= self.1
    }

    /// Number of bytes that a well-formed span covers.
    pub open spec fn spec_len(self) -> nat {
        if self.0 <= self.1 {
            (self.1 - self.0) as nat
        } else {
            0
        }
    }

    /// Tells whether the start does not lie behind the end.
    pub fn is_well_formed(&self) -> (ok: bool)
        ensures
            ok == self.wf(),
    {
        self.0 <= self.1
    }

    /// Number of bytes covered; zero for a span that is not well formed.
    pub fn len(&self) -> (n: usize)
        ensures
            n == self.spec_len(),
    {
        if self.0 <= self.1 {
            self.1 - self.0
        } else {
            0
        }
    }
}

} // verus!
