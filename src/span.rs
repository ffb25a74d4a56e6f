use vstd::prelude::*;

verus! {

/// A range of character positions in the source text, `start` included,
/// `end` not.
#[derive(Clone, Copy, Debug, PartialEq, Eq, Structural)]
pub struct Span {
    pub start: usize,
    pub end: usize,
}

} // verus!
