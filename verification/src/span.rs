use vstd::prelude::*;

verus! {

/// A source-position range attached to a syntax node, measured in byte
/// offsets from the start of the source text. Spans are carried verbatim
/// from the tree into diagnostics, never recomputed by the engine.
#[derive(Clone, Copy, PartialEq, Eq, Structural, Debug)]
pub struct Span {
    pub start: u32,
    pub end: u32,
}

/// Whether a sequence of spans is in source order: start positions never
/// decrease.
pub open spec fn starts_non_decreasing(spans: Seq<Span>) -> bool {
    forall|j: int, k: int|
        0 <= j <= k < spans.len() ==> (#[trigger] spans[j]).start <= (#[trigger] spans[k]).start
}

impl Span {
    pub fn new(start: u32, end: u32) -> (s: Span)
        ensures
            s.start == start,
            s.end == end,
    {
        Span { start, end }
    }
}

} // verus!
