use vstd::prelude::*;

verus! {

/// Why a vector could not be scored.
#[derive(Clone, Copy, Debug, PartialEq, Eq, Structural)]
pub enum CvssError {
    /// The text holds no base vector of the fixed grammar.
    MalformedVector,
    /// The text holds no `S:U` or `S:C` field.
    MissingScope,
    /// A letter has no weight in the qualitative table.
    UnknownMetricLetter,
}

} // verus!
