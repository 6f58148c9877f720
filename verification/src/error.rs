use vstd::prelude::*;

verus! {

/// The ways a render or remap request can fail.
#[derive(Clone, Copy, Debug, PartialEq, Eq, Structural)]
pub enum AvatarError {
    /// A buffer was requested with a non-positive width or height.
    InvalidDimensions,
    /// A linear remap was requested over an empty source interval.
    DegenerateRemapRange,
    /// The embedded font bytes could not be parsed.
    FontLoadFailure,
}

} // verus!
