//! Which feed-forward shape a transformer layer uses.
use vstd::prelude::*;

verus! {

/// Which feed-forward shape a transformer layer uses.
#[derive(Debug, Clone, Copy, PartialEq, Eq, Structural)]
pub enum FeedForwardKind {
    /// `down(relu(up(x)))`, the original formulation.
    Relu,
    /// `down(gelu(up(x)))`, the variant most encoder stacks use.
    Gelu,
    /// `down(swish(w(x)) * up(x))`, with a third projection `w`.
    SwiGlu,
}

impl FeedForwardKind {
    /// Whether this kind needs the third, swish-activated projection.
    pub fn is_gated(self) -> (r: bool)
        ensures
            r == (self == FeedForwardKind::SwiGlu),
    {
        match self {
            FeedForwardKind::SwiGlu => true,
            _ => false,
        }
    }
}

} // verus!
