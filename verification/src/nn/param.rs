//! Parameter trainability typestate.
use vstd::prelude::*;

verus! {

/// Marker for trainable parameters.
#[derive(Debug, Clone, Copy, PartialEq, Eq, Default)]
pub struct Trainable;

/// Marker for frozen (non-trainable) parameters.
#[derive(Debug, Clone, Copy, PartialEq, Eq, Default)]
pub struct Frozen;

/// Parameter trainability typestate.
pub trait TrainState: Copy {
    /// Whether parameters in this state receive optimizer updates.
    spec fn spec_trainable() -> bool;

    /// Whether parameters in this state receive optimizer updates.
    fn trainable() -> (r: bool)
        ensures
            r == Self::spec_trainable(),
    ;
}

impl TrainState for Trainable {
    open spec fn spec_trainable() -> bool {
        true
    }

    fn trainable() -> (r: bool) {
        true
    }
}

impl TrainState for Frozen {
    open spec fn spec_trainable() -> bool {
        false
    }

    fn trainable() -> (r: bool) {
        false
    }
}

} // verus!
