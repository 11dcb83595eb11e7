//! Markers for optional layer parameters such as biases.
use vstd::prelude::*;

verus! {

/// Marker trait for optional module parameters: whether the parameter
/// exists, given what its position contributes at build time.
pub trait OptionalField {
    /// Runtime argument contributed by this optional position.
    type Arg;

    /// Resolves whether the field is present.
    fn init(arg: Self::Arg) -> bool;
}

/// The parameter always exists.
#[derive(Debug, Clone, Copy, Default)]
pub struct True;

impl OptionalField for True {
    type Arg = ();

    fn init(arg: ()) -> (r: bool)
        ensures
            r,
    {
        true
    }
}

/// The parameter never exists.
#[derive(Debug, Clone, Copy, Default)]
pub struct False;

impl OptionalField for False {
    type Arg = ();

    fn init(arg: ()) -> (r: bool)
        ensures
            !r,
    {
        false
    }
}

} // verus!
