//! Flatten layers: which axes they merge.
use vstd::prelude::*;
use std::marker::PhantomData;

verus! {

/// Flatten module driven by two axis selectors.
#[derive(Debug, Clone, Copy, Default)]
pub struct Flatten<Start, End> {
    start: Start,
    end: End,
}

impl<Start, End> Flatten<Start, End> {
    /// The first selector of the inclusive range.
    pub closed spec fn spec_start(self) -> Start {
        self.start
    }

    /// The last selector of the inclusive range.
    pub closed spec fn spec_end(self) -> End {
        self.end
    }

    /// A flattening module for an inclusive axis range.
    pub fn new(start: Start, end: End) -> (r: Flatten<Start, End>)
        ensures
            r.spec_start() == start,
            r.spec_end() == end,
    {
        Flatten { start, end }
    }
}

/// Structural flatten module whose range lives in its type parameters.
#[derive(Debug)]
pub struct StructuralFlatten<Start, End>(PhantomData<(Start, End)>);

/// Runtime-axis flattening module. The inclusive range uses signed indices,
/// so `FlattenAxes::new(1, -1)` flattens every axis after a leading batch
/// axis.
#[derive(Debug, Clone, Copy, PartialEq, Eq, Structural)]
pub struct FlattenAxes {
    start: isize,
    end: isize,
}

impl FlattenAxes {
    /// The first axis of the range (negative counts from the end).
    pub closed spec fn spec_start(self) -> isize {
        self.start
    }

    /// The last axis of the range (negative counts from the end).
    pub closed spec fn spec_end(self) -> isize {
        self.end
    }

    /// A runtime-axis flattening module for the inclusive range.
    pub fn new(start: isize, end: isize) -> (r: FlattenAxes)
        ensures
            r.spec_start() == start,
            r.spec_end() == end,
    {
        FlattenAxes { start, end }
    }
}

} // verus!
