//! Errors reported by shape checking and by the bounded I/O checks.
use vstd::prelude::*;

verus! {

/// The operation a shape diagnostic is attributed to.
#[derive(Debug, Clone, Copy, PartialEq, Eq, Structural)]
pub enum OperationKind {
    /// Raw storage allocation and element counting.
    Storage,
    /// Elementwise addition with broadcasting.
    Add,
    /// Batched matrix multiplication.
    MatMul,
    /// Exact reshape.
    Reshape,
    /// Sum over one axis, dropping it.
    SumDim,
    /// Sum over one axis, keeping it with extent one.
    SumKeepDim,
    /// A reduction in general.
    Reduction,
}

/// Structured shape failures.
#[derive(Debug, Clone, PartialEq, Eq)]
pub enum ShapeError {
    /// An axis index is outside the rank of the shape it addresses.
    InvalidAxis {
        /// The offending axis.
        axis: usize,
        /// The rank it was checked against.
        rank: usize,
    },
    /// A parameter carries a value the operation cannot accept.
    InvalidParameter {
        /// The operation that refused it.
        operation: OperationKind,
        /// The parameter's name.
        parameter: &'static str,
        /// The refused value.
        value: usize,
    },
    /// Two operand extents cannot be combined.
    DimensionMismatch {
        /// The operation that refused them.
        operation: OperationKind,
        /// The axis, counted from the front of the output.
        axis: usize,
        /// Left operand's extent.
        lhs: usize,
        /// Right operand's extent.
        rhs: usize,
    },
    /// A descriptor's rank disagrees with the rank the frontend proved.
    RankMismatch {
        /// The operation that compared them.
        operation: OperationKind,
        /// The rank the frontend proved.
        expected: usize,
        /// The rank the descriptor carries.
        actual: usize,
    },
    /// A computed shape is not one the target shape type admits.
    TargetShapeRejected {
        /// The operation that produced it.
        operation: OperationKind,
        /// The rank of the rejected shape.
        rank: usize,
    },
    /// The element count of a shape does not fit in `usize`.
    ElementCountOverflow {
        /// The operation that counted.
        operation: OperationKind,
    },
}

/// Errors of the framework-level checks.
#[derive(Debug, Clone, PartialEq, Eq)]
pub enum Error {
    /// A human-readable refusal.
    Msg(String),
    /// A module's state or geometry does not admit the operation.
    InvalidModuleState {
        /// The refused operation.
        operation: &'static str,
        /// Why it was refused.
        reason: String,
    },
    /// A fixed-capacity cache was asked to grow past its capacity.
    CacheCapacityExceeded {
        /// The refused operation.
        operation: &'static str,
        /// The length the operation would have reached.
        requested: usize,
        /// The cache capacity.
        capacity: usize,
    },
}

} // verus!
