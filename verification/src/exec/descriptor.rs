//! The exact descriptor of an elementwise binary operation with
//! right-aligned broadcasting.
use vstd::prelude::*;
use crate::error::{OperationKind, ShapeError};
use crate::shapes::{ProofLevel, checked_numel, dims_to_vec};
use crate::exec::validated::{ExecutionDescriptor, Validated, descriptor_indexable};

verus! {

/// The rank of the broadcast output: the larger operand rank.
pub open spec fn broadcast_rank(lhs: Seq<usize>, rhs: Seq<usize>) -> int {
    if lhs.len() >= rhs.len() {
        lhs.len() as int
    } else {
        rhs.len() as int
    }
}

/// The extent of `operand` at output axis `i` of an output of rank `n`,
/// counting from the front; missing leading axes have extent one.
pub open spec fn aligned_extent(operand: Seq<usize>, n: int, i: int) -> usize {
    let offset = n - operand.len();
    if i >= offset {
        operand[i - offset]
    } else {
        1
    }
}

/// Whether output axis `i` can be broadcast.
pub open spec fn axis_compatible(lhs: Seq<usize>, rhs: Seq<usize>, i: int) -> bool {
    let n = broadcast_rank(lhs, rhs);
    let l = aligned_extent(lhs, n, i);
    let r = aligned_extent(rhs, n, i);
    l == r || l == 1 || r == 1
}

/// The broadcast extent at output axis `i`.
pub open spec fn broadcast_extent(lhs: Seq<usize>, rhs: Seq<usize>, i: int) -> usize {
    let n = broadcast_rank(lhs, rhs);
    let l = aligned_extent(lhs, n, i);
    let r = aligned_extent(rhs, n, i);
    if l == 1 {
        r
    } else {
        l
    }
}

/// Geometry of an elementwise binary operation.
#[derive(Debug, Clone, PartialEq, Eq)]
pub struct ElementwiseDescriptor {
    lhs: Vec<usize>,
    rhs: Vec<usize>,
    output: Vec<usize>,
}

impl ElementwiseDescriptor {
    /// The left operand's shape.
    pub closed spec fn spec_lhs(self) -> Seq<usize> {
        self.lhs@
    }

    /// The right operand's shape.
    pub closed spec fn spec_rhs(self) -> Seq<usize> {
        self.rhs@
    }

    /// The derived output shape.
    pub closed spec fn spec_output(self) -> Seq<usize> {
        self.output@
    }

    /// Derive the descriptor from the operand shapes: the output has the
    /// larger rank, and each axis the common extent, where an extent of one
    /// stretches. The first incompatible axis is reported. The seal records
    /// that nothing was proved before runtime.
    pub fn infer_runtime(lhs: &[usize], rhs: &[usize]) -> (r: Result<
        Validated<ElementwiseDescriptor>,
        ShapeError,
    >)
        ensures
            match r {
                Ok(v) => {
                    &&& v.spec_proof() == ProofLevel::Dynamic
                    &&& v.spec_descriptor().spec_lhs() == lhs@
                    &&& v.spec_descriptor().spec_rhs() == rhs@
                    &&& v.spec_descriptor().spec_output().len() == broadcast_rank(lhs@, rhs@)
                    &&& forall|i: int|
                        0 <= i < broadcast_rank(lhs@, rhs@) ==> #[trigger] axis_compatible(lhs@, rhs@, i)
                    &&& forall|i: int|
                        0 <= i < broadcast_rank(lhs@, rhs@) ==> #[trigger] v.spec_descriptor().spec_output()[i]
                            == broadcast_extent(lhs@, rhs@, i)
                },
                Err(e) => exists|i: int|
                    0 <= i < broadcast_rank(lhs@, rhs@) && !axis_compatible(lhs@, rhs@, i) && (
                    forall|j: int| 0 <= j < i ==> axis_compatible(lhs@, rhs@, j)) && e
                        == ShapeError::DimensionMismatch {
                        operation: OperationKind::Add,
                        axis: i as usize,
                        lhs: aligned_extent(lhs@, broadcast_rank(lhs@, rhs@), i),
                        rhs: aligned_extent(rhs@, broadcast_rank(lhs@, rhs@), i),
                    },
            },
    {
        let n: usize = if lhs.len() >= rhs.len() {
            lhs.len()
        } else {
            rhs.len()
        };
        let lhs_offset: usize = n - lhs.len();
        let rhs_offset: usize = n - rhs.len();
        let mut output: Vec<usize> = Vec::new();
        let mut i: usize = 0;
        while i < n
            invariant
                n == broadcast_rank(lhs@, rhs@),
                lhs_offset == n - lhs@.len(),
                rhs_offset == n - rhs@.len(),
                i <= n,
                output@.len() == i,
                forall|j: int| 0 <= j < i ==> #[trigger] axis_compatible(lhs@, rhs@, j),
                forall|j: int| 0 <= j < i ==> #[trigger] output@[j] == broadcast_extent(lhs@, rhs@, j),
            decreases n - i,
        {
            let l: usize = if i >= lhs_offset {
                lhs[i - lhs_offset]
            } else {
                1
            };
            let r: usize = if i >= rhs_offset {
                rhs[i - rhs_offset]
            } else {
                1
            };
            if l != r && l != 1 && r != 1 {
                proof {
                    assert(l == aligned_extent(lhs@, n as int, i as int));
                    assert(r == aligned_extent(rhs@, n as int, i as int));
                    assert(!axis_compatible(lhs@, rhs@, i as int));
                }
                return Err(
                    ShapeError::DimensionMismatch {
                        operation: OperationKind::Add,
                        axis: i,
                        lhs: l,
                        rhs: r,
                    },
                );
            }
            proof {
                assert(l == aligned_extent(lhs@, n as int, i as int));
                assert(r == aligned_extent(rhs@, n as int, i as int));
            }
            output.push(if l == 1 { r } else { l });
            proof {
                assert(axis_compatible(lhs@, rhs@, i as int));
                assert(output@[i as int] == broadcast_extent(lhs@, rhs@, i as int));
            }
            i = i + 1;
        }
        let descriptor = ElementwiseDescriptor { lhs: dims_to_vec(lhs), rhs: dims_to_vec(rhs), output };
        Ok(Validated::new(descriptor, ProofLevel::Dynamic))
    }

    /// The derived output shape.
    pub fn output(&self) -> (r: &Vec<usize>)
        ensures
            r@ == self.spec_output(),
    {
        &self.output
    }
}

impl ExecutionDescriptor for ElementwiseDescriptor {
    open spec fn spec_output_shape(&self) -> Option<Seq<usize>> {
        Some(self.spec_output())
    }

    fn output_shape(&self) -> (r: Option<&Vec<usize>>) {
        Some(&self.output)
    }
}

/// Broadcasting is symmetric: swapping the operands changes neither which
/// axes are compatible nor the output extents.
pub proof fn lemma_broadcast_commutes(lhs: Seq<usize>, rhs: Seq<usize>, i: int)
    ensures
        broadcast_rank(lhs, rhs) == broadcast_rank(rhs, lhs),
        axis_compatible(lhs, rhs, i) == axis_compatible(rhs, lhs, i),
        axis_compatible(lhs, rhs, i) ==> broadcast_extent(lhs, rhs, i) == broadcast_extent(
            rhs,
            lhs,
            i,
        ),
{
}

/// The broadcast output shape of `lhs` and `rhs`.
pub open spec fn broadcast_shape(lhs: Seq<usize>, rhs: Seq<usize>) -> Seq<usize> {
    Seq::new(broadcast_rank(lhs, rhs) as nat, |i: int| broadcast_extent(lhs, rhs, i))
}

/// A descriptor derived by the checked constructor passes the audit
/// whenever the broadcast output's element count fits in `usize`: the
/// constructor always records an output shape, and it is the broadcast one.
pub proof fn lemma_checked_descriptor_passes_audit(
    d: ElementwiseDescriptor,
    lhs: Seq<usize>,
    rhs: Seq<usize>,
)
    requires
        d.spec_output().len() == broadcast_rank(lhs, rhs),
        forall|i: int|
            0 <= i < broadcast_rank(lhs, rhs) ==> #[trigger] d.spec_output()[i] == broadcast_extent(
                lhs,
                rhs,
                i,
            ),
        checked_numel(broadcast_shape(lhs, rhs), broadcast_rank(lhs, rhs)) is Some,
    ensures
        descriptor_indexable(d),
{
    assert(d.spec_output() =~= broadcast_shape(lhs, rhs));
}

} // verus!
