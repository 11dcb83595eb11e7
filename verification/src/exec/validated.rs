//! The seal that makes a descriptor worth trusting.
//!
//! A descriptor is internally consistent by construction, but a backend needs
//! to know that the operation was checked against the frontend's shape proof.
//! [`Validated`] is that statement, together with the [`ProofLevel`] that
//! justified it, so a backend can tell a shape proved at compile time from one
//! checked at runtime.
use vstd::prelude::*;
use crate::error::{OperationKind, ShapeError};
use crate::shapes::{
    ProofLevel, ShapeType, spec_level_of, spec_static_numel, spec_static_rank, checked_numel,
    checked_numel_exec, dims_inhabit,
};

verus! {

/// Runtime evidence lowered from a typed frontend proof: the only shape
/// information that crosses the backend boundary.
#[derive(Debug, Clone, Copy, PartialEq, Eq, Structural)]
pub struct ShapeEvidence {
    proof: ProofLevel,
    static_rank: Option<usize>,
    static_numel: Option<usize>,
}

impl ShapeEvidence {
    /// The proof level carried.
    pub closed spec fn spec_proof(self) -> ProofLevel {
        self.proof
    }

    /// The rank proved statically, if any.
    pub closed spec fn spec_static_rank(self) -> Option<usize> {
        self.static_rank
    }

    /// The element count proved statically, if any.
    pub closed spec fn spec_static_numel(self) -> Option<usize> {
        self.static_numel
    }

    /// Evidence that claims nothing.
    pub fn dynamic() -> (r: ShapeEvidence)
        ensures
            r.spec_proof() == ProofLevel::Dynamic,
            r.spec_static_rank() is None,
            r.spec_static_numel() is None,
    {
        ShapeEvidence { proof: ProofLevel::Dynamic, static_rank: None, static_numel: None }
    }

    /// The evidence a shape type carries: its level, rank and element count,
    /// read off the type rather than asserted by a caller.
    pub fn of(shape: &ShapeType) -> (r: ShapeEvidence)
        ensures
            r.spec_proof() == spec_level_of(*shape),
            r.spec_static_rank() == spec_static_rank(*shape),
            r.spec_static_numel() == spec_static_numel(*shape),
    {
        ShapeEvidence {
            proof: ProofLevel::of(shape),
            static_rank: shape.static_rank(),
            static_numel: shape.static_numel(),
        }
    }

    /// The proof level carried.
    pub fn proof_level(self) -> (r: ProofLevel)
        ensures
            r == self.spec_proof(),
    {
        self.proof
    }

    /// The rank proved statically, if any.
    pub fn static_rank(self) -> (r: Option<usize>)
        ensures
            r == self.spec_static_rank(),
    {
        self.static_rank
    }

    /// The element count proved statically, if any.
    pub fn static_numel(self) -> (r: Option<usize>)
        ensures
            r == self.spec_static_numel(),
    {
        self.static_numel
    }
}

/// A descriptor accepted by the backend execution contract.
pub trait ExecutionDescriptor {
    /// The validated output shape, when the descriptor carries one.
    spec fn spec_output_shape(&self) -> Option<Seq<usize>>;

    /// Return the validated output shape when the descriptor carries one.
    fn output_shape(&self) -> (r: Option<&Vec<usize>>)
        ensures
            match r {
                Some(v) => self.spec_output_shape() == Some(v@),
                None => self.spec_output_shape() is None,
            },
    ;
}

/// A descriptor together with the proof that produced it.
#[derive(Debug, Copy, PartialEq, Eq)]
pub struct Validated<O> {
    descriptor: O,
    proof: ProofLevel,
    evidence: ShapeEvidence,
}

impl<O: Clone> Clone for Validated<O> {
    fn clone(&self) -> (r: Validated<O>)
        ensures
            r.spec_proof() == self.spec_proof(),
            r.spec_evidence() == self.spec_evidence(),
            cloned(self.spec_descriptor(), r.spec_descriptor()),
    {
        proof {
            use_type_invariant(self);
        }
        Validated { descriptor: self.descriptor.clone(), proof: self.proof, evidence: self.evidence }
    }
}

impl<O> Validated<O> {
    /// The level the seal records is the level inside its evidence.
    #[verifier::type_invariant]
    closed spec fn seal_agrees(self) -> bool {
        self.proof == self.evidence.proof
    }

    /// The sealed descriptor.
    pub closed spec fn spec_descriptor(self) -> O {
        self.descriptor
    }

    /// The level the seal records.
    pub closed spec fn spec_proof(self) -> ProofLevel {
        self.proof
    }

    /// The evidence the seal records.
    pub closed spec fn spec_evidence(self) -> ShapeEvidence {
        self.evidence
    }

    /// Seal `descriptor` with the proof that justified it; the evidence
    /// carries the level and no static geometry.
    pub fn new(descriptor: O, proof: ProofLevel) -> (r: Validated<O>)
        ensures
            r.spec_descriptor() == descriptor,
            r.spec_proof() == proof,
            r.spec_evidence().spec_proof() == proof,
            r.spec_evidence().spec_static_rank() is None,
            r.spec_evidence().spec_static_numel() is None,
    {
        Validated {
            descriptor,
            proof,
            evidence: ShapeEvidence { proof, static_rank: None, static_numel: None },
        }
    }

    /// Seal `descriptor` with full evidence; the level is the evidence's.
    pub fn new_with_evidence(descriptor: O, evidence: ShapeEvidence) -> (r: Validated<O>)
        ensures
            r.spec_descriptor() == descriptor,
            r.spec_proof() == evidence.spec_proof(),
            r.spec_evidence() == evidence,
    {
        Validated { descriptor, proof: evidence.proof, evidence }
    }

    /// The resolved operation.
    pub fn descriptor(&self) -> (r: &O)
        ensures
            *r == self.spec_descriptor(),
    {
        &self.descriptor
    }

    /// How much of the operation the compiler settled: always the level of
    /// the evidence the seal carries.
    pub fn proof_level(&self) -> (r: ProofLevel)
        ensures
            r == self.spec_proof(),
            r == self.spec_evidence().spec_proof(),
    {
        proof {
            use_type_invariant(self);
        }
        self.proof
    }

    /// Typed shape facts lowered alongside this validated descriptor; their
    /// level is the seal's.
    pub fn shape_evidence(&self) -> (r: ShapeEvidence)
        ensures
            r == self.spec_evidence(),
            r.spec_proof() == self.spec_proof(),
    {
        proof {
            use_type_invariant(self);
        }
        self.evidence
    }

    /// Take the descriptor back out, discarding the proof.
    pub fn into_descriptor(self) -> (r: O)
        ensures
            r == self.spec_descriptor(),
    {
        self.descriptor
    }
}

/// Whether a descriptor's own invariant holds: it carries no output shape,
/// or one whose element count fits in `usize`.
pub open spec fn descriptor_indexable<O: ExecutionDescriptor>(descriptor: O) -> bool {
    match descriptor.spec_output_shape() {
        None => true,
        Some(shape) => checked_numel(shape, shape.len() as int) is Some,
    }
}

impl<O: ExecutionDescriptor> Validated<O> {
    /// Re-derive the descriptor's own invariant and report disagreement: an
    /// output shape must be indexable.
    pub fn audit(&self) -> (r: Result<(), ShapeError>)
        ensures
            r is Ok <==> descriptor_indexable(self.spec_descriptor()),
            r is Err ==> r == Err::<(), ShapeError>(
                ShapeError::ElementCountOverflow { operation: OperationKind::Storage },
            ),
    {
        match self.descriptor.output_shape() {
            None => Ok(()),
            Some(shape) => match checked_numel_exec(shape.as_slice()) {
                Some(_) => Ok(()),
                None => Err(ShapeError::ElementCountOverflow { operation: OperationKind::Storage }),
            },
        }
    }
}

/// Check that the frontend's computed shape and the descriptor's shape agree
/// rank for rank and axis for axis; the first disagreement is reported.
pub fn agree(operation: OperationKind, frontend: &[usize], descriptor: &[usize]) -> (r: Result<
    (),
    ShapeError,
>)
    ensures
        frontend@.len() != descriptor@.len() ==> r == Err::<(), ShapeError>(
            ShapeError::RankMismatch {
                operation,
                expected: frontend@.len() as usize,
                actual: descriptor@.len() as usize,
            },
        ),
        frontend@.len() == descriptor@.len() ==> (r is Ok <==> frontend@ == descriptor@),
        frontend@.len() == descriptor@.len() ==> (r matches Err(e) ==> exists|i: int|
            0 <= i < frontend@.len() && frontend@[i] != descriptor@[i] && (forall|j: int|
                0 <= j < i ==> frontend@[j] == descriptor@[j]) && e == ShapeError::DimensionMismatch {
                operation,
                axis: i as usize,
                lhs: frontend@[i],
                rhs: descriptor@[i],
            }),
{
    if frontend.len() != descriptor.len() {
        return Err(
            ShapeError::RankMismatch {
                operation,
                expected: frontend.len(),
                actual: descriptor.len(),
            },
        );
    }
    let mut axis: usize = 0;
    while axis < frontend.len()
        invariant
            axis <= frontend@.len(),
            frontend@.len() == descriptor@.len(),
            forall|j: int| 0 <= j < axis ==> frontend@[j] == descriptor@[j],
        decreases frontend.len() - axis,
    {
        if frontend[axis] != descriptor[axis] {
            return Err(
                ShapeError::DimensionMismatch {
                    operation,
                    axis,
                    lhs: frontend[axis],
                    rhs: descriptor[axis],
                },
            );
        }
        axis = axis + 1;
    }
    assert(frontend@ =~= descriptor@);
    Ok(())
}

/// Check the descriptor's runtime output against the frontend output type
/// `output_type` and seal it with that type's full evidence. A descriptor
/// without an output shape is rejected with `fallback_rank`; one whose
/// output the type does not admit is rejected with its actual rank.
pub fn seal_output<O: ExecutionDescriptor>(
    operation: OperationKind,
    fallback_rank: usize,
    output_type: &ShapeType,
    descriptor: Validated<O>,
) -> (r: Result<Validated<O>, ShapeError>)
    ensures
        match descriptor.spec_descriptor().spec_output_shape() {
            None => r == Err::<Validated<O>, ShapeError>(
                ShapeError::TargetShapeRejected { operation, rank: fallback_rank },
            ),
            Some(shape) => if dims_inhabit(*output_type, shape) {
                r matches Ok(v) && v.spec_descriptor() == descriptor.spec_descriptor()
                    && v.spec_proof() == spec_level_of(*output_type)
                    && v.spec_evidence().spec_static_rank() == spec_static_rank(*output_type)
                    && v.spec_evidence().spec_static_numel() == spec_static_numel(*output_type)
            } else {
                r == Err::<Validated<O>, ShapeError>(
                    ShapeError::TargetShapeRejected { operation, rank: shape.len() as usize },
                )
            },
        },
{
    let accepted = match descriptor.descriptor().output_shape() {
        None => {
            return Err(ShapeError::TargetShapeRejected { operation, rank: fallback_rank });
        },
        Some(actual) => {
            if !output_type.accepts(actual.as_slice()) {
                return Err(ShapeError::TargetShapeRejected { operation, rank: actual.len() });
            }
            true
        },
    };
    let evidence = ShapeEvidence::of(output_type);
    Ok(Validated::new_with_evidence(descriptor.into_descriptor(), evidence))
}

} // verus!
