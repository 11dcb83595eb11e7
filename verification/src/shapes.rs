//! A value-level account of how much of a shape the compiler settled.
//!
//! A shape type is either unranked, ranked with runtime extents, or a list of
//! axes each of which is a compile-time constant or a runtime extent.
//! [`ProofLevel::of`] reads the proof level off such a description.
use vstd::prelude::*;

verus! {

/// How much of a shape was proved before the program ran.
#[derive(Debug, Clone, Copy, PartialEq, Eq, Structural)]
pub enum ProofLevel {
    /// Rank and every extent are compile-time constants.
    Static,
    /// The rank is known; some extent is only known at runtime.
    Mixed,
    /// Not even the rank is known before the value exists.
    Dynamic,
}

/// One axis of a shape type.
#[derive(Debug, Clone, Copy, PartialEq, Eq, Structural)]
pub enum DimKind {
    /// An extent fixed by the type.
    Static(usize),
    /// An extent supplied at runtime.
    Runtime,
}

/// A shape type, described by value.
#[derive(Debug, Clone, PartialEq, Eq)]
pub enum ShapeType {
    /// No rank information at all.
    Unranked,
    /// A known rank with runtime extents.
    Ranked(usize),
    /// One entry per axis, outermost first.
    Dims(Vec<DimKind>),
}

/// Numeric strength of a level: a larger number settles more.
pub open spec fn strength(p: ProofLevel) -> int {
    match p {
        ProofLevel::Static => 2,
        ProofLevel::Mixed => 1,
        ProofLevel::Dynamic => 0,
    }
}

/// The weaker of two levels.
pub open spec fn spec_meet(a: ProofLevel, b: ProofLevel) -> ProofLevel {
    if strength(a) <= strength(b) { a } else { b }
}

/// Whether every axis in `dims` is a compile-time constant.
pub open spec fn all_static(dims: Seq<DimKind>) -> bool {
    forall|i: int| 0 <= i < dims.len() ==> (#[trigger] dims[i]) is Static
}

/// The level a shape type proves.
pub open spec fn spec_level_of(shape: ShapeType) -> ProofLevel {
    match shape {
        ShapeType::Unranked => ProofLevel::Dynamic,
        ShapeType::Ranked(_) => ProofLevel::Mixed,
        ShapeType::Dims(dims) => if all_static(dims@) {
            ProofLevel::Static
        } else {
            ProofLevel::Mixed
        },
    }
}

/// The rank a shape type fixes, if any.
pub open spec fn spec_static_rank(shape: ShapeType) -> Option<usize> {
    match shape {
        ShapeType::Unranked => None,
        ShapeType::Ranked(rank) => Some(rank),
        ShapeType::Dims(dims) => Some(dims.len()),
    }
}

/// The running product of the first `n` extents, computed the way a checked
/// multiplication computes it: `None` as soon as an axis is a runtime extent
/// or the running product leaves `usize`.
pub open spec fn checked_static_product(dims: Seq<DimKind>, n: int) -> Option<usize>
    decreases n,
{
    if n <= 0 {
        Some(1usize)
    } else {
        match checked_static_product(dims, n - 1) {
            None => None,
            Some(p) => match dims[n - 1] {
                DimKind::Runtime => None,
                DimKind::Static(e) => if p * e <= usize::MAX {
                    Some((p * e) as usize)
                } else {
                    None
                },
            },
        }
    }
}

/// The element count a shape type fixes: only a fully static shape has one,
/// and only when every running product fits in `usize`.
pub open spec fn spec_static_numel(shape: ShapeType) -> Option<usize> {
    match shape {
        ShapeType::Dims(dims) => checked_static_product(dims@, dims@.len() as int),
        _ => None,
    }
}

impl ProofLevel {
    /// The weaker of `self` and `other`: folding operands with `meet`
    /// yields the level the whole operation can claim.
    pub fn meet(self, other: ProofLevel) -> (r: ProofLevel)
        ensures
            r == spec_meet(self, other),
    {
        match (self, other) {
            (ProofLevel::Dynamic, _) | (_, ProofLevel::Dynamic) => ProofLevel::Dynamic,
            (ProofLevel::Mixed, _) | (_, ProofLevel::Mixed) => ProofLevel::Mixed,
            _ => ProofLevel::Static,
        }
    }

    /// Whether every extent was proved at compile time.
    pub fn is_static(self) -> (r: bool)
        ensures
            r <==> self == ProofLevel::Static,
    {
        matches!(self, ProofLevel::Static)
    }

    /// Whether at least the rank was proved at compile time.
    pub fn has_static_rank(self) -> (r: bool)
        ensures
            r <==> self != ProofLevel::Dynamic,
    {
        !matches!(self, ProofLevel::Dynamic)
    }

    /// The level a shape type proves: `Static` only when every axis is a
    /// constant, `Mixed` when the rank is known, `Dynamic` otherwise.
    pub fn of(shape: &ShapeType) -> (r: ProofLevel)
        ensures
            r == spec_level_of(*shape),
    {
        match shape {
            ShapeType::Unranked => ProofLevel::Dynamic,
            ShapeType::Ranked(_) => ProofLevel::Mixed,
            ShapeType::Dims(dims) => {
                let mut i: usize = 0;
                while i < dims.len()
                    invariant
                        i <= dims.len(),
                        forall|j: int| 0 <= j < i ==> (#[trigger] dims@[j]) is Static,
                        spec_level_of(*shape) == (if all_static(dims@) {
                            ProofLevel::Static
                        } else {
                            ProofLevel::Mixed
                        }),
                    decreases dims.len() - i,
                {
                    if let DimKind::Runtime = dims[i] {
                        return ProofLevel::Mixed;
                    }
                    i = i + 1;
                }
                ProofLevel::Static
            },
        }
    }
}

impl ShapeType {
    /// The rank this shape type fixes.
    pub fn static_rank(&self) -> (r: Option<usize>)
        ensures
            r == spec_static_rank(*self),
    {
        match self {
            ShapeType::Unranked => None,
            ShapeType::Ranked(rank) => Some(*rank),
            ShapeType::Dims(dims) => Some(dims.len()),
        }
    }

    /// The element count this shape type fixes.
    pub fn static_numel(&self) -> (r: Option<usize>)
        ensures
            r == spec_static_numel(*self),
    {
        match self {
            ShapeType::Dims(dims) => {
                let mut i: usize = 0;
                let mut product: usize = 1;
                while i < dims.len()
                    invariant
                        i <= dims.len(),
                        checked_static_product(dims@, i as int) == Some(product),
                        spec_static_numel(*self) == checked_static_product(dims@, dims@.len() as int),
                    decreases dims.len() - i,
                {
                    match dims[i] {
                        DimKind::Runtime => {
                            proof {
                                lemma_none_persists(dims@, i as int + 1, dims@.len() as int);
                            }
                            return None;
                        },
                        DimKind::Static(extent) => {
                            match product.checked_mul(extent) {
                                Some(next) => {
                                    product = next;
                                },
                                None => {
                                    proof {
                                        lemma_none_persists(dims@, i as int + 1, dims@.len() as int);
                                    }
                                    return None;
                                },
                            }
                        },
                    }
                    i = i + 1;
                }
                Some(product)
            },
            _ => None,
        }
    }
}

/// The element count of a runtime shape, computed with checked
/// multiplication: `None` as soon as a running product leaves `usize`.
pub open spec fn checked_numel(dims: Seq<usize>, n: int) -> Option<usize>
    decreases n,
{
    if n <= 0 {
        Some(1usize)
    } else {
        match checked_numel(dims, n - 1) {
            None => None,
            Some(p) => if p * dims[n - 1] <= usize::MAX {
                Some((p * dims[n - 1]) as usize)
            } else {
                None
            },
        }
    }
}

proof fn lemma_numel_none_persists(dims: Seq<usize>, m: int, n: int)
    requires
        0 <= m <= n,
        checked_numel(dims, m) is None,
    ensures
        checked_numel(dims, n) is None,
    decreases n - m,
{
    if m < n {
        lemma_numel_none_persists(dims, m, n - 1);
    }
}

/// The element count of `dims`, or `None` when it does not fit in `usize`.
pub fn checked_numel_exec(dims: &[usize]) -> (r: Option<usize>)
    ensures
        r == checked_numel(dims@, dims@.len() as int),
{
    let mut i: usize = 0;
    let mut product: usize = 1;
    while i < dims.len()
        invariant
            i <= dims@.len(),
            checked_numel(dims@, i as int) == Some(product),
        decreases dims.len() - i,
    {
        match product.checked_mul(dims[i]) {
            Some(next) => {
                product = next;
            },
            None => {
                proof {
                    lemma_numel_none_persists(dims@, i as int + 1, dims@.len() as int);
                }
                return None;
            },
        }
        i = i + 1;
    }
    Some(product)
}

/// An owned copy of a runtime shape.
pub fn dims_to_vec(dims: &[usize]) -> (r: Vec<usize>)
    ensures
        r@ == dims@,
{
    let mut out: Vec<usize> = Vec::new();
    let mut i: usize = 0;
    while i < dims.len()
        invariant
            i <= dims@.len(),
            out@ == dims@.take(i as int),
        decreases dims.len() - i,
    {
        out.push(dims[i]);
        i = i + 1;
        assert(out@ =~= dims@.take(i as int));
    }
    assert(dims@.take(dims@.len() as int) =~= dims@);
    out
}

/// Whether runtime extents `dims` inhabit `shape`: the rank agrees where the
/// type fixes one, and every static extent is the runtime extent.
pub open spec fn dims_inhabit(shape: ShapeType, dims: Seq<usize>) -> bool {
    match shape {
        ShapeType::Unranked => true,
        ShapeType::Ranked(rank) => dims.len() == rank,
        ShapeType::Dims(kinds) => kinds@.len() == dims.len() && forall|i: int|
            0 <= i < dims.len() ==> match #[trigger] kinds@[i] {
                DimKind::Static(e) => e == dims[i],
                DimKind::Runtime => true,
            },
    }
}

impl ShapeType {
    /// Whether runtime extents `dims` inhabit this shape type.
    pub fn accepts(&self, dims: &[usize]) -> (r: bool)
        ensures
            r == dims_inhabit(*self, dims@),
    {
        match self {
            ShapeType::Unranked => true,
            ShapeType::Ranked(rank) => dims.len() == *rank,
            ShapeType::Dims(kinds) => {
                if kinds.len() != dims.len() {
                    return false;
                }
                let mut i: usize = 0;
                while i < dims.len()
                    invariant
                        i <= dims@.len(),
                        kinds@.len() == dims@.len(),
                        dims_inhabit(*self, dims@) == (forall|j: int|
                            0 <= j < dims@.len() ==> match #[trigger] kinds@[j] {
                                DimKind::Static(e) => e == dims@[j],
                                DimKind::Runtime => true,
                            }),
                        forall|j: int|
                            0 <= j < i ==> match #[trigger] kinds@[j] {
                                DimKind::Static(e) => e == dims@[j],
                                DimKind::Runtime => true,
                            },
                    decreases dims.len() - i,
                {
                    if let DimKind::Static(extent) = kinds[i] {
                        if extent != dims[i] {
                            return false;
                        }
                    }
                    i = i + 1;
                }
                true
            },
        }
    }
}

/// A failed running product stays failed.
proof fn lemma_none_persists(dims: Seq<DimKind>, m: int, n: int)
    requires
        0 <= m <= n,
        checked_static_product(dims, m) is None,
    ensures
        checked_static_product(dims, n) is None,
    decreases n - m,
{
    if m < n {
        lemma_none_persists(dims, m, n - 1);
    }
}

/// Meet is the greatest lower bound of the order Static > Mixed > Dynamic:
/// commutative, associative, idempotent, and `Static` is its identity.
pub proof fn lemma_meet_laws(a: ProofLevel, b: ProofLevel, c: ProofLevel)
    ensures
        spec_meet(a, b) == spec_meet(b, a),
        spec_meet(spec_meet(a, b), c) == spec_meet(a, spec_meet(b, c)),
        spec_meet(a, a) == a,
        spec_meet(ProofLevel::Static, a) == a,
        strength(spec_meet(a, b)) <= strength(a),
        strength(spec_meet(a, b)) <= strength(b),
{
}

} // verus!
