//! Loss functions: how each one reduces, and the shape of what it returns.
//!
//! The reduction is chosen by a marker type: with `NoneReduction` a loss
//! keeps one value per element (cross entropy: per sample, dropping the class
//! axis); with `Mean` or `Sum` it returns a scalar.
use vstd::prelude::*;
use std::marker::PhantomData;

verus! {

/// How a loss combines its per-element values.
#[derive(Debug, Clone, Copy, PartialEq, Eq, Structural)]
pub enum Reduction {
    /// Keep every per-element value.
    Unreduced,
    /// Average them.
    Mean,
    /// Add them up.
    Sum,
}

/// A reduction chosen at the type level.
pub trait ReductionMode {
    /// The reduction this marker selects.
    spec fn spec_reduction() -> Reduction;

    /// The reduction this marker selects.
    fn as_enum() -> (r: Reduction)
        ensures
            r == Self::spec_reduction(),
    ;
}

/// Average the per-element losses.
#[derive(Debug, Clone, Copy, Default)]
pub struct Mean;

/// Sum the per-element losses.
#[derive(Debug, Clone, Copy, Default)]
pub struct Sum;

/// Keep the per-element losses.
#[derive(Debug, Clone, Copy, Default)]
pub struct NoneReduction;

impl ReductionMode for Mean {
    open spec fn spec_reduction() -> Reduction {
        Reduction::Mean
    }

    fn as_enum() -> (r: Reduction) {
        Reduction::Mean
    }
}

impl ReductionMode for Sum {
    open spec fn spec_reduction() -> Reduction {
        Reduction::Sum
    }

    fn as_enum() -> (r: Reduction) {
        Reduction::Sum
    }
}

impl ReductionMode for NoneReduction {
    open spec fn spec_reduction() -> Reduction {
        Reduction::Unreduced
    }

    fn as_enum() -> (r: Reduction) {
        Reduction::Unreduced
    }
}

/// The output extents of an elementwise loss: the prediction's extents when
/// nothing is reduced, a scalar otherwise.
pub open spec fn elementwise_loss_dims(reduction: Reduction, pred: Seq<usize>) -> Seq<usize> {
    if reduction == Reduction::Unreduced {
        pred
    } else {
        Seq::empty()
    }
}

fn elementwise_output(reduction: Reduction, pred: &[usize]) -> (r: Vec<usize>)
    ensures
        r@ == elementwise_loss_dims(reduction, pred@),
{
    let mut out: Vec<usize> = Vec::new();
    if reduction == Reduction::Unreduced {
        let mut i: usize = 0;
        while i < pred.len()
            invariant
                i <= pred@.len(),
                out@ == pred@.take(i as int),
            decreases pred.len() - i,
        {
            out.push(pred[i]);
            i = i + 1;
            proof {
                assert(pred@.take(i as int) =~= pred@.take(i - 1).push(pred@[i - 1]));
            }
        }
        proof {
            assert(pred@.take(i as int) =~= pred@);
        }
    }
    out
}

/// Mean squared error.
#[derive(Debug)]
pub struct MSELoss<R>(PhantomData<R>);

/// Mean absolute error.
#[derive(Debug)]
pub struct L1Loss<R>(PhantomData<R>);

/// Binary cross entropy on logits.
#[derive(Debug)]
pub struct BCEWithLogitsLoss<R>(PhantomData<R>);

/// Cross entropy between class scores and class indices.
#[derive(Debug)]
pub struct CrossEntropyLoss<R>(PhantomData<R>);

impl<R: ReductionMode> MSELoss<R> {
    /// A loss reducing with `R`.
    pub fn new() -> (r: MSELoss<R>) {
        MSELoss(PhantomData)
    }

    /// The extents of the loss for predictions of extents `pred`.
    pub fn output_dims(&self, pred: &[usize]) -> (r: Vec<usize>)
        ensures
            r@ == elementwise_loss_dims(R::spec_reduction(), pred@),
    {
        elementwise_output(R::as_enum(), pred)
    }
}

impl<R: ReductionMode> L1Loss<R> {
    /// A loss reducing with `R`.
    pub fn new() -> (r: L1Loss<R>) {
        L1Loss(PhantomData)
    }

    /// The extents of the loss for predictions of extents `pred`.
    pub fn output_dims(&self, pred: &[usize]) -> (r: Vec<usize>)
        ensures
            r@ == elementwise_loss_dims(R::spec_reduction(), pred@),
    {
        elementwise_output(R::as_enum(), pred)
    }
}

impl<R: ReductionMode> BCEWithLogitsLoss<R> {
    /// A loss reducing with `R`.
    pub fn new() -> (r: BCEWithLogitsLoss<R>) {
        BCEWithLogitsLoss(PhantomData)
    }

    /// The extents of the loss for predictions of extents `pred`.
    pub fn output_dims(&self, pred: &[usize]) -> (r: Vec<usize>)
        ensures
            r@ == elementwise_loss_dims(R::spec_reduction(), pred@),
    {
        elementwise_output(R::as_enum(), pred)
    }
}

/// The output extents of cross entropy: with no reduction, the prediction's
/// extents without the class axis (axis 1); a scalar otherwise.
pub open spec fn cross_entropy_dims(reduction: Reduction, pred: Seq<usize>) -> Seq<usize> {
    if reduction == Reduction::Unreduced && pred.len() > 0 {
        pred.remove(1)
    } else {
        Seq::empty()
    }
}

impl<R: ReductionMode> CrossEntropyLoss<R> {
    /// A loss reducing with `R`.
    pub fn new() -> (r: CrossEntropyLoss<R>) {
        CrossEntropyLoss(PhantomData)
    }

    /// The extents of the loss for class scores of extents `pred`, laid out
    /// `[batch, classes, ...]`.
    pub fn output_dims(&self, pred: &[usize]) -> (r: Vec<usize>)
        requires
            R::spec_reduction() == Reduction::Unreduced ==> pred@.len() != 1,
        ensures
            r@ == cross_entropy_dims(R::spec_reduction(), pred@),
    {
        let mut out = elementwise_output(R::as_enum(), pred);
        if out.len() > 0 {
            out.remove(1);
        }
        out
    }
}

} // verus!
