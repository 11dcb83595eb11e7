use incin_core::error::{OperationKind, ShapeError};
use incin_core::exec::axes::{AxisMask, AxisSet, DescriptorSchemaVersion, ReduceOp};
use incin_core::exec::descriptor::ElementwiseDescriptor;
use incin_core::exec::validated::{agree, seal_output, ShapeEvidence, Validated};
use incin_core::shapes::{DimKind, ProofLevel, ShapeType};

#[test]
fn broadcasting_aligns_from_the_right() {
    let v = ElementwiseDescriptor::infer_runtime(&[4, 1, 3], &[2, 1]).unwrap();
    assert_eq!(v.proof_level(), ProofLevel::Dynamic);
    assert_eq!(v.descriptor().output(), &vec![4, 2, 3]);
    assert!(ElementwiseDescriptor::infer_runtime(&[2, 3], &[4, 3]).is_err());
    let scalar = ElementwiseDescriptor::infer_runtime(&[], &[]).unwrap();
    assert_eq!(scalar.descriptor().output(), &Vec::<usize>::new());
}

#[test]
fn agreement_reports_the_first_disagreement() {
    assert_eq!(agree(OperationKind::Add, &[2, 3], &[2, 3]), Ok(()));
    assert_eq!(
        agree(OperationKind::Add, &[2, 3], &[2]),
        Err(ShapeError::RankMismatch { operation: OperationKind::Add, expected: 2, actual: 1 })
    );
    assert_eq!(
        agree(OperationKind::MatMul, &[2, 3, 4], &[2, 5, 6]),
        Err(ShapeError::DimensionMismatch { operation: OperationKind::MatMul, axis: 1, lhs: 3, rhs: 5 })
    );
}

#[test]
fn sealing_checks_the_output_against_its_type() {
    let v = ElementwiseDescriptor::infer_runtime(&[2, 3], &[2, 3]).unwrap();
    let typed = ShapeType::Dims(vec![DimKind::Static(2), DimKind::Static(3)]);
    let sealed = seal_output(OperationKind::Add, 2, &typed, v).unwrap();
    assert_eq!(sealed.proof_level(), ProofLevel::Static);
    assert_eq!(sealed.shape_evidence().static_rank(), Some(2));
    assert_eq!(sealed.shape_evidence().static_numel(), Some(6));
    let v = ElementwiseDescriptor::infer_runtime(&[2, 3], &[2, 3]).unwrap();
    let wrong = ShapeType::Dims(vec![DimKind::Static(3), DimKind::Runtime]);
    assert_eq!(
        seal_output(OperationKind::Add, 2, &wrong, v).err(),
        Some(ShapeError::TargetShapeRejected { operation: OperationKind::Add, rank: 2 })
    );
}

#[test]
fn evidence_reads_the_type() {
    let e = ShapeEvidence::of(&ShapeType::Ranked(3));
    assert_eq!(e.proof_level(), ProofLevel::Mixed);
    assert_eq!(e.static_rank(), Some(3));
    assert_eq!(e.static_numel(), None);
    let d = ShapeEvidence::dynamic();
    assert_eq!((d.proof_level(), d.static_rank()), (ProofLevel::Dynamic, None));
    let v = Validated::new_with_evidence(1u8, e);
    assert_eq!(v.proof_level(), ProofLevel::Mixed);
}

#[test]
fn shape_types_accept_matching_runtime_dims() {
    let t = ShapeType::Dims(vec![DimKind::Static(2), DimKind::Runtime]);
    assert!(t.accepts(&[2, 9]));
    assert!(!t.accepts(&[3, 9]));
    assert!(!t.accepts(&[2]));
    assert!(ShapeType::Ranked(2).accepts(&[5, 5]));
    assert!(!ShapeType::Ranked(2).accepts(&[5]));
    assert!(ShapeType::Unranked.accepts(&[]));
    assert_eq!(t.static_rank(), Some(2));
    assert_eq!(ShapeType::Dims(vec![DimKind::Static(4), DimKind::Static(5)]).static_numel(), Some(20));
    assert_eq!(ShapeType::Dims(vec![DimKind::Static(usize::MAX), DimKind::Static(2)]).static_numel(), None);
}

#[test]
fn schema_versions_are_compatible_only_when_equal() {
    let current = DescriptorSchemaVersion::current();
    assert_eq!(current.get(), 3);
    assert!(current.is_compatible_with(DescriptorSchemaVersion::new(3)));
    assert!(!current.is_compatible_with(DescriptorSchemaVersion::new(2)));
}

#[test]
fn reduce_ops_have_stable_names() {
    let names: Vec<&str> = [ReduceOp::Sum, ReduceOp::Mean, ReduceOp::Max, ReduceOp::Min, ReduceOp::Prod]
        .iter()
        .map(|op| op.as_str())
        .collect();
    assert_eq!(names, vec!["sum", "mean", "max", "min", "prod"]);
}

#[test]
fn axis_sets_hold_each_axis_once_in_order() {
    let set = AxisSet::empty().insert(5).insert(1).insert(5);
    assert_eq!(set.axes(), vec![1, 5]);
    assert_eq!(set.count(), 2);
    assert!(!set.is_contiguous_run());
    let wide = set.insert(100).insert(64);
    assert_eq!(wide.axes(), vec![1, 5, 64, 100]);
    assert!(AxisSet::all_below(4).is_contiguous_run());
    assert_eq!(AxisSet::all_below(4).count(), 4);
    assert!(AxisSet::empty().is_empty());
    assert!(AxisMask::empty().insert(64).is_none());
    assert_eq!(AxisMask::empty().insert(2).unwrap().count(), 1);
}

#[test]
fn axes_outside_the_rank_or_repeated_are_refused() {
    assert!(AxisSet::try_from_axes(OperationKind::Reduction, 3, &[0, 2]).is_ok());
    assert_eq!(
        AxisSet::try_from_axes(OperationKind::Reduction, 3, &[0, 3]).err(),
        Some(ShapeError::InvalidParameter { operation: OperationKind::Reduction, parameter: "axis", value: 3 })
    );
    assert_eq!(
        AxisSet::try_from_axes(OperationKind::SumDim, 3, &[1, 1]).err(),
        Some(ShapeError::InvalidParameter { operation: OperationKind::SumDim, parameter: "axis", value: 1 })
    );
}
