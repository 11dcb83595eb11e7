use incin_core::exec::descriptor::ElementwiseDescriptor;
use incin_core::exec::validated::Validated;
use incin_core::shapes::{DimKind, ProofLevel, ShapeType};

fn static23() -> ShapeType {
    ShapeType::Dims(vec![DimKind::Static(2), DimKind::Static(3)])
}

fn mixed23() -> ShapeType {
    ShapeType::Dims(vec![DimKind::Static(2), DimKind::Runtime])
}

fn mixed32() -> ShapeType {
    ShapeType::Dims(vec![DimKind::Runtime, DimKind::Static(3)])
}

fn mixed_dyn() -> ShapeType {
    ShapeType::Dims(vec![DimKind::Runtime, DimKind::Runtime])
}

#[test]
fn a_fully_typed_shape_proves_itself_statically() {
    assert_eq!(ProofLevel::of(&static23()), ProofLevel::Static);
    assert_eq!(ProofLevel::of(&ShapeType::Dims(vec![])), ProofLevel::Static);
}

#[test]
fn one_runtime_axis_weakens_the_whole_shape() {
    assert_eq!(ProofLevel::of(&mixed23()), ProofLevel::Mixed);
    assert_eq!(ProofLevel::of(&mixed32()), ProofLevel::Mixed);
    assert_eq!(ProofLevel::of(&mixed_dyn()), ProofLevel::Mixed);
}

#[test]
fn a_ranked_shape_knows_its_rank_but_not_its_extents() {
    assert_eq!(ProofLevel::of(&ShapeType::Ranked(3)), ProofLevel::Mixed);
    assert!(ProofLevel::of(&ShapeType::Ranked(3)).has_static_rank());
    assert!(!ProofLevel::of(&ShapeType::Ranked(3)).is_static());
}

#[test]
fn an_unranked_shape_proves_nothing_before_it_exists() {
    assert_eq!(ProofLevel::of(&ShapeType::Unranked), ProofLevel::Dynamic);
    assert!(!ProofLevel::of(&ShapeType::Unranked).has_static_rank());
}

#[test]
fn a_named_axis_is_typed_but_not_statically_sized() {
    // A named axis carries no extent: as a value it is a runtime axis.
    assert_eq!(
        ProofLevel::of(&ShapeType::Dims(vec![DimKind::Runtime, DimKind::Static(3)])),
        ProofLevel::Mixed
    );
}

#[test]
fn meet_takes_the_weaker_operand() {
    assert_eq!(ProofLevel::Static.meet(ProofLevel::Mixed), ProofLevel::Mixed);
    assert_eq!(ProofLevel::Mixed.meet(ProofLevel::Dynamic), ProofLevel::Dynamic);
    assert_eq!(ProofLevel::Static.meet(ProofLevel::Static), ProofLevel::Static);
}

#[test]
fn meet_is_commutative_idempotent_and_topped_by_static() {
    let levels = [ProofLevel::Static, ProofLevel::Mixed, ProofLevel::Dynamic];
    for a in levels {
        assert_eq!(a.meet(a), a, "idempotent");
        assert_eq!(ProofLevel::Static.meet(a), a, "Static is the identity");
        for b in levels {
            assert_eq!(a.meet(b), b.meet(a), "commutative");
            for c in levels {
                assert_eq!(
                    a.meet(b).meet(c),
                    a.meet(b.meet(c)),
                    "associative, so folding N operands is order-independent"
                );
            }
        }
    }
}

#[test]
fn a_sealed_descriptor_still_reads_back_exactly() {
    let spec = ElementwiseDescriptor::infer_runtime(&[2, 3], &[1, 3])
        .unwrap()
        .into_descriptor();
    let validated = Validated::new(spec.clone(), ProofLevel::Mixed);

    assert_eq!(validated.descriptor(), &spec);
    assert_eq!(validated.proof_level(), ProofLevel::Mixed);
    assert_eq!(validated.into_descriptor(), spec);
}

#[test]
fn the_proof_is_carried_not_recomputed() {
    let spec = ElementwiseDescriptor::infer_runtime(&[2, 3], &[2, 3])
        .unwrap()
        .into_descriptor();
    let validated = Validated::new(spec, ProofLevel::of(&static23()));
    assert!(validated.proof_level().is_static());
}

#[test]
fn audit_passes_for_a_descriptor_from_a_checked_constructor() {
    let spec = ElementwiseDescriptor::infer_runtime(&[2, 3], &[1, 3])
        .unwrap()
        .into_descriptor();
    let validated = Validated::new(spec, ProofLevel::Mixed);
    assert!(validated.audit().is_ok());
}

#[test]
fn a_seal_and_its_evidence_name_one_level() {
    let spec = ElementwiseDescriptor::infer_runtime(&[2, 3], &[3]).unwrap().into_descriptor();
    let validated = Validated::new(spec, ProofLevel::Mixed);
    assert_eq!(validated.proof_level(), validated.shape_evidence().proof_level());
    assert_eq!(validated.clone().proof_level(), ProofLevel::Mixed);
}
