use incin_core::error::Error;
use incin_core::nn::moe::Routing;
use incin_core::nn::loss::{
    BCEWithLogitsLoss, CrossEntropyLoss, L1Loss, MSELoss, Mean, NoneReduction, Reduction,
    ReductionMode, Sum,
};

#[test]
fn reduction_markers_name_their_reduction() {
    assert_eq!(Mean::as_enum(), Reduction::Mean);
    assert_eq!(Sum::as_enum(), Reduction::Sum);
    assert_eq!(NoneReduction::as_enum(), Reduction::Unreduced);
}

#[test]
fn reduced_losses_are_scalars() {
    assert_eq!(MSELoss::<Mean>::new().output_dims(&[4, 3]), Vec::<usize>::new());
    assert_eq!(L1Loss::<Sum>::new().output_dims(&[4, 3]), Vec::<usize>::new());
    assert_eq!(CrossEntropyLoss::<Mean>::new().output_dims(&[4, 10]), Vec::<usize>::new());
}

#[test]
fn unreduced_losses_keep_elementwise_extents() {
    assert_eq!(MSELoss::<NoneReduction>::new().output_dims(&[4, 3]), vec![4, 3]);
    assert_eq!(BCEWithLogitsLoss::<NoneReduction>::new().output_dims(&[2]), vec![2]);
    // Cross entropy drops the class axis.
    assert_eq!(CrossEntropyLoss::<NoneReduction>::new().output_dims(&[4, 10]), vec![4]);
    assert_eq!(CrossEntropyLoss::<NoneReduction>::new().output_dims(&[4, 10, 7]), vec![4, 7]);
    assert_eq!(CrossEntropyLoss::<NoneReduction>::new().output_dims(&[]), Vec::<usize>::new());
}

#[test]
fn expert_offsets_are_an_exclusive_prefix_of_counts() {
    let routing: Routing<4> = Routing { indices: vec![2, 0, 2, 3, 2] };
    assert_eq!(routing.expert_offsets().unwrap(), vec![0, 1, 1, 4, 5]);
    let empty: Routing<3> = Routing { indices: vec![] };
    assert_eq!(empty.expert_offsets().unwrap(), vec![0, 0, 0, 0]);
    let none: Routing<0> = Routing { indices: vec![] };
    assert!(matches!(none.expert_offsets(), Err(Error::InvalidModuleState { .. })));
}

#[test]
fn a_router_without_experts_is_a_module_state_refusal() {
    let none: Routing<0> = Routing { indices: vec![] };
    assert_eq!(
        none.expert_offsets(),
        Err(incin_core::error::Error::InvalidModuleState {
            operation: "routing expert_offsets",
            reason: "expert count must be nonzero".to_string(),
        })
    );
}
