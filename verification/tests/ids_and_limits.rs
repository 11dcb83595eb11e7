use incin_core::exec::axes::{AxisMask, AxisSet, IntoAxisSet};
use incin_core::exec::tape::{GradientMap, TensorId, TensorIdSource};
use incin_core::io::limits::ResourceLimits;

#[test]
fn tensor_ids_come_out_in_sequence() {
    let mut source = TensorIdSource::new();
    let a = TensorId::next(&mut source);
    let b = TensorId::next(&mut source);
    let c = TensorId::next(&mut source);
    assert_eq!((a.get(), b.get(), c.get()), (0, 1, 2));
    assert_ne!(a, b);
}

#[test]
fn an_empty_gradient_map_iterates_nothing() {
    let map: GradientMap<u32> = GradientMap::new();
    assert!(map.iter().is_empty());
    assert!(map.is_empty());
    assert_eq!(map.len(), 0);
}

#[test]
fn a_mask_converts_to_the_same_axis_set() {
    let mask = AxisMask::empty().insert(3).unwrap().insert(0).unwrap();
    let set = mask.into_axis_set();
    assert_eq!(set.axes(), vec![0, 3]);
    assert_eq!(set.count(), 2);
    let again = AxisSet::empty().insert(70).into_axis_set();
    assert!(again.contains(70));
}

#[test]
fn shapes_are_checked_against_rank_and_extent_limits() {
    let limits = ResourceLimits::compile_time_defaults();
    assert!(limits.check_shape(&[2, 3]).is_ok());
    assert!(limits.check_shape(&[1; 17]).is_err());
    assert!(limits.check_shape(&[100_000_001]).is_err());
    assert!(limits.check_shape(&[100_000_000]).is_ok());
    assert!(limits.check_header_bytes(16 * 1024 * 1024).is_ok());
    assert!(limits.check_header_bytes(16 * 1024 * 1024 + 1).is_err());
}

#[test]
fn the_presets_nest_from_strict_to_loose() {
    let strict = ResourceLimits::compile_time_defaults();
    let normal = ResourceLimits::default();
    let loose = ResourceLimits::trusted_local_large_model();
    assert_eq!(normal, ResourceLimits::inspection_defaults());
    assert_eq!(normal, ResourceLimits::model_load_defaults());
    assert!(strict.max_rank <= normal.max_rank && normal.max_rank <= loose.max_rank);
    assert!(strict.max_dimension <= normal.max_dimension && normal.max_dimension <= loose.max_dimension);
    let dims = [1_000_000usize; 20];
    assert!(strict.check_shape(&dims).is_err());
    assert!(normal.check_shape(&dims).is_ok());
    assert!(loose.check_shape(&dims).is_ok());
}

#[test]
fn limit_refusals_name_what_was_exceeded() {
    let limits = ResourceLimits::compile_time_defaults();
    let message = |r: Result<(), incin_core::error::Error>| match r {
        Err(incin_core::error::Error::Msg(m)) => m,
        other => panic!("expected a message, got {other:?}"),
    };
    assert_eq!(
        message(limits.check_shape(&[1; 17])),
        "Tensor rank 17 exceeds maximum limit 16"
    );
    assert_eq!(
        message(limits.check_shape(&[3, 100_000_001, 100_000_002])),
        "Tensor dimension at axis 1 (100000001) exceeds limit 100000000"
    );
    assert_eq!(
        message(limits.check_header_bytes(16 * 1024 * 1024 + 1)),
        "Header length 16777217 bytes exceeds maximum limit 16777216 bytes"
    );
}

#[test]
fn axis_sets_with_the_same_members_compare_equal() {
    let grown = AxisSet::empty().insert(70).insert(2);
    let other = AxisSet::empty().insert(2).insert(70).insert(2);
    assert_eq!(grown, other);
    assert_eq!(AxisSet::empty().insert(5).insert(1), AxisSet::empty().insert(1).insert(5));
    let mask = AxisMask::empty().insert(63).unwrap().insert(0).unwrap();
    assert!(mask.axes().iter().all(|&a| a < 64));
}
