use incin_core::error::Error;
use incin_core::nn::kv_cache::KvCache;
use incin_core::shapes::{DimKind, ShapeType};

fn static_shape(dims: &[usize]) -> ShapeType {
    ShapeType::Dims(dims.iter().map(|&d| DimKind::Static(d)).collect())
}

#[test]
fn a_cache_fills_up_to_its_capacity_and_resets() {
    let mut cache = KvCache::new(&static_shape(&[1, 2, 8, 4])).unwrap();
    assert_eq!(cache.len(), 0);
    assert!(cache.is_empty());
    assert_eq!(cache.capacity(), 8);
    assert_eq!(cache.dims(), vec![1, 2, 8, 4]);
    assert_eq!((cache.batch(), cache.kv_heads(), cache.head_dim()), (1, 2, 4));

    assert_eq!(cache.append(&[1, 2, 3, 4], &[1, 2, 3, 4]), Ok((0, 3)));
    assert_eq!(cache.len(), 3);
    assert_eq!(cache.kv_dims(), vec![1, 2, 3, 4]);
    assert_eq!(cache.append(&[1, 2, 0, 4], &[1, 2, 0, 4]), Ok((3, 3)));
    assert_eq!(cache.append(&[1, 2, 5, 4], &[1, 2, 5, 4]), Ok((3, 8)));

    cache.reset();
    assert_eq!(cache.len(), 0);
    assert_eq!(cache.capacity(), 8);
}

#[test]
fn an_append_past_capacity_is_refused_and_changes_nothing() {
    let mut cache = KvCache::new(&static_shape(&[1, 2, 8, 4])).unwrap();
    cache.append(&[1, 2, 6, 4], &[1, 2, 6, 4]).unwrap();
    let refused = cache.append(&[1, 2, 3, 4], &[1, 2, 3, 4]);
    assert!(matches!(
        refused,
        Err(Error::CacheCapacityExceeded { requested: 9, capacity: 8, .. })
    ));
    assert_eq!(cache.len(), 6);
}

#[test]
fn mismatched_steps_are_refused() {
    let mut cache = KvCache::new(&static_shape(&[1, 2, 8, 4])).unwrap();
    let cases: [(&[usize], &[usize]); 4] = [
        (&[1, 2, 3], &[1, 2, 3]),
        (&[1, 2, 3, 4], &[1, 2, 2, 4]),
        (&[2, 2, 3, 4], &[2, 2, 3, 4]),
        (&[1, 2, 3, 5], &[1, 2, 3, 5]),
    ];
    for (keys, values) in cases {
        assert!(matches!(
            cache.append(keys, values),
            Err(Error::InvalidModuleState { .. })
        ));
    }
    assert_eq!(cache.len(), 0);
}

#[test]
fn only_static_rank_four_geometries_are_accepted() {
    assert!(KvCache::new(&static_shape(&[1, 2, 8])).is_err());
    assert!(KvCache::new(&ShapeType::Ranked(4)).is_err());
    assert!(KvCache::new(&ShapeType::Unranked).is_err());
    let partly = ShapeType::Dims(vec![
        DimKind::Static(1),
        DimKind::Runtime,
        DimKind::Static(8),
        DimKind::Static(4),
    ]);
    assert!(KvCache::new(&partly).is_err());
}

#[test]
fn a_misshapen_append_is_refused_with_its_reason() {
    let mut cache = KvCache::new(&static_shape(&[1, 2, 8, 4])).unwrap();
    let reason = |r: Result<(usize, usize), Error>| match r {
        Err(Error::InvalidModuleState { operation, reason }) => (operation, reason),
        other => panic!("expected a refusal, got {other:?}"),
    };
    assert_eq!(
        reason(cache.append(&[1, 2, 3], &[1, 2, 3])),
        (
            "KvCache::append",
            "expected rank-4 keys [batch, kv_heads, seq, head_dim], got [1, 2, 3]".to_string()
        )
    );
    assert_eq!(
        reason(cache.append(&[1, 2, 3, 4], &[1, 2, 2, 4])).1,
        "keys [1, 2, 3, 4] and values [1, 2, 2, 4] must have the same shape"
    );
    assert_eq!(
        reason(cache.append(&[1, 3, 3, 4], &[1, 3, 3, 4])).1,
        "key/value shape [1, 3, 3, 4] does not match the cache [batch, kv_heads, capacity, head_dim] [1, 2, 8, 4]"
    );
    assert_eq!(cache.len(), 0);
}

#[test]
fn a_non_static_geometry_is_refused_with_its_extents() {
    let shape = ShapeType::Dims(vec![DimKind::Static(1), DimKind::Runtime]);
    assert_eq!(
        KvCache::new(&shape),
        Err(Error::InvalidModuleState {
            operation: "KvCache::new",
            reason: "KvCache requires a fully static rank-4 shape [batch, kv_heads, capacity, head_dim]; got [Some(1), None]".to_string(),
        })
    );
    let reason = |shape: ShapeType| match KvCache::new(&shape) {
        Err(Error::InvalidModuleState { reason, .. }) => reason,
        other => panic!("expected a refusal, got {other:?}"),
    };
    assert!(reason(ShapeType::Ranked(4)).ends_with("got rank 4 with static extents []"));
    assert!(reason(ShapeType::Unranked).ends_with("got a non-static shape (rank None)"));
}
