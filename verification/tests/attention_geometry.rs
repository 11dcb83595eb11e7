use incin_core::error::Error;
use incin_core::nn::attention::{
    composed_causal_mask, CausalMask, CrossAttention, DecodeStep, MultiHeadAttention,
};
use incin_core::nn::kv_cache::KvCache;
use incin_core::nn::module::ShapeInfo;
use incin_core::shapes::{DimKind, ShapeType};

fn cache(dims: &[usize]) -> KvCache {
    KvCache::new(&ShapeType::Dims(dims.iter().map(|&d| DimKind::Static(d)).collect())).unwrap()
}

fn refusal<T: std::fmt::Debug>(r: Result<T, Error>) -> (&'static str, String) {
    match r {
        Err(Error::InvalidModuleState { operation, reason }) => (operation, reason),
        other => panic!("expected a module-state refusal, got {other:?}"),
    }
}

#[test]
fn grouped_query_heads_report_their_layout() {
    let attention = MultiHeadAttention::<64, 8, 2>::build(true, None).unwrap();
    assert_eq!(attention.d_model(), 64);
    assert_eq!(MultiHeadAttention::<64, 8, 2>::head_dim(), 8);
    assert_eq!(MultiHeadAttention::<64, 8, 2>::n_heads(), 8);
    assert_eq!(MultiHeadAttention::<64, 8, 2>::n_kv_heads(), 2);
    assert_eq!(attention.heads_per_group(), 4);
    assert!(attention.is_causal());
    assert_eq!(attention.rotary_max_seq_len(), None);
    assert_eq!(
        attention.shape_info().as_deref(),
        Some("d_model=64, heads=8, kv_heads=2, head_dim=8")
    );
}

#[test]
fn rotary_positions_need_an_even_head_width_and_a_nonempty_table() {
    let odd = MultiHeadAttention::<6, 2, 1>::build(false, Some(16));
    assert_eq!(
        refusal(odd),
        (
            "build attention",
            "rotary positions need an even head_dim, got 3; the rotation pairs dimensions"
                .to_string()
        )
    );
    let empty = MultiHeadAttention::<8, 2, 1>::build(false, Some(0));
    assert_eq!(
        refusal(empty),
        ("build rotary tables", "max_seq_len must be nonzero".to_string())
    );
    let cross_odd = CrossAttention::<6, 2, 1>::build(false, Some(16));
    assert_eq!(refusal(cross_odd).0, "build cross attention");
    assert!(MultiHeadAttention::<6, 2, 1>::build(false, None).is_ok());
}

#[test]
fn self_attention_forward_keeps_the_input_shape() {
    let attention = MultiHeadAttention::<64, 8, 2>::build(true, None).unwrap();
    assert_eq!(attention.output_dims(&[2, 16, 64]), Ok(vec![2, 16, 64]));
    assert_eq!(
        refusal(attention.output_dims(&[2, 64])),
        (
            "attention forward",
            "expected a rank-3 [batch, seq, d_model] input, got rank 2 [2, 64]".to_string()
        )
    );
    assert_eq!(
        refusal(attention.output_dims(&[2, 16, 32])),
        (
            "attention forward",
            "input width 32 does not match d_model 64".to_string()
        )
    );
    let rotary = MultiHeadAttention::<16, 2, 2>::build(true, Some(4)).unwrap();
    assert_eq!(rotary.output_dims(&[1, 4, 16]), Ok(vec![1, 4, 16]));
    assert_eq!(
        refusal(rotary.output_dims(&[1, 5, 16])).1,
        "sequence length 5 exceeds the rotary tables' max_seq_len 4; rebuild the module with a larger extent"
    );
}

#[test]
fn decode_steps_append_at_absolute_positions() {
    let attention = MultiHeadAttention::<16, 2, 2>::build(true, None).unwrap();
    let mut cache = cache(&[1, 2, 8, 8]);
    let first = attention.decode_step(&[1, 3, 16], &mut cache).unwrap();
    assert_eq!(
        first,
        DecodeStep {
            batch: 1,
            seq: 3,
            position: 0,
            mask: Some(CausalMask { rows: 3, cols: 3, offset: 0 }),
        }
    );
    assert_eq!(cache.len(), 3);
    let second = attention.decode_step(&[1, 2, 16], &mut cache).unwrap();
    assert_eq!(second.position, 3);
    assert_eq!(second.mask, Some(CausalMask { rows: 2, cols: 5, offset: 3 }));
    assert_eq!(cache.len(), 5);

    let refused = attention.decode_step(&[1, 4, 16], &mut cache);
    assert!(matches!(
        refused,
        Err(Error::CacheCapacityExceeded { requested: 9, capacity: 8, .. })
    ));
    assert_eq!(cache.len(), 5);
}

#[test]
fn decode_steps_refuse_a_mismatched_cache() {
    let attention = MultiHeadAttention::<16, 2, 2>::build(false, Some(4)).unwrap();
    let mut wrong_batch = cache(&[2, 2, 8, 8]);
    assert_eq!(
        refusal(attention.decode_step(&[1, 1, 16], &mut wrong_batch)),
        (
            "attention forward_with_cache",
            "input batch 1 does not match the cache batch 2".to_string()
        )
    );
    let mut wrong_heads = cache(&[1, 1, 8, 8]);
    assert_eq!(
        refusal(attention.decode_step(&[1, 1, 16], &mut wrong_heads)).1,
        "module kv_heads=2 head_dim=8 do not match the cache kv_heads=1 head_dim=8"
    );
    let mut fits = cache(&[1, 2, 8, 8]);
    let step = attention.decode_step(&[1, 3, 16], &mut fits).unwrap();
    assert_eq!(step.mask, None);
    assert_eq!(
        refusal(attention.decode_step(&[1, 2, 16], &mut fits)).1,
        "position 5 exceeds the rotary tables' max_seq_len 4; rebuild the module with a larger extent"
    );
    assert_eq!(fits.len(), 3);
}

#[test]
fn cross_attention_prefills_memory_then_decodes_against_it() {
    let attention = CrossAttention::<16, 2, 2>::build(true, None).unwrap();
    let mut memory = cache(&[1, 2, 8, 8]);
    assert_eq!(
        refusal(attention.decode_step(&[1, 3, 16], 0, &memory)).1,
        "the cache is empty; prefill the memory with prefill_memory before decoding against it"
    );
    assert_eq!(attention.prefill_memory(&[1, 8, 16], &mut memory), Ok(()));
    assert_eq!(memory.len(), 8);
    assert_eq!(
        refusal(attention.prefill_memory(&[1, 8, 16], &mut memory)).1,
        "the cache already holds 8 tokens; reset it before prefilling new memory"
    );
    let step = attention.decode_step(&[1, 3, 16], 2, &memory).unwrap();
    assert_eq!(
        step,
        DecodeStep {
            batch: 1,
            seq: 3,
            position: 2,
            mask: Some(CausalMask { rows: 3, cols: 8, offset: 2 }),
        }
    );
    assert_eq!(memory.len(), 8);
}

#[test]
fn cross_attention_forward_checks_both_streams() {
    let attention = CrossAttention::<64, 8, 2>::build(false, Some(12)).unwrap();
    assert_eq!(attention.output_dims(&[2, 4, 64], &[2, 12, 64]), Ok(vec![2, 4, 64]));
    assert_eq!(
        refusal(attention.output_dims(&[2, 4, 64], &[3, 12, 64])).1,
        "query batch 2 does not match memory batch 3"
    );
    assert_eq!(
        refusal(attention.output_dims(&[2, 4, 64], &[2, 12])).1,
        "expected a rank-3 [batch, seq, d_model] memory input, got rank 2 [2, 12]"
    );
    assert_eq!(
        refusal(attention.output_dims(&[2, 4, 32], &[2, 12, 64])).1,
        "query width 32 does not match d_model 64"
    );
    assert_eq!(
        refusal(attention.output_dims(&[2, 4, 64], &[2, 13, 64])).1,
        "query length 4 and memory length 13 must not exceed the rotary tables' max_seq_len 12; rebuild the module with a larger extent"
    );
    assert_eq!(
        attention.shape_info().as_deref(),
        Some("d_model=64, heads=8, kv_heads=2, head_dim=8")
    );
}

#[test]
fn a_prefill_past_capacity_leaves_the_cache_empty() {
    let attention = CrossAttention::<16, 2, 2>::build(false, None).unwrap();
    let mut memory = cache(&[1, 2, 4, 8]);
    assert!(matches!(
        attention.prefill_memory(&[1, 5, 16], &mut memory),
        Err(Error::CacheCapacityExceeded { requested: 5, capacity: 4, .. })
    ));
    assert!(memory.is_empty());
}

#[test]
fn the_composed_mask_is_right_aligned() {
    assert_eq!(
        composed_causal_mask(3, 8),
        CausalMask { rows: 3, cols: 8, offset: 5 }
    );
    assert_eq!(
        composed_causal_mask(8, 3),
        CausalMask { rows: 8, cols: 3, offset: 0 }
    );
    assert_eq!(
        composed_causal_mask(4, 4),
        CausalMask { rows: 4, cols: 4, offset: 0 }
    );
}
