use incin_core::nn::attention::{
    select_attention_path, AttentionCrossover, AttentionPath, AttentionPreference,
    AttentionSelectionSource,
};
use incin_core::nn::feed_forward::FeedForwardKind;
use incin_core::nn::init::{Fan, InitContext, ParameterRole};

#[test]
fn forced_preferences_win() {
    let s = select_attention_path(1, false, AttentionPreference::ForceFused, AttentionCrossover::unknown());
    assert_eq!((s.path, s.source), (AttentionPath::Fused, AttentionSelectionSource::Forced));
    let s = select_attention_path(1 << 20, true, AttentionPreference::ForceComposed, AttentionCrossover::measured(1));
    assert_eq!((s.path, s.source), (AttentionPath::Composed, AttentionSelectionSource::Forced));
}

#[test]
fn auto_fails_closed_toward_composed() {
    let auto = AttentionPreference::default();
    let s = select_attention_path(4096, false, auto, AttentionCrossover::measured(16));
    assert_eq!((s.path, s.source), (AttentionPath::Composed, AttentionSelectionSource::FusedUnavailable));
    let s = select_attention_path(4096, true, auto, AttentionCrossover::default());
    assert_eq!((s.path, s.source), (AttentionPath::Composed, AttentionSelectionSource::BelowCrossover));
    let s = select_attention_path(15, true, auto, AttentionCrossover::measured(16));
    assert_eq!((s.path, s.source), (AttentionPath::Composed, AttentionSelectionSource::BelowCrossover));
    let s = select_attention_path(16, true, auto, AttentionCrossover::measured(16));
    assert_eq!((s.path, s.source), (AttentionPath::Fused, AttentionSelectionSource::AboveCrossover));
}

#[test]
fn selections_have_stable_spellings() {
    assert_eq!(AttentionPath::Fused.as_str(), "fused");
    assert_eq!(AttentionPath::Composed.as_str(), "composed");
    assert_eq!(AttentionSelectionSource::Forced.as_str(), "forced");
    assert_eq!(AttentionSelectionSource::FusedUnavailable.as_str(), "fused-unavailable");
    assert_eq!(AttentionSelectionSource::BelowCrossover.as_str(), "below-crossover");
    assert_eq!(AttentionSelectionSource::AboveCrossover.as_str(), "above-crossover");
}

#[test]
fn only_swiglu_is_gated() {
    assert!(FeedForwardKind::SwiGlu.is_gated());
    assert!(!FeedForwardKind::Relu.is_gated());
    assert!(!FeedForwardKind::Gelu.is_gated());
}

#[test]
fn init_context_carries_role_and_fan() {
    let ctx = InitContext::new(ParameterRole::Weight);
    assert_eq!(ctx.fan, None);
    let ctx = ctx.with_fan(3, 5);
    assert_eq!(ctx.role, ParameterRole::Weight);
    assert_eq!(ctx.fan, Some(Fan::new(3, 5)));
}
