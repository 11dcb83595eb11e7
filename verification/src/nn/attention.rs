//! Choosing between the fused and the composed attention kernels.
//!
//! Selection is pure so the crossover policy can be checked on its own and a
//! benchmark can explain a choice without executing it.
use vstd::prelude::*;
use crate::error::Error;
use crate::nn::kv_cache::KvCache;
use crate::nn::module::ShapeInfo;
use crate::text::{decimal, dims_string, dims_text, usize_text};

verus! {

/// Which attention implementation runs.
#[derive(Debug, Clone, Copy, PartialEq, Eq, Structural, Hash)]
pub enum AttentionPath {
    /// The fused kernel: online softmax, no score matrix.
    Fused,
    /// The composed scaled-dot-product path: portable fallback.
    Composed,
}

impl AttentionPath {
    /// Stable spelling for logs and telemetry consumers.
    pub fn as_str(self) -> (r: &'static str)
        ensures
            r@ == (match self {
                AttentionPath::Fused => "fused"@,
                AttentionPath::Composed => "composed"@,
            }),
    {
        match self {
            AttentionPath::Fused => "fused",
            AttentionPath::Composed => "composed",
        }
    }
}

/// Why [`select_attention_path`] chose the path it did. Every variant names
/// a check the caller can reproduce.
#[derive(Debug, Clone, Copy, PartialEq, Eq, Structural, Hash)]
pub enum AttentionSelectionSource {
    /// The caller forced this path.
    Forced,
    /// No capability row admits the fused kernel on this backend.
    FusedUnavailable,
    /// Both paths executable; the sequence is below the crossover.
    BelowCrossover,
    /// Both paths executable; the sequence is at or above the crossover.
    AboveCrossover,
}

impl AttentionSelectionSource {
    /// Stable spelling for logs and telemetry consumers.
    pub fn as_str(self) -> (r: &'static str)
        ensures
            r@ == (match self {
                AttentionSelectionSource::Forced => "forced"@,
                AttentionSelectionSource::FusedUnavailable => "fused-unavailable"@,
                AttentionSelectionSource::BelowCrossover => "below-crossover"@,
                AttentionSelectionSource::AboveCrossover => "above-crossover"@,
            }),
    {
        match self {
            AttentionSelectionSource::Forced => "forced",
            AttentionSelectionSource::FusedUnavailable => "fused-unavailable",
            AttentionSelectionSource::BelowCrossover => "below-crossover",
            AttentionSelectionSource::AboveCrossover => "above-crossover",
        }
    }
}

/// The path taken plus why.
#[derive(Debug, Clone, Copy, PartialEq, Eq, Structural, Hash)]
pub struct AttentionSelection {
    /// Which implementation ran.
    pub path: AttentionPath,
    /// Why it was chosen.
    pub source: AttentionSelectionSource,
}

/// Caller override for path selection.
#[derive(Debug, Clone, Copy, PartialEq, Eq, Structural)]
pub enum AttentionPreference {
    /// Probe admission, then consult the crossover.
    Auto,
    /// Run the fused kernel regardless (benchmarks, equivalence probes).
    ForceFused,
    /// Run the composed path through normal dispatch.
    ForceComposed,
}

impl Default for AttentionPreference {
    fn default() -> (r: AttentionPreference)
        ensures
            r == AttentionPreference::Auto,
    {
        AttentionPreference::Auto
    }
}

/// The crossover: at or above this sequence length the fused kernel is
/// expected to win. `None` means no measurement exists for the device, and
/// selection then fails closed toward the portable composed path.
#[derive(Debug, Clone, Copy, PartialEq, Eq, Structural)]
pub struct AttentionCrossover {
    /// Sequence length at or above which fused is selected, when known.
    pub fused_min_seq_len: Option<usize>,
}

impl AttentionCrossover {
    /// No crossover measured for this device.
    pub fn unknown() -> (r: AttentionCrossover)
        ensures
            r.fused_min_seq_len is None,
    {
        AttentionCrossover { fused_min_seq_len: None }
    }

    /// A recorded crossover measurement.
    pub fn measured(fused_min_seq_len: usize) -> (r: AttentionCrossover)
        ensures
            r.fused_min_seq_len == Some(fused_min_seq_len),
    {
        AttentionCrossover { fused_min_seq_len: Some(fused_min_seq_len) }
    }
}

impl Default for AttentionCrossover {
    fn default() -> (r: AttentionCrossover)
        ensures
            r.fused_min_seq_len is None,
    {
        AttentionCrossover::unknown()
    }
}

/// The selection policy: a forced preference wins; otherwise the composed
/// path is chosen when the fused kernel is not admitted, and the fused one
/// exactly when a crossover is known and `seq_len` reaches it.
pub open spec fn spec_select_attention_path(
    seq_len: usize,
    fused_admitted: bool,
    preference: AttentionPreference,
    crossover: AttentionCrossover,
) -> AttentionSelection {
    match preference {
        AttentionPreference::ForceFused => AttentionSelection {
            path: AttentionPath::Fused,
            source: AttentionSelectionSource::Forced,
        },
        AttentionPreference::ForceComposed => AttentionSelection {
            path: AttentionPath::Composed,
            source: AttentionSelectionSource::Forced,
        },
        AttentionPreference::Auto => if !fused_admitted {
            AttentionSelection {
                path: AttentionPath::Composed,
                source: AttentionSelectionSource::FusedUnavailable,
            }
        } else if crossover.fused_min_seq_len matches Some(threshold) && seq_len >= threshold {
            AttentionSelection {
                path: AttentionPath::Fused,
                source: AttentionSelectionSource::AboveCrossover,
            }
        } else {
            AttentionSelection {
                path: AttentionPath::Composed,
                source: AttentionSelectionSource::BelowCrossover,
            }
        },
    }
}

/// A forced preference always wins: whatever the sequence length, the
/// capability probe and the crossover say, forcing a path selects that
/// path and reports that it was forced.
pub proof fn lemma_forced_preference_wins(
    seq_len: usize,
    fused_admitted: bool,
    crossover: AttentionCrossover,
)
    ensures
        spec_select_attention_path(seq_len, fused_admitted, AttentionPreference::ForceFused, crossover)
            == (AttentionSelection {
            path: AttentionPath::Fused,
            source: AttentionSelectionSource::Forced,
        }),
        spec_select_attention_path(seq_len, fused_admitted, AttentionPreference::ForceComposed, crossover)
            == (AttentionSelection {
            path: AttentionPath::Composed,
            source: AttentionSelectionSource::Forced,
        }),
{
}

/// Chooses the attention path for a query of length `seq_len`, given whether
/// the capability probe admits the fused kernel.
pub fn select_attention_path(
    seq_len: usize,
    fused_admitted: bool,
    preference: AttentionPreference,
    crossover: AttentionCrossover,
) -> (r: AttentionSelection)
    ensures
        r == spec_select_attention_path(seq_len, fused_admitted, preference, crossover),
{
    match preference {
        AttentionPreference::ForceFused => AttentionSelection {
            path: AttentionPath::Fused,
            source: AttentionSelectionSource::Forced,
        },
        AttentionPreference::ForceComposed => AttentionSelection {
            path: AttentionPath::Composed,
            source: AttentionSelectionSource::Forced,
        },
        AttentionPreference::Auto => {
            if !fused_admitted {
                return AttentionSelection {
                    path: AttentionPath::Composed,
                    source: AttentionSelectionSource::FusedUnavailable,
                };
            }
            let above = match crossover.fused_min_seq_len {
                Some(threshold) => seq_len >= threshold,
                None => false,
            };
            if above {
                AttentionSelection {
                    path: AttentionPath::Fused,
                    source: AttentionSelectionSource::AboveCrossover,
                }
            } else {
                AttentionSelection {
                    path: AttentionPath::Composed,
                    source: AttentionSelectionSource::BelowCrossover,
                }
            }
        },
    }
}

/// Selection never runs the fused kernel behind the caller's back: under
/// `Auto` it is chosen only when admitted and only at or above a measured
/// crossover, an unmeasured device always gets the composed path, and the
/// reported source always agrees with the path.
pub proof fn lemma_selection_fails_closed(
    seq_len: usize,
    fused_admitted: bool,
    crossover: AttentionCrossover,
)
    ensures
        ({
            let r = spec_select_attention_path(
                seq_len,
                fused_admitted,
                AttentionPreference::Auto,
                crossover,
            );
            &&& r.path == AttentionPath::Fused ==> (fused_admitted && (crossover.fused_min_seq_len
                matches Some(t) && seq_len >= t))
            &&& crossover.fused_min_seq_len is None ==> r.path == AttentionPath::Composed
            &&& (r.path == AttentionPath::Fused <==> r.source
                == AttentionSelectionSource::AboveCrossover)
            &&& r.source != AttentionSelectionSource::Forced
        }),
{
}


// --- head geometry and the shape checks of the attention modules ----------------

/// The refusal of an input that is not `[batch, seq, d_model]`; `what`
/// names the input.
pub open spec fn rank3_message(what: Seq<char>, dims: Seq<usize>) -> Seq<char> {
    "expected a rank-3 [batch, seq, d_model] "@ + what + ", got rank "@ + decimal(dims.len())
        + " "@ + dims_text(dims)
}

/// The refusal of an input whose width is not the model width.
pub open spec fn width_message(what: Seq<char>, width: usize, d_model: usize) -> Seq<char> {
    what + " width "@ + decimal(width as nat) + " does not match d_model "@ + decimal(
        d_model as nat,
    )
}

/// The refusal of an input whose batch is not the cache's.
pub open spec fn cache_batch_message(what: Seq<char>, batch: usize, cache_batch: usize) -> Seq<
    char,
> {
    what + " batch "@ + decimal(batch as nat) + " does not match the cache batch "@ + decimal(
        cache_batch as nat,
    )
}

/// The refusal of a cache whose head layout is not the module's.
pub open spec fn cache_geometry_message(
    kv_heads: usize,
    head_dim: usize,
    cache_kv_heads: usize,
    cache_head_dim: usize,
) -> Seq<char> {
    "module kv_heads="@ + decimal(kv_heads as nat) + " head_dim="@ + decimal(head_dim as nat)
        + " do not match the cache kv_heads="@ + decimal(cache_kv_heads as nat) + " head_dim="@
        + decimal(cache_head_dim as nat)
}

/// The refusal of positions past the rotary tables, `what` naming them.
pub open spec fn rotary_extent_message(what: Seq<char>, max_seq_len: usize) -> Seq<char> {
    what + " the rotary tables' max_seq_len "@ + decimal(max_seq_len as nat)
        + "; rebuild the module with a larger extent"@
}

/// The refusal of rotary positions over an odd head width.
pub open spec fn odd_head_dim_message(head_dim: usize) -> Seq<char> {
    "rotary positions need an even head_dim, got "@ + decimal(head_dim as nat)
        + "; the rotation pairs dimensions"@
}

fn rank3_reason(what: &str, dims: &[usize]) -> (r: String)
    ensures
        r@ == rank3_message(what@, dims@),
{
    let mut s = String::from_str("expected a rank-3 [batch, seq, d_model] ");
    s.append(what);
    s.append(", got rank ");
    s.append(usize_text(dims.len()).as_str());
    s.append(" ");
    s.append(dims_string(dims).as_str());
    s
}

fn width_reason(what: &str, width: usize, d_model: usize) -> (r: String)
    ensures
        r@ == width_message(what@, width, d_model),
{
    let mut s = String::from_str(what);
    s.append(" width ");
    s.append(usize_text(width).as_str());
    s.append(" does not match d_model ");
    s.append(usize_text(d_model).as_str());
    s
}

fn cache_batch_reason(what: &str, batch: usize, cache_batch: usize) -> (r: String)
    ensures
        r@ == cache_batch_message(what@, batch, cache_batch),
{
    let mut s = String::from_str(what);
    s.append(" batch ");
    s.append(usize_text(batch).as_str());
    s.append(" does not match the cache batch ");
    s.append(usize_text(cache_batch).as_str());
    s
}

fn cache_geometry_reason(
    kv_heads: usize,
    head_dim: usize,
    cache_kv_heads: usize,
    cache_head_dim: usize,
) -> (r: String)
    ensures
        r@ == cache_geometry_message(kv_heads, head_dim, cache_kv_heads, cache_head_dim),
{
    let mut s = String::from_str("module kv_heads=");
    s.append(usize_text(kv_heads).as_str());
    s.append(" head_dim=");
    s.append(usize_text(head_dim).as_str());
    s.append(" do not match the cache kv_heads=");
    s.append(usize_text(cache_kv_heads).as_str());
    s.append(" head_dim=");
    s.append(usize_text(cache_head_dim).as_str());
    s
}

fn rotary_extent_reason(what: String, max_seq_len: usize) -> (r: String)
    ensures
        r@ == rotary_extent_message(what@, max_seq_len),
{
    let mut s = what;
    s.append(" the rotary tables' max_seq_len ");
    s.append(usize_text(max_seq_len).as_str());
    s.append("; rebuild the module with a larger extent");
    s
}

/// A causal mask over `rows` queries and `cols` keys: query `row` may attend
/// to key `col` exactly when `col <= row + offset`.
#[derive(Debug, Clone, Copy, PartialEq, Eq, Structural)]
pub struct CausalMask {
    /// Query positions covered.
    pub rows: usize,
    /// Key positions covered.
    pub cols: usize,
    /// How far the diagonal is shifted to the right.
    pub offset: usize,
}

/// Whether `mask` lets query `row` attend to key `col`.
pub open spec fn mask_allows(mask: CausalMask, row: int, col: int) -> bool {
    0 <= row < mask.rows && 0 <= col < mask.cols && col <= row + mask.offset
}

/// The square mask of a full causal forward over `n` positions.
pub open spec fn full_mask(n: usize) -> CausalMask {
    CausalMask { rows: n, cols: n, offset: 0 }
}

/// Whether the head counts of an attention module are admissible: both
/// nonzero, every head of the same width, and each key/value head serving a
/// whole number of query heads.
pub open spec fn heads_admissible(d_model: usize, n_heads: usize, n_kv_heads: usize) -> bool {
    &&& n_heads > 0
    &&& n_kv_heads > 0
    &&& d_model % n_heads == 0
    &&& n_heads % n_kv_heads == 0
}

/// Whether rotary positions can be built over heads of width `head_dim`:
/// the rotation pairs dimensions, and the tables cover at least one
/// position.
pub open spec fn rotary_admissible(head_dim: usize, rotary_max_seq_len: Option<usize>) -> bool {
    match rotary_max_seq_len {
        None => true,
        Some(max_seq_len) => head_dim % 2 == 0 && max_seq_len > 0,
    }
}

/// Multi-head self-attention over a `[batch, seq, D_MODEL]` input, as far
/// as its geometry goes: `N_HEADS` query heads of width `D_MODEL / N_HEADS`
/// sharing `N_KV_HEADS` key/value heads, whether it is causal, and how many
/// positions its rotary tables cover when it has them. This type decides
/// every shape check of the module and the cache bookkeeping of a decode
/// step.
#[derive(Debug, Clone, Copy, PartialEq, Eq)]
pub struct MultiHeadAttention<const D_MODEL: usize, const N_HEADS: usize, const N_KV_HEADS: usize> {
    causal: bool,
    rotary_max_seq_len: Option<usize>,
}

impl<
    const D_MODEL: usize,
    const N_HEADS: usize,
    const N_KV_HEADS: usize,
> MultiHeadAttention<D_MODEL, N_HEADS, N_KV_HEADS> {
    #[verifier::type_invariant]
    closed spec fn heads_ok(self) -> bool {
        heads_admissible(D_MODEL, N_HEADS, N_KV_HEADS)
    }

    /// Whether a position attends only to itself and earlier positions.
    pub closed spec fn spec_causal(self) -> bool {
        self.causal
    }

    /// The positions the rotary tables cover, when rotary positions are used.
    pub closed spec fn spec_rotary(self) -> Option<usize> {
        self.rotary_max_seq_len
    }

    /// Builds the module. The head counts must be admissible; rotary
    /// positions over an odd head width, or tables of no positions, are
    /// refused.
    pub fn build(causal: bool, rotary_max_seq_len: Option<usize>) -> (r: Result<Self, Error>)
        requires
            heads_admissible(D_MODEL, N_HEADS, N_KV_HEADS),
        ensures
            r is Ok <==> rotary_admissible((D_MODEL / N_HEADS) as usize, rotary_max_seq_len),
            r matches Ok(a) ==> a.spec_causal() == causal && a.spec_rotary() == rotary_max_seq_len,
            r matches Err(e) ==> match e {
                Error::InvalidModuleState { operation, reason } => if (D_MODEL / N_HEADS) % 2
                    != 0 {
                    operation@ == "build attention"@ && reason@ == odd_head_dim_message(
                        (D_MODEL / N_HEADS) as usize,
                    )
                } else {
                    operation@ == "build rotary tables"@ && reason@
                        == "max_seq_len must be nonzero"@
                },
                _ => false,
            },
    {
        build_checks("build attention", D_MODEL / N_HEADS, rotary_max_seq_len)?;
        Ok(MultiHeadAttention { causal, rotary_max_seq_len })
    }

    /// The model width this module consumes and produces.
    pub fn d_model(&self) -> (r: usize)
        ensures
            r == D_MODEL,
    {
        D_MODEL
    }

    /// Width of one head, `D_MODEL / N_HEADS`.
    pub fn head_dim() -> (r: usize)
        requires
            N_HEADS > 0,
        ensures
            r == D_MODEL / N_HEADS,
    {
        D_MODEL / N_HEADS
    }

    /// Number of query heads.
    pub fn n_heads() -> (r: usize)
        ensures
            r == N_HEADS,
    {
        N_HEADS
    }

    /// Number of key/value heads.
    pub fn n_kv_heads() -> (r: usize)
        ensures
            r == N_KV_HEADS,
    {
        N_KV_HEADS
    }

    /// How many query heads share each key/value head.
    pub fn heads_per_group(&self) -> (r: usize)
        ensures
            r == N_HEADS / N_KV_HEADS,
    {
        proof {
            use_type_invariant(self);
        }
        N_HEADS / N_KV_HEADS
    }

    /// Whether the module masks attention causally.
    pub fn is_causal(&self) -> (r: bool)
        ensures
            r == self.spec_causal(),
    {
        self.causal
    }

    /// The positions the rotary tables cover, when rotary positions are used.
    pub fn rotary_max_seq_len(&self) -> (r: Option<usize>)
        ensures
            r == self.spec_rotary(),
    {
        self.rotary_max_seq_len
    }
}

/// Why a self-attention forward refuses an input of shape `dims`, if it does.
pub open spec fn forward_refusal(dims: Seq<usize>, d_model: usize, rotary: Option<usize>) -> Option<
    Seq<char>,
> {
    if dims.len() != 3 {
        Some(rank3_message("input"@, dims))
    } else if dims[2] != d_model {
        Some(width_message("input"@, dims[2], d_model))
    } else {
        match rotary {
            Some(max_seq_len) => if dims[1] > max_seq_len {
                Some(
                    rotary_extent_message(
                        "sequence length "@ + decimal(dims[1] as nat) + " exceeds"@,
                        max_seq_len,
                    ),
                )
            } else {
                None
            },
            None => None,
        }
    }
}

/// The refusals shared by both builders: an odd head width under rotary
/// positions, then rotary tables of no positions.
fn build_checks(operation: &'static str, head_dim: usize, rotary_max_seq_len: Option<usize>) -> (r:
    Result<(), Error>)
    ensures
        r is Ok <==> rotary_admissible(head_dim, rotary_max_seq_len),
        r matches Err(e) ==> match e {
            Error::InvalidModuleState { operation: op, reason } => if head_dim % 2 != 0 {
                op@ == operation@ && reason@ == odd_head_dim_message(head_dim)
            } else {
                op@ == "build rotary tables"@ && reason@ == "max_seq_len must be nonzero"@
            },
            _ => false,
        },
{
    match rotary_max_seq_len {
        None => Ok(()),
        Some(max_seq_len) => {
            if head_dim % 2 != 0 {
                let mut reason = String::from_str("rotary positions need an even head_dim, got ");
                reason.append(usize_text(head_dim).as_str());
                reason.append("; the rotation pairs dimensions");
                return Err(Error::InvalidModuleState { operation, reason });
            }
            if max_seq_len == 0 {
                return Err(
                    Error::InvalidModuleState {
                        operation: "build rotary tables",
                        reason: String::from_str("max_seq_len must be nonzero"),
                    },
                );
            }
            Ok(())
        },
    }
}


/// `r` is the module-state refusal of `operation` for `reason`.
pub open spec fn refused_with<T>(r: Result<T, Error>, operation: Seq<char>, reason: Seq<char>) -> bool {
    r matches Err(Error::InvalidModuleState { operation: op, reason: why }) && op@ == operation
        && why@ == reason
}

/// The head configuration as a summary prints it.
pub open spec fn heads_info(d_model: usize, n_heads: usize, n_kv_heads: usize) -> Seq<char> {
    "d_model="@ + decimal(d_model as nat) + ", heads="@ + decimal(n_heads as nat) + ", kv_heads="@
        + decimal(n_kv_heads as nat) + ", head_dim="@ + decimal((d_model / n_heads) as nat)
}

fn heads_info_string(d_model: usize, n_heads: usize, n_kv_heads: usize) -> (r: String)
    requires
        n_heads > 0,
    ensures
        r@ == heads_info(d_model, n_heads, n_kv_heads),
{
    let mut s = String::from_str("d_model=");
    s.append(usize_text(d_model).as_str());
    s.append(", heads=");
    s.append(usize_text(n_heads).as_str());
    s.append(", kv_heads=");
    s.append(usize_text(n_kv_heads).as_str());
    s.append(", head_dim=");
    s.append(usize_text(d_model / n_heads).as_str());
    s
}

/// Refuses an input that is not `[batch, seq, d_model]`: by rank first,
/// naming it `rank_what`, then by width, naming it `width_what`.
fn check_input_shape(
    operation: &'static str,
    rank_what: &str,
    width_what: &str,
    dims: &[usize],
    d_model: usize,
) -> (r: Result<(), Error>)
    ensures
        dims@.len() != 3 ==> refused_with(r, operation@, rank3_message(rank_what@, dims@)),
        dims@.len() == 3 && dims@[2] != d_model ==> refused_with(
            r,
            operation@,
            width_message(width_what@, dims@[2], d_model),
        ),
        dims@.len() == 3 && dims@[2] == d_model ==> r is Ok,
{
    if dims.len() != 3 {
        return Err(Error::InvalidModuleState { operation, reason: rank3_reason(rank_what, dims) });
    }
    if dims[2] != d_model {
        return Err(
            Error::InvalidModuleState {
                operation,
                reason: width_reason(width_what, dims[2], d_model),
            },
        );
    }
    Ok(())
}

/// Refuses a cache whose batch, or whose head layout, is not the step's.
fn check_cache_fit(
    operation: &'static str,
    what: &str,
    batch: usize,
    kv_heads: usize,
    head_dim: usize,
    cache: &KvCache,
) -> (r: Result<(), Error>)
    ensures
        ({
            let d = cache.spec_dims();
            &&& batch != d[0] ==> refused_with(
                r,
                operation@,
                cache_batch_message(what@, batch, d[0]),
            )
            &&& batch == d[0] && (kv_heads != d[1] || head_dim != d[3]) ==> refused_with(
                r,
                operation@,
                cache_geometry_message(kv_heads, head_dim, d[1], d[3]),
            )
            &&& batch == d[0] && kv_heads == d[1] && head_dim == d[3] ==> r is Ok
        }),
{
    if batch != cache.batch() {
        return Err(
            Error::InvalidModuleState {
                operation,
                reason: cache_batch_reason(what, batch, cache.batch()),
            },
        );
    }
    if kv_heads != cache.kv_heads() || head_dim != cache.head_dim() {
        return Err(
            Error::InvalidModuleState {
                operation,
                reason: cache_geometry_reason(kv_heads, head_dim, cache.kv_heads(), cache.head_dim()),
            },
        );
    }
    Ok(())
}

fn exceeds_reason(label: &str, position: usize, max_seq_len: usize) -> (r: String)
    ensures
        r@ == rotary_extent_message(label@ + decimal(position as nat) + " exceeds"@, max_seq_len),
{
    let mut what = String::from_str(label);
    what.append(usize_text(position).as_str());
    what.append(" exceeds");
    rotary_extent_reason(what, max_seq_len)
}

/// The keys (and values) of a step: `[batch, kv_heads, seq, head_dim]`.
fn step_dims(batch: usize, kv_heads: usize, seq: usize, head_dim: usize) -> (r: Vec<usize>)
    ensures
        r@ == seq![batch, kv_heads, seq, head_dim],
{
    let mut r: Vec<usize> = Vec::new();
    r.push(batch);
    r.push(kv_heads);
    r.push(seq);
    r.push(head_dim);
    proof {
        assert(r@ =~= seq![batch, kv_heads, seq, head_dim]);
    }
    r
}

fn copy_rank3(dims: &[usize]) -> (r: Vec<usize>)
    requires
        dims@.len() == 3,
    ensures
        r@ == dims@,
{
    let mut r: Vec<usize> = Vec::new();
    r.push(dims[0]);
    r.push(dims[1]);
    r.push(dims[2]);
    proof {
        assert(r@ =~= dims@);
    }
    r
}

/// Where one incremental decode step lands.
#[derive(Debug, Clone, Copy, PartialEq, Eq, Structural)]
pub struct DecodeStep {
    /// Batch extent of the step's queries.
    pub batch: usize,
    /// Number of new query positions.
    pub seq: usize,
    /// Absolute position of the first of them: rotary angles start here.
    pub position: usize,
    /// The step's causal mask, when the module is causal.
    pub mask: Option<CausalMask>,
}

/// Why a self-attention decode step refuses an input of shape `dims`
/// against `cache`, if it does.
pub open spec fn self_decode_refusal(
    dims: Seq<usize>,
    d_model: usize,
    kv_heads: usize,
    head_dim: usize,
    rotary: Option<usize>,
    cache: KvCache,
) -> Option<Seq<char>> {
    let d = cache.spec_dims();
    if dims.len() != 3 {
        Some(rank3_message("input"@, dims))
    } else if dims[2] != d_model {
        Some(width_message("input"@, dims[2], d_model))
    } else if dims[0] != d[0] {
        Some(cache_batch_message("input"@, dims[0], d[0]))
    } else if kv_heads != d[1] || head_dim != d[3] {
        Some(cache_geometry_message(kv_heads, head_dim, d[1], d[3]))
    } else {
        match rotary {
            Some(max_seq_len) => if cache.spec_len() + dims[1] > max_seq_len {
                Some(
                    rotary_extent_message(
                        "position "@ + decimal((cache.spec_len() + dims[1]) as nat) + " exceeds"@,
                        max_seq_len,
                    ),
                )
            } else {
                None
            },
            None => None,
        }
    }
}

impl<
    const D_MODEL: usize,
    const N_HEADS: usize,
    const N_KV_HEADS: usize,
> MultiHeadAttention<D_MODEL, N_HEADS, N_KV_HEADS> {
    /// The shape a forward pass produces from an input of shape `dims`,
    /// `[batch, seq, D_MODEL]`, or why the input is refused: it must be
    /// rank 3 and `D_MODEL` wide, and with rotary positions no longer than
    /// the tables.
    pub fn output_dims(&self, dims: &[usize]) -> (r: Result<Vec<usize>, Error>)
        ensures
            match forward_refusal(dims@, D_MODEL, self.spec_rotary()) {
                None => r matches Ok(out) && out@ == dims@,
                Some(reason) => refused_with(r, "attention forward"@, reason),
            },
    {
        check_input_shape("attention forward", "input", "input", dims, D_MODEL)?;
        match self.rotary_max_seq_len {
            Some(max_seq_len) => {
                if dims[1] > max_seq_len {
                    return Err(
                        Error::InvalidModuleState {
                            operation: "attention forward",
                            reason: exceeds_reason("sequence length ", dims[1], max_seq_len),
                        },
                    );
                }
            },
            None => {},
        }
        Ok(copy_rank3(dims))
    }

    /// The cache bookkeeping of one incremental decode step whose new
    /// tokens have shape `dims`: the input is checked against the module
    /// and the cache, the step's keys and values are appended at the
    /// cache's current length, and the step's absolute positions and causal
    /// mask are returned. A refused step leaves the cache as it was.
    pub fn decode_step(&self, dims: &[usize], cache: &mut KvCache) -> (r: Result<
        DecodeStep,
        Error,
    >)
        requires
            old(cache).well_formed(),
            dims@.len() == 3 ==> old(cache).spec_len() + dims@[1] <= usize::MAX,
        ensures
            final(cache).well_formed(),
            final(cache).spec_dims() == old(cache).spec_dims(),
            match self_decode_refusal(
                dims@,
                D_MODEL,
                N_KV_HEADS,
                D_MODEL / N_HEADS,
                self.spec_rotary(),
                *old(cache),
            ) {
                Some(reason) => refused_with(r, "attention forward_with_cache"@, reason)
                    && final(cache).spec_len() == old(cache).spec_len(),
                None => {
                    let past = old(cache).spec_len();
                    let end = past + dims@[1];
                    if end > old(cache).spec_dims()[2] {
                        &&& r matches Err(Error::CacheCapacityExceeded { requested, capacity, .. })
                            && requested == end && capacity == old(cache).spec_dims()[2]
                        &&& final(cache).spec_len() == past
                    } else {
                        &&& r == Ok::<DecodeStep, Error>(
                            DecodeStep {
                                batch: dims@[0],
                                seq: dims@[1],
                                position: past,
                                mask: if self.spec_causal() {
                                    Some(
                                        CausalMask {
                                            rows: dims@[1],
                                            cols: end as usize,
                                            offset: past,
                                        },
                                    )
                                } else {
                                    None
                                },
                            },
                        )
                        &&& final(cache).spec_len() == end
                    }
                },
            },
    {
        proof {
            use_type_invariant(self);
        }
        let operation = "attention forward_with_cache";
        check_input_shape(operation, "input", "input", dims, D_MODEL)?;
        let batch = dims[0];
        let seq = dims[1];
        let head_dim = D_MODEL / N_HEADS;
        check_cache_fit(operation, "input", batch, N_KV_HEADS, head_dim, cache)?;
        let past = cache.len();
        match self.rotary_max_seq_len {
            Some(max_seq_len) => {
                if past + seq > max_seq_len {
                    return Err(
                        Error::InvalidModuleState {
                            operation,
                            reason: exceeds_reason("position ", past + seq, max_seq_len),
                        },
                    );
                }
            },
            None => {},
        }
        let keys = step_dims(batch, N_KV_HEADS, seq, head_dim);
        cache.append(keys.as_slice(), keys.as_slice())?;
        let mask = if self.causal {
            Some(CausalMask { rows: seq, cols: past + seq, offset: past })
        } else {
            None
        };
        Ok(DecodeStep { batch, seq, position: past, mask })
    }
}

impl<
    const D_MODEL: usize,
    const N_HEADS: usize,
    const N_KV_HEADS: usize,
> ShapeInfo for MultiHeadAttention<D_MODEL, N_HEADS, N_KV_HEADS> {
    /// The head configuration.
    open spec fn spec_shape_info(&self) -> Option<Seq<char>> {
        Some(heads_info(D_MODEL, N_HEADS, N_KV_HEADS))
    }

    /// Reports the head configuration.
    fn shape_info(&self) -> (r: Option<String>)
        ensures
            r matches Some(text) && text@ == heads_info(D_MODEL, N_HEADS, N_KV_HEADS),
    {
        proof {
            use_type_invariant(self);
        }
        Some(heads_info_string(D_MODEL, N_HEADS, N_KV_HEADS))
    }
}


/// Cross-attention, as far as its geometry goes: queries from one
/// `[batch, seq, D_MODEL]` sequence attend to keys and values projected from
/// another, the memory, with the same head layout as
/// [`MultiHeadAttention`]. The two sequences number their positions
/// independently; with causal masking query `i` sees memory positions
/// `0 ..= i`. This type decides every shape check of the module and the
/// cache bookkeeping of prefilling memory and decoding against it.
#[derive(Debug, Clone, Copy, PartialEq, Eq)]
pub struct CrossAttention<const D_MODEL: usize, const N_HEADS: usize, const N_KV_HEADS: usize> {
    causal: bool,
    rotary_max_seq_len: Option<usize>,
}

/// Why a cross-attention forward refuses a query of shape `query` with a
/// memory of shape `memory`, if it does.
pub open spec fn cross_forward_refusal(
    query: Seq<usize>,
    memory: Seq<usize>,
    d_model: usize,
    rotary: Option<usize>,
) -> Option<Seq<char>> {
    if query.len() != 3 {
        Some(rank3_message("query input"@, query))
    } else if query[2] != d_model {
        Some(width_message("query"@, query[2], d_model))
    } else if memory.len() != 3 {
        Some(rank3_message("memory input"@, memory))
    } else if memory[2] != d_model {
        Some(width_message("memory"@, memory[2], d_model))
    } else if memory[0] != query[0] {
        Some(
            "query batch "@ + decimal(query[0] as nat) + " does not match memory batch "@
                + decimal(memory[0] as nat),
        )
    } else {
        match rotary {
            Some(max_seq_len) => if query[1] > max_seq_len || memory[1] > max_seq_len {
                Some(
                    rotary_extent_message(
                        "query length "@ + decimal(query[1] as nat) + " and memory length "@
                            + decimal(memory[1] as nat) + " must not exceed"@,
                        max_seq_len,
                    ),
                )
            } else {
                None
            },
            None => None,
        }
    }
}

/// Why prefilling memory of shape `memory` into `cache` is refused, if it
/// is.
pub open spec fn prefill_refusal(
    memory: Seq<usize>,
    d_model: usize,
    kv_heads: usize,
    head_dim: usize,
    rotary: Option<usize>,
    cache: KvCache,
) -> Option<Seq<char>> {
    let d = cache.spec_dims();
    if memory.len() != 3 {
        Some(rank3_message("memory input"@, memory))
    } else if memory[2] != d_model {
        Some(width_message("memory"@, memory[2], d_model))
    } else if cache.spec_len() != 0 {
        Some(
            "the cache already holds "@ + decimal(cache.spec_len() as nat)
                + " tokens; reset it before prefilling new memory"@,
        )
    } else if memory[0] != d[0] {
        Some(cache_batch_message("memory"@, memory[0], d[0]))
    } else if kv_heads != d[1] || head_dim != d[3] {
        Some(cache_geometry_message(kv_heads, head_dim, d[1], d[3]))
    } else {
        match rotary {
            Some(max_seq_len) => if memory[1] > max_seq_len {
                Some(
                    rotary_extent_message(
                        "memory length "@ + decimal(memory[1] as nat) + " exceeds"@,
                        max_seq_len,
                    ),
                )
            } else {
                None
            },
            None => None,
        }
    }
}

/// `a + b`, or `usize::MAX` where the sum does not fit.
pub open spec fn saturating_sum(a: usize, b: usize) -> usize {
    if a + b > usize::MAX {
        usize::MAX
    } else {
        (a + b) as usize
    }
}

/// Why a cross-attention decode step refuses queries of shape `dims` at
/// `query_pos` against `cache`, if it does.
pub open spec fn cross_decode_refusal(
    dims: Seq<usize>,
    query_pos: usize,
    causal: bool,
    d_model: usize,
    kv_heads: usize,
    head_dim: usize,
    rotary: Option<usize>,
    cache: KvCache,
) -> Option<Seq<char>> {
    let d = cache.spec_dims();
    if dims.len() != 3 {
        Some(rank3_message("query input"@, dims))
    } else if dims[2] != d_model {
        Some(width_message("query"@, dims[2], d_model))
    } else if dims[0] != d[0] {
        Some(cache_batch_message("query"@, dims[0], d[0]))
    } else if kv_heads != d[1] || head_dim != d[3] {
        Some(cache_geometry_message(kv_heads, head_dim, d[1], d[3]))
    } else if cache.spec_len() == 0 {
        Some(
            "the cache is empty; prefill the memory with prefill_memory before decoding against it"@,
        )
    } else if rotary matches Some(max_seq_len) && saturating_sum(query_pos, dims[1])
        > max_seq_len {
        Some(
            rotary_extent_message(
                "position "@ + decimal(saturating_sum(query_pos, dims[1]) as nat) + " exceeds"@,
                rotary->0,
            ),
        )
    } else if causal && query_pos > i64::MAX {
        Some("query_pos does not fit the mask's diagonal offset"@)
    } else {
        None
    }
}

impl<
    const D_MODEL: usize,
    const N_HEADS: usize,
    const N_KV_HEADS: usize,
> CrossAttention<D_MODEL, N_HEADS, N_KV_HEADS> {
    #[verifier::type_invariant]
    closed spec fn heads_ok(self) -> bool {
        heads_admissible(D_MODEL, N_HEADS, N_KV_HEADS)
    }

    /// Whether query `i` sees only memory positions `0 ..= i`.
    pub closed spec fn spec_causal(self) -> bool {
        self.causal
    }

    /// The positions the rotary tables cover, when rotary positions are used.
    pub closed spec fn spec_rotary(self) -> Option<usize> {
        self.rotary_max_seq_len
    }

    /// Builds the module. The head counts must be admissible; rotary
    /// positions over an odd head width, or tables of no positions, are
    /// refused.
    pub fn build(causal: bool, rotary_max_seq_len: Option<usize>) -> (r: Result<Self, Error>)
        requires
            heads_admissible(D_MODEL, N_HEADS, N_KV_HEADS),
        ensures
            r is Ok <==> rotary_admissible((D_MODEL / N_HEADS) as usize, rotary_max_seq_len),
            r matches Ok(a) ==> a.spec_causal() == causal && a.spec_rotary() == rotary_max_seq_len,
            r matches Err(e) ==> match e {
                Error::InvalidModuleState { operation, reason } => if (D_MODEL / N_HEADS) % 2
                    != 0 {
                    operation@ == "build cross attention"@ && reason@ == odd_head_dim_message(
                        (D_MODEL / N_HEADS) as usize,
                    )
                } else {
                    operation@ == "build rotary tables"@ && reason@
                        == "max_seq_len must be nonzero"@
                },
                _ => false,
            },
    {
        build_checks("build cross attention", D_MODEL / N_HEADS, rotary_max_seq_len)?;
        Ok(CrossAttention { causal, rotary_max_seq_len })
    }

    /// The model width both inputs consume and the output produces.
    pub fn d_model(&self) -> (r: usize)
        ensures
            r == D_MODEL,
    {
        D_MODEL
    }

    /// Width of one head, `D_MODEL / N_HEADS`.
    pub fn head_dim() -> (r: usize)
        requires
            N_HEADS > 0,
        ensures
            r == D_MODEL / N_HEADS,
    {
        D_MODEL / N_HEADS
    }

    /// Number of query heads.
    pub fn n_heads() -> (r: usize)
        ensures
            r == N_HEADS,
    {
        N_HEADS
    }

    /// Number of key/value heads.
    pub fn n_kv_heads() -> (r: usize)
        ensures
            r == N_KV_HEADS,
    {
        N_KV_HEADS
    }

    /// How many query heads share each key/value head.
    pub fn heads_per_group(&self) -> (r: usize)
        ensures
            r == N_HEADS / N_KV_HEADS,
    {
        proof {
            use_type_invariant(self);
        }
        N_HEADS / N_KV_HEADS
    }

    /// Whether the module masks attention causally.
    pub fn is_causal(&self) -> (r: bool)
        ensures
            r == self.spec_causal(),
    {
        self.causal
    }

    /// The positions the rotary tables cover, when rotary positions are used.
    pub fn rotary_max_seq_len(&self) -> (r: Option<usize>)
        ensures
            r == self.spec_rotary(),
    {
        self.rotary_max_seq_len
    }

    /// The shape a forward pass over `(query, memory)` produces,
    /// `[batch, seq_query, D_MODEL]`, or why the inputs are refused: both
    /// must be rank 3 and `D_MODEL` wide with one batch, and with rotary
    /// positions neither may be longer than the tables.
    pub fn output_dims(&self, query: &[usize], memory: &[usize]) -> (r: Result<Vec<usize>, Error>)
        ensures
            match cross_forward_refusal(query@, memory@, D_MODEL, self.spec_rotary()) {
                None => r matches Ok(out) && out@ == query@,
                Some(reason) => refused_with(r, "cross attention forward"@, reason),
            },
    {
        let operation = "cross attention forward";
        check_input_shape(operation, "query input", "query", query, D_MODEL)?;
        check_input_shape(operation, "memory input", "memory", memory, D_MODEL)?;
        if memory[0] != query[0] {
            let mut reason = String::from_str("query batch ");
            reason.append(usize_text(query[0]).as_str());
            reason.append(" does not match memory batch ");
            reason.append(usize_text(memory[0]).as_str());
            return Err(Error::InvalidModuleState { operation, reason });
        }
        match self.rotary_max_seq_len {
            Some(max_seq_len) => {
                if query[1] > max_seq_len || memory[1] > max_seq_len {
                    let mut what = String::from_str("query length ");
                    what.append(usize_text(query[1]).as_str());
                    what.append(" and memory length ");
                    what.append(usize_text(memory[1]).as_str());
                    what.append(" must not exceed");
                    return Err(
                        Error::InvalidModuleState {
                            operation,
                            reason: rotary_extent_reason(what, max_seq_len),
                        },
                    );
                }
            },
            None => {},
        }
        Ok(copy_rank3(query))
    }

    /// Projects the memory of shape `memory` into an empty cache, once, for
    /// reuse across decode steps: the memory is checked against the module
    /// and the cache, and its keys and values fill the cache from position
    /// `0`. A refused memory leaves the cache as it was.
    pub fn prefill_memory(&self, memory: &[usize], cache: &mut KvCache) -> (r: Result<(), Error>)
        requires
            old(cache).well_formed(),
        ensures
            final(cache).well_formed(),
            final(cache).spec_dims() == old(cache).spec_dims(),
            match prefill_refusal(
                memory@,
                D_MODEL,
                N_KV_HEADS,
                D_MODEL / N_HEADS,
                self.spec_rotary(),
                *old(cache),
            ) {
                Some(reason) => refused_with(r, "cross attention prefill_memory"@, reason)
                    && final(cache).spec_len() == old(cache).spec_len(),
                None => if memory@[1] > old(cache).spec_dims()[2] {
                    &&& r matches Err(Error::CacheCapacityExceeded { requested, capacity, .. })
                        && requested == memory@[1] && capacity == old(cache).spec_dims()[2]
                    &&& final(cache).spec_len() == 0
                } else {
                    &&& r is Ok
                    &&& final(cache).spec_len() == memory@[1]
                },
            },
    {
        proof {
            use_type_invariant(self);
        }
        let operation = "cross attention prefill_memory";
        check_input_shape(operation, "memory input", "memory", memory, D_MODEL)?;
        if !cache.is_empty() {
            let mut reason = String::from_str("the cache already holds ");
            reason.append(usize_text(cache.len()).as_str());
            reason.append(" tokens; reset it before prefilling new memory");
            return Err(Error::InvalidModuleState { operation, reason });
        }
        let batch = memory[0];
        let mem_seq = memory[1];
        let head_dim = D_MODEL / N_HEADS;
        check_cache_fit(operation, "memory", batch, N_KV_HEADS, head_dim, cache)?;
        match self.rotary_max_seq_len {
            Some(max_seq_len) => {
                if mem_seq > max_seq_len {
                    return Err(
                        Error::InvalidModuleState {
                            operation,
                            reason: exceeds_reason("memory length ", mem_seq, max_seq_len),
                        },
                    );
                }
            },
            None => {},
        }
        let keys = step_dims(batch, N_KV_HEADS, mem_seq, head_dim);
        cache.append(keys.as_slice(), keys.as_slice())?;
        Ok(())
    }

    /// The bookkeeping of one decode step of queries of shape `dims`, the
    /// first at absolute position `query_pos`, against memory already
    /// prefilled into `cache`, which is read and never appended to. The
    /// step's causal mask spans the whole memory and continues the diagonal
    /// from `query_pos`.
    pub fn decode_step(&self, dims: &[usize], query_pos: usize, cache: &KvCache) -> (r: Result<
        DecodeStep,
        Error,
    >)
        ensures
            match cross_decode_refusal(
                dims@,
                query_pos,
                self.spec_causal(),
                D_MODEL,
                N_KV_HEADS,
                D_MODEL / N_HEADS,
                self.spec_rotary(),
                *cache,
            ) {
                Some(reason) => refused_with(r, "cross attention forward_with_cache"@, reason),
                None => r == Ok::<DecodeStep, Error>(
                    DecodeStep {
                        batch: dims@[0],
                        seq: dims@[1],
                        position: query_pos,
                        mask: if self.spec_causal() {
                            Some(
                                CausalMask {
                                    rows: dims@[1],
                                    cols: cache.spec_len(),
                                    offset: query_pos,
                                },
                            )
                        } else {
                            None
                        },
                    },
                ),
            },
    {
        proof {
            use_type_invariant(self);
        }
        let operation = "cross attention forward_with_cache";
        check_input_shape(operation, "query input", "query", dims, D_MODEL)?;
        let batch = dims[0];
        let seq = dims[1];
        let head_dim = D_MODEL / N_HEADS;
        check_cache_fit(operation, "query", batch, N_KV_HEADS, head_dim, cache)?;
        if cache.is_empty() {
            return Err(
                Error::InvalidModuleState {
                    operation,
                    reason: String::from_str(
                        "the cache is empty; prefill the memory with prefill_memory before decoding against it",
                    ),
                },
            );
        }
        match self.rotary_max_seq_len {
            Some(max_seq_len) => {
                let end = query_pos.saturating_add(seq);
                if end > max_seq_len {
                    return Err(
                        Error::InvalidModuleState {
                            operation,
                            reason: exceeds_reason("position ", end, max_seq_len),
                        },
                    );
                }
            },
            None => {},
        }
        let mask = if self.causal {
            if query_pos as u64 > 9223372036854775807u64 {
                return Err(
                    Error::InvalidModuleState {
                        operation,
                        reason: String::from_str("query_pos does not fit the mask's diagonal offset"),
                    },
                );
            }
            Some(CausalMask { rows: seq, cols: cache.len(), offset: query_pos })
        } else {
            None
        };
        Ok(DecodeStep { batch, seq, position: query_pos, mask })
    }
}

impl<
    const D_MODEL: usize,
    const N_HEADS: usize,
    const N_KV_HEADS: usize,
> ShapeInfo for CrossAttention<D_MODEL, N_HEADS, N_KV_HEADS> {
    /// The head configuration.
    open spec fn spec_shape_info(&self) -> Option<Seq<char>> {
        Some(heads_info(D_MODEL, N_HEADS, N_KV_HEADS))
    }

    /// Reports the head configuration.
    fn shape_info(&self) -> (r: Option<String>)
        ensures
            r matches Some(text) && text@ == heads_info(D_MODEL, N_HEADS, N_KV_HEADS),
    {
        proof {
            use_type_invariant(self);
        }
        Some(heads_info_string(D_MODEL, N_HEADS, N_KV_HEADS))
    }
}

/// A cross-attention decode step never places queries past the rotary
/// tables: with tables of `max_seq_len` positions, a step whose queries
/// would reach past them (`query_pos + seq > max_seq_len`) is refused,
/// whatever else holds of the step and the cache. Past `usize::MAX` the
/// position saturates, so there the refusal needs tables short of
/// `usize::MAX`.
pub proof fn lemma_cross_decode_refuses_past_the_tables(
    dims: Seq<usize>,
    query_pos: usize,
    causal: bool,
    d_model: usize,
    kv_heads: usize,
    head_dim: usize,
    max_seq_len: usize,
    cache: KvCache,
)
    requires
        dims.len() == 3,
        query_pos + dims[1] > max_seq_len,
        query_pos + dims[1] <= usize::MAX || max_seq_len < usize::MAX,
    ensures
        cross_decode_refusal(
            dims,
            query_pos,
            causal,
            d_model,
            kv_heads,
            head_dim,
            Some(max_seq_len),
            cache,
        ) is Some,
{
    assert(saturating_sum(query_pos, dims[1]) > max_seq_len);
}

/// The causal mask of the composed attention fallback for `seq_q` queries
/// over `seq_kv` keys, right-aligned as the fused kernel aligns it: when the
/// keys lead, the last `seq_q` rows of the full `[seq_kv, seq_kv]` triangle;
/// otherwise a plain `[seq_q, seq_kv]` triangle.
pub fn composed_causal_mask(seq_q: usize, seq_kv: usize) -> (r: CausalMask)
    ensures
        r == composed_causal_mask_spec(seq_q, seq_kv),
{
    if seq_kv >= seq_q {
        CausalMask { rows: seq_q, cols: seq_kv, offset: seq_kv - seq_q }
    } else {
        CausalMask { rows: seq_q, cols: seq_kv, offset: 0 }
    }
}

/// A decode step continues the diagonal: the mask of a self-attention step
/// of `seq` new positions after `past` cached ones lets each new position
/// see exactly what its row of the full causal mask over all `past + seq`
/// positions lets it see.
pub proof fn lemma_decode_mask_continues(past: usize, seq: usize)
    requires
        past + seq <= usize::MAX,
    ensures
        forall|i: int, j: int|
            0 <= i < seq ==> #[trigger] mask_allows(
                CausalMask { rows: seq, cols: (past + seq) as usize, offset: past },
                i,
                j,
            ) == mask_allows(full_mask((past + seq) as usize), past + i, j),
{
}

/// When the keys lead, the composed fallback's mask is the bottom `seq_q`
/// rows of the full causal mask over the keys, which is what the fused
/// kernel applies.
pub proof fn lemma_composed_mask_right_aligned(seq_q: usize, seq_kv: usize)
    requires
        seq_q <= seq_kv,
    ensures
        forall|i: int, j: int|
            0 <= i < seq_q ==> #[trigger] mask_allows(composed_causal_mask_spec(seq_q, seq_kv), i, j)
                == mask_allows(full_mask(seq_kv), seq_kv - seq_q + i, j),
{
}

/// The mask [`composed_causal_mask`] returns.
pub open spec fn composed_causal_mask_spec(seq_q: usize, seq_kv: usize) -> CausalMask {
    if seq_kv >= seq_q {
        CausalMask { rows: seq_q, cols: seq_kv, offset: (seq_kv - seq_q) as usize }
    } else {
        CausalMask { rows: seq_q, cols: seq_kv, offset: 0 }
    }
}

} // verus!
