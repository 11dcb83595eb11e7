//! The bookkeeping of a preallocated key/value cache for incremental
//! decoding.
//!
//! The buffers are `[batch, kv_heads, capacity, head_dim]` and allocated once
//! for the full decode window; an append that would run past the capacity
//! fails rather than reallocating. This type holds the geometry and the
//! logical length, and decides every append: which slots a step writes, or
//! why it is refused. `len` never exceeds the capacity.
use vstd::prelude::*;
use crate::error::Error;
use crate::shapes::{DimKind, ShapeType};
use crate::text::{decimal, dims_string, dims_text, usize_text};

verus! {

/// Whether a cache shape is fully static and of rank four.
pub open spec fn is_static_rank4(shape: ShapeType) -> bool {
    match shape {
        ShapeType::Dims(dims) => dims@.len() == 4 && forall|i: int|
            0 <= i < 4 ==> #[trigger] dims@[i] is Static,
        _ => false,
    }
}

/// Geometry and logical length of a key/value cache.
#[derive(Debug, Clone, Copy, PartialEq, Eq)]
pub struct KvCache {
    batch: usize,
    kv_heads: usize,
    capacity: usize,
    head_dim: usize,
    len: usize,
}

/// The static extent an axis kind gives, as `Debug` spells an
/// `Option<usize>`: `Some(n)` for a fixed extent, `None` for a runtime one.
pub open spec fn extent_text(d: DimKind) -> Seq<char> {
    match d {
        DimKind::Static(n) => "Some("@ + decimal(n as nat) + ")"@,
        DimKind::Runtime => "None"@,
    }
}

/// Static extents as `Debug` separates them in a list.
pub open spec fn extent_items(kinds: Seq<DimKind>) -> Seq<char>
    decreases kinds.len(),
{
    if kinds.len() == 0 {
        Seq::empty()
    } else if kinds.len() == 1 {
        extent_text(kinds[0])
    } else {
        extent_items(kinds.drop_last()) + ", "@ + extent_text(kinds.last())
    }
}

/// How a refused cache shape is described, from the rank and the static
/// extents the shape type proves: the extents themselves when there is one
/// per axis, the rank with its (empty) extents otherwise, and a shape of
/// unknown rank as such.
pub open spec fn geometry_described(shape: ShapeType) -> Seq<char> {
    match shape {
        ShapeType::Unranked => "a non-static shape (rank None)"@,
        ShapeType::Ranked(n) => "rank "@ + decimal(n as nat) + " with static extents []"@,
        ShapeType::Dims(dims) => if dims@.len() > 0 {
            "["@ + extent_items(dims@) + "]"@
        } else {
            "rank 0 with static extents []"@
        },
    }
}

/// The refusal of a cache shape that is not fully static rank-4.
pub open spec fn geometry_text(shape: ShapeType) -> Seq<char> {
    "KvCache requires a fully static rank-4 shape [batch, kv_heads, capacity, head_dim]; got "@
        + geometry_described(shape)
}

fn extent_string(d: DimKind) -> (r: String)
    ensures
        r@ == extent_text(d),
{
    match d {
        DimKind::Static(n) => {
            let mut s = String::from_str("Some(");
            s.append(usize_text(n).as_str());
            s.append(")");
            s
        },
        DimKind::Runtime => String::from_str("None"),
    }
}

fn geometry_message(shape: &ShapeType) -> (r: String)
    ensures
        r@ == geometry_text(*shape),
{
    let mut m = String::from_str(
        "KvCache requires a fully static rank-4 shape [batch, kv_heads, capacity, head_dim]; got ",
    );
    match shape {
        ShapeType::Unranked => m.append("a non-static shape (rank None)"),
        ShapeType::Ranked(n) => {
            m.append("rank ");
            m.append(usize_text(*n).as_str());
            m.append(" with static extents []");
        },
        ShapeType::Dims(dims) => {
            if dims.len() == 0 {
                m.append("rank 0 with static extents []");
                return m;
            }
            m.append("[");
            let mut items = extent_string(dims[0]);
            proof {
                assert(dims@.subrange(0, 1).len() == 1);
            }
            let mut i: usize = 1;
            while i < dims.len()
                invariant
                    1 <= i <= dims@.len(),
                    items@ == extent_items(dims@.subrange(0, i as int)),
                decreases dims.len() - i,
            {
                items.append(", ");
                items.append(extent_string(dims[i]).as_str());
                proof {
                    assert(dims@.subrange(0, i + 1).drop_last() =~= dims@.subrange(0, i as int));
                }
                i = i + 1;
            }
            proof {
                assert(dims@.subrange(0, dims@.len() as int) =~= dims@);
            }
            m.append(items.as_str());
            m.append("]");
        },
    }
    m
}

/// Why keys of shape `keys` and values of shape `values` are refused by a
/// cache of geometry `cache`, if they are.
pub open spec fn append_refusal(keys: Seq<usize>, values: Seq<usize>, cache: Seq<usize>) -> Option<
    Seq<char>,
> {
    if keys.len() != 4 {
        Some("expected rank-4 keys [batch, kv_heads, seq, head_dim], got "@ + dims_text(keys))
    } else if values != keys {
        Some(
            "keys "@ + dims_text(keys) + " and values "@ + dims_text(values)
                + " must have the same shape"@,
        )
    } else if keys[0] != cache[0] || keys[1] != cache[1] || keys[3] != cache[3] {
        Some(
            "key/value shape "@ + dims_text(keys)
                + " does not match the cache [batch, kv_heads, capacity, head_dim] "@ + dims_text(
                cache,
            ),
        )
    } else {
        None
    }
}

impl KvCache {
    /// `[batch, kv_heads, capacity, head_dim]`.
    pub closed spec fn spec_dims(self) -> Seq<usize> {
        seq![self.batch, self.kv_heads, self.capacity, self.head_dim]
    }

    /// Number of tokens currently stored.
    pub closed spec fn spec_len(self) -> usize {
        self.len
    }

    /// The stored length never exceeds the capacity.
    pub closed spec fn well_formed(self) -> bool {
        self.len <= self.capacity
    }

    /// An empty cache with the geometry of `shape`, which must be a fully
    /// static rank-4 shape `[batch, kv_heads, capacity, head_dim]`.
    pub fn new(shape: &ShapeType) -> (r: Result<KvCache, Error>)
        ensures
            r is Ok <==> is_static_rank4(*shape),
            r matches Err(e) ==> e matches Error::InvalidModuleState { operation, reason }
                && operation@ == "KvCache::new"@ && reason@ == geometry_text(*shape),
            r matches Ok(c) ==> c.well_formed() && c.spec_len() == 0 && match *shape {
                ShapeType::Dims(dims) => c.spec_dims() == dims@.map_values(
                    |d: DimKind| match d {
                        DimKind::Static(n) => n,
                        DimKind::Runtime => 0usize,
                    },
                ),
                _ => false,
            },
    {
        match shape {
            ShapeType::Dims(dims) => {
                if dims.len() == 4 {
                    match (dims[0], dims[1], dims[2], dims[3]) {
                        (
                            DimKind::Static(batch),
                            DimKind::Static(kv_heads),
                            DimKind::Static(capacity),
                            DimKind::Static(head_dim),
                        ) => {
                            let r = KvCache { batch, kv_heads, capacity, head_dim, len: 0 };
                            proof {
                                assert(r.spec_dims() =~= dims@.map_values(
                                    |d: DimKind| match d {
                                        DimKind::Static(n) => n,
                                        DimKind::Runtime => 0usize,
                                    },
                                ));
                            }
                            return Ok(r);
                        },
                        _ => {},
                    }
                }
            },
            _ => {},
        }
        Err(
            Error::InvalidModuleState {
                operation: "KvCache::new",
                reason: geometry_message(shape),
            },
        )
    }

    /// Number of tokens currently stored (the logical sequence length).
    pub fn len(&self) -> (r: usize)
        ensures
            r == self.spec_len(),
    {
        self.len
    }

    /// Whether the cache holds no tokens.
    pub fn is_empty(&self) -> (r: bool)
        ensures
            r == (self.spec_len() == 0),
    {
        self.len == 0
    }

    /// Full cache geometry: `[batch, kv_heads, capacity, head_dim]`.
    pub fn dims(&self) -> (r: Vec<usize>)
        ensures
            r@ == self.spec_dims(),
    {
        let mut out: Vec<usize> = Vec::new();
        out.push(self.batch);
        out.push(self.kv_heads);
        out.push(self.capacity);
        out.push(self.head_dim);
        proof {
            assert(out@ =~= self.spec_dims());
        }
        out
    }

    /// Preallocated sequence capacity.
    pub fn capacity(&self) -> (r: usize)
        ensures
            r == self.spec_dims()[2],
    {
        self.capacity
    }

    /// Batch extent of the cache.
    pub fn batch(&self) -> (r: usize)
        ensures
            r == self.spec_dims()[0],
    {
        self.batch
    }

    /// Key/value head count stored in the cache.
    pub fn kv_heads(&self) -> (r: usize)
        ensures
            r == self.spec_dims()[1],
    {
        self.kv_heads
    }

    /// Per-head width stored in the cache.
    pub fn head_dim(&self) -> (r: usize)
        ensures
            r == self.spec_dims()[3],
    {
        self.head_dim
    }

    /// Starts a new sequence: the length returns to zero, the geometry stays.
    pub fn reset(&mut self)
        ensures
            final(self).spec_len() == 0,
            final(self).spec_dims() == old(self).spec_dims(),
            final(self).well_formed(),
    {
        self.len = 0;
    }

    /// The shape of the logical keys and values: `[batch, kv_heads, len,
    /// head_dim]`, never the slots past `len`.
    pub fn kv_dims(&self) -> (r: Vec<usize>)
        ensures
            r@ == self.spec_dims().update(2, self.spec_len()),
    {
        let mut out: Vec<usize> = Vec::new();
        out.push(self.batch);
        out.push(self.kv_heads);
        out.push(self.len);
        out.push(self.head_dim);
        proof {
            assert(out@ =~= self.spec_dims().update(2, self.spec_len()));
        }
        out
    }

    /// Appends one decode step whose keys and values have shapes `keys` and
    /// `values`. Both must be the same rank-4 `[batch, kv_heads, seq,
    /// head_dim]` matching the cache; otherwise the module state is refused.
    /// An empty step changes nothing. A step that would run past the capacity
    /// is refused with the length it asked for. Otherwise it is written at
    /// `[len, len + seq)` and the length advances; that range is returned.
    pub fn append(&mut self, keys: &[usize], values: &[usize]) -> (r: Result<
        (usize, usize),
        Error,
    >)
        requires
            old(self).well_formed(),
            keys@.len() == 4 ==> old(self).spec_len() + keys@[2] <= usize::MAX,
        ensures
            final(self).well_formed(),
            final(self).spec_dims() == old(self).spec_dims(),
            ({
                let d = old(self).spec_dims();
                let end = old(self).spec_len() + keys@[2];
                if let Some(reason) = append_refusal(keys@, values@, d) {
                    &&& r matches Err(Error::InvalidModuleState { operation, reason: why })
                        && operation@ == "KvCache::append"@ && why@ == reason
                    &&& final(self).spec_len() == old(self).spec_len()
                } else if end > d[2] {
                    &&& r matches Err(
                        Error::CacheCapacityExceeded { requested, capacity, .. },
                    ) && requested == end && capacity == d[2]
                    &&& final(self).spec_len() == old(self).spec_len()
                } else {
                    &&& r == Ok::<(usize, usize), Error>(
                        (old(self).spec_len(), end as usize),
                    )
                    &&& final(self).spec_len() == end
                }
            }),
    {
        if keys.len() != 4 {
            let mut reason = String::from_str(
                "expected rank-4 keys [batch, kv_heads, seq, head_dim], got ",
            );
            reason.append(dims_string(keys).as_str());
            return Err(Error::InvalidModuleState { operation: "KvCache::append", reason });
        }
        let same = values.len() == 4 && keys[0] == values[0] && keys[1] == values[1] && keys[2]
            == values[2] && keys[3] == values[3];
        proof {
            if same {
                assert(values@ =~= keys@);
            }
        }
        if !same {
            let mut reason = String::from_str("keys ");
            reason.append(dims_string(keys).as_str());
            reason.append(" and values ");
            reason.append(dims_string(values).as_str());
            reason.append(" must have the same shape");
            return Err(Error::InvalidModuleState { operation: "KvCache::append", reason });
        }
        if keys[0] != self.batch || keys[1] != self.kv_heads || keys[3] != self.head_dim {
            let cache = self.dims();
            let mut reason = String::from_str("key/value shape ");
            reason.append(dims_string(keys).as_str());
            reason.append(" does not match the cache [batch, kv_heads, capacity, head_dim] ");
            reason.append(dims_string(cache.as_slice()).as_str());
            return Err(Error::InvalidModuleState { operation: "KvCache::append", reason });
        }
        let seq = keys[2];
        let start = self.len;
        if seq > self.capacity - start {
            return Err(
                Error::CacheCapacityExceeded {
                    operation: "KvCache::append",
                    requested: start + seq,
                    capacity: self.capacity,
                },
            );
        }
        let end = start + seq;
        self.len = end;
        Ok((start, end))
    }
}

} // verus!
