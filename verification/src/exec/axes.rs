//! Shared descriptor axis storage, schema versioning and reduction vocabulary.
//!
//! A descriptor is derived from operand shapes, never asserted, and its field
//! set is a versioned contract: anything cached from descriptor contents is
//! valid only under the schema version it was produced with.
use vstd::prelude::*;
use crate::error::{OperationKind, ShapeError};

verus! {

/// The version of the descriptor field layout.
#[derive(Debug, Clone, Copy, PartialEq, Eq, Structural, PartialOrd, Ord, Hash)]
pub struct DescriptorSchemaVersion(u32);

impl View for DescriptorSchemaVersion {
    type V = u32;

    closed spec fn view(&self) -> u32 {
        self.0
    }
}

impl DescriptorSchemaVersion {
    /// The schema the descriptors are currently frozen at (v3: reductions
    /// and pooling name their operator, broadcasts may name theirs).
    pub fn current() -> (r: DescriptorSchemaVersion)
        ensures
            r@ == 3,
    {
        DescriptorSchemaVersion(3)
    }

    /// Name a specific version, for reading a cache entry or plan back.
    pub fn new(version: u32) -> (r: DescriptorSchemaVersion)
        ensures
            r@ == version,
    {
        DescriptorSchemaVersion(version)
    }

    /// The raw version number.
    pub fn get(self) -> (r: u32)
        ensures
            r == self@,
    {
        self.0
    }

    /// Whether data written under `self` may be read under `other`: exact
    /// equality, since a reinterpreted field is invisible to a range check.
    pub fn is_compatible_with(self, other: DescriptorSchemaVersion) -> (r: bool)
        ensures
            r <==> self@ == other@,
    {
        self.0 == other.0
    }

    /// The `v<N>` spelling used in diagnostics.
    pub fn version_number(self) -> (r: u32)
        ensures
            r == self@,
    {
        self.0
    }
}

/// Which accumulation a distributed reduction performs.
#[derive(Debug, Clone, Copy, PartialEq, Eq, Structural, Hash)]
pub enum ReduceOp {
    /// Add the collapsed elements.
    Sum,
    /// Average the collapsed elements.
    Mean,
    /// Take the largest collapsed element.
    Max,
    /// Take the smallest collapsed element.
    Min,
    /// Multiply the collapsed elements.
    Prod,
}

impl ReduceOp {
    /// The lower-case name of the accumulation.
    pub fn as_str(self) -> (r: &'static str)
        ensures
            r@ == spec_reduce_op_name(self),
    {
        match self {
            ReduceOp::Sum => "sum",
            ReduceOp::Mean => "mean",
            ReduceOp::Max => "max",
            ReduceOp::Min => "min",
            ReduceOp::Prod => "prod",
        }
    }
}

/// The spelling of each accumulation.
pub open spec fn spec_reduce_op_name(op: ReduceOp) -> Seq<char> {
    match op {
        ReduceOp::Sum => "sum"@,
        ReduceOp::Mean => "mean"@,
        ReduceOp::Max => "max"@,
        ReduceOp::Min => "min"@,
        ReduceOp::Prod => "prod"@,
    }
}

// --- axis mask ---------------------------------------------------------------

/// The number of axes a mask addresses inline.
pub const MAX_INLINE_AXES: usize = 64;

/// Whether bit `a` of `m` is set.
pub open spec fn bit(m: u64, a: int) -> bool {
    0 <= a < 64 && ((m >> (a as u64)) & 1u64) == 1u64
}

/// The set bits of `m` below `n`, in ascending order.
pub open spec fn mask_axes(m: u64, n: int) -> Seq<usize>
    decreases n,
{
    if n <= 0 {
        Seq::empty()
    } else if bit(m, n - 1) {
        mask_axes(m, n - 1).push((n - 1) as usize)
    } else {
        mask_axes(m, n - 1)
    }
}

/// Every element is smaller than the next.
pub open spec fn strictly_ascending(s: Seq<usize>) -> bool {
    forall|i: int, j: int| 0 <= i < j < s.len() ==> s[i] < s[j]
}

/// Compact inline storage for up to 64 axes, counted from the front of the
/// shape.
#[derive(Debug, Clone, Copy, PartialEq, Eq, Structural, Hash, Default)]
pub struct AxisMask(u64);

proof fn lemma_mask_axes(m: u64, n: int)
    requires
        0 <= n <= 64,
    ensures
        strictly_ascending(mask_axes(m, n)),
        forall|i: int| 0 <= i < mask_axes(m, n).len() ==> mask_axes(m, n)[i] < n,
        forall|a: usize| #[trigger] mask_axes(m, n).contains(a) <==> (a < n && bit(m, a as int)),
    decreases n,
{
    if n > 0 {
        lemma_mask_axes(m, n - 1);
        let prev = mask_axes(m, n - 1);
        if bit(m, n - 1) {
            let cur = prev.push((n - 1) as usize);
            assert forall|a: usize| #[trigger] cur.contains(a) <==> (a < n && bit(m, a as int)) by {
                if a == (n - 1) as usize {
                    assert(cur[cur.len() - 1] == a);
                } else if cur.contains(a) {
                    let k = choose|k: int| 0 <= k < cur.len() && cur[k] == a;
                    assert(k < prev.len());
                    assert(prev[k] == a);
                    assert(prev.contains(a));
                } else if a < n && bit(m, a as int) {
                    assert(prev.contains(a));
                    let k = choose|k: int| 0 <= k < prev.len() && prev[k] == a;
                    assert(cur[k] == a);
                }
            }
        }
    }
}

proof fn lemma_bit_or(m: u64, a: u64, b: u64)
    requires
        a < 64,
        b < 64,
    ensures
        (((m | (1u64 << a)) >> b) & 1u64 == 1u64) <==> (((m >> b) & 1u64 == 1u64) || a == b),
{
    assert((((m | (1u64 << a)) >> b) & 1u64 == 1u64) <==> (((m >> b) & 1u64 == 1u64) || a == b))
        by (bit_vector)
        requires
            a < 64,
            b < 64,
    ;
}

proof fn lemma_zero_mask(b: u64)
    requires
        b < 64,
    ensures
        !(((0u64 >> b) & 1u64) == 1u64),
{
    assert(!(((0u64 >> b) & 1u64) == 1u64)) by (bit_vector);
}

proof fn lemma_no_bits_is_zero(x: u64)
    requires
        (x >> 0u64) & 1u64 == 0u64,
        (x >> 1u64) & 1u64 == 0u64,
        (x >> 2u64) & 1u64 == 0u64,
        (x >> 3u64) & 1u64 == 0u64,
        (x >> 4u64) & 1u64 == 0u64,
        (x >> 5u64) & 1u64 == 0u64,
        (x >> 6u64) & 1u64 == 0u64,
        (x >> 7u64) & 1u64 == 0u64,
        (x >> 8u64) & 1u64 == 0u64,
        (x >> 9u64) & 1u64 == 0u64,
        (x >> 10u64) & 1u64 == 0u64,
        (x >> 11u64) & 1u64 == 0u64,
        (x >> 12u64) & 1u64 == 0u64,
        (x >> 13u64) & 1u64 == 0u64,
        (x >> 14u64) & 1u64 == 0u64,
        (x >> 15u64) & 1u64 == 0u64,
        (x >> 16u64) & 1u64 == 0u64,
        (x >> 17u64) & 1u64 == 0u64,
        (x >> 18u64) & 1u64 == 0u64,
        (x >> 19u64) & 1u64 == 0u64,
        (x >> 20u64) & 1u64 == 0u64,
        (x >> 21u64) & 1u64 == 0u64,
        (x >> 22u64) & 1u64 == 0u64,
        (x >> 23u64) & 1u64 == 0u64,
        (x >> 24u64) & 1u64 == 0u64,
        (x >> 25u64) & 1u64 == 0u64,
        (x >> 26u64) & 1u64 == 0u64,
        (x >> 27u64) & 1u64 == 0u64,
        (x >> 28u64) & 1u64 == 0u64,
        (x >> 29u64) & 1u64 == 0u64,
        (x >> 30u64) & 1u64 == 0u64,
        (x >> 31u64) & 1u64 == 0u64,
        (x >> 32u64) & 1u64 == 0u64,
        (x >> 33u64) & 1u64 == 0u64,
        (x >> 34u64) & 1u64 == 0u64,
        (x >> 35u64) & 1u64 == 0u64,
        (x >> 36u64) & 1u64 == 0u64,
        (x >> 37u64) & 1u64 == 0u64,
        (x >> 38u64) & 1u64 == 0u64,
        (x >> 39u64) & 1u64 == 0u64,
        (x >> 40u64) & 1u64 == 0u64,
        (x >> 41u64) & 1u64 == 0u64,
        (x >> 42u64) & 1u64 == 0u64,
        (x >> 43u64) & 1u64 == 0u64,
        (x >> 44u64) & 1u64 == 0u64,
        (x >> 45u64) & 1u64 == 0u64,
        (x >> 46u64) & 1u64 == 0u64,
        (x >> 47u64) & 1u64 == 0u64,
        (x >> 48u64) & 1u64 == 0u64,
        (x >> 49u64) & 1u64 == 0u64,
        (x >> 50u64) & 1u64 == 0u64,
        (x >> 51u64) & 1u64 == 0u64,
        (x >> 52u64) & 1u64 == 0u64,
        (x >> 53u64) & 1u64 == 0u64,
        (x >> 54u64) & 1u64 == 0u64,
        (x >> 55u64) & 1u64 == 0u64,
        (x >> 56u64) & 1u64 == 0u64,
        (x >> 57u64) & 1u64 == 0u64,
        (x >> 58u64) & 1u64 == 0u64,
        (x >> 59u64) & 1u64 == 0u64,
        (x >> 60u64) & 1u64 == 0u64,
        (x >> 61u64) & 1u64 == 0u64,
        (x >> 62u64) & 1u64 == 0u64,
        (x >> 63u64) & 1u64 == 0u64,
    ensures
        x == 0u64,
{
    assert(x == 0u64) by (bit_vector)
        requires
            (x >> 0u64) & 1u64 == 0u64,
            (x >> 1u64) & 1u64 == 0u64,
            (x >> 2u64) & 1u64 == 0u64,
            (x >> 3u64) & 1u64 == 0u64,
            (x >> 4u64) & 1u64 == 0u64,
            (x >> 5u64) & 1u64 == 0u64,
            (x >> 6u64) & 1u64 == 0u64,
            (x >> 7u64) & 1u64 == 0u64,
            (x >> 8u64) & 1u64 == 0u64,
            (x >> 9u64) & 1u64 == 0u64,
            (x >> 10u64) & 1u64 == 0u64,
            (x >> 11u64) & 1u64 == 0u64,
            (x >> 12u64) & 1u64 == 0u64,
            (x >> 13u64) & 1u64 == 0u64,
            (x >> 14u64) & 1u64 == 0u64,
            (x >> 15u64) & 1u64 == 0u64,
            (x >> 16u64) & 1u64 == 0u64,
            (x >> 17u64) & 1u64 == 0u64,
            (x >> 18u64) & 1u64 == 0u64,
            (x >> 19u64) & 1u64 == 0u64,
            (x >> 20u64) & 1u64 == 0u64,
            (x >> 21u64) & 1u64 == 0u64,
            (x >> 22u64) & 1u64 == 0u64,
            (x >> 23u64) & 1u64 == 0u64,
            (x >> 24u64) & 1u64 == 0u64,
            (x >> 25u64) & 1u64 == 0u64,
            (x >> 26u64) & 1u64 == 0u64,
            (x >> 27u64) & 1u64 == 0u64,
            (x >> 28u64) & 1u64 == 0u64,
            (x >> 29u64) & 1u64 == 0u64,
            (x >> 30u64) & 1u64 == 0u64,
            (x >> 31u64) & 1u64 == 0u64,
            (x >> 32u64) & 1u64 == 0u64,
            (x >> 33u64) & 1u64 == 0u64,
            (x >> 34u64) & 1u64 == 0u64,
            (x >> 35u64) & 1u64 == 0u64,
            (x >> 36u64) & 1u64 == 0u64,
            (x >> 37u64) & 1u64 == 0u64,
            (x >> 38u64) & 1u64 == 0u64,
            (x >> 39u64) & 1u64 == 0u64,
            (x >> 40u64) & 1u64 == 0u64,
            (x >> 41u64) & 1u64 == 0u64,
            (x >> 42u64) & 1u64 == 0u64,
            (x >> 43u64) & 1u64 == 0u64,
            (x >> 44u64) & 1u64 == 0u64,
            (x >> 45u64) & 1u64 == 0u64,
            (x >> 46u64) & 1u64 == 0u64,
            (x >> 47u64) & 1u64 == 0u64,
            (x >> 48u64) & 1u64 == 0u64,
            (x >> 49u64) & 1u64 == 0u64,
            (x >> 50u64) & 1u64 == 0u64,
            (x >> 51u64) & 1u64 == 0u64,
            (x >> 52u64) & 1u64 == 0u64,
            (x >> 53u64) & 1u64 == 0u64,
            (x >> 54u64) & 1u64 == 0u64,
            (x >> 55u64) & 1u64 == 0u64,
            (x >> 56u64) & 1u64 == 0u64,
            (x >> 57u64) & 1u64 == 0u64,
            (x >> 58u64) & 1u64 == 0u64,
            (x >> 59u64) & 1u64 == 0u64,
            (x >> 60u64) & 1u64 == 0u64,
            (x >> 61u64) & 1u64 == 0u64,
            (x >> 62u64) & 1u64 == 0u64,
            (x >> 63u64) & 1u64 == 0u64,
    ;
}

proof fn lemma_xor_bit(m1: u64, m2: u64, a: u64)
    requires
        a < 64,
        (((m1 >> a) & 1u64) == 1u64) == (((m2 >> a) & 1u64) == 1u64),
    ensures
        ((m1 ^ m2) >> a) & 1u64 == 0u64,
{
    assert(((m1 ^ m2) >> a) & 1u64 == 0u64) by (bit_vector)
        requires
            a < 64,
            (((m1 >> a) & 1u64) == 1u64) == (((m2 >> a) & 1u64) == 1u64),
    ;
}

/// Two masks with the same set bits are the same mask.
proof fn lemma_masks_equal(m1: u64, m2: u64)
    requires
        forall|a: int| 0 <= a < 64 ==> bit(m1, a) == bit(m2, a),
    ensures
        m1 == m2,
{
    assert forall|a: u64| a < 64 implies #[trigger] ((m1 ^ m2) >> a) & 1u64 == 0u64 by {
        assert(bit(m1, a as int) == bit(m2, a as int));
        lemma_xor_bit(m1, m2, a);
    }
    lemma_no_bits_is_zero(m1 ^ m2);
    assert(m1 == m2) by (bit_vector)
        requires
            m1 ^ m2 == 0u64,
    ;
}

/// Two strictly ascending lists with the same members are the same list.
proof fn lemma_ascending_same_members(s: Seq<usize>, t: Seq<usize>)
    requires
        strictly_ascending(s),
        strictly_ascending(t),
        s.to_set() == t.to_set(),
    ensures
        s == t,
{
    lemma_ascending_no_duplicates(s);
    lemma_ascending_no_duplicates(t);
    assert(s.len() == t.len());
    assert forall|i: int| 0 <= i < s.len() implies s[i] == t[i] by {
        if s[i] != t[i] {
            let first = choose|k: int| 0 <= k < s.len() && s[k] != t[k] && forall|j: int|
                0 <= j < k ==> s[j] == t[j];
            assert(exists|k: int| 0 <= k < s.len() && s[k] != t[k] && forall|j: int|
                0 <= j < k ==> s[j] == t[j]) by {
                lemma_first_difference(s, t, i);
            }
            if s[first] < t[first] {
                assert(s.to_set().contains(s[first]));
                assert(t.contains(s[first]));
                let k = choose|k: int| 0 <= k < t.len() && t[k] == s[first];
                if k < first {
                    assert(s[k] == t[k]);
                    assert(s[k] < s[first]);
                } else if k > first {
                    assert(t[first] < t[k]);
                }
            } else {
                assert(t.to_set().contains(t[first]));
                assert(s.contains(t[first]));
                let k = choose|k: int| 0 <= k < s.len() && s[k] == t[first];
                if k < first {
                    assert(s[k] == t[k]);
                    assert(t[k] < t[first]);
                } else if k > first {
                    assert(s[first] < s[k]);
                }
            }
        }
    }
    assert(s =~= t);
}

proof fn lemma_first_difference(s: Seq<usize>, t: Seq<usize>, i: int)
    requires
        0 <= i < s.len(),
        s.len() == t.len(),
        s[i] != t[i],
    ensures
        exists|k: int| 0 <= k < s.len() && s[k] != t[k] && forall|j: int| 0 <= j < k ==> s[j] == t[j],
    decreases i,
{
    if exists|j: int| 0 <= j < i && s[j] != t[j] {
        let j = choose|j: int| 0 <= j < i && s[j] != t[j];
        lemma_first_difference(s, t, j);
    } else {
        assert(forall|j: int| 0 <= j < i ==> s[j] == t[j]);
    }
}

impl AxisMask {
    /// The ascending list of axes in the mask.
    pub closed spec fn spec_axes(self) -> Seq<usize> {
        mask_axes(self.0, 64)
    }

    /// The empty mask.
    pub fn empty() -> (r: AxisMask)
        ensures
            r.spec_axes() == Seq::<usize>::empty(),
    {
        proof {
            lemma_mask_axes(0u64, 64);
            assert forall|k: int| 0 <= k < 64 implies !bit(0u64, k) by {
                lemma_zero_mask(k as u64);
            }
            if mask_axes(0u64, 64).len() > 0 {
                assert(mask_axes(0u64, 64).contains(mask_axes(0u64, 64)[0]));
            }
        }
        AxisMask(0)
    }

    /// Whether `axis` is in the set.
    pub fn contains(self, axis: usize) -> (r: bool)
        ensures
            r == self.spec_axes().contains(axis),
    {
        proof {
            lemma_mask_axes(self.0, 64);
        }
        axis < MAX_INLINE_AXES && (self.0 >> (axis as u64)) & 1 == 1
    }

    /// How many axes are in the set.
    pub fn count(self) -> (r: usize)
        ensures
            r == self.spec_axes().len(),
    {
        self.axes().len()
    }

    /// Whether the set is empty.
    pub fn is_empty(self) -> (r: bool)
        ensures
            r == (self.spec_axes().len() == 0),
    {
        self.count() == 0
    }

    /// The set with `axis` added, or `None` if `axis` is out of range.
    pub fn insert(self, axis: usize) -> (r: Option<AxisMask>)
        ensures
            axis >= 64 ==> r is None,
            axis < 64 ==> (r matches Some(m) && m.spec_axes().to_set() == self.spec_axes().to_set().insert(axis)),
    {
        if axis < MAX_INLINE_AXES {
            let result = AxisMask(self.0 | (1u64 << (axis as u64)));
            proof {
                lemma_mask_axes(self.0, 64);
                lemma_mask_axes(result.0, 64);
                assert forall|b: usize| #[trigger] result.spec_axes().to_set().contains(b)
                    <==> self.spec_axes().to_set().insert(axis).contains(b) by {
                    if b < 64 {
                        lemma_bit_or(self.0, axis as u64, b as u64);
                    }
                }
                assert(result.spec_axes().to_set() =~= self.spec_axes().to_set().insert(axis));
            }
            Some(result)
        } else {
            None
        }
    }

    /// The axes in the set, in ascending order.
    pub fn axes(self) -> (r: Vec<usize>)
        ensures
            r@ == self.spec_axes(),
            strictly_ascending(r@),
            forall|i: int| 0 <= i < r@.len() ==> #[trigger] r@[i] < 64,
    {
        proof {
            lemma_mask_axes(self.0, 64);
        }
        let mut out: Vec<usize> = Vec::new();
        let mut a: usize = 0;
        while a < MAX_INLINE_AXES
            invariant
                a <= 64,
                out@ == mask_axes(self.0, a as int),
            decreases 64 - a,
        {
            if (self.0 >> (a as u64)) & 1 == 1 {
                out.push(a);
            }
            a = a + 1;
        }
        out
    }
}

// --- axis set -----------------------------------------------------------------

/// A set of descriptor axes of any rank: inline up to axis 63, spilled into an
/// ascending vector beyond that.
#[derive(Debug, PartialEq, Eq, Hash)]
pub struct AxisSet(AxisSetRepr);

#[derive(Debug, Clone, PartialEq, Eq, Hash)]
enum AxisSetRepr {
    Empty,
    Inline(AxisMask),
    Spilled(Vec<usize>),
}

/// Whether `s` is an interval: every value between two members is a member.
pub open spec fn is_interval(s: Set<usize>) -> bool {
    forall|a: usize, b: usize, c: usize|
        #![trigger s.contains(a), s.contains(b), s.contains(c)]
        s.contains(a) && s.contains(b) && a <= c <= b ==> s.contains(c)
}

/// Whether consecutive entries of `s` differ by exactly one.
pub open spec fn consecutive(s: Seq<usize>) -> bool {
    forall|i: int| 0 <= i < s.len() - 1 ==> #[trigger] s[i] + 1 == s[i + 1]
}

proof fn lemma_ascending_no_duplicates(s: Seq<usize>)
    requires
        strictly_ascending(s),
    ensures
        s.no_duplicates(),
        s.to_set().len() == s.len(),
{
    assert forall|i: int, j: int| 0 <= i < s.len() && 0 <= j < s.len() && i != j implies s[i]
        != s[j] by {
        if i < j {
        } else {
        }
    }
    s.unique_seq_to_set();
}

proof fn lemma_consecutive_values(s: Seq<usize>, i: int)
    requires
        consecutive(s),
        0 <= i < s.len(),
    ensures
        s[i] == s[0] + i,
    decreases i,
{
    if i > 0 {
        lemma_consecutive_values(s, i - 1);
        assert(s[i - 1] + 1 == s[i]);
    }
}

proof fn lemma_consecutive_iff_interval(s: Seq<usize>)
    requires
        strictly_ascending(s),
    ensures
        consecutive(s) <==> is_interval(s.to_set()),
{
    let set = s.to_set();
    if consecutive(s) {
        assert forall|a: usize, b: usize, c: usize|
            set.contains(a) && set.contains(b) && a <= c <= b implies set.contains(c) by {
            let ia = choose|k: int| 0 <= k < s.len() && s[k] == a;
            lemma_consecutive_values(s, ia);
            let ib = choose|k: int| 0 <= k < s.len() && s[k] == b;
            lemma_consecutive_values(s, ib);
            let ic = ia + (c - a);
            assert(0 <= ic < s.len()) by {
                if ib < ia {
                } else {
                }
            }
            lemma_consecutive_values(s, ic);
            assert(s[ic] == c);
        }
    }
    if is_interval(set) {
        assert forall|i: int| 0 <= i < s.len() - 1 implies #[trigger] s[i] + 1 == s[i + 1] by {
            assert(s[i] < s[i + 1]);
            if s[i] + 1 < s[i + 1] {
                let c = (s[i] + 1) as usize;
                assert(set.contains(s[i]));
                assert(set.contains(s[i + 1]));
                assert(set.contains(c));
                let k = choose|k: int| 0 <= k < s.len() && s[k] == c;
                if k <= i {
                    if k < i {
                        assert(s[k] < s[i]);
                    }
                } else if k >= i + 1 {
                    if k > i + 1 {
                        assert(s[i + 1] < s[k]);
                    }
                }
            }
        }
    }
}

impl AxisSet {
    /// The members, in ascending order.
    pub closed spec fn spec_axes(self) -> Seq<usize> {
        match self.0 {
            AxisSetRepr::Empty => Seq::empty(),
            AxisSetRepr::Inline(mask) => mask.spec_axes(),
            AxisSetRepr::Spilled(axes) => axes@,
        }
    }

    /// The canonical representation: no members is `Empty`; members all
    /// below 64 are an `Inline` mask that is not empty; otherwise an
    /// ascending `Spilled` list whose last member is at least 64.
    #[verifier::type_invariant]
    pub closed spec fn wf(self) -> bool {
        match self.0 {
            AxisSetRepr::Empty => true,
            AxisSetRepr::Inline(mask) => mask.spec_axes().len() > 0,
            AxisSetRepr::Spilled(axes) => strictly_ascending(axes@) && axes@.len() > 0
                && axes@.last() >= 64,
        }
    }

    proof fn lemma_ascending(self)
        requires
            self.wf(),
        ensures
            strictly_ascending(self.spec_axes()),
            self.spec_axes().to_set().len() == self.spec_axes().len(),
    {
        match self.0 {
            AxisSetRepr::Inline(mask) => {
                lemma_mask_axes(mask.0, 64);
            },
            _ => {},
        }
        lemma_ascending_no_duplicates(self.spec_axes());
    }
}

impl View for AxisSet {
    type V = Set<usize>;

    closed spec fn view(&self) -> Set<usize> {
        self.spec_axes().to_set()
    }
}

impl Clone for AxisSet {
    fn clone(&self) -> (r: AxisSet)
        ensures
            r@ == self@,
    {
        proof {
            use_type_invariant(self);
        }
        match &self.0 {
            AxisSetRepr::Empty => AxisSet(AxisSetRepr::Empty),
            AxisSetRepr::Inline(mask) => AxisSet(AxisSetRepr::Inline(*mask)),
            AxisSetRepr::Spilled(axes) => {
                let copy = axes.clone();
                assert(copy@ == axes@);
                AxisSet(AxisSetRepr::Spilled(copy))
            },
        }
    }
}

impl Default for AxisSet {
    fn default() -> (r: AxisSet)
        ensures
            r@ == Set::<usize>::empty(),
    {
        AxisSet::empty()
    }
}

impl AxisSet {
    /// The empty set.
    pub fn empty() -> (r: AxisSet)
        ensures
            r@ == Set::<usize>::empty(),
    {
        let r = AxisSet(AxisSetRepr::Empty);
        assert(r@ =~= Set::<usize>::empty());
        r
    }

    /// Whether `axis` is in the set.
    pub fn contains(&self, axis: usize) -> (r: bool)
        ensures
            r == self@.contains(axis),
    {
        match &self.0 {
            AxisSetRepr::Empty => false,
            AxisSetRepr::Inline(mask) => mask.contains(axis),
            AxisSetRepr::Spilled(axes) => {
                let mut i: usize = 0;
                while i < axes.len()
                    invariant
                        i <= axes.len(),
                        axes@ == self.spec_axes(),
                        forall|j: int| 0 <= j < i ==> axes@[j] != axis,
                    decreases axes.len() - i,
                {
                    if axes[i] == axis {
                        proof {
                            assert(self.spec_axes()[i as int] == axis);
                        }
                        return true;
                    }
                    i = i + 1;
                }
                false
            },
        }
    }

    /// How many axes are in the set.
    pub fn count(&self) -> (r: usize)
        ensures
            r == self@.len(),
    {
        proof {
            use_type_invariant(self);
            self.lemma_ascending();
        }
        match &self.0 {
            AxisSetRepr::Empty => 0,
            AxisSetRepr::Inline(mask) => mask.count(),
            AxisSetRepr::Spilled(axes) => axes.len(),
        }
    }

    /// Whether the set is empty.
    pub fn is_empty(&self) -> (r: bool)
        ensures
            r == (self@ == Set::<usize>::empty()),
    {
        proof {
            use_type_invariant(self);
            self.lemma_ascending();
            if self@.len() == 0 {
                assert(self@.finite());
                self@.lemma_len0_is_empty();
            }
        }
        self.count() == 0
    }

    /// The members in ascending order.
    pub fn axes(&self) -> (r: Vec<usize>)
        ensures
            r@ == self.spec_axes(),
            strictly_ascending(r@),
            r@.to_set() == self@,
    {
        proof {
            use_type_invariant(self);
            self.lemma_ascending();
        }
        match &self.0 {
            AxisSetRepr::Empty => Vec::new(),
            AxisSetRepr::Inline(mask) => mask.axes(),
            AxisSetRepr::Spilled(axes) => axes.clone(),
        }
    }

    /// The set with `axis` added.
    pub fn insert(self, axis: usize) -> (r: AxisSet)
        ensures
            r@ == self@.insert(axis),
    {
        proof {
            use_type_invariant(&self);
            self.lemma_ascending();
        }
        match self.0 {
            AxisSetRepr::Empty => {
                if axis < MAX_INLINE_AXES {
                    let mask = AxisMask::empty();
                    let inserted = mask.insert(axis);
                    let mask = inserted.unwrap();
                    proof {
                        assert(mask.spec_axes().to_set().contains(axis));
                        assert(mask.spec_axes().contains(axis));
                    }
                    let r = AxisSet(AxisSetRepr::Inline(mask));
                    assert(r@ =~= self@.insert(axis));
                    r
                } else {
                    let mut axes: Vec<usize> = Vec::new();
                    axes.push(axis);
                    let r = AxisSet(AxisSetRepr::Spilled(axes));
                    assert(r@ =~= self@.insert(axis)) by {
                        assert(r.spec_axes() =~= seq![axis]);
                        assert(self@ =~= Set::<usize>::empty());
                        assert forall|x: usize| #[trigger] r@.contains(x) <==> x == axis by {
                            if x == axis {
                                assert(r.spec_axes()[0] == x);
                            }
                        }
                    }
                    r
                }
            },
            AxisSetRepr::Inline(mask) => {
                if axis < MAX_INLINE_AXES {
                    let inserted = mask.insert(axis);
                    let grown = inserted.unwrap();
                    proof {
                        assert(grown.spec_axes().to_set().contains(axis));
                        assert(grown.spec_axes().contains(axis));
                    }
                    AxisSet(AxisSetRepr::Inline(grown))
                } else {
                    let mut axes = mask.axes();
                    proof {
                        lemma_mask_axes(mask.0, 64);
                    }
                    let ghost before = axes@;
                    axes.push(axis);
                    proof {
                        assert forall|i: int, j: int| 0 <= i < j < axes@.len() implies axes@[i]
                            < axes@[j] by {
                            if j == axes@.len() - 1 {
                                assert(before[i] < 64);
                            } else {
                                assert(before[i] < before[j]);
                            }
                        }
                        assert(axes@.to_set() =~= before.to_set().insert(axis)) by {
                            assert(axes@ == before.push(axis));
                            before.lemma_push_to_set_commute(axis);
                        }
                    }
                    AxisSet(AxisSetRepr::Spilled(axes))
                }
            },
            AxisSetRepr::Spilled(axes) => {
                let ghost before = axes@;
                let mut axes = axes;
                let mut i: usize = 0;
                while i < axes.len() && axes[i] < axis
                    invariant
                        i <= axes.len(),
                        axes@ == before,
                        forall|j: int| 0 <= j < i ==> axes@[j] < axis,
                    decreases axes.len() - i,
                {
                    i = i + 1;
                }
                if i < axes.len() && axes[i] == axis {
                    let r = AxisSet(AxisSetRepr::Spilled(axes));
                    assert(r@ =~= self@.insert(axis));
                    r
                } else {
                    axes.insert(i, axis);
                    proof {
                        assert forall|p: int, q: int| 0 <= p < q < axes@.len() implies axes@[p]
                            < axes@[q] by {
                            if q < i as int {
                            } else if q == i as int {
                            } else if p < i as int {
                                assert(before[p] < axis);
                                if (i as int) < before.len() {
                                    assert(axis < before[i as int]);
                                    assert(before[i as int] <= before[q - 1]) by {
                                        if (i as int) < q - 1 {
                                            assert(before[i as int] < before[q - 1]);
                                        }
                                    }
                                }
                            } else if p == i as int {
                                assert(axis < before[i as int]);
                                if (i as int) < q - 1 {
                                    assert(before[i as int] < before[q - 1]);
                                }
                            } else {
                                assert(before[p - 1] < before[q - 1]);
                            }
                        }
                        assert(axes@.to_set() =~= before.to_set().insert(axis)) by {
                            assert forall|x: usize| #[trigger] axes@.to_set().contains(x)
                                <==> before.to_set().insert(axis).contains(x) by {
                                if axes@.to_set().contains(x) {
                                    let k = choose|k: int| 0 <= k < axes@.len() && axes@[k] == x;
                                    if k < i {
                                        assert(before[k] == x);
                                    } else if k > i {
                                        assert(before[k - 1] == x);
                                    }
                                }
                                if before.contains(x) {
                                    let k = choose|k: int| 0 <= k < before.len() && before[k] == x;
                                    if k < i {
                                        assert(axes@[k] == x);
                                    } else {
                                        assert(axes@[k + 1] == x);
                                    }
                                }
                                if x == axis {
                                    assert(axes@[i as int] == x);
                                }
                            }
                        }
                    }
                    AxisSet(AxisSetRepr::Spilled(axes))
                }
            },
        }
    }

    /// Every axis below `rank`.
    pub fn all_below(rank: usize) -> (r: AxisSet)
        ensures
            forall|a: usize| #[trigger] r@.contains(a) <==> a < rank,
    {
        let mut set = AxisSet::empty();
        let mut a: usize = 0;
        while a < rank
            invariant
                a <= rank,
                forall|x: usize| #[trigger] set@.contains(x) <==> x < a,
            decreases rank - a,
        {
            set = set.insert(a);
            a = a + 1;
        }
        set
    }

    /// Whether the axes form one run of consecutive indices.
    pub fn is_contiguous_run(&self) -> (r: bool)
        ensures
            r <==> is_interval(self@),
    {
        let axes = self.axes();
        proof {
            lemma_consecutive_iff_interval(axes@);
        }
        if axes.len() < 2 {
            return true;
        }
        let mut i: usize = 0;
        while i + 1 < axes.len()
            invariant
                axes.len() >= 2,
                i + 1 <= axes.len(),
                consecutive(axes@) <==> is_interval(self@),
                forall|j: int| 0 <= j < i ==> #[trigger] axes@[j] + 1 == axes@[j + 1],
            decreases axes.len() - i,
        {
            match axes[i].checked_add(1) {
                Some(next) => {
                    if next != axes[i + 1] {
                        proof {
                            assert(axes@[i as int] + 1 != axes@[i as int + 1]);
                        }
                        return false;
                    }
                },
                None => {
                    proof {
                        assert(axes@[i as int] + 1 != axes@[i as int + 1]);
                    }
                    return false;
                },
            }
            i = i + 1;
        }
        true
    }

    /// The set of `axes`, refused when an axis is not below `rank` or occurs
    /// twice; the error names the first such axis.
    pub fn try_from_axes(operation: OperationKind, rank: usize, axes: &[usize]) -> (r: Result<
        AxisSet,
        ShapeError,
    >)
        ensures
            match r {
                Ok(set) => set@ == axes@.to_set() && axes@.no_duplicates() && forall|i: int|
                    0 <= i < axes@.len() ==> #[trigger] axes@[i] < rank,
                Err(e) => exists|i: int|
                    0 <= i < axes@.len() && first_invalid_axis(axes@, rank, i) && e
                        == (ShapeError::InvalidParameter {
                        operation,
                        parameter: "axis",
                        value: axes@[i],
                    }),
            },
    {
        let mut set = AxisSet::empty();
        let mut i: usize = 0;
        while i < axes.len()
            invariant
                i <= axes.len(),
                set@ == axes@.take(i as int).to_set(),
                axes@.take(i as int).no_duplicates(),
                forall|j: int| 0 <= j < i ==> #[trigger] axes@[j] < rank,
            decreases axes.len() - i,
        {
            let axis = axes[i];
            let seen = set.contains(axis);
            if axis >= rank || seen {
                proof {
                    assert(first_invalid_axis(axes@, rank, i as int)) by {
                        assert forall|k: int| 0 <= k < i implies !axis_invalid_at(axes@, rank, k) by {
                            assert(axes@.take(k).no_duplicates()) by {
                                assert forall|p: int, q: int| 0 <= p < axes@.take(k).len() && 0 <= q < axes@.take(k).len() && p != q implies axes@.take(k)[p] != axes@.take(k)[q] by {
                                    assert(axes@.take(i as int)[p] == axes@[p]);
                                    assert(axes@.take(i as int)[q] == axes@[q]);
                                }
                            }
                            if axes@.take(k).contains(axes@[k]) {
                                let p = choose|p: int| 0 <= p < axes@.take(k).len() && axes@.take(k)[p] == axes@[k];
                                assert(axes@.take(i as int)[p] == axes@.take(i as int)[k]);
                            }
                        }
                        if seen {
                            assert(axes@.take(i as int).contains(axis));
                        }
                    }
                }
                return Err(
                    ShapeError::InvalidParameter { operation, parameter: "axis", value: axis },
                );
            }
            proof {
                let before = axes@.take(i as int);
                let after = axes@.take(i as int + 1);
                assert(after =~= before.push(axis));
                before.lemma_push_to_set_commute(axis);
                assert(!before.contains(axis));
                assert(after.no_duplicates()) by {
                    assert forall|p: int, q: int| 0 <= p < after.len() && 0 <= q < after.len() && p != q implies after[p] != after[q] by {
                        if p == i as int {
                            assert(before.contains(after[q]) ==> true);
                            assert(after[q] == before[q]);
                        } else if q == i as int {
                            assert(after[p] == before[p]);
                        } else {
                            assert(after[p] == before[p]);
                            assert(after[q] == before[q]);
                        }
                    }
                }
            }
            set = set.insert(axis);
            i = i + 1;
        }
        proof {
            assert(axes@.take(axes@.len() as int) =~= axes@);
        }
        Ok(set)
    }
}

/// Whether `a` and `b` are stored alike, which is what the derived `==`
/// compares: both empty, the same inline mask, or the same spilled list.
pub closed spec fn same_representation(a: AxisSet, b: AxisSet) -> bool {
    match (a.0, b.0) {
        (AxisSetRepr::Empty, AxisSetRepr::Empty) => true,
        (AxisSetRepr::Inline(m1), AxisSetRepr::Inline(m2)) => m1 == m2,
        (AxisSetRepr::Spilled(x), AxisSetRepr::Spilled(y)) => x@ == y@,
        _ => false,
    }
}

/// The representation is canonical: two axis sets with the same members are
/// stored alike, so `==` on them is equality of their members.
pub proof fn lemma_same_members_same_representation(a: AxisSet, b: AxisSet)
    requires
        a.wf(),
        b.wf(),
        a@ == b@,
    ensures
        same_representation(a, b),
{
    a.lemma_ascending();
    b.lemma_ascending();
    lemma_ascending_same_members(a.spec_axes(), b.spec_axes());
    match (a.0, b.0) {
        (AxisSetRepr::Inline(m1), AxisSetRepr::Inline(m2)) => {
            lemma_mask_axes(m1.0, 64);
            lemma_mask_axes(m2.0, 64);
            assert forall|k: int| 0 <= k < 64 implies bit(m1.0, k) == bit(m2.0, k) by {
                assert(mask_axes(m1.0, 64).contains(k as usize) == bit(m1.0, k));
                assert(mask_axes(m2.0, 64).contains(k as usize) == bit(m2.0, k));
            }
            lemma_masks_equal(m1.0, m2.0);
        },
        (AxisSetRepr::Inline(m1), AxisSetRepr::Spilled(y)) => {
            lemma_mask_axes(m1.0, 64);
            assert(y@[y@.len() - 1] < 64);
        },
        (AxisSetRepr::Spilled(x), AxisSetRepr::Inline(m2)) => {
            lemma_mask_axes(m2.0, 64);
            assert(x@[x@.len() - 1] < 64);
        },
        _ => {},
    }
}

/// Whether `axes[i]` is refused: out of range, or already seen before `i`.
pub open spec fn axis_invalid_at(axes: Seq<usize>, rank: usize, i: int) -> bool {
    axes[i] >= rank || axes.take(i).contains(axes[i])
}

/// Whether `i` is the first refused position of `axes`.
pub open spec fn first_invalid_axis(axes: Seq<usize>, rank: usize, i: int) -> bool {
    &&& axis_invalid_at(axes, rank, i)
    &&& forall|k: int| 0 <= k < i ==> !axis_invalid_at(axes, rank, k)
}

/// Conversion of an axis collection into an [`AxisSet`] holding the same
/// axes.
pub trait IntoAxisSet: Sized {
    /// The axes this value denotes.
    spec fn spec_axis_set(self) -> Set<usize>;

    /// The axis set holding exactly these axes.
    fn into_axis_set(self) -> (r: AxisSet)
        ensures
            r@ == self.spec_axis_set(),
    ;
}

impl IntoAxisSet for AxisSet {
    open spec fn spec_axis_set(self) -> Set<usize> {
        self@
    }

    fn into_axis_set(self) -> (r: AxisSet) {
        self
    }
}

impl IntoAxisSet for AxisMask {
    open spec fn spec_axis_set(self) -> Set<usize> {
        self.spec_axes().to_set()
    }

    fn into_axis_set(self) -> (r: AxisSet) {
        let axes = self.axes();
        let mut set = AxisSet::empty();
        let mut i: usize = 0;
        proof {
            assert(axes@.take(0).to_set() =~= Set::<usize>::empty());
        }
        while i < axes.len()
            invariant
                i <= axes@.len(),
                set@ == axes@.take(i as int).to_set(),
            decreases axes.len() - i,
        {
            set = set.insert(axes[i]);
            i = i + 1;
            proof {
                assert(axes@.take(i as int) =~= axes@.take(i - 1).push(axes@[i - 1]));
                axes@.take(i - 1).lemma_push_to_set_commute(axes@[i - 1]);
            }
        }
        proof {
            assert(axes@.take(i as int) =~= axes@);
        }
        set
    }
}

} // verus!
