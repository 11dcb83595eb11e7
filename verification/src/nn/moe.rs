//! Mixture-of-experts routing: where each expert's tokens start in a buffer
//! grouped by expert.
use vstd::prelude::*;
use crate::error::Error;

verus! {

/// How many of the first `n` indices equal `e`.
pub open spec fn count_eq(indices: Seq<u32>, e: int, n: int) -> nat
    decreases n,
{
    if n <= 0 || n > indices.len() {
        0
    } else {
        count_eq(indices, e, n - 1) + if indices[n - 1] == e {
            1nat
        } else {
            0nat
        }
    }
}

/// How many of the first `n` indices are below `k`.
pub open spec fn count_below(indices: Seq<u32>, k: int, n: int) -> nat
    decreases n,
{
    if n <= 0 || n > indices.len() {
        0
    } else {
        count_below(indices, k, n - 1) + if indices[n - 1] < k {
            1nat
        } else {
            0nat
        }
    }
}

proof fn lemma_count_below_step(indices: Seq<u32>, k: int, n: int)
    requires
        0 <= n <= indices.len(),
    ensures
        count_below(indices, k + 1, n) == count_below(indices, k, n) + count_eq(indices, k, n),
        count_below(indices, k, n) <= n,
    decreases n,
{
    if n > 0 {
        lemma_count_below_step(indices, k, n - 1);
    }
}

proof fn lemma_count_below_zero(indices: Seq<u32>, n: int)
    ensures
        count_below(indices, 0, n) == 0,
    decreases n,
{
    if n > 0 && n <= indices.len() {
        lemma_count_below_zero(indices, n - 1);
    }
}

proof fn lemma_count_below_all(indices: Seq<u32>, k: int, n: int)
    requires
        0 <= n <= indices.len(),
        forall|j: int| 0 <= j < n ==> #[trigger] indices[j] < k,
    ensures
        count_below(indices, k, n) == n,
    decreases n,
{
    if n > 0 {
        lemma_count_below_all(indices, k, n - 1);
    }
}

proof fn lemma_count_below_monotone(indices: Seq<u32>, k: int, n: int)
    requires
        0 <= n <= indices.len(),
    ensures
        count_below(indices, k, n) <= count_below(indices, k + 1, n),
    decreases n,
{
    if n > 0 {
        lemma_count_below_monotone(indices, k, n - 1);
    }
}

/// The routing decision of a mixture-of-experts layer over `E` experts: the
/// expert chosen for each top-k slot.
#[derive(Debug, Clone)]
pub struct Routing<const E: usize> {
    /// Expert ids for the top-k slots.
    pub indices: Vec<u32>,
}

impl<const E: usize> Routing<E> {
    /// Exclusive expert offsets `[0, c0, c0+c1, ..., total]` for a buffer
    /// grouped by expert, of length `E + 1`: entry `k` counts the slots
    /// routed to experts below `k`. A router without experts is refused.
    pub fn expert_offsets(&self) -> (r: Result<Vec<i64>, Error>)
        requires
            self.indices@.len() <= i64::MAX,
            E < usize::MAX,
            forall|j: int| 0 <= j < self.indices@.len() ==> #[trigger] self.indices@[j] < E,
        ensures
            E == 0 <==> r is Err,
            r matches Err(e) ==> e matches Error::InvalidModuleState { operation, reason }
                && operation@ == "routing expert_offsets"@ && reason@
                == "expert count must be nonzero"@,
            r matches Ok(offsets) ==> offsets@.len() == E + 1 && (forall|k: int|
                0 <= k <= E ==> #[trigger] offsets@[k] == count_below(
                    self.indices@,
                    k,
                    self.indices@.len() as int,
                )) && offsets@[0] == 0 && offsets@[E as int] == self.indices@.len() && (forall|
                k: int,
            |
                0 <= k < E ==> #[trigger] offsets@[k] <= offsets@[k + 1]),
    {
        if E == 0 {
            return Err(
                Error::InvalidModuleState {
                    operation: "routing expert_offsets",
                    reason: String::from_str("expert count must be nonzero"),
                },
            );
        }
        let n = self.indices.len();
        let mut counts: Vec<i64> = Vec::new();
        let mut e: usize = 0;
        while e < E
            invariant
                e <= E,
                counts@.len() == e,
                forall|x: int| 0 <= x < e ==> #[trigger] counts@[x] == 0,
            decreases E - e,
        {
            counts.push(0);
            e = e + 1;
        }
        let mut i: usize = 0;
        while i < n
            invariant
                i <= n,
                n == self.indices@.len(),
                n <= i64::MAX,
                counts@.len() == E,
                forall|j: int| 0 <= j < n ==> #[trigger] self.indices@[j] < E,
                forall|x: int|
                    0 <= x < E ==> #[trigger] counts@[x] == count_eq(self.indices@, x, i as int),
                forall|x: int| 0 <= x < E ==> count_eq(self.indices@, x, i as int) <= i,
            decreases n - i,
        {
            let idx = self.indices[i] as usize;
            let before = counts[idx];
            counts.set(idx, before + 1);
            i = i + 1;
            proof {
                assert forall|x: int| 0 <= x < E implies count_eq(self.indices@, x, i as int) <= i by {
                    assert(count_eq(self.indices@, x, i - 1) <= i - 1);
                }
            }
        }
        let mut offsets: Vec<i64> = Vec::new();
        offsets.push(0);
        proof {
            lemma_count_below_zero(self.indices@, n as int);
        }
        let mut k: usize = 0;
        while k < E
            invariant
                k <= E,
                n == self.indices@.len(),
                n <= i64::MAX,
                counts@.len() == E,
                forall|x: int|
                    0 <= x < E ==> #[trigger] counts@[x] == count_eq(self.indices@, x, n as int),
                offsets@.len() == k + 1,
                forall|y: int|
                    0 <= y <= k ==> #[trigger] offsets@[y] == count_below(self.indices@, y, n as int),
            decreases E - k,
        {
            proof {
                lemma_count_below_step(self.indices@, k as int, n as int);
                lemma_count_below_step(self.indices@, k + 1, n as int);
            }
            let next = offsets[k] + counts[k];
            offsets.push(next);
            k = k + 1;
        }
        proof {
            lemma_count_below_zero(self.indices@, n as int);
            lemma_count_below_all(self.indices@, E as int, n as int);
            assert forall|k: int| 0 <= k < E implies #[trigger] offsets@[k] <= offsets@[k + 1] by {
                lemma_count_below_monotone(self.indices@, k, n as int);
            }
        }
        Ok(offsets)
    }
}

} // verus!
