//! The backend-neutral autograd tape.
//!
//! The reverse walk is one algorithm --- seed, drain, reverse, accumulate ---
//! and it is written once here. What stays with the backends is what
//! genuinely differs: how storage is summed, seeded, and inspected for a
//! non-finite value ([`TapeStorage`]), and how each recorded operation turns
//! an output gradient into input gradients ([`BackwardRecipe`]).
use vstd::prelude::*;
use std::collections::BTreeMap;
use vstd::std_specs::iter::IteratorSpec;
use crate::error::Error;

verus! {

broadcast use vstd::laws_cmp::group_laws_cmp;

/// A monotonic identity tag for one backend allocation.
#[derive(Debug, Clone, Copy, PartialEq, Eq, Structural, Hash, PartialOrd, Ord)]
pub struct TensorId(u64);

impl View for TensorId {
    type V = u64;

    closed spec fn view(&self) -> u64 {
        self.0
    }
}

impl TensorId {
    /// The id with the given underlying integer.
    pub fn from_raw(value: u64) -> (r: TensorId)
        ensures
            r@ == value,
    {
        TensorId(value)
    }

    /// The underlying integer, for diagnostics and stable ordering.
    pub fn get(self) -> (r: u64)
        ensures
            r == self@,
    {
        self.0
    }
}

/// A source of identities: each draw hands out the counter and advances it,
/// wrapping at the end of the `u64` range.
#[derive(Debug)]
pub struct TensorIdSource {
    next: u64,
}

impl TensorIdSource {
    /// A source whose first id is zero.
    pub fn new() -> (r: TensorIdSource)
        ensures
            r.upcoming() == 0,
    {
        TensorIdSource { next: 0 }
    }

    /// The integer the next draw hands out.
    pub closed spec fn upcoming(&self) -> u64 {
        self.next
    }
}

impl TensorId {
    /// Allocates a fresh id from `source`: ids come out in sequence, so none
    /// repeats until the `u64` range wraps.
    pub fn next(source: &mut TensorIdSource) -> (r: TensorId)
        ensures
            r@ == old(source).upcoming(),
            final(source).upcoming() == (if old(source).upcoming() == u64::MAX {
                0
            } else {
                old(source).upcoming() + 1
            }),
    {
        let id = TensorId(source.next);
        source.next = source.next.wrapping_add(1);
        id
    }
}

/// What a reverse walk needs of a backend's storage, and nothing else.
///
/// Implementations state their behaviour through the spec functions; the
/// walk is proved against those.
pub trait TapeStorage: Sized {
    /// The identity of this allocation.
    spec fn spec_id(&self) -> u64;

    /// The seed a backward pass starts from, or the failure to allocate it.
    spec fn spec_ones_like(&self) -> Result<Self, Error>;

    /// The sum of two gradient contributions for the same tensor.
    spec fn spec_accumulate(&self, contribution: Self) -> Result<Self, Error>;

    /// Whether the value holds a `NaN` or an infinity.
    spec fn spec_has_non_finite(&self) -> bool;

    /// This allocation's identity.
    fn id(&self) -> (r: TensorId)
        ensures
            r@ == self.spec_id(),
    ;

    /// A value shaped like `self` and filled with ones.
    fn ones_like(&self) -> (r: Result<Self, Error>)
        ensures
            r == self.spec_ones_like(),
    ;

    /// Sum two gradient contributions for the same tensor.
    fn accumulate(&self, contribution: &Self) -> (r: Result<Self, Error>)
        ensures
            r == self.spec_accumulate(*contribution),
    ;

    /// Whether this gradient holds a `NaN` or an infinity.
    fn has_non_finite(&self) -> (r: bool)
        ensures
            r == self.spec_has_non_finite(),
    ;
}

/// A backward recipe: given the accumulated gradient of a node's output,
/// produce one gradient per input, in the order of the node's input ids.
pub trait BackwardRecipe<S> {
    /// The gradients the recipe produces for `grad`.
    spec fn spec_apply(&self, grad: S) -> Seq<S>;

    /// Run the recipe.
    fn apply(&self, grad: &S) -> (r: Vec<S>)
        ensures
            r@ == self.spec_apply(*grad),
    ;
}

/// One recorded operation: what it produced, what it consumed, and how to run
/// it backwards.
pub struct TapeNode<S, R> {
    /// The id of the value this operation produced.
    pub output_id: TensorId,
    /// The ids of the values it consumed, in the recipe's output order.
    pub input_ids: Vec<TensorId>,
    /// How to turn an output gradient into one gradient per input.
    pub backward: R,
    /// The storage type the recipe works on.
    pub storage: core::marker::PhantomData<S>,
}

impl<S, R> TapeNode<S, R> {
    /// A node recording `backward` for `output_id` from `input_ids`.
    pub fn new(output_id: TensorId, input_ids: Vec<TensorId>, backward: R) -> (r: TapeNode<S, R>)
        ensures
            r.output_id == output_id,
            r.input_ids == input_ids,
            r.backward == backward,
    {
        TapeNode { output_id, input_ids, backward, storage: core::marker::PhantomData }
    }
}

/// Accumulated gradients, keyed by the id of the tensor each belongs to.
pub struct GradientMap<S> {
    grads: BTreeMap<u64, S>,
}

impl<S> View for GradientMap<S> {
    type V = Map<u64, S>;

    closed spec fn view(&self) -> Map<u64, S> {
        self.grads@
    }
}

impl<S> GradientMap<S> {
    /// An empty map.
    pub fn new() -> (r: GradientMap<S>)
        ensures
            r@ == Map::<u64, S>::empty(),
    {
        GradientMap { grads: BTreeMap::new() }
    }

    /// The accumulated gradient for `id`, if the backward pass reached it.
    pub fn get(&self, id: TensorId) -> (r: Option<&S>)
        ensures
            match r {
                Some(g) => self@.contains_key(id@) && *g == self@[id@],
                None => !self@.contains_key(id@),
            },
    {
        self.grads.get(&id.0)
    }

    /// How many tensors received a gradient.
    pub fn len(&self) -> (r: usize)
        ensures
            r == self@.len(),
    {
        self.grads.len()
    }

    /// Whether the backward pass reached nothing at all.
    pub fn is_empty(&self) -> (r: bool)
        ensures
            r == (self@.dom() == Set::<u64>::empty()),
    {
        let r = self.grads.is_empty();
        proof {
            if !r {
                assert(!self@.is_empty());
                let k = choose|k: u64| self@.dom().contains(k);
                assert(self@.dom().contains(k));
            } else {
                assert(self@.dom() =~= Set::<u64>::empty());
            }
        }
        r
    }

    /// Every `(id, gradient)` pair, in increasing id order.
    pub fn iter(&self) -> (r: Vec<(TensorId, &S)>)
        ensures
            r@.len() == self@.dom().len(),
            forall|i: int|
                0 <= i < r@.len() ==> self@.contains_key(#[trigger] r@[i].0@) && *r@[i].1
                    == self@[r@[i].0@],
            forall|k: u64| #[trigger]
                self@.contains_key(k) ==> exists|i: int| 0 <= i < r@.len() && r@[i].0@ == k,
            forall|i: int, j: int| 0 <= i < j < r@.len() ==> #[trigger] r@[i].0@ < #[trigger] r@[j].0@,
    {
        let mut out: Vec<(TensorId, &S)> = Vec::new();
        let it = self.grads.iter();
        let ghost pairs = it.remaining();
        proof {
            broadcast use vstd::std_specs::btree::group_btree_axioms;
        }
        for entry in iter: it
            invariant
                pairs == iter.seq(),
                out@.len() == iter.index(),
                forall|j: int| 0 <= j < iter.index() ==> (#[trigger] out@[j]).0@ == *pairs[j].0
                    && out@[j].1 == pairs[j].1,
        {
            out.push((TensorId(*entry.0), entry.1));
        }
        proof {
            broadcast use vstd::std_specs::btree::group_btree_axioms;
            assert(pairs == vstd::std_specs::btree::spec_btree_map_iter(&self.grads).remaining());
            let keys = pairs.map_values(|kv: (&u64, &S)| *kv.0);
            assert(vstd::std_specs::btree::increasing_seq(keys));
            assert forall|i: int, j: int| 0 <= i < j < out@.len() implies #[trigger] out@[i].0@
                < #[trigger] out@[j].0@ by {
                assert(keys[i] == out@[i].0@);
                assert(keys[j] == out@[j].0@);
                vstd::std_specs::btree::axiom_increasing_seq_meaning(keys);
                assert(vstd::std_specs::cmp::OrdSpec::cmp_spec(&keys[i], &keys[j]) is Less);
            }
            assert forall|k: u64| #[trigger] self@.contains_key(k) implies exists|i: int|
                0 <= i < out@.len() && out@[i].0@ == k by {
                assert(pairs.contains((&k, &self@[k])));
                let i = choose|i: int| 0 <= i < pairs.len() && pairs[i] == (&k, &self@[k]);
                assert(out@[i].0@ == k);
            }
        }
        out
    }
}

/// Whether a backward walk validates each gradient as it is produced.
#[derive(Debug, Default, Clone, Copy, PartialEq, Eq, Structural)]
pub enum NanCheck {
    /// Walk without inspecting values. The normal path.
    #[default]
    Skip,
    /// Test every contribution and every accumulation for a non-finite value,
    /// and halt at the first one.
    Enforce,
}

/// Whether operations are being recorded for differentiation.
#[derive(Debug, Default, Clone, Copy, PartialEq, Eq, Structural)]
pub enum GradMode {
    /// Record every operation.
    #[default]
    Enabled,
    /// Record nothing.
    Disabled,
}

impl GradMode {
    /// Whether this mode records operations onto the tape.
    pub fn records(self) -> (r: bool)
        ensures
            r <==> self == GradMode::Enabled,
    {
        matches!(self, GradMode::Enabled)
    }
}

/// The recorded operations of one backward-reachable graph.
pub struct Tape<S, R> {
    nodes: Vec<TapeNode<S, R>>,
}

impl<S, R> View for Tape<S, R> {
    type V = Seq<TapeNode<S, R>>;

    closed spec fn view(&self) -> Seq<TapeNode<S, R>> {
        self.nodes@
    }
}

impl<S, R> Tape<S, R> {
    /// An empty tape.
    pub fn new() -> (r: Tape<S, R>)
        ensures
            r@ == Seq::<TapeNode<S, R>>::empty(),
    {
        Tape { nodes: Vec::new() }
    }

    /// Record `node`, unless `mode` forbids recording; a refused node is
    /// dropped on the spot.
    pub fn push(&mut self, node: TapeNode<S, R>, mode: GradMode)
        ensures
            mode == GradMode::Enabled ==> final(self)@ == old(self)@.push(node),
            mode == GradMode::Disabled ==> final(self)@ == old(self)@,
    {
        if !mode.records() {
            return;
        }
        self.nodes.push(node);
    }

    /// How many nodes are currently recorded.
    pub fn depth(&self) -> (r: usize)
        ensures
            r == self@.len(),
    {
        self.nodes.len()
    }

    /// Whether anything is recorded.
    pub fn is_empty(&self) -> (r: bool)
        ensures
            r == (self@.len() == 0),
    {
        self.nodes.len() == 0
    }

    /// Take every node, leaving the tape empty.
    pub fn drain(&mut self) -> (r: Vec<TapeNode<S, R>>)
        ensures
            r@ == old(self)@,
            final(self)@ == Seq::<TapeNode<S, R>>::empty(),
    {
        let mut drained: Vec<TapeNode<S, R>> = Vec::new();
        core::mem::swap(&mut drained, &mut self.nodes);
        drained
    }
}

// --- the reverse walk ------------------------------------------------------------

/// Accumulating the contributions of one node from position `i` on. The
/// first component says whether the walk halts on a non-finite value
/// (only when `enforce`); otherwise the second is the resulting map or the
/// first failed accumulation.
pub open spec fn spec_accumulate_inputs<S: TapeStorage>(
    ids: Seq<TensorId>,
    contributions: Seq<S>,
    i: int,
    grads: Map<u64, S>,
    enforce: bool,
) -> (bool, Result<Map<u64, S>, Error>)
    decreases ids.len() - i,
{
    if i < 0 || i >= ids.len() || i >= contributions.len() {
        (false, Ok(grads))
    } else {
        let id = ids[i]@;
        let c = contributions[i];
        if enforce && c.spec_has_non_finite() {
            (true, Ok(grads))
        } else if grads.contains_key(id) {
            match grads[id].spec_accumulate(c) {
                Err(e) => (false, Err(e)),
                Ok(sum) => if enforce && sum.spec_has_non_finite() {
                    (true, Ok(grads))
                } else {
                    spec_accumulate_inputs(ids, contributions, i + 1, grads.insert(id, sum), enforce)
                },
            }
        } else {
            spec_accumulate_inputs(ids, contributions, i + 1, grads.insert(id, c), enforce)
        }
    }
}

/// Walking `nodes[0..k]` in reverse order from `grads`: a node whose output
/// received no gradient is skipped; otherwise its recipe runs on that
/// gradient and each contribution is accumulated into its input.
pub open spec fn spec_walk<S: TapeStorage, R: BackwardRecipe<S>>(
    nodes: Seq<TapeNode<S, R>>,
    k: int,
    grads: Map<u64, S>,
    enforce: bool,
) -> (bool, Result<Map<u64, S>, Error>)
    decreases k,
{
    if k <= 0 {
        (false, Ok(grads))
    } else {
        let node = nodes[k - 1];
        if !grads.contains_key(node.output_id@) {
            spec_walk(nodes, k - 1, grads, enforce)
        } else {
            let contributions = node.backward.spec_apply(grads[node.output_id@]);
            let (halted, result) = spec_accumulate_inputs(
                node.input_ids@,
                contributions,
                0,
                grads,
                enforce,
            );
            if halted {
                (true, result)
            } else {
                match result {
                    Err(e) => (false, Err(e)),
                    Ok(next) => spec_walk(nodes, k - 1, next, enforce),
                }
            }
        }
    }
}

/// The backward pass from `loss` over `nodes`: seed the loss with ones, then
/// walk the nodes newest first.
pub open spec fn spec_backward<S: TapeStorage, R: BackwardRecipe<S>>(
    nodes: Seq<TapeNode<S, R>>,
    loss: S,
    check: NanCheck,
) -> (bool, Result<Map<u64, S>, Error>) {
    match loss.spec_ones_like() {
        Err(e) => (false, Err(e)),
        Ok(seed) => spec_walk(
            nodes,
            nodes.len() as int,
            Map::<u64, S>::empty().insert(loss.spec_id(), seed),
            check == NanCheck::Enforce,
        ),
    }
}

proof fn lemma_walk_prefix<S: TapeStorage, R: BackwardRecipe<S>>(
    a: Seq<TapeNode<S, R>>,
    b: Seq<TapeNode<S, R>>,
    k: int,
    grads: Map<u64, S>,
    enforce: bool,
)
    requires
        0 <= k <= a.len(),
        k <= b.len(),
        forall|i: int| 0 <= i < k ==> a[i] == b[i],
    ensures
        spec_walk(a, k, grads, enforce) == spec_walk(b, k, grads, enforce),
    decreases k,
{
    if k > 0 {
        assert(a[k - 1] == b[k - 1]);
        let node = a[k - 1];
        if !grads.contains_key(node.output_id@) {
            lemma_walk_prefix(a, b, k - 1, grads, enforce);
        } else {
            let contributions = node.backward.spec_apply(grads[node.output_id@]);
            let (halted, result) = spec_accumulate_inputs(
                node.input_ids@,
                contributions,
                0,
                grads,
                enforce,
            );
            if !halted {
                if let Ok(next) = result {
                    lemma_walk_prefix(a, b, k - 1, next, enforce);
                }
            }
        }
    }
}

/// Accumulate one node's contributions into `grads`, in input order.
fn accumulate_node<S: TapeStorage>(
    grads: &mut BTreeMap<u64, S>,
    input_ids: &Vec<TensorId>,
    contributions: Vec<S>,
    enforce: bool,
) -> (r: Result<(), Error>)
    requires
        !spec_accumulate_inputs(input_ids@, contributions@, 0, old(grads)@, enforce).0,
    ensures
        match spec_accumulate_inputs(input_ids@, contributions@, 0, old(grads)@, enforce).1 {
            Ok(m) => r is Ok && final(grads)@ == m,
            Err(e) => r matches Err(x) && x == e,
        },
{
    let ghost all_contributions = contributions@;
    let ghost start = grads@;
    let mut pending = contributions;
    let mut i: usize = 0;
    while i < input_ids.len() && pending.len() > 0
        invariant
            start == old(grads)@,
            all_contributions == contributions@,
            i <= input_ids@.len(),
            i <= all_contributions.len(),
            pending@ == all_contributions.skip(i as int),
            spec_accumulate_inputs(input_ids@, all_contributions, 0, start, enforce)
                == spec_accumulate_inputs(input_ids@, all_contributions, i as int, grads@, enforce),
            !spec_accumulate_inputs(input_ids@, all_contributions, 0, start, enforce).0,
        decreases input_ids.len() - i,
    {
        let input = input_ids[i];
        let contribution = pending.remove(0);
        proof {
            assert(contribution == all_contributions[i as int]);
            assert(pending@ =~= all_contributions.skip(i as int + 1));
        }
        if enforce {
            let bad = contribution.has_non_finite();
            assert(!bad);
        }
        let existing = grads.get(&input.0);
        match existing {
            Some(current) => {
                let summed = match current.accumulate(&contribution) {
                    Ok(summed) => summed,
                    Err(e) => {
                        return Err(e);
                    },
                };
                if enforce {
                    let bad = summed.has_non_finite();
                    assert(!bad);
                }
                grads.insert(input.0, summed);
            },
            None => {
                grads.insert(input.0, contribution);
            },
        }
        i = i + 1;
    }
    proof {
        assert(!(i < input_ids@.len() && i < all_contributions.len()));
    }
    Ok(())
}

/// Walk `nodes` backward from `loss`, returning the accumulated gradients.
///
/// The nodes are taken by value: a recipe may itself record onto a fresh
/// tape, and nodes recorded during the walk belong to the next pass. A
/// tensor consumed by several operations receives the sum of their
/// contributions; an output nothing reached is skipped. Under
/// [`NanCheck::Enforce`] the walk would halt at the first non-finite
/// gradient, so that input is excluded.
pub fn backward<S: TapeStorage, R: BackwardRecipe<S>>(
    nodes: Vec<TapeNode<S, R>>,
    loss: &S,
    check: NanCheck,
) -> (r: Result<GradientMap<S>, Error>)
    requires
        !spec_backward(nodes@, *loss, check).0,
    ensures
        match spec_backward(nodes@, *loss, check).1 {
            Ok(m) => r matches Ok(g) && g@ == m,
            Err(e) => r matches Err(x) && x == e,
        },
{
    let enforce = match check {
        NanCheck::Enforce => true,
        NanCheck::Skip => false,
    };
    let ghost all_nodes = nodes@;
    let seed = match loss.ones_like() {
        Ok(seed) => seed,
        Err(e) => {
            return Err(e);
        },
    };
    let mut grads: BTreeMap<u64, S> = BTreeMap::new();
    let loss_id = loss.id();
    grads.insert(loss_id.0, seed);
    let mut remaining = nodes;
    proof {
        assert(grads@ =~= Map::<u64, S>::empty().insert(loss.spec_id(), seed));
        assert(remaining@ =~= all_nodes);
    }
    while remaining.len() > 0
        invariant
            spec_backward(all_nodes, *loss, check) == spec_walk(
                remaining@,
                remaining@.len() as int,
                grads@,
                enforce,
            ),
            enforce == (check == NanCheck::Enforce),
            !spec_backward(all_nodes, *loss, check).0,
            all_nodes == nodes@,
        decreases remaining.len(),
    {
        let ghost before = remaining@;
        let ghost grads_before = grads@;
        let node = remaining.pop().unwrap();
        proof {
            assert(node == before[before.len() - 1]);
            lemma_walk_prefix(before, remaining@, remaining@.len() as int, grads_before, enforce);
            assert forall|g: Map<u64, S>|
                spec_walk(before, remaining@.len() as int, g, enforce) == spec_walk(
                    remaining@,
                    remaining@.len() as int,
                    g,
                    enforce,
                ) by {
                lemma_walk_prefix(before, remaining@, remaining@.len() as int, g, enforce);
            }
        }
        let TapeNode { output_id, input_ids, backward: recipe, storage: _ } = node;
        let contributions = match grads.get(&output_id.0) {
            None => {
                proof {
                    assert(!grads_before.contains_key(output_id@));
                    assert(spec_walk(before, before.len() as int, grads_before, enforce)
                        == spec_walk(before, remaining@.len() as int, grads_before, enforce));
                }
                continue;
            },
            Some(grad_out) => recipe.apply(grad_out),
        };
        proof {
            assert(grads_before.contains_key(output_id@));
            assert(contributions@ == recipe.spec_apply(grads_before[output_id@]));
            assert(spec_walk(before, before.len() as int, grads_before, enforce).0
                == spec_accumulate_inputs(input_ids@, contributions@, 0, grads_before, enforce).0
                || spec_accumulate_inputs(input_ids@, contributions@, 0, grads_before, enforce).0 == false);
        }
        let ghost acc = spec_accumulate_inputs(input_ids@, contributions@, 0, grads_before, enforce);
        match accumulate_node(&mut grads, &input_ids, contributions, enforce) {
            Ok(()) => {
                proof {
                    assert(acc.1 == Ok::<Map<u64, S>, Error>(grads@));
                    assert(spec_walk(before, before.len() as int, grads_before, enforce)
                        == spec_walk(before, remaining@.len() as int, grads@, enforce));
                }
            },
            Err(e) => {
                proof {
                    assert(acc.1 == Err::<Map<u64, S>, Error>(e));
                    assert(spec_walk(before, before.len() as int, grads_before, enforce)
                        == (false, Err::<Map<u64, S>, Error>(e)));
                }
                return Err(e);
            },
        }
    }
    Ok(GradientMap { grads })
}

/// A drained tape walks to the seed alone: a second backward pass from the
/// same loss after the first drained the tape reaches only the loss.
pub proof fn lemma_drained_walk_is_seed<S: TapeStorage, R: BackwardRecipe<S>>(
    loss: S,
    check: NanCheck,
)
    requires
        loss.spec_ones_like() is Ok,
    ensures
        spec_backward(Seq::<TapeNode<S, R>>::empty(), loss, check) == (
            false,
            Ok::<Map<u64, S>, Error>(
                Map::<u64, S>::empty().insert(loss.spec_id(), loss.spec_ones_like()->Ok_0),
            ),
        ),
{
}

/// No contribution overwrites another: when one node's recipe yields two
/// contributions for the same not-yet-reached input, that input receives
/// their accumulation.
pub proof fn lemma_repeated_input_accumulates<S: TapeStorage>(
    x: TensorId,
    first: S,
    second: S,
    grads: Map<u64, S>,
)
    requires
        !grads.contains_key(x@),
        first.spec_accumulate(second) is Ok,
    ensures
        spec_accumulate_inputs(seq![x, x], seq![first, second], 0, grads, false) == (
            false,
            Ok::<Map<u64, S>, Error>(grads.insert(x@, first.spec_accumulate(second)->Ok_0)),
        ),
{
    let ids = seq![x, x];
    let cs = seq![first, second];
    let g1 = grads.insert(x@, first);
    let sum = first.spec_accumulate(second)->Ok_0;
    let g2 = g1.insert(x@, sum);
    assert(g1.contains_key(x@) && g1[x@] == first);
    assert(ids[1] == x && cs[1] == second && ids[0] == x && cs[0] == first);
    assert(spec_accumulate_inputs(ids, cs, 2, g2, false) == (false, Ok::<Map<u64, S>, Error>(g2)));
    assert(spec_accumulate_inputs(ids, cs, 1, g1, false) == spec_accumulate_inputs(ids, cs, 2, g2, false));
    assert(spec_accumulate_inputs(ids, cs, 0, grads, false) == spec_accumulate_inputs(ids, cs, 1, g1, false));
    assert(g2 =~= grads.insert(x@, sum));
}

/// A contribution into an input that already holds a gradient is added to
/// that gradient, never written over it: the input's gradient becomes the
/// accumulation of what it held and the contribution.
pub proof fn lemma_existing_gradient_accumulates<S: TapeStorage>(x: TensorId, c: S, grads: Map<u64, S>)
    requires
        grads.contains_key(x@),
        grads[x@].spec_accumulate(c) is Ok,
    ensures
        spec_accumulate_inputs(seq![x], seq![c], 0, grads, false) == (
            false,
            Ok::<Map<u64, S>, Error>(grads.insert(x@, grads[x@].spec_accumulate(c)->Ok_0)),
        ),
{
    let ids = seq![x];
    let cs = seq![c];
    let g1 = grads.insert(x@, grads[x@].spec_accumulate(c)->Ok_0);
    assert(ids[0] == x && cs[0] == c);
    assert(spec_accumulate_inputs(ids, cs, 1, g1, false) == (false, Ok::<Map<u64, S>, Error>(g1)));
}

/// A tensor consumed by two operations receives the sum of both: walking
/// two nodes that each take `x` as their only input, from gradients that
/// reach both outputs but not yet `x`, leaves `x` holding the newer node's
/// contribution accumulated with the older node's.
pub proof fn lemma_two_consumers_accumulate<S: TapeStorage, R: BackwardRecipe<S>>(
    older: TapeNode<S, R>,
    newer: TapeNode<S, R>,
    x: TensorId,
    grads: Map<u64, S>,
)
    requires
        older.input_ids@ == seq![x],
        newer.input_ids@ == seq![x],
        older.output_id@ != x@,
        newer.output_id@ != x@,
        grads.contains_key(older.output_id@),
        grads.contains_key(newer.output_id@),
        !grads.contains_key(x@),
        newer.backward.spec_apply(grads[newer.output_id@]).len() >= 1,
        older.backward.spec_apply(grads[older.output_id@]).len() >= 1,
        newer.backward.spec_apply(grads[newer.output_id@])[0].spec_accumulate(
            older.backward.spec_apply(grads[older.output_id@])[0],
        ) is Ok,
    ensures
        ({
            let from_newer = newer.backward.spec_apply(grads[newer.output_id@])[0];
            let from_older = older.backward.spec_apply(grads[older.output_id@])[0];
            spec_walk(seq![older, newer], 2, grads, false) matches (false, Ok(m)) && m.contains_key(
                x@,
            ) && m[x@] == from_newer.spec_accumulate(from_older)->Ok_0
        }),
{
    let nodes = seq![older, newer];
    let cn = newer.backward.spec_apply(grads[newer.output_id@]);
    let g1 = grads.insert(x@, cn[0]);
    assert(nodes[1] == newer && nodes[0] == older);
    assert(spec_accumulate_inputs(seq![x], cn, 1, g1, false) == (false, Ok::<Map<u64, S>, Error>(g1)));
    assert(spec_accumulate_inputs(seq![x], cn, 0, grads, false) == (false, Ok::<Map<u64, S>, Error>(g1)));
    assert(g1[older.output_id@] == grads[older.output_id@]);
    let co = older.backward.spec_apply(g1[older.output_id@]);
    assert(co == older.backward.spec_apply(grads[older.output_id@]));
    assert(co =~= co.subrange(0, co.len() as int));
    let g2 = g1.insert(x@, cn[0].spec_accumulate(co[0])->Ok_0);
    assert(spec_accumulate_inputs(seq![x], co, 1, g2, false) == (false, Ok::<Map<u64, S>, Error>(g2)));
    assert(spec_accumulate_inputs(seq![x], co, 0, g1, false) == (false, Ok::<Map<u64, S>, Error>(g2)));
    assert(spec_walk(nodes, 0, g2, false) == (false, Ok::<Map<u64, S>, Error>(g2)));
    assert(spec_walk(nodes, 1, g1, false) == (false, Ok::<Map<u64, S>, Error>(g2)));
}

} // verus!
