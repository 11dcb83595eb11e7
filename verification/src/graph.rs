//! Captured computation graphs and the renaming that gives the runtime axes
//! of each graph input graph-local symbols.
//!
//! Symbolic shapes arrive with symbols that mean something only to the
//! frontend that produced them: capture-time `Fresh` tokens, frontend symbol
//! ids, and named axes keyed by their producer identity. Marking a value as a
//! graph input renames all of them consistently: the same source symbol, or
//! the same identity, always receives the same graph-local id, and a newly
//! minted id never collides with a symbol the graph already uses.
use vstd::prelude::*;
use std::collections::{BTreeMap, BTreeSet};
use crate::error::OperationKind;
use crate::exec::symbolic::{Constraint, DimExpr, RankExpr, ShapeExpr, SymbolId};

verus! {

broadcast use vstd::laws_cmp::group_laws_cmp;

// --- named symbols -----------------------------------------------------------------

/// The id registered for `key` in a table of `(identity, id)` entries.
pub open spec fn name_lookup(names: Seq<(Seq<char>, u32)>, key: Seq<char>) -> Option<u32>
    decreases names.len(),
{
    if names.len() == 0 {
        None
    } else if names.last().0 == key {
        Some(names.last().1)
    } else {
        name_lookup(names.drop_last(), key)
    }
}

/// Graph-level registry from producer identity to symbol id. Each identity
/// is registered at most once, so its id never changes.
#[derive(Debug, Clone, PartialEq, Eq)]
pub struct NamedSymbols {
    entries: Vec<(String, u32)>,
}

impl View for NamedSymbols {
    type V = Seq<(Seq<char>, u32)>;

    closed spec fn view(&self) -> Seq<(Seq<char>, u32)> {
        self.entries@.map_values(|entry: (String, u32)| (entry.0@, entry.1))
    }
}

impl NamedSymbols {
    /// A registry with no entries.
    pub fn new() -> (r: NamedSymbols)
        ensures
            r@ == Seq::<(Seq<char>, u32)>::empty(),
    {
        NamedSymbols { entries: Vec::new() }
    }

    /// The number of registered identities.
    pub fn len(&self) -> (r: usize)
        ensures
            r == self@.len(),
    {
        self.entries.len()
    }

    /// The id registered for `identity`, if any.
    pub fn get(&self, identity: &String) -> (r: Option<u32>)
        ensures
            r == name_lookup(self@, identity@),
    {
        let mut i: usize = self.entries.len();
        proof {
            assert(self@.take(i as int) =~= self@);
        }
        while i > 0
            invariant
                i <= self.entries@.len(),
                name_lookup(self@, identity@) == name_lookup(self@.take(i as int), identity@),
            decreases i,
        {
            let entry = &self.entries[i - 1];
            proof {
                assert(self@.take(i as int).drop_last() =~= self@.take(i - 1));
            }
            if entry.0 == *identity {
                return Some(entry.1);
            }
            i = i - 1;
        }
        proof {
            assert(self@.take(0) =~= Seq::<(Seq<char>, u32)>::empty());
        }
        None
    }

    /// Registers `identity` with `id`.
    pub fn register(&mut self, identity: String, id: u32)
        ensures
            final(self)@ == old(self)@.push((identity@, id)),
    {
        let ghost before = self@;
        self.entries.push((identity, id));
        proof {
            assert(self@ =~= before.push((identity@, id)));
        }
    }

    /// The registered ids, in registration order.
    pub fn ids(&self) -> (r: Vec<u32>)
        ensures
            r@ == self@.map_values(|entry: (Seq<char>, u32)| entry.1),
    {
        let mut out: Vec<u32> = Vec::new();
        let mut i: usize = 0;
        while i < self.entries.len()
            invariant
                i <= self.entries@.len(),
                out@ =~= self@.take(i as int).map_values(|entry: (Seq<char>, u32)| entry.1),
            decreases self.entries.len() - i,
        {
            out.push(self.entries[i].1);
            i = i + 1;
            proof {
                assert(self@.take(i as int).map_values(|entry: (Seq<char>, u32)| entry.1)
                    =~= self@.take(i - 1).map_values(|entry: (Seq<char>, u32)| entry.1).push(
                    self@[i - 1].1,
                ));
            }
        }
        proof {
            assert(self@.take(i as int) =~= self@);
        }
        out
    }
}

// --- the renaming, as a state-threading specification ------------------------------

/// Everything a renaming pass reads and updates.
#[verifier::ext_equal]
pub struct RemapState {
    /// Graph-local id of each anonymous source symbol seen so far.
    pub anonymous: Map<u32, u32>,
    /// Graph-level `(identity, id)` registry.
    pub names: Seq<(Seq<char>, u32)>,
    /// Kept above every id handed to a named axis.
    pub named_next: u32,
    /// The next candidate of the fresh-id source.
    pub next: u32,
    /// Ids the fresh-id source must avoid; each id it hands out joins them.
    pub used: Set<u32>,
}

/// The first id at or above `n` that is not in `used` (the top id when the
/// search reaches it).
pub open spec fn first_unused(used: Set<u32>, n: u32) -> u32
    decreases u32::MAX - n,
{
    if !used.contains(n) || n == u32::MAX {
        n
    } else {
        first_unused(used, (n + 1) as u32)
    }
}

/// `x + 1`, saturating at the top of the `u32` range.
pub open spec fn saturating_succ(x: u32) -> u32 {
    if x == u32::MAX {
        x
    } else {
        (x + 1) as u32
    }
}

/// One draw from the fresh-id source.
pub open spec fn fresh_step(s: RemapState) -> (u32, RemapState) {
    let c = first_unused(s.used, s.next);
    (c, RemapState { next: saturating_succ(c), used: s.used.insert(c), ..s })
}

/// The id of an anonymous source symbol, minting one the first time.
pub open spec fn anonymous_step(s: RemapState, source: u32) -> (u32, RemapState) {
    if s.anonymous.contains_key(source) {
        (s.anonymous[source], s)
    } else {
        let (id, t) = fresh_step(s);
        (id, RemapState { anonymous: t.anonymous.insert(source, id), ..t })
    }
}

/// The id of a named axis, registering its identity the first time.
pub open spec fn named_step(s: RemapState, identity: Seq<char>) -> (u32, RemapState) {
    match name_lookup(s.names, identity) {
        Some(id) => (id, s),
        None => {
            let (id, t) = fresh_step(s);
            let bound = saturating_succ(id);
            (
                id,
                RemapState {
                    names: t.names.push((identity, id)),
                    named_next: if t.named_next >= bound {
                        t.named_next
                    } else {
                        bound
                    },
                    ..t
                },
            )
        },
    }
}

/// Whether an expression is a bare symbol reference.
pub open spec fn is_symbol_ref(e: DimExpr) -> bool {
    e is Symbol || e is NamedSymbol
}

/// The renamed expression and the state after renaming `e` from `s`,
/// visiting sub-expressions left to right.
pub open spec fn renamed_dim(e: DimExpr, s: RemapState) -> (DimExpr, RemapState)
    decreases e,
{
    match e {
        DimExpr::Fresh(source) => {
            let (id, t) = anonymous_step(s, source);
            (DimExpr::Symbol(SymbolId(id)), t)
        },
        DimExpr::Symbol(sym) => {
            let (id, t) = anonymous_step(s, sym.0);
            (DimExpr::Symbol(SymbolId(id)), t)
        },
        DimExpr::NamedSymbol { id: _, name, identity } => {
            let (id, t) = named_step(s, identity@);
            (DimExpr::NamedSymbol { id: SymbolId(id), name, identity }, t)
        },
        DimExpr::NamedFresh { source: _, name, identity } => {
            let (id, t) = named_step(s, identity@);
            (DimExpr::NamedSymbol { id: SymbolId(id), name, identity }, t)
        },
        DimExpr::NamedExpr { expr, id: _, name, identity } => {
            let (id, t) = named_step(s, identity@);
            let (inner, u) = renamed_dim(*expr, t);
            if is_symbol_ref(inner) {
                (DimExpr::NamedSymbol { id: SymbolId(id), name, identity }, u)
            } else {
                (DimExpr::NamedExpr { expr: Box::new(inner), id: SymbolId(id), name, identity }, u)
            }
        },
        DimExpr::Add(l, r) => {
            let (a, t) = renamed_dim(*l, s);
            let (b, u) = renamed_dim(*r, t);
            (DimExpr::Add(Box::new(a), Box::new(b)), u)
        },
        DimExpr::Sub(l, r) => {
            let (a, t) = renamed_dim(*l, s);
            let (b, u) = renamed_dim(*r, t);
            (DimExpr::Sub(Box::new(a), Box::new(b)), u)
        },
        DimExpr::Mul(l, r) => {
            let (a, t) = renamed_dim(*l, s);
            let (b, u) = renamed_dim(*r, t);
            (DimExpr::Mul(Box::new(a), Box::new(b)), u)
        },
        DimExpr::ExactDiv(l, r) => {
            let (a, t) = renamed_dim(*l, s);
            let (b, u) = renamed_dim(*r, t);
            (DimExpr::ExactDiv(Box::new(a), Box::new(b)), u)
        },
        DimExpr::Broadcast(l, r) => {
            let (a, t) = renamed_dim(*l, s);
            let (b, u) = renamed_dim(*r, t);
            (DimExpr::Broadcast(Box::new(a), Box::new(b)), u)
        },
        DimExpr::Min(l, r) => {
            let (a, t) = renamed_dim(*l, s);
            let (b, u) = renamed_dim(*r, t);
            (DimExpr::Min(Box::new(a), Box::new(b)), u)
        },
        DimExpr::Max(l, r) => {
            let (a, t) = renamed_dim(*l, s);
            let (b, u) = renamed_dim(*r, t);
            (DimExpr::Max(Box::new(a), Box::new(b)), u)
        },
        DimExpr::Const(_) | DimExpr::Unknown => (e, s),
    }
}

/// How many ids renaming `e` may draw from the fresh-id source.
pub open spec fn dim_sites(e: DimExpr) -> nat
    decreases e,
{
    match e {
        DimExpr::Fresh(_) | DimExpr::Symbol(_) | DimExpr::NamedSymbol { .. }
        | DimExpr::NamedFresh { .. } => 1,
        DimExpr::NamedExpr { expr, .. } => 1 + dim_sites(*expr),
        DimExpr::Add(l, r) | DimExpr::Sub(l, r) | DimExpr::Mul(l, r) | DimExpr::ExactDiv(l, r)
        | DimExpr::Broadcast(l, r) | DimExpr::Min(l, r) | DimExpr::Max(l, r) => dim_sites(*l)
            + dim_sites(*r),
        DimExpr::Const(_) | DimExpr::Unknown => 0,
    }
}

/// The used ids at or above the fresh-id cursor.
pub open spec fn used_ahead(s: RemapState) -> Set<u32> {
    s.used.filter(|u: u32| u >= s.next)
}

/// The cursor plus the used ids still ahead of it: each draw raises this by
/// exactly one, and a draw can only fail to terminate once it reaches the
/// top of the id range.
pub open spec fn id_pressure(s: RemapState) -> int {
    s.next + used_ahead(s).len()
}


/// Renames a sequence of expressions left to right.
pub open spec fn renamed_dims(dims: Seq<DimExpr>, s: RemapState) -> (Seq<DimExpr>, RemapState)
    decreases dims.len(),
{
    if dims.len() == 0 {
        (Seq::empty(), s)
    } else {
        let (prefix, t) = renamed_dims(dims.drop_last(), s);
        let (d, u) = renamed_dim(dims.last(), t);
        (prefix.push(d), u)
    }
}

/// How many ids renaming a sequence of expressions may draw.
pub open spec fn dims_sites(dims: Seq<DimExpr>) -> nat
    decreases dims.len(),
{
    if dims.len() == 0 {
        0
    } else {
        dims_sites(dims.drop_last()) + dim_sites(dims.last())
    }
}

/// Renames the expressions a constraint mentions, left to right.
pub open spec fn renamed_constraint(c: Constraint, s: RemapState) -> (Constraint, RemapState) {
    match c {
        Constraint::Equal { lhs, rhs } => {
            let (a, t) = renamed_dim(lhs, s);
            let (b, u) = renamed_dim(rhs, t);
            (Constraint::Equal { lhs: a, rhs: b }, u)
        },
        Constraint::BroadcastCompatible { lhs, rhs } => {
            let (a, t) = renamed_dim(lhs, s);
            let (b, u) = renamed_dim(rhs, t);
            (Constraint::BroadcastCompatible { lhs: a, rhs: b }, u)
        },
        Constraint::LowerBound { value, bound } => {
            let (a, t) = renamed_dim(value, s);
            (Constraint::LowerBound { value: a, bound }, t)
        },
        Constraint::UpperBound { value, bound } => {
            let (a, t) = renamed_dim(value, s);
            (Constraint::UpperBound { value: a, bound }, t)
        },
        Constraint::Divisible { value, divisor } => {
            let (a, t) = renamed_dim(value, s);
            (Constraint::Divisible { value: a, divisor }, t)
        },
    }
}

/// How many ids renaming a constraint may draw.
pub open spec fn constraint_sites(c: Constraint) -> nat {
    match c {
        Constraint::Equal { lhs, rhs } | Constraint::BroadcastCompatible { lhs, rhs } => dim_sites(
            lhs,
        ) + dim_sites(rhs),
        Constraint::LowerBound { value, .. } | Constraint::UpperBound { value, .. }
        | Constraint::Divisible { value, .. } => dim_sites(value),
    }
}

/// Renames a sequence of constraints left to right.
pub open spec fn renamed_constraints(cs: Seq<Constraint>, s: RemapState) -> (
    Seq<Constraint>,
    RemapState,
)
    decreases cs.len(),
{
    if cs.len() == 0 {
        (Seq::empty(), s)
    } else {
        let (prefix, t) = renamed_constraints(cs.drop_last(), s);
        let (c, u) = renamed_constraint(cs.last(), t);
        (prefix.push(c), u)
    }
}

/// How many ids renaming a sequence of constraints may draw.
pub open spec fn constraints_sites(cs: Seq<Constraint>) -> nat
    decreases cs.len(),
{
    if cs.len() == 0 {
        0
    } else {
        constraints_sites(cs.drop_last()) + constraint_sites(cs.last())
    }
}

/// How many ids renaming a shape may draw.
pub open spec fn shape_sites(e: ShapeExpr) -> nat {
    dims_sites(e.dims@) + constraints_sites(e.constraints@)
}

/// The state after renaming a shape: its dimensions first, then its
/// constraints.
pub open spec fn renamed_shape_state(e: ShapeExpr, s: RemapState) -> RemapState {
    renamed_constraints(e.constraints@, renamed_dims(e.dims@, s).1).1
}

/// Whether `r` is `e` renamed from state `s`: same rank, renamed
/// dimensions, then renamed constraints.
pub open spec fn is_renamed_shape(r: ShapeExpr, e: ShapeExpr, s: RemapState) -> bool {
    &&& r.rank == e.rank
    &&& r.dims@ == renamed_dims(e.dims@, s).0
    &&& r.constraints@ == renamed_constraints(e.constraints@, renamed_dims(e.dims@, s).1).0
}

proof fn lemma_dims_sites_prefix(dims: Seq<DimExpr>, i: int)
    requires
        0 <= i < dims.len(),
    ensures
        dims_sites(dims.take(i + 1)) == dims_sites(dims.take(i)) + dim_sites(dims[i]),
        dims_sites(dims.take(i + 1)) <= dims_sites(dims),
    decreases dims.len(),
{
    assert(dims.take(i + 1).drop_last() =~= dims.take(i));
    if i + 1 < dims.len() {
        lemma_dims_sites_prefix(dims.drop_last(), i);
        assert(dims.drop_last().take(i + 1) =~= dims.take(i + 1));
        if i + 1 < dims.len() - 1 {
            lemma_dims_sites_prefix(dims.drop_last(), i + 1);
            assert(dims.drop_last().take(i + 2) =~= dims.take(i + 2));
        } else {
            assert(dims.drop_last().take(i + 1) =~= dims.drop_last());
        }
    } else {
        assert(dims.take(i + 1) =~= dims);
    }
}

proof fn lemma_constraints_sites_prefix(cs: Seq<Constraint>, i: int)
    requires
        0 <= i < cs.len(),
    ensures
        constraints_sites(cs.take(i + 1)) == constraints_sites(cs.take(i)) + constraint_sites(cs[i]),
        constraints_sites(cs.take(i + 1)) <= constraints_sites(cs),
    decreases cs.len(),
{
    assert(cs.take(i + 1).drop_last() =~= cs.take(i));
    if i + 1 < cs.len() {
        lemma_constraints_sites_prefix(cs.drop_last(), i);
        assert(cs.drop_last().take(i + 1) =~= cs.take(i + 1));
        if i + 1 < cs.len() - 1 {
            lemma_constraints_sites_prefix(cs.drop_last(), i + 1);
            assert(cs.drop_last().take(i + 2) =~= cs.take(i + 2));
        } else {
            assert(cs.drop_last().take(i + 1) =~= cs.drop_last());
        }
    } else {
        assert(cs.take(i + 1) =~= cs);
    }
}

/// Skipping a used cursor position moves one id from "ahead" to "behind".
proof fn lemma_skip_used(s: RemapState)
    requires
        s.used.finite(),
        s.used.contains(s.next),
    ensures
        used_ahead(s).len() >= 1,
        s.next < u32::MAX ==> used_ahead(RemapState { next: (s.next + 1) as u32, ..s }).len() + 1
            == used_ahead(s).len(),
{
    s.used.lemma_len_filter(|u: u32| u >= s.next);
    assert(used_ahead(s).contains(s.next));
    assert(used_ahead(s).remove(s.next).len() == used_ahead(s).len() - 1);
    if s.next < u32::MAX {
        let t = RemapState { next: (s.next + 1) as u32, ..s };
        assert(used_ahead(t) =~= used_ahead(s).remove(s.next));
    }
}

/// Taking an unused cursor position leaves the ids ahead unchanged.
proof fn lemma_take_unused(s: RemapState)
    requires
        s.used.finite(),
        !s.used.contains(s.next),
        s.next < u32::MAX,
    ensures
        used_ahead(RemapState { next: (s.next + 1) as u32, used: s.used.insert(s.next), ..s })
            =~= used_ahead(s),
{
}

// --- what a renaming pass guarantees ------------------------------------------------

/// Whether an expression still holds a capture-time token (`Fresh` or
/// `NamedFresh`) that only its frontend can interpret.
pub open spec fn has_capture_token(e: DimExpr) -> bool
    decreases e,
{
    match e {
        DimExpr::Fresh(_) | DimExpr::NamedFresh { .. } => true,
        DimExpr::NamedExpr { expr, .. } => has_capture_token(*expr),
        DimExpr::Add(l, r) | DimExpr::Sub(l, r) | DimExpr::Mul(l, r) | DimExpr::ExactDiv(l, r)
        | DimExpr::Broadcast(l, r) | DimExpr::Min(l, r) | DimExpr::Max(l, r) => has_capture_token(
            *l,
        ) || has_capture_token(*r),
        _ => false,
    }
}

/// Whether a constraint mentions a capture-time token.
pub open spec fn constraint_has_capture_token(c: Constraint) -> bool {
    match c {
        Constraint::Equal { lhs, rhs } | Constraint::BroadcastCompatible { lhs, rhs } =>
            has_capture_token(lhs) || has_capture_token(rhs),
        Constraint::LowerBound { value, .. } | Constraint::UpperBound { value, .. }
        | Constraint::Divisible { value, .. } => has_capture_token(value),
    }
}

/// How state `t` relates to the state `s` a renaming started from: every
/// existing mapping is kept, and every mapping added since was given an id
/// that was free in `s`, now counts as used, and differs from every other
/// added id.
pub open spec fn remap_extends(s: RemapState, t: RemapState) -> bool {
    &&& s.used.subset_of(t.used)
    &&& forall|k: u32| #[trigger]
        s.anonymous.contains_key(k) ==> t.anonymous.contains_key(k) && t.anonymous[k]
            == s.anonymous[k]
    &&& s.names.len() <= t.names.len()
    &&& t.names.take(s.names.len() as int) == s.names
    &&& forall|k: u32| #[trigger]
        t.anonymous.contains_key(k) && !s.anonymous.contains_key(k) ==> !s.used.contains(
            t.anonymous[k],
        ) && t.used.contains(t.anonymous[k])
    &&& forall|i: int|
        s.names.len() <= i < t.names.len() ==> !s.used.contains(#[trigger] t.names[i].1)
            && t.used.contains(t.names[i].1)
    &&& forall|k1: u32, k2: u32|
        #![trigger t.anonymous[k1], t.anonymous[k2]]
        t.anonymous.contains_key(k1) && !s.anonymous.contains_key(k1) && t.anonymous.contains_key(
            k2,
        ) && !s.anonymous.contains_key(k2) && k1 != k2 ==> t.anonymous[k1] != t.anonymous[k2]
    &&& forall|i: int, j: int|
        #![trigger t.names[i], t.names[j]]
        s.names.len() <= i < t.names.len() && s.names.len() <= j < t.names.len() && i != j
            ==> t.names[i].1 != t.names[j].1
    &&& forall|k: u32, i: int|
        #![trigger t.anonymous[k], t.names[i]]
        t.anonymous.contains_key(k) && !s.anonymous.contains_key(k) && s.names.len() <= i
            < t.names.len() ==> t.anonymous[k] != t.names[i].1
}

proof fn lemma_extends_refl(s: RemapState)
    ensures
        remap_extends(s, s),
{
    assert(s.names.take(s.names.len() as int) =~= s.names);
}

proof fn lemma_extends_trans(s: RemapState, t: RemapState, u: RemapState)
    requires
        remap_extends(s, t),
        remap_extends(t, u),
    ensures
        remap_extends(s, u),
{
    assert(u.names.take(s.names.len() as int) =~= t.names.take(s.names.len() as int)) by {
        assert forall|i: int| 0 <= i < s.names.len() implies u.names[i] == t.names[i] by {
            assert(u.names.take(t.names.len() as int)[i] == t.names[i]);
        }
    }
    assert forall|i: int| s.names.len() <= i < u.names.len() implies !s.used.contains(
        #[trigger] u.names[i].1,
    ) && u.used.contains(u.names[i].1) by {
        if i < t.names.len() {
            assert(u.names.take(t.names.len() as int)[i] == t.names[i]);
        }
    }
    assert forall|i: int, j: int|
        s.names.len() <= i < u.names.len() && s.names.len() <= j < u.names.len() && i != j
            implies #[trigger] u.names[i].1 != #[trigger] u.names[j].1 by {
        if i < t.names.len() {
            assert(u.names.take(t.names.len() as int)[i] == t.names[i]);
        }
        if j < t.names.len() {
            assert(u.names.take(t.names.len() as int)[j] == t.names[j]);
        }
    }
    assert forall|k: u32, i: int|
        u.anonymous.contains_key(k) && !s.anonymous.contains_key(k) && s.names.len() <= i
            < u.names.len() implies #[trigger] u.anonymous[k] != #[trigger] u.names[i].1 by {
        if i < t.names.len() {
            assert(u.names.take(t.names.len() as int)[i] == t.names[i]);
        }
        if t.anonymous.contains_key(k) {
            assert(u.anonymous[k] == t.anonymous[k]);
        }
    }
    assert forall|k1: u32, k2: u32|
        u.anonymous.contains_key(k1) && !s.anonymous.contains_key(k1) && u.anonymous.contains_key(
            k2,
        ) && !s.anonymous.contains_key(k2) && k1 != k2 implies #[trigger] u.anonymous[k1]
        != #[trigger] u.anonymous[k2] by {
        if t.anonymous.contains_key(k1) {
            assert(u.anonymous[k1] == t.anonymous[k1]);
        }
        if t.anonymous.contains_key(k2) {
            assert(u.anonymous[k2] == t.anonymous[k2]);
        }
    }
}

/// Under bounded pressure the fresh-id search stops at an unused id, and
/// the pressure seen from there is the pressure seen from the cursor.
proof fn lemma_first_unused(s: RemapState)
    requires
        s.used.finite(),
        id_pressure(s) < u32::MAX,
    ensures
        !s.used.contains(first_unused(s.used, s.next)),
        first_unused(s.used, s.next) < u32::MAX,
        id_pressure(RemapState { next: first_unused(s.used, s.next), ..s }) == id_pressure(s),
    decreases u32::MAX - s.next,
{
    s.used.lemma_len_filter(|u: u32| u >= s.next);
    if s.used.contains(s.next) {
        lemma_skip_used(s);
        let t = RemapState { next: (s.next + 1) as u32, ..s };
        lemma_first_unused(t);
    }
}

proof fn lemma_fresh_step(s: RemapState)
    requires
        s.used.finite(),
        id_pressure(s) < u32::MAX,
    ensures
        !s.used.contains(fresh_step(s).0),
        fresh_step(s).1.used == s.used.insert(fresh_step(s).0),
        fresh_step(s).1.used.finite(),
        fresh_step(s).1.anonymous == s.anonymous,
        fresh_step(s).1.names == s.names,
        id_pressure(fresh_step(s).1) == id_pressure(s) + 1,
{
    lemma_first_unused(s);
    let c = first_unused(s.used, s.next);
    lemma_take_unused(RemapState { next: c, ..s });
}

proof fn lemma_anonymous_step(s: RemapState, source: u32)
    requires
        s.used.finite(),
        id_pressure(s) < u32::MAX,
    ensures
        remap_extends(s, anonymous_step(s, source).1),
        anonymous_step(s, source).1.used.finite(),
        id_pressure(anonymous_step(s, source).1) <= id_pressure(s) + 1,
        anonymous_step(s, source).1.anonymous.contains_key(source),
        anonymous_step(s, source).1.anonymous[source] == anonymous_step(s, source).0,
{
    if s.anonymous.contains_key(source) {
        lemma_extends_refl(s);
    } else {
        lemma_fresh_step(s);
        let t = anonymous_step(s, source).1;
        assert(t.names.take(s.names.len() as int) =~= s.names);
    }
}

proof fn lemma_named_step(s: RemapState, identity: Seq<char>)
    requires
        s.used.finite(),
        id_pressure(s) < u32::MAX,
    ensures
        remap_extends(s, named_step(s, identity).1),
        named_step(s, identity).1.used.finite(),
        id_pressure(named_step(s, identity).1) <= id_pressure(s) + 1,
        name_lookup(named_step(s, identity).1.names, identity) == Some(named_step(s, identity).0),
{
    match name_lookup(s.names, identity) {
        Some(id) => {
            lemma_extends_refl(s);
        },
        None => {
            lemma_fresh_step(s);
            let t = named_step(s, identity).1;
            assert(t.names.take(s.names.len() as int) =~= s.names);
            assert(t.names.drop_last() =~= s.names);
        },
    }
}

proof fn lemma_renamed_dim(e: DimExpr, s: RemapState)
    requires
        s.used.finite(),
        id_pressure(s) + dim_sites(e) <= u32::MAX,
    ensures
        remap_extends(s, renamed_dim(e, s).1),
        renamed_dim(e, s).1.used.finite(),
        id_pressure(renamed_dim(e, s).1) <= id_pressure(s) + dim_sites(e),
        !has_capture_token(renamed_dim(e, s).0),
    decreases e,
{
    match e {
        DimExpr::Fresh(source) => lemma_anonymous_step(s, source),
        DimExpr::Symbol(sym) => lemma_anonymous_step(s, sym.0),
        DimExpr::NamedSymbol { identity, .. } => lemma_named_step(s, identity@),
        DimExpr::NamedFresh { identity, .. } => lemma_named_step(s, identity@),
        DimExpr::NamedExpr { expr, identity, .. } => {
            lemma_named_step(s, identity@);
            let t = named_step(s, identity@).1;
            lemma_renamed_dim(*expr, t);
            lemma_extends_trans(s, t, renamed_dim(*expr, t).1);
        },
        DimExpr::Add(l, r) | DimExpr::Sub(l, r) | DimExpr::Mul(l, r) | DimExpr::ExactDiv(l, r)
        | DimExpr::Broadcast(l, r) | DimExpr::Min(l, r) | DimExpr::Max(l, r) => {
            lemma_renamed_dim(*l, s);
            let t = renamed_dim(*l, s).1;
            lemma_renamed_dim(*r, t);
            lemma_extends_trans(s, t, renamed_dim(*r, t).1);
        },
        _ => lemma_extends_refl(s),
    }
}

proof fn lemma_renamed_dims(dims: Seq<DimExpr>, s: RemapState)
    requires
        s.used.finite(),
        id_pressure(s) + dims_sites(dims) <= u32::MAX,
    ensures
        remap_extends(s, renamed_dims(dims, s).1),
        renamed_dims(dims, s).1.used.finite(),
        id_pressure(renamed_dims(dims, s).1) <= id_pressure(s) + dims_sites(dims),
        renamed_dims(dims, s).0.len() == dims.len(),
        forall|i: int|
            0 <= i < dims.len() ==> !has_capture_token(#[trigger] renamed_dims(dims, s).0[i]),
    decreases dims.len(),
{
    if dims.len() == 0 {
        lemma_extends_refl(s);
    } else {
        lemma_renamed_dims(dims.drop_last(), s);
        let t = renamed_dims(dims.drop_last(), s).1;
        lemma_renamed_dim(dims.last(), t);
        lemma_extends_trans(s, t, renamed_dim(dims.last(), t).1);
    }
}

proof fn lemma_renamed_constraint(c: Constraint, s: RemapState)
    requires
        s.used.finite(),
        id_pressure(s) + constraint_sites(c) <= u32::MAX,
    ensures
        remap_extends(s, renamed_constraint(c, s).1),
        renamed_constraint(c, s).1.used.finite(),
        id_pressure(renamed_constraint(c, s).1) <= id_pressure(s) + constraint_sites(c),
        !constraint_has_capture_token(renamed_constraint(c, s).0),
{
    match c {
        Constraint::Equal { lhs, rhs } | Constraint::BroadcastCompatible { lhs, rhs } => {
            lemma_renamed_dim(lhs, s);
            let t = renamed_dim(lhs, s).1;
            lemma_renamed_dim(rhs, t);
            lemma_extends_trans(s, t, renamed_dim(rhs, t).1);
        },
        Constraint::LowerBound { value, .. } | Constraint::UpperBound { value, .. }
        | Constraint::Divisible { value, .. } => lemma_renamed_dim(value, s),
    }
}

proof fn lemma_renamed_constraints(cs: Seq<Constraint>, s: RemapState)
    requires
        s.used.finite(),
        id_pressure(s) + constraints_sites(cs) <= u32::MAX,
    ensures
        remap_extends(s, renamed_constraints(cs, s).1),
        renamed_constraints(cs, s).1.used.finite(),
        id_pressure(renamed_constraints(cs, s).1) <= id_pressure(s) + constraints_sites(cs),
        renamed_constraints(cs, s).0.len() == cs.len(),
        forall|i: int|
            0 <= i < cs.len() ==> !constraint_has_capture_token(
                #[trigger] renamed_constraints(cs, s).0[i],
            ),
    decreases cs.len(),
{
    if cs.len() == 0 {
        lemma_extends_refl(s);
    } else {
        lemma_renamed_constraints(cs.drop_last(), s);
        let t = renamed_constraints(cs.drop_last(), s).1;
        lemma_renamed_constraint(cs.last(), t);
        lemma_extends_trans(s, t, renamed_constraint(cs.last(), t).1);
    }
}

/// Renaming a shape is consistent and collision-free: every symbol that
/// already had a graph-local id keeps it, each newly seen anonymous symbol
/// or identity receives an id that was not in use before the pass and that
/// no other new symbol receives, and no capture-time token survives in the
/// renamed dimensions or constraints.
pub proof fn lemma_remap_shape_consistent(e: ShapeExpr, s: RemapState)
    requires
        s.used.finite(),
        id_pressure(s) + shape_sites(e) <= u32::MAX,
    ensures
        remap_extends(s, renamed_shape_state(e, s)),
        forall|i: int|
            0 <= i < e.dims@.len() ==> !has_capture_token(
                #[trigger] renamed_dims(e.dims@, s).0[i],
            ),
        forall|i: int|
            0 <= i < e.constraints@.len() ==> !constraint_has_capture_token(
                #[trigger] renamed_constraints(e.constraints@, renamed_dims(e.dims@, s).1).0[i],
            ),
{
    lemma_renamed_dims(e.dims@, s);
    let t = renamed_dims(e.dims@, s).1;
    lemma_renamed_constraints(e.constraints@, t);
    lemma_extends_trans(s, t, renamed_constraints(e.constraints@, t).1);
}

// --- symbols a graph already uses ----------------------------------------------------

/// The symbol ids an expression mentions. The id a `NamedExpr` carries is
/// not among them: only the ids inside its aliased expression are.
pub open spec fn dim_symbols(e: DimExpr) -> Set<u32>
    decreases e,
{
    match e {
        DimExpr::Symbol(id) => set![id.0],
        DimExpr::NamedSymbol { id, .. } => set![id.0],
        DimExpr::NamedExpr { expr, .. } => dim_symbols(*expr),
        DimExpr::Add(l, r) | DimExpr::Sub(l, r) | DimExpr::Mul(l, r) | DimExpr::ExactDiv(l, r)
        | DimExpr::Broadcast(l, r) | DimExpr::Min(l, r) | DimExpr::Max(l, r) => dim_symbols(
            *l,
        ).union(dim_symbols(*r)),
        _ => Set::empty(),
    }
}

/// The symbol ids a sequence of expressions mentions.
pub open spec fn dims_symbols(dims: Seq<DimExpr>) -> Set<u32>
    decreases dims.len(),
{
    if dims.len() == 0 {
        Set::empty()
    } else {
        dims_symbols(dims.drop_last()).union(dim_symbols(dims.last()))
    }
}

/// The symbol ids a constraint mentions.
pub open spec fn constraint_symbols(c: Constraint) -> Set<u32> {
    match c {
        Constraint::Equal { lhs, rhs } | Constraint::BroadcastCompatible { lhs, rhs } =>
            dim_symbols(lhs).union(dim_symbols(rhs)),
        Constraint::LowerBound { value, .. } | Constraint::UpperBound { value, .. }
        | Constraint::Divisible { value, .. } => dim_symbols(value),
    }
}

/// The symbol ids a sequence of constraints mentions.
pub open spec fn constraints_symbols(cs: Seq<Constraint>) -> Set<u32>
    decreases cs.len(),
{
    if cs.len() == 0 {
        Set::empty()
    } else {
        constraints_symbols(cs.drop_last()).union(constraint_symbols(cs.last()))
    }
}

/// The symbol ids a shape mentions, in its dimensions or its constraints.
pub open spec fn shape_symbols(e: ShapeExpr) -> Set<u32> {
    dims_symbols(e.dims@).union(constraints_symbols(e.constraints@))
}

proof fn lemma_dim_symbols_finite(e: DimExpr)
    ensures
        dim_symbols(e).finite(),
    decreases e,
{
    match e {
        DimExpr::NamedExpr { expr, .. } => lemma_dim_symbols_finite(*expr),
        DimExpr::Add(l, r) | DimExpr::Sub(l, r) | DimExpr::Mul(l, r) | DimExpr::ExactDiv(l, r)
        | DimExpr::Broadcast(l, r) | DimExpr::Min(l, r) | DimExpr::Max(l, r) => {
            lemma_dim_symbols_finite(*l);
            lemma_dim_symbols_finite(*r);
        },
        _ => {},
    }
}

proof fn lemma_dims_symbols_finite(dims: Seq<DimExpr>)
    ensures
        dims_symbols(dims).finite(),
    decreases dims.len(),
{
    if dims.len() > 0 {
        lemma_dims_symbols_finite(dims.drop_last());
        lemma_dim_symbols_finite(dims.last());
    }
}

proof fn lemma_constraints_symbols_finite(cs: Seq<Constraint>)
    ensures
        constraints_symbols(cs).finite(),
    decreases cs.len(),
{
    if cs.len() > 0 {
        lemma_constraints_symbols_finite(cs.drop_last());
        match cs.last() {
            Constraint::Equal { lhs, rhs } | Constraint::BroadcastCompatible { lhs, rhs } => {
                lemma_dim_symbols_finite(lhs);
                lemma_dim_symbols_finite(rhs);
            },
            Constraint::LowerBound { value, .. } | Constraint::UpperBound { value, .. }
            | Constraint::Divisible { value, .. } => lemma_dim_symbols_finite(value),
        }
    }
}

/// A shape mentions finitely many symbols.
pub proof fn lemma_shape_symbols_finite(e: ShapeExpr)
    ensures
        shape_symbols(e).finite(),
{
    lemma_dims_symbols_finite(e.dims@);
    lemma_constraints_symbols_finite(e.constraints@);
}

fn collect_dim_symbols(e: &DimExpr, symbols: &mut BTreeSet<u32>)
    ensures
        final(symbols)@ == old(symbols)@.union(dim_symbols(*e)),
    decreases e,
{
    let ghost before = symbols@;
    match e {
        DimExpr::Symbol(id) => {
            symbols.insert(id.0);
            proof {
                assert(symbols@ =~= before.union(dim_symbols(*e)));
            }
        },
        DimExpr::NamedSymbol { id, .. } => {
            symbols.insert(id.0);
            proof {
                assert(symbols@ =~= before.union(dim_symbols(*e)));
            }
        },
        DimExpr::NamedExpr { expr, .. } => collect_dim_symbols(expr, symbols),
        DimExpr::Add(l, r) | DimExpr::Sub(l, r) | DimExpr::Mul(l, r) | DimExpr::ExactDiv(l, r)
        | DimExpr::Broadcast(l, r) | DimExpr::Min(l, r) | DimExpr::Max(l, r) => {
            collect_dim_symbols(l, symbols);
            collect_dim_symbols(r, symbols);
            proof {
                assert(symbols@ =~= before.union(dim_symbols(*e)));
            }
        },
        _ => {
            proof {
                assert(symbols@ =~= before.union(dim_symbols(*e)));
            }
        },
    }
}

/// Adds every symbol id that `expr` mentions to `symbols`.
pub fn collect_shape_symbols(expr: &ShapeExpr, symbols: &mut BTreeSet<u32>)
    ensures
        final(symbols)@ == old(symbols)@.union(shape_symbols(*expr)),
{
    let ghost before = symbols@;
    let mut i: usize = 0;
    proof {
        assert(expr.dims@.take(0) =~= Seq::<DimExpr>::empty());
        assert(symbols@ =~= before.union(dims_symbols(expr.dims@.take(0))));
    }
    while i < expr.dims.len()
        invariant
            i <= expr.dims@.len(),
            symbols@ == before.union(dims_symbols(expr.dims@.take(i as int))),
        decreases expr.dims.len() - i,
    {
        proof {
            assert(expr.dims@.take(i + 1).drop_last() =~= expr.dims@.take(i as int));
        }
        collect_dim_symbols(&expr.dims[i], symbols);
        i = i + 1;
        proof {
            assert(symbols@ =~= before.union(dims_symbols(expr.dims@.take(i as int))));
        }
    }
    proof {
        assert(expr.dims@.take(i as int) =~= expr.dims@);
    }
    let ghost middle = symbols@;
    let mut k: usize = 0;
    proof {
        assert(expr.constraints@.take(0) =~= Seq::<Constraint>::empty());
        assert(symbols@ =~= middle.union(constraints_symbols(expr.constraints@.take(0))));
    }
    while k < expr.constraints.len()
        invariant
            k <= expr.constraints@.len(),
            symbols@ == middle.union(constraints_symbols(expr.constraints@.take(k as int))),
        decreases expr.constraints.len() - k,
    {
        proof {
            assert(expr.constraints@.take(k + 1).drop_last() =~= expr.constraints@.take(k as int));
        }
        match &expr.constraints[k] {
            Constraint::Equal { lhs, rhs } | Constraint::BroadcastCompatible { lhs, rhs } => {
                collect_dim_symbols(lhs, symbols);
                collect_dim_symbols(rhs, symbols);
            },
            Constraint::LowerBound { value, .. } | Constraint::UpperBound { value, .. }
            | Constraint::Divisible { value, .. } => {
                collect_dim_symbols(value, symbols);
            },
        }
        k = k + 1;
        proof {
            assert(symbols@ =~= middle.union(constraints_symbols(expr.constraints@.take(k as int))));
        }
    }
    proof {
        assert(expr.constraints@.take(k as int) =~= expr.constraints@);
        assert(symbols@ =~= before.union(shape_symbols(*expr)));
    }
}

/// Renames symbolic expressions into one graph's symbol space.
#[derive(Debug)]
pub struct SymbolRemapper {
    anonymous: BTreeMap<u32, u32>,
    names: NamedSymbols,
    named_next: u32,
    next: u32,
    used: BTreeSet<u32>,
}

impl View for SymbolRemapper {
    type V = RemapState;

    closed spec fn view(&self) -> RemapState {
        RemapState {
            anonymous: self.anonymous@,
            names: self.names@,
            named_next: self.named_next,
            next: self.next,
            used: self.used@,
        }
    }
}

impl SymbolRemapper {
    /// Whether the set of ids to avoid is finite.
    pub open spec fn well_formed(&self) -> bool {
        self@.used.finite()
    }

    /// A renamer that has seen no anonymous symbol yet, registers new named
    /// axes in `names`, and draws fresh ids upward from `next`, avoiding
    /// `used`.
    pub fn new(names: NamedSymbols, named_next: u32, next: u32, used: BTreeSet<u32>) -> (r:
        SymbolRemapper)
        requires
            used@.finite(),
        ensures
            r.well_formed(),
            r@ == (RemapState {
                anonymous: Map::empty(),
                names: names@,
                named_next,
                next,
                used: used@,
            }),
    {
        SymbolRemapper { anonymous: BTreeMap::new(), names, named_next, next, used }
    }

    /// The registry, the named-id bound and the fresh-id cursor, handing the
    /// registry back.
    pub fn finish(self) -> (r: (NamedSymbols, u32, u32))
        ensures
            r.0@ == self@.names,
            r.1 == self@.named_next,
            r.2 == self@.next,
    {
        (self.names, self.named_next, self.next)
    }

    /// Draws the first unused id at or above the cursor.
    fn fresh(&mut self) -> (r: u32)
        requires
            old(self).well_formed(),
            id_pressure(old(self)@) < u32::MAX,
        ensures
            final(self).well_formed(),
            r == fresh_step(old(self)@).0,
            final(self)@ == fresh_step(old(self)@).1,
            id_pressure(final(self)@) == id_pressure(old(self)@) + 1,
    {
        let ghost s0 = self@;
        loop
            invariant
                s0 == old(self)@,
                s0.used.finite(),
                self.used@ == s0.used,
                self.anonymous@ == s0.anonymous,
                self.names@ == s0.names,
                self.named_next == s0.named_next,
                first_unused(s0.used, self.next) == first_unused(s0.used, s0.next),
                id_pressure(self@) == id_pressure(s0),
                id_pressure(s0) < u32::MAX,
            decreases u32::MAX - self.next,
        {
            let candidate = self.next;
            let ghost here = self@;
            self.next = self.next.saturating_add(1);
            if self.used.insert(candidate) {
                proof {
                    used_ahead(here).lemma_len_filter(|u: u32| true);
                    s0.used.lemma_len_filter(|u: u32| u >= here.next);
                    lemma_take_unused(here);
                    assert(first_unused(s0.used, here.next) == here.next);
                    assert(self@ =~= fresh_step(s0).1);
                }
                return candidate;
            }
            proof {
                lemma_skip_used(here);
            }
        }
    }

    /// The graph-local id of an anonymous source symbol.
    fn anonymous_id(&mut self, source: u32) -> (r: u32)
        requires
            old(self).well_formed(),
            id_pressure(old(self)@) < u32::MAX,
        ensures
            final(self).well_formed(),
            r == anonymous_step(old(self)@, source).0,
            final(self)@ == anonymous_step(old(self)@, source).1,
            id_pressure(final(self)@) <= id_pressure(old(self)@) + 1,
    {
        let existing: Option<u32> = match self.anonymous.get(&source) {
            Some(mapped) => Some(*mapped),
            None => None,
        };
        match existing {
            Some(mapped) => mapped,
            None => {
                let id = self.fresh();
                self.anonymous.insert(source, id);
                id
            },
        }
    }

    /// The graph-local id of a named axis.
    fn named_id(&mut self, identity: &String) -> (r: u32)
        requires
            old(self).well_formed(),
            id_pressure(old(self)@) < u32::MAX,
        ensures
            final(self).well_formed(),
            r == named_step(old(self)@, identity@).0,
            final(self)@ == named_step(old(self)@, identity@).1,
            id_pressure(final(self)@) <= id_pressure(old(self)@) + 1,
    {
        match self.names.get(identity) {
            Some(id) => id,
            None => {
                let id = self.fresh();
                let bound = id.saturating_add(1);
                if self.named_next < bound {
                    self.named_next = bound;
                }
                self.names.register(identity.clone(), id);
                id
            },
        }
    }

    /// Renames one dimension expression.
    pub fn remap_dim(&mut self, expr: DimExpr) -> (r: DimExpr)
        requires
            old(self).well_formed(),
            id_pressure(old(self)@) + dim_sites(expr) <= u32::MAX,
        ensures
            final(self).well_formed(),
            r == renamed_dim(expr, old(self)@).0,
            final(self)@ == renamed_dim(expr, old(self)@).1,
            id_pressure(final(self)@) <= id_pressure(old(self)@) + dim_sites(expr),
        decreases expr,
    {
        match expr {
            DimExpr::Fresh(source) => DimExpr::Symbol(SymbolId(self.anonymous_id(source))),
            DimExpr::Symbol(sym) => DimExpr::Symbol(SymbolId(self.anonymous_id(sym.0))),
            DimExpr::NamedSymbol { id: _, name, identity } => {
                let id = self.named_id(&identity);
                DimExpr::NamedSymbol { id: SymbolId(id), name, identity }
            },
            DimExpr::NamedFresh { source: _, name, identity } => {
                let id = self.named_id(&identity);
                DimExpr::NamedSymbol { id: SymbolId(id), name, identity }
            },
            DimExpr::NamedExpr { expr, id: _, name, identity } => {
                let id = self.named_id(&identity);
                let inner = self.remap_dim(*expr);
                match inner {
                    DimExpr::Symbol(_) => DimExpr::NamedSymbol { id: SymbolId(id), name, identity },
                    DimExpr::NamedSymbol { .. } => DimExpr::NamedSymbol {
                        id: SymbolId(id),
                        name,
                        identity,
                    },
                    other => DimExpr::NamedExpr {
                        expr: Box::new(other),
                        id: SymbolId(id),
                        name,
                        identity,
                    },
                }
            },
            DimExpr::Add(l, r) => {
                let a = self.remap_dim(*l);
                let b = self.remap_dim(*r);
                DimExpr::Add(Box::new(a), Box::new(b))
            },
            DimExpr::Sub(l, r) => {
                let a = self.remap_dim(*l);
                let b = self.remap_dim(*r);
                DimExpr::Sub(Box::new(a), Box::new(b))
            },
            DimExpr::Mul(l, r) => {
                let a = self.remap_dim(*l);
                let b = self.remap_dim(*r);
                DimExpr::Mul(Box::new(a), Box::new(b))
            },
            DimExpr::ExactDiv(l, r) => {
                let a = self.remap_dim(*l);
                let b = self.remap_dim(*r);
                DimExpr::ExactDiv(Box::new(a), Box::new(b))
            },
            DimExpr::Broadcast(l, r) => {
                let a = self.remap_dim(*l);
                let b = self.remap_dim(*r);
                DimExpr::Broadcast(Box::new(a), Box::new(b))
            },
            DimExpr::Min(l, r) => {
                let a = self.remap_dim(*l);
                let b = self.remap_dim(*r);
                DimExpr::Min(Box::new(a), Box::new(b))
            },
            DimExpr::Max(l, r) => {
                let a = self.remap_dim(*l);
                let b = self.remap_dim(*r);
                DimExpr::Max(Box::new(a), Box::new(b))
            },
            other => other,
        }
    }

    /// Renames the expressions of one constraint.
    pub fn remap_constraint(&mut self, c: Constraint) -> (r: Constraint)
        requires
            old(self).well_formed(),
            id_pressure(old(self)@) + constraint_sites(c) <= u32::MAX,
        ensures
            final(self).well_formed(),
            r == renamed_constraint(c, old(self)@).0,
            final(self)@ == renamed_constraint(c, old(self)@).1,
            id_pressure(final(self)@) <= id_pressure(old(self)@) + constraint_sites(c),
    {
        match c {
            Constraint::Equal { lhs, rhs } => {
                let a = self.remap_dim(lhs);
                let b = self.remap_dim(rhs);
                Constraint::Equal { lhs: a, rhs: b }
            },
            Constraint::BroadcastCompatible { lhs, rhs } => {
                let a = self.remap_dim(lhs);
                let b = self.remap_dim(rhs);
                Constraint::BroadcastCompatible { lhs: a, rhs: b }
            },
            Constraint::LowerBound { value, bound } => {
                let a = self.remap_dim(value);
                Constraint::LowerBound { value: a, bound }
            },
            Constraint::UpperBound { value, bound } => {
                let a = self.remap_dim(value);
                Constraint::UpperBound { value: a, bound }
            },
            Constraint::Divisible { value, divisor } => {
                let a = self.remap_dim(value);
                Constraint::Divisible { value: a, divisor }
            },
        }
    }
}

/// Renames every symbol of a shape expression: dimensions first, then
/// constraints, each left to right.
pub fn remap_shape_symbols(expr: &ShapeExpr, remapper: &mut SymbolRemapper) -> (r: ShapeExpr)
    requires
        old(remapper).well_formed(),
        id_pressure(old(remapper)@) + shape_sites(*expr) <= u32::MAX,
    ensures
        final(remapper).well_formed(),
        is_renamed_shape(r, *expr, old(remapper)@),
        final(remapper)@ == renamed_shape_state(*expr, old(remapper)@),
        id_pressure(final(remapper)@) <= id_pressure(old(remapper)@) + shape_sites(*expr),
{
    let ghost s0 = remapper@;
    let mut dims: Vec<DimExpr> = Vec::new();
    let mut i: usize = 0;
    proof {
        assert(expr.dims@.take(0) =~= Seq::<DimExpr>::empty());
    }
    while i < expr.dims.len()
        invariant
            i <= expr.dims@.len(),
            remapper.well_formed(),
            id_pressure(s0) + shape_sites(*expr) <= u32::MAX,
            dims@ == renamed_dims(expr.dims@.take(i as int), s0).0,
            remapper@ == renamed_dims(expr.dims@.take(i as int), s0).1,
            id_pressure(remapper@) <= id_pressure(s0) + dims_sites(expr.dims@.take(i as int)),
        decreases expr.dims.len() - i,
    {
        proof {
            lemma_dims_sites_prefix(expr.dims@, i as int);
            assert(expr.dims@.take(i + 1).drop_last() =~= expr.dims@.take(i as int));
        }
        let d = expr.dims[i].clone();
        let renamed = remapper.remap_dim(d);
        dims.push(renamed);
        i = i + 1;
    }
    proof {
        assert(expr.dims@.take(i as int) =~= expr.dims@);
    }
    let ghost s1 = remapper@;
    let mut constraints: Vec<Constraint> = Vec::new();
    let mut k: usize = 0;
    proof {
        assert(expr.constraints@.take(0) =~= Seq::<Constraint>::empty());
    }
    while k < expr.constraints.len()
        invariant
            k <= expr.constraints@.len(),
            remapper.well_formed(),
            id_pressure(s1) + constraints_sites(expr.constraints@) <= u32::MAX,
            constraints@ == renamed_constraints(expr.constraints@.take(k as int), s1).0,
            remapper@ == renamed_constraints(expr.constraints@.take(k as int), s1).1,
            id_pressure(remapper@) <= id_pressure(s1) + constraints_sites(
                expr.constraints@.take(k as int),
            ),
        decreases expr.constraints.len() - k,
    {
        proof {
            lemma_constraints_sites_prefix(expr.constraints@, k as int);
            assert(expr.constraints@.take(k + 1).drop_last() =~= expr.constraints@.take(
                k as int,
            ));
        }
        let c = expr.constraints[k].clone();
        let renamed = remapper.remap_constraint(c);
        constraints.push(renamed);
        k = k + 1;
    }
    proof {
        assert(expr.constraints@.take(k as int) =~= expr.constraints@);
    }
    ShapeExpr { rank: expr.rank, dims, constraints }
}

} // verus!

verus! {

// --- graphs -------------------------------------------------------------------------

/// Metadata for one graph value: concrete extents for eager tracing, and the
/// symbolic shape that compiled execution checks.
#[derive(Debug)]
pub struct Value {
    /// Value identifier within the graph.
    pub id: usize,
    /// Concrete extents when statically known.
    pub shape: Vec<usize>,
    /// Symbolic shape supporting dynamic dims.
    pub shape_expr: ShapeExpr,
    /// Human-readable name, when supplied.
    pub name: Option<String>,
}

/// Encoded canonical descriptor carried by a captured node.
#[derive(Debug, Clone, PartialEq, Eq)]
pub struct DescriptorPayload {
    /// Schema version of the payload.
    pub schema: u32,
    /// Encoded bytes.
    pub payload: Vec<u8>,
}

/// An operation node: what runs, which values it consumes and produces,
/// and the encoded descriptor captured with it.
#[derive(Debug)]
pub struct Node {
    /// Node identifier.
    pub id: usize,
    /// The built-in operation executing here.
    pub operation: OperationKind,
    /// Identifiers of consumed values.
    pub inputs: Vec<usize>,
    /// Identifiers of produced values.
    pub outputs: Vec<usize>,
    /// Versioned bytes of the canonical descriptor, when captured.
    pub descriptor_payload: Option<DescriptorPayload>,
}

/// The shape dimensions `ShapeExpr::symbolic` builds: one capture-time token
/// per axis, numbered upward from `base` (saturating).
pub open spec fn symbolic_dims(n: nat, base: u32) -> Seq<DimExpr> {
    Seq::new(
        n,
        |i: int|
            DimExpr::Fresh(
                (if base + (i as u32) <= u32::MAX {
                    base + (i as u32)
                } else {
                    u32::MAX as int
                }) as u32,
            ),
    )
}

proof fn lemma_symbolic_dims_sites(n: nat, base: u32)
    ensures
        dims_sites(symbolic_dims(n, base)) == n,
    decreases n,
{
    if n > 0 {
        lemma_symbolic_dims_sites((n - 1) as nat, base);
        assert(symbolic_dims(n, base).drop_last() =~= symbolic_dims((n - 1) as nat, base));
    }
}

/// The symbol ids mentioned by the values with ids below `n`.
pub open spec fn values_symbols(values: Map<usize, Value>, n: nat) -> Set<u32>
    decreases n,
{
    if n == 0 {
        Set::empty()
    } else {
        values_symbols(values, (n - 1) as nat).union(
            shape_symbols(values[(n - 1) as usize].shape_expr),
        )
    }
}

proof fn lemma_values_symbols_finite(values: Map<usize, Value>, n: nat)
    ensures
        values_symbols(values, n).finite(),
    decreases n,
{
    if n > 0 {
        lemma_values_symbols_finite(values, (n - 1) as nat);
        lemma_shape_symbols_finite(values[(n - 1) as usize].shape_expr);
    }
}

/// The ids a `(identity, id)` registry hands out.
pub open spec fn names_ids(names: Seq<(Seq<char>, u32)>) -> Set<u32> {
    names.map_values(|entry: (Seq<char>, u32)| entry.1).to_set()
}

/// A computation graph's values, inputs and outputs, with the registry of
/// graph-local symbols its inputs are described by.
#[derive(Debug)]
pub struct Graph {
    values: BTreeMap<usize, Value>,
    nodes: Vec<Node>,
    inputs: Vec<usize>,
    outputs: Vec<usize>,
    next_value_id: usize,
    named_symbols: NamedSymbols,
    next_symbol_id: u32,
}

impl Graph {
    /// Values are keyed by their ids, which run densely from zero, and each
    /// node's id is its position.
    pub closed spec fn well_formed(&self) -> bool {
        &&& forall|k: usize| #[trigger] self.values@.contains_key(k) <==> k < self.next_value_id
        &&& forall|k: usize| #[trigger] self.values@.contains_key(k) ==> self.values@[k].id == k
        &&& forall|i: int| 0 <= i < self.nodes@.len() ==> #[trigger] self.nodes@[i].id == i
    }

    /// The nodes, in the order they were added.
    pub closed spec fn spec_nodes(&self) -> Seq<Node> {
        self.nodes@
    }

    /// The values, keyed by id.
    pub closed spec fn spec_values(&self) -> Map<usize, Value> {
        self.values@
    }

    /// The graph inputs, in the order they were marked.
    pub closed spec fn spec_inputs(&self) -> Seq<usize> {
        self.inputs@
    }

    /// The graph outputs, in the order they were marked.
    pub closed spec fn spec_outputs(&self) -> Seq<usize> {
        self.outputs@
    }

    /// The number of values added so far.
    pub closed spec fn value_count(&self) -> nat {
        self.next_value_id as nat
    }

    /// The registry of named symbols.
    pub closed spec fn spec_names(&self) -> Seq<(Seq<char>, u32)> {
        self.named_symbols@
    }

    /// Where the search for the next graph-local symbol starts.
    pub closed spec fn spec_next_symbol_id(&self) -> u32 {
        self.next_symbol_id
    }

    /// Every symbol id the graph already uses: those its values' shapes
    /// mention and those its registry hands out.
    pub open spec fn symbols_in_use(&self) -> Set<u32> {
        values_symbols(self.spec_values(), self.value_count()).union(names_ids(self.spec_names()))
    }

    /// The state renaming a new input's shape starts from.
    pub open spec fn input_remap_start(&self) -> RemapState {
        RemapState {
            anonymous: Map::empty(),
            names: self.spec_names(),
            named_next: self.spec_next_symbol_id(),
            next: self.spec_next_symbol_id(),
            used: self.symbols_in_use(),
        }
    }

    /// An empty graph.
    pub fn new() -> (r: Graph)
        ensures
            r.well_formed(),
            r.spec_values() == Map::<usize, Value>::empty(),
            r.spec_nodes() == Seq::<Node>::empty(),
            r.value_count() == 0,
            r.spec_inputs() == Seq::<usize>::empty(),
            r.spec_outputs() == Seq::<usize>::empty(),
            r.spec_names() == Seq::<(Seq<char>, u32)>::empty(),
            r.spec_next_symbol_id() == 0,
    {
        Graph {
            values: BTreeMap::new(),
            nodes: Vec::new(),
            inputs: Vec::new(),
            outputs: Vec::new(),
            next_value_id: 0,
            named_symbols: NamedSymbols::new(),
            next_symbol_id: 0,
        }
    }

    /// The value with the given id, if any.
    pub fn value(&self, id: usize) -> (r: Option<&Value>)
        ensures
            r == (if self.spec_values().contains_key(id) {
                Some(&self.spec_values()[id])
            } else {
                None
            }),
    {
        self.values.get(&id)
    }

    /// The graph inputs.
    pub fn inputs(&self) -> (r: &Vec<usize>)
        ensures
            r@ == self.spec_inputs(),
    {
        &self.inputs
    }

    /// The graph outputs.
    pub fn outputs(&self) -> (r: &Vec<usize>)
        ensures
            r@ == self.spec_outputs(),
    {
        &self.outputs
    }

    /// Adds a value with a concrete shape and returns its id, the next one
    /// in sequence.
    pub fn add_value(&mut self, shape: Vec<usize>, name: Option<String>) -> (r: usize)
        requires
            old(self).well_formed(),
            old(self).value_count() < usize::MAX,
        ensures
            final(self).well_formed(),
            r == old(self).value_count(),
            final(self).value_count() == old(self).value_count() + 1,
            final(self).spec_values().dom() == old(self).spec_values().dom().insert(r),
            forall|k: usize|
                k != r && old(self).spec_values().contains_key(k) ==> final(self).spec_values()[k]
                    == old(self).spec_values()[k],
            final(self).spec_values()[r].id == r,
            final(self).spec_values()[r].shape@ == shape@,
            final(self).spec_values()[r].name == name,
            final(self).spec_values()[r].shape_expr.rank == RankExpr::Static(shape@.len() as usize),
            final(self).spec_values()[r].shape_expr.dims@ == shape@.map_values(
                |d: usize| DimExpr::Const(d),
            ),
            final(self).spec_values()[r].shape_expr.constraints@.len() == 0,
            final(self).spec_inputs() == old(self).spec_inputs(),
            final(self).spec_outputs() == old(self).spec_outputs(),
            final(self).spec_nodes() == old(self).spec_nodes(),
            final(self).spec_names() == old(self).spec_names(),
            final(self).spec_next_symbol_id() == old(self).spec_next_symbol_id(),
    {
        let id = self.next_value_id;
        let shape_expr = ShapeExpr::concrete(&shape);
        proof {
            assert(shape_expr.dims@ =~= shape@.map_values(|d: usize| DimExpr::Const(d)));
        }
        let value = Value { id, shape, shape_expr, name };
        self.values.insert(id, value);
        self.next_value_id = id + 1;
        id
    }

    /// The symbol ids the graph already uses, collected from every value's
    /// shape and from the registry.
    fn collect_symbols_in_use(&self) -> (r: BTreeSet<u32>)
        requires
            self.well_formed(),
        ensures
            r@ == self.symbols_in_use(),
            r@.finite(),
    {
        let mut used: BTreeSet<u32> = BTreeSet::new();
        let mut id: usize = 0;
        while id < self.next_value_id
            invariant
                id <= self.next_value_id,
                self.well_formed(),
                used@ == values_symbols(self.values@, id as nat),
            decreases self.next_value_id - id,
        {
            match self.values.get(&id) {
                Some(v) => collect_shape_symbols(&v.shape_expr, &mut used),
                None => {},
            }
            id = id + 1;
        }
        let ids = self.named_symbols.ids();
        let ghost from_values = used@;
        let mut j: usize = 0;
        proof {
            assert(ids@.take(0) =~= Seq::<u32>::empty());
            assert(used@ =~= from_values.union(ids@.take(0).to_set()));
        }
        while j < ids.len()
            invariant
                j <= ids@.len(),
                used@ == from_values.union(ids@.take(j as int).to_set()),
            decreases ids.len() - j,
        {
            used.insert(ids[j]);
            j = j + 1;
            proof {
                assert(ids@.take(j as int) =~= ids@.take(j - 1).push(ids@[j - 1]));
                ids@.take(j - 1).lemma_push_to_set_commute(ids@[j - 1]);
                assert(used@ =~= from_values.union(ids@.take(j as int).to_set()));
            }
        }
        proof {
            assert(ids@.take(j as int) =~= ids@);
            lemma_values_symbols_finite(self.values@, self.next_value_id as nat);
            vstd::seq_lib::seq_to_set_is_finite(ids@);
        }
        used
    }

    /// Renames the symbols of an input shape into the graph's symbol space,
    /// registering new named axes and advancing the symbol cursor.
    fn remap_input_symbols(&mut self, expr: &ShapeExpr) -> (r: ShapeExpr)
        requires
            old(self).well_formed(),
            id_pressure(old(self).input_remap_start()) + shape_sites(*expr) <= u32::MAX,
        ensures
            final(self).well_formed(),
            is_renamed_shape(r, *expr, old(self).input_remap_start()),
            final(self).spec_names() == renamed_shape_state(
                *expr,
                old(self).input_remap_start(),
            ).names,
            final(self).spec_next_symbol_id() == renamed_shape_state(
                *expr,
                old(self).input_remap_start(),
            ).next,
            final(self).spec_values() == old(self).spec_values(),
            final(self).value_count() == old(self).value_count(),
            final(self).spec_inputs() == old(self).spec_inputs(),
            final(self).spec_outputs() == old(self).spec_outputs(),
            final(self).spec_nodes() == old(self).spec_nodes(),
    {
        let used = self.collect_symbols_in_use();
        let next = self.next_symbol_id;
        let mut names = NamedSymbols::new();
        std::mem::swap(&mut names, &mut self.named_symbols);
        let mut remapper = SymbolRemapper::new(names, next, next, used);
        let remapped = remap_shape_symbols(expr, &mut remapper);
        let (names, _named_next, next_after) = remapper.finish();
        self.named_symbols = names;
        self.next_symbol_id = next_after;
        remapped
    }

    /// Marks a value as a graph input; marking it again adds no duplicate
    /// entry. An existing value's shape becomes one graph-local symbol per
    /// axis: capture-time tokens `1, 2, ...` renamed by
    /// [`remap_shape_symbols`] from [`Graph::input_remap_start`].
    pub fn mark_input(&mut self, value_id: usize)
        requires
            old(self).well_formed(),
            old(self).spec_values().contains_key(value_id) ==> id_pressure(
                old(self).input_remap_start(),
            ) + old(self).spec_values()[value_id].shape@.len() <= u32::MAX,
        ensures
            final(self).well_formed(),
            final(self).spec_inputs() == (if old(self).spec_inputs().contains(value_id) {
                old(self).spec_inputs()
            } else {
                old(self).spec_inputs().push(value_id)
            }),
            final(self).spec_outputs() == old(self).spec_outputs(),
            final(self).spec_nodes() == old(self).spec_nodes(),
            final(self).value_count() == old(self).value_count(),
            final(self).spec_values().dom() == old(self).spec_values().dom(),
            forall|k: usize|
                k != value_id && old(self).spec_values().contains_key(k)
                    ==> final(self).spec_values()[k] == old(self).spec_values()[k],
            !old(self).spec_values().contains_key(value_id) ==> {
                &&& final(self).spec_names() == old(self).spec_names()
                &&& final(self).spec_next_symbol_id() == old(self).spec_next_symbol_id()
            },
            old(self).spec_values().contains_key(value_id) ==> {
                let before = old(self).spec_values()[value_id];
                let after = final(self).spec_values()[value_id];
                let renamed = renamed_dims(
                    symbolic_dims(before.shape@.len(), 1),
                    old(self).input_remap_start(),
                );
                &&& after.id == before.id
                &&& after.shape == before.shape
                &&& after.name == before.name
                &&& after.shape_expr.rank == RankExpr::Static(before.shape@.len() as usize)
                &&& after.shape_expr.dims@ == renamed.0
                &&& after.shape_expr.constraints@.len() == 0
                &&& final(self).spec_names() == renamed.1.names
                &&& final(self).spec_next_symbol_id() == renamed.1.next
            },
    {
        if !contains_id(&self.inputs, value_id) {
            self.inputs.push(value_id);
        }
        let symbolic: Option<ShapeExpr> = match self.values.get(&value_id) {
            Some(v) => Some(ShapeExpr::symbolic(v.shape.as_slice(), 1)),
            None => None,
        };
        if let Some(shape) = symbolic {
            proof {
                let n = self.values@[value_id].shape@.len();
                assert(shape.dims@ =~= symbolic_dims(n, 1));
                assert(shape.constraints@ =~= Seq::<Constraint>::empty());
                lemma_symbolic_dims_sites(n, 1);
                assert(constraints_sites(shape.constraints@) == 0);
            }
            let remapped = self.remap_input_symbols(&shape);
            match self.values.remove(&value_id) {
                Some(value) => {
                    let updated = Value {
                        id: value.id,
                        shape: value.shape,
                        shape_expr: remapped,
                        name: value.name,
                    };
                    self.values.insert(value_id, updated);
                },
                None => {},
            }
        }
    }

    /// The node with the given id, if any.
    pub fn node(&self, id: usize) -> (r: Option<&Node>)
        ensures
            r == (if id < self.spec_nodes().len() {
                Some(&self.spec_nodes()[id as int])
            } else {
                None
            }),
    {
        if id < self.nodes.len() {
            Some(&self.nodes[id])
        } else {
            None
        }
    }

    /// Adds a node for a built-in operation and returns its id, the next
    /// one in sequence. The references are recorded as given.
    pub fn add_node(&mut self, operation: OperationKind, inputs: Vec<usize>, outputs: Vec<usize>) -> (r:
        usize)
        requires
            old(self).well_formed(),
            old(self).spec_nodes().len() < usize::MAX,
        ensures
            final(self).well_formed(),
            r == old(self).spec_nodes().len(),
            final(self).spec_nodes().len() == r + 1,
            final(self).spec_nodes().take(r as int) == old(self).spec_nodes(),
            final(self).spec_nodes()[r as int].id == r,
            final(self).spec_nodes()[r as int].operation == operation,
            final(self).spec_nodes()[r as int].inputs@ == inputs@,
            final(self).spec_nodes()[r as int].outputs@ == outputs@,
            final(self).spec_nodes()[r as int].descriptor_payload is None,
            final(self).spec_values() == old(self).spec_values(),
            final(self).value_count() == old(self).value_count(),
            final(self).spec_inputs() == old(self).spec_inputs(),
            final(self).spec_outputs() == old(self).spec_outputs(),
            final(self).spec_names() == old(self).spec_names(),
            final(self).spec_next_symbol_id() == old(self).spec_next_symbol_id(),
    {
        self.add_node_with_descriptor_payload(operation, inputs, outputs, None)
    }

    /// Adds a node carrying an encoded descriptor payload and returns its id.
    pub fn add_node_with_descriptor_payload(
        &mut self,
        operation: OperationKind,
        inputs: Vec<usize>,
        outputs: Vec<usize>,
        descriptor_payload: Option<DescriptorPayload>,
    ) -> (r: usize)
        requires
            old(self).well_formed(),
            old(self).spec_nodes().len() < usize::MAX,
        ensures
            final(self).well_formed(),
            r == old(self).spec_nodes().len(),
            final(self).spec_nodes().len() == r + 1,
            final(self).spec_nodes().take(r as int) == old(self).spec_nodes(),
            final(self).spec_nodes()[r as int].id == r,
            final(self).spec_nodes()[r as int].operation == operation,
            final(self).spec_nodes()[r as int].inputs@ == inputs@,
            final(self).spec_nodes()[r as int].outputs@ == outputs@,
            final(self).spec_nodes()[r as int].descriptor_payload == descriptor_payload,
            final(self).spec_values() == old(self).spec_values(),
            final(self).value_count() == old(self).value_count(),
            final(self).spec_inputs() == old(self).spec_inputs(),
            final(self).spec_outputs() == old(self).spec_outputs(),
            final(self).spec_names() == old(self).spec_names(),
            final(self).spec_next_symbol_id() == old(self).spec_next_symbol_id(),
    {
        let id = self.nodes.len();
        let ghost before = self.nodes@;
        self.nodes.push(Node { id, operation, inputs, outputs, descriptor_payload });
        proof {
            assert(self.nodes@.take(id as int) =~= before);
        }
        id
    }

    /// Marks a value as a graph output; marking it again changes nothing.
    pub fn mark_output(&mut self, value_id: usize)
        requires
            old(self).well_formed(),
        ensures
            final(self).well_formed(),
            final(self).spec_outputs() == (if old(self).spec_outputs().contains(value_id) {
                old(self).spec_outputs()
            } else {
                old(self).spec_outputs().push(value_id)
            }),
            final(self).spec_values() == old(self).spec_values(),
            final(self).spec_nodes() == old(self).spec_nodes(),
            final(self).value_count() == old(self).value_count(),
            final(self).spec_inputs() == old(self).spec_inputs(),
            final(self).spec_names() == old(self).spec_names(),
            final(self).spec_next_symbol_id() == old(self).spec_next_symbol_id(),
    {
        if !contains_id(&self.outputs, value_id) {
            self.outputs.push(value_id);
        }
    }
}

/// Whether `ids` holds `id`.
fn contains_id(ids: &Vec<usize>, id: usize) -> (r: bool)
    ensures
        r == ids@.contains(id),
{
    let mut i: usize = 0;
    while i < ids.len()
        invariant
            i <= ids@.len(),
            forall|j: int| 0 <= j < i ==> ids@[j] != id,
        decreases ids.len() - i,
    {
        if ids[i] == id {
            return true;
        }
        i = i + 1;
    }
    false
}

} // verus!
