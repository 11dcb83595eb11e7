//! Small compiler-facing symbolic shape language.
//!
//! The typed shape system proves frontend operations. This module preserves
//! the facts that remain relevant after type erasure, including obligations
//! that must be checked when a compiled graph is called.
use vstd::prelude::*;
use std::collections::BTreeMap;
use crate::text::{decimal, usize_text};
use crate::exec::descriptor::{aligned_extent, axis_compatible, broadcast_rank};
use crate::exec::spelling::{
    constraint_string, constraint_text, dim_expr_string, dim_expr_text, symbol_id_string,
    symbol_id_text,
};

verus! {

broadcast use vstd::laws_cmp::group_laws_cmp;

/// Identifier of one symbolic dimension variable.
#[derive(Debug, Clone, Copy, PartialEq, Eq, Structural, Ord, PartialOrd, Hash)]
pub struct SymbolId(pub u32);

/// Registration record for a symbol.
#[derive(Debug, Clone, PartialEq, Eq, Hash)]
pub struct SymbolInfo {
    /// Symbol identifier.
    pub id: SymbolId,
    /// Optional human-readable name.
    pub name: Option<String>,
    /// Producer identity string, when known.
    pub identity: Option<String>,
}

/// One dimension extent: constant, symbol, alias, or arithmetic combination.
#[derive(Debug, PartialEq, Eq, Hash)]
pub enum DimExpr {
    /// A fixed extent known at capture time.
    Const(usize),
    /// A frontend-local symbol token, allocated by graph capture before the
    /// expression is used as compiled metadata.
    Fresh(u32),
    /// Fresh axis minted by a producer during capture.
    NamedFresh {
        /// Capture-time id of the producing operation.
        source: u32,
        /// Human-readable name for diagnostics.
        name: String,
        /// Canonical identity binding this axis to its producer.
        identity: String,
    },
    /// A named dimension variable resolved at run time.
    Symbol(SymbolId),
    /// Reference to a registered named symbol.
    NamedSymbol {
        /// Symbol identifier.
        id: SymbolId,
        /// Human-readable name for diagnostics.
        name: String,
        /// Canonical identity binding this axis to its producer.
        identity: String,
    },
    /// A derived dimension that retains the semantic identity of its axis.
    NamedExpr {
        /// The aliased dimension expression.
        expr: Box<DimExpr>,
        /// Symbol identifier.
        id: SymbolId,
        /// Human-readable name for diagnostics.
        name: String,
        /// Canonical identity binding this axis to its producer.
        identity: String,
    },
    /// Sum of two dimension expressions.
    Add(Box<DimExpr>, Box<DimExpr>),
    /// Difference of two dimension expressions.
    Sub(Box<DimExpr>, Box<DimExpr>),
    /// Product of two dimension expressions.
    Mul(Box<DimExpr>, Box<DimExpr>),
    /// Division that must divide exactly to be legal.
    ExactDiv(Box<DimExpr>, Box<DimExpr>),
    /// Right-aligned broadcast combination of two extents.
    Broadcast(Box<DimExpr>, Box<DimExpr>),
    /// Minimum of two extents.
    Min(Box<DimExpr>, Box<DimExpr>),
    /// Maximum of two extents.
    Max(Box<DimExpr>, Box<DimExpr>),
    /// Extent could not be determined symbolically.
    Unknown,
}

impl Clone for DimExpr {
    fn clone(&self) -> (r: DimExpr)
        ensures
            r == *self,
        decreases self,
    {
        match self {
            DimExpr::Const(v) => DimExpr::Const(*v),
            DimExpr::Fresh(t) => DimExpr::Fresh(*t),
            DimExpr::NamedFresh { source, name, identity } => DimExpr::NamedFresh {
                source: *source,
                name: name.clone(),
                identity: identity.clone(),
            },
            DimExpr::Symbol(id) => DimExpr::Symbol(*id),
            DimExpr::NamedSymbol { id, name, identity } => DimExpr::NamedSymbol {
                id: *id,
                name: name.clone(),
                identity: identity.clone(),
            },
            DimExpr::NamedExpr { expr, id, name, identity } => DimExpr::NamedExpr {
                expr: Box::new((**expr).clone()),
                id: *id,
                name: name.clone(),
                identity: identity.clone(),
            },
            DimExpr::Add(l, r) => DimExpr::Add(Box::new((**l).clone()), Box::new((**r).clone())),
            DimExpr::Sub(l, r) => DimExpr::Sub(Box::new((**l).clone()), Box::new((**r).clone())),
            DimExpr::Mul(l, r) => DimExpr::Mul(Box::new((**l).clone()), Box::new((**r).clone())),
            DimExpr::ExactDiv(l, r) => DimExpr::ExactDiv(
                Box::new((**l).clone()),
                Box::new((**r).clone()),
            ),
            DimExpr::Broadcast(l, r) => DimExpr::Broadcast(
                Box::new((**l).clone()),
                Box::new((**r).clone()),
            ),
            DimExpr::Min(l, r) => DimExpr::Min(Box::new((**l).clone()), Box::new((**r).clone())),
            DimExpr::Max(l, r) => DimExpr::Max(Box::new((**l).clone()), Box::new((**r).clone())),
            DimExpr::Unknown => DimExpr::Unknown,
        }
    }
}

/// Table of symbols and their constraints.
#[derive(Debug, Clone, Default, PartialEq, Eq)]
pub struct SymbolTable {
    /// Registered symbols in insertion order.
    pub symbols: Vec<SymbolInfo>,
    /// Constraints binding symbols.
    pub constraints: Vec<Constraint>,
}

/// The first position at or after `i` that registers `id`.
pub open spec fn symbol_index_from(symbols: Seq<SymbolInfo>, id: SymbolId, i: int) -> Option<int>
    decreases symbols.len() - i,
{
    if i < 0 || i >= symbols.len() {
        None
    } else if symbols[i].id == id {
        Some(i)
    } else {
        symbol_index_from(symbols, id, i + 1)
    }
}

/// A registration merged into an existing one: a name or identity already
/// present is kept, a missing one is filled.
pub open spec fn merged_info(
    existing: SymbolInfo,
    name: Option<String>,
    identity: Option<String>,
) -> SymbolInfo {
    SymbolInfo {
        id: existing.id,
        name: if existing.name is None { name } else { existing.name },
        identity: if existing.identity is None { identity } else { existing.identity },
    }
}

fn keep_or_fill(existing: &Option<String>, incoming: Option<String>) -> (r: Option<String>)
    ensures
        r == (if existing is None { incoming } else { *existing }),
{
    match existing {
        Some(value) => Some(value.clone()),
        None => incoming,
    }
}

impl SymbolTable {
    /// Registers a symbol with optional naming. A symbol registered again
    /// keeps the name and identity it already has and gains the ones it
    /// lacked; a new symbol is appended.
    pub fn register(&mut self, id: SymbolId, name: Option<String>, identity: Option<String>)
        ensures
            final(self).constraints == old(self).constraints,
            match symbol_index_from(old(self).symbols@, id, 0) {
                Some(k) => final(self).symbols@ == old(self).symbols@.update(
                    k,
                    merged_info(old(self).symbols@[k], name, identity),
                ),
                None => final(self).symbols@ == old(self).symbols@.push(
                    SymbolInfo { id, name, identity },
                ),
            },
    {
        let mut i: usize = 0;
        while i < self.symbols.len()
            invariant
                i <= self.symbols@.len(),
                self.symbols@ == old(self).symbols@,
                self.constraints == old(self).constraints,
                symbol_index_from(self.symbols@, id, 0) == symbol_index_from(
                    self.symbols@,
                    id,
                    i as int,
                ),
            decreases self.symbols.len() - i,
        {
            if self.symbols[i].id.0 == id.0 {
                let merged = SymbolInfo {
                    id: self.symbols[i].id,
                    name: keep_or_fill(&self.symbols[i].name, name),
                    identity: keep_or_fill(&self.symbols[i].identity, identity),
                };
                self.symbols[i] = merged;
                return;
            }
            i = i + 1;
        }
        self.symbols.push(SymbolInfo { id, name, identity });
    }

    /// The environment a fresh validation starts from: no symbol is bound.
    pub fn environment(&self) -> (r: SymbolEnvironment)
        ensures
            r@ == Map::<u32, usize>::empty(),
    {
        SymbolEnvironment::new()
    }
}

// --- the meaning of an expression ----------------------------------------------

/// Checked addition in `usize`.
pub open spec fn opt_add(a: Option<usize>, b: Option<usize>) -> Option<usize> {
    match (a, b) {
        (Some(x), Some(y)) => if x + y <= usize::MAX { Some((x + y) as usize) } else { None },
        _ => None,
    }
}

/// Checked subtraction in `usize`.
pub open spec fn opt_sub(a: Option<usize>, b: Option<usize>) -> Option<usize> {
    match (a, b) {
        (Some(x), Some(y)) => if x >= y { Some((x - y) as usize) } else { None },
        _ => None,
    }
}

/// Checked multiplication in `usize`.
pub open spec fn opt_mul(a: Option<usize>, b: Option<usize>) -> Option<usize> {
    match (a, b) {
        (Some(x), Some(y)) => if x * y <= usize::MAX { Some((x * y) as usize) } else { None },
        _ => None,
    }
}

/// Division that is defined only when it is exact.
pub open spec fn opt_exact_div(a: Option<usize>, b: Option<usize>) -> Option<usize> {
    match (a, b) {
        (Some(x), Some(y)) => if y != 0 && x % y == 0 { Some((x / y) as usize) } else { None },
        _ => None,
    }
}

/// Broadcast combination: equal extents, or one side is one.
pub open spec fn opt_broadcast(a: Option<usize>, b: Option<usize>) -> Option<usize> {
    match (a, b) {
        (Some(x), Some(y)) => if x == y {
            Some(x)
        } else if x == 1 {
            Some(y)
        } else if y == 1 {
            Some(x)
        } else {
            None
        },
        _ => None,
    }
}

/// The smaller extent.
pub open spec fn opt_min(a: Option<usize>, b: Option<usize>) -> Option<usize> {
    match (a, b) {
        (Some(x), Some(y)) => Some(if x <= y { x } else { y }),
        _ => None,
    }
}

/// The larger extent.
pub open spec fn opt_max(a: Option<usize>, b: Option<usize>) -> Option<usize> {
    match (a, b) {
        (Some(x), Some(y)) => Some(if x >= y { x } else { y }),
        _ => None,
    }
}

/// The value of `e` when each symbol id is resolved by `lookup`; `None` when
/// a symbol is unbound, a token is unallocated, or an operation is undefined.
pub open spec fn spec_eval(e: DimExpr, lookup: spec_fn(u32) -> Option<usize>) -> Option<usize>
    decreases e,
{
    match e {
        DimExpr::Const(v) => Some(v),
        DimExpr::Symbol(id) => lookup(id.0),
        DimExpr::NamedSymbol { id, .. } => lookup(id.0),
        DimExpr::Fresh(_) => None,
        DimExpr::NamedFresh { .. } => None,
        DimExpr::NamedExpr { expr, id, .. } => match lookup(id.0) {
            Some(v) => Some(v),
            None => spec_eval(*expr, lookup),
        },
        DimExpr::Add(l, r) => opt_add(spec_eval(*l, lookup), spec_eval(*r, lookup)),
        DimExpr::Sub(l, r) => opt_sub(spec_eval(*l, lookup), spec_eval(*r, lookup)),
        DimExpr::Mul(l, r) => opt_mul(spec_eval(*l, lookup), spec_eval(*r, lookup)),
        DimExpr::ExactDiv(l, r) => opt_exact_div(spec_eval(*l, lookup), spec_eval(*r, lookup)),
        DimExpr::Broadcast(l, r) => opt_broadcast(spec_eval(*l, lookup), spec_eval(*r, lookup)),
        DimExpr::Min(l, r) => opt_min(spec_eval(*l, lookup), spec_eval(*r, lookup)),
        DimExpr::Max(l, r) => opt_max(spec_eval(*l, lookup), spec_eval(*r, lookup)),
        DimExpr::Unknown => None,
    }
}

/// The first binding of `id` at or after position `i` of an association list.
pub open spec fn first_binding_from(symbols: Seq<(SymbolId, usize)>, id: u32, i: int) -> Option<
    usize,
>
    decreases symbols.len() - i,
{
    if i < 0 || i >= symbols.len() {
        None
    } else if symbols[i].0.0 == id {
        Some(symbols[i].1)
    } else {
        first_binding_from(symbols, id, i + 1)
    }
}

/// The first binding of `id` in an association list.
pub open spec fn first_binding(symbols: Seq<(SymbolId, usize)>, id: u32) -> Option<usize> {
    first_binding_from(symbols, id, 0)
}

/// Resolution through an association list: the first binding wins.
pub open spec fn list_lookup(symbols: Seq<(SymbolId, usize)>) -> spec_fn(u32) -> Option<usize> {
    |id: u32| first_binding(symbols, id)
}

/// Resolution through a map of bindings.
pub open spec fn map_lookup(bindings: Map<u32, usize>) -> spec_fn(u32) -> Option<usize> {
    |id: u32|
        if bindings.contains_key(id) {
            Some(bindings[id])
        } else {
            None
        }
}

/// Structural equality, with names compared by content.
pub open spec fn same_expr(a: DimExpr, b: DimExpr) -> bool
    decreases a,
{
    match (a, b) {
        (DimExpr::Const(x), DimExpr::Const(y)) => x == y,
        (DimExpr::Fresh(x), DimExpr::Fresh(y)) => x == y,
        (
            DimExpr::NamedFresh { source: s1, name: n1, identity: i1 },
            DimExpr::NamedFresh { source: s2, name: n2, identity: i2 },
        ) => s1 == s2 && n1@ == n2@ && i1@ == i2@,
        (DimExpr::Symbol(x), DimExpr::Symbol(y)) => x == y,
        (
            DimExpr::NamedSymbol { id: d1, name: n1, identity: i1 },
            DimExpr::NamedSymbol { id: d2, name: n2, identity: i2 },
        ) => d1 == d2 && n1@ == n2@ && i1@ == i2@,
        (
            DimExpr::NamedExpr { expr: e1, id: d1, name: n1, identity: i1 },
            DimExpr::NamedExpr { expr: e2, id: d2, name: n2, identity: i2 },
        ) => same_expr(*e1, *e2) && d1 == d2 && n1@ == n2@ && i1@ == i2@,
        (DimExpr::Add(l1, r1), DimExpr::Add(l2, r2)) => same_expr(*l1, *l2) && same_expr(*r1, *r2),
        (DimExpr::Sub(l1, r1), DimExpr::Sub(l2, r2)) => same_expr(*l1, *l2) && same_expr(*r1, *r2),
        (DimExpr::Mul(l1, r1), DimExpr::Mul(l2, r2)) => same_expr(*l1, *l2) && same_expr(*r1, *r2),
        (DimExpr::ExactDiv(l1, r1), DimExpr::ExactDiv(l2, r2)) => same_expr(*l1, *l2) && same_expr(
            *r1,
            *r2,
        ),
        (DimExpr::Broadcast(l1, r1), DimExpr::Broadcast(l2, r2)) => same_expr(*l1, *l2)
            && same_expr(*r1, *r2),
        (DimExpr::Min(l1, r1), DimExpr::Min(l2, r2)) => same_expr(*l1, *l2) && same_expr(*r1, *r2),
        (DimExpr::Max(l1, r1), DimExpr::Max(l2, r2)) => same_expr(*l1, *l2) && same_expr(*r1, *r2),
        (DimExpr::Unknown, DimExpr::Unknown) => true,
        _ => false,
    }
}

/// Expressions that are the same evaluate the same.
pub proof fn lemma_same_expr_same_value(
    a: DimExpr,
    b: DimExpr,
    lookup: spec_fn(u32) -> Option<usize>,
)
    requires
        same_expr(a, b),
    ensures
        spec_eval(a, lookup) == spec_eval(b, lookup),
    decreases a,
{
    match (a, b) {
        (DimExpr::NamedExpr { expr: e1, .. }, DimExpr::NamedExpr { expr: e2, .. }) => {
            lemma_same_expr_same_value(*e1, *e2, lookup);
        },
        (DimExpr::Add(l1, r1), DimExpr::Add(l2, r2)) => {
            lemma_same_expr_same_value(*l1, *l2, lookup);
            lemma_same_expr_same_value(*r1, *r2, lookup);
        },
        (DimExpr::Sub(l1, r1), DimExpr::Sub(l2, r2)) => {
            lemma_same_expr_same_value(*l1, *l2, lookup);
            lemma_same_expr_same_value(*r1, *r2, lookup);
        },
        (DimExpr::Mul(l1, r1), DimExpr::Mul(l2, r2)) => {
            lemma_same_expr_same_value(*l1, *l2, lookup);
            lemma_same_expr_same_value(*r1, *r2, lookup);
        },
        (DimExpr::ExactDiv(l1, r1), DimExpr::ExactDiv(l2, r2)) => {
            lemma_same_expr_same_value(*l1, *l2, lookup);
            lemma_same_expr_same_value(*r1, *r2, lookup);
        },
        (DimExpr::Broadcast(l1, r1), DimExpr::Broadcast(l2, r2)) => {
            lemma_same_expr_same_value(*l1, *l2, lookup);
            lemma_same_expr_same_value(*r1, *r2, lookup);
        },
        (DimExpr::Min(l1, r1), DimExpr::Min(l2, r2)) => {
            lemma_same_expr_same_value(*l1, *l2, lookup);
            lemma_same_expr_same_value(*r1, *r2, lookup);
        },
        (DimExpr::Max(l1, r1), DimExpr::Max(l2, r2)) => {
            lemma_same_expr_same_value(*l1, *l2, lookup);
            lemma_same_expr_same_value(*r1, *r2, lookup);
        },
        _ => {},
    }
}

/// Structural equality of two expressions.
pub fn same_expr_exec(a: &DimExpr, b: &DimExpr) -> (r: bool)
    ensures
        r == same_expr(*a, *b),
    decreases a,
{
    match (a, b) {
        (DimExpr::Const(x), DimExpr::Const(y)) => *x == *y,
        (DimExpr::Fresh(x), DimExpr::Fresh(y)) => *x == *y,
        (
            DimExpr::NamedFresh { source: s1, name: n1, identity: i1 },
            DimExpr::NamedFresh { source: s2, name: n2, identity: i2 },
        ) => *s1 == *s2 && *n1 == *n2 && *i1 == *i2,
        (DimExpr::Symbol(x), DimExpr::Symbol(y)) => x.0 == y.0,
        (
            DimExpr::NamedSymbol { id: d1, name: n1, identity: i1 },
            DimExpr::NamedSymbol { id: d2, name: n2, identity: i2 },
        ) => d1.0 == d2.0 && *n1 == *n2 && *i1 == *i2,
        (
            DimExpr::NamedExpr { expr: e1, id: d1, name: n1, identity: i1 },
            DimExpr::NamedExpr { expr: e2, id: d2, name: n2, identity: i2 },
        ) => same_expr_exec(e1, e2) && d1.0 == d2.0 && *n1 == *n2 && *i1 == *i2,
        (DimExpr::Add(l1, r1), DimExpr::Add(l2, r2)) => same_expr_exec(l1, l2) && same_expr_exec(
            r1,
            r2,
        ),
        (DimExpr::Sub(l1, r1), DimExpr::Sub(l2, r2)) => same_expr_exec(l1, l2) && same_expr_exec(
            r1,
            r2,
        ),
        (DimExpr::Mul(l1, r1), DimExpr::Mul(l2, r2)) => same_expr_exec(l1, l2) && same_expr_exec(
            r1,
            r2,
        ),
        (DimExpr::ExactDiv(l1, r1), DimExpr::ExactDiv(l2, r2)) => same_expr_exec(l1, l2)
            && same_expr_exec(r1, r2),
        (DimExpr::Broadcast(l1, r1), DimExpr::Broadcast(l2, r2)) => same_expr_exec(l1, l2)
            && same_expr_exec(r1, r2),
        (DimExpr::Min(l1, r1), DimExpr::Min(l2, r2)) => same_expr_exec(l1, l2) && same_expr_exec(
            r1,
            r2,
        ),
        (DimExpr::Max(l1, r1), DimExpr::Max(l2, r2)) => same_expr_exec(l1, l2) && same_expr_exec(
            r1,
            r2,
        ),
        (DimExpr::Unknown, DimExpr::Unknown) => true,
        _ => false,
    }
}

// --- simplification ---------------------------------------------------------

/// Whether `e` is the constant `v`.
pub open spec fn is_const(e: DimExpr, v: usize) -> bool {
    e matches DimExpr::Const(x) && x == v
}

/// One rewrite step on a sum.
pub open spec fn simplify_add_spec(l: DimExpr, r: DimExpr) -> DimExpr {
    match (l, r) {
        (DimExpr::Const(a), DimExpr::Const(b)) => if a + b <= usize::MAX {
            DimExpr::Const((a + b) as usize)
        } else {
            DimExpr::Unknown
        },
        _ => if is_const(l, 0) {
            r
        } else if is_const(r, 0) {
            l
        } else {
            DimExpr::Add(Box::new(l), Box::new(r))
        },
    }
}

/// One rewrite step on a product.
pub open spec fn simplify_mul_spec(l: DimExpr, r: DimExpr) -> DimExpr {
    match (l, r) {
        (DimExpr::Const(a), DimExpr::Const(b)) => if a * b <= usize::MAX {
            DimExpr::Const((a * b) as usize)
        } else {
            DimExpr::Unknown
        },
        _ => if is_const(l, 0) || is_const(r, 0) {
            DimExpr::Const(0)
        } else if is_const(l, 1) {
            r
        } else if is_const(r, 1) {
            l
        } else {
            DimExpr::Mul(Box::new(l), Box::new(r))
        },
    }
}

/// One rewrite step on a difference.
pub open spec fn simplify_sub_spec(l: DimExpr, r: DimExpr) -> DimExpr {
    match (l, r) {
        (DimExpr::Const(a), DimExpr::Const(b)) => if a >= b {
            DimExpr::Const((a - b) as usize)
        } else {
            DimExpr::Unknown
        },
        _ => if is_const(r, 0) {
            l
        } else {
            DimExpr::Sub(Box::new(l), Box::new(r))
        },
    }
}

/// One rewrite step on an exact division.
pub open spec fn simplify_div_spec(l: DimExpr, r: DimExpr) -> DimExpr {
    match (l, r) {
        (DimExpr::Const(a), DimExpr::Const(b)) => if b != 0 {
            if a % b == 0 {
                DimExpr::Const((a / b) as usize)
            } else {
                DimExpr::Unknown
            }
        } else {
            DimExpr::ExactDiv(Box::new(l), Box::new(r))
        },
        _ => DimExpr::ExactDiv(Box::new(l), Box::new(r)),
    }
}

/// One rewrite step on a broadcast.
pub open spec fn simplify_broadcast_spec(l: DimExpr, r: DimExpr) -> DimExpr {
    if is_const(l, 1) {
        r
    } else if is_const(r, 1) {
        l
    } else {
        match (l, r) {
            (DimExpr::Const(a), DimExpr::Const(b)) => if a == b {
                DimExpr::Const(a)
            } else {
                DimExpr::Broadcast(Box::new(l), Box::new(r))
            },
            _ => DimExpr::Broadcast(Box::new(l), Box::new(r)),
        }
    }
}

/// One rewrite step on a minimum.
pub open spec fn simplify_min_spec(l: DimExpr, r: DimExpr) -> DimExpr {
    match (l, r) {
        (DimExpr::Const(a), DimExpr::Const(b)) => DimExpr::Const(if a <= b { a } else { b }),
        _ => if same_expr(l, r) {
            l
        } else {
            DimExpr::Min(Box::new(l), Box::new(r))
        },
    }
}

/// One rewrite step on a maximum.
pub open spec fn simplify_max_spec(l: DimExpr, r: DimExpr) -> DimExpr {
    match (l, r) {
        (DimExpr::Const(a), DimExpr::Const(b)) => DimExpr::Const(if a >= b { a } else { b }),
        _ => if same_expr(l, r) {
            l
        } else {
            DimExpr::Max(Box::new(l), Box::new(r))
        },
    }
}

/// One rewrite at the root of an expression whose operands are already
/// simplified: fold constants, drop identities.
pub open spec fn rewrite_root(e: DimExpr) -> DimExpr {
    match e {
        DimExpr::Add(l, r) => simplify_add_spec(*l, *r),
        DimExpr::Mul(l, r) => simplify_mul_spec(*l, *r),
        DimExpr::Sub(l, r) => simplify_sub_spec(*l, *r),
        DimExpr::ExactDiv(l, r) => simplify_div_spec(*l, *r),
        DimExpr::Broadcast(l, r) => simplify_broadcast_spec(*l, *r),
        DimExpr::Min(l, r) => simplify_min_spec(*l, *r),
        DimExpr::Max(l, r) => simplify_max_spec(*l, *r),
        other => other,
    }
}

/// The canonical form, built bottom-up: operands are simplified first, then
/// the root is rewritten; a named alias keeps its name over its simplified
/// expression.
pub open spec fn spec_simplify(e: DimExpr) -> DimExpr
    decreases e,
{
    match e {
        DimExpr::NamedExpr { expr, id, name, identity } => DimExpr::NamedExpr {
            expr: Box::new(spec_simplify(*expr)),
            id,
            name,
            identity,
        },
        DimExpr::Add(l, r) => simplify_add_spec(spec_simplify(*l), spec_simplify(*r)),
        DimExpr::Mul(l, r) => simplify_mul_spec(spec_simplify(*l), spec_simplify(*r)),
        DimExpr::Sub(l, r) => simplify_sub_spec(spec_simplify(*l), spec_simplify(*r)),
        DimExpr::ExactDiv(l, r) => simplify_div_spec(spec_simplify(*l), spec_simplify(*r)),
        DimExpr::Broadcast(l, r) => simplify_broadcast_spec(spec_simplify(*l), spec_simplify(*r)),
        DimExpr::Min(l, r) => simplify_min_spec(spec_simplify(*l), spec_simplify(*r)),
        DimExpr::Max(l, r) => simplify_max_spec(spec_simplify(*l), spec_simplify(*r)),
        other => other,
    }
}

fn const_value(e: &DimExpr) -> (r: Option<usize>)
    ensures
        r == (match *e {
            DimExpr::Const(v) => Some(v),
            _ => None,
        }),
{
    match e {
        DimExpr::Const(v) => Some(*v),
        _ => None,
    }
}

fn simplify_add(l: DimExpr, r: DimExpr) -> (out: DimExpr)
    ensures
        out == simplify_add_spec(l, r),
{
    match (const_value(&l), const_value(&r)) {
        (Some(a), Some(b)) => match a.checked_add(b) {
            Some(v) => DimExpr::Const(v),
            None => DimExpr::Unknown,
        },
        (Some(0), _) => r,
        (_, Some(0)) => l,
        _ => DimExpr::Add(Box::new(l), Box::new(r)),
    }
}

fn simplify_mul(l: DimExpr, r: DimExpr) -> (out: DimExpr)
    ensures
        out == simplify_mul_spec(l, r),
{
    match (const_value(&l), const_value(&r)) {
        (Some(a), Some(b)) => match a.checked_mul(b) {
            Some(v) => DimExpr::Const(v),
            None => DimExpr::Unknown,
        },
        (Some(0), _) | (_, Some(0)) => DimExpr::Const(0),
        (Some(1), _) => r,
        (_, Some(1)) => l,
        _ => DimExpr::Mul(Box::new(l), Box::new(r)),
    }
}

fn simplify_sub(l: DimExpr, r: DimExpr) -> (out: DimExpr)
    ensures
        out == simplify_sub_spec(l, r),
{
    match (const_value(&l), const_value(&r)) {
        (Some(a), Some(b)) => match a.checked_sub(b) {
            Some(v) => DimExpr::Const(v),
            None => DimExpr::Unknown,
        },
        (_, Some(0)) => l,
        _ => DimExpr::Sub(Box::new(l), Box::new(r)),
    }
}

fn simplify_div(l: DimExpr, r: DimExpr) -> (out: DimExpr)
    ensures
        out == simplify_div_spec(l, r),
{
    match (const_value(&l), const_value(&r)) {
        (Some(a), Some(b)) => if b != 0 {
            if a % b == 0 {
                DimExpr::Const(a / b)
            } else {
                DimExpr::Unknown
            }
        } else {
            DimExpr::ExactDiv(Box::new(l), Box::new(r))
        },
        _ => DimExpr::ExactDiv(Box::new(l), Box::new(r)),
    }
}

fn simplify_broadcast(l: DimExpr, r: DimExpr) -> (out: DimExpr)
    ensures
        out == simplify_broadcast_spec(l, r),
{
    match (const_value(&l), const_value(&r)) {
        (Some(1), _) => r,
        (_, Some(1)) => l,
        (Some(a), Some(b)) => if a == b {
            DimExpr::Const(a)
        } else {
            DimExpr::Broadcast(Box::new(l), Box::new(r))
        },
        _ => DimExpr::Broadcast(Box::new(l), Box::new(r)),
    }
}

fn simplify_min(l: DimExpr, r: DimExpr) -> (out: DimExpr)
    ensures
        out == simplify_min_spec(l, r),
{
    match (const_value(&l), const_value(&r)) {
        (Some(a), Some(b)) => DimExpr::Const(if a <= b { a } else { b }),
        _ => if same_expr_exec(&l, &r) {
            l
        } else {
            DimExpr::Min(Box::new(l), Box::new(r))
        },
    }
}

fn simplify_max(l: DimExpr, r: DimExpr) -> (out: DimExpr)
    ensures
        out == simplify_max_spec(l, r),
{
    match (const_value(&l), const_value(&r)) {
        (Some(a), Some(b)) => DimExpr::Const(if a >= b { a } else { b }),
        _ => if same_expr_exec(&l, &r) {
            l
        } else {
            DimExpr::Max(Box::new(l), Box::new(r))
        },
    }
}

impl DimExpr {
    /// Algebraic simplification to a canonical form: operands first, then
    /// the root.
    pub fn simplify(self) -> (r: DimExpr)
        ensures
            r == spec_simplify(self),
        decreases self,
    {
        match self {
            DimExpr::NamedExpr { expr, id, name, identity } => DimExpr::NamedExpr {
                expr: Box::new((*expr).simplify()),
                id,
                name,
                identity,
            },
            DimExpr::Add(l, r) => simplify_add((*l).simplify(), (*r).simplify()),
            DimExpr::Mul(l, r) => simplify_mul((*l).simplify(), (*r).simplify()),
            DimExpr::Sub(l, r) => simplify_sub((*l).simplify(), (*r).simplify()),
            DimExpr::ExactDiv(l, r) => simplify_div((*l).simplify(), (*r).simplify()),
            DimExpr::Broadcast(l, r) => simplify_broadcast((*l).simplify(), (*r).simplify()),
            DimExpr::Min(l, r) => simplify_min((*l).simplify(), (*r).simplify()),
            DimExpr::Max(l, r) => simplify_max((*l).simplify(), (*r).simplify()),
            other => other,
        }
    }
}

/// A root rewrite never changes the value of an expression that has one.
proof fn lemma_root_rewrite_preserves_value(e: DimExpr, lookup: spec_fn(u32) -> Option<usize>)
    requires
        spec_eval(e, lookup) is Some,
    ensures
        spec_eval(rewrite_root(e), lookup) == spec_eval(e, lookup),
{
    match e {
        DimExpr::Min(l, r) => {
            if same_expr(*l, *r) {
                lemma_same_expr_same_value(*l, *r, lookup);
            }
        },
        DimExpr::Max(l, r) => {
            if same_expr(*l, *r) {
                lemma_same_expr_same_value(*l, *r, lookup);
            }
        },
        DimExpr::Mul(l, r) => {
            let a = spec_eval(*l, lookup)->0;
            let b = spec_eval(*r, lookup)->0;
            assert(0 * b == 0 && a * 0 == 0 && 1 * b == b && a * 1 == a) by (nonlinear_arith);
            assert(spec_eval(rewrite_root(e), lookup) == spec_eval(e, lookup));
        },
        DimExpr::Add(l, r) => {
            let a = spec_eval(*l, lookup)->0;
            let b = spec_eval(*r, lookup)->0;
            assert(((0 + b) as usize) == b && ((a + 0) as usize) == a);
            if is_const(*l, 0) {
                assert(spec_eval(*l, lookup) == Some(0usize));
            }
            if is_const(*r, 0) {
                assert(spec_eval(*r, lookup) == Some(0usize));
            }
        },
        DimExpr::Sub(l, r) => {
            let a = spec_eval(*l, lookup)->0;
            assert(((a - 0) as usize) == a);
            if is_const(*r, 0) {
                assert(spec_eval(*r, lookup) == Some(0usize));
            }
        },
        DimExpr::ExactDiv(l, r) => {
            match (*l, *r) {
                (DimExpr::Const(a), DimExpr::Const(b)) => {
                    assert(spec_eval(*l, lookup) == Some(a));
                    assert(spec_eval(*r, lookup) == Some(b));
                },
                _ => {},
            }
        },
        DimExpr::Broadcast(l, r) => {
            if is_const(*l, 1) {
                assert(spec_eval(*l, lookup) == Some(1usize));
            }
            if is_const(*r, 1) {
                assert(spec_eval(*r, lookup) == Some(1usize));
            }
            match (*l, *r) {
                (DimExpr::Const(a), DimExpr::Const(b)) => {
                    assert(spec_eval(*l, lookup) == Some(a));
                    assert(spec_eval(*r, lookup) == Some(b));
                },
                _ => {},
            }
        },
        _ => {},
    }
}

/// Simplification never changes the value of an expression that has one.
pub proof fn lemma_simplify_preserves_value(e: DimExpr, lookup: spec_fn(u32) -> Option<usize>)
    requires
        spec_eval(e, lookup) is Some,
    ensures
        spec_eval(spec_simplify(e), lookup) == spec_eval(e, lookup),
    decreases e,
{
    match e {
        DimExpr::NamedExpr { expr, id, .. } => {
            if lookup(id.0) is None {
                lemma_simplify_preserves_value(*expr, lookup);
            }
        },
        DimExpr::Add(l, r) => {
            lemma_simplify_preserves_value(*l, lookup);
            lemma_simplify_preserves_value(*r, lookup);
            lemma_root_rewrite_preserves_value(
                DimExpr::Add(Box::new(spec_simplify(*l)), Box::new(spec_simplify(*r))),
                lookup,
            );
        },
        DimExpr::Mul(l, r) => {
            lemma_simplify_preserves_value(*l, lookup);
            lemma_simplify_preserves_value(*r, lookup);
            lemma_root_rewrite_preserves_value(
                DimExpr::Mul(Box::new(spec_simplify(*l)), Box::new(spec_simplify(*r))),
                lookup,
            );
        },
        DimExpr::Sub(l, r) => {
            lemma_simplify_preserves_value(*l, lookup);
            lemma_simplify_preserves_value(*r, lookup);
            lemma_root_rewrite_preserves_value(
                DimExpr::Sub(Box::new(spec_simplify(*l)), Box::new(spec_simplify(*r))),
                lookup,
            );
        },
        DimExpr::ExactDiv(l, r) => {
            lemma_simplify_preserves_value(*l, lookup);
            lemma_simplify_preserves_value(*r, lookup);
            lemma_root_rewrite_preserves_value(
                DimExpr::ExactDiv(Box::new(spec_simplify(*l)), Box::new(spec_simplify(*r))),
                lookup,
            );
        },
        DimExpr::Broadcast(l, r) => {
            lemma_simplify_preserves_value(*l, lookup);
            lemma_simplify_preserves_value(*r, lookup);
            lemma_root_rewrite_preserves_value(
                DimExpr::Broadcast(Box::new(spec_simplify(*l)), Box::new(spec_simplify(*r))),
                lookup,
            );
        },
        DimExpr::Min(l, r) => {
            lemma_simplify_preserves_value(*l, lookup);
            lemma_simplify_preserves_value(*r, lookup);
            lemma_root_rewrite_preserves_value(
                DimExpr::Min(Box::new(spec_simplify(*l)), Box::new(spec_simplify(*r))),
                lookup,
            );
        },
        DimExpr::Max(l, r) => {
            lemma_simplify_preserves_value(*l, lookup);
            lemma_simplify_preserves_value(*r, lookup);
            lemma_root_rewrite_preserves_value(
                DimExpr::Max(Box::new(spec_simplify(*l)), Box::new(spec_simplify(*r))),
                lookup,
            );
        },
        _ => {},
    }
}

/// Simplification reaches a canonical form: simplifying a simplified
/// expression changes nothing.
pub proof fn lemma_simplify_idempotent(e: DimExpr)
    ensures
        spec_simplify(spec_simplify(e)) == spec_simplify(e),
    decreases e,
{
    match e {
        DimExpr::NamedExpr { expr, .. } => {
            lemma_simplify_idempotent(*expr);
        },
        DimExpr::Add(l, r) => {
            lemma_simplify_idempotent(*l);
            lemma_simplify_idempotent(*r);
        },
        DimExpr::Mul(l, r) => {
            lemma_simplify_idempotent(*l);
            lemma_simplify_idempotent(*r);
        },
        DimExpr::Sub(l, r) => {
            lemma_simplify_idempotent(*l);
            lemma_simplify_idempotent(*r);
        },
        DimExpr::ExactDiv(l, r) => {
            lemma_simplify_idempotent(*l);
            lemma_simplify_idempotent(*r);
        },
        DimExpr::Broadcast(l, r) => {
            lemma_simplify_idempotent(*l);
            lemma_simplify_idempotent(*r);
        },
        DimExpr::Min(l, r) => {
            lemma_simplify_idempotent(*l);
            lemma_simplify_idempotent(*r);
        },
        DimExpr::Max(l, r) => {
            lemma_simplify_idempotent(*l);
            lemma_simplify_idempotent(*r);
        },
        _ => {},
    }
}

// --- evaluation -----------------------------------------------------------------

fn find_binding(symbols: &[(SymbolId, usize)], id: u32) -> (r: Option<usize>)
    ensures
        r == first_binding(symbols@, id),
{
    let mut i: usize = 0;
    while i < symbols.len()
        invariant
            i <= symbols@.len(),
            first_binding(symbols@, id) == first_binding_from(symbols@, id, i as int),
        decreases symbols.len() - i,
    {
        if symbols[i].0.0 == id {
            return Some(symbols[i].1);
        }
        i = i + 1;
    }
    None
}

fn combine_add(a: Option<usize>, b: Option<usize>) -> (r: Option<usize>)
    ensures
        r == opt_add(a, b),
{
    match (a, b) {
        (Some(x), Some(y)) => x.checked_add(y),
        _ => None,
    }
}

fn combine_sub(a: Option<usize>, b: Option<usize>) -> (r: Option<usize>)
    ensures
        r == opt_sub(a, b),
{
    match (a, b) {
        (Some(x), Some(y)) => x.checked_sub(y),
        _ => None,
    }
}

fn combine_mul(a: Option<usize>, b: Option<usize>) -> (r: Option<usize>)
    ensures
        r == opt_mul(a, b),
{
    match (a, b) {
        (Some(x), Some(y)) => x.checked_mul(y),
        _ => None,
    }
}

fn combine_exact_div(a: Option<usize>, b: Option<usize>) -> (r: Option<usize>)
    ensures
        r == opt_exact_div(a, b),
{
    match (a, b) {
        (Some(x), Some(y)) => if y != 0 && x % y == 0 {
            Some(x / y)
        } else {
            None
        },
        _ => None,
    }
}

fn combine_broadcast(a: Option<usize>, b: Option<usize>) -> (r: Option<usize>)
    ensures
        r == opt_broadcast(a, b),
{
    match (a, b) {
        (Some(x), Some(y)) => if x == y {
            Some(x)
        } else if x == 1 {
            Some(y)
        } else if y == 1 {
            Some(x)
        } else {
            None
        },
        _ => None,
    }
}

fn combine_min(a: Option<usize>, b: Option<usize>) -> (r: Option<usize>)
    ensures
        r == opt_min(a, b),
{
    match (a, b) {
        (Some(x), Some(y)) => Some(if x <= y { x } else { y }),
        _ => None,
    }
}

fn combine_max(a: Option<usize>, b: Option<usize>) -> (r: Option<usize>)
    ensures
        r == opt_max(a, b),
{
    match (a, b) {
        (Some(x), Some(y)) => Some(if x >= y { x } else { y }),
        _ => None,
    }
}

impl DimExpr {
    /// Evaluates to a concrete extent given bindings; the first binding of a
    /// symbol wins.
    pub fn evaluate(&self, symbols: &[(SymbolId, usize)]) -> (r: Option<usize>)
        ensures
            r == spec_eval(*self, list_lookup(symbols@)),
        decreases self,
    {
        match self {
            DimExpr::Const(value) => Some(*value),
            DimExpr::Symbol(id) => find_binding(symbols, id.0),
            DimExpr::NamedSymbol { id, .. } => find_binding(symbols, id.0),
            DimExpr::Fresh(_) => None,
            DimExpr::NamedFresh { .. } => None,
            DimExpr::NamedExpr { expr, id, .. } => match find_binding(symbols, id.0) {
                Some(value) => Some(value),
                None => expr.evaluate(symbols),
            },
            DimExpr::Add(l, r) => combine_add(l.evaluate(symbols), r.evaluate(symbols)),
            DimExpr::Sub(l, r) => combine_sub(l.evaluate(symbols), r.evaluate(symbols)),
            DimExpr::Mul(l, r) => combine_mul(l.evaluate(symbols), r.evaluate(symbols)),
            DimExpr::ExactDiv(l, r) => combine_exact_div(l.evaluate(symbols), r.evaluate(symbols)),
            DimExpr::Broadcast(l, r) => combine_broadcast(l.evaluate(symbols), r.evaluate(symbols)),
            DimExpr::Min(l, r) => combine_min(l.evaluate(symbols), r.evaluate(symbols)),
            DimExpr::Max(l, r) => combine_max(l.evaluate(symbols), r.evaluate(symbols)),
            DimExpr::Unknown => None,
        }
    }

    /// Evaluates against the bindings of an environment.
    pub fn evaluate_env(&self, environment: &SymbolEnvironment) -> (r: Option<usize>)
        ensures
            r == spec_eval(*self, map_lookup(environment@)),
        decreases self,
    {
        match self {
            DimExpr::Const(value) => Some(*value),
            DimExpr::Symbol(id) => environment.get(*id),
            DimExpr::NamedSymbol { id, .. } => environment.get(*id),
            DimExpr::Fresh(_) => None,
            DimExpr::NamedFresh { .. } => None,
            DimExpr::NamedExpr { expr, id, .. } => match environment.get(*id) {
                Some(value) => Some(value),
                None => expr.evaluate_env(environment),
            },
            DimExpr::Add(l, r) => combine_add(
                l.evaluate_env(environment),
                r.evaluate_env(environment),
            ),
            DimExpr::Sub(l, r) => combine_sub(
                l.evaluate_env(environment),
                r.evaluate_env(environment),
            ),
            DimExpr::Mul(l, r) => combine_mul(
                l.evaluate_env(environment),
                r.evaluate_env(environment),
            ),
            DimExpr::ExactDiv(l, r) => combine_exact_div(
                l.evaluate_env(environment),
                r.evaluate_env(environment),
            ),
            DimExpr::Broadcast(l, r) => combine_broadcast(
                l.evaluate_env(environment),
                r.evaluate_env(environment),
            ),
            DimExpr::Min(l, r) => combine_min(
                l.evaluate_env(environment),
                r.evaluate_env(environment),
            ),
            DimExpr::Max(l, r) => combine_max(
                l.evaluate_env(environment),
                r.evaluate_env(environment),
            ),
            DimExpr::Unknown => None,
        }
    }
}

// --- environments ------------------------------------------------------------------

/// Environment binding symbols to concrete extents.
#[derive(Debug, Clone, PartialEq, Eq)]
pub struct SymbolEnvironment {
    bindings: BTreeMap<u32, usize>,
}

impl View for SymbolEnvironment {
    type V = Map<u32, usize>;

    closed spec fn view(&self) -> Map<u32, usize> {
        self.bindings@
    }
}

impl Default for SymbolEnvironment {
    fn default() -> (r: SymbolEnvironment)
        ensures
            r@ == Map::<u32, usize>::empty(),
    {
        SymbolEnvironment::new()
    }
}

/// The refusal of rebinding `id`, bound to `previous`, to `value`.
pub open spec fn rebound_text(id: SymbolId, previous: usize, value: usize) -> Seq<char> {
    "symbol "@ + symbol_id_text(id) + " was "@ + decimal(previous as nat) + ", got "@ + decimal(
        value as nat,
    )
}

/// The refusal of an expression that does not evaluate.
pub open spec fn unresolved_text(expr: DimExpr) -> Seq<char> {
    "symbolic dimension "@ + dim_expr_text(expr) + " remains unresolved"@
}

/// The refusal of an expression evaluating to `value` where `actual` was
/// found.
pub open spec fn mismatch_text(expr: DimExpr, value: usize, actual: usize) -> Seq<char> {
    "expected expression "@ + dim_expr_text(expr) + " = "@ + decimal(value as nat) + ", got "@
        + decimal(actual as nat)
}

/// The refusal of constraint number `index`, which does not hold.
pub open spec fn constraint_failed_text(index: usize, c: Constraint) -> Seq<char> {
    "shape constraint "@ + decimal(index as nat) + " failed: "@ + constraint_text(c)
}

/// The refusal of constraint number `index`, which cannot be evaluated.
pub open spec fn constraint_unresolved_text(index: usize, c: Constraint) -> Seq<char> {
    "shape constraint "@ + decimal(index as nat) + " remains unresolved: "@ + constraint_text(c)
}

fn rebound_message(id: SymbolId, previous: usize, value: usize) -> (r: String)
    ensures
        r@ == rebound_text(id, previous, value),
{
    let mut m = String::from_str("symbol ");
    m.append(symbol_id_string(id).as_str());
    m.append(" was ");
    m.append(usize_text(previous).as_str());
    m.append(", got ");
    m.append(usize_text(value).as_str());
    m
}

fn unresolved_message(expr: &DimExpr) -> (r: String)
    ensures
        r@ == unresolved_text(*expr),
{
    let mut m = String::from_str("symbolic dimension ");
    m.append(dim_expr_string(expr).as_str());
    m.append(" remains unresolved");
    m
}

fn mismatch_message(expr: &DimExpr, value: usize, actual: usize) -> (r: String)
    ensures
        r@ == mismatch_text(*expr, value, actual),
{
    let mut m = String::from_str("expected expression ");
    m.append(dim_expr_string(expr).as_str());
    m.append(" = ");
    m.append(usize_text(value).as_str());
    m.append(", got ");
    m.append(usize_text(actual).as_str());
    m
}

fn constraint_failed_message(index: usize, constraint: &Constraint) -> (r: String)
    ensures
        r@ == constraint_failed_text(index, *constraint),
{
    let mut m = String::from_str("shape constraint ");
    m.append(usize_text(index).as_str());
    m.append(" failed: ");
    m.append(constraint_string(constraint).as_str());
    m
}

fn constraint_unresolved_message(index: usize, constraint: &Constraint) -> (r: String)
    ensures
        r@ == constraint_unresolved_text(index, *constraint),
{
    let mut m = String::from_str("shape constraint ");
    m.append(usize_text(index).as_str());
    m.append(" remains unresolved: ");
    m.append(constraint_string(constraint).as_str());
    m
}

/// The refusal of the first constraint that does not hold under `lookup`:
/// its position, and whether it fails or cannot be evaluated.
pub open spec fn constraints_refusal(
    constraints: Seq<Constraint>,
    lookup: spec_fn(u32) -> Option<usize>,
) -> Seq<char> {
    let k = first_unsatisfied(constraints, lookup, 0);
    if constraint_check(constraints[k], lookup) == Some(false) {
        constraint_failed_text(k as usize, constraints[k])
    } else {
        constraint_unresolved_text(k as usize, constraints[k])
    }
}

/// The position of the first constraint at or after `i` that does not
/// hold under `lookup` (fails or cannot be evaluated), or the count when
/// all hold.
pub open spec fn first_unsatisfied(
    constraints: Seq<Constraint>,
    lookup: spec_fn(u32) -> Option<usize>,
    i: int,
) -> int
    decreases constraints.len() - i,
{
    if i < 0 || i >= constraints.len() {
        constraints.len() as int
    } else if constraint_check(constraints[i], lookup) != Some(true) {
        i
    } else {
        first_unsatisfied(constraints, lookup, i + 1)
    }
}

impl SymbolEnvironment {
    /// An environment with no bindings.
    pub fn new() -> (r: SymbolEnvironment)
        ensures
            r@ == Map::<u32, usize>::empty(),
    {
        SymbolEnvironment { bindings: BTreeMap::new() }
    }

    /// Binds one symbol. The new value is recorded in every case; binding a
    /// symbol to a different value than before is reported as an error.
    pub fn bind(&mut self, id: SymbolId, value: usize) -> (r: Result<(), String>)
        ensures
            final(self)@ == old(self)@.insert(id.0, value),
            r is Err <==> (old(self)@.contains_key(id.0) && old(self)@[id.0] != value),
            r matches Err(m) ==> m@ == rebound_text(id, old(self)@[id.0], value),
    {
        match self.bindings.insert(id.0, value) {
            Some(previous) => {
                if previous != value {
                    return Err(rebound_message(id, previous, value));
                }
                Ok(())
            },
            None => Ok(()),
        }
    }

    /// Bound value of one symbol, when present.
    pub fn get(&self, id: SymbolId) -> (r: Option<usize>)
        ensures
            r == map_lookup(self@)(id.0),
    {
        match self.bindings.get(&id.0) {
            Some(value) => Some(*value),
            None => None,
        }
    }

    /// Whether the symbol has a binding.
    pub fn is_bound(&self, id: SymbolId) -> (r: bool)
        ensures
            r == self@.contains_key(id.0),
    {
        self.bindings.contains_key(&id.0)
    }

    /// Checks one expression against the actual extent.
    pub fn validate_expr(&self, expr: &DimExpr, actual: usize) -> (r: Result<(), String>)
        ensures
            r is Ok <==> spec_eval(*expr, map_lookup(self@)) == Some(actual),
            r matches Err(m) ==> m@ == match spec_eval(*expr, map_lookup(self@)) {
                None => unresolved_text(*expr),
                Some(value) => mismatch_text(*expr, value, actual),
            },
    {
        match expr.evaluate_env(self) {
            None => Err(unresolved_message(expr)),
            Some(value) => if value == actual {
                Ok(())
            } else {
                Err(mismatch_message(expr, value, actual))
            },
        }
    }

    /// Checks every constraint in order; the first one that fails or cannot
    /// be resolved is reported.
    pub fn validate_constraints(&self, constraints: &[Constraint]) -> (r: Result<(), String>)
        ensures
            r is Ok <==> forall|i: int|
                0 <= i < constraints@.len() ==> constraint_check(
                    #[trigger] constraints@[i],
                    map_lookup(self@),
                ) == Some(true),
            r matches Err(m) ==> first_unsatisfied(constraints@, map_lookup(self@), 0)
                < constraints@.len() && m@ == constraints_refusal(constraints@, map_lookup(self@)),
    {
        let mut index: usize = 0;
        while index < constraints.len()
            invariant
                index <= constraints@.len(),
                first_unsatisfied(constraints@, map_lookup(self@), 0) == first_unsatisfied(
                    constraints@,
                    map_lookup(self@),
                    index as int,
                ),
                forall|i: int|
                    0 <= i < index ==> constraint_check(
                        #[trigger] constraints@[i],
                        map_lookup(self@),
                    ) == Some(true),
            decreases constraints.len() - index,
        {
            let constraint = &constraints[index];
            match constraint.check(self) {
                Some(true) => {},
                Some(false) => {
                    return Err(constraint_failed_message(index, constraint));
                },
                None => {
                    return Err(constraint_unresolved_message(index, constraint));
                },
            }
            index = index + 1;
        }
        Ok(())
    }
}

// --- constraints and shapes ------------------------------------------------------

/// Symbolic rank: static or fully dynamic.
#[derive(Debug, Clone, Copy, PartialEq, Eq, Structural, Hash)]
pub enum RankExpr {
    /// Extent fixed at capture time.
    Static(usize),
    /// Extent resolved only when data arrives.
    Dynamic,
}

/// Predicates binding symbolic extents at validation time.
#[derive(Debug, PartialEq, Eq, Hash)]
pub enum Constraint {
    /// Two expressions must evaluate equal.
    Equal {
        /// Left-hand expression.
        lhs: DimExpr,
        /// Right-hand expression.
        rhs: DimExpr,
    },
    /// Expression must be at least the bound.
    LowerBound {
        /// Expression being constrained.
        value: DimExpr,
        /// Bound it must respect.
        bound: usize,
    },
    /// Expression must not exceed the bound.
    UpperBound {
        /// Expression being constrained.
        value: DimExpr,
        /// Bound it must respect.
        bound: usize,
    },
    /// Expression must divide exactly.
    Divisible {
        /// Expression being constrained.
        value: DimExpr,
        /// Divisor that must divide exactly.
        divisor: usize,
    },
    /// Pair must combine under broadcasting.
    BroadcastCompatible {
        /// Left-hand expression.
        lhs: DimExpr,
        /// Right-hand expression.
        rhs: DimExpr,
    },
}

impl Clone for Constraint {
    fn clone(&self) -> (r: Constraint)
        ensures
            r == *self,
    {
        match self {
            Constraint::Equal { lhs, rhs } => Constraint::Equal { lhs: lhs.clone(), rhs: rhs.clone() },
            Constraint::LowerBound { value, bound } => Constraint::LowerBound {
                value: value.clone(),
                bound: *bound,
            },
            Constraint::UpperBound { value, bound } => Constraint::UpperBound {
                value: value.clone(),
                bound: *bound,
            },
            Constraint::Divisible { value, divisor } => Constraint::Divisible {
                value: value.clone(),
                divisor: *divisor,
            },
            Constraint::BroadcastCompatible { lhs, rhs } => Constraint::BroadcastCompatible {
                lhs: lhs.clone(),
                rhs: rhs.clone(),
            },
        }
    }
}

/// Whether a constraint holds: `None` when an expression it mentions is
/// unresolved.
pub open spec fn constraint_check(c: Constraint, lookup: spec_fn(u32) -> Option<usize>) -> Option<
    bool,
> {
    match c {
        Constraint::Equal { lhs, rhs } => match (spec_eval(lhs, lookup), spec_eval(rhs, lookup)) {
            (Some(l), Some(r)) => Some(l == r),
            _ => None,
        },
        Constraint::LowerBound { value, bound } => match spec_eval(value, lookup) {
            Some(v) => Some(v >= bound),
            None => None,
        },
        Constraint::UpperBound { value, bound } => match spec_eval(value, lookup) {
            Some(v) => Some(v <= bound),
            None => None,
        },
        Constraint::Divisible { value, divisor } => match spec_eval(value, lookup) {
            Some(v) => Some(divisor != 0 && v % divisor == 0),
            None => None,
        },
        Constraint::BroadcastCompatible { lhs, rhs } => match (
            spec_eval(lhs, lookup),
            spec_eval(rhs, lookup),
        ) {
            (Some(l), Some(r)) => Some(l == r || l == 1 || r == 1),
            _ => None,
        },
    }
}

impl Constraint {
    /// Builds an equality constraint.
    pub fn equal(lhs: DimExpr, rhs: DimExpr) -> (r: Constraint)
        ensures
            r == (Constraint::Equal { lhs, rhs }),
    {
        Constraint::Equal { lhs, rhs }
    }

    /// Builds a broadcast-compatibility constraint.
    pub fn broadcast(lhs: DimExpr, rhs: DimExpr) -> (r: Constraint)
        ensures
            r == (Constraint::BroadcastCompatible { lhs, rhs }),
    {
        Constraint::BroadcastCompatible { lhs, rhs }
    }

    /// Whether the constraint holds in `environment`.
    pub fn check(&self, environment: &SymbolEnvironment) -> (r: Option<bool>)
        ensures
            r == constraint_check(*self, map_lookup(environment@)),
    {
        match self {
            Constraint::Equal { lhs, rhs } => match (
                lhs.evaluate_env(environment),
                rhs.evaluate_env(environment),
            ) {
                (Some(l), Some(r)) => Some(l == r),
                _ => None,
            },
            Constraint::LowerBound { value, bound } => match value.evaluate_env(environment) {
                Some(v) => Some(v >= *bound),
                None => None,
            },
            Constraint::UpperBound { value, bound } => match value.evaluate_env(environment) {
                Some(v) => Some(v <= *bound),
                None => None,
            },
            Constraint::Divisible { value, divisor } => match value.evaluate_env(environment) {
                Some(v) => Some(*divisor != 0 && v % *divisor == 0),
                None => None,
            },
            Constraint::BroadcastCompatible { lhs, rhs } => match (
                lhs.evaluate_env(environment),
                rhs.evaluate_env(environment),
            ) {
                (Some(l), Some(r)) => Some(l == r || l == 1 || r == 1),
                _ => None,
            },
        }
    }
}

/// Broadcast compatibility is symmetric, and it agrees with elementwise
/// broadcasting: when both sides evaluate, the constraint holds exactly
/// when the two extents broadcast together as operands of one axis (they
/// are equal, or one of them is one); when a side does not evaluate, it
/// cannot be decided.
pub proof fn lemma_broadcast_constraint_is_the_broadcast_rule(
    lhs: DimExpr,
    rhs: DimExpr,
    lookup: spec_fn(u32) -> Option<usize>,
)
    ensures
        constraint_check(Constraint::BroadcastCompatible { lhs, rhs }, lookup) == constraint_check(
            Constraint::BroadcastCompatible { lhs: rhs, rhs: lhs },
            lookup,
        ),
        (spec_eval(lhs, lookup) is None || spec_eval(rhs, lookup) is None) ==> constraint_check(
            Constraint::BroadcastCompatible { lhs, rhs },
            lookup,
        ) is None,
        forall|l: usize, r: usize|
            spec_eval(lhs, lookup) == Some(l) && spec_eval(rhs, lookup) == Some(r) ==> {
                &&& constraint_check(Constraint::BroadcastCompatible { lhs, rhs }, lookup) is Some
                &&& (constraint_check(Constraint::BroadcastCompatible { lhs, rhs }, lookup)
                    == Some(true) <==> axis_compatible(seq![l], seq![r], 0))
                &&& (constraint_check(Constraint::BroadcastCompatible { lhs, rhs }, lookup)
                    == Some(true) <==> (l == r || l == 1 || r == 1))
            },
{
    assert forall|l: usize, r: usize|
        spec_eval(lhs, lookup) == Some(l) && spec_eval(rhs, lookup) == Some(r) implies (
        axis_compatible(seq![l], seq![r], 0) <==> (l == r || l == 1 || r == 1)) by {
        assert(broadcast_rank(seq![l], seq![r]) == 1);
        assert(aligned_extent(seq![l], 1, 0) == l);
        assert(aligned_extent(seq![r], 1, 0) == r);
    }
}

/// Symbolic shape: rank, dims, and constraints.
#[derive(Debug, Clone, PartialEq, Eq, Hash)]
pub struct ShapeExpr {
    /// Rank expression.
    pub rank: RankExpr,
    /// One expression per axis.
    pub dims: Vec<DimExpr>,
    /// Constraints binding symbols.
    pub constraints: Vec<Constraint>,
}

/// The effect of binding one axis: the environment afterwards and whether
/// the axis was accepted.
pub open spec fn bind_step(env: Map<u32, usize>, e: DimExpr, v: usize) -> (Map<u32, usize>, bool) {
    match e {
        DimExpr::Const(x) => (env, x == v),
        DimExpr::Symbol(id) => (env.insert(id.0, v), !env.contains_key(id.0) || env[id.0] == v),
        DimExpr::NamedSymbol { id, .. } => (
            env.insert(id.0, v),
            !env.contains_key(id.0) || env[id.0] == v,
        ),
        DimExpr::NamedExpr { id, .. } => (
            env.insert(id.0, v),
            !env.contains_key(id.0) || env[id.0] == v,
        ),
        DimExpr::Fresh(_) => (env, false),
        DimExpr::NamedFresh { .. } => (env, false),
        _ => (env, true),
    }
}

/// Binding axes `i..n` in order, stopping at the first refused axis.
pub open spec fn bind_pass(
    dims: Seq<DimExpr>,
    actual: Seq<usize>,
    env: Map<u32, usize>,
    i: int,
    n: int,
) -> (Map<u32, usize>, bool)
    decreases n - i,
{
    if i >= n || i < 0 {
        (env, true)
    } else {
        let (next, ok) = bind_step(env, dims[i], actual[i]);
        if !ok {
            (next, false)
        } else {
            bind_pass(dims, actual, next, i + 1, n)
        }
    }
}

/// Whether one axis agrees with the bound environment.
pub open spec fn check_step(env: Map<u32, usize>, e: DimExpr, v: usize) -> bool {
    match e {
        DimExpr::Const(x) => x == v,
        DimExpr::Symbol(_) => true,
        DimExpr::NamedSymbol { .. } => true,
        DimExpr::NamedExpr { expr, .. } => spec_eval(*expr, map_lookup(env)) == Some(v),
        DimExpr::Fresh(_) => false,
        DimExpr::NamedFresh { .. } => false,
        _ => spec_eval(e, map_lookup(env)) == Some(v),
    }
}

/// Whether every one of the first `n` axes agrees with the environment.
pub open spec fn check_pass(dims: Seq<DimExpr>, actual: Seq<usize>, env: Map<u32, usize>, n: int) -> bool {
    forall|i: int| 0 <= i < n ==> #[trigger] check_step(env, dims[i], actual[i])
}

/// Whether the static rank, if any, is the actual rank.
pub open spec fn rank_matches(rank: RankExpr, actual_len: nat) -> bool {
    match rank {
        RankExpr::Static(r) => r == actual_len,
        RankExpr::Dynamic => true,
    }
}

/// The number of axes that are compared: the shorter of the two lists.
pub open spec fn compared_axes(dims: Seq<DimExpr>, actual: Seq<usize>) -> int {
    if dims.len() <= actual.len() {
        dims.len() as int
    } else {
        actual.len() as int
    }
}

/// The environment and verdict of the binding pass over a shape.
pub open spec fn spec_bind(shape: ShapeExpr, actual: Seq<usize>, env: Map<u32, usize>) -> (Map<
    u32,
    usize,
>, bool) {
    bind_pass(shape.dims@, actual, env, 0, compared_axes(shape.dims@, actual))
}

/// Whether binding and validating `actual` against `shape` succeeds from `env`.
pub open spec fn spec_bind_and_validate_ok(
    shape: ShapeExpr,
    actual: Seq<usize>,
    env: Map<u32, usize>,
) -> bool {
    &&& rank_matches(shape.rank, actual.len())
    &&& spec_bind(shape, actual, env).1
    &&& check_pass(shape.dims@, actual, spec_bind(shape, actual, env).0, compared_axes(shape.dims@, actual))
}

/// The refusal of `actual` extents where rank `rank` was expected.
pub open spec fn rank_refusal(rank: usize, actual: usize) -> Seq<char> {
    "expected rank "@ + decimal(rank as nat) + ", got "@ + decimal(actual as nat)
}

fn rank_message(rank: usize, actual: usize) -> (r: String)
    ensures
        r@ == rank_refusal(rank, actual),
{
    let mut m = String::from_str("expected rank ");
    m.append(usize_text(rank).as_str());
    m.append(", got ");
    m.append(usize_text(actual).as_str());
    m
}

/// The refusal of axis `axis`, fixed at `expected`, found at `value`.
pub open spec fn axis_text(axis: int, expected: usize, value: usize) -> Seq<char> {
    "axis "@ + decimal(axis as nat) + " expected dimension "@ + decimal(expected as nat) + ", got "@
        + decimal(value as nat)
}

/// The refusal of a capture-time symbol left in a compiled shape.
pub open spec fn unallocated_text(expr: DimExpr) -> Seq<char> {
    "unallocated frontend symbol in compiled shape expression: "@ + dim_expr_text(expr)
}

/// The refusal of an expression checked against `actual` under `env`.
pub open spec fn expr_refusal(env: Map<u32, usize>, expr: DimExpr, actual: usize) -> Seq<char> {
    match spec_eval(expr, map_lookup(env)) {
        None => unresolved_text(expr),
        Some(value) => mismatch_text(expr, value, actual),
    }
}

/// The refusal of axis `axis` in the binding pass, when it is refused.
pub open spec fn bind_step_refusal(env: Map<u32, usize>, e: DimExpr, v: usize, axis: int) -> Seq<
    char,
> {
    match e {
        DimExpr::Const(x) => axis_text(axis, x, v),
        DimExpr::Symbol(id) => rebound_text(id, env[id.0], v),
        DimExpr::NamedSymbol { id, .. } => rebound_text(id, env[id.0], v),
        DimExpr::NamedExpr { id, .. } => rebound_text(id, env[id.0], v),
        _ => unallocated_text(e),
    }
}

/// The refusal of the first refused axis of the binding pass over axes
/// `i..n`, or nothing when all are accepted.
pub open spec fn bind_pass_refusal(
    dims: Seq<DimExpr>,
    actual: Seq<usize>,
    env: Map<u32, usize>,
    i: int,
    n: int,
) -> Option<Seq<char>>
    decreases n - i,
{
    if i >= n || i < 0 {
        None
    } else {
        let (next, ok) = bind_step(env, dims[i], actual[i]);
        if !ok {
            Some(bind_step_refusal(env, dims[i], actual[i], i))
        } else {
            bind_pass_refusal(dims, actual, next, i + 1, n)
        }
    }
}

/// The refusal of axis `axis` in the checking pass, when it disagrees.
pub open spec fn check_step_refusal(env: Map<u32, usize>, e: DimExpr, v: usize, axis: int) -> Seq<
    char,
> {
    match e {
        DimExpr::Const(x) => axis_text(axis, x, v),
        DimExpr::NamedExpr { expr, .. } => expr_refusal(env, *expr, v),
        DimExpr::Fresh(_) => unallocated_text(e),
        DimExpr::NamedFresh { .. } => unallocated_text(e),
        _ => expr_refusal(env, e, v),
    }
}

/// The refusal of the first disagreeing axis among `i..n` of the checking
/// pass, or nothing when all agree.
pub open spec fn check_pass_refusal(
    dims: Seq<DimExpr>,
    actual: Seq<usize>,
    env: Map<u32, usize>,
    i: int,
    n: int,
) -> Option<Seq<char>>
    decreases n - i,
{
    if i >= n || i < 0 {
        None
    } else if !check_step(env, dims[i], actual[i]) {
        Some(check_step_refusal(env, dims[i], actual[i], i))
    } else {
        check_pass_refusal(dims, actual, env, i + 1, n)
    }
}

/// Why binding and validating `actual` against `shape` from `env` is
/// refused: the rank first, then the first refused axis of the binding
/// pass, then the first disagreeing axis of the checking pass.
pub open spec fn bind_and_validate_refusal(
    shape: ShapeExpr,
    actual: Seq<usize>,
    env: Map<u32, usize>,
) -> Option<Seq<char>> {
    let n = compared_axes(shape.dims@, actual);
    match shape.rank {
        RankExpr::Static(rank) if rank != actual.len() => Some(
            rank_refusal(rank, actual.len() as usize),
        ),
        _ => if !spec_bind(shape, actual, env).1 {
            bind_pass_refusal(shape.dims@, actual, env, 0, n)
        } else {
            check_pass_refusal(shape.dims@, actual, spec_bind(shape, actual, env).0, 0, n)
        },
    }
}

fn axis_message(axis: usize, expected: usize, value: usize) -> (r: String)
    ensures
        r@ == axis_text(axis as int, expected, value),
{
    let mut m = String::from_str("axis ");
    m.append(usize_text(axis).as_str());
    m.append(" expected dimension ");
    m.append(usize_text(expected).as_str());
    m.append(", got ");
    m.append(usize_text(value).as_str());
    m
}

fn unallocated_message(expr: &DimExpr) -> (r: String)
    ensures
        r@ == unallocated_text(*expr),
{
    let mut m = String::from_str("unallocated frontend symbol in compiled shape expression: ");
    m.append(dim_expr_string(expr).as_str());
    m
}

proof fn lemma_bind_pass_consts(
    expected: Seq<usize>,
    dims: Seq<DimExpr>,
    actual: Seq<usize>,
    env: Map<u32, usize>,
    i: int,
    n: int,
)
    requires
        0 <= i <= n,
        n <= dims.len(),
        n <= actual.len(),
        n <= expected.len(),
        forall|j: int| 0 <= j < n ==> #[trigger] dims[j] == DimExpr::Const(expected[j]),
    ensures
        bind_pass(dims, actual, env, i, n).0 == env,
        bind_pass(dims, actual, env, i, n).1 == (forall|j: int|
            i <= j < n ==> #[trigger] expected[j] == actual[j]),
    decreases n - i,
{
    if i < n {
        assert(dims[i] == DimExpr::Const(expected[i]));
        lemma_bind_pass_consts(expected, dims, actual, env, i + 1, n);
    }
}

/// A concrete shape accepts exactly its own dimensions: validating `actual`
/// against the shape built from `expected` succeeds if and only if the two
/// lists are equal.
pub proof fn lemma_concrete_accepts_exactly(shape: ShapeExpr, expected: Seq<usize>, actual: Seq<usize>)
    requires
        expected.len() <= usize::MAX,
        shape.rank == RankExpr::Static(expected.len() as usize),
        shape.dims@.len() == expected.len(),
        forall|i: int| 0 <= i < expected.len() ==> shape.dims@[i] == DimExpr::Const(#[trigger] expected[i]),
        shape.constraints@.len() == 0,
    ensures
        spec_bind_and_validate_ok(shape, actual, Map::empty()) <==> actual == expected,
{
    let n = compared_axes(shape.dims@, actual);
    assert forall|j: int| 0 <= j < n implies #[trigger] shape.dims@[j] == DimExpr::Const(expected[j]) by {
        assert(shape.dims@[j] == DimExpr::Const(expected[j]));
    }
    lemma_bind_pass_consts(expected, shape.dims@, actual, Map::empty(), 0, n);
    if actual == expected {
        assert forall|i: int| 0 <= i < n implies #[trigger] check_step(
            Map::empty(),
            shape.dims@[i],
            actual[i],
        ) by {
            assert(shape.dims@[i] == DimExpr::Const(expected[i]));
        }
    }
    if spec_bind_and_validate_ok(shape, actual, Map::empty()) {
        assert(actual.len() == expected.len());
        assert forall|i: int| 0 <= i < actual.len() implies actual[i] == expected[i] by {
            assert(expected[i] == actual[i]);
        }
        assert(actual =~= expected);
    }
}

/// Whether `actual` validates against `shape` from no bindings: rank, axis
/// bindings and axis values, then every constraint under the bindings.
pub open spec fn validate_ok(shape: ShapeExpr, actual: Seq<usize>) -> bool {
    &&& spec_bind_and_validate_ok(shape, actual, Map::empty())
    &&& forall|i: int|
        0 <= i < shape.constraints@.len() ==> constraint_check(
            #[trigger] shape.constraints@[i],
            map_lookup(spec_bind(shape, actual, Map::empty()).0),
        ) == Some(true)
}

/// A shape built by [`ShapeExpr::concrete`] from `expected` validates
/// exactly the extents it was built from.
pub proof fn lemma_concrete_validates_exactly(
    shape: ShapeExpr,
    expected: Seq<usize>,
    actual: Seq<usize>,
)
    requires
        expected.len() <= usize::MAX,
        shape.rank == RankExpr::Static(expected.len() as usize),
        shape.dims@.len() == expected.len(),
        forall|i: int| 0 <= i < expected.len() ==> shape.dims@[i] == DimExpr::Const(#[trigger] expected[i]),
        shape.constraints@.len() == 0,
    ensures
        validate_ok(shape, actual) <==> actual == expected,
{
    lemma_concrete_accepts_exactly(shape, expected, actual);
}

/// A shape built by [`ShapeExpr::symbolic`] with at least one axis holds
/// only capture-time tokens, so it validates no extents at all.
pub proof fn lemma_symbolic_validates_nothing(shape: ShapeExpr, actual: Seq<usize>)
    requires
        shape.dims@.len() > 0,
        shape.rank == RankExpr::Static(shape.dims.len()),
        forall|i: int| 0 <= i < shape.dims@.len() ==> #[trigger] shape.dims@[i] is Fresh,
    ensures
        !validate_ok(shape, actual),
{
    if actual.len() == shape.dims@.len() {
        assert(shape.dims@[0] is Fresh);
        assert(compared_axes(shape.dims@, actual) == shape.dims@.len());
        assert(!bind_step(Map::empty(), shape.dims@[0], actual[0]).1);
    }
}

impl ShapeExpr {
    /// Builds a fully concrete shape expression.
    pub fn concrete(dims: &[usize]) -> (r: ShapeExpr)
        ensures
            r.rank == RankExpr::Static(dims@.len() as usize),
            r.dims@.len() == dims@.len(),
            forall|i: int| 0 <= i < dims@.len() ==> r.dims@[i] == DimExpr::Const(#[trigger] dims@[i]),
            r.constraints@.len() == 0,
    {
        let mut out: Vec<DimExpr> = Vec::new();
        let mut i: usize = 0;
        while i < dims.len()
            invariant
                i <= dims@.len(),
                out@.len() == i,
                forall|j: int| 0 <= j < i ==> out@[j] == DimExpr::Const(#[trigger] dims@[j]),
            decreases dims.len() - i,
        {
            out.push(DimExpr::Const(dims[i]));
            i = i + 1;
        }
        ShapeExpr { rank: RankExpr::Static(dims.len()), dims: out, constraints: Vec::new() }
    }

    /// Builds a shape whose axes become fresh symbol tokens `base`,
    /// `base + 1`, ... (saturating).
    pub fn symbolic(dims: &[usize], base: u32) -> (r: ShapeExpr)
        ensures
            r.rank == RankExpr::Static(dims@.len() as usize),
            r.dims@.len() == dims@.len(),
            forall|i: int|
                0 <= i < dims@.len() ==> #[trigger] r.dims@[i] == DimExpr::Fresh(
                    (if base + (i as u32) <= u32::MAX {
                        base + (i as u32)
                    } else {
                        u32::MAX as int
                    }) as u32,
                ),
            r.constraints@.len() == 0,
    {
        let mut out: Vec<DimExpr> = Vec::new();
        let mut i: usize = 0;
        while i < dims.len()
            invariant
                i <= dims@.len(),
                out@.len() == i,
                forall|j: int|
                    0 <= j < i ==> #[trigger] out@[j] == DimExpr::Fresh(
                        (if base + (j as u32) <= u32::MAX {
                            base + (j as u32)
                        } else {
                            u32::MAX as int
                        }) as u32,
                    ),
            decreases dims.len() - i,
        {
            out.push(DimExpr::Fresh(base.saturating_add(i as u32)));
            i = i + 1;
        }
        ShapeExpr { rank: RankExpr::Static(dims.len()), dims: out, constraints: Vec::new() }
    }

    /// Attaches constraints, replacing any already present.
    pub fn with_constraints(self, constraints: Vec<Constraint>) -> (r: ShapeExpr)
        ensures
            r == (ShapeExpr { constraints, ..self }),
    {
        ShapeExpr { rank: self.rank, dims: self.dims, constraints }
    }

    /// Validates actual runtime dimensions against this shape: rank, axis
    /// bindings, axis values, then every constraint under the bindings.
    pub fn validate(&self, actual: &[usize]) -> (r: Result<(), String>)
        ensures
            r is Ok <==> validate_ok(*self, actual@),
            r matches Err(m) ==> if !spec_bind_and_validate_ok(*self, actual@, Map::empty()) {
                bind_and_validate_refusal(*self, actual@, Map::empty()) == Some(m@)
            } else {
                m@ == constraints_refusal(
                    self.constraints@,
                    map_lookup(spec_bind(*self, actual@, Map::empty()).0),
                )
            },
    {
        let mut environment = SymbolEnvironment::new();
        match self.bind_and_validate(actual, &mut environment) {
            Ok(()) => {},
            Err(e) => {
                return Err(e);
            },
        }
        environment.validate_constraints(&self.constraints)
    }

    /// Binds symbols from the actual extents, then checks every axis
    /// against the bindings. A rank mismatch leaves the environment
    /// untouched; otherwise it holds the bindings made before the first
    /// refused axis, that axis's own binding included.
    pub fn bind_and_validate(&self, actual: &[usize], environment: &mut SymbolEnvironment) -> (r:
        Result<(), String>)
        ensures
            !rank_matches(self.rank, actual@.len()) ==> final(environment)@ == old(environment)@,
            rank_matches(self.rank, actual@.len()) ==> final(environment)@ == spec_bind(
                *self,
                actual@,
                old(environment)@,
            ).0,
            r is Ok <==> spec_bind_and_validate_ok(*self, actual@, old(environment)@),
            match self.rank {
                RankExpr::Static(rank) => rank != actual@.len() ==> (r matches Err(m) && m@
                    == rank_refusal(rank, actual.len())),
                _ => true,
            },
            r matches Err(m) ==> bind_and_validate_refusal(*self, actual@, old(environment)@)
                == Some(m@),
    {
        if let RankExpr::Static(rank) = self.rank {
            if rank != actual.len() {
                return Err(rank_message(rank, actual.len()));
            }
        }
        let n: usize = if self.dims.len() <= actual.len() {
            self.dims.len()
        } else {
            actual.len()
        };
        let ghost start = environment@;
        let mut axis: usize = 0;
        while axis < n
            invariant
                n == compared_axes(self.dims@, actual@),
                axis <= n,
                rank_matches(self.rank, actual@.len()),
                start == old(environment)@,
                spec_bind(*self, actual@, start) == bind_pass(
                    self.dims@,
                    actual@,
                    environment@,
                    axis as int,
                    n as int,
                ),
                bind_pass_refusal(self.dims@, actual@, start, 0, n as int) == bind_pass_refusal(
                    self.dims@,
                    actual@,
                    environment@,
                    axis as int,
                    n as int,
                ),
            decreases n - axis,
        {
            let value = actual[axis];
            let expr = &self.dims[axis];
            match expr {
                DimExpr::Const(expected) => {
                    if *expected != value {
                        return Err(axis_message(axis, *expected, value));
                    }
                },
                DimExpr::Symbol(id) => {
                    match environment.bind(*id, value) {
                        Ok(()) => {},
                        Err(e) => {
                            return Err(e);
                        },
                    }
                },
                DimExpr::NamedSymbol { id, .. } => {
                    match environment.bind(*id, value) {
                        Ok(()) => {},
                        Err(e) => {
                            return Err(e);
                        },
                    }
                },
                DimExpr::NamedExpr { id, .. } => {
                    match environment.bind(*id, value) {
                        Ok(()) => {},
                        Err(e) => {
                            return Err(e);
                        },
                    }
                },
                DimExpr::Fresh(_) => {
                    return Err(unallocated_message(expr));
                },
                DimExpr::NamedFresh { .. } => {
                    return Err(unallocated_message(expr));
                },
                _ => {},
            }
            axis = axis + 1;
        }
        let mut axis: usize = 0;
        while axis < n
            invariant
                n == compared_axes(self.dims@, actual@),
                axis <= n,
                rank_matches(self.rank, actual@.len()),
                start == old(environment)@,
                spec_bind(*self, actual@, start) == (environment@, true),
                forall|i: int| 0 <= i < axis ==> #[trigger] check_step(environment@, self.dims@[i], actual@[i]),
                check_pass_refusal(self.dims@, actual@, environment@, 0, n as int)
                    == check_pass_refusal(self.dims@, actual@, environment@, axis as int, n as int),
            decreases n - axis,
        {
            proof {
                assert(check_step(environment@, self.dims@[axis as int], actual@[axis as int])
                    || !check_pass(self.dims@, actual@, environment@, n as int));
            }
            let value = actual[axis];
            let expr = &self.dims[axis];
            match expr {
                DimExpr::Const(expected) => {
                    if *expected != value {
                        return Err(axis_message(axis, *expected, value));
                    }
                },
                DimExpr::Symbol(_) => {},
                DimExpr::NamedSymbol { .. } => {},
                DimExpr::NamedExpr { expr: inner, .. } => {
                    match environment.validate_expr(inner, value) {
                        Ok(()) => {},
                        Err(e) => {
                            return Err(e);
                        },
                    }
                },
                DimExpr::Fresh(_) => {
                    return Err(unallocated_message(expr));
                },
                DimExpr::NamedFresh { .. } => {
                    return Err(unallocated_message(expr));
                },
                _ => {
                    match environment.validate_expr(expr, value) {
                        Ok(()) => {},
                        Err(e) => {
                            return Err(e);
                        },
                    }
                },
            }
            axis = axis + 1;
        }
        Ok(())
    }
}

} // verus!
