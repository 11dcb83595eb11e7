//! The `Debug` spellings of symbol ids, dimension expressions and
//! constraints, which the symbolic checks quote in their refusals.
use vstd::prelude::*;
use crate::exec::symbolic::{Constraint, DimExpr, SymbolId};
use crate::text::{decimal, decimal_string, usize_text};

verus! {

/// `s` as `Debug` spells a string: in double quotes, with quotes,
/// backslashes and unprintable characters escaped.
pub uninterp spec fn quoted(s: Seq<char>) -> Seq<char>;

/// `<str as Debug>::fmt`, through `format!("{:?}", s)`; the contract names
/// its result, the quoted and escaped form of `s`, without spelling out the
/// escaping rules.
#[verifier::external_body]
fn quoted_text(s: &str) -> (r: String)
    ensures
        r@ == quoted(s@),
{
    format!("{:?}", s)
}

/// `SymbolId(n)`.
pub open spec fn symbol_id_text(id: SymbolId) -> Seq<char> {
    "SymbolId("@ + decimal(id.0 as nat) + ")"@
}

/// A two-field tuple variant: `Tag(a, b)`.
pub open spec fn pair_text(tag: Seq<char>, a: Seq<char>, b: Seq<char>) -> Seq<char> {
    tag + "("@ + a + ", "@ + b + ")"@
}

/// The trailing `, name: "..", identity: ".." }` of a named variant.
pub open spec fn names_text(name: Seq<char>, identity: Seq<char>) -> Seq<char> {
    ", name: "@ + quoted(name) + ", identity: "@ + quoted(identity) + " }"@
}

/// A dimension expression as `Debug` spells it.
pub open spec fn dim_expr_text(e: DimExpr) -> Seq<char>
    decreases e,
{
    match e {
        DimExpr::Const(v) => "Const("@ + decimal(v as nat) + ")"@,
        DimExpr::Fresh(v) => "Fresh("@ + decimal(v as nat) + ")"@,
        DimExpr::NamedFresh { source, name, identity } => "NamedFresh { source: "@ + decimal(
            source as nat,
        ) + names_text(name@, identity@),
        DimExpr::Symbol(id) => "Symbol("@ + symbol_id_text(id) + ")"@,
        DimExpr::NamedSymbol { id, name, identity } => "NamedSymbol { id: "@ + symbol_id_text(id)
            + names_text(name@, identity@),
        DimExpr::NamedExpr { expr, id, name, identity } => "NamedExpr { expr: "@ + dim_expr_text(
            *expr,
        ) + ", id: "@ + symbol_id_text(id) + names_text(name@, identity@),
        DimExpr::Add(l, r) => pair_text("Add"@, dim_expr_text(*l), dim_expr_text(*r)),
        DimExpr::Sub(l, r) => pair_text("Sub"@, dim_expr_text(*l), dim_expr_text(*r)),
        DimExpr::Mul(l, r) => pair_text("Mul"@, dim_expr_text(*l), dim_expr_text(*r)),
        DimExpr::ExactDiv(l, r) => pair_text("ExactDiv"@, dim_expr_text(*l), dim_expr_text(*r)),
        DimExpr::Broadcast(l, r) => pair_text("Broadcast"@, dim_expr_text(*l), dim_expr_text(*r)),
        DimExpr::Min(l, r) => pair_text("Min"@, dim_expr_text(*l), dim_expr_text(*r)),
        DimExpr::Max(l, r) => pair_text("Max"@, dim_expr_text(*l), dim_expr_text(*r)),
        DimExpr::Unknown => "Unknown"@,
    }
}

/// A constraint as `Debug` spells it.
pub open spec fn constraint_text(c: Constraint) -> Seq<char> {
    match c {
        Constraint::Equal { lhs, rhs } => "Equal { lhs: "@ + dim_expr_text(lhs) + ", rhs: "@
            + dim_expr_text(rhs) + " }"@,
        Constraint::LowerBound { value, bound } => "LowerBound { value: "@ + dim_expr_text(value)
            + ", bound: "@ + decimal(bound as nat) + " }"@,
        Constraint::UpperBound { value, bound } => "UpperBound { value: "@ + dim_expr_text(value)
            + ", bound: "@ + decimal(bound as nat) + " }"@,
        Constraint::Divisible { value, divisor } => "Divisible { value: "@ + dim_expr_text(value)
            + ", divisor: "@ + decimal(divisor as nat) + " }"@,
        Constraint::BroadcastCompatible { lhs, rhs } => "BroadcastCompatible { lhs: "@
            + dim_expr_text(lhs) + ", rhs: "@ + dim_expr_text(rhs) + " }"@,
    }
}

/// The `Debug` spelling of `id`.
pub(crate) fn symbol_id_string(id: SymbolId) -> (r: String)
    ensures
        r@ == symbol_id_text(id),
{
    let mut s = String::from_str("SymbolId(");
    s.append(decimal_string(id.0 as u64).as_str());
    s.append(")");
    s
}

fn pair_string(tag: &str, a: String, b: String) -> (r: String)
    ensures
        r@ == pair_text(tag@, a@, b@),
{
    let mut s = String::from_str(tag);
    s.append("(");
    s.append(a.as_str());
    s.append(", ");
    s.append(b.as_str());
    s.append(")");
    s
}

fn names_string(name: &String, identity: &String) -> (r: String)
    ensures
        r@ == names_text(name@, identity@),
{
    let mut s = String::from_str(", name: ");
    s.append(quoted_text(name.as_str()).as_str());
    s.append(", identity: ");
    s.append(quoted_text(identity.as_str()).as_str());
    s.append(" }");
    s
}

/// The `Debug` spelling of `e`.
pub(crate) fn dim_expr_string(e: &DimExpr) -> (r: String)
    ensures
        r@ == dim_expr_text(*e),
    decreases e,
{
    match e {
        DimExpr::Const(v) => {
            let mut s = String::from_str("Const(");
            s.append(usize_text(*v).as_str());
            s.append(")");
            s
        },
        DimExpr::Fresh(v) => {
            let mut s = String::from_str("Fresh(");
            s.append(decimal_string(*v as u64).as_str());
            s.append(")");
            s
        },
        DimExpr::NamedFresh { source, name, identity } => {
            let mut s = String::from_str("NamedFresh { source: ");
            s.append(decimal_string(*source as u64).as_str());
            s.append(names_string(name, identity).as_str());
            s
        },
        DimExpr::Symbol(id) => {
            let mut s = String::from_str("Symbol(");
            s.append(symbol_id_string(*id).as_str());
            s.append(")");
            s
        },
        DimExpr::NamedSymbol { id, name, identity } => {
            let mut s = String::from_str("NamedSymbol { id: ");
            s.append(symbol_id_string(*id).as_str());
            s.append(names_string(name, identity).as_str());
            s
        },
        DimExpr::NamedExpr { expr, id, name, identity } => {
            let mut s = String::from_str("NamedExpr { expr: ");
            s.append(dim_expr_string(expr).as_str());
            s.append(", id: ");
            s.append(symbol_id_string(*id).as_str());
            s.append(names_string(name, identity).as_str());
            s
        },
        DimExpr::Add(l, r) => pair_string("Add", dim_expr_string(l), dim_expr_string(r)),
        DimExpr::Sub(l, r) => pair_string("Sub", dim_expr_string(l), dim_expr_string(r)),
        DimExpr::Mul(l, r) => pair_string("Mul", dim_expr_string(l), dim_expr_string(r)),
        DimExpr::ExactDiv(l, r) => pair_string("ExactDiv", dim_expr_string(l), dim_expr_string(r)),
        DimExpr::Broadcast(l, r) => pair_string(
            "Broadcast",
            dim_expr_string(l),
            dim_expr_string(r),
        ),
        DimExpr::Min(l, r) => pair_string("Min", dim_expr_string(l), dim_expr_string(r)),
        DimExpr::Max(l, r) => pair_string("Max", dim_expr_string(l), dim_expr_string(r)),
        DimExpr::Unknown => String::from_str("Unknown"),
    }
}

fn field_pair_string(head: &str, a: &DimExpr, middle: &str, b: String) -> (r: String)
    ensures
        r@ == head@ + dim_expr_text(*a) + middle@ + b@ + " }"@,
{
    let mut s = String::from_str(head);
    s.append(dim_expr_string(a).as_str());
    s.append(middle);
    s.append(b.as_str());
    s.append(" }");
    s
}

/// The `Debug` spelling of `c`.
pub(crate) fn constraint_string(c: &Constraint) -> (r: String)
    ensures
        r@ == constraint_text(*c),
{
    match c {
        Constraint::Equal { lhs, rhs } => field_pair_string(
            "Equal { lhs: ",
            lhs,
            ", rhs: ",
            dim_expr_string(rhs),
        ),
        Constraint::LowerBound { value, bound } => field_pair_string(
            "LowerBound { value: ",
            value,
            ", bound: ",
            usize_text(*bound),
        ),
        Constraint::UpperBound { value, bound } => field_pair_string(
            "UpperBound { value: ",
            value,
            ", bound: ",
            usize_text(*bound),
        ),
        Constraint::Divisible { value, divisor } => field_pair_string(
            "Divisible { value: ",
            value,
            ", divisor: ",
            usize_text(*divisor),
        ),
        Constraint::BroadcastCompatible { lhs, rhs } => field_pair_string(
            "BroadcastCompatible { lhs: ",
            lhs,
            ", rhs: ",
            dim_expr_string(rhs),
        ),
    }
}

} // verus!
