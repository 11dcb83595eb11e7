use incin_core::exec::symbolic::{
    Constraint, DimExpr, RankExpr, ShapeExpr, SymbolEnvironment, SymbolId, SymbolTable,
};

fn c(v: usize) -> Box<DimExpr> {
    Box::new(DimExpr::Const(v))
}

fn s(id: u32) -> Box<DimExpr> {
    Box::new(DimExpr::Symbol(SymbolId(id)))
}

#[test]
fn constant_folding_follows_checked_arithmetic() {
    assert_eq!(DimExpr::Add(c(2), c(3)).simplify(), DimExpr::Const(5));
    assert_eq!(DimExpr::Add(c(usize::MAX), c(1)).simplify(), DimExpr::Unknown);
    assert_eq!(DimExpr::Add(c(0), s(1)).simplify(), DimExpr::Symbol(SymbolId(1)));
    assert_eq!(DimExpr::Mul(s(1), c(0)).simplify(), DimExpr::Const(0));
    assert_eq!(DimExpr::Mul(c(1), s(2)).simplify(), DimExpr::Symbol(SymbolId(2)));
    assert_eq!(DimExpr::Sub(c(2), c(3)).simplify(), DimExpr::Unknown);
    assert_eq!(DimExpr::Sub(s(4), c(0)).simplify(), DimExpr::Symbol(SymbolId(4)));
    assert_eq!(DimExpr::ExactDiv(c(6), c(3)).simplify(), DimExpr::Const(2));
    assert_eq!(DimExpr::ExactDiv(c(7), c(2)).simplify(), DimExpr::Unknown);
    assert_eq!(DimExpr::ExactDiv(c(6), c(0)).simplify(), DimExpr::ExactDiv(c(6), c(0)));
    assert_eq!(DimExpr::Broadcast(c(1), s(3)).simplify(), DimExpr::Symbol(SymbolId(3)));
    assert_eq!(DimExpr::Broadcast(c(4), c(4)).simplify(), DimExpr::Const(4));
    assert_eq!(DimExpr::Broadcast(c(4), c(5)).simplify(), DimExpr::Broadcast(c(4), c(5)));
    assert_eq!(DimExpr::Min(c(3), c(5)).simplify(), DimExpr::Const(3));
    assert_eq!(DimExpr::Max(c(3), c(5)).simplify(), DimExpr::Const(5));
    assert_eq!(DimExpr::Min(s(1), s(1)).simplify(), DimExpr::Symbol(SymbolId(1)));
}

#[test]
fn simplification_works_bottom_up_to_a_canonical_form() {
    let nested = DimExpr::Add(Box::new(DimExpr::Add(c(1), c(2))), c(0));
    assert_eq!(nested.simplify(), DimExpr::Const(3));
    let once = DimExpr::Mul(c(1), Box::new(DimExpr::Add(c(0), s(4)))).simplify();
    assert_eq!(once, DimExpr::Symbol(SymbolId(4)));
    assert_eq!(once.clone().simplify(), once);
    let named = DimExpr::NamedExpr {
        expr: Box::new(DimExpr::Add(c(2), c(3))),
        id: SymbolId(7),
        name: "n".to_string(),
        identity: "op.n".to_string(),
    };
    assert_eq!(
        named.simplify(),
        DimExpr::NamedExpr {
            expr: c(5),
            id: SymbolId(7),
            name: "n".to_string(),
            identity: "op.n".to_string(),
        }
    );
}

#[test]
fn evaluation_uses_the_first_binding() {
    let symbols = [(SymbolId(1), 4), (SymbolId(1), 9), (SymbolId(2), 2)];
    assert_eq!(DimExpr::Mul(s(1), s(2)).evaluate(&symbols), Some(8));
    assert_eq!(DimExpr::Symbol(SymbolId(3)).evaluate(&symbols), None);
    assert_eq!(DimExpr::Broadcast(s(1), c(1)).evaluate(&symbols), Some(4));
    assert_eq!(DimExpr::Broadcast(s(1), c(3)).evaluate(&symbols), None);
    assert_eq!(DimExpr::ExactDiv(c(7), s(2)).evaluate(&symbols), None);
    assert_eq!(DimExpr::Sub(s(2), s(1)).evaluate(&symbols), None);
    assert_eq!(DimExpr::Fresh(1).evaluate(&symbols), None);
    assert_eq!(DimExpr::Unknown.evaluate(&symbols), None);
    let alias = DimExpr::NamedExpr {
        expr: c(10),
        id: SymbolId(2),
        name: "n".to_string(),
        identity: "n".to_string(),
    };
    assert_eq!(alias.evaluate(&symbols), Some(2));
    assert_eq!(alias.evaluate(&[]), Some(10));
}

#[test]
fn rebinding_a_symbol_is_reported_but_recorded() {
    let mut env = SymbolEnvironment::new();
    assert!(env.bind(SymbolId(1), 3).is_ok());
    assert!(env.bind(SymbolId(1), 3).is_ok());
    assert!(env.bind(SymbolId(1), 4).is_err());
    assert_eq!(env.get(SymbolId(1)), Some(4));
    assert!(env.is_bound(SymbolId(1)));
    assert!(!env.is_bound(SymbolId(2)));
    assert!(env.validate_expr(&DimExpr::Add(s(1), c(1)), 5).is_ok());
    assert!(env.validate_expr(&DimExpr::Add(s(1), c(1)), 6).is_err());
    assert!(env.validate_expr(&DimExpr::Symbol(SymbolId(9)), 1).is_err());
}

#[test]
fn constraints_are_checked_in_order() {
    let mut env = SymbolEnvironment::new();
    env.bind(SymbolId(0), 6).unwrap();
    let ok = [
        Constraint::equal(DimExpr::Symbol(SymbolId(0)), DimExpr::Const(6)),
        Constraint::LowerBound { value: DimExpr::Symbol(SymbolId(0)), bound: 6 },
        Constraint::UpperBound { value: DimExpr::Symbol(SymbolId(0)), bound: 6 },
        Constraint::Divisible { value: DimExpr::Symbol(SymbolId(0)), divisor: 3 },
        Constraint::broadcast(DimExpr::Symbol(SymbolId(0)), DimExpr::Const(1)),
    ];
    assert!(env.validate_constraints(&ok).is_ok());
    for c in ok.iter() {
        assert_eq!(c.check(&env), Some(true));
    }
    let failing = Constraint::Divisible { value: DimExpr::Symbol(SymbolId(0)), divisor: 0 };
    assert_eq!(failing.check(&env), Some(false));
    assert!(env.validate_constraints(&[failing]).is_err());
    let unresolved = Constraint::equal(DimExpr::Symbol(SymbolId(5)), DimExpr::Const(1));
    assert_eq!(unresolved.check(&env), None);
    assert!(env.validate_constraints(&[unresolved]).is_err());
}

fn two_axis_shape() -> ShapeExpr {
    ShapeExpr {
        rank: RankExpr::Static(2),
        dims: vec![DimExpr::Symbol(SymbolId(0)), DimExpr::Mul(s(0), c(2))],
        constraints: vec![],
    }
}

#[test]
fn a_shape_binds_its_symbols_then_checks_derived_axes() {
    let shape = two_axis_shape();
    assert!(shape.validate(&[3, 6]).is_ok());
    assert!(shape.validate(&[3, 7]).is_err());
    assert!(shape.validate(&[3]).is_err());
    let bounded = two_axis_shape().with_constraints(vec![Constraint::LowerBound {
        value: DimExpr::Symbol(SymbolId(0)),
        bound: 4,
    }]);
    assert!(bounded.validate(&[3, 6]).is_err());
    assert!(bounded.validate(&[4, 8]).is_ok());
    let mut env = SymbolEnvironment::new();
    assert!(shape.bind_and_validate(&[5, 10], &mut env).is_ok());
    assert_eq!(env.get(SymbolId(0)), Some(5));
}

#[test]
fn a_concrete_shape_accepts_exactly_its_own_dims() {
    let shape = ShapeExpr::concrete(&[2, 3]);
    assert_eq!(shape.rank, RankExpr::Static(2));
    assert!(shape.validate(&[2, 3]).is_ok());
    assert!(shape.validate(&[2, 4]).is_err());
    assert!(shape.validate(&[2, 3, 1]).is_err());
}

#[test]
fn capture_tokens_are_refused_at_validation() {
    let shape = ShapeExpr::symbolic(&[4, 4], 1);
    assert_eq!(shape.dims, vec![DimExpr::Fresh(1), DimExpr::Fresh(2)]);
    assert!(shape.validate(&[4, 4]).is_err());
    let top = ShapeExpr::symbolic(&[1, 1], u32::MAX);
    assert_eq!(top.dims, vec![DimExpr::Fresh(u32::MAX), DimExpr::Fresh(u32::MAX)]);
}

#[test]
fn a_repeated_symbol_must_agree_across_axes() {
    let shape = ShapeExpr {
        rank: RankExpr::Dynamic,
        dims: vec![DimExpr::Symbol(SymbolId(0)), DimExpr::Symbol(SymbolId(0))],
        constraints: vec![],
    };
    assert!(shape.validate(&[2, 2]).is_ok());
    assert!(shape.validate(&[2, 3]).is_err());
}

#[test]
fn registering_a_symbol_twice_only_fills_missing_names() {
    let mut table = SymbolTable::default();
    table.register(SymbolId(1), None, Some("op.a".to_string()));
    table.register(SymbolId(1), Some("a".to_string()), Some("other".to_string()));
    table.register(SymbolId(2), Some("b".to_string()), None);
    assert_eq!(table.symbols.len(), 2);
    assert_eq!(table.symbols[0].name.as_deref(), Some("a"));
    assert_eq!(table.symbols[0].identity.as_deref(), Some("op.a"));
    assert_eq!(table.symbols[1].id, SymbolId(2));
    assert!(!table.environment().is_bound(SymbolId(1)));
}

#[test]
fn refusals_say_which_extent_disagreed() {
    let shape = ShapeExpr::concrete(&[2, 3]);
    assert_eq!(shape.validate(&[2, 3, 1]), Err("expected rank 2, got 3".to_string()));
    assert_eq!(
        shape.validate(&[2, 4]),
        Err("axis 1 expected dimension 3, got 4".to_string())
    );
}

#[test]
fn refusals_quote_the_symbols_and_expressions_involved() {
    let mut env = SymbolEnvironment::new();
    env.bind(SymbolId(3), 4).unwrap();
    assert_eq!(env.bind(SymbolId(3), 5), Err("symbol SymbolId(3) was 4, got 5".to_string()));
    let product = DimExpr::Mul(s(3), c(2));
    assert_eq!(
        env.validate_expr(&product, 9),
        Err("expected expression Mul(Symbol(SymbolId(3)), Const(2)) = 10, got 9".to_string())
    );
    assert_eq!(
        env.validate_expr(&DimExpr::Symbol(SymbolId(8)), 1),
        Err("symbolic dimension Symbol(SymbolId(8)) remains unresolved".to_string())
    );
    let constraints = [
        Constraint::LowerBound { value: DimExpr::Symbol(SymbolId(3)), bound: 2 },
        Constraint::UpperBound { value: DimExpr::Symbol(SymbolId(3)), bound: 3 },
        Constraint::equal(DimExpr::Symbol(SymbolId(9)), DimExpr::Const(1)),
    ];
    assert_eq!(
        env.validate_constraints(&constraints),
        Err("shape constraint 1 failed: UpperBound { value: Symbol(SymbolId(3)), bound: 3 }"
            .to_string())
    );
    assert_eq!(
        env.validate_constraints(&constraints[2..]),
        Err("shape constraint 0 remains unresolved: Equal { lhs: Symbol(SymbolId(9)), rhs: Const(1) }"
            .to_string())
    );
    let named = DimExpr::NamedFresh {
        source: 2,
        name: "seq".to_string(),
        identity: "op\"2".to_string(),
    };
    let shape = ShapeExpr { rank: RankExpr::Dynamic, dims: vec![named], constraints: vec![] };
    assert_eq!(
        shape.validate(&[4]),
        Err("unallocated frontend symbol in compiled shape expression: NamedFresh { source: 2, name: \"seq\", identity: \"op\\\"2\" }"
            .to_string())
    );
}

#[test]
fn a_concrete_shape_validates_only_itself_and_a_symbolic_one_nothing() {
    let dims = [2usize, 5, 1];
    let concrete = ShapeExpr::concrete(&dims);
    assert!(concrete.validate(&dims).is_ok());
    assert!(concrete.validate(&[2, 5]).is_err());
    assert!(concrete.validate(&[2, 5, 2]).is_err());
    let symbolic = ShapeExpr::symbolic(&dims, 7);
    assert!(symbolic.validate(&dims).is_err());
    assert!(symbolic.validate(&[1, 1, 1]).is_err());
}
