#![allow(dead_code)]

use std::collections::{HashMap, HashSet};
use vamp_ir::ast::{
    Definition, Expr, Function, InfixOp, Intrinsic, IntrinsicKind, LetBinding, Match, Module,
    Pattern, TExpr, Type, Variable, VariableId,
};
use vamp_ir::error::CompileError;
use vamp_ir::vargen::VarGen;

fn var(id: VariableId) -> TExpr {
    TExpr::untyped(Expr::Variable(Variable::new(id)))
}

fn named(name: &str, id: VariableId) -> TExpr {
    TExpr::untyped(Expr::Variable(Variable {
        name: Some(name.to_string()),
        id,
    }))
}

fn con(c: i32) -> TExpr {
    TExpr::untyped(Expr::Constant(c))
}

fn unit() -> TExpr {
    TExpr::untyped(Expr::Unit)
}

fn nil() -> TExpr {
    TExpr::untyped(Expr::Nil)
}

fn infix(op: InfixOp, a: TExpr, b: TExpr) -> TExpr {
    TExpr::untyped(Expr::Infix(op, Box::new(a), Box::new(b)))
}

fn int_infix(op: InfixOp, a: TExpr, b: TExpr) -> TExpr {
    TExpr {
        v: Expr::Infix(op, Box::new(a), Box::new(b)),
        t: Some(Type::Int),
    }
}

fn mul(a: TExpr, b: TExpr) -> TExpr {
    infix(InfixOp::Multiply, a, b)
}

fn add(a: TExpr, b: TExpr) -> TExpr {
    infix(InfixOp::Add, a, b)
}

fn equal(a: TExpr, b: TExpr) -> TExpr {
    infix(InfixOp::Equal, a, b)
}

fn power(a: TExpr, k: i32) -> TExpr {
    infix(InfixOp::Exponentiate, a, con(k))
}

fn neg(a: TExpr) -> TExpr {
    TExpr::untyped(Expr::Negate(Box::new(a)))
}

fn product(a: TExpr, b: TExpr) -> TExpr {
    TExpr::untyped(Expr::Product(Box::new(a), Box::new(b)))
}

fn cons(a: TExpr, b: TExpr) -> TExpr {
    TExpr::untyped(Expr::Cons(Box::new(a), Box::new(b)))
}

fn app(f: TExpr, x: TExpr) -> TExpr {
    TExpr::untyped(Expr::Application(Box::new(f), Box::new(x)))
}

fn seq(es: Vec<TExpr>) -> TExpr {
    TExpr::untyped(Expr::Sequence(es))
}

fn func(params: Vec<Pattern>, body: TExpr) -> TExpr {
    TExpr::untyped(Expr::Function(Function(params, Box::new(body))))
}

fn let_in(p: Pattern, bound: TExpr, body: TExpr) -> TExpr {
    TExpr::untyped(Expr::LetBinding(
        LetBinding(p, Box::new(bound)),
        Box::new(body),
    ))
}

fn match_on(s: TExpr, branches: Vec<(Pattern, TExpr)>) -> TExpr {
    TExpr::untyped(Expr::Match(Match(Box::new(s), branches)))
}

fn intrinsic(kind: IntrinsicKind, args: Vec<TExpr>) -> TExpr {
    TExpr::untyped(Expr::Intrinsic(Intrinsic {
        arity: 1,
        imp_typ: Type::Unit,
        imp: kind,
        args,
    }))
}

fn pvar(id: VariableId) -> Pattern {
    Pattern::Variable(Variable::new(id))
}

fn pnamed(name: &str, id: VariableId) -> Pattern {
    Pattern::Variable(Variable {
        name: Some(name.to_string()),
        id,
    })
}

fn pproduct(a: Pattern, b: Pattern) -> Pattern {
    Pattern::Product(Box::new(a), Box::new(b))
}

fn pcons(a: Pattern, b: Pattern) -> Pattern {
    Pattern::Cons(Box::new(a), Box::new(b))
}

fn alias(p: Pattern, id: VariableId) -> Pattern {
    Pattern::As(Box::new(p), Variable::new(id))
}

fn def(p: Pattern, e: TExpr) -> Definition {
    Definition(LetBinding(p, Box::new(e)))
}

fn module(defs: Vec<Definition>, exprs: Vec<TExpr>) -> Module {
    Module { defs, exprs }
}

fn witnesses(ids: &[VariableId]) -> HashSet<VariableId> {
    ids.iter().copied().collect()
}

fn bindings(pairs: Vec<(VariableId, TExpr)>) -> HashMap<VariableId, TExpr> {
    pairs.into_iter().collect()
}

const FUEL: usize = 1000;

use vamp_ir::collect::{
    collect_def_variables, collect_expr_variables, collect_module_variables,
    collect_pattern_variables,
};
use vamp_ir::dead_code::eliminate_dead_definitions;
use vamp_ir::optimize::{
    copy_propagate, copy_propagate_def, copy_propagate_expr, eliminate_dead_equalities,
};

#[test]
fn a_substitution_is_followed_to_its_end() {
    let subst = bindings(vec![(1, var(2)), (2, con(7))]);
    let mut expr = add(var(1), neg(var(3)));
    assert_eq!(copy_propagate_expr(&mut expr, &subst, FUEL), Ok(()));
    assert_eq!(expr, add(con(7), neg(var(3))));
}

#[test]
fn a_variable_is_replaced_with_the_type_of_its_binding() {
    let typed = |v: Expr, t: Type| TExpr { v, t: Some(t) };
    let subst = bindings(vec![(1, typed(Expr::Constant(3), Type::Int))]);
    let mut expr = typed(
        Expr::Negate(Box::new(typed(
            Expr::Variable(Variable::new(1)),
            Type::Unit,
        ))),
        Type::Unit,
    );
    assert_eq!(copy_propagate_expr(&mut expr, &subst, FUEL), Ok(()));
    assert_eq!(
        expr,
        typed(
            Expr::Negate(Box::new(typed(Expr::Constant(3), Type::Int))),
            Type::Unit
        )
    );
}

#[test]
fn patterns_and_parameters_are_not_replaced() {
    let subst = bindings(vec![(1, con(5))]);
    let mut expr = seq(vec![
        let_in(pvar(1), var(1), var(1)),
        func(vec![pvar(1)], var(1)),
        match_on(var(1), vec![(pvar(1), var(1))]),
        app(var(1), product(var(1), cons(var(1), nil()))),
        intrinsic(IntrinsicKind::Fresh, vec![var(1)]),
    ]);
    assert_eq!(copy_propagate_expr(&mut expr, &subst, FUEL), Ok(()));
    assert_eq!(
        expr,
        seq(vec![
            let_in(pvar(1), con(5), con(5)),
            func(vec![pvar(1)], con(5)),
            match_on(con(5), vec![(pvar(1), con(5))]),
            app(con(5), product(con(5), cons(con(5), nil()))),
            intrinsic(IntrinsicKind::Fresh, vec![con(5)]),
        ])
    );
}

#[test]
fn a_chain_of_substitutions_needs_a_unit_of_fuel_for_each_link() {
    let subst = bindings(vec![(1, var(2)), (2, con(7))]);
    let mut expr = neg(var(1));
    assert_eq!(
        copy_propagate_expr(&mut expr, &subst, 1),
        Err(CompileError::RecursionLimit)
    );
    assert_eq!(expr, neg(var(1)));
    assert_eq!(copy_propagate_expr(&mut expr, &subst, 2), Ok(()));
    assert_eq!(expr, neg(con(7)));
}

#[test]
fn a_substitution_that_goes_in_circles_runs_into_the_recursion_limit() {
    let subst = bindings(vec![(1, add(var(2), con(1))), (2, var(1))]);
    let mut expr = var(1);
    assert_eq!(
        copy_propagate_expr(&mut expr, &subst, FUEL),
        Err(CompileError::RecursionLimit)
    );
    assert_eq!(expr, var(1));
}

#[test]
fn a_definition_by_a_variable_or_a_constant_makes_an_alias() {
    let mut subst = bindings(vec![(1, con(5))]);
    let prover = witnesses(&[9]);
    let mut d = def(pvar(3), var(1));
    assert_eq!(
        copy_propagate_def(&mut d, &mut subst, &prover, FUEL),
        Ok(())
    );
    assert_eq!(d, def(pvar(3), con(5)));
    assert_eq!(subst.get(&3), Some(&con(5)));

    let mut d = def(pvar(4), var(8));
    assert_eq!(
        copy_propagate_def(&mut d, &mut subst, &prover, FUEL),
        Ok(())
    );
    assert_eq!(subst.get(&4), Some(&var(8)));

    let mut d = def(pvar(6), add(var(3), var(4)));
    assert_eq!(
        copy_propagate_def(&mut d, &mut subst, &prover, FUEL),
        Ok(())
    );
    assert_eq!(d, def(pvar(6), add(con(5), var(8))));
    assert_eq!(subst.get(&6), None);
}

#[test]
fn a_witness_is_never_made_an_alias() {
    let mut subst = bindings(vec![(1, con(5))]);
    let prover = witnesses(&[9]);
    let mut d = def(pvar(9), var(1));
    assert_eq!(
        copy_propagate_def(&mut d, &mut subst, &prover, FUEL),
        Ok(())
    );
    assert_eq!(d, def(pvar(9), con(5)));
    assert_eq!(subst.get(&9), None);
    assert_eq!(subst.len(), 1);
}

#[test]
fn copy_propagation_wants_definitions_of_variables() {
    let mut subst = HashMap::new();
    let mut d = def(Pattern::Constant(1), var(1));
    assert_eq!(
        copy_propagate_def(&mut d, &mut subst, &HashSet::new(), FUEL),
        Err(CompileError::InternalInvariantViolation)
    );
    let mut m = module(
        vec![def(pvar(1), con(2)), def(Pattern::Unit, unit())],
        vec![var(1)],
    );
    assert_eq!(
        copy_propagate(&mut m, &HashSet::new(), FUEL),
        Err(CompileError::InternalInvariantViolation)
    );
    assert_eq!(
        m,
        module(
            vec![def(pvar(1), con(2)), def(Pattern::Unit, unit())],
            vec![var(1)]
        )
    );
}

#[test]
fn aliases_are_propagated_from_left_to_right() {
    let mut m = module(
        vec![
            def(pvar(4), var(3)),
            def(pvar(1), con(5)),
            def(pvar(2), var(1)),
            def(pvar(3), add(var(2), var(1))),
            def(pvar(9), var(1)),
        ],
        vec![
            equal(var(4), var(2)),
            equal(var(9), var(1)),
            equal(var(3), var(4)),
        ],
    );
    assert_eq!(copy_propagate(&mut m, &witnesses(&[9]), FUEL), Ok(()));
    assert_eq!(
        m,
        module(
            vec![
                def(pvar(4), var(3)),
                def(pvar(1), con(5)),
                def(pvar(2), con(5)),
                def(pvar(3), add(con(5), con(5))),
                def(pvar(9), con(5)),
            ],
            vec![
                equal(var(3), con(5)),
                equal(var(9), con(5)),
                equal(var(3), var(3))
            ],
        )
    );
}

#[test]
fn an_equality_that_is_true_by_its_form_is_dropped() {
    let mut m = module(
        vec![def(pvar(1), con(1))],
        vec![
            equal(con(1), con(1)),
            equal(con(1), con(2)),
            equal(var(1), var(1)),
            equal(named("x", 1), named("y", 1)),
            equal(var(1), var(2)),
            add(var(1), var(1)),
            equal(add(var(1), con(1)), add(var(1), con(1))),
            equal(var(1), con(1)),
            int_infix(InfixOp::Equal, con(3), con(3)),
        ],
    );
    eliminate_dead_equalities(&mut m);
    assert_eq!(
        m,
        module(
            vec![def(pvar(1), con(1))],
            vec![
                equal(con(1), con(2)),
                equal(var(1), var(2)),
                add(var(1), var(1)),
                equal(add(var(1), con(1)), add(var(1), con(1))),
                equal(var(1), con(1)),
            ],
        )
    );
}

#[test]
fn a_definition_that_no_constraint_depends_on_is_dropped() {
    let mut m = module(
        vec![
            def(pvar(6), var(7)),
            def(pvar(1), add(var(2), var(3))),
            def(pvar(2), con(4)),
            def(pvar(7), var(1)),
            def(pvar(3), neg(var(5))),
        ],
        vec![equal(var(1), con(9))],
    );
    assert_eq!(eliminate_dead_definitions(&mut m), Ok(()));
    assert_eq!(
        m,
        module(
            vec![
                def(pvar(1), add(var(2), var(3))),
                def(pvar(2), con(4)),
                def(pvar(3), neg(var(5))),
            ],
            vec![equal(var(1), con(9))],
        )
    );
}

#[test]
fn the_last_definition_of_a_variable_says_what_it_depends_on() {
    let mut m = module(
        vec![
            def(pvar(1), var(2)),
            def(pvar(1), var(3)),
            def(pvar(2), con(1)),
            def(pvar(3), con(2)),
        ],
        vec![equal(var(1), con(0))],
    );
    assert_eq!(eliminate_dead_definitions(&mut m), Ok(()));
    assert_eq!(
        m,
        module(
            vec![
                def(pvar(1), var(2)),
                def(pvar(1), var(3)),
                def(pvar(3), con(2))
            ],
            vec![equal(var(1), con(0))],
        )
    );
}

#[test]
fn definitions_that_depend_on_each_other_are_found_in_any_order() {
    let mut m = module(
        vec![
            def(pvar(5), var(5)),
            def(pvar(4), var(1)),
            def(pvar(3), var(4)),
            def(pvar(2), var(3)),
            def(pvar(1), var(2)),
        ],
        vec![var(2)],
    );
    assert_eq!(eliminate_dead_definitions(&mut m), Ok(()));
    assert_eq!(
        m,
        module(
            vec![
                def(pvar(4), var(1)),
                def(pvar(3), var(4)),
                def(pvar(2), var(3)),
                def(pvar(1), var(2)),
            ],
            vec![var(2)],
        )
    );
}

#[test]
fn without_constraints_every_definition_is_dead() {
    let mut m = module(vec![def(pvar(1), con(1)), def(pvar(2), var(1))], vec![]);
    assert_eq!(eliminate_dead_definitions(&mut m), Ok(()));
    assert_eq!(m, Module::default());
}

#[test]
fn dead_definition_elimination_wants_definitions_of_variables() {
    let mut m = module(
        vec![
            def(pvar(1), con(1)),
            def(pproduct(pvar(2), pvar(3)), var(1)),
        ],
        vec![var(1)],
    );
    assert_eq!(
        eliminate_dead_definitions(&mut m),
        Err(CompileError::InternalInvariantViolation)
    );
    assert_eq!(
        m,
        module(
            vec![
                def(pvar(1), con(1)),
                def(pproduct(pvar(2), pvar(3)), var(1))
            ],
            vec![var(1)],
        )
    );
}

#[test]
fn every_variable_of_a_constraint_keeps_its_definition() {
    let mut m = module(
        vec![
            def(pvar(1), mul(var(2), var(2))),
            def(pvar(2), con(3)),
            def(pvar(3), var(9)),
            def(pvar(4), var(3)),
        ],
        vec![equal(var(1), var(4)), equal(var(8), con(1))],
    );
    let constrained: Vec<VariableId> = vec![1, 4, 8];
    let defined_before: Vec<VariableId> = m
        .defs
        .iter()
        .filter_map(|d| {
            if let Pattern::Variable(v) = &d.0 .0 {
                Some(v.id)
            } else {
                None
            }
        })
        .collect();
    let constraints_before = m.exprs.iter().map(|e| e.clone()).collect::<Vec<_>>();
    assert_eq!(eliminate_dead_definitions(&mut m), Ok(()));
    assert_eq!(m.exprs, constraints_before);
    for id in constrained {
        if defined_before.contains(&id) {
            assert!(m.defs.iter().any(|d| d.0 .0 == pvar(id)));
        }
    }
    assert_eq!(m.defs.len(), 4);
}

#[test]
fn the_variables_of_a_pattern_are_collected_under_their_identifiers() {
    let mut map = HashMap::new();
    let pat = Pattern::As(
        Box::new(pproduct(
            pnamed("a", 1),
            pcons(pnamed("b", 2), Pattern::Constant(3)),
        )),
        Variable::new(1),
    );
    collect_pattern_variables(&pat, &mut map);
    let expected: HashMap<VariableId, Variable> = [
        (
            1,
            Variable {
                name: Some("a".to_string()),
                id: 1,
            },
        ),
        (
            2,
            Variable {
                name: Some("b".to_string()),
                id: 2,
            },
        ),
    ]
    .into_iter()
    .collect();
    assert_eq!(map, expected);
}

#[test]
fn the_variables_of_an_expression_are_collected_in_the_order_of_the_text() {
    let mut map = HashMap::new();
    map.insert(7, Variable::new(7));
    let expr = let_in(pnamed("x", 1), var(2), add(named("y", 3), var(1)));
    collect_expr_variables(&expr, &mut map);
    let expected: HashMap<VariableId, Variable> = [
        (1, Variable::new(1)),
        (2, Variable::new(2)),
        (
            3,
            Variable {
                name: Some("y".to_string()),
                id: 3,
            },
        ),
        (7, Variable::new(7)),
    ]
    .into_iter()
    .collect();
    assert_eq!(map, expected);
}

#[test]
fn variables_are_collected_from_every_kind_of_expression() {
    let mut map = HashMap::new();
    let expr = seq(vec![
        func(vec![pvar(1), pvar(2)], app(var(3), neg(var(4)))),
        match_on(
            var(5),
            vec![(pvar(6), product(var(7), cons(var(8), nil())))],
        ),
        intrinsic(IntrinsicKind::Iter, vec![var(9), con(10)]),
        unit(),
    ]);
    collect_expr_variables(&expr, &mut map);
    let mut ids: Vec<VariableId> = map.keys().copied().collect();
    ids.sort();
    assert_eq!(ids, vec![1, 2, 3, 4, 5, 6, 7, 8, 9]);
}

#[test]
fn the_variables_of_a_module_are_those_of_its_definitions_and_expressions() {
    let m = module(
        vec![def(pnamed("x", 1), var(2)), def(pvar(3), named("x", 1))],
        vec![equal(var(4), named("z", 1))],
    );
    let mut map = HashMap::new();
    collect_def_variables(&m.defs[0], &mut map);
    assert_eq!(
        map.get(&1),
        Some(&Variable {
            name: Some("x".to_string()),
            id: 1
        })
    );
    assert_eq!(map.len(), 2);
    let mut map = HashMap::new();
    collect_module_variables(&m, &mut map);
    let mut ids: Vec<VariableId> = map.keys().copied().collect();
    ids.sort();
    assert_eq!(ids, vec![1, 2, 3, 4]);
    assert_eq!(
        map.get(&1),
        Some(&Variable {
            name: Some("z".to_string()),
            id: 1
        })
    );
}

fn value_of(e: &TExpr, env: &HashMap<VariableId, i64>) -> i64 {
    match &e.v {
        Expr::Constant(c) => *c as i64,
        Expr::Variable(v) => env[&v.id],
        Expr::Negate(a) => -value_of(a, env),
        Expr::Infix(InfixOp::Add, a, b) => value_of(a, env) + value_of(b, env),
        Expr::Infix(InfixOp::Subtract, a, b) => value_of(a, env) - value_of(b, env),
        Expr::Infix(InfixOp::Multiply, a, b) => value_of(a, env) * value_of(b, env),
        _ => 0,
    }
}

fn holds(c: &TExpr, env: &HashMap<VariableId, i64>) -> bool {
    match &c.v {
        Expr::Infix(InfixOp::Equal, a, b) => value_of(a, env) == value_of(b, env),
        _ => true,
    }
}

#[test]
fn copy_propagation_keeps_what_the_constraints_state() {
    let source = || {
        module(
            vec![
                def(pvar(1), con(3)),
                def(pvar(2), var(1)),
                def(pvar(3), mul(var(2), var(7))),
                def(pvar(4), var(3)),
                def(pvar(9), var(4)),
                def(pvar(5), infix(InfixOp::Subtract, var(9), var(2))),
            ],
            vec![
                equal(var(4), mul(var(1), var(7))),
                equal(var(5), add(var(3), neg(var(2)))),
                equal(var(9), var(8)),
                equal(add(var(2), var(2)), con(6)),
                equal(var(5), con(0)),
            ],
        )
    };
    let mut propagated = source();
    assert_eq!(
        copy_propagate(&mut propagated, &witnesses(&[9]), FUEL),
        Ok(())
    );
    assert_eq!(
        propagated.exprs,
        vec![
            equal(var(3), mul(con(3), var(7))),
            equal(var(5), add(var(3), neg(con(3)))),
            equal(var(9), var(8)),
            equal(add(con(3), con(3)), con(6)),
            equal(var(5), con(0)),
        ]
    );
    // Every assignment that satisfies the definitions.
    for free7 in -3..4 {
        for free8 in -3..4 {
            let mut env: HashMap<VariableId, i64> = HashMap::new();
            env.insert(7, free7);
            env.insert(8, free8);
            for d in &source().defs {
                if let Pattern::Variable(v) = &d.0 .0 {
                    let value = value_of(&d.0 .1, &env);
                    env.insert(v.id, value);
                }
            }
            for d in &propagated.defs {
                if let Pattern::Variable(v) = &d.0 .0 {
                    assert_eq!(env[&v.id], value_of(&d.0 .1, &env));
                }
            }
            for (before, after) in source().exprs.iter().zip(propagated.exprs.iter()) {
                assert_eq!(holds(before, &env), holds(after, &env));
            }
        }
    }
}
