#![allow(dead_code)]

use std::collections::{HashMap, HashSet};
use vamp_ir::ast::{
    Definition, Expr, Function, InfixOp, Intrinsic, IntrinsicKind, LetBinding, Match, Module,
    Pattern, TExpr, Type, Variable, VariableId,
};
use vamp_ir::error::CompileError;
use vamp_ir::vargen::VarGen;

fn var(id: VariableId) -> TExpr {
    TExpr::untyped(Expr::Variable(Variable::new(id)))
}

fn named(name: &str, id: VariableId) -> TExpr {
    TExpr::untyped(Expr::Variable(Variable {
        name: Some(name.to_string()),
        id,
    }))
}

fn con(c: i32) -> TExpr {
    TExpr::untyped(Expr::Constant(c))
}

fn unit() -> TExpr {
    TExpr::untyped(Expr::Unit)
}

fn nil() -> TExpr {
    TExpr::untyped(Expr::Nil)
}

fn infix(op: InfixOp, a: TExpr, b: TExpr) -> TExpr {
    TExpr::untyped(Expr::Infix(op, Box::new(a), Box::new(b)))
}

fn int_infix(op: InfixOp, a: TExpr, b: TExpr) -> TExpr {
    TExpr {
        v: Expr::Infix(op, Box::new(a), Box::new(b)),
        t: Some(Type::Int),
    }
}

fn mul(a: TExpr, b: TExpr) -> TExpr {
    infix(InfixOp::Multiply, a, b)
}

fn add(a: TExpr, b: TExpr) -> TExpr {
    infix(InfixOp::Add, a, b)
}

fn equal(a: TExpr, b: TExpr) -> TExpr {
    infix(InfixOp::Equal, a, b)
}

fn power(a: TExpr, k: i32) -> TExpr {
    infix(InfixOp::Exponentiate, a, con(k))
}

fn neg(a: TExpr) -> TExpr {
    TExpr::untyped(Expr::Negate(Box::new(a)))
}

fn product(a: TExpr, b: TExpr) -> TExpr {
    TExpr::untyped(Expr::Product(Box::new(a), Box::new(b)))
}

fn cons(a: TExpr, b: TExpr) -> TExpr {
    TExpr::untyped(Expr::Cons(Box::new(a), Box::new(b)))
}

fn app(f: TExpr, x: TExpr) -> TExpr {
    TExpr::untyped(Expr::Application(Box::new(f), Box::new(x)))
}

fn seq(es: Vec<TExpr>) -> TExpr {
    TExpr::untyped(Expr::Sequence(es))
}

fn func(params: Vec<Pattern>, body: TExpr) -> TExpr {
    TExpr::untyped(Expr::Function(Function(params, Box::new(body))))
}

fn let_in(p: Pattern, bound: TExpr, body: TExpr) -> TExpr {
    TExpr::untyped(Expr::LetBinding(
        LetBinding(p, Box::new(bound)),
        Box::new(body),
    ))
}

fn match_on(s: TExpr, branches: Vec<(Pattern, TExpr)>) -> TExpr {
    TExpr::untyped(Expr::Match(Match(Box::new(s), branches)))
}

fn intrinsic(kind: IntrinsicKind, args: Vec<TExpr>) -> TExpr {
    TExpr::untyped(Expr::Intrinsic(Intrinsic {
        arity: 1,
        imp_typ: Type::Unit,
        imp: kind,
        args,
    }))
}

fn pvar(id: VariableId) -> Pattern {
    Pattern::Variable(Variable::new(id))
}

fn pnamed(name: &str, id: VariableId) -> Pattern {
    Pattern::Variable(Variable {
        name: Some(name.to_string()),
        id,
    })
}

fn pproduct(a: Pattern, b: Pattern) -> Pattern {
    Pattern::Product(Box::new(a), Box::new(b))
}

fn pcons(a: Pattern, b: Pattern) -> Pattern {
    Pattern::Cons(Box::new(a), Box::new(b))
}

fn alias(p: Pattern, id: VariableId) -> Pattern {
    Pattern::As(Box::new(p), Variable::new(id))
}

fn def(p: Pattern, e: TExpr) -> Definition {
    Definition(LetBinding(p, Box::new(e)))
}

fn module(defs: Vec<Definition>, exprs: Vec<TExpr>) -> Module {
    Module { defs, exprs }
}

fn witnesses(ids: &[VariableId]) -> HashSet<VariableId> {
    ids.iter().copied().collect()
}

fn bindings(pairs: Vec<(VariableId, TExpr)>) -> HashMap<VariableId, TExpr> {
    pairs.into_iter().collect()
}

const FUEL: usize = 1000;

use vamp_ir::inline::{
    apply_def_functions, apply_functions, apply_module_functions, normalize_expr,
};

fn inlined(e: &TExpr) -> bool {
    match &e.v {
        Expr::Application(_, _) | Expr::Match(_) => false,
        Expr::Function(_) => true,
        Expr::Sequence(es) => es.iter().all(inlined),
        Expr::Intrinsic(i) => i.args.iter().all(inlined),
        Expr::Infix(_, a, b) | Expr::Product(a, b) | Expr::Cons(a, b) => inlined(a) && inlined(b),
        Expr::Negate(a) => inlined(a),
        Expr::LetBinding(b, body) => inlined(&b.1) && inlined(body),
        _ => true,
    }
}

fn double() -> TExpr {
    func(vec![pvar(1)], mul(var(1), con(2)))
}

#[test]
fn an_applied_function_becomes_a_binding_of_its_parameter() {
    let mut expr = app(double(), con(3));
    let mut prover = HashSet::new();
    let mut gen = VarGen::starting_at(10);
    let value = apply_functions(&mut expr, &HashMap::new(), &mut prover, &mut gen, FUEL).unwrap();
    assert_eq!(expr, let_in(pvar(10), con(3), mul(var(10), con(2))));
    assert_eq!(value, mul(con(3), con(2)));
    assert_eq!(gen.generate_id(), 11);
}

#[test]
fn a_function_of_two_parameters_takes_its_arguments_one_by_one() {
    let plus = func(vec![pvar(1), pvar(2)], add(var(1), var(2)));
    let mut expr = app(app(plus, con(1)), con(2));
    let mut prover = HashSet::new();
    let mut gen = VarGen::starting_at(10);
    let value = apply_functions(&mut expr, &HashMap::new(), &mut prover, &mut gen, FUEL).unwrap();
    assert_eq!(
        expr,
        let_in(
            pvar(10),
            con(1),
            let_in(pvar(12), con(2), add(var(10), var(12)))
        )
    );
    assert_eq!(value, add(con(1), con(2)));
    assert_eq!(gen.generate_id(), 13);
}

#[test]
fn a_partial_application_is_a_function_with_the_argument_filled_in() {
    let plus = func(vec![pvar(1), pvar(2)], add(var(1), var(2)));
    let mut expr = app(plus, con(1));
    let mut prover = HashSet::new();
    let mut gen = VarGen::starting_at(10);
    let value = apply_functions(&mut expr, &HashMap::new(), &mut prover, &mut gen, FUEL).unwrap();
    assert_eq!(
        expr,
        let_in(
            pvar(10),
            con(1),
            func(vec![pvar(11)], add(var(10), var(11)))
        )
    );
    assert_eq!(value, func(vec![pvar(11)], add(con(1), var(11))));
}

#[test]
fn a_bound_callee_is_replaced_by_its_binding() {
    let env = bindings(vec![(5, double())]);
    let mut expr = app(var(5), con(7));
    let mut prover = HashSet::new();
    let mut gen = VarGen::starting_at(10);
    let value = apply_functions(&mut expr, &env, &mut prover, &mut gen, FUEL).unwrap();
    assert_eq!(expr, let_in(pvar(10), con(7), mul(var(10), con(2))));
    assert_eq!(value, mul(con(7), con(2)));
}

#[test]
fn an_unbound_or_witness_callee_is_an_unbound_variable() {
    let mut prover = HashSet::new();
    let mut gen = VarGen::new();
    let mut expr = app(named("f", 5), con(7));
    assert_eq!(
        apply_functions(&mut expr, &HashMap::new(), &mut prover, &mut gen, FUEL),
        Err(CompileError::UnboundVariable(Variable {
            name: Some("f".to_string()),
            id: 5
        }))
    );
    assert_eq!(expr, app(named("f", 5), con(7)));
    let env = bindings(vec![(5, double())]);
    let mut prover = witnesses(&[5]);
    assert_eq!(
        apply_functions(&mut expr, &env, &mut prover, &mut gen, FUEL),
        Err(CompileError::UnboundVariable(Variable {
            name: Some("f".to_string()),
            id: 5
        }))
    );
}

#[test]
fn a_value_that_is_no_function_cannot_be_applied() {
    let mut prover = HashSet::new();
    let mut gen = VarGen::new();
    for callee in [
        con(1),
        unit(),
        nil(),
        neg(var(1)),
        add(var(1), con(2)),
        product(con(1), con(2)),
        cons(con(1), nil()),
    ] {
        let mut expr = app(callee.clone(), con(7));
        assert_eq!(
            apply_functions(&mut expr, &HashMap::new(), &mut prover, &mut gen, FUEL),
            Err(CompileError::NotAFunction(callee))
        );
    }
}

#[test]
fn an_application_moves_into_the_body_of_a_binding_and_the_end_of_a_sequence() {
    let mut prover = HashSet::new();
    let mut gen = VarGen::starting_at(10);
    let mut expr = app(
        let_in(pvar(1), con(4), func(vec![pvar(2)], add(var(1), var(2)))),
        con(5),
    );
    let value = apply_functions(&mut expr, &HashMap::new(), &mut prover, &mut gen, FUEL).unwrap();
    assert_eq!(
        expr,
        let_in(
            pvar(1),
            con(4),
            let_in(pvar(10), con(5), add(var(1), var(10)))
        )
    );
    assert_eq!(value, add(con(4), con(5)));

    let mut gen = VarGen::starting_at(10);
    let mut expr = app(seq(vec![con(0), double()]), con(5));
    let value = apply_functions(&mut expr, &HashMap::new(), &mut prover, &mut gen, FUEL).unwrap();
    assert_eq!(
        expr,
        seq(vec![con(0), let_in(pvar(10), con(5), mul(var(10), con(2)))])
    );
    assert_eq!(value, mul(con(5), con(2)));
}

#[test]
fn the_first_branch_that_accepts_the_scrutinee_is_taken() {
    let mut expr = match_on(
        con(2),
        vec![
            (Pattern::Constant(1), con(10)),
            (Pattern::Constant(2), con(20)),
            (pvar(1), con(30)),
        ],
    );
    let mut prover = HashSet::new();
    let mut gen = VarGen::new();
    let value = apply_functions(&mut expr, &HashMap::new(), &mut prover, &mut gen, FUEL).unwrap();
    assert_eq!(expr, let_in(Pattern::Constant(2), con(2), con(20)));
    assert_eq!(value, con(20));
}

#[test]
fn a_match_binds_the_variables_of_the_branch_it_takes() {
    let mut expr = match_on(
        product(con(1), con(5)),
        vec![
            (pproduct(Pattern::Constant(0), pvar(1)), var(1)),
            (pproduct(Pattern::Constant(1), pvar(2)), add(var(2), con(1))),
        ],
    );
    let mut prover = HashSet::new();
    let mut gen = VarGen::new();
    let value = apply_functions(&mut expr, &HashMap::new(), &mut prover, &mut gen, FUEL).unwrap();
    assert_eq!(
        expr,
        let_in(
            pproduct(Pattern::Constant(1), pvar(2)),
            product(con(1), con(5)),
            add(var(2), con(1)),
        )
    );
    assert_eq!(value, add(con(5), con(1)));
}

#[test]
fn a_match_that_cannot_be_decided_is_an_error() {
    let mut expr = match_on(
        var(9),
        vec![(Pattern::Constant(1), con(10)), (pvar(1), con(30))],
    );
    let mut prover = HashSet::new();
    let mut gen = VarGen::new();
    assert_eq!(
        apply_functions(&mut expr, &HashMap::new(), &mut prover, &mut gen, FUEL),
        Err(CompileError::IndeterminateMatch(
            Pattern::Constant(1),
            var(9)
        ))
    );
}

#[test]
fn a_match_without_an_accepting_branch_is_an_error() {
    let mut expr = match_on(add(con(1), con(2)), vec![]);
    let mut prover = HashSet::new();
    let mut gen = VarGen::new();
    assert_eq!(
        apply_functions(&mut expr, &HashMap::new(), &mut prover, &mut gen, FUEL),
        Err(CompileError::NonExhaustiveMatch(add(con(1), con(2))))
    );
    let mut expr = match_on(con(3), vec![(Pattern::Constant(1), con(10))]);
    assert_eq!(
        apply_functions(&mut expr, &HashMap::new(), &mut prover, &mut gen, FUEL),
        Err(CompileError::NonExhaustiveMatch(con(3)))
    );
}

#[test]
fn a_sequence_has_the_value_of_its_last_element() {
    let env = bindings(vec![(1, con(5))]);
    let mut expr = seq(vec![con(1), add(var(1), con(2))]);
    let mut prover = HashSet::new();
    let mut gen = VarGen::new();
    let value = apply_functions(&mut expr, &env, &mut prover, &mut gen, FUEL).unwrap();
    assert_eq!(expr, seq(vec![con(1), add(var(1), con(2))]));
    assert_eq!(value, add(con(5), con(2)));
    let mut empty = seq(vec![]);
    assert_eq!(
        apply_functions(&mut empty, &env, &mut prover, &mut gen, FUEL),
        Err(CompileError::InternalInvariantViolation)
    );
}

#[test]
fn a_variable_evaluates_to_its_binding_unless_it_is_a_witness() {
    let env = bindings(vec![(1, con(5)), (2, con(6))]);
    let mut prover = witnesses(&[2]);
    let mut gen = VarGen::new();
    let mut expr = product(var(1), product(var(2), var(3)));
    let value = apply_functions(&mut expr, &env, &mut prover, &mut gen, FUEL).unwrap();
    assert_eq!(expr, product(var(1), product(var(2), var(3))));
    assert_eq!(value, product(con(5), product(var(2), var(3))));
}

#[test]
fn a_value_loses_its_type_and_a_tree_keeps_it() {
    let typed = |v: Expr| TExpr {
        v,
        t: Some(Type::Int),
    };
    let mut expr = typed(Expr::Negate(Box::new(typed(Expr::Constant(4)))));
    let mut prover = HashSet::new();
    let mut gen = VarGen::new();
    let value = apply_functions(&mut expr, &HashMap::new(), &mut prover, &mut gen, FUEL).unwrap();
    assert_eq!(
        expr,
        typed(Expr::Negate(Box::new(typed(Expr::Constant(4)))))
    );
    assert_eq!(value, neg(con(4)));
}

#[test]
fn a_tuple_pattern_gives_an_opaque_variable_its_shape() {
    let mut expr = let_in(pproduct(pvar(1), pvar(2)), var(9), add(var(1), var(2)));
    let mut prover = HashSet::new();
    let mut gen = VarGen::starting_at(30);
    let value = apply_functions(&mut expr, &HashMap::new(), &mut prover, &mut gen, FUEL).unwrap();
    assert_eq!(
        expr,
        let_in(pproduct(pvar(1), pvar(2)), var(9), add(var(1), var(2)))
    );
    assert_eq!(value, add(var(30), var(31)));
}

#[test]
fn fresh_makes_a_witness_that_is_never_replaced_by_its_definition() {
    let env = bindings(vec![
        (0, intrinsic(IntrinsicKind::Fresh, vec![])),
        (4, con(2)),
    ]);
    let mut expr = let_in(
        pvar(5),
        app(var(0), mul(var(4), var(4))),
        equal(var(5), mul(var(4), var(4))),
    );
    let mut prover = HashSet::new();
    let mut gen = VarGen::starting_at(6);
    let value = apply_functions(&mut expr, &env, &mut prover, &mut gen, FUEL).unwrap();
    assert_eq!(
        expr,
        let_in(
            pvar(5),
            let_in(pvar(6), mul(con(2), con(2)), var(6)),
            equal(var(5), mul(var(4), var(4))),
        )
    );
    assert_eq!(value, equal(var(6), mul(con(2), con(2))));
    assert_eq!(prover, witnesses(&[6]));
}

#[test]
fn iter_unrolls_a_loop_at_compile_time() {
    let successor = func(vec![pvar(1)], add(var(1), con(1)));
    let env = bindings(vec![
        (2, intrinsic(IntrinsicKind::Iter, vec![])),
        (20, successor),
    ]);
    let mut expr = app(app(app(var(2), con(2)), var(20)), con(5));
    let mut prover = HashSet::new();
    let mut gen = VarGen::starting_at(100);
    let value = apply_functions(&mut expr, &env, &mut prover, &mut gen, FUEL).unwrap();
    assert_eq!(value, add(add(con(5), con(1)), con(1)));
    assert!(inlined(&expr));
}

#[test]
fn a_computation_that_does_not_end_runs_into_the_recursion_limit() {
    let omega = func(vec![pvar(1)], app(var(1), var(1)));
    let mut expr = app(omega.clone(), omega);
    let mut prover = HashSet::new();
    let mut gen = VarGen::new();
    assert_eq!(
        apply_functions(&mut expr, &HashMap::new(), &mut prover, &mut gen, 200),
        Err(CompileError::RecursionLimit)
    );
}

#[test]
fn normalizing_needs_fuel_for_every_level_of_nesting() {
    let expr = neg(neg(con(1)));
    let mut prover = HashSet::new();
    let mut gen = VarGen::new();
    assert_eq!(
        normalize_expr(&expr, &HashMap::new(), &mut prover, &mut gen, 2),
        Err(CompileError::RecursionLimit)
    );
    assert_eq!(
        normalize_expr(&expr, &HashMap::new(), &mut prover, &mut gen, 3),
        Ok((neg(neg(con(1))), neg(neg(con(1)))))
    );
}

#[test]
fn inlining_an_application_fails_when_the_identifiers_run_out() {
    let mut expr = app(double(), con(3));
    let mut prover = HashSet::new();
    let mut gen = VarGen::starting_at(u32::MAX);
    assert_eq!(
        apply_functions(&mut expr, &HashMap::new(), &mut prover, &mut gen, FUEL),
        Err(CompileError::IdentifiersExhausted)
    );
}

#[test]
fn a_definition_binds_its_pattern_for_what_follows() {
    let mut env = HashMap::new();
    let mut prover = HashSet::new();
    let mut gen = VarGen::starting_at(10);
    let mut d = def(
        pproduct(pvar(1), pvar(2)),
        product(con(3), app(double(), con(4))),
    );
    apply_def_functions(&mut d, &mut env, &mut prover, &mut gen, FUEL).unwrap();
    assert_eq!(
        d,
        def(
            pproduct(pvar(1), pvar(2)),
            product(con(3), let_in(pvar(10), con(4), mul(var(10), con(2)))),
        )
    );
    assert_eq!(env.get(&1), Some(&con(3)));
    assert_eq!(env.get(&2), Some(&mul(con(4), con(2))));
}

#[test]
fn a_module_is_inlined_definition_by_definition() {
    let mut m = module(
        vec![def(pvar(1), double()), def(pvar(2), app(var(1), con(3)))],
        vec![equal(var(2), app(var(1), var(7)))],
    );
    let mut env = HashMap::new();
    let mut prover = HashSet::new();
    let mut gen = VarGen::starting_at(10);
    apply_module_functions(&mut m, &mut env, &mut prover, &mut gen, FUEL).unwrap();
    assert_eq!(
        m,
        module(
            vec![
                def(pvar(1), func(vec![pvar(1)], mul(var(1), con(2)))),
                def(pvar(2), let_in(pvar(10), con(3), mul(var(10), con(2)))),
            ],
            vec![equal(
                var(2),
                let_in(pvar(11), var(7), mul(var(11), con(2)))
            )],
        )
    );
    assert_eq!(env.get(&2), Some(&mul(con(3), con(2))));
    assert!(m.defs.iter().all(|d| inlined(&d.0 .1)));
    assert!(m.exprs.iter().all(inlined));
    assert!(env.values().all(inlined));
}

#[test]
fn a_module_that_cannot_be_inlined_is_left_as_it_was() {
    let mut m = module(
        vec![def(pvar(2), app(double(), con(3)))],
        vec![app(con(1), con(2))],
    );
    let mut env = HashMap::new();
    let mut prover = HashSet::new();
    let mut gen = VarGen::starting_at(10);
    assert_eq!(
        apply_module_functions(&mut m, &mut env, &mut prover, &mut gen, FUEL),
        Err(CompileError::NotAFunction(con(1)))
    );
    assert_eq!(
        m,
        module(
            vec![def(pvar(2), app(double(), con(3)))],
            vec![app(con(1), con(2))]
        )
    );
}

#[test]
fn more_fuel_than_a_computation_needs_changes_nothing() {
    let successor = func(vec![pvar(1)], add(var(1), con(1)));
    let env = bindings(vec![
        (2, intrinsic(IntrinsicKind::Iter, vec![])),
        (20, successor),
    ]);
    let program = app(app(app(var(2), con(3)), var(20)), con(5));
    let run = |fuel: usize| {
        let mut prover = HashSet::new();
        let mut gen = VarGen::starting_at(100);
        let outcome = normalize_expr(&program, &env, &mut prover, &mut gen, fuel);
        (outcome, prover, gen.generate_id())
    };
    let least = (1..200)
        .find(|fuel| run(*fuel).0 != Err(CompileError::RecursionLimit))
        .unwrap();
    assert!(least > 1);
    assert_eq!(run(least - 1).0, Err(CompileError::RecursionLimit));
    assert!(run(least).0.is_ok());
    for fuel in [least + 1, 2 * least, FUEL] {
        assert_eq!(run(fuel), run(least));
    }
}
