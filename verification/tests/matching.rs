#![allow(dead_code)]

use std::collections::{HashMap, HashSet};
use vamp_ir::ast::{
    Definition, Expr, Function, InfixOp, Intrinsic, IntrinsicKind, LetBinding, Match, Module,
    Pattern, TExpr, Type, Variable, VariableId,
};
use vamp_ir::error::CompileError;
use vamp_ir::vargen::VarGen;

fn var(id: VariableId) -> TExpr {
    TExpr::untyped(Expr::Variable(Variable::new(id)))
}

fn named(name: &str, id: VariableId) -> TExpr {
    TExpr::untyped(Expr::Variable(Variable {
        name: Some(name.to_string()),
        id,
    }))
}

fn con(c: i32) -> TExpr {
    TExpr::untyped(Expr::Constant(c))
}

fn unit() -> TExpr {
    TExpr::untyped(Expr::Unit)
}

fn nil() -> TExpr {
    TExpr::untyped(Expr::Nil)
}

fn infix(op: InfixOp, a: TExpr, b: TExpr) -> TExpr {
    TExpr::untyped(Expr::Infix(op, Box::new(a), Box::new(b)))
}

fn int_infix(op: InfixOp, a: TExpr, b: TExpr) -> TExpr {
    TExpr {
        v: Expr::Infix(op, Box::new(a), Box::new(b)),
        t: Some(Type::Int),
    }
}

fn mul(a: TExpr, b: TExpr) -> TExpr {
    infix(InfixOp::Multiply, a, b)
}

fn add(a: TExpr, b: TExpr) -> TExpr {
    infix(InfixOp::Add, a, b)
}

fn equal(a: TExpr, b: TExpr) -> TExpr {
    infix(InfixOp::Equal, a, b)
}

fn power(a: TExpr, k: i32) -> TExpr {
    infix(InfixOp::Exponentiate, a, con(k))
}

fn neg(a: TExpr) -> TExpr {
    TExpr::untyped(Expr::Negate(Box::new(a)))
}

fn product(a: TExpr, b: TExpr) -> TExpr {
    TExpr::untyped(Expr::Product(Box::new(a), Box::new(b)))
}

fn cons(a: TExpr, b: TExpr) -> TExpr {
    TExpr::untyped(Expr::Cons(Box::new(a), Box::new(b)))
}

fn app(f: TExpr, x: TExpr) -> TExpr {
    TExpr::untyped(Expr::Application(Box::new(f), Box::new(x)))
}

fn seq(es: Vec<TExpr>) -> TExpr {
    TExpr::untyped(Expr::Sequence(es))
}

fn func(params: Vec<Pattern>, body: TExpr) -> TExpr {
    TExpr::untyped(Expr::Function(Function(params, Box::new(body))))
}

fn let_in(p: Pattern, bound: TExpr, body: TExpr) -> TExpr {
    TExpr::untyped(Expr::LetBinding(
        LetBinding(p, Box::new(bound)),
        Box::new(body),
    ))
}

fn match_on(s: TExpr, branches: Vec<(Pattern, TExpr)>) -> TExpr {
    TExpr::untyped(Expr::Match(Match(Box::new(s), branches)))
}

fn intrinsic(kind: IntrinsicKind, args: Vec<TExpr>) -> TExpr {
    TExpr::untyped(Expr::Intrinsic(Intrinsic {
        arity: 1,
        imp_typ: Type::Unit,
        imp: kind,
        args,
    }))
}

fn pvar(id: VariableId) -> Pattern {
    Pattern::Variable(Variable::new(id))
}

fn pnamed(name: &str, id: VariableId) -> Pattern {
    Pattern::Variable(Variable {
        name: Some(name.to_string()),
        id,
    })
}

fn pproduct(a: Pattern, b: Pattern) -> Pattern {
    Pattern::Product(Box::new(a), Box::new(b))
}

fn pcons(a: Pattern, b: Pattern) -> Pattern {
    Pattern::Cons(Box::new(a), Box::new(b))
}

fn alias(p: Pattern, id: VariableId) -> Pattern {
    Pattern::As(Box::new(p), Variable::new(id))
}

fn def(p: Pattern, e: TExpr) -> Definition {
    Definition(LetBinding(p, Box::new(e)))
}

fn module(defs: Vec<Definition>, exprs: Vec<TExpr>) -> Module {
    Module { defs, exprs }
}

fn witnesses(ids: &[VariableId]) -> HashSet<VariableId> {
    ids.iter().copied().collect()
}

fn bindings(pairs: Vec<(VariableId, TExpr)>) -> HashMap<VariableId, TExpr> {
    pairs.into_iter().collect()
}

const FUEL: usize = 1000;

use vamp_ir::matching::{match_pattern_expr, Tribool};

#[test]
fn the_minimum_of_two_outcomes_follows_false_indeterminate_true() {
    let all = [Tribool::False, Tribool::Indeterminate, Tribool::True];
    for (i, a) in all.iter().enumerate() {
        for (j, b) in all.iter().enumerate() {
            assert_eq!(a.min(*b), all[i.min(j)]);
        }
    }
}

#[test]
fn a_variable_pattern_accepts_anything_and_binds_it_without_its_type() {
    let mut map = HashMap::new();
    let mut prover = HashSet::new();
    let mut gen = VarGen::new();
    let value = int_infix(InfixOp::Add, var(8), con(1));
    let r = match_pattern_expr(&pvar(1), &value, &mut map, &mut prover, &mut gen, FUEL);
    assert_eq!(r, Ok(Tribool::True));
    assert_eq!(map.get(&1), Some(&add(var(8), con(1))));
}

#[test]
fn an_alias_binds_the_whole_value_with_its_type() {
    let mut map = HashMap::new();
    let mut prover = HashSet::new();
    let mut gen = VarGen::new();
    let value = TExpr {
        v: Expr::Product(Box::new(con(1)), Box::new(con(2))),
        t: Some(Type::Int),
    };
    let pat = alias(pproduct(pvar(1), Pattern::Constant(3)), 9);
    let r = match_pattern_expr(&pat, &value, &mut map, &mut prover, &mut gen, FUEL);
    assert_eq!(r, Ok(Tribool::False));
    assert_eq!(
        map.get(&9),
        Some(&TExpr {
            v: Expr::Product(Box::new(con(1)), Box::new(con(2))),
            t: Some(Type::Int)
        })
    );
    assert_eq!(map.get(&1), Some(&con(1)));
}

#[test]
fn a_bound_variable_stands_for_its_binding() {
    let mut map = bindings(vec![(5, var(6)), (6, con(4))]);
    let mut prover = HashSet::new();
    let mut gen = VarGen::new();
    let r = match_pattern_expr(
        &Pattern::Constant(4),
        &var(5),
        &mut map,
        &mut prover,
        &mut gen,
        FUEL,
    );
    assert_eq!(r, Ok(Tribool::True));
    let r = match_pattern_expr(&pvar(1), &var(5), &mut map, &mut prover, &mut gen, FUEL);
    assert_eq!(r, Ok(Tribool::True));
    assert_eq!(map.get(&1), Some(&con(4)));
}

#[test]
fn components_are_all_matched_and_the_weakest_outcome_wins() {
    let value = product(con(1), product(var(7), con(3)));
    let pat = pproduct(
        Pattern::Constant(2),
        pproduct(Pattern::Constant(5), pvar(1)),
    );
    let mut map = HashMap::new();
    let mut prover = HashSet::new();
    let mut gen = VarGen::new();
    let r = match_pattern_expr(&pat, &value, &mut map, &mut prover, &mut gen, FUEL);
    assert_eq!(r, Ok(Tribool::False));
    assert_eq!(map.get(&1), Some(&con(3)));

    let pat = pproduct(
        Pattern::Constant(1),
        pproduct(Pattern::Constant(5), pvar(1)),
    );
    let r = match_pattern_expr(&pat, &value, &mut map, &mut prover, &mut gen, FUEL);
    assert_eq!(r, Ok(Tribool::Indeterminate));

    let pat = pproduct(
        Pattern::Constant(1),
        pproduct(pvar(2), Pattern::Constant(3)),
    );
    let r = match_pattern_expr(&pat, &value, &mut map, &mut prover, &mut gen, FUEL);
    assert_eq!(r, Ok(Tribool::True));
    assert_eq!(map.get(&2), Some(&var(7)));
}

#[test]
fn an_opaque_variable_is_split_into_two_fresh_variables() {
    let mut map = HashMap::new();
    let mut prover = HashSet::new();
    let mut gen = VarGen::starting_at(30);
    let pat = pproduct(pvar(1), pvar(2));
    let r = match_pattern_expr(&pat, &var(9), &mut map, &mut prover, &mut gen, FUEL);
    assert_eq!(r, Ok(Tribool::True));
    assert_eq!(map.get(&9), Some(&product(var(30), var(31))));
    assert_eq!(map.get(&1), Some(&var(30)));
    assert_eq!(map.get(&2), Some(&var(31)));
    assert!(prover.is_empty());
    assert_eq!(gen.generate_id(), 32);
}

#[test]
fn the_parts_of_a_split_witness_are_witnesses() {
    let mut map = HashMap::new();
    let mut prover = witnesses(&[9]);
    let mut gen = VarGen::starting_at(30);
    let pat = pcons(pvar(1), pvar(2));
    let r = match_pattern_expr(&pat, &var(9), &mut map, &mut prover, &mut gen, FUEL);
    assert_eq!(r, Ok(Tribool::True));
    assert_eq!(map.get(&9), Some(&cons(var(30), var(31))));
    assert_eq!(prover, witnesses(&[9, 30, 31]));
}

#[test]
fn unit_and_the_empty_list_match_themselves() {
    let mut map = HashMap::new();
    let mut prover = HashSet::new();
    let mut gen = VarGen::new();
    assert_eq!(
        match_pattern_expr(
            &Pattern::Unit,
            &unit(),
            &mut map,
            &mut prover,
            &mut gen,
            FUEL
        ),
        Ok(Tribool::True)
    );
    assert_eq!(
        match_pattern_expr(&Pattern::Nil, &nil(), &mut map, &mut prover, &mut gen, FUEL),
        Ok(Tribool::True)
    );
    assert!(map.is_empty());
}

#[test]
fn a_constant_decides_on_constants_only() {
    let mut map = HashMap::new();
    let mut prover = HashSet::new();
    let mut gen = VarGen::new();
    let five = Pattern::Constant(5);
    assert_eq!(
        match_pattern_expr(&five, &con(5), &mut map, &mut prover, &mut gen, FUEL),
        Ok(Tribool::True)
    );
    assert_eq!(
        match_pattern_expr(&five, &con(6), &mut map, &mut prover, &mut gen, FUEL),
        Ok(Tribool::False)
    );
    assert_eq!(
        match_pattern_expr(&five, &var(1), &mut map, &mut prover, &mut gen, FUEL),
        Ok(Tribool::Indeterminate)
    );
    assert_eq!(
        match_pattern_expr(
            &five,
            &add(var(1), con(2)),
            &mut map,
            &mut prover,
            &mut gen,
            FUEL
        ),
        Ok(Tribool::Indeterminate)
    );
}

#[test]
fn a_shape_that_typing_excludes_is_an_internal_error() {
    let mut map = HashMap::new();
    let mut prover = HashSet::new();
    let mut gen = VarGen::new();
    for (pat, value) in [
        (Pattern::Unit, con(1)),
        (Pattern::Nil, unit()),
        (Pattern::Constant(1), unit()),
        (Pattern::Constant(1), neg(var(1))),
        (pproduct(pvar(1), pvar(2)), con(1)),
        (pproduct(pvar(1), pvar(2)), cons(con(1), nil())),
        (pcons(pvar(1), pvar(2)), product(con(1), con(2))),
    ] {
        assert_eq!(
            match_pattern_expr(&pat, &value, &mut map, &mut prover, &mut gen, FUEL),
            Err(CompileError::InternalInvariantViolation)
        );
    }
}

#[test]
fn a_cyclic_environment_runs_into_the_recursion_limit() {
    let mut map = bindings(vec![(1, var(2)), (2, var(1))]);
    let mut prover = HashSet::new();
    let mut gen = VarGen::new();
    assert_eq!(
        match_pattern_expr(&pvar(3), &var(1), &mut map, &mut prover, &mut gen, FUEL),
        Err(CompileError::RecursionLimit)
    );
}

#[test]
fn matching_needs_one_unit_of_fuel_for_each_step_inwards() {
    let value = product(con(1), con(2));
    let pat = pproduct(pvar(1), pvar(2));
    let mut prover = HashSet::new();
    let mut gen = VarGen::new();
    let mut map = HashMap::new();
    assert_eq!(
        match_pattern_expr(&pat, &value, &mut map, &mut prover, &mut gen, 0),
        Err(CompileError::RecursionLimit)
    );
    let mut map = HashMap::new();
    assert_eq!(
        match_pattern_expr(&pat, &value, &mut map, &mut prover, &mut gen, 1),
        Ok(Tribool::True)
    );
}

#[test]
fn splitting_fails_when_the_identifiers_run_out() {
    let mut map = HashMap::new();
    let mut prover = HashSet::new();
    let mut gen = VarGen::starting_at(u32::MAX - 1);
    assert_eq!(
        match_pattern_expr(
            &pproduct(pvar(1), pvar(2)),
            &var(9),
            &mut map,
            &mut prover,
            &mut gen,
            FUEL
        ),
        Err(CompileError::IdentifiersExhausted)
    );
}
