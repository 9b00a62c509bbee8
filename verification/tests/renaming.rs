#![allow(dead_code)]

use std::collections::{HashMap, HashSet};
use vamp_ir::ast::{
    Definition, Expr, Function, InfixOp, Intrinsic, IntrinsicKind, LetBinding, Match, Module,
    Pattern, TExpr, Type, Variable, VariableId,
};
use vamp_ir::error::CompileError;
use vamp_ir::vargen::VarGen;

fn var(id: VariableId) -> TExpr {
    TExpr::untyped(Expr::Variable(Variable::new(id)))
}

fn named(name: &str, id: VariableId) -> TExpr {
    TExpr::untyped(Expr::Variable(Variable {
        name: Some(name.to_string()),
        id,
    }))
}

fn con(c: i32) -> TExpr {
    TExpr::untyped(Expr::Constant(c))
}

fn unit() -> TExpr {
    TExpr::untyped(Expr::Unit)
}

fn nil() -> TExpr {
    TExpr::untyped(Expr::Nil)
}

fn infix(op: InfixOp, a: TExpr, b: TExpr) -> TExpr {
    TExpr::untyped(Expr::Infix(op, Box::new(a), Box::new(b)))
}

fn int_infix(op: InfixOp, a: TExpr, b: TExpr) -> TExpr {
    TExpr {
        v: Expr::Infix(op, Box::new(a), Box::new(b)),
        t: Some(Type::Int),
    }
}

fn mul(a: TExpr, b: TExpr) -> TExpr {
    infix(InfixOp::Multiply, a, b)
}

fn add(a: TExpr, b: TExpr) -> TExpr {
    infix(InfixOp::Add, a, b)
}

fn equal(a: TExpr, b: TExpr) -> TExpr {
    infix(InfixOp::Equal, a, b)
}

fn power(a: TExpr, k: i32) -> TExpr {
    infix(InfixOp::Exponentiate, a, con(k))
}

fn neg(a: TExpr) -> TExpr {
    TExpr::untyped(Expr::Negate(Box::new(a)))
}

fn product(a: TExpr, b: TExpr) -> TExpr {
    TExpr::untyped(Expr::Product(Box::new(a), Box::new(b)))
}

fn cons(a: TExpr, b: TExpr) -> TExpr {
    TExpr::untyped(Expr::Cons(Box::new(a), Box::new(b)))
}

fn app(f: TExpr, x: TExpr) -> TExpr {
    TExpr::untyped(Expr::Application(Box::new(f), Box::new(x)))
}

fn seq(es: Vec<TExpr>) -> TExpr {
    TExpr::untyped(Expr::Sequence(es))
}

fn func(params: Vec<Pattern>, body: TExpr) -> TExpr {
    TExpr::untyped(Expr::Function(Function(params, Box::new(body))))
}

fn let_in(p: Pattern, bound: TExpr, body: TExpr) -> TExpr {
    TExpr::untyped(Expr::LetBinding(
        LetBinding(p, Box::new(bound)),
        Box::new(body),
    ))
}

fn match_on(s: TExpr, branches: Vec<(Pattern, TExpr)>) -> TExpr {
    TExpr::untyped(Expr::Match(Match(Box::new(s), branches)))
}

fn intrinsic(kind: IntrinsicKind, args: Vec<TExpr>) -> TExpr {
    TExpr::untyped(Expr::Intrinsic(Intrinsic {
        arity: 1,
        imp_typ: Type::Unit,
        imp: kind,
        args,
    }))
}

fn pvar(id: VariableId) -> Pattern {
    Pattern::Variable(Variable::new(id))
}

fn pnamed(name: &str, id: VariableId) -> Pattern {
    Pattern::Variable(Variable {
        name: Some(name.to_string()),
        id,
    })
}

fn pproduct(a: Pattern, b: Pattern) -> Pattern {
    Pattern::Product(Box::new(a), Box::new(b))
}

fn pcons(a: Pattern, b: Pattern) -> Pattern {
    Pattern::Cons(Box::new(a), Box::new(b))
}

fn alias(p: Pattern, id: VariableId) -> Pattern {
    Pattern::As(Box::new(p), Variable::new(id))
}

fn def(p: Pattern, e: TExpr) -> Definition {
    Definition(LetBinding(p, Box::new(e)))
}

fn module(defs: Vec<Definition>, exprs: Vec<TExpr>) -> Module {
    Module { defs, exprs }
}

fn witnesses(ids: &[VariableId]) -> HashSet<VariableId> {
    ids.iter().copied().collect()
}

fn bindings(pairs: Vec<(VariableId, TExpr)>) -> HashMap<VariableId, TExpr> {
    pairs.into_iter().collect()
}

const FUEL: usize = 1000;

use vamp_ir::renaming::{refresh_expr_variables, refresh_pattern_variables};

fn ids_of_pattern(p: &Pattern, out: &mut HashSet<VariableId>) {
    match p {
        Pattern::Variable(v) => {
            out.insert(v.id);
        }
        Pattern::As(a, v) => {
            ids_of_pattern(a, out);
            out.insert(v.id);
        }
        Pattern::Product(a, b) | Pattern::Cons(a, b) => {
            ids_of_pattern(a, out);
            ids_of_pattern(b, out);
        }
        _ => {}
    }
}

fn ids_of(e: &TExpr, out: &mut HashSet<VariableId>) {
    match &e.v {
        Expr::Variable(v) => {
            out.insert(v.id);
        }
        Expr::Sequence(es) => es.iter().for_each(|e| ids_of(e, out)),
        Expr::Intrinsic(i) => i.args.iter().for_each(|e| ids_of(e, out)),
        Expr::Infix(_, a, b) | Expr::Application(a, b) | Expr::Product(a, b) | Expr::Cons(a, b) => {
            ids_of(a, out);
            ids_of(b, out);
        }
        Expr::Negate(a) => ids_of(a, out),
        Expr::Function(f) => {
            f.0.iter().for_each(|p| ids_of_pattern(p, out));
            ids_of(&f.1, out);
        }
        Expr::LetBinding(b, body) => {
            ids_of_pattern(&b.0, out);
            ids_of(&b.1, out);
            ids_of(body, out);
        }
        Expr::Match(m) => {
            ids_of(&m.0, out);
            for (p, e) in &m.1 {
                ids_of_pattern(p, out);
                ids_of(e, out);
            }
        }
        _ => {}
    }
}

#[test]
fn a_renamed_function_has_fresh_parameters_and_the_same_free_variables() {
    let f = func(vec![pvar(1)], add(var(1), var(2)));
    let map = HashMap::new();
    let mut prover = HashSet::new();
    let mut gen = VarGen::starting_at(100);
    let renamed = refresh_expr_variables(&f, &map, &mut prover, &mut gen).unwrap();
    assert_eq!(renamed, func(vec![pvar(100)], add(var(100), var(2))));
    assert_eq!(gen.generate_id(), 101);
}

#[test]
fn two_renamings_share_only_free_variables() {
    let f = func(
        vec![pvar(1), pproduct(pvar(3), pvar(4))],
        let_in(
            pvar(5),
            mul(var(1), var(2)),
            match_on(
                var(5),
                vec![(pvar(6), add(var(6), var(7))), (pvar(8), var(3))],
            ),
        ),
    );
    let map = HashMap::new();
    let mut prover = HashSet::new();
    let mut gen = VarGen::starting_at(100);
    let first = refresh_expr_variables(&f, &map, &mut prover, &mut gen).unwrap();
    let second = refresh_expr_variables(&f, &map, &mut prover, &mut gen).unwrap();
    let mut first_ids = HashSet::new();
    let mut second_ids = HashSet::new();
    ids_of(&first, &mut first_ids);
    ids_of(&second, &mut second_ids);
    let common: HashSet<VariableId> = first_ids.intersection(&second_ids).copied().collect();
    assert_eq!(common, witnesses(&[2, 7]));
}

#[test]
fn a_reference_follows_the_substitution_it_is_given() {
    let mut map = HashMap::new();
    map.insert(2, 9);
    let mut prover = HashSet::new();
    let mut gen = VarGen::new();
    let renamed =
        refresh_expr_variables(&add(var(2), var(3)), &map, &mut prover, &mut gen).unwrap();
    assert_eq!(renamed, add(var(9), var(3)));
    assert_eq!(gen.generate_id(), 0);
}

#[test]
fn a_let_pattern_is_renamed_in_the_body_and_not_in_the_bound_expression() {
    let expr = let_in(pvar(1), var(1), var(1));
    let map = HashMap::new();
    let mut prover = HashSet::new();
    let mut gen = VarGen::starting_at(50);
    let renamed = refresh_expr_variables(&expr, &map, &mut prover, &mut gen).unwrap();
    assert_eq!(renamed, let_in(pvar(50), var(1), var(50)));
}

#[test]
fn each_match_branch_is_renamed_in_its_own_scope() {
    let expr = match_on(var(1), vec![(pvar(2), var(2)), (pvar(3), var(2))]);
    let map = HashMap::new();
    let mut prover = HashSet::new();
    let mut gen = VarGen::starting_at(50);
    let renamed = refresh_expr_variables(&expr, &map, &mut prover, &mut gen).unwrap();
    assert_eq!(
        renamed,
        match_on(var(1), vec![(pvar(50), var(50)), (pvar(51), var(2))])
    );
}

#[test]
fn a_renamed_witness_is_a_witness() {
    let mut map = HashMap::new();
    let mut prover = witnesses(&[1]);
    let mut gen = VarGen::starting_at(50);
    let renamed =
        refresh_pattern_variables(&pproduct(pvar(1), pvar(2)), &mut map, &mut prover, &mut gen)
            .unwrap();
    assert_eq!(renamed, pproduct(pvar(50), pvar(51)));
    assert_eq!(prover, witnesses(&[1, 50]));
    assert_eq!(map.get(&1), Some(&50));
    assert_eq!(map.get(&2), Some(&51));
}

#[test]
fn an_alias_is_renamed_after_the_pattern_it_names() {
    let mut map = HashMap::new();
    let mut prover = HashSet::new();
    let mut gen = VarGen::starting_at(50);
    let renamed =
        refresh_pattern_variables(&alias(pvar(1), 2), &mut map, &mut prover, &mut gen).unwrap();
    assert_eq!(renamed, alias(pvar(50), 51));
}

#[test]
fn renaming_keeps_names_and_types() {
    let typed = TExpr {
        v: Expr::Function(Function(vec![pnamed("x", 1)], Box::new(named("x", 1)))),
        t: Some(Type::Function(Box::new(Type::Int), Box::new(Type::Int))),
    };
    let map = HashMap::new();
    let mut prover = HashSet::new();
    let mut gen = VarGen::starting_at(7);
    let renamed = refresh_expr_variables(&typed, &map, &mut prover, &mut gen).unwrap();
    assert_eq!(
        renamed,
        TExpr {
            v: Expr::Function(Function(vec![pnamed("x", 7)], Box::new(named("x", 7)))),
            t: Some(Type::Function(Box::new(Type::Int), Box::new(Type::Int))),
        }
    );
}

#[test]
fn renaming_fails_when_the_identifiers_run_out() {
    let map = HashMap::new();
    let mut prover = HashSet::new();
    let mut gen = VarGen::starting_at(u32::MAX);
    assert_eq!(
        refresh_expr_variables(&func(vec![pvar(1)], var(1)), &map, &mut prover, &mut gen),
        Err(CompileError::IdentifiersExhausted)
    );
}
