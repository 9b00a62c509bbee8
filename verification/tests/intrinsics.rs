#![allow(dead_code)]

use std::collections::{HashMap, HashSet};
use vamp_ir::ast::{
    Definition, Expr, Function, InfixOp, Intrinsic, IntrinsicKind, LetBinding, Match, Module,
    Pattern, TExpr, Type, Variable, VariableId,
};
use vamp_ir::error::CompileError;
use vamp_ir::vargen::VarGen;

fn var(id: VariableId) -> TExpr {
    TExpr::untyped(Expr::Variable(Variable::new(id)))
}

fn named(name: &str, id: VariableId) -> TExpr {
    TExpr::untyped(Expr::Variable(Variable {
        name: Some(name.to_string()),
        id,
    }))
}

fn con(c: i32) -> TExpr {
    TExpr::untyped(Expr::Constant(c))
}

fn unit() -> TExpr {
    TExpr::untyped(Expr::Unit)
}

fn nil() -> TExpr {
    TExpr::untyped(Expr::Nil)
}

fn infix(op: InfixOp, a: TExpr, b: TExpr) -> TExpr {
    TExpr::untyped(Expr::Infix(op, Box::new(a), Box::new(b)))
}

fn int_infix(op: InfixOp, a: TExpr, b: TExpr) -> TExpr {
    TExpr {
        v: Expr::Infix(op, Box::new(a), Box::new(b)),
        t: Some(Type::Int),
    }
}

fn mul(a: TExpr, b: TExpr) -> TExpr {
    infix(InfixOp::Multiply, a, b)
}

fn add(a: TExpr, b: TExpr) -> TExpr {
    infix(InfixOp::Add, a, b)
}

fn equal(a: TExpr, b: TExpr) -> TExpr {
    infix(InfixOp::Equal, a, b)
}

fn power(a: TExpr, k: i32) -> TExpr {
    infix(InfixOp::Exponentiate, a, con(k))
}

fn neg(a: TExpr) -> TExpr {
    TExpr::untyped(Expr::Negate(Box::new(a)))
}

fn product(a: TExpr, b: TExpr) -> TExpr {
    TExpr::untyped(Expr::Product(Box::new(a), Box::new(b)))
}

fn cons(a: TExpr, b: TExpr) -> TExpr {
    TExpr::untyped(Expr::Cons(Box::new(a), Box::new(b)))
}

fn app(f: TExpr, x: TExpr) -> TExpr {
    TExpr::untyped(Expr::Application(Box::new(f), Box::new(x)))
}

fn seq(es: Vec<TExpr>) -> TExpr {
    TExpr::untyped(Expr::Sequence(es))
}

fn func(params: Vec<Pattern>, body: TExpr) -> TExpr {
    TExpr::untyped(Expr::Function(Function(params, Box::new(body))))
}

fn let_in(p: Pattern, bound: TExpr, body: TExpr) -> TExpr {
    TExpr::untyped(Expr::LetBinding(
        LetBinding(p, Box::new(bound)),
        Box::new(body),
    ))
}

fn match_on(s: TExpr, branches: Vec<(Pattern, TExpr)>) -> TExpr {
    TExpr::untyped(Expr::Match(Match(Box::new(s), branches)))
}

fn intrinsic(kind: IntrinsicKind, args: Vec<TExpr>) -> TExpr {
    TExpr::untyped(Expr::Intrinsic(Intrinsic {
        arity: 1,
        imp_typ: Type::Unit,
        imp: kind,
        args,
    }))
}

fn pvar(id: VariableId) -> Pattern {
    Pattern::Variable(Variable::new(id))
}

fn pnamed(name: &str, id: VariableId) -> Pattern {
    Pattern::Variable(Variable {
        name: Some(name.to_string()),
        id,
    })
}

fn pproduct(a: Pattern, b: Pattern) -> Pattern {
    Pattern::Product(Box::new(a), Box::new(b))
}

fn pcons(a: Pattern, b: Pattern) -> Pattern {
    Pattern::Cons(Box::new(a), Box::new(b))
}

fn alias(p: Pattern, id: VariableId) -> Pattern {
    Pattern::As(Box::new(p), Variable::new(id))
}

fn def(p: Pattern, e: TExpr) -> Definition {
    Definition(LetBinding(p, Box::new(e)))
}

fn module(defs: Vec<Definition>, exprs: Vec<TExpr>) -> Module {
    Module { defs, exprs }
}

fn witnesses(ids: &[VariableId]) -> HashSet<VariableId> {
    ids.iter().copied().collect()
}

fn bindings(pairs: Vec<(VariableId, TExpr)>) -> HashMap<VariableId, TExpr> {
    pairs.into_iter().collect()
}

const FUEL: usize = 1000;

use vamp_ir::intrinsics::{
    expand_fresh_intrinsic, expand_iter_intrinsic, register_fresh_intrinsic,
    register_iter_intrinsic,
};
use vamp_ir::names::NameMap;

fn type_variable(id: VariableId) -> Type {
    Type::Variable(Variable::new(id))
}

fn function_type(a: Type, b: Type) -> Type {
    Type::Function(Box::new(a), Box::new(b))
}

fn endo(id: VariableId) -> Type {
    function_type(type_variable(id), type_variable(id))
}

#[test]
fn fresh_is_registered_under_its_name_with_its_type() {
    let mut globals = NameMap::new();
    let mut bindings = HashMap::new();
    let mut types = HashMap::new();
    let mut gen = VarGen::new();
    register_fresh_intrinsic(&mut globals, &mut bindings, &mut types, &mut gen).unwrap();
    let scheme = Type::Forall(Variable::new(1), Box::new(endo(1)));
    assert_eq!(globals.get(&"fresh".to_string()), Some(0));
    assert_eq!(types.get(&0), Some(&scheme));
    assert_eq!(
        bindings.get(&0),
        Some(&TExpr::untyped(Expr::Intrinsic(Intrinsic {
            arity: 1,
            imp_typ: scheme,
            imp: IntrinsicKind::Fresh,
            args: vec![],
        })))
    );
    assert_eq!(gen.generate_id(), 2);
}

#[test]
fn iter_is_registered_under_its_name_with_its_type() {
    let mut globals = NameMap::new();
    let mut bindings = HashMap::new();
    let mut types = HashMap::new();
    let mut gen = VarGen::starting_at(2);
    register_iter_intrinsic(&mut globals, &mut bindings, &mut types, &mut gen).unwrap();
    let scheme = Type::Forall(
        Variable::new(3),
        Box::new(function_type(Type::Int, function_type(endo(3), endo(3)))),
    );
    assert_eq!(globals.get(&"iter".to_string()), Some(2));
    assert_eq!(types.get(&2), Some(&scheme));
    assert_eq!(
        bindings.get(&2),
        Some(&TExpr::untyped(Expr::Intrinsic(Intrinsic {
            arity: 1,
            imp_typ: scheme,
            imp: IntrinsicKind::Iter,
            args: vec![],
        })))
    );
    assert_eq!(gen.generate_id(), 4);
}

#[test]
fn registration_needs_two_identifiers() {
    let mut globals = NameMap::new();
    let mut bindings = HashMap::new();
    let mut types = HashMap::new();
    let mut gen = VarGen::starting_at(u32::MAX - 1);
    assert_eq!(
        register_fresh_intrinsic(&mut globals, &mut bindings, &mut types, &mut gen),
        Err(CompileError::IdentifiersExhausted)
    );
    let mut gen = VarGen::starting_at(u32::MAX - 1);
    assert_eq!(
        register_iter_intrinsic(&mut globals, &mut bindings, &mut types, &mut gen),
        Err(CompileError::IdentifiersExhausted)
    );
    let mut gen = VarGen::starting_at(u32::MAX - 2);
    assert_eq!(
        register_iter_intrinsic(&mut globals, &mut bindings, &mut types, &mut gen),
        Ok(())
    );
}

#[test]
fn fresh_binds_a_new_witness_to_its_argument() {
    let arg = int_infix(InfixOp::Multiply, var(4), var(4));
    let mut prover = HashSet::new();
    let mut gen = VarGen::starting_at(10);
    let expansion = expand_fresh_intrinsic(&vec![arg], &mut prover, &mut gen).unwrap();
    assert_eq!(
        expansion,
        TExpr {
            v: Expr::LetBinding(
                LetBinding(
                    pvar(10),
                    Box::new(int_infix(InfixOp::Multiply, var(4), var(4)))
                ),
                Box::new(TExpr {
                    v: Expr::Variable(Variable::new(10)),
                    t: Some(Type::Int)
                }),
            ),
            t: Some(Type::Int),
        }
    );
    assert_eq!(prover, witnesses(&[10]));
    assert_eq!(gen.generate_id(), 11);
}

#[test]
fn fresh_takes_exactly_one_argument() {
    let mut prover = HashSet::new();
    let mut gen = VarGen::new();
    assert_eq!(
        expand_fresh_intrinsic(&vec![], &mut prover, &mut gen),
        Err(CompileError::MalformedIntrinsicArguments(
            IntrinsicKind::Fresh
        ))
    );
    assert_eq!(
        expand_fresh_intrinsic(&vec![con(1), con(2)], &mut prover, &mut gen),
        Err(CompileError::MalformedIntrinsicArguments(
            IntrinsicKind::Fresh
        ))
    );
    assert!(prover.is_empty());
    assert_eq!(gen.generate_id(), 0);
}

fn church(f: VariableId, x: VariableId, n: usize) -> TExpr {
    let func = TExpr {
        v: Expr::Variable(Variable::new(f)),
        t: Some(endo(x)),
    };
    let mut body = TExpr {
        v: Expr::Variable(Variable::new(x)),
        t: Some(type_variable(x)),
    };
    for _ in 0..n {
        body = TExpr {
            v: Expr::Application(Box::new(func.clone()), Box::new(body)),
            t: Some(type_variable(x)),
        };
    }
    TExpr {
        v: Expr::Function(Function(vec![pvar(f), pvar(x)], Box::new(body))),
        t: Some(function_type(endo(x), endo(x))),
    }
}

#[test]
fn iter_three_applies_its_function_three_times() {
    let mut prover = HashSet::new();
    let mut gen = VarGen::starting_at(10);
    let expansion =
        expand_iter_intrinsic(&vec![con(3)], &HashMap::new(), &mut prover, &mut gen, FUEL).unwrap();
    let f = TExpr {
        v: Expr::Variable(Variable::new(11)),
        t: Some(endo(10)),
    };
    let x = TExpr {
        v: Expr::Variable(Variable::new(10)),
        t: Some(type_variable(10)),
    };
    let apply = |g: &TExpr, a: TExpr| TExpr {
        v: Expr::Application(Box::new(g.clone()), Box::new(a)),
        t: Some(type_variable(10)),
    };
    assert_eq!(
        expansion,
        TExpr {
            v: Expr::Function(Function(
                vec![pvar(11), pvar(10)],
                Box::new(apply(&f, apply(&f, apply(&f, x)))),
            )),
            t: Some(function_type(endo(10), endo(10))),
        }
    );
    assert_eq!(gen.generate_id(), 12);
    assert!(prover.is_empty());
}

#[test]
fn iter_of_nothing_or_less_is_the_identity_on_its_second_argument() {
    for n in [0, -1, i32::MIN] {
        let mut prover = HashSet::new();
        let mut gen = VarGen::starting_at(10);
        let expansion =
            expand_iter_intrinsic(&vec![con(n)], &HashMap::new(), &mut prover, &mut gen, FUEL);
        assert_eq!(expansion, Ok(church(11, 10, 0)));
    }
}

#[test]
fn iter_reads_a_bound_variable_as_its_binding() {
    let env = bindings(vec![(5, var(6)), (6, con(2))]);
    let mut prover = HashSet::new();
    let mut gen = VarGen::starting_at(10);
    let expansion = expand_iter_intrinsic(&vec![var(5)], &env, &mut prover, &mut gen, FUEL);
    assert_eq!(expansion, Ok(church(11, 10, 2)));
}

#[test]
fn iter_needs_one_integer_constant() {
    let env = bindings(vec![(5, add(con(1), con(1)))]);
    let mut prover = HashSet::new();
    let mut gen = VarGen::starting_at(10);
    for args in [
        vec![],
        vec![con(1), con(2)],
        vec![var(7)],
        vec![var(5)],
        vec![add(con(1), con(2))],
        vec![unit()],
    ] {
        assert_eq!(
            expand_iter_intrinsic(&args, &env, &mut prover, &mut gen, FUEL),
            Err(CompileError::MalformedIntrinsicArguments(
                IntrinsicKind::Iter
            ))
        );
    }
    assert_eq!(gen.generate_id(), 10);
}

#[test]
fn iter_gives_up_on_a_variable_bound_to_itself() {
    let env = bindings(vec![(5, var(5))]);
    let mut prover = HashSet::new();
    let mut gen = VarGen::starting_at(10);
    assert_eq!(
        expand_iter_intrinsic(&vec![var(5)], &env, &mut prover, &mut gen, FUEL),
        Err(CompileError::RecursionLimit)
    );
}

#[test]
fn iter_fails_when_the_identifiers_run_out() {
    let mut prover = HashSet::new();
    let mut gen = VarGen::starting_at(u32::MAX - 1);
    assert_eq!(
        expand_iter_intrinsic(&vec![con(1)], &HashMap::new(), &mut prover, &mut gen, FUEL),
        Err(CompileError::IdentifiersExhausted)
    );
}

#[test]
fn a_built_in_that_lacks_arguments_collects_them() {
    let pending = Intrinsic::new(2, Type::Int, IntrinsicKind::Fresh);
    let mut prover = HashSet::new();
    let mut gen = VarGen::new();
    let applied = pending
        .apply(con(1), &HashMap::new(), &mut prover, &mut gen, FUEL)
        .unwrap();
    assert_eq!(
        applied,
        TExpr::untyped(Expr::Intrinsic(Intrinsic {
            arity: 2,
            imp_typ: Type::Int,
            imp: IntrinsicKind::Fresh,
            args: vec![con(1)],
        }))
    );
    assert!(prover.is_empty());
}

#[test]
fn a_built_in_expands_on_its_last_argument() {
    let fresh = Intrinsic::new(1, Type::Int, IntrinsicKind::Fresh);
    let mut prover = HashSet::new();
    let mut gen = VarGen::starting_at(4);
    let applied = fresh
        .apply(con(9), &HashMap::new(), &mut prover, &mut gen, FUEL)
        .unwrap();
    assert_eq!(applied, let_in(pvar(4), con(9), var(4)));
    assert_eq!(prover, witnesses(&[4]));
    let iter = Intrinsic::new(1, Type::Int, IntrinsicKind::Iter);
    let applied = iter
        .apply(con(1), &HashMap::new(), &mut prover, &mut gen, FUEL)
        .unwrap();
    assert_eq!(applied, church(6, 5, 1));
}
