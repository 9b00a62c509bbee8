#![allow(dead_code)]

use std::collections::{HashMap, HashSet};
use vamp_ir::ast::{
    Definition, Expr, Function, InfixOp, Intrinsic, IntrinsicKind, LetBinding, Match, Module,
    Pattern, TExpr, Type, Variable, VariableId,
};
use vamp_ir::error::CompileError;
use vamp_ir::vargen::VarGen;

fn var(id: VariableId) -> TExpr {
    TExpr::untyped(Expr::Variable(Variable::new(id)))
}

fn named(name: &str, id: VariableId) -> TExpr {
    TExpr::untyped(Expr::Variable(Variable {
        name: Some(name.to_string()),
        id,
    }))
}

fn con(c: i32) -> TExpr {
    TExpr::untyped(Expr::Constant(c))
}

fn unit() -> TExpr {
    TExpr::untyped(Expr::Unit)
}

fn nil() -> TExpr {
    TExpr::untyped(Expr::Nil)
}

fn infix(op: InfixOp, a: TExpr, b: TExpr) -> TExpr {
    TExpr::untyped(Expr::Infix(op, Box::new(a), Box::new(b)))
}

fn int_infix(op: InfixOp, a: TExpr, b: TExpr) -> TExpr {
    TExpr {
        v: Expr::Infix(op, Box::new(a), Box::new(b)),
        t: Some(Type::Int),
    }
}

fn mul(a: TExpr, b: TExpr) -> TExpr {
    infix(InfixOp::Multiply, a, b)
}

fn add(a: TExpr, b: TExpr) -> TExpr {
    infix(InfixOp::Add, a, b)
}

fn equal(a: TExpr, b: TExpr) -> TExpr {
    infix(InfixOp::Equal, a, b)
}

fn power(a: TExpr, k: i32) -> TExpr {
    infix(InfixOp::Exponentiate, a, con(k))
}

fn neg(a: TExpr) -> TExpr {
    TExpr::untyped(Expr::Negate(Box::new(a)))
}

fn product(a: TExpr, b: TExpr) -> TExpr {
    TExpr::untyped(Expr::Product(Box::new(a), Box::new(b)))
}

fn cons(a: TExpr, b: TExpr) -> TExpr {
    TExpr::untyped(Expr::Cons(Box::new(a), Box::new(b)))
}

fn app(f: TExpr, x: TExpr) -> TExpr {
    TExpr::untyped(Expr::Application(Box::new(f), Box::new(x)))
}

fn seq(es: Vec<TExpr>) -> TExpr {
    TExpr::untyped(Expr::Sequence(es))
}

fn func(params: Vec<Pattern>, body: TExpr) -> TExpr {
    TExpr::untyped(Expr::Function(Function(params, Box::new(body))))
}

fn let_in(p: Pattern, bound: TExpr, body: TExpr) -> TExpr {
    TExpr::untyped(Expr::LetBinding(
        LetBinding(p, Box::new(bound)),
        Box::new(body),
    ))
}

fn match_on(s: TExpr, branches: Vec<(Pattern, TExpr)>) -> TExpr {
    TExpr::untyped(Expr::Match(Match(Box::new(s), branches)))
}

fn intrinsic(kind: IntrinsicKind, args: Vec<TExpr>) -> TExpr {
    TExpr::untyped(Expr::Intrinsic(Intrinsic {
        arity: 1,
        imp_typ: Type::Unit,
        imp: kind,
        args,
    }))
}

fn pvar(id: VariableId) -> Pattern {
    Pattern::Variable(Variable::new(id))
}

fn pnamed(name: &str, id: VariableId) -> Pattern {
    Pattern::Variable(Variable {
        name: Some(name.to_string()),
        id,
    })
}

fn pproduct(a: Pattern, b: Pattern) -> Pattern {
    Pattern::Product(Box::new(a), Box::new(b))
}

fn pcons(a: Pattern, b: Pattern) -> Pattern {
    Pattern::Cons(Box::new(a), Box::new(b))
}

fn alias(p: Pattern, id: VariableId) -> Pattern {
    Pattern::As(Box::new(p), Variable::new(id))
}

fn def(p: Pattern, e: TExpr) -> Definition {
    Definition(LetBinding(p, Box::new(e)))
}

fn module(defs: Vec<Definition>, exprs: Vec<TExpr>) -> Module {
    Module { defs, exprs }
}

fn witnesses(ids: &[VariableId]) -> HashSet<VariableId> {
    ids.iter().copied().collect()
}

fn bindings(pairs: Vec<(VariableId, TExpr)>) -> HashMap<VariableId, TExpr> {
    pairs.into_iter().collect()
}

const FUEL: usize = 1000;

use vamp_ir::names::NameMap;
use vamp_ir::numbering::{
    number_def_variables, number_expr_variables, number_module_variables, number_pattern_variables,
};

fn names(pairs: &[(&str, VariableId)]) -> NameMap {
    let mut map = NameMap::new();
    for (name, id) in pairs {
        map.insert(name.to_string(), *id);
    }
    map
}

#[test]
fn a_reference_resolves_locally_then_globally_then_becomes_a_new_global() {
    let locals = names(&[("l", 3), ("both", 4)]);
    let mut globals = names(&[("g", 7), ("both", 8)]);
    let mut gen = VarGen::starting_at(10);
    let expr = seq(vec![
        named("l", 0),
        named("g", 0),
        named("both", 0),
        named("u", 0),
        named("u", 0),
    ]);
    let numbered = number_expr_variables(&expr, &locals, &mut globals, &mut gen).unwrap();
    assert_eq!(
        numbered,
        seq(vec![
            named("l", 3),
            named("g", 7),
            named("both", 4),
            named("u", 10),
            named("u", 10)
        ])
    );
    assert_eq!(globals.get(&"u".to_string()), Some(10));
    assert_eq!(gen.generate_id(), 11);
}

#[test]
fn a_bound_expression_is_numbered_before_its_pattern() {
    let locals = NameMap::new();
    let mut globals = NameMap::new();
    let mut gen = VarGen::new();
    let expr = let_in(pnamed("x", 0), named("x", 0), named("x", 0));
    let numbered = number_expr_variables(&expr, &locals, &mut globals, &mut gen).unwrap();
    assert_eq!(
        numbered,
        let_in(pnamed("x", 1), named("x", 0), named("x", 1))
    );
    assert_eq!(globals.get(&"x".to_string()), Some(0));
}

#[test]
fn parameters_shadow_globals_and_do_not_leak() {
    let locals = NameMap::new();
    let mut globals = names(&[("x", 5)]);
    let mut gen = VarGen::starting_at(10);
    let expr = seq(vec![
        func(vec![pnamed("x", 0)], named("x", 0)),
        named("x", 0),
    ]);
    let numbered = number_expr_variables(&expr, &locals, &mut globals, &mut gen).unwrap();
    assert_eq!(
        numbered,
        seq(vec![
            func(vec![pnamed("x", 10)], named("x", 10)),
            named("x", 5)
        ])
    );
    assert_eq!(globals.get(&"x".to_string()), Some(5));
}

#[test]
fn match_branches_do_not_see_each_other() {
    let locals = NameMap::new();
    let mut globals = NameMap::new();
    let mut gen = VarGen::new();
    let expr = match_on(
        named("s", 0),
        vec![
            (pnamed("a", 0), named("a", 0)),
            (pnamed("b", 0), named("a", 0)),
        ],
    );
    let numbered = number_expr_variables(&expr, &locals, &mut globals, &mut gen).unwrap();
    assert_eq!(
        numbered,
        match_on(
            named("s", 0),
            vec![
                (pnamed("a", 1), named("a", 1)),
                (pnamed("b", 2), named("a", 3))
            ],
        )
    );
    assert_eq!(globals.get(&"a".to_string()), Some(3));
    assert_eq!(globals.get(&"b".to_string()), None);
}

#[test]
fn an_alias_is_numbered_after_the_pattern_it_names() {
    let mut map = NameMap::new();
    let mut gen = VarGen::new();
    let pat = Pattern::As(
        Box::new(pproduct(pnamed("a", 0), pnamed("b", 0))),
        Variable {
            name: Some("whole".to_string()),
            id: 0,
        },
    );
    let numbered = number_pattern_variables(&pat, &mut map, &mut gen).unwrap();
    assert_eq!(
        numbered,
        Pattern::As(
            Box::new(pproduct(pnamed("a", 0), pnamed("b", 1))),
            Variable {
                name: Some("whole".to_string()),
                id: 2
            },
        )
    );
    assert_eq!(map.get(&"whole".to_string()), Some(2));
    assert!(map.contains_key(&"a".to_string()));
    assert!(!map.contains_key(&"c".to_string()));
}

#[test]
fn nameless_variables_keep_their_identifiers() {
    let locals = NameMap::new();
    let mut globals = NameMap::new();
    let mut gen = VarGen::new();
    let expr = let_in(pvar(42), var(41), var(42));
    let numbered = number_expr_variables(&expr, &locals, &mut globals, &mut gen).unwrap();
    assert_eq!(numbered, let_in(pvar(42), var(41), var(42)));
    assert_eq!(gen.generate_id(), 0);
}

#[test]
fn the_pattern_of_a_definition_becomes_global() {
    let mut globals = NameMap::new();
    let mut gen = VarGen::new();
    let d = def(pnamed("f", 0), add(named("f", 0), con(1)));
    let numbered = number_def_variables(&d, &mut globals, &mut gen).unwrap();
    assert_eq!(numbered, def(pnamed("f", 1), add(named("f", 0), con(1))));
    assert_eq!(globals.get(&"f".to_string()), Some(1));
}

#[test]
fn definitions_are_visible_to_what_follows_them() {
    let mut m = module(
        vec![
            def(pnamed("f", 0), con(1)),
            def(pnamed("g", 0), named("f", 0)),
        ],
        vec![equal(named("f", 0), named("g", 0))],
    );
    let mut globals = NameMap::new();
    let mut gen = VarGen::new();
    number_module_variables(&mut m, &mut globals, &mut gen).unwrap();
    assert_eq!(
        m,
        module(
            vec![
                def(pnamed("f", 0), con(1)),
                def(pnamed("g", 1), named("f", 0))
            ],
            vec![equal(named("f", 0), named("g", 1))],
        )
    );
    assert_eq!(gen.generate_id(), 2);
}

fn pattern_binder_ids(p: &Pattern, out: &mut Vec<VariableId>) {
    match p {
        Pattern::Variable(v) => out.push(v.id),
        Pattern::As(a, v) => {
            pattern_binder_ids(a, out);
            out.push(v.id);
        }
        Pattern::Product(a, b) | Pattern::Cons(a, b) => {
            pattern_binder_ids(a, out);
            pattern_binder_ids(b, out);
        }
        _ => {}
    }
}

fn expr_binder_ids(e: &TExpr, out: &mut Vec<VariableId>) {
    match &e.v {
        Expr::Sequence(es) => es.iter().for_each(|e| expr_binder_ids(e, out)),
        Expr::Infix(_, a, b) | Expr::Application(a, b) | Expr::Product(a, b) | Expr::Cons(a, b) => {
            expr_binder_ids(a, out);
            expr_binder_ids(b, out);
        }
        Expr::Negate(a) => expr_binder_ids(a, out),
        Expr::Function(f) => {
            f.0.iter().for_each(|p| pattern_binder_ids(p, out));
            expr_binder_ids(&f.1, out);
        }
        Expr::LetBinding(b, body) => {
            expr_binder_ids(&b.1, out);
            pattern_binder_ids(&b.0, out);
            expr_binder_ids(body, out);
        }
        Expr::Match(m) => {
            expr_binder_ids(&m.0, out);
            for (p, e) in &m.1 {
                pattern_binder_ids(p, out);
                expr_binder_ids(e, out);
            }
        }
        _ => {}
    }
}

#[test]
fn no_two_binders_share_an_identifier() {
    let body = let_in(
        pnamed("x", 0),
        func(
            vec![pnamed("x", 0), pnamed("y", 0)],
            mul(named("x", 0), named("y", 0)),
        ),
        match_on(
            named("x", 0),
            vec![
                (pproduct(pnamed("x", 0), pnamed("y", 0)), named("y", 0)),
                (pnamed("x", 0), named("x", 0)),
            ],
        ),
    );
    let mut m = module(
        vec![def(pnamed("x", 0), body)],
        vec![named("x", 0), named("free", 0)],
    );
    let mut globals = NameMap::new();
    let mut gen = VarGen::starting_at(20);
    number_module_variables(&mut m, &mut globals, &mut gen).unwrap();
    let mut ids = Vec::new();
    for d in &m.defs {
        expr_binder_ids(&d.0 .1, &mut ids);
        pattern_binder_ids(&d.0 .0, &mut ids);
    }
    assert_eq!(ids, vec![20, 21, 22, 23, 24, 25, 26]);
    let last = gen.generate_id();
    assert!(ids.iter().all(|id| 20 <= *id && *id < last));
    assert_eq!(m.exprs, vec![named("x", 26), named("free", 27)]);
}

#[test]
fn numbering_fails_when_the_identifiers_run_out() {
    let mut m = module(vec![def(pnamed("x", 0), con(1))], vec![named("x", 0)]);
    let before = m.clone();
    let mut globals = NameMap::new();
    let mut gen = VarGen::starting_at(u32::MAX);
    assert_eq!(
        number_module_variables(&mut m, &mut globals, &mut gen),
        Err(CompileError::IdentifiersExhausted)
    );
    assert_eq!(m, before);
}
