#![allow(dead_code)]

use std::collections::{HashMap, HashSet};
use vamp_ir::ast::{
    Definition, Expr, Function, InfixOp, Intrinsic, IntrinsicKind, LetBinding, Match, Module,
    Pattern, TExpr, Type, Variable, VariableId,
};
use vamp_ir::error::CompileError;
use vamp_ir::vargen::VarGen;

fn var(id: VariableId) -> TExpr {
    TExpr::untyped(Expr::Variable(Variable::new(id)))
}

fn named(name: &str, id: VariableId) -> TExpr {
    TExpr::untyped(Expr::Variable(Variable {
        name: Some(name.to_string()),
        id,
    }))
}

fn con(c: i32) -> TExpr {
    TExpr::untyped(Expr::Constant(c))
}

fn unit() -> TExpr {
    TExpr::untyped(Expr::Unit)
}

fn nil() -> TExpr {
    TExpr::untyped(Expr::Nil)
}

fn infix(op: InfixOp, a: TExpr, b: TExpr) -> TExpr {
    TExpr::untyped(Expr::Infix(op, Box::new(a), Box::new(b)))
}

fn int_infix(op: InfixOp, a: TExpr, b: TExpr) -> TExpr {
    TExpr {
        v: Expr::Infix(op, Box::new(a), Box::new(b)),
        t: Some(Type::Int),
    }
}

fn mul(a: TExpr, b: TExpr) -> TExpr {
    infix(InfixOp::Multiply, a, b)
}

fn add(a: TExpr, b: TExpr) -> TExpr {
    infix(InfixOp::Add, a, b)
}

fn equal(a: TExpr, b: TExpr) -> TExpr {
    infix(InfixOp::Equal, a, b)
}

fn power(a: TExpr, k: i32) -> TExpr {
    infix(InfixOp::Exponentiate, a, con(k))
}

fn neg(a: TExpr) -> TExpr {
    TExpr::untyped(Expr::Negate(Box::new(a)))
}

fn product(a: TExpr, b: TExpr) -> TExpr {
    TExpr::untyped(Expr::Product(Box::new(a), Box::new(b)))
}

fn cons(a: TExpr, b: TExpr) -> TExpr {
    TExpr::untyped(Expr::Cons(Box::new(a), Box::new(b)))
}

fn app(f: TExpr, x: TExpr) -> TExpr {
    TExpr::untyped(Expr::Application(Box::new(f), Box::new(x)))
}

fn seq(es: Vec<TExpr>) -> TExpr {
    TExpr::untyped(Expr::Sequence(es))
}

fn func(params: Vec<Pattern>, body: TExpr) -> TExpr {
    TExpr::untyped(Expr::Function(Function(params, Box::new(body))))
}

fn let_in(p: Pattern, bound: TExpr, body: TExpr) -> TExpr {
    TExpr::untyped(Expr::LetBinding(
        LetBinding(p, Box::new(bound)),
        Box::new(body),
    ))
}

fn match_on(s: TExpr, branches: Vec<(Pattern, TExpr)>) -> TExpr {
    TExpr::untyped(Expr::Match(Match(Box::new(s), branches)))
}

fn intrinsic(kind: IntrinsicKind, args: Vec<TExpr>) -> TExpr {
    TExpr::untyped(Expr::Intrinsic(Intrinsic {
        arity: 1,
        imp_typ: Type::Unit,
        imp: kind,
        args,
    }))
}

fn pvar(id: VariableId) -> Pattern {
    Pattern::Variable(Variable::new(id))
}

fn pnamed(name: &str, id: VariableId) -> Pattern {
    Pattern::Variable(Variable {
        name: Some(name.to_string()),
        id,
    })
}

fn pproduct(a: Pattern, b: Pattern) -> Pattern {
    Pattern::Product(Box::new(a), Box::new(b))
}

fn pcons(a: Pattern, b: Pattern) -> Pattern {
    Pattern::Cons(Box::new(a), Box::new(b))
}

fn alias(p: Pattern, id: VariableId) -> Pattern {
    Pattern::As(Box::new(p), Variable::new(id))
}

fn def(p: Pattern, e: TExpr) -> Definition {
    Definition(LetBinding(p, Box::new(e)))
}

fn module(defs: Vec<Definition>, exprs: Vec<TExpr>) -> Module {
    Module { defs, exprs }
}

fn witnesses(ids: &[VariableId]) -> HashSet<VariableId> {
    ids.iter().copied().collect()
}

fn bindings(pairs: Vec<(VariableId, TExpr)>) -> HashMap<VariableId, TExpr> {
    pairs.into_iter().collect()
}

const FUEL: usize = 1000;

use vamp_ir::three_address::{
    flatten_def_to_3ac, flatten_expr_to_3ac, flatten_module_to_3ac, infix_op, push_constraint_def,
};

#[test]
fn a_unit_or_zero_operand_simplifies_an_operation() {
    let x = || named("x", 1);
    let zero = TExpr {
        v: Expr::Constant(0),
        t: Some(Type::Int),
    };
    assert_eq!(infix_op(InfixOp::Multiply, con(1), x()), x());
    assert_eq!(infix_op(InfixOp::Multiply, x(), con(1)), x());
    assert_eq!(infix_op(InfixOp::Multiply, con(0), x()), con(0));
    assert_eq!(infix_op(InfixOp::Multiply, x(), con(0)), con(0));
    assert_eq!(infix_op(InfixOp::Multiply, con(1), con(0)), con(0));
    assert_eq!(infix_op(InfixOp::Multiply, con(0), con(1)), con(0));
    assert_eq!(infix_op(InfixOp::Divide, x(), con(1)), x());
    assert_eq!(infix_op(InfixOp::IntDivide, x(), con(1)), x());
    assert_eq!(infix_op(InfixOp::Modulo, x(), con(1)), zero);
    assert_eq!(infix_op(InfixOp::Add, con(0), x()), x());
    assert_eq!(infix_op(InfixOp::Add, x(), con(0)), x());
    assert_eq!(infix_op(InfixOp::Subtract, x(), con(0)), x());
}

#[test]
fn any_other_operation_is_built_with_its_type() {
    let x = || named("x", 1);
    for (op, a, b) in [
        (InfixOp::Multiply, con(3), con(2)),
        (InfixOp::Multiply, x(), con(2)),
        (InfixOp::Divide, con(1), x()),
        (InfixOp::Divide, x(), con(0)),
        (InfixOp::IntDivide, con(1), x()),
        (InfixOp::Modulo, con(1), x()),
        (InfixOp::Modulo, x(), con(0)),
        (InfixOp::Add, x(), con(1)),
        (InfixOp::Subtract, con(0), x()),
        (InfixOp::Exponentiate, x(), con(1)),
        (InfixOp::Exponentiate, x(), con(0)),
    ] {
        assert_eq!(infix_op(op, a.clone(), b.clone()), int_infix(op, a, b));
    }
    assert_eq!(
        infix_op(InfixOp::Equal, x(), con(0)),
        TExpr {
            v: Expr::Infix(InfixOp::Equal, Box::new(x()), Box::new(con(0))),
            t: Some(Type::Unit)
        }
    );
}

#[test]
fn a_pattern_stands_for_an_expression() {
    assert_eq!(pnamed("x", 1).to_expr(), named("x", 1));
    assert_eq!(Pattern::Constant(4).to_expr(), con(4));
    assert_eq!(
        alias(pproduct(pvar(1), pcons(Pattern::Unit, Pattern::Nil)), 9).to_expr(),
        product(var(1), cons(unit(), nil()))
    );
}

#[test]
fn a_constraint_and_a_definition_are_pushed_together() {
    let mut m = Module::default();
    push_constraint_def(&mut m, pvar(1), int_infix(InfixOp::Add, var(2), con(3)));
    assert_eq!(
        m,
        module(
            vec![def(pvar(1), int_infix(InfixOp::Add, var(2), con(3)))],
            vec![equal(var(1), int_infix(InfixOp::Add, var(2), con(3)))],
        )
    );
}

#[test]
fn a_constant_or_a_variable_needs_no_temporary() {
    let mut m = Module::default();
    let mut gen = VarGen::starting_at(10);
    assert_eq!(
        flatten_expr_to_3ac(None, &con(4), &mut m, &mut gen),
        Ok(Pattern::Constant(4))
    );
    assert_eq!(
        flatten_expr_to_3ac(None, &named("x", 1), &mut m, &mut gen),
        Ok(pnamed("x", 1))
    );
    assert_eq!(m, Module::default());
    assert_eq!(
        flatten_expr_to_3ac(Some(pvar(7)), &con(5), &mut m, &mut gen),
        Ok(pvar(7))
    );
    assert_eq!(
        m,
        module(vec![def(pvar(7), con(5))], vec![equal(var(7), con(5))])
    );
    assert_eq!(gen.generate_id(), 10);
}

#[test]
fn a_nested_operation_gets_a_temporary_for_each_operator() {
    let mut m = Module::default();
    let mut gen = VarGen::starting_at(10);
    let expr = add(mul(var(1), var(2)), neg(var(3)));
    assert_eq!(
        flatten_expr_to_3ac(None, &expr, &mut m, &mut gen),
        Ok(pvar(12))
    );
    let product_of = int_infix(InfixOp::Multiply, var(1), var(2));
    let sum = int_infix(InfixOp::Add, var(10), var(11));
    assert_eq!(
        m,
        module(
            vec![
                def(pvar(10), product_of.clone()),
                def(pvar(11), neg(var(3))),
                def(pvar(12), sum.clone())
            ],
            vec![
                equal(var(10), product_of),
                equal(var(11), neg(var(3))),
                equal(var(12), sum)
            ],
        )
    );
    assert_eq!(gen.generate_id(), 13);
}

#[test]
fn a_given_term_holds_the_result_and_an_identifier_is_issued_all_the_same() {
    let mut m = Module::default();
    let mut gen = VarGen::starting_at(10);
    let d = def(pvar(1), mul(var(2), con(1)));
    assert_eq!(flatten_def_to_3ac(&d, &mut m, &mut gen), Ok(()));
    assert_eq!(
        m,
        module(vec![def(pvar(1), var(2))], vec![equal(var(1), var(2))])
    );
    assert_eq!(gen.generate_id(), 11);
}

fn reduce_power(base: TExpr, k: i32) -> (Pattern, Module, VariableId) {
    let mut m = Module::default();
    let mut gen = VarGen::starting_at(10);
    let out = flatten_expr_to_3ac(None, &power(base, k), &mut m, &mut gen).unwrap();
    (out, m, gen.generate_id())
}

fn times(a: TExpr, b: TExpr) -> TExpr {
    int_infix(InfixOp::Multiply, a, b)
}

#[test]
fn the_powers_zero_and_one_take_no_multiplication() {
    assert_eq!(
        reduce_power(var(1), 0),
        (Pattern::Constant(1), Module::default(), 10)
    );
    assert_eq!(reduce_power(var(1), 1), (pvar(1), Module::default(), 10));
    let mut m = Module::default();
    let mut gen = VarGen::starting_at(10);
    assert_eq!(
        flatten_expr_to_3ac(Some(pvar(7)), &power(var(1), 0), &mut m, &mut gen),
        Ok(pvar(7))
    );
    assert_eq!(
        m,
        module(vec![def(pvar(7), con(1))], vec![equal(var(7), con(1))])
    );
}

#[test]
fn a_power_is_computed_by_squaring() {
    let (out, m, next) = reduce_power(var(1), 2);
    assert_eq!(out, pvar(10));
    assert_eq!(m.defs, vec![def(pvar(10), times(var(1), var(1)))]);
    assert_eq!(next, 11);

    let (out, m, _) = reduce_power(var(1), 3);
    assert_eq!(out, pvar(11));
    assert_eq!(
        m.defs,
        vec![
            def(pvar(10), times(var(1), var(1))),
            def(pvar(11), times(var(10), var(1)))
        ]
    );

    let (out, m, _) = reduce_power(var(1), 5);
    assert_eq!(out, pvar(12));
    assert_eq!(
        m.defs,
        vec![
            def(pvar(10), times(var(1), var(1))),
            def(pvar(11), times(var(10), var(10))),
            def(pvar(12), times(var(11), var(1))),
        ]
    );

    let (out, m, _) = reduce_power(var(1), 8);
    assert_eq!(out, pvar(12));
    assert_eq!(
        m.defs,
        vec![
            def(pvar(10), times(var(1), var(1))),
            def(pvar(11), times(var(10), var(10))),
            def(pvar(12), times(var(11), var(11))),
        ]
    );
    assert_eq!(
        m.exprs,
        vec![
            equal(var(10), times(var(1), var(1))),
            equal(var(11), times(var(10), var(10))),
            equal(var(12), times(var(11), var(11))),
        ]
    );
}

#[test]
fn the_base_of_a_power_is_reduced_once() {
    let (out, m, _) = reduce_power(add(var(1), var(2)), 4);
    assert_eq!(out, pvar(12));
    assert_eq!(
        m.defs,
        vec![
            def(pvar(10), int_infix(InfixOp::Add, var(1), var(2))),
            def(pvar(11), times(var(10), var(10))),
            def(pvar(12), times(var(11), var(11))),
        ]
    );
}

#[test]
fn constants_are_not_folded_unless_they_are_zero_or_one() {
    let (out, m, _) = reduce_power(con(3), 2);
    assert_eq!(out, pvar(10));
    assert_eq!(m.defs, vec![def(pvar(10), times(con(3), con(3)))]);
    assert_eq!(
        reduce_power(con(1), 5),
        (Pattern::Constant(1), Module::default(), 10)
    );
    assert_eq!(
        reduce_power(con(0), 6),
        (Pattern::Constant(0), Module::default(), 10)
    );
}

fn bit_length(mut k: u32) -> usize {
    let mut n = 0;
    while k > 0 {
        n += 1;
        k /= 2;
    }
    n
}

#[test]
fn the_number_of_multiplications_grows_with_the_logarithm_of_the_exponent() {
    for k in 0..300 {
        let (_, m, _) = reduce_power(var(1), k);
        assert!(m.defs.len() <= 2 * bit_length(k as u32), "exponent {}", k);
        assert_eq!(m.defs.len(), m.exprs.len());
    }
    assert_eq!(reduce_power(var(1), 1024).1.defs.len(), 10);
    assert_eq!(reduce_power(var(1), 1023).1.defs.len(), 18);
    assert_eq!(reduce_power(var(1), i32::MAX).1.defs.len(), 60);
}

#[test]
fn a_negative_power_is_the_reciprocal_of_the_positive_one() {
    let one_over = |a: TExpr| int_infix(InfixOp::Divide, con(1), a);
    let (out, m, _) = reduce_power(var(1), -1);
    assert_eq!(out, pvar(10));
    assert_eq!(m.defs, vec![def(pvar(10), one_over(var(1)))]);

    let (out, m, _) = reduce_power(var(1), -2);
    assert_eq!(out, pvar(11));
    assert_eq!(
        m.defs,
        vec![
            def(pvar(10), times(var(1), var(1))),
            def(pvar(11), one_over(var(10)))
        ]
    );

    let (out, m, next) = reduce_power(var(1), i32::MIN);
    assert_eq!(out, pvar(41));
    assert_eq!(m.defs.len(), 32);
    assert_eq!(m.defs[30], def(pvar(40), times(var(39), var(39))));
    assert_eq!(m.defs[31], def(pvar(41), one_over(var(40))));
    assert_eq!(next, 42);
}

#[test]
fn an_exponent_that_is_no_constant_is_an_error() {
    let mut m = Module::default();
    let mut gen = VarGen::starting_at(10);
    let expr = infix(InfixOp::Exponentiate, var(1), named("n", 2));
    assert_eq!(
        flatten_expr_to_3ac(None, &add(con(1), expr), &mut m, &mut gen),
        Err(CompileError::SymbolicExponent(named("n", 2)))
    );
}

#[test]
fn a_term_that_is_no_arithmetic_cannot_be_reduced() {
    for expr in [
        unit(),
        nil(),
        product(con(1), con(2)),
        seq(vec![con(1)]),
        neg(unit()),
    ] {
        let mut m = Module::default();
        let mut gen = VarGen::starting_at(10);
        assert_eq!(
            flatten_expr_to_3ac(None, &expr, &mut m, &mut gen),
            Err(CompileError::InternalInvariantViolation)
        );
    }
}

#[test]
fn reduction_fails_when_the_identifiers_run_out() {
    let mut m = Module::default();
    let mut gen = VarGen::starting_at(u32::MAX);
    assert_eq!(
        flatten_expr_to_3ac(None, &add(var(1), var(2)), &mut m, &mut gen),
        Err(CompileError::IdentifiersExhausted)
    );
}

fn three_address(e: &TExpr) -> bool {
    let atomic = |e: &TExpr| matches!(e.v, Expr::Constant(_) | Expr::Variable(_));
    match &e.v {
        Expr::Constant(_) | Expr::Variable(_) => true,
        Expr::Negate(a) => atomic(a),
        Expr::Infix(_, a, b) => atomic(a) && atomic(b),
        _ => false,
    }
}

#[test]
fn a_module_is_reduced_definitions_first_and_witnesses_are_kept() {
    let source = module(
        vec![
            def(pvar(1), add(var(2), var(3))),
            def(pvar(9), mul(add(var(2), var(3)), var(2))),
        ],
        vec![
            equal(var(1), con(4)),
            equal(mul(var(2), var(3)), var(1)),
            equal(con(6), neg(var(2))),
            equal(add(var(1), var(2)), mul(var(2), var(3))),
            var(5),
        ],
    );
    let mut m = Module::default();
    let mut gen = VarGen::starting_at(20);
    assert_eq!(
        flatten_module_to_3ac(&source, &witnesses(&[9]), &mut m, &mut gen),
        Ok(())
    );
    let sum23 = int_infix(InfixOp::Add, var(2), var(3));
    let prod23 = int_infix(InfixOp::Multiply, var(2), var(3));
    let sum12 = int_infix(InfixOp::Add, var(1), var(2));
    assert_eq!(
        m,
        module(
            vec![
                def(pvar(1), sum23.clone()),
                def(pvar(9), mul(add(var(2), var(3)), var(2))),
                def(pvar(23), sum12.clone()),
                def(pvar(24), prod23.clone()),
            ],
            vec![
                equal(var(1), sum23),
                equal(var(1), con(4)),
                equal(var(1), prod23.clone()),
                equal(con(6), neg(var(2))),
                equal(var(23), sum12),
                equal(var(24), prod23),
                equal(var(23), var(24)),
            ],
        )
    );
    assert_eq!(gen.generate_id(), 25);
    for d in &m.defs {
        assert!(three_address(&d.0 .1) || d.0 .0 == pvar(9));
    }
}

#[test]
fn a_definition_of_anything_but_a_variable_cannot_be_reduced() {
    let source = module(vec![def(Pattern::Constant(1), var(2))], vec![]);
    let mut m = Module::default();
    let mut gen = VarGen::starting_at(20);
    assert_eq!(
        flatten_module_to_3ac(&source, &HashSet::new(), &mut m, &mut gen),
        Err(CompileError::InternalInvariantViolation)
    );
}

fn value_of(e: &TExpr, env: &HashMap<VariableId, i64>) -> i64 {
    match &e.v {
        Expr::Constant(c) => *c as i64,
        Expr::Variable(v) => env[&v.id],
        Expr::Negate(a) => -value_of(a, env),
        Expr::Infix(InfixOp::Add, a, b) => value_of(a, env) + value_of(b, env),
        Expr::Infix(InfixOp::Subtract, a, b) => value_of(a, env) - value_of(b, env),
        Expr::Infix(InfixOp::Multiply, a, b) => value_of(a, env) * value_of(b, env),
        Expr::Infix(InfixOp::Exponentiate, a, b) => value_of(a, env).pow(value_of(b, env) as u32),
        _ => 0,
    }
}

#[test]
fn the_temporaries_of_a_reduction_compute_what_the_expression_denotes() {
    for base in [-3, 0, 1, 2, 5] {
        for k in 0..12 {
            let expr = add(
                mul(power(add(var(1), con(1)), k), var(2)),
                neg(power(var(1), 3)),
            );
            let mut m = Module::default();
            let mut gen = VarGen::starting_at(10);
            let out = flatten_expr_to_3ac(None, &expr, &mut m, &mut gen).unwrap();
            let mut env: HashMap<VariableId, i64> = HashMap::new();
            env.insert(1, base);
            env.insert(2, 7);
            for d in &m.defs {
                if let Pattern::Variable(v) = &d.0 .0 {
                    let value = value_of(&d.0 .1, &env);
                    env.insert(v.id, value);
                }
            }
            for c in &m.exprs {
                if let Expr::Infix(InfixOp::Equal, a, b) = &c.v {
                    assert_eq!(value_of(a, &env), value_of(b, &env));
                }
            }
            assert_eq!(value_of(&out.to_expr(), &env), value_of(&expr, &env));
        }
    }
}
