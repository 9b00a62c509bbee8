#![allow(dead_code)]

use std::collections::{HashMap, HashSet};
use vamp_ir::ast::{
    Definition, Expr, Function, InfixOp, Intrinsic, IntrinsicKind, LetBinding, Match, Module,
    Pattern, TExpr, Type, Variable, VariableId,
};
use vamp_ir::error::CompileError;
use vamp_ir::vargen::VarGen;

fn var(id: VariableId) -> TExpr {
    TExpr::untyped(Expr::Variable(Variable::new(id)))
}

fn named(name: &str, id: VariableId) -> TExpr {
    TExpr::untyped(Expr::Variable(Variable {
        name: Some(name.to_string()),
        id,
    }))
}

fn con(c: i32) -> TExpr {
    TExpr::untyped(Expr::Constant(c))
}

fn unit() -> TExpr {
    TExpr::untyped(Expr::Unit)
}

fn nil() -> TExpr {
    TExpr::untyped(Expr::Nil)
}

fn infix(op: InfixOp, a: TExpr, b: TExpr) -> TExpr {
    TExpr::untyped(Expr::Infix(op, Box::new(a), Box::new(b)))
}

fn int_infix(op: InfixOp, a: TExpr, b: TExpr) -> TExpr {
    TExpr {
        v: Expr::Infix(op, Box::new(a), Box::new(b)),
        t: Some(Type::Int),
    }
}

fn mul(a: TExpr, b: TExpr) -> TExpr {
    infix(InfixOp::Multiply, a, b)
}

fn add(a: TExpr, b: TExpr) -> TExpr {
    infix(InfixOp::Add, a, b)
}

fn equal(a: TExpr, b: TExpr) -> TExpr {
    infix(InfixOp::Equal, a, b)
}

fn power(a: TExpr, k: i32) -> TExpr {
    infix(InfixOp::Exponentiate, a, con(k))
}

fn neg(a: TExpr) -> TExpr {
    TExpr::untyped(Expr::Negate(Box::new(a)))
}

fn product(a: TExpr, b: TExpr) -> TExpr {
    TExpr::untyped(Expr::Product(Box::new(a), Box::new(b)))
}

fn cons(a: TExpr, b: TExpr) -> TExpr {
    TExpr::untyped(Expr::Cons(Box::new(a), Box::new(b)))
}

fn app(f: TExpr, x: TExpr) -> TExpr {
    TExpr::untyped(Expr::Application(Box::new(f), Box::new(x)))
}

fn seq(es: Vec<TExpr>) -> TExpr {
    TExpr::untyped(Expr::Sequence(es))
}

fn func(params: Vec<Pattern>, body: TExpr) -> TExpr {
    TExpr::untyped(Expr::Function(Function(params, Box::new(body))))
}

fn let_in(p: Pattern, bound: TExpr, body: TExpr) -> TExpr {
    TExpr::untyped(Expr::LetBinding(
        LetBinding(p, Box::new(bound)),
        Box::new(body),
    ))
}

fn match_on(s: TExpr, branches: Vec<(Pattern, TExpr)>) -> TExpr {
    TExpr::untyped(Expr::Match(Match(Box::new(s), branches)))
}

fn intrinsic(kind: IntrinsicKind, args: Vec<TExpr>) -> TExpr {
    TExpr::untyped(Expr::Intrinsic(Intrinsic {
        arity: 1,
        imp_typ: Type::Unit,
        imp: kind,
        args,
    }))
}

fn pvar(id: VariableId) -> Pattern {
    Pattern::Variable(Variable::new(id))
}

fn pnamed(name: &str, id: VariableId) -> Pattern {
    Pattern::Variable(Variable {
        name: Some(name.to_string()),
        id,
    })
}

fn pproduct(a: Pattern, b: Pattern) -> Pattern {
    Pattern::Product(Box::new(a), Box::new(b))
}

fn pcons(a: Pattern, b: Pattern) -> Pattern {
    Pattern::Cons(Box::new(a), Box::new(b))
}

fn alias(p: Pattern, id: VariableId) -> Pattern {
    Pattern::As(Box::new(p), Variable::new(id))
}

fn def(p: Pattern, e: TExpr) -> Definition {
    Definition(LetBinding(p, Box::new(e)))
}

fn module(defs: Vec<Definition>, exprs: Vec<TExpr>) -> Module {
    Module { defs, exprs }
}

fn witnesses(ids: &[VariableId]) -> HashSet<VariableId> {
    ids.iter().copied().collect()
}

fn bindings(pairs: Vec<(VariableId, TExpr)>) -> HashMap<VariableId, TExpr> {
    pairs.into_iter().collect()
}

const FUEL: usize = 1000;

use vamp_ir::circuit::generate_circuit;
use vamp_ir::dead_code::eliminate_dead_definitions;
use vamp_ir::flatten::flatten_module;
use vamp_ir::inline::apply_module_functions;
use vamp_ir::intrinsics::{register_fresh_intrinsic, register_iter_intrinsic};
use vamp_ir::lists::module_lists_to_tuples;
use vamp_ir::names::NameMap;
use vamp_ir::numbering::number_module_variables;
use vamp_ir::optimize::{copy_propagate, eliminate_dead_equalities};
use vamp_ir::three_address::flatten_module_to_3ac;

fn source(name: &str) -> TExpr {
    named(name, 0)
}

fn binder(name: &str) -> Pattern {
    pnamed(name, 0)
}

/// Stands in for the type engine, which turns every binding of a function
/// into a binding of unit once the function has been inlined where it was
/// called.
fn unitize(e: &mut TExpr) {
    match &mut e.v {
        Expr::LetBinding(b, body) => {
            unitize(&mut b.1);
            if let Expr::Function(_) = b.1.v {
                b.0 = Pattern::Unit;
                *b.1 = unit();
            }
            unitize(body);
        }
        Expr::Sequence(es) => es.iter_mut().for_each(unitize),
        Expr::Infix(_, a, b) | Expr::Product(a, b) | Expr::Cons(a, b) => {
            unitize(a);
            unitize(b);
        }
        Expr::Negate(a) => unitize(a),
        _ => {}
    }
}

fn unitize_module(m: &mut Module) {
    for d in &mut m.defs {
        unitize(&mut d.0 .1);
        if let Expr::Function(_) = d.0 .1.v {
            d.0 .0 = Pattern::Unit;
            *d.0 .1 = unit();
        }
    }
    m.exprs.iter_mut().for_each(unitize);
}

/// The stages of a compilation, with `unitize_module` where the type engine
/// has its turn. The programs below are programs of scalars, which need no
/// more of it.
fn compile(mut m: Module) -> Result<(Module, HashSet<VariableId>), CompileError> {
    let mut gen = VarGen::new();
    let mut globals = NameMap::new();
    let mut env = HashMap::new();
    let mut types = HashMap::new();
    register_fresh_intrinsic(&mut globals, &mut env, &mut types, &mut gen)?;
    register_iter_intrinsic(&mut globals, &mut env, &mut types, &mut gen)?;
    number_module_variables(&mut m, &mut globals, &mut gen)?;
    let mut prover = HashSet::new();
    apply_module_functions(&mut m, &mut env, &mut prover, &mut gen, FUEL)?;
    unitize_module(&mut m);
    module_lists_to_tuples(&mut m);
    let circuit = generate_circuit(&m, &prover, &mut gen, FUEL)?;
    Ok((circuit, prover))
}

#[test]
fn a_witness_keeps_its_definition_and_its_constraint() {
    let square = || mul(source("x"), source("x"));
    let program = let_in(
        binder("x"),
        con(2),
        let_in(
            binder("y"),
            app(source("fresh"), square()),
            equal(source("y"), square()),
        ),
    );
    let (compiled, prover) = compile(module(vec![], vec![program])).unwrap();
    assert_eq!(prover, witnesses(&[6]));
    assert_eq!(
        compiled,
        module(
            vec![def(pvar(6), mul(con(2), con(2)))],
            vec![equal(var(6), int_infix(InfixOp::Multiply, con(2), con(2)))],
        )
    );
}

#[test]
fn an_equality_of_a_variable_with_itself_vanishes() {
    let program = let_in(binder("x"), source("a"), equal(source("x"), source("a")));
    let (compiled, _) = compile(module(vec![], vec![program])).unwrap();
    assert_eq!(compiled, Module::default());
}

#[test]
fn an_inlined_call_ends_in_a_single_multiplication() {
    let double = func(vec![binder("x")], mul(source("x"), con(2)));
    let m = module(
        vec![def(binder("t"), app(double, con(3)))],
        vec![equal(source("t"), source("out"))],
    );
    let (compiled, _) = compile(m).unwrap();
    let gate = int_infix(InfixOp::Multiply, con(3), con(2));
    assert_eq!(
        compiled,
        module(
            vec![def(pnamed("t", 5), gate.clone())],
            vec![
                equal(named("t", 5), gate),
                equal(named("t", 5), named("out", 6))
            ],
        )
    );
}

#[test]
fn a_loop_is_unrolled_into_a_chain_of_gates() {
    let step = func(vec![binder("a")], mul(source("a"), source("a")));
    let m = module(
        vec![],
        vec![equal(
            source("out"),
            app(app(app(source("iter"), con(2)), step), source("in")),
        )],
    );
    let (compiled, prover) = compile(m).unwrap();
    assert!(prover.is_empty());
    assert_eq!(compiled.defs.len(), 1);
    assert_eq!(compiled.exprs.len(), 2);
    let multiplications = compiled
        .exprs
        .iter()
        .filter(|e| match &e.v {
            Expr::Infix(InfixOp::Equal, _, rhs) => {
                matches!(rhs.v, Expr::Infix(InfixOp::Multiply, _, _))
            }
            _ => false,
        })
        .count();
    assert_eq!(multiplications, 2);
}

#[test]
fn a_match_on_a_tuple_is_resolved_at_compile_time() {
    let swap = func(
        vec![binder("p")],
        match_on(
            source("p"),
            vec![
                (pproduct(Pattern::Constant(0), binder("b")), source("b")),
                (
                    pproduct(binder("a"), binder("b")),
                    add(source("a"), source("b")),
                ),
            ],
        ),
    );
    let mut m = module(
        vec![
            def(binder("f"), swap),
            def(binder("r"), app(source("f"), product(con(1), source("in")))),
        ],
        vec![equal(source("r"), source("out"))],
    );
    let mut gen = VarGen::new();
    let mut globals = NameMap::new();
    let mut env = HashMap::new();
    let mut prover = HashSet::new();
    number_module_variables(&mut m, &mut globals, &mut gen).unwrap();
    apply_module_functions(&mut m, &mut env, &mut prover, &mut gen, FUEL).unwrap();
    let r = globals.get(&"r".to_string()).unwrap();
    let input = globals.get(&"in".to_string()).unwrap();
    assert_eq!(env.get(&r), Some(&add(con(1), named("in", input))));
}

#[test]
fn a_program_with_a_symbolic_match_does_not_compile() {
    let m = module(
        vec![],
        vec![match_on(
            source("x"),
            vec![(Pattern::Constant(0), con(1)), (binder("y"), con(2))],
        )],
    );
    assert_eq!(
        compile(m),
        Err(CompileError::IndeterminateMatch(
            Pattern::Constant(0),
            named("x", 4)
        ))
    );
}

#[test]
fn a_program_with_a_symbolic_exponent_does_not_compile() {
    let m = module(
        vec![],
        vec![equal(
            source("y"),
            infix(InfixOp::Exponentiate, source("x"), source("n")),
        )],
    );
    assert_eq!(
        compile(m),
        Err(CompileError::SymbolicExponent(named("n", 6)))
    );
}

#[test]
fn the_circuit_is_what_the_stages_give_one_after_another() {
    let source = module(
        vec![
            def(pvar(1), add(var(7), con(0))),
            def(pvar(2), let_in(pvar(3), mul(var(1), var(1)), neg(var(3)))),
            def(pvar(9), mul(add(var(1), var(2)), var(7))),
            def(pvar(4), con(5)),
        ],
        vec![
            equal(product(var(2), var(9)), product(power(var(7), 3), var(8))),
            equal(var(4), con(5)),
        ],
    );
    let prover = witnesses(&[9]);
    let mut gen = VarGen::starting_at(20);
    let circuit = generate_circuit(&source, &prover, &mut gen, FUEL).unwrap();

    let mut staged_gen = VarGen::starting_at(20);
    let mut flat = Module::default();
    flatten_module(&source, &mut flat).unwrap();
    let mut staged = Module::default();
    flatten_module_to_3ac(&flat, &prover, &mut staged, &mut staged_gen).unwrap();
    copy_propagate(&mut staged, &prover, FUEL).unwrap();
    eliminate_dead_equalities(&mut staged);
    eliminate_dead_definitions(&mut staged).unwrap();
    assert_eq!(circuit, staged);
    assert_eq!(gen.generate_id(), staged_gen.generate_id());

    let atomic = |e: &TExpr| matches!(e.v, Expr::Constant(_) | Expr::Variable(_));
    for d in &circuit.defs {
        let reduced = match &d.0 .1.v {
            Expr::Negate(a) => atomic(a),
            Expr::Infix(_, a, b) => atomic(a) && atomic(b),
            _ => atomic(&d.0 .1),
        };
        assert!(reduced || d.0 .0 == pvar(9));
        assert!(matches!(d.0 .0, Pattern::Variable(_)));
    }
    assert_eq!(circuit.defs.iter().filter(|d| d.0 .0 == pvar(9)).count(), 1);
    assert!(circuit.defs.iter().all(|d| d.0 .0 != pvar(4)));
}
