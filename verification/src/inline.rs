//! The inliner: a call-by-value normalizer that removes every function
//! application and every match by evaluating them at compile time.

use vstd::prelude::*;
use std::collections::{HashMap, HashSet};
use crate::ast::{
    Definition, DefinitionView, Expr, ExprView, Function, Intrinsic, IntrinsicView, LetBinding,
    Module, ModuleView, Pattern, PatternView, TExpr, TExprView, Type, TypeView, VariableId,
    branches_view, clone_expr, clone_opt_type, clone_pattern, clone_texpr, clone_texprs, clone_type,
    definitions_view, opt_type_view, patterns_view, texprs_view, untyped,
};
use crate::env::{bindings_view, clone_bindings, introduced, is_witness, lookup, push_texpr};
use crate::error::{CompileError, ErrorView};
use crate::intrinsics::apply_intrinsic;
use crate::matching::{Tribool, match_pattern, match_pattern_expr};
use crate::normal_form::{
    all_inlined, each_inlined, inlined, lemma_match_keeps_inlined, lemma_propagate_keeps_inlined,
};
use crate::optimize::{propagate, propagate_introduced};
use crate::renaming::{refresh_expr, refresh_expr_variables};
use crate::vargen::VarGen;

verus! {

broadcast use vstd::std_specs::hash::group_hash_axioms;

/// What normalizing an expression gives: the expression with its
/// applications and matches replaced by let-bindings (`tree`), the value that
/// it evaluates to (`value`), and the state that the evaluation leaves.
pub struct Normalized {
    pub tree: TExprView,
    pub value: TExprView,
    pub prover: Set<VariableId>,
    pub next: nat,
}

/// What normalizing a list of expressions in order gives.
pub struct NormalizedAll {
    pub trees: Seq<TExprView>,
    pub values: Seq<TExprView>,
    pub prover: Set<VariableId>,
    pub next: nat,
}

/// The application of the function literal `function` to `arg`, as a binding
/// of its first parameter to `arg`. The body of the binding is the function
/// with the parameters that are left, or its body where none is left.
pub open spec fn peel_parameter(function: TExprView, arg: TExprView) -> Result<
    TExprView,
    ErrorView,
> {
    match function.v {
        ExprView::Function(ps, body) => if ps.len() == 0 {
            Err(ErrorView::InternalInvariantViolation)
        } else {
            Ok(
                untyped(
                    ExprView::LetBinding(
                        ps[0],
                        Box::new(arg),
                        Box::new(
                            if ps.len() == 1 {
                                *body
                            } else {
                                TExprView {
                                    v: ExprView::Function(ps.drop_first(), body),
                                    t: function.t,
                                }
                            },
                        ),
                    ),
                ),
            )
        },
        _ => Err(ErrorView::InternalInvariantViolation),
    }
}

/// The normal form of `e` in the environment `bindings`, to a nesting depth of
/// at most `fuel`; beyond it the result is `RecursionLimit`.
///
/// An application is reduced by the shape of its callee, a let-binding and a
/// match as the functions below say. A sequence normalizes its elements in
/// order, and its value is that of the last one; a sequence without elements
/// is `InternalInvariantViolation`. A pair, a list cell, an infix expression
/// and a negation normalize their operands, left first, and their value is
/// built from the operands' values, without a type. A built-in on its own has
/// its arguments replaced by their values. A variable evaluates to its
/// binding, unless it has none or is a witness; then it evaluates to itself.
/// Constants, unit, the empty list and function literals evaluate to
/// themselves, without a type.
pub open spec fn normalize(
    e: TExprView,
    bindings: Map<VariableId, TExprView>,
    prover: Set<VariableId>,
    next: nat,
    fuel: nat,
) -> Result<Normalized, ErrorView>
    decreases fuel, 0nat,
{
    if fuel == 0 {
        Err(ErrorView::RecursionLimit)
    } else {
        let f = (fuel - 1) as nat;
        match e.v {
            ExprView::Application(e1, e2) => normalize_application(
                *e1,
                *e2,
                e.t,
                bindings,
                prover,
                next,
                f,
            ),
            ExprView::LetBinding(p, b, body) => normalize_let(
                p,
                *b,
                *body,
                e.t,
                bindings,
                prover,
                next,
                f,
            ),
            ExprView::Match(s, bs) => match normalize(*s, bindings, prover, next, f) {
                Ok(ns) => select_branch(
                    ns.tree,
                    ns.value,
                    bs,
                    0,
                    e.t,
                    bindings,
                    ns.prover,
                    ns.next,
                    f,
                ),
                Err(x) => Err(x),
            },
            ExprView::Sequence(es) => if es.len() == 0 {
                Err(ErrorView::InternalInvariantViolation)
            } else {
                match normalize_each_from(
                    es,
                    0,
                    Seq::empty(),
                    Seq::empty(),
                    bindings,
                    prover,
                    next,
                    f,
                ) {
                    Ok(r) => Ok(
                        Normalized {
                            tree: TExprView { v: ExprView::Sequence(r.trees), t: e.t },
                            value: r.values.last(),
                            prover: r.prover,
                            next: r.next,
                        },
                    ),
                    Err(x) => Err(x),
                }
            },
            ExprView::Intrinsic(i) => match normalize_each_from(
                i.args,
                0,
                Seq::empty(),
                Seq::empty(),
                bindings,
                prover,
                next,
                f,
            ) {
                Ok(r) => Ok(
                    Normalized {
                        tree: TExprView {
                            v: ExprView::Intrinsic(
                                IntrinsicView {
                                    arity: i.arity,
                                    imp_typ: i.imp_typ,
                                    imp: i.imp,
                                    args: r.values,
                                },
                            ),
                            t: e.t,
                        },
                        value: untyped(
                            ExprView::Intrinsic(
                                IntrinsicView {
                                    arity: i.arity,
                                    imp_typ: i.imp_typ,
                                    imp: i.imp,
                                    args: r.values,
                                },
                            ),
                        ),
                        prover: r.prover,
                        next: r.next,
                    },
                ),
                Err(x) => Err(x),
            },
            ExprView::Product(a, b) => match normalize(*a, bindings, prover, next, f) {
                Ok(na) => match normalize(*b, bindings, na.prover, na.next, f) {
                    Ok(nb) => Ok(
                        Normalized {
                            tree: TExprView {
                                v: ExprView::Product(Box::new(na.tree), Box::new(nb.tree)),
                                t: e.t,
                            },
                            value: untyped(
                                ExprView::Product(Box::new(na.value), Box::new(nb.value)),
                            ),
                            prover: nb.prover,
                            next: nb.next,
                        },
                    ),
                    Err(x) => Err(x),
                },
                Err(x) => Err(x),
            },
            ExprView::Cons(a, b) => match normalize(*a, bindings, prover, next, f) {
                Ok(na) => match normalize(*b, bindings, na.prover, na.next, f) {
                    Ok(nb) => Ok(
                        Normalized {
                            tree: TExprView {
                                v: ExprView::Cons(Box::new(na.tree), Box::new(nb.tree)),
                                t: e.t,
                            },
                            value: untyped(ExprView::Cons(Box::new(na.value), Box::new(nb.value))),
                            prover: nb.prover,
                            next: nb.next,
                        },
                    ),
                    Err(x) => Err(x),
                },
                Err(x) => Err(x),
            },
            ExprView::Infix(op, a, b) => match normalize(*a, bindings, prover, next, f) {
                Ok(na) => match normalize(*b, bindings, na.prover, na.next, f) {
                    Ok(nb) => Ok(
                        Normalized {
                            tree: TExprView {
                                v: ExprView::Infix(op, Box::new(na.tree), Box::new(nb.tree)),
                                t: e.t,
                            },
                            value: untyped(
                                ExprView::Infix(op, Box::new(na.value), Box::new(nb.value)),
                            ),
                            prover: nb.prover,
                            next: nb.next,
                        },
                    ),
                    Err(x) => Err(x),
                },
                Err(x) => Err(x),
            },
            ExprView::Negate(a) => match normalize(*a, bindings, prover, next, f) {
                Ok(na) => Ok(
                    Normalized {
                        tree: TExprView { v: ExprView::Negate(Box::new(na.tree)), t: e.t },
                        value: untyped(ExprView::Negate(Box::new(na.value))),
                        prover: na.prover,
                        next: na.next,
                    },
                ),
                Err(x) => Err(x),
            },
            ExprView::Constant(_) | ExprView::Unit | ExprView::Nil | ExprView::Function(_, _) => Ok(
                Normalized { tree: e, value: untyped(e.v), prover, next },
            ),
            ExprView::Variable(var) => Ok(
                Normalized {
                    tree: e,
                    value: if bindings.contains_key(var.id) && !prover.contains(var.id) {
                        bindings[var.id]
                    } else {
                        e
                    },
                    prover,
                    next,
                },
            ),
        }
    }
}

/// The normal form of the application of `e1` to `e2`, where the application
/// has the type `t`.
///
/// A callee that is itself an application or a match is normalized first. A
/// built-in takes the value of the argument, and what it gives is normalized.
/// A variable that is bound and no witness is replaced by its binding; any
/// other variable is `UnboundVariable`. A function literal is renamed, and
/// the binding of its first parameter to the argument is normalized. A
/// sequence and a let-binding pass the argument on to their last element and
/// to their body. Any other callee is `NotAFunction`.
pub open spec fn normalize_application(
    e1: TExprView,
    e2: TExprView,
    t: Option<TypeView>,
    bindings: Map<VariableId, TExprView>,
    prover: Set<VariableId>,
    next: nat,
    f: nat,
) -> Result<Normalized, ErrorView>
    decreases f, 1nat,
{
    match e1.v {
        ExprView::Application(_, _) | ExprView::Match(_, _) => match normalize(
            e1,
            bindings,
            prover,
            next,
            f,
        ) {
            Ok(n1) => normalize(
                TExprView { v: ExprView::Application(Box::new(n1.tree), Box::new(e2)), t },
                bindings,
                n1.prover,
                n1.next,
                f,
            ),
            Err(x) => Err(x),
        },
        ExprView::Intrinsic(i) => match normalize(e2, bindings, prover, next, f) {
            Ok(n2) => match apply_intrinsic(i, n2.value, bindings, n2.prover, n2.next, f) {
                Ok(x) => normalize(x.term, bindings, x.prover, x.next, f),
                Err(x) => Err(x),
            },
            Err(x) => Err(x),
        },
        ExprView::Variable(var) => if bindings.contains_key(var.id) && !prover.contains(var.id) {
            normalize(
                untyped(ExprView::Application(Box::new(bindings[var.id]), Box::new(e2))),
                bindings,
                prover,
                next,
                f,
            )
        } else {
            Err(ErrorView::UnboundVariable(var))
        },
        ExprView::Function(_, _) => match refresh_expr(e1, Map::empty(), prover, next) {
            Ok(r) => match peel_parameter(r.term, e2) {
                Ok(binding) => normalize(binding, bindings, r.prover, r.next, f),
                Err(x) => Err(x),
            },
            Err(x) => Err(x),
        },
        ExprView::Sequence(es) => if es.len() == 0 {
            Err(ErrorView::InternalInvariantViolation)
        } else {
            normalize(
                TExprView {
                    v: ExprView::Sequence(
                        es.drop_last().push(
                            untyped(ExprView::Application(Box::new(es.last()), Box::new(e2))),
                        ),
                    ),
                    t: e1.t,
                },
                bindings,
                prover,
                next,
                f,
            )
        },
        ExprView::LetBinding(p, b, body) => normalize(
            TExprView {
                v: ExprView::LetBinding(
                    p,
                    b,
                    Box::new(untyped(ExprView::Application(body, Box::new(e2)))),
                ),
                t: e1.t,
            },
            bindings,
            prover,
            next,
            f,
        ),
        ExprView::Infix(_, _, _)
        | ExprView::Negate(_)
        | ExprView::Product(_, _)
        | ExprView::Cons(_, _)
        | ExprView::Constant(_)
        | ExprView::Unit
        | ExprView::Nil => Err(ErrorView::NotAFunction(e1)),
    }
}

/// The normal form of `let p = b in body`, which has the type `t`. The bound
/// expression is normalized and its value matched against the pattern, in a
/// copy of the environment; the outcome of the match is not looked at. The
/// body is normalized in the environment so extended. In the value of the
/// body the variables that this binding introduced, witnesses apart, are
/// replaced once more.
pub open spec fn normalize_let(
    p: PatternView,
    b: TExprView,
    body: TExprView,
    t: Option<TypeView>,
    bindings: Map<VariableId, TExprView>,
    prover: Set<VariableId>,
    next: nat,
    f: nat,
) -> Result<Normalized, ErrorView>
    decreases f, 1nat,
{
    match normalize(b, bindings, prover, next, f) {
        Ok(nb) => match match_pattern(p, nb.value, bindings, nb.prover, nb.next, f) {
            Ok(m) => match normalize(body, m.map, m.prover, m.next, f) {
                Ok(n) => match propagate(n.value, introduced(m.map, bindings, n.prover), f) {
                    Ok(value) => Ok(
                        Normalized {
                            tree: TExprView {
                                v: ExprView::LetBinding(p, Box::new(nb.tree), Box::new(n.tree)),
                                t,
                            },
                            value,
                            prover: n.prover,
                            next: n.next,
                        },
                    ),
                    Err(x) => Err(x),
                },
                Err(x) => Err(x),
            },
            Err(x) => Err(x),
        },
        Err(x) => Err(x),
    }
}

/// The normal form of a match whose scrutinee has the normal form `tree` and
/// the value `value`, by its branches from the `i`-th on. The first branch
/// whose pattern accepts the value is taken: the match becomes the binding of
/// that pattern to the scrutinee, with the branch as body. A pattern that
/// cannot decide is `IndeterminateMatch`, and no branch left is
/// `NonExhaustiveMatch`. Each match is tried in a copy of the environment.
pub open spec fn select_branch(
    tree: TExprView,
    value: TExprView,
    bs: Seq<(PatternView, TExprView)>,
    i: nat,
    t: Option<TypeView>,
    bindings: Map<VariableId, TExprView>,
    prover: Set<VariableId>,
    next: nat,
    f: nat,
) -> Result<Normalized, ErrorView>
    decreases f, 1 + bs.len() - i,
{
    if i >= bs.len() {
        Err(ErrorView::NonExhaustiveMatch(tree))
    } else {
        match match_pattern(bs[i as int].0, value, bindings, prover, next, f) {
            Ok(m) => match m.outcome {
                Tribool::True => normalize(
                    TExprView {
                        v: ExprView::LetBinding(
                            bs[i as int].0,
                            Box::new(tree),
                            Box::new(bs[i as int].1),
                        ),
                        t,
                    },
                    bindings,
                    m.prover,
                    m.next,
                    f,
                ),
                Tribool::Indeterminate => Err(ErrorView::IndeterminateMatch(bs[i as int].0, value)),
                Tribool::False => select_branch(
                    tree,
                    value,
                    bs,
                    i + 1,
                    t,
                    bindings,
                    m.prover,
                    m.next,
                    f,
                ),
            },
            Err(x) => Err(x),
        }
    }
}

/// `trees` and `values` followed by the normal forms and the values of
/// `es[i..]`, each normalized in the state that the one before it left.
pub open spec fn normalize_each_from(
    es: Seq<TExprView>,
    i: nat,
    trees: Seq<TExprView>,
    values: Seq<TExprView>,
    bindings: Map<VariableId, TExprView>,
    prover: Set<VariableId>,
    next: nat,
    f: nat,
) -> Result<NormalizedAll, ErrorView>
    decreases f, 1 + es.len() - i,
{
    if i >= es.len() {
        Ok(NormalizedAll { trees, values, prover, next })
    } else {
        match normalize(es[i as int], bindings, prover, next, f) {
            Ok(n) => normalize_each_from(
                es,
                i + 1,
                trees.push(n.tree),
                values.push(n.value),
                bindings,
                n.prover,
                n.next,
                f,
            ),
            Err(x) => Err(x),
        }
    }
}

/// Whether the outcome `r` of an executable normalization, a normal form and
/// a value, with the state it left, is what the model `m` prescribes.
pub open spec fn normalized_as(
    m: Result<Normalized, ErrorView>,
    r: Result<(TExpr, TExpr), CompileError>,
    prover: Set<VariableId>,
    next: nat,
) -> bool {
    match r {
        Ok((tree, value)) => m == Ok::<Normalized, ErrorView>(
            Normalized { tree: tree@, value: value@, prover, next },
        ),
        Err(e) => m == Err::<Normalized, ErrorView>(e@),
    }
}

/// Whether a normal form and a value, if the normalization gave them, are
/// free of applications and matches.
pub open spec fn inlined_result(r: Result<(TExpr, TExpr), CompileError>) -> bool {
    match r {
        Ok((tree, value)) => inlined(tree@) && inlined(value@),
        Err(_) => true,
    }
}

/// Turns the application of a function literal into the binding of its first
/// parameter.
fn peel(function: TExpr, arg: TExpr) -> (r: Result<TExpr, CompileError>)
    ensures
        match r {
            Ok(b) => peel_parameter(function@, arg@) == Ok::<TExprView, ErrorView>(b@),
            Err(e) => peel_parameter(function@, arg@) == Err::<TExprView, ErrorView>(e@),
        },
{
    let TExpr { v, t } = function;
    match v {
        Expr::Function(fun) => {
            let Function(mut params, body) = fun;
            let ghost ps = patterns_view(params@);
            let ghost body_view = (*body)@;
            assert(function@.v == ExprView::Function(ps, Box::new(body_view)));
            assert(ps.len() == params.len());
            if params.len() == 0 {
                return Err(CompileError::InternalInvariantViolation);
            }
            let first = params.remove(0);
            assert(patterns_view(params@) =~= ps.drop_first());
            assert(first@ == ps[0]);
            let rest = if params.len() == 0 {
                *body
            } else {
                TExpr { v: Expr::Function(Function(params, body)), t }
            };
            assert(rest@ == if ps.len() == 1 {
                body_view
            } else {
                TExprView {
                    v: ExprView::Function(ps.drop_first(), Box::new(body_view)),
                    t: function@.t,
                }
            });
            let binding = Expr::LetBinding(LetBinding(first, Box::new(arg)), Box::new(rest));
            assert(binding@ == ExprView::LetBinding(ps[0], Box::new(arg@), Box::new(rest@)));
            Ok(TExpr::untyped(binding))
        },
        _ => Err(CompileError::InternalInvariantViolation),
    }
}

/// The normal form and the value of the given expression. Calls, bindings
/// and operands are followed to a nesting depth of `fuel`. Where every
/// binding of the environment is free of applications and matches, so are
/// the normal form and the value.
pub fn normalize_expr(
    expr: &TExpr,
    bindings: &HashMap<VariableId, TExpr>,
    prover_defs: &mut HashSet<VariableId>,
    gen: &mut VarGen,
    fuel: usize,
) -> (r: Result<(TExpr, TExpr), CompileError>)
    ensures
        normalized_as(
            normalize(
                expr@,
                bindings_view(bindings@),
                old(prover_defs)@,
                old(gen)@,
                fuel as nat,
            ),
            r,
            final(prover_defs)@,
            final(gen)@,
        ),
        all_inlined(bindings_view(bindings@)) ==> inlined_result(r),
    decreases fuel, 0nat,
{
    if fuel == 0 {
        return Err(CompileError::RecursionLimit);
    }
    let f = fuel - 1;
    match &expr.v {
        Expr::Application(e1, e2) => normalize_call(e1, e2, &expr.t, bindings, prover_defs, gen, f),
        Expr::LetBinding(b, body) => normalize_binding(
            &b.0,
            &b.1,
            body,
            &expr.t,
            bindings,
            prover_defs,
            gen,
            f,
        ),
        Expr::Match(m) => {
            let (tree, value) = normalize_expr(&m.0, bindings, prover_defs, gen, f)?;
            normalize_match(&tree, &value, &m.1, &expr.t, bindings, prover_defs, gen, f)
        },
        Expr::Sequence(es) => {
            assert(texprs_view(es@).len() == es.len());
            if es.len() == 0 {
                return Err(CompileError::InternalInvariantViolation);
            }
            let (trees, mut values) = normalize_each(es, bindings, prover_defs, gen, f)?;
            let ghost all = texprs_view(values@);
            assert(all.len() == values.len());
            let value = values.pop().unwrap();
            assert(value@ == all.last());
            Ok((TExpr { v: Expr::Sequence(trees), t: clone_opt_type(&expr.t) }, value))
        },
        Expr::Intrinsic(i) => {
            let (_trees, values) = normalize_each(&i.args, bindings, prover_defs, gen, f)?;
            let tree = TExpr {
                v: Expr::Intrinsic(
                    Intrinsic {
                        arity: i.arity,
                        imp_typ: clone_type(&i.imp_typ),
                        imp: i.imp,
                        args: clone_texprs(&values),
                    },
                ),
                t: clone_opt_type(&expr.t),
            };
            let value = TExpr::untyped(
                Expr::Intrinsic(
                    Intrinsic {
                        arity: i.arity,
                        imp_typ: clone_type(&i.imp_typ),
                        imp: i.imp,
                        args: values,
                    },
                ),
            );
            Ok((tree, value))
        },
        Expr::Product(a, b) => {
            let (ta, va) = normalize_expr(a, bindings, prover_defs, gen, f)?;
            let (tb, vb) = normalize_expr(b, bindings, prover_defs, gen, f)?;
            Ok(
                (
                    TExpr {
                        v: Expr::Product(Box::new(ta), Box::new(tb)),
                        t: clone_opt_type(&expr.t),
                    },
                    TExpr::untyped(Expr::Product(Box::new(va), Box::new(vb))),
                ),
            )
        },
        Expr::Cons(a, b) => {
            let (ta, va) = normalize_expr(a, bindings, prover_defs, gen, f)?;
            let (tb, vb) = normalize_expr(b, bindings, prover_defs, gen, f)?;
            Ok(
                (
                    TExpr { v: Expr::Cons(Box::new(ta), Box::new(tb)), t: clone_opt_type(&expr.t) },
                    TExpr::untyped(Expr::Cons(Box::new(va), Box::new(vb))),
                ),
            )
        },
        Expr::Infix(op, a, b) => {
            let (ta, va) = normalize_expr(a, bindings, prover_defs, gen, f)?;
            let (tb, vb) = normalize_expr(b, bindings, prover_defs, gen, f)?;
            Ok(
                (
                    TExpr {
                        v: Expr::Infix(*op, Box::new(ta), Box::new(tb)),
                        t: clone_opt_type(&expr.t),
                    },
                    TExpr::untyped(Expr::Infix(*op, Box::new(va), Box::new(vb))),
                ),
            )
        },
        Expr::Negate(a) => {
            let (ta, va) = normalize_expr(a, bindings, prover_defs, gen, f)?;
            Ok(
                (
                    TExpr { v: Expr::Negate(Box::new(ta)), t: clone_opt_type(&expr.t) },
                    TExpr::untyped(Expr::Negate(Box::new(va))),
                ),
            )
        },
        Expr::Constant(_) | Expr::Unit | Expr::Nil | Expr::Function(_) => Ok(
            (clone_texpr(expr), TExpr::untyped(clone_expr(&expr.v))),
        ),
        Expr::Variable(var) => {
            let value = match lookup(bindings, var.id) {
                Some(bound) => if is_witness(prover_defs, var.id) {
                    clone_texpr(expr)
                } else {
                    clone_texpr(bound)
                },
                None => clone_texpr(expr),
            };
            Ok((clone_texpr(expr), value))
        },
    }
}

/// The normal form and the value of the application of `e1` to `e2`.
fn normalize_call(
    e1: &TExpr,
    e2: &TExpr,
    t: &Option<Type>,
    bindings: &HashMap<VariableId, TExpr>,
    prover_defs: &mut HashSet<VariableId>,
    gen: &mut VarGen,
    f: usize,
) -> (r: Result<(TExpr, TExpr), CompileError>)
    ensures
        normalized_as(
            normalize_application(
                e1@,
                e2@,
                opt_type_view(*t),
                bindings_view(bindings@),
                old(prover_defs)@,
                old(gen)@,
                f as nat,
            ),
            r,
            final(prover_defs)@,
            final(gen)@,
        ),
        all_inlined(bindings_view(bindings@)) ==> inlined_result(r),
    decreases f, 1nat,
{
    match &e1.v {
        Expr::Application(_, _) | Expr::Match(_) => {
            let (tree, _value) = normalize_expr(e1, bindings, prover_defs, gen, f)?;
            let next = TExpr {
                v: Expr::Application(Box::new(tree), Box::new(clone_texpr(e2))),
                t: clone_opt_type(t),
            };
            normalize_expr(&next, bindings, prover_defs, gen, f)
        },
        Expr::Intrinsic(i) => {
            let (_tree, value) = normalize_expr(e2, bindings, prover_defs, gen, f)?;
            let expansion = i.apply(value, bindings, prover_defs, gen, f)?;
            normalize_expr(&expansion, bindings, prover_defs, gen, f)
        },
        Expr::Variable(var) => match lookup(bindings, var.id) {
            Some(bound) => {
                if is_witness(prover_defs, var.id) {
                    return Err(CompileError::UnboundVariable(var.clone()));
                }
                let next = TExpr::untyped(
                    Expr::Application(Box::new(clone_texpr(bound)), Box::new(clone_texpr(e2))),
                );
                normalize_expr(&next, bindings, prover_defs, gen, f)
            },
            None => Err(CompileError::UnboundVariable(var.clone())),
        },
        Expr::Function(_) => {
            let substitutions: HashMap<VariableId, VariableId> = HashMap::new();
            let renamed = refresh_expr_variables(e1, &substitutions, prover_defs, gen)?;
            let binding = peel(renamed, clone_texpr(e2))?;
            normalize_expr(&binding, bindings, prover_defs, gen, f)
        },
        Expr::Sequence(es) => {
            assert(texprs_view(es@).len() == es.len());
            if es.len() == 0 {
                return Err(CompileError::InternalInvariantViolation);
            }
            let mut elements = clone_texprs(es);
            let ghost all = texprs_view(elements@);
            assert(all.len() == elements.len());
            let last = elements.pop().unwrap();
            assert(texprs_view(elements@) =~= all.drop_last());
            push_texpr(
                &mut elements,
                TExpr::untyped(Expr::Application(Box::new(last), Box::new(clone_texpr(e2)))),
            );
            let next = TExpr { v: Expr::Sequence(elements), t: clone_opt_type(&e1.t) };
            normalize_expr(&next, bindings, prover_defs, gen, f)
        },
        Expr::LetBinding(b, body) => {
            let applied = TExpr::untyped(
                Expr::Application(Box::new(clone_texpr(body)), Box::new(clone_texpr(e2))),
            );
            let next = TExpr {
                v: Expr::LetBinding(
                    LetBinding(clone_pattern(&b.0), Box::new(clone_texpr(&b.1))),
                    Box::new(applied),
                ),
                t: clone_opt_type(&e1.t),
            };
            normalize_expr(&next, bindings, prover_defs, gen, f)
        },
        Expr::Infix(_, _, _)
        | Expr::Negate(_)
        | Expr::Product(_, _)
        | Expr::Cons(_, _)
        | Expr::Constant(_)
        | Expr::Unit
        | Expr::Nil => Err(CompileError::NotAFunction(clone_texpr(e1))),
    }
}

/// The normal form and the value of `let p = b in body`.
fn normalize_binding(
    p: &Pattern,
    b: &TExpr,
    body: &TExpr,
    t: &Option<Type>,
    bindings: &HashMap<VariableId, TExpr>,
    prover_defs: &mut HashSet<VariableId>,
    gen: &mut VarGen,
    f: usize,
) -> (r: Result<(TExpr, TExpr), CompileError>)
    ensures
        normalized_as(
            normalize_let(
                p@,
                b@,
                body@,
                opt_type_view(*t),
                bindings_view(bindings@),
                old(prover_defs)@,
                old(gen)@,
                f as nat,
            ),
            r,
            final(prover_defs)@,
            final(gen)@,
        ),
        all_inlined(bindings_view(bindings@)) ==> inlined_result(r),
    decreases f, 1nat,
{
    let (bound_tree, bound_value) = normalize_expr(b, bindings, prover_defs, gen, f)?;
    let mut new_bindings = clone_bindings(bindings);
    proof {
        if all_inlined(bindings_view(bindings@)) {
            lemma_match_keeps_inlined(
                p@,
                bound_value@,
                bindings_view(bindings@),
                prover_defs@,
                gen@,
                f as nat,
            );
        }
    }
    let _outcome = match_pattern_expr(p, &bound_value, &mut new_bindings, prover_defs, gen, f)?;
    let (body_tree, normal) = normalize_expr(body, &new_bindings, prover_defs, gen, f)?;
    proof {
        if all_inlined(bindings_view(bindings@)) {
            lemma_propagate_keeps_inlined(
                normal@,
                introduced(bindings_view(new_bindings@), bindings_view(bindings@), prover_defs@),
                f as nat,
            );
        }
    }
    let value = propagate_introduced(&normal, &new_bindings, bindings, prover_defs, f)?;
    Ok(
        (
            TExpr {
                v: Expr::LetBinding(
                    LetBinding(clone_pattern(p), Box::new(bound_tree)),
                    Box::new(body_tree),
                ),
                t: clone_opt_type(t),
            },
            value,
        ),
    )
}

/// The normal form and the value of a match on a scrutinee that has been
/// normalized.
fn normalize_match(
    tree: &TExpr,
    value: &TExpr,
    bs: &Vec<(Pattern, TExpr)>,
    t: &Option<Type>,
    bindings: &HashMap<VariableId, TExpr>,
    prover_defs: &mut HashSet<VariableId>,
    gen: &mut VarGen,
    f: usize,
) -> (r: Result<(TExpr, TExpr), CompileError>)
    ensures
        normalized_as(
            select_branch(
                tree@,
                value@,
                branches_view(bs@),
                0,
                opt_type_view(*t),
                bindings_view(bindings@),
                old(prover_defs)@,
                old(gen)@,
                f as nat,
            ),
            r,
            final(prover_defs)@,
            final(gen)@,
        ),
        all_inlined(bindings_view(bindings@)) ==> inlined_result(r),
    decreases f, 1nat,
{
    let mut i: usize = 0;
    while i < bs.len()
        invariant
            i <= bs.len(),
            select_branch(
                tree@,
                value@,
                branches_view(bs@),
                0,
                opt_type_view(*t),
                bindings_view(bindings@),
                old(prover_defs)@,
                old(gen)@,
                f as nat,
            ) == select_branch(
                tree@,
                value@,
                branches_view(bs@),
                i as nat,
                opt_type_view(*t),
                bindings_view(bindings@),
                prover_defs@,
                gen@,
                f as nat,
            ),
        decreases bs.len() - i,
    {
        let mut new_bindings = clone_bindings(bindings);
        let outcome = match_pattern_expr(&bs[i].0, value, &mut new_bindings, prover_defs, gen, f)?;
        match outcome {
            Tribool::True => {
                let binding = TExpr {
                    v: Expr::LetBinding(
                        LetBinding(clone_pattern(&bs[i].0), Box::new(clone_texpr(tree))),
                        Box::new(clone_texpr(&bs[i].1)),
                    ),
                    t: clone_opt_type(t),
                };
                return normalize_expr(&binding, bindings, prover_defs, gen, f);
            },
            Tribool::Indeterminate => {
                return Err(
                    CompileError::IndeterminateMatch(clone_pattern(&bs[i].0), clone_texpr(value)),
                );
            },
            Tribool::False => {},
        }
        i += 1;
    }
    Err(CompileError::NonExhaustiveMatch(clone_texpr(tree)))
}

/// The normal forms and the values of the given expressions, in order.
fn normalize_each(
    es: &Vec<TExpr>,
    bindings: &HashMap<VariableId, TExpr>,
    prover_defs: &mut HashSet<VariableId>,
    gen: &mut VarGen,
    f: usize,
) -> (r: Result<(Vec<TExpr>, Vec<TExpr>), CompileError>)
    ensures
        match r {
            Ok((trees, values)) => normalize_each_from(
                texprs_view(es@),
                0,
                Seq::empty(),
                Seq::empty(),
                bindings_view(bindings@),
                old(prover_defs)@,
                old(gen)@,
                f as nat,
            ) == Ok::<NormalizedAll, ErrorView>(
                NormalizedAll {
                    trees: texprs_view(trees@),
                    values: texprs_view(values@),
                    prover: final(prover_defs)@,
                    next: final(gen)@,
                },
            ) && values.len() == es.len() && (all_inlined(bindings_view(bindings@))
                ==> each_inlined(texprs_view(trees@)) && each_inlined(texprs_view(values@))),
            Err(e) => normalize_each_from(
                texprs_view(es@),
                0,
                Seq::empty(),
                Seq::empty(),
                bindings_view(bindings@),
                old(prover_defs)@,
                old(gen)@,
                f as nat,
            ) == Err::<NormalizedAll, ErrorView>(e@),
        },
    decreases f, 1nat,
{
    let mut trees: Vec<TExpr> = Vec::new();
    let mut values: Vec<TExpr> = Vec::new();
    let mut i: usize = 0;
    assert(texprs_view(trees@) =~= Seq::empty());
    assert(texprs_view(values@) =~= Seq::empty());
    while i < es.len()
        invariant
            i <= es.len(),
            values.len() == i,
            all_inlined(bindings_view(bindings@)) ==> each_inlined(texprs_view(trees@))
                && each_inlined(texprs_view(values@)),
            normalize_each_from(
                texprs_view(es@),
                0,
                Seq::empty(),
                Seq::empty(),
                bindings_view(bindings@),
                old(prover_defs)@,
                old(gen)@,
                f as nat,
            ) == normalize_each_from(
                texprs_view(es@),
                i as nat,
                texprs_view(trees@),
                texprs_view(values@),
                bindings_view(bindings@),
                prover_defs@,
                gen@,
                f as nat,
            ),
        decreases es.len() - i,
    {
        let (tree, value) = normalize_expr(&es[i], bindings, prover_defs, gen, f)?;
        push_texpr(&mut trees, tree);
        push_texpr(&mut values, value);
        i += 1;
    }
    Ok((trees, values))
}

/// Replaces each function application in the expression by a let-binding
/// that holds the inlined body, and returns the value of the expression.
/// Calls are followed to a nesting depth of `fuel`. On an error the
/// expression is left as it was.
pub fn apply_functions(
    expr: &mut TExpr,
    bindings: &HashMap<VariableId, TExpr>,
    prover_defs: &mut HashSet<VariableId>,
    gen: &mut VarGen,
    fuel: usize,
) -> (r: Result<TExpr, CompileError>)
    ensures
        match r {
            Ok(value) => normalize(
                old(expr)@,
                bindings_view(bindings@),
                old(prover_defs)@,
                old(gen)@,
                fuel as nat,
            ) == Ok::<Normalized, ErrorView>(
                Normalized {
                    tree: final(expr)@,
                    value: value@,
                    prover: final(prover_defs)@,
                    next: final(gen)@,
                },
            ) && (all_inlined(bindings_view(bindings@)) ==> inlined(final(expr)@) && inlined(
                value@,
            )),
            Err(e) => normalize(
                old(expr)@,
                bindings_view(bindings@),
                old(prover_defs)@,
                old(gen)@,
                fuel as nat,
            ) == Err::<Normalized, ErrorView>(e@) && final(expr)@ == old(expr)@,
        },
{
    let (tree, value) = normalize_expr(expr, bindings, prover_defs, gen, fuel)?;
    *expr = tree;
    Ok(value)
}

/// An inlined definition with the state that inlining it leaves.
pub struct InlinedDefinition {
    pub def: DefinitionView,
    pub bindings: Map<VariableId, TExprView>,
    pub prover: Set<VariableId>,
    pub next: nat,
}

/// The definition `d` with its expression inlined. The value of the
/// expression is matched against the pattern of the definition, in the
/// environment itself: what the pattern binds is visible to what follows.
pub open spec fn inline_definition(
    d: DefinitionView,
    bindings: Map<VariableId, TExprView>,
    prover: Set<VariableId>,
    next: nat,
    fuel: nat,
) -> Result<InlinedDefinition, ErrorView> {
    match normalize(d.value, bindings, prover, next, fuel) {
        Ok(n) => match match_pattern(d.pattern, n.value, bindings, n.prover, n.next, fuel) {
            Ok(m) => Ok(
                InlinedDefinition {
                    def: DefinitionView { pattern: d.pattern, value: n.tree },
                    bindings: m.map,
                    prover: m.prover,
                    next: m.next,
                },
            ),
            Err(x) => Err(x),
        },
        Err(x) => Err(x),
    }
}

/// Replaces each function application in the definition by a let-binding
/// that holds the inlined body, and binds the variables of its pattern. Calls
/// are followed to a nesting depth of `fuel`.
pub fn apply_def_functions(
    def: &mut Definition,
    bindings: &mut HashMap<VariableId, TExpr>,
    prover_defs: &mut HashSet<VariableId>,
    gen: &mut VarGen,
    fuel: usize,
) -> (r: Result<(), CompileError>)
    ensures
        match r {
            Ok(()) => inline_definition(
                old(def)@,
                bindings_view(old(bindings)@),
                old(prover_defs)@,
                old(gen)@,
                fuel as nat,
            ) == Ok::<InlinedDefinition, ErrorView>(
                InlinedDefinition {
                    def: final(def)@,
                    bindings: bindings_view(final(bindings)@),
                    prover: final(prover_defs)@,
                    next: final(gen)@,
                },
            ) && (all_inlined(bindings_view(old(bindings)@)) ==> inlined(final(def)@.value)
                && all_inlined(bindings_view(final(bindings)@))),
            Err(e) => inline_definition(
                old(def)@,
                bindings_view(old(bindings)@),
                old(prover_defs)@,
                old(gen)@,
                fuel as nat,
            ) == Err::<InlinedDefinition, ErrorView>(e@),
        },
{
    let (tree, value) = normalize_expr(&def.0.1, bindings, prover_defs, gen, fuel)?;
    proof {
        if all_inlined(bindings_view(bindings@)) {
            lemma_match_keeps_inlined(
                def.0.0@,
                value@,
                bindings_view(bindings@),
                prover_defs@,
                gen@,
                fuel as nat,
            );
        }
    }
    let _outcome = match_pattern_expr(&def.0.0, &value, bindings, prover_defs, gen, fuel)?;
    def.0.1 = Box::new(tree);
    Ok(())
}

/// An inlined module with the state that inlining it leaves.
pub struct InlinedModule {
    pub module: ModuleView,
    pub bindings: Map<VariableId, TExprView>,
    pub prover: Set<VariableId>,
    pub next: nat,
}

/// `done` followed by the inlined forms of the definitions `ds[i..]`, each
/// inlined in the state that the one before it left.
pub open spec fn inline_definitions_from(
    ds: Seq<DefinitionView>,
    i: nat,
    done: Seq<DefinitionView>,
    bindings: Map<VariableId, TExprView>,
    prover: Set<VariableId>,
    next: nat,
    fuel: nat,
) -> Result<InlinedModule, ErrorView>
    decreases ds.len() - i,
{
    if i >= ds.len() {
        Ok(
            InlinedModule {
                module: ModuleView { defs: done, exprs: Seq::empty() },
                bindings,
                prover,
                next,
            },
        )
    } else {
        match inline_definition(ds[i as int], bindings, prover, next, fuel) {
            Ok(d) => inline_definitions_from(
                ds,
                i + 1,
                done.push(d.def),
                d.bindings,
                d.prover,
                d.next,
                fuel,
            ),
            Err(x) => Err(x),
        }
    }
}

/// The module with every definition and then every expression inlined. The
/// definitions extend the environment one after another; the expressions are
/// inlined in the environment that the last definition left.
pub open spec fn inline_module(
    m: ModuleView,
    bindings: Map<VariableId, TExprView>,
    prover: Set<VariableId>,
    next: nat,
    fuel: nat,
) -> Result<InlinedModule, ErrorView> {
    match inline_definitions_from(m.defs, 0, Seq::empty(), bindings, prover, next, fuel) {
        Ok(d) => match normalize_top_level_from(
            m.exprs,
            0,
            Seq::empty(),
            d.bindings,
            d.prover,
            d.next,
            fuel,
        ) {
            Ok(e) => Ok(
                InlinedModule {
                    module: ModuleView { defs: d.module.defs, exprs: e.trees },
                    bindings: d.bindings,
                    prover: e.prover,
                    next: e.next,
                },
            ),
            Err(x) => Err(x),
        },
        Err(x) => Err(x),
    }
}

/// `trees` followed by the normal forms of `es[i..]`, each normalized in the
/// state that the one before it left. The values are dropped.
pub open spec fn normalize_top_level_from(
    es: Seq<TExprView>,
    i: nat,
    trees: Seq<TExprView>,
    bindings: Map<VariableId, TExprView>,
    prover: Set<VariableId>,
    next: nat,
    fuel: nat,
) -> Result<NormalizedAll, ErrorView>
    decreases es.len() - i,
{
    if i >= es.len() {
        Ok(NormalizedAll { trees, values: Seq::empty(), prover, next })
    } else {
        match normalize(es[i as int], bindings, prover, next, fuel) {
            Ok(n) => normalize_top_level_from(
                es,
                i + 1,
                trees.push(n.tree),
                bindings,
                n.prover,
                n.next,
                fuel,
            ),
            Err(x) => Err(x),
        }
    }
}

/// Whether every definition and every expression of the module is inlined.
pub open spec fn module_inlined(m: ModuleView) -> bool {
    &&& forall|j: int| 0 <= j < m.defs.len() ==> inlined((#[trigger] m.defs[j]).value)
    &&& each_inlined(m.exprs)
}

/// Replaces each function application in the module by a let-binding that
/// holds the inlined body. Calls are followed to a nesting depth of `fuel`.
/// Where every binding of the environment is free of applications and
/// matches, so is the module afterwards, outside the bodies of the functions
/// that it still holds, and so is the environment. On an error the module is
/// left as it was.
pub fn apply_module_functions(
    module: &mut Module,
    bindings: &mut HashMap<VariableId, TExpr>,
    prover_defs: &mut HashSet<VariableId>,
    gen: &mut VarGen,
    fuel: usize,
) -> (r: Result<(), CompileError>)
    ensures
        match r {
            Ok(()) => inline_module(
                old(module)@,
                bindings_view(old(bindings)@),
                old(prover_defs)@,
                old(gen)@,
                fuel as nat,
            ) == Ok::<InlinedModule, ErrorView>(
                InlinedModule {
                    module: final(module)@,
                    bindings: bindings_view(final(bindings)@),
                    prover: final(prover_defs)@,
                    next: final(gen)@,
                },
            ) && (all_inlined(bindings_view(old(bindings)@)) ==> module_inlined(final(module)@)
                && all_inlined(bindings_view(final(bindings)@))),
            Err(e) => inline_module(
                old(module)@,
                bindings_view(old(bindings)@),
                old(prover_defs)@,
                old(gen)@,
                fuel as nat,
            ) == Err::<InlinedModule, ErrorView>(e@) && final(module)@ == old(module)@,
        },
{
    let mut defs: Vec<Definition> = Vec::new();
    let mut i: usize = 0;
    assert(definitions_view(defs@) =~= Seq::empty());
    while i < module.defs.len()
        invariant
            i <= module.defs.len(),
            *module == *old(module),
            all_inlined(bindings_view(old(bindings)@)) ==> all_inlined(bindings_view(bindings@))
                && forall|j: int|
                0 <= j < defs.len() ==> inlined((#[trigger] definitions_view(defs@)[j]).value),
            inline_definitions_from(
                module@.defs,
                0,
                Seq::empty(),
                bindings_view(old(bindings)@),
                old(prover_defs)@,
                old(gen)@,
                fuel as nat,
            ) == inline_definitions_from(
                module@.defs,
                i as nat,
                definitions_view(defs@),
                bindings_view(bindings@),
                prover_defs@,
                gen@,
                fuel as nat,
            ),
        decreases module.defs.len() - i,
    {
        let mut def = module.defs[i].clone();
        apply_def_functions(&mut def, bindings, prover_defs, gen, fuel)?;
        let ghost before = definitions_view(defs@);
        defs.push(def);
        assert(definitions_view(defs@) =~= before.push(def@));
        i += 1;
    }
    let mut exprs: Vec<TExpr> = Vec::new();
    let mut k: usize = 0;
    assert(texprs_view(exprs@) =~= Seq::empty());
    let ghost after_defs = (bindings_view(bindings@), prover_defs@, gen@);
    while k < module.exprs.len()
        invariant
            k <= module.exprs.len(),
            *module == *old(module),
            bindings_view(bindings@) == after_defs.0,
            all_inlined(after_defs.0) ==> each_inlined(texprs_view(exprs@)),
            inline_definitions_from(
                module@.defs,
                0,
                Seq::empty(),
                bindings_view(old(bindings)@),
                old(prover_defs)@,
                old(gen)@,
                fuel as nat,
            ) == Ok::<InlinedModule, ErrorView>(
                InlinedModule {
                    module: ModuleView { defs: definitions_view(defs@), exprs: Seq::empty() },
                    bindings: after_defs.0,
                    prover: after_defs.1,
                    next: after_defs.2,
                },
            ),
            normalize_top_level_from(
                module@.exprs,
                0,
                Seq::empty(),
                after_defs.0,
                after_defs.1,
                after_defs.2,
                fuel as nat,
            ) == normalize_top_level_from(
                module@.exprs,
                k as nat,
                texprs_view(exprs@),
                bindings_view(bindings@),
                prover_defs@,
                gen@,
                fuel as nat,
            ),
        decreases module.exprs.len() - k,
    {
        let (tree, _value) = normalize_expr(&module.exprs[k], bindings, prover_defs, gen, fuel)?;
        push_texpr(&mut exprs, tree);
        k += 1;
    }
    module.defs = defs;
    module.exprs = exprs;
    Ok(())
}

} // verus!
