//! Hygienic renaming: a copy of a term in which every binder has a fresh
//! identifier and every bound occurrence follows its binder.

use vstd::prelude::*;
use std::collections::{HashMap, HashSet};
use crate::ast::{
    Expr, ExprView, Function, Intrinsic, IntrinsicView, LetBinding, Match, Pattern, PatternView,
    TExpr, TExprView, Variable, VariableId, VariableView, branches_view, clone_opt_type,
    clone_texpr, clone_type, patterns_view, texprs_view,
};
use crate::env::{add_witness, is_witness, push_branch, push_pattern, push_texpr};
use crate::error::{CompileError, ErrorView, result_view};
use crate::vargen::{VarGen, mint};

verus! {

broadcast use vstd::std_specs::hash::group_hash_axioms;

/// A renamed term with the state that the renaming leaves: the substitution,
/// the witness set and the position of the identifier generator.
pub struct Refreshed<T> {
    pub term: T,
    pub map: Map<VariableId, VariableId>,
    pub prover: Set<VariableId>,
    pub next: nat,
}

/// The binder `v` under a fresh identifier. The substitution sends the old
/// identifier to the new one, and the new one is a witness if the old one is.
pub open spec fn refresh_binder(
    v: VariableView,
    map: Map<VariableId, VariableId>,
    prover: Set<VariableId>,
    next: nat,
) -> Result<Refreshed<VariableView>, ErrorView> {
    match mint(next) {
        Ok((id, next1)) => Ok(
            Refreshed {
                term: VariableView { name: v.name, id },
                map: map.insert(v.id, id),
                prover: if prover.contains(v.id) {
                    prover.insert(id)
                } else {
                    prover
                },
                next: next1,
            },
        ),
        Err(x) => Err(x),
    }
}

/// The pattern `p` with every variable it binds renamed to a fresh identifier,
/// inner patterns before the alias that names them, left before right.
pub open spec fn refresh_pattern(
    p: PatternView,
    map: Map<VariableId, VariableId>,
    prover: Set<VariableId>,
    next: nat,
) -> Result<Refreshed<PatternView>, ErrorView>
    decreases p,
{
    match p {
        PatternView::As(a, v) => match refresh_pattern(*a, map, prover, next) {
            Ok(ra) => match refresh_binder(v, ra.map, ra.prover, ra.next) {
                Ok(rv) => Ok(
                    Refreshed {
                        term: PatternView::As(Box::new(ra.term), rv.term),
                        map: rv.map,
                        prover: rv.prover,
                        next: rv.next,
                    },
                ),
                Err(x) => Err(x),
            },
            Err(x) => Err(x),
        },
        PatternView::Product(a, b) => match refresh_pattern(*a, map, prover, next) {
            Ok(ra) => match refresh_pattern(*b, ra.map, ra.prover, ra.next) {
                Ok(rb) => Ok(
                    Refreshed {
                        term: PatternView::Product(Box::new(ra.term), Box::new(rb.term)),
                        map: rb.map,
                        prover: rb.prover,
                        next: rb.next,
                    },
                ),
                Err(x) => Err(x),
            },
            Err(x) => Err(x),
        },
        PatternView::Cons(a, b) => match refresh_pattern(*a, map, prover, next) {
            Ok(ra) => match refresh_pattern(*b, ra.map, ra.prover, ra.next) {
                Ok(rb) => Ok(
                    Refreshed {
                        term: PatternView::Cons(Box::new(ra.term), Box::new(rb.term)),
                        map: rb.map,
                        prover: rb.prover,
                        next: rb.next,
                    },
                ),
                Err(x) => Err(x),
            },
            Err(x) => Err(x),
        },
        PatternView::Variable(v) => match refresh_binder(v, map, prover, next) {
            Ok(rv) => Ok(
                Refreshed {
                    term: PatternView::Variable(rv.term),
                    map: rv.map,
                    prover: rv.prover,
                    next: rv.next,
                },
            ),
            Err(x) => Err(x),
        },
        PatternView::Constant(_) | PatternView::Unit | PatternView::Nil => Ok(
            Refreshed { term: p, map, prover, next },
        ),
    }
}

/// `done` followed by the renamed forms of `ps[i..]`, each pattern renamed in
/// the state that the one before it left.
pub open spec fn refresh_patterns_from(
    ps: Seq<PatternView>,
    i: nat,
    done: Seq<PatternView>,
    map: Map<VariableId, VariableId>,
    prover: Set<VariableId>,
    next: nat,
) -> Result<Refreshed<Seq<PatternView>>, ErrorView>
    decreases ps.len() - i,
{
    if i >= ps.len() {
        Ok(Refreshed { term: done, map, prover, next })
    } else {
        match refresh_pattern(ps[i as int], map, prover, next) {
            Ok(r) => refresh_patterns_from(ps, i + 1, done.push(r.term), r.map, r.prover, r.next),
            Err(x) => Err(x),
        }
    }
}

/// The expression `e` renamed under the substitution `map`. A variable that
/// `map` binds becomes its image and any other variable stays. The parameters
/// of a function, the pattern of a let-binding and the pattern of a match
/// branch are renamed to fresh identifiers, and the substitution so extended
/// holds in the function body, the let body and the branch body only.
pub open spec fn refresh_expr(
    e: TExprView,
    map: Map<VariableId, VariableId>,
    prover: Set<VariableId>,
    next: nat,
) -> Result<Refreshed<TExprView>, ErrorView>
    decreases e, 0nat,
{
    match e.v {
        ExprView::Sequence(es) => match refresh_exprs_from(es, 0, Seq::empty(), map, prover, next) {
            Ok(r) => Ok(
                Refreshed {
                    term: TExprView { v: ExprView::Sequence(r.term), t: e.t },
                    map,
                    prover: r.prover,
                    next: r.next,
                },
            ),
            Err(x) => Err(x),
        },
        ExprView::Intrinsic(i) => match refresh_exprs_from(
            i.args,
            0,
            Seq::empty(),
            map,
            prover,
            next,
        ) {
            Ok(r) => Ok(
                Refreshed {
                    term: TExprView {
                        v: ExprView::Intrinsic(
                            IntrinsicView {
                                arity: i.arity,
                                imp_typ: i.imp_typ,
                                imp: i.imp,
                                args: r.term,
                            },
                        ),
                        t: e.t,
                    },
                    map,
                    prover: r.prover,
                    next: r.next,
                },
            ),
            Err(x) => Err(x),
        },
        ExprView::Infix(op, a, b) => match refresh_expr(*a, map, prover, next) {
            Ok(ra) => match refresh_expr(*b, map, ra.prover, ra.next) {
                Ok(rb) => Ok(
                    Refreshed {
                        term: TExprView {
                            v: ExprView::Infix(op, Box::new(ra.term), Box::new(rb.term)),
                            t: e.t,
                        },
                        map,
                        prover: rb.prover,
                        next: rb.next,
                    },
                ),
                Err(x) => Err(x),
            },
            Err(x) => Err(x),
        },
        ExprView::Application(a, b) => match refresh_expr(*a, map, prover, next) {
            Ok(ra) => match refresh_expr(*b, map, ra.prover, ra.next) {
                Ok(rb) => Ok(
                    Refreshed {
                        term: TExprView {
                            v: ExprView::Application(Box::new(ra.term), Box::new(rb.term)),
                            t: e.t,
                        },
                        map,
                        prover: rb.prover,
                        next: rb.next,
                    },
                ),
                Err(x) => Err(x),
            },
            Err(x) => Err(x),
        },
        ExprView::Product(a, b) => match refresh_expr(*a, map, prover, next) {
            Ok(ra) => match refresh_expr(*b, map, ra.prover, ra.next) {
                Ok(rb) => Ok(
                    Refreshed {
                        term: TExprView {
                            v: ExprView::Product(Box::new(ra.term), Box::new(rb.term)),
                            t: e.t,
                        },
                        map,
                        prover: rb.prover,
                        next: rb.next,
                    },
                ),
                Err(x) => Err(x),
            },
            Err(x) => Err(x),
        },
        ExprView::Cons(a, b) => match refresh_expr(*a, map, prover, next) {
            Ok(ra) => match refresh_expr(*b, map, ra.prover, ra.next) {
                Ok(rb) => Ok(
                    Refreshed {
                        term: TExprView {
                            v: ExprView::Cons(Box::new(ra.term), Box::new(rb.term)),
                            t: e.t,
                        },
                        map,
                        prover: rb.prover,
                        next: rb.next,
                    },
                ),
                Err(x) => Err(x),
            },
            Err(x) => Err(x),
        },
        ExprView::Match(s, bs) => match refresh_expr(*s, map, prover, next) {
            Ok(rs) => match refresh_branches_from(bs, 0, Seq::empty(), map, rs.prover, rs.next) {
                Ok(rbs) => Ok(
                    Refreshed {
                        term: TExprView { v: ExprView::Match(Box::new(rs.term), rbs.term), t: e.t },
                        map,
                        prover: rbs.prover,
                        next: rbs.next,
                    },
                ),
                Err(x) => Err(x),
            },
            Err(x) => Err(x),
        },
        ExprView::Negate(a) => match refresh_expr(*a, map, prover, next) {
            Ok(ra) => Ok(
                Refreshed {
                    term: TExprView { v: ExprView::Negate(Box::new(ra.term)), t: e.t },
                    map,
                    prover: ra.prover,
                    next: ra.next,
                },
            ),
            Err(x) => Err(x),
        },
        ExprView::Constant(_) | ExprView::Unit | ExprView::Nil => Ok(
            Refreshed { term: e, map, prover, next },
        ),
        ExprView::Variable(v) => Ok(
            Refreshed {
                term: if map.contains_key(v.id) {
                    TExprView {
                        v: ExprView::Variable(VariableView { name: v.name, id: map[v.id] }),
                        t: e.t,
                    }
                } else {
                    e
                },
                map,
                prover,
                next,
            },
        ),
        ExprView::Function(ps, body) => match refresh_patterns_from(
            ps,
            0,
            Seq::empty(),
            map,
            prover,
            next,
        ) {
            Ok(rps) => match refresh_expr(*body, rps.map, rps.prover, rps.next) {
                Ok(rb) => Ok(
                    Refreshed {
                        term: TExprView {
                            v: ExprView::Function(rps.term, Box::new(rb.term)),
                            t: e.t,
                        },
                        map,
                        prover: rb.prover,
                        next: rb.next,
                    },
                ),
                Err(x) => Err(x),
            },
            Err(x) => Err(x),
        },
        ExprView::LetBinding(p, a, body) => match refresh_expr(*a, map, prover, next) {
            Ok(ra) => match refresh_pattern(p, map, ra.prover, ra.next) {
                Ok(rp) => match refresh_expr(*body, rp.map, rp.prover, rp.next) {
                    Ok(rb) => Ok(
                        Refreshed {
                            term: TExprView {
                                v: ExprView::LetBinding(
                                    rp.term,
                                    Box::new(ra.term),
                                    Box::new(rb.term),
                                ),
                                t: e.t,
                            },
                            map,
                            prover: rb.prover,
                            next: rb.next,
                        },
                    ),
                    Err(x) => Err(x),
                },
                Err(x) => Err(x),
            },
            Err(x) => Err(x),
        },
    }
}

/// `done` followed by the renamed forms of `es[i..]`, all under `map`.
pub open spec fn refresh_exprs_from(
    es: Seq<TExprView>,
    i: nat,
    done: Seq<TExprView>,
    map: Map<VariableId, VariableId>,
    prover: Set<VariableId>,
    next: nat,
) -> Result<Refreshed<Seq<TExprView>>, ErrorView>
    decreases es, es.len() - i,
{
    if i >= es.len() {
        Ok(Refreshed { term: done, map, prover, next })
    } else {
        match refresh_expr(es[i as int], map, prover, next) {
            Ok(r) => refresh_exprs_from(es, i + 1, done.push(r.term), map, r.prover, r.next),
            Err(x) => Err(x),
        }
    }
}

/// `done` followed by the renamed forms of the branches `bs[i..]`: each
/// pattern is renamed from `map`, and its body under what that gives.
pub open spec fn refresh_branches_from(
    bs: Seq<(PatternView, TExprView)>,
    i: nat,
    done: Seq<(PatternView, TExprView)>,
    map: Map<VariableId, VariableId>,
    prover: Set<VariableId>,
    next: nat,
) -> Result<Refreshed<Seq<(PatternView, TExprView)>>, ErrorView>
    decreases bs, bs.len() - i,
{
    if i >= bs.len() {
        Ok(Refreshed { term: done, map, prover, next })
    } else {
        match refresh_pattern(bs[i as int].0, map, prover, next) {
            Ok(rp) => match refresh_expr(bs[i as int].1, rp.map, rp.prover, rp.next) {
                Ok(rb) => refresh_branches_from(
                    bs,
                    i + 1,
                    done.push((rp.term, rb.term)),
                    map,
                    rb.prover,
                    rb.next,
                ),
                Err(x) => Err(x),
            },
            Err(x) => Err(x),
        }
    }
}

/// Whether the outcome `r` of an executable renaming, with the state it left,
/// is what the model `m` prescribes. After an error the state is unspecified.
pub open spec fn refreshed_as<T>(
    m: Result<Refreshed<T>, ErrorView>,
    r: Result<T, ErrorView>,
    map: Map<VariableId, VariableId>,
    prover: Set<VariableId>,
    next: nat,
) -> bool {
    match r {
        Ok(term) => m == Ok::<Refreshed<T>, ErrorView>(Refreshed { term, map, prover, next }),
        Err(e) => m == Err::<Refreshed<T>, ErrorView>(e),
    }
}

/// Renames a binder.
fn refresh_binder_variable(
    var: &Variable,
    map: &mut HashMap<VariableId, VariableId>,
    prover_defs: &mut HashSet<VariableId>,
    gen: &mut VarGen,
) -> (r: Result<Variable, CompileError>)
    ensures
        refreshed_as(
            refresh_binder(var@, old(map)@, old(prover_defs)@, old(gen)@),
            result_view(r),
            final(map)@,
            final(prover_defs)@,
            final(gen)@,
        ),
{
    let id = gen.try_generate_id()?;
    map.insert(var.id, id);
    if is_witness(prover_defs, var.id) {
        add_witness(prover_defs, id);
    }
    let mut renamed = var.clone();
    renamed.id = id;
    Ok(renamed)
}

/// Renames all the variables that the given pattern binds.
pub fn refresh_pattern_variables(
    pat: &Pattern,
    map: &mut HashMap<VariableId, VariableId>,
    prover_defs: &mut HashSet<VariableId>,
    gen: &mut VarGen,
) -> (r: Result<Pattern, CompileError>)
    ensures
        refreshed_as(
            refresh_pattern(pat@, old(map)@, old(prover_defs)@, old(gen)@),
            result_view(r),
            final(map)@,
            final(prover_defs)@,
            final(gen)@,
        ),
    decreases pat,
{
    match pat {
        Pattern::As(a, var) => {
            let ra = refresh_pattern_variables(a, map, prover_defs, gen)?;
            let rv = refresh_binder_variable(var, map, prover_defs, gen)?;
            Ok(Pattern::As(Box::new(ra), rv))
        },
        Pattern::Product(a, b) => {
            let ra = refresh_pattern_variables(a, map, prover_defs, gen)?;
            let rb = refresh_pattern_variables(b, map, prover_defs, gen)?;
            Ok(Pattern::Product(Box::new(ra), Box::new(rb)))
        },
        Pattern::Cons(a, b) => {
            let ra = refresh_pattern_variables(a, map, prover_defs, gen)?;
            let rb = refresh_pattern_variables(b, map, prover_defs, gen)?;
            Ok(Pattern::Cons(Box::new(ra), Box::new(rb)))
        },
        Pattern::Variable(var) => {
            let rv = refresh_binder_variable(var, map, prover_defs, gen)?;
            Ok(Pattern::Variable(rv))
        },
        Pattern::Constant(c) => Ok(Pattern::Constant(*c)),
        Pattern::Unit => Ok(Pattern::Unit),
        Pattern::Nil => Ok(Pattern::Nil),
    }
}

/// Renames the given patterns in order.
fn refresh_patterns(
    ps: &Vec<Pattern>,
    map: &mut HashMap<VariableId, VariableId>,
    prover_defs: &mut HashSet<VariableId>,
    gen: &mut VarGen,
) -> (r: Result<Vec<Pattern>, CompileError>)
    ensures
        refreshed_as(
            refresh_patterns_from(
                patterns_view(ps@),
                0,
                Seq::empty(),
                old(map)@,
                old(prover_defs)@,
                old(gen)@,
            ),
            match r {
                Ok(v) => Ok(patterns_view(v@)),
                Err(e) => Err(e@),
            },
            final(map)@,
            final(prover_defs)@,
            final(gen)@,
        ),
{
    let mut out: Vec<Pattern> = Vec::new();
    let mut i: usize = 0;
    assert(patterns_view(out@) =~= Seq::empty());
    while i < ps.len()
        invariant
            i <= ps.len(),
            refresh_patterns_from(
                patterns_view(ps@),
                0,
                Seq::empty(),
                old(map)@,
                old(prover_defs)@,
                old(gen)@,
            ) == refresh_patterns_from(
                patterns_view(ps@),
                i as nat,
                patterns_view(out@),
                map@,
                prover_defs@,
                gen@,
            ),
        decreases ps.len() - i,
    {
        let r = refresh_pattern_variables(&ps[i], map, prover_defs, gen)?;
        push_pattern(&mut out, r);
        i += 1;
    }
    Ok(out)
}

/// Renames the variables of the given expression according to the given
/// substitution, and every binder in it to a fresh identifier.
#[verifier::rlimit(30)]
pub fn refresh_expr_variables(
    expr: &TExpr,
    map: &HashMap<VariableId, VariableId>,
    prover_defs: &mut HashSet<VariableId>,
    gen: &mut VarGen,
) -> (r: Result<TExpr, CompileError>)
    ensures
        refreshed_as(
            refresh_expr(expr@, map@, old(prover_defs)@, old(gen)@),
            result_view(r),
            map@,
            final(prover_defs)@,
            final(gen)@,
        ),
    decreases expr, 0nat,
{
    match &expr.v {
        Expr::Sequence(es) => {
            let rs = refresh_exprs(es, map, prover_defs, gen)?;
            Ok(TExpr { v: Expr::Sequence(rs), t: clone_opt_type(&expr.t) })
        },
        Expr::Intrinsic(i) => {
            let rs = refresh_exprs(&i.args, map, prover_defs, gen)?;
            Ok(
                TExpr {
                    v: Expr::Intrinsic(
                        Intrinsic {
                            arity: i.arity,
                            imp_typ: clone_type(&i.imp_typ),
                            imp: i.imp,
                            args: rs,
                        },
                    ),
                    t: clone_opt_type(&expr.t),
                },
            )
        },
        Expr::Infix(op, a, b) => {
            let ra = refresh_expr_variables(a, map, prover_defs, gen)?;
            let rb = refresh_expr_variables(b, map, prover_defs, gen)?;
            Ok(
                TExpr {
                    v: Expr::Infix(*op, Box::new(ra), Box::new(rb)),
                    t: clone_opt_type(&expr.t),
                },
            )
        },
        Expr::Application(a, b) => {
            let ra = refresh_expr_variables(a, map, prover_defs, gen)?;
            let rb = refresh_expr_variables(b, map, prover_defs, gen)?;
            Ok(
                TExpr {
                    v: Expr::Application(Box::new(ra), Box::new(rb)),
                    t: clone_opt_type(&expr.t),
                },
            )
        },
        Expr::Product(a, b) => {
            let ra = refresh_expr_variables(a, map, prover_defs, gen)?;
            let rb = refresh_expr_variables(b, map, prover_defs, gen)?;
            Ok(TExpr { v: Expr::Product(Box::new(ra), Box::new(rb)), t: clone_opt_type(&expr.t) })
        },
        Expr::Cons(a, b) => {
            let ra = refresh_expr_variables(a, map, prover_defs, gen)?;
            let rb = refresh_expr_variables(b, map, prover_defs, gen)?;
            Ok(TExpr { v: Expr::Cons(Box::new(ra), Box::new(rb)), t: clone_opt_type(&expr.t) })
        },
        Expr::Match(m) => {
            let rs = refresh_expr_variables(&m.0, map, prover_defs, gen)?;
            let rbs = refresh_branches(&m.1, map, prover_defs, gen)?;
            Ok(TExpr { v: Expr::Match(Match(Box::new(rs), rbs)), t: clone_opt_type(&expr.t) })
        },
        Expr::Negate(a) => {
            let ra = refresh_expr_variables(a, map, prover_defs, gen)?;
            Ok(TExpr { v: Expr::Negate(Box::new(ra)), t: clone_opt_type(&expr.t) })
        },
        Expr::Constant(_) | Expr::Unit | Expr::Nil => Ok(clone_texpr(expr)),
        Expr::Variable(var) => match map.get(&var.id) {
            Some(id) => {
                let mut renamed = var.clone();
                renamed.id = *id;
                Ok(TExpr { v: Expr::Variable(renamed), t: clone_opt_type(&expr.t) })
            },
            None => Ok(clone_texpr(expr)),
        },
        Expr::Function(f) => {
            let mut inner = map.clone();
            let rps = refresh_patterns(&f.0, &mut inner, prover_defs, gen)?;
            let rb = refresh_expr_variables(&f.1, &inner, prover_defs, gen)?;
            Ok(TExpr { v: Expr::Function(Function(rps, Box::new(rb))), t: clone_opt_type(&expr.t) })
        },
        Expr::LetBinding(b, body) => {
            let ra = refresh_expr_variables(&b.1, map, prover_defs, gen)?;
            let mut inner = map.clone();
            let rp = refresh_pattern_variables(&b.0, &mut inner, prover_defs, gen)?;
            let rb = refresh_expr_variables(body, &inner, prover_defs, gen)?;
            Ok(
                TExpr {
                    v: Expr::LetBinding(LetBinding(rp, Box::new(ra)), Box::new(rb)),
                    t: clone_opt_type(&expr.t),
                },
            )
        },
    }
}

/// Renames the given expressions in order.
fn refresh_exprs(
    es: &Vec<TExpr>,
    map: &HashMap<VariableId, VariableId>,
    prover_defs: &mut HashSet<VariableId>,
    gen: &mut VarGen,
) -> (r: Result<Vec<TExpr>, CompileError>)
    ensures
        refreshed_as(
            refresh_exprs_from(
                texprs_view(es@),
                0,
                Seq::empty(),
                map@,
                old(prover_defs)@,
                old(gen)@,
            ),
            match r {
                Ok(v) => Ok(texprs_view(v@)),
                Err(e) => Err(e@),
            },
            map@,
            final(prover_defs)@,
            final(gen)@,
        ),
    decreases es, 0nat,
{
    let mut out: Vec<TExpr> = Vec::new();
    let mut i: usize = 0;
    assert(texprs_view(out@) =~= Seq::empty());
    while i < es.len()
        invariant
            i <= es.len(),
            refresh_exprs_from(
                texprs_view(es@),
                0,
                Seq::empty(),
                map@,
                old(prover_defs)@,
                old(gen)@,
            ) == refresh_exprs_from(
                texprs_view(es@),
                i as nat,
                texprs_view(out@),
                map@,
                prover_defs@,
                gen@,
            ),
        decreases es.len() - i,
    {
        let r = refresh_expr_variables(&es[i], map, prover_defs, gen)?;
        push_texpr(&mut out, r);
        i += 1;
    }
    Ok(out)
}

/// Renames the given branches in order, each in a scope of its own.
fn refresh_branches(
    bs: &Vec<(Pattern, TExpr)>,
    map: &HashMap<VariableId, VariableId>,
    prover_defs: &mut HashSet<VariableId>,
    gen: &mut VarGen,
) -> (r: Result<Vec<(Pattern, TExpr)>, CompileError>)
    ensures
        refreshed_as(
            refresh_branches_from(
                branches_view(bs@),
                0,
                Seq::empty(),
                map@,
                old(prover_defs)@,
                old(gen)@,
            ),
            match r {
                Ok(v) => Ok(branches_view(v@)),
                Err(e) => Err(e@),
            },
            map@,
            final(prover_defs)@,
            final(gen)@,
        ),
    decreases bs, 0nat,
{
    let mut out: Vec<(Pattern, TExpr)> = Vec::new();
    let mut i: usize = 0;
    assert(branches_view(out@) =~= Seq::empty());
    while i < bs.len()
        invariant
            i <= bs.len(),
            refresh_branches_from(
                branches_view(bs@),
                0,
                Seq::empty(),
                map@,
                old(prover_defs)@,
                old(gen)@,
            ) == refresh_branches_from(
                branches_view(bs@),
                i as nat,
                branches_view(out@),
                map@,
                prover_defs@,
                gen@,
            ),
        decreases bs.len() - i,
    {
        let mut inner = map.clone();
        let rp = refresh_pattern_variables(&bs[i].0, &mut inner, prover_defs, gen)?;
        let rb = refresh_expr_variables(&bs[i].1, &inner, prover_defs, gen)?;
        push_branch(&mut out, rp, rb);
        i += 1;
    }
    Ok(out)
}

} // verus!
