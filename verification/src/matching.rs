//! The structural pattern matcher. It decides whether a pattern accepts a
//! value that may still be symbolic, and records what every pattern variable
//! stands for.

use vstd::prelude::*;
use std::collections::{HashMap, HashSet};
use crate::ast::{
    Expr, ExprView, Pattern, PatternView, TExpr, TExprView, Variable, VariableId, anonymous,
    clone_expr, clone_texpr, untyped,
};
use crate::env::{add_witness, bind, bindings_view, is_witness, lookup};
use crate::error::{CompileError, ErrorView};
use crate::vargen::{VarGen, mint};

verus! {

/// The outcome of a match: the value is rejected, the decision has to wait
/// until the value is known, or the value is accepted.
#[derive(Debug, Clone, Copy, PartialEq, Eq, Structural)]
pub enum Tribool {
    False,
    Indeterminate,
    True,
}

/// The minimum of two outcomes in the order `False < Indeterminate < True`.
pub open spec fn tribool_min(a: Tribool, b: Tribool) -> Tribool {
    match (a, b) {
        (Tribool::False, _) | (_, Tribool::False) => Tribool::False,
        (Tribool::Indeterminate, _) | (_, Tribool::Indeterminate) => Tribool::Indeterminate,
        (Tribool::True, Tribool::True) => Tribool::True,
    }
}

impl Tribool {
    /// The minimum of the two outcomes in the order `False < Indeterminate < True`.
    pub fn min(self, other: Tribool) -> (r: Tribool)
        ensures
            r == tribool_min(self, other),
    {
        match self {
            Tribool::False => Tribool::False,
            Tribool::Indeterminate => match other {
                Tribool::False => Tribool::False,
                _ => Tribool::Indeterminate,
            },
            Tribool::True => other,
        }
    }
}

/// The outcome of a match with the state that the match leaves: the
/// environment, the witness set and the position of the identifier generator.
pub struct Matched {
    pub outcome: Tribool,
    pub map: Map<VariableId, TExprView>,
    pub prover: Set<VariableId>,
    pub next: nat,
}

/// The pair of two nameless variables under the given constructor, the shape
/// that an opaque variable is split into.
pub open spec fn split_product(id1: VariableId, id2: VariableId) -> TExprView {
    untyped(
        ExprView::Product(
            Box::new(untyped(ExprView::Variable(anonymous(id1)))),
            Box::new(untyped(ExprView::Variable(anonymous(id2)))),
        ),
    )
}

/// The list cell of two nameless variables.
pub open spec fn split_cons(id1: VariableId, id2: VariableId) -> TExprView {
    untyped(
        ExprView::Cons(
            Box::new(untyped(ExprView::Variable(anonymous(id1)))),
            Box::new(untyped(ExprView::Variable(anonymous(id2)))),
        ),
    )
}

/// Whether the value is a variable that the environment binds.
pub open spec fn is_bound_variable(e: TExprView, map: Map<VariableId, TExprView>) -> bool {
    e.v matches ExprView::Variable(var) && map.contains_key(var.id)
}

/// The match of the pattern `p` against the value `e`. The rules, the first
/// that applies:
/// a value that is a bound variable stands for its binding;
/// an alias is bound to the whole value, and the outcome is that of its pattern;
/// a variable pattern is bound to the value and accepts it;
/// a pair (or list cell) pattern against a pair (or list cell) matches the
/// components, left then right, and the outcome is the minimum of the two;
/// a pair (or list cell) pattern against an unbound variable binds that
/// variable to a pair (or list cell) of two fresh variables, which are
/// witnesses if the variable is one, and matches again;
/// the unit pattern accepts unit and the empty-list pattern the empty list;
/// a constant pattern accepts the same constant, rejects another one, and
/// cannot decide on a variable or an infix expression;
/// anything else is `InternalInvariantViolation`.
/// Every step into a binding, a sub-pattern or a split takes one unit of
/// `fuel`; a step without fuel is `RecursionLimit`.
pub open spec fn match_pattern(
    p: PatternView,
    e: TExprView,
    map: Map<VariableId, TExprView>,
    prover: Set<VariableId>,
    next: nat,
    fuel: nat,
) -> Result<Matched, ErrorView>
    decreases fuel,
{
    if is_bound_variable(e, map) {
        if fuel == 0 {
            Err(ErrorView::RecursionLimit)
        } else {
            match_pattern(p, map[e.v->Variable_0.id], map, prover, next, (fuel - 1) as nat)
        }
    } else {
        match p {
            PatternView::As(a, v) => if fuel == 0 {
                Err(ErrorView::RecursionLimit)
            } else {
                match_pattern(*a, e, map.insert(v.id, e), prover, next, (fuel - 1) as nat)
            },
            PatternView::Variable(v) => Ok(
                Matched {
                    outcome: Tribool::True,
                    map: map.insert(v.id, untyped(e.v)),
                    prover,
                    next,
                },
            ),
            PatternView::Product(pa, pb) => match e.v {
                ExprView::Product(e1, e2) => match_components(
                    *pa,
                    *e1,
                    *pb,
                    *e2,
                    map,
                    prover,
                    next,
                    fuel,
                ),
                ExprView::Variable(var) => match split_variable(var.id, prover, next) {
                    Ok((id1, id2, prover1, next1)) => if fuel == 0 {
                        Err(ErrorView::RecursionLimit)
                    } else {
                        match_pattern(
                            p,
                            e,
                            map.insert(var.id, split_product(id1, id2)),
                            prover1,
                            next1,
                            (fuel - 1) as nat,
                        )
                    },
                    Err(x) => Err(x),
                },
                _ => Err(ErrorView::InternalInvariantViolation),
            },
            PatternView::Cons(pa, pb) => match e.v {
                ExprView::Cons(e1, e2) => match_components(
                    *pa,
                    *e1,
                    *pb,
                    *e2,
                    map,
                    prover,
                    next,
                    fuel,
                ),
                ExprView::Variable(var) => match split_variable(var.id, prover, next) {
                    Ok((id1, id2, prover1, next1)) => if fuel == 0 {
                        Err(ErrorView::RecursionLimit)
                    } else {
                        match_pattern(
                            p,
                            e,
                            map.insert(var.id, split_cons(id1, id2)),
                            prover1,
                            next1,
                            (fuel - 1) as nat,
                        )
                    },
                    Err(x) => Err(x),
                },
                _ => Err(ErrorView::InternalInvariantViolation),
            },
            PatternView::Unit => match e.v {
                ExprView::Unit => Ok(Matched { outcome: Tribool::True, map, prover, next }),
                _ => Err(ErrorView::InternalInvariantViolation),
            },
            PatternView::Nil => match e.v {
                ExprView::Nil => Ok(Matched { outcome: Tribool::True, map, prover, next }),
                _ => Err(ErrorView::InternalInvariantViolation),
            },
            PatternView::Constant(a) => match e.v {
                ExprView::Constant(b) => Ok(
                    Matched {
                        outcome: if a == b {
                            Tribool::True
                        } else {
                            Tribool::False
                        },
                        map,
                        prover,
                        next,
                    },
                ),
                ExprView::Variable(_) | ExprView::Infix(_, _, _) => Ok(
                    Matched { outcome: Tribool::Indeterminate, map, prover, next },
                ),
                _ => Err(ErrorView::InternalInvariantViolation),
            },
        }
    }
}

/// The two fresh identifiers that the variable `id` is split into, with the
/// witness set and the generator position after the split.
pub open spec fn split_variable(id: VariableId, prover: Set<VariableId>, next: nat) -> Result<
    (VariableId, VariableId, Set<VariableId>, nat),
    ErrorView,
> {
    match mint(next) {
        Ok((id1, next1)) => match mint(next1) {
            Ok((id2, next2)) => Ok(
                (
                    id1,
                    id2,
                    if prover.contains(id) {
                        prover.insert(id1).insert(id2)
                    } else {
                        prover
                    },
                    next2,
                ),
            ),
            Err(x) => Err(x),
        },
        Err(x) => Err(x),
    }
}

/// The match of two sub-patterns against two components, the second in the
/// state that the first left, whatever the first decided.
pub open spec fn match_components(
    pa: PatternView,
    e1: TExprView,
    pb: PatternView,
    e2: TExprView,
    map: Map<VariableId, TExprView>,
    prover: Set<VariableId>,
    next: nat,
    fuel: nat,
) -> Result<Matched, ErrorView>
    decreases fuel, 0nat,
{
    if fuel == 0 {
        Err(ErrorView::RecursionLimit)
    } else {
        match match_pattern(pa, e1, map, prover, next, (fuel - 1) as nat) {
            Ok(m1) => match match_pattern(pb, e2, m1.map, m1.prover, m1.next, (fuel - 1) as nat) {
                Ok(m2) => Ok(
                    Matched {
                        outcome: tribool_min(m1.outcome, m2.outcome),
                        map: m2.map,
                        prover: m2.prover,
                        next: m2.next,
                    },
                ),
                Err(x) => Err(x),
            },
            Err(x) => Err(x),
        }
    }
}

/// Whether the outcome `r` of an executable match, with the state it left, is
/// what the model `m` prescribes. After an error the state is unspecified.
pub open spec fn matched_as(
    m: Result<Matched, ErrorView>,
    r: Result<Tribool, CompileError>,
    map: Map<VariableId, TExprView>,
    prover: Set<VariableId>,
    next: nat,
) -> bool {
    match r {
        Ok(outcome) => m == Ok::<Matched, ErrorView>(Matched { outcome, map, prover, next }),
        Err(e) => m == Err::<Matched, ErrorView>(e@),
    }
}

/// Issues the two identifiers that a variable is split into, and makes them
/// witnesses if the variable is one.
fn split(id: VariableId, prover_defs: &mut HashSet<VariableId>, gen: &mut VarGen) -> (r: Result<
    (VariableId, VariableId),
    CompileError,
>)
    ensures
        match r {
            Ok((id1, id2)) => split_variable(id, old(prover_defs)@, old(gen)@) == Ok::<
                (VariableId, VariableId, Set<VariableId>, nat),
                ErrorView,
            >((id1, id2, final(prover_defs)@, final(gen)@)),
            Err(e) => split_variable(id, old(prover_defs)@, old(gen)@) == Err::<
                (VariableId, VariableId, Set<VariableId>, nat),
                ErrorView,
            >(e@),
        },
{
    let id1 = gen.try_generate_id()?;
    let id2 = gen.try_generate_id()?;
    if is_witness(prover_defs, id) {
        add_witness(prover_defs, id1);
        add_witness(prover_defs, id2);
    }
    Ok((id1, id2))
}

/// Matches two sub-patterns against two components, and returns the weaker
/// outcome.
fn match_pair(
    pa: &Pattern,
    e1: &TExpr,
    pb: &Pattern,
    e2: &TExpr,
    map: &mut HashMap<VariableId, TExpr>,
    prover_defs: &mut HashSet<VariableId>,
    gen: &mut VarGen,
    fuel: usize,
) -> (r: Result<Tribool, CompileError>)
    ensures
        matched_as(
            match_components(
                pa@,
                e1@,
                pb@,
                e2@,
                bindings_view(old(map)@),
                old(prover_defs)@,
                old(gen)@,
                fuel as nat,
            ),
            r,
            bindings_view(final(map)@),
            final(prover_defs)@,
            final(gen)@,
        ),
    decreases fuel, 0nat,
{
    if fuel == 0 {
        return Err(CompileError::RecursionLimit);
    }
    let r1 = match_pattern_expr(pa, e1, map, prover_defs, gen, fuel - 1)?;
    let r2 = match_pattern_expr(pb, e2, map, prover_defs, gen, fuel - 1)?;
    Ok(r1.min(r2))
}

/// Matches the given expression against the given pattern, and binds the
/// variables of the pattern in `map` whatever the outcome is. Bindings,
/// sub-patterns and splits are followed to a depth of `fuel`.
pub fn match_pattern_expr(
    pat: &Pattern,
    expr: &TExpr,
    map: &mut HashMap<VariableId, TExpr>,
    prover_defs: &mut HashSet<VariableId>,
    gen: &mut VarGen,
    fuel: usize,
) -> (r: Result<Tribool, CompileError>)
    ensures
        matched_as(
            match_pattern(
                pat@,
                expr@,
                bindings_view(old(map)@),
                old(prover_defs)@,
                old(gen)@,
                fuel as nat,
            ),
            r,
            bindings_view(final(map)@),
            final(prover_defs)@,
            final(gen)@,
        ),
    decreases fuel, 1nat,
{
    if let Expr::Variable(var) = &expr.v {
        if let Some(bound) = lookup(map, var.id) {
            if fuel == 0 {
                return Err(CompileError::RecursionLimit);
            }
            let value = clone_texpr(bound);
            return match_pattern_expr(pat, &value, map, prover_defs, gen, fuel - 1);
        }
    }
    match pat {
        Pattern::As(a, v) => {
            if fuel == 0 {
                return Err(CompileError::RecursionLimit);
            }
            bind(map, v.id, clone_texpr(expr));
            match_pattern_expr(a, expr, map, prover_defs, gen, fuel - 1)
        },
        Pattern::Variable(v) => {
            bind(map, v.id, TExpr::untyped(clone_expr(&expr.v)));
            Ok(Tribool::True)
        },
        Pattern::Product(pa, pb) => match &expr.v {
            Expr::Product(e1, e2) => match_pair(pa, e1, pb, e2, map, prover_defs, gen, fuel),
            Expr::Variable(var) => {
                let (id1, id2) = split(var.id, prover_defs, gen)?;
                if fuel == 0 {
                    return Err(CompileError::RecursionLimit);
                }
                let first = TExpr::untyped(Expr::Variable(Variable::new(id1)));
                let second = TExpr::untyped(Expr::Variable(Variable::new(id2)));
                bind(map, var.id, TExpr::untyped(Expr::Product(Box::new(first), Box::new(second))));
                match_pattern_expr(pat, expr, map, prover_defs, gen, fuel - 1)
            },
            _ => Err(CompileError::InternalInvariantViolation),
        },
        Pattern::Cons(pa, pb) => match &expr.v {
            Expr::Cons(e1, e2) => match_pair(pa, e1, pb, e2, map, prover_defs, gen, fuel),
            Expr::Variable(var) => {
                let (id1, id2) = split(var.id, prover_defs, gen)?;
                if fuel == 0 {
                    return Err(CompileError::RecursionLimit);
                }
                let first = TExpr::untyped(Expr::Variable(Variable::new(id1)));
                let second = TExpr::untyped(Expr::Variable(Variable::new(id2)));
                bind(map, var.id, TExpr::untyped(Expr::Cons(Box::new(first), Box::new(second))));
                match_pattern_expr(pat, expr, map, prover_defs, gen, fuel - 1)
            },
            _ => Err(CompileError::InternalInvariantViolation),
        },
        Pattern::Unit => match &expr.v {
            Expr::Unit => Ok(Tribool::True),
            _ => Err(CompileError::InternalInvariantViolation),
        },
        Pattern::Nil => match &expr.v {
            Expr::Nil => Ok(Tribool::True),
            _ => Err(CompileError::InternalInvariantViolation),
        },
        Pattern::Constant(a) => match &expr.v {
            Expr::Constant(b) => Ok(
                if *a == *b {
                    Tribool::True
                } else {
                    Tribool::False
                },
            ),
            Expr::Variable(_) | Expr::Infix(_, _, _) => Ok(Tribool::Indeterminate),
            _ => Err(CompileError::InternalInvariantViolation),
        },
    }
}

} // verus!
