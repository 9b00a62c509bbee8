//! The form that inlining leaves expressions in, and the operations on
//! environments that keep it.

use vstd::prelude::*;
use crate::ast::{ExprView, PatternView, TExprView, VariableId};
use crate::matching::{
    is_bound_variable, match_components, match_pattern, split_cons, split_product, split_variable,
};
use crate::optimize::{propagate, propagate_from};

verus! {

/// Whether `e` is free of applications and matches. The body of a function
/// literal is not looked into: a literal that is left was never applied, and
/// its body is inlined only where it is.
pub open spec fn inlined(e: TExprView) -> bool
    decreases e,
{
    match e.v {
        ExprView::Application(_, _) | ExprView::Match(_, _) => false,
        ExprView::Function(_, _) => true,
        ExprView::Constant(_) | ExprView::Unit | ExprView::Nil | ExprView::Variable(_) => true,
        ExprView::Negate(a) => inlined(*a),
        ExprView::Infix(_, a, b) | ExprView::Product(a, b) | ExprView::Cons(a, b) => inlined(*a)
            && inlined(*b),
        ExprView::LetBinding(_, a, b) => inlined(*a) && inlined(*b),
        ExprView::Sequence(es) => forall|j: int| 0 <= j < es.len() ==> inlined(#[trigger] es[j]),
        ExprView::Intrinsic(i) => forall|j: int|
            0 <= j < i.args.len() ==> inlined(#[trigger] i.args[j]),
    }
}

/// Whether every expression of the list is inlined.
pub open spec fn each_inlined(es: Seq<TExprView>) -> bool {
    forall|j: int| 0 <= j < es.len() ==> inlined(#[trigger] es[j])
}

/// Whether every binding of the environment is inlined.
pub open spec fn all_inlined(bindings: Map<VariableId, TExprView>) -> bool {
    forall|k: VariableId| bindings.contains_key(k) ==> inlined(#[trigger] bindings[k])
}

/// Matching an inlined value in an environment of inlined bindings leaves an
/// environment of inlined bindings.
pub proof fn lemma_match_keeps_inlined(
    p: PatternView,
    e: TExprView,
    map: Map<VariableId, TExprView>,
    prover: Set<VariableId>,
    next: nat,
    fuel: nat,
)
    requires
        inlined(e),
        all_inlined(map),
    ensures
        match match_pattern(p, e, map, prover, next, fuel) {
            Ok(m) => all_inlined(m.map),
            Err(_) => true,
        },
    decreases fuel, 1nat,
{
    if is_bound_variable(e, map) {
        if fuel > 0 {
            lemma_match_keeps_inlined(
                p,
                map[e.v->Variable_0.id],
                map,
                prover,
                next,
                (fuel - 1) as nat,
            );
        }
    } else {
        match p {
            PatternView::As(a, v) => {
                if fuel > 0 {
                    lemma_match_keeps_inlined(
                        *a,
                        e,
                        map.insert(v.id, e),
                        prover,
                        next,
                        (fuel - 1) as nat,
                    );
                }
            },
            PatternView::Variable(v) => {},
            PatternView::Product(pa, pb) => {
                match e.v {
                    ExprView::Product(e1, e2) => {
                        lemma_components_keep_inlined(*pa, *e1, *pb, *e2, map, prover, next, fuel);
                    },
                    ExprView::Variable(var) => {
                        match split_variable(var.id, prover, next) {
                            Ok((id1, id2, prover1, next1)) => {
                                if fuel > 0 {
                                    reveal_with_fuel(inlined, 2);
                                    assert(inlined(split_product(id1, id2)));
                                    lemma_match_keeps_inlined(
                                        p,
                                        e,
                                        map.insert(var.id, split_product(id1, id2)),
                                        prover1,
                                        next1,
                                        (fuel - 1) as nat,
                                    );
                                }
                            },
                            Err(_) => {},
                        }
                    },
                    _ => {},
                }
            },
            PatternView::Cons(pa, pb) => {
                match e.v {
                    ExprView::Cons(e1, e2) => {
                        lemma_components_keep_inlined(*pa, *e1, *pb, *e2, map, prover, next, fuel);
                    },
                    ExprView::Variable(var) => {
                        match split_variable(var.id, prover, next) {
                            Ok((id1, id2, prover1, next1)) => {
                                if fuel > 0 {
                                    reveal_with_fuel(inlined, 2);
                                    assert(inlined(split_cons(id1, id2)));
                                    lemma_match_keeps_inlined(
                                        p,
                                        e,
                                        map.insert(var.id, split_cons(id1, id2)),
                                        prover1,
                                        next1,
                                        (fuel - 1) as nat,
                                    );
                                }
                            },
                            Err(_) => {},
                        }
                    },
                    _ => {},
                }
            },
            _ => {},
        }
    }
}

/// Matching two inlined components leaves an environment of inlined bindings.
proof fn lemma_components_keep_inlined(
    pa: PatternView,
    e1: TExprView,
    pb: PatternView,
    e2: TExprView,
    map: Map<VariableId, TExprView>,
    prover: Set<VariableId>,
    next: nat,
    fuel: nat,
)
    requires
        inlined(e1),
        inlined(e2),
        all_inlined(map),
    ensures
        match match_components(pa, e1, pb, e2, map, prover, next, fuel) {
            Ok(m) => all_inlined(m.map),
            Err(_) => true,
        },
    decreases fuel, 0nat,
{
    if fuel > 0 {
        lemma_match_keeps_inlined(pa, e1, map, prover, next, (fuel - 1) as nat);
        match match_pattern(pa, e1, map, prover, next, (fuel - 1) as nat) {
            Ok(m1) => {
                lemma_match_keeps_inlined(pb, e2, m1.map, m1.prover, m1.next, (fuel - 1) as nat);
            },
            Err(_) => {},
        }
    }
}

/// Replacing variables of an inlined expression by inlined bindings gives an
/// inlined expression.
pub proof fn lemma_propagate_keeps_inlined(
    e: TExprView,
    subst: Map<VariableId, TExprView>,
    fuel: nat,
)
    requires
        inlined(e),
        all_inlined(subst),
    ensures
        match propagate(e, subst, fuel) {
            Ok(r) => inlined(r),
            Err(_) => true,
        },
    decreases fuel, e, 0nat,
{
    match e.v {
        ExprView::Variable(v) => {
            if subst.contains_key(v.id) && fuel > 0 {
                lemma_propagate_keeps_inlined(subst[v.id], subst, (fuel - 1) as nat);
            }
        },
        ExprView::Sequence(es) => {
            lemma_propagate_each_keeps_inlined(es, 0, Seq::empty(), subst, fuel);
        },
        ExprView::Intrinsic(i) => {
            lemma_propagate_each_keeps_inlined(i.args, 0, Seq::empty(), subst, fuel);
        },
        ExprView::Infix(_, a, b) | ExprView::Product(a, b) | ExprView::Cons(a, b) => {
            lemma_propagate_keeps_inlined(*a, subst, fuel);
            lemma_propagate_keeps_inlined(*b, subst, fuel);
        },
        ExprView::Negate(a) => {
            lemma_propagate_keeps_inlined(*a, subst, fuel);
        },
        ExprView::LetBinding(_, a, b) => {
            lemma_propagate_keeps_inlined(*a, subst, fuel);
            lemma_propagate_keeps_inlined(*b, subst, fuel);
        },
        _ => {},
    }
}

/// Replacing variables in a list of inlined expressions gives inlined
/// expressions.
proof fn lemma_propagate_each_keeps_inlined(
    es: Seq<TExprView>,
    i: nat,
    done: Seq<TExprView>,
    subst: Map<VariableId, TExprView>,
    fuel: nat,
)
    requires
        each_inlined(es),
        each_inlined(done),
        all_inlined(subst),
    ensures
        match propagate_from(es, i, done, subst, fuel) {
            Ok(rs) => each_inlined(rs),
            Err(_) => true,
        },
    decreases fuel, es, es.len() - i,
{
    if i < es.len() {
        lemma_propagate_keeps_inlined(es[i as int], subst, fuel);
        match propagate(es[i as int], subst, fuel) {
            Ok(r) => {
                lemma_propagate_each_keeps_inlined(es, i + 1, done.push(r), subst, fuel);
            },
            Err(_) => {},
        }
    }
}

} // verus!
