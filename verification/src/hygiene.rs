//! Why renaming is hygienic: what a renaming binds is fresh, and what it
//! leaves alone is free.

use vstd::prelude::*;
use crate::ast::{ExprView, PatternView, TExprView, VariableId, is_list_of, is_pair_of};
use crate::error::fails_only_by_exhaustion;
use crate::renaming::{
    Refreshed, refresh_binder, refresh_branches_from, refresh_expr, refresh_exprs_from,
    refresh_pattern, refresh_patterns_from,
};

verus! {

/// Whether the pattern binds a variable with the identifier.
pub open spec fn binds(p: PatternView, id: VariableId) -> bool
    decreases p,
{
    match p {
        PatternView::Variable(v) => v.id == id,
        PatternView::As(a, v) => v.id == id || binds(*a, id),
        PatternView::Product(a, b) | PatternView::Cons(a, b) => binds(*a, id) || binds(*b, id),
        PatternView::Constant(_) | PatternView::Unit | PatternView::Nil => false,
    }
}

/// Whether the identifier is one of those issued from `n` up to `next`.
pub open spec fn issued(n: nat, next: nat, id: VariableId) -> bool {
    n <= id < next
}

/// Whether every variable of the pattern has an identifier issued from `n`
/// up to `next`.
pub open spec fn binders_issued(p: PatternView, n: nat, next: nat) -> bool {
    forall|id: VariableId| #[trigger] binds(p, id) ==> issued(n, next, id)
}

/// Whether the substitution sends every variable that the pattern binds to
/// an identifier issued from `n` up to `next`.
pub open spec fn binders_renamed(
    p: PatternView,
    map: Map<VariableId, VariableId>,
    n: nat,
    next: nat,
) -> bool {
    forall|x: VariableId| #[trigger] binds(p, x) ==> map.contains_key(x) && issued(n, next, map[x])
}

/// Whether the two substitutions treat the variable alike.
pub open spec fn agree_at(
    before: Map<VariableId, VariableId>,
    after: Map<VariableId, VariableId>,
    x: VariableId,
) -> bool {
    &&& after.contains_key(x) <==> before.contains_key(x)
    &&& before.contains_key(x) ==> after[x] == before[x]
}

/// Whether the two substitutions agree on every variable that the pattern
/// does not bind.
pub open spec fn agree_outside(
    p: PatternView,
    before: Map<VariableId, VariableId>,
    after: Map<VariableId, VariableId>,
) -> bool {
    forall|x: VariableId| !binds(p, x) ==> #[trigger] agree_at(before, after, x)
}

/// What holds of every renaming of a pattern that succeeds: every variable of
/// the renamed pattern has an identifier issued by the renaming; every
/// variable that the pattern binds is sent to such an identifier; and the
/// substitution is unchanged elsewhere.
pub proof fn lemma_pattern_renamed(
    p: PatternView,
    map: Map<VariableId, VariableId>,
    prover: Set<VariableId>,
    n: nat,
)
    ensures
        refresh_pattern(p, map, prover, n) matches Ok(r) ==> n <= r.next,
        refresh_pattern(p, map, prover, n) matches Ok(r) ==> binders_issued(r.term, n, r.next),
        refresh_pattern(p, map, prover, n) matches Ok(r) ==> binders_renamed(
            p,
            r.map,
            n,
            r.next,
        ),
        refresh_pattern(p, map, prover, n) matches Ok(r) ==> agree_outside(p, map, r.map),
    decreases p,
{
    match p {
        PatternView::As(a, v) => {
            lemma_pattern_renamed(*a, map, prover, n);
            match refresh_pattern(*a, map, prover, n) {
                Ok(ra) => {
                    match refresh_binder(v, ra.map, ra.prover, ra.next) {
                        Ok(rv) => {
                            let r = refresh_pattern(p, map, prover, n)->Ok_0;
                            assert(r.map == ra.map.insert(v.id, rv.term.id));
                            assert(rv.term.id == ra.next);
                            assert forall|x: VariableId| #[trigger]
                                binds(p, x) implies r.map.contains_key(x) && issued(
                                n,
                                r.next,
                                r.map[x],
                            ) by {
                                if x != v.id {
                                    assert(binds(*a, x));
                                }
                            }
                            assert forall|x: VariableId| !binds(p, x) implies #[trigger] agree_at(
                                map,
                                r.map,
                                x,
                            ) by {
                                assert(!binds(*a, x));
                                assert(agree_at(map, ra.map, x));
                            }
                            assert forall|id: VariableId| #[trigger]
                                binds(r.term, id) implies issued(n, r.next, id) by {
                                if id != rv.term.id {
                                    assert(binds(ra.term, id));
                                }
                            }
                            assert(agree_outside(p, map, r.map));
                        },
                        Err(_) => {},
                    }
                },
                Err(_) => {},
            }
        },
        PatternView::Product(a, b) | PatternView::Cons(a, b) => {
            lemma_pattern_renamed(*a, map, prover, n);
            match refresh_pattern(*a, map, prover, n) {
                Ok(ra) => {
                    lemma_pattern_renamed(*b, ra.map, ra.prover, ra.next);
                    match refresh_pattern(*b, ra.map, ra.prover, ra.next) {
                        Ok(rb) => {
                            let r = refresh_pattern(p, map, prover, n)->Ok_0;
                            assert(r.map == rb.map);
                            assert forall|id: VariableId| #[trigger]
                                binds(r.term, id) implies issued(n, r.next, id) by {
                                if binds(ra.term, id) {
                                } else {
                                    assert(binds(rb.term, id));
                                }
                            }
                            assert forall|x: VariableId| #[trigger]
                                binds(p, x) implies r.map.contains_key(x) && issued(
                                n,
                                r.next,
                                r.map[x],
                            ) by {
                                if binds(*b, x) {
                                } else {
                                    assert(binds(*a, x));
                                    assert(ra.map.contains_key(x));
                                    assert(agree_at(ra.map, rb.map, x));
                                }
                            }
                            assert forall|x: VariableId| !binds(p, x) implies #[trigger] agree_at(
                                map,
                                r.map,
                                x,
                            ) by {
                                assert(!binds(*a, x));
                                assert(!binds(*b, x));
                                assert(agree_at(map, ra.map, x));
                                assert(agree_at(ra.map, rb.map, x));
                            }
                            assert(agree_outside(p, map, r.map));
                        },
                        Err(_) => {},
                    }
                },
                Err(_) => {},
            }
        },
        PatternView::Variable(v) => {
            match refresh_binder(v, map, prover, n) {
                Ok(rv) => {
                    let r = refresh_pattern(p, map, prover, n)->Ok_0;
                    assert(r.map == map.insert(v.id, rv.term.id));
                    assert(rv.term.id == n);
                    assert forall|x: VariableId| !binds(p, x) implies #[trigger] agree_at(
                        map,
                        r.map,
                        x,
                    ) by {
                        assert(x != v.id);
                    }
                    assert(agree_outside(p, map, r.map));
                },
                Err(_) => {},
            }
        },
        _ => {
            assert(agree_outside(p, map, map));
        },
    }
}

/// Whether one of the patterns `ps[i..]` binds a variable with the identifier.
pub open spec fn binds_from(ps: Seq<PatternView>, i: int, id: VariableId) -> bool {
    exists|j: int| i <= j < ps.len() && binds(#[trigger] ps[j], id)
}

/// Whether a variable with the identifier occurs in the expression, as a
/// reference or in a pattern.
pub open spec fn occurs(e: TExprView, id: VariableId) -> bool
    decreases e,
{
    match e.v {
        ExprView::Variable(v) => v.id == id,
        ExprView::Sequence(es) => exists|j: int| 0 <= j < es.len() && occurs(#[trigger] es[j], id),
        ExprView::Intrinsic(i) => exists|j: int|
            0 <= j < i.args.len() && occurs(#[trigger] i.args[j], id),
        ExprView::Infix(_, a, b)
        | ExprView::Application(a, b)
        | ExprView::Product(a, b)
        | ExprView::Cons(a, b) => occurs(*a, id) || occurs(*b, id),
        ExprView::Negate(a) => occurs(*a, id),
        ExprView::Function(ps, body) => binds_from(ps, 0, id) || occurs(*body, id),
        ExprView::LetBinding(p, a, body) => binds(p, id) || occurs(*a, id) || occurs(*body, id),
        ExprView::Match(s, bs) => occurs(*s, id) || exists|j: int|
            0 <= j < bs.len() && (binds((#[trigger] bs[j]).0, id) || occurs(bs[j].1, id)),
        ExprView::Constant(_) | ExprView::Unit | ExprView::Nil => false,
    }
}

/// Whether a variable with the identifier occurs free in the expression: as
/// a reference that no enclosing parameter or pattern binds.
pub open spec fn free_in(e: TExprView, id: VariableId) -> bool
    decreases e,
{
    match e.v {
        ExprView::Variable(v) => v.id == id,
        ExprView::Sequence(es) => exists|j: int| 0 <= j < es.len() && free_in(#[trigger] es[j], id),
        ExprView::Intrinsic(i) => exists|j: int|
            0 <= j < i.args.len() && free_in(#[trigger] i.args[j], id),
        ExprView::Infix(_, a, b)
        | ExprView::Application(a, b)
        | ExprView::Product(a, b)
        | ExprView::Cons(a, b) => free_in(*a, id) || free_in(*b, id),
        ExprView::Negate(a) => free_in(*a, id),
        ExprView::Function(ps, body) => free_in(*body, id) && !binds_from(ps, 0, id),
        ExprView::LetBinding(p, a, body) => free_in(*a, id) || (free_in(*body, id) && !binds(
            p,
            id,
        )),
        ExprView::Match(s, bs) => free_in(*s, id) || exists|j: int|
            0 <= j < bs.len() && free_in((#[trigger] bs[j]).1, id) && !binds(bs[j].0, id),
        ExprView::Constant(_) | ExprView::Unit | ExprView::Nil => false,
    }
}

/// What the substitution makes of the identifier.
pub open spec fn rename(map: Map<VariableId, VariableId>, x: VariableId) -> VariableId {
    if map.contains_key(x) {
        map[x]
    } else {
        x
    }
}

/// Whether the identifier is what the substitution makes of a variable that
/// occurs free in the expression.
pub open spec fn free_image(
    e: TExprView,
    map: Map<VariableId, VariableId>,
    id: VariableId,
) -> bool {
    exists|x: VariableId| #[trigger] free_in(e, x) && rename(map, x) == id
}

/// Whether the identifier is accounted for: it was issued from `n` up to
/// `next`, or it is what the substitution makes of a free variable of `e`.
pub open spec fn accounted_for(
    e: TExprView,
    map: Map<VariableId, VariableId>,
    n: nat,
    next: nat,
    id: VariableId,
) -> bool {
    issued(n, next, id) || free_image(e, map, id)
}

/// Whether a variable with the identifier occurs in the branch.
pub open spec fn branch_occurs(b: (PatternView, TExprView), id: VariableId) -> bool {
    binds(b.0, id) || occurs(b.1, id)
}

/// Whether a variable with the identifier occurs free in the branch.
pub open spec fn branch_free(b: (PatternView, TExprView), x: VariableId) -> bool {
    free_in(b.1, x) && !binds(b.0, x)
}

/// Whether the identifier was issued from `n` up to `next`, or is what the
/// substitution makes of a free variable of the branch.
pub open spec fn branch_accounted_for(
    b: (PatternView, TExprView),
    map: Map<VariableId, VariableId>,
    n: nat,
    next: nat,
    id: VariableId,
) -> bool {
    issued(n, next, id) || exists|x: VariableId|
        #[trigger] branch_free(b, x) && rename(map, x) == id
}

/// What holds of every renaming of a list of patterns that succeeds.
proof fn lemma_patterns_renamed(
    ps: Seq<PatternView>,
    i: nat,
    done: Seq<PatternView>,
    map: Map<VariableId, VariableId>,
    prover: Set<VariableId>,
    n: nat,
)
    requires
        i <= ps.len(),
    ensures
        refresh_patterns_from(ps, i, done, map, prover, n) matches Ok(r) ==> {
            &&& n <= r.next
            &&& r.term.len() == done.len() + ps.len() - i
            &&& forall|k: int| 0 <= k < done.len() ==> #[trigger] r.term[k] == done[k]
            &&& forall|k: int|
                done.len() <= k < r.term.len() ==> binders_issued(#[trigger] r.term[k], n, r.next)
            &&& forall|x: VariableId| #[trigger]
                binds_from(ps, i as int, x) ==> r.map.contains_key(x) && issued(
                    n,
                    r.next,
                    r.map[x],
                )
            &&& forall|x: VariableId|
                !binds_from(ps, i as int, x) ==> #[trigger] agree_at(map, r.map, x)
        },
    decreases ps.len() - i,
{
    if i < ps.len() {
        lemma_pattern_renamed(ps[i as int], map, prover, n);
        match refresh_pattern(ps[i as int], map, prover, n) {
            Ok(rp) => {
                lemma_patterns_renamed(ps, i + 1, done.push(rp.term), rp.map, rp.prover, rp.next);
                match refresh_patterns_from(
                    ps,
                    i + 1,
                    done.push(rp.term),
                    rp.map,
                    rp.prover,
                    rp.next,
                ) {
                    Ok(r) => {
                        assert forall|k: int| 0 <= k < done.len() implies #[trigger] r.term[k]
                            == done[k] by {
                            assert(done.push(rp.term)[k] == done[k]);
                        }
                        assert forall|k: int| done.len() <= k < r.term.len() implies binders_issued(
                            #[trigger] r.term[k],
                            n,
                            r.next,
                        ) by {
                            if k == done.len() {
                                assert(r.term[k] == done.push(rp.term)[k]);
                                assert(r.term[k] == rp.term);
                                assert(binders_issued(rp.term, n, rp.next));
                            } else {
                                assert(binders_issued(r.term[k], rp.next, r.next));
                            }
                        }
                        assert forall|x: VariableId| #[trigger]
                            binds_from(ps, i as int, x) implies r.map.contains_key(x) && issued(
                            n,
                            r.next,
                            r.map[x],
                        ) by {
                            if binds_from(ps, (i + 1) as int, x) {
                            } else {
                                let j = choose|j: int|
                                    i <= j < ps.len() && binds(#[trigger] ps[j], x);
                                assert(j == i);
                                assert(agree_at(rp.map, r.map, x));
                                assert(rp.map.contains_key(x) && issued(n, rp.next, rp.map[x]));
                            }
                        }
                        assert forall|x: VariableId|
                            !binds_from(ps, i as int, x) implies #[trigger] agree_at(
                            map,
                            r.map,
                            x,
                        ) by {
                            assert(!binds(ps[i as int], x));
                            assert(!binds_from(ps, (i + 1) as int, x)) by {
                                if binds_from(ps, (i + 1) as int, x) {
                                    let j = choose|j: int|
                                        i + 1 <= j < ps.len() && binds(#[trigger] ps[j], x);
                                    assert(i <= j < ps.len() && binds(ps[j], x));
                                }
                            }
                            assert(agree_at(map, rp.map, x));
                            assert(agree_at(rp.map, r.map, x));
                        }
                    },
                    Err(_) => {},
                }
            },
            Err(_) => {},
        }
    } else {
        assert forall|x: VariableId| !(#[trigger] binds_from(ps, i as int, x)) by {}
    }
}

/// A variable of a body that was renamed under the substitution `inner` is
/// accounted for in the whole term, where `inner` is the substitution `map`
/// of the whole term changed only on variables that the binder binds, which
/// it sends to identifiers issued by the renaming.
proof fn lemma_account_under_binder(
    body: TExprView,
    e: TExprView,
    map: Map<VariableId, VariableId>,
    inner: Map<VariableId, VariableId>,
    n: nat,
    mid: nat,
    next: nat,
    id: VariableId,
    bound: spec_fn(VariableId) -> bool,
)
    requires
        n <= mid <= next,
        accounted_for(body, inner, mid, next, id),
        forall|x: VariableId| #[trigger]
            bound(x) ==> inner.contains_key(x) && issued(n, mid, inner[x]),
        forall|x: VariableId| !bound(x) ==> #[trigger] agree_at(map, inner, x),
        forall|x: VariableId| #[trigger] free_in(body, x) && !bound(x) ==> free_in(e, x),
    ensures
        accounted_for(e, map, n, next, id),
{
    if !issued(mid, next, id) {
        let x = choose|x: VariableId| #[trigger] free_in(body, x) && rename(inner, x) == id;
        if bound(x) {
            assert(issued(n, mid, inner[x]));
        } else {
            assert(agree_at(map, inner, x));
            assert(free_in(e, x));
            assert(rename(map, x) == id);
        }
    }
}

/// Whether every variable of the renamed term `t` is accounted for: it has
/// an identifier issued from `n` up to `next`, or it is what the substitution
/// makes of a free variable of the term `e` that was renamed.
pub open spec fn all_accounted(
    t: TExprView,
    e: TExprView,
    map: Map<VariableId, VariableId>,
    n: nat,
    next: nat,
) -> bool {
    forall|id: VariableId| #[trigger] occurs(t, id) ==> accounted_for(e, map, n, next, id)
}

/// What holds of a renaming `r` of the expression `e` under `map` that
/// started at `n`.
pub open spec fn well_renamed(
    r: Refreshed<TExprView>,
    e: TExprView,
    map: Map<VariableId, VariableId>,
    n: nat,
) -> bool {
    n <= r.next && all_accounted(r.term, e, map, n, r.next)
}

/// A renamed reference is well renamed.
proof fn lemma_reference_renamed(
    e: TExprView,
    map: Map<VariableId, VariableId>,
    prover: Set<VariableId>,
    n: nat,
)
    requires
        e.v is Variable,
    ensures
        refresh_expr(e, map, prover, n) matches Ok(r) ==> well_renamed(r, e, map, n),
{
    let v = e.v->Variable_0;
    match refresh_expr(e, map, prover, n) {
        Ok(r) => {
            assert forall|id: VariableId| #[trigger] occurs(r.term, id) implies accounted_for(
                e,
                map,
                n,
                r.next,
                id,
            ) by {
                assert(free_in(e, v.id));
                assert(rename(map, v.id) == id);
            }
        },
        Err(_) => {},
    }
}

/// A renamed negation is well renamed.
proof fn lemma_negate_renamed(
    e: TExprView,
    map: Map<VariableId, VariableId>,
    prover: Set<VariableId>,
    n: nat,
)
    requires
        e.v is Negate,
    ensures
        refresh_expr(e, map, prover, n) matches Ok(r) ==> well_renamed(r, e, map, n),
    decreases e, 0nat,
{
    let a = *e.v->Negate_0;
    match refresh_expr(e, map, prover, n) {
        Ok(r) => {
            lemma_expr_renamed(a, map, prover, n);
            let ra = refresh_expr(a, map, prover, n)->Ok_0;
            assert forall|id: VariableId| #[trigger] occurs(r.term, id) implies accounted_for(
                e,
                map,
                n,
                r.next,
                id,
            ) by {
                assert(occurs(ra.term, id));
                lemma_account_part(a, e, map, n, ra.next, n, r.next, id);
            }
        },
        Err(_) => {},
    }
}

/// A renamed binary node is well renamed.
proof fn lemma_pair_renamed(
    e: TExprView,
    a: TExprView,
    b: TExprView,
    map: Map<VariableId, VariableId>,
    prover: Set<VariableId>,
    n: nat,
)
    requires
        is_pair_of(e, a, b),
    ensures
        refresh_expr(e, map, prover, n) matches Ok(r) ==> well_renamed(r, e, map, n),
    decreases e, 0nat,
{
    match refresh_expr(e, map, prover, n) {
        Ok(r) => {
            lemma_expr_renamed(a, map, prover, n);
            let ra = refresh_expr(a, map, prover, n)->Ok_0;
            lemma_expr_renamed(b, map, ra.prover, ra.next);
            let rb = refresh_expr(b, map, ra.prover, ra.next)->Ok_0;
            assert(r.next == rb.next);
            assert forall|id: VariableId| #[trigger] occurs(r.term, id) implies accounted_for(
                e,
                map,
                n,
                r.next,
                id,
            ) by {
                if occurs(ra.term, id) {
                    lemma_account_part(a, e, map, n, ra.next, n, r.next, id);
                } else {
                    assert(occurs(rb.term, id));
                    lemma_account_part(b, e, map, ra.next, rb.next, n, r.next, id);
                }
            }
        },
        Err(_) => {},
    }
}

/// A renamed sequence or built-in is well renamed.
proof fn lemma_list_renamed(
    e: TExprView,
    es: Seq<TExprView>,
    map: Map<VariableId, VariableId>,
    prover: Set<VariableId>,
    n: nat,
)
    requires
        is_list_of(e, es),
    ensures
        refresh_expr(e, map, prover, n) matches Ok(r) ==> well_renamed(r, e, map, n),
    decreases e, 0nat,
{
    match refresh_expr(e, map, prover, n) {
        Ok(r) => {
            lemma_exprs_renamed(es, 0, Seq::empty(), map, prover, n);
            let rs = refresh_exprs_from(es, 0, Seq::empty(), map, prover, n)->Ok_0;
            assert(r.next == rs.next);
            assert forall|id: VariableId| #[trigger] occurs(r.term, id) implies accounted_for(
                e,
                map,
                n,
                r.next,
                id,
            ) by {
                let j = choose|j: int| 0 <= j < rs.term.len() && occurs(#[trigger] rs.term[j], id);
                assert(accounted_for(es[j], map, n, rs.next, id));
                lemma_account_part(es[j], e, map, n, rs.next, n, r.next, id);
            }
        },
        Err(_) => {},
    }
}

/// A renamed function is well renamed.
proof fn lemma_function_renamed(
    e: TExprView,
    map: Map<VariableId, VariableId>,
    prover: Set<VariableId>,
    n: nat,
)
    requires
        e.v is Function,
    ensures
        refresh_expr(e, map, prover, n) matches Ok(r) ==> well_renamed(r, e, map, n),
    decreases e, 0nat,
{
    let ps = e.v->Function_0;
    let body = *e.v->Function_1;
    match refresh_expr(e, map, prover, n) {
        Ok(r) => {
            lemma_patterns_renamed(ps, 0, Seq::empty(), map, prover, n);
            let rps = refresh_patterns_from(ps, 0, Seq::empty(), map, prover, n)->Ok_0;
            lemma_expr_renamed(body, rps.map, rps.prover, rps.next);
            let rb = refresh_expr(body, rps.map, rps.prover, rps.next)->Ok_0;
            assert(r.next == rb.next);
            assert forall|id: VariableId| #[trigger] occurs(r.term, id) implies accounted_for(
                e,
                map,
                n,
                r.next,
                id,
            ) by {
                if binds_from(rps.term, 0, id) {
                    let j = choose|j: int|
                        0 <= j < rps.term.len() && binds(#[trigger] rps.term[j], id);
                    assert(binders_issued(rps.term[j], n, rps.next));
                } else {
                    assert(occurs(rb.term, id));
                    lemma_account_under_binder(
                        body,
                        e,
                        map,
                        rps.map,
                        n,
                        rps.next,
                        r.next,
                        id,
                        |x: VariableId| binds_from(ps, 0, x),
                    );
                }
            }
        },
        Err(_) => {},
    }
}

/// A renamed let-binding is well renamed.
proof fn lemma_let_renamed(
    e: TExprView,
    map: Map<VariableId, VariableId>,
    prover: Set<VariableId>,
    n: nat,
)
    requires
        e.v is LetBinding,
    ensures
        refresh_expr(e, map, prover, n) matches Ok(r) ==> well_renamed(r, e, map, n),
    decreases e, 0nat,
{
    let p = e.v->LetBinding_0;
    let a = *e.v->LetBinding_1;
    let body = *e.v->LetBinding_2;
    match refresh_expr(e, map, prover, n) {
        Ok(r) => {
            lemma_expr_renamed(a, map, prover, n);
            let ra = refresh_expr(a, map, prover, n)->Ok_0;
            lemma_pattern_renamed(p, map, ra.prover, ra.next);
            let rp = refresh_pattern(p, map, ra.prover, ra.next)->Ok_0;
            lemma_expr_renamed(body, rp.map, rp.prover, rp.next);
            let rb = refresh_expr(body, rp.map, rp.prover, rp.next)->Ok_0;
            assert(r.next == rb.next);
            assert forall|id: VariableId| #[trigger] occurs(r.term, id) implies accounted_for(
                e,
                map,
                n,
                r.next,
                id,
            ) by {
                if binds(rp.term, id) {
                    assert(binders_issued(rp.term, ra.next, rp.next));
                    assert(issued(ra.next, rp.next, id));
                } else if occurs(ra.term, id) {
                    lemma_account_part(a, e, map, n, ra.next, n, r.next, id);
                } else {
                    assert(occurs(rb.term, id));
                    assert forall|x: VariableId| !binds(p, x) implies #[trigger] agree_at(
                        map,
                        rp.map,
                        x,
                    ) by {
                        assert(agree_outside(p, map, rp.map));
                    }
                    assert forall|x: VariableId| #[trigger] binds(p, x) implies rp.map.contains_key(
                        x,
                    ) && issued(n, rp.next, rp.map[x]) by {
                        assert(binders_renamed(p, rp.map, ra.next, rp.next));
                    }
                    lemma_account_under_binder(
                        body,
                        e,
                        map,
                        rp.map,
                        n,
                        rp.next,
                        r.next,
                        id,
                        |x: VariableId| binds(p, x),
                    );
                }
            }
        },
        Err(_) => {},
    }
}

/// A renamed match is well renamed.
proof fn lemma_match_renamed(
    e: TExprView,
    map: Map<VariableId, VariableId>,
    prover: Set<VariableId>,
    n: nat,
)
    requires
        e.v is Match,
    ensures
        refresh_expr(e, map, prover, n) matches Ok(r) ==> well_renamed(r, e, map, n),
    decreases e, 0nat,
{
    let s = *e.v->Match_0;
    let bs = e.v->Match_1;
    match refresh_expr(e, map, prover, n) {
        Ok(r) => {
            lemma_expr_renamed(s, map, prover, n);
            let rs = refresh_expr(s, map, prover, n)->Ok_0;
            lemma_branches_renamed(bs, 0, Seq::empty(), map, rs.prover, rs.next);
            let rbs = refresh_branches_from(bs, 0, Seq::empty(), map, rs.prover, rs.next)->Ok_0;
            assert(r.next == rbs.next);
            assert forall|id: VariableId| #[trigger] occurs(r.term, id) implies accounted_for(
                e,
                map,
                n,
                r.next,
                id,
            ) by {
                if occurs(rs.term, id) {
                    lemma_account_part(s, e, map, n, rs.next, n, r.next, id);
                } else {
                    let j = choose|j: int|
                        0 <= j < rbs.term.len() && (binds((#[trigger] rbs.term[j]).0, id)
                            || occurs(rbs.term[j].1, id));
                    assert(branch_occurs(rbs.term[j], id));
                    assert(branch_accounted_for(bs[j], map, rs.next, rbs.next, id));
                    if !issued(rs.next, rbs.next, id) {
                        let x = choose|x: VariableId| #[trigger]
                            branch_free(bs[j], x) && rename(map, x) == id;
                        assert(free_in(bs[j].1, x) && !binds(bs[j].0, x));
                        assert(free_in(e, x));
                    }
                }
            }
        },
        Err(_) => {},
    }
}

/// What holds of every renaming of an expression that succeeds: every
/// variable of the renamed expression has an identifier that the renaming
/// issued, or is what the substitution makes of a variable that occurs free
/// in the expression.
pub proof fn lemma_expr_renamed(
    e: TExprView,
    map: Map<VariableId, VariableId>,
    prover: Set<VariableId>,
    n: nat,
)
    ensures
        refresh_expr(e, map, prover, n) matches Ok(r) ==> well_renamed(r, e, map, n),
    decreases e, 1nat,
{
    match e.v {
        ExprView::Variable(_) => {
            lemma_reference_renamed(e, map, prover, n);
        },
        ExprView::Negate(_) => {
            lemma_negate_renamed(e, map, prover, n);
        },
        ExprView::Infix(_, a, b)
        | ExprView::Application(a, b)
        | ExprView::Product(a, b)
        | ExprView::Cons(a, b) => {
            lemma_pair_renamed(e, *a, *b, map, prover, n);
        },
        ExprView::Sequence(es) => {
            lemma_list_renamed(e, es, map, prover, n);
        },
        ExprView::Intrinsic(i) => {
            lemma_list_renamed(e, i.args, map, prover, n);
        },
        ExprView::Function(_, _) => {
            lemma_function_renamed(e, map, prover, n);
        },
        ExprView::LetBinding(_, _, _) => {
            lemma_let_renamed(e, map, prover, n);
        },
        ExprView::Match(_, _) => {
            lemma_match_renamed(e, map, prover, n);
        },
        ExprView::Constant(_) | ExprView::Unit | ExprView::Nil => {},
    }
}

/// A variable that is accounted for in a part of a term is accounted for in
/// the term, where every free variable of the part is free in the term.
proof fn lemma_account_part(
    part: TExprView,
    e: TExprView,
    map: Map<VariableId, VariableId>,
    n0: nat,
    n1: nat,
    n: nat,
    next: nat,
    id: VariableId,
)
    requires
        n <= n0,
        n1 <= next,
        accounted_for(part, map, n0, n1, id),
        is_part(part, e),
    ensures
        accounted_for(e, map, n, next, id),
{
    if !issued(n0, n1, id) {
        let x = choose|x: VariableId| #[trigger] free_in(part, x) && rename(map, x) == id;
        lemma_free_in_part(part, e, x);
    }
}

/// Whether `part` is an immediate part of `e` that lies in no binder's scope.
pub open spec fn is_part(part: TExprView, e: TExprView) -> bool {
    match e.v {
        ExprView::Sequence(es) => exists|j: int| 0 <= j < es.len() && part == #[trigger] es[j],
        ExprView::Intrinsic(i) => exists|j: int|
            0 <= j < i.args.len() && part == #[trigger] i.args[j],
        ExprView::Infix(_, a, b)
        | ExprView::Application(a, b)
        | ExprView::Product(a, b)
        | ExprView::Cons(a, b) => part == *a || part == *b,
        ExprView::Negate(a) => part == *a,
        ExprView::LetBinding(_, a, _) => part == *a,
        ExprView::Match(s, _) => part == *s,
        _ => false,
    }
}

/// A variable that is free in a part outside any binder's scope is free in the
/// whole.
proof fn lemma_free_in_part(part: TExprView, e: TExprView, x: VariableId)
    requires
        is_part(part, e),
        free_in(part, x),
    ensures
        free_in(e, x),
{
    match e.v {
        ExprView::Sequence(es) => {
            let j = choose|j: int| 0 <= j < es.len() && part == #[trigger] es[j];
            assert(free_in(es[j], x));
        },
        ExprView::Intrinsic(i) => {
            let j = choose|j: int| 0 <= j < i.args.len() && part == #[trigger] i.args[j];
            assert(free_in(i.args[j], x));
        },
        _ => {},
    }
}

/// What holds of every renaming of a list of expressions that succeeds.
proof fn lemma_exprs_renamed(
    es: Seq<TExprView>,
    i: nat,
    done: Seq<TExprView>,
    map: Map<VariableId, VariableId>,
    prover: Set<VariableId>,
    n: nat,
)
    requires
        i <= es.len(),
    ensures
        refresh_exprs_from(es, i, done, map, prover, n) matches Ok(r) ==> {
            &&& n <= r.next
            &&& r.term.len() == done.len() + es.len() - i
            &&& forall|k: int| 0 <= k < done.len() ==> #[trigger] r.term[k] == done[k]
            &&& forall|k: int, id: VariableId|
                done.len() <= k < r.term.len() && #[trigger] occurs(r.term[k], id)
                    ==> accounted_for(es[k - done.len() + i], map, n, r.next, id)
        },
    decreases es, es.len() - i,
{
    if i < es.len() {
        lemma_expr_renamed(es[i as int], map, prover, n);
        match refresh_expr(es[i as int], map, prover, n) {
            Ok(re) => {
                lemma_exprs_renamed(es, i + 1, done.push(re.term), map, re.prover, re.next);
                match refresh_exprs_from(es, i + 1, done.push(re.term), map, re.prover, re.next) {
                    Ok(r) => {
                        assert forall|k: int| 0 <= k < done.len() implies #[trigger] r.term[k]
                            == done[k] by {
                            assert(done.push(re.term)[k] == done[k]);
                        }
                        assert forall|k: int, id: VariableId|
                            done.len() <= k < r.term.len() && #[trigger] occurs(
                                r.term[k],
                                id,
                            ) implies accounted_for(es[k - done.len() + i], map, n, r.next, id) by {
                            if k == done.len() {
                                assert(r.term[k] == done.push(re.term)[k]);
                                assert(occurs(re.term, id));
                                assert(all_accounted(re.term, es[i as int], map, n, re.next));
                                assert(accounted_for(es[i as int], map, n, re.next, id));
                            } else {
                                assert(accounted_for(
                                    es[k - done.push(re.term).len() + (i + 1)],
                                    map,
                                    re.next,
                                    r.next,
                                    id,
                                ));
                            }
                        }
                    },
                    Err(_) => {},
                }
            },
            Err(_) => {},
        }
    }
}

/// What holds of every renaming of a list of branches that succeeds.
proof fn lemma_branches_renamed(
    bs: Seq<(PatternView, TExprView)>,
    i: nat,
    done: Seq<(PatternView, TExprView)>,
    map: Map<VariableId, VariableId>,
    prover: Set<VariableId>,
    n: nat,
)
    requires
        i <= bs.len(),
    ensures
        refresh_branches_from(bs, i, done, map, prover, n) matches Ok(r) ==> {
            &&& n <= r.next
            &&& r.term.len() == done.len() + bs.len() - i
            &&& forall|k: int| 0 <= k < done.len() ==> #[trigger] r.term[k] == done[k]
            &&& forall|k: int, id: VariableId|
                done.len() <= k < r.term.len() && #[trigger] branch_occurs(r.term[k], id)
                    ==> branch_accounted_for(bs[k - done.len() + i], map, n, r.next, id)
        },
    decreases bs, bs.len() - i,
{
    if i < bs.len() {
        let p = bs[i as int].0;
        let body = bs[i as int].1;
        lemma_pattern_renamed(p, map, prover, n);
        match refresh_pattern(p, map, prover, n) {
            Ok(rp) => {
                lemma_expr_renamed(body, rp.map, rp.prover, rp.next);
                match refresh_expr(body, rp.map, rp.prover, rp.next) {
                    Ok(rb) => {
                        let step = done.push((rp.term, rb.term));
                        lemma_branches_renamed(bs, i + 1, step, map, rb.prover, rb.next);
                        match refresh_branches_from(bs, i + 1, step, map, rb.prover, rb.next) {
                            Ok(r) => {
                                assert forall|k: int|
                                    0 <= k < done.len() implies #[trigger] r.term[k]
                                    == done[k] by {
                                    assert(step[k] == done[k]);
                                }
                                assert forall|k: int, id: VariableId|
                                    done.len() <= k < r.term.len() && #[trigger] branch_occurs(
                                        r.term[k],
                                        id,
                                    ) implies branch_accounted_for(
                                    bs[k - done.len() + i],
                                    map,
                                    n,
                                    r.next,
                                    id,
                                ) by {
                                    if k == done.len() {
                                        assert(r.term[k] == step[k]);
                                        if binds(rp.term, id) {
                                            assert(binders_issued(rp.term, n, rp.next));
                                        } else {
                                            assert(occurs(rb.term, id));
                                            assert(all_accounted(
                                                rb.term,
                                                body,
                                                rp.map,
                                                rp.next,
                                                rb.next,
                                            ));
                                            assert(accounted_for(
                                                body,
                                                rp.map,
                                                rp.next,
                                                rb.next,
                                                id,
                                            ));
                                            if !issued(rp.next, rb.next, id) {
                                                let x = choose|x: VariableId| #[trigger]
                                                    free_in(body, x) && rename(rp.map, x) == id;
                                                if binds(p, x) {
                                                    assert(binders_renamed(p, rp.map, n, rp.next));
                                                    assert(issued(n, rp.next, rp.map[x]));
                                                } else {
                                                    assert(agree_outside(p, map, rp.map));
                                                    assert(agree_at(map, rp.map, x));
                                                    assert(branch_free(bs[i as int], x));
                                                    assert(rename(map, x) == id);
                                                }
                                            }
                                        }
                                    } else {
                                        assert(branch_accounted_for(
                                            bs[k - step.len() + (i + 1)],
                                            map,
                                            rb.next,
                                            r.next,
                                            id,
                                        ));
                                    }
                                }
                            },
                            Err(_) => {},
                        }
                    },
                    Err(_) => {},
                }
            },
            Err(_) => {},
        }
    }
}

/// Renaming is hygienic. Rename an expression twice, the second time with
/// identifiers that the first renaming did not issue. Then a variable that
/// the two results have in common is what the substitution makes of a
/// variable that occurs free in the expression: the two results share no
/// bound variable.
pub proof fn lemma_renaming_is_hygienic(
    e: TExprView,
    map: Map<VariableId, VariableId>,
    prover1: Set<VariableId>,
    n1: nat,
    prover2: Set<VariableId>,
    n2: nat,
    id: VariableId,
)
    requires
        refresh_expr(e, map, prover1, n1) matches Ok(r1) && refresh_expr(e, map, prover2, n2)
            matches Ok(r2) && r1.next <= n2 && occurs(r1.term, id) && occurs(r2.term, id),
    ensures
        free_image(e, map, id),
{
    lemma_expr_renamed(e, map, prover1, n1);
    lemma_expr_renamed(e, map, prover2, n2);
    let r1 = refresh_expr(e, map, prover1, n1)->Ok_0;
    let r2 = refresh_expr(e, map, prover2, n2)->Ok_0;
    assert(all_accounted(r1.term, e, map, n1, r1.next));
    assert(all_accounted(r2.term, e, map, n2, r2.next));
    assert(accounted_for(e, map, n1, r1.next, id));
    assert(accounted_for(e, map, n2, r2.next, id));
}

/// The renaming of a pattern fails only when the identifiers run out.
proof fn lemma_pattern_renaming_errors(
    p: PatternView,
    map: Map<VariableId, VariableId>,
    prover: Set<VariableId>,
    n: nat,
)
    ensures
        fails_only_by_exhaustion(refresh_pattern(p, map, prover, n)),
    decreases p,
{
    match p {
        PatternView::As(a, _) => {
            lemma_pattern_renaming_errors(*a, map, prover, n);
        },
        PatternView::Product(a, b) | PatternView::Cons(a, b) => {
            lemma_pattern_renaming_errors(*a, map, prover, n);
            match refresh_pattern(*a, map, prover, n) {
                Ok(ra) => {
                    lemma_pattern_renaming_errors(*b, ra.map, ra.prover, ra.next);
                },
                Err(_) => {},
            }
        },
        _ => {},
    }
}

/// The renaming of a list of patterns fails only when the identifiers run out.
proof fn lemma_patterns_renaming_errors(
    ps: Seq<PatternView>,
    i: nat,
    done: Seq<PatternView>,
    map: Map<VariableId, VariableId>,
    prover: Set<VariableId>,
    n: nat,
)
    ensures
        fails_only_by_exhaustion(refresh_patterns_from(ps, i, done, map, prover, n)),
    decreases ps.len() - i,
{
    if i < ps.len() {
        lemma_pattern_renaming_errors(ps[i as int], map, prover, n);
        match refresh_pattern(ps[i as int], map, prover, n) {
            Ok(r) => {
                lemma_patterns_renaming_errors(
                    ps,
                    i + 1,
                    done.push(r.term),
                    r.map,
                    r.prover,
                    r.next,
                );
            },
            Err(_) => {},
        }
    }
}

/// Renaming never fails on account of the expression: the only error that it
/// can end in is that the identifiers ran out.
pub proof fn lemma_renaming_fails_only_by_exhaustion(
    e: TExprView,
    map: Map<VariableId, VariableId>,
    prover: Set<VariableId>,
    n: nat,
)
    ensures
        fails_only_by_exhaustion(refresh_expr(e, map, prover, n)),
    decreases e, 0nat,
{
    match e.v {
        ExprView::Sequence(es) => {
            lemma_exprs_renaming_errors(es, 0, Seq::empty(), map, prover, n);
        },
        ExprView::Intrinsic(i) => {
            lemma_exprs_renaming_errors(i.args, 0, Seq::empty(), map, prover, n);
        },
        ExprView::Infix(_, a, b)
        | ExprView::Application(a, b)
        | ExprView::Product(a, b)
        | ExprView::Cons(a, b) => {
            lemma_renaming_fails_only_by_exhaustion(*a, map, prover, n);
            match refresh_expr(*a, map, prover, n) {
                Ok(ra) => {
                    lemma_renaming_fails_only_by_exhaustion(*b, map, ra.prover, ra.next);
                },
                Err(_) => {},
            }
        },
        ExprView::Negate(a) => {
            lemma_renaming_fails_only_by_exhaustion(*a, map, prover, n);
        },
        ExprView::Function(ps, body) => {
            lemma_patterns_renaming_errors(ps, 0, Seq::empty(), map, prover, n);
            match refresh_patterns_from(ps, 0, Seq::empty(), map, prover, n) {
                Ok(rps) => {
                    lemma_renaming_fails_only_by_exhaustion(*body, rps.map, rps.prover, rps.next);
                },
                Err(_) => {},
            }
        },
        ExprView::LetBinding(p, a, body) => {
            lemma_renaming_fails_only_by_exhaustion(*a, map, prover, n);
            match refresh_expr(*a, map, prover, n) {
                Ok(ra) => {
                    lemma_pattern_renaming_errors(p, map, ra.prover, ra.next);
                    match refresh_pattern(p, map, ra.prover, ra.next) {
                        Ok(rp) => {
                            lemma_renaming_fails_only_by_exhaustion(
                                *body,
                                rp.map,
                                rp.prover,
                                rp.next,
                            );
                        },
                        Err(_) => {},
                    }
                },
                Err(_) => {},
            }
        },
        ExprView::Match(s, bs) => {
            lemma_renaming_fails_only_by_exhaustion(*s, map, prover, n);
            match refresh_expr(*s, map, prover, n) {
                Ok(rs) => {
                    lemma_branches_renaming_errors(bs, 0, Seq::empty(), map, rs.prover, rs.next);
                },
                Err(_) => {},
            }
        },
        _ => {},
    }
}

/// The renaming of a list of expressions fails only when the identifiers run
/// out.
proof fn lemma_exprs_renaming_errors(
    es: Seq<TExprView>,
    i: nat,
    done: Seq<TExprView>,
    map: Map<VariableId, VariableId>,
    prover: Set<VariableId>,
    n: nat,
)
    ensures
        fails_only_by_exhaustion(refresh_exprs_from(es, i, done, map, prover, n)),
    decreases es, es.len() - i,
{
    if i < es.len() {
        lemma_renaming_fails_only_by_exhaustion(es[i as int], map, prover, n);
        match refresh_expr(es[i as int], map, prover, n) {
            Ok(r) => {
                lemma_exprs_renaming_errors(es, i + 1, done.push(r.term), map, r.prover, r.next);
            },
            Err(_) => {},
        }
    }
}

/// The renaming of a list of branches fails only when the identifiers run out.
proof fn lemma_branches_renaming_errors(
    bs: Seq<(PatternView, TExprView)>,
    i: nat,
    done: Seq<(PatternView, TExprView)>,
    map: Map<VariableId, VariableId>,
    prover: Set<VariableId>,
    n: nat,
)
    ensures
        fails_only_by_exhaustion(refresh_branches_from(bs, i, done, map, prover, n)),
    decreases bs, bs.len() - i,
{
    if i < bs.len() {
        lemma_pattern_renaming_errors(bs[i as int].0, map, prover, n);
        match refresh_pattern(bs[i as int].0, map, prover, n) {
            Ok(rp) => {
                lemma_renaming_fails_only_by_exhaustion(bs[i as int].1, rp.map, rp.prover, rp.next);
                match refresh_expr(bs[i as int].1, rp.map, rp.prover, rp.next) {
                    Ok(rb) => {
                        lemma_branches_renaming_errors(
                            bs,
                            i + 1,
                            done.push((rp.term, rb.term)),
                            map,
                            rb.prover,
                            rb.next,
                        );
                    },
                    Err(_) => {},
                }
            },
            Err(_) => {},
        }
    }
}

} // verus!
