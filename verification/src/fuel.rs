//! Why fuel only bounds the work: a computation that ends within its fuel
//! ends in the same result with any more fuel.

use vstd::prelude::*;
use crate::ast::{
    DefinitionView, ExprView, IntrinsicKind, IntrinsicView, ModuleView, PatternView, TExprView,
    TypeView, VariableId, untyped,
};
use crate::env::introduced;
use crate::error::ErrorView;
use crate::inline::{
    inline_definition, inline_definitions_from, inline_module, normalize, normalize_application,
    normalize_each_from, normalize_let, normalize_top_level_from, peel_parameter, select_branch,
};
use crate::intrinsics::{apply_intrinsic, iter_expansion};
use crate::matching::{
    Tribool, is_bound_variable, match_components, match_pattern, split_cons, split_product,
    split_variable,
};
use crate::optimize::{
    propagate, propagate_branches_from, propagate_definition, propagate_definitions_from,
    propagate_from, propagate_module,
};
use crate::renaming::refresh_expr;

verus! {

/// Whether the computation ended within its fuel: in a value, or in an error
/// other than `RecursionLimit`.
pub open spec fn settled<T>(r: Result<T, ErrorView>) -> bool {
    match r {
        Ok(_) => true,
        Err(e) => e != ErrorView::RecursionLimit,
    }
}

/// A substitution that ends within its fuel ends in the same result with
/// more fuel.
pub proof fn lemma_propagate_fuel(
    e: TExprView,
    subst: Map<VariableId, TExprView>,
    fuel: nat,
    more: nat,
)
    requires
        fuel <= more,
        settled(propagate(e, subst, fuel)),
    ensures
        propagate(e, subst, more) == propagate(e, subst, fuel),
    decreases fuel, e, 0nat,
{
    match e.v {
        ExprView::Variable(v) => {
            if subst.contains_key(v.id) {
                lemma_propagate_fuel(subst[v.id], subst, (fuel - 1) as nat, (more - 1) as nat);
            }
        },
        ExprView::Sequence(es) => {
            lemma_propagate_from_fuel(es, 0, Seq::empty(), subst, fuel, more);
        },
        ExprView::Intrinsic(i) => {
            lemma_propagate_from_fuel(i.args, 0, Seq::empty(), subst, fuel, more);
        },
        ExprView::Infix(_, a, b)
        | ExprView::Application(a, b)
        | ExprView::Product(a, b)
        | ExprView::Cons(a, b) => {
            lemma_propagate_fuel(*a, subst, fuel, more);
            if propagate(*a, subst, fuel) is Ok {
                lemma_propagate_fuel(*b, subst, fuel, more);
            }
        },
        ExprView::Negate(a) => {
            lemma_propagate_fuel(*a, subst, fuel, more);
        },
        ExprView::Function(_, body) => {
            lemma_propagate_fuel(*body, subst, fuel, more);
        },
        ExprView::LetBinding(_, a, body) => {
            lemma_propagate_fuel(*a, subst, fuel, more);
            if propagate(*a, subst, fuel) is Ok {
                lemma_propagate_fuel(*body, subst, fuel, more);
            }
        },
        ExprView::Match(s, bs) => {
            lemma_propagate_fuel(*s, subst, fuel, more);
            if propagate(*s, subst, fuel) is Ok {
                lemma_propagate_branches_fuel(bs, 0, Seq::empty(), subst, fuel, more);
            }
        },
        _ => {},
    }
}

/// The substitution in a list that ends within its fuel ends in the same
/// result with more fuel.
pub proof fn lemma_propagate_from_fuel(
    es: Seq<TExprView>,
    i: nat,
    done: Seq<TExprView>,
    subst: Map<VariableId, TExprView>,
    fuel: nat,
    more: nat,
)
    requires
        fuel <= more,
        settled(propagate_from(es, i, done, subst, fuel)),
    ensures
        propagate_from(es, i, done, subst, more) == propagate_from(es, i, done, subst, fuel),
    decreases fuel, es, es.len() - i,
{
    if i < es.len() {
        lemma_propagate_fuel(es[i as int], subst, fuel, more);
        match propagate(es[i as int], subst, fuel) {
            Ok(r) => {
                lemma_propagate_from_fuel(es, i + 1, done.push(r), subst, fuel, more);
            },
            Err(_) => {},
        }
    }
}

/// The substitution in the branches of a match that ends within its fuel ends
/// in the same result with more fuel.
proof fn lemma_propagate_branches_fuel(
    bs: Seq<(PatternView, TExprView)>,
    i: nat,
    done: Seq<(PatternView, TExprView)>,
    subst: Map<VariableId, TExprView>,
    fuel: nat,
    more: nat,
)
    requires
        fuel <= more,
        settled(propagate_branches_from(bs, i, done, subst, fuel)),
    ensures
        propagate_branches_from(bs, i, done, subst, more) == propagate_branches_from(
            bs,
            i,
            done,
            subst,
            fuel,
        ),
    decreases fuel, bs, bs.len() - i,
{
    if i < bs.len() {
        lemma_propagate_fuel(bs[i as int].1, subst, fuel, more);
        match propagate(bs[i as int].1, subst, fuel) {
            Ok(r) => {
                lemma_propagate_branches_fuel(
                    bs,
                    i + 1,
                    done.push((bs[i as int].0, r)),
                    subst,
                    fuel,
                    more,
                );
            },
            Err(_) => {},
        }
    }
}

/// A match that ends within its fuel ends in the same result with more fuel.
pub proof fn lemma_match_fuel(
    p: PatternView,
    e: TExprView,
    map: Map<VariableId, TExprView>,
    prover: Set<VariableId>,
    next: nat,
    fuel: nat,
    more: nat,
)
    requires
        fuel <= more,
        settled(match_pattern(p, e, map, prover, next, fuel)),
    ensures
        match_pattern(p, e, map, prover, next, more) == match_pattern(
            p,
            e,
            map,
            prover,
            next,
            fuel,
        ),
    decreases fuel, 1nat,
{
    if is_bound_variable(e, map) {
        lemma_match_fuel(
            p,
            map[e.v->Variable_0.id],
            map,
            prover,
            next,
            (fuel - 1) as nat,
            (more - 1) as nat,
        );
    } else {
        match p {
            PatternView::As(a, v) => {
                lemma_match_fuel(
                    *a,
                    e,
                    map.insert(v.id, e),
                    prover,
                    next,
                    (fuel - 1) as nat,
                    (more - 1) as nat,
                );
            },
            PatternView::Product(pa, pb) => {
                match e.v {
                    ExprView::Product(e1, e2) => {
                        lemma_components_fuel(*pa, *e1, *pb, *e2, map, prover, next, fuel, more);
                    },
                    ExprView::Variable(var) => {
                        match split_variable(var.id, prover, next) {
                            Ok((id1, id2, prover1, next1)) => {
                                lemma_match_fuel(
                                    p,
                                    e,
                                    map.insert(var.id, split_product(id1, id2)),
                                    prover1,
                                    next1,
                                    (fuel - 1) as nat,
                                    (more - 1) as nat,
                                );
                            },
                            Err(_) => {},
                        }
                    },
                    _ => {},
                }
            },
            PatternView::Cons(pa, pb) => {
                match e.v {
                    ExprView::Cons(e1, e2) => {
                        lemma_components_fuel(*pa, *e1, *pb, *e2, map, prover, next, fuel, more);
                    },
                    ExprView::Variable(var) => {
                        match split_variable(var.id, prover, next) {
                            Ok((id1, id2, prover1, next1)) => {
                                lemma_match_fuel(
                                    p,
                                    e,
                                    map.insert(var.id, split_cons(id1, id2)),
                                    prover1,
                                    next1,
                                    (fuel - 1) as nat,
                                    (more - 1) as nat,
                                );
                            },
                            Err(_) => {},
                        }
                    },
                    _ => {},
                }
            },
            _ => {},
        }
    }
}

/// The match of two components that ends within its fuel ends in the same
/// result with more fuel.
proof fn lemma_components_fuel(
    pa: PatternView,
    e1: TExprView,
    pb: PatternView,
    e2: TExprView,
    map: Map<VariableId, TExprView>,
    prover: Set<VariableId>,
    next: nat,
    fuel: nat,
    more: nat,
)
    requires
        fuel <= more,
        settled(match_components(pa, e1, pb, e2, map, prover, next, fuel)),
    ensures
        match_components(pa, e1, pb, e2, map, prover, next, more) == match_components(
            pa,
            e1,
            pb,
            e2,
            map,
            prover,
            next,
            fuel,
        ),
    decreases fuel, 0nat,
{
    lemma_match_fuel(pa, e1, map, prover, next, (fuel - 1) as nat, (more - 1) as nat);
    match match_pattern(pa, e1, map, prover, next, (fuel - 1) as nat) {
        Ok(m1) => {
            lemma_match_fuel(
                pb,
                e2,
                m1.map,
                m1.prover,
                m1.next,
                (fuel - 1) as nat,
                (more - 1) as nat,
            );
        },
        Err(_) => {},
    }
}

/// An expansion of `iter` that ends within its fuel ends in the same result
/// with more fuel.
pub proof fn lemma_iter_fuel(
    args: Seq<TExprView>,
    bindings: Map<VariableId, TExprView>,
    prover: Set<VariableId>,
    next: nat,
    fuel: nat,
    more: nat,
)
    requires
        fuel <= more,
        settled(iter_expansion(args, bindings, prover, next, fuel)),
    ensures
        iter_expansion(args, bindings, prover, next, more) == iter_expansion(
            args,
            bindings,
            prover,
            next,
            fuel,
        ),
    decreases fuel,
{
    if args.len() == 1 {
        match args[0].v {
            ExprView::Variable(var) => {
                if bindings.contains_key(var.id) {
                    lemma_iter_fuel(
                        seq![bindings[var.id]],
                        bindings,
                        prover,
                        next,
                        (fuel - 1) as nat,
                        (more - 1) as nat,
                    );
                }
            },
            _ => {},
        }
    }
}

/// A built-in that ends within its fuel ends in the same result with more
/// fuel.
pub proof fn lemma_intrinsic_fuel(
    i: IntrinsicView,
    arg: TExprView,
    bindings: Map<VariableId, TExprView>,
    prover: Set<VariableId>,
    next: nat,
    fuel: nat,
    more: nat,
)
    requires
        fuel <= more,
        settled(apply_intrinsic(i, arg, bindings, prover, next, fuel)),
    ensures
        apply_intrinsic(i, arg, bindings, prover, next, more) == apply_intrinsic(
            i,
            arg,
            bindings,
            prover,
            next,
            fuel,
        ),
{
    if i.args.len() + 1 >= i.arity && i.imp == IntrinsicKind::Iter {
        lemma_iter_fuel(i.args.push(arg), bindings, prover, next, fuel, more);
    }
}

/// A normalization that ends within its fuel ends in the same result with
/// more fuel: the fuel bounds the work and decides nothing else.
pub proof fn lemma_normalize_fuel(
    e: TExprView,
    bindings: Map<VariableId, TExprView>,
    prover: Set<VariableId>,
    next: nat,
    fuel: nat,
    more: nat,
)
    requires
        fuel <= more,
        settled(normalize(e, bindings, prover, next, fuel)),
    ensures
        normalize(e, bindings, prover, next, more) == normalize(e, bindings, prover, next, fuel),
    decreases fuel, 0nat,
{
    let f = (fuel - 1) as nat;
    let g = (more - 1) as nat;
    match e.v {
        ExprView::Application(e1, e2) => {
            lemma_application_fuel(*e1, *e2, e.t, bindings, prover, next, f, g);
        },
        ExprView::LetBinding(p, b, body) => {
            lemma_let_fuel(p, *b, *body, e.t, bindings, prover, next, f, g);
        },
        ExprView::Match(s, bs) => {
            lemma_normalize_fuel(*s, bindings, prover, next, f, g);
            match normalize(*s, bindings, prover, next, f) {
                Ok(ns) => {
                    lemma_select_fuel(
                        ns.tree,
                        ns.value,
                        bs,
                        0,
                        e.t,
                        bindings,
                        ns.prover,
                        ns.next,
                        f,
                        g,
                    );
                },
                Err(_) => {},
            }
        },
        ExprView::Sequence(es) => {
            if es.len() > 0 {
                lemma_each_fuel(es, 0, Seq::empty(), Seq::empty(), bindings, prover, next, f, g);
            }
        },
        ExprView::Intrinsic(i) => {
            lemma_each_fuel(i.args, 0, Seq::empty(), Seq::empty(), bindings, prover, next, f, g);
        },
        ExprView::Product(a, b) | ExprView::Cons(a, b) | ExprView::Infix(_, a, b) => {
            lemma_normalize_fuel(*a, bindings, prover, next, f, g);
            match normalize(*a, bindings, prover, next, f) {
                Ok(na) => {
                    lemma_normalize_fuel(*b, bindings, na.prover, na.next, f, g);
                },
                Err(_) => {},
            }
        },
        ExprView::Negate(a) => {
            lemma_normalize_fuel(*a, bindings, prover, next, f, g);
        },
        _ => {},
    }
}

/// The normalization of an application that ends within its fuel ends in the
/// same result with more fuel.
proof fn lemma_application_fuel(
    e1: TExprView,
    e2: TExprView,
    t: Option<TypeView>,
    bindings: Map<VariableId, TExprView>,
    prover: Set<VariableId>,
    next: nat,
    f: nat,
    g: nat,
)
    requires
        f <= g,
        settled(normalize_application(e1, e2, t, bindings, prover, next, f)),
    ensures
        normalize_application(e1, e2, t, bindings, prover, next, g) == normalize_application(
            e1,
            e2,
            t,
            bindings,
            prover,
            next,
            f,
        ),
    decreases f, 1nat,
{
    match e1.v {
        ExprView::Application(_, _) | ExprView::Match(_, _) => {
            lemma_normalize_fuel(e1, bindings, prover, next, f, g);
            match normalize(e1, bindings, prover, next, f) {
                Ok(n1) => {
                    lemma_normalize_fuel(
                        TExprView { v: ExprView::Application(Box::new(n1.tree), Box::new(e2)), t },
                        bindings,
                        n1.prover,
                        n1.next,
                        f,
                        g,
                    );
                },
                Err(_) => {},
            }
        },
        ExprView::Intrinsic(i) => {
            lemma_normalize_fuel(e2, bindings, prover, next, f, g);
            match normalize(e2, bindings, prover, next, f) {
                Ok(n2) => {
                    lemma_intrinsic_fuel(i, n2.value, bindings, n2.prover, n2.next, f, g);
                    match apply_intrinsic(i, n2.value, bindings, n2.prover, n2.next, f) {
                        Ok(x) => {
                            lemma_normalize_fuel(x.term, bindings, x.prover, x.next, f, g);
                        },
                        Err(_) => {},
                    }
                },
                Err(_) => {},
            }
        },
        ExprView::Variable(var) => {
            if bindings.contains_key(var.id) && !prover.contains(var.id) {
                lemma_normalize_fuel(
                    untyped(ExprView::Application(Box::new(bindings[var.id]), Box::new(e2))),
                    bindings,
                    prover,
                    next,
                    f,
                    g,
                );
            }
        },
        ExprView::Function(_, _) => {
            match refresh_expr(e1, Map::empty(), prover, next) {
                Ok(r) => {
                    match peel_parameter(r.term, e2) {
                        Ok(binding) => {
                            lemma_normalize_fuel(binding, bindings, r.prover, r.next, f, g);
                        },
                        Err(_) => {},
                    }
                },
                Err(_) => {},
            }
        },
        ExprView::Sequence(es) => {
            if es.len() > 0 {
                lemma_normalize_fuel(
                    TExprView {
                        v: ExprView::Sequence(
                            es.drop_last().push(
                                untyped(ExprView::Application(Box::new(es.last()), Box::new(e2))),
                            ),
                        ),
                        t: e1.t,
                    },
                    bindings,
                    prover,
                    next,
                    f,
                    g,
                );
            }
        },
        ExprView::LetBinding(p, b, body) => {
            lemma_normalize_fuel(
                TExprView {
                    v: ExprView::LetBinding(
                        p,
                        b,
                        Box::new(untyped(ExprView::Application(body, Box::new(e2)))),
                    ),
                    t: e1.t,
                },
                bindings,
                prover,
                next,
                f,
                g,
            );
        },
        _ => {},
    }
}

/// The normalization of a let-binding that ends within its fuel ends in the
/// same result with more fuel.
proof fn lemma_let_fuel(
    p: PatternView,
    b: TExprView,
    body: TExprView,
    t: Option<TypeView>,
    bindings: Map<VariableId, TExprView>,
    prover: Set<VariableId>,
    next: nat,
    f: nat,
    g: nat,
)
    requires
        f <= g,
        settled(normalize_let(p, b, body, t, bindings, prover, next, f)),
    ensures
        normalize_let(p, b, body, t, bindings, prover, next, g) == normalize_let(
            p,
            b,
            body,
            t,
            bindings,
            prover,
            next,
            f,
        ),
    decreases f, 1nat,
{
    lemma_normalize_fuel(b, bindings, prover, next, f, g);
    match normalize(b, bindings, prover, next, f) {
        Ok(nb) => {
            lemma_match_fuel(p, nb.value, bindings, nb.prover, nb.next, f, g);
            match match_pattern(p, nb.value, bindings, nb.prover, nb.next, f) {
                Ok(m) => {
                    lemma_normalize_fuel(body, m.map, m.prover, m.next, f, g);
                    match normalize(body, m.map, m.prover, m.next, f) {
                        Ok(n) => {
                            lemma_propagate_fuel(
                                n.value,
                                introduced(m.map, bindings, n.prover),
                                f,
                                g,
                            );
                        },
                        Err(_) => {},
                    }
                },
                Err(_) => {},
            }
        },
        Err(_) => {},
    }
}

/// The choice of a branch that ends within its fuel ends in the same result
/// with more fuel.
proof fn lemma_select_fuel(
    tree: TExprView,
    value: TExprView,
    bs: Seq<(PatternView, TExprView)>,
    i: nat,
    t: Option<TypeView>,
    bindings: Map<VariableId, TExprView>,
    prover: Set<VariableId>,
    next: nat,
    f: nat,
    g: nat,
)
    requires
        f <= g,
        settled(select_branch(tree, value, bs, i, t, bindings, prover, next, f)),
    ensures
        select_branch(tree, value, bs, i, t, bindings, prover, next, g) == select_branch(
            tree,
            value,
            bs,
            i,
            t,
            bindings,
            prover,
            next,
            f,
        ),
    decreases f, 1 + bs.len() - i,
{
    if i < bs.len() {
        lemma_match_fuel(bs[i as int].0, value, bindings, prover, next, f, g);
        match match_pattern(bs[i as int].0, value, bindings, prover, next, f) {
            Ok(m) => {
                match m.outcome {
                    Tribool::True => {
                        lemma_normalize_fuel(
                            TExprView {
                                v: ExprView::LetBinding(
                                    bs[i as int].0,
                                    Box::new(tree),
                                    Box::new(bs[i as int].1),
                                ),
                                t,
                            },
                            bindings,
                            m.prover,
                            m.next,
                            f,
                            g,
                        );
                    },
                    Tribool::Indeterminate => {},
                    Tribool::False => {
                        lemma_select_fuel(
                            tree,
                            value,
                            bs,
                            i + 1,
                            t,
                            bindings,
                            m.prover,
                            m.next,
                            f,
                            g,
                        );
                    },
                }
            },
            Err(_) => {},
        }
    }
}

/// The normalization of a list that ends within its fuel ends in the same
/// result with more fuel.
proof fn lemma_each_fuel(
    es: Seq<TExprView>,
    i: nat,
    trees: Seq<TExprView>,
    values: Seq<TExprView>,
    bindings: Map<VariableId, TExprView>,
    prover: Set<VariableId>,
    next: nat,
    f: nat,
    g: nat,
)
    requires
        f <= g,
        settled(normalize_each_from(es, i, trees, values, bindings, prover, next, f)),
    ensures
        normalize_each_from(es, i, trees, values, bindings, prover, next, g)
            == normalize_each_from(es, i, trees, values, bindings, prover, next, f),
    decreases f, 1 + es.len() - i,
{
    if i < es.len() {
        lemma_normalize_fuel(es[i as int], bindings, prover, next, f, g);
        match normalize(es[i as int], bindings, prover, next, f) {
            Ok(n) => {
                lemma_each_fuel(
                    es,
                    i + 1,
                    trees.push(n.tree),
                    values.push(n.value),
                    bindings,
                    n.prover,
                    n.next,
                    f,
                    g,
                );
            },
            Err(_) => {},
        }
    }
}

/// The inlining of definitions that ends within its fuel ends in the same
/// result with more fuel.
proof fn lemma_inline_definitions_fuel(
    ds: Seq<DefinitionView>,
    i: nat,
    done: Seq<DefinitionView>,
    bindings: Map<VariableId, TExprView>,
    prover: Set<VariableId>,
    next: nat,
    fuel: nat,
    more: nat,
)
    requires
        fuel <= more,
        settled(inline_definitions_from(ds, i, done, bindings, prover, next, fuel)),
    ensures
        inline_definitions_from(ds, i, done, bindings, prover, next, more)
            == inline_definitions_from(ds, i, done, bindings, prover, next, fuel),
    decreases ds.len() - i,
{
    if i < ds.len() {
        let d = ds[i as int];
        lemma_normalize_fuel(d.value, bindings, prover, next, fuel, more);
        match normalize(d.value, bindings, prover, next, fuel) {
            Ok(n) => {
                lemma_match_fuel(d.pattern, n.value, bindings, n.prover, n.next, fuel, more);
            },
            Err(_) => {},
        }
        match inline_definition(d, bindings, prover, next, fuel) {
            Ok(r) => {
                lemma_inline_definitions_fuel(
                    ds,
                    i + 1,
                    done.push(r.def),
                    r.bindings,
                    r.prover,
                    r.next,
                    fuel,
                    more,
                );
            },
            Err(_) => {},
        }
    }
}

/// The inlining of top-level expressions that ends within its fuel ends in
/// the same result with more fuel.
proof fn lemma_top_level_fuel(
    es: Seq<TExprView>,
    i: nat,
    trees: Seq<TExprView>,
    bindings: Map<VariableId, TExprView>,
    prover: Set<VariableId>,
    next: nat,
    fuel: nat,
    more: nat,
)
    requires
        fuel <= more,
        settled(normalize_top_level_from(es, i, trees, bindings, prover, next, fuel)),
    ensures
        normalize_top_level_from(es, i, trees, bindings, prover, next, more)
            == normalize_top_level_from(es, i, trees, bindings, prover, next, fuel),
    decreases es.len() - i,
{
    if i < es.len() {
        lemma_normalize_fuel(es[i as int], bindings, prover, next, fuel, more);
        match normalize(es[i as int], bindings, prover, next, fuel) {
            Ok(n) => {
                lemma_top_level_fuel(
                    es,
                    i + 1,
                    trees.push(n.tree),
                    bindings,
                    n.prover,
                    n.next,
                    fuel,
                    more,
                );
            },
            Err(_) => {},
        }
    }
}

/// The inlining of a module that ends within its fuel ends in the same
/// result with more fuel.
pub proof fn lemma_inline_module_fuel(
    m: ModuleView,
    bindings: Map<VariableId, TExprView>,
    prover: Set<VariableId>,
    next: nat,
    fuel: nat,
    more: nat,
)
    requires
        fuel <= more,
        settled(inline_module(m, bindings, prover, next, fuel)),
    ensures
        inline_module(m, bindings, prover, next, more) == inline_module(
            m,
            bindings,
            prover,
            next,
            fuel,
        ),
{
    lemma_inline_definitions_fuel(m.defs, 0, Seq::empty(), bindings, prover, next, fuel, more);
    match inline_definitions_from(m.defs, 0, Seq::empty(), bindings, prover, next, fuel) {
        Ok(d) => {
            lemma_top_level_fuel(
                m.exprs,
                0,
                Seq::empty(),
                d.bindings,
                d.prover,
                d.next,
                fuel,
                more,
            );
        },
        Err(_) => {},
    }
}

/// The propagation through definitions that ends within its fuel ends in the
/// same result with more fuel.
proof fn lemma_propagate_definitions_fuel(
    ds: Seq<DefinitionView>,
    i: nat,
    done: Seq<DefinitionView>,
    subst: Map<VariableId, TExprView>,
    prover: Set<VariableId>,
    fuel: nat,
    more: nat,
)
    requires
        fuel <= more,
        settled(propagate_definitions_from(ds, i, done, subst, prover, fuel)),
    ensures
        propagate_definitions_from(ds, i, done, subst, prover, more)
            == propagate_definitions_from(ds, i, done, subst, prover, fuel),
    decreases ds.len() - i,
{
    if i < ds.len() {
        let d = ds[i as int];
        if d.pattern is Variable {
            lemma_propagate_fuel(d.value, subst, fuel, more);
        }
        match propagate_definition(d, subst, prover, fuel) {
            Ok(r) => {
                lemma_propagate_definitions_fuel(
                    ds,
                    i + 1,
                    done.push(r.def),
                    r.subst,
                    prover,
                    fuel,
                    more,
                );
            },
            Err(_) => {},
        }
    }
}

/// A copy propagation that ends within its fuel ends in the same result with
/// more fuel.
pub proof fn lemma_copy_propagation_fuel(
    m: ModuleView,
    prover: Set<VariableId>,
    fuel: nat,
    more: nat,
)
    requires
        fuel <= more,
        settled(propagate_module(m, prover, fuel)),
    ensures
        propagate_module(m, prover, more) == propagate_module(m, prover, fuel),
{
    lemma_propagate_definitions_fuel(m.defs, 0, Seq::empty(), Map::empty(), prover, fuel, more);
    match propagate_definitions_from(m.defs, 0, Seq::empty(), Map::empty(), prover, fuel) {
        Ok(d) => {
            lemma_propagate_from_fuel(m.exprs, 0, Seq::empty(), d.subst, fuel, more);
        },
        Err(_) => {},
    }
}

} // verus!
