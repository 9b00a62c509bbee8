//! Why numbering gives every binder an identifier of its own, and every
//! reference an identifier that it can be traced to.

use vstd::prelude::*;
use crate::ast::{
    DefinitionView, ExprView, ModuleView, PatternView, TExprView, VariableId, VariableView,
    is_list_of, is_pair_of,
};
use crate::error::fails_only_by_exhaustion;
use crate::hygiene::issued;
use crate::numbering::{
    Numbered, number_binder, number_branches_from, number_definition, number_definitions_from,
    number_expr, number_exprs_from, number_module, number_pattern, number_patterns_from,
    number_reference,
};

verus! {

/// The identifier of a binder that has a name, as a list of one or none.
pub open spec fn binder_id(v: VariableView) -> Seq<VariableId> {
    if v.name is Some {
        seq![v.id]
    } else {
        Seq::empty()
    }
}

/// The identifiers of the named variables that the pattern binds, one for
/// each occurrence, in the order in which numbering meets them.
pub open spec fn pattern_binders(p: PatternView) -> Seq<VariableId>
    decreases p,
{
    match p {
        PatternView::Variable(v) => binder_id(v),
        PatternView::As(a, v) => pattern_binders(*a) + binder_id(v),
        PatternView::Product(a, b) | PatternView::Cons(a, b) => pattern_binders(*a)
            + pattern_binders(*b),
        PatternView::Constant(_) | PatternView::Unit | PatternView::Nil => Seq::empty(),
    }
}

/// The identifiers of the named binders of the patterns `ps[i..]`.
pub open spec fn patterns_binders_from(ps: Seq<PatternView>, i: nat) -> Seq<VariableId>
    decreases ps.len() - i,
{
    if i >= ps.len() {
        Seq::empty()
    } else {
        pattern_binders(ps[i as int]) + patterns_binders_from(ps, i + 1)
    }
}

/// The identifiers of the named binders of the expression, one for each
/// occurrence, in the order in which numbering meets them.
pub open spec fn expr_binders(e: TExprView) -> Seq<VariableId>
    decreases e, 0nat,
{
    match e.v {
        ExprView::Sequence(es) => exprs_binders_from(es, 0),
        ExprView::Intrinsic(i) => exprs_binders_from(i.args, 0),
        ExprView::Infix(_, a, b)
        | ExprView::Application(a, b)
        | ExprView::Product(a, b)
        | ExprView::Cons(a, b) => expr_binders(*a) + expr_binders(*b),
        ExprView::Negate(a) => expr_binders(*a),
        ExprView::Function(ps, body) => patterns_binders_from(ps, 0) + expr_binders(*body),
        ExprView::LetBinding(p, a, body) => expr_binders(*a) + pattern_binders(p) + expr_binders(
            *body,
        ),
        ExprView::Match(s, bs) => expr_binders(*s) + branches_binders_from(bs, 0),
        ExprView::Constant(_)
        | ExprView::Unit
        | ExprView::Nil
        | ExprView::Variable(_) => Seq::empty(),
    }
}

/// The identifiers of the named binders of the expressions `es[i..]`.
pub open spec fn exprs_binders_from(es: Seq<TExprView>, i: nat) -> Seq<VariableId>
    decreases es, es.len() - i,
{
    if i >= es.len() {
        Seq::empty()
    } else {
        expr_binders(es[i as int]) + exprs_binders_from(es, i + 1)
    }
}

/// The identifiers of the named binders of the branches `bs[i..]`: those of
/// each pattern before those of its body.
pub open spec fn branches_binders_from(bs: Seq<(PatternView, TExprView)>, i: nat) -> Seq<VariableId>
    decreases bs, bs.len() - i,
{
    if i >= bs.len() {
        Seq::empty()
    } else {
        pattern_binders(bs[i as int].0) + expr_binders(bs[i as int].1) + branches_binders_from(
            bs,
            i + 1,
        )
    }
}

/// The identifiers of the named binders of the definition: those of its
/// expression, then those of its pattern.
pub open spec fn definition_binders(d: DefinitionView) -> Seq<VariableId> {
    expr_binders(d.value) + pattern_binders(d.pattern)
}

/// The identifiers of the named binders of the definitions `ds[i..]`.
pub open spec fn definitions_binders_from(ds: Seq<DefinitionView>, i: nat) -> Seq<VariableId>
    decreases ds.len() - i,
{
    if i >= ds.len() {
        Seq::empty()
    } else {
        definition_binders(ds[i as int]) + definitions_binders_from(ds, i + 1)
    }
}

/// The identifiers of the named binders of the module, one for each
/// occurrence: those of its definitions, then those of its expressions.
pub open spec fn module_binders(m: ModuleView) -> Seq<VariableId> {
    definitions_binders_from(m.defs, 0) + exprs_binders_from(m.exprs, 0)
}

/// Whether the identifiers of the list were issued from `n` up to `next` and
/// grow along the list. No identifier then occurs in it twice.
#[verifier::opaque]
pub open spec fn increasing_within(s: Seq<VariableId>, n: nat, next: nat) -> bool {
    &&& forall|i: int| 0 <= i < s.len() ==> issued(n, next, #[trigger] s[i])
    &&& forall|i: int, j: int| 0 <= i < j < s.len() ==> #[trigger] s[i] < #[trigger] s[j]
}

/// A list whose identifiers grow, followed by one whose identifiers grow from
/// where the first ended, is a list whose identifiers grow.
proof fn lemma_increasing_concat(
    s1: Seq<VariableId>,
    s2: Seq<VariableId>,
    n: nat,
    mid: nat,
    next: nat,
)
    requires
        n <= mid <= next,
        increasing_within(s1, n, mid),
        increasing_within(s2, mid, next),
    ensures
        increasing_within(s1 + s2, n, next),
{
    reveal(increasing_within);
    let s = s1 + s2;
    assert forall|i: int| 0 <= i < s.len() implies issued(n, next, #[trigger] s[i]) by {
        if i < s1.len() {
            assert(s[i] == s1[i]);
        } else {
            assert(s[i] == s2[i - s1.len()]);
        }
    }
    assert forall|i: int, j: int|
        0 <= i < j < s.len() implies #[trigger] s[i] < #[trigger] s[j] by {
        if j < s1.len() {
            assert(s[i] == s1[i] && s[j] == s1[j]);
        } else if i >= s1.len() {
            assert(s[i] == s2[i - s1.len()] && s[j] == s2[j - s1.len()]);
        } else {
            assert(s[i] == s1[i] && s[j] == s2[j - s1.len()]);
            assert(issued(n, mid, s1[i]));
            assert(issued(mid, next, s2[j - s1.len()]));
        }
    }
}

/// The identifiers of the empty list grow.
proof fn lemma_increasing_empty(n: nat, next: nat)
    ensures
        increasing_within(Seq::<VariableId>::empty(), n, next),
{
    reveal(increasing_within);
}

/// The identifiers of a list of one issued identifier grow.
proof fn lemma_increasing_one(id: VariableId, n: nat, next: nat)
    requires
        issued(n, next, id),
    ensures
        increasing_within(seq![id], n, next),
{
    reveal(increasing_within);
}

/// Whether the name map binds some name to the identifier.
pub open spec fn known(names: Map<Seq<char>, VariableId>, id: VariableId) -> bool {
    exists|name: Seq<char>| names.contains_key(name) && #[trigger] names[name] == id
}

/// Whether every identifier that `after` knows was known to `before` or was
/// issued from `n` up to `next`.
#[verifier::opaque]
pub open spec fn extends_names(
    before: Map<Seq<char>, VariableId>,
    after: Map<Seq<char>, VariableId>,
    n: nat,
    next: nat,
) -> bool {
    forall|id: VariableId| #[trigger] known(after, id) ==> known(before, id) || issued(n, next, id)
}

/// A name map with one more binding, to an issued identifier, extends the map.
proof fn lemma_insert_extends(
    before: Map<Seq<char>, VariableId>,
    name: Seq<char>,
    id: VariableId,
    n: nat,
    next: nat,
)
    requires
        issued(n, next, id),
    ensures
        extends_names(before, before.insert(name, id), n, next),
{
    reveal(extends_names);
    let after = before.insert(name, id);
    assert forall|x: VariableId| #[trigger] known(after, x) implies known(before, x) || issued(
        n,
        next,
        x,
    ) by {
        let w = choose|w: Seq<char>| after.contains_key(w) && #[trigger] after[w] == x;
        if w != name {
            assert(before.contains_key(w) && before[w] == x);
        }
    }
}

/// An extension of an extension is an extension.
proof fn lemma_extends_trans(
    a: Map<Seq<char>, VariableId>,
    b: Map<Seq<char>, VariableId>,
    c: Map<Seq<char>, VariableId>,
    n: nat,
    mid: nat,
    next: nat,
)
    requires
        n <= mid <= next,
        extends_names(a, b, n, mid),
        extends_names(b, c, mid, next),
    ensures
        extends_names(a, c, n, next),
{
    lemma_extends_chain(a, b, c, n, mid, mid, next, n, next);
}

/// An extension of an extension is an extension, over any range of
/// identifiers that holds the ranges of both.
proof fn lemma_extends_chain(
    a: Map<Seq<char>, VariableId>,
    b: Map<Seq<char>, VariableId>,
    c: Map<Seq<char>, VariableId>,
    n0: nat,
    n1: nat,
    m0: nat,
    m1: nat,
    n: nat,
    next: nat,
)
    requires
        n <= n0,
        n1 <= next,
        n <= m0,
        m1 <= next,
        extends_names(a, b, n0, n1),
        extends_names(b, c, m0, m1),
    ensures
        extends_names(a, c, n, next),
{
    reveal(extends_names);
    assert forall|id: VariableId| #[trigger] known(c, id) implies known(a, id) || issued(
        n,
        next,
        id,
    ) by {
        if known(b, id) {
        }
    }
}

/// A name map extends itself.
proof fn lemma_extends_refl(a: Map<Seq<char>, VariableId>, n: nat, next: nat)
    ensures
        extends_names(a, a, n, next),
{
    reveal(extends_names);
}

/// An identifier that is traced through later name maps and a later range
/// of identifiers is traced through the earlier ones.
proof fn lemma_traced(
    l1: Map<Seq<char>, VariableId>,
    g1: Map<Seq<char>, VariableId>,
    a: nat,
    b: nat,
    l0: Map<Seq<char>, VariableId>,
    g0: Map<Seq<char>, VariableId>,
    n: nat,
    next: nat,
    id: VariableId,
)
    requires
        traced(l1, g1, a, b, id),
        n <= a,
        b <= next,
        extends_names(l0, l1, n, next),
        extends_names(g0, g1, n, next),
    ensures
        traced(l0, g0, n, next, id),
{
    reveal(extends_names);
    if known(l1, id) {
    }
    if known(g1, id) {
    }
}

/// What holds of every numbering of a pattern that succeeds: the named
/// binders of the numbered pattern have identifiers that the numbering
/// issued, growing in the order of the pattern; and the name map knows
/// nothing more than it knew, but for identifiers that the numbering issued.
pub proof fn lemma_pattern_numbered(p: PatternView, names: Map<Seq<char>, VariableId>, n: nat)
    ensures
        number_pattern(p, names, n) matches Ok(r) ==> n <= r.next,
        number_pattern(p, names, n) matches Ok(r) ==> increasing_within(
            pattern_binders(r.term),
            n,
            r.next,
        ),
        number_pattern(p, names, n) matches Ok(r) ==> extends_names(names, r.names, n, r.next),
    decreases p,
{
    match number_pattern(p, names, n) {
        Ok(r) => {
            match p {
                PatternView::Variable(v) => {
                    lemma_binder_numbered(v, names, n);
                },
                PatternView::As(a, v) => {
                    lemma_pattern_numbered(*a, names, n);
                    let ra = number_pattern(*a, names, n)->Ok_0;
                    lemma_binder_numbered(v, ra.names, ra.next);
                    let rv = number_binder(v, ra.names, ra.next)->Ok_0;
                    lemma_increasing_concat(
                        pattern_binders(ra.term),
                        binder_id(rv.term),
                        n,
                        ra.next,
                        rv.next,
                    );
                    lemma_extends_trans(names, ra.names, rv.names, n, ra.next, rv.next);
                },
                PatternView::Product(a, b) | PatternView::Cons(a, b) => {
                    lemma_pattern_numbered(*a, names, n);
                    let ra = number_pattern(*a, names, n)->Ok_0;
                    lemma_pattern_numbered(*b, ra.names, ra.next);
                    let rb = number_pattern(*b, ra.names, ra.next)->Ok_0;
                    lemma_increasing_concat(
                        pattern_binders(ra.term),
                        pattern_binders(rb.term),
                        n,
                        ra.next,
                        rb.next,
                    );
                    lemma_extends_trans(names, ra.names, rb.names, n, ra.next, rb.next);
                },
                _ => {
                    lemma_extends_refl(names, n, n);
                    lemma_increasing_empty(n, n);
                },
            }
        },
        Err(_) => {},
    }
}

/// What holds of every numbering of a binder that succeeds.
proof fn lemma_binder_numbered(v: VariableView, names: Map<Seq<char>, VariableId>, n: nat)
    ensures
        number_binder(v, names, n) matches Ok(r) ==> n <= r.next,
        number_binder(v, names, n) matches Ok(r) ==> increasing_within(
            binder_id(r.term),
            n,
            r.next,
        ),
        number_binder(v, names, n) matches Ok(r) ==> extends_names(names, r.names, n, r.next),
{
    match number_binder(v, names, n) {
        Ok(r) => {
            match v.name {
                Some(name) => {
                    lemma_insert_extends(names, name, r.term.id, n, r.next);
                    lemma_increasing_one(r.term.id, n, r.next);
                },
                None => {
                    lemma_extends_refl(names, n, n);
                    lemma_increasing_empty(n, n);
                },
            }
        },
        Err(_) => {},
    }
}

/// What holds of every numbering of a list of patterns that succeeds.
proof fn lemma_patterns_numbered(
    ps: Seq<PatternView>,
    i: nat,
    done: Seq<PatternView>,
    names: Map<Seq<char>, VariableId>,
    n: nat,
)
    requires
        i <= ps.len(),
    ensures
        number_patterns_from(ps, i, done, names, n) matches Ok(r) ==> {
            &&& n <= r.next
            &&& r.term.len() == done.len() + ps.len() - i
            &&& forall|k: int| 0 <= k < done.len() ==> #[trigger] r.term[k] == done[k]
            &&& increasing_within(patterns_binders_from(r.term, done.len()), n, r.next)
            &&& extends_names(names, r.names, n, r.next)
        },
    decreases ps.len() - i,
{
    if i < ps.len() {
        lemma_pattern_numbered(ps[i as int], names, n);
        match number_pattern(ps[i as int], names, n) {
            Ok(rp) => {
                let step = done.push(rp.term);
                lemma_patterns_numbered(ps, i + 1, step, rp.names, rp.next);
                match number_patterns_from(ps, i + 1, step, rp.names, rp.next) {
                    Ok(r) => {
                        assert forall|k: int| 0 <= k < done.len() implies #[trigger] r.term[k]
                            == done[k] by {
                            assert(step[k] == done[k]);
                        }
                        assert(r.term[done.len() as int] == step[done.len() as int]);
                        lemma_increasing_concat(
                            pattern_binders(rp.term),
                            patterns_binders_from(r.term, step.len()),
                            n,
                            rp.next,
                            r.next,
                        );
                        lemma_extends_trans(names, rp.names, r.names, n, rp.next, r.next);
                    },
                    Err(_) => {},
                }
            },
            Err(_) => {},
        }
    } else {
        lemma_extends_refl(names, n, n);
        lemma_increasing_empty(n, n);
    }
}

/// Whether a named variable with the identifier is referred to in the
/// expression.
pub open spec fn refers(e: TExprView, id: VariableId) -> bool
    decreases e,
{
    match e.v {
        ExprView::Variable(v) => v.name is Some && v.id == id,
        ExprView::Sequence(es) => exists|j: int| 0 <= j < es.len() && refers(#[trigger] es[j], id),
        ExprView::Intrinsic(i) => exists|j: int|
            0 <= j < i.args.len() && refers(#[trigger] i.args[j], id),
        ExprView::Infix(_, a, b)
        | ExprView::Application(a, b)
        | ExprView::Product(a, b)
        | ExprView::Cons(a, b) => refers(*a, id) || refers(*b, id),
        ExprView::Negate(a) => refers(*a, id),
        ExprView::Function(_, body) => refers(*body, id),
        ExprView::LetBinding(_, a, body) => refers(*a, id) || refers(*body, id),
        ExprView::Match(s, bs) => refers(*s, id) || exists|j: int|
            0 <= j < bs.len() && refers((#[trigger] bs[j]).1, id),
        ExprView::Constant(_) | ExprView::Unit | ExprView::Nil => false,
    }
}

/// Whether the identifier can be traced: the numbering issued it, or one of
/// the two name maps knew it.
pub open spec fn traced(
    locals: Map<Seq<char>, VariableId>,
    globals: Map<Seq<char>, VariableId>,
    n: nat,
    next: nat,
    id: VariableId,
) -> bool {
    issued(n, next, id) || known(locals, id) || known(globals, id)
}

/// Whether every named reference of the term has an identifier that can be
/// traced.
#[verifier::opaque]
pub open spec fn all_traced(
    t: TExprView,
    locals: Map<Seq<char>, VariableId>,
    globals: Map<Seq<char>, VariableId>,
    n: nat,
    next: nat,
) -> bool {
    forall|id: VariableId| #[trigger] refers(t, id) ==> traced(locals, globals, n, next, id)
}

/// What holds of a numbered term `r` that came from a numbering under
/// `locals` and `globals` that started at `n`.
pub open spec fn well_numbered(
    r: Numbered<TExprView>,
    locals: Map<Seq<char>, VariableId>,
    globals: Map<Seq<char>, VariableId>,
    n: nat,
) -> bool {
    &&& n <= r.next
    &&& increasing_within(expr_binders(r.term), n, r.next)
    &&& extends_names(globals, r.names, n, r.next)
    &&& all_traced(r.term, locals, globals, n, r.next)
}

/// The references of a part that was numbered later, under name maps that
/// extend the given ones, are traced through the given ones.
proof fn lemma_all_traced(
    t: TExprView,
    l1: Map<Seq<char>, VariableId>,
    g1: Map<Seq<char>, VariableId>,
    a: nat,
    b: nat,
    l0: Map<Seq<char>, VariableId>,
    g0: Map<Seq<char>, VariableId>,
    n: nat,
    next: nat,
)
    requires
        all_traced(t, l1, g1, a, b),
        n <= a,
        b <= next,
        extends_names(l0, l1, n, next),
        extends_names(g0, g1, n, next),
    ensures
        all_traced(t, l0, g0, n, next),
{
    reveal(all_traced);
    assert forall|id: VariableId| #[trigger] refers(t, id) implies traced(l0, g0, n, next, id) by {
        lemma_traced(l1, g1, a, b, l0, g0, n, next, id);
    }
}

/// An extension over a range of identifiers is one over any wider range.
proof fn lemma_extends_widen(
    a: Map<Seq<char>, VariableId>,
    b: Map<Seq<char>, VariableId>,
    n0: nat,
    n1: nat,
    n: nat,
    next: nat,
)
    requires
        n <= n0,
        n1 <= next,
        extends_names(a, b, n0, n1),
    ensures
        extends_names(a, b, n, next),
{
    reveal(extends_names);
}

/// A numbered reference is well numbered.
proof fn lemma_reference_numbered(
    e: TExprView,
    locals: Map<Seq<char>, VariableId>,
    globals: Map<Seq<char>, VariableId>,
    n: nat,
)
    requires
        e.v is Variable,
    ensures
        number_expr(e, locals, globals, n) matches Ok(r) ==> well_numbered(r, locals, globals, n),
{
    reveal(all_traced);
    let v = e.v->Variable_0;
    match number_expr(e, locals, globals, n) {
        Ok(r) => {
            lemma_increasing_empty(n, r.next);
            match v.name {
                Some(name) => {
                    if locals.contains_key(name) {
                        assert(known(locals, locals[name]));
                        lemma_extends_refl(globals, n, n);
                    } else if globals.contains_key(name) {
                        assert(known(globals, globals[name]));
                        lemma_extends_refl(globals, n, n);
                    } else {
                        let rv = number_reference(v, locals, globals, n)->Ok_0;
                        lemma_insert_extends(globals, name, rv.term.id, n, rv.next);
                    }
                },
                None => {
                    lemma_extends_refl(globals, n, n);
                },
            }
        },
        Err(_) => {},
    }
}

/// A numbered binary node is well numbered.
proof fn lemma_pair_numbered(
    e: TExprView,
    a: TExprView,
    b: TExprView,
    locals: Map<Seq<char>, VariableId>,
    globals: Map<Seq<char>, VariableId>,
    n: nat,
)
    requires
        is_pair_of(e, a, b),
    ensures
        number_expr(e, locals, globals, n) matches Ok(r) ==> well_numbered(r, locals, globals, n),
    decreases e, 0nat,
{
    match number_expr(e, locals, globals, n) {
        Ok(r) => {
            lemma_expr_numbered(a, locals, globals, n);
            let ra = number_expr(a, locals, globals, n)->Ok_0;
            lemma_expr_numbered(b, locals, ra.names, ra.next);
            let rb = number_expr(b, locals, ra.names, ra.next)->Ok_0;
            assert(r.next == rb.next && r.names == rb.names);
            lemma_increasing_concat(
                expr_binders(ra.term),
                expr_binders(rb.term),
                n,
                ra.next,
                rb.next,
            );
            assert(expr_binders(r.term) == expr_binders(ra.term) + expr_binders(rb.term));
            lemma_extends_trans(globals, ra.names, rb.names, n, ra.next, rb.next);
            lemma_extends_refl(locals, n, r.next);
            lemma_extends_refl(globals, n, r.next);
            lemma_extends_widen(globals, ra.names, n, ra.next, n, r.next);
            lemma_all_traced(ra.term, locals, globals, n, ra.next, locals, globals, n, r.next);
            lemma_all_traced(
                rb.term,
                locals,
                ra.names,
                ra.next,
                rb.next,
                locals,
                globals,
                n,
                r.next,
            );
            assert(all_traced(r.term, locals, globals, n, r.next)) by {
                reveal(all_traced);
                assert forall|id: VariableId| #[trigger] refers(r.term, id) implies traced(
                    locals,
                    globals,
                    n,
                    r.next,
                    id,
                ) by {
                    assert(refers(ra.term, id) || refers(rb.term, id));
                }
            }
        },
        Err(_) => {},
    }
}

/// A numbered negation is well numbered.
proof fn lemma_negate_numbered(
    e: TExprView,
    locals: Map<Seq<char>, VariableId>,
    globals: Map<Seq<char>, VariableId>,
    n: nat,
)
    requires
        e.v is Negate,
    ensures
        number_expr(e, locals, globals, n) matches Ok(r) ==> well_numbered(r, locals, globals, n),
    decreases e, 0nat,
{
    let a = *e.v->Negate_0;
    match number_expr(e, locals, globals, n) {
        Ok(r) => {
            lemma_expr_numbered(a, locals, globals, n);
            let ra = number_expr(a, locals, globals, n)->Ok_0;
            assert(expr_binders(r.term) == expr_binders(ra.term));
            assert(all_traced(r.term, locals, globals, n, r.next)) by {
                reveal(all_traced);
                assert forall|id: VariableId| #[trigger] refers(r.term, id) implies traced(
                    locals,
                    globals,
                    n,
                    r.next,
                    id,
                ) by {
                    assert(refers(ra.term, id));
                }
            }
        },
        Err(_) => {},
    }
}

/// A numbered sequence or built-in is well numbered.
proof fn lemma_list_numbered(
    e: TExprView,
    es: Seq<TExprView>,
    locals: Map<Seq<char>, VariableId>,
    globals: Map<Seq<char>, VariableId>,
    n: nat,
)
    requires
        is_list_of(e, es),
    ensures
        number_expr(e, locals, globals, n) matches Ok(r) ==> well_numbered(r, locals, globals, n),
    decreases e, 0nat,
{
    match number_expr(e, locals, globals, n) {
        Ok(r) => {
            lemma_exprs_numbered(es, 0, Seq::empty(), locals, globals, n);
            let rs = number_exprs_from(es, 0, Seq::empty(), locals, globals, n)->Ok_0;
            assert(expr_binders(r.term) == exprs_binders_from(rs.term, 0));
            assert(all_traced(r.term, locals, globals, n, r.next)) by {
                reveal(all_traced);
                assert forall|id: VariableId| #[trigger] refers(r.term, id) implies traced(
                    locals,
                    globals,
                    n,
                    r.next,
                    id,
                ) by {
                    let j = choose|j: int|
                        0 <= j < rs.term.len() && refers(#[trigger] rs.term[j], id);
                    assert(all_traced(rs.term[j], locals, globals, n, rs.next));
                }
            }
        },
        Err(_) => {},
    }
}

/// A numbered function is well numbered.
proof fn lemma_function_numbered(
    e: TExprView,
    locals: Map<Seq<char>, VariableId>,
    globals: Map<Seq<char>, VariableId>,
    n: nat,
)
    requires
        e.v is Function,
    ensures
        number_expr(e, locals, globals, n) matches Ok(r) ==> well_numbered(r, locals, globals, n),
    decreases e, 0nat,
{
    let ps = e.v->Function_0;
    let body = *e.v->Function_1;
    match number_expr(e, locals, globals, n) {
        Ok(r) => {
            lemma_patterns_numbered(ps, 0, Seq::empty(), locals, n);
            let rps = number_patterns_from(ps, 0, Seq::empty(), locals, n)->Ok_0;
            lemma_expr_numbered(body, rps.names, globals, rps.next);
            let rb = number_expr(body, rps.names, globals, rps.next)->Ok_0;
            lemma_increasing_concat(
                patterns_binders_from(rps.term, 0),
                expr_binders(rb.term),
                n,
                rps.next,
                rb.next,
            );
            assert(expr_binders(r.term) == patterns_binders_from(rps.term, 0) + expr_binders(
                rb.term,
            ));
            lemma_extends_widen(globals, rb.names, rps.next, rb.next, n, r.next);
            lemma_extends_widen(locals, rps.names, n, rps.next, n, r.next);
            lemma_extends_refl(globals, n, r.next);
            lemma_all_traced(
                rb.term,
                rps.names,
                globals,
                rps.next,
                rb.next,
                locals,
                globals,
                n,
                r.next,
            );
            assert(all_traced(r.term, locals, globals, n, r.next)) by {
                reveal(all_traced);
                assert forall|id: VariableId| #[trigger] refers(r.term, id) implies traced(
                    locals,
                    globals,
                    n,
                    r.next,
                    id,
                ) by {
                    assert(refers(rb.term, id));
                }
            }
        },
        Err(_) => {},
    }
}

/// A numbered let-binding is well numbered.
proof fn lemma_let_numbered(
    e: TExprView,
    locals: Map<Seq<char>, VariableId>,
    globals: Map<Seq<char>, VariableId>,
    n: nat,
)
    requires
        e.v is LetBinding,
    ensures
        number_expr(e, locals, globals, n) matches Ok(r) ==> well_numbered(r, locals, globals, n),
    decreases e, 0nat,
{
    let p = e.v->LetBinding_0;
    let a = *e.v->LetBinding_1;
    let body = *e.v->LetBinding_2;
    match number_expr(e, locals, globals, n) {
        Ok(r) => {
            lemma_expr_numbered(a, locals, globals, n);
            let ra = number_expr(a, locals, globals, n)->Ok_0;
            lemma_pattern_numbered(p, locals, ra.next);
            let rp = number_pattern(p, locals, ra.next)->Ok_0;
            lemma_expr_numbered(body, rp.names, ra.names, rp.next);
            let rb = number_expr(body, rp.names, ra.names, rp.next)->Ok_0;
            lemma_increasing_concat(
                expr_binders(ra.term),
                pattern_binders(rp.term),
                n,
                ra.next,
                rp.next,
            );
            lemma_increasing_concat(
                expr_binders(ra.term) + pattern_binders(rp.term),
                expr_binders(rb.term),
                n,
                rp.next,
                rb.next,
            );
            assert(expr_binders(r.term) == expr_binders(ra.term) + pattern_binders(rp.term)
                + expr_binders(rb.term));
            lemma_extends_chain(
                globals,
                ra.names,
                rb.names,
                n,
                ra.next,
                rp.next,
                rb.next,
                n,
                r.next,
            );
            lemma_extends_refl(locals, n, r.next);
            lemma_extends_refl(globals, n, r.next);
            lemma_extends_widen(locals, rp.names, ra.next, rp.next, n, r.next);
            lemma_extends_widen(globals, ra.names, n, ra.next, n, r.next);
            lemma_all_traced(ra.term, locals, globals, n, ra.next, locals, globals, n, r.next);
            lemma_all_traced(
                rb.term,
                rp.names,
                ra.names,
                rp.next,
                rb.next,
                locals,
                globals,
                n,
                r.next,
            );
            assert(all_traced(r.term, locals, globals, n, r.next)) by {
                reveal(all_traced);
                assert forall|id: VariableId| #[trigger] refers(r.term, id) implies traced(
                    locals,
                    globals,
                    n,
                    r.next,
                    id,
                ) by {
                    assert(refers(ra.term, id) || refers(rb.term, id));
                }
            }
        },
        Err(_) => {},
    }
}

/// A numbered match is well numbered.
proof fn lemma_match_numbered(
    e: TExprView,
    locals: Map<Seq<char>, VariableId>,
    globals: Map<Seq<char>, VariableId>,
    n: nat,
)
    requires
        e.v is Match,
    ensures
        number_expr(e, locals, globals, n) matches Ok(r) ==> well_numbered(r, locals, globals, n),
    decreases e, 0nat,
{
    let s = *e.v->Match_0;
    let bs = e.v->Match_1;
    match number_expr(e, locals, globals, n) {
        Ok(r) => {
            lemma_expr_numbered(s, locals, globals, n);
            let rs = number_expr(s, locals, globals, n)->Ok_0;
            lemma_branches_numbered(bs, 0, Seq::empty(), locals, rs.names, rs.next);
            let rbs = number_branches_from(bs, 0, Seq::empty(), locals, rs.names, rs.next)->Ok_0;
            lemma_increasing_concat(
                expr_binders(rs.term),
                branches_binders_from(rbs.term, 0),
                n,
                rs.next,
                rbs.next,
            );
            assert(expr_binders(r.term) == expr_binders(rs.term) + branches_binders_from(
                rbs.term,
                0,
            ));
            lemma_extends_trans(globals, rs.names, rbs.names, n, rs.next, rbs.next);
            lemma_extends_refl(locals, n, r.next);
            lemma_extends_refl(globals, n, r.next);
            lemma_extends_widen(globals, rs.names, n, rs.next, n, r.next);
            lemma_all_traced(rs.term, locals, globals, n, rs.next, locals, globals, n, r.next);
            assert(all_traced(r.term, locals, globals, n, r.next)) by {
                assert forall|id: VariableId| #[trigger] refers(r.term, id) implies traced(
                    locals,
                    globals,
                    n,
                    r.next,
                    id,
                ) by {
                    if refers(rs.term, id) {
                        reveal(all_traced);
                    } else {
                        let j = choose|j: int|
                            0 <= j < rbs.term.len() && refers((#[trigger] rbs.term[j]).1, id);
                        assert(all_traced(rbs.term[j].1, locals, rs.names, rs.next, rbs.next));
                        lemma_all_traced(
                            rbs.term[j].1,
                            locals,
                            rs.names,
                            rs.next,
                            rbs.next,
                            locals,
                            globals,
                            n,
                            r.next,
                        );
                        reveal(all_traced);
                    }
                }
                reveal(all_traced);
            }
        },
        Err(_) => {},
    }
}

/// What holds of every numbering of an expression that succeeds: the named
/// binders of the numbered expression have identifiers that the numbering
/// issued, growing in the order of the expression; the global name map knows
/// nothing more than it knew, but for identifiers that the numbering issued;
/// and every named reference has an identifier that the numbering issued or
/// that one of the two name maps knew.
pub proof fn lemma_expr_numbered(
    e: TExprView,
    locals: Map<Seq<char>, VariableId>,
    globals: Map<Seq<char>, VariableId>,
    n: nat,
)
    ensures
        number_expr(e, locals, globals, n) matches Ok(r) ==> well_numbered(r, locals, globals, n),
    decreases e, 1nat,
{
    match e.v {
        ExprView::Variable(_) => {
            lemma_reference_numbered(e, locals, globals, n);
        },
        ExprView::Negate(_) => {
            lemma_negate_numbered(e, locals, globals, n);
        },
        ExprView::Infix(_, a, b)
        | ExprView::Application(a, b)
        | ExprView::Product(a, b)
        | ExprView::Cons(a, b) => {
            lemma_pair_numbered(e, *a, *b, locals, globals, n);
        },
        ExprView::Sequence(es) => {
            lemma_list_numbered(e, es, locals, globals, n);
        },
        ExprView::Intrinsic(i) => {
            lemma_list_numbered(e, i.args, locals, globals, n);
        },
        ExprView::Function(_, _) => {
            lemma_function_numbered(e, locals, globals, n);
        },
        ExprView::LetBinding(_, _, _) => {
            lemma_let_numbered(e, locals, globals, n);
        },
        ExprView::Match(_, _) => {
            lemma_match_numbered(e, locals, globals, n);
        },
        ExprView::Constant(_) | ExprView::Unit | ExprView::Nil => {
            lemma_extends_refl(globals, n, n);
            lemma_increasing_empty(n, n);
            assert(all_traced(e, locals, globals, n, n)) by {
                reveal(all_traced);
            }
        },
    }
}

/// What holds of every numbering of a list of expressions that succeeds.
proof fn lemma_exprs_numbered(
    es: Seq<TExprView>,
    i: nat,
    done: Seq<TExprView>,
    locals: Map<Seq<char>, VariableId>,
    globals: Map<Seq<char>, VariableId>,
    n: nat,
)
    requires
        i <= es.len(),
    ensures
        number_exprs_from(es, i, done, locals, globals, n) matches Ok(r) ==> {
            &&& n <= r.next
            &&& r.term.len() == done.len() + es.len() - i
            &&& forall|k: int| 0 <= k < done.len() ==> #[trigger] r.term[k] == done[k]
            &&& increasing_within(exprs_binders_from(r.term, done.len()), n, r.next)
            &&& extends_names(globals, r.names, n, r.next)
            &&& forall|k: int|
                done.len() <= k < r.term.len() ==> all_traced(
                    #[trigger] r.term[k],
                    locals,
                    globals,
                    n,
                    r.next,
                )
        },
    decreases es, es.len() - i,
{
    if i < es.len() {
        lemma_expr_numbered(es[i as int], locals, globals, n);
        match number_expr(es[i as int], locals, globals, n) {
            Ok(re) => {
                let step = done.push(re.term);
                lemma_exprs_numbered(es, i + 1, step, locals, re.names, re.next);
                match number_exprs_from(es, i + 1, step, locals, re.names, re.next) {
                    Ok(r) => {
                        assert forall|k: int| 0 <= k < done.len() implies #[trigger] r.term[k]
                            == done[k] by {
                            assert(step[k] == done[k]);
                        }
                        assert(r.term[done.len() as int] == step[done.len() as int]);
                        lemma_increasing_concat(
                            expr_binders(re.term),
                            exprs_binders_from(r.term, step.len()),
                            n,
                            re.next,
                            r.next,
                        );
                        lemma_extends_trans(globals, re.names, r.names, n, re.next, r.next);
                        lemma_extends_refl(locals, n, r.next);
                        lemma_extends_refl(globals, n, r.next);
                        lemma_extends_widen(globals, re.names, n, re.next, n, r.next);
                        assert forall|k: int| done.len() <= k < r.term.len() implies all_traced(
                            #[trigger] r.term[k],
                            locals,
                            globals,
                            n,
                            r.next,
                        ) by {
                            if k == done.len() {
                                lemma_all_traced(
                                    re.term,
                                    locals,
                                    globals,
                                    n,
                                    re.next,
                                    locals,
                                    globals,
                                    n,
                                    r.next,
                                );
                            } else {
                                lemma_all_traced(
                                    r.term[k],
                                    locals,
                                    re.names,
                                    re.next,
                                    r.next,
                                    locals,
                                    globals,
                                    n,
                                    r.next,
                                );
                            }
                        }
                    },
                    Err(_) => {},
                }
            },
            Err(_) => {},
        }
    } else {
        lemma_extends_refl(globals, n, n);
        lemma_increasing_empty(n, n);
    }
}

/// What holds of every numbering of a list of branches that succeeds.
proof fn lemma_branches_numbered(
    bs: Seq<(PatternView, TExprView)>,
    i: nat,
    done: Seq<(PatternView, TExprView)>,
    locals: Map<Seq<char>, VariableId>,
    globals: Map<Seq<char>, VariableId>,
    n: nat,
)
    requires
        i <= bs.len(),
    ensures
        number_branches_from(bs, i, done, locals, globals, n) matches Ok(r) ==> {
            &&& n <= r.next
            &&& r.term.len() == done.len() + bs.len() - i
            &&& forall|k: int| 0 <= k < done.len() ==> #[trigger] r.term[k] == done[k]
            &&& increasing_within(branches_binders_from(r.term, done.len()), n, r.next)
            &&& extends_names(globals, r.names, n, r.next)
            &&& forall|k: int|
                done.len() <= k < r.term.len() ==> all_traced(
                    (#[trigger] r.term[k]).1,
                    locals,
                    globals,
                    n,
                    r.next,
                )
        },
    decreases bs, bs.len() - i,
{
    if i < bs.len() {
        let p = bs[i as int].0;
        let body = bs[i as int].1;
        lemma_pattern_numbered(p, locals, n);
        match number_pattern(p, locals, n) {
            Ok(rp) => {
                lemma_expr_numbered(body, rp.names, globals, rp.next);
                match number_expr(body, rp.names, globals, rp.next) {
                    Ok(rb) => {
                        let step = done.push((rp.term, rb.term));
                        lemma_branches_numbered(bs, i + 1, step, locals, rb.names, rb.next);
                        match number_branches_from(bs, i + 1, step, locals, rb.names, rb.next) {
                            Ok(r) => {
                                assert forall|k: int|
                                    0 <= k < done.len() implies #[trigger] r.term[k]
                                    == done[k] by {
                                    assert(step[k] == done[k]);
                                }
                                assert(r.term[done.len() as int] == step[done.len() as int]);
                                lemma_increasing_concat(
                                    pattern_binders(rp.term),
                                    expr_binders(rb.term),
                                    n,
                                    rp.next,
                                    rb.next,
                                );
                                lemma_increasing_concat(
                                    pattern_binders(rp.term) + expr_binders(rb.term),
                                    branches_binders_from(r.term, step.len()),
                                    n,
                                    rb.next,
                                    r.next,
                                );
                                lemma_extends_chain(
                                    globals,
                                    rb.names,
                                    r.names,
                                    rp.next,
                                    rb.next,
                                    rb.next,
                                    r.next,
                                    n,
                                    r.next,
                                );
                                lemma_extends_refl(locals, n, r.next);
                                lemma_extends_refl(globals, n, r.next);
                                lemma_extends_widen(locals, rp.names, n, rp.next, n, r.next);
                                lemma_extends_widen(globals, rb.names, rp.next, rb.next, n, r.next);
                                assert forall|k: int|
                                    done.len() <= k < r.term.len() implies all_traced(
                                    (#[trigger] r.term[k]).1,
                                    locals,
                                    globals,
                                    n,
                                    r.next,
                                ) by {
                                    if k == done.len() {
                                        lemma_all_traced(
                                            rb.term,
                                            rp.names,
                                            globals,
                                            rp.next,
                                            rb.next,
                                            locals,
                                            globals,
                                            n,
                                            r.next,
                                        );
                                    } else {
                                        lemma_all_traced(
                                            r.term[k].1,
                                            locals,
                                            rb.names,
                                            rb.next,
                                            r.next,
                                            locals,
                                            globals,
                                            n,
                                            r.next,
                                        );
                                    }
                                }
                            },
                            Err(_) => {},
                        }
                    },
                    Err(_) => {},
                }
            },
            Err(_) => {},
        }
    } else {
        lemma_extends_refl(globals, n, n);
        lemma_increasing_empty(n, n);
    }
}

/// Whether the identifier was issued from `n` up to `next` or was known to
/// the global name map before the numbering.
pub open spec fn issued_or_global(
    globals: Map<Seq<char>, VariableId>,
    n: nat,
    next: nat,
    id: VariableId,
) -> bool {
    issued(n, next, id) || known(globals, id)
}

/// Whether every named reference of the term has an identifier that the
/// numbering issued or that the global name map knew before.
#[verifier::opaque]
pub open spec fn all_resolved(
    t: TExprView,
    globals: Map<Seq<char>, VariableId>,
    n: nat,
    next: nat,
) -> bool {
    forall|id: VariableId| #[trigger] refers(t, id) ==> issued_or_global(globals, n, next, id)
}

/// References that are traced with no local binding in sight are resolved.
proof fn lemma_all_resolved(
    t: TExprView,
    g1: Map<Seq<char>, VariableId>,
    a: nat,
    b: nat,
    g0: Map<Seq<char>, VariableId>,
    n: nat,
    next: nat,
)
    requires
        all_traced(t, Map::empty(), g1, a, b),
        n <= a,
        b <= next,
        extends_names(g0, g1, n, next),
    ensures
        all_resolved(t, g0, n, next),
{
    reveal(all_traced);
    reveal(all_resolved);
    reveal(extends_names);
    let none = Map::<Seq<char>, VariableId>::empty();
    assert forall|id: VariableId| #[trigger] refers(t, id) implies issued_or_global(
        g0,
        n,
        next,
        id,
    ) by {
        assert(traced(none, g1, a, b, id));
        assert(!known(none, id));
        if known(g1, id) {
        }
    }
}

/// References that are resolved through a later global map and a later range
/// of identifiers are resolved through the earlier ones.
proof fn lemma_resolved_widen(
    t: TExprView,
    g1: Map<Seq<char>, VariableId>,
    a: nat,
    b: nat,
    g0: Map<Seq<char>, VariableId>,
    n: nat,
    next: nat,
)
    requires
        all_resolved(t, g1, a, b),
        n <= a,
        b <= next,
        extends_names(g0, g1, n, next),
    ensures
        all_resolved(t, g0, n, next),
{
    reveal(all_resolved);
    reveal(extends_names);
    assert forall|id: VariableId| #[trigger] refers(t, id) implies issued_or_global(
        g0,
        n,
        next,
        id,
    ) by {
        if known(g1, id) {
        }
    }
}

/// What holds of every numbering of a definition that succeeds.
proof fn lemma_definition_numbered(d: DefinitionView, globals: Map<Seq<char>, VariableId>, n: nat)
    ensures
        number_definition(d, globals, n) matches Ok(r) ==> {
            &&& n <= r.next
            &&& increasing_within(definition_binders(r.term), n, r.next)
            &&& extends_names(globals, r.names, n, r.next)
            &&& all_resolved(r.term.value, globals, n, r.next)
        },
{
    match number_definition(d, globals, n) {
        Ok(r) => {
            lemma_expr_numbered(d.value, Map::empty(), globals, n);
            let rv = number_expr(d.value, Map::empty(), globals, n)->Ok_0;
            lemma_pattern_numbered(d.pattern, rv.names, rv.next);
            let rp = number_pattern(d.pattern, rv.names, rv.next)->Ok_0;
            lemma_increasing_concat(
                expr_binders(rv.term),
                pattern_binders(rp.term),
                n,
                rv.next,
                rp.next,
            );
            lemma_extends_trans(globals, rv.names, rp.names, n, rv.next, rp.next);
            lemma_extends_refl(globals, n, r.next);
            lemma_all_resolved(rv.term, globals, n, rv.next, globals, n, r.next);
        },
        Err(_) => {},
    }
}

/// What holds of every numbering of a list of definitions that succeeds.
proof fn lemma_definitions_numbered(
    ds: Seq<DefinitionView>,
    i: nat,
    done: Seq<DefinitionView>,
    globals: Map<Seq<char>, VariableId>,
    n: nat,
)
    requires
        i <= ds.len(),
    ensures
        number_definitions_from(ds, i, done, globals, n) matches Ok(r) ==> {
            &&& n <= r.next
            &&& r.term.len() == done.len() + ds.len() - i
            &&& forall|k: int| 0 <= k < done.len() ==> #[trigger] r.term[k] == done[k]
            &&& increasing_within(definitions_binders_from(r.term, done.len()), n, r.next)
            &&& extends_names(globals, r.names, n, r.next)
            &&& forall|k: int|
                done.len() <= k < r.term.len() ==> all_resolved(
                    (#[trigger] r.term[k]).value,
                    globals,
                    n,
                    r.next,
                )
        },
    decreases ds.len() - i,
{
    if i < ds.len() {
        lemma_definition_numbered(ds[i as int], globals, n);
        match number_definition(ds[i as int], globals, n) {
            Ok(rd) => {
                let step = done.push(rd.term);
                lemma_definitions_numbered(ds, i + 1, step, rd.names, rd.next);
                match number_definitions_from(ds, i + 1, step, rd.names, rd.next) {
                    Ok(r) => {
                        assert forall|k: int| 0 <= k < done.len() implies #[trigger] r.term[k]
                            == done[k] by {
                            assert(step[k] == done[k]);
                        }
                        assert(r.term[done.len() as int] == step[done.len() as int]);
                        lemma_increasing_concat(
                            definition_binders(rd.term),
                            definitions_binders_from(r.term, step.len()),
                            n,
                            rd.next,
                            r.next,
                        );
                        lemma_extends_trans(globals, rd.names, r.names, n, rd.next, r.next);
                        lemma_extends_refl(globals, n, r.next);
                        lemma_extends_widen(globals, rd.names, n, rd.next, n, r.next);
                        assert forall|k: int| done.len() <= k < r.term.len() implies all_resolved(
                            (#[trigger] r.term[k]).value,
                            globals,
                            n,
                            r.next,
                        ) by {
                            if k == done.len() {
                                lemma_resolved_widen(
                                    rd.term.value,
                                    globals,
                                    n,
                                    rd.next,
                                    globals,
                                    n,
                                    r.next,
                                );
                            } else {
                                lemma_resolved_widen(
                                    r.term[k].value,
                                    rd.names,
                                    rd.next,
                                    r.next,
                                    globals,
                                    n,
                                    r.next,
                                );
                            }
                        }
                    },
                    Err(_) => {},
                }
            },
            Err(_) => {},
        }
    } else {
        lemma_extends_refl(globals, n, n);
        lemma_increasing_empty(n, n);
    }
}

/// What holds of every numbering of a module that succeeds.
proof fn lemma_module_numbered(m: ModuleView, globals: Map<Seq<char>, VariableId>, n: nat)
    ensures
        number_module(m, globals, n) matches Ok(r) ==> {
            &&& n <= r.next
            &&& increasing_within(module_binders(r.term), n, r.next)
            &&& forall|k: int|
                0 <= k < r.term.defs.len() ==> all_resolved(
                    (#[trigger] r.term.defs[k]).value,
                    globals,
                    n,
                    r.next,
                )
            &&& forall|k: int|
                0 <= k < r.term.exprs.len() ==> all_resolved(
                    #[trigger] r.term.exprs[k],
                    globals,
                    n,
                    r.next,
                )
        },
{
    match number_module(m, globals, n) {
        Ok(r) => {
            lemma_definitions_numbered(m.defs, 0, Seq::empty(), globals, n);
            let rd = number_definitions_from(m.defs, 0, Seq::empty(), globals, n)->Ok_0;
            lemma_exprs_numbered(m.exprs, 0, Seq::empty(), Map::empty(), rd.names, rd.next);
            let re = number_exprs_from(
                m.exprs,
                0,
                Seq::empty(),
                Map::empty(),
                rd.names,
                rd.next,
            )->Ok_0;
            lemma_increasing_concat(
                definitions_binders_from(rd.term, 0),
                exprs_binders_from(re.term, 0),
                n,
                rd.next,
                re.next,
            );
            lemma_extends_widen(globals, rd.names, n, rd.next, n, r.next);
            lemma_extends_refl(globals, n, r.next);
            assert forall|k: int| 0 <= k < r.term.defs.len() implies all_resolved(
                (#[trigger] r.term.defs[k]).value,
                globals,
                n,
                r.next,
            ) by {
                lemma_resolved_widen(rd.term[k].value, globals, n, rd.next, globals, n, r.next);
            }
            assert forall|k: int| 0 <= k < r.term.exprs.len() implies all_resolved(
                #[trigger] r.term.exprs[k],
                globals,
                n,
                r.next,
            ) by {
                lemma_all_resolved(re.term[k], rd.names, rd.next, re.next, globals, n, r.next);
            }
        },
        Err(_) => {},
    }
}

/// The numbering of a pattern fails only when the identifiers run out.
proof fn lemma_pattern_numbering_errors(p: PatternView, names: Map<Seq<char>, VariableId>, n: nat)
    ensures
        fails_only_by_exhaustion(number_pattern(p, names, n)),
    decreases p,
{
    match p {
        PatternView::As(a, _) => {
            lemma_pattern_numbering_errors(*a, names, n);
        },
        PatternView::Product(a, b) | PatternView::Cons(a, b) => {
            lemma_pattern_numbering_errors(*a, names, n);
            match number_pattern(*a, names, n) {
                Ok(ra) => {
                    lemma_pattern_numbering_errors(*b, ra.names, ra.next);
                },
                Err(_) => {},
            }
        },
        _ => {},
    }
}

/// The numbering of a list of patterns fails only when the identifiers run out.
proof fn lemma_patterns_numbering_errors(
    ps: Seq<PatternView>,
    i: nat,
    done: Seq<PatternView>,
    names: Map<Seq<char>, VariableId>,
    n: nat,
)
    ensures
        fails_only_by_exhaustion(number_patterns_from(ps, i, done, names, n)),
    decreases ps.len() - i,
{
    if i < ps.len() {
        lemma_pattern_numbering_errors(ps[i as int], names, n);
        match number_pattern(ps[i as int], names, n) {
            Ok(r) => {
                lemma_patterns_numbering_errors(ps, i + 1, done.push(r.term), r.names, r.next);
            },
            Err(_) => {},
        }
    }
}

/// The numbering of an expression fails only when the identifiers run out.
proof fn lemma_expr_numbering_errors(
    e: TExprView,
    locals: Map<Seq<char>, VariableId>,
    globals: Map<Seq<char>, VariableId>,
    n: nat,
)
    ensures
        fails_only_by_exhaustion(number_expr(e, locals, globals, n)),
    decreases e, 0nat,
{
    match e.v {
        ExprView::Sequence(es) => {
            lemma_exprs_numbering_errors(es, 0, Seq::empty(), locals, globals, n);
        },
        ExprView::Intrinsic(i) => {
            lemma_exprs_numbering_errors(i.args, 0, Seq::empty(), locals, globals, n);
        },
        ExprView::Infix(_, a, b)
        | ExprView::Application(a, b)
        | ExprView::Product(a, b)
        | ExprView::Cons(a, b) => {
            lemma_expr_numbering_errors(*a, locals, globals, n);
            match number_expr(*a, locals, globals, n) {
                Ok(ra) => {
                    lemma_expr_numbering_errors(*b, locals, ra.names, ra.next);
                },
                Err(_) => {},
            }
        },
        ExprView::Negate(a) => {
            lemma_expr_numbering_errors(*a, locals, globals, n);
        },
        ExprView::Function(ps, body) => {
            lemma_patterns_numbering_errors(ps, 0, Seq::empty(), locals, n);
            match number_patterns_from(ps, 0, Seq::empty(), locals, n) {
                Ok(rps) => {
                    lemma_expr_numbering_errors(*body, rps.names, globals, rps.next);
                },
                Err(_) => {},
            }
        },
        ExprView::LetBinding(p, a, body) => {
            lemma_expr_numbering_errors(*a, locals, globals, n);
            match number_expr(*a, locals, globals, n) {
                Ok(ra) => {
                    lemma_pattern_numbering_errors(p, locals, ra.next);
                    match number_pattern(p, locals, ra.next) {
                        Ok(rp) => {
                            lemma_expr_numbering_errors(*body, rp.names, ra.names, rp.next);
                        },
                        Err(_) => {},
                    }
                },
                Err(_) => {},
            }
        },
        ExprView::Match(s, bs) => {
            lemma_expr_numbering_errors(*s, locals, globals, n);
            match number_expr(*s, locals, globals, n) {
                Ok(rs) => {
                    lemma_branches_numbering_errors(bs, 0, Seq::empty(), locals, rs.names, rs.next);
                },
                Err(_) => {},
            }
        },
        _ => {},
    }
}

/// The numbering of a list of expressions fails only when the identifiers run
/// out.
proof fn lemma_exprs_numbering_errors(
    es: Seq<TExprView>,
    i: nat,
    done: Seq<TExprView>,
    locals: Map<Seq<char>, VariableId>,
    globals: Map<Seq<char>, VariableId>,
    n: nat,
)
    ensures
        fails_only_by_exhaustion(number_exprs_from(es, i, done, locals, globals, n)),
    decreases es, es.len() - i,
{
    if i < es.len() {
        lemma_expr_numbering_errors(es[i as int], locals, globals, n);
        match number_expr(es[i as int], locals, globals, n) {
            Ok(r) => {
                lemma_exprs_numbering_errors(es, i + 1, done.push(r.term), locals, r.names, r.next);
            },
            Err(_) => {},
        }
    }
}

/// The numbering of a list of branches fails only when the identifiers run out.
proof fn lemma_branches_numbering_errors(
    bs: Seq<(PatternView, TExprView)>,
    i: nat,
    done: Seq<(PatternView, TExprView)>,
    locals: Map<Seq<char>, VariableId>,
    globals: Map<Seq<char>, VariableId>,
    n: nat,
)
    ensures
        fails_only_by_exhaustion(number_branches_from(bs, i, done, locals, globals, n)),
    decreases bs, bs.len() - i,
{
    if i < bs.len() {
        lemma_pattern_numbering_errors(bs[i as int].0, locals, n);
        match number_pattern(bs[i as int].0, locals, n) {
            Ok(rp) => {
                lemma_expr_numbering_errors(bs[i as int].1, rp.names, globals, rp.next);
                match number_expr(bs[i as int].1, rp.names, globals, rp.next) {
                    Ok(rb) => {
                        lemma_branches_numbering_errors(
                            bs,
                            i + 1,
                            done.push((rp.term, rb.term)),
                            locals,
                            rb.names,
                            rb.next,
                        );
                    },
                    Err(_) => {},
                }
            },
            Err(_) => {},
        }
    }
}

/// The numbering of a list of definitions fails only when the identifiers run
/// out.
proof fn lemma_definitions_numbering_errors(
    ds: Seq<DefinitionView>,
    i: nat,
    done: Seq<DefinitionView>,
    globals: Map<Seq<char>, VariableId>,
    n: nat,
)
    ensures
        fails_only_by_exhaustion(number_definitions_from(ds, i, done, globals, n)),
    decreases ds.len() - i,
{
    if i < ds.len() {
        let d = ds[i as int];
        lemma_expr_numbering_errors(d.value, Map::empty(), globals, n);
        match number_expr(d.value, Map::empty(), globals, n) {
            Ok(rv) => {
                lemma_pattern_numbering_errors(d.pattern, rv.names, rv.next);
            },
            Err(_) => {},
        }
        match number_definition(d, globals, n) {
            Ok(r) => {
                lemma_definitions_numbering_errors(ds, i + 1, done.push(r.term), r.names, r.next);
            },
            Err(_) => {},
        }
    }
}

/// Numbering never fails on account of the module: the only error that it
/// can end in is that the identifiers ran out.
pub proof fn lemma_numbering_fails_only_by_exhaustion(
    m: ModuleView,
    globals: Map<Seq<char>, VariableId>,
    n: nat,
)
    ensures
        fails_only_by_exhaustion(number_module(m, globals, n)),
{
    lemma_definitions_numbering_errors(m.defs, 0, Seq::empty(), globals, n);
    match number_definitions_from(m.defs, 0, Seq::empty(), globals, n) {
        Ok(rd) => {
            lemma_exprs_numbering_errors(m.exprs, 0, Seq::empty(), Map::empty(), rd.names, rd.next);
        },
        Err(_) => {},
    }
}

/// Numbering gives every binder an identifier of its own, and every
/// reference one that can be traced. After a module has been numbered, take
/// the identifiers of its named binders, occurrence by occurrence. Each was
/// issued by this numbering, and no two are the same. And every named
/// reference, in a definition or in an expression, has an identifier that
/// this numbering issued or that the global name map knew before.
pub proof fn lemma_numbering_is_unique(m: ModuleView, globals: Map<Seq<char>, VariableId>, n: nat)
    ensures
        number_module(m, globals, n) matches Ok(r) ==> {
            &&& forall|i: int|
                0 <= i < module_binders(r.term).len() ==> issued(
                    n,
                    r.next,
                    #[trigger] module_binders(r.term)[i],
                )
            &&& forall|i: int, j: int|
                0 <= i < j < module_binders(r.term).len() ==> #[trigger] module_binders(r.term)[i]
                    != #[trigger] module_binders(r.term)[j]
            &&& forall|k: int, id: VariableId|
                0 <= k < r.term.defs.len() && #[trigger] refers(r.term.defs[k].value, id)
                    ==> issued_or_global(globals, n, r.next, id)
            &&& forall|k: int, id: VariableId|
                0 <= k < r.term.exprs.len() && #[trigger] refers(r.term.exprs[k], id)
                    ==> issued_or_global(globals, n, r.next, id)
        },
{
    lemma_module_numbered(m, globals, n);
    reveal(increasing_within);
    reveal(all_resolved);
    match number_module(m, globals, n) {
        Ok(r) => {
            assert forall|k: int, id: VariableId|
                0 <= k < r.term.defs.len() && #[trigger] refers(
                    r.term.defs[k].value,
                    id,
                ) implies issued_or_global(globals, n, r.next, id) by {
                assert(all_resolved(r.term.defs[k].value, globals, n, r.next));
            }
            assert forall|k: int, id: VariableId|
                0 <= k < r.term.exprs.len() && #[trigger] refers(
                    r.term.exprs[k],
                    id,
                ) implies issued_or_global(globals, n, r.next, id) by {
                assert(all_resolved(r.term.exprs[k], globals, n, r.next));
            }
        },
        Err(_) => {},
    }
}

} // verus!
