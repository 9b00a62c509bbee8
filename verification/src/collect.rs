//! The collection of the variables that occur in a term.

use vstd::prelude::*;
use std::collections::HashMap;
use crate::ast::{
    Definition, DefinitionView, Expr, ExprView, Module, ModuleView, Pattern, PatternView, TExpr,
    TExprView, Variable, VariableId, VariableView, branches_view, patterns_view, texprs_view,
};

verus! {

broadcast use vstd::std_specs::hash::group_hash_axioms;

/// The model of a collection of variables: each identifier with the model of
/// the variable that was entered under it last.
pub open spec fn variables_view(m: Map<VariableId, Variable>) -> Map<VariableId, VariableView> {
    Map::new(|k: VariableId| m.contains_key(k), |k: VariableId| m[k]@)
}

/// `m` with every variable that occurs in the pattern entered under its
/// identifier: an alias before the pattern that it names, left before right.
pub open spec fn pattern_variables(p: PatternView, m: Map<VariableId, VariableView>) -> Map<
    VariableId,
    VariableView,
>
    decreases p,
{
    match p {
        PatternView::Variable(v) => m.insert(v.id, v),
        PatternView::As(a, v) => pattern_variables(*a, m.insert(v.id, v)),
        PatternView::Product(a, b) | PatternView::Cons(a, b) => pattern_variables(
            *b,
            pattern_variables(*a, m),
        ),
        PatternView::Constant(_) | PatternView::Unit | PatternView::Nil => m,
    }
}

/// `m` with the variables of the patterns `ps[i..]` entered, in order.
pub open spec fn patterns_variables_from(
    ps: Seq<PatternView>,
    i: nat,
    m: Map<VariableId, VariableView>,
) -> Map<VariableId, VariableView>
    decreases ps.len() - i,
{
    if i >= ps.len() {
        m
    } else {
        patterns_variables_from(ps, i + 1, pattern_variables(ps[i as int], m))
    }
}

/// `m` with every variable that occurs in the expression entered under its
/// identifier, in the order of the text: the bound expression of a
/// let-binding comes before its pattern, and a parameter before the body.
pub open spec fn expr_variables(e: TExprView, m: Map<VariableId, VariableView>) -> Map<
    VariableId,
    VariableView,
>
    decreases e, 0nat,
{
    match e.v {
        ExprView::Variable(v) => m.insert(v.id, v),
        ExprView::Sequence(es) => exprs_variables_from(es, 0, m),
        ExprView::Intrinsic(i) => exprs_variables_from(i.args, 0, m),
        ExprView::Infix(_, a, b)
        | ExprView::Application(a, b)
        | ExprView::Product(a, b)
        | ExprView::Cons(a, b) => expr_variables(*b, expr_variables(*a, m)),
        ExprView::Negate(a) => expr_variables(*a, m),
        ExprView::Function(ps, body) => expr_variables(*body, patterns_variables_from(ps, 0, m)),
        ExprView::LetBinding(p, a, body) => expr_variables(
            *body,
            pattern_variables(p, expr_variables(*a, m)),
        ),
        ExprView::Match(s, bs) => branches_variables_from(bs, 0, expr_variables(*s, m)),
        ExprView::Constant(_) | ExprView::Unit | ExprView::Nil => m,
    }
}

/// `m` with the variables of the expressions `es[i..]` entered, in order.
pub open spec fn exprs_variables_from(
    es: Seq<TExprView>,
    i: nat,
    m: Map<VariableId, VariableView>,
) -> Map<VariableId, VariableView>
    decreases es, es.len() - i,
{
    if i >= es.len() {
        m
    } else {
        exprs_variables_from(es, i + 1, expr_variables(es[i as int], m))
    }
}

/// `m` with the variables of the branches `bs[i..]` entered: those of each
/// pattern before those of its body.
pub open spec fn branches_variables_from(
    bs: Seq<(PatternView, TExprView)>,
    i: nat,
    m: Map<VariableId, VariableView>,
) -> Map<VariableId, VariableView>
    decreases bs, bs.len() - i,
{
    if i >= bs.len() {
        m
    } else {
        branches_variables_from(
            bs,
            i + 1,
            expr_variables(bs[i as int].1, pattern_variables(bs[i as int].0, m)),
        )
    }
}

/// `m` with the variables of the definition: those of its expression, then
/// those of its pattern.
pub open spec fn definition_variables(d: DefinitionView, m: Map<VariableId, VariableView>) -> Map<
    VariableId,
    VariableView,
> {
    pattern_variables(d.pattern, expr_variables(d.value, m))
}

/// `m` with the variables of the definitions `ds[i..]` entered, in order.
pub open spec fn definitions_variables_from(
    ds: Seq<DefinitionView>,
    i: nat,
    m: Map<VariableId, VariableView>,
) -> Map<VariableId, VariableView>
    decreases ds.len() - i,
{
    if i >= ds.len() {
        m
    } else {
        definitions_variables_from(ds, i + 1, definition_variables(ds[i as int], m))
    }
}

/// `m` with the variables of the module: those of its definitions, then those
/// of its expressions.
pub open spec fn module_variables(md: ModuleView, m: Map<VariableId, VariableView>) -> Map<
    VariableId,
    VariableView,
> {
    exprs_variables_from(md.exprs, 0, definitions_variables_from(md.defs, 0, m))
}

/// The identifiers of the variables that occur in the pattern.
pub open spec fn pattern_ids(p: PatternView) -> Set<VariableId> {
    pattern_variables(p, Map::empty()).dom()
}

/// The identifiers of the variables that occur in the expression.
pub open spec fn expr_ids(e: TExprView) -> Set<VariableId> {
    expr_variables(e, Map::empty()).dom()
}

/// Collecting the variables of a pattern into a collection adds the
/// identifiers of the pattern to those of the collection.
pub proof fn lemma_pattern_variables_dom(p: PatternView, m: Map<VariableId, VariableView>)
    ensures
        pattern_variables(p, m).dom() == m.dom().union(pattern_ids(p)),
    decreases p,
{
    let empty = Map::<VariableId, VariableView>::empty();
    match p {
        PatternView::Variable(v) => {
            assert(m.insert(v.id, v).dom() =~= m.dom().union(empty.insert(v.id, v).dom()));
        },
        PatternView::As(a, v) => {
            lemma_pattern_variables_dom(*a, m.insert(v.id, v));
            lemma_pattern_variables_dom(*a, empty.insert(v.id, v));
            assert(pattern_variables(p, m).dom() =~= m.dom().union(pattern_ids(p)));
        },
        PatternView::Product(a, b) | PatternView::Cons(a, b) => {
            lemma_pattern_variables_dom(*a, m);
            lemma_pattern_variables_dom(*b, pattern_variables(*a, m));
            lemma_pattern_variables_dom(*b, pattern_variables(*a, empty));
            assert(pattern_variables(p, m).dom() =~= m.dom().union(pattern_ids(p)));
        },
        _ => {
            assert(m.dom() =~= m.dom().union(empty.dom()));
        },
    }
}

/// Collecting the variables of a list of patterns adds their identifiers.
proof fn lemma_patterns_variables_dom(
    ps: Seq<PatternView>,
    i: nat,
    m: Map<VariableId, VariableView>,
)
    ensures
        patterns_variables_from(ps, i, m).dom() == m.dom().union(
            patterns_variables_from(ps, i, Map::empty()).dom(),
        ),
    decreases ps.len() - i,
{
    let empty = Map::<VariableId, VariableView>::empty();
    if i >= ps.len() {
        assert(m.dom() =~= m.dom().union(empty.dom()));
    } else {
        lemma_pattern_variables_dom(ps[i as int], m);
        lemma_patterns_variables_dom(ps, i + 1, pattern_variables(ps[i as int], m));
        lemma_patterns_variables_dom(ps, i + 1, pattern_variables(ps[i as int], empty));
        assert(patterns_variables_from(ps, i, m).dom() =~= m.dom().union(
            patterns_variables_from(ps, i, empty).dom(),
        ));
    }
}

/// Collecting the variables of an expression into a collection adds the
/// identifiers of the expression to those of the collection.
pub proof fn lemma_expr_variables_dom(e: TExprView, m: Map<VariableId, VariableView>)
    ensures
        expr_variables(e, m).dom() == m.dom().union(expr_ids(e)),
    decreases e, 0nat,
{
    let empty = Map::<VariableId, VariableView>::empty();
    match e.v {
        ExprView::Variable(v) => {
            assert(m.insert(v.id, v).dom() =~= m.dom().union(empty.insert(v.id, v).dom()));
        },
        ExprView::Sequence(es) => {
            lemma_exprs_variables_dom(es, 0, m);
        },
        ExprView::Intrinsic(i) => {
            lemma_exprs_variables_dom(i.args, 0, m);
        },
        ExprView::Infix(_, a, b)
        | ExprView::Application(a, b)
        | ExprView::Product(a, b)
        | ExprView::Cons(a, b) => {
            lemma_expr_variables_dom(*a, m);
            lemma_expr_variables_dom(*b, expr_variables(*a, m));
            lemma_expr_variables_dom(*b, expr_variables(*a, empty));
            assert(expr_variables(e, m).dom() =~= m.dom().union(expr_ids(e)));
        },
        ExprView::Negate(a) => {
            lemma_expr_variables_dom(*a, m);
        },
        ExprView::Function(ps, body) => {
            lemma_patterns_variables_dom(ps, 0, m);
            lemma_expr_variables_dom(*body, patterns_variables_from(ps, 0, m));
            lemma_expr_variables_dom(*body, patterns_variables_from(ps, 0, empty));
            assert(expr_variables(e, m).dom() =~= m.dom().union(expr_ids(e)));
        },
        ExprView::LetBinding(p, a, body) => {
            lemma_expr_variables_dom(*a, m);
            lemma_pattern_variables_dom(p, expr_variables(*a, m));
            lemma_pattern_variables_dom(p, expr_variables(*a, empty));
            lemma_expr_variables_dom(*body, pattern_variables(p, expr_variables(*a, m)));
            lemma_expr_variables_dom(*body, pattern_variables(p, expr_variables(*a, empty)));
            assert(expr_variables(e, m).dom() =~= m.dom().union(expr_ids(e)));
        },
        ExprView::Match(s, bs) => {
            lemma_expr_variables_dom(*s, m);
            lemma_branches_variables_dom(bs, 0, expr_variables(*s, m));
            lemma_branches_variables_dom(bs, 0, expr_variables(*s, empty));
            assert(expr_variables(e, m).dom() =~= m.dom().union(expr_ids(e)));
        },
        _ => {
            assert(m.dom() =~= m.dom().union(empty.dom()));
        },
    }
}

/// Collecting the variables of a list of expressions into a collection adds
/// the identifiers of the list to those of the collection.
pub proof fn lemma_exprs_variables_dom(
    es: Seq<TExprView>,
    i: nat,
    m: Map<VariableId, VariableView>,
)
    ensures
        exprs_variables_from(es, i, m).dom() == m.dom().union(
            exprs_variables_from(es, i, Map::empty()).dom(),
        ),
    decreases es, es.len() - i,
{
    let empty = Map::<VariableId, VariableView>::empty();
    if i >= es.len() {
        assert(m.dom() =~= m.dom().union(empty.dom()));
    } else {
        lemma_expr_variables_dom(es[i as int], m);
        lemma_exprs_variables_dom(es, i + 1, expr_variables(es[i as int], m));
        lemma_exprs_variables_dom(es, i + 1, expr_variables(es[i as int], empty));
        assert(exprs_variables_from(es, i, m).dom() =~= m.dom().union(
            exprs_variables_from(es, i, empty).dom(),
        ));
    }
}

/// Collecting the variables of a list of branches adds their identifiers.
proof fn lemma_branches_variables_dom(
    bs: Seq<(PatternView, TExprView)>,
    i: nat,
    m: Map<VariableId, VariableView>,
)
    ensures
        branches_variables_from(bs, i, m).dom() == m.dom().union(
            branches_variables_from(bs, i, Map::empty()).dom(),
        ),
    decreases bs, bs.len() - i,
{
    let empty = Map::<VariableId, VariableView>::empty();
    if i >= bs.len() {
        assert(m.dom() =~= m.dom().union(empty.dom()));
    } else {
        let p = bs[i as int].0;
        let e = bs[i as int].1;
        lemma_pattern_variables_dom(p, m);
        lemma_expr_variables_dom(e, pattern_variables(p, m));
        lemma_expr_variables_dom(e, pattern_variables(p, empty));
        lemma_branches_variables_dom(bs, i + 1, expr_variables(e, pattern_variables(p, m)));
        lemma_branches_variables_dom(bs, i + 1, expr_variables(e, pattern_variables(p, empty)));
        assert(branches_variables_from(bs, i, m).dom() =~= m.dom().union(
            branches_variables_from(bs, i, empty).dom(),
        ));
    }
}

/// Enters the variable under its identifier.
fn enter(map: &mut HashMap<VariableId, Variable>, var: &Variable)
    ensures
        variables_view(final(map)@) == variables_view(old(map)@).insert(var.id, var@),
{
    map.insert(var.id, var.clone());
    assert(variables_view(map@) =~= variables_view(old(map)@).insert(var.id, var@));
}

/// Collects all the variables that occur in the given pattern.
pub fn collect_pattern_variables(pat: &Pattern, map: &mut HashMap<VariableId, Variable>)
    ensures
        variables_view(final(map)@) == pattern_variables(pat@, variables_view(old(map)@)),
    decreases pat,
{
    match pat {
        Pattern::Variable(var) => {
            enter(map, var);
        },
        Pattern::As(a, var) => {
            enter(map, var);
            collect_pattern_variables(a, map);
        },
        Pattern::Product(a, b) | Pattern::Cons(a, b) => {
            collect_pattern_variables(a, map);
            collect_pattern_variables(b, map);
        },
        Pattern::Constant(_) | Pattern::Unit | Pattern::Nil => {},
    }
}

/// Collects all the variables that occur in the given patterns.
fn collect_patterns_variables(ps: &Vec<Pattern>, map: &mut HashMap<VariableId, Variable>)
    ensures
        variables_view(final(map)@) == patterns_variables_from(
            patterns_view(ps@),
            0,
            variables_view(old(map)@),
        ),
{
    let mut i: usize = 0;
    while i < ps.len()
        invariant
            i <= ps.len(),
            patterns_variables_from(patterns_view(ps@), 0, variables_view(old(map)@))
                == patterns_variables_from(patterns_view(ps@), i as nat, variables_view(map@)),
        decreases ps.len() - i,
    {
        collect_pattern_variables(&ps[i], map);
        i += 1;
    }
}

/// Collects all the variables that occur in the given expression.
pub fn collect_expr_variables(expr: &TExpr, map: &mut HashMap<VariableId, Variable>)
    ensures
        variables_view(final(map)@) == expr_variables(expr@, variables_view(old(map)@)),
    decreases expr, 0nat,
{
    match &expr.v {
        Expr::Variable(var) => {
            enter(map, var);
        },
        Expr::Sequence(es) => {
            collect_exprs_variables(es, map);
        },
        Expr::Intrinsic(i) => {
            collect_exprs_variables(&i.args, map);
        },
        Expr::Infix(_, a, b) | Expr::Application(a, b) | Expr::Product(a, b) | Expr::Cons(a, b) => {
            collect_expr_variables(a, map);
            collect_expr_variables(b, map);
        },
        Expr::Negate(a) => {
            collect_expr_variables(a, map);
        },
        Expr::Function(f) => {
            collect_patterns_variables(&f.0, map);
            collect_expr_variables(&f.1, map);
        },
        Expr::LetBinding(b, body) => {
            collect_expr_variables(&b.1, map);
            collect_pattern_variables(&b.0, map);
            collect_expr_variables(body, map);
        },
        Expr::Match(m) => {
            collect_expr_variables(&m.0, map);
            collect_branches_variables(&m.1, map);
        },
        Expr::Constant(_) | Expr::Unit | Expr::Nil => {},
    }
}

/// Collects all the variables that occur in the given expressions.
fn collect_exprs_variables(es: &Vec<TExpr>, map: &mut HashMap<VariableId, Variable>)
    ensures
        variables_view(final(map)@) == exprs_variables_from(
            texprs_view(es@),
            0,
            variables_view(old(map)@),
        ),
    decreases es, 0nat,
{
    let mut i: usize = 0;
    while i < es.len()
        invariant
            i <= es.len(),
            exprs_variables_from(texprs_view(es@), 0, variables_view(old(map)@))
                == exprs_variables_from(texprs_view(es@), i as nat, variables_view(map@)),
        decreases es.len() - i,
    {
        collect_expr_variables(&es[i], map);
        i += 1;
    }
}

/// Collects all the variables that occur in the given branches.
fn collect_branches_variables(bs: &Vec<(Pattern, TExpr)>, map: &mut HashMap<VariableId, Variable>)
    ensures
        variables_view(final(map)@) == branches_variables_from(
            branches_view(bs@),
            0,
            variables_view(old(map)@),
        ),
    decreases bs, 0nat,
{
    let mut i: usize = 0;
    while i < bs.len()
        invariant
            i <= bs.len(),
            branches_variables_from(branches_view(bs@), 0, variables_view(old(map)@))
                == branches_variables_from(branches_view(bs@), i as nat, variables_view(map@)),
        decreases bs.len() - i,
    {
        collect_pattern_variables(&bs[i].0, map);
        collect_expr_variables(&bs[i].1, map);
        i += 1;
    }
}

/// Collects all the variables that occur in the given definition.
pub fn collect_def_variables(def: &Definition, map: &mut HashMap<VariableId, Variable>)
    ensures
        variables_view(final(map)@) == definition_variables(def@, variables_view(old(map)@)),
{
    collect_expr_variables(&def.0.1, map);
    collect_pattern_variables(&def.0.0, map);
}

/// Collects all the variables that occur in the given module.
pub fn collect_module_variables(module: &Module, map: &mut HashMap<VariableId, Variable>)
    ensures
        variables_view(final(map)@) == module_variables(module@, variables_view(old(map)@)),
{
    let mut i: usize = 0;
    while i < module.defs.len()
        invariant
            i <= module.defs.len(),
            definitions_variables_from(module@.defs, 0, variables_view(old(map)@))
                == definitions_variables_from(module@.defs, i as nat, variables_view(map@)),
        decreases module.defs.len() - i,
    {
        collect_def_variables(&module.defs[i], map);
        i += 1;
    }
    collect_exprs_variables(&module.exprs, map);
}

} // verus!
