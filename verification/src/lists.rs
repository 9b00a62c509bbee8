//! The lowering of lists to tuples: once inlining has fixed every shape, the
//! empty list is unit and a list cell is a pair.

use vstd::prelude::*;
use crate::ast::{
    Definition, DefinitionView, Expr, ExprView, Function, Intrinsic, IntrinsicView, LetBinding,
    Match, Module, ModuleView, Pattern, PatternView, TExpr, TExprView, branches_view,
    clone_opt_type, clone_texpr, clone_type, definitions_view, patterns_view, texprs_view, untyped,
};

verus! {

/// The pattern with the empty list replaced by unit and every list cell by a
/// pair.
pub open spec fn tuple_pattern(p: PatternView) -> PatternView
    decreases p,
{
    match p {
        PatternView::Nil => PatternView::Unit,
        PatternView::As(a, v) => PatternView::As(Box::new(tuple_pattern(*a)), v),
        PatternView::Cons(a, b) | PatternView::Product(a, b) => PatternView::Product(
            Box::new(tuple_pattern(*a)),
            Box::new(tuple_pattern(*b)),
        ),
        PatternView::Constant(_) | PatternView::Unit | PatternView::Variable(_) => p,
    }
}

/// The patterns with their lists lowered.
pub open spec fn tuple_patterns(ps: Seq<PatternView>) -> Seq<PatternView> {
    Seq::new(ps.len(), |i: int| tuple_pattern(ps[i]))
}

/// The expression with the empty list replaced by unit and every list cell by
/// a pair, in its patterns too. What replaces a list constructor has no type;
/// everything else keeps its type.
pub open spec fn tuple_expr(e: TExprView) -> TExprView
    decreases e,
{
    match e.v {
        ExprView::Nil => untyped(ExprView::Unit),
        ExprView::Cons(a, b) => untyped(
            ExprView::Product(Box::new(tuple_expr(*a)), Box::new(tuple_expr(*b))),
        ),
        ExprView::Sequence(es) => TExprView { v: ExprView::Sequence(tuple_exprs(es)), t: e.t },
        ExprView::Intrinsic(i) => TExprView {
            v: ExprView::Intrinsic(
                IntrinsicView {
                    arity: i.arity,
                    imp_typ: i.imp_typ,
                    imp: i.imp,
                    args: tuple_exprs(i.args),
                },
            ),
            t: e.t,
        },
        ExprView::Infix(op, a, b) => TExprView {
            v: ExprView::Infix(op, Box::new(tuple_expr(*a)), Box::new(tuple_expr(*b))),
            t: e.t,
        },
        ExprView::Application(a, b) => TExprView {
            v: ExprView::Application(Box::new(tuple_expr(*a)), Box::new(tuple_expr(*b))),
            t: e.t,
        },
        ExprView::Product(a, b) => TExprView {
            v: ExprView::Product(Box::new(tuple_expr(*a)), Box::new(tuple_expr(*b))),
            t: e.t,
        },
        ExprView::Negate(a) => TExprView { v: ExprView::Negate(Box::new(tuple_expr(*a))), t: e.t },
        ExprView::Function(ps, body) => TExprView {
            v: ExprView::Function(tuple_patterns(ps), Box::new(tuple_expr(*body))),
            t: e.t,
        },
        ExprView::LetBinding(p, a, body) => TExprView {
            v: ExprView::LetBinding(
                tuple_pattern(p),
                Box::new(tuple_expr(*a)),
                Box::new(tuple_expr(*body)),
            ),
            t: e.t,
        },
        ExprView::Match(s, bs) => TExprView {
            v: ExprView::Match(Box::new(tuple_expr(*s)), tuple_branches(bs)),
            t: e.t,
        },
        ExprView::Constant(_) | ExprView::Unit | ExprView::Variable(_) => e,
    }
}

/// The expressions with their lists lowered.
pub open spec fn tuple_exprs(es: Seq<TExprView>) -> Seq<TExprView>
    decreases es,
{
    Seq::new(
        es.len(),
        |i: int|
            if 0 <= i < es.len() {
                tuple_expr(es[i])
            } else {
                arbitrary()
            },
    )
}

/// The branches with their lists lowered, in the patterns and in the bodies.
pub open spec fn tuple_branches(bs: Seq<(PatternView, TExprView)>) -> Seq<(PatternView, TExprView)>
    decreases bs,
{
    Seq::new(
        bs.len(),
        |i: int|
            if 0 <= i < bs.len() {
                (tuple_pattern(bs[i].0), tuple_expr(bs[i].1))
            } else {
                arbitrary()
            },
    )
}

/// The definition with its pattern and its expression lowered.
pub open spec fn tuple_definition(d: DefinitionView) -> DefinitionView {
    DefinitionView { pattern: tuple_pattern(d.pattern), value: tuple_expr(d.value) }
}

/// The module with every definition and every expression lowered.
pub open spec fn tuple_module(m: ModuleView) -> ModuleView {
    ModuleView {
        defs: Seq::new(m.defs.len(), |i: int| tuple_definition(m.defs[i])),
        exprs: tuple_exprs(m.exprs),
    }
}

/// Converts each list in the given pattern into a tuple.
pub fn pattern_lists_to_tuples(pat: &mut Pattern)
    ensures
        final(pat)@ == tuple_pattern(old(pat)@),
{
    let lowered = lower_pattern(pat);
    *pat = lowered;
}

/// The pattern with every list in it turned into a tuple.
fn lower_pattern(pat: &Pattern) -> (r: Pattern)
    ensures
        r@ == tuple_pattern(pat@),
    decreases pat,
{
    match pat {
        Pattern::Nil => Pattern::Unit,
        Pattern::As(a, v) => Pattern::As(Box::new(lower_pattern(a)), v.clone()),
        Pattern::Cons(a, b) => Pattern::Product(
            Box::new(lower_pattern(a)),
            Box::new(lower_pattern(b)),
        ),
        Pattern::Product(a, b) => Pattern::Product(
            Box::new(lower_pattern(a)),
            Box::new(lower_pattern(b)),
        ),
        Pattern::Constant(c) => Pattern::Constant(*c),
        Pattern::Unit => Pattern::Unit,
        Pattern::Variable(v) => Pattern::Variable(v.clone()),
    }
}

/// The patterns with every list in them turned into a tuple.
fn lower_patterns(ps: &Vec<Pattern>) -> (r: Vec<Pattern>)
    ensures
        patterns_view(r@) == tuple_patterns(patterns_view(ps@)),
{
    let mut out: Vec<Pattern> = Vec::new();
    let mut i: usize = 0;
    while i < ps.len()
        invariant
            i <= ps.len(),
            out.len() == i,
            forall|j: int| 0 <= j < i ==> (#[trigger] out[j])@ == tuple_pattern(ps[j]@),
        decreases ps.len() - i,
    {
        out.push(lower_pattern(&ps[i]));
        i += 1;
    }
    assert(patterns_view(out@) =~= tuple_patterns(patterns_view(ps@)));
    out
}

/// Converts each list in the given expression into a tuple.
pub fn expr_lists_to_tuples(expr: &mut TExpr)
    ensures
        final(expr)@ == tuple_expr(old(expr)@),
{
    let lowered = lower_expr(expr);
    *expr = lowered;
}

/// The expression with every list in it turned into a tuple.
fn lower_expr(expr: &TExpr) -> (r: TExpr)
    ensures
        r@ == tuple_expr(expr@),
    decreases expr, 0nat,
{
    match &expr.v {
        Expr::Nil => TExpr::untyped(Expr::Unit),
        Expr::Cons(a, b) => TExpr::untyped(
            Expr::Product(Box::new(lower_expr(a)), Box::new(lower_expr(b))),
        ),
        Expr::Sequence(es) => TExpr {
            v: Expr::Sequence(lower_exprs(es)),
            t: clone_opt_type(&expr.t),
        },
        Expr::Intrinsic(i) => TExpr {
            v: Expr::Intrinsic(
                Intrinsic {
                    arity: i.arity,
                    imp_typ: clone_type(&i.imp_typ),
                    imp: i.imp,
                    args: lower_exprs(&i.args),
                },
            ),
            t: clone_opt_type(&expr.t),
        },
        Expr::Infix(op, a, b) => TExpr {
            v: Expr::Infix(*op, Box::new(lower_expr(a)), Box::new(lower_expr(b))),
            t: clone_opt_type(&expr.t),
        },
        Expr::Application(a, b) => TExpr {
            v: Expr::Application(Box::new(lower_expr(a)), Box::new(lower_expr(b))),
            t: clone_opt_type(&expr.t),
        },
        Expr::Product(a, b) => TExpr {
            v: Expr::Product(Box::new(lower_expr(a)), Box::new(lower_expr(b))),
            t: clone_opt_type(&expr.t),
        },
        Expr::Negate(a) => TExpr {
            v: Expr::Negate(Box::new(lower_expr(a))),
            t: clone_opt_type(&expr.t),
        },
        Expr::Function(f) => TExpr {
            v: Expr::Function(Function(lower_patterns(&f.0), Box::new(lower_expr(&f.1)))),
            t: clone_opt_type(&expr.t),
        },
        Expr::LetBinding(b, body) => TExpr {
            v: Expr::LetBinding(
                LetBinding(lower_pattern(&b.0), Box::new(lower_expr(&b.1))),
                Box::new(lower_expr(body)),
            ),
            t: clone_opt_type(&expr.t),
        },
        Expr::Match(m) => TExpr {
            v: Expr::Match(Match(Box::new(lower_expr(&m.0)), lower_branches(&m.1))),
            t: clone_opt_type(&expr.t),
        },
        Expr::Constant(_) | Expr::Unit | Expr::Variable(_) => clone_texpr(expr),
    }
}

/// The expressions with every list in them turned into a tuple.
fn lower_exprs(es: &Vec<TExpr>) -> (r: Vec<TExpr>)
    ensures
        texprs_view(r@) == tuple_exprs(texprs_view(es@)),
    decreases es, 0nat,
{
    let mut out: Vec<TExpr> = Vec::new();
    let mut i: usize = 0;
    while i < es.len()
        invariant
            i <= es.len(),
            out.len() == i,
            forall|j: int| 0 <= j < i ==> (#[trigger] out[j])@ == tuple_expr(es[j]@),
        decreases es.len() - i,
    {
        out.push(lower_expr(&es[i]));
        i += 1;
    }
    assert(texprs_view(out@) =~= tuple_exprs(texprs_view(es@)));
    out
}

/// The branches with every list in them turned into a tuple.
fn lower_branches(bs: &Vec<(Pattern, TExpr)>) -> (r: Vec<(Pattern, TExpr)>)
    ensures
        branches_view(r@) == tuple_branches(branches_view(bs@)),
    decreases bs, 0nat,
{
    let mut out: Vec<(Pattern, TExpr)> = Vec::new();
    let mut i: usize = 0;
    while i < bs.len()
        invariant
            i <= bs.len(),
            out.len() == i,
            forall|j: int|
                0 <= j < i ==> (#[trigger] out[j]).0@ == tuple_pattern(bs[j].0@) && out[j].1@
                    == tuple_expr(bs[j].1@),
        decreases bs.len() - i,
    {
        out.push((lower_pattern(&bs[i].0), lower_expr(&bs[i].1)));
        i += 1;
    }
    assert(branches_view(out@) =~= tuple_branches(branches_view(bs@)));
    out
}

/// Converts each list in the given definition into a tuple.
pub fn definition_lists_to_tuples(def: &mut Definition)
    ensures
        final(def)@ == tuple_definition(old(def)@),
{
    let lowered = Definition(LetBinding(lower_pattern(&def.0.0), Box::new(lower_expr(&def.0.1))));
    *def = lowered;
}

/// Converts each list in the given module into a tuple. After inlining this
/// lets the shape of every list be inferred as the shape of a tuple.
pub fn module_lists_to_tuples(module: &mut Module)
    ensures
        final(module)@ == tuple_module(old(module)@),
{
    let mut defs: Vec<Definition> = Vec::new();
    let mut i: usize = 0;
    while i < module.defs.len()
        invariant
            i <= module.defs.len(),
            defs.len() == i,
            *module == *old(module),
            forall|j: int|
                0 <= j < i ==> (#[trigger] defs[j])@ == tuple_definition(module.defs[j]@),
        decreases module.defs.len() - i,
    {
        let def = &module.defs[i];
        defs.push(Definition(LetBinding(lower_pattern(&def.0.0), Box::new(lower_expr(&def.0.1)))));
        i += 1;
    }
    let exprs = lower_exprs(&module.exprs);
    assert(definitions_view(defs@) =~= tuple_module(module@).defs);
    module.defs = defs;
    module.exprs = exprs;
}

} // verus!
