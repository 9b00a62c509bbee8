//! Variable numbering: every named variable of a module gets the identifier
//! of the binding that its name resolves to.

use vstd::prelude::*;
use crate::ast::{
    Definition, DefinitionView, Expr, ExprView, Function, Intrinsic, IntrinsicView, LetBinding,
    Match, Module, ModuleView, Pattern, PatternView, TExpr, TExprView, Variable, VariableId,
    VariableView, branches_view, clone_opt_type, clone_texpr, clone_type, definitions_view,
    patterns_view, texprs_view,
};
use crate::env::{push_branch, push_pattern, push_texpr};
use crate::error::{CompileError, ErrorView, result_view};
use crate::names::NameMap;
use crate::vargen::{VarGen, mint};

verus! {

/// A numbered term with the state that numbering it leaves: the name map that
/// it extends and the position of the identifier generator.
pub struct Numbered<T> {
    pub term: T,
    pub names: Map<Seq<char>, VariableId>,
    pub next: nat,
}

/// The binder `v` numbered: a named binder gets a fresh identifier, under
/// which its name is entered in the map; a nameless one stays as it is.
pub open spec fn number_binder(
    v: VariableView,
    names: Map<Seq<char>, VariableId>,
    next: nat,
) -> Result<Numbered<VariableView>, ErrorView> {
    match v.name {
        Some(name) => match mint(next) {
            Ok((id, next1)) => Ok(
                Numbered {
                    term: VariableView { name: v.name, id },
                    names: names.insert(name, id),
                    next: next1,
                },
            ),
            Err(x) => Err(x),
        },
        None => Ok(Numbered { term: v, names, next }),
    }
}

/// The pattern `p` with every named variable that it binds numbered, inner
/// patterns before the alias that names them, left before right.
pub open spec fn number_pattern(
    p: PatternView,
    names: Map<Seq<char>, VariableId>,
    next: nat,
) -> Result<Numbered<PatternView>, ErrorView>
    decreases p,
{
    match p {
        PatternView::As(a, v) => match number_pattern(*a, names, next) {
            Ok(ra) => match number_binder(v, ra.names, ra.next) {
                Ok(rv) => Ok(
                    Numbered {
                        term: PatternView::As(Box::new(ra.term), rv.term),
                        names: rv.names,
                        next: rv.next,
                    },
                ),
                Err(x) => Err(x),
            },
            Err(x) => Err(x),
        },
        PatternView::Product(a, b) => match number_pattern(*a, names, next) {
            Ok(ra) => match number_pattern(*b, ra.names, ra.next) {
                Ok(rb) => Ok(
                    Numbered {
                        term: PatternView::Product(Box::new(ra.term), Box::new(rb.term)),
                        names: rb.names,
                        next: rb.next,
                    },
                ),
                Err(x) => Err(x),
            },
            Err(x) => Err(x),
        },
        PatternView::Cons(a, b) => match number_pattern(*a, names, next) {
            Ok(ra) => match number_pattern(*b, ra.names, ra.next) {
                Ok(rb) => Ok(
                    Numbered {
                        term: PatternView::Cons(Box::new(ra.term), Box::new(rb.term)),
                        names: rb.names,
                        next: rb.next,
                    },
                ),
                Err(x) => Err(x),
            },
            Err(x) => Err(x),
        },
        PatternView::Variable(v) => match number_binder(v, names, next) {
            Ok(rv) => Ok(
                Numbered { term: PatternView::Variable(rv.term), names: rv.names, next: rv.next },
            ),
            Err(x) => Err(x),
        },
        PatternView::Constant(_) | PatternView::Unit | PatternView::Nil => Ok(
            Numbered { term: p, names, next },
        ),
    }
}

/// `done` followed by the numbered forms of `ps[i..]`, each pattern numbered
/// in the state that the one before it left.
pub open spec fn number_patterns_from(
    ps: Seq<PatternView>,
    i: nat,
    done: Seq<PatternView>,
    names: Map<Seq<char>, VariableId>,
    next: nat,
) -> Result<Numbered<Seq<PatternView>>, ErrorView>
    decreases ps.len() - i,
{
    if i >= ps.len() {
        Ok(Numbered { term: done, names, next })
    } else {
        match number_pattern(ps[i as int], names, next) {
            Ok(r) => number_patterns_from(ps, i + 1, done.push(r.term), r.names, r.next),
            Err(x) => Err(x),
        }
    }
}

/// The reference `v` resolved: a named variable gets the identifier that
/// `locals` binds its name to, failing that the one that `globals` binds it
/// to, and failing that a fresh one, under which the name becomes global. A
/// nameless variable stays as it is.
pub open spec fn number_reference(
    v: VariableView,
    locals: Map<Seq<char>, VariableId>,
    globals: Map<Seq<char>, VariableId>,
    next: nat,
) -> Result<Numbered<VariableView>, ErrorView> {
    match v.name {
        Some(name) => if locals.contains_key(name) {
            Ok(
                Numbered {
                    term: VariableView { name: v.name, id: locals[name] },
                    names: globals,
                    next,
                },
            )
        } else if globals.contains_key(name) {
            Ok(
                Numbered {
                    term: VariableView { name: v.name, id: globals[name] },
                    names: globals,
                    next,
                },
            )
        } else {
            match mint(next) {
                Ok((id, next1)) => Ok(
                    Numbered {
                        term: VariableView { name: v.name, id },
                        names: globals.insert(name, id),
                        next: next1,
                    },
                ),
                Err(x) => Err(x),
            }
        },
        None => Ok(Numbered { term: v, names: globals, next }),
    }
}

/// The expression `e` with every variable numbered. The parameters of a
/// function, the pattern of a let-binding and the pattern of a match branch
/// extend a copy of `locals` that holds in the function body, the let body and
/// the branch body only; the bound expression of a let-binding is numbered
/// before its pattern. `globals` is threaded through the whole expression.
pub open spec fn number_expr(
    e: TExprView,
    locals: Map<Seq<char>, VariableId>,
    globals: Map<Seq<char>, VariableId>,
    next: nat,
) -> Result<Numbered<TExprView>, ErrorView>
    decreases e, 0nat,
{
    match e.v {
        ExprView::Sequence(es) => match number_exprs_from(
            es,
            0,
            Seq::empty(),
            locals,
            globals,
            next,
        ) {
            Ok(r) => Ok(
                Numbered {
                    term: TExprView { v: ExprView::Sequence(r.term), t: e.t },
                    names: r.names,
                    next: r.next,
                },
            ),
            Err(x) => Err(x),
        },
        ExprView::Intrinsic(i) => match number_exprs_from(
            i.args,
            0,
            Seq::empty(),
            locals,
            globals,
            next,
        ) {
            Ok(r) => Ok(
                Numbered {
                    term: TExprView {
                        v: ExprView::Intrinsic(
                            IntrinsicView {
                                arity: i.arity,
                                imp_typ: i.imp_typ,
                                imp: i.imp,
                                args: r.term,
                            },
                        ),
                        t: e.t,
                    },
                    names: r.names,
                    next: r.next,
                },
            ),
            Err(x) => Err(x),
        },
        ExprView::Infix(op, a, b) => match number_expr(*a, locals, globals, next) {
            Ok(ra) => match number_expr(*b, locals, ra.names, ra.next) {
                Ok(rb) => Ok(
                    Numbered {
                        term: TExprView {
                            v: ExprView::Infix(op, Box::new(ra.term), Box::new(rb.term)),
                            t: e.t,
                        },
                        names: rb.names,
                        next: rb.next,
                    },
                ),
                Err(x) => Err(x),
            },
            Err(x) => Err(x),
        },
        ExprView::Application(a, b) => match number_expr(*a, locals, globals, next) {
            Ok(ra) => match number_expr(*b, locals, ra.names, ra.next) {
                Ok(rb) => Ok(
                    Numbered {
                        term: TExprView {
                            v: ExprView::Application(Box::new(ra.term), Box::new(rb.term)),
                            t: e.t,
                        },
                        names: rb.names,
                        next: rb.next,
                    },
                ),
                Err(x) => Err(x),
            },
            Err(x) => Err(x),
        },
        ExprView::Product(a, b) => match number_expr(*a, locals, globals, next) {
            Ok(ra) => match number_expr(*b, locals, ra.names, ra.next) {
                Ok(rb) => Ok(
                    Numbered {
                        term: TExprView {
                            v: ExprView::Product(Box::new(ra.term), Box::new(rb.term)),
                            t: e.t,
                        },
                        names: rb.names,
                        next: rb.next,
                    },
                ),
                Err(x) => Err(x),
            },
            Err(x) => Err(x),
        },
        ExprView::Cons(a, b) => match number_expr(*a, locals, globals, next) {
            Ok(ra) => match number_expr(*b, locals, ra.names, ra.next) {
                Ok(rb) => Ok(
                    Numbered {
                        term: TExprView {
                            v: ExprView::Cons(Box::new(ra.term), Box::new(rb.term)),
                            t: e.t,
                        },
                        names: rb.names,
                        next: rb.next,
                    },
                ),
                Err(x) => Err(x),
            },
            Err(x) => Err(x),
        },
        ExprView::Negate(a) => match number_expr(*a, locals, globals, next) {
            Ok(ra) => Ok(
                Numbered {
                    term: TExprView { v: ExprView::Negate(Box::new(ra.term)), t: e.t },
                    names: ra.names,
                    next: ra.next,
                },
            ),
            Err(x) => Err(x),
        },
        ExprView::Constant(_) | ExprView::Unit | ExprView::Nil => Ok(
            Numbered { term: e, names: globals, next },
        ),
        ExprView::Variable(v) => match number_reference(v, locals, globals, next) {
            Ok(rv) => Ok(
                Numbered {
                    term: TExprView { v: ExprView::Variable(rv.term), t: e.t },
                    names: rv.names,
                    next: rv.next,
                },
            ),
            Err(x) => Err(x),
        },
        ExprView::Function(ps, body) => match number_patterns_from(
            ps,
            0,
            Seq::empty(),
            locals,
            next,
        ) {
            Ok(rps) => match number_expr(*body, rps.names, globals, rps.next) {
                Ok(rb) => Ok(
                    Numbered {
                        term: TExprView {
                            v: ExprView::Function(rps.term, Box::new(rb.term)),
                            t: e.t,
                        },
                        names: rb.names,
                        next: rb.next,
                    },
                ),
                Err(x) => Err(x),
            },
            Err(x) => Err(x),
        },
        ExprView::LetBinding(p, a, body) => match number_expr(*a, locals, globals, next) {
            Ok(ra) => match number_pattern(p, locals, ra.next) {
                Ok(rp) => match number_expr(*body, rp.names, ra.names, rp.next) {
                    Ok(rb) => Ok(
                        Numbered {
                            term: TExprView {
                                v: ExprView::LetBinding(
                                    rp.term,
                                    Box::new(ra.term),
                                    Box::new(rb.term),
                                ),
                                t: e.t,
                            },
                            names: rb.names,
                            next: rb.next,
                        },
                    ),
                    Err(x) => Err(x),
                },
                Err(x) => Err(x),
            },
            Err(x) => Err(x),
        },
        ExprView::Match(s, bs) => match number_expr(*s, locals, globals, next) {
            Ok(rs) => match number_branches_from(bs, 0, Seq::empty(), locals, rs.names, rs.next) {
                Ok(rbs) => Ok(
                    Numbered {
                        term: TExprView { v: ExprView::Match(Box::new(rs.term), rbs.term), t: e.t },
                        names: rbs.names,
                        next: rbs.next,
                    },
                ),
                Err(x) => Err(x),
            },
            Err(x) => Err(x),
        },
    }
}

/// `done` followed by the numbered forms of `es[i..]`, all under `locals`.
pub open spec fn number_exprs_from(
    es: Seq<TExprView>,
    i: nat,
    done: Seq<TExprView>,
    locals: Map<Seq<char>, VariableId>,
    globals: Map<Seq<char>, VariableId>,
    next: nat,
) -> Result<Numbered<Seq<TExprView>>, ErrorView>
    decreases es, es.len() - i,
{
    if i >= es.len() {
        Ok(Numbered { term: done, names: globals, next })
    } else {
        match number_expr(es[i as int], locals, globals, next) {
            Ok(r) => number_exprs_from(es, i + 1, done.push(r.term), locals, r.names, r.next),
            Err(x) => Err(x),
        }
    }
}

/// `done` followed by the numbered forms of the branches `bs[i..]`: each
/// pattern extends a copy of `locals`, under which its body is numbered.
pub open spec fn number_branches_from(
    bs: Seq<(PatternView, TExprView)>,
    i: nat,
    done: Seq<(PatternView, TExprView)>,
    locals: Map<Seq<char>, VariableId>,
    globals: Map<Seq<char>, VariableId>,
    next: nat,
) -> Result<Numbered<Seq<(PatternView, TExprView)>>, ErrorView>
    decreases bs, bs.len() - i,
{
    if i >= bs.len() {
        Ok(Numbered { term: done, names: globals, next })
    } else {
        match number_pattern(bs[i as int].0, locals, next) {
            Ok(rp) => match number_expr(bs[i as int].1, rp.names, globals, rp.next) {
                Ok(rb) => number_branches_from(
                    bs,
                    i + 1,
                    done.push((rp.term, rb.term)),
                    locals,
                    rb.names,
                    rb.next,
                ),
                Err(x) => Err(x),
            },
            Err(x) => Err(x),
        }
    }
}

/// The definition `d` numbered: its expression first, with no local binding
/// in sight, then its pattern, whose names become global.
pub open spec fn number_definition(
    d: DefinitionView,
    globals: Map<Seq<char>, VariableId>,
    next: nat,
) -> Result<Numbered<DefinitionView>, ErrorView> {
    match number_expr(d.value, Map::empty(), globals, next) {
        Ok(rv) => match number_pattern(d.pattern, rv.names, rv.next) {
            Ok(rp) => Ok(
                Numbered {
                    term: DefinitionView { pattern: rp.term, value: rv.term },
                    names: rp.names,
                    next: rp.next,
                },
            ),
            Err(x) => Err(x),
        },
        Err(x) => Err(x),
    }
}

/// `done` followed by the numbered forms of the definitions `ds[i..]`.
pub open spec fn number_definitions_from(
    ds: Seq<DefinitionView>,
    i: nat,
    done: Seq<DefinitionView>,
    globals: Map<Seq<char>, VariableId>,
    next: nat,
) -> Result<Numbered<Seq<DefinitionView>>, ErrorView>
    decreases ds.len() - i,
{
    if i >= ds.len() {
        Ok(Numbered { term: done, names: globals, next })
    } else {
        match number_definition(ds[i as int], globals, next) {
            Ok(r) => number_definitions_from(ds, i + 1, done.push(r.term), r.names, r.next),
            Err(x) => Err(x),
        }
    }
}

/// The module numbered: its definitions in order, then its expressions.
pub open spec fn number_module(
    m: ModuleView,
    globals: Map<Seq<char>, VariableId>,
    next: nat,
) -> Result<Numbered<ModuleView>, ErrorView> {
    match number_definitions_from(m.defs, 0, Seq::empty(), globals, next) {
        Ok(rd) => match number_exprs_from(
            m.exprs,
            0,
            Seq::empty(),
            Map::empty(),
            rd.names,
            rd.next,
        ) {
            Ok(re) => Ok(
                Numbered {
                    term: ModuleView { defs: rd.term, exprs: re.term },
                    names: re.names,
                    next: re.next,
                },
            ),
            Err(x) => Err(x),
        },
        Err(x) => Err(x),
    }
}

/// Whether the outcome `r` of an executable numbering, with the state it
/// left, is what the model `m` prescribes. The only error is that the
/// identifiers ran out; after it the state is unspecified.
pub open spec fn numbered_as<T>(
    m: Result<Numbered<T>, ErrorView>,
    r: Result<T, ErrorView>,
    names: Map<Seq<char>, VariableId>,
    next: nat,
) -> bool {
    match r {
        Ok(term) => m == Ok::<Numbered<T>, ErrorView>(Numbered { term, names, next }),
        Err(e) => m == Err::<Numbered<T>, ErrorView>(e),
    }
}

/// Numbers a binder.
fn number_binder_variable(var: &Variable, map: &mut NameMap, gen: &mut VarGen) -> (r: Result<
    Variable,
    CompileError,
>)
    ensures
        numbered_as(
            number_binder(var@, old(map)@, old(gen)@),
            result_view(r),
            final(map)@,
            final(gen)@,
        ),
{
    match &var.name {
        Some(name) => {
            let id = gen.try_generate_id()?;
            map.insert(name.clone(), id);
            Ok(Variable { name: Some(name.clone()), id })
        },
        None => Ok(var.clone()),
    }
}

/// Gives each named variable that the pattern binds a new identifier, and
/// enters it in the map under its name.
pub fn number_pattern_variables(pat: &Pattern, map: &mut NameMap, gen: &mut VarGen) -> (r: Result<
    Pattern,
    CompileError,
>)
    ensures
        numbered_as(
            number_pattern(pat@, old(map)@, old(gen)@),
            result_view(r),
            final(map)@,
            final(gen)@,
        ),
    decreases pat,
{
    match pat {
        Pattern::As(a, var) => {
            let ra = number_pattern_variables(a, map, gen)?;
            let rv = number_binder_variable(var, map, gen)?;
            Ok(Pattern::As(Box::new(ra), rv))
        },
        Pattern::Product(a, b) => {
            let ra = number_pattern_variables(a, map, gen)?;
            let rb = number_pattern_variables(b, map, gen)?;
            Ok(Pattern::Product(Box::new(ra), Box::new(rb)))
        },
        Pattern::Cons(a, b) => {
            let ra = number_pattern_variables(a, map, gen)?;
            let rb = number_pattern_variables(b, map, gen)?;
            Ok(Pattern::Cons(Box::new(ra), Box::new(rb)))
        },
        Pattern::Variable(var) => {
            let rv = number_binder_variable(var, map, gen)?;
            Ok(Pattern::Variable(rv))
        },
        Pattern::Constant(c) => Ok(Pattern::Constant(*c)),
        Pattern::Unit => Ok(Pattern::Unit),
        Pattern::Nil => Ok(Pattern::Nil),
    }
}

/// Numbers the given patterns in order.
fn number_patterns(ps: &Vec<Pattern>, map: &mut NameMap, gen: &mut VarGen) -> (r: Result<
    Vec<Pattern>,
    CompileError,
>)
    ensures
        numbered_as(
            number_patterns_from(patterns_view(ps@), 0, Seq::empty(), old(map)@, old(gen)@),
            match r {
                Ok(v) => Ok(patterns_view(v@)),
                Err(e) => Err(e@),
            },
            final(map)@,
            final(gen)@,
        ),
{
    let mut out: Vec<Pattern> = Vec::new();
    let mut i: usize = 0;
    assert(patterns_view(out@) =~= Seq::empty());
    while i < ps.len()
        invariant
            i <= ps.len(),
            number_patterns_from(patterns_view(ps@), 0, Seq::empty(), old(map)@, old(gen)@)
                == number_patterns_from(
                patterns_view(ps@),
                i as nat,
                patterns_view(out@),
                map@,
                gen@,
            ),
        decreases ps.len() - i,
    {
        let r = number_pattern_variables(&ps[i], map, gen)?;
        push_pattern(&mut out, r);
        i += 1;
    }
    Ok(out)
}

/// Numbers a reference.
fn number_reference_variable(
    var: &Variable,
    locals: &NameMap,
    globals: &mut NameMap,
    gen: &mut VarGen,
) -> (r: Result<Variable, CompileError>)
    ensures
        numbered_as(
            number_reference(var@, locals@, old(globals)@, old(gen)@),
            result_view(r),
            final(globals)@,
            final(gen)@,
        ),
{
    match &var.name {
        Some(name) => {
            let id = match locals.get(name) {
                Some(id) => id,
                None => match globals.get(name) {
                    Some(id) => id,
                    None => {
                        let id = gen.try_generate_id()?;
                        globals.insert(name.clone(), id);
                        id
                    },
                },
            };
            Ok(Variable { name: Some(name.clone()), id })
        },
        None => Ok(var.clone()),
    }
}

/// Numbers each variable of the expression by the binding of its name in
/// `locals`, failing that in `globals`, and failing that by a new global
/// binding. Binding expressions introduce new local bindings.
#[verifier::rlimit(30)]
pub fn number_expr_variables(
    expr: &TExpr,
    locals: &NameMap,
    globals: &mut NameMap,
    gen: &mut VarGen,
) -> (r: Result<TExpr, CompileError>)
    ensures
        numbered_as(
            number_expr(expr@, locals@, old(globals)@, old(gen)@),
            result_view(r),
            final(globals)@,
            final(gen)@,
        ),
    decreases expr, 0nat,
{
    match &expr.v {
        Expr::Sequence(es) => {
            let rs = number_exprs(es, locals, globals, gen)?;
            Ok(TExpr { v: Expr::Sequence(rs), t: clone_opt_type(&expr.t) })
        },
        Expr::Intrinsic(i) => {
            let rs = number_exprs(&i.args, locals, globals, gen)?;
            Ok(
                TExpr {
                    v: Expr::Intrinsic(
                        Intrinsic {
                            arity: i.arity,
                            imp_typ: clone_type(&i.imp_typ),
                            imp: i.imp,
                            args: rs,
                        },
                    ),
                    t: clone_opt_type(&expr.t),
                },
            )
        },
        Expr::Infix(op, a, b) => {
            let ra = number_expr_variables(a, locals, globals, gen)?;
            let rb = number_expr_variables(b, locals, globals, gen)?;
            Ok(
                TExpr {
                    v: Expr::Infix(*op, Box::new(ra), Box::new(rb)),
                    t: clone_opt_type(&expr.t),
                },
            )
        },
        Expr::Application(a, b) => {
            let ra = number_expr_variables(a, locals, globals, gen)?;
            let rb = number_expr_variables(b, locals, globals, gen)?;
            Ok(
                TExpr {
                    v: Expr::Application(Box::new(ra), Box::new(rb)),
                    t: clone_opt_type(&expr.t),
                },
            )
        },
        Expr::Product(a, b) => {
            let ra = number_expr_variables(a, locals, globals, gen)?;
            let rb = number_expr_variables(b, locals, globals, gen)?;
            Ok(TExpr { v: Expr::Product(Box::new(ra), Box::new(rb)), t: clone_opt_type(&expr.t) })
        },
        Expr::Cons(a, b) => {
            let ra = number_expr_variables(a, locals, globals, gen)?;
            let rb = number_expr_variables(b, locals, globals, gen)?;
            Ok(TExpr { v: Expr::Cons(Box::new(ra), Box::new(rb)), t: clone_opt_type(&expr.t) })
        },
        Expr::Negate(a) => {
            let ra = number_expr_variables(a, locals, globals, gen)?;
            Ok(TExpr { v: Expr::Negate(Box::new(ra)), t: clone_opt_type(&expr.t) })
        },
        Expr::Constant(_) | Expr::Unit | Expr::Nil => Ok(clone_texpr(expr)),
        Expr::Variable(var) => {
            let rv = number_reference_variable(var, locals, globals, gen)?;
            Ok(TExpr { v: Expr::Variable(rv), t: clone_opt_type(&expr.t) })
        },
        Expr::Function(f) => {
            let mut inner = locals.clone();
            let rps = number_patterns(&f.0, &mut inner, gen)?;
            let rb = number_expr_variables(&f.1, &inner, globals, gen)?;
            Ok(TExpr { v: Expr::Function(Function(rps, Box::new(rb))), t: clone_opt_type(&expr.t) })
        },
        Expr::LetBinding(b, body) => {
            let mut inner = locals.clone();
            let ra = number_expr_variables(&b.1, &inner, globals, gen)?;
            let rp = number_pattern_variables(&b.0, &mut inner, gen)?;
            let rb = number_expr_variables(body, &inner, globals, gen)?;
            Ok(
                TExpr {
                    v: Expr::LetBinding(LetBinding(rp, Box::new(ra)), Box::new(rb)),
                    t: clone_opt_type(&expr.t),
                },
            )
        },
        Expr::Match(m) => {
            let rs = number_expr_variables(&m.0, locals, globals, gen)?;
            let rbs = number_branches(&m.1, locals, globals, gen)?;
            Ok(TExpr { v: Expr::Match(Match(Box::new(rs), rbs)), t: clone_opt_type(&expr.t) })
        },
    }
}

/// Numbers the given expressions in order.
fn number_exprs(es: &Vec<TExpr>, locals: &NameMap, globals: &mut NameMap, gen: &mut VarGen) -> (r:
    Result<Vec<TExpr>, CompileError>)
    ensures
        numbered_as(
            number_exprs_from(
                texprs_view(es@),
                0,
                Seq::empty(),
                locals@,
                old(globals)@,
                old(gen)@,
            ),
            match r {
                Ok(v) => Ok(texprs_view(v@)),
                Err(e) => Err(e@),
            },
            final(globals)@,
            final(gen)@,
        ),
    decreases es, 0nat,
{
    let mut out: Vec<TExpr> = Vec::new();
    let mut i: usize = 0;
    assert(texprs_view(out@) =~= Seq::empty());
    while i < es.len()
        invariant
            i <= es.len(),
            number_exprs_from(
                texprs_view(es@),
                0,
                Seq::empty(),
                locals@,
                old(globals)@,
                old(gen)@,
            ) == number_exprs_from(
                texprs_view(es@),
                i as nat,
                texprs_view(out@),
                locals@,
                globals@,
                gen@,
            ),
        decreases es.len() - i,
    {
        let r = number_expr_variables(&es[i], locals, globals, gen)?;
        push_texpr(&mut out, r);
        i += 1;
    }
    Ok(out)
}

/// Numbers the given branches in order, each in a scope of its own.
fn number_branches(
    bs: &Vec<(Pattern, TExpr)>,
    locals: &NameMap,
    globals: &mut NameMap,
    gen: &mut VarGen,
) -> (r: Result<Vec<(Pattern, TExpr)>, CompileError>)
    ensures
        numbered_as(
            number_branches_from(
                branches_view(bs@),
                0,
                Seq::empty(),
                locals@,
                old(globals)@,
                old(gen)@,
            ),
            match r {
                Ok(v) => Ok(branches_view(v@)),
                Err(e) => Err(e@),
            },
            final(globals)@,
            final(gen)@,
        ),
    decreases bs, 0nat,
{
    let mut out: Vec<(Pattern, TExpr)> = Vec::new();
    let mut i: usize = 0;
    assert(branches_view(out@) =~= Seq::empty());
    while i < bs.len()
        invariant
            i <= bs.len(),
            number_branches_from(
                branches_view(bs@),
                0,
                Seq::empty(),
                locals@,
                old(globals)@,
                old(gen)@,
            ) == number_branches_from(
                branches_view(bs@),
                i as nat,
                branches_view(out@),
                locals@,
                globals@,
                gen@,
            ),
        decreases bs.len() - i,
    {
        let mut inner = locals.clone();
        let rp = number_pattern_variables(&bs[i].0, &mut inner, gen)?;
        let rb = number_expr_variables(&bs[i].1, &inner, globals, gen)?;
        push_branch(&mut out, rp, rb);
        i += 1;
    }
    Ok(out)
}

/// Numbers the variables of the definition: those of its expression, then
/// those of its pattern, in the global scope.
pub fn number_def_variables(
    def: &Definition,
    globals: &mut NameMap,
    gen: &mut VarGen,
) -> (r: Result<Definition, CompileError>)
    ensures
        numbered_as(
            number_definition(def@, old(globals)@, old(gen)@),
            result_view(r),
            final(globals)@,
            final(gen)@,
        ),
{
    let locals = NameMap::new();
    let value = number_expr_variables(&def.0.1, &locals, globals, gen)?;
    let pattern = number_pattern_variables(&def.0.0, globals, gen)?;
    Ok(Definition(LetBinding(pattern, Box::new(value))))
}

/// Numbers the variables of the module's definitions and then those of its
/// expressions. On an error the module is left as it was.
pub fn number_module_variables(module: &mut Module, globals: &mut NameMap, gen: &mut VarGen) -> (r:
    Result<(), CompileError>)
    ensures
        match r {
            Ok(()) => number_module(old(module)@, old(globals)@, old(gen)@) == Ok::<
                Numbered<ModuleView>,
                ErrorView,
            >(Numbered { term: final(module)@, names: final(globals)@, next: final(gen)@ }),
            Err(e) => number_module(old(module)@, old(globals)@, old(gen)@) == Err::<
                Numbered<ModuleView>,
                ErrorView,
            >(e@) && final(module)@ == old(module)@,
        },
{
    let mut defs: Vec<Definition> = Vec::new();
    let mut i: usize = 0;
    assert(definitions_view(defs@) =~= Seq::empty());
    while i < module.defs.len()
        invariant
            i <= module.defs.len(),
            *module == *old(module),
            number_definitions_from(module@.defs, 0, Seq::empty(), old(globals)@, old(gen)@)
                == number_definitions_from(
                module@.defs,
                i as nat,
                definitions_view(defs@),
                globals@,
                gen@,
            ),
        decreases module.defs.len() - i,
    {
        let def = number_def_variables(&module.defs[i], globals, gen)?;
        let ghost before = definitions_view(defs@);
        defs.push(def);
        assert(definitions_view(defs@) =~= before.push(def@));
        i += 1;
    }
    let locals = NameMap::new();
    let exprs = number_exprs(&module.exprs, &locals, globals, gen)?;
    module.defs = defs;
    module.exprs = exprs;
    Ok(())
}

} // verus!
