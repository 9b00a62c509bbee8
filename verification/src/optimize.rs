//! The optimizations that follow the reduction to three-address form: copy
//! propagation, and the removal of trivial equalities and of definitions that
//! no constraint depends on.

use vstd::prelude::*;
use std::collections::{HashMap, HashSet};
use crate::ast::{
    Definition, DefinitionView, Expr, ExprView, Function, InfixOp, Intrinsic, IntrinsicView,
    LetBinding, Match, Module, ModuleView, Pattern, PatternView, TExpr, TExprView, VariableId,
    branches_view, clone_opt_type, clone_pattern, clone_patterns, clone_texpr, clone_type,
    definitions_view, expr_view, texprs_view,
};
use crate::env::{bind, bindings_view, introduced, lookup_introduced, push_branch, push_texpr};
use crate::error::{CompileError, ErrorView, result_view};

verus! {

/// The expression `e` with every variable that `subst` binds replaced by its
/// binding, repeatedly, until no bound variable is left. A replacement inside
/// a replacement counts as one level of nesting, and at most `fuel` levels are
/// followed: beyond them the result is `RecursionLimit`. Parameters and
/// patterns are left as they are.
pub open spec fn propagate(e: TExprView, subst: Map<VariableId, TExprView>, fuel: nat) -> Result<
    TExprView,
    ErrorView,
>
    decreases fuel, e, 0nat,
{
    match e.v {
        ExprView::Variable(v) => if subst.contains_key(v.id) {
            if fuel == 0 {
                Err(ErrorView::RecursionLimit)
            } else {
                propagate(subst[v.id], subst, (fuel - 1) as nat)
            }
        } else {
            Ok(e)
        },
        ExprView::Sequence(es) => match propagate_from(es, 0, Seq::empty(), subst, fuel) {
            Ok(rs) => Ok(TExprView { v: ExprView::Sequence(rs), t: e.t }),
            Err(x) => Err(x),
        },
        ExprView::Intrinsic(i) => match propagate_from(i.args, 0, Seq::empty(), subst, fuel) {
            Ok(rs) => Ok(
                TExprView {
                    v: ExprView::Intrinsic(
                        IntrinsicView { arity: i.arity, imp_typ: i.imp_typ, imp: i.imp, args: rs },
                    ),
                    t: e.t,
                },
            ),
            Err(x) => Err(x),
        },
        ExprView::Infix(op, a, b) => match propagate(*a, subst, fuel) {
            Ok(ra) => match propagate(*b, subst, fuel) {
                Ok(rb) => Ok(
                    TExprView { v: ExprView::Infix(op, Box::new(ra), Box::new(rb)), t: e.t },
                ),
                Err(x) => Err(x),
            },
            Err(x) => Err(x),
        },
        ExprView::Application(a, b) => match propagate(*a, subst, fuel) {
            Ok(ra) => match propagate(*b, subst, fuel) {
                Ok(rb) => Ok(
                    TExprView { v: ExprView::Application(Box::new(ra), Box::new(rb)), t: e.t },
                ),
                Err(x) => Err(x),
            },
            Err(x) => Err(x),
        },
        ExprView::Product(a, b) => match propagate(*a, subst, fuel) {
            Ok(ra) => match propagate(*b, subst, fuel) {
                Ok(rb) => Ok(
                    TExprView { v: ExprView::Product(Box::new(ra), Box::new(rb)), t: e.t },
                ),
                Err(x) => Err(x),
            },
            Err(x) => Err(x),
        },
        ExprView::Cons(a, b) => match propagate(*a, subst, fuel) {
            Ok(ra) => match propagate(*b, subst, fuel) {
                Ok(rb) => Ok(TExprView { v: ExprView::Cons(Box::new(ra), Box::new(rb)), t: e.t }),
                Err(x) => Err(x),
            },
            Err(x) => Err(x),
        },
        ExprView::Negate(a) => match propagate(*a, subst, fuel) {
            Ok(ra) => Ok(TExprView { v: ExprView::Negate(Box::new(ra)), t: e.t }),
            Err(x) => Err(x),
        },
        ExprView::Function(ps, body) => match propagate(*body, subst, fuel) {
            Ok(rb) => Ok(TExprView { v: ExprView::Function(ps, Box::new(rb)), t: e.t }),
            Err(x) => Err(x),
        },
        ExprView::LetBinding(p, a, body) => match propagate(*a, subst, fuel) {
            Ok(ra) => match propagate(*body, subst, fuel) {
                Ok(rb) => Ok(
                    TExprView { v: ExprView::LetBinding(p, Box::new(ra), Box::new(rb)), t: e.t },
                ),
                Err(x) => Err(x),
            },
            Err(x) => Err(x),
        },
        ExprView::Match(s, bs) => match propagate(*s, subst, fuel) {
            Ok(rs) => match propagate_branches_from(bs, 0, Seq::empty(), subst, fuel) {
                Ok(rbs) => Ok(TExprView { v: ExprView::Match(Box::new(rs), rbs), t: e.t }),
                Err(x) => Err(x),
            },
            Err(x) => Err(x),
        },
        ExprView::Constant(_) | ExprView::Unit | ExprView::Nil => Ok(e),
    }
}

/// `done` followed by the propagated forms of `es[i..]`, or the first error
/// that propagating them in order meets.
pub open spec fn propagate_from(
    es: Seq<TExprView>,
    i: nat,
    done: Seq<TExprView>,
    subst: Map<VariableId, TExprView>,
    fuel: nat,
) -> Result<Seq<TExprView>, ErrorView>
    decreases fuel, es, es.len() - i,
{
    if i >= es.len() {
        Ok(done)
    } else {
        match propagate(es[i as int], subst, fuel) {
            Ok(r) => propagate_from(es, i + 1, done.push(r), subst, fuel),
            Err(x) => Err(x),
        }
    }
}

/// `done` followed by the branches `bs[i..]` with their bodies propagated, or
/// the first error that propagating them in order meets.
pub open spec fn propagate_branches_from(
    bs: Seq<(PatternView, TExprView)>,
    i: nat,
    done: Seq<(PatternView, TExprView)>,
    subst: Map<VariableId, TExprView>,
    fuel: nat,
) -> Result<Seq<(PatternView, TExprView)>, ErrorView>
    decreases fuel, bs, bs.len() - i,
{
    if i >= bs.len() {
        Ok(done)
    } else {
        match propagate(bs[i as int].1, subst, fuel) {
            Ok(r) => propagate_branches_from(
                bs,
                i + 1,
                done.push((bs[i as int].0, r)),
                subst,
                fuel,
            ),
            Err(x) => Err(x),
        }
    }
}

/// The model of a result that holds a list of expressions.
pub open spec fn texprs_result_view(r: Result<Vec<TExpr>, CompileError>) -> Result<
    Seq<TExprView>,
    ErrorView,
> {
    match r {
        Ok(v) => Ok(texprs_view(v@)),
        Err(e) => Err(e@),
    }
}

/// Replaces the variables of `expr` that `subst` binds, but for those that
/// `outer` binds too and for the witnesses.
pub(crate) fn propagate_introduced(
    expr: &TExpr,
    subst: &HashMap<VariableId, TExpr>,
    outer: &HashMap<VariableId, TExpr>,
    prover_defs: &HashSet<VariableId>,
    fuel: usize,
) -> (r: Result<TExpr, CompileError>)
    ensures
        result_view(r) == propagate(
            expr@,
            introduced(bindings_view(subst@), bindings_view(outer@), prover_defs@),
            fuel as nat,
        ),
    decreases fuel, expr, 0nat,
{
    match &expr.v {
        Expr::Variable(v) => match lookup_introduced(subst, outer, prover_defs, v.id) {
            Some(e) => {
                if fuel == 0 {
                    Err(CompileError::RecursionLimit)
                } else {
                    propagate_introduced(e, subst, outer, prover_defs, fuel - 1)
                }
            },
            None => Ok(clone_texpr(expr)),
        },
        Expr::Sequence(es) => {
            let rs = propagate_exprs(es, subst, outer, prover_defs, fuel)?;
            Ok(TExpr { v: Expr::Sequence(rs), t: clone_opt_type(&expr.t) })
        },
        Expr::Intrinsic(i) => {
            let rs = propagate_exprs(&i.args, subst, outer, prover_defs, fuel)?;
            Ok(
                TExpr {
                    v: Expr::Intrinsic(
                        Intrinsic {
                            arity: i.arity,
                            imp_typ: clone_type(&i.imp_typ),
                            imp: i.imp,
                            args: rs,
                        },
                    ),
                    t: clone_opt_type(&expr.t),
                },
            )
        },
        Expr::Infix(op, a, b) => {
            let ra = propagate_introduced(a, subst, outer, prover_defs, fuel)?;
            let rb = propagate_introduced(b, subst, outer, prover_defs, fuel)?;
            Ok(
                TExpr {
                    v: Expr::Infix(*op, Box::new(ra), Box::new(rb)),
                    t: clone_opt_type(&expr.t),
                },
            )
        },
        Expr::Application(a, b) => {
            let ra = propagate_introduced(a, subst, outer, prover_defs, fuel)?;
            let rb = propagate_introduced(b, subst, outer, prover_defs, fuel)?;
            Ok(
                TExpr {
                    v: Expr::Application(Box::new(ra), Box::new(rb)),
                    t: clone_opt_type(&expr.t),
                },
            )
        },
        Expr::Product(a, b) => {
            let ra = propagate_introduced(a, subst, outer, prover_defs, fuel)?;
            let rb = propagate_introduced(b, subst, outer, prover_defs, fuel)?;
            Ok(TExpr { v: Expr::Product(Box::new(ra), Box::new(rb)), t: clone_opt_type(&expr.t) })
        },
        Expr::Cons(a, b) => {
            let ra = propagate_introduced(a, subst, outer, prover_defs, fuel)?;
            let rb = propagate_introduced(b, subst, outer, prover_defs, fuel)?;
            Ok(TExpr { v: Expr::Cons(Box::new(ra), Box::new(rb)), t: clone_opt_type(&expr.t) })
        },
        Expr::Negate(a) => {
            let ra = propagate_introduced(a, subst, outer, prover_defs, fuel)?;
            Ok(TExpr { v: Expr::Negate(Box::new(ra)), t: clone_opt_type(&expr.t) })
        },
        Expr::Function(f) => {
            let rb = propagate_introduced(&f.1, subst, outer, prover_defs, fuel)?;
            Ok(
                TExpr {
                    v: Expr::Function(Function(clone_patterns(&f.0), Box::new(rb))),
                    t: clone_opt_type(&expr.t),
                },
            )
        },
        Expr::LetBinding(b, body) => {
            let ra = propagate_introduced(&b.1, subst, outer, prover_defs, fuel)?;
            let rb = propagate_introduced(body, subst, outer, prover_defs, fuel)?;
            Ok(
                TExpr {
                    v: Expr::LetBinding(
                        LetBinding(clone_pattern(&b.0), Box::new(ra)),
                        Box::new(rb),
                    ),
                    t: clone_opt_type(&expr.t),
                },
            )
        },
        Expr::Match(m) => {
            let rs = propagate_introduced(&m.0, subst, outer, prover_defs, fuel)?;
            let rbs = propagate_branches(&m.1, subst, outer, prover_defs, fuel)?;
            Ok(TExpr { v: Expr::Match(Match(Box::new(rs), rbs)), t: clone_opt_type(&expr.t) })
        },
        Expr::Constant(_) | Expr::Unit | Expr::Nil => Ok(clone_texpr(expr)),
    }
}

/// Replaces the variables of the given expressions, in order.
fn propagate_exprs(
    es: &Vec<TExpr>,
    subst: &HashMap<VariableId, TExpr>,
    outer: &HashMap<VariableId, TExpr>,
    prover_defs: &HashSet<VariableId>,
    fuel: usize,
) -> (r: Result<Vec<TExpr>, CompileError>)
    ensures
        texprs_result_view(r) == propagate_from(
            texprs_view(es@),
            0,
            Seq::empty(),
            introduced(bindings_view(subst@), bindings_view(outer@), prover_defs@),
            fuel as nat,
        ),
    decreases fuel, es, 0nat,
{
    let mut out: Vec<TExpr> = Vec::new();
    let mut i: usize = 0;
    assert(texprs_view(out@) =~= Seq::empty());
    while i < es.len()
        invariant
            i <= es.len(),
            propagate_from(
                texprs_view(es@),
                0,
                Seq::empty(),
                introduced(bindings_view(subst@), bindings_view(outer@), prover_defs@),
                fuel as nat,
            ) == propagate_from(
                texprs_view(es@),
                i as nat,
                texprs_view(out@),
                introduced(bindings_view(subst@), bindings_view(outer@), prover_defs@),
                fuel as nat,
            ),
        decreases es.len() - i,
    {
        let r = propagate_introduced(&es[i], subst, outer, prover_defs, fuel)?;
        push_texpr(&mut out, r);
        i += 1;
    }
    Ok(out)
}

/// Replaces the variables of the bodies of the given branches, in order.
fn propagate_branches(
    bs: &Vec<(Pattern, TExpr)>,
    subst: &HashMap<VariableId, TExpr>,
    outer: &HashMap<VariableId, TExpr>,
    prover_defs: &HashSet<VariableId>,
    fuel: usize,
) -> (r: Result<Vec<(Pattern, TExpr)>, CompileError>)
    ensures
        match r {
            Ok(v) => propagate_branches_from(
                branches_view(bs@),
                0,
                Seq::empty(),
                introduced(bindings_view(subst@), bindings_view(outer@), prover_defs@),
                fuel as nat,
            ) == Ok::<Seq<(PatternView, TExprView)>, ErrorView>(branches_view(v@)),
            Err(e) => propagate_branches_from(
                branches_view(bs@),
                0,
                Seq::empty(),
                introduced(bindings_view(subst@), bindings_view(outer@), prover_defs@),
                fuel as nat,
            ) == Err::<Seq<(PatternView, TExprView)>, ErrorView>(e@),
        },
    decreases fuel, bs, 0nat,
{
    let mut out: Vec<(Pattern, TExpr)> = Vec::new();
    let mut i: usize = 0;
    assert(branches_view(out@) =~= Seq::empty());
    while i < bs.len()
        invariant
            i <= bs.len(),
            propagate_branches_from(
                branches_view(bs@),
                0,
                Seq::empty(),
                introduced(bindings_view(subst@), bindings_view(outer@), prover_defs@),
                fuel as nat,
            ) == propagate_branches_from(
                branches_view(bs@),
                i as nat,
                branches_view(out@),
                introduced(bindings_view(subst@), bindings_view(outer@), prover_defs@),
                fuel as nat,
            ),
        decreases bs.len() - i,
    {
        let r = propagate_introduced(&bs[i].1, subst, outer, prover_defs, fuel)?;
        push_branch(&mut out, clone_pattern(&bs[i].0), r);
        i += 1;
    }
    Ok(out)
}

/// Applies all the substitutions in the given map to the given expression,
/// following at most `fuel` substitutions inside one another. On an error the
/// expression is left as it was.
pub fn copy_propagate_expr(
    expr: &mut TExpr,
    substitutions: &HashMap<VariableId, TExpr>,
    fuel: usize,
) -> (r: Result<(), CompileError>)
    ensures
        match r {
            Ok(()) => propagate(old(expr)@, bindings_view(substitutions@), fuel as nat) == Ok::<
                TExprView,
                ErrorView,
            >(final(expr)@),
            Err(e) => propagate(old(expr)@, bindings_view(substitutions@), fuel as nat) == Err::<
                TExprView,
                ErrorView,
            >(e@) && final(expr)@ == old(expr)@,
        },
{
    let outer: HashMap<VariableId, TExpr> = HashMap::new();
    let prover_defs: HashSet<VariableId> = HashSet::new();
    assert(introduced(bindings_view(substitutions@), bindings_view(outer@), prover_defs@)
        =~= bindings_view(substitutions@));
    let propagated = propagate_introduced(expr, substitutions, &outer, &prover_defs, fuel)?;
    *expr = propagated;
    Ok(())
}

/// A propagated definition with the substitution that it leaves.
pub struct PropagatedDefinition {
    pub def: DefinitionView,
    pub subst: Map<VariableId, TExprView>,
}

/// The definition `d` with its right-hand side propagated. Where that gives a
/// variable or a constant and the defined variable is no witness, the defined
/// variable becomes an alias of it from here on. A definition of anything
/// but a variable is `InternalInvariantViolation`.
pub open spec fn propagate_definition(
    d: DefinitionView,
    subst: Map<VariableId, TExprView>,
    prover: Set<VariableId>,
    fuel: nat,
) -> Result<PropagatedDefinition, ErrorView> {
    match d.pattern {
        PatternView::Variable(v1) => match propagate(d.value, subst, fuel) {
            Ok(value) => Ok(
                PropagatedDefinition {
                    def: DefinitionView { pattern: d.pattern, value },
                    subst: if (value.v is Variable || value.v is Constant) && !prover.contains(
                        v1.id,
                    ) {
                        subst.insert(v1.id, value)
                    } else {
                        subst
                    },
                },
            ),
            Err(x) => Err(x),
        },
        _ => Err(ErrorView::InternalInvariantViolation),
    }
}

/// Applies the given substitutions to the right-hand side of the definition.
/// If the result is a variable or a constant, and the defined variable is no
/// witness, a substitution for the defined variable is added. Substitutions
/// inside one another are followed to a depth of `fuel`. On an error the
/// definition and the substitutions are left as they were.
pub fn copy_propagate_def(
    def: &mut Definition,
    substitutions: &mut HashMap<VariableId, TExpr>,
    prover_defs: &HashSet<VariableId>,
    fuel: usize,
) -> (r: Result<(), CompileError>)
    ensures
        match r {
            Ok(()) => propagate_definition(
                old(def)@,
                bindings_view(old(substitutions)@),
                prover_defs@,
                fuel as nat,
            ) == Ok::<PropagatedDefinition, ErrorView>(
                PropagatedDefinition {
                    def: final(def)@,
                    subst: bindings_view(final(substitutions)@),
                },
            ),
            Err(e) => propagate_definition(
                old(def)@,
                bindings_view(old(substitutions)@),
                prover_defs@,
                fuel as nat,
            ) == Err::<PropagatedDefinition, ErrorView>(e@) && final(def)@ == old(def)@
                && bindings_view(final(substitutions)@) == bindings_view(old(substitutions)@),
        },
{
    let id = match &def.0.0 {
        Pattern::Variable(v1) => v1.id,
        _ => {
            return Err(CompileError::InternalInvariantViolation);
        },
    };
    let mut value = clone_texpr(&def.0.1);
    copy_propagate_expr(&mut value, substitutions, fuel)?;
    let is_atom = match &value.v {
        Expr::Variable(_) | Expr::Constant(_) => true,
        _ => false,
    };
    if is_atom && !prover_defs.contains(&id) {
        bind(substitutions, id, clone_texpr(&value));
    }
    def.0.1 = Box::new(value);
    Ok(())
}

/// A propagated module with the substitution that propagation ended with.
pub struct PropagatedModule {
    pub module: ModuleView,
    pub subst: Map<VariableId, TExprView>,
}

/// `done` followed by the propagated forms of the definitions `ds[i..]`, each
/// under the substitution that the one before it left.
pub open spec fn propagate_definitions_from(
    ds: Seq<DefinitionView>,
    i: nat,
    done: Seq<DefinitionView>,
    subst: Map<VariableId, TExprView>,
    prover: Set<VariableId>,
    fuel: nat,
) -> Result<PropagatedModule, ErrorView>
    decreases ds.len() - i,
{
    if i >= ds.len() {
        Ok(PropagatedModule { module: ModuleView { defs: done, exprs: Seq::empty() }, subst })
    } else {
        match propagate_definition(ds[i as int], subst, prover, fuel) {
            Ok(r) => propagate_definitions_from(ds, i + 1, done.push(r.def), r.subst, prover, fuel),
            Err(x) => Err(x),
        }
    }
}

/// The module after one pass of copy propagation from left to right: the
/// definitions first, starting from no substitution, then every constraint
/// under the substitution that the definitions left.
pub open spec fn propagate_module(m: ModuleView, prover: Set<VariableId>, fuel: nat) -> Result<
    PropagatedModule,
    ErrorView,
> {
    match propagate_definitions_from(m.defs, 0, Seq::empty(), Map::empty(), prover, fuel) {
        Ok(d) => match propagate_from(m.exprs, 0, Seq::empty(), d.subst, fuel) {
            Ok(exprs) => Ok(
                PropagatedModule {
                    module: ModuleView { defs: d.module.defs, exprs },
                    subst: d.subst,
                },
            ),
            Err(x) => Err(x),
        },
        Err(x) => Err(x),
    }
}

/// Replaces all variables that are defined to be equal by one representative,
/// and a variable that is defined to equal a constant by the constant, in
/// one pass from left to right. Substitutions inside one another are followed
/// to a depth of `fuel`. On an error the module is left as it was.
pub fn copy_propagate(module: &mut Module, prover_defs: &HashSet<VariableId>, fuel: usize) -> (r:
    Result<(), CompileError>)
    ensures
        match r {
            Ok(()) => propagate_module(old(module)@, prover_defs@, fuel as nat) matches Ok(p)
                && p.module == final(module)@,
            Err(e) => propagate_module(old(module)@, prover_defs@, fuel as nat) == Err::<
                PropagatedModule,
                ErrorView,
            >(e@) && final(module)@ == old(module)@,
        },
{
    let mut substitutions: HashMap<VariableId, TExpr> = HashMap::new();
    assert(bindings_view(substitutions@) =~= Map::empty());
    let mut defs: Vec<Definition> = Vec::new();
    assert(definitions_view(defs@) =~= Seq::empty());
    let mut i: usize = 0;
    while i < module.defs.len()
        invariant
            i <= module.defs.len(),
            *module == *old(module),
            propagate_definitions_from(
                module@.defs,
                0,
                Seq::empty(),
                Map::empty(),
                prover_defs@,
                fuel as nat,
            ) == propagate_definitions_from(
                module@.defs,
                i as nat,
                definitions_view(defs@),
                bindings_view(substitutions@),
                prover_defs@,
                fuel as nat,
            ),
        decreases module.defs.len() - i,
    {
        let mut def = module.defs[i].clone();
        copy_propagate_def(&mut def, &mut substitutions, prover_defs, fuel)?;
        let ghost before = definitions_view(defs@);
        defs.push(def);
        assert(definitions_view(defs@) =~= before.push(def@));
        i += 1;
    }
    let outer: HashMap<VariableId, TExpr> = HashMap::new();
    let no_witness: HashSet<VariableId> = HashSet::new();
    assert(introduced(bindings_view(substitutions@), bindings_view(outer@), no_witness@)
        =~= bindings_view(substitutions@));
    let exprs = propagate_exprs(&module.exprs, &substitutions, &outer, &no_witness, fuel)?;
    module.defs = defs;
    module.exprs = exprs;
    Ok(())
}

/// Whether the constraint is an equality of a constant with the same
/// constant, or of a variable with a variable of the same identifier.
pub open spec fn trivial_equality(e: TExprView) -> bool {
    e.v matches ExprView::Infix(op, a, b) && op == InfixOp::Equal && ({
        ||| a.v matches ExprView::Constant(c1) && b.v matches ExprView::Constant(c2) && c1 == c2
        ||| a.v matches ExprView::Variable(v1) && b.v matches ExprView::Variable(v2) && v1.id
            == v2.id
    })
}

/// Whether the constraint is true by its form.
fn is_trivial_equality(e: &TExpr) -> (r: bool)
    ensures
        r == trivial_equality(e@),
{
    match &e.v {
        Expr::Infix(op, a, b) => {
            assert(e@.v == ExprView::Infix(*op, Box::new(a@), Box::new(b@)));
            assert(a@.v == expr_view(a.v));
            assert(b@.v == expr_view(b.v));
            match op {
                InfixOp::Equal => match (&a.v, &b.v) {
                    (Expr::Constant(c1), Expr::Constant(c2)) => *c1 == *c2,
                    (Expr::Variable(v1), Expr::Variable(v2)) => v1.id == v2.id,
                    _ => false,
                },
                _ => false,
            }
        },
        _ => false,
    }
}

/// Removes from the constraints the equalities that are true by their form.
/// The other constraints keep their order, and the definitions stay.
pub fn eliminate_dead_equalities(module: &mut Module)
    ensures
        final(module)@.defs == old(module)@.defs,
        final(module)@.exprs == old(module)@.exprs.filter(|e: TExprView| !trivial_equality(e)),
{
    let ghost all = texprs_view(module.exprs@);
    let ghost keep = |e: TExprView| !trivial_equality(e);
    let mut new_exprs: Vec<TExpr> = Vec::new();
    let mut i: usize = 0;
    assert(texprs_view(new_exprs@) =~= all.take(0).filter(keep)) by {
        reveal(Seq::filter);
    }
    while i < module.exprs.len()
        invariant
            i <= module.exprs.len(),
            *module == *old(module),
            all == texprs_view(module.exprs@),
            keep == |e: TExprView| !trivial_equality(e),
            texprs_view(new_exprs@) == all.take(i as int).filter(keep),
        decreases module.exprs.len() - i,
    {
        proof {
            reveal(Seq::filter);
            assert(all.take(i + 1).drop_last() =~= all.take(i as int));
            assert(all.take(i + 1).last() == module.exprs[i as int]@);
        }
        if !is_trivial_equality(&module.exprs[i]) {
            push_texpr(&mut new_exprs, clone_texpr(&module.exprs[i]));
        }
        i += 1;
    }
    assert(all.take(i as int) =~= all);
    module.exprs = new_exprs;
}

} // verus!
