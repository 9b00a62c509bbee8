//! Flattening: nested bindings and structural equalities become a flat list
//! of definitions of variables and a flat list of scalar equalities.

use vstd::prelude::*;
use crate::ast::{
    Definition, DefinitionView, Expr, ExprView, InfixOp, LetBinding, Module, ModuleView, Pattern,
    PatternView, TExpr, TExprView, clone_pattern, clone_texpr, texprs_view, untyped,
};
use crate::env::{push_definition, push_texpr};
use crate::error::{CompileError, ErrorView};

verus! {

/// Whether the expression is a scalar term: a variable, a constant, an infix
/// expression or a negation.
pub open spec fn scalar(e: TExprView) -> bool {
    e.v is Variable || e.v is Constant || e.v is Infix || e.v is Negate
}

/// The module `m` with what the binding of `p` to the flattened value `e`
/// defines. A variable bound to a scalar term is a definition. A constant
/// bound to a scalar term is the constraint that the two are equal. An alias
/// is passed over. Unit bound to unit defines nothing, and a pair bound to a
/// pair defines what its components define, left first. Any other binding is
/// `InternalInvariantViolation`.
pub open spec fn bind_flat(p: PatternView, e: TExprView, m: ModuleView) -> Result<
    ModuleView,
    ErrorView,
>
    decreases p,
{
    match p {
        PatternView::Variable(_) => if scalar(e) {
            Ok(
                ModuleView {
                    defs: m.defs.push(DefinitionView { pattern: p, value: e }),
                    exprs: m.exprs,
                },
            )
        } else {
            Err(ErrorView::InternalInvariantViolation)
        },
        PatternView::Constant(c) => if scalar(e) {
            Ok(
                ModuleView {
                    defs: m.defs,
                    exprs: m.exprs.push(
                        untyped(
                            ExprView::Infix(
                                InfixOp::Equal,
                                Box::new(untyped(ExprView::Constant(c))),
                                Box::new(e),
                            ),
                        ),
                    ),
                },
            )
        } else {
            Err(ErrorView::InternalInvariantViolation)
        },
        PatternView::As(a, _) => bind_flat(*a, e, m),
        PatternView::Unit => match e.v {
            ExprView::Unit => Ok(m),
            _ => Err(ErrorView::InternalInvariantViolation),
        },
        PatternView::Product(pa, pb) => match e.v {
            ExprView::Product(e1, e2) => match bind_flat(*pa, *e1, m) {
                Ok(m1) => bind_flat(*pb, *e2, m1),
                Err(x) => Err(x),
            },
            _ => Err(ErrorView::InternalInvariantViolation),
        },
        _ => Err(ErrorView::InternalInvariantViolation),
    }
}

/// The module `m` with the constraints that the equality of the flattened
/// values `e1` and `e2` states: none for unit and unit, those of the
/// components for two pairs, left first, and the equality itself for two
/// scalar terms. Any other equality is `InternalInvariantViolation`.
pub open spec fn equate_flat(e1: TExprView, e2: TExprView, m: ModuleView) -> Result<
    ModuleView,
    ErrorView,
>
    decreases e1,
{
    match (e1.v, e2.v) {
        (ExprView::Unit, ExprView::Unit) => Ok(m),
        (ExprView::Product(e11, e12), ExprView::Product(e21, e22)) => match equate_flat(
            *e11,
            *e21,
            m,
        ) {
            Ok(m1) => equate_flat(*e12, *e22, m1),
            Err(x) => Err(x),
        },
        _ => if scalar(e1) && scalar(e2) {
            Ok(
                ModuleView {
                    defs: m.defs,
                    exprs: m.exprs.push(
                        untyped(ExprView::Infix(InfixOp::Equal, Box::new(e1), Box::new(e2))),
                    ),
                },
            )
        } else {
            Err(ErrorView::InternalInvariantViolation)
        },
    }
}

/// A flattened value with the module that holds what it defines.
pub struct Flattened {
    pub value: TExprView,
    pub module: ModuleView,
}

/// The flattened values of a list, with the module after them.
pub struct FlattenedAll {
    pub values: Seq<TExprView>,
    pub module: ModuleView,
}

/// The value of `e` with its bindings and equalities moved into the module
/// `m`. A let-binding flattens the bound expression, adds what the binding
/// defines, and has the value of its body. An equality flattens both sides,
/// adds the constraints that it states, and has the value unit. A sequence
/// flattens its elements in order and has the value of the last one; a
/// sequence without elements is `InternalInvariantViolation`. Any other
/// operation, a pair, a list cell and a negation flatten their operands, left
/// first, and are rebuilt without a type. Variables, constants, unit and the
/// empty list are values. A function, an application, a match and a built-in
/// are `InternalInvariantViolation`.
pub open spec fn flatten(e: TExprView, m: ModuleView) -> Result<Flattened, ErrorView>
    decreases e, 0nat,
{
    match e.v {
        ExprView::Sequence(es) => if es.len() == 0 {
            Err(ErrorView::InternalInvariantViolation)
        } else {
            match flatten_each_from(es, 0, Seq::empty(), m) {
                Ok(r) => Ok(Flattened { value: r.values.last(), module: r.module }),
                Err(x) => Err(x),
            }
        },
        ExprView::Infix(op, e1, e2) => match flatten(*e1, m) {
            Ok(f1) => match flatten(*e2, f1.module) {
                Ok(f2) => if op == InfixOp::Equal {
                    match equate_flat(f1.value, f2.value, f2.module) {
                        Ok(m2) => Ok(Flattened { value: untyped(ExprView::Unit), module: m2 }),
                        Err(x) => Err(x),
                    }
                } else {
                    Ok(
                        Flattened {
                            value: untyped(
                                ExprView::Infix(op, Box::new(f1.value), Box::new(f2.value)),
                            ),
                            module: f2.module,
                        },
                    )
                },
                Err(x) => Err(x),
            },
            Err(x) => Err(x),
        },
        ExprView::Product(e1, e2) => match flatten(*e1, m) {
            Ok(f1) => match flatten(*e2, f1.module) {
                Ok(f2) => Ok(
                    Flattened {
                        value: untyped(ExprView::Product(Box::new(f1.value), Box::new(f2.value))),
                        module: f2.module,
                    },
                ),
                Err(x) => Err(x),
            },
            Err(x) => Err(x),
        },
        ExprView::Cons(e1, e2) => match flatten(*e1, m) {
            Ok(f1) => match flatten(*e2, f1.module) {
                Ok(f2) => Ok(
                    Flattened {
                        value: untyped(ExprView::Cons(Box::new(f1.value), Box::new(f2.value))),
                        module: f2.module,
                    },
                ),
                Err(x) => Err(x),
            },
            Err(x) => Err(x),
        },
        ExprView::Negate(e1) => match flatten(*e1, m) {
            Ok(f1) => Ok(
                Flattened {
                    value: untyped(ExprView::Negate(Box::new(f1.value))),
                    module: f1.module,
                },
            ),
            Err(x) => Err(x),
        },
        ExprView::Constant(_) | ExprView::Variable(_) | ExprView::Unit | ExprView::Nil => Ok(
            Flattened { value: e, module: m },
        ),
        ExprView::LetBinding(p, b, body) => match flatten(*b, m) {
            Ok(fb) => match bind_flat(p, fb.value, fb.module) {
                Ok(m1) => flatten(*body, m1),
                Err(x) => Err(x),
            },
            Err(x) => Err(x),
        },
        ExprView::Function(_, _)
        | ExprView::Application(_, _)
        | ExprView::Intrinsic(_)
        | ExprView::Match(_, _) => Err(ErrorView::InternalInvariantViolation),
    }
}

/// `values` followed by the flattened values of `es[i..]`, each flattened
/// into the module that the one before it left.
pub open spec fn flatten_each_from(
    es: Seq<TExprView>,
    i: nat,
    values: Seq<TExprView>,
    m: ModuleView,
) -> Result<FlattenedAll, ErrorView>
    decreases es, es.len() - i,
{
    if i >= es.len() {
        Ok(FlattenedAll { values, module: m })
    } else {
        match flatten(es[i as int], m) {
            Ok(f) => flatten_each_from(es, i + 1, values.push(f.value), f.module),
            Err(x) => Err(x),
        }
    }
}

/// The module `m` with what the definition `d` defines.
pub open spec fn flatten_one_definition(d: DefinitionView, m: ModuleView) -> Result<
    ModuleView,
    ErrorView,
> {
    match flatten(d.value, m) {
        Ok(f) => bind_flat(d.pattern, f.value, f.module),
        Err(x) => Err(x),
    }
}

/// The module `m` with what the definitions `ds[i..]` define, in order.
pub open spec fn flatten_definitions_from(ds: Seq<DefinitionView>, i: nat, m: ModuleView) -> Result<
    ModuleView,
    ErrorView,
>
    decreases ds.len() - i,
{
    if i >= ds.len() {
        Ok(m)
    } else {
        match flatten_one_definition(ds[i as int], m) {
            Ok(m1) => flatten_definitions_from(ds, i + 1, m1),
            Err(x) => Err(x),
        }
    }
}

/// The module `m` with what the expressions `es[i..]` define, in order. Their
/// values are dropped.
pub open spec fn flatten_expressions_from(es: Seq<TExprView>, i: nat, m: ModuleView) -> Result<
    ModuleView,
    ErrorView,
>
    decreases es.len() - i,
{
    if i >= es.len() {
        Ok(m)
    } else {
        match flatten(es[i as int], m) {
            Ok(f) => flatten_expressions_from(es, i + 1, f.module),
            Err(x) => Err(x),
        }
    }
}

/// The module `flat` with what the module `m` defines: its definitions in
/// order, then its expressions.
pub open spec fn flatten_into(m: ModuleView, flat: ModuleView) -> Result<ModuleView, ErrorView> {
    match flatten_definitions_from(m.defs, 0, flat) {
        Ok(m1) => flatten_expressions_from(m.exprs, 0, m1),
        Err(x) => Err(x),
    }
}

/// Whether the module, as an executable flattening left it, is what the model
/// `m` prescribes. After an error the module is unspecified.
pub open spec fn flattened_as(
    m: Result<ModuleView, ErrorView>,
    r: Result<(), CompileError>,
    module: ModuleView,
) -> bool {
    match r {
        Ok(()) => m == Ok::<ModuleView, ErrorView>(module),
        Err(e) => m == Err::<ModuleView, ErrorView>(e@),
    }
}

/// Whether the expression is a scalar term.
fn is_scalar(e: &TExpr) -> (r: bool)
    ensures
        r == scalar(e@),
{
    match &e.v {
        Expr::Variable(_) | Expr::Constant(_) | Expr::Infix(_, _, _) | Expr::Negate(_) => true,
        _ => false,
    }
}

/// Flattens the given binding down into what it defines.
pub fn flatten_binding(pat: &Pattern, expr: &TExpr, flattened: &mut Module) -> (r: Result<
    (),
    CompileError,
>)
    ensures
        flattened_as(bind_flat(pat@, expr@, old(flattened)@), r, final(flattened)@),
    decreases pat,
{
    match pat {
        Pattern::Variable(_) => {
            if is_scalar(expr) {
                push_definition(
                    &mut flattened.defs,
                    Definition(LetBinding(clone_pattern(pat), Box::new(clone_texpr(expr)))),
                );
                Ok(())
            } else {
                Err(CompileError::InternalInvariantViolation)
            }
        },
        Pattern::Constant(c) => {
            if is_scalar(expr) {
                let constant = TExpr::untyped(Expr::Constant(*c));
                push_texpr(
                    &mut flattened.exprs,
                    TExpr::untyped(
                        Expr::Infix(
                            InfixOp::Equal,
                            Box::new(constant),
                            Box::new(clone_texpr(expr)),
                        ),
                    ),
                );
                Ok(())
            } else {
                Err(CompileError::InternalInvariantViolation)
            }
        },
        Pattern::As(a, _) => flatten_binding(a, expr, flattened),
        Pattern::Unit => match &expr.v {
            Expr::Unit => Ok(()),
            _ => Err(CompileError::InternalInvariantViolation),
        },
        Pattern::Product(pa, pb) => match &expr.v {
            Expr::Product(e1, e2) => {
                flatten_binding(pa, e1, flattened)?;
                flatten_binding(pb, e2, flattened)
            },
            _ => Err(CompileError::InternalInvariantViolation),
        },
        _ => Err(CompileError::InternalInvariantViolation),
    }
}

/// Flattens the given equality down into the constraints that it states.
pub fn flatten_equals(expr1: &TExpr, expr2: &TExpr, flattened: &mut Module) -> (r: Result<
    (),
    CompileError,
>)
    ensures
        flattened_as(equate_flat(expr1@, expr2@, old(flattened)@), r, final(flattened)@),
    decreases expr1,
{
    match (&expr1.v, &expr2.v) {
        (Expr::Unit, Expr::Unit) => Ok(()),
        (Expr::Product(e11, e12), Expr::Product(e21, e22)) => {
            flatten_equals(e11, e21, flattened)?;
            flatten_equals(e12, e22, flattened)
        },
        _ => {
            if is_scalar(expr1) && is_scalar(expr2) {
                push_texpr(
                    &mut flattened.exprs,
                    TExpr::untyped(
                        Expr::Infix(
                            InfixOp::Equal,
                            Box::new(clone_texpr(expr1)),
                            Box::new(clone_texpr(expr2)),
                        ),
                    ),
                );
                Ok(())
            } else {
                Err(CompileError::InternalInvariantViolation)
            }
        },
    }
}

/// Flattens the given expression down into what it defines, and returns its
/// value.
pub fn flatten_expression(expr: &TExpr, flattened: &mut Module) -> (r: Result<TExpr, CompileError>)
    ensures
        match r {
            Ok(value) => flatten(expr@, old(flattened)@) == Ok::<Flattened, ErrorView>(
                Flattened { value: value@, module: final(flattened)@ },
            ),
            Err(e) => flatten(expr@, old(flattened)@) == Err::<Flattened, ErrorView>(e@),
        },
    decreases expr, 0nat,
{
    match &expr.v {
        Expr::Sequence(es) => {
            assert(texprs_view(es@).len() == es.len());
            if es.len() == 0 {
                return Err(CompileError::InternalInvariantViolation);
            }
            let mut values = flatten_each(es, flattened)?;
            let ghost all = texprs_view(values@);
            assert(all.len() == values.len());
            let value = values.pop().unwrap();
            assert(value@ == all.last());
            Ok(value)
        },
        Expr::Infix(op, e1, e2) => {
            let f1 = flatten_expression(e1, flattened)?;
            let f2 = flatten_expression(e2, flattened)?;
            if let InfixOp::Equal = op {
                flatten_equals(&f1, &f2, flattened)?;
                Ok(TExpr::untyped(Expr::Unit))
            } else {
                Ok(TExpr::untyped(Expr::Infix(*op, Box::new(f1), Box::new(f2))))
            }
        },
        Expr::Product(e1, e2) => {
            let f1 = flatten_expression(e1, flattened)?;
            let f2 = flatten_expression(e2, flattened)?;
            Ok(TExpr::untyped(Expr::Product(Box::new(f1), Box::new(f2))))
        },
        Expr::Cons(e1, e2) => {
            let f1 = flatten_expression(e1, flattened)?;
            let f2 = flatten_expression(e2, flattened)?;
            Ok(TExpr::untyped(Expr::Cons(Box::new(f1), Box::new(f2))))
        },
        Expr::Negate(e1) => {
            let f1 = flatten_expression(e1, flattened)?;
            Ok(TExpr::untyped(Expr::Negate(Box::new(f1))))
        },
        Expr::Constant(_) | Expr::Variable(_) | Expr::Unit | Expr::Nil => Ok(clone_texpr(expr)),
        Expr::LetBinding(b, body) => {
            let value = flatten_expression(&b.1, flattened)?;
            flatten_binding(&b.0, &value, flattened)?;
            flatten_expression(body, flattened)
        },
        Expr::Function(_) | Expr::Application(_, _) | Expr::Intrinsic(_) | Expr::Match(_) => Err(
            CompileError::InternalInvariantViolation,
        ),
    }
}

/// Flattens the given expressions in order, and returns their values.
fn flatten_each(es: &Vec<TExpr>, flattened: &mut Module) -> (r: Result<Vec<TExpr>, CompileError>)
    ensures
        match r {
            Ok(values) => flatten_each_from(texprs_view(es@), 0, Seq::empty(), old(flattened)@)
                == Ok::<FlattenedAll, ErrorView>(
                FlattenedAll { values: texprs_view(values@), module: final(flattened)@ },
            ) && values.len() == es.len(),
            Err(e) => flatten_each_from(texprs_view(es@), 0, Seq::empty(), old(flattened)@)
                == Err::<FlattenedAll, ErrorView>(e@),
        },
    decreases es, 0nat,
{
    let mut values: Vec<TExpr> = Vec::new();
    let mut i: usize = 0;
    assert(texprs_view(values@) =~= Seq::empty());
    while i < es.len()
        invariant
            i <= es.len(),
            values.len() == i,
            flatten_each_from(texprs_view(es@), 0, Seq::empty(), old(flattened)@)
                == flatten_each_from(texprs_view(es@), i as nat, texprs_view(values@), flattened@),
        decreases es.len() - i,
    {
        let value = flatten_expression(&es[i], flattened)?;
        push_texpr(&mut values, value);
        i += 1;
    }
    Ok(values)
}

/// Flattens the given definition down into what it defines.
pub fn flatten_definition(def: &Definition, flattened: &mut Module) -> (r: Result<(), CompileError>)
    ensures
        flattened_as(flatten_one_definition(def@, old(flattened)@), r, final(flattened)@),
{
    let value = flatten_expression(&def.0.1, flattened)?;
    flatten_binding(&def.0.0, &value, flattened)
}

/// Flattens the given module down into the definitions and the constraints
/// that it states, appending them to `flattened`.
pub fn flatten_module(module: &Module, flattened: &mut Module) -> (r: Result<(), CompileError>)
    ensures
        flattened_as(flatten_into(module@, old(flattened)@), r, final(flattened)@),
{
    let mut i: usize = 0;
    while i < module.defs.len()
        invariant
            i <= module.defs.len(),
            flatten_definitions_from(module@.defs, 0, old(flattened)@) == flatten_definitions_from(
                module@.defs,
                i as nat,
                flattened@,
            ),
        decreases module.defs.len() - i,
    {
        flatten_definition(&module.defs[i], flattened)?;
        i += 1;
    }
    let ghost after_defs = flattened@;
    let mut k: usize = 0;
    while k < module.exprs.len()
        invariant
            k <= module.exprs.len(),
            flatten_definitions_from(module@.defs, 0, old(flattened)@) == Ok::<
                ModuleView,
                ErrorView,
            >(after_defs),
            flatten_expressions_from(module@.exprs, 0, after_defs) == flatten_expressions_from(
                module@.exprs,
                k as nat,
                flattened@,
            ),
        decreases module.exprs.len() - k,
    {
        let _value = flatten_expression(&module.exprs[k], flattened)?;
        k += 1;
    }
    Ok(())
}

} // verus!
