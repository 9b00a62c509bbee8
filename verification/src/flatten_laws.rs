//! What holds of every flattened module: its definitions define variables by
//! scalar terms, and its constraints equate scalar terms.

use vstd::prelude::*;
use crate::ast::{DefinitionView, ExprView, InfixOp, ModuleView, PatternView, TExprView};
use crate::flatten::{
    bind_flat, equate_flat, flatten, flatten_definitions_from, flatten_each_from,
    flatten_expressions_from, flatten_into, flatten_one_definition, scalar,
};

verus! {

/// Whether the definition defines a variable by a scalar term.
pub open spec fn flat_definition(d: DefinitionView) -> bool {
    d.pattern is Variable && scalar(d.value)
}

/// Whether the constraint is an equality of two scalar terms.
pub open spec fn flat_constraint(c: TExprView) -> bool {
    c.v matches ExprView::Infix(op, a, b) && op == InfixOp::Equal && scalar(*a) && scalar(*b)
}

/// Whether `after` is `before` followed by flat definitions and flat
/// constraints.
pub open spec fn extended_flat(before: ModuleView, after: ModuleView) -> bool {
    &&& before.defs.len() <= after.defs.len()
    &&& before.exprs.len() <= after.exprs.len()
    &&& forall|j: int| 0 <= j < before.defs.len() ==> #[trigger] after.defs[j] == before.defs[j]
    &&& forall|j: int| 0 <= j < before.exprs.len() ==> #[trigger] after.exprs[j] == before.exprs[j]
    &&& forall|j: int|
        before.defs.len() <= j < after.defs.len() ==> flat_definition(#[trigger] after.defs[j])
    &&& forall|j: int|
        before.exprs.len() <= j < after.exprs.len() ==> flat_constraint(#[trigger] after.exprs[j])
}

/// What extends an extension extends what that one extended.
proof fn lemma_extended_flat_trans(a: ModuleView, b: ModuleView, c: ModuleView)
    requires
        extended_flat(a, b),
        extended_flat(b, c),
    ensures
        extended_flat(a, c),
{
    assert forall|j: int| 0 <= j < a.defs.len() implies #[trigger] c.defs[j] == a.defs[j] by {
        assert(b.defs[j] == a.defs[j]);
    }
    assert forall|j: int| 0 <= j < a.exprs.len() implies #[trigger] c.exprs[j] == a.exprs[j] by {
        assert(b.exprs[j] == a.exprs[j]);
    }
    assert forall|j: int| a.defs.len() <= j < c.defs.len() implies flat_definition(
        #[trigger] c.defs[j],
    ) by {
        if j < b.defs.len() {
            assert(c.defs[j] == b.defs[j]);
        }
    }
    assert forall|j: int| a.exprs.len() <= j < c.exprs.len() implies flat_constraint(
        #[trigger] c.exprs[j],
    ) by {
        if j < b.exprs.len() {
            assert(c.exprs[j] == b.exprs[j]);
        }
    }
}

/// A binding adds flat definitions and flat constraints only.
pub proof fn lemma_bind_flat(p: PatternView, e: TExprView, m: ModuleView)
    ensures
        bind_flat(p, e, m) matches Ok(r) ==> extended_flat(m, r),
    decreases p,
{
    match p {
        PatternView::As(a, _) => {
            lemma_bind_flat(*a, e, m);
        },
        PatternView::Product(pa, pb) => {
            match e.v {
                ExprView::Product(e1, e2) => {
                    lemma_bind_flat(*pa, *e1, m);
                    match bind_flat(*pa, *e1, m) {
                        Ok(m1) => {
                            lemma_bind_flat(*pb, *e2, m1);
                            match bind_flat(*pb, *e2, m1) {
                                Ok(m2) => {
                                    lemma_extended_flat_trans(m, m1, m2);
                                },
                                Err(_) => {},
                            }
                        },
                        Err(_) => {},
                    }
                },
                _ => {},
            }
        },
        _ => {},
    }
}

/// An equality adds flat constraints only.
pub proof fn lemma_equate_flat(e1: TExprView, e2: TExprView, m: ModuleView)
    ensures
        equate_flat(e1, e2, m) matches Ok(r) ==> extended_flat(m, r),
    decreases e1,
{
    match (e1.v, e2.v) {
        (ExprView::Product(e11, e12), ExprView::Product(e21, e22)) => {
            lemma_equate_flat(*e11, *e21, m);
            match equate_flat(*e11, *e21, m) {
                Ok(m1) => {
                    lemma_equate_flat(*e12, *e22, m1);
                    match equate_flat(*e12, *e22, m1) {
                        Ok(m2) => {
                            lemma_extended_flat_trans(m, m1, m2);
                        },
                        Err(_) => {},
                    }
                },
                Err(_) => {},
            }
        },
        _ => {},
    }
}

/// Flattening an expression adds flat definitions and flat constraints only.
pub proof fn lemma_flatten(e: TExprView, m: ModuleView)
    ensures
        flatten(e, m) matches Ok(r) ==> extended_flat(m, r.module),
    decreases e, 0nat,
{
    match e.v {
        ExprView::Sequence(es) => {
            lemma_flatten_each(es, 0, Seq::empty(), m);
        },
        ExprView::Infix(op, e1, e2) => {
            lemma_flatten(*e1, m);
            match flatten(*e1, m) {
                Ok(f1) => {
                    lemma_flatten(*e2, f1.module);
                    match flatten(*e2, f1.module) {
                        Ok(f2) => {
                            lemma_extended_flat_trans(m, f1.module, f2.module);
                            if op == InfixOp::Equal {
                                lemma_equate_flat(f1.value, f2.value, f2.module);
                                match equate_flat(f1.value, f2.value, f2.module) {
                                    Ok(m2) => {
                                        lemma_extended_flat_trans(m, f2.module, m2);
                                    },
                                    Err(_) => {},
                                }
                            }
                        },
                        Err(_) => {},
                    }
                },
                Err(_) => {},
            }
        },
        ExprView::Product(e1, e2) | ExprView::Cons(e1, e2) => {
            lemma_flatten(*e1, m);
            match flatten(*e1, m) {
                Ok(f1) => {
                    lemma_flatten(*e2, f1.module);
                    match flatten(*e2, f1.module) {
                        Ok(f2) => {
                            lemma_extended_flat_trans(m, f1.module, f2.module);
                        },
                        Err(_) => {},
                    }
                },
                Err(_) => {},
            }
        },
        ExprView::Negate(e1) => {
            lemma_flatten(*e1, m);
        },
        ExprView::LetBinding(p, b, body) => {
            lemma_flatten(*b, m);
            match flatten(*b, m) {
                Ok(fb) => {
                    lemma_bind_flat(p, fb.value, fb.module);
                    match bind_flat(p, fb.value, fb.module) {
                        Ok(m1) => {
                            lemma_extended_flat_trans(m, fb.module, m1);
                            lemma_flatten(*body, m1);
                            match flatten(*body, m1) {
                                Ok(r) => {
                                    lemma_extended_flat_trans(m, m1, r.module);
                                },
                                Err(_) => {},
                            }
                        },
                        Err(_) => {},
                    }
                },
                Err(_) => {},
            }
        },
        _ => {},
    }
}

/// Flattening a list of expressions adds flat definitions and flat constraints
/// only.
proof fn lemma_flatten_each(es: Seq<TExprView>, i: nat, values: Seq<TExprView>, m: ModuleView)
    ensures
        flatten_each_from(es, i, values, m) matches Ok(r) ==> extended_flat(m, r.module),
    decreases es, es.len() - i,
{
    if i < es.len() {
        lemma_flatten(es[i as int], m);
        match flatten(es[i as int], m) {
            Ok(f) => {
                lemma_flatten_each(es, i + 1, values.push(f.value), f.module);
                match flatten_each_from(es, i + 1, values.push(f.value), f.module) {
                    Ok(r) => {
                        lemma_extended_flat_trans(m, f.module, r.module);
                    },
                    Err(_) => {},
                }
            },
            Err(_) => {},
        }
    }
}

/// Flattening definitions adds flat definitions and flat constraints only.
proof fn lemma_flatten_definitions(ds: Seq<DefinitionView>, i: nat, m: ModuleView)
    ensures
        flatten_definitions_from(ds, i, m) matches Ok(r) ==> extended_flat(m, r),
    decreases ds.len() - i,
{
    if i < ds.len() {
        let d = ds[i as int];
        lemma_flatten(d.value, m);
        match flatten(d.value, m) {
            Ok(f) => {
                lemma_bind_flat(d.pattern, f.value, f.module);
                match flatten_one_definition(d, m) {
                    Ok(m1) => {
                        lemma_extended_flat_trans(m, f.module, m1);
                        lemma_flatten_definitions(ds, i + 1, m1);
                        match flatten_definitions_from(ds, i + 1, m1) {
                            Ok(r) => {
                                lemma_extended_flat_trans(m, m1, r);
                            },
                            Err(_) => {},
                        }
                    },
                    Err(_) => {},
                }
            },
            Err(_) => {},
        }
    }
}

/// Flattening top-level expressions adds flat definitions and flat
/// constraints only.
proof fn lemma_flatten_expressions(es: Seq<TExprView>, i: nat, m: ModuleView)
    ensures
        flatten_expressions_from(es, i, m) matches Ok(r) ==> extended_flat(m, r),
    decreases es.len() - i,
{
    if i < es.len() {
        lemma_flatten(es[i as int], m);
        match flatten(es[i as int], m) {
            Ok(f) => {
                lemma_flatten_expressions(es, i + 1, f.module);
                match flatten_expressions_from(es, i + 1, f.module) {
                    Ok(r) => {
                        lemma_extended_flat_trans(m, f.module, r);
                    },
                    Err(_) => {},
                }
            },
            Err(_) => {},
        }
    }
}

/// Flattening a module only appends, and what it appends is flat: every
/// definition defines a variable by a scalar term, and every constraint is
/// one equality of two scalar terms.
pub proof fn lemma_flattened_module_is_flat(m: ModuleView, flat: ModuleView)
    ensures
        flatten_into(m, flat) matches Ok(r) ==> extended_flat(flat, r),
{
    lemma_flatten_definitions(m.defs, 0, flat);
    match flatten_definitions_from(m.defs, 0, flat) {
        Ok(m1) => {
            lemma_flatten_expressions(m.exprs, 0, m1);
            match flatten_expressions_from(m.exprs, 0, m1) {
                Ok(r) => {
                    lemma_extended_flat_trans(flat, m1, r);
                },
                Err(_) => {},
            }
        },
        Err(_) => {},
    }
}

} // verus!
