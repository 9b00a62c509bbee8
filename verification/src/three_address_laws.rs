//! What holds of every reduction to three-address form: the shape of the
//! definitions, and the number of definitions that a power takes.

use vstd::prelude::*;
use crate::ast::{
    DefinitionView, ExprView, InfixOp, ModuleView, PatternView, TExprView, VariableId, untyped,
};
use crate::three_address::{
    atomic, lemma_reduce_shape, multiply_square, pattern_expr, power, reduce, reduce_constraint,
    reduce_constraints_from, reduce_definition, reduce_definitions_from, reduce_module, simplify,
    square_and_multiply, three_address,
};

verus! {

/// Whether the definition defines a witness variable.
pub open spec fn defines_witness(d: DefinitionView, prover: Set<VariableId>) -> bool {
    d.pattern matches PatternView::Variable(var) && prover.contains(var.id)
}

/// Whether `after` is `before` followed by definitions that are in
/// three-address form or define a witness.
pub open spec fn extended_by_reduced_or_witness(
    before: Seq<DefinitionView>,
    after: Seq<DefinitionView>,
    prover: Set<VariableId>,
) -> bool {
    &&& before.len() <= after.len()
    &&& forall|j: int| 0 <= j < before.len() ==> #[trigger] after[j] == before[j]
    &&& forall|j: int|
        before.len() <= j < after.len() ==> three_address((#[trigger] after[j]).value)
            || defines_witness(after[j], prover)
}

/// The reduction of a definition appends reduced or witness definitions only.
proof fn lemma_reduce_definition_shape(
    d: DefinitionView,
    prover: Set<VariableId>,
    defs: Seq<DefinitionView>,
    exprs: Seq<TExprView>,
    next: nat,
)
    ensures
        match reduce_definition(d, prover, defs, exprs, next) {
            Ok(r) => extended_by_reduced_or_witness(defs, r.defs, prover),
            Err(_) => true,
        },
{
    lemma_reduce_shape(Some(d.pattern), d.value, defs, exprs, next);
}

/// The reduction of a constraint appends reduced definitions only.
proof fn lemma_reduce_constraint_shape(
    c: TExprView,
    prover: Set<VariableId>,
    defs: Seq<DefinitionView>,
    exprs: Seq<TExprView>,
    next: nat,
)
    ensures
        match reduce_constraint(c, defs, exprs, next) {
            Ok(r) => extended_by_reduced_or_witness(defs, r.defs, prover),
            Err(_) => true,
        },
{
    match c.v {
        ExprView::Infix(InfixOp::Equal, lhs, rhs) => {
            if lhs.v is Variable {
                lemma_reduce_shape(
                    Some(PatternView::Variable(lhs.v->Variable_0)),
                    *rhs,
                    defs,
                    exprs,
                    next,
                );
            } else if rhs.v is Variable {
                lemma_reduce_shape(
                    Some(PatternView::Variable(rhs.v->Variable_0)),
                    *lhs,
                    defs,
                    exprs,
                    next,
                );
            } else if lhs.v is Constant {
                lemma_reduce_shape(
                    Some(PatternView::Constant(lhs.v->Constant_0)),
                    *rhs,
                    defs,
                    exprs,
                    next,
                );
            } else if rhs.v is Constant {
                lemma_reduce_shape(
                    Some(PatternView::Constant(rhs.v->Constant_0)),
                    *lhs,
                    defs,
                    exprs,
                    next,
                );
            } else {
                lemma_reduce_shape(None, *lhs, defs, exprs, next);
                match reduce(None, *lhs, defs, exprs, next) {
                    Ok(l) => {
                        lemma_reduce_shape(None, *rhs, l.defs, l.exprs, l.next);
                        match reduce(None, *rhs, l.defs, l.exprs, l.next) {
                            Ok(r) => {
                                lemma_reduce_shape(
                                    Some(l.out),
                                    pattern_expr(r.out),
                                    r.defs,
                                    r.exprs,
                                    r.next,
                                );
                            },
                            Err(_) => {},
                        }
                    },
                    Err(_) => {},
                }
            }
        },
        _ => {},
    }
}

/// The reduction of definitions appends reduced or witness definitions only.
proof fn lemma_reduce_definitions_shape(
    ds: Seq<DefinitionView>,
    i: nat,
    prover: Set<VariableId>,
    defs: Seq<DefinitionView>,
    exprs: Seq<TExprView>,
    next: nat,
)
    ensures
        match reduce_definitions_from(ds, i, prover, defs, exprs, next) {
            Ok(r) => extended_by_reduced_or_witness(defs, r.defs, prover),
            Err(_) => true,
        },
    decreases ds.len() - i,
{
    if i < ds.len() {
        lemma_reduce_definition_shape(ds[i as int], prover, defs, exprs, next);
        match reduce_definition(ds[i as int], prover, defs, exprs, next) {
            Ok(r) => {
                lemma_reduce_definitions_shape(ds, i + 1, prover, r.defs, r.exprs, r.next);
            },
            Err(_) => {},
        }
    }
}

/// The reduction of constraints appends reduced definitions only.
proof fn lemma_reduce_constraints_shape(
    cs: Seq<TExprView>,
    i: nat,
    prover: Set<VariableId>,
    defs: Seq<DefinitionView>,
    exprs: Seq<TExprView>,
    next: nat,
)
    ensures
        match reduce_constraints_from(cs, i, defs, exprs, next) {
            Ok(r) => extended_by_reduced_or_witness(defs, r.defs, prover),
            Err(_) => true,
        },
    decreases cs.len() - i,
{
    if i < cs.len() {
        lemma_reduce_constraint_shape(cs[i as int], prover, defs, exprs, next);
        match reduce_constraint(cs[i as int], defs, exprs, next) {
            Ok(r) => {
                lemma_reduce_constraints_shape(cs, i + 1, prover, r.defs, r.exprs, r.next);
            },
            Err(_) => {},
        }
    }
}

/// The reduction of a module only appends definitions, and the right-hand
/// side of every definition that it appends is a constant, a variable, the
/// negation of one of these, or one operator over two of these; but for the
/// definitions of witnesses, which are kept as the module has them.
pub proof fn lemma_reduced_module_is_three_address(
    m: ModuleView,
    prover: Set<VariableId>,
    defs: Seq<DefinitionView>,
    exprs: Seq<TExprView>,
    next: nat,
)
    ensures
        match reduce_module(m, prover, defs, exprs, next) {
            Ok(r) => extended_by_reduced_or_witness(defs, r.defs, prover),
            Err(_) => true,
        },
{
    lemma_reduce_definitions_shape(m.defs, 0, prover, defs, exprs, next);
    match reduce_definitions_from(m.defs, 0, prover, defs, exprs, next) {
        Ok(r) => {
            lemma_reduce_constraints_shape(m.exprs, 0, prover, r.defs, r.exprs, r.next);
        },
        Err(_) => {},
    }
}

/// Whether `after` is `before` followed by definitions of variables.
pub open spec fn extended_by_definitions_of_variables(
    before: Seq<DefinitionView>,
    after: Seq<DefinitionView>,
) -> bool {
    &&& before.len() <= after.len()
    &&& forall|j: int| 0 <= j < before.len() ==> #[trigger] after[j] == before[j]
    &&& forall|j: int| before.len() <= j < after.len() ==> (#[trigger] after[j]).pattern is Variable
}

/// The reduction of a definition appends definitions of variables only.
proof fn lemma_reduce_definition_defines_variables(
    d: DefinitionView,
    prover: Set<VariableId>,
    defs: Seq<DefinitionView>,
    exprs: Seq<TExprView>,
    next: nat,
)
    ensures
        reduce_definition(d, prover, defs, exprs, next) matches Ok(r)
            ==> extended_by_definitions_of_variables(defs, r.defs),
{
    lemma_reduce_shape(Some(d.pattern), d.value, defs, exprs, next);
}

/// The reduction of a constraint appends definitions of variables only.
proof fn lemma_reduce_constraint_defines_variables(
    c: TExprView,
    defs: Seq<DefinitionView>,
    exprs: Seq<TExprView>,
    next: nat,
)
    ensures
        reduce_constraint(c, defs, exprs, next) matches Ok(r)
            ==> extended_by_definitions_of_variables(defs, r.defs),
{
    match c.v {
        ExprView::Infix(InfixOp::Equal, lhs, rhs) => {
            if lhs.v is Variable {
                lemma_reduce_shape(
                    Some(PatternView::Variable(lhs.v->Variable_0)),
                    *rhs,
                    defs,
                    exprs,
                    next,
                );
            } else if rhs.v is Variable {
                lemma_reduce_shape(
                    Some(PatternView::Variable(rhs.v->Variable_0)),
                    *lhs,
                    defs,
                    exprs,
                    next,
                );
            } else if lhs.v is Constant {
                lemma_reduce_shape(
                    Some(PatternView::Constant(lhs.v->Constant_0)),
                    *rhs,
                    defs,
                    exprs,
                    next,
                );
            } else if rhs.v is Constant {
                lemma_reduce_shape(
                    Some(PatternView::Constant(rhs.v->Constant_0)),
                    *lhs,
                    defs,
                    exprs,
                    next,
                );
            } else {
                lemma_reduce_shape(None, *lhs, defs, exprs, next);
                match reduce(None, *lhs, defs, exprs, next) {
                    Ok(l) => {
                        lemma_reduce_shape(None, *rhs, l.defs, l.exprs, l.next);
                        match reduce(None, *rhs, l.defs, l.exprs, l.next) {
                            Ok(r) => {
                                lemma_reduce_shape(
                                    Some(l.out),
                                    pattern_expr(r.out),
                                    r.defs,
                                    r.exprs,
                                    r.next,
                                );
                            },
                            Err(_) => {},
                        }
                    },
                    Err(_) => {},
                }
            }
        },
        _ => {},
    }
}

/// The reduction of definitions appends definitions of variables only.
proof fn lemma_reduce_definitions_define_variables(
    ds: Seq<DefinitionView>,
    i: nat,
    prover: Set<VariableId>,
    defs: Seq<DefinitionView>,
    exprs: Seq<TExprView>,
    next: nat,
)
    ensures
        reduce_definitions_from(ds, i, prover, defs, exprs, next) matches Ok(r)
            ==> extended_by_definitions_of_variables(defs, r.defs),
    decreases ds.len() - i,
{
    if i < ds.len() {
        lemma_reduce_definition_defines_variables(ds[i as int], prover, defs, exprs, next);
        match reduce_definition(ds[i as int], prover, defs, exprs, next) {
            Ok(r) => {
                lemma_reduce_definitions_define_variables(
                    ds,
                    i + 1,
                    prover,
                    r.defs,
                    r.exprs,
                    r.next,
                );
            },
            Err(_) => {},
        }
    }
}

/// The reduction of constraints appends definitions of variables only.
proof fn lemma_reduce_constraints_define_variables(
    cs: Seq<TExprView>,
    i: nat,
    defs: Seq<DefinitionView>,
    exprs: Seq<TExprView>,
    next: nat,
)
    ensures
        reduce_constraints_from(cs, i, defs, exprs, next) matches Ok(r)
            ==> extended_by_definitions_of_variables(defs, r.defs),
    decreases cs.len() - i,
{
    if i < cs.len() {
        lemma_reduce_constraint_defines_variables(cs[i as int], defs, exprs, next);
        match reduce_constraint(cs[i as int], defs, exprs, next) {
            Ok(r) => {
                lemma_reduce_constraints_define_variables(cs, i + 1, r.defs, r.exprs, r.next);
            },
            Err(_) => {},
        }
    }
}

/// Every definition that the reduction of a module appends defines a
/// variable: what follows the reduction finds the definitions it wants.
pub proof fn lemma_reduced_module_defines_variables(
    m: ModuleView,
    prover: Set<VariableId>,
    defs: Seq<DefinitionView>,
    exprs: Seq<TExprView>,
    next: nat,
)
    ensures
        reduce_module(m, prover, defs, exprs, next) matches Ok(r)
            ==> extended_by_definitions_of_variables(defs, r.defs),
{
    lemma_reduce_definitions_define_variables(m.defs, 0, prover, defs, exprs, next);
    match reduce_definitions_from(m.defs, 0, prover, defs, exprs, next) {
        Ok(r) => {
            lemma_reduce_constraints_define_variables(m.exprs, 0, r.defs, r.exprs, r.next);
        },
        Err(_) => {},
    }
}

/// The number of binary digits of `k`.
pub open spec fn bit_length(k: nat) -> nat
    decreases k,
{
    if k == 0 {
        0
    } else {
        1 + bit_length(k / 2)
    }
}

/// A constant or a variable is reduced with one definition where a term is
/// given to hold it, and else with none.
proof fn lemma_atom_count(
    out: Option<PatternView>,
    e: TExprView,
    defs: Seq<DefinitionView>,
    exprs: Seq<TExprView>,
    next: nat,
)
    requires
        atomic(e),
    ensures
        reduce(out, e, defs, exprs, next) is Ok,
        reduce(out, e, defs, exprs, next)->Ok_0.next == next,
        out is None ==> reduce(out, e, defs, exprs, next)->Ok_0.defs == defs && reduce(
            out,
            e,
            defs,
            exprs,
            next,
        )->Ok_0.exprs == exprs && pattern_expr(reduce(out, e, defs, exprs, next)->Ok_0.out).v
            == e.v,
        out is Some ==> reduce(out, e, defs, exprs, next)->Ok_0.defs.len() == defs.len() + 1,
{
}

/// An operation over constants and variables is reduced with one definition.
proof fn lemma_flat_count(
    out: Option<PatternView>,
    e: TExprView,
    defs: Seq<DefinitionView>,
    exprs: Seq<TExprView>,
    next: nat,
)
    requires
        e.v matches ExprView::Infix(op, a, b) && op != InfixOp::Exponentiate && atomic(*a)
            && atomic(*b),
    ensures
        match reduce(out, e, defs, exprs, next) {
            Ok(r) => r.defs.len() == defs.len() + 1,
            Err(_) => true,
        },
{
    let a = *e.v->Infix_1;
    let b = *e.v->Infix_2;
    lemma_atom_count(None, a, defs, exprs, next);
    lemma_atom_count(None, b, defs, exprs, next);
}

/// A square, with or without a further factor, is reduced with at most two
/// definitions.
proof fn lemma_square_count(
    out: Option<PatternView>,
    root: TExprView,
    base: TExprView,
    odd: bool,
    defs: Seq<DefinitionView>,
    exprs: Seq<TExprView>,
    next: nat,
)
    requires
        atomic(root),
        atomic(base),
    ensures
        match reduce(out, multiply_square(root, base, odd), defs, exprs, next) {
            Ok(r) => r.defs.len() <= defs.len() + 2,
            Err(_) => true,
        },
{
    let square = simplify(InfixOp::Multiply, root, root);
    let rhs = multiply_square(root, base, odd);
    if atomic(square) {
        if odd {
            let product = simplify(InfixOp::Multiply, square, base);
            if atomic(product) {
                lemma_atom_count(out, product, defs, exprs, next);
            } else {
                lemma_flat_count(out, product, defs, exprs, next);
            }
        } else {
            lemma_atom_count(out, square, defs, exprs, next);
        }
    } else {
        assert(square.v == ExprView::Infix(InfixOp::Multiply, Box::new(root), Box::new(root)));
        if odd {
            let product = simplify(InfixOp::Multiply, square, base);
            if atomic(product) {
                lemma_atom_count(out, product, defs, exprs, next);
            } else if product == square {
                lemma_flat_count(out, square, defs, exprs, next);
            } else {
                assert(product.v == ExprView::Infix(
                    InfixOp::Multiply,
                    Box::new(square),
                    Box::new(base),
                ));
                lemma_flat_count(None, square, defs, exprs, next);
                match reduce(None, square, defs, exprs, next) {
                    Ok(r1) => {
                        lemma_atom_count(None, base, r1.defs, r1.exprs, r1.next);
                    },
                    Err(_) => {},
                }
            }
        } else {
            lemma_flat_count(out, square, defs, exprs, next);
        }
    }
}

/// The power of a constant or a variable to a constant `k >= 0` takes at most
/// `2 * bit_length(k)` definitions, and one more where a term is given to hold
/// the result: their number grows with the logarithm of the exponent.
pub proof fn lemma_power_gate_count(
    out: Option<PatternView>,
    e: TExprView,
    k: i32,
    defs: Seq<DefinitionView>,
    exprs: Seq<TExprView>,
    next: nat,
)
    requires
        k >= 0,
        e.v matches ExprView::Infix(op, a, b) && op == InfixOp::Exponentiate && atomic(*a) && b.v
            == ExprView::Constant(k),
    ensures
        match reduce(out, e, defs, exprs, next) {
            Ok(r) => r.defs.len() <= defs.len() + 2 * bit_length(k as nat) + (if out is Some {
                1nat
            } else {
                0nat
            }),
            Err(_) => true,
        },
    decreases k,
{
    let base = *e.v->Infix_1;
    if k == 0 {
        lemma_atom_count(out, untyped(ExprView::Constant(1)), defs, exprs, next);
    } else if k == 1 {
        lemma_atom_count(out, base, defs, exprs, next);
        assert(bit_length(1) == 1 + bit_length(0));
    } else {
        let half = (k / 2) as i32;
        let odd = k % 2 == 1;
        assert(reduce(out, e, defs, exprs, next) == square_and_multiply(
            out,
            base,
            half,
            odd,
            defs,
            exprs,
            next,
        ));
        let r1 = reduce(None, base, defs, exprs, next)->Ok_0;
        lemma_atom_count(None, base, defs, exprs, next);
        assert(atomic(pattern_expr(r1.out)));
        let root = power(pattern_expr(r1.out), half);
        lemma_power_gate_count(None, root, half, defs, exprs, next);
        match reduce(None, root, defs, exprs, next) {
            Ok(r2) => {
                lemma_reduce_shape(None, root, defs, exprs, next);
                assert(atomic(pattern_expr(r2.out)));
                lemma_square_count(
                    out,
                    pattern_expr(r2.out),
                    pattern_expr(r1.out),
                    odd,
                    r2.defs,
                    r2.exprs,
                    r2.next,
                );
                assert(bit_length(k as nat) == 1 + bit_length(half as nat));
            },
            Err(_) => {},
        }
    }
}

} // verus!
