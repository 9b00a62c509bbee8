//! The reduction to three-address form: every right-hand side becomes at most
//! one operator over constants and variables, with temporaries for what lies
//! between.

use vstd::prelude::*;
use std::collections::HashSet;
use crate::ast::{
    Definition, DefinitionView, Expr, ExprView, InfixOp, LetBinding, Module, ModuleView, Pattern,
    PatternView, TExpr, TExprView, Type, TypeView, Variable, VariableId, anonymous, clone_pattern,
    clone_texpr, definitions_view, untyped,
};
use crate::env::{is_witness, push_definition, push_texpr};
use crate::error::{CompileError, ErrorView};
use crate::vargen::{VarGen, mint};

verus! {

/// The binary operation `op` on `e1` and `e2` after the simplifications that
/// a unit or a zero operand allows, the first that applies:
/// `1 * x` and `x * 1` are `x`; `0 * x` and `x * 0` are the zero operand;
/// `x / 1` and `x div 1` are `x`; `x mod 1` is `0`; `0 + x` and `x + 0` are
/// `x`; `x - 0` is `x`. An equality has the unit type, any other operation
/// the integer type.
pub open spec fn simplify(op: InfixOp, e1: TExprView, e2: TExprView) -> TExprView {
    if op == InfixOp::Multiply && e1.v == ExprView::Constant(1) {
        e2
    } else if op == InfixOp::Multiply && e2.v == ExprView::Constant(1) {
        e1
    } else if op == InfixOp::Multiply && e1.v == ExprView::Constant(0) {
        e1
    } else if op == InfixOp::Multiply && e2.v == ExprView::Constant(0) {
        e2
    } else if op == InfixOp::Divide && e2.v == ExprView::Constant(1) {
        e1
    } else if op == InfixOp::IntDivide && e2.v == ExprView::Constant(1) {
        e1
    } else if op == InfixOp::Modulo && e2.v == ExprView::Constant(1) {
        TExprView { v: ExprView::Constant(0), t: Some(TypeView::Int) }
    } else if op == InfixOp::Add && e1.v == ExprView::Constant(0) {
        e2
    } else if op == InfixOp::Add && e2.v == ExprView::Constant(0) {
        e1
    } else if op == InfixOp::Subtract && e2.v == ExprView::Constant(0) {
        e1
    } else if op == InfixOp::Equal {
        TExprView { v: ExprView::Infix(op, Box::new(e1), Box::new(e2)), t: Some(TypeView::Unit) }
    } else {
        TExprView { v: ExprView::Infix(op, Box::new(e1), Box::new(e2)), t: Some(TypeView::Int) }
    }
}

/// Whether the expression is the constant `c`.
fn is_constant(e: &TExpr, c: i32) -> (r: bool)
    ensures
        r == (e@.v == ExprView::Constant(c)),
{
    match &e.v {
        Expr::Constant(k) => *k == c,
        _ => false,
    }
}

/// Produces the given binary operation, with the simplifications that a unit
/// or a zero operand allows.
pub fn infix_op(op: InfixOp, e1: TExpr, e2: TExpr) -> (r: TExpr)
    ensures
        r@ == simplify(op, e1@, e2@),
{
    match op {
        InfixOp::Multiply => {
            if is_constant(&e1, 1) {
                e2
            } else if is_constant(&e2, 1) {
                e1
            } else if is_constant(&e1, 0) {
                e1
            } else if is_constant(&e2, 0) {
                e2
            } else {
                TExpr { v: Expr::Infix(op, Box::new(e1), Box::new(e2)), t: Some(Type::Int) }
            }
        },
        InfixOp::Divide | InfixOp::IntDivide => {
            if is_constant(&e2, 1) {
                e1
            } else {
                TExpr { v: Expr::Infix(op, Box::new(e1), Box::new(e2)), t: Some(Type::Int) }
            }
        },
        InfixOp::Modulo => {
            if is_constant(&e2, 1) {
                TExpr { v: Expr::Constant(0), t: Some(Type::Int) }
            } else {
                TExpr { v: Expr::Infix(op, Box::new(e1), Box::new(e2)), t: Some(Type::Int) }
            }
        },
        InfixOp::Add => {
            if is_constant(&e1, 0) {
                e2
            } else if is_constant(&e2, 0) {
                e1
            } else {
                TExpr { v: Expr::Infix(op, Box::new(e1), Box::new(e2)), t: Some(Type::Int) }
            }
        },
        InfixOp::Subtract => {
            if is_constant(&e2, 0) {
                e1
            } else {
                TExpr { v: Expr::Infix(op, Box::new(e1), Box::new(e2)), t: Some(Type::Int) }
            }
        },
        InfixOp::Equal => TExpr {
            v: Expr::Infix(op, Box::new(e1), Box::new(e2)),
            t: Some(Type::Unit),
        },
        InfixOp::Exponentiate => TExpr {
            v: Expr::Infix(op, Box::new(e1), Box::new(e2)),
            t: Some(Type::Int),
        },
    }
}

/// The expression that a pattern stands for: an alias stands for its pattern.
pub open spec fn pattern_expr(p: PatternView) -> TExprView
    decreases p,
{
    match p {
        PatternView::Unit => untyped(ExprView::Unit),
        PatternView::Nil => untyped(ExprView::Nil),
        PatternView::Constant(c) => untyped(ExprView::Constant(c)),
        PatternView::Variable(v) => untyped(ExprView::Variable(v)),
        PatternView::As(a, _) => pattern_expr(*a),
        PatternView::Product(a, b) => untyped(
            ExprView::Product(Box::new(pattern_expr(*a)), Box::new(pattern_expr(*b))),
        ),
        PatternView::Cons(a, b) => untyped(
            ExprView::Cons(Box::new(pattern_expr(*a)), Box::new(pattern_expr(*b))),
        ),
    }
}

impl Pattern {
    /// The expression that the pattern stands for.
    pub fn to_expr(&self) -> (r: TExpr)
        ensures
            r@ == pattern_expr(self@),
        decreases self,
    {
        match self {
            Pattern::Unit => TExpr::untyped(Expr::Unit),
            Pattern::Nil => TExpr::untyped(Expr::Nil),
            Pattern::Constant(c) => TExpr::untyped(Expr::Constant(*c)),
            Pattern::Variable(v) => TExpr::untyped(Expr::Variable(v.clone())),
            Pattern::As(a, _) => a.to_expr(),
            Pattern::Product(a, b) => TExpr::untyped(
                Expr::Product(Box::new(a.to_expr()), Box::new(b.to_expr())),
            ),
            Pattern::Cons(a, b) => TExpr::untyped(
                Expr::Cons(Box::new(a.to_expr()), Box::new(b.to_expr())),
            ),
        }
    }
}

/// What a reduction gives: the term that holds the result, and the
/// definitions, the constraints and the generator position after it.
pub struct Reduced {
    pub out: PatternView,
    pub defs: Seq<DefinitionView>,
    pub exprs: Seq<TExprView>,
    pub next: nat,
}

/// The constraint `out = rhs` and the definition `out := rhs`, appended.
pub open spec fn emit(
    out: PatternView,
    rhs: TExprView,
    defs: Seq<DefinitionView>,
    exprs: Seq<TExprView>,
    next: nat,
) -> Reduced {
    Reduced {
        out,
        defs: defs.push(DefinitionView { pattern: out, value: rhs }),
        exprs: exprs.push(
            untyped(ExprView::Infix(InfixOp::Equal, Box::new(pattern_expr(out)), Box::new(rhs))),
        ),
        next,
    }
}

/// `emit` for the given term, or for a new temporary where none is given. An
/// identifier is issued in both cases.
pub open spec fn emit_fresh(
    out: Option<PatternView>,
    rhs: TExprView,
    defs: Seq<DefinitionView>,
    exprs: Seq<TExprView>,
    next: nat,
) -> Result<Reduced, ErrorView> {
    match mint(next) {
        Ok((id, next1)) => Ok(
            emit(
                match out {
                    Some(p) => p,
                    None => PatternView::Variable(anonymous(id)),
                },
                rhs,
                defs,
                exprs,
                next1,
            ),
        ),
        Err(x) => Err(x),
    }
}

/// The absolute value of an exponent, scaled, with one more for a negative
/// one: the measure by which the reduction of a power goes down.
pub open spec fn exponent_weight(k: i32) -> nat {
    if k < 0 {
        (5 * (1 - k) + 1) as nat
    } else {
        (5 * (k + 1)) as nat
    }
}

/// The measure by which the reduction of an expression goes down.
pub open spec fn weight(e: TExprView) -> nat
    decreases e,
{
    match e.v {
        ExprView::Negate(a) => 1 + weight(*a),
        ExprView::Infix(op, a, b) => if op == InfixOp::Exponentiate {
            match b.v {
                ExprView::Constant(k) => weight(*a) + exponent_weight(k),
                _ => 1,
            }
        } else {
            1 + weight(*a) + weight(*b)
        },
        _ => 1,
    }
}

/// Every expression weighs something.
pub proof fn lemma_weight_positive(e: TExprView)
    ensures
        weight(e) >= 1,
    decreases e,
{
    match e.v {
        ExprView::Infix(op, a, b) => {
            lemma_weight_positive(*a);
        },
        _ => {},
    }
}

/// The expression that a pattern stands for has the least weight.
pub proof fn lemma_pattern_weight(p: PatternView)
    ensures
        weight(pattern_expr(p)) == 1,
    decreases p,
{
    match p {
        PatternView::As(a, _) => {
            lemma_pattern_weight(*a);
        },
        _ => {},
    }
}

/// A simplified operation weighs no more than the operation.
pub proof fn lemma_simplify_weight(op: InfixOp, a: TExprView, b: TExprView)
    requires
        op != InfixOp::Exponentiate,
    ensures
        weight(simplify(op, a, b)) <= 1 + weight(a) + weight(b),
{
    lemma_weight_positive(a);
    lemma_weight_positive(b);
}

/// The power of `base` to a constant exponent of at least two.
pub open spec fn power(base: TExprView, k: i32) -> TExprView {
    untyped(
        ExprView::Infix(
            InfixOp::Exponentiate,
            Box::new(base),
            Box::new(untyped(ExprView::Constant(k))),
        ),
    )
}

/// The reduction of `e` to a single term, with the definitions of its parts
/// appended to `defs` and the constraints that state them appended to
/// `exprs`. The result is held by `out` where one is given, and else by the
/// expression itself if it is a constant or a variable, or by a new temporary.
///
/// A negation and a binary operation reduce their operands, left first, to
/// terms, and emit one definition over those terms. A power needs an integer
/// constant as exponent, or it is `SymbolicExponent`: the exponent 0 gives 1,
/// the exponent 1 the base, a larger one is computed by squaring the power to
/// half the exponent, and a negative one as the reciprocal of the power to
/// the opposite exponent. Anything else is `InternalInvariantViolation`.
pub open spec fn reduce(
    out: Option<PatternView>,
    e: TExprView,
    defs: Seq<DefinitionView>,
    exprs: Seq<TExprView>,
    next: nat,
) -> Result<Reduced, ErrorView>
    decreases weight(e),
{
    match e.v {
        ExprView::Constant(c) => match out {
            None => Ok(Reduced { out: PatternView::Constant(c), defs, exprs, next }),
            Some(p) => Ok(emit(p, e, defs, exprs, next)),
        },
        ExprView::Variable(v) => match out {
            None => Ok(Reduced { out: PatternView::Variable(v), defs, exprs, next }),
            Some(p) => Ok(emit(p, e, defs, exprs, next)),
        },
        ExprView::Negate(a) => match reduce(None, *a, defs, exprs, next) {
            Ok(r) => emit_fresh(
                out,
                untyped(ExprView::Negate(Box::new(pattern_expr(r.out)))),
                r.defs,
                r.exprs,
                r.next,
            ),
            Err(x) => Err(x),
        },
        ExprView::Infix(op, a, b) => if op == InfixOp::Exponentiate {
            match b.v {
                ExprView::Constant(k) => {
                    proof {
                        lemma_weight_positive(*a);
                        lemma_weight_positive(e);
                    }
                    if k == 0 {
                        reduce(out, untyped(ExprView::Constant(1)), defs, exprs, next)
                    } else if k == 1 {
                        reduce(out, *a, defs, exprs, next)
                    } else if k > 1 {
                        square_and_multiply(out, *a, (k / 2) as i32, k % 2 == 1, defs, exprs, next)
                    } else {
                        match if k == i32::MIN {
                            square_and_multiply(None, *a, 0x4000_0000, false, defs, exprs, next)
                        } else {
                            reduce(None, power(*a, (-k) as i32), defs, exprs, next)
                        } {
                            Ok(r) => {
                                proof {
                                    lemma_pattern_weight(r.out);
                                    lemma_simplify_weight(
                                        InfixOp::Divide,
                                        untyped(ExprView::Constant(1)),
                                        pattern_expr(r.out),
                                    );
                                }
                                reduce(
                                    out,
                                    simplify(
                                        InfixOp::Divide,
                                        untyped(ExprView::Constant(1)),
                                        pattern_expr(r.out),
                                    ),
                                    r.defs,
                                    r.exprs,
                                    r.next,
                                )
                            },
                            Err(x) => Err(x),
                        }
                    }
                },
                _ => Err(ErrorView::SymbolicExponent(*b)),
            }
        } else {
            match reduce(None, *a, defs, exprs, next) {
                Ok(ra) => match reduce(None, *b, ra.defs, ra.exprs, ra.next) {
                    Ok(rb) => emit_fresh(
                        out,
                        simplify(op, pattern_expr(ra.out), pattern_expr(rb.out)),
                        rb.defs,
                        rb.exprs,
                        rb.next,
                    ),
                    Err(x) => Err(x),
                },
                Err(x) => Err(x),
            }
        },
        _ => Err(ErrorView::InternalInvariantViolation),
    }
}

/// The reduction of `base` to the power `2 * half`, or `2 * half + 1` where
/// `odd`, for `half >= 1`: the base is reduced once, then its power to `half`,
/// which is squared and, where `odd`, multiplied by the base once more.
pub open spec fn square_and_multiply(
    out: Option<PatternView>,
    base: TExprView,
    half: i32,
    odd: bool,
    defs: Seq<DefinitionView>,
    exprs: Seq<TExprView>,
    next: nat,
) -> Result<Reduced, ErrorView>
    decreases weight(base) + exponent_weight(half) + 4,
{
    match reduce(None, base, defs, exprs, next) {
        Ok(r1) => {
            proof {
                lemma_weight_positive(base);
                lemma_pattern_weight(r1.out);
            }
            match reduce(None, power(pattern_expr(r1.out), half), r1.defs, r1.exprs, r1.next) {
                Ok(r2) => {
                    proof {
                        lemma_pattern_weight(r2.out);
                        lemma_simplify_weight(
                            InfixOp::Multiply,
                            pattern_expr(r2.out),
                            pattern_expr(r2.out),
                        );
                        lemma_simplify_weight(
                            InfixOp::Multiply,
                            simplify(InfixOp::Multiply, pattern_expr(r2.out), pattern_expr(r2.out)),
                            pattern_expr(r1.out),
                        );
                    }
                    reduce(
                        out,
                        multiply_square(pattern_expr(r2.out), pattern_expr(r1.out), odd),
                        r2.defs,
                        r2.exprs,
                        r2.next,
                    )
                },
                Err(x) => Err(x),
            }
        },
        Err(x) => Err(x),
    }
}

/// The square of `root`, multiplied by `base` where `odd`.
pub open spec fn multiply_square(root: TExprView, base: TExprView, odd: bool) -> TExprView {
    if odd {
        simplify(InfixOp::Multiply, simplify(InfixOp::Multiply, root, root), base)
    } else {
        simplify(InfixOp::Multiply, root, root)
    }
}

/// Whether the expression is a constant or a variable.
pub open spec fn atomic(e: TExprView) -> bool {
    e.v is Constant || e.v is Variable
}

/// Whether the pattern is a constant or a variable.
pub open spec fn atomic_pattern(p: PatternView) -> bool {
    p is Constant || p is Variable
}

/// Whether the expression is in three-address form: a constant, a variable,
/// the negation of one of these, or one binary operator over two of these.
pub open spec fn three_address(e: TExprView) -> bool {
    ||| atomic(e)
    ||| e.v matches ExprView::Negate(a) && atomic(*a)
    ||| e.v matches ExprView::Infix(_, a, b) && atomic(*a) && atomic(*b)
}

/// Whether the expression is an equality whose right-hand side is in
/// three-address form.
pub open spec fn three_address_constraint(e: TExprView) -> bool {
    e.v matches ExprView::Infix(op, _, b) && op == InfixOp::Equal && three_address(*b)
}

/// Whether `after` is `before` followed by definitions in three-address form.
pub open spec fn extended_by_reduced_definitions(
    before: Seq<DefinitionView>,
    after: Seq<DefinitionView>,
) -> bool {
    &&& before.len() <= after.len()
    &&& forall|j: int| 0 <= j < before.len() ==> #[trigger] after[j] == before[j]
    &&& forall|j: int|
        before.len() <= j < after.len() ==> three_address((#[trigger] after[j]).value)
}

/// Whether `after` is `before` followed by constraints in three-address form.
pub open spec fn extended_by_reduced_constraints(
    before: Seq<TExprView>,
    after: Seq<TExprView>,
) -> bool {
    &&& before.len() <= after.len()
    &&& forall|j: int| 0 <= j < before.len() ==> #[trigger] after[j] == before[j]
    &&& forall|j: int|
        before.len() <= j < after.len() ==> three_address_constraint(#[trigger] after[j])
}

/// Whether every definition that `after` has beyond `before` defines a
/// variable, but for the last one where `but_last`.
pub open spec fn defines_temporaries(
    before: Seq<DefinitionView>,
    after: Seq<DefinitionView>,
    but_last: bool,
) -> bool {
    forall|j: int|
        before.len() <= j < after.len() && !(but_last && j == after.len() - 1) ==> (
        #[trigger] after[j]).pattern is Variable
}

/// What holds of every reduction that succeeds.
pub open spec fn well_reduced(
    out: Option<PatternView>,
    defs: Seq<DefinitionView>,
    exprs: Seq<TExprView>,
    next: nat,
    r: Reduced,
) -> bool {
    &&& match out {
        Some(p) => r.out == p && r.defs.len() > defs.len() && r.defs.last().pattern == p,
        None => atomic_pattern(r.out),
    }
    &&& extended_by_reduced_definitions(defs, r.defs)
    &&& extended_by_reduced_constraints(exprs, r.exprs)
    &&& defines_temporaries(defs, r.defs, out is Some)
    &&& r.defs.len() - defs.len() == r.exprs.len() - exprs.len()
    &&& next <= r.next
}

/// A reduction only appends, and every definition that it appends has a
/// right-hand side in three-address form: a constant, a variable, the
/// negation of one of these, or one operator over two of these. Where a term
/// is given to hold the result, the last definition defines that term; where
/// none is given, the result is a constant or a variable. Every other
/// definition that it appends defines a variable, a temporary.
pub proof fn lemma_reduce_shape(
    out: Option<PatternView>,
    e: TExprView,
    defs: Seq<DefinitionView>,
    exprs: Seq<TExprView>,
    next: nat,
)
    ensures
        match reduce(out, e, defs, exprs, next) {
            Ok(r) => well_reduced(out, defs, exprs, next, r),
            Err(_) => true,
        },
    decreases weight(e),
{
    match e.v {
        ExprView::Negate(a) => {
            lemma_reduce_shape(None, *a, defs, exprs, next);
        },
        ExprView::Infix(op, a, b) => {
            if op == InfixOp::Exponentiate {
                match b.v {
                    ExprView::Constant(k) => {
                        lemma_weight_positive(*a);
                        lemma_weight_positive(e);
                        if k == 0 {
                            lemma_reduce_shape(
                                out,
                                untyped(ExprView::Constant(1)),
                                defs,
                                exprs,
                                next,
                            );
                        } else if k == 1 {
                            lemma_reduce_shape(out, *a, defs, exprs, next);
                        } else if k > 1 {
                            lemma_square_and_multiply_shape(
                                out,
                                *a,
                                (k / 2) as i32,
                                k % 2 == 1,
                                defs,
                                exprs,
                                next,
                            );
                        } else {
                            let first = if k == i32::MIN {
                                lemma_square_and_multiply_shape(
                                    None,
                                    *a,
                                    0x4000_0000,
                                    false,
                                    defs,
                                    exprs,
                                    next,
                                );
                                square_and_multiply(None, *a, 0x4000_0000, false, defs, exprs, next)
                            } else {
                                lemma_reduce_shape(
                                    None,
                                    power(*a, (-k) as i32),
                                    defs,
                                    exprs,
                                    next,
                                );
                                reduce(None, power(*a, (-k) as i32), defs, exprs, next)
                            };
                            match first {
                                Ok(r) => {
                                    lemma_pattern_weight(r.out);
                                    lemma_simplify_weight(
                                        InfixOp::Divide,
                                        untyped(ExprView::Constant(1)),
                                        pattern_expr(r.out),
                                    );
                                    lemma_reduce_shape(
                                        out,
                                        simplify(
                                            InfixOp::Divide,
                                            untyped(ExprView::Constant(1)),
                                            pattern_expr(r.out),
                                        ),
                                        r.defs,
                                        r.exprs,
                                        r.next,
                                    );
                                },
                                Err(_) => {},
                            }
                        }
                    },
                    _ => {},
                }
            } else {
                lemma_reduce_shape(None, *a, defs, exprs, next);
                match reduce(None, *a, defs, exprs, next) {
                    Ok(ra) => {
                        lemma_reduce_shape(None, *b, ra.defs, ra.exprs, ra.next);
                    },
                    Err(_) => {},
                }
            }
        },
        _ => {},
    }
}

/// What holds of every reduction of a power by squaring that succeeds.
proof fn lemma_square_and_multiply_shape(
    out: Option<PatternView>,
    base: TExprView,
    half: i32,
    odd: bool,
    defs: Seq<DefinitionView>,
    exprs: Seq<TExprView>,
    next: nat,
)
    ensures
        match square_and_multiply(out, base, half, odd, defs, exprs, next) {
            Ok(r) => well_reduced(out, defs, exprs, next, r),
            Err(_) => true,
        },
    decreases weight(base) + exponent_weight(half) + 4,
{
    lemma_reduce_shape(None, base, defs, exprs, next);
    match reduce(None, base, defs, exprs, next) {
        Ok(r1) => {
            lemma_weight_positive(base);
            lemma_pattern_weight(r1.out);
            lemma_reduce_shape(
                None,
                power(pattern_expr(r1.out), half),
                r1.defs,
                r1.exprs,
                r1.next,
            );
            match reduce(None, power(pattern_expr(r1.out), half), r1.defs, r1.exprs, r1.next) {
                Ok(r2) => {
                    lemma_pattern_weight(r2.out);
                    lemma_simplify_weight(
                        InfixOp::Multiply,
                        pattern_expr(r2.out),
                        pattern_expr(r2.out),
                    );
                    lemma_simplify_weight(
                        InfixOp::Multiply,
                        simplify(InfixOp::Multiply, pattern_expr(r2.out), pattern_expr(r2.out)),
                        pattern_expr(r1.out),
                    );
                    lemma_reduce_shape(
                        out,
                        multiply_square(pattern_expr(r2.out), pattern_expr(r1.out), odd),
                        r2.defs,
                        r2.exprs,
                        r2.next,
                    );
                },
                Err(_) => {},
            }
        },
        Err(_) => {},
    }
}

/// The model of an optional pattern.
pub open spec fn opt_pattern_view(p: Option<Pattern>) -> Option<PatternView> {
    match p {
        Some(p) => Some(p@),
        None => None,
    }
}

/// Whether the outcome `r` of an executable reduction, with the module and
/// the generator as it left them, is what the model `m` prescribes. After an
/// error the module is unspecified.
pub open spec fn reduced_as(
    m: Result<Reduced, ErrorView>,
    r: Result<Pattern, CompileError>,
    module: ModuleView,
    next: nat,
) -> bool {
    match r {
        Ok(out) => m == Ok::<Reduced, ErrorView>(
            Reduced { out: out@, defs: module.defs, exprs: module.exprs, next },
        ),
        Err(e) => m == Err::<Reduced, ErrorView>(e@),
    }
}

/// Appends the equality that constrains `out` to the value of `expr`, and the
/// definition that lets a prover compute `out`.
pub fn push_constraint_def(module: &mut Module, out: Pattern, expr: TExpr)
    ensures
        final(module)@.defs == old(module)@.defs.push(
            DefinitionView { pattern: out@, value: expr@ },
        ),
        final(module)@.exprs == old(module)@.exprs.push(
            untyped(
                ExprView::Infix(InfixOp::Equal, Box::new(pattern_expr(out@)), Box::new(expr@)),
            ),
        ),
{
    let constraint = TExpr::untyped(
        Expr::Infix(InfixOp::Equal, Box::new(out.to_expr()), Box::new(clone_texpr(&expr))),
    );
    push_texpr(&mut module.exprs, constraint);
    push_definition(&mut module.defs, Definition(LetBinding(out, Box::new(expr))));
}

/// Pushes the constraint and the definition of `rhs` for the given term, or
/// for a new temporary where none is given.
fn push_fresh(out: Option<Pattern>, rhs: TExpr, flattened: &mut Module, gen: &mut VarGen) -> (r:
    Result<Pattern, CompileError>)
    ensures
        reduced_as(
            emit_fresh(
                opt_pattern_view(out),
                rhs@,
                old(flattened)@.defs,
                old(flattened)@.exprs,
                old(gen)@,
            ),
            r,
            final(flattened)@,
            final(gen)@,
        ),
{
    let id = gen.try_generate_id()?;
    let out = match out {
        Some(p) => p,
        None => Pattern::Variable(Variable::new(id)),
    };
    push_constraint_def(flattened, clone_pattern(&out), rhs);
    Ok(out)
}

/// The power of `base` to the constant `k`.
fn power_of(base: TExpr, k: i32) -> (r: TExpr)
    ensures
        r@ == power(base@, k),
{
    let exponent = TExpr::untyped(Expr::Constant(k));
    TExpr::untyped(Expr::Infix(InfixOp::Exponentiate, Box::new(base), Box::new(exponent)))
}

/// Flattens the given expression down to a single term and places the
/// definitions of its parts into the given module.
pub fn flatten_expr_to_3ac(
    out: Option<Pattern>,
    expr: &TExpr,
    flattened: &mut Module,
    gen: &mut VarGen,
) -> (r: Result<Pattern, CompileError>)
    ensures
        reduced_as(
            reduce(
                opt_pattern_view(out),
                expr@,
                old(flattened)@.defs,
                old(flattened)@.exprs,
                old(gen)@,
            ),
            r,
            final(flattened)@,
            final(gen)@,
        ),
    decreases weight(expr@), 1nat,
{
    match &expr.v {
        Expr::Constant(c) => match out {
            None => Ok(Pattern::Constant(*c)),
            Some(p) => {
                push_constraint_def(flattened, clone_pattern(&p), clone_texpr(expr));
                Ok(p)
            },
        },
        Expr::Variable(v) => match out {
            None => Ok(Pattern::Variable(v.clone())),
            Some(p) => {
                push_constraint_def(flattened, clone_pattern(&p), clone_texpr(expr));
                Ok(p)
            },
        },
        Expr::Negate(a) => {
            let term = flatten_expr_to_3ac(None, a, flattened, gen)?;
            let rhs = TExpr::untyped(Expr::Negate(Box::new(term.to_expr())));
            push_fresh(out, rhs, flattened, gen)
        },
        Expr::Infix(op, a, b) => {
            if let InfixOp::Exponentiate = op {
                match &b.v {
                    Expr::Constant(k) => flatten_exponent(out, expr, a, *k, flattened, gen),
                    _ => Err(CompileError::SymbolicExponent(clone_texpr(b))),
                }
            } else {
                let left = flatten_expr_to_3ac(None, a, flattened, gen)?;
                let right = flatten_expr_to_3ac(None, b, flattened, gen)?;
                let rhs = infix_op(*op, left.to_expr(), right.to_expr());
                push_fresh(out, rhs, flattened, gen)
            }
        },
        _ => Err(CompileError::InternalInvariantViolation),
    }
}

/// Reduces the power `expr` of `base` to the constant exponent `k`.
fn flatten_exponent(
    out: Option<Pattern>,
    expr: &TExpr,
    base: &TExpr,
    k: i32,
    flattened: &mut Module,
    gen: &mut VarGen,
) -> (r: Result<Pattern, CompileError>)
    requires
        expr@.v matches ExprView::Infix(op, a, b) && op == InfixOp::Exponentiate && *a == base@
            && b.v == ExprView::Constant(k),
    ensures
        reduced_as(
            reduce(
                opt_pattern_view(out),
                expr@,
                old(flattened)@.defs,
                old(flattened)@.exprs,
                old(gen)@,
            ),
            r,
            final(flattened)@,
            final(gen)@,
        ),
    decreases weight(expr@), 0nat,
{
    proof {
        lemma_weight_positive(base@);
        lemma_weight_positive(expr@);
    }
    if k == 0 {
        let one = TExpr::untyped(Expr::Constant(1));
        flatten_expr_to_3ac(out, &one, flattened, gen)
    } else if k == 1 {
        flatten_expr_to_3ac(out, base, flattened, gen)
    } else if k > 1 {
        flatten_power(out, base, k / 2, k % 2 == 1, flattened, gen)
    } else {
        let term = if k == i32::MIN {
            flatten_power(None, base, 0x4000_0000, false, flattened, gen)?
        } else {
            let opposite = power_of(clone_texpr(base), -k);
            flatten_expr_to_3ac(None, &opposite, flattened, gen)?
        };
        let rhs = infix_op(InfixOp::Divide, TExpr::untyped(Expr::Constant(1)), term.to_expr());
        proof {
            lemma_pattern_weight(term@);
            lemma_simplify_weight(
                InfixOp::Divide,
                untyped(ExprView::Constant(1)),
                pattern_expr(term@),
            );
        }
        flatten_expr_to_3ac(out, &rhs, flattened, gen)
    }
}

/// Reduces the power of `base` to twice `half`, and one more where `odd`.
fn flatten_power(
    out: Option<Pattern>,
    base: &TExpr,
    half: i32,
    odd: bool,
    flattened: &mut Module,
    gen: &mut VarGen,
) -> (r: Result<Pattern, CompileError>)
    ensures
        reduced_as(
            square_and_multiply(
                opt_pattern_view(out),
                base@,
                half,
                odd,
                old(flattened)@.defs,
                old(flattened)@.exprs,
                old(gen)@,
            ),
            r,
            final(flattened)@,
            final(gen)@,
        ),
    decreases weight(base@) + exponent_weight(half) + 4, 0nat,
{
    // The base is computed once and for all.
    let base_term = flatten_expr_to_3ac(None, base, flattened, gen)?;
    proof {
        lemma_weight_positive(base@);
        lemma_pattern_weight(base_term@);
    }
    let root = power_of(base_term.to_expr(), half);
    let root_term = flatten_expr_to_3ac(None, &root, flattened, gen)?;
    let mut rhs = infix_op(InfixOp::Multiply, root_term.to_expr(), root_term.to_expr());
    if odd {
        rhs = infix_op(InfixOp::Multiply, rhs, base_term.to_expr());
    }
    proof {
        lemma_pattern_weight(root_term@);
        lemma_simplify_weight(
            InfixOp::Multiply,
            pattern_expr(root_term@),
            pattern_expr(root_term@),
        );
        lemma_simplify_weight(
            InfixOp::Multiply,
            simplify(InfixOp::Multiply, pattern_expr(root_term@), pattern_expr(root_term@)),
            pattern_expr(base_term@),
        );
    }
    flatten_expr_to_3ac(out, &rhs, flattened, gen)
}

/// Flattens the given definition into three-address form.
pub fn flatten_def_to_3ac(def: &Definition, flattened: &mut Module, gen: &mut VarGen) -> (r: Result<
    (),
    CompileError,
>)
    ensures
        match r {
            Ok(()) => reduce(
                Some(def@.pattern),
                def@.value,
                old(flattened)@.defs,
                old(flattened)@.exprs,
                old(gen)@,
            ) == Ok::<Reduced, ErrorView>(
                Reduced {
                    out: def@.pattern,
                    defs: final(flattened)@.defs,
                    exprs: final(flattened)@.exprs,
                    next: final(gen)@,
                },
            ),
            Err(e) => reduce(
                Some(def@.pattern),
                def@.value,
                old(flattened)@.defs,
                old(flattened)@.exprs,
                old(gen)@,
            ) == Err::<Reduced, ErrorView>(e@),
        },
{
    let out = flatten_expr_to_3ac(Some(clone_pattern(&def.0.0)), &def.0.1, flattened, gen)?;
    proof {
        lemma_reduce_shape(
            Some(def@.pattern),
            def@.value,
            old(flattened)@.defs,
            old(flattened)@.exprs,
            old(gen)@,
        );
    }
    Ok(())
}

/// The definitions, the constraints and the generator position that the
/// reduction of a module has reached.
pub struct ReducedModule {
    pub defs: Seq<DefinitionView>,
    pub exprs: Seq<TExprView>,
    pub next: nat,
}

/// The reduction of one definition of a flattened module. The definition of a
/// witness is kept as it is. Any other definition of a variable is reduced
/// into that variable. A definition of anything else is
/// `InternalInvariantViolation`.
pub open spec fn reduce_definition(
    d: DefinitionView,
    prover: Set<VariableId>,
    defs: Seq<DefinitionView>,
    exprs: Seq<TExprView>,
    next: nat,
) -> Result<ReducedModule, ErrorView> {
    match d.pattern {
        PatternView::Variable(var) => if prover.contains(var.id) {
            Ok(ReducedModule { defs: defs.push(d), exprs, next })
        } else {
            match reduce(Some(d.pattern), d.value, defs, exprs, next) {
                Ok(r) => Ok(ReducedModule { defs: r.defs, exprs: r.exprs, next: r.next }),
                Err(x) => Err(x),
            }
        },
        _ => Err(ErrorView::InternalInvariantViolation),
    }
}

/// The reduction of one constraint of a flattened module. An equality with a
/// variable on one side, the left side first, has its other side reduced into
/// that variable; failing that, one with a constant on one side has its other
/// side reduced into that constant; failing that, both sides are reduced to
/// terms and the right one is reduced into the left one. The definition that
/// comes last only restates the equality and is dropped. An expression that
/// is no equality is left out.
pub open spec fn reduce_constraint(
    c: TExprView,
    defs: Seq<DefinitionView>,
    exprs: Seq<TExprView>,
    next: nat,
) -> Result<ReducedModule, ErrorView> {
    match c.v {
        ExprView::Infix(InfixOp::Equal, lhs, rhs) => match reduce_equality(
            *lhs,
            *rhs,
            defs,
            exprs,
            next,
        ) {
            Ok(r) => if r.defs.len() == 0 {
                Err(ErrorView::InternalInvariantViolation)
            } else {
                Ok(ReducedModule { defs: r.defs.drop_last(), exprs: r.exprs, next: r.next })
            },
            Err(x) => Err(x),
        },
        _ => Ok(ReducedModule { defs, exprs, next }),
    }
}

/// The reduction of the equality of `lhs` and `rhs`, before the definition
/// that restates it is dropped.
pub open spec fn reduce_equality(
    lhs: TExprView,
    rhs: TExprView,
    defs: Seq<DefinitionView>,
    exprs: Seq<TExprView>,
    next: nat,
) -> Result<Reduced, ErrorView> {
    if lhs.v is Variable {
        reduce(Some(PatternView::Variable(lhs.v->Variable_0)), rhs, defs, exprs, next)
    } else if rhs.v is Variable {
        reduce(Some(PatternView::Variable(rhs.v->Variable_0)), lhs, defs, exprs, next)
    } else if lhs.v is Constant {
        reduce(Some(PatternView::Constant(lhs.v->Constant_0)), rhs, defs, exprs, next)
    } else if rhs.v is Constant {
        reduce(Some(PatternView::Constant(rhs.v->Constant_0)), lhs, defs, exprs, next)
    } else {
        match reduce(None, lhs, defs, exprs, next) {
            Ok(l) => match reduce(None, rhs, l.defs, l.exprs, l.next) {
                Ok(r) => reduce(Some(l.out), pattern_expr(r.out), r.defs, r.exprs, r.next),
                Err(x) => Err(x),
            },
            Err(x) => Err(x),
        }
    }
}

/// The reduction of the definitions `ds[i..]`, one after another.
pub open spec fn reduce_definitions_from(
    ds: Seq<DefinitionView>,
    i: nat,
    prover: Set<VariableId>,
    defs: Seq<DefinitionView>,
    exprs: Seq<TExprView>,
    next: nat,
) -> Result<ReducedModule, ErrorView>
    decreases ds.len() - i,
{
    if i >= ds.len() {
        Ok(ReducedModule { defs, exprs, next })
    } else {
        match reduce_definition(ds[i as int], prover, defs, exprs, next) {
            Ok(r) => reduce_definitions_from(ds, i + 1, prover, r.defs, r.exprs, r.next),
            Err(x) => Err(x),
        }
    }
}

/// The reduction of the constraints `cs[i..]`, one after another.
pub open spec fn reduce_constraints_from(
    cs: Seq<TExprView>,
    i: nat,
    defs: Seq<DefinitionView>,
    exprs: Seq<TExprView>,
    next: nat,
) -> Result<ReducedModule, ErrorView>
    decreases cs.len() - i,
{
    if i >= cs.len() {
        Ok(ReducedModule { defs, exprs, next })
    } else {
        match reduce_constraint(cs[i as int], defs, exprs, next) {
            Ok(r) => reduce_constraints_from(cs, i + 1, r.defs, r.exprs, r.next),
            Err(x) => Err(x),
        }
    }
}

/// The reduction of a flattened module into `defs` and `exprs`: its
/// definitions in order, then its constraints in order.
pub open spec fn reduce_module(
    m: ModuleView,
    prover: Set<VariableId>,
    defs: Seq<DefinitionView>,
    exprs: Seq<TExprView>,
    next: nat,
) -> Result<ReducedModule, ErrorView> {
    match reduce_definitions_from(m.defs, 0, prover, defs, exprs, next) {
        Ok(r) => reduce_constraints_from(m.exprs, 0, r.defs, r.exprs, r.next),
        Err(x) => Err(x),
    }
}

/// Whether the module and the generator, as an executable reduction left
/// them, are what the model `m` prescribes.
pub open spec fn module_reduced_as(
    m: Result<ReducedModule, ErrorView>,
    r: Result<(), CompileError>,
    module: ModuleView,
    next: nat,
) -> bool {
    match r {
        Ok(()) => m == Ok::<ReducedModule, ErrorView>(
            ReducedModule { defs: module.defs, exprs: module.exprs, next },
        ),
        Err(e) => m == Err::<ReducedModule, ErrorView>(e@),
    }
}

/// Reduces one definition of a flattened module.
fn flatten_definition_to_3ac(
    def: &Definition,
    prover_defs: &HashSet<VariableId>,
    flattened: &mut Module,
    gen: &mut VarGen,
) -> (r: Result<(), CompileError>)
    ensures
        module_reduced_as(
            reduce_definition(
                def@,
                prover_defs@,
                old(flattened)@.defs,
                old(flattened)@.exprs,
                old(gen)@,
            ),
            r,
            final(flattened)@,
            final(gen)@,
        ),
{
    match &def.0.0 {
        Pattern::Variable(var) => {
            if is_witness(prover_defs, var.id) {
                push_definition(&mut flattened.defs, def.clone());
                Ok(())
            } else {
                flatten_def_to_3ac(def, flattened, gen)
            }
        },
        _ => Err(CompileError::InternalInvariantViolation),
    }
}

/// Reduces the equality of `lhs` and `rhs`.
fn flatten_equality_to_3ac(
    lhs: &TExpr,
    rhs: &TExpr,
    flattened: &mut Module,
    gen: &mut VarGen,
) -> (r: Result<Pattern, CompileError>)
    ensures
        reduced_as(
            reduce_equality(
                lhs@,
                rhs@,
                old(flattened)@.defs,
                old(flattened)@.exprs,
                old(gen)@,
            ),
            r,
            final(flattened)@,
            final(gen)@,
        ),
{
    if let Expr::Variable(var) = &lhs.v {
        flatten_expr_to_3ac(Some(Pattern::Variable(var.clone())), rhs, flattened, gen)
    } else if let Expr::Variable(var) = &rhs.v {
        flatten_expr_to_3ac(Some(Pattern::Variable(var.clone())), lhs, flattened, gen)
    } else if let Expr::Constant(c) = &lhs.v {
        flatten_expr_to_3ac(Some(Pattern::Constant(*c)), rhs, flattened, gen)
    } else if let Expr::Constant(c) = &rhs.v {
        flatten_expr_to_3ac(Some(Pattern::Constant(*c)), lhs, flattened, gen)
    } else {
        let left = flatten_expr_to_3ac(None, lhs, flattened, gen)?;
        let right = flatten_expr_to_3ac(None, rhs, flattened, gen)?;
        flatten_expr_to_3ac(Some(left), &right.to_expr(), flattened, gen)
    }
}

/// Reduces one constraint of a flattened module.
fn flatten_constraint_to_3ac(c: &TExpr, flattened: &mut Module, gen: &mut VarGen) -> (r: Result<
    (),
    CompileError,
>)
    ensures
        module_reduced_as(
            reduce_constraint(c@, old(flattened)@.defs, old(flattened)@.exprs, old(gen)@),
            r,
            final(flattened)@,
            final(gen)@,
        ),
{
    match &c.v {
        Expr::Infix(InfixOp::Equal, lhs, rhs) => {
            let _out = flatten_equality_to_3ac(lhs, rhs, flattened, gen)?;
            // The last definition only restates the equality.
            let ghost before = definitions_view(flattened.defs@);
            assert(before.len() == flattened.defs.len());
            match flattened.defs.pop() {
                Some(_) => {
                    assert(definitions_view(flattened.defs@) =~= before.drop_last());
                    Ok(())
                },
                None => Err(CompileError::InternalInvariantViolation),
            }
        },
        _ => Ok(()),
    }
}

/// Flattens all definitions and constraints of the module into three-address
/// form, appending to `flattened`.
pub fn flatten_module_to_3ac(
    module: &Module,
    prover_defs: &HashSet<VariableId>,
    flattened: &mut Module,
    gen: &mut VarGen,
) -> (r: Result<(), CompileError>)
    ensures
        module_reduced_as(
            reduce_module(
                module@,
                prover_defs@,
                old(flattened)@.defs,
                old(flattened)@.exprs,
                old(gen)@,
            ),
            r,
            final(flattened)@,
            final(gen)@,
        ),
{
    let mut i: usize = 0;
    while i < module.defs.len()
        invariant
            i <= module.defs.len(),
            reduce_definitions_from(
                module@.defs,
                0,
                prover_defs@,
                old(flattened)@.defs,
                old(flattened)@.exprs,
                old(gen)@,
            ) == reduce_definitions_from(
                module@.defs,
                i as nat,
                prover_defs@,
                flattened@.defs,
                flattened@.exprs,
                gen@,
            ),
        decreases module.defs.len() - i,
    {
        flatten_definition_to_3ac(&module.defs[i], prover_defs, flattened, gen)?;
        i += 1;
    }
    let ghost after_defs = (flattened@.defs, flattened@.exprs, gen@);
    let mut k: usize = 0;
    while k < module.exprs.len()
        invariant
            k <= module.exprs.len(),
            reduce_definitions_from(
                module@.defs,
                0,
                prover_defs@,
                old(flattened)@.defs,
                old(flattened)@.exprs,
                old(gen)@,
            ) == Ok::<ReducedModule, ErrorView>(
                ReducedModule { defs: after_defs.0, exprs: after_defs.1, next: after_defs.2 },
            ),
            reduce_constraints_from(module@.exprs, 0, after_defs.0, after_defs.1, after_defs.2)
                == reduce_constraints_from(
                module@.exprs,
                k as nat,
                flattened@.defs,
                flattened@.exprs,
                gen@,
            ),
        decreases module.exprs.len() - k,
    {
        flatten_constraint_to_3ac(&module.exprs[k], flattened, gen)?;
        k += 1;
    }
    Ok(())
}

} // verus!
