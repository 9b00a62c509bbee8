//! Why the reduction to three-address form keeps what a module states: an
//! assignment that satisfies the reduced constraints gives every reduced
//! term the number that the term it came from denotes.

use vstd::prelude::*;
use crate::ast::{
    DefinitionView, ExprView, InfixOp, ModuleView, PatternView, TExprView, VariableId, untyped,
};
use crate::error::ErrorView;
use crate::semantics::{Interpretation, eval, satisfied};
use crate::three_address::{
    Reduced, exponent_weight, lemma_pattern_weight, lemma_reduce_shape, lemma_simplify_weight,
    lemma_weight_positive, multiply_square, pattern_expr, power, reduce, reduce_constraint,
    reduce_constraints_from, reduce_definition, reduce_definitions_from, reduce_equality,
    reduce_module, simplify, square_and_multiply, weight, well_reduced,
};

verus! {

/// Whether a power with the exponent `k` is what the reduction computes: for
/// `k > 1` the square of the power to half of `k`, times `x` once more where
/// `k` is odd, and for `k < 0` the reciprocal of the power to `-k`.
pub open spec fn power_unfolds(ops: Interpretation, x: int, k: int) -> bool {
    &&& k > 1 ==> (ops.infix)(InfixOp::Exponentiate, x, k) == product_of_halves(ops, x, k)
    &&& k < 0 ==> (ops.infix)(InfixOp::Exponentiate, x, k) == (ops.infix)(
        InfixOp::Divide,
        1,
        (ops.infix)(InfixOp::Exponentiate, x, -k),
    )
}

/// Whether the reading of the operators has the properties that the
/// simplifications and the computation of powers rely on: one is neutral for
/// products and quotients, zero is neutral for sums and differences and
/// absorbs products, everything is zero modulo one, and a power is a
/// repeated product, or the reciprocal of one. Every field has them.
pub open spec fn lawful(ops: Interpretation) -> bool {
    &&& forall|x: int| #[trigger] (ops.infix)(InfixOp::Multiply, 1, x) == x
    &&& forall|x: int| #[trigger] (ops.infix)(InfixOp::Multiply, x, 1) == x
    &&& forall|x: int| #[trigger] (ops.infix)(InfixOp::Multiply, 0, x) == 0
    &&& forall|x: int| #[trigger] (ops.infix)(InfixOp::Multiply, x, 0) == 0
    &&& forall|x: int| #[trigger] (ops.infix)(InfixOp::Divide, x, 1) == x
    &&& forall|x: int| #[trigger] (ops.infix)(InfixOp::IntDivide, x, 1) == x
    &&& forall|x: int| #[trigger] (ops.infix)(InfixOp::Modulo, x, 1) == 0
    &&& forall|x: int| #[trigger] (ops.infix)(InfixOp::Add, 0, x) == x
    &&& forall|x: int| #[trigger] (ops.infix)(InfixOp::Add, x, 0) == x
    &&& forall|x: int| #[trigger] (ops.infix)(InfixOp::Subtract, x, 0) == x
    &&& forall|x: int| #[trigger] (ops.infix)(InfixOp::Exponentiate, x, 0) == 1
    &&& forall|x: int| #[trigger] (ops.infix)(InfixOp::Exponentiate, x, 1) == x
    &&& forall|x: int, k: int| #[trigger] power_unfolds(ops, x, k)
}

/// The power of `x` to `k > 1` as the square of its power to half of `k`,
/// times `x` once more where `k` is odd.
pub open spec fn product_of_halves(ops: Interpretation, x: int, k: int) -> int {
    let root = (ops.infix)(InfixOp::Exponentiate, x, k / 2);
    let square = (ops.infix)(InfixOp::Multiply, root, root);
    if k % 2 == 1 {
        (ops.infix)(InfixOp::Multiply, square, x)
    } else {
        square
    }
}

/// Whether the assignment satisfies the constraints from the `start`-th on.
pub open spec fn satisfies_from(
    env: spec_fn(VariableId) -> int,
    ops: Interpretation,
    exprs: Seq<TExprView>,
    start: nat,
) -> bool {
    forall|j: int| start <= j < exprs.len() ==> satisfied(#[trigger] exprs[j], env, ops)
}

/// A simplified operation denotes what the operation denotes.
pub proof fn lemma_simplify_sound(
    op: InfixOp,
    a: TExprView,
    b: TExprView,
    env: spec_fn(VariableId) -> int,
    ops: Interpretation,
)
    requires
        lawful(ops),
    ensures
        eval(simplify(op, a, b), env, ops) == (ops.infix)(
            op,
            eval(a, env, ops),
            eval(b, env, ops),
        ),
{
}

/// What is satisfied from some constraint on in a list is satisfied from
/// any later constraint on in every list that the list starts with.
proof fn lemma_satisfies_part(
    env: spec_fn(VariableId) -> int,
    ops: Interpretation,
    part: Seq<TExprView>,
    all: Seq<TExprView>,
    first: nat,
    start: nat,
)
    requires
        satisfies_from(env, ops, all, first),
        first <= start,
        part.len() <= all.len(),
        forall|j: int| 0 <= j < part.len() ==> #[trigger] all[j] == part[j],
    ensures
        satisfies_from(env, ops, part, start),
{
    assert forall|j: int| start <= j < part.len() implies satisfied(
        #[trigger] part[j],
        env,
        ops,
    ) by {
        assert(all[j] == part[j]);
    }
}

/// Whether the reduced term denotes what the term `e` denotes, under every
/// assignment that satisfies the constraints that the reduction appended to
/// `exprs`.
pub open spec fn denotes(
    r: Reduced,
    e: TExprView,
    exprs: Seq<TExprView>,
    env: spec_fn(VariableId) -> int,
    ops: Interpretation,
) -> bool {
    satisfies_from(env, ops, r.exprs, exprs.len()) ==> eval(
        pattern_expr(r.out),
        env,
        ops,
    ) == eval(e, env, ops)
}

/// The reduction is sound. Under a lawful reading of the operators, every
/// assignment that satisfies the constraints that a reduction appended gives
/// the term that holds the result the number that the reduced expression
/// denotes.
pub proof fn lemma_reduce_sound(
    out: Option<PatternView>,
    e: TExprView,
    defs: Seq<DefinitionView>,
    exprs: Seq<TExprView>,
    next: nat,
    env: spec_fn(VariableId) -> int,
    ops: Interpretation,
)
    requires
        lawful(ops),
    ensures
        reduce(out, e, defs, exprs, next) matches Ok(r) ==> denotes(r, e, exprs, env, ops),
    decreases weight(e), 3nat,
{
    match reduce(out, e, defs, exprs, next) {
        Ok(r) => {
            match e.v {
                ExprView::Constant(_) | ExprView::Variable(_) => {
                    if out is Some {
                        assert(satisfies_from(env, ops, r.exprs, exprs.len()) ==> satisfied(
                            r.exprs[exprs.len() as int],
                            env,
                            ops,
                        ));
                    }
                },
                ExprView::Negate(a) => {
                    lemma_reduce_shape(None, *a, defs, exprs, next);
                    lemma_reduce_sound(None, *a, defs, exprs, next, env, ops);
                    let ra = reduce(None, *a, defs, exprs, next)->Ok_0;
                    if satisfies_from(env, ops, r.exprs, exprs.len()) {
                        lemma_satisfies_part(env, ops, ra.exprs, r.exprs, exprs.len(), exprs.len());
                        assert(satisfied(r.exprs[ra.exprs.len() as int], env, ops));
                    }
                },
                ExprView::Infix(op, a, b) => {
                    if op == InfixOp::Exponentiate {
                        lemma_power_sound(out, e, defs, exprs, next, env, ops);
                    } else {
                        lemma_reduce_shape(None, *a, defs, exprs, next);
                        lemma_reduce_sound(None, *a, defs, exprs, next, env, ops);
                        let ra = reduce(None, *a, defs, exprs, next)->Ok_0;
                        lemma_reduce_shape(None, *b, ra.defs, ra.exprs, ra.next);
                        lemma_reduce_sound(None, *b, ra.defs, ra.exprs, ra.next, env, ops);
                        let rb = reduce(None, *b, ra.defs, ra.exprs, ra.next)->Ok_0;
                        lemma_simplify_sound(
                            op,
                            pattern_expr(ra.out),
                            pattern_expr(rb.out),
                            env,
                            ops,
                        );
                        if satisfies_from(env, ops, r.exprs, exprs.len()) {
                            let n = exprs.len();
                            lemma_satisfies_part(env, ops, rb.exprs, r.exprs, n, n);
                            lemma_satisfies_part(env, ops, ra.exprs, rb.exprs, n, n);
                            lemma_satisfies_part(env, ops, rb.exprs, r.exprs, n, ra.exprs.len());
                            assert(satisfied(r.exprs[rb.exprs.len() as int], env, ops));
                        }
                    }
                },
                _ => {},
            }
        },
        Err(_) => {},
    }
}

/// The reduction of a power is sound.
proof fn lemma_power_sound(
    out: Option<PatternView>,
    e: TExprView,
    defs: Seq<DefinitionView>,
    exprs: Seq<TExprView>,
    next: nat,
    env: spec_fn(VariableId) -> int,
    ops: Interpretation,
)
    requires
        lawful(ops),
        e.v matches ExprView::Infix(op, _, _) && op == InfixOp::Exponentiate,
    ensures
        reduce(out, e, defs, exprs, next) matches Ok(r) ==> denotes(r, e, exprs, env, ops),
    decreases weight(e), 2nat,
{
    let a = *e.v->Infix_1;
    let b = *e.v->Infix_2;
    match reduce(out, e, defs, exprs, next) {
        Ok(r) => {
            let k = b.v->Constant_0;
            let x = eval(a, env, ops);
            lemma_weight_positive(a);
            lemma_weight_positive(e);
            assert(eval(b, env, ops) == k);
            assert(eval(e, env, ops) == (ops.infix)(InfixOp::Exponentiate, x, k as int));
            if k == 0 {
                lemma_reduce_sound(
                    out,
                    untyped(ExprView::Constant(1)),
                    defs,
                    exprs,
                    next,
                    env,
                    ops,
                );
            } else if k == 1 {
                lemma_reduce_sound(out, a, defs, exprs, next, env, ops);
            } else if k > 1 {
                lemma_square_and_multiply_sound(
                    out,
                    a,
                    (k / 2) as i32,
                    k % 2 == 1,
                    defs,
                    exprs,
                    next,
                    env,
                    ops,
                );
                assert(power_unfolds(ops, x, k as int));
            } else {
                lemma_reciprocal_sound(out, e, a, k, defs, exprs, next, env, ops);
            }
        },
        Err(_) => {},
    }
}

/// The number that the first step of the reduction of a power with a
/// negative exponent computes: the power with the opposite exponent.
proof fn lemma_opposite_sound(
    a: TExprView,
    k: i32,
    defs: Seq<DefinitionView>,
    exprs: Seq<TExprView>,
    next: nat,
    env: spec_fn(VariableId) -> int,
    ops: Interpretation,
)
    requires
        lawful(ops),
        k < 0,
    ensures
        opposite_power(a, k, defs, exprs, next) matches Ok(r1) ==> well_reduced(
            None,
            defs,
            exprs,
            next,
            r1,
        ) && (satisfies_from(env, ops, r1.exprs, exprs.len()) ==> eval(
            pattern_expr(r1.out),
            env,
            ops,
        ) == (ops.infix)(InfixOp::Exponentiate, eval(a, env, ops), -(k as int))),
    decreases weight(a) + exponent_weight(k), 0nat,
{
    let x = eval(a, env, ops);
    lemma_weight_positive(a);
    if k == i32::MIN {
        lemma_square_and_multiply_sound(None, a, 0x4000_0000, false, defs, exprs, next, env, ops);
        lemma_square_and_multiply_shape_of(None, a, 0x4000_0000, false, defs, exprs, next);
        assert(power_unfolds(ops, x, 0x8000_0000int));
    } else {
        let opposite = power(a, (-k) as i32);
        lemma_reduce_sound(None, opposite, defs, exprs, next, env, ops);
        lemma_reduce_shape(None, opposite, defs, exprs, next);
        assert(eval(untyped(ExprView::Constant((-k) as i32)), env, ops) == -(k as int));
        assert(eval(opposite, env, ops) == (ops.infix)(InfixOp::Exponentiate, x, -(k as int)));
    }
}

/// The first step of the reduction of the power of `a` to `k < 0`.
pub open spec fn opposite_power(
    a: TExprView,
    k: i32,
    defs: Seq<DefinitionView>,
    exprs: Seq<TExprView>,
    next: nat,
) -> Result<Reduced, ErrorView> {
    if k == i32::MIN {
        square_and_multiply(None, a, 0x4000_0000, false, defs, exprs, next)
    } else {
        reduce(None, power(a, (-k) as i32), defs, exprs, next)
    }
}

/// The reduction of a power with a negative exponent is sound.
proof fn lemma_reciprocal_sound(
    out: Option<PatternView>,
    e: TExprView,
    a: TExprView,
    k: i32,
    defs: Seq<DefinitionView>,
    exprs: Seq<TExprView>,
    next: nat,
    env: spec_fn(VariableId) -> int,
    ops: Interpretation,
)
    requires
        lawful(ops),
        k < 0,
        e.v matches ExprView::Infix(op, x, y) && op == InfixOp::Exponentiate && *x == a && y.v
            == ExprView::Constant(k),
    ensures
        reduce(out, e, defs, exprs, next) matches Ok(r) ==> denotes(r, e, exprs, env, ops),
    decreases weight(e), 1nat,
{
    match reduce(out, e, defs, exprs, next) {
        Ok(r) => {
            let x = eval(a, env, ops);
            let b = *e.v->Infix_2;
            assert(eval(b, env, ops) == k);
            lemma_weight_positive(a);
            lemma_opposite_sound(a, k, defs, exprs, next, env, ops);
            let r1 = opposite_power(a, k, defs, exprs, next)->Ok_0;
            let one = untyped(ExprView::Constant(1));
            let reciprocal = simplify(InfixOp::Divide, one, pattern_expr(r1.out));
            lemma_pattern_weight(r1.out);
            lemma_simplify_weight(InfixOp::Divide, one, pattern_expr(r1.out));
            lemma_simplify_sound(InfixOp::Divide, one, pattern_expr(r1.out), env, ops);
            lemma_reduce_shape(out, reciprocal, r1.defs, r1.exprs, r1.next);
            lemma_reduce_sound(out, reciprocal, r1.defs, r1.exprs, r1.next, env, ops);
            assert(r == reduce(out, reciprocal, r1.defs, r1.exprs, r1.next)->Ok_0);
            if satisfies_from(env, ops, r.exprs, exprs.len()) {
                let n = exprs.len();
                lemma_satisfies_part(env, ops, r1.exprs, r.exprs, n, n);
                lemma_satisfies_part(env, ops, r.exprs, r.exprs, n, r1.exprs.len());
                assert(power_unfolds(ops, x, k as int));
                assert(eval(one, env, ops) == 1);
                assert(eval(e, env, ops) == (ops.infix)(InfixOp::Exponentiate, x, k as int));
            }
        },
        Err(_) => {},
    }
}

/// What holds of the shape of a reduction by squaring, by its name here.
proof fn lemma_square_and_multiply_shape_of(
    out: Option<PatternView>,
    base: TExprView,
    half: i32,
    odd: bool,
    defs: Seq<DefinitionView>,
    exprs: Seq<TExprView>,
    next: nat,
)
    ensures
        square_and_multiply(out, base, half, odd, defs, exprs, next) matches Ok(r) ==> well_reduced(
            out,
            defs,
            exprs,
            next,
            r,
        ),
{
    lemma_reduce_shape(None, base, defs, exprs, next);
    match reduce(None, base, defs, exprs, next) {
        Ok(r1) => {
            let root = power(pattern_expr(r1.out), half);
            lemma_reduce_shape(None, root, r1.defs, r1.exprs, r1.next);
            match reduce(None, root, r1.defs, r1.exprs, r1.next) {
                Ok(r2) => {
                    lemma_reduce_shape(
                        out,
                        multiply_square(pattern_expr(r2.out), pattern_expr(r1.out), odd),
                        r2.defs,
                        r2.exprs,
                        r2.next,
                    );
                },
                Err(_) => {},
            }
        },
        Err(_) => {},
    }
}

/// The reduction of a power by squaring is sound: the result denotes the
/// square of the power to `half`, times the base once more where `odd`.
proof fn lemma_square_and_multiply_sound(
    out: Option<PatternView>,
    base: TExprView,
    half: i32,
    odd: bool,
    defs: Seq<DefinitionView>,
    exprs: Seq<TExprView>,
    next: nat,
    env: spec_fn(VariableId) -> int,
    ops: Interpretation,
)
    requires
        lawful(ops),
    ensures
        square_and_multiply(out, base, half, odd, defs, exprs, next) matches Ok(r)
            ==> (satisfies_from(env, ops, r.exprs, exprs.len()) ==> eval(
            pattern_expr(r.out),
            env,
            ops,
        ) == squared(ops, eval(base, env, ops), half as int, odd)),
    decreases weight(base) + exponent_weight(half) + 4, 0nat,
{
    match square_and_multiply(out, base, half, odd, defs, exprs, next) {
        Ok(r) => {
            lemma_reduce_shape(None, base, defs, exprs, next);
            lemma_reduce_sound(None, base, defs, exprs, next, env, ops);
            let r1 = reduce(None, base, defs, exprs, next)->Ok_0;
            lemma_weight_positive(base);
            lemma_pattern_weight(r1.out);
            let root = power(pattern_expr(r1.out), half);
            lemma_reduce_shape(None, root, r1.defs, r1.exprs, r1.next);
            lemma_reduce_sound(None, root, r1.defs, r1.exprs, r1.next, env, ops);
            let r2 = reduce(None, root, r1.defs, r1.exprs, r1.next)->Ok_0;
            lemma_pattern_weight(r2.out);
            let square = simplify(InfixOp::Multiply, pattern_expr(r2.out), pattern_expr(r2.out));
            lemma_simplify_weight(InfixOp::Multiply, pattern_expr(r2.out), pattern_expr(r2.out));
            lemma_simplify_weight(InfixOp::Multiply, square, pattern_expr(r1.out));
            lemma_simplify_sound(
                InfixOp::Multiply,
                pattern_expr(r2.out),
                pattern_expr(r2.out),
                env,
                ops,
            );
            lemma_simplify_sound(InfixOp::Multiply, square, pattern_expr(r1.out), env, ops);
            let rhs = multiply_square(pattern_expr(r2.out), pattern_expr(r1.out), odd);
            lemma_reduce_shape(out, rhs, r2.defs, r2.exprs, r2.next);
            lemma_reduce_sound(out, rhs, r2.defs, r2.exprs, r2.next, env, ops);
            if satisfies_from(env, ops, r.exprs, exprs.len()) {
                let n = exprs.len();
                lemma_satisfies_part(env, ops, r2.exprs, r.exprs, n, n);
                lemma_satisfies_part(env, ops, r1.exprs, r2.exprs, n, n);
                lemma_satisfies_part(env, ops, r2.exprs, r.exprs, n, r1.exprs.len());
                lemma_satisfies_part(env, ops, r.exprs, r.exprs, n, r2.exprs.len());
                let x = eval(base, env, ops);
                assert(eval(pattern_expr(r1.out), env, ops) == x);
                assert(eval(untyped(ExprView::Constant(half)), env, ops) == half);
                assert(eval(root, env, ops) == (ops.infix)(InfixOp::Exponentiate, x, half as int));
                assert(eval(pattern_expr(r2.out), env, ops) == eval(root, env, ops));
                assert(eval(rhs, env, ops) == squared(ops, x, half as int, odd));
                assert(eval(pattern_expr(r.out), env, ops) == eval(rhs, env, ops));
            }
        },
        Err(_) => {},
    }
}

/// The square of the power of `x` to `half`, times `x` once more where `odd`.
pub open spec fn squared(ops: Interpretation, x: int, half: int, odd: bool) -> int {
    let root = (ops.infix)(InfixOp::Exponentiate, x, half);
    let square = (ops.infix)(InfixOp::Multiply, root, root);
    if odd {
        (ops.infix)(InfixOp::Multiply, square, x)
    } else {
        square
    }
}

/// Whether `after` starts with `before`.
pub open spec fn starts_with(after: Seq<TExprView>, before: Seq<TExprView>) -> bool {
    &&& before.len() <= after.len()
    &&& forall|j: int| 0 <= j < before.len() ==> #[trigger] after[j] == before[j]
}

/// Whether the assignment gives the variable that the definition defines the
/// number that its right-hand side denotes, unless the variable is a witness:
/// the value of a witness is for the prover to choose.
pub open spec fn definition_holds(
    d: DefinitionView,
    prover: Set<VariableId>,
    env: spec_fn(VariableId) -> int,
    ops: Interpretation,
) -> bool {
    d.pattern matches PatternView::Variable(v) ==> prover.contains(v.id) || env(v.id) == eval(
        d.value,
        env,
        ops,
    )
}

/// The reduction of a definition is sound.
proof fn lemma_reduce_definition_sound(
    d: DefinitionView,
    prover: Set<VariableId>,
    defs: Seq<DefinitionView>,
    exprs: Seq<TExprView>,
    next: nat,
    env: spec_fn(VariableId) -> int,
    ops: Interpretation,
)
    requires
        lawful(ops),
    ensures
        reduce_definition(d, prover, defs, exprs, next) matches Ok(r) ==> starts_with(
            r.exprs,
            exprs,
        ) && (satisfies_from(env, ops, r.exprs, exprs.len()) ==> definition_holds(
            d,
            prover,
            env,
            ops,
        )),
{
    lemma_reduce_shape(Some(d.pattern), d.value, defs, exprs, next);
    lemma_reduce_sound(Some(d.pattern), d.value, defs, exprs, next, env, ops);
}

/// The reduction of a constraint is sound.
proof fn lemma_reduce_constraint_sound(
    c: TExprView,
    defs: Seq<DefinitionView>,
    exprs: Seq<TExprView>,
    next: nat,
    env: spec_fn(VariableId) -> int,
    ops: Interpretation,
)
    requires
        lawful(ops),
    ensures
        reduce_constraint(c, defs, exprs, next) matches Ok(r) ==> starts_with(r.exprs, exprs) && (
        satisfies_from(env, ops, r.exprs, exprs.len()) ==> satisfied(c, env, ops)),
{
    match c.v {
        ExprView::Infix(InfixOp::Equal, lhs, rhs) => {
            match reduce_equality(*lhs, *rhs, defs, exprs, next) {
                Ok(r) => {
                    lemma_reduce_equality_sound(*lhs, *rhs, defs, exprs, next, env, ops);
                },
                Err(_) => {},
            }
        },
        _ => {},
    }
}

/// The reduction of an equality is sound: an assignment that satisfies what
/// it appended gives both sides the same number.
proof fn lemma_reduce_equality_sound(
    lhs: TExprView,
    rhs: TExprView,
    defs: Seq<DefinitionView>,
    exprs: Seq<TExprView>,
    next: nat,
    env: spec_fn(VariableId) -> int,
    ops: Interpretation,
)
    requires
        lawful(ops),
    ensures
        reduce_equality(lhs, rhs, defs, exprs, next) matches Ok(r) ==> starts_with(
            r.exprs,
            exprs,
        ) && (satisfies_from(env, ops, r.exprs, exprs.len()) ==> eval(lhs, env, ops) == eval(
            rhs,
            env,
            ops,
        )),
{
    if lhs.v is Variable {
        let out = Some(PatternView::Variable(lhs.v->Variable_0));
        lemma_reduce_shape(out, rhs, defs, exprs, next);
        lemma_reduce_sound(out, rhs, defs, exprs, next, env, ops);
    } else if rhs.v is Variable {
        let out = Some(PatternView::Variable(rhs.v->Variable_0));
        lemma_reduce_shape(out, lhs, defs, exprs, next);
        lemma_reduce_sound(out, lhs, defs, exprs, next, env, ops);
    } else if lhs.v is Constant {
        let out = Some(PatternView::Constant(lhs.v->Constant_0));
        lemma_reduce_shape(out, rhs, defs, exprs, next);
        lemma_reduce_sound(out, rhs, defs, exprs, next, env, ops);
    } else if rhs.v is Constant {
        let out = Some(PatternView::Constant(rhs.v->Constant_0));
        lemma_reduce_shape(out, lhs, defs, exprs, next);
        lemma_reduce_sound(out, lhs, defs, exprs, next, env, ops);
    } else {
        lemma_reduce_shape(None, lhs, defs, exprs, next);
        lemma_reduce_sound(None, lhs, defs, exprs, next, env, ops);
        match reduce(None, lhs, defs, exprs, next) {
            Ok(l) => {
                lemma_reduce_shape(None, rhs, l.defs, l.exprs, l.next);
                lemma_reduce_sound(None, rhs, l.defs, l.exprs, l.next, env, ops);
                match reduce(None, rhs, l.defs, l.exprs, l.next) {
                    Ok(r) => {
                        let both = pattern_expr(r.out);
                        lemma_reduce_shape(Some(l.out), both, r.defs, r.exprs, r.next);
                        lemma_reduce_sound(Some(l.out), both, r.defs, r.exprs, r.next, env, ops);
                        match reduce(Some(l.out), both, r.defs, r.exprs, r.next) {
                            Ok(last) => {
                                if satisfies_from(env, ops, last.exprs, exprs.len()) {
                                    let n = exprs.len();
                                    lemma_satisfies_part(env, ops, r.exprs, last.exprs, n, n);
                                    lemma_satisfies_part(env, ops, l.exprs, r.exprs, n, n);
                                    lemma_satisfies_part(
                                        env,
                                        ops,
                                        r.exprs,
                                        last.exprs,
                                        n,
                                        l.exprs.len(),
                                    );
                                    lemma_satisfies_part(
                                        env,
                                        ops,
                                        last.exprs,
                                        last.exprs,
                                        n,
                                        r.exprs.len(),
                                    );
                                }
                            },
                            Err(_) => {},
                        }
                    },
                    Err(_) => {},
                }
            },
            Err(_) => {},
        }
    }
}

/// The reduction of definitions is sound.
proof fn lemma_reduce_definitions_sound(
    ds: Seq<DefinitionView>,
    i: nat,
    prover: Set<VariableId>,
    defs: Seq<DefinitionView>,
    exprs: Seq<TExprView>,
    next: nat,
    env: spec_fn(VariableId) -> int,
    ops: Interpretation,
)
    requires
        lawful(ops),
    ensures
        reduce_definitions_from(ds, i, prover, defs, exprs, next) matches Ok(r) ==> starts_with(
            r.exprs,
            exprs,
        ) && (satisfies_from(env, ops, r.exprs, exprs.len()) ==> forall|k: int|
            i <= k < ds.len() ==> definition_holds(#[trigger] ds[k], prover, env, ops)),
    decreases ds.len() - i,
{
    if i < ds.len() {
        lemma_reduce_definition_sound(ds[i as int], prover, defs, exprs, next, env, ops);
        match reduce_definition(ds[i as int], prover, defs, exprs, next) {
            Ok(r1) => {
                lemma_reduce_definitions_sound(
                    ds,
                    i + 1,
                    prover,
                    r1.defs,
                    r1.exprs,
                    r1.next,
                    env,
                    ops,
                );
                match reduce_definitions_from(ds, i + 1, prover, r1.defs, r1.exprs, r1.next) {
                    Ok(r) => {
                        assert(starts_with(r.exprs, exprs)) by {
                            assert forall|j: int| 0 <= j < exprs.len() implies #[trigger] r.exprs[j]
                                == exprs[j] by {
                                assert(r1.exprs[j] == exprs[j]);
                            }
                        }
                        if satisfies_from(env, ops, r.exprs, exprs.len()) {
                            let n = exprs.len();
                            lemma_satisfies_part(env, ops, r1.exprs, r.exprs, n, n);
                            lemma_satisfies_part(env, ops, r.exprs, r.exprs, n, r1.exprs.len());
                        }
                    },
                    Err(_) => {},
                }
            },
            Err(_) => {},
        }
    }
}

/// The reduction of constraints is sound.
proof fn lemma_reduce_constraints_sound(
    cs: Seq<TExprView>,
    i: nat,
    defs: Seq<DefinitionView>,
    exprs: Seq<TExprView>,
    next: nat,
    env: spec_fn(VariableId) -> int,
    ops: Interpretation,
)
    requires
        lawful(ops),
    ensures
        reduce_constraints_from(cs, i, defs, exprs, next) matches Ok(r) ==> starts_with(
            r.exprs,
            exprs,
        ) && (satisfies_from(env, ops, r.exprs, exprs.len()) ==> forall|k: int|
            i <= k < cs.len() ==> satisfied(#[trigger] cs[k], env, ops)),
    decreases cs.len() - i,
{
    if i < cs.len() {
        lemma_reduce_constraint_sound(cs[i as int], defs, exprs, next, env, ops);
        match reduce_constraint(cs[i as int], defs, exprs, next) {
            Ok(r1) => {
                lemma_reduce_constraints_sound(cs, i + 1, r1.defs, r1.exprs, r1.next, env, ops);
                match reduce_constraints_from(cs, i + 1, r1.defs, r1.exprs, r1.next) {
                    Ok(r) => {
                        assert(starts_with(r.exprs, exprs)) by {
                            assert forall|j: int| 0 <= j < exprs.len() implies #[trigger] r.exprs[j]
                                == exprs[j] by {
                                assert(r1.exprs[j] == exprs[j]);
                            }
                        }
                        if satisfies_from(env, ops, r.exprs, exprs.len()) {
                            let n = exprs.len();
                            lemma_satisfies_part(env, ops, r1.exprs, r.exprs, n, n);
                            lemma_satisfies_part(env, ops, r.exprs, r.exprs, n, r1.exprs.len());
                        }
                    },
                    Err(_) => {},
                }
            },
            Err(_) => {},
        }
    }
}

/// The reduction of a module is sound. Under a lawful reading of the
/// operators, every assignment that satisfies the constraints that the
/// reduction appended satisfies every constraint of the module, and gives
/// every variable that the module defines, witnesses apart, the number that
/// its definition denotes: the circuit accepts only what the module accepts.
pub proof fn lemma_reduced_module_is_sound(
    m: ModuleView,
    prover: Set<VariableId>,
    defs: Seq<DefinitionView>,
    exprs: Seq<TExprView>,
    next: nat,
    env: spec_fn(VariableId) -> int,
    ops: Interpretation,
)
    requires
        lawful(ops),
    ensures
        reduce_module(m, prover, defs, exprs, next) matches Ok(r) ==> (satisfies_from(
            env,
            ops,
            r.exprs,
            exprs.len(),
        ) ==> {
            &&& forall|k: int|
                0 <= k < m.defs.len() ==> definition_holds(#[trigger] m.defs[k], prover, env, ops)
            &&& forall|k: int| 0 <= k < m.exprs.len() ==> satisfied(#[trigger] m.exprs[k], env, ops)
        }),
{
    lemma_reduce_definitions_sound(m.defs, 0, prover, defs, exprs, next, env, ops);
    match reduce_definitions_from(m.defs, 0, prover, defs, exprs, next) {
        Ok(r1) => {
            lemma_reduce_constraints_sound(m.exprs, 0, r1.defs, r1.exprs, r1.next, env, ops);
            match reduce_constraints_from(m.exprs, 0, r1.defs, r1.exprs, r1.next) {
                Ok(r) => {
                    if satisfies_from(env, ops, r.exprs, exprs.len()) {
                        let n = exprs.len();
                        lemma_satisfies_part(env, ops, r1.exprs, r.exprs, n, n);
                        lemma_satisfies_part(env, ops, r.exprs, r.exprs, n, r1.exprs.len());
                    }
                },
                Err(_) => {},
            }
        },
        Err(_) => {},
    }
}

} // verus!
