//! What the terms of a flattened module denote, and why the optimizations
//! keep what its constraints state.

use vstd::prelude::*;
use crate::ast::{DefinitionView, ExprView, InfixOp, ModuleView, PatternView, TExprView, VariableId};
use crate::dead_code::{lemma_live_definitions_are_definitions, live_definitions};
use crate::error::ErrorView;
use crate::optimize::{
    propagate, propagate_branches_from, propagate_definition, propagate_definitions_from,
    propagate_from, propagate_module,
};

verus! {

/// A reading of the operators over some domain of numbers, here written as
/// integers. Nothing is assumed of it: what is proved holds of every field
/// and of every way to read division, modulus and powers.
pub struct Interpretation {
    pub infix: spec_fn(InfixOp, int, int) -> int,
    pub negate: spec_fn(int) -> int,
}

/// The number that a scalar term denotes under an assignment of numbers to
/// variables. A term that is no scalar term denotes zero.
pub open spec fn eval(e: TExprView, env: spec_fn(VariableId) -> int, ops: Interpretation) -> int
    decreases e,
{
    match e.v {
        ExprView::Constant(c) => c as int,
        ExprView::Variable(v) => env(v.id),
        ExprView::Negate(a) => (ops.negate)(eval(*a, env, ops)),
        ExprView::Infix(op, a, b) => (ops.infix)(op, eval(*a, env, ops), eval(*b, env, ops)),
        _ => 0,
    }
}

/// Whether the assignment satisfies the constraint: the two sides of an
/// equality denote the same number. An expression that is no equality
/// constrains nothing.
pub open spec fn satisfied(
    c: TExprView,
    env: spec_fn(VariableId) -> int,
    ops: Interpretation,
) -> bool {
    match c.v {
        ExprView::Infix(op, a, b) => op == InfixOp::Equal ==> eval(*a, env, ops) == eval(
            *b,
            env,
            ops,
        ),
        _ => true,
    }
}

/// Whether the assignment gives every variable that the substitution binds
/// the number that its binding denotes.
pub open spec fn respects(
    env: spec_fn(VariableId) -> int,
    ops: Interpretation,
    subst: Map<VariableId, TExprView>,
) -> bool {
    forall|k: VariableId| subst.contains_key(k) ==> env(k) == eval(#[trigger] subst[k], env, ops)
}

/// Whether the assignment gives every defined variable the number that its
/// right-hand side denotes.
pub open spec fn defines(
    env: spec_fn(VariableId) -> int,
    ops: Interpretation,
    defs: Seq<DefinitionView>,
) -> bool {
    forall|i: int|
        0 <= i < defs.len() ==> ((#[trigger] defs[i]).pattern matches PatternView::Variable(v)
            ==> env(v.id) == eval(defs[i].value, env, ops))
}

/// Under an assignment that respects the substitution, a term denotes what
/// it denoted before the substitution was applied to it, and a constraint
/// that is no bare variable is satisfied as it was before.
pub proof fn lemma_propagate_keeps_value(
    e: TExprView,
    subst: Map<VariableId, TExprView>,
    fuel: nat,
    env: spec_fn(VariableId) -> int,
    ops: Interpretation,
)
    requires
        respects(env, ops, subst),
    ensures
        match propagate(e, subst, fuel) {
            Ok(r) => eval(r, env, ops) == eval(e, env, ops) && (!(e.v is Variable) ==> satisfied(
                r,
                env,
                ops,
            ) == satisfied(e, env, ops)),
            Err(_) => true,
        },
    decreases fuel, e,
{
    match e.v {
        ExprView::Variable(v) => {
            if subst.contains_key(v.id) && fuel > 0 {
                lemma_propagate_keeps_value(subst[v.id], subst, (fuel - 1) as nat, env, ops);
                assert(env(v.id) == eval(subst[v.id], env, ops));
            }
        },
        ExprView::Infix(_, a, b) => {
            lemma_propagate_keeps_value(*a, subst, fuel, env, ops);
            lemma_propagate_keeps_value(*b, subst, fuel, env, ops);
        },
        ExprView::Negate(a) => {
            lemma_propagate_keeps_value(*a, subst, fuel, env, ops);
        },
        _ => {},
    }
}

/// A list is propagated element by element: the result has as many elements,
/// and each is the propagated form of the element in its place.
pub proof fn lemma_propagate_from_pointwise(
    es: Seq<TExprView>,
    i: nat,
    done: Seq<TExprView>,
    subst: Map<VariableId, TExprView>,
    fuel: nat,
)
    requires
        i <= es.len(),
        done.len() == i,
        forall|j: int| 0 <= j < i ==> propagate(es[j], subst, fuel) == Ok::<
            TExprView,
            ErrorView,
        >(#[trigger] done[j]),
    ensures
        match propagate_from(es, i, done, subst, fuel) {
            Ok(rs) => rs.len() == es.len() && forall|j: int|
                0 <= j < es.len() ==> propagate(es[j], subst, fuel) == Ok::<
                    TExprView,
                    ErrorView,
                >(#[trigger] rs[j]),
            Err(_) => true,
        },
    decreases es.len() - i,
{
    if i < es.len() {
        match propagate(es[i as int], subst, fuel) {
            Ok(r) => {
                lemma_propagate_from_pointwise(es, i + 1, done.push(r), subst, fuel);
            },
            Err(_) => {},
        }
    }
}

/// Whether no variable that the substitution binds is a witness.
pub open spec fn spares_witnesses(
    subst: Map<VariableId, TExprView>,
    prover: Set<VariableId>,
) -> bool {
    forall|k: VariableId| #[trigger] subst.contains_key(k) ==> !prover.contains(k)
}

/// Whether every binding of the substitution is a variable or a constant.
pub open spec fn binds_atoms(subst: Map<VariableId, TExprView>) -> bool {
    forall|k: VariableId|
        subst.contains_key(k) ==> (#[trigger] subst[k]).v is Variable || subst[k].v is Constant
}

/// Whether the expression is a variable or a constant.
pub open spec fn is_atom(e: TExprView) -> bool {
    e.v is Variable || e.v is Constant
}

/// A variable or a constant stays one under a substitution of variables and
/// constants.
pub proof fn lemma_propagate_atom(e: TExprView, subst: Map<VariableId, TExprView>, fuel: nat)
    requires
        binds_atoms(subst),
        is_atom(e),
    ensures
        propagate(e, subst, fuel) matches Ok(r) ==> is_atom(r),
    decreases fuel,
{
    match e.v {
        ExprView::Variable(v) => {
            if subst.contains_key(v.id) && fuel > 0 {
                lemma_propagate_atom(subst[v.id], subst, (fuel - 1) as nat);
            }
        },
        _ => {},
    }
}

/// Propagation through definitions keeps what the definitions state, and
/// makes aliases that the assignment respects, that are variables or
/// constants, and that spare the witnesses.
proof fn lemma_propagate_definitions_sound(
    ds: Seq<DefinitionView>,
    i: nat,
    done: Seq<DefinitionView>,
    subst: Map<VariableId, TExprView>,
    prover: Set<VariableId>,
    fuel: nat,
    env: spec_fn(VariableId) -> int,
    ops: Interpretation,
)
    requires
        defines(env, ops, ds),
        defines(env, ops, done),
        respects(env, ops, subst),
        binds_atoms(subst),
        spares_witnesses(subst, prover),
    ensures
        match propagate_definitions_from(ds, i, done, subst, prover, fuel) {
            Ok(r) => defines(env, ops, r.module.defs) && respects(env, ops, r.subst)
                && binds_atoms(r.subst) && spares_witnesses(r.subst, prover),
            Err(_) => true,
        },
    decreases ds.len() - i,
{
    if i < ds.len() {
        let d = ds[i as int];
        match propagate_definition(d, subst, prover, fuel) {
            Ok(r) => {
                lemma_propagate_keeps_value(d.value, subst, fuel, env, ops);
                assert(d.pattern is Variable);
                assert(env(d.pattern->Variable_0.id) == eval(d.value, env, ops));
                assert(defines(env, ops, done.push(r.def))) by {
                    assert forall|j: int| 0 <= j < done.push(r.def).len() implies ((
                    #[trigger] done.push(r.def)[j]).pattern matches PatternView::Variable(v)
                        ==> env(v.id) == eval(done.push(r.def)[j].value, env, ops)) by {
                        if j < done.len() {
                            assert(done.push(r.def)[j] == done[j]);
                        }
                    }
                }
                lemma_propagate_definitions_sound(
                    ds,
                    i + 1,
                    done.push(r.def),
                    r.subst,
                    prover,
                    fuel,
                    env,
                    ops,
                );
            },
            Err(_) => {},
        }
    }
}

/// Copy propagation is sound. Take any reading of the operators and any
/// assignment that gives every defined variable of the module the number
/// that its definition denotes. Then, after copy propagation, the assignment
/// still does so for the propagated definitions, and every constraint is
/// satisfied exactly if it was satisfied before. And no witness is replaced:
/// the aliases that copy propagation makes are aliases of variables that are
/// no witnesses.
pub proof fn lemma_copy_propagation_sound(
    m: ModuleView,
    prover: Set<VariableId>,
    fuel: nat,
    env: spec_fn(VariableId) -> int,
    ops: Interpretation,
)
    requires
        defines(env, ops, m.defs),
    ensures
        match propagate_module(m, prover, fuel) {
            Ok(r) => {
                &&& defines(env, ops, r.module.defs)
                &&& r.module.exprs.len() == m.exprs.len()
                &&& forall|j: int|
                    0 <= j < m.exprs.len() ==> satisfied(#[trigger] r.module.exprs[j], env, ops)
                        == satisfied(m.exprs[j], env, ops)
                &&& spares_witnesses(r.subst, prover)
            },
            Err(_) => true,
        },
{
    lemma_propagate_definitions_sound(
        m.defs,
        0,
        Seq::empty(),
        Map::empty(),
        prover,
        fuel,
        env,
        ops,
    );
    match propagate_definitions_from(m.defs, 0, Seq::empty(), Map::empty(), prover, fuel) {
        Ok(d) => {
            lemma_propagate_from_pointwise(m.exprs, 0, Seq::empty(), d.subst, fuel);
            match propagate_from(m.exprs, 0, Seq::empty(), d.subst, fuel) {
                Ok(exprs) => {
                    assert forall|j: int| 0 <= j < m.exprs.len() implies satisfied(
                        #[trigger] exprs[j],
                        env,
                        ops,
                    ) == satisfied(m.exprs[j], env, ops) by {
                        lemma_propagate_keeps_value(m.exprs[j], d.subst, fuel, env, ops);
                        if m.exprs[j].v is Variable {
                            lemma_propagate_atom(m.exprs[j], d.subst, fuel);
                        }
                    }
                },
                Err(_) => {},
            }
        },
        Err(_) => {},
    }
}

/// Copy propagation never replaces a witness, whatever the module states.
pub proof fn lemma_copy_propagation_spares_witnesses(
    m: ModuleView,
    prover: Set<VariableId>,
    fuel: nat,
)
    ensures
        match propagate_module(m, prover, fuel) {
            Ok(r) => spares_witnesses(r.subst, prover),
            Err(_) => true,
        },
{
    lemma_definitions_spare_witnesses(m.defs, 0, Seq::empty(), Map::empty(), prover, fuel);
}

/// Propagation through definitions makes no witness an alias.
proof fn lemma_definitions_spare_witnesses(
    ds: Seq<DefinitionView>,
    i: nat,
    done: Seq<DefinitionView>,
    subst: Map<VariableId, TExprView>,
    prover: Set<VariableId>,
    fuel: nat,
)
    requires
        spares_witnesses(subst, prover),
    ensures
        match propagate_definitions_from(ds, i, done, subst, prover, fuel) {
            Ok(r) => spares_witnesses(r.subst, prover),
            Err(_) => true,
        },
    decreases ds.len() - i,
{
    if i < ds.len() {
        match propagate_definition(ds[i as int], subst, prover, fuel) {
            Ok(r) => {
                lemma_definitions_spare_witnesses(
                    ds,
                    i + 1,
                    done.push(r.def),
                    r.subst,
                    prover,
                    fuel,
                );
            },
            Err(_) => {},
        }
    }
}

/// Substitution ends in a term or in `RecursionLimit`, in nothing else.
pub proof fn lemma_propagate_fails_only_by_depth(
    e: TExprView,
    subst: Map<VariableId, TExprView>,
    fuel: nat,
)
    ensures
        propagate(e, subst, fuel) matches Err(x) ==> x == ErrorView::RecursionLimit,
    decreases fuel, e, 0nat,
{
    match e.v {
        ExprView::Variable(v) => {
            if subst.contains_key(v.id) && fuel > 0 {
                lemma_propagate_fails_only_by_depth(subst[v.id], subst, (fuel - 1) as nat);
            }
        },
        ExprView::Sequence(es) => {
            lemma_propagate_each_fails_only_by_depth(es, 0, Seq::empty(), subst, fuel);
        },
        ExprView::Intrinsic(i) => {
            lemma_propagate_each_fails_only_by_depth(i.args, 0, Seq::empty(), subst, fuel);
        },
        ExprView::Infix(_, a, b)
        | ExprView::Application(a, b)
        | ExprView::Product(a, b)
        | ExprView::Cons(a, b) => {
            lemma_propagate_fails_only_by_depth(*a, subst, fuel);
            lemma_propagate_fails_only_by_depth(*b, subst, fuel);
        },
        ExprView::Negate(a) => {
            lemma_propagate_fails_only_by_depth(*a, subst, fuel);
        },
        ExprView::Function(_, body) => {
            lemma_propagate_fails_only_by_depth(*body, subst, fuel);
        },
        ExprView::LetBinding(_, a, body) => {
            lemma_propagate_fails_only_by_depth(*a, subst, fuel);
            lemma_propagate_fails_only_by_depth(*body, subst, fuel);
        },
        ExprView::Match(s, bs) => {
            lemma_propagate_fails_only_by_depth(*s, subst, fuel);
            lemma_propagate_branches_fail_only_by_depth(bs, 0, Seq::empty(), subst, fuel);
        },
        _ => {},
    }
}

/// Substitution in a list ends in `RecursionLimit` or in no error.
proof fn lemma_propagate_each_fails_only_by_depth(
    es: Seq<TExprView>,
    i: nat,
    done: Seq<TExprView>,
    subst: Map<VariableId, TExprView>,
    fuel: nat,
)
    ensures
        propagate_from(es, i, done, subst, fuel) matches Err(x) ==> x == ErrorView::RecursionLimit,
    decreases fuel, es, es.len() - i,
{
    if i < es.len() {
        lemma_propagate_fails_only_by_depth(es[i as int], subst, fuel);
        match propagate(es[i as int], subst, fuel) {
            Ok(r) => {
                lemma_propagate_each_fails_only_by_depth(es, i + 1, done.push(r), subst, fuel);
            },
            Err(_) => {},
        }
    }
}

/// Substitution in the branches of a match ends in `RecursionLimit` or in no
/// error.
proof fn lemma_propagate_branches_fail_only_by_depth(
    bs: Seq<(PatternView, TExprView)>,
    i: nat,
    done: Seq<(PatternView, TExprView)>,
    subst: Map<VariableId, TExprView>,
    fuel: nat,
)
    ensures
        propagate_branches_from(bs, i, done, subst, fuel) matches Err(x) ==> x
            == ErrorView::RecursionLimit,
    decreases fuel, bs, bs.len() - i,
{
    if i < bs.len() {
        lemma_propagate_fails_only_by_depth(bs[i as int].1, subst, fuel);
        match propagate(bs[i as int].1, subst, fuel) {
            Ok(r) => {
                lemma_propagate_branches_fail_only_by_depth(
                    bs,
                    i + 1,
                    done.push((bs[i as int].0, r)),
                    subst,
                    fuel,
                );
            },
            Err(_) => {},
        }
    }
}

/// Propagation through definitions of variables keeps what each defines, and
/// fails only by depth.
proof fn lemma_propagate_definitions_keep_patterns(
    ds: Seq<DefinitionView>,
    i: nat,
    done: Seq<DefinitionView>,
    subst: Map<VariableId, TExprView>,
    prover: Set<VariableId>,
    fuel: nat,
)
    requires
        i <= ds.len(),
        done.len() == i,
        forall|j: int| 0 <= j < i ==> (#[trigger] done[j]).pattern == ds[j].pattern,
        forall|j: int| 0 <= j < ds.len() ==> (#[trigger] ds[j]).pattern is Variable,
    ensures
        match propagate_definitions_from(ds, i, done, subst, prover, fuel) {
            Ok(r) => r.module.defs.len() == ds.len() && forall|j: int|
                0 <= j < ds.len() ==> (#[trigger] r.module.defs[j]).pattern == ds[j].pattern,
            Err(x) => x == ErrorView::RecursionLimit,
        },
    decreases ds.len() - i,
{
    if i < ds.len() {
        lemma_propagate_fails_only_by_depth(ds[i as int].value, subst, fuel);
        match propagate_definition(ds[i as int], subst, prover, fuel) {
            Ok(r) => {
                lemma_propagate_definitions_keep_patterns(
                    ds,
                    i + 1,
                    done.push(r.def),
                    r.subst,
                    prover,
                    fuel,
                );
            },
            Err(_) => {},
        }
    }
}

/// On a module whose definitions define variables, as the reduction to
/// three-address form leaves them, copy propagation fails only where a
/// substitution goes deeper than the fuel allows; and where it succeeds, every
/// definition still defines the variable that it defined, so that the removal
/// of dead definitions succeeds after it.
pub proof fn lemma_copy_propagation_fails_only_by_depth(
    m: ModuleView,
    prover: Set<VariableId>,
    fuel: nat,
)
    requires
        forall|j: int| 0 <= j < m.defs.len() ==> (#[trigger] m.defs[j]).pattern is Variable,
    ensures
        match propagate_module(m, prover, fuel) {
            Ok(r) => r.module.defs.len() == m.defs.len() && forall|j: int|
                0 <= j < m.defs.len() ==> (#[trigger] r.module.defs[j]).pattern
                    == m.defs[j].pattern,
            Err(x) => x == ErrorView::RecursionLimit,
        },
{
    lemma_propagate_definitions_keep_patterns(
        m.defs,
        0,
        Seq::empty(),
        Map::empty(),
        prover,
        fuel,
    );
    match propagate_definitions_from(m.defs, 0, Seq::empty(), Map::empty(), prover, fuel) {
        Ok(d) => {
            lemma_propagate_each_fails_only_by_depth(m.exprs, 0, Seq::empty(), d.subst, fuel);
        },
        Err(_) => {},
    }
}

/// The removal of dead definitions asks no more of an assignment: one that
/// gives every defined variable of a module the number that its definition
/// denotes does so for the definitions that are live. The constraints are not
/// touched, so an assignment that satisfied the module satisfies what is left
/// of it.
pub proof fn lemma_dead_code_keeps_assignments(
    defs: Seq<DefinitionView>,
    exprs: Seq<TExprView>,
    env: spec_fn(VariableId) -> int,
    ops: Interpretation,
)
    requires
        defines(env, ops, defs),
    ensures
        defines(env, ops, live_definitions(defs, exprs)),
{
    let live = live_definitions(defs, exprs);
    assert forall|k: int| 0 <= k < live.len() implies ((#[trigger] live[k]).pattern
        matches PatternView::Variable(v) ==> env(v.id) == eval(live[k].value, env, ops)) by {
        lemma_live_definitions_are_definitions(defs, exprs, k);
        let i = choose|i: int| 0 <= i < defs.len() && defs[i] == live[k];
        assert(defs[i] == live[k]);
    }
}

} // verus!
