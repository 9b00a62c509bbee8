//! The back end as one step: from a module that has been inlined and typed
//! to its circuit, flattened, reduced to three-address form and optimized.

use vstd::prelude::*;
use std::collections::HashSet;
use crate::ast::{DefinitionView, ExprView, Module, ModuleView, TExprView, VariableId};
use crate::dead_code::{
    eliminate_dead_definitions, lemma_live_definitions_are_definitions, live_definitions,
};
use crate::error::{CompileError, ErrorView};
use crate::flatten::{flatten_into, flatten_module};
use crate::optimize::{
    copy_propagate, eliminate_dead_equalities, propagate, propagate_definition,
    propagate_definitions_from, propagate_module, trivial_equality,
};
use crate::semantics::{
    binds_atoms, lemma_copy_propagation_fails_only_by_depth, lemma_propagate_atom,
};
use crate::three_address::{atomic, flatten_module_to_3ac, reduce_module, three_address};
use crate::three_address_laws::{
    defines_witness, lemma_reduced_module_defines_variables, lemma_reduced_module_is_three_address,
};
use crate::vargen::VarGen;

verus! {

/// The module without a definition and without a constraint.
pub open spec fn empty_module() -> ModuleView {
    ModuleView { defs: Seq::empty(), exprs: Seq::empty() }
}

/// The circuit of a module with the position that the generator ends at: the
/// module is flattened, then reduced to three-address form, then copies are
/// propagated, and then the trivial equalities and the dead definitions are
/// dropped.
pub open spec fn circuit_of(m: ModuleView, prover: Set<VariableId>, next: nat, fuel: nat) -> Result<
    (ModuleView, nat),
    ErrorView,
> {
    match flatten_into(m, empty_module()) {
        Ok(flat) => match reduce_module(flat, prover, Seq::empty(), Seq::empty(), next) {
            Ok(r) => match propagate_module(
                ModuleView { defs: r.defs, exprs: r.exprs },
                prover,
                fuel,
            ) {
                Ok(p) => Ok(
                    (
                        ModuleView {
                            defs: live_definitions(p.module.defs, constraints_of(p.module.exprs)),
                            exprs: constraints_of(p.module.exprs),
                        },
                        r.next,
                    ),
                ),
                Err(x) => Err(x),
            },
            Err(x) => Err(x),
        },
        Err(x) => Err(x),
    }
}

/// The constraints that are not true by their form.
pub open spec fn constraints_of(exprs: Seq<TExprView>) -> Seq<TExprView> {
    exprs.filter(|e: TExprView| !trivial_equality(e))
}

/// Generates the circuit of the given module: its constraints in
/// three-address form, and the definitions that a prover computes the
/// variables of the constraints by. Substitutions are followed to a depth of
/// `fuel`.
pub fn generate_circuit(
    module: &Module,
    prover_defs: &HashSet<VariableId>,
    gen: &mut VarGen,
    fuel: usize,
) -> (r: Result<Module, CompileError>)
    ensures
        match r {
            Ok(circuit) => circuit_of(module@, prover_defs@, old(gen)@, fuel as nat) == Ok::<
                (ModuleView, nat),
                ErrorView,
            >((circuit@, final(gen)@)),
            Err(e) => circuit_of(module@, prover_defs@, old(gen)@, fuel as nat) == Err::<
                (ModuleView, nat),
                ErrorView,
            >(e@),
        },
{
    let mut flat = Module::default();
    flatten_module(module, &mut flat)?;
    let mut circuit = Module::default();
    flatten_module_to_3ac(&flat, prover_defs, &mut circuit, gen)?;
    proof {
        lemma_reduced_module_defines_variables(
            flat@,
            prover_defs@,
            Seq::empty(),
            Seq::empty(),
            old(gen)@,
        );
        lemma_copy_propagation_fails_only_by_depth(circuit@, prover_defs@, fuel as nat);
    }
    copy_propagate(&mut circuit, prover_defs, fuel)?;
    eliminate_dead_equalities(&mut circuit);
    match eliminate_dead_definitions(&mut circuit) {
        Ok(()) => Ok(circuit),
        Err(e) => Err(e),
    }
}

/// Whether the definition is what a circuit holds: it defines a variable, by
/// a right-hand side in three-address form unless the variable is a witness.
pub open spec fn circuit_definition(d: DefinitionView, prover: Set<VariableId>) -> bool {
    d.pattern is Variable && (three_address(d.value) || defines_witness(d, prover))
}

/// An expression in three-address form stays in that form when variables
/// and constants are put for its variables.
proof fn lemma_propagate_keeps_three_address(
    e: TExprView,
    subst: Map<VariableId, TExprView>,
    fuel: nat,
)
    requires
        binds_atoms(subst),
        three_address(e),
    ensures
        propagate(e, subst, fuel) matches Ok(r) ==> three_address(r),
{
    match e.v {
        ExprView::Negate(a) => {
            lemma_propagate_atom(*a, subst, fuel);
        },
        ExprView::Infix(_, a, b) => {
            lemma_propagate_atom(*a, subst, fuel);
            lemma_propagate_atom(*b, subst, fuel);
        },
        _ => {
            lemma_propagate_atom(e, subst, fuel);
        },
    }
}

/// Copy propagation keeps the definitions of a circuit definitions of a
/// circuit.
proof fn lemma_propagate_definitions_keep_circuit(
    ds: Seq<DefinitionView>,
    i: nat,
    done: Seq<DefinitionView>,
    subst: Map<VariableId, TExprView>,
    prover: Set<VariableId>,
    fuel: nat,
)
    requires
        binds_atoms(subst),
        forall|j: int| 0 <= j < ds.len() ==> circuit_definition(#[trigger] ds[j], prover),
        forall|j: int| 0 <= j < done.len() ==> circuit_definition(#[trigger] done[j], prover),
    ensures
        propagate_definitions_from(ds, i, done, subst, prover, fuel) matches Ok(r) ==> forall|
            j: int,
        | 0 <= j < r.module.defs.len() ==> circuit_definition(#[trigger] r.module.defs[j], prover),
    decreases ds.len() - i,
{
    if i < ds.len() {
        let d = ds[i as int];
        match propagate_definition(d, subst, prover, fuel) {
            Ok(r) => {
                if three_address(d.value) {
                    lemma_propagate_keeps_three_address(d.value, subst, fuel);
                }
                assert(circuit_definition(r.def, prover));
                assert forall|j: int| 0 <= j < done.push(r.def).len() implies circuit_definition(
                    #[trigger] done.push(r.def)[j],
                    prover,
                ) by {
                    if j < done.len() {
                        assert(done.push(r.def)[j] == done[j]);
                    }
                }
                lemma_propagate_definitions_keep_circuit(
                    ds,
                    i + 1,
                    done.push(r.def),
                    r.subst,
                    prover,
                    fuel,
                );
            },
            Err(_) => {},
        }
    }
}

/// Every definition of a circuit defines a variable, and its right-hand side
/// is a constant, a variable, the negation of one of these, or one operator
/// over two of these; but for the definitions of witnesses, whose right-hand
/// sides are what the module has them defined by.
pub proof fn lemma_circuit_is_three_address(
    m: ModuleView,
    prover: Set<VariableId>,
    next: nat,
    fuel: nat,
)
    ensures
        circuit_of(m, prover, next, fuel) matches Ok(c) ==> forall|j: int|
            0 <= j < c.0.defs.len() ==> circuit_definition(#[trigger] c.0.defs[j], prover),
{
    match flatten_into(m, empty_module()) {
        Ok(flat) => {
            lemma_reduced_module_is_three_address(flat, prover, Seq::empty(), Seq::empty(), next);
            lemma_reduced_module_defines_variables(flat, prover, Seq::empty(), Seq::empty(), next);
            match reduce_module(flat, prover, Seq::empty(), Seq::empty(), next) {
                Ok(r) => {
                    let reduced = ModuleView { defs: r.defs, exprs: r.exprs };
                    lemma_propagate_definitions_keep_circuit(
                        r.defs,
                        0,
                        Seq::empty(),
                        Map::empty(),
                        prover,
                        fuel,
                    );
                    match propagate_module(reduced, prover, fuel) {
                        Ok(p) => {
                            let exprs = constraints_of(p.module.exprs);
                            let live = live_definitions(p.module.defs, exprs);
                            assert forall|j: int| 0 <= j < live.len() implies circuit_definition(
                                #[trigger] live[j],
                                prover,
                            ) by {
                                lemma_live_definitions_are_definitions(p.module.defs, exprs, j);
                                let k = choose|k: int|
                                    0 <= k < p.module.defs.len() && p.module.defs[k] == live[j];
                                assert(circuit_definition(p.module.defs[k], prover));
                            }
                        },
                        Err(_) => {},
                    }
                },
                Err(_) => {},
            }
        },
        Err(_) => {},
    }
}

} // verus!
