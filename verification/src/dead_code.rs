//! The removal of the definitions that no constraint depends on.

use vstd::prelude::*;
use std::collections::HashMap;
use crate::ast::{
    Definition, DefinitionView, Module, Pattern, TExprView, Variable, VariableId, definitions_view,
};
use crate::collect::{
    collect_expr_variables, expr_ids, exprs_variables_from, lemma_expr_variables_dom,
    variables_view,
};
use crate::error::{CompileError, ErrorView};

verus! {

broadcast use vstd::std_specs::hash::group_hash_axioms;

/// The variable that a definition of a flattened module defines.
pub open spec fn defined_variable(d: DefinitionView) -> VariableId {
    d.pattern->Variable_0.id
}

/// Whether every definition defines a variable.
pub open spec fn defines_variables_only(defs: Seq<DefinitionView>) -> bool {
    forall|i: int| 0 <= i < defs.len() ==> (#[trigger] defs[i]).pattern is Variable
}

/// Whether no later definition defines the same variable as the `i`-th one.
/// Where a variable is defined more than once, its last definition says what
/// it depends on.
pub open spec fn is_last_definition(defs: Seq<DefinitionView>, i: int) -> bool {
    forall|j: int|
        i < j < defs.len() ==> defined_variable(#[trigger] defs[j]) != defined_variable(defs[i])
}

/// The identifiers of the variables that occur in the constraints.
pub open spec fn constraint_ids(exprs: Seq<TExprView>) -> Set<VariableId> {
    exprs_variables_from(exprs, 0, Map::empty()).dom()
}

/// Whether the set holds every variable of the constraints and, with a
/// defined variable, every variable of the right-hand side that defines it.
pub open spec fn closed(
    defs: Seq<DefinitionView>,
    exprs: Seq<TExprView>,
    s: Set<VariableId>,
) -> bool {
    &&& constraint_ids(exprs).subset_of(s)
    &&& forall|i: int|
        0 <= i < defs.len() && is_last_definition(defs, i) && s.contains(
            defined_variable(#[trigger] defs[i]),
        ) ==> expr_ids(defs[i].value).subset_of(s)
}

/// Whether the constraints depend on the variable, directly or through
/// definitions: the variable lies in every closed set, so in the least one.
pub open spec fn reachable(
    defs: Seq<DefinitionView>,
    exprs: Seq<TExprView>,
    id: VariableId,
) -> bool {
    forall|s: Set<VariableId>| #[trigger] closed(defs, exprs, s) ==> s.contains(id)
}

/// The definitions of the variables that the constraints depend on, in their
/// order.
pub open spec fn live_definitions(defs: Seq<DefinitionView>, exprs: Seq<TExprView>) -> Seq<
    DefinitionView,
> {
    defs.filter(|d: DefinitionView| reachable(defs, exprs, defined_variable(d)))
}

/// Every variable of a constraint keeps its definitions: a definition of a
/// variable that occurs in the constraints is live.
pub proof fn lemma_constraint_variables_stay_defined(
    defs: Seq<DefinitionView>,
    exprs: Seq<TExprView>,
    i: int,
)
    requires
        0 <= i < defs.len(),
        constraint_ids(exprs).contains(defined_variable(defs[i])),
    ensures
        live_definitions(defs, exprs).contains(defs[i]),
{
    let keep = |d: DefinitionView| reachable(defs, exprs, defined_variable(d));
    assert(keep(defs[i]));
    defs.lemma_filter_contains(keep, i);
}

/// Every variable that a live variable is defined by keeps its definitions:
/// where the last definition of a live variable mentions a variable, the
/// definitions of that variable are live too.
pub proof fn lemma_live_definitions_are_closed(
    defs: Seq<DefinitionView>,
    exprs: Seq<TExprView>,
    i: int,
    j: int,
)
    requires
        0 <= i < defs.len(),
        0 <= j < defs.len(),
        is_last_definition(defs, i),
        reachable(defs, exprs, defined_variable(defs[i])),
        expr_ids(defs[i].value).contains(defined_variable(defs[j])),
    ensures
        live_definitions(defs, exprs).contains(defs[j]),
{
    let keep = |d: DefinitionView| reachable(defs, exprs, defined_variable(d));
    assert forall|s: Set<VariableId>| #[trigger] closed(defs, exprs, s) implies s.contains(
        defined_variable(defs[j]),
    ) by {
        assert(s.contains(defined_variable(defs[i])));
        assert(expr_ids(defs[i].value).subset_of(s));
    }
    assert(keep(defs[j]));
    defs.lemma_filter_contains(keep, j);
}

/// Only live definitions are kept, each as it was: a definition that is kept
/// is a definition of the module, and the constraints depend on its variable.
pub proof fn lemma_live_definitions_are_definitions(
    defs: Seq<DefinitionView>,
    exprs: Seq<TExprView>,
    k: int,
)
    requires
        0 <= k < live_definitions(defs, exprs).len(),
    ensures
        defs.contains(live_definitions(defs, exprs)[k]),
        reachable(defs, exprs, defined_variable(live_definitions(defs, exprs)[k])),
{
    let keep = |d: DefinitionView| reachable(defs, exprs, defined_variable(d));
    defs.lemma_filter_pred(keep, k);
    assert(defs.filter(keep).contains(defs.filter(keep)[k]));
    defs.lemma_filter_contains_rev(keep, defs.filter(keep)[k]);
}

/// The number of definitions that are not marked yet.
pub open spec fn unmarked(marked: Seq<bool>) -> nat
    decreases marked.len(),
{
    if marked.len() == 0 {
        0
    } else {
        unmarked(marked.drop_last()) + if marked.last() {
            0nat
        } else {
            1nat
        }
    }
}

/// Marking a definition that was not marked leaves one fewer to mark.
proof fn lemma_mark(marked: Seq<bool>, i: int)
    requires
        0 <= i < marked.len(),
        !marked[i],
    ensures
        unmarked(marked.update(i, true)) + 1 == unmarked(marked),
    decreases marked.len(),
{
    if i == marked.len() - 1 {
        assert(marked.update(i, true).drop_last() =~= marked.drop_last());
    } else {
        lemma_mark(marked.drop_last(), i);
        assert(marked.update(i, true).drop_last() =~= marked.drop_last().update(i, true));
    }
}

/// The variable that the definition defines, if it defines one.
fn variable_of(def: &Definition) -> (r: Option<VariableId>)
    ensures
        match r {
            Some(id) => def@.pattern is Variable && defined_variable(def@) == id,
            None => !(def@.pattern is Variable),
        },
{
    match &def.0.0 {
        Pattern::Variable(v) => Some(v.id),
        _ => None,
    }
}

/// For each defined variable the index of its last definition, or `None`
/// where a definition defines no variable.
fn last_definitions(defs: &Vec<Definition>) -> (r: Option<HashMap<VariableId, usize>>)
    ensures
        match r {
            Some(last) => {
                &&& defines_variables_only(definitions_view(defs@))
                &&& forall|i: int|
                    0 <= i < defs.len() ==> last@.contains_key(
                        defined_variable(#[trigger] definitions_view(defs@)[i]),
                    )
                &&& forall|i: int|
                    0 <= i < defs.len() ==> (is_last_definition(definitions_view(defs@), i)
                        <==> last@[defined_variable(#[trigger] definitions_view(defs@)[i])] == i)
            },
            None => !defines_variables_only(definitions_view(defs@)),
        },
{
    let ghost ds = definitions_view(defs@);
    let mut last: HashMap<VariableId, usize> = HashMap::new();
    let mut i: usize = 0;
    while i < defs.len()
        invariant
            i <= defs.len(),
            ds == definitions_view(defs@),
            forall|j: int| 0 <= j < i ==> (#[trigger] ds[j]).pattern is Variable,
            forall|j: int| 0 <= j < i ==> last@.contains_key(defined_variable(#[trigger] ds[j])),
            forall|id: VariableId| #[trigger]
                last@.contains_key(id) ==> {
                    &&& last@[id] < i
                    &&& defined_variable(ds[last@[id] as int]) == id
                    &&& forall|j: int|
                        last@[id] < j < i ==> defined_variable(#[trigger] ds[j]) != id
                },
        decreases defs.len() - i,
    {
        match variable_of(&defs[i]) {
            Some(id) => {
                last.insert(id, i);
            },
            None => {
                assert(!(ds[i as int].pattern is Variable));
                return None;
            },
        }
        i += 1;
    }
    assert forall|k: int| 0 <= k < defs.len() implies (is_last_definition(ds, k)
        <==> last@[defined_variable(#[trigger] ds[k])] == k) by {
        let id = defined_variable(ds[k]);
        let l = last@[id] as int;
        if l != k {
            if l < k {
                assert(defined_variable(ds[k]) != id);
            }
            assert(!is_last_definition(ds, k));
        }
    }
    Some(last)
}

/// Removes the definitions that the constraints do not depend on, directly or
/// through other definitions. The other definitions keep their order, and the
/// constraints stay. A definition of anything but a variable is
/// `InternalInvariantViolation`, and the module is then left as it was.
pub fn eliminate_dead_definitions(module: &mut Module) -> (r: Result<(), CompileError>)
    ensures
        match r {
            Ok(()) => {
                &&& defines_variables_only(old(module)@.defs)
                &&& final(module)@.defs == live_definitions(old(module)@.defs, old(module)@.exprs)
                &&& final(module)@.exprs == old(module)@.exprs
            },
            Err(e) => {
                &&& !defines_variables_only(old(module)@.defs)
                &&& e@ == ErrorView::InternalInvariantViolation
                &&& final(module)@ == old(module)@
            },
        },
{
    let ghost ds = module@.defs;
    let ghost cs = module@.exprs;
    let last = match last_definitions(&module.defs) {
        Some(last) => last,
        None => {
            return Err(CompileError::InternalInvariantViolation);
        },
    };
    // The variables that the constraints are known to depend on.
    let mut needed: HashMap<VariableId, Variable> = HashMap::new();
    assert(variables_view(needed@) =~= Map::empty());
    let mut k: usize = 0;
    while k < module.exprs.len()
        invariant
            k <= module.exprs.len(),
            *module == *old(module),
            cs == module@.exprs,
            exprs_variables_from(cs, 0, Map::empty()) == exprs_variables_from(
                cs,
                k as nat,
                variables_view(needed@),
            ),
        decreases module.exprs.len() - k,
    {
        collect_expr_variables(&module.exprs[k], &mut needed);
        k += 1;
    }
    assert(variables_view(needed@).dom() == constraint_ids(cs));
    let mut marked: Vec<bool> = Vec::new();
    let mut i: usize = 0;
    while i < module.defs.len()
        invariant
            i <= module.defs.len(),
            marked.len() == i,
            forall|j: int| 0 <= j < i ==> !(#[trigger] marked[j]),
        decreases module.defs.len() - i,
    {
        marked.push(false);
        i += 1;
    }
    let mut changed = true;
    while changed
        invariant
            *module == *old(module),
            ds == module@.defs,
            cs == module@.exprs,
            ds.len() == module.defs.len(),
            marked.len() == module.defs.len(),
            defines_variables_only(ds),
            forall|i: int|
                0 <= i < ds.len() ==> last@.contains_key(defined_variable(#[trigger] ds[i])),
            forall|i: int|
                0 <= i < ds.len() ==> (is_last_definition(ds, i) <==> last@[defined_variable(
                    #[trigger] ds[i],
                )] == i),
            forall|s: Set<VariableId>| #[trigger]
                closed(ds, cs, s) ==> variables_view(needed@).dom().subset_of(s),
            constraint_ids(cs).subset_of(variables_view(needed@).dom()),
            forall|i: int|
                0 <= i < ds.len() && #[trigger] marked[i] ==> expr_ids(ds[i].value).subset_of(
                    variables_view(needed@).dom(),
                ),
            !changed ==> forall|i: int|
                0 <= i < ds.len() && is_last_definition(ds, i) && variables_view(
                    needed@,
                ).dom().contains(defined_variable(#[trigger] ds[i])) ==> marked[i],
        decreases unmarked(marked@), changed as int,
    {
        changed = false;
        let ghost before = unmarked(marked@);
        let ghost start = variables_view(needed@).dom();
        let mut i: usize = 0;
        while i < module.defs.len()
            invariant
                i <= module.defs.len(),
                *module == *old(module),
                ds == module@.defs,
                cs == module@.exprs,
                ds.len() == module.defs.len(),
                marked.len() == module.defs.len(),
                defines_variables_only(ds),
                forall|i: int|
                    0 <= i < ds.len() ==> last@.contains_key(defined_variable(#[trigger] ds[i])),
                forall|i: int|
                    0 <= i < ds.len() ==> (is_last_definition(ds, i) <==> last@[defined_variable(
                        #[trigger] ds[i],
                    )] == i),
                forall|s: Set<VariableId>| #[trigger]
                    closed(ds, cs, s) ==> variables_view(needed@).dom().subset_of(s),
                constraint_ids(cs).subset_of(variables_view(needed@).dom()),
                forall|i: int|
                    0 <= i < ds.len() && #[trigger] marked[i] ==> expr_ids(ds[i].value).subset_of(
                        variables_view(needed@).dom(),
                    ),
                unmarked(marked@) <= before,
                changed ==> unmarked(marked@) < before,
                !changed ==> variables_view(needed@).dom() == start,
                !changed ==> forall|j: int|
                    0 <= j < i && is_last_definition(ds, j) && start.contains(
                        defined_variable(#[trigger] ds[j]),
                    ) ==> marked[j],
            decreases module.defs.len() - i,
        {
            let def = &module.defs[i];
            assert(def@ == ds[i as int]);
            match variable_of(def) {
                Some(id) => {
                    let is_last = match last.get(&id) {
                        Some(l) => *l == i,
                        None => false,
                    };
                    if !marked[i] && is_last && needed.contains_key(&id) {
                        let ghost known = variables_view(needed@);
                        proof {
                            lemma_mark(marked@, i as int);
                            lemma_expr_variables_dom(def@.value, known);
                        }
                        marked.set(i, true);
                        collect_expr_variables(&def.0.1, &mut needed);
                        changed = true;
                        assert(variables_view(needed@).dom() == known.dom().union(
                            expr_ids(ds[i as int].value),
                        ));
                        assert forall|s: Set<VariableId>| #[trigger]
                            closed(ds, cs, s) implies variables_view(needed@).dom().subset_of(
                            s,
                        ) by {
                            assert(known.dom().subset_of(s));
                            assert(s.contains(defined_variable(ds[i as int])));
                            assert(expr_ids(ds[i as int].value).subset_of(s));
                        }
                    }
                },
                None => {},
            }
            i += 1;
        }
    }
    let ghost live = variables_view(needed@).dom();
    assert(closed(ds, cs, live));
    assert forall|id: VariableId| live.contains(id) == reachable(ds, cs, id) by {
        if reachable(ds, cs, id) {
            assert(closed(ds, cs, live));
        }
    }
    let ghost keep = |d: DefinitionView| reachable(ds, cs, defined_variable(d));
    let mut new_defs: Vec<Definition> = Vec::new();
    let mut i: usize = 0;
    assert(definitions_view(new_defs@) =~= ds.take(0).filter(keep)) by {
        reveal(Seq::filter);
    }
    while i < module.defs.len()
        invariant
            i <= module.defs.len(),
            *module == *old(module),
            ds == module@.defs,
            defines_variables_only(ds),
            live == variables_view(needed@).dom(),
            forall|id: VariableId| live.contains(id) == reachable(ds, cs, id),
            keep == |d: DefinitionView| reachable(ds, cs, defined_variable(d)),
            definitions_view(new_defs@) == ds.take(i as int).filter(keep),
        decreases module.defs.len() - i,
    {
        proof {
            reveal(Seq::filter);
            assert(ds.take(i + 1).drop_last() =~= ds.take(i as int));
            assert(ds.take(i + 1).last() == module.defs[i as int]@);
        }
        let def = &module.defs[i];
        assert(def@ == ds[i as int]);
        assert(ds[i as int].pattern is Variable);
        match variable_of(def) {
            Some(id) => {
                assert(keep(def@) == live.contains(id));
                assert(needed@.contains_key(id) == live.contains(id));
                if needed.contains_key(&id) {
                    let ghost before = definitions_view(new_defs@);
                    new_defs.push(def.clone());
                    assert(definitions_view(new_defs@) =~= before.push(def@));
                }
            },
            None => {},
        }
        i += 1;
    }
    assert(ds.take(i as int) =~= ds);
    module.defs = new_defs;
    Ok(())
}

} // verus!
