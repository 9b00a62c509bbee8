//! Substitution environments: maps from variable identifiers to expressions,
//! and the set of witness variables.

use vstd::prelude::*;
use std::collections::{HashMap, HashSet};
use crate::ast::{
    Definition, Pattern, TExpr, TExprView, Type, TypeView, VariableId, branches_view,
    definitions_view, patterns_view, texprs_view,
};

verus! {

broadcast use vstd::std_specs::hash::group_hash_axioms;

/// The model of an environment: each bound identifier with the model of its
/// expression.
pub open spec fn bindings_view(m: Map<VariableId, TExpr>) -> Map<VariableId, TExprView> {
    Map::new(|k: VariableId| m.contains_key(k), |k: VariableId| m[k]@)
}

/// The binding of `id`, if it has one.
pub(crate) fn lookup<'a>(m: &'a HashMap<VariableId, TExpr>, id: VariableId) -> (r: Option<
    &'a TExpr,
>)
    ensures
        match r {
            Some(e) => bindings_view(m@).contains_key(id) && bindings_view(m@)[id] == e@,
            None => !bindings_view(m@).contains_key(id),
        },
{
    m.get(&id)
}

/// Binds `id` to `e`.
pub(crate) fn bind(m: &mut HashMap<VariableId, TExpr>, id: VariableId, e: TExpr)
    ensures
        bindings_view(final(m)@) == bindings_view(old(m)@).insert(id, e@),
{
    m.insert(id, e);
    assert(bindings_view(m@) =~= bindings_view(old(m)@).insert(id, e@));
}

/// A copy of the environment.
pub(crate) fn clone_bindings(m: &HashMap<VariableId, TExpr>) -> (r: HashMap<VariableId, TExpr>)
    ensures
        bindings_view(r@) == bindings_view(m@),
{
    m.clone()
}

/// The model of a type environment: each identifier with the model of its
/// type.
pub open spec fn types_view(m: Map<VariableId, Type>) -> Map<VariableId, TypeView> {
    Map::new(|k: VariableId| m.contains_key(k), |k: VariableId| m[k]@)
}

/// Gives `id` the type `t`.
pub(crate) fn bind_type(m: &mut HashMap<VariableId, Type>, id: VariableId, t: Type)
    ensures
        types_view(final(m)@) == types_view(old(m)@).insert(id, t@),
{
    m.insert(id, t);
    assert(types_view(m@) =~= types_view(old(m)@).insert(id, t@));
}

/// Whether `id` is a witness.
pub(crate) fn is_witness(prover_defs: &HashSet<VariableId>, id: VariableId) -> (r: bool)
    ensures
        r == prover_defs@.contains(id),
{
    prover_defs.contains(&id)
}

/// Makes `id` a witness.
pub(crate) fn add_witness(prover_defs: &mut HashSet<VariableId>, id: VariableId)
    ensures
        final(prover_defs)@ == old(prover_defs)@.insert(id),
{
    prover_defs.insert(id);
}

/// The bindings of `extended` whose variable `outer` does not bind and that
/// is no witness.
pub open spec fn introduced(
    extended: Map<VariableId, TExprView>,
    outer: Map<VariableId, TExprView>,
    prover: Set<VariableId>,
) -> Map<VariableId, TExprView> {
    Map::new(
        |k: VariableId| extended.contains_key(k) && !outer.contains_key(k) && !prover.contains(k),
        |k: VariableId| extended[k],
    )
}

/// The binding of `id` in `extended`, unless `outer` binds `id` too or `id` is
/// a witness.
pub(crate) fn lookup_introduced<'a>(
    extended: &'a HashMap<VariableId, TExpr>,
    outer: &HashMap<VariableId, TExpr>,
    prover_defs: &HashSet<VariableId>,
    id: VariableId,
) -> (r: Option<&'a TExpr>)
    ensures
        match r {
            Some(e) => introduced(
                bindings_view(extended@),
                bindings_view(outer@),
                prover_defs@,
            ).contains_key(id) && introduced(
                bindings_view(extended@),
                bindings_view(outer@),
                prover_defs@,
            )[id] == e@,
            None => !introduced(
                bindings_view(extended@),
                bindings_view(outer@),
                prover_defs@,
            ).contains_key(id),
        },
{
    if outer.contains_key(&id) || prover_defs.contains(&id) {
        None
    } else {
        extended.get(&id)
    }
}

/// Appends an expression; the model grows by the model of the expression.
pub(crate) fn push_texpr(v: &mut Vec<TExpr>, e: TExpr)
    ensures
        texprs_view(final(v)@) == texprs_view(old(v)@).push(e@),
        final(v)@.len() == old(v)@.len() + 1,
{
    v.push(e);
    assert(texprs_view(v@) =~= texprs_view(old(v)@).push(e@));
}

/// Appends a definition; the model grows by the model of the definition.
pub(crate) fn push_definition(v: &mut Vec<Definition>, d: Definition)
    ensures
        definitions_view(final(v)@) == definitions_view(old(v)@).push(d@),
{
    v.push(d);
    assert(definitions_view(v@) =~= definitions_view(old(v)@).push(d@));
}

/// Appends a pattern; the model grows by the model of the pattern.
pub(crate) fn push_pattern(v: &mut Vec<Pattern>, p: Pattern)
    ensures
        patterns_view(final(v)@) == patterns_view(old(v)@).push(p@),
{
    v.push(p);
    assert(patterns_view(v@) =~= patterns_view(old(v)@).push(p@));
}

/// Appends a branch; the model grows by the model of the branch.
pub(crate) fn push_branch(v: &mut Vec<(Pattern, TExpr)>, p: Pattern, e: TExpr)
    ensures
        branches_view(final(v)@) == branches_view(old(v)@).push((p@, e@)),
{
    v.push((p, e));
    assert(branches_view(v@) =~= branches_view(old(v)@).push((p@, e@)));
}

} // verus!
