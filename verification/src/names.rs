//! The map from names to variable identifiers that numbering resolves names
//! with.

use vstd::prelude::*;
use crate::ast::VariableId;

verus! {

/// A finite map from names to identifiers. A later binding of a name
/// replaces an earlier one.
pub struct NameMap {
    entries: Vec<(String, VariableId)>,
}

/// The map that the bindings in `s` give when they are made in order.
pub open spec fn bindings_of(s: Seq<(String, VariableId)>) -> Map<Seq<char>, VariableId>
    decreases s.len(),
{
    if s.len() == 0 {
        Map::empty()
    } else {
        bindings_of(s.drop_last()).insert(s.last().0@, s.last().1)
    }
}

impl View for NameMap {
    type V = Map<Seq<char>, VariableId>;

    closed spec fn view(&self) -> Map<Seq<char>, VariableId> {
        bindings_of(self.entries@)
    }
}

impl NameMap {
    /// The map that binds no name.
    pub fn new() -> (r: NameMap)
        ensures
            r@ == Map::<Seq<char>, VariableId>::empty(),
    {
        NameMap { entries: Vec::new() }
    }

    /// Binds `name` to `id`.
    pub fn insert(&mut self, name: String, id: VariableId)
        ensures
            final(self)@ == old(self)@.insert(name@, id),
    {
        let ghost before = self.entries@;
        self.entries.push((name, id));
        assert(self.entries@.drop_last() =~= before);
    }

    /// The identifier that `name` is bound to, if it is bound.
    pub fn get(&self, name: &String) -> (r: Option<VariableId>)
        ensures
            match r {
                Some(id) => self@.contains_key(name@) && self@[name@] == id,
                None => !self@.contains_key(name@),
            },
    {
        let mut i: usize = self.entries.len();
        assert(self.entries@.take(i as int) =~= self.entries@);
        while i > 0
            invariant
                i <= self.entries.len(),
                self@.contains_key(name@) == bindings_of(self.entries@.take(i as int)).contains_key(
                    name@,
                ),
                self@.contains_key(name@) ==> self@[name@] == bindings_of(
                    self.entries@.take(i as int),
                )[name@],
            decreases i,
        {
            assert(self.entries@.take(i as int).drop_last() =~= self.entries@.take(i - 1));
            i -= 1;
            if self.entries[i].0 == *name {
                return Some(self.entries[i].1);
            }
        }
        None
    }

    /// Whether `name` is bound.
    pub fn contains_key(&self, name: &String) -> (r: bool)
        ensures
            r == self@.contains_key(name@),
    {
        self.get(name).is_some()
    }
}

impl Clone for NameMap {
    fn clone(&self) -> (r: NameMap)
        ensures
            r@ == self@,
    {
        let mut entries: Vec<(String, VariableId)> = Vec::new();
        let mut i: usize = 0;
        while i < self.entries.len()
            invariant
                i <= self.entries.len(),
                entries@ == self.entries@.take(i as int),
            decreases self.entries.len() - i,
        {
            let name = self.entries[i].0.clone();
            entries.push((name, self.entries[i].1));
            assert(entries@ =~= self.entries@.take(i + 1));
            i += 1;
        }
        assert(self.entries@.take(i as int) =~= self.entries@);
        NameMap { entries }
    }
}

} // verus!
