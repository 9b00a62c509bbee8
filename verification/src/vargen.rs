//! The generator of variable identifiers.

use vstd::prelude::*;
use crate::ast::VariableId;
use crate::error::{CompileError, ErrorView};

verus! {

/// Issues identifiers in increasing order, each one once.
pub struct VarGen(VariableId);

impl View for VarGen {
    type V = nat;

    /// The next identifier that will be issued.
    closed spec fn view(&self) -> nat {
        self.0 as nat
    }
}

impl VarGen {
    /// A generator that has issued nothing yet.
    pub fn new() -> (r: VarGen)
        ensures
            r@ == 0,
    {
        VarGen(0)
    }

    /// A generator that issues `next` first, for a compilation that goes on
    /// where another one stopped.
    pub fn starting_at(next: VariableId) -> (r: VarGen)
        ensures
            r@ == next,
    {
        VarGen(next)
    }

    /// Whether another identifier can be issued.
    pub fn has_next(&self) -> (r: bool)
        ensures
            r == (self@ < u32::MAX),
    {
        self.0 < u32::MAX
    }

    /// Issues the next identifier.
    pub fn generate_id(&mut self) -> (id: VariableId)
        requires
            old(self)@ < u32::MAX,
        ensures
            id == old(self)@,
            final(self)@ == old(self)@ + 1,
    {
        let curr_id = self.0;
        self.0 += 1;
        curr_id
    }
}

/// What issuing one identifier does to a generator that stands at `next`: the
/// identifier and the new position, or `IdentifiersExhausted` where `next` has
/// reached the largest value of the identifier type.
pub open spec fn mint(next: nat) -> Result<(VariableId, nat), ErrorView> {
    if next < u32::MAX {
        Ok((next as VariableId, next + 1))
    } else {
        Err(ErrorView::IdentifiersExhausted)
    }
}

impl VarGen {
    /// Issues the next identifier if one is left.
    pub fn try_generate_id(&mut self) -> (r: Result<VariableId, CompileError>)
        ensures
            match r {
                Ok(id) => mint(
                    old(self)@) == Ok::<(VariableId, nat),
                    ErrorView>((id, final(self)@),
                ),
                Err(e) => final(self)@ == old(self)@ && mint(old(self)@) == Err::<
                    (VariableId, nat),
                    ErrorView,
                >(e@),
            },
    {
        if self.has_next() {
            Ok(self.generate_id())
        } else {
            Err(CompileError::IdentifiersExhausted)
        }
    }
}

} // verus!
