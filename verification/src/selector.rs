//! Selectors of the specializations of a callable, and the rule by which
//! functors compose them.

use crate::fir::Functor;
use crate::fir::LocalItemId;
use crate::fir::SpecDecl;
use crate::fir::Specializations;
use vstd::prelude::*;

verus! {

/// Selects one of the four specializations of a callable: the body, the
/// adjoint, the controlled or the controlled adjoint one.
#[derive(Clone, Copy, Debug, PartialEq, Eq, Structural, Hash)]
pub struct SpecializationSelector {
    pub adjoint: bool,
    pub controlled: bool,
}

impl Default for SpecializationSelector {
    fn default() -> (selector: Self)
        ensures
            selector == SpecializationSelector::body(),
    {
        SpecializationSelector { adjoint: false, controlled: false }
    }
}

impl SpecializationSelector {
    /// The selector of the body.
    pub open spec fn body() -> SpecializationSelector {
        SpecializationSelector { adjoint: false, controlled: false }
    }

    /// The selector reached by applying a functor: the adjoint functor flips
    /// `adjoint`, the controlled functor sets `controlled`.
    pub open spec fn spec_apply(self, functor: Functor) -> SpecializationSelector {
        match functor {
            Functor::Adj => SpecializationSelector {
                adjoint: !self.adjoint,
                controlled: self.controlled,
            },
            Functor::Ctl => SpecializationSelector { adjoint: self.adjoint, controlled: true },
        }
    }

    /// The selector reached by applying the functors one after the other.
    pub open spec fn spec_apply_all(self, functors: Seq<Functor>) -> SpecializationSelector
        decreases functors.len(),
    {
        if functors.len() == 0 {
            self
        } else {
            self.spec_apply_all(functors.drop_last()).spec_apply(functors.last())
        }
    }

    /// The selector reached by applying a functor.
    pub fn apply(self, functor: Functor) -> (selector: Self)
        ensures
            selector == self.spec_apply(functor),
    {
        match functor {
            Functor::Adj => SpecializationSelector {
                adjoint: !self.adjoint,
                controlled: self.controlled,
            },
            // Once set, `controlled` stays set.
            Functor::Ctl => SpecializationSelector { adjoint: self.adjoint, controlled: true },
        }
    }

    /// The number of the selector among the four: 0 for the body, 1 for the
    /// controlled, 2 for the adjoint, 3 for the controlled adjoint one.
    pub open spec fn spec_ordinal(self) -> nat {
        (if self.adjoint {
            2nat
        } else {
            0nat
        }) + (if self.controlled {
            1nat
        } else {
            0nat
        })
    }

    /// The specialization of `specs` that the selector selects, if there is
    /// one.
    pub open spec fn spec_select(self, specs: Specializations) -> Option<SpecDecl> {
        if !self.adjoint && !self.controlled {
            Some(specs.body)
        } else if self.adjoint && !self.controlled {
            specs.adj
        } else if !self.adjoint && self.controlled {
            specs.ctl
        } else {
            specs.ctl_adj
        }
    }

    /// The specialization of `specs` that the selector selects, if there is
    /// one.
    pub fn select(self, specs: &Specializations) -> (decl: Option<SpecDecl>)
        ensures
            decl == self.spec_select(*specs),
    {
        if !self.adjoint && !self.controlled {
            Some(specs.body)
        } else if self.adjoint && !self.controlled {
            specs.adj
        } else if !self.adjoint && self.controlled {
            specs.ctl
        } else {
            specs.ctl_adj
        }
    }
}

/// Applying the adjoint functor twice restores the selector.
pub proof fn lemma_adjoint_is_an_involution(selector: SpecializationSelector)
    ensures
        selector.spec_apply(Functor::Adj).spec_apply(Functor::Adj) == selector,
{
}

/// Applying the controlled functor a second time changes nothing.
pub proof fn lemma_controlled_is_idempotent(selector: SpecializationSelector)
    ensures
        selector.spec_apply(Functor::Ctl).spec_apply(Functor::Ctl) == selector.spec_apply(
            Functor::Ctl,
        ),
        selector.spec_apply(Functor::Ctl).controlled,
{
}

/// No sequence of functors clears `controlled`.
pub proof fn lemma_controlled_is_never_cleared(
    selector: SpecializationSelector,
    functors: Seq<Functor>,
)
    requires
        selector.controlled,
    ensures
        selector.spec_apply_all(functors).controlled,
    decreases functors.len(),
{
    if functors.len() > 0 {
        lemma_controlled_is_never_cleared(selector, functors.drop_last());
    }
}

/// Any sequence of functors with a controlled functor in it leaves
/// `controlled` set.
pub proof fn lemma_controlled_sets_for_good(
    selector: SpecializationSelector,
    functors: Seq<Functor>,
    at: int,
)
    requires
        0 <= at < functors.len(),
        functors[at] == Functor::Ctl,
    ensures
        selector.spec_apply_all(functors).controlled,
    decreases functors.len(),
{
    if at < functors.len() - 1 {
        lemma_controlled_sets_for_good(selector, functors.drop_last(), at);
    }
}

/// One specialization of one callable of a package.
#[derive(Clone, Copy, Debug, PartialEq, Eq, Structural, Hash)]
pub struct CallableSpecializationSelector {
    pub callable: LocalItemId,
    pub specialization_selector: SpecializationSelector,
}

impl CallableSpecializationSelector {
    /// The number under which the specialization is kept in hash sets and
    /// tables: four times the callable's key plus the selector's ordinal.
    pub open spec fn spec_key(self) -> usize {
        (4 * self.callable.0 + self.specialization_selector.spec_ordinal()) as usize
    }

    /// The number under which the specialization is kept in hash sets and
    /// tables.
    pub fn key(&self) -> (key: usize)
        requires
            4 * self.callable.0 + 4 <= usize::MAX,
        ensures
            key == self.spec_key(),
            key < usize::MAX,
    {
        let adjoint: usize = if self.specialization_selector.adjoint {
            2
        } else {
            0
        };
        let controlled: usize = if self.specialization_selector.controlled {
            1
        } else {
            0
        };
        4 * self.callable.0 + adjoint + controlled
    }
}

} // verus!
