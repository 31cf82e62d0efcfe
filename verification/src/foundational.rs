//! The capabilities that a type requires of the target once a value of the
//! type is dynamic.

use crate::capability::CapabilitySet;
use crate::capability::RuntimeCapability;
use crate::fir::Prim;
use crate::fir::Ty;
use vstd::prelude::*;

verus! {

/// Whether a dynamic value of the primitive type requires `cap`.
pub open spec fn prim_requires(prim: Prim, cap: RuntimeCapability) -> bool {
    match prim {
        Prim::Qubit => false,
        Prim::Bool | Prim::Result => cap == RuntimeCapability::ConditionalForwardBranching,
        Prim::Int | Prim::Pauli | Prim::Range | Prim::RangeFrom | Prim::RangeTo | Prim::RangeFull =>
            cap == RuntimeCapability::IntegerComputations,
        Prim::Double => cap == RuntimeCapability::FloatingPointComputation,
        Prim::BigInt | Prim::String => cap == RuntimeCapability::HigherLevelConstructs,
    }
}

/// Whether a dynamic value of the type requires `cap`. A tuple requires what
/// one of its items requires. Types outside the grammar of values require
/// nothing.
pub open spec fn ty_requires(ty: &Ty, cap: RuntimeCapability) -> bool
    decreases ty,
{
    match ty {
        Ty::Array(_) | Ty::Arrow(_) | Ty::Udt(_) => cap == RuntimeCapability::HigherLevelConstructs,
        Ty::Prim(prim) => prim_requires(*prim, cap),
        Ty::Tuple(items) => exists|i: int|
            #![trigger items@[i]]
            0 <= i < items@.len() && ty_requires(&items@[i], cap),
        Ty::Infer(_) | Ty::Param(_) | Ty::Invalid => false,
    }
}

/// The capabilities that a dynamic value of the primitive type requires.
pub open spec fn prim_caps(prim: Prim) -> Set<RuntimeCapability> {
    Set::new(|cap: RuntimeCapability| prim_requires(prim, cap))
}

/// The capabilities that a dynamic value of the type requires.
pub open spec fn ty_caps(ty: &Ty) -> Set<RuntimeCapability> {
    Set::new(|cap: RuntimeCapability| ty_requires(ty, cap))
}

/// The capabilities that a dynamic value of one of the first `count` types
/// requires.
pub open spec fn tys_caps(tys: Seq<Ty>, count: int) -> Set<RuntimeCapability> {
    Set::new(
        |cap: RuntimeCapability|
            exists|i: int|
                #![trigger tys[i]]
                0 <= i < count && i < tys.len() && ty_requires(&tys[i], cap),
    )
}

/// Whether the type is one that a value can have: an array, a callable, a
/// primitive type, a user-defined type, or a tuple of such types.
pub open spec fn is_value_ty(ty: &Ty) -> bool
    decreases ty,
{
    match ty {
        Ty::Array(_) | Ty::Arrow(_) | Ty::Udt(_) | Ty::Prim(_) => true,
        Ty::Tuple(items) => forall|i: int|
            #![trigger items@[i]]
            0 <= i < items@.len() ==> is_value_ty(&items@[i]),
        Ty::Infer(_) | Ty::Param(_) | Ty::Invalid => false,
    }
}

/// The capabilities of a tuple are those of its items together.
pub proof fn lemma_tuple_caps(ty: &Ty)
    requires
        ty is Tuple,
    ensures
        ty_caps(ty) == tys_caps(ty->Tuple_0@, ty->Tuple_0@.len() as int),
{
    let items = ty->Tuple_0@;
    assert(ty_caps(ty) =~= tys_caps(items, items.len() as int));
}

/// The capabilities that a dynamic value of the type requires. A type
/// outside the grammar of values requires nothing.
pub fn required_caps(ty: &Ty) -> (caps: CapabilitySet)
    ensures
        caps@ == ty_caps(ty),
    decreases ty, 1nat,
{
    let caps = match ty {
        Ty::Array(_) | Ty::Arrow(_) | Ty::Udt(_) => CapabilitySet::from_capability(
            RuntimeCapability::HigherLevelConstructs,
        ),
        Ty::Prim(prim) => Foundational::assume_caps_from_primitive_type(prim),
        Ty::Tuple(items) => {
            proof {
                lemma_tuple_caps(ty);
            }
            required_caps_of_all(items)
        },
        Ty::Infer(_) | Ty::Param(_) | Ty::Invalid => CapabilitySet::new(),
    };
    assert(caps@ =~= ty_caps(ty));
    caps
}

/// The capabilities that dynamic values of the types require together.
pub fn required_caps_of_all(tuple: &Vec<Ty>) -> (caps: CapabilitySet)
    ensures
        caps@ == tys_caps(tuple@, tuple@.len() as int),
    decreases tuple, 0nat,
{
    let mut caps = CapabilitySet::new();
    let mut i: usize = 0;
    assert(caps@ =~= tys_caps(tuple@, 0));
    while i < tuple.len()
        invariant
            i <= tuple@.len(),
            caps@ == tys_caps(tuple@, i as int),
        decreases tuple@.len() - i,
    {
        let item_caps = required_caps(&tuple[i]);
        caps.extend(&item_caps);
        assert(caps@ =~= tys_caps(tuple@, i + 1));
        i += 1;
    }
    caps
}

/// The mapping from types to the capabilities that they require.
pub struct Foundational;

impl Foundational {
    /// The capabilities that a dynamic value of the type requires.
    pub fn assume_caps_from_type(ty: &Ty) -> (caps: CapabilitySet)
        requires
            is_value_ty(ty),
        ensures
            caps@ == ty_caps(ty),
        decreases ty, 1nat,
    {
        let caps = match ty {
            Ty::Array(_) => CapabilitySet::from_capability(
                RuntimeCapability::HigherLevelConstructs,
            ),
            Ty::Arrow(_) => CapabilitySet::from_capability(
                RuntimeCapability::HigherLevelConstructs,
            ),
            Ty::Prim(prim) => Self::assume_caps_from_primitive_type(prim),
            Ty::Tuple(items) => {
                proof {
                    lemma_tuple_caps(ty);
                }
                Self::assume_caps_from_tuple_type(items)
            },
            Ty::Udt(_) => CapabilitySet::from_capability(RuntimeCapability::HigherLevelConstructs),
            _ => {
                proof {
                    assert(false);
                }
                CapabilitySet::new()
            },
        };
        assert(caps@ =~= ty_caps(ty));
        caps
    }

    /// The capabilities that dynamic values of the types require together.
    pub fn assume_caps_from_tuple_type(tuple: &Vec<Ty>) -> (caps: CapabilitySet)
        requires
            forall|i: int| #![trigger tuple@[i]] 0 <= i < tuple@.len() ==> is_value_ty(&tuple@[i]),
        ensures
            caps@ == tys_caps(tuple@, tuple@.len() as int),
        decreases tuple, 0nat,
    {
        let mut caps = CapabilitySet::new();
        let mut i: usize = 0;
        assert(caps@ =~= tys_caps(tuple@, 0));
        while i < tuple.len()
            invariant
                i <= tuple@.len(),
                forall|j: int|
                    #![trigger tuple@[j]]
                    0 <= j < tuple@.len() ==> is_value_ty(&tuple@[j]),
                caps@ == tys_caps(tuple@, i as int),
            decreases tuple@.len() - i,
        {
            let item_caps = Self::assume_caps_from_type(&tuple[i]);
            caps.extend(&item_caps);
            assert(caps@ =~= tys_caps(tuple@, i + 1));
            i += 1;
        }
        caps
    }

    /// The capabilities that a dynamic value of the primitive type requires.
    pub fn assume_caps_from_primitive_type(primitive: &Prim) -> (caps: CapabilitySet)
        ensures
            caps@ == prim_caps(*primitive),
    {
        let caps = match primitive {
            Prim::BigInt => CapabilitySet::from_capability(
                RuntimeCapability::HigherLevelConstructs,
            ),
            Prim::Bool => CapabilitySet::from_capability(
                RuntimeCapability::ConditionalForwardBranching,
            ),
            Prim::Double => CapabilitySet::from_capability(
                RuntimeCapability::FloatingPointComputation,
            ),
            Prim::Int => CapabilitySet::from_capability(RuntimeCapability::IntegerComputations),
            Prim::Pauli => CapabilitySet::from_capability(RuntimeCapability::IntegerComputations),
            Prim::Qubit => CapabilitySet::new(),
            Prim::Range | Prim::RangeFrom | Prim::RangeTo | Prim::RangeFull => {
                CapabilitySet::from_capability(RuntimeCapability::IntegerComputations)
            },
            Prim::Result => CapabilitySet::from_capability(
                RuntimeCapability::ConditionalForwardBranching,
            ),
            Prim::String => CapabilitySet::from_capability(
                RuntimeCapability::HigherLevelConstructs,
            ),
        };
        assert(caps@ =~= prim_caps(*primitive));
        caps
    }
}

} // verus!
