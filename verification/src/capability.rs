//! Runtime capabilities and sets of them.
//!
//! A capability set is kept in a hash set of capability codes that hashes
//! with the `fx` algorithm. Its view is the mathematical set of capabilities
//! whose code the hash set holds.

use crate::fx::fx_set_clone;
use crate::fx::fx_set_contains;
use crate::fx::fx_set_insert;
use crate::fx::fx_set_new;
use rustc_hash::FxHashSet;
use vstd::prelude::*;

verus! {

/// A feature of the target that running a program may require.
#[derive(Clone, Copy, Debug, PartialEq, Eq, Structural, Hash)]
pub enum RuntimeCapability {
    /// Branching on a value that is only known while the program runs.
    ConditionalForwardBranching,
    /// Integer arithmetic while the program runs.
    IntegerComputations,
    /// Floating-point arithmetic while the program runs.
    FloatingPointComputation,
    /// Arrays, callables as values, user-defined types, strings, big integers.
    HigherLevelConstructs,
}

impl RuntimeCapability {
    /// The number under which a capability is kept in a hash set.
    pub open spec fn spec_code(self) -> usize {
        match self {
            RuntimeCapability::ConditionalForwardBranching => 0,
            RuntimeCapability::IntegerComputations => 1,
            RuntimeCapability::FloatingPointComputation => 2,
            RuntimeCapability::HigherLevelConstructs => 3,
        }
    }

    /// The number under which a capability is kept in a hash set.
    pub fn code(self) -> (code: usize)
        ensures
            code == self.spec_code(),
    {
        match self {
            RuntimeCapability::ConditionalForwardBranching => 0,
            RuntimeCapability::IntegerComputations => 1,
            RuntimeCapability::FloatingPointComputation => 2,
            RuntimeCapability::HigherLevelConstructs => 3,
        }
    }

    /// All capabilities, in the order of their declaration.
    pub open spec fn all() -> Seq<RuntimeCapability> {
        seq![
            RuntimeCapability::ConditionalForwardBranching,
            RuntimeCapability::IntegerComputations,
            RuntimeCapability::FloatingPointComputation,
            RuntimeCapability::HigherLevelConstructs,
        ]
    }
}

/// A set of runtime capabilities.
#[derive(Debug)]
pub struct CapabilitySet {
    codes: FxHashSet<usize>,
}

impl Clone for CapabilitySet {
    fn clone(&self) -> (copy: Self)
        ensures
            copy@ == self@,
    {
        CapabilitySet { codes: fx_set_clone(&self.codes) }
    }
}

impl View for CapabilitySet {
    type V = Set<RuntimeCapability>;

    closed spec fn view(&self) -> Set<RuntimeCapability> {
        Set::new(|cap: RuntimeCapability| self.codes@.contains(cap.spec_code()))
    }
}

impl CapabilitySet {
    /// The empty set.
    pub fn new() -> (set: Self)
        ensures
            set@ == Set::<RuntimeCapability>::empty(),
    {
        let set = CapabilitySet { codes: fx_set_new() };
        assert(set@ =~= Set::<RuntimeCapability>::empty());
        set
    }

    /// The set that holds one capability.
    pub fn from_capability(cap: RuntimeCapability) -> (set: Self)
        ensures
            set@ == Set::<RuntimeCapability>::empty().insert(cap),
    {
        let mut set = CapabilitySet::new();
        set.insert(cap);
        set
    }

    /// Whether the set holds `cap`.
    pub fn contains(&self, cap: RuntimeCapability) -> (found: bool)
        ensures
            found == self@.contains(cap),
    {
        fx_set_contains(&self.codes, cap.code())
    }

    /// Adds `cap` to the set.
    pub fn insert(&mut self, cap: RuntimeCapability)
        ensures
            final(self)@ == old(self)@.insert(cap),
    {
        let _ = fx_set_insert(&mut self.codes, cap.code());
        assert(self@ =~= old(self)@.insert(cap));
    }

    /// Adds every capability of `other` to the set.
    pub fn extend(&mut self, other: &CapabilitySet)
        ensures
            final(self)@ == old(self)@.union(other@),
    {
        if other.contains(RuntimeCapability::ConditionalForwardBranching) {
            self.insert(RuntimeCapability::ConditionalForwardBranching);
        }
        if other.contains(RuntimeCapability::IntegerComputations) {
            self.insert(RuntimeCapability::IntegerComputations);
        }
        if other.contains(RuntimeCapability::FloatingPointComputation) {
            self.insert(RuntimeCapability::FloatingPointComputation);
        }
        if other.contains(RuntimeCapability::HigherLevelConstructs) {
            self.insert(RuntimeCapability::HigherLevelConstructs);
        }
        assert(self@ =~= old(self)@.union(other@));
    }

    /// Whether the set holds no capability.
    pub fn is_empty(&self) -> (empty: bool)
        ensures
            empty == (self@ == Set::<RuntimeCapability>::empty()),
    {
        let empty = !self.contains(RuntimeCapability::ConditionalForwardBranching)
            && !self.contains(RuntimeCapability::IntegerComputations)
            && !self.contains(RuntimeCapability::FloatingPointComputation)
            && !self.contains(RuntimeCapability::HigherLevelConstructs);
        proof {
            if empty {
                assert(self@ =~= Set::<RuntimeCapability>::empty());
            }
        }
        empty
    }

    /// The capabilities of the set, in the order of their declaration.
    pub fn to_vec(&self) -> (caps: Vec<RuntimeCapability>)
        ensures
            caps@ == RuntimeCapability::all().filter(|cap: RuntimeCapability| self@.contains(cap)),
    {
        let mut caps: Vec<RuntimeCapability> = Vec::new();
        let all = [
            RuntimeCapability::ConditionalForwardBranching,
            RuntimeCapability::IntegerComputations,
            RuntimeCapability::FloatingPointComputation,
            RuntimeCapability::HigherLevelConstructs,
        ];
        let ghost keep = |cap: RuntimeCapability| self@.contains(cap);
        let mut i: usize = 0;
        assert(all@ =~= RuntimeCapability::all());
        assert(all@.take(0) =~= Seq::<RuntimeCapability>::empty());
        while i < 4
            invariant
                i <= 4,
                all@ == RuntimeCapability::all(),
                keep == |cap: RuntimeCapability| self@.contains(cap),
                caps@ == all@.take(i as int).filter(keep),
            decreases 4 - i,
        {
            let cap = all[i];
            proof {
                assert(all@.take(i + 1).drop_last() =~= all@.take(i as int));
                assert(all@.take(i + 1).last() == cap);
                reveal(Seq::filter);
            }
            if self.contains(cap) {
                caps.push(cap);
            }
            i += 1;
        }
        assert(all@.take(4) =~= all@);
        caps
    }
}

} // verus!
