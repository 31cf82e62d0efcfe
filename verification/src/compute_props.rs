//! Compute properties and the table that holds them per application.
//!
//! An application of a callable with `k` input parameters says which of the
//! parameters are dynamic. It is numbered by an index below `2^k`: parameter
//! `i` is dynamic where bit `i` of the index is set.

use crate::capability::CapabilitySet;
use crate::capability::RuntimeCapability;
use vstd::arithmetic::div_mod::lemma_div_denominator;
use vstd::arithmetic::power2::lemma_pow2_pos;
use vstd::arithmetic::power2::lemma_pow2_unfold;
use vstd::arithmetic::power2::pow2;
use vstd::prelude::*;

verus! {

/// The position of a parameter among the input parameters of a callable.
#[derive(Clone, Copy, Debug, Default, PartialEq, Eq, Structural, Hash, PartialOrd, Ord)]
pub struct ParamIdx(pub usize);

/// The number of an application.
#[derive(Clone, Copy, Debug, Default, PartialEq, Eq, Structural, Hash, PartialOrd, Ord)]
pub struct AppIdx(pub usize);

/// Whether a value is known before the program runs.
#[derive(Clone, Copy, Debug, PartialEq, Eq, Structural, Hash)]
pub enum ComputeKind {
    Static,
    Dynamic,
}

/// Where a value that cannot be known before the program runs comes from.
#[derive(Clone, Copy, Debug, PartialEq, Eq, Structural, Hash)]
pub enum QuantumSource {
    Intrinsic,
    ItemId,
    BlockId,
    StmtId,
    ExprId,
    PatId,
}

/// Whether bit `param` of `index` is set.
pub open spec fn bit_is_set(index: nat, param: nat) -> bool {
    (index / pow2(param)) % 2 == 1
}

impl AppIdx {
    /// Whether the application takes parameter `param` as dynamic.
    pub open spec fn spec_is_dynamic(self, param: nat) -> bool {
        bit_is_set(self.0 as nat, param)
    }

    /// The compute kind of parameter `param` in the application.
    pub open spec fn spec_param_kind(self, param: nat) -> ComputeKind {
        if self.spec_is_dynamic(param) {
            ComputeKind::Dynamic
        } else {
            ComputeKind::Static
        }
    }

    /// The compute kind of each of the first `input_param_count` parameters.
    pub fn map_to_compute_kind_vector(&self, input_param_count: usize) -> (kinds: Vec<ComputeKind>)
        ensures
            kinds@.len() == input_param_count,
            forall|param: int|
                0 <= param < input_param_count ==> kinds@[param] == self.spec_param_kind(
                    param as nat,
                ),
    {
        let mut params_compute_kind: Vec<ComputeKind> = Vec::new();
        let mut rest: usize = self.0;
        let mut param_idx: usize = 0;
        proof {
            lemma2_pow2_zero();
        }
        while param_idx < input_param_count
            invariant
                param_idx <= input_param_count,
                params_compute_kind@.len() == param_idx,
                rest as nat == self.0 as nat / pow2(param_idx as nat),
                forall|param: int|
                    0 <= param < param_idx ==> params_compute_kind@[param] == self.spec_param_kind(
                        param as nat,
                    ),
            decreases input_param_count - param_idx,
        {
            let compute_kind = if rest % 2 == 0 {
                ComputeKind::Static
            } else {
                ComputeKind::Dynamic
            };
            params_compute_kind.push(compute_kind);
            proof {
                lemma_pow2_pos(param_idx as nat);
                lemma_pow2_unfold((param_idx + 1) as nat);
                lemma_div_denominator(self.0 as int, pow2(param_idx as nat) as int, 2);
            }
            rest = rest / 2;
            param_idx += 1;
        }
        params_compute_kind
    }
}

/// Two to the power zero is one.
pub proof fn lemma2_pow2_zero()
    ensures
        pow2(0) == 1,
{
    vstd::arithmetic::power2::lemma2_to64();
}

/// Two to the power of the exponent, or nothing where that is more than a
/// `usize` holds.
pub fn checked_pow2(exponent: usize) -> (power: Option<usize>)
    ensures
        match power {
            Some(power) => power == pow2(exponent as nat),
            None => pow2(exponent as nat) > usize::MAX,
        },
{
    let mut power: usize = 1;
    let mut i: usize = 0;
    proof {
        lemma2_pow2_zero();
    }
    while i < exponent
        invariant
            i <= exponent,
            power == pow2(i as nat),
        decreases exponent - i,
    {
        proof {
            lemma_pow2_unfold((i + 1) as nat);
        }
        match power.checked_mul(2) {
            Some(doubled) => {
                power = doubled;
            },
            None => {
                proof {
                    if i + 1 < exponent {
                        vstd::arithmetic::power2::lemma_pow2_strictly_increases(
                            (i + 1) as nat,
                            exponent as nat,
                        );
                    }
                }
                return None;
            },
        }
        i += 1;
    }
    Some(power)
}

/// What evaluating something requires and whether its value is known only
/// while the program runs.
#[derive(Debug)]
pub struct ComputeProps {
    pub rt_caps: CapabilitySet,
    pub quantum_sources: Vec<QuantumSource>,
}

/// The mathematical value of a `ComputeProps`.
pub struct ComputePropsView {
    pub rt_caps: Set<RuntimeCapability>,
    pub quantum_sources: Seq<QuantumSource>,
}

impl View for ComputeProps {
    type V = ComputePropsView;

    open spec fn view(&self) -> ComputePropsView {
        ComputePropsView { rt_caps: self.rt_caps@, quantum_sources: self.quantum_sources@ }
    }
}

impl Clone for ComputeProps {
    fn clone(&self) -> (copy: Self)
        ensures
            copy@ == self@,
    {
        let mut quantum_sources: Vec<QuantumSource> = Vec::new();
        let mut i: usize = 0;
        while i < self.quantum_sources.len()
            invariant
                i <= self.quantum_sources@.len(),
                quantum_sources@ == self.quantum_sources@.take(i as int),
            decreases self.quantum_sources@.len() - i,
        {
            quantum_sources.push(self.quantum_sources[i]);
            assert(self.quantum_sources@.take(i + 1) =~= self.quantum_sources@.take(
                i as int,
            ).push(self.quantum_sources@[i as int]));
            i += 1;
        }
        assert(self.quantum_sources@.take(i as int) =~= self.quantum_sources@);
        ComputeProps { rt_caps: self.rt_caps.clone(), quantum_sources }
    }
}

impl ComputePropsView {
    /// Whether the value comes from a quantum source.
    pub open spec fn is_quantum_source(self) -> bool {
        self.quantum_sources.len() > 0
    }

    /// Static where nothing is required, dynamic otherwise.
    pub open spec fn compute_kind(self) -> ComputeKind {
        if self.rt_caps == Set::<RuntimeCapability>::empty() {
            ComputeKind::Static
        } else {
            ComputeKind::Dynamic
        }
    }
}

impl ComputeProps {
    /// Whether the value comes from a quantum source.
    pub fn is_quantum_source(&self) -> (source: bool)
        ensures
            source == self@.is_quantum_source(),
    {
        self.quantum_sources.len() > 0
    }

    /// Static where nothing is required, dynamic otherwise.
    pub fn compute_kind(&self) -> (kind: ComputeKind)
        ensures
            kind == self@.compute_kind(),
    {
        if self.rt_caps.is_empty() {
            ComputeKind::Static
        } else {
            ComputeKind::Dynamic
        }
    }
}

/// The compute properties of a callable, one per application. A table for `k`
/// input parameters is complete once it holds `2^k` applications; they are
/// added in the order of their index.
#[derive(Debug)]
pub struct AppsTbl {
    input_param_count: usize,
    apps: Vec<ComputeProps>,
}

impl View for AppsTbl {
    type V = Seq<ComputePropsView>;

    closed spec fn view(&self) -> Seq<ComputePropsView> {
        Seq::new(self.apps@.len(), |i: int| self.apps@[i]@)
    }
}

impl Clone for AppsTbl {
    fn clone(&self) -> (copy: Self)
        ensures
            copy@ == self@,
            copy.spec_input_param_count() == self.spec_input_param_count(),
    {
        let mut apps: Vec<ComputeProps> = Vec::new();
        let mut i: usize = 0;
        while i < self.apps.len()
            invariant
                i <= self.apps@.len(),
                apps@.len() == i,
                forall|j: int| 0 <= j < i ==> apps@[j]@ == self.apps@[j]@,
            decreases self.apps@.len() - i,
        {
            apps.push(self.apps[i].clone());
            i += 1;
        }
        let copy = AppsTbl { input_param_count: self.input_param_count, apps };
        assert(copy@ =~= self@);
        copy
    }
}

impl AppsTbl {
    /// The number of input parameters of the callable that the table is for.
    pub closed spec fn spec_input_param_count(&self) -> usize {
        self.input_param_count
    }

    /// The number of input parameters of the callable that the table is for.
    #[verifier::when_used_as_spec(spec_input_param_count)]
    pub fn input_param_count(&self) -> (count: usize)
        ensures
            count == self.spec_input_param_count(),
    {
        self.input_param_count
    }

    /// The number of applications of a callable with this table's number of
    /// input parameters.
    pub open spec fn spec_capacity(&self) -> nat {
        pow2(self.spec_input_param_count() as nat)
    }

    /// The table holds no more applications than its parameters allow.
    pub open spec fn well_formed(&self) -> bool {
        self@.len() <= self.spec_capacity()
    }

    /// The table holds every application.
    pub open spec fn is_complete(&self) -> bool {
        self@.len() == self.spec_capacity()
    }

    /// Whether the table holds every application.
    pub fn holds_all(&self) -> (complete: bool)
        ensures
            complete == self.is_complete(),
    {
        assert(self@.len() == self.apps@.len());
        assert(self.apps@.len() == self.apps.len());
        assert(self.spec_input_param_count() == self.input_param_count);
        match checked_pow2(self.input_param_count) {
            Some(capacity) => self.apps.len() == capacity,
            None => false,
        }
    }

    /// A table without applications for a callable with `input_param_count`
    /// input parameters.
    pub fn new(input_param_count: usize) -> (table: Self)
        ensures
            table.spec_input_param_count() == input_param_count,
            table@ == Seq::<ComputePropsView>::empty(),
            table.well_formed(),
    {
        let table = AppsTbl { input_param_count, apps: Vec::new() };
        assert(table@ =~= Seq::<ComputePropsView>::empty());
        table
    }

    /// The number of applications that the table holds.
    pub fn len(&self) -> (len: usize)
        ensures
            len == self@.len(),
    {
        self.apps.len()
    }

    /// The compute properties of application `index`, if the table holds them
    /// already.
    pub fn get(&self, index: AppIdx) -> (app: Option<&ComputeProps>)
        requires
            index.0 < self.spec_capacity(),
        ensures
            app is Some <==> index.0 < self@.len(),
            app is Some ==> app->0@ == self@[index.0 as int],
    {
        if index.0 < self.apps.len() {
            Some(&self.apps[index.0])
        } else {
            None
        }
    }

    /// The compute properties of application `index`, to be changed in place,
    /// if the table holds them already.
    pub fn get_mut(&mut self, index: AppIdx) -> (app: Option<&mut ComputeProps>)
        requires
            index.0 < old(self).spec_capacity(),
        ensures
            app is Some <==> index.0 < old(self)@.len(),
            app is Some ==> (*app->0)@ == old(self)@[index.0 as int],
            app is Some ==> final(self)@ == old(self)@.update(
                index.0 as int,
                (*final(app->0))@,
            ),
            app is None ==> final(self)@ == old(self)@,
            final(self).spec_input_param_count() == old(self).spec_input_param_count(),
    {
        if index.0 < self.apps.len() {
            let app = &mut self.apps[index.0];
            Some(app)
        } else {
            None
        }
    }

    /// Adds the compute properties of the next application.
    pub fn push(&mut self, app: ComputeProps)
        requires
            old(self)@.len() < old(self).spec_capacity(),
        ensures
            final(self).spec_input_param_count() == old(self).spec_input_param_count(),
            final(self)@ == old(self)@.push(app@),
            final(self).well_formed(),
    {
        self.apps.push(app);
        assert(self@ =~= old(self)@.push(app@));
    }
}

} // verus!
