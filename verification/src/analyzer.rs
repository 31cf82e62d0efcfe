//! The analysis that gives every item of a package store its compute
//! properties.
//!
//! An intrinsic callable has no body to read, so its applications follow from
//! its signature alone: an application requires what the types of its dynamic
//! parameters require and, unless all parameters are static, what the type of
//! the output requires.

use crate::capability::CapabilitySet;
use crate::capability::RuntimeCapability;
use crate::compute_props::checked_pow2;
use crate::compute_props::AppIdx;
use crate::compute_props::AppsTbl;
use crate::compute_props::ComputeKind;
use crate::compute_props::ComputeProps;
use crate::compute_props::ComputePropsView;
use crate::compute_props::QuantumSource;
use crate::fir::CallableDecl;
use crate::fir::CallableImpl;
use crate::fir::CallableKind;
use crate::fir::Item;
use crate::fir::ItemKind;
use crate::fir::LocalItemId;
use crate::fir::Package;
use crate::fir::PackageId;
use crate::fir::PackageStore;
use crate::fir::Pat;
use crate::fir::PatKind;
use crate::fir::Ty;
use crate::foundational::ty_requires;
use crate::foundational::Foundational;
use crate::analysis_model::analysis;
use crate::analysis_model::analysis_budget;
use crate::analysis_model::analysis_of_items;
use crate::analysis_model::analysis_of_packages;
use crate::analysis_model::analyze;
use crate::analysis_model::analyze_all;
use crate::analysis_model::body_table;
use crate::analysis_model::cycles_are_defined;
use crate::analysis_model::is_body_cycled;
use crate::analysis_model::package_cycles;
use crate::cycle_detection::try_detect_callables_with_cycles;
use crate::cycle_model::reports_body_cycle;
use crate::cycle_model::CycledCallableInfo;
use crate::fx::fx_set_contains;
use crate::fx::fx_set_insert;
use crate::fx::fx_set_new;
use crate::index_map::IndexMap;
use rustc_hash::FxHashSet;
use crate::analysis_model::callable_is_defined;
use crate::analysis_model::input_param_count;
use crate::analysis_model::intrinsic_table;
use crate::analysis_model::item_analysis;
use crate::analysis_model::item_callees;
use crate::analysis_model::lemma_analyze_keeps_failure;
use crate::analysis_model::single_item;
use crate::analysis_model::AnalysisState;
use crate::fir::BlockId;
use crate::fir::PatId;
use crate::foundational::is_value_ty;
use crate::propagation::evaluate_application;
use crate::propagation_model::body_apps;
use crate::propagation_model::KnownProps;
use crate::store::AppsTblView;
use crate::store::CallableComputeProps;
use crate::store::ItemComputePropsView;
use crate::store::StoreComputeProps;
use crate::store::StorePartialComputeProps;
use vstd::arithmetic::power2::lemma_pow2_pos;
use vstd::arithmetic::power2::lemma_pow2_strictly_increases;
use vstd::arithmetic::power2::lemma_pow2_unfold;
use vstd::arithmetic::power2::pow2;
use vstd::prelude::*;

verus! {

/// The types that the references stand for.
pub open spec fn referents(types: Seq<&Ty>) -> Seq<Ty> {
    Seq::new(types.len(), |i: int| *types[i])
}

/// Whether the pattern can be the input pattern of a callable: a binding of
/// a value, or a tuple pattern of tuple type.
pub open spec fn is_param_pattern(pattern: &Pat) -> bool {
    match pattern.kind {
        PatKind::Bind(_) => pattern.ty is Array || pattern.ty is Arrow || pattern.ty is Prim
            || pattern.ty is Tuple || pattern.ty is Udt,
        PatKind::Tuple(_) => pattern.ty is Tuple,
        PatKind::Discard => false,
    }
}

/// The types of the input parameters of a callable with the input pattern: the
/// type of a binding, or the item types of a tuple pattern.
pub open spec fn input_params_types(pattern: &Pat) -> Seq<Ty> {
    match pattern.kind {
        PatKind::Bind(_) => seq![pattern.ty],
        PatKind::Tuple(_) => match pattern.ty {
            Ty::Tuple(items) => items@,
            _ => Seq::empty(),
        },
        PatKind::Discard => Seq::empty(),
    }
}

/// Whether application `index` of an intrinsic callable requires `cap`: a
/// dynamic parameter's type requires it, or not all parameters are static and
/// the output type requires it.
pub open spec fn intrinsic_app_requires(
    types: Seq<Ty>,
    output: &Ty,
    index: AppIdx,
    cap: RuntimeCapability,
) -> bool {
    ||| dynamic_params_require(types, index, types.len() as int, cap)
    ||| (index.0 != 0 && ty_requires(output, cap))
}

/// Whether the type of one of the first `count` parameters that application
/// `index` takes as dynamic requires `cap`.
pub open spec fn dynamic_params_require(
    types: Seq<Ty>,
    index: AppIdx,
    count: int,
    cap: RuntimeCapability,
) -> bool {
    exists|i: int|
        #![trigger types[i]]
        0 <= i < count && i < types.len() && index.spec_is_dynamic(i as nat) && ty_requires(
            &types[i],
            cap,
        )
}

/// What application `index` of an intrinsic callable requires.
pub open spec fn intrinsic_app_caps(types: Seq<Ty>, output: &Ty, index: AppIdx) -> Set<
    RuntimeCapability,
> {
    Set::new(|cap: RuntimeCapability| intrinsic_app_requires(types, output, index, cap))
}

/// The quantum sources of application `index` of an intrinsic callable. A
/// function is a source unless all its parameters are static or it returns
/// unit. An operation is a source unless it returns unit.
pub open spec fn intrinsic_app_sources(kind: CallableKind, output: &Ty, index: AppIdx) -> Seq<
    QuantumSource,
> {
    match kind {
        CallableKind::Function => if index.0 == 0 || output.spec_is_unit() {
            Seq::empty()
        } else {
            seq![QuantumSource::Intrinsic]
        },
        CallableKind::Operation => if output.spec_is_unit() {
            Seq::empty()
        } else {
            seq![QuantumSource::Intrinsic]
        },
    }
}

/// The compute properties of application `index` of an intrinsic callable.
pub open spec fn intrinsic_app(
    kind: CallableKind,
    types: Seq<Ty>,
    output: &Ty,
    index: AppIdx,
) -> ComputePropsView {
    ComputePropsView {
        rt_caps: intrinsic_app_caps(types, output, index),
        quantum_sources: intrinsic_app_sources(kind, output, index),
    }
}

/// The first `count` applications of an intrinsic callable.
pub open spec fn intrinsic_apps(
    kind: CallableKind,
    types: Seq<Ty>,
    output: &Ty,
    count: nat,
) -> Seq<ComputePropsView> {
    Seq::new(count, |index: int| intrinsic_app(kind, types, output, AppIdx(index as usize)))
}

/// Whether the types let application `index` of an intrinsic callable be
/// computed: the types that it reads are types of values.
pub open spec fn intrinsic_app_is_defined(types: Seq<Ty>, output: &Ty, index: AppIdx) -> bool {
    &&& forall|i: int|
        #![trigger types[i]]
        0 <= i < types.len() && index.spec_is_dynamic(i as nat) ==> is_value_ty(&types[i])
    &&& index.0 != 0 ==> is_value_ty(output)
}

/// Whether the signature lets the applications of an intrinsic callable be
/// computed: there are no more than `usize` can count, and with a parameter,
/// the parameter types and the output type are types of values.
pub open spec fn intrinsic_is_defined(types: Seq<Ty>, output: &Ty) -> bool {
    &&& pow2(types.len()) <= usize::MAX
    &&& types.len() > 0 ==> is_value_ty(output)
    &&& forall|i: int| #![trigger types[i]] 0 <= i < types.len() ==> is_value_ty(&types[i])
}

/// An application other than the all-static one of an intrinsic callable
/// requires what the output type requires.
pub proof fn lemma_output_caps_are_required(types: Seq<Ty>, output: &Ty, index: AppIdx)
    requires
        index.0 != 0,
    ensures
        crate::foundational::ty_caps(output).subset_of(intrinsic_app_caps(types, output, index)),
{
}

/// The all-static application of an intrinsic callable requires nothing.
pub proof fn lemma_static_app_requires_nothing(types: Seq<Ty>, output: &Ty)
    ensures
        intrinsic_app_caps(types, output, AppIdx(0)) == Set::<RuntimeCapability>::empty(),
{
    assert forall|i: nat| !AppIdx(0).spec_is_dynamic(i) by {
        lemma_pow2_pos(i);
        vstd::arithmetic::div_mod::lemma_basic_div(0, pow2(i) as int);
    }
    assert(intrinsic_app_caps(types, output, AppIdx(0)) =~= Set::<RuntimeCapability>::empty());
}

/// The analysis of all items of a package store.
pub struct SinglePassAnalyzer;

impl SinglePassAnalyzer {
    /// The types of the input parameters of a callable with the input pattern.
    pub fn get_input_params_types(pattern: &Pat) -> (types: Vec<&Ty>)
        requires
            is_param_pattern(pattern),
        ensures
            referents(types@) == input_params_types(pattern),
    {
        let mut types: Vec<&Ty> = Vec::new();
        match &pattern.kind {
            PatKind::Bind(_) => {
                types.push(&pattern.ty);
                assert(referents(types@) =~= input_params_types(pattern));
            },
            PatKind::Tuple(_) => match &pattern.ty {
                Ty::Tuple(vector) => {
                    let mut i: usize = 0;
                    while i < vector.len()
                        invariant
                            i <= vector@.len(),
                            types@.len() == i,
                            forall|j: int| 0 <= j < i ==> *types@[j] == vector@[j],
                        decreases vector@.len() - i,
                    {
                        types.push(&vector[i]);
                        i += 1;
                    }
                    assert(referents(types@) =~= input_params_types(pattern));
                },
                _ => {},
            },
            PatKind::Discard => {},
        }
        types
    }

    /// Whether the target implements the callable.
    pub fn is_callable_intrinsic(callable: &CallableDecl) -> (intrinsic: bool)
        ensures
            intrinsic == (callable.implementation is Intrinsic),
    {
        match callable.implementation {
            CallableImpl::Intrinsic => true,
            CallableImpl::Spec(_) => false,
        }
    }

    /// What application `app_idx` of an intrinsic callable requires.
    fn intrinsic_application_caps(
        input_param_types: &Vec<&Ty>,
        output_type: &Ty,
        app_idx: AppIdx,
    ) -> (rt_caps: CapabilitySet)
        requires
            intrinsic_app_is_defined(referents(input_param_types@), output_type, app_idx),
        ensures
            rt_caps@ == intrinsic_app_caps(referents(input_param_types@), output_type, app_idx),
    {
        let input_param_count = input_param_types.len();
        let ghost types = referents(input_param_types@);
        // Gather what the types of the parameters that are dynamic in the application require.
        let params_compute_kind = app_idx.map_to_compute_kind_vector(input_param_count);
        let mut rt_caps = CapabilitySet::new();
        let mut i: usize = 0;
        while i < input_param_count
            invariant
                i <= input_param_count,
                input_param_count == input_param_types@.len(),
                types == referents(input_param_types@),
                params_compute_kind@.len() == input_param_count,
                forall|param: int|
                    0 <= param < input_param_count ==> params_compute_kind@[param]
                        == app_idx.spec_param_kind(param as nat),
                intrinsic_app_is_defined(types, output_type, app_idx),
                forall|cap: RuntimeCapability|
                    rt_caps@.contains(cap) <==> dynamic_params_require(types, app_idx, i as int, cap),
            decreases input_param_count - i,
        {
            let ghost before = rt_caps@;
            match params_compute_kind[i] {
                ComputeKind::Dynamic => {
                    assert(app_idx.spec_is_dynamic(i as nat));
                    assert(is_value_ty(&types[i as int]));
                    let param_caps = Foundational::assume_caps_from_type(input_param_types[i]);
                    rt_caps.extend(&param_caps);
                },
                ComputeKind::Static => {},
            }
            assert forall|cap: RuntimeCapability|
                rt_caps@.contains(cap) <==> dynamic_params_require(
                    types,
                    app_idx,
                    i + 1,
                    cap,
                ) by {
                if dynamic_params_require(types, app_idx, i + 1, cap) {
                    let j = choose|j: int|
                        #![trigger types[j]]
                        0 <= j < i + 1 && j < types.len() && app_idx.spec_is_dynamic(j as nat)
                            && ty_requires(&types[j], cap);
                    if j < i {
                        assert(dynamic_params_require(types, app_idx, i as int, cap));
                    }
                }
                if before.contains(cap) {
                    let j = choose|j: int|
                        #![trigger types[j]]
                        0 <= j < i && j < types.len() && app_idx.spec_is_dynamic(j as nat)
                            && ty_requires(&types[j], cap);
                    assert(0 <= j < i + 1 && ty_requires(&types[j], cap));
                }
                if rt_caps@.contains(cap) && !before.contains(cap) {
                    assert(ty_requires(&types[i as int], cap));
                }
            }
            i += 1;
        }
        // If this is not an all-static application then the output type affects the capabilities.
        if app_idx.0 != 0 {
            let output_caps = Foundational::assume_caps_from_type(output_type);
            rt_caps.extend(&output_caps);
        }
        assert(rt_caps@ =~= intrinsic_app_caps(types, output_type, app_idx));
        rt_caps
    }

    /// The compute properties of application `app_idx` of an intrinsic
    /// function.
    pub fn create_intrinsic_function_application(
        input_param_types: &Vec<&Ty>,
        output_type: &Ty,
        app_idx: AppIdx,
    ) -> (app: ComputeProps)
        requires
            app_idx.0 < pow2(input_param_types@.len()),
            intrinsic_app_is_defined(referents(input_param_types@), output_type, app_idx),
        ensures
            app@ == intrinsic_app(
                CallableKind::Function,
                referents(input_param_types@),
                output_type,
                app_idx,
            ),
    {
        let rt_caps = Self::intrinsic_application_caps(input_param_types, output_type, app_idx);
        // An all-static application is no quantum source, nor is a function that returns unit.
        let is_unit = output_type.is_unit();
        let mut quantum_sources: Vec<QuantumSource> = Vec::new();
        if !(app_idx.0 == 0 || is_unit) {
            quantum_sources.push(QuantumSource::Intrinsic);
        }
        assert(quantum_sources@ =~= intrinsic_app_sources(
            CallableKind::Function,
            output_type,
            app_idx,
        ));
        ComputeProps { rt_caps, quantum_sources }
    }

    /// The compute properties of application `app_idx` of an intrinsic
    /// operation.
    pub fn create_intrinsic_operation_application(
        input_param_types: &Vec<&Ty>,
        output_type: &Ty,
        app_idx: AppIdx,
    ) -> (app: ComputeProps)
        requires
            app_idx.0 < pow2(input_param_types@.len()),
            intrinsic_app_is_defined(referents(input_param_types@), output_type, app_idx),
        ensures
            app@ == intrinsic_app(
                CallableKind::Operation,
                referents(input_param_types@),
                output_type,
                app_idx,
            ),
    {
        let rt_caps = Self::intrinsic_application_caps(input_param_types, output_type, app_idx);
        // An operation is a quantum source unless it returns unit.
        let is_unit = output_type.is_unit();
        let mut quantum_sources: Vec<QuantumSource> = Vec::new();
        if !is_unit {
            quantum_sources.push(QuantumSource::Intrinsic);
        }
        assert(quantum_sources@ =~= intrinsic_app_sources(
            CallableKind::Operation,
            output_type,
            app_idx,
        ));
        ComputeProps { rt_caps, quantum_sources }
    }

    /// The number of applications of a callable with `input_param_count` input
    /// parameters.
    fn applications_count(input_param_count: usize) -> (count: usize)
        requires
            pow2(input_param_count as nat) <= usize::MAX,
        ensures
            count == pow2(input_param_count as nat),
    {
        let mut count: usize = 1;
        let mut i: usize = 0;
        proof {
            crate::compute_props::lemma2_pow2_zero();
        }
        while i < input_param_count
            invariant
                i <= input_param_count,
                count == pow2(i as nat),
                pow2(input_param_count as nat) <= usize::MAX,
            decreases input_param_count - i,
        {
            proof {
                lemma_pow2_unfold((i + 1) as nat);
                if i + 1 < input_param_count {
                    lemma_pow2_strictly_increases((i + 1) as nat, input_param_count as nat);
                }
            }
            count = count * 2;
            i += 1;
        }
        count
    }

    /// The applications table of an intrinsic callable of kind `kind`.
    fn intrinsic_applications(kind: CallableKind, output: &Ty, input_pattern: &Pat) -> (apps: AppsTbl)
        requires
            is_param_pattern(input_pattern),
            intrinsic_is_defined(input_params_types(input_pattern), output),
        ensures
            apps.spec_input_param_count() == input_params_types(input_pattern).len(),
            apps@ == intrinsic_apps(
                kind,
                input_params_types(input_pattern),
                output,
                pow2(input_params_types(input_pattern).len()),
            ),
            apps.is_complete(),
    {
        let input_param_types = Self::get_input_params_types(input_pattern);
        let ghost types = input_params_types(input_pattern);
        assert(referents(input_param_types@).len() == types.len());
        let mut apps = AppsTbl::new(input_param_types.len());
        let apps_count = Self::applications_count(input_param_types.len());
        let mut app_idx: usize = 0;
        while app_idx < apps_count
            invariant
                app_idx <= apps_count,
                apps_count == pow2(types.len()),
                types == referents(input_param_types@),
                types.len() == input_param_types@.len(),
                intrinsic_is_defined(types, output),
                apps.spec_input_param_count() == input_param_types@.len(),
                apps@ == intrinsic_apps(kind, types, output, app_idx as nat),
            decreases apps_count - app_idx,
        {
            proof {
                if types.len() == 0 {
                    crate::compute_props::lemma2_pow2_zero();
                }
            }
            let app = match kind {
                CallableKind::Function => Self::create_intrinsic_function_application(
                    &input_param_types,
                    output,
                    AppIdx(app_idx),
                ),
                CallableKind::Operation => Self::create_intrinsic_operation_application(
                    &input_param_types,
                    output,
                    AppIdx(app_idx),
                ),
            };
            apps.push(app);
            assert(apps@ =~= intrinsic_apps(kind, types, output, (app_idx + 1) as nat));
            app_idx += 1;
        }
        apps
    }

    /// The compute properties of an intrinsic function.
    pub fn analyze_instrinsic_function(function: &CallableDecl, input_pattern: &Pat) -> (props:
        CallableComputeProps)
        requires
            function.implementation is Intrinsic,
            is_param_pattern(input_pattern),
            intrinsic_is_defined(input_params_types(input_pattern), &function.output),
        ensures
            props.apps.spec_input_param_count() == input_params_types(input_pattern).len(),
            props.apps@ == intrinsic_apps(
                CallableKind::Function,
                input_params_types(input_pattern),
                &function.output,
                pow2(input_params_types(input_pattern).len()),
            ),
            props.apps@.len() == pow2(input_params_types(input_pattern).len()),
    {
        let apps = Self::intrinsic_applications(
            CallableKind::Function,
            &function.output,
            input_pattern,
        );
        CallableComputeProps { apps }
    }

    /// The compute properties of an intrinsic operation.
    pub fn analyze_instrinsic_operation(operation: &CallableDecl, input_pattern: &Pat) -> (props:
        CallableComputeProps)
        requires
            operation.implementation is Intrinsic,
            is_param_pattern(input_pattern),
            intrinsic_is_defined(input_params_types(input_pattern), &operation.output),
        ensures
            props.apps.spec_input_param_count() == input_params_types(input_pattern).len(),
            props.apps@ == intrinsic_apps(
                CallableKind::Operation,
                input_params_types(input_pattern),
                &operation.output,
                pow2(input_params_types(input_pattern).len()),
            ),
            props.apps@.len() == pow2(input_params_types(input_pattern).len()),
    {
        let apps = Self::intrinsic_applications(
            CallableKind::Operation,
            &operation.output,
            input_pattern,
        );
        CallableComputeProps { apps }
    }

    /// Whether the type is a type of values.
    pub fn is_value(ty: &Ty) -> (value: bool)
        ensures
            value == is_value_ty(ty),
        decreases ty, 1nat,
    {
        match ty {
            Ty::Array(_) | Ty::Arrow(_) | Ty::Udt(_) | Ty::Prim(_) => true,
            Ty::Tuple(items) => Self::are_values(items),
            Ty::Infer(_) | Ty::Param(_) | Ty::Invalid => false,
        }
    }

    /// Whether the types are types of values.
    pub fn are_values(tys: &Vec<Ty>) -> (values: bool)
        ensures
            values == (forall|i: int| #![trigger tys@[i]] 0 <= i < tys@.len() ==> is_value_ty(&tys@[i])),
        decreases tys, 0nat,
    {
        let mut i: usize = 0;
        while i < tys.len()
            invariant
                i <= tys@.len(),
                forall|j: int| #![trigger tys@[j]] 0 <= j < i ==> is_value_ty(&tys@[j]),
            decreases tys@.len() - i,
        {
            if !Self::is_value(&tys[i]) {
                return false;
            }
            i += 1;
        }
        true
    }

    /// Whether the signature of the callable is one that can be analyzed.
    pub fn is_callable_defined(package: &Package, callable: &CallableDecl) -> (defined: bool)
        ensures
            defined == callable_is_defined(package, callable),
    {
        let pattern = match package.pats.get(callable.input.0) {
            Some(pattern) => pattern,
            None => {
                return false;
            },
        };
        let intrinsic = Self::is_callable_intrinsic(callable);
        match &pattern.kind {
            PatKind::Bind(_) => {
                let shaped = match &pattern.ty {
                    Ty::Array(_) | Ty::Arrow(_) | Ty::Prim(_) | Ty::Tuple(_) | Ty::Udt(_) => true,
                    _ => false,
                };
                proof {
                    vstd::arithmetic::power2::lemma2_to64();
                    assert(input_params_types(pattern) =~= seq![pattern.ty]);
                }
                if !shaped {
                    false
                } else if intrinsic {
                    let values = Self::is_value(&pattern.ty) && Self::is_value(&callable.output);
                    proof {
                        let types = input_params_types(pattern);
                        if values {
                            assert forall|i: int|
                                #![trigger types[i]]
                                0 <= i < types.len() implies is_value_ty(&types[i]) by {}
                        } else if is_value_ty(&callable.output) {
                            assert(!is_value_ty(&types[0]));
                        }
                    }
                    values
                } else {
                    true
                }
            },
            PatKind::Tuple(_) => match &pattern.ty {
                Ty::Tuple(vector) => {
                    assert(input_params_types(pattern) =~= vector@);
                    match checked_pow2(vector.len()) {
                        Some(_) => {
                            if intrinsic {
                                Self::are_values(vector) && (vector.len() == 0 || Self::is_value(
                                    &callable.output,
                                ))
                            } else {
                                true
                            }
                        },
                        None => false,
                    }
                },
                _ => false,
            },
            PatKind::Discard => false,
        }
    }

    /// The compute properties of an intrinsic callable.
    pub fn analyze_intrinsic_callable(
        callable: &CallableDecl,
        callable_id: LocalItemId,
        package_id: PackageId,
        package_store: &PackageStore,
    ) -> (partial: StorePartialComputeProps)
        requires
            callable.implementation is Intrinsic,
            package_store.0@.contains_key(package_id.0),
            callable_is_defined(&package_store.0@[package_id.0], callable),
            package_id.0 < usize::MAX,
            callable_id.0 < usize::MAX,
        ensures
            partial@ == single_item(
                package_id,
                callable_id,
                ItemComputePropsView::Callable(
                    intrinsic_table(&package_store.0@[package_id.0], callable),
                ),
            ),
            partial.well_formed(),
    {
        // The input pattern of the callable determines the properties of an intrinsic callable.
        let found = package_store.get_pattern(package_id, callable.input);
        match found {
            Some(input_pattern) => {
                let callable_compute_props = match callable.kind {
                    CallableKind::Function => Self::analyze_instrinsic_function(
                        callable,
                        input_pattern,
                    ),
                    CallableKind::Operation => Self::analyze_instrinsic_operation(
                        callable,
                        input_pattern,
                    ),
                };
                StorePartialComputeProps::with_callable_compute_props(
                    package_id,
                    callable_id,
                    callable_compute_props,
                )
            },
            None => {
                proof {
                    assert(false);
                }
                StorePartialComputeProps::default()
            },
        }
    }

    /// The compute properties of a callable with a body, given the compute
    /// properties that are known, or nothing where an evaluation of the body
    /// fails.
    #[verifier::loop_isolation(false)]
    pub fn try_analyze_non_intrinsic_callable(
        callable: &CallableDecl,
        callable_id: LocalItemId,
        package_id: PackageId,
        store_compute_props: &StoreComputeProps,
        package_store: &PackageStore,
    ) -> (partial: Option<StorePartialComputeProps>)
        requires
            callable.implementation is Spec,
            package_store.0@.contains_key(package_id.0),
            callable_is_defined(&package_store.0@[package_id.0], callable),
            package_id.0 < usize::MAX,
            callable_id.0 < usize::MAX,
        ensures
            match body_table(
                &package_store.0@[package_id.0],
                package_id,
                store_compute_props@,
                callable,
            ) {
                Some(table) => partial is Some && partial->0@ == single_item(
                    package_id,
                    callable_id,
                    ItemComputePropsView::Callable(table),
                ) && partial->0.well_formed(),
                None => partial is None,
            },
    {
        let package = match package_store.0.get(package_id.0) {
            Some(package) => package,
            None => {
                return None;
            },
        };
        let pattern = match package.pats.get(callable.input.0) {
            Some(pattern) => pattern,
            None => {
                return None;
            },
        };
        let body = match &callable.implementation {
            CallableImpl::Spec(specs) => specs.body.block,
            CallableImpl::Intrinsic => {
                return None;
            },
        };
        let input_param_types = Self::get_input_params_types(pattern);
        let input_param_count = input_param_types.len();
        assert(input_param_count == referents(input_param_types@).len());
        let apps_count = Self::applications_count(input_param_count);
        let mut apps = AppsTbl::new(input_param_count);
        let mut app_idx: usize = 0;
        while app_idx < apps_count
            invariant
                app_idx <= apps_count,
                apps_count == pow2(input_param_count as nat),
                input_param_count == crate::analysis_model::input_param_count(package, callable),
                apps.spec_input_param_count() == input_param_count,
                body_apps(
                    package,
                    package_id,
                    store_compute_props@,
                    callable.input,
                    body,
                    app_idx as nat,
                ) == Some(apps@),
            decreases apps_count - app_idx,
        {
            match evaluate_application(
                package_id,
                package,
                store_compute_props,
                callable.input,
                body,
                AppIdx(app_idx),
            ) {
                Some(gathered) => {
                    let (app, _) = gathered;
                    proof {
                        lemma_body_apps_len(
                            package,
                            package_id,
                            store_compute_props@,
                            callable.input,
                            body,
                            app_idx as nat,
                        );
                    }
                    apps.push(app);
                },
                None => {
                    proof {
                        assert(body_apps(
                            package,
                            package_id,
                            store_compute_props@,
                            callable.input,
                            body,
                            (app_idx + 1) as nat,
                        ) is None);
                        lemma_body_apps_fails(
                            package,
                            package_id,
                            store_compute_props@,
                            callable.input,
                            body,
                            (app_idx + 1) as nat,
                            apps_count as nat,
                        );
                    }
                    return None;
                },
            }
            app_idx += 1;
        }
        Some(
            StorePartialComputeProps::with_callable_compute_props(
                package_id,
                callable_id,
                CallableComputeProps { apps },
            ),
        )
    }

    /// The compute properties of a callable with a body, given the compute
    /// properties that are known.
    pub fn analyze_non_intrinsic_callable(
        callable: &CallableDecl,
        callable_id: LocalItemId,
        package_id: PackageId,
        store_compute_props: &StoreComputeProps,
        package_store: &PackageStore,
    ) -> (partial: StorePartialComputeProps)
        requires
            callable.implementation is Spec,
            package_store.0@.contains_key(package_id.0),
            callable_is_defined(&package_store.0@[package_id.0], callable),
            body_table(
                &package_store.0@[package_id.0],
                package_id,
                store_compute_props@,
                callable,
            ) is Some,
            package_id.0 < usize::MAX,
            callable_id.0 < usize::MAX,
        ensures
            partial@ == single_item(
                package_id,
                callable_id,
                ItemComputePropsView::Callable(
                    body_table(
                        &package_store.0@[package_id.0],
                        package_id,
                        store_compute_props@,
                        callable,
                    )->0,
                ),
            ),
            partial.well_formed(),
    {
        match Self::try_analyze_non_intrinsic_callable(
            callable,
            callable_id,
            package_id,
            store_compute_props,
            package_store,
        ) {
            Some(partial) => partial,
            None => {
                proof {
                    assert(false);
                }
                StorePartialComputeProps::default()
            },
        }
    }

    /// The compute properties of an item, given the compute properties that
    /// are known, or nothing where the item cannot be analyzed.
    pub fn try_analyze_item(
        item: &Item,
        item_id: LocalItemId,
        package_id: PackageId,
        store_compute_props: &StoreComputeProps,
        package_store: &PackageStore,
    ) -> (partial: Option<StorePartialComputeProps>)
        requires
            package_store.0@.contains_key(package_id.0),
            package_id.0 < usize::MAX,
            item_id.0 < usize::MAX,
        ensures
            match item_analysis(
                &package_store.0@[package_id.0],
                package_id,
                store_compute_props@,
                item,
            ) {
                Some(props) => partial is Some && partial->0@ == single_item(
                    package_id,
                    item_id,
                    props,
                ) && partial->0.well_formed(),
                None => partial is None,
            },
    {
        match &item.kind {
            ItemKind::Namespace | ItemKind::Ty => Some(
                StorePartialComputeProps::with_non_callable_item_compute_props(package_id, item_id),
            ),
            ItemKind::Callable(callable) => Self::try_analyze_callable(
                callable,
                item_id,
                package_id,
                store_compute_props,
                package_store,
            ),
        }
    }

    /// The compute properties of a callable, given the compute properties
    /// that are known, or nothing where the callable cannot be analyzed.
    pub fn try_analyze_callable(
        callable: &CallableDecl,
        callable_id: LocalItemId,
        package_id: PackageId,
        store_compute_props: &StoreComputeProps,
        package_store: &PackageStore,
    ) -> (partial: Option<StorePartialComputeProps>)
        requires
            package_store.0@.contains_key(package_id.0),
            package_id.0 < usize::MAX,
            callable_id.0 < usize::MAX,
        ensures
            match callable_analysis(
                &package_store.0@[package_id.0],
                package_id,
                store_compute_props@,
                callable,
            ) {
                Some(table) => partial is Some && partial->0@ == single_item(
                    package_id,
                    callable_id,
                    ItemComputePropsView::Callable(table),
                ) && partial->0.well_formed(),
                None => partial is None,
            },
    {
        let package = match package_store.0.get(package_id.0) {
            Some(package) => package,
            None => {
                return None;
            },
        };
        if !Self::is_callable_defined(package, callable) {
            return None;
        }
        if Self::is_callable_intrinsic(callable) {
            Some(Self::analyze_intrinsic_callable(callable, callable_id, package_id, package_store))
        } else {
            Self::try_analyze_non_intrinsic_callable(
                callable,
                callable_id,
                package_id,
                store_compute_props,
                package_store,
            )
        }
    }

    /// The compute properties of a callable, given the compute properties
    /// that are known.
    pub fn analyze_callable(
        callable: &CallableDecl,
        callable_id: LocalItemId,
        package_id: PackageId,
        store_compute_props: &StoreComputeProps,
        package_store: &PackageStore,
    ) -> (partial: StorePartialComputeProps)
        requires
            package_store.0@.contains_key(package_id.0),
            callable_analysis(
                &package_store.0@[package_id.0],
                package_id,
                store_compute_props@,
                callable,
            ) is Some,
            package_id.0 < usize::MAX,
            callable_id.0 < usize::MAX,
        ensures
            partial@ == single_item(
                package_id,
                callable_id,
                ItemComputePropsView::Callable(
                    callable_analysis(
                        &package_store.0@[package_id.0],
                        package_id,
                        store_compute_props@,
                        callable,
                    )->0,
                ),
            ),
            partial.well_formed(),
    {
        match Self::try_analyze_callable(
            callable,
            callable_id,
            package_id,
            store_compute_props,
            package_store,
        ) {
            Some(partial) => partial,
            None => {
                proof {
                    assert(false);
                }
                StorePartialComputeProps::default()
            },
        }
    }

    /// The compute properties of an item, given the compute properties that
    /// are known.
    pub fn analyze_item(
        item: &Item,
        item_id: LocalItemId,
        package_id: PackageId,
        store_compute_props: &StoreComputeProps,
        package_store: &PackageStore,
    ) -> (partial: StorePartialComputeProps)
        requires
            package_store.0@.contains_key(package_id.0),
            item_analysis(
                &package_store.0@[package_id.0],
                package_id,
                store_compute_props@,
                item,
            ) is Some,
            package_id.0 < usize::MAX,
            item_id.0 < usize::MAX,
        ensures
            partial@ == single_item(
                package_id,
                item_id,
                item_analysis(
                    &package_store.0@[package_id.0],
                    package_id,
                    store_compute_props@,
                    item,
                )->0,
            ),
            partial.well_formed(),
    {
        match Self::try_analyze_item(item, item_id, package_id, store_compute_props, package_store) {
            Some(partial) => partial,
            None => {
                proof {
                    assert(false);
                }
                StorePartialComputeProps::default()
            },
        }
    }

    /// The callables that the body of an item calls, call by call, or nothing
    /// where the item cannot be analyzed.
    pub fn callees_of(
        package: &Package,
        package_id: PackageId,
        store_compute_props: &StoreComputeProps,
        item: &Item,
    ) -> (callees: Option<Vec<(usize, usize)>>)
        ensures
            match item_callees(package, package_id, store_compute_props@, item) {
                Some(expected) => callees is Some && callees->0@ == expected,
                None => callees is None,
            },
    {
        match &item.kind {
            ItemKind::Namespace | ItemKind::Ty => Some(Vec::new()),
            ItemKind::Callable(callable) => {
                if !Self::is_callable_defined(package, callable) {
                    return None;
                }
                match &callable.implementation {
                    CallableImpl::Intrinsic => Some(Vec::new()),
                    CallableImpl::Spec(specs) => match evaluate_application(
                        package_id,
                        package,
                        store_compute_props,
                        callable.input,
                        specs.body.block,
                        AppIdx(0),
                    ) {
                        Some(gathered) => {
                            let (_, callees) = gathered;
                            Some(callees)
                        },
                        None => None,
                    },
                }
            },
        }
    }

    /// The compute properties of every item of the store, or nothing where
    /// the analysis of the store fails.
    pub fn try_run(package_store: &PackageStore) -> (store: Option<StoreComputeProps>)
        ensures
            match store {
                Some(store) => !analysis(package_store).failed && store@ == analysis(
                    package_store,
                ).props,
                None => analysis(package_store).failed,
            },
    {
        let mut analysis = match Analysis::new(package_store) {
            Some(analysis) => analysis,
            None => {
                return None;
            },
        };
        let package_bound = package_store.0.bound();
        let mut p: usize = 0;
        while p < package_bound
            invariant
                p <= package_bound,
                package_bound == package_store.0.spec_bound(),
                cycles_are_defined(package_store),
                analysis.is_at_rest(package_store),
                analysis.agrees(analysis_of_packages(package_store, p as nat)),
            decreases package_bound - p,
        {
            match package_store.0.get(p) {
                Some(package) => {
                    let item_bound = package.items.bound();
                    let mut i: usize = 0;
                    while i < item_bound
                        invariant
                            i <= item_bound,
                            p < package_bound,
                            package_store.0@.contains_key(p),
                            *package == package_store.0@[p],
                            item_bound == package.items.spec_bound(),
                            analysis.is_at_rest(package_store),
                            analysis.agrees(
                                analysis_of_items(
                                    package_store,
                                    analysis_of_packages(package_store, p as nat),
                                    p,
                                    i as nat,
                                ),
                            ),
                        decreases item_bound - i,
                    {
                        proof {
                            let before = analysis_of_items(
                                package_store,
                                analysis_of_packages(package_store, p as nat),
                                p,
                                i as nat,
                            );
                            if before.failed {
                                lemma_analyze_keeps_failure(
                                    package_store,
                                    before,
                                    Seq::empty(),
                                    (p, i),
                                    analysis_budget(),
                                );
                                lemma_analyze_keeps_failure(
                                    package_store,
                                    analysis.state(),
                                    Seq::empty(),
                                    (p, i),
                                    analysis_budget(),
                                );
                            }
                        }
                        if package.items.contains_key(i) {
                            analysis.analyze((p, i), usize::MAX);
                        }
                        i += 1;
                    }
                },
                None => {},
            }
            p += 1;
        }
        analysis.finish()
    }

    /// The compute properties of every item of the store.
    pub fn run(package_store: &PackageStore) -> (store: StoreComputeProps)
        requires
            !analysis(package_store).failed,
        ensures
            store@ == analysis(package_store).props,
    {
        match Self::try_run(package_store) {
            Some(store) => store,
            None => {
                proof {
                    assert(false);
                }
                StoreComputeProps::new()
            },
        }
    }
}

/// The applications table of a callable, given the compute properties that
/// are known, or nothing where the callable cannot be analyzed.
pub open spec fn callable_analysis(
    package: &Package,
    package_id: PackageId,
    known: KnownProps,
    callable: &CallableDecl,
) -> Option<AppsTblView> {
    if !callable_is_defined(package, callable) {
        None
    } else {
        match callable.implementation {
            CallableImpl::Intrinsic => Some(intrinsic_table(package, callable)),
            CallableImpl::Spec(_) => body_table(package, package_id, known, callable),
        }
    }
}

/// The first `count` applications of a callable with a body are `count`
/// applications.
pub proof fn lemma_body_apps_len(
    package: &Package,
    package_id: PackageId,
    known: KnownProps,
    input: PatId,
    body: BlockId,
    count: nat,
)
    requires
        body_apps(package, package_id, known, input, body, count) is Some,
    ensures
        body_apps(package, package_id, known, input, body, count)->0.len() == count,
    decreases count,
{
    if count > 0 {
        lemma_body_apps_len(package, package_id, known, input, body, (count - 1) as nat);
    }
}

/// Once the evaluation of one of the first applications of a callable with a
/// body fails, there is no table of more applications.
pub proof fn lemma_body_apps_fails(
    package: &Package,
    package_id: PackageId,
    known: KnownProps,
    input: PatId,
    body: BlockId,
    failed: nat,
    count: nat,
)
    requires
        failed <= count,
        body_apps(package, package_id, known, input, body, failed) is None,
    ensures
        body_apps(package, package_id, known, input, body, count) is None,
    decreases count,
{
    if failed < count {
        lemma_body_apps_fails(package, package_id, known, input, body, failed, (count - 1) as nat);
    }
}

/// Whether the item is among the items.
pub fn stack_contains(stack: &Vec<(usize, usize)>, target: (usize, usize)) -> (found: bool)
    ensures
        found == stack@.contains(target),
{
    let mut i: usize = 0;
    while i < stack.len()
        invariant
            i <= stack@.len(),
            forall|j: int| 0 <= j < i ==> stack@[j] != target,
        decreases stack@.len() - i,
    {
        if stack[i].0 == target.0 && stack[i].1 == target.1 {
            return true;
        }
        i += 1;
    }
    false
}

/// The callables among the reported ones whose body is on a cycle, by their
/// keys.
pub fn body_cycled_callables(report: &Vec<CycledCallableInfo>) -> (cycled: FxHashSet<usize>)
    ensures
        forall|item: usize|
            cycled@.contains(item) <==> #[trigger] reports_body_cycle(report@, LocalItemId(item)),
{
    let mut cycled = fx_set_new();
    let mut i: usize = 0;
    while i < report.len()
        invariant
            i <= report@.len(),
            forall|item: usize|
                cycled@.contains(item) <==> #[trigger] reports_body_cycle(
                    report@.take(i as int),
                    LocalItemId(item),
                ),
        decreases report@.len() - i,
    {
        let ghost before = report@.take(i as int);
        let ghost after = report@.take(i + 1);
        let ghost noted = cycled@;
        if report[i].is_body_cycled {
            let _ = fx_set_insert(&mut cycled, report[i].id.0);
        }
        proof {
            assert(after =~= before.push(report@[i as int]));
            assert forall|item: usize|
                cycled@.contains(item) <==> #[trigger] reports_body_cycle(
                    after,
                    LocalItemId(item),
                ) by {
                if reports_body_cycle(after, LocalItemId(item)) {
                    let j = choose|j: int|
                        #![trigger after[j]]
                        0 <= j < after.len() && after[j].id == LocalItemId(item)
                            && after[j].is_body_cycled;
                    if j < i {
                        assert(before[j] == after[j]);
                        assert(reports_body_cycle(before, LocalItemId(item)));
                    }
                }
                if noted.contains(item) {
                    assert(reports_body_cycle(before, LocalItemId(item)));
                    let j = choose|j: int|
                        #![trigger before[j]]
                        0 <= j < before.len() && before[j].id == LocalItemId(item)
                            && before[j].is_body_cycled;
                    assert(after[j] == before[j]);
                }
                if cycled@.contains(item) && !noted.contains(item) {
                    assert(after[i as int].id == LocalItemId(item) && after[i as int].is_body_cycled);
                }
            }
        }
        i += 1;
    }
    assert(report@.take(i as int) =~= report@);
    cycled
}

/// An analysis of a package store, and what it has found.
pub struct Analysis<'a> {
    package_store: &'a PackageStore,
    cycled: IndexMap<FxHashSet<usize>>,
    props: StoreComputeProps,
    stack: Vec<(usize, usize)>,
    failed: bool,
}

impl<'a> Analysis<'a> {
    /// The store that is analyzed.
    pub closed spec fn spec_store(&self) -> &PackageStore {
        self.package_store
    }

    /// The items that are being analyzed, the innermost last.
    pub closed spec fn spec_stack(&self) -> Seq<(usize, usize)> {
        self.stack@
    }

    /// The state of the analysis.
    pub closed spec fn state(&self) -> AnalysisState {
        AnalysisState { props: self.props@, failed: self.failed }
    }

    /// Whether the analysis has failed as the state has, and is in the state
    /// unless it has failed.
    pub open spec fn agrees(&self, model: AnalysisState) -> bool {
        &&& self.state().failed == model.failed
        &&& !model.failed ==> self.state() == model
    }

    /// Whether the analysis knows, of every package with a key below
    /// `count`, the callables whose body is on a cycle.
    pub closed spec fn knows_cycles_upto(&self, count: nat) -> bool {
        forall|package: usize|
            package < count && #[trigger] self.package_store.0@.contains_key(package) ==> {
                &&& self.cycled@.contains_key(package)
                &&& forall|item: usize|
                    self.cycled@[package]@.contains(item) <==> #[trigger] is_body_cycled(
                        self.package_store,
                        (package, item),
                    )
            }
    }

    /// The analysis knows, of every package of the store, the callables whose
    /// body is on a cycle.
    pub closed spec fn well_formed(&self) -> bool {
        self.knows_cycles_upto(self.package_store.0.spec_bound())
    }

    /// Whether this is an analysis of the store that is analyzing no item.
    pub open spec fn is_at_rest(&self, store: &PackageStore) -> bool {
        &&& self.well_formed()
        &&& self.spec_store() == store
        &&& self.spec_stack() == Seq::<(usize, usize)>::empty()
    }

    /// An analysis of the store that has not begun, or nothing where the
    /// cycles of the call graph of a package cannot be told.
    pub fn new(package_store: &'a PackageStore) -> (analysis: Option<Self>)
        ensures
            match analysis {
                Some(analysis) => cycles_are_defined(package_store) && analysis.is_at_rest(
                    package_store,
                ) && analysis.state() == AnalysisState::initial(),
                None => !cycles_are_defined(package_store),
            },
    {
        let mut analysis = Analysis {
            package_store,
            cycled: IndexMap::new(),
            props: StoreComputeProps::new(),
            stack: Vec::new(),
            failed: false,
        };
        let bound = package_store.0.bound();
        let mut p: usize = 0;
        proof {
            package_store.0.lemma_keys_below_bound();
        }
        while p < bound
            invariant
                p <= bound,
                bound == package_store.0.spec_bound(),
                bound <= usize::MAX,
                analysis.package_store == package_store,
                analysis.stack@ == Seq::<(usize, usize)>::empty(),
                analysis.state() == AnalysisState::initial(),
                analysis.knows_cycles_upto(p as nat),
                forall|package: usize|
                    package < p && #[trigger] package_store.0@.contains_key(package)
                        ==> package_cycles(&package_store.0@[package], PackageId(package)) is Some,
            decreases bound - p,
        {
            match package_store.0.get(p) {
                Some(package) => {
                    if package.items.bound() > usize::MAX / 4 {
                        assert(package_cycles(package, PackageId(p)) is None);
                        return None;
                    }
                    let report = match try_detect_callables_with_cycles(PackageId(p), package) {
                        Some(report) => report,
                        None => {
                            assert(package_cycles(package, PackageId(p)) is None);
                            return None;
                        },
                    };
                    let cycled = body_cycled_callables(&report);
                    let ghost before = analysis.cycled@;
                    analysis.cycled.insert(p, cycled);
                    proof {
                        assert forall|package: usize|
                            package < p + 1 && #[trigger] package_store.0@.contains_key(
                                package,
                            ) implies {
                            &&& analysis.cycled@.contains_key(package)
                            &&& forall|item: usize|
                                analysis.cycled@[package]@.contains(item) <==> #[trigger] is_body_cycled(
                                    package_store,
                                    (package, item),
                                )
                        } by {
                            if package < p {
                                assert(before.contains_key(package));
                            }
                        }
                    }
                },
                None => {},
            }
            p += 1;
        }
        Some(analysis)
    }

    /// What the analysis has found, or nothing where it has failed.
    pub fn finish(self) -> (store: Option<StoreComputeProps>)
        ensures
            match store {
                Some(store) => !self.state().failed && store@ == self.state().props,
                None => self.state().failed,
            },
    {
        if self.failed {
            None
        } else {
            Some(self.props)
        }
    }

    /// Analyzes an item, unless its properties are known or it is being
    /// analyzed.
    pub fn analyze(&mut self, target: (usize, usize), fuel: usize)
        requires
            old(self).well_formed(),
        ensures
            final(self).well_formed(),
            final(self).spec_store() == old(self).spec_store(),
            final(self).spec_stack() == old(self).spec_stack(),
            final(self).agrees(
                analyze(
                    old(self).spec_store(),
                    old(self).state(),
                    old(self).spec_stack(),
                    target,
                    fuel as nat,
                ),
            ),
        decreases fuel, 0nat,
    {
        if self.failed || self.props.has_item(PackageId(target.0), LocalItemId(target.1))
            || stack_contains(&self.stack, target) {
            return;
        }
        if fuel == 0 {
            self.failed = true;
            return;
        }
        let package_store = self.package_store;
        let package = match package_store.0.get(target.0) {
            Some(package) => package,
            None => {
                self.failed = true;
                return;
            },
        };
        let item = match package.items.get(target.1) {
            Some(item) => item,
            None => {
                self.failed = true;
                return;
            },
        };
        proof {
            package_store.0.lemma_keys_below_bound();
            package.items.lemma_keys_below_bound();
        }
        // The callees come first, so that their applications are known.
        let callees = match SinglePassAnalyzer::callees_of(
            package,
            PackageId(target.0),
            &self.props,
            item,
        ) {
            Some(callees) => callees,
            None => {
                self.failed = true;
                return;
            },
        };
        self.stack.push(target);
        self.analyze_all(&callees, fuel - 1);
        let _ = self.stack.pop();
        assert(self.spec_stack() =~= old(self).spec_stack());
        if self.failed {
            return;
        }
        match SinglePassAnalyzer::try_analyze_item(
            item,
            LocalItemId(target.1),
            PackageId(target.0),
            &self.props,
            package_store,
        ) {
            Some(partial) => {
                let mut store_partial_compute_props = partial;
                self.props.incorporate_partial_compute_props(&mut store_partial_compute_props);
            },
            None => {
                self.failed = true;
                return;
            },
        }
        let cycled = match self.cycled.get(target.0) {
            Some(cycled) => fx_set_contains(cycled, target.1),
            None => false,
        };
        if cycled {
            // A call that leads back to the callable has added nothing so far.
            match SinglePassAnalyzer::try_analyze_item(
                item,
                LocalItemId(target.1),
                PackageId(target.0),
                &self.props,
                package_store,
            ) {
                Some(partial) => {
                    let mut store_partial_compute_props = partial;
                    self.props.replace_with_partial_compute_props(
                        &mut store_partial_compute_props,
                    );
                },
                None => {
                    self.failed = true;
                },
            }
        }
    }

    /// Analyzes items in their order.
    pub fn analyze_all(&mut self, targets: &Vec<(usize, usize)>, fuel: usize)
        requires
            old(self).well_formed(),
        ensures
            final(self).well_formed(),
            final(self).spec_store() == old(self).spec_store(),
            final(self).spec_stack() == old(self).spec_stack(),
            final(self).agrees(
                analyze_all(
                    old(self).spec_store(),
                    old(self).state(),
                    old(self).spec_stack(),
                    targets@,
                    targets@.len(),
                    fuel as nat,
                ),
            ),
        decreases fuel, 1nat,
    {
        let mut i: usize = 0;
        while i < targets.len()
            invariant
                i <= targets@.len(),
                self.well_formed(),
                self.spec_store() == old(self).spec_store(),
                self.spec_stack() == old(self).spec_stack(),
                self.agrees(
                    analyze_all(
                        old(self).spec_store(),
                        old(self).state(),
                        old(self).spec_stack(),
                        targets@,
                        i as nat,
                        fuel as nat,
                    ),
                ),
            decreases targets@.len() - i,
        {
            proof {
                let before = analyze_all(
                    old(self).spec_store(),
                    old(self).state(),
                    old(self).spec_stack(),
                    targets@,
                    i as nat,
                    fuel as nat,
                );
                if before.failed {
                    lemma_analyze_keeps_failure(
                        old(self).spec_store(),
                        before,
                        old(self).spec_stack(),
                        targets@[i as int],
                        fuel as nat,
                    );
                    lemma_analyze_keeps_failure(
                        old(self).spec_store(),
                        self.state(),
                        old(self).spec_stack(),
                        targets@[i as int],
                        fuel as nat,
                    );
                }
            }
            self.analyze(targets[i], fuel);
            i += 1;
        }
    }
}

} // verus!
