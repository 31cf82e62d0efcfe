//! What the analysis of a package store computes.
//!
//! The analysis takes the items package by package, in the order of their
//! keys. An item that is no callable is recorded as such. An intrinsic callable
//! gets the applications that follow from its signature. A callable with a
//! body gets one application for each choice of dynamic parameters, from the
//! evaluation of its body. Before its body is evaluated, the callables that
//! the body calls are analyzed, so that their applications are known; a
//! callee that is being analyzed already, because the call is on a cycle, is
//! passed over, and its call adds nothing. To make up for that, the body of a
//! callable that is on a cycle of the call graph of its package is evaluated
//! a second time, with the applications known that the first time gave: a
//! call that leads back to the callable then adds what the callable requires
//! apart from such calls. The applications of the second time replace those
//! of the first. Nothing else that is known is ever replaced, and no item is
//! taken up twice.
//!
//! The analysis fails on a store that is malformed: where the cycles of the
//! call graph of a package cannot be told, where a callable refers to
//! something that its package lacks, where the signature of a callable is not
//! one that a callable can have, and where a called item is missing.

use crate::analyzer::input_params_types;
use crate::analyzer::intrinsic_apps;
use crate::analyzer::intrinsic_is_defined;
use crate::analyzer::is_param_pattern;
use crate::cycle_model::detection;
use crate::cycle_model::reports_body_cycle;
use crate::cycle_model::CycledCallableInfo;
use crate::fir::CallableDecl;
use crate::fir::CallableImpl;
use crate::fir::Item;
use crate::fir::ItemKind;
use crate::fir::LocalItemId;
use crate::fir::Package;
use crate::fir::PackageId;
use crate::fir::PackageStore;
use crate::propagation_model::body_apps;
use crate::propagation_model::eval_app;
use crate::propagation_model::KnownProps;
use crate::store::store_merged;
use crate::store::store_replaced;
use crate::store::AppsTblView;
use crate::store::ItemComputePropsView;
use crate::store::PackageComputePropsView;
use vstd::arithmetic::power2::pow2;
use vstd::prelude::*;

verus! {

/// Whether the store has the item.
pub open spec fn store_has_item(store: &PackageStore, package: usize, item: usize) -> bool {
    store.0@.contains_key(package) && store.0@[package].items@.contains_key(item)
}

/// The number of input parameters of the callable.
pub open spec fn input_param_count(package: &Package, callable: &CallableDecl) -> nat {
    input_params_types(&package.pats@[callable.input.0]).len()
}

/// Whether the signature of the callable is one that can be analyzed: the
/// package has the input pattern, the pattern is one that a callable can
/// have, and there are no more applications than `usize` can count. The types
/// of an intrinsic callable must be types of values besides.
pub open spec fn callable_is_defined(package: &Package, callable: &CallableDecl) -> bool {
    &&& package.pats@.contains_key(callable.input.0)
    &&& is_param_pattern(&package.pats@[callable.input.0])
    &&& pow2(input_param_count(package, callable)) <= usize::MAX
    &&& callable.implementation is Intrinsic ==> intrinsic_is_defined(
        input_params_types(&package.pats@[callable.input.0]),
        &callable.output,
    )
}

/// The applications table of an intrinsic callable.
pub open spec fn intrinsic_table(package: &Package, callable: &CallableDecl) -> AppsTblView {
    let types = input_params_types(&package.pats@[callable.input.0]);
    AppsTblView {
        input_param_count: types.len() as usize,
        apps: intrinsic_apps(callable.kind, types, &callable.output, pow2(types.len())),
    }
}

/// The applications table of a callable with a body, given the compute
/// properties that are known, or nothing where an evaluation of the body
/// fails.
pub open spec fn body_table(
    package: &Package,
    package_id: PackageId,
    known: KnownProps,
    callable: &CallableDecl,
) -> Option<AppsTblView> {
    let count = input_param_count(package, callable);
    match body_apps(
        package,
        package_id,
        known,
        callable.input,
        callable.implementation->Spec_0.body.block,
        pow2(count),
    ) {
        Some(apps) => Some(AppsTblView { input_param_count: count as usize, apps }),
        None => None,
    }
}

/// The compute properties of an item, given the compute properties that are
/// known, or nothing where the item cannot be analyzed.
pub open spec fn item_analysis(
    package: &Package,
    package_id: PackageId,
    known: KnownProps,
    item: &Item,
) -> Option<ItemComputePropsView> {
    match item.kind {
        ItemKind::Namespace | ItemKind::Ty => Some(ItemComputePropsView::NonCallable),
        ItemKind::Callable(callable) => if !callable_is_defined(package, &callable) {
            None
        } else {
            match callable.implementation {
                CallableImpl::Intrinsic => Some(
                    ItemComputePropsView::Callable(intrinsic_table(package, &callable)),
                ),
                CallableImpl::Spec(_) => match body_table(package, package_id, known, &callable) {
                    Some(table) => Some(ItemComputePropsView::Callable(table)),
                    None => None,
                },
            }
        },
    }
}

/// The callables that the body of an item calls, call by call, or nothing
/// where the item cannot be analyzed. Only a callable with a body calls
/// anything.
pub open spec fn item_callees(
    package: &Package,
    package_id: PackageId,
    known: KnownProps,
    item: &Item,
) -> Option<Seq<(usize, usize)>> {
    match item.kind {
        ItemKind::Namespace | ItemKind::Ty => Some(Seq::empty()),
        ItemKind::Callable(callable) => if !callable_is_defined(package, &callable) {
            None
        } else {
            match callable.implementation {
                CallableImpl::Intrinsic => Some(Seq::empty()),
                CallableImpl::Spec(specs) => match eval_app(
                    package,
                    package_id,
                    known,
                    callable.input,
                    specs.body.block,
                    0,
                ) {
                    Some(state) => Some(state.callees),
                    None => None,
                },
            }
        },
    }
}

/// The partial store that holds the properties of one item and nothing else.
pub open spec fn single_item(
    package: PackageId,
    item: LocalItemId,
    props: ItemComputePropsView,
) -> KnownProps {
    Map::<usize, PackageComputePropsView>::empty().insert(
        package.0,
        PackageComputePropsView::of_item(item, props),
    )
}

/// The known compute properties, with those of one more item. Where
/// properties of the item are known already, they stay.
pub open spec fn recorded(
    known: KnownProps,
    target: (usize, usize),
    props: ItemComputePropsView,
) -> KnownProps {
    store_merged(known, single_item(PackageId(target.0), LocalItemId(target.1), props))
}

/// The known compute properties, with those of one item in place of what was
/// known of the item.
pub open spec fn replaced(
    known: KnownProps,
    target: (usize, usize),
    props: ItemComputePropsView,
) -> KnownProps {
    store_replaced(known, single_item(PackageId(target.0), LocalItemId(target.1), props))
}

/// Whether the compute properties of the item are known.
pub open spec fn has_props(known: KnownProps, target: (usize, usize)) -> bool {
    known.contains_key(target.0) && known[target.0].items.contains_key(target.1)
}

/// The state of an analysis.
pub struct AnalysisState {
    /// The compute properties that are known.
    pub props: KnownProps,
    /// Whether the analysis has failed.
    pub failed: bool,
}

impl AnalysisState {
    /// The state before the analysis.
    pub open spec fn initial() -> AnalysisState {
        AnalysisState { props: Map::empty(), failed: false }
    }

    /// The state, failed.
    pub open spec fn fail(self) -> AnalysisState {
        AnalysisState { failed: true, ..self }
    }
}

/// The callables of a package that are on a cycle of its call graph, or
/// nothing where the package is malformed or has more items than their
/// specializations can be numbered.
pub open spec fn package_cycles(package: &Package, package_id: PackageId) -> Option<
    Seq<CycledCallableInfo>,
> {
    if 4 * package.items.spec_bound() > usize::MAX {
        None
    } else {
        detection(package, package_id)
    }
}

/// Whether the cycles of the call graph of every package of the store can be
/// told.
pub open spec fn cycles_are_defined(store: &PackageStore) -> bool {
    forall|package: usize| #[trigger]
        store.0@.contains_key(package) ==> package_cycles(
            &store.0@[package],
            PackageId(package),
        ) is Some
}

/// Whether the item is a callable whose body is on a cycle of the call graph
/// of its package.
pub open spec fn is_body_cycled(store: &PackageStore, target: (usize, usize)) -> bool {
    &&& store.0@.contains_key(target.0)
    &&& package_cycles(&store.0@[target.0], PackageId(target.0)) matches Some(report)
    &&& reports_body_cycle(report, LocalItemId(target.1))
}

/// How deep the analysis of callees may be nested.
pub open spec fn analysis_budget() -> nat {
    usize::MAX as nat
}

/// The state after the analysis of an item, with the items on the stack
/// being analyzed. An item whose properties are known, and an item on the
/// stack, are passed over. A callable whose body is on a cycle is analyzed
/// twice, the second time with what the first time gave known, and what the
/// second time gives replaces what the first time gave.
pub open spec fn analyze(
    store: &PackageStore,
    state: AnalysisState,
    stack: Seq<(usize, usize)>,
    target: (usize, usize),
    fuel: nat,
) -> AnalysisState
    decreases fuel, 0nat,
{
    if state.failed || has_props(state.props, target) || stack.contains(target) {
        state
    } else if fuel == 0 || !store_has_item(store, target.0, target.1) {
        state.fail()
    } else {
        let package = &store.0@[target.0];
        let item = &package.items@[target.1];
        match item_callees(package, PackageId(target.0), state.props, item) {
            Some(callees) => {
                let ready = analyze_all(
                    store,
                    state,
                    stack.push(target),
                    callees,
                    callees.len(),
                    (fuel - 1) as nat,
                );
                if ready.failed {
                    ready
                } else {
                    match item_analysis(package, PackageId(target.0), ready.props, item) {
                        Some(props) => {
                            let once = recorded(ready.props, target, props);
                            if is_body_cycled(store, target) {
                                match item_analysis(package, PackageId(target.0), once, item) {
                                    Some(again) => AnalysisState {
                                        props: replaced(once, target, again),
                                        ..ready
                                    },
                                    None => ready.fail(),
                                }
                            } else {
                                AnalysisState { props: once, ..ready }
                            }
                        },
                        None => ready.fail(),
                    }
                }
            },
            None => state.fail(),
        }
    }
}

/// The state after the analysis of the first `count` items, in their order.
pub open spec fn analyze_all(
    store: &PackageStore,
    state: AnalysisState,
    stack: Seq<(usize, usize)>,
    targets: Seq<(usize, usize)>,
    count: nat,
    fuel: nat,
) -> AnalysisState
    decreases fuel, 1 + count,
{
    if count == 0 || count > targets.len() {
        state
    } else {
        analyze(
            store,
            analyze_all(store, state, stack, targets, (count - 1) as nat, fuel),
            stack,
            targets[count - 1],
            fuel,
        )
    }
}

/// The state after the analysis of the items of a package with a key below
/// `count`, in the order of their keys.
pub open spec fn analysis_of_items(
    store: &PackageStore,
    state: AnalysisState,
    package: usize,
    count: nat,
) -> AnalysisState
    decreases count,
{
    if count == 0 {
        state
    } else {
        let before = analysis_of_items(store, state, package, (count - 1) as nat);
        let item = (count - 1) as usize;
        if store_has_item(store, package, item) {
            analyze(store, before, Seq::empty(), (package, item), analysis_budget())
        } else {
            before
        }
    }
}

/// The state after the analysis of the packages with a key below `count`, in
/// the order of their keys.
pub open spec fn analysis_of_packages(store: &PackageStore, count: nat) -> AnalysisState
    decreases count,
{
    if count == 0 {
        AnalysisState::initial()
    } else {
        let before = analysis_of_packages(store, (count - 1) as nat);
        let package = (count - 1) as usize;
        if store.0@.contains_key(package) {
            analysis_of_items(store, before, package, store.0@[package].items.spec_bound())
        } else {
            before
        }
    }
}

/// The state after the analysis of the store.
pub open spec fn analysis(store: &PackageStore) -> AnalysisState {
    if cycles_are_defined(store) {
        analysis_of_packages(store, store.0.spec_bound())
    } else {
        AnalysisState::initial().fail()
    }
}

/// The analysis of an item leaves a failed state as it is.
pub proof fn lemma_analyze_keeps_failure(
    store: &PackageStore,
    state: AnalysisState,
    stack: Seq<(usize, usize)>,
    target: (usize, usize),
    fuel: nat,
)
    requires
        state.failed,
    ensures
        analyze(store, state, stack, target, fuel) == state,
{
}

} // verus!
