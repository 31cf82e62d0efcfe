//! What holds of the analysis of every package store.

use crate::analysis_model::analysis;
use crate::analysis_model::analysis_budget;
use crate::analysis_model::analysis_of_items;
use crate::analysis_model::analysis_of_packages;
use crate::analysis_model::analyze;
use crate::analysis_model::analyze_all;
use crate::analysis_model::callable_is_defined;
use crate::analysis_model::has_props;
use crate::analysis_model::input_param_count;
use crate::analysis_model::is_body_cycled;
use crate::analysis_model::intrinsic_table;
use crate::analysis_model::item_analysis;
use crate::analysis_model::item_callees;
use crate::analysis_model::recorded;
use crate::analysis_model::replaced;
use crate::analysis_model::single_item;
use crate::analysis_model::store_has_item;
use crate::analysis_model::AnalysisState;
use crate::analyzer::input_params_types;
use crate::budget_laws::lemma_distinct_numbers_are_few;
use crate::analyzer::lemma_body_apps_len;
use crate::analyzer::lemma_output_caps_are_required;
use crate::compute_props::AppIdx;
use crate::fir::CallableImpl;
use crate::fir::ItemKind;
use crate::fir::LocalItemId;
use crate::fir::PackageId;
use crate::fir::PackageStore;
use crate::foundational::ty_caps;
use crate::propagation_laws::lemma_applications_take_the_same_course;
use crate::propagation_laws::lemma_one_application_decides;
use crate::propagation_model::KnownProps;
use crate::store::lemma_merge_empty;
use crate::store::package_or_empty;
use crate::store::InnerElmtComputePropsView;
use crate::store::ItemComputePropsView;
use crate::store::PatComputeProps;
use crate::store::PackageComputePropsView;
use vstd::arithmetic::power2::lemma_pow2_unfold;
use vstd::arithmetic::power2::pow2;
use vstd::prelude::*;

verus! {

/// Every number is below two to its power.
pub proof fn lemma_pow2_is_above(exponent: nat)
    ensures
        exponent < pow2(exponent),
    decreases exponent,
{
    if exponent == 0 {
        crate::compute_props::lemma2_pow2_zero();
    } else {
        lemma_pow2_is_above((exponent - 1) as nat);
        lemma_pow2_unfold(exponent);
    }
}

/// Whether the compute properties are such as the analysis gives the item:
/// none for an item that is no callable, and for a callable with `k` input
/// parameters a table with `2^k` applications, which for an intrinsic
/// callable are the ones that follow from its signature.
pub open spec fn item_is_analyzed(
    store: &PackageStore,
    package: usize,
    item: usize,
    props: ItemComputePropsView,
) -> bool {
    match store.0@[package].items@[item].kind {
        ItemKind::Namespace | ItemKind::Ty => props is NonCallable,
        ItemKind::Callable(callable) => {
            &&& callable_is_defined(&store.0@[package], &callable)
            &&& props matches ItemComputePropsView::Callable(table)
            &&& table.input_param_count as nat == input_param_count(&store.0@[package], &callable)
            &&& table.apps.len() == pow2(input_param_count(&store.0@[package], &callable))
            &&& callable.implementation is Intrinsic ==> table == intrinsic_table(
                &store.0@[package],
                &callable,
            )
        },
    }
}

/// Whether the compute properties of a package are those of items only.
pub open spec fn holds_items_only(package: PackageComputePropsView) -> bool {
    &&& package.blocks == Map::<usize, InnerElmtComputePropsView>::empty()
    &&& package.stmts == Map::<usize, InnerElmtComputePropsView>::empty()
    &&& package.exprs == Map::<usize, InnerElmtComputePropsView>::empty()
    &&& package.pats == Map::<usize, PatComputeProps>::empty()
}

/// Whether all compute properties that are known are of items of the store
/// and such as the analysis gives them.
pub open spec fn is_sound(store: &PackageStore, known: KnownProps) -> bool {
    &&& forall|package: usize, item: usize|
        #![trigger has_props(known, (package, item))]
        has_props(known, (package, item)) ==> store_has_item(store, package, item)
            && item_is_analyzed(store, package, item, known[package].items[item])
    &&& forall|package: usize| #[trigger]
        known.contains_key(package) ==> holds_items_only(known[package])
}

/// Whether a later state of an analysis keeps what an earlier state knows,
/// and that the analysis has failed.
pub open spec fn grows(after: AnalysisState, before: AnalysisState) -> bool {
    &&& before.failed ==> after.failed
    &&& forall|package: usize, item: usize|
        #![trigger has_props(before.props, (package, item))]
        has_props(before.props, (package, item)) ==> has_props(after.props, (package, item))
            && after.props[package].items[item] == before.props[package].items[item]
}

/// What is known once the compute properties of one more item are recorded:
/// those, unless properties of the item were known, and all that was known.
pub proof fn lemma_recorded(known: KnownProps, target: (usize, usize), props: ItemComputePropsView)
    ensures
        has_props(recorded(known, target, props), target),
        !has_props(known, target) ==> recorded(known, target, props)[target.0].items[target.1]
            == props,
        forall|package: usize, item: usize|
            #![trigger has_props(recorded(known, target, props), (package, item))]
            (package, item) != target ==> (has_props(
                recorded(known, target, props),
                (package, item),
            ) <==> has_props(known, (package, item))),
        forall|package: usize, item: usize|
            #![trigger has_props(known, (package, item))]
            has_props(known, (package, item)) ==> recorded(
                known,
                target,
                props,
            )[package].items[item] == known[package].items[item],
        (forall|package: usize| #[trigger]
            known.contains_key(package) ==> holds_items_only(known[package])) ==> (forall|
            package: usize,
        | #[trigger]
            recorded(known, target, props).contains_key(package) ==> holds_items_only(
                recorded(known, target, props)[package],
            )),
{
    let single = single_item(PackageId(target.0), LocalItemId(target.1), props);
    let added = PackageComputePropsView::of_item(LocalItemId(target.1), props);
    let after = recorded(known, target, props);
    assert(single.contains_key(target.0));
    assert(single[target.0] == added);
    assert forall|package: usize| package != target.0 implies !single.contains_key(package) by {}
    assert forall|package: usize| package != target.0 && known.contains_key(package) implies after[package]
        == known[package] by {
        lemma_merge_empty(known[package]);
    }
    assert(after[target.0] == package_or_empty(known, target.0).merge(added));
    if forall|package: usize| #[trigger]
        known.contains_key(package) ==> holds_items_only(known[package]) {
        assert forall|package: usize| #[trigger] after.contains_key(package) implies holds_items_only(
            after[package],
        ) by {
            if package == target.0 {
                let before = package_or_empty(known, target.0);
                assert(holds_items_only(before));
                assert(after[package].blocks =~= before.blocks);
                assert(after[package].stmts =~= before.stmts);
                assert(after[package].exprs =~= before.exprs);
                assert(after[package].pats =~= before.pats);
            } else {
                assert(known.contains_key(package));
            }
        }
    }
    assert forall|package: usize, item: usize|
        #![trigger has_props(after, (package, item))]
        (package, item) != target implies (has_props(after, (package, item)) <==> has_props(
            known,
            (package, item),
        )) by {
        if package != target.0 {
            if after.contains_key(package) {
                assert(known.contains_key(package));
            }
        }
    }
}

/// What is known once the compute properties of an item are replaced: those,
/// and what was known of the other items.
pub proof fn lemma_replaced(known: KnownProps, target: (usize, usize), props: ItemComputePropsView)
    ensures
        has_props(replaced(known, target, props), target),
        replaced(known, target, props)[target.0].items[target.1] == props,
        forall|package: usize, item: usize|
            #![trigger has_props(replaced(known, target, props), (package, item))]
            (package, item) != target ==> (has_props(
                replaced(known, target, props),
                (package, item),
            ) <==> has_props(known, (package, item))),
        forall|package: usize, item: usize|
            #![trigger has_props(known, (package, item))]
            (package, item) != target && has_props(known, (package, item)) ==> replaced(
                known,
                target,
                props,
            )[package].items[item] == known[package].items[item],
        (forall|package: usize| #[trigger]
            known.contains_key(package) ==> holds_items_only(known[package])) ==> (forall|
            package: usize,
        | #[trigger]
            replaced(known, target, props).contains_key(package) ==> holds_items_only(
                replaced(known, target, props)[package],
            )),
{
    let single = single_item(PackageId(target.0), LocalItemId(target.1), props);
    let added = PackageComputePropsView::of_item(LocalItemId(target.1), props);
    let after = replaced(known, target, props);
    assert(single.contains_key(target.0));
    assert(single[target.0] == added);
    assert forall|package: usize| package != target.0 implies !single.contains_key(package) by {}
    assert forall|package: usize| package != target.0 && known.contains_key(package) implies after[package]
        == known[package] by {
        lemma_merge_empty(known[package]);
    }
    assert(after[target.0] == package_or_empty(known, target.0).replaced_by(added));
    if forall|package: usize| #[trigger]
        known.contains_key(package) ==> holds_items_only(known[package]) {
        assert forall|package: usize| #[trigger] after.contains_key(package) implies holds_items_only(
            after[package],
        ) by {
            if package == target.0 {
                let before = package_or_empty(known, target.0);
                assert(holds_items_only(before));
                assert(after[package].blocks =~= before.blocks);
                assert(after[package].stmts =~= before.stmts);
                assert(after[package].exprs =~= before.exprs);
                assert(after[package].pats =~= before.pats);
            } else {
                assert(known.contains_key(package));
            }
        }
    }
    assert forall|package: usize, item: usize|
        #![trigger has_props(after, (package, item))]
        (package, item) != target implies (has_props(after, (package, item)) <==> has_props(
            known,
            (package, item),
        )) by {
        if package != target.0 {
            if after.contains_key(package) {
                assert(known.contains_key(package));
            }
        }
    }
}

/// What the analysis of an item gives is such as the analysis gives the
/// item.
pub proof fn lemma_item_analysis_is_analyzed(
    store: &PackageStore,
    known: KnownProps,
    package: usize,
    item: usize,
)
    requires
        store_has_item(store, package, item),
        item_analysis(
            &store.0@[package],
            PackageId(package),
            known,
            &store.0@[package].items@[item],
        ) is Some,
    ensures
        item_is_analyzed(
            store,
            package,
            item,
            item_analysis(
                &store.0@[package],
                PackageId(package),
                known,
                &store.0@[package].items@[item],
            )->0,
        ),
{
    match store.0@[package].items@[item].kind {
        ItemKind::Callable(callable) => {
            let count = input_param_count(&store.0@[package], &callable);
            lemma_pow2_is_above(count);
            match callable.implementation {
                CallableImpl::Intrinsic => {},
                CallableImpl::Spec(specs) => {
                    lemma_body_apps_len(
                        &store.0@[package],
                        PackageId(package),
                        known,
                        callable.input,
                        specs.body.block,
                        pow2(count),
                    );
                },
            }
        },
        _ => {},
    }
}

/// Where the callees of an item can be told, the item can be analyzed,
/// whatever compute properties are known.
pub proof fn lemma_callees_decide_analysis(
    store: &PackageStore,
    known: KnownProps,
    other: KnownProps,
    package: usize,
    item: usize,
)
    requires
        store_has_item(store, package, item),
        item_callees(
            &store.0@[package],
            PackageId(package),
            known,
            &store.0@[package].items@[item],
        ) is Some,
    ensures
        item_analysis(
            &store.0@[package],
            PackageId(package),
            other,
            &store.0@[package].items@[item],
        ) is Some,
{
    match store.0@[package].items@[item].kind {
        ItemKind::Callable(callable) => match callable.implementation {
            CallableImpl::Spec(specs) => {
                lemma_applications_take_the_same_course(
                    &store.0@[package],
                    PackageId(package),
                    known,
                    other,
                    callable.input,
                    specs.body.block,
                    0,
                    0,
                );
                lemma_one_application_decides(
                    &store.0@[package],
                    PackageId(package),
                    other,
                    callable.input,
                    specs.body.block,
                    pow2(input_param_count(&store.0@[package], &callable)),
                );
            },
            CallableImpl::Intrinsic => {},
        },
        _ => {},
    }
}

/// The analysis of an item keeps what is known and the soundness of it, and
/// unless it fails or the item is being analyzed, the item is known
/// afterwards.
pub proof fn lemma_analyze_grows(
    store: &PackageStore,
    state: AnalysisState,
    stack: Seq<(usize, usize)>,
    target: (usize, usize),
    fuel: nat,
)
    requires
        is_sound(store, state.props),
    ensures
        is_sound(store, analyze(store, state, stack, target, fuel).props),
        grows(analyze(store, state, stack, target, fuel), state),
        !analyze(store, state, stack, target, fuel).failed && !stack.contains(target)
            ==> has_props(analyze(store, state, stack, target, fuel).props, target),
    decreases fuel, 0nat,
{
    if !(state.failed || has_props(state.props, target) || stack.contains(target)) && fuel > 0
        && store_has_item(store, target.0, target.1) {
        let package = &store.0@[target.0];
        let item = &package.items@[target.1];
        match item_callees(package, PackageId(target.0), state.props, item) {
            Some(callees) => {
                let ready = analyze_all(
                    store,
                    state,
                    stack.push(target),
                    callees,
                    callees.len(),
                    (fuel - 1) as nat,
                );
                lemma_analyze_all_grows(
                    store,
                    state,
                    stack.push(target),
                    callees,
                    callees.len(),
                    (fuel - 1) as nat,
                );
                if !ready.failed {
                    match item_analysis(package, PackageId(target.0), ready.props, item) {
                        Some(props) => {
                            lemma_recorded(ready.props, target, props);
                            lemma_item_analysis_is_analyzed(
                                store,
                                ready.props,
                                target.0,
                                target.1,
                            );
                            let once = recorded(ready.props, target, props);
                            let again = if is_body_cycled(store, target) {
                                item_analysis(package, PackageId(target.0), once, item)
                            } else {
                                Some(props)
                            };
                            if again is Some {
                                if is_body_cycled(store, target) {
                                    lemma_replaced(once, target, again->0);
                                    lemma_item_analysis_is_analyzed(store, once, target.0, target.1);
                                }
                                let after = analyze(store, state, stack, target, fuel).props;
                                assert forall|p: usize, i: usize|
                                    #![trigger has_props(after, (p, i))]
                                    has_props(after, (p, i)) implies store_has_item(store, p, i)
                                    && item_is_analyzed(store, p, i, after[p].items[i]) by {
                                    if (p, i) != target {
                                        assert(has_props(ready.props, (p, i)));
                                    }
                                }
                                assert forall|p: usize, i: usize|
                                    #![trigger has_props(state.props, (p, i))]
                                    has_props(state.props, (p, i)) implies has_props(after, (p, i))
                                    && after[p].items[i] == state.props[p].items[i] by {
                                    assert(has_props(ready.props, (p, i)));
                                    assert(has_props(after, (p, i)));
                                }
                            }
                        },
                        None => {},
                    }
                }
            },
            None => {},
        }
    }
}

/// The analysis of items keeps what is known and the soundness of it.
pub proof fn lemma_analyze_all_grows(
    store: &PackageStore,
    state: AnalysisState,
    stack: Seq<(usize, usize)>,
    targets: Seq<(usize, usize)>,
    count: nat,
    fuel: nat,
)
    requires
        is_sound(store, state.props),
    ensures
        is_sound(store, analyze_all(store, state, stack, targets, count, fuel).props),
        grows(analyze_all(store, state, stack, targets, count, fuel), state),
    decreases fuel, 1 + count,
{
    if !(count == 0 || count > targets.len()) {
        let before = analyze_all(store, state, stack, targets, (count - 1) as nat, fuel);
        lemma_analyze_all_grows(store, state, stack, targets, (count - 1) as nat, fuel);
        lemma_analyze_grows(store, before, stack, targets[count - 1], fuel);
        let after = analyze(store, before, stack, targets[count - 1], fuel);
        assert forall|p: usize, i: usize|
            #![trigger has_props(state.props, (p, i))]
            has_props(state.props, (p, i)) implies has_props(after.props, (p, i))
            && after.props[p].items[i] == state.props[p].items[i] by {
            assert(has_props(before.props, (p, i)));
        }
    }
}

/// The analysis of the items of a package keeps what is known and the
/// soundness of it, and unless it fails, the items are known afterwards.
pub proof fn lemma_analysis_of_items_grows(
    store: &PackageStore,
    state: AnalysisState,
    package: usize,
    count: nat,
)
    requires
        is_sound(store, state.props),
    ensures
        is_sound(store, analysis_of_items(store, state, package, count).props),
        grows(analysis_of_items(store, state, package, count), state),
        !analysis_of_items(store, state, package, count).failed ==> forall|item: usize|
            #![trigger store_has_item(store, package, item)]
            item < count && store_has_item(store, package, item) ==> has_props(
                analysis_of_items(store, state, package, count).props,
                (package, item),
            ),
    decreases count,
{
    if count > 0 {
        let before = analysis_of_items(store, state, package, (count - 1) as nat);
        let last = (count - 1) as usize;
        lemma_analysis_of_items_grows(store, state, package, (count - 1) as nat);
        let after = analysis_of_items(store, state, package, count);
        if store_has_item(store, package, last) {
            lemma_analyze_grows(store, before, Seq::empty(), (package, last), analysis_budget());
            assert(!Seq::<(usize, usize)>::empty().contains((package, last)));
        }
        assert forall|p: usize, i: usize|
            #![trigger has_props(state.props, (p, i))]
            has_props(state.props, (p, i)) implies has_props(after.props, (p, i))
            && after.props[p].items[i] == state.props[p].items[i] by {
            assert(has_props(before.props, (p, i)));
        }
        if !after.failed {
            assert forall|item: usize|
                #![trigger store_has_item(store, package, item)]
                item < count && store_has_item(store, package, item) implies has_props(
                after.props,
                (package, item),
            ) by {
                if item < last {
                    assert(has_props(before.props, (package, item)));
                }
            }
        }
    }
}

/// The analysis of packages is sound, and unless it fails, the items of the
/// packages are known afterwards.
pub proof fn lemma_analysis_of_packages_grows(store: &PackageStore, count: nat)
    ensures
        is_sound(store, analysis_of_packages(store, count).props),
        !analysis_of_packages(store, count).failed ==> forall|package: usize, item: usize|
            #![trigger store_has_item(store, package, item)]
            package < count && store_has_item(store, package, item) ==> has_props(
                analysis_of_packages(store, count).props,
                (package, item),
            ),
    decreases count,
{
    if count > 0 {
        let before = analysis_of_packages(store, (count - 1) as nat);
        let last = (count - 1) as usize;
        lemma_analysis_of_packages_grows(store, (count - 1) as nat);
        let after = analysis_of_packages(store, count);
        if store.0@.contains_key(last) {
            let bound = store.0@[last].items.spec_bound();
            lemma_analysis_of_items_grows(store, before, last, bound);
            store.0@[last].items.lemma_keys_below_bound();
        }
        if !after.failed {
            assert forall|package: usize, item: usize|
                #![trigger store_has_item(store, package, item)]
                package < count && store_has_item(store, package, item) implies has_props(
                after.props,
                (package, item),
            ) by {
                if package < last {
                    assert(has_props(before.props, (package, item)));
                }
            }
        }
    }
}

/// The analysis knows every item of the store and nothing else, and what it
/// knows of an item is such as the analysis gives the item.
pub proof fn lemma_analysis_is_complete(store: &PackageStore)
    requires
        !analysis(store).failed,
    ensures
        forall|package: usize, item: usize|
            #![trigger store_has_item(store, package, item)]
            store_has_item(store, package, item) <==> has_props(
                analysis(store).props,
                (package, item),
            ),
        is_sound(store, analysis(store).props),
{
    lemma_analysis_of_packages_grows(store, store.0.spec_bound());
    store.0.lemma_keys_below_bound();
    assert(analysis(store) == analysis_of_packages(store, store.0.spec_bound()));
    assert forall|package: usize, item: usize|
        #![trigger store_has_item(store, package, item)]
        has_props(analysis(store).props, (package, item)) implies store_has_item(
        store,
        package,
        item,
    ) by {}
}

/// Whether the numbers number the items of the store: every item has a
/// number below `count`, and no two items have the same number.
pub open spec fn numbers_items(
    store: &PackageStore,
    number: spec_fn((usize, usize)) -> nat,
    count: nat,
) -> bool {
    &&& forall|item: (usize, usize)|
        store_has_item(store, item.0, item.1) ==> #[trigger] number(item) < count
    &&& forall|one: (usize, usize), other: (usize, usize)|
        store_has_item(store, one.0, one.1) && store_has_item(store, other.0, other.1)
            && #[trigger] number(one) == #[trigger] number(other) ==> one == other
}

/// Whether the stack holds items of the store, and none twice.
pub open spec fn holds_items_once(store: &PackageStore, stack: Seq<(usize, usize)>) -> bool {
    &&& stack.no_duplicates()
    &&& forall|i: int|
        0 <= i < stack.len() ==> store_has_item(store, (#[trigger] stack[i]).0, stack[i].1)
}

/// A stack that holds items of the store, and none twice, holds no more
/// items than the store has.
pub proof fn lemma_stack_holds_few_items(
    store: &PackageStore,
    number: spec_fn((usize, usize)) -> nat,
    count: nat,
    stack: Seq<(usize, usize)>,
)
    requires
        numbers_items(store, number, count),
        count <= usize::MAX,
        holds_items_once(store, stack),
    ensures
        stack.len() <= count,
{
    let numbers = Seq::new(stack.len(), |i: int| number(stack[i]) as usize);
    assert forall|i: int| 0 <= i < numbers.len() implies #[trigger] numbers[i] < count by {
        assert(store_has_item(store, stack[i].0, stack[i].1));
        assert(number(stack[i]) < count);
    }
    assert forall|i: int, j: int|
        0 <= i < numbers.len() && 0 <= j < numbers.len() && i != j implies numbers[i]
        != numbers[j] by {
        assert(store_has_item(store, stack[i].0, stack[i].1));
        assert(store_has_item(store, stack[j].0, stack[j].1));
        assert(number(stack[i]) < count && number(stack[j]) < count);
        if numbers[i] == numbers[j] {
            assert(number(stack[i]) == number(stack[j]));
            assert(stack[i] == stack[j]);
        }
    }
    lemma_distinct_numbers_are_few(numbers, count);
}

/// With a budget of at least the number of items of the store that are not
/// on the stack, the analysis of an item is the same with any larger budget.
pub proof fn lemma_analyze_within(
    store: &PackageStore,
    number: spec_fn((usize, usize)) -> nat,
    count: nat,
    state: AnalysisState,
    stack: Seq<(usize, usize)>,
    target: (usize, usize),
    fuel: nat,
    more: nat,
)
    requires
        numbers_items(store, number, count),
        count <= usize::MAX,
        holds_items_once(store, stack),
        fuel + stack.len() >= count,
        fuel <= more,
    ensures
        analyze(store, state, stack, target, more) == analyze(store, state, stack, target, fuel),
    decreases fuel, 0nat,
{
    if !(state.failed || has_props(state.props, target) || stack.contains(target))
        && store_has_item(store, target.0, target.1) {
        let deeper = stack.push(target);
        assert forall|i: int, j: int|
            0 <= i < deeper.len() && 0 <= j < deeper.len() && i != j implies deeper[i]
            != deeper[j] by {
            if i < stack.len() {
                assert(stack.contains(deeper[i]));
            }
            if j < stack.len() {
                assert(stack.contains(deeper[j]));
            }
        }
        assert(holds_items_once(store, deeper));
        lemma_stack_holds_few_items(store, number, count, deeper);
        let package = &store.0@[target.0];
        let item = &package.items@[target.1];
        match item_callees(package, PackageId(target.0), state.props, item) {
            Some(callees) => {
                lemma_analyze_all_within(
                    store,
                    number,
                    count,
                    state,
                    deeper,
                    callees,
                    callees.len(),
                    (fuel - 1) as nat,
                    (more - 1) as nat,
                );
            },
            None => {},
        }
    }
}

/// With a budget of at least the number of items of the store that are not
/// on the stack, the analysis of items is the same with any larger budget.
pub proof fn lemma_analyze_all_within(
    store: &PackageStore,
    number: spec_fn((usize, usize)) -> nat,
    count: nat,
    state: AnalysisState,
    stack: Seq<(usize, usize)>,
    targets: Seq<(usize, usize)>,
    upto: nat,
    fuel: nat,
    more: nat,
)
    requires
        numbers_items(store, number, count),
        count <= usize::MAX,
        holds_items_once(store, stack),
        fuel + stack.len() >= count,
        fuel <= more,
    ensures
        analyze_all(store, state, stack, targets, upto, more) == analyze_all(
            store,
            state,
            stack,
            targets,
            upto,
            fuel,
        ),
    decreases fuel, 1 + upto,
{
    if !(upto == 0 || upto > targets.len()) {
        lemma_analyze_all_within(
            store,
            number,
            count,
            state,
            stack,
            targets,
            (upto - 1) as nat,
            fuel,
            more,
        );
        lemma_analyze_within(
            store,
            number,
            count,
            analyze_all(store, state, stack, targets, (upto - 1) as nat, fuel),
            stack,
            targets[upto - 1],
            fuel,
            more,
        );
    }
}

/// Where the items of a store can be numbered by numbers that fit in `usize`,
/// the analysis of an item from outside any other gives with every larger
/// budget what it gives with the budget of the analysis: it does not fail for
/// want of budget.
pub proof fn lemma_analysis_stays_within_budget(
    store: &PackageStore,
    number: spec_fn((usize, usize)) -> nat,
    count: nat,
    state: AnalysisState,
    target: (usize, usize),
    more: nat,
)
    requires
        numbers_items(store, number, count),
        count <= usize::MAX,
        more >= analysis_budget(),
    ensures
        analyze(store, state, Seq::empty(), target, more) == analyze(
            store,
            state,
            Seq::empty(),
            target,
            analysis_budget(),
        ),
{
    lemma_analyze_within(
        store,
        number,
        count,
        state,
        Seq::empty(),
        target,
        analysis_budget(),
        more,
    );
}

/// The table that the analysis gives a callable with `k` input parameters
/// holds `2^k` applications.
pub proof fn lemma_table_has_all_applications(store: &PackageStore, package: usize, item: usize)
    requires
        !analysis(store).failed,
        store_has_item(store, package, item),
        store.0@[package].items@[item].kind is Callable,
    ensures
        has_props(analysis(store).props, (package, item)),
        analysis(store).props[package].items[item] matches ItemComputePropsView::Callable(table)
            && table.apps.len() == pow2(table.input_param_count as nat)
            && table.input_param_count as nat == input_params_types(
            &store.0@[package].pats@[store.0@[package].items@[item].kind->Callable_0.input.0],
        ).len(),
{
    lemma_analysis_is_complete(store);
    assert(has_props(analysis(store).props, (package, item)));
}

/// Every application but the all-static one of an intrinsic callable requires
/// what the type of the output requires.
pub proof fn lemma_intrinsic_application_requires_output_caps(
    store: &PackageStore,
    package: usize,
    item: usize,
    index: AppIdx,
)
    requires
        !analysis(store).failed,
        store_has_item(store, package, item),
        store.0@[package].items@[item].kind matches ItemKind::Callable(callable)
            && callable.implementation is Intrinsic,
        index.0 != 0,
        index.0 < pow2(
            input_params_types(
                &store.0@[package].pats@[store.0@[package].items@[item].kind->Callable_0.input.0],
            ).len(),
        ),
    ensures
        has_props(analysis(store).props, (package, item)),
        analysis(store).props[package].items[item] matches ItemComputePropsView::Callable(table)
            && index.0 < table.apps.len() && ty_caps(
            &store.0@[package].items@[item].kind->Callable_0.output,
        ).subset_of(table.apps[index.0 as int].rt_caps),
{
    lemma_analysis_is_complete(store);
    assert(has_props(analysis(store).props, (package, item)));
    let callable = store.0@[package].items@[item].kind->Callable_0;
    let types = input_params_types(&store.0@[package].pats@[callable.input.0]);
    lemma_output_caps_are_required(types, &callable.output, index);
}

/// The analysis of a store is a function of the store: two results of
/// analyzing the same store are equal.
pub proof fn lemma_analysis_is_deterministic(
    store: &PackageStore,
    first: KnownProps,
    second: KnownProps,
)
    requires
        !analysis(store).failed,
        first == analysis(store).props,
        second == analysis(store).props,
    ensures
        first == second,
{
}

} // verus!
