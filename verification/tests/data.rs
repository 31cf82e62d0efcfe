use qsc_rca::capability::CapabilitySet;
use qsc_rca::capability::RuntimeCapability;
use qsc_rca::capability::RuntimeCapability::ConditionalForwardBranching;
use qsc_rca::capability::RuntimeCapability::FloatingPointComputation;
use qsc_rca::capability::RuntimeCapability::HigherLevelConstructs;
use qsc_rca::capability::RuntimeCapability::IntegerComputations;
use qsc_rca::circuit::adjoint_gate;
use qsc_rca::circuit::controlled_gate;
use qsc_rca::circuit::gate;
use qsc_rca::circuit::measurement_gate;
use qsc_rca::circuit::Circuit;
use qsc_rca::circuit::Register;
use qsc_rca::compute_props::checked_pow2;
use qsc_rca::compute_props::AppIdx;
use qsc_rca::compute_props::AppsTbl;
use qsc_rca::compute_props::ComputeKind;
use qsc_rca::compute_props::ComputeKind::Dynamic;
use qsc_rca::compute_props::ComputeKind::Static;
use qsc_rca::compute_props::ComputeProps;
use qsc_rca::compute_props::ParamIdx;
use qsc_rca::compute_props::QuantumSource;
use qsc_rca::fir::Arrow;
use qsc_rca::fir::CallableKind;
use qsc_rca::fir::ItemId;
use qsc_rca::fir::LocalItemId;
use qsc_rca::fir::PackageId;
use qsc_rca::fir::Prim;
use qsc_rca::fir::Ty;
use qsc_rca::foundational::required_caps;
use qsc_rca::foundational::Foundational;
use qsc_rca::index_map::IndexMap;
use qsc_rca::rir::CallableId;
use qsc_rca::rir::Condition;
use qsc_rca::rt_props::AppsTable;
use qsc_rca::rt_props::CallableRtProps;
use qsc_rca::rt_props::InnerElmtRtProps;
use qsc_rca::rt_props::ItemRtProps;
use qsc_rca::rt_props::RtProps;
use qsc_rca::rt_props::StoreRtProps;
use qsc_rca::selector::CallableSpecializationSelector;
use qsc_rca::selector::SpecializationSelector;
use qsc_rca::store::CallableComputeProps;
use qsc_rca::store::ItemComputeProps;
use qsc_rca::store::PackageComputeProps;
use qsc_rca::store::PackagePartialComputeProps;
use qsc_rca::store::StoreComputeProps;
use qsc_rca::store::StorePartialComputeProps;

#[test]
fn a_capability_set_holds_what_was_added() {
    let mut set = CapabilitySet::new();
    assert!(set.is_empty());
    assert_eq!(set.to_vec(), vec![]);
    set.insert(FloatingPointComputation);
    set.insert(ConditionalForwardBranching);
    set.insert(FloatingPointComputation);
    assert!(!set.is_empty());
    assert!(set.contains(ConditionalForwardBranching));
    assert!(set.contains(FloatingPointComputation));
    assert!(!set.contains(IntegerComputations));
    assert!(!set.contains(HigherLevelConstructs));
    assert_eq!(set.to_vec(), vec![ConditionalForwardBranching, FloatingPointComputation]);
}

#[test]
fn a_capability_set_of_one_holds_that_one() {
    for cap in [
        ConditionalForwardBranching,
        IntegerComputations,
        FloatingPointComputation,
        HigherLevelConstructs,
    ] {
        let set = CapabilitySet::from_capability(cap);
        assert_eq!(set.to_vec(), vec![cap]);
    }
}

#[test]
fn extending_a_capability_set_gives_the_union() {
    let mut set = CapabilitySet::from_capability(IntegerComputations);
    let mut other = CapabilitySet::from_capability(HigherLevelConstructs);
    other.insert(IntegerComputations);
    set.extend(&other);
    assert_eq!(set.to_vec(), vec![IntegerComputations, HigherLevelConstructs]);
    assert_eq!(other.to_vec(), vec![IntegerComputations, HigherLevelConstructs]);
    set.extend(&CapabilitySet::new());
    assert_eq!(set.to_vec(), vec![IntegerComputations, HigherLevelConstructs]);
}

#[test]
fn a_copy_of_a_capability_set_is_a_set_of_its_own() {
    let mut set = CapabilitySet::from_capability(IntegerComputations);
    let copy = set.clone();
    set.insert(HigherLevelConstructs);
    assert_eq!(copy.to_vec(), vec![IntegerComputations]);
    assert_eq!(set.to_vec(), vec![IntegerComputations, HigherLevelConstructs]);
}

#[test]
fn capabilities_have_the_codes_zero_to_three() {
    assert_eq!(RuntimeCapability::ConditionalForwardBranching.code(), 0);
    assert_eq!(RuntimeCapability::IntegerComputations.code(), 1);
    assert_eq!(RuntimeCapability::FloatingPointComputation.code(), 2);
    assert_eq!(RuntimeCapability::HigherLevelConstructs.code(), 3);
}

#[test]
fn the_bits_of_an_index_are_the_dynamic_parameters() {
    assert_eq!(AppIdx(0).map_to_compute_kind_vector(0), vec![]);
    assert_eq!(AppIdx(0).map_to_compute_kind_vector(3), vec![Static, Static, Static]);
    assert_eq!(AppIdx(1).map_to_compute_kind_vector(3), vec![Dynamic, Static, Static]);
    assert_eq!(AppIdx(5).map_to_compute_kind_vector(3), vec![Dynamic, Static, Dynamic]);
    assert_eq!(AppIdx(6).map_to_compute_kind_vector(3), vec![Static, Dynamic, Dynamic]);
    assert_eq!(AppIdx(7).map_to_compute_kind_vector(2), vec![Dynamic, Dynamic]);
}

#[test]
fn parameters_beyond_the_bits_of_an_index_are_static() {
    let kinds = AppIdx(usize::MAX).map_to_compute_kind_vector(70);
    assert_eq!(kinds.len(), 70);
    for (position, kind) in kinds.iter().enumerate() {
        let expected = if position < usize::BITS as usize {
            ComputeKind::Dynamic
        } else {
            ComputeKind::Static
        };
        assert_eq!(*kind, expected);
    }
}

#[test]
fn indices_are_ordered_as_numbers() {
    assert!(AppIdx(1) < AppIdx(2));
    assert_eq!(AppIdx::default(), AppIdx(0));
    assert!(ParamIdx(3) > ParamIdx(2));
    assert_eq!(ParamIdx::default(), ParamIdx(0));
}

#[test]
fn powers_of_two_that_fit_are_computed() {
    assert_eq!(checked_pow2(0), Some(1));
    assert_eq!(checked_pow2(1), Some(2));
    assert_eq!(checked_pow2(10), Some(1024));
    assert_eq!(checked_pow2(usize::BITS as usize - 1), Some(1 << (usize::BITS - 1)));
    assert_eq!(checked_pow2(usize::BITS as usize), None);
    assert_eq!(checked_pow2(usize::MAX), None);
}

#[test]
fn compute_properties_without_capabilities_are_static() {
    let props = ComputeProps { rt_caps: CapabilitySet::new(), quantum_sources: vec![] };
    assert_eq!(props.compute_kind(), ComputeKind::Static);
    assert!(!props.is_quantum_source());
    let props = ComputeProps {
        rt_caps: CapabilitySet::from_capability(IntegerComputations),
        quantum_sources: vec![QuantumSource::Intrinsic],
    };
    assert_eq!(props.compute_kind(), ComputeKind::Dynamic);
    assert!(props.is_quantum_source());
    let copy = props.clone();
    assert_eq!(copy.rt_caps.to_vec(), vec![IntegerComputations]);
    assert_eq!(copy.quantum_sources, vec![QuantumSource::Intrinsic]);
}

#[test]
fn an_applications_table_is_filled_in_the_order_of_the_indices() {
    let mut table = AppsTbl::new(1);
    assert_eq!(table.input_param_count(), 1);
    assert_eq!(table.len(), 0);
    assert!(!table.holds_all());
    assert!(table.get(AppIdx(0)).is_none());
    table.push(ComputeProps { rt_caps: CapabilitySet::new(), quantum_sources: vec![] });
    assert!(!table.holds_all());
    table.push(ComputeProps {
        rt_caps: CapabilitySet::from_capability(FloatingPointComputation),
        quantum_sources: vec![],
    });
    assert!(table.holds_all());
    assert_eq!(table.len(), 2);
    assert!(table.get(AppIdx(0)).unwrap().rt_caps.is_empty());
    assert_eq!(table.get(AppIdx(1)).unwrap().rt_caps.to_vec(), vec![FloatingPointComputation]);
    let first = table.get_mut(AppIdx(0)).expect("application should be in the table");
    first.rt_caps.insert(IntegerComputations);
    first.quantum_sources.push(QuantumSource::Intrinsic);
    assert_eq!(table.get(AppIdx(0)).unwrap().rt_caps.to_vec(), vec![IntegerComputations]);
    let copy = table.clone();
    assert_eq!(copy.len(), 2);
    assert_eq!(copy.input_param_count(), 1);
    assert!(copy.get(AppIdx(0)).unwrap().is_quantum_source());
}

#[test]
fn an_index_map_holds_what_was_inserted() {
    let mut map: IndexMap<&str> = IndexMap::new();
    assert_eq!(map.bound(), 0);
    assert!(!map.contains_key(0));
    assert_eq!(map.get(3), None);
    map.insert(3, "three");
    assert_eq!(map.bound(), 4);
    assert!(map.contains_key(3));
    assert!(!map.contains_key(2));
    assert_eq!(map.get(3), Some(&"three"));
    map.insert(1, "one");
    map.insert(3, "drei");
    assert_eq!(map.bound(), 4);
    assert_eq!(map.get(1), Some(&"one"));
    assert_eq!(map.get(3), Some(&"drei"));
    assert_eq!(map.remove(1), Some("one"));
    assert_eq!(map.remove(1), None);
    assert_eq!(map.remove(17), None);
    assert!(!map.contains_key(1));
    assert_eq!(map.bound(), 4);
}

fn single_callable(input_param_count: usize) -> CallableComputeProps {
    CallableComputeProps { apps: AppsTbl::new(input_param_count) }
}

fn param_count_of(props: &StoreComputeProps, package: usize, item: usize) -> usize {
    match props.get_item(PackageId(package), LocalItemId(item)) {
        Some(ItemComputeProps::Callable(callable)) => callable.apps.input_param_count(),
        _ => panic!("item should be a callable"),
    }
}

#[test]
fn a_store_takes_over_what_partial_stores_hold() {
    let mut store = StoreComputeProps::new();
    assert!(!store.has_item(PackageId(2), LocalItemId(5)));
    let mut partial = StorePartialComputeProps::with_callable_compute_props(
        PackageId(2),
        LocalItemId(5),
        single_callable(1),
    );
    store.incorporate_partial_compute_props(&mut partial);
    assert!(store.has_item(PackageId(2), LocalItemId(5)));
    assert!(!store.has_item(PackageId(2), LocalItemId(4)));
    assert!(!store.has_item(PackageId(1), LocalItemId(5)));
    assert_eq!(param_count_of(&store, 2, 5), 1);
    // The partial store is empty afterwards.
    let mut other = StoreComputeProps::new();
    other.incorporate_partial_compute_props(&mut partial);
    assert!(!other.has_item(PackageId(2), LocalItemId(5)));
    assert_eq!(other.bound(), 0);

    let mut partial =
        StorePartialComputeProps::with_non_callable_item_compute_props(PackageId(2), LocalItemId(1));
    store.incorporate_partial_compute_props(&mut partial);
    let mut partial = StorePartialComputeProps::with_callable_compute_props(
        PackageId(0),
        LocalItemId(5),
        single_callable(3),
    );
    store.incorporate_partial_compute_props(&mut partial);
    assert!(store.has_item(PackageId(2), LocalItemId(5)));
    assert!(store.has_item(PackageId(2), LocalItemId(1)));
    assert!(store.has_item(PackageId(0), LocalItemId(5)));
    assert!(matches!(
        store.get_item(PackageId(2), LocalItemId(1)),
        Some(ItemComputeProps::NonCallable)
    ));
    assert_eq!(param_count_of(&store, 2, 5), 1);
    assert_eq!(param_count_of(&store, 0, 5), 3);
    assert_eq!(store.bound(), 3);
    assert!(store.get_package(PackageId(1)).is_none());
}

#[test]
fn what_the_store_holds_stays_when_a_partial_store_holds_it_too() {
    let mut store = StoreComputeProps::new();
    let mut partial = StorePartialComputeProps::with_callable_compute_props(
        PackageId(0),
        LocalItemId(0),
        single_callable(1),
    );
    store.incorporate_partial_compute_props(&mut partial);
    let mut partial = StorePartialComputeProps::with_callable_compute_props(
        PackageId(0),
        LocalItemId(0),
        single_callable(2),
    );
    store.incorporate_partial_compute_props(&mut partial);
    assert_eq!(param_count_of(&store, 0, 0), 1);
    // The partial store is emptied all the same.
    let mut other = StoreComputeProps::new();
    other.incorporate_partial_compute_props(&mut partial);
    assert!(!other.has_item(PackageId(0), LocalItemId(0)));
    // Another item of the same package is added.
    let mut partial = StorePartialComputeProps::with_callable_compute_props(
        PackageId(0),
        LocalItemId(1),
        single_callable(3),
    );
    store.incorporate_partial_compute_props(&mut partial);
    assert_eq!(param_count_of(&store, 0, 0), 1);
    assert_eq!(param_count_of(&store, 0, 1), 3);
}

#[test]
fn what_a_partial_store_holds_replaces_what_the_store_held_when_asked_to() {
    let mut store = StoreComputeProps::new();
    let mut partial = StorePartialComputeProps::with_callable_compute_props(
        PackageId(0),
        LocalItemId(0),
        single_callable(1),
    );
    store.incorporate_partial_compute_props(&mut partial);
    let mut partial = StorePartialComputeProps::with_callable_compute_props(
        PackageId(0),
        LocalItemId(1),
        single_callable(3),
    );
    store.incorporate_partial_compute_props(&mut partial);
    let mut partial = StorePartialComputeProps::with_callable_compute_props(
        PackageId(0),
        LocalItemId(0),
        single_callable(2),
    );
    store.replace_with_partial_compute_props(&mut partial);
    assert_eq!(param_count_of(&store, 0, 0), 2);
    assert_eq!(param_count_of(&store, 0, 1), 3);
    // What the store lacks is added.
    let mut partial = StorePartialComputeProps::with_callable_compute_props(
        PackageId(4),
        LocalItemId(2),
        single_callable(0),
    );
    store.replace_with_partial_compute_props(&mut partial);
    assert_eq!(param_count_of(&store, 4, 2), 0);
    assert_eq!(param_count_of(&store, 0, 0), 2);
}

#[test]
fn what_a_package_holds_stays_unless_it_is_to_be_replaced() {
    let mut package = PackageComputeProps::default();
    let mut partial =
        PackagePartialComputeProps::with_callable_compute_props(LocalItemId(4), single_callable(2));
    package.incorporate_partial_compute_props(&mut partial);
    let mut partial = PackagePartialComputeProps::with_non_callable_item_compute_props(LocalItemId(4));
    package.incorporate_partial_compute_props(&mut partial);
    assert!(matches!(package.items.get(4), Some(ItemComputeProps::Callable(_))));
    assert!(partial.items.is_empty());
    let mut partial = PackagePartialComputeProps::with_non_callable_item_compute_props(LocalItemId(4));
    package.replace_with_partial_compute_props(&mut partial);
    assert!(matches!(package.items.get(4), Some(ItemComputeProps::NonCallable)));
    assert!(partial.items.is_empty());
}

#[test]
fn a_package_takes_over_what_a_partial_package_holds() {
    let mut package = PackageComputeProps::default();
    let mut partial =
        PackagePartialComputeProps::with_callable_compute_props(LocalItemId(4), single_callable(2));
    package.incorporate_partial_compute_props(&mut partial);
    let mut partial = PackagePartialComputeProps::with_non_callable_item_compute_props(LocalItemId(1));
    package.incorporate_partial_compute_props(&mut partial);
    assert!(matches!(package.items.get(1), Some(ItemComputeProps::NonCallable)));
    assert!(matches!(package.items.get(4), Some(ItemComputeProps::Callable(_))));
    assert!(package.items.get(0).is_none());
    assert_eq!(package.blocks.bound(), 0);
    let empty = PackagePartialComputeProps::default();
    assert!(empty.items.is_empty());
    assert!(partial.items.is_empty());
}

fn caps_of(ty: &Ty) -> Vec<RuntimeCapability> {
    assert_eq!(required_caps(ty).to_vec(), Foundational::assume_caps_from_type(ty).to_vec());
    Foundational::assume_caps_from_type(ty).to_vec()
}

#[test]
fn each_type_requires_its_capabilities() {
    assert_eq!(caps_of(&Ty::Prim(Prim::Qubit)), vec![]);
    assert_eq!(caps_of(&Ty::Prim(Prim::Bool)), vec![ConditionalForwardBranching]);
    assert_eq!(caps_of(&Ty::Prim(Prim::Result)), vec![ConditionalForwardBranching]);
    assert_eq!(caps_of(&Ty::Prim(Prim::Int)), vec![IntegerComputations]);
    assert_eq!(caps_of(&Ty::Prim(Prim::Pauli)), vec![IntegerComputations]);
    assert_eq!(caps_of(&Ty::Prim(Prim::Range)), vec![IntegerComputations]);
    assert_eq!(caps_of(&Ty::Prim(Prim::RangeFrom)), vec![IntegerComputations]);
    assert_eq!(caps_of(&Ty::Prim(Prim::RangeTo)), vec![IntegerComputations]);
    assert_eq!(caps_of(&Ty::Prim(Prim::RangeFull)), vec![IntegerComputations]);
    assert_eq!(caps_of(&Ty::Prim(Prim::Double)), vec![FloatingPointComputation]);
    assert_eq!(caps_of(&Ty::Prim(Prim::BigInt)), vec![HigherLevelConstructs]);
    assert_eq!(caps_of(&Ty::Prim(Prim::String)), vec![HigherLevelConstructs]);
    assert_eq!(caps_of(&Ty::Array(Box::new(Ty::Prim(Prim::Qubit)))), vec![HigherLevelConstructs]);
    assert_eq!(caps_of(&Ty::Array(Box::new(Ty::Param(0)))), vec![HigherLevelConstructs]);
    assert_eq!(
        caps_of(&Ty::Udt(ItemId { package: None, item: LocalItemId(0) })),
        vec![HigherLevelConstructs]
    );
    assert_eq!(
        caps_of(&Ty::Arrow(Box::new(Arrow {
            kind: CallableKind::Operation,
            input: Ty::Prim(Prim::Qubit),
            output: Ty::unit(),
        }))),
        vec![HigherLevelConstructs]
    );
}

#[test]
fn a_tuple_requires_what_its_items_require() {
    assert_eq!(caps_of(&Ty::unit()), vec![]);
    assert!(Ty::unit().is_unit());
    assert!(!Ty::Prim(Prim::Int).is_unit());
    assert!(!Ty::Tuple(vec![Ty::unit()]).is_unit());
    let tuple = Ty::Tuple(vec![
        Ty::Prim(Prim::Double),
        Ty::Prim(Prim::Qubit),
        Ty::Tuple(vec![Ty::Prim(Prim::Bool), Ty::Prim(Prim::Double)]),
    ]);
    assert_eq!(caps_of(&tuple), vec![ConditionalForwardBranching, FloatingPointComputation]);
    assert_eq!(
        Foundational::assume_caps_from_tuple_type(&vec![
            Ty::Prim(Prim::Int),
            Ty::Prim(Prim::String)
        ])
        .to_vec(),
        vec![IntegerComputations, HigherLevelConstructs]
    );
    assert_eq!(
        Foundational::assume_caps_from_primitive_type(&Prim::Pauli).to_vec(),
        vec![IntegerComputations]
    );
}

#[test]
fn a_type_that_no_value_has_requires_nothing() {
    assert_eq!(required_caps(&Ty::Param(0)).to_vec(), vec![]);
    assert_eq!(required_caps(&Ty::Infer(0)).to_vec(), vec![]);
    assert_eq!(required_caps(&Ty::Invalid).to_vec(), vec![]);
    assert_eq!(
        required_caps(&Ty::Tuple(vec![Ty::Param(0), Ty::Prim(Prim::Int)])).to_vec(),
        vec![IntegerComputations]
    );
}

#[test]
fn specializations_have_numbers_of_their_own() {
    let mut keys = Vec::new();
    for callable in 0..3 {
        for adjoint in [false, true] {
            for controlled in [false, true] {
                let selector = CallableSpecializationSelector {
                    callable: LocalItemId(callable),
                    specialization_selector: SpecializationSelector { adjoint, controlled },
                };
                keys.push(selector.key());
            }
        }
    }
    assert_eq!(keys, vec![0, 1, 2, 3, 4, 5, 6, 7, 8, 9, 10, 11]);
}

#[test]
fn gates_act_on_the_wires_of_their_qubits() {
    let quantum = |q_id| Register { q_id, register_type: 0, c_id: None };
    let h = gate("H", &[3]);
    assert_eq!(h.gate, "H");
    assert_eq!(h.display_args, None);
    assert!(!h.is_controlled && !h.is_adjoint && !h.is_measurement);
    assert_eq!(h.controls, vec![]);
    assert_eq!(h.targets, vec![quantum(3)]);
    let swap = gate("SWAP", &[1, 2]);
    assert_eq!(swap.targets, vec![quantum(1), quantum(2)]);
    let s = adjoint_gate("S", &[0]);
    assert_eq!(s.gate, "S");
    assert!(!s.is_controlled && s.is_adjoint && !s.is_measurement);
    assert_eq!(s.controls, vec![]);
    assert_eq!(s.targets, vec![quantum(0)]);
    let ccx = controlled_gate("X", &[0, 1], &[2]);
    assert_eq!(ccx.gate, "X");
    assert!(ccx.is_controlled && !ccx.is_adjoint && !ccx.is_measurement);
    assert_eq!(ccx.controls, vec![quantum(0), quantum(1)]);
    assert_eq!(ccx.targets, vec![quantum(2)]);
    assert_eq!(ccx.display_args, None);
}

#[test]
fn a_measurement_acts_on_the_result_of_its_qubit() {
    let measure = measurement_gate(4, 1);
    assert_eq!(measure.gate, "Measure");
    assert_eq!(measure.display_args, None);
    assert!(!measure.is_controlled && !measure.is_adjoint && measure.is_measurement);
    assert_eq!(measure.controls, vec![Register { q_id: 4, register_type: 0, c_id: None }]);
    assert_eq!(measure.targets, vec![Register { q_id: 4, register_type: 1, c_id: Some(1) }]);
    assert_eq!(Register::quantum(7), Register { q_id: 7, register_type: 0, c_id: None });
    assert_eq!(Register::classical(7, 2), Register { q_id: 7, register_type: 1, c_id: Some(2) });
}

#[test]
fn a_new_circuit_is_empty() {
    let circuit = Circuit::default();
    assert!(circuit.operations.is_empty());
    assert!(circuit.qubits.is_empty());
    assert_eq!(CallableId::default(), CallableId(0));
    assert_eq!(Condition {}, Condition {});
}

#[test]
fn a_new_table_of_runtime_properties_has_no_slot() {
    let table = AppsTable::new(8);
    assert_eq!(table.len(), 0);
    let table = AppsTable::new(0);
    assert_eq!(table.len(), 0);
}

#[test]
fn runtime_properties_are_kept_by_element() {
    let props = RtProps { is_quantum: true, caps: CapabilitySet::from_capability(IntegerComputations) };
    assert!(props.is_quantum);
    assert_eq!(props.caps.to_vec(), vec![IntegerComputations]);
    let mut store = StoreRtProps {
        items: IndexMap::new(),
        blocks: IndexMap::new(),
        stmts: IndexMap::new(),
        exprs: IndexMap::new(),
        pats: IndexMap::new(),
    };
    store.items.insert(0, Some(ItemRtProps::NonCallable));
    store.items.insert(1, None);
    store
        .items
        .insert(2, Some(ItemRtProps::Callable(CallableRtProps { apps_table: AppsTable::new(2) })));
    store.exprs.insert(4, Some(InnerElmtRtProps::AppIndependent(props)));
    store.blocks.insert(0, Some(InnerElmtRtProps::AppDependent(AppsTable::new(1))));
    assert!(matches!(store.items.get(0), Some(Some(ItemRtProps::NonCallable))));
    assert!(matches!(store.items.get(1), Some(None)));
    match store.items.get(2) {
        Some(Some(ItemRtProps::Callable(callable))) => assert_eq!(callable.apps_table.len(), 0),
        _ => panic!("item should be a callable"),
    }
    match store.exprs.get(4) {
        Some(Some(InnerElmtRtProps::AppIndependent(props))) => {
            assert!(props.is_quantum);
            assert!(props.caps.contains(IntegerComputations));
        }
        _ => panic!("expression should have properties of its own"),
    }
    assert!(matches!(store.blocks.get(0), Some(Some(InnerElmtRtProps::AppDependent(_)))));
    assert_eq!(store.stmts.bound(), 0);
    assert_eq!(store.pats.bound(), 0);
}
