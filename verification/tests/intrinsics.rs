use qsc_rca::analyzer::SinglePassAnalyzer;
use qsc_rca::capability::RuntimeCapability;
use qsc_rca::compute_props::AppIdx;
use qsc_rca::compute_props::ComputeKind;
use qsc_rca::fir::CallableDecl;
use qsc_rca::fir::CallableImpl;
use qsc_rca::fir::CallableKind;
use qsc_rca::fir::Item;
use qsc_rca::fir::ItemKind;
use qsc_rca::fir::LocalItemId;
use qsc_rca::fir::NodeId;
use qsc_rca::fir::Package;
use qsc_rca::fir::PackageId;
use qsc_rca::fir::PackageStore;
use qsc_rca::fir::Pat;
use qsc_rca::fir::PatId;
use qsc_rca::fir::PatKind;
use qsc_rca::fir::Prim;
use qsc_rca::fir::Ty;
use qsc_rca::store::ItemComputeProps;
use qsc_rca::store::StoreComputeProps;
use qsc_rca::capability::RuntimeCapability::ConditionalForwardBranching;
use qsc_rca::capability::RuntimeCapability::FloatingPointComputation;
use qsc_rca::capability::RuntimeCapability::HigherLevelConstructs;
use qsc_rca::capability::RuntimeCapability::IntegerComputations;

/// A store whose one package holds one intrinsic callable, as item 0. Each
/// entry of `params` gives the type of a parameter twice: once for the type
/// of the input pattern and once for the pattern of the parameter.
fn store_with_intrinsic(kind: CallableKind, params: Vec<(Ty, Ty)>, output: Ty) -> PackageStore {
    let mut package = Package::new();
    let input = PatId(0);
    if params.len() == 1 {
        let (ty, _) = params.into_iter().next().unwrap();
        package.pats.insert(0, Pat { ty, kind: PatKind::Bind(NodeId(1)) });
    } else {
        let mut tys = Vec::new();
        let mut items = Vec::new();
        for (position, (ty, item_ty)) in params.into_iter().enumerate() {
            package.pats.insert(
                position + 1,
                Pat { ty: item_ty, kind: PatKind::Bind(NodeId(position + 1)) },
            );
            items.push(PatId(position + 1));
            tys.push(ty);
        }
        package.pats.insert(0, Pat { ty: Ty::Tuple(tys), kind: PatKind::Tuple(items) });
    }
    package.items.insert(
        0,
        Item {
            kind: ItemKind::Callable(CallableDecl {
                kind,
                input,
                output,
                implementation: CallableImpl::Intrinsic,
            }),
        },
    );
    let mut store = PackageStore::new();
    store.0.insert(0, package);
    store
}

/// Checks one application of the callable that is item 0 of package 0.
fn check_application(
    props: &StoreComputeProps,
    index: usize,
    capabilities: &[RuntimeCapability],
    is_quantum_source: bool,
) {
    let item = props.get_item(PackageId(0), LocalItemId(0)).expect("item should be analyzed");
    let ItemComputeProps::Callable(callable) = item else {
        panic!("item should be a callable");
    };
    let app = callable.apps.get(AppIdx(index)).expect("application should be in the table");
    assert_eq!(app.rt_caps.to_vec(), capabilities.to_vec());
    assert_eq!(app.is_quantum_source(), is_quantum_source);
    let expected_kind = if capabilities.is_empty() {
        ComputeKind::Static
    } else {
        ComputeKind::Dynamic
    };
    assert_eq!(app.compute_kind(), expected_kind);
}

/// Checks the number of parameters and of applications of the callable that
/// is item 0 of package 0.
fn check_table_size(props: &StoreComputeProps, input_param_count: usize, applications: usize) {
    assert!(props.has_item(PackageId(0), LocalItemId(0)));
    let item = props.get_item(PackageId(0), LocalItemId(0)).expect("item should be analyzed");
    let ItemComputeProps::Callable(callable) = item else {
        panic!("item should be a callable");
    };
    assert_eq!(callable.apps.input_param_count(), input_param_count);
    assert_eq!(callable.apps.len(), applications);
}

#[test]
fn check_rca_for_quantum_rt_qubit_allocate() {
    let store = store_with_intrinsic(
        CallableKind::Operation,
        vec![],
        Ty::Prim(Prim::Qubit),
    );
    let props = SinglePassAnalyzer::run(&store);
    check_table_size(&props, 0, 1);
    check_application(&props, 0, &[], true);
}

#[test]
fn check_rca_for_quantum_rt_qubit_release() {
    let store = store_with_intrinsic(
        CallableKind::Operation,
        vec![(Ty::Prim(Prim::Qubit), Ty::Prim(Prim::Qubit))],
        Ty::Tuple(vec![]),
    );
    let props = SinglePassAnalyzer::run(&store);
    check_table_size(&props, 1, 2);
    check_application(&props, 0, &[], false);
    check_application(&props, 1, &[], false);
}

#[test]
fn check_rca_for_quantum_qis_m_body() {
    let store = store_with_intrinsic(
        CallableKind::Operation,
        vec![(Ty::Prim(Prim::Qubit), Ty::Prim(Prim::Qubit))],
        Ty::Prim(Prim::Result),
    );
    let props = SinglePassAnalyzer::run(&store);
    check_table_size(&props, 1, 2);
    check_application(&props, 0, &[], true);
    check_application(&props, 1, &[ConditionalForwardBranching], true);
}

#[test]
fn check_rca_for_length() {
    let store = store_with_intrinsic(
        CallableKind::Function,
        vec![(Ty::Array(Box::new(Ty::Param(0))), Ty::Array(Box::new(Ty::Param(0))))],
        Ty::Prim(Prim::Int),
    );
    let props = SinglePassAnalyzer::run(&store);
    check_table_size(&props, 1, 2);
    check_application(&props, 0, &[], false);
    check_application(&props, 1, &[IntegerComputations, HigherLevelConstructs], true);
}

#[test]
fn check_rca_for_quantum_qis_mresetz_body() {
    let store = store_with_intrinsic(
        CallableKind::Operation,
        vec![(Ty::Prim(Prim::Qubit), Ty::Prim(Prim::Qubit))],
        Ty::Prim(Prim::Result),
    );
    let props = SinglePassAnalyzer::run(&store);
    check_table_size(&props, 1, 2);
    check_application(&props, 0, &[], true);
    check_application(&props, 1, &[ConditionalForwardBranching], true);
}

#[test]
fn check_rca_for_int_as_double() {
    let store = store_with_intrinsic(
        CallableKind::Function,
        vec![(Ty::Prim(Prim::Int), Ty::Prim(Prim::Int))],
        Ty::Prim(Prim::Double),
    );
    let props = SinglePassAnalyzer::run(&store);
    check_table_size(&props, 1, 2);
    check_application(&props, 0, &[], false);
    check_application(&props, 1, &[IntegerComputations, FloatingPointComputation], true);
}

#[test]
fn check_rca_for_int_as_big_int() {
    let store = store_with_intrinsic(
        CallableKind::Function,
        vec![(Ty::Prim(Prim::Int), Ty::Prim(Prim::Int))],
        Ty::Prim(Prim::BigInt),
    );
    let props = SinglePassAnalyzer::run(&store);
    check_table_size(&props, 1, 2);
    check_application(&props, 0, &[], false);
    check_application(&props, 1, &[IntegerComputations, HigherLevelConstructs], true);
}

#[test]
fn check_rca_for_dump_machine() {
    let store = store_with_intrinsic(
        CallableKind::Function,
        vec![],
        Ty::Tuple(vec![]),
    );
    let props = SinglePassAnalyzer::run(&store);
    check_table_size(&props, 0, 1);
    check_application(&props, 0, &[], false);
}

#[test]
fn check_rca_for_check_zero() {
    let store = store_with_intrinsic(
        CallableKind::Operation,
        vec![(Ty::Prim(Prim::Qubit), Ty::Prim(Prim::Qubit))],
        Ty::Prim(Prim::Bool),
    );
    let props = SinglePassAnalyzer::run(&store);
    check_table_size(&props, 1, 2);
    check_application(&props, 0, &[], true);
    check_application(&props, 1, &[ConditionalForwardBranching], true);
}

#[test]
fn check_rca_for_message() {
    let store = store_with_intrinsic(
        CallableKind::Function,
        vec![(Ty::Prim(Prim::String), Ty::Prim(Prim::String))],
        Ty::Tuple(vec![]),
    );
    let props = SinglePassAnalyzer::run(&store);
    check_table_size(&props, 1, 2);
    check_application(&props, 0, &[], false);
    check_application(&props, 1, &[HigherLevelConstructs], false);
}

#[test]
fn check_rca_for_arc_cos() {
    let store = store_with_intrinsic(
        CallableKind::Function,
        vec![(Ty::Prim(Prim::Double), Ty::Prim(Prim::Double))],
        Ty::Prim(Prim::Double),
    );
    let props = SinglePassAnalyzer::run(&store);
    check_table_size(&props, 1, 2);
    check_application(&props, 0, &[], false);
    check_application(&props, 1, &[FloatingPointComputation], true);
}

#[test]
fn check_rca_for_arc_sin() {
    let store = store_with_intrinsic(
        CallableKind::Function,
        vec![(Ty::Prim(Prim::Double), Ty::Prim(Prim::Double))],
        Ty::Prim(Prim::Double),
    );
    let props = SinglePassAnalyzer::run(&store);
    check_table_size(&props, 1, 2);
    check_application(&props, 0, &[], false);
    check_application(&props, 1, &[FloatingPointComputation], true);
}

#[test]
fn check_rca_for_arc_tan() {
    let store = store_with_intrinsic(
        CallableKind::Function,
        vec![(Ty::Prim(Prim::Double), Ty::Prim(Prim::Double))],
        Ty::Prim(Prim::Double),
    );
    let props = SinglePassAnalyzer::run(&store);
    check_table_size(&props, 1, 2);
    check_application(&props, 0, &[], false);
    check_application(&props, 1, &[FloatingPointComputation], true);
}

#[test]
fn check_rca_for_arc_tan_2() {
    let store = store_with_intrinsic(
        CallableKind::Function,
        vec![(Ty::Prim(Prim::Double), Ty::Prim(Prim::Double)), (Ty::Prim(Prim::Double), Ty::Prim(Prim::Double))],
        Ty::Prim(Prim::Double),
    );
    let props = SinglePassAnalyzer::run(&store);
    check_table_size(&props, 2, 4);
    check_application(&props, 0, &[], false);
    check_application(&props, 1, &[FloatingPointComputation], true);
    check_application(&props, 2, &[FloatingPointComputation], true);
    check_application(&props, 3, &[FloatingPointComputation], true);
}

#[test]
fn check_rca_for_cos() {
    let store = store_with_intrinsic(
        CallableKind::Function,
        vec![(Ty::Prim(Prim::Double), Ty::Prim(Prim::Double))],
        Ty::Prim(Prim::Double),
    );
    let props = SinglePassAnalyzer::run(&store);
    check_table_size(&props, 1, 2);
    check_application(&props, 0, &[], false);
    check_application(&props, 1, &[FloatingPointComputation], true);
}

#[test]
fn check_rca_for_cosh() {
    let store = store_with_intrinsic(
        CallableKind::Function,
        vec![(Ty::Prim(Prim::Double), Ty::Prim(Prim::Double))],
        Ty::Prim(Prim::Double),
    );
    let props = SinglePassAnalyzer::run(&store);
    check_table_size(&props, 1, 2);
    check_application(&props, 0, &[], false);
    check_application(&props, 1, &[FloatingPointComputation], true);
}

#[test]
fn check_rca_for_sin() {
    let store = store_with_intrinsic(
        CallableKind::Function,
        vec![(Ty::Prim(Prim::Double), Ty::Prim(Prim::Double))],
        Ty::Prim(Prim::Double),
    );
    let props = SinglePassAnalyzer::run(&store);
    check_table_size(&props, 1, 2);
    check_application(&props, 0, &[], false);
    check_application(&props, 1, &[FloatingPointComputation], true);
}

#[test]
fn check_rca_for_sinh() {
    let store = store_with_intrinsic(
        CallableKind::Function,
        vec![(Ty::Prim(Prim::Double), Ty::Prim(Prim::Double))],
        Ty::Prim(Prim::Double),
    );
    let props = SinglePassAnalyzer::run(&store);
    check_table_size(&props, 1, 2);
    check_application(&props, 0, &[], false);
    check_application(&props, 1, &[FloatingPointComputation], true);
}

#[test]
fn check_rca_for_tan() {
    let store = store_with_intrinsic(
        CallableKind::Function,
        vec![(Ty::Prim(Prim::Double), Ty::Prim(Prim::Double))],
        Ty::Prim(Prim::Double),
    );
    let props = SinglePassAnalyzer::run(&store);
    check_table_size(&props, 1, 2);
    check_application(&props, 0, &[], false);
    check_application(&props, 1, &[FloatingPointComputation], true);
}

#[test]
fn check_rca_for_tanh() {
    let store = store_with_intrinsic(
        CallableKind::Function,
        vec![(Ty::Prim(Prim::Double), Ty::Prim(Prim::Double))],
        Ty::Prim(Prim::Double),
    );
    let props = SinglePassAnalyzer::run(&store);
    check_table_size(&props, 1, 2);
    check_application(&props, 0, &[], false);
    check_application(&props, 1, &[FloatingPointComputation], true);
}

#[test]
fn check_rca_for_sqrt() {
    let store = store_with_intrinsic(
        CallableKind::Function,
        vec![(Ty::Prim(Prim::Double), Ty::Prim(Prim::Double))],
        Ty::Prim(Prim::Double),
    );
    let props = SinglePassAnalyzer::run(&store);
    check_table_size(&props, 1, 2);
    check_application(&props, 0, &[], false);
    check_application(&props, 1, &[FloatingPointComputation], true);
}

#[test]
fn check_rca_for_log() {
    let store = store_with_intrinsic(
        CallableKind::Function,
        vec![(Ty::Prim(Prim::Double), Ty::Prim(Prim::Double))],
        Ty::Prim(Prim::Double),
    );
    let props = SinglePassAnalyzer::run(&store);
    check_table_size(&props, 1, 2);
    check_application(&props, 0, &[], false);
    check_application(&props, 1, &[FloatingPointComputation], true);
}

#[test]
fn check_rca_for_truncate() {
    let store = store_with_intrinsic(
        CallableKind::Function,
        vec![(Ty::Prim(Prim::Double), Ty::Prim(Prim::Double))],
        Ty::Prim(Prim::Int),
    );
    let props = SinglePassAnalyzer::run(&store);
    check_table_size(&props, 1, 2);
    check_application(&props, 0, &[], false);
    check_application(&props, 1, &[IntegerComputations, FloatingPointComputation], true);
}

#[test]
fn check_rca_for_quantum_qis_ccx_body() {
    let store = store_with_intrinsic(
        CallableKind::Operation,
        vec![(Ty::Prim(Prim::Qubit), Ty::Prim(Prim::Qubit)), (Ty::Prim(Prim::Qubit), Ty::Prim(Prim::Qubit)), (Ty::Prim(Prim::Qubit), Ty::Prim(Prim::Qubit))],
        Ty::Tuple(vec![]),
    );
    let props = SinglePassAnalyzer::run(&store);
    check_table_size(&props, 3, 8);
    check_application(&props, 0, &[], false);
    check_application(&props, 1, &[], false);
    check_application(&props, 2, &[], false);
    check_application(&props, 3, &[], false);
    check_application(&props, 4, &[], false);
    check_application(&props, 5, &[], false);
    check_application(&props, 6, &[], false);
    check_application(&props, 7, &[], false);
}

#[test]
fn check_rca_for_quantum_qis_cx_body() {
    let store = store_with_intrinsic(
        CallableKind::Operation,
        vec![(Ty::Prim(Prim::Qubit), Ty::Prim(Prim::Qubit)), (Ty::Prim(Prim::Qubit), Ty::Prim(Prim::Qubit))],
        Ty::Tuple(vec![]),
    );
    let props = SinglePassAnalyzer::run(&store);
    check_table_size(&props, 2, 4);
    check_application(&props, 0, &[], false);
    check_application(&props, 1, &[], false);
    check_application(&props, 2, &[], false);
    check_application(&props, 3, &[], false);
}

#[test]
fn check_rca_for_quantum_qis_cy_body() {
    let store = store_with_intrinsic(
        CallableKind::Operation,
        vec![(Ty::Prim(Prim::Qubit), Ty::Prim(Prim::Qubit)), (Ty::Prim(Prim::Qubit), Ty::Prim(Prim::Qubit))],
        Ty::Tuple(vec![]),
    );
    let props = SinglePassAnalyzer::run(&store);
    check_table_size(&props, 2, 4);
    check_application(&props, 0, &[], false);
    check_application(&props, 1, &[], false);
    check_application(&props, 2, &[], false);
    check_application(&props, 3, &[], false);
}

#[test]
fn check_rca_for_quantum_qis_cz_body() {
    let store = store_with_intrinsic(
        CallableKind::Operation,
        vec![(Ty::Prim(Prim::Qubit), Ty::Prim(Prim::Qubit)), (Ty::Prim(Prim::Qubit), Ty::Prim(Prim::Qubit))],
        Ty::Tuple(vec![]),
    );
    let props = SinglePassAnalyzer::run(&store);
    check_table_size(&props, 2, 4);
    check_application(&props, 0, &[], false);
    check_application(&props, 1, &[], false);
    check_application(&props, 2, &[], false);
    check_application(&props, 3, &[], false);
}

#[test]
fn check_rca_for_quantum_qis_rx_body() {
    let store = store_with_intrinsic(
        CallableKind::Operation,
        vec![(Ty::Prim(Prim::Double), Ty::Prim(Prim::Double)), (Ty::Prim(Prim::Qubit), Ty::Prim(Prim::Qubit))],
        Ty::Tuple(vec![]),
    );
    let props = SinglePassAnalyzer::run(&store);
    check_table_size(&props, 2, 4);
    check_application(&props, 0, &[], false);
    check_application(&props, 1, &[FloatingPointComputation], false);
    check_application(&props, 2, &[], false);
    check_application(&props, 3, &[FloatingPointComputation], false);
}

#[test]
fn check_rca_for_quantum_qis_rxx_body() {
    let store = store_with_intrinsic(
        CallableKind::Operation,
        vec![(Ty::Prim(Prim::Double), Ty::Prim(Prim::Double)), (Ty::Prim(Prim::Qubit), Ty::Prim(Prim::Qubit)), (Ty::Prim(Prim::Qubit), Ty::Prim(Prim::Qubit))],
        Ty::Tuple(vec![]),
    );
    let props = SinglePassAnalyzer::run(&store);
    check_table_size(&props, 3, 8);
    check_application(&props, 0, &[], false);
    check_application(&props, 1, &[FloatingPointComputation], false);
    check_application(&props, 2, &[], false);
    check_application(&props, 3, &[FloatingPointComputation], false);
    check_application(&props, 4, &[], false);
    check_application(&props, 5, &[FloatingPointComputation], false);
    check_application(&props, 6, &[], false);
    check_application(&props, 7, &[FloatingPointComputation], false);
}

#[test]
fn check_rca_for_quantum_qis_ry_body() {
    let store = store_with_intrinsic(
        CallableKind::Operation,
        vec![(Ty::Prim(Prim::Double), Ty::Prim(Prim::Double)), (Ty::Prim(Prim::Qubit), Ty::Prim(Prim::Qubit))],
        Ty::Tuple(vec![]),
    );
    let props = SinglePassAnalyzer::run(&store);
    check_table_size(&props, 2, 4);
    check_application(&props, 0, &[], false);
    check_application(&props, 1, &[FloatingPointComputation], false);
    check_application(&props, 2, &[], false);
    check_application(&props, 3, &[FloatingPointComputation], false);
}

#[test]
fn check_rca_for_quantum_qis_ryy_body() {
    let store = store_with_intrinsic(
        CallableKind::Operation,
        vec![(Ty::Prim(Prim::Double), Ty::Prim(Prim::Double)), (Ty::Prim(Prim::Qubit), Ty::Prim(Prim::Qubit)), (Ty::Prim(Prim::Qubit), Ty::Prim(Prim::Qubit))],
        Ty::Tuple(vec![]),
    );
    let props = SinglePassAnalyzer::run(&store);
    check_table_size(&props, 3, 8);
    check_application(&props, 0, &[], false);
    check_application(&props, 1, &[FloatingPointComputation], false);
    check_application(&props, 2, &[], false);
    check_application(&props, 3, &[FloatingPointComputation], false);
    check_application(&props, 4, &[], false);
    check_application(&props, 5, &[FloatingPointComputation], false);
    check_application(&props, 6, &[], false);
    check_application(&props, 7, &[FloatingPointComputation], false);
}

#[test]
fn check_rca_for_quantum_qis_rz_body() {
    let store = store_with_intrinsic(
        CallableKind::Operation,
        vec![(Ty::Prim(Prim::Double), Ty::Prim(Prim::Double)), (Ty::Prim(Prim::Qubit), Ty::Prim(Prim::Qubit))],
        Ty::Tuple(vec![]),
    );
    let props = SinglePassAnalyzer::run(&store);
    check_table_size(&props, 2, 4);
    check_application(&props, 0, &[], false);
    check_application(&props, 1, &[FloatingPointComputation], false);
    check_application(&props, 2, &[], false);
    check_application(&props, 3, &[FloatingPointComputation], false);
}

#[test]
fn check_rca_for_quantum_qis_rzz_body() {
    let store = store_with_intrinsic(
        CallableKind::Operation,
        vec![(Ty::Prim(Prim::Double), Ty::Prim(Prim::Double)), (Ty::Prim(Prim::Qubit), Ty::Prim(Prim::Qubit)), (Ty::Prim(Prim::Qubit), Ty::Prim(Prim::Qubit))],
        Ty::Tuple(vec![]),
    );
    let props = SinglePassAnalyzer::run(&store);
    check_table_size(&props, 3, 8);
    check_application(&props, 0, &[], false);
    check_application(&props, 1, &[FloatingPointComputation], false);
    check_application(&props, 2, &[], false);
    check_application(&props, 3, &[FloatingPointComputation], false);
    check_application(&props, 4, &[], false);
    check_application(&props, 5, &[FloatingPointComputation], false);
    check_application(&props, 6, &[], false);
    check_application(&props, 7, &[FloatingPointComputation], false);
}

#[test]
fn check_rca_for_quantum_qis_h_body() {
    let store = store_with_intrinsic(
        CallableKind::Operation,
        vec![(Ty::Prim(Prim::Qubit), Ty::Prim(Prim::Qubit))],
        Ty::Tuple(vec![]),
    );
    let props = SinglePassAnalyzer::run(&store);
    check_table_size(&props, 1, 2);
    check_application(&props, 0, &[], false);
    check_application(&props, 1, &[], false);
}

#[test]
fn check_rca_for_quantum_qis_s_body() {
    let store = store_with_intrinsic(
        CallableKind::Operation,
        vec![(Ty::Prim(Prim::Qubit), Ty::Prim(Prim::Qubit))],
        Ty::Tuple(vec![]),
    );
    let props = SinglePassAnalyzer::run(&store);
    check_table_size(&props, 1, 2);
    check_application(&props, 0, &[], false);
    check_application(&props, 1, &[], false);
}

#[test]
fn check_rca_for_quantum_qis_s_adj() {
    let store = store_with_intrinsic(
        CallableKind::Operation,
        vec![(Ty::Prim(Prim::Qubit), Ty::Prim(Prim::Qubit))],
        Ty::Tuple(vec![]),
    );
    let props = SinglePassAnalyzer::run(&store);
    check_table_size(&props, 1, 2);
    check_application(&props, 0, &[], false);
    check_application(&props, 1, &[], false);
}

#[test]
fn check_rca_for_quantum_qis_t_body() {
    let store = store_with_intrinsic(
        CallableKind::Operation,
        vec![(Ty::Prim(Prim::Qubit), Ty::Prim(Prim::Qubit))],
        Ty::Tuple(vec![]),
    );
    let props = SinglePassAnalyzer::run(&store);
    check_table_size(&props, 1, 2);
    check_application(&props, 0, &[], false);
    check_application(&props, 1, &[], false);
}

#[test]
fn check_rca_for_quantum_qis_t_adj() {
    let store = store_with_intrinsic(
        CallableKind::Operation,
        vec![(Ty::Prim(Prim::Qubit), Ty::Prim(Prim::Qubit))],
        Ty::Tuple(vec![]),
    );
    let props = SinglePassAnalyzer::run(&store);
    check_table_size(&props, 1, 2);
    check_application(&props, 0, &[], false);
    check_application(&props, 1, &[], false);
}

#[test]
fn check_rca_for_quantum_qis_x_body() {
    let store = store_with_intrinsic(
        CallableKind::Operation,
        vec![(Ty::Prim(Prim::Qubit), Ty::Prim(Prim::Qubit))],
        Ty::Tuple(vec![]),
    );
    let props = SinglePassAnalyzer::run(&store);
    check_table_size(&props, 1, 2);
    check_application(&props, 0, &[], false);
    check_application(&props, 1, &[], false);
}

#[test]
fn check_rca_for_quantum_qis_y_body() {
    let store = store_with_intrinsic(
        CallableKind::Operation,
        vec![(Ty::Prim(Prim::Qubit), Ty::Prim(Prim::Qubit))],
        Ty::Tuple(vec![]),
    );
    let props = SinglePassAnalyzer::run(&store);
    check_table_size(&props, 1, 2);
    check_application(&props, 0, &[], false);
    check_application(&props, 1, &[], false);
}

#[test]
fn check_rca_for_quantum_qis_z_body() {
    let store = store_with_intrinsic(
        CallableKind::Operation,
        vec![(Ty::Prim(Prim::Qubit), Ty::Prim(Prim::Qubit))],
        Ty::Tuple(vec![]),
    );
    let props = SinglePassAnalyzer::run(&store);
    check_table_size(&props, 1, 2);
    check_application(&props, 0, &[], false);
    check_application(&props, 1, &[], false);
}

#[test]
fn check_rca_for_quantum_qis_swap_body() {
    let store = store_with_intrinsic(
        CallableKind::Operation,
        vec![(Ty::Prim(Prim::Qubit), Ty::Prim(Prim::Qubit)), (Ty::Prim(Prim::Qubit), Ty::Prim(Prim::Qubit))],
        Ty::Tuple(vec![]),
    );
    let props = SinglePassAnalyzer::run(&store);
    check_table_size(&props, 2, 4);
    check_application(&props, 0, &[], false);
    check_application(&props, 1, &[], false);
    check_application(&props, 2, &[], false);
    check_application(&props, 3, &[], false);
}

#[test]
fn check_rca_for_quantum_qis_reset_body() {
    let store = store_with_intrinsic(
        CallableKind::Operation,
        vec![(Ty::Prim(Prim::Qubit), Ty::Prim(Prim::Qubit))],
        Ty::Tuple(vec![]),
    );
    let props = SinglePassAnalyzer::run(&store);
    check_table_size(&props, 1, 2);
    check_application(&props, 0, &[], false);
    check_application(&props, 1, &[], false);
}

#[test]
fn check_rca_for_draw_random_int() {
    let store = store_with_intrinsic(
        CallableKind::Operation,
        vec![(Ty::Prim(Prim::Int), Ty::Prim(Prim::Int)), (Ty::Prim(Prim::Int), Ty::Prim(Prim::Int))],
        Ty::Prim(Prim::Int),
    );
    let props = SinglePassAnalyzer::run(&store);
    check_table_size(&props, 2, 4);
    check_application(&props, 0, &[], true);
    check_application(&props, 1, &[IntegerComputations], true);
    check_application(&props, 2, &[IntegerComputations], true);
    check_application(&props, 3, &[IntegerComputations], true);
}

#[test]
fn check_rca_for_draw_random_double() {
    let store = store_with_intrinsic(
        CallableKind::Operation,
        vec![(Ty::Prim(Prim::Double), Ty::Prim(Prim::Double)), (Ty::Prim(Prim::Double), Ty::Prim(Prim::Double))],
        Ty::Prim(Prim::Double),
    );
    let props = SinglePassAnalyzer::run(&store);
    check_table_size(&props, 2, 4);
    check_application(&props, 0, &[], true);
    check_application(&props, 1, &[FloatingPointComputation], true);
    check_application(&props, 2, &[FloatingPointComputation], true);
    check_application(&props, 3, &[FloatingPointComputation], true);
}

#[test]
fn check_rca_for_begin_estimate_caching() {
    let store = store_with_intrinsic(
        CallableKind::Function,
        vec![(Ty::Prim(Prim::String), Ty::Prim(Prim::String)), (Ty::Prim(Prim::Int), Ty::Prim(Prim::Int))],
        Ty::Prim(Prim::Bool),
    );
    let props = SinglePassAnalyzer::run(&store);
    check_table_size(&props, 2, 4);
    check_application(&props, 0, &[], false);
    check_application(&props, 1, &[ConditionalForwardBranching, HigherLevelConstructs], true);
    check_application(&props, 2, &[ConditionalForwardBranching, IntegerComputations], true);
    check_application(&props, 3, &[ConditionalForwardBranching, IntegerComputations, HigherLevelConstructs], true);
}

#[test]
fn check_rca_for_end_estimate_caching() {
    let store = store_with_intrinsic(
        CallableKind::Function,
        vec![],
        Ty::Tuple(vec![]),
    );
    let props = SinglePassAnalyzer::run(&store);
    check_table_size(&props, 0, 1);
    check_application(&props, 0, &[], false);
}

#[test]
fn check_rca_for_account_for_estimates_internal() {
    let store = store_with_intrinsic(
        CallableKind::Operation,
        vec![(Ty::Array(Box::new(Ty::Tuple(vec![Ty::Prim(Prim::Int), Ty::Prim(Prim::Int)]))), Ty::Array(Box::new(Ty::Tuple(vec![Ty::Prim(Prim::Int), Ty::Prim(Prim::Int)])))), (Ty::Prim(Prim::Int), Ty::Prim(Prim::Int)), (Ty::Array(Box::new(Ty::Prim(Prim::Qubit))), Ty::Array(Box::new(Ty::Prim(Prim::Qubit))))],
        Ty::Tuple(vec![]),
    );
    let props = SinglePassAnalyzer::run(&store);
    check_table_size(&props, 3, 8);
    check_application(&props, 0, &[], false);
    check_application(&props, 1, &[HigherLevelConstructs], false);
    check_application(&props, 2, &[IntegerComputations], false);
    check_application(&props, 3, &[IntegerComputations, HigherLevelConstructs], false);
    check_application(&props, 4, &[HigherLevelConstructs], false);
    check_application(&props, 5, &[HigherLevelConstructs], false);
    check_application(&props, 6, &[IntegerComputations, HigherLevelConstructs], false);
    check_application(&props, 7, &[IntegerComputations, HigherLevelConstructs], false);
}

#[test]
fn check_rca_for_begin_repeat_estimates_internal() {
    let store = store_with_intrinsic(
        CallableKind::Operation,
        vec![(Ty::Prim(Prim::Int), Ty::Prim(Prim::Int))],
        Ty::Tuple(vec![]),
    );
    let props = SinglePassAnalyzer::run(&store);
    check_table_size(&props, 1, 2);
    check_application(&props, 0, &[], false);
    check_application(&props, 1, &[IntegerComputations], false);
}

#[test]
fn check_rca_for_end_repeat_estimates_internal() {
    let store = store_with_intrinsic(
        CallableKind::Operation,
        vec![],
        Ty::Tuple(vec![]),
    );
    let props = SinglePassAnalyzer::run(&store);
    check_table_size(&props, 0, 1);
    check_application(&props, 0, &[], false);
}

#[test]
fn an_intrinsic_operation_without_parameters_and_result_has_one_plain_application() {
    let store = store_with_intrinsic(CallableKind::Operation, vec![], Ty::Tuple(vec![]));
    let props = SinglePassAnalyzer::run(&store);
    check_table_size(&props, 0, 1);
    check_application(&props, 0, &[], false);
}

#[test]
fn an_intrinsic_function_that_checks_a_qubit_requires_branching_once_the_qubit_is_dynamic() {
    let store = store_with_intrinsic(
        CallableKind::Function,
        vec![(Ty::Prim(Prim::Qubit), Ty::Prim(Prim::Qubit))],
        Ty::Prim(Prim::Bool),
    );
    let props = SinglePassAnalyzer::run(&store);
    check_table_size(&props, 1, 2);
    check_application(&props, 0, &[], false);
    check_application(&props, 1, &[ConditionalForwardBranching], true);
}

#[test]
fn an_intrinsic_with_three_parameters_has_eight_applications() {
    // function F(i : Int, d : Double, s : String) : Bool
    let store = store_with_intrinsic(
        CallableKind::Function,
        vec![
            (Ty::Prim(Prim::Int), Ty::Prim(Prim::Int)),
            (Ty::Prim(Prim::Double), Ty::Prim(Prim::Double)),
            (Ty::Prim(Prim::String), Ty::Prim(Prim::String)),
        ],
        Ty::Prim(Prim::Bool),
    );
    let props = SinglePassAnalyzer::run(&store);
    check_table_size(&props, 3, 8);
    check_application(&props, 0, &[], false);
    check_application(&props, 1, &[ConditionalForwardBranching, IntegerComputations], true);
    check_application(&props, 2, &[ConditionalForwardBranching, FloatingPointComputation], true);
    check_application(
        &props,
        3,
        &[ConditionalForwardBranching, IntegerComputations, FloatingPointComputation],
        true,
    );
    check_application(&props, 4, &[ConditionalForwardBranching, HigherLevelConstructs], true);
    check_application(
        &props,
        5,
        &[ConditionalForwardBranching, IntegerComputations, HigherLevelConstructs],
        true,
    );
    check_application(
        &props,
        6,
        &[ConditionalForwardBranching, FloatingPointComputation, HigherLevelConstructs],
        true,
    );
    check_application(
        &props,
        7,
        &[
            ConditionalForwardBranching,
            IntegerComputations,
            FloatingPointComputation,
            HigherLevelConstructs,
        ],
        true,
    );
}
