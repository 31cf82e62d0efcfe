use qsc_rca::analyzer::SinglePassAnalyzer;
use qsc_rca::capability::RuntimeCapability;
use qsc_rca::capability::RuntimeCapability::ConditionalForwardBranching;
use qsc_rca::capability::RuntimeCapability::FloatingPointComputation;
use qsc_rca::capability::RuntimeCapability::HigherLevelConstructs;
use qsc_rca::capability::RuntimeCapability::IntegerComputations;
use qsc_rca::compute_props::AppIdx;
use qsc_rca::compute_props::QuantumSource;
use qsc_rca::fir::Block;
use qsc_rca::fir::BlockId;
use qsc_rca::fir::CallableDecl;
use qsc_rca::fir::CallableImpl;
use qsc_rca::fir::CallableKind;
use qsc_rca::fir::Expr;
use qsc_rca::fir::ExprId;
use qsc_rca::fir::ExprKind;
use qsc_rca::fir::Functor;
use qsc_rca::fir::Item;
use qsc_rca::fir::ItemId;
use qsc_rca::fir::ItemKind;
use qsc_rca::fir::LocalItemId;
use qsc_rca::fir::NodeId;
use qsc_rca::fir::Package;
use qsc_rca::fir::PackageId;
use qsc_rca::fir::PackageStore;
use qsc_rca::fir::Pat;
use qsc_rca::fir::PatId;
use qsc_rca::fir::PatKind;
use qsc_rca::fir::Prim;
use qsc_rca::fir::Res;
use qsc_rca::fir::SpecDecl;
use qsc_rca::fir::Specializations;
use qsc_rca::fir::Stmt;
use qsc_rca::fir::StmtId;
use qsc_rca::fir::StmtKind;
use qsc_rca::fir::Ty;
use qsc_rca::fir::UnOp;
use qsc_rca::store::ItemComputeProps;
use qsc_rca::store::StoreComputeProps;

fn unit() -> Ty {
    Ty::Tuple(vec![])
}

fn prim(prim: Prim) -> Ty {
    Ty::Prim(prim)
}

/// A package under construction.
struct Builder {
    package: Package,
    exprs: usize,
    stmts: usize,
    blocks: usize,
    pats: usize,
    nodes: usize,
}

impl Builder {
    fn new() -> Builder {
        Builder { package: Package::new(), exprs: 0, stmts: 0, blocks: 0, pats: 0, nodes: 0 }
    }

    fn expr(&mut self, ty: Ty, kind: ExprKind) -> ExprId {
        let id = self.exprs;
        self.exprs += 1;
        self.package.exprs.insert(id, Expr { ty, kind });
        ExprId(id)
    }

    fn stmt(&mut self, kind: StmtKind) -> StmtId {
        let id = self.stmts;
        self.stmts += 1;
        self.package.stmts.insert(id, Stmt { kind });
        StmtId(id)
    }

    fn semi(&mut self, expr: ExprId) -> StmtId {
        self.stmt(StmtKind::Semi(expr))
    }

    fn value(&mut self, expr: ExprId) -> StmtId {
        self.stmt(StmtKind::Expr(expr))
    }

    fn block(&mut self, stmts: Vec<StmtId>) -> BlockId {
        let id = self.blocks;
        self.blocks += 1;
        self.package.blocks.insert(id, Block { ty: unit(), stmts });
        BlockId(id)
    }

    fn pat(&mut self, ty: Ty, kind: PatKind) -> PatId {
        let id = self.pats;
        self.pats += 1;
        self.package.pats.insert(id, Pat { ty, kind });
        PatId(id)
    }

    /// A pattern that binds a fresh local of the type.
    fn bind(&mut self, ty: Ty) -> (PatId, NodeId) {
        let node = NodeId(self.nodes);
        self.nodes += 1;
        (self.pat(ty, PatKind::Bind(node)), node)
    }

    /// The input pattern of a callable with parameters of the types, and the
    /// locals of the parameters.
    fn params(&mut self, tys: Vec<(Ty, Ty)>) -> (PatId, Vec<NodeId>) {
        if tys.len() == 1 {
            let (ty, _) = tys.into_iter().next().unwrap();
            let (pat, node) = self.bind(ty);
            (pat, vec![node])
        } else {
            let mut items = Vec::new();
            let mut nodes = Vec::new();
            let mut item_tys = Vec::new();
            for (ty, item_ty) in tys {
                let (pat, node) = self.bind(item_ty);
                items.push(pat);
                nodes.push(node);
                item_tys.push(ty);
            }
            (self.pat(Ty::Tuple(item_tys), PatKind::Tuple(items)), nodes)
        }
    }

    fn local(&mut self, ty: Ty, node: NodeId) -> ExprId {
        self.expr(ty, ExprKind::Var(Res::Local(node)))
    }

    fn lit(&mut self, ty: Ty) -> ExprId {
        self.expr(ty, ExprKind::Lit)
    }

    fn name(&mut self, package: Option<usize>, item: usize) -> ExprId {
        self.expr(
            unit(),
            ExprKind::Var(Res::Item(ItemId {
                package: package.map(PackageId),
                item: LocalItemId(item),
            })),
        )
    }

    /// A call of an item with the arguments; its value has the type.
    fn call(&mut self, ty: Ty, package: Option<usize>, item: usize, args: ExprId) -> ExprId {
        let callee = self.name(package, item);
        self.expr(ty, ExprKind::Call(callee, args))
    }

    fn tuple(&mut self, items: Vec<ExprId>) -> ExprId {
        self.expr(unit(), ExprKind::Tuple(items))
    }

    fn intrinsic(&mut self, item: usize, kind: CallableKind, tys: Vec<(Ty, Ty)>, output: Ty) {
        let (input, _) = self.params(tys);
        self.package.items.insert(
            item,
            Item {
                kind: ItemKind::Callable(CallableDecl {
                    kind,
                    input,
                    output,
                    implementation: CallableImpl::Intrinsic,
                }),
            },
        );
    }

    fn callable(&mut self, item: usize, kind: CallableKind, input: PatId, output: Ty, body: BlockId) {
        self.package.items.insert(
            item,
            Item {
                kind: ItemKind::Callable(CallableDecl {
                    kind,
                    input,
                    output,
                    implementation: CallableImpl::Spec(Specializations {
                        body: SpecDecl { block: body, input: None },
                        adj: None,
                        ctl: None,
                        ctl_adj: None,
                    }),
                }),
            },
        );
    }
}

const H: usize = 0;
const M: usize = 1;
const INT_AS_DOUBLE: usize = 2;
const RX: usize = 3;

/// A package of intrinsic callables:
/// `H(q : Qubit) : Unit`, `M(q : Qubit) : Result`,
/// `IntAsDouble(i : Int) : Double` and `Rx(angle : Double, q : Qubit) : Unit`.
fn library() -> Package {
    let mut b = Builder::new();
    b.intrinsic(H, CallableKind::Operation, vec![(prim(Prim::Qubit), prim(Prim::Qubit))], unit());
    b.intrinsic(
        M,
        CallableKind::Operation,
        vec![(prim(Prim::Qubit), prim(Prim::Qubit))],
        prim(Prim::Result),
    );
    b.intrinsic(
        INT_AS_DOUBLE,
        CallableKind::Function,
        vec![(prim(Prim::Int), prim(Prim::Int))],
        prim(Prim::Double),
    );
    b.intrinsic(
        RX,
        CallableKind::Operation,
        vec![(prim(Prim::Double), prim(Prim::Double)), (prim(Prim::Qubit), prim(Prim::Qubit))],
        unit(),
    );
    b.package
}

/// A store with the library as package 0 and the package as package 1.
fn store_with(package: Package) -> PackageStore {
    let mut store = PackageStore::new();
    store.0.insert(0, library());
    store.0.insert(1, package);
    store
}

fn analyze(package: Package) -> StoreComputeProps {
    SinglePassAnalyzer::try_run(&store_with(package)).expect("analysis should succeed")
}

/// Checks the applications of item `item` of package 1: for each, what it
/// requires and whether it is a quantum source.
fn check(props: &StoreComputeProps, item: usize, expected: &[(&[RuntimeCapability], bool)]) {
    let found = props.get_item(PackageId(1), LocalItemId(item)).expect("item should be analyzed");
    let ItemComputeProps::Callable(callable) = found else {
        panic!("item should be a callable");
    };
    assert_eq!(callable.apps.len(), expected.len());
    assert_eq!(1usize << callable.apps.input_param_count(), expected.len());
    for (index, (capabilities, is_quantum_source)) in expected.iter().enumerate() {
        let app = callable.apps.get(AppIdx(index)).expect("application should be in the table");
        assert_eq!(app.rt_caps.to_vec(), capabilities.to_vec(), "application {index}");
        assert_eq!(app.is_quantum_source(), *is_quantum_source, "application {index}");
        if *is_quantum_source {
            assert_eq!(app.quantum_sources, vec![QuantumSource::Intrinsic]);
        }
    }
}

#[test]
fn a_body_that_applies_a_gate_requires_nothing() {
    // operation Foo(q : Qubit) : Unit { H(q); }
    let mut b = Builder::new();
    let (input, nodes) = b.params(vec![(prim(Prim::Qubit), prim(Prim::Qubit))]);
    let q = b.local(prim(Prim::Qubit), nodes[0]);
    let call = b.call(unit(), Some(0), H, q);
    let stmt = b.semi(call);
    let body = b.block(vec![stmt]);
    b.callable(0, CallableKind::Operation, input, unit(), body);
    let props = analyze(b.package);
    check(&props, 0, &[(&[], false), (&[], false)]);
}

#[test]
fn a_body_that_measures_is_a_quantum_source() {
    // operation Bar(q : Qubit) : Result { M(q) }
    let mut b = Builder::new();
    let (input, nodes) = b.params(vec![(prim(Prim::Qubit), prim(Prim::Qubit))]);
    let q = b.local(prim(Prim::Qubit), nodes[0]);
    let call = b.call(prim(Prim::Result), Some(0), M, q);
    let stmt = b.value(call);
    let body = b.block(vec![stmt]);
    b.callable(0, CallableKind::Operation, input, prim(Prim::Result), body);
    let props = analyze(b.package);
    check(&props, 0, &[(&[], true), (&[ConditionalForwardBranching], true)]);
}

#[test]
fn arithmetic_on_a_dynamic_value_requires_what_its_type_requires() {
    // function F(i : Int) : Double { IntAsDouble(i) + 1.0 }
    let mut b = Builder::new();
    let (input, nodes) = b.params(vec![(prim(Prim::Int), prim(Prim::Int))]);
    let i = b.local(prim(Prim::Int), nodes[0]);
    let call = b.call(prim(Prim::Double), Some(0), INT_AS_DOUBLE, i);
    let one = b.lit(prim(Prim::Double));
    let sum = b.expr(prim(Prim::Double), ExprKind::BinOp(call, one));
    let stmt = b.value(sum);
    let body = b.block(vec![stmt]);
    b.callable(0, CallableKind::Function, input, prim(Prim::Double), body);
    let props = analyze(b.package);
    check(
        &props,
        0,
        &[(&[], false), (&[IntegerComputations, FloatingPointComputation], true)],
    );
}

#[test]
fn arithmetic_on_a_dynamic_parameter_requires_what_its_type_requires() {
    // function Twice(i : Int, s : String) : Int { i + i }
    let mut b = Builder::new();
    let (input, nodes) = b.params(vec![
        (prim(Prim::Int), prim(Prim::Int)),
        (prim(Prim::String), prim(Prim::String)),
    ]);
    let first = b.local(prim(Prim::Int), nodes[0]);
    let second = b.local(prim(Prim::Int), nodes[0]);
    let sum = b.expr(prim(Prim::Int), ExprKind::BinOp(first, second));
    let stmt = b.value(sum);
    let body = b.block(vec![stmt]);
    b.callable(0, CallableKind::Function, input, prim(Prim::Int), body);
    let props = analyze(b.package);
    check(
        &props,
        0,
        &[
            (&[], false),
            (&[IntegerComputations], false),
            (&[], false),
            (&[IntegerComputations], false),
        ],
    );
}

#[test]
fn branching_on_a_measurement_requires_conditional_branching() {
    // operation Branch(q : Qubit) : Unit { let r = M(q); if r == One { H(q); } }
    let mut b = Builder::new();
    let (input, nodes) = b.params(vec![(prim(Prim::Qubit), prim(Prim::Qubit))]);
    let q = b.local(prim(Prim::Qubit), nodes[0]);
    let measure = b.call(prim(Prim::Result), Some(0), M, q);
    let (pat, r) = b.bind(prim(Prim::Result));
    let bind = b.stmt(StmtKind::Local(pat, measure));
    let result = b.local(prim(Prim::Result), r);
    let one = b.lit(prim(Prim::Result));
    let cond = b.expr(prim(Prim::Bool), ExprKind::BinOp(result, one));
    let q_again = b.local(prim(Prim::Qubit), nodes[0]);
    let gate = b.call(unit(), Some(0), H, q_again);
    let gate_stmt = b.semi(gate);
    let then_block = b.block(vec![gate_stmt]);
    let then = b.expr(unit(), ExprKind::Block(then_block));
    let branch = b.expr(unit(), ExprKind::If(cond, then, None));
    let branch_stmt = b.semi(branch);
    let body = b.block(vec![bind, branch_stmt]);
    b.callable(0, CallableKind::Operation, input, unit(), body);
    let props = analyze(b.package);
    check(
        &props,
        0,
        &[(&[ConditionalForwardBranching], true), (&[ConditionalForwardBranching], true)],
    );
}

#[test]
fn the_dynamic_arguments_choose_the_application_of_the_callee() {
    // operation Rotate(angle : Double, q : Qubit) : Unit { Rx(angle, q); }
    let mut b = Builder::new();
    let (input, nodes) = b.params(vec![
        (prim(Prim::Double), prim(Prim::Double)),
        (prim(Prim::Qubit), prim(Prim::Qubit)),
    ]);
    let angle = b.local(prim(Prim::Double), nodes[0]);
    let q = b.local(prim(Prim::Qubit), nodes[1]);
    let args = b.tuple(vec![angle, q]);
    let call = b.call(unit(), Some(0), RX, args);
    let stmt = b.semi(call);
    let body = b.block(vec![stmt]);
    b.callable(0, CallableKind::Operation, input, unit(), body);
    let props = analyze(b.package);
    check(
        &props,
        0,
        &[
            (&[], false),
            (&[FloatingPointComputation], false),
            (&[], false),
            (&[FloatingPointComputation], false),
        ],
    );
}

#[test]
fn arguments_in_another_order_choose_another_application() {
    // operation Rotate(q : Qubit, angle : Double) : Unit { Rx(angle, q); }
    let mut b = Builder::new();
    let (input, nodes) = b.params(vec![
        (prim(Prim::Qubit), prim(Prim::Qubit)),
        (prim(Prim::Double), prim(Prim::Double)),
    ]);
    let angle = b.local(prim(Prim::Double), nodes[1]);
    let q = b.local(prim(Prim::Qubit), nodes[0]);
    let args = b.tuple(vec![angle, q]);
    let call = b.call(unit(), Some(0), RX, args);
    let stmt = b.semi(call);
    let body = b.block(vec![stmt]);
    b.callable(0, CallableKind::Operation, input, unit(), body);
    let props = analyze(b.package);
    check(
        &props,
        0,
        &[
            (&[], false),
            (&[], false),
            (&[FloatingPointComputation], false),
            (&[FloatingPointComputation], false),
        ],
    );
}

#[test]
fn arguments_that_do_not_match_the_parameters_are_dynamic_together() {
    // operation Rotate(both : (Double, Qubit)) : Unit { Rx(both); }
    let mut b = Builder::new();
    let both_ty = || Ty::Tuple(vec![prim(Prim::Double), prim(Prim::Qubit)]);
    let (input, nodes) = b.params(vec![(both_ty(), both_ty())]);
    let both = b.local(both_ty(), nodes[0]);
    let call = b.call(unit(), Some(0), RX, both);
    let stmt = b.semi(call);
    let body = b.block(vec![stmt]);
    b.callable(0, CallableKind::Operation, input, unit(), body);
    let props = analyze(b.package);
    check(&props, 0, &[(&[], false), (&[FloatingPointComputation], false)]);
}

#[test]
fn a_callee_is_analyzed_before_its_caller() {
    // Item 0 calls item 1, which measures.
    let mut b = Builder::new();
    let (outer_input, outer_nodes) = b.params(vec![(prim(Prim::Qubit), prim(Prim::Qubit))]);
    let q = b.local(prim(Prim::Qubit), outer_nodes[0]);
    let call = b.call(prim(Prim::Result), None, 1, q);
    let stmt = b.value(call);
    let outer_body = b.block(vec![stmt]);
    b.callable(0, CallableKind::Operation, outer_input, prim(Prim::Result), outer_body);
    let (inner_input, inner_nodes) = b.params(vec![(prim(Prim::Qubit), prim(Prim::Qubit))]);
    let q = b.local(prim(Prim::Qubit), inner_nodes[0]);
    let measure = b.call(prim(Prim::Result), Some(0), M, q);
    let stmt = b.value(measure);
    let inner_body = b.block(vec![stmt]);
    b.callable(1, CallableKind::Operation, inner_input, prim(Prim::Result), inner_body);
    let props = analyze(b.package);
    check(&props, 0, &[(&[], true), (&[ConditionalForwardBranching], true)]);
    check(&props, 1, &[(&[], true), (&[ConditionalForwardBranching], true)]);
}

#[test]
fn a_callable_that_calls_itself_is_analyzed() {
    // operation Rec(q : Qubit) : Result { Rec(q); M(q) }
    let mut b = Builder::new();
    let (input, nodes) = b.params(vec![(prim(Prim::Qubit), prim(Prim::Qubit))]);
    let q = b.local(prim(Prim::Qubit), nodes[0]);
    let again = b.call(prim(Prim::Result), None, 0, q);
    let first = b.semi(again);
    let q = b.local(prim(Prim::Qubit), nodes[0]);
    let measure = b.call(prim(Prim::Result), Some(0), M, q);
    let last = b.value(measure);
    let body = b.block(vec![first, last]);
    b.callable(0, CallableKind::Operation, input, prim(Prim::Result), body);
    let props = analyze(b.package);
    check(&props, 0, &[(&[], true), (&[ConditionalForwardBranching], true)]);
}

#[test]
fn callables_that_call_each_other_are_analyzed() {
    // Item 0 calls item 1 and applies a gate. Item 1 calls item 0 and
    // measures. Item 0 is analyzed first, and item 1 on its behalf, while the
    // table of item 0 is not known.
    let mut b = Builder::new();
    let (first_input, first_nodes) = b.params(vec![(prim(Prim::Qubit), prim(Prim::Qubit))]);
    let q = b.local(prim(Prim::Qubit), first_nodes[0]);
    let call_second = b.call(prim(Prim::Result), None, 1, q);
    let one = b.semi(call_second);
    let q = b.local(prim(Prim::Qubit), first_nodes[0]);
    let gate = b.call(unit(), Some(0), H, q);
    let two = b.semi(gate);
    let first_body = b.block(vec![one, two]);
    b.callable(0, CallableKind::Operation, first_input, unit(), first_body);
    let (second_input, second_nodes) = b.params(vec![(prim(Prim::Qubit), prim(Prim::Qubit))]);
    let q = b.local(prim(Prim::Qubit), second_nodes[0]);
    let call_first = b.call(unit(), None, 0, q);
    let one = b.semi(call_first);
    let q = b.local(prim(Prim::Qubit), second_nodes[0]);
    let measure = b.call(prim(Prim::Result), Some(0), M, q);
    let two = b.value(measure);
    let second_body = b.block(vec![one, two]);
    b.callable(1, CallableKind::Operation, second_input, prim(Prim::Result), second_body);
    let props = analyze(b.package);
    check(&props, 1, &[(&[], true), (&[ConditionalForwardBranching], true)]);
    check(&props, 0, &[(&[], true), (&[ConditionalForwardBranching], true)]);
}

#[test]
fn a_call_of_an_unknown_callee_adds_nothing() {
    // operation Apply(op : (Qubit => Unit), q : Qubit) : Unit { op(q); }
    let mut b = Builder::new();
    let op_ty = || prim(Prim::Int);
    let (input, nodes) =
        b.params(vec![(op_ty(), op_ty()), (prim(Prim::Qubit), prim(Prim::Qubit))]);
    let op = b.local(op_ty(), nodes[0]);
    let q = b.local(prim(Prim::Qubit), nodes[1]);
    let call = b.expr(unit(), ExprKind::Call(op, q));
    let stmt = b.semi(call);
    let body = b.block(vec![stmt]);
    b.callable(0, CallableKind::Operation, input, unit(), body);
    let props = analyze(b.package);
    check(&props, 0, &[(&[], false), (&[], false), (&[], false), (&[], false)]);
}

#[test]
fn a_functor_applied_to_a_callee_keeps_the_table_of_the_callee() {
    // operation Undo(q : Qubit) : Unit { Adjoint H(q); }
    let mut b = Builder::new();
    let (input, nodes) = b.params(vec![(prim(Prim::Qubit), prim(Prim::Qubit))]);
    let q = b.local(prim(Prim::Qubit), nodes[0]);
    let name = b.name(Some(0), M);
    let adjoint = b.expr(unit(), ExprKind::UnOp(UnOp::Functor(Functor::Adj), name));
    let call = b.expr(prim(Prim::Result), ExprKind::Call(adjoint, q));
    let stmt = b.semi(call);
    let body = b.block(vec![stmt]);
    b.callable(0, CallableKind::Operation, input, unit(), body);
    let props = analyze(b.package);
    check(&props, 0, &[(&[], true), (&[ConditionalForwardBranching], true)]);
}

#[test]
fn an_assignment_of_a_dynamic_value_makes_the_local_dynamic() {
    // operation Set(q : Qubit) : Unit {
    //     mutable n = 0; set n = M(q); let d = IntAsDouble(n);
    // }
    let mut b = Builder::new();
    let (input, nodes) = b.params(vec![(prim(Prim::Qubit), prim(Prim::Qubit))]);
    let zero = b.lit(prim(Prim::Int));
    let (n_pat, n) = b.bind(prim(Prim::Int));
    let declare = b.stmt(StmtKind::Local(n_pat, zero));
    let target = b.local(prim(Prim::Int), n);
    let q = b.local(prim(Prim::Qubit), nodes[0]);
    let measure = b.call(prim(Prim::Result), Some(0), M, q);
    let assign = b.expr(unit(), ExprKind::Assign(target, measure));
    let assign_stmt = b.semi(assign);
    let n_again = b.local(prim(Prim::Int), n);
    let convert = b.call(prim(Prim::Double), Some(0), INT_AS_DOUBLE, n_again);
    let (d_pat, _) = b.bind(prim(Prim::Double));
    let bind = b.stmt(StmtKind::Local(d_pat, convert));
    let body = b.block(vec![declare, assign_stmt, bind]);
    b.callable(0, CallableKind::Operation, input, unit(), body);
    let props = analyze(b.package);
    // The measurement is dynamic and has the type Result; the conversion is
    // called with a dynamic argument.
    check(
        &props,
        0,
        &[
            (
                &[ConditionalForwardBranching, IntegerComputations, FloatingPointComputation],
                true,
            ),
            (
                &[ConditionalForwardBranching, IntegerComputations, FloatingPointComputation],
                true,
            ),
        ],
    );
}

#[test]
fn an_array_of_dynamic_values_requires_what_their_type_requires() {
    // operation Both(q : Qubit) : Result[] { [M(q), M(q)] }
    let mut b = Builder::new();
    let (input, nodes) = b.params(vec![(prim(Prim::Qubit), prim(Prim::Qubit))]);
    let q = b.local(prim(Prim::Qubit), nodes[0]);
    let first = b.call(prim(Prim::Result), Some(0), M, q);
    let q = b.local(prim(Prim::Qubit), nodes[0]);
    let second = b.call(prim(Prim::Result), Some(0), M, q);
    let array_ty = || Ty::Array(Box::new(prim(Prim::Result)));
    let array = b.expr(array_ty(), ExprKind::Array(vec![first, second]));
    let length = b.expr(prim(Prim::Int), ExprKind::Field(array));
    let stmt = b.value(length);
    let body = b.block(vec![stmt]);
    b.callable(0, CallableKind::Operation, input, prim(Prim::Int), body);
    let props = analyze(b.package);
    check(
        &props,
        0,
        &[
            (&[ConditionalForwardBranching, HigherLevelConstructs], true),
            (&[ConditionalForwardBranching, HigherLevelConstructs], true),
        ],
    );
}

#[test]
fn every_item_of_every_package_is_analyzed() {
    let mut b = Builder::new();
    let body = b.block(vec![]);
    let (input, _) = b.params(vec![]);
    b.callable(2, CallableKind::Operation, input, unit(), body);
    b.package.items.insert(0, Item { kind: ItemKind::Namespace });
    b.package.items.insert(5, Item { kind: ItemKind::Ty });
    let props = analyze(b.package);
    for item in [H, M, INT_AS_DOUBLE, RX] {
        assert!(props.has_item(PackageId(0), LocalItemId(item)));
    }
    assert!(props.has_item(PackageId(1), LocalItemId(0)));
    assert!(props.has_item(PackageId(1), LocalItemId(2)));
    assert!(props.has_item(PackageId(1), LocalItemId(5)));
    assert!(!props.has_item(PackageId(1), LocalItemId(1)));
    assert!(!props.has_item(PackageId(2), LocalItemId(0)));
    assert!(matches!(
        props.get_item(PackageId(1), LocalItemId(0)),
        Some(ItemComputeProps::NonCallable)
    ));
    assert!(matches!(
        props.get_item(PackageId(1), LocalItemId(5)),
        Some(ItemComputeProps::NonCallable)
    ));
    check(&props, 2, &[(&[], false)]);
    let package = props.get_package(PackageId(1)).expect("package should be analyzed");
    assert_eq!(package.blocks.bound(), 0);
    assert_eq!(package.stmts.bound(), 0);
    assert_eq!(package.exprs.bound(), 0);
    assert_eq!(package.pats.bound(), 0);
}

#[test]
fn a_table_has_an_application_for_each_choice_of_dynamic_parameters() {
    for count in 0..5 {
        let mut b = Builder::new();
        let mut tys = Vec::new();
        for _ in 0..count {
            tys.push((prim(Prim::Int), prim(Prim::Int)));
        }
        let (input, _) = b.params(tys);
        let body = b.block(vec![]);
        b.callable(0, CallableKind::Function, input, unit(), body);
        let props = analyze(b.package);
        let Some(ItemComputeProps::Callable(callable)) =
            props.get_item(PackageId(1), LocalItemId(0))
        else {
            panic!("item should be a callable");
        };
        assert_eq!(callable.apps.input_param_count(), count);
        assert_eq!(callable.apps.len(), 1 << count);
    }
}

#[test]
fn the_analysis_gives_the_same_result_each_time() {
    let build = || {
        let mut b = Builder::new();
        let (input, nodes) = b.params(vec![(prim(Prim::Int), prim(Prim::Int))]);
        let i = b.local(prim(Prim::Int), nodes[0]);
        let call = b.call(prim(Prim::Double), Some(0), INT_AS_DOUBLE, i);
        let stmt = b.value(call);
        let body = b.block(vec![stmt]);
        b.callable(0, CallableKind::Function, input, prim(Prim::Double), body);
        store_with(b.package)
    };
    let store = build();
    let first = SinglePassAnalyzer::run(&store);
    let second = SinglePassAnalyzer::run(&store);
    for props in [&first, &second] {
        check(props, 0, &[(&[], false), (&[IntegerComputations, FloatingPointComputation], true)]);
    }
}

#[test]
fn a_call_of_a_missing_item_fails_the_analysis() {
    let mut b = Builder::new();
    let (input, nodes) = b.params(vec![(prim(Prim::Qubit), prim(Prim::Qubit))]);
    let q = b.local(prim(Prim::Qubit), nodes[0]);
    let call = b.call(unit(), Some(0), 17, q);
    let stmt = b.semi(call);
    let body = b.block(vec![stmt]);
    b.callable(0, CallableKind::Operation, input, unit(), body);
    assert!(SinglePassAnalyzer::try_run(&store_with(b.package)).is_none());
}

#[test]
fn a_body_that_the_package_lacks_fails_the_analysis() {
    let mut b = Builder::new();
    let (input, _) = b.params(vec![]);
    b.callable(0, CallableKind::Operation, input, unit(), BlockId(17));
    assert!(SinglePassAnalyzer::try_run(&store_with(b.package)).is_none());
}

#[test]
fn an_input_pattern_that_the_package_lacks_fails_the_analysis() {
    let mut b = Builder::new();
    let body = b.block(vec![]);
    b.callable(0, CallableKind::Operation, PatId(17), unit(), body);
    assert!(SinglePassAnalyzer::try_run(&store_with(b.package)).is_none());
}

#[test]
fn an_input_pattern_that_binds_nothing_fails_the_analysis() {
    let mut b = Builder::new();
    let body = b.block(vec![]);
    let input = b.pat(prim(Prim::Int), PatKind::Discard);
    b.callable(0, CallableKind::Operation, input, unit(), body);
    assert!(SinglePassAnalyzer::try_run(&store_with(b.package)).is_none());
}

#[test]
fn an_intrinsic_callable_with_a_type_that_no_value_has_fails_the_analysis() {
    let mut b = Builder::new();
    b.intrinsic(
        0,
        CallableKind::Function,
        vec![(Ty::Param(0), Ty::Param(0))],
        prim(Prim::Int),
    );
    assert!(SinglePassAnalyzer::try_run(&store_with(b.package)).is_none());
    let mut b = Builder::new();
    b.intrinsic(0, CallableKind::Function, vec![(prim(Prim::Int), prim(Prim::Int))], Ty::Invalid);
    assert!(SinglePassAnalyzer::try_run(&store_with(b.package)).is_none());
}

#[test]
fn an_intrinsic_callable_without_parameters_may_return_any_type() {
    let mut b = Builder::new();
    b.intrinsic(0, CallableKind::Function, vec![], Ty::Param(0));
    let props = analyze(b.package);
    check(&props, 0, &[(&[], false)]);
}

#[test]
fn an_empty_store_has_an_empty_analysis() {
    let store = PackageStore::new();
    let props = SinglePassAnalyzer::try_run(&store).expect("analysis should succeed");
    assert_eq!(props.bound(), 0);
    assert!(!props.has_item(PackageId(0), LocalItemId(0)));
}

#[test]
fn a_deeply_nested_pattern_is_within_the_budget() {
    // operation Deep(q : Qubit) : Unit { let ((((r)))) = M(q); H(q); }
    let mut b = Builder::new();
    let (input, nodes) = b.params(vec![(prim(Prim::Qubit), prim(Prim::Qubit))]);
    let q = b.local(prim(Prim::Qubit), nodes[0]);
    let measure = b.call(prim(Prim::Result), Some(0), M, q);
    let (mut pat, r) = b.bind(prim(Prim::Result));
    for _ in 0..12 {
        pat = b.pat(prim(Prim::Result), PatKind::Tuple(vec![pat]));
    }
    let bind = b.stmt(StmtKind::Local(pat, measure));
    let result = b.local(prim(Prim::Result), r);
    let one = b.lit(prim(Prim::Result));
    let compare = b.expr(prim(Prim::Bool), ExprKind::BinOp(result, one));
    let last = b.semi(compare);
    let body = b.block(vec![bind, last]);
    b.callable(0, CallableKind::Operation, input, unit(), body);
    let props = analyze(b.package);
    check(
        &props,
        0,
        &[(&[ConditionalForwardBranching], true), (&[ConditionalForwardBranching], true)],
    );
}

#[test]
fn a_long_chain_of_callees_is_analyzed() {
    // Item i calls item i + 1; the last item measures.
    let count = 100;
    let mut b = Builder::new();
    for item in 0..count {
        let (input, nodes) = b.params(vec![(prim(Prim::Qubit), prim(Prim::Qubit))]);
        let q = b.local(prim(Prim::Qubit), nodes[0]);
        let call = if item + 1 < count {
            b.call(prim(Prim::Result), None, item + 1, q)
        } else {
            b.call(prim(Prim::Result), Some(0), M, q)
        };
        let stmt = b.value(call);
        let body = b.block(vec![stmt]);
        b.callable(item, CallableKind::Operation, input, prim(Prim::Result), body);
    }
    let props = analyze(b.package);
    for item in 0..count {
        check(&props, item, &[(&[], true), (&[ConditionalForwardBranching], true)]);
    }
}

#[test]
fn a_call_that_leads_back_adds_what_the_callable_requires_apart_from_it() {
    // operation Rec(i : Int, q : Qubit) : Unit { Rec(M(q), q); IntAsDouble(i); }
    //
    // Apart from the call of itself, the callable requires what the
    // measurement and the conversion require. The call of itself makes its
    // first parameter dynamic, so it adds what the conversion of a dynamic
    // number requires to every application.
    let mut b = Builder::new();
    let (input, nodes) = b.params(vec![
        (prim(Prim::Int), prim(Prim::Int)),
        (prim(Prim::Qubit), prim(Prim::Qubit)),
    ]);
    let q = b.local(prim(Prim::Qubit), nodes[1]);
    let measure = b.call(prim(Prim::Result), Some(0), M, q);
    let q = b.local(prim(Prim::Qubit), nodes[1]);
    let args = b.tuple(vec![measure, q]);
    let again = b.call(unit(), None, 0, args);
    let first = b.semi(again);
    let i = b.local(prim(Prim::Int), nodes[0]);
    let convert = b.call(prim(Prim::Double), Some(0), INT_AS_DOUBLE, i);
    let second = b.semi(convert);
    let body = b.block(vec![first, second]);
    b.callable(0, CallableKind::Operation, input, unit(), body);
    let props = analyze(b.package);
    check(
        &props,
        0,
        &[
            (&[IntegerComputations, FloatingPointComputation], true),
            (&[IntegerComputations, FloatingPointComputation], true),
            (
                &[ConditionalForwardBranching, IntegerComputations, FloatingPointComputation],
                true,
            ),
            (
                &[ConditionalForwardBranching, IntegerComputations, FloatingPointComputation],
                true,
            ),
        ],
    );
}

#[test]
fn a_package_whose_cycles_cannot_be_told_fails_the_analysis() {
    // The body calls a namespace.
    let mut b = Builder::new();
    let (input, _) = b.params(vec![]);
    let args = b.tuple(vec![]);
    let call = b.call(unit(), None, 1, args);
    let stmt = b.semi(call);
    let body = b.block(vec![stmt]);
    b.callable(0, CallableKind::Operation, input, unit(), body);
    b.package.items.insert(1, Item { kind: ItemKind::Namespace });
    assert!(SinglePassAnalyzer::try_run(&store_with(b.package)).is_none());
}
