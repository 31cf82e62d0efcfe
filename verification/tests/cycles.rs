use qsc_rca::cycle_detection::detect_callables_with_cycles;
use qsc_rca::cycle_detection::try_detect_callables_with_cycles;
use qsc_rca::cycle_model::CycledCallableInfo;
use qsc_rca::fir::Block;
use qsc_rca::fir::BlockId;
use qsc_rca::fir::CallableDecl;
use qsc_rca::fir::CallableImpl;
use qsc_rca::fir::CallableKind;
use qsc_rca::fir::Expr;
use qsc_rca::fir::ExprId;
use qsc_rca::fir::ExprKind;
use qsc_rca::fir::Functor;
use qsc_rca::fir::Item;
use qsc_rca::fir::ItemId;
use qsc_rca::fir::ItemKind;
use qsc_rca::fir::LocalItemId;
use qsc_rca::fir::NodeId;
use qsc_rca::fir::Package;
use qsc_rca::fir::PackageId;
use qsc_rca::fir::Pat;
use qsc_rca::fir::PatId;
use qsc_rca::fir::PatKind;
use qsc_rca::fir::Prim;
use qsc_rca::fir::Res;
use qsc_rca::fir::SpecDecl;
use qsc_rca::fir::Specializations;
use qsc_rca::fir::Stmt;
use qsc_rca::fir::StmtId;
use qsc_rca::fir::StmtKind;
use qsc_rca::fir::StringComponent;
use qsc_rca::fir::Ty;
use qsc_rca::fir::UnOp;

/// A package under construction. Pattern 0 is the empty tuple pattern, which
/// is the input pattern of the callables that take nothing.
struct Builder {
    package: Package,
    exprs: usize,
    stmts: usize,
    blocks: usize,
    pats: usize,
}

impl Builder {
    fn new() -> Builder {
        let mut package = Package::new();
        package.pats.insert(0, Pat { ty: Ty::Tuple(vec![]), kind: PatKind::Tuple(vec![]) });
        Builder { package, exprs: 0, stmts: 0, blocks: 0, pats: 1 }
    }

    fn expr(&mut self, kind: ExprKind) -> ExprId {
        let id = self.exprs;
        self.exprs += 1;
        self.package.exprs.insert(id, Expr { ty: Ty::Tuple(vec![]), kind });
        ExprId(id)
    }

    fn stmt(&mut self, kind: StmtKind) -> StmtId {
        let id = self.stmts;
        self.stmts += 1;
        self.package.stmts.insert(id, Stmt { kind });
        StmtId(id)
    }

    fn block(&mut self, stmts: Vec<StmtId>) -> BlockId {
        let id = self.blocks;
        self.blocks += 1;
        self.package.blocks.insert(id, Block { ty: Ty::Tuple(vec![]), stmts });
        BlockId(id)
    }

    fn pat(&mut self, kind: PatKind) -> PatId {
        let id = self.pats;
        self.pats += 1;
        self.package.pats.insert(id, Pat { ty: Ty::Prim(Prim::Int), kind });
        PatId(id)
    }

    fn unit(&mut self) -> ExprId {
        self.expr(ExprKind::Tuple(vec![]))
    }

    fn item_name(&mut self, item: usize) -> ExprId {
        self.expr(ExprKind::Var(Res::Item(ItemId { package: None, item: LocalItemId(item) })))
    }

    /// A call of the item without arguments.
    fn call_item(&mut self, item: usize) -> ExprId {
        let callee = self.item_name(item);
        self.call(callee)
    }

    /// A call of the callee without arguments.
    fn call(&mut self, callee: ExprId) -> ExprId {
        let args = self.unit();
        self.expr(ExprKind::Call(callee, args))
    }

    /// A block whose only statement is the expression, without a semicolon.
    fn block_of(&mut self, expr: ExprId) -> BlockId {
        let stmt = self.stmt(StmtKind::Expr(expr));
        self.block(vec![stmt])
    }

    fn decl(block: BlockId) -> SpecDecl {
        SpecDecl { block, input: None }
    }

    fn operation(&mut self, item: usize, input: PatId, specs: Specializations) {
        self.package.items.insert(
            item,
            Item {
                kind: ItemKind::Callable(CallableDecl {
                    kind: CallableKind::Operation,
                    input,
                    output: Ty::Tuple(vec![]),
                    implementation: CallableImpl::Spec(specs),
                }),
            },
        );
    }

    /// An operation that takes nothing and has only a body.
    fn body_only(&mut self, item: usize, block: BlockId) {
        self.operation(
            item,
            PatId(0),
            Specializations { body: Builder::decl(block), adj: None, ctl: None, ctl_adj: None },
        );
    }

    fn intrinsic(&mut self, item: usize) {
        self.package.items.insert(
            item,
            Item {
                kind: ItemKind::Callable(CallableDecl {
                    kind: CallableKind::Operation,
                    input: PatId(0),
                    output: Ty::Tuple(vec![]),
                    implementation: CallableImpl::Intrinsic,
                }),
            },
        );
    }

    fn detect(&self) -> Option<Vec<CycledCallableInfo>> {
        try_detect_callables_with_cycles(PackageId(0), &self.package)
    }
}

fn body_cycled(id: usize) -> CycledCallableInfo {
    CycledCallableInfo {
        id: LocalItemId(id),
        is_body_cycled: true,
        is_adj_cycled: None,
        is_ctl_cycled: None,
        is_ctl_adj_cycled: None,
    }
}

#[test]
fn mutually_recursive_operations_are_both_reported() {
    let mut b = Builder::new();
    let call_second = b.call_item(1);
    let first_block = b.block_of(call_second);
    let call_first = b.call_item(0);
    let second_block = b.block_of(call_first);
    b.body_only(0, first_block);
    b.body_only(1, second_block);
    assert_eq!(b.detect(), Some(vec![body_cycled(0), body_cycled(1)]));
    assert_eq!(
        detect_callables_with_cycles(PackageId(0), &b.package),
        vec![body_cycled(0), body_cycled(1)]
    );
}

#[test]
fn an_operation_that_calls_itself_is_reported() {
    let mut b = Builder::new();
    let call = b.call_item(3);
    let block = b.block_of(call);
    b.body_only(3, block);
    assert_eq!(b.detect(), Some(vec![body_cycled(3)]));
}

#[test]
fn operations_without_recursion_are_not_reported() {
    let mut b = Builder::new();
    let call_second = b.call_item(1);
    let first_block = b.block_of(call_second);
    let call_intrinsic = b.call_item(2);
    let second_block = b.block_of(call_intrinsic);
    b.body_only(0, first_block);
    b.body_only(1, second_block);
    b.intrinsic(2);
    assert_eq!(b.detect(), Some(vec![]));
}

#[test]
fn an_empty_package_has_no_cycles() {
    let package = Package::new();
    assert_eq!(try_detect_callables_with_cycles(PackageId(0), &package), Some(vec![]));
}

#[test]
fn a_recursive_call_that_is_not_in_tail_position_is_found() {
    let mut b = Builder::new();
    let call = b.call_item(0);
    let first = b.stmt(StmtKind::Semi(call));
    let unit = b.unit();
    let last = b.stmt(StmtKind::Expr(unit));
    let block = b.block(vec![first, last]);
    b.body_only(0, block);
    assert_eq!(b.detect(), Some(vec![body_cycled(0)]));
}

#[test]
fn a_recursive_call_among_the_arguments_of_a_call_is_found() {
    let mut b = Builder::new();
    let inner = b.call_item(0);
    let callee = b.item_name(1);
    let outer = b.expr(ExprKind::Call(callee, inner));
    let block = b.block_of(outer);
    b.body_only(0, block);
    b.intrinsic(1);
    assert_eq!(b.detect(), Some(vec![body_cycled(0)]));
}

#[test]
fn functors_select_the_specialization_that_is_called() {
    // The body calls the adjoint, and the adjoint calls the body.
    let mut b = Builder::new();
    let name = b.item_name(0);
    let adjoint = b.expr(ExprKind::UnOp(UnOp::Functor(Functor::Adj), name));
    let call_adjoint = b.call(adjoint);
    let body_block = b.block_of(call_adjoint);
    let call_body = b.call_item(0);
    let adj_block = b.block_of(call_body);
    b.operation(
        0,
        PatId(0),
        Specializations {
            body: Builder::decl(body_block),
            adj: Some(Builder::decl(adj_block)),
            ctl: None,
            ctl_adj: None,
        },
    );
    assert_eq!(
        b.detect(),
        Some(vec![CycledCallableInfo {
            id: LocalItemId(0),
            is_body_cycled: true,
            is_adj_cycled: Some(true),
            is_ctl_cycled: None,
            is_ctl_adj_cycled: None,
        }])
    );
}

#[test]
fn a_specialization_that_is_not_on_a_cycle_has_a_false_flag() {
    // The body calls itself. The other specializations call nothing.
    let mut b = Builder::new();
    let call = b.call_item(0);
    let body_block = b.block_of(call);
    let adj_block = b.block(vec![]);
    let ctl_block = b.block(vec![]);
    let ctl_adj_block = b.block(vec![]);
    b.operation(
        0,
        PatId(0),
        Specializations {
            body: Builder::decl(body_block),
            adj: Some(Builder::decl(adj_block)),
            ctl: Some(Builder::decl(ctl_block)),
            ctl_adj: Some(Builder::decl(ctl_adj_block)),
        },
    );
    assert_eq!(
        b.detect(),
        Some(vec![CycledCallableInfo {
            id: LocalItemId(0),
            is_body_cycled: true,
            is_adj_cycled: Some(false),
            is_ctl_cycled: Some(false),
            is_ctl_adj_cycled: Some(false),
        }])
    );
}

#[test]
fn the_controlled_adjoint_specialization_is_walked_with_its_own_block() {
    // Only the controlled adjoint specialization calls itself: through the
    // adjoint of the controlled functor applied twice.
    let mut b = Builder::new();
    let name = b.item_name(0);
    let controlled = b.expr(ExprKind::UnOp(UnOp::Functor(Functor::Ctl), name));
    let twice = b.expr(ExprKind::UnOp(UnOp::Functor(Functor::Ctl), controlled));
    let adjoint = b.expr(ExprKind::UnOp(UnOp::Functor(Functor::Adj), twice));
    let call = b.call(adjoint);
    let ctl_adj_block = b.block_of(call);
    let body_block = b.block(vec![]);
    let adj_block = b.block(vec![]);
    let ctl_block = b.block(vec![]);
    b.operation(
        0,
        PatId(0),
        Specializations {
            body: Builder::decl(body_block),
            adj: Some(Builder::decl(adj_block)),
            ctl: Some(Builder::decl(ctl_block)),
            ctl_adj: Some(Builder::decl(ctl_adj_block)),
        },
    );
    assert_eq!(
        b.detect(),
        Some(vec![CycledCallableInfo {
            id: LocalItemId(0),
            is_body_cycled: false,
            is_adj_cycled: Some(false),
            is_ctl_cycled: Some(false),
            is_ctl_adj_cycled: Some(true),
        }])
    );
}

#[test]
fn a_callee_is_resolved_through_a_local_binding() {
    // let f = <item 0>; f()
    let mut b = Builder::new();
    let name = b.item_name(0);
    let pat = b.pat(PatKind::Bind(NodeId(7)));
    let bind = b.stmt(StmtKind::Local(pat, name));
    let local = b.expr(ExprKind::Var(Res::Local(NodeId(7))));
    let call = b.call(local);
    let last = b.stmt(StmtKind::Semi(call));
    let block = b.block(vec![bind, last]);
    b.body_only(0, block);
    assert_eq!(b.detect(), Some(vec![body_cycled(0)]));
}

#[test]
fn a_callee_is_resolved_through_a_tuple_binding() {
    // let (f, _) = (<item 1>, <item 0>); f()
    let mut b = Builder::new();
    let other = b.item_name(1);
    let own = b.item_name(0);
    let tuple = b.expr(ExprKind::Tuple(vec![other, own]));
    let first = b.pat(PatKind::Bind(NodeId(3)));
    let second = b.pat(PatKind::Discard);
    let pat = b.pat(PatKind::Tuple(vec![first, second]));
    let bind = b.stmt(StmtKind::Local(pat, tuple));
    let local = b.expr(ExprKind::Var(Res::Local(NodeId(3))));
    let call = b.call(local);
    let last = b.stmt(StmtKind::Semi(call));
    let block = b.block(vec![bind, last]);
    b.body_only(0, block);
    let call_first = b.call_item(0);
    let other_block = b.block_of(call_first);
    b.body_only(1, other_block);
    assert_eq!(b.detect(), Some(vec![body_cycled(0), body_cycled(1)]));
}

#[test]
fn a_call_of_an_input_parameter_is_not_followed() {
    // operation Apply(f) { f() }, which would otherwise be a call of itself.
    let mut b = Builder::new();
    let input = b.pat(PatKind::Bind(NodeId(4)));
    let local = b.expr(ExprKind::Var(Res::Local(NodeId(4))));
    let call = b.call(local);
    let block = b.block_of(call);
    b.operation(
        0,
        input,
        Specializations { body: Builder::decl(block), adj: None, ctl: None, ctl_adj: None },
    );
    assert_eq!(b.detect(), Some(vec![]));
}

#[test]
fn a_call_of_a_local_without_a_known_binding_is_not_followed() {
    let mut b = Builder::new();
    let local = b.expr(ExprKind::Var(Res::Local(NodeId(9))));
    let call = b.call(local);
    let block = b.block_of(call);
    b.body_only(0, block);
    assert_eq!(b.detect(), Some(vec![]));
}

#[test]
fn a_call_of_a_computed_callee_is_not_followed() {
    // (if c { <item 0> } else { <item 0> })()
    let mut b = Builder::new();
    let cond = b.expr(ExprKind::Lit);
    let this = b.item_name(0);
    let that = b.item_name(0);
    let choice = b.expr(ExprKind::If(cond, this, Some(that)));
    let call = b.call(choice);
    let block = b.block_of(call);
    b.body_only(0, block);
    assert_eq!(b.detect(), Some(vec![]));
}

#[test]
fn a_call_into_another_package_is_not_followed() {
    let mut b = Builder::new();
    let callee = b.expr(ExprKind::Var(Res::Item(ItemId {
        package: Some(PackageId(5)),
        item: LocalItemId(0),
    })));
    let call = b.call(callee);
    let block = b.block_of(call);
    b.body_only(0, block);
    assert_eq!(b.detect(), Some(vec![]));
}

#[test]
fn a_call_into_the_same_package_by_its_key_is_followed() {
    let mut b = Builder::new();
    let callee = b.expr(ExprKind::Var(Res::Item(ItemId {
        package: Some(PackageId(0)),
        item: LocalItemId(0),
    })));
    let call = b.call(callee);
    let block = b.block_of(call);
    b.body_only(0, block);
    assert_eq!(b.detect(), Some(vec![body_cycled(0)]));
}

#[test]
fn a_block_as_callee_stands_for_its_last_expression() {
    let mut b = Builder::new();
    let name = b.item_name(0);
    let inner = b.block_of(name);
    let callee = b.expr(ExprKind::Block(inner));
    let call = b.call(callee);
    let block = b.block_of(call);
    b.body_only(0, block);
    assert_eq!(b.detect(), Some(vec![body_cycled(0)]));
}

#[test]
fn a_block_that_ends_with_a_semicolon_stands_for_no_callee() {
    let mut b = Builder::new();
    let name = b.item_name(0);
    let stmt = b.stmt(StmtKind::Semi(name));
    let inner = b.block(vec![stmt]);
    let callee = b.expr(ExprKind::Block(inner));
    let call = b.call(callee);
    let block = b.block_of(call);
    b.body_only(0, block);
    assert_eq!(b.detect(), Some(vec![]));
}

#[test]
fn a_closure_as_callee_stands_for_the_body_of_its_item() {
    let mut b = Builder::new();
    let closure = b.expr(ExprKind::Closure(LocalItemId(0)));
    let call = b.call(closure);
    let block = b.block_of(call);
    b.body_only(0, block);
    assert_eq!(b.detect(), Some(vec![body_cycled(0)]));
}

#[test]
fn calls_are_found_in_every_kind_of_expression() {
    // Each operation holds a call of itself inside another kind of expression.
    let mut b = Builder::new();
    let lit = |b: &mut Builder| b.expr(ExprKind::Lit);
    let mut item = 0;
    let mut expected = Vec::new();
    let mut add = |b: &mut Builder, make: &dyn Fn(&mut Builder, ExprId) -> ExprKind| {
        let call = b.call_item(item);
        let kind = make(b, call);
        let expr = b.expr(kind);
        let stmt = b.stmt(StmtKind::Semi(expr));
        let block = b.block(vec![stmt]);
        b.body_only(item, block);
        expected.push(body_cycled(item));
        item += 1;
    };
    add(&mut b, &|_, call| ExprKind::Array(vec![call]));
    add(&mut b, &|b, call| ExprKind::ArrayRepeat(lit(b), call));
    add(&mut b, &|b, call| ExprKind::Assign(lit(b), call));
    add(&mut b, &|b, call| ExprKind::AssignOp(call, lit(b)));
    add(&mut b, &|b, call| ExprKind::AssignField(lit(b), call));
    add(&mut b, &|b, call| ExprKind::AssignIndex(lit(b), lit(b), call));
    add(&mut b, &|b, call| ExprKind::BinOp(call, lit(b)));
    add(&mut b, &|b, call| ExprKind::Block(b.block_of(call)));
    add(&mut b, &|_, call| ExprKind::Fail(call));
    add(&mut b, &|_, call| ExprKind::Field(call));
    add(&mut b, &|b, call| ExprKind::If(lit(b), lit(b), Some(call)));
    add(&mut b, &|b, call| ExprKind::If(call, lit(b), None));
    add(&mut b, &|b, call| ExprKind::Index(lit(b), call));
    add(&mut b, &|_, call| ExprKind::Range(None, Some(call), None));
    add(&mut b, &|b, call| ExprKind::Range(Some(lit(b)), None, Some(call)));
    add(&mut b, &|_, call| ExprKind::Return(call));
    add(&mut b, &|_, call| ExprKind::String(vec![StringComponent::Lit, StringComponent::Expr(call)]));
    add(&mut b, &|b, call| ExprKind::UpdateIndex(lit(b), call, lit(b)));
    add(&mut b, &|b, call| ExprKind::Tuple(vec![lit(b), call]));
    add(&mut b, &|_, call| ExprKind::UnOp(UnOp::Neg, call));
    add(&mut b, &|b, call| ExprKind::UpdateField(call, lit(b)));
    add(&mut b, &|b, call| {
        let body = b.block(vec![]);
        ExprKind::While(call, body)
    });
    add(&mut b, &|b, call| {
        let body = b.block_of(call);
        ExprKind::While(lit(b), body)
    });
    assert_eq!(b.detect(), Some(expected));
}

#[test]
fn an_item_declared_in_a_block_is_passed_over() {
    let mut b = Builder::new();
    let stmt = b.stmt(StmtKind::Item(LocalItemId(0)));
    let block = b.block(vec![stmt]);
    b.body_only(0, block);
    assert_eq!(b.detect(), Some(vec![]));
}

#[test]
fn a_call_of_a_type_is_passed_over() {
    let mut b = Builder::new();
    let call = b.call_item(1);
    let block = b.block_of(call);
    b.body_only(0, block);
    b.package.items.insert(1, Item { kind: ItemKind::Ty });
    assert_eq!(b.detect(), Some(vec![]));
}

#[test]
fn a_package_that_lacks_a_block_is_malformed() {
    let mut b = Builder::new();
    b.body_only(0, BlockId(17));
    assert_eq!(b.detect(), None);
}

#[test]
fn a_package_that_lacks_a_statement_is_malformed() {
    let mut b = Builder::new();
    let block = b.block(vec![StmtId(17)]);
    b.body_only(0, block);
    assert_eq!(b.detect(), None);
}

#[test]
fn a_package_that_lacks_an_expression_is_malformed() {
    let mut b = Builder::new();
    let block = b.block_of(ExprId(17));
    b.body_only(0, block);
    assert_eq!(b.detect(), None);
}

#[test]
fn a_package_that_lacks_a_called_item_is_malformed() {
    let mut b = Builder::new();
    let call = b.call_item(17);
    let block = b.block_of(call);
    b.body_only(0, block);
    assert_eq!(b.detect(), None);
}

#[test]
fn a_package_that_lacks_an_input_pattern_is_malformed() {
    let mut b = Builder::new();
    let block = b.block(vec![]);
    b.operation(
        0,
        PatId(17),
        Specializations { body: Builder::decl(block), adj: None, ctl: None, ctl_adj: None },
    );
    assert_eq!(b.detect(), None);
}

#[test]
fn a_call_of_a_namespace_is_malformed() {
    let mut b = Builder::new();
    let call = b.call_item(1);
    let block = b.block_of(call);
    b.body_only(0, block);
    b.package.items.insert(1, Item { kind: ItemKind::Namespace });
    assert_eq!(b.detect(), None);
}

#[test]
fn a_call_of_a_specialization_that_the_callee_lacks_is_malformed() {
    let mut b = Builder::new();
    let name = b.item_name(0);
    let adjoint = b.expr(ExprKind::UnOp(UnOp::Functor(Functor::Adj), name));
    let call = b.call(adjoint);
    let block = b.block_of(call);
    b.body_only(0, block);
    assert_eq!(b.detect(), None);
}

#[test]
fn a_callee_that_was_not_resolved_is_malformed() {
    let mut b = Builder::new();
    let callee = b.expr(ExprKind::Var(Res::Unresolved));
    let call = b.call(callee);
    let block = b.block_of(call);
    b.body_only(0, block);
    assert_eq!(b.detect(), None);
}

#[test]
fn an_expression_that_contains_itself_is_malformed() {
    // Expression 0 is a block whose only statement is expression 0.
    let mut b = Builder::new();
    let stmt = b.stmt(StmtKind::Expr(ExprId(0)));
    let inner = b.block(vec![stmt]);
    let callee = b.expr(ExprKind::Block(inner));
    assert_eq!(callee, ExprId(0));
    let call = b.call(callee);
    let block = b.block_of(call);
    b.body_only(0, block);
    assert_eq!(b.detect(), None);
}

#[test]
fn callables_are_reported_in_the_order_of_their_keys() {
    let mut b = Builder::new();
    for item in [9, 2, 5] {
        let call = b.call_item(item);
        let block = b.block_of(call);
        b.body_only(item, block);
    }
    assert_eq!(b.detect(), Some(vec![body_cycled(2), body_cycled(5), body_cycled(9)]));
}

#[test]
fn a_cycle_of_three_is_reported_whole() {
    let mut b = Builder::new();
    for item in 0..3 {
        let call = b.call_item((item + 1) % 3);
        let block = b.block_of(call);
        b.body_only(item, block);
    }
    assert_eq!(b.detect(), Some(vec![body_cycled(0), body_cycled(1), body_cycled(2)]));
}

#[test]
fn a_block_that_contains_itself_is_malformed() {
    // Block 0 holds a statement whose expression is block 0.
    let mut b = Builder::new();
    let inner = b.expr(ExprKind::Block(BlockId(0)));
    let stmt = b.stmt(StmtKind::Semi(inner));
    let block = b.block(vec![stmt]);
    assert_eq!(block, BlockId(0));
    b.body_only(0, block);
    assert_eq!(b.detect(), None);
}

#[test]
fn a_local_that_is_bound_to_itself_is_malformed() {
    // let f = f; f()
    let mut b = Builder::new();
    let local = b.expr(ExprKind::Var(Res::Local(NodeId(2))));
    let pat = b.pat(PatKind::Bind(NodeId(2)));
    let bind = b.stmt(StmtKind::Local(pat, local));
    let callee = b.expr(ExprKind::Var(Res::Local(NodeId(2))));
    let call = b.call(callee);
    let last = b.stmt(StmtKind::Semi(call));
    let block = b.block(vec![bind, last]);
    b.body_only(0, block);
    assert_eq!(b.detect(), None);
}

#[test]
fn a_callee_that_is_called_twice_in_a_row_is_not_on_a_cycle() {
    let mut b = Builder::new();
    let first = b.call_item(1);
    let first_stmt = b.stmt(StmtKind::Semi(first));
    let second = b.call_item(1);
    let second_stmt = b.stmt(StmtKind::Semi(second));
    let block = b.block(vec![first_stmt, second_stmt]);
    b.body_only(0, block);
    let empty = b.block(vec![]);
    b.body_only(1, empty);
    assert_eq!(b.detect(), Some(vec![]));
}

#[test]
fn a_long_chain_of_calls_is_walked_to_its_end() {
    // Each item calls the next, and the last one calls the first.
    let count = 200;
    let mut b = Builder::new();
    for item in 0..count {
        let call = b.call_item((item + 1) % count);
        let block = b.block_of(call);
        b.body_only(item, block);
    }
    let expected: Vec<CycledCallableInfo> = (0..count).map(body_cycled).collect();
    assert_eq!(b.detect(), Some(expected));
}

#[test]
fn a_long_chain_of_calls_without_a_cycle_reports_nothing() {
    let count = 200;
    let mut b = Builder::new();
    for item in 0..count {
        let block = if item + 1 < count {
            let call = b.call_item(item + 1);
            b.block_of(call)
        } else {
            b.block(vec![])
        };
        b.body_only(item, block);
    }
    assert_eq!(b.detect(), Some(vec![]));
}

#[test]
fn deeply_nested_expressions_are_within_the_budget() {
    // A call of the item itself, wrapped in a hundred blocks.
    let mut b = Builder::new();
    let mut expr = b.call_item(0);
    for _ in 0..100 {
        let block = b.block_of(expr);
        expr = b.expr(ExprKind::Block(block));
    }
    let block = b.block_of(expr);
    b.body_only(0, block);
    assert_eq!(b.detect(), Some(vec![body_cycled(0)]));
}

#[test]
fn mutual_recursion_is_reported_whatever_stands_for_the_callee() {
    // The first operation calls the second by a block that ends in its name,
    // the second calls the first by its name with the adjoint functor applied
    // twice.
    let mut b = Builder::new();
    let name = b.item_name(1);
    let inner = b.block_of(name);
    let callee = b.expr(ExprKind::Block(inner));
    let call_second = b.call(callee);
    let first_block = b.block_of(call_second);
    let name = b.item_name(0);
    let once = b.expr(ExprKind::UnOp(UnOp::Functor(Functor::Adj), name));
    let twice = b.expr(ExprKind::UnOp(UnOp::Functor(Functor::Adj), once));
    let call_first = b.call(twice);
    let second_block = b.block_of(call_first);
    b.body_only(0, first_block);
    b.body_only(1, second_block);
    assert_eq!(b.detect(), Some(vec![body_cycled(0), body_cycled(1)]));

    // Each calls the other by a closure.
    let mut b = Builder::new();
    let closure = b.expr(ExprKind::Closure(LocalItemId(1)));
    let call_second = b.call(closure);
    let first_block = b.block_of(call_second);
    let closure = b.expr(ExprKind::Closure(LocalItemId(0)));
    let call_first = b.call(closure);
    let second_block = b.block_of(call_first);
    b.body_only(0, first_block);
    b.body_only(1, second_block);
    assert_eq!(b.detect(), Some(vec![body_cycled(0), body_cycled(1)]));
}

#[test]
fn two_callables_that_call_each_other_are_the_whole_report() {
    // The callables have the keys 5 and 2; around them are an intrinsic
    // callable and items that are no callables.
    let mut b = Builder::new();
    let call_second = b.call_item(2);
    let first_block = b.block_of(call_second);
    let call_first = b.call_item(5);
    let second_block = b.block_of(call_first);
    b.body_only(5, first_block);
    b.body_only(2, second_block);
    b.intrinsic(0);
    b.package.items.insert(3, Item { kind: ItemKind::Namespace });
    b.package.items.insert(7, Item { kind: ItemKind::Ty });
    let report = b.detect().expect("the package should be well formed");
    assert_eq!(report.len(), 2);
    assert_eq!(report, vec![body_cycled(2), body_cycled(5)]);
}

#[test]
fn mutual_recursion_through_locals_is_reported() {
    // Each operation binds a local to the name of the other and calls the
    // local.
    let mut b = Builder::new();
    let mut blocks = vec![];
    for (node, other) in [(10, 1), (11, 0)] {
        let pat = b.pat(PatKind::Bind(NodeId(node)));
        let name = b.item_name(other);
        let binding = b.stmt(StmtKind::Local(pat, name));
        let local = b.expr(ExprKind::Var(Res::Local(NodeId(node))));
        let call = b.call(local);
        let last = b.stmt(StmtKind::Expr(call));
        blocks.push(b.block(vec![binding, last]));
    }
    b.body_only(0, blocks[0]);
    b.body_only(1, blocks[1]);
    assert_eq!(b.detect(), Some(vec![body_cycled(0), body_cycled(1)]));
}

#[test]
fn mutual_recursion_from_the_middle_of_the_bodies_is_the_whole_report() {
    // The first operation calls the second among the items of an array inside
    // a loop, the second calls the first in the condition of a conditional
    // that is bound to a local; neither call is the last statement.
    let mut b = Builder::new();
    let call_second = b.call_item(1);
    let lit = b.expr(ExprKind::Lit);
    let array = b.expr(ExprKind::Array(vec![lit, call_second]));
    let array_stmt = b.stmt(StmtKind::Semi(array));
    let loop_block = b.block(vec![array_stmt]);
    let cond = b.expr(ExprKind::Lit);
    let looping = b.expr(ExprKind::While(cond, loop_block));
    let loop_stmt = b.stmt(StmtKind::Semi(looping));
    let end = b.unit();
    let end_stmt = b.stmt(StmtKind::Expr(end));
    let first_block = b.block(vec![loop_stmt, end_stmt]);

    let call_first = b.call_item(0);
    let then = b.expr(ExprKind::Lit);
    let conditional = b.expr(ExprKind::If(call_first, then, None));
    let pat = b.pat(PatKind::Bind(NodeId(3)));
    let binding = b.stmt(StmtKind::Local(pat, conditional));
    let end = b.unit();
    let end_stmt = b.stmt(StmtKind::Semi(end));
    let second_block = b.block(vec![binding, end_stmt]);

    b.body_only(0, first_block);
    b.body_only(1, second_block);
    b.intrinsic(2);
    assert_eq!(b.detect(), Some(vec![body_cycled(0), body_cycled(1)]));
}

#[test]
fn a_binding_stays_known_when_another_local_is_bound() {
    // let f = <item 0>; let g = <literal>; f()
    let mut b = Builder::new();
    let name = b.item_name(0);
    let first_pat = b.pat(PatKind::Bind(NodeId(7)));
    let first = b.stmt(StmtKind::Local(first_pat, name));
    let lit = b.expr(ExprKind::Lit);
    let second_pat = b.pat(PatKind::Bind(NodeId(8)));
    let second = b.stmt(StmtKind::Local(second_pat, lit));
    let local = b.expr(ExprKind::Var(Res::Local(NodeId(7))));
    let call = b.call(local);
    let last = b.stmt(StmtKind::Expr(call));
    let block = b.block(vec![first, second, last]);
    b.body_only(0, block);
    assert_eq!(b.detect(), Some(vec![body_cycled(0)]));
}
