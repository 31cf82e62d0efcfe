//! What the walk over the call graph of a package computes.
//!
//! The walk visits the specializations of every callable with a body. It
//! follows each call whose callee it can resolve into the specialization that
//! is called, and keeps the specializations that it is inside of on a stack. A
//! specialization that is called while it is on the stack is on a cycle.
//!
//! Specializations are named by their number (see `spec_key`). The state of
//! the walk holds, by that number, the bindings known in each specialization
//! and the specializations found on a cycle. It also says whether the walk has
//! failed. The walk fails on a malformed package: one that refers to a block,
//! a statement, an expression, a pattern or a called item that it lacks; one
//! that calls a name that was not resolved, a namespace, or a specialization
//! that the callee lacks; and one in which the walk is nested deeper than its
//! budget allows, as where an expression contains itself.

use crate::compute_props::ParamIdx;
use crate::fir::BlockId;
use crate::fir::CallableImpl;
use crate::fir::ExprId;
use crate::fir::ExprKind;
use crate::fir::ItemKind;
use crate::fir::LocalItemId;
use crate::fir::NodeId;
use crate::fir::Package;
use crate::fir::PackageId;
use crate::fir::PatId;
use crate::fir::PatKind;
use crate::fir::Res;
use crate::fir::SpecDecl;
use crate::fir::Specializations;
use crate::fir::StmtId;
use crate::fir::StmtKind;
use crate::fir::StringComponent;
use crate::fir::UnOp;
use crate::selector::CallableSpecializationSelector;
use crate::selector::SpecializationSelector;
use vstd::prelude::*;

verus! {

/// What a local of a specialization stands for.
#[derive(Clone, Copy, Debug, PartialEq, Eq, Structural)]
pub enum CallableVariableKind {
    /// It was bound to the expression.
    Local(ExprId),
    /// It is the input parameter at the position.
    InputParam(ParamIdx),
}

/// A local of a specialization.
#[derive(Clone, Copy, Debug, PartialEq, Eq, Structural)]
pub struct CallableVariable {
    pub pat: PatId,
    pub node: NodeId,
    pub kind: CallableVariableKind,
}

/// The outcome of resolving a callee.
#[derive(Clone, Copy, Debug, PartialEq, Eq, Structural)]
pub enum Resolution {
    /// The callee is the specialization of a callable of this package.
    Resolved(CallableSpecializationSelector),
    /// The callee is the specialization of a callable of another package.
    Elsewhere(PackageId, CallableSpecializationSelector),
    /// The callee cannot be told without running the program.
    Unknown,
    /// The package is malformed.
    Malformed,
}

/// The bindings known in one specialization, by the number of the local.
pub type NodeMap = Map<usize, CallableVariable>;

/// The state of a walk.
pub struct WalkState {
    /// The bindings of each specialization that the walk has entered.
    pub node_maps: Map<usize, NodeMap>,
    /// The specializations found on a cycle.
    pub cycles: Set<usize>,
    /// Whether the walk has failed.
    pub failed: bool,
}

impl WalkState {
    /// The state before the walk.
    pub open spec fn initial() -> WalkState {
        WalkState { node_maps: Map::empty(), cycles: Set::empty(), failed: false }
    }

    /// The state, failed.
    pub open spec fn fail(self) -> WalkState {
        WalkState { failed: true, ..self }
    }

    /// The bindings of the specialization on top of the stack; none where the
    /// stack is empty or the specialization has none.
    pub open spec fn current_node_map(self, stack: Seq<usize>) -> NodeMap {
        if stack.len() > 0 && self.node_maps.contains_key(stack.last()) {
            self.node_maps[stack.last()]
        } else {
            Map::empty()
        }
    }

    /// The state with other bindings for the specialization on top of the
    /// stack; the same state where the stack is empty.
    pub open spec fn with_current_node_map(self, stack: Seq<usize>, node_map: NodeMap) -> WalkState {
        if stack.len() > 0 {
            WalkState { node_maps: self.node_maps.insert(stack.last(), node_map), ..self }
        } else {
            self
        }
    }
}

/// The number, or the largest `usize` where the number is larger.
pub open spec fn capped(number: nat) -> nat {
    if number > usize::MAX {
        usize::MAX as nat
    } else {
        number
    }
}

/// How many steps the resolution of a callee may take: one more than the
/// package has room for expressions and blocks.
pub open spec fn resolve_budget(package: &Package) -> nat {
    capped(package.exprs.spec_bound() + package.blocks.spec_bound() + 1)
}

/// How many blocks, statements, expressions, calls and patterns can be nested
/// in one another in a package of this size.
pub open spec fn nesting_limit(package: &Package) -> nat {
    2 * package.exprs.spec_bound() + package.stmts.spec_bound() + package.blocks.spec_bound()
        + package.pats.spec_bound() + 2
}

/// How deep the walk may be nested: as deep as the nesting limit allows in
/// each of the specializations that can be on the stack at once.
pub open spec fn walk_budget(package: &Package) -> nat {
    capped((4 * package.items.spec_bound() + 1) * nesting_limit(package))
}

/// The selector of the body of an item.
pub open spec fn body_of(callable: LocalItemId) -> CallableSpecializationSelector {
    CallableSpecializationSelector {
        callable,
        specialization_selector: SpecializationSelector::body(),
    }
}

/// The specialization that a callee expression stands for.
///
/// A block stands for what its last statement stands for, if that is an
/// expression without a semicolon. A closure stands for the body of its item.
/// A functor applied to an expression stands for the specialization that the
/// composition rule gives. A name of an item stands for the body of the item.
/// A local stands for what the expression that it was bound to stands for.
/// Everything else is unknown: an input parameter, a local without a known
/// binding, any other expression.
pub open spec fn resolve_callee(
    package: &Package,
    package_id: PackageId,
    node_map: NodeMap,
    expr: ExprId,
    fuel: nat,
) -> Resolution
    decreases fuel, 1nat,
{
    if fuel == 0 || !package.exprs@.contains_key(expr.0) {
        Resolution::Malformed
    } else {
        match package.exprs@[expr.0].kind {
            ExprKind::Block(block) => resolve_block(package, package_id, node_map, block, fuel),
            ExprKind::Closure(item) => Resolution::Resolved(body_of(item)),
            ExprKind::UnOp(UnOp::Functor(functor), operand) => match resolve_callee(
                package,
                package_id,
                node_map,
                operand,
                (fuel - 1) as nat,
            ) {
                Resolution::Resolved(callee) => Resolution::Resolved(
                    CallableSpecializationSelector {
                        callable: callee.callable,
                        specialization_selector: callee.specialization_selector.spec_apply(functor),
                    },
                ),
                Resolution::Elsewhere(other, callee) => Resolution::Elsewhere(
                    other,
                    CallableSpecializationSelector {
                        callable: callee.callable,
                        specialization_selector: callee.specialization_selector.spec_apply(functor),
                    },
                ),
                other => other,
            },
            ExprKind::Var(Res::Item(item)) => if item.package is None || item.package
                == Some(package_id) {
                Resolution::Resolved(body_of(item.item))
            } else {
                Resolution::Elsewhere(item.package->0, body_of(item.item))
            },
            ExprKind::Var(Res::Local(node)) => if node_map.contains_key(node.0) {
                match node_map[node.0].kind {
                    CallableVariableKind::InputParam(_) => Resolution::Unknown,
                    CallableVariableKind::Local(bound) => resolve_callee(
                        package,
                        package_id,
                        node_map,
                        bound,
                        (fuel - 1) as nat,
                    ),
                }
            } else {
                Resolution::Unknown
            },
            ExprKind::Var(Res::Unresolved) => Resolution::Malformed,
            _ => Resolution::Unknown,
        }
    }
}

/// The specialization that a block in the place of a callee stands for.
pub open spec fn resolve_block(
    package: &Package,
    package_id: PackageId,
    node_map: NodeMap,
    block: BlockId,
    fuel: nat,
) -> Resolution
    decreases fuel, 0nat,
{
    if fuel == 0 || !package.blocks@.contains_key(block.0) {
        Resolution::Malformed
    } else {
        let stmts = package.blocks@[block.0].stmts@;
        if stmts.len() == 0 {
            Resolution::Unknown
        } else if !package.stmts@.contains_key(stmts.last().0) {
            Resolution::Malformed
        } else {
            match package.stmts@[stmts.last().0].kind {
                StmtKind::Expr(value) => resolve_callee(
                    package,
                    package_id,
                    node_map,
                    value,
                    (fuel - 1) as nat,
                ),
                _ => Resolution::Unknown,
            }
        }
    }
}

/// The bindings after the pattern is bound to the expression, or nothing
/// where the package is malformed. A binding is recorded under its local. A
/// tuple pattern is bound item by item to a tuple expression. Nothing else is
/// recorded.
pub open spec fn bind_pattern(
    package: &Package,
    node_map: NodeMap,
    pat: PatId,
    expr: ExprId,
    fuel: nat,
) -> Option<NodeMap>
    decreases fuel, 0nat,
{
    if fuel == 0 || !package.pats@.contains_key(pat.0) {
        None
    } else {
        match package.pats@[pat.0].kind {
            PatKind::Bind(node) => Some(
                node_map.insert(
                    node.0,
                    CallableVariable { pat, node, kind: CallableVariableKind::Local(expr) },
                ),
            ),
            PatKind::Tuple(pats) => if !package.exprs@.contains_key(expr.0) {
                None
            } else {
                match package.exprs@[expr.0].kind {
                    ExprKind::Tuple(exprs) => bind_patterns(
                        package,
                        node_map,
                        pats@,
                        exprs@,
                        if pats@.len() <= exprs@.len() {
                            pats@.len()
                        } else {
                            exprs@.len()
                        },
                        (fuel - 1) as nat,
                    ),
                    _ => Some(node_map),
                }
            },
            PatKind::Discard => Some(node_map),
        }
    }
}

/// The bindings after the first `count` patterns are bound to the first
/// `count` expressions.
pub open spec fn bind_patterns(
    package: &Package,
    node_map: NodeMap,
    pats: Seq<PatId>,
    exprs: Seq<ExprId>,
    count: nat,
    fuel: nat,
) -> Option<NodeMap>
    decreases fuel, count,
{
    if count == 0 || count > pats.len() || count > exprs.len() {
        Some(node_map)
    } else {
        match bind_patterns(package, node_map, pats, exprs, (count - 1) as nat, fuel) {
            Some(bound) => bind_pattern(package, bound, pats[count - 1], exprs[count - 1], fuel),
            None => None,
        }
    }
}

/// The bindings of the input parameters among the first `count` items of a
/// tuple pattern, or nothing where the package lacks one of the items.
pub open spec fn input_params_upto(package: &Package, pats: Seq<PatId>, count: nat) -> Option<
    NodeMap,
>
    decreases count,
{
    if count == 0 || count > pats.len() {
        Some(Map::empty())
    } else {
        match input_params_upto(package, pats, (count - 1) as nat) {
            Some(params) => if !package.pats@.contains_key(pats[count - 1].0) {
                None
            } else {
                match package.pats@[pats[count - 1].0].kind {
                    PatKind::Bind(node) => Some(
                        params.insert(
                            node.0,
                            CallableVariable {
                                pat: pats[count - 1],
                                node,
                                kind: CallableVariableKind::InputParam(
                                    ParamIdx((count - 1) as usize),
                                ),
                            },
                        ),
                    ),
                    _ => Some(params),
                }
            },
            None => None,
        }
    }
}

/// The bindings of the input parameters of a callable with the input
/// pattern, or nothing where the package lacks the pattern. A binding is the
/// one parameter. Each binding among the items of a tuple pattern is a
/// parameter, at the position of the item.
pub open spec fn input_params(package: &Package, input: PatId) -> Option<NodeMap> {
    if !package.pats@.contains_key(input.0) {
        None
    } else {
        match package.pats@[input.0].kind {
            PatKind::Bind(node) => Some(
                Map::empty().insert(
                    node.0,
                    CallableVariable {
                        pat: input,
                        node,
                        kind: CallableVariableKind::InputParam(ParamIdx(0)),
                    },
                ),
            ),
            PatKind::Tuple(pats) => input_params_upto(package, pats@, pats@.len()),
            PatKind::Discard => Some(Map::empty()),
        }
    }
}

/// The state after the walk of an expression.
pub open spec fn walk_expr(
    package: &Package,
    package_id: PackageId,
    stack: Seq<usize>,
    state: WalkState,
    expr: ExprId,
    fuel: nat,
) -> WalkState
    decreases fuel, 0nat,
{
    if state.failed {
        state
    } else if fuel == 0 || !package.exprs@.contains_key(expr.0) {
        state.fail()
    } else {
        let rest = (fuel - 1) as nat;
        match package.exprs@[expr.0].kind {
            ExprKind::Array(exprs) | ExprKind::Tuple(exprs) => walk_exprs(
                package,
                package_id,
                stack,
                state,
                exprs@,
                exprs@.len(),
                rest,
            ),
            ExprKind::ArrayRepeat(first, second)
            | ExprKind::Assign(first, second)
            | ExprKind::AssignOp(first, second)
            | ExprKind::BinOp(first, second)
            | ExprKind::AssignField(first, second)
            | ExprKind::UpdateField(first, second)
            | ExprKind::Index(first, second) => walk_expr(
                package,
                package_id,
                stack,
                walk_expr(package, package_id, stack, state, first, rest),
                second,
                rest,
            ),
            ExprKind::AssignIndex(first, second, third)
            | ExprKind::UpdateIndex(first, second, third) => walk_expr(
                package,
                package_id,
                stack,
                walk_expr(
                    package,
                    package_id,
                    stack,
                    walk_expr(package, package_id, stack, state, first, rest),
                    second,
                    rest,
                ),
                third,
                rest,
            ),
            ExprKind::Block(block) => walk_block(package, package_id, stack, state, block, rest),
            ExprKind::Call(callee, args) => walk_call(
                package,
                package_id,
                stack,
                state,
                callee,
                args,
                rest,
            ),
            ExprKind::Fail(inner)
            | ExprKind::Field(inner)
            | ExprKind::Return(inner)
            | ExprKind::UnOp(_, inner) => walk_expr(package, package_id, stack, state, inner, rest),
            ExprKind::If(cond, body, otherwise) => walk_optional_expr(
                package,
                package_id,
                stack,
                walk_expr(
                    package,
                    package_id,
                    stack,
                    walk_expr(package, package_id, stack, state, cond, rest),
                    body,
                    rest,
                ),
                otherwise,
                rest,
            ),
            ExprKind::Range(start, step, end) => walk_optional_expr(
                package,
                package_id,
                stack,
                walk_optional_expr(
                    package,
                    package_id,
                    stack,
                    walk_optional_expr(package, package_id, stack, state, start, rest),
                    step,
                    rest,
                ),
                end,
                rest,
            ),
            ExprKind::String(components) => walk_components(
                package,
                package_id,
                stack,
                state,
                components@,
                components@.len(),
                rest,
            ),
            ExprKind::While(cond, block) => walk_block(
                package,
                package_id,
                stack,
                walk_expr(package, package_id, stack, state, cond, rest),
                block,
                rest,
            ),
            ExprKind::Closure(_) | ExprKind::Hole | ExprKind::Lit | ExprKind::Var(_) => state,
        }
    }
}

/// The state after the walk of an expression that may be absent.
pub open spec fn walk_optional_expr(
    package: &Package,
    package_id: PackageId,
    stack: Seq<usize>,
    state: WalkState,
    expr: Option<ExprId>,
    fuel: nat,
) -> WalkState
    decreases fuel, 1nat,
{
    match expr {
        Some(expr) => walk_expr(package, package_id, stack, state, expr, fuel),
        None => state,
    }
}

/// The state after the walk of the first `count` expressions, in their order.
pub open spec fn walk_exprs(
    package: &Package,
    package_id: PackageId,
    stack: Seq<usize>,
    state: WalkState,
    exprs: Seq<ExprId>,
    count: nat,
    fuel: nat,
) -> WalkState
    decreases fuel, count,
{
    if count == 0 || count > exprs.len() {
        state
    } else {
        walk_expr(
            package,
            package_id,
            stack,
            walk_exprs(package, package_id, stack, state, exprs, (count - 1) as nat, fuel),
            exprs[count - 1],
            fuel,
        )
    }
}

/// The state after the walk of the expressions among the first `count` parts
/// of an interpolated string, in their order.
pub open spec fn walk_components(
    package: &Package,
    package_id: PackageId,
    stack: Seq<usize>,
    state: WalkState,
    components: Seq<StringComponent>,
    count: nat,
    fuel: nat,
) -> WalkState
    decreases fuel, count,
{
    if count == 0 || count > components.len() {
        state
    } else {
        let before = walk_components(
            package,
            package_id,
            stack,
            state,
            components,
            (count - 1) as nat,
            fuel,
        );
        match components[count - 1] {
            StringComponent::Expr(expr) => walk_expr(
                package,
                package_id,
                stack,
                before,
                expr,
                fuel,
            ),
            StringComponent::Lit => before,
        }
    }
}

/// The state after the walk of a block: of its statements, in their order.
pub open spec fn walk_block(
    package: &Package,
    package_id: PackageId,
    stack: Seq<usize>,
    state: WalkState,
    block: BlockId,
    fuel: nat,
) -> WalkState
    decreases fuel, 0nat,
{
    if state.failed {
        state
    } else if fuel == 0 || !package.blocks@.contains_key(block.0) {
        state.fail()
    } else {
        walk_stmts(
            package,
            package_id,
            stack,
            state,
            package.blocks@[block.0].stmts@,
            package.blocks@[block.0].stmts@.len(),
            (fuel - 1) as nat,
        )
    }
}

/// The state after the walk of the first `count` statements, in their order.
pub open spec fn walk_stmts(
    package: &Package,
    package_id: PackageId,
    stack: Seq<usize>,
    state: WalkState,
    stmts: Seq<StmtId>,
    count: nat,
    fuel: nat,
) -> WalkState
    decreases fuel, count,
{
    if count == 0 || count > stmts.len() {
        state
    } else {
        walk_stmt(
            package,
            package_id,
            stack,
            walk_stmts(package, package_id, stack, state, stmts, (count - 1) as nat, fuel),
            stmts[count - 1],
            fuel,
        )
    }
}

/// The state after the walk of a statement. A binding is recorded before the
/// expression that it binds is walked. An item declared in a block is passed
/// over.
pub open spec fn walk_stmt(
    package: &Package,
    package_id: PackageId,
    stack: Seq<usize>,
    state: WalkState,
    stmt: StmtId,
    fuel: nat,
) -> WalkState
    decreases fuel, 0nat,
{
    if state.failed {
        state
    } else if fuel == 0 || !package.stmts@.contains_key(stmt.0) {
        state.fail()
    } else {
        let rest = (fuel - 1) as nat;
        match package.stmts@[stmt.0].kind {
            StmtKind::Item(_) => state,
            StmtKind::Expr(expr) | StmtKind::Semi(expr) => walk_expr(
                package,
                package_id,
                stack,
                state,
                expr,
                rest,
            ),
            StmtKind::Local(pat, expr) => match bind_pattern(
                package,
                state.current_node_map(stack),
                pat,
                expr,
                rest,
            ) {
                Some(node_map) => walk_expr(
                    package,
                    package_id,
                    stack,
                    state.with_current_node_map(stack, node_map),
                    expr,
                    rest,
                ),
                None => state.fail(),
            },
        }
    }
}

/// The state after the walk of a call: of the arguments, and then, where the
/// callee resolves to a callable of this package, of the specialization that
/// is called. Calls into other packages are not followed.
pub open spec fn walk_call(
    package: &Package,
    package_id: PackageId,
    stack: Seq<usize>,
    state: WalkState,
    callee: ExprId,
    args: ExprId,
    fuel: nat,
) -> WalkState
    decreases fuel, 0nat,
{
    if state.failed {
        state
    } else if fuel == 0 {
        state.fail()
    } else {
        let rest = (fuel - 1) as nat;
        let after_args = walk_expr(package, package_id, stack, state, args, rest);
        if after_args.failed {
            after_args
        } else {
            match resolve_callee(
                package,
                package_id,
                after_args.current_node_map(stack),
                callee,
                resolve_budget(package),
            ) {
                Resolution::Resolved(specialization) => walk_callable(
                    package,
                    package_id,
                    stack,
                    after_args,
                    specialization,
                    rest,
                ),
                Resolution::Elsewhere(_, _) | Resolution::Unknown => after_args,
                Resolution::Malformed => after_args.fail(),
            }
        }
    }
}

/// The state after the walk of a specialization that is called. The walk
/// fails where the package lacks the item or the specialization, and where
/// the item is a namespace. A call of an intrinsic callable and a call of a
/// type change nothing.
pub open spec fn walk_callable(
    package: &Package,
    package_id: PackageId,
    stack: Seq<usize>,
    state: WalkState,
    specialization: CallableSpecializationSelector,
    fuel: nat,
) -> WalkState
    decreases fuel, 2nat,
{
    if state.failed {
        state
    } else if !package.items@.contains_key(specialization.callable.0) {
        state.fail()
    } else {
        match package.items@[specialization.callable.0].kind {
            ItemKind::Callable(callable) => match callable.implementation {
                CallableImpl::Intrinsic => state,
                CallableImpl::Spec(specs) => match specialization.specialization_selector.spec_select(
                    specs,
                ) {
                    Some(decl) => walk_spec_decl(
                        package,
                        package_id,
                        stack,
                        state,
                        specialization,
                        callable.input,
                        decl,
                        fuel,
                    ),
                    None => state.fail(),
                },
            },
            ItemKind::Namespace => state.fail(),
            ItemKind::Ty => state,
        }
    }
}

/// The state after the walk of a specialization. A specialization that is on
/// the stack is on a cycle; it is recorded and not entered again. Any other is
/// put on the stack while its block is walked. Its input parameters are
/// recorded as its first bindings when it is entered for the first time.
pub open spec fn walk_spec_decl(
    package: &Package,
    package_id: PackageId,
    stack: Seq<usize>,
    state: WalkState,
    specialization: CallableSpecializationSelector,
    input: PatId,
    decl: SpecDecl,
    fuel: nat,
) -> WalkState
    decreases fuel, 1nat,
{
    let key = specialization.spec_key();
    if state.failed {
        state
    } else if stack.contains(key) {
        WalkState { cycles: state.cycles.insert(key), ..state }
    } else if fuel == 0 {
        state.fail()
    } else if state.node_maps.contains_key(key) {
        walk_block(package, package_id, stack.push(key), state, decl.block, (fuel - 1) as nat)
    } else {
        match input_params(package, input) {
            Some(params) => walk_block(
                package,
                package_id,
                stack.push(key),
                WalkState { node_maps: state.node_maps.insert(key, params), ..state },
                decl.block,
                (fuel - 1) as nat,
            ),
            None => state.fail(),
        }
    }
}

/// The state after the walk of an optional specialization of an item.
pub open spec fn walk_optional_spec_decl(
    package: &Package,
    package_id: PackageId,
    state: WalkState,
    specialization: CallableSpecializationSelector,
    input: PatId,
    decl: Option<SpecDecl>,
) -> WalkState {
    match decl {
        Some(decl) => walk_spec_decl(
            package,
            package_id,
            Seq::empty(),
            state,
            specialization,
            input,
            decl,
            walk_budget(package),
        ),
        None => state,
    }
}

/// The selector of a specialization of an item.
pub open spec fn selector_of(
    callable: LocalItemId,
    adjoint: bool,
    controlled: bool,
) -> CallableSpecializationSelector {
    CallableSpecializationSelector {
        callable,
        specialization_selector: SpecializationSelector { adjoint, controlled },
    }
}

/// The state after the walk of an item: of the body and of the adjoint, the
/// controlled and the controlled adjoint specialization that it has, in that
/// order, each from an empty stack. Only callables with a body are walked.
pub open spec fn walk_item(
    package: &Package,
    package_id: PackageId,
    state: WalkState,
    item: LocalItemId,
) -> WalkState {
    if !package.items@.contains_key(item.0) {
        state
    } else {
        match package.items@[item.0].kind {
            ItemKind::Callable(callable) => match callable.implementation {
                CallableImpl::Intrinsic => state,
                CallableImpl::Spec(specs) => {
                    let after_body = walk_optional_spec_decl(
                        package,
                        package_id,
                        state,
                        selector_of(item, false, false),
                        callable.input,
                        Some(specs.body),
                    );
                    let after_adj = walk_optional_spec_decl(
                        package,
                        package_id,
                        after_body,
                        selector_of(item, true, false),
                        callable.input,
                        specs.adj,
                    );
                    let after_ctl = walk_optional_spec_decl(
                        package,
                        package_id,
                        after_adj,
                        selector_of(item, false, true),
                        callable.input,
                        specs.ctl,
                    );
                    walk_optional_spec_decl(
                        package,
                        package_id,
                        after_ctl,
                        selector_of(item, true, true),
                        callable.input,
                        specs.ctl_adj,
                    )
                },
            },
            _ => state,
        }
    }
}

/// The state after the walk of the items with a key below `count`, in the
/// order of their keys.
pub open spec fn walk_items(package: &Package, package_id: PackageId, count: nat) -> WalkState
    decreases count,
{
    if count == 0 {
        WalkState::initial()
    } else {
        walk_item(
            package,
            package_id,
            walk_items(package, package_id, (count - 1) as nat),
            LocalItemId((count - 1) as usize),
        )
    }
}

/// The state after the walk of the package.
pub open spec fn walk_package(package: &Package, package_id: PackageId) -> WalkState {
    walk_items(package, package_id, package.items.spec_bound())
}

/// A callable with a specialization on a cycle, and which of its
/// specializations are on one. A specialization that the callable lacks has
/// no flag.
#[derive(Clone, Copy, Debug, PartialEq, Eq, Structural)]
pub struct CycledCallableInfo {
    pub id: LocalItemId,
    pub is_body_cycled: bool,
    pub is_adj_cycled: Option<bool>,
    pub is_ctl_cycled: Option<bool>,
    pub is_ctl_adj_cycled: Option<bool>,
}

/// Whether the specialization of the callable is among the specializations
/// found on a cycle.
pub open spec fn is_on_cycle(
    cycles: Set<usize>,
    callable: LocalItemId,
    adjoint: bool,
    controlled: bool,
) -> bool {
    cycles.contains(selector_of(callable, adjoint, controlled).spec_key())
}

/// The flag of a specialization: none where the callable lacks it.
pub open spec fn cycle_flag(decl: Option<SpecDecl>, cycled: bool) -> Option<bool> {
    match decl {
        Some(_) => Some(cycled),
        None => None,
    }
}

/// What is reported of a callable with the specializations `specs`.
pub open spec fn cycled_info(
    specs: Specializations,
    cycles: Set<usize>,
    callable: LocalItemId,
) -> CycledCallableInfo {
    CycledCallableInfo {
        id: callable,
        is_body_cycled: is_on_cycle(cycles, callable, false, false),
        is_adj_cycled: cycle_flag(specs.adj, is_on_cycle(cycles, callable, true, false)),
        is_ctl_cycled: cycle_flag(specs.ctl, is_on_cycle(cycles, callable, false, true)),
        is_ctl_adj_cycled: cycle_flag(specs.ctl_adj, is_on_cycle(cycles, callable, true, true)),
    }
}

/// Whether one of the specializations that the callable has is on a cycle.
pub open spec fn has_cycle(specs: Specializations, cycles: Set<usize>, callable: LocalItemId) -> bool {
    ||| is_on_cycle(cycles, callable, false, false)
    ||| (specs.adj is Some && is_on_cycle(cycles, callable, true, false))
    ||| (specs.ctl is Some && is_on_cycle(cycles, callable, false, true))
    ||| (specs.ctl_adj is Some && is_on_cycle(cycles, callable, true, true))
}

/// Whether the item is a callable with a body that has a specialization on a
/// cycle.
pub open spec fn is_cycled_callable(package: &Package, cycles: Set<usize>, item: LocalItemId) -> bool {
    &&& package.items@.contains_key(item.0)
    &&& package.items@[item.0].kind matches ItemKind::Callable(callable)
    &&& callable.implementation matches CallableImpl::Spec(specs)
    &&& has_cycle(specs, cycles, item)
}

/// What is reported of the callables with a key below `count`: one entry for
/// each callable with a specialization on a cycle, in the order of the keys.
pub open spec fn cycled_callables(package: &Package, cycles: Set<usize>, count: nat) -> Seq<
    CycledCallableInfo,
>
    decreases count,
{
    if count == 0 {
        Seq::empty()
    } else {
        let before = cycled_callables(package, cycles, (count - 1) as nat);
        let item = LocalItemId((count - 1) as usize);
        if is_cycled_callable(package, cycles, item) {
            before.push(
                cycled_info(
                    package.items@[item.0].kind->Callable_0.implementation->Spec_0,
                    cycles,
                    item,
                ),
            )
        } else {
            before
        }
    }
}

/// The callables of the package that are on a cycle of its call graph, or
/// nothing where the walk of the package fails.
pub open spec fn detection(package: &Package, package_id: PackageId) -> Option<
    Seq<CycledCallableInfo>,
> {
    let state = walk_package(package, package_id);
    if state.failed {
        None
    } else {
        Some(cycled_callables(package, state.cycles, package.items.spec_bound()))
    }
}

/// Whether the report names the callable as one whose body is on a cycle.
pub open spec fn reports_body_cycle(report: Seq<CycledCallableInfo>, callable: LocalItemId) -> bool {
    exists|i: int|
        #![trigger report[i]]
        0 <= i < report.len() && report[i].id == callable && report[i].is_body_cycled
}

/// The walk of an expression leaves a failed state as it is.
pub proof fn lemma_walk_expr_keeps_failure(
    package: &Package,
    package_id: PackageId,
    stack: Seq<usize>,
    state: WalkState,
    expr: ExprId,
    fuel: nat,
)
    ensures
        state.failed ==> walk_expr(package, package_id, stack, state, expr, fuel) == state,
        state.failed ==> walk_optional_expr(package, package_id, stack, state, Some(expr), fuel)
            == state,
{
}

/// The walk of a statement leaves a failed state as it is.
pub proof fn lemma_walk_stmt_keeps_failure(
    package: &Package,
    package_id: PackageId,
    stack: Seq<usize>,
    state: WalkState,
    stmt: StmtId,
    fuel: nat,
)
    ensures
        state.failed ==> walk_stmt(package, package_id, stack, state, stmt, fuel) == state,
{
}

/// The walk of an item leaves a failed state as it is.
pub proof fn lemma_walk_item_keeps_failure(
    package: &Package,
    package_id: PackageId,
    state: WalkState,
    item: LocalItemId,
)
    ensures
        state.failed ==> walk_item(package, package_id, state, item) == state,
{
}

} // verus!
