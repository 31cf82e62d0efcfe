//! What holds of the walk over the call graph of every package: what it has
//! found stays found, callables that call each other are reported, and what a
//! walk that does not fail gives does not depend on its budget.

use crate::cycle_model::bind_pattern;
use crate::cycle_model::bind_patterns;
use crate::cycle_model::body_of;
use crate::cycle_model::resolve_block;
use crate::cycle_model::resolve_budget;
use crate::cycle_model::resolve_callee;
use crate::cycle_model::CallableVariableKind;
use crate::cycle_model::NodeMap;
use crate::cycle_model::Resolution;
use crate::fir::PatKind;
use crate::fir::UnOp;
use crate::cycle_model::cycled_callables;
use crate::cycle_model::cycled_info;
use crate::cycle_model::detection;
use crate::cycle_model::is_cycled_callable;
use crate::cycle_model::is_on_cycle;
use crate::cycle_model::reports_body_cycle;
use crate::cycle_model::selector_of;
use crate::cycle_model::walk_block;
use crate::cycle_model::walk_budget;
use crate::cycle_model::walk_call;
use crate::cycle_model::walk_callable;
use crate::cycle_model::walk_components;
use crate::cycle_model::walk_expr;
use crate::cycle_model::walk_exprs;
use crate::cycle_model::walk_item;
use crate::cycle_model::walk_items;
use crate::cycle_model::walk_optional_expr;
use crate::cycle_model::walk_optional_spec_decl;
use crate::cycle_model::walk_package;
use crate::cycle_model::walk_spec_decl;
use crate::cycle_model::walk_stmt;
use crate::cycle_model::walk_stmts;
use crate::cycle_model::WalkState;
use crate::fir::BlockId;
use crate::fir::CallableImpl;
use crate::fir::ExprId;
use crate::fir::ExprKind;
use crate::fir::ItemKind;
use crate::fir::LocalItemId;
use crate::fir::Package;
use crate::fir::PackageId;
use crate::fir::PatId;
use crate::fir::Res;
use crate::fir::SpecDecl;
use crate::fir::StmtId;
use crate::fir::StmtKind;
use crate::fir::StringComponent;
use crate::selector::CallableSpecializationSelector;
use vstd::prelude::*;

verus! {

/// Whether a later state of a walk keeps what an earlier state has found:
/// the specializations on a cycle, and that the walk has failed.
pub open spec fn extends(after: WalkState, before: WalkState) -> bool {
    &&& before.cycles.subset_of(after.cycles)
    &&& before.failed ==> after.failed
}

/// The walk of an expression keeps what was found.
pub proof fn lemma_walk_expr_extends(
    package: &Package,
    package_id: PackageId,
    stack: Seq<usize>,
    state: WalkState,
    expr: ExprId,
    fuel: nat,
)
    ensures
        extends(walk_expr(package, package_id, stack, state, expr, fuel), state),
    decreases fuel, 0nat,
{
    if !state.failed && fuel > 0 && package.exprs@.contains_key(expr.0) {
        let rest = (fuel - 1) as nat;
        match package.exprs@[expr.0].kind {
            ExprKind::Array(exprs) | ExprKind::Tuple(exprs) => {
                lemma_walk_exprs_extends(
                    package,
                    package_id,
                    stack,
                    state,
                    exprs@,
                    exprs@.len(),
                    rest,
                );
            },
            ExprKind::ArrayRepeat(first, second)
            | ExprKind::Assign(first, second)
            | ExprKind::AssignOp(first, second)
            | ExprKind::BinOp(first, second)
            | ExprKind::AssignField(first, second)
            | ExprKind::UpdateField(first, second)
            | ExprKind::Index(first, second) => {
                let one = walk_expr(package, package_id, stack, state, first, rest);
                lemma_walk_expr_extends(package, package_id, stack, state, first, rest);
                lemma_walk_expr_extends(package, package_id, stack, one, second, rest);
            },
            ExprKind::AssignIndex(first, second, third)
            | ExprKind::UpdateIndex(first, second, third) => {
                let one = walk_expr(package, package_id, stack, state, first, rest);
                let two = walk_expr(package, package_id, stack, one, second, rest);
                lemma_walk_expr_extends(package, package_id, stack, state, first, rest);
                lemma_walk_expr_extends(package, package_id, stack, one, second, rest);
                lemma_walk_expr_extends(package, package_id, stack, two, third, rest);
            },
            ExprKind::Block(block) => {
                lemma_walk_block_extends(package, package_id, stack, state, block, rest);
            },
            ExprKind::Call(callee, args) => {
                lemma_walk_call_extends(package, package_id, stack, state, callee, args, rest);
            },
            ExprKind::Fail(inner)
            | ExprKind::Field(inner)
            | ExprKind::Return(inner)
            | ExprKind::UnOp(_, inner) => {
                lemma_walk_expr_extends(package, package_id, stack, state, inner, rest);
            },
            ExprKind::If(cond, body, otherwise) => {
                let one = walk_expr(package, package_id, stack, state, cond, rest);
                let two = walk_expr(package, package_id, stack, one, body, rest);
                lemma_walk_expr_extends(package, package_id, stack, state, cond, rest);
                lemma_walk_expr_extends(package, package_id, stack, one, body, rest);
                lemma_walk_optional_expr_extends(package, package_id, stack, two, otherwise, rest);
            },
            ExprKind::Range(start, step, end) => {
                let one = walk_optional_expr(package, package_id, stack, state, start, rest);
                let two = walk_optional_expr(package, package_id, stack, one, step, rest);
                lemma_walk_optional_expr_extends(package, package_id, stack, state, start, rest);
                lemma_walk_optional_expr_extends(package, package_id, stack, one, step, rest);
                lemma_walk_optional_expr_extends(package, package_id, stack, two, end, rest);
            },
            ExprKind::String(components) => {
                lemma_walk_components_extends(
                    package,
                    package_id,
                    stack,
                    state,
                    components@,
                    components@.len(),
                    rest,
                );
            },
            ExprKind::While(cond, block) => {
                let one = walk_expr(package, package_id, stack, state, cond, rest);
                lemma_walk_expr_extends(package, package_id, stack, state, cond, rest);
                lemma_walk_block_extends(package, package_id, stack, one, block, rest);
            },
            ExprKind::Closure(_) | ExprKind::Hole | ExprKind::Lit | ExprKind::Var(_) => {},
        }
    }
}

/// The walk of an expression that may be absent keeps what was found.
pub proof fn lemma_walk_optional_expr_extends(
    package: &Package,
    package_id: PackageId,
    stack: Seq<usize>,
    state: WalkState,
    expr: Option<ExprId>,
    fuel: nat,
)
    ensures
        extends(walk_optional_expr(package, package_id, stack, state, expr, fuel), state),
    decreases fuel, 1nat,
{
    match expr {
        Some(expr) => {
            lemma_walk_expr_extends(package, package_id, stack, state, expr, fuel);
        },
        None => {},
    }
}

/// The walk of expressions keeps what was found.
pub proof fn lemma_walk_exprs_extends(
    package: &Package,
    package_id: PackageId,
    stack: Seq<usize>,
    state: WalkState,
    exprs: Seq<ExprId>,
    count: nat,
    fuel: nat,
)
    ensures
        extends(walk_exprs(package, package_id, stack, state, exprs, count, fuel), state),
    decreases fuel, count,
{
    if !(count == 0 || count > exprs.len()) {
        let before = walk_exprs(package, package_id, stack, state, exprs, (count - 1) as nat, fuel);
        lemma_walk_exprs_extends(
            package,
            package_id,
            stack,
            state,
            exprs,
            (count - 1) as nat,
            fuel,
        );
        lemma_walk_expr_extends(package, package_id, stack, before, exprs[count - 1], fuel);
    }
}

/// The walk of the parts of an interpolated string keeps what was found.
pub proof fn lemma_walk_components_extends(
    package: &Package,
    package_id: PackageId,
    stack: Seq<usize>,
    state: WalkState,
    components: Seq<StringComponent>,
    count: nat,
    fuel: nat,
)
    ensures
        extends(
            walk_components(package, package_id, stack, state, components, count, fuel),
            state,
        ),
    decreases fuel, count,
{
    if !(count == 0 || count > components.len()) {
        let before = walk_components(
            package,
            package_id,
            stack,
            state,
            components,
            (count - 1) as nat,
            fuel,
        );
        lemma_walk_components_extends(
            package,
            package_id,
            stack,
            state,
            components,
            (count - 1) as nat,
            fuel,
        );
        match components[count - 1] {
            StringComponent::Expr(expr) => {
                lemma_walk_expr_extends(package, package_id, stack, before, expr, fuel);
            },
            StringComponent::Lit => {},
        }
    }
}

/// The walk of a block keeps what was found.
pub proof fn lemma_walk_block_extends(
    package: &Package,
    package_id: PackageId,
    stack: Seq<usize>,
    state: WalkState,
    block: BlockId,
    fuel: nat,
)
    ensures
        extends(walk_block(package, package_id, stack, state, block, fuel), state),
    decreases fuel, 0nat,
{
    if !state.failed && fuel > 0 && package.blocks@.contains_key(block.0) {
        lemma_walk_stmts_extends(
            package,
            package_id,
            stack,
            state,
            package.blocks@[block.0].stmts@,
            package.blocks@[block.0].stmts@.len(),
            (fuel - 1) as nat,
        );
    }
}

/// The walk of statements keeps what was found.
pub proof fn lemma_walk_stmts_extends(
    package: &Package,
    package_id: PackageId,
    stack: Seq<usize>,
    state: WalkState,
    stmts: Seq<StmtId>,
    count: nat,
    fuel: nat,
)
    ensures
        extends(walk_stmts(package, package_id, stack, state, stmts, count, fuel), state),
    decreases fuel, count,
{
    if !(count == 0 || count > stmts.len()) {
        let before = walk_stmts(package, package_id, stack, state, stmts, (count - 1) as nat, fuel);
        lemma_walk_stmts_extends(
            package,
            package_id,
            stack,
            state,
            stmts,
            (count - 1) as nat,
            fuel,
        );
        lemma_walk_stmt_extends(package, package_id, stack, before, stmts[count - 1], fuel);
    }
}

/// The walk of a statement keeps what was found.
pub proof fn lemma_walk_stmt_extends(
    package: &Package,
    package_id: PackageId,
    stack: Seq<usize>,
    state: WalkState,
    stmt: StmtId,
    fuel: nat,
)
    ensures
        extends(walk_stmt(package, package_id, stack, state, stmt, fuel), state),
    decreases fuel, 0nat,
{
    if !state.failed && fuel > 0 && package.stmts@.contains_key(stmt.0) {
        let rest = (fuel - 1) as nat;
        match package.stmts@[stmt.0].kind {
            StmtKind::Item(_) => {},
            StmtKind::Expr(expr) | StmtKind::Semi(expr) => {
                lemma_walk_expr_extends(package, package_id, stack, state, expr, rest);
            },
            StmtKind::Local(pat, expr) => {
                match crate::cycle_model::bind_pattern(
                    package,
                    state.current_node_map(stack),
                    pat,
                    expr,
                    rest,
                ) {
                    Some(node_map) => {
                        lemma_walk_expr_extends(
                            package,
                            package_id,
                            stack,
                            state.with_current_node_map(stack, node_map),
                            expr,
                            rest,
                        );
                    },
                    None => {},
                }
            },
        }
    }
}

/// The walk of a call keeps what was found.
pub proof fn lemma_walk_call_extends(
    package: &Package,
    package_id: PackageId,
    stack: Seq<usize>,
    state: WalkState,
    callee: ExprId,
    args: ExprId,
    fuel: nat,
)
    ensures
        extends(walk_call(package, package_id, stack, state, callee, args, fuel), state),
    decreases fuel, 0nat,
{
    if !state.failed && fuel > 0 {
        let rest = (fuel - 1) as nat;
        let after_args = walk_expr(package, package_id, stack, state, args, rest);
        lemma_walk_expr_extends(package, package_id, stack, state, args, rest);
        if !after_args.failed {
            match crate::cycle_model::resolve_callee(
                package,
                package_id,
                after_args.current_node_map(stack),
                callee,
                crate::cycle_model::resolve_budget(package),
            ) {
                crate::cycle_model::Resolution::Resolved(specialization) => {
                    lemma_walk_callable_extends(
                        package,
                        package_id,
                        stack,
                        after_args,
                        specialization,
                        rest,
                    );
                },
                _ => {},
            }
        }
    }
}

/// The walk of a specialization that is called keeps what was found.
pub proof fn lemma_walk_callable_extends(
    package: &Package,
    package_id: PackageId,
    stack: Seq<usize>,
    state: WalkState,
    specialization: CallableSpecializationSelector,
    fuel: nat,
)
    ensures
        extends(walk_callable(package, package_id, stack, state, specialization, fuel), state),
    decreases fuel, 2nat,
{
    if !state.failed && package.items@.contains_key(specialization.callable.0) {
        match package.items@[specialization.callable.0].kind {
            ItemKind::Callable(callable) => match callable.implementation {
                CallableImpl::Intrinsic => {},
                CallableImpl::Spec(specs) => match specialization.specialization_selector.spec_select(
                    specs,
                ) {
                    Some(decl) => {
                        lemma_walk_spec_decl_extends(
                            package,
                            package_id,
                            stack,
                            state,
                            specialization,
                            callable.input,
                            decl,
                            fuel,
                        );
                    },
                    None => {},
                },
            },
            _ => {},
        }
    }
}

/// The walk of a specialization keeps what was found.
pub proof fn lemma_walk_spec_decl_extends(
    package: &Package,
    package_id: PackageId,
    stack: Seq<usize>,
    state: WalkState,
    specialization: CallableSpecializationSelector,
    input: PatId,
    decl: SpecDecl,
    fuel: nat,
)
    ensures
        extends(
            walk_spec_decl(package, package_id, stack, state, specialization, input, decl, fuel),
            state,
        ),
    decreases fuel, 1nat,
{
    let key = specialization.spec_key();
    if !state.failed && !stack.contains(key) && fuel > 0 {
        if state.node_maps.contains_key(key) {
            lemma_walk_block_extends(
                package,
                package_id,
                stack.push(key),
                state,
                decl.block,
                (fuel - 1) as nat,
            );
        } else {
            match crate::cycle_model::input_params(package, input) {
                Some(params) => {
                    lemma_walk_block_extends(
                        package,
                        package_id,
                        stack.push(key),
                        WalkState { node_maps: state.node_maps.insert(key, params), ..state },
                        decl.block,
                        (fuel - 1) as nat,
                    );
                },
                None => {},
            }
        }
    }
}

/// The walk of an item keeps what was found.
pub proof fn lemma_walk_item_extends(
    package: &Package,
    package_id: PackageId,
    state: WalkState,
    item: LocalItemId,
)
    ensures
        extends(walk_item(package, package_id, state, item), state),
{
    if package.items@.contains_key(item.0) {
        match package.items@[item.0].kind {
            ItemKind::Callable(callable) => match callable.implementation {
                CallableImpl::Intrinsic => {},
                CallableImpl::Spec(specs) => {
                    let after_body = walk_optional_spec_decl(
                        package,
                        package_id,
                        state,
                        selector_of(item, false, false),
                        callable.input,
                        Some(specs.body),
                    );
                    let after_adj = walk_optional_spec_decl(
                        package,
                        package_id,
                        after_body,
                        selector_of(item, true, false),
                        callable.input,
                        specs.adj,
                    );
                    let after_ctl = walk_optional_spec_decl(
                        package,
                        package_id,
                        after_adj,
                        selector_of(item, false, true),
                        callable.input,
                        specs.ctl,
                    );
                    lemma_walk_optional_spec_decl_extends(
                        package,
                        package_id,
                        state,
                        selector_of(item, false, false),
                        callable.input,
                        Some(specs.body),
                    );
                    lemma_walk_optional_spec_decl_extends(
                        package,
                        package_id,
                        after_body,
                        selector_of(item, true, false),
                        callable.input,
                        specs.adj,
                    );
                    lemma_walk_optional_spec_decl_extends(
                        package,
                        package_id,
                        after_adj,
                        selector_of(item, false, true),
                        callable.input,
                        specs.ctl,
                    );
                    lemma_walk_optional_spec_decl_extends(
                        package,
                        package_id,
                        after_ctl,
                        selector_of(item, true, true),
                        callable.input,
                        specs.ctl_adj,
                    );
                },
            },
            _ => {},
        }
    }
}

/// The walk of an optional specialization of an item keeps what was found.
pub proof fn lemma_walk_optional_spec_decl_extends(
    package: &Package,
    package_id: PackageId,
    state: WalkState,
    specialization: CallableSpecializationSelector,
    input: PatId,
    decl: Option<SpecDecl>,
)
    ensures
        extends(
            walk_optional_spec_decl(package, package_id, state, specialization, input, decl),
            state,
        ),
{
    match decl {
        Some(decl) => {
            lemma_walk_spec_decl_extends(
                package,
                package_id,
                Seq::empty(),
                state,
                specialization,
                input,
                decl,
                walk_budget(package),
            );
        },
        None => {},
    }
}

/// Whether the expression, in the place of a callee, stands for the body of
/// the item `callee` of this package, whatever the locals are bound to. That
/// is so of the name of the item, of a closure of the item, of a block that
/// ends in such an expression, and of such an expression with functors
/// applied that undo each other. It is not so of a local: what a local stands
/// for depends on its binding.
pub open spec fn stands_for_body(
    package: &Package,
    package_id: PackageId,
    expr: ExprId,
    callee: LocalItemId,
) -> bool {
    forall|node_map: NodeMap| #[trigger]
        resolve_callee(package, package_id, node_map, expr, resolve_budget(package))
            == Resolution::Resolved(body_of(callee))
}

/// The name of an item of this package stands for the body of the item.
pub proof fn lemma_name_stands_for_body(
    package: &Package,
    package_id: PackageId,
    expr: ExprId,
    callee: LocalItemId,
)
    requires
        package.exprs@.contains_key(expr.0),
        package.exprs@[expr.0].kind matches ExprKind::Var(Res::Item(item)) && item.item == callee
            && (item.package is None || item.package == Some(package_id)),
    ensures
        stands_for_body(package, package_id, expr, callee),
{
}

/// A closure stands for the body of its item.
pub proof fn lemma_closure_stands_for_body(
    package: &Package,
    package_id: PackageId,
    expr: ExprId,
    callee: LocalItemId,
)
    requires
        package.exprs@.contains_key(expr.0),
        package.exprs@[expr.0].kind == ExprKind::Closure(callee),
    ensures
        stands_for_body(package, package_id, expr, callee),
{
}

/// Whether the block ends in a call: its last statement is an expression
/// without a semicolon, and the expression is a call.
pub open spec fn block_ends_in_a_call(package: &Package, block: BlockId) -> bool {
    &&& package.blocks@.contains_key(block.0)
    &&& package.blocks@[block.0].stmts@.len() > 0
    &&& package.stmts@.contains_key(package.blocks@[block.0].stmts@.last().0)
    &&& package.stmts@[package.blocks@[block.0].stmts@.last().0].kind matches StmtKind::Expr(call)
    &&& package.exprs@.contains_key(call.0)
    &&& package.exprs@[call.0].kind is Call
}

/// The state of the walk of a block that ends in a call, once the arguments
/// of that call are walked.
pub open spec fn state_at_tail_call(
    package: &Package,
    package_id: PackageId,
    stack: Seq<usize>,
    state: WalkState,
    block: BlockId,
    fuel: nat,
) -> WalkState {
    let stmts = package.blocks@[block.0].stmts@;
    let call = package.stmts@[stmts.last().0].kind->Expr_0;
    let args = package.exprs@[call.0].kind->Call_1;
    walk_expr(
        package,
        package_id,
        stack,
        walk_stmts(
            package,
            package_id,
            stack,
            state,
            stmts,
            (stmts.len() - 1) as nat,
            (fuel - 1) as nat,
        ),
        args,
        (fuel - 4) as nat,
    )
}

/// The callee of the call that the block ends in.
pub open spec fn tail_callee(package: &Package, block: BlockId) -> ExprId {
    let last = package.blocks@[block.0].stmts@.last();
    let call = package.stmts@[last.0].kind->Expr_0;
    package.exprs@[call.0].kind->Call_0
}

/// Whether the block ends in a call of the item `callee` of this package: its
/// last statement is an expression without a semicolon, the expression is a
/// call, and once a walk inside a specialization has come to the call, the
/// callee of the call resolves to the body of the item.
pub open spec fn block_ends_in_call(
    package: &Package,
    package_id: PackageId,
    block: BlockId,
    callee: LocalItemId,
) -> bool {
    &&& block_ends_in_a_call(package, block)
    &&& forall|stack: Seq<usize>, state: WalkState, fuel: nat|
        #![trigger state_at_tail_call(package, package_id, stack, state, block, fuel)]
        stack.len() > 0 && !state.failed && fuel >= 4 && !state_at_tail_call(
            package,
            package_id,
            stack,
            state,
            block,
            fuel,
        ).failed ==> resolve_callee(
            package,
            package_id,
            state_at_tail_call(package, package_id, stack, state, block, fuel).current_node_map(
                stack,
            ),
            tail_callee(package, block),
            resolve_budget(package),
        ) == Resolution::Resolved(body_of(callee))
}

/// A block that ends in a call whose callee stands for the body of an item,
/// whatever the locals are bound to, ends in a call of the item.
pub proof fn lemma_call_of_what_stands_for_body(
    package: &Package,
    package_id: PackageId,
    block: BlockId,
    callee: LocalItemId,
)
    requires
        block_ends_in_a_call(package, block),
        stands_for_body(
            package,
            package_id,
            tail_callee(package, block),
            callee,
        ),
    ensures
        block_ends_in_call(package, package_id, block, callee),
{
}

/// Whether the walk of the expression changes nothing: the expression is a
/// name, a closure, a literal, a hole, or a tuple or an array of nothing.
pub open spec fn is_plain(package: &Package, expr: ExprId) -> bool {
    &&& package.exprs@.contains_key(expr.0)
    &&& match package.exprs@[expr.0].kind {
        ExprKind::Closure(_) | ExprKind::Hole | ExprKind::Lit | ExprKind::Var(_) => true,
        ExprKind::Tuple(exprs) | ExprKind::Array(exprs) => exprs@.len() == 0,
        _ => false,
    }
}

/// A block of two statements, of which the first binds a local to the name
/// of an item of this package and the second is a call of that local with
/// plain arguments, ends in a call of the item.
pub proof fn lemma_call_of_a_local_that_names_an_item(
    package: &Package,
    package_id: PackageId,
    block: BlockId,
    callee: LocalItemId,
)
    requires
        block_ends_in_a_call(package, block),
        package.blocks@[block.0].stmts@.len() == 2,
        package.stmts@.contains_key(package.blocks@[block.0].stmts@[0].0),
        ({
            let stmts = package.blocks@[block.0].stmts@;
            let call = package.stmts@[stmts[1].0].kind->Expr_0;
            let name = package.exprs@[call.0].kind->Call_0;
            let args = package.exprs@[call.0].kind->Call_1;
            &&& package.stmts@[stmts[0].0].kind matches StmtKind::Local(pat, bound)
            &&& package.pats@.contains_key(pat.0)
            &&& package.pats@[pat.0].kind matches PatKind::Bind(node)
            &&& package.exprs@.contains_key(bound.0)
            &&& package.exprs@[bound.0].kind matches ExprKind::Var(Res::Item(item))
            &&& item.item == callee
            &&& item.package is None || item.package == Some(package_id)
            &&& package.exprs@.contains_key(name.0)
            &&& package.exprs@[name.0].kind == ExprKind::Var(Res::Local(node))
            &&& is_plain(package, args)
        }),
    ensures
        block_ends_in_call(package, package_id, block, callee),
{
    let stmts = package.blocks@[block.0].stmts@;
    let call = package.stmts@[stmts[1].0].kind->Expr_0;
    let name = package.exprs@[call.0].kind->Call_0;
    let args = package.exprs@[call.0].kind->Call_1;
    let pat = package.stmts@[stmts[0].0].kind->Local_0;
    let bound = package.stmts@[stmts[0].0].kind->Local_1;
    let node = package.pats@[pat.0].kind->Bind_0;
    assert(stmts.last() == stmts[1]);
    package.exprs.lemma_keys_below_bound();
    assert(resolve_budget(package) >= 2) by {
        assert(package.exprs@.contains_key(name.0));
    }
    assert forall|stack: Seq<usize>, state: WalkState, fuel: nat|
        #![trigger state_at_tail_call(package, package_id, stack, state, block, fuel)]
        stack.len() > 0 && !state.failed && fuel >= 4 && !state_at_tail_call(
            package,
            package_id,
            stack,
            state,
            block,
            fuel,
        ).failed implies resolve_callee(
        package,
        package_id,
        state_at_tail_call(package, package_id, stack, state, block, fuel).current_node_map(stack),
        name,
        resolve_budget(package),
    ) == Resolution::Resolved(body_of(callee)) by {
        let rest = (fuel - 1) as nat;
        let none = walk_stmts(package, package_id, stack, state, stmts, 0, rest);
        assert(none == state);
        let after_first = walk_stmts(package, package_id, stack, state, stmts, 1, rest);
        assert(after_first == walk_stmt(package, package_id, stack, state, stmts[0], rest));
        let node_map = bind_pattern(
            package,
            state.current_node_map(stack),
            pat,
            bound,
            (rest - 1) as nat,
        );
        assert(node_map is Some);
        let bound_state = state.with_current_node_map(stack, node_map->0);
        assert(after_first == walk_expr(
            package,
            package_id,
            stack,
            bound_state,
            bound,
            (rest - 1) as nat,
        ));
        assert(after_first == bound_state);
        let at_call = state_at_tail_call(package, package_id, stack, state, block, fuel);
        assert(at_call == walk_expr(package, package_id, stack, after_first, args, (fuel - 4) as nat));
        if fuel > 4 {
            match package.exprs@[args.0].kind {
                ExprKind::Tuple(exprs) | ExprKind::Array(exprs) => {
                    assert(walk_exprs(
                        package,
                        package_id,
                        stack,
                        after_first,
                        exprs@,
                        0,
                        (fuel - 5) as nat,
                    ) == after_first);
                },
                _ => {},
            }
            assert(at_call == after_first);
            assert(at_call.current_node_map(stack) == node_map->0);
            assert(resolve_callee(
                package,
                package_id,
                node_map->0,
                bound,
                (resolve_budget(package) - 1) as nat,
            ) == Resolution::Resolved(body_of(callee)));
        }
    }
}

/// Whether the callable `caller` has a body that ends in a call of the item
/// `callee` of this package.
pub open spec fn calls_in_tail_position(
    package: &Package,
    package_id: PackageId,
    caller: LocalItemId,
    callee: LocalItemId,
) -> bool {
    &&& package.items@.contains_key(caller.0)
    &&& package.items@[caller.0].kind matches ItemKind::Callable(callable)
    &&& callable.implementation matches CallableImpl::Spec(specs)
    &&& block_ends_in_call(package, package_id, specs.body.block, callee)
}

/// The walk of a block that ends in a call of an item ends with the walk of
/// the body of that item.
pub proof fn lemma_tail_call_is_walked(
    package: &Package,
    package_id: PackageId,
    stack: Seq<usize>,
    state: WalkState,
    block: BlockId,
    callee: LocalItemId,
    fuel: nat,
)
    requires
        block_ends_in_call(package, package_id, block, callee),
        stack.len() > 0,
        fuel >= 4,
        !state.failed,
    ensures
        walk_block(package, package_id, stack, state, block, fuel) == (if state_at_tail_call(
            package,
            package_id,
            stack,
            state,
            block,
            fuel,
        ).failed {
            state_at_tail_call(package, package_id, stack, state, block, fuel)
        } else {
            walk_callable(
                package,
                package_id,
                stack,
                state_at_tail_call(package, package_id, stack, state, block, fuel),
                body_of(callee),
                (fuel - 4) as nat,
            )
        }),
{
    let stmts = package.blocks@[block.0].stmts@;
    let last = stmts.last();
    let call = package.stmts@[last.0].kind->Expr_0;
    let name = package.exprs@[call.0].kind->Call_0;
    let args = package.exprs@[call.0].kind->Call_1;
    let before_last = walk_stmts(
        package,
        package_id,
        stack,
        state,
        stmts,
        (stmts.len() - 1) as nat,
        (fuel - 1) as nat,
    );
    let at_call = state_at_tail_call(package, package_id, stack, state, block, fuel);
    let whole = walk_block(package, package_id, stack, state, block, fuel);
    assert(whole == walk_stmts(
        package,
        package_id,
        stack,
        state,
        stmts,
        stmts.len(),
        (fuel - 1) as nat,
    ));
    assert(stmts[stmts.len() - 1] == last);
    assert(whole == walk_stmt(package, package_id, stack, before_last, last, (fuel - 1) as nat));
    if before_last.failed {
        assert(at_call == before_last);
    } else {
        assert(whole == walk_expr(package, package_id, stack, before_last, call, (fuel - 2) as nat));
        assert(whole == walk_call(
            package,
            package_id,
            stack,
            before_last,
            name,
            args,
            (fuel - 3) as nat,
        ));
        assert(at_call == walk_expr(package, package_id, stack, before_last, args, (fuel - 4) as nat));
        if !at_call.failed {
            assert(crate::cycle_model::resolve_callee(
                package,
                package_id,
                at_call.current_node_map(stack),
                name,
                crate::cycle_model::resolve_budget(package),
            ) == crate::cycle_model::Resolution::Resolved(body_of(callee)));
        }
    }
}

/// With two callables that call each other in tail position, the walk of the
/// body of the first from outside any specialization finds that body on a
/// cycle, unless it fails.
pub proof fn lemma_body_is_found_on_cycle(
    package: &Package,
    package_id: PackageId,
    state: WalkState,
    first: LocalItemId,
    second: LocalItemId,
)
    requires
        calls_in_tail_position(package, package_id, first, second),
        calls_in_tail_position(package, package_id, second, first),
    ensures
        ({
            let callable = package.items@[first.0].kind->Callable_0;
            let after = walk_optional_spec_decl(
                package,
                package_id,
                state,
                selector_of(first, false, false),
                callable.input,
                Some(callable.implementation->Spec_0.body),
            );
            !after.failed ==> is_on_cycle(after.cycles, first, false, false)
        }),
{
    let caller = package.items@[first.0].kind->Callable_0;
    let callee = package.items@[second.0].kind->Callable_0;
    let caller_body = caller.implementation->Spec_0.body;
    let callee_body = callee.implementation->Spec_0.body;
    let outer = selector_of(first, false, false);
    let inner = selector_of(second, false, false);
    assert(body_of(first) == outer);
    assert(body_of(second) == inner);
    let outer_key = outer.spec_key();
    let inner_key = inner.spec_key();
    let budget = walk_budget(package);
    assert(budget >= 12) by {
        package.items.lemma_keys_below_bound();
        package.exprs.lemma_keys_below_bound();
        package.stmts.lemma_keys_below_bound();
        package.blocks.lemma_keys_below_bound();
        let specializations = 4 * package.items.spec_bound() + 1;
        let nesting = crate::cycle_model::nesting_limit(package);
        assert(package.blocks@.contains_key(caller_body.block.0));
        assert(package.stmts@.contains_key(
            package.blocks@[caller_body.block.0].stmts@.last().0,
        ));
        assert(specializations >= 5 && nesting >= 6);
        assert(specializations * nesting >= 30) by (nonlinear_arith)
            requires
                specializations >= 5,
                nesting >= 6,
        ;
    }
    let after = walk_spec_decl(
        package,
        package_id,
        Seq::empty(),
        state,
        outer,
        caller.input,
        caller_body,
        budget,
    );
    if !after.failed {
        let stack = Seq::<usize>::empty().push(outer_key);
        assert(!Seq::<usize>::empty().contains(outer_key));
        let entered = if state.node_maps.contains_key(outer_key) {
            state
        } else {
            WalkState {
                node_maps: state.node_maps.insert(
                    outer_key,
                    crate::cycle_model::input_params(package, caller.input)->0,
                ),
                ..state
            }
        };
        assert(after == walk_block(
            package,
            package_id,
            stack,
            entered,
            caller_body.block,
            (budget - 1) as nat,
        ));
        lemma_tail_call_is_walked(
            package,
            package_id,
            stack,
            entered,
            caller_body.block,
            second,
            (budget - 1) as nat,
        );
        let at_call = state_at_tail_call(
            package,
            package_id,
            stack,
            entered,
            caller_body.block,
            (budget - 1) as nat,
        );
        let fuel = (budget - 5) as nat;
        assert(after == walk_callable(package, package_id, stack, at_call, inner, fuel));
        assert(after == walk_spec_decl(
            package,
            package_id,
            stack,
            at_call,
            inner,
            callee.input,
            callee_body,
            fuel,
        ));
        assert(stack[0] == outer_key);
        if stack.contains(inner_key) {
            assert(inner_key == outer_key);
        } else {
            let deeper = stack.push(inner_key);
            let entered_callee = if at_call.node_maps.contains_key(inner_key) {
                at_call
            } else {
                WalkState {
                    node_maps: at_call.node_maps.insert(
                        inner_key,
                        crate::cycle_model::input_params(package, callee.input)->0,
                    ),
                    ..at_call
                }
            };
            assert(after == walk_block(
                package,
                package_id,
                deeper,
                entered_callee,
                callee_body.block,
                (fuel - 1) as nat,
            ));
            lemma_tail_call_is_walked(
                package,
                package_id,
                deeper,
                entered_callee,
                callee_body.block,
                first,
                (fuel - 1) as nat,
            );
            let at_return = state_at_tail_call(
                package,
                package_id,
                deeper,
                entered_callee,
                callee_body.block,
                (fuel - 1) as nat,
            );
            let rest = (fuel - 5) as nat;
            assert(after == walk_callable(package, package_id, deeper, at_return, outer, rest));
            assert(after == walk_spec_decl(
                package,
                package_id,
                deeper,
                at_return,
                outer,
                caller.input,
                caller_body,
                rest,
            ));
            assert(deeper[0] == outer_key);
            assert(deeper.contains(outer_key));
        }
    }
}

/// A callable with a body that is on a cycle is reported so.
pub proof fn lemma_cycled_body_is_reported(
    package: &Package,
    cycles: Set<usize>,
    count: nat,
    callable: LocalItemId,
)
    requires
        callable.0 < count,
        package.items@.contains_key(callable.0),
        package.items@[callable.0].kind matches ItemKind::Callable(decl)
            && decl.implementation is Spec,
        is_on_cycle(cycles, callable, false, false),
    ensures
        reports_body_cycle(cycled_callables(package, cycles, count), callable),
    decreases count,
{
    let report = cycled_callables(package, cycles, count);
    if callable.0 == count - 1 {
        assert(is_cycled_callable(package, cycles, callable));
        let i = report.len() - 1;
        assert(report[i].id == callable && report[i].is_body_cycled);
    } else {
        lemma_cycled_body_is_reported(package, cycles, (count - 1) as nat, callable);
        let before = cycled_callables(package, cycles, (count - 1) as nat);
        let i = choose|i: int|
            #![trigger before[i]]
            0 <= i < before.len() && before[i].id == callable && before[i].is_body_cycled;
        assert(report[i] == before[i]);
    }
}

/// A callable with a body that the walk of the callable finds on a cycle,
/// unless it fails, is reported as a callable whose body is on a cycle.
pub proof fn lemma_found_body_is_reported(
    package: &Package,
    package_id: PackageId,
    first: LocalItemId,
)
    requires
        detection(package, package_id) is Some,
        has_body(package, first),
        ({
            let callable = package.items@[first.0].kind->Callable_0;
            let after = walk_optional_spec_decl(
                package,
                package_id,
                walk_items(package, package_id, first.0 as nat),
                selector_of(first, false, false),
                callable.input,
                Some(callable.implementation->Spec_0.body),
            );
            !after.failed ==> is_on_cycle(after.cycles, first, false, false)
        }),
    ensures
        reports_body_cycle(detection(package, package_id)->0, first),
{
    let bound = package.items.spec_bound();
    let end = walk_package(package, package_id);
    package.items.lemma_keys_below_bound();
    let before = walk_items(package, package_id, first.0 as nat);
    let after = walk_items(package, package_id, (first.0 + 1) as nat);
    assert(after == walk_item(package, package_id, before, first));
    lemma_walk_items_extends(package, package_id, (first.0 + 1) as nat, bound);
    let callable = package.items@[first.0].kind->Callable_0;
    let specs = callable.implementation->Spec_0;
    let after_body = walk_optional_spec_decl(
        package,
        package_id,
        before,
        selector_of(first, false, false),
        callable.input,
        Some(specs.body),
    );
    let after_adj = walk_optional_spec_decl(
        package,
        package_id,
        after_body,
        selector_of(first, true, false),
        callable.input,
        specs.adj,
    );
    let after_ctl = walk_optional_spec_decl(
        package,
        package_id,
        after_adj,
        selector_of(first, false, true),
        callable.input,
        specs.ctl,
    );
    lemma_walk_optional_spec_decl_extends(
        package,
        package_id,
        after_body,
        selector_of(first, true, false),
        callable.input,
        specs.adj,
    );
    lemma_walk_optional_spec_decl_extends(
        package,
        package_id,
        after_adj,
        selector_of(first, false, true),
        callable.input,
        specs.ctl,
    );
    lemma_walk_optional_spec_decl_extends(
        package,
        package_id,
        after_ctl,
        selector_of(first, true, true),
        callable.input,
        specs.ctl_adj,
    );
    assert(is_on_cycle(end.cycles, first, false, false));
    lemma_cycled_body_is_reported(package, end.cycles, bound, first);
}

/// With two callables that call each other in tail position, the first is
/// reported as a callable whose body is on a cycle.
pub proof fn lemma_caller_is_reported(
    package: &Package,
    package_id: PackageId,
    first: LocalItemId,
    second: LocalItemId,
)
    requires
        detection(package, package_id) is Some,
        calls_in_tail_position(package, package_id, first, second),
        calls_in_tail_position(package, package_id, second, first),
    ensures
        reports_body_cycle(detection(package, package_id)->0, first),
{
    lemma_body_is_found_on_cycle(
        package,
        package_id,
        walk_items(package, package_id, first.0 as nat),
        first,
        second,
    );
    lemma_found_body_is_reported(package, package_id, first);
}

/// Two callables that call each other in tail position are both reported as
/// callables whose body is on a cycle.
pub proof fn lemma_mutual_recursion_is_reported(
    package: &Package,
    package_id: PackageId,
    first: LocalItemId,
    second: LocalItemId,
)
    requires
        detection(package, package_id) is Some,
        calls_in_tail_position(package, package_id, first, second),
        calls_in_tail_position(package, package_id, second, first),
    ensures
        reports_body_cycle(detection(package, package_id)->0, first),
        reports_body_cycle(detection(package, package_id)->0, second),
{
    lemma_caller_is_reported(package, package_id, first, second);
    lemma_caller_is_reported(package, package_id, second, first);
}

/// Every entry of a report on the items with a key below `count` is of a
/// callable with a body that has a specialization on a cycle, and says of
/// that callable what was found; and the entries are in the order of the keys
/// of their callables.
pub proof fn lemma_report_holds_cycled_callables(package: &Package, cycles: Set<usize>, count: nat)
    requires
        count <= usize::MAX,
    ensures
        forall|i: int|
            #![trigger cycled_callables(package, cycles, count)[i]]
            0 <= i < cycled_callables(package, cycles, count).len() ==> {
                let entry = cycled_callables(package, cycles, count)[i];
                &&& entry.id.0 < count
                &&& is_cycled_callable(package, cycles, entry.id)
                &&& entry == cycled_info(
                    package.items@[entry.id.0].kind->Callable_0.implementation->Spec_0,
                    cycles,
                    entry.id,
                )
            },
        forall|i: int, j: int|
            #![trigger cycled_callables(package, cycles, count)[i], cycled_callables(package, cycles, count)[j]]
            0 <= i < j < cycled_callables(package, cycles, count).len() ==> cycled_callables(
                package,
                cycles,
                count,
            )[i].id.0 < cycled_callables(package, cycles, count)[j].id.0,
    decreases count,
{
    if count > 0 {
        lemma_report_holds_cycled_callables(package, cycles, (count - 1) as nat);
    }
}

/// Where two callables are the only ones of a package with a specialization
/// on a cycle, the report holds the one with the smaller key and then the
/// other, and nothing else.
pub proof fn lemma_report_of_two(
    package: &Package,
    cycles: Set<usize>,
    count: nat,
    lower: LocalItemId,
    upper: LocalItemId,
)
    requires
        count <= usize::MAX,
        lower.0 < upper.0,
        is_cycled_callable(package, cycles, lower),
        is_cycled_callable(package, cycles, upper),
        forall|item: LocalItemId| #[trigger]
            is_cycled_callable(package, cycles, item) ==> item == lower || item == upper,
    ensures
        cycled_callables(package, cycles, count).len() == (if count <= lower.0 {
            0nat
        } else if count <= upper.0 {
            1nat
        } else {
            2nat
        }),
        count > lower.0 ==> cycled_callables(package, cycles, count)[0].id == lower,
        count > upper.0 ==> cycled_callables(package, cycles, count)[1].id == upper,
    decreases count,
{
    if count > 0 {
        lemma_report_of_two(package, cycles, (count - 1) as nat, lower, upper);
        let item = LocalItemId((count - 1) as usize);
        if is_cycled_callable(package, cycles, item) {
            assert(item == lower || item == upper);
        }
        if count - 1 == lower.0 {
            assert(item == lower);
        }
        if count - 1 == upper.0 {
            assert(item == upper);
        }
    }
}

/// Whether the item is a callable with a body.
pub open spec fn has_body(package: &Package, item: LocalItemId) -> bool {
    &&& package.items@.contains_key(item.0)
    &&& package.items@[item.0].kind matches ItemKind::Callable(callable)
    &&& callable.implementation is Spec
}

/// Where two callables that are reported as callables whose body is on a
/// cycle are the only callables with a body of a package, the report holds
/// two entries: one for the callable with the smaller key and then one for
/// the other, each with the body on a cycle, and with a flag for each other
/// specialization that the callable has and for no other.
pub proof fn lemma_two_cycled_bodies_are_the_report(
    package: &Package,
    package_id: PackageId,
    first: LocalItemId,
    second: LocalItemId,
)
    requires
        detection(package, package_id) is Some,
        first != second,
        reports_body_cycle(detection(package, package_id)->0, first),
        reports_body_cycle(detection(package, package_id)->0, second),
        forall|item: LocalItemId| #[trigger]
            has_body(package, item) ==> item == first || item == second,
    ensures
        ({
            let report = detection(package, package_id)->0;
            let lower = if first.0 < second.0 {
                first
            } else {
                second
            };
            let upper = if first.0 < second.0 {
                second
            } else {
                first
            };
            &&& report.len() == 2
            &&& report[0].id == lower
            &&& report[1].id == upper
            &&& forall|i: int|
                #![trigger report[i]]
                0 <= i < 2 ==> {
                    let specs = package.items@[report[i].id.0].kind->Callable_0.implementation->Spec_0;
                    &&& report[i].is_body_cycled
                    &&& report[i].is_adj_cycled is Some <==> specs.adj is Some
                    &&& report[i].is_ctl_cycled is Some <==> specs.ctl is Some
                    &&& report[i].is_ctl_adj_cycled is Some <==> specs.ctl_adj is Some
                }
        }),
{
    let bound = package.items.spec_bound();
    let cycles = walk_package(package, package_id).cycles;
    let report = cycled_callables(package, cycles, bound);
    assert(report == detection(package, package_id)->0);
    let lower = if first.0 < second.0 {
        first
    } else {
        second
    };
    let upper = if first.0 < second.0 {
        second
    } else {
        first
    };
    assert(lower.0 < upper.0) by {
        if first.0 == second.0 {
            assert(first == second);
        }
    }
    package.items.lemma_keys_below_bound();
    lemma_report_holds_cycled_callables(package, cycles, bound);
    let i = choose|i: int|
        #![trigger report[i]]
        0 <= i < report.len() && report[i].id == first && report[i].is_body_cycled;
    let j = choose|j: int|
        #![trigger report[j]]
        0 <= j < report.len() && report[j].id == second && report[j].is_body_cycled;
    assert(is_cycled_callable(package, cycles, report[i].id));
    assert(is_cycled_callable(package, cycles, report[j].id));
    assert forall|item: LocalItemId| #[trigger]
        is_cycled_callable(package, cycles, item) implies item == lower || item == upper by {
        assert(has_body(package, item));
    }
    lemma_report_of_two(package, cycles, bound, lower, upper);
    assert(report[i].is_body_cycled && report[j].is_body_cycled);
}

/// Where two callables that call each other in tail position are the only
/// callables with a body of a package, the report holds two entries: one for
/// the callable with the smaller key and then one for the other, each with
/// the body on a cycle, and with a flag for each other specialization that
/// the callable has and for no other.
pub proof fn lemma_two_callables_are_the_report(
    package: &Package,
    package_id: PackageId,
    first: LocalItemId,
    second: LocalItemId,
)
    requires
        detection(package, package_id) is Some,
        first != second,
        calls_in_tail_position(package, package_id, first, second),
        calls_in_tail_position(package, package_id, second, first),
        forall|item: LocalItemId| #[trigger]
            has_body(package, item) ==> item == first || item == second,
    ensures
        ({
            let report = detection(package, package_id)->0;
            let lower = if first.0 < second.0 {
                first
            } else {
                second
            };
            let upper = if first.0 < second.0 {
                second
            } else {
                first
            };
            &&& report.len() == 2
            &&& report[0].id == lower
            &&& report[1].id == upper
            &&& forall|i: int|
                #![trigger report[i]]
                0 <= i < 2 ==> {
                    let specs = package.items@[report[i].id.0].kind->Callable_0.implementation->Spec_0;
                    &&& report[i].is_body_cycled
                    &&& report[i].is_adj_cycled is Some <==> specs.adj is Some
                    &&& report[i].is_ctl_cycled is Some <==> specs.ctl is Some
                    &&& report[i].is_ctl_adj_cycled is Some <==> specs.ctl_adj is Some
                }
        }),
{
    lemma_mutual_recursion_is_reported(package, package_id, first, second);
    lemma_two_cycled_bodies_are_the_report(package, package_id, first, second);
}

/// The walk of more items keeps what the walk of fewer items has found.
pub proof fn lemma_walk_items_extends(
    package: &Package,
    package_id: PackageId,
    fewer: nat,
    more: nat,
)
    requires
        fewer <= more,
    ensures
        extends(walk_items(package, package_id, more), walk_items(package, package_id, fewer)),
    decreases more,
{
    if fewer < more {
        lemma_walk_items_extends(package, package_id, fewer, (more - 1) as nat);
        lemma_walk_item_extends(
            package,
            package_id,
            walk_items(package, package_id, (more - 1) as nat),
            LocalItemId((more - 1) as usize),
        );
    }
}

/// A walk of an expression that does not fail would be the same with a larger
/// budget.
pub proof fn lemma_walk_expr_stable(
    package: &Package,
    package_id: PackageId,
    stack: Seq<usize>,
    state: WalkState,
    expr: ExprId,
    fuel: nat,
    more: nat,
)
    requires
        fuel <= more,
        !walk_expr(package, package_id, stack, state, expr, fuel).failed,
    ensures
        walk_expr(package, package_id, stack, state, expr, more) == walk_expr(
            package,
            package_id,
            stack,
            state,
            expr,
            fuel,
        ),
    decreases fuel, 0nat,
{
    if !state.failed {
        let rest = (fuel - 1) as nat;
        let more_rest = (more - 1) as nat;
        match package.exprs@[expr.0].kind {
            ExprKind::Array(exprs) | ExprKind::Tuple(exprs) => {
                lemma_walk_exprs_stable(
                    package,
                    package_id,
                    stack,
                    state,
                    exprs@,
                    exprs@.len(),
                    rest,
                    more_rest,
                );
            },
            ExprKind::ArrayRepeat(first, second)
            | ExprKind::Assign(first, second)
            | ExprKind::AssignOp(first, second)
            | ExprKind::BinOp(first, second)
            | ExprKind::AssignField(first, second)
            | ExprKind::UpdateField(first, second)
            | ExprKind::Index(first, second) => {
                let one = walk_expr(package, package_id, stack, state, first, rest);
                lemma_walk_expr_extends(package, package_id, stack, one, second, rest);
                lemma_walk_expr_stable(package, package_id, stack, state, first, rest, more_rest);
                lemma_walk_expr_stable(package, package_id, stack, one, second, rest, more_rest);
            },
            ExprKind::AssignIndex(first, second, third)
            | ExprKind::UpdateIndex(first, second, third) => {
                let one = walk_expr(package, package_id, stack, state, first, rest);
                let two = walk_expr(package, package_id, stack, one, second, rest);
                lemma_walk_expr_extends(package, package_id, stack, two, third, rest);
                lemma_walk_expr_extends(package, package_id, stack, one, second, rest);
                lemma_walk_expr_stable(package, package_id, stack, state, first, rest, more_rest);
                lemma_walk_expr_stable(package, package_id, stack, one, second, rest, more_rest);
                lemma_walk_expr_stable(package, package_id, stack, two, third, rest, more_rest);
            },
            ExprKind::Block(block) => {
                lemma_walk_block_stable(package, package_id, stack, state, block, rest, more_rest);
            },
            ExprKind::Call(callee, args) => {
                lemma_walk_call_stable(
                    package,
                    package_id,
                    stack,
                    state,
                    callee,
                    args,
                    rest,
                    more_rest,
                );
            },
            ExprKind::Fail(inner)
            | ExprKind::Field(inner)
            | ExprKind::Return(inner)
            | ExprKind::UnOp(_, inner) => {
                lemma_walk_expr_stable(package, package_id, stack, state, inner, rest, more_rest);
            },
            ExprKind::If(cond, body, otherwise) => {
                let one = walk_expr(package, package_id, stack, state, cond, rest);
                let two = walk_expr(package, package_id, stack, one, body, rest);
                lemma_walk_optional_expr_extends(package, package_id, stack, two, otherwise, rest);
                lemma_walk_expr_extends(package, package_id, stack, one, body, rest);
                lemma_walk_expr_stable(package, package_id, stack, state, cond, rest, more_rest);
                lemma_walk_expr_stable(package, package_id, stack, one, body, rest, more_rest);
                lemma_walk_optional_expr_stable(
                    package,
                    package_id,
                    stack,
                    two,
                    otherwise,
                    rest,
                    more_rest,
                );
            },
            ExprKind::Range(start, step, end) => {
                let one = walk_optional_expr(package, package_id, stack, state, start, rest);
                let two = walk_optional_expr(package, package_id, stack, one, step, rest);
                lemma_walk_optional_expr_extends(package, package_id, stack, two, end, rest);
                lemma_walk_optional_expr_extends(package, package_id, stack, one, step, rest);
                lemma_walk_optional_expr_stable(
                    package,
                    package_id,
                    stack,
                    state,
                    start,
                    rest,
                    more_rest,
                );
                lemma_walk_optional_expr_stable(
                    package,
                    package_id,
                    stack,
                    one,
                    step,
                    rest,
                    more_rest,
                );
                lemma_walk_optional_expr_stable(
                    package,
                    package_id,
                    stack,
                    two,
                    end,
                    rest,
                    more_rest,
                );
            },
            ExprKind::String(components) => {
                lemma_walk_components_stable(
                    package,
                    package_id,
                    stack,
                    state,
                    components@,
                    components@.len(),
                    rest,
                    more_rest,
                );
            },
            ExprKind::While(cond, block) => {
                let one = walk_expr(package, package_id, stack, state, cond, rest);
                lemma_walk_block_extends(package, package_id, stack, one, block, rest);
                lemma_walk_expr_stable(package, package_id, stack, state, cond, rest, more_rest);
                lemma_walk_block_stable(package, package_id, stack, one, block, rest, more_rest);
            },
            ExprKind::Closure(_) | ExprKind::Hole | ExprKind::Lit | ExprKind::Var(_) => {},
        }
    }
}

/// A walk of an expression that may be absent that does not fail would be the
/// same with a larger budget.
pub proof fn lemma_walk_optional_expr_stable(
    package: &Package,
    package_id: PackageId,
    stack: Seq<usize>,
    state: WalkState,
    expr: Option<ExprId>,
    fuel: nat,
    more: nat,
)
    requires
        fuel <= more,
        !walk_optional_expr(package, package_id, stack, state, expr, fuel).failed,
    ensures
        walk_optional_expr(package, package_id, stack, state, expr, more) == walk_optional_expr(
            package,
            package_id,
            stack,
            state,
            expr,
            fuel,
        ),
    decreases fuel, 1nat,
{
    match expr {
        Some(expr) => {
            lemma_walk_expr_stable(package, package_id, stack, state, expr, fuel, more);
        },
        None => {},
    }
}

/// A walk of expressions that does not fail would be the same with a larger
/// budget.
pub proof fn lemma_walk_exprs_stable(
    package: &Package,
    package_id: PackageId,
    stack: Seq<usize>,
    state: WalkState,
    items: Seq<ExprId>,
    count: nat,
    fuel: nat,
    more: nat,
)
    requires
        fuel <= more,
        !walk_exprs(package, package_id, stack, state, items, count, fuel).failed,
    ensures
        walk_exprs(package, package_id, stack, state, items, count, more) == walk_exprs(
            package,
            package_id,
            stack,
            state,
            items,
            count,
            fuel,
        ),
    decreases fuel, 1 + count,
{
    if !(count == 0 || count > items.len()) {
        let before = walk_exprs(package, package_id, stack, state, items, (count - 1) as nat, fuel);
        lemma_walk_expr_extends(package, package_id, stack, before, items[count - 1], fuel);
        lemma_walk_exprs_stable(
            package,
            package_id,
            stack,
            state,
            items,
            (count - 1) as nat,
            fuel,
            more,
        );
        lemma_walk_expr_stable(package, package_id, stack, before, items[count - 1], fuel, more);
    }
}

/// A walk of the parts of an interpolated string that does not fail would be
/// the same with a larger budget.
pub proof fn lemma_walk_components_stable(
    package: &Package,
    package_id: PackageId,
    stack: Seq<usize>,
    state: WalkState,
    items: Seq<StringComponent>,
    count: nat,
    fuel: nat,
    more: nat,
)
    requires
        fuel <= more,
        !walk_components(package, package_id, stack, state, items, count, fuel).failed,
    ensures
        walk_components(package, package_id, stack, state, items, count, more) == walk_components(
            package,
            package_id,
            stack,
            state,
            items,
            count,
            fuel,
        ),
    decreases fuel, 1 + count,
{
    if !(count == 0 || count > items.len()) {
        let before = walk_components(
            package,
            package_id,
            stack,
            state,
            items,
            (count - 1) as nat,
            fuel,
        );
        match items[count - 1] {
            StringComponent::Expr(expr) => {
                lemma_walk_expr_extends(package, package_id, stack, before, expr, fuel);
                lemma_walk_components_stable(
                    package,
                    package_id,
                    stack,
                    state,
                    items,
                    (count - 1) as nat,
                    fuel,
                    more,
                );
                lemma_walk_expr_stable(package, package_id, stack, before, expr, fuel, more);
            },
            StringComponent::Lit => {
                lemma_walk_components_stable(
                    package,
                    package_id,
                    stack,
                    state,
                    items,
                    (count - 1) as nat,
                    fuel,
                    more,
                );
            },
        }
    }
}

/// A walk of statements that does not fail would be the same with a larger
/// budget.
pub proof fn lemma_walk_stmts_stable(
    package: &Package,
    package_id: PackageId,
    stack: Seq<usize>,
    state: WalkState,
    items: Seq<StmtId>,
    count: nat,
    fuel: nat,
    more: nat,
)
    requires
        fuel <= more,
        !walk_stmts(package, package_id, stack, state, items, count, fuel).failed,
    ensures
        walk_stmts(package, package_id, stack, state, items, count, more) == walk_stmts(
            package,
            package_id,
            stack,
            state,
            items,
            count,
            fuel,
        ),
    decreases fuel, 1 + count,
{
    if !(count == 0 || count > items.len()) {
        let before = walk_stmts(package, package_id, stack, state, items, (count - 1) as nat, fuel);
        lemma_walk_stmt_extends(package, package_id, stack, before, items[count - 1], fuel);
        lemma_walk_stmts_stable(
            package,
            package_id,
            stack,
            state,
            items,
            (count - 1) as nat,
            fuel,
            more,
        );
        lemma_walk_stmt_stable(package, package_id, stack, before, items[count - 1], fuel, more);
    }
}

/// A walk of a block that does not fail would be the same with a larger
/// budget.
pub proof fn lemma_walk_block_stable(
    package: &Package,
    package_id: PackageId,
    stack: Seq<usize>,
    state: WalkState,
    block: BlockId,
    fuel: nat,
    more: nat,
)
    requires
        fuel <= more,
        !walk_block(package, package_id, stack, state, block, fuel).failed,
    ensures
        walk_block(package, package_id, stack, state, block, more) == walk_block(
            package,
            package_id,
            stack,
            state,
            block,
            fuel,
        ),
    decreases fuel, 0nat,
{
    if !state.failed {
        lemma_walk_stmts_stable(
            package,
            package_id,
            stack,
            state,
            package.blocks@[block.0].stmts@,
            package.blocks@[block.0].stmts@.len(),
            (fuel - 1) as nat,
            (more - 1) as nat,
        );
    }
}

/// A walk of a statement that does not fail would be the same with a larger
/// budget.
pub proof fn lemma_walk_stmt_stable(
    package: &Package,
    package_id: PackageId,
    stack: Seq<usize>,
    state: WalkState,
    stmt: StmtId,
    fuel: nat,
    more: nat,
)
    requires
        fuel <= more,
        !walk_stmt(package, package_id, stack, state, stmt, fuel).failed,
    ensures
        walk_stmt(package, package_id, stack, state, stmt, more) == walk_stmt(
            package,
            package_id,
            stack,
            state,
            stmt,
            fuel,
        ),
    decreases fuel, 0nat,
{
    if !state.failed {
        let rest = (fuel - 1) as nat;
        let more_rest = (more - 1) as nat;
        match package.stmts@[stmt.0].kind {
            StmtKind::Item(_) => {},
            StmtKind::Expr(expr) | StmtKind::Semi(expr) => {
                lemma_walk_expr_stable(package, package_id, stack, state, expr, rest, more_rest);
            },
            StmtKind::Local(pat, expr) => {
                lemma_bind_pattern_stable(
                    package,
                    state.current_node_map(stack),
                    pat,
                    expr,
                    rest,
                    more_rest,
                );
                let node_map = bind_pattern(
                    package,
                    state.current_node_map(stack),
                    pat,
                    expr,
                    rest,
                )->0;
                lemma_walk_expr_stable(
                    package,
                    package_id,
                    stack,
                    state.with_current_node_map(stack, node_map),
                    expr,
                    rest,
                    more_rest,
                );
            },
        }
    }
}

/// A walk of a call that does not fail would be the same with a larger
/// budget.
pub proof fn lemma_walk_call_stable(
    package: &Package,
    package_id: PackageId,
    stack: Seq<usize>,
    state: WalkState,
    callee: ExprId,
    args: ExprId,
    fuel: nat,
    more: nat,
)
    requires
        fuel <= more,
        !walk_call(package, package_id, stack, state, callee, args, fuel).failed,
    ensures
        walk_call(package, package_id, stack, state, callee, args, more) == walk_call(
            package,
            package_id,
            stack,
            state,
            callee,
            args,
            fuel,
        ),
    decreases fuel, 0nat,
{
    if !state.failed {
        let rest = (fuel - 1) as nat;
        let more_rest = (more - 1) as nat;
        let after_args = walk_expr(package, package_id, stack, state, args, rest);
        lemma_walk_expr_stable(package, package_id, stack, state, args, rest, more_rest);
        match resolve_callee(
            package,
            package_id,
            after_args.current_node_map(stack),
            callee,
            resolve_budget(package),
        ) {
            Resolution::Resolved(specialization) => {
                lemma_walk_callable_stable(
                    package,
                    package_id,
                    stack,
                    after_args,
                    specialization,
                    rest,
                    more_rest,
                );
            },
            _ => {},
        }
    }
}

/// A walk of a specialization that is called that does not fail would be the
/// same with a larger budget.
pub proof fn lemma_walk_callable_stable(
    package: &Package,
    package_id: PackageId,
    stack: Seq<usize>,
    state: WalkState,
    specialization: CallableSpecializationSelector,
    fuel: nat,
    more: nat,
)
    requires
        fuel <= more,
        !walk_callable(package, package_id, stack, state, specialization, fuel).failed,
    ensures
        walk_callable(package, package_id, stack, state, specialization, more) == walk_callable(
            package,
            package_id,
            stack,
            state,
            specialization,
            fuel,
        ),
    decreases fuel, 2nat,
{
    if !state.failed && package.items@.contains_key(specialization.callable.0) {
        match package.items@[specialization.callable.0].kind {
            ItemKind::Callable(callable) => match callable.implementation {
                CallableImpl::Intrinsic => {},
                CallableImpl::Spec(specs) => match specialization.specialization_selector.spec_select(
                    specs,
                ) {
                    Some(decl) => {
                        lemma_walk_spec_decl_stable(
                            package,
                            package_id,
                            stack,
                            state,
                            specialization,
                            callable.input,
                            decl,
                            fuel,
                            more,
                        );
                    },
                    None => {},
                },
            },
            _ => {},
        }
    }
}

/// A walk of a specialization that does not fail would be the same with a
/// larger budget.
pub proof fn lemma_walk_spec_decl_stable(
    package: &Package,
    package_id: PackageId,
    stack: Seq<usize>,
    state: WalkState,
    specialization: CallableSpecializationSelector,
    input: PatId,
    decl: SpecDecl,
    fuel: nat,
    more: nat,
)
    requires
        fuel <= more,
        !walk_spec_decl(package, package_id, stack, state, specialization, input, decl, fuel).failed,
    ensures
        walk_spec_decl(package, package_id, stack, state, specialization, input, decl, more)
            == walk_spec_decl(package, package_id, stack, state, specialization, input, decl, fuel),
    decreases fuel, 1nat,
{
    let key = specialization.spec_key();
    if !state.failed && !stack.contains(key) {
        if state.node_maps.contains_key(key) {
            lemma_walk_block_stable(
                package,
                package_id,
                stack.push(key),
                state,
                decl.block,
                (fuel - 1) as nat,
                (more - 1) as nat,
            );
        } else {
            match crate::cycle_model::input_params(package, input) {
                Some(params) => {
                    lemma_walk_block_stable(
                        package,
                        package_id,
                        stack.push(key),
                        WalkState { node_maps: state.node_maps.insert(key, params), ..state },
                        decl.block,
                        (fuel - 1) as nat,
                        (more - 1) as nat,
                    );
                },
                None => {},
            }
        }
    }
}

/// A resolution of a callee that does not find the package malformed would
/// be the same with a larger budget.
pub proof fn lemma_resolve_callee_stable(
    package: &Package,
    package_id: PackageId,
    node_map: NodeMap,
    expr: ExprId,
    fuel: nat,
    more: nat,
)
    requires
        fuel <= more,
        !(resolve_callee(package, package_id, node_map, expr, fuel) is Malformed),
    ensures
        resolve_callee(package, package_id, node_map, expr, more) == resolve_callee(
            package,
            package_id,
            node_map,
            expr,
            fuel,
        ),
    decreases fuel, 1nat,
{
    match package.exprs@[expr.0].kind {
        ExprKind::Block(block) => {
            lemma_resolve_block_stable(package, package_id, node_map, block, fuel, more);
        },
        ExprKind::UnOp(UnOp::Functor(_), operand) => {
            lemma_resolve_callee_stable(
                package,
                package_id,
                node_map,
                operand,
                (fuel - 1) as nat,
                (more - 1) as nat,
            );
        },
        ExprKind::Var(Res::Local(node)) => {
            if node_map.contains_key(node.0) {
                match node_map[node.0].kind {
                    CallableVariableKind::Local(bound) => {
                        lemma_resolve_callee_stable(
                            package,
                            package_id,
                            node_map,
                            bound,
                            (fuel - 1) as nat,
                            (more - 1) as nat,
                        );
                    },
                    CallableVariableKind::InputParam(_) => {},
                }
            }
        },
        _ => {},
    }
}

/// A resolution of a block in the place of a callee that does not find the
/// package malformed would be the same with a larger budget.
pub proof fn lemma_resolve_block_stable(
    package: &Package,
    package_id: PackageId,
    node_map: NodeMap,
    block: BlockId,
    fuel: nat,
    more: nat,
)
    requires
        fuel <= more,
        !(resolve_block(package, package_id, node_map, block, fuel) is Malformed),
    ensures
        resolve_block(package, package_id, node_map, block, more) == resolve_block(
            package,
            package_id,
            node_map,
            block,
            fuel,
        ),
    decreases fuel, 0nat,
{
    let stmts = package.blocks@[block.0].stmts@;
    if stmts.len() > 0 {
        match package.stmts@[stmts.last().0].kind {
            StmtKind::Expr(value) => {
                lemma_resolve_callee_stable(
                    package,
                    package_id,
                    node_map,
                    value,
                    (fuel - 1) as nat,
                    (more - 1) as nat,
                );
            },
            _ => {},
        }
    }
}

/// A binding of a pattern that does not find the package malformed would be
/// the same with a larger budget.
pub proof fn lemma_bind_pattern_stable(
    package: &Package,
    node_map: NodeMap,
    pat: PatId,
    expr: ExprId,
    fuel: nat,
    more: nat,
)
    requires
        fuel <= more,
        bind_pattern(package, node_map, pat, expr, fuel) is Some,
    ensures
        bind_pattern(package, node_map, pat, expr, more) == bind_pattern(
            package,
            node_map,
            pat,
            expr,
            fuel,
        ),
    decreases fuel, 0nat,
{
    match package.pats@[pat.0].kind {
        PatKind::Tuple(pats) => {
            match package.exprs@[expr.0].kind {
                ExprKind::Tuple(exprs) => {
                    lemma_bind_patterns_stable(
                        package,
                        node_map,
                        pats@,
                        exprs@,
                        if pats@.len() <= exprs@.len() {
                            pats@.len()
                        } else {
                            exprs@.len()
                        },
                        (fuel - 1) as nat,
                        (more - 1) as nat,
                    );
                },
                _ => {},
            }
        },
        _ => {},
    }
}

/// A binding of patterns that does not find the package malformed would be
/// the same with a larger budget.
pub proof fn lemma_bind_patterns_stable(
    package: &Package,
    node_map: NodeMap,
    pats: Seq<PatId>,
    exprs: Seq<ExprId>,
    count: nat,
    fuel: nat,
    more: nat,
)
    requires
        fuel <= more,
        bind_patterns(package, node_map, pats, exprs, count, fuel) is Some,
    ensures
        bind_patterns(package, node_map, pats, exprs, count, more) == bind_patterns(
            package,
            node_map,
            pats,
            exprs,
            count,
            fuel,
        ),
    decreases fuel, 1 + count,
{
    if !(count == 0 || count > pats.len() || count > exprs.len()) {
        lemma_bind_patterns_stable(
            package,
            node_map,
            pats,
            exprs,
            (count - 1) as nat,
            fuel,
            more,
        );
        lemma_bind_pattern_stable(
            package,
            bind_patterns(package, node_map, pats, exprs, (count - 1) as nat, fuel)->0,
            pats[count - 1],
            exprs[count - 1],
            fuel,
            more,
        );
    }
}

} // verus!
