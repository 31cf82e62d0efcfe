//! A call anywhere in a body is walked: callables that call each other from
//! anywhere in their bodies are reported as callables whose body is on a
//! cycle.
//!
//! Where a call stands is told by a way down to it: the body, then a
//! statement of the body, an expression of that statement, and so on, each a
//! part of the one before that the walk goes into.

use crate::cycle_laws::extends;
use crate::cycle_laws::has_body;
use crate::cycle_laws::lemma_found_body_is_reported;
use crate::cycle_laws::lemma_two_cycled_bodies_are_the_report;
use crate::cycle_laws::lemma_walk_block_extends;
use crate::cycle_laws::lemma_walk_callable_extends;
use crate::cycle_laws::lemma_walk_expr_extends;
use crate::cycle_laws::lemma_walk_optional_expr_extends;
use crate::cycle_laws::lemma_walk_stmt_extends;
use crate::cycle_laws::stands_for_body;
use crate::cycle_model::bind_pattern;
use crate::cycle_model::body_of;
use crate::cycle_model::detection;
use crate::cycle_model::input_params;
use crate::cycle_model::is_on_cycle;
use crate::cycle_model::reports_body_cycle;
use crate::cycle_model::resolve_budget;
use crate::cycle_model::resolve_callee;
use crate::cycle_model::selector_of;
use crate::cycle_model::walk_block;
use crate::cycle_model::walk_budget;
use crate::cycle_model::walk_call;
use crate::cycle_model::walk_callable;
use crate::cycle_model::walk_components;
use crate::cycle_model::walk_expr;
use crate::cycle_model::walk_exprs;
use crate::cycle_model::walk_items;
use crate::cycle_model::walk_optional_expr;
use crate::cycle_model::walk_optional_spec_decl;
use crate::cycle_model::walk_spec_decl;
use crate::cycle_model::walk_stmt;
use crate::cycle_model::walk_stmts;
use crate::cycle_model::Resolution;
use crate::cycle_model::WalkState;
use crate::fir::BlockId;
use crate::fir::ExprId;
use crate::fir::ExprKind;
use crate::fir::LocalItemId;
use crate::fir::Package;
use crate::fir::PackageId;
use crate::fir::StmtId;
use crate::fir::StmtKind;
use crate::fir::StringComponent;
use vstd::prelude::*;

verus! {

/// A block, a statement or an expression of a package.
pub enum Part {
    Block(BlockId),
    Stmt(StmtId),
    Expr(ExprId),
}

/// The state after the walk of a part.
pub open spec fn walk_part(
    package: &Package,
    package_id: PackageId,
    stack: Seq<usize>,
    state: WalkState,
    part: Part,
    fuel: nat,
) -> WalkState {
    match part {
        Part::Block(block) => walk_block(package, package_id, stack, state, block, fuel),
        Part::Stmt(stmt) => walk_stmt(package, package_id, stack, state, stmt, fuel),
        Part::Expr(expr) => walk_expr(package, package_id, stack, state, expr, fuel),
    }
}

/// Whether the expression `child` is a part of the expression `parent` that
/// the walk goes into: any expression that the parent is made of but the
/// callee of a call.
pub open spec fn is_expr_of(package: &Package, child: ExprId, parent: ExprId) -> bool {
    match package.exprs@[parent.0].kind {
        ExprKind::Array(exprs) => exprs@.contains(child),
        ExprKind::Tuple(exprs) => exprs@.contains(child),
        ExprKind::ArrayRepeat(first, second)
        | ExprKind::Assign(first, second)
        | ExprKind::AssignOp(first, second)
        | ExprKind::BinOp(first, second)
        | ExprKind::AssignField(first, second)
        | ExprKind::UpdateField(first, second)
        | ExprKind::Index(first, second) => child == first || child == second,
        ExprKind::AssignIndex(first, second, third)
        | ExprKind::UpdateIndex(first, second, third) => child == first || child == second
            || child == third,
        ExprKind::Call(_, args) => child == args,
        ExprKind::Fail(inner)
        | ExprKind::Field(inner)
        | ExprKind::Return(inner)
        | ExprKind::UnOp(_, inner) => child == inner,
        ExprKind::If(cond, body, otherwise) => child == cond || child == body || otherwise
            == Some(child),
        ExprKind::Range(start, step, end) => start == Some(child) || step == Some(child) || end
            == Some(child),
        ExprKind::String(components) => components@.contains(StringComponent::Expr(child)),
        ExprKind::While(cond, _) => child == cond,
        _ => false,
    }
}

/// Whether `child` is a part of `parent` that the walk goes into: a statement
/// of a block, the expression of a statement, an expression or a block that
/// an expression is made of.
pub open spec fn is_part_of(package: &Package, child: Part, parent: Part) -> bool {
    match parent {
        Part::Block(block) => package.blocks@.contains_key(block.0) && (child matches Part::Stmt(
            stmt,
        ) && package.blocks@[block.0].stmts@.contains(stmt)),
        Part::Stmt(stmt) => package.stmts@.contains_key(stmt.0) && (child matches Part::Expr(expr)
            && match package.stmts@[stmt.0].kind {
            StmtKind::Expr(inner) | StmtKind::Semi(inner) | StmtKind::Local(_, inner) => inner
                == expr,
            StmtKind::Item(_) => false,
        }),
        Part::Expr(parent) => package.exprs@.contains_key(parent.0) && match child {
            Part::Expr(expr) => is_expr_of(package, expr, parent),
            Part::Block(block) => match package.exprs@[parent.0].kind {
                ExprKind::Block(inner) => inner == block,
                ExprKind::While(_, inner) => inner == block,
                _ => false,
            },
            Part::Stmt(_) => false,
        },
    }
}

/// Whether the parts are a way down: each but the first is a part of the one
/// before it.
pub open spec fn is_way_down(package: &Package, way: Seq<Part>) -> bool {
    &&& way.len() > 0
    &&& forall|i: int| 0 < i < way.len() ==> is_part_of(package, #[trigger] way[i], way[i - 1])
}

/// Whether a walk has come by the part: what the walk has found holds what a
/// walk of the part has found.
pub open spec fn has_walked(
    package: &Package,
    package_id: PackageId,
    stack: Seq<usize>,
    after: WalkState,
    part: Part,
) -> bool {
    exists|before: WalkState, fuel: nat|
        extends(after, #[trigger] walk_part(package, package_id, stack, before, part, fuel))
}

/// The walk of more expressions keeps what the walk of fewer has found.
pub proof fn lemma_walk_exprs_keeps(
    package: &Package,
    package_id: PackageId,
    stack: Seq<usize>,
    state: WalkState,
    exprs: Seq<ExprId>,
    fewer: nat,
    count: nat,
    fuel: nat,
)
    requires
        fewer <= count <= exprs.len(),
    ensures
        extends(
            walk_exprs(package, package_id, stack, state, exprs, count, fuel),
            walk_exprs(package, package_id, stack, state, exprs, fewer, fuel),
        ),
    decreases count,
{
    if fewer < count {
        lemma_walk_exprs_keeps(
            package,
            package_id,
            stack,
            state,
            exprs,
            fewer,
            (count - 1) as nat,
            fuel,
        );
        lemma_walk_expr_extends(
            package,
            package_id,
            stack,
            walk_exprs(package, package_id, stack, state, exprs, (count - 1) as nat, fuel),
            exprs[count - 1],
            fuel,
        );
    }
}

/// The walk of more parts of an interpolated string keeps what the walk of
/// fewer has found.
pub proof fn lemma_walk_components_keeps(
    package: &Package,
    package_id: PackageId,
    stack: Seq<usize>,
    state: WalkState,
    components: Seq<StringComponent>,
    fewer: nat,
    count: nat,
    fuel: nat,
)
    requires
        fewer <= count <= components.len(),
    ensures
        extends(
            walk_components(package, package_id, stack, state, components, count, fuel),
            walk_components(package, package_id, stack, state, components, fewer, fuel),
        ),
    decreases count,
{
    if fewer < count {
        lemma_walk_components_keeps(
            package,
            package_id,
            stack,
            state,
            components,
            fewer,
            (count - 1) as nat,
            fuel,
        );
        match components[count - 1] {
            StringComponent::Expr(part) => {
                lemma_walk_expr_extends(
                    package,
                    package_id,
                    stack,
                    walk_components(
                        package,
                        package_id,
                        stack,
                        state,
                        components,
                        (count - 1) as nat,
                        fuel,
                    ),
                    part,
                    fuel,
                );
            },
            StringComponent::Lit => {},
        }
    }
}

/// The walk of more statements keeps what the walk of fewer has found.
pub proof fn lemma_walk_stmts_keeps(
    package: &Package,
    package_id: PackageId,
    stack: Seq<usize>,
    state: WalkState,
    stmts: Seq<StmtId>,
    fewer: nat,
    count: nat,
    fuel: nat,
)
    requires
        fewer <= count <= stmts.len(),
    ensures
        extends(
            walk_stmts(package, package_id, stack, state, stmts, count, fuel),
            walk_stmts(package, package_id, stack, state, stmts, fewer, fuel),
        ),
    decreases count,
{
    if fewer < count {
        lemma_walk_stmts_keeps(
            package,
            package_id,
            stack,
            state,
            stmts,
            fewer,
            (count - 1) as nat,
            fuel,
        );
        lemma_walk_stmt_extends(
            package,
            package_id,
            stack,
            walk_stmts(package, package_id, stack, state, stmts, (count - 1) as nat, fuel),
            stmts[count - 1],
            fuel,
        );
    }
}

/// A walk of expressions has come by each of them.
pub proof fn lemma_each_expr_is_walked(
    package: &Package,
    package_id: PackageId,
    stack: Seq<usize>,
    state: WalkState,
    exprs: Seq<ExprId>,
    child: ExprId,
    fuel: nat,
)
    requires
        exprs.contains(child),
    ensures
        has_walked(
            package,
            package_id,
            stack,
            walk_exprs(package, package_id, stack, state, exprs, exprs.len(), fuel),
            Part::Expr(child),
        ),
{
    let at = choose|i: int| 0 <= i < exprs.len() && exprs[i] == child;
    let before = walk_exprs(package, package_id, stack, state, exprs, at as nat, fuel);
    lemma_walk_exprs_keeps(
        package,
        package_id,
        stack,
        state,
        exprs,
        (at + 1) as nat,
        exprs.len(),
        fuel,
    );
    assert(walk_exprs(package, package_id, stack, state, exprs, (at + 1) as nat, fuel)
        == walk_part(package, package_id, stack, before, Part::Expr(child), fuel));
}

/// The walk of an expression that does not fail has come by each expression
/// that is a part of it.
pub proof fn lemma_expr_of_expr_is_walked(
    package: &Package,
    package_id: PackageId,
    stack: Seq<usize>,
    state: WalkState,
    parent: ExprId,
    child: ExprId,
    fuel: nat,
)
    requires
        package.exprs@.contains_key(parent.0),
        is_expr_of(package, child, parent),
        !walk_expr(package, package_id, stack, state, parent, fuel).failed,
    ensures
        has_walked(
            package,
            package_id,
            stack,
            walk_expr(package, package_id, stack, state, parent, fuel),
            Part::Expr(child),
        ),
{
    let whole = walk_expr(package, package_id, stack, state, parent, fuel);
    let rest = (fuel - 1) as nat;
    let part = Part::Expr(child);
    match package.exprs@[parent.0].kind {
        ExprKind::Array(exprs) => {
            lemma_each_expr_is_walked(package, package_id, stack, state, exprs@, child, rest);
        },
        ExprKind::Tuple(exprs) => {
            lemma_each_expr_is_walked(package, package_id, stack, state, exprs@, child, rest);
        },
        ExprKind::ArrayRepeat(first, second)
        | ExprKind::Assign(first, second)
        | ExprKind::AssignOp(first, second)
        | ExprKind::BinOp(first, second)
        | ExprKind::AssignField(first, second)
        | ExprKind::UpdateField(first, second)
        | ExprKind::Index(first, second) => {
            let one = walk_expr(package, package_id, stack, state, first, rest);
            lemma_walk_expr_extends(package, package_id, stack, one, second, rest);
            if child == first {
                assert(extends(whole, walk_part(package, package_id, stack, state, part, rest)));
            } else {
                assert(extends(whole, walk_part(package, package_id, stack, one, part, rest)));
            }
        },
        ExprKind::AssignIndex(first, second, third)
        | ExprKind::UpdateIndex(first, second, third) => {
            let one = walk_expr(package, package_id, stack, state, first, rest);
            let two = walk_expr(package, package_id, stack, one, second, rest);
            lemma_walk_expr_extends(package, package_id, stack, one, second, rest);
            lemma_walk_expr_extends(package, package_id, stack, two, third, rest);
            if child == first {
                assert(extends(whole, walk_part(package, package_id, stack, state, part, rest)));
            } else if child == second {
                assert(extends(whole, walk_part(package, package_id, stack, one, part, rest)));
            } else {
                assert(extends(whole, walk_part(package, package_id, stack, two, part, rest)));
            }
        },
        ExprKind::Call(callee, args) => {
            let inner = (rest - 1) as nat;
            let after_args = walk_expr(package, package_id, stack, state, args, inner);
            assert(whole == walk_call(package, package_id, stack, state, callee, args, rest));
            if !after_args.failed {
                match resolve_callee(
                    package,
                    package_id,
                    after_args.current_node_map(stack),
                    callee,
                    resolve_budget(package),
                ) {
                    Resolution::Resolved(specialization) => {
                        lemma_walk_callable_extends(
                            package,
                            package_id,
                            stack,
                            after_args,
                            specialization,
                            inner,
                        );
                    },
                    _ => {},
                }
            }
            assert(extends(whole, walk_part(package, package_id, stack, state, part, inner)));
        },
        ExprKind::Fail(inner)
        | ExprKind::Field(inner)
        | ExprKind::Return(inner)
        | ExprKind::UnOp(_, inner) => {
            assert(extends(whole, walk_part(package, package_id, stack, state, part, rest)));
        },
        ExprKind::If(cond, body, otherwise) => {
            let one = walk_expr(package, package_id, stack, state, cond, rest);
            let two = walk_expr(package, package_id, stack, one, body, rest);
            lemma_walk_expr_extends(package, package_id, stack, one, body, rest);
            lemma_walk_optional_expr_extends(package, package_id, stack, two, otherwise, rest);
            if child == cond {
                assert(extends(whole, walk_part(package, package_id, stack, state, part, rest)));
            } else if child == body {
                assert(extends(whole, walk_part(package, package_id, stack, one, part, rest)));
            } else {
                assert(extends(whole, walk_part(package, package_id, stack, two, part, rest)));
            }
        },
        ExprKind::Range(start, step, end) => {
            let one = walk_optional_expr(package, package_id, stack, state, start, rest);
            let two = walk_optional_expr(package, package_id, stack, one, step, rest);
            lemma_walk_optional_expr_extends(package, package_id, stack, one, step, rest);
            lemma_walk_optional_expr_extends(package, package_id, stack, two, end, rest);
            if start == Some(child) {
                assert(extends(whole, walk_part(package, package_id, stack, state, part, rest)));
            } else if step == Some(child) {
                assert(extends(whole, walk_part(package, package_id, stack, one, part, rest)));
            } else {
                assert(extends(whole, walk_part(package, package_id, stack, two, part, rest)));
            }
        },
        ExprKind::String(components) => {
            let parts = components@;
            let at = choose|i: int| 0 <= i < parts.len() && parts[i] == StringComponent::Expr(child);
            let before = walk_components(package, package_id, stack, state, parts, at as nat, rest);
            lemma_walk_components_keeps(
                package,
                package_id,
                stack,
                state,
                parts,
                (at + 1) as nat,
                parts.len(),
                rest,
            );
            assert(walk_components(package, package_id, stack, state, parts, (at + 1) as nat, rest)
                == walk_part(package, package_id, stack, before, part, rest));
        },
        ExprKind::While(cond, block) => {
            let one = walk_expr(package, package_id, stack, state, cond, rest);
            lemma_walk_block_extends(package, package_id, stack, one, block, rest);
            assert(extends(whole, walk_part(package, package_id, stack, state, part, rest)));
        },
        _ => {},
    }
}

/// The walk of a part that does not fail has come by each part of it.
pub proof fn lemma_part_is_walked(
    package: &Package,
    package_id: PackageId,
    stack: Seq<usize>,
    state: WalkState,
    parent: Part,
    child: Part,
    fuel: nat,
)
    requires
        is_part_of(package, child, parent),
        !walk_part(package, package_id, stack, state, parent, fuel).failed,
    ensures
        has_walked(
            package,
            package_id,
            stack,
            walk_part(package, package_id, stack, state, parent, fuel),
            child,
        ),
{
    let whole = walk_part(package, package_id, stack, state, parent, fuel);
    let rest = (fuel - 1) as nat;
    match parent {
        Part::Block(block) => {
            let stmts = package.blocks@[block.0].stmts@;
            let stmt = child->Stmt_0;
            let at = choose|i: int| 0 <= i < stmts.len() && stmts[i] == stmt;
            let before = walk_stmts(package, package_id, stack, state, stmts, at as nat, rest);
            lemma_walk_stmts_keeps(
                package,
                package_id,
                stack,
                state,
                stmts,
                (at + 1) as nat,
                stmts.len(),
                rest,
            );
            assert(walk_stmts(package, package_id, stack, state, stmts, (at + 1) as nat, rest)
                == walk_part(package, package_id, stack, before, child, rest));
        },
        Part::Stmt(stmt) => {
            match package.stmts@[stmt.0].kind {
                StmtKind::Local(pat, expr) => {
                    let bound = bind_pattern(
                        package,
                        state.current_node_map(stack),
                        pat,
                        expr,
                        rest,
                    );
                    assert(bound is Some);
                    let entered = state.with_current_node_map(stack, bound->0);
                    assert(extends(whole, walk_part(package, package_id, stack, entered, child, rest)));
                },
                _ => {
                    assert(extends(whole, walk_part(package, package_id, stack, state, child, rest)));
                },
            }
        },
        Part::Expr(parent) => {
            match child {
                Part::Expr(expr) => {
                    lemma_expr_of_expr_is_walked(
                        package,
                        package_id,
                        stack,
                        state,
                        parent,
                        expr,
                        fuel,
                    );
                },
                Part::Block(block) => {
                    match package.exprs@[parent.0].kind {
                        ExprKind::While(cond, _) => {
                            let one = walk_expr(package, package_id, stack, state, cond, rest);
                            assert(extends(
                                whole,
                                walk_part(package, package_id, stack, one, child, rest),
                            ));
                        },
                        _ => {
                            assert(extends(
                                whole,
                                walk_part(package, package_id, stack, state, child, rest),
                            ));
                        },
                    }
                },
                Part::Stmt(_) => {},
            }
        },
    }
}

/// The walk of a part that does not fail has come by the part at the end of
/// every way down from it.
pub proof fn lemma_way_down_is_walked(
    package: &Package,
    package_id: PackageId,
    stack: Seq<usize>,
    state: WalkState,
    way: Seq<Part>,
    fuel: nat,
)
    requires
        is_way_down(package, way),
        !walk_part(package, package_id, stack, state, way[0], fuel).failed,
    ensures
        has_walked(
            package,
            package_id,
            stack,
            walk_part(package, package_id, stack, state, way[0], fuel),
            way.last(),
        ),
    decreases way.len(),
{
    let whole = walk_part(package, package_id, stack, state, way[0], fuel);
    if way.len() == 1 {
        assert(extends(whole, walk_part(package, package_id, stack, state, way[0], fuel)));
    } else {
        assert(is_part_of(package, way[1], way[0]));
        lemma_part_is_walked(package, package_id, stack, state, way[0], way[1], fuel);
        let (before, rest) = choose|before: WalkState, rest: nat|
            extends(whole, #[trigger] walk_part(package, package_id, stack, before, way[1], rest));
        let rest_of_way = way.subrange(1, way.len() as int);
        assert forall|i: int| 0 < i < rest_of_way.len() implies is_part_of(
            package,
            #[trigger] rest_of_way[i],
            rest_of_way[i - 1],
        ) by {
            assert(rest_of_way[i] == way[i + 1]);
            assert(rest_of_way[i - 1] == way[i + 1 - 1]);
        }
        assert(rest_of_way[0] == way[1]);
        assert(rest_of_way.last() == way.last());
        lemma_way_down_is_walked(package, package_id, stack, before, rest_of_way, rest);
        let mid = walk_part(package, package_id, stack, before, way[1], rest);
        let (start, left) = choose|start: WalkState, left: nat|
            extends(mid, #[trigger] walk_part(package, package_id, stack, start, way.last(), left));
        assert(extends(whole, walk_part(package, package_id, stack, start, way.last(), left)));
    }
}

/// Whether the callable `caller` has a body with a call of the item `callee`
/// of this package at the end of the way down: the way begins with the body,
/// it ends with a call, and the callee of the call stands for the body of the
/// item, whatever the locals are bound to.
pub open spec fn calls_at(
    package: &Package,
    package_id: PackageId,
    caller: LocalItemId,
    callee: LocalItemId,
    way: Seq<Part>,
) -> bool {
    &&& has_body(package, caller)
    &&& is_way_down(package, way)
    &&& way[0] == Part::Block(
        package.items@[caller.0].kind->Callable_0.implementation->Spec_0.body.block,
    )
    &&& way.last() matches Part::Expr(call)
    &&& package.exprs@.contains_key(call.0)
    &&& package.exprs@[call.0].kind matches ExprKind::Call(name, _)
    &&& stands_for_body(package, package_id, name, callee)
}

/// A walk inside a specialization that has come by a call of the body of a
/// callable on the stack has found that body on a cycle.
pub proof fn lemma_call_into_stack_is_found(
    package: &Package,
    package_id: PackageId,
    stack: Seq<usize>,
    after: WalkState,
    call: ExprId,
    callee: LocalItemId,
)
    requires
        has_walked(package, package_id, stack, after, Part::Expr(call)),
        !after.failed,
        has_body(package, callee),
        package.exprs@.contains_key(call.0),
        package.exprs@[call.0].kind matches ExprKind::Call(name, _) && stands_for_body(
            package,
            package_id,
            name,
            callee,
        ),
        stack.contains(body_of(callee).spec_key()),
    ensures
        is_on_cycle(after.cycles, callee, false, false),
{
    let (before, fuel) = choose|before: WalkState, fuel: nat|
        extends(
            after,
            #[trigger] walk_part(package, package_id, stack, before, Part::Expr(call), fuel),
        );
    let found = walk_expr(package, package_id, stack, before, call, fuel);
    let name = package.exprs@[call.0].kind->Call_0;
    let args = package.exprs@[call.0].kind->Call_1;
    assert(!found.failed);
    assert(found == walk_call(package, package_id, stack, before, name, args, (fuel - 1) as nat));
    let after_args = walk_expr(package, package_id, stack, before, args, (fuel - 2) as nat);
    assert(resolve_callee(
        package,
        package_id,
        after_args.current_node_map(stack),
        name,
        resolve_budget(package),
    ) == Resolution::Resolved(body_of(callee)));
    assert(body_of(callee) == selector_of(callee, false, false));
    assert(!after_args.failed);
    let called = package.items@[callee.0].kind->Callable_0;
    assert(found == walk_callable(
        package,
        package_id,
        stack,
        after_args,
        body_of(callee),
        (fuel - 2) as nat,
    ));
    assert(found == walk_spec_decl(
        package,
        package_id,
        stack,
        after_args,
        body_of(callee),
        called.input,
        called.implementation->Spec_0.body,
        (fuel - 2) as nat,
    ));
    assert(found.cycles.contains(body_of(callee).spec_key()));
}

/// With two callables that call each other from anywhere in their bodies,
/// the walk of the body of the first from outside any specialization finds
/// that body on a cycle, unless it fails.
pub proof fn lemma_calls_anywhere_close_a_cycle(
    package: &Package,
    package_id: PackageId,
    state: WalkState,
    first: LocalItemId,
    second: LocalItemId,
    way: Seq<Part>,
    way_back: Seq<Part>,
)
    requires
        calls_at(package, package_id, first, second, way),
        calls_at(package, package_id, second, first, way_back),
    ensures
        ({
            let callable = package.items@[first.0].kind->Callable_0;
            let after = walk_optional_spec_decl(
                package,
                package_id,
                state,
                selector_of(first, false, false),
                callable.input,
                Some(callable.implementation->Spec_0.body),
            );
            !after.failed ==> is_on_cycle(after.cycles, first, false, false)
        }),
{
    let caller = package.items@[first.0].kind->Callable_0;
    let callee = package.items@[second.0].kind->Callable_0;
    let caller_body = caller.implementation->Spec_0.body;
    let callee_body = callee.implementation->Spec_0.body;
    let outer = selector_of(first, false, false);
    let inner = selector_of(second, false, false);
    assert(body_of(first) == outer);
    assert(body_of(second) == inner);
    let outer_key = outer.spec_key();
    let inner_key = inner.spec_key();
    let budget = walk_budget(package);
    let none = Seq::<usize>::empty();
    let after = walk_spec_decl(
        package,
        package_id,
        none,
        state,
        outer,
        caller.input,
        caller_body,
        budget,
    );
    if !after.failed {
        let stack = none.push(outer_key);
        assert(!none.contains(outer_key));
        assert(stack[0] == outer_key);
        let entered = if state.node_maps.contains_key(outer_key) {
            state
        } else {
            WalkState {
                node_maps: state.node_maps.insert(outer_key, input_params(package, caller.input)->0),
                ..state
            }
        };
        assert(after == walk_part(
            package,
            package_id,
            stack,
            entered,
            way[0],
            (budget - 1) as nat,
        ));
        lemma_way_down_is_walked(package, package_id, stack, entered, way, (budget - 1) as nat);
        let call = way.last()->Expr_0;
        let (before, fuel) = choose|before: WalkState, fuel: nat|
            extends(
                after,
                #[trigger] walk_part(package, package_id, stack, before, Part::Expr(call), fuel),
            );
        let found = walk_expr(package, package_id, stack, before, call, fuel);
        let name = package.exprs@[call.0].kind->Call_0;
        let args = package.exprs@[call.0].kind->Call_1;
        assert(!found.failed);
        assert(found == walk_call(package, package_id, stack, before, name, args, (fuel - 1) as nat));
        let after_args = walk_expr(package, package_id, stack, before, args, (fuel - 2) as nat);
        assert(resolve_callee(
            package,
            package_id,
            after_args.current_node_map(stack),
            name,
            resolve_budget(package),
        ) == Resolution::Resolved(inner));
        assert(found == walk_spec_decl(
            package,
            package_id,
            stack,
            after_args,
            inner,
            callee.input,
            callee_body,
            (fuel - 2) as nat,
        ));
        if stack.contains(inner_key) {
            assert(inner_key == outer_key);
            assert(found.cycles.contains(outer_key));
        } else {
            let deeper = stack.push(inner_key);
            assert(deeper[0] == outer_key);
            assert(deeper.contains(outer_key));
            let entered_callee = if after_args.node_maps.contains_key(inner_key) {
                after_args
            } else {
                WalkState {
                    node_maps: after_args.node_maps.insert(
                        inner_key,
                        input_params(package, callee.input)->0,
                    ),
                    ..after_args
                }
            };
            assert(found == walk_part(
                package,
                package_id,
                deeper,
                entered_callee,
                way_back[0],
                (fuel - 3) as nat,
            ));
            lemma_way_down_is_walked(
                package,
                package_id,
                deeper,
                entered_callee,
                way_back,
                (fuel - 3) as nat,
            );
            lemma_call_into_stack_is_found(
                package,
                package_id,
                deeper,
                found,
                way_back.last()->Expr_0,
                first,
            );
        }
    }
}

/// Two callables that call each other from anywhere in their bodies are both
/// reported as callables whose body is on a cycle.
pub proof fn lemma_mutual_recursion_anywhere_is_reported(
    package: &Package,
    package_id: PackageId,
    first: LocalItemId,
    second: LocalItemId,
    way: Seq<Part>,
    way_back: Seq<Part>,
)
    requires
        detection(package, package_id) is Some,
        calls_at(package, package_id, first, second, way),
        calls_at(package, package_id, second, first, way_back),
    ensures
        reports_body_cycle(detection(package, package_id)->0, first),
        reports_body_cycle(detection(package, package_id)->0, second),
{
    lemma_calls_anywhere_close_a_cycle(
        package,
        package_id,
        walk_items(package, package_id, first.0 as nat),
        first,
        second,
        way,
        way_back,
    );
    lemma_found_body_is_reported(package, package_id, first);
    lemma_calls_anywhere_close_a_cycle(
        package,
        package_id,
        walk_items(package, package_id, second.0 as nat),
        second,
        first,
        way_back,
        way,
    );
    lemma_found_body_is_reported(package, package_id, second);
}

/// Where two callables that call each other from anywhere in their bodies are
/// the only callables with a body of a package, the report holds two entries:
/// one for the callable with the smaller key and then one for the other, each
/// with the body on a cycle, and with a flag for each other specialization
/// that the callable has and for no other.
pub proof fn lemma_two_callables_anywhere_are_the_report(
    package: &Package,
    package_id: PackageId,
    first: LocalItemId,
    second: LocalItemId,
    way: Seq<Part>,
    way_back: Seq<Part>,
)
    requires
        detection(package, package_id) is Some,
        first != second,
        calls_at(package, package_id, first, second, way),
        calls_at(package, package_id, second, first, way_back),
        forall|item: LocalItemId| #[trigger]
            has_body(package, item) ==> item == first || item == second,
    ensures
        ({
            let report = detection(package, package_id)->0;
            let lower = if first.0 < second.0 {
                first
            } else {
                second
            };
            let upper = if first.0 < second.0 {
                second
            } else {
                first
            };
            &&& report.len() == 2
            &&& report[0].id == lower
            &&& report[1].id == upper
            &&& forall|i: int|
                #![trigger report[i]]
                0 <= i < 2 ==> {
                    let specs = package.items@[report[i].id.0].kind->Callable_0.implementation->Spec_0;
                    &&& report[i].is_body_cycled
                    &&& report[i].is_adj_cycled is Some <==> specs.adj is Some
                    &&& report[i].is_ctl_cycled is Some <==> specs.ctl is Some
                    &&& report[i].is_ctl_adj_cycled is Some <==> specs.ctl_adj is Some
                }
        }),
{
    lemma_mutual_recursion_anywhere_is_reported(package, package_id, first, second, way, way_back);
    lemma_two_cycled_bodies_are_the_report(package, package_id, first, second);
}

} // verus!
