//! What holds of the evaluation of every body.
//!
//! Which calls a body makes, and whether its evaluation fails, depends
//! neither on the parameters that are dynamic nor on the compute properties
//! that are known: the evaluation takes the same course through the body in
//! every application. And what an evaluation that does not fail gives does
//! not depend on its budget.

use crate::cycle_laws::lemma_bind_pattern_stable;
use crate::fir::BlockId;
use crate::fir::ExprId;
use crate::fir::ExprKind;
use crate::fir::Package;
use crate::fir::PackageId;
use crate::fir::PatId;
use crate::fir::PatKind;
use crate::fir::StmtId;
use crate::fir::StmtKind;
use crate::fir::StringComponent;
use crate::propagation_model::body_apps;
use crate::propagation_model::eval_app;
use crate::propagation_model::eval_arg_list;
use crate::propagation_model::eval_args;
use crate::propagation_model::eval_block;
use crate::propagation_model::eval_budget;
use crate::propagation_model::eval_call;
use crate::propagation_model::eval_components;
use crate::propagation_model::eval_expr;
use crate::propagation_model::eval_operand;
use crate::propagation_model::eval_operands;
use crate::propagation_model::eval_optional_operand;
use crate::propagation_model::eval_stmt;
use crate::propagation_model::eval_stmts;
use crate::propagation_model::initial_state;
use crate::propagation_model::lemma_eval_block_keeps_failure;
use crate::propagation_model::lemma_eval_expr_keeps_failure;
use crate::propagation_model::lemma_eval_optional_keeps_failure;
use crate::propagation_model::lemma_eval_stmt_keeps_failure;
use crate::propagation_model::lemma_mark_pattern_defined;
use crate::propagation_model::mark_pattern;
use crate::propagation_model::mark_patterns;
use crate::propagation_model::EvalState;
use crate::propagation_model::KnownProps;
use vstd::prelude::*;

verus! {

/// Whether two evaluations have taken the same course: they know the same
/// bindings, have met the same calls, and have both failed or both not.
pub open spec fn same_course(first: EvalState, second: EvalState) -> bool {
    &&& first.node_map == second.node_map
    &&& first.callees == second.callees
    &&& first.failed == second.failed
}

/// Two evaluations of an expression from states on the same course end on
/// the same course.
pub proof fn lemma_eval_expr_course(
    package: &Package,
    package_id: PackageId,
    known: KnownProps,
    other: KnownProps,
    first: EvalState,
    second: EvalState,
    expr: ExprId,
    fuel: nat,
)
    requires
        same_course(first, second),
    ensures
        same_course(
            eval_expr(package, package_id, known, first, expr, fuel).state,
            eval_expr(package, package_id, other, second, expr, fuel).state,
        ),
    decreases fuel, 0nat,
{
    if !first.failed && fuel > 0 && package.exprs@.contains_key(expr.0) {
        let rest = (fuel - 1) as nat;
        match package.exprs@[expr.0].kind {
            ExprKind::Call(callee, args) => {
                lemma_eval_call_course(
                    package,
                    package_id,
                    known,
                    other,
                    first,
                    second,
                    callee,
                    args,
                    rest,
                );
            },
            ExprKind::Block(block) => {
                lemma_eval_block_course(
                    package,
                    package_id,
                    known,
                    other,
                    first,
                    second,
                    block,
                    rest,
                );
            },
            ExprKind::While(cond, block) => {
                lemma_eval_operand_course(
                    package,
                    package_id,
                    known,
                    other,
                    first,
                    second,
                    cond,
                    rest,
                );
                lemma_eval_block_course(
                    package,
                    package_id,
                    known,
                    other,
                    eval_operand(package, package_id, known, first, cond, rest).state,
                    eval_operand(package, package_id, other, second, cond, rest).state,
                    block,
                    rest,
                );
            },
            ExprKind::Assign(target, value)
            | ExprKind::AssignOp(target, value)
            | ExprKind::AssignField(target, value) => {
                lemma_eval_operand_course(
                    package,
                    package_id,
                    known,
                    other,
                    first,
                    second,
                    target,
                    rest,
                );
                lemma_eval_operand_course(
                    package,
                    package_id,
                    known,
                    other,
                    eval_operand(package, package_id, known, first, target, rest).state,
                    eval_operand(package, package_id, other, second, target, rest).state,
                    value,
                    rest,
                );
            },
            ExprKind::AssignIndex(target, index, value) => {
                let one = eval_operand(package, package_id, known, first, target, rest).state;
                let one_other = eval_operand(
                    package,
                    package_id,
                    other,
                    second,
                    target,
                    rest,
                ).state;
                lemma_eval_operand_course(
                    package,
                    package_id,
                    known,
                    other,
                    first,
                    second,
                    target,
                    rest,
                );
                lemma_eval_operand_course(
                    package,
                    package_id,
                    known,
                    other,
                    one,
                    one_other,
                    index,
                    rest,
                );
                lemma_eval_operand_course(
                    package,
                    package_id,
                    known,
                    other,
                    eval_operand(package, package_id, known, one, index, rest).state,
                    eval_operand(package, package_id, other, one_other, index, rest).state,
                    value,
                    rest,
                );
            },
            ExprKind::Array(exprs) | ExprKind::Tuple(exprs) => {
                lemma_eval_operands_course(
                    package,
                    package_id,
                    known,
                    other,
                    first,
                    second,
                    exprs@,
                    exprs@.len(),
                    rest,
                );
            },
            ExprKind::ArrayRepeat(one, two)
            | ExprKind::BinOp(one, two)
            | ExprKind::UpdateField(one, two)
            | ExprKind::Index(one, two) => {
                lemma_eval_operands_course(
                    package,
                    package_id,
                    known,
                    other,
                    first,
                    second,
                    seq![one, two],
                    2,
                    rest,
                );
            },
            ExprKind::UpdateIndex(one, two, three) => {
                lemma_eval_operands_course(
                    package,
                    package_id,
                    known,
                    other,
                    first,
                    second,
                    seq![one, two, three],
                    3,
                    rest,
                );
            },
            ExprKind::Fail(inner)
            | ExprKind::Field(inner)
            | ExprKind::Return(inner)
            | ExprKind::UnOp(_, inner) => {
                lemma_eval_operand_course(
                    package,
                    package_id,
                    known,
                    other,
                    first,
                    second,
                    inner,
                    rest,
                );
            },
            ExprKind::If(cond, body, otherwise) => {
                lemma_eval_operands_course(
                    package,
                    package_id,
                    known,
                    other,
                    first,
                    second,
                    seq![cond, body],
                    2,
                    rest,
                );
                lemma_eval_optional_course(
                    package,
                    package_id,
                    known,
                    other,
                    eval_operands(package, package_id, known, first, seq![cond, body], 2, rest).state,
                    eval_operands(package, package_id, other, second, seq![cond, body], 2, rest).state,
                    otherwise,
                    rest,
                );
            },
            ExprKind::Range(start, step, end) => {
                let one = eval_optional_operand(
                    package,
                    package_id,
                    known,
                    first,
                    start,
                    rest,
                ).state;
                let one_other = eval_optional_operand(
                    package,
                    package_id,
                    other,
                    second,
                    start,
                    rest,
                ).state;
                lemma_eval_optional_course(
                    package,
                    package_id,
                    known,
                    other,
                    first,
                    second,
                    start,
                    rest,
                );
                lemma_eval_optional_course(
                    package,
                    package_id,
                    known,
                    other,
                    one,
                    one_other,
                    step,
                    rest,
                );
                lemma_eval_optional_course(
                    package,
                    package_id,
                    known,
                    other,
                    eval_optional_operand(package, package_id, known, one, step, rest).state,
                    eval_optional_operand(package, package_id, other, one_other, step, rest).state,
                    end,
                    rest,
                );
            },
            ExprKind::String(components) => {
                lemma_eval_components_course(
                    package,
                    package_id,
                    known,
                    other,
                    first,
                    second,
                    components@,
                    components@.len(),
                    rest,
                );
            },
            ExprKind::Closure(_) | ExprKind::Hole | ExprKind::Lit | ExprKind::Var(_) => {},
        }
    }
}

/// Two evaluations of an operand from states on the same course end on the
/// same course.
pub proof fn lemma_eval_operand_course(
    package: &Package,
    package_id: PackageId,
    known: KnownProps,
    other: KnownProps,
    first: EvalState,
    second: EvalState,
    expr: ExprId,
    fuel: nat,
)
    requires
        same_course(first, second),
    ensures
        same_course(
            eval_operand(package, package_id, known, first, expr, fuel).state,
            eval_operand(package, package_id, other, second, expr, fuel).state,
        ),
    decreases fuel, 1nat,
{
    lemma_eval_expr_course(package, package_id, known, other, first, second, expr, fuel);
}

/// Two evaluations of an operand that may be absent from states on the same
/// course end on the same course.
pub proof fn lemma_eval_optional_course(
    package: &Package,
    package_id: PackageId,
    known: KnownProps,
    other: KnownProps,
    first: EvalState,
    second: EvalState,
    expr: Option<ExprId>,
    fuel: nat,
)
    requires
        same_course(first, second),
    ensures
        same_course(
            eval_optional_operand(package, package_id, known, first, expr, fuel).state,
            eval_optional_operand(package, package_id, other, second, expr, fuel).state,
        ),
    decreases fuel, 2nat,
{
    match expr {
        Some(expr) => {
            lemma_eval_operand_course(package, package_id, known, other, first, second, expr, fuel);
        },
        None => {},
    }
}

/// Two evaluations of operands from states on the same course end on the
/// same course.
pub proof fn lemma_eval_operands_course(
    package: &Package,
    package_id: PackageId,
    known: KnownProps,
    other: KnownProps,
    first: EvalState,
    second: EvalState,
    exprs: Seq<ExprId>,
    count: nat,
    fuel: nat,
)
    requires
        same_course(first, second),
    ensures
        same_course(
            eval_operands(package, package_id, known, first, exprs, count, fuel).state,
            eval_operands(package, package_id, other, second, exprs, count, fuel).state,
        ),
    decreases fuel, 2 + count,
{
    if !(count == 0 || count > exprs.len()) {
        lemma_eval_operands_course(
            package,
            package_id,
            known,
            other,
            first,
            second,
            exprs,
            (count - 1) as nat,
            fuel,
        );
        lemma_eval_operand_course(
            package,
            package_id,
            known,
            other,
            eval_operands(package, package_id, known, first, exprs, (count - 1) as nat, fuel).state,
            eval_operands(package, package_id, other, second, exprs, (count - 1) as nat, fuel).state,
            exprs[count - 1],
            fuel,
        );
    }
}

/// Two evaluations of the parts of an interpolated string from states on the
/// same course end on the same course.
pub proof fn lemma_eval_components_course(
    package: &Package,
    package_id: PackageId,
    known: KnownProps,
    other: KnownProps,
    first: EvalState,
    second: EvalState,
    components: Seq<StringComponent>,
    count: nat,
    fuel: nat,
)
    requires
        same_course(first, second),
    ensures
        same_course(
            eval_components(package, package_id, known, first, components, count, fuel).state,
            eval_components(package, package_id, other, second, components, count, fuel).state,
        ),
    decreases fuel, 2 + count,
{
    if !(count == 0 || count > components.len()) {
        lemma_eval_components_course(
            package,
            package_id,
            known,
            other,
            first,
            second,
            components,
            (count - 1) as nat,
            fuel,
        );
        match components[count - 1] {
            StringComponent::Expr(expr) => {
                lemma_eval_operand_course(
                    package,
                    package_id,
                    known,
                    other,
                    eval_components(
                        package,
                        package_id,
                        known,
                        first,
                        components,
                        (count - 1) as nat,
                        fuel,
                    ).state,
                    eval_components(
                        package,
                        package_id,
                        other,
                        second,
                        components,
                        (count - 1) as nat,
                        fuel,
                    ).state,
                    expr,
                    fuel,
                );
            },
            StringComponent::Lit => {},
        }
    }
}

/// Two evaluations of arguments from states on the same course end on the
/// same course.
pub proof fn lemma_eval_args_course(
    package: &Package,
    package_id: PackageId,
    known: KnownProps,
    other: KnownProps,
    first: EvalState,
    second: EvalState,
    args: ExprId,
    fuel: nat,
)
    requires
        same_course(first, second),
    ensures
        same_course(
            eval_args(package, package_id, known, first, args, fuel).state,
            eval_args(package, package_id, other, second, args, fuel).state,
        ),
    decreases fuel, 1nat,
{
    if !first.failed && fuel > 0 && package.exprs@.contains_key(args.0) {
        match package.exprs@[args.0].kind {
            ExprKind::Tuple(exprs) => {
                lemma_eval_arg_list_course(
                    package,
                    package_id,
                    known,
                    other,
                    first,
                    second,
                    exprs@,
                    exprs@.len(),
                    (fuel - 1) as nat,
                );
            },
            _ => {
                lemma_eval_expr_course(
                    package,
                    package_id,
                    known,
                    other,
                    first,
                    second,
                    args,
                    fuel,
                );
            },
        }
    }
}

/// Two evaluations of a list of arguments from states on the same course end
/// on the same course.
pub proof fn lemma_eval_arg_list_course(
    package: &Package,
    package_id: PackageId,
    known: KnownProps,
    other: KnownProps,
    first: EvalState,
    second: EvalState,
    exprs: Seq<ExprId>,
    count: nat,
    fuel: nat,
)
    requires
        same_course(first, second),
    ensures
        same_course(
            eval_arg_list(package, package_id, known, first, exprs, count, fuel).state,
            eval_arg_list(package, package_id, other, second, exprs, count, fuel).state,
        ),
    decreases fuel, 2 + count,
{
    if !(count == 0 || count > exprs.len()) {
        lemma_eval_arg_list_course(
            package,
            package_id,
            known,
            other,
            first,
            second,
            exprs,
            (count - 1) as nat,
            fuel,
        );
        lemma_eval_expr_course(
            package,
            package_id,
            known,
            other,
            eval_arg_list(package, package_id, known, first, exprs, (count - 1) as nat, fuel).state,
            eval_arg_list(package, package_id, other, second, exprs, (count - 1) as nat, fuel).state,
            exprs[count - 1],
            fuel,
        );
    }
}

/// Two evaluations of a call from states on the same course end on the same
/// course.
pub proof fn lemma_eval_call_course(
    package: &Package,
    package_id: PackageId,
    known: KnownProps,
    other: KnownProps,
    first: EvalState,
    second: EvalState,
    callee: ExprId,
    args: ExprId,
    fuel: nat,
)
    requires
        same_course(first, second),
    ensures
        same_course(
            eval_call(package, package_id, known, first, callee, args, fuel).state,
            eval_call(package, package_id, other, second, callee, args, fuel).state,
        ),
    decreases fuel, 0nat,
{
    if !first.failed && fuel > 0 {
        lemma_eval_args_course(
            package,
            package_id,
            known,
            other,
            first,
            second,
            args,
            (fuel - 1) as nat,
        );
    }
}

/// Two evaluations of a block from states on the same course end on the same
/// course.
pub proof fn lemma_eval_block_course(
    package: &Package,
    package_id: PackageId,
    known: KnownProps,
    other: KnownProps,
    first: EvalState,
    second: EvalState,
    block: BlockId,
    fuel: nat,
)
    requires
        same_course(first, second),
    ensures
        same_course(
            eval_block(package, package_id, known, first, block, fuel).state,
            eval_block(package, package_id, other, second, block, fuel).state,
        ),
    decreases fuel, 0nat,
{
    if !first.failed && fuel > 0 && package.blocks@.contains_key(block.0) {
        lemma_eval_stmts_course(
            package,
            package_id,
            known,
            other,
            first,
            second,
            package.blocks@[block.0].stmts@,
            package.blocks@[block.0].stmts@.len(),
            (fuel - 1) as nat,
        );
    }
}

/// Two evaluations of statements from states on the same course end on the
/// same course.
pub proof fn lemma_eval_stmts_course(
    package: &Package,
    package_id: PackageId,
    known: KnownProps,
    other: KnownProps,
    first: EvalState,
    second: EvalState,
    stmts: Seq<StmtId>,
    count: nat,
    fuel: nat,
)
    requires
        same_course(first, second),
    ensures
        same_course(
            eval_stmts(package, package_id, known, first, stmts, count, fuel).state,
            eval_stmts(package, package_id, other, second, stmts, count, fuel).state,
        ),
    decreases fuel, 2 + count,
{
    if !(count == 0 || count > stmts.len()) {
        lemma_eval_stmts_course(
            package,
            package_id,
            known,
            other,
            first,
            second,
            stmts,
            (count - 1) as nat,
            fuel,
        );
        lemma_eval_stmt_course(
            package,
            package_id,
            known,
            other,
            eval_stmts(package, package_id, known, first, stmts, (count - 1) as nat, fuel).state,
            eval_stmts(package, package_id, other, second, stmts, (count - 1) as nat, fuel).state,
            stmts[count - 1],
            fuel,
        );
    }
}

/// Two evaluations of a statement from states on the same course end on the
/// same course.
pub proof fn lemma_eval_stmt_course(
    package: &Package,
    package_id: PackageId,
    known: KnownProps,
    other: KnownProps,
    first: EvalState,
    second: EvalState,
    stmt: StmtId,
    fuel: nat,
)
    requires
        same_course(first, second),
    ensures
        same_course(
            eval_stmt(package, package_id, known, first, stmt, fuel).state,
            eval_stmt(package, package_id, other, second, stmt, fuel).state,
        ),
    decreases fuel, 0nat,
{
    if !first.failed && fuel > 0 && package.stmts@.contains_key(stmt.0) {
        let rest = (fuel - 1) as nat;
        match package.stmts@[stmt.0].kind {
            StmtKind::Item(_) => {},
            StmtKind::Expr(expr) | StmtKind::Semi(expr) => {
                lemma_eval_expr_course(
                    package,
                    package_id,
                    known,
                    other,
                    first,
                    second,
                    expr,
                    rest,
                );
            },
            StmtKind::Local(pat, expr) => {
                lemma_eval_expr_course(
                    package,
                    package_id,
                    known,
                    other,
                    first,
                    second,
                    expr,
                    rest,
                );
                let value = eval_expr(package, package_id, known, first, expr, rest);
                let value_other = eval_expr(package, package_id, other, second, expr, rest);
                lemma_mark_pattern_defined(
                    package,
                    value.state.dynamic,
                    value_other.state.dynamic,
                    pat,
                    rest,
                );
            },
        }
    }
}

/// The evaluations of any two applications of a callable with a body, with
/// whatever compute properties known, both fail or both succeed, and where
/// they succeed, they have met the same calls.
pub proof fn lemma_applications_take_the_same_course(
    package: &Package,
    package_id: PackageId,
    known: KnownProps,
    other: KnownProps,
    input: PatId,
    body: BlockId,
    index: nat,
    other_index: nat,
)
    ensures
        eval_app(package, package_id, known, input, body, index) is Some <==> eval_app(
            package,
            package_id,
            other,
            input,
            body,
            other_index,
        ) is Some,
        eval_app(package, package_id, known, input, body, index) is Some ==> eval_app(
            package,
            package_id,
            known,
            input,
            body,
            index,
        )->0.callees == eval_app(package, package_id, other, input, body, other_index)->0.callees,
{
    match initial_state(package, input, index) {
        Some(first) => {
            let second = initial_state(package, input, other_index)->0;
            lemma_eval_block_course(
                package,
                package_id,
                known,
                other,
                first,
                second,
                body,
                eval_budget(package),
            );
        },
        None => {},
    }
}

/// Where the evaluation of one application of a callable with a body
/// succeeds, the evaluation of every application does: the callable has a
/// table of as many applications as are asked for.
pub proof fn lemma_one_application_decides(
    package: &Package,
    package_id: PackageId,
    known: KnownProps,
    input: PatId,
    body: BlockId,
    count: nat,
)
    requires
        eval_app(package, package_id, known, input, body, 0) is Some,
    ensures
        body_apps(package, package_id, known, input, body, count) is Some,
    decreases count,
{
    if count > 0 {
        lemma_one_application_decides(package, package_id, known, input, body, (count - 1) as nat);
        lemma_applications_take_the_same_course(
            package,
            package_id,
            known,
            known,
            input,
            body,
            0,
            (count - 1) as nat,
        );
    }
}

/// An evaluation of an expression that does not fail would be the same with
/// a larger budget.
pub proof fn lemma_eval_expr_stable(
    package: &Package,
    package_id: PackageId,
    known: KnownProps,
    state: EvalState,
    expr: ExprId,
    fuel: nat,
    more: nat,
)
    requires
        fuel <= more,
        !eval_expr(package, package_id, known, state, expr, fuel).state.failed,
    ensures
        eval_expr(package, package_id, known, state, expr, more) == eval_expr(
            package,
            package_id,
            known,
            state,
            expr,
            fuel,
        ),
    decreases fuel, 0nat,
{
    if !state.failed {
        let rest = (fuel - 1) as nat;
        let more_rest = (more - 1) as nat;
        match package.exprs@[expr.0].kind {
            ExprKind::Call(callee, args) => {
                lemma_eval_call_stable(
                    package,
                    package_id,
                    known,
                    state,
                    callee,
                    args,
                    rest,
                    more_rest,
                );
            },
            ExprKind::Block(block) => {
                lemma_eval_block_stable(package, package_id, known, state, block, rest, more_rest);
            },
            ExprKind::While(cond, block) => {
                let one = eval_operand(package, package_id, known, state, cond, rest).state;
                if one.failed {
                    lemma_eval_block_keeps_failure(
                        package,
                        package_id,
                        known,
                        one,
                        block,
                        rest,
                    );
                }
                lemma_eval_operand_stable(package, package_id, known, state, cond, rest, more_rest);
                lemma_eval_block_stable(package, package_id, known, one, block, rest, more_rest);
            },
            ExprKind::Assign(target, value)
            | ExprKind::AssignOp(target, value)
            | ExprKind::AssignField(target, value) => {
                let one = eval_operand(package, package_id, known, state, target, rest).state;
                if one.failed {
                    lemma_eval_expr_keeps_failure(
                        package,
                        package_id,
                        known,
                        one,
                        value,
                        rest,
                    );
                }
                lemma_eval_operand_stable(
                    package,
                    package_id,
                    known,
                    state,
                    target,
                    rest,
                    more_rest,
                );
                lemma_eval_operand_stable(package, package_id, known, one, value, rest, more_rest);
            },
            ExprKind::AssignIndex(target, index, value) => {
                let one = eval_operand(package, package_id, known, state, target, rest).state;
                let two = eval_operand(package, package_id, known, one, index, rest).state;
                if two.failed {
                    lemma_eval_expr_keeps_failure(
                        package,
                        package_id,
                        known,
                        two,
                        value,
                        rest,
                    );
                }
                if one.failed {
                    lemma_eval_expr_keeps_failure(
                        package,
                        package_id,
                        known,
                        one,
                        index,
                        rest,
                    );
                }
                lemma_eval_operand_stable(
                    package,
                    package_id,
                    known,
                    state,
                    target,
                    rest,
                    more_rest,
                );
                lemma_eval_operand_stable(package, package_id, known, one, index, rest, more_rest);
                lemma_eval_operand_stable(package, package_id, known, two, value, rest, more_rest);
            },
            ExprKind::Array(exprs) | ExprKind::Tuple(exprs) => {
                lemma_eval_operands_stable(
                    package,
                    package_id,
                    known,
                    state,
                    exprs@,
                    exprs@.len(),
                    rest,
                    more_rest,
                );
            },
            ExprKind::ArrayRepeat(one, two)
            | ExprKind::BinOp(one, two)
            | ExprKind::UpdateField(one, two)
            | ExprKind::Index(one, two) => {
                lemma_eval_operands_stable(
                    package,
                    package_id,
                    known,
                    state,
                    seq![one, two],
                    2,
                    rest,
                    more_rest,
                );
            },
            ExprKind::UpdateIndex(one, two, three) => {
                lemma_eval_operands_stable(
                    package,
                    package_id,
                    known,
                    state,
                    seq![one, two, three],
                    3,
                    rest,
                    more_rest,
                );
            },
            ExprKind::Fail(inner)
            | ExprKind::Field(inner)
            | ExprKind::Return(inner)
            | ExprKind::UnOp(_, inner) => {
                lemma_eval_operand_stable(
                    package,
                    package_id,
                    known,
                    state,
                    inner,
                    rest,
                    more_rest,
                );
            },
            ExprKind::If(cond, body, otherwise) => {
                let both = eval_operands(
                    package,
                    package_id,
                    known,
                    state,
                    seq![cond, body],
                    2,
                    rest,
                ).state;
                if both.failed {
                    lemma_eval_optional_keeps_failure(
                        package,
                        package_id,
                        known,
                        both,
                        otherwise,
                        rest,
                    );
                }
                lemma_eval_operands_stable(
                    package,
                    package_id,
                    known,
                    state,
                    seq![cond, body],
                    2,
                    rest,
                    more_rest,
                );
                lemma_eval_optional_stable(
                    package,
                    package_id,
                    known,
                    both,
                    otherwise,
                    rest,
                    more_rest,
                );
            },
            ExprKind::Range(start, step, end) => {
                let one = eval_optional_operand(
                    package,
                    package_id,
                    known,
                    state,
                    start,
                    rest,
                ).state;
                let two = eval_optional_operand(package, package_id, known, one, step, rest).state;
                if two.failed {
                    lemma_eval_optional_keeps_failure(
                        package,
                        package_id,
                        known,
                        two,
                        end,
                        rest,
                    );
                }
                if one.failed {
                    lemma_eval_optional_keeps_failure(
                        package,
                        package_id,
                        known,
                        one,
                        step,
                        rest,
                    );
                }
                lemma_eval_optional_stable(
                    package,
                    package_id,
                    known,
                    state,
                    start,
                    rest,
                    more_rest,
                );
                lemma_eval_optional_stable(package, package_id, known, one, step, rest, more_rest);
                lemma_eval_optional_stable(package, package_id, known, two, end, rest, more_rest);
            },
            ExprKind::String(components) => {
                lemma_eval_components_stable(
                    package,
                    package_id,
                    known,
                    state,
                    components@,
                    components@.len(),
                    rest,
                    more_rest,
                );
            },
            ExprKind::Closure(_) | ExprKind::Hole | ExprKind::Lit | ExprKind::Var(_) => {},
        }
    }
}

/// An evaluation of an operand that does not fail would be the same with a
/// larger budget.
pub proof fn lemma_eval_operand_stable(
    package: &Package,
    package_id: PackageId,
    known: KnownProps,
    state: EvalState,
    expr: ExprId,
    fuel: nat,
    more: nat,
)
    requires
        fuel <= more,
        !eval_operand(package, package_id, known, state, expr, fuel).state.failed,
    ensures
        eval_operand(package, package_id, known, state, expr, more) == eval_operand(
            package,
            package_id,
            known,
            state,
            expr,
            fuel,
        ),
    decreases fuel, 1nat,
{
    lemma_eval_expr_stable(package, package_id, known, state, expr, fuel, more);
}

/// An evaluation of an operand that may be absent that does not fail would
/// be the same with a larger budget.
pub proof fn lemma_eval_optional_stable(
    package: &Package,
    package_id: PackageId,
    known: KnownProps,
    state: EvalState,
    expr: Option<ExprId>,
    fuel: nat,
    more: nat,
)
    requires
        fuel <= more,
        !eval_optional_operand(package, package_id, known, state, expr, fuel).state.failed,
    ensures
        eval_optional_operand(package, package_id, known, state, expr, more) == eval_optional_operand(package, package_id, known, state, expr, fuel),
    decreases fuel, 2nat,
{
    match expr {
        Some(expr) => {
            lemma_eval_operand_stable(package, package_id, known, state, expr, fuel, more);
        },
        None => {},
    }
}

/// An evaluation of operands that does not fail would be the same with a
/// larger budget.
pub proof fn lemma_eval_operands_stable(
    package: &Package,
    package_id: PackageId,
    known: KnownProps,
    state: EvalState,
    items: Seq<ExprId>,
    count: nat,
    fuel: nat,
    more: nat,
)
    requires
        fuel <= more,
        !eval_operands(package, package_id, known, state, items, count, fuel).state.failed,
    ensures
        eval_operands(package, package_id, known, state, items, count, more) == eval_operands(
            package,
            package_id,
            known,
            state,
            items,
            count,
            fuel,
        ),
    decreases fuel, 2 + count,
{
    if !(count == 0 || count > items.len()) {
        let before = eval_operands(
            package,
            package_id,
            known,
            state,
            items,
            (count - 1) as nat,
            fuel,
        ).state;
        if before.failed {
            lemma_eval_expr_keeps_failure(
                package,
                package_id,
                known,
                before,
                items[count - 1],
                fuel,
            );
        }
        lemma_eval_operands_stable(
            package,
            package_id,
            known,
            state,
            items,
            (count - 1) as nat,
            fuel,
            more,
        );
        lemma_eval_operand_stable(package, package_id, known, before, items[count - 1], fuel, more);
    }
}

/// An evaluation of the parts of an interpolated string that does not fail
/// would be the same with a larger budget.
pub proof fn lemma_eval_components_stable(
    package: &Package,
    package_id: PackageId,
    known: KnownProps,
    state: EvalState,
    items: Seq<StringComponent>,
    count: nat,
    fuel: nat,
    more: nat,
)
    requires
        fuel <= more,
        !eval_components(package, package_id, known, state, items, count, fuel).state.failed,
    ensures
        eval_components(package, package_id, known, state, items, count, more) == eval_components(
            package,
            package_id,
            known,
            state,
            items,
            count,
            fuel,
        ),
    decreases fuel, 2 + count,
{
    if !(count == 0 || count > items.len()) {
        let before = eval_components(
            package,
            package_id,
            known,
            state,
            items,
            (count - 1) as nat,
            fuel,
        ).state;
        match items[count - 1] {
            StringComponent::Expr(expr) => {
                if before.failed {
                    lemma_eval_expr_keeps_failure(package, package_id, known, before, expr, fuel);
                }
                lemma_eval_components_stable(
            package,
            package_id,
            known,
            state,
            items,
            (count - 1) as nat,
            fuel,
            more,
        );
                lemma_eval_operand_stable(package, package_id, known, before, expr, fuel, more);
            },
            StringComponent::Lit => {
                lemma_eval_components_stable(
            package,
            package_id,
            known,
            state,
            items,
            (count - 1) as nat,
            fuel,
            more,
        );
            },
        }
    }
}

/// An evaluation of a list of arguments that does not fail would be the same
/// with a larger budget.
pub proof fn lemma_eval_arg_list_stable(
    package: &Package,
    package_id: PackageId,
    known: KnownProps,
    state: EvalState,
    items: Seq<ExprId>,
    count: nat,
    fuel: nat,
    more: nat,
)
    requires
        fuel <= more,
        !eval_arg_list(package, package_id, known, state, items, count, fuel).state.failed,
    ensures
        eval_arg_list(package, package_id, known, state, items, count, more) == eval_arg_list(
            package,
            package_id,
            known,
            state,
            items,
            count,
            fuel,
        ),
    decreases fuel, 2 + count,
{
    if !(count == 0 || count > items.len()) {
        let before = eval_arg_list(
            package,
            package_id,
            known,
            state,
            items,
            (count - 1) as nat,
            fuel,
        ).state;
        if before.failed {
            lemma_eval_expr_keeps_failure(
                package,
                package_id,
                known,
                before,
                items[count - 1],
                fuel,
            );
        }
        lemma_eval_arg_list_stable(
            package,
            package_id,
            known,
            state,
            items,
            (count - 1) as nat,
            fuel,
            more,
        );
        lemma_eval_expr_stable(package, package_id, known, before, items[count - 1], fuel, more);
    }
}

/// An evaluation of statements that does not fail would be the same with a
/// larger budget.
pub proof fn lemma_eval_stmts_stable(
    package: &Package,
    package_id: PackageId,
    known: KnownProps,
    state: EvalState,
    items: Seq<StmtId>,
    count: nat,
    fuel: nat,
    more: nat,
)
    requires
        fuel <= more,
        !eval_stmts(package, package_id, known, state, items, count, fuel).state.failed,
    ensures
        eval_stmts(package, package_id, known, state, items, count, more) == eval_stmts(
            package,
            package_id,
            known,
            state,
            items,
            count,
            fuel,
        ),
    decreases fuel, 2 + count,
{
    if !(count == 0 || count > items.len()) {
        let before = eval_stmts(
            package,
            package_id,
            known,
            state,
            items,
            (count - 1) as nat,
            fuel,
        ).state;
        if before.failed {
            lemma_eval_stmt_keeps_failure(
                package,
                package_id,
                known,
                before,
                items[count - 1],
                fuel,
            );
        }
        lemma_eval_stmts_stable(
            package,
            package_id,
            known,
            state,
            items,
            (count - 1) as nat,
            fuel,
            more,
        );
        lemma_eval_stmt_stable(package, package_id, known, before, items[count - 1], fuel, more);
    }
}

/// An evaluation of arguments that does not fail would be the same with a
/// larger budget.
pub proof fn lemma_eval_args_stable(
    package: &Package,
    package_id: PackageId,
    known: KnownProps,
    state: EvalState,
    args: ExprId,
    fuel: nat,
    more: nat,
)
    requires
        fuel <= more,
        !eval_args(package, package_id, known, state, args, fuel).state.failed,
    ensures
        eval_args(package, package_id, known, state, args, more) == eval_args(
            package,
            package_id,
            known,
            state,
            args,
            fuel,
        ),
    decreases fuel, 1nat,
{
    if !state.failed {
        match package.exprs@[args.0].kind {
            ExprKind::Tuple(exprs) => {
                lemma_eval_arg_list_stable(
                    package,
                    package_id,
                    known,
                    state,
                    exprs@,
                    exprs@.len(),
                    (fuel - 1) as nat,
                    (more - 1) as nat,
                );
            },
            _ => {
                lemma_eval_expr_stable(package, package_id, known, state, args, fuel, more);
            },
        }
    }
}

/// An evaluation of a call that does not fail would be the same with a larger
/// budget.
pub proof fn lemma_eval_call_stable(
    package: &Package,
    package_id: PackageId,
    known: KnownProps,
    state: EvalState,
    callee: ExprId,
    args: ExprId,
    fuel: nat,
    more: nat,
)
    requires
        fuel <= more,
        !eval_call(package, package_id, known, state, callee, args, fuel).state.failed,
    ensures
        eval_call(package, package_id, known, state, callee, args, more) == eval_call(
            package,
            package_id,
            known,
            state,
            callee,
            args,
            fuel,
        ),
    decreases fuel, 0nat,
{
    if !state.failed {
        lemma_eval_args_stable(
            package,
            package_id,
            known,
            state,
            args,
            (fuel - 1) as nat,
            (more - 1) as nat,
        );
    }
}

/// An evaluation of a block that does not fail would be the same with a
/// larger budget.
pub proof fn lemma_eval_block_stable(
    package: &Package,
    package_id: PackageId,
    known: KnownProps,
    state: EvalState,
    block: BlockId,
    fuel: nat,
    more: nat,
)
    requires
        fuel <= more,
        !eval_block(package, package_id, known, state, block, fuel).state.failed,
    ensures
        eval_block(package, package_id, known, state, block, more) == eval_block(
            package,
            package_id,
            known,
            state,
            block,
            fuel,
        ),
    decreases fuel, 0nat,
{
    if !state.failed {
        lemma_eval_stmts_stable(
            package,
            package_id,
            known,
            state,
            package.blocks@[block.0].stmts@,
            package.blocks@[block.0].stmts@.len(),
            (fuel - 1) as nat,
            (more - 1) as nat,
        );
    }
}

/// An evaluation of a statement that does not fail would be the same with a
/// larger budget.
pub proof fn lemma_eval_stmt_stable(
    package: &Package,
    package_id: PackageId,
    known: KnownProps,
    state: EvalState,
    stmt: StmtId,
    fuel: nat,
    more: nat,
)
    requires
        fuel <= more,
        !eval_stmt(package, package_id, known, state, stmt, fuel).state.failed,
    ensures
        eval_stmt(package, package_id, known, state, stmt, more) == eval_stmt(
            package,
            package_id,
            known,
            state,
            stmt,
            fuel,
        ),
    decreases fuel, 0nat,
{
    if !state.failed {
        let rest = (fuel - 1) as nat;
        let more_rest = (more - 1) as nat;
        match package.stmts@[stmt.0].kind {
            StmtKind::Item(_) => {},
            StmtKind::Expr(expr) | StmtKind::Semi(expr) => {
                lemma_eval_expr_stable(package, package_id, known, state, expr, rest, more_rest);
            },
            StmtKind::Local(pat, expr) => {
                lemma_eval_expr_stable(package, package_id, known, state, expr, rest, more_rest);
                let value = eval_expr(package, package_id, known, state, expr, rest);
                lemma_bind_pattern_stable(
                    package,
                    value.state.node_map,
                    pat,
                    expr,
                    rest,
                    more_rest,
                );
                lemma_mark_pattern_stable(package, value.state.dynamic, pat, rest, more_rest);
            },
        }
    }
}

/// A marking of the locals of a pattern that does not find the package
/// malformed would be the same with a larger budget.
pub proof fn lemma_mark_pattern_stable(
    package: &Package,
    marked: Set<usize>,
    pat: PatId,
    fuel: nat,
    more: nat,
)
    requires
        fuel <= more,
        mark_pattern(package, marked, pat, fuel) is Some,
    ensures
        mark_pattern(package, marked, pat, more) == mark_pattern(package, marked, pat, fuel),
    decreases fuel, 0nat,
{
    match package.pats@[pat.0].kind {
        PatKind::Tuple(pats) => {
            lemma_mark_patterns_stable(
                package,
                marked,
                pats@,
                pats@.len(),
                (fuel - 1) as nat,
                (more - 1) as nat,
            );
        },
        _ => {},
    }
}

/// A marking of the locals of patterns that does not find the package
/// malformed would be the same with a larger budget.
pub proof fn lemma_mark_patterns_stable(
    package: &Package,
    marked: Set<usize>,
    pats: Seq<PatId>,
    count: nat,
    fuel: nat,
    more: nat,
)
    requires
        fuel <= more,
        mark_patterns(package, marked, pats, count, fuel) is Some,
    ensures
        mark_patterns(package, marked, pats, count, more) == mark_patterns(
            package,
            marked,
            pats,
            count,
            fuel,
        ),
    decreases fuel, 1 + count,
{
    if !(count == 0 || count > pats.len()) {
        lemma_mark_patterns_stable(package, marked, pats, (count - 1) as nat, fuel, more);
        lemma_mark_pattern_stable(
            package,
            mark_patterns(package, marked, pats, (count - 1) as nat, fuel)->0,
            pats[count - 1],
            fuel,
            more,
        );
    }
}

} // verus!
