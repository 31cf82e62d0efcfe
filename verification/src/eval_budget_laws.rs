//! The evaluation of a body never fails for want of budget in a package in
//! which no part contains itself, and it resolves callees under grounded
//! bindings where the bindings of the package are ranked.

use crate::budget_laws::bindings_are_ranked;
use crate::budget_laws::block_is_ranked;
use crate::budget_laws::expr_is_ranked;
use crate::budget_laws::is_grounded;
use crate::budget_laws::is_ranked;
use crate::budget_laws::lemma_bind_pattern_grounded;
use crate::budget_laws::lemma_bind_pattern_within;
use crate::budget_laws::lemma_input_params_are_grounded;
use crate::budget_laws::pat_is_ranked;
use crate::budget_laws::stmt_is_ranked;
use crate::budget_laws::CalleeRanking;
use crate::budget_laws::Ranking;
use crate::cycle_model::nesting_limit;
use crate::fir::BlockId;
use crate::fir::ExprId;
use crate::fir::ExprKind;
use crate::fir::Package;
use crate::fir::PackageId;
use crate::fir::PatId;
use crate::fir::PatKind;
use crate::fir::StmtId;
use crate::fir::StmtKind;
use crate::fir::StringComponent;
use crate::propagation_model::eval_arg_list;
use crate::propagation_model::eval_args;
use crate::propagation_model::eval_block;
use crate::propagation_model::eval_budget;
use crate::propagation_model::eval_call;
use crate::propagation_model::eval_components;
use crate::propagation_model::eval_expr;
use crate::propagation_model::eval_operand;
use crate::propagation_model::eval_operands;
use crate::propagation_model::eval_optional_operand;
use crate::propagation_model::eval_stmt;
use crate::propagation_model::eval_stmts;
use crate::propagation_model::initial_state;
use crate::propagation_model::mark_pattern;
use crate::propagation_model::mark_patterns;
use crate::propagation_model::EvalState;
use crate::propagation_model::KnownProps;
use vstd::prelude::*;

verus! {

/// With a budget above the rank of the pattern, the locals that the pattern
/// binds are marked the same with any larger budget.
pub proof fn lemma_mark_pattern_within(
    package: &Package,
    ranks: Ranking,
    marked: Set<usize>,
    pat: PatId,
    fuel: nat,
    more: nat,
)
    requires
        is_ranked(package, ranks),
        fuel > (ranks.pats)(pat.0),
        fuel <= more,
    ensures
        mark_pattern(package, marked, pat, more) == mark_pattern(package, marked, pat, fuel),
    decreases fuel, 0nat,
{
    if package.pats@.contains_key(pat.0) {
        assert(pat_is_ranked(package, ranks, pat.0));
        match package.pats@[pat.0].kind {
            PatKind::Tuple(pats) => {
                assert forall|i: int| 0 <= i < pats@.len() implies (ranks.pats)(
                    (#[trigger] pats@[i]).0,
                ) < fuel - 1 by {}
                lemma_mark_patterns_within(
                    package,
                    ranks,
                    marked,
                    pats@,
                    pats@.len(),
                    (fuel - 1) as nat,
                    (more - 1) as nat,
                );
            },
            _ => {},
        }
    }
}

/// With a budget above the ranks of the patterns, the locals that the
/// patterns bind are marked the same with any larger budget.
pub proof fn lemma_mark_patterns_within(
    package: &Package,
    ranks: Ranking,
    marked: Set<usize>,
    pats: Seq<PatId>,
    count: nat,
    fuel: nat,
    more: nat,
)
    requires
        is_ranked(package, ranks),
        forall|i: int|
            0 <= i < count && i < pats.len() ==> (ranks.pats)((#[trigger] pats[i]).0) < fuel,
        fuel <= more,
    ensures
        mark_patterns(package, marked, pats, count, more) == mark_patterns(
            package,
            marked,
            pats,
            count,
            fuel,
        ),
    decreases fuel, count,
{
    if !(count == 0 || count > pats.len()) {
        lemma_mark_patterns_within(package, ranks, marked, pats, (count - 1) as nat, fuel, more);
        match mark_patterns(package, marked, pats, (count - 1) as nat, fuel) {
            Some(before) => {
                assert((ranks.pats)(pats[count - 1].0) < fuel);
                lemma_mark_pattern_within(package, ranks, before, pats[count - 1], fuel, more);
            },
            None => {},
        }
    }
}

/// With a budget above the rank of the expression, the evaluation is the same
/// with any larger budget.
pub proof fn lemma_eval_expr_within(
    package: &Package,
    package_id: PackageId,
    ranks: Ranking,
    known: KnownProps,
    state: EvalState,
    expr: ExprId,
    fuel: nat,
    more: nat,
)
    requires
        is_ranked(package, ranks),
        fuel > (ranks.exprs)(expr.0),
        fuel <= more,
    ensures
        eval_expr(package, package_id, known, state, expr, more) == eval_expr(
            package,
            package_id,
            known,
            state,
            expr,
            fuel,
        ),
    decreases fuel, 0nat,
{
    if !state.failed && package.exprs@.contains_key(expr.0) {
        assert(expr_is_ranked(package, ranks, expr.0));
        let rest = (fuel - 1) as nat;
        let more_rest = (more - 1) as nat;
        match package.exprs@[expr.0].kind {
            ExprKind::Call(callee, args) => {
                lemma_eval_call_within(
                    package,
                    package_id,
                    ranks,
                    known,
                    state,
                    callee,
                    args,
                    rest,
                    more_rest,
                );
            },
            ExprKind::Block(block) => {
                lemma_eval_block_within(
                    package,
                    package_id,
                    ranks,
                    known,
                    state,
                    block,
                    rest,
                    more_rest,
                );
            },
            ExprKind::While(cond, block) => {
                let first = eval_operand(package, package_id, known, state, cond, rest);
                lemma_eval_operand_within(
                    package,
                    package_id,
                    ranks,
                    known,
                    state,
                    cond,
                    rest,
                    more_rest,
                );
                lemma_eval_block_within(
                    package,
                    package_id,
                    ranks,
                    known,
                    first.state,
                    block,
                    rest,
                    more_rest,
                );
            },
            ExprKind::Assign(target, value)
            | ExprKind::AssignOp(target, value)
            | ExprKind::AssignField(target, value) => {
                let first = eval_operand(package, package_id, known, state, target, rest);
                lemma_eval_operand_within(
                    package,
                    package_id,
                    ranks,
                    known,
                    state,
                    target,
                    rest,
                    more_rest,
                );
                lemma_eval_operand_within(
                    package,
                    package_id,
                    ranks,
                    known,
                    first.state,
                    value,
                    rest,
                    more_rest,
                );
            },
            ExprKind::AssignIndex(target, index, value) => {
                let first = eval_operand(package, package_id, known, state, target, rest);
                let second = eval_operand(package, package_id, known, first.state, index, rest);
                lemma_eval_operand_within(
                    package,
                    package_id,
                    ranks,
                    known,
                    state,
                    target,
                    rest,
                    more_rest,
                );
                lemma_eval_operand_within(
                    package,
                    package_id,
                    ranks,
                    known,
                    first.state,
                    index,
                    rest,
                    more_rest,
                );
                lemma_eval_operand_within(
                    package,
                    package_id,
                    ranks,
                    known,
                    second.state,
                    value,
                    rest,
                    more_rest,
                );
            },
            ExprKind::Array(exprs) => {
                assert forall|i: int| 0 <= i < exprs@.len() implies
                    (ranks.exprs)((#[trigger] exprs@[i]).0) < rest by {}

                lemma_eval_operands_within(
                    package,
                    package_id,
                    ranks,
                    known,
                    state,
                    exprs@,
                    exprs@.len(),
                    rest,
                    more_rest,
                );
            },
            ExprKind::Tuple(exprs) => {
                assert forall|i: int| 0 <= i < exprs@.len() implies
                    (ranks.exprs)((#[trigger] exprs@[i]).0) < rest by {}

                lemma_eval_operands_within(
                    package,
                    package_id,
                    ranks,
                    known,
                    state,
                    exprs@,
                    exprs@.len(),
                    rest,
                    more_rest,
                );
            },
            ExprKind::ArrayRepeat(first, second)
            | ExprKind::BinOp(first, second)
            | ExprKind::UpdateField(first, second)
            | ExprKind::Index(first, second) => {
                let operands = seq![first, second];
                assert(operands[0] == first);
                assert(operands[1] == second);
                assert forall|i: int| 0 <= i < 2 implies
                    (ranks.exprs)((#[trigger] operands[i]).0) < rest by {}

                lemma_eval_operands_within(
                    package,
                    package_id,
                    ranks,
                    known,
                    state,
                    seq![first, second],
                    2,
                    rest,
                    more_rest,
                );
            },
            ExprKind::UpdateIndex(first, second, third) => {
                let operands = seq![first, second, third];
                assert(operands[0] == first);
                assert(operands[1] == second);
                assert(operands[2] == third);
                assert forall|i: int| 0 <= i < 3 implies
                    (ranks.exprs)((#[trigger] operands[i]).0) < rest by {}

                lemma_eval_operands_within(
                    package,
                    package_id,
                    ranks,
                    known,
                    state,
                    seq![first, second, third],
                    3,
                    rest,
                    more_rest,
                );
            },
            ExprKind::Fail(inner)
            | ExprKind::Field(inner)
            | ExprKind::Return(inner)
            | ExprKind::UnOp(_, inner) => {
                lemma_eval_operand_within(
                    package,
                    package_id,
                    ranks,
                    known,
                    state,
                    inner,
                    rest,
                    more_rest,
                );
            },
            ExprKind::If(cond, body, otherwise) => {
                let operands = seq![cond, body];
                assert(operands[0] == cond);
                assert(operands[1] == body);
                assert forall|i: int| 0 <= i < 2 implies
                    (ranks.exprs)((#[trigger] operands[i]).0) < rest by {}

                let both = eval_operands(
                    package,
                    package_id,
                    known,
                    state,
                    seq![cond, body],
                    2,
                    rest,
                );
                lemma_eval_operands_within(
                    package,
                    package_id,
                    ranks,
                    known,
                    state,
                    seq![cond, body],
                    2,
                    rest,
                    more_rest,
                );
                lemma_eval_optional_operand_within(
                    package,
                    package_id,
                    ranks,
                    known,
                    both.state,
                    otherwise,
                    rest,
                    more_rest,
                );
            },
            ExprKind::Range(start, step, end) => {
                let first = eval_optional_operand(package, package_id, known, state, start, rest);
                let second = eval_optional_operand(
                    package,
                    package_id,
                    known,
                    first.state,
                    step,
                    rest,
                );
                lemma_eval_optional_operand_within(
                    package,
                    package_id,
                    ranks,
                    known,
                    state,
                    start,
                    rest,
                    more_rest,
                );
                lemma_eval_optional_operand_within(
                    package,
                    package_id,
                    ranks,
                    known,
                    first.state,
                    step,
                    rest,
                    more_rest,
                );
                lemma_eval_optional_operand_within(
                    package,
                    package_id,
                    ranks,
                    known,
                    second.state,
                    end,
                    rest,
                    more_rest,
                );
            },
            ExprKind::String(components) => {
                assert forall|i: int| 0 <= i < components@.len() implies
                    ((#[trigger] components@[i]) matches StringComponent::Expr(part)
                    ==> (ranks.exprs)(part.0) < rest) by {}
                lemma_eval_components_within(
                    package,
                    package_id,
                    ranks,
                    known,
                    state,
                    components@,
                    components@.len(),
                    rest,
                    more_rest,
                );
            },
            _ => {},
        }
    }
}

/// With a budget above the rank of the operand, the evaluation is the same
/// with any larger budget.
pub proof fn lemma_eval_operand_within(
    package: &Package,
    package_id: PackageId,
    ranks: Ranking,
    known: KnownProps,
    state: EvalState,
    expr: ExprId,
    fuel: nat,
    more: nat,
)
    requires
        is_ranked(package, ranks),
        fuel > (ranks.exprs)(expr.0),
        fuel <= more,
    ensures
        eval_operand(package, package_id, known, state, expr, more) == eval_operand(
            package,
            package_id,
            known,
            state,
            expr,
            fuel,
        ),
    decreases fuel, 1nat,
{
    lemma_eval_expr_within(package, package_id, ranks, known, state, expr, fuel, more);
}

/// With a budget above the rank of the operand, the evaluation is the same
/// with any larger budget.
pub proof fn lemma_eval_optional_operand_within(
    package: &Package,
    package_id: PackageId,
    ranks: Ranking,
    known: KnownProps,
    state: EvalState,
    expr: Option<ExprId>,
    fuel: nat,
    more: nat,
)
    requires
        is_ranked(package, ranks),
        expr matches Some(part) ==> fuel > (ranks.exprs)(part.0),
        fuel <= more,
    ensures
        eval_optional_operand(
            package,
            package_id,
            known,
            state,
            expr,
            more,
        ) == eval_optional_operand(
            package,
            package_id,
            known,
            state,
            expr,
            fuel,
        ),
    decreases fuel, 2nat,
{
    match expr {
        Some(expr) => {
            lemma_eval_operand_within(package, package_id, ranks, known, state, expr, fuel, more);
        },
        None => {},
    }
}

/// With a budget above the ranks of the operands, the evaluation is the same
/// with any larger budget.
pub proof fn lemma_eval_operands_within(
    package: &Package,
    package_id: PackageId,
    ranks: Ranking,
    known: KnownProps,
    state: EvalState,
    exprs: Seq<ExprId>,
    count: nat,
    fuel: nat,
    more: nat,
)
    requires
        is_ranked(package, ranks),
        forall|i: int|
            0 <= i < count && i < exprs.len() ==> (ranks.exprs)((#[trigger] exprs[i]).0) < fuel,
        fuel <= more,
    ensures
        eval_operands(package, package_id, known, state, exprs, count, more) == eval_operands(
            package,
            package_id,
            known,
            state,
            exprs, count,
            fuel,
        ),
    decreases fuel, 2 + count,
{
    if !(count == 0 || count > exprs.len()) {
        let before = eval_operands(
            package,
            package_id,
            known,
            state,
            exprs,
            (count - 1) as nat,
            fuel,
        );
        lemma_eval_operands_within(
            package,
            package_id,
            ranks,
            known,
            state,
            exprs,
            (count - 1) as nat,
            fuel,
            more,
        );
        assert((ranks.exprs)(exprs[count - 1].0) < fuel);
        lemma_eval_operand_within(
            package,
            package_id,
            ranks,
            known,
            before.state,
            exprs[count - 1],
            fuel,
            more,
        );
    }
}

/// With a budget above the ranks of the expressions among the parts of an
/// interpolated string, the evaluation is the same with any larger budget.
pub proof fn lemma_eval_components_within(
    package: &Package,
    package_id: PackageId,
    ranks: Ranking,
    known: KnownProps,
    state: EvalState,
    components: Seq<StringComponent>,
    count: nat,
    fuel: nat,
    more: nat,
)
    requires
        is_ranked(package, ranks),
        forall|i: int|
            0 <= i < count && i < components.len()
                ==> ((#[trigger] components[i]) matches StringComponent::Expr(part) ==> (ranks.exprs)(part.0) < fuel),
        fuel <= more,
    ensures
        eval_components(
            package,
            package_id,
            known,
            state,
            components,
            count,
            more,
        ) == eval_components(
            package,
            package_id,
            known,
            state,
            components, count,
            fuel,
        ),
    decreases fuel, 2 + count,
{
    if !(count == 0 || count > components.len()) {
        let before = eval_components(
            package,
            package_id,
            known,
            state,
            components,
            (count - 1) as nat,
            fuel,
        );
        lemma_eval_components_within(
            package,
            package_id,
            ranks,
            known,
            state,
            components,
            (count - 1) as nat,
            fuel,
            more,
        );
        match components[count - 1] {
            StringComponent::Expr(part) => {
                lemma_eval_operand_within(
                    package,
                    package_id,
                    ranks,
                    known,
                    before.state,
                    part,
                    fuel,
                    more,
                );
            },
            StringComponent::Lit => {},
        }
    }
}

/// With a budget above the rank of the arguments, the evaluation is the same
/// with any larger budget.
pub proof fn lemma_eval_args_within(
    package: &Package,
    package_id: PackageId,
    ranks: Ranking,
    known: KnownProps,
    state: EvalState,
    args: ExprId,
    fuel: nat,
    more: nat,
)
    requires
        is_ranked(package, ranks),
        fuel > (ranks.exprs)(args.0),
        fuel <= more,
    ensures
        eval_args(package, package_id, known, state, args, more) == eval_args(
            package,
            package_id,
            known,
            state,
            args,
            fuel,
        ),
    decreases fuel, 1nat,
{
    if !state.failed && package.exprs@.contains_key(args.0) {
        assert(expr_is_ranked(package, ranks, args.0));
        match package.exprs@[args.0].kind {
            ExprKind::Tuple(exprs) => {
                assert forall|i: int| 0 <= i < exprs@.len() implies
                    (ranks.exprs)((#[trigger] exprs@[i]).0) < fuel - 1 by {}
                lemma_eval_arg_list_within(
                    package,
                    package_id,
                    ranks,
                    known,
                    state,
                    exprs@,
                    exprs@.len(),
                    (fuel - 1) as nat,
                    (more - 1) as nat,
                );
            },
            _ => {
                lemma_eval_expr_within(package, package_id, ranks, known, state, args, fuel, more);
            },
        }
    }
}

/// With a budget above the ranks of the arguments, the evaluation is the same
/// with any larger budget.
pub proof fn lemma_eval_arg_list_within(
    package: &Package,
    package_id: PackageId,
    ranks: Ranking,
    known: KnownProps,
    state: EvalState,
    exprs: Seq<ExprId>,
    count: nat,
    fuel: nat,
    more: nat,
)
    requires
        is_ranked(package, ranks),
        forall|i: int|
            0 <= i < count && i < exprs.len() ==> (ranks.exprs)((#[trigger] exprs[i]).0) < fuel,
        fuel <= more,
    ensures
        eval_arg_list(package, package_id, known, state, exprs, count, more) == eval_arg_list(
            package,
            package_id,
            known,
            state,
            exprs, count,
            fuel,
        ),
    decreases fuel, 2 + count,
{
    if !(count == 0 || count > exprs.len()) {
        let before = eval_arg_list(
            package,
            package_id,
            known,
            state,
            exprs,
            (count - 1) as nat,
            fuel,
        );
        lemma_eval_arg_list_within(
            package,
            package_id,
            ranks,
            known,
            state,
            exprs,
            (count - 1) as nat,
            fuel,
            more,
        );
        assert((ranks.exprs)(exprs[count - 1].0) < fuel);
        lemma_eval_expr_within(
            package,
            package_id,
            ranks,
            known,
            before.state,
            exprs[count - 1],
            fuel,
            more,
        );
    }
}

/// With a budget above the rank of the arguments and one more, the evaluation
/// is the same with any larger budget.
pub proof fn lemma_eval_call_within(
    package: &Package,
    package_id: PackageId,
    ranks: Ranking,
    known: KnownProps,
    state: EvalState,
    callee: ExprId,
    args: ExprId,
    fuel: nat,
    more: nat,
)
    requires
        is_ranked(package, ranks),
        fuel > (ranks.exprs)(args.0) + 1,
        fuel <= more,
    ensures
        eval_call(package, package_id, known, state, callee, args, more) == eval_call(
            package,
            package_id,
            known,
            state,
            callee,
            args,
            fuel,
        ),
    decreases fuel, 0nat,
{
    if !state.failed {
        lemma_eval_args_within(
            package,
            package_id,
            ranks,
            known,
            state,
            args,
            (fuel - 1) as nat,
            (more - 1) as nat,
        );
    }
}

/// With a budget above the rank of the block, the evaluation is the same with
/// any larger budget.
pub proof fn lemma_eval_block_within(
    package: &Package,
    package_id: PackageId,
    ranks: Ranking,
    known: KnownProps,
    state: EvalState,
    block: BlockId,
    fuel: nat,
    more: nat,
)
    requires
        is_ranked(package, ranks),
        fuel > 0,
        package.blocks@.contains_key(block.0) ==> fuel > (ranks.blocks)(block.0),
        fuel <= more,
    ensures
        eval_block(package, package_id, known, state, block, more) == eval_block(
            package,
            package_id,
            known,
            state,
            block,
            fuel,
        ),
    decreases fuel, 0nat,
{
    if !state.failed && package.blocks@.contains_key(block.0) {
        let stmts = package.blocks@[block.0].stmts@;
        assert(block_is_ranked(package, ranks, block.0));
        assert forall|i: int| 0 <= i < stmts.len() implies
            (ranks.stmts)((#[trigger] stmts[i]).0) < fuel - 1 by {
            assert((ranks.stmts)(package.blocks@[block.0].stmts@[i].0) < (ranks.blocks)(block.0));
        }
        lemma_eval_stmts_within(
            package,
            package_id,
            ranks,
            known,
            state,
            stmts,
            stmts.len(),
            (fuel - 1) as nat,
            (more - 1) as nat,
        );
    }
}

/// With a budget above the ranks of the statements, the evaluation is the
/// same with any larger budget.
pub proof fn lemma_eval_stmts_within(
    package: &Package,
    package_id: PackageId,
    ranks: Ranking,
    known: KnownProps,
    state: EvalState,
    stmts: Seq<StmtId>,
    count: nat,
    fuel: nat,
    more: nat,
)
    requires
        is_ranked(package, ranks),
        forall|i: int|
            0 <= i < count && i < stmts.len() ==> (ranks.stmts)((#[trigger] stmts[i]).0) < fuel,
        fuel <= more,
    ensures
        eval_stmts(package, package_id, known, state, stmts, count, more) == eval_stmts(
            package,
            package_id,
            known,
            state,
            stmts, count,
            fuel,
        ),
    decreases fuel, 2 + count,
{
    if !(count == 0 || count > stmts.len()) {
        let before = eval_stmts(package, package_id, known, state, stmts, (count - 1) as nat, fuel);
        lemma_eval_stmts_within(
            package,
            package_id,
            ranks,
            known,
            state,
            stmts,
            (count - 1) as nat,
            fuel,
            more,
        );
        assert((ranks.stmts)(stmts[count - 1].0) < fuel);
        lemma_eval_stmt_within(
            package,
            package_id,
            ranks,
            known,
            before.state,
            stmts[count - 1],
            fuel,
            more,
        );
    }
}

/// With a budget above the rank of the statement, the evaluation is the same
/// with any larger budget.
pub proof fn lemma_eval_stmt_within(
    package: &Package,
    package_id: PackageId,
    ranks: Ranking,
    known: KnownProps,
    state: EvalState,
    stmt: StmtId,
    fuel: nat,
    more: nat,
)
    requires
        is_ranked(package, ranks),
        fuel > (ranks.stmts)(stmt.0),
        fuel <= more,
    ensures
        eval_stmt(package, package_id, known, state, stmt, more) == eval_stmt(
            package,
            package_id,
            known,
            state,
            stmt,
            fuel,
        ),
    decreases fuel, 0nat,
{
    if !state.failed && package.stmts@.contains_key(stmt.0) {
        assert(stmt_is_ranked(package, ranks, stmt.0));
        let rest = (fuel - 1) as nat;
        let more_rest = (more - 1) as nat;
        match package.stmts@[stmt.0].kind {
            StmtKind::Item(_) => {},
            StmtKind::Expr(expr) | StmtKind::Semi(expr) => {
                lemma_eval_expr_within(
                    package,
                    package_id,
                    ranks,
                    known,
                    state,
                    expr,
                    rest,
                    more_rest,
                );
            },
            StmtKind::Local(pat, expr) => {
                let value = eval_expr(package, package_id, known, state, expr, rest);
                lemma_eval_expr_within(
                    package,
                    package_id,
                    ranks,
                    known,
                    state,
                    expr,
                    rest,
                    more_rest,
                );
                if !value.state.failed {
                    lemma_bind_pattern_within(
                        package,
                        ranks,
                        value.state.node_map,
                        pat,
                        expr,
                        rest,
                        more_rest,
                    );
                    lemma_mark_pattern_within(
                        package,
                        ranks,
                        value.state.dynamic,
                        pat,
                        rest,
                        more_rest,
                    );
                }
            },
        }
    }
}

/// The evaluation of an expression keeps the bindings grounded.
pub proof fn lemma_eval_expr_grounded(
    package: &Package,
    package_id: PackageId,
    ranks: CalleeRanking,
    known: KnownProps,
    state: EvalState,
    expr: ExprId,
    fuel: nat,
)
    requires
        bindings_are_ranked(package, ranks),
        is_grounded(package, ranks, state.node_map),
    ensures
        is_grounded(
            package,
            ranks,
            eval_expr(package, package_id, known, state, expr, fuel).state.node_map,
        ),
    decreases fuel, 0nat,
{
    if !state.failed && fuel > 0 && package.exprs@.contains_key(expr.0) {
        let rest = (fuel - 1) as nat;
        match package.exprs@[expr.0].kind {
            ExprKind::Call(callee, args) => {
                lemma_eval_call_grounded(
                    package,
                    package_id,
                    ranks,
                    known,
                    state,
                    callee,
                    args,
                    rest,
                );
            },
            ExprKind::Block(block) => {
                lemma_eval_block_grounded(package, package_id, ranks, known, state, block, rest);
            },
            ExprKind::While(cond, block) => {
                let first = eval_operand(package, package_id, known, state, cond, rest);
                lemma_eval_operand_grounded(package, package_id, ranks, known, state, cond, rest);
                lemma_eval_block_grounded(
                    package,
                    package_id,
                    ranks,
                    known,
                    first.state,
                    block,
                    rest,
                );
            },
            ExprKind::Assign(target, value)
            | ExprKind::AssignOp(target, value)
            | ExprKind::AssignField(target, value) => {
                let first = eval_operand(package, package_id, known, state, target, rest);
                lemma_eval_operand_grounded(package, package_id, ranks, known, state, target, rest);
                lemma_eval_operand_grounded(
                    package,
                    package_id,
                    ranks,
                    known,
                    first.state,
                    value,
                    rest,
                );
            },
            ExprKind::AssignIndex(target, index, value) => {
                let first = eval_operand(package, package_id, known, state, target, rest);
                let second = eval_operand(package, package_id, known, first.state, index, rest);
                lemma_eval_operand_grounded(package, package_id, ranks, known, state, target, rest);
                lemma_eval_operand_grounded(
                    package,
                    package_id,
                    ranks,
                    known,
                    first.state,
                    index,
                    rest,
                );
                lemma_eval_operand_grounded(
                    package,
                    package_id,
                    ranks,
                    known,
                    second.state,
                    value,
                    rest,
                );
            },
            ExprKind::Array(exprs) => {
                lemma_eval_operands_grounded(
                    package,
                    package_id,
                    ranks,
                    known,
                    state,
                    exprs@,
                    exprs@.len(),
                    rest,
                );
            },
            ExprKind::Tuple(exprs) => {
                lemma_eval_operands_grounded(
                    package,
                    package_id,
                    ranks,
                    known,
                    state,
                    exprs@,
                    exprs@.len(),
                    rest,
                );
            },
            ExprKind::ArrayRepeat(first, second)
            | ExprKind::BinOp(first, second)
            | ExprKind::UpdateField(first, second)
            | ExprKind::Index(first, second) => {
                lemma_eval_operands_grounded(
                    package,
                    package_id,
                    ranks,
                    known,
                    state,
                    seq![first, second],
                    2,
                    rest,
                );
            },
            ExprKind::UpdateIndex(first, second, third) => {
                lemma_eval_operands_grounded(
                    package,
                    package_id,
                    ranks,
                    known,
                    state,
                    seq![first, second, third],
                    3,
                    rest,
                );
            },
            ExprKind::Fail(inner)
            | ExprKind::Field(inner)
            | ExprKind::Return(inner)
            | ExprKind::UnOp(_, inner) => {
                lemma_eval_operand_grounded(package, package_id, ranks, known, state, inner, rest);
            },
            ExprKind::If(cond, body, otherwise) => {
                let both = eval_operands(
                    package,
                    package_id,
                    known,
                    state,
                    seq![cond, body],
                    2,
                    rest,
                );
                lemma_eval_operands_grounded(
                    package,
                    package_id,
                    ranks,
                    known,
                    state,
                    seq![cond, body],
                    2,
                    rest,
                );
                lemma_eval_optional_operand_grounded(
                    package,
                    package_id,
                    ranks,
                    known,
                    both.state,
                    otherwise,
                    rest,
                );
            },
            ExprKind::Range(start, step, end) => {
                let first = eval_optional_operand(package, package_id, known, state, start, rest);
                let second = eval_optional_operand(
                    package,
                    package_id,
                    known,
                    first.state,
                    step,
                    rest,
                );
                lemma_eval_optional_operand_grounded(
                    package,
                    package_id,
                    ranks,
                    known,
                    state,
                    start,
                    rest,
                );
                lemma_eval_optional_operand_grounded(
                    package,
                    package_id,
                    ranks,
                    known,
                    first.state,
                    step,
                    rest,
                );
                lemma_eval_optional_operand_grounded(
                    package,
                    package_id,
                    ranks,
                    known,
                    second.state,
                    end,
                    rest,
                );
            },
            ExprKind::String(components) => {
                lemma_eval_components_grounded(
                    package,
                    package_id,
                    ranks,
                    known,
                    state,
                    components@,
                    components@.len(),
                    rest,
                );
            },
            _ => {},
        }
    }
}

/// The evaluation of an operand keeps the bindings grounded.
pub proof fn lemma_eval_operand_grounded(
    package: &Package,
    package_id: PackageId,
    ranks: CalleeRanking,
    known: KnownProps,
    state: EvalState,
    expr: ExprId,
    fuel: nat,
)
    requires
        bindings_are_ranked(package, ranks),
        is_grounded(package, ranks, state.node_map),
    ensures
        is_grounded(
            package,
            ranks,
            eval_operand(package, package_id, known, state, expr, fuel).state.node_map,
        ),
    decreases fuel, 1nat,
{
    lemma_eval_expr_grounded(package, package_id, ranks, known, state, expr, fuel);
}

/// The evaluation of an operand that may be absent keeps the bindings
/// grounded.
pub proof fn lemma_eval_optional_operand_grounded(
    package: &Package,
    package_id: PackageId,
    ranks: CalleeRanking,
    known: KnownProps,
    state: EvalState,
    expr: Option<ExprId>,
    fuel: nat,
)
    requires
        bindings_are_ranked(package, ranks),
        is_grounded(package, ranks, state.node_map),
    ensures
        is_grounded(
            package,
            ranks,
            eval_optional_operand(package, package_id, known, state, expr, fuel).state.node_map,
        ),
    decreases fuel, 2nat,
{
    match expr {
        Some(expr) => {
            lemma_eval_operand_grounded(package, package_id, ranks, known, state, expr, fuel);
        },
        None => {},
    }
}

/// The evaluation of operands keeps the bindings grounded.
pub proof fn lemma_eval_operands_grounded(
    package: &Package,
    package_id: PackageId,
    ranks: CalleeRanking,
    known: KnownProps,
    state: EvalState,
    exprs: Seq<ExprId>,
    count: nat,
    fuel: nat,
)
    requires
        bindings_are_ranked(package, ranks),
        is_grounded(package, ranks, state.node_map),
    ensures
        is_grounded(
            package,
            ranks,
            eval_operands(package, package_id, known, state, exprs, count, fuel).state.node_map,
        ),
    decreases fuel, 2 + count,
{
    if !(count == 0 || count > exprs.len()) {
        let before = eval_operands(
            package,
            package_id,
            known,
            state,
            exprs,
            (count - 1) as nat,
            fuel,
        );
        lemma_eval_operands_grounded(
            package,
            package_id,
            ranks,
            known,
            state,
            exprs,
            (count - 1) as nat,
            fuel,
        );
        lemma_eval_operand_grounded(
            package,
            package_id,
            ranks,
            known,
            before.state,
            exprs[count - 1],
            fuel,
        );
    }
}

/// The evaluation of the parts of an interpolated string keeps the bindings
/// grounded.
pub proof fn lemma_eval_components_grounded(
    package: &Package,
    package_id: PackageId,
    ranks: CalleeRanking,
    known: KnownProps,
    state: EvalState,
    components: Seq<StringComponent>,
    count: nat,
    fuel: nat,
)
    requires
        bindings_are_ranked(package, ranks),
        is_grounded(package, ranks, state.node_map),
    ensures
        is_grounded(
            package,
            ranks,
            eval_components(package, package_id, known, state, components, count, fuel).state.node_map,
        ),
    decreases fuel, 2 + count,
{
    if !(count == 0 || count > components.len()) {
        let before = eval_components(
            package,
            package_id,
            known,
            state,
            components,
            (count - 1) as nat,
            fuel,
        );
        lemma_eval_components_grounded(
            package,
            package_id,
            ranks,
            known,
            state,
            components,
            (count - 1) as nat,
            fuel,
        );
        match components[count - 1] {
            StringComponent::Expr(part) => {
                lemma_eval_operand_grounded(
                    package,
                    package_id,
                    ranks,
                    known,
                    before.state,
                    part,
                    fuel,
                );
            },
            StringComponent::Lit => {},
        }
    }
}

/// The evaluation of the arguments of a call keeps the bindings grounded.
pub proof fn lemma_eval_args_grounded(
    package: &Package,
    package_id: PackageId,
    ranks: CalleeRanking,
    known: KnownProps,
    state: EvalState,
    args: ExprId,
    fuel: nat,
)
    requires
        bindings_are_ranked(package, ranks),
        is_grounded(package, ranks, state.node_map),
    ensures
        is_grounded(
            package,
            ranks,
            eval_args(package, package_id, known, state, args, fuel).state.node_map,
        ),
    decreases fuel, 1nat,
{
    if !state.failed && fuel > 0 && package.exprs@.contains_key(args.0) {
        match package.exprs@[args.0].kind {
            ExprKind::Tuple(exprs) => {
                lemma_eval_arg_list_grounded(
                    package,
                    package_id,
                    ranks,
                    known,
                    state,
                    exprs@,
                    exprs@.len(),
                    (fuel - 1) as nat,
                );
            },
            _ => {
                lemma_eval_expr_grounded(package, package_id, ranks, known, state, args, fuel);
            },
        }
    }
}

/// The evaluation of arguments keeps the bindings grounded.
pub proof fn lemma_eval_arg_list_grounded(
    package: &Package,
    package_id: PackageId,
    ranks: CalleeRanking,
    known: KnownProps,
    state: EvalState,
    exprs: Seq<ExprId>,
    count: nat,
    fuel: nat,
)
    requires
        bindings_are_ranked(package, ranks),
        is_grounded(package, ranks, state.node_map),
    ensures
        is_grounded(
            package,
            ranks,
            eval_arg_list(package, package_id, known, state, exprs, count, fuel).state.node_map,
        ),
    decreases fuel, 2 + count,
{
    if !(count == 0 || count > exprs.len()) {
        let before = eval_arg_list(
            package,
            package_id,
            known,
            state,
            exprs,
            (count - 1) as nat,
            fuel,
        );
        lemma_eval_arg_list_grounded(
            package,
            package_id,
            ranks,
            known,
            state,
            exprs,
            (count - 1) as nat,
            fuel,
        );
        lemma_eval_expr_grounded(
            package,
            package_id,
            ranks,
            known,
            before.state,
            exprs[count - 1],
            fuel,
        );
    }
}

/// The evaluation of a call keeps the bindings grounded.
pub proof fn lemma_eval_call_grounded(
    package: &Package,
    package_id: PackageId,
    ranks: CalleeRanking,
    known: KnownProps,
    state: EvalState,
    callee: ExprId,
    args: ExprId,
    fuel: nat,
)
    requires
        bindings_are_ranked(package, ranks),
        is_grounded(package, ranks, state.node_map),
    ensures
        is_grounded(
            package,
            ranks,
            eval_call(package, package_id, known, state, callee, args, fuel).state.node_map,
        ),
    decreases fuel, 0nat,
{
    if !state.failed && fuel > 0 {
        lemma_eval_args_grounded(package, package_id, ranks, known, state, args, (fuel - 1) as nat);
    }
}

/// The evaluation of a block keeps the bindings grounded.
pub proof fn lemma_eval_block_grounded(
    package: &Package,
    package_id: PackageId,
    ranks: CalleeRanking,
    known: KnownProps,
    state: EvalState,
    block: BlockId,
    fuel: nat,
)
    requires
        bindings_are_ranked(package, ranks),
        is_grounded(package, ranks, state.node_map),
    ensures
        is_grounded(
            package,
            ranks,
            eval_block(package, package_id, known, state, block, fuel).state.node_map,
        ),
    decreases fuel, 0nat,
{
    if !state.failed && fuel > 0 && package.blocks@.contains_key(block.0) {
        let stmts = package.blocks@[block.0].stmts@;
        lemma_eval_stmts_grounded(
            package,
            package_id,
            ranks,
            known,
            state,
            stmts,
            stmts.len(),
            (fuel - 1) as nat,
        );
    }
}

/// The evaluation of statements keeps the bindings grounded.
pub proof fn lemma_eval_stmts_grounded(
    package: &Package,
    package_id: PackageId,
    ranks: CalleeRanking,
    known: KnownProps,
    state: EvalState,
    stmts: Seq<StmtId>,
    count: nat,
    fuel: nat,
)
    requires
        bindings_are_ranked(package, ranks),
        is_grounded(package, ranks, state.node_map),
    ensures
        is_grounded(
            package,
            ranks,
            eval_stmts(package, package_id, known, state, stmts, count, fuel).state.node_map,
        ),
    decreases fuel, 2 + count,
{
    if !(count == 0 || count > stmts.len()) {
        let before = eval_stmts(package, package_id, known, state, stmts, (count - 1) as nat, fuel);
        lemma_eval_stmts_grounded(
            package,
            package_id,
            ranks,
            known,
            state,
            stmts,
            (count - 1) as nat,
            fuel,
        );
        lemma_eval_stmt_grounded(
            package,
            package_id,
            ranks,
            known,
            before.state,
            stmts[count - 1],
            fuel,
        );
    }
}

/// The evaluation of a statement keeps the bindings grounded.
pub proof fn lemma_eval_stmt_grounded(
    package: &Package,
    package_id: PackageId,
    ranks: CalleeRanking,
    known: KnownProps,
    state: EvalState,
    stmt: StmtId,
    fuel: nat,
)
    requires
        bindings_are_ranked(package, ranks),
        is_grounded(package, ranks, state.node_map),
    ensures
        is_grounded(
            package,
            ranks,
            eval_stmt(package, package_id, known, state, stmt, fuel).state.node_map,
        ),
    decreases fuel, 0nat,
{
    if !state.failed && fuel > 0 && package.stmts@.contains_key(stmt.0) {
        let rest = (fuel - 1) as nat;
        match package.stmts@[stmt.0].kind {
            StmtKind::Item(_) => {},
            StmtKind::Expr(expr) | StmtKind::Semi(expr) => {
                lemma_eval_expr_grounded(package, package_id, ranks, known, state, expr, rest);
            },
            StmtKind::Local(pat, expr) => {
                let value = eval_expr(package, package_id, known, state, expr, rest);
                lemma_eval_expr_grounded(package, package_id, ranks, known, state, expr, rest);
                if !value.state.failed {
                    lemma_bind_pattern_grounded(
                        package,
                        ranks,
                        value.state.node_map,
                        pat,
                        expr,
                        rest,
                    );
                }
            },
        }
    }
}

/// In a package with a ranking, the evaluation of a body gives with every
/// larger budget what it gives with the budget of an evaluation: it does not
/// fail for want of budget.
pub proof fn lemma_evaluation_stays_within_budget(
    package: &Package,
    package_id: PackageId,
    ranks: Ranking,
    known: KnownProps,
    state: EvalState,
    body: BlockId,
    more: nat,
)
    requires
        is_ranked(package, ranks),
        nesting_limit(package) <= usize::MAX,
        more >= eval_budget(package),
    ensures
        eval_block(package, package_id, known, state, body, more) == eval_block(
            package,
            package_id,
            known,
            state,
            body,
            eval_budget(package),
        ),
{
    if package.blocks@.contains_key(body.0) {
        assert(block_is_ranked(package, ranks, body.0));
    }
    lemma_eval_block_within(
        package,
        package_id,
        ranks,
        known,
        state,
        body,
        eval_budget(package),
        more,
    );
}

/// Where the bindings of a package are ranked, the evaluation of an
/// application of a body begins and ends with grounded bindings: whenever it
/// resolves a callee, it does so under grounded bindings.
pub proof fn lemma_evaluation_keeps_bindings_grounded(
    package: &Package,
    package_id: PackageId,
    ranks: CalleeRanking,
    known: KnownProps,
    input: PatId,
    body: BlockId,
    index: nat,
    fuel: nat,
)
    requires
        bindings_are_ranked(package, ranks),
    ensures
        initial_state(package, input, index) matches Some(state) ==> is_grounded(
            package,
            ranks,
            state.node_map,
        ) && is_grounded(
            package,
            ranks,
            eval_block(package, package_id, known, state, body, fuel).state.node_map,
        ),
{
    lemma_input_params_are_grounded(package, ranks, input);
    match initial_state(package, input, index) {
        Some(state) => {
            lemma_eval_block_grounded(package, package_id, ranks, known, state, body, fuel);
        },
        None => {},
    }
}

} // verus!
