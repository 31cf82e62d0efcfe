//! The walk over the call graph never fails for want of budget in a package
//! in which no part contains itself and no local is bound to itself.
//!
//! That no part contains itself is said by a ranking: numbers for the
//! expressions, statements, blocks and patterns of the package under which
//! each part ranks above the parts that the walk goes into from it. Where no
//! part contains itself there is such a ranking, the longest way down from
//! each part, and it is within the nesting limit of the package.
//!
//! That no local is bound to itself is said by a second ranking, of the
//! expressions in the place of a callee: each ranks above the expression
//! that the resolution of a callee goes on to from it, a local above the
//! expression that a statement of the package binds it to.

use crate::cycle_model::bind_pattern;
use crate::cycle_model::bind_patterns;
use crate::cycle_model::input_params;
use crate::cycle_model::input_params_upto;
use crate::cycle_model::nesting_limit;
use crate::cycle_model::resolve_block;
use crate::cycle_model::resolve_budget;
use crate::cycle_model::resolve_callee;
use crate::cycle_model::walk_item;
use crate::cycle_model::walk_items;
use crate::cycle_model::CallableVariableKind;
use crate::cycle_model::Resolution;
use crate::cycle_model::walk_block;
use crate::cycle_model::walk_budget;
use crate::cycle_model::walk_call;
use crate::cycle_model::walk_callable;
use crate::cycle_model::walk_components;
use crate::cycle_model::walk_expr;
use crate::cycle_model::walk_exprs;
use crate::cycle_model::walk_optional_expr;
use crate::cycle_model::walk_optional_spec_decl;
use crate::cycle_model::walk_spec_decl;
use crate::cycle_model::walk_stmt;
use crate::cycle_model::walk_stmts;
use crate::cycle_model::NodeMap;
use crate::cycle_model::WalkState;
use crate::fir::BlockId;
use crate::fir::CallableImpl;
use crate::fir::ExprId;
use crate::fir::ExprKind;
use crate::fir::ItemKind;
use crate::fir::LocalItemId;
use crate::fir::NodeId;
use crate::fir::Package;
use crate::fir::PackageId;
use crate::fir::PatId;
use crate::fir::PatKind;
use crate::fir::Res;
use crate::fir::SpecDecl;
use crate::fir::StmtId;
use crate::fir::StmtKind;
use crate::fir::StringComponent;
use crate::fir::UnOp;
use crate::selector::CallableSpecializationSelector;
use vstd::prelude::*;

verus! {

/// Numbers for the parts of a package, by their keys.
pub struct Ranking {
    pub exprs: spec_fn(usize) -> nat,
    pub stmts: spec_fn(usize) -> nat,
    pub blocks: spec_fn(usize) -> nat,
    pub pats: spec_fn(usize) -> nat,
}

/// Numbers for the expressions of a package in the place of a callee, and
/// the pairs of a pattern and an expression that the statements of the
/// package bind to one another.
pub struct CalleeRanking {
    pub callees: spec_fn(usize) -> nat,
    pub binds: spec_fn(usize, usize) -> bool,
}

/// Whether the expression ranks above the parts that the walk goes into from
/// it, and a call by two above its arguments.
pub open spec fn expr_is_ranked(package: &Package, ranks: Ranking, expr: usize) -> bool {
    let rank = (ranks.exprs)(expr);
    match package.exprs@[expr].kind {
        ExprKind::Array(exprs) => forall|i: int|
            #![trigger exprs@[i]]
            0 <= i < exprs@.len() ==> (ranks.exprs)(exprs@[i].0) < rank,
        ExprKind::Tuple(exprs) => forall|i: int|
            #![trigger exprs@[i]]
            0 <= i < exprs@.len() ==> (ranks.exprs)(exprs@[i].0) < rank,
        ExprKind::ArrayRepeat(first, second)
        | ExprKind::Assign(first, second)
        | ExprKind::AssignOp(first, second)
        | ExprKind::BinOp(first, second)
        | ExprKind::AssignField(first, second)
        | ExprKind::UpdateField(first, second)
        | ExprKind::Index(first, second) => (ranks.exprs)(first.0) < rank && (ranks.exprs)(
            second.0,
        ) < rank,
        ExprKind::AssignIndex(first, second, third)
        | ExprKind::UpdateIndex(first, second, third) => (ranks.exprs)(first.0) < rank && (
        ranks.exprs)(second.0) < rank && (ranks.exprs)(third.0) < rank,
        ExprKind::Block(block) => (ranks.blocks)(block.0) < rank,
        ExprKind::Call(_, args) => (ranks.exprs)(args.0) + 1 < rank,
        ExprKind::Fail(inner)
        | ExprKind::Field(inner)
        | ExprKind::Return(inner)
        | ExprKind::UnOp(_, inner) => (ranks.exprs)(inner.0) < rank,
        ExprKind::If(cond, body, otherwise) => (ranks.exprs)(cond.0) < rank && (ranks.exprs)(
            body.0,
        ) < rank && (otherwise matches Some(other) ==> (ranks.exprs)(other.0) < rank),
        ExprKind::Range(start, step, end) => (start matches Some(part) ==> (ranks.exprs)(part.0)
            < rank) && (step matches Some(part) ==> (ranks.exprs)(part.0) < rank) && (end matches Some(
            part,
        ) ==> (ranks.exprs)(part.0) < rank),
        ExprKind::String(components) => forall|i: int|
            #![trigger components@[i]]
            0 <= i < components@.len() ==> (components@[i] matches StringComponent::Expr(part)
                ==> (ranks.exprs)(part.0) < rank),
        ExprKind::While(cond, block) => (ranks.exprs)(cond.0) < rank && (ranks.blocks)(block.0)
            < rank,
        ExprKind::Closure(_) | ExprKind::Hole | ExprKind::Lit | ExprKind::Var(_) => true,
    }
}

/// Whether the statement ranks above its expression and its pattern.
pub open spec fn stmt_is_ranked(package: &Package, ranks: Ranking, stmt: usize) -> bool {
    let rank = (ranks.stmts)(stmt);
    match package.stmts@[stmt].kind {
        StmtKind::Item(_) => true,
        StmtKind::Expr(expr) | StmtKind::Semi(expr) => (ranks.exprs)(expr.0) < rank,
        StmtKind::Local(pat, expr) => (ranks.exprs)(expr.0) < rank && (ranks.pats)(pat.0) < rank,
    }
}

/// Whether the block ranks above its statements, and within the nesting limit
/// of the package less two.
pub open spec fn block_is_ranked(package: &Package, ranks: Ranking, block: usize) -> bool {
    &&& (ranks.blocks)(block) + 2 <= nesting_limit(package)
    &&& forall|i: int|
        #![trigger package.blocks@[block].stmts@[i]]
        0 <= i < package.blocks@[block].stmts@.len() ==> (ranks.stmts)(
            package.blocks@[block].stmts@[i].0,
        ) < (ranks.blocks)(block)
}

/// Whether the pattern ranks above the patterns that it is made of.
pub open spec fn pat_is_ranked(package: &Package, ranks: Ranking, pat: usize) -> bool {
    match package.pats@[pat].kind {
        PatKind::Tuple(pats) => forall|i: int|
            #![trigger pats@[i]]
            0 <= i < pats@.len() ==> (ranks.pats)(pats@[i].0) < (ranks.pats)(pat),
        _ => true,
    }
}

/// Whether the numbers rank the parts of the package: each expression,
/// statement, block and pattern that the package has ranks above its parts.
pub open spec fn is_ranked(package: &Package, ranks: Ranking) -> bool {
    &&& forall|expr: usize| #[trigger]
        package.exprs@.contains_key(expr) ==> expr_is_ranked(package, ranks, expr)
    &&& forall|stmt: usize| #[trigger]
        package.stmts@.contains_key(stmt) ==> stmt_is_ranked(package, ranks, stmt)
    &&& forall|block: usize| #[trigger]
        package.blocks@.contains_key(block) ==> block_is_ranked(package, ranks, block)
    &&& forall|pat: usize| #[trigger]
        package.pats@.contains_key(pat) ==> pat_is_ranked(package, ranks, pat)
}

/// The number of specializations that the callables of a package can have.
pub open spec fn room(package: &Package) -> nat {
    4 * package.items.spec_bound()
}

/// Whether the stack holds specializations of callables that the package has
/// room for, and none twice, and the specializations can be numbered.
pub open spec fn stack_is_sound(package: &Package, stack: Seq<usize>) -> bool {
    &&& room(package) <= usize::MAX
    &&& stack.no_duplicates()
    &&& forall|i: int| 0 <= i < stack.len() ==> #[trigger] stack[i] < room(package)
}

/// The budget set aside for the specializations that are not on the stack:
/// the nesting limit for each.
pub open spec fn reserve(package: &Package, stack: Seq<usize>) -> int {
    (room(package) - stack.len()) * nesting_limit(package)
}

/// Numbers below a bound of which none occurs twice are no more than the
/// bound.
pub proof fn lemma_distinct_numbers_are_few(numbers: Seq<usize>, bound: nat)
    requires
        numbers.no_duplicates(),
        forall|i: int| 0 <= i < numbers.len() ==> #[trigger] numbers[i] < bound,
    ensures
        numbers.len() <= bound,
    decreases bound,
{
    if bound == 0 {
        if numbers.len() > 0 {
            assert(numbers[0] < bound);
        }
    } else if exists|i: int| 0 <= i < numbers.len() && #[trigger] numbers[i] == bound - 1 {
        let at = choose|i: int| 0 <= i < numbers.len() && #[trigger] numbers[i] == bound - 1;
        let rest = numbers.remove(at);
        assert forall|i: int| 0 <= i < rest.len() implies #[trigger] rest[i] < bound - 1 by {
            if i < at {
                assert(rest[i] == numbers[i]);
                assert(numbers[i] != numbers[at]);
            } else {
                assert(rest[i] == numbers[i + 1]);
                assert(numbers[i + 1] != numbers[at]);
            }
        }
        assert forall|i: int, j: int| 0 <= i < rest.len() && 0 <= j < rest.len() && i != j implies
            rest[i]
            != rest[j] by {
            let from_i = if i < at {
                i
            } else {
                i + 1
            };
            let from_j = if j < at {
                j
            } else {
                j + 1
            };
            assert(rest[i] == numbers[from_i] && rest[j] == numbers[from_j]);
        }
        lemma_distinct_numbers_are_few(rest, (bound - 1) as nat);
    } else {
        assert forall|i: int| 0 <= i < numbers.len() implies #[trigger] numbers[i] < bound - 1 by {}
        lemma_distinct_numbers_are_few(numbers, (bound - 1) as nat);
    }
}

/// A sound stack with one more specialization that it lacks is sound, and the
/// reserve is then less by the nesting limit.
pub proof fn lemma_stack_takes_one_more(package: &Package, stack: Seq<usize>, key: usize)
    requires
        stack_is_sound(package, stack),
        key < room(package),
        !stack.contains(key),
    ensures
        stack_is_sound(package, stack.push(key)),
        stack.len() < room(package),
        reserve(package, stack.push(key)) == reserve(package, stack) - nesting_limit(package),
        reserve(package, stack.push(key)) >= 0,
{
    let more = stack.push(key);
    assert forall|i: int, j: int| 0 <= i < more.len() && 0 <= j < more.len() && i != j implies
        more[i]
        != more[j] by {
        if i < stack.len() {
            assert(stack.contains(more[i]));
        }
        if j < stack.len() {
            assert(stack.contains(more[j]));
        }
    }
    lemma_distinct_numbers_are_few(more, room(package));
    let left = room(package) - stack.len();
    let limit = nesting_limit(package);
    assert((left - 1) * limit == left * limit - limit) by (nonlinear_arith);
    assert((left - 1) * limit >= 0) by (nonlinear_arith)
        requires
            left >= 1,
            limit >= 0,
    ;
}

/// The reserve of a sound stack is not negative.
pub proof fn lemma_reserve_is_not_negative(package: &Package, stack: Seq<usize>)
    requires
        stack_is_sound(package, stack),
    ensures
        reserve(package, stack) >= 0,
{
    lemma_distinct_numbers_are_few(stack, room(package));
    let left = room(package) - stack.len();
    let limit = nesting_limit(package);
    assert(left * limit >= 0) by (nonlinear_arith)
        requires
            left >= 0,
            limit >= 0,
    ;
}

/// With a budget above the rank of the pattern, the binding of the pattern
/// is the same with any larger budget.
pub proof fn lemma_bind_pattern_within(
    package: &Package,
    ranks: Ranking,
    node_map: NodeMap,
    pat: PatId,
    expr: ExprId,
    fuel: nat,
    more: nat,
)
    requires
        is_ranked(package, ranks),
        fuel > (ranks.pats)(pat.0),
        fuel <= more,
    ensures
        bind_pattern(package, node_map, pat, expr, more) == bind_pattern(
            package,
            node_map,
            pat,
            expr,
            fuel,
        ),
    decreases fuel, 0nat,
{
    if package.pats@.contains_key(pat.0) {
        assert(pat_is_ranked(package, ranks, pat.0));
        match package.pats@[pat.0].kind {
            PatKind::Tuple(pats) => {
                if package.exprs@.contains_key(expr.0) {
                    match package.exprs@[expr.0].kind {
                        ExprKind::Tuple(exprs) => {
                            let count = if pats@.len() <= exprs@.len() {
                                pats@.len()
                            } else {
                                exprs@.len()
                            };
                            assert forall|i: int| 0 <= i < count implies (ranks.pats)(
                                (#[trigger] pats@[i]).0,
                            ) < fuel - 1 by {}
                            lemma_bind_patterns_within(
                                package,
                                ranks,
                                node_map,
                                pats@,
                                exprs@,
                                count,
                                (fuel - 1) as nat,
                                (more - 1) as nat,
                            );
                        },
                        _ => {},
                    }
                }
            },
            _ => {},
        }
    }
}

/// With a budget above the ranks of the patterns, the binding of the
/// patterns is the same with any larger budget.
pub proof fn lemma_bind_patterns_within(
    package: &Package,
    ranks: Ranking,
    node_map: NodeMap,
    pats: Seq<PatId>,
    exprs: Seq<ExprId>,
    count: nat,
    fuel: nat,
    more: nat,
)
    requires
        is_ranked(package, ranks),
        forall|i: int|
            0 <= i < count && i < pats.len() ==> (ranks.pats)((#[trigger] pats[i]).0) < fuel,
        fuel <= more,
    ensures
        bind_patterns(package, node_map, pats, exprs, count, more) == bind_patterns(
            package,
            node_map,
            pats,
            exprs,
            count,
            fuel,
        ),
    decreases fuel, count,
{
    if !(count == 0 || count > pats.len() || count > exprs.len()) {
        lemma_bind_patterns_within(
            package,
            ranks,
            node_map,
            pats,
            exprs,
            (count - 1) as nat,
            fuel,
            more,
        );
        match bind_patterns(package, node_map, pats, exprs, (count - 1) as nat, fuel) {
            Some(bound) => {
                assert((ranks.pats)(pats[count - 1].0) < fuel);
                lemma_bind_pattern_within(
                    package,
                    ranks,
                    bound,
                    pats[count - 1],
                    exprs[count - 1],
                    fuel,
                    more,
                );
            },
            None => {},
        }
    }
}

/// With a budget above the rank of the expression and the reserve, the walk
/// of the expression is the same with any larger budget.
pub proof fn lemma_walk_expr_within(
    package: &Package,
    package_id: PackageId,
    ranks: Ranking,
    stack: Seq<usize>,
    state: WalkState,
    expr: ExprId,
    fuel: nat,
    more: nat,
)
    requires
        is_ranked(package, ranks),
        stack_is_sound(package, stack),
        fuel > (ranks.exprs)(expr.0) + reserve(package, stack),
        fuel <= more,
    ensures
        walk_expr(package, package_id, stack, state, expr, more) == walk_expr(
            package,
            package_id,
            stack,
            state,
            expr,
            fuel,
        ),
    decreases fuel, 0nat,
{
    lemma_reserve_is_not_negative(package, stack);
    if !state.failed && package.exprs@.contains_key(expr.0) {
        assert(expr_is_ranked(package, ranks, expr.0));
        let rest = (fuel - 1) as nat;
        let more_rest = (more - 1) as nat;
        match package.exprs@[expr.0].kind {
            ExprKind::Array(exprs) => {
                assert forall|i: int| 0 <= i < exprs@.len() implies (ranks.exprs)(
                    (#[trigger] exprs@[i]).0,
                ) + reserve(package, stack) < rest by {
                    assert((ranks.exprs)(exprs@[i].0) < (ranks.exprs)(expr.0));
                }
                lemma_walk_exprs_within(
                    package,
                    package_id,
                    ranks,
                    stack,
                    state,
                    exprs@,
                    exprs@.len(),
                    rest,
                    more_rest,
                );
            },
            ExprKind::Tuple(exprs) => {
                assert forall|i: int| 0 <= i < exprs@.len() implies (ranks.exprs)(
                    (#[trigger] exprs@[i]).0,
                ) + reserve(package, stack) < rest by {
                    assert((ranks.exprs)(exprs@[i].0) < (ranks.exprs)(expr.0));
                }
                lemma_walk_exprs_within(
                    package,
                    package_id,
                    ranks,
                    stack,
                    state,
                    exprs@,
                    exprs@.len(),
                    rest,
                    more_rest,
                );
            },
            ExprKind::ArrayRepeat(first, second)
            | ExprKind::Assign(first, second)
            | ExprKind::AssignOp(first, second)
            | ExprKind::BinOp(first, second)
            | ExprKind::AssignField(first, second)
            | ExprKind::UpdateField(first, second)
            | ExprKind::Index(first, second) => {
                let one = walk_expr(package, package_id, stack, state, first, rest);
                lemma_walk_expr_within(
                    package,
                    package_id,
                    ranks,
                    stack,
                    state,
                    first,
                    rest,
                    more_rest,
                );
                lemma_walk_expr_within(
                    package,
                    package_id,
                    ranks,
                    stack,
                    one,
                    second,
                    rest,
                    more_rest,
                );
            },
            ExprKind::AssignIndex(first, second, third)
            | ExprKind::UpdateIndex(first, second, third) => {
                let one = walk_expr(package, package_id, stack, state, first, rest);
                let two = walk_expr(package, package_id, stack, one, second, rest);
                lemma_walk_expr_within(
                    package,
                    package_id,
                    ranks,
                    stack,
                    state,
                    first,
                    rest,
                    more_rest,
                );
                lemma_walk_expr_within(
                    package,
                    package_id,
                    ranks,
                    stack,
                    one,
                    second,
                    rest,
                    more_rest,
                );
                lemma_walk_expr_within(
                    package,
                    package_id,
                    ranks,
                    stack,
                    two,
                    third,
                    rest,
                    more_rest,
                );
            },
            ExprKind::Block(block) => {
                lemma_walk_block_within(
                    package,
                    package_id,
                    ranks,
                    stack,
                    state,
                    block,
                    rest,
                    more_rest,
                );
            },
            ExprKind::Call(callee, args) => {
                lemma_walk_call_within(
                    package,
                    package_id,
                    ranks,
                    stack,
                    state,
                    callee,
                    args,
                    rest,
                    more_rest,
                );
            },
            ExprKind::Fail(inner)
            | ExprKind::Field(inner)
            | ExprKind::Return(inner)
            | ExprKind::UnOp(_, inner) => {
                lemma_walk_expr_within(
                    package,
                    package_id,
                    ranks,
                    stack,
                    state,
                    inner,
                    rest,
                    more_rest,
                );
            },
            ExprKind::If(cond, body, otherwise) => {
                let one = walk_expr(package, package_id, stack, state, cond, rest);
                let two = walk_expr(package, package_id, stack, one, body, rest);
                lemma_walk_expr_within(
                    package,
                    package_id,
                    ranks,
                    stack,
                    state,
                    cond,
                    rest,
                    more_rest,
                );
                lemma_walk_expr_within(
                    package,
                    package_id,
                    ranks,
                    stack,
                    one,
                    body,
                    rest,
                    more_rest,
                );
                lemma_walk_optional_expr_within(
                    package,
                    package_id,
                    ranks,
                    stack,
                    two,
                    otherwise,
                    rest,
                    more_rest,
                );
            },
            ExprKind::Range(start, step, end) => {
                let one = walk_optional_expr(package, package_id, stack, state, start, rest);
                let two = walk_optional_expr(package, package_id, stack, one, step, rest);
                lemma_walk_optional_expr_within(
                    package,
                    package_id,
                    ranks,
                    stack,
                    state,
                    start,
                    rest,
                    more_rest,
                );
                lemma_walk_optional_expr_within(
                    package,
                    package_id,
                    ranks,
                    stack,
                    one,
                    step,
                    rest,
                    more_rest,
                );
                lemma_walk_optional_expr_within(
                    package,
                    package_id,
                    ranks,
                    stack,
                    two,
                    end,
                    rest,
                    more_rest,
                );
            },
            ExprKind::String(components) => {
                assert forall|i: int|
                    0 <= i < components@.len() implies
                        ((#[trigger] components@[i]) matches StringComponent::Expr(
                    part,
                ) ==> (ranks.exprs)(part.0) + reserve(package, stack) < rest) by {}
                lemma_walk_components_within(
                    package,
                    package_id,
                    ranks,
                    stack,
                    state,
                    components@,
                    components@.len(),
                    rest,
                    more_rest,
                );
            },
            ExprKind::While(cond, block) => {
                let one = walk_expr(package, package_id, stack, state, cond, rest);
                lemma_walk_expr_within(
                    package,
                    package_id,
                    ranks,
                    stack,
                    state,
                    cond,
                    rest,
                    more_rest,
                );
                lemma_walk_block_within(
                    package,
                    package_id,
                    ranks,
                    stack,
                    one,
                    block,
                    rest,
                    more_rest,
                );
            },
            ExprKind::Closure(_) | ExprKind::Hole | ExprKind::Lit | ExprKind::Var(_) => {},
        }
    }
}

/// With a budget above the rank of an expression that may be absent and the
/// reserve, the walk of it is the same with any larger budget.
pub proof fn lemma_walk_optional_expr_within(
    package: &Package,
    package_id: PackageId,
    ranks: Ranking,
    stack: Seq<usize>,
    state: WalkState,
    expr: Option<ExprId>,
    fuel: nat,
    more: nat,
)
    requires
        is_ranked(package, ranks),
        stack_is_sound(package, stack),
        expr matches Some(part) ==> fuel > (ranks.exprs)(part.0) + reserve(package, stack),
        fuel <= more,
    ensures
        walk_optional_expr(package, package_id, stack, state, expr, more) == walk_optional_expr(
            package,
            package_id,
            stack,
            state,
            expr,
            fuel,
        ),
    decreases fuel, 1nat,
{
    match expr {
        Some(expr) => {
            lemma_walk_expr_within(package, package_id, ranks, stack, state, expr, fuel, more);
        },
        None => {},
    }
}

/// With a budget above the ranks of the expressions and the reserve, the
/// walk of the expressions is the same with any larger budget.
pub proof fn lemma_walk_exprs_within(
    package: &Package,
    package_id: PackageId,
    ranks: Ranking,
    stack: Seq<usize>,
    state: WalkState,
    exprs: Seq<ExprId>,
    count: nat,
    fuel: nat,
    more: nat,
)
    requires
        is_ranked(package, ranks),
        stack_is_sound(package, stack),
        forall|i: int|
            0 <= i < count && i < exprs.len() ==> (ranks.exprs)((#[trigger] exprs[i]).0) + reserve(
                package,
                stack,
            ) < fuel,
        fuel <= more,
    ensures
        walk_exprs(package, package_id, stack, state, exprs, count, more) == walk_exprs(
            package,
            package_id,
            stack,
            state,
            exprs,
            count,
            fuel,
        ),
    decreases fuel, count,
{
    if !(count == 0 || count > exprs.len()) {
        lemma_walk_exprs_within(
            package,
            package_id,
            ranks,
            stack,
            state,
            exprs,
            (count - 1) as nat,
            fuel,
            more,
        );
        assert((ranks.exprs)(exprs[count - 1].0) + reserve(package, stack) < fuel);
        lemma_walk_expr_within(
            package,
            package_id,
            ranks,
            stack,
            walk_exprs(package, package_id, stack, state, exprs, (count - 1) as nat, fuel),
            exprs[count - 1],
            fuel,
            more,
        );
    }
}

/// With a budget above the ranks of the expressions among the parts of an
/// interpolated string and the reserve, the walk of them is the same with any
/// larger budget.
pub proof fn lemma_walk_components_within(
    package: &Package,
    package_id: PackageId,
    ranks: Ranking,
    stack: Seq<usize>,
    state: WalkState,
    components: Seq<StringComponent>,
    count: nat,
    fuel: nat,
    more: nat,
)
    requires
        is_ranked(package, ranks),
        stack_is_sound(package, stack),
        forall|i: int|
            0 <= i < count && i < components.len() ==> ((#[trigger] components[i]) matches StringComponent::Expr(
                part,
            ) ==> (ranks.exprs)(part.0) + reserve(package, stack) < fuel),
        fuel <= more,
    ensures
        walk_components(package, package_id, stack, state, components, count, more)
            == walk_components(package, package_id, stack, state, components, count, fuel),
    decreases fuel, count,
{
    if !(count == 0 || count > components.len()) {
        lemma_walk_components_within(
            package,
            package_id,
            ranks,
            stack,
            state,
            components,
            (count - 1) as nat,
            fuel,
            more,
        );
        match components[count - 1] {
            StringComponent::Expr(part) => {
                lemma_walk_expr_within(
                    package,
                    package_id,
                    ranks,
                    stack,
                    walk_components(
                        package,
                        package_id,
                        stack,
                        state,
                        components,
                        (count - 1) as nat,
                        fuel,
                    ),
                    part,
                    fuel,
                    more,
                );
            },
            StringComponent::Lit => {},
        }
    }
}

/// With a budget above the rank of the block and the reserve, the walk of
/// the block is the same with any larger budget.
pub proof fn lemma_walk_block_within(
    package: &Package,
    package_id: PackageId,
    ranks: Ranking,
    stack: Seq<usize>,
    state: WalkState,
    block: BlockId,
    fuel: nat,
    more: nat,
)
    requires
        is_ranked(package, ranks),
        stack_is_sound(package, stack),
        fuel > 0,
        package.blocks@.contains_key(block.0) ==> fuel > (ranks.blocks)(block.0) + reserve(
            package,
            stack,
        ),
        fuel <= more,
    ensures
        walk_block(package, package_id, stack, state, block, more) == walk_block(
            package,
            package_id,
            stack,
            state,
            block,
            fuel,
        ),
    decreases fuel, 0nat,
{
    if !state.failed && package.blocks@.contains_key(block.0) {
        assert(block_is_ranked(package, ranks, block.0));
        let stmts = package.blocks@[block.0].stmts@;
        assert forall|i: int| 0 <= i < stmts.len() implies (ranks.stmts)((#[trigger] stmts[i]).0)
            + reserve(package, stack) < fuel - 1 by {
            assert((ranks.stmts)(package.blocks@[block.0].stmts@[i].0) < (ranks.blocks)(block.0));
        }
        lemma_walk_stmts_within(
            package,
            package_id,
            ranks,
            stack,
            state,
            stmts,
            stmts.len(),
            (fuel - 1) as nat,
            (more - 1) as nat,
        );
    }
}

/// With a budget above the ranks of the statements and the reserve, the walk
/// of the statements is the same with any larger budget.
pub proof fn lemma_walk_stmts_within(
    package: &Package,
    package_id: PackageId,
    ranks: Ranking,
    stack: Seq<usize>,
    state: WalkState,
    stmts: Seq<StmtId>,
    count: nat,
    fuel: nat,
    more: nat,
)
    requires
        is_ranked(package, ranks),
        stack_is_sound(package, stack),
        forall|i: int|
            0 <= i < count && i < stmts.len() ==> (ranks.stmts)((#[trigger] stmts[i]).0) + reserve(
                package,
                stack,
            ) < fuel,
        fuel <= more,
    ensures
        walk_stmts(package, package_id, stack, state, stmts, count, more) == walk_stmts(
            package,
            package_id,
            stack,
            state,
            stmts,
            count,
            fuel,
        ),
    decreases fuel, count,
{
    if !(count == 0 || count > stmts.len()) {
        lemma_walk_stmts_within(
            package,
            package_id,
            ranks,
            stack,
            state,
            stmts,
            (count - 1) as nat,
            fuel,
            more,
        );
        assert((ranks.stmts)(stmts[count - 1].0) + reserve(package, stack) < fuel);
        lemma_walk_stmt_within(
            package,
            package_id,
            ranks,
            stack,
            walk_stmts(package, package_id, stack, state, stmts, (count - 1) as nat, fuel),
            stmts[count - 1],
            fuel,
            more,
        );
    }
}

/// With a budget above the rank of the statement and the reserve, the walk
/// of the statement is the same with any larger budget.
pub proof fn lemma_walk_stmt_within(
    package: &Package,
    package_id: PackageId,
    ranks: Ranking,
    stack: Seq<usize>,
    state: WalkState,
    stmt: StmtId,
    fuel: nat,
    more: nat,
)
    requires
        is_ranked(package, ranks),
        stack_is_sound(package, stack),
        fuel > (ranks.stmts)(stmt.0) + reserve(package, stack),
        fuel <= more,
    ensures
        walk_stmt(package, package_id, stack, state, stmt, more) == walk_stmt(
            package,
            package_id,
            stack,
            state,
            stmt,
            fuel,
        ),
    decreases fuel, 0nat,
{
    lemma_reserve_is_not_negative(package, stack);
    if !state.failed && package.stmts@.contains_key(stmt.0) {
        assert(stmt_is_ranked(package, ranks, stmt.0));
        let rest = (fuel - 1) as nat;
        let more_rest = (more - 1) as nat;
        match package.stmts@[stmt.0].kind {
            StmtKind::Item(_) => {},
            StmtKind::Expr(expr) | StmtKind::Semi(expr) => {
                lemma_walk_expr_within(
                    package,
                    package_id,
                    ranks,
                    stack,
                    state,
                    expr,
                    rest,
                    more_rest,
                );
            },
            StmtKind::Local(pat, expr) => {
                lemma_bind_pattern_within(
                    package,
                    ranks,
                    state.current_node_map(stack),
                    pat,
                    expr,
                    rest,
                    more_rest,
                );
                match bind_pattern(package, state.current_node_map(stack), pat, expr, rest) {
                    Some(node_map) => {
                        lemma_walk_expr_within(
                            package,
                            package_id,
                            ranks,
                            stack,
                            state.with_current_node_map(stack, node_map),
                            expr,
                            rest,
                            more_rest,
                        );
                    },
                    None => {},
                }
            },
        }
    }
}

/// With a budget above the rank of the arguments, one more and the reserve,
/// the walk of the call is the same with any larger budget.
pub proof fn lemma_walk_call_within(
    package: &Package,
    package_id: PackageId,
    ranks: Ranking,
    stack: Seq<usize>,
    state: WalkState,
    callee: ExprId,
    args: ExprId,
    fuel: nat,
    more: nat,
)
    requires
        is_ranked(package, ranks),
        stack_is_sound(package, stack),
        fuel > (ranks.exprs)(args.0) + 1 + reserve(package, stack),
        fuel <= more,
    ensures
        walk_call(package, package_id, stack, state, callee, args, more) == walk_call(
            package,
            package_id,
            stack,
            state,
            callee,
            args,
            fuel,
        ),
    decreases fuel, 0nat,
{
    lemma_reserve_is_not_negative(package, stack);
    if !state.failed {
        let rest = (fuel - 1) as nat;
        let more_rest = (more - 1) as nat;
        lemma_walk_expr_within(package, package_id, ranks, stack, state, args, rest, more_rest);
        let after_args = walk_expr(package, package_id, stack, state, args, rest);
        if !after_args.failed {
            match crate::cycle_model::resolve_callee(
                package,
                package_id,
                after_args.current_node_map(stack),
                callee,
                crate::cycle_model::resolve_budget(package),
            ) {
                crate::cycle_model::Resolution::Resolved(specialization) => {
                    lemma_walk_callable_within(
                        package,
                        package_id,
                        ranks,
                        stack,
                        after_args,
                        specialization,
                        rest,
                        more_rest,
                    );
                },
                _ => {},
            }
        }
    }
}

/// With a budget of at least the reserve, the walk of a specialization that
/// is called is the same with any larger budget.
pub proof fn lemma_walk_callable_within(
    package: &Package,
    package_id: PackageId,
    ranks: Ranking,
    stack: Seq<usize>,
    state: WalkState,
    specialization: CallableSpecializationSelector,
    fuel: nat,
    more: nat,
)
    requires
        is_ranked(package, ranks),
        stack_is_sound(package, stack),
        fuel >= reserve(package, stack),
        fuel <= more,
    ensures
        walk_callable(package, package_id, stack, state, specialization, more) == walk_callable(
            package,
            package_id,
            stack,
            state,
            specialization,
            fuel,
        ),
    decreases fuel, 2nat,
{
    if !state.failed && package.items@.contains_key(specialization.callable.0) {
        package.items.lemma_keys_below_bound();
        match package.items@[specialization.callable.0].kind {
            ItemKind::Callable(callable) => match callable.implementation {
                CallableImpl::Spec(specs) => match specialization.specialization_selector.spec_select(
                    specs,
                ) {
                    Some(decl) => {
                        lemma_walk_spec_decl_within(
                            package,
                            package_id,
                            ranks,
                            stack,
                            state,
                            specialization,
                            callable.input,
                            decl,
                            fuel,
                            more,
                        );
                    },
                    None => {},
                },
                CallableImpl::Intrinsic => {},
            },
            _ => {},
        }
    }
}

/// With a budget of at least the reserve, the walk of a specialization of a
/// callable that the package has room for is the same with any larger budget.
pub proof fn lemma_walk_spec_decl_within(
    package: &Package,
    package_id: PackageId,
    ranks: Ranking,
    stack: Seq<usize>,
    state: WalkState,
    specialization: CallableSpecializationSelector,
    input: PatId,
    decl: SpecDecl,
    fuel: nat,
    more: nat,
)
    requires
        is_ranked(package, ranks),
        stack_is_sound(package, stack),
        specialization.callable.0 < package.items.spec_bound(),
        fuel >= reserve(package, stack),
        fuel <= more,
    ensures
        walk_spec_decl(package, package_id, stack, state, specialization, input, decl, more)
            == walk_spec_decl(package, package_id, stack, state, specialization, input, decl, fuel),
    decreases fuel, 1nat,
{
    let key = specialization.spec_key();
    if !state.failed && !stack.contains(key) {
        assert(key < room(package));
        lemma_stack_takes_one_more(package, stack, key);
        let deeper = stack.push(key);
        assert(nesting_limit(package) >= 2);
        if package.blocks@.contains_key(decl.block.0) {
            assert(block_is_ranked(package, ranks, decl.block.0));
        }
        let entered = if state.node_maps.contains_key(key) {
            state
        } else {
            match crate::cycle_model::input_params(package, input) {
                Some(params) => WalkState { node_maps: state.node_maps.insert(key, params), ..state },
                None => state,
            }
        };
        lemma_walk_block_within(
            package,
            package_id,
            ranks,
            deeper,
            entered,
            decl.block,
            (fuel - 1) as nat,
            (more - 1) as nat,
        );
    }
}

/// In a package with a ranking, the walk of a specialization from outside any
/// specialization gives with every larger budget what it gives with the walk
/// budget of the package: it does not fail for want of budget.
pub proof fn lemma_walk_stays_within_budget(
    package: &Package,
    package_id: PackageId,
    ranks: Ranking,
    state: WalkState,
    specialization: CallableSpecializationSelector,
    input: PatId,
    decl: SpecDecl,
    more: nat,
)
    requires
        is_ranked(package, ranks),
        (4 * package.items.spec_bound() + 1) * nesting_limit(package) <= usize::MAX,
        specialization.callable.0 < package.items.spec_bound(),
        more >= walk_budget(package),
    ensures
        walk_spec_decl(
            package,
            package_id,
            Seq::empty(),
            state,
            specialization,
            input,
            decl,
            more,
        ) == walk_optional_spec_decl(package, package_id, state, specialization, input, Some(decl)),
{
    let stack = Seq::<usize>::empty();
    let bound = package.items.spec_bound();
    let limit = nesting_limit(package);
    assert(4 * bound <= (4 * bound + 1) * limit) by (nonlinear_arith)
        requires
            limit >= 1,
    ;
    assert(reserve(package, stack) <= (4 * bound + 1) * limit) by (nonlinear_arith)
        requires
            reserve(package, stack) == (4 * bound - 0) * limit,
            limit >= 0,
    ;
    lemma_walk_spec_decl_within(
        package,
        package_id,
        ranks,
        stack,
        state,
        specialization,
        input,
        decl,
        walk_budget(package),
        more,
    );
}

/// Whether the expression ranks, within the budget of a resolution, above
/// the expression that the resolution of a callee goes on to from it: the
/// last expression of a block, and the operand of a functor.
pub open spec fn callee_is_ranked(package: &Package, ranks: CalleeRanking, expr: usize) -> bool {
    let rank = (ranks.callees)(expr);
    &&& rank < resolve_budget(package)
    &&& match package.exprs@[expr].kind {
        ExprKind::Block(block) => {
            let stmts = package.blocks@[block.0].stmts@;
            package.blocks@.contains_key(block.0) && stmts.len() > 0 && package.stmts@.contains_key(
                stmts.last().0,
            ) ==> (package.stmts@[stmts.last().0].kind matches StmtKind::Expr(value) ==> (
            ranks.callees)(value.0) < rank)
        },
        ExprKind::UnOp(UnOp::Functor(_), operand) => (ranks.callees)(operand.0) < rank,
        _ => true,
    }
}

/// Whether every name of the local in the package ranks above the expression
/// that the local is bound to.
pub open spec fn binding_is_ranked(
    package: &Package,
    ranks: CalleeRanking,
    node: usize,
    bound: ExprId,
) -> bool {
    forall|name: usize| #[trigger]
        package.exprs@.contains_key(name) && package.exprs@[name].kind == ExprKind::Var(
            Res::Local(NodeId(node)),
        ) ==> (ranks.callees)(bound.0) < (ranks.callees)(name)
}

/// Whether the pattern passes on to its parts what it is bound to, and each
/// name of a local that it binds ranks above what the local is bound to.
pub open spec fn pat_binds_in_order(package: &Package, ranks: CalleeRanking, pat: usize) -> bool {
    match package.pats@[pat].kind {
        PatKind::Bind(node) => forall|expr: usize| #[trigger]
            (ranks.binds)(pat, expr) ==> binding_is_ranked(package, ranks, node.0, ExprId(expr)),
        PatKind::Tuple(pats) => forall|expr: usize| #[trigger]
            (ranks.binds)(pat, expr) && package.exprs@.contains_key(expr) ==> (
            package.exprs@[expr].kind matches ExprKind::Tuple(exprs) ==> forall|i: int|
                #![trigger pats@[i], exprs@[i]]
                0 <= i < pats@.len() && i < exprs@.len() ==> (ranks.binds)(pats@[i].0, exprs@[i].0)),
        PatKind::Discard => true,
    }
}

/// Whether the bindings of the package are ranked: every expression ranks
/// above what the resolution of a callee goes on to from it, a statement
/// that binds a pattern to an expression is among the pairs, a pattern of a
/// pair passes the pair on to its parts, and each name of a local ranks above
/// what a pair binds the local to.
pub open spec fn bindings_are_ranked(package: &Package, ranks: CalleeRanking) -> bool {
    &&& forall|expr: usize| #[trigger]
        package.exprs@.contains_key(expr) ==> callee_is_ranked(package, ranks, expr)
    &&& forall|pat: usize| #[trigger]
        package.pats@.contains_key(pat) ==> pat_binds_in_order(package, ranks, pat)
    &&& forall|stmt: usize| #[trigger]
        package.stmts@.contains_key(stmt) ==> (package.stmts@[stmt].kind matches StmtKind::Local(
            pat,
            expr,
        ) ==> (ranks.binds)(pat.0, expr.0))
}

/// Whether every name of a local ranks above the expression that the
/// bindings bind the local to.
pub open spec fn is_grounded(package: &Package, ranks: CalleeRanking, node_map: NodeMap) -> bool {
    forall|node: usize| #[trigger]
        node_map.contains_key(node) ==> (node_map[node].kind matches CallableVariableKind::Local(
            bound,
        ) ==> binding_is_ranked(package, ranks, node, bound))
}

/// Whether the bindings of every specialization are grounded.
pub open spec fn all_grounded(
    package: &Package,
    ranks: CalleeRanking,
    node_maps: Map<usize, NodeMap>,
) -> bool {
    forall|key: usize| #[trigger]
        node_maps.contains_key(key) ==> is_grounded(package, ranks, node_maps[key])
}

/// With a budget above the rank of the expression, the resolution of a
/// callee under grounded bindings is the same with any larger budget.
pub proof fn lemma_resolve_callee_within(
    package: &Package,
    package_id: PackageId,
    ranks: CalleeRanking,
    node_map: NodeMap,
    expr: ExprId,
    fuel: nat,
    more: nat,
)
    requires
        bindings_are_ranked(package, ranks),
        is_grounded(package, ranks, node_map),
        fuel > (ranks.callees)(expr.0),
        fuel <= more,
    ensures
        resolve_callee(package, package_id, node_map, expr, more) == resolve_callee(
            package,
            package_id,
            node_map,
            expr,
            fuel,
        ),
    decreases fuel, 1nat,
{
    if package.exprs@.contains_key(expr.0) {
        assert(callee_is_ranked(package, ranks, expr.0));
        match package.exprs@[expr.0].kind {
            ExprKind::Block(block) => {
                lemma_resolve_block_within(
                    package,
                    package_id,
                    ranks,
                    node_map,
                    expr,
                    block,
                    fuel,
                    more,
                );
            },
            ExprKind::UnOp(UnOp::Functor(_), operand) => {
                lemma_resolve_callee_within(
                    package,
                    package_id,
                    ranks,
                    node_map,
                    operand,
                    (fuel - 1) as nat,
                    (more - 1) as nat,
                );
            },
            ExprKind::Var(Res::Local(node)) => {
                if node_map.contains_key(node.0) {
                    match node_map[node.0].kind {
                        CallableVariableKind::Local(bound) => {
                            assert(binding_is_ranked(package, ranks, node.0, bound));
                            assert(package.exprs@.contains_key(expr.0));
                            assert(NodeId(node.0) == node);
                            lemma_resolve_callee_within(
                                package,
                                package_id,
                                ranks,
                                node_map,
                                bound,
                                (fuel - 1) as nat,
                                (more - 1) as nat,
                            );
                        },
                        _ => {},
                    }
                }
            },
            _ => {},
        }
    }
}

/// With a budget above the rank of the expression that is the block, the
/// resolution of the block in the place of a callee is the same with any
/// larger budget.
pub proof fn lemma_resolve_block_within(
    package: &Package,
    package_id: PackageId,
    ranks: CalleeRanking,
    node_map: NodeMap,
    expr: ExprId,
    block: BlockId,
    fuel: nat,
    more: nat,
)
    requires
        bindings_are_ranked(package, ranks),
        is_grounded(package, ranks, node_map),
        package.exprs@.contains_key(expr.0),
        package.exprs@[expr.0].kind == ExprKind::Block(block),
        fuel > (ranks.callees)(expr.0),
        fuel <= more,
    ensures
        resolve_block(package, package_id, node_map, block, more) == resolve_block(
            package,
            package_id,
            node_map,
            block,
            fuel,
        ),
    decreases fuel, 0nat,
{
    if package.blocks@.contains_key(block.0) {
        let stmts = package.blocks@[block.0].stmts@;
        if stmts.len() > 0 && package.stmts@.contains_key(stmts.last().0) {
            assert(callee_is_ranked(package, ranks, expr.0));
            match package.stmts@[stmts.last().0].kind {
                StmtKind::Expr(value) => {
                    lemma_resolve_callee_within(
                        package,
                        package_id,
                        ranks,
                        node_map,
                        value,
                        (fuel - 1) as nat,
                        (more - 1) as nat,
                    );
                },
                _ => {},
            }
        }
    }
}

/// Where the bindings of a package are ranked, the resolution of a callee
/// under grounded bindings gives with every larger budget what it gives with
/// the budget of a resolution: it does not fail for want of budget.
pub proof fn lemma_resolution_stays_within_budget(
    package: &Package,
    package_id: PackageId,
    ranks: CalleeRanking,
    node_map: NodeMap,
    expr: ExprId,
    more: nat,
)
    requires
        bindings_are_ranked(package, ranks),
        is_grounded(package, ranks, node_map),
        more >= resolve_budget(package),
    ensures
        resolve_callee(package, package_id, node_map, expr, more) == resolve_callee(
            package,
            package_id,
            node_map,
            expr,
            resolve_budget(package),
        ),
{
    if package.exprs@.contains_key(expr.0) {
        assert(callee_is_ranked(package, ranks, expr.0));
        lemma_resolve_callee_within(
            package,
            package_id,
            ranks,
            node_map,
            expr,
            resolve_budget(package),
            more,
        );
    }
}

/// The binding of a pattern to an expression that a statement binds it to
/// keeps the bindings grounded.
pub proof fn lemma_bind_pattern_grounded(
    package: &Package,
    ranks: CalleeRanking,
    node_map: NodeMap,
    pat: PatId,
    expr: ExprId,
    fuel: nat,
)
    requires
        bindings_are_ranked(package, ranks),
        is_grounded(package, ranks, node_map),
        (ranks.binds)(pat.0, expr.0),
    ensures
        bind_pattern(package, node_map, pat, expr, fuel) matches Some(bound) ==> is_grounded(
            package,
            ranks,
            bound,
        ),
    decreases fuel, 0nat,
{
    if fuel > 0 && package.pats@.contains_key(pat.0) {
        assert(pat_binds_in_order(package, ranks, pat.0));
        match package.pats@[pat.0].kind {
            PatKind::Bind(node) => {
                assert(binding_is_ranked(package, ranks, node.0, ExprId(expr.0)));
                assert(ExprId(expr.0) == expr);
            },
            PatKind::Tuple(pats) => {
                if package.exprs@.contains_key(expr.0) {
                    match package.exprs@[expr.0].kind {
                        ExprKind::Tuple(exprs) => {
                            let count = if pats@.len() <= exprs@.len() {
                                pats@.len()
                            } else {
                                exprs@.len()
                            };
                            assert forall|i: int|
                                #![trigger pats@[i], exprs@[i]]
                                0 <= i < count implies (ranks.binds)(pats@[i].0, exprs@[i].0) by {}
                            lemma_bind_patterns_grounded(
                                package,
                                ranks,
                                node_map,
                                pats@,
                                exprs@,
                                count,
                                (fuel - 1) as nat,
                            );
                        },
                        _ => {},
                    }
                }
            },
            PatKind::Discard => {},
        }
    }
}

/// The binding of patterns to the expressions that a statement binds them to
/// keeps the bindings grounded.
pub proof fn lemma_bind_patterns_grounded(
    package: &Package,
    ranks: CalleeRanking,
    node_map: NodeMap,
    pats: Seq<PatId>,
    exprs: Seq<ExprId>,
    count: nat,
    fuel: nat,
)
    requires
        bindings_are_ranked(package, ranks),
        is_grounded(package, ranks, node_map),
        forall|i: int|
            #![trigger pats[i], exprs[i]]
            0 <= i < count && i < pats.len() && i < exprs.len() ==> (ranks.binds)(
                pats[i].0,
                exprs[i].0,
            ),
    ensures
        bind_patterns(package, node_map, pats, exprs, count, fuel) matches Some(bound)
            ==> is_grounded(package, ranks, bound),
    decreases fuel, count,
{
    if !(count == 0 || count > pats.len() || count > exprs.len()) {
        lemma_bind_patterns_grounded(
            package,
            ranks,
            node_map,
            pats,
            exprs,
            (count - 1) as nat,
            fuel,
        );
        match bind_patterns(package, node_map, pats, exprs, (count - 1) as nat, fuel) {
            Some(bound) => {
                assert((ranks.binds)(pats[count - 1].0, exprs[count - 1].0));
                lemma_bind_pattern_grounded(
                    package,
                    ranks,
                    bound,
                    pats[count - 1],
                    exprs[count - 1],
                    fuel,
                );
            },
            None => {},
        }
    }
}

/// The bindings of the input parameters of a callable bind no local to an
/// expression, so they are grounded.
pub proof fn lemma_input_params_are_grounded(package: &Package, ranks: CalleeRanking, input: PatId)
    ensures
        input_params(package, input) matches Some(params) ==> is_grounded(package, ranks, params),
{
    if package.pats@.contains_key(input.0) {
        match package.pats@[input.0].kind {
            PatKind::Tuple(pats) => {
                lemma_input_params_upto_are_grounded(package, ranks, pats@, pats@.len());
            },
            _ => {},
        }
    }
}

/// The bindings of the input parameters among the items of a tuple pattern
/// bind no local to an expression.
pub proof fn lemma_input_params_upto_are_grounded(
    package: &Package,
    ranks: CalleeRanking,
    pats: Seq<PatId>,
    count: nat,
)
    ensures
        input_params_upto(package, pats, count) matches Some(params) ==> (forall|node: usize| #[trigger]
            params.contains_key(node) ==> params[node].kind is InputParam),
    decreases count,
{
    if !(count == 0 || count > pats.len()) {
        lemma_input_params_upto_are_grounded(package, ranks, pats, (count - 1) as nat);
    }
}

/// The walk of an expression keeps the bindings of every specialization
/// grounded.
pub proof fn lemma_walk_expr_grounded(
    package: &Package,
    package_id: PackageId,
    ranks: CalleeRanking,
    stack: Seq<usize>,
    state: WalkState,
    expr: ExprId,
    fuel: nat,
)
    requires
        bindings_are_ranked(package, ranks),
        all_grounded(package, ranks, state.node_maps),
    ensures
        all_grounded(
            package,
            ranks,
            walk_expr(package, package_id, stack, state, expr, fuel).node_maps,
        ),
    decreases fuel, 0nat,
{
    if !state.failed && fuel > 0 && package.exprs@.contains_key(expr.0) {
        let rest = (fuel - 1) as nat;
        match package.exprs@[expr.0].kind {
            ExprKind::Array(exprs) | ExprKind::Tuple(exprs) => {
                lemma_walk_exprs_grounded(
                    package,
                    package_id,
                    ranks,
                    stack,
                    state,
                    exprs@,
                    exprs@.len(),
                    rest,
                );
            },
            ExprKind::ArrayRepeat(first, second)
            | ExprKind::Assign(first, second)
            | ExprKind::AssignOp(first, second)
            | ExprKind::BinOp(first, second)
            | ExprKind::AssignField(first, second)
            | ExprKind::UpdateField(first, second)
            | ExprKind::Index(first, second) => {
                let one = walk_expr(package, package_id, stack, state, first, rest);
                lemma_walk_expr_grounded(package, package_id, ranks, stack, state, first, rest);
                lemma_walk_expr_grounded(package, package_id, ranks, stack, one, second, rest);
            },
            ExprKind::AssignIndex(first, second, third)
            | ExprKind::UpdateIndex(first, second, third) => {
                let one = walk_expr(package, package_id, stack, state, first, rest);
                let two = walk_expr(package, package_id, stack, one, second, rest);
                lemma_walk_expr_grounded(package, package_id, ranks, stack, state, first, rest);
                lemma_walk_expr_grounded(package, package_id, ranks, stack, one, second, rest);
                lemma_walk_expr_grounded(package, package_id, ranks, stack, two, third, rest);
            },
            ExprKind::Block(block) => {
                lemma_walk_block_grounded(package, package_id, ranks, stack, state, block, rest);
            },
            ExprKind::Call(callee, args) => {
                lemma_walk_call_grounded(
                    package,
                    package_id,
                    ranks,
                    stack,
                    state,
                    callee,
                    args,
                    rest,
                );
            },
            ExprKind::Fail(inner)
            | ExprKind::Field(inner)
            | ExprKind::Return(inner)
            | ExprKind::UnOp(_, inner) => {
                lemma_walk_expr_grounded(package, package_id, ranks, stack, state, inner, rest);
            },
            ExprKind::If(cond, body, otherwise) => {
                let one = walk_expr(package, package_id, stack, state, cond, rest);
                let two = walk_expr(package, package_id, stack, one, body, rest);
                lemma_walk_expr_grounded(package, package_id, ranks, stack, state, cond, rest);
                lemma_walk_expr_grounded(package, package_id, ranks, stack, one, body, rest);
                lemma_walk_optional_expr_grounded(
                    package,
                    package_id,
                    ranks,
                    stack,
                    two,
                    otherwise,
                    rest,
                );
            },
            ExprKind::Range(start, step, end) => {
                let one = walk_optional_expr(package, package_id, stack, state, start, rest);
                let two = walk_optional_expr(package, package_id, stack, one, step, rest);
                lemma_walk_optional_expr_grounded(
                    package,
                    package_id,
                    ranks,
                    stack,
                    state,
                    start,
                    rest,
                );
                lemma_walk_optional_expr_grounded(
                    package,
                    package_id,
                    ranks,
                    stack,
                    one,
                    step,
                    rest,
                );
                lemma_walk_optional_expr_grounded(
                    package,
                    package_id,
                    ranks,
                    stack,
                    two,
                    end,
                    rest,
                );
            },
            ExprKind::String(components) => {
                lemma_walk_components_grounded(
                    package,
                    package_id,
                    ranks,
                    stack,
                    state,
                    components@,
                    components@.len(),
                    rest,
                );
            },
            ExprKind::While(cond, block) => {
                let one = walk_expr(package, package_id, stack, state, cond, rest);
                lemma_walk_expr_grounded(package, package_id, ranks, stack, state, cond, rest);
                lemma_walk_block_grounded(package, package_id, ranks, stack, one, block, rest);
            },
            ExprKind::Closure(_) | ExprKind::Hole | ExprKind::Lit | ExprKind::Var(_) => {},
        }
    }
}

/// The walk of an expression that may be absent keeps the bindings grounded.
pub proof fn lemma_walk_optional_expr_grounded(
    package: &Package,
    package_id: PackageId,
    ranks: CalleeRanking,
    stack: Seq<usize>,
    state: WalkState,
    expr: Option<ExprId>,
    fuel: nat,
)
    requires
        bindings_are_ranked(package, ranks),
        all_grounded(package, ranks, state.node_maps),
    ensures
        all_grounded(
            package,
            ranks,
            walk_optional_expr(package, package_id, stack, state, expr, fuel).node_maps,
        ),
    decreases fuel, 1nat,
{
    match expr {
        Some(expr) => {
            lemma_walk_expr_grounded(package, package_id, ranks, stack, state, expr, fuel);
        },
        None => {},
    }
}

/// The walk of expressions keeps the bindings grounded.
pub proof fn lemma_walk_exprs_grounded(
    package: &Package,
    package_id: PackageId,
    ranks: CalleeRanking,
    stack: Seq<usize>,
    state: WalkState,
    exprs: Seq<ExprId>,
    count: nat,
    fuel: nat,
)
    requires
        bindings_are_ranked(package, ranks),
        all_grounded(package, ranks, state.node_maps),
    ensures
        all_grounded(
            package,
            ranks,
            walk_exprs(package, package_id, stack, state, exprs, count, fuel).node_maps,
        ),
    decreases fuel, count,
{
    if !(count == 0 || count > exprs.len()) {
        lemma_walk_exprs_grounded(
            package,
            package_id,
            ranks,
            stack,
            state,
            exprs,
            (count - 1) as nat,
            fuel,
        );
        lemma_walk_expr_grounded(
            package,
            package_id,
            ranks,
            stack,
            walk_exprs(package, package_id, stack, state, exprs, (count - 1) as nat, fuel),
            exprs[count - 1],
            fuel,
        );
    }
}

/// The walk of the expressions among the parts of an interpolated string
/// keeps the bindings grounded.
pub proof fn lemma_walk_components_grounded(
    package: &Package,
    package_id: PackageId,
    ranks: CalleeRanking,
    stack: Seq<usize>,
    state: WalkState,
    components: Seq<StringComponent>,
    count: nat,
    fuel: nat,
)
    requires
        bindings_are_ranked(package, ranks),
        all_grounded(package, ranks, state.node_maps),
    ensures
        all_grounded(
            package,
            ranks,
            walk_components(package, package_id, stack, state, components, count, fuel).node_maps,
        ),
    decreases fuel, count,
{
    if !(count == 0 || count > components.len()) {
        lemma_walk_components_grounded(
            package,
            package_id,
            ranks,
            stack,
            state,
            components,
            (count - 1) as nat,
            fuel,
        );
        match components[count - 1] {
            StringComponent::Expr(part) => {
                lemma_walk_expr_grounded(
                    package,
                    package_id,
                    ranks,
                    stack,
                    walk_components(
                        package,
                        package_id,
                        stack,
                        state,
                        components,
                        (count - 1) as nat,
                        fuel,
                    ),
                    part,
                    fuel,
                );
            },
            StringComponent::Lit => {},
        }
    }
}

/// The walk of a block keeps the bindings grounded.
pub proof fn lemma_walk_block_grounded(
    package: &Package,
    package_id: PackageId,
    ranks: CalleeRanking,
    stack: Seq<usize>,
    state: WalkState,
    block: BlockId,
    fuel: nat,
)
    requires
        bindings_are_ranked(package, ranks),
        all_grounded(package, ranks, state.node_maps),
    ensures
        all_grounded(
            package,
            ranks,
            walk_block(package, package_id, stack, state, block, fuel).node_maps,
        ),
    decreases fuel, 0nat,
{
    if !state.failed && fuel > 0 && package.blocks@.contains_key(block.0) {
        lemma_walk_stmts_grounded(
            package,
            package_id,
            ranks,
            stack,
            state,
            package.blocks@[block.0].stmts@,
            package.blocks@[block.0].stmts@.len(),
            (fuel - 1) as nat,
        );
    }
}

/// The walk of statements keeps the bindings grounded.
pub proof fn lemma_walk_stmts_grounded(
    package: &Package,
    package_id: PackageId,
    ranks: CalleeRanking,
    stack: Seq<usize>,
    state: WalkState,
    stmts: Seq<StmtId>,
    count: nat,
    fuel: nat,
)
    requires
        bindings_are_ranked(package, ranks),
        all_grounded(package, ranks, state.node_maps),
    ensures
        all_grounded(
            package,
            ranks,
            walk_stmts(package, package_id, stack, state, stmts, count, fuel).node_maps,
        ),
    decreases fuel, count,
{
    if !(count == 0 || count > stmts.len()) {
        lemma_walk_stmts_grounded(
            package,
            package_id,
            ranks,
            stack,
            state,
            stmts,
            (count - 1) as nat,
            fuel,
        );
        lemma_walk_stmt_grounded(
            package,
            package_id,
            ranks,
            stack,
            walk_stmts(package, package_id, stack, state, stmts, (count - 1) as nat, fuel),
            stmts[count - 1],
            fuel,
        );
    }
}

/// The walk of a statement keeps the bindings grounded.
pub proof fn lemma_walk_stmt_grounded(
    package: &Package,
    package_id: PackageId,
    ranks: CalleeRanking,
    stack: Seq<usize>,
    state: WalkState,
    stmt: StmtId,
    fuel: nat,
)
    requires
        bindings_are_ranked(package, ranks),
        all_grounded(package, ranks, state.node_maps),
    ensures
        all_grounded(
            package,
            ranks,
            walk_stmt(package, package_id, stack, state, stmt, fuel).node_maps,
        ),
    decreases fuel, 0nat,
{
    if !state.failed && fuel > 0 && package.stmts@.contains_key(stmt.0) {
        let rest = (fuel - 1) as nat;
        match package.stmts@[stmt.0].kind {
            StmtKind::Item(_) => {},
            StmtKind::Expr(expr) | StmtKind::Semi(expr) => {
                lemma_walk_expr_grounded(package, package_id, ranks, stack, state, expr, rest);
            },
            StmtKind::Local(pat, expr) => {
                let current = state.current_node_map(stack);
                assert(is_grounded(package, ranks, current));
                lemma_bind_pattern_grounded(package, ranks, current, pat, expr, rest);
                match bind_pattern(package, current, pat, expr, rest) {
                    Some(node_map) => {
                        let bound = state.with_current_node_map(stack, node_map);
                        assert(all_grounded(package, ranks, bound.node_maps));
                        lemma_walk_expr_grounded(
                            package,
                            package_id,
                            ranks,
                            stack,
                            bound,
                            expr,
                            rest,
                        );
                    },
                    None => {},
                }
            },
        }
    }
}

/// The walk of a call keeps the bindings grounded.
pub proof fn lemma_walk_call_grounded(
    package: &Package,
    package_id: PackageId,
    ranks: CalleeRanking,
    stack: Seq<usize>,
    state: WalkState,
    callee: ExprId,
    args: ExprId,
    fuel: nat,
)
    requires
        bindings_are_ranked(package, ranks),
        all_grounded(package, ranks, state.node_maps),
    ensures
        all_grounded(
            package,
            ranks,
            walk_call(package, package_id, stack, state, callee, args, fuel).node_maps,
        ),
    decreases fuel, 0nat,
{
    if !state.failed && fuel > 0 {
        let rest = (fuel - 1) as nat;
        lemma_walk_expr_grounded(package, package_id, ranks, stack, state, args, rest);
        let after_args = walk_expr(package, package_id, stack, state, args, rest);
        if !after_args.failed {
            match resolve_callee(
                package,
                package_id,
                after_args.current_node_map(stack),
                callee,
                resolve_budget(package),
            ) {
                Resolution::Resolved(specialization) => {
                    lemma_walk_callable_grounded(
                        package,
                        package_id,
                        ranks,
                        stack,
                        after_args,
                        specialization,
                        rest,
                    );
                },
                _ => {},
            }
        }
    }
}

/// The walk of a specialization that is called keeps the bindings grounded.
pub proof fn lemma_walk_callable_grounded(
    package: &Package,
    package_id: PackageId,
    ranks: CalleeRanking,
    stack: Seq<usize>,
    state: WalkState,
    specialization: CallableSpecializationSelector,
    fuel: nat,
)
    requires
        bindings_are_ranked(package, ranks),
        all_grounded(package, ranks, state.node_maps),
    ensures
        all_grounded(
            package,
            ranks,
            walk_callable(package, package_id, stack, state, specialization, fuel).node_maps,
        ),
    decreases fuel, 2nat,
{
    if !state.failed && package.items@.contains_key(specialization.callable.0) {
        match package.items@[specialization.callable.0].kind {
            ItemKind::Callable(callable) => match callable.implementation {
                CallableImpl::Spec(specs) => match specialization.specialization_selector.spec_select(
                    specs,
                ) {
                    Some(decl) => {
                        lemma_walk_spec_decl_grounded(
                            package,
                            package_id,
                            ranks,
                            stack,
                            state,
                            specialization,
                            callable.input,
                            decl,
                            fuel,
                        );
                    },
                    None => {},
                },
                CallableImpl::Intrinsic => {},
            },
            _ => {},
        }
    }
}

/// The walk of a specialization keeps the bindings grounded.
pub proof fn lemma_walk_spec_decl_grounded(
    package: &Package,
    package_id: PackageId,
    ranks: CalleeRanking,
    stack: Seq<usize>,
    state: WalkState,
    specialization: CallableSpecializationSelector,
    input: PatId,
    decl: SpecDecl,
    fuel: nat,
)
    requires
        bindings_are_ranked(package, ranks),
        all_grounded(package, ranks, state.node_maps),
    ensures
        all_grounded(
            package,
            ranks,
            walk_spec_decl(
                package,
                package_id,
                stack,
                state,
                specialization,
                input,
                decl,
                fuel,
            ).node_maps,
        ),
    decreases fuel, 1nat,
{
    let key = specialization.spec_key();
    if !state.failed && !stack.contains(key) && fuel > 0 {
        if state.node_maps.contains_key(key) {
            lemma_walk_block_grounded(
                package,
                package_id,
                ranks,
                stack.push(key),
                state,
                decl.block,
                (fuel - 1) as nat,
            );
        } else {
            lemma_input_params_are_grounded(package, ranks, input);
            match input_params(package, input) {
                Some(params) => {
                    let entered = WalkState { node_maps: state.node_maps.insert(key, params), ..state };
                    assert(all_grounded(package, ranks, entered.node_maps));
                    lemma_walk_block_grounded(
                        package,
                        package_id,
                        ranks,
                        stack.push(key),
                        entered,
                        decl.block,
                        (fuel - 1) as nat,
                    );
                },
                None => {},
            }
        }
    }
}

/// The walk of an item keeps the bindings grounded.
pub proof fn lemma_walk_item_grounded(
    package: &Package,
    package_id: PackageId,
    ranks: CalleeRanking,
    state: WalkState,
    item: LocalItemId,
)
    requires
        bindings_are_ranked(package, ranks),
        all_grounded(package, ranks, state.node_maps),
    ensures
        all_grounded(package, ranks, walk_item(package, package_id, state, item).node_maps),
{
    if package.items@.contains_key(item.0) {
        match package.items@[item.0].kind {
            ItemKind::Callable(callable) => match callable.implementation {
                CallableImpl::Spec(specs) => {
                    let budget = walk_budget(package);
                    let none = Seq::<usize>::empty();
                    let body = crate::cycle_model::selector_of(item, false, false);
                    let adj = crate::cycle_model::selector_of(item, true, false);
                    let ctl = crate::cycle_model::selector_of(item, false, true);
                    let ctl_adj = crate::cycle_model::selector_of(item, true, true);
                    let input = callable.input;
                    let one = walk_optional_spec_decl(
                        package,
                        package_id,
                        state,
                        body,
                        input,
                        Some(specs.body),
                    );
                    lemma_walk_spec_decl_grounded(
                        package,
                        package_id,
                        ranks,
                        none,
                        state,
                        body,
                        input,
                        specs.body,
                        budget,
                    );
                    let two = walk_optional_spec_decl(
                        package,
                        package_id,
                        one,
                        adj,
                        input,
                        specs.adj,
                    );
                    if specs.adj is Some {
                        lemma_walk_spec_decl_grounded(
                            package,
                            package_id,
                            ranks,
                            none,
                            one,
                            adj,
                            input,
                            specs.adj->0,
                            budget,
                        );
                    }
                    let three = walk_optional_spec_decl(
                        package,
                        package_id,
                        two,
                        ctl,
                        input,
                        specs.ctl,
                    );
                    if specs.ctl is Some {
                        lemma_walk_spec_decl_grounded(
                            package,
                            package_id,
                            ranks,
                            none,
                            two,
                            ctl,
                            input,
                            specs.ctl->0,
                            budget,
                        );
                    }
                    if specs.ctl_adj is Some {
                        lemma_walk_spec_decl_grounded(
                            package,
                            package_id,
                            ranks,
                            none,
                            three,
                            ctl_adj,
                            input,
                            specs.ctl_adj->0,
                            budget,
                        );
                    }
                },
                CallableImpl::Intrinsic => {},
            },
            _ => {},
        }
    }
}

/// Where the bindings of a package are ranked, the bindings that the walk of
/// its items has recorded are grounded: whenever the walk resolves a callee,
/// it does so under grounded bindings.
pub proof fn lemma_walk_keeps_bindings_grounded(
    package: &Package,
    package_id: PackageId,
    ranks: CalleeRanking,
    count: nat,
)
    requires
        bindings_are_ranked(package, ranks),
    ensures
        all_grounded(package, ranks, walk_items(package, package_id, count).node_maps),
    decreases count,
{
    if count > 0 {
        lemma_walk_keeps_bindings_grounded(package, package_id, ranks, (count - 1) as nat);
        lemma_walk_item_grounded(
            package,
            package_id,
            ranks,
            walk_items(package, package_id, (count - 1) as nat),
            LocalItemId((count - 1) as usize),
        );
    }
}

} // verus!
