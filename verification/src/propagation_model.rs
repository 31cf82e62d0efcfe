//! What the evaluation of one application of a callable with a body computes.
//!
//! An application says which input parameters are dynamic. The evaluation
//! walks the body once, statement by statement. It keeps which locals hold a
//! dynamic value, and gathers what the application requires:
//!
//! * A call of a callable whose applications table is known adds what the
//!   application of the callee with those arguments dynamic requires, and its
//!   quantum sources. The value of the call is dynamic if an argument is, or
//!   if that application of the callee is a quantum source.
//! * A call of a callee that is unknown, or whose table is not known yet,
//!   adds nothing. Its value is dynamic if an argument is.
//! * Any other expression adds what the type of each of its dynamic operands
//!   requires. Its value is dynamic if an operand is.
//!
//! The table of a callable stands for all its specializations.

use crate::capability::RuntimeCapability;
use crate::compute_props::bit_is_set;
use crate::compute_props::ComputePropsView;
use crate::compute_props::QuantumSource;
use crate::cycle_model::bind_pattern;
use crate::cycle_model::capped;
use crate::cycle_model::input_params;
use crate::cycle_model::nesting_limit;
use crate::cycle_model::resolve_budget;
use crate::cycle_model::resolve_callee;
use crate::cycle_model::NodeMap;
use crate::cycle_model::Resolution;
use crate::fir::BlockId;
use crate::fir::ExprId;
use crate::fir::ExprKind;
use crate::fir::Package;
use crate::fir::PackageId;
use crate::fir::PatId;
use crate::fir::PatKind;
use crate::fir::Res;
use crate::fir::StmtId;
use crate::fir::StmtKind;
use crate::fir::StringComponent;
use crate::foundational::ty_caps;
use crate::store::AppsTblView;
use crate::store::ItemComputePropsView;
use crate::store::PackageComputePropsView;
use vstd::arithmetic::power2::pow2;
use vstd::prelude::*;

verus! {

/// The compute properties that are known, by package and item.
pub type KnownProps = Map<usize, PackageComputePropsView>;

/// The state of an evaluation.
pub struct EvalState {
    /// The bindings of the callable that is evaluated.
    pub node_map: NodeMap,
    /// The locals that hold a dynamic value.
    pub dynamic: Set<usize>,
    /// What the application requires.
    pub rt_caps: Set<RuntimeCapability>,
    /// The quantum sources of the application.
    pub quantum_sources: Seq<QuantumSource>,
    /// The callables that the body calls, by package and item, call by call.
    pub callees: Seq<(usize, usize)>,
    /// Whether the evaluation has failed.
    pub failed: bool,
}

impl EvalState {
    /// The state, failed.
    pub open spec fn fail(self) -> EvalState {
        EvalState { failed: true, ..self }
    }

    /// The compute properties that the evaluation has gathered.
    pub open spec fn props(self) -> ComputePropsView {
        ComputePropsView { rt_caps: self.rt_caps, quantum_sources: self.quantum_sources }
    }
}

/// The state after an evaluation, and whether the value that was evaluated is
/// dynamic.
pub struct Evaluated {
    pub state: EvalState,
    pub dynamic: bool,
}

/// The state after the evaluation of arguments, and which of them are
/// dynamic.
pub struct EvaluatedArgs {
    pub state: EvalState,
    pub flags: Seq<bool>,
}

/// A failed evaluation.
pub open spec fn failure(state: EvalState) -> Evaluated {
    Evaluated { state: state.fail(), dynamic: false }
}

/// How deep the evaluation of a body may be nested.
pub open spec fn eval_budget(package: &Package) -> nat {
    capped(nesting_limit(package))
}

/// The applications table of a callable, if it is known.
pub open spec fn known_table(known: KnownProps, target: (usize, usize)) -> Option<AppsTblView> {
    if known.contains_key(target.0) && known[target.0].items.contains_key(target.1) {
        match known[target.0].items[target.1] {
            ItemComputePropsView::Callable(table) => Some(table),
            ItemComputePropsView::NonCallable => None,
        }
    } else {
        None
    }
}

/// Whether one of the first `count` flags is set.
pub open spec fn any_flag(flags: Seq<bool>, count: nat) -> bool
    decreases count,
{
    if count == 0 || count > flags.len() {
        false
    } else {
        any_flag(flags, (count - 1) as nat) || flags[count - 1]
    }
}

/// The number whose bit `i` is flag `i`, for the first `count` flags.
pub open spec fn flags_value(flags: Seq<bool>, count: nat) -> nat
    decreases count,
{
    if count == 0 || count > flags.len() {
        0
    } else {
        flags_value(flags, (count - 1) as nat) + if flags[count - 1] {
            pow2((count - 1) as nat)
        } else {
            0
        }
    }
}

/// The index of the application of a callable with `input_param_count` input
/// parameters that a call with these arguments makes. With one argument for
/// each parameter, the dynamic arguments are the dynamic parameters.
/// Otherwise all parameters are dynamic if an argument is, and none is if no
/// argument is.
pub open spec fn app_index(flags: Seq<bool>, input_param_count: nat) -> nat {
    if flags.len() == input_param_count {
        flags_value(flags, flags.len())
    } else if any_flag(flags, flags.len()) {
        (pow2(input_param_count) - 1) as nat
    } else {
        0
    }
}

/// The quantum sources, with each of the first `count` other sources that is
/// not among them added at the end.
pub open spec fn merged_sources(
    sources: Seq<QuantumSource>,
    others: Seq<QuantumSource>,
    count: nat,
) -> Seq<QuantumSource>
    decreases count,
{
    if count == 0 || count > others.len() {
        sources
    } else {
        let before = merged_sources(sources, others, (count - 1) as nat);
        if before.contains(others[count - 1]) {
            before
        } else {
            before.push(others[count - 1])
        }
    }
}

/// The outcome of a call of a callable with the arguments.
pub open spec fn called(
    state: EvalState,
    known: KnownProps,
    target: (usize, usize),
    flags: Seq<bool>,
) -> Evaluated {
    let noted = EvalState { callees: state.callees.push(target), ..state };
    let any = any_flag(flags, flags.len());
    match known_table(known, target) {
        Some(table) => {
            let index = app_index(flags, table.input_param_count as nat);
            if table.apps.len() == pow2(table.input_param_count as nat) && index
                < table.apps.len() {
                let app = table.apps[index as int];
                Evaluated {
                    state: EvalState {
                        rt_caps: noted.rt_caps.union(app.rt_caps),
                        quantum_sources: merged_sources(
                            noted.quantum_sources,
                            app.quantum_sources,
                            app.quantum_sources.len(),
                        ),
                        ..noted
                    },
                    dynamic: any || app.quantum_sources.len() > 0,
                }
            } else {
                Evaluated { state: noted, dynamic: any }
            }
        },
        None => Evaluated { state: noted, dynamic: any },
    }
}

/// The state in which the local that an expression names is dynamic, if
/// `dynamic` holds and the expression names a local.
pub open spec fn assigned(
    package: &Package,
    state: EvalState,
    target: ExprId,
    dynamic: bool,
) -> EvalState {
    if dynamic && package.exprs@.contains_key(target.0) {
        match package.exprs@[target.0].kind {
            ExprKind::Var(Res::Local(node)) => EvalState {
                dynamic: state.dynamic.insert(node.0),
                ..state
            },
            _ => state,
        }
    } else {
        state
    }
}

/// The locals, with every local that the pattern binds added, or nothing
/// where the package is malformed.
pub open spec fn mark_pattern(package: &Package, marked: Set<usize>, pat: PatId, fuel: nat) -> Option<
    Set<usize>,
>
    decreases fuel, 0nat,
{
    if fuel == 0 || !package.pats@.contains_key(pat.0) {
        None
    } else {
        match package.pats@[pat.0].kind {
            PatKind::Bind(node) => Some(marked.insert(node.0)),
            PatKind::Tuple(pats) => mark_patterns(
                package,
                marked,
                pats@,
                pats@.len(),
                (fuel - 1) as nat,
            ),
            PatKind::Discard => Some(marked),
        }
    }
}

/// The locals, with every local that one of the first `count` patterns binds
/// added.
pub open spec fn mark_patterns(
    package: &Package,
    marked: Set<usize>,
    pats: Seq<PatId>,
    count: nat,
    fuel: nat,
) -> Option<Set<usize>>
    decreases fuel, count,
{
    if count == 0 || count > pats.len() {
        Some(marked)
    } else {
        match mark_patterns(package, marked, pats, (count - 1) as nat, fuel) {
            Some(before) => mark_pattern(package, before, pats[count - 1], fuel),
            None => None,
        }
    }
}

/// The evaluation of an expression.
pub open spec fn eval_expr(
    package: &Package,
    package_id: PackageId,
    known: KnownProps,
    state: EvalState,
    expr: ExprId,
    fuel: nat,
) -> Evaluated
    decreases fuel, 0nat,
{
    if state.failed {
        Evaluated { state, dynamic: false }
    } else if fuel == 0 || !package.exprs@.contains_key(expr.0) {
        failure(state)
    } else {
        let rest = (fuel - 1) as nat;
        match package.exprs@[expr.0].kind {
            ExprKind::Closure(_) | ExprKind::Hole | ExprKind::Lit | ExprKind::Var(Res::Item(_)) =>
                Evaluated { state, dynamic: false },
            ExprKind::Var(Res::Local(node)) => Evaluated {
                state,
                dynamic: state.dynamic.contains(node.0),
            },
            ExprKind::Var(Res::Unresolved) => failure(state),
            ExprKind::Call(callee, args) => eval_call(
                package,
                package_id,
                known,
                state,
                callee,
                args,
                rest,
            ),
            ExprKind::Block(block) => eval_block(package, package_id, known, state, block, rest),
            ExprKind::While(cond, block) => {
                let first = eval_operand(package, package_id, known, state, cond, rest);
                let second = eval_block(package, package_id, known, first.state, block, rest);
                Evaluated { state: second.state, dynamic: false }
            },
            ExprKind::Assign(target, value)
            | ExprKind::AssignOp(target, value)
            | ExprKind::AssignField(target, value) => {
                let first = eval_operand(package, package_id, known, state, target, rest);
                let second = eval_operand(package, package_id, known, first.state, value, rest);
                Evaluated {
                    state: assigned(package, second.state, target, second.dynamic),
                    dynamic: false,
                }
            },
            ExprKind::AssignIndex(target, index, value) => {
                let first = eval_operand(package, package_id, known, state, target, rest);
                let second = eval_operand(package, package_id, known, first.state, index, rest);
                let third = eval_operand(package, package_id, known, second.state, value, rest);
                Evaluated {
                    state: assigned(
                        package,
                        third.state,
                        target,
                        second.dynamic || third.dynamic,
                    ),
                    dynamic: false,
                }
            },
            ExprKind::Array(exprs) | ExprKind::Tuple(exprs) => eval_operands(
                package,
                package_id,
                known,
                state,
                exprs@,
                exprs@.len(),
                rest,
            ),
            ExprKind::ArrayRepeat(first, second)
            | ExprKind::BinOp(first, second)
            | ExprKind::UpdateField(first, second)
            | ExprKind::Index(first, second) => eval_operands(
                package,
                package_id,
                known,
                state,
                seq![first, second],
                2,
                rest,
            ),
            ExprKind::UpdateIndex(first, second, third) => eval_operands(
                package,
                package_id,
                known,
                state,
                seq![first, second, third],
                3,
                rest,
            ),
            ExprKind::Fail(inner)
            | ExprKind::Field(inner)
            | ExprKind::Return(inner)
            | ExprKind::UnOp(_, inner) => eval_operand(
                package,
                package_id,
                known,
                state,
                inner,
                rest,
            ),
            ExprKind::If(cond, body, otherwise) => {
                let both = eval_operands(
                    package,
                    package_id,
                    known,
                    state,
                    seq![cond, body],
                    2,
                    rest,
                );
                let last = eval_optional_operand(
                    package,
                    package_id,
                    known,
                    both.state,
                    otherwise,
                    rest,
                );
                Evaluated { state: last.state, dynamic: both.dynamic || last.dynamic }
            },
            ExprKind::Range(start, step, end) => {
                let first = eval_optional_operand(package, package_id, known, state, start, rest);
                let second = eval_optional_operand(
                    package,
                    package_id,
                    known,
                    first.state,
                    step,
                    rest,
                );
                let third = eval_optional_operand(
                    package,
                    package_id,
                    known,
                    second.state,
                    end,
                    rest,
                );
                Evaluated {
                    state: third.state,
                    dynamic: first.dynamic || second.dynamic || third.dynamic,
                }
            },
            ExprKind::String(components) => eval_components(
                package,
                package_id,
                known,
                state,
                components@,
                components@.len(),
                rest,
            ),
        }
    }
}

/// The evaluation of an operand of an expression: where its value is dynamic,
/// what its type requires is required.
pub open spec fn eval_operand(
    package: &Package,
    package_id: PackageId,
    known: KnownProps,
    state: EvalState,
    expr: ExprId,
    fuel: nat,
) -> Evaluated
    decreases fuel, 1nat,
{
    let value = eval_expr(package, package_id, known, state, expr, fuel);
    if value.dynamic && !value.state.failed && package.exprs@.contains_key(expr.0) {
        Evaluated {
            state: EvalState {
                rt_caps: value.state.rt_caps.union(ty_caps(&package.exprs@[expr.0].ty)),
                ..value.state
            },
            dynamic: true,
        }
    } else {
        value
    }
}

/// The evaluation of an operand that may be absent.
pub open spec fn eval_optional_operand(
    package: &Package,
    package_id: PackageId,
    known: KnownProps,
    state: EvalState,
    expr: Option<ExprId>,
    fuel: nat,
) -> Evaluated
    decreases fuel, 2nat,
{
    match expr {
        Some(expr) => eval_operand(package, package_id, known, state, expr, fuel),
        None => Evaluated { state, dynamic: false },
    }
}

/// The evaluation of the first `count` operands, in their order. The result
/// is dynamic if one of them is.
pub open spec fn eval_operands(
    package: &Package,
    package_id: PackageId,
    known: KnownProps,
    state: EvalState,
    exprs: Seq<ExprId>,
    count: nat,
    fuel: nat,
) -> Evaluated
    decreases fuel, 2 + count,
{
    if count == 0 || count > exprs.len() {
        Evaluated { state, dynamic: false }
    } else {
        let before = eval_operands(
            package,
            package_id,
            known,
            state,
            exprs,
            (count - 1) as nat,
            fuel,
        );
        let last = eval_operand(package, package_id, known, before.state, exprs[count - 1], fuel);
        Evaluated { state: last.state, dynamic: before.dynamic || last.dynamic }
    }
}

/// The evaluation of the expressions among the first `count` parts of an
/// interpolated string, as operands.
pub open spec fn eval_components(
    package: &Package,
    package_id: PackageId,
    known: KnownProps,
    state: EvalState,
    components: Seq<StringComponent>,
    count: nat,
    fuel: nat,
) -> Evaluated
    decreases fuel, 2 + count,
{
    if count == 0 || count > components.len() {
        Evaluated { state, dynamic: false }
    } else {
        let before = eval_components(
            package,
            package_id,
            known,
            state,
            components,
            (count - 1) as nat,
            fuel,
        );
        match components[count - 1] {
            StringComponent::Expr(expr) => {
                let last = eval_operand(package, package_id, known, before.state, expr, fuel);
                Evaluated { state: last.state, dynamic: before.dynamic || last.dynamic }
            },
            StringComponent::Lit => before,
        }
    }
}

/// The evaluation of the arguments of a call. The items of a tuple are the
/// arguments; any other expression is the one argument.
pub open spec fn eval_args(
    package: &Package,
    package_id: PackageId,
    known: KnownProps,
    state: EvalState,
    args: ExprId,
    fuel: nat,
) -> EvaluatedArgs
    decreases fuel, 1nat,
{
    if state.failed {
        EvaluatedArgs { state, flags: Seq::empty() }
    } else if fuel == 0 || !package.exprs@.contains_key(args.0) {
        EvaluatedArgs { state: state.fail(), flags: Seq::empty() }
    } else {
        match package.exprs@[args.0].kind {
            ExprKind::Tuple(exprs) => eval_arg_list(
                package,
                package_id,
                known,
                state,
                exprs@,
                exprs@.len(),
                (fuel - 1) as nat,
            ),
            _ => {
                let value = eval_expr(package, package_id, known, state, args, fuel);
                EvaluatedArgs { state: value.state, flags: seq![value.dynamic] }
            },
        }
    }
}

/// The evaluation of the first `count` arguments, in their order.
pub open spec fn eval_arg_list(
    package: &Package,
    package_id: PackageId,
    known: KnownProps,
    state: EvalState,
    exprs: Seq<ExprId>,
    count: nat,
    fuel: nat,
) -> EvaluatedArgs
    decreases fuel, 2 + count,
{
    if count == 0 || count > exprs.len() {
        EvaluatedArgs { state, flags: Seq::empty() }
    } else {
        let before = eval_arg_list(
            package,
            package_id,
            known,
            state,
            exprs,
            (count - 1) as nat,
            fuel,
        );
        let last = eval_expr(package, package_id, known, before.state, exprs[count - 1], fuel);
        EvaluatedArgs { state: last.state, flags: before.flags.push(last.dynamic) }
    }
}

/// The evaluation of a call.
pub open spec fn eval_call(
    package: &Package,
    package_id: PackageId,
    known: KnownProps,
    state: EvalState,
    callee: ExprId,
    args: ExprId,
    fuel: nat,
) -> Evaluated
    decreases fuel, 0nat,
{
    if state.failed {
        Evaluated { state, dynamic: false }
    } else if fuel == 0 {
        failure(state)
    } else {
        let arguments = eval_args(package, package_id, known, state, args, (fuel - 1) as nat);
        if arguments.state.failed {
            Evaluated { state: arguments.state, dynamic: false }
        } else {
            match resolve_callee(
                package,
                package_id,
                arguments.state.node_map,
                callee,
                resolve_budget(package),
            ) {
                Resolution::Resolved(specialization) => called(
                    arguments.state,
                    known,
                    (package_id.0, specialization.callable.0),
                    arguments.flags,
                ),
                Resolution::Elsewhere(other, specialization) => called(
                    arguments.state,
                    known,
                    (other.0, specialization.callable.0),
                    arguments.flags,
                ),
                Resolution::Unknown => Evaluated {
                    state: arguments.state,
                    dynamic: any_flag(arguments.flags, arguments.flags.len()),
                },
                Resolution::Malformed => failure(arguments.state),
            }
        }
    }
}

/// The evaluation of a block: of its statements, in their order. The value
/// of a block is the value of its last statement.
pub open spec fn eval_block(
    package: &Package,
    package_id: PackageId,
    known: KnownProps,
    state: EvalState,
    block: BlockId,
    fuel: nat,
) -> Evaluated
    decreases fuel, 0nat,
{
    if state.failed {
        Evaluated { state, dynamic: false }
    } else if fuel == 0 || !package.blocks@.contains_key(block.0) {
        failure(state)
    } else {
        eval_stmts(
            package,
            package_id,
            known,
            state,
            package.blocks@[block.0].stmts@,
            package.blocks@[block.0].stmts@.len(),
            (fuel - 1) as nat,
        )
    }
}

/// The evaluation of the first `count` statements, in their order.
pub open spec fn eval_stmts(
    package: &Package,
    package_id: PackageId,
    known: KnownProps,
    state: EvalState,
    stmts: Seq<StmtId>,
    count: nat,
    fuel: nat,
) -> Evaluated
    decreases fuel, 2 + count,
{
    if count == 0 || count > stmts.len() {
        Evaluated { state, dynamic: false }
    } else {
        eval_stmt(
            package,
            package_id,
            known,
            eval_stmts(package, package_id, known, state, stmts, (count - 1) as nat, fuel).state,
            stmts[count - 1],
            fuel,
        )
    }
}

/// The evaluation of a statement. Only an expression without a semicolon has
/// a value. A binding makes the locals of its pattern dynamic if the value
/// that it binds is dynamic.
pub open spec fn eval_stmt(
    package: &Package,
    package_id: PackageId,
    known: KnownProps,
    state: EvalState,
    stmt: StmtId,
    fuel: nat,
) -> Evaluated
    decreases fuel, 0nat,
{
    if state.failed {
        Evaluated { state, dynamic: false }
    } else if fuel == 0 || !package.stmts@.contains_key(stmt.0) {
        failure(state)
    } else {
        let rest = (fuel - 1) as nat;
        match package.stmts@[stmt.0].kind {
            StmtKind::Item(_) => Evaluated { state, dynamic: false },
            StmtKind::Expr(expr) => eval_expr(package, package_id, known, state, expr, rest),
            StmtKind::Semi(expr) => Evaluated {
                state: eval_expr(package, package_id, known, state, expr, rest).state,
                dynamic: false,
            },
            StmtKind::Local(pat, expr) => {
                let value = eval_expr(package, package_id, known, state, expr, rest);
                if value.state.failed {
                    Evaluated { state: value.state, dynamic: false }
                } else {
                    match bind_pattern(package, value.state.node_map, pat, expr, rest) {
                        Some(node_map) => match mark_pattern(
                            package,
                            value.state.dynamic,
                            pat,
                            rest,
                        ) {
                            Some(marked) => Evaluated {
                                state: EvalState {
                                    node_map,
                                    dynamic: if value.dynamic {
                                        marked
                                    } else {
                                        value.state.dynamic
                                    },
                                    ..value.state
                                },
                                dynamic: false,
                            },
                            None => failure(value.state),
                        },
                        None => failure(value.state),
                    }
                }
            },
        }
    }
}

/// The evaluation of an expression leaves a failed state as it is.
pub proof fn lemma_eval_expr_keeps_failure(
    package: &Package,
    package_id: PackageId,
    known: KnownProps,
    state: EvalState,
    expr: ExprId,
    fuel: nat,
)
    requires
        state.failed,
    ensures
        eval_expr(package, package_id, known, state, expr, fuel).state == state,
        eval_operand(package, package_id, known, state, expr, fuel).state == state,
        eval_optional_operand(package, package_id, known, state, Some(expr), fuel).state == state,
{
}

/// The evaluation of an operand that may be absent leaves a failed state as
/// it is.
pub proof fn lemma_eval_optional_keeps_failure(
    package: &Package,
    package_id: PackageId,
    known: KnownProps,
    state: EvalState,
    expr: Option<ExprId>,
    fuel: nat,
)
    requires
        state.failed,
    ensures
        eval_optional_operand(package, package_id, known, state, expr, fuel).state == state,
{
}

/// Whether the locals that a pattern binds can be told does not depend on the
/// locals that they are added to.
pub proof fn lemma_mark_pattern_defined(
    package: &Package,
    first: Set<usize>,
    second: Set<usize>,
    pat: PatId,
    fuel: nat,
)
    ensures
        mark_pattern(package, first, pat, fuel) is Some <==> mark_pattern(
            package,
            second,
            pat,
            fuel,
        ) is Some,
    decreases fuel, 0nat,
{
    if fuel > 0 && package.pats@.contains_key(pat.0) {
        match package.pats@[pat.0].kind {
            PatKind::Tuple(pats) => {
                lemma_mark_patterns_defined(
                    package,
                    first,
                    second,
                    pats@,
                    pats@.len(),
                    (fuel - 1) as nat,
                );
            },
            _ => {},
        }
    }
}

/// Whether the locals that patterns bind can be told does not depend on the
/// locals that they are added to.
pub proof fn lemma_mark_patterns_defined(
    package: &Package,
    first: Set<usize>,
    second: Set<usize>,
    pats: Seq<PatId>,
    count: nat,
    fuel: nat,
)
    ensures
        mark_patterns(package, first, pats, count, fuel) is Some <==> mark_patterns(
            package,
            second,
            pats,
            count,
            fuel,
        ) is Some,
    decreases fuel, count,
{
    if !(count == 0 || count > pats.len()) {
        lemma_mark_patterns_defined(package, first, second, pats, (count - 1) as nat, fuel);
        match mark_patterns(package, first, pats, (count - 1) as nat, fuel) {
            Some(one) => match mark_patterns(package, second, pats, (count - 1) as nat, fuel) {
                Some(two) => {
                    lemma_mark_pattern_defined(package, one, two, pats[count - 1], fuel);
                },
                None => {},
            },
            None => {},
        }
    }
}

/// The evaluation of a statement leaves a failed state as it is.
pub proof fn lemma_eval_stmt_keeps_failure(
    package: &Package,
    package_id: PackageId,
    known: KnownProps,
    state: EvalState,
    stmt: StmtId,
    fuel: nat,
)
    requires
        state.failed,
    ensures
        eval_stmt(package, package_id, known, state, stmt, fuel).state == state,
{
}

/// The evaluation of a block leaves a failed state as it is.
pub proof fn lemma_eval_block_keeps_failure(
    package: &Package,
    package_id: PackageId,
    known: KnownProps,
    state: EvalState,
    block: BlockId,
    fuel: nat,
)
    requires
        state.failed,
    ensures
        eval_block(package, package_id, known, state, block, fuel).state == state,
{
}

/// The input parameters among the first `count` items of a tuple pattern that
/// the application with the index takes as dynamic.
pub open spec fn dynamic_params_upto(
    package: &Package,
    pats: Seq<PatId>,
    count: nat,
    index: nat,
) -> Set<usize>
    decreases count,
{
    if count == 0 || count > pats.len() {
        Set::empty()
    } else {
        let before = dynamic_params_upto(package, pats, (count - 1) as nat, index);
        if package.pats@.contains_key(pats[count - 1].0) && bit_is_set(
            index,
            (count - 1) as nat,
        ) {
            match package.pats@[pats[count - 1].0].kind {
                PatKind::Bind(node) => before.insert(node.0),
                _ => before,
            }
        } else {
            before
        }
    }
}

/// The input parameters of a callable with the input pattern that the
/// application with the index takes as dynamic.
pub open spec fn dynamic_params(package: &Package, input: PatId, index: nat) -> Set<usize> {
    if !package.pats@.contains_key(input.0) {
        Set::empty()
    } else {
        match package.pats@[input.0].kind {
            PatKind::Bind(node) => if bit_is_set(index, 0) {
                Set::empty().insert(node.0)
            } else {
                Set::empty()
            },
            PatKind::Tuple(pats) => dynamic_params_upto(package, pats@, pats@.len(), index),
            PatKind::Discard => Set::empty(),
        }
    }
}

/// The state in which the evaluation of the application with the index
/// begins, or nothing where the package lacks the input pattern or one of its
/// items.
pub open spec fn initial_state(package: &Package, input: PatId, index: nat) -> Option<EvalState> {
    match input_params(package, input) {
        Some(node_map) => Some(
            EvalState {
                node_map,
                dynamic: dynamic_params(package, input, index),
                rt_caps: Set::empty(),
                quantum_sources: Seq::empty(),
                callees: Seq::empty(),
                failed: false,
            },
        ),
        None => None,
    }
}

/// The state after the evaluation of the application with the index of a
/// callable with the input pattern and the body, or nothing where the
/// evaluation fails.
pub open spec fn eval_app(
    package: &Package,
    package_id: PackageId,
    known: KnownProps,
    input: PatId,
    body: BlockId,
    index: nat,
) -> Option<EvalState> {
    match initial_state(package, input, index) {
        Some(state) => {
            let end = eval_block(package, package_id, known, state, body, eval_budget(package));
            if end.state.failed {
                None
            } else {
                Some(end.state)
            }
        },
        None => None,
    }
}

/// The compute properties of the first `count` applications of a callable
/// with the input pattern and the body, or nothing where an evaluation
/// fails.
pub open spec fn body_apps(
    package: &Package,
    package_id: PackageId,
    known: KnownProps,
    input: PatId,
    body: BlockId,
    count: nat,
) -> Option<Seq<ComputePropsView>>
    decreases count,
{
    if count == 0 {
        Some(Seq::empty())
    } else {
        match body_apps(package, package_id, known, input, body, (count - 1) as nat) {
            Some(before) => match eval_app(
                package,
                package_id,
                known,
                input,
                body,
                (count - 1) as nat,
            ) {
                Some(state) => Some(before.push(state.props())),
                None => None,
            },
            None => None,
        }
    }
}

} // verus!
