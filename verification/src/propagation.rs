//! The evaluation of the applications of a callable with a body.

use crate::capability::CapabilitySet;
use crate::compute_props::checked_pow2;
use crate::compute_props::AppIdx;
use crate::compute_props::ComputeProps;
use crate::compute_props::QuantumSource;
use crate::cycle_detection::derive_callable_input_map;
use crate::cycle_detection::map_pat_to_expr;
use crate::cycle_detection::nesting_limit_of;
use crate::cycle_detection::resolve_budget_of;
use crate::cycle_detection::resolve_callee_in;
use crate::cycle_model::resolve_budget;
use crate::cycle_model::CallableVariable;
use crate::cycle_model::Resolution;
use crate::fir::BlockId;
use crate::fir::ExprId;
use crate::fir::ExprKind;
use crate::fir::LocalItemId;
use crate::fir::Package;
use crate::fir::PackageId;
use crate::fir::PatId;
use crate::fir::PatKind;
use crate::fir::Res;
use crate::fir::StmtId;
use crate::fir::StmtKind;
use crate::fir::StringComponent;
use crate::fx::fx_set_contains;
use crate::fx::fx_set_insert;
use crate::fx::fx_set_new;
use crate::foundational::required_caps;
use crate::propagation_model::any_flag;
use crate::propagation_model::assigned;
use crate::propagation_model::called;
use crate::propagation_model::eval_app;
use crate::propagation_model::eval_arg_list;
use crate::propagation_model::eval_budget;
use crate::propagation_model::eval_args;
use crate::propagation_model::eval_block;
use crate::propagation_model::eval_call;
use crate::propagation_model::eval_components;
use crate::propagation_model::eval_expr;
use crate::propagation_model::eval_operand;
use crate::propagation_model::eval_operands;
use crate::propagation_model::eval_optional_operand;
use crate::propagation_model::eval_stmt;
use crate::propagation_model::eval_stmts;
use crate::propagation_model::lemma_eval_block_keeps_failure;
use crate::propagation_model::lemma_eval_expr_keeps_failure;
use crate::propagation_model::lemma_eval_optional_keeps_failure;
use crate::propagation_model::lemma_eval_stmt_keeps_failure;
use crate::propagation_model::lemma_mark_pattern_defined;
use crate::propagation_model::EvalState;
use crate::propagation_model::Evaluated;
use crate::propagation_model::EvaluatedArgs;
use crate::propagation_model::KnownProps;
use crate::propagation_model::app_index;
use crate::propagation_model::dynamic_params;
use crate::propagation_model::dynamic_params_upto;
use crate::propagation_model::flags_value;
use crate::propagation_model::mark_pattern;
use crate::propagation_model::mark_patterns;
use crate::propagation_model::merged_sources;
use crate::store::ItemComputeProps;
use crate::store::StoreComputeProps;
use rustc_hash::FxHashMap;
use rustc_hash::FxHashSet;
use vstd::arithmetic::power2::lemma_pow2_pos;
use vstd::arithmetic::power2::lemma_pow2_strictly_increases;
use vstd::arithmetic::power2::lemma_pow2_unfold;
use vstd::arithmetic::power2::pow2;
use vstd::prelude::*;

verus! {

/// Whether one of the flags is set.
pub fn any_flag_of(flags: &Vec<bool>) -> (any: bool)
    ensures
        any == any_flag(flags@, flags@.len()),
{
    let mut any = false;
    let mut i: usize = 0;
    while i < flags.len()
        invariant
            i <= flags@.len(),
            any == any_flag(flags@, i as nat),
        decreases flags@.len() - i,
    {
        any = any || flags[i];
        i += 1;
    }
    any
}

/// The value of the first `count` flags is below two to the power `count`.
pub proof fn lemma_flags_value_is_below(flags: Seq<bool>, count: nat)
    requires
        count <= flags.len(),
    ensures
        flags_value(flags, count) < pow2(count),
    decreases count,
{
    if count == 0 {
        crate::compute_props::lemma2_pow2_zero();
    } else {
        lemma_flags_value_is_below(flags, (count - 1) as nat);
        lemma_pow2_unfold(count);
    }
}

/// The index of an application of a callable with `input_param_count` input
/// parameters is below the number of its applications.
pub proof fn lemma_app_index_is_below(flags: Seq<bool>, input_param_count: nat)
    ensures
        app_index(flags, input_param_count) < pow2(input_param_count),
{
    lemma_pow2_pos(input_param_count);
    if flags.len() == input_param_count {
        lemma_flags_value_is_below(flags, flags.len());
    }
}

/// The index of the application of a callable with `input_param_count` input
/// parameters that a call with these arguments makes.
pub fn app_index_of(flags: &Vec<bool>, input_param_count: usize) -> (index: usize)
    requires
        pow2(input_param_count as nat) <= usize::MAX,
    ensures
        index == app_index(flags@, input_param_count as nat),
        index < pow2(input_param_count as nat),
{
    proof {
        lemma_app_index_is_below(flags@, input_param_count as nat);
    }
    if flags.len() == input_param_count {
        let mut index: usize = 0;
        let mut weight: usize = 1;
        let mut i: usize = 0;
        proof {
            crate::compute_props::lemma2_pow2_zero();
        }
        while i < flags.len()
            invariant
                i <= flags@.len(),
                flags@.len() == input_param_count,
                pow2(input_param_count as nat) <= usize::MAX,
                index == flags_value(flags@, i as nat),
                i < flags@.len() ==> weight == pow2(i as nat),
            decreases flags@.len() - i,
        {
            proof {
                lemma_flags_value_is_below(flags@, (i + 1) as nat);
                lemma_pow2_unfold((i + 1) as nat);
                if i + 1 < input_param_count {
                    lemma_pow2_strictly_increases((i + 1) as nat, input_param_count as nat);
                }
            }
            if flags[i] {
                index = index + weight;
            }
            if i + 1 < flags.len() {
                weight = weight * 2;
            }
            i += 1;
        }
        index
    } else if any_flag_of(flags) {
        match checked_pow2(input_param_count) {
            Some(count) => {
                proof {
                    lemma_pow2_pos(input_param_count as nat);
                }
                count - 1
            },
            None => 0,
        }
    } else {
        0
    }
}

/// Adds each of the other quantum sources that is not among the sources.
pub fn merge_sources(sources: &mut Vec<QuantumSource>, others: &Vec<QuantumSource>)
    ensures
        final(sources)@ == merged_sources(old(sources)@, others@, others@.len()),
{
    let mut i: usize = 0;
    while i < others.len()
        invariant
            i <= others@.len(),
            sources@ == merged_sources(old(sources)@, others@, i as nat),
        decreases others@.len() - i,
    {
        let source = others[i];
        let mut found = false;
        let mut j: usize = 0;
        while j < sources.len()
            invariant
                j <= sources@.len(),
                found == sources@.take(j as int).contains(source),
            decreases sources@.len() - j,
        {
            proof {
                let before = sources@.take(j as int);
                let after = sources@.take(j + 1);
                assert(after =~= before.push(sources@[j as int]));
                if before.contains(source) {
                    let k = choose|k: int| 0 <= k < before.len() && before[k] == source;
                    assert(after[k] == source);
                }
                if after.contains(source) && sources@[j as int] != source {
                    let k = choose|k: int| 0 <= k < after.len() && after[k] == source;
                    assert(before[k] == source);
                }
                if sources@[j as int] == source {
                    assert(after[j as int] == source);
                }
            }
            if sources[j] == source {
                found = true;
            }
            j += 1;
        }
        assert(sources@.take(j as int) =~= sources@);
        if !found {
            sources.push(source);
        }
        i += 1;
    }
}

/// Adds every local that the pattern binds to the locals. The result tells
/// whether the package had the pattern and all its items.
pub fn mark_pattern_in(package: &Package, marked: &mut FxHashSet<usize>, pat_id: PatId, fuel: usize) -> (found:
    bool)
    ensures
        found == (mark_pattern(package, old(marked)@, pat_id, fuel as nat) is Some),
        found ==> final(marked)@ == mark_pattern(package, old(marked)@, pat_id, fuel as nat)->0,
    decreases fuel, 0nat,
{
    if fuel == 0 {
        return false;
    }
    let pat = match package.pats.get(pat_id.0) {
        Some(pat) => pat,
        None => {
            return false;
        },
    };
    match &pat.kind {
        PatKind::Bind(node) => {
            let _ = fx_set_insert(marked, node.0);
            true
        },
        PatKind::Tuple(pats) => mark_patterns_in(package, marked, pats, fuel - 1),
        PatKind::Discard => true,
    }
}

/// Adds every local that one of the patterns binds to the locals.
#[verifier::loop_isolation(false)]
pub fn mark_patterns_in(
    package: &Package,
    marked: &mut FxHashSet<usize>,
    pats: &Vec<PatId>,
    fuel: usize,
) -> (found: bool)
    ensures
        found == (mark_patterns(package, old(marked)@, pats@, pats@.len(), fuel as nat) is Some),
        found ==> final(marked)@ == mark_patterns(
            package,
            old(marked)@,
            pats@,
            pats@.len(),
            fuel as nat,
        )->0,
    decreases fuel, 1nat,
{
    let mut i: usize = 0;
    while i < pats.len()
        invariant
            i <= pats@.len(),
            mark_patterns(package, old(marked)@, pats@, i as nat, fuel as nat) == Some(marked@),
        decreases pats@.len() - i,
    {
        let found = mark_pattern_in(package, marked, pats[i], fuel);
        if !found {
            proof {
                assert(mark_patterns(package, old(marked)@, pats@, (i + 1) as nat, fuel as nat)
                    is None);
                lemma_mark_patterns_fails(
                    package,
                    old(marked)@,
                    pats@,
                    (i + 1) as nat,
                    pats@.len(),
                    fuel as nat,
                );
            }
            return false;
        }
        i += 1;
    }
    true
}

/// Once the marking of a prefix of the patterns fails, the marking of every
/// longer prefix fails.
pub proof fn lemma_mark_patterns_fails(
    package: &Package,
    marked: Set<usize>,
    pats: Seq<PatId>,
    failed: nat,
    count: nat,
    fuel: nat,
)
    requires
        failed <= count <= pats.len(),
        mark_patterns(package, marked, pats, failed, fuel) is None,
    ensures
        mark_patterns(package, marked, pats, count, fuel) is None,
    decreases count,
{
    if failed < count {
        lemma_mark_patterns_fails(package, marked, pats, failed, (count - 1) as nat, fuel);
    }
}

/// The input parameters of a callable with the input pattern that the
/// application with the index takes as dynamic.
pub fn dynamic_params_of(package: &Package, input: PatId, index: AppIdx) -> (params: FxHashSet<usize>)
    ensures
        params@ == dynamic_params(package, input, index.0 as nat),
{
    let mut params = fx_set_new();
    let pat = match package.pats.get(input.0) {
        Some(pat) => pat,
        None => {
            return params;
        },
    };
    match &pat.kind {
        PatKind::Bind(node) => {
            let kinds = index.map_to_compute_kind_vector(1);
            match kinds[0] {
                crate::compute_props::ComputeKind::Dynamic => {
                    let _ = fx_set_insert(&mut params, node.0);
                },
                crate::compute_props::ComputeKind::Static => {},
            }
            params
        },
        PatKind::Tuple(pats) => {
            let kinds = index.map_to_compute_kind_vector(pats.len());
            let mut i: usize = 0;
            while i < pats.len()
                invariant
                    i <= pats@.len(),
                    kinds@.len() == pats@.len(),
                    forall|param: int|
                        0 <= param < pats@.len() ==> kinds@[param] == index.spec_param_kind(
                            param as nat,
                        ),
                    params@ == dynamic_params_upto(package, pats@, i as nat, index.0 as nat),
                decreases pats@.len() - i,
            {
                match kinds[i] {
                    crate::compute_props::ComputeKind::Dynamic => {
                        match package.pats.get(pats[i].0) {
                            Some(item) => match &item.kind {
                                PatKind::Bind(node) => {
                                    let _ = fx_set_insert(&mut params, node.0);
                                },
                                _ => {},
                            },
                            None => {},
                        }
                    },
                    crate::compute_props::ComputeKind::Static => {},
                }
                i += 1;
            }
            params
        },
        PatKind::Discard => params,
    }
}

/// How deep the evaluation of a body may be nested.
pub fn eval_budget_of(package: &Package) -> (budget: usize)
    ensures
        budget == eval_budget(package),
{
    nesting_limit_of(package)
}

/// Evaluates the application with the index of a callable with the input
/// pattern and the body. The result holds the compute properties of the
/// application and the callables that the body calls, or nothing where the
/// evaluation fails.
pub fn evaluate_application(
    package_id: PackageId,
    package: &Package,
    known: &StoreComputeProps,
    input: PatId,
    body: BlockId,
    index: AppIdx,
) -> (gathered: Option<(ComputeProps, Vec<(usize, usize)>)>)
    ensures
        match eval_app(package, package_id, known@, input, body, index.0 as nat) {
            Some(state) => gathered is Some && (gathered->0).0@ == state.props() && (gathered->0).1@
                == state.callees,
            None => gathered is None,
        },
{
    let node_map = match derive_callable_input_map(package, input) {
        Some(node_map) => node_map,
        None => {
            return None;
        },
    };
    let dynamic = dynamic_params_of(package, input, index);
    let mut evaluator = Evaluator::new(package_id, package, known, node_map, dynamic);
    let _ = evaluator.eval_block(body, eval_budget_of(package));
    if evaluator.has_failed() {
        None
    } else {
        Some(evaluator.finish())
    }
}

/// The evaluation of one application of a callable with a body.
pub struct Evaluator<'a> {
    package_id: PackageId,
    package: &'a Package,
    known: &'a StoreComputeProps,
    node_map: FxHashMap<usize, CallableVariable>,
    dynamic: FxHashSet<usize>,
    rt_caps: CapabilitySet,
    quantum_sources: Vec<QuantumSource>,
    callees: Vec<(usize, usize)>,
    failed: bool,
    resolve_budget: usize,
}

impl<'a> Evaluator<'a> {
    /// The package of the callable.
    pub closed spec fn spec_package(&self) -> &Package {
        self.package
    }

    /// The key of the package of the callable.
    pub closed spec fn spec_package_id(&self) -> PackageId {
        self.package_id
    }

    /// The compute properties that are known.
    pub closed spec fn spec_known(&self) -> KnownProps {
        self.known@
    }

    /// The state of the evaluation.
    pub closed spec fn state(&self) -> EvalState {
        EvalState {
            node_map: self.node_map@,
            dynamic: self.dynamic@,
            rt_caps: self.rt_caps@,
            quantum_sources: self.quantum_sources@,
            callees: self.callees@,
            failed: self.failed,
        }
    }

    /// The evaluation knows how many steps the resolution of a callee may
    /// take.
    pub closed spec fn well_formed(&self) -> bool {
        self.resolve_budget == resolve_budget(self.package)
    }

    /// Whether the evaluation is a later stage of the evaluation `before`.
    pub open spec fn continues(&self, before: &Self) -> bool {
        &&& self.well_formed()
        &&& self.spec_package() == before.spec_package()
        &&& self.spec_package_id() == before.spec_package_id()
        &&& self.spec_known() == before.spec_known()
    }

    /// Whether the evaluation has failed as the evaluated state has, and
    /// unless it has failed, is in that state and has given that value.
    pub open spec fn matches(&self, dynamic: bool, model: Evaluated) -> bool {
        &&& self.state().failed == model.state.failed
        &&& !model.state.failed ==> self.state() == model.state && dynamic == model.dynamic
    }

    /// Whether the evaluation has failed as the evaluated state has, and
    /// unless it has failed, is in that state and has given those flags.
    pub open spec fn matches_args(&self, flags: Seq<bool>, model: EvaluatedArgs) -> bool {
        &&& self.state().failed == model.state.failed
        &&& !model.state.failed ==> self.state() == model.state && flags == model.flags
    }

    /// The evaluation of a callable of the package that begins in the state.
    pub fn new(
        package_id: PackageId,
        package: &'a Package,
        known: &'a StoreComputeProps,
        node_map: FxHashMap<usize, CallableVariable>,
        dynamic: FxHashSet<usize>,
    ) -> (evaluator: Self)
        ensures
            evaluator.well_formed(),
            evaluator.spec_package() == package,
            evaluator.spec_package_id() == package_id,
            evaluator.spec_known() == known@,
            evaluator.state() == (EvalState {
                node_map: node_map@,
                dynamic: dynamic@,
                rt_caps: Set::empty(),
                quantum_sources: Seq::empty(),
                callees: Seq::empty(),
                failed: false,
            }),
    {
        Evaluator {
            package_id,
            package,
            known,
            node_map,
            dynamic,
            rt_caps: CapabilitySet::new(),
            quantum_sources: Vec::new(),
            callees: Vec::new(),
            failed: false,
            resolve_budget: resolve_budget_of(package),
        }
    }

    /// Whether the evaluation has failed.
    pub fn has_failed(&self) -> (failed: bool)
        ensures
            failed == self.state().failed,
    {
        self.failed
    }

    /// What the evaluation has gathered: the compute properties and the
    /// callees.
    pub fn finish(self) -> (gathered: (ComputeProps, Vec<(usize, usize)>))
        ensures
            gathered.0@ == self.state().props(),
            gathered.1@ == self.state().callees,
    {
        (ComputeProps { rt_caps: self.rt_caps, quantum_sources: self.quantum_sources }, self.callees)
    }

    /// Evaluates an expression. The result tells whether its value is
    /// dynamic.
    pub fn eval_expr(&mut self, expr_id: ExprId, fuel: usize) -> (dynamic: bool)
        requires
            old(self).well_formed(),
        ensures
            final(self).continues(old(self)),
            final(self).matches(
                dynamic,
                eval_expr(
                    old(self).spec_package(),
                    old(self).spec_package_id(),
                    old(self).spec_known(),
                    old(self).state(),
                    expr_id,
                    fuel as nat,
                ),
            ),
        decreases fuel, 0nat,
    {
        if self.failed {
            return false;
        }
        if fuel == 0 {
            self.failed = true;
            return false;
        }
        let package = self.package;
        let expr = match package.exprs.get(expr_id.0) {
            Some(expr) => expr,
            None => {
                self.failed = true;
                return false;
            },
        };
        let rest = fuel - 1;
        match &expr.kind {
            ExprKind::Closure(_) | ExprKind::Hole | ExprKind::Lit => false,
            ExprKind::Var(res) => match res {
                Res::Item(_) => false,
                Res::Local(node) => fx_set_contains(&self.dynamic, node.0),
                Res::Unresolved => {
                    self.failed = true;
                    false
                },
            },
            ExprKind::Call(callee, args) => self.eval_call(*callee, *args, rest),
            ExprKind::Block(block) => self.eval_block(*block, rest),
            ExprKind::While(cond, block) => self.eval_loop(*cond, *block, rest),
            ExprKind::Assign(target, value) => self.eval_assignment(*target, *value, rest),
            ExprKind::AssignOp(target, value) => self.eval_assignment(*target, *value, rest),
            ExprKind::AssignField(target, value) => self.eval_assignment(*target, *value, rest),
            ExprKind::AssignIndex(target, index, value) => self.eval_index_assignment(
                *target,
                *index,
                *value,
                rest,
            ),
            ExprKind::Array(exprs) => self.eval_operands(exprs, rest),
            ExprKind::Tuple(exprs) => self.eval_operands(exprs, rest),
            ExprKind::ArrayRepeat(first, second) => self.eval_two_operands(*first, *second, rest),
            ExprKind::BinOp(first, second) => self.eval_two_operands(*first, *second, rest),
            ExprKind::UpdateField(first, second) => self.eval_two_operands(*first, *second, rest),
            ExprKind::Index(first, second) => self.eval_two_operands(*first, *second, rest),
            ExprKind::UpdateIndex(first, second, third) => {
                let mut operands: Vec<ExprId> = Vec::new();
                operands.push(*first);
                operands.push(*second);
                operands.push(*third);
                assert(operands@ =~= seq![*first, *second, *third]);
                self.eval_operands(&operands, rest)
            },
            ExprKind::Fail(inner) => self.eval_operand(*inner, rest),
            ExprKind::Field(inner) => self.eval_operand(*inner, rest),
            ExprKind::Return(inner) => self.eval_operand(*inner, rest),
            ExprKind::UnOp(_, inner) => self.eval_operand(*inner, rest),
            ExprKind::If(cond, body, otherwise) => self.eval_conditional(
                *cond,
                *body,
                *otherwise,
                rest,
            ),
            ExprKind::Range(start, step, end) => self.eval_range(*start, *step, *end, rest),
            ExprKind::String(components) => self.eval_components(components, rest),
        }
    }

    /// Evaluates two operands, one after the other.
    fn eval_two_operands(&mut self, first: ExprId, second: ExprId, fuel: usize) -> (dynamic: bool)
        requires
            old(self).well_formed(),
        ensures
            final(self).continues(old(self)),
            final(self).matches(
                dynamic,
                eval_operands(
                    old(self).spec_package(),
                    old(self).spec_package_id(),
                    old(self).spec_known(),
                    old(self).state(),
                    seq![first, second],
                    2,
                    fuel as nat,
                ),
            ),
        decreases fuel, 3nat,
    {
        let mut operands: Vec<ExprId> = Vec::new();
        operands.push(first);
        operands.push(second);
        assert(operands@ =~= seq![first, second]);
        self.eval_operands_list(&operands, fuel)
    }

    /// Evaluates the operands of an expression that has a list of them.
    fn eval_operands(&mut self, exprs: &Vec<ExprId>, fuel: usize) -> (dynamic: bool)
        requires
            old(self).well_formed(),
        ensures
            final(self).continues(old(self)),
            final(self).matches(
                dynamic,
                eval_operands(
                    old(self).spec_package(),
                    old(self).spec_package_id(),
                    old(self).spec_known(),
                    old(self).state(),
                    exprs@,
                    exprs@.len(),
                    fuel as nat,
                ),
            ),
        decreases fuel, 3nat,
    {
        self.eval_operands_list(exprs, fuel)
    }

    /// Evaluates operands in their order.
    fn eval_operands_list(&mut self, exprs: &Vec<ExprId>, fuel: usize) -> (dynamic: bool)
        requires
            old(self).well_formed(),
        ensures
            final(self).continues(old(self)),
            final(self).matches(
                dynamic,
                eval_operands(
                    old(self).spec_package(),
                    old(self).spec_package_id(),
                    old(self).spec_known(),
                    old(self).state(),
                    exprs@,
                    exprs@.len(),
                    fuel as nat,
                ),
            ),
        decreases fuel, 2nat,
    {
        let mut dynamic = false;
        let mut i: usize = 0;
        while i < exprs.len()
            invariant
                i <= exprs@.len(),
                self.continues(old(self)),
                self.matches(
                    dynamic,
                    eval_operands(
                        old(self).spec_package(),
                        old(self).spec_package_id(),
                        old(self).spec_known(),
                        old(self).state(),
                        exprs@,
                        i as nat,
                        fuel as nat,
                    ),
                ),
            decreases exprs@.len() - i,
        {
            proof {
                let before = eval_operands(
                    old(self).spec_package(),
                    old(self).spec_package_id(),
                    old(self).spec_known(),
                    old(self).state(),
                    exprs@,
                    i as nat,
                    fuel as nat,
                );
                if before.state.failed {
                    lemma_eval_expr_keeps_failure(
                        old(self).spec_package(),
                        old(self).spec_package_id(),
                        old(self).spec_known(),
                        before.state,
                        exprs@[i as int],
                        fuel as nat,
                    );
                    lemma_eval_expr_keeps_failure(
                        old(self).spec_package(),
                        old(self).spec_package_id(),
                        old(self).spec_known(),
                        self.state(),
                        exprs@[i as int],
                        fuel as nat,
                    );
                }
            }
            let last = self.eval_operand(exprs[i], fuel);
            dynamic = dynamic || last;
            i += 1;
        }
        dynamic
    }

    /// Evaluates an operand of an expression.
    pub fn eval_operand(&mut self, expr_id: ExprId, fuel: usize) -> (dynamic: bool)
        requires
            old(self).well_formed(),
        ensures
            final(self).continues(old(self)),
            final(self).matches(
                dynamic,
                eval_operand(
                    old(self).spec_package(),
                    old(self).spec_package_id(),
                    old(self).spec_known(),
                    old(self).state(),
                    expr_id,
                    fuel as nat,
                ),
            ),
        decreases fuel, 1nat,
    {
        let dynamic = self.eval_expr(expr_id, fuel);
        if dynamic && !self.failed {
            let package = self.package;
            match package.exprs.get(expr_id.0) {
                Some(expr) => {
                    // A dynamic operand requires what its type requires.
                    let caps = required_caps(&expr.ty);
                    self.rt_caps.extend(&caps);
                    true
                },
                None => dynamic,
            }
        } else {
            dynamic
        }
    }

    /// Evaluates an operand that may be absent.
    fn eval_optional_operand(&mut self, expr_id: Option<ExprId>, fuel: usize) -> (dynamic: bool)
        requires
            old(self).well_formed(),
        ensures
            final(self).continues(old(self)),
            final(self).matches(
                dynamic,
                eval_optional_operand(
                    old(self).spec_package(),
                    old(self).spec_package_id(),
                    old(self).spec_known(),
                    old(self).state(),
                    expr_id,
                    fuel as nat,
                ),
            ),
        decreases fuel, 2nat,
    {
        match expr_id {
            Some(expr_id) => self.eval_operand(expr_id, fuel),
            None => false,
        }
    }

    /// Evaluates the expressions among the parts of an interpolated string, as
    /// operands.
    fn eval_components(&mut self, components: &Vec<StringComponent>, fuel: usize) -> (dynamic: bool)
        requires
            old(self).well_formed(),
        ensures
            final(self).continues(old(self)),
            final(self).matches(
                dynamic,
                eval_components(
                    old(self).spec_package(),
                    old(self).spec_package_id(),
                    old(self).spec_known(),
                    old(self).state(),
                    components@,
                    components@.len(),
                    fuel as nat,
                ),
            ),
        decreases fuel, 2nat,
    {
        let mut dynamic = false;
        let mut i: usize = 0;
        while i < components.len()
            invariant
                i <= components@.len(),
                self.continues(old(self)),
                self.matches(
                    dynamic,
                    eval_components(
                        old(self).spec_package(),
                        old(self).spec_package_id(),
                        old(self).spec_known(),
                        old(self).state(),
                        components@,
                        i as nat,
                        fuel as nat,
                    ),
                ),
            decreases components@.len() - i,
        {
            match components[i] {
                StringComponent::Expr(expr) => {
                    proof {
                        let before = eval_components(
                            old(self).spec_package(),
                            old(self).spec_package_id(),
                            old(self).spec_known(),
                            old(self).state(),
                            components@,
                            i as nat,
                            fuel as nat,
                        );
                        if before.state.failed {
                            lemma_eval_expr_keeps_failure(
                                old(self).spec_package(),
                                old(self).spec_package_id(),
                                old(self).spec_known(),
                                before.state,
                                expr,
                                fuel as nat,
                            );
                            lemma_eval_expr_keeps_failure(
                                old(self).spec_package(),
                                old(self).spec_package_id(),
                                old(self).spec_known(),
                                self.state(),
                                expr,
                                fuel as nat,
                            );
                        }
                    }
                    let last = self.eval_operand(expr, fuel);
                    dynamic = dynamic || last;
                },
                StringComponent::Lit => {},
            }
            i += 1;
        }
        dynamic
    }

    /// Evaluates a condition, the expression that it guards and the
    /// alternative that there may be.
    fn eval_conditional(
        &mut self,
        cond: ExprId,
        body: ExprId,
        otherwise: Option<ExprId>,
        fuel: usize,
    ) -> (dynamic: bool)
        requires
            old(self).well_formed(),
        ensures
            final(self).continues(old(self)),
            final(self).matches(
                dynamic,
                ({
                    let both = eval_operands(
                        old(self).spec_package(),
                        old(self).spec_package_id(),
                        old(self).spec_known(),
                        old(self).state(),
                        seq![cond, body],
                        2,
                        fuel as nat,
                    );
                    let last = eval_optional_operand(
                        old(self).spec_package(),
                        old(self).spec_package_id(),
                        old(self).spec_known(),
                        both.state,
                        otherwise,
                        fuel as nat,
                    );
                    Evaluated { state: last.state, dynamic: both.dynamic || last.dynamic }
                }),
            ),
        decreases fuel, 4nat,
    {
        let both = self.eval_two_operands(cond, body, fuel);
        proof {
            if self.state().failed {
                lemma_eval_optional_keeps_failure(
                    old(self).spec_package(),
                    old(self).spec_package_id(),
                    old(self).spec_known(),
                    self.state(),
                    otherwise,
                    fuel as nat,
                );
                lemma_eval_optional_keeps_failure(
                    old(self).spec_package(),
                    old(self).spec_package_id(),
                    old(self).spec_known(),
                    eval_operands(
                        old(self).spec_package(),
                        old(self).spec_package_id(),
                        old(self).spec_known(),
                        old(self).state(),
                        seq![cond, body],
                        2,
                        fuel as nat,
                    ).state,
                    otherwise,
                    fuel as nat,
                );
            }
        }
        let last = self.eval_optional_operand(otherwise, fuel);
        both || last
    }

    /// Evaluates the bounds and the step that a range has.
    fn eval_range(
        &mut self,
        start: Option<ExprId>,
        step: Option<ExprId>,
        end: Option<ExprId>,
        fuel: usize,
    ) -> (dynamic: bool)
        requires
            old(self).well_formed(),
        ensures
            final(self).continues(old(self)),
            final(self).matches(
                dynamic,
                ({
                    let first = eval_optional_operand(
                        old(self).spec_package(),
                        old(self).spec_package_id(),
                        old(self).spec_known(),
                        old(self).state(),
                        start,
                        fuel as nat,
                    );
                    let second = eval_optional_operand(
                        old(self).spec_package(),
                        old(self).spec_package_id(),
                        old(self).spec_known(),
                        first.state,
                        step,
                        fuel as nat,
                    );
                    let third = eval_optional_operand(
                        old(self).spec_package(),
                        old(self).spec_package_id(),
                        old(self).spec_known(),
                        second.state,
                        end,
                        fuel as nat,
                    );
                    Evaluated {
                        state: third.state,
                        dynamic: first.dynamic || second.dynamic || third.dynamic,
                    }
                }),
            ),
        decreases fuel, 3nat,
    {
        let first = self.eval_optional_operand(start, fuel);
        proof {
            if self.state().failed {
                let model = eval_optional_operand(
                    old(self).spec_package(),
                    old(self).spec_package_id(),
                    old(self).spec_known(),
                    old(self).state(),
                    start,
                    fuel as nat,
                );
                lemma_eval_optional_keeps_failure(
                    old(self).spec_package(),
                    old(self).spec_package_id(),
                    old(self).spec_known(),
                    self.state(),
                    step,
                    fuel as nat,
                );
                lemma_eval_optional_keeps_failure(
                    old(self).spec_package(),
                    old(self).spec_package_id(),
                    old(self).spec_known(),
                    model.state,
                    step,
                    fuel as nat,
                );
                lemma_eval_optional_keeps_failure(
                    old(self).spec_package(),
                    old(self).spec_package_id(),
                    old(self).spec_known(),
                    model.state,
                    end,
                    fuel as nat,
                );
            }
        }
        let second = self.eval_optional_operand(step, fuel);
        proof {
            if self.state().failed {
                let one = eval_optional_operand(
                    old(self).spec_package(),
                    old(self).spec_package_id(),
                    old(self).spec_known(),
                    old(self).state(),
                    start,
                    fuel as nat,
                );
                let two = eval_optional_operand(
                    old(self).spec_package(),
                    old(self).spec_package_id(),
                    old(self).spec_known(),
                    one.state,
                    step,
                    fuel as nat,
                );
                lemma_eval_optional_keeps_failure(
                    old(self).spec_package(),
                    old(self).spec_package_id(),
                    old(self).spec_known(),
                    self.state(),
                    end,
                    fuel as nat,
                );
                lemma_eval_optional_keeps_failure(
                    old(self).spec_package(),
                    old(self).spec_package_id(),
                    old(self).spec_known(),
                    two.state,
                    end,
                    fuel as nat,
                );
            }
        }
        let third = self.eval_optional_operand(end, fuel);
        first || second || third
    }

    /// Evaluates the condition and the block of a loop.
    fn eval_loop(&mut self, cond: ExprId, block: BlockId, fuel: usize) -> (dynamic: bool)
        requires
            old(self).well_formed(),
        ensures
            final(self).continues(old(self)),
            final(self).matches(
                dynamic,
                ({
                    let first = eval_operand(
                        old(self).spec_package(),
                        old(self).spec_package_id(),
                        old(self).spec_known(),
                        old(self).state(),
                        cond,
                        fuel as nat,
                    );
                    let second = eval_block(
                        old(self).spec_package(),
                        old(self).spec_package_id(),
                        old(self).spec_known(),
                        first.state,
                        block,
                        fuel as nat,
                    );
                    Evaluated { state: second.state, dynamic: false }
                }),
            ),
        decreases fuel, 2nat,
    {
        let _ = self.eval_operand(cond, fuel);
        proof {
            if self.state().failed {
                lemma_eval_block_keeps_failure(
                    old(self).spec_package(),
                    old(self).spec_package_id(),
                    old(self).spec_known(),
                    self.state(),
                    block,
                    fuel as nat,
                );
                lemma_eval_block_keeps_failure(
                    old(self).spec_package(),
                    old(self).spec_package_id(),
                    old(self).spec_known(),
                    eval_operand(
                        old(self).spec_package(),
                        old(self).spec_package_id(),
                        old(self).spec_known(),
                        old(self).state(),
                        cond,
                        fuel as nat,
                    ).state,
                    block,
                    fuel as nat,
                );
            }
        }
        let _ = self.eval_block(block, fuel);
        false
    }

    /// Makes the local that the expression names dynamic, if the expression
    /// names a local.
    fn assign(&mut self, target: ExprId)
        requires
            old(self).well_formed(),
        ensures
            final(self).continues(old(self)),
            final(self).state() == assigned(
                old(self).spec_package(),
                old(self).state(),
                target,
                true,
            ),
    {
        let package = self.package;
        match package.exprs.get(target.0) {
            Some(expr) => match &expr.kind {
                ExprKind::Var(res) => match res {
                    Res::Local(node) => {
                        let _ = fx_set_insert(&mut self.dynamic, node.0);
                    },
                    _ => {},
                },
                _ => {},
            },
            None => {},
        }
    }

    /// Evaluates an assignment of a value to what an expression names.
    fn eval_assignment(&mut self, target: ExprId, value: ExprId, fuel: usize) -> (dynamic: bool)
        requires
            old(self).well_formed(),
        ensures
            final(self).continues(old(self)),
            final(self).matches(
                dynamic,
                ({
                    let first = eval_operand(
                        old(self).spec_package(),
                        old(self).spec_package_id(),
                        old(self).spec_known(),
                        old(self).state(),
                        target,
                        fuel as nat,
                    );
                    let second = eval_operand(
                        old(self).spec_package(),
                        old(self).spec_package_id(),
                        old(self).spec_known(),
                        first.state,
                        value,
                        fuel as nat,
                    );
                    Evaluated {
                        state: assigned(
                            old(self).spec_package(),
                            second.state,
                            target,
                            second.dynamic,
                        ),
                        dynamic: false,
                    }
                }),
            ),
        decreases fuel, 2nat,
    {
        let _ = self.eval_operand(target, fuel);
        proof {
            if self.state().failed {
                lemma_eval_expr_keeps_failure(
                    old(self).spec_package(),
                    old(self).spec_package_id(),
                    old(self).spec_known(),
                    self.state(),
                    value,
                    fuel as nat,
                );
                lemma_eval_expr_keeps_failure(
                    old(self).spec_package(),
                    old(self).spec_package_id(),
                    old(self).spec_known(),
                    eval_operand(
                        old(self).spec_package(),
                        old(self).spec_package_id(),
                        old(self).spec_known(),
                        old(self).state(),
                        target,
                        fuel as nat,
                    ).state,
                    value,
                    fuel as nat,
                );
            }
        }
        let second = self.eval_operand(value, fuel);
        if second && !self.failed {
            self.assign(target);
        }
        false
    }

    /// Evaluates an assignment of a value to an item of what an expression
    /// names.
    fn eval_index_assignment(
        &mut self,
        target: ExprId,
        index: ExprId,
        value: ExprId,
        fuel: usize,
    ) -> (dynamic: bool)
        requires
            old(self).well_formed(),
        ensures
            final(self).continues(old(self)),
            final(self).matches(
                dynamic,
                ({
                    let first = eval_operand(
                        old(self).spec_package(),
                        old(self).spec_package_id(),
                        old(self).spec_known(),
                        old(self).state(),
                        target,
                        fuel as nat,
                    );
                    let second = eval_operand(
                        old(self).spec_package(),
                        old(self).spec_package_id(),
                        old(self).spec_known(),
                        first.state,
                        index,
                        fuel as nat,
                    );
                    let third = eval_operand(
                        old(self).spec_package(),
                        old(self).spec_package_id(),
                        old(self).spec_known(),
                        second.state,
                        value,
                        fuel as nat,
                    );
                    Evaluated {
                        state: assigned(
                            old(self).spec_package(),
                            third.state,
                            target,
                            second.dynamic || third.dynamic,
                        ),
                        dynamic: false,
                    }
                }),
            ),
        decreases fuel, 2nat,
    {
        let ghost package = old(self).spec_package();
        let ghost package_id = old(self).spec_package_id();
        let ghost known = old(self).spec_known();
        let ghost one = eval_operand(package, package_id, known, old(self).state(), target, fuel as nat);
        let ghost two = eval_operand(package, package_id, known, one.state, index, fuel as nat);
        let _ = self.eval_operand(target, fuel);
        proof {
            if self.state().failed {
                lemma_eval_expr_keeps_failure(
                    package,
                    package_id,
                    known,
                    self.state(),
                    index,
                    fuel as nat,
                );
                lemma_eval_expr_keeps_failure(
                    package,
                    package_id,
                    known,
                    one.state,
                    index,
                    fuel as nat,
                );
                lemma_eval_expr_keeps_failure(
                    package,
                    package_id,
                    known,
                    one.state,
                    value,
                    fuel as nat,
                );
            }
        }
        let second = self.eval_operand(index, fuel);
        proof {
            if self.state().failed {
                lemma_eval_expr_keeps_failure(
                    package,
                    package_id,
                    known,
                    self.state(),
                    value,
                    fuel as nat,
                );
                lemma_eval_expr_keeps_failure(
                    package,
                    package_id,
                    known,
                    two.state,
                    value,
                    fuel as nat,
                );
            }
        }
        let third = self.eval_operand(value, fuel);
        if (second || third) && !self.failed {
            self.assign(target);
        }
        false
    }

    /// Evaluates the arguments of a call. The result tells which of them are
    /// dynamic.
    fn eval_args(&mut self, args: ExprId, fuel: usize) -> (flags: Vec<bool>)
        requires
            old(self).well_formed(),
        ensures
            final(self).continues(old(self)),
            final(self).matches_args(
                flags@,
                eval_args(
                    old(self).spec_package(),
                    old(self).spec_package_id(),
                    old(self).spec_known(),
                    old(self).state(),
                    args,
                    fuel as nat,
                ),
            ),
        decreases fuel, 1nat,
    {
        let mut flags: Vec<bool> = Vec::new();
        if self.failed {
            return flags;
        }
        if fuel == 0 {
            self.failed = true;
            return flags;
        }
        let package = self.package;
        let expr = match package.exprs.get(args.0) {
            Some(expr) => expr,
            None => {
                self.failed = true;
                return flags;
            },
        };
        match &expr.kind {
            ExprKind::Tuple(exprs) => {
                let mut i: usize = 0;
                while i < exprs.len()
                    invariant
                        i <= exprs@.len(),
                        fuel > 0,
                        self.continues(old(self)),
                        self.matches_args(
                            flags@,
                            eval_arg_list(
                                old(self).spec_package(),
                                old(self).spec_package_id(),
                                old(self).spec_known(),
                                old(self).state(),
                                exprs@,
                                i as nat,
                                (fuel - 1) as nat,
                            ),
                        ),
                    decreases exprs@.len() - i,
                {
                    proof {
                        let before = eval_arg_list(
                            old(self).spec_package(),
                            old(self).spec_package_id(),
                            old(self).spec_known(),
                            old(self).state(),
                            exprs@,
                            i as nat,
                            (fuel - 1) as nat,
                        );
                        if before.state.failed {
                            lemma_eval_expr_keeps_failure(
                                old(self).spec_package(),
                                old(self).spec_package_id(),
                                old(self).spec_known(),
                                before.state,
                                exprs@[i as int],
                                (fuel - 1) as nat,
                            );
                            lemma_eval_expr_keeps_failure(
                                old(self).spec_package(),
                                old(self).spec_package_id(),
                                old(self).spec_known(),
                                self.state(),
                                exprs@[i as int],
                                (fuel - 1) as nat,
                            );
                        }
                    }
                    let dynamic = self.eval_expr(exprs[i], fuel - 1);
                    flags.push(dynamic);
                    i += 1;
                }
                flags
            },
            _ => {
                let dynamic = self.eval_expr(args, fuel);
                flags.push(dynamic);
                assert(flags@ =~= seq![dynamic]);
                flags
            },
        }
    }

    /// Notes a call of a callable with the arguments.
    fn note_call(&mut self, package: usize, item: usize, flags: &Vec<bool>) -> (dynamic: bool)
        requires
            old(self).well_formed(),
            !old(self).state().failed,
        ensures
            final(self).continues(old(self)),
            final(self).matches(
                dynamic,
                called(old(self).state(), old(self).spec_known(), (package, item), flags@),
            ),
    {
        self.callees.push((package, item));
        let any = any_flag_of(flags);
        let known = self.known;
        match known.get_item(PackageId(package), LocalItemId(item)) {
            Some(props) => match props {
                ItemComputeProps::Callable(callable) => {
                    let table = &callable.apps;
                    let applications = table.len();
                    if table.holds_all() {
                        assert(pow2(table.spec_input_param_count() as nat) == applications);
                        let index = app_index_of(flags, table.input_param_count());
                        match table.get(AppIdx(index)) {
                            Some(app) => {
                                self.rt_caps.extend(&app.rt_caps);
                                merge_sources(&mut self.quantum_sources, &app.quantum_sources);
                                any || app.is_quantum_source()
                            },
                            None => any,
                        }
                    } else {
                        any
                    }
                },
                ItemComputeProps::NonCallable => any,
            },
            None => any,
        }
    }

    /// Evaluates a call.
    pub fn eval_call(&mut self, callee: ExprId, args: ExprId, fuel: usize) -> (dynamic: bool)
        requires
            old(self).well_formed(),
        ensures
            final(self).continues(old(self)),
            final(self).matches(
                dynamic,
                eval_call(
                    old(self).spec_package(),
                    old(self).spec_package_id(),
                    old(self).spec_known(),
                    old(self).state(),
                    callee,
                    args,
                    fuel as nat,
                ),
            ),
        decreases fuel, 0nat,
    {
        if self.failed {
            return false;
        }
        if fuel == 0 {
            self.failed = true;
            return false;
        }
        let flags = self.eval_args(args, fuel - 1);
        if self.failed {
            return false;
        }
        let package = self.package;
        let resolution = resolve_callee_in(
            package,
            self.package_id,
            Some(&self.node_map),
            callee,
            self.resolve_budget,
        );
        match resolution {
            Resolution::Resolved(specialization) => self.note_call(
                self.package_id.0,
                specialization.callable.0,
                &flags,
            ),
            Resolution::Elsewhere(other, specialization) => self.note_call(
                other.0,
                specialization.callable.0,
                &flags,
            ),
            Resolution::Unknown => any_flag_of(&flags),
            Resolution::Malformed => {
                self.failed = true;
                false
            },
        }
    }

    /// Evaluates a block.
    pub fn eval_block(&mut self, block_id: BlockId, fuel: usize) -> (dynamic: bool)
        requires
            old(self).well_formed(),
        ensures
            final(self).continues(old(self)),
            final(self).matches(
                dynamic,
                eval_block(
                    old(self).spec_package(),
                    old(self).spec_package_id(),
                    old(self).spec_known(),
                    old(self).state(),
                    block_id,
                    fuel as nat,
                ),
            ),
        decreases fuel, 0nat,
    {
        if self.failed {
            return false;
        }
        if fuel == 0 {
            self.failed = true;
            return false;
        }
        let package = self.package;
        let block = match package.blocks.get(block_id.0) {
            Some(block) => block,
            None => {
                self.failed = true;
                return false;
            },
        };
        let mut dynamic = false;
        let mut i: usize = 0;
        while i < block.stmts.len()
            invariant
                i <= block.stmts@.len(),
                fuel > 0,
                self.continues(old(self)),
                self.matches(
                    dynamic,
                    eval_stmts(
                        old(self).spec_package(),
                        old(self).spec_package_id(),
                        old(self).spec_known(),
                        old(self).state(),
                        block.stmts@,
                        i as nat,
                        (fuel - 1) as nat,
                    ),
                ),
            decreases block.stmts@.len() - i,
        {
            proof {
                let before = eval_stmts(
                    old(self).spec_package(),
                    old(self).spec_package_id(),
                    old(self).spec_known(),
                    old(self).state(),
                    block.stmts@,
                    i as nat,
                    (fuel - 1) as nat,
                );
                if before.state.failed {
                    lemma_eval_stmt_keeps_failure(
                        old(self).spec_package(),
                        old(self).spec_package_id(),
                        old(self).spec_known(),
                        before.state,
                        block.stmts@[i as int],
                        (fuel - 1) as nat,
                    );
                    lemma_eval_stmt_keeps_failure(
                        old(self).spec_package(),
                        old(self).spec_package_id(),
                        old(self).spec_known(),
                        self.state(),
                        block.stmts@[i as int],
                        (fuel - 1) as nat,
                    );
                }
            }
            dynamic = self.eval_stmt(block.stmts[i], fuel - 1);
            i += 1;
        }
        dynamic
    }

    /// Evaluates a statement.
    pub fn eval_stmt(&mut self, stmt_id: StmtId, fuel: usize) -> (dynamic: bool)
        requires
            old(self).well_formed(),
        ensures
            final(self).continues(old(self)),
            final(self).matches(
                dynamic,
                eval_stmt(
                    old(self).spec_package(),
                    old(self).spec_package_id(),
                    old(self).spec_known(),
                    old(self).state(),
                    stmt_id,
                    fuel as nat,
                ),
            ),
        decreases fuel, 0nat,
    {
        if self.failed {
            return false;
        }
        if fuel == 0 {
            self.failed = true;
            return false;
        }
        let package = self.package;
        let stmt = match package.stmts.get(stmt_id.0) {
            Some(stmt) => stmt,
            None => {
                self.failed = true;
                return false;
            },
        };
        let rest = fuel - 1;
        match stmt.kind {
            StmtKind::Item(_) => false,
            StmtKind::Expr(expr_id) => self.eval_expr(expr_id, rest),
            StmtKind::Semi(expr_id) => {
                let _ = self.eval_expr(expr_id, rest);
                false
            },
            StmtKind::Local(pat_id, expr_id) => {
                let dynamic = self.eval_expr(expr_id, rest);
                if self.failed {
                    return false;
                }
                let bound = map_pat_to_expr(package, &mut self.node_map, pat_id, expr_id, rest);
                if !bound {
                    self.failed = true;
                    return false;
                }
                if dynamic {
                    let marked = mark_pattern_in(package, &mut self.dynamic, pat_id, rest);
                    if !marked {
                        self.failed = true;
                    }
                } else {
                    // The pattern is looked at in either case: a package that
                    // lacks a part of it is malformed.
                    let mut unused = fx_set_new();
                    let marked = mark_pattern_in(package, &mut unused, pat_id, rest);
                    if !marked {
                        proof {
                            lemma_mark_pattern_defined(
                                package,
                                Set::empty(),
                                self.state().dynamic,
                                pat_id,
                                rest as nat,
                            );
                        }
                        self.failed = true;
                    } else {
                        proof {
                            lemma_mark_pattern_defined(
                                package,
                                Set::empty(),
                                self.state().dynamic,
                                pat_id,
                                rest as nat,
                            );
                        }
                    }
                }
                false
            },
        }
    }
}

} // verus!
