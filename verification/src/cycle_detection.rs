//! Detection of the callables of a package that are on a cycle of its call
//! graph.

use crate::compute_props::ParamIdx;
use crate::cycle_model::bind_pattern;
use crate::cycle_model::bind_patterns;
use crate::cycle_model::input_params;
use crate::cycle_model::input_params_upto;
use crate::cycle_model::resolve_block;
use crate::cycle_model::resolve_callee;
use crate::cycle_model::lemma_walk_expr_keeps_failure;
use crate::cycle_model::lemma_walk_item_keeps_failure;
use crate::cycle_model::lemma_walk_stmt_keeps_failure;
use crate::cycle_model::walk_block;
use crate::cycle_model::walk_call;
use crate::cycle_model::walk_callable;
use crate::cycle_model::walk_components;
use crate::cycle_model::walk_expr;
use crate::cycle_model::walk_exprs;
use crate::cycle_model::walk_item;
use crate::cycle_model::walk_items;
use crate::cycle_model::walk_optional_expr;
use crate::cycle_model::walk_optional_spec_decl;
use crate::cycle_model::walk_package;
use crate::cycle_model::walk_spec_decl;
use crate::cycle_model::walk_stmt;
use crate::cycle_model::walk_stmts;
use crate::cycle_model::capped;
use crate::cycle_model::cycled_callables;
use crate::cycle_model::nesting_limit;
use crate::cycle_model::resolve_budget;
use crate::cycle_model::walk_budget;
use crate::cycle_model::detection;
use crate::cycle_model::CallableVariable;
use crate::cycle_model::CallableVariableKind;
use crate::cycle_model::CycledCallableInfo;
use crate::cycle_model::NodeMap;
use crate::fir::Item;
use crate::fir::Specializations;
use crate::cycle_model::Resolution;
use crate::cycle_model::WalkState;
use crate::fir::BlockId;
use crate::fir::CallableImpl;
use crate::fir::ExprId;
use crate::fir::ExprKind;
use crate::fir::ItemKind;
use crate::fir::LocalItemId;
use crate::fir::Package;
use crate::fir::PackageId;
use crate::fir::PatId;
use crate::fir::PatKind;
use crate::fir::Res;
use crate::fir::SpecDecl;
use crate::fir::StmtId;
use crate::fir::StmtKind;
use crate::fir::StringComponent;
use crate::fir::UnOp;
use crate::fx::fx_map_get;
use crate::fx::fx_map_insert;
use crate::fx::fx_map_new;
use crate::fx::fx_map_remove;
use crate::fx::fx_set_contains;
use crate::fx::fx_set_insert;
use crate::fx::fx_set_new;
use crate::fx::fx_set_remove;
use crate::selector::CallableSpecializationSelector;
use crate::selector::SpecializationSelector;
use rustc_hash::FxHashMap;
use rustc_hash::FxHashSet;
use vstd::prelude::*;

verus! {

/// The bindings that a hash map holds, or none without a hash map.
pub open spec fn bindings_of(node_map: Option<&FxHashMap<usize, CallableVariable>>) -> NodeMap {
    match node_map {
        Some(node_map) => node_map@,
        None => Map::empty(),
    }
}

/// The specialization that a callee expression stands for, given the bindings
/// of the specialization that makes the call.
pub fn resolve_callee_in(
    package: &Package,
    package_id: PackageId,
    node_map: Option<&FxHashMap<usize, CallableVariable>>,
    expr_id: ExprId,
    fuel: usize,
) -> (resolution: Resolution)
    ensures
        resolution == resolve_callee(
            package,
            package_id,
            bindings_of(node_map),
            expr_id,
            fuel as nat,
        ),
    decreases fuel, 1nat,
{
    if fuel == 0 {
        return Resolution::Malformed;
    }
    let expr = match package.exprs.get(expr_id.0) {
        Some(expr) => expr,
        None => {
            return Resolution::Malformed;
        },
    };
    match &expr.kind {
        ExprKind::Block(block_id) => resolve_block_in(
            package,
            package_id,
            node_map,
            *block_id,
            fuel,
        ),
        ExprKind::Closure(local_item_id) => Resolution::Resolved(
            CallableSpecializationSelector {
                callable: *local_item_id,
                specialization_selector: SpecializationSelector::default(),
            },
        ),
        ExprKind::UnOp(operator, operand) => match operator {
            UnOp::Functor(functor) => {
                let resolved_callee = resolve_callee_in(
                    package,
                    package_id,
                    node_map,
                    *operand,
                    fuel - 1,
                );
                match resolved_callee {
                    Resolution::Resolved(callee) => Resolution::Resolved(
                        CallableSpecializationSelector {
                            callable: callee.callable,
                            specialization_selector: callee.specialization_selector.apply(*functor),
                        },
                    ),
                    Resolution::Elsewhere(other, callee) => Resolution::Elsewhere(
                        other,
                        CallableSpecializationSelector {
                            callable: callee.callable,
                            specialization_selector: callee.specialization_selector.apply(*functor),
                        },
                    ),
                    other => other,
                }
            },
            _ => Resolution::Unknown,
        },
        ExprKind::Var(res) => match res {
            Res::Item(item_id) => {
                let callee = CallableSpecializationSelector {
                    callable: item_id.item,
                    specialization_selector: SpecializationSelector::default(),
                };
                match item_id.package {
                    Some(package) => if package.0 == package_id.0 {
                        Resolution::Resolved(callee)
                    } else {
                        Resolution::Elsewhere(package, callee)
                    },
                    // Without a package the callee is in the package of the caller.
                    None => Resolution::Resolved(callee),
                }
            },
            Res::Local(node_id) => {
                let variable = match node_map {
                    Some(node_map) => fx_map_get(node_map, node_id.0),
                    None => None,
                };
                match variable {
                    Some(variable) => match variable.kind {
                        CallableVariableKind::InputParam(_) => Resolution::Unknown,
                        CallableVariableKind::Local(bound) => resolve_callee_in(
                            package,
                            package_id,
                            node_map,
                            bound,
                            fuel - 1,
                        ),
                    },
                    None => Resolution::Unknown,
                }
            },
            Res::Unresolved => Resolution::Malformed,
        },
        // Other callee expressions would have to be evaluated.
        _ => Resolution::Unknown,
    }
}

/// The specialization that a block in the place of a callee stands for.
pub fn resolve_block_in(
    package: &Package,
    package_id: PackageId,
    node_map: Option<&FxHashMap<usize, CallableVariable>>,
    block_id: BlockId,
    fuel: usize,
) -> (resolution: Resolution)
    ensures
        resolution == resolve_block(
            package,
            package_id,
            bindings_of(node_map),
            block_id,
            fuel as nat,
        ),
    decreases fuel, 0nat,
{
    if fuel == 0 {
        return Resolution::Malformed;
    }
    let block = match package.blocks.get(block_id.0) {
        Some(block) => block,
        None => {
            return Resolution::Malformed;
        },
    };
    if block.stmts.len() == 0 {
        return Resolution::Unknown;
    }
    let return_stmt_id = block.stmts[block.stmts.len() - 1];
    match package.stmts.get(return_stmt_id.0) {
        Some(return_stmt) => match return_stmt.kind {
            StmtKind::Expr(return_expr_id) => resolve_callee_in(
                package,
                package_id,
                node_map,
                return_expr_id,
                fuel - 1,
            ),
            _ => Resolution::Unknown,
        },
        None => Resolution::Malformed,
    }
}

/// Records what binding the pattern to the expression binds. The result
/// tells whether the package had what the binding refers to.
#[verifier::loop_isolation(false)]
pub fn map_pat_to_expr(
    package: &Package,
    node_map: &mut FxHashMap<usize, CallableVariable>,
    pat_id: PatId,
    expr_id: ExprId,
    fuel: usize,
) -> (bound: bool)
    ensures
        bound == (bind_pattern(package, old(node_map)@, pat_id, expr_id, fuel as nat) is Some),
        bound ==> final(node_map)@ == bind_pattern(
            package,
            old(node_map)@,
            pat_id,
            expr_id,
            fuel as nat,
        )->0,
    decreases fuel, 0nat,
{
    if fuel == 0 {
        return false;
    }
    let pat = match package.pats.get(pat_id.0) {
        Some(pat) => pat,
        None => {
            return false;
        },
    };
    match &pat.kind {
        PatKind::Bind(node) => {
            let _ = fx_map_insert(
                node_map,
                node.0,
                CallableVariable {
                    pat: pat_id,
                    node: *node,
                    kind: CallableVariableKind::Local(expr_id),
                },
            );
            true
        },
        PatKind::Tuple(pats) => {
            let expr = match package.exprs.get(expr_id.0) {
                Some(expr) => expr,
                None => {
                    return false;
                },
            };
            match &expr.kind {
                ExprKind::Tuple(exprs) => {
                    let count = if pats.len() <= exprs.len() {
                        pats.len()
                    } else {
                        exprs.len()
                    };
                    let mut i: usize = 0;
                    while i < count
                        invariant
                            i <= count,
                            count <= pats@.len(),
                            count <= exprs@.len(),
                            fuel > 0,
                            bind_patterns(
                                package,
                                old(node_map)@,
                                pats@,
                                exprs@,
                                i as nat,
                                (fuel - 1) as nat,
                            ) == Some(node_map@),
                        decreases count - i,
                    {
                        let bound = map_pat_to_expr(package, node_map, pats[i], exprs[i], fuel - 1);
                        if !bound {
                            proof {
                                assert(bind_patterns(
                                    package,
                                    old(node_map)@,
                                    pats@,
                                    exprs@,
                                    i as nat,
                                    (fuel - 1) as nat,
                                ) is Some);
                                assert(bind_patterns(
                                    package,
                                    old(node_map)@,
                                    pats@,
                                    exprs@,
                                    (i + 1) as nat,
                                    (fuel - 1) as nat,
                                ) is None);
                                lemma_bind_patterns_fails(
                                    package,
                                    old(node_map)@,
                                    pats@,
                                    exprs@,
                                    (i + 1) as nat,
                                    count as nat,
                                    (fuel - 1) as nat,
                                );
                            }
                            return false;
                        }
                        i += 1;
                    }
                    true
                },
                _ => true,
            }
        },
        PatKind::Discard => true,
    }
}

/// Once the binding of a prefix of the patterns fails, the binding of every
/// longer prefix fails.
pub proof fn lemma_bind_patterns_fails(
    package: &Package,
    node_map: NodeMap,
    pats: Seq<PatId>,
    exprs: Seq<ExprId>,
    failed: nat,
    count: nat,
    fuel: nat,
)
    requires
        failed <= count <= pats.len(),
        count <= exprs.len(),
        bind_patterns(package, node_map, pats, exprs, failed, fuel) is None,
    ensures
        bind_patterns(package, node_map, pats, exprs, count, fuel) is None,
    decreases count,
{
    if failed < count {
        lemma_bind_patterns_fails(package, node_map, pats, exprs, failed, (count - 1) as nat, fuel);
    }
}

/// The bindings of the input parameters of a callable with the input pattern,
/// or nothing where the package lacks the pattern or one of its items.
#[verifier::loop_isolation(false)]
pub fn derive_callable_input_map(package: &Package, input: PatId) -> (params: Option<
    FxHashMap<usize, CallableVariable>,
>)
    ensures
        match input_params(package, input) {
            Some(expected) => params is Some && params->0@ == expected,
            None => params is None,
        },
{
    let pat = match package.pats.get(input.0) {
        Some(pat) => pat,
        None => {
            return None;
        },
    };
    let mut params: FxHashMap<usize, CallableVariable> = fx_map_new();
    assert(params@ =~= Map::<usize, CallableVariable>::empty());
    match &pat.kind {
        PatKind::Bind(node) => {
            let _ = fx_map_insert(
                &mut params,
                node.0,
                CallableVariable {
                    pat: input,
                    node: *node,
                    kind: CallableVariableKind::InputParam(ParamIdx(0)),
                },
            );
            Some(params)
        },
        PatKind::Tuple(pats) => {
            let mut i: usize = 0;
            while i < pats.len()
                invariant
                    i <= pats@.len(),
                    input_params_upto(package, pats@, i as nat) == Some(params@),
                decreases pats@.len() - i,
            {
                match package.pats.get(pats[i].0) {
                    Some(item) => match &item.kind {
                        PatKind::Bind(node) => {
                            let _ = fx_map_insert(
                                &mut params,
                                node.0,
                                CallableVariable {
                                    pat: pats[i],
                                    node: *node,
                                    kind: CallableVariableKind::InputParam(ParamIdx(i)),
                                },
                            );
                        },
                        _ => {},
                    },
                    None => {
                        proof {
                            assert(input_params_upto(package, pats@, i as nat) is Some);
                            assert(input_params_upto(package, pats@, (i + 1) as nat) is None);
                            lemma_input_params_fails(
                                package,
                                pats@,
                                (i + 1) as nat,
                                pats@.len(),
                            );
                        }
                        return None;
                    },
                }
                i += 1;
            }
            Some(params)
        },
        PatKind::Discard => Some(params),
    }
}

/// Once the input parameters of a prefix of the items are undefined, those of
/// every longer prefix are.
pub proof fn lemma_input_params_fails(
    package: &Package,
    pats: Seq<PatId>,
    failed: nat,
    count: nat,
)
    requires
        failed <= count <= pats.len(),
        input_params_upto(package, pats, failed) is None,
    ensures
        input_params_upto(package, pats, count) is None,
    decreases count,
{
    if failed < count {
        lemma_input_params_fails(package, pats, failed, (count - 1) as nat);
    }
}

/// The specializations that the walk is inside of, the innermost last, by
/// their numbers. No specialization is in it twice.
pub struct CallStack {
    set: FxHashSet<usize>,
    stack: Vec<usize>,
}

impl View for CallStack {
    type V = Seq<usize>;

    closed spec fn view(&self) -> Seq<usize> {
        self.stack@
    }
}

impl CallStack {
    /// The set holds what the stack holds, and the stack holds nothing
    /// twice.
    pub closed spec fn well_formed(&self) -> bool {
        &&& self.stack@.no_duplicates()
        &&& forall|key: usize| self.set@.contains(key) <==> self.stack@.contains(key)
    }

    /// The empty stack.
    pub fn new() -> (stack: Self)
        ensures
            stack@ == Seq::<usize>::empty(),
            stack.well_formed(),
    {
        CallStack { set: fx_set_new(), stack: Vec::new() }
    }

    /// Whether the specialization is on the stack.
    pub fn contains(&self, value: usize) -> (found: bool)
        requires
            self.well_formed(),
        ensures
            found == self@.contains(value),
    {
        fx_set_contains(&self.set, value)
    }

    /// The specialization on top of the stack, if there is one.
    pub fn peak(&self) -> (top: Option<usize>)
        ensures
            top == (if self@.len() > 0 {
                Some(self@.last())
            } else {
                None
            }),
    {
        if self.stack.len() > 0 {
            Some(self.stack[self.stack.len() - 1])
        } else {
            None
        }
    }

    /// Takes the specialization on top of the stack off it.
    pub fn pop(&mut self) -> (popped: usize)
        requires
            old(self).well_formed(),
            old(self)@.len() > 0,
        ensures
            final(self).well_formed(),
            final(self)@ == old(self)@.drop_last(),
            popped == old(self)@.last(),
    {
        let popped = self.stack.pop().unwrap();
        let _ = fx_set_remove(&mut self.set, popped);
        proof {
            let before = old(self).stack@;
            assert(self.stack@ =~= before.drop_last());
            assert forall|key: usize| self.set@.contains(key) <==> self.stack@.contains(key) by {
                if self.stack@.contains(key) {
                    let i = choose|i: int| 0 <= i < self.stack@.len() && self.stack@[i] == key;
                    assert(before[i] == key);
                    assert(before.contains(key));
                    assert(key != popped);
                }
                if self.set@.contains(key) {
                    assert(before.contains(key));
                    let i = choose|i: int| 0 <= i < before.len() && before[i] == key;
                    assert(i < before.len() - 1);
                    assert(self.stack@[i] == key);
                }
            }
        }
        popped
    }

    /// Puts a specialization that is not on the stack on top of it.
    pub fn push(&mut self, value: usize)
        requires
            old(self).well_formed(),
            !old(self)@.contains(value),
        ensures
            final(self).well_formed(),
            final(self)@ == old(self)@.push(value),
    {
        let _ = fx_set_insert(&mut self.set, value);
        self.stack.push(value);
        proof {
            let before = old(self).stack@;
            assert forall|key: usize| self.set@.contains(key) <==> self.stack@.contains(key) by {
                if self.stack@.contains(key) {
                    let i = choose|i: int| 0 <= i < self.stack@.len() && self.stack@[i] == key;
                    if i < before.len() {
                        assert(before[i] == key);
                        assert(before.contains(key));
                    }
                }
                if self.set@.contains(key) {
                    if key == value {
                        assert(self.stack@[before.len() as int] == key);
                    } else {
                        assert(before.contains(key));
                        let i = choose|i: int| 0 <= i < before.len() && before[i] == key;
                        assert(self.stack@[i] == key);
                    }
                }
            }
            assert forall|i: int, j: int|
                0 <= i < self.stack@.len() && 0 <= j < self.stack@.len() && i != j implies self.stack@[i]
                != self.stack@[j] by {
                if i == before.len() {
                    assert(before[j] == self.stack@[j]);
                    assert(before.contains(before[j]));
                } else if j == before.len() {
                    assert(before[i] == self.stack@[i]);
                    assert(before.contains(before[i]));
                }
            }
        }
    }
}

impl CycledCallableInfo {
    /// The flag of a specialization of which nothing is known but whether it
    /// is the one that was found on a cycle.
    pub open spec fn spec_first_flag(decl: Option<SpecDecl>, found: bool) -> Option<bool> {
        match decl {
            Some(_) => Some(found),
            None => None,
        }
    }

    /// What is known of a callable once one of its specializations was found
    /// on a cycle.
    pub open spec fn spec_new(
        specs: Specializations,
        specialization: CallableSpecializationSelector,
    ) -> CycledCallableInfo {
        let selector = specialization.specialization_selector;
        CycledCallableInfo {
            id: specialization.callable,
            is_body_cycled: !selector.adjoint && !selector.controlled,
            is_adj_cycled: Self::spec_first_flag(
                specs.adj,
                selector.adjoint && !selector.controlled,
            ),
            is_ctl_cycled: Self::spec_first_flag(
                specs.ctl,
                !selector.adjoint && selector.controlled,
            ),
            is_ctl_adj_cycled: Self::spec_first_flag(
                specs.ctl_adj,
                selector.adjoint && selector.controlled,
            ),
        }
    }

    /// Whether the callable has a flag for the specialization.
    pub open spec fn has_flag(self, selector: SpecializationSelector) -> bool {
        if !selector.adjoint && !selector.controlled {
            true
        } else if selector.adjoint && !selector.controlled {
            self.is_adj_cycled is Some
        } else if !selector.adjoint && selector.controlled {
            self.is_ctl_cycled is Some
        } else {
            self.is_ctl_adj_cycled is Some
        }
    }

    /// What is known of the callable once one more of its specializations was
    /// found on a cycle.
    pub open spec fn spec_update(self, selector: SpecializationSelector) -> CycledCallableInfo {
        if !selector.adjoint && !selector.controlled {
            CycledCallableInfo { is_body_cycled: true, ..self }
        } else if selector.adjoint && !selector.controlled {
            CycledCallableInfo { is_adj_cycled: Some(true), ..self }
        } else if !selector.adjoint && selector.controlled {
            CycledCallableInfo { is_ctl_cycled: Some(true), ..self }
        } else {
            CycledCallableInfo { is_ctl_adj_cycled: Some(true), ..self }
        }
    }

    /// What is known of a callable with a body once one of its
    /// specializations was found on a cycle.
    pub fn new(item: &Item, specialization: &CallableSpecializationSelector) -> (info: Self)
        requires
            item.kind matches ItemKind::Callable(callable) && callable.implementation is Spec,
        ensures
            info == Self::spec_new(
                item.kind->Callable_0.implementation->Spec_0,
                *specialization,
            ),
    {
        let functor_application = specialization.specialization_selector;
        let body = !functor_application.adjoint && !functor_application.controlled;
        let mut adj: Option<bool> = None;
        let mut ctl: Option<bool> = None;
        let mut ctl_adj: Option<bool> = None;
        match &item.kind {
            ItemKind::Callable(callable) => match &callable.implementation {
                CallableImpl::Spec(spec_impl) => {
                    // The flags depend on what specializations the callable has.
                    if spec_impl.adj.is_some() {
                        adj = Some(functor_application.adjoint && !functor_application.controlled);
                    }
                    if spec_impl.ctl.is_some() {
                        ctl = Some(!functor_application.adjoint && functor_application.controlled);
                    }
                    if spec_impl.ctl_adj.is_some() {
                        ctl_adj = Some(
                            functor_application.adjoint && functor_application.controlled,
                        );
                    }
                },
                CallableImpl::Intrinsic => {},
            },
            _ => {},
        }
        CycledCallableInfo {
            id: specialization.callable,
            is_body_cycled: body,
            is_adj_cycled: adj,
            is_ctl_cycled: ctl,
            is_ctl_adj_cycled: ctl_adj,
        }
    }

    /// Records that one more specialization of the callable was found on a
    /// cycle.
    pub fn update(&mut self, functor_application: &SpecializationSelector)
        requires
            old(self).has_flag(*functor_application),
        ensures
            *final(self) == old(self).spec_update(*functor_application),
    {
        if !functor_application.adjoint && !functor_application.controlled {
            self.is_body_cycled = true;
        } else if functor_application.adjoint && !functor_application.controlled {
            self.is_adj_cycled = Some(true);
        } else if !functor_application.adjoint && functor_application.controlled {
            self.is_ctl_cycled = Some(true);
        } else {
            self.is_ctl_adj_cycled = Some(true);
        }
    }
}

/// The sum, or the largest `usize` where the sum is larger.
fn capped_sum(first: usize, second: usize) -> (sum: usize)
    ensures
        sum == capped((first + second) as nat),
{
    first.saturating_add(second)
}

/// The product, or the largest `usize` where the product is larger.
fn capped_product(first: usize, second: usize) -> (product: usize)
    ensures
        product == capped((first * second) as nat),
{
    match first.checked_mul(second) {
        Some(product) => product,
        None => usize::MAX,
    }
}

/// How many steps the resolution of a callee may take.
pub fn resolve_budget_of(package: &Package) -> (budget: usize)
    ensures
        budget == resolve_budget(package),
{
    capped_sum(capped_sum(package.exprs.bound(), package.blocks.bound()), 1)
}

/// How many blocks, statements, expressions, calls and patterns can be nested
/// in one another in the package, or the largest `usize` where that is more.
pub fn nesting_limit_of(package: &Package) -> (limit: usize)
    ensures
        limit == capped(nesting_limit(package)),
{
    let exprs = package.exprs.bound();
    capped_sum(
        capped_sum(
            capped_sum(
                capped_sum(capped_sum(exprs, exprs), package.stmts.bound()),
                package.blocks.bound(),
            ),
            package.pats.bound(),
        ),
        2,
    )
}

/// How deep the walk may be nested.
pub fn walk_budget_of(package: &Package) -> (budget: usize)
    ensures
        budget == walk_budget(package),
{
    let nesting = nesting_limit_of(package);
    let specializations = capped_sum(capped_product(4, package.items.bound()), 1);
    let budget = capped_product(specializations, nesting);
    proof {
        let n = nesting_limit(package) as int;
        let s = 4 * package.items.spec_bound() + 1;
        assert(nesting == capped(n as nat));
        assert(specializations == capped(s as nat));
        assert(s >= 1 && n >= 2);
        assert(s * n >= s && s * n >= n) by (nonlinear_arith)
            requires
                s >= 1,
                n >= 1,
        ;
        if nesting as int != n || specializations as int != s {
            assert(specializations >= 1 && nesting >= 2);
            assert(specializations * nesting >= specializations && specializations * nesting
                >= nesting) by (nonlinear_arith)
                requires
                    specializations >= 1,
                    nesting >= 1,
            ;
        }
    }
    budget
}

/// The walk over the call graph of a package, and what it has found.
pub struct CycleDetector<'a> {
    package_id: PackageId,
    package: &'a Package,
    stack: CallStack,
    node_maps: FxHashMap<usize, FxHashMap<usize, CallableVariable>>,
    specializations_with_cycles: FxHashSet<usize>,
    failed: bool,
    resolve_budget: usize,
    walk_budget: usize,
}

impl<'a> CycleDetector<'a> {
    /// The package that is walked.
    pub closed spec fn spec_package(&self) -> &Package {
        self.package
    }

    /// The key of the package that is walked.
    pub closed spec fn spec_package_id(&self) -> PackageId {
        self.package_id
    }

    /// The specializations that the walk is inside of.
    pub closed spec fn spec_stack(&self) -> Seq<usize> {
        self.stack@
    }

    /// The state of the walk.
    pub closed spec fn state(&self) -> WalkState {
        WalkState {
            node_maps: self.node_maps@.map_values(|m: FxHashMap<usize, CallableVariable>| m@),
            cycles: self.specializations_with_cycles@,
            failed: self.failed,
        }
    }

    /// The stack is well formed, and the numbers of all specializations of the
    /// package fit in `usize`.
    pub closed spec fn well_formed(&self) -> bool {
        &&& self.stack.well_formed()
        &&& forall|i: int| 0 <= i < self.stack@.len() ==> self.stack@[i] < usize::MAX
        &&& 4 * self.package.items.spec_bound() <= usize::MAX
        &&& self.resolve_budget == resolve_budget(self.package)
        &&& self.walk_budget == walk_budget(self.package)
    }

    /// Whether the walk has failed as the state has, and is in the state
    /// unless it has failed.
    pub open spec fn agrees(&self, model: WalkState) -> bool {
        &&& self.state().failed == model.failed
        &&& !model.failed ==> self.state() == model
    }

    /// Whether the walk is a later stage of the walk `before`, with the same
    /// stack.
    pub open spec fn continues(&self, before: &Self) -> bool {
        &&& self.well_formed()
        &&& self.spec_package() == before.spec_package()
        &&& self.spec_package_id() == before.spec_package_id()
        &&& self.spec_stack() == before.spec_stack()
    }

    /// A walk of the package that has not begun.
    pub fn new(package_id: PackageId, package: &'a Package) -> (detector: Self)
        requires
            4 * package.items.spec_bound() <= usize::MAX,
        ensures
            detector.well_formed(),
            detector.spec_package() == package,
            detector.spec_package_id() == package_id,
            detector.spec_stack() == Seq::<usize>::empty(),
            detector.state() == WalkState::initial(),
    {
        let detector = CycleDetector {
            package_id,
            package,
            stack: CallStack::new(),
            node_maps: fx_map_new(),
            specializations_with_cycles: fx_set_new(),
            failed: false,
            resolve_budget: resolve_budget_of(package),
            walk_budget: walk_budget_of(package),
        };
        assert(detector.state().node_maps =~= Map::<usize, NodeMap>::empty());
        detector
    }

    /// Whether the walk has failed.
    pub fn has_failed(&self) -> (failed: bool)
        ensures
            failed == self.state().failed,
    {
        self.failed
    }

    /// Whether the specialization with the number was found on a cycle.
    pub fn is_cycled(&self, key: usize) -> (cycled: bool)
        ensures
            cycled == self.state().cycles.contains(key),
    {
        fx_set_contains(&self.specializations_with_cycles, key)
    }

    /// Walks an expression.
    pub fn visit_expr(&mut self, expr_id: ExprId, fuel: usize)
        requires
            old(self).well_formed(),
        ensures
            final(self).continues(old(self)),
            final(self).agrees(
                walk_expr(
                    old(self).spec_package(),
                    old(self).spec_package_id(),
                    old(self).spec_stack(),
                    old(self).state(),
                    expr_id,
                    fuel as nat,
                ),
            ),
        decreases fuel, 0nat,
    {
        if self.failed {
            return;
        }
        if fuel == 0 {
            self.failed = true;
            return;
        }
        let package = self.package;
        let expr = match package.exprs.get(expr_id.0) {
            Some(expr) => expr,
            None => {
                self.failed = true;
                return;
            },
        };
        let rest = fuel - 1;
        match &expr.kind {
            ExprKind::Array(exprs) => self.visit_exprs(exprs, rest),
            ExprKind::Tuple(exprs) => self.visit_exprs(exprs, rest),
            ExprKind::ArrayRepeat(first, second) => self.visit_two(*first, *second, rest),
            ExprKind::Assign(first, second) => self.visit_two(*first, *second, rest),
            ExprKind::AssignOp(first, second) => self.visit_two(*first, *second, rest),
            ExprKind::BinOp(first, second) => self.visit_two(*first, *second, rest),
            ExprKind::AssignField(first, second) => self.visit_two(*first, *second, rest),
            ExprKind::UpdateField(first, second) => self.visit_two(*first, *second, rest),
            ExprKind::Index(first, second) => self.visit_two(*first, *second, rest),
            ExprKind::AssignIndex(first, second, third) => self.visit_three(
                *first,
                *second,
                *third,
                rest,
            ),
            ExprKind::UpdateIndex(first, second, third) => self.visit_three(
                *first,
                *second,
                *third,
                rest,
            ),
            ExprKind::Block(block) => self.visit_block(*block, rest),
            ExprKind::Call(callee, args) => self.walk_call_expr(*callee, *args, rest),
            ExprKind::Fail(inner) => self.visit_expr(*inner, rest),
            ExprKind::Field(inner) => self.visit_expr(*inner, rest),
            ExprKind::Return(inner) => self.visit_expr(*inner, rest),
            ExprKind::UnOp(_, inner) => self.visit_expr(*inner, rest),
            ExprKind::If(cond, body, otherwise) => self.visit_conditional(
                *cond,
                *body,
                *otherwise,
                rest,
            ),
            ExprKind::Range(start, step, end) => self.visit_range(*start, *step, *end, rest),
            ExprKind::String(components) => self.visit_components(components, rest),
            ExprKind::While(cond, block) => self.visit_loop(*cond, *block, rest),
            ExprKind::Closure(_) | ExprKind::Hole | ExprKind::Lit | ExprKind::Var(_) => {},
        }
    }

    /// Walks three expressions, one after the other.
    fn visit_three(&mut self, first: ExprId, second: ExprId, third: ExprId, fuel: usize)
        requires
            old(self).well_formed(),
        ensures
            final(self).continues(old(self)),
            final(self).agrees(
                walk_expr(
                    old(self).spec_package(),
                    old(self).spec_package_id(),
                    old(self).spec_stack(),
                    walk_expr(
                        old(self).spec_package(),
                        old(self).spec_package_id(),
                        old(self).spec_stack(),
                        walk_expr(
                            old(self).spec_package(),
                            old(self).spec_package_id(),
                            old(self).spec_stack(),
                            old(self).state(),
                            first,
                            fuel as nat,
                        ),
                        second,
                        fuel as nat,
                    ),
                    third,
                    fuel as nat,
                ),
            ),
        decreases fuel, 2nat,
    {
        self.visit_two(first, second, fuel);
        self.visit_expr(third, fuel);
    }

    /// Walks a condition, the expression that it guards and the alternative
    /// that there may be.
    fn visit_conditional(
        &mut self,
        cond: ExprId,
        body: ExprId,
        otherwise: Option<ExprId>,
        fuel: usize,
    )
        requires
            old(self).well_formed(),
        ensures
            final(self).continues(old(self)),
            final(self).agrees(
                walk_optional_expr(
                    old(self).spec_package(),
                    old(self).spec_package_id(),
                    old(self).spec_stack(),
                    walk_expr(
                        old(self).spec_package(),
                        old(self).spec_package_id(),
                        old(self).spec_stack(),
                        walk_expr(
                            old(self).spec_package(),
                            old(self).spec_package_id(),
                            old(self).spec_stack(),
                            old(self).state(),
                            cond,
                            fuel as nat,
                        ),
                        body,
                        fuel as nat,
                    ),
                    otherwise,
                    fuel as nat,
                ),
            ),
        decreases fuel, 2nat,
    {
        self.visit_two(cond, body, fuel);
        self.visit_optional_expr(otherwise, fuel);
    }

    /// Walks the bounds and the step that a range has.
    fn visit_range(
        &mut self,
        start: Option<ExprId>,
        step: Option<ExprId>,
        end: Option<ExprId>,
        fuel: usize,
    )
        requires
            old(self).well_formed(),
        ensures
            final(self).continues(old(self)),
            final(self).agrees(
                walk_optional_expr(
                    old(self).spec_package(),
                    old(self).spec_package_id(),
                    old(self).spec_stack(),
                    walk_optional_expr(
                        old(self).spec_package(),
                        old(self).spec_package_id(),
                        old(self).spec_stack(),
                        walk_optional_expr(
                            old(self).spec_package(),
                            old(self).spec_package_id(),
                            old(self).spec_stack(),
                            old(self).state(),
                            start,
                            fuel as nat,
                        ),
                        step,
                        fuel as nat,
                    ),
                    end,
                    fuel as nat,
                ),
            ),
        decreases fuel, 2nat,
    {
        self.visit_optional_expr(start, fuel);
        self.visit_optional_expr(step, fuel);
        self.visit_optional_expr(end, fuel);
    }

    /// Walks the condition and the block of a loop.
    fn visit_loop(&mut self, cond: ExprId, block: BlockId, fuel: usize)
        requires
            old(self).well_formed(),
        ensures
            final(self).continues(old(self)),
            final(self).agrees(
                walk_block(
                    old(self).spec_package(),
                    old(self).spec_package_id(),
                    old(self).spec_stack(),
                    walk_expr(
                        old(self).spec_package(),
                        old(self).spec_package_id(),
                        old(self).spec_stack(),
                        old(self).state(),
                        cond,
                        fuel as nat,
                    ),
                    block,
                    fuel as nat,
                ),
            ),
        decreases fuel, 1nat,
    {
        self.visit_expr(cond, fuel);
        self.visit_block(block, fuel);
    }

    /// Walks two expressions, one after the other.
    fn visit_two(&mut self, first: ExprId, second: ExprId, fuel: usize)
        requires
            old(self).well_formed(),
        ensures
            final(self).continues(old(self)),
            final(self).agrees(
                walk_expr(
                    old(self).spec_package(),
                    old(self).spec_package_id(),
                    old(self).spec_stack(),
                    walk_expr(
                        old(self).spec_package(),
                        old(self).spec_package_id(),
                        old(self).spec_stack(),
                        old(self).state(),
                        first,
                        fuel as nat,
                    ),
                    second,
                    fuel as nat,
                ),
            ),
        decreases fuel, 1nat,
    {
        self.visit_expr(first, fuel);
        self.visit_expr(second, fuel);
    }

    /// Walks an expression that may be absent.
    fn visit_optional_expr(&mut self, expr_id: Option<ExprId>, fuel: usize)
        requires
            old(self).well_formed(),
        ensures
            final(self).continues(old(self)),
            final(self).agrees(
                walk_optional_expr(
                    old(self).spec_package(),
                    old(self).spec_package_id(),
                    old(self).spec_stack(),
                    old(self).state(),
                    expr_id,
                    fuel as nat,
                ),
            ),
        decreases fuel, 1nat,
    {
        match expr_id {
            Some(expr_id) => self.visit_expr(expr_id, fuel),
            None => {},
        }
    }

    /// Walks expressions in their order.
    fn visit_exprs(&mut self, exprs: &Vec<ExprId>, fuel: usize)
        requires
            old(self).well_formed(),
        ensures
            final(self).continues(old(self)),
            final(self).agrees(
                walk_exprs(
                    old(self).spec_package(),
                    old(self).spec_package_id(),
                    old(self).spec_stack(),
                    old(self).state(),
                    exprs@,
                    exprs@.len(),
                    fuel as nat,
                ),
            ),
        decreases fuel, 1nat,
    {
        let mut i: usize = 0;
        while i < exprs.len()
            invariant
                i <= exprs@.len(),
                self.continues(old(self)),
                self.agrees(
                    walk_exprs(
                        old(self).spec_package(),
                        old(self).spec_package_id(),
                        old(self).spec_stack(),
                        old(self).state(),
                        exprs@,
                        i as nat,
                        fuel as nat,
                    ),
                ),
            decreases exprs@.len() - i,
        {
            proof {
                let before = walk_exprs(
                    old(self).spec_package(),
                    old(self).spec_package_id(),
                    old(self).spec_stack(),
                    old(self).state(),
                    exprs@,
                    i as nat,
                    fuel as nat,
                );
                lemma_walk_expr_keeps_failure(
                    old(self).spec_package(),
                    old(self).spec_package_id(),
                    old(self).spec_stack(),
                    before,
                    exprs@[i as int],
                    fuel as nat,
                );
                lemma_walk_expr_keeps_failure(
                    old(self).spec_package(),
                    old(self).spec_package_id(),
                    old(self).spec_stack(),
                    self.state(),
                    exprs@[i as int],
                    fuel as nat,
                );
            }
            self.visit_expr(exprs[i], fuel);
            i += 1;
        }
    }

    /// Walks the expressions among the parts of an interpolated string.
    fn visit_components(&mut self, components: &Vec<StringComponent>, fuel: usize)
        requires
            old(self).well_formed(),
        ensures
            final(self).continues(old(self)),
            final(self).agrees(
                walk_components(
                    old(self).spec_package(),
                    old(self).spec_package_id(),
                    old(self).spec_stack(),
                    old(self).state(),
                    components@,
                    components@.len(),
                    fuel as nat,
                ),
            ),
        decreases fuel, 1nat,
    {
        let mut i: usize = 0;
        while i < components.len()
            invariant
                i <= components@.len(),
                self.continues(old(self)),
                self.agrees(
                    walk_components(
                        old(self).spec_package(),
                        old(self).spec_package_id(),
                        old(self).spec_stack(),
                        old(self).state(),
                        components@,
                        i as nat,
                        fuel as nat,
                    ),
                ),
            decreases components@.len() - i,
        {
            match components[i] {
                StringComponent::Expr(expr) => {
                    proof {
                        let before = walk_components(
                            old(self).spec_package(),
                            old(self).spec_package_id(),
                            old(self).spec_stack(),
                            old(self).state(),
                            components@,
                            i as nat,
                            fuel as nat,
                        );
                        lemma_walk_expr_keeps_failure(
                            old(self).spec_package(),
                            old(self).spec_package_id(),
                            old(self).spec_stack(),
                            before,
                            expr,
                            fuel as nat,
                        );
                        lemma_walk_expr_keeps_failure(
                            old(self).spec_package(),
                            old(self).spec_package_id(),
                            old(self).spec_stack(),
                            self.state(),
                            expr,
                            fuel as nat,
                        );
                    }
                    self.visit_expr(expr, fuel)
                },
                StringComponent::Lit => {},
            }
            i += 1;
        }
    }

    /// Walks a block.
    pub fn visit_block(&mut self, block_id: BlockId, fuel: usize)
        requires
            old(self).well_formed(),
        ensures
            final(self).continues(old(self)),
            final(self).agrees(
                walk_block(
                    old(self).spec_package(),
                    old(self).spec_package_id(),
                    old(self).spec_stack(),
                    old(self).state(),
                    block_id,
                    fuel as nat,
                ),
            ),
        decreases fuel, 0nat,
    {
        if self.failed {
            return;
        }
        if fuel == 0 {
            self.failed = true;
            return;
        }
        let package = self.package;
        let block = match package.blocks.get(block_id.0) {
            Some(block) => block,
            None => {
                self.failed = true;
                return;
            },
        };
        let mut i: usize = 0;
        while i < block.stmts.len()
            invariant
                i <= block.stmts@.len(),
                fuel > 0,
                self.continues(old(self)),
                self.agrees(
                    walk_stmts(
                        old(self).spec_package(),
                        old(self).spec_package_id(),
                        old(self).spec_stack(),
                        old(self).state(),
                        block.stmts@,
                        i as nat,
                        (fuel - 1) as nat,
                    ),
                ),
            decreases block.stmts@.len() - i,
        {
            proof {
                let before = walk_stmts(
                    old(self).spec_package(),
                    old(self).spec_package_id(),
                    old(self).spec_stack(),
                    old(self).state(),
                    block.stmts@,
                    i as nat,
                    (fuel - 1) as nat,
                );
                lemma_walk_stmt_keeps_failure(
                    old(self).spec_package(),
                    old(self).spec_package_id(),
                    old(self).spec_stack(),
                    before,
                    block.stmts@[i as int],
                    (fuel - 1) as nat,
                );
                lemma_walk_stmt_keeps_failure(
                    old(self).spec_package(),
                    old(self).spec_package_id(),
                    old(self).spec_stack(),
                    self.state(),
                    block.stmts@[i as int],
                    (fuel - 1) as nat,
                );
            }
            self.visit_stmt(block.stmts[i], fuel - 1);
            i += 1;
        }
    }

    /// Walks a statement.
    pub fn visit_stmt(&mut self, stmt_id: StmtId, fuel: usize)
        requires
            old(self).well_formed(),
        ensures
            final(self).continues(old(self)),
            final(self).agrees(
                walk_stmt(
                    old(self).spec_package(),
                    old(self).spec_package_id(),
                    old(self).spec_stack(),
                    old(self).state(),
                    stmt_id,
                    fuel as nat,
                ),
            ),
        decreases fuel, 0nat,
    {
        if self.failed {
            return;
        }
        if fuel == 0 {
            self.failed = true;
            return;
        }
        let package = self.package;
        let stmt = match package.stmts.get(stmt_id.0) {
            Some(stmt) => stmt,
            None => {
                self.failed = true;
                return;
            },
        };
        match stmt.kind {
            StmtKind::Item(_) => {},
            StmtKind::Expr(expr_id) => self.visit_expr(expr_id, fuel - 1),
            StmtKind::Semi(expr_id) => self.visit_expr(expr_id, fuel - 1),
            StmtKind::Local(pat_id, expr_id) => self.walk_local_stmt(pat_id, expr_id, fuel - 1),
        }
    }

    /// Walks a binding: records it, then walks the expression that is bound.
    fn walk_local_stmt(&mut self, pat_id: PatId, expr_id: ExprId, fuel: usize)
        requires
            old(self).well_formed(),
            !old(self).state().failed,
        ensures
            final(self).continues(old(self)),
            final(self).agrees(
                match bind_pattern(
                    old(self).spec_package(),
                    old(self).state().current_node_map(old(self).spec_stack()),
                    pat_id,
                    expr_id,
                    fuel as nat,
                ) {
                    Some(node_map) => walk_expr(
                        old(self).spec_package(),
                        old(self).spec_package_id(),
                        old(self).spec_stack(),
                        old(self).state().with_current_node_map(old(self).spec_stack(), node_map),
                        expr_id,
                        fuel as nat,
                    ),
                    None => old(self).state().fail(),
                },
            ),
        decreases fuel, 1nat,
    {
        let package = self.package;
        let top = self.stack.peak();
        let mut node_map: FxHashMap<usize, CallableVariable> = match top {
            Some(key) => match fx_map_remove(&mut self.node_maps, key) {
                Some(node_map) => node_map,
                None => fx_map_new(),
            },
            None => fx_map_new(),
        };
        assert(node_map@ =~= old(self).state().current_node_map(old(self).spec_stack()));
        let bound = map_pat_to_expr(package, &mut node_map, pat_id, expr_id, fuel);
        if !bound {
            self.failed = true;
            return;
        }
        match top {
            Some(key) => {
                let _ = fx_map_insert(&mut self.node_maps, key, node_map);
            },
            None => {},
        }
        assert(self.state().node_maps =~= old(self).state().with_current_node_map(
            old(self).spec_stack(),
            node_map@,
        ).node_maps);
        self.visit_expr(expr_id, fuel);
    }

    /// Walks a call.
    pub fn walk_call_expr(&mut self, callee: ExprId, args: ExprId, fuel: usize)
        requires
            old(self).well_formed(),
        ensures
            final(self).continues(old(self)),
            final(self).agrees(
                walk_call(
                    old(self).spec_package(),
                    old(self).spec_package_id(),
                    old(self).spec_stack(),
                    old(self).state(),
                    callee,
                    args,
                    fuel as nat,
                ),
            ),
        decreases fuel, 0nat,
    {
        if self.failed {
            return;
        }
        if fuel == 0 {
            self.failed = true;
            return;
        }
        // Walk the arguments first: they may hold a call into the stack.
        self.visit_expr(args, fuel - 1);
        if self.failed {
            return;
        }
        let package = self.package;
        let node_map = match self.stack.peak() {
            Some(key) => fx_map_get(&self.node_maps, key),
            None => None,
        };
        assert(bindings_of(node_map) =~= self.state().current_node_map(self.spec_stack()));
        let resolution = resolve_callee_in(
            package,
            self.package_id,
            node_map,
            callee,
            self.resolve_budget,
        );
        match resolution {
            Resolution::Resolved(specialization) => self.walk_callable_decl(
                specialization,
                fuel - 1,
            ),
            // Cycles are within a package: calls into other packages are not followed.
            Resolution::Elsewhere(_, _) => {},
            Resolution::Unknown => {},
            Resolution::Malformed => {
                self.failed = true;
            },
        }
    }

    /// Walks a specialization that is called.
    pub fn walk_callable_decl(
        &mut self,
        callable_specialization_selector: CallableSpecializationSelector,
        fuel: usize,
    )
        requires
            old(self).well_formed(),
        ensures
            final(self).continues(old(self)),
            final(self).agrees(
                walk_callable(
                    old(self).spec_package(),
                    old(self).spec_package_id(),
                    old(self).spec_stack(),
                    old(self).state(),
                    callable_specialization_selector,
                    fuel as nat,
                ),
            ),
        decreases fuel, 2nat,
    {
        if self.failed {
            return;
        }
        let package = self.package;
        let item = match package.items.get(callable_specialization_selector.callable.0) {
            Some(item) => item,
            None => {
                self.failed = true;
                return;
            },
        };
        match &item.kind {
            ItemKind::Callable(callable_decl) => match &callable_decl.implementation {
                // Only callables with a body are walked.
                CallableImpl::Intrinsic => {},
                CallableImpl::Spec(specs) => {
                    let spec_decl =
                        callable_specialization_selector.specialization_selector.select(specs);
                    match spec_decl {
                        Some(spec_decl) => self.walk_spec_decl(
                            callable_specialization_selector,
                            callable_decl.input,
                            spec_decl,
                            fuel,
                        ),
                        None => {
                            self.failed = true;
                        },
                    }
                },
            },
            ItemKind::Namespace => {
                self.failed = true;
            },
            ItemKind::Ty => {},
        }
    }

    /// Walks a specialization.
    pub fn walk_spec_decl(
        &mut self,
        callable_specialization_id: CallableSpecializationSelector,
        input: PatId,
        spec_decl: SpecDecl,
        fuel: usize,
    )
        requires
            old(self).well_formed(),
            old(self).spec_package().items@.contains_key(callable_specialization_id.callable.0),
        ensures
            final(self).continues(old(self)),
            final(self).agrees(
                walk_spec_decl(
                    old(self).spec_package(),
                    old(self).spec_package_id(),
                    old(self).spec_stack(),
                    old(self).state(),
                    callable_specialization_id,
                    input,
                    spec_decl,
                    fuel as nat,
                ),
            ),
        decreases fuel, 1nat,
    {
        if self.failed {
            return;
        }
        let package = self.package;
        proof {
            package.items.lemma_keys_below_bound();
        }
        let key = callable_specialization_id.key();
        // A specialization that is on the stack is on a cycle.
        if self.stack.contains(key) {
            let _ = fx_set_insert(&mut self.specializations_with_cycles, key);
            return;
        }
        if fuel == 0 {
            self.failed = true;
            return;
        }
        // The first walk of a specialization records its input parameters.
        if fx_map_get(&self.node_maps, key).is_none() {
            match derive_callable_input_map(package, input) {
                Some(input_map) => {
                    let _ = fx_map_insert(&mut self.node_maps, key, input_map);
                    assert(self.state().node_maps =~= old(self).state().node_maps.insert(
                        key,
                        input_map@,
                    ));
                },
                None => {
                    self.failed = true;
                    return;
                },
            }
        }
        self.stack.push(key);
        self.visit_block(spec_decl.block, fuel - 1);
        let _ = self.stack.pop();
        assert(self.spec_stack() =~= old(self).spec_stack());
    }

    /// Walks an optional specialization of an item, from outside any
    /// specialization.
    fn walk_item_spec_decl(
        &mut self,
        callable_specialization_id: CallableSpecializationSelector,
        input: PatId,
        spec_decl: Option<SpecDecl>,
    )
        requires
            old(self).well_formed(),
            old(self).spec_stack() == Seq::<usize>::empty(),
            old(self).spec_package().items@.contains_key(callable_specialization_id.callable.0),
        ensures
            final(self).continues(old(self)),
            final(self).agrees(
                walk_optional_spec_decl(
                    old(self).spec_package(),
                    old(self).spec_package_id(),
                    old(self).state(),
                    callable_specialization_id,
                    input,
                    spec_decl,
                ),
            ),
    {
        match spec_decl {
            Some(spec_decl) => self.walk_spec_decl(
                callable_specialization_id,
                input,
                spec_decl,
                self.walk_budget,
            ),
            None => {},
        }
    }

    /// Walks the specializations of an item.
    pub fn visit_item(&mut self, item_id: LocalItemId)
        requires
            old(self).well_formed(),
            old(self).spec_stack() == Seq::<usize>::empty(),
        ensures
            final(self).continues(old(self)),
            final(self).agrees(
                walk_item(
                    old(self).spec_package(),
                    old(self).spec_package_id(),
                    old(self).state(),
                    item_id,
                ),
            ),
    {
        let package = self.package;
        let item = match package.items.get(item_id.0) {
            Some(item) => item,
            None => {
                return;
            },
        };
        // Only callables with a body are walked.
        match &item.kind {
            ItemKind::Callable(callable_decl) => match &callable_decl.implementation {
                CallableImpl::Intrinsic => {},
                CallableImpl::Spec(specs) => {
                    let input = callable_decl.input;
                    self.walk_item_spec_decl(
                        CallableSpecializationSelector {
                            callable: item_id,
                            specialization_selector: SpecializationSelector {
                                adjoint: false,
                                controlled: false,
                            },
                        },
                        input,
                        Some(specs.body),
                    );
                    self.walk_item_spec_decl(
                        CallableSpecializationSelector {
                            callable: item_id,
                            specialization_selector: SpecializationSelector {
                                adjoint: true,
                                controlled: false,
                            },
                        },
                        input,
                        specs.adj,
                    );
                    self.walk_item_spec_decl(
                        CallableSpecializationSelector {
                            callable: item_id,
                            specialization_selector: SpecializationSelector {
                                adjoint: false,
                                controlled: true,
                            },
                        },
                        input,
                        specs.ctl,
                    );
                    self.walk_item_spec_decl(
                        CallableSpecializationSelector {
                            callable: item_id,
                            specialization_selector: SpecializationSelector {
                                adjoint: true,
                                controlled: true,
                            },
                        },
                        input,
                        specs.ctl_adj,
                    );
                },
            },
            _ => {},
        }
    }

    /// Walks the package: every item, in the order of the keys.
    pub fn detect_specializations_with_cycles(&mut self)
        requires
            old(self).well_formed(),
            old(self).spec_stack() == Seq::<usize>::empty(),
            old(self).state() == WalkState::initial(),
        ensures
            final(self).continues(old(self)),
            final(self).agrees(
                walk_package(old(self).spec_package(), old(self).spec_package_id()),
            ),
    {
        let package = self.package;
        let bound = package.items.bound();
        let mut i: usize = 0;
        while i < bound
            invariant
                i <= bound,
                bound == package.items.spec_bound(),
                package == old(self).spec_package(),
                self.continues(old(self)),
                self.spec_stack() == Seq::<usize>::empty(),
                self.agrees(
                    walk_items(old(self).spec_package(), old(self).spec_package_id(), i as nat),
                ),
            decreases bound - i,
        {
            self.visit_item(LocalItemId(i));
            proof {
                lemma_walk_item_keeps_failure(
                    package,
                    self.spec_package_id(),
                    walk_items(package, self.spec_package_id(), i as nat),
                    LocalItemId(i),
                );
            }
            i += 1;
        }
    }

    /// What is known of a callable after one more of its specializations was
    /// looked at: the specialization is recorded if the callable has it and
    /// it was found on a cycle.
    fn note_specialization(
        &self,
        noted: Option<CycledCallableInfo>,
        item: &Item,
        specialization: CallableSpecializationSelector,
        decl: Option<SpecDecl>,
    ) -> (info: Option<CycledCallableInfo>)
        requires
            self.well_formed(),
            self.spec_package().items@.contains_key(specialization.callable.0),
            item.kind matches ItemKind::Callable(callable) && callable.implementation is Spec,
            decl == specialization.specialization_selector.spec_select(
                item.kind->Callable_0.implementation->Spec_0,
            ),
            noted is Some ==> noted->0.has_flag(specialization.specialization_selector)
                || decl is None,
        ensures
            info == (if decl is Some && self.state().cycles.contains(specialization.spec_key()) {
                match noted {
                    Some(noted) => Some(
                        noted.spec_update(specialization.specialization_selector),
                    ),
                    None => Some(
                        CycledCallableInfo::spec_new(
                            item.kind->Callable_0.implementation->Spec_0,
                            specialization,
                        ),
                    ),
                }
            } else {
                noted
            }),
    {
        proof {
            self.package.items.lemma_keys_below_bound();
        }
        if decl.is_some() && self.is_cycled(specialization.key()) {
            match noted {
                Some(noted) => {
                    let mut noted = noted;
                    noted.update(&specialization.specialization_selector);
                    Some(noted)
                },
                None => Some(CycledCallableInfo::new(item, &specialization)),
            }
        } else {
            noted
        }
    }

    /// The callables with a specialization that was found on a cycle, in the
    /// order of their keys.
    pub fn get_callables_with_cycles(&self) -> (callables: Vec<CycledCallableInfo>)
        requires
            self.well_formed(),
        ensures
            callables@ == cycled_callables(
                self.spec_package(),
                self.state().cycles,
                self.spec_package().items.spec_bound(),
            ),
    {
        let package = self.package;
        let bound = package.items.bound();
        let mut callables: Vec<CycledCallableInfo> = Vec::new();
        let mut i: usize = 0;
        while i < bound
            invariant
                i <= bound,
                bound == package.items.spec_bound(),
                package == self.spec_package(),
                self.well_formed(),
                callables@ == cycled_callables(package, self.state().cycles, i as nat),
            decreases bound - i,
        {
            let item_id = LocalItemId(i);
            match package.items.get(i) {
                Some(item) => match &item.kind {
                    ItemKind::Callable(callable) => match &callable.implementation {
                        CallableImpl::Spec(specs) => {
                            let info = self.note_specialization(
                                None,
                                item,
                                CallableSpecializationSelector {
                                    callable: item_id,
                                    specialization_selector: SpecializationSelector {
                                        adjoint: false,
                                        controlled: false,
                                    },
                                },
                                Some(specs.body),
                            );
                            let info = self.note_specialization(
                                info,
                                item,
                                CallableSpecializationSelector {
                                    callable: item_id,
                                    specialization_selector: SpecializationSelector {
                                        adjoint: true,
                                        controlled: false,
                                    },
                                },
                                specs.adj,
                            );
                            let info = self.note_specialization(
                                info,
                                item,
                                CallableSpecializationSelector {
                                    callable: item_id,
                                    specialization_selector: SpecializationSelector {
                                        adjoint: false,
                                        controlled: true,
                                    },
                                },
                                specs.ctl,
                            );
                            let info = self.note_specialization(
                                info,
                                item,
                                CallableSpecializationSelector {
                                    callable: item_id,
                                    specialization_selector: SpecializationSelector {
                                        adjoint: true,
                                        controlled: true,
                                    },
                                },
                                specs.ctl_adj,
                            );
                            match info {
                                Some(info) => {
                                    callables.push(info);
                                },
                                None => {},
                            }
                        },
                        CallableImpl::Intrinsic => {},
                    },
                    _ => {},
                },
                None => {},
            }
            i += 1;
        }
        callables
    }
}

/// The callables of the package that are on a cycle of its call graph, or
/// nothing where the walk of the package fails.
pub fn try_detect_callables_with_cycles(package_id: PackageId, package: &Package) -> (callables:
    Option<Vec<CycledCallableInfo>>)
    requires
        4 * package.items.spec_bound() <= usize::MAX,
    ensures
        match detection(package, package_id) {
            Some(expected) => callables is Some && callables->0@ == expected,
            None => callables is None,
        },
{
    // First, find the specializations that are on a cycle.
    let mut cycle_detector = CycleDetector::new(package_id, package);
    cycle_detector.detect_specializations_with_cycles();
    if cycle_detector.has_failed() {
        return None;
    }
    // Then group them by callable.
    Some(cycle_detector.get_callables_with_cycles())
}

/// The callables of the package that are on a cycle of its call graph.
pub fn detect_callables_with_cycles(package_id: PackageId, package: &Package) -> (callables: Vec<
    CycledCallableInfo,
>)
    requires
        4 * package.items.spec_bound() <= usize::MAX,
        detection(package, package_id) is Some,
    ensures
        callables@ == detection(package, package_id)->0,
{
    match try_detect_callables_with_cycles(package_id, package) {
        Some(callables) => callables,
        None => {
            proof {
                assert(false);
            }
            Vec::new()
        },
    }
}

} // verus!
