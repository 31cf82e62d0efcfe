//! The store of compute properties, by package and by element, and the partial
//! stores that the analysis of one item yields.

use crate::compute_props::AppsTbl;
use crate::compute_props::ComputeProps;
use crate::compute_props::ComputePropsView;
use crate::compute_props::ParamIdx;
use crate::fir::ItemId;
use crate::fir::LocalItemId;
use crate::fir::PackageId;
use crate::fx::fx_map_drain;
use crate::fx::fx_map_insert;
use crate::fx::fx_map_new;
use crate::index_map::IndexMap;
use rustc_hash::FxHashMap;
use vstd::prelude::*;

verus! {

/// The mathematical value of an applications table.
pub struct AppsTblView {
    pub input_param_count: usize,
    pub apps: Seq<ComputePropsView>,
}

/// The mathematical value of an applications table.
pub open spec fn apps_view(table: &AppsTbl) -> AppsTblView {
    AppsTblView { input_param_count: table.spec_input_param_count(), apps: table@ }
}

/// The compute properties of a callable.
#[derive(Debug)]
pub struct CallableComputeProps {
    pub apps: AppsTbl,
}

/// The compute properties of an item.
#[derive(Debug)]
pub enum ItemComputeProps {
    NonCallable,
    Callable(CallableComputeProps),
}

/// The mathematical value of an `ItemComputeProps`.
pub enum ItemComputePropsView {
    NonCallable,
    Callable(AppsTblView),
}

impl View for ItemComputeProps {
    type V = ItemComputePropsView;

    open spec fn view(&self) -> ItemComputePropsView {
        match self {
            ItemComputeProps::NonCallable => ItemComputePropsView::NonCallable,
            ItemComputeProps::Callable(callable) => ItemComputePropsView::Callable(
                apps_view(&callable.apps),
            ),
        }
    }
}

/// The compute properties of a block, a statement or an expression.
#[derive(Debug)]
pub enum InnerElmtComputeProps {
    AppDependent(AppsTbl),
    AppIndependent(ComputeProps),
}

/// The mathematical value of an `InnerElmtComputeProps`.
pub enum InnerElmtComputePropsView {
    AppDependent(AppsTblView),
    AppIndependent(ComputePropsView),
}

impl View for InnerElmtComputeProps {
    type V = InnerElmtComputePropsView;

    open spec fn view(&self) -> InnerElmtComputePropsView {
        match self {
            InnerElmtComputeProps::AppDependent(table) => InnerElmtComputePropsView::AppDependent(
                apps_view(table),
            ),
            InnerElmtComputeProps::AppIndependent(props) =>
                InnerElmtComputePropsView::AppIndependent(props@),
        }
    }
}

/// What a pattern binds.
#[derive(Clone, Copy, Debug, PartialEq, Eq, Structural)]
pub enum PatComputeProps {
    Local,
    CallableParam(ItemId, ParamIdx),
}

/// Every key of the map can be a key of an `IndexMap`.
pub open spec fn keys_fit<V>(map: Map<usize, V>) -> bool {
    forall|k: usize| #[trigger] map.contains_key(k) ==> k < usize::MAX
}

/// Whether one of the pairs from position `from` on has the key.
pub open spec fn has_key_from<V>(pairs: Seq<(usize, V)>, key: usize, from: int) -> bool {
    exists|i: int| #![trigger pairs[i]] from <= i < pairs.len() && pairs[i].0 == key
}

/// A key is among the pairs from a position on where it is the key at that
/// position or among the pairs after it.
pub proof fn lemma_has_key_from_step<V>(pairs: Seq<(usize, V)>, key: usize, from: int)
    requires
        0 <= from < pairs.len(),
    ensures
        has_key_from(pairs, key, from) <==> (pairs[from].0 == key || has_key_from(
            pairs,
            key,
            from + 1,
        )),
{
    if has_key_from(pairs, key, from) {
        let i = choose|i: int| #![trigger pairs[i]] from <= i < pairs.len() && pairs[i].0 == key;
        if i != from {
            assert(from + 1 <= i && pairs[i].0 == key);
        }
    }
    if has_key_from(pairs, key, from + 1) {
        let i = choose|i: int|
            #![trigger pairs[i]]
            from + 1 <= i < pairs.len() && pairs[i].0 == key;
        assert(from <= i && pairs[i].0 == key);
    }
}

/// The entries of `stored` and of `partial`, where for a key of both the value
/// of `partial` stays if it is to replace the other, and the value of `stored`
/// if not.
pub open spec fn entries_taken<V>(stored: Map<usize, V>, partial: Map<usize, V>, replace: bool) -> Map<
    usize,
    V,
> {
    if replace {
        stored.union_prefer_right(partial)
    } else {
        partial.union_prefer_right(stored)
    }
}

/// Moves the entries of a hash map into an index map. Where the index map
/// has the key of an entry already, the entry takes the place of the one that
/// the index map has if it is to replace it, and is dropped if not.
fn move_entries<V>(target: &mut IndexMap<V>, source: &mut FxHashMap<usize, V>, replace: bool)
    requires
        keys_fit(old(source)@),
    ensures
        final(target)@ == entries_taken(old(target)@, old(source)@, replace),
        final(source)@ == Map::<usize, V>::empty(),
{
    let mut pairs = fx_map_drain(source);
    assert(source@ =~= Map::<usize, V>::empty());
    let ghost all = pairs@;
    let ghost base = target@;
    let ghost extra = old(source)@;
    while pairs.len() > 0
        invariant
            keys_fit(extra),
            pairs@.len() <= all.len(),
            pairs@ == all.take(pairs@.len() as int),
            forall|i: int|
                0 <= i < all.len() ==> extra.contains_key((#[trigger] all[i]).0) && extra[all[i].0]
                    == all[i].1,
            forall|i: int, j: int|
                0 <= i < j < all.len() ==> (#[trigger] all[i]).0 != (#[trigger] all[j]).0,
            forall|k: usize| #[trigger]
                target@.contains_key(k) <==> base.contains_key(k) || has_key_from(
                    all,
                    k,
                    pairs@.len() as int,
                ),
            forall|i: int|
                pairs@.len() <= i < all.len() && (replace || !base.contains_key(
                    (#[trigger] all[i]).0,
                )) ==> target@[all[i].0] == all[i].1,
            forall|k: usize|
                base.contains_key(k) && (!replace || !has_key_from(all, k, pairs@.len() as int))
                    ==> #[trigger] target@[k] == base[k],
        decreases pairs@.len(),
    {
        let ghost n = pairs@.len() - 1;
        let pair = pairs.pop();
        match pair {
            Some((key, value)) => {
                assert(all[n] == (key, value));
                assert(extra.contains_key(all[n].0));
                if replace || !target.contains_key(key) {
                    target.insert(key, value);
                }
                assert forall|k: usize|
                    has_key_from(all, k, n) <==> (k == key || #[trigger] has_key_from(
                        all,
                        k,
                        n + 1,
                    )) by {
                    lemma_has_key_from_step(all, k, n);
                }
            },
            None => {},
        }
    }
    assert(target@ =~= entries_taken(base, extra, replace)) by {
        assert forall|k: usize| extra.contains_key(k) <==> #[trigger] has_key_from(all, k, 0) by {
            if has_key_from(all, k, 0) {
                let i = choose|i: int| #![trigger all[i]] 0 <= i < all.len() && all[i].0 == k;
                assert(extra.contains_key(all[i].0));
            }
        }
        assert forall|k: usize|
            extra.contains_key(k) && (replace || !base.contains_key(k)) implies target@[k]
            == extra[k] by {
            let i = choose|i: int| #![trigger all[i]] 0 <= i < all.len() && all[i].0 == k;
            assert(target@[all[i].0] == all[i].1);
        }
    }
}

/// The compute properties of the elements of one package.
#[derive(Debug)]
pub struct PackageComputeProps {
    pub items: IndexMap<ItemComputeProps>,
    pub blocks: IndexMap<InnerElmtComputeProps>,
    pub stmts: IndexMap<InnerElmtComputeProps>,
    pub exprs: IndexMap<InnerElmtComputeProps>,
    pub pats: IndexMap<PatComputeProps>,
}

/// The mathematical value of the compute properties of one package or of a
/// partial package.
pub struct PackageComputePropsView {
    pub items: Map<usize, ItemComputePropsView>,
    pub blocks: Map<usize, InnerElmtComputePropsView>,
    pub stmts: Map<usize, InnerElmtComputePropsView>,
    pub exprs: Map<usize, InnerElmtComputePropsView>,
    pub pats: Map<usize, PatComputeProps>,
}

impl PackageComputePropsView {
    /// The package without compute properties.
    pub open spec fn empty() -> PackageComputePropsView {
        PackageComputePropsView {
            items: Map::empty(),
            blocks: Map::empty(),
            stmts: Map::empty(),
            exprs: Map::empty(),
            pats: Map::empty(),
        }
    }

    /// The package that holds the properties of one item and nothing else.
    pub open spec fn of_item(item: LocalItemId, props: ItemComputePropsView) -> PackageComputePropsView {
        PackageComputePropsView {
            items: Map::empty().insert(item.0, props),
            blocks: Map::empty(),
            stmts: Map::empty(),
            exprs: Map::empty(),
            pats: Map::empty(),
        }
    }

    /// The compute properties of a package, extended by those of a partial
    /// package: what the package has for an element stays, and what the
    /// partial package has for any other element is added.
    pub open spec fn merge(self, partial: PackageComputePropsView) -> PackageComputePropsView {
        PackageComputePropsView {
            items: partial.items.union_prefer_right(self.items),
            blocks: partial.blocks.union_prefer_right(self.blocks),
            stmts: partial.stmts.union_prefer_right(self.stmts),
            exprs: partial.exprs.union_prefer_right(self.exprs),
            pats: partial.pats.union_prefer_right(self.pats),
        }
    }

    /// The compute properties of a package, replaced and extended by those of
    /// a partial package: what the partial package has for an element stays,
    /// and what the package has for any other element is kept.
    pub open spec fn replaced_by(self, partial: PackageComputePropsView) -> PackageComputePropsView {
        PackageComputePropsView {
            items: self.items.union_prefer_right(partial.items),
            blocks: self.blocks.union_prefer_right(partial.blocks),
            stmts: self.stmts.union_prefer_right(partial.stmts),
            exprs: self.exprs.union_prefer_right(partial.exprs),
            pats: self.pats.union_prefer_right(partial.pats),
        }
    }

    /// The compute properties of a package once it has taken in those of a
    /// partial package, which replace what the package has or not.
    pub open spec fn taken_in(self, partial: PackageComputePropsView, replace: bool) -> PackageComputePropsView {
        if replace {
            self.replaced_by(partial)
        } else {
            self.merge(partial)
        }
    }
}

/// Merging with the empty package changes nothing, and neither does
/// replacing by it or replacing it.
pub proof fn lemma_merge_empty(package: PackageComputePropsView)
    ensures
        package.merge(PackageComputePropsView::empty()) == package,
        PackageComputePropsView::empty().merge(package) == package,
        package.replaced_by(PackageComputePropsView::empty()) == package,
        PackageComputePropsView::empty().replaced_by(package) == package,
{
    let e = PackageComputePropsView::empty();
    assert(package.replaced_by(e).items =~= package.items);
    assert(package.replaced_by(e).blocks =~= package.blocks);
    assert(package.replaced_by(e).stmts =~= package.stmts);
    assert(package.replaced_by(e).exprs =~= package.exprs);
    assert(package.replaced_by(e).pats =~= package.pats);
    assert(e.replaced_by(package).items =~= package.items);
    assert(e.replaced_by(package).blocks =~= package.blocks);
    assert(e.replaced_by(package).stmts =~= package.stmts);
    assert(e.replaced_by(package).exprs =~= package.exprs);
    assert(e.replaced_by(package).pats =~= package.pats);
    assert(package.merge(e).items =~= package.items);
    assert(package.merge(e).blocks =~= package.blocks);
    assert(package.merge(e).stmts =~= package.stmts);
    assert(package.merge(e).exprs =~= package.exprs);
    assert(package.merge(e).pats =~= package.pats);
    assert(e.merge(package).items =~= package.items);
    assert(e.merge(package).blocks =~= package.blocks);
    assert(e.merge(package).stmts =~= package.stmts);
    assert(e.merge(package).exprs =~= package.exprs);
    assert(e.merge(package).pats =~= package.pats);
}

impl View for PackageComputeProps {
    type V = PackageComputePropsView;

    open spec fn view(&self) -> PackageComputePropsView {
        PackageComputePropsView {
            items: self.items@.map_values(|v: ItemComputeProps| v@),
            blocks: self.blocks@.map_values(|v: InnerElmtComputeProps| v@),
            stmts: self.stmts@.map_values(|v: InnerElmtComputeProps| v@),
            exprs: self.exprs@.map_values(|v: InnerElmtComputeProps| v@),
            pats: self.pats@,
        }
    }
}

impl Default for PackageComputeProps {
    fn default() -> (package: Self)
        ensures
            package@ == PackageComputePropsView::empty(),
    {
        let package = PackageComputeProps {
            items: IndexMap::new(),
            blocks: IndexMap::new(),
            stmts: IndexMap::new(),
            exprs: IndexMap::new(),
            pats: IndexMap::new(),
        };
        assert(package@.items =~= Map::empty());
        assert(package@.blocks =~= Map::empty());
        assert(package@.stmts =~= Map::empty());
        assert(package@.exprs =~= Map::empty());
        package
    }
}

impl PackageComputeProps {
    /// Moves the compute properties of a partial package into this package,
    /// where they replace what the package has for an element or not.
    fn take_in(&mut self, partial_compute_props: &mut PackagePartialComputeProps, replace: bool)
        requires
            old(partial_compute_props).well_formed(),
        ensures
            final(self)@ == old(self)@.taken_in(old(partial_compute_props)@, replace),
            final(partial_compute_props)@ == PackageComputePropsView::empty(),
            final(partial_compute_props).well_formed(),
    {
        move_entries(&mut self.items, &mut partial_compute_props.items, replace);
        move_entries(&mut self.blocks, &mut partial_compute_props.blocks, replace);
        move_entries(&mut self.stmts, &mut partial_compute_props.stmts, replace);
        move_entries(&mut self.exprs, &mut partial_compute_props.exprs, replace);
        move_entries(&mut self.pats, &mut partial_compute_props.pats, replace);
        let ghost taken = old(self)@.taken_in(old(partial_compute_props)@, replace);
        assert(self@.items =~= taken.items);
        assert(self@.blocks =~= taken.blocks);
        assert(self@.stmts =~= taken.stmts);
        assert(self@.exprs =~= taken.exprs);
        assert(partial_compute_props@.items =~= Map::empty());
        assert(partial_compute_props@.blocks =~= Map::empty());
        assert(partial_compute_props@.stmts =~= Map::empty());
        assert(partial_compute_props@.exprs =~= Map::empty());
    }

    /// Moves the compute properties of a partial package into this package.
    /// Where both have an element, the properties that this package has for
    /// it stay, and those of the partial package are dropped.
    pub fn incorporate_partial_compute_props(
        &mut self,
        partial_compute_props: &mut PackagePartialComputeProps,
    )
        requires
            old(partial_compute_props).well_formed(),
        ensures
            final(self)@ == old(self)@.merge(old(partial_compute_props)@),
            final(partial_compute_props)@ == PackageComputePropsView::empty(),
            final(partial_compute_props).well_formed(),
    {
        self.take_in(partial_compute_props, false);
    }

    /// Moves the compute properties of a partial package into this package.
    /// Where both have an element, the properties of the partial package
    /// replace those that this package has for it.
    pub fn replace_with_partial_compute_props(
        &mut self,
        partial_compute_props: &mut PackagePartialComputeProps,
    )
        requires
            old(partial_compute_props).well_formed(),
        ensures
            final(self)@ == old(self)@.replaced_by(old(partial_compute_props)@),
            final(partial_compute_props)@ == PackageComputePropsView::empty(),
            final(partial_compute_props).well_formed(),
    {
        self.take_in(partial_compute_props, true);
    }
}

/// The compute properties that the analysis of one item yields for one
/// package.
#[derive(Debug)]
pub struct PackagePartialComputeProps {
    pub items: FxHashMap<usize, ItemComputeProps>,
    pub blocks: FxHashMap<usize, InnerElmtComputeProps>,
    pub stmts: FxHashMap<usize, InnerElmtComputeProps>,
    pub exprs: FxHashMap<usize, InnerElmtComputeProps>,
    pub pats: FxHashMap<usize, PatComputeProps>,
}

impl View for PackagePartialComputeProps {
    type V = PackageComputePropsView;

    open spec fn view(&self) -> PackageComputePropsView {
        PackageComputePropsView {
            items: self.items@.map_values(|v: ItemComputeProps| v@),
            blocks: self.blocks@.map_values(|v: InnerElmtComputeProps| v@),
            stmts: self.stmts@.map_values(|v: InnerElmtComputeProps| v@),
            exprs: self.exprs@.map_values(|v: InnerElmtComputeProps| v@),
            pats: self.pats@,
        }
    }
}

impl Default for PackagePartialComputeProps {
    fn default() -> (package: Self)
        ensures
            package@ == PackageComputePropsView::empty(),
            package.well_formed(),
    {
        let package = PackagePartialComputeProps {
            items: fx_map_new(),
            blocks: fx_map_new(),
            stmts: fx_map_new(),
            exprs: fx_map_new(),
            pats: fx_map_new(),
        };
        assert(package@.items =~= Map::empty());
        assert(package@.blocks =~= Map::empty());
        assert(package@.stmts =~= Map::empty());
        assert(package@.exprs =~= Map::empty());
        assert(package@.pats =~= Map::empty());
        package
    }
}

impl PackagePartialComputeProps {
    /// Every key can be a key of an `IndexMap`.
    pub open spec fn well_formed(&self) -> bool {
        &&& keys_fit(self.items@)
        &&& keys_fit(self.blocks@)
        &&& keys_fit(self.stmts@)
        &&& keys_fit(self.exprs@)
        &&& keys_fit(self.pats@)
    }

    /// The partial package that holds the properties of one callable.
    pub fn with_callable_compute_props(
        callable_id: LocalItemId,
        callable_compute_props: CallableComputeProps,
    ) -> (package: Self)
        requires
            callable_id.0 < usize::MAX,
        ensures
            package@ == PackageComputePropsView::of_item(
                callable_id,
                ItemComputePropsView::Callable(apps_view(&callable_compute_props.apps)),
            ),
            package.well_formed(),
    {
        let mut instance = PackagePartialComputeProps::default();
        let _ = fx_map_insert(
            &mut instance.items,
            callable_id.0,
            ItemComputeProps::Callable(callable_compute_props),
        );
        assert(instance@.items =~= Map::empty().insert(
            callable_id.0,
            ItemComputePropsView::Callable(apps_view(&callable_compute_props.apps)),
        ));
        instance
    }

    /// The partial package that says of one item that it is no callable.
    pub fn with_non_callable_item_compute_props(item_id: LocalItemId) -> (package: Self)
        requires
            item_id.0 < usize::MAX,
        ensures
            package@ == PackageComputePropsView::of_item(
                item_id,
                ItemComputePropsView::NonCallable,
            ),
            package.well_formed(),
    {
        let mut instance = PackagePartialComputeProps::default();
        let _ = fx_map_insert(&mut instance.items, item_id.0, ItemComputeProps::NonCallable);
        assert(instance@.items =~= Map::empty().insert(
            item_id.0,
            ItemComputePropsView::NonCallable,
        ));
        instance
    }
}

/// The compute properties of a package of the store, or none where the store
/// lacks the package.
pub open spec fn package_or_empty(
    store: Map<usize, PackageComputePropsView>,
    package: usize,
) -> PackageComputePropsView {
    if store.contains_key(package) {
        store[package]
    } else {
        PackageComputePropsView::empty()
    }
}

/// The store that holds, package by package, the compute properties of `store`
/// extended by those of `partial`: what `store` has for an element stays.
pub open spec fn store_merged(
    store: Map<usize, PackageComputePropsView>,
    partial: Map<usize, PackageComputePropsView>,
) -> Map<usize, PackageComputePropsView> {
    Map::new(
        |p: usize| store.contains_key(p) || partial.contains_key(p),
        |p: usize| package_or_empty(store, p).merge(package_or_empty(partial, p)),
    )
}

/// The store that holds, package by package, the compute properties of `store`
/// replaced and extended by those of `partial`: what `partial` has for an
/// element stays.
pub open spec fn store_replaced(
    store: Map<usize, PackageComputePropsView>,
    partial: Map<usize, PackageComputePropsView>,
) -> Map<usize, PackageComputePropsView> {
    Map::new(
        |p: usize| store.contains_key(p) || partial.contains_key(p),
        |p: usize| package_or_empty(store, p).replaced_by(package_or_empty(partial, p)),
    )
}

/// The store once it has taken in the compute properties of `partial`, which
/// replace what the store has or not.
pub open spec fn store_taken_in(
    store: Map<usize, PackageComputePropsView>,
    partial: Map<usize, PackageComputePropsView>,
    replace: bool,
) -> Map<usize, PackageComputePropsView> {
    if replace {
        store_replaced(store, partial)
    } else {
        store_merged(store, partial)
    }
}

/// The compute properties that the analysis of one item yields.
#[derive(Debug)]
pub struct StorePartialComputeProps(FxHashMap<usize, PackagePartialComputeProps>);

impl View for StorePartialComputeProps {
    type V = Map<usize, PackageComputePropsView>;

    closed spec fn view(&self) -> Map<usize, PackageComputePropsView> {
        self.0@.map_values(|p: PackagePartialComputeProps| p@)
    }
}

impl Default for StorePartialComputeProps {
    fn default() -> (store: Self)
        ensures
            store@ == Map::<usize, PackageComputePropsView>::empty(),
            store.well_formed(),
    {
        let store = StorePartialComputeProps(fx_map_new());
        assert(store@ =~= Map::<usize, PackageComputePropsView>::empty());
        store
    }
}

impl StorePartialComputeProps {
    /// Every key of the partial store can be a key of an `IndexMap`.
    pub closed spec fn well_formed(&self) -> bool {
        &&& keys_fit(self.0@)
        &&& forall|p: usize| #[trigger] self.0@.contains_key(p) ==> self.0@[p].well_formed()
    }

    /// The partial store that holds the properties of one callable.
    pub fn with_callable_compute_props(
        package_id: PackageId,
        callable_id: LocalItemId,
        callable_compute_props: CallableComputeProps,
    ) -> (store: Self)
        requires
            package_id.0 < usize::MAX,
            callable_id.0 < usize::MAX,
        ensures
            store@ == Map::<usize, PackageComputePropsView>::empty().insert(
                package_id.0,
                PackageComputePropsView::of_item(
                    callable_id,
                    ItemComputePropsView::Callable(apps_view(&callable_compute_props.apps)),
                ),
            ),
            store.well_formed(),
    {
        let mut instance = StorePartialComputeProps::default();
        let partial_package_compute_props = PackagePartialComputeProps::with_callable_compute_props(
            callable_id,
            callable_compute_props,
        );
        let _ = fx_map_insert(&mut instance.0, package_id.0, partial_package_compute_props);
        assert(instance@ =~= Map::<usize, PackageComputePropsView>::empty().insert(
            package_id.0,
            partial_package_compute_props@,
        ));
        instance
    }

    /// The partial store that says of one item that it is no callable.
    pub fn with_non_callable_item_compute_props(package_id: PackageId, item_id: LocalItemId) -> (store:
        Self)
        requires
            package_id.0 < usize::MAX,
            item_id.0 < usize::MAX,
        ensures
            store@ == Map::<usize, PackageComputePropsView>::empty().insert(
                package_id.0,
                PackageComputePropsView::of_item(item_id, ItemComputePropsView::NonCallable),
            ),
            store.well_formed(),
    {
        let mut instance = StorePartialComputeProps::default();
        let partial_package_compute_props =
            PackagePartialComputeProps::with_non_callable_item_compute_props(item_id);
        let _ = fx_map_insert(&mut instance.0, package_id.0, partial_package_compute_props);
        assert(instance@ =~= Map::<usize, PackageComputePropsView>::empty().insert(
            package_id.0,
            partial_package_compute_props@,
        ));
        instance
    }
}

/// The compute properties of all packages.
#[derive(Debug)]
pub struct StoreComputeProps(IndexMap<PackageComputeProps>);

impl View for StoreComputeProps {
    type V = Map<usize, PackageComputePropsView>;

    closed spec fn view(&self) -> Map<usize, PackageComputePropsView> {
        self.0@.map_values(|p: PackageComputeProps| p@)
    }
}

impl StoreComputeProps {
    /// The store without packages, with no room taken for keys.
    pub fn new() -> (store: Self)
        ensures
            store@ == Map::<usize, PackageComputePropsView>::empty(),
            store.spec_bound() == 0,
    {
        let store = StoreComputeProps(IndexMap::new());
        assert(store@ =~= Map::<usize, PackageComputePropsView>::empty());
        store
    }

    /// One more than the largest key of a package that the store may have.
    pub closed spec fn spec_bound(&self) -> nat {
        self.0.spec_bound()
    }

    /// One more than the largest key of a package that the store may have.
    pub fn bound(&self) -> (bound: usize)
        ensures
            bound == self.spec_bound(),
            forall|package: usize| #[trigger] self@.contains_key(package) ==> package < bound,
    {
        proof {
            self.0.lemma_keys_below_bound();
        }
        self.0.bound()
    }

    /// Whether the store has compute properties for the item.
    pub open spec fn spec_has_item(&self, package_id: PackageId, item_id: LocalItemId) -> bool {
        self@.contains_key(package_id.0) && self@[package_id.0].items.contains_key(item_id.0)
    }

    /// Whether the store has compute properties for the item.
    pub fn has_item(&self, package_id: PackageId, item_id: LocalItemId) -> (found: bool)
        ensures
            found == self.spec_has_item(package_id, item_id),
    {
        if let Some(package) = self.0.get(package_id.0) {
            return package.items.contains_key(item_id.0);
        }
        false
    }

    /// The compute properties of the item, if the store has them.
    pub fn get_item(&self, package_id: PackageId, item_id: LocalItemId) -> (found: Option<
        &ItemComputeProps,
    >)
        ensures
            found is Some <==> self.spec_has_item(package_id, item_id),
            found is Some ==> found->0@ == self@[package_id.0].items[item_id.0],
    {
        match self.0.get(package_id.0) {
            Some(package) => package.items.get(item_id.0),
            None => None,
        }
    }

    /// The compute properties of the package, if the store has the package.
    pub fn get_package(&self, package_id: PackageId) -> (found: Option<&PackageComputeProps>)
        ensures
            found is Some <==> self@.contains_key(package_id.0),
            found is Some ==> found->0@ == self@[package_id.0],
    {
        self.0.get(package_id.0)
    }

    /// Moves the compute properties of a partial store into this store, where
    /// they replace what the store has for an element or not.
    fn take_in(&mut self, store_partial_compute_props: &mut StorePartialComputeProps, replace: bool)
        requires
            old(store_partial_compute_props).well_formed(),
        ensures
            final(self)@ == store_taken_in(
                old(self)@,
                old(store_partial_compute_props)@,
                replace,
            ),
            final(store_partial_compute_props)@ == Map::<usize, PackageComputePropsView>::empty(),
            final(store_partial_compute_props).well_formed(),
    {
        let mut pairs = fx_map_drain(&mut store_partial_compute_props.0);
        assert(store_partial_compute_props.0@ =~= Map::<
            usize,
            PackagePartialComputeProps,
        >::empty());
        assert(store_partial_compute_props@ =~= Map::<usize, PackageComputePropsView>::empty());
        let ghost all = pairs@;
        let ghost base = self@;
        let ghost extra = old(store_partial_compute_props).0@;
        while pairs.len() > 0
            invariant
                keys_fit(extra),
                forall|p: usize| #[trigger] extra.contains_key(p) ==> extra[p].well_formed(),
                pairs@.len() <= all.len(),
                pairs@ == all.take(pairs@.len() as int),
                forall|i: int|
                    0 <= i < all.len() ==> extra.contains_key((#[trigger] all[i]).0)
                        && extra[all[i].0] == all[i].1,
                forall|i: int, j: int|
                    0 <= i < j < all.len() ==> (#[trigger] all[i]).0 != (#[trigger] all[j]).0,
                forall|k: usize| #[trigger]
                    self@.contains_key(k) <==> base.contains_key(k) || has_key_from(
                        all,
                        k,
                        pairs@.len() as int,
                    ),
                forall|i: int|
                    pairs@.len() <= i < all.len() ==> self@[(#[trigger] all[i]).0]
                        == package_or_empty(base, all[i].0).taken_in(all[i].1@, replace),
                forall|k: usize|
                    base.contains_key(k) && !has_key_from(all, k, pairs@.len() as int)
                        ==> #[trigger] self@[k] == base[k],
            decreases pairs@.len(),
        {
            let ghost n = pairs@.len() - 1;
            let ghost before = self@;
            let pair = pairs.pop();
            match pair {
                Some((package_id, package_partial)) => {
                    let mut package_partial = package_partial;
                    assert(all[n] == (package_id, package_partial));
                    assert(extra.contains_key(all[n].0));
                    assert forall|k: usize|
                        has_key_from(all, k, n) <==> (k == package_id || #[trigger] has_key_from(
                            all,
                            k,
                            n + 1,
                        )) by {
                        lemma_has_key_from_step(all, k, n);
                    }
                    assert(!has_key_from(all, package_id, n + 1)) by {
                        if has_key_from(all, package_id, n + 1) {
                            let i = choose|i: int|
                                #![trigger all[i]]
                                n + 1 <= i < all.len() && all[i].0 == package_id;
                            assert(all[n].0 != all[i].0);
                        }
                    }
                    assert(before.contains_key(package_id) <==> base.contains_key(package_id));
                    assert(base.contains_key(package_id) ==> before[package_id]
                        == base[package_id]);
                    assert(before.contains_key(package_id) <==> self.0@.contains_key(package_id));
                    let removed = self.0.remove(package_id);
                    let mut package = match removed {
                        Some(p) => p,
                        None => PackageComputeProps::default(),
                    };
                    assert(package@ == package_or_empty(base, package_id));
                    package.take_in(&mut package_partial, replace);
                    self.0.insert(package_id, package);
                    assert(self@ =~= before.insert(package_id, package@));
                },
                None => {},
            }
        }
        assert(self@ =~= store_taken_in(base, old(store_partial_compute_props)@, replace)) by {
            let partial = old(store_partial_compute_props)@;
            assert forall|k: usize| extra.contains_key(k) <==> #[trigger] has_key_from(
                all,
                k,
                0,
            ) by {
                if has_key_from(all, k, 0) {
                    let i = choose|i: int| #![trigger all[i]] 0 <= i < all.len() && all[i].0 == k;
                    assert(extra.contains_key(all[i].0));
                }
            }
            assert forall|k: usize| extra.contains_key(k) implies self@[k] == store_taken_in(
                base,
                partial,
                replace,
            )[k] by {
                let i = choose|i: int| #![trigger all[i]] 0 <= i < all.len() && all[i].0 == k;
                assert(self@[all[i].0] == package_or_empty(base, all[i].0).taken_in(all[i].1@, replace));
            }
            assert forall|k: usize|
                base.contains_key(k) && !extra.contains_key(k) implies self@[k] == store_taken_in(
                base,
                partial,
                replace,
            )[k] by {
                lemma_merge_empty(base[k]);
            }
        }
    }

    /// Moves the compute properties of a partial store into this store. Where
    /// both have an element, the properties that this store has for it stay,
    /// and those of the partial store are dropped.
    pub fn incorporate_partial_compute_props(
        &mut self,
        store_partial_compute_props: &mut StorePartialComputeProps,
    )
        requires
            old(store_partial_compute_props).well_formed(),
        ensures
            final(self)@ == store_merged(old(self)@, old(store_partial_compute_props)@),
            final(store_partial_compute_props)@ == Map::<usize, PackageComputePropsView>::empty(),
            final(store_partial_compute_props).well_formed(),
    {
        self.take_in(store_partial_compute_props, false);
    }

    /// Moves the compute properties of a partial store into this store. Where
    /// both have an element, the properties of the partial store replace
    /// those that this store has for it.
    pub fn replace_with_partial_compute_props(
        &mut self,
        store_partial_compute_props: &mut StorePartialComputeProps,
    )
        requires
            old(store_partial_compute_props).well_formed(),
        ensures
            final(self)@ == store_replaced(old(self)@, old(store_partial_compute_props)@),
            final(store_partial_compute_props)@ == Map::<usize, PackageComputePropsView>::empty(),
            final(store_partial_compute_props).well_formed(),
    {
        self.take_in(store_partial_compute_props, true);
    }
}

} // verus!
