//! Runtime properties by element: a plainer record of what running an element
//! requires, with one flag for being quantum in place of the quantum sources.
//!
//! A table of this record has a slot for each application, and a slot may be
//! empty. A new table has no slot and nothing adds one yet, so a lookup, which
//! is for an application that has a slot, states what it will give once
//! tables are filled.

use crate::capability::CapabilitySet;
use crate::capability::RuntimeCapability;
use crate::compute_props::AppIdx;
use crate::index_map::IndexMap;
use vstd::prelude::*;

verus! {

/// What running an element requires, and whether the element is quantum.
#[derive(Debug)]
pub struct RtProps {
    pub is_quantum: bool,
    pub caps: CapabilitySet,
}

/// The mathematical value of an `RtProps`.
pub struct RtPropsView {
    pub is_quantum: bool,
    pub caps: Set<RuntimeCapability>,
}

impl View for RtProps {
    type V = RtPropsView;

    open spec fn view(&self) -> RtPropsView {
        RtPropsView { is_quantum: self.is_quantum, caps: self.caps@ }
    }
}

/// The mathematical value of a slot of a table.
pub open spec fn slot_view(slot: Option<RtProps>) -> Option<RtPropsView> {
    match slot {
        Some(props) => Some(props@),
        None => None,
    }
}

/// The runtime properties of a callable, by application.
#[derive(Debug)]
pub struct AppsTable {
    apps: Vec<Option<RtProps>>,
}

impl View for AppsTable {
    type V = Seq<Option<RtPropsView>>;

    closed spec fn view(&self) -> Seq<Option<RtPropsView>> {
        Seq::new(self.apps@.len(), |i: int| slot_view(self.apps@[i]))
    }
}

impl AppsTable {
    /// A table without slots. The capacity is room set aside, not slots.
    pub fn new(capacity: usize) -> (table: Self)
        ensures
            table@ == Seq::<Option<RtPropsView>>::empty(),
    {
        let table = AppsTable { apps: Vec::with_capacity(capacity) };
        assert(table@ =~= Seq::<Option<RtPropsView>>::empty());
        table
    }

    /// The number of slots of the table.
    pub fn len(&self) -> (len: usize)
        ensures
            len == self@.len(),
    {
        self.apps.len()
    }

    /// The runtime properties in the slot of application `index`, if the slot
    /// holds any.
    pub fn get(&self, index: AppIdx) -> (app: Option<&RtProps>)
        requires
            index.0 < self@.len(),
        ensures
            app is Some <==> self@[index.0 as int] is Some,
            app is Some ==> app->0@ == self@[index.0 as int]->0,
    {
        match &self.apps[index.0] {
            Some(props) => Some(props),
            None => None,
        }
    }

    /// The runtime properties in the slot of application `index`, to be
    /// changed in place, if the slot holds any.
    pub fn get_mut(&mut self, index: AppIdx) -> (app: Option<&mut RtProps>)
        requires
            index.0 < old(self)@.len(),
        ensures
            app is Some <==> old(self)@[index.0 as int] is Some,
            app is Some ==> (*app->0)@ == old(self)@[index.0 as int]->0,
            app is Some ==> final(self)@ == old(self)@.update(
                index.0 as int,
                Some((*final(app->0))@),
            ),
            app is None ==> final(self)@ == old(self)@,
    {
        match &mut self.apps[index.0] {
            Some(props) => Some(props),
            None => None,
        }
    }
}

/// The runtime properties of a callable.
#[derive(Debug)]
pub struct CallableRtProps {
    pub apps_table: AppsTable,
}

/// The runtime properties of an item.
#[derive(Debug)]
pub enum ItemRtProps {
    NonCallable,
    Callable(CallableRtProps),
}

/// The runtime properties of a block, a statement, an expression or a
/// pattern.
#[derive(Debug)]
pub enum InnerElmtRtProps {
    AppDependent(AppsTable),
    AppIndependent(RtProps),
}

/// The runtime properties of the elements of a package. An element that was
/// looked at and has none is kept with nothing.
#[derive(Debug)]
pub struct StoreRtProps {
    pub items: IndexMap<Option<ItemRtProps>>,
    pub blocks: IndexMap<Option<InnerElmtRtProps>>,
    pub stmts: IndexMap<Option<InnerElmtRtProps>>,
    pub exprs: IndexMap<Option<InnerElmtRtProps>>,
    pub pats: IndexMap<Option<InnerElmtRtProps>>,
}

} // verus!
