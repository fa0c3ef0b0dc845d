//! Cells that a store lives in.

use vstd::prelude::*;

use crate::store::{ContextStore, StoreView};
use crate::value::TypedValue;

verus! {

/// A place for the active store. The store is taken out while it is worked on;
/// a cell without a store is busy.
pub struct ContextCell<V> {
    pub store: Option<ContextStore<TypedValue<V>>>,
}

impl<V> View for ContextCell<V> {
    type V = Option<StoreView<TypedValue<V>>>;

    open spec fn view(&self) -> Option<StoreView<TypedValue<V>>> {
        match self.store {
            Some(store) => Some(store@),
            None => None,
        }
    }
}

impl<V> ContextCell<V> {
    /// A cell with an empty store.
    pub fn new() -> (r: Self)
        ensures
            r@ == Some(StoreView::<TypedValue<V>>::root()),
    {
        ContextCell { store: Some(ContextStore::new()) }
    }

    /// A cell with the given store.
    pub fn with_store(store: ContextStore<TypedValue<V>>) -> (r: Self)
        ensures
            r@ == Some(store@),
    {
        ContextCell { store: Some(store) }
    }

    /// Work on the store, which is out of the cell meanwhile. Gives `None` where
    /// the cell is busy.
    pub fn try_apply<R, F>(&mut self, f: F) -> (r: Option<R>) where
        F: FnOnce(ContextStore<TypedValue<V>>) -> (ContextStore<TypedValue<V>>, R),

        requires
            old(self).store matches Some(store) ==> f.requires((store,)),
        ensures
            match old(self).store {
                Some(before) => final(self).store is Some && r is Some && f.ensures(
                    (before,),
                    (final(self).store->0, r->0),
                ),
                None => final(self).store is None && r is None,
            },
    {
        match self.store.take() {
            Some(store) => {
                let (store, result) = f(store);
                self.store = Some(store);
                Some(result)
            },
            None => None,
        }
    }

    /// Put a store in place of whatever the cell holds, and give that out.
    pub fn replace(&mut self, store: ContextStore<TypedValue<V>>) -> (r: Option<
        ContextStore<TypedValue<V>>,
    >)
        ensures
            final(self).store == Some(store),
            r == old(self).store,
    {
        let mut other: Option<ContextStore<TypedValue<V>>> = Some(store);
        std::mem::swap(&mut other, &mut self.store);
        other
    }
}

/// The cell of the running task, where there is one.
pub struct TaskSlot<V> {
    pub cell: Option<ContextCell<V>>,
}

impl<V> View for TaskSlot<V> {
    type V = Option<Option<StoreView<TypedValue<V>>>>;

    open spec fn view(&self) -> Option<Option<StoreView<TypedValue<V>>>> {
        match self.cell {
            Some(cell) => Some(cell@),
            None => None,
        }
    }
}

/// The store of the running task; there is none without a task, and none while
/// the cell is busy.
pub open spec fn task_store<V>(
    slot: Option<Option<StoreView<TypedValue<V>>>>,
) -> Option<StoreView<TypedValue<V>>> {
    match slot {
        Some(cell) => cell,
        None => None,
    }
}

/// What the slot of a task holds when its store is replaced; without a task
/// there is nothing to replace.
pub open spec fn with_task_store<V>(
    slot: Option<Option<StoreView<TypedValue<V>>>>,
    store: Option<StoreView<TypedValue<V>>>,
) -> Option<Option<StoreView<TypedValue<V>>>> {
    match slot {
        Some(_) => Some(store),
        None => None,
    }
}

impl<V> TaskSlot<V> {
    /// The slot where no task runs.
    pub fn none() -> (r: Self)
        ensures
            r@ == None::<Option<StoreView<TypedValue<V>>>>,
    {
        TaskSlot { cell: None }
    }

    /// The slot of a task that starts with the given store.
    pub fn with_store(store: ContextStore<TypedValue<V>>) -> (r: Self)
        ensures
            r@ == Some(Some(store@)),
    {
        TaskSlot { cell: Some(ContextCell::with_store(store)) }
    }
}

/// What is put into the cell of a task is found there; outside a task there is
/// nothing to put anything into.
pub proof fn law_task_cell_keeps_what_is_put_there<V>(
    slot: Option<Option<StoreView<TypedValue<V>>>>,
    cell: Option<StoreView<TypedValue<V>>>,
)
    ensures
        slot is Some ==> with_task_store(slot, cell) == Some(cell),
        slot is None ==> with_task_store(slot, cell) is None,
        task_store(Some(cell)) == cell,
        task_store::<V>(None) is None,
{
}

} // verus!
