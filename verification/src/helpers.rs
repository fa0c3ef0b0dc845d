//! Forks as whole stores.

use vstd::prelude::*;

use crate::cell::ContextCell;
use crate::store::{ContextStore, StoreView};
use crate::value::TypedValue;

verus! {

/// A store forked from a context, or nothing where there was none.
pub struct ForkHandle<V>(pub Option<ContextStore<TypedValue<V>>>);

impl<V> ForkHandle<V> {
    /// The store that a task starts with.
    pub open spec fn store_view(&self) -> StoreView<TypedValue<V>> {
        match self.0 {
            Some(store) => store@,
            None => StoreView::root(),
        }
    }

    /// The store that a task starts with.
    pub fn into_store(self) -> (r: ContextStore<TypedValue<V>>)
        ensures
            r@ == self.store_view(),
    {
        match self.0 {
            Some(store) => store,
            None => ContextStore::new(),
        }
    }
}

impl<V> Clone for ForkHandle<V> {
    fn clone(&self) -> (r: Self)
        ensures
            r.store_view() == self.store_view(),
            r.0 is Some == self.0 is Some,
    {
        match &self.0 {
            Some(store) => ForkHandle(Some(store.duplicate())),
            None => ForkHandle(None),
        }
    }
}

/// Fork the context in a cell.
pub fn fork<V>(cell: &ContextCell<V>) -> (r: ForkHandle<V>)
    ensures
        r.store_view() == (match cell@ {
            Some(store) => store.fork(),
            None => StoreView::root(),
        }),
        r.0 is Some == cell@ is Some,
{
    ForkHandle(crate::sync_ctx::fork(cell))
}

} // verus!
