//! Guards that bring back the store that another one replaced.

use vstd::prelude::*;

use crate::cell::ContextCell;
use crate::store::{ContextStore, StoreView};
use crate::value::TypedValue;

verus! {

/// Keeps what a cell held before a store was attached.
pub struct AttachGuard<V> {
    prev: Option<ContextStore<TypedValue<V>>>,
}

impl<V> View for AttachGuard<V> {
    type V = Option<StoreView<TypedValue<V>>>;

    closed spec fn view(&self) -> Option<StoreView<TypedValue<V>>> {
        match self.prev {
            Some(store) => Some(store@),
            None => None,
        }
    }
}

/// Attaching a store: what the cell and the guard hold then.
pub open spec fn attached<S>(cell: Option<S>, store: S) -> (Option<S>, Option<S>) {
    (Some(store), cell)
}

/// What the cell holds once a guard has put back what it kept.
pub open spec fn detached<S>(guard: Option<S>) -> Option<S> {
    guard
}

/// Attached stores nest: whatever each of them became, putting back the inner
/// and then the outer one brings back each time what was there before.
pub proof fn law_attached_stores_nest<S>(cell: Option<S>, outer: S, changed: Option<S>, inner: S)
    ensures
        ({
            let (first, outer_guard) = attached(cell, outer);
            let (second, inner_guard) = attached(changed, inner);
            &&& first == Some(outer)
            &&& second == Some(inner)
            &&& detached(inner_guard) == changed
            &&& detached(outer_guard) == cell
        }),
{
}

impl<V> AttachGuard<V> {
    /// A guard that keeps what a cell held.
    pub(crate) fn new(prev: Option<ContextStore<TypedValue<V>>>) -> (r: Self)
        ensures
            r@ == (match prev {
                Some(store) => Some(store@),
                None => None,
            }),
    {
        AttachGuard { prev }
    }

    /// Put back what the cell held before.
    pub fn detach(self, cell: &mut ContextCell<V>)
        ensures
            final(cell)@ == detached(self@),
    {
        cell.store = self.prev;
    }
}

} // verus!
