//! Choosing between the context of the task and that of the thread.
//!
//! Inside a task the cell of the task is worked on, unless the thread's is
//! asked for; outside a task that of the thread. While a thread shuts down it
//! has no cell any more, and the context is as if it were busy.

use std::sync::Arc;
use vstd::prelude::*;

use crate::cell::{ContextCell, TaskSlot};
use crate::config::Config;
use crate::context;
use crate::fork::ForkHandle;
use crate::key_map::KeyMap;
use crate::registry::Registry;
use crate::scope::ScopeGuard;
use crate::store::StoreView;
use crate::value::TypedValue;

verus! {

/// The cells within reach.
pub struct Contexts<V> {
    /// The cell of the thread; none once the thread shuts down.
    pub thread: Option<ContextCell<V>>,
    /// The cell of the running task.
    pub task: TaskSlot<V>,
    /// How many requests for the thread's cell are in force.
    pub force_thread_local_depth: u32,
}

/// What the cells within reach hold.
#[verifier::ext_equal]
#[verifier::reject_recursive_types(V)]
pub struct ContextsView<V> {
    pub thread: Option<Option<StoreView<TypedValue<V>>>>,
    pub task: Option<Option<StoreView<TypedValue<V>>>>,
    pub forced: nat,
}

impl<V> View for Contexts<V> {
    type V = ContextsView<V>;

    open spec fn view(&self) -> ContextsView<V> {
        ContextsView {
            thread: match self.thread {
                Some(cell) => Some(cell@),
                None => None,
            },
            task: self.task@,
            forced: self.force_thread_local_depth as nat,
        }
    }
}

impl<V> ContextsView<V> {
    /// Whether the cell of the task is the one that is worked on.
    pub open spec fn uses_task(self) -> bool {
        self.forced == 0 && self.task is Some
    }

    /// The store that is worked on; none where it is busy or out of reach.
    pub open spec fn current(self) -> Option<StoreView<TypedValue<V>>> {
        if self.uses_task() {
            self.task->0
        } else {
            match self.thread {
                Some(cell) => cell,
                None => None,
            }
        }
    }

    /// The cells when the one that is worked on holds something else.
    pub open spec fn with_current(self, cell: Option<StoreView<TypedValue<V>>>) -> Self {
        if self.uses_task() {
            ContextsView { task: Some(cell), ..self }
        } else {
            match self.thread {
                Some(_) => ContextsView { thread: Some(cell), ..self },
                None => self,
            }
        }
    }
}

/// Which cell is worked on.
#[derive(Clone, Copy)]
enum Place {
    Task,
    Thread,
    Gone,
}

impl<V> Contexts<V> {
    /// The contexts of a thread that just started.
    pub fn new() -> (r: Self)
        ensures
            r@ == (ContextsView::<V> {
                thread: Some(Some(StoreView::root())),
                task: None,
                forced: 0,
            }),
    {
        Contexts {
            thread: Some(ContextCell::new()),
            task: TaskSlot::none(),
            force_thread_local_depth: 0,
        }
    }

    spec fn place_view(&self) -> Place {
        if self@.uses_task() {
            Place::Task
        } else if self.thread is Some {
            Place::Thread
        } else {
            Place::Gone
        }
    }

    fn place(&self) -> (r: Place)
        ensures
            r == self.place_view(),
    {
        if self.force_thread_local_depth == 0 && self.task.cell.is_some() {
            Place::Task
        } else if self.thread.is_some() {
            Place::Thread
        } else {
            Place::Gone
        }
    }

    /// Take the cell that is worked on out of its place. Where none is within
    /// reach a busy one stands in for it.
    fn take_cell(&mut self, place: Place) -> (r: ContextCell<V>)
        requires
            place == old(self).place_view(),
        ensures
            r@ == old(self)@.current(),
            final(self).force_thread_local_depth == old(self).force_thread_local_depth,
            place is Task ==> final(self).thread == old(self).thread,
            place !is Task ==> final(self).task == old(self).task,
            place is Gone ==> final(self).thread is None,
    {
        match place {
            Place::Task => match self.task.cell.take() {
                Some(cell) => cell,
                None => ContextCell { store: None },
            },
            Place::Thread => match self.thread.take() {
                Some(cell) => cell,
                None => ContextCell { store: None },
            },
            Place::Gone => ContextCell { store: None },
        }
    }

    /// Put a cell back into its place.
    fn put_cell(&mut self, place: Place, cell: ContextCell<V>)
        ensures
            final(self).force_thread_local_depth == old(self).force_thread_local_depth,
            match place {
                Place::Task => final(self).task.cell == Some(cell) && final(self).thread == old(
                    self,
                ).thread,
                Place::Thread => final(self).thread == Some(cell) && final(self).task == old(
                    self,
                ).task,
                Place::Gone => *final(self) == *old(self),
            },
    {
        match place {
            Place::Task => {
                self.task.cell = Some(cell);
            },
            Place::Thread => {
                self.thread = Some(cell);
            },
            Place::Gone => {},
        }
    }

    /// The cell that is worked on.
    fn current_cell(&self) -> (r: Option<&ContextCell<V>>)
        ensures
            match r {
                Some(cell) => cell@ == self@.current(),
                None => self@.current() is None,
            },
    {
        match self.place() {
            Place::Task => self.task.cell.as_ref(),
            Place::Thread => self.thread.as_ref(),
            Place::Gone => None,
        }
    }
}

/// Enter a scope without a name. Where the context is busy the guard does
/// nothing.
pub fn enter_scope<V, E, D, M>(
    contexts: &mut Contexts<V>,
    registry: &Registry<'_, E, D, M>,
) -> (r: ScopeGuard)
    requires
        context::can_enter(old(contexts)@.current()),
    ensures
        final(contexts)@ == old(contexts)@.with_current(
            context::entered(
                old(contexts)@.current(),
                crate::registry::cached_set(registry@),
                None,
            ),
        ),
        r.depth() == context::entered_depth(old(contexts)@.current()),
{
    let place = contexts.place();
    let mut cell = contexts.take_cell(place);
    let guard = context::enter(&mut cell, registry, None);
    contexts.put_cell(place, cell);
    guard
}

/// Enter a named scope. Where the context is busy the guard does nothing.
pub fn enter_named_scope<V, E, D, M>(
    contexts: &mut Contexts<V>,
    registry: &Registry<'_, E, D, M>,
    name: String,
) -> (r: ScopeGuard)
    requires
        context::can_enter(old(contexts)@.current()),
    ensures
        final(contexts)@ == old(contexts)@.with_current(
            context::entered(
                old(contexts)@.current(),
                crate::registry::cached_set(registry@),
                Some(name@),
            ),
        ),
        r.depth() == context::entered_depth(old(contexts)@.current()),
{
    let place = contexts.place();
    let mut cell = contexts.take_cell(place);
    let guard = context::enter(&mut cell, registry, Some(name));
    contexts.put_cell(place, cell);
    guard
}

/// Leave the scope at a depth. The depth of a guard that does nothing is passed
/// over.
pub fn leave_scope<V>(contexts: &mut Contexts<V>, expected_depth: usize)
    ensures
        final(contexts)@ == old(contexts)@.with_current(
            context::left(old(contexts)@.current(), expected_depth),
        ),
{
    let place = contexts.place();
    let mut cell = contexts.take_cell(place);
    context::leave_scope(&mut cell, expected_depth);
    contexts.put_cell(place, cell);
}

/// What was done to the context that is worked on was done inside a scope that
/// was entered there, and the other one was left alone.
pub open spec fn stays_inside<V>(after: ContextsView<V>, before: ContextsView<V>) -> bool {
    &&& after.with_current(before.current()) == before
    &&& match before.current() {
        Some(store) => after.current() is Some && crate::store_laws::inside(
            after.current()->0,
            store,
        ),
        None => after.current() is None,
    }
}

/// Run `f` in a new scope, and leave the scope when it is done. Where `f` stays
/// inside that scope, nothing of what it did is left.
pub fn scope<V, E, D, M, R, F>(
    contexts: Contexts<V>,
    registry: &Registry<'_, E, D, M>,
    f: F,
) -> (r: (Contexts<V>, R)) where F: FnOnce(Contexts<V>) -> (Contexts<V>, R)
    requires
        context::can_enter(contexts@.current()),
        forall|inside: Contexts<V>| #[trigger]
            inside@ == contexts@.with_current(
                context::entered(
                    contexts@.current(),
                    crate::registry::cached_set(registry@),
                    None,
                ),
            ) ==> f.requires((inside,)),
    ensures
        exists|inside: Contexts<V>, after: (Contexts<V>, R)|
            {
                &&& inside@ == contexts@.with_current(
                    context::entered(
                        contexts@.current(),
                        crate::registry::cached_set(registry@),
                        None,
                    ),
                )
                &&& #[trigger] f.ensures((inside,), after)
                &&& r.1 == after.1
                &&& r.0@ == after.0@.with_current(
                    context::left(
                        after.0@.current(),
                        context::entered_depth(contexts@.current()),
                    ),
                )
            },
        (forall|inside: Contexts<V>, after: (Contexts<V>, R)|
            inside@ == contexts@.with_current(
                context::entered(
                    contexts@.current(),
                    crate::registry::cached_set(registry@),
                    None,
                ),
            ) && #[trigger] f.ensures((inside,), after) ==> stays_inside(after.0@, contexts@))
            ==> r.0@ == contexts@,
{
    let ghost before = contexts@;
    let mut contexts = contexts;
    let guard = enter_scope(&mut contexts, registry);
    let ghost inside = contexts;
    let after = f(contexts);
    assert(f.ensures((inside,), after));
    proof {
        if stays_inside(after.0@, before) {
            law_scope_leaves_no_trace(before, after.0@);
        }
    }
    let (mut contexts, result) = after;
    leave_scope(&mut contexts, guard.expected_depth());
    (contexts, result)
}

/// Leaving a scope brings back the contexts as they were when it was entered,
/// whatever was done inside it.
pub proof fn law_scope_leaves_no_trace<V>(before: ContextsView<V>, after: ContextsView<V>)
    requires
        stays_inside(after, before),
    ensures
        after.with_current(
            context::left(after.current(), context::entered_depth(before.current())),
        ) == before,
{
    match before.current() {
        Some(store) => {
            crate::store_laws::law_leaving_reverts(after.current()->0, store);
        },
        None => {},
    }
}

/// How deep the active scope lies; none where the context is busy.
pub fn current_depth<V>(contexts: &Contexts<V>) -> (r: Option<usize>)
    ensures
        match contexts@.current() {
            Some(store) => r is Some && r->0 == store.current.depth,
            None => r is None,
        },
{
    match contexts.current_cell() {
        Some(cell) => match &cell.store {
            Some(store) => Some(store.depth()),
            None => None,
        },
        None => None,
    }
}

/// A handle to the context; none where it is busy.
pub fn do_fork<V, E, D, M>(contexts: &Contexts<V>, registry: &Registry<'_, E, D, M>) -> (r: Option<
    ForkHandle<V>,
>)
    requires
        context::can_enter(contexts@.current()),
    ensures
        match contexts@.current() {
            Some(store) => r is Some && r->0@ == store.push(
                crate::registry::cached_set(registry@),
                None,
            ),
            None => r is None,
        },
{
    match contexts.current_cell() {
        Some(cell) => match &cell.store {
            Some(store) => Some(crate::fork::create_fork_handle(store, registry)),
            None => None,
        },
        None => None,
    }
}

/// The value of a key, as it is stored.
pub fn get_value<V>(contexts: &Contexts<V>, key: &str) -> (r: Option<Arc<TypedValue<V>>>)
    ensures
        r == context::value_in(contexts@.current(), key@),
{
    match contexts.current_cell() {
        Some(cell) => context::get_raw_value(cell, key),
        None => None,
    }
}

/// Set a value in the active scope, as it is stored.
pub fn set_value<V>(contexts: &mut Contexts<V>, key: &'static str, value: Arc<TypedValue<V>>)
    ensures
        final(contexts)@ == old(contexts)@.with_current(
            context::with_value(old(contexts)@.current(), key@, value),
        ),
{
    let place = contexts.place();
    let mut cell = contexts.take_cell(place);
    context::set_raw_value(&mut cell, key, value);
    contexts.put_cell(place, cell);
}

/// All keys that have a value, with their values.
pub fn collect_values<V>(contexts: &Contexts<V>) -> (r: KeyMap<Arc<TypedValue<V>>>)
    ensures
        r@ == (match contexts@.current() {
            Some(store) => store.effective(),
            None => Map::empty(),
        }),
{
    match contexts.current_cell() {
        Some(cell) => match &cell.store {
            Some(store) => store.collect_values(),
            None => KeyMap::new(),
        },
        None => KeyMap::new(),
    }
}

/// The names that lead to the active scope.
pub fn scope_chain<V>(contexts: &Contexts<V>, config: &Config) -> (r: Vec<String>)
    ensures
        crate::text::views(r@) == context::names_in(contexts@.current(), *config),
{
    match contexts.current_cell() {
        Some(cell) => context::scope_chain(cell, config),
        None => {
            let none: Vec<String> = Vec::new();
            assert(crate::text::views(none@) =~= Seq::<Seq<char>>::empty());
            none
        },
    }
}

/// Install names that came from elsewhere at the active scope.
pub fn set_remote_chain<V>(contexts: &mut Contexts<V>, chain: Vec<String>)
    ensures
        final(contexts)@ == old(contexts)@.with_current(
            match old(contexts)@.current() {
                Some(store) => Some(store.with_remote_chain(crate::text::views(chain@))),
                None => None,
            },
        ),
{
    let place = contexts.place();
    let mut cell = contexts.take_cell(place);
    match cell.store.take() {
        Some(store) => {
            let mut store = store;
            store.set_remote_chain(chain);
            cell.store = Some(store);
        },
        None => {},
    }
    contexts.put_cell(place, cell);
}

/// Ask for the cell of the thread, also inside a task.
pub fn begin_force<V>(contexts: &mut Contexts<V>)
    requires
        old(contexts)@.forced < u32::MAX,
    ensures
        final(contexts)@ == (ContextsView {
            forced: old(contexts)@.forced + 1,
            ..old(contexts)@
        }),
{
    contexts.force_thread_local_depth = contexts.force_thread_local_depth + 1;
}

/// Take back a request for the cell of the thread.
pub fn end_force<V>(contexts: &mut Contexts<V>)
    requires
        old(contexts)@.forced > 0,
    ensures
        final(contexts)@ == (ContextsView {
            forced: (old(contexts)@.forced - 1) as nat,
            ..old(contexts)@
        }),
{
    contexts.force_thread_local_depth = contexts.force_thread_local_depth - 1;
}

/// Run `f` on the cell of the thread, also inside a task. Requests nest; `f`
/// takes back those that it makes.
pub fn force_thread_local<V, R, F>(contexts: Contexts<V>, f: F) -> (r: (Contexts<V>, R)) where
    F: FnOnce(Contexts<V>) -> (Contexts<V>, R),

    requires
        contexts@.forced < u32::MAX,
        forall|inside: Contexts<V>| #[trigger]
            inside@ == (ContextsView { forced: contexts@.forced + 1, ..contexts@ }) ==> f.requires(
                (inside,),
            ),
        forall|inside: Contexts<V>, after: (Contexts<V>, R)| #[trigger]
            f.ensures((inside,), after) ==> after.0@.forced == inside@.forced,
    ensures
        exists|inside: Contexts<V>, after: (Contexts<V>, R)|
            {
                &&& inside@ == (ContextsView { forced: contexts@.forced + 1, ..contexts@ })
                &&& #[trigger] f.ensures((inside,), after)
                &&& r.1 == after.1
                &&& r.0@ == (ContextsView { forced: contexts@.forced, ..after.0@ })
            },
{
    let mut contexts = contexts;
    begin_force(&mut contexts);
    let ghost inside = contexts;
    let after = f(contexts);
    assert(f.ensures((inside,), after));
    let (mut contexts, result) = after;
    end_force(&mut contexts);
    (contexts, result)
}

/// While the thread's cell is asked for, nothing that is done touches the cell
/// of the task.
pub proof fn law_forced_work_leaves_the_task_alone<V>(
    contexts: ContextsView<V>,
    cell: Option<StoreView<TypedValue<V>>>,
)
    requires
        contexts.forced > 0,
    ensures
        contexts.with_current(cell).task == contexts.task,
{
}

/// Inside a task, nothing that is done touches the cell of the thread unless it
/// is asked for.
pub proof fn law_task_work_leaves_the_thread_alone<V>(
    contexts: ContextsView<V>,
    cell: Option<StoreView<TypedValue<V>>>,
)
    requires
        contexts.forced == 0,
        contexts.task is Some,
    ensures
        contexts.with_current(cell).thread == contexts.thread,
        contexts.with_current(cell).current() == cell,
{
}

/// The context that is worked on is that of the running task, unless there is
/// none or the thread's is asked for. What is put there is found there.
pub proof fn law_which_context_is_worked_on<V>(
    contexts: ContextsView<V>,
    cell: Option<StoreView<TypedValue<V>>>,
)
    ensures
        contexts.forced == 0 && contexts.task is Some ==> contexts.current() == contexts.task->0
            && contexts.with_current(cell) == (ContextsView { task: Some(cell), ..contexts }),
        (contexts.forced > 0 || contexts.task is None) && contexts.thread is Some
            ==> contexts.current() == contexts.thread->0 && contexts.with_current(cell) == (
        ContextsView { thread: Some(cell), ..contexts }),
        (contexts.forced > 0 || contexts.task is None) && contexts.thread is None
            ==> contexts.current() is None && contexts.with_current(cell) == contexts,
{
}

} // verus!
