//! The guards of the scopes that were entered for spans.

use vstd::prelude::*;

use crate::scope::ScopeGuard;

verus! {

/// Guards by the number of their span, in the order in which they came.
pub struct GuardStack {
    guards: Vec<(u64, ScopeGuard)>,
}

/// The spans and the depths of their guards.
pub open spec fn guard_views(guards: Seq<(u64, ScopeGuard)>) -> Seq<(u64, usize)> {
    Seq::new(guards.len(), |i: int| (guards[i].0, guards[i].1.depth()))
}

/// Whether a position holds the most recent guard of a span.
pub open spec fn is_latest(guards: Seq<(u64, usize)>, id: u64, at: int) -> bool {
    &&& 0 <= at < guards.len()
    &&& guards[at].0 == id
    &&& forall|j: int| at < j < guards.len() ==> (#[trigger] guards[j]).0 != id
}

impl View for GuardStack {
    type V = Seq<(u64, usize)>;

    closed spec fn view(&self) -> Seq<(u64, usize)> {
        guard_views(self.guards@)
    }
}

impl GuardStack {
    /// No guards.
    pub fn new() -> (r: Self)
        ensures
            r@ == Seq::<(u64, usize)>::empty(),
    {
        let r = GuardStack { guards: Vec::new() };
        assert(r@ =~= Seq::<(u64, usize)>::empty());
        r
    }

    /// The number of guards.
    pub fn len(&self) -> (r: usize)
        ensures
            r == self@.len(),
    {
        self.guards.len()
    }

    /// Keep the guard of a span.
    pub fn push_guard(&mut self, id: u64, guard: ScopeGuard)
        ensures
            final(self)@ == old(self)@.push((id, guard.depth())),
    {
        let ghost before = self@;
        self.guards.push((id, guard));
        assert(self@ =~= before.push((id, guard.depth())));
    }

    /// Give out the most recent guard of a span. A span without a guard changes
    /// nothing.
    pub fn pop_guard(&mut self, id: u64) -> (r: Option<ScopeGuard>)
        ensures
            match r {
                Some(guard) => exists|at: int| #[trigger]
                    is_latest(old(self)@, id, at) && final(self)@ == old(self)@.remove(at)
                        && guard.depth() == old(self)@[at].1,
                None => final(self)@ == old(self)@ && forall|j: int|
                    0 <= j < old(self)@.len() ==> (#[trigger] old(self)@[j]).0 != id,
            },
    {
        let ghost before = self@;
        let mut i: usize = self.guards.len();
        while i > 0
            invariant
                self@ == before,
                before == old(self)@,
                i <= self.guards@.len(),
                forall|j: int| i <= j < before.len() ==> (#[trigger] before[j]).0 != id,
            decreases i,
        {
            i = i - 1;
            if self.guards[i].0 == id {
                let slot = self.guards.remove(i);
                proof {
                    assert(before[i as int].0 == id);
                    assert(is_latest(before, id, i as int));
                    assert(self@ =~= before.remove(i as int));
                }
                return Some(slot.1);
            }
        }
        None
    }
}

/// A guard that was just kept is the one that comes out for its span, and what
/// was there before stays.
pub proof fn law_latest_guard_comes_out_first(
    guards: Seq<(u64, usize)>,
    id: u64,
    depth: usize,
    at: int,
)
    requires
        is_latest(guards.push((id, depth)), id, at),
    ensures
        at == guards.len(),
        guards.push((id, depth))[at].1 == depth,
        guards.push((id, depth)).remove(at) == guards,
{
    let after = guards.push((id, depth));
    assert(after[guards.len() as int].0 == id);
    assert(after.remove(guards.len() as int) =~= guards);
}

} // verus!
