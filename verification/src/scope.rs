//! Scopes, as they are kept once a scope inside them is entered, and the guards
//! that leave them.

use std::sync::Arc;
use vstd::prelude::*;

use crate::key_map::KeyMap;
use crate::text::views;

verus! {

/// What one scope holds, apart from the scopes around it.
#[verifier::ext_equal]
#[verifier::reject_recursive_types(V)]
pub struct ScopeView<V> {
    /// The name, where the scope has one.
    pub name: Option<Seq<char>>,
    /// The values set in this scope.
    pub values: Map<Seq<char>, Arc<V>>,
    /// How deep the scope lies; the root scope lies at 1.
    pub depth: nat,
    /// The names that came with a context from elsewhere.
    pub remote_chain: Seq<Seq<char>>,
    /// The depth at which those names were installed.
    pub remote_base: nat,
    /// Scopes that lie this deep or less are hidden.
    pub barrier: Option<nat>,
}

impl<V> ScopeView<V> {
    /// The barrier does not hide the scope itself, and names from elsewhere were
    /// installed no deeper than here.
    pub open spec fn in_order(self) -> bool {
        &&& self.barrier matches Some(depth) ==> depth < self.depth
        &&& self.remote_base <= self.depth
    }
}

/// A frozen scope in the parent chain. It does not change once it is made.
pub struct ScopeNode<V> {
    pub name: Option<String>,
    pub values: KeyMap<Arc<V>>,
    pub parent: Option<Arc<ScopeNode<V>>>,
    pub depth: usize,
    pub remote_chain: Arc<Vec<String>>,
    pub remote_chain_base_depth: usize,
    pub saved_scope_barrier: Option<usize>,
}

/// The values of scopes that were left, kept until they can be dropped.
pub struct ScopeGarbage<V> {
    pub old_values: KeyMap<Arc<V>>,
}

/// Leaves the scope that it was made for. The depth that no scope has marks a
/// guard that does nothing.
pub struct ScopeGuard {
    expected_depth: usize,
}

impl ScopeGuard {
    /// The depth of the scope that the guard leaves.
    pub closed spec fn depth(&self) -> usize {
        self.expected_depth
    }

    /// A guard of the scope at a depth.
    pub fn new(expected_depth: usize) -> (r: Self)
        ensures
            r.depth() == expected_depth,
    {
        ScopeGuard { expected_depth }
    }

    /// A guard that does nothing.
    pub fn noop() -> (r: Self)
        ensures
            r.depth() == usize::MAX,
    {
        ScopeGuard { expected_depth: usize::MAX }
    }

    /// The depth of the scope that the guard leaves.
    pub fn expected_depth(&self) -> (r: usize)
        ensures
            r == self.depth(),
    {
        self.expected_depth
    }
}

/// The characters of an optional name.
pub open spec fn name_view(name: Option<String>) -> Option<Seq<char>> {
    match name {
        Some(text) => Some(text@),
        None => None,
    }
}

/// An optional depth as a number without bound.
pub open spec fn depth_view(depth: Option<usize>) -> Option<nat> {
    match depth {
        Some(d) => Some(d as nat),
        None => None,
    }
}

impl<V> ScopeNode<V> {
    /// What this scope holds.
    pub open spec fn scope_view(&self) -> ScopeView<V> {
        ScopeView {
            name: name_view(self.name),
            values: self.values@,
            depth: self.depth as nat,
            remote_chain: views(self.remote_chain@),
            remote_base: self.remote_chain_base_depth as nat,
            barrier: depth_view(self.saved_scope_barrier),
        }
    }
}

/// The scopes of a parent chain, the innermost first.
pub open spec fn chain_view<V>(chain: Option<Arc<ScopeNode<V>>>) -> Seq<ScopeView<V>>
    decreases chain,
{
    match chain {
        Some(node) => seq![node.scope_view()] + chain_view(node.parent),
        None => Seq::empty(),
    }
}

/// The scopes that lie deeper than a limit, up to the first that does not.
pub open spec fn visible<V>(scopes: Seq<ScopeView<V>>, limit: int) -> Seq<ScopeView<V>>
    decreases scopes.len(),
{
    if scopes.len() == 0 || scopes[0].depth <= limit {
        Seq::empty()
    } else {
        seq![scopes[0]] + visible(scopes.drop_first(), limit)
    }
}

/// The value for a key in the first scope that holds one.
pub open spec fn find<V>(scopes: Seq<ScopeView<V>>, key: Seq<char>) -> Option<Arc<V>>
    decreases scopes.len(),
{
    if scopes.len() == 0 {
        None
    } else if scopes[0].values.contains_key(key) {
        Some(scopes[0].values[key])
    } else {
        find(scopes.drop_first(), key)
    }
}

/// Every key that some scope holds, with its value in the first that does.
pub open spec fn effective<V>(scopes: Seq<ScopeView<V>>) -> Map<Seq<char>, Arc<V>> {
    Map::new(|key: Seq<char>| find(scopes, key) is Some, |key: Seq<char>| find(scopes, key)->0)
}

/// The name of a scope that lies deeper than a limit.
pub open spec fn name_above<V>(scope: ScopeView<V>, limit: int) -> Seq<Seq<char>> {
    match scope.name {
        Some(name) => if scope.depth > limit {
            seq![name]
        } else {
            Seq::empty()
        },
        None => Seq::empty(),
    }
}

/// The names of the scopes that lie deeper than a limit, the outermost first.
pub open spec fn names_above<V>(scopes: Seq<ScopeView<V>>, limit: int) -> Seq<Seq<char>>
    decreases scopes.len(),
{
    if scopes.len() == 0 {
        Seq::empty()
    } else {
        names_above(scopes.drop_first(), limit) + name_above(scopes[0], limit)
    }
}

/// The values of a list of scopes put together, where later scopes win.
pub open spec fn merged<V>(scopes: Seq<ScopeView<V>>) -> Map<Seq<char>, Arc<V>>
    decreases scopes.len(),
{
    if scopes.len() == 0 {
        Map::empty()
    } else {
        merged(scopes.drop_last()).union_prefer_right(scopes.last().values)
    }
}

/// Looking through one list of scopes and then another.
pub proof fn lemma_find_concat<V>(a: Seq<ScopeView<V>>, b: Seq<ScopeView<V>>, key: Seq<char>)
    ensures
        find(a + b, key) == (if find(a, key) is Some {
            find(a, key)
        } else {
            find(b, key)
        }),
    decreases a.len(),
{
    if a.len() == 0 {
        assert(a + b =~= b);
    } else {
        assert((a + b)[0] == a[0]);
        assert((a + b).drop_first() =~= a.drop_first() + b);
        lemma_find_concat(a.drop_first(), b, key);
    }
}

/// What two lists of scopes hold together: the first list wins.
pub proof fn lemma_effective_concat<V>(a: Seq<ScopeView<V>>, b: Seq<ScopeView<V>>)
    ensures
        effective(a + b) == effective(b).union_prefer_right(effective(a)),
{
    let left = effective(a + b);
    let right = effective(b).union_prefer_right(effective(a));
    assert forall|k: Seq<char>|
        #![trigger left.dom().contains(k)]
        #![trigger right.dom().contains(k)]
        left.dom().contains(k) == right.dom().contains(k) && (left.dom().contains(k) ==> left[k]
            == right[k]) by {
        lemma_find_concat(a, b, k);
    }
    assert(left =~= right);
}

/// What a single scope holds.
pub proof fn lemma_effective_single<V>(scope: ScopeView<V>)
    ensures
        effective(seq![scope]) == scope.values,
{
    assert forall|k: Seq<char>| find(seq![scope], k) == (if scope.values.contains_key(k) {
        Some(scope.values[k])
    } else {
        None
    }) by {
        assert(seq![scope].drop_first() =~= Seq::<ScopeView<V>>::empty());
        reveal_with_fuel(find, 2);
    }
    let left = effective(seq![scope]);
    assert forall|k: Seq<char>|
        #![trigger left.dom().contains(k)]
        #![trigger scope.values.dom().contains(k)]
        left.dom().contains(k) == scope.values.dom().contains(k) && (left.dom().contains(k)
            ==> left[k] == scope.values[k]) by {
        assert(find(seq![scope], k) == (if scope.values.contains_key(k) {
            Some(scope.values[k])
        } else {
            None
        }));
    }
    assert(left =~= scope.values);
}

/// The names in two lists of scopes: the second list lies outside the first.
pub proof fn lemma_names_concat<V>(a: Seq<ScopeView<V>>, b: Seq<ScopeView<V>>, limit: int)
    ensures
        names_above(a + b, limit) == names_above(b, limit) + names_above(a, limit),
    decreases a.len(),
{
    if a.len() == 0 {
        assert(a + b =~= b);
        assert(names_above(b, limit) + names_above(a, limit) =~= names_above(b, limit));
    } else {
        assert((a + b)[0] == a[0]);
        assert((a + b).drop_first() =~= a.drop_first() + b);
        lemma_names_concat(a.drop_first(), b, limit);
        assert(names_above(b, limit) + names_above(a.drop_first(), limit) + name_above(a[0], limit)
            =~= names_above(b, limit) + names_above(a, limit));
    }
}

/// Calls `Arc::try_unwrap`: gives out the value where no other handle shares
/// it, and the handle otherwise.
#[verifier::external_body]
pub(crate) fn arc_try_unwrap<T>(value: Arc<T>) -> (r: Result<T, Arc<T>>)
    ensures
        match r {
            Ok(inner) => inner == *value,
            Err(handle) => handle == value,
        },
{
    Arc::try_unwrap(value)
}

/// A second handle to a parent chain.
pub(crate) fn share_chain<V>(chain: &Option<Arc<ScopeNode<V>>>) -> (r: Option<Arc<ScopeNode<V>>>)
    ensures
        r == *chain,
{
    match chain {
        Some(node) => Some(Arc::clone(node)),
        None => None,
    }
}

/// A second copy of an optional name.
pub(crate) fn copy_name(name: &Option<String>) -> (r: Option<String>)
    ensures
        name_view(r) == name_view(*name),
{
    match name {
        Some(text) => Some(text.clone()),
        None => None,
    }
}

/// The value for a key in the first scope of a chain that holds one. Scopes
/// from the first one that lies at the limit or less are passed over.
pub(crate) fn find_in_chain<V>(
    chain: &Option<Arc<ScopeNode<V>>>,
    limit: usize,
    key: &str,
) -> (r: Option<Arc<V>>)
    ensures
        r == find(visible(chain_view(*chain), limit as int), key@),
{
    let mut node: &Option<Arc<ScopeNode<V>>> = chain;
    let ghost goal = find(visible(chain_view(*chain), limit as int), key@);
    loop
        invariant
            goal == find(visible(chain_view(*chain), limit as int), key@),
            goal == find(visible(chain_view(*node), limit as int), key@),
        decreases chain_view(*node).len(),
    {
        match node {
            None => {
                return None;
            },
            Some(inner) => {
                proof {
                    lemma_chain_head(*node, limit as int);
                }
                if inner.depth <= limit {
                    return None;
                }
                if let Some(value) = inner.values.get(key) {
                    return Some(Arc::clone(value));
                }
                node = &inner.parent;
            },
        }
    }
}

/// What the first scope of a chain contributes.
proof fn lemma_chain_head<V>(chain: Option<Arc<ScopeNode<V>>>, limit: int)
    requires
        chain is Some,
    ensures
        ({
            let node = chain->0;
            let scopes = chain_view(chain);
            &&& scopes.len() == chain_view(node.parent).len() + 1
            &&& scopes[0] == node.scope_view()
            &&& scopes.drop_first() == chain_view(node.parent)
            &&& node.depth <= limit ==> visible(scopes, limit) == Seq::<ScopeView<V>>::empty()
            &&& node.depth > limit ==> visible(scopes, limit) == seq![node.scope_view()] + visible(
                chain_view(node.parent),
                limit,
            )
            &&& node.depth > limit ==> visible(scopes, limit).drop_first() == visible(
                chain_view(node.parent),
                limit,
            )
        }),
{
    let node = chain->0;
    let scopes = chain_view(chain);
    assert(scopes.drop_first() =~= chain_view(node.parent));
    if node.depth > limit {
        assert(visible(scopes, limit).drop_first() =~= visible(chain_view(node.parent), limit));
    }
}

/// Share every value of a chain under the keys that the map does not hold yet.
pub(crate) fn collect_from_chain<V>(
    out: &mut KeyMap<Arc<V>>,
    chain: &Option<Arc<ScopeNode<V>>>,
    limit: usize,
)
    ensures
        final(out)@ == effective(visible(chain_view(*chain), limit as int)).union_prefer_right(
            old(out)@,
        ),
{
    let mut node: &Option<Arc<ScopeNode<V>>> = chain;
    let ghost goal = effective(
        visible(chain_view(*chain), limit as int),
    ).union_prefer_right(out@);
    loop
        invariant
            goal == effective(visible(chain_view(*node), limit as int)).union_prefer_right(out@),
        ensures
            goal == out@,
        decreases chain_view(*node).len(),
    {
        match node {
            None => {
                proof {
                    assert(goal =~= out@);
                }
                break;
            },
            Some(inner) => {
                proof {
                    lemma_chain_head(*node, limit as int);
                }
                if inner.depth <= limit {
                    proof {
                        assert(goal =~= out@);
                    }
                    break;
                }
                let ghost before = out@;
                out.fill_from(&inner.values);
                proof {
                    let head = inner.scope_view();
                    let rest = visible(chain_view(*node), limit as int).drop_first();
                    lemma_effective_concat(seq![head], rest);
                    lemma_effective_single(head);
                    assert(effective(rest).union_prefer_right(
                        inner.values@,
                    ).union_prefer_right(before) =~= effective(rest).union_prefer_right(
                        inner.values@.union_prefer_right(before),
                    ));
                }
                node = &inner.parent;
            },
        }
    }
}

/// Append the names of the visible scopes of a chain that lie deeper than
/// `base`, the innermost first.
pub(crate) fn names_in_chain<V>(
    out: &mut Vec<String>,
    chain: &Option<Arc<ScopeNode<V>>>,
    limit: usize,
    base: usize,
)
    ensures
        views(final(out)@) == views(old(out)@) + names_above(
            visible(chain_view(*chain), limit as int),
            base as int,
        ).reverse(),
{
    let mut node: &Option<Arc<ScopeNode<V>>> = chain;
    let ghost goal = views(out@) + names_above(
        visible(chain_view(*chain), limit as int),
        base as int,
    ).reverse();
    loop
        invariant
            goal == views(out@) + names_above(
                visible(chain_view(*node), limit as int),
                base as int,
            ).reverse(),
        ensures
            goal == views(out@),
        decreases chain_view(*node).len(),
    {
        match node {
            None => {
                proof {
                    assert(goal =~= views(out@));
                }
                break;
            },
            Some(inner) => {
                proof {
                    lemma_chain_head(*node, limit as int);
                }
                if inner.depth <= limit {
                    proof {
                        assert(goal =~= views(out@));
                    }
                    break;
                }
                let ghost before = views(out@);
                let ghost head = inner.scope_view();
                if inner.depth > base {
                    if let Some(name) = &inner.name {
                        out.push(name.clone());
                        proof {
                            assert(views(out@) =~= before.push(name@));
                        }
                    }
                }
                proof {
                    let rest = visible(chain_view(*node), limit as int).drop_first();
                    let outer = names_above(rest, base as int);
                    let own = name_above(head, base as int);
                    assert(views(out@) =~= before + own);
                    assert((outer + own).reverse() =~= own + outer.reverse());
                    assert(before + (own + outer.reverse()) =~= views(out@) + outer.reverse());
                }
                node = &inner.parent;
            },
        }
    }
}

/// The number of scopes in a chain.
pub(crate) fn chain_len<V>(chain: &Option<Arc<ScopeNode<V>>>) -> (r: usize)
    requires
        chain_view(*chain).len() <= usize::MAX,
    ensures
        r == chain_view(*chain).len(),
{
    let mut node: &Option<Arc<ScopeNode<V>>> = chain;
    let mut count: usize = 0;
    let ghost total = chain_view(*chain).len();
    loop
        invariant
            total <= usize::MAX,
            total == chain_view(*chain).len(),
            total == count + chain_view(*node).len(),
        decreases chain_view(*node).len(),
    {
        match node {
            None => {
                return count;
            },
            Some(inner) => {
                proof {
                    lemma_chain_head(*node, 0);
                }
                count = count + 1;
                node = &inner.parent;
            },
        }
    }
}

} // verus!
