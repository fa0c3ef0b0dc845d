//! The scopes that a fork reads through to.
//!
//! A fork shares the scopes of the store that it came from, and whatever that
//! store read through to itself. It sees no more of them than that store did.

use std::sync::Arc;
use vstd::prelude::*;

use crate::key_map::KeyMap;
use crate::scope::{
    collect_from_chain, find_in_chain, names_in_chain, ScopeNode, ScopeView,
};
use crate::text::views;

verus! {

/// Scopes that were forked from.
pub struct FrozenScopes<V> {
    /// The scopes of the store that was forked.
    pub chain: Option<Arc<ScopeNode<V>>>,
    /// Scopes that lie this deep or less were hidden there.
    pub limit: usize,
    /// Names of scopes that lie this deep or less were not listed there.
    pub base: usize,
    /// What that store read through to.
    pub outer: Option<Arc<FrozenScopes<V>>>,
}

/// Scopes without the names of those that lie at a limit or less deep.
pub open spec fn listed<V>(scopes: Seq<ScopeView<V>>, limit: int) -> Seq<ScopeView<V>> {
    Seq::new(
        scopes.len(),
        |i: int|
            ScopeView {
                name: if scopes[i].depth > limit {
                    scopes[i].name
                } else {
                    None
                },
                ..scopes[i]
            },
    )
}

impl<V> FrozenScopes<V> {
    /// The scopes of the store that was forked that are seen.
    pub open spec fn seen(&self) -> Seq<ScopeView<V>> {
        crate::scope::visible(crate::scope::chain_view(self.chain), self.limit as int)
    }

    /// The same, with the names that are listed.
    pub open spec fn scopes_view(&self) -> Seq<ScopeView<V>> {
        listed(self.seen(), self.base as int)
    }

    /// The scopes that lie further out.
    pub open spec fn outer_view(&self) -> Seq<ScopeView<V>> {
        frozen_view(self.outer)
    }
}

/// All scopes that are read through to, the innermost first.
pub open spec fn frozen_view<V>(frozen: Option<Arc<FrozenScopes<V>>>) -> Seq<ScopeView<V>>
    decreases frozen,
{
    match frozen {
        Some(part) => part.scopes_view() + frozen_view(part.outer),
        None => Seq::empty(),
    }
}

/// How many forks lie between.
pub open spec fn fork_count<V>(frozen: Option<Arc<FrozenScopes<V>>>) -> nat
    decreases frozen,
{
    match frozen {
        Some(part) => 1 + fork_count(part.outer),
        None => 0,
    }
}

/// Values do not depend on names.
pub proof fn lemma_listed_values<V>(scopes: Seq<ScopeView<V>>, limit: int, key: Seq<char>)
    ensures
        crate::scope::find(listed(scopes, limit), key) == crate::scope::find(scopes, key),
    decreases scopes.len(),
{
    if scopes.len() > 0 {
        lemma_listed_values(scopes.drop_first(), limit, key);
        assert(listed(scopes, limit).drop_first() =~= listed(scopes.drop_first(), limit));
    }
}

/// Without the names at a limit or less deep, those that are left are the names
/// above it.
pub proof fn lemma_listed_names<V>(scopes: Seq<ScopeView<V>>, limit: int)
    ensures
        crate::scope::names_above(listed(scopes, limit), -1) == crate::scope::names_above(
            scopes,
            limit,
        ),
    decreases scopes.len(),
{
    if scopes.len() > 0 {
        lemma_listed_names(scopes.drop_first(), limit);
        assert(listed(scopes, limit).drop_first() =~= listed(scopes.drop_first(), limit));
        assert(crate::scope::name_above(listed(scopes, limit)[0], -1)
            =~= crate::scope::name_above(scopes[0], limit));
    }
}

/// All values of scopes do not depend on their names.
proof fn lemma_listed_effective<V>(scopes: Seq<ScopeView<V>>, limit: int)
    ensures
        crate::scope::effective(listed(scopes, limit)) == crate::scope::effective(scopes),
{
    let left = crate::scope::effective(listed(scopes, limit));
    let right = crate::scope::effective(scopes);
    assert forall|k: Seq<char>|
        #![trigger left.dom().contains(k)]
        #![trigger right.dom().contains(k)]
        left.dom().contains(k) == right.dom().contains(k) && (left.dom().contains(k) ==> left[k]
            == right[k]) by {
        lemma_listed_values(scopes, limit, k);
    }
    assert(left =~= right);
}

/// A second handle to forked scopes.
pub(crate) fn share_frozen<V>(frozen: &Option<Arc<FrozenScopes<V>>>) -> (r: Option<
    Arc<FrozenScopes<V>>,
>)
    ensures
        r == *frozen,
{
    match frozen {
        Some(part) => Some(Arc::clone(part)),
        None => None,
    }
}

/// The value for a key in the first of the forked scopes that holds one.
pub(crate) fn find_in_frozen<V>(frozen: &Option<Arc<FrozenScopes<V>>>, key: &str) -> (r: Option<
    Arc<V>,
>)
    ensures
        r == crate::scope::find(frozen_view(*frozen), key@),
{
    let mut rest: &Option<Arc<FrozenScopes<V>>> = frozen;
    loop
        invariant
            crate::scope::find(frozen_view(*frozen), key@) == crate::scope::find(
                frozen_view(*rest),
                key@,
            ),
        decreases fork_count(*rest),
    {
        match rest {
            None => {
                return None;
            },
            Some(part) => {
                proof {
                    let seen = part.seen();
                    lemma_listed_values(seen, part.base as int, key@);
                    crate::scope::lemma_find_concat(
                        part.scopes_view(),
                        part.outer_view(),
                        key@,
                    );
                }
                if let Some(value) = find_in_chain(&part.chain, part.limit, key) {
                    return Some(value);
                }
                rest = &part.outer;
            },
        }
    }
}

/// Share every value of the forked scopes under the keys that the map does not
/// hold yet.
pub(crate) fn collect_from_frozen<V>(
    out: &mut KeyMap<Arc<V>>,
    frozen: &Option<Arc<FrozenScopes<V>>>,
)
    ensures
        final(out)@ == crate::scope::effective(frozen_view(*frozen)).union_prefer_right(old(out)@),
{
    let mut rest: &Option<Arc<FrozenScopes<V>>> = frozen;
    let ghost goal = crate::scope::effective(frozen_view(*frozen)).union_prefer_right(out@);
    loop
        invariant
            goal == crate::scope::effective(frozen_view(*rest)).union_prefer_right(out@),
        ensures
            goal == out@,
        decreases fork_count(*rest),
    {
        match rest {
            None => {
                proof {
                    assert(goal =~= out@);
                }
                break;
            },
            Some(part) => {
                let ghost before = out@;
                collect_from_chain(out, &part.chain, part.limit);
                proof {
                    let seen = part.seen();
                    let outer = crate::scope::effective(part.outer_view());
                    lemma_listed_effective(seen, part.base as int);
                    crate::scope::lemma_effective_concat(
                        part.scopes_view(),
                        part.outer_view(),
                    );
                    assert(outer.union_prefer_right(
                        crate::scope::effective(seen),
                    ).union_prefer_right(before) =~= outer.union_prefer_right(
                        crate::scope::effective(seen).union_prefer_right(before),
                    ));
                }
                rest = &part.outer;
            },
        }
    }
}

/// Append the names of the forked scopes, the innermost first.
pub(crate) fn names_in_frozen<V>(out: &mut Vec<String>, frozen: &Option<Arc<FrozenScopes<V>>>)
    ensures
        views(final(out)@) == views(old(out)@) + crate::scope::names_above(
            frozen_view(*frozen),
            -1,
        ).reverse(),
{
    let mut rest: &Option<Arc<FrozenScopes<V>>> = frozen;
    let ghost goal = views(out@) + crate::scope::names_above(frozen_view(*frozen), -1).reverse();
    loop
        invariant
            goal == views(out@) + crate::scope::names_above(frozen_view(*rest), -1).reverse(),
        ensures
            goal == views(out@),
        decreases fork_count(*rest),
    {
        match rest {
            None => {
                proof {
                    assert(goal =~= views(out@));
                }
                break;
            },
            Some(part) => {
                let ghost before = views(out@);
                names_in_chain(out, &part.chain, part.limit, part.base);
                proof {
                    let seen = part.seen();
                    let own = crate::scope::names_above(seen, part.base as int);
                    let outer = crate::scope::names_above(part.outer_view(), -1);
                    lemma_listed_names(seen, part.base as int);
                    crate::scope::lemma_names_concat(
                        part.scopes_view(),
                        part.outer_view(),
                        -1,
                    );
                    assert((outer + own).reverse() =~= own.reverse() + outer.reverse());
                    assert(before + (own.reverse() + outer.reverse()) =~= views(out@)
                        + outer.reverse());
                }
                rest = &part.outer;
            },
        }
    }
}

} // verus!
