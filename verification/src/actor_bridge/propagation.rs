//! Getting at the context that came with a message.

use vstd::prelude::*;

use crate::actor_bridge::header::{Headers, HeadersView};
use crate::cell::ContextCell;
use crate::config::Config;
use crate::registry::{Registrations, Registry};
use crate::snapshot::{deserialize_to_snapshot, ContextSnapshot, SnapshotView};
use crate::store::{ContextStore, StoreView};
use crate::sync_ctx;
use crate::value::TypedValue;

verus! {

/// A snapshot whose scope chain has no more names than the limit allows.
pub open spec fn shortened<V>(snapshot: SnapshotView<V>, config: Config) -> SnapshotView<V> {
    SnapshotView {
        values: snapshot.values,
        scope_chain: crate::store::keep_last(
            snapshot.scope_chain,
            config.max_scope_chain_len as nat,
        ),
    }
}

/// What a context of its own shows of a snapshot is the snapshot, its scope
/// chain shortened.
proof fn lemma_shown_again<V>(snapshot: SnapshotView<V>, config: Config)
    ensures
        sync_ctx::whole_snapshot(
            Some(StoreView::from_values(snapshot.values, snapshot.scope_chain)),
            config,
        ) == shortened(snapshot, config),
{
    let store = StoreView::from_values(snapshot.values, snapshot.scope_chain);
    let left = store.effective();
    let right = snapshot.values;
    assert forall|k: Seq<char>|
        #![trigger left.dom().contains(k)]
        #![trigger right.dom().contains(k)]
        left.dom().contains(k) == right.dom().contains(k) && (left.dom().contains(k) ==> left[k]
            == right[k]) by {
        crate::store_laws::law_root_values(snapshot.values, snapshot.scope_chain, k);
        crate::store_laws::law_collected_values(store, k);
    }
    assert(left =~= right);
    crate::store_laws::law_root_values(snapshot.values, snapshot.scope_chain, Seq::empty());
}

/// The snapshot that bytes stand for, with no more scope names than the limit
/// allows; none where they stand for none.
pub fn bytes_to_snapshot<V, E, D: Fn(&[u8]) -> Result<V, String>, M>(
    registry: &Registry<'_, E, D, M>,
    config: &Config,
    bytes: &[u8],
) -> (r: Option<ContextSnapshot<V>>)
    requires
        crate::wire::decoders_ready::<V, E, D, M>(registry@),
    ensures
        converts(registry@, *config, bytes@, snapshot_option(r)),
{
    match deserialize_to_snapshot(registry, bytes) {
        Ok(snapshot) => {
            let ghost whole = snapshot@;
            assert(crate::snapshot::deserializes(registry@, bytes@, whole));
            let cell = ContextCell::with_store(crate::inheritance::snapshot_to_store(snapshot));
            proof {
                lemma_shown_again(whole, *config);
            }
            Some(sync_ctx::snapshot(&cell, config))
        },
        Err(error) => {
            assert(crate::snapshot::rejects::<V, E, D, M>(registry@, bytes@, error@));
            None
        },
    }
}

/// What an optional snapshot holds.
pub open spec fn snapshot_option<V>(snapshot: Option<ContextSnapshot<V>>) -> Option<
    SnapshotView<V>,
> {
    match snapshot {
        Some(held) => Some(held@),
        None => None,
    }
}

/// Whether bytes can be converted to this: a snapshot that they stand for, its
/// scope chain shortened, or nothing where they are refused.
pub open spec fn converts<V, E, D: Fn(&[u8]) -> Result<V, String>, M>(
    registrations: Registrations<E, D, M>,
    config: Config,
    bytes: Seq<u8>,
    result: Option<SnapshotView<V>>,
) -> bool {
    match result {
        Some(snapshot) => exists|whole: SnapshotView<V>| #[trigger]
            crate::snapshot::deserializes(registrations, bytes, whole) && snapshot == shortened(
                whole,
                config,
            ),
        None => exists|error: crate::error::ErrorView| #[trigger]
            crate::snapshot::rejects::<V, E, D, M>(registrations, bytes, error),
    }
}

/// Whether this can be the context that came with a message: the snapshot where
/// there is one, else what the bytes stand for.
pub open spec fn carried<V, E, D: Fn(&[u8]) -> Result<V, String>, M>(
    registrations: Registrations<E, D, M>,
    config: Config,
    headers: HeadersView<V>,
    result: Option<SnapshotView<V>>,
) -> bool {
    match headers.snapshot {
        Some(snapshot) => result == Some(snapshot),
        None => match headers.wire {
            Some(bytes) => converts(registrations, config, bytes, result),
            None => result is None,
        },
    }
}

/// The context that came with a message.
pub fn extract_context<V, E, D: Fn(&[u8]) -> Result<V, String>, M>(
    registry: &Registry<'_, E, D, M>,
    config: &Config,
    headers: &Headers<V>,
) -> (r: Option<ContextSnapshot<V>>)
    requires
        crate::wire::decoders_ready::<V, E, D, M>(registry@),
    ensures
        carried(registry@, *config, headers@, snapshot_option(r)),
{
    if let Some(header) = &headers.snapshot {
        return Some(header.snapshot.clone());
    }
    if let Some(header) = &headers.wire {
        return bytes_to_snapshot(registry, config, header.bytes.as_slice());
    }
    None
}

/// The store that a message is handled with: one that starts from the context
/// that came with it, and none where none came.
pub fn propagated_store<V, E, D: Fn(&[u8]) -> Result<V, String>, M>(
    registry: &Registry<'_, E, D, M>,
    config: &Config,
    headers: &Headers<V>,
) -> (r: Option<ContextStore<TypedValue<V>>>)
    requires
        crate::wire::decoders_ready::<V, E, D, M>(registry@),
    ensures
        exists|snapshot: Option<SnapshotView<V>>| #[trigger]
            carried(registry@, *config, headers@, snapshot) && (match snapshot {
                Some(held) => r matches Some(store) && store@ == StoreView::from_values(
                    held.values,
                    held.scope_chain,
                ),
                None => r is None,
            }),
{
    let snapshot = extract_context(registry, config, headers);
    assert(carried(registry@, *config, headers@, snapshot_option(snapshot)));
    match snapshot {
        Some(held) => Some(crate::inheritance::snapshot_to_store(held)),
        None => None,
    }
}

/// The context of a message is its snapshot where it has one, whatever bytes came
/// along; without a snapshot it has the values that its bytes stand for; and
/// without either there is none.
pub proof fn law_snapshot_goes_before_bytes<V, E, D: Fn(&[u8]) -> Result<V, String>, M>(
    registrations: Registrations<E, D, M>,
    config: Config,
    headers: HeadersView<V>,
    result: Option<SnapshotView<V>>,
)
    requires
        carried(registrations, config, headers, result),
    ensures
        headers.snapshot is Some ==> result == headers.snapshot,
        headers.snapshot is None && headers.wire is None ==> result is None,
        headers.snapshot is None && headers.wire is Some && result is Some ==> exists|
            whole: SnapshotView<V>,
        | #[trigger]
            crate::snapshot::deserializes(registrations, headers.wire->0, whole)
                && result->0.values == whole.values && (config.max_scope_chain_len == 0
                || whole.scope_chain.len() <= config.max_scope_chain_len
                ==> result->0.scope_chain == whole.scope_chain),
{
    if headers.snapshot is None && headers.wire is Some && result is Some {
        let whole = choose|whole: SnapshotView<V>| #[trigger]
            crate::snapshot::deserializes(registrations, headers.wire->0, whole) && result->0
                == shortened(whole, config);
        assert(crate::snapshot::deserializes(registrations, headers.wire->0, whole));
    }
}

} // verus!
