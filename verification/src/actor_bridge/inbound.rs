//! What happens to the context of a message on its way in.

use vstd::prelude::*;
use vstd::string::*;

use crate::actor_bridge::header::{ContextSnapshotHeader, Headers, HeadersView};
use crate::actor_bridge::propagation::bytes_to_snapshot;
use crate::actor_bridge::{Disposition, DispositionView, ErrorPolicy};
use crate::config::Config;
use crate::inheritance::snapshot_to_store;
use crate::registry::{Registrations, Registry};
use crate::snapshot::SnapshotView;
use crate::store::{ContextStore, StoreView};
use crate::value::TypedValue;

verus! {

/// Turns bytes into a snapshot when a message comes in, and gives its handler a
/// store.
pub struct ContextInboundInterceptor {
    pub error_policy: ErrorPolicy,
}

/// Whether receiving a message can turn headers into others and decide this of
/// the message. Only bytes without a snapshot next to them are looked at.
pub open spec fn receives<V, E, D: Fn(&[u8]) -> Result<V, String>, M>(
    registrations: Registrations<E, D, M>,
    config: Config,
    policy: ErrorPolicy,
    before: HeadersView<V>,
    after: HeadersView<V>,
    disposition: DispositionView,
) -> bool {
    if before.snapshot is Some || before.wire is None {
        after == before && disposition == DispositionView::Continue
    } else {
        exists|converted: Option<SnapshotView<V>>| #[trigger]
            crate::actor_bridge::propagation::converts(
                registrations,
                config,
                before.wire->0,
                converted,
            ) && after == with_converted(before, converted) && disposition == decision(policy, converted)
    }
}

/// The headers once their bytes were converted to this.
pub open spec fn with_converted<V>(
    headers: HeadersView<V>,
    converted: Option<SnapshotView<V>>,
) -> HeadersView<V> {
    HeadersView { snapshot: converted, wire: headers.wire }
}

/// What becomes of a message whose bytes were converted to this.
pub open spec fn decision<V>(
    policy: ErrorPolicy,
    converted: Option<SnapshotView<V>>,
) -> DispositionView {
    if converted is None && policy == ErrorPolicy::Reject {
        DispositionView::Reject("dcontext deserialization failed: corrupt wire bytes"@)
    } else {
        DispositionView::Continue
    }
}

impl ContextInboundInterceptor {
    /// An interceptor with the given policy.
    pub fn new(error_policy: ErrorPolicy) -> (r: Self)
        ensures
            r.error_policy == error_policy,
    {
        ContextInboundInterceptor { error_policy }
    }

    /// The name of the interceptor.
    pub fn name(&self) -> (r: &'static str)
        ensures
            r@ == "dcontext-inbound"@,
    {
        "dcontext-inbound"
    }

    /// A message came in. A snapshot stays as it is; bytes get a snapshot next
    /// to them.
    pub fn on_receive<V, E, D: Fn(&[u8]) -> Result<V, String>, M>(
        &self,
        registry: &Registry<'_, E, D, M>,
        config: &Config,
        headers: &mut Headers<V>,
    ) -> (r: Disposition)
        requires
            crate::wire::decoders_ready::<V, E, D, M>(registry@),
        ensures
            receives(
                registry@,
                *config,
                self.error_policy,
                old(headers)@,
                final(headers)@,
                r@,
            ),
    {
        if headers.snapshot.is_some() {
            return Disposition::Continue;
        }
        let converted = match &headers.wire {
            Some(header) => bytes_to_snapshot(registry, config, header.bytes.as_slice()),
            None => {
                return Disposition::Continue;
            },
        };
        assert(crate::actor_bridge::propagation::converts(
            registry@,
            *config,
            old(headers)@.wire->0,
            crate::actor_bridge::propagation::snapshot_option(converted),
        ));
        match converted {
            Some(snapshot) => {
                headers.snapshot = Some(ContextSnapshotHeader { snapshot });
                Disposition::Continue
            },
            None => match self.error_policy {
                ErrorPolicy::Reject => Disposition::Reject(
                    "dcontext deserialization failed: corrupt wire bytes".to_owned(),
                ),
                ErrorPolicy::LogAndContinue => Disposition::Continue,
            },
        }
    }

    /// The store that the handler of a message works on: it starts from the
    /// snapshot of the message, in a scope named after the actor. Without a
    /// snapshot there is none.
    pub fn wrap_handler<V, E, D, M>(
        &self,
        registry: &Registry<'_, E, D, M>,
        actor_name: &str,
        headers: &Headers<V>,
    ) -> (r: Option<ContextStore<TypedValue<V>>>)
        ensures
            match headers@.snapshot {
                Some(snapshot) => r matches Some(store) && store@ == StoreView::from_values(
                    snapshot.values,
                    snapshot.scope_chain,
                ).push(
                    crate::registry::cached_set(registry@),
                    Some("remote:"@ + actor_name@),
                ),
                None => r is None,
            },
    {
        match &headers.snapshot {
            Some(header) => {
                let mut name: String = String::new();
                name.append("remote:");
                name.append(actor_name);
                assert(name@ =~= "remote:"@ + actor_name@);
                let mut store = snapshot_to_store(header.snapshot.clone());
                let _ = store.push_scope(registry, Some(name));
                Some(store)
            },
            None => None,
        }
    }

    /// A handler is done. Its store ends with it, so there is nothing to do.
    pub fn on_complete<V>(&self, headers: &mut Headers<V>)
        ensures
            *final(headers) == *old(headers),
    {
    }
}

impl Default for ContextInboundInterceptor {
    fn default() -> (r: Self)
        ensures
            r.error_policy == ErrorPolicy::LogAndContinue,
    {
        ContextInboundInterceptor { error_policy: ErrorPolicy::LogAndContinue }
    }
}

/// A handler reads the values that came with its message.
pub proof fn law_handler_reads_carried_values<V>(
    snapshot: SnapshotView<V>,
    cached: Set<Seq<char>>,
    name: Seq<char>,
    key: Seq<char>,
)
    ensures
        ({
            let root: StoreView<TypedValue<V>> = StoreView::from_values(
                snapshot.values,
                snapshot.scope_chain,
            );
            let store = root.push(cached, Some(name));
            &&& store.get(key) == crate::key_map::lookup(snapshot.values, key)
            &&& store.all_names() == snapshot.scope_chain.push(name)
        }),
{
    let root: StoreView<TypedValue<V>> = StoreView::from_values(
        snapshot.values,
        snapshot.scope_chain,
    );
    crate::store_laws::law_push_keeps_values(root, cached, Some(name), key);
    crate::store_laws::law_root_values(snapshot.values, snapshot.scope_chain, key);
    crate::store_laws::law_push_adds_name(root, cached, Some(name));
}

/// A message that is not rejected by policy is always delivered.
pub proof fn law_lenient_policy_delivers<V, E, D: Fn(&[u8]) -> Result<V, String>, M>(
    registrations: Registrations<E, D, M>,
    config: Config,
    before: HeadersView<V>,
    after: HeadersView<V>,
    disposition: DispositionView,
)
    requires
        receives(registrations, config, ErrorPolicy::LogAndContinue, before, after, disposition),
    ensures
        disposition == DispositionView::Continue,
{
}

/// What becomes of a message that came with bytes: the bytes stay with it; where
/// they can be read their values come as a snapshot and the message is delivered;
/// where they cannot, it comes without a context, and is delivered or rejected as
/// the policy says.
pub proof fn law_bytes_on_the_way_in<V, E, D: Fn(&[u8]) -> Result<V, String>, M>(
    registrations: Registrations<E, D, M>,
    config: Config,
    policy: ErrorPolicy,
    bytes: Seq<u8>,
    after: HeadersView<V>,
    disposition: DispositionView,
)
    requires
        receives(
            registrations,
            config,
            policy,
            (HeadersView { snapshot: None, wire: Some(bytes) }),
            after,
            disposition,
        ),
    ensures
        after.wire == Some(bytes),
        after.snapshot is Some ==> disposition is Continue && exists|whole: SnapshotView<V>|
            #[trigger]
            crate::snapshot::deserializes(registrations, bytes, whole) && after.snapshot->0.values
                == whole.values,
        after.snapshot is None ==> (disposition is Reject <==> policy is Reject) && exists|
            error: crate::error::ErrorView,
        | #[trigger]
            crate::snapshot::rejects::<V, E, D, M>(registrations, bytes, error),
{
    let converted = choose|converted: Option<SnapshotView<V>>| #[trigger]
        crate::actor_bridge::propagation::converts(
            registrations,
            config,
            bytes,
            converted,
        ) && after == with_converted(
            (HeadersView { snapshot: None, wire: Some(bytes) }),
            converted,
        ) && disposition == decision(policy, converted);
    if converted is Some {
        let whole = choose|whole: SnapshotView<V>| #[trigger]
            crate::snapshot::deserializes(registrations, bytes, whole) && converted->0
                == crate::actor_bridge::propagation::shortened(whole, config);
        assert(crate::snapshot::deserializes(registrations, bytes, whole));
    }
}

/// A message without bytes, or with a snapshot next to them, is delivered as it
/// is.
pub proof fn law_other_messages_are_left_alone<V, E, D: Fn(&[u8]) -> Result<V, String>, M>(
    registrations: Registrations<E, D, M>,
    config: Config,
    policy: ErrorPolicy,
    before: HeadersView<V>,
    after: HeadersView<V>,
    disposition: DispositionView,
)
    requires
        receives(registrations, config, policy, before, after, disposition),
        before.snapshot is Some || before.wire is None,
    ensures
        after == before,
        disposition is Continue,
{
}

} // verus!
