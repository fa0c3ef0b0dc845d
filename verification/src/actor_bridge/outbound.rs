//! What happens to the context of a message on its way out.

use vstd::prelude::*;
use vstd::string::*;

use crate::actor_bridge::header::{ContextHeader, ContextSnapshotHeader, Headers, HeadersView};
use crate::actor_bridge::{Disposition, DispositionView, ErrorPolicy};
use crate::cell::ContextCell;
use crate::config::Config;
use crate::error::ErrorView;
use crate::registry::{Registrations, Registry};
use crate::snapshot::SnapshotView;
use crate::sync_ctx;
use crate::value::ContextValue;

verus! {

/// Attaches the context to a message that goes out.
pub struct ContextOutboundInterceptor {
    pub error_policy: ErrorPolicy,
}

/// Whether sending a message can turn headers into others and decide this of
/// the message. To a target in the same process the whole context goes as a
/// snapshot, and nothing is serialized. To any other target it goes as bytes.
pub open spec fn sends<V: ContextValue, E: Fn(&V) -> Result<Vec<u8>, String>, D, M>(
    registrations: Registrations<E, D, M>,
    config: Config,
    policy: ErrorPolicy,
    remote: bool,
    shown: SnapshotView<V>,
    before: HeadersView<V>,
    after: HeadersView<V>,
    disposition: DispositionView,
) -> bool {
    if !remote {
        after == (HeadersView { snapshot: Some(shown), ..before }) && disposition
            == DispositionView::Continue
    } else {
        exists|result: Result<Seq<u8>, ErrorView>|
            {
                &&& #[trigger] crate::wire::serializes(
                    registrations,
                    config,
                    shown.values,
                    shown.scope_chain,
                    result,
                )
                &&& match result {
                    Ok(bytes) => after == (HeadersView { wire: Some(bytes), ..before })
                        && disposition == DispositionView::Continue,
                    Err(error) => after == before && disposition == (match policy {
                        ErrorPolicy::LogAndContinue => DispositionView::Continue,
                        ErrorPolicy::Reject => DispositionView::Reject(
                            "dcontext serialization failed: "@ + error.text(),
                        ),
                    }),
                }
            }
    }
}

impl ContextOutboundInterceptor {
    /// An interceptor with the given policy.
    pub fn new(error_policy: ErrorPolicy) -> (r: Self)
        ensures
            r.error_policy == error_policy,
    {
        ContextOutboundInterceptor { error_policy }
    }

    /// The name of the interceptor.
    pub fn name(&self) -> (r: &'static str)
        ensures
            r@ == "dcontext-outbound"@,
    {
        "dcontext-outbound"
    }

    /// A message goes out: attach the context.
    pub fn on_send<V: ContextValue, E: Fn(&V) -> Result<Vec<u8>, String>, D, M>(
        &self,
        remote: bool,
        cell: &ContextCell<V>,
        registry: &Registry<'_, E, D, M>,
        config: &Config,
        headers: &mut Headers<V>,
    ) -> (r: Disposition)
        requires
            crate::wire::encoders_ready::<V, E, D, M>(registry@),
        ensures
            sends(
                registry@,
                *config,
                self.error_policy,
                remote,
                sync_ctx::whole_snapshot(cell@, *config),
                old(headers)@,
                final(headers)@,
                r@,
            ),
    {
        let snapshot = sync_ctx::snapshot(cell, config);
        if !remote {
            headers.snapshot = Some(ContextSnapshotHeader { snapshot });
            assert(headers@ =~= HeadersView { snapshot: Some(snapshot@), ..old(headers)@ });
            return Disposition::Continue;
        }
        let result = snapshot.serialize(registry, config);
        let ghost outcome = crate::wire::bytes_outcome(result);
        assert(crate::wire::serializes(
            registry@,
            *config,
            snapshot@.values,
            snapshot@.scope_chain,
            outcome,
        ));
        match result {
            Ok(bytes) => {
                headers.wire = Some(ContextHeader { bytes });
                assert(headers@ =~= HeadersView { wire: Some(bytes@), ..old(headers)@ });
                Disposition::Continue
            },
            Err(error) => match self.error_policy {
                ErrorPolicy::LogAndContinue => Disposition::Continue,
                ErrorPolicy::Reject => {
                    let mut why: String = String::new();
                    why.append("dcontext serialization failed: ");
                    why.append(error.message().as_str());
                    assert(why@ =~= "dcontext serialization failed: "@ + error@.text());
                    Disposition::Reject(why)
                },
            },
        }
    }

    /// A reply came back. The context goes forward only, so there is nothing to
    /// do.
    pub fn on_reply<V>(&self, headers: &mut Headers<V>)
        ensures
            *final(headers) == *old(headers),
    {
    }
}

impl Default for ContextOutboundInterceptor {
    fn default() -> (r: Self)
        ensures
            r.error_policy == ErrorPolicy::LogAndContinue,
    {
        ContextOutboundInterceptor { error_policy: ErrorPolicy::LogAndContinue }
    }
}

/// A message to the same process never carries bytes, and one to another
/// process never carries a snapshot.
pub proof fn law_headers_fit_the_target<V: ContextValue, E: Fn(&V) -> Result<Vec<u8>, String>, D, M>(
    registrations: Registrations<E, D, M>,
    config: Config,
    policy: ErrorPolicy,
    remote: bool,
    shown: SnapshotView<V>,
    after: HeadersView<V>,
    disposition: DispositionView,
)
    requires
        sends(
            registrations,
            config,
            policy,
            remote,
            shown,
            (HeadersView { snapshot: None, wire: None }),
            after,
            disposition,
        ),
    ensures
        !remote ==> after.wire is None && after.snapshot == Some(shown),
        remote ==> after.snapshot is None,
{
}

/// A context that was sent to a target in the same process arrives there as it
/// was, local values included.
pub proof fn law_local_context_arrives<
    V: ContextValue,
    E: Fn(&V) -> Result<Vec<u8>, String>,
    D: Fn(&[u8]) -> Result<V, String>,
    M,
>(
    registrations: Registrations<E, D, M>,
    config: Config,
    in_config: Config,
    out_policy: ErrorPolicy,
    in_policy: ErrorPolicy,
    shown: SnapshotView<V>,
    before: HeadersView<V>,
    sent: HeadersView<V>,
    received: HeadersView<V>,
    out_disposition: DispositionView,
    in_disposition: DispositionView,
    result: Option<SnapshotView<V>>,
)
    requires
        sends(
            registrations,
            config,
            out_policy,
            false,
            shown,
            before,
            sent,
            out_disposition,
        ),
        crate::actor_bridge::inbound::receives(
            registrations,
            in_config,
            in_policy,
            sent,
            received,
            in_disposition,
        ),
        crate::actor_bridge::propagation::carried(registrations, in_config, received, result),
    ensures
        result == Some(shown),
        out_disposition == DispositionView::Continue,
        in_disposition == DispositionView::Continue,
{
}

/// A context that was sent to another process arrives there with its scope
/// chain, as far as the limit there allows, and with every value of a registered
/// key that may leave the process, provided that the codecs read back what they
/// write.
pub proof fn law_remote_context_arrives<
    V: ContextValue,
    E: Fn(&V) -> Result<Vec<u8>, String>,
    D: Fn(&[u8]) -> Result<V, String>,
    M,
>(
    registrations: Registrations<E, D, M>,
    config: Config,
    in_config: Config,
    policy: ErrorPolicy,
    shown: SnapshotView<V>,
    bytes: Seq<u8>,
    received: HeadersView<V>,
    disposition: DispositionView,
    result: Option<SnapshotView<V>>,
)
    requires
        crate::wire::serializes(
            registrations,
            config,
            shown.values,
            shown.scope_chain,
            Ok(bytes),
        ),
        bytes.len() <= usize::MAX,
        forall|key: Seq<char>| #[trigger]
            shown.values.contains_key(key) && registrations.contains_key(key)
                && !registrations[key].local_only ==> crate::snapshot::round_trips(
                registrations,
                key,
                shown.values[key],
            ),
        crate::actor_bridge::inbound::receives(
            registrations,
            in_config,
            policy,
            (HeadersView { snapshot: None, wire: Some(bytes) }),
            received,
            disposition,
        ),
        crate::actor_bridge::propagation::carried(registrations, in_config, received, result),
    ensures
        disposition == DispositionView::Continue,
        result == Some(
            (SnapshotView {
                values: crate::snapshot::known(registrations, shown.values),
                scope_chain: crate::store::keep_last(
                    shown.scope_chain,
                    in_config.max_scope_chain_len as nat,
                ),
            }),
        ),
{
    if exists|error: ErrorView| #[trigger]
        crate::snapshot::rejects::<V, E, D, M>(registrations, bytes, error) {
        let error = choose|error: ErrorView| #[trigger]
            crate::snapshot::rejects::<V, E, D, M>(registrations, bytes, error);
        crate::snapshot::law_serialized_bytes_are_accepted::<V, E, D, M>(
            registrations,
            config,
            shown,
            bytes,
            error,
        );
    }
    let arrived = received.snapshot->0;
    let snapshot = choose|whole: SnapshotView<V>| #[trigger]
        crate::snapshot::deserializes(registrations, bytes, whole) && arrived
            == crate::actor_bridge::propagation::shortened(whole, in_config);
    crate::snapshot::law_serialized_values_come_back(
        registrations,
        config,
        shown,
        bytes,
        snapshot,
    );
}

/// To a target in another process the whole context goes as its serialized bytes.
/// Where it cannot be serialized the headers stay as they are, and the message is
/// delivered or rejected as the policy says.
pub proof fn law_bytes_on_the_way_out<V: ContextValue, E: Fn(&V) -> Result<Vec<u8>, String>, D, M>(
    registrations: Registrations<E, D, M>,
    config: Config,
    policy: ErrorPolicy,
    shown: SnapshotView<V>,
    before: HeadersView<V>,
    after: HeadersView<V>,
    disposition: DispositionView,
)
    requires
        sends(registrations, config, policy, true, shown, before, after, disposition),
    ensures
        after.snapshot == before.snapshot,
        (after.wire is Some && disposition is Continue && crate::wire::serializes(
            registrations,
            config,
            shown.values,
            shown.scope_chain,
            Ok(after.wire->0),
        )) || (after == before && (disposition is Reject <==> policy is Reject) && exists|
            error: ErrorView,
        | #[trigger]
            crate::wire::serializes(
                registrations,
                config,
                shown.values,
                shown.scope_chain,
                Err(error),
            )),
{
}

/// From sending to another process to what its handler is given: where the bytes
/// went along, the message is delivered with every value of the sender's context
/// whose key is registered and does not stay in the process, provided that the
/// codecs read back what they write.
pub proof fn law_sent_context_is_received<
    V: ContextValue,
    E: Fn(&V) -> Result<Vec<u8>, String>,
    D: Fn(&[u8]) -> Result<V, String>,
    M,
>(
    registrations: Registrations<E, D, M>,
    config: Config,
    in_config: Config,
    out_policy: ErrorPolicy,
    in_policy: ErrorPolicy,
    shown: SnapshotView<V>,
    sent: HeadersView<V>,
    received: HeadersView<V>,
    out_disposition: DispositionView,
    in_disposition: DispositionView,
    result: Option<SnapshotView<V>>,
    key: Seq<char>,
)
    requires
        sends(
            registrations,
            config,
            out_policy,
            true,
            shown,
            (HeadersView { snapshot: None, wire: None }),
            sent,
            out_disposition,
        ),
        sent.wire is Some,
        sent.wire->0.len() <= usize::MAX,
        forall|k: Seq<char>| #[trigger]
            shown.values.contains_key(k) && registrations.contains_key(k)
                && !registrations[k].local_only ==> crate::snapshot::round_trips(
                registrations,
                k,
                shown.values[k],
            ),
        crate::actor_bridge::inbound::receives(
            registrations,
            in_config,
            in_policy,
            sent,
            received,
            in_disposition,
        ),
        crate::actor_bridge::propagation::carried(registrations, in_config, received, result),
    ensures
        in_disposition is Continue,
        result is Some,
        crate::key_map::lookup(result->0.values, key) == (if shown.values.contains_key(key)
            && registrations.contains_key(key) && !registrations[key].local_only {
            Some(shown.values[key])
        } else {
            None
        }),
        in_config.max_scope_chain_len == 0 || shown.scope_chain.len()
            <= in_config.max_scope_chain_len ==> result->0.scope_chain == shown.scope_chain,
{
    law_bytes_on_the_way_out(
        registrations,
        config,
        out_policy,
        shown,
        (HeadersView { snapshot: None, wire: None }),
        sent,
        out_disposition,
    );
    assert(sent =~= HeadersView { snapshot: None, wire: Some(sent.wire->0) });
    law_remote_context_arrives(
        registrations,
        config,
        in_config,
        in_policy,
        shown,
        sent.wire->0,
        received,
        in_disposition,
        result,
    );
    crate::snapshot::law_known_values(registrations, shown.values, key);
}

} // verus!
