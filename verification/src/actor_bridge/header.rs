//! The headers that a context travels in.

use vstd::prelude::*;

use crate::snapshot::{ContextSnapshot, SnapshotView};

verus! {

/// A context as bytes, for targets in other processes.
pub struct ContextHeader {
    pub bytes: Vec<u8>,
}

impl ContextHeader {
    /// The name of the header.
    pub fn header_name(&self) -> (r: &'static str)
        ensures
            r@ == "dcontext.wire"@,
    {
        "dcontext.wire"
    }

    /// The bytes that go over the wire.
    pub fn to_bytes(&self) -> (r: Option<Vec<u8>>)
        ensures
            r matches Some(bytes) && bytes@ == self.bytes@,
    {
        Some(self.bytes.clone())
    }
}

/// A context as a snapshot, for targets in the same process.
pub struct ContextSnapshotHeader<V> {
    pub snapshot: ContextSnapshot<V>,
}

impl<V> ContextSnapshotHeader<V> {
    /// The name of the header.
    pub fn header_name(&self) -> (r: &'static str)
        ensures
            r@ == "dcontext.snapshot"@,
    {
        "dcontext.snapshot"
    }

    /// Snapshots do not go over the wire.
    pub fn to_bytes(&self) -> (r: Option<Vec<u8>>)
        ensures
            r is None,
    {
        None
    }
}

/// The headers of a message that carry a context.
pub struct Headers<V> {
    pub snapshot: Option<ContextSnapshotHeader<V>>,
    pub wire: Option<ContextHeader>,
}

/// What the headers of a message carry.
#[verifier::ext_equal]
#[verifier::reject_recursive_types(V)]
pub struct HeadersView<V> {
    pub snapshot: Option<SnapshotView<V>>,
    pub wire: Option<Seq<u8>>,
}

impl<V> View for Headers<V> {
    type V = HeadersView<V>;

    open spec fn view(&self) -> HeadersView<V> {
        HeadersView {
            snapshot: match self.snapshot {
                Some(header) => Some(header.snapshot@),
                None => None,
            },
            wire: match self.wire {
                Some(header) => Some(header.bytes@),
                None => None,
            },
        }
    }
}

impl<V> Headers<V> {
    /// No headers.
    pub fn new() -> (r: Self)
        ensures
            r@ == (HeadersView::<V> { snapshot: None, wire: None }),
    {
        Headers { snapshot: None, wire: None }
    }
}

} // verus!
