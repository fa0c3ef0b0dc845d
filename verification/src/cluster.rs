//! What a runtime for actors offers: errors, membership events and timers.

use vstd::prelude::*;
use vstd::string::*;

verus! {

/// A message could not be sent to an actor.
#[derive(Debug, Clone)]
pub struct ActorSendError(pub String);

impl ActorSendError {
    /// The message shown for this error.
    pub fn message(&self) -> (r: String)
        ensures
            r@ == "actor send failed: "@ + self.0@,
    {
        let mut out: String = String::new();
        out.append("actor send failed: ");
        out.append(self.0.as_str());
        assert(out@ =~= "actor send failed: "@ + self.0@);
        out
    }
}

/// An operation on a processing group failed.
#[derive(Debug, Clone)]
pub struct GroupError(pub String);

impl GroupError {
    /// The message shown for this error.
    pub fn message(&self) -> (r: String)
        ensures
            r@ == "group error: "@ + self.0@,
    {
        let mut out: String = String::new();
        out.append("group error: ");
        out.append(self.0.as_str());
        assert(out@ =~= "group error: "@ + self.0@);
        out
    }
}

/// An operation on membership events failed.
#[derive(Debug, Clone)]
pub struct ClusterError(pub String);

impl ClusterError {
    /// The message shown for this error.
    pub fn message(&self) -> (r: String)
        ensures
            r@ == "cluster error: "@ + self.0@,
    {
        let mut out: String = String::new();
        out.append("cluster error: ");
        out.append(self.0.as_str());
        assert(out@ =~= "cluster error: "@ + self.0@);
        out
    }
}

/// The number of a node.
#[derive(Debug, Clone, Copy, PartialEq, Eq, Structural)]
pub struct NodeId(pub u64);

/// A change in the membership of a cluster.
#[derive(Debug, Clone, PartialEq, Eq, Structural)]
pub enum ClusterEvent {
    NodeJoined(NodeId),
    NodeLeft(NodeId),
}

/// Stands for a subscription, to end it by.
#[derive(Debug, Clone, Copy, PartialEq, Eq, Hash, Structural)]
pub struct SubscriptionId(pub u64);

impl SubscriptionId {
    /// The subscription with a number.
    pub fn from_raw(id: u64) -> (r: Self)
        ensures
            r == SubscriptionId(id),
    {
        SubscriptionId(id)
    }
}

/// Membership events of a cluster.
pub trait ClusterEvents: Send + Sync + 'static {
    /// Call `on_event` for each change, until the subscription is ended.
    fn subscribe<F: Fn(ClusterEvent) + Send + Sync>(&self, on_event: F) -> Result<
        SubscriptionId,
        ClusterError,
    >;

    /// End a subscription. Ending one that is over does nothing.
    fn unsubscribe(&self, id: SubscriptionId) -> Result<(), ClusterError>;
}

/// A timer that was set.
pub trait TimerHandle: Send + 'static {
    /// Cancel the timer. Cancelling one that is over does nothing.
    fn cancel(self);
}

} // verus!
