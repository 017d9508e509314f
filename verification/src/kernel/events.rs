//! Graph events — every mutation of the capability graph (mint,
//! derive, revoke, revoke-tree) and every plugin lifecycle step is
//! published on a broadcast bus. Subscribers see the events published
//! after they subscribed, in publish order.

use vstd::prelude::*;
use tokio::sync::broadcast::{Receiver, Sender};
use crate::types::ids::{PluginId, SlotId};

verus! {

/// Default bus capacity: enough for any plausible boot or teardown.
pub const DEFAULT_CAPACITY: usize = 256;

/// How a derived capability was produced from its parent.
#[derive(Debug, Clone, Copy, PartialEq, Eq, Structural)]
pub enum DeriveKind {
    /// A peer's view of the parent; the parent is unchanged.
    Grant,
    /// A narrower view of the parent; the parent is unchanged.
    Restrict,
    /// The parent is cleared and the child takes over.
    Transfer,
}

/// One graph mutation or lifecycle step.
#[allow(inconsistent_fields)]
#[derive(Debug, Clone, PartialEq, Eq)]
pub enum GraphEvent {
    Minted { plugin: PluginId, slot: SlotId, capability: String, contract: String },
    Derived { parent: SlotId, child: SlotId, kind: DeriveKind },
    Revoked { slot: SlotId, capability: Option<String> },
    RevokeTree { root: SlotId, total: usize },
    PluginActivated { plugin: PluginId },
    PluginDeactivated { plugin: PluginId },
    ShutdownStarted,
    ShutdownCompleted { remaining_slots: usize },
}

#[verifier::external_type_specification]
#[verifier::external_body]
#[verifier::reject_recursive_types(T)]
pub struct ExSender<T>(Sender<T>);

#[verifier::external_type_specification]
#[verifier::external_body]
#[verifier::reject_recursive_types(T)]
pub struct ExReceiver<T>(Receiver<T>);

/// `tokio::sync::broadcast::channel`, keeping the sending half. The
/// channel panics on a capacity of 0 or above `usize::MAX / 2`, which
/// `requires` leaves out.
#[verifier::external_body]
fn broadcast_sender(capacity: usize) -> (r: Sender<GraphEvent>)
    requires
        0 < capacity <= usize::MAX / 2,
{
    tokio::sync::broadcast::channel(capacity).0
}

/// `Sender::send`: fails only when no receiver is subscribed, and then
/// hands the value back; on success it reports how many receivers the
/// value was queued for, which is at least one.
#[verifier::external_body]
fn broadcast_send(tx: &Sender<GraphEvent>, ev: GraphEvent) -> (r: Result<usize, GraphEvent>)
    ensures
        r matches Ok(n) ==> n > 0,
        r matches Err(back) ==> back == ev,
{
    tx.send(ev).map_err(|e| e.0)
}

/// `Sender::subscribe`: a receiver of every value sent after this call.
/// (Tokio panics when the number of live receivers reaches its internal
/// maximum; that count is not a function of the arguments and is not
/// stated here.)
#[verifier::external_body]
fn broadcast_subscribe(tx: &Sender<GraphEvent>) -> (r: Receiver<GraphEvent>) {
    tx.subscribe()
}

/// `Sender::receiver_count`: the number of live receivers right now
/// (it depends on receivers dropped elsewhere; nothing is stated).
#[verifier::external_body]
fn broadcast_receiver_count(tx: &Sender<GraphEvent>) -> (r: usize) {
    tx.receiver_count()
}

/// The event bus held by every capability space.
pub struct GraphEventBus {
    tx: Sender<GraphEvent>,
    capacity: Ghost<nat>,
    /// Whether a receiver was ever taken from the bus. Until one is, the
    /// channel has none (the receiving half made with it is dropped at
    /// once, and every later receiver descends from a subscription).
    subscribed: bool,
}

impl GraphEventBus {
    /// The capacity the channel was asked for when the bus was made.
    pub closed spec fn capacity(&self) -> nat {
        self.capacity@
    }

    /// Whether `subscribe` was ever called on this bus.
    pub closed spec fn ever_subscribed(&self) -> bool {
        self.subscribed
    }

    /// A bus with the default capacity.
    pub fn new() -> (r: GraphEventBus)
        ensures
            r.capacity() == DEFAULT_CAPACITY,
            !r.ever_subscribed(),
    {
        Self::with_capacity(DEFAULT_CAPACITY)
    }

    /// A bus with an explicit capacity; 0 is raised to 1.
    pub fn with_capacity(capacity: usize) -> (r: GraphEventBus)
        requires
            capacity <= usize::MAX / 2,
        ensures
            r.capacity() == (if capacity == 0 { 1 } else { capacity as nat }),
            !r.ever_subscribed(),
    {
        let c = if capacity == 0 { 1 } else { capacity };
        GraphEventBus { tx: broadcast_sender(c), capacity: Ghost(c as nat), subscribed: false }
    }

    /// A receiver of every event published after this call.
    pub fn subscribe(&mut self) -> (r: Receiver<GraphEvent>)
        ensures
            final(self).ever_subscribed(),
            final(self).capacity() == old(self).capacity(),
    {
        self.subscribed = true;
        broadcast_subscribe(&self.tx)
    }

    /// Publish an event. `Err` hands the event back when no receiver
    /// is subscribed (the event is dropped), as on a bus nobody ever
    /// subscribed to; `Ok` carries the number of receivers it was
    /// queued for.
    pub fn publish(&self, ev: GraphEvent) -> (r: Result<usize, GraphEvent>)
        ensures
            r matches Ok(n) ==> n > 0,
            r matches Err(back) ==> back == ev,
            !self.ever_subscribed() ==> r == Err::<usize, GraphEvent>(ev),
    {
        if !self.subscribed {
            return Err(ev);
        }
        broadcast_send(&self.tx, ev)
    }

    /// Number of live receivers: none on a bus nobody ever subscribed
    /// to.
    pub fn receiver_count(&self) -> (r: usize)
        ensures
            !self.ever_subscribed() ==> r == 0,
    {
        if !self.subscribed {
            return 0;
        }
        broadcast_receiver_count(&self.tx)
    }
}

} // verus!
