//! Identities — `CapabilityId`, `SlotId`, `PluginId` — and the runtime
//! kind discriminator `CapKind`.

use vstd::prelude::*;
use crate::text::{decimal, push_decimal};

verus! {

/// Unforgeable capability identifier (the `cap:0`, `cap:1` namespace).
#[derive(Clone, Copy, Debug, PartialEq, Eq, Hash, Structural)]
pub struct CapabilityId(pub u64);

impl CapabilityId {
    /// `cap:` and the number, as capability ids are displayed.
    pub fn to_text(&self) -> (r: String)
        ensures
            r@ == "cap:"@ + decimal(self.0 as nat),
    {
        let mut s = String::from_str("cap:");
        push_decimal(&mut s, self.0);
        s
    }
}

/// Stable position in a `CapabilitySpace`. Never zero: the space's
/// allocator starts at 1.
#[derive(Clone, Copy, Debug, PartialEq, Eq, Hash, Structural)]
pub struct SlotId(u64);

impl View for SlotId {
    type V = u64;

    closed spec fn view(&self) -> u64 {
        self.0
    }
}

impl SlotId {
    #[verifier::type_invariant]
    spec fn nonzero(self) -> bool {
        self.0 != 0
    }

    /// Construct a slot id from its raw number. Zero is not a slot id.
    pub fn new(raw: u64) -> (r: SlotId)
        requires
            raw != 0,
        ensures
            r@ == raw,
    {
        SlotId(raw)
    }

    /// The raw number of this slot id.
    pub fn raw(&self) -> (r: u64)
        ensures
            r == self@,
            r != 0,
    {
        proof {
            use_type_invariant(self);
        }
        self.0
    }

    /// Equality of slot ids is equality of their raw numbers.
    pub fn same(&self, other: &SlotId) -> (r: bool)
        ensures
            r == (self@ == other@),
    {
        self.0 == other.0
    }
    /// `slot:` and the raw number, as slot ids are displayed.
    pub fn to_text(&self) -> (r: String)
        ensures
            r@ == "slot:"@ + decimal(self@ as nat),
    {
        let mut s = String::from_str("slot:");
        push_decimal(&mut s, self.0);
        s
    }
}

/// Two slot ids with the same raw number are the same slot id.
pub proof fn law_slot_id_by_raw(a: SlotId, b: SlotId)
    ensures
        (a == b) <==> (a@ == b@),
{
}

/// Runtime distinction between sync and streaming capabilities.
#[derive(Clone, Copy, Debug, PartialEq, Eq, Hash, Structural)]
pub enum CapKind {
    Sync,
    Stream,
}

impl Default for CapKind {
    /// A manifest that names no kind declares a sync capability.
    fn default() -> (r: CapKind)
        ensures
            r == CapKind::Sync,
    {
        CapKind::Sync
    }
}

/// Identity of a plugin: its name and version.
#[derive(Debug, PartialEq, Eq, Hash, PartialOrd, Ord)]
pub struct PluginId {
    pub name: String,
    pub version: String,
}

impl Clone for PluginId {
    fn clone(&self) -> (r: PluginId)
        ensures
            r == *self,
    {
        PluginId { name: self.name.clone(), version: self.version.clone() }
    }
}

/// Type-level marker for sync capabilities.
pub struct SyncKind;

/// Type-level marker for streaming capabilities.
pub struct StreamKind;

/// The kind a type-level marker stands for.
pub trait CapabilityKind {
    fn streaming() -> (r: bool);
}

impl CapabilityKind for SyncKind {
    fn streaming() -> (r: bool)
        ensures
            !r,
    {
        false
    }
}

impl CapabilityKind for StreamKind {
    fn streaming() -> (r: bool)
        ensures
            r,
    {
        true
    }
}

} // verus!
