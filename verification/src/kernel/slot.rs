//! `Slot` — the unit of possession: a handle naming one slot of a
//! capability space. A builtin holds slots, not names; every operation
//! goes to the space, at the slot's id. Revoking a slot's contents does
//! not invalidate the handle: its lookups then find nothing.

use vstd::prelude::*;
use serde_json::Value;
use crate::kernel::cspace::{Capability, CapabilitySpace};
use crate::kernel::error::CapabilityError;
use crate::kernel::events::{DeriveKind, GraphEvent};
use crate::kernel::resource::{empty_slot_message, not_sync_message, CapabilityChunk, Resource};
use crate::types::ids::{CapKind, SlotId};
use crate::types::meta::CapabilityMeta;
use crate::types::rights::{CapabilityRights, OperationRights};

verus! {

/// A handle on one slot.
#[derive(Clone, Copy, Debug)]
pub struct Slot {
    id: SlotId,
}

impl View for Slot {
    type V = SlotId;

    closed spec fn view(&self) -> SlotId {
        self.id
    }
}

impl Slot {
    /// The handle on `id`.
    pub fn new(id: SlotId) -> (r: Slot)
        ensures
            r@ == id,
    {
        Slot { id }
    }

    /// The slot this handle names.
    pub fn id(&self) -> (r: SlotId)
        ensures
            r == self@,
    {
        self.id
    }

    /// The capability occupying the slot; `None` once it was revoked or
    /// while it is empty.
    pub fn capability<'a, H>(&self, space: &'a CapabilitySpace<H>) -> (r: Option<&'a Capability<H>>)
        requires
            space.wf(),
        ensures
            r matches Some(c) ==> space.slots().contains_key(self@@) && *c == space.slots()[self@@].cap,
            r is None ==> !space.slots().contains_key(self@@),
    {
        space.lookup(self.id)
    }

    /// The metadata of the capability occupying the slot.
    pub fn meta<H>(&self, space: &CapabilitySpace<H>) -> (r: Option<CapabilityMeta>)
        requires
            space.wf(),
        ensures
            r matches Some(m) ==> space.slots().contains_key(self@@) && m == space.slots()[self@@].cap.meta,
            r is None ==> !space.slots().contains_key(self@@),
    {
        space.slot_meta(self.id)
    }

    /// The runtime kind of the capability occupying the slot.
    pub fn kind<H>(&self, space: &CapabilitySpace<H>) -> (r: Option<CapKind>)
        requires
            space.wf(),
        ensures
            r matches Some(k) ==> space.slots().contains_key(self@@) && k == space.slots()[self@@].cap.kind,
            r is None ==> !space.slots().contains_key(self@@),
    {
        match space.lookup(self.id) {
            Some(c) => Some(c.kind()),
            None => None,
        }
    }

    /// Invoke the capability occupying the slot, claiming `EXECUTE`
    /// (see `CapabilitySpace::invoke`).
    pub fn invoke<H: Resource>(&self, space: &mut CapabilitySpace<H>, input: Value) -> (r: Result<Value, String>)
        requires
            old(space).wf(),
        ensures
            final(space).only_budget_changed(old(space), self@@),
            !old(space).slots().contains_key(self@@) ==> (r matches Err(e) && e@ == empty_slot_message(
                self@@,
            )),
            old(space).slots().contains_key(self@@) && old(space).slots()[self@@].cap.kind != CapKind::Sync
                ==> (r matches Err(e) && e@ == not_sync_message(old(space).slots()[self@@].cap.meta.name@)),
            old(space).slots().contains_key(self@@) ==> final(space).sync_call(
                old(space),
                self@@,
                OperationRights { bits: 4 },
                input,
                r,
            ),
            r is Ok ==> old(space).slots().contains_key(self@@) && old(space).slots()[self@@].cap.kind
                == CapKind::Sync && old(space).slots()[self@@].cap.operations.spec_contains(
                OperationRights { bits: 4 },
            ),
    {
        space.invoke(self.id, input)
    }

    /// Invoke the capability occupying the slot, claiming `requested`
    /// (see `CapabilitySpace::invoke_op`).
    pub fn invoke_op<H: Resource>(
        &self,
        space: &mut CapabilitySpace<H>,
        requested: OperationRights,
        input: Value,
    ) -> (r: Result<Value, String>)
        requires
            old(space).wf(),
        ensures
            final(space).only_budget_changed(old(space), self@@),
            !old(space).slots().contains_key(self@@) ==> (r matches Err(e) && e@ == empty_slot_message(
                self@@,
            )),
            old(space).slots().contains_key(self@@) ==> final(space).sync_call(
                old(space),
                self@@,
                requested,
                input,
                r,
            ),
            r is Ok ==> old(space).slots().contains_key(self@@) && old(space).slots()[self@@].cap.kind
                == CapKind::Sync && old(space).slots()[self@@].cap.operations.spec_contains(requested),
    {
        space.invoke_op(self.id, requested, input)
    }

    /// Open the stream of the capability occupying the slot (see
    /// `CapabilitySpace::open`).
    pub fn open<H: Resource>(&self, space: &mut CapabilitySpace<H>, input: Value) -> (r: Result<
        tokio::sync::mpsc::Receiver<CapabilityChunk>,
        String,
    >)
        requires
            old(space).wf(),
        ensures
            final(space).only_budget_changed(old(space), self@@),
            !old(space).slots().contains_key(self@@) ==> (r matches Err(e) && e@ == empty_slot_message(
                self@@,
            )),
            old(space).slots().contains_key(self@@) ==> final(space).stream_open(old(space), self@@, input, r),
            r is Ok ==> old(space).slots().contains_key(self@@) && old(space).slots()[self@@].cap.kind
                == CapKind::Stream,
    {
        space.open(self.id, input)
    }

    /// **Grant** from the slot (see `CapabilitySpace::grant`).
    pub fn grant<H: Clone>(&self, space: &mut CapabilitySpace<H>, rights: CapabilityRights, new_name: String) -> (r:
        Result<SlotId, CapabilityError>)
        requires
            old(space).wf(),
            old(space).next_slot() < u64::MAX,
            old(space).next_derived_id() < u64::MAX,
        ensures
            final(space).wf(),
            final(space).derivation_outcome(old(space), self@, rights, Some(new_name), r),
            r matches Ok(s) ==> final(space).events() == old(space).events().push(
                GraphEvent::Derived { parent: self@, child: s, kind: DeriveKind::Grant },
            ),
    {
        space.grant(self.id, rights, new_name)
    }

    /// **Restrict** from the slot (see `CapabilitySpace::restrict`).
    pub fn restrict<H: Clone>(&self, space: &mut CapabilitySpace<H>, rights: CapabilityRights, new_name: String) -> (r:
        Result<SlotId, CapabilityError>)
        requires
            old(space).wf(),
            old(space).next_slot() < u64::MAX,
            old(space).next_derived_id() < u64::MAX,
        ensures
            final(space).wf(),
            final(space).derivation_outcome(old(space), self@, rights, Some(new_name), r),
            r matches Ok(s) ==> final(space).events() == old(space).events().push(
                GraphEvent::Derived { parent: self@, child: s, kind: DeriveKind::Restrict },
            ),
    {
        space.restrict(self.id, rights, new_name)
    }

    /// **Transfer** from the slot: the capability moves to a fresh slot
    /// and this one is emptied (see `CapabilitySpace::transfer`).
    pub fn transfer<H: Clone>(&self, space: &mut CapabilitySpace<H>, rights: CapabilityRights) -> (r: Result<
        SlotId,
        CapabilityError,
    >)
        requires
            old(space).wf(),
            old(space).next_slot() < u64::MAX,
            old(space).next_derived_id() < u64::MAX,
        ensures
            final(space).wf(),
            r matches Err(e) ==> final(space).derivation_outcome(old(space), self@, rights, None, Err(e)),
            r is Ok ==> !final(space).slots().contains_key(self@@) && old(space).slots().contains_key(self@@)
                && old(space).slots()[self@@].cap.rights_of().spec_contains(rights),
    {
        space.transfer(self.id, rights)
    }

    /// **Revoke** the slot's contents; the handle stays valid.
    pub fn revoke<H>(&self, space: &mut CapabilitySpace<H>) -> (r: bool)
        requires
            old(space).wf(),
        ensures
            final(space).wf(),
            r == old(space).slots().contains_key(self@@),
            final(space).slots() == old(space).slots().remove(self@@),
    {
        space.revoke(self.id)
    }

    /// **Revoke tree**: the slot and every slot derived from it.
    /// Returns how many slots were emptied.
    pub fn revoke_tree<H>(&self, space: &mut CapabilitySpace<H>) -> (r: usize)
        requires
            old(space).wf(),
        ensures
            final(space).wf(),
            !final(space).slots().contains_key(self@@),
            final(space).slots().len() + r == old(space).slots().len(),
            forall|k: u64| #[trigger] final(space).slots().contains_key(k) ==> old(space).slots().contains_key(k)
                && final(space).slots()[k] == old(space).slots()[k],
    {
        let n = space.revoke_tree(self.id);
        proof {
            let order = choose|order: Seq<u64>|
                {
                    &&& #[trigger] crate::kernel::cspace::subtree_order(old(space).slots(), self@@, order)
                    &&& n == order.len()
                    &&& final(space).slots() == old(space).slots().remove_keys(order.to_set())
                    &&& crate::kernel::cspace::severed(final(space).slots(), self@@, order)
                    &&& final(space).events().len() == old(space).events().len() + n + 1
                    &&& final(space).events().take(old(space).events().len() as int) == old(space).events()
                    &&& crate::kernel::cspace::revoked_events(
                        old(space).slots(),
                        order,
                        final(space).events().subrange(
                            old(space).events().len() as int,
                            old(space).events().len() + n,
                        ),
                    )
                    &&& final(space).events().last() == GraphEvent::RevokeTree { root: self@, total: n }
                };
            assert(final(space).slots() == old(space).slots().remove_keys(order.to_set()));
        }
        n
    }
}

} // verus!
