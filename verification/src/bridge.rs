//! The decisions of the HTTP bridge: what `/api/caps` lists, and how a
//! request naming a capability is routed to `invoke` or `open`. The
//! transport itself (routes, JSON bodies, server-sent events) lives
//! with the program that serves it.

use vstd::prelude::*;
use serde_json::Value;
use crate::kernel::cspace::{lists_all, metas_of, named, sorted_by_key, CapabilitySpace};
use crate::kernel::resource::{CapabilityChunk, Resource};
use crate::text::decimal;
use crate::types::ids::CapKind;
use crate::types::meta::CapabilityMeta;
use crate::types::rights::OperationRights;

verus! {

/// One row of the capability listing.
pub struct CapInfo {
    pub name: String,
    /// The capability id as displayed: `cap:` and the number.
    pub id: String,
    pub streaming: bool,
    pub timeout_ms: u32,
    pub in_type: String,
    pub out_type: String,
}

/// `info` is the listing row of `m`.
pub open spec fn info_of(m: CapabilityMeta, info: CapInfo) -> bool {
    &&& info.name@ == m.name@
    &&& info.id@ == "cap:"@ + decimal(m.id.0 as nat)
    &&& info.streaming == (m.kind == CapKind::Stream)
    &&& info.timeout_ms == m.timeout_ms
    &&& info.in_type@ == m.in_type@
    &&& info.out_type@ == m.out_type@
}

/// The listing rows of `metas`, position by position.
pub fn cap_infos(metas: &Vec<CapabilityMeta>) -> (r: Vec<CapInfo>)
    ensures
        r@.len() == metas@.len(),
        forall|i: int| 0 <= i < metas@.len() ==> info_of(metas@[i], #[trigger] r@[i]),
{
    let mut r: Vec<CapInfo> = Vec::new();
    let mut i: usize = 0;
    while i < metas.len()
        invariant
            i <= metas@.len(),
            r@.len() == i,
            forall|j: int| 0 <= j < i ==> info_of(metas@[j], #[trigger] r@[j]),
        decreases metas@.len() - i,
    {
        let m = &metas[i];
        let streaming = match m.kind {
            CapKind::Stream => true,
            CapKind::Sync => false,
        };
        r.push(
            CapInfo {
                name: m.name.clone(),
                id: m.id.to_text(),
                streaming,
                timeout_ms: m.timeout_ms,
                in_type: m.in_type.clone(),
                out_type: m.out_type.clone(),
            },
        );
        i = i + 1;
    }
    r
}

/// What `/api/caps` answers: a row for every occupied slot, sorted by
/// capability name.
pub fn list_caps<H>(space: &CapabilitySpace<H>) -> (r: Vec<CapInfo>)
    requires
        space.wf(),
    ensures
        exists|order: Seq<u64>, metas: Seq<CapabilityMeta>|
            {
                &&& lists_all(space.slots(), order)
                &&& #[trigger] metas_of(space.slots(), order, metas)
                &&& sorted_by_key(metas, false)
                &&& r@.len() == metas.len()
                &&& forall|i: int| 0 <= i < metas.len() ==> info_of(metas[i], #[trigger] r@[i])
            },
{
    let metas = space.enumerate();
    let r = cap_infos(&metas);
    proof {
        let order = choose|order: Seq<u64>|
            lists_all(space.slots(), order) && #[trigger] metas_of(space.slots(), order, metas@);
        assert(metas_of(space.slots(), order, metas@));
    }
    r
}

/// The refusal for a request that names no registered capability.
pub open spec fn not_found_message(name: Seq<char>) -> Seq<char> {
    "capability not found: "@ + name
}

/// The refusal for a sync request that names a streaming capability.
pub open spec fn use_stream_message(name: Seq<char>) -> Seq<char> {
    name + " is streaming; use /api/stream"@
}

/// The refusal for a stream request that names a sync capability.
pub open spec fn use_invoke_message(name: Seq<char>) -> Seq<char> {
    name + " is not streaming; use /api/invoke"@
}

fn not_found(name: &str) -> (r: String)
    ensures
        r@ == not_found_message(name@),
{
    let mut s = String::from_str("capability not found: ");
    s.append(name);
    s
}

/// `k` is the occupied slot registered under `name`.
pub open spec fn registered_kind<H>(space: CapabilitySpace<H>, name: Seq<char>, k: u64) -> bool {
    space.slots().contains_key(k) && named(space.slots()[k], name)
}

impl<H: Resource> CapabilitySpace<H> {
    /// `POST /api/invoke`: invoke the sync capability registered under
    /// `name`. Refused when no capability is registered under the name,
    /// or when it is a stream; otherwise the answer of `invoke` on its
    /// slot.
    pub fn bridge_invoke(&mut self, name: &str, input: Value) -> (r: Result<Value, String>)
        requires
            old(self).wf(),
        ensures
            final(self).wf(),
            final(self).slots() == old(self).slots(),
            !old(self).name_taken(name@) ==> (r matches Err(e) && e@ == not_found_message(name@))
                && *final(self) == *old(self),
            forall|k: u64|
                #[trigger] registered_kind(*old(self), name@, k) ==> {
                    let c = old(self).slots()[k].cap;
                    &&& c.kind == CapKind::Stream ==> (r matches Err(e) && e@ == use_stream_message(
                        name@,
                    )) && *final(self) == *old(self)
                    &&& c.kind == CapKind::Sync ==> final(self).only_budget_changed(old(self), k)
                        && final(self).sync_call(old(self), k, OperationRights { bits: 4 }, input, r)
                    &&& r is Ok ==> c.kind == CapKind::Sync
                },
            r is Ok ==> old(self).name_taken(name@),
    {
        let slot = match self.slot_by_name(name) {
            None => {
                return Err(not_found(name));
            },
            Some(s) => s,
        };
        let streaming = match self.lookup(slot) {
            Some(c) => c.is_streaming(),
            None => false,
        };
        proof {
            assert forall|k: u64| #[trigger] registered_kind(*old(self), name@, k) implies k == slot@ by {
                if k != slot@ {
                    assert(named(self.slots()[k], name@) && named(self.slots()[slot@], name@));
                }
            }
        }
        if streaming {
            let mut s = String::from_str(name);
            s.append(" is streaming; use /api/stream");
            return Err(s);
        }
        self.invoke(slot, input)
    }

    /// `POST /api/stream`: open the streaming capability registered
    /// under `name`. Refused when no capability is registered under the
    /// name, or when it is sync; otherwise the answer of `open` on its
    /// slot.
    pub fn bridge_open(&mut self, name: &str, input: Value) -> (r: Result<
        tokio::sync::mpsc::Receiver<CapabilityChunk>,
        String,
    >)
        requires
            old(self).wf(),
        ensures
            final(self).wf(),
            final(self).slots() == old(self).slots(),
            !old(self).name_taken(name@) ==> (r matches Err(e) && e@ == not_found_message(name@))
                && *final(self) == *old(self),
            forall|k: u64|
                #[trigger] registered_kind(*old(self), name@, k) ==> {
                    let c = old(self).slots()[k].cap;
                    &&& c.kind == CapKind::Sync ==> (r matches Err(e) && e@ == use_invoke_message(
                        name@,
                    )) && *final(self) == *old(self)
                    &&& c.kind == CapKind::Stream ==> final(self).only_budget_changed(old(self), k)
                        && final(self).stream_open(old(self), k, input, r)
                    &&& r is Ok ==> c.kind == CapKind::Stream
                },
            r is Ok ==> old(self).name_taken(name@),
    {
        let slot = match self.slot_by_name(name) {
            None => {
                return Err(not_found(name));
            },
            Some(s) => s,
        };
        let streaming = match self.lookup(slot) {
            Some(c) => c.is_streaming(),
            None => false,
        };
        proof {
            assert forall|k: u64| #[trigger] registered_kind(*old(self), name@, k) implies k == slot@ by {
                if k != slot@ {
                    assert(named(self.slots()[k], name@) && named(self.slots()[slot@], name@));
                }
            }
        }
        if !streaming {
            let mut s = String::from_str(name);
            s.append(" is not streaming; use /api/invoke");
            return Err(s);
        }
        self.open(slot, input)
    }
}

} // verus!
