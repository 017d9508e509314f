//! `CapabilitySpace` — the seL4 CSpace analogue. It owns the slots,
//! the name index, the derivation parents, the quota ledger and the
//! graph event bus. The four capability operations — grant, transfer,
//! restrict, revoke (and revoke of a whole derivation subtree) — live
//! here.
//!
//! A slot entry records the capability occupying the slot, the name it
//! is registered under (at most one per slot; each name names at most
//! one slot) and the slot it was derived from, if any.

use vstd::prelude::*;
use crate::kernel::error::CapabilityError;
use crate::kernel::events::{DeriveKind, GraphEvent, GraphEventBus, DEFAULT_CAPACITY};
use crate::kernel::quota::{call_offered, elapsed_ms, CapabilityBudget, QuotaLedger};
use crate::kernel::resource::{
    answered_after, call_outcome, clock_now, empty_slot_message, empty_slot_refusal, invoke_gate, micros_since,
    not_stream_message, not_sync_message, denied_message, open_gate, open_quota_message,
    open_quota_refusal, quota_message, quota_refusal, CapabilityChunk, Resource,
};
use crate::types::quota::QuotaKind;
use serde_json::Value;
use crate::text::{
    has_prefix, lemma_lex_le_total, lemma_lex_lt_transitive, lex_le, lex_lt, sort_by_text,
    starts_with, str_eq, str_le, str_lt,
};
use crate::types::ids::{CapKind, CapabilityId, SlotId};
use crate::types::meta::CapabilityMeta;
use crate::types::rights::{law_rights_contains_partial_order, CapabilityRights, OperationRights};

verus! {

/// The capability object occupying a slot: metadata, the resource
/// handler, the operations it permits, its runtime kind and its
/// budget.
pub struct Capability<H> {
    pub meta: CapabilityMeta,
    pub handler: H,
    pub operations: OperationRights,
    pub kind: CapKind,
    pub budget: CapabilityBudget,
}

impl<H> Capability<H> {
    /// The full rights bag: operations and the per-call ceiling.
    pub open spec fn rights_of(&self) -> CapabilityRights {
        CapabilityRights { operations: self.operations, timeout_ms: self.budget.timeout() }
    }

    /// A freshly minted capability holds every operation.
    pub fn new(meta: CapabilityMeta, handler: H, budget: CapabilityBudget, kind: CapKind) -> (r:
        Capability<H>)
        ensures
            r.meta == meta,
            r.handler == handler,
            r.budget == budget,
            r.kind == kind,
            r.operations.bits == 15,
    {
        Capability { meta, handler, operations: OperationRights::all(), kind, budget }
    }

    pub fn name(&self) -> (r: &str)
        ensures
            r@ == self.meta.name@,
    {
        self.meta.name.as_str()
    }

    pub fn id(&self) -> (r: CapabilityId)
        ensures
            r == self.meta.id,
    {
        self.meta.id
    }

    pub fn meta(&self) -> (r: &CapabilityMeta)
        ensures
            *r == self.meta,
    {
        &self.meta
    }

    pub fn kind(&self) -> (r: CapKind)
        ensures
            r == self.kind,
    {
        self.kind
    }

    /// Operations currently held.
    pub fn operations(&self) -> (r: OperationRights)
        ensures
            r == self.operations,
    {
        self.operations
    }

    /// Full rights bag — both axes.
    pub fn rights(&self) -> (r: CapabilityRights)
        ensures
            r == self.rights_of(),
    {
        CapabilityRights { operations: self.operations, timeout_ms: self.budget.timeout_ms() }
    }

    pub fn is_streaming(&self) -> (r: bool)
        ensures
            r == (self.kind == CapKind::Stream),
    {
        match self.kind {
            CapKind::Stream => true,
            CapKind::Sync => false,
        }
    }
}

/// One occupied slot.
pub struct Entry<H> {
    pub slot: SlotId,
    pub cap: Capability<H>,
    /// The name this slot is registered under in the name index.
    pub name: Option<String>,
    /// The slot this one was derived from (grant, restrict, transfer).
    pub parent: Option<SlotId>,
}

/// `e` is registered under `n`.
pub open spec fn named<H>(e: Entry<H>, n: Seq<char>) -> bool {
    e.name matches Some(s) && s@ == n
}

/// `e` was derived from the slot `p`.
pub open spec fn child_of<H>(e: Entry<H>, p: u64) -> bool {
    e.parent matches Some(q) && q@ == p
}

pub open spec fn distinct_slots<H>(es: Seq<Entry<H>>) -> bool {
    forall|i: int, j: int|
        0 <= i < es.len() && 0 <= j < es.len() && i != j ==> #[trigger] es[i].slot@ != #[trigger] es[j].slot@
}

pub open spec fn distinct_names<H>(es: Seq<Entry<H>>) -> bool {
    forall|i: int, j: int|
        0 <= i < es.len() && 0 <= j < es.len() && i != j && (#[trigger] es[i]).name is Some
            && (#[trigger] es[j]).name is Some ==> es[i].name->0@ != es[j].name->0@
}

pub open spec fn has_slot<H>(es: Seq<Entry<H>>, k: u64) -> bool {
    exists|i: int| 0 <= i < es.len() && (#[trigger] es[i]).slot@ == k
}

/// The slots of a sequence of entries, as a map from raw slot number.
pub open spec fn slot_map<H>(es: Seq<Entry<H>>) -> Map<u64, Entry<H>> {
    Map::new(
        |k: u64| has_slot(es, k),
        |k: u64| es[choose|i: int| 0 <= i < es.len() && (#[trigger] es[i]).slot@ == k],
    )
}

pub proof fn lemma_slot_map_at<H>(es: Seq<Entry<H>>, i: int)
    requires
        distinct_slots(es),
        0 <= i < es.len(),
    ensures
        slot_map(es).contains_key(es[i].slot@),
        slot_map(es)[es[i].slot@] == es[i],
{
    let k = es[i].slot@;
    assert(has_slot(es, k));
    let j = choose|j: int| 0 <= j < es.len() && (#[trigger] es[j]).slot@ == k;
    assert(es[j].slot@ == k);
}

pub proof fn lemma_slot_map_remove<H>(es: Seq<Entry<H>>, i: int)
    requires
        distinct_slots(es),
        0 <= i < es.len(),
    ensures
        distinct_slots(es.remove(i)),
        slot_map(es.remove(i)) == slot_map(es).remove(es[i].slot@),
{
    let r = es.remove(i);
    let k = es[i].slot@;
    assert forall|a: int, b: int|
        0 <= a < r.len() && 0 <= b < r.len() && a != b implies #[trigger] r[a].slot@ != #[trigger] r[b].slot@ by {
        let a2 = if a < i { a } else { a + 1 };
        let b2 = if b < i { b } else { b + 1 };
        assert(r[a] == es[a2]);
        assert(r[b] == es[b2]);
    }
    assert forall|x: u64| #[trigger] slot_map(r).contains_key(x) <==> slot_map(es).remove(k).contains_key(x) by {
        if has_slot(r, x) {
            let a = choose|a: int| 0 <= a < r.len() && (#[trigger] r[a]).slot@ == x;
            let a2 = if a < i { a } else { a + 1 };
            assert(r[a] == es[a2]);
            assert(has_slot(es, x));
        }
        if has_slot(es, x) && x != k {
            let a = choose|a: int| 0 <= a < es.len() && (#[trigger] es[a]).slot@ == x;
            let a2 = if a < i { a } else { a - 1 };
            assert(r[a2] == es[a]);
            assert(has_slot(r, x));
        }
    }
    assert forall|x: u64| #[trigger] slot_map(r).contains_key(x) implies slot_map(r)[x] == slot_map(es).remove(k)[x] by {
        let a = choose|a: int| 0 <= a < r.len() && (#[trigger] r[a]).slot@ == x;
        let a2 = if a < i { a } else { a + 1 };
        assert(r[a] == es[a2]);
        lemma_slot_map_at(r, a);
        lemma_slot_map_at(es, a2);
    }
    assert(slot_map(r) =~= slot_map(es).remove(k));
}

pub proof fn lemma_slot_map_update<H>(es: Seq<Entry<H>>, i: int, e: Entry<H>)
    requires
        distinct_slots(es),
        0 <= i < es.len(),
        e.slot@ == es[i].slot@,
    ensures
        distinct_slots(es.update(i, e)),
        slot_map(es.update(i, e)) == slot_map(es).insert(e.slot@, e),
{
    let r = es.update(i, e);
    let k = e.slot@;
    assert forall|a: int, b: int|
        0 <= a < r.len() && 0 <= b < r.len() && a != b implies #[trigger] r[a].slot@ != #[trigger] r[b].slot@ by {
        assert(r[a].slot@ == es[a].slot@);
        assert(r[b].slot@ == es[b].slot@);
    }
    assert forall|x: u64| #[trigger] slot_map(r).contains_key(x) <==> slot_map(es).insert(k, e).contains_key(x) by {
        if has_slot(r, x) {
            let a = choose|a: int| 0 <= a < r.len() && (#[trigger] r[a]).slot@ == x;
            assert(es[a].slot@ == x);
        }
        if has_slot(es, x) {
            let a = choose|a: int| 0 <= a < es.len() && (#[trigger] es[a]).slot@ == x;
            assert(r[a].slot@ == x);
        }
        if x == k {
            assert(r[i].slot@ == x);
        }
    }
    assert forall|x: u64| #[trigger] slot_map(r).contains_key(x) implies slot_map(r)[x] == slot_map(es).insert(k, e)[x] by {
        let a = choose|a: int| 0 <= a < r.len() && (#[trigger] r[a]).slot@ == x;
        lemma_slot_map_at(r, a);
        if a != i {
            lemma_slot_map_at(es, a);
        }
    }
    assert(slot_map(r) =~= slot_map(es).insert(k, e));
}

pub proof fn lemma_slot_map_push<H>(es: Seq<Entry<H>>, e: Entry<H>)
    requires
        distinct_slots(es),
        !has_slot(es, e.slot@),
    ensures
        distinct_slots(es.push(e)),
        slot_map(es.push(e)) == slot_map(es).insert(e.slot@, e),
{
    let r = es.push(e);
    let k = e.slot@;
    assert forall|a: int, b: int|
        0 <= a < r.len() && 0 <= b < r.len() && a != b implies #[trigger] r[a].slot@ != #[trigger] r[b].slot@ by {
        if a < es.len() && b < es.len() {
            assert(r[a] == es[a] && r[b] == es[b]);
        } else if a < es.len() {
            assert(r[a] == es[a]);
        } else if b < es.len() {
            assert(r[b] == es[b]);
        }
    }
    assert forall|x: u64| #[trigger] slot_map(r).contains_key(x) <==> slot_map(es).insert(k, e).contains_key(x) by {
        if has_slot(r, x) {
            let a = choose|a: int| 0 <= a < r.len() && (#[trigger] r[a]).slot@ == x;
            if a < es.len() {
                assert(r[a] == es[a]);
            }
        }
        if has_slot(es, x) {
            let a = choose|a: int| 0 <= a < es.len() && (#[trigger] es[a]).slot@ == x;
            assert(r[a] == es[a]);
        }
        if x == k {
            assert(r[es.len() as int] == e);
        }
    }
    assert forall|x: u64| #[trigger] slot_map(r).contains_key(x) implies slot_map(r)[x] == slot_map(es).insert(k, e)[x] by {
        let a = choose|a: int| 0 <= a < r.len() && (#[trigger] r[a]).slot@ == x;
        lemma_slot_map_at(r, a);
        if a < es.len() {
            assert(r[a] == es[a]);
            lemma_slot_map_at(es, a);
        }
    }
    assert(slot_map(r) =~= slot_map(es).insert(k, e));
}


/// `m` with the registration under `n` dropped from whichever slot
/// holds it.
pub open spec fn unname<H>(m: Map<u64, Entry<H>>, n: Seq<char>) -> Map<u64, Entry<H>> {
    Map::new(
        |k: u64| m.contains_key(k),
        |k: u64|
            if named(m[k], n) {
                Entry { name: None, ..m[k] }
            } else {
                m[k]
            },
    )
}

/// `e` without its registration.
pub open spec fn drop_name<H>(e: Entry<H>) -> Entry<H> {
    Entry { name: None, ..e }
}

/// `es` with the registration of entry `j` dropped.
pub open spec fn unname_at<H>(es: Seq<Entry<H>>, j: int) -> Seq<Entry<H>> {
    es.update(j, drop_name(es[j]))
}

pub proof fn lemma_unname_absent<H>(es: Seq<Entry<H>>, n: Seq<char>)
    requires
        distinct_slots(es),
        forall|j: int| 0 <= j < es.len() ==> !named(#[trigger] es[j], n),
    ensures
        unname(slot_map(es), n) == slot_map(es),
{
    assert forall|k: u64| #[trigger] slot_map(es).contains_key(k) implies !named(slot_map(es)[k], n) by {
        let j = choose|j: int| 0 <= j < es.len() && (#[trigger] es[j]).slot@ == k;
        lemma_slot_map_at(es, j);
    }
    assert(unname(slot_map(es), n) =~= slot_map(es));
}

pub proof fn lemma_unname_one<H>(es: Seq<Entry<H>>, j: int, n: Seq<char>)
    requires
        distinct_slots(es),
        distinct_names(es),
        0 <= j < es.len(),
        named(es[j], n),
    ensures
        slot_map(unname_at(es, j)) == unname(slot_map(es), n),
        distinct_slots(unname_at(es, j)),
        distinct_names(unname_at(es, j)),
        forall|i: int| 0 <= i < es.len() ==> !named(#[trigger] unname_at(es, j)[i], n),
{
    let e = drop_name(es[j]);
    let r = unname_at(es, j);
    lemma_slot_map_update(es, j, e);
    lemma_slot_map_at(es, j);
    assert forall|k: u64| #[trigger] slot_map(es).contains_key(k) && k != es[j].slot@ implies !named(slot_map(es)[k], n) by {
        let i = choose|i: int| 0 <= i < es.len() && (#[trigger] es[i]).slot@ == k;
        lemma_slot_map_at(es, i);
        assert(i != j);
    }
    assert(slot_map(es).insert(es[j].slot@, e) =~= unname(slot_map(es), n));
    assert forall|a: int, b: int|
        0 <= a < r.len() && 0 <= b < r.len() && a != b && (#[trigger] r[a]).name is Some
            && (#[trigger] r[b]).name is Some implies r[a].name->0@ != r[b].name->0@ by {
        assert(a != j && b != j);
        assert(r[a] == es[a] && r[b] == es[b]);
    }
    assert forall|i: int| 0 <= i < es.len() implies !named(#[trigger] r[i], n) by {
        if i != j {
            assert(r[i] == es[i]);
            assert(es[i].name is Some ==> es[i].name->0@ != es[j].name->0@);
        }
    }
}

/// The capability namespace.
pub struct CapabilitySpace<H> {
    entries: Vec<Entry<H>>,
    ledger: QuotaLedger,
    next: u64,
    next_derived: u64,
    bus: GraphEventBus,
    log: Ghost<Seq<GraphEvent>>,
    /// When the space was made, on the monotonic clock; quota windows
    /// are measured from it.
    started: std::time::Instant,
}

impl<H> CapabilitySpace<H> {
    pub closed spec fn entries(&self) -> Seq<Entry<H>> {
        self.entries@
    }

    /// Occupied slots, by raw slot number.
    pub open spec fn slots(&self) -> Map<u64, Entry<H>> {
        slot_map(self.entries())
    }

    pub closed spec fn ledger(&self) -> QuotaLedger {
        self.ledger
    }

    /// Raw number of the last slot id handed out by `allocate`.
    pub closed spec fn next_slot(&self) -> u64 {
        self.next
    }

    /// Raw number of the last id handed to a derived capability.
    pub closed spec fn next_derived_id(&self) -> u64 {
        self.next_derived
    }

    /// The bus this space publishes on.
    pub closed spec fn event_bus(&self) -> GraphEventBus {
        self.bus
    }

    /// Every event this space has published, in order.
    pub closed spec fn events(&self) -> Seq<GraphEvent> {
        self.log@
    }

    pub open spec fn wf(&self) -> bool {
        &&& distinct_slots(self.entries())
        &&& distinct_names(self.entries())
        &&& self.ledger().wf()
        &&& forall|i: int|
            0 <= i < self.entries().len() ==> self.ledger().owns(
                (#[trigger] self.entries()[i]).cap.budget,
            )
    }

    /// Every occupied slot was handed out by `allocate`: none lies
    /// beyond the last slot id handed out.
    pub open spec fn allocated(&self) -> bool {
        forall|k: u64| #[trigger] self.slots().contains_key(k) ==> k <= self.next_slot()
    }

    /// Some occupied slot is registered under `n`.
    pub open spec fn name_taken(&self, n: Seq<char>) -> bool {
        exists|k: u64| self.slots().contains_key(k) && named(#[trigger] self.slots()[k], n)
    }

    /// An empty space with the default event bus.
    pub fn new() -> (r: CapabilitySpace<H>)
        ensures
            r.allocated(),
            r.event_bus().capacity() == DEFAULT_CAPACITY,
            !r.event_bus().ever_subscribed(),
            r.wf(),
            r.slots() == Map::<u64, Entry<H>>::empty(),
            r.next_slot() == 0,
            r.next_derived_id() == 0,
            r.events() == Seq::<GraphEvent>::empty(),
            r.ledger().buckets().len() == 0,
    {
        Self::with_bus(GraphEventBus::new())
    }

    /// An empty space publishing on `bus`.
    pub fn with_bus(bus: GraphEventBus) -> (r: CapabilitySpace<H>)
        ensures
            r.allocated(),
            r.event_bus() == bus,
            r.wf(),
            r.slots() == Map::<u64, Entry<H>>::empty(),
            r.next_slot() == 0,
            r.next_derived_id() == 0,
            r.events() == Seq::<GraphEvent>::empty(),
            r.ledger().buckets().len() == 0,
    {
        let r = CapabilitySpace {
            entries: Vec::new(),
            ledger: QuotaLedger::new(),
            next: 0,
            next_derived: 0,
            bus,
            log: Ghost(Seq::empty()),
            started: clock_now(),
        };
        assert(r.slots() =~= Map::<u64, Entry<H>>::empty());
        r
    }

    /// The quota ledger of this space.
    pub fn ledger_ref(&self) -> (r: &QuotaLedger)
        ensures
            *r == self.ledger(),
    {
        &self.ledger
    }

    /// The time for quota accounting: milliseconds on the monotonic
    /// clock since the space was made, counted from one full window so
    /// that the first minute's calls are all inside it.
    fn window_now(&self) -> (r: u64) {
        let ms = micros_since(&self.started) / 1000;
        if ms > u64::MAX - 60_000 {
            u64::MAX
        } else {
            ms + 60_000
        }
    }

    /// Raw number of the last slot id handed out.
    pub fn last_slot(&self) -> (r: u64)
        ensures
            r == self.next_slot(),
    {
        self.next
    }

    /// A budget with fresh accounting in this space's ledger.
    pub fn new_budget(&mut self, timeout_ms: u32, spec: crate::types::quota::QuotaSpec) -> (r:
        CapabilityBudget)
        requires
            old(self).wf(),
        ensures
            final(self).wf(),
            final(self).ledger().owns(r),
            r.timeout() == timeout_ms,
            final(self).ledger().buckets().last().spec_of() == spec,
            final(self).slots() == old(self).slots(),
            final(self).entries() == old(self).entries(),
            final(self).next_slot() == old(self).next_slot(),
            final(self).next_derived_id() == old(self).next_derived_id(),
            final(self).events() == old(self).events(),
    {
        let r = CapabilityBudget::with_spec(&mut self.ledger, timeout_ms, spec);
        proof {
            assert forall|i: int| 0 <= i < self.entries().len() implies self.ledger().owns(
                (#[trigger] self.entries()[i]).cap.budget,
            ) by {
                assert(old(self).ledger().owns(self.entries()[i].cap.budget));
            }
        }
        r
    }

    /// Subscribe to the graph event bus. Nothing but the bus changes.
    pub fn subscribe(&mut self) -> (r: tokio::sync::broadcast::Receiver<GraphEvent>)
        ensures
            final(self).event_bus().ever_subscribed(),
            final(self).event_bus().capacity() == old(self).event_bus().capacity(),
            final(self).entries() == old(self).entries(),
            final(self).ledger() == old(self).ledger(),
            final(self).events() == old(self).events(),
            final(self).next_slot() == old(self).next_slot(),
            final(self).next_derived_id() == old(self).next_derived_id(),
    {
        self.bus.subscribe()
    }

    /// The event bus.
    pub fn events_bus(&self) -> (r: &GraphEventBus)
        ensures
            *r == self.event_bus(),
    {
        &self.bus
    }

    /// Publish a graph event. Dropped silently when nobody listens.
    pub fn publish_event(&mut self, ev: GraphEvent)
        ensures
            final(self).events() == old(self).events().push(ev),
            final(self).entries() == old(self).entries(),
            final(self).ledger() == old(self).ledger(),
            final(self).next_slot() == old(self).next_slot(),
            final(self).next_derived_id() == old(self).next_derived_id(),
    {
        proof {
            self.log@ = self.log@.push(ev);
        }
        if self.bus.receiver_count() == 0 {
            return;
        }
        let _ = self.bus.publish(ev);
    }

    /// Hand out a fresh slot id; the slot is empty until installed.
    pub fn allocate(&mut self) -> (r: SlotId)
        requires
            old(self).next_slot() < u64::MAX,
        ensures
            old(self).allocated() ==> final(self).allocated(),
            r@ == old(self).next_slot() + 1,
            final(self).next_slot() == old(self).next_slot() + 1,
            final(self).entries() == old(self).entries(),
            final(self).ledger() == old(self).ledger(),
            final(self).next_derived_id() == old(self).next_derived_id(),
            final(self).events() == old(self).events(),
    {
        self.next = self.next + 1;
        proof {
            assert(self.slots() == old(self).slots());
        }
        SlotId::new(self.next)
    }

    fn find_slot(&self, slot: SlotId) -> (r: Option<usize>)
        requires
            self.wf(),
        ensures
            r matches Some(i) ==> i < self.entries().len() && self.entries()[i as int].slot@
                == slot@ && self.slots().contains_key(slot@) && self.slots()[slot@]
                == self.entries()[i as int],
            r is None ==> !self.slots().contains_key(slot@),
    {
        let mut i: usize = 0;
        while i < self.entries.len()
            invariant
                i <= self.entries.len(),
                self.wf(),
                forall|j: int| 0 <= j < i ==> (#[trigger] self.entries@[j]).slot@ != slot@,
            decreases self.entries.len() - i,
        {
            if self.entries[i].slot.same(&slot) {
                proof {
                    lemma_slot_map_at(self.entries@, i as int);
                }
                return Some(i);
            }
            i = i + 1;
        }
        None
    }

    fn find_name(&self, name: &str) -> (r: Option<usize>)
        requires
            self.wf(),
        ensures
            r matches Some(i) ==> i < self.entries().len() && named(
                self.entries()[i as int],
                name@,
            ),
            r is None ==> forall|j: int|
                0 <= j < self.entries().len() ==> !named(#[trigger] self.entries()[j], name@),
    {
        let mut i: usize = 0;
        while i < self.entries.len()
            invariant
                i <= self.entries.len(),
                self.wf(),
                forall|j: int| 0 <= j < i ==> !named(#[trigger] self.entries@[j], name@),
            decreases self.entries.len() - i,
        {
            match &self.entries[i].name {
                Some(n) => {
                    if str_eq(n.as_str(), name) {
                        return Some(i);
                    }
                },
                None => {},
            }
            i = i + 1;
        }
        None
    }

    /// The capability occupying `slot`, if any.
    pub fn lookup(&self, slot: SlotId) -> (r: Option<&Capability<H>>)
        requires
            self.wf(),
        ensures
            r matches Some(c) ==> self.slots().contains_key(slot@) && *c
                == self.slots()[slot@].cap,
            r is None ==> !self.slots().contains_key(slot@),
    {
        match self.find_slot(slot) {
            Some(i) => Some(&self.entries[i].cap),
            None => None,
        }
    }

    /// The capability registered under `name`, if any.
    pub fn lookup_by_name(&self, name: &str) -> (r: Option<&Capability<H>>)
        requires
            self.wf(),
        ensures
            r is Some <==> self.name_taken(name@),
            r matches Some(c) ==> exists|k: u64|
                self.slots().contains_key(k) && named(#[trigger] self.slots()[k], name@) && *c
                    == self.slots()[k].cap,
    {
        match self.find_name(name) {
            Some(i) => {
                proof {
                    lemma_slot_map_at(self.entries@, i as int);
                    let k = self.entries@[i as int].slot@;
                    assert(self.slots().contains_key(k) && named(self.slots()[k], name@));
                }
                Some(&self.entries[i].cap)
            },
            None => {
                proof {
                    if self.name_taken(name@) {
                        let k = choose|k: u64|
                            self.slots().contains_key(k) && named(#[trigger] self.slots()[k], name@);
                        let j = choose|j: int|
                            0 <= j < self.entries().len() && (#[trigger] self.entries()[j]).slot@ == k;
                        lemma_slot_map_at(self.entries@, j);
                        assert(!named(self.entries()[j], name@));
                    }
                }
                None
            },
        }
    }

    /// The slot registered under `name`, if any.
    pub fn slot_by_name(&self, name: &str) -> (r: Option<SlotId>)
        requires
            self.wf(),
        ensures
            r is Some <==> self.name_taken(name@),
            r matches Some(s) ==> self.slots().contains_key(s@) && named(self.slots()[s@], name@),
    {
        match self.find_name(name) {
            Some(i) => {
                proof {
                    lemma_slot_map_at(self.entries@, i as int);
                    let k = self.entries@[i as int].slot@;
                    assert(self.slots().contains_key(k) && named(self.slots()[k], name@));
                }
                Some(self.entries[i].slot)
            },
            None => {
                proof {
                    if self.name_taken(name@) {
                        let k = choose|k: u64|
                            self.slots().contains_key(k) && named(#[trigger] self.slots()[k], name@);
                        let j = choose|j: int|
                            0 <= j < self.entries().len() && (#[trigger] self.entries()[j]).slot@ == k;
                        lemma_slot_map_at(self.entries@, j);
                        assert(!named(self.entries()[j], name@));
                    }
                }
                None
            },
        }
    }

    /// Metadata of the capability at `slot`.
    pub fn slot_meta(&self, slot: SlotId) -> (r: Option<CapabilityMeta>)
        requires
            self.wf(),
        ensures
            r matches Some(m) ==> self.slots().contains_key(slot@) && m
                == self.slots()[slot@].cap.meta,
            r is None ==> !self.slots().contains_key(slot@),
    {
        match self.find_slot(slot) {
            Some(i) => Some(self.entries[i].cap.meta.clone()),
            None => None,
        }
    }

    /// The name `slot` is registered under (not necessarily its
    /// capability's own name: derived slots are registered under the
    /// name they were derived with).
    pub fn name_for_slot(&self, slot: SlotId) -> (r: Option<String>)
        requires
            self.wf(),
        ensures
            !self.slots().contains_key(slot@) ==> r is None,
            self.slots().contains_key(slot@) ==> r == self.slots()[slot@].name,
    {
        match self.find_slot(slot) {
            Some(i) => match &self.entries[i].name {
                Some(n) => Some(n.clone()),
                None => None,
            },
            None => None,
        }
    }


    /// Give up the registration under `name`, if some slot holds it.
    fn release_name(&mut self, name: &str)
        requires
            old(self).wf(),
        ensures
            final(self).wf(),
            final(self).slots() == unname(old(self).slots(), name@),
            forall|i: int|
                0 <= i < final(self).entries().len() ==> !named(#[trigger] final(self).entries()[i], name@),
            final(self).ledger() == old(self).ledger(),
            final(self).next_slot() == old(self).next_slot(),
            final(self).next_derived_id() == old(self).next_derived_id(),
            final(self).events() == old(self).events(),
    {
        match self.find_name(name) {
            Some(j) => {
                proof {
                    lemma_unname_one(self.entries@, j as int, name@);
                }
                let e = self.entries.remove(j);
                let Entry { slot, cap, name: _, parent } = e;
                self.entries.insert(j, Entry { slot, cap, name: None, parent });
                proof {
                    assert(self.entries@ =~= unname_at(old(self).entries@, j as int));
                    assert forall|i: int| 0 <= i < self.entries().len() implies self.ledger().owns(
                        (#[trigger] self.entries()[i]).cap.budget,
                    ) by {
                        assert(self.entries()[i].cap == old(self).entries()[i].cap);
                    }
                }
            },
            None => {
                proof {
                    lemma_unname_absent(self.entries@, name@);
                }
            },
        }
    }

    /// Put `entry` into its slot, replacing any occupant. The caller
    /// has released the entry's name from every other slot.
    fn put_entry(&mut self, entry: Entry<H>)
        requires
            old(self).wf(),
            old(self).ledger().owns(entry.cap.budget),
            entry.name matches Some(n) ==> forall|i: int|
                0 <= i < old(self).entries().len() && (#[trigger] old(self).entries()[i]).slot@
                    != entry.slot@ ==> !named(old(self).entries()[i], n@),
        ensures
            final(self).wf(),
            final(self).slots() == old(self).slots().insert(entry.slot@, entry),
            final(self).ledger() == old(self).ledger(),
            final(self).next_slot() == old(self).next_slot(),
            final(self).next_derived_id() == old(self).next_derived_id(),
            final(self).events() == old(self).events(),
    {
        let ghost es = self.entries@;
        match self.find_slot(entry.slot) {
            Some(i) => {
                proof {
                    lemma_slot_map_update(es, i as int, entry);
                }
                let _ = self.entries.remove(i);
                self.entries.insert(i, entry);
                proof {
                    assert(self.entries@ =~= es.update(i as int, entry));
                }
            },
            None => {
                proof {
                    if has_slot(es, entry.slot@) {
                        let j = choose|j: int| 0 <= j < es.len() && (#[trigger] es[j]).slot@ == entry.slot@;
                        lemma_slot_map_at(es, j);
                    }
                    lemma_slot_map_push(es, entry);
                }
                self.entries.push(entry);
            },
        }
        proof {
            let r = self.entries@;
            assert forall|a: int, b: int|
                0 <= a < r.len() && 0 <= b < r.len() && a != b && (#[trigger] r[a]).name is Some
                    && (#[trigger] r[b]).name is Some implies r[a].name->0@ != r[b].name->0@ by {
                if r[a].slot@ == entry.slot@ {
                    assert(r[b].slot@ != entry.slot@);
                    if r.len() == es.len() {
                        assert(r[b] == es[b]);
                    } else if b < es.len() {
                        assert(r[b] == es[b]);
                    }
                } else if r[b].slot@ == entry.slot@ {
                    if r.len() == es.len() {
                        assert(r[a] == es[a]);
                    } else if a < es.len() {
                        assert(r[a] == es[a]);
                    }
                } else {
                    if r.len() == es.len() {
                        assert(r[a] == es[a] && r[b] == es[b]);
                    } else {
                        assert(a < es.len() && b < es.len());
                        assert(r[a] == es[a] && r[b] == es[b]);
                    }
                }
            }
            assert forall|i: int| 0 <= i < r.len() implies self.ledger().owns(
                (#[trigger] r[i]).cap.budget,
            ) by {
                if r[i].slot@ != entry.slot@ {
                    if r.len() == es.len() {
                        assert(r[i] == es[i]);
                    } else {
                        assert(r[i] == es[i]);
                    }
                }
            }
        }
    }

    /// Install a capability into `slot`, registered under the
    /// capability's own name. A previous occupant is replaced (it keeps
    /// its derivation parent); a slot that held the name before loses
    /// it. Publishes `Minted`.
    pub fn install(&mut self, slot: SlotId, cap: Capability<H>)
        requires
            old(self).wf(),
            old(self).ledger().owns(cap.budget),
        ensures
            old(self).allocated() && slot@ <= old(self).next_slot() ==> final(self).allocated(),
            final(self).wf(),
            final(self).slots() == unname(old(self).slots(), cap.meta.name@).insert(
                slot@,
                Entry {
                    slot,
                    cap,
                    name: Some(cap.meta.name),
                    parent: if old(self).slots().contains_key(slot@) {
                        old(self).slots()[slot@].parent
                    } else {
                        None
                    },
                },
            ),
            final(self).ledger() == old(self).ledger(),
            final(self).next_slot() == old(self).next_slot(),
            final(self).next_derived_id() == old(self).next_derived_id(),
            final(self).events() == old(self).events().push(
                GraphEvent::Minted {
                    plugin: cap.meta.plugin,
                    slot,
                    capability: cap.meta.name,
                    contract: cap.meta.contract_name,
                },
            ),
    {
        let name = cap.meta.name.clone();
        let contract = cap.meta.contract_name.clone();
        let plugin = cap.meta.plugin.clone();
        let parent = match self.find_slot(slot) {
            Some(i) => self.entries[i].parent,
            None => None,
        };
        self.release_name(name.as_str());
        let ghost mid = self.slots();
        let entry = Entry { slot, cap, name: Some(name.clone()), parent };
        proof {
            assert(mid.insert(slot@, entry) == unname(old(self).slots(), entry.cap.meta.name@).insert(slot@, entry));
        }
        self.put_entry(entry);
        self.publish_event(GraphEvent::Minted { plugin, slot, capability: name, contract });
    }

    /// Revoke a slot: drop its occupant and its registration and its
    /// derivation parent. The slot id stays valid but is empty.
    /// Publishes `Revoked` (with the registered name) when something
    /// was removed; returns whether something was.
    pub fn revoke(&mut self, slot: SlotId) -> (r: bool)
        requires
            old(self).wf(),
        ensures
            old(self).allocated() ==> final(self).allocated(),
            final(self).wf(),
            r == old(self).slots().contains_key(slot@),
            final(self).slots() == old(self).slots().remove(slot@),
            final(self).ledger() == old(self).ledger(),
            final(self).next_slot() == old(self).next_slot(),
            final(self).next_derived_id() == old(self).next_derived_id(),
            final(self).events() == if r {
                old(self).events().push(
                    GraphEvent::Revoked { slot, capability: old(self).slots()[slot@].name },
                )
            } else {
                old(self).events()
            },
    {
        match self.find_slot(slot) {
            Some(i) => {
                let ghost es = self.entries@;
                proof {
                    lemma_slot_map_remove(es, i as int);
                }
                let e = self.entries.remove(i);
                let capability = e.name;
                proof {
                    let r = self.entries@;
                    assert(r =~= es.remove(i as int));
                    assert forall|a: int, b: int|
                        0 <= a < r.len() && 0 <= b < r.len() && a != b && (#[trigger] r[a]).name is Some
                            && (#[trigger] r[b]).name is Some implies r[a].name->0@ != r[b].name->0@ by {
                        let a2 = if a < i { a } else { a + 1 };
                        let b2 = if b < i { b } else { b + 1 };
                        assert(r[a] == es[a2] && r[b] == es[b2]);
                    }
                    assert forall|a: int| 0 <= a < r.len() implies self.ledger().owns(
                        (#[trigger] r[a]).cap.budget,
                    ) by {
                        let a2 = if a < i { a } else { a + 1 };
                        assert(r[a] == es[a2]);
                    }
                }
                self.publish_event(GraphEvent::Revoked { slot, capability });
                true
            },
            None => {
                proof {
                    assert(old(self).slots().remove(slot@) =~= old(self).slots());
                }
                false
            },
        }
    }

    /// Number of occupied slots.
    pub fn len(&self) -> (r: usize)
        requires
            self.wf(),
        ensures
            r == self.slots().len(),
    {
        proof {
            self.lemma_len();
        }
        self.entries.len()
    }

    /// No slot is occupied.
    pub fn is_empty(&self) -> (r: bool)
        requires
            self.wf(),
        ensures
            r == (self.slots().len() == 0),
    {
        self.len() == 0
    }

    /// The occupied slots are finitely many, as many as the space
    /// stores.
    pub proof fn lemma_len(&self)
        requires
            self.wf(),
        ensures
            self.slots().dom().finite(),
            self.slots().len() == self.entries().len(),
        decreases self.entries().len(),
    {
        lemma_slot_map_len(self.entries());
    }
}


/// The capability a derivation from `src` with `rights` produces, up to
/// its handler (a clone of the source's) and the wall-clock counter
/// (fresh): same metadata but for the new id and ceiling, the requested
/// operations, the same kind, the source's quota bucket.
pub open spec fn derived_from<H: Clone>(
    c: Capability<H>,
    src: Capability<H>,
    rights: CapabilityRights,
    id: u64,
) -> bool {
    &&& c.meta == CapabilityMeta { id: CapabilityId(id), timeout_ms: rights.timeout_ms, ..src.meta }
    &&& c.operations == rights.operations
    &&& c.kind == src.kind
    &&& c.budget.timeout() == rights.timeout_ms
    &&& c.budget.bucket() == src.budget.bucket()
    &&& c.budget.clock() == src.budget.clock()
    &&& cloned::<H>(src.handler, c.handler)
}

impl<H: Clone> CapabilitySpace<H> {
    /// The outcome every derivation (grant, restrict, transfer) shares:
    /// refusal when `from` is empty or `rights` exceed what it holds,
    /// otherwise a fresh slot registered under `new_name` holding the
    /// derived capability.
    pub open spec fn derivation_outcome(
        &self,
        old: &Self,
        from: SlotId,
        rights: CapabilityRights,
        new_name: Option<String>,
        r: Result<SlotId, CapabilityError>,
    ) -> bool {
        if !old.slots().contains_key(from@) {
            &&& r matches Err(CapabilityError::SlotEmpty(s)) && s == from
            &&& self.slots() == old.slots()
            &&& self.next_slot() == old.next_slot()
            &&& self.next_derived_id() == old.next_derived_id()
            &&& self.events() == old.events()
        } else if !old.slots()[from@].cap.rights_of().spec_contains(rights) {
            &&& r matches Err(CapabilityError::AttenuationViolation { from: f, requested, held })
                && f == from && requested == rights.operations && held
                == old.slots()[from@].cap.operations
            &&& self.slots() == old.slots()
            &&& self.next_slot() == old.next_slot()
            &&& self.next_derived_id() == old.next_derived_id()
            &&& self.events() == old.events()
        } else {
            &&& r matches Ok(s) && s@ == old.next_slot() + 1 && {
                let e = self.slots()[s@];
                &&& self.slots().contains_key(s@)
                &&& e.slot == s
                &&& new_name is Some ==> e.name == new_name
                &&& e.parent == Some(from)
                &&& derived_from(e.cap, old.slots()[from@].cap, rights, (old.next_derived_id() + 1) as u64)
                &&& old.slots()[from@].cap.rights_of().spec_contains(e.cap.rights_of())
            }
            &&& self.next_slot() == old.next_slot() + 1
            &&& self.next_derived_id() == old.next_derived_id() + 1
        }
    }

    fn derive_into(
        &mut self,
        from: SlotId,
        rights: CapabilityRights,
        new_name: String,
        how: DeriveKind,
    ) -> (r: Result<SlotId, CapabilityError>)
        requires
            old(self).wf(),
            old(self).next_slot() < u64::MAX,
            old(self).next_derived_id() < u64::MAX,
        ensures
            final(self).ledger() == old(self).ledger(),
            r is Err ==> *final(self) == *old(self),
            old(self).allocated() ==> (r matches Ok(s) ==> !old(self).slots().contains_key(s@)
                && final(self).slots().len() == old(self).slots().len() + 1 && final(self).allocated()),
            final(self).wf(),
            final(self).derivation_outcome(old(self), from, rights, Some(new_name), r),
            r matches Ok(s) ==> {
                &&& final(self).slots() == unname(old(self).slots(), new_name@).insert(
                    s@,
                    final(self).slots()[s@],
                )
                &&& final(self).events() == old(self).events().push(
                    GraphEvent::Derived { parent: from, child: s, kind: how },
                )
            },
    {
        let i = match self.find_slot(from) {
            Some(i) => i,
            None => {
                return Err(CapabilityError::SlotEmpty(from));
            },
        };
        let held = self.entries[i].cap.rights();
        if !held.contains(&rights) {
            return Err(CapabilityError::AttenuationViolation {
                from,
                requested: rights.operations,
                held: held.operations,
            });
        }
        self.next_derived = self.next_derived + 1;
        let new_id = CapabilityId(self.next_derived);
        let ghost src = self.entries@[i as int].cap;
        let mut meta = self.entries[i].cap.meta.clone();
        meta.id = new_id;
        meta.timeout_ms = rights.timeout_ms;
        let handler = self.entries[i].cap.handler.clone();
        let kind = self.entries[i].cap.kind;
        let src_budget = self.entries[i].cap.budget;
        let budget = CapabilityBudget::share_quota_with(&src_budget, rights.timeout_ms);
        proof {
            assert(self.ledger().wf()) by {
                assert(self.ledger().buckets() == old(self).ledger().buckets());
            }
            assert forall|j: int| 0 <= j < self.entries().len() implies self.ledger().owns(
                (#[trigger] self.entries()[j]).cap.budget,
            ) by {
                assert(old(self).ledger().owns(self.entries()[j].cap.budget));
            }
            assert(self.ledger().owns(budget)) by {
                assert(old(self).ledger().owns(src_budget));
            }
        }
        let cap = Capability { meta, handler, operations: rights.operations, kind, budget };
        let new_slot = self.allocate();
        self.release_name(new_name.as_str());
        let ghost mid = self.slots();
        let entry = Entry { slot: new_slot, cap, name: Some(new_name), parent: Some(from) };
        self.put_entry(entry);
        proof {
            assert(self.slots()[new_slot@] == entry);
            assert(self.slots() =~= unname(old(self).slots(), new_name@).insert(new_slot@, self.slots()[new_slot@]));
        }
        self.publish_event(GraphEvent::Derived { parent: from, child: new_slot, kind: how });
        proof {
            if old(self).allocated() {
                old(self).lemma_len();
                let u = unname(old(self).slots(), new_name@);
                assert(u.dom() =~= old(self).slots().dom());
                assert(!u.dom().contains(new_slot@));
                assert(self.slots().dom() =~= u.dom().insert(new_slot@));
                assert forall|k: u64| #[trigger] self.slots().contains_key(k) implies k <= self.next_slot() by {
                    if k != new_slot@ {
                        assert(old(self).slots().contains_key(k));
                    }
                }
            }
        }
        Ok(new_slot)
    }

    /// **Grant**: derive a new slot registered under `new_name` with
    /// the given rights; the source is unchanged. The rights must be
    /// contained in the source's: authority cannot be amplified. The
    /// child shares the source's quota bucket. Publishes `Derived`.
    pub fn grant(&mut self, from: SlotId, rights: CapabilityRights, new_name: String) -> (r: Result<
        SlotId,
        CapabilityError,
    >)
        requires
            old(self).wf(),
            old(self).next_slot() < u64::MAX,
            old(self).next_derived_id() < u64::MAX,
        ensures
            final(self).ledger() == old(self).ledger(),
            r is Err ==> *final(self) == *old(self),
            old(self).allocated() ==> (r matches Ok(s) ==> !old(self).slots().contains_key(s@)
                && final(self).slots().len() == old(self).slots().len() + 1 && final(self).allocated()),
            final(self).wf(),
            final(self).derivation_outcome(old(self), from, rights, Some(new_name), r),
            r matches Ok(s) ==> {
                &&& final(self).slots() == unname(old(self).slots(), new_name@).insert(
                    s@,
                    final(self).slots()[s@],
                )
                &&& final(self).events() == old(self).events().push(
                    GraphEvent::Derived { parent: from, child: s, kind: DeriveKind::Grant },
                )
            },
    {
        self.derive_into(from, rights, new_name, DeriveKind::Grant)
    }

    /// **Restrict**: the same derivation as `grant`, recorded as a
    /// narrowing of one's own authority (`Derived` with `Restrict`).
    pub fn restrict(&mut self, from: SlotId, rights: CapabilityRights, new_name: String) -> (r:
        Result<SlotId, CapabilityError>)
        requires
            old(self).wf(),
            old(self).next_slot() < u64::MAX,
            old(self).next_derived_id() < u64::MAX,
        ensures
            final(self).ledger() == old(self).ledger(),
            r is Err ==> *final(self) == *old(self),
            old(self).allocated() ==> (r matches Ok(s) ==> !old(self).slots().contains_key(s@)
                && final(self).slots().len() == old(self).slots().len() + 1 && final(self).allocated()),
            final(self).wf(),
            final(self).derivation_outcome(old(self), from, rights, Some(new_name), r),
            r matches Ok(s) ==> {
                &&& final(self).slots() == unname(old(self).slots(), new_name@).insert(
                    s@,
                    final(self).slots()[s@],
                )
                &&& final(self).events() == old(self).events().push(
                    GraphEvent::Derived { parent: from, child: s, kind: DeriveKind::Restrict },
                )
            },
    {
        self.derive_into(from, rights, new_name, DeriveKind::Restrict)
    }

    /// **Transfer**: move the capability to a fresh slot with the given
    /// (contained) rights, registered under the capability's own name;
    /// the source slot is then revoked. Publishes `Derived` then
    /// `Revoked`.
    pub fn transfer(&mut self, from: SlotId, rights: CapabilityRights) -> (r: Result<
        SlotId,
        CapabilityError,
    >)
        requires
            old(self).wf(),
            old(self).next_slot() < u64::MAX,
            old(self).next_derived_id() < u64::MAX,
        ensures
            final(self).wf(),
            r matches Err(e) ==> final(self).derivation_outcome(
                old(self),
                from,
                rights,
                None,
                Err(e),
            ),
            r matches Ok(s) ==> {
                let src = old(self).slots()[from@];
                let mid = unname(old(self).slots(), src.cap.meta.name@);
                &&& old(self).slots().contains_key(from@)
                &&& src.cap.rights_of().spec_contains(rights)
                &&& s@ == old(self).next_slot() + 1
                &&& !final(self).slots().contains_key(from@)
                &&& exists|e: Entry<H>|
                    {
                        &&& e.slot == s
                        &&& e.name == Some(src.cap.meta.name)
                        &&& e.parent == Some(from)
                        &&& #[trigger] derived_from(e.cap, src.cap, rights, (old(self).next_derived_id() + 1) as u64)
                        &&& final(self).slots() == mid.insert(s@, e).remove(from@)
                        &&& final(self).events() == old(self).events().push(
                            GraphEvent::Derived { parent: from, child: s, kind: DeriveKind::Transfer },
                        ).push(GraphEvent::Revoked { slot: from, capability: mid.insert(s@, e)[from@].name })
                    }
            },
    {
        let name = match self.find_slot(from) {
            Some(i) => self.entries[i].cap.meta.name.clone(),
            None => {
                return Err(CapabilityError::SlotEmpty(from));
            },
        };
        let r = self.derive_into(from, rights, name, DeriveKind::Transfer);
        match r {
            Ok(s) => {
                let ghost e = self.slots()[s@];
                let ghost mid = self.slots();
                self.revoke(from);
                proof {
                    let src = old(self).slots()[from@];
                    assert(derived_from(e.cap, src.cap, rights, (old(self).next_derived_id() + 1) as u64));
                    assert(self.slots() == unname(old(self).slots(), name@).insert(s@, e).remove(from@));
                }
                Ok(s)
            },
            Err(e) => Err(e),
        }
    }
}


/// `order` lists slots of `m` one by one such that each is `root` or
/// was derived from `root` or from a slot listed earlier: the slots of
/// the derivation subtree under `root`, parents before children.
pub open spec fn subtree_order<H>(m: Map<u64, Entry<H>>, root: u64, order: Seq<u64>) -> bool {
    &&& forall|i: int, j: int| 0 <= i < j < order.len() ==> order[i] != order[j]
    &&& forall|i: int|
        0 <= i < order.len() ==> {
            &&& m.contains_key(#[trigger] order[i])
            &&& order[i] == root || (m[order[i]].parent matches Some(p) && (p@ == root
                || exists|j: int| 0 <= j < i && order[j] == p@))
        }
}

/// No slot of `m` is `root` or derived from `root` or from a slot in
/// `gone`.
pub open spec fn severed<H>(m: Map<u64, Entry<H>>, root: u64, gone: Seq<u64>) -> bool {
    &&& !m.contains_key(root)
    &&& forall|k: u64|
        #[trigger] m.contains_key(k) ==> !(m[k].parent matches Some(p) && (p@ == root
            || gone.contains(p@)))
}

/// The events a subtree revocation publishes: one `Revoked` per slot,
/// in order, carrying the name the slot was registered under.
pub open spec fn revoked_events<H>(m: Map<u64, Entry<H>>, order: Seq<u64>, evs: Seq<GraphEvent>) -> bool {
    &&& evs.len() == order.len()
    &&& forall|i: int|
        0 <= i < order.len() ==> (#[trigger] evs[i] matches GraphEvent::Revoked { slot, capability }
            && slot@ == order[i] && capability == m[order[i]].name)
}

pub open spec fn slot_numbers(s: Seq<SlotId>) -> Seq<u64> {
    s.map_values(|x: SlotId| x@)
}

impl<H> CapabilitySpace<H> {
    /// An occupied slot derived from `root` or from one of `gone`.
    fn find_orphan(&self, root: SlotId, gone: &Vec<SlotId>) -> (r: Option<SlotId>)
        requires
            self.wf(),
        ensures
            r matches Some(s) ==> self.slots().contains_key(s@) && (self.slots()[s@].parent matches Some(
                p,
            ) && (p@ == root@ || slot_numbers(gone@).contains(p@))),
            r is None ==> forall|k: u64|
                #[trigger] self.slots().contains_key(k) ==> !(self.slots()[k].parent matches Some(p) && (p@
                    == root@ || slot_numbers(gone@).contains(p@))),
    {
        let mut i: usize = 0;
        while i < self.entries.len()
            invariant
                i <= self.entries.len(),
                self.wf(),
                forall|j: int|
                    0 <= j < i ==> !((#[trigger] self.entries@[j]).parent matches Some(p) && (p@ == root@
                        || slot_numbers(gone@).contains(p@))),
            decreases self.entries.len() - i,
        {
            match self.entries[i].parent {
                Some(p) => {
                    let mut hit = p.same(&root);
                    let mut j: usize = 0;
                    while j < gone.len() && !hit
                        invariant
                            j <= gone.len(),
                            !hit ==> p@ != root@,
                            !hit ==> forall|l: int| 0 <= l < j ==> gone@[l]@ != p@,
                            hit ==> (p@ == root@ || slot_numbers(gone@).contains(p@)),
                        decreases gone.len() - j,
                    {
                        if gone[j].same(&p) {
                            hit = true;
                            proof {
                                assert(slot_numbers(gone@)[j as int] == p@);
                            }
                        }
                        j = j + 1;
                    }
                    if hit {
                        proof {
                            lemma_slot_map_at(self.entries@, i as int);
                        }
                        return Some(self.entries[i].slot);
                    }
                    proof {
                        assert(j == gone.len());
                        if slot_numbers(gone@).contains(p@) {
                            let l = choose|l: int| 0 <= l < slot_numbers(gone@).len() && slot_numbers(gone@)[l] == p@;
                            assert(slot_numbers(gone@)[l] == gone@[l]@);
                            assert(gone@[l]@ == p@);
                        }
                    }
                },
                None => {},
            }
            i = i + 1;
        }
        proof {
            assert forall|k: u64| #[trigger] self.slots().contains_key(k) implies !(self.slots()[k].parent matches Some(p) && (p@
                == root@ || slot_numbers(gone@).contains(p@))) by {
                let j = choose|j: int| 0 <= j < self.entries().len() && (#[trigger] self.entries()[j]).slot@ == k;
                lemma_slot_map_at(self.entries@, j);
            }
        }
        None
    }

    /// **Revoke tree**: revoke `root` and every slot derived from it,
    /// directly or through other revoked slots, so that revocation
    /// propagates down multi-hop delegation chains. Slots derived from
    /// a `root` that is already empty are revoked too. Returns how many
    /// slots were removed. Publishes one `Revoked` per slot, then
    /// `RevokeTree` with the total.
    pub fn revoke_tree(&mut self, root: SlotId) -> (r: usize)
        requires
            old(self).wf(),
        ensures
            final(self).wf(),
            final(self).ledger() == old(self).ledger(),
            final(self).next_slot() == old(self).next_slot(),
            final(self).next_derived_id() == old(self).next_derived_id(),
            final(self).slots().len() + r == old(self).slots().len(),
            exists|order: Seq<u64>|
                {
                    &&& #[trigger] subtree_order(old(self).slots(), root@, order)
                    &&& r == order.len()
                    &&& final(self).slots() == old(self).slots().remove_keys(order.to_set())
                    &&& severed(final(self).slots(), root@, order)
                    &&& final(self).events().len() == old(self).events().len() + r + 1
                    &&& final(self).events().take(old(self).events().len() as int) == old(self).events()
                    &&& revoked_events(
                        old(self).slots(),
                        order,
                        final(self).events().subrange(
                            old(self).events().len() as int,
                            old(self).events().len() + r,
                        ),
                    )
                    &&& final(self).events().last() == GraphEvent::RevokeTree { root, total: r }
                },
    {
        let ghost m0 = self.slots();
        let ghost e0 = self.events();
        let mut gone: Vec<SlotId> = Vec::new();
        let mut count: usize = 0;
        if self.revoke(root) {
            gone.push(root);
            count = 1;
            proof {
                assert(slot_numbers(gone@) =~= seq![root@]);
                assert(slot_numbers(gone@)[0] == root@);
                assert(slot_numbers(gone@).to_set() =~= Set::<u64>::empty().insert(root@));
                assert(self.slots() =~= m0.remove_keys(slot_numbers(gone@).to_set()));
                assert(self.events().subrange(e0.len() as int, e0.len() + 1int) =~= seq![self.events().last()]);
            }
        } else {
            proof {
                assert(slot_numbers(gone@) =~= Seq::<u64>::empty());
                assert(slot_numbers(gone@).to_set() =~= Set::<u64>::empty());
                assert(self.slots() =~= m0.remove_keys(slot_numbers(gone@).to_set()));
                assert(self.events().subrange(e0.len() as int, e0.len() as int) =~= Seq::<GraphEvent>::empty());
            }
        }
        let mut done = false;
        while !done
            invariant
                self.wf(),
                self.ledger() == old(self).ledger(),
                self.next_slot() == old(self).next_slot(),
                self.next_derived_id() == old(self).next_derived_id(),
                m0 == old(self).slots(),
                e0 == old(self).events(),
                count == gone.len(),
                subtree_order(m0, root@, slot_numbers(gone@)),
                self.slots() == m0.remove_keys(slot_numbers(gone@).to_set()),
                !self.slots().contains_key(root@),
                self.events().len() == e0.len() + count,
                self.events().take(e0.len() as int) == e0,
                revoked_events(m0, slot_numbers(gone@), self.events().subrange(e0.len() as int, e0.len() + count)),
                done ==> severed(self.slots(), root@, slot_numbers(gone@)),
            decreases self.entries().len() + (if done { 0int } else { 1int }),
        {
            match self.find_orphan(root, &gone) {
                Some(s) => {
                    let ghost before = self.slots();
                    let ghost ev_before = self.events();
                    let ghost order = slot_numbers(gone@);
                    proof {
                        lemma_slot_map_len(self.entries());
                    }
                    self.revoke(s);
                    proof {
                        lemma_slot_map_len(self.entries());
                    }
                    gone.push(s);
                    count = gone.len();
                    proof {
                        let order2 = slot_numbers(gone@);
                        assert(order2 =~= order.push(s@));
                        assert(before.contains_key(s@));
                        assert(!order.contains(s@)) by {
                            if order.contains(s@) {
                                let j = choose|j: int| 0 <= j < order.len() && order[j] == s@;
                                assert(order.to_set().contains(s@));
                            }
                        }
                        assert(m0.contains_key(s@) && m0[s@] == before[s@]);
                        assert forall|i: int| 0 <= i < order2.len() implies {
                            &&& m0.contains_key(#[trigger] order2[i])
                            &&& order2[i] == root@ || (m0[order2[i]].parent matches Some(p) && (p@ == root@
                                || exists|j: int| 0 <= j < i && order2[j] == p@))
                        } by {
                            if i == order.len() {
                                if let Some(p) = m0[s@].parent {
                                    if p@ != root@ {
                                        let j = choose|j: int| 0 <= j < order.len() && order[j] == p@;
                                        assert(order2[j] == p@);
                                    }
                                }
                            } else {
                                assert(order2[i] == order[i]);
                                if order[i] != root@ {
                                    if let Some(p) = m0[order[i]].parent {
                                        if p@ != root@ {
                                            let j = choose|j: int| 0 <= j < i && order[j] == p@;
                                            assert(order2[j] == p@);
                                        }
                                    }
                                }
                            }
                        }
                        assert forall|i: int, j: int| 0 <= i < j < order2.len() implies order2[i] != order2[j] by {
                            if j == order.len() {
                                assert(order.contains(order2[i]));
                            }
                        }
                        assert forall|x: u64| order2.to_set().contains(x) == order.to_set().insert(s@).contains(x) by {
                            if order.contains(x) {
                                let j = choose|j: int| 0 <= j < order.len() && order[j] == x;
                                assert(order2[j] == x);
                            }
                            if x == s@ {
                                assert(order2[order.len() as int] == x);
                            }
                            if order2.contains(x) {
                                let j = choose|j: int| 0 <= j < order2.len() && order2[j] == x;
                                if j < order.len() {
                                    assert(order[j] == x);
                                }
                            }
                        }
                        assert(order2.to_set() =~= order.to_set().insert(s@));
                        assert(self.slots() =~= m0.remove_keys(order2.to_set()));
                        let sub = self.events().subrange(e0.len() as int, e0.len() + count);
                        let sub0 = ev_before.subrange(e0.len() as int, e0.len() + count - 1int);
                        assert(sub =~= sub0.push(self.events().last()));
                        assert(self.events().take(e0.len() as int) =~= ev_before.take(e0.len() as int));
                        assert forall|i: int| 0 <= i < order2.len() implies (#[trigger] sub[i] matches GraphEvent::Revoked { slot, capability }
                            && slot@ == order2[i] && capability == m0[order2[i]].name) by {
                            if i < order.len() {
                                assert(sub[i] == sub0[i]);
                            }
                        }
                    }
                },
                None => {
                    done = true;
                },
            }
        }
        let ghost order = slot_numbers(gone@);
        let ghost e1 = self.events();
        self.publish_event(GraphEvent::RevokeTree { root, total: count });
        proof {
            assert(self.events().take(e0.len() as int) =~= e1.take(e0.len() as int));
            assert(self.events().subrange(e0.len() as int, e0.len() + count) =~= e1.subrange(e0.len() as int, e0.len() + count));
            assert(subtree_order(old(self).slots(), root@, order));
            old(self).lemma_len();
            lemma_subtree_removal_len(old(self).slots(), root@, order);
        }
        count
    }
}

/// Removing the slots of a subtree listing removes exactly as many
/// slots as the listing holds.
pub proof fn lemma_subtree_removal_len<H>(m: Map<u64, Entry<H>>, root: u64, order: Seq<u64>)
    requires
        subtree_order(m, root, order),
        m.dom().finite(),
    ensures
        m.remove_keys(order.to_set()).len() + order.len() == m.len(),
{
    assert(order.no_duplicates());
    order.unique_seq_to_set();
    assert forall|k: u64| #[trigger] order.to_set().contains(k) implies m.contains_key(k) by {
        let i = choose|i: int| 0 <= i < order.len() && order[i] == k;
        assert(m.contains_key(order[i]));
    }
    m.lemma_remove_keys_len(order.to_set());
}

pub proof fn lemma_slot_map_len<H>(es: Seq<Entry<H>>)
    requires
        distinct_slots(es),
    ensures
        slot_map(es).dom().finite(),
        slot_map(es).len() == es.len(),
    decreases es.len(),
{
    if es.len() == 0 {
        assert(slot_map(es).dom() =~= Set::<u64>::empty());
    } else {
        let last = es.len() - 1;
        lemma_slot_map_remove(es, last);
        lemma_slot_map_len(es.remove(last));
        lemma_slot_map_at(es, last);
        assert(slot_map(es).dom() =~= slot_map(es.remove(last)).dom().insert(es[last].slot@));
    }
}


/// `ns` is filed under `prefix` in the dot-separated namespace tree:
/// the empty prefix and `"."` match everything; any other prefix
/// matches its own node and every node below it.
pub open spec fn under_namespace(ns: Seq<char>, prefix: Seq<char>) -> bool {
    ||| prefix.len() == 0
    ||| prefix == seq!['.']
    ||| ns == prefix
    ||| has_prefix(ns, prefix.push('.'))
}

/// Whether `namespace` is filed under `prefix`.
pub fn namespace_prefix_matches(namespace: &str, prefix: &str) -> (r: bool)
    ensures
        r == under_namespace(namespace@, prefix@),
{
    if prefix.unicode_len() == 0 {
        return true;
    }
    let dot = ".";
    proof {
        reveal_strlit(".");
        assert(dot@ =~= seq!['.']);
    }
    if str_eq(prefix, dot) {
        return true;
    }
    if str_eq(namespace, prefix) {
        return true;
    }
    let mut dotted = String::from_str(prefix);
    dotted.append(dot);
    proof {
        assert(dotted@ =~= prefix@.push('.'));
    }
    starts_with(namespace, dotted.as_str())
}

/// `order` lists, each exactly once, every slot of `m` whose
/// capability's namespace is filed under `prefix`.
pub open spec fn lists_under<H>(m: Map<u64, Entry<H>>, order: Seq<u64>, prefix: Seq<char>) -> bool {
    &&& forall|i: int, j: int| 0 <= i < j < order.len() ==> order[i] != order[j]
    &&& forall|i: int|
        0 <= i < order.len() ==> m.contains_key(#[trigger] order[i]) && under_namespace(
            m[order[i]].cap.meta.namespace@,
            prefix,
        )
    &&& forall|k: u64|
        #[trigger] m.contains_key(k) && under_namespace(m[k].cap.meta.namespace@, prefix)
            ==> order.contains(k)
}

/// `order` lists every slot of `m` exactly once.
pub open spec fn lists_all<H>(m: Map<u64, Entry<H>>, order: Seq<u64>) -> bool {
    &&& forall|i: int, j: int| 0 <= i < j < order.len() ==> order[i] != order[j]
    &&& forall|i: int| 0 <= i < order.len() ==> m.contains_key(#[trigger] order[i])
    &&& forall|k: u64| #[trigger] m.contains_key(k) ==> order.contains(k)
}

/// `metas` holds the metadata of the slots in `order`, position by
/// position.
pub open spec fn metas_of<H>(m: Map<u64, Entry<H>>, order: Seq<u64>, metas: Seq<CapabilityMeta>) -> bool {
    &&& metas.len() == order.len()
    &&& forall|i: int| 0 <= i < order.len() ==> #[trigger] metas[i] == m[order[i]].cap.meta
}

/// `sorted` is `metas` reordered so that names ascend in `str` order.
pub open spec fn metas_sorted_by_name(metas: Seq<CapabilityMeta>, sorted: Seq<CapabilityMeta>) -> bool {
    &&& exists|p: Seq<usize>|
        crate::text::is_permutation(p, metas.len()) && sorted.len() == metas.len() && (forall|i: int|
            0 <= i < sorted.len() ==> #[trigger] sorted[i] == metas[#[trigger] p[i] as int])
    &&& forall|i: int, j: int| 0 <= i < j < sorted.len() ==> lex_le(sorted[i].name@, sorted[j].name@)
}

/// The metadata sort key: the name, or the namespace.
pub open spec fn meta_key(m: CapabilityMeta, by_namespace: bool) -> Seq<char> {
    if by_namespace {
        m.namespace@
    } else {
        m.name@
    }
}

/// `metas` ascends by the chosen key in `str` order.
pub open spec fn sorted_by_key(metas: Seq<CapabilityMeta>, by_namespace: bool) -> bool {
    forall|i: int, j: int|
        0 <= i < j < metas.len() ==> lex_le(
            meta_key(metas[i], by_namespace),
            meta_key(metas[j], by_namespace),
        )
}

impl<H> CapabilitySpace<H> {
    /// Positions of the entries whose namespace is under `prefix`, in
    /// storage order.
    fn select_under(&self, prefix: &str) -> (r: Vec<usize>)
        requires
            self.wf(),
        ensures
            forall|i: int, j: int| 0 <= i < j < r@.len() ==> r@[i] < r@[j],
            forall|i: int|
                0 <= i < r@.len() ==> (#[trigger] r@[i]) < self.entries().len() && under_namespace(
                    self.entries()[r@[i] as int].cap.meta.namespace@,
                    prefix@,
                ),
            forall|t: int|
                0 <= t < self.entries().len() && under_namespace(
                    (#[trigger] self.entries()[t]).cap.meta.namespace@,
                    prefix@,
                ) ==> r@.contains(t as usize),
    {
        let mut r: Vec<usize> = Vec::new();
        let mut t: usize = 0;
        while t < self.entries.len()
            invariant
                t <= self.entries@.len(),
                forall|i: int, j: int| 0 <= i < j < r@.len() ==> r@[i] < r@[j],
                forall|i: int|
                    0 <= i < r@.len() ==> (#[trigger] r@[i]) < t && under_namespace(
                        self.entries()[r@[i] as int].cap.meta.namespace@,
                        prefix@,
                    ),
                forall|u: int|
                    0 <= u < t && under_namespace(
                        (#[trigger] self.entries()[u]).cap.meta.namespace@,
                        prefix@,
                    ) ==> r@.contains(u as usize),
            decreases self.entries@.len() - t,
        {
            if namespace_prefix_matches(self.entries[t].cap.meta.namespace.as_str(), prefix) {
                let ghost r0 = r@;
                r.push(t);
                proof {
                    assert forall|u: int|
                        0 <= u < t + 1 && under_namespace(
                            (#[trigger] self.entries()[u]).cap.meta.namespace@,
                            prefix@,
                        ) implies r@.contains(u as usize) by {
                        if u < t {
                            let w = choose|w: int| 0 <= w < r0.len() && r0[w] == u as usize;
                            assert(r@[w] == u as usize);
                        } else {
                            assert(r@[r0.len() as int] == t);
                        }
                    }
                }
            }
            t = t + 1;
        }
        r
    }

    /// Metadata of the entries at positions `sel`, sorted by name or
    /// by namespace.
    fn metas_sorted(&self, sel: &Vec<usize>, by_namespace: bool) -> (r: Vec<CapabilityMeta>)
        requires
            self.wf(),
            forall|i: int, j: int| 0 <= i < j < sel@.len() ==> sel@[i] != sel@[j],
            forall|i: int| 0 <= i < sel@.len() ==> (#[trigger] sel@[i]) < self.entries().len(),
        ensures
            exists|p: Seq<usize>|
                crate::text::is_permutation(p, sel@.len()) && r@.len() == sel@.len() && (forall|i: int|
                    0 <= i < r@.len() ==> #[trigger] r@[i] == self.entries()[sel@[
                        #[trigger] p[i] as int] as int].cap.meta),
            sorted_by_key(r@, by_namespace),
    {
        let mut keys: Vec<String> = Vec::new();
        let mut j: usize = 0;
        while j < sel.len()
            invariant
                j <= sel@.len(),
                keys@.len() == j,
                forall|i: int| 0 <= i < sel@.len() ==> (#[trigger] sel@[i]) < self.entries().len(),
                forall|i: int|
                    0 <= i < j ==> (#[trigger] keys@[i])@ == meta_key(
                        self.entries()[sel@[i] as int].cap.meta,
                        by_namespace,
                    ),
            decreases sel@.len() - j,
        {
            let e = &self.entries[sel[j]];
            if by_namespace {
                keys.push(e.cap.meta.namespace.clone());
            } else {
                keys.push(e.cap.meta.name.clone());
            }
            j = j + 1;
        }
        let p = sort_by_text(&keys);
        let mut r: Vec<CapabilityMeta> = Vec::new();
        let mut i: usize = 0;
        while i < p.len()
            invariant
                crate::text::is_permutation(p@, keys@.len()),
                keys@.len() == sel@.len(),
                i <= p@.len(),
                r@.len() == i,
                forall|a: int| 0 <= a < sel@.len() ==> (#[trigger] sel@[a]) < self.entries().len(),
                forall|a: int|
                    0 <= a < i ==> #[trigger] r@[a] == self.entries()[sel@[p@[a] as int] as int].cap.meta,
            decreases p@.len() - i,
        {
            let m = self.entries[sel[p[i]]].cap.meta.clone();
            r.push(m);
            i = i + 1;
        }
        proof {
            assert forall|a: int, b: int| 0 <= a < b < r@.len() implies lex_le(
                meta_key(r@[a], by_namespace),
                meta_key(r@[b], by_namespace),
            ) by {
                assert(keys@[p@[a] as int]@ == meta_key(r@[a], by_namespace));
                assert(keys@[p@[b] as int]@ == meta_key(r@[b], by_namespace));
            }
            assert(forall|a: int|
                0 <= a < r@.len() ==> #[trigger] r@[a] == self.entries()[sel@[
                    #[trigger] p@[a] as int] as int].cap.meta);
        }
        r
    }

    /// Metadata of every capability whose namespace is under `prefix`,
    /// with the ordering `by_namespace` picks.
    fn listing(&self, prefix: &str, by_namespace: bool) -> (r: Vec<CapabilityMeta>)
        requires
            self.wf(),
        ensures
            exists|order: Seq<u64>|
                lists_under(self.slots(), order, prefix@) && #[trigger] metas_of(
                    self.slots(),
                    order,
                    r@,
                ),
            sorted_by_key(r@, by_namespace),
    {
        let sel = self.select_under(prefix);
        let r = self.metas_sorted(&sel, by_namespace);
        proof {
            let es = self.entries();
            let p = choose|p: Seq<usize>|
                crate::text::is_permutation(p, sel@.len()) && r@.len() == sel@.len() && (forall|i: int|
                    0 <= i < r@.len() ==> #[trigger] r@[i] == es[sel@[#[trigger] p[i] as int] as int].cap.meta);
            let order = Seq::new(r@.len(), |i: int| es[sel@[p[i] as int] as int].slot@);
            assert forall|i: int| 0 <= i < order.len() implies self.slots().contains_key(
                #[trigger] order[i],
            ) && self.slots()[order[i]] == es[sel@[p[i] as int] as int] by {
                lemma_slot_map_at(es, sel@[p[i] as int] as int);
            }
            assert forall|i: int, j: int| 0 <= i < j < order.len() implies order[i] != order[j] by {
                assert(p[i] != p[j]);
                let a = sel@[p[i] as int] as int;
                let b = sel@[p[j] as int] as int;
                if p[i] < p[j] {
                    assert(sel@[p[i] as int] < sel@[p[j] as int]);
                } else {
                    assert(sel@[p[j] as int] < sel@[p[i] as int]);
                }
                assert(a != b);
                assert(es[a].slot@ != es[b].slot@);
            }
            assert forall|k: u64|
                #[trigger] self.slots().contains_key(k) && under_namespace(
                    self.slots()[k].cap.meta.namespace@,
                    prefix@,
                ) implies order.contains(k) by {
                let t = choose|t: int| 0 <= t < es.len() && (#[trigger] es[t]).slot@ == k;
                lemma_slot_map_at(es, t);
                assert(es.len() == self.entries.len());
                assert(t as usize as int == t);
                assert(sel@.contains(t as usize));
                let w = choose|w: int| 0 <= w < sel@.len() && sel@[w] == t as usize;
                assert(p.contains(w as usize));
                assert(w < sel@.len() && sel@.len() == sel.len());
                assert((w as usize) as int == w);
                let i = choose|i: int| 0 <= i < p.len() && p[i] == w as usize;
                assert(p[i] as int == w);
                assert(sel@[p[i] as int] as int == t);
                assert(order[i] == es[t].slot@);
                assert(order[i] == k);
            }
            assert(lists_under(self.slots(), order, prefix@));
            assert(metas_of(self.slots(), order, r@));
        }
        r
    }

    /// Metadata of every occupied slot, sorted by name.
    pub fn enumerate(&self) -> (r: Vec<CapabilityMeta>)
        requires
            self.wf(),
        ensures
            exists|order: Seq<u64>|
                lists_all(self.slots(), order) && #[trigger] metas_of(self.slots(), order, r@),
            sorted_by_key(r@, false),
    {
        let empty = "";
        proof {
            reveal_strlit("");
        }
        let r = self.listing(empty, false);
        proof {
            let order = choose|order: Seq<u64>|
                lists_under(self.slots(), order, empty@) && #[trigger] metas_of(self.slots(), order, r@);
            assert(lists_all(self.slots(), order));
        }
        r
    }

    /// Metadata of every capability filed under `prefix` (the empty
    /// prefix or `"."` for the whole space), sorted by namespace.
    pub fn enumerate_namespace(&self, prefix: &str) -> (r: Vec<CapabilityMeta>)
        requires
            self.wf(),
        ensures
            exists|order: Seq<u64>|
                lists_under(self.slots(), order, prefix@) && #[trigger] metas_of(
                    self.slots(),
                    order,
                    r@,
                ),
            sorted_by_key(r@, true),
    {
        self.listing(prefix, true)
    }

    /// Every slot whose recorded parent is `parent`.
    pub fn children_of(&self, parent: SlotId) -> (r: Vec<SlotId>)
        requires
            self.wf(),
        ensures
            forall|i: int, j: int| 0 <= i < j < r@.len() ==> r@[i]@ != r@[j]@,
            forall|i: int|
                0 <= i < r@.len() ==> self.slots().contains_key((#[trigger] r@[i])@) && child_of(
                    self.slots()[r@[i]@],
                    parent@,
                ),
            forall|k: u64|
                #[trigger] self.slots().contains_key(k) && child_of(self.slots()[k], parent@)
                    ==> slot_numbers(r@).contains(k),
    {
        let mut r: Vec<SlotId> = Vec::new();
        let mut t: usize = 0;
        let ghost es = self.entries();
        while t < self.entries.len()
            invariant
                es == self.entries(),
                self.wf(),
                t <= es.len(),
                forall|i: int| 0 <= i < r@.len() ==> exists|u: int| 0 <= u < t && (#[trigger] es[u]).slot@ == (#[trigger] r@[i])@ && child_of(es[u], parent@),
                forall|i: int, j: int| 0 <= i < j < r@.len() ==> r@[i]@ != r@[j]@,
                forall|i: int| 0 <= i < r@.len() ==> exists|u: int| 0 <= u < t && (#[trigger] es[u]).slot@ == (#[trigger] r@[i])@,
                forall|u: int|
                    0 <= u < t && child_of(#[trigger] es[u], parent@) ==> slot_numbers(r@).contains(es[u].slot@),
            decreases es.len() - t,
        {
            let is_child = match &self.entries[t].parent {
                Some(p) => p.same(&parent),
                None => false,
            };
            if is_child {
                let ghost r0 = r@;
                r.push(self.entries[t].slot);
                proof {
                    assert(slot_numbers(r@) =~= slot_numbers(r0).push(es[t as int].slot@));
                    assert forall|i: int, j: int| 0 <= i < j < r@.len() implies r@[i]@ != r@[j]@ by {
                        if j == r0.len() {
                            let u = choose|u: int| 0 <= u < t && (#[trigger] es[u]).slot@ == (#[trigger] r@[i])@;
                            assert(es[u].slot@ != es[t as int].slot@);
                        }
                    }
                    assert forall|u: int|
                        0 <= u < t + 1 && child_of(#[trigger] es[u], parent@) implies slot_numbers(r@).contains(es[u].slot@) by {
                        if u < t {
                            assert(slot_numbers(r0).contains(es[u].slot@));
                            let w = choose|w: int| 0 <= w < slot_numbers(r0).len() && slot_numbers(r0)[w] == es[u].slot@;
                            assert(slot_numbers(r@)[w] == es[u].slot@);
                        } else {
                            assert(slot_numbers(r@)[r0.len() as int] == es[u].slot@);
                        }
                    }
                    assert(forall|i: int| 0 <= i < r@.len() ==> exists|u: int| 0 <= u < t + 1 && (#[trigger] es[u]).slot@ == (#[trigger] r@[i])@ && child_of(es[u], parent@)) by {
                        assert forall|i: int| 0 <= i < r@.len() implies exists|u: int| 0 <= u < t + 1 && (#[trigger] es[u]).slot@ == (#[trigger] r@[i])@ && child_of(es[u], parent@) by {
                            if i == r0.len() {
                                assert(es[t as int].slot@ == r@[i]@);
                            }
                        }
                    }
                }
            }
            t = t + 1;
        }
        proof {
            assert forall|i: int| 0 <= i < r@.len() implies self.slots().contains_key((#[trigger] r@[i])@) && child_of(
                self.slots()[r@[i]@],
                parent@,
            ) by {
                let u = choose|u: int| 0 <= u < es.len() && (#[trigger] es[u]).slot@ == (#[trigger] r@[i])@ && child_of(es[u], parent@);
                lemma_slot_map_at(es, u);
            }
            assert forall|k: u64|
                #[trigger] self.slots().contains_key(k) && child_of(self.slots()[k], parent@)
                    implies slot_numbers(r@).contains(k) by {
                let u = choose|u: int| 0 <= u < es.len() && (#[trigger] es[u]).slot@ == k;
                lemma_slot_map_at(es, u);
            }
        }
        r
    }
}


/// What precedes a child's name under `prefix`: `prefix.`, or nothing
/// for the empty prefix.
pub open spec fn namespace_base(prefix: Seq<char>) -> Seq<char> {
    if prefix.len() == 0 {
        Seq::empty()
    } else {
        prefix.push('.')
    }
}

/// `ns` with the base of `prefix` stripped, when it begins with it.
pub open spec fn namespace_rest(ns: Seq<char>, prefix: Seq<char>) -> Seq<char> {
    let base = namespace_base(prefix);
    if has_prefix(ns, base) {
        ns.skip(base.len() as int)
    } else {
        ns
    }
}

/// Position of the first `'.'` in `s`, or its length if there is none.
pub open spec fn first_dot(s: Seq<char>) -> nat
    decreases s.len(),
{
    if s.len() == 0 || s[0] == '.' {
        0
    } else {
        1 + first_dot(s.drop_first())
    }
}

/// The first dot-separated segment of `s`.
pub open spec fn head_segment(s: Seq<char>) -> Seq<char> {
    s.take(first_dot(s) as int)
}

/// The child of `prefix` under which `ns` is filed.
pub open spec fn child_head(ns: Seq<char>, prefix: Seq<char>) -> Seq<char> {
    head_segment(namespace_rest(ns, prefix))
}

/// How many of `nss` are filed under the child `h` of `prefix`.
pub open spec fn head_count(nss: Seq<Seq<char>>, prefix: Seq<char>, h: Seq<char>) -> nat
    decreases nss.len(),
{
    if nss.len() == 0 {
        0
    } else {
        head_count(nss.drop_last(), prefix, h) + if child_head(nss.last(), prefix) == h {
            1nat
        } else {
            0nat
        }
    }
}

/// The namespaces of the slots in `order`, position by position.
pub open spec fn namespaces_of<H>(m: Map<u64, Entry<H>>, order: Seq<u64>) -> Seq<Seq<char>> {
    order.map_values(|k: u64| m[k].cap.meta.namespace@)
}

/// `out` lists the distinct non-empty children of `prefix` among
/// `nss`, in ascending `str` order, each with how many of `nss` are
/// filed under it.
pub open spec fn children_summary(
    nss: Seq<Seq<char>>,
    prefix: Seq<char>,
    out: Seq<(String, usize)>,
) -> bool {
    &&& forall|i: int, j: int| 0 <= i < j < out.len() ==> lex_lt(out[i].0@, out[j].0@)
    &&& forall|i: int|
        0 <= i < out.len() ==> (#[trigger] out[i]).0@.len() > 0 && out[i].1 == head_count(
            nss,
            prefix,
            out[i].0@,
        )
    &&& forall|t: int|
        0 <= t < nss.len() && (#[trigger] child_head(nss[t], prefix)).len() > 0 ==> exists|i: int|
            0 <= i < out.len() && (#[trigger] out[i]).0@ == child_head(nss[t], prefix)
}

pub(crate) proof fn lemma_first_dot_bound(s: Seq<char>)
    ensures
        first_dot(s) <= s.len(),
        forall|i: int| 0 <= i < first_dot(s) ==> s[i] != '.',
    decreases s.len(),
{
    if s.len() > 0 && s[0] != '.' {
        lemma_first_dot_bound(s.drop_first());
        assert forall|i: int| 0 <= i < first_dot(s) implies s[i] != '.' by {
            if i > 0 {
                assert(s[i] == s.drop_first()[i - 1]);
            }
        }
    }
}

proof fn lemma_head_count_bound(nss: Seq<Seq<char>>, prefix: Seq<char>, h: Seq<char>)
    ensures
        head_count(nss, prefix, h) <= nss.len(),
    decreases nss.len(),
{
    if nss.len() > 0 {
        lemma_head_count_bound(nss.drop_last(), prefix, h);
    }
}

proof fn lemma_head_count_zero(nss: Seq<Seq<char>>, prefix: Seq<char>, h: Seq<char>)
    requires
        forall|t: int| 0 <= t < nss.len() ==> child_head(#[trigger] nss[t], prefix) != h,
    ensures
        head_count(nss, prefix, h) == 0,
    decreases nss.len(),
{
    if nss.len() > 0 {
        assert(child_head(nss[nss.len() - 1], prefix) != h);
        lemma_head_count_zero(nss.drop_last(), prefix, h);
    }
}

/// Position of the first `'.'` in `s`, or its length.
pub(crate) fn first_dot_index(s: &str) -> (r: usize)
    ensures
        r == first_dot(s@),
{
    let n = s.unicode_len();
    let mut i: usize = 0;
    proof {
        assert(s@.skip(0) =~= s@);
    }
    while i < n && s.get_char(i) != '.'
        invariant
            n == s@.len(),
            i <= n,
            first_dot(s@) == i + first_dot(s@.skip(i as int)),
        decreases n - i,
    {
        proof {
            assert(s@.skip(i as int)[0] == s@[i as int]);
            assert(s@.skip(i as int).drop_first() =~= s@.skip(i + 1));
        }
        i = i + 1;
    }
    proof {
        if i < n {
            assert(s@.skip(i as int)[0] == s@[i as int]);
        }
    }
    i
}

/// The child of `prefix` under which `namespace` is filed.
pub fn namespace_head(namespace: &str, prefix: &str) -> (r: String)
    ensures
        r@ == child_head(namespace@, prefix@),
{
    let n = namespace.unicode_len();
    let rest: &str = if prefix.unicode_len() == 0 {
        proof {
            assert(has_prefix(namespace@, namespace_base(prefix@))) by {
                assert(namespace@.take(0) =~= Seq::<char>::empty());
            }
            assert(namespace@.skip(0) =~= namespace@);
        }
        namespace
    } else {
        let dot = ".";
        proof {
            reveal_strlit(".");
            assert(dot@ =~= seq!['.']);
        }
        let mut base = String::from_str(prefix);
        base.append(dot);
        proof {
            assert(base@ =~= namespace_base(prefix@));
        }
        if starts_with(namespace, base.as_str()) {
            let bl = base.as_str().unicode_len();
            namespace.substring_char(bl, n)
        } else {
            namespace
        }
    };
    proof {
        assert(rest@ =~= namespace_rest(namespace@, prefix@));
    }
    let d = first_dot_index(rest);
    proof {
        lemma_first_dot_bound(rest@);
    }
    let head = rest.substring_char(0, d);
    String::from_str(head)
}

impl<H> CapabilitySpace<H> {
    /// Every distinct non-empty direct child of `prefix` in the
    /// namespace tree, in ascending order, with the number of
    /// capabilities filed under it.
    pub fn namespace_children(&self, prefix: &str) -> (r: Vec<(String, usize)>)
        requires
            self.wf(),
        ensures
            exists|order: Seq<u64>|
                #[trigger] lists_under(self.slots(), order, prefix@) && children_summary(
                    namespaces_of(self.slots(), order),
                    prefix@,
                    r@,
                ),
    {
        let all = self.enumerate_namespace(prefix);
        let ghost order = choose|order: Seq<u64>|
            lists_under(self.slots(), order, prefix@) && #[trigger] metas_of(self.slots(), order, all@);
        let ghost nss = namespaces_of(self.slots(), order);
        let mut out: Vec<(String, usize)> = Vec::new();
        let mut i: usize = 0;
        while i < all.len()
            invariant
                i <= all@.len(),
                nss.len() == all@.len(),
                forall|t: int| 0 <= t < all@.len() ==> #[trigger] nss[t] == all@[t].namespace@,
                children_summary(nss.take(i as int), prefix@, out@),
            decreases all@.len() - i,
        {
            let ghost pre = nss.take(i as int);
            let ghost post = nss.take(i + 1);
            proof {
                assert(post.drop_last() =~= pre);
                assert(post.last() == nss[i as int]);
            }
            let h = namespace_head(all[i].namespace.as_str(), prefix);
            let ghost hv = h@;
            proof {
                assert(hv == child_head(nss[i as int], prefix@));
            }
            if h.as_str().unicode_len() == 0 {
                proof {
                    assert forall|a: int| 0 <= a < out@.len() implies (#[trigger] out@[a]).0@.len() > 0
                        && out@[a].1 == head_count(post, prefix@, out@[a].0@) by {
                        assert(out@[a].0@ != hv);
                    }
                    assert forall|t: int|
                        0 <= t < post.len() && (#[trigger] child_head(post[t], prefix@)).len() > 0
                            implies exists|a: int|
                            0 <= a < out@.len() && (#[trigger] out@[a]).0@ == child_head(post[t], prefix@) by {
                        assert(post[t] == pre[t]);
                    }
                }
            } else {
                let mut j: usize = 0;
                while j < out.len() && str_lt(out[j].0.as_str(), h.as_str())
                    invariant
                        j <= out@.len(),
                        hv == h@,
                        forall|a: int| 0 <= a < j ==> lex_lt((#[trigger] out@[a]).0@, hv),
                    decreases out@.len() - j,
                {
                    j = j + 1;
                }
                let found = j < out.len() && str_eq(out[j].0.as_str(), h.as_str());
                let ghost o0 = out@;
                if found {
                    let cnt = out[j].1;
                    proof {
                        lemma_head_count_bound(pre, prefix@, hv);
                    }
                    let name = out[j].0.clone();
                    out.set(j, (name, cnt + 1));
                    proof {
                        assert forall|a: int| 0 <= a < out@.len() implies (#[trigger] out@[a]).0@.len() > 0
                            && out@[a].1 == head_count(post, prefix@, out@[a].0@) by {
                            if a != j {
                                assert(out@[a] == o0[a]);
                                if a < j {
                                    assert(lex_lt(o0[a].0@, o0[j as int].0@));
                                } else {
                                    assert(lex_lt(o0[j as int].0@, o0[a].0@));
                                }
                            }
                        }
                        assert forall|t: int|
                            0 <= t < post.len() && (#[trigger] child_head(post[t], prefix@)).len() > 0
                                implies exists|a: int|
                                0 <= a < out@.len() && (#[trigger] out@[a]).0@ == child_head(post[t], prefix@) by {
                            if t < i {
                                assert(post[t] == pre[t]);
                                let a = choose|a: int| 0 <= a < o0.len() && (#[trigger] o0[a]).0@ == child_head(pre[t], prefix@);
                                assert(out@[a].0@ == o0[a].0@);
                            } else {
                                assert(out@[j as int].0@ == hv);
                            }
                        }
                        assert forall|a: int, b: int| 0 <= a < b < out@.len() implies lex_lt(out@[a].0@, out@[b].0@) by {
                            assert(out@[a].0@ == o0[a].0@);
                            assert(out@[b].0@ == o0[b].0@);
                        }
                    }
                } else {
                    proof {
                        assert forall|t: int| 0 <= t < pre.len() implies child_head(#[trigger] pre[t], prefix@) != hv by {
                            if child_head(pre[t], prefix@) == hv {
                                let a = choose|a: int| 0 <= a < o0.len() && (#[trigger] o0[a]).0@ == child_head(pre[t], prefix@);
                                if a < j {
                                    assert(lex_lt(o0[a].0@, hv));
                                } else if a == j {
                                } else {
                                    // o0[j] is not below hv and differs from it, so hv < o0[j] < o0[a]
                                    lemma_lex_le_total(o0[j as int].0@, hv);
                                    assert(lex_lt(hv, o0[j as int].0@));
                                    lemma_lex_lt_transitive(hv, o0[j as int].0@, o0[a].0@);
                                }
                            }
                        }
                        lemma_head_count_zero(pre, prefix@, hv);
                        if j < o0.len() {
                            lemma_lex_le_total(o0[j as int].0@, hv);
                        }
                    }
                    out.insert(j, (h, 1));
                    proof {
                        assert(out@ =~= o0.insert(j as int, out@[j as int]));
                        assert forall|a: int, b: int| 0 <= a < b < out@.len() implies lex_lt(out@[a].0@, out@[b].0@) by {
                            if b < j {
                                assert(out@[a] == o0[a] && out@[b] == o0[b]);
                            } else if b == j {
                                assert(out@[a] == o0[a]);
                            } else if a == j {
                                assert(out@[b] == o0[b - 1]);
                                if b - 1 > j {
                                    lemma_lex_lt_transitive(hv, o0[j as int].0@, o0[b - 1].0@);
                                }
                            } else if a < j {
                                assert(out@[a] == o0[a] && out@[b] == o0[b - 1]);
                            } else {
                                assert(out@[a] == o0[a - 1] && out@[b] == o0[b - 1]);
                            }
                        }
                        assert forall|a: int| 0 <= a < out@.len() implies (#[trigger] out@[a]).0@.len() > 0
                            && out@[a].1 == head_count(post, prefix@, out@[a].0@) by {
                            if a < j {
                                assert(out@[a] == o0[a]);
                                assert(lex_lt(o0[a].0@, hv));
                            } else if a > j {
                                assert(out@[a] == o0[a - 1]);
                                assert(o0[a - 1].0@ != hv);
                            }
                        }
                        assert forall|t: int|
                            0 <= t < post.len() && (#[trigger] child_head(post[t], prefix@)).len() > 0
                                implies exists|a: int|
                                0 <= a < out@.len() && (#[trigger] out@[a]).0@ == child_head(post[t], prefix@) by {
                            if t < i {
                                assert(post[t] == pre[t]);
                                let a = choose|a: int| 0 <= a < o0.len() && (#[trigger] o0[a]).0@ == child_head(pre[t], prefix@);
                                if a < j {
                                    assert(out@[a] == o0[a]);
                                } else {
                                    assert(out@[a + 1] == o0[a]);
                                }
                            } else {
                                assert(out@[j as int].0@ == hv);
                            }
                        }
                    }
                }
            }
            i = i + 1;
        }
        proof {
            assert(nss.take(all@.len() as int) =~= nss);
            assert(lists_under(self.slots(), order, prefix@));
        }
        out
    }
}


impl<H: Resource> CapabilitySpace<H> {
    /// Everything an operation on `slot` leaves unchanged but the
    /// quota bucket and wall-clock counter of the slot's budget.
    pub open spec fn only_budget_changed(&self, old_space: &Self, slot: u64) -> bool {
        &&& self.wf()
        &&& self.slots() == old_space.slots()
        &&& self.events() == old_space.events()
        &&& self.next_slot() == old_space.next_slot()
        &&& self.next_derived_id() == old_space.next_derived_id()
        &&& self.ledger().buckets().len() == old_space.ledger().buckets().len()
        &&& self.ledger().clocks().len() == old_space.ledger().clocks().len()
        &&& old_space.slots().contains_key(slot) ==> {
            let b = old_space.slots()[slot].cap.budget;
            &&& forall|i: int|
                0 <= i < self.ledger().buckets().len() && i != b.bucket()
                    ==> #[trigger] self.ledger().buckets()[i] == old_space.ledger().buckets()[i]
            &&& forall|i: int|
                0 <= i < self.ledger().clocks().len() && i != b.clock()
                    ==> #[trigger] self.ledger().clocks()[i] == old_space.ledger().clocks()[i]
        }
    }

    /// The handler of the capability at `slot` was called on `input`
    /// and answered some `res` after some `us` microseconds; `r` is the
    /// call's answer to that, and the time was added to the budget's
    /// wall-clock counter.
    pub open spec fn handler_answered(&self, old_space: &Self, slot: u64, input: Value, r: Result<
        Value,
        String,
    >) -> bool {
        let c = old_space.slots()[slot].cap;
        let b = c.budget;
        exists|us: u64, res: Result<Value, String>|
            #[trigger] answered_after(c.meta.name@, us, b.timeout(), res, r) && call_ensures(
                H::invoke,
                (&c.handler, input),
                res,
            ) && self.ledger().clocks() == old_space.ledger().clocks().update(
                b.clock() as int,
                ((old_space.ledger().clocks()[b.clock() as int] + elapsed_ms(us)) % 0x1_0000_0000_0000_0000) as u64,
            )
    }

    /// The outcome of a sync call on the occupied `slot` claiming
    /// `requested`: the kind, then the rights, then the call quota may
    /// refuse, each with its message and the ledger untouched; a call
    /// the quota accepts runs the handler on `input`.
    pub open spec fn sync_call(&self, old_space: &Self, slot: u64, requested: OperationRights, input: Value, r: Result<
        Value,
        String,
    >) -> bool {
        let c = old_space.slots()[slot].cap;
        let b = c.budget;
        let ob = old_space.ledger().buckets()[b.bucket() as int];
        let nb = self.ledger().buckets()[b.bucket() as int];
        &&& c.kind != CapKind::Sync ==> (r matches Err(e) && e@ == not_sync_message(c.meta.name@))
            && self.ledger() == old_space.ledger()
        &&& c.kind == CapKind::Sync && !c.operations.spec_contains(requested) ==> (r matches Err(e)
            && e@ == denied_message(c.meta.name@, requested.bits, c.operations.bits)) && self.ledger()
            == old_space.ledger()
        &&& c.kind == CapKind::Sync && c.operations.spec_contains(requested) ==> exists|now: u64, ok: bool|
            #[trigger] call_offered(ob, nb, now, ok) && (!ok ==> (r matches Err(e) && e@ == quota_message(
                c.meta.name@,
                QuotaKind::Calls,
                nb.calls().len() as u32,
            )) && self.ledger().clocks() == old_space.ledger().clocks()) && (ok
                ==> self.handler_answered(old_space, slot, input, r))
    }

    /// The outcome of opening the stream of the occupied `slot`: the
    /// kind, then the call quota may refuse; an open the quota accepts
    /// is the handler's answer to `input`.
    pub open spec fn stream_open(&self, old_space: &Self, slot: u64, input: Value, r: Result<
        tokio::sync::mpsc::Receiver<CapabilityChunk>,
        String,
    >) -> bool {
        let c = old_space.slots()[slot].cap;
        let b = c.budget;
        let ob = old_space.ledger().buckets()[b.bucket() as int];
        let nb = self.ledger().buckets()[b.bucket() as int];
        &&& c.kind != CapKind::Stream ==> (r matches Err(e) && e@ == not_stream_message(c.meta.name@))
            && self.ledger() == old_space.ledger()
        &&& c.kind == CapKind::Stream ==> exists|now: u64, ok: bool|
            #[trigger] call_offered(ob, nb, now, ok) && (!ok ==> (r matches Err(e) && e@
                == open_quota_message(c.meta.name@, QuotaKind::Calls))) && (ok ==> call_ensures(
                H::open,
                (&c.handler, input),
                r,
            ))
    }

    /// Invoke the capability at `slot`, claiming the operations
    /// `requested`. Refused, in this order, when the slot is empty,
    /// the capability is not sync, it does not hold `requested`, or its
    /// call quota is exhausted; otherwise the handler runs, its
    /// wall-clock time is recorded, and a call that overran the
    /// ceiling reports a timeout in place of the handler's answer.
    pub fn invoke_op(&mut self, slot: SlotId, requested: OperationRights, input: Value) -> (r: Result<
        Value,
        String,
    >)
        requires
            old(self).wf(),
        ensures
            final(self).only_budget_changed(old(self), slot@),
            !old(self).slots().contains_key(slot@) ==> (r matches Err(e) && e@ == empty_slot_message(
                slot@,
            )) && final(self).ledger() == old(self).ledger(),
            old(self).slots().contains_key(slot@) ==> final(self).sync_call(
                old(self),
                slot@,
                requested,
                input,
                r,
            ),
            r is Ok ==> old(self).slots().contains_key(slot@) && old(
                self,
            ).slots()[slot@].cap.kind == CapKind::Sync && old(
                self,
            ).slots()[slot@].cap.operations.spec_contains(requested),
    {
        let i = match self.find_slot(slot) {
            None => {
                return Err(empty_slot_refusal(slot.raw()));
            },
            Some(i) => i,
        };
        let ghost old_self = *self;
        let name = self.entries[i].cap.meta.name.clone();
        match invoke_gate(name.as_str(), self.entries[i].cap.kind, self.entries[i].cap.operations, requested) {
            Err(e) => {
                return Err(e);
            },
            Ok(()) => {},
        }
        let budget = self.entries[i].cap.budget;
        proof {
            assert(self.ledger().owns(self.entries()[i as int].cap.budget));
        }
        let now = self.window_now();
        let ghost b_old = self.ledger().buckets()[budget.bucket() as int];
        match budget.try_call(&mut self.ledger, now) {
            Err(kind) => {
                let snap = budget.snapshot(&self.ledger);
                proof {
                    let nb = self.ledger().buckets()[budget.bucket() as int];
                    assert(call_offered(b_old, nb, now, false));
                    self.lemma_ledger_step(old_self);
                }
                return Err(quota_refusal(name.as_str(), kind, snap.calls_used));
            },
            Ok(()) => {},
        }
        let ghost mid = self.ledger();
        let ghost inp = input;
        let start = clock_now();
        let result = self.entries[i].cap.handler.invoke(input);
        let us = micros_since(&start);
        budget.record_elapsed(&mut self.ledger, us);
        proof {
            let nb = self.ledger().buckets()[budget.bucket() as int];
            assert(nb == mid.buckets()[budget.bucket() as int]);
            assert(call_offered(b_old, nb, now, true));
            self.lemma_ledger_step(old_self);
        }
        let r = call_outcome(name.as_str(), us / 1000, budget.timeout_ms(), result);
        proof {
            let c = old(self).slots()[slot@].cap;
            assert(c == self.entries()[i as int].cap);
            assert(answered_after(c.meta.name@, us, c.budget.timeout(), result, r));
            assert(self.handler_answered(old(self), slot@, inp, r));
        }
        r
    }

    /// Invoke the capability at `slot` claiming `EXECUTE`, the bit
    /// plugin code conventionally claims.
    pub fn invoke(&mut self, slot: SlotId, input: Value) -> (r: Result<Value, String>)
        requires
            old(self).wf(),
        ensures
            final(self).only_budget_changed(old(self), slot@),
            !old(self).slots().contains_key(slot@) ==> (r matches Err(e) && e@ == empty_slot_message(
                slot@,
            )),
            old(self).slots().contains_key(slot@) ==> final(self).sync_call(
                old(self),
                slot@,
                OperationRights { bits: 4 },
                input,
                r,
            ),
            r is Ok ==> old(self).slots().contains_key(slot@) && old(
                self,
            ).slots()[slot@].cap.kind == CapKind::Sync && old(
                self,
            ).slots()[slot@].cap.operations.spec_contains(OperationRights { bits: 4 }),
    {
        self.invoke_op(slot, OperationRights::execute(), input)
    }

    /// Open the stream of the capability at `slot`. Refused when the
    /// slot is empty, the capability is not a stream, or its call quota
    /// is exhausted; otherwise the handler opens the stream.
    pub fn open(&mut self, slot: SlotId, input: Value) -> (r: Result<
        tokio::sync::mpsc::Receiver<CapabilityChunk>,
        String,
    >)
        requires
            old(self).wf(),
        ensures
            final(self).only_budget_changed(old(self), slot@),
            final(self).ledger().clocks() == old(self).ledger().clocks(),
            !old(self).slots().contains_key(slot@) ==> (r matches Err(e) && e@ == empty_slot_message(
                slot@,
            )) && final(self).ledger() == old(self).ledger(),
            old(self).slots().contains_key(slot@) ==> final(self).stream_open(old(self), slot@, input, r),
            r is Ok ==> old(self).slots().contains_key(slot@) && old(
                self,
            ).slots()[slot@].cap.kind == CapKind::Stream,
    {
        let i = match self.find_slot(slot) {
            None => {
                return Err(empty_slot_refusal(slot.raw()));
            },
            Some(i) => i,
        };
        let ghost old_self = *self;
        let name = self.entries[i].cap.meta.name.clone();
        match open_gate(name.as_str(), self.entries[i].cap.kind) {
            Err(e) => {
                return Err(e);
            },
            Ok(()) => {},
        }
        let budget = self.entries[i].cap.budget;
        proof {
            assert(self.ledger().owns(self.entries()[i as int].cap.budget));
        }
        let now = self.window_now();
        let ghost b_old = self.ledger().buckets()[budget.bucket() as int];
        let res = budget.try_call(&mut self.ledger, now);
        proof {
            let nb = self.ledger().buckets()[budget.bucket() as int];
            assert(call_offered(b_old, nb, now, res is Ok));
            self.lemma_ledger_step(old_self);
        }
        match res {
            Err(kind) => Err(open_quota_refusal(name.as_str(), kind)),
            Ok(()) => self.entries[i].cap.handler.open(input),
        }
    }

    /// The entries are untouched and the ledger kept its shape, so the
    /// space is still well formed and only the one budget moved.
    proof fn lemma_ledger_step(&self, old_space: Self)
        requires
            old_space.wf(),
            self.entries() == old_space.entries(),
            self.events() == old_space.events(),
            self.next_slot() == old_space.next_slot(),
            self.next_derived_id() == old_space.next_derived_id(),
            self.ledger().wf(),
            self.ledger().buckets().len() == old_space.ledger().buckets().len(),
            self.ledger().clocks().len() == old_space.ledger().clocks().len(),
        ensures
            self.wf(),
    {
        assert forall|i: int| 0 <= i < self.entries().len() implies self.ledger().owns(
            (#[trigger] self.entries()[i]).cap.budget,
        ) by {
            assert(old_space.ledger().owns(old_space.entries()[i].cap.budget));
        }
    }
}


/// What an install writes, a lookup of the slot reads back: the slot is
/// occupied by the installed capability, registered under its name, and
/// every other slot keeps its occupant.
pub proof fn law_install_then_lookup<H>(
    m: Map<u64, Entry<H>>,
    slot: SlotId,
    cap: Capability<H>,
    parent: Option<SlotId>,
    other: u64,
)
    requires
        other != slot@,
    ensures
        ({
            let after = unname(m, cap.meta.name@).insert(
                slot@,
                Entry { slot, cap, name: Some(cap.meta.name), parent },
            );
            &&& after.contains_key(slot@)
            &&& after[slot@].cap == cap
            &&& named(after[slot@], cap.meta.name@)
            &&& after.contains_key(other) == m.contains_key(other)
            &&& m.contains_key(other) ==> after[other].cap == m[other].cap
        }),
{
}

/// A revoked slot is empty afterwards (a lookup of it finds nothing),
/// the other slots keep their occupants, and revoking it again removes
/// nothing more.
pub proof fn law_revoke_then_lookup<H>(m: Map<u64, Entry<H>>, slot: SlotId, other: u64)
    requires
        other != slot@,
    ensures
        !m.remove(slot@).contains_key(slot@),
        m.remove(slot@).contains_key(other) == m.contains_key(other),
        m.contains_key(other) ==> m.remove(slot@)[other] == m[other],
        m.remove(slot@).remove(slot@) == m.remove(slot@),
{
    assert(m.remove(slot@).remove(slot@) =~= m.remove(slot@));
}

/// Authority never grows along a derivation chain: a capability derived
/// from one that was itself derived holds no more than the first, and
/// all three draw on the same quota bucket.
pub proof fn law_derivation_chain_attenuates<H: Clone>(
    a: Capability<H>,
    b: Capability<H>,
    c: Capability<H>,
    ab: CapabilityRights,
    bc: CapabilityRights,
    id_b: u64,
    id_c: u64,
)
    requires
        a.rights_of().spec_contains(ab),
        derived_from(b, a, ab, id_b),
        b.rights_of().spec_contains(bc),
        derived_from(c, b, bc, id_c),
    ensures
        a.rights_of().spec_contains(b.rights_of()),
        b.rights_of().spec_contains(c.rights_of()),
        a.rights_of().spec_contains(c.rights_of()),
        c.budget.bucket() == a.budget.bucket(),
        c.kind == a.kind,
        c.meta.name == a.meta.name,
{
    assert(b.rights_of() == ab);
    assert(c.rights_of() == bc);
    law_rights_contains_partial_order(a.rights_of(), b.rights_of(), c.rights_of());
}

} // verus!
