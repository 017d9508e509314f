//! The capability factory: the one place a capability is minted. It
//! numbers capabilities from 0 and keeps the metadata of every
//! capability it minted.

use vstd::prelude::*;
use crate::kernel::cspace::{metas_sorted_by_name, Capability};
use crate::kernel::quota::{CapabilityBudget, QuotaLedger};
use crate::text::sort_by_text;
use crate::types::ids::{CapKind, CapabilityId, PluginId};
use crate::types::manifest::CapabilityDecl;
use crate::types::meta::CapabilityMeta;

verus! {

/// `m` is the metadata a declaration yields: the declaration's name,
/// types, kind and contract, the plugin, the budget's ceiling and
/// quota, the root namespace and the declaration's tool schema.
pub open spec fn meta_for(
    m: CapabilityMeta,
    id: CapabilityId,
    decl: CapabilityDecl,
    plugin: PluginId,
    budget: CapabilityBudget,
    ledger: QuotaLedger,
) -> bool {
    &&& m.id == id
    &&& m.name@ == decl.name@
    &&& m.namespace@.len() == 0
    &&& m.contract_name@ == decl.contract_name@
    &&& m.plugin == plugin
    &&& m.in_type@ == decl.in_type@
    &&& m.out_type@ == decl.out_type@
    &&& m.kind == decl.kind
    &&& m.timeout_ms == budget.timeout()
    &&& m.quota == ledger.buckets()[budget.bucket() as int].spec_of()
    &&& m.tool_schema == decl.tool_schema
}

/// The metadata a manifest declaration yields for capability `id`.
pub fn meta_from_decl(
    id: CapabilityId,
    decl: &CapabilityDecl,
    plugin: &PluginId,
    budget: &CapabilityBudget,
    ledger: &QuotaLedger,
) -> (r: CapabilityMeta)
    requires
        ledger.owns(*budget),
    ensures
        meta_for(r, id, *decl, *plugin, *budget, *ledger),
{
    CapabilityMeta {
        id,
        name: decl.name.clone(),
        namespace: String::new(),
        contract_name: decl.contract_name.clone(),
        plugin: plugin.clone(),
        in_type: decl.in_type.clone(),
        out_type: decl.out_type.clone(),
        kind: decl.kind,
        timeout_ms: budget.timeout_ms(),
        quota: budget.quota_spec(ledger),
        tool_schema: match &decl.tool_schema {
            Some(v) => Some(v.clone()),
            None => None,
        },
    }
}

/// Mints capabilities and remembers what it minted.
pub struct CapabilityFactory {
    next_id: u64,
    minted: Vec<CapabilityMeta>,
}

impl CapabilityFactory {
    /// The id the next capability gets.
    pub closed spec fn next(&self) -> u64 {
        self.next_id
    }

    /// Metadata of every capability minted, in minting order.
    pub closed spec fn tokens(&self) -> Seq<CapabilityMeta> {
        self.minted@
    }

    pub fn new() -> (r: CapabilityFactory)
        ensures
            r.next() == 0,
            r.tokens().len() == 0,
    {
        CapabilityFactory { next_id: 0, minted: Vec::new() }
    }

    fn mint<H>(
        &mut self,
        decl: &CapabilityDecl,
        plugin: &PluginId,
        budget: CapabilityBudget,
        handler: H,
        kind: CapKind,
        ledger: &QuotaLedger,
    ) -> (r: Capability<H>)
        requires
            ledger.owns(budget),
        ensures
            meta_for(r.meta, CapabilityId(old(self).next()), *decl, *plugin, budget, *ledger),
            r.kind == kind,
            r.handler == handler,
            r.budget == budget,
            r.operations.bits == 15,
            final(self).next() == (old(self).next() + 1) % 0x1_0000_0000_0000_0000,
            final(self).tokens() == old(self).tokens().push(r.meta),
    {
        let id = CapabilityId(self.next_id);
        self.next_id = self.next_id.wrapping_add(1);
        let meta = meta_from_decl(id, decl, plugin, &budget, ledger);
        self.minted.push(meta.clone());
        Capability::new(meta, handler, budget, kind)
    }

    /// Mint a sync capability for `decl`, numbered with the next id.
    /// The id counter wraps after `u64::MAX`.
    pub fn mint_sync<H>(
        &mut self,
        decl: &CapabilityDecl,
        plugin: &PluginId,
        budget: CapabilityBudget,
        handler: H,
        ledger: &QuotaLedger,
    ) -> (r: Capability<H>)
        requires
            ledger.owns(budget),
        ensures
            meta_for(r.meta, CapabilityId(old(self).next()), *decl, *plugin, budget, *ledger),
            r.kind == CapKind::Sync,
            r.handler == handler,
            r.budget == budget,
            r.operations.bits == 15,
            final(self).next() == (old(self).next() + 1) % 0x1_0000_0000_0000_0000,
            final(self).tokens() == old(self).tokens().push(r.meta),
    {
        self.mint(decl, plugin, budget, handler, CapKind::Sync, ledger)
    }

    /// Mint a streaming capability for `decl`, numbered with the next
    /// id. The id counter wraps after `u64::MAX`.
    pub fn mint_stream<H>(
        &mut self,
        decl: &CapabilityDecl,
        plugin: &PluginId,
        budget: CapabilityBudget,
        handler: H,
        ledger: &QuotaLedger,
    ) -> (r: Capability<H>)
        requires
            ledger.owns(budget),
        ensures
            meta_for(r.meta, CapabilityId(old(self).next()), *decl, *plugin, budget, *ledger),
            r.kind == CapKind::Stream,
            r.handler == handler,
            r.budget == budget,
            r.operations.bits == 15,
            final(self).next() == (old(self).next() + 1) % 0x1_0000_0000_0000_0000,
            final(self).tokens() == old(self).tokens().push(r.meta),
    {
        self.mint(decl, plugin, budget, handler, CapKind::Stream, ledger)
    }

    /// Metadata of every minted capability, sorted by name.
    pub fn snapshots(&self) -> (r: Vec<CapabilityMeta>)
        ensures
            metas_sorted_by_name(self.tokens(), r@),
    {
        let mut keys: Vec<String> = Vec::new();
        let mut i: usize = 0;
        while i < self.minted.len()
            invariant
                i <= self.minted@.len(),
                keys@.len() == i,
                forall|j: int| 0 <= j < i ==> (#[trigger] keys@[j])@ == self.minted@[j].name@,
            decreases self.minted@.len() - i,
        {
            keys.push(self.minted[i].name.clone());
            i = i + 1;
        }
        let p = sort_by_text(&keys);
        let mut r: Vec<CapabilityMeta> = Vec::new();
        let mut j: usize = 0;
        while j < p.len()
            invariant
                crate::text::is_permutation(p@, keys@.len()),
                keys@.len() == self.minted@.len(),
                forall|a: int| 0 <= a < keys@.len() ==> (#[trigger] keys@[a])@ == self.minted@[a].name@,
                j <= p@.len(),
                r@.len() == j,
                forall|a: int| 0 <= a < j ==> #[trigger] r@[a] == self.minted@[p@[a] as int],
            decreases p@.len() - j,
        {
            r.push(self.minted[p[j]].clone());
            j = j + 1;
        }
        proof {
            assert(metas_sorted_by_name(self.tokens(), r@)) by {
                assert forall|a: int, b: int| 0 <= a < b < r@.len() implies crate::text::lex_le(
                    r@[a].name@,
                    r@[b].name@,
                ) by {
                    assert(keys@[p@[a] as int]@ == r@[a].name@);
                    assert(keys@[p@[b] as int]@ == r@[b].name@);
                }
                assert(forall|a: int| 0 <= a < r@.len() ==> #[trigger] r@[a] == self.tokens()[#[trigger] p@[a] as int]);
            }
        }
        r
    }
}

} // verus!
