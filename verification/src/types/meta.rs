//! Capability metadata — the static description carried by every
//! capability and surfaced to enumeration and introspection.

use vstd::prelude::*;
use serde_json::Value;
use crate::types::ids::{CapKind, CapabilityId, PluginId};
use crate::types::quota::QuotaSpec;

verus! {

/// Static description of a capability.
#[derive(Debug)]
pub struct CapabilityMeta {
    pub id: CapabilityId,
    pub name: String,
    /// Hierarchical dot-separated namespace; empty means the root.
    pub namespace: String,
    /// Contract this capability publishes; empty means none.
    pub contract_name: String,
    pub plugin: PluginId,
    pub in_type: String,
    pub out_type: String,
    pub kind: CapKind,
    pub timeout_ms: u32,
    pub quota: QuotaSpec,
    /// Agent-facing description (JSON Schema of input and output), if
    /// the manifest published one.
    pub tool_schema: Option<Value>,
}

impl Clone for CapabilityMeta {
    fn clone(&self) -> (r: CapabilityMeta)
        ensures
            r == *self,
    {
        let tool_schema = match &self.tool_schema {
            Some(v) => Some(v.clone()),
            None => None,
        };
        CapabilityMeta {
            id: self.id,
            name: self.name.clone(),
            namespace: self.namespace.clone(),
            contract_name: self.contract_name.clone(),
            plugin: self.plugin.clone(),
            in_type: self.in_type.clone(),
            out_type: self.out_type.clone(),
            kind: self.kind,
            timeout_ms: self.timeout_ms,
            quota: self.quota,
            tool_schema,
        }
    }
}

} // verus!
