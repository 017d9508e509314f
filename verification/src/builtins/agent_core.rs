//! The observer half of the agent: read-only views over the
//! capabilities a plugin can reach.
//!
//! Every capability name the agent can act on comes out of a binding
//! row (handle, provider, capability) produced for its `requires`.
//! `reach` searches the rows, and only a row's own `capability` is
//! looked up in the space: a handle that never appeared in a row is
//! `Unknown` whatever the space holds. Nothing is snapshotted; every
//! call resolves live. The agent never invokes what it observes.

use vstd::prelude::*;
use serde_json::Value;
use crate::kernel::cspace::{named, Capability, CapabilitySpace};
use crate::text::str_eq;
use crate::types::binding::ResolvedBinding;
use crate::types::ids::{CapKind, PluginId};
use crate::types::meta::CapabilityMeta;
use crate::builtins::inputs::{closed_field, closed_field_decision};
use crate::types::json::{json_object_keys, object_keys, str_field};
use crate::types::rights::OperationRights;

verus! {

/// Errors of the observer capabilities.
#[derive(Debug, PartialEq, Eq)]
pub enum AgentError {
    /// Malformed input.
    Input(String),
    /// The handle is not among the agent's binding rows.
    Unknown(String),
    /// The handle's row names no capability the space holds.
    Unbound(String),
}

pub open spec fn agent_error_message(e: AgentError) -> Seq<char> {
    match e {
        AgentError::Input(m) => "agent: "@ + m@,
        AgentError::Unknown(h) => "agent: unknown handle `"@ + h@ + "`"@,
        AgentError::Unbound(h) => "agent: handle `"@ + h@ + "` has no bound capability"@,
    }
}

impl AgentError {
    /// The error as text.
    pub fn message(&self) -> (r: String)
        ensures
            r@ == agent_error_message(*self),
    {
        match self {
            AgentError::Input(m) => {
                let mut s = String::from_str("agent: ");
                s.append(m.as_str());
                s
            },
            AgentError::Unknown(h) => {
                let mut s = String::from_str("agent: unknown handle `");
                s.append(h.as_str());
                s.append("`");
                s
            },
            AgentError::Unbound(h) => {
                let mut s = String::from_str("agent: handle `");
                s.append(h.as_str());
                s.append("` has no bound capability");
                s
            },
        }
    }
}

/// `live` is what the space holds under `name`: nothing for an empty
/// name, else the capability of the slot registered under it, if any.
pub open spec fn live_under<H>(space: &CapabilitySpace<H>, name: Seq<char>, live: Option<&Capability<H>>) -> bool {
    if name.len() == 0 {
        live is None
    } else {
        &&& (live is Some <==> space.name_taken(name))
        &&& live matches Some(c) ==> exists|k: u64|
            space.slots().contains_key(k) && named(#[trigger] space.slots()[k], name) && *c
                == space.slots()[k].cap
    }
}

/// The row is bound to nothing the space holds.
pub open spec fn unbound_row<H>(space: &CapabilitySpace<H>, row: ResolvedBinding) -> bool {
    row.capability@.len() == 0 || !space.name_taken(row.capability@)
}

/// A handle's row and what the space holds for it now.
pub struct Reach<'a, H> {
    pub binding: ResolvedBinding,
    pub live: Option<&'a Capability<H>>,
}

/// What `describe` reports of a handle.
#[derive(Debug)]
pub struct HandleDescription {
    pub handle: String,
    pub provider: PluginId,
    pub capability: String,
    /// Whether the space holds the capability now; when it does not,
    /// the handle is unbound and `kind` and `operations` are empty.
    pub live: bool,
    /// The contract the handle's binding names.
    pub contract: String,
    /// The live capability's metadata: its name, namespace, plugin, in
    /// and out types, timeout and quota.
    pub meta: Option<CapabilityMeta>,
    /// Whether the live capability is a stream.
    pub streaming: Option<bool>,
    pub kind: Option<&'static str>,
    pub operations: Vec<&'static str>,
}

/// One handle that `list` reports.
#[derive(Debug)]
pub struct HandleEntry {
    pub handle: String,
    pub provider: PluginId,
    pub capability: String,
}

pub open spec fn kind_text(kind: CapKind) -> Seq<char> {
    match kind {
        CapKind::Sync => "sync"@,
        CapKind::Stream => "stream"@,
    }
}

/// `"sync"` or `"stream"`.
pub fn kind_name(kind: CapKind) -> (r: &'static str)
    ensures
        r@ == kind_text(kind),
{
    match kind {
        CapKind::Sync => "sync",
        CapKind::Stream => "stream",
    }
}

/// Names of the operations `rights` holds, in bit order.
pub open spec fn operation_list(rights: OperationRights) -> Seq<Seq<char>> {
    let b = rights.bits;
    (if b & 1 == 1 { seq!["READ"@] } else { Seq::empty() }) + (if b & 2 == 2 {
        seq!["WRITE"@]
    } else {
        Seq::empty()
    }) + (if b & 4 == 4 { seq!["EXECUTE"@] } else { Seq::empty() }) + (if b & 8 == 8 {
        seq!["ADMIN"@]
    } else {
        Seq::empty()
    })
}

/// The names of the operations `rights` holds.
pub fn operation_names(rights: OperationRights) -> (r: Vec<&'static str>)
    ensures
        r@.map_values(|s: &'static str| s@) == operation_list(rights),
{
    let mut r: Vec<&'static str> = Vec::new();
    if rights.contains(OperationRights::read()) {
        r.push("READ");
    }
    if rights.contains(OperationRights::write()) {
        r.push("WRITE");
    }
    if rights.contains(OperationRights::execute()) {
        r.push("EXECUTE");
    }
    if rights.contains(OperationRights::admin()) {
        r.push("ADMIN");
    }
    proof {
        assert(r@.map_values(|s: &'static str| s@) =~= operation_list(rights));
    }
    r
}

/// The agent's observer core: a space and the binding rows it may read
/// it through.
pub struct AgentCore<'a, H> {
    cspace: &'a CapabilitySpace<H>,
    rows: Vec<ResolvedBinding>,
}

impl<'a, H> AgentCore<'a, H> {
    pub closed spec fn space(&self) -> &'a CapabilitySpace<H> {
        self.cspace
    }

    pub closed spec fn rows(&self) -> Seq<ResolvedBinding> {
        self.rows@
    }

    pub fn new(cspace: &'a CapabilitySpace<H>, rows: Vec<ResolvedBinding>) -> (r: AgentCore<'a, H>)
        ensures
            r.space() == cspace,
            r.rows() == rows@,
    {
        AgentCore { cspace, rows }
    }

    /// Look up a capability registered under `name`, or nothing for an
    /// empty name.
    fn live(&self, name: &str) -> (r: Option<&'a Capability<H>>)
        requires
            self.space().wf(),
        ensures
            live_under(self.space(), name@, r),
    {
        if name.unicode_len() == 0 {
            None
        } else {
            self.cspace.lookup_by_name(name)
        }
    }

    /// The row of `handle` (the first, if several) and the capability
    /// it reaches now. A handle without a row is `Unknown`, whatever the
    /// space holds.
    pub fn reach(&self, handle: &str) -> (r: Result<Reach<'a, H>, AgentError>)
        requires
            self.space().wf(),
        ensures
            (forall|j: int| 0 <= j < self.rows().len() ==> (#[trigger] self.rows()[j]).handle@ != handle@)
                ==> (r matches Err(AgentError::Unknown(h)) && h@ == handle@),
            r matches Ok(reach) ==> exists|i: int|
                0 <= i < self.rows().len() && (forall|j: int| 0 <= j < i ==> (#[trigger] self.rows()[j]).handle@ != handle@)
                    && #[trigger] self.rows()[i] == reach.binding && reach.binding.handle@ == handle@
                    && live_under(self.space(), reach.binding.capability@, reach.live),
            (exists|j: int| 0 <= j < self.rows().len() && (#[trigger] self.rows()[j]).handle@ == handle@)
                ==> r is Ok,
    {
        let mut i: usize = 0;
        while i < self.rows.len()
            invariant
                self.space().wf(),
                i <= self.rows@.len(),
                forall|j: int| 0 <= j < i ==> (#[trigger] self.rows@[j]).handle@ != handle@,
            decreases self.rows@.len() - i,
        {
            if str_eq(self.rows[i].handle.as_str(), handle) {
                proof {
                    assert(self.rows()[i as int].handle@ == handle@);
                }
                let binding = self.rows[i].clone();
                let live = self.live(binding.capability.as_str());
                return Ok(Reach { binding, live });
            }
            i = i + 1;
        }
        Err(AgentError::Unknown(String::from_str(handle)))
    }

    /// Describe what is behind `handle`: its row, whether the space
    /// holds its capability and, when it does, the capability's kind
    /// and the operations it holds.
    pub fn describe(&self, handle: &str) -> (r: Result<HandleDescription, AgentError>)
        requires
            self.space().wf(),
        ensures
            (forall|j: int| 0 <= j < self.rows().len() ==> (#[trigger] self.rows()[j]).handle@ != handle@)
                ==> (r matches Err(AgentError::Unknown(h)) && h@ == handle@),
            (exists|j: int| 0 <= j < self.rows().len() && (#[trigger] self.rows()[j]).handle@ == handle@)
                ==> r is Ok,
            r matches Ok(d) ==> exists|i: int, live: Option<&Capability<H>>|
                0 <= i < self.rows().len() && (forall|j: int| 0 <= j < i ==> (#[trigger] self.rows()[j]).handle@ != handle@)
                    && self.rows()[i].handle@ == handle@ && #[trigger] live_under(
                    self.space(),
                    self.rows()[i].capability@,
                    live,
                ) && d.handle@ == self.rows()[i].handle@ && d.provider == self.rows()[i].provider
                    && d.capability@ == self.rows()[i].capability@ && d.live == (live is Some)
                    && d.contract@ == self.rows()[i].contract@ && match live {
                    Some(c) => d.kind matches Some(k) && k@ == kind_text(c.meta.kind)
                        && d.operations@.map_values(|s: &'static str| s@) == operation_list(c.operations)
                        && d.meta == Some(c.meta) && d.streaming == Some(c.meta.kind == CapKind::Stream),
                    None => d.kind is None && d.operations@.len() == 0 && d.meta is None && d.streaming is None,
                },
    {
        let reach = match self.reach(handle) {
            Ok(reach) => reach,
            Err(e) => {
                return Err(e);
            },
        };
        let Reach { binding, live } = reach;
        let ResolvedBinding { handle: h, provider, capability, contract } = binding;
        match live {
            None => Ok(
                HandleDescription {
                    handle: h,
                    provider,
                    capability,
                    live: false,
                    contract,
                    meta: None,
                    streaming: None,
                    kind: None,
                    operations: Vec::new(),
                },
            ),
            Some(cap) => {
                let kind = kind_name(cap.meta.kind);
                let operations = operation_names(cap.operations);
                let streaming = match cap.meta.kind {
                    CapKind::Stream => true,
                    CapKind::Sync => false,
                };
                Ok(
                    HandleDescription {
                        handle: h,
                        provider,
                        capability,
                        live: true,
                        contract,
                        meta: Some(cap.meta.clone()),
                        streaming: Some(streaming),
                        kind: Some(kind),
                        operations,
                    },
                )
            },
        }
    }

    /// Every handle with its provider and capability, in row order —
    /// or `Unbound` for the first row whose capability the space does
    /// not hold.
    pub fn list(&self) -> (r: Result<Vec<HandleEntry>, AgentError>)
        requires
            self.space().wf(),
        ensures
            match r {
                Ok(entries) => {
                    &&& forall|j: int| 0 <= j < self.rows().len() ==> !unbound_row(self.space(), #[trigger] self.rows()[j])
                    &&& entries@.len() == self.rows().len()
                    &&& forall|j: int|
                        0 <= j < entries@.len() ==> (#[trigger] entries@[j]).handle@ == self.rows()[j].handle@
                            && entries@[j].provider == self.rows()[j].provider
                            && entries@[j].capability@ == self.rows()[j].capability@
                },
                Err(e) => exists|i: int|
                    0 <= i < self.rows().len() && unbound_row(self.space(), #[trigger] self.rows()[i])
                        && (forall|j: int| 0 <= j < i ==> !unbound_row(self.space(), #[trigger] self.rows()[j]))
                        && (e matches AgentError::Unbound(h) && h@ == self.rows()[i].handle@),
            },
    {
        let mut entries: Vec<HandleEntry> = Vec::new();
        let mut i: usize = 0;
        while i < self.rows.len()
            invariant
                self.space().wf(),
                i <= self.rows@.len(),
                entries@.len() == i,
                forall|j: int| 0 <= j < i ==> !unbound_row(self.space(), #[trigger] self.rows@[j]),
                forall|j: int|
                    0 <= j < i ==> (#[trigger] entries@[j]).handle@ == self.rows@[j].handle@
                        && entries@[j].provider == self.rows@[j].provider
                        && entries@[j].capability@ == self.rows@[j].capability@,
            decreases self.rows@.len() - i,
        {
            let row = &self.rows[i];
            match self.live(row.capability.as_str()) {
                None => {
                    proof {
                        assert(unbound_row(self.space(), self.rows()[i as int]));
                    }
                    return Err(AgentError::Unbound(row.handle.clone()));
                },
                Some(_) => {
                    entries.push(
                        HandleEntry {
                            handle: row.handle.clone(),
                            provider: row.provider.clone(),
                            capability: row.capability.clone(),
                        },
                    );
                },
            }
            i = i + 1;
        }
        Ok(entries)
    }
}

/// What a list input decides, from its keys (`None` for a non-object):
/// only the empty object is accepted.
pub open spec fn list_decision(keys: Option<Seq<Seq<char>>>) -> Result<(), Seq<char>> {
    match keys {
        None => Err("expected a JSON object"@),
        Some(ks) => if ks.len() == 0 {
            Ok(())
        } else {
            Err("unknown field `"@ + ks[0] + "`; the only accepted input is an empty object"@)
        },
    }
}

/// The `handle` the JSON input of `agent_describe` names: the input
/// must be an object whose only field is `handle`, a string.
pub fn describe_input(input: &Value) -> (r: Result<String, AgentError>)
    ensures
        match closed_field_decision(object_keys(*input), str_field(*input, "handle"@), "handle"@) {
            Ok(h) => r matches Ok(s) && s@ == h,
            Err(m) => r matches Err(AgentError::Input(s)) && s@ == m,
        },
{
    match closed_field(input, "handle") {
        Ok(h) => Ok(h),
        Err(m) => Err(AgentError::Input(m)),
    }
}

/// Accept the input of `agent_list`: the empty object.
pub fn list_fields(keys: Option<Vec<String>>) -> (r: Result<(), AgentError>)
    ensures
        match list_decision(
            match keys {
                Some(ks) => Some(ks@.map_values(|k: String| k@)),
                None => None,
            },
        ) {
            Ok(()) => r is Ok,
            Err(m) => r matches Err(AgentError::Input(s)) && s@ == m,
        },
{
    match keys {
        None => Err(AgentError::Input(String::from_str("expected a JSON object"))),
        Some(ks) => {
            if ks.len() == 0 {
                Ok(())
            } else {
                let mut m = String::from_str("unknown field `");
                m.append(ks[0].as_str());
                m.append("`; the only accepted input is an empty object");
                Err(AgentError::Input(m))
            }
        },
    }
}

/// Accept the JSON input of `agent_list`.
pub fn list_input(input: &Value) -> (r: Result<(), AgentError>)
    ensures
        match list_decision(object_keys(*input)) {
            Ok(()) => r is Ok,
            Err(m) => r matches Err(AgentError::Input(s)) && s@ == m,
        },
{
    let keys = json_object_keys(input);
    list_fields(keys)
}

/// The `agent_list` capability: the reachable handles.
pub struct AgentListResource<'a, H> {
    pub core: AgentCore<'a, H>,
}

impl<'a, H> AgentListResource<'a, H> {
    pub fn new(cspace: &'a CapabilitySpace<H>, rows: Vec<ResolvedBinding>) -> (r: AgentListResource<'a, H>)
        ensures
            r.core.space() == cspace,
            r.core.rows() == rows@,
    {
        AgentListResource { core: AgentCore::new(cspace, rows) }
    }

    /// Accept the empty object and list the handles; errors as text.
    pub fn invoke(&self, input: &Value) -> (r: Result<Vec<HandleEntry>, String>)
        requires
            self.core.space().wf(),
        ensures
            match list_decision(object_keys(*input)) {
                Err(m) => r matches Err(s) && s@ == "agent: "@ + m,
                Ok(()) => match r {
                    Ok(entries) => entries@.len() == self.core.rows().len() && forall|j: int|
                        0 <= j < entries@.len() ==> (#[trigger] entries@[j]).handle@
                            == self.core.rows()[j].handle@,
                    Err(s) => exists|i: int|
                        0 <= i < self.core.rows().len() && unbound_row(
                            self.core.space(),
                            #[trigger] self.core.rows()[i],
                        ) && s@ == "agent: handle `"@ + self.core.rows()[i].handle@
                            + "` has no bound capability"@,
                },
            },
    {
        match list_input(input) {
            Err(e) => Err(e.message()),
            Ok(()) => match self.core.list() {
                Ok(entries) => Ok(entries),
                Err(e) => Err(e.message()),
            },
        }
    }
}

/// The `agent_describe` capability: what is behind one handle.
pub struct AgentDescribeResource<'a, H> {
    pub core: AgentCore<'a, H>,
}

impl<'a, H> AgentDescribeResource<'a, H> {
    pub fn new(cspace: &'a CapabilitySpace<H>, rows: Vec<ResolvedBinding>) -> (r: AgentDescribeResource<'a, H>)
        ensures
            r.core.space() == cspace,
            r.core.rows() == rows@,
    {
        AgentDescribeResource { core: AgentCore::new(cspace, rows) }
    }

    /// Read the closed `{"handle": ..}` input and describe the handle;
    /// errors as text. A handle without a row is unknown.
    pub fn invoke(&self, input: &Value) -> (r: Result<HandleDescription, String>)
        requires
            self.core.space().wf(),
        ensures
            match closed_field_decision(object_keys(*input), str_field(*input, "handle"@), "handle"@) {
                Err(m) => r matches Err(s) && s@ == "agent: "@ + m,
                Ok(h) => ((forall|j: int| 0 <= j < self.core.rows().len() ==> (#[trigger] self.core.rows()[j]).handle@ != h)
                    ==> (r matches Err(s) && s@ == "agent: unknown handle `"@ + h + "`"@))
                    && ((exists|j: int| 0 <= j < self.core.rows().len() && (#[trigger] self.core.rows()[j]).handle@ == h)
                    ==> r is Ok),
            },
    {
        let handle = match describe_input(input) {
            Err(e) => {
                return Err(e.message());
            },
            Ok(h) => h,
        };
        match self.core.describe(handle.as_str()) {
            Ok(d) => Ok(d),
            Err(e) => Err(e.message()),
        }
    }
}

} // verus!
