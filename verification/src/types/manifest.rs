//! Plugin manifest — what a plugin is, what it exposes, what it needs —
//! and the fluent builder every plugin writes its manifest with.
//!
//! Builder defaults: version `"0.1.0"`, capability types `"any"`, no
//! exposed capabilities, no requirements, no host services and no
//! timeout hint (the host default applies).

use vstd::prelude::*;
use serde_json::Value;
use crate::types::ids::{CapKind, PluginId};

verus! {

/// A plugin's manifest.
#[derive(Clone, Debug)]
pub struct PluginManifest {
    pub plugin: PluginId,
    pub isolate: IsolationMode,
    pub exposes: Vec<CapabilityDecl>,
    /// Capability-keyed dependencies: each names a contract another
    /// plugin must expose.
    pub requirements: Vec<CapabilityRequirement>,
    pub host: Vec<HostServiceRef>,
    pub resources: ResourceHints,
}

/// A dependency on a contract, under a local handle name.
#[derive(Clone, Debug)]
pub struct CapabilityRequirement {
    pub name: String,
    pub contract: String,
}

/// How a plugin is isolated. Every plugin runs in the host process.
#[derive(Clone, Copy, Debug, PartialEq, Eq, Structural)]
pub enum IsolationMode {
    InProc,
}

/// One exposed capability.
#[derive(Clone, Debug)]
pub struct CapabilityDecl {
    pub name: String,
    pub in_type: String,
    pub out_type: String,
    pub kind: CapKind,
    /// The contract this capability publishes; empty for none.
    pub contract_name: String,
    /// Agent-facing description of the capability's input and output
    /// (JSON Schema), if published.
    pub tool_schema: Option<Value>,
}

/// A host service the plugin needs.
#[derive(Clone, Debug)]
pub struct HostServiceRef {
    pub service: String,
    pub scope: Option<String>,
}

/// Resource hints: the per-call wall-clock budget in milliseconds.
#[derive(Clone, Copy, Debug, PartialEq, Eq, Structural)]
pub struct ResourceHints {
    pub timeout_ms: Option<u32>,
}

impl Default for ResourceHints {
    fn default() -> (r: ResourceHints)
        ensures
            r.timeout_ms is None,
    {
        ResourceHints { timeout_ms: None }
    }
}

/// `"0.1.0"`.
pub open spec fn default_version() -> Seq<char> {
    seq!['0', '.', '1', '.', '0']
}

/// `"any"`.
pub open spec fn any_type() -> Seq<char> {
    seq!['a', 'n', 'y']
}

/// `d` declares a capability named `name` publishing `contract`, of
/// kind `kind`, with `"any"` input and output types and no schema.
pub open spec fn declares(d: CapabilityDecl, name: Seq<char>, contract: Seq<char>, kind: CapKind) -> bool {
    declares_with(d, name, contract, kind, None)
}

/// `d` declares a capability named `name` publishing `contract`, of
/// kind `kind`, with `"any"` input and output types and the schema
/// `schema`.
pub open spec fn declares_with(
    d: CapabilityDecl,
    name: Seq<char>,
    contract: Seq<char>,
    kind: CapKind,
    schema: Option<Value>,
) -> bool {
    &&& d.name@ == name
    &&& d.contract_name@ == contract
    &&& d.kind == kind
    &&& d.in_type@ == any_type()
    &&& d.out_type@ == any_type()
    &&& d.tool_schema == schema
}

/// Builder for [`PluginManifest`].
pub struct ManifestBuilder {
    name: String,
    version: String,
    exposes: Vec<CapabilityDecl>,
    requirements: Vec<CapabilityRequirement>,
    host: Vec<HostServiceRef>,
    timeout_ms: Option<u32>,
}

impl ManifestBuilder {
    pub closed spec fn plugin_name(&self) -> Seq<char> {
        self.name@
    }

    pub closed spec fn plugin_version(&self) -> Seq<char> {
        self.version@
    }

    pub closed spec fn exposed(&self) -> Seq<CapabilityDecl> {
        self.exposes@
    }

    pub closed spec fn required(&self) -> Seq<CapabilityRequirement> {
        self.requirements@
    }

    pub closed spec fn hosted(&self) -> Seq<HostServiceRef> {
        self.host@
    }

    pub closed spec fn timeout_hint(&self) -> Option<u32> {
        self.timeout_ms
    }

    /// Start a manifest for the plugin `plugin_name`.
    pub fn new(plugin_name: &str) -> (r: ManifestBuilder)
        ensures
            r.plugin_name() == plugin_name@,
            r.plugin_version() == default_version(),
            r.exposed().len() == 0,
            r.required().len() == 0,
            r.hosted().len() == 0,
            r.timeout_hint() is None,
    {
        let v = "0.1.0";
        proof {
            reveal_strlit("0.1.0");
            assert(v@ =~= default_version());
        }
        ManifestBuilder {
            name: String::from_str(plugin_name),
            version: String::from_str(v),
            exposes: Vec::new(),
            requirements: Vec::new(),
            host: Vec::new(),
            timeout_ms: None,
        }
    }

    /// Override the plugin version.
    pub fn version(self, v: &str) -> (r: ManifestBuilder)
        ensures
            r.plugin_version() == v@,
            r.plugin_name() == self.plugin_name(),
            r.exposed() == self.exposed(),
            r.required() == self.required(),
            r.hosted() == self.hosted(),
            r.timeout_hint() == self.timeout_hint(),
    {
        ManifestBuilder { version: String::from_str(v), ..self }
    }

    fn push_decl(self, name: &str, contract_name: &str, kind: CapKind, schema: Option<Value>) -> (r:
        ManifestBuilder)
        ensures
            r.exposed().len() == self.exposed().len() + 1,
            r.exposed().take(self.exposed().len() as int) == self.exposed(),
            declares_with(r.exposed().last(), name@, contract_name@, kind, schema),
            r.plugin_version() == self.plugin_version(),
            r.plugin_name() == self.plugin_name(),
            r.required() == self.required(),
            r.hosted() == self.hosted(),
            r.timeout_hint() == self.timeout_hint(),
    {
        let any = "any";
        proof {
            reveal_strlit("any");
            assert(any@ =~= any_type());
        }
        let mut b = self;
        let ghost before = b.exposes@;
        b.exposes.push(
            CapabilityDecl {
                name: String::from_str(name),
                in_type: String::from_str(any),
                out_type: String::from_str(any),
                kind,
                contract_name: String::from_str(contract_name),
                tool_schema: schema,
            },
        );
        proof {
            assert(b.exposes@.take(before.len() as int) =~= before);
        }
        b
    }

    /// Append a sync capability publishing `contract_name`.
    pub fn expose(self, name: &str, contract_name: &str) -> (r: ManifestBuilder)
        ensures
            r.exposed().len() == self.exposed().len() + 1,
            r.exposed().take(self.exposed().len() as int) == self.exposed(),
            declares(r.exposed().last(), name@, contract_name@, CapKind::Sync),
            r.plugin_version() == self.plugin_version(),
            r.plugin_name() == self.plugin_name(),
            r.required() == self.required(),
            r.hosted() == self.hosted(),
            r.timeout_hint() == self.timeout_hint(),
    {
        self.push_decl(name, contract_name, CapKind::Sync, None)
    }

    /// Append a streaming capability publishing `contract_name`.
    pub fn expose_streaming(self, name: &str, contract_name: &str) -> (r: ManifestBuilder)
        ensures
            r.exposed().len() == self.exposed().len() + 1,
            r.exposed().take(self.exposed().len() as int) == self.exposed(),
            declares(r.exposed().last(), name@, contract_name@, CapKind::Stream),
            r.plugin_version() == self.plugin_version(),
            r.plugin_name() == self.plugin_name(),
            r.required() == self.required(),
            r.hosted() == self.hosted(),
            r.timeout_hint() == self.timeout_hint(),
    {
        self.push_decl(name, contract_name, CapKind::Stream, None)
    }

    /// Append a sync capability publishing `contract_name` and the tool
    /// schema `schema`.
    pub fn expose_with_schema(self, name: &str, contract_name: &str, schema: Value) -> (r:
        ManifestBuilder)
        ensures
            r.exposed().len() == self.exposed().len() + 1,
            r.exposed().take(self.exposed().len() as int) == self.exposed(),
            declares_with(r.exposed().last(), name@, contract_name@, CapKind::Sync, Some(schema)),
            r.plugin_version() == self.plugin_version(),
            r.plugin_name() == self.plugin_name(),
            r.required() == self.required(),
            r.hosted() == self.hosted(),
            r.timeout_hint() == self.timeout_hint(),
    {
        self.push_decl(name, contract_name, CapKind::Sync, Some(schema))
    }

    /// Append a streaming capability publishing `contract_name` and the
    /// tool schema `schema`.
    pub fn expose_streaming_with_schema(self, name: &str, contract_name: &str, schema: Value) -> (r:
        ManifestBuilder)
        ensures
            r.exposed().len() == self.exposed().len() + 1,
            r.exposed().take(self.exposed().len() as int) == self.exposed(),
            declares_with(r.exposed().last(), name@, contract_name@, CapKind::Stream, Some(schema)),
            r.plugin_version() == self.plugin_version(),
            r.plugin_name() == self.plugin_name(),
            r.required() == self.required(),
            r.hosted() == self.hosted(),
            r.timeout_hint() == self.timeout_hint(),
    {
        self.push_decl(name, contract_name, CapKind::Stream, Some(schema))
    }

    /// Append a dependency on `contract` under the local `handle`.
    pub fn require(self, handle: &str, contract: &str) -> (r: ManifestBuilder)
        ensures
            r.required().len() == self.required().len() + 1,
            r.required().take(self.required().len() as int) == self.required(),
            r.required().last().name@ == handle@,
            r.required().last().contract@ == contract@,
            r.exposed() == self.exposed(),
            r.plugin_version() == self.plugin_version(),
            r.plugin_name() == self.plugin_name(),
            r.hosted() == self.hosted(),
            r.timeout_hint() == self.timeout_hint(),
    {
        let mut b = self;
        let ghost before = b.requirements@;
        b.requirements.push(
            CapabilityRequirement { name: String::from_str(handle), contract: String::from_str(contract) },
        );
        proof {
            assert(b.requirements@.take(before.len() as int) =~= before);
        }
        b
    }

    /// Append a host service, with no scope.
    pub fn host(self, service: &str) -> (r: ManifestBuilder)
        ensures
            r.hosted().len() == self.hosted().len() + 1,
            r.hosted().take(self.hosted().len() as int) == self.hosted(),
            r.hosted().last().service@ == service@,
            r.hosted().last().scope is None,
            r.exposed() == self.exposed(),
            r.plugin_version() == self.plugin_version(),
            r.plugin_name() == self.plugin_name(),
            r.required() == self.required(),
            r.timeout_hint() == self.timeout_hint(),
    {
        let mut b = self;
        let ghost before = b.host@;
        b.host.push(HostServiceRef { service: String::from_str(service), scope: None });
        proof {
            assert(b.host@.take(before.len() as int) =~= before);
        }
        b
    }

    /// Set the timeout hint in milliseconds.
    pub fn timeout_ms(self, ms: u32) -> (r: ManifestBuilder)
        ensures
            r.timeout_hint() == Some(ms),
            r.exposed() == self.exposed(),
            r.plugin_version() == self.plugin_version(),
            r.plugin_name() == self.plugin_name(),
            r.required() == self.required(),
            r.hosted() == self.hosted(),
    {
        ManifestBuilder { timeout_ms: Some(ms), ..self }
    }

    /// The manifest: an in-process plugin with everything collected.
    pub fn build(self) -> (r: PluginManifest)
        ensures
            r.plugin.name@ == self.plugin_name(),
            r.plugin.version@ == self.plugin_version(),
            r.isolate == IsolationMode::InProc,
            r.exposes@ == self.exposed(),
            r.requirements@ == self.required(),
            r.host@ == self.hosted(),
            r.resources.timeout_ms == self.timeout_hint(),
    {
        let ManifestBuilder { name, version, exposes, requirements, host, timeout_ms } = self;
        PluginManifest {
            plugin: PluginId { name, version },
            isolate: IsolationMode::InProc,
            exposes,
            requirements,
            host,
            resources: ResourceHints { timeout_ms },
        }
    }
}

} // verus!
