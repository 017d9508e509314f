//! Introspection capabilities: the tool descriptor and the schema
//! inspector answer what a tool's input and output contract is (from
//! the tool schema its manifest published); the profile inspector
//! reports a capability's metadata and rights. All three read the space
//! and never invoke what they read.

use vstd::prelude::*;
use serde_json::Value;
use crate::builtins::agent_core::{kind_name, kind_text, operation_list, operation_names};
use crate::builtins::inputs::{closed_field, closed_field_decision};
use crate::kernel::cspace::{named, Capability, CapabilitySpace};
use crate::text::{decimal, push_decimal};
use crate::types::ids::PluginId;
use crate::types::json::{
    field_or_null, json_field_or_null, json_str_field, object_keys, str_field,
};

verus! {

/// What a tool's schema says: its name, description, input and output
/// schemas, and the operations the capability holds.
#[derive(Debug)]
pub struct ToolDescription {
    pub name: String,
    pub description: String,
    pub input_schema: Value,
    pub output_schema: Value,
    pub operations: Vec<&'static str>,
}

/// Looking up a tool's schema: no such tool, a tool without a schema,
/// or its description.
pub enum SchemaLookup {
    NotFound,
    Missing,
    Found(ToolDescription),
}

/// `d` describes capability `c` whose schema is `schema`.
pub open spec fn describes<H>(d: ToolDescription, c: Capability<H>, schema: Value) -> bool {
    &&& d.name@ == c.meta.name@
    &&& d.description@ == match str_field(schema, "description"@) {
        Some(t) => t,
        None => Seq::empty(),
    }
    &&& d.input_schema == field_or_null(schema, "input_schema"@)
    &&& d.output_schema == field_or_null(schema, "output_schema"@)
    &&& d.operations@.map_values(|s: &'static str| s@) == operation_list(c.operations)
}

/// `r` is what the space says of the schema of `tool`.
pub open spec fn schema_lookup<H>(space: &CapabilitySpace<H>, tool: Seq<char>, r: SchemaLookup) -> bool {
    if !space.name_taken(tool) {
        r is NotFound
    } else {
        exists|k: u64|
            space.slots().contains_key(k) && named(#[trigger] space.slots()[k], tool) && match space.slots()[k].cap.meta.tool_schema {
                None => r is Missing,
                Some(schema) => r matches SchemaLookup::Found(d) && describes(d, space.slots()[k].cap, schema),
            }
    }
}

/// Describe the tool registered under `tool` from its schema.
pub fn lookup_schema<H>(space: &CapabilitySpace<H>, tool: &str) -> (r: SchemaLookup)
    requires
        space.wf(),
    ensures
        schema_lookup(space, tool@, r),
{
    let cap = match space.lookup_by_name(tool) {
        None => {
            return SchemaLookup::NotFound;
        },
        Some(c) => c,
    };
    let schema = match &cap.meta.tool_schema {
        None => {
            return SchemaLookup::Missing;
        },
        Some(s) => s,
    };
    let description = match json_str_field(schema, "description") {
        Some(t) => t,
        None => String::new(),
    };
    let input_schema = json_field_or_null(schema, "input_schema");
    let output_schema = json_field_or_null(schema, "output_schema");
    SchemaLookup::Found(
        ToolDescription {
            name: cap.meta.name.clone(),
            description,
            input_schema,
            output_schema,
            operations: operation_names(cap.operations),
        },
    )
}

/// Errors of the tool descriptor.
#[derive(Debug, PartialEq, Eq)]
pub enum ToolDescriptorError {
    Input(String),
    ToolNotFound(String),
    SchemaMissing(String),
}

pub open spec fn tool_descriptor_message(e: ToolDescriptorError) -> Seq<char> {
    match e {
        ToolDescriptorError::Input(m) => "tool_descriptor: "@ + m@,
        ToolDescriptorError::ToolNotFound(n) => "tool_descriptor: tool `"@ + n@ + "` not found in cspace"@,
        ToolDescriptorError::SchemaMissing(n) => "tool_descriptor: tool `"@ + n@
            + "` exists but has no `tool_schema` declared"@,
    }
}

impl ToolDescriptorError {
    pub fn message(&self) -> (r: String)
        ensures
            r@ == tool_descriptor_message(*self),
    {
        match self {
            ToolDescriptorError::Input(m) => {
                let mut s = String::from_str("tool_descriptor: ");
                s.append(m.as_str());
                s
            },
            ToolDescriptorError::ToolNotFound(n) => {
                let mut s = String::from_str("tool_descriptor: tool `");
                s.append(n.as_str());
                s.append("` not found in cspace");
                s
            },
            ToolDescriptorError::SchemaMissing(n) => {
                let mut s = String::from_str("tool_descriptor: tool `");
                s.append(n.as_str());
                s.append("` exists but has no `tool_schema` declared");
                s
            },
        }
    }
}

/// Errors of the schema inspector.
#[derive(Debug, PartialEq, Eq)]
pub enum SchemaInspectorError {
    Input(String),
    ToolNotFound(String),
    SchemaMissing(String),
}

pub open spec fn schema_inspector_message(e: SchemaInspectorError) -> Seq<char> {
    match e {
        SchemaInspectorError::Input(m) => "schema_inspector: "@ + m@,
        SchemaInspectorError::ToolNotFound(n) => "schema_inspector: tool `"@ + n@ + "` not found in cspace"@,
        SchemaInspectorError::SchemaMissing(n) => "schema_inspector: tool `"@ + n@
            + "` exists but has no `tool_schema` declared"@,
    }
}

impl SchemaInspectorError {
    pub fn message(&self) -> (r: String)
        ensures
            r@ == schema_inspector_message(*self),
    {
        match self {
            SchemaInspectorError::Input(m) => {
                let mut s = String::from_str("schema_inspector: ");
                s.append(m.as_str());
                s
            },
            SchemaInspectorError::ToolNotFound(n) => {
                let mut s = String::from_str("schema_inspector: tool `");
                s.append(n.as_str());
                s.append("` not found in cspace");
                s
            },
            SchemaInspectorError::SchemaMissing(n) => {
                let mut s = String::from_str("schema_inspector: tool `");
                s.append(n.as_str());
                s.append("` exists but has no `tool_schema` declared");
                s
            },
        }
    }
}

/// The `tool_describe` capability over a space.
pub struct ToolDescriptorResource<'a, H> {
    cspace: &'a CapabilitySpace<H>,
}

impl<'a, H> ToolDescriptorResource<'a, H> {
    pub closed spec fn space(&self) -> &'a CapabilitySpace<H> {
        self.cspace
    }

    pub fn new(cspace: &'a CapabilitySpace<H>) -> (r: ToolDescriptorResource<'a, H>)
        ensures
            r.space() == cspace,
    {
        ToolDescriptorResource { cspace }
    }

    /// The contract of `tool`: refused when no capability has that
    /// name, or when it published no schema.
    pub fn describe(&self, tool: &str) -> (r: Result<ToolDescription, ToolDescriptorError>)
        requires
            self.space().wf(),
        ensures
            exists|l: SchemaLookup|
                #[trigger] schema_lookup(self.space(), tool@, l) && match l {
                    SchemaLookup::NotFound => r matches Err(ToolDescriptorError::ToolNotFound(n)) && n@
                        == tool@,
                    SchemaLookup::Missing => r matches Err(ToolDescriptorError::SchemaMissing(n)) && n@
                        == tool@,
                    SchemaLookup::Found(d) => r == Ok::<ToolDescription, ToolDescriptorError>(d),
                },
    {
        let l = lookup_schema(self.cspace, tool);
        let ghost g = l;
        match l {
            SchemaLookup::NotFound => Err(ToolDescriptorError::ToolNotFound(String::from_str(tool))),
            SchemaLookup::Missing => Err(ToolDescriptorError::SchemaMissing(String::from_str(tool))),
            SchemaLookup::Found(d) => Ok(d),
        }
    }

    /// Read the closed `{"tool": ..}` input and describe that tool.
    pub fn invoke(&self, input: &Value) -> (r: Result<ToolDescription, String>)
        requires
            self.space().wf(),
        ensures
            match closed_field_decision(object_keys(*input), str_field(*input, "tool"@), "tool"@) {
                Err(m) => r matches Err(s) && s@ == "tool_descriptor: "@ + m,
                Ok(t) => exists|l: SchemaLookup|
                    #[trigger] schema_lookup(self.space(), t, l) && match l {
                        SchemaLookup::NotFound => r matches Err(s) && s@ == "tool_descriptor: tool `"@ + t
                            + "` not found in cspace"@,
                        SchemaLookup::Missing => r matches Err(s) && s@ == "tool_descriptor: tool `"@ + t
                            + "` exists but has no `tool_schema` declared"@,
                        SchemaLookup::Found(d) => r == Ok::<ToolDescription, String>(d),
                    },
            },
    {
        let tool = match closed_field(input, "tool") {
            Err(m) => {
                return Err(ToolDescriptorError::Input(m).message());
            },
            Ok(t) => t,
        };
        match self.describe(tool.as_str()) {
            Ok(d) => Ok(d),
            Err(e) => Err(e.message()),
        }
    }
}

/// The `schema_describe` capability over a space.
pub struct SchemaInspectorResource<'a, H> {
    cspace: &'a CapabilitySpace<H>,
}

impl<'a, H> SchemaInspectorResource<'a, H> {
    pub closed spec fn space(&self) -> &'a CapabilitySpace<H> {
        self.cspace
    }

    pub fn new(cspace: &'a CapabilitySpace<H>) -> (r: SchemaInspectorResource<'a, H>)
        ensures
            r.space() == cspace,
    {
        SchemaInspectorResource { cspace }
    }

    /// The contract of `tool`: refused when no capability has that
    /// name, or when it published no schema.
    pub fn describe(&self, tool: &str) -> (r: Result<ToolDescription, SchemaInspectorError>)
        requires
            self.space().wf(),
        ensures
            exists|l: SchemaLookup|
                #[trigger] schema_lookup(self.space(), tool@, l) && match l {
                    SchemaLookup::NotFound => r matches Err(SchemaInspectorError::ToolNotFound(n)) && n@
                        == tool@,
                    SchemaLookup::Missing => r matches Err(SchemaInspectorError::SchemaMissing(n)) && n@
                        == tool@,
                    SchemaLookup::Found(d) => r == Ok::<ToolDescription, SchemaInspectorError>(d),
                },
    {
        let l = lookup_schema(self.cspace, tool);
        let ghost g = l;
        match l {
            SchemaLookup::NotFound => Err(SchemaInspectorError::ToolNotFound(String::from_str(tool))),
            SchemaLookup::Missing => Err(SchemaInspectorError::SchemaMissing(String::from_str(tool))),
            SchemaLookup::Found(d) => Ok(d),
        }
    }

    /// Read the closed `{"tool": ..}` input and describe that tool.
    pub fn invoke(&self, input: &Value) -> (r: Result<ToolDescription, String>)
        requires
            self.space().wf(),
        ensures
            match closed_field_decision(object_keys(*input), str_field(*input, "tool"@), "tool"@) {
                Err(m) => r matches Err(s) && s@ == "schema_inspector: "@ + m,
                Ok(t) => exists|l: SchemaLookup|
                    #[trigger] schema_lookup(self.space(), t, l) && match l {
                        SchemaLookup::NotFound => r matches Err(s) && s@ == "schema_inspector: tool `"@ + t
                            + "` not found in cspace"@,
                        SchemaLookup::Missing => r matches Err(s) && s@ == "schema_inspector: tool `"@ + t
                            + "` exists but has no `tool_schema` declared"@,
                        SchemaLookup::Found(d) => r == Ok::<ToolDescription, String>(d),
                    },
            },
    {
        let tool = match closed_field(input, "tool") {
            Err(m) => {
                return Err(SchemaInspectorError::Input(m).message());
            },
            Ok(t) => t,
        };
        match self.describe(tool.as_str()) {
            Ok(d) => Ok(d),
            Err(e) => Err(e.message()),
        }
    }
}

/// Errors of the profile inspector.
#[derive(Debug, PartialEq, Eq)]
pub enum ProfileInspectorError {
    Input(String),
    SubjectNotFound(String),
}

pub open spec fn profile_inspector_message(e: ProfileInspectorError) -> Seq<char> {
    match e {
        ProfileInspectorError::Input(m) => "profile_inspector: "@ + m@,
        ProfileInspectorError::SubjectNotFound(n) => "profile_inspector: subject `"@ + n@
            + "` not found in cspace"@,
    }
}

impl ProfileInspectorError {
    pub fn message(&self) -> (r: String)
        ensures
            r@ == profile_inspector_message(*self),
    {
        match self {
            ProfileInspectorError::Input(m) => {
                let mut s = String::from_str("profile_inspector: ");
                s.append(m.as_str());
                s
            },
            ProfileInspectorError::SubjectNotFound(n) => {
                let mut s = String::from_str("profile_inspector: subject `");
                s.append(n.as_str());
                s.append("` not found in cspace");
                s
            },
        }
    }
}

/// What the profile inspector reports of a capability.
#[derive(Debug)]
pub struct ProfileReport {
    pub subject: String,
    /// `cap:` and the capability's id.
    pub id: String,
    pub name: String,
    pub namespace: String,
    pub contract_name: String,
    pub plugin: PluginId,
    pub kind: &'static str,
    pub timeout_ms: u32,
    pub calls_per_minute: u32,
    pub has_tool_schema: bool,
    pub operations: Vec<&'static str>,
}

/// `p` reports capability `c` under the subject name `subject`.
pub open spec fn reports<H>(p: ProfileReport, c: Capability<H>, subject: Seq<char>) -> bool {
    &&& p.subject@ == subject
    &&& p.id@ == "cap:"@ + decimal(c.meta.id.0 as nat)
    &&& p.name@ == c.meta.name@
    &&& p.namespace@ == c.meta.namespace@
    &&& p.contract_name@ == c.meta.contract_name@
    &&& p.plugin == c.meta.plugin
    &&& p.kind@ == kind_text(c.meta.kind)
    &&& p.timeout_ms == c.meta.timeout_ms
    &&& p.calls_per_minute == c.meta.quota.calls_per_minute
    &&& p.has_tool_schema == (c.meta.tool_schema is Some)
    &&& p.operations@.map_values(|s: &'static str| s@) == operation_list(c.operations)
}

/// The `profile_inspect` capability over a space.
pub struct ProfileInspectorResource<'a, H> {
    cspace: &'a CapabilitySpace<H>,
}

impl<'a, H> ProfileInspectorResource<'a, H> {
    pub closed spec fn space(&self) -> &'a CapabilitySpace<H> {
        self.cspace
    }

    pub fn new(cspace: &'a CapabilitySpace<H>) -> (r: ProfileInspectorResource<'a, H>)
        ensures
            r.space() == cspace,
    {
        ProfileInspectorResource { cspace }
    }

    /// The profile of the capability registered under `subject`.
    pub fn inspect(&self, subject: &str) -> (r: Result<ProfileReport, ProfileInspectorError>)
        requires
            self.space().wf(),
        ensures
            !self.space().name_taken(subject@) ==> (r matches Err(
                ProfileInspectorError::SubjectNotFound(n),
            ) && n@ == subject@),
            self.space().name_taken(subject@) ==> exists|k: u64|
                self.space().slots().contains_key(k) && named(#[trigger] self.space().slots()[k], subject@)
                    && (r matches Ok(p) && reports(p, self.space().slots()[k].cap, subject@)),
    {
        let cap = match self.cspace.lookup_by_name(subject) {
            None => {
                return Err(ProfileInspectorError::SubjectNotFound(String::from_str(subject)));
            },
            Some(c) => c,
        };
        let meta = &cap.meta;
        let mut id = String::from_str("cap:");
        push_decimal(&mut id, meta.id.0);
        let has_tool_schema = match &meta.tool_schema {
            Some(_) => true,
            None => false,
        };
        Ok(
            ProfileReport {
                subject: String::from_str(subject),
                id,
                name: meta.name.clone(),
                namespace: meta.namespace.clone(),
                contract_name: meta.contract_name.clone(),
                plugin: meta.plugin.clone(),
                kind: kind_name(meta.kind),
                timeout_ms: meta.timeout_ms,
                calls_per_minute: meta.quota.calls_per_minute,
                has_tool_schema,
                operations: operation_names(cap.operations),
            },
        )
    }

    /// Read the closed `{"subject": ..}` input and profile that
    /// capability.
    pub fn invoke(&self, input: &Value) -> (r: Result<ProfileReport, String>)
        requires
            self.space().wf(),
        ensures
            match closed_field_decision(object_keys(*input), str_field(*input, "subject"@), "subject"@) {
                Err(m) => r matches Err(s) && s@ == "profile_inspector: "@ + m,
                Ok(t) => (!self.space().name_taken(t) ==> (r matches Err(s) && s@
                    == "profile_inspector: subject `"@ + t + "` not found in cspace"@))
                    && (self.space().name_taken(t) ==> exists|k: u64|
                    self.space().slots().contains_key(k) && named(#[trigger] self.space().slots()[k], t)
                        && (r matches Ok(p) && reports(p, self.space().slots()[k].cap, t))),
            },
    {
        let subject = match closed_field(input, "subject") {
            Err(m) => {
                return Err(ProfileInspectorError::Input(m).message());
            },
            Ok(t) => t,
        };
        match self.inspect(subject.as_str()) {
            Ok(p) => Ok(p),
            Err(e) => Err(e.message()),
        }
    }
}

} // verus!
