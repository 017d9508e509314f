//! The builtin plugins' manifests: what each builtin exposes, what it
//! requires and its per-call timeout hint.

use vstd::prelude::*;
use crate::types::ids::CapKind;
use crate::types::json::{json_parse, parsed_json};
use crate::types::manifest::{
    declares, declares_with, default_version, IsolationMode, ManifestBuilder, PluginManifest,
};

verus! {

/// `m` is the manifest of plugin `plugin` (default version, in
/// process) exposing exactly the capabilities `caps` (name, contract,
/// kind) in that order, requiring the contracts `reqs` (handle,
/// contract) in that order, with no host services and the given
/// timeout hint.
pub open spec fn manifest_shape(
    m: PluginManifest,
    plugin: Seq<char>,
    caps: Seq<(Seq<char>, Seq<char>, CapKind)>,
    reqs: Seq<(Seq<char>, Seq<char>)>,
    timeout: Option<u32>,
) -> bool {
    &&& m.plugin.name@ == plugin
    &&& m.plugin.version@ == default_version()
    &&& m.isolate == IsolationMode::InProc
    &&& m.exposes@.len() == caps.len()
    &&& forall|i: int|
        0 <= i < caps.len() ==> declares(#[trigger] m.exposes@[i], caps[i].0, caps[i].1, caps[i].2)
    &&& m.requirements@.len() == reqs.len()
    &&& forall|i: int|
        0 <= i < reqs.len() ==> (#[trigger] m.requirements@[i]).name@ == reqs[i].0
            && m.requirements@[i].contract@ == reqs[i].1
    &&& m.host@.len() == 0
    &&& m.resources.timeout_ms == timeout
}

/// A manifest exposing one sync capability `name` under `contract`,
/// with a 5000 ms timeout hint.
fn single_sync(plugin: &str, name: &str, contract: &str) -> (r: PluginManifest)
    ensures
        manifest_shape(r, plugin@, seq![(name@, contract@, CapKind::Sync)], seq![], Some(5000)),
{
    let r = ManifestBuilder::new(plugin).expose(name, contract).timeout_ms(5000).build();
    proof {
        assert(r.exposes@[0] == r.exposes@.last());
    }
    r
}

/// A manifest exposing one capability `name` under `contract` with the
/// tool schema the JSON text `schema` parses to, and a 5000 ms timeout
/// hint.
fn single_with_schema(plugin: &str, name: &str, contract: &str, kind: CapKind, schema: &str) -> (r:
    PluginManifest)
    ensures
        r.plugin.name@ == plugin@,
        r.plugin.version@ == default_version(),
        r.isolate == IsolationMode::InProc,
        r.exposes@.len() == 1,
        declares_with(r.exposes@[0], name@, contract@, kind, parsed_json(schema@)),
        r.requirements@.len() == 0,
        r.host@.len() == 0,
        r.resources.timeout_ms == Some(5000u32),
{
    let b = ManifestBuilder::new(plugin);
    let b = match json_parse(schema) {
        Some(v) => match kind {
            CapKind::Sync => b.expose_with_schema(name, contract, v),
            CapKind::Stream => b.expose_streaming_with_schema(name, contract, v),
        },
        None => match kind {
            CapKind::Sync => b.expose(name, contract),
            CapKind::Stream => b.expose_streaming(name, contract),
        },
    };
    let r = b.timeout_ms(5000).build();
    proof {
        assert(r.exposes@[0] == r.exposes@.last());
    }
    r
}

/// The tool schema of `echo`.
pub const ECHO_SCHEMA: &'static str = r#"{"description":"Echoes its input back unchanged. The agent uses this to verify the tool-call round-trip.","input_schema":{"type":"object","properties":{"value":{"description":"Anything JSON-serialisable; returned verbatim."}}},"output_schema":{"type":"object","description":"The exact JSON value the caller supplied."}}"#;

/// The tool schema of `reverse`.
pub const REVERSE_SCHEMA: &'static str = r#"{"description":"Reverses the input string character by character. Useful for palindrome checks and string processing.","input_schema":{"type":"object","properties":{"text":{"type":"string","description":"The string to reverse. Unicode scalar values are reversed as a sequence, not grapheme clusters."}},"required":["text"]},"output_schema":{"type":"object","properties":{"text":{"type":"string","description":"The reversed string."}},"required":["text"]}}"#;

/// The tool schema of `database`.
pub const DATABASE_SCHEMA: &'static str = r#"{"description":"Backend-agnostic JSON key-value store. Keys are strings, values are any JSON value. The chosen backend determines persistence.","input_schema":{"oneOf":[{"type":"object","properties":{"op":{"type":"string","enum":["get"]},"key":{"type":"string"}},"required":["op","key"],"additionalProperties":false},{"type":"object","properties":{"op":{"type":"string","enum":["set"]},"key":{"type":"string"},"value":{"description":"Any JSON value; stored verbatim."}},"required":["op","key","value"],"additionalProperties":false},{"type":"object","properties":{"op":{"type":"string","enum":["delete"]},"key":{"type":"string"}},"required":["op","key"],"additionalProperties":false}]},"output_schema":{"oneOf":[{"description":"Returned by `get`.","type":"object","properties":{"ok":{"type":"boolean"},"value":{"description":"Present only when `ok` is true."}},"required":["ok"]},{"description":"Returned by `set` and `delete`.","type":"object","properties":{"ok":{"type":"boolean"}},"required":["ok"]}]}}"#;

/// The tool schema of `streaming_echo`.
pub const STREAMING_ECHO_SCHEMA: &'static str = r#"{"description":"Echoes `text` back `count` times as a stream of `count + 1` chunks (the last is a terminal Done). Optional `delay_ms` between chunks; default 0.","input_schema":{"type":"object","properties":{"text":{"type":"string","description":"The text to echo on every chunk."},"count":{"type":"integer","minimum":1,"description":"Number of payload chunks to emit before Done."},"delay_ms":{"type":"integer","minimum":0,"description":"Sleep between chunks; default 0. Set to ~150 for visible streaming over SSE."}},"required":["text","count"]},"output_schema":{"description":"Stream of N+1 chunks: N payload chunks then one Done sentinel.","type":"object","properties":{"text":{"type":"string"},"index":{"type":"integer","description":"0-based chunk index in [0, count)."}}}}"#;

/// The HTTP bridge: one sync capability, `http_bridge`.
pub struct HttpBridgeBuiltin;

impl HttpBridgeBuiltin {
    pub fn manifest() -> (r: PluginManifest)
        ensures
            manifest_shape(r, "http_bridge"@, seq![("http_bridge"@, "http_bridge"@, CapKind::Sync)], seq![], None),
    {
        let r = ManifestBuilder::new("http_bridge").version("0.1.0").expose("http_bridge", "http_bridge").build();
        proof {
            reveal_strlit("0.1.0");
            assert("0.1.0"@ =~= default_version());
            assert(r.exposes@[0] == r.exposes@.last());
        }
        r
    }
}

/// The generator: one sync capability, `generator`.
pub struct GeneratorBuiltin;

impl GeneratorBuiltin {
    pub fn manifest(&self) -> (r: PluginManifest)
        ensures
            manifest_shape(r, "generator"@, seq![("generator"@, "generator"@, CapKind::Sync)], seq![], Some(5000)),
    {
        single_sync("generator", "generator", "generator")
    }
}

/// The embedder: one sync capability, `embedder`.
pub struct EmbedderBuiltin;

impl EmbedderBuiltin {
    pub fn manifest(&self) -> (r: PluginManifest)
        ensures
            manifest_shape(r, "embedder"@, seq![("embedder"@, "embedder"@, CapKind::Sync)], seq![], Some(5000)),
    {
        single_sync("embedder", "embedder", "embedder")
    }
}

/// The reranker: one sync capability, `reranker`.
pub struct RerankerBuiltin;

impl RerankerBuiltin {
    pub fn manifest(&self) -> (r: PluginManifest)
        ensures
            manifest_shape(r, "reranker"@, seq![("reranker"@, "reranker"@, CapKind::Sync)], seq![], Some(5000)),
    {
        single_sync("reranker", "reranker", "reranker")
    }
}

/// The echo plugin: one sync capability, `echo`.
pub struct EchoBuiltin;

impl EchoBuiltin {
    pub fn manifest(&self) -> (r: PluginManifest)
        ensures
            r.plugin.name@ == "echo"@,
            r.plugin.version@ == default_version(),
            r.isolate == IsolationMode::InProc,
            r.exposes@.len() == 1,
            declares_with(r.exposes@[0], "echo"@, "echo"@, CapKind::Sync, parsed_json(ECHO_SCHEMA@)),
            r.requirements@.len() == 0,
            r.host@.len() == 0,
            r.resources.timeout_ms == Some(5000u32),
    {
        single_with_schema("echo", "echo", "echo", CapKind::Sync, ECHO_SCHEMA)
    }
}

/// The reverse plugin: one sync capability, `reverse`.
pub struct ReverseBuiltin;

impl ReverseBuiltin {
    pub fn manifest(&self) -> (r: PluginManifest)
        ensures
            r.plugin.name@ == "reverse"@,
            r.plugin.version@ == default_version(),
            r.isolate == IsolationMode::InProc,
            r.exposes@.len() == 1,
            declares_with(r.exposes@[0], "reverse"@, "reverse"@, CapKind::Sync, parsed_json(REVERSE_SCHEMA@)),
            r.requirements@.len() == 0,
            r.host@.len() == 0,
            r.resources.timeout_ms == Some(5000u32),
    {
        single_with_schema("reverse", "reverse", "reverse", CapKind::Sync, REVERSE_SCHEMA)
    }
}

/// The database plugin: one sync capability, `database`.
pub struct DatabaseBuiltin;

impl DatabaseBuiltin {
    pub fn new() -> (r: DatabaseBuiltin) {
        DatabaseBuiltin
    }

    pub fn manifest(&self) -> (r: PluginManifest)
        ensures
            r.plugin.name@ == "database"@,
            r.plugin.version@ == default_version(),
            r.isolate == IsolationMode::InProc,
            r.exposes@.len() == 1,
            declares_with(r.exposes@[0], "database"@, "database"@, CapKind::Sync, parsed_json(DATABASE_SCHEMA@)),
            r.requirements@.len() == 0,
            r.host@.len() == 0,
            r.resources.timeout_ms == Some(5000u32),
    {
        single_with_schema("database", "database", "database", CapKind::Sync, DATABASE_SCHEMA)
    }
}

/// The streaming echo plugin: one streaming capability,
/// `streaming_echo`.
pub struct StreamingEchoBuiltin;

impl StreamingEchoBuiltin {
    pub fn manifest(&self) -> (r: PluginManifest)
        ensures
            r.plugin.name@ == "streaming_echo"@,
            r.plugin.version@ == default_version(),
            r.isolate == IsolationMode::InProc,
            r.exposes@.len() == 1,
            declares_with(r.exposes@[0], "streaming_echo"@, "streaming_echo"@, CapKind::Stream, parsed_json(STREAMING_ECHO_SCHEMA@)),
            r.requirements@.len() == 0,
            r.host@.len() == 0,
            r.resources.timeout_ms == Some(5000u32),
    {
        single_with_schema("streaming_echo", "streaming_echo", "streaming_echo", CapKind::Stream, STREAMING_ECHO_SCHEMA)
    }
}

/// The schema inspector: `schema_describe` under `schema_inspector`.
pub struct SchemaInspectorBuiltin;

impl SchemaInspectorBuiltin {
    pub fn manifest(&self) -> (r: PluginManifest)
        ensures
            manifest_shape(
                r,
                "schema_inspector"@,
                seq![("schema_describe"@, "schema_inspector"@, CapKind::Sync)],
                seq![],
                Some(5000),
            ),
    {
        single_sync("schema_inspector", "schema_describe", "schema_inspector")
    }
}

/// The tool descriptor: `tool_describe` under `tool_descriptor`.
pub struct ToolDescriptorBuiltin;

impl ToolDescriptorBuiltin {
    pub fn manifest(&self) -> (r: PluginManifest)
        ensures
            manifest_shape(
                r,
                "tool_descriptor"@,
                seq![("tool_describe"@, "tool_descriptor"@, CapKind::Sync)],
                seq![],
                Some(5000),
            ),
    {
        single_sync("tool_descriptor", "tool_describe", "tool_descriptor")
    }
}

/// The profile inspector: `profile_inspect` under `profile_inspector`,
/// using the host's `dispatcher` service.
pub struct ProfileInspectorBuiltin;

impl ProfileInspectorBuiltin {
    pub fn manifest(&self) -> (r: PluginManifest)
        ensures
            r.plugin.name@ == "profile_inspector"@,
            r.plugin.version@ == default_version(),
            r.isolate == IsolationMode::InProc,
            r.exposes@.len() == 1,
            declares(r.exposes@[0], "profile_inspect"@, "profile_inspector"@, CapKind::Sync),
            r.requirements@.len() == 0,
            r.host@.len() == 1,
            r.host@[0].service@ == "dispatcher"@,
            r.host@[0].scope is None,
            r.resources.timeout_ms == Some(5000u32),
    {
        let r = ManifestBuilder::new("profile_inspector").expose("profile_inspect", "profile_inspector").host(
            "dispatcher",
        ).timeout_ms(5000).build();
        proof {
            assert(r.exposes@[0] == r.exposes@.last());
            assert(r.host@[0] == r.host@.last());
        }
        r
    }
}

/// The agent's list observer: `agent_list`.
pub struct AgentListBuiltin;

impl AgentListBuiltin {
    pub fn manifest(&self) -> (r: PluginManifest)
        ensures
            manifest_shape(r, "agent_list"@, seq![("agent_list"@, "agent_list"@, CapKind::Sync)], seq![], Some(5000)),
    {
        single_sync("agent_list", "agent_list", "agent_list")
    }
}

/// The agent's describe observer: `agent_describe`, reaching the
/// `echo` and `database` contracts.
pub struct AgentDescribeBuiltin;

impl AgentDescribeBuiltin {
    pub fn manifest(&self) -> (r: PluginManifest)
        ensures
            manifest_shape(
                r,
                "agent_describe"@,
                seq![("agent_describe"@, "agent_describe"@, CapKind::Sync)],
                seq![("echo"@, "echo"@), ("database"@, "database"@)],
                Some(5000),
            ),
    {
        let b = ManifestBuilder::new("agent_describe").expose("agent_describe", "agent_describe");
        let b1 = b.require("echo", "echo");
        let b2 = b1.require("database", "database");
        let r = b2.timeout_ms(5000).build();
        proof {
            assert(r.exposes@[0] == r.exposes@.last());
            assert(b2.required()[0] == b1.required()[0]);
        }
        r
    }
}

/// The agent runtime: seven sync capabilities and the `agent_stream`
/// stream, reaching a generator and an embedder, 30 s per call.
pub struct AgentRuntimeBuiltin;

impl AgentRuntimeBuiltin {
    pub fn manifest(&self) -> (r: PluginManifest)
        ensures
            manifest_shape(
                r,
                "agent"@,
                seq![
                    ("agent_start"@, "agent_start"@, CapKind::Sync),
                    ("agent_resume"@, "agent_resume"@, CapKind::Sync),
                    ("agent_cancel"@, "agent_cancel"@, CapKind::Sync),
                    ("agent_plan"@, "agent_plan"@, CapKind::Sync),
                    ("agent_stream"@, "agent_stream"@, CapKind::Stream),
                    ("agent_memory_recall"@, "agent_memory_recall"@, CapKind::Sync),
                    ("agent_memory_record"@, "agent_memory_record"@, CapKind::Sync),
                    ("agent_load"@, "agent_load"@, CapKind::Sync),
                ],
                seq![("generator"@, "generator"@), ("embedder"@, "embedder"@)],
                Some(30000),
            ),
    {
        let b0 = ManifestBuilder::new("agent");
        let b1 = b0.expose("agent_start", "agent_start");
        let b2 = b1.expose("agent_resume", "agent_resume");
        let b3 = b2.expose("agent_cancel", "agent_cancel");
        let b4 = b3.expose("agent_plan", "agent_plan");
        let b5 = b4.expose_streaming("agent_stream", "agent_stream");
        let b6 = b5.expose("agent_memory_recall", "agent_memory_recall");
        let b7 = b6.expose("agent_memory_record", "agent_memory_record");
        let b8 = b7.expose("agent_load", "agent_load");
        let b9 = b8.require("generator", "generator");
        let b10 = b9.require("embedder", "embedder");
        let r = b10.timeout_ms(30000).build();
        proof {
            let e = r.exposes@;
            assert(e.take(7) == b7.exposed());
            assert(e.take(6) == b6.exposed());
            assert(e[0] == b1.exposed().last());
            assert(e[1] == b2.exposed().last());
            assert(e[2] == b3.exposed().last());
            assert(e[3] == b4.exposed().last());
            assert(e[4] == b5.exposed().last());
            assert(e[5] == b6.exposed().last());
            assert(e[6] == b7.exposed().last());
            assert(e[7] == b8.exposed().last());
            assert(b10.required()[0] == b9.required()[0]);
        }
        r
    }
}

} // verus!
