use odyssey::types::json::{json_ok, json_ok_value, json_order, json_str_items, json_string_member, json_text_index};
use odyssey::builtins::agent_core::{
    describe_input, kind_name, list_input, operation_names, AgentCore, AgentDescribeResource, AgentError,
    AgentListResource,
};
use odyssey::builtins::calendar::{epoch_to_ymdhms, iso8601, now_iso8601};
use odyssey::builtins::database::{parse_request, Database, DatabaseResource, DbRequest, InMemoryDatabase};
use odyssey::builtins::inspectors::{
    ProfileInspectorError, ProfileInspectorResource, SchemaInspectorResource, ToolDescriptorError,
    ToolDescriptorResource,
};
use odyssey::builtins::models::{
    parse_stream_request, reverse_chars, EchoResource, Generator, GeneratorResource, Reranker,
    RerankerResource, ReverseResource, StubGenerator, StubReranker,
};
use odyssey::builtins::plugins::{
    AgentDescribeBuiltin, AgentRuntimeBuiltin, DatabaseBuiltin, EchoBuiltin, HttpBridgeBuiltin,
    ProfileInspectorBuiltin, StreamingEchoBuiltin,
};
use odyssey::builtins::prompt::{build_plan_prompt, build_system_prompt};
use odyssey::builtins::reply::{first_native_tool_call, parse_llm_reply, History, Step};
use odyssey::builtins::session::{
    check_limits, limits_verdict, AgentError as RuntimeError, SessionId, SessionLimit, SessionLimits,
    SessionStatus,
};
use odyssey::kernel::cspace::{Capability, CapabilitySpace};
use odyssey::kernel::resource::{CapabilityChunk, Resource};
use odyssey::lifecycle::manifest_lines;
use odyssey::types::binding::{AuthorityContract, Reachable, ResolvedBinding};
use odyssey::types::ids::{CapKind, CapabilityId, PluginId};
use odyssey::types::manifest::ManifestBuilder;
use odyssey::types::meta::CapabilityMeta;
use odyssey::types::quota::QuotaSpec;
use odyssey::types::rights::{CapabilityRights, OperationRights};
use serde_json::Value;

fn j(text: &str) -> Value {
    serde_json::from_str(text).unwrap()
}

fn plugin(name: &str) -> PluginId {
    PluginId { name: name.to_string(), version: "0.1.0".to_string() }
}

fn meta(name: &str, schema: Option<Value>) -> CapabilityMeta {
    CapabilityMeta {
        id: CapabilityId(5),
        name: name.to_string(),
        namespace: "tools".to_string(),
        contract_name: name.to_string(),
        plugin: plugin("p"),
        in_type: "any".to_string(),
        out_type: "any".to_string(),
        kind: CapKind::Sync,
        timeout_ms: 5000,
        quota: QuotaSpec::unlimited().with_calls_per_minute(7),
        tool_schema: schema,
    }
}

fn space_with(names: &[(&str, Option<Value>)]) -> CapabilitySpace<EchoResource> {
    let mut space = CapabilitySpace::new();
    for (n, schema) in names {
        let b = space.new_budget(5000, QuotaSpec::unlimited().with_calls_per_minute(7));
        let s = space.allocate();
        space.install(s, Capability::new(meta(n, schema.clone()), EchoResource, b, CapKind::Sync));
    }
    space
}

fn row(handle: &str, cap: &str) -> ResolvedBinding {
    ResolvedBinding {
        handle: handle.to_string(),
        provider: plugin("prov"),
        capability: cap.to_string(),
        contract: handle.to_string(),
    }
}

#[test]
fn unknown_handle_is_unknown_whatever_the_space_holds() {
    let space = space_with(&[("echo", None), ("secret", None)]);
    let core = AgentCore::new(&space, vec![row("echo", "echo")]);
    assert_eq!(core.describe("secret").unwrap_err(), AgentError::Unknown("secret".to_string()));
    let d = core.describe("echo").unwrap();
    assert!(d.live);
    assert_eq!(d.kind, Some("sync"));
    assert_eq!(d.operations, vec!["READ", "WRITE", "EXECUTE", "ADMIN"]);
    let entries = core.list().unwrap();
    assert_eq!(entries.len(), 1);
    assert_eq!(entries[0].capability, "echo");
}

#[test]
fn unbound_rows_are_reported() {
    let space = space_with(&[("echo", None)]);
    let core = AgentCore::new(&space, vec![row("echo", "echo"), row("db", "database"), row("x", "")]);
    assert_eq!(core.list().unwrap_err(), AgentError::Unbound("db".to_string()));
    let d = core.describe("x").unwrap();
    assert!(!d.live);
    assert!(d.kind.is_none());
    assert_eq!(AgentError::Unbound("db".to_string()).message(), "agent: handle `db` has no bound capability");
    assert_eq!(AgentError::Unknown("q".to_string()).message(), "agent: unknown handle `q`");
}

#[test]
fn closed_inputs_refuse_unknown_fields() {
    assert_eq!(describe_input(&j(r#"{"handle": "echo"}"#)), Ok("echo".to_string()));
    assert_eq!(
        describe_input(&j(r#"{"handle": "echo", "op": "invoke"}"#)),
        Err(AgentError::Input("unknown field `op`; the only accepted field is `handle`".to_string()))
    );
    assert_eq!(describe_input(&j(r#"[1]"#)), Err(AgentError::Input("expected a JSON object".to_string())));
    assert_eq!(describe_input(&j(r#"{"handle": 3}"#)), Err(AgentError::Input("expected a `handle` string".to_string())));
    assert_eq!(list_input(&j(r#"{}"#)), Ok(()));
    assert_eq!(
        list_input(&j(r#"{"a": 1}"#)),
        Err(AgentError::Input("unknown field `a`; the only accepted input is an empty object".to_string()))
    );
}

#[test]
fn observer_resources_answer_text_errors() {
    let space = space_with(&[("echo", None)]);
    let list = AgentListResource::new(&space, vec![row("echo", "echo")]);
    assert_eq!(list.invoke(&j(r#"{}"#)).unwrap().len(), 1);
    let describe = AgentDescribeResource::new(&space, vec![row("echo", "echo")]);
    assert_eq!(describe.invoke(&j(r#"{"handle": "nope"}"#)).unwrap_err(), "agent: unknown handle `nope`");
    assert_eq!(kind_name(CapKind::Stream), "stream");
    assert_eq!(operation_names(OperationRights::read().union(OperationRights::admin())), vec!["READ", "ADMIN"]);
}

#[test]
fn session_limits_checked_in_order() {
    let id = SessionId("sess_1".to_string());
    let limits = SessionLimits::default();
    assert_eq!(limits.max_steps, 30);
    assert!(limits_verdict(&id, &limits, 3, 1_000, 2_000, 3_000).is_ok());
    assert_eq!(
        limits_verdict(&id, &limits, 30, 0, 0, 0),
        Err(RuntimeError::SessionLimit { id: "sess_1".to_string(), limit: "max_steps".to_string(), observed: 30 })
    );
    assert_eq!(
        limits_verdict(&id, &limits, 0, 0, 0, 300_001),
        Err(RuntimeError::SessionLimit { id: "sess_1".to_string(), limit: "max_idle_ms".to_string(), observed: 300_001 })
    );
    assert_eq!(
        limits_verdict(&id, &limits, 0, 0, 1_700_000, 1_800_001),
        Err(RuntimeError::SessionLimit { id: "sess_1".to_string(), limit: "max_session_ms".to_string(), observed: 1_800_001 })
    );
    // A clock behind the last step reads as no idle time.
    assert!(limits_verdict(&id, &limits, 0, 10, 10, 5).is_ok());
    assert!(check_limits(&id, &limits, 31, 0, 0).is_err());
    assert_eq!(SessionLimit::Idle.as_str(), "max_idle_ms");
    assert_eq!(SessionStatus::AwaitingObservation.as_str(), "AwaitingObservation");
    assert!(SessionStatus::Cancelled.is_terminal());
    assert!(!SessionStatus::Running.is_terminal());
    assert!(SessionId::new().as_str().starts_with("sess_"));
    assert_eq!(
        RuntimeError::SessionLimit { id: "s".to_string(), limit: "max_steps".to_string(), observed: 30 }.message(),
        "agent: session `s` exceeded max_steps (observed: 30)"
    );
    assert_eq!(RuntimeError::NoLlm.message(), "agent: LLM cap not bound");
    assert_eq!(
        RuntimeError::ToolDenied { tool: "t".to_string(), reason: "not in allowed_tools" }.message(),
        "agent: tool `t` denied (not in allowed_tools)"
    );
}

#[test]
fn civil_time_conversion() {
    assert_eq!(epoch_to_ymdhms(0), (1970, 1, 1, 0, 0, 0));
    assert_eq!(epoch_to_ymdhms(86_399), (1970, 1, 1, 23, 59, 59));
    assert_eq!(epoch_to_ymdhms(951_782_400), (2000, 2, 29, 0, 0, 0));
    assert_eq!(epoch_to_ymdhms(1_700_000_000), (2023, 11, 14, 22, 13, 20));
    assert_eq!(epoch_to_ymdhms(-1), (1969, 12, 31, 23, 59, 59));
    assert_eq!(epoch_to_ymdhms(4_102_444_800), (2100, 1, 1, 0, 0, 0));
    assert_eq!(iso8601(1_700_000_000_123), "2023-11-14T22:13:20.123Z");
    assert_eq!(iso8601(5), "1970-01-01T00:00:00.005Z");
    assert_eq!(now_iso8601().len(), 24);
}

#[test]
fn prompts_list_tools() {
    let tools = vec!["echo".to_string(), "reverse".to_string()];
    let p = build_system_prompt(true, &tools);
    assert!(p.starts_with("You are an agent inside the odyssey kernel. Available tools: echo, reverse. __AGENT_FIRST_ACTION__"));
    let q = build_system_prompt(false, &[]);
    assert!(q.contains("Available tools: (no tools available). __AGENT_FINAL_AFTER_TOOL__"));
    assert!(q.ends_with("Plain text is treated as a final answer."));
    assert_eq!(
        build_plan_prompt(&tools),
        "You are a planner inside the odyssey kernel. Tools: echo, reverse. Produce a numbered plan (1., 2., 3., ...). Plain text only; do not call any tools."
    );
    assert!(build_plan_prompt(&[]).contains("Tools: (no tools)."));
}

#[test]
fn database_reads_back_writes() {
    let mut db = InMemoryDatabase::new();
    assert_eq!(db.get("k"), Ok(None));
    db.set("k", j(r#"1"#)).unwrap();
    db.set("j", j(r#""x""#)).unwrap();
    db.set("k", j(r#"2"#)).unwrap();
    assert_eq!(db.get("k"), Ok(Some(j(r#"2"#))));
    assert_eq!(db.get("j"), Ok(Some(j(r#""x""#))));
    assert_eq!(db.delete("k"), Ok(true));
    assert_eq!(db.delete("k"), Ok(false));
    assert_eq!(db.get("k"), Ok(None));
}

#[test]
fn database_dispatches_requests() {
    let mut r = DatabaseResource::new(InMemoryDatabase::new());
    assert_eq!(r.invoke(j(r#"{"op": "get", "key": "a"}"#)), Ok(j(r#"{"ok": false}"#)));
    assert_eq!(r.invoke(j(r#"{"op": "set", "key": "a", "value": [1, 2]}"#)), Ok(j(r#"{"ok": true}"#)));
    assert_eq!(r.invoke(j(r#"{"op": "get", "key": "a"}"#)), Ok(j(r#"{"ok": true, "value": [1, 2]}"#)));
    assert_eq!(r.invoke(j(r#"{"op": "delete", "key": "a"}"#)), Ok(j(r#"{"ok": true}"#)));
    assert_eq!(
        r.invoke(j(r#"{"op": "nope"}"#)),
        Err("database: unknown op \"nope\"; expected get|set|delete".to_string())
    );
    assert_eq!(
        r.invoke(j(r#"{"key": "a"}"#)),
        Err("database: expected {\"op\": \"<get|set|delete>\", ...}, got {\"key\":\"a\"}".to_string())
    );
    assert_eq!(
        r.invoke(j(r#"{"op": "set", "key": "a"}"#)),
        Err("database.set: expected {\"op\":\"set\",\"key\":\"<string>\",\"value\":...}, got {\"key\":\"a\",\"op\":\"set\"}".to_string())
    );
    assert!(matches!(parse_request(&j(r#"{"op": "delete", "key": "z"}"#)), Ok(DbRequest::Delete { key }) if key == "z"));
}

#[test]
fn model_stubs_and_text_resources() {
    assert_eq!(StubGenerator.complete("héllo"), Ok("[stub generator] prompt len=6".to_string()));
    let g = GeneratorResource { backend: StubGenerator };
    assert_eq!(g.invoke(j(r#"{"prompt": "abc"}"#)), Ok(j(r#"{"text": "[stub generator] prompt len=3"}"#)));
    assert_eq!(g.invoke(j(r#"{}"#)), Err("generator: expected {\"prompt\": \"<string>\"}, got {}".to_string()));
    assert_eq!(StubReranker.rerank("q", vec!["a".to_string(), "b".to_string(), "c".to_string()]), Ok(vec![0, 1, 2]));
    let rr = RerankerResource { backend: StubReranker };
    assert_eq!(rr.invoke(j(r#"{"query": "q", "candidates": ["x", 3, "y"]}"#)), Ok(j(r#"{"order": [0, 1]}"#)));
    assert_eq!(reverse_chars("añb"), "bña");
    assert_eq!(ReverseResource.invoke(j(r#"{"text": "abc"}"#)), Ok(j(r#"{"text": "cba"}"#)));
    assert!(ReverseResource.invoke(j(r#"{"txt": "abc"}"#)).unwrap_err().starts_with("reverse: expected"));
    assert_eq!(EchoResource.invoke(j(r#"{"v": 1}"#)), Ok(j(r#"{"v": 1}"#)));
}

#[test]
fn streaming_echo_plan() {
    let req = parse_stream_request(&j(r#"{"text": "hi", "count": 2}"#)).unwrap();
    assert_eq!(req.count, 2);
    assert_eq!(req.delay_ms, 0);
    assert!(matches!(req.chunk(1), CapabilityChunk::Item(v) if v == j(r#"{"text": "hi", "index": 1}"#)));
    assert!(matches!(req.chunk(2), CapabilityChunk::Done));
    assert_eq!(
        parse_stream_request(&j(r#"{"text": "hi"}"#)).unwrap_err(),
        "streaming_echo: expected {\"count\": <u64>}, got {\"text\":\"hi\"}"
    );
}

#[test]
fn inspectors_read_schemas() {
    let schema = j(r#"{"description": "d", "input_schema": {"type": "object"}}"#);
    let space = space_with(&[("withschema", Some(schema)), ("plain", None)]);
    let td = ToolDescriptorResource::new(&space);
    let d = td.describe("withschema").unwrap();
    assert_eq!(d.description, "d");
    assert_eq!(d.input_schema, j(r#"{"type": "object"}"#));
    assert_eq!(d.output_schema, Value::Null);
    assert_eq!(td.describe("plain").unwrap_err(), ToolDescriptorError::SchemaMissing("plain".to_string()));
    assert_eq!(
        td.invoke(&j(r#"{"tool": "nope"}"#)).unwrap_err(),
        "tool_descriptor: tool `nope` not found in cspace"
    );
    let si = SchemaInspectorResource::new(&space);
    assert_eq!(
        si.invoke(&j(r#"{"tool": "plain"}"#)).unwrap_err(),
        "schema_inspector: tool `plain` exists but has no `tool_schema` declared"
    );
    let pi = ProfileInspectorResource::new(&space);
    let p = pi.inspect("plain").unwrap();
    assert_eq!(p.id, "cap:5");
    assert_eq!(p.calls_per_minute, 7);
    assert!(!p.has_tool_schema);
    assert_eq!(pi.inspect("x").unwrap_err(), ProfileInspectorError::SubjectNotFound("x".to_string()));
    assert_eq!(
        pi.invoke(&j(r#"{"subject": 1}"#)).unwrap_err(),
        "profile_inspector: expected a `subject` string"
    );
}

#[test]
fn manifest_has_one_sync_expose() {
    let m = HttpBridgeBuiltin::manifest();
    assert_eq!(m.plugin.name, "http_bridge");
    assert_eq!(m.plugin.version, "0.1.0");
    assert_eq!(m.exposes.len(), 1);
    assert_eq!(m.exposes[0].name, "http_bridge");
    assert_eq!(m.exposes[0].kind, CapKind::Sync);
    assert_eq!(m.exposes[0].contract_name, "http_bridge");
}

#[test]
fn builtin_manifests() {
    let agent = AgentRuntimeBuiltin.manifest();
    assert_eq!(agent.exposes.len(), 8);
    assert_eq!(agent.exposes[4].name, "agent_stream");
    assert_eq!(agent.exposes[4].kind, CapKind::Stream);
    assert_eq!(agent.requirements.len(), 2);
    assert_eq!(agent.resources.timeout_ms, Some(30000));
    let describe = AgentDescribeBuiltin.manifest();
    assert_eq!(describe.requirements[1].contract, "database");
    let db = DatabaseBuiltin::new().manifest();
    let schema = db.exposes[0].tool_schema.clone().unwrap();
    assert!(schema.get("input_schema").is_some());
    assert_eq!(EchoBuiltin.manifest().exposes[0].tool_schema.clone().unwrap()["output_schema"]["type"], "object");
    assert_eq!(StreamingEchoBuiltin.manifest().exposes[0].kind, CapKind::Stream);
    assert_eq!(ProfileInspectorBuiltin.manifest().host[0].service, "dispatcher");
}

#[test]
fn manifest_table_aligns_columns() {
    let lines = manifest_lines(&[HttpBridgeBuiltin::manifest()]);
    assert_eq!(
        lines,
        vec![
            "[manifest] loaded 1 plugin(s):".to_string(),
            "  plugin            exposes     contract    requires ".to_string(),
            "  --------------------------------------------------".to_string(),
            "  http_bridge@0.1.0 http_bridge http_bridge \u{2014}        ".to_string(),
        ]
    );
    let two = manifest_lines(&[AgentDescribeBuiltin.manifest()]);
    assert!(two[3].contains("echo\u{2192}echo,database\u{2192}database"));
}

#[test]
fn llm_replies_call_tools_or_answer() {
    let mut space = space_with(&[("echo", None)]);
    let mut history = History::new();
    let tools = vec!["echo".to_string()];
    let r = parse_llm_reply("  {\"tool_call\":{\"tool\":\"echo\",\"args\":{\"a\":1}}} ", &mut history, &tools, &mut space).unwrap();
    assert!(matches!(r.1, SessionStatus::AwaitingObservation));
    match r.0 {
        Step::ToolResult(tr) => assert_eq!(tr.outcome, Ok(j(r#"{"a": 1}"#))),
        _ => panic!("expected a tool result"),
    }
    assert_eq!(history.steps.len(), 2);
    let denied = parse_llm_reply("{\"tool_call\":{\"tool\":\"rm\"}}", &mut history, &tools, &mut space).unwrap_err();
    assert_eq!(denied, RuntimeError::ToolDenied { tool: "rm".to_string(), reason: "not in allowed_tools" });
    let unknown = parse_llm_reply("{\"tool_call\":{\"tool\":\"rm\"}}", &mut history, &[], &mut space).unwrap_err();
    assert_eq!(unknown, RuntimeError::ToolUnknown("rm".to_string()));
    let missing = parse_llm_reply("{\"tool_call\":{}}", &mut history, &[], &mut space).unwrap_err();
    assert_eq!(missing, RuntimeError::LlmFailed("tool_call missing `tool`".to_string()));
    let fin = parse_llm_reply("{\"final\": 42}", &mut history, &[], &mut space).unwrap();
    assert!(matches!(fin, (Step::Final(f), SessionStatus::Done) if f.value == j(r#"42"#)));
    let plain = parse_llm_reply("just text", &mut history, &[], &mut space).unwrap();
    assert!(matches!(plain, (Step::Final(f), SessionStatus::Done) if f.value == j(r#""just text""#)));
    assert_eq!(history.steps.len(), 4);
    let inv = first_native_tool_call(&j(r#"{"tool_calls": [{"name": "echo"}]}"#)).unwrap();
    assert_eq!(inv.tool, "echo");
    assert_eq!(inv.args, Value::Null);
    assert!(first_native_tool_call(&j(r#"{"tool_calls": []}"#)).is_none());
}

#[test]
fn authority_contract_and_reachable() {
    let c = AuthorityContract::empty().with_action("read", "READ").with_action("write", "WRITE").with_action("read", "ADMIN");
    assert_eq!(c.operation_for("read"), Some("READ"));
    assert_eq!(c.operation_for("write"), Some("WRITE"));
    assert_eq!(c.operation_for("exec"), None);
    let r = Reachable::from_binding(&row("gen", "generator"));
    assert_eq!(r, Reachable::new("gen", "generator"));
}

#[test]
fn manifest_builder_defaults_and_order() {
    let m = ManifestBuilder::new("p")
        .expose("a", "ca")
        .expose_streaming("b", "cb")
        .require("h", "c")
        .host("svc")
        .timeout_ms(7)
        .version("2.0.0")
        .build();
    assert_eq!(m.plugin.version, "2.0.0");
    assert_eq!(m.exposes.len(), 2);
    assert_eq!(m.exposes[0].in_type, "any");
    assert_eq!(m.exposes[1].kind, CapKind::Stream);
    assert_eq!(m.requirements[0].name, "h");
    assert_eq!(m.host[0].scope, None);
    assert_eq!(m.resources.timeout_ms, Some(7));
    let d = ManifestBuilder::new("q").build();
    assert_eq!(d.plugin.version, "0.1.0");
    assert!(d.exposes.is_empty() && d.requirements.is_empty() && d.host.is_empty());
    assert_eq!(d.resources.timeout_ms, None);
    let _ = CapabilityRights::root(1);
}

#[test]
fn describe_reports_the_live_capability_metadata() {
    let space = space_with(&[("echo", None)]);
    let core = AgentCore::new(&space, vec![row("echo", "echo"), row("x", "")]);
    let d = core.describe("echo").unwrap();
    assert_eq!(d.contract, "echo");
    assert_eq!(d.streaming, Some(false));
    let m = d.meta.expect("a live capability has metadata");
    assert_eq!(m.name, "echo");
    assert_eq!(m.timeout_ms, 5000);
    assert_eq!(m.quota.calls_per_minute, 7);
    let x = core.describe("x").unwrap();
    assert!(x.meta.is_none());
    assert!(x.streaming.is_none());
}

#[test]
fn database_answers_every_well_formed_request() {
    let mut db = DatabaseResource::new(InMemoryDatabase::new());
    assert_eq!(db.invoke(j(r#"{"op":"set","key":"k","value":[1]}"#)), Ok(j(r#"{"ok":true}"#)));
    assert_eq!(db.invoke(j(r#"{"op":"get","key":"k"}"#)), Ok(j(r#"{"ok":true,"value":[1]}"#)));
    assert_eq!(db.invoke(j(r#"{"op":"delete","key":"k"}"#)), Ok(j(r#"{"ok":true}"#)));
    assert_eq!(db.invoke(j(r#"{"op":"get","key":"k"}"#)), Ok(j(r#"{"ok":false}"#)));
}

#[test]
fn json_builders_give_the_response_shapes() {
    assert_eq!(json_ok(false), j(r#"{"ok":false}"#));
    assert_eq!(json_ok_value(j("3")), j(r#"{"ok":true,"value":3}"#));
    assert_eq!(json_string_member("text", "hi".to_string()), j(r#"{"text":"hi"}"#));
    assert_eq!(json_order(vec![2, 0, 1]), j(r#"{"order":[2,0,1]}"#));
    assert_eq!(json_text_index("a", 4), j(r#"{"text":"a","index":4}"#));
    assert_eq!(json_str_items(&j(r#"{"c":["a",1,"b"]}"#), "c"), Some(vec!["a".to_string(), "b".to_string()]));
    assert_eq!(json_str_items(&j(r#"{"c":"a"}"#), "c"), None);
}
