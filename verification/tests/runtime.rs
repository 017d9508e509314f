use odyssey::builtins::runtime::{agent_op, AgentAction, AgentOp};
use std::sync::Mutex;

use odyssey::builtins::reply::{FinalAnswer, History, LlmReply, Step, ToolInvocation, ToolResult};
use odyssey::builtins::runtime::{
    apply_reply, collect_tool_schemas, llm_request, mint_session_event_bus, parse_bus_event, parse_limits, parse_observation,
    plan_answer, plan_request, step_to_value,
    AgentEvent, AgentRuntime, Observation, Session, SessionCheckpoint,
};
use odyssey::builtins::session::{AgentError, FinalReason, SessionId, SessionLimits, SessionStatus};
use odyssey::kernel::cspace::{Capability, CapabilitySpace};
use odyssey::kernel::resource::Resource;
use odyssey::types::ids::{CapKind, CapabilityId, PluginId, SlotId};
use odyssey::types::meta::CapabilityMeta;
use odyssey::types::quota::QuotaSpec;
use serde_json::Value;

fn j(text: &str) -> Value {
    serde_json::from_str(text).unwrap()
}

enum Handler {
    Echo,
    Generator(Mutex<Vec<Value>>),
    Bus,
}

impl Resource for Handler {
    fn invoke(&self, input: Value) -> Result<Value, String> {
        match self {
            Handler::Echo => Ok(input),
            Handler::Generator(replies) => {
                let mut replies = replies.lock().unwrap();
                if replies.is_empty() {
                    Err("generator offline".to_string())
                } else {
                    Ok(replies.remove(0))
                }
            }
            Handler::Bus => Ok(Value::Null),
        }
    }
}

fn meta(name: &str, schema: Option<Value>) -> CapabilityMeta {
    CapabilityMeta {
        id: CapabilityId(1),
        name: name.to_string(),
        namespace: String::new(),
        contract_name: name.to_string(),
        plugin: PluginId { name: "test".to_string(), version: "0.1.0".to_string() },
        in_type: "json".to_string(),
        out_type: "json".to_string(),
        kind: CapKind::Sync,
        timeout_ms: 5000,
        quota: QuotaSpec::unlimited(),
        tool_schema: schema,
    }
}

fn install(space: &mut CapabilitySpace<Handler>, name: &str, schema: Option<Value>, handler: Handler) -> SlotId {
    let budget = space.new_budget(5000, QuotaSpec::unlimited());
    let slot = space.allocate();
    space.install(slot, Capability::new(meta(name, schema), handler, budget, CapKind::Sync));
    slot
}

/// A space with `echo` (with a tool schema), `generator` answering the
/// given replies in turn, and a session event bus.
fn setup(replies: Vec<Value>) -> (CapabilitySpace<Handler>, AgentRuntime, SlotId) {
    let mut space = CapabilitySpace::new();
    install(
        &mut space,
        "echo",
        Some(j(r#"{"description":"Echoes its input.","input_schema":{"type":"object"}}"#)),
        Handler::Echo,
    );
    let generator = install(&mut space, "generator", None, Handler::Generator(Mutex::new(replies)));
    let bus = install(&mut space, "bus", None, Handler::Bus);
    let rt = AgentRuntime::new(generator, generator, j("0.7"), j("0.5"));
    (space, rt, bus)
}

fn session(goal: &str, history: Vec<Step>) -> Session {
    Session {
        id: SessionId("sess_1".to_string()),
        goal: goal.to_string(),
        context: j(r#"{"user":"ada"}"#),
        allowed_tools: vec![],
        history: History { steps: history },
        status: SessionStatus::Running,
        limits: SessionLimits::default(),
        created_at_ms: 0,
        step_count: 0,
        last_advance_ms: 0,
        event_bus_slot_id: SlotId::new(3),
        events: vec![],
    }
}

#[test]
fn steps_and_events_render_as_json() {
    let call = Step::ToolCall(ToolInvocation { tool: "echo".to_string(), args: j(r#"{"x":1}"#) });
    assert_eq!(step_to_value(&call), j(r#"{"kind":"tool_call","tool":"echo","args":{"x":1}}"#));
    let failed = Step::ToolResult(ToolResult { tool: "echo".to_string(), outcome: Err("boom".to_string()) });
    assert_eq!(
        step_to_value(&failed),
        j(r#"{"kind":"tool_result","tool":"echo","outcome":{"ok":false,"error":"boom"}}"#)
    );
    let fin = Step::Final(FinalAnswer { value: j("42"), reason: FinalReason::MaxSteps });
    assert_eq!(step_to_value(&fin), j(r#"{"kind":"final","value":42,"reason":"MaxSteps"}"#));
    let text = Step::LlmReply(LlmReply::Text("hi".to_string()));
    assert_eq!(step_to_value(&text), j(r#"{"kind":"llm_text","text":"hi"}"#));
    let history = History { steps: vec![text, fin] };
    assert_eq!(
        history.to_value(),
        j(r#"[{"kind":"llm_text","text":"hi"},{"kind":"final","value":42,"reason":"MaxSteps"}]"#)
    );
    assert_eq!(AgentEvent::Error("bad".to_string()).to_value(), j(r#"{"kind":"error","message":"bad"}"#));
    assert_eq!(AgentEvent::LlmDelta("to".to_string()).to_value(), j(r#"{"kind":"llm_delta","text":"to"}"#));
    let ok = AgentEvent::ToolResult(ToolResult { tool: "echo".to_string(), outcome: Ok(j("1")) });
    assert_eq!(ok.to_value(), j(r#"{"kind":"tool_result","tool":"echo","outcome":{"ok":true,"value":1}}"#));
}

#[test]
fn prompt_lists_tool_steps_and_the_observation() {
    let s = session(
        "greet",
        vec![
            Step::LlmReply(LlmReply::Text("thinking".to_string())),
            Step::ToolCall(ToolInvocation { tool: "echo".to_string(), args: j(r#"{"x":1}"#) }),
            Step::ToolResult(ToolResult { tool: "echo".to_string(), outcome: Ok(j(r#"{"x":1}"#)) }),
            Step::ToolResult(ToolResult { tool: "echo".to_string(), outcome: Err("nope".to_string()) }),
        ],
    );
    let obs = Observation::ToolResult { tool: "echo".to_string(), value: j("7"), error: None };
    assert_eq!(
        odyssey::builtins::runtime::build_prompt(&s, &obs),
        "Goal: greet\n\nContext: {\"user\":\"ada\"}\n\nHistory (most recent last):\n  - tool_call echo {\"x\":1}\n  - tool_result echo ok {\"x\":1}\n  - tool_result echo err nope\n\nObservation: tool `echo` returned ok = 7\n"
    );
    let tick = odyssey::builtins::runtime::build_prompt(&session("g", vec![]), &Observation::Tick);
    assert!(tick.ends_with("\nObservation: (first turn \u{2014} call a tool)\n"));
    let reply = odyssey::builtins::runtime::build_prompt(&session("g", vec![]), &Observation::UserReply("yes".to_string()));
    assert!(reply.ends_with("\nObservation: user reply: yes\n"));
}

#[test]
fn tool_schemas_skip_tools_without_one() {
    let (space, _, _) = setup(vec![]);
    let expected = j(r#"[{"name":"echo","description":"Echoes its input.","parameters":{"type":"object"}}]"#);
    assert_eq!(collect_tool_schemas(&space, &[]), expected);
    assert_eq!(collect_tool_schemas(&space, &["echo".to_string(), "generator".to_string(), "gone".to_string()]), expected);
}

#[test]
fn start_refuses_unknown_tools_and_lookup_finds_sessions() {
    let (space, mut rt, bus) = setup(vec![]);
    let err = rt
        .start(&space, "g".to_string(), Value::Null, vec!["echo".to_string(), "nope".to_string()], SessionLimits::default(), bus)
        .unwrap_err();
    assert_eq!(err, AgentError::ToolUnknown("nope".to_string()));
    let id = rt.start(&space, "g".to_string(), Value::Null, vec!["echo".to_string()], SessionLimits::default(), bus).unwrap();
    assert!(id.as_str().starts_with("sess_"));
    assert_eq!(rt.lookup(id.as_str()), Ok(id.clone()));
    assert_eq!(rt.session_event_bus_slot_id(id.as_str()), Some(bus));
    assert_eq!(rt.lookup("sess_0"), Err(AgentError::UnknownSession("sess_0".to_string())));
    assert_eq!(rt.session_event_bus_slot_id("sess_0"), None);
}

#[test]
fn advance_calls_a_native_tool_then_answers() {
    let (mut space, mut rt, bus) = setup(vec![
        j(r#"{"text":"calling echo","tool_calls":[{"name":"echo","arguments":{"x":1}}]}"#),
        j(r#"{"text":"{\"final\": \"done\"}"}"#),
    ]);
    let id = rt.start(&space, "g".to_string(), Value::Null, vec![], SessionLimits::default(), bus).unwrap();
    let (step, history, status) = rt.advance(&mut space, id.as_str(), Observation::Tick).unwrap();
    assert_eq!(status, SessionStatus::AwaitingObservation);
    match step {
        Step::ToolResult(tr) => {
            assert_eq!(tr.tool, "echo");
            assert_eq!(tr.outcome, Ok(j(r#"{"x":1}"#)));
        }
        other => panic!("expected a tool result, got {other:?}"),
    }
    assert_eq!(
        history,
        j(r#"[{"kind":"llm_text","text":"calling echo"},{"kind":"tool_call","tool":"echo","args":{"x":1}},{"kind":"tool_result","tool":"echo","outcome":{"ok":true,"value":{"x":1}}}]"#)
    );
    let s = &rt.sessions[0];
    assert_eq!(s.step_count, 1);
    assert_eq!(s.events.len(), 3);
    assert!(matches!(&s.events[0], AgentEvent::LlmReplyText(t) if t == "calling echo"));
    assert!(matches!(&s.events[1], AgentEvent::ToolCall(inv) if inv.tool == "echo"));
    let obs = Observation::ToolResult { tool: "echo".to_string(), value: j("1"), error: None };
    let (step, _, status) = rt.advance(&mut space, id.as_str(), obs).unwrap();
    assert_eq!(status, SessionStatus::Done);
    assert!(matches!(step, Step::Final(f) if f.value == j(r#""done""#) && f.reason == FinalReason::Goal));
    assert_eq!(
        rt.lookup(id.as_str()),
        Err(AgentError::SessionTerminal { id: id.0.clone(), status: "Done".to_string() })
    );
    // The generator has no more replies.
    let err = rt.advance(&mut space, id.as_str(), Observation::Tick).unwrap_err();
    assert_eq!(err, AgentError::LlmFailed("generator offline".to_string()));
}

#[test]
fn advance_refuses_denied_tools_and_spent_sessions() {
    let (mut space, mut rt, bus) = setup(vec![j(r#"{"tool_calls":[{"name":"generator","arguments":null}]}"#)]);
    let id = rt.start(&space, "g".to_string(), Value::Null, vec!["echo".to_string()], SessionLimits::default(), bus).unwrap();
    let err = rt.advance(&mut space, id.as_str(), Observation::Tick).unwrap_err();
    assert_eq!(err, AgentError::ToolDenied { tool: "generator".to_string(), reason: "not in allowed_tools" });
    let limits = SessionLimits { max_steps: 0, max_idle_ms: 1000, max_session_ms: 1000 };
    let spent = rt.start(&space, "g".to_string(), Value::Null, vec![], limits, bus).unwrap();
    let err = rt.advance(&mut space, spent.as_str(), Observation::Tick).unwrap_err();
    assert_eq!(
        err.message(),
        format!("agent: session `{}` exceeded max_steps (observed: 0)", spent.as_str())
    );
    assert_eq!(
        rt.advance(&mut space, "nope", Observation::Tick).unwrap_err(),
        AgentError::UnknownSession("nope".to_string())
    );
}

#[test]
fn apply_reply_reads_the_text_protocol() {
    let (mut space, _, _) = setup(vec![]);
    let mut s = session("g", vec![]);
    let r = apply_reply(&mut s, &mut space, j(r#"{"text":"{\"tool_call\":{\"tool\":\"echo\",\"args\":[1]}}"}"#)).unwrap();
    assert_eq!(r.2, SessionStatus::AwaitingObservation);
    assert_eq!(s.history.steps.len(), 2);
    assert_eq!(s.events.len(), 2);
    assert!(matches!(&s.events[0], AgentEvent::LlmReplyText(_)));
    assert!(matches!(&s.events[1], AgentEvent::ToolResult(tr) if tr.outcome == Ok(j("[1]"))));
    let r = apply_reply(&mut s, &mut space, j(r#"{"text":"plain words"}"#)).unwrap();
    assert!(matches!(r.0, Step::Final(f) if f.value == j(r#""plain words""#)));
    assert_eq!(s.status, SessionStatus::Done);
    let before = s.history.steps.len();
    assert_eq!(
        apply_reply(&mut s, &mut space, j(r#"{"answer":1}"#)).unwrap_err(),
        AgentError::LlmFailed("missing `text`".to_string())
    );
    assert_eq!(s.history.steps.len(), before);
}

#[test]
fn plan_asks_the_generator() {
    let (mut space, rt, _) = setup(vec![j(r#"{"text":"1. look"}"#), j(r#"{"other":true}"#)]);
    assert_eq!(
        plan_request("g", &["echo".to_string()], &j("0.5")),
        j(r#"{"prompt":"g","system":"You are a planner inside the odyssey kernel. Tools: echo. Produce a numbered plan (1., 2., 3., ...). Plain text only; do not call any tools.","temperature":0.5}"#)
    );
    assert_eq!(rt.plan(&mut space, "g", &[]), Ok(j(r#"{"steps":[{"kind":"llm_text","text":"1. look"}]}"#)));
    assert_eq!(rt.plan(&mut space, "g", &[]), Err(AgentError::LlmFailed("missing `text`".to_string())));
    assert_eq!(rt.plan(&mut space, "g", &[]), Err(AgentError::LlmFailed("generator offline".to_string())));
    assert_eq!(plan_answer(&j(r#"{"text":"x"}"#)), Ok(j(r#"{"steps":[{"kind":"llm_text","text":"x"}]}"#)));
}

#[test]
fn cancel_saves_and_restore_refuses_clobbering() {
    let (mut space, mut rt, bus) = setup(vec![]);
    let id = rt.start(&space, "g".to_string(), j("1"), vec![], SessionLimits::default(), bus).unwrap();
    let (history, checkpoint) = rt.cancel(&mut space, id.as_str()).unwrap();
    assert_eq!(history, j("[]"));
    assert_eq!(checkpoint.status, SessionStatus::Cancelled);
    assert_eq!(checkpoint.id, id);
    assert!(rt.sessions.is_empty());
    assert!(space.lookup(bus).is_none());
    assert_eq!(rt.cancel(&mut space, id.as_str()).unwrap_err(), AgentError::UnknownSession(id.0.clone()));
    let again = SessionCheckpoint::from_session(&session("g", vec![]), &id);
    assert_eq!(rt.restore(checkpoint, SlotId::new(9)), Ok(id.0.clone()));
    assert_eq!(rt.sessions.len(), 1);
    assert_eq!(rt.sessions[0].status, SessionStatus::Cancelled);
    assert_eq!(rt.sessions[0].goal, "g");
    assert_eq!(rt.sessions[0].context, j("1"));
    assert_eq!(rt.sessions[0].step_count, 0);
    assert_eq!(rt.sessions[0].event_bus_slot_id, SlotId::new(9));
    assert!(rt.sessions[0].last_advance_ms >= rt.sessions[0].created_at_ms);
    assert_eq!(
        rt.restore(again, SlotId::new(10)),
        Err(AgentError::Serialization(format!(
            "session `{}` already exists; load rejected to avoid clobbering",
            id.as_str()
        )))
    );
}

#[test]
fn observations_and_limits_parse() {
    assert!(matches!(parse_observation(Some(&j(r#"{"kind":"Tick"}"#))), Ok(Observation::Tick)));
    assert!(matches!(
        parse_observation(Some(&j(r#"{"kind":"UserReply","text":"ok"}"#))),
        Ok(Observation::UserReply(t)) if t == "ok"
    ));
    assert!(matches!(
        parse_observation(Some(&j(r#"{"kind":"ToolResult","tool":"echo","error":"bad"}"#))),
        Ok(Observation::ToolResult { tool, value, error }) if tool == "echo" && value == Value::Null && error == Some("bad".to_string())
    ));
    assert_eq!(parse_observation(None).unwrap_err(), "agent_resume: expected `observation`");
    assert_eq!(parse_observation(Some(&j("{}"))).unwrap_err(), "agent_resume: observation.kind required");
    assert_eq!(parse_observation(Some(&j(r#"{"kind":"UserReply"}"#))).unwrap_err(), "UserReply.text required");
    assert_eq!(parse_observation(Some(&j(r#"{"kind":"ToolResult"}"#))).unwrap_err(), "ToolResult.tool required");
    assert_eq!(
        parse_observation(Some(&j(r#"{"kind":"Nap"}"#))).unwrap_err(),
        "agent_resume: unknown observation.kind `Nap`"
    );
    assert_eq!(parse_limits(None), SessionLimits::default());
    let l = parse_limits(Some(&j(r#"{"max_steps":5,"max_session_ms":4294967297}"#)));
    assert_eq!(l, SessionLimits { max_steps: 5, max_idle_ms: 300_000, max_session_ms: 1 });
}

#[test]
fn json_entry_points_shape_answers() {
    let (mut space, mut rt, bus) = setup(vec![j(r#"{"text":"{\"final\":1}"}"#), j(r#"{"text":"plan"}"#)]);
    assert_eq!(rt.invoke_start(&space, &j("{}"), bus).unwrap_err(), "agent_start: expected `goal` string");
    assert_eq!(
        rt.invoke_start(&space, &j(r#"{"goal":"g","allowed_tools":["nope"]}"#), bus).unwrap_err(),
        "agent: tool `nope` not found in cspace"
    );
    let started = rt.invoke_start(&space, &j(r#"{"goal":"g","limits":{"max_steps":3}}"#), bus).unwrap();
    let id = started["session_id"].as_str().unwrap().to_string();
    assert_eq!(started["profile"]["session_id"], Value::String(id.clone()));
    assert_eq!(rt.sessions[0].limits.max_steps, 3);
    let input = serde_json::from_str::<Value>(&format!(r#"{{"session_id":"{id}","observation":{{"kind":"Tick"}}}}"#)).unwrap();
    let resumed = rt.invoke_resume(&mut space, &input).unwrap();
    assert_eq!(resumed["status"], j(r#""Done""#));
    assert_eq!(resumed["step"], j(r#"{"kind":"final","value":1,"reason":"Goal"}"#));
    assert_eq!(rt.invoke_resume(&mut space, &j("{}")).unwrap_err(), "agent_resume: expected `session_id` string");
    assert_eq!(rt.invoke_plan(&mut space, &j(r#"{"goal":"g"}"#)).unwrap(), j(r#"{"steps":[{"kind":"llm_text","text":"plan"}]}"#));
    assert_eq!(rt.invoke_plan(&mut space, &j("{}")).unwrap_err(), "agent_plan: expected `goal` string");
    let input = serde_json::from_str::<Value>(&format!(r#"{{"session_id":"{id}","path":"/tmp/s.json"}}"#)).unwrap();
    let (answer, checkpoint, path) = rt.invoke_cancel(&mut space, &input).unwrap();
    assert_eq!(answer["status"], j(r#""Cancelled""#));
    assert_eq!(answer["checkpoint_path"], j(r#""/tmp/s.json""#));
    assert_eq!(path, Some("/tmp/s.json".to_string()));
    assert_eq!(checkpoint.step_count, 1);
    assert_eq!(rt.invoke_cancel(&mut space, &input).unwrap_err(), format!("agent: unknown session `{id}`"));
}

#[test]
fn bus_events_parse_by_kind() {
    assert!(matches!(parse_bus_event(&j(r#"{"kind":"llm_delta","text":"to"}"#)), Ok(AgentEvent::LlmDelta(t)) if t == "to"));
    assert!(matches!(
        parse_bus_event(&j(r#"{"kind":"llm_reply_text","text":"hi"}"#)),
        Ok(AgentEvent::LlmReplyText(t)) if t == "hi"
    ));
    assert!(matches!(parse_bus_event(&j(r#"{"kind":"error","message":"x"}"#)), Ok(AgentEvent::Error(t)) if t == "x"));
    assert_eq!(parse_bus_event(&j("{}")).unwrap_err(), "session_event_bus: missing `kind`");
    assert_eq!(
        parse_bus_event(&j(r#"{"kind":"llm_delta"}"#)).unwrap_err(),
        "session_event_bus(llm_delta): missing `text`"
    );
    assert_eq!(
        parse_bus_event(&j(r#"{"kind":"error"}"#)).unwrap_err(),
        "session_event_bus(error): missing `message`"
    );
    assert_eq!(
        parse_bus_event(&j(r#"{"kind":"tool_call"}"#)).unwrap_err(),
        "session_event_bus: unhandled kind `tool_call` (LLM should only emit llm_delta / llm_reply_text / error)"
    );
}

#[test]
fn session_event_bus_is_minted_into_a_fresh_slot() {
    let (mut space, _, bus) = setup(vec![]);
    let slot = mint_session_event_bus(&mut space, Handler::Bus, CapabilityId(77));
    assert_eq!(slot.raw(), bus.raw() + 1);
    let cap = space.lookup(slot).unwrap();
    assert_eq!(cap.name(), format!("__session_event_bus_{}", slot.raw()));
    assert_eq!(cap.id(), CapabilityId(77));
    assert_eq!(cap.meta().namespace, "agent_runtime");
    assert_eq!(cap.meta().contract_name, "session_event_bus");
    assert_eq!(cap.operations().bits(), 4);
    assert_eq!(space.invoke(slot, j(r#"{"kind":"error","message":"x"}"#)), Ok(Value::Null));
}

#[test]
fn completion_request_carries_prompt_tools_and_bus() {
    let s = session("greet", vec![]);
    let req = llm_request(&s, &Observation::Tick, &j("0.7"), j("[]"));
    assert_eq!(req["event_bus_slot_id"], j("3"));
    assert_eq!(req["temperature"], j("0.7"));
    assert_eq!(req["tools"], j("[]"));
    let prompt = req["prompt"].as_str().unwrap();
    assert!(prompt.starts_with("Goal: greet\n\nContext: {\"user\":\"ada\"}"));
    let system = req["system"].as_str().unwrap();
    assert!(system.contains("Available tools: (no tools available). __AGENT_FIRST_ACTION__"));
    let later = llm_request(&s, &Observation::UserReply("ok".to_string()), &j("0.7"), j("[]"));
    assert!(later["system"].as_str().unwrap().contains("__AGENT_FINAL_AFTER_TOOL__"));
}

#[test]
fn agent_op_names_the_runtime_operations() {
    assert_eq!(agent_op("agent_start"), Some(AgentOp::Start));
    assert_eq!(agent_op("agent_memory_recall"), Some(AgentOp::MemoryRecall));
    assert_eq!(agent_op("agent_load"), Some(AgentOp::Load));
    assert_eq!(agent_op("agent_unknown"), None);
    assert!(AgentOp::Start.uses_bus());
    assert!(!AgentOp::Load.uses_bus());
}

#[test]
fn dispatch_turns_operations_into_actions() {
    let (mut space, mut rt, bus) = setup(vec![]);
    match rt.dispatch(&mut space, AgentOp::Start, &j(r#"{"goal":"say hi"}"#), Some(bus)) {
        Ok(AgentAction::Started { session, .. }) => {
            let id = session.expect("the answer names the session");
            assert!(rt.lookup(&id).is_ok());
        }
        _ => panic!("expected a started session"),
    }
    // A start that fails gives its bus back.
    let bad = rt.dispatch(&mut space, AgentOp::Start, &j(r#"{"context":1}"#), Some(bus));
    assert_eq!(bad.unwrap_err(), "agent_start: expected `goal` string");
    assert!(space.lookup(bus).is_none());
    let load = rt.dispatch(&mut space, AgentOp::Load, &j("{}"), None);
    assert_eq!(load.unwrap_err(), "agent_load: expected `path` string");
    match rt.dispatch(&mut space, AgentOp::Load, &j(r#"{"path":"/tmp/s.json"}"#), None) {
        Ok(AgentAction::Load { path }) => assert_eq!(path, "/tmp/s.json"),
        _ => panic!("expected a load"),
    }
    match rt.dispatch(&mut space, AgentOp::Stream, &j(r#"{"session_id":"s1"}"#), None) {
        Ok(AgentAction::Subscribe { session }) => assert_eq!(session, "s1"),
        _ => panic!("expected a subscription"),
    }
    match rt.dispatch(&mut space, AgentOp::MemoryRecall, &j(r#"{"query":"q","filter":{"tags":["a",1]}}"#), None) {
        Ok(AgentAction::Recall(rq)) => {
            assert_eq!(rq.query, "q");
            assert_eq!(rq.top_k, 5);
            assert_eq!(rq.filter_tags, vec!["a".to_string()]);
        }
        _ => panic!("expected a recall"),
    }
    let bad = rt.dispatch(&mut space, AgentOp::MemoryRecall, &j(r#"{"top_k":3}"#), None);
    assert_eq!(bad.unwrap_err(), "agent_memory_recall: expected `query` string");
    match rt.dispatch(&mut space, AgentOp::MemoryRecord, &j(r#"{"content":{"x":1},"tags":["t"]}"#), None) {
        Ok(AgentAction::Record(rq)) => {
            assert_eq!(rq.content, j(r#"{"x":1}"#));
            assert_eq!(rq.tags, vec!["t".to_string()]);
        }
        _ => panic!("expected a record"),
    }
    let bad = rt.dispatch(&mut space, AgentOp::MemoryRecord, &j("{}"), None);
    assert_eq!(bad.unwrap_err(), "agent_memory_record: expected `content`");
}
