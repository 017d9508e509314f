//! The agent runtime: sessions that alternate model completions and
//! tool calls through the capability space. A turn checks the session's
//! limits, asks the generator capability for a completion over a prompt
//! built from the goal, the context and the history, and acts on the
//! reply: it calls the tool the model named (when the session allows
//! it) or records the model's final answer. Every turn appends to the
//! session's history and publishes events to its subscribers.

use vstd::prelude::*;
use serde_json::Value;
use crate::builtins::reply::{
    allowed, first_native_tool_call, parse_llm_reply, reply_shape, tool_allowed, tool_failure_text, tool_outcome, FinalAnswer,
    History, LlmReply, ReplyShape, Step, ToolInvocation, ToolResult,
};
use crate::kernel::resource::{empty_slot_message, Resource};
use crate::builtins::prompt::{build_plan_prompt, build_system_prompt, plan_prompt, string_views, system_prompt};
use crate::builtins::session::{
    check_limits, limit_hit, limit_text, now_ms, runtime_error_message, status_text, verdict_at, AgentError, FinalReason, SessionId,
    SessionLimits, SessionStatus,
};
use crate::text::{decimal, lemma_decimal_injective, push_decimal, str_eq};
use vstd::relations::injective_on;
use vstd::set_lib::{lemma_int_range, lemma_len_subset, lemma_map_size, set_int_range};
use crate::kernel::cspace::{lists_all, metas_of, named, sorted_by_key, Capability, CapabilitySpace, Entry};
use crate::types::ids::{CapKind, CapabilityId, PluginId, SlotId};
use crate::types::quota::QuotaSpec;
use crate::types::rights::OperationRights;
use crate::types::json::{
    array_of, bool_value, field_of, field_or_null, first_item, json_array, json_field_or_null, json_str_items, json_u64_field,
    str_items, u64_field, json_bool, json_field, json_object, json_str_field,
    json_string, json_to_text, json_text, json_u64, member_views, object_of, str_field, string_value,
    u64_value,
};
use crate::types::meta::CapabilityMeta;

verus! {

/// What the caller observed since the previous turn.
#[derive(Debug)]
pub enum Observation {
    /// The first turn: nothing observed yet.
    Tick,
    ToolResult { tool: String, value: Value, error: Option<String> },
    UserReply(String),
}

/// What a session publishes to its subscribers.
#[derive(Debug)]
pub enum AgentEvent {
    /// The model's text reply.
    LlmReplyText(String),
    /// One streamed text fragment of a reply.
    LlmDelta(String),
    ToolCall(ToolInvocation),
    ToolResult(ToolResult),
    Final(FinalAnswer),
    Error(String),
}

/// A final reason as debug-printed: its variant name.
pub open spec fn reason_text(r: FinalReason) -> Seq<char> {
    match r {
        FinalReason::Goal => "Goal"@,
        FinalReason::MaxSteps => "MaxSteps"@,
        FinalReason::ToolFailure => "ToolFailure"@,
    }
}

fn reason_str(r: FinalReason) -> (s: &'static str)
    ensures
        s@ == reason_text(r),
{
    match r {
        FinalReason::Goal => "Goal",
        FinalReason::MaxSteps => "MaxSteps",
        FinalReason::ToolFailure => "ToolFailure",
    }
}

/// A `kind` member naming the shape of an object.
pub open spec fn kind_member(kind: Seq<char>) -> (Seq<char>, Value) {
    ("kind"@, string_value(kind))
}

/// A tool outcome as JSON: `{"ok": true, "value": v}` or
/// `{"ok": false, "error": e}`.
pub open spec fn outcome_value(o: Result<Value, String>) -> Value {
    match o {
        Ok(v) => object_of(seq![("ok"@, bool_value(true)), ("value"@, v)]),
        Err(e) => object_of(seq![("ok"@, bool_value(false)), ("error"@, string_value(e@))]),
    }
}

/// A history step as JSON.
pub open spec fn step_value(s: Step) -> Value {
    match s {
        Step::LlmReply(LlmReply::Text(t)) => object_of(seq![kind_member("llm_text"@), ("text"@, string_value(t@))]),
        Step::LlmReply(LlmReply::ToolCall(inv)) => object_of(
            seq![kind_member("llm_tool_call"@), ("tool"@, string_value(inv.tool@)), ("args"@, inv.args)],
        ),
        Step::LlmReply(LlmReply::Final(f)) => object_of(
            seq![kind_member("llm_final"@), ("value"@, f.value), ("reason"@, string_value(reason_text(f.reason)))],
        ),
        Step::ToolCall(inv) => object_of(
            seq![kind_member("tool_call"@), ("tool"@, string_value(inv.tool@)), ("args"@, inv.args)],
        ),
        Step::ToolResult(r) => object_of(
            seq![kind_member("tool_result"@), ("tool"@, string_value(r.tool@)), ("outcome"@, outcome_value(r.outcome))],
        ),
        Step::Final(f) => object_of(
            seq![kind_member("final"@), ("value"@, f.value), ("reason"@, string_value(reason_text(f.reason)))],
        ),
    }
}

/// A history as JSON: the array of its steps.
pub open spec fn history_value(steps: Seq<Step>) -> Value {
    array_of(steps.map_values(|s: Step| step_value(s)))
}

/// An event as JSON.
pub open spec fn event_value(e: AgentEvent) -> Value {
    match e {
        AgentEvent::LlmReplyText(t) => object_of(seq![kind_member("llm_reply_text"@), ("text"@, string_value(t@))]),
        AgentEvent::LlmDelta(t) => object_of(seq![kind_member("llm_delta"@), ("text"@, string_value(t@))]),
        AgentEvent::ToolCall(inv) => object_of(
            seq![kind_member("tool_call"@), ("tool"@, string_value(inv.tool@)), ("args"@, inv.args)],
        ),
        AgentEvent::ToolResult(r) => object_of(
            seq![kind_member("tool_result"@), ("tool"@, string_value(r.tool@)), ("outcome"@, outcome_value(r.outcome))],
        ),
        AgentEvent::Final(f) => object_of(
            seq![kind_member("final"@), ("value"@, f.value), ("reason"@, string_value(reason_text(f.reason)))],
        ),
        AgentEvent::Error(m) => object_of(seq![kind_member("error"@), ("message"@, string_value(m@))]),
    }
}

fn member(key: &str, value: Value) -> (r: (String, Value))
    ensures
        r.0@ == key@,
        r.1 == value,
{
    (String::from_str(key), value)
}

fn str_member(key: &str, text: String) -> (r: (String, Value))
    ensures
        r.0@ == key@,
        r.1 == string_value(text@),
{
    (String::from_str(key), json_string(text))
}

fn object2(a: (String, Value), b: (String, Value)) -> (r: Value)
    ensures
        r == object_of(seq![(a.0@, a.1), (b.0@, b.1)]),
{
    let ghost ms = seq![(a.0@, a.1), (b.0@, b.1)];
    let v = vec![a, b];
    proof {
        assert(member_views(v@) =~= ms);
    }
    json_object(v)
}

fn object3(a: (String, Value), b: (String, Value), c: (String, Value)) -> (r: Value)
    ensures
        r == object_of(seq![(a.0@, a.1), (b.0@, b.1), (c.0@, c.1)]),
{
    let ghost ms = seq![(a.0@, a.1), (b.0@, b.1), (c.0@, c.1)];
    let v = vec![a, b, c];
    proof {
        assert(member_views(v@) =~= ms);
    }
    json_object(v)
}

/// A tool outcome as JSON.
pub fn outcome_to_value(o: &Result<Value, String>) -> (r: Value)
    ensures
        r == outcome_value(*o),
{
    match o {
        Ok(v) => object2(member("ok", json_bool(true)), member("value", v.clone())),
        Err(e) => object2(member("ok", json_bool(false)), str_member("error", e.clone())),
    }
}

fn kind(k: &str) -> (r: (String, Value))
    ensures
        r.0@ == "kind"@,
        r.1 == string_value(k@),
{
    str_member("kind", String::from_str(k))
}

/// A history step as JSON: `kind` names the step, and the step's
/// fields follow.
pub fn step_to_value(s: &Step) -> (r: Value)
    ensures
        r == step_value(*s),
{
    match s {
        Step::LlmReply(LlmReply::Text(t)) => object2(kind("llm_text"), str_member("text", t.clone())),
        Step::LlmReply(LlmReply::ToolCall(inv)) => object3(
            kind("llm_tool_call"),
            str_member("tool", inv.tool.clone()),
            member("args", inv.args.clone()),
        ),
        Step::LlmReply(LlmReply::Final(f)) => object3(
            kind("llm_final"),
            member("value", f.value.clone()),
            str_member("reason", String::from_str(reason_str(f.reason))),
        ),
        Step::ToolCall(inv) => object3(
            kind("tool_call"),
            str_member("tool", inv.tool.clone()),
            member("args", inv.args.clone()),
        ),
        Step::ToolResult(r) => object3(
            kind("tool_result"),
            str_member("tool", r.tool.clone()),
            member("outcome", outcome_to_value(&r.outcome)),
        ),
        Step::Final(f) => object3(
            kind("final"),
            member("value", f.value.clone()),
            str_member("reason", String::from_str(reason_str(f.reason))),
        ),
    }
}

impl History {
    /// The history as a JSON array of its steps, oldest first.
    pub fn to_value(&self) -> (r: Value)
        ensures
            r == history_value(self.steps@),
    {
        let mut items: Vec<Value> = Vec::new();
        let mut i: usize = 0;
        while i < self.steps.len()
            invariant
                i <= self.steps@.len(),
                items@ == self.steps@.take(i as int).map_values(|s: Step| step_value(s)),
            decreases self.steps@.len() - i,
        {
            items.push(step_to_value(&self.steps[i]));
            proof {
                assert(self.steps@.take(i + 1).map_values(|s: Step| step_value(s)) =~= self.steps@.take(
                    i as int,
                ).map_values(|s: Step| step_value(s)).push(step_value(self.steps@[i as int])));
            }
            i = i + 1;
        }
        proof {
            assert(self.steps@.take(self.steps@.len() as int) =~= self.steps@);
        }
        json_array(items)
    }
}

impl AgentEvent {
    /// The event as JSON: `kind` names the event, and its fields follow.
    pub fn to_value(&self) -> (r: Value)
        ensures
            r == event_value(*self),
    {
        match self {
            AgentEvent::LlmReplyText(t) => object2(kind("llm_reply_text"), str_member("text", t.clone())),
            AgentEvent::LlmDelta(t) => object2(kind("llm_delta"), str_member("text", t.clone())),
            AgentEvent::ToolCall(inv) => object3(
                kind("tool_call"),
                str_member("tool", inv.tool.clone()),
                member("args", inv.args.clone()),
            ),
            AgentEvent::ToolResult(r) => object3(
                kind("tool_result"),
                str_member("tool", r.tool.clone()),
                member("outcome", outcome_to_value(&r.outcome)),
            ),
            AgentEvent::Final(f) => object3(
                kind("final"),
                member("value", f.value.clone()),
                str_member("reason", String::from_str(reason_str(f.reason))),
            ),
            AgentEvent::Error(m) => object2(kind("error"), str_member("message", m.clone())),
        }
    }
}

/// The prompt line of a history step: tool calls and tool results are
/// listed, other steps are not.
pub open spec fn step_line(s: Step) -> Seq<char> {
    match s {
        Step::ToolCall(inv) => "  - tool_call "@ + inv.tool@ + " "@ + json_text(inv.args) + "\n"@,
        Step::ToolResult(r) => "  - tool_result "@ + r.tool@ + " "@ + match r.outcome {
            Ok(v) => "ok "@ + json_text(v),
            Err(e) => "err "@ + e@,
        } + "\n"@,
        _ => Seq::empty(),
    }
}

/// The prompt lines of a history, oldest first.
pub open spec fn history_lines(steps: Seq<Step>) -> Seq<char>
    decreases steps.len(),
{
    if steps.len() == 0 {
        Seq::empty()
    } else {
        history_lines(steps.drop_last()) + step_line(steps.last())
    }
}

/// The prompt's closing observation paragraph.
pub open spec fn observation_line(o: Observation) -> Seq<char> {
    match o {
        Observation::Tick => "\nObservation: (first turn \u{2014} call a tool)\n"@,
        Observation::ToolResult { tool, value, error } => "\nObservation: tool `"@ + tool@ + "` returned "@
            + match error {
            Some(e) => e@,
            None => "ok"@,
        } + " = "@ + json_text(value) + "\n"@,
        Observation::UserReply(t) => "\nObservation: user reply: "@ + t@ + "\n"@,
    }
}

/// The prompt of a turn: the goal, the context, the tool calls and
/// results so far, and what was observed.
pub open spec fn prompt_text(goal: Seq<char>, context: Value, steps: Seq<Step>, o: Observation) -> Seq<char> {
    "Goal: "@ + goal + "\n\nContext: "@ + json_text(context) + "\n\nHistory (most recent last):\n"@
        + history_lines(steps) + observation_line(o)
}

fn push_step_line(s: &mut String, step: &Step)
    ensures
        final(s)@ == old(s)@ + step_line(*step),
{
    match step {
        Step::ToolCall(inv) => {
            s.append("  - tool_call ");
            s.append(inv.tool.as_str());
            s.append(" ");
            let a = json_to_text(&inv.args);
            s.append(a.as_str());
            s.append("\n");
        },
        Step::ToolResult(r) => {
            s.append("  - tool_result ");
            s.append(r.tool.as_str());
            s.append(" ");
            match &r.outcome {
                Ok(v) => {
                    s.append("ok ");
                    let t = json_to_text(v);
                    s.append(t.as_str());
                },
                Err(e) => {
                    s.append("err ");
                    s.append(e.as_str());
                },
            }
            s.append("\n");
        },
        _ => {
            proof {
                assert(old(s)@ + step_line(*step) =~= old(s)@);
            }
        },
    }
}

/// The prompt of a session's turn: its goal, context and history,
/// closing with what was observed.
pub fn build_prompt(session: &Session, observation: &Observation) -> (r: String)
    ensures
        r@ == prompt_text(session.goal@, session.context, session.history.steps@, *observation),
{
    let goal = session.goal.as_str();
    let context = &session.context;
    let steps = &session.history.steps;
    let mut s = String::from_str("Goal: ");
    s.append(goal);
    s.append("\n\nContext: ");
    let c = json_to_text(context);
    s.append(c.as_str());
    s.append("\n\nHistory (most recent last):\n");
    let ghost head = s@;
    let mut i: usize = 0;
    while i < steps.len()
        invariant
            i <= steps@.len(),
            s@ == head + history_lines(steps@.take(i as int)),
        decreases steps@.len() - i,
    {
        push_step_line(&mut s, &steps[i]);
        proof {
            assert(steps@.take(i + 1).drop_last() =~= steps@.take(i as int));
        }
        i = i + 1;
    }
    proof {
        assert(steps@.take(steps@.len() as int) =~= steps@);
    }
    match observation {
        Observation::Tick => {
            s.append("\nObservation: (first turn \u{2014} call a tool)\n");
        },
        Observation::ToolResult { tool, value, error } => {
            s.append("\nObservation: tool `");
            s.append(tool.as_str());
            s.append("` returned ");
            match error {
                Some(e) => {
                    s.append(e.as_str());
                },
                None => {
                    s.append("ok");
                },
            }
            s.append(" = ");
            let t = json_to_text(value);
            s.append(t.as_str());
            s.append("\n");
        },
        Observation::UserReply(t) => {
            s.append("\nObservation: user reply: ");
            s.append(t.as_str());
            s.append("\n");
        },
    }
    proof {
        assert(s@ =~= prompt_text(goal@, *context, steps@, *observation));
    }
    s
}


/// One agent session.
#[derive(Debug)]
pub struct Session {
    pub id: SessionId,
    pub goal: String,
    pub context: Value,
    /// The tools the session may call; empty allows every tool.
    pub allowed_tools: Vec<String>,
    pub history: History,
    pub status: SessionStatus,
    pub limits: SessionLimits,
    /// Creation time, milliseconds since the Unix epoch.
    pub created_at_ms: u64,
    pub step_count: u32,
    /// Time of the last turn, milliseconds since the Unix epoch.
    pub last_advance_ms: u64,
    /// The slot of the session's event-bus capability.
    pub event_bus_slot_id: SlotId,
    /// The events the session published, oldest first; the program
    /// serving sessions hands them to the session's subscribers.
    pub events: Vec<AgentEvent>,
}

/// The capability registered under `n` in `m`, if any.
pub open spec fn registered<H>(m: Map<u64, Entry<H>>, n: Seq<char>) -> Option<Capability<H>> {
    if exists|k: u64| m.contains_key(k) && named(#[trigger] m[k], n) {
        let k = choose|k: u64| m.contains_key(k) && named(#[trigger] m[k], n);
        Some(m[k].cap)
    } else {
        None
    }
}

/// The native tool description of the tool `n` with schema `schema`:
/// its name, the schema's description (or `""`) and its input schema
/// (or `{"type": "object"}`) as the parameters.
pub open spec fn schema_entry(n: Seq<char>, schema: Value) -> Value {
    let description = match str_field(schema, "description"@) {
        Some(d) => d,
        None => Seq::<char>::empty(),
    };
    let parameters = match field_of(schema, "input_schema"@) {
        Some(p) => p,
        None => object_of(seq![("type"@, string_value("object"@))]),
    };
    object_of(
        seq![("name"@, string_value(n)), ("description"@, string_value(description)), ("parameters"@, parameters)],
    )
}

/// The tool descriptions of `names`, in order: a name is skipped when
/// nothing is registered under it or its capability publishes no tool
/// schema.
pub open spec fn tool_entries<H>(m: Map<u64, Entry<H>>, names: Seq<Seq<char>>) -> Seq<Value>
    decreases names.len(),
{
    if names.len() == 0 {
        Seq::empty()
    } else {
        let rest = tool_entries(m, names.drop_last());
        match registered(m, names.last()) {
            Some(c) => match c.meta.tool_schema {
                Some(s) => rest.push(schema_entry(names.last(), s)),
                None => rest,
            },
            None => rest,
        }
    }
}

/// The names of `metas`, in order.
pub open spec fn meta_names(metas: Seq<CapabilityMeta>) -> Seq<Seq<char>> {
    metas.map_values(|m: CapabilityMeta| m.name@)
}

fn schema_of(schema: &Value, name: &str) -> (r: Value)
    ensures
        r == schema_entry(name@, *schema),
{
    let description = match json_str_field(schema, "description") {
        Some(d) => d,
        None => String::new(),
    };
    let parameters = match json_field(schema, "input_schema") {
        Some(p) => p,
        None => {
            let ty = str_member("type", String::from_str("object"));
            let v = vec![ty];
            proof {
                reveal_strlit("type");
                reveal_strlit("object");
                assert(member_views(v@) =~= seq![("type"@, string_value("object"@))]);
            }
            json_object(v)
        },
    };
    let ghost d = match str_field(*schema, "description"@) {
        Some(d) => d,
        None => Seq::<char>::empty(),
    };
    assert(description@ == d);
    let ghost p = match field_of(*schema, "input_schema"@) {
        Some(p) => p,
        None => object_of(seq![("type"@, string_value("object"@))]),
    };
    assert(parameters == p);
    object3(
        str_member("name", String::from_str(name)),
        str_member("description", description),
        member("parameters", parameters),
    )
}

fn tool_entries_of<H>(space: &CapabilitySpace<H>, names: &Vec<String>) -> (r: Vec<Value>)
    requires
        space.wf(),
    ensures
        r@ == tool_entries(space.slots(), string_views(names@)),
{
    let mut out: Vec<Value> = Vec::new();
    let mut i: usize = 0;
    while i < names.len()
        invariant
            space.wf(),
            i <= names@.len(),
            out@ == tool_entries(space.slots(), string_views(names@).take(i as int)),
        decreases names@.len() - i,
    {
        let name = names[i].as_str();
        proof {
            let t = string_views(names@).take(i + 1);
            assert(t.drop_last() =~= string_views(names@).take(i as int));
            assert(t.last() == name@);
        }
        match space.lookup_by_name(name) {
            None => {
                proof {
                    assert(registered(space.slots(), name@) is None);
                }
            },
            Some(c) => {
                proof {
                    let k = choose|k: u64|
                        space.slots().contains_key(k) && named(#[trigger] space.slots()[k], name@);
                    let j = choose|j: u64|
                        space.slots().contains_key(j) && named(#[trigger] space.slots()[j], name@)
                            && *c == space.slots()[j].cap;
                    assert(k == j);
                    assert(registered(space.slots(), name@) == Some(*c));
                }
                match &c.meta().tool_schema {
                    None => {},
                    Some(schema) => {
                        out.push(schema_of(schema, name));
                    },
                }
            },
        }
        i = i + 1;
    }
    proof {
        assert(string_views(names@).take(names@.len() as int) =~= string_views(names@));
    }
    out
}

/// The `tools` array of a completion request: the description of each
/// tool the session may call (of every capability, by name, when it may
/// call all), skipping tools without a tool schema.
pub fn collect_tool_schemas<H>(space: &CapabilitySpace<H>, allowed_tools: &[String]) -> (r: Value)
    requires
        space.wf(),
    ensures
        allowed_tools@.len() > 0 ==> r == array_of(tool_entries(space.slots(), string_views(allowed_tools@))),
        allowed_tools@.len() == 0 ==> exists|order: Seq<u64>, metas: Seq<CapabilityMeta>|
            {
                &&& lists_all(space.slots(), order)
                &&& #[trigger] metas_of(space.slots(), order, metas)
                &&& sorted_by_key(metas, false)
                &&& r == array_of(tool_entries(space.slots(), meta_names(metas)))
            },
{
    let mut names: Vec<String> = Vec::new();
    if allowed_tools.len() == 0 {
        let metas = space.enumerate();
        let mut i: usize = 0;
        while i < metas.len()
            invariant
                i <= metas@.len(),
                string_views(names@) == meta_names(metas@).take(i as int),
            decreases metas@.len() - i,
        {
            let ghost before = names@;
            let n = metas[i].name.clone();
            names.push(n);
            proof {
                assert(names@ == before.push(n));
                assert(string_views(names@) =~= string_views(before).push(n@));
                assert(meta_names(metas@).take(i + 1) =~= meta_names(metas@).take(i as int).push(metas@[i as int].name@));
            }
            i = i + 1;
        }
        proof {
            assert(meta_names(metas@).take(metas@.len() as int) =~= meta_names(metas@));
        }
        let entries = tool_entries_of(space, &names);
        let r = json_array(entries);
        proof {
            let order = choose|order: Seq<u64>|
                lists_all(space.slots(), order) && #[trigger] metas_of(space.slots(), order, metas@);
            assert(metas_of(space.slots(), order, metas@));
        }
        r
    } else {
        let mut i: usize = 0;
        while i < allowed_tools.len()
            invariant
                i <= allowed_tools@.len(),
                names@ == allowed_tools@.take(i as int),
            decreases allowed_tools@.len() - i,
        {
            names.push(allowed_tools[i].clone());
            proof {
                assert(names@ =~= allowed_tools@.take(i + 1));
            }
            i = i + 1;
        }
        proof {
            assert(allowed_tools@.take(allowed_tools@.len() as int) =~= allowed_tools@);
        }
        let entries = tool_entries_of(space, &names);
        json_array(entries)
    }
}

/// A completion request: the prompt, the system prompt, the sampling
/// temperature, the native tool descriptions and the slot of the
/// session's event bus, where streamed fragments are to be published.
pub open spec fn request_value(prompt: Seq<char>, system: Seq<char>, temperature: Value, tools: Value, bus: u64) -> Value {
    object_of(
        seq![
            ("prompt"@, string_value(prompt)),
            ("system"@, string_value(system)),
            ("temperature"@, temperature),
            ("tools"@, tools),
            ("event_bus_slot_id"@, u64_value(bus)),
        ],
    )
}

/// The completion request of a session's turn, given the observation,
/// the sampling temperature and the tool descriptions.
pub fn llm_request(session: &Session, observation: &Observation, temperature: &Value, tools: Value) -> (r: Value)
    ensures
        r == request_value(
            prompt_text(session.goal@, session.context, session.history.steps@, *observation),
            system_prompt(*observation is Tick, session.allowed_tools@),
            *temperature,
            tools,
            session.event_bus_slot_id@,
        ),
{
    let first_action = match observation {
        Observation::Tick => true,
        _ => false,
    };
    let prompt = build_prompt(session, observation);
    let system = build_system_prompt(first_action, session.allowed_tools.as_slice());
    let ms = vec![
        str_member("prompt", prompt),
        str_member("system", system),
        member("temperature", temperature.clone()),
        member("tools", tools),
        member("event_bus_slot_id", json_u64(session.event_bus_slot_id.raw())),
    ];
    proof {
        assert(member_views(ms@) =~= seq![
            ("prompt"@, string_value(prompt@)),
            ("system"@, string_value(system@)),
            ("temperature"@, *temperature),
            ("tools"@, tools),
            ("event_bus_slot_id"@, u64_value(session.event_bus_slot_id@)),
        ]);
    }
    json_object(ms)
}

impl Clone for History {
    fn clone(&self) -> (r: History)
        ensures
            r.steps@ == self.steps@,
    {
        let mut steps: Vec<Step> = Vec::new();
        let mut i: usize = 0;
        while i < self.steps.len()
            invariant
                i <= self.steps@.len(),
                steps@ == self.steps@.take(i as int),
            decreases self.steps@.len() - i,
        {
            steps.push(self.steps[i].clone());
            proof {
                assert(steps@ =~= self.steps@.take(i + 1));
            }
            i = i + 1;
        }
        proof {
            assert(self.steps@.take(self.steps@.len() as int) =~= self.steps@);
        }
        History { steps }
    }
}

fn copy_strings(v: &Vec<String>) -> (r: Vec<String>)
    ensures
        r@ == v@,
{
    let mut out: Vec<String> = Vec::new();
    let mut i: usize = 0;
    while i < v.len()
        invariant
            i <= v@.len(),
            out@ == v@.take(i as int),
        decreases v@.len() - i,
    {
        out.push(v[i].clone());
        proof {
            assert(out@ =~= v@.take(i + 1));
        }
        i = i + 1;
    }
    proof {
        assert(v@.take(v@.len() as int) =~= v@);
    }
    out
}

/// What a session is saved as: everything but its event bus and its
/// published events.
#[derive(Debug)]
pub struct SessionCheckpoint {
    pub id: SessionId,
    pub goal: String,
    pub context: Value,
    pub allowed_tools: Vec<String>,
    pub history: History,
    pub status: SessionStatus,
    pub limits: SessionLimits,
    pub created_at_ms: u64,
    pub step_count: u32,
    pub last_advance_ms: u64,
}

/// `c` saves `s` under the id `id`.
pub open spec fn saves(c: SessionCheckpoint, s: Session, id: SessionId) -> bool {
    &&& c.id == id
    &&& c.goal == s.goal
    &&& c.context == s.context
    &&& c.allowed_tools@ == s.allowed_tools@
    &&& c.history.steps@ == s.history.steps@
    &&& c.status == s.status
    &&& c.limits == s.limits
    &&& c.created_at_ms == s.created_at_ms
    &&& c.step_count == s.step_count
    &&& c.last_advance_ms == s.last_advance_ms
}

impl SessionCheckpoint {
    /// The checkpoint of `s`, saved under `id`.
    pub fn from_session(s: &Session, id: &SessionId) -> (r: SessionCheckpoint)
        ensures
            saves(r, *s, *id),
    {
        SessionCheckpoint {
            id: SessionId(id.0.clone()),
            goal: s.goal.clone(),
            context: s.context.clone(),
            allowed_tools: copy_strings(&s.allowed_tools),
            history: s.history.clone(),
            status: s.status,
            limits: s.limits,
            created_at_ms: s.created_at_ms,
            step_count: s.step_count,
            last_advance_ms: s.last_advance_ms,
        }
    }
}

/// The agent runtime: its sessions, keyed by id, and the capabilities
/// it asks for completions and embeddings.
pub struct AgentRuntime {
    pub sessions: Vec<Session>,
    /// The slot of the generator capability.
    pub generator: SlotId,
    /// The slot of the embedder capability.
    pub embedder: SlotId,
    /// The sampling temperature of a turn's completion request.
    pub temperature: Value,
    /// The sampling temperature of a planning request.
    pub plan_temperature: Value,
}

/// No two sessions share an id.
pub open spec fn ids_distinct(ss: Seq<Session>) -> bool {
    forall|i: int, j: int| 0 <= i < j < ss.len() ==> (#[trigger] ss[i]).id.0@ != (#[trigger] ss[j]).id.0@
}

/// The position of the session with id `id`, if any.
pub open spec fn index_of(ss: Seq<Session>, id: Seq<char>) -> Option<int> {
    if exists|i: int| 0 <= i < ss.len() && (#[trigger] ss[i]).id.0@ == id {
        Some(choose|i: int| 0 <= i < ss.len() && (#[trigger] ss[i]).id.0@ == id)
    } else {
        None
    }
}

/// A position `index_of` gives holds a session of that id.
pub proof fn lemma_index_of_found(ss: Seq<Session>, id: Seq<char>)
    ensures
        index_of(ss, id) matches Some(i) ==> 0 <= i < ss.len() && ss[i].id.0@ == id,
{
}

/// With distinct ids, the session of an id is found at its position.
pub proof fn lemma_index_of(ss: Seq<Session>, id: Seq<char>, i: int)
    requires
        ids_distinct(ss),
        0 <= i < ss.len(),
        ss[i].id.0@ == id,
    ensures
        index_of(ss, id) == Some(i),
{
    let j = choose|j: int| 0 <= j < ss.len() && (#[trigger] ss[j]).id.0@ == id;
    if j < i {
        assert(ss[j].id.0@ != ss[i].id.0@);
    } else if i < j {
        assert(ss[i].id.0@ != ss[j].id.0@);
    }
}

/// A fresh session: running, with nothing done yet.
pub open spec fn fresh_session(
    s: Session,
    goal: String,
    context: Value,
    allowed_tools: Seq<String>,
    limits: SessionLimits,
    bus: SlotId,
) -> bool {
    &&& s.goal == goal
    &&& s.context == context
    &&& s.allowed_tools@ == allowed_tools
    &&& s.history.steps@.len() == 0
    &&& s.status == SessionStatus::Running
    &&& s.limits == limits
    &&& s.step_count == 0
    &&& s.created_at_ms == s.last_advance_ms
    &&& s.event_bus_slot_id == bus
    &&& s.events@.len() == 0
}

/// `ss` with `s` stored under its id: replacing the session of that id,
/// or added after the others.
pub open spec fn stored(ss: Seq<Session>, s: Session) -> Seq<Session> {
    match index_of(ss, s.id.0@) {
        Some(i) => ss.update(i, s),
        None => ss.push(s),
    }
}

/// Storing a session under an id no session holds adds it and loses
/// nothing: every session held before is still found under its id, the
/// new one is found under its own, and the ids stay distinct.
pub proof fn law_fresh_session_is_added(ss: Seq<Session>, s: Session)
    requires
        ids_distinct(ss),
        index_of(ss, s.id.0@) is None,
    ensures
        stored(ss, s) == ss.push(s),
        stored(ss, s).len() == ss.len() + 1,
        ids_distinct(stored(ss, s)),
        forall|i: int| 0 <= i < ss.len() ==> index_of(stored(ss, s), (#[trigger] ss[i]).id.0@) == Some(i),
        index_of(stored(ss, s), s.id.0@) == Some(ss.len() as int),
{
    let t = ss.push(s);
    assert forall|i: int| 0 <= i < ss.len() implies ss[i].id.0@ != s.id.0@ by {
        if ss[i].id.0@ == s.id.0@ {
            assert(exists|k: int| 0 <= k < ss.len() && (#[trigger] ss[k]).id.0@ == s.id.0@);
        }
    }
    assert(ids_distinct(t));
    assert forall|i: int| 0 <= i < ss.len() implies index_of(t, (#[trigger] ss[i]).id.0@) == Some(i) by {
        assert(t[i] == ss[i]);
        lemma_index_of_found(t, ss[i].id.0@);
    }
    assert(t[ss.len() as int] == s);
    lemma_index_of_found(t, s.id.0@);
}

/// The session id `sess_` and the number `j`.
pub open spec fn session_name(j: int) -> Seq<char> {
    "sess_"@ + decimal(j as nat)
}

/// A runtime holding `n` sessions does not hold all of the `n + 1` ids
/// `sess_0` to `sess_n`.
proof fn lemma_some_name_free(ss: Seq<Session>)
    ensures
        exists|j: int| 0 <= j <= ss.len() && (#[trigger] index_of(ss, session_name(j))) is None,
{
    if forall|j: int| 0 <= j <= ss.len() ==> (#[trigger] index_of(ss, session_name(j))) is Some {
        lemma_all_names_taken(ss);
    }
}

proof fn lemma_all_names_taken(ss: Seq<Session>)
    requires
        forall|j: int| 0 <= j <= ss.len() ==> (#[trigger] index_of(ss, session_name(j))) is Some,
    ensures
        ss.len() + 1 <= ss.len(),
{
    broadcast use vstd::seq_lib::seq_to_set_is_finite;
    let ids = ss.map_values(|s: Session| s.id.0@);
    let held = ids.to_set();
    ids.lemma_cardinality_of_set();
    let f = |j: int| session_name(j);
    let range = set_int_range(0, ss.len() as int + 1);
    lemma_int_range(0, ss.len() as int + 1);
    reveal_strlit("sess_");
    assert(injective_on(f, range)) by {
        assert forall|a: int, b: int| range.contains(a) && range.contains(b) && #[trigger] f(a) == #[trigger] f(b) implies a
            == b by {
            assert(f(a).subrange(5, f(a).len() as int) =~= decimal(a as nat));
            assert(f(b).subrange(5, f(b).len() as int) =~= decimal(b as nat));
            lemma_decimal_injective(a as nat, b as nat);
        }
    }
    let names = range.map(f);
    lemma_map_size(range, names, f);
    assert(names.subset_of(held)) by {
        assert forall|x: Seq<char>| names.contains(x) implies held.contains(x) by {
            let j = choose|j: int| range.contains(j) && x == f(j);
            assert(index_of(ss, session_name(j)) is Some);
            let i = choose|i: int| 0 <= i < ss.len() && (#[trigger] ss[i]).id.0@ == session_name(j);
            assert(ids[i] == x);
        }
    }
    lemma_len_subset(names, held);
}

impl AgentRuntime {
    pub open spec fn wf(&self) -> bool {
        ids_distinct(self.sessions@)
    }

    /// A runtime with no sessions.
    pub fn new(generator: SlotId, embedder: SlotId, temperature: Value, plan_temperature: Value) -> (r:
        AgentRuntime)
        ensures
            r.wf(),
            r.sessions@.len() == 0,
            r.generator == generator,
            r.embedder == embedder,
            r.temperature == temperature,
            r.plan_temperature == plan_temperature,
    {
        AgentRuntime { sessions: Vec::new(), generator, embedder, temperature, plan_temperature }
    }

    /// The position of the session `id`.
    fn find(&self, id: &str) -> (r: Option<usize>)
        requires
            self.wf(),
        ensures
            r matches Some(i) ==> i < self.sessions@.len() && index_of(self.sessions@, id@) == Some(i as int)
                && self.sessions@[i as int].id.0@ == id@,
            r is None ==> index_of(self.sessions@, id@) is None,
    {
        proof {
            lemma_index_of_found(self.sessions@, id@);
        }
        let mut i: usize = 0;
        while i < self.sessions.len()
            invariant
                self.wf(),
                i <= self.sessions@.len(),
                forall|j: int| 0 <= j < i ==> (#[trigger] self.sessions@[j]).id.0@ != id@,
            decreases self.sessions@.len() - i,
        {
            if str_eq(self.sessions[i].id.as_str(), id) {
                proof {
                    lemma_index_of(self.sessions@, id@, i as int);
                }
                return Some(i);
            }
            i = i + 1;
        }
        None
    }

    /// A session id of the form `sess_<n>` that no session of the runtime
    /// holds: the clock's `sess_<nanoseconds>` when it is free, else the
    /// first free one of `sess_0`, `sess_1`, ...
    fn fresh_id(&self) -> (r: SessionId)
        requires
            self.wf(),
        ensures
            index_of(self.sessions@, r.0@) is None,
            exists|n: u64| r.0@ == "sess_"@ + decimal(n as nat),
    {
        let first = SessionId::new();
        if self.find(first.as_str()).is_none() {
            return first;
        }
        let len = self.sessions.len();
        let mut k: u128 = 0;
        while k <= len as u128
            invariant
                self.wf(),
                len == self.sessions@.len(),
                k <= len + 1,
                forall|j: int| 0 <= j < k ==> (#[trigger] index_of(self.sessions@, session_name(j))) is Some,
            decreases len + 1 - k,
        {
            let mut c = String::from_str("sess_");
            proof {
                assert(len <= u64::MAX);
            }
            push_decimal(&mut c, k as u64);
            proof {
                assert(c@ == session_name(k as int));
            }
            if self.find(c.as_str()).is_none() {
                return SessionId(c);
            }
            k = k + 1;
        }
        proof {
            lemma_some_name_free(self.sessions@);
        }
        first
    }

    /// Store `s` under its id.
    fn store(&mut self, s: Session)
        requires
            old(self).wf(),
        ensures
            final(self).wf(),
            final(self).sessions@ == stored(old(self).sessions@, s),
            final(self).generator == old(self).generator,
            final(self).embedder == old(self).embedder,
            final(self).temperature == old(self).temperature,
            final(self).plan_temperature == old(self).plan_temperature,
    {
        let ghost s0 = s;
        proof {
            lemma_index_of_found(self.sessions@, s.id.0@);
        }
        match self.find(s.id.as_str()) {
            Some(i) => {
                self.sessions.set(i, s);
                proof {
                    assert(ids_distinct(self.sessions@)) by {
                        assert forall|a: int, b: int| 0 <= a < b < self.sessions@.len() implies (
                        #[trigger] self.sessions@[a]).id.0@ != (#[trigger] self.sessions@[b]).id.0@ by {
                            assert(old(self).sessions@[i as int].id.0@ == s0.id.0@);
                        }
                    }
                }
            },
            None => {
                self.sessions.push(s);
                proof {
                    assert forall|a: int, b: int| 0 <= a < b < self.sessions@.len() implies (
                    #[trigger] self.sessions@[a]).id.0@ != (#[trigger] self.sessions@[b]).id.0@ by {
                        if b == old(self).sessions@.len() {
                            assert(old(self).sessions@[a].id.0@ != s0.id.0@);
                        }
                    }
                }
            },
        }
    }

    /// Open a session for `goal`: every allowed tool must be registered
    /// in the space, else the first one that is not is refused as
    /// unknown. The session starts running, with its event bus at
    /// `bus`, and is stored under a fresh id, which is returned.
    pub fn start<H>(
        &mut self,
        space: &CapabilitySpace<H>,
        goal: String,
        context: Value,
        allowed_tools: Vec<String>,
        limits: SessionLimits,
        bus: SlotId,
    ) -> (r: Result<SessionId, AgentError>)
        requires
            old(self).wf(),
            space.wf(),
        ensures
            final(self).wf(),
            final(self).generator == old(self).generator,
            final(self).embedder == old(self).embedder,
            final(self).temperature == old(self).temperature,
            final(self).plan_temperature == old(self).plan_temperature,
            r is Ok <==> forall|i: int| 0 <= i < allowed_tools@.len() ==> space.name_taken(
                (#[trigger] allowed_tools@[i])@,
            ),
            r matches Err(e) ==> (e matches AgentError::ToolUnknown(t) && exists|i: int|
                0 <= i < allowed_tools@.len() && (#[trigger] allowed_tools@[i])@ == t@ && !space.name_taken(
                    t@,
                ) && forall|j: int| 0 <= j < i ==> space.name_taken((#[trigger] allowed_tools@[j])@))
                && final(self).sessions@ == old(self).sessions@,
            r matches Ok(id) ==> (exists|n: u64| id.0@ == "sess_"@ + decimal(n as nat)) && exists|s: Session|
                {
                    &&& s.id == id
                    &&& fresh_session(s, goal, context, allowed_tools@, limits, bus)
                    &&& final(self).sessions@ == #[trigger] stored(old(self).sessions@, s)
                },
            r matches Ok(id) ==> index_of(old(self).sessions@, id.0@) is None && final(self).sessions@.len()
                == old(self).sessions@.len() + 1,
    {
        let mut i: usize = 0;
        while i < allowed_tools.len()
            invariant
                space.wf(),
                self.wf(),
                *self == *old(self),
                i <= allowed_tools@.len(),
                forall|j: int| 0 <= j < i ==> space.name_taken((#[trigger] allowed_tools@[j])@),
            decreases allowed_tools@.len() - i,
        {
            if space.lookup_by_name(allowed_tools[i].as_str()).is_none() {
                return Err(AgentError::ToolUnknown(allowed_tools[i].clone()));
            }
            i = i + 1;
        }
        let id = self.fresh_id();
        let now = now_ms();
        let s = Session {
            id: SessionId(id.0.clone()),
            goal,
            context,
            allowed_tools,
            history: History::new(),
            status: SessionStatus::Running,
            limits,
            created_at_ms: now,
            step_count: 0,
            last_advance_ms: now,
            event_bus_slot_id: bus,
            events: Vec::new(),
        };
        let ghost s0 = s;
        self.store(s);
        proof {
            assert(fresh_session(s0, goal, context, allowed_tools@, limits, bus));
            assert(stored(old(self).sessions@, s0) == self.sessions@);
        }
        Ok(id)
    }

    /// The id of the session `id` when it may take another turn: refused
    /// when no such session exists or it is done, failed or cancelled.
    pub fn lookup(&self, id: &str) -> (r: Result<SessionId, AgentError>)
        requires
            self.wf(),
        ensures
            match index_of(self.sessions@, id@) {
                None => r matches Err(AgentError::UnknownSession(x)) && x@ == id@,
                Some(i) => {
                    let st = self.sessions@[i].status;
                    if st == SessionStatus::Done || st == SessionStatus::Failed || st == SessionStatus::Cancelled {
                        r matches Err(AgentError::SessionTerminal { id: x, status }) && x@ == id@ && status@
                            == status_text(st)
                    } else {
                        r matches Ok(sid) && sid.0@ == id@
                    }
                },
            },
    {
        proof {
            lemma_index_of_found(self.sessions@, id@);
        }
        match self.find(id) {
            None => Err(AgentError::UnknownSession(String::from_str(id))),
            Some(i) => {
                let st = self.sessions[i].status;
                if st.is_terminal() {
                    Err(
                        AgentError::SessionTerminal {
                            id: String::from_str(id),
                            status: String::from_str(st.as_str()),
                        },
                    )
                } else {
                    Ok(SessionId(String::from_str(id)))
                }
            },
        }
    }

    /// The slot of the event bus of the session `id`, if it exists.
    pub fn session_event_bus_slot_id(&self, id: &str) -> (r: Option<SlotId>)
        requires
            self.wf(),
        ensures
            r == match index_of(self.sessions@, id@) {
                Some(i) => Some(self.sessions@[i].event_bus_slot_id),
                None => None::<SlotId>,
            },
    {
        proof {
            lemma_index_of_found(self.sessions@, id@);
        }
        match self.find(id) {
            None => None,
            Some(i) => Some(self.sessions[i].event_bus_slot_id),
        }
    }

    /// Cancel the session `id`: it is removed, marked cancelled and its
    /// event bus revoked. Returns its history as JSON and its checkpoint.
    pub fn cancel<H>(&mut self, space: &mut CapabilitySpace<H>, id: &str) -> (r: Result<
        (Value, SessionCheckpoint),
        AgentError,
    >)
        requires
            old(self).wf(),
            old(space).wf(),
        ensures
            final(self).wf(),
            final(space).wf(),
            final(self).generator == old(self).generator,
            final(self).embedder == old(self).embedder,
            final(self).temperature == old(self).temperature,
            final(self).plan_temperature == old(self).plan_temperature,
            match index_of(old(self).sessions@, id@) {
                None => (r matches Err(AgentError::UnknownSession(x)) && x@ == id@) && final(self).sessions@
                    == old(self).sessions@ && *final(space) == *old(space),
                Some(i) => {
                    let s = old(self).sessions@[i];
                    &&& final(self).sessions@ == old(self).sessions@.remove(i)
                    &&& final(space).slots() == old(space).slots().remove(s.event_bus_slot_id@)
                    &&& r matches Ok((v, c)) && v == history_value(s.history.steps@) && saves(
                        c,
                        Session { status: SessionStatus::Cancelled, ..s },
                        s.id,
                    )
                },
            },
    {
        proof {
            lemma_index_of_found(self.sessions@, id@);
        }
        let i = match self.find(id) {
            None => {
                return Err(AgentError::UnknownSession(String::from_str(id)));
            },
            Some(i) => i,
        };
        let mut session = self.sessions.remove(i);
        proof {
            assert forall|a: int, b: int| 0 <= a < b < self.sessions@.len() implies (
            #[trigger] self.sessions@[a]).id.0@ != (#[trigger] self.sessions@[b]).id.0@ by {
                let a2 = if a < i { a } else { a + 1 };
                let b2 = if b < i { b } else { b + 1 };
                assert(old(self).sessions@[a2].id.0@ != old(self).sessions@[b2].id.0@);
            }
        }
        session.status = SessionStatus::Cancelled;
        space.revoke(session.event_bus_slot_id);
        let checkpoint = SessionCheckpoint::from_session(&session, &session.id);
        let history = session.history.to_value();
        Ok((history, checkpoint))
    }

    /// The session `checkpoint` saved, restored under its id with its
    /// event bus at `bus`; its last turn is taken to be the later of the
    /// saved one and now. Refused when a session of that id exists.
    /// Returns the id.
    pub fn restore(&mut self, checkpoint: SessionCheckpoint, bus: SlotId) -> (r: Result<String, AgentError>)
        requires
            old(self).wf(),
        ensures
            final(self).wf(),
            final(self).generator == old(self).generator,
            final(self).embedder == old(self).embedder,
            final(self).temperature == old(self).temperature,
            final(self).plan_temperature == old(self).plan_temperature,
            index_of(old(self).sessions@, checkpoint.id.0@) is Some ==> (r matches Err(
                AgentError::Serialization(m),
            ) && m@ == "session `"@ + checkpoint.id.0@ + "` already exists; load rejected to avoid clobbering"@)
                && final(self).sessions@ == old(self).sessions@,
            index_of(old(self).sessions@, checkpoint.id.0@) is None ==> (r matches Ok(x) && x@
                == checkpoint.id.0@) && exists|s: Session|
                {
                    &&& saves(
                        checkpoint,
                        Session {
                            last_advance_ms: checkpoint.last_advance_ms,
                            ..s
                        },
                        s.id,
                    )
                    &&& s.last_advance_ms >= checkpoint.last_advance_ms
                    &&& s.event_bus_slot_id == bus
                    &&& s.events@.len() == 0
                    &&& final(self).sessions@ == #[trigger] old(self).sessions@.push(s)
                },
    {
        let now = now_ms();
        let last = if checkpoint.last_advance_ms >= now {
            checkpoint.last_advance_ms
        } else {
            now
        };
        if self.find(checkpoint.id.as_str()).is_some() {
            let mut m = String::from_str("session `");
            m.append(checkpoint.id.as_str());
            m.append("` already exists; load rejected to avoid clobbering");
            return Err(AgentError::Serialization(m));
        }
        let ghost c = checkpoint;
        let id = checkpoint.id.0.clone();
        let s = Session {
            id: checkpoint.id,
            goal: checkpoint.goal,
            context: checkpoint.context,
            allowed_tools: checkpoint.allowed_tools,
            history: checkpoint.history,
            status: checkpoint.status,
            limits: checkpoint.limits,
            created_at_ms: checkpoint.created_at_ms,
            step_count: checkpoint.step_count,
            last_advance_ms: last,
            event_bus_slot_id: bus,
            events: Vec::new(),
        };
        let ghost s0 = s;
        self.store(s);
        proof {
            assert(index_of(old(self).sessions@, s0.id.0@) is None);
            assert(saves(c, Session { last_advance_ms: c.last_advance_ms, ..s0 }, s0.id));
            assert(self.sessions@ == old(self).sessions@.push(s0));
        }
        Ok(id)
    }
}

/// The tool call of a native tool-calling reply: the name and the
/// arguments of the first item of `tool_calls`.
pub open spec fn native_call(resp: Value) -> Option<(Seq<char>, Value)> {
    match first_item(resp, "tool_calls"@) {
        Some(tc) => match str_field(tc, "name"@) {
            Some(n) => Some((n, field_or_null(tc, "arguments"@))),
            None => None,
        },
        None => None,
    }
}

/// The reply's `text`, when it is a non-empty string.
pub open spec fn prose_of(resp: Value) -> Option<Seq<char>> {
    match str_field(resp, "text"@) {
        Some(t) => if t.len() > 0 {
            Some(t)
        } else {
            None
        },
        None => None,
    }
}

/// How many entries the reply's prose adds: one when there is prose.
pub open spec fn prose_len(resp: Value) -> int {
    if prose_of(resp) is Some {
        1
    } else {
        0
    }
}

/// `s1` is `s0` but for its history, its events and its status.
pub open spec fn same_session(s0: Session, s1: Session) -> bool {
    &&& s1.id == s0.id
    &&& s1.goal == s0.goal
    &&& s1.context == s0.context
    &&& s1.allowed_tools == s0.allowed_tools
    &&& s1.limits == s0.limits
    &&& s1.created_at_ms == s0.created_at_ms
    &&& s1.step_count == s0.step_count
    &&& s1.last_advance_ms == s0.last_advance_ms
    &&& s1.event_bus_slot_id == s0.event_bus_slot_id
}

/// `s1` is `s0` but for the status, history and events a refused turn
/// may leave behind: the history extended by `extra` steps, the events
/// and the status unchanged.
pub open spec fn refused_with(s0: Session, s1: Session, extra: int) -> bool {
    &&& s1.history.steps@.len() == s0.history.steps@.len() + extra
    &&& s1.events@ == s0.events@
    &&& s1.status == s0.status
}

/// The event a step publishes.
pub open spec fn step_event(s: Step) -> AgentEvent {
    match s {
        Step::LlmReply(LlmReply::Text(t)) => AgentEvent::LlmReplyText(t),
        Step::LlmReply(LlmReply::ToolCall(inv)) => AgentEvent::ToolCall(inv),
        Step::LlmReply(LlmReply::Final(f)) => AgentEvent::Final(f),
        Step::ToolCall(inv) => AgentEvent::ToolCall(inv),
        Step::ToolResult(r) => AgentEvent::ToolResult(r),
        Step::Final(f) => AgentEvent::Final(f),
    }
}

fn event_of_step(s: &Step) -> (r: AgentEvent)
    ensures
        r == step_event(*s),
{
    match s {
        Step::LlmReply(LlmReply::Text(t)) => AgentEvent::LlmReplyText(t.clone()),
        Step::LlmReply(LlmReply::ToolCall(inv)) => AgentEvent::ToolCall(inv.clone()),
        Step::LlmReply(LlmReply::Final(f)) => AgentEvent::Final(f.clone()),
        Step::ToolCall(inv) => AgentEvent::ToolCall(inv.clone()),
        Step::ToolResult(r) => AgentEvent::ToolResult(r.clone()),
        Step::Final(f) => AgentEvent::Final(f.clone()),
    }
}

/// The turn ended with the final answer `value`.
pub open spec fn answered(s0: Session, s1: Session, value: Value, r: Result<(Step, Value, SessionStatus), AgentError>) -> bool {
    let f = FinalAnswer { value, reason: FinalReason::Goal };
    &&& s1.history.steps@ == s0.history.steps@.push(Step::Final(f))
    &&& s1.events@ == s0.events@.push(AgentEvent::Final(f))
    &&& s1.status == SessionStatus::Done
    &&& r == Ok::<(Step, Value, SessionStatus), AgentError>(
        (Step::Final(f), history_value(s1.history.steps@), SessionStatus::Done),
    )
}

/// The turn called `tool` with `args` and came back with `tr`: the call
/// and the result were appended to the history after `at` steps, and
/// the result was published as the last event.
pub open spec fn called(
    s0: Session,
    s1: Session,
    tool: Seq<char>,
    args: Value,
    at: int,
    tr: ToolResult,
    v: Value,
) -> bool {
    let h1 = s1.history.steps@;
    &&& tr.tool@ == tool
    &&& h1.len() == at + 2
    &&& h1.take(s0.history.steps@.len() as int) == s0.history.steps@
    &&& h1[at] matches Step::ToolCall(inv) && inv.tool@ == tool && inv.args == args
    &&& h1[at + 1] == Step::ToolResult(tr)
    &&& s1.events@.last() == AgentEvent::ToolResult(tr)
    &&& s1.events@.take(s0.events@.len() as int) == s0.events@
    &&& s1.status == SessionStatus::AwaitingObservation
    &&& v == history_value(h1)
    &&& (tr.outcome matches Err(e) ==> exists|inner: String| e@ == #[trigger] tool_failure_text(tr.tool, inner))
}

/// The step before the last of `s`'s history is a tool call on `args`.
pub open spec fn called_with(s: Session, args: Value) -> bool {
    let h = s.history.steps@;
    &&& h.len() >= 2
    &&& h[h.len() - 2] matches Step::ToolCall(inv) && inv.args == args
}

/// What a turn makes of the model's reply `resp`, in a space whose
/// slots are `m`: a native tool call is made when the session allows
/// the tool and the space holds it, after recording the reply's prose;
/// otherwise the reply's text is read as the agent's JSON protocol
/// (see `parse_llm_reply`). A tool call publishes the prose, the call
/// (when native) and the result; a final answer publishes itself.
pub open spec fn reply_applied<H>(
    s0: Session,
    s1: Session,
    m: Map<u64, Entry<H>>,
    resp: Value,
    r: Result<(Step, Value, SessionStatus), AgentError>,
) -> bool {
    let h0 = s0.history.steps@;
    let h1 = s1.history.steps@;
    let e0 = s0.events@;
    let e1 = s1.events@;
    &&& same_session(s0, s1)
    &&& match native_call(resp) {
        Some((tool, args)) => {
            let p = prose_len(resp);
            &&& h1.len() >= h0.len() + p
            &&& h1.take(h0.len() as int) == h0
            &&& (prose_of(resp) matches Some(t) ==> h1[h0.len() as int] matches Step::LlmReply(
                LlmReply::Text(x),
            ) && x@ == t)
            &&& if !tool_allowed(s0.allowed_tools@, tool) {
                (r matches Err(AgentError::ToolDenied { tool: x, reason }) && x@ == tool && reason@
                    == "not in allowed_tools"@) && refused_with(s0, s1, p)
            } else if registered(m, tool) is None {
                (r matches Err(AgentError::ToolUnknown(x)) && x@ == tool) && refused_with(s0, s1, p)
            } else {
                &&& r matches Ok((Step::ToolResult(tr), v, SessionStatus::AwaitingObservation)) && called(
                    s0,
                    s1,
                    tool,
                    args,
                    h0.len() + p,
                    tr,
                    v,
                ) && e1.len() == e0.len() + p + 2 && (e1[e0.len() + p] matches AgentEvent::ToolCall(inv)
                    && inv.tool@ == tool && inv.args == args)
                &&& prose_of(resp) matches Some(t) ==> e1[e0.len() as int] matches AgentEvent::LlmReplyText(x)
                    && x@ == t
            }
        },
        None => match str_field(resp, "text"@) {
            None => (r matches Err(AgentError::LlmFailed(x)) && x@ == "missing `text`"@) && refused_with(
                s0,
                s1,
                0,
            ),
            Some(text) => match reply_shape(text) {
                ReplyShape::Plain => answered(s0, s1, string_value(text), r),
                ReplyShape::Answer(v) => answered(s0, s1, v, r),
                ReplyShape::Call(None, _) => (r matches Err(AgentError::LlmFailed(x)) && x@
                    == "tool_call missing `tool`"@) && refused_with(s0, s1, 0),
                ReplyShape::Call(Some(tool), args) => if !tool_allowed(s0.allowed_tools@, tool) {
                    (r matches Err(AgentError::ToolDenied { tool: x, reason }) && x@ == tool && reason@
                        == "not in allowed_tools"@) && refused_with(s0, s1, 0)
                } else if registered(m, tool) is None {
                    (r matches Err(AgentError::ToolUnknown(x)) && x@ == tool) && refused_with(s0, s1, 0)
                } else {
                    &&& r matches Ok((Step::ToolResult(tr), v, SessionStatus::AwaitingObservation)) && called(
                        s0,
                        s1,
                        tool,
                        args,
                        h0.len() as int,
                        tr,
                        v,
                    ) && e1.len() == e0.len() + prose_len(resp) + 1
                    &&& prose_of(resp) matches Some(t) ==> e1[e0.len() as int] matches AgentEvent::LlmReplyText(
                        x,
                    ) && x@ == t
                },
            },
        },
    }
}

/// Act on the model's reply `resp` to a turn of `session`: make the
/// tool call it asks for, or record its answer (see `reply_applied`).
/// Returns the turn's step, the history as JSON and the new status.
pub fn apply_reply<H: Resource>(session: &mut Session, space: &mut CapabilitySpace<H>, resp: Value) -> (r: Result<
    (Step, Value, SessionStatus),
    AgentError,
>)
    requires
        old(space).wf(),
    ensures
        final(space).wf(),
        final(space).slots() == old(space).slots(),
        reply_applied(*old(session), *final(session), old(space).slots(), resp, r),
        r matches Ok((Step::ToolResult(tr), _, _)) ==> exists|k: u64, args: Value, raw: Result<Value, String>|
            old(space).slots().contains_key(k) && named(old(space).slots()[k], tr.tool@)
                && #[trigger] final(space).sync_call(old(space), k, OperationRights { bits: 4 }, args, raw)
                && tool_outcome(tr.tool, raw, tr.outcome) && called_with(*final(session), args),
{
    let ghost s0 = *session;
    let prose: Option<String> = match json_str_field(&resp, "text") {
        Some(t) => if t.unicode_len() > 0 {
            Some(t)
        } else {
            None
        },
        None => None,
    };
    proof {
        assert(prose matches Some(p) ==> prose_of(resp) == Some(p@));
        assert(prose is None ==> prose_of(resp) is None);
    }
    match first_native_tool_call(&resp) {
        Some(invocation) => {
            match &prose {
                Some(p) => {
                    session.history.push(Step::LlmReply(LlmReply::Text(p.clone())));
                },
                None => {},
            }
            let ghost h_mid = session.history.steps@;
            proof {
                assert(h_mid.take(s0.history.steps@.len() as int) =~= s0.history.steps@);
                assert(native_call(resp) == Some((invocation.tool@, invocation.args)));
                assert(h_mid.len() == s0.history.steps@.len() + prose_len(resp));
            }
            if !allowed(session.allowed_tools.as_slice(), invocation.tool.as_str()) {
                return Err(AgentError::ToolDenied { tool: invocation.tool, reason: "not in allowed_tools" });
            }
            let slot = match space.slot_by_name(invocation.tool.as_str()) {
                None => {
                    proof {
                        assert(registered(old(space).slots(), invocation.tool@) is None);
                    }
                    return Err(AgentError::ToolUnknown(invocation.tool));
                },
                Some(s) => s,
            };
            let raw = space.invoke(slot, invocation.args.clone());
            let ghost graw = raw;
            let outcome = match raw {
                Ok(v) => Ok(v),
                Err(e) => {
                    let m = AgentError::ToolFailed { tool: invocation.tool.clone(), error: e }.message();
                    proof {
                        assert(m@ == tool_failure_text(invocation.tool, e));
                    }
                    Err(m)
                },
            };
            let tr = ToolResult { tool: invocation.tool.clone(), outcome };
            session.history.push(Step::ToolCall(invocation.clone()));
            session.history.push(Step::ToolResult(tr.clone()));
            let ghost e_mid = session.events@;
            match prose {
                Some(p) => {
                    session.events.push(AgentEvent::LlmReplyText(p));
                },
                None => {},
            }
            let ghost inv = invocation;
            session.events.push(AgentEvent::ToolCall(invocation));
            session.events.push(AgentEvent::ToolResult(tr.clone()));
            session.status = SessionStatus::AwaitingObservation;
            let v = session.history.to_value();
            proof {
                let p = prose_len(resp);
                assert(session.history.steps@.take(s0.history.steps@.len() as int) =~= s0.history.steps@);
                assert(session.history.steps@.take(h_mid.len() as int) =~= h_mid);
                assert(session.events@.take(s0.events@.len() as int) =~= s0.events@);
                assert(session.events@[s0.events@.len() + p] == AgentEvent::ToolCall(inv));
                assert(same_session(s0, *session));
                assert(called(s0, *session, inv.tool@, inv.args, s0.history.steps@.len() + p, tr, v));
                assert(session.events@.len() == s0.events@.len() + p + 2);
                assert(tool_outcome(tr.tool, graw, tr.outcome));
                assert(space.sync_call(old(space), slot@, OperationRights { bits: 4 }, inv.args, graw));
                assert(session.history.steps@[session.history.steps@.len() - 2] == Step::ToolCall(inv));
            }
            Ok((Step::ToolResult(tr), v, SessionStatus::AwaitingObservation))
        },
        None => {
            let text = match json_str_field(&resp, "text") {
                None => {
                    return Err(AgentError::LlmFailed(String::from_str("missing `text`")));
                },
                Some(t) => t,
            };
            let res = parse_llm_reply(text.as_str(), &mut session.history, session.allowed_tools.as_slice(), space);
            let (step, status) = match res {
                Err(e) => {
                    return Err(e);
                },
                Ok(p) => p,
            };
            match step {
                Step::ToolResult(tr) => {
                    match prose {
                        Some(p) => {
                            session.events.push(AgentEvent::LlmReplyText(p));
                        },
                        None => {},
                    }
                    session.events.push(AgentEvent::ToolResult(tr.clone()));
                    session.status = status;
                    let v = session.history.to_value();
                    proof {
                        assert(session.events@.take(s0.events@.len() as int) =~= s0.events@);
                    }
                    Ok((Step::ToolResult(tr), v, status))
                },
                other => {
                    let ev = event_of_step(&other);
                    session.events.push(ev);
                    session.status = status;
                    let v = session.history.to_value();
                    Ok((other, v, status))
                },
            }
        },
    }
}

/// The turn of `session` after its limits were checked: the step is
/// counted, the generator at `generator` is asked for a completion
/// over the turn's request, and the reply is acted on.
fn turn<H: Resource>(
    generator: SlotId,
    temperature: &Value,
    space: &mut CapabilitySpace<H>,
    session: &mut Session,
    observation: &Observation,
) -> (r: Result<(Step, Value, SessionStatus), AgentError>)
    requires
        old(space).wf(),
    ensures
        final(space).wf(),
        final(space).slots() == old(space).slots(),
        final(session).id == old(session).id,
        turn_taken(*old(session), *final(session), old(space).slots(), r),
        generator_turn(*old(session), *final(session), *old(space), *final(space), generator, *temperature, *observation, r),
{
    let ghost s0 = *session;
    match check_limits(
        &session.id,
        &session.limits,
        session.step_count,
        session.created_at_ms,
        session.last_advance_ms,
    ) {
        Err(e) => {
            return Err(e);
        },
        Ok(()) => {},
    }
    session.last_advance_ms = now_ms();
    session.step_count = session.step_count + 1;
    let ghost s_counted = *session;
    let tools = collect_tool_schemas(space, session.allowed_tools.as_slice());
    let ghost gtools = tools;
    let request = llm_request(session, observation, temperature, tools);
    let ghost greq = request;
    let raw = space.invoke(generator, request);
    let ghost mid = *space;
    let ghost graw = raw;
    proof {
        assert(greq == turn_request(s0, *observation, *temperature, gtools));
        assert(tools_offered(*old(space), s0.allowed_tools@, gtools));
        assert(generator_asked(*old(space), mid, generator, greq, graw));
    }
    let resp = match raw {
        Ok(v) => v,
        Err(e) => {
            return Err(AgentError::LlmFailed(e));
        },
    };
    let r = apply_reply(session, space, resp);
    proof {
        assert(reply_applied(s_counted, *session, old(space).slots(), resp, r));
    }
    r
}

/// The completion request of the turn of `s` on `observation`.
pub open spec fn turn_request(s: Session, observation: Observation, temperature: Value, tools: Value) -> Value {
    request_value(
        prompt_text(s.goal@, s.context, s.history.steps@, observation),
        system_prompt(observation is Tick, s.allowed_tools@),
        temperature,
        tools,
        s.event_bus_slot_id@,
    )
}

/// `tools` is the description of the tools `allowed` names in `space`
/// (of every capability, by name, when `allowed` is empty).
pub open spec fn tools_offered<H>(space: CapabilitySpace<H>, allowed: Seq<String>, tools: Value) -> bool {
    &&& allowed.len() > 0 ==> tools == array_of(tool_entries(space.slots(), string_views(allowed)))
    &&& allowed.len() == 0 ==> exists|order: Seq<u64>, metas: Seq<CapabilityMeta>|
        {
            &&& lists_all(space.slots(), order)
            &&& #[trigger] metas_of(space.slots(), order, metas)
            &&& sorted_by_key(metas, false)
            &&& tools == array_of(tool_entries(space.slots(), meta_names(metas)))
        }
}

/// The generator at `generator` was invoked with `request` in `space0`,
/// leaving `space1`, and answered `raw` (see `CapabilitySpace::invoke`).
pub open spec fn generator_asked<H: Resource>(
    space0: CapabilitySpace<H>,
    space1: CapabilitySpace<H>,
    generator: SlotId,
    request: Value,
    raw: Result<Value, String>,
) -> bool {
    &&& space1.only_budget_changed(&space0, generator@)
    &&& space0.slots().contains_key(generator@) ==> space1.sync_call(
        &space0,
        generator@,
        OperationRights { bits: 4 },
        request,
        raw,
    )
    &&& !space0.slots().contains_key(generator@) ==> (raw matches Err(e) && e@ == empty_slot_message(
        generator@,
    ))
}

/// A counted turn of `s0` (ending in `s1`, with `r`) asked the generator
/// for a completion of the turn's request over the tools the session
/// may call; a refusal of the generator fails the turn with its text,
/// and a reply is acted on.
pub open spec fn generator_turn<H: Resource>(
    s0: Session,
    s1: Session,
    space0: CapabilitySpace<H>,
    space1: CapabilitySpace<H>,
    generator: SlotId,
    temperature: Value,
    observation: Observation,
    r: Result<(Step, Value, SessionStatus), AgentError>,
) -> bool {
    s1.step_count != s0.step_count ==> exists|tools: Value, mid: CapabilitySpace<H>, raw: Result<Value, String>|
        #[trigger] generator_asked(space0, mid, generator, turn_request(s0, observation, temperature, tools), raw)
            && tools_offered(space0, s0.allowed_tools@, tools) && match raw {
            Err(e) => (r matches Err(AgentError::LlmFailed(m)) && m == e) && space1 == mid,
            Ok(resp) => reply_applied(
                Session { step_count: (s0.step_count + 1) as u32, last_advance_ms: s1.last_advance_ms, ..s0 },
                s1,
                space0.slots(),
                resp,
                r,
            ),
        }
}

/// What one turn of `s0` did, ending in `s1`: refused at its limits
/// with `s1 == s0`, or counted (one more step, a new time of the last
/// turn) and then either failed at the generator or acted on some reply
/// of the model.
pub open spec fn turn_taken<H>(
    s0: Session,
    s1: Session,
    m: Map<u64, Entry<H>>,
    r: Result<(Step, Value, SessionStatus), AgentError>,
) -> bool {
    ||| (exists|now: u64| #[trigger] limit_hit(s0.limits, s0.step_count, s0.created_at_ms, s0.last_advance_ms, now)
        matches Some((l, obs)) && r matches Err(AgentError::SessionLimit { id, limit, observed }) && id@
        == s0.id.0@ && limit@ == limit_text(l) && observed == obs) && s1 == s0
    ||| (exists|now: u64| #[trigger] limit_hit(s0.limits, s0.step_count, s0.created_at_ms, s0.last_advance_ms, now)
        is None) && s0.step_count < s0.limits.max_steps && {
        let counted = Session { step_count: (s0.step_count + 1) as u32, last_advance_ms: s1.last_advance_ms, ..s0 };
        ||| (r matches Err(AgentError::LlmFailed(_)) && s1 == counted)
        ||| exists|resp: Value| #[trigger] reply_applied(counted, s1, m, resp, r)
    }
}

/// A planning request: the goal as the prompt, the planner's system
/// prompt over `tools`, and the sampling temperature.
pub open spec fn plan_request_value(goal: Seq<char>, tools: Seq<String>, temperature: Value) -> Value {
    object_of(
        seq![("prompt"@, string_value(goal)), ("system"@, string_value(plan_prompt(tools))), ("temperature"@, temperature)],
    )
}

/// A plan as JSON: one `llm_text` step holding the model's text.
pub open spec fn plan_value(text: Seq<char>) -> Value {
    object_of(
        seq![("steps"@, array_of(seq![object_of(seq![kind_member("llm_text"@), ("text"@, string_value(text))])]))],
    )
}

/// `r` is what the planner makes of the model's reply `resp`: the plan
/// holding its `text`, or a failure when it has none.
pub open spec fn plan_answered(resp: Value, r: Result<Value, AgentError>) -> bool {
    match str_field(resp, "text"@) {
        None => r matches Err(AgentError::LlmFailed(m)) && m@ == "missing `text`"@,
        Some(t) => r == Ok::<Value, AgentError>(plan_value(t)),
    }
}

/// The planning request for `goal` over `tools`.
pub fn plan_request(goal: &str, tools: &[String], temperature: &Value) -> (r: Value)
    ensures
        r == plan_request_value(goal@, tools@, *temperature),
{
    let system = build_plan_prompt(tools);
    let a = str_member("prompt", String::from_str(goal));
    let b = str_member("system", system);
    let c = member("temperature", temperature.clone());
    object3(a, b, c)
}

/// The plan the model's reply `resp` gives.
pub fn plan_answer(resp: &Value) -> (r: Result<Value, AgentError>)
    ensures
        plan_answered(*resp, r),
{
    match json_str_field(resp, "text") {
        None => Err(AgentError::LlmFailed(String::from_str("missing `text`"))),
        Some(t) => {
            let step = object2(kind("llm_text"), str_member("text", t));
            let ghost sv = step;
            let steps = vec![step];
            proof {
                assert(steps@ =~= seq![sv]);
            }
            let arr = json_array(steps);
            let v = vec![member("steps", arr)];
            proof {
                assert(member_views(v@) =~= seq![("steps"@, arr)]);
            }
            Ok(json_object(v))
        },
    }
}

impl AgentRuntime {
    /// Take one turn of the session `id` on `observation` (see
    /// `turn_taken`); refused when no such session exists. Returns the
    /// turn's step, the history as JSON and the session's new status.
    pub fn advance<H: Resource>(&mut self, space: &mut CapabilitySpace<H>, id: &str, observation: Observation) -> (r:
        Result<(Step, Value, SessionStatus), AgentError>)
        requires
            old(self).wf(),
            old(space).wf(),
        ensures
            final(self).wf(),
            final(space).wf(),
            final(space).slots() == old(space).slots(),
            final(self).generator == old(self).generator,
            final(self).embedder == old(self).embedder,
            final(self).temperature == old(self).temperature,
            final(self).plan_temperature == old(self).plan_temperature,
            match index_of(old(self).sessions@, id@) {
                None => (r matches Err(AgentError::UnknownSession(x)) && x@ == id@) && final(self).sessions@
                    == old(self).sessions@ && *final(space) == *old(space),
                Some(i) => final(self).sessions@ == old(self).sessions@.update(i, final(self).sessions@[i])
                    && turn_taken(old(self).sessions@[i], final(self).sessions@[i], old(space).slots(), r)
                    && generator_turn(
                    old(self).sessions@[i],
                    final(self).sessions@[i],
                    *old(space),
                    *final(space),
                    old(self).generator,
                    old(self).temperature,
                    observation,
                    r,
                ),
            },
    {
        proof {
            lemma_index_of_found(self.sessions@, id@);
        }
        let i = match self.find(id) {
            None => {
                return Err(AgentError::UnknownSession(String::from_str(id)));
            },
            Some(i) => i,
        };
        let mut session = self.sessions.remove(i);
        let r = turn(self.generator, &self.temperature, space, &mut session, &observation);
        let ghost s1 = session;
        self.sessions.insert(i, session);
        proof {
            assert(self.sessions@ =~= old(self).sessions@.update(i as int, s1));
            assert forall|a: int, b: int| 0 <= a < b < self.sessions@.len() implies (
            #[trigger] self.sessions@[a]).id.0@ != (#[trigger] self.sessions@[b]).id.0@ by {
                assert(old(self).sessions@[a].id.0@ != old(self).sessions@[b].id.0@);
            }
        }
        r
    }

    /// Ask the generator for a plan toward `goal` over `tools`: refused
    /// when the generator fails; otherwise the plan its reply gives (see
    /// `plan_answered`).
    pub fn plan<H: Resource>(&self, space: &mut CapabilitySpace<H>, goal: &str, tools: &[String]) -> (r: Result<
        Value,
        AgentError,
    >)
        requires
            old(space).wf(),
        ensures
            final(space).only_budget_changed(old(space), self.generator@),
            (r matches Err(AgentError::LlmFailed(_))) || exists|resp: Value| #[trigger] plan_answered(resp, r),
            exists|raw: Result<Value, String>|
                #[trigger] generator_asked(
                    *old(space),
                    *final(space),
                    self.generator,
                    plan_request_value(goal@, tools@, self.plan_temperature),
                    raw,
                ) && match raw {
                    Err(e) => r matches Err(AgentError::LlmFailed(m)) && m == e,
                    Ok(resp) => plan_answered(resp, r),
                },
    {
        let request = plan_request(goal, tools, &self.plan_temperature);
        let ghost greq = request;
        let raw = space.invoke(self.generator, request);
        let ghost graw = raw;
        proof {
            assert(generator_asked(*old(space), *space, self.generator, greq, graw));
        }
        match raw {
            Err(e) => Err(AgentError::LlmFailed(e)),
            Ok(resp) => {
                let r = plan_answer(&resp);
                proof {
                    assert(plan_answered(resp, r));
                }
                r
            },
        }
    }
}

/// The limits an input asks for: each of `max_steps`, `max_idle_ms`
/// and `max_session_ms` given as an unsigned integer (truncated to 32
/// bits), the default for each not given.
pub open spec fn limits_from(v: Option<Value>) -> SessionLimits {
    match v {
        None => SessionLimits { max_steps: 30, max_idle_ms: 300_000, max_session_ms: 1_800_000 },
        Some(x) => SessionLimits {
            max_steps: match u64_field(x, "max_steps"@) {
                Some(n) => n as u32,
                None => 30,
            },
            max_idle_ms: match u64_field(x, "max_idle_ms"@) {
                Some(n) => n as u32,
                None => 300_000,
            },
            max_session_ms: match u64_field(x, "max_session_ms"@) {
                Some(n) => n as u32,
                None => 1_800_000,
            },
        },
    }
}

/// The session limits an input asks for, over the defaults.
pub fn parse_limits(v: Option<&Value>) -> (r: SessionLimits)
    ensures
        r == limits_from(
            match v {
                Some(x) => Some(*x),
                None => None::<Value>,
            },
        ),
{
    let mut l = SessionLimits::default();
    if let Some(x) = v {
        if let Some(n) = json_u64_field(x, "max_steps") {
            l.max_steps = n as u32;
        }
        if let Some(n) = json_u64_field(x, "max_idle_ms") {
            l.max_idle_ms = n as u32;
        }
        if let Some(n) = json_u64_field(x, "max_session_ms") {
            l.max_session_ms = n as u32;
        }
    }
    l
}

/// Read an observation: `kind` is `Tick`, `UserReply` (with `text`) or
/// `ToolResult` (with `tool`, an optional `value`, null when absent,
/// and an optional `error` string).
pub fn parse_observation(v: Option<&Value>) -> (r: Result<Observation, String>)
    ensures
        match v {
            None => r matches Err(m) && m@ == "agent_resume: expected `observation`"@,
            Some(x) => match str_field(*x, "kind"@) {
                None => r matches Err(m) && m@ == "agent_resume: observation.kind required"@,
                Some(k) => if k == "Tick"@ {
                    r matches Ok(Observation::Tick)
                } else if k == "UserReply"@ {
                    match str_field(*x, "text"@) {
                        None => r matches Err(m) && m@ == "UserReply.text required"@,
                        Some(t) => r matches Ok(Observation::UserReply(u)) && u@ == t,
                    }
                } else if k == "ToolResult"@ {
                    match str_field(*x, "tool"@) {
                        None => r matches Err(m) && m@ == "ToolResult.tool required"@,
                        Some(t) => r matches Ok(Observation::ToolResult { tool, value, error }) && tool@ == t
                            && value == field_or_null(*x, "value"@) && match str_field(*x, "error"@) {
                            Some(e) => error matches Some(e2) && e2@ == e,
                            None => error is None,
                        },
                    }
                } else {
                    r matches Err(m) && m@ == "agent_resume: unknown observation.kind `"@ + k + "`"@
                },
            },
        },
{
    let x = match v {
        None => {
            return Err(String::from_str("agent_resume: expected `observation`"));
        },
        Some(x) => x,
    };
    let kind = match json_str_field(x, "kind") {
        None => {
            return Err(String::from_str("agent_resume: observation.kind required"));
        },
        Some(k) => k,
    };
    if str_eq(kind.as_str(), "Tick") {
        Ok(Observation::Tick)
    } else if str_eq(kind.as_str(), "UserReply") {
        match json_str_field(x, "text") {
            None => Err(String::from_str("UserReply.text required")),
            Some(t) => Ok(Observation::UserReply(t)),
        }
    } else if str_eq(kind.as_str(), "ToolResult") {
        match json_str_field(x, "tool") {
            None => Err(String::from_str("ToolResult.tool required")),
            Some(tool) => {
                let value = json_field_or_null(x, "value");
                let error = json_str_field(x, "error");
                Ok(Observation::ToolResult { tool, value, error })
            },
        }
    } else {
        let mut m = String::from_str("agent_resume: unknown observation.kind `");
        m.append(kind.as_str());
        m.append("`");
        Err(m)
    }
}

/// The strings of the array at `key` of `v`, or none.
pub open spec fn string_list(v: Value, key: Seq<char>) -> Seq<Seq<char>> {
    match str_items(v, key) {
        Some(items) => items,
        None => Seq::empty(),
    }
}

fn strings_at(v: &Value, key: &str) -> (r: Vec<String>)
    ensures
        string_views(r@) == string_list(*v, key@),
{
    match json_str_items(v, key) {
        Some(items) => {
            proof {
                assert(string_views(items@) =~= items@.map_values(|s: String| s@));
            }
            items
        },
        None => {
            let r: Vec<String> = Vec::new();
            proof {
                assert(string_views(r@) =~= Seq::<Seq<char>>::empty());
            }
            r
        },
    }
}

/// The answer of `agent_start`: the session id, also under `profile`.
pub open spec fn started_value(id: Seq<char>) -> Value {
    object_of(
        seq![("session_id"@, string_value(id)), ("profile"@, object_of(seq![("session_id"@, string_value(id))]))],
    )
}

/// The answer of `agent_resume`: the turn's step, the history and the
/// status.
pub open spec fn resumed_value(step: Step, history: Value, status: SessionStatus) -> Value {
    object_of(
        seq![("step"@, step_value(step)), ("history"@, history), ("status"@, string_value(status_text(status)))],
    )
}

/// The answer of `agent_cancel`: the status, the history and, when the
/// session was saved, the path it was saved to.
pub open spec fn cancelled_value(history: Value, path: Option<Seq<char>>) -> Value {
    match path {
        None => object_of(seq![("status"@, string_value("Cancelled"@)), ("history"@, history)]),
        Some(p) => object_of(
            seq![("status"@, string_value("Cancelled"@)), ("history"@, history), ("checkpoint_path"@, string_value(p))],
        ),
    }
}

/// `r` is the answer of `agent_resume` to the turn's result `res`.
pub open spec fn resume_answer(res: Result<(Step, Value, SessionStatus), AgentError>, r: Result<Value, String>) -> bool {
    match res {
        Ok((step, history, status)) => r == Ok::<Value, String>(resumed_value(step, history, status)),
        Err(e) => r matches Err(m) && m@ == runtime_error_message(e),
    }
}

/// What `agent_start` does with `input` (see `invoke_start`).
pub open spec fn start_outcome<H>(
    rt0: AgentRuntime,
    rt1: AgentRuntime,
    space: CapabilitySpace<H>,
    input: Value,
    bus: SlotId,
    r: Result<Value, String>,
) -> bool {
            match str_field(input, "goal"@) {
                None => (r matches Err(m) && m@ == "agent_start: expected `goal` string"@) && rt1.sessions@
                    == rt0.sessions@,
                Some(goal) => {
                    let tools = string_list(input, "allowed_tools"@);
                    &&& r is Ok <==> forall|i: int| 0 <= i < tools.len() ==> space.name_taken(#[trigger] tools[i])
                    &&& r matches Err(m) ==> exists|t: String| m@ == #[trigger] runtime_error_message(AgentError::ToolUnknown(t))
                    &&& r matches Ok(v) ==> exists|s: Session|
                        {
                            &&& v == started_value(s.id.0@)
                            &&& s.goal@ == goal
                            &&& s.context == field_or_null(input, "context"@)
                            &&& string_views(s.allowed_tools@) == tools
                            &&& s.limits == limits_from(field_of(input, "limits"@))
                            &&& s.history.steps@.len() == 0
                            &&& s.status == SessionStatus::Running
                            &&& s.step_count == 0
                            &&& s.event_bus_slot_id == bus
                            &&& rt1.sessions@ == #[trigger] stored(rt0.sessions@, s)
                        }
                },
            }
}

/// What `agent_resume` does with `input` (see `invoke_resume`).
pub open spec fn resume_outcome<H>(
    rt0: AgentRuntime,
    rt1: AgentRuntime,
    space0: CapabilitySpace<H>,
    space1: CapabilitySpace<H>,
    input: Value,
    r: Result<Value, String>,
) -> bool {
            match str_field(input, "session_id"@) {
                None => (r matches Err(m) && m@ == "agent_resume: expected `session_id` string"@)
                    && rt1.sessions@ == rt0.sessions@,
                Some(id) => match index_of(rt0.sessions@, id) {
                    None => r is Err && rt1.sessions@ == rt0.sessions@,
                    Some(i) => (r is Err && rt1.sessions@ == rt0.sessions@) || exists|
                        res: Result<(Step, Value, SessionStatus), AgentError>,
                    |
                        {
                            &&& rt1.sessions@ == rt0.sessions@.update(i, rt1.sessions@[i])
                            &&& turn_taken(rt0.sessions@[i], rt1.sessions@[i], space0.slots(), res)
                            &&& #[trigger] resume_answer(res, r)
                        },
                },
            }
}

/// What `agent_cancel` does with `input` (see `invoke_cancel`).
pub open spec fn cancel_outcome<H>(
    rt0: AgentRuntime,
    rt1: AgentRuntime,
    space0: CapabilitySpace<H>,
    space1: CapabilitySpace<H>,
    input: Value,
    r: Result<(Value, SessionCheckpoint, Option<String>), String>,
) -> bool {
            match str_field(input, "session_id"@) {
                None => (r matches Err(m) && m@ == "agent_cancel: expected `session_id` string"@)
                    && rt1.sessions@ == rt0.sessions@ && space1 == space0,
                Some(id) => {
                    let path = match str_field(input, "path"@) {
                        Some(p) => if p.len() > 0 {
                            Some(p)
                        } else {
                            None
                        },
                        None => None,
                    };
                    match index_of(rt0.sessions@, id) {
                        None => (r matches Err(m) && m@ == "agent: "@ + ("unknown session `"@ + id + "`"@))
                            && rt1.sessions@ == rt0.sessions@ && space1 == space0,
                        Some(i) => {
                            let s = rt0.sessions@[i];
                            &&& rt1.sessions@ == rt0.sessions@.remove(i)
                            &&& r matches Ok((v, c, p)) && v == cancelled_value(history_value(s.history.steps@), path)
                                && saves(c, Session { status: SessionStatus::Cancelled, ..s }, s.id) && (
                            match p {
                                Some(q) => path == Some(q@),
                                None => path is None,
                            })
                        },
                    }
                },
            }
}

/// What `agent_plan` answers to `input` (see `invoke_plan`).
pub open spec fn plan_outcome<H>(space0: CapabilitySpace<H>, space1: CapabilitySpace<H>, input: Value, r: Result<Value, String>) -> bool {
    &&& str_field(input, "goal"@) is None ==> (r matches Err(m) && m@ == "agent_plan: expected `goal` string"@)
                && space1 == space0
    &&& r matches Ok(v) ==> exists|t: Seq<char>| v == #[trigger] plan_value(t)
}

impl AgentRuntime {
    /// `agent_start` on a JSON input: `goal` (required), `context`
    /// (null when absent), `allowed_tools` (the strings of the array,
    /// none when absent) and `limits` (see `limits_from`).
    pub fn invoke_start<H>(&mut self, space: &CapabilitySpace<H>, input: &Value, bus: SlotId) -> (r: Result<Value, String>)
        requires
            old(self).wf(),
            space.wf(),
        ensures
            final(self).wf(),
            start_outcome(*old(self), *final(self), *space, *input, bus, r),
    {
        let goal = match json_str_field(input, "goal") {
            None => {
                return Err(String::from_str("agent_start: expected `goal` string"));
            },
            Some(g) => g,
        };
        let context = json_field_or_null(input, "context");
        let allowed_tools = strings_at(input, "allowed_tools");
        let limits_v = json_field(input, "limits");
        let limits = match &limits_v {
            Some(l) => parse_limits(Some(l)),
            None => parse_limits(None),
        };
        let ghost tools_seq = allowed_tools@;
        let ghost g = goal;
        let ghost ctx = context;
        assert(limits == limits_from(field_of(*input, "limits"@)));
        match self.start(space, goal, context, allowed_tools, limits, bus) {
            Err(e) => {
                let m = e.message();
                proof {
                    assert(m@ == runtime_error_message(e));
                    let t = choose|t: String| e == AgentError::ToolUnknown(t);
                    let i = choose|i: int|
                        0 <= i < tools_seq.len() && (#[trigger] tools_seq[i])@ == t@ && !space.name_taken(t@)
                            && forall|j: int| 0 <= j < i ==> space.name_taken((#[trigger] tools_seq[j])@);
                    assert(string_views(tools_seq)[i] == tools_seq[i]@);
                }
                Err(m)
            },
            Ok(id) => {
                let a = str_member("session_id", id.0.clone());
                let inner = vec![str_member("session_id", id.0.clone())];
                proof {
                    assert(member_views(inner@) =~= seq![("session_id"@, string_value(id.0@))]);
                }
                let b = member("profile", json_object(inner));
                let v = object2(a, b);
                proof {
                    let s0 = choose|s0: Session|
                        {
                            &&& s0.id == id
                            &&& fresh_session(s0, g, ctx, tools_seq, limits, bus)
                            &&& self.sessions@ == #[trigger] stored(old(self).sessions@, s0)
                        };
                    assert(v == started_value(s0.id.0@));
                    assert(string_views(s0.allowed_tools@) == string_views(tools_seq));
                    assert forall|i: int| 0 <= i < tools_seq.len() implies space.name_taken(
                        #[trigger] string_views(tools_seq)[i],
                    ) by {
                        assert(space.name_taken(tools_seq[i]@));
                    }
                }
                Ok(v)
            },
        }
    }

    /// `agent_resume` on a JSON input: `session_id` (required) and
    /// `observation` (see `parse_observation`); one turn of the session.
    pub fn invoke_resume<H: Resource>(&mut self, space: &mut CapabilitySpace<H>, input: &Value) -> (r: Result<
        Value,
        String,
    >)
        requires
            old(self).wf(),
            old(space).wf(),
        ensures
            final(self).wf(),
            final(space).wf(),
            resume_outcome(*old(self), *final(self), *old(space), *final(space), *input, r),
    {
        let id = match json_str_field(input, "session_id") {
            None => {
                return Err(String::from_str("agent_resume: expected `session_id` string"));
            },
            Some(id) => id,
        };
        let obs_v = json_field(input, "observation");
        let observation = match &obs_v {
            Some(o) => parse_observation(Some(o)),
            None => parse_observation(None),
        };
        let observation = match observation {
            Err(m) => {
                return Err(m);
            },
            Ok(o) => o,
        };
        let res = self.advance(space, id.as_str(), observation);
        let ghost res0 = res;
        let r = match res {
            Err(e) => Err(e.message()),
            Ok((step, history, status)) => {
                let a = member("step", step_to_value(&step));
                let b = member("history", history);
                let c = str_member("status", String::from_str(status.as_str()));
                let v = object3(a, b, c);
                proof {
                    assert(resumed_value(step, history, status) == v);
                }
                Ok(v)
            },
        };
        proof {
            assert(resume_answer(res0, r));
        }
        r
    }

    /// `agent_plan` on a JSON input: `goal` (required) and `tools` (the
    /// strings of the array, none when absent).
    pub fn invoke_plan<H: Resource>(&self, space: &mut CapabilitySpace<H>, input: &Value) -> (r: Result<Value, String>)
        requires
            old(space).wf(),
        ensures
            final(space).wf(),
            plan_outcome(*old(space), *final(space), *input, r),
    {
        let goal = match json_str_field(input, "goal") {
            None => {
                return Err(String::from_str("agent_plan: expected `goal` string"));
            },
            Some(g) => g,
        };
        let tools = strings_at(input, "tools");
        match self.plan(space, goal.as_str(), tools.as_slice()) {
            Err(e) => Err(e.message()),
            Ok(v) => Ok(v),
        }
    }

    /// `agent_cancel` on a JSON input: `session_id` (required) and an
    /// optional non-empty `path` the session is to be saved to. Returns
    /// the answer, the session's checkpoint and the path; saving the
    /// checkpoint there is the caller's part.
    pub fn invoke_cancel<H>(&mut self, space: &mut CapabilitySpace<H>, input: &Value) -> (r: Result<
        (Value, SessionCheckpoint, Option<String>),
        String,
    >)
        requires
            old(self).wf(),
            old(space).wf(),
        ensures
            final(self).wf(),
            final(space).wf(),
            cancel_outcome(*old(self), *final(self), *old(space), *final(space), *input, r),
    {
        let id = match json_str_field(input, "session_id") {
            None => {
                return Err(String::from_str("agent_cancel: expected `session_id` string"));
            },
            Some(id) => id,
        };
        let path = match json_str_field(input, "path") {
            Some(p) => if p.unicode_len() > 0 {
                Some(p)
            } else {
                None
            },
            None => None,
        };
        proof {
            assert(path matches Some(q) ==> str_field(*input, "path"@) == Some(q@) && q@.len() > 0);
            assert(path is None ==> (str_field(*input, "path"@) is None || str_field(*input, "path"@)->0.len() == 0));
        }
        match self.cancel(space, id.as_str()) {
            Err(e) => {
                let m = e.message();
                proof {
                    assert(m@ == runtime_error_message(e));
                }
                Err(m)
            },
            Ok((history, checkpoint)) => {
                let a = str_member("status", String::from_str("Cancelled"));
                let b = member("history", history);
                let v = match &path {
                    None => object2(a, b),
                    Some(p) => object3(a, b, str_member("checkpoint_path", p.clone())),
                };
                Ok((v, checkpoint, path))
            },
        }
    }
}

/// Read an event pushed to a session's event bus: `kind` is
/// `llm_delta` or `llm_reply_text` (with `text`) or `error` (with
/// `message`); other kinds are refused.
pub fn parse_bus_event(input: &Value) -> (r: Result<AgentEvent, String>)
    ensures
        match str_field(*input, "kind"@) {
            None => r matches Err(m) && m@ == "session_event_bus: missing `kind`"@,
            Some(k) => if k == "llm_delta"@ {
                match str_field(*input, "text"@) {
                    None => r matches Err(m) && m@ == "session_event_bus(llm_delta): missing `text`"@,
                    Some(t) => r matches Ok(AgentEvent::LlmDelta(x)) && x@ == t,
                }
            } else if k == "llm_reply_text"@ {
                match str_field(*input, "text"@) {
                    None => r matches Err(m) && m@ == "session_event_bus(llm_reply_text): missing `text`"@,
                    Some(t) => r matches Ok(AgentEvent::LlmReplyText(x)) && x@ == t,
                }
            } else if k == "error"@ {
                match str_field(*input, "message"@) {
                    None => r matches Err(m) && m@ == "session_event_bus(error): missing `message`"@,
                    Some(t) => r matches Ok(AgentEvent::Error(x)) && x@ == t,
                }
            } else {
                r matches Err(m) && m@ == "session_event_bus: unhandled kind `"@ + k
                    + "` (LLM should only emit llm_delta / llm_reply_text / error)"@
            },
        },
{
    let kind = match json_str_field(input, "kind") {
        None => {
            return Err(String::from_str("session_event_bus: missing `kind`"));
        },
        Some(k) => k,
    };
    if str_eq(kind.as_str(), "llm_delta") {
        match json_str_field(input, "text") {
            None => Err(String::from_str("session_event_bus(llm_delta): missing `text`")),
            Some(t) => Ok(AgentEvent::LlmDelta(t)),
        }
    } else if str_eq(kind.as_str(), "llm_reply_text") {
        match json_str_field(input, "text") {
            None => Err(String::from_str("session_event_bus(llm_reply_text): missing `text`")),
            Some(t) => Ok(AgentEvent::LlmReplyText(t)),
        }
    } else if str_eq(kind.as_str(), "error") {
        match json_str_field(input, "message") {
            None => Err(String::from_str("session_event_bus(error): missing `message`")),
            Some(t) => Ok(AgentEvent::Error(t)),
        }
    } else {
        let mut m = String::from_str("session_event_bus: unhandled kind `");
        m.append(kind.as_str());
        m.append("` (LLM should only emit llm_delta / llm_reply_text / error)");
        Err(m)
    }
}

/// The metadata of a session event bus minted with id `id` at `slot`.
pub open spec fn bus_meta(m: CapabilityMeta, id: CapabilityId, slot: u64) -> bool {
    &&& m.id == id
    &&& m.name@ == "__session_event_bus_"@ + decimal(slot as nat)
    &&& m.namespace@ == "agent_runtime"@
    &&& m.contract_name@ == "session_event_bus"@
    &&& m.plugin.name@ == "agent_runtime"@
    &&& m.plugin.version@ == "0.1.0"@
    &&& m.in_type@.len() == 0
    &&& m.out_type@.len() == 0
    &&& m.kind == CapKind::Sync
    &&& m.timeout_ms == 1000
    &&& m.quota.calls_per_minute == 0 && m.quota.tokens_per_minute == 0 && m.quota.bytes_per_minute == 0
    &&& m.tool_schema is None
}

/// Mint a session's event bus into `space`: a fresh slot holding a sync
/// capability over `handler` with id `id`, registered under
/// `__session_event_bus_` and the slot number, that only permits
/// invocation, under a one-second ceiling. Returns the slot.
pub fn mint_session_event_bus<H>(space: &mut CapabilitySpace<H>, handler: H, id: CapabilityId) -> (r: SlotId)
    requires
        old(space).wf(),
        old(space).next_slot() < u64::MAX,
    ensures
        final(space).wf(),
        r@ == old(space).next_slot() + 1,
        final(space).slots().contains_key(r@),
        ({
            let c = final(space).slots()[r@].cap;
            &&& bus_meta(c.meta, id, r@)
            &&& c.handler == handler
            &&& c.operations.bits == 4
            &&& c.kind == CapKind::Sync
            &&& c.budget.timeout() == 1000
        }),
        forall|k: u64| #[trigger] final(space).slots().contains_key(k) && k != r@ ==> old(space).slots().contains_key(k)
            && final(space).slots()[k].cap == old(space).slots()[k].cap,
{
    let budget = space.new_budget(1000, QuotaSpec::unlimited());
    let slot = space.allocate();
    let mut name = String::from_str("__session_event_bus_");
    push_decimal(&mut name, slot.raw());
    let meta = CapabilityMeta {
        id,
        name,
        namespace: String::from_str("agent_runtime"),
        contract_name: String::from_str("session_event_bus"),
        plugin: PluginId { name: String::from_str("agent_runtime"), version: String::from_str("0.1.0") },
        in_type: String::new(),
        out_type: String::new(),
        kind: CapKind::Sync,
        timeout_ms: 1000,
        quota: QuotaSpec::unlimited(),
        tool_schema: None,
    };
    let cap = Capability { meta, handler, operations: OperationRights::execute(), kind: CapKind::Sync, budget };
    space.install(slot, cap);
    slot
}

/// A turn calls no tool the session does not allow, nor one the space
/// does not hold: whenever acting on a reply ends with a tool result,
/// the tool is allowed and registered.
pub proof fn law_turn_calls_only_allowed_tools<H>(
    s0: Session,
    s1: Session,
    m: Map<u64, Entry<H>>,
    resp: Value,
    step: Step,
    history: Value,
    status: SessionStatus,
)
    requires
        reply_applied(s0, s1, m, resp, Ok((step, history, status))),
        step is ToolResult,
    ensures
        tool_allowed(s0.allowed_tools@, step->ToolResult_0.tool@),
        registered(m, step->ToolResult_0.tool@) is Some,
        status == SessionStatus::AwaitingObservation,
{
}

/// A refused turn publishes nothing: a reply that names a tool the
/// session may not call, or one the space does not hold, leaves the
/// session's events and status as they were.
pub proof fn law_refused_call_publishes_nothing<H>(
    s0: Session,
    s1: Session,
    m: Map<u64, Entry<H>>,
    resp: Value,
    e: AgentError,
)
    requires
        reply_applied(s0, s1, m, resp, Err(e)),
        e is ToolDenied || e is ToolUnknown,
    ensures
        s1.events@ == s0.events@,
        s1.status == s0.status,
{
}

/// What cancel saves, restore brings back: a session restored from the
/// checkpoint of a cancelled session has its id, goal, context, tools,
/// history, status, limits, creation time and step count, and its last
/// turn is no earlier than the saved one.
pub proof fn law_checkpoint_round_trip(s0: Session, c: SessionCheckpoint, s1: Session)
    requires
        saves(c, s0, s0.id),
        saves(c, Session { last_advance_ms: c.last_advance_ms, ..s1 }, s1.id),
        s1.last_advance_ms >= c.last_advance_ms,
    ensures
        s1.id == s0.id,
        s1.goal == s0.goal,
        s1.context == s0.context,
        s1.allowed_tools@ == s0.allowed_tools@,
        s1.history.steps@ == s0.history.steps@,
        s1.status == s0.status,
        s1.limits == s0.limits,
        s1.created_at_ms == s0.created_at_ms,
        s1.step_count == s0.step_count,
        s1.last_advance_ms >= s0.last_advance_ms,
{
}
/// The operations of the agent runtime, each a capability of the
/// `agent_runtime` plugin.
#[derive(Clone, Copy, Debug, PartialEq, Eq, Structural)]
pub enum AgentOp {
    Start,
    Resume,
    Cancel,
    Plan,
    Stream,
    MemoryRecall,
    MemoryRecord,
    Load,
}

/// The operation a capability name asks for.
pub open spec fn agent_op_of(name: Seq<char>) -> Option<AgentOp> {
    if name == "agent_start"@ {
        Some(AgentOp::Start)
    } else if name == "agent_resume"@ {
        Some(AgentOp::Resume)
    } else if name == "agent_cancel"@ {
        Some(AgentOp::Cancel)
    } else if name == "agent_plan"@ {
        Some(AgentOp::Plan)
    } else if name == "agent_stream"@ {
        Some(AgentOp::Stream)
    } else if name == "agent_memory_recall"@ {
        Some(AgentOp::MemoryRecall)
    } else if name == "agent_memory_record"@ {
        Some(AgentOp::MemoryRecord)
    } else if name == "agent_load"@ {
        Some(AgentOp::Load)
    } else {
        None
    }
}

/// The operation the capability `name` asks for, if it is one of the
/// agent runtime's.
pub fn agent_op(name: &str) -> (r: Option<AgentOp>)
    ensures
        r == agent_op_of(name@),
{
    if str_eq(name, "agent_start") {
        Some(AgentOp::Start)
    } else if str_eq(name, "agent_resume") {
        Some(AgentOp::Resume)
    } else if str_eq(name, "agent_cancel") {
        Some(AgentOp::Cancel)
    } else if str_eq(name, "agent_plan") {
        Some(AgentOp::Plan)
    } else if str_eq(name, "agent_stream") {
        Some(AgentOp::Stream)
    } else if str_eq(name, "agent_memory_recall") {
        Some(AgentOp::MemoryRecall)
    } else if str_eq(name, "agent_memory_record") {
        Some(AgentOp::MemoryRecord)
    } else if str_eq(name, "agent_load") {
        Some(AgentOp::Load)
    } else {
        None
    }
}

impl AgentOp {
    /// The operation starts a session, which publishes on an event bus
    /// of its own, minted before the dispatch.
    pub open spec fn needs_bus(self) -> bool {
        self == AgentOp::Start
    }

    pub fn uses_bus(&self) -> (r: bool)
        ensures
            r == self.needs_bus(),
    {
        match self {
            AgentOp::Start => true,
            _ => false,
        }
    }
}

/// What the server does to finish an agent operation.
#[derive(Debug)]
pub enum AgentAction {
    /// Answer with the value.
    Reply(Value),
    /// Answer; the session named in the answer publishes on the bus
    /// minted for it.
    Started { answer: Value, session: Option<String> },
    /// Answer, after handing the session's newly published events to
    /// its subscribers.
    Forward { answer: Value, session: Option<String> },
    /// Answer; the session is gone (its subscribers are dropped), and
    /// its checkpoint is written to `path` when there is one.
    Cancelled { answer: Value, checkpoint: SessionCheckpoint, path: Option<String> },
    /// Read the checkpoint file at `path`, mint the session an event
    /// bus, and `restore` the checkpoint on it.
    Load { path: String },
    /// Open the event stream of the session.
    Subscribe { session: String },
    /// Recall from the embedding store.
    Recall(RecallRequest),
    /// Record into the embedding store.
    Record(RecordRequest),
}

/// `o` is the text `v` holds at `key`, as an optional string.
pub open spec fn str_at(v: Value, key: Seq<char>, o: Option<String>) -> bool {
    match str_field(v, key) {
        Some(t) => o matches Some(x) && x@ == t,
        None => o is None,
    }
}

/// What dispatching `op` on `input` did, from runtime `rt0` and space
/// `space0` to `rt1` and `space1`, with `r`: each operation runs the
/// runtime's entry point for it and turns its answer into the action
/// the server finishes; a session that fails to start gives its bus
/// back (the bus slot is revoked).
pub open spec fn dispatched<H: Resource>(
    rt0: AgentRuntime,
    rt1: AgentRuntime,
    space0: CapabilitySpace<H>,
    space1: CapabilitySpace<H>,
    op: AgentOp,
    input: Value,
    bus: Option<SlotId>,
    r: Result<AgentAction, String>,
) -> bool {
    match op {
        AgentOp::Start => exists|raw: Result<Value, String>|
            #[trigger] start_outcome(rt0, rt1, space0, input, bus->0, raw) && match raw {
                Err(m) => r == Err::<AgentAction, String>(m) && space1.slots() == space0.slots().remove(
                    bus->0@,
                ),
                Ok(v) => r matches Ok(AgentAction::Started { answer, session }) && answer == v && str_at(
                    v,
                    "session_id"@,
                    session,
                ) && space1 == space0,
            },
        AgentOp::Resume => exists|raw: Result<Value, String>|
            #[trigger] resume_outcome(rt0, rt1, space0, space1, input, raw) && match raw {
                Err(m) => r == Err::<AgentAction, String>(m),
                Ok(v) => r matches Ok(AgentAction::Forward { answer, session }) && answer == v && str_at(
                    input,
                    "session_id"@,
                    session,
                ),
            },
        AgentOp::Cancel => exists|raw: Result<(Value, SessionCheckpoint, Option<String>), String>|
            #[trigger] cancel_outcome(rt0, rt1, space0, space1, input, raw) && match raw {
                Err(m) => r == Err::<AgentAction, String>(m),
                Ok((v, c, p)) => r == Ok::<AgentAction, String>(
                    AgentAction::Cancelled { answer: v, checkpoint: c, path: p },
                ),
            },
        AgentOp::Plan => rt1 == rt0 && exists|raw: Result<Value, String>|
            #[trigger] plan_outcome(space0, space1, input, raw) && match raw {
                Err(m) => r == Err::<AgentAction, String>(m),
                Ok(v) => r == Ok::<AgentAction, String>(AgentAction::Reply(v)),
            },
        AgentOp::Load => rt1 == rt0 && space1 == space0 && match str_field(input, "path"@) {
            None => r matches Err(m) && m@ == "agent_load: expected `path` string"@,
            Some(p) => r matches Ok(AgentAction::Load { path }) && path@ == p,
        },
        AgentOp::Stream => rt1 == rt0 && space1 == space0 && match str_field(input, "session_id"@) {
            None => r matches Err(m) && m@ == "agent_stream: expected `session_id` string"@,
            Some(id) => r matches Ok(AgentAction::Subscribe { session }) && session@ == id,
        },
        AgentOp::MemoryRecall => rt1 == rt0 && space1 == space0 && exists|raw: Result<RecallRequest, String>|
            #[trigger] recall_parsed(input, raw) && match raw {
                Err(m) => r == Err::<AgentAction, String>(m),
                Ok(rq) => r == Ok::<AgentAction, String>(AgentAction::Recall(rq)),
            },
        AgentOp::MemoryRecord => rt1 == rt0 && space1 == space0 && exists|raw: Result<RecordRequest, String>|
            #[trigger] record_parsed(input, raw) && match raw {
                Err(m) => r == Err::<AgentAction, String>(m),
                Ok(rq) => r == Ok::<AgentAction, String>(AgentAction::Record(rq)),
            },
    }
}

impl AgentRuntime {
    /// Dispatch the agent operation `op` on `input`. `bus` is the slot
    /// of the event bus minted for the session `Start` starts; a start
    /// that fails revokes it.
    pub fn dispatch<H: Resource>(
        &mut self,
        space: &mut CapabilitySpace<H>,
        op: AgentOp,
        input: &Value,
        bus: Option<SlotId>,
    ) -> (r: Result<AgentAction, String>)
        requires
            old(self).wf(),
            old(space).wf(),
            op.needs_bus() ==> bus is Some,
        ensures
            final(self).wf(),
            final(space).wf(),
            dispatched(*old(self), *final(self), *old(space), *final(space), op, *input, bus, r),
    {
        match op {
            AgentOp::Start => {
                let b = match bus {
                    Some(b) => b,
                    None => {
                        return Err(String::new());
                    },
                };
                let raw = self.invoke_start(space, input, b);
                let ghost graw = raw;
                match raw {
                    Err(m) => {
                        space.revoke(b);
                        proof {
                            assert(start_outcome(*old(self), *self, *old(space), *input, b, graw));
                        }
                        Err(m)
                    },
                    Ok(v) => {
                        let session = json_str_field(&v, "session_id");
                        proof {
                            assert(start_outcome(*old(self), *self, *old(space), *input, b, graw));
                        }
                        Ok(AgentAction::Started { answer: v, session })
                    },
                }
            },
            AgentOp::Resume => {
                let raw = self.invoke_resume(space, input);
                let ghost graw = raw;
                let session = json_str_field(input, "session_id");
                proof {
                    assert(resume_outcome(*old(self), *self, *old(space), *space, *input, graw));
                }
                match raw {
                    Err(m) => Err(m),
                    Ok(v) => Ok(AgentAction::Forward { answer: v, session }),
                }
            },
            AgentOp::Cancel => {
                let raw = self.invoke_cancel(space, input);
                let ghost graw = raw;
                proof {
                    assert(cancel_outcome(*old(self), *self, *old(space), *space, *input, graw));
                }
                match raw {
                    Err(m) => Err(m),
                    Ok((v, c, p)) => Ok(AgentAction::Cancelled { answer: v, checkpoint: c, path: p }),
                }
            },
            AgentOp::Plan => {
                let raw = self.invoke_plan(space, input);
                let ghost graw = raw;
                proof {
                    assert(plan_outcome(*old(space), *space, *input, graw));
                }
                match raw {
                    Err(m) => Err(m),
                    Ok(v) => Ok(AgentAction::Reply(v)),
                }
            },
            AgentOp::Load => {
                match json_str_field(input, "path") {
                    None => Err(String::from_str("agent_load: expected `path` string")),
                    Some(path) => Ok(AgentAction::Load { path }),
                }
            },
            AgentOp::Stream => {
                match json_str_field(input, "session_id") {
                    None => Err(String::from_str("agent_stream: expected `session_id` string")),
                    Some(session) => Ok(AgentAction::Subscribe { session }),
                }
            },
            AgentOp::MemoryRecall => {
                let raw = recall_request(input);
                let ghost graw = raw;
                proof {
                    assert(recall_parsed(*input, graw));
                }
                match raw {
                    Err(m) => Err(m),
                    Ok(rq) => Ok(AgentAction::Recall(rq)),
                }
            },
            AgentOp::MemoryRecord => {
                let raw = record_request(input);
                let ghost graw = raw;
                proof {
                    assert(record_parsed(*input, graw));
                }
                match raw {
                    Err(m) => Err(m),
                    Ok(rq) => Ok(AgentAction::Record(rq)),
                }
            },
        }
    }
}

/// A memory recall: the query, how many hits at most, and the tags a hit
/// must carry.
#[derive(Debug)]
pub struct RecallRequest {
    pub query: String,
    pub top_k: usize,
    pub filter_tags: Vec<String>,
}

/// A memory record: the content and its tags.
#[derive(Debug)]
pub struct RecordRequest {
    pub content: Value,
    pub tags: Vec<String>,
}

/// `r` is what the input of `agent_memory_recall` asks for.
pub open spec fn recall_parsed(input: Value, r: Result<RecallRequest, String>) -> bool {
    match str_field(input, "query"@) {
        None => r matches Err(m) && m@ == "agent_memory_recall: expected `query` string"@,
        Some(q) => r matches Ok(rq) && rq.query@ == q && rq.top_k == (match u64_field(input, "top_k"@) {
            Some(n) => n as usize,
            None => 5usize,
        }) && string_views(rq.filter_tags@) == match field_of(input, "filter"@) {
            Some(f) => string_list(f, "tags"@),
            None => Seq::<Seq<char>>::empty(),
        },
    }
}

/// `r` is what the input of `agent_memory_record` asks for.
pub open spec fn record_parsed(input: Value, r: Result<RecordRequest, String>) -> bool {
    match field_of(input, "content"@) {
        None => r matches Err(m) && m@ == "agent_memory_record: expected `content`"@,
        Some(c) => r matches Ok(rq) && rq.content == c && string_views(rq.tags@) == string_list(input, "tags"@),
    }
}

/// The input of `agent_memory_recall`: `query` (required), `top_k`
/// (5 when absent) and the strings of `filter.tags` (none when absent).
pub fn recall_request(input: &Value) -> (r: Result<RecallRequest, String>)
    ensures
        recall_parsed(*input, r),
{
    let query = match json_str_field(input, "query") {
        None => {
            return Err(String::from_str("agent_memory_recall: expected `query` string"));
        },
        Some(q) => q,
    };
    let top_k: usize = match json_u64_field(input, "top_k") {
        Some(n) => n as usize,
        None => 5,
    };
    let filter_tags = match json_field(input, "filter") {
        Some(f) => strings_at(&f, "tags"),
        None => {
            let v: Vec<String> = Vec::new();
            proof {
                assert(string_views(v@) =~= Seq::<Seq<char>>::empty());
            }
            v
        },
    };
    Ok(RecallRequest { query, top_k, filter_tags })
}

/// The input of `agent_memory_record`: `content` (required) and the
/// strings of `tags` (none when absent).
pub fn record_request(input: &Value) -> (r: Result<RecordRequest, String>)
    ensures
        record_parsed(*input, r),
{
    let content = match json_field(input, "content") {
        None => {
            return Err(String::from_str("agent_memory_record: expected `content`"));
        },
        Some(c) => c,
    };
    let tags = strings_at(input, "tags");
    Ok(RecordRequest { content, tags })
}
} // verus!
