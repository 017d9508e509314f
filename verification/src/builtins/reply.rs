//! The agent's turn record and the reading of a model's text reply:
//! the JSON protocol `{"tool_call": {"tool": .., "args": ..}}` calls a
//! tool, `{"final": ..}` answers; any other text is a final answer.

use vstd::prelude::*;
use serde_json::Value;
use crate::builtins::session::{runtime_error_message, AgentError, FinalReason, SessionStatus};
use crate::kernel::cspace::{named, CapabilitySpace};
use crate::kernel::resource::Resource;
use crate::text::{str_eq, trim_text, trimmed};
use crate::types::json::{
    field_of, field_or_null, first_item, json_field, json_field_or_null, json_first_item, json_parse, json_str_field, json_string,
    parsed_json, str_field, string_value,
};
use crate::types::rights::OperationRights;

verus! {

/// A tool call: the tool's name and its arguments.
#[derive(Debug)]
pub struct ToolInvocation {
    pub tool: String,
    pub args: Value,
}

/// What a tool call came back with.
#[derive(Debug)]
pub struct ToolResult {
    pub tool: String,
    pub outcome: Result<Value, String>,
}

/// A final answer and why the session ended with it.
#[derive(Debug)]
pub struct FinalAnswer {
    pub value: Value,
    pub reason: FinalReason,
}

/// What the model replied.
#[derive(Debug)]
pub enum LlmReply {
    Text(String),
    ToolCall(ToolInvocation),
    Final(FinalAnswer),
}

/// One step of a session's history.
#[derive(Debug)]
pub enum Step {
    LlmReply(LlmReply),
    ToolCall(ToolInvocation),
    ToolResult(ToolResult),
    Final(FinalAnswer),
}

impl Clone for ToolInvocation {
    fn clone(&self) -> (r: ToolInvocation)
        ensures
            r == *self,
    {
        ToolInvocation { tool: self.tool.clone(), args: self.args.clone() }
    }
}

impl Clone for ToolResult {
    fn clone(&self) -> (r: ToolResult)
        ensures
            r == *self,
    {
        let outcome = match &self.outcome {
            Ok(v) => Ok(v.clone()),
            Err(e) => Err(e.clone()),
        };
        ToolResult { tool: self.tool.clone(), outcome }
    }
}

impl Clone for FinalAnswer {
    fn clone(&self) -> (r: FinalAnswer)
        ensures
            r == *self,
    {
        FinalAnswer { value: self.value.clone(), reason: self.reason }
    }
}

impl Clone for LlmReply {
    fn clone(&self) -> (r: LlmReply)
        ensures
            r == *self,
    {
        match self {
            LlmReply::Text(t) => LlmReply::Text(t.clone()),
            LlmReply::ToolCall(inv) => LlmReply::ToolCall(inv.clone()),
            LlmReply::Final(f) => LlmReply::Final(f.clone()),
        }
    }
}

impl Clone for Step {
    fn clone(&self) -> (r: Step)
        ensures
            r == *self,
    {
        match self {
            Step::LlmReply(l) => Step::LlmReply(l.clone()),
            Step::ToolCall(inv) => Step::ToolCall(inv.clone()),
            Step::ToolResult(tr) => Step::ToolResult(tr.clone()),
            Step::Final(f) => Step::Final(f.clone()),
        }
    }
}

/// A session's steps, oldest first.
#[derive(Debug)]
pub struct History {
    pub steps: Vec<Step>,
}

impl History {
    pub fn new() -> (r: History)
        ensures
            r.steps@.len() == 0,
    {
        History { steps: Vec::new() }
    }

    pub fn push(&mut self, step: Step)
        ensures
            final(self).steps@ == old(self).steps@.push(step),
    {
        self.steps.push(step);
    }
}

/// How a reply reads: a tool call (the tool, if named, and the
/// arguments), a JSON final answer, or plain text.
pub enum ReplyShape {
    Call(Option<Seq<char>>, Value),
    Answer(Value),
    Plain,
}

/// The shape of the reply `text`: trimmed, it must begin with `{` and
/// parse as JSON to be more than plain text.
pub open spec fn reply_shape(text: Seq<char>) -> ReplyShape {
    let t = trimmed(text);
    if t.len() > 0 && t[0] == '{' && parsed_json(t) is Some {
        let v = parsed_json(t)->0;
        match field_of(v, "tool_call"@) {
            Some(tc) => ReplyShape::Call(str_field(tc, "tool"@), field_or_null(tc, "args"@)),
            None => match field_of(v, "final"@) {
                Some(f) => ReplyShape::Answer(f),
                None => ReplyShape::Plain,
            },
        }
    } else {
        ReplyShape::Plain
    }
}

/// The text of a tool failure.
pub open spec fn tool_failure_text(tool: String, error: String) -> Seq<char> {
    runtime_error_message(AgentError::ToolFailed { tool, error })
}

/// `outcome` is what a tool call records of the capability's answer
/// `raw`: the value, or the failure text naming the tool.
pub open spec fn tool_outcome(tool: String, raw: Result<Value, String>, outcome: Result<Value, String>) -> bool {
    match raw {
        Ok(v) => outcome == Ok::<Value, String>(v),
        Err(e) => outcome matches Err(m) && m@ == tool_failure_text(tool, e),
    }
}

/// `tools` is empty or names `tool`.
pub open spec fn tool_allowed(tools: Seq<String>, tool: Seq<char>) -> bool {
    tools.len() == 0 || exists|i: int| 0 <= i < tools.len() && (#[trigger] tools[i])@ == tool
}

pub(crate) fn allowed(tools: &[String], tool: &str) -> (r: bool)
    ensures
        r == tool_allowed(tools@, tool@),
{
    if tools.len() == 0 {
        return true;
    }
    let mut i: usize = 0;
    while i < tools.len()
        invariant
            i <= tools@.len(),
            forall|j: int| 0 <= j < i ==> (#[trigger] tools@[j])@ != tool@,
        decreases tools@.len() - i,
    {
        if str_eq(tools[i].as_str(), tool) {
            return true;
        }
        i = i + 1;
    }
    false
}

fn answer(history: &mut History, value: Value) -> (r: Result<(Step, SessionStatus), AgentError>)
    ensures
        final(history).steps@ == old(history).steps@.push(
            Step::Final(FinalAnswer { value, reason: FinalReason::Goal }),
        ),
        r == Ok::<(Step, SessionStatus), AgentError>(
            (Step::Final(FinalAnswer { value, reason: FinalReason::Goal }), SessionStatus::Done),
        ),
{
    let v2 = value.clone();
    history.push(Step::Final(FinalAnswer { value: v2, reason: FinalReason::Goal }));
    Ok((Step::Final(FinalAnswer { value, reason: FinalReason::Goal }), SessionStatus::Done))
}

/// Read a text reply of the model and act on it: call the tool it
/// names (when the session allows it and the space holds it), or
/// record its final answer. Tool calls and answers are appended to
/// `history`.
pub fn parse_llm_reply<H: Resource>(
    text: &str,
    history: &mut History,
    allowed_tools: &[String],
    cspace: &mut CapabilitySpace<H>,
) -> (r: Result<(Step, SessionStatus), AgentError>)
    requires
        old(cspace).wf(),
    ensures
        final(cspace).wf(),
        final(cspace).slots() == old(cspace).slots(),
        match reply_shape(text@) {
            ReplyShape::Plain => r == Ok::<(Step, SessionStatus), AgentError>(
                (Step::Final(FinalAnswer { value: string_value(text@), reason: FinalReason::Goal }), SessionStatus::Done),
            ) && final(history).steps@ == old(history).steps@.push(
                Step::Final(FinalAnswer { value: string_value(text@), reason: FinalReason::Goal }),
            ) && *final(cspace) == *old(cspace),
            ReplyShape::Answer(v) => r == Ok::<(Step, SessionStatus), AgentError>(
                (Step::Final(FinalAnswer { value: v, reason: FinalReason::Goal }), SessionStatus::Done),
            ) && final(history).steps@ == old(history).steps@.push(
                Step::Final(FinalAnswer { value: v, reason: FinalReason::Goal }),
            ) && *final(cspace) == *old(cspace),
            ReplyShape::Call(None, _) => (r matches Err(AgentError::LlmFailed(m)) && m@
                == "tool_call missing `tool`"@) && final(history).steps@ == old(history).steps@
                && *final(cspace) == *old(cspace),
            ReplyShape::Call(Some(tool), args) => if !tool_allowed(allowed_tools@, tool) {
                (r matches Err(AgentError::ToolDenied { tool: t, reason }) && t@ == tool && reason@
                    == "not in allowed_tools"@) && final(history).steps@ == old(history).steps@
                    && *final(cspace) == *old(cspace)
            } else if !old(cspace).name_taken(tool) {
                (r matches Err(AgentError::ToolUnknown(t)) && t@ == tool) && final(history).steps@
                    == old(history).steps@ && *final(cspace) == *old(cspace)
            } else {
                r matches Ok((Step::ToolResult(tr), SessionStatus::AwaitingObservation)) && tr.tool@
                    == tool && final(history).steps@.len() == old(history).steps@.len() + 2
                    && final(history).steps@.take(old(history).steps@.len() as int) == old(
                    history,
                ).steps@ && (final(history).steps@[old(history).steps@.len() as int] matches Step::ToolCall(
                    inv,
                ) && inv.tool@ == tool && inv.args == args) && final(history).steps@[old(history).steps@.len() + 1int]
                    == Step::ToolResult(tr) && exists|k: u64, raw: Result<Value, String>|
                    old(cspace).slots().contains_key(k) && named(old(cspace).slots()[k], tool)
                        && #[trigger] final(cspace).sync_call(
                        old(cspace),
                        k,
                        OperationRights { bits: 4 },
                        args,
                        raw,
                    ) && final(cspace).only_budget_changed(old(cspace), k) && tool_outcome(
                        tr.tool,
                        raw,
                        tr.outcome,
                    )
            },
        },
{
    let t = trim_text(text);
    let ts = t.as_str();
    let mut parsed: Option<Value> = None;
    if ts.unicode_len() > 0 && ts.get_char(0) == '{' {
        parsed = json_parse(ts);
    }
    if let Some(v) = parsed {
        if let Some(tc) = json_field(&v, "tool_call") {
            let tool = match json_str_field(&tc, "tool") {
                None => {
                    return Err(AgentError::LlmFailed(String::from_str("tool_call missing `tool`")));
                },
                Some(tool) => tool,
            };
            let args = json_field_or_null(&tc, "args");
            if !allowed(allowed_tools, tool.as_str()) {
                return Err(AgentError::ToolDenied { tool, reason: "not in allowed_tools" });
            }
            let slot = match cspace.slot_by_name(tool.as_str()) {
                None => {
                    return Err(AgentError::ToolUnknown(tool));
                },
                Some(s) => s,
            };
            let raw = cspace.invoke_op(slot, OperationRights::execute(), args.clone());
            let ghost graw = raw;
            let outcome = match raw {
                Ok(v) => Ok(v),
                Err(e) => {
                    let m = AgentError::ToolFailed { tool: tool.clone(), error: e }.message();
                    proof {
                        assert(m@ == tool_failure_text(tool, e));
                    }
                    Err(m)
                },
            };
            let outcome2 = match &outcome {
                Ok(v) => Ok(v.clone()),
                Err(e) => Err(e.clone()),
            };
            let ghost h0 = history.steps@;
            let ghost a = args;
            history.push(Step::ToolCall(ToolInvocation { tool: tool.clone(), args }));
            history.push(Step::ToolResult(ToolResult { tool: tool.clone(), outcome: outcome2 }));
            proof {
                assert(history.steps@.take(h0.len() as int) =~= h0);
                assert(history.steps@[h0.len() as int] == Step::ToolCall(ToolInvocation { tool: tool, args: a }));
                assert(history.steps@[h0.len() + 1int] == Step::ToolResult(ToolResult { tool, outcome }));
                assert(old(cspace).slots().contains_key(slot@) && named(old(cspace).slots()[slot@], tool@));
                assert(cspace.sync_call(old(cspace), slot@, OperationRights { bits: 4 }, a, graw));
                assert(cspace.only_budget_changed(old(cspace), slot@));
                assert(tool_outcome(tool, graw, outcome));
                assert(reply_shape(text@) matches ReplyShape::Call(Some(tn), sa) && tn == tool@ && sa == a);
            }
            return Ok((Step::ToolResult(ToolResult { tool, outcome }), SessionStatus::AwaitingObservation));
        }
        if let Some(f) = json_field(&v, "final") {
            return answer(history, f);
        }
    }
    answer(history, json_string(String::from_str(text)))
}

/// The first tool call of a native tool-calling reply: the first item
/// of `tool_calls`, when it names a tool; its `arguments`, or `null`.
pub fn first_native_tool_call(llm_resp: &Value) -> (r: Option<ToolInvocation>)
    ensures
        match first_item(*llm_resp, "tool_calls"@) {
            None => r is None,
            Some(tc) => match str_field(tc, "name"@) {
                None => r is None,
                Some(n) => r matches Some(inv) && inv.tool@ == n && inv.args == field_or_null(
                    tc,
                    "arguments"@,
                ),
            },
        },
{
    let tc = match json_first_item(llm_resp, "tool_calls") {
        None => {
            return None;
        },
        Some(tc) => tc,
    };
    let name = match json_str_field(&tc, "name") {
        None => {
            return None;
        },
        Some(n) => n,
    };
    let arguments = json_field_or_null(&tc, "arguments");
    Some(ToolInvocation { tool: name, args: arguments })
}

} // verus!
