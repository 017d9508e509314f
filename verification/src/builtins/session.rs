//! Agent sessions: identifiers, status, limits and the rule that ends
//! a session that ran too long, idled too long or took too many steps.

use vstd::prelude::*;
use crate::text::{decimal, push_decimal};

verus! {

/// Errors of the agent runtime.
#[derive(Debug, PartialEq)]
pub enum AgentError {
    Input(String),
    UnknownSession(String),
    SessionTerminal { id: String, status: String },
    SessionLimit { id: String, limit: String, observed: u32 },
    NoLlm,
    NoMemory,
    ToolDenied { tool: String, reason: &'static str },
    ToolUnknown(String),
    ToolFailed { tool: String, error: String },
    LlmFailed(String),
    MemoryFailed(String),
    SchemaMissing(String),
    Serialization(String),
}

pub open spec fn runtime_error_message(e: AgentError) -> Seq<char> {
    "agent: "@ + match e {
        AgentError::Input(m) => m@,
        AgentError::UnknownSession(id) => "unknown session `"@ + id@ + "`"@,
        AgentError::SessionTerminal { id, status } => "session `"@ + id@ + "` is terminal ("@ + status@
            + ")"@,
        AgentError::SessionLimit { id, limit, observed } => "session `"@ + id@ + "` exceeded "@
            + limit@ + " (observed: "@ + decimal(observed as nat) + ")"@,
        AgentError::NoLlm => "LLM cap not bound"@,
        AgentError::NoMemory => "memory cap not bound"@,
        AgentError::ToolDenied { tool, reason } => "tool `"@ + tool@ + "` denied ("@ + reason@ + ")"@,
        AgentError::ToolUnknown(t) => "tool `"@ + t@ + "` not found in cspace"@,
        AgentError::ToolFailed { tool, error } => "tool `"@ + tool@ + "` failed: "@ + error@,
        AgentError::LlmFailed(m) => "LLM failed: "@ + m@,
        AgentError::MemoryFailed(m) => "memory failed: "@ + m@,
        AgentError::SchemaMissing(t) => "tool `"@ + t@ + "` has no `tool_schema` declared"@,
        AgentError::Serialization(m) => "serialization: "@ + m@,
    }
}

impl AgentError {
    /// The error as text.
    pub fn message(&self) -> (r: String)
        ensures
            r@ == runtime_error_message(*self),
    {
        let mut s = String::from_str("agent: ");
        match self {
            AgentError::Input(m) => {
                s.append(m.as_str());
            },
            AgentError::UnknownSession(id) => {
                s.append("unknown session `");
                s.append(id.as_str());
                s.append("`");
            },
            AgentError::SessionTerminal { id, status } => {
                s.append("session `");
                s.append(id.as_str());
                s.append("` is terminal (");
                s.append(status.as_str());
                s.append(")");
            },
            AgentError::SessionLimit { id, limit, observed } => {
                s.append("session `");
                s.append(id.as_str());
                s.append("` exceeded ");
                s.append(limit.as_str());
                s.append(" (observed: ");
                push_decimal(&mut s, *observed as u64);
                s.append(")");
            },
            AgentError::NoLlm => {
                s.append("LLM cap not bound");
            },
            AgentError::NoMemory => {
                s.append("memory cap not bound");
            },
            AgentError::ToolDenied { tool, reason } => {
                s.append("tool `");
                s.append(tool.as_str());
                s.append("` denied (");
                s.append(reason);
                s.append(")");
            },
            AgentError::ToolUnknown(t) => {
                s.append("tool `");
                s.append(t.as_str());
                s.append("` not found in cspace");
            },
            AgentError::ToolFailed { tool, error } => {
                s.append("tool `");
                s.append(tool.as_str());
                s.append("` failed: ");
                s.append(error.as_str());
            },
            AgentError::LlmFailed(m) => {
                s.append("LLM failed: ");
                s.append(m.as_str());
            },
            AgentError::MemoryFailed(m) => {
                s.append("memory failed: ");
                s.append(m.as_str());
            },
            AgentError::SchemaMissing(t) => {
                s.append("tool `");
                s.append(t.as_str());
                s.append("` has no `tool_schema` declared");
            },
            AgentError::Serialization(m) => {
                s.append("serialization: ");
                s.append(m.as_str());
            },
        }
        proof {
            assert(s@ =~= runtime_error_message(*self));
        }
        s
    }
}

/// `SystemTime::now()` measured from the Unix epoch
/// (`duration_since`), in nanoseconds (`as_nanos`); `None` when the
/// clock reads before the epoch. Nothing is stated of the reading.
#[verifier::external_body]
fn since_epoch_nanos() -> (r: Option<u128>) {
    match std::time::SystemTime::now().duration_since(std::time::UNIX_EPOCH) {
        Ok(d) => Some(d.as_nanos()),
        Err(_) => None,
    }
}

/// `n`, or `u64::MAX` when it does not fit.
pub open spec fn saturated(n: u128) -> u64 {
    if n > u64::MAX as u128 {
        u64::MAX
    } else {
        n as u64
    }
}

/// A wall-clock reading `o` (nanoseconds since the epoch, `None` before
/// it) in units of `per` nanoseconds, rounded down, saturating; 0 before
/// the epoch.
pub open spec fn epoch_reading(o: Option<u128>, per: u128) -> u64 {
    match o {
        Some(n) => saturated(n / per),
        None => 0,
    }
}

fn saturate(n: u128) -> (r: u64)
    ensures
        r == saturated(n),
{
    if n > u64::MAX as u128 {
        u64::MAX
    } else {
        n as u64
    }
}

/// The wall clock in nanoseconds since the Unix epoch, saturating at
/// `u64::MAX`; 0 when the clock reads before the epoch.
fn epoch_nanos() -> (r: u64)
    ensures
        exists|o: Option<u128>| r == #[trigger] epoch_reading(o, 1),
{
    let o = since_epoch_nanos();
    let r = match o {
        Some(n) => saturate(n),
        None => 0,
    };
    proof {
        assert(r == epoch_reading(o, 1));
    }
    r
}

/// The wall clock in milliseconds since the Unix epoch (whole
/// milliseconds, rounded down), saturating at `u64::MAX`; 0 when the
/// clock reads before the epoch.
pub fn now_ms() -> (r: u64)
    ensures
        exists|o: Option<u128>| r == #[trigger] epoch_reading(o, 1_000_000),
{
    let o = since_epoch_nanos();
    let r = match o {
        Some(n) => saturate(n / 1_000_000),
        None => 0,
    };
    proof {
        assert(r == epoch_reading(o, 1_000_000));
    }
    r
}

/// A session identifier: `sess_` and the creation time in nanoseconds.
#[derive(Debug, Clone, PartialEq, Eq, Hash)]
pub struct SessionId(pub String);

impl SessionId {
    /// A fresh identifier from the clock.
    pub fn new() -> (r: SessionId)
        ensures
            exists|n: u64| r.0@ == "sess_"@ + decimal(n as nat),
    {
        let n = epoch_nanos();
        let mut s = String::from_str("sess_");
        push_decimal(&mut s, n);
        SessionId(s)
    }

    pub fn as_str(&self) -> (r: &str)
        ensures
            r@ == self.0@,
    {
        self.0.as_str()
    }
}

/// Where a session stands.
#[derive(Debug, Clone, Copy, PartialEq, Eq, Structural)]
pub enum SessionStatus {
    Running,
    AwaitingObservation,
    Done,
    Failed,
    Cancelled,
}

pub open spec fn status_text(s: SessionStatus) -> Seq<char> {
    match s {
        SessionStatus::Running => "Running"@,
        SessionStatus::AwaitingObservation => "AwaitingObservation"@,
        SessionStatus::Done => "Done"@,
        SessionStatus::Failed => "Failed"@,
        SessionStatus::Cancelled => "Cancelled"@,
    }
}

impl SessionStatus {
    pub fn as_str(&self) -> (r: &'static str)
        ensures
            r@ == status_text(*self),
    {
        match self {
            SessionStatus::Running => "Running",
            SessionStatus::AwaitingObservation => "AwaitingObservation",
            SessionStatus::Done => "Done",
            SessionStatus::Failed => "Failed",
            SessionStatus::Cancelled => "Cancelled",
        }
    }

    /// Done, failed and cancelled sessions take no more steps.
    pub fn is_terminal(&self) -> (r: bool)
        ensures
            r == (*self == SessionStatus::Done || *self == SessionStatus::Failed || *self
                == SessionStatus::Cancelled),
    {
        match self {
            SessionStatus::Done | SessionStatus::Failed | SessionStatus::Cancelled => true,
            _ => false,
        }
    }
}

/// Why a session ended with an answer.
#[derive(Debug, Clone, Copy, PartialEq, Eq, Structural)]
pub enum FinalReason {
    Goal,
    MaxSteps,
    ToolFailure,
}

/// The limits a session runs under.
#[derive(Debug, Clone, Copy, PartialEq, Eq, Structural)]
pub struct SessionLimits {
    pub max_steps: u32,
    pub max_idle_ms: u32,
    pub max_session_ms: u32,
}

impl Default for SessionLimits {
    /// 30 steps, 5 minutes idle, 30 minutes in all.
    fn default() -> (r: SessionLimits)
        ensures
            r.max_steps == 30,
            r.max_idle_ms == 300_000,
            r.max_session_ms == 1_800_000,
    {
        SessionLimits { max_steps: 30, max_idle_ms: 300_000, max_session_ms: 1_800_000 }
    }
}

/// The limit a session hit.
#[derive(Debug, Clone, Copy, PartialEq, Eq, Structural)]
pub enum SessionLimit {
    Steps,
    Idle,
    Wall,
}

pub open spec fn limit_text(l: SessionLimit) -> Seq<char> {
    match l {
        SessionLimit::Steps => "max_steps"@,
        SessionLimit::Idle => "max_idle_ms"@,
        SessionLimit::Wall => "max_session_ms"@,
    }
}

impl SessionLimit {
    pub fn as_str(&self) -> (r: &'static str)
        ensures
            r@ == limit_text(*self),
    {
        match self {
            SessionLimit::Steps => "max_steps",
            SessionLimit::Idle => "max_idle_ms",
            SessionLimit::Wall => "max_session_ms",
        }
    }
}

/// `a - b`, or 0 when `b` is later.
pub open spec fn elapsed_between(a: u64, b: u64) -> u64 {
    if a >= b {
        (a - b) as u64
    } else {
        0
    }
}

/// The limit a session with these counters hits at `now_ms`, checked
/// in the order steps, idle time, lifetime; with the value observed
/// (times in milliseconds, truncated to 32 bits).
pub open spec fn limit_hit(
    limits: SessionLimits,
    step_count: u32,
    created_at_ms: u64,
    last_advance_ms: u64,
    now_ms: u64,
) -> Option<(SessionLimit, u32)> {
    let idle = elapsed_between(now_ms, last_advance_ms);
    let lifetime = elapsed_between(now_ms, created_at_ms);
    if step_count >= limits.max_steps {
        Some((SessionLimit::Steps, step_count))
    } else if idle > limits.max_idle_ms {
        Some((SessionLimit::Idle, idle as u32))
    } else if lifetime > limits.max_session_ms {
        Some((SessionLimit::Wall, lifetime as u32))
    } else {
        None
    }
}

/// `r` is the verdict for a session with these counters at `now_ms`:
/// `Ok` when no limit is hit, else `SessionLimit` naming the limit hit
/// and the value observed.
pub open spec fn verdict_at(
    r: Result<(), AgentError>,
    id: SessionId,
    limits: SessionLimits,
    step_count: u32,
    created_at_ms: u64,
    last_advance_ms: u64,
    now_ms: u64,
) -> bool {
    match limit_hit(limits, step_count, created_at_ms, last_advance_ms, now_ms) {
        None => r is Ok,
        Some((l, obs)) => r matches Err(AgentError::SessionLimit { id: i, limit, observed }) && i@
            == id.0@ && limit@ == limit_text(l) && observed == obs,
    }
}

/// Whether a session may take another step at `now_ms`: refused with
/// `SessionLimit` naming the first limit it hit.
pub fn limits_verdict(
    id: &SessionId,
    limits: &SessionLimits,
    step_count: u32,
    created_at_ms: u64,
    last_advance_ms: u64,
    now_ms: u64,
) -> (r: Result<(), AgentError>)
    ensures
        verdict_at(r, *id, *limits, step_count, created_at_ms, last_advance_ms, now_ms),
{
    if step_count >= limits.max_steps {
        return Err(
            AgentError::SessionLimit {
                id: id.0.clone(),
                limit: String::from_str(SessionLimit::Steps.as_str()),
                observed: step_count,
            },
        );
    }
    let idle = now_ms.saturating_sub(last_advance_ms);
    if idle > limits.max_idle_ms as u64 {
        return Err(
            AgentError::SessionLimit {
                id: id.0.clone(),
                limit: String::from_str(SessionLimit::Idle.as_str()),
                observed: idle as u32,
            },
        );
    }
    let lifetime = now_ms.saturating_sub(created_at_ms);
    if lifetime > limits.max_session_ms as u64 {
        return Err(
            AgentError::SessionLimit {
                id: id.0.clone(),
                limit: String::from_str(SessionLimit::Wall.as_str()),
                observed: lifetime as u32,
            },
        );
    }
    Ok(())
}

/// Whether a session may take another step now.
pub fn check_limits(
    id: &SessionId,
    limits: &SessionLimits,
    step_count: u32,
    created_at_ms: u64,
    last_advance_ms: u64,
) -> (r: Result<(), AgentError>)
    ensures
        step_count >= limits.max_steps ==> (r matches Err(AgentError::SessionLimit { id: i, limit, observed })
            && i@ == id.0@ && limit@ == limit_text(SessionLimit::Steps) && observed == step_count),
        exists|now: u64| #[trigger] verdict_at(r, *id, *limits, step_count, created_at_ms, last_advance_ms, now),
{
    let now = now_ms();
    limits_verdict(id, limits, step_count, created_at_ms, last_advance_ms, now)
}

} // verus!
