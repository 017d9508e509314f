//! Quota declarations — `QuotaSpec` — and the diagnostic shapes
//! `QuotaKind` / `QuotaSnapshot`. The runtime accounting lives in
//! `kernel::quota`.

use vstd::prelude::*;

verus! {

/// Meet of two per-minute limits where 0 means "unlimited": an
/// unlimited side is the identity, otherwise the smaller limit wins.
pub open spec fn limit_meet(a: int, b: int) -> int {
    if a == 0 {
        b
    } else if b == 0 {
        a
    } else if a <= b {
        a
    } else {
        b
    }
}

/// Limit `a` is at least as strict as limit `b` (0 = unlimited).
pub open spec fn limit_at_most(a: int, b: int) -> bool {
    b == 0 || (a != 0 && a <= b)
}

/// Declarative per-minute rate limits. A field of 0 means unlimited.
#[derive(Clone, Copy, Debug, PartialEq, Eq, Structural)]
pub struct QuotaSpec {
    /// Maximum calls (sync invocations or stream opens) per minute.
    pub calls_per_minute: u32,
    /// Maximum tokens the resource may emit per minute.
    pub tokens_per_minute: u64,
    /// Maximum bytes the resource may emit per minute.
    pub bytes_per_minute: u64,
}

impl Default for QuotaSpec {
    /// The unlimited quota.
    fn default() -> (r: QuotaSpec)
        ensures
            r == (QuotaSpec { calls_per_minute: 0, tokens_per_minute: 0, bytes_per_minute: 0 }),
    {
        QuotaSpec { calls_per_minute: 0, tokens_per_minute: 0, bytes_per_minute: 0 }
    }
}

impl QuotaSpec {
    /// `self` is at least as strict as `other` on every axis.
    pub open spec fn attenuates(self, other: QuotaSpec) -> bool {
        &&& limit_at_most(self.calls_per_minute as int, other.calls_per_minute as int)
        &&& limit_at_most(self.tokens_per_minute as int, other.tokens_per_minute as int)
        &&& limit_at_most(self.bytes_per_minute as int, other.bytes_per_minute as int)
    }

    /// No limit on any axis.
    pub fn unlimited() -> (r: QuotaSpec)
        ensures
            r.calls_per_minute == 0,
            r.tokens_per_minute == 0,
            r.bytes_per_minute == 0,
    {
        QuotaSpec { calls_per_minute: 0, tokens_per_minute: 0, bytes_per_minute: 0 }
    }

    pub fn with_calls_per_minute(self, n: u32) -> (r: QuotaSpec)
        ensures
            r == (QuotaSpec { calls_per_minute: n, ..self }),
    {
        QuotaSpec { calls_per_minute: n, ..self }
    }

    pub fn with_tokens_per_minute(self, n: u64) -> (r: QuotaSpec)
        ensures
            r == (QuotaSpec { tokens_per_minute: n, ..self }),
    {
        QuotaSpec { tokens_per_minute: n, ..self }
    }

    pub fn with_bytes_per_minute(self, n: u64) -> (r: QuotaSpec)
        ensures
            r == (QuotaSpec { bytes_per_minute: n, ..self }),
    {
        QuotaSpec { bytes_per_minute: n, ..self }
    }

    /// A child quota is the intersection of parent and child: you
    /// cannot amplify a quota by deriving.
    pub fn intersect(&self, other: &QuotaSpec) -> (r: QuotaSpec)
        ensures
            r.calls_per_minute == limit_meet(
                self.calls_per_minute as int,
                other.calls_per_minute as int,
            ),
            r.tokens_per_minute == limit_meet(
                self.tokens_per_minute as int,
                other.tokens_per_minute as int,
            ),
            r.bytes_per_minute == limit_meet(
                self.bytes_per_minute as int,
                other.bytes_per_minute as int,
            ),
    {
        QuotaSpec {
            calls_per_minute: meet_u32(self.calls_per_minute, other.calls_per_minute),
            tokens_per_minute: meet_u64(self.tokens_per_minute, other.tokens_per_minute),
            bytes_per_minute: meet_u64(self.bytes_per_minute, other.bytes_per_minute),
        }
    }

    /// True when no axis carries a limit.
    pub fn is_unlimited(&self) -> (r: bool)
        ensures
            r == (self.calls_per_minute == 0 && self.tokens_per_minute == 0
                && self.bytes_per_minute == 0),
    {
        self.calls_per_minute == 0 && self.tokens_per_minute == 0 && self.bytes_per_minute == 0
    }
}

fn meet_u32(a: u32, b: u32) -> (r: u32)
    ensures
        r == limit_meet(a as int, b as int),
{
    if a == 0 {
        b
    } else if b == 0 {
        a
    } else if a <= b {
        a
    } else {
        b
    }
}

fn meet_u64(a: u64, b: u64) -> (r: u64)
    ensures
        r == limit_meet(a as int, b as int),
{
    if a == 0 {
        b
    } else if b == 0 {
        a
    } else if a <= b {
        a
    } else {
        b
    }
}

/// Intersection of quotas attenuates: the result is at least as strict
/// as each side, and any quota at least as strict as both sides is at
/// least as strict as the result (it is the greatest lower bound).
pub proof fn law_quota_intersect_is_meet(a: QuotaSpec, b: QuotaSpec, c: QuotaSpec)
    ensures
        ({
            let m = QuotaSpec {
                calls_per_minute: limit_meet(a.calls_per_minute as int, b.calls_per_minute as int) as u32,
                tokens_per_minute: limit_meet(a.tokens_per_minute as int, b.tokens_per_minute as int) as u64,
                bytes_per_minute: limit_meet(a.bytes_per_minute as int, b.bytes_per_minute as int) as u64,
            };
            &&& m.attenuates(a)
            &&& m.attenuates(b)
            &&& (c.attenuates(a) && c.attenuates(b) ==> c.attenuates(m))
        }),
{
}

/// Intersection of quotas is commutative, associative and idempotent,
/// and the unlimited quota is its identity.
pub proof fn law_quota_intersect_algebra(a: int, b: int, c: int)
    requires
        a >= 0,
        b >= 0,
        c >= 0,
    ensures
        limit_meet(a, b) == limit_meet(b, a),
        limit_meet(limit_meet(a, b), c) == limit_meet(a, limit_meet(b, c)),
        limit_meet(a, a) == a,
        limit_meet(a, 0) == a,
        limit_meet(0, a) == a,
{
}

/// Which quota axis a check exhausted.
#[derive(Clone, Copy, Debug, PartialEq, Eq, Structural)]
pub enum QuotaKind {
    Calls,
    Tokens,
    Bytes,
}

impl QuotaKind {
    /// Lower-case axis name, as shown in error messages.
    pub fn as_str(&self) -> (r: &'static str)
        ensures
            r@ == quota_kind_name(*self),
    {
        proof {
            reveal_strlit("calls");
            reveal_strlit("tokens");
            reveal_strlit("bytes");
        }
        match self {
            QuotaKind::Calls => "calls",
            QuotaKind::Tokens => "tokens",
            QuotaKind::Bytes => "bytes",
        }
    }
}

pub open spec fn quota_kind_name(k: QuotaKind) -> Seq<char> {
    match k {
        QuotaKind::Calls => seq!['c', 'a', 'l', 'l', 's'],
        QuotaKind::Tokens => seq!['t', 'o', 'k', 'e', 'n', 's'],
        QuotaKind::Bytes => seq!['b', 'y', 't', 'e', 's'],
    }
}

/// Usage in the current window, for diagnostics.
#[derive(Clone, Copy, Debug, PartialEq, Eq, Structural)]
pub struct QuotaSnapshot {
    pub calls_used: u32,
    pub tokens_used: u64,
    pub bytes_used: u64,
    /// Last quota exhaustion; cleared on the next successful check.
    pub last_exhausted: Option<QuotaKind>,
}

} // verus!
