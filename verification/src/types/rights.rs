//! Operation rights — the authority bits carried by every capability —
//! and `CapabilityRights`, the attenuation shape used when deriving.

use vstd::prelude::*;
use crate::text::str_eq;

verus! {

/// Per-call operations a capability permits, as a set of bits.
///
/// `READ` = bit 0, `WRITE` = bit 1, `EXECUTE` = bit 2, `ADMIN` = bit 3.
/// Rights can be intersected and checked for inclusion; nothing in the
/// kernel ever widens them.
#[derive(Clone, Copy, Debug, PartialEq, Eq, Hash, Structural)]
pub struct OperationRights {
    pub bits: u32,
}

impl OperationRights {
    /// Read / observe the resource's state.
    pub fn read() -> (r: OperationRights)
        ensures
            r.bits == 1,
    {
        OperationRights { bits: 1 }
    }

    /// Mutate the resource's state.
    pub fn write() -> (r: OperationRights)
        ensures
            r.bits == 2,
    {
        OperationRights { bits: 2 }
    }

    /// Invoke an effect (start a computation, run an actor, ...).
    pub fn execute() -> (r: OperationRights)
        ensures
            r.bits == 4,
    {
        OperationRights { bits: 4 }
    }

    /// Lifecycle authority — re-grant, restrict, revoke.
    pub fn admin() -> (r: OperationRights)
        ensures
            r.bits == 8,
    {
        OperationRights { bits: 8 }
    }

    /// Every bit set; what a root capability is minted with.
    pub fn all() -> (r: OperationRights)
        ensures
            r.bits == 15,
    {
        OperationRights { bits: 15 }
    }

    /// `self ⊇ other` as sets of bits.
    pub open spec fn spec_contains(self, other: OperationRights) -> bool {
        self.bits & other.bits == other.bits
    }

    pub fn bits(&self) -> (r: u32)
        ensures
            r == self.bits,
    {
        self.bits
    }

    /// True when every bit of `other` is also set in `self`.
    pub fn contains(&self, other: OperationRights) -> (r: bool)
        ensures
            r == self.spec_contains(other),
    {
        self.bits & other.bits == other.bits
    }

    /// The bits held by both.
    pub fn intersection(&self, other: OperationRights) -> (r: OperationRights)
        ensures
            r.bits == self.bits & other.bits,
    {
        OperationRights { bits: self.bits & other.bits }
    }

    /// The bits held by either.
    pub fn union(&self, other: OperationRights) -> (r: OperationRights)
        ensures
            r.bits == self.bits | other.bits,
    {
        OperationRights { bits: self.bits | other.bits }
    }
}


impl Default for OperationRights {
    /// Every operation.
    fn default() -> (r: OperationRights)
        ensures
            r.bits == 15,
    {
        OperationRights::all()
    }
}

/// Rights attached to a capability, supplied when deriving a child:
/// the operations the holder may perform and the per-call wall-clock
/// ceiling.
#[derive(Clone, Copy, Debug, PartialEq, Eq, Structural)]
pub struct CapabilityRights {
    pub operations: OperationRights,
    pub timeout_ms: u32,
}

impl Default for CapabilityRights {
    /// Every operation, 5000 ms per call.
    fn default() -> (r: CapabilityRights)
        ensures
            r.operations.bits == 15,
            r.timeout_ms == 5000,
    {
        CapabilityRights { operations: OperationRights::all(), timeout_ms: 5000 }
    }
}

impl CapabilityRights {
    /// `self ⊇ other`: every operation and the whole ceiling of `other`
    /// is also held by `self`.
    pub open spec fn spec_contains(self, other: CapabilityRights) -> bool {
        self.operations.spec_contains(other.operations) && self.timeout_ms >= other.timeout_ms
    }

    /// The largest rights below both.
    pub open spec fn spec_intersect(self, other: CapabilityRights) -> CapabilityRights {
        CapabilityRights {
            operations: OperationRights { bits: self.operations.bits & other.operations.bits },
            timeout_ms: if self.timeout_ms <= other.timeout_ms {
                self.timeout_ms
            } else {
                other.timeout_ms
            },
        }
    }

    /// All authority with the given ceiling — what a root capability
    /// is minted with.
    pub fn root(timeout_ms: u32) -> (r: CapabilityRights)
        ensures
            r.operations.bits == 15,
            r.timeout_ms == timeout_ms,
    {
        CapabilityRights { operations: OperationRights::all(), timeout_ms }
    }

    pub fn with_timeout(self, ms: u32) -> (r: CapabilityRights)
        ensures
            r == (CapabilityRights { timeout_ms: ms, ..self }),
    {
        CapabilityRights { timeout_ms: ms, ..self }
    }

    pub fn with_operations(self, ops: OperationRights) -> (r: CapabilityRights)
        ensures
            r == (CapabilityRights { operations: ops, ..self }),
    {
        CapabilityRights { operations: ops, ..self }
    }

    /// `self ⊇ other`. The capability space refuses to derive a child
    /// whose rights are not contained in its parent's.
    pub fn contains(&self, other: &CapabilityRights) -> (r: bool)
        ensures
            r == self.spec_contains(*other),
    {
        self.operations.contains(other.operations) && self.timeout_ms >= other.timeout_ms
    }

    /// The intersection: the largest rights contained in both.
    pub fn intersect(&self, other: &CapabilityRights) -> (r: CapabilityRights)
        ensures
            r == self.spec_intersect(*other),
    {
        CapabilityRights {
            operations: self.operations.intersection(other.operations),
            timeout_ms: if self.timeout_ms <= other.timeout_ms {
                self.timeout_ms
            } else {
                other.timeout_ms
            },
        }
    }
}

/// Containment of rights is a partial order: reflexive, transitive and
/// antisymmetric.
pub proof fn law_rights_contains_partial_order(a: CapabilityRights, b: CapabilityRights, c: CapabilityRights)
    ensures
        a.spec_contains(a),
        a.spec_contains(b) && b.spec_contains(c) ==> a.spec_contains(c),
        a.spec_contains(b) && b.spec_contains(a) ==> a == b,
{
    let (x, y, z) = (a.operations.bits, b.operations.bits, c.operations.bits);
    assert(x & x == x) by (bit_vector);
    assert((x & y == y && y & z == z) ==> x & z == z) by (bit_vector);
    assert((x & y == y && y & x == x) ==> x == y) by (bit_vector);
}

/// Intersection is the greatest lower bound: it is contained in both
/// sides, and whatever both sides contain, the intersection contains.
pub proof fn law_rights_intersect_is_meet(a: CapabilityRights, b: CapabilityRights, c: CapabilityRights)
    ensures
        a.spec_contains(a.spec_intersect(b)),
        b.spec_contains(a.spec_intersect(b)),
        a.spec_contains(c) && b.spec_contains(c) ==> a.spec_intersect(b).spec_contains(c),
        a.spec_intersect(b) == b.spec_intersect(a),
{
    let (x, y, z) = (a.operations.bits, b.operations.bits, c.operations.bits);
    assert(x & (x & y) == x & y) by (bit_vector);
    assert(y & (x & y) == x & y) by (bit_vector);
    assert((x & z == z && y & z == z) ==> (x & y) & z == z) by (bit_vector);
    assert(x & y == y & x) by (bit_vector);
}

/// Root rights contain exactly the rights whose operations are known
/// bits and whose ceiling does not exceed the root's.
pub proof fn law_root_contains(t: u32, r: CapabilityRights)
    ensures
        (CapabilityRights { operations: OperationRights { bits: 15 }, timeout_ms: t }).spec_contains(r)
            <==> (r.operations.bits & 15 == r.operations.bits && r.timeout_ms <= t),
{
    let x = r.operations.bits;
    assert((15u32 & x == x) <==> (x & 15 == x)) by (bit_vector);
}

/// Translate an action verb (`"READ"`, `"WRITE"`, `"EXECUTE"`,
/// `"ADMIN"`) into its operation bit; `None` for any other verb.
pub fn parse_operation(verb: &str) -> (r: Option<OperationRights>)
    ensures
        r == verb_bit(verb@),
{
    proof {
        reveal_strlit("READ");
        reveal_strlit("WRITE");
        reveal_strlit("EXECUTE");
        reveal_strlit("ADMIN");
        assert("READ"@ =~= seq!['R', 'E', 'A', 'D']);
        assert("WRITE"@ =~= seq!['W', 'R', 'I', 'T', 'E']);
        assert("EXECUTE"@ =~= seq!['E', 'X', 'E', 'C', 'U', 'T', 'E']);
        assert("ADMIN"@ =~= seq!['A', 'D', 'M', 'I', 'N']);
    }
    if str_eq(verb, "READ") {
        Some(OperationRights::read())
    } else if str_eq(verb, "WRITE") {
        Some(OperationRights::write())
    } else if str_eq(verb, "EXECUTE") {
        Some(OperationRights::execute())
    } else if str_eq(verb, "ADMIN") {
        Some(OperationRights::admin())
    } else {
        None
    }
}

/// The operation bit named by a verb.
pub open spec fn verb_bit(v: Seq<char>) -> Option<OperationRights> {
    if v == seq!['R', 'E', 'A', 'D'] {
        Some(OperationRights { bits: 1 })
    } else if v == seq!['W', 'R', 'I', 'T', 'E'] {
        Some(OperationRights { bits: 2 })
    } else if v == seq!['E', 'X', 'E', 'C', 'U', 'T', 'E'] {
        Some(OperationRights { bits: 4 })
    } else if v == seq!['A', 'D', 'M', 'I', 'N'] {
        Some(OperationRights { bits: 8 })
    } else {
        None
    }
}

} // verus!
