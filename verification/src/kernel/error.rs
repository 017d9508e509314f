//! Errors returned by capability operations.

use vstd::prelude::*;
use crate::text::{decimal, hex, push_decimal, push_hex};
use crate::types::ids::{CapKind, SlotId};
use crate::types::quota::QuotaKind;
use crate::types::rights::OperationRights;

verus! {

/// Every way a capability operation refuses.
#[derive(Debug)]
pub enum CapabilityError {
    /// A capability of this name is already installed.
    AlreadyExists(String),
    /// The slot was empty or revoked.
    SlotEmpty(SlotId),
    /// A derivation asked for rights its source does not hold: authority
    /// cannot be amplified.
    AttenuationViolation { from: SlotId, requested: OperationRights, held: OperationRights },
    /// The capability was invoked with an operation it does not hold.
    OperationDenied { name: String, requested: OperationRights, held: OperationRights },
    /// The rate-limit quota is exhausted.
    QuotaExceeded { name: String, kind: QuotaKind },
    /// A sync call on a streaming capability, or a stream opened on a
    /// sync one; `expected` is the kind the call needs.
    KindMismatch { name: String, expected: CapKind },
}

/// Text of a kind mismatch: the capability is not of the kind the call
/// needs.
pub open spec fn kind_mismatch_message(name: Seq<char>, expected: CapKind) -> Seq<char> {
    match expected {
        CapKind::Sync => name + ": not a sync capability"@,
        CapKind::Stream => name + ": not a streaming capability"@,
    }
}

/// Names of the operation bits set in `bits`, lowest bit first.
pub open spec fn flag_names(bits: u32) -> Seq<Seq<char>> {
    (if bits & 1 == 1 { seq!["READ"@] } else { Seq::empty() }) + (if bits & 2 == 2 {
        seq!["WRITE"@]
    } else {
        Seq::empty()
    }) + (if bits & 4 == 4 { seq!["EXECUTE"@] } else { Seq::empty() }) + (if bits & 8 == 8 {
        seq!["ADMIN"@]
    } else {
        Seq::empty()
    })
}

/// `parts` separated by `" | "`.
pub open spec fn bar_joined(parts: Seq<Seq<char>>) -> Seq<char>
    decreases parts.len(),
{
    if parts.len() == 0 {
        Seq::empty()
    } else if parts.len() == 1 {
        parts[0]
    } else {
        bar_joined(parts.drop_last()) + " | "@ + parts.last()
    }
}

/// The `Debug` text of a set of operations: the names of its bits
/// joined with `" | "`, then any unnamed bits in hex, inside
/// `OperationRights(..)`; `OperationRights(0x0)` when empty.
pub open spec fn rights_debug(r: OperationRights) -> Seq<char> {
    let extra = r.bits & 0xffff_fff0;
    let parts = flag_names(r.bits) + if extra != 0 {
        seq!["0x"@ + hex(extra as nat)]
    } else {
        Seq::empty()
    };
    "OperationRights("@ + (if r.bits == 0 {
        "0x0"@
    } else {
        bar_joined(parts)
    }) + ")"@
}

/// The parts of the `Debug` text of a non-empty set of operations: the
/// names of its bits, then its unnamed bits in hex.
fn rights_parts(bits: u32) -> (r: Vec<String>)
    ensures
        r@.map_values(|p: String| p@) == flag_names(bits) + if bits & 0xffff_fff0 != 0 {
            seq!["0x"@ + hex((bits & 0xffff_fff0) as nat)]
        } else {
            Seq::<Seq<char>>::empty()
        },
{
    let mut r: Vec<String> = Vec::new();
    if bits & 1 == 1 {
        r.push(String::from_str("READ"));
    }
    if bits & 2 == 2 {
        r.push(String::from_str("WRITE"));
    }
    if bits & 4 == 4 {
        r.push(String::from_str("EXECUTE"));
    }
    if bits & 8 == 8 {
        r.push(String::from_str("ADMIN"));
    }
    let extra = bits & 0xffff_fff0;
    if extra != 0 {
        let mut h = String::from_str("0x");
        push_hex(&mut h, extra as u64);
        r.push(h);
    }
    proof {
        assert(r@.map_values(|p: String| p@) =~= flag_names(bits) + if extra != 0 {
            seq!["0x"@ + hex(extra as nat)]
        } else {
            Seq::<Seq<char>>::empty()
        });
    }
    r
}

/// Append `parts` separated by `" | "`.
fn push_bar_joined(out: &mut String, parts: &Vec<String>)
    ensures
        final(out)@ == old(out)@ + bar_joined(parts@.map_values(|p: String| p@)),
{
    let ghost o = out@;
    let ghost pv = parts@.map_values(|p: String| p@);
    let mut i: usize = 0;
    while i < parts.len()
        invariant
            i <= parts@.len(),
            pv == parts@.map_values(|p: String| p@),
            out@ == o + bar_joined(pv.take(i as int)),
        decreases parts@.len() - i,
    {
        let ghost before = out@;
        if i > 0 {
            out.append(" | ");
        }
        out.append(parts[i].as_str());
        proof {
            let t = pv.take(i + 1);
            assert(t.drop_last() =~= pv.take(i as int));
            assert(t.last() == parts@[i as int]@);
            if i == 0 {
                assert(pv.take(0) =~= Seq::<Seq<char>>::empty());
                assert(out@ =~= o + t[0]);
            } else {
                assert(out@ =~= o + (bar_joined(pv.take(i as int)) + " | "@ + t.last()));
            }
        }
        i = i + 1;
    }
    proof {
        assert(pv.take(parts@.len() as int) =~= pv);
    }
}

/// Append the `Debug` text of `r`.
pub fn push_rights_debug(out: &mut String, r: OperationRights)
    ensures
        final(out)@ == old(out)@ + rights_debug(r),
{
    let ghost o = out@;
    out.append("OperationRights(");
    if r.bits == 0 {
        out.append("0x0");
    } else {
        let parts = rights_parts(r.bits);
        push_bar_joined(out, &parts);
    }
    out.append(")");
    proof {
        assert(out@ =~= o + rights_debug(r));
    }
}

/// Display text of a capability error.
pub open spec fn capability_error_message(e: CapabilityError) -> Seq<char> {
    match e {
        CapabilityError::AlreadyExists(n) => "capability already installed: "@ + n@,
        CapabilityError::SlotEmpty(s) => "slot "@ + decimal(s@ as nat) + " empty or revoked"@,
        CapabilityError::AttenuationViolation { from, requested, held } => "attenuation violation at slot "@
            + decimal(from@ as nat) + ": requested "@ + rights_debug(requested) + " not subset of "@
            + rights_debug(held),
        CapabilityError::OperationDenied { name, requested, held } => "operation denied for capability \""@
            + name@ + "\": requested "@ + rights_debug(requested) + " not in "@ + rights_debug(held),
        CapabilityError::QuotaExceeded { name, kind } => "quota exhausted for capability \""@ + name@
            + "\": "@ + quota_kind_debug(kind),
        CapabilityError::KindMismatch { name, expected } => kind_mismatch_message(name@, expected),
    }
}

/// The `Debug` text of a quota axis: its variant name.
pub open spec fn quota_kind_debug(k: QuotaKind) -> Seq<char> {
    match k {
        QuotaKind::Calls => "Calls"@,
        QuotaKind::Tokens => "Tokens"@,
        QuotaKind::Bytes => "Bytes"@,
    }
}

impl CapabilityError {
    /// The error as text.
    pub fn message(&self) -> (r: String)
        ensures
            r@ == capability_error_message(*self),
    {
        let mut s = String::new();
        match self {
            CapabilityError::AlreadyExists(n) => {
                s.append("capability already installed: ");
                s.append(n.as_str());
            },
            CapabilityError::SlotEmpty(slot) => {
                s.append("slot ");
                push_decimal(&mut s, slot.raw());
                s.append(" empty or revoked");
            },
            CapabilityError::AttenuationViolation { from, requested, held } => {
                s.append("attenuation violation at slot ");
                push_decimal(&mut s, from.raw());
                s.append(": requested ");
                push_rights_debug(&mut s, *requested);
                s.append(" not subset of ");
                push_rights_debug(&mut s, *held);
            },
            CapabilityError::OperationDenied { name, requested, held } => {
                s.append("operation denied for capability \"");
                s.append(name.as_str());
                s.append("\": requested ");
                push_rights_debug(&mut s, *requested);
                s.append(" not in ");
                push_rights_debug(&mut s, *held);
            },
            CapabilityError::QuotaExceeded { name, kind } => {
                s.append("quota exhausted for capability \"");
                s.append(name.as_str());
                s.append("\": ");
                s.append(
                    match kind {
                        QuotaKind::Calls => "Calls",
                        QuotaKind::Tokens => "Tokens",
                        QuotaKind::Bytes => "Bytes",
                    },
                );
            },
            CapabilityError::KindMismatch { name, expected } => {
                s.append(name.as_str());
                match expected {
                    CapKind::Sync => s.append(": not a sync capability"),
                    CapKind::Stream => s.append(": not a streaming capability"),
                }
            },
        }
        proof {
            assert(s@ =~= capability_error_message(*self));
        }
        s
    }
}

} // verus!
