//! Closed input shapes of the observer capabilities: an object whose
//! only field is a given one, holding a string. An unknown field is
//! refused rather than dropped.

use vstd::prelude::*;
use serde_json::Value;
use crate::text::str_eq;
use crate::types::json::{json_object_keys, json_str_field, object_keys, str_field};

verus! {

/// Some key is not `field`.
pub open spec fn has_other_key(ks: Seq<Seq<char>>, field: Seq<char>) -> bool {
    exists|i: int| 0 <= i < ks.len() && #[trigger] ks[i] != field
}

/// Position of the first key that is not `field`.
pub open spec fn first_other_key(ks: Seq<Seq<char>>, field: Seq<char>) -> int {
    choose|i: int| 0 <= i < ks.len() && ks[i] != field && forall|j: int| 0 <= j < i ==> ks[j] == field
}

/// What an input with keys `keys` (`None` for a non-object) and string
/// `value` at `field` decides: the string, or the refusal.
pub open spec fn closed_field_decision(
    keys: Option<Seq<Seq<char>>>,
    value: Option<Seq<char>>,
    field: Seq<char>,
) -> Result<Seq<char>, Seq<char>> {
    match keys {
        None => Err("expected a JSON object"@),
        Some(ks) => if has_other_key(ks, field) {
            Err("unknown field `"@ + ks[first_other_key(ks, field)] + "`; the only accepted field is `"@ + field
                + "`"@)
        } else {
            match value {
                Some(h) => Ok(h),
                None => Err("expected a `"@ + field + "` string"@),
            }
        },
    }
}

/// The string at `field` of a closed input, or the refusal message.
pub fn closed_field(input: &Value, field: &str) -> (r: Result<String, String>)
    ensures
        match closed_field_decision(object_keys(*input), str_field(*input, field@), field@) {
            Ok(h) => r matches Ok(s) && s@ == h,
            Err(m) => r matches Err(s) && s@ == m,
        },
{
    let keys = json_object_keys(input);
    let value = json_str_field(input, field);
    let ks = match keys {
        None => {
            return Err(String::from_str("expected a JSON object"));
        },
        Some(ks) => ks,
    };
    let ghost kv = ks@.map_values(|k: String| k@);
    let mut i: usize = 0;
    while i < ks.len() && str_eq(ks[i].as_str(), field)
        invariant
            i <= ks@.len(),
            kv == ks@.map_values(|k: String| k@),
            forall|j: int| 0 <= j < i ==> kv[j] == field@,
        decreases ks@.len() - i,
    {
        i = i + 1;
    }
    if i < ks.len() {
        let mut m = String::from_str("unknown field `");
        m.append(ks[i].as_str());
        m.append("`; the only accepted field is `");
        m.append(field);
        m.append("`");
        proof {
            assert(kv[i as int] == ks@[i as int]@);
            assert(0 <= i < kv.len() && kv[i as int] != field@ && forall|j: int| 0 <= j < i ==> kv[j] == field@);
            let c = first_other_key(kv, field@);
            if c < i {
            } else if c > i {
                assert(kv[i as int] == field@);
            }
            assert(c == i);
            assert(has_other_key(kv, field@));
        }
        return Err(m);
    }
    proof {
        assert(!has_other_key(kv, field@));
    }
    match value {
        Some(h) => Ok(h),
        None => {
            let mut m = String::from_str("expected a `");
            m.append(field);
            m.append("` string");
            Err(m)
        },
    }
}

} // verus!
