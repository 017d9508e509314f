//! The database builtin: a key-value store behind a backend trait, and
//! the request dispatch of the `database` capability (`op` is `get`,
//! `set` or `delete`).

use vstd::prelude::*;
use serde_json::Value;
use crate::text::str_eq;
use crate::types::json::{
    debug_quoted, debug_str, field_of, json_field, json_ok, json_ok_value, json_str_field, json_text,
    json_to_text, ok_object, ok_value_object, str_field,
};

verus! {

/// A key-value store. `get` reads a key; `set` stores, overwriting;
/// `delete` removes and tells whether something was there.
/// A backend may fail (its error is reported as text); when it
/// succeeds it behaves as a map from keys to values.
pub trait Database {
    /// What the store holds.
    spec fn contents(&self) -> Map<Seq<char>, Value>;

    /// The store answers every call with `Ok` (it has no failure mode,
    /// such as a lost connection or a full disk), and stays so.
    spec fn infallible(&self) -> bool;

    fn get(&self, key: &str) -> (r: Result<Option<Value>, String>)
        ensures
            r matches Ok(o) ==> o == (if self.contents().contains_key(key@) {
                Some(self.contents()[key@])
            } else {
                None
            }),
            self.infallible() ==> r is Ok,
    ;

    fn set(&mut self, key: &str, value: Value) -> (r: Result<(), String>)
        ensures
            r is Ok ==> final(self).contents() == old(self).contents().insert(key@, value),
            old(self).infallible() ==> r is Ok,
            final(self).infallible() == old(self).infallible(),
    ;

    fn delete(&mut self, key: &str) -> (r: Result<bool, String>)
        ensures
            r matches Ok(b) ==> final(self).contents() == old(self).contents().remove(key@) && b
                == old(self).contents().contains_key(key@),
            old(self).infallible() ==> r is Ok,
            final(self).infallible() == old(self).infallible(),
    ;
}

pub open spec fn has_key(s: Seq<(String, Value)>, k: Seq<char>) -> bool {
    exists|i: int| 0 <= i < s.len() && (#[trigger] s[i]).0@ == k
}

pub open spec fn distinct_keys(s: Seq<(String, Value)>) -> bool {
    forall|i: int, j: int|
        0 <= i < s.len() && 0 <= j < s.len() && i != j ==> (#[trigger] s[i]).0@ != (#[trigger] s[j]).0@
}

/// The map a list of entries with distinct keys stands for.
pub open spec fn store_map(s: Seq<(String, Value)>) -> Map<Seq<char>, Value> {
    Map::new(
        |k: Seq<char>| has_key(s, k),
        |k: Seq<char>| s[choose|i: int| 0 <= i < s.len() && (#[trigger] s[i]).0@ == k].1,
    )
}

proof fn lemma_store_at(s: Seq<(String, Value)>, i: int)
    requires
        distinct_keys(s),
        0 <= i < s.len(),
    ensures
        store_map(s).contains_key(s[i].0@),
        store_map(s)[s[i].0@] == s[i].1,
{
    let k = s[i].0@;
    assert(has_key(s, k));
    let j = choose|j: int| 0 <= j < s.len() && (#[trigger] s[j]).0@ == k;
    assert(s[j].0@ == k);
}

proof fn lemma_store_update(s: Seq<(String, Value)>, i: int, e: (String, Value))
    requires
        distinct_keys(s),
        0 <= i < s.len(),
        e.0@ == s[i].0@,
    ensures
        distinct_keys(s.update(i, e)),
        store_map(s.update(i, e)) == store_map(s).insert(e.0@, e.1),
{
    let r = s.update(i, e);
    let k = e.0@;
    assert forall|a: int, b: int|
        0 <= a < r.len() && 0 <= b < r.len() && a != b implies (#[trigger] r[a]).0@ != (#[trigger] r[b]).0@ by {
        assert(r[a].0@ == s[a].0@);
        assert(r[b].0@ == s[b].0@);
    }
    assert forall|x: Seq<char>| #[trigger] store_map(r).contains_key(x) <==> store_map(s).insert(k, e.1).contains_key(x) by {
        if has_key(r, x) {
            let a = choose|a: int| 0 <= a < r.len() && (#[trigger] r[a]).0@ == x;
            assert(s[a].0@ == x);
        }
        if has_key(s, x) {
            let a = choose|a: int| 0 <= a < s.len() && (#[trigger] s[a]).0@ == x;
            assert(r[a].0@ == x);
        }
        if x == k {
            assert(r[i].0@ == x);
        }
    }
    assert forall|x: Seq<char>| #[trigger] store_map(r).contains_key(x) implies store_map(r)[x] == store_map(s).insert(k, e.1)[x] by {
        let a = choose|a: int| 0 <= a < r.len() && (#[trigger] r[a]).0@ == x;
        lemma_store_at(r, a);
        if a != i {
            lemma_store_at(s, a);
        }
    }
    assert(store_map(r) =~= store_map(s).insert(k, e.1));
}

proof fn lemma_store_push(s: Seq<(String, Value)>, e: (String, Value))
    requires
        distinct_keys(s),
        !has_key(s, e.0@),
    ensures
        distinct_keys(s.push(e)),
        store_map(s.push(e)) == store_map(s).insert(e.0@, e.1),
{
    let r = s.push(e);
    let k = e.0@;
    assert forall|a: int, b: int|
        0 <= a < r.len() && 0 <= b < r.len() && a != b implies (#[trigger] r[a]).0@ != (#[trigger] r[b]).0@ by {
        if a < s.len() && b < s.len() {
            assert(r[a] == s[a] && r[b] == s[b]);
        } else if a < s.len() {
            assert(r[a] == s[a]);
        } else if b < s.len() {
            assert(r[b] == s[b]);
        }
    }
    assert forall|x: Seq<char>| #[trigger] store_map(r).contains_key(x) <==> store_map(s).insert(k, e.1).contains_key(x) by {
        if has_key(r, x) {
            let a = choose|a: int| 0 <= a < r.len() && (#[trigger] r[a]).0@ == x;
            if a < s.len() {
                assert(r[a] == s[a]);
            }
        }
        if has_key(s, x) {
            let a = choose|a: int| 0 <= a < s.len() && (#[trigger] s[a]).0@ == x;
            assert(r[a] == s[a]);
        }
        if x == k {
            assert(r[s.len() as int] == e);
        }
    }
    assert forall|x: Seq<char>| #[trigger] store_map(r).contains_key(x) implies store_map(r)[x] == store_map(s).insert(k, e.1)[x] by {
        let a = choose|a: int| 0 <= a < r.len() && (#[trigger] r[a]).0@ == x;
        lemma_store_at(r, a);
        if a < s.len() {
            assert(r[a] == s[a]);
            lemma_store_at(s, a);
        }
    }
    assert(store_map(r) =~= store_map(s).insert(k, e.1));
}

proof fn lemma_store_remove(s: Seq<(String, Value)>, i: int)
    requires
        distinct_keys(s),
        0 <= i < s.len(),
    ensures
        distinct_keys(s.remove(i)),
        store_map(s.remove(i)) == store_map(s).remove(s[i].0@),
{
    let r = s.remove(i);
    let k = s[i].0@;
    assert forall|a: int, b: int|
        0 <= a < r.len() && 0 <= b < r.len() && a != b implies (#[trigger] r[a]).0@ != (#[trigger] r[b]).0@ by {
        let a2 = if a < i { a } else { a + 1 };
        let b2 = if b < i { b } else { b + 1 };
        assert(r[a] == s[a2]);
        assert(r[b] == s[b2]);
    }
    assert forall|x: Seq<char>| #[trigger] store_map(r).contains_key(x) <==> store_map(s).remove(k).contains_key(x) by {
        if has_key(r, x) {
            let a = choose|a: int| 0 <= a < r.len() && (#[trigger] r[a]).0@ == x;
            let a2 = if a < i { a } else { a + 1 };
            assert(r[a] == s[a2]);
            assert(has_key(s, x));
        }
        if has_key(s, x) && x != k {
            let a = choose|a: int| 0 <= a < s.len() && (#[trigger] s[a]).0@ == x;
            let a2 = if a < i { a } else { a - 1 };
            assert(r[a2] == s[a]);
            assert(has_key(r, x));
        }
    }
    assert forall|x: Seq<char>| #[trigger] store_map(r).contains_key(x) implies store_map(r)[x] == store_map(s).remove(k)[x] by {
        let a = choose|a: int| 0 <= a < r.len() && (#[trigger] r[a]).0@ == x;
        let a2 = if a < i { a } else { a + 1 };
        assert(r[a] == s[a2]);
        lemma_store_at(r, a);
        lemma_store_at(s, a2);
    }
    assert(store_map(r) =~= store_map(s).remove(k));
}

/// The in-memory backend: one entry per key.
pub struct InMemoryDatabase {
    store: Vec<(String, Value)>,
}

impl View for InMemoryDatabase {
    type V = Map<Seq<char>, Value>;

    closed spec fn view(&self) -> Map<Seq<char>, Value> {
        store_map(self.store@)
    }
}

impl InMemoryDatabase {
    #[verifier::type_invariant]
    closed spec fn wf(self) -> bool {
        distinct_keys(self.store@)
    }

    /// An empty store.
    pub fn new() -> (r: InMemoryDatabase)
        ensures
            r@ == Map::<Seq<char>, Value>::empty(),
    {
        let r = InMemoryDatabase { store: Vec::new() };
        assert(r@ =~= Map::<Seq<char>, Value>::empty());
        r
    }
}

impl Database for InMemoryDatabase {
    open spec fn contents(&self) -> Map<Seq<char>, Value> {
        self@
    }

    open spec fn infallible(&self) -> bool {
        true
    }

    /// The value stored under `key`, if any. Never fails.
    fn get(&self, key: &str) -> (r: Result<Option<Value>, String>)
        ensures
            r == Ok::<Option<Value>, String>(
                if self@.contains_key(key@) {
                    Some(self@[key@])
                } else {
                    None
                },
            ),
    {
        proof {
            use_type_invariant(self);
        }
        match position_in(&self.store, key) {
            Some(i) => {
                proof {
                    lemma_store_at(self.store@, i as int);
                }
                Ok(Some(self.store[i].1.clone()))
            },
            None => Ok(None),
        }
    }

    /// Store `value` under `key`, replacing what was there. Never fails.
    fn set(&mut self, key: &str, value: Value) -> (r: Result<(), String>)
        ensures
            final(self)@ == old(self)@.insert(key@, value),
            r is Ok,
    {
        proof {
            use_type_invariant(&*self);
        }
        let ghost old_store = self.store@;
        let entry = (String::from_str(key), value);
        let ghost e = entry;
        let mut store = Vec::new();
        std::mem::swap(&mut store, &mut self.store);
        match position_in(&store, key) {
            Some(i) => {
                store.set(i, entry);
                proof {
                    lemma_store_update(old_store, i as int, e);
                }
            },
            None => {
                store.push(entry);
                proof {
                    lemma_store_push(old_store, e);
                }
            },
        }
        self.store = store;
        Ok(())
    }

    /// Remove `key`; whether it was there. Never fails.
    fn delete(&mut self, key: &str) -> (r: Result<bool, String>)
        ensures
            final(self)@ == old(self)@.remove(key@),
            r == Ok::<bool, String>(old(self)@.contains_key(key@)),
    {
        proof {
            use_type_invariant(&*self);
        }
        let ghost old_store = self.store@;
        let mut store = Vec::new();
        std::mem::swap(&mut store, &mut self.store);
        let r = match position_in(&store, key) {
            Some(i) => {
                proof {
                    lemma_store_remove(old_store, i as int);
                    lemma_store_at(old_store, i as int);
                }
                store.remove(i);
                true
            },
            None => {
                proof {
                    assert(store_map(old_store).remove(key@) =~= store_map(old_store));
                }
                false
            },
        };
        self.store = store;
        Ok(r)
    }
}

/// Position of the entry under `key`.
fn position_in(store: &Vec<(String, Value)>, key: &str) -> (r: Option<usize>)
    ensures
        match r {
            Some(i) => i < store@.len() && store@[i as int].0@ == key@,
            None => !has_key(store@, key@),
        },
{
    let mut i: usize = 0;
    while i < store.len()
        invariant
            i <= store@.len(),
            forall|j: int| 0 <= j < i ==> (#[trigger] store@[j]).0@ != key@,
        decreases store@.len() - i,
    {
        if str_eq(store[i].0.as_str(), key) {
            return Some(i);
        }
        i = i + 1;
    }
    None
}

/// A parsed request of the `database` capability.
#[derive(Debug)]
pub enum DbRequest {
    Get { key: String },
    Put { key: String, value: Value },
    Delete { key: String },
}

pub open spec fn usage_message(input: Value) -> Seq<char> {
    "database: expected {\"op\": \"<get|set|delete>\", ...}, got "@ + json_text(input)
}

pub open spec fn get_usage_message(input: Value) -> Seq<char> {
    "database.get: expected {\"op\":\"get\",\"key\":\"<string>\"}, got "@ + json_text(input)
}

pub open spec fn set_usage_message(input: Value) -> Seq<char> {
    "database.set: expected {\"op\":\"set\",\"key\":\"<string>\",\"value\":...}, got "@ + json_text(input)
}

pub open spec fn delete_usage_message(input: Value) -> Seq<char> {
    "database.delete: expected {\"op\":\"delete\",\"key\":\"<string>\"}, got "@ + json_text(input)
}

pub open spec fn unknown_op_message(op: Seq<char>) -> Seq<char> {
    "database: unknown op "@ + debug_quoted(op) + "; expected get|set|delete"@
}

/// `r` is the request `input` asks for, or the error it is refused
/// with: the `op` string picks the operation; `get` and `delete` need
/// a `key` string, `set` a `key` string and a `value`.
pub open spec fn parsed_request(input: Value, r: Result<DbRequest, String>) -> bool {
    match str_field(input, "op"@) {
        None => r matches Err(m) && m@ == usage_message(input),
        Some(op) => if op == "get"@ {
            match str_field(input, "key"@) {
                None => r matches Err(m) && m@ == get_usage_message(input),
                Some(k) => r matches Ok(DbRequest::Get { key }) && key@ == k,
            }
        } else if op == "set"@ {
            match (str_field(input, "key"@), field_of(input, "value"@)) {
                (Some(k), Some(v)) => r matches Ok(DbRequest::Put { key, value }) && key@ == k && value
                    == v,
                _ => r matches Err(m) && m@ == set_usage_message(input),
            }
        } else if op == "delete"@ {
            match str_field(input, "key"@) {
                None => r matches Err(m) && m@ == delete_usage_message(input),
                Some(k) => r matches Ok(DbRequest::Delete { key }) && key@ == k,
            }
        } else {
            r matches Err(m) && m@ == unknown_op_message(op)
        },
    }
}

fn refusal(prefix: &str, input: &Value) -> (r: String)
    ensures
        r@ == prefix@ + json_text(*input),
{
    let mut m = String::from_str(prefix);
    let t = json_to_text(input);
    m.append(t.as_str());
    m
}

/// Parse the JSON input of the `database` capability.
pub fn parse_request(input: &Value) -> (r: Result<DbRequest, String>)
    ensures
        parsed_request(*input, r),
{
    let op = match json_str_field(input, "op") {
        None => {
            return Err(refusal("database: expected {\"op\": \"<get|set|delete>\", ...}, got ", input));
        },
        Some(op) => op,
    };
    if str_eq(op.as_str(), "get") {
        match json_str_field(input, "key") {
            None => Err(
                refusal("database.get: expected {\"op\":\"get\",\"key\":\"<string>\"}, got ", input),
            ),
            Some(key) => Ok(DbRequest::Get { key }),
        }
    } else if str_eq(op.as_str(), "set") {
        let key = json_str_field(input, "key");
        let value = json_field(input, "value");
        match (key, value) {
            (Some(key), Some(value)) => Ok(DbRequest::Put { key, value }),
            _ => Err(
                refusal(
                    "database.set: expected {\"op\":\"set\",\"key\":\"<string>\",\"value\":...}, got ",
                    input,
                ),
            ),
        }
    } else if str_eq(op.as_str(), "delete") {
        match json_str_field(input, "key") {
            None => Err(
                refusal(
                    "database.delete: expected {\"op\":\"delete\",\"key\":\"<string>\"}, got ",
                    input,
                ),
            ),
            Some(key) => Ok(DbRequest::Delete { key }),
        }
    } else {
        let mut m = String::from_str("database: unknown op ");
        let q = debug_str(op.as_str());
        m.append(q.as_str());
        m.append("; expected get|set|delete");
        Err(m)
    }
}

/// The `database` capability over a backend.
pub struct DatabaseResource<D> {
    pub backend: D,
}

impl<D: Database> DatabaseResource<D> {
    pub fn new(backend: D) -> (r: DatabaseResource<D>)
        ensures
            r.backend == backend,
    {
        DatabaseResource { backend }
    }

    /// Serve one request: `get` answers `{"ok": true, "value": v}` or
    /// `{"ok": false}`; `set` and `delete` answer `{"ok": true}`. A
    /// backend error is passed on; a backend without one always answers.
    pub fn handle(&mut self, req: DbRequest) -> (r: Result<Value, String>)
        ensures
            old(self).backend.infallible() ==> r is Ok,
            final(self).backend.infallible() == old(self).backend.infallible(),
            match req {
                DbRequest::Get { key } => final(self).backend.contents() == old(self).backend.contents()
                    && (r is Ok ==> r == Ok::<Value, String>(
                    if old(self).backend.contents().contains_key(key@) {
                        ok_value_object(old(self).backend.contents()[key@])
                    } else {
                        ok_object(false)
                    },
                )),
                DbRequest::Put { key, value } => r is Ok ==> r == Ok::<Value, String>(ok_object(true))
                    && final(self).backend.contents() == old(self).backend.contents().insert(key@, value),
                DbRequest::Delete { key } => r is Ok ==> r == Ok::<Value, String>(ok_object(true))
                    && final(self).backend.contents() == old(self).backend.contents().remove(key@),
            },
    {
        match req {
            DbRequest::Get { key } => {
                match self.backend.get(key.as_str()) {
                    Ok(Some(v)) => Ok(json_ok_value(v)),
                    Ok(None) => Ok(json_ok(false)),
                    Err(e) => Err(e),
                }
            },
            DbRequest::Put { key, value } => {
                match self.backend.set(key.as_str(), value) {
                    Ok(()) => Ok(json_ok(true)),
                    Err(e) => Err(e),
                }
            },
            DbRequest::Delete { key } => {
                match self.backend.delete(key.as_str()) {
                    Ok(_) => Ok(json_ok(true)),
                    Err(e) => Err(e),
                }
            },
        }
    }

    /// Parse and serve the JSON input of the `database` capability. A
    /// well-formed request to a backend without a failure mode is
    /// always answered.
    pub fn invoke(&mut self, input: Value) -> (r: Result<Value, String>)
        ensures
            (exists|req: DbRequest| #[trigger] parsed_request(input, Ok(req)))
                && old(self).backend.infallible() ==> r is Ok,
            final(self).backend.infallible() == old(self).backend.infallible(),
            exists|req: Result<DbRequest, String>|
                #[trigger] parsed_request(input, req) && match req {
                    Err(m) => r == Err::<Value, String>(m) && final(self).backend == old(self).backend,
                    Ok(DbRequest::Get { key }) => final(self).backend.contents()
                        == old(self).backend.contents() && (r is Ok ==> r == Ok::<Value, String>(
                        if old(self).backend.contents().contains_key(key@) {
                            ok_value_object(old(self).backend.contents()[key@])
                        } else {
                            ok_object(false)
                        },
                    )),
                    Ok(DbRequest::Put { key, value }) => r is Ok ==> r == Ok::<Value, String>(
                        ok_object(true),
                    ) && final(self).backend.contents() == old(self).backend.contents().insert(
                        key@,
                        value,
                    ),
                    Ok(DbRequest::Delete { key }) => r is Ok ==> r == Ok::<Value, String>(
                        ok_object(true),
                    ) && final(self).backend.contents() == old(self).backend.contents().remove(key@),
                },
    {
        let req = parse_request(&input);
        let ghost g = req;
        match req {
            Err(m) => Err(m),
            Ok(req) => self.handle(req),
        }
    }
}

/// A write is read back; other keys are untouched; a deleted key reads
/// as absent.
pub proof fn law_database_read_write(m: Map<Seq<char>, Value>, k: Seq<char>, j: Seq<char>, v: Value)
    ensures
        m.insert(k, v).contains_key(k) && m.insert(k, v)[k] == v,
        j != k ==> (m.insert(k, v).contains_key(j) == m.contains_key(j) && (m.contains_key(j)
            ==> m.insert(k, v)[j] == m[j])),
        !m.remove(k).contains_key(k),
        j != k ==> (m.remove(k).contains_key(j) == m.contains_key(j)),
{
}

} // verus!
