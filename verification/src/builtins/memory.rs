//! The agent's memory store: records of JSON content with tags and a
//! creation time, stored by id. A text query keeps the records that
//! carry every asked-for tag and whose content mentions the query, and
//! answers the newest first. A record's embedding, and the ranking by
//! embedding similarity, are kept by the program that serves the store.

use vstd::prelude::*;
use serde_json::Value;
use crate::builtins::calendar::{iso8601, iso8601_text};
use crate::builtins::prompt::string_views;
use crate::builtins::session::now_ms;
use crate::text::{decimal, lex_le, push_decimal, sort_by_text, str_eq};
use crate::types::json::{
    array_of, field_of, is_json_null, json_array, json_field, json_is_null, json_object, json_str_field,
    json_str_items, json_string, json_string_member, json_to_text, json_text, member_views, object_of, str_field,
    str_items, string_member_object, string_value,
};

verus! {

/// One memory record.
#[derive(Debug)]
pub struct Record {
    pub id: String,
    pub content: Value,
    pub tags: Vec<String>,
    /// ISO-8601 creation time.
    pub created_at: String,
}

/// `t` is one of `tags`.
pub open spec fn tagged_with(tags: Seq<String>, t: Seq<char>) -> bool {
    exists|j: int| 0 <= j < tags.len() && (#[trigger] tags[j])@ == t
}

/// `r` carries every tag of `tags`.
pub open spec fn has_all_tags(r: Record, tags: Seq<String>) -> bool {
    forall|i: int| 0 <= i < tags.len() ==> tagged_with(r.tags@, (#[trigger] tags[i])@)
}

/// `q` occurs in `s`.
pub open spec fn occurs_in(s: Seq<char>, q: Seq<char>) -> bool {
    exists|i: int| 0 <= i && i + q.len() <= s.len() && #[trigger] s.subrange(i, i + q.len()) == q
}

/// `r` answers a text query: it carries every tag and, when a query is
/// given, its content's JSON text mentions it.
pub open spec fn answers(r: Record, query: Option<Seq<char>>, tags: Seq<String>) -> bool {
    &&& has_all_tags(r, tags)
    &&& match query {
        Some(q) => occurs_in(json_text(r.content), q),
        None => true,
    }
}

/// Whether `q` occurs in `s`.
pub fn contains_text(s: &str, q: &str) -> (r: bool)
    ensures
        r == occurs_in(s@, q@),
{
    let n = s.unicode_len();
    let m = q.unicode_len();
    if m > n {
        return false;
    }
    if m == 0 {
        proof {
            assert(s@.subrange(0int, 0int + q@.len()) =~= q@);
        }
        return true;
    }
    let mut i: usize = 0;
    while i <= n - m
        invariant
            1 <= m <= n,
            n == s@.len(),
            m == q@.len(),
            forall|j: int| 0 <= j < i ==> #[trigger] s@.subrange(j, j + m) != q@,
        decreases n - m + 1 - i,
    {
        let piece = s.substring_char(i, i + m);
        if str_eq(piece, q) {
            proof {
                assert(s@.subrange(i as int, i + q@.len()) == q@);
            }
            return true;
        }
        i = i + 1;
    }
    proof {
        assert forall|j: int| 0 <= j && j + q@.len() <= s@.len() implies #[trigger] s@.subrange(
            j,
            j + q@.len(),
        ) != q@ by {
            assert(j < i);
        }
    }
    false
}

fn has_tag(tags: &Vec<String>, t: &str) -> (r: bool)
    ensures
        r == tagged_with(tags@, t@),
{
    let mut j: usize = 0;
    while j < tags.len()
        invariant
            j <= tags@.len(),
            forall|k: int| 0 <= k < j ==> (#[trigger] tags@[k])@ != t@,
        decreases tags@.len() - j,
    {
        if str_eq(tags[j].as_str(), t) {
            return true;
        }
        j = j + 1;
    }
    false
}

fn has_all(r: &Record, tags: &[String]) -> (b: bool)
    ensures
        b == has_all_tags(*r, tags@),
{
    let mut i: usize = 0;
    while i < tags.len()
        invariant
            i <= tags@.len(),
            forall|k: int| 0 <= k < i ==> tagged_with(r.tags@, (#[trigger] tags@[k])@),
        decreases tags@.len() - i,
    {
        if !has_tag(&r.tags, tags[i].as_str()) {
            return false;
        }
        i = i + 1;
    }
    true
}

/// The in-memory store: its records, by id, and the count of ids it
/// handed out.
pub struct InMemoryBackend {
    pub records: Vec<Record>,
    pub counter: u64,
}

/// No two records share an id.
pub open spec fn record_ids_distinct(rs: Seq<Record>) -> bool {
    forall|i: int, j: int| 0 <= i < j < rs.len() ==> (#[trigger] rs[i]).id@ != (#[trigger] rs[j]).id@
}

/// The position of the record with id `id`, if any.
pub open spec fn record_index(rs: Seq<Record>, id: Seq<char>) -> Option<int> {
    if exists|i: int| 0 <= i < rs.len() && (#[trigger] rs[i]).id@ == id {
        Some(choose|i: int| 0 <= i < rs.len() && (#[trigger] rs[i]).id@ == id)
    } else {
        None
    }
}

/// `rs` with `r` stored under its id: replacing the record of that id,
/// or added after the others.
pub open spec fn record_stored(rs: Seq<Record>, r: Record) -> Seq<Record> {
    match record_index(rs, r.id@) {
        Some(i) => rs.update(i, r),
        None => rs.push(r),
    }
}

/// The text of an optional query.
pub open spec fn query_view(query: Option<&str>) -> Option<Seq<char>> {
    match query {
        Some(q) => Some(q@),
        None => None,
    }
}

/// `sel` lists, in order, the positions of the records of `rs` that
/// answer the query.
pub open spec fn selection(rs: Seq<Record>, query: Option<Seq<char>>, tags: Seq<String>, sel: Seq<usize>) -> bool {
    &&& forall|i: int, j: int| 0 <= i < j < sel.len() ==> sel[i] < sel[j]
    &&& forall|i: int| 0 <= i < sel.len() ==> sel[i] < rs.len() && answers(rs[sel[i] as int], query, tags)
    &&& forall|k: int| 0 <= k < rs.len() && answers(#[trigger] rs[k], query, tags) ==> sel.contains(k as usize)
}

/// `r` are the hits of a text query over `rs`: positions of records
/// that answer it (`sel` lists them all), newest first, without repeats,
/// as many as answer but at most `top_k` (and at least one when any
/// answers); no record left out is newer than one returned.
pub open spec fn top_hits(rs: Seq<Record>, query: Option<Seq<char>>, tags: Seq<String>, top_k: usize, r: Seq<
    usize,
>) -> bool {
    exists|sel: Seq<usize>| #[trigger] selection(rs, query, tags, sel) && top_hits_with(rs, top_k, r, sel)
}

/// `r` are the newest of the positions `sel`, as many as `sel` holds
/// but at most `top_k` (at least one when `sel` holds any), newest
/// first, without repeats.
pub open spec fn top_hits_with(rs: Seq<Record>, top_k: usize, r: Seq<usize>, sel: Seq<usize>) -> bool {
    &&& r.len() == if sel.len() < (if top_k < 1 { 1 } else { top_k }) {
        sel.len() as int
    } else {
        (if top_k < 1 { 1 } else { top_k }) as int
    }
    &&& forall|i: int| 0 <= i < r.len() ==> sel.contains(#[trigger] r[i])
    &&& forall|i: int, j: int| 0 <= i < j < r.len() ==> r[i] != r[j]
    &&& forall|i: int, j: int|
        0 <= i < j < r.len() ==> lex_le(rs[r[j] as int].created_at@, rs[r[i] as int].created_at@)
    &&& forall|k: usize, i: int|
        sel.contains(k) && !r.contains(k) && 0 <= i < r.len() ==> lex_le(
            #[trigger] rs[k as int].created_at@,
            #[trigger] rs[r[i] as int].created_at@,
        )
}

/// Every hit of a text query is a record that carries every filter tag
/// and whose content's text holds the query, and there are as many hits
/// as such records, up to `max(top_k, 1)`.
pub proof fn law_query_hits_answer(rs: Seq<Record>, q: Seq<char>, tags: Seq<String>, top_k: usize, r: Seq<usize>)
    requires
        top_hits(rs, Some(q), tags, top_k, r),
    ensures
        forall|i: int|
            0 <= i < r.len() ==> r[i] < rs.len() && has_all_tags(#[trigger] rs[r[i] as int], tags) && occurs_in(
                json_text(rs[r[i] as int].content),
                q,
            ),
        r.len() <= (if top_k < 1 { 1 } else { top_k }),
        (exists|k: int| 0 <= k < rs.len() && has_all_tags(#[trigger] rs[k], tags) && occurs_in(json_text(rs[k].content), q))
            ==> r.len() > 0,
{
    let sel = choose|sel: Seq<usize>| #[trigger] selection(rs, Some(q), tags, sel) && top_hits_with(rs, top_k, r, sel);
    assert forall|i: int| 0 <= i < r.len() implies r[i] < rs.len() && has_all_tags(#[trigger] rs[r[i] as int], tags)
        && occurs_in(json_text(rs[r[i] as int].content), q) by {
        assert(sel.contains(r[i]));
        let a = choose|a: int| 0 <= a < sel.len() && sel[a] == r[i];
        assert(answers(rs[sel[a] as int], Some(q), tags));
    }
    if exists|k: int| 0 <= k < rs.len() && has_all_tags(#[trigger] rs[k], tags) && occurs_in(json_text(rs[k].content), q) {
        let k = choose|k: int| 0 <= k < rs.len() && has_all_tags(#[trigger] rs[k], tags) && occurs_in(json_text(rs[k].content), q);
        assert(answers(rs[k], Some(q), tags));
        assert(sel.contains(k as usize));
    }
}

/// A generated record id: `mem_`, the time in milliseconds and `_`
/// and the count of ids handed out.
pub open spec fn generated_id(ts: u64, n: u64) -> Seq<char> {
    "mem_"@ + decimal(ts as nat) + "_"@ + decimal(n as nat)
}

/// The JSON of a record found by a query, with the given score.
pub open spec fn hit_value(r: Record, score: Value) -> Value {
    object_of(
        seq![
            ("id"@, string_value(r.id@)),
            ("content"@, r.content),
            ("tags"@, array_of(r.tags@.map_values(|t: String| string_value(t@)))),
            ("created_at"@, string_value(r.created_at@)),
            ("score"@, score),
        ],
    )
}

/// The answer of a query finding the records at `positions`.
pub open spec fn hits_of(records: Seq<Record>, positions: Seq<usize>, score: Value) -> Value {
    object_of(seq![("hits"@, array_of(positions.map_values(|p: usize| hit_value(records[p as int], score))))])
}

impl InMemoryBackend {
    pub open spec fn wf(&self) -> bool {
        record_ids_distinct(self.records@)
    }

    pub fn new() -> (r: InMemoryBackend)
        ensures
            r.wf(),
            r.records@.len() == 0,
            r.counter == 0,
    {
        InMemoryBackend { records: Vec::new(), counter: 0 }
    }

    fn find(&self, id: &str) -> (r: Option<usize>)
        requires
            self.wf(),
        ensures
            r matches Some(i) ==> i < self.records@.len() && record_index(self.records@, id@) == Some(i as int),
            r is None ==> record_index(self.records@, id@) is None,
    {
        let mut i: usize = 0;
        while i < self.records.len()
            invariant
                self.wf(),
                i <= self.records@.len(),
                forall|j: int| 0 <= j < i ==> (#[trigger] self.records@[j]).id@ != id@,
            decreases self.records@.len() - i,
        {
            if str_eq(self.records[i].id.as_str(), id) {
                proof {
                    let rs = self.records@;
                    let k = choose|k: int| 0 <= k < rs.len() && (#[trigger] rs[k]).id@ == id@;
                    if k < i {
                        assert(rs[k].id@ != rs[i as int].id@);
                    } else if i < k {
                        assert(rs[i as int].id@ != rs[k].id@);
                    }
                }
                return Some(i);
            }
            i = i + 1;
        }
        None
    }

    /// Store `rec`: an empty id becomes `mem_`, the time in milliseconds
    /// since the epoch, `_` and the incremented count of ids handed out;
    /// an empty creation time becomes now. A record of the same id is
    /// replaced. Returns the record's id.
    pub fn insert(&mut self, rec: Record) -> (r: String)
        requires
            old(self).wf(),
            old(self).counter < u64::MAX,
        ensures
            final(self).wf(),
            final(self).counter == old(self).counter + if rec.id@.len() == 0 {
                1int
            } else {
                0int
            },
            exists|s: Record|
                {
                    &&& (rec.id@.len() == 0 ==> exists|ts: u64| s.id@ == #[trigger] generated_id(ts, final(self).counter))
                    &&& (rec.id@.len() > 0 ==> s.id@ == rec.id@)
                    &&& (rec.created_at@.len() == 0 ==> exists|ms: u64| s.created_at@ == #[trigger] iso8601_text(ms))
                    &&& (rec.created_at@.len() > 0 ==> s.created_at@ == rec.created_at@)
                    &&& s.content == rec.content
                    &&& s.tags == rec.tags
                    &&& r@ == s.id@
                    &&& final(self).records@ == #[trigger] record_stored(old(self).records@, s)
                },
    {
        let ghost rec0 = rec;
        let ghost mut gts: u64 = 0;
        let ghost mut gms: u64 = 0;
        let mut rec = rec;
        if rec.id.unicode_len() == 0 {
            self.counter = self.counter + 1;
            let ts = now_ms();
            proof {
                gts = ts;
            }
            let mut id = String::from_str("mem_");
            push_decimal(&mut id, ts);
            id.append("_");
            push_decimal(&mut id, self.counter);
            rec.id = id;
        }
        if rec.created_at.unicode_len() == 0 {
            let ms = now_ms();
            proof {
                gms = ms;
            }
            rec.created_at = iso8601(ms);
        }
        let id = rec.id.clone();
        let ghost s = rec;
        match self.find(rec.id.as_str()) {
            Some(i) => {
                self.records.set(i, rec);
                proof {
                    assert forall|a: int, b: int| 0 <= a < b < self.records@.len() implies (
                    #[trigger] self.records@[a]).id@ != (#[trigger] self.records@[b]).id@ by {
                        assert(old(self).records@[i as int].id@ == s.id@);
                    }
                }
            },
            None => {
                self.records.push(rec);
                proof {
                    assert forall|a: int, b: int| 0 <= a < b < self.records@.len() implies (
                    #[trigger] self.records@[a]).id@ != (#[trigger] self.records@[b]).id@ by {
                        if b == old(self).records@.len() {
                            assert(old(self).records@[a].id@ != s.id@);
                        }
                    }
                }
            },
        }
        proof {
            assert(self.records@ == record_stored(old(self).records@, s));
            if rec0.id@.len() == 0 {
                assert(s.id@ == generated_id(gts, self.counter));
            }
            if rec0.created_at@.len() == 0 {
                assert(s.created_at@ == iso8601_text(gms));
            }
        }
        id
    }

    /// The positions of the records that answer the query, in order.
    pub fn select(&self, query: Option<&str>, filter_tags: &[String]) -> (r: Vec<usize>)
        ensures
            selection(
                self.records@,
                query_view(query),
                filter_tags@,
                r@,
            ),
    {
        let ghost q = query_view(query);
        let mut r: Vec<usize> = Vec::new();
        let mut i: usize = 0;
        while i < self.records.len()
            invariant
                i <= self.records@.len(),
                q == query_view(query),
                forall|a: int, b: int| 0 <= a < b < r@.len() ==> r@[a] < r@[b],
                forall|a: int| 0 <= a < r@.len() ==> r@[a] < i && answers(self.records@[r@[a] as int], q, filter_tags@),
                forall|k: int| 0 <= k < i && answers(#[trigger] self.records@[k], q, filter_tags@) ==> r@.contains(
                    k as usize,
                ),
            decreases self.records@.len() - i,
        {
            let rec = &self.records[i];
            let mut keep = has_all(rec, filter_tags);
            if keep {
                match query {
                    Some(qs) => {
                        let text = json_to_text(&rec.content);
                        keep = contains_text(text.as_str(), qs);
                    },
                    None => {},
                }
            }
            let ghost before = r@;
            if keep {
                r.push(i);
            }
            proof {
                assert(keep == answers(self.records@[i as int], q, filter_tags@));
                assert forall|k: int| 0 <= k < i + 1 && answers(#[trigger] self.records@[k], q, filter_tags@) implies r@.contains(
                    k as usize,
                ) by {
                    if k < i {
                        let a = choose|a: int| 0 <= a < before.len() && before[a] == k as usize;
                        assert(r@[a] == k as usize);
                    } else {
                        assert(r@[r@.len() - 1] == i);
                    }
                }
            }
            i = i + 1;
        }
        r
    }

    /// A text query: the positions of the records that answer it,
    /// newest first, at most `top_k` of them but at least one when any
    /// answers.
    pub fn query(&self, query: Option<&str>, top_k: usize, filter_tags: &[String]) -> (r: Vec<usize>)
        ensures
            top_hits(self.records@, query_view(query), filter_tags@, top_k, r@),
    {
        let sel = self.select(query, filter_tags);
        let mut keys: Vec<String> = Vec::new();
        let mut i: usize = 0;
        while i < sel.len()
            invariant
                i <= sel@.len(),
                keys@.len() == i,
                forall|a: int| 0 <= a < sel@.len() ==> sel@[a] < self.records@.len(),
                forall|a: int| 0 <= a < i ==> (#[trigger] keys@[a])@ == self.records@[sel@[a] as int].created_at@,
            decreases sel@.len() - i,
        {
            keys.push(self.records[sel[i]].created_at.clone());
            i = i + 1;
        }
        let order = sort_by_text(&keys);
        let n = sel.len();
        let limit: usize = if top_k < 1 {
            1
        } else {
            top_k
        };
        let take: usize = if n < limit {
            n
        } else {
            limit
        };
        let mut r: Vec<usize> = Vec::new();
        let mut t: usize = 0;
        while t < take
            invariant
                take <= n,
                n == sel@.len(),
                n == keys@.len(),
                t <= take,
                r@.len() == t,
                crate::text::is_permutation(order@, n as nat),
                forall|a: int| 0 <= a < t ==> r@[a] == sel@[order@[n - 1 - a] as int],
            decreases take - t,
        {
            r.push(sel[order[n - 1 - t]]);
            t = t + 1;
        }
        proof {
            let selq = match query {
                Some(q) => Some(q@),
                None => None::<Seq<char>>,
            };
            assert(selection(self.records@, selq, filter_tags@, sel@));
            assert forall|a: int| 0 <= a < r@.len() implies sel@.contains(#[trigger] r@[a]) by {
                assert(r@[a] == sel@[order@[n - 1 - a] as int]);
            }
            assert forall|a: int, b: int| 0 <= a < b < r@.len() implies r@[a] != r@[b] by {
                assert(order@[n - 1 - a] != order@[n - 1 - b]);
                assert(sel@[order@[n - 1 - a] as int] < sel@[order@[n - 1 - b] as int]
                    || sel@[order@[n - 1 - b] as int] < sel@[order@[n - 1 - a] as int]);
            }
            assert forall|a: int, b: int| 0 <= a < b < r@.len() implies lex_le(
                self.records@[r@[b] as int].created_at@,
                self.records@[r@[a] as int].created_at@,
            ) by {
                assert(keys@[order@[n - 1 - b] as int]@ == self.records@[r@[b] as int].created_at@);
                assert(keys@[order@[n - 1 - a] as int]@ == self.records@[r@[a] as int].created_at@);
            }
            assert forall|k: usize, a: int|
                sel@.contains(k) && !r@.contains(k) && 0 <= a < r@.len() implies lex_le(
                #[trigger] self.records@[k as int].created_at@,
                #[trigger] self.records@[r@[a] as int].created_at@,
            ) by {
                let p = choose|p: int| 0 <= p < sel@.len() && sel@[p] == k;
                assert(order@.contains(p as usize));
                let o = choose|o: int| 0 <= o < order@.len() && order@[o] == p as usize;
                if o > n - 1 - take {
                    let a2 = n - 1 - o;
                    assert(r@[a2] == sel@[order@[o] as int]);
                    assert(r@.contains(k));
                }
                assert(o < n - 1 - a);
                assert(keys@[order@[o] as int]@ == self.records@[k as int].created_at@);
                assert(keys@[order@[n - 1 - a] as int]@ == self.records@[r@[a] as int].created_at@);
            }
        }
        r
    }

    /// The answer of a query: `{"hits": [...]}`, each hit the record's
    /// id, content, tags and creation time, with `score`.
    pub fn hits_value(&self, positions: &Vec<usize>, score: &Value) -> (r: Value)
        requires
            forall|i: int| 0 <= i < positions@.len() ==> positions@[i] < self.records@.len(),
        ensures
            r == hits_of(self.records@, positions@, *score),
    {
        let mut hits: Vec<Value> = Vec::new();
        let mut i: usize = 0;
        while i < positions.len()
            invariant
                i <= positions@.len(),
                forall|a: int| 0 <= a < positions@.len() ==> positions@[a] < self.records@.len(),
                hits@ == positions@.take(i as int).map_values(|p: usize| hit_value(self.records@[p as int], *score)),
            decreases positions@.len() - i,
        {
            let rec = &self.records[positions[i]];
            let mut tags: Vec<Value> = Vec::new();
            let mut k: usize = 0;
            while k < rec.tags.len()
                invariant
                    k <= rec.tags@.len(),
                    tags@ == rec.tags@.take(k as int).map_values(|t: String| string_value(t@)),
                decreases rec.tags@.len() - k,
            {
                tags.push(json_string(rec.tags[k].clone()));
                proof {
                    assert(rec.tags@.take(k + 1).map_values(|t: String| string_value(t@)) =~= rec.tags@.take(
                        k as int,
                    ).map_values(|t: String| string_value(t@)).push(string_value(rec.tags@[k as int]@)));
                }
                k = k + 1;
            }
            proof {
                assert(rec.tags@.take(rec.tags@.len() as int) =~= rec.tags@);
            }
            let tags_v = json_array(tags);
            let ms = vec![
                (String::from_str("id"), json_string(rec.id.clone())),
                (String::from_str("content"), rec.content.clone()),
                (String::from_str("tags"), tags_v),
                (String::from_str("created_at"), json_string(rec.created_at.clone())),
                (String::from_str("score"), score.clone()),
            ];
            proof {
                assert(member_views(ms@) =~= seq![
                    ("id"@, string_value(rec.id@)),
                    ("content"@, rec.content),
                    ("tags"@, array_of(rec.tags@.map_values(|t: String| string_value(t@)))),
                    ("created_at"@, string_value(rec.created_at@)),
                    ("score"@, *score),
                ]);
            }
            let hit = json_object(ms);
            hits.push(hit);
            proof {
                assert(positions@.take(i + 1).map_values(|p: usize| hit_value(self.records@[p as int], *score))
                    =~= positions@.take(i as int).map_values(|p: usize| hit_value(self.records@[p as int], *score)).push(
                    hit_value(self.records@[positions@[i as int] as int], *score),
                ));
            }
            i = i + 1;
        }
        proof {
            assert(positions@.take(positions@.len() as int) =~= positions@);
        }
        let arr = json_array(hits);
        let v = vec![(String::from_str("hits"), arr)];
        proof {
            assert(member_views(v@) =~= seq![("hits"@, arr)]);
        }
        json_object(v)
    }
}

/// A memory query needs a text query or an embedding.
pub fn check_query(query: Option<&str>, has_vector: bool) -> (r: Result<(), String>)
    ensures
        r is Ok <==> (query is Some || has_vector),
        r matches Err(m) ==> m@ == "memory_query: at least one of `query` or `vector` is required"@,
{
    if query.is_none() && !has_vector {
        return Err(String::from_str("memory_query: at least one of `query` or `vector` is required"));
    }
    Ok(())
}

/// The record an insert request describes: `content` (required, not
/// null), the strings of `tags` (none when absent), and `id` and
/// `created_at` (empty when absent, to be filled in by the store).
pub fn insert_request(input: &Value) -> (r: Result<Record, String>)
    ensures
        match field_of(*input, "content"@) {
            None => r matches Err(m) && m@ == "memory_insert: `content` is required and must not be null"@,
            Some(c) => if is_json_null(c) {
                r matches Err(m) && m@ == "memory_insert: `content` is required and must not be null"@
            } else {
                r matches Ok(rec) && rec.content == c && string_views(rec.tags@) == match str_items(
                    *input,
                    "tags"@,
                ) {
                    Some(ts) => ts,
                    None => Seq::<Seq<char>>::empty(),
                } && rec.id@ == match str_field(*input, "id"@) {
                    Some(s) => s,
                    None => Seq::<char>::empty(),
                } && rec.created_at@ == match str_field(*input, "created_at"@) {
                    Some(s) => s,
                    None => Seq::<char>::empty(),
                }
            },
        },
{
    let content = match json_field(input, "content") {
        None => {
            return Err(String::from_str("memory_insert: `content` is required and must not be null"));
        },
        Some(c) => c,
    };
    if json_is_null(&content) {
        return Err(String::from_str("memory_insert: `content` is required and must not be null"));
    }
    let tags = match json_str_items(input, "tags") {
        Some(ts) => {
            proof {
                assert(string_views(ts@) =~= ts@.map_values(|s: String| s@));
            }
            ts
        },
        None => {
            let ts: Vec<String> = Vec::new();
            proof {
                assert(string_views(ts@) =~= Seq::<Seq<char>>::empty());
            }
            ts
        },
    };
    let id = match json_str_field(input, "id") {
        Some(s) => s,
        None => String::new(),
    };
    let created_at = match json_str_field(input, "created_at") {
        Some(s) => s,
        None => String::new(),
    };
    Ok(Record { id, content, tags, created_at })
}


/// Store the record an insert request describes (see `insert_request`)
/// and answer `{"id": id}` with the id it was stored under.
pub fn insert_record(backend: &mut InMemoryBackend, input: &Value) -> (r: Result<Value, String>)
    requires
        old(backend).wf(),
        old(backend).counter < u64::MAX,
    ensures
        final(backend).wf(),
        match field_of(*input, "content"@) {
            None => r is Err && final(backend).records@ == old(backend).records@,
            Some(c) => if is_json_null(c) {
                r is Err && final(backend).records@ == old(backend).records@
            } else {
                exists|s: Record|
                    {
                        &&& s.content == c
                        &&& final(backend).records@ == #[trigger] record_stored(old(backend).records@, s)
                        &&& r == Ok::<Value, String>(string_member_object("id"@, s.id@))
                    }
            },
        },
{
    let rec = match insert_request(input) {
        Err(m) => {
            return Err(m);
        },
        Ok(rec) => rec,
    };
    let id = backend.insert(rec);
    Ok(json_string_member("id", id))
}

/// A text query of the store: refused without a query; otherwise the
/// hits (see `InMemoryBackend::query`), each with `score`.
pub fn query_records(
    backend: &InMemoryBackend,
    query: Option<&str>,
    top_k: usize,
    filter_tags: &[String],
    score: &Value,
) -> (r: Result<Value, String>)
    ensures
        query is None ==> (r matches Err(m) && m@
            == "memory_query: at least one of `query` or `vector` is required"@),
        query is Some ==> exists|positions: Seq<usize>|
            top_hits(backend.records@, query_view(query), filter_tags@, top_k, positions)
                && (forall|i: int| 0 <= i < positions.len() ==> positions[i] < backend.records@.len()) && r
                == Ok::<Value, String>(#[trigger] hits_of(backend.records@, positions, *score)),
{
    match check_query(query, false) {
        Err(m) => {
            return Err(m);
        },
        Ok(()) => {},
    }
    let positions = backend.query(query, top_k, filter_tags);
    proof {
        let sel = choose|sel: Seq<usize>| #[trigger] selection(backend.records@, query_view(query), filter_tags@, sel)
            && forall|i: int| 0 <= i < positions@.len() ==> sel.contains(#[trigger] positions@[i]);
        assert forall|i: int| 0 <= i < positions@.len() implies positions@[i] < backend.records@.len() by {
            assert(sel.contains(positions@[i]));
        }
    }
    Ok(backend.hits_value(&positions, score))
}
} // verus!
