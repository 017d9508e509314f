//! Model stubs and the small text capabilities: the generator and
//! reranker backends with their stub implementations, and the echo
//! and reverse resources.

use vstd::prelude::*;
use vstd::string::StringSliceAdditionalSpecFns;
use serde_json::Value;
use crate::kernel::resource::Resource;
use crate::text::{decimal, push_decimal};
use crate::kernel::resource::CapabilityChunk;
use crate::types::json::{
    json_text_index, json_u64_field, text_index_object, u64_field,
    json_order, json_str_field, json_str_items, json_string_member, json_text, json_to_text,
    order_object, str_field, str_items, string_member_object,
};

verus! {

/// A text-completion backend.
pub trait Generator {
    fn complete(&self, prompt: &str) -> (r: Result<String, String>);
}

/// A stub completion: `[stub generator] prompt len=` and the prompt's
/// length in UTF-8 bytes.
pub struct StubGenerator;

impl Generator for StubGenerator {
    fn complete(&self, prompt: &str) -> (r: Result<String, String>)
        ensures
            r matches Ok(s) && s@ == "[stub generator] prompt len="@ + decimal(
                (prompt.spec_bytes().len() as usize) as nat,
            ),
    {
        let mut s = String::from_str("[stub generator] prompt len=");
        push_decimal(&mut s, prompt.len() as u64);
        Ok(s)
    }
}

/// The `generator` capability over a backend: `{"prompt": p}` answers
/// `{"text": completion}`.
pub struct GeneratorResource<G> {
    pub backend: G,
}

impl<G: Generator> Resource for GeneratorResource<G> {
    fn invoke(&self, input: Value) -> (r: Result<Value, String>)
        ensures
            match str_field(input, "prompt"@) {
                None => r matches Err(m) && m@ == "generator: expected {\"prompt\": \"<string>\"}, got "@
                    + json_text(input),
                Some(p) => exists|s: &str, res: Result<String, String>|
                    s@ == p && #[trigger] call_ensures(G::complete, (&self.backend, s), res) && match res {
                        Ok(t) => r == Ok::<Value, String>(string_member_object("text"@, t@)),
                        Err(e) => r == Err::<Value, String>(e),
                    },
            },
    {
        let prompt = match json_str_field(&input, "prompt") {
            None => {
                let mut m = String::from_str("generator: expected {\"prompt\": \"<string>\"}, got ");
                let t = json_to_text(&input);
                m.append(t.as_str());
                return Err(m);
            },
            Some(p) => p,
        };
        let ps = prompt.as_str();
        let res = self.backend.complete(ps);
        let ghost gres = res;
        proof {
            assert(call_ensures(G::complete, (&self.backend, ps), gres));
        }
        match res {
            Ok(text) => Ok(json_string_member("text", text)),
            Err(e) => Err(e),
        }
    }
}

/// A ranking backend: indices into the candidates, most relevant
/// first.
pub trait Reranker {
    fn rerank(&self, query: &str, candidates: Vec<String>) -> (r: Result<Vec<usize>, String>);
}

/// A stub ranking: the input order.
pub struct StubReranker;

impl Reranker for StubReranker {
    fn rerank(&self, query: &str, candidates: Vec<String>) -> (r: Result<Vec<usize>, String>)
        ensures
            r matches Ok(order) && order@ == Seq::new(candidates@.len(), |i: int| i as usize),
    {
        let n = candidates.len();
        let mut order: Vec<usize> = Vec::new();
        let mut i: usize = 0;
        while i < n
            invariant
                i <= n,
                n == candidates@.len(),
                order@ == Seq::new(i as nat, |j: int| j as usize),
            decreases n - i,
        {
            order.push(i);
            proof {
                assert(order@ =~= Seq::new((i + 1) as nat, |j: int| j as usize));
            }
            i = i + 1;
        }
        Ok(order)
    }
}

/// The `reranker` capability over a backend: `{"query": q,
/// "candidates": [...]}` answers `{"order": [...]}`; non-string
/// candidates are skipped.
pub struct RerankerResource<R> {
    pub backend: R,
}

pub open spec fn reranker_usage(input: Value) -> Seq<char> {
    "reranker: expected {\"query\": \"<string>\", \"candidates\": [...]}, got "@ + json_text(input)
}

impl<R: Reranker> Resource for RerankerResource<R> {
    fn invoke(&self, input: Value) -> (r: Result<Value, String>)
        ensures
            match (str_field(input, "query"@), str_items(input, "candidates"@)) {
                (Some(q), Some(c)) => exists|qs: &str, cs: Vec<String>, res: Result<Vec<usize>, String>|
                    qs@ == q && cs@.map_values(|x: String| x@) == c && #[trigger] call_ensures(
                        R::rerank,
                        (&self.backend, qs, cs),
                        res,
                    ) && match res {
                        Ok(order) => r == Ok::<Value, String>(order_object(order@)),
                        Err(e) => r == Err::<Value, String>(e),
                    },
                _ => r matches Err(m) && m@ == reranker_usage(input),
            },
    {
        let query = json_str_field(&input, "query");
        let items = json_str_items(&input, "candidates");
        match (query, items) {
            (Some(q), Some(c)) => {
                let ghost gc = c;
                let qs = q.as_str();
                let res = self.backend.rerank(qs, c);
                let ghost gres = res;
                proof {
                    assert(call_ensures(R::rerank, (&self.backend, qs, gc), gres));
                }
                match res {
                    Ok(order) => Ok(json_order(order)),
                    Err(e) => Err(e),
                }
            },
            _ => {
                let mut m = String::from_str(
                    "reranker: expected {\"query\": \"<string>\", \"candidates\": [...]}, got ",
                );
                let t = json_to_text(&input);
                m.append(t.as_str());
                Err(m)
            },
        }
    }
}

/// The characters of `s` in reverse order.
pub fn reverse_chars(s: &str) -> (r: String)
    ensures
        r@ == s@.reverse(),
{
    let n = s.unicode_len();
    let mut out = String::new();
    let mut i: usize = n;
    while i > 0
        invariant
            i <= n,
            n == s@.len(),
            out@ == s@.subrange(i as int, n as int).reverse(),
        decreases i,
    {
        let c = s.get_char(i - 1);
        let piece = s.substring_char(i - 1, i);
        out.append(piece);
        proof {
            assert(piece@ =~= seq![c]);
            assert(s@.subrange(i - 1, n as int) =~= seq![c] + s@.subrange(i as int, n as int));
            assert(out@ =~= s@.subrange(i - 1, n as int).reverse());
        }
        i = i - 1;
    }
    proof {
        assert(s@.subrange(0, n as int) =~= s@);
    }
    out
}

/// The `reverse` capability: `{"text": t}` answers `{"text": t
/// reversed}`, character by character.
pub struct ReverseResource;

impl Resource for ReverseResource {
    fn invoke(&self, input: Value) -> (r: Result<Value, String>)
        ensures
            match str_field(input, "text"@) {
                None => r matches Err(m) && m@ == "reverse: expected {\"text\": \"<string>\"}, got "@
                    + json_text(input),
                Some(t) => r == Ok::<Value, String>(string_member_object("text"@, t.reverse())),
            },
    {
        match json_str_field(&input, "text") {
            None => {
                let mut m = String::from_str("reverse: expected {\"text\": \"<string>\"}, got ");
                let t = json_to_text(&input);
                m.append(t.as_str());
                Err(m)
            },
            Some(t) => Ok(json_string_member("text", reverse_chars(t.as_str()))),
        }
    }
}

/// The `echo` capability: answers its input unchanged.
pub struct EchoResource;

impl Resource for EchoResource {
    fn invoke(&self, input: Value) -> (r: Result<Value, String>)
        ensures
            r == Ok::<Value, String>(input),
    {
        Ok(input)
    }
}

/// What a streaming echo was asked for: the text, how many payload
/// chunks, and the pause between chunks.
#[derive(Debug)]
pub struct StreamRequest {
    pub text: String,
    pub count: u64,
    pub delay_ms: u64,
}

/// `r` is what the input of `streaming_echo` asks for: `text` (a
/// string) and `count` are required, `delay_ms` defaults to 0.
pub open spec fn stream_request_parsed(input: Value, r: Result<StreamRequest, String>) -> bool {
    match (str_field(input, "text"@), u64_field(input, "count"@)) {
        (None, _) => r matches Err(m) && m@ == "streaming_echo: expected {\"text\": \"<string>\"}, got "@
            + json_text(input),
        (Some(_), None) => r matches Err(m) && m@ == "streaming_echo: expected {\"count\": <u64>}, got "@
            + json_text(input),
        (Some(t), Some(c)) => r matches Ok(req) && req.text@ == t && req.count == c && req.delay_ms
            == match u64_field(input, "delay_ms"@) {
            Some(d) => d,
            None => 0,
        },
    }
}

/// Parse the input of `streaming_echo`: `text` (a string) and `count`
/// are required, `delay_ms` defaults to 0.
pub fn parse_stream_request(input: &Value) -> (r: Result<StreamRequest, String>)
    ensures
        stream_request_parsed(*input, r),
{
    let text = match json_str_field(input, "text") {
        None => {
            let mut m = String::from_str("streaming_echo: expected {\"text\": \"<string>\"}, got ");
            let t = json_to_text(input);
            m.append(t.as_str());
            return Err(m);
        },
        Some(t) => t,
    };
    let count = match json_u64_field(input, "count") {
        None => {
            let mut m = String::from_str("streaming_echo: expected {\"count\": <u64>}, got ");
            let t = json_to_text(input);
            m.append(t.as_str());
            return Err(m);
        },
        Some(c) => c,
    };
    let delay_ms = match json_u64_field(input, "delay_ms") {
        Some(d) => d,
        None => 0,
    };
    Ok(StreamRequest { text, count, delay_ms })
}

/// One step of a stream's producer: wait `pause_ms`, send `chunk`,
/// then go on at position `next`, or stop when there is none.
#[derive(Debug)]
pub struct StreamStep {
    pub pause_ms: u64,
    pub chunk: CapabilityChunk,
    pub next: Option<u64>,
}

impl StreamRequest {
    /// The `i`-th chunk of the stream: the payload `{"text", "index"}`
    /// for `i < count`, then `Done`.
    pub open spec fn chunk_at(&self, i: nat) -> CapabilityChunk {
        if i < self.count {
            CapabilityChunk::Item(text_index_object(self.text@, i as u64))
        } else {
            CapabilityChunk::Done
        }
    }

    /// The step the producer takes at position `i`: a payload chunk
    /// after the pause, then the next position; at `count`, `Done`
    /// without a pause, and the end; nothing past it.
    pub open spec fn step_at(&self, i: nat) -> Option<(u64, CapabilityChunk, Option<nat>)> {
        if i < self.count {
            Some((self.delay_ms, self.chunk_at(i), Some(i + 1)))
        } else if i == self.count {
            Some((0, CapabilityChunk::Done, None))
        } else {
            None
        }
    }

    /// The chunks a producer that starts at position `i` and follows
    /// the steps sends, in order.
    pub open spec fn sent_from(&self, i: nat) -> Seq<CapabilityChunk>
        decreases self.count + 1 - i,
    {
        match self.step_at(i) {
            Some((_, c, Some(n))) => if n > i {
                seq![c] + self.sent_from(n)
            } else {
                seq![c]
            },
            Some((_, c, None)) => seq![c],
            None => Seq::empty(),
        }
    }

    /// The `i`-th chunk of the stream.
    pub fn chunk(&self, i: u64) -> (r: CapabilityChunk)
        ensures
            r == self.chunk_at(i as nat),
    {
        if i < self.count {
            CapabilityChunk::Item(json_text_index(self.text.as_str(), i))
        } else {
            CapabilityChunk::Done
        }
    }

    /// The step of the producer at position `i` (see `step_at`).
    pub fn step(&self, i: u64) -> (r: Option<StreamStep>)
        ensures
            match self.step_at(i as nat) {
                None => r is None,
                Some((p, c, n)) => r matches Some(st) && st.pause_ms == p && st.chunk == c && match n {
                    Some(k) => st.next == Some(k as u64),
                    None => st.next is None,
                },
            },
    {
        if i < self.count {
            Some(StreamStep { pause_ms: self.delay_ms, chunk: self.chunk(i), next: Some(i + 1) })
        } else if i == self.count {
            Some(StreamStep { pause_ms: 0, chunk: CapabilityChunk::Done, next: None })
        } else {
            None
        }
    }
}

/// A producer that starts at position 0 and follows the steps sends the
/// payload chunks `0, 1, .., count - 1` in order, then one `Done`, and
/// stops.
pub proof fn law_stream_order(req: StreamRequest)
    ensures
        req.sent_from(0) == Seq::new((req.count + 1) as nat, |i: int| req.chunk_at(i as nat)),
        req.sent_from(0).last() == CapabilityChunk::Done,
{
    lemma_sent_from(req, 0);
}

proof fn lemma_sent_from(req: StreamRequest, i: nat)
    requires
        i <= req.count,
    ensures
        req.sent_from(i) == Seq::new((req.count + 1 - i) as nat, |j: int| req.chunk_at((i + j) as nat)),
    decreases req.count + 1 - i,
{
    if i < req.count {
        lemma_sent_from(req, i + 1);
        assert(req.sent_from(i) =~= Seq::new((req.count + 1 - i) as nat, |j: int| req.chunk_at((i + j) as nat)));
    } else {
        assert(req.sent_from(i) =~= Seq::new((req.count + 1 - i) as nat, |j: int| req.chunk_at((i + j) as nat)));
    }
}


/// The `streaming_echo` capability: a stream opened on `{"text": t,
/// "count": n}` carries `n` chunks `{"text": t, "index": i}` and then
/// `Done`, with an optional pause of `delay_ms` before each chunk. What
/// a stream carries is decided here; the producer that paces and sends
/// the chunks runs on the program's async runtime.
pub struct StreamingEchoResource;

impl StreamingEchoResource {
    /// What a stream opened on `input` is to carry.
    pub fn request(&self, input: &Value) -> (r: Result<StreamRequest, String>)
        ensures
            stream_request_parsed(*input, r),
    {
        parse_stream_request(input)
    }
}
} // verus!
