use odyssey::builtins::memory::{
    check_query, contains_text, insert_record, insert_request, query_records, InMemoryBackend, Record,
};
use serde_json::Value;

fn j(text: &str) -> Value {
    serde_json::from_str(text).unwrap()
}

fn record(id: &str, content: &str, tags: &[&str], created_at: &str) -> Record {
    Record {
        id: id.to_string(),
        content: j(content),
        tags: tags.iter().map(|t| t.to_string()).collect(),
        created_at: created_at.to_string(),
    }
}

fn store() -> InMemoryBackend {
    let mut b = InMemoryBackend::new();
    b.insert(record("a", r#""kernel notes""#, &["work"], "2024-01-01T00:00:00.000Z"));
    b.insert(record("b", r#""garden notes""#, &["home"], "2024-03-01T00:00:00.000Z"));
    b.insert(record("c", r#"{"topic":"kernel"}"#, &["work", "draft"], "2024-02-01T00:00:00.000Z"));
    b
}

#[test]
fn substring_search_counts_characters() {
    assert!(contains_text("kernel notes", "nel n"));
    assert!(contains_text("abc", ""));
    assert!(!contains_text("ab", "abc"));
    assert!(contains_text("héllo", "éll"));
    assert!(!contains_text("hello", "world"));
}

#[test]
fn insert_fills_in_id_and_time_and_replaces_same_id() {
    let mut b = InMemoryBackend::new();
    let id = b.insert(record("", "1", &[], ""));
    assert!(id.starts_with("mem_"));
    assert!(id.ends_with("_1"));
    assert_eq!(b.counter, 1);
    assert_eq!(b.records[0].created_at.len(), 24);
    assert!(b.records[0].created_at.ends_with('Z'));
    b.insert(record("x", "2", &[], "t0"));
    b.insert(record("x", "3", &[], "t1"));
    assert_eq!(b.records.len(), 2);
    assert_eq!(b.records[1].content, j("3"));
    assert_eq!(b.counter, 1);
}

#[test]
fn text_query_filters_by_tags_and_text_newest_first() {
    let b = store();
    let all = b.query(None, 10, &[]);
    let ids: Vec<&str> = all.iter().map(|&p| b.records[p].id.as_str()).collect();
    assert_eq!(ids, vec!["b", "c", "a"]);
    let work = b.query(Some("kernel"), 10, &["work".to_string()]);
    let ids: Vec<&str> = work.iter().map(|&p| b.records[p].id.as_str()).collect();
    assert_eq!(ids, vec!["c", "a"]);
    assert_eq!(b.query(None, 0, &[]).len(), 1);
    assert!(b.query(Some("kernel"), 5, &["home".to_string()]).is_empty());
}

#[test]
fn query_records_answers_hits() {
    let b = store();
    assert_eq!(
        query_records(&b, None, 5, &[], &j("1.0")).unwrap_err(),
        "memory_query: at least one of `query` or `vector` is required"
    );
    let hits = query_records(&b, Some("garden"), 5, &[], &j("1.0")).unwrap();
    assert_eq!(
        hits,
        j(r#"{"hits":[{"id":"b","content":"garden notes","tags":["home"],"created_at":"2024-03-01T00:00:00.000Z","score":1.0}]}"#)
    );
    assert_eq!(check_query(None, true), Ok(()));
}

#[test]
fn insert_record_requires_content() {
    let mut b = InMemoryBackend::new();
    assert_eq!(
        insert_record(&mut b, &j(r#"{"tags":["x"]}"#)).unwrap_err(),
        "memory_insert: `content` is required and must not be null"
    );
    assert_eq!(
        insert_record(&mut b, &j(r#"{"content":null}"#)).unwrap_err(),
        "memory_insert: `content` is required and must not be null"
    );
    assert_eq!(insert_record(&mut b, &j(r#"{"content":1,"id":"k"}"#)).unwrap(), j(r#"{"id":"k"}"#));
    let rec = insert_request(&j(r#"{"content":{"a":1},"tags":["t",2,"u"],"created_at":"now"}"#)).unwrap();
    assert_eq!(rec.tags, vec!["t".to_string(), "u".to_string()]);
    assert_eq!(rec.id, "");
    assert_eq!(rec.created_at, "now");
}
