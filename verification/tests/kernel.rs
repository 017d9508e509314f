use odyssey::lifecycle::mint_plugin;
use odyssey::kernel::cspace::{namespace_head, namespace_prefix_matches, Capability, CapabilitySpace};
use odyssey::kernel::error::CapabilityError;
use odyssey::kernel::events::GraphEvent;
use odyssey::kernel::factory::{meta_from_decl, CapabilityFactory};
use odyssey::kernel::graph::CapabilityGraph;
use odyssey::kernel::quota::{CapabilityBudget, QuotaLedger, QuotaState};
use odyssey::kernel::resource::{call_outcome, invoke_gate, open_gate, CapabilityChunk, Resource};
use odyssey::types::ids::{CapKind, CapabilityId, PluginId, SlotId};
use odyssey::types::manifest::ManifestBuilder;
use odyssey::types::meta::CapabilityMeta;
use odyssey::types::quota::{QuotaKind, QuotaSpec};
use odyssey::types::rights::{parse_operation, CapabilityRights, OperationRights};
use serde_json::Value;

fn j(text: &str) -> Value {
    serde_json::from_str(text).unwrap()
}

#[derive(Clone)]
struct Doubler;

impl Resource for Doubler {
    fn invoke(&self, input: Value) -> Result<Value, String> {
        let n = input.as_i64().ok_or_else(|| "not a number".to_string())?;
        Ok(Value::from(n * 2))
    }
}

#[derive(Clone)]
struct Streamer;

impl Resource for Streamer {
    fn open(&self, _input: Value) -> Result<tokio::sync::mpsc::Receiver<CapabilityChunk>, String> {
        let (tx, rx) = tokio::sync::mpsc::channel(4);
        tx.try_send(CapabilityChunk::Done).unwrap();
        Ok(rx)
    }
}

fn plugin() -> PluginId {
    PluginId { name: "test".to_string(), version: "0.1.0".to_string() }
}

fn meta(name: &str, namespace: &str, kind: CapKind, quota: QuotaSpec) -> CapabilityMeta {
    CapabilityMeta {
        id: CapabilityId(0),
        name: name.to_string(),
        namespace: namespace.to_string(),
        contract_name: name.to_string(),
        plugin: plugin(),
        in_type: "any".to_string(),
        out_type: "any".to_string(),
        kind,
        timeout_ms: 5000,
        quota,
        tool_schema: None,
    }
}

fn install<H>(space: &mut CapabilitySpace<H>, name: &str, ns: &str, handler: H, kind: CapKind, spec: QuotaSpec) -> SlotId {
    let budget = space.new_budget(5000, spec);
    let slot = space.allocate();
    space.install(slot, Capability::new(meta(name, ns, kind, spec), handler, budget, kind));
    slot
}

#[test]
fn quota_spec_intersect_takes_tighter_limit() {
    let a = QuotaSpec::unlimited().with_calls_per_minute(10).with_tokens_per_minute(500);
    let b = QuotaSpec::unlimited().with_calls_per_minute(3).with_bytes_per_minute(64);
    let c = a.intersect(&b);
    assert_eq!(c.calls_per_minute, 3);
    assert_eq!(c.tokens_per_minute, 500);
    assert_eq!(c.bytes_per_minute, 64);
    assert!(QuotaSpec::unlimited().is_unlimited());
    assert!(!c.is_unlimited());
}

#[test]
fn quota_state_refuses_after_limit_and_recovers_after_window() {
    let t = 1_000_000;
    let mut q = QuotaState::new(QuotaSpec::unlimited().with_calls_per_minute(2));
    assert!(q.try_call(t + 1_000).is_ok());
    assert!(q.try_call(t + 2_000).is_ok());
    assert_eq!(q.try_call(t + 3_000), Err(QuotaKind::Calls));
    assert_eq!(q.snapshot().calls_used, 2);
    assert_eq!(q.snapshot().last_exhausted, Some(QuotaKind::Calls));
    // The first stamp leaves the 60 s window.
    assert!(q.try_call(t + 61_500).is_ok());
    assert_eq!(q.snapshot().last_exhausted, None);
}

#[test]
fn quota_state_tokens_and_bytes_limits() {
    let mut q = QuotaState::new(QuotaSpec::unlimited().with_tokens_per_minute(100).with_bytes_per_minute(10));
    let t = 1_000_000;
    assert!(q.try_tokens(60, t).is_ok());
    assert_eq!(q.try_tokens(50, t + 1), Err(QuotaKind::Tokens));
    assert!(q.try_tokens(40, t + 2).is_ok());
    assert_eq!(q.snapshot().tokens_used, 100);
    assert!(q.try_bytes(10, t + 3).is_ok());
    assert_eq!(q.try_bytes(1, t + 4), Err(QuotaKind::Bytes));
    // Before a full window has elapsed on the clock, only stamps taken
    // at the current instant count.
    let mut young = QuotaState::new(QuotaSpec::unlimited().with_calls_per_minute(1));
    assert!(young.try_call(10).is_ok());
    assert!(young.try_call(20).is_ok());
    assert_eq!(QuotaKind::Bytes.as_str(), "bytes");
}

#[test]
fn derived_budgets_share_accounting() {
    let mut ledger = QuotaLedger::new();
    let parent = CapabilityBudget::with_spec(&mut ledger, 1000, QuotaSpec::unlimited().with_calls_per_minute(1));
    let shared = CapabilityBudget::share_with(&parent, 50);
    assert_eq!(shared.timeout_ms(), 50);
    assert!(shared.try_call(&mut ledger, 1_000_010).is_ok());
    // The parent's bucket already holds the child's call.
    assert_eq!(parent.try_call(&mut ledger, 1_000_020), Err(QuotaKind::Calls));
    assert_eq!(parent.snapshot(&ledger).calls_used, 1);
    shared.record_elapsed(&mut ledger, 1500);
    assert_eq!(parent.wall_clock_total_ms(&ledger), 2);
    let derived = CapabilityBudget::share_quota_with(&parent, 70);
    assert_eq!(derived.timeout_ms(), 70);
    derived.record_elapsed(&mut ledger, 0);
    // The derived budget's time shows on the parent's counter.
    assert_eq!(derived.wall_clock_total_ms(&ledger), 3);
    assert_eq!(parent.wall_clock_total_ms(&ledger), 3);
    assert_eq!(derived.quota_spec(&ledger).calls_per_minute, 1);
    let fresh = CapabilityBudget::new(&mut ledger, 9);
    assert!(fresh.quota_spec(&ledger).is_unlimited());
}

#[test]
fn rights_contain_and_intersect() {
    let root = CapabilityRights::root(5000);
    let read = CapabilityRights::root(100).with_operations(OperationRights::read());
    assert!(root.contains(&read));
    assert!(!read.contains(&root));
    let meet = root.intersect(&read.with_timeout(9000));
    assert_eq!(meet.operations.bits(), 1);
    assert_eq!(meet.timeout_ms, 5000);
    assert_eq!(CapabilityRights::default().timeout_ms, 5000);
    assert_eq!(parse_operation("WRITE").map(|o| o.bits()), Some(2));
    assert_eq!(parse_operation("write"), None);
}

#[test]
fn grant_restrict_transfer_attenuate() {
    let mut space: CapabilitySpace<Doubler> = CapabilitySpace::new();
    let root = install(&mut space, "double", "math.arith", Doubler, CapKind::Sync, QuotaSpec::unlimited());
    let read = CapabilityRights::root(100).with_operations(OperationRights::read());
    let child = space.restrict(root, read, "double_ro".to_string()).unwrap();
    assert_eq!(space.lookup(child).unwrap().operations().bits(), 1);
    assert_eq!(space.children_of(root), vec![child]);
    // A child cannot grant more than it holds.
    match space.grant(child, CapabilityRights::root(100), "too_much".to_string()) {
        Err(CapabilityError::AttenuationViolation { from, requested, held }) => {
            assert_eq!(from, child);
            assert_eq!(requested.bits(), 15);
            assert_eq!(held.bits(), 1);
        }
        _ => panic!("expected an attenuation violation"),
    }
    let moved = space.transfer(child, read).unwrap();
    assert!(space.lookup(child).is_none());
    assert_eq!(space.name_for_slot(moved), Some("double".to_string()));
    assert_eq!(space.name_for_slot(root), None);
    let empty = SlotId::new(999);
    assert!(matches!(space.grant(empty, read, "x".to_string()), Err(CapabilityError::SlotEmpty(s)) if s == empty));
}

#[test]
fn revoke_tree_removes_descendants_only() {
    let mut space: CapabilitySpace<Doubler> = CapabilitySpace::new();
    let a = install(&mut space, "a", "", Doubler, CapKind::Sync, QuotaSpec::unlimited());
    let b = install(&mut space, "b", "", Doubler, CapKind::Sync, QuotaSpec::unlimited());
    let r = CapabilityRights::root(100);
    let a1 = space.grant(a, r, "a1".to_string()).unwrap();
    let _a2 = space.grant(a1, r, "a2".to_string()).unwrap();
    let rx_events = space.subscribe();
    drop(rx_events);
    assert_eq!(space.revoke_tree(a), 3);
    assert_eq!(space.len(), 1);
    assert!(space.lookup(b).is_some());
    assert!(space.lookup_by_name("a2").is_none());
    assert!(!space.revoke(a));
}

#[test]
fn enumerate_sorts_by_name_and_namespace() {
    let mut space: CapabilitySpace<Doubler> = CapabilitySpace::new();
    install(&mut space, "zeta", "model.llama", Doubler, CapKind::Sync, QuotaSpec::unlimited());
    install(&mut space, "alpha", "db.read", Doubler, CapKind::Sync, QuotaSpec::unlimited());
    install(&mut space, "mid", "model", Doubler, CapKind::Sync, QuotaSpec::unlimited());
    install(&mut space, "other", "modelx", Doubler, CapKind::Sync, QuotaSpec::unlimited());
    let names: Vec<String> = space.enumerate().into_iter().map(|m| m.name).collect();
    assert_eq!(names, vec!["alpha", "mid", "other", "zeta"]);
    let model: Vec<String> = space.enumerate_namespace("model").into_iter().map(|m| m.namespace).collect();
    assert_eq!(model, vec!["model", "model.llama"]);
    assert_eq!(space.enumerate_namespace(".").len(), 4);
    let children = space.namespace_children("");
    assert_eq!(
        children,
        vec![("db".to_string(), 1), ("model".to_string(), 2), ("modelx".to_string(), 1)]
    );
    assert_eq!(space.namespace_children("model"), vec![("llama".to_string(), 1), ("model".to_string(), 1)]);
}

#[test]
fn namespace_helpers() {
    assert!(namespace_prefix_matches("a.b", ""));
    assert!(namespace_prefix_matches("a.b", "."));
    assert!(namespace_prefix_matches("a.b", "a"));
    assert!(namespace_prefix_matches("a", "a"));
    assert!(!namespace_prefix_matches("ab", "a"));
    assert_eq!(namespace_head("a.b.c", "a"), "b");
    assert_eq!(namespace_head("x.y", ""), "x");
    assert_eq!(namespace_head("other", "a"), "other");
}

#[test]
fn invoke_checks_kind_rights_and_quota() {
    let mut space: CapabilitySpace<Doubler> = CapabilitySpace::new();
    let s = install(&mut space, "double", "", Doubler, CapKind::Sync, QuotaSpec::unlimited().with_calls_per_minute(1));
    assert_eq!(space.invoke(s, j(r#"21"#)), Ok(j(r#"42"#)));
    let again = space.invoke(s, j(r#"1"#)).unwrap_err();
    assert!(again.starts_with("double: quota exhausted (calls); used this minute = 1 calls"), "{again}");
    let ro = space.restrict(s, CapabilityRights::root(5000).with_operations(OperationRights::read()), "ro".to_string()).unwrap();
    assert_eq!(
        space.invoke(ro, j(r#"1"#)),
        Err("double: operation denied \u{2014} requested 4, held 1".to_string())
    );
    assert_eq!(space.invoke(SlotId::new(77), j(r#"1"#)), Err("slot 77 empty or revoked".to_string()));
    let st = install(&mut space, "stream", "", Doubler, CapKind::Stream, QuotaSpec::unlimited());
    assert_eq!(space.invoke(st, j(r#"1"#)), Err("stream: not a sync capability".to_string()));
    assert_eq!(space.open(s, Value::Null).err(), Some("double: not a streaming capability".to_string()));
}

#[test]
fn open_streams_through_the_handler() {
    let mut space: CapabilitySpace<Streamer> = CapabilitySpace::new();
    let s = install(&mut space, "ticks", "", Streamer, CapKind::Stream, QuotaSpec::unlimited());
    let mut rx = space.open(s, Value::Null).unwrap();
    assert!(matches!(rx.try_recv(), Ok(CapabilityChunk::Done)));
}

#[test]
fn call_guards_and_outcome() {
    assert_eq!(
        invoke_gate("x", CapKind::Stream, OperationRights::all(), OperationRights::read()),
        Err("x: not a sync capability".to_string())
    );
    assert!(invoke_gate("x", CapKind::Sync, OperationRights::all(), OperationRights::read()).is_ok());
    assert!(open_gate("x", CapKind::Stream).is_ok());
    assert_eq!(
        call_outcome("x", 12, 10, Ok(j(r#"1"#))),
        Err("x: timeout 12ms exceeded budget 10ms".to_string())
    );
    assert_eq!(call_outcome("x", 10, 10, Ok(j(r#"1"#))), Ok(j(r#"1"#)));
}

#[test]
fn install_publishes_minted_event() {
    let mut space: CapabilitySpace<Doubler> = CapabilitySpace::new();
    let mut rx = space.subscribe();
    let s = install(&mut space, "double", "", Doubler, CapKind::Sync, QuotaSpec::unlimited());
    match rx.try_recv().unwrap() {
        GraphEvent::Minted { slot, capability, contract, .. } => {
            assert_eq!(slot, s);
            assert_eq!(capability, "double");
            assert_eq!(contract, "double");
        }
        other => panic!("unexpected {other:?}"),
    }
}

#[test]
fn factory_numbers_and_snapshots() {
    let mut space: CapabilitySpace<Doubler> = CapabilitySpace::new();
    let m = ManifestBuilder::new("calc").expose("zz", "c1").expose_streaming("aa", "c2").build();
    let b1 = space.new_budget(100, QuotaSpec::unlimited().with_calls_per_minute(4));
    let b2 = space.new_budget(200, QuotaSpec::unlimited());
    let mut factory = CapabilityFactory::new();
    let c1 = factory.mint_sync(&m.exposes[0], &m.plugin, b1, Doubler, space.ledger_ref());
    let c2 = factory.mint_stream(&m.exposes[1], &m.plugin, b2, Doubler, space.ledger_ref());
    assert_eq!(c1.id(), CapabilityId(0));
    assert_eq!(c2.id(), CapabilityId(1));
    assert_eq!(c1.meta().quota.calls_per_minute, 4);
    assert_eq!(c2.meta().timeout_ms, 200);
    assert!(c2.is_streaming());
    let names: Vec<String> = factory.snapshots().into_iter().map(|m| m.name).collect();
    assert_eq!(names, vec!["aa", "zz"]);
    let meta2 = meta_from_decl(CapabilityId(7), &m.exposes[0], &m.plugin, &b1, space.ledger_ref());
    assert_eq!(meta2.in_type, "any");
    assert_eq!(meta2.contract_name, "c1");
}

#[test]
fn graph_snapshot_tree_and_render() {
    let mut space: CapabilitySpace<Doubler> = CapabilitySpace::new();
    install(&mut space, "llama", "model.llama", Doubler, CapKind::Sync, QuotaSpec::unlimited().with_calls_per_minute(3));
    install(&mut space, "read", "db.read", Doubler, CapKind::Stream, QuotaSpec::unlimited());
    install(&mut space, "root", "", Doubler, CapKind::Sync, QuotaSpec::unlimited());
    let g = CapabilityGraph::from(&space);
    assert_eq!(g.nodes.len(), 3);
    assert_eq!(g.nodes[0].name, "llama");
    assert_eq!(g.nodes[0].plugin, "test@0.1.0");
    let roots: Vec<(String, usize)> = g.namespaces.iter().map(|n| (n.name.clone(), n.count)).collect();
    assert_eq!(roots, vec![("db".to_string(), 1), ("model".to_string(), 1)]);
    let text = g.render();
    assert_eq!(
        text,
        "capability graph:\n  \n    \u{251c}\u{2500} root timeout=5000ms streaming=false quota=0c/0t/0B\n  db.read\n    \u{251c}\u{2500} read timeout=5000ms streaming=true quota=0c/0t/0B\n  model.llama\n    \u{251c}\u{2500} llama timeout=5000ms streaming=false quota=3c/0t/0B\n"
    );
    let sub = g.under("model");
    assert_eq!(sub.nodes.len(), 1);
    let empty: CapabilitySpace<Doubler> = CapabilitySpace::new();
    assert_eq!(CapabilityGraph::from(&empty).render(), "capability graph:\n  (empty)\n");
}

#[test]
fn capability_error_messages() {
    let s = SlotId::new(3);
    assert_eq!(CapabilityError::SlotEmpty(s).message(), "slot 3 empty or revoked");
    assert_eq!(
        CapabilityError::AttenuationViolation {
            from: s,
            requested: OperationRights::read().union(OperationRights::write()),
            held: OperationRights::read(),
        }
        .message(),
        "attenuation violation at slot 3: requested OperationRights(READ | WRITE) not subset of OperationRights(READ)"
    );
    assert_eq!(
        CapabilityError::OperationDenied {
            name: "x".to_string(),
            requested: OperationRights { bits: 0x30 },
            held: OperationRights { bits: 0 },
        }
        .message(),
        "operation denied for capability \"x\": requested OperationRights(0x30) not in OperationRights(0x0)"
    );
    assert_eq!(
        CapabilityError::QuotaExceeded { name: "x".to_string(), kind: QuotaKind::Calls }.message(),
        "quota exhausted for capability \"x\": Calls"
    );
    assert_eq!(CapabilityError::AlreadyExists("e".to_string()).message(), "capability already installed: e");
    assert_eq!(CapabilityId(42).to_text(), "cap:42");
}

#[test]
fn kind_mismatch_is_the_error_of_a_wrong_call() {
    let mut space: CapabilitySpace<Doubler> = CapabilitySpace::new();
    let st = install(&mut space, "stream", "", Doubler, CapKind::Stream, QuotaSpec::unlimited());
    let expected = CapabilityError::KindMismatch { name: "stream".to_string(), expected: CapKind::Sync }.message();
    assert_eq!(expected, "stream: not a sync capability");
    assert_eq!(space.invoke(st, j(r#"1"#)), Err(expected));
    let s = install(&mut space, "sync", "", Doubler, CapKind::Sync, QuotaSpec::unlimited());
    let expected = CapabilityError::KindMismatch { name: "sync".to_string(), expected: CapKind::Stream }.message();
    assert_eq!(space.open(s, Value::Null).err(), Some(expected));
}

#[test]
fn derived_capabilities_report_time_on_the_parent_clock() {
    let mut space: CapabilitySpace<Doubler> = CapabilitySpace::new();
    let parent = install(&mut space, "double", "", Doubler, CapKind::Sync, QuotaSpec::unlimited());
    let child = space.grant(parent, CapabilityRights::root(5000), "double2".to_string()).unwrap();
    let before = space.lookup(parent).unwrap().budget.wall_clock_total_ms(space.ledger_ref());
    assert_eq!(space.invoke(child, j(r#"2"#)), Ok(j(r#"4"#)));
    let after = space.lookup(parent).unwrap().budget.wall_clock_total_ms(space.ledger_ref());
    assert!(after >= before + 1);
    let child_total = space.lookup(child).unwrap().budget.wall_clock_total_ms(space.ledger_ref());
    assert_eq!(child_total, after);
}

#[test]
fn wall_clock_adds_rounded_up_milliseconds() {
    let mut ledger = QuotaLedger::new();
    let b = CapabilityBudget::new(&mut ledger, 100);
    let shared = CapabilityBudget::share_with(&b, 50);
    b.record_elapsed(&mut ledger, 0);
    shared.record_elapsed(&mut ledger, 1500);
    b.record_elapsed(&mut ledger, 1000);
    assert_eq!(b.wall_clock_total_ms(&ledger), 1 + 2 + 1);
    let snap = b.snapshot(&ledger);
    assert_eq!(snap.tokens_used, 0);
    assert_eq!(snap.bytes_used, 0);
}

#[test]
fn slot_ids_render_and_compare_by_raw_number() {
    assert_eq!(SlotId::new(7).to_text(), "slot:7");
    assert_eq!(SlotId::new(7), SlotId::new(7));
    assert_ne!(SlotId::new(7), SlotId::new(8));
}

#[test]
fn graph_under_keeps_only_namespaces_of_kept_nodes() {
    let mut space: CapabilitySpace<Doubler> = CapabilitySpace::new();
    install(&mut space, "read", "db.read", Doubler, CapKind::Sync, QuotaSpec::unlimited());
    install(&mut space, "x", "dbx", Doubler, CapKind::Sync, QuotaSpec::unlimited());
    install(&mut space, "llama", "model.llama", Doubler, CapKind::Sync, QuotaSpec::unlimited());
    let sub = CapabilityGraph::from(&space).under("db");
    assert_eq!(sub.nodes.len(), 1);
    let roots: Vec<(String, usize, Vec<String>)> =
        sub.namespaces.iter().map(|n| (n.name.clone(), n.count, n.children.clone())).collect();
    assert_eq!(roots, vec![("db".to_string(), 1, vec!["db.read".to_string()])]);
}

#[test]
fn mint_plugin_mints_each_declaration_in_order() {
    let mut space: CapabilitySpace<Doubler> = CapabilitySpace::new();
    let mut factory = CapabilityFactory::new();
    let m = ManifestBuilder::new("twice").expose("a", "a").expose_streaming("b", "b").timeout_ms(700).build();
    let p = mint_plugin(&mut space, &mut factory, &m, vec![Doubler, Doubler]).unwrap();
    assert_eq!(p.plugin.name, "twice");
    assert_eq!(p.slots, vec![SlotId::new(1), SlotId::new(2)]);
    let a = space.lookup(p.slots[0]).unwrap();
    assert_eq!(a.kind, CapKind::Sync);
    assert_eq!(a.budget.timeout_ms(), 700);
    assert_eq!(space.lookup(p.slots[1]).unwrap().kind, CapKind::Stream);
    let empty = ManifestBuilder::new("none").build();
    assert!(mint_plugin(&mut space, &mut factory, &empty, Vec::new()).is_none());
    let plain = ManifestBuilder::new("plain").expose("c", "c").build();
    let q = mint_plugin(&mut space, &mut factory, &plain, vec![Doubler]).unwrap();
    assert_eq!(space.lookup(q.slots[0]).unwrap().budget.timeout_ms(), 5000);
}

#[test]
fn grant_fills_an_empty_slot_or_changes_nothing() {
    let mut space: CapabilitySpace<Doubler> = CapabilitySpace::new();
    let a = install(&mut space, "a", "", Doubler, CapKind::Sync, QuotaSpec::unlimited());
    let before = space.len();
    let child = space.grant(a, CapabilityRights::root(100), "a1".to_string()).unwrap();
    assert_ne!(child, a);
    assert_eq!(space.len(), before + 1);
    assert_eq!(space.slot_by_name("a1"), Some(child));
    let ro = space.restrict(a, CapabilityRights::root(100).with_operations(OperationRights::read()), "ro".to_string()).unwrap();
    let refused = space.grant(ro, CapabilityRights::root(100), "wide".to_string());
    assert!(matches!(refused, Err(CapabilityError::AttenuationViolation { .. })));
    assert_eq!(space.len(), before + 2);
    assert!(space.slot_by_name("wide").is_none());
    assert!(matches!(space.grant(SlotId::new(99), CapabilityRights::root(1), "x".to_string()), Err(CapabilityError::SlotEmpty(_))));
}

#[test]
fn trim_strips_unicode_white_space() {
    for text in ["  a b \n", "\u{3000}\u{2028}x\u{a0}", "   ", "", "y", "\u{85}z\t"] {
        assert_eq!(odyssey::text::trim_text(text), text.trim());
    }
}
