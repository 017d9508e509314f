use odyssey::bridge::{cap_infos, list_caps};
use odyssey::builtins::models::StreamingEchoResource;
use odyssey::kernel::slot::Slot;
use odyssey::kernel::cspace::{Capability, CapabilitySpace};
use odyssey::kernel::events::GraphEvent;
use odyssey::kernel::resource::{CapabilityChunk, Resource};
use odyssey::lifecycle::{check_runtime_manifests, missing_runtime_plugins, ruin_runtime_plugins, runtime_plugins, MintedPlugin};
use odyssey::types::ids::{CapKind, CapabilityId, PluginId, SlotId};
use odyssey::types::manifest::ManifestBuilder;
use odyssey::types::meta::CapabilityMeta;
use odyssey::types::quota::QuotaSpec;
use odyssey::types::rights::CapabilityRights;
use serde_json::Value;

fn j(text: &str) -> Value {
    serde_json::from_str(text).unwrap()
}

#[derive(Clone)]
enum Handler {
    Doubler,
    Ticks,
}

impl Resource for Handler {
    fn invoke(&self, input: Value) -> Result<Value, String> {
        match self {
            Handler::Doubler => {
                let n = input.as_i64().ok_or_else(|| "not a number".to_string())?;
                Ok(Value::from(n * 2))
            }
            Handler::Ticks => Err("not sync".to_string()),
        }
    }

    fn open(&self, _input: Value) -> Result<tokio::sync::mpsc::Receiver<CapabilityChunk>, String> {
        let (tx, rx) = tokio::sync::mpsc::channel(4);
        tx.try_send(CapabilityChunk::Item(j(r#"1"#))).unwrap();
        tx.try_send(CapabilityChunk::Done).unwrap();
        Ok(rx)
    }
}

fn plugin(name: &str) -> PluginId {
    PluginId { name: name.to_string(), version: "0.1.0".to_string() }
}

fn meta(id: u64, name: &str, kind: CapKind) -> CapabilityMeta {
    CapabilityMeta {
        id: CapabilityId(id),
        name: name.to_string(),
        namespace: String::new(),
        contract_name: name.to_string(),
        plugin: plugin("test"),
        in_type: "json".to_string(),
        out_type: "text".to_string(),
        kind,
        timeout_ms: 250,
        quota: QuotaSpec::unlimited(),
        tool_schema: None,
    }
}

fn install(space: &mut CapabilitySpace<Handler>, id: u64, name: &str, handler: Handler, kind: CapKind) -> SlotId {
    let budget = space.new_budget(250, QuotaSpec::unlimited());
    let slot = space.allocate();
    space.install(slot, Capability::new(meta(id, name, kind), handler, budget, kind));
    slot
}

fn sample_space() -> CapabilitySpace<Handler> {
    let mut space = CapabilitySpace::new();
    install(&mut space, 7, "double", Handler::Doubler, CapKind::Sync);
    install(&mut space, 12, "ticks", Handler::Ticks, CapKind::Stream);
    space
}

#[test]
fn caps_listing_rows_follow_the_metadata() {
    let space = sample_space();
    let rows = list_caps(&space);
    assert_eq!(rows.len(), 2);
    assert_eq!(rows[0].name, "double");
    assert_eq!(rows[0].id, "cap:7");
    assert!(!rows[0].streaming);
    assert_eq!(rows[0].timeout_ms, 250);
    assert_eq!(rows[0].in_type, "json");
    assert_eq!(rows[0].out_type, "text");
    assert_eq!(rows[1].name, "ticks");
    assert_eq!(rows[1].id, "cap:12");
    assert!(rows[1].streaming);
    assert!(cap_infos(&Vec::new()).is_empty());
}

#[test]
fn bridge_invoke_routes_by_name() {
    let mut space = sample_space();
    assert_eq!(space.bridge_invoke("double", j(r#"21"#)), Ok(j(r#"42"#)));
    assert_eq!(space.bridge_invoke("nope", j(r#"1"#)), Err("capability not found: nope".to_string()));
    assert_eq!(
        space.bridge_invoke("ticks", j(r#"1"#)),
        Err("ticks is streaming; use /api/stream".to_string())
    );
}

#[test]
fn bridge_open_routes_by_name() {
    let mut space = sample_space();
    let mut rx = space.bridge_open("ticks", Value::Null).unwrap();
    assert!(matches!(rx.try_recv(), Ok(CapabilityChunk::Item(v)) if v == j(r#"1"#)));
    assert!(matches!(rx.try_recv(), Ok(CapabilityChunk::Done)));
    assert_eq!(space.bridge_open("nope", Value::Null).err(), Some("capability not found: nope".to_string()));
    assert_eq!(
        space.bridge_open("double", Value::Null).err(),
        Some("double is not streaming; use /api/invoke".to_string())
    );
}

#[test]
fn install_then_lookup_reads_back_the_capability() {
    let mut space = sample_space();
    let slot = install(&mut space, 30, "triple", Handler::Doubler, CapKind::Sync);
    let cap = space.lookup(slot).unwrap();
    assert_eq!(cap.name(), "triple");
    assert_eq!(cap.id(), CapabilityId(30));
    assert!(space.revoke(slot));
    assert!(space.lookup(slot).is_none());
    assert!(!space.revoke(slot));
    assert_eq!(space.len(), 2);
}

#[test]
fn derivation_chain_never_amplifies() {
    let mut space = sample_space();
    let root = space.slot_by_name("double").unwrap();
    let narrow = CapabilityRights::root(100).with_operations(odyssey::types::rights::OperationRights::execute());
    let child = space.grant(root, narrow, "double_exec".to_string()).unwrap();
    let grandchild = space.restrict(child, narrow, "double_exec2".to_string()).unwrap();
    let held = space.lookup(grandchild).unwrap().rights();
    assert!(space.lookup(root).unwrap().rights().contains(&held));
    assert!(space.grant(grandchild, CapabilityRights::root(100), "wide".to_string()).is_err());
}

#[test]
fn runtime_plugins_lists_the_boot_set() {
    let names = runtime_plugins();
    assert_eq!(names.len(), 10);
    assert_eq!(names[0], "echo");
    assert_eq!(names[9], "http");
}

#[test]
fn runtime_manifest_check_names_missing_plugins() {
    let all: Vec<_> = runtime_plugins()
        .into_iter()
        .map(|n| ManifestBuilder::new(n).build())
        .collect();
    assert!(missing_runtime_plugins(&all).is_empty());
    assert_eq!(check_runtime_manifests(&all), Ok(()));
    let some: Vec<_> = all
        .into_iter()
        .filter(|m| m.plugin.name != "slow" && m.plugin.name != "http")
        .collect();
    assert_eq!(missing_runtime_plugins(&some), vec!["slow", "http"]);
    assert_eq!(
        check_runtime_manifests(&some),
        Err("RUNTIME_PLUGINS lists [\"slow\", \"http\"] but no loaded manifest publishes them; \
             either add the plugin to `load_manifests()` or remove it from RUNTIME_PLUGINS"
            .to_string())
    );
}

#[test]
fn teardown_runs_in_reverse_mint_order() {
    let mut space = sample_space();
    let double = space.slot_by_name("double").unwrap();
    let ticks = space.slot_by_name("ticks").unwrap();
    let derived = space.grant(double, CapabilityRights::root(100), "double2".to_string()).unwrap();
    let extra = install(&mut space, 40, "kept", Handler::Doubler, CapKind::Sync);
    let minted = vec![
        MintedPlugin { plugin: plugin("provider"), slots: vec![double] },
        MintedPlugin { plugin: plugin("consumer"), slots: vec![ticks] },
    ];
    let mut rx = space.subscribe();
    let report = ruin_runtime_plugins(&mut space, &minted);
    assert_eq!(report, vec![(plugin("consumer"), 1), (plugin("provider"), 2)]);
    assert!(space.lookup(double).is_none());
    assert!(space.lookup(derived).is_none());
    assert!(space.lookup(ticks).is_none());
    assert!(space.lookup(extra).is_some());
    assert_eq!(space.len(), 1);
    assert!(matches!(rx.try_recv(), Ok(GraphEvent::PluginDeactivated { plugin }) if plugin.name == "consumer"));
    let mut deactivated = vec!["consumer".to_string()];
    while let Ok(ev) = rx.try_recv() {
        if let GraphEvent::PluginDeactivated { plugin } = ev {
            deactivated.push(plugin.name);
        }
    }
    assert_eq!(deactivated, vec!["consumer".to_string(), "provider".to_string()]);
}

#[test]
fn slot_handles_route_to_their_slot() {
    let mut space = sample_space();
    let double = Slot::new(space.slot_by_name("double").unwrap());
    let ticks = Slot::new(space.slot_by_name("ticks").unwrap());
    assert_eq!(double.capability(&space).unwrap().name(), "double");
    assert_eq!(double.meta(&space).unwrap().id, CapabilityId(7));
    assert_eq!(ticks.kind(&space), Some(CapKind::Stream));
    assert_eq!(double.invoke(&mut space, j(r#"4"#)), Ok(j(r#"8"#)));
    assert_eq!(
        double.invoke_op(&mut space, odyssey::types::rights::OperationRights::read(), j(r#"4"#)),
        Ok(j(r#"8"#))
    );
    assert!(ticks.open(&mut space, Value::Null).is_ok());
    let child = Slot::new(double.grant(&mut space, CapabilityRights::root(100), "double_copy".to_string()).unwrap());
    let narrowed = child.restrict(&mut space, CapabilityRights::root(50), "double_narrow".to_string()).unwrap();
    assert_eq!(space.children_of(child.id()), vec![narrowed]);
    assert_eq!(double.revoke_tree(&mut space), 3);
    assert!(double.capability(&space).is_none());
    assert_eq!(double.invoke(&mut space, j(r#"4"#)), Err(format!("slot {} empty or revoked", double.id().raw())));
    assert!(!double.revoke(&mut space));
    let moved = ticks.transfer(&mut space, CapabilityRights::root(250)).unwrap();
    assert!(ticks.capability(&space).is_none());
    assert_eq!(space.name_for_slot(moved), Some("ticks".to_string()));
}

#[test]
fn streaming_echo_asks_for_count_chunks() {
    let req = StreamingEchoResource.request(&j(r#"{"text":"hi","count":2}"#)).unwrap();
    assert_eq!((req.text.as_str(), req.count, req.delay_ms), ("hi", 2, 0));
    assert!(matches!(req.chunk(1), CapabilityChunk::Item(v) if v == j(r#"{"text":"hi","index":1}"#)));
    assert!(matches!(req.chunk(2), CapabilityChunk::Done));
    let mut sent = Vec::new();
    let mut at = Some(0);
    while let Some(i) = at {
        let step = req.step(i).unwrap();
        assert_eq!(step.pause_ms, 0);
        sent.push(match step.chunk {
            CapabilityChunk::Item(v) => Some(v),
            CapabilityChunk::Done => None,
        });
        at = step.next;
    }
    assert_eq!(sent, vec![Some(j(r#"{"text":"hi","index":0}"#)), Some(j(r#"{"text":"hi","index":1}"#)), None]);
    assert!(req.step(3).is_none());
    let slow = StreamingEchoResource.request(&j(r#"{"text":"a","count":1,"delay_ms":150}"#)).unwrap();
    assert_eq!(slow.step(0).unwrap().pause_ms, 150);
    assert_eq!(slow.step(1).unwrap().pause_ms, 0);
    assert_eq!(
        StreamingEchoResource.request(&j(r#"{"text":"hi"}"#)).unwrap_err(),
        "streaming_echo: expected {\"count\": <u64>}, got {\"text\":\"hi\"}"
    );
}
