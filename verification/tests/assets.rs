use std::sync::Arc;

use world_loom::asset_service::{
    begin_spawn, catalog_entry_from_stored, check_asset_payload, ensure_snapshot_budget,
    instance_from_stored, plan_spawn, plan_update, validate_instance_key, validate_state,
    validate_transform, AssetCatalogEntry, AssetProtocolEvent, AssetService, DecodedAsset,
    PublishStep, SpawnAssetRequest, SpawnStep, UpdateAssetRequest, ASSET_CHANNEL,
    ASSET_PROTOCOL_VERSION, ASSET_READY_CHANNEL, MAX_ASSET_PAYLOAD_BYTES,
};
use world_loom::json::{parse_json, Json};
use world_loom::persistence::{StoredAssetDefinition, StoredAssetInstance};
use world_loom::scalar::Scalar;
use world_loom::sculpt_json::canonical_spec_json;
use world_loom::sculpt_spec::{
    validate_sculpt_spec, SculptCollision, SculptLod, SculptMaterial, SculptNode, SculptSpec,
    ValidatedSculptSpec,
};
use world_loom::world_command::world_bounds;

fn s(value: f64) -> Scalar {
    Scalar::from_bits(value.to_bits())
}

fn v(x: f64, y: f64, z: f64) -> [Scalar; 3] {
    [s(x), s(y), s(z)]
}

fn json(source: &str) -> Json {
    parse_json(source.as_bytes()).unwrap()
}

fn spec(asset_id: &str, version: u32) -> SculptSpec {
    SculptSpec {
        schema_version: 1,
        asset_id: asset_id.to_string(),
        version,
        name: "Prop".to_string(),
        materials: vec![SculptMaterial {
            id: "wood".to_string(),
            base_color: "#885522".to_string(),
            emissive_color: "#000000".to_string(),
            metalness: s(0.0),
            roughness: s(0.8),
            opacity: s(1.0),
        }],
        nodes: vec![SculptNode {
            id: "body".to_string(),
            parent: None,
            kind: "box".to_string(),
            material: Some("wood".to_string()),
            position: v(0.0, 0.5, 0.0),
            rotation_degrees: v(0.0, 0.0, 0.0),
            scale: v(1.0, 1.0, 1.0),
            size: Some(vec![s(1.0), s(1.0), s(1.0)]),
            radius: None,
            radius_top: None,
            radius_bottom: None,
            height: None,
            segments: None,
            repeat: None,
        }],
        collision: SculptCollision { mode: "bounds".to_string(), boxes: vec![] },
        lod: SculptLod { max_distance: s(64.0) },
        animations: vec![],
    }
}

fn named_spec(asset_id: &str, version: u32, name: &str) -> SculptSpec {
    SculptSpec { name: name.to_string(), ..spec(asset_id, version) }
}

fn validated(asset_id: &str, version: u32, name: &str) -> ValidatedSculptSpec {
    validate_sculpt_spec(named_spec(asset_id, version, name), None)
}

/// What the storage would hand back for a prospective entry.
fn decoded(entry: &AssetCatalogEntry, name: &str) -> DecodedAsset {
    DecodedAsset {
        stored: StoredAssetDefinition {
            asset_id: entry.asset_id.clone(),
            version: entry.version,
            spec_hash: entry.spec_hash.clone(),
            canonical_spec_json: canonical_spec_json(&entry.spec),
            budget_json: "{}".to_string(),
            actor: entry.actor.clone(),
            created_at: "now".to_string(),
        },
        spec: Ok((named_spec(&entry.asset_id, entry.version, name), None)),
        budget: Ok(entry.budget),
    }
}

fn empty_service() -> AssetService {
    match AssetService::load(Vec::new(), &Vec::new()) {
        Ok(service) => service,
        Err(message) => panic!("{message}"),
    }
}

fn publish(service: &mut AssetService, asset_id: &str, version: u32) {
    let name = format!("{asset_id}{version}");
    let prospective = match service.prepare_publish(validated(asset_id, version, &name)) {
        Ok(PublishStep::Store { prospective, canonical_json }) => {
            assert_eq!(canonical_json, canonical_spec_json(&prospective.spec));
            prospective
        }
        Ok(PublishStep::Existing(_)) => panic!("it is there already"),
        Err(message) => panic!("{message}"),
    };
    if let Err(message) = service.publish(Ok(decoded(&prospective, &name))) {
        panic!("{message}");
    }
}

fn request(asset_id: &str, version: u32) -> SpawnAssetRequest {
    SpawnAssetRequest {
        asset_id: asset_id.to_string(),
        version,
        idempotency_key: "restart-instance".to_string(),
        position: v(20.0, 65.0, 20.0),
        rotation_degrees: v(0.0, 0.0, 0.0),
        scale: v(1.0, 1.0, 1.0),
        interaction_state: json("{\"lit\":true}"),
    }
}

fn row(service: &AssetService, asset_id: &str) -> StoredAssetInstance {
    let request = request(asset_id, 1);
    let asset = service.prepare_spawn(world_bounds(), &request).ok().unwrap();
    match begin_spawn(request, Ok(None), &asset) {
        Ok(SpawnStep::Store { row, .. }) => row,
        Ok(SpawnStep::Existing(_)) => panic!("it was not spawned before"),
        Err(message) => panic!("{message}"),
    }
}

fn copy(row: &StoredAssetInstance) -> StoredAssetInstance {
    StoredAssetInstance {
        instance_id: row.instance_id.clone(),
        idempotency_key: row.idempotency_key.clone(),
        asset_id: row.asset_id.clone(),
        version: row.version,
        position: row.position,
        rotation_degrees: row.rotation_degrees,
        scale: row.scale,
        collision_json: row.collision_json.clone(),
        interaction_state_json: row.interaction_state_json.clone(),
        owner: row.owner.clone(),
        created_at: row.created_at.clone(),
        updated_at: row.updated_at.clone(),
        removed_at: row.removed_at.clone(),
    }
}

#[test]
fn transform_and_interaction_state_are_bounded() {
    let bounds = world_bounds();
    let zero = v(0.0, 0.0, 0.0);
    let one = v(1.0, 1.0, 1.0);
    assert!(validate_transform(bounds, &v(10.0, 65.0, 10.0), &zero, &one).is_ok());
    assert!(validate_transform(bounds, &v(1000.0, 65.0, 10.0), &zero, &one).is_err());
    assert!(validate_state(&json("{\"open\":true}")).is_ok());
    assert!(validate_state(&json("\"not an object\"")).is_err());
}

#[test]
fn transforms_are_checked_in_order() {
    let bounds = world_bounds();
    let zero = v(0.0, 0.0, 0.0);
    let one = v(1.0, 1.0, 1.0);
    let inside = v(-256.0, 95.0, 255.0);
    assert!(validate_transform(bounds, &inside, &v(3600.0, -3600.0, 0.0), &v(0.01, 16.0, 1.0)).is_ok());
    let error = |position: [Scalar; 3], rotation: [Scalar; 3], scale: [Scalar; 3]| {
        validate_transform(bounds, &position, &rotation, &scale).unwrap_err()
    };
    let outside = "asset position must be finite and inside active world bounds";
    assert_eq!(error(v(255.5, 65.0, 0.0), v(f64::NAN, 0.0, 0.0), one), outside);
    assert_eq!(error(v(f64::NAN, 65.0, 0.0), zero, one), outside);
    assert_eq!(
        error(inside, v(0.0, 3600.1, 0.0), v(0.0, 1.0, 1.0)),
        "asset rotation_degrees must be finite and in [-3600,3600]"
    );
    assert_eq!(
        error(inside, zero, v(1.0, 1.0, 16.5)),
        "asset scale must be finite and in [0.01,16]"
    );
    assert_eq!(
        error(inside, zero, v(1.0, 0.009, f64::INFINITY)),
        "asset scale must be finite and in [0.01,16]"
    );
}

#[test]
fn interaction_states_are_limited() {
    let error = |source: String| validate_state(&json(&source)).unwrap_err();
    assert_eq!(error("[]".to_string()), "interaction_state must be a JSON object");
    let big = format!("{{\"a\":[{}]}}", vec![format!("\"{}\"", "x".repeat(128)); 32].join(","));
    assert_eq!(
        error(big.clone()),
        format!("interaction_state is {} bytes; maximum is 4096", big.len())
    );
    assert_eq!(
        error(format!("{{\"a\":\"{}\"}}", "x".repeat(129))),
        "interaction_state strings are limited to 128 bytes"
    );
    assert_eq!(
        error(format!("{{\"{}\":1}}", "k".repeat(65))),
        "interaction_state keys are limited to 64 bytes"
    );
    assert_eq!(
        error(format!("{{\"a\":[{}]}}", vec!["1"; 33].join(","))),
        "interaction_state arrays and objects are limited to 32 entries"
    );
    assert!(validate_state(&json("{\"a\":[[[1]]]}")).is_ok());
    assert_eq!(
        error("{\"a\":[[[[1]]]]}".to_string()),
        "interaction_state nesting exceeds 4 levels"
    );
}

#[test]
fn idempotency_keys_have_a_length() {
    assert!(validate_instance_key("k").is_ok());
    assert!(validate_instance_key(&"k".repeat(128)).is_ok());
    for bad in [String::new(), "é".repeat(65)] {
        assert_eq!(
            validate_instance_key(&bad),
            Err("idempotency_key must contain 1..=128 UTF-8 bytes".to_string())
        );
    }
}

#[test]
fn payloads_and_snapshots_are_limited() {
    assert_eq!(check_asset_payload(vec![0; MAX_ASSET_PAYLOAD_BYTES]).unwrap().len(), 65_536);
    assert_eq!(
        check_asset_payload(vec![0; 65_537]),
        Err("asset protocol payload is 65537 bytes; maximum is 65536".to_string())
    );
    assert!(ensure_snapshot_budget(vec![0; 60_000]).is_ok());
    assert_eq!(
        ensure_snapshot_budget(vec![0; 60_001]),
        Err("asset catalog snapshot would be 60001 bytes; maximum is 60000".to_string())
    );
    assert_eq!(
        ensure_snapshot_budget(vec![0; 65_537]),
        Err("asset protocol payload is 65537 bytes; maximum is 65536".to_string())
    );
    assert_eq!(ASSET_PROTOCOL_VERSION, 1);
    assert_eq!((ASSET_CHANNEL, ASSET_READY_CHANNEL), ("world-loom:assets-v1", "world-loom:assets-ready-v1"));
}

#[test]
fn assets_are_published_once() {
    let mut service = empty_service();
    publish(&mut service, "restart_prop", 1);
    match service.prepare_publish(validated("restart_prop", 1, "restart_prop1")) {
        Ok(PublishStep::Existing(entry)) => assert_eq!(entry.created_at, "now"),
        _ => panic!("the same spec is in the catalog"),
    }
    assert_eq!(
        service.prepare_publish(validated("restart_prop", 1, "other")).err(),
        Some("asset restart_prop@1 already exists with a different spec_hash".to_string())
    );
    let events = service.drain_events();
    assert_eq!(events.len(), 1);
    assert!(matches!(&events[0], AssetProtocolEvent::AssetPublished { asset } if asset.version == 1));
    assert!(service.drain_events().is_empty());
}

#[test]
fn invalid_specs_are_refused_with_their_conflicts() {
    let service = empty_service();
    let mut bad = spec("p", 1);
    bad.nodes[0].size = None;
    let checked = validate_sculpt_spec(bad, None);
    let message = service.prepare_publish(checked).err().unwrap();
    let list = message.strip_prefix("SculptSpec validation failed: ").unwrap();
    let conflicts: serde_json::Value = serde_json::from_str(list).unwrap();
    assert!(conflicts.as_array().unwrap().len() >= 1);
    assert_eq!(conflicts[0]["node"], "body");
    assert!(conflicts[0]["code"].is_string() && conflicts[0]["message"].is_string());
}

#[test]
fn assets_are_listed_in_order_and_found_by_version() {
    let mut service = empty_service();
    for (id, version) in [("b", 1), ("a", 10), ("a", 2)] {
        publish(&mut service, id, version);
    }
    let keys: Vec<(String, u32)> =
        service.list_assets().iter().map(|entry| (entry.asset_id.clone(), entry.version)).collect();
    assert_eq!(keys, vec![("a".to_string(), 2), ("a".to_string(), 10), ("b".to_string(), 1)]);
    assert_eq!(service.get_asset("a", None).unwrap().version, 10);
    assert_eq!(service.get_asset("a", Some(2)).unwrap().version, 2);
    assert!(service.get_asset("a", Some(3)).is_none());
    assert!(service.get_asset("c", None).is_none());
}

#[test]
fn failed_storing_publishes_nothing() {
    let mut service = empty_service();
    assert_eq!(
        service.publish(Err("disk full".to_string())).err(),
        Some("persist asset definition failed: disk full".to_string())
    );
    assert!(service.list_assets().is_empty());
    assert!(service.drain_events().is_empty());
}

#[test]
fn stored_assets_are_verified() {
    let mut service = empty_service();
    publish(&mut service, "p", 1);
    let entry = service.get_asset("p", None).unwrap();
    let mut wrong = decoded(&entry, "p1");
    wrong.stored.spec_hash = "00".to_string();
    assert_eq!(
        catalog_entry_from_stored(wrong).err(),
        Some("stored asset p@1 failed validation or hash verification".to_string())
    );
    let mut unread = decoded(&entry, "p1");
    unread.spec = Err("bad json".to_string());
    assert_eq!(
        catalog_entry_from_stored(unread).err(),
        Some("decode stored SculptSpec failed: bad json".to_string())
    );
    let mut budget = decoded(&entry, "p1");
    budget.budget = Err("bad budget".to_string());
    assert_eq!(
        catalog_entry_from_stored(budget).err(),
        Some("decode stored asset budget failed: bad budget".to_string())
    );
    assert!(catalog_entry_from_stored(decoded(&entry, "p1")).is_ok());
}

#[test]
fn instances_are_spawned_updated_and_removed() {
    let mut service = empty_service();
    publish(&mut service, "p", 1);
    service.drain_events();
    let row = row(&service, "p");
    assert_eq!(row.instance_id.len(), 36);
    assert_eq!(row.owner, "mcp");
    assert_eq!(row.interaction_state_json, "{\"lit\":true}");
    let instance = service.spawn(Ok(copy(&row))).ok().unwrap();
    assert_eq!(service.list_instances().len(), 1);

    let update = || UpdateAssetRequest {
        instance_id: instance.instance_id.clone(),
        position: v(1.0, 70.0, 1.0),
        rotation_degrees: v(0.0, 90.0, 0.0),
        scale: v(2.0, 2.0, 2.0),
        interaction_state: json("{}"),
    };
    let current = service.prepare_update(world_bounds(), &update()).ok().unwrap();
    assert_eq!(
        plan_update(&current, update(), Err("x".to_string())).err(),
        Some("load asset instance failed: x".to_string())
    );
    assert_eq!(
        plan_update(&current, update(), Ok(None)).err(),
        Some("asset instance metadata is missing".to_string())
    );
    let changed = plan_update(&current, update(), Ok(Some(copy(&row)))).ok().unwrap();
    assert_eq!(changed.idempotency_key, "restart-instance");
    assert_eq!(changed.collision_json, "{\"boxes\":[],\"mode\":\"bounds\"}");
    assert_eq!(
        service.update(Err("x".to_string())).err(),
        Some("persist asset update failed: x".to_string())
    );
    let updated = service.update(Ok(copy(&changed))).ok().unwrap();
    assert_eq!(updated.position, v(1.0, 70.0, 1.0));
    assert_eq!(service.list_instances().len(), 1);

    let mut gone = copy(&changed);
    gone.removed_at = Some("now".to_string());
    let first = service.remove(&row.instance_id, Ok(Some(copy(&gone)))).ok().unwrap();
    assert!(first.compact_text().contains("\"already_removed\":false"));
    let repeated = service.remove(&row.instance_id, Ok(Some(copy(&gone)))).ok().unwrap();
    assert_eq!(
        repeated.compact_text(),
        format!(
            "{{\"already_removed\":true,\"instance_id\":\"{}\",\"removed\":true}}",
            row.instance_id
        )
    );
    assert!(service.list_instances().is_empty());
    let kinds: Vec<&str> = service
        .drain_events()
        .iter()
        .map(|event| match event {
            AssetProtocolEvent::SpawnInstance { .. } => "spawn",
            AssetProtocolEvent::UpdateInstance { .. } => "update",
            AssetProtocolEvent::RemoveInstance { .. } => "remove",
            _ => "other",
        })
        .collect();
    assert_eq!(kinds, vec!["spawn", "update", "remove"]);
}

#[test]
fn spawn_requests_are_checked_in_order() {
    let mut service = empty_service();
    let error = |service: &AssetService, request: SpawnAssetRequest| {
        service.prepare_spawn(world_bounds(), &request).err().unwrap()
    };
    assert_eq!(error(&service, request("p", 1)), "unknown asset p@1");
    let mut bad = request("p", 1);
    bad.interaction_state = json("1");
    assert_eq!(error(&service, bad), "interaction_state must be a JSON object");
    let mut bad = request("p", 1);
    bad.interaction_state = json("1");
    bad.scale = v(0.0, 0.0, 0.0);
    assert_eq!(error(&service, bad), "asset scale must be finite and in [0.01,16]");
    let mut bad = request("p", 1);
    bad.scale = v(0.0, 0.0, 0.0);
    bad.idempotency_key = String::new();
    assert_eq!(error(&service, bad), "idempotency_key must contain 1..=128 UTF-8 bytes");
    publish(&mut service, "p", 1);
    assert!(service.prepare_spawn(world_bounds(), &request("p", 1)).is_ok());
    let unknown = UpdateAssetRequest {
        instance_id: "nobody".to_string(),
        position: v(1.0, 70.0, 1.0),
        rotation_degrees: v(0.0, 0.0, 0.0),
        scale: v(1.0, 1.0, 1.0),
        interaction_state: json("{}"),
    };
    assert_eq!(
        service.prepare_update(world_bounds(), &unknown).err(),
        Some("unknown active instance_id `nobody`".to_string())
    );
}

#[test]
fn repeated_spawns_find_the_first_instance() {
    let mut service = empty_service();
    publish(&mut service, "p", 1);
    let row = row(&service, "p");
    match plan_spawn(request("p", 1), Ok(Some(copy(&row))), "{}".to_string(), "new".to_string()) {
        Ok(SpawnStep::Existing(instance)) => assert_eq!(instance.instance_id, row.instance_id),
        _ => panic!("it was spawned before"),
    }
    let mut other = request("p", 1);
    other.position = v(21.0, 65.0, 20.0);
    assert_eq!(
        plan_spawn(other, Ok(Some(copy(&row))), "{}".to_string(), "new".to_string()).err(),
        Some(
            "idempotency_key `restart-instance` is already bound to a different asset spawn"
                .to_string()
        )
    );
    assert_eq!(
        plan_spawn(request("p", 1), Err("x".to_string()), "{}".to_string(), "new".to_string()).err(),
        Some("load asset spawn idempotency record failed: x".to_string())
    );
    assert_eq!(
        service.spawn(Err("x".to_string())).err(),
        Some("persist asset instance failed: x".to_string())
    );
    assert!(service.list_instances().is_empty());
}

#[test]
fn new_instances_get_new_ids() {
    let mut service = empty_service();
    publish(&mut service, "p", 1);
    assert_ne!(row(&service, "p").instance_id, row(&service, "p").instance_id);
}

#[test]
fn removals_that_find_nothing_are_errors() {
    let mut service = empty_service();
    assert_eq!(
        service.remove("i", Ok(None)).err(),
        Some("unknown instance_id `i`".to_string())
    );
    assert_eq!(
        service.remove("i", Err("x".to_string())).err(),
        Some("persist asset removal failed: x".to_string())
    );
}

#[test]
fn stored_instances_are_decoded() {
    let mut service = empty_service();
    publish(&mut service, "p", 1);
    let good = row(&service, "p");
    let instance = instance_from_stored(&good).ok().unwrap();
    assert_eq!(instance.collision.compact_text(), "{\"boxes\":[],\"mode\":\"bounds\"}");
    let mut bad = copy(&good);
    bad.collision_json = "{".to_string();
    assert!(instance_from_stored(&bad)
        .err()
        .unwrap()
        .starts_with("decode stored collision metadata failed: EOF"));
    let mut bad = copy(&good);
    bad.interaction_state_json = "tru".to_string();
    let error = serde_json::from_str::<serde_json::Value>("tru").unwrap_err();
    assert_eq!(
        instance_from_stored(&bad).err(),
        Some(format!("decode stored interaction state failed: {error}"))
    );
}

#[test]
fn service_is_loaded_from_its_rows() {
    let mut service = empty_service();
    publish(&mut service, "p", 1);
    let entry = service.get_asset("p", None).unwrap();
    let row = row(&service, "p");
    let loaded = AssetService::load(vec![decoded(&entry, "p1")], &vec![copy(&row)]).ok().unwrap();
    assert_eq!(loaded.list_assets().len(), 1);
    assert_eq!(loaded.list_instances()[0].instance_id, row.instance_id);
    let expected =
        format!("persisted instance {} references missing asset p@1", row.instance_id);
    assert_eq!(AssetService::load(Vec::new(), &vec![copy(&row)]).err(), Some(expected));
    let mut unread = decoded(&entry, "p1");
    unread.spec = Err("x".to_string());
    assert_eq!(
        AssetService::load(vec![unread], &Vec::new()).err(),
        Some("decode stored SculptSpec failed: x".to_string())
    );
}

#[test]
fn snapshots_hold_everything_and_what_is_to_come() {
    let mut service = empty_service();
    publish(&mut service, "p", 1);
    let count = |event: AssetProtocolEvent| match event {
        AssetProtocolEvent::CatalogSnapshot { assets, instances } => (assets.len(), instances.len()),
        _ => panic!("a snapshot was asked for"),
    };
    assert_eq!(count(service.snapshot_event()), (1, 0));
    let entry = service.get_asset("p", None).unwrap();
    assert_eq!(count(service.snapshot_with_asset(&entry)), (2, 0));
    let instance = Arc::new(instance_from_stored(&row(&service, "p")).ok().unwrap());
    assert_eq!(count(service.snapshot_with_instance(&instance)), (1, 1));
}

#[test]
fn large_assets_are_warned_of() {
    let report = AssetService::validate_spec_value(validated("p", 3, "{}"));
    assert!(report.valid);
    assert_eq!((report.asset_id.as_str(), report.version), ("p", 3));
    assert!(report.warnings.is_empty());
    let mut large = validated("p", 3, "{}");
    large.budget.estimated_triangles = 40_001;
    assert_eq!(
        AssetService::validate_spec_value(large).warnings,
        vec!["asset is near the 50,000-triangle limit".to_string()]
    );
}
