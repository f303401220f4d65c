use serde_json::Value;
use sha2::Digest;
use world_loom::block::{BlockPos, GLASS, STONE};
use world_loom::build_plan::{
    prepare_build_plan, target_positions, BuildOperation, BuildPlan, PlanAnchor, PlanConflict,
    PlanPosition, MAX_BUILD_TARGETS,
};
use world_loom::world_command::{world_bounds, WorldBounds};

fn plan(operations: Vec<BuildOperation>) -> BuildPlan {
    BuildPlan {
        schema_version: 1,
        idempotency_key: "test-key".to_string(),
        anchor: PlanAnchor { x: 8, y: 65, z: 8 },
        replace_mode: "air_only".to_string(),
        operations,
    }
}

fn set(at: [i32; 3], block: &str) -> BuildOperation {
    BuildOperation::SetBlock { at, block: block.to_string() }
}

fn fill(from: [i32; 3], to: [i32; 3], block: &str) -> BuildOperation {
    BuildOperation::FillBox { from, to, block: block.to_string() }
}

fn coordinates(value: &Value) -> [i32; 3] {
    let items = value.as_array().unwrap();
    [0, 1, 2].map(|i: usize| items[i].as_i64().unwrap() as i32)
}

fn plan_of(value: &Value) -> BuildPlan {
    let operations = value["operations"]
        .as_array()
        .unwrap()
        .iter()
        .map(|operation| match operation["op"].as_str().unwrap() {
            "set" => set(coordinates(&operation["at"]), operation["block"].as_str().unwrap()),
            _ => fill(
                coordinates(&operation["from"]),
                coordinates(&operation["to"]),
                operation["block"].as_str().unwrap(),
            ),
        })
        .collect();
    BuildPlan {
        schema_version: value["schema_version"].as_u64().unwrap() as u32,
        idempotency_key: value["idempotency_key"].as_str().unwrap().to_string(),
        anchor: PlanAnchor {
            x: value["anchor"]["x"].as_i64().unwrap() as i32,
            y: value["anchor"]["y"].as_i64().unwrap() as i32,
            z: value["anchor"]["z"].as_i64().unwrap() as i32,
        },
        replace_mode: value["replace_mode"].as_str().unwrap().to_string(),
        operations,
    }
}

#[test]
fn set_and_fill_expand_in_y_x_z_order() {
    let prepared = prepare_build_plan(
        plan(vec![set([0, 0, 0], "stone"), fill([1, 0, 0], [2, 1, 0], "glass")]),
        world_bounds(),
    );
    assert!(prepared.conflicts.is_empty());
    assert_eq!(prepared.targets.len(), 5);
    assert_eq!(prepared.targets[0].position, BlockPos::new(8, 65, 8));
    assert_eq!(prepared.targets[1].position, BlockPos::new(9, 65, 8));
    assert_eq!(prepared.targets[2].position, BlockPos::new(10, 65, 8));
    assert_eq!(prepared.targets[3].position, BlockPos::new(9, 66, 8));
    assert_eq!(prepared.targets[4].position, BlockPos::new(10, 66, 8));
    assert_eq!(prepared.targets[0].block, STONE);
    assert_eq!(prepared.targets[4].block, GLASS);
    assert_eq!(prepared.targets[4].operation_index, 1);
    let bounds = prepared.bounds.expect("there are targets");
    assert_eq!(bounds.min, PlanPosition { x: 8, y: 65, z: 8 });
    assert_eq!(bounds.max, PlanPosition { x: 10, y: 66, z: 8 });
}

#[test]
fn duplicate_expansion_is_rejected() {
    let prepared = prepare_build_plan(
        plan(vec![set([0, 0, 0], "stone"), set([0, 0, 0], "glass")]),
        world_bounds(),
    );
    assert_eq!(prepared.conflicts[0].code, "duplicate_target");
}

#[test]
fn target_limit_is_checked_during_expansion() {
    let prepared =
        prepare_build_plan(plan(vec![fill([0, 0, 0], [256, 0, 0], "stone")]), world_bounds());
    assert_eq!(prepared.targets.len(), MAX_BUILD_TARGETS);
    assert!(prepared.conflicts.iter().any(|conflict| conflict.code == "expanded_target_limit"));
}

#[test]
fn canonical_hash_ignores_input_key_order() {
    let a: Value = serde_json::from_str(
        r#"{"schema_version": 1, "idempotency_key": "same", "anchor": {"x": 8, "y": 65, "z": 8},
            "replace_mode": "air_only",
            "operations": [{"op": "set", "at": [0, 0, 0], "block": "stone"}]}"#,
    )
    .unwrap();
    let b: Value = serde_json::from_str(
        r#"{"operations": [{"block": "stone", "at": [0, 0, 0], "op": "set"}],
            "replace_mode": "air_only", "anchor": {"z": 8, "y": 65, "x": 8},
            "idempotency_key": "same", "schema_version": 1}"#,
    )
    .unwrap();
    let a = prepare_build_plan(plan_of(&a), world_bounds());
    let b = prepare_build_plan(plan_of(&b), world_bounds());
    assert_eq!(a.plan_hash, b.plan_hash);
    assert_eq!(a.canonical_json, b.canonical_json);
}

#[test]
fn canonical_json_is_json_in_declaration_order() {
    let prepared = prepare_build_plan(
        plan(vec![set([0, -1, 0], "sto\"ne\n"), fill([1, 0, 0], [2, 1, 0], "glass")]),
        world_bounds(),
    );
    assert_eq!(
        prepared.canonical_json,
        "{\"schema_version\":1,\"idempotency_key\":\"test-key\",\"anchor\":{\"x\":8,\"y\":65,\
         \"z\":8},\"replace_mode\":\"air_only\",\"operations\":[{\"op\":\"set\",\"at\":[0,-1,0],\
         \"block\":\"sto\\\"ne\\n\"},{\"op\":\"fill_box\",\"from\":[1,0,0],\"to\":[2,1,0],\
         \"block\":\"glass\"}]}"
    );
    assert!(serde_json::from_str::<Value>(&prepared.canonical_json).is_ok());
}

#[test]
fn plan_hash_is_the_sha256_of_the_canonical_json() {
    let prepared = prepare_build_plan(plan(vec![set([0, 0, 0], "stone")]), world_bounds());
    let digest: [u8; 32] = sha2::Sha256::digest(prepared.canonical_json.as_bytes()).into();
    let expected: String = digest.iter().map(|byte| format!("{byte:02x}")).collect();
    assert_eq!(prepared.plan_hash, expected);
}

fn codes(conflicts: &[PlanConflict]) -> Vec<&str> {
    conflicts.iter().map(|conflict| conflict.code.as_str()).collect()
}

#[test]
fn header_conflicts_are_reported() {
    let mut bad = plan(vec![]);
    bad.schema_version = 2;
    bad.idempotency_key = String::new();
    bad.replace_mode = "all".to_string();
    let prepared = prepare_build_plan(bad, world_bounds());
    let found = codes(&prepared.conflicts);
    for code in ["unsupported_schema_version", "invalid_idempotency_key"] {
        assert!(found.contains(&code), "{found:?}");
    }
    assert!(found.len() >= 4, "{found:?}");
    assert!(prepared.bounds.is_none());
    assert!(prepared.targets.is_empty());

    let mut long = plan(vec![set([0, 0, 0], "stone")]);
    long.idempotency_key = "é".repeat(65);
    let prepared = prepare_build_plan(long, world_bounds());
    assert_eq!(codes(&prepared.conflicts), vec!["invalid_idempotency_key"]);
}

#[test]
fn operation_conflicts_are_reported() {
    let found = |operations: Vec<BuildOperation>| -> Vec<String> {
        prepare_build_plan(plan(operations), world_bounds())
            .conflicts
            .iter()
            .map(|conflict| conflict.code.clone())
            .collect()
    };
    assert!(!found(vec![set([0, 0, 0], "diamond_block")]).is_empty());
    assert!(!found(vec![fill([1, 0, 0], [0, 0, 0], "stone")]).is_empty());
    assert!(!found(vec![set([1000, 0, 0], "stone")]).is_empty());
    assert!(!found(vec![set([i32::MAX, 0, 0], "stone")]).is_empty());
    assert!(found(vec![set([0, 0, 0], "stone")]).is_empty());
}

#[test]
fn near_limit_plans_carry_a_warning() {
    let many = prepare_build_plan(plan(vec![fill([0, 0, 0], [19, 0, 10], "stone")]), world_bounds());
    assert_eq!(many.targets.len(), 220);
    assert_eq!(many.warnings, vec!["plan is near the synchronous 256-target limit".to_string()]);
    let few = prepare_build_plan(plan(vec![set([0, 0, 0], "stone")]), world_bounds());
    assert!(few.warnings.is_empty());
}

#[test]
fn target_positions_are_a_set() {
    let prepared =
        prepare_build_plan(plan(vec![fill([0, 0, 0], [1, 0, 1], "stone")]), world_bounds());
    let positions = target_positions(&prepared.targets);
    assert_eq!(positions.len(), 4);
    assert!(positions.contains(BlockPos::new(9, 65, 9)));
    assert!(!positions.contains(BlockPos::new(7, 65, 8)));
}

#[test]
fn conflicts_are_made_of_their_parts() {
    let conflict = PlanConflict::plan("code", "text".to_string());
    assert_eq!(conflict.operation_index, None);
    assert_eq!(conflict.position, None);
    let conflict = PlanConflict::operation("code", "text".to_string(), 3);
    assert_eq!(conflict.operation_index, Some(3));
    assert_eq!((conflict.code.as_str(), conflict.message.as_str()), ("code", "text"));
}

#[test]
fn plan_hash_rests_on_the_plan_alone() {
    let wide = prepare_build_plan(plan(vec![set([0, 0, 0], "stone")]), world_bounds());
    let none = WorldBounds { min_x: 1, max_x: 0, min_y: 1, max_y: 0, min_z: 1, max_z: 0 };
    let narrow = prepare_build_plan(plan(vec![set([0, 0, 0], "stone")]), none);
    assert_ne!(wide.conflicts.len(), narrow.conflicts.len());
    assert_eq!(wide.canonical_json, narrow.canonical_json);
    assert_eq!(wide.plan_hash, narrow.plan_hash);
    assert_eq!(wide.plan_hash.len(), 64);
    assert!(wide.plan_hash.chars().all(|c| matches!(c, '0'..='9' | 'a'..='f')));
}
