use std::cell::Cell;

use valence::testing::ScenarioSingleClient;
use valence::ChunkLayer;
use world_loom::block::{BlockPos, BlockState, AIR, DIRT, GLASS, GRASS_BLOCK, STONE};
use world_loom::build_plan::{
    prepare_build_plan, BuildOperation, BuildPlan, PlanAnchor, PreparedPlan,
};
use world_loom::build_service::{
    apply_build_plan, begin_apply_build_plan, begin_undo_build, finish_apply_build_plan,
    finish_undo_build, get_build, neighbor_position, placement_anchor_in_layer,
    stored_build_summary, apply_result_json, undo_result_json, ApplyBuildResult, UndoBuildResult,
    validate_build_plan, validate_build_plan_with, validation_report_json, ApplyStep, UndoStep,
};
use world_loom::chunks::{begin_load_chunk, finish_load_chunk, ChunkLifecycle};
use world_loom::layer::{block_state_at, has_whole_sections};
use world_loom::persistence::{NewBuildRecord, StoredBuild};
use world_loom::position_map::PositionSet;
use world_loom::world_command::{
    execute_world_command, world_bounds, CommandContext, WorldCommand, WorldCommandError, GROUND_Y,
};

fn plan(operations: Vec<BuildOperation>) -> PreparedPlan {
    prepare_build_plan(
        BuildPlan {
            schema_version: 1,
            idempotency_key: "service-test".to_string(),
            anchor: PlanAnchor { x: 12, y: GROUND_Y + 1, z: 12 },
            replace_mode: "air_only".to_string(),
            operations,
        },
        world_bounds(),
    )
}

fn set(at: [i32; 3], block: &str) -> BuildOperation {
    BuildOperation::SetBlock { at, block: block.to_string() }
}

fn fill(from: [i32; 3], to: [i32; 3], block: &str) -> BuildOperation {
    BuildOperation::FillBox { from, to, block: block.to_string() }
}

fn flat_world(position: BlockPos) -> BlockState {
    if position.y == GROUND_Y {
        GRASS_BLOCK
    } else {
        AIR
    }
}

/// An empty layer with the column of the test plans loaded.
fn layer() -> ChunkLayer {
    let mut scenario = ScenarioSingleClient::new();
    let mut layer = scenario.app.world.entity_mut(scenario.layer).take::<ChunkLayer>().unwrap();
    assert!(has_whole_sections(&layer));
    let mut lifecycle = ChunkLifecycle::new();
    let column = world_loom::block::ChunkColumn::new(0, 0);
    begin_load_chunk(&mut layer, world_bounds(), &mut lifecycle, column);
    finish_load_chunk(&mut layer, world_bounds(), &mut lifecycle, column, Ok(None)).unwrap();
    layer
}

fn stored(record: &NewBuildRecord, state: &str) -> StoredBuild {
    StoredBuild {
        build_id: record.build_id.clone(),
        idempotency_key: record.idempotency_key.clone(),
        plan_hash: record.plan_hash.clone(),
        canonical_plan_json: record.canonical_plan_json.clone(),
        actor: record.actor.clone(),
        state: state.to_string(),
        changed: record.blocks.len(),
        skipped: 0,
        created_at: "then".to_string(),
        applied_at: "later".to_string(),
        undone_at: None,
        blocks: record.blocks.clone(),
    }
}

fn apply(prepared: &PreparedPlan, layer: &mut ChunkLayer) -> NewBuildRecord {
    match apply_build_plan(prepared, layer, world_bounds(), &PositionSet::new(), &None) {
        Ok(ApplyStep::Store(record)) => record,
        Ok(ApplyStep::Stored(_)) => panic!("nothing was stored before"),
        Err(message) => panic!("{message}"),
    }
}

#[test]
fn validation_uses_lower_blocks_created_earlier_in_the_plan() {
    let prepared = plan(vec![fill([0, 0, 0], [0, 2, 0], "stone")]);
    let report =
        validate_build_plan_with(&prepared, world_bounds(), &PositionSet::new(), flat_world);
    assert!(report.valid, "{:?}", report.conflicts);
}

#[test]
fn occupied_target_and_protected_spawn_are_reported() {
    let occupied = plan(vec![set([0, 0, 0], "stone")]);
    let occupied_report =
        validate_build_plan_with(&occupied, world_bounds(), &PositionSet::new(), |_| GLASS);
    assert_eq!(occupied_report.conflicts[0].code, "occupied_target");

    let protected = prepare_build_plan(
        BuildPlan {
            schema_version: 1,
            idempotency_key: "protected".to_string(),
            anchor: PlanAnchor { x: 0, y: 65, z: 0 },
            replace_mode: "air_only".to_string(),
            operations: vec![set([0, 0, 0], "stone")],
        },
        world_bounds(),
    );
    let protected_report =
        validate_build_plan_with(&protected, world_bounds(), &PositionSet::new(), flat_world);
    assert_eq!(protected_report.conflicts[0].code, "protected_region");
}

#[test]
fn validation_does_not_mutate_source_state() {
    let prepared = plan(vec![set([0, 0, 0], "stone")]);
    let reads = Cell::new(0);
    let report = validate_build_plan_with(
        &prepared,
        world_bounds(),
        &PositionSet::new(),
        |position| {
            reads.set(reads.get() + 1);
            flat_world(position)
        },
    );
    assert!(report.valid);
    assert!(reads.get() > 0);
}

#[test]
fn players_are_not_built_over() {
    let prepared = plan(vec![set([0, 0, 0], "stone")]);
    let mut occupied = PositionSet::new();
    occupied.insert(BlockPos::new(12, GROUND_Y + 1, 12), ());
    let report = validate_build_plan_with(&prepared, world_bounds(), &occupied, flat_world);
    assert!(!report.valid);
    assert_eq!(report.conflicts.len(), 1);
}

#[test]
fn floating_targets_have_no_anchor() {
    let prepared = plan(vec![set([0, 5, 0], "stone")]);
    let report =
        validate_build_plan_with(&prepared, world_bounds(), &PositionSet::new(), flat_world);
    assert!(!report.valid);
    assert_eq!(report.plan_hash, prepared.plan_hash);
    assert_eq!(report.expanded_targets, 1);
}

#[test]
fn report_json_is_json() {
    let prepared = plan(vec![set([0, 5, 0], "stone")]);
    let report =
        validate_build_plan_with(&prepared, world_bounds(), &PositionSet::new(), flat_world);
    let value: serde_json::Value =
        serde_json::from_str(&validation_report_json(&report)).expect("it parses");
    assert_eq!(value["valid"], false);
    assert_eq!(value["plan_hash"], prepared.plan_hash);
    assert_eq!(value["expanded_targets"], 1);
    assert_eq!(value["bounds"]["min"]["y"], GROUND_Y + 6);
    assert_eq!(value["conflicts"][0]["code"], report.conflicts[0].code);
    assert_eq!(value["conflicts"][0]["operation_index"], 0);
    assert_eq!(value["conflicts"][0]["position"]["x"], 12);
    assert_eq!(value["warnings"], serde_json::Value::Array(vec![]));
}

#[test]
fn build_is_applied_and_undone_in_the_live_world() {
    let mut layer = layer();
    let prepared = plan(vec![fill([0, 0, 0], [1, 1, 0], "stone"), set([0, 2, 0], "glass")]);
    let positions: Vec<BlockPos> = prepared.targets.iter().map(|t| t.position).collect();
    let before: Vec<BlockState> = positions.iter().map(|p| block_state_at(&layer, *p)).collect();
    assert_eq!(before, vec![AIR; 5]);

    let record = apply(&prepared, &mut layer);
    assert_eq!(record.build_id.len(), 36);
    assert_eq!(record.blocks.len(), 5);
    let after: Vec<BlockState> = positions.iter().map(|p| block_state_at(&layer, *p)).collect();
    assert_eq!(after, vec![STONE, STONE, STONE, STONE, GLASS]);

    let build = stored(&record, "applied");
    let result =
        finish_apply_build_plan(&mut layer, &record.blocks, Ok(stored(&record, "applied"))).unwrap();
    assert_eq!((result.changed, result.skipped, result.undo_available), (5, 0, true));

    assert!(matches!(
        begin_undo_build(&mut layer, world_bounds(), &build),
        Ok(UndoStep::Store)
    ));
    let restored: Vec<BlockState> = positions.iter().map(|p| block_state_at(&layer, *p)).collect();
    assert_eq!(restored, before);
    let result =
        finish_undo_build(&mut layer, &build.blocks, Ok(stored(&record, "undone"))).unwrap();
    assert_eq!((result.state.as_str(), result.restored, result.already_undone), ("undone", 5, false));
}

#[test]
fn new_builds_get_new_ids() {
    let mut layer = layer();
    let first = apply(&plan(vec![set([0, 0, 0], "stone")]), &mut layer);
    let second = apply(&plan(vec![set([1, 0, 0], "stone")]), &mut layer);
    assert_ne!(first.build_id, second.build_id);
    assert_eq!(first.build_id.matches('-').count(), 4);
}

#[test]
fn failed_storing_takes_the_build_back() {
    let mut layer = layer();
    let record = apply(&plan(vec![fill([0, 0, 0], [0, 2, 0], "stone")]), &mut layer);
    let message =
        match finish_apply_build_plan(&mut layer, &record.blocks, Err("disk full".to_string())) {
            Err(message) => message,
            Ok(_) => panic!("storing failed"),
        };
    assert_eq!(message, "durable build transaction failed; live world restored: disk full");
    assert_eq!(block_state_at(&layer, BlockPos::new(12, GROUND_Y + 1, 12)), AIR);
}

#[test]
fn failed_undo_storing_puts_the_build_back() {
    let mut layer = layer();
    let record = apply(&plan(vec![fill([0, 0, 0], [0, 2, 0], "stone")]), &mut layer);
    let build = stored(&record, "applied");
    assert!(begin_undo_build(&mut layer, world_bounds(), &build).is_ok());
    let message =
        match finish_undo_build(&mut layer, &build.blocks, Err("disk full".to_string())) {
            Err(message) => message,
            Ok(_) => panic!("storing failed"),
        };
    assert_eq!(
        message,
        "durable undo transaction failed; live applied state restored: disk full"
    );
    assert_eq!(block_state_at(&layer, BlockPos::new(12, GROUND_Y + 3, 12)), STONE);
}

#[test]
fn repeated_apply_answers_what_is_stored() {
    let mut layer = layer();
    let prepared = plan(vec![set([0, 0, 0], "stone")]);
    let record = apply(&prepared, &mut layer);
    let existing = Some(stored(&record, "applied"));
    let again = begin_apply_build_plan(
        &prepared,
        &mut layer,
        world_bounds(),
        &PositionSet::new(),
        &existing,
        "other".to_string(),
    );
    match again {
        Ok(ApplyStep::Stored(result)) => assert_eq!(result.build_id, record.build_id),
        _ => panic!("the build is stored"),
    }
    let other = plan(vec![set([1, 0, 0], "stone")]);
    let refused = begin_apply_build_plan(
        &other,
        &mut layer,
        world_bounds(),
        &PositionSet::new(),
        &existing,
        "other".to_string(),
    );
    match refused {
        Err(message) => assert!(message.starts_with("idempotency_key `service-test`"), "{message}"),
        Ok(_) => panic!("the key is bound to another plan"),
    }
    assert_eq!(block_state_at(&layer, BlockPos::new(13, GROUND_Y + 1, 12)), AIR);
}

#[test]
fn repeated_undo_answers_that_it_is_done() {
    let mut layer = layer();
    let record = apply(&plan(vec![set([0, 0, 0], "stone")]), &mut layer);
    let undone = stored(&record, "undone");
    match begin_undo_build(&mut layer, world_bounds(), &undone) {
        Ok(UndoStep::AlreadyUndone(result)) => {
            assert!(result.already_undone);
            assert_eq!(result.restored, 1);
        }
        _ => panic!("it was undone before"),
    }
    assert_eq!(block_state_at(&layer, BlockPos::new(12, GROUND_Y + 1, 12)), STONE);
}

#[test]
fn undo_is_refused_where_the_world_has_changed() {
    let mut layer = layer();
    let record = apply(&plan(vec![set([0, 0, 0], "stone")]), &mut layer);
    let position = BlockPos::new(12, GROUND_Y + 1, 12);
    execute_world_command(
        &mut layer,
        world_bounds(),
        WorldCommand::RemoveBlock { position },
        CommandContext::for_existing_block(STONE),
    )
    .unwrap();
    assert!(begin_undo_build(&mut layer, world_bounds(), &stored(&record, "applied")).is_err());
    assert_eq!(block_state_at(&layer, position), AIR);
}

#[test]
fn invalid_plans_are_not_applied() {
    let mut layer = layer();
    let prepared = plan(vec![set([0, 0, 0], "stone"), set([0, 9, 0], "glass")]);
    let refused =
        apply_build_plan(&prepared, &mut layer, world_bounds(), &PositionSet::new(), &None);
    assert!(refused.is_err());
    assert_eq!(block_state_at(&layer, BlockPos::new(12, GROUND_Y + 1, 12)), AIR);
    let report = validate_build_plan(&prepared, &layer, world_bounds(), &PositionSet::new());
    assert!(!report.valid);
}

#[test]
fn unloaded_positions_are_reported_and_untouched() {
    let mut layer = layer();
    let position = BlockPos::new(40, GROUND_Y + 1, 40);
    assert_eq!(block_state_at(&layer, position), AIR);
    let result = execute_world_command(
        &mut layer,
        world_bounds(),
        WorldCommand::SetBlock { position, block: DIRT },
        CommandContext::for_placement(AIR, GRASS_BLOCK, false),
    );
    assert_eq!(result, Err(WorldCommandError::MissingLoadedChunk { position }));
}

#[test]
fn anchors_are_found_below_first() {
    let layer = layer();
    assert_eq!(
        placement_anchor_in_layer(&layer, BlockPos::new(5, GROUND_Y + 1, 5)),
        GRASS_BLOCK
    );
    assert_eq!(placement_anchor_in_layer(&layer, BlockPos::new(5, GROUND_Y + 9, 5)), AIR);
    let p = BlockPos::new(5, 6, 7);
    let neighbors: Vec<Option<BlockPos>> = (0..6).map(|k| neighbor_position(p, k)).collect();
    assert_eq!(
        neighbors,
        vec![
            Some(BlockPos::new(5, 5, 7)),
            Some(BlockPos::new(5, 7, 7)),
            Some(BlockPos::new(4, 6, 7)),
            Some(BlockPos::new(6, 6, 7)),
            Some(BlockPos::new(5, 6, 6)),
            Some(BlockPos::new(5, 6, 8)),
        ]
    );
    assert_eq!(neighbor_position(BlockPos::new(i32::MIN, 0, 0), 2), None);
}

#[test]
fn unknown_builds_are_named() {
    assert_eq!(get_build(None, "b-1").err(), Some("unknown build_id `b-1`".to_string()));
}

#[test]
fn build_summary_is_the_stored_row() {
    let mut layer = layer();
    let record = apply(&plan(vec![set([0, 0, 0], "stone")]), &mut layer);
    let build = stored(&record, "applied");
    let value: serde_json::Value =
        serde_json::from_str(&stored_build_summary(&build).compact_text()).unwrap();
    assert_eq!(value["build_id"], record.build_id);
    assert_eq!(value["state"], "applied");
    assert_eq!(value["undo_available"], true);
    assert_eq!(value["changed"], 1);
    assert_eq!(value["undone_at"], serde_json::Value::Null);
    assert_eq!(value.as_object().unwrap().len(), 10);
}

#[test]
fn build_results_are_told() {
    let applied = ApplyBuildResult {
        build_id: "b-1".to_string(),
        plan_hash: "h".to_string(),
        changed: 3,
        skipped: 0,
        undo_available: true,
    };
    assert_eq!(
        apply_result_json(&applied).compact_text(),
        "{\"build_id\":\"b-1\",\"changed\":3,\"plan_hash\":\"h\",\"skipped\":0,\
         \"undo_available\":true}"
    );
    let undone = UndoBuildResult {
        build_id: "b-1".to_string(),
        state: "undone".to_string(),
        restored: 3,
        already_undone: false,
    };
    assert_eq!(
        undo_result_json(&undone).compact_text(),
        "{\"already_undone\":false,\"build_id\":\"b-1\",\"restored\":3,\"state\":\"undone\"}"
    );
}

#[test]
fn build_ids_are_random_identifiers() {
    let mut layer = layer();
    let first = apply(&plan(vec![set([0, 0, 0], "stone")]), &mut layer).build_id;
    let second = apply(&plan(vec![set([1, 0, 0], "stone")]), &mut layer).build_id;
    assert_ne!(first, second);
    for id in [first, second] {
        assert_eq!(id.len(), 36);
        for (i, c) in id.chars().enumerate() {
            match i {
                8 | 13 | 18 | 23 => assert_eq!(c, '-'),
                14 => assert_eq!(c, '4'),
                19 => assert!(matches!(c, '8' | '9' | 'a' | 'b')),
                _ => assert!(matches!(c, '0'..='9' | 'a'..='f')),
            }
        }
    }
}
