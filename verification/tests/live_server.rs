use valence::testing::ScenarioSingleClient;
use valence::{ChunkLayer, ItemKind};
use world_loom::block::{BlockPos, ChunkColumn, AIR, BEDROCK, DIRT, GLASS, GRASS_BLOCK, STONE};
use world_loom::bridge::BridgeConfig;
use world_loom::chunks::{
    begin_load_chunk, bounded_view_distance, desired_chunks, finish_load_chunk,
    generate_base_chunk, interest_chunk_capacity, neighbor_columns, region_columns,
    unload_unwanted_chunks, ChunkLifecycle, LoadStep, DEFAULT_VIEW_DISTANCE_CHUNKS,
    MAX_VIEW_DISTANCE_CHUNKS,
};
use world_loom::json::{integer, json_of_value, parse_json, value_of_json, Items, Json};
use world_loom::layer::{block_state_at, has_whole_sections};
use world_loom::mcp::Region;
use world_loom::persistence::{SavedBlockOverride, StoredChunk};
use world_loom::server::{
    bridge_json, chunk_lifecycle_json, columns_for_plan, ensure_in_bounds,
    ensure_region_in_bounds, fill_region, fill_region_via_world_command, format_player_pings,
    get_block, get_in_direction, handle_mcp_tool, handle_player_digging, handle_player_placement,
    is_telemetry_due,
    network_json, palette_json, performance_json, plan_tool, player_json, players_json,
    region_positions, remove_block, server_status_json, set_block, snapshot_region, storage_json,
    telemetry_action_bar, telemetry_footer, telemetry_header, tool_kind_of, world_bounds_json,
    Face, PlacementClick, PlayerEdit, PlayerTelemetry, StatusParts, TickTimes, ToolKind, ToolPlan,
};
use world_loom::world_command::{world_bounds, GROUND_Y, SPAWN_FEET_Y};
use world_loom::writer::PersistenceStats;

fn pos(x: i32, y: i32, z: i32) -> BlockPos {
    BlockPos::new(x, y, z)
}

fn json(source: &str) -> Json {
    parse_json(source.as_bytes()).unwrap()
}

fn empty_layer() -> ChunkLayer {
    let mut scenario = ScenarioSingleClient::new();
    let layer = scenario.app.world.entity_mut(scenario.layer).take::<ChunkLayer>().unwrap();
    assert!(has_whole_sections(&layer));
    layer
}

/// A layer with the column at the origin loaded.
fn world() -> (ChunkLayer, ChunkLifecycle) {
    let mut layer = empty_layer();
    let mut lifecycle = ChunkLifecycle::new();
    let column = ChunkColumn::new(0, 0);
    assert_eq!(
        begin_load_chunk(&mut layer, world_bounds(), &mut lifecycle, column),
        LoadStep::Read
    );
    finish_load_chunk(&mut layer, world_bounds(), &mut lifecycle, column, Ok(None)).unwrap();
    (layer, lifecycle)
}

fn region(min: BlockPos, max: BlockPos) -> Region {
    Region { min, max }
}

#[test]
fn telemetry_formats_player_count_and_ping() {
    let players = vec![
        PlayerTelemetry { username: "loom_a".to_string(), ping_ms: 42 },
        PlayerTelemetry { username: "loom_b".to_string(), ping_ms: -1 },
    ];
    let times = TickTimes {
        last: format!("{:.2}", 3.25),
        average: format!("{:.2}", 3.0),
        longest: format!("{:.2}", 4.5),
    };
    assert_eq!(
        telemetry_header(80, players.len(), 6),
        "World Loom V3 | tick 80 | players 2 | view 6 chunks"
    );
    assert_eq!(
        telemetry_footer(&times, 64, 64, &players),
        "MSPT last 3.25 avg 3.00 max 4.50 | chunks 64/64 | loom_a=42ms, loom_b=pending"
    );
    assert_eq!(
        telemetry_action_bar(80, &times, players.len(), 64),
        "V3 tick 80 | MSPT 3.25/3.00 avg | 2 players | 64 chunks"
    );
    assert_eq!(format_player_pings(&Vec::new()), "no connected players");
}

#[test]
fn view_distance_defaults_and_clamps() {
    assert_eq!(bounded_view_distance(None), DEFAULT_VIEW_DISTANCE_CHUNKS);
    assert_eq!(bounded_view_distance(Some("1")), 2);
    assert_eq!(bounded_view_distance(Some("64")), MAX_VIEW_DISTANCE_CHUNKS);
    assert_eq!(bounded_view_distance(Some("8")), 8);
    assert_eq!(interest_chunk_capacity(2), 25);
}

#[test]
fn view_distance_that_is_no_byte_is_the_default() {
    assert_eq!(bounded_view_distance(Some("256")), 6);
    assert_eq!(bounded_view_distance(Some(" +9 ")), 9);
    assert_eq!(bounded_view_distance(Some("x")), 6);
    assert_eq!(interest_chunk_capacity(255), 511 * 511);
}

#[test]
fn telemetry_is_due_every_twenty_ticks() {
    assert!(is_telemetry_due(None, 0));
    assert!(is_telemetry_due(Some(20), 40));
    assert!(!is_telemetry_due(Some(40), 40));
    assert!(!is_telemetry_due(None, 41));
    assert!(is_telemetry_due(None, -20));
    assert!(!is_telemetry_due(None, -19));
    assert_eq!(is_telemetry_due(None, i64::MIN), i64::MIN % 20 == 0);
}

#[test]
fn wanted_columns_are_near_a_player_and_in_the_world() {
    let centers = vec![ChunkColumn::new(0, 0), ChunkColumn::new(i32::MAX, i32::MIN)];
    let desired = desired_chunks(&centers, world_bounds(), 2);
    assert_eq!(desired.len(), 49);
    assert!(desired.get(&ChunkColumn::new(-3, 3)).is_some());
    assert!(desired.get(&ChunkColumn::new(-4, 0)).is_none());
    let corner = desired_chunks(&vec![ChunkColumn::new(15, 15)], world_bounds(), 12);
    assert_eq!(corner.len(), 196);
    assert_eq!(desired_chunks(&Vec::new(), world_bounds(), 12).len(), 0);
}

#[test]
fn column_is_filled_with_the_ground() {
    let (layer, lifecycle) = world();
    assert_eq!(block_state_at(&layer, pos(3, GROUND_Y - 4, 3)), BEDROCK);
    assert_eq!(block_state_at(&layer, pos(3, GROUND_Y - 3, 3)), STONE);
    assert_eq!(block_state_at(&layer, pos(3, GROUND_Y - 2, 3)), DIRT);
    assert_eq!(block_state_at(&layer, pos(15, GROUND_Y, 15)), GRASS_BLOCK);
    assert_eq!(block_state_at(&layer, pos(3, GROUND_Y + 1, 3)), AIR);
    assert_eq!(block_state_at(&layer, pos(16, GROUND_Y, 3)), AIR);
    assert_eq!((lifecycle.generated_chunks, lifecycle.storage_loaded_chunks), (1, 0));
}

#[test]
fn saved_blocks_come_back_when_a_column_is_loaded() {
    let mut layer = empty_layer();
    let mut lifecycle = ChunkLifecycle::new();
    let column = ChunkColumn::new(0, 0);
    let saved = |position, block| SavedBlockOverride { position, block };
    let stored = StoredChunk {
        column,
        blocks: vec![
            saved(pos(1, GROUND_Y, 1), AIR),
            saved(pos(2, GROUND_Y + 1, 2), GLASS),
            saved(pos(2, 500, 2), GLASS),
        ],
    };
    begin_load_chunk(&mut layer, world_bounds(), &mut lifecycle, column);
    finish_load_chunk(&mut layer, world_bounds(), &mut lifecycle, column, Ok(Some(stored))).unwrap();
    assert_eq!(block_state_at(&layer, pos(1, GROUND_Y, 1)), AIR);
    assert_eq!(block_state_at(&layer, pos(2, GROUND_Y + 1, 2)), GLASS);
    assert_eq!(block_state_at(&layer, pos(2, GROUND_Y, 2)), GRASS_BLOCK);
    assert_eq!((lifecycle.generated_chunks, lifecycle.storage_loaded_chunks), (1, 1));
}

#[test]
fn columns_are_loaded_once_and_only_in_the_world() {
    let (mut layer, mut lifecycle) = world();
    let again = begin_load_chunk(&mut layer, world_bounds(), &mut lifecycle, ChunkColumn::new(0, 0));
    assert_eq!(again, LoadStep::Done);
    let outside =
        begin_load_chunk(&mut layer, world_bounds(), &mut lifecycle, ChunkColumn::new(16, 9));
    assert_eq!(outside, LoadStep::Done);
    assert_eq!(lifecycle.loaded.len(), 1);
    let column = ChunkColumn::new(1, 0);
    begin_load_chunk(&mut layer, world_bounds(), &mut lifecycle, column);
    let failed = finish_load_chunk(
        &mut layer,
        world_bounds(),
        &mut lifecycle,
        column,
        Err("disk".to_string()),
    );
    assert_eq!(failed, Err("load chunk storage failed: disk".to_string()));
    assert_eq!(lifecycle.loaded.len(), 1);
    assert_eq!(block_state_at(&layer, pos(16, GROUND_Y, 3)), GRASS_BLOCK);
}

#[test]
fn unwanted_columns_are_unloaded() {
    let (mut layer, mut lifecycle) = world();
    let far = ChunkColumn::new(3, 3);
    begin_load_chunk(&mut layer, world_bounds(), &mut lifecycle, far);
    finish_load_chunk(&mut layer, world_bounds(), &mut lifecycle, far, Ok(None)).unwrap();
    let desired = desired_chunks(&vec![ChunkColumn::new(0, 0)], world_bounds(), 0);
    unload_unwanted_chunks(&mut layer, &mut lifecycle, &desired);
    assert_eq!(block_state_at(&layer, pos(50, GROUND_Y, 50)), AIR);
    assert_eq!(block_state_at(&layer, pos(1, GROUND_Y, 1)), GRASS_BLOCK);
    assert_eq!((lifecycle.loaded.len(), lifecycle.unloaded_chunks), (1, 1));
    generate_base_chunk(&mut layer, world_bounds(), far);
    assert_eq!(block_state_at(&layer, pos(50, GROUND_Y, 50)), AIR);
}

#[test]
fn lifecycle_counts_each_column_once() {
    let mut lifecycle = ChunkLifecycle::new();
    let a = ChunkColumn::new(0, 0);
    let b = ChunkColumn::new(0, 1);
    lifecycle.mark_loaded_generated(a);
    lifecycle.mark_loaded_generated(a);
    lifecycle.mark_loaded_from_storage(b);
    lifecycle.mark_loaded_from_storage(a);
    lifecycle.mark_dirty(ChunkColumn::new(5, 5));
    lifecycle.mark_dirty(a);
    lifecycle.mark_unloaded(b);
    lifecycle.mark_unloaded(b);
    assert_eq!(
        chunk_lifecycle_json(&lifecycle).compact_text(),
        "{\"dirty_chunks_marked\":2,\"generated_chunks\":2,\"loaded_chunks\":2,\
         \"storage_loaded_chunks\":1,\"unloaded_chunks\":1}"
    );
}

#[test]
fn columns_to_load_are_listed() {
    assert_eq!(
        neighbor_columns(world_bounds(), pos(0, GROUND_Y + 1, 5)),
        vec![
            ChunkColumn::new(0, 0),
            ChunkColumn::new(0, 0),
            ChunkColumn::new(0, 0),
            ChunkColumn::new(-1, 0),
            ChunkColumn::new(0, 0),
            ChunkColumn::new(0, 0),
            ChunkColumn::new(0, 0),
        ]
    );
    assert_eq!(neighbor_columns(world_bounds(), pos(255, 95, 255)).len(), 4);
    assert_eq!(
        region_columns(pos(-1, 0, 15), pos(0, 0, 16)),
        vec![
            ChunkColumn::new(-1, 0),
            ChunkColumn::new(0, 0),
            ChunkColumn::new(-1, 1),
            ChunkColumn::new(0, 1),
        ]
    );
}

#[test]
fn region_positions_run_layer_by_layer() {
    let small = region(pos(0, 5, 0), pos(1, 6, 1));
    let upwards = region_positions(small, false);
    assert_eq!(
        upwards,
        vec![
            pos(0, 5, 0),
            pos(0, 5, 1),
            pos(1, 5, 0),
            pos(1, 5, 1),
            pos(0, 6, 0),
            pos(0, 6, 1),
            pos(1, 6, 0),
            pos(1, 6, 1),
        ]
    );
    let downwards = region_positions(small, true);
    assert_eq!(downwards[0], pos(0, 6, 0));
    assert_eq!(downwards[7], pos(1, 5, 1));
}

#[test]
fn positions_outside_the_world_are_named() {
    assert!(ensure_in_bounds(world_bounds(), pos(0, 64, 0)).is_ok());
    assert_eq!(
        ensure_in_bounds(world_bounds(), pos(256, 64, 0)),
        Err("position BlockPos { x: 256, y: 64, z: 0 } is outside world bounds".to_string())
    );
    assert_eq!(
        ensure_region_in_bounds(world_bounds(), region(pos(0, 64, 0), pos(0, 96, 0))),
        Err("position BlockPos { x: 0, y: 96, z: 0 } is outside world bounds".to_string())
    );
}

#[test]
fn one_block_is_set_and_removed() {
    let (mut layer, mut lifecycle) = world();
    let position = pos(5, GROUND_Y + 1, 5);
    let done = set_block(
        &mut layer,
        world_bounds(),
        &mut lifecycle,
        position,
        &json("{\"block\":\"glass\"}"),
    );
    assert_eq!(block_state_at(&layer, position), GLASS);
    assert_eq!(done.edits.len(), 1);
    assert_eq!((done.edits[0].position, done.edits[0].block), (position, GLASS));
    assert_eq!(
        done.answer.ok().unwrap().compact_text(),
        format!(
            "{{\"block\":{{\"block\":\"glass\",\"block_state_raw\":{GLASS},\"x\":5,\"y\":65,\"z\":5}},\"edited\":1}}"
        )
    );
    assert_eq!(lifecycle.dirty_chunks_marked, 1);
    assert_eq!(get_block(&layer, position).get("block").and_then(Json::as_str), Some("glass"));
    let done = remove_block(&mut layer, world_bounds(), &mut lifecycle, position);
    assert!(done.answer.is_ok());
    assert_eq!(block_state_at(&layer, position), AIR);
    assert!(!done.edits[0].needs_override());
}

#[test]
fn refused_edits_change_nothing() {
    let (mut layer, mut lifecycle) = world();
    let error = |layer: &mut ChunkLayer, lifecycle: &mut ChunkLifecycle, position, arguments: &str| {
        let done = set_block(layer, world_bounds(), lifecycle, position, &json(arguments));
        assert!(done.edits.is_empty());
        done.answer.err().unwrap()
    };
    let position = pos(5, GROUND_Y + 1, 5);
    assert_eq!(
        error(&mut layer, &mut lifecycle, position, "{\"block\":\"air\"}"),
        "set_block does not accept air; use remove_block"
    );
    assert_eq!(
        error(&mut layer, &mut lifecycle, position, "{\"block\":\"sand\"}"),
        "unsupported block `sand`"
    );
    assert!(error(&mut layer, &mut lifecycle, position, "{\"block\":\"diamond_block\"}")
        .ends_with("is not allowed in M2"));
    assert!(error(&mut layer, &mut lifecycle, pos(0, SPAWN_FEET_Y, 0), "{\"block\":\"stone\"}")
        .ends_with("is protected spawn space"));
    assert!(error(&mut layer, &mut lifecycle, pos(5, 80, 5), "{\"block\":\"stone\"}")
        .ends_with("cannot be placed against air"));
    let gone = remove_block(&mut layer, world_bounds(), &mut lifecycle, position);
    assert!(gone.answer.err().unwrap().ends_with("is already air"));
    assert_eq!(lifecycle.dirty_chunks_marked, 0);
    assert_eq!(block_state_at(&layer, position), AIR);
}

#[test]
fn regions_are_filled_and_emptied() {
    let (mut layer, mut lifecycle) = world();
    let area = region(pos(4, GROUND_Y + 1, 4), pos(5, GROUND_Y + 3, 5));
    let filled =
        fill_region(&mut layer, world_bounds(), &mut lifecycle, area, &json("{\"block\":\"stone\"}"));
    assert_eq!(filled.edits.len(), 12);
    assert_eq!(
        filled.answer.ok().unwrap().compact_text(),
        "{\"block\":\"stone\",\"edited\":12,\"max\":{\"x\":5,\"y\":67,\"z\":5},\
         \"min\":{\"x\":4,\"y\":65,\"z\":4},\"skipped\":0}"
    );
    assert_eq!(lifecycle.dirty_chunks_marked, 12);
    for position in region_positions(area, false) {
        assert_eq!(block_state_at(&layer, position), STONE);
    }
    let snapshot = snapshot_region(&layer, area);
    let snapshot = value_of_json(&snapshot);
    assert_eq!(snapshot["volume"], 12);
    assert_eq!(snapshot["blocks"].as_array().unwrap().len(), 12);
    assert_eq!(snapshot["blocks"][11]["block"], "stone");
    let taller = region(area.min, pos(5, GROUND_Y + 4, 5));
    let emptied = fill_region(
        &mut layer,
        world_bounds(),
        &mut lifecycle,
        taller,
        &json("{\"block\":\"air\"}"),
    );
    assert_eq!(emptied.edits.len(), 12);
    assert_eq!(emptied.edits[0].position.y, GROUND_Y + 3);
    assert!(emptied.answer.ok().unwrap().compact_text().contains("\"skipped\":4"));
    assert_eq!(block_state_at(&layer, area.min), AIR);
}

#[test]
fn failed_fills_hand_back_the_edits_that_were_made() {
    let (mut layer, mut lifecycle) = world();
    let area = region(pos(4, GROUND_Y + 1, 4), pos(4, GROUND_Y + 1, 6));
    set_block(
        &mut layer,
        world_bounds(),
        &mut lifecycle,
        pos(4, GROUND_Y + 1, 5),
        &json("{\"block\":\"glass\"}"),
    );
    let outcome = fill_region_via_world_command(&mut layer, world_bounds(), area, STONE);
    assert_eq!(outcome.edits.len(), 1);
    assert!(outcome
        .error
        .unwrap()
        .starts_with("fill_region failed at BlockPos { x: 4, y: 65, z: 5 }: position"));
    assert_eq!(block_state_at(&layer, pos(4, GROUND_Y + 1, 4)), STONE);
    assert_eq!(block_state_at(&layer, pos(4, GROUND_Y + 1, 6)), AIR);
    let unnamed = fill_region(&mut layer, world_bounds(), &mut lifecycle, area, &json("{}"));
    assert_eq!(unnamed.answer.err(), Some("missing string argument `block`".to_string()));
    assert!(unnamed.edits.is_empty());
}

#[test]
fn tools_are_carried_out_as_planned() {
    let (mut layer, mut lifecycle) = world();
    let mut call = |name: &str, arguments: &str| {
        let arguments = json(arguments);
        let plan = plan_tool(name, &arguments, world_bounds()).ok().unwrap();
        handle_mcp_tool(&plan, &mut layer, world_bounds(), &mut lifecycle, &arguments)
    };
    let at = "\"x\":7,\"y\":65,\"z\":7";
    let block = |answer: Json| {
        let value = value_of_json(&answer);
        value["block"].as_str().map(str::to_string)
    };
    let read = call("get_block", &format!("{{{at}}}")).unwrap();
    assert!(read.edits.is_empty());
    assert_eq!(block(read.answer.ok().unwrap()), Some("air".to_string()));
    let placed = call("set_block", &format!("{{{at},\"block\":\"dirt\"}}")).unwrap();
    assert_eq!(placed.edits.len(), 1);
    let read = call("get_block", &format!("{{{at}}}")).unwrap();
    assert_eq!(block(read.answer.ok().unwrap()), Some("dirt".to_string()));
    let above = "\"x\":7,\"y\":66,\"z\":7";
    let placed = call("set_block", &format!("{{{above},\"block\":\"minecraft:red_concrete\"}}"));
    assert_eq!(placed.unwrap().edits[0].block, valence::BlockState::RED_CONCRETE.to_raw());
    let taken = call("remove_block", &format!("{{{at}}}")).unwrap();
    assert_eq!(taken.edits[0].block, AIR);
    let area = "\"min_x\":7,\"min_y\":65,\"min_z\":7,\"max_x\":8,\"max_y\":65,\"max_z\":7";
    let filled = call("fill_region", &format!("{{{area},\"block\":\"stone\"}}")).unwrap();
    assert_eq!(filled.edits.len(), 2);
    let snapshot = call("snapshot_region", &format!("{{{area}}}")).unwrap();
    let snapshot = value_of_json(&snapshot.answer.ok().unwrap());
    assert_eq!(snapshot["blocks"][1]["block"], "stone");
    let bounds = call("get_world_bounds", "{}").unwrap();
    assert_eq!(value_of_json(&bounds.answer.ok().unwrap())["min_x"], -256);
    assert!(call("list_build_palette", "{}").unwrap().answer.is_ok());
    assert!(call("server_status", "{}").is_none());
    assert!(call("get_build", "{\"build_id\":\"b\"}").is_none());
}

#[test]
fn players_dig_and_place_in_creative_mode() {
    let (mut layer, mut lifecycle) = world();
    let ground = pos(6, GROUND_Y, 6);
    let click = |item: Option<ItemKind>| PlacementClick {
        main_hand: true,
        creative: true,
        item: item.map(|item| item.to_raw()),
        position: ground,
        face: Face::Up,
        head_inside_block: false,
    };
    let glass = click(Some(ItemKind::Glass));
    match handle_player_placement(&mut layer, world_bounds(), &mut lifecycle, glass) {
        PlayerEdit::Edited(edit) => assert_eq!(edit.position, pos(6, GROUND_Y + 1, 6)),
        _ => panic!("glass is placed"),
    }
    assert_eq!(block_state_at(&layer, pos(6, GROUND_Y + 1, 6)), GLASS);
    match handle_player_placement(&mut layer, world_bounds(), &mut lifecycle, glass) {
        PlayerEdit::Rejected(message) => {
            assert!(message.starts_with("WorldCommand rejected set_block: position"), "{message}")
        }
        _ => panic!("there is glass already"),
    }
    for ignored in [
        click(None),
        click(Some(ItemKind::Stick)),
        PlacementClick { creative: false, ..glass },
        PlacementClick { main_hand: false, ..glass },
    ] {
        let outcome = handle_player_placement(&mut layer, world_bounds(), &mut lifecycle, ignored);
        assert!(matches!(outcome, PlayerEdit::Ignored));
    }
    let target = pos(6, GROUND_Y + 1, 6);
    let survival =
        handle_player_digging(&mut layer, world_bounds(), &mut lifecycle, false, true, target);
    assert!(matches!(survival, PlayerEdit::Ignored));
    let dug = handle_player_digging(&mut layer, world_bounds(), &mut lifecycle, true, true, target);
    assert!(matches!(dug, PlayerEdit::Edited(_)));
    assert_eq!(block_state_at(&layer, target), AIR);
    match handle_player_digging(&mut layer, world_bounds(), &mut lifecycle, true, true, target) {
        PlayerEdit::Rejected(message) => assert!(message.ends_with("is already air")),
        _ => panic!("nothing is left to dig"),
    }
    assert_eq!(lifecycle.dirty_chunks_marked, 2);
}

#[test]
fn faces_lead_to_neighbours() {
    let p = pos(1, 2, 3);
    for (face, direction) in [
        (Face::Down, valence::Direction::Down),
        (Face::Up, valence::Direction::Up),
        (Face::North, valence::Direction::North),
        (Face::South, valence::Direction::South),
        (Face::West, valence::Direction::West),
        (Face::East, valence::Direction::East),
    ] {
        let expected = valence::BlockPos::new(1, 2, 3).get_in_direction(direction);
        assert_eq!(
            get_in_direction(p, face),
            pos(expected.x, expected.y, expected.z)
        );
    }
}

#[test]
fn tools_are_planned_from_their_arguments() {
    let plan = |name: &str, arguments: &str| plan_tool(name, &json(arguments), world_bounds());
    match plan("get_block", "{\"x\":1,\"y\":64,\"z\":2}") {
        Ok(ToolPlan::Position { kind, position }) => {
            assert_eq!((kind, position), (ToolKind::GetBlock, pos(1, 64, 2)))
        }
        _ => panic!("a position was given"),
    }
    assert_eq!(
        plan("get_block", "{\"x\":299,\"y\":64,\"z\":2}").err(),
        Some("position BlockPos { x: 299, y: 64, z: 2 } is outside world bounds".to_string())
    );
    assert_eq!(
        plan("remove_block", "{}").err(),
        Some("missing integer argument `x`".to_string())
    );
    let area = "{\"min_x\":0,\"min_y\":64,\"min_z\":0,\"max_x\":7,\"max_y\":71,\"max_z\":7}";
    let snapshot = plan("snapshot_region", area).ok().unwrap();
    assert_eq!(columns_for_plan(&snapshot, world_bounds()), vec![ChunkColumn::new(0, 0)]);
    assert_eq!(
        plan("fill_region", area).err(),
        Some("region volume 512 exceeds limit 128".to_string())
    );
    assert!(matches!(
        plan("get_build", "{\"build_id\":\"b\"}"),
        Ok(ToolPlan::Build { kind: ToolKind::GetBuild, .. })
    ));
    assert!(matches!(plan("undo_build", "{}"), Err(_)));
    assert!(matches!(plan("publish_asset", "{\"spec\":{}}"), Ok(ToolPlan::Spec(_))));
    assert!(matches!(
        plan("get_asset", "{\"asset_id\":\"a\",\"version\":2}"),
        Ok(ToolPlan::Asset { version: Some(2), .. })
    ));
    assert!(matches!(
        plan("remove_asset", "{\"instance_id\":\"i\"}"),
        Ok(ToolPlan::Instance { .. })
    ));
    assert!(matches!(plan("spawn_asset", "{}"), Ok(ToolPlan::Request(ToolKind::SpawnAsset))));
    assert!(matches!(plan("apply_build_plan", "{}"), Ok(ToolPlan::BuildPlan(_))));
    assert!(matches!(plan("list_players", "{}"), Ok(ToolPlan::Status(ToolKind::ListPlayers))));
    assert_eq!(plan("nothing", "{}").err(), Some("unknown MCP tool `nothing`".to_string()));
    let placing = plan("set_block", "{\"x\":0,\"y\":65,\"z\":5}").ok().unwrap();
    assert_eq!(columns_for_plan(&placing, world_bounds()).len(), 7);
    assert_eq!(tool_kind_of("fill_region"), Some(ToolKind::FillRegion));
}

#[test]
fn server_status_is_put_together() {
    let stats = PersistenceStats::new().snapshot(3, 4);
    let config =
        BridgeConfig { tcp_read_buffer_bytes: 1, ws_queue_capacity: 2, max_pending_connections: 3 };
    let number = |value: f64| json_of_value(serde_json::Value::from(value));
    let position = json("{\"x\":0.5,\"y\":65.0,\"z\":0.5}");
    let players = || Items::new().with(player_json("loom", json("null"), Some(7))).array();
    let status = server_status_json(
        100,
        1,
        world_bounds(),
        "world.sqlite3",
        "127.0.0.1:18081",
        StatusParts {
            performance: performance_json(100, number(3.25), number(3.0), number(4.5), 2),
            network: network_json(players(), 6, 9, 64),
            storage: storage_json(&stats, "world.sqlite3", "region"),
            chunk_lifecycle: chunk_lifecycle_json(&ChunkLifecycle::new()),
            bridge: bridge_json("127.0.0.1:18081", config),
        },
    );
    let value = value_of_json(&status);
    assert_eq!(value["tick"], 100);
    assert_eq!(value["connected_players"], 1);
    assert_eq!(value["mcp_endpoint"], "http://127.0.0.1:18081/mcp");
    assert_eq!(value["bridge"]["endpoint"], "http://127.0.0.1:18081");
    assert_eq!(value["performance"]["max_mspt"], 4.5);
    assert_eq!(value["performance"]["telemetry_interval_ticks"], 20);
    assert_eq!(value["network"]["interest_chunks_per_player"], 169);
    assert_eq!(value["network"]["players"][0]["ping_ms"], 7);
    assert_eq!(value["storage"]["loaded_legacy_overrides"], 3);
    assert_eq!(value["storage"]["dirty_chunks"], 4);
    assert_eq!(value["world_bounds"]["min_x"], -256);
    assert_eq!(
        world_bounds_json(world_bounds()).compact_text(),
        "{\"max_x\":255,\"max_y\":95,\"max_z\":255,\"min_x\":-256,\"min_y\":60,\"min_z\":-256}"
    );
    assert_eq!(
        player_json("a", position, None).compact_text(),
        "{\"ping_ms\":null,\"position\":{\"x\":0.5,\"y\":65.0,\"z\":0.5},\"username\":\"a\"}"
    );
    assert_eq!(players_json(Items::new().with(integer(1)).array()).compact_text(), "{\"players\":[1]}");
}

#[test]
fn palette_is_listed_with_its_metadata() {
    let value = value_of_json(&palette_json());
    assert_eq!(value["palette_version"], 1);
    assert_eq!(value["minecraft_version"], "1.20.1");
    let blocks = value["blocks"].as_array().unwrap();
    assert_eq!(blocks.len(), 115);
    let stone = blocks.iter().find(|block| block["name"] == "stone").unwrap();
    assert_eq!(stone["family"], "masonry");
    assert_eq!(stone["representative_rgb"], "#7D7D7D");
    assert_eq!(stone["opacity"], "opaque");
}
