use valence::BlockState;
use world_loom::block::{
    BlockPos, ChunkColumn, AIR, BEDROCK, COBBLESTONE, DIRT, GLASS, GRASS_BLOCK, MAX_BLOCK_STATE,
    OAK_PLANKS, STONE,
};
use world_loom::build_palette::build_palette;
use world_loom::world_command::{
    base_block_or_air, base_block_state_at, hotbar_blocks, validate_world_command, world_bounds,
    CommandContext, WorldBounds, WorldCommand, WorldCommandError, GROUND_Y, SPAWN_FEET_Y,
    SPAWN_HEAD_Y,
};

fn pos(x: i32, y: i32, z: i32) -> BlockPos {
    BlockPos::new(x, y, z)
}

fn placement_context() -> CommandContext {
    CommandContext::for_placement(AIR, GRASS_BLOCK, false)
}

#[test]
fn base_block_state_matches_generated_superflat_world() {
    let bounds = world_bounds();
    assert_eq!(base_block_state_at(bounds, pos(4, GROUND_Y - 4, 4)), Some(BEDROCK));
    assert_eq!(base_block_state_at(bounds, pos(4, GROUND_Y, 4)), Some(GRASS_BLOCK));
    assert_eq!(base_block_state_at(bounds, pos(4, GROUND_Y + 1, 4)), Some(AIR));
    assert_eq!(base_block_state_at(bounds, pos(bounds.max_x + 1, GROUND_Y, 4)), None);
}

#[test]
fn set_block_accepts_allowed_block_inside_bounds() {
    let command = WorldCommand::SetBlock { position: pos(4, GROUND_Y + 1, 4), block: STONE };
    assert_eq!(validate_world_command(world_bounds(), command, placement_context()), Ok(()));
}

#[test]
fn set_block_rejects_out_of_bounds_position() {
    let position = pos(world_bounds().max_x + 1, GROUND_Y + 1, 0);
    let command = WorldCommand::SetBlock { position, block: STONE };
    assert_eq!(
        validate_world_command(world_bounds(), command, placement_context()),
        Err(WorldCommandError::OutOfBounds { position })
    );
}

#[test]
fn set_block_rejects_unsupported_block_type() {
    let block = valence::BlockState::DIAMOND_BLOCK.to_raw();
    let command = WorldCommand::SetBlock { position: pos(4, GROUND_Y + 1, 4), block };
    assert_eq!(
        validate_world_command(world_bounds(), command, placement_context()),
        Err(WorldCommandError::UnsupportedBlock { block })
    );
}

#[test]
fn set_block_rejects_non_empty_target() {
    let command = WorldCommand::SetBlock { position: pos(4, GROUND_Y + 1, 4), block: STONE };
    let context = CommandContext::for_placement(DIRT, GRASS_BLOCK, false);
    assert_eq!(
        validate_world_command(world_bounds(), command, context),
        Err(WorldCommandError::TargetNotEmpty { position: pos(4, GROUND_Y + 1, 4), current: DIRT })
    );
}

#[test]
fn set_block_rejects_air_anchor() {
    let command = WorldCommand::SetBlock { position: pos(4, GROUND_Y + 1, 4), block: STONE };
    let context = CommandContext::for_placement(AIR, AIR, false);
    assert_eq!(
        validate_world_command(world_bounds(), command, context),
        Err(WorldCommandError::CannotPlaceAgainstAir { position: pos(4, GROUND_Y + 1, 4) })
    );
}

#[test]
fn set_block_rejects_protected_spawn_space() {
    let command = WorldCommand::SetBlock { position: pos(0, SPAWN_FEET_Y, 0), block: STONE };
    assert_eq!(
        validate_world_command(world_bounds(), command, placement_context()),
        Err(WorldCommandError::ProtectedSpawn { position: pos(0, SPAWN_FEET_Y, 0) })
    );
}

#[test]
fn set_block_rejects_actor_head_inside_block() {
    let command = WorldCommand::SetBlock { position: pos(4, GROUND_Y + 1, 4), block: STONE };
    let context = CommandContext::for_placement(AIR, GRASS_BLOCK, true);
    assert_eq!(
        validate_world_command(world_bounds(), command, context),
        Err(WorldCommandError::ActorHeadInsideBlock)
    );
}

#[test]
fn remove_block_accepts_non_foundation_block_inside_bounds() {
    let command = WorldCommand::RemoveBlock { position: pos(4, GROUND_Y, 4) };
    let context = CommandContext::for_existing_block(GRASS_BLOCK);
    assert_eq!(validate_world_command(world_bounds(), command, context), Ok(()));
}

#[test]
fn remove_block_rejects_air() {
    let command = WorldCommand::RemoveBlock { position: pos(4, GROUND_Y + 1, 4) };
    let context = CommandContext::for_existing_block(AIR);
    assert_eq!(
        validate_world_command(world_bounds(), command, context),
        Err(WorldCommandError::CannotRemoveAir { position: pos(4, GROUND_Y + 1, 4) })
    );
}

#[test]
fn remove_block_rejects_bedrock_foundation() {
    let command = WorldCommand::RemoveBlock { position: pos(4, GROUND_Y - 4, 4) };
    let context = CommandContext::for_existing_block(BEDROCK);
    assert_eq!(
        validate_world_command(world_bounds(), command, context),
        Err(WorldCommandError::CannotRemoveFoundation { position: pos(4, GROUND_Y - 4, 4) })
    );
}

#[test]
fn bottom_layer_is_foundation_whatever_stands_there() {
    let position = pos(5, world_bounds().min_y, 5);
    assert_eq!(
        validate_world_command(
            world_bounds(),
            WorldCommand::RemoveBlock { position },
            CommandContext::for_existing_block(STONE)
        ),
        Err(WorldCommandError::CannotRemoveFoundation { position })
    );
}

#[test]
fn placement_without_anchor_is_refused() {
    let position = pos(4, GROUND_Y + 1, 4);
    let context =
        CommandContext { target_block: AIR, anchor_block: None, actor_head_inside_block: false };
    assert_eq!(
        validate_world_command(
            world_bounds(),
            WorldCommand::SetBlock { position, block: GLASS },
            context
        ),
        Err(WorldCommandError::MissingPlacementAnchor { position })
    );
}

#[test]
fn spawn_space_is_three_by_three_and_two_high() {
    let refused = |p: BlockPos| {
        validate_world_command(
            world_bounds(),
            WorldCommand::SetBlock { position: p, block: STONE },
            placement_context(),
        ) == Err(WorldCommandError::ProtectedSpawn { position: p })
    };
    assert!(refused(pos(-1, SPAWN_FEET_Y, 1)));
    assert!(refused(pos(1, SPAWN_HEAD_Y, -1)));
    assert!(!refused(pos(2, SPAWN_FEET_Y, 0)));
    assert!(!refused(pos(0, SPAWN_HEAD_Y + 1, 0)));
}

#[test]
fn block_ids_are_those_of_the_registry() {
    assert_eq!(AIR, BlockState::AIR.to_raw());
    assert_eq!(STONE, BlockState::STONE.to_raw());
    assert_eq!(GRASS_BLOCK, BlockState::GRASS_BLOCK.to_raw());
    assert_eq!(DIRT, BlockState::DIRT.to_raw());
    assert_eq!(COBBLESTONE, BlockState::COBBLESTONE.to_raw());
    assert_eq!(OAK_PLANKS, BlockState::OAK_PLANKS.to_raw());
    assert_eq!(BEDROCK, BlockState::BEDROCK.to_raw());
    assert_eq!(GLASS, BlockState::GLASS.to_raw());
    assert!(BlockState::from_raw(MAX_BLOCK_STATE).is_some());
    assert!(BlockState::from_raw(MAX_BLOCK_STATE + 1).is_none());
}

#[test]
fn world_is_512_blocks_wide() {
    let bounds = world_bounds();
    assert!(bounds.contains(pos(-256, 64, 255)));
    assert!(bounds.contains(pos(255, 64, -256)));
    assert!(!bounds.contains(pos(-257, 64, 0)));
    assert!(!bounds.contains(pos(0, 64, 256)));
    assert_eq!(bounds.max_x - bounds.min_x + 1, 512);
    assert_eq!(bounds.max_z - bounds.min_z + 1, 512);
}

#[test]
fn palette_blocks_are_placed() {
    for entry in build_palette() {
        let command = WorldCommand::SetBlock { position: pos(9, 70, 9), block: entry.block };
        let expected = if entry.name == "diamond_block" {
            Err(WorldCommandError::UnsupportedBlock { block: entry.block })
        } else {
            Ok(())
        };
        assert_eq!(validate_world_command(world_bounds(), command, placement_context()), expected);
    }
    for block in [AIR, BEDROCK, valence::BlockState::SAND.to_raw()] {
        let command = WorldCommand::SetBlock { position: pos(9, 70, 9), block };
        assert_eq!(
            validate_world_command(world_bounds(), command, placement_context()),
            Err(WorldCommandError::UnsupportedBlock { block })
        );
    }
}

#[test]
fn hotbar_holds_the_placeable_blocks() {
    assert_eq!(hotbar_blocks(), vec![STONE, DIRT, GRASS_BLOCK, OAK_PLANKS, COBBLESTONE, GLASS]);
    for block in hotbar_blocks() {
        let command = WorldCommand::SetBlock { position: pos(9, 70, 9), block };
        assert_eq!(validate_world_command(world_bounds(), command, placement_context()), Ok(()));
    }
}

#[test]
fn errors_have_their_texts() {
    let position = pos(4, -65, 7);
    let text = "BlockPos { x: 4, y: -65, z: 7 }";
    assert_eq!(position.text(), format!("{:?}", valence::BlockPos::new(4, -65, 7)));
    let cases = vec![
        (WorldCommandError::OutOfBounds { position }, format!("position {text} is outside bounds")),
        (
            WorldCommandError::UnsupportedBlock { block: GLASS },
            format!("block {} is not allowed in M2", valence::BlockState::GLASS),
        ),
        (
            WorldCommandError::TargetNotEmpty { position, current: DIRT },
            format!("position {text} already contains {}", valence::BlockState::DIRT),
        ),
        (
            WorldCommandError::MissingPlacementAnchor { position },
            format!("position {text} has no placement anchor"),
        ),
        (
            WorldCommandError::CannotPlaceAgainstAir { position },
            format!("position {text} cannot be placed against air"),
        ),
        (WorldCommandError::ActorHeadInsideBlock, "actor head is inside a block".to_string()),
        (
            WorldCommandError::ProtectedSpawn { position },
            format!("position {text} is protected spawn space"),
        ),
        (WorldCommandError::CannotRemoveAir { position }, format!("position {text} is already air")),
        (
            WorldCommandError::CannotRemoveFoundation { position },
            format!("position {text} is protected foundation"),
        ),
        (
            WorldCommandError::MissingLoadedChunk { position },
            format!("position {text} has no loaded chunk"),
        ),
    ];
    for (error, expected) in cases {
        assert_eq!(error.message(), expected);
    }
}

#[test]
fn bounds_touch_their_columns() {
    let bounds = world_bounds();
    assert_eq!(bounds.loaded_chunk_columns(), 1024);
    assert!(bounds.contains_chunk(ChunkColumn::new(-16, 15)));
    assert!(!bounds.contains_chunk(ChunkColumn::new(-17, 0)));
    assert!(!bounds.contains_chunk(ChunkColumn::new(0, 16)));
    let empty = WorldBounds { min_x: 1, max_x: 0, min_y: 0, max_y: 0, min_z: 0, max_z: 0 };
    assert_eq!(empty.loaded_chunk_columns(), 0);
    assert!(!empty.contains_chunk(ChunkColumn::new(0, 0)));
}

#[test]
fn columns_are_found_by_floor_division() {
    assert_eq!(ChunkColumn::from_block_pos(pos(-1, 64, 16)), ChunkColumn::new(-1, 1));
    assert_eq!(ChunkColumn::from_block_pos(pos(i32::MIN, 0, i32::MAX)).x, i32::MIN / 16);
    assert_eq!(ChunkColumn::new(-1, 32).region_coords(32), (-1, 1));
}

#[test]
fn untouched_world_is_air_outside_its_bounds() {
    assert_eq!(base_block_or_air(pos(1000, GROUND_Y, 0)), AIR);
    assert_eq!(base_block_or_air(pos(0, GROUND_Y - 3, 0)), STONE);
    assert_eq!(base_block_or_air(pos(0, GROUND_Y - 2, 0)), DIRT);
    assert_eq!(base_block_or_air(pos(0, GROUND_Y - 1, 0)), DIRT);
}
