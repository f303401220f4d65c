use std::path::PathBuf;

use world_loom::anvil::{
    anvil_palette_entry_for_block, block_state_from_anvil_palette_entry,
    decode_anvil_chunk_overrides, encode_anvil_chunk, unpack_palette_index, AnvilPaletteEntry,
};
use world_loom::block::{BlockPos, ChunkColumn, AIR, COBBLESTONE, DIRT, GLASS, GRASS_BLOCK, MAX_BLOCK_STATE, STONE};
use world_loom::packing::{bits_per_palette_index, pack_palette_indices, packed_entry_bits, unpack_index};
use world_loom::persistence::{
    apply_block_edits_to_overrides, build_block_row, build_from_rows, column_range, decode_block_state,
    edit_override, edit_saved_column, group_edits_by_column, instance_updated, local_chunk_coords,
    log_row, merge_stored_chunks, overrides_from_rows, required_row, row_number, schema_step, stored_chunk,
    transactional_override, version_from_row, written_versions, AnvilChunkStorage, BlockEdit, BuildBlockRecord,
    BuildBlockRow,
    BuildRow, ChunkWrite, HybridAnvilStorage, OverrideAction, OverrideRow, PersistedCommandKind,
    PersistenceError, SavedBlockOverride, SchemaStep, SqliteDeltaStorage, StoredChunk,
    SAVE_FORMAT_VERSION, SCHEMA_VERSION, STORAGE_BACKEND, WRITE_BATCH_LIMIT,
};
use world_loom::position_map::PositionMap;
use world_loom::world_command::{WorldCommand, GROUND_Y};
use world_loom::writer::{PersistenceStats, Writer, WriterAction, WriterEvent};

fn pos(x: i32, y: i32, z: i32) -> BlockPos {
    BlockPos::new(x, y, z)
}

fn saved(position: BlockPos, block: u16) -> SavedBlockOverride {
    SavedBlockOverride { position, block }
}

fn placed(position: BlockPos, block: u16) -> BlockEdit {
    BlockEdit::from_world_command(WorldCommand::SetBlock { position, block }, block)
}

fn removed(position: BlockPos) -> BlockEdit {
    BlockEdit::from_world_command(WorldCommand::RemoveBlock { position }, AIR)
}

#[test]
fn every_block_state_survives_its_palette_entry() {
    for block in 0..=MAX_BLOCK_STATE {
        let entry = anvil_palette_entry_for_block(block);
        assert!(entry.name.starts_with("minecraft:"));
        let state = valence::BlockState::from_raw(block).unwrap();
        assert_eq!(&entry.name["minecraft:".len()..], state.to_kind().to_str());
        match block_state_from_anvil_palette_entry(&entry) {
            Ok(read) => assert_eq!(read, block),
            Err(error) => panic!("{}", error.message()),
        }
    }
}

#[test]
fn palette_entries_list_their_properties_by_name() {
    let door = valence::BlockState::OAK_DOOR.to_raw();
    let entry = anvil_palette_entry_for_block(door);
    assert_eq!(entry.name, "minecraft:oak_door");
    let names: Vec<String> =
        entry.properties.unwrap().into_iter().map(|(name, _)| name).collect();
    assert_eq!(names, vec!["facing", "half", "hinge", "open", "powered"]);
    assert!(anvil_palette_entry_for_block(STONE).properties.is_none());
}

#[test]
fn unknown_palette_entries_are_refused() {
    let entry = |name: &str, properties: Option<Vec<(&str, &str)>>| AnvilPaletteEntry {
        name: name.to_string(),
        properties: properties
            .map(|p| p.iter().map(|(k, v)| (k.to_string(), v.to_string())).collect()),
    };
    for bad in [
        entry("minecraft:no_such_block", None),
        entry("minecraft:oak_door", Some(vec![("no_such_property", "north")])),
        entry("minecraft:oak_door", Some(vec![("facing", "no_such_value")])),
    ] {
        match block_state_from_anvil_palette_entry(&bad) {
            Err(PersistenceError::InvalidAnvilChunk(_)) => {}
            _ => panic!("{} was read", bad.name),
        }
    }
    let open = entry("minecraft:oak_door", Some(vec![("open", "true")]));
    let block = block_state_from_anvil_palette_entry(&open).unwrap();
    assert_eq!(
        valence::BlockState::from_raw(block).unwrap(),
        valence::BlockState::OAK_DOOR.set(valence::block::PropName::Open, valence::block::PropValue::True)
    );
}

#[test]
fn chunk_reads_back_what_was_saved() {
    let column = ChunkColumn::new(-1, 2);
    let blocks = vec![
        saved(pos(-16, 61, 32), AIR),
        saved(pos(-7, 95, 40), GLASS),
        saved(pos(-1, GROUND_Y + 1, 47), valence::BlockState::OAK_DOOR.to_raw()),
    ];
    let chunk = encode_anvil_chunk(column, &blocks).unwrap();
    assert_eq!((chunk.x_pos, chunk.z_pos, chunk.data_version), (-1, 2, 3465));
    assert_eq!(chunk.sections.len(), 3);
    assert_eq!(chunk.status, "minecraft:full");
    assert_eq!(decode_anvil_chunk_overrides(column, &chunk).unwrap(), blocks);
}

#[test]
fn untouched_chunk_has_no_overrides() {
    let column = ChunkColumn::new(0, 0);
    let chunk = encode_anvil_chunk(column, &Vec::new()).unwrap();
    assert!(decode_anvil_chunk_overrides(column, &chunk).unwrap().is_empty());
}

#[test]
fn damaged_chunks_are_refused() {
    let column = ChunkColumn::new(0, 0);
    let mut chunk = encode_anvil_chunk(column, &vec![saved(pos(1, 70, 1), STONE)]).unwrap();
    for section in &mut chunk.sections {
        section.block_states.palette.clear();
    }
    assert!(decode_anvil_chunk_overrides(column, &chunk).is_err());
    let mut chunk = encode_anvil_chunk(column, &vec![saved(pos(1, 70, 1), STONE)]).unwrap();
    for section in &mut chunk.sections {
        if let Some(data) = &mut section.block_states.data {
            data.truncate(1);
        }
    }
    assert!(decode_anvil_chunk_overrides(column, &chunk).is_err());
}

#[test]
fn indices_are_packed_without_crossing_words() {
    assert_eq!(bits_per_palette_index(1), 0);
    assert_eq!(bits_per_palette_index(2), 1);
    assert_eq!(bits_per_palette_index(17), 5);
    assert_eq!(packed_entry_bits(2), 4);
    assert_eq!(packed_entry_bits(17), 5);
    let indices: Vec<usize> = (0..20).map(|i| i % 7).collect();
    let words = pack_palette_indices(&indices, 7);
    assert_eq!(words.len(), 2);
    assert_eq!(words[0], 0x1065_4321_0654_3210);
    for (i, index) in indices.iter().enumerate() {
        assert_eq!(unpack_index(&words, 4, i), Some(*index as u64));
        assert_eq!(unpack_palette_index(&Some(words.clone()), 7, i).unwrap(), *index as u64);
    }
    assert_eq!(unpack_index(&words, 4, 32), None);
    let wide: Vec<usize> = (0..30).collect();
    let words = pack_palette_indices(&wide, 30);
    assert_eq!(words.len(), 3);
    assert_eq!(unpack_index(&words, 5, 12), Some(12));
}

#[test]
fn edits_that_restore_the_base_world_delete_their_override() {
    let position = pos(4, GROUND_Y + 1, 4);
    let mut blocks: Vec<SavedBlockOverride> = Vec::new();
    apply_block_edits_to_overrides(&mut blocks, &vec![placed(position, STONE)]);
    assert_eq!(blocks, vec![saved(position, STONE)]);
    apply_block_edits_to_overrides(&mut blocks, &vec![removed(position)]);
    assert!(blocks.is_empty());
    let ground = pos(4, GROUND_Y, 4);
    apply_block_edits_to_overrides(&mut blocks, &vec![removed(ground)]);
    assert_eq!(blocks, vec![saved(ground, AIR)]);
}

#[test]
fn later_edits_win_and_the_list_stays_in_order() {
    let mut blocks = vec![saved(pos(9, 70, 9), GLASS)];
    apply_block_edits_to_overrides(
        &mut blocks,
        &vec![
            placed(pos(9, 70, 9), STONE),
            placed(pos(1, 80, 1), DIRT),
            placed(pos(1, 70, 5), STONE),
            placed(pos(1, 80, 1), COBBLESTONE),
        ],
    );
    assert_eq!(
        blocks,
        vec![
            saved(pos(1, 70, 5), STONE),
            saved(pos(1, 80, 1), COBBLESTONE),
            saved(pos(9, 70, 9), STONE),
        ]
    );
}

#[test]
fn edited_column_is_written_or_removed() {
    let column = ChunkColumn::new(0, 0);
    let position = pos(4, GROUND_Y + 1, 4);
    match edit_saved_column(column, Vec::new(), &vec![placed(position, STONE)]).unwrap() {
        ChunkWrite::Write(chunk) => assert_eq!(
            decode_anvil_chunk_overrides(column, &chunk).unwrap(),
            vec![saved(position, STONE)]
        ),
        ChunkWrite::Remove => panic!("there is an override"),
    }
    match edit_saved_column(column, vec![saved(position, STONE)], &vec![removed(position)]).unwrap()
    {
        ChunkWrite::Remove => {}
        ChunkWrite::Write(_) => panic!("nothing is left"),
    }
}

#[test]
fn edits_are_grouped_by_column() {
    let edits = vec![
        placed(pos(40, 70, 0), STONE),
        placed(pos(1, 70, 1), STONE),
        placed(pos(-1, 70, 1), GLASS),
        placed(pos(2, 70, 2), DIRT),
    ];
    let groups = group_edits_by_column(&edits);
    assert_eq!(groups.len(), 3);
    let all: usize = groups.iter().map(|group| group.edits.len()).sum();
    assert_eq!(all, 4);
    let home = groups.iter().find(|group| group.column == ChunkColumn::new(0, 0)).unwrap();
    assert_eq!(home.edits, vec![edits[1], edits[3]]);
    assert_eq!(home.region, (0, 0));
    let west = groups.iter().find(|group| group.column == ChunkColumn::new(-1, 0)).unwrap();
    assert_eq!(west.region, (-1, 0));
}

#[test]
fn overlays_are_merged_with_the_transactional_one_on_top() {
    let column = ChunkColumn::new(0, 0);
    assert!(merge_stored_chunks(column, None, None).is_none());
    let chunk = |blocks: Vec<SavedBlockOverride>| Some(StoredChunk { column, blocks });
    let merged = merge_stored_chunks(
        column,
        chunk(vec![saved(pos(1, 70, 1), STONE), saved(pos(2, 70, 2), DIRT)]),
        chunk(vec![saved(pos(1, 70, 1), GLASS), saved(pos(0, 70, 0), STONE)]),
    )
    .unwrap();
    assert_eq!(
        merged.blocks,
        vec![
            saved(pos(0, 70, 0), STONE),
            saved(pos(1, 70, 1), GLASS),
            saved(pos(2, 70, 2), DIRT),
        ]
    );
    assert!(stored_chunk(column, Vec::new()).is_none());
    assert_eq!(stored_chunk(column, merged.blocks).unwrap().column, column);
}

#[test]
fn logged_rows_name_the_edit() {
    let row = log_row(placed(pos(-1, GROUND_Y + 1, 17), GLASS));
    assert_eq!(row.command_kind, "set_block");
    assert_eq!((row.position, row.raw), (pos(-1, GROUND_Y + 1, 17), i64::from(GLASS)));
    assert_eq!(row.column, ChunkColumn::new(-1, 1));
    assert_eq!(row.overlay, OverrideAction::Delete);
    assert_eq!(log_row(removed(pos(0, GROUND_Y, 0))).command_kind, "remove_block");
}

#[test]
fn flushed_edits_are_what_is_loaded() {
    let column = ChunkColumn::new(0, 0);
    let (a, b, c) = (pos(1, 66, 1), pos(2, 66, 2), pos(3, 66, 3));
    let edits = vec![placed(a, STONE), placed(b, DIRT), removed(a), placed(b, GLASS)];
    let mut blocks = vec![saved(a, COBBLESTONE), saved(c, STONE)];
    apply_block_edits_to_overrides(&mut blocks, &edits);
    let mut overlay = vec![saved(b, STONE), saved(c, DIRT)];
    for edit in &edits {
        if log_row(*edit).overlay == OverrideAction::Delete {
            overlay.retain(|entry| entry.position != edit.position);
        }
    }
    let loaded = merge_stored_chunks(
        column,
        stored_chunk(column, blocks),
        stored_chunk(column, overlay),
    );
    assert_eq!(loaded.unwrap().blocks, vec![saved(b, GLASS), saved(c, DIRT)]);
}

#[test]
fn rebuilt_ground_is_loaded_and_undone() {
    let column = ChunkColumn::new(0, 0);
    let ground = pos(1, GROUND_Y, 1);
    let region = vec![saved(ground, AIR)];
    let mut overlay: Vec<SavedBlockOverride> = Vec::new();
    let mut write = |block: u16| {
        let action = transactional_override(&region, ground, block);
        overlay.retain(|entry| entry.position != ground);
        if let OverrideAction::Upsert { raw } = action {
            overlay.push(saved(ground, raw as u16));
        }
        merge_stored_chunks(
            column,
            stored_chunk(column, region.clone()),
            stored_chunk(column, overlay.clone()),
        )
        .unwrap()
        .blocks
    };
    assert_eq!(write(GRASS_BLOCK), vec![saved(ground, GRASS_BLOCK)]);
    assert_eq!(write(AIR), vec![saved(ground, AIR)]);
}

#[test]
fn build_rows_read_back() {
    let record = BuildBlockRecord {
        position: pos(-3, 70, 9),
        original_block: AIR,
        applied_block: GLASS,
    };
    let row = build_block_row(&record);
    assert_eq!((row.x, row.y, row.z), (-3, 70, 9));
    assert_eq!((row.original_raw, row.applied_raw), (0, GLASS as i64));
}

#[test]
fn opened_databases_are_kept() {
    assert_eq!(written_versions(), (SCHEMA_VERSION, SAVE_FORMAT_VERSION));
    assert!(matches!(schema_step(Some(written_versions())), Ok(SchemaStep::Keep)));
}

#[test]
fn rows_are_decoded_and_bad_states_named() {
    let rows = vec![
        OverrideRow { x: 1, y: 70, z: 2, raw: 1 },
        OverrideRow { x: 3, y: 71, z: 4, raw: 0 },
    ];
    assert_eq!(
        overrides_from_rows(&rows).unwrap(),
        vec![saved(pos(1, 70, 2), STONE), saved(pos(3, 71, 4), AIR)]
    );
    for raw in [-1, MAX_BLOCK_STATE as i64 + 1, i64::MAX] {
        let error = decode_block_state(pos(1, 2, 3), raw).err().unwrap();
        assert_eq!(
            error.message(),
            format!("invalid block state raw id {raw} at BlockPos {{ x: 1, y: 2, z: 3 }}")
        );
    }
    assert!(overrides_from_rows(&vec![OverrideRow { x: 0, y: 0, z: 0, raw: -5 }]).is_err());
}

#[test]
fn builds_are_read_from_their_rows() {
    let row = || BuildRow {
        build_id: "id".to_string(),
        idempotency_key: "key".to_string(),
        plan_hash: "hash".to_string(),
        canonical_plan_json: "{}".to_string(),
        actor: "mcp".to_string(),
        state: "applied".to_string(),
        changed: 2,
        skipped: -1,
        created_at: "a".to_string(),
        applied_at: "b".to_string(),
        undone_at: None,
    };
    let blocks =
        vec![BuildBlockRow { x: 1, y: 70, z: 2, original_raw: 0, applied_raw: STONE as i64 }];
    let build = build_from_rows(row(), &blocks).unwrap();
    assert_eq!((build.changed, build.skipped), (2, usize::MAX));
    assert_eq!(build.blocks.len(), 1);
    assert_eq!(build.blocks[0].applied_block, STONE);
    let bad = vec![BuildBlockRow { x: 1, y: 70, z: 2, original_raw: -4, applied_raw: 1 }];
    assert!(build_from_rows(row(), &bad).is_err());
}

#[test]
fn schema_steps_follow_the_versions() {
    assert_eq!(schema_step(None).unwrap(), SchemaStep::Initialize);
    assert_eq!(schema_step(Some((1, 1))).unwrap(), SchemaStep::Upgrade);
    assert_eq!(
        schema_step(Some((SCHEMA_VERSION, SAVE_FORMAT_VERSION))).unwrap(),
        SchemaStep::Keep
    );
    assert_eq!(
        schema_step(Some((SCHEMA_VERSION + 1, 1))).err().unwrap().message(),
        format!(
            "SQLite schema version {} is newer than supported version {}",
            SCHEMA_VERSION + 1,
            SCHEMA_VERSION
        )
    );
    assert_eq!(
        schema_step(Some((1, SAVE_FORMAT_VERSION + 1))).err().unwrap().message(),
        format!(
            "save format version {} is newer than supported version {}",
            SAVE_FORMAT_VERSION + 1,
            SAVE_FORMAT_VERSION
        )
    );
    assert_eq!(SchemaStep::Keep.migration(), None);
    assert!(SchemaStep::Initialize.migration().is_some());
    assert!(SchemaStep::Upgrade.migration().is_some());
}

#[test]
fn storage_errors_have_their_texts() {
    let cases = vec![
        (PersistenceError::Io("x".to_string()), "I/O error: x"),
        (PersistenceError::Sqlite("x".to_string()), "SQLite error: x"),
        (PersistenceError::Anvil("x".to_string()), "Anvil region error: x"),
        (PersistenceError::Nbt("x".to_string()), "Anvil NBT error: x"),
        (PersistenceError::InvalidAnvilChunk("x".to_string()), "invalid Anvil chunk: x"),
        (PersistenceError::WriterPanic, "SQLite writer thread panicked"),
    ];
    for (error, text) in cases {
        assert_eq!(error.message(), text);
    }
}

#[test]
fn rows_that_are_missing_are_errors() {
    assert_eq!(required_row(Some(3), "gone").unwrap(), 3);
    assert_eq!(
        required_row::<u8>(None, "gone").err().unwrap().message(),
        "invalid Anvil chunk: gone"
    );
    assert!(instance_updated(1).is_ok());
    assert_eq!(
        instance_updated(0).err().unwrap().message(),
        "invalid Anvil chunk: asset instance is missing or removed"
    );
    assert_eq!(row_number(7), 7);
    assert_eq!(row_number(usize::MAX), i64::MAX);
    assert_eq!(version_from_row(5), 5);
    assert_eq!(version_from_row(-5), 0);
}

#[test]
fn overrides_of_the_overlay_follow_the_base_world() {
    let none = Vec::new();
    assert_eq!(
        transactional_override(&none, pos(1, GROUND_Y + 1, 1), GLASS),
        OverrideAction::Upsert { raw: GLASS as i64 }
    );
    assert_eq!(transactional_override(&none, pos(1, GROUND_Y + 1, 1), AIR), OverrideAction::Delete);
    let dug = vec![saved(pos(1, GROUND_Y, 1), AIR)];
    assert_eq!(
        transactional_override(&dug, pos(1, GROUND_Y, 1), GRASS_BLOCK),
        OverrideAction::Upsert { raw: GRASS_BLOCK as i64 }
    );
    assert_eq!(transactional_override(&dug, pos(1, GROUND_Y, 1), AIR), OverrideAction::Delete);
    assert_eq!(
        transactional_override(&dug, pos(2, GROUND_Y, 1), GRASS_BLOCK),
        OverrideAction::Delete
    );
    assert_eq!(
        edit_override(removed(pos(1, GROUND_Y, 1))),
        OverrideAction::Upsert { raw: 0 }
    );
    assert_eq!(edit_override(removed(pos(1, GROUND_Y + 1, 1))), OverrideAction::Delete);
    assert_eq!(PersistedCommandKind::SetBlock.as_str(), "set_block");
    assert_eq!(PersistedCommandKind::RemoveBlock.as_str(), "remove_block");
    assert!(placed(pos(1, 70, 1), STONE).needs_override());
    assert!(!removed(pos(1, 70, 1)).needs_override());
}

#[test]
fn columns_have_their_place_in_a_region() {
    assert_eq!(local_chunk_coords(ChunkColumn::new(-1, 33)), (31, 1));
    assert_eq!(column_range(ChunkColumn::new(-1, 2)), (-16, -1, 32, 47));
    assert_eq!(AnvilChunkStorage::region_file_name(-1, 0), "r.-1.0.mca");
}

#[test]
fn storages_know_their_paths() {
    let sqlite = SqliteDeltaStorage::new(PathBuf::from("a.sqlite3"));
    let anvil = AnvilChunkStorage::new(PathBuf::from("region"));
    let hybrid = HybridAnvilStorage::new(sqlite, anvil);
    assert_eq!(hybrid.sqlite_storage().db_path(), &PathBuf::from("a.sqlite3"));
    assert_eq!(hybrid.anvil_storage().region_dir(), &PathBuf::from("region"));
}

#[test]
fn writer_batches_edits_and_stops_on_shutdown() {
    let edit = placed(pos(1, 70, 1), STONE);
    let mut writer = Writer::new();
    assert_eq!(writer.action(), WriterAction::Wait);
    writer.receive(WriterEvent::Nothing);
    assert_eq!(writer.action(), WriterAction::Wait);
    writer.receive(WriterEvent::Edit(edit));
    assert_eq!(writer.action(), WriterAction::Poll);
    writer.receive(WriterEvent::Nothing);
    assert_eq!(writer.action(), WriterAction::Flush { stop: false });
    assert_eq!(writer.batch, vec![edit]);
    writer.flushed();
    assert!(writer.batch.is_empty());
    for _ in 0..WRITE_BATCH_LIMIT {
        writer.receive(WriterEvent::Edit(edit));
    }
    assert_eq!(writer.action(), WriterAction::Flush { stop: false });
    writer.flushed();
    writer.receive(WriterEvent::Shutdown);
    assert_eq!(writer.action(), WriterAction::Poll);
    writer.receive(WriterEvent::Edit(edit));
    writer.receive(WriterEvent::Nothing);
    assert_eq!(writer.action(), WriterAction::Flush { stop: true });
    assert_eq!(writer.batch.len(), 1);
    let mut writer = Writer::new();
    writer.receive(WriterEvent::Disconnected);
    assert_eq!(writer.action(), WriterAction::Flush { stop: true });
}

#[test]
fn writer_counters_add_up() {
    let mut stats = PersistenceStats::new();
    stats.record_queued();
    stats.record_queued();
    stats.record_queue_failed();
    stats.record_queued();
    stats.record_flushed(0);
    stats.record_flushed(2);
    stats.record_failed_flush();
    let snapshot = stats.snapshot(4, 5);
    assert_eq!(snapshot.storage_backend, STORAGE_BACKEND);
    assert_eq!((snapshot.pending_edits, snapshot.flushed_edits), (0, 2));
    assert_eq!((snapshot.flush_batches, snapshot.failed_flushes), (1, 1));
    assert_eq!((snapshot.loaded_legacy_overrides, snapshot.dirty_chunks), (4, 5));
}

#[test]
fn position_map_keeps_its_order() {
    let mut map: PositionMap<u16> = PositionMap::new();
    for (x, y, z) in [(2, 0, 0), (-1, 5, 0), (-1, 4, 9), (2, 0, -1)] {
        map.insert(pos(x, y, z), (x + 10) as u16);
    }
    map.insert(pos(2, 0, 0), 99);
    map.remove(pos(-1, 5, 0));
    map.remove(pos(7, 7, 7));
    assert_eq!(map.len(), 3);
    assert_eq!(map.get(pos(2, 0, 0)), Some(99));
    assert_eq!(map.get(pos(-1, 5, 0)), None);
    assert_eq!(
        map.into_entries(),
        vec![(pos(-1, 4, 9), 9), (pos(2, 0, -1), 12), (pos(2, 0, 0), 99)]
    );
}
