//! What is told of the world, the server and its builds: each thing under its own name.

use vstd::prelude::*;
use crate::asset_service::removal_view;
use crate::block::{BlockPos, BlockState};
use crate::bridge::BridgeConfig;
use crate::build_palette::{
    palette, public_entries_are_sorted, sorted_entries, BuildPaletteEntry,
};
use crate::build_service::{
    apply_result_view, stored_build_summary_view, undo_result_view, ApplyBuildResult,
    UndoBuildResult,
};
use crate::chunks::ChunkLifecycle;
use crate::json::{
    first_member, integer_value, member, number_value, unsigned_of_value, JsonView, NumberView,
};
use crate::mcp::{block_name, Region};
use crate::persistence::StoredBuild;
use crate::scalar::Scalar;
use crate::sculpt_json::{box_value, box_values, collision_value, vector_value};
use crate::sculpt_spec::{SculptCollision, SculptCollisionBox};
use crate::server::{
    bridge_json_view, chunk_lifecycle_json_view, fill_view, network_json_view, palette_entry_json_view,
    palette_items, palette_view, performance_json_view, ping_text, pings_text, player_json_view,
    player_pings, position_json_view,
    server_status_json_view, snapshot_view, storage_json_view, world_bounds_json_view,
    PlayerTelemetry, StatusParts,
};
use crate::server_rules::{has_integer, has_text, is_about};
use crate::text::decimal_nat;
use crate::world_command::WorldBounds;
use crate::writer::PersistenceStatsSnapshot;

verus! {

/// True iff the object has that number, which is not negative, under that key.
pub open spec fn has_number(value: JsonView, key: Seq<char>, n: int) -> bool {
    member(value, key) matches Some(number) && unsigned_of_value(number) == Some(n)
}

/// True iff the object has that position under that key.
pub open spec fn shows_position(value: JsonView, key: Seq<char>, p: BlockPos) -> bool {
    member(value, key) matches Some(shown) && is_about(shown, p.x as int, p.y as int, p.z as int)
}

proof fn position_is_told(p: BlockPos)
    ensures
        is_about(position_json_view(p), p.x as int, p.y as int, p.z as int),
{
    reveal_strlit("x");
    reveal_strlit("y");
    reveal_strlit("z");
    assert("x"@.len() == 1);
    assert("y"@.len() == 1);
    assert("z"@.len() == 1);
    assert("x"@[0] == 'x');
    assert("y"@[0] == 'y');
    assert("z"@[0] == 'z');
    let members = position_json_view(p)->Object_0;
    first_member(members, "x"@, 0);
    first_member(members, "y"@, 1);
    first_member(members, "z"@, 2);
}

/// The bounds are told corner by corner.
pub proof fn bounds_are_told(
    bounds: WorldBounds,
)
    ensures
        ({
            let value = world_bounds_json_view(bounds);
            &&& has_integer(value, "max_x"@, bounds.max_x as int)
            &&& has_integer(value, "max_y"@, bounds.max_y as int)
            &&& has_integer(value, "max_z"@, bounds.max_z as int)
            &&& has_integer(value, "min_x"@, bounds.min_x as int)
            &&& has_integer(value, "min_y"@, bounds.min_y as int)
            &&& has_integer(value, "min_z"@, bounds.min_z as int)
        }),
{
    let members = world_bounds_json_view(bounds)->Object_0;
    reveal_strlit("max_x");
    reveal_strlit("max_y");
    reveal_strlit("max_z");
    reveal_strlit("min_x");
    reveal_strlit("min_y");
    reveal_strlit("min_z");
    assert("max_x"@.len() == 5);
    assert("max_y"@.len() == 5);
    assert("max_z"@.len() == 5);
    assert("min_x"@.len() == 5);
    assert("min_y"@.len() == 5);
    assert("min_z"@.len() == 5);
    assert("max_x"@[1] == 'a');
    assert("max_x"@[4] == 'x');
    assert("max_y"@[1] == 'a');
    assert("max_y"@[4] == 'y');
    assert("max_z"@[1] == 'a');
    assert("max_z"@[4] == 'z');
    assert("min_x"@[1] == 'i');
    assert("min_x"@[4] == 'x');
    assert("min_y"@[1] == 'i');
    assert("min_y"@[4] == 'y');
    assert("min_z"@[1] == 'i');
    assert("min_z"@[4] == 'z');
    first_member(members, "max_x"@, 0);
    first_member(members, "max_y"@, 1);
    first_member(members, "max_z"@, 2);
    first_member(members, "min_x"@, 3);
    first_member(members, "min_y"@, 4);
    first_member(members, "min_z"@, 5);
}

/// Each counter of the columns is told under its own name.
pub proof fn counters_are_told(
    lifecycle: ChunkLifecycle,
)
    ensures
        ({
            let value = chunk_lifecycle_json_view(lifecycle);
            &&& has_number(value, "dirty_chunks_marked"@, lifecycle.dirty_chunks_marked as int)
            &&& has_number(value, "generated_chunks"@, lifecycle.generated_chunks as int)
            &&& member(value, "loaded_chunks"@) == Some(integer_value(lifecycle.loaded.spec_keys().len() as int))
            &&& has_number(value, "storage_loaded_chunks"@, lifecycle.storage_loaded_chunks as int)
            &&& has_number(value, "unloaded_chunks"@, lifecycle.unloaded_chunks as int)
        }),
{
    let members = chunk_lifecycle_json_view(lifecycle)->Object_0;
    reveal_strlit("dirty_chunks_marked");
    reveal_strlit("generated_chunks");
    reveal_strlit("loaded_chunks");
    reveal_strlit("storage_loaded_chunks");
    reveal_strlit("unloaded_chunks");
    assert("dirty_chunks_marked"@.len() == 19);
    assert("generated_chunks"@.len() == 16);
    assert("loaded_chunks"@.len() == 13);
    assert("storage_loaded_chunks"@.len() == 21);
    assert("unloaded_chunks"@.len() == 15);
    first_member(members, "dirty_chunks_marked"@, 0);
    first_member(members, "generated_chunks"@, 1);
    first_member(members, "loaded_chunks"@, 2);
    first_member(members, "storage_loaded_chunks"@, 3);
    first_member(members, "unloaded_chunks"@, 4);
}

/// Each counter of the storage is told under its own name, and where it keeps its files.
pub proof fn storage_is_told(
    stats: PersistenceStatsSnapshot,
    database_path: Seq<char>,
    region_dir: Seq<char>,
)
    ensures
        ({
            let value = storage_json_view(stats, database_path, region_dir);
            &&& has_text(value, "backend"@, stats.storage_backend@)
            &&& has_text(value, "database_path"@, database_path)
            &&& has_number(value, "dirty_chunks"@, stats.dirty_chunks as int)
            &&& has_number(value, "failed_flushes"@, stats.failed_flushes as int)
            &&& has_number(value, "flush_batches"@, stats.flush_batches as int)
            &&& has_number(value, "flushed_edits"@, stats.flushed_edits as int)
            &&& has_number(value, "loaded_legacy_overrides"@, stats.loaded_legacy_overrides as int)
            &&& has_number(value, "pending_edits"@, stats.pending_edits as int)
            &&& has_text(value, "region_dir"@, region_dir)
            &&& has_integer(value, "save_format_version"@, stats.save_format_version as int)
            &&& has_integer(value, "schema_version"@, stats.schema_version as int)
        }),
{
    let members = storage_json_view(stats, database_path, region_dir)->Object_0;
    reveal_strlit("backend");
    reveal_strlit("database_path");
    reveal_strlit("dirty_chunks");
    reveal_strlit("failed_flushes");
    reveal_strlit("flush_batches");
    reveal_strlit("flushed_edits");
    reveal_strlit("loaded_legacy_overrides");
    reveal_strlit("pending_edits");
    reveal_strlit("region_dir");
    reveal_strlit("save_format_version");
    reveal_strlit("schema_version");
    assert("backend"@.len() == 7);
    assert("database_path"@.len() == 13);
    assert("dirty_chunks"@.len() == 12);
    assert("failed_flushes"@.len() == 14);
    assert("flush_batches"@.len() == 13);
    assert("flushed_edits"@.len() == 13);
    assert("loaded_legacy_overrides"@.len() == 23);
    assert("pending_edits"@.len() == 13);
    assert("region_dir"@.len() == 10);
    assert("save_format_version"@.len() == 19);
    assert("schema_version"@.len() == 14);
    assert("database_path"@[0] == 'd');
    assert("failed_flushes"@[0] == 'f');
    assert("flush_batches"@[0] == 'f');
    assert("flush_batches"@[5] == '_');
    assert("flushed_edits"@[0] == 'f');
    assert("flushed_edits"@[5] == 'e');
    assert("pending_edits"@[0] == 'p');
    assert("schema_version"@[0] == 's');
    first_member(members, "backend"@, 0);
    first_member(members, "database_path"@, 1);
    first_member(members, "dirty_chunks"@, 2);
    first_member(members, "failed_flushes"@, 3);
    first_member(members, "flush_batches"@, 4);
    first_member(members, "flushed_edits"@, 5);
    first_member(members, "loaded_legacy_overrides"@, 6);
    first_member(members, "pending_edits"@, 7);
    first_member(members, "region_dir"@, 8);
    first_member(members, "save_format_version"@, 9);
    first_member(members, "schema_version"@, 10);
}

/// The settings of the bridge are told under their names, and where it listens.
pub proof fn bridge_is_told(
    address: Seq<char>,
    config: BridgeConfig,
)
    ensures
        ({
            let value = bridge_json_view(address, config);
            &&& has_text(value, "endpoint"@, "http://"@ + address)
            &&& has_number(value, "max_pending_connections"@, config.max_pending_connections as int)
            &&& has_number(value, "tcp_read_buffer_bytes"@, config.tcp_read_buffer_bytes as int)
            &&& has_number(value, "ws_queue_capacity"@, config.ws_queue_capacity as int)
        }),
{
    let members = bridge_json_view(address, config)->Object_0;
    reveal_strlit("endpoint");
    reveal_strlit("max_pending_connections");
    reveal_strlit("tcp_read_buffer_bytes");
    reveal_strlit("ws_queue_capacity");
    assert("endpoint"@.len() == 8);
    assert("max_pending_connections"@.len() == 23);
    assert("tcp_read_buffer_bytes"@.len() == 21);
    assert("ws_queue_capacity"@.len() == 17);
    first_member(members, "endpoint"@, 0);
    first_member(members, "max_pending_connections"@, 1);
    first_member(members, "tcp_read_buffer_bytes"@, 2);
    first_member(members, "ws_queue_capacity"@, 3);
}

/// The network is told by its players, the view distance and the columns that are loaded and that
/// there are; a player sees a square of columns, twice the view distance and one wide.
pub proof fn network_is_told(
    players: JsonView,
    view_distance_chunks: u8,
    loaded_chunks: usize,
    world_chunk_columns: u64,
)
    ensures
        ({
            let value = network_json_view(players, view_distance_chunks, loaded_chunks, world_chunk_columns);
            &&& member(value, "interest_chunks_per_player"@) == Some(integer_value((2 * view_distance_chunks + 1) * (2 * view_distance_chunks + 1)))
            &&& has_number(value, "loaded_chunks"@, loaded_chunks as int)
            &&& member(value, "players"@) == Some(players)
            &&& has_number(value, "view_distance_chunks"@, view_distance_chunks as int)
            &&& has_number(value, "world_chunk_columns"@, world_chunk_columns as int)
        }),
{
    let members = network_json_view(players, view_distance_chunks, loaded_chunks, world_chunk_columns)->Object_0;
    reveal_strlit("interest_chunks_per_player");
    reveal_strlit("loaded_chunks");
    reveal_strlit("players");
    reveal_strlit("view_distance_chunks");
    reveal_strlit("world_chunk_columns");
    assert("interest_chunks_per_player"@.len() == 26);
    assert("loaded_chunks"@.len() == 13);
    assert("players"@.len() == 7);
    assert("view_distance_chunks"@.len() == 20);
    assert("world_chunk_columns"@.len() == 19);
    first_member(members, "interest_chunks_per_player"@, 0);
    first_member(members, "loaded_chunks"@, 1);
    first_member(members, "players"@, 2);
    first_member(members, "view_distance_chunks"@, 3);
    first_member(members, "world_chunk_columns"@, 4);
}

/// The times of the ticks are told under their names: the last, the average and the longest.
pub proof fn performance_is_told(
    tick: i64,
    last: JsonView,
    average: JsonView,
    longest: JsonView,
    window_samples: usize,
)
    ensures
        ({
            let value = performance_json_view(tick, last, average, longest, window_samples);
            &&& member(value, "avg_mspt"@) == Some(average)
            &&& member(value, "last_mspt"@) == Some(last)
            &&& member(value, "max_mspt"@) == Some(longest)
            &&& has_integer(value, "telemetry_interval_ticks"@, 20)
            &&& has_integer(value, "tick"@, tick as int)
            &&& has_number(value, "window_samples"@, window_samples as int)
        }),
{
    let members = performance_json_view(tick, last, average, longest, window_samples)->Object_0;
    reveal_strlit("avg_mspt");
    reveal_strlit("last_mspt");
    reveal_strlit("max_mspt");
    reveal_strlit("telemetry_interval_ticks");
    reveal_strlit("tick");
    reveal_strlit("window_samples");
    assert("avg_mspt"@.len() == 8);
    assert("last_mspt"@.len() == 9);
    assert("max_mspt"@.len() == 8);
    assert("telemetry_interval_ticks"@.len() == 24);
    assert("tick"@.len() == 4);
    assert("window_samples"@.len() == 14);
    assert("avg_mspt"@[0] == 'a');
    assert("max_mspt"@[0] == 'm');
    first_member(members, "avg_mspt"@, 0);
    first_member(members, "last_mspt"@, 1);
    first_member(members, "max_mspt"@, 2);
    first_member(members, "telemetry_interval_ticks"@, 3);
    first_member(members, "tick"@, 4);
    first_member(members, "window_samples"@, 5);
}

/// A player is told by name, place and ping; a ping that is not known is null.
pub proof fn players_are_told(
    username: Seq<char>,
    position: JsonView,
    ping_ms: Option<i32>,
)
    ensures
        ({
            let value = player_json_view(username, position, ping_ms);
            &&& match ping_ms {
                Some(ping) => has_integer(value, "ping_ms"@, ping as int),
                None => member(value, "ping_ms"@) == Some(JsonView::Null),
            }
            &&& member(value, "position"@) == Some(position)
            &&& has_text(value, "username"@, username)
        }),
{
    let members = player_json_view(username, position, ping_ms)->Object_0;
    reveal_strlit("ping_ms");
    reveal_strlit("position");
    reveal_strlit("username");
    assert("ping_ms"@.len() == 7);
    assert("position"@.len() == 8);
    assert("username"@.len() == 8);
    assert("position"@[0] == 'p');
    assert("username"@[0] == 'u');
    first_member(members, "ping_ms"@, 0);
    first_member(members, "position"@, 1);
    first_member(members, "username"@, 2);
}

/// The status tells each part under its own name.
pub proof fn status_is_told(
    tick: i64,
    connected_players: usize,
    bounds: WorldBounds,
    database_path: Seq<char>,
    address: Seq<char>,
    parts: StatusParts,
)
    ensures
        ({
            let value = server_status_json_view(tick, connected_players, bounds, database_path, address, parts);
            &&& member(value, "bridge"@) == Some(parts.bridge@)
            &&& member(value, "chunk_lifecycle"@) == Some(parts.chunk_lifecycle@)
            &&& has_number(value, "connected_players"@, connected_players as int)
            &&& has_text(value, "database_path"@, database_path)
            &&& has_text(value, "mcp_endpoint"@, "http://"@ + address + "/mcp"@)
            &&& member(value, "network"@) == Some(parts.network@)
            &&& member(value, "performance"@) == Some(parts.performance@)
            &&& member(value, "storage"@) == Some(parts.storage@)
            &&& has_integer(value, "tick"@, tick as int)
            &&& member(value, "world_bounds"@) == Some(world_bounds_json_view(bounds))
        }),
{
    let members = server_status_json_view(tick, connected_players, bounds, database_path, address, parts)->Object_0;
    reveal_strlit("bridge");
    reveal_strlit("chunk_lifecycle");
    reveal_strlit("connected_players");
    reveal_strlit("database_path");
    reveal_strlit("mcp_endpoint");
    reveal_strlit("network");
    reveal_strlit("performance");
    reveal_strlit("storage");
    reveal_strlit("tick");
    reveal_strlit("world_bounds");
    assert("bridge"@.len() == 6);
    assert("chunk_lifecycle"@.len() == 15);
    assert("connected_players"@.len() == 17);
    assert("database_path"@.len() == 13);
    assert("mcp_endpoint"@.len() == 12);
    assert("network"@.len() == 7);
    assert("performance"@.len() == 11);
    assert("storage"@.len() == 7);
    assert("tick"@.len() == 4);
    assert("world_bounds"@.len() == 12);
    assert("mcp_endpoint"@[0] == 'm');
    assert("network"@[0] == 'n');
    assert("storage"@[0] == 's');
    assert("world_bounds"@[0] == 'w');
    first_member(members, "bridge"@, 0);
    first_member(members, "chunk_lifecycle"@, 1);
    first_member(members, "connected_players"@, 2);
    first_member(members, "database_path"@, 3);
    first_member(members, "mcp_endpoint"@, 4);
    first_member(members, "network"@, 5);
    first_member(members, "performance"@, 6);
    first_member(members, "storage"@, 7);
    first_member(members, "tick"@, 8);
    first_member(members, "world_bounds"@, 9);
}

/// A snapshot tells its corners, its volume and its blocks.
pub proof fn snapshot_tells_its_region(
    region: Region,
    blocks: JsonView,
)
    ensures
        ({
            let value = snapshot_view(region, blocks);
            &&& member(value, "blocks"@) == Some(blocks)
            &&& shows_position(value, "max"@, region.max)
            &&& shows_position(value, "min"@, region.min)
            &&& member(value, "volume"@) == Some(integer_value(
                (region.max.x - region.min.x + 1) * (region.max.y - region.min.y + 1) * (region.max.z
                    - region.min.z + 1),
            ))
        }),
{
    let members = snapshot_view(region, blocks)->Object_0;
    reveal_strlit("blocks");
    reveal_strlit("max");
    reveal_strlit("min");
    reveal_strlit("volume");
    assert("blocks"@.len() == 6);
    assert("max"@.len() == 3);
    assert("min"@.len() == 3);
    assert("volume"@.len() == 6);
    assert("blocks"@[0] == 'b');
    assert("max"@[1] == 'a');
    assert("min"@[1] == 'i');
    assert("volume"@[0] == 'v');
    position_is_told(region.max);
    position_is_told(region.min);
    first_member(members, "blocks"@, 0);
    first_member(members, "max"@, 1);
    first_member(members, "min"@, 2);
    first_member(members, "volume"@, 3);
}

/// A fill tells its corners, its block, and how many positions were edited and skipped.
pub proof fn fill_tells_its_counts(
    region: Region,
    edited: u64,
    skipped: u64,
    block: BlockState,
)
    ensures
        ({
            let value = fill_view(region, edited as int, skipped as int, block);
            &&& has_text(value, "block"@, block_name(block))
            &&& has_number(value, "edited"@, edited as int)
            &&& shows_position(value, "max"@, region.max)
            &&& shows_position(value, "min"@, region.min)
            &&& has_number(value, "skipped"@, skipped as int)
        }),
{
    let members = fill_view(region, edited as int, skipped as int, block)->Object_0;
    reveal_strlit("block");
    reveal_strlit("edited");
    reveal_strlit("max");
    reveal_strlit("min");
    reveal_strlit("skipped");
    assert("block"@.len() == 5);
    assert("edited"@.len() == 6);
    assert("max"@.len() == 3);
    assert("min"@.len() == 3);
    assert("skipped"@.len() == 7);
    assert("max"@[1] == 'a');
    assert("min"@[1] == 'i');
    position_is_told(region.max);
    position_is_told(region.min);
    first_member(members, "block"@, 0);
    first_member(members, "edited"@, 1);
    first_member(members, "max"@, 2);
    first_member(members, "min"@, 3);
    first_member(members, "skipped"@, 4);
}

/// A stored build is told field by field; it can be undone exactly while it is applied.
pub proof fn stored_build_is_told(
    build: StoredBuild,
)
    ensures
        ({
            let value = stored_build_summary_view(build);
            &&& has_text(value, "actor"@, build.actor@)
            &&& has_text(value, "applied_at"@, build.applied_at@)
            &&& has_text(value, "build_id"@, build.build_id@)
            &&& has_number(value, "changed"@, build.changed as int)
            &&& has_text(value, "created_at"@, build.created_at@)
            &&& has_text(value, "plan_hash"@, build.plan_hash@)
            &&& has_number(value, "skipped"@, build.skipped as int)
            &&& has_text(value, "state"@, build.state@)
            &&& member(value, "undo_available"@) == Some(JsonView::Bool(build.state@ == "applied"@))
            &&& match build.undone_at {
                Some(time) => has_text(value, "undone_at"@, time@),
                None => member(value, "undone_at"@) == Some(JsonView::Null),
            }
        }),
{
    let members = stored_build_summary_view(build)->Object_0;
    reveal_strlit("actor");
    reveal_strlit("applied_at");
    reveal_strlit("build_id");
    reveal_strlit("changed");
    reveal_strlit("created_at");
    reveal_strlit("plan_hash");
    reveal_strlit("skipped");
    reveal_strlit("state");
    reveal_strlit("undo_available");
    reveal_strlit("undone_at");
    assert("actor"@.len() == 5);
    assert("applied_at"@.len() == 10);
    assert("build_id"@.len() == 8);
    assert("changed"@.len() == 7);
    assert("created_at"@.len() == 10);
    assert("plan_hash"@.len() == 9);
    assert("skipped"@.len() == 7);
    assert("state"@.len() == 5);
    assert("undo_available"@.len() == 14);
    assert("undone_at"@.len() == 9);
    assert("actor"@[0] == 'a');
    assert("applied_at"@[0] == 'a');
    assert("changed"@[0] == 'c');
    assert("created_at"@[0] == 'c');
    assert("plan_hash"@[0] == 'p');
    assert("skipped"@[0] == 's');
    assert("state"@[0] == 's');
    assert("undone_at"@[0] == 'u');
    first_member(members, "actor"@, 0);
    first_member(members, "applied_at"@, 1);
    first_member(members, "build_id"@, 2);
    first_member(members, "changed"@, 3);
    first_member(members, "created_at"@, 4);
    first_member(members, "plan_hash"@, 5);
    first_member(members, "skipped"@, 6);
    first_member(members, "state"@, 7);
    first_member(members, "undo_available"@, 8);
    first_member(members, "undone_at"@, 9);
}

/// An applied build is told field by field.
pub proof fn applied_build_is_told(
    result: ApplyBuildResult,
)
    ensures
        ({
            let value = apply_result_view(result);
            &&& has_text(value, "build_id"@, result.build_id@)
            &&& has_number(value, "changed"@, result.changed as int)
            &&& has_text(value, "plan_hash"@, result.plan_hash@)
            &&& has_number(value, "skipped"@, result.skipped as int)
            &&& member(value, "undo_available"@) == Some(JsonView::Bool(result.undo_available))
        }),
{
    let members = apply_result_view(result)->Object_0;
    reveal_strlit("build_id");
    reveal_strlit("changed");
    reveal_strlit("plan_hash");
    reveal_strlit("skipped");
    reveal_strlit("undo_available");
    assert("build_id"@.len() == 8);
    assert("changed"@.len() == 7);
    assert("plan_hash"@.len() == 9);
    assert("skipped"@.len() == 7);
    assert("undo_available"@.len() == 14);
    assert("changed"@[0] == 'c');
    assert("skipped"@[0] == 's');
    first_member(members, "build_id"@, 0);
    first_member(members, "changed"@, 1);
    first_member(members, "plan_hash"@, 2);
    first_member(members, "skipped"@, 3);
    first_member(members, "undo_available"@, 4);
}

/// An undone build is told field by field.
pub proof fn undone_build_is_told(
    result: UndoBuildResult,
)
    ensures
        ({
            let value = undo_result_view(result);
            &&& member(value, "already_undone"@) == Some(JsonView::Bool(result.already_undone))
            &&& has_text(value, "build_id"@, result.build_id@)
            &&& has_number(value, "restored"@, result.restored as int)
            &&& has_text(value, "state"@, result.state@)
        }),
{
    let members = undo_result_view(result)->Object_0;
    reveal_strlit("already_undone");
    reveal_strlit("build_id");
    reveal_strlit("restored");
    reveal_strlit("state");
    assert("already_undone"@.len() == 14);
    assert("build_id"@.len() == 8);
    assert("restored"@.len() == 8);
    assert("state"@.len() == 5);
    assert("build_id"@[0] == 'b');
    assert("restored"@[0] == 'r');
    first_member(members, "already_undone"@, 0);
    first_member(members, "build_id"@, 1);
    first_member(members, "restored"@, 2);
    first_member(members, "state"@, 3);
}

/// A removal tells the instance, and whether it was removed before.
pub proof fn removal_is_told(
    instance_id: Seq<char>,
    already_removed: bool,
)
    ensures
        ({
            let value = removal_view(instance_id, already_removed);
            &&& member(value, "already_removed"@) == Some(JsonView::Bool(already_removed))
            &&& has_text(value, "instance_id"@, instance_id)
            &&& member(value, "removed"@) == Some(JsonView::Bool(true))
        }),
{
    let members = removal_view(instance_id, already_removed)->Object_0;
    reveal_strlit("already_removed");
    reveal_strlit("instance_id");
    reveal_strlit("removed");
    assert("already_removed"@.len() == 15);
    assert("instance_id"@.len() == 11);
    assert("removed"@.len() == 7);
    first_member(members, "already_removed"@, 0);
    first_member(members, "instance_id"@, 1);
    first_member(members, "removed"@, 2);
}

/// A block of the palette is told by its name, family, color and opacity.
pub proof fn palette_entry_is_told(
    entry: BuildPaletteEntry,
)
    ensures
        ({
            let value = palette_entry_json_view(entry);
            &&& has_text(value, "family"@, entry.family@)
            &&& has_text(value, "name"@, entry.name@)
            &&& has_text(value, "opacity"@, entry.opacity@)
            &&& has_text(value, "representative_rgb"@, entry.representative_rgb@)
        }),
{
    let members = palette_entry_json_view(entry)->Object_0;
    reveal_strlit("family");
    reveal_strlit("name");
    reveal_strlit("opacity");
    reveal_strlit("representative_rgb");
    assert("family"@.len() == 6);
    assert("name"@.len() == 4);
    assert("opacity"@.len() == 7);
    assert("representative_rgb"@.len() == 18);
    first_member(members, "family"@, 0);
    first_member(members, "name"@, 1);
    first_member(members, "opacity"@, 2);
    first_member(members, "representative_rgb"@, 3);
}

proof fn palette_items_are_entries(n: int)
    requires
        0 <= n,
    ensures
        palette_items(n).len() == n,
        forall|i: int|
            0 <= i < n ==> #[trigger] palette_items(n)[i] == palette_entry_json_view(
                sorted_entries(palette(), palette().len() as int)[i],
            ),
    decreases n,
{
    if n > 0 {
        palette_items_are_entries(n - 1);
    }
}

/// The list of the palette has every entry once, in the order of the names, and tells the version of
/// the game.
pub proof fn palette_is_told(k: int)
    requires
        0 <= k < palette().len(),
    ensures
        has_text(palette_view(), "minecraft_version"@, "1.20.1"@),
        has_integer(palette_view(), "palette_version"@, 1),
        member(palette_view(), "blocks"@) matches Some(JsonView::Array(items)) && items.len()
            == palette().len() && exists|i: int|
            0 <= i < items.len() && has_text(#[trigger] items[i], "name"@, palette()[k].name@)
                && has_text(items[i], "family"@, palette()[k].family@) && has_text(
                items[i],
                "opacity"@,
                palette()[k].opacity@,
            ) && has_text(items[i], "representative_rgb"@, palette()[k].representative_rgb@),
{
    let members = palette_view()->Object_0;
    reveal_strlit("blocks");
    reveal_strlit("minecraft_version");
    reveal_strlit("palette_version");
    assert("blocks"@.len() == 6);
    assert("minecraft_version"@.len() == 17);
    assert("palette_version"@.len() == 15);
    first_member(members, "blocks"@, 0);
    first_member(members, "minecraft_version"@, 1);
    first_member(members, "palette_version"@, 2);
    public_entries_are_sorted();
    let entries = sorted_entries(palette(), palette().len() as int);
    palette_items_are_entries(entries.len() as int);
    assert(palette().contains(palette()[k]));
    assert(entries.contains(palette()[k]));
    let i = choose|i: int| 0 <= i < entries.len() && entries[i] == palette()[k];
    let items = palette_items(entries.len() as int);
    palette_entry_is_told(entries[i]);
    assert(items[i] == palette_entry_json_view(entries[i]));
}

/// The pings are told in the order of the players, with commas between them; a ping that is negative is
/// told to be pending; and where there are no players, that is told.
pub proof fn pings_are_told_in_order(players: Seq<PlayerTelemetry>, more: PlayerTelemetry)
    ensures
        player_pings(Seq::empty()) == "no connected players"@,
        player_pings(players.push(more)) == if players.len() == 0 {
            ping_text(more)
        } else {
            player_pings(players) + ", "@ + ping_text(more)
        },
        more.ping_ms >= 0 ==> ping_text(more) == more.username@ + "="@ + (decimal_nat(
            more.ping_ms as nat,
        ) + "ms"@),
        more.ping_ms < 0 ==> ping_text(more) == more.username@ + "="@ + "pending"@,
{
    let longer = players.push(more);
    pings_look_no_further(players, more, players.len() as int);
    assert(longer[players.len() as int] == more);
}

proof fn pings_look_no_further(players: Seq<PlayerTelemetry>, more: PlayerTelemetry, n: int)
    requires
        0 <= n <= players.len(),
    ensures
        pings_text(players.push(more), n) == pings_text(players, n),
    decreases n,
{
    if n > 0 {
        pings_look_no_further(players, more, n - 1);
        assert(players.push(more)[n - 1] == players[n - 1]);
        assert(players.push(more)[0] == players[0]);
    }
}

/// True iff the value is the list of the three numbers.
pub open spec fn lists_numbers(value: JsonView, v: Seq<Scalar>) -> bool {
    value matches JsonView::Array(items) && items.len() == v.len() && forall|i: int|
        #![trigger items[i]]
        0 <= i < v.len() ==> (v[i].finite() ==> items[i] == JsonView::Number(
            NumberView::Float(v[i].bits),
        )) && (!v[i].finite() ==> items[i] == JsonView::Null)
}

proof fn vectors_are_told(v: Seq<Scalar>)
    requires
        v.len() == 3,
    ensures
        lists_numbers(vector_value(v), v),
{
    let items = vector_value(v)->Array_0;
    assert(items[0] == number_value(v[0]) && items[1] == number_value(v[1]) && items[2]
        == number_value(v[2]));
}

proof fn boxes_are_listed(boxes: Seq<SculptCollisionBox>, n: nat)
    requires
        n <= boxes.len(),
    ensures
        box_values(boxes, n).len() == n,
        forall|i: int| 0 <= i < n ==> #[trigger] box_values(boxes, n)[i] == box_value(boxes[i]),
    decreases n,
{
    if n > 0 {
        boxes_are_listed(boxes, (n - 1) as nat);
    }
}

/// A collision is told by its mode and its boxes, one after the other, each with its center and its
/// size.
pub proof fn collision_is_told(collision: SculptCollision, i: int)
    ensures
        has_text(collision_value(collision), "mode"@, collision.mode@),
        member(collision_value(collision), "boxes"@) matches Some(JsonView::Array(items))
            && items.len() == collision.boxes@.len() && (0 <= i < items.len() ==> (member(
            items[i],
            "center"@,
        ) matches Some(center) && lists_numbers(center, collision.boxes@[i].center@)) && (member(
            items[i],
            "size"@,
        ) matches Some(size) && lists_numbers(size, collision.boxes@[i].size@))),
{
    let members = collision_value(collision)->Object_0;
    reveal_strlit("boxes");
    reveal_strlit("mode");
    assert("boxes"@.len() == 5);
    assert("mode"@.len() == 4);
    reveal_strlit("center");
    reveal_strlit("size");
    assert("center"@.len() == 6);
    assert("size"@.len() == 4);
    first_member(members, "boxes"@, 0);
    first_member(members, "mode"@, 1);
    let boxes = collision.boxes@;
    boxes_are_listed(boxes, boxes.len());
    if 0 <= i < boxes.len() {
        let item = box_value(boxes[i]);
        first_member(item->Object_0, "center"@, 0);
        first_member(item->Object_0, "size"@, 1);
        vectors_are_told(boxes[i].center@);
        vectors_are_told(boxes[i].size@);
        assert(box_values(boxes, boxes.len())[i] == item);
    }
}

} // verus!
