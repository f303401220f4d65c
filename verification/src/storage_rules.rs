//! What the storage keeps of blocks, edits and builds, and how the writer ends.

use vstd::prelude::*;
use crate::anvil::saved_block;
use crate::block::{column_of, BlockPos, BlockState, ChunkColumn};
use crate::chunk_rules::{columns_hold_their_blocks, in_column};
use crate::persistence::{
    action_for, after_action, after_records, block_row_error, column_before, distinct_records,
    edit_action,
    edits_of_column, good_block_row, groups_edits, has_group, has_record, last_edit, needed_step, overlaid,
    record_row, row_override, row_record, size_of_count, stored_build_is_loaded, BlockEdit, BuildBlockRecord,
    BuildBlockRow, ColumnEdits, OverrideRow, PersistenceError, SchemaStep,
};
use crate::world_command::base_block;
use crate::writer::{
    next_action, next_phase, writer_trace, PersistenceStats, WriterAction, WriterEvent, WriterPhase,
};

verus! {

// ---- versions ----

/// A database without versions is set up; one of schema 6 is kept, and an older one upgraded, unless
/// its saves are of a format above 3; a newer one is refused, with the versions that it has and that
/// are known.
pub proof fn databases_are_opened_by_their_versions(schema: i64, save_format: i64)
    ensures
        needed_step(None) == Ok::<SchemaStep, PersistenceError>(SchemaStep::Initialize),
        schema == 6 && save_format <= 3 ==> needed_step(Some((schema, save_format))) == Ok::<
            SchemaStep,
            PersistenceError,
        >(SchemaStep::Keep),
        schema < 6 && save_format <= 3 ==> needed_step(Some((schema, save_format))) == Ok::<
            SchemaStep,
            PersistenceError,
        >(SchemaStep::Upgrade),
        schema > 6 ==> needed_step(Some((schema, save_format))) == Err::<
            SchemaStep,
            PersistenceError,
        >(PersistenceError::UnsupportedSchemaVersion { found: schema, supported: 6 }),
        schema <= 6 && save_format > 3 ==> needed_step(Some((schema, save_format))) == Err::<
            SchemaStep,
            PersistenceError,
        >(PersistenceError::UnsupportedSaveFormatVersion { found: save_format, supported: 3 }),
{
}

// ---- rows ----

/// A row of a build's block has each thing in its own place, and so has the record that is read of it.
pub proof fn block_rows_keep_their_places(record: BuildBlockRecord, row: BuildBlockRow, saved: OverrideRow)
    ensures
        ({
            let written = record_row(record);
            &&& written.x == record.position.x
            &&& written.y == record.position.y
            &&& written.z == record.position.z
            &&& written.original_raw == record.original_block
            &&& written.applied_raw == record.applied_block
        }),
        ({
            let read = row_record(row);
            &&& read.position.x == row.x
            &&& read.position.y == row.y
            &&& read.position.z == row.z
            &&& 0 <= row.original_raw < 0x1_0000 ==> read.original_block == row.original_raw
            &&& 0 <= row.applied_raw < 0x1_0000 ==> read.applied_block == row.applied_raw
        }),
        ({
            let read = row_override(saved);
            &&& read.position.x == saved.x
            &&& read.position.y == saved.y
            &&& read.position.z == saved.z
            &&& 0 <= saved.raw < 0x1_0000 ==> read.block == saved.raw
        }),
        row_record(record_row(record)) == record,
{
}

/// A row that cannot be read is told by its position and by a number of it that is no block state, the
/// original one where that is none.
pub proof fn bad_rows_are_told_by_their_bad_number(row: BuildBlockRow)
    ensures
        good_block_row(row) <==> 0 <= row.original_raw <= 24134 && 0 <= row.applied_raw <= 24134,
        !good_block_row(row) ==> (block_row_error(row) matches PersistenceError::InvalidBlockState {
            position,
            raw,
        } && position == (BlockPos { x: row.x, y: row.y, z: row.z }) && (raw < 0 || raw > 24134) && (
        raw == row.original_raw || 0 <= row.original_raw <= 24134 && raw == row.applied_raw)),
{
}

/// A load shows, at each position, what the overlay says; else what the region file says; else the
/// block of the untouched world.
pub proof fn loads_show_the_overlay_first(
    saved: Map<BlockPos, BlockState>,
    overlay: Map<BlockPos, BlockState>,
    p: BlockPos,
)
    ensures
        overlay.contains_key(p) ==> saved_block(overlaid(saved, overlay), p) == overlay[p],
        !overlay.contains_key(p) && saved.contains_key(p) ==> saved_block(
            overlaid(saved, overlay),
            p,
        ) == saved[p],
        !overlay.contains_key(p) && !saved.contains_key(p) ==> saved_block(
            overlaid(saved, overlay),
            p,
        ) == base_block((p.x as int, p.y as int, p.z as int)),
{
}

/// Writing a block to the overlay makes a load show it, and leaves every other position alone; no row
/// is kept for a block that the region file shows by itself.
pub proof fn written_blocks_are_shown(
    saved: Map<BlockPos, BlockState>,
    overlay: Map<BlockPos, BlockState>,
    p: BlockPos,
    block: BlockState,
    q: BlockPos,
)
    ensures
        ({
            let after = after_action(overlay, p, action_for(saved, p, block));
            &&& saved_block(overlaid(saved, after), p) == block
            &&& q != p ==> saved_block(overlaid(saved, after), q) == saved_block(
                overlaid(saved, overlay),
                q,
            )
            &&& after.contains_key(p) <==> block != (if saved.contains_key(p) {
                saved[p]
            } else {
                base_block((p.x as int, p.y as int, p.z as int))
            })
        }),
{
}

/// An edit's action on the overlay leaves a row exactly where the edit leaves a block that is not that
/// of the untouched world; over an empty region file a load then shows the edit's block.
pub proof fn edits_are_shown(overlay: Map<BlockPos, BlockState>, edit: BlockEdit, q: BlockPos)
    requires
        edit.base_block == base_block(edit.position.coords()),
    ensures
        ({
            let after = after_action(overlay, edit.position, edit_action(edit));
            &&& saved_block(overlaid(Map::empty(), after), edit.position) == edit.block
            &&& after.contains_key(edit.position) <==> edit.block != edit.base_block
            &&& q != edit.position ==> after.contains_key(q) == overlay.contains_key(q) && (
            overlay.contains_key(q) ==> after[q] == overlay[q])
        }),
{
}

/// A build that was written is loaded with the blocks that it placed; one that was undone is loaded
/// with the blocks that stood there before; either way, every other position is as it was.
pub proof fn written_builds_are_shown(
    saved: Map<BlockPos, BlockState>,
    overlay: Map<BlockPos, BlockState>,
    records: Seq<BuildBlockRecord>,
    i: int,
    p: BlockPos,
)
    requires
        distinct_records(records),
        0 <= i < records.len(),
    ensures
        ({
            let n = records.len() as int;
            let built = after_records(saved, overlay, records, true, n);
            let undone = after_records(saved, built, records, false, n);
            &&& saved_block(overlaid(saved, built), records[i].position) == records[i].applied_block
            &&& saved_block(overlaid(saved, undone), records[i].position)
                == records[i].original_block
            &&& (forall|j: int| 0 <= j < n ==> (#[trigger] records[j]).position != p)
                ==> saved_block(overlaid(saved, built), p) == saved_block(
                overlaid(saved, overlay),
                p,
            ) && saved_block(overlaid(saved, undone), p) == saved_block(overlaid(saved, overlay), p)
        }),
{
    let n = records.len() as int;
    let built = after_records(saved, overlay, records, true, n);
    let undone = after_records(saved, built, records, false, n);
    stored_build_is_loaded(saved, overlay, records, true);
    stored_build_is_loaded(saved, built, records, false);
    assert(records[i] == records[i]);
    if forall|j: int| 0 <= j < n ==> (#[trigger] records[j]).position != p {
        assert(!has_record(records, n, p));
        assert(saved_block(overlaid(saved, built), p) == saved_block(overlaid(saved, overlay), p));
        assert(saved_block(overlaid(saved, undone), p) == saved_block(overlaid(saved, built), p));
    }
}

// ---- edits ----

/// True iff the edit number `i` is the last of the first `n` at that position.
pub open spec fn is_last_edit(edits: Seq<BlockEdit>, n: int, p: BlockPos, i: int) -> bool {
    &&& 0 <= i < n
    &&& edits[i].position == p
    &&& forall|j: int| i < j < n ==> (#[trigger] edits[j]).position != p
}

/// The last edit of a position is the one that no later one follows there.
pub proof fn last_edit_is_the_last(edits: Seq<BlockEdit>, n: int, p: BlockPos)
    requires
        0 <= n <= edits.len(),
    ensures
        forall|i: int| #[trigger]
            is_last_edit(edits, n, p, i) ==> last_edit(edits, n, p) == Some(edits[i]),
        last_edit(edits, n, p) is None <==> forall|i: int|
            0 <= i < n ==> (#[trigger] edits[i]).position != p,
    decreases n,
{
    if n > 0 {
        last_edit_is_the_last(edits, n - 1, p);
        assert forall|i: int| #[trigger] is_last_edit(edits, n, p, i) implies last_edit(edits, n, p)
            == Some(edits[i]) by {
            if edits[n - 1].position != p {
                assert(is_last_edit(edits, n - 1, p, i));
            } else if i < n - 1 {
                assert(edits[n - 1].position != p);
            }
        }
    }
}

/// The edits of a column are those that lie in it, in the order in which they came: each of the first
/// `n` stands there exactly where it lies in the column, behind as many as came before it.
pub proof fn columns_get_their_edits(edits: Seq<BlockEdit>, column: ChunkColumn, n: int, i: int)
    requires
        0 <= i < n <= edits.len(),
    ensures
        ({
            let own = edits_of_column(edits, column, n);
            let before = edits_of_column(edits, column, i).len() as int;
            &&& in_column(edits[i].position.coords(), column.coords()) ==> before < own.len()
                && own[before] == edits[i] && edits_of_column(edits, column, i + 1).len() == before
                + 1
            &&& !in_column(edits[i].position.coords(), column.coords()) ==> edits_of_column(
                edits,
                column,
                i + 1,
            ).len() == before
        }),
        edits_of_column(edits, column, 0).len() == 0,
        forall|k: int|
            0 <= k < edits_of_column(edits, column, n).len() ==> in_column(
                (#[trigger] edits_of_column(edits, column, n)[k]).position.coords(),
                column.coords(),
            ),
    decreases n,
{
    let e = edits[n - 1];
    columns_hold_their_blocks(e.position.coords(), column.coords());
    columns_hold_their_blocks(edits[i].position.coords(), column.coords());
    if i < n - 1 {
        columns_get_their_edits(edits, column, n - 1, i);
    } else if n - 1 > 0 {
        columns_get_their_edits(edits, column, n - 1, 0);
    }
    let rest = edits_of_column(edits, column, n - 1);
    let own = edits_of_column(edits, column, n);
    assert forall|k: int| 0 <= k < own.len() implies in_column(
        (#[trigger] own[k]).position.coords(),
        column.coords(),
    ) by {
        if k < rest.len() {
            assert(own[k] == rest[k]);
        }
    }
}

/// Columns are written region by region, 32 by 32 columns each: no column of another region comes
/// between two of one region.
pub proof fn regions_are_written_one_by_one(a: ChunkColumn, b: ChunkColumn, c: ChunkColumn)
    requires
        column_before(a, b),
        column_before(b, c),
        a.x as int / 32 == c.x as int / 32,
        a.z as int / 32 == c.z as int / 32,
    ensures
        a.x as int / 32 == b.x as int / 32,
        a.z as int / 32 == b.z as int / 32,
        a.x < b.x || a.x == b.x && a.z < b.z,
        column_before(a, c),
{
}

/// Columns are written in ascending order: by the x and then the z of their regions, and in one region
/// by their own.
pub proof fn columns_are_written_in_ascending_order(
    a: ChunkColumn,
    b: ChunkColumn,
    ra: (int, int),
    rb: (int, int),
)
    requires
        32 * ra.0 <= a.x < 32 * ra.0 + 32,
        32 * ra.1 <= a.z < 32 * ra.1 + 32,
        32 * rb.0 <= b.x < 32 * rb.0 + 32,
        32 * rb.1 <= b.z < 32 * rb.1 + 32,
    ensures
        ra.0 < rb.0 ==> column_before(a, b),
        ra.0 == rb.0 && ra.1 < rb.1 ==> column_before(a, b),
        ra == rb && a.x < b.x ==> column_before(a, b),
        ra == rb && a.x == b.x && a.z < b.z ==> column_before(a, b),
{
}

/// Of two different columns exactly one is written before the other.
pub proof fn columns_are_written_in_one_order(a: ChunkColumn, b: ChunkColumn)
    ensures
        a == b ==> !column_before(a, b),
        a != b ==> column_before(a, b) != column_before(b, a),
{
}

// ---- the writer ----

/// A writer that was told to stop stops: a shutdown or a closed queue ends it with the batch that it is
/// at, and no edit that it still takes in makes it go on. Nothing else stops it.
pub proof fn writer_stops_when_told(phase: WriterPhase, batch: Seq<BlockEdit>, event: WriterEvent)
    requires
        !(phase is Ready),
    ensures
        ({
            let after = next_phase(phase, batch, event);
            let stops = match after {
                WriterPhase::Waiting => false,
                WriterPhase::Draining { stop } => stop,
                WriterPhase::Ready { stop } => stop,
            };
            &&& stops <==> event is Shutdown || event is Disconnected || phase
                == (WriterPhase::Draining { stop: true })
            &&& event is Disconnected ==> after is Ready
            &&& event is Edit ==> after is Draining
            &&& event is Nothing ==> (after is Waiting <==> phase is Waiting && batch.len() == 0)
            &&& event is Nothing ==> !(after is Draining)
            &&& phase is Draining && event is Shutdown ==> after is Ready
            &&& phase is Waiting && event is Shutdown ==> after is Draining
        }),
{
}

/// A batch is written at the latest with its 256th edit, and at once where the queue is empty; and
/// between batches nothing waits.
pub proof fn batches_are_written_in_time(events: Seq<WriterEvent>, n: int)
    requires
        0 <= n <= events.len(),
    ensures
        writer_trace(events, n).batch.len() < 256,
        n > 0 && events[n - 1] is Nothing ==> writer_trace(events, n).batch.len() == 0,
        n > 0 && events[n - 1] is Disconnected ==> writer_trace(events, n).batch.len() == 0,
        n > 0 && events[n - 1] is Edit ==> {
            let before = writer_trace(events, n - 1).batch.len();
            writer_trace(events, n).batch.len() == if before == 255 {
                0
            } else {
                before + 1
            }
        },
        !(writer_trace(events, n).phase is Ready),
        writer_trace(events, n).phase is Waiting ==> writer_trace(events, n).batch.len() == 0,
    decreases n,
{
    if n > 0 {
        batches_are_written_in_time(events, n - 1);
    }
}

/// A writer writes its batch exactly where it is complete or has 256 edits; it then stops exactly where
/// it was told to. Until then it takes messages: it waits for the first, and for no further one.
pub proof fn writer_writes_full_and_complete_batches(phase: WriterPhase, batch: nat)
    ensures
        next_action(phase, batch) is Flush <==> phase is Ready || (phase is Draining && batch >= 256),
        next_action(phase, batch) is Wait <==> phase is Waiting,
        next_action(phase, batch) is Poll <==> phase is Draining && batch < 256,
        next_action(phase, batch) matches WriterAction::Flush { stop } ==> (stop <==> phase
            == (WriterPhase::Draining { stop: true }) || phase == (WriterPhase::Ready { stop: true })),
{
}

/// Written edits move from those that wait to those that were written: where `count` of them waited,
/// as many fewer wait, and as many more were written, in one more batch; no failure is counted.
pub proof fn written_edits_are_counted_once(stats: PersistenceStats, count: usize)
    requires
        count <= stats.pending_edits,
        stats.flushed_edits + count <= u64::MAX,
        stats.flush_batches < u64::MAX,
    ensures
        ({
            let after = stats.after_flush(count);
            &&& after.pending_edits + count == stats.pending_edits
            &&& after.flushed_edits == stats.flushed_edits + count
            &&& after.flush_batches == stats.flush_batches + if count > 0 {
                1int
            } else {
                0int
            }
            &&& after.failed_flushes == stats.failed_flushes
        }),
{
}

/// A count of the database is read as it is, where it is not negative and is a size; else it is read
/// as the greatest size.
pub proof fn counts_are_read_as_sizes(count: i64)
    ensures
        0 <= count && count as int <= usize::MAX as int ==> size_of_count(count) == count,
        count < 0 ==> size_of_count(count) == usize::MAX,
        count as int > usize::MAX as int ==> size_of_count(count) == usize::MAX,
{
}

// ---- groups of edits ----

/// True iff the group holds the edit at that place.
pub open spec fn holds_edit(group: ColumnEdits, at: int, edit: BlockEdit) -> bool {
    0 <= at < group.edits@.len() && group.edits@[at] == edit
}

/// Every edit stands in exactly one group, that of the column that it lies in, behind the edits of that
/// column that came before it; a group's region is the 32 by 32 columns that hold its column.
pub proof fn edits_stand_in_the_group_of_their_column(
    groups: Seq<ColumnEdits>,
    edits: Seq<BlockEdit>,
    i: int,
)
    requires
        groups_edits(groups, edits, edits.len() as int),
        0 <= i < edits.len(),
    ensures
        exists|k: int|
            0 <= k < groups.len() && in_column(
                edits[i].position.coords(),
                (#[trigger] groups[k]).column.coords(),
            ) && holds_edit(
                groups[k],
                edits_of_column(edits, groups[k].column, i).len() as int,
                edits[i],
            ),
        forall|k: int, j: int|
            0 <= k < groups.len() && 0 <= j < groups.len() && in_column(
                edits[i].position.coords(),
                (#[trigger] groups[k]).column.coords(),
            ) && in_column(edits[i].position.coords(), (#[trigger] groups[j]).column.coords()) ==> k
                == j,
        forall|k: int|
            #![trigger groups[k]]
            0 <= k < groups.len() ==> {
                let group = groups[k];
                &&& 32 * group.region.0 <= group.column.x < 32 * group.region.0 + 32
                &&& 32 * group.region.1 <= group.column.z < 32 * group.region.1 + 32
                &&& group.edits@.len() > 0
            },
{
    let n = edits.len() as int;
    let p = edits[i].position.coords();
    let c = column_of(p);
    assert(has_group(groups, column_of(edits[i].position.coords())));
    let k = choose|k: int| 0 <= k < groups.len() && (#[trigger] groups[k]).column.coords() == c;
    columns_hold_their_blocks(p, groups[k].column.coords());
    columns_get_their_edits(edits, groups[k].column, n, i);
    assert(groups[k].edits@ == edits_of_column(edits, groups[k].column, n));
    assert(holds_edit(
        groups[k],
        edits_of_column(edits, groups[k].column, i).len() as int,
        edits[i],
    ));
    assert forall|a: int, b: int|
        0 <= a < groups.len() && 0 <= b < groups.len() && in_column(
            p,
            (#[trigger] groups[a]).column.coords(),
        ) && in_column(p, (#[trigger] groups[b]).column.coords()) implies a == b by {
        columns_hold_their_blocks(p, groups[a].column.coords());
        columns_hold_their_blocks(p, groups[b].column.coords());
        if a < b {
            assert(column_before(groups[a].column, groups[b].column));
        } else if b < a {
            assert(column_before(groups[b].column, groups[a].column));
        }
    }
}

} // verus!
