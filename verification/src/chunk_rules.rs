//! Which columns hold which blocks, which are loaded for whom, and what stands in them, said with
//! coordinates.

use vstd::prelude::*;
use crate::anvil::override_map;
use crate::block::{column_of, BlockPos, ChunkColumn};
use crate::build_service::{neighbor, next_to};
use crate::chunks::{
    after_filled, column_row, column_rows, columns_near, is_desired, is_generated, near, restored,
    restored_blocks, restored_count, seen_columns, span, view_distance, LifecycleView, CHUNK_LOAD_MARGIN,
};
use crate::layer::WorldView;
use crate::persistence::SavedBlockOverride;
use crate::text::{parsed_unsigned, trimmed};
use crate::world_command::WorldBounds;

verus! {

/// True iff the position lies in the column: sixteen blocks in x and in z, at any height.
pub open spec fn in_column(p: (int, int, int), column: (int, int)) -> bool {
    16 * column.0 <= p.0 < 16 * column.0 + 16 && 16 * column.1 <= p.2 < 16 * column.1 + 16
}

/// The column of a position is the one that it lies in.
pub proof fn columns_hold_their_blocks(p: (int, int, int), column: (int, int))
    ensures
        column_of(p) == column <==> in_column(p, column),
{
}

/// True iff the bounds hold the position.
pub open spec fn within_bounds(bounds: WorldBounds, p: (int, int, int)) -> bool {
    &&& bounds.min_x <= p.0 <= bounds.max_x
    &&& bounds.min_y <= p.1 <= bounds.max_y
    &&& bounds.min_z <= p.2 <= bounds.max_z
}

/// The bounds have a column exactly where they hold a position of it.
pub proof fn bounds_have_the_columns_of_their_blocks(bounds: WorldBounds, column: (int, int))
    ensures
        bounds.has_column(column) <==> exists|p: (int, int, int)| #[trigger]
            within_bounds(bounds, p) && in_column(p, column),
{
    if bounds.has_column(column) {
        let x = if 16 * column.0 >= bounds.min_x {
            16 * column.0
        } else {
            bounds.min_x as int
        };
        let z = if 16 * column.1 >= bounds.min_z {
            16 * column.1
        } else {
            bounds.min_z as int
        };
        let p = (x, bounds.min_y as int, z);
        assert(within_bounds(bounds, p) && in_column(p, column));
    }
}

// ---- what is loaded for whom ----

/// True iff the two columns are at most `steps` columns apart, in x and in z.
pub open spec fn columns_apart(a: (int, int), b: (int, int), steps: int) -> bool {
    let dx = if a.0 >= b.0 { a.0 - b.0 } else { b.0 - a.0 };
    let dz = if a.1 >= b.1 { a.1 - b.1 } else { b.1 - a.1 };
    dx <= steps && dz <= steps
}

/// A column is wanted exactly where the bounds hold a block of it and it is at most one column beyond
/// the view distance from one of the players.
pub proof fn columns_are_wanted_exactly_when(
    centers: Seq<ChunkColumn>,
    bounds: WorldBounds,
    view_distance_chunks: u8,
    column: (int, int),
)
    ensures
        is_desired(
            centers,
            centers.len() as int,
            bounds,
            view_distance_chunks + CHUNK_LOAD_MARGIN,
            column,
        ) <==> {
            &&& exists|p: (int, int, int)| #[trigger]
                within_bounds(bounds, p) && in_column(p, column)
            &&& exists|i: int|
                0 <= i < centers.len() && columns_apart(
                    ((#[trigger] centers[i]).x as int, centers[i].z as int),
                    column,
                    view_distance_chunks + 1,
                )
        },
{
    bounds_have_the_columns_of_their_blocks(bounds, column);
    let radius = view_distance_chunks + CHUNK_LOAD_MARGIN;
    assert forall|i: int| 0 <= i < centers.len() implies near(#[trigger] centers[i], radius, column)
        == columns_apart(
        (centers[i].x as int, centers[i].z as int),
        column,
        view_distance_chunks + 1,
    ) by {}
}

/// Every player's own column is wanted, where it is one of the bounds, whatever the view distance.
pub proof fn own_columns_are_wanted(
    centers: Seq<ChunkColumn>,
    bounds: WorldBounds,
    view_distance_chunks: u8,
    i: int,
)
    requires
        0 <= i < centers.len(),
        bounds.has_column(centers[i].coords()),
    ensures
        is_desired(
            centers,
            centers.len() as int,
            bounds,
            view_distance_chunks + CHUNK_LOAD_MARGIN,
            centers[i].coords(),
        ),
{
    assert(near(centers[i], view_distance_chunks + CHUNK_LOAD_MARGIN, centers[i].coords()));
}

proof fn column_near(bounds: WorldBounds, p: BlockPos, n: int, m: int, q: BlockPos)
    requires
        0 <= m < n,
        (if m == 0 {
            Some(p)
        } else {
            neighbor(p, m - 1)
        }) == Some(q),
        bounds.has(q.coords()),
    ensures
        columns_near(bounds, p, n).contains(column_of(q.coords())),
    decreases n,
{
    let c = column_of(q.coords());
    let rest = columns_near(bounds, p, n - 1);
    if m == n - 1 {
        assert(columns_near(bounds, p, n) == rest.push(c));
        assert(rest.push(c)[rest.len() as int] == c);
    } else {
        column_near(bounds, p, n - 1, m, q);
        let i = choose|i: int| 0 <= i < rest.len() && rest[i] == c;
        assert(columns_near(bounds, p, n)[i] == c);
    }
}

/// True iff the column is that of a position of the bounds that is `p` or shares a face with it.
pub open spec fn touches_column(bounds: WorldBounds, p: BlockPos, column: (int, int)) -> bool {
    exists|q: BlockPos|
        (q == p || next_to(p, q)) && within_bounds(bounds, q.coords()) && #[trigger] in_column(
            q.coords(),
            column,
        )
}

proof fn only_touched_columns(bounds: WorldBounds, p: BlockPos, n: int, column: (int, int))
    requires
        0 <= n <= 7,
        columns_near(bounds, p, n).contains(column),
    ensures
        touches_column(bounds, p, column),
    decreases n,
{
    if n > 0 {
        let rest = columns_near(bounds, p, n - 1);
        let all = columns_near(bounds, p, n);
        let i = choose|i: int| 0 <= i < all.len() && all[i] == column;
        if i < rest.len() {
            assert(rest[i] == column);
            only_touched_columns(bounds, p, n - 1, column);
        } else {
            let q = if n == 1 {
                p
            } else {
                neighbor(p, n - 2)->0
            };
            assert(all == rest.push(column_of(q.coords())));
            assert(column == column_of(q.coords()));
            assert(n > 1 ==> next_to(p, q));
            assert(in_column(q.coords(), column));
        }
    }
}

/// The columns that are loaded before a block is placed are those of the position and of the six that
/// share a face with it, as far as these lie in the bounds.
pub proof fn placement_needs_the_columns_at_its_faces(
    bounds: WorldBounds,
    p: BlockPos,
    column: (int, int),
)
    ensures
        columns_near(bounds, p, 7).contains(column) <==> touches_column(bounds, p, column),
{
    if columns_near(bounds, p, 7).contains(column) {
        only_touched_columns(bounds, p, 7, column);
    }
    if touches_column(bounds, p, column) {
        let q = choose|q: BlockPos|
            (q == p || next_to(p, q)) && within_bounds(bounds, q.coords()) && #[trigger] in_column(
                q.coords(),
                column,
            );
        let m: int = if q == p {
            0
        } else if q.y < p.y {
            1
        } else if q.y > p.y {
            2
        } else if q.x < p.x {
            3
        } else if q.x > p.x {
            4
        } else if q.z < p.z {
            5
        } else {
            6
        };
        column_near(bounds, p, 7, m, q);
    }
}

proof fn row_columns(low: (int, int), high: (int, int), n: int, c: (int, int))
    requires
        0 <= n,
    ensures
        column_rows(low, high, n).contains(c) <==> low.0 <= c.0 <= high.0 && low.1 <= c.1 < low.1 + n,
        column_rows(low, high, n).no_duplicates(),
    decreases n,
{
    if n > 0 {
        row_columns(low, high, n - 1, c);
        let rest = column_rows(low, high, n - 1);
        let row = column_row(low, low.1 + n - 1, span(low.0, high.0));
        let all = rest + row;
        if rest.contains(c) {
            let i = choose|i: int| 0 <= i < rest.len() && rest[i] == c;
            assert(all[i] == c);
        } else if low.0 <= c.0 <= high.0 && c.1 == low.1 + n - 1 {
            assert(row[c.0 - low.0] == c);
            assert(all[rest.len() + (c.0 - low.0)] == c);
        } else if all.contains(c) {
            let i = choose|i: int| 0 <= i < all.len() && all[i] == c;
            if i < rest.len() {
                assert(rest[i] == c);
            } else {
                assert(row[i - rest.len()] == c);
            }
        }
        assert forall|i: int, j: int| 0 <= i < j < all.len() implies all[i] != all[j] by {
            if j < rest.len() {
                assert(rest[i] != rest[j]);
            } else if i >= rest.len() {
                assert(row[i - rest.len()] != row[j - rest.len()]);
            } else {
                row_columns(low, high, n - 1, rest[i]);
                assert(rest.contains(rest[i]));
                assert(row[j - rest.len()].1 == low.1 + n - 1);
            }
        }
    }
}

/// True iff the column holds a position of the box between the two corners.
pub open spec fn holds_part_of(column: (int, int), min: BlockPos, max: BlockPos) -> bool {
    exists|p: BlockPos|
        min.x <= p.x <= max.x && min.y <= p.y <= max.y && min.z <= p.z <= max.z
            && #[trigger] in_column(p.coords(), column)
}

/// The columns that are loaded for a region are those that hold a position of it, each once.
pub proof fn regions_need_the_columns_of_their_blocks(
    min: BlockPos,
    max: BlockPos,
    column: (int, int),
)
    requires
        min.x <= max.x,
        min.y <= max.y,
        min.z <= max.z,
    ensures
        ({
            let low = column_of(min.coords());
            let high = column_of(max.coords());
            let columns = column_rows(low, high, span(low.1, high.1));
            &&& columns.contains(column) <==> holds_part_of(column, min, max)
            &&& columns.no_duplicates()
        }),
{
    let low = column_of(min.coords());
    let high = column_of(max.coords());
    row_columns(low, high, span(low.1, high.1), column);
    if low.0 <= column.0 <= high.0 && low.1 <= column.1 <= high.1 {
        let x = if 16 * column.0 >= min.x {
            16 * column.0
        } else {
            min.x as int
        };
        let z = if 16 * column.1 >= min.z {
            16 * column.1
        } else {
            min.z as int
        };
        let p = BlockPos { x: x as i32, y: min.y, z: z as i32 };
        assert(in_column(p.coords(), column));
    }
}

// ---- what stands in a column ----

/// A column that was generated has bedrock at 60, stone at 61, dirt at 62 and 63, grass at 64, and air
/// at every other height; outside the sides of the bounds there is air alone.
pub proof fn generated_columns_are_flat(
    before: WorldView,
    after: WorldView,
    bounds: WorldBounds,
    column: (int, int),
    p: (int, int, int),
)
    requires
        is_generated(before, after, bounds, column),
        before.min_y <= p.1 < before.min_y + before.height,
    ensures
        ({
            let inside = bounds.min_x <= p.0 <= bounds.max_x && bounds.min_z <= p.2
                <= bounds.max_z;
            &&& in_column(p, column) ==> after.loaded(p)
            &&& !in_column(p, column) ==> after.loaded(p) == before.loaded(p) && after.block(p)
                == before.block(p)
            &&& in_column(p, column) && inside && p.1 == 60 ==> after.block(p) == 79
            &&& in_column(p, column) && inside && p.1 == 61 ==> after.block(p) == 1
            &&& in_column(p, column) && inside && (p.1 == 62 || p.1 == 63) ==> after.block(p) == 10
            &&& in_column(p, column) && inside && p.1 == 64 ==> after.block(p) == 9
            &&& in_column(p, column) && (!inside || p.1 < 60 || p.1 > 64) ==> after.block(p) == 0
        }),
{
    columns_hold_their_blocks(p, column);
}

/// True iff the `i`-th saved block is the last one at that position among the first `n`.
pub open spec fn is_last_saved(blocks: Seq<SavedBlockOverride>, n: int, p: BlockPos, i: int) -> bool {
    &&& 0 <= i < n
    &&& blocks[i].position == p
    &&& forall|j: int| i < j < n ==> (#[trigger] blocks[j]).position != p
}

/// Of the blocks that were saved at one position, the last one counts.
pub proof fn last_saved_block_counts(blocks: Seq<SavedBlockOverride>, n: int, p: BlockPos)
    requires
        0 <= n <= blocks.len(),
    ensures
        override_map(blocks, n).contains_key(p) <==> exists|i: int|
            0 <= i < n && (#[trigger] blocks[i]).position == p,
        forall|i: int| #[trigger]
            is_last_saved(blocks, n, p, i) ==> override_map(blocks, n)[p] == blocks[i].block,
        override_map(blocks, n).contains_key(p) ==> exists|i: int| is_last_saved(blocks, n, p, i),
    decreases n,
{
    if n > 0 {
        last_saved_block_counts(blocks, n - 1, p);
        if blocks[n - 1].position == p {
            assert(is_last_saved(blocks, n, p, n - 1));
            assert forall|i: int| #[trigger] is_last_saved(blocks, n, p, i) implies override_map(
                blocks,
                n,
            )[p] == blocks[i].block by {
                if i < n - 1 {
                    assert(blocks[n - 1].position != p);
                }
            }
        } else {
            assert forall|i: int| #[trigger] is_last_saved(blocks, n, p, i) implies override_map(
                blocks,
                n,
            )[p] == blocks[i].block by {
                assert(is_last_saved(blocks, n - 1, p, i));
            }
            if override_map(blocks, n).contains_key(p) {
                let m = n - 1;
                let i = choose|i: int| is_last_saved(blocks, m, p, i);
                assert(is_last_saved(blocks, n, p, i));
            }
        }
    }
}

/// Restoring what was saved changes the loaded positions of the bounds that were saved, to the block
/// that was saved last, and no other.
pub proof fn restoring_shows_the_last_saved_block(
    w: WorldView,
    bounds: WorldBounds,
    blocks: Seq<SavedBlockOverride>,
    p: BlockPos,
    i: int,
)
    requires
        is_last_saved(blocks, blocks.len() as int, p, i),
    ensures
        restored(w, bounds, blocks, blocks.len() as int).block(p.coords()) == if within_bounds(
            bounds,
            p.coords(),
        ) && w.loaded(p.coords()) {
            blocks[i].block
        } else {
            w.block(p.coords())
        },
{
    let n = blocks.len() as int;
    restored_blocks(w, bounds, blocks, n);
    last_saved_block_counts(blocks, n, p);
    assert(blocks[i].position == p);
    assert(override_map(blocks, n).contains_key(p));
}

/// Restoring leaves every position alone that was not saved.
pub proof fn restoring_keeps_the_rest(
    w: WorldView,
    bounds: WorldBounds,
    blocks: Seq<SavedBlockOverride>,
    p: BlockPos,
)
    requires
        forall|i: int| 0 <= i < blocks.len() ==> (#[trigger] blocks[i]).position != p,
    ensures
        restored(w, bounds, blocks, blocks.len() as int).block(p.coords()) == w.block(p.coords()),
{
    let n = blocks.len() as int;
    restored_blocks(w, bounds, blocks, n);
    last_saved_block_counts(blocks, n, p);
    assert(!override_map(blocks, n).contains_key(p));
}

/// Saved blocks count exactly where one of them lies in the bounds and in a loaded chunk; each counts
/// at most once.
pub proof fn restored_blocks_are_counted(
    w: WorldView,
    bounds: WorldBounds,
    blocks: Seq<SavedBlockOverride>,
    n: int,
)
    requires
        0 <= n <= blocks.len(),
    ensures
        restored_count(w, bounds, blocks, n) <= n,
        restored_count(w, bounds, blocks, n) > 0 <==> exists|i: int|
            0 <= i < n && within_bounds(bounds, (#[trigger] blocks[i]).position.coords()) && w.loaded(
                blocks[i].position.coords(),
            ),
        restored_count(w, bounds, blocks, n) == n <==> forall|i: int|
            0 <= i < n ==> within_bounds(bounds, (#[trigger] blocks[i]).position.coords())
                && w.loaded(blocks[i].position.coords()),
    decreases n,
{
    if n > 0 {
        restored_blocks_are_counted(w, bounds, blocks, n - 1);
        let last = blocks[n - 1];
        let counts = within_bounds(bounds, last.position.coords()) && w.loaded(
            last.position.coords(),
        );
        assert(counts == (bounds.has(last.position.coords()) && w.loaded(last.position.coords())));
        assert(blocks[n - 1] == last);
    }
}

// ---- the counters ----

/// A column that is loaded anew raises the count of generated columns by one, and that of restored
/// ones too where a saved block was put into it; one that was loaded before raises none. Either way
/// it is loaded afterwards, and no other column is.
pub proof fn loaded_columns_are_counted(marks: LifecycleView, column: (int, int), count: nat, c: (int, int))
    ensures
        ({
            let after = after_filled(marks, column, count);
            let fresh = !marks.loaded.contains_key(column);
            &&& after.loaded.contains_key(c) <==> marks.loaded.contains_key(c) || c == column
            &&& after.generated_chunks == if fresh {
                marks.generated_chunks.wrapping_add(1)
            } else {
                marks.generated_chunks
            }
            &&& after.storage_loaded_chunks == if fresh && count > 0 {
                marks.storage_loaded_chunks.wrapping_add(1)
            } else {
                marks.storage_loaded_chunks
            }
            &&& after.unloaded_chunks == marks.unloaded_chunks
            &&& after.dirty_chunks_marked == marks.dirty_chunks_marked
        }),
{
}

/// Unloading and editing a column are counted apart: a column that was loaded is unloaded and counted
/// once, one that was not counts for nothing, and every edit counts.
pub proof fn unloading_and_edits_are_counted(marks: LifecycleView, column: (int, int), c: (int, int))
    ensures
        ({
            let gone = marks.after_unloaded(column);
            let edited = marks.after_dirty(column);
            &&& gone.loaded.contains_key(c) <==> marks.loaded.contains_key(c) && c != column
            &&& gone.unloaded_chunks == if marks.loaded.contains_key(column) {
                marks.unloaded_chunks.wrapping_add(1)
            } else {
                marks.unloaded_chunks
            }
            &&& gone.generated_chunks == marks.generated_chunks
            &&& gone.storage_loaded_chunks == marks.storage_loaded_chunks
            &&& gone.dirty_chunks_marked == marks.dirty_chunks_marked
            &&& gone.after_unloaded(column) == gone
            &&& edited.loaded.contains_key(c) <==> marks.loaded.contains_key(c) || c == column
            &&& edited.dirty_chunks_marked == marks.dirty_chunks_marked.wrapping_add(1)
            &&& edited.generated_chunks == marks.generated_chunks
            &&& edited.storage_loaded_chunks == marks.storage_loaded_chunks
            &&& edited.unloaded_chunks == marks.unloaded_chunks
        }),
{
}

/// The view distance is the number that the text writes, where that is from 2 to 12; a smaller one
/// gives 2, a greater one of at most 255 gives 12, and anything else, or no text, gives 6.
pub proof fn view_distance_is_bounded(raw: Option<Seq<char>>)
    ensures
        2 <= view_distance(raw) <= 12,
        raw is None ==> view_distance(raw) == 6,
        raw matches Some(text) ==> match parsed_unsigned(trimmed(text)) {
            None => view_distance(raw) == 6,
            Some(n) => {
                &&& 2 <= n <= 12 ==> view_distance(raw) == n
                &&& n < 2 ==> view_distance(raw) == 2
                &&& 12 < n <= 255 ==> view_distance(raw) == 12
                &&& n > 255 ==> view_distance(raw) == 6
            },
        },
{
}

// ---- counting columns ----

proof fn rows_have_equal_length(low: (int, int), high: (int, int), n: int)
    requires
        0 <= n,
    ensures
        column_rows(low, high, n).len() == n * span(low.0, high.0),
    decreases n,
{
    if n > 0 {
        rows_have_equal_length(low, high, n - 1);
        let width = span(low.0, high.0);
        assert((n - 1) * width + width == n * width) by (nonlinear_arith);
    } else {
        assert(0 * span(low.0, high.0) == 0);
    }
}

/// The bounds have as many columns as are counted: they can be listed, each once, in a list of that
/// length.
pub proof fn columns_of_the_bounds_are_counted(bounds: WorldBounds) -> (columns: Seq<(int, int)>)
    ensures
        columns.len() == bounds.column_count(),
        columns.no_duplicates(),
        forall|c: (int, int)| #[trigger]
            columns.contains(c) <==> exists|p: (int, int, int)| #[trigger]
                within_bounds(bounds, p) && in_column(p, c),
{
    if bounds.min_x <= bounds.max_x && bounds.min_y <= bounds.max_y && bounds.min_z <= bounds.max_z {
        let low = (bounds.min_x as int / 16, bounds.min_z as int / 16);
        let high = (bounds.max_x as int / 16, bounds.max_z as int / 16);
        let n = span(low.1, high.1);
        let columns = column_rows(low, high, n);
        rows_have_equal_length(low, high, n);
        assert(n * span(low.0, high.0) == bounds.column_count()) by (nonlinear_arith)
            requires
                n == high.1 - low.1 + 1,
                span(low.0, high.0) == high.0 - low.0 + 1,
                bounds.column_count() == (high.0 - low.0 + 1) * (high.1 - low.1 + 1),
        ;
        assert forall|c: (int, int)| #[trigger] columns.contains(c) <==> exists|p: (int, int, int)|
            #[trigger]
            within_bounds(bounds, p) && in_column(p, c) by {
            row_columns(low, high, n, c);
            bounds_have_the_columns_of_their_blocks(bounds, c);
        }
        row_columns(low, high, n, low);
        columns
    } else {
        assert(forall|p: (int, int, int)| !(#[trigger] within_bounds(bounds, p)));
        Seq::empty()
    }
}

/// One player sees as many columns as there are at most the view distance from the player's own.
pub proof fn seen_columns_are_counted(center: (int, int), view_distance_chunks: u8) -> (columns: Seq<
    (int, int),
>)
    ensures
        columns.len() == seen_columns(view_distance_chunks),
        columns.no_duplicates(),
        forall|c: (int, int)| #[trigger]
            columns.contains(c) <==> columns_apart(center, c, view_distance_chunks as int),
{
    let v = view_distance_chunks as int;
    let low = (center.0 - v, center.1 - v);
    let high = (center.0 + v, center.1 + v);
    let n = 2 * v + 1;
    let columns = column_rows(low, high, n);
    rows_have_equal_length(low, high, n);
    assert forall|c: (int, int)| #[trigger] columns.contains(c) <==> columns_apart(center, c, v) by {
        row_columns(low, high, n, c);
    }
    row_columns(low, high, n, low);
    columns
}

/// A position is loaded exactly where its column is, from the lowest level of the dimension up to, but
/// not with, the one that its height leads to; what is not loaded is air, and cannot be set.
pub proof fn loaded_positions_lie_in_loaded_columns(
    w: WorldView,
    p: (int, int, int),
    column: (int, int),
    block: u16,
)
    requires
        in_column(p, column),
    ensures
        w.loaded(p) <==> w.columns.contains(column) && p.1 >= w.min_y && p.1 - w.min_y < w.height,
        !w.loaded(p) ==> w.block(p) == 0 && w.set(p, block) == w,
        w.loaded(p) ==> w.set(p, block).block(p) == block,
{
    columns_hold_their_blocks(p, column);
}

} // verus!
