//! The loaded part of the world: which columns are wanted, how one is filled, and the counters that
//! are kept of it.

use vstd::prelude::*;
use crate::anvil::{override_map, saved_block};
use crate::block::{
    column_of, valid_state, BlockPos, BlockState, ChunkColumn, AIR, BEDROCK, DIRT, GRASS_BLOCK,
    STONE,
};
use crate::build_service::{neighbor, neighbor_position};
use crate::json::slice_text;
use crate::layer::{
    layer_has_chunk, layer_insert_empty_chunk, layer_loaded_columns, layer_remove_chunk,
    layer_set_block, set_changes_one_block, whole_sections, world, WorldView,
};
use crate::ordered_map::{OrderedKey, OrderedMap};
use crate::persistence::{SavedBlockOverride, StoredChunk};
use crate::text::{chars_of, parse_unsigned, parsed_unsigned, prefixed, trim_chars, trimmed};
use crate::world_command::{base_layer, world_bounds, WorldBounds, GROUND_Y};

verus! {

pub const VIEW_DISTANCE_ENV: &'static str = "WORLD_LOOM_VIEW_DISTANCE_CHUNKS";

pub const DEFAULT_VIEW_DISTANCE_CHUNKS: u8 = 6;

pub const MIN_VIEW_DISTANCE_CHUNKS: u8 = 2;

pub const MAX_VIEW_DISTANCE_CHUNKS: u8 = 12;

pub const CHUNK_LOAD_MARGIN: i32 = 1;

impl View for ChunkColumn {
    type V = (int, int);

    open spec fn view(&self) -> (int, int) {
        self.coords()
    }
}

impl OrderedKey for ChunkColumn {
    open spec fn less(a: (int, int), b: (int, int)) -> bool {
        a.0 < b.0 || (a.0 == b.0 && a.1 < b.1)
    }

    proof fn less_irreflexive(a: (int, int)) {
    }

    proof fn less_transitive(a: (int, int), b: (int, int), c: (int, int)) {
    }

    proof fn less_total(a: (int, int), b: (int, int)) {
    }

    fn is_less(&self, other: &ChunkColumn) -> (r: bool) {
        self.x < other.x || (self.x == other.x && self.z < other.z)
    }
}

/// A set of columns, in ascending order of x, then z.
pub type ColumnSet = OrderedMap<ChunkColumn, ()>;

// ---- the counters ----

/// The columns that were loaded, and counters that wrap around at 64 bits.
pub struct ChunkLifecycle {
    pub loaded: ColumnSet,
    pub generated_chunks: u64,
    pub storage_loaded_chunks: u64,
    pub unloaded_chunks: u64,
    pub dirty_chunks_marked: u64,
}

/// What the counters and the set of loaded columns say.
#[verifier::ext_equal]
pub struct LifecycleView {
    pub loaded: Map<(int, int), ()>,
    pub generated_chunks: u64,
    pub storage_loaded_chunks: u64,
    pub unloaded_chunks: u64,
    pub dirty_chunks_marked: u64,
}

impl View for ChunkLifecycle {
    type V = LifecycleView;

    open spec fn view(&self) -> LifecycleView {
        LifecycleView {
            loaded: self.loaded@,
            generated_chunks: self.generated_chunks,
            storage_loaded_chunks: self.storage_loaded_chunks,
            unloaded_chunks: self.unloaded_chunks,
            dirty_chunks_marked: self.dirty_chunks_marked,
        }
    }
}

impl LifecycleView {
    /// The column is known to be loaded.
    pub open spec fn with_loaded(self, column: (int, int)) -> LifecycleView {
        LifecycleView { loaded: self.loaded.insert(column, ()), ..self }
    }

    /// A column was generated; one that was loaded before counts for nothing.
    pub open spec fn after_generated(self, column: (int, int)) -> LifecycleView {
        if self.loaded.contains_key(column) {
            self
        } else {
            LifecycleView {
                generated_chunks: self.generated_chunks.wrapping_add(1),
                ..self.with_loaded(column)
            }
        }
    }

    /// A column was generated and blocks of it were restored from the storage.
    pub open spec fn after_restored(self, column: (int, int)) -> LifecycleView {
        if self.loaded.contains_key(column) {
            self
        } else {
            LifecycleView {
                generated_chunks: self.generated_chunks.wrapping_add(1),
                storage_loaded_chunks: self.storage_loaded_chunks.wrapping_add(1),
                ..self.with_loaded(column)
            }
        }
    }

    /// A column was unloaded; one that was not loaded counts for nothing.
    pub open spec fn after_unloaded(self, column: (int, int)) -> LifecycleView {
        if self.loaded.contains_key(column) {
            LifecycleView {
                loaded: self.loaded.remove(column),
                unloaded_chunks: self.unloaded_chunks.wrapping_add(1),
                ..self
            }
        } else {
            self
        }
    }

    /// A block of the column was edited.
    pub open spec fn after_dirty(self, column: (int, int)) -> LifecycleView {
        LifecycleView {
            dirty_chunks_marked: self.dirty_chunks_marked.wrapping_add(1),
            ..self.with_loaded(column)
        }
    }
}

impl ChunkLifecycle {
    /// The invariant: the set of columns is in order.
    pub open spec fn wf(self) -> bool {
        self.loaded.wf()
    }

    pub fn new() -> (r: Self)
        ensures
            r.wf(),
            r@ == (LifecycleView {
                loaded: Map::empty(),
                generated_chunks: 0,
                storage_loaded_chunks: 0,
                unloaded_chunks: 0,
                dirty_chunks_marked: 0,
            }),
    {
        ChunkLifecycle {
            loaded: OrderedMap::new(),
            generated_chunks: 0,
            storage_loaded_chunks: 0,
            unloaded_chunks: 0,
            dirty_chunks_marked: 0,
        }
    }

    /// Puts the column among the loaded ones, and says whether it was not there.
    fn note_loaded(&mut self, column: ChunkColumn) -> (r: bool)
        requires
            old(self).wf(),
        ensures
            final(self).wf(),
            final(self)@ == old(self)@.with_loaded(column@),
            r == !old(self)@.loaded.contains_key(column@),
    {
        let fresh = self.loaded.get(&column).is_none();
        self.loaded.insert(column, ());
        fresh
    }

    pub fn mark_loaded_generated(&mut self, column: ChunkColumn)
        requires
            old(self).wf(),
        ensures
            final(self).wf(),
            final(self)@ == old(self)@.after_generated(column@),
    {
        if self.note_loaded(column) {
            self.generated_chunks = self.generated_chunks.wrapping_add(1);
        } else {
            proof {
                assert(self@ =~= old(self)@);
            }
        }
    }

    pub fn mark_loaded_from_storage(&mut self, column: ChunkColumn)
        requires
            old(self).wf(),
        ensures
            final(self).wf(),
            final(self)@ == old(self)@.after_restored(column@),
    {
        if self.note_loaded(column) {
            self.generated_chunks = self.generated_chunks.wrapping_add(1);
            self.storage_loaded_chunks = self.storage_loaded_chunks.wrapping_add(1);
        } else {
            proof {
                assert(self@ =~= old(self)@);
            }
        }
    }

    pub fn mark_unloaded(&mut self, column: ChunkColumn)
        requires
            old(self).wf(),
        ensures
            final(self).wf(),
            final(self)@ == old(self)@.after_unloaded(column@),
            final(self).loaded.spec_keys().len() == old(self).loaded.spec_keys().len() - if old(
                self,
            )@.loaded.contains_key(column@) {
                1int
            } else {
                0int
            },
    {
        if self.loaded.get(&column).is_some() {
            self.loaded.remove(&column);
            self.unloaded_chunks = self.unloaded_chunks.wrapping_add(1);
        }
    }

    pub fn mark_dirty(&mut self, column: ChunkColumn)
        requires
            old(self).wf(),
        ensures
            final(self).wf(),
            final(self)@ == old(self)@.after_dirty(column@),
    {
        self.dirty_chunks_marked = self.dirty_chunks_marked.wrapping_add(1);
        let _ = self.note_loaded(column);
    }
}

// ---- what is wanted ----

/// The number of columns that one player sees.
pub open spec fn seen_columns(view_distance_chunks: u8) -> int {
    (2 * view_distance_chunks + 1) * (2 * view_distance_chunks + 1)
}

/// The number of columns that one player sees.
pub fn interest_chunk_capacity(view_distance_chunks: u8) -> (r: usize)
    ensures
        r == seen_columns(view_distance_chunks),
        r == (2 * view_distance_chunks + 1) * (2 * view_distance_chunks + 1),
{
    let diameter: usize = view_distance_chunks as usize * 2 + 1;
    proof {
        assert(diameter * diameter <= 511 * 511) by (nonlinear_arith)
            requires
                diameter <= 511,
        ;
    }
    diameter * diameter
}

/// The view distance that a text writes, moved into its range; the default where it writes none.
pub open spec fn view_distance(raw: Option<Seq<char>>) -> int {
    let value = match raw {
        None => DEFAULT_VIEW_DISTANCE_CHUNKS as int,
        Some(raw) => match parsed_unsigned(trimmed(raw)) {
            Some(value) => if value <= 255 {
                value as int
            } else {
                DEFAULT_VIEW_DISTANCE_CHUNKS as int
            },
            None => DEFAULT_VIEW_DISTANCE_CHUNKS as int,
        },
    };
    if value < MIN_VIEW_DISTANCE_CHUNKS {
        MIN_VIEW_DISTANCE_CHUNKS as int
    } else if value > MAX_VIEW_DISTANCE_CHUNKS {
        MAX_VIEW_DISTANCE_CHUNKS as int
    } else {
        value
    }
}

pub fn bounded_view_distance(raw: Option<&str>) -> (r: u8)
    ensures
        r == view_distance(slice_text(raw)),
        MIN_VIEW_DISTANCE_CHUNKS <= r <= MAX_VIEW_DISTANCE_CHUNKS,
{
    let value: u8 = match raw {
        None => DEFAULT_VIEW_DISTANCE_CHUNKS,
        Some(raw) => match parse_unsigned(&trim_chars(&chars_of(raw)), 255) {
            Some(value) => value as u8,
            None => DEFAULT_VIEW_DISTANCE_CHUNKS,
        },
    };
    if value < MIN_VIEW_DISTANCE_CHUNKS {
        MIN_VIEW_DISTANCE_CHUNKS
    } else if value > MAX_VIEW_DISTANCE_CHUNKS {
        MAX_VIEW_DISTANCE_CHUNKS
    } else {
        value
    }
}

/// True iff the column lies within `radius` columns of the center, along both axes.
pub open spec fn near(center: ChunkColumn, radius: int, column: (int, int)) -> bool {
    center.x - radius <= column.0 <= center.x + radius && center.z - radius <= column.1 <= center.z
        + radius
}

/// True iff the column is in the bounds and near one of the first `n` centers.
pub open spec fn is_desired(
    centers: Seq<ChunkColumn>,
    n: int,
    bounds: WorldBounds,
    radius: int,
    column: (int, int),
) -> bool {
    bounds.has_column(column) && exists|i: int|
        0 <= i < n && near(#[trigger] centers[i], radius, column)
}

/// True iff the column was passed by a scan of the columns near a center, row by row.
spec fn scanned(
    center: ChunkColumn,
    radius: int,
    x: int,
    z: int,
    column: (int, int),
) -> bool {
    near(center, radius, column) && (column.1 < z || (column.1 == z && column.0 < x))
}

fn add_near(desired: &mut ColumnSet, center: ChunkColumn, bounds: WorldBounds, radius: i32)
    requires
        old(desired).wf(),
        0 <= radius <= 256,
    ensures
        final(desired).wf(),
        forall|c: (int, int)| #[trigger]
            final(desired)@.contains_key(c) == (old(desired)@.contains_key(c) || (
            bounds.has_column(c) && near(center, radius as int, c))),
{
    let ghost before = desired@;
    let low_z: i64 = center.z as i64 - radius as i64;
    let high_z: i64 = center.z as i64 + radius as i64;
    let low_x: i64 = center.x as i64 - radius as i64;
    let high_x: i64 = center.x as i64 + radius as i64;
    let mut z: i64 = low_z;
    while z <= high_z
        invariant
            desired.wf(),
            0 <= radius <= 256,
            low_z == center.z - radius,
            high_z == center.z + radius,
            low_x == center.x - radius,
            high_x == center.x + radius,
            low_z <= z <= high_z + 1,
            forall|c: (int, int)| #[trigger]
                desired@.contains_key(c) == (before.contains_key(c) || (bounds.has_column(c)
                    && scanned(center, radius as int, low_x as int, z as int, c))),
        decreases high_z + 1 - z,
    {
        let mut x: i64 = low_x;
        while x <= high_x
            invariant
                desired.wf(),
                0 <= radius <= 256,
                low_z == center.z - radius,
                high_z == center.z + radius,
                low_x == center.x - radius,
                high_x == center.x + radius,
                low_z <= z <= high_z,
                low_x <= x <= high_x + 1,
                forall|c: (int, int)| #[trigger]
                    desired@.contains_key(c) == (before.contains_key(c) || (bounds.has_column(c)
                        && scanned(center, radius as int, x as int, z as int, c))),
            decreases high_x + 1 - x,
        {
            let ghost held = desired@;
            if i32::MIN as i64 <= x && x <= i32::MAX as i64 && i32::MIN as i64 <= z && z
                <= i32::MAX as i64 {
                let column = ChunkColumn { x: x as i32, z: z as i32 };
                if bounds.contains_chunk(column) {
                    desired.insert(column, ());
                }
            }
            proof {
                assert forall|c: (int, int)| #[trigger]
                    desired@.contains_key(c) == (before.contains_key(c) || (bounds.has_column(c)
                        && scanned(center, radius as int, x + 1, z as int, c))) by {
                    assert(held.contains_key(c) == (before.contains_key(c) || (bounds.has_column(c)
                        && scanned(center, radius as int, x as int, z as int, c))));
                    if c == (x as int, z as int) {
                        assert(near(center, radius as int, c));
                    }
                }
            }
            x = x + 1;
        }
        z = z + 1;
    }
}

/// The columns that the players at those centers are to see: those near one of them, one column
/// beyond the view distance, and in the bounds.
pub fn desired_chunks(centers: &Vec<ChunkColumn>, bounds: WorldBounds, view_distance_chunks: u8) -> (r:
    ColumnSet)
    ensures
        r.wf(),
        forall|c: (int, int)| #[trigger]
            r@.contains_key(c) == is_desired(
                centers@,
                centers@.len() as int,
                bounds,
                view_distance_chunks + CHUNK_LOAD_MARGIN,
                c,
            ),
{
    let radius: i32 = view_distance_chunks as i32 + CHUNK_LOAD_MARGIN;
    let mut desired: ColumnSet = OrderedMap::new();
    let mut i: usize = 0;
    while i < centers.len()
        invariant
            i <= centers@.len(),
            desired.wf(),
            0 <= radius <= 256,
            forall|c: (int, int)| #[trigger]
                desired@.contains_key(c) == is_desired(
                    centers@,
                    i as int,
                    bounds,
                    radius as int,
                    c,
                ),
        decreases centers@.len() - i,
    {
        let ghost held = desired@;
        add_near(&mut desired, centers[i], bounds, radius);
        proof {
            assert forall|c: (int, int)| #[trigger]
                desired@.contains_key(c) == is_desired(
                    centers@,
                    i + 1,
                    bounds,
                    radius as int,
                    c,
                ) by {
                assert(held.contains_key(c) == is_desired(
                    centers@,
                    i as int,
                    bounds,
                    radius as int,
                    c,
                ));
                if near(centers@[i as int], radius as int, c) {
                    assert(0 <= i < i + 1);
                }
            }
        }
        i = i + 1;
    }
    desired
}

/// The columns around a block: its own, then those of its six neighbours, each where the block is
/// in the bounds.
pub open spec fn columns_near(bounds: WorldBounds, position: BlockPos, n: int) -> Seq<(int, int)>
    decreases n,
{
    if n <= 0 {
        Seq::empty()
    } else {
        let p = if n == 1 {
            Some(position)
        } else {
            neighbor(position, n - 2)
        };
        let rest = columns_near(bounds, position, n - 1);
        match p {
            Some(p) => if bounds.has(p.coords()) {
                rest.push(column_of(p.coords()))
            } else {
                rest
            },
            None => rest,
        }
    }
}

/// What the columns are.
pub open spec fn column_views(columns: Seq<ChunkColumn>) -> Seq<(int, int)> {
    columns.map_values(|column: ChunkColumn| column.coords())
}

/// The columns that have to be loaded before a block is placed.
pub fn neighbor_columns(bounds: WorldBounds, position: BlockPos) -> (r: Vec<ChunkColumn>)
    ensures
        column_views(r@) == columns_near(bounds, position, 7),
{
    let mut columns: Vec<ChunkColumn> = Vec::new();
    let mut n: usize = 0;
    proof {
        assert(column_views(columns@) =~= columns_near(bounds, position, 0));
    }
    while n < 7
        invariant
            n <= 7,
            column_views(columns@) == columns_near(bounds, position, n as int),
        decreases 7 - n,
    {
        let p = if n == 0 {
            Some(position)
        } else {
            neighbor_position(position, n - 1)
        };
        let ghost before = column_views(columns@);
        if let Some(p) = p {
            if bounds.contains(p) {
                let column = ChunkColumn::from_block_pos(p);
                columns.push(column);
                proof {
                    assert(column_views(columns@) =~= before.push(column.coords()));
                }
            }
        }
        n = n + 1;
    }
    columns
}

/// The number of whole numbers in `low..=high`.
pub open spec fn span(low: int, high: int) -> int {
    if high >= low {
        high - low + 1
    } else {
        0
    }
}

/// The columns of a box of columns, row by row: the first `n` rows.
pub open spec fn column_rows(low: (int, int), high: (int, int), n: int) -> Seq<(int, int)>
    decreases n,
{
    if n <= 0 {
        Seq::empty()
    } else {
        column_rows(low, high, n - 1) + column_row(low, low.1 + n - 1, span(low.0, high.0))
    }
}

/// The first `n` columns of a row.
pub open spec fn column_row(low: (int, int), z: int, n: int) -> Seq<(int, int)> {
    Seq::new(
        if n < 0 {
            0
        } else {
            n as nat
        },
        |i: int| (low.0 + i, z),
    )
}

/// The columns that hold a region, row by row.
pub fn region_columns(min: BlockPos, max: BlockPos) -> (r: Vec<ChunkColumn>)
    ensures
        column_views(r@) == column_rows(
            column_of(min.coords()),
            column_of(max.coords()),
            span(column_of(min.coords()).1, column_of(max.coords()).1),
        ),
{
    let low = ChunkColumn::from_block_pos(min);
    let high = ChunkColumn::from_block_pos(max);
    let mut columns: Vec<ChunkColumn> = Vec::new();
    proof {
        assert(column_views(columns@) =~= column_rows(low.coords(), high.coords(), 0));
    }
    let mut z: i64 = low.z as i64;
    while z <= high.z as i64
        invariant
            low.z <= z <= low.z + span(low.z as int, high.z as int),
            column_views(columns@) == column_rows(low.coords(), high.coords(), z - low.z),
        decreases high.z + 1 - z,
    {
        let ghost before = column_views(columns@);
        let mut x: i64 = low.x as i64;
        proof {
            assert(before + column_row(low.coords(), z as int, 0) =~= before);
        }
        while x <= high.x as i64
            invariant
                low.z <= z <= high.z,
                low.x <= x <= low.x + span(low.x as int, high.x as int),
                column_views(columns@) == before + column_row(low.coords(), z as int, x - low.x),
            decreases high.x + 1 - x,
        {
            let ghost row = column_views(columns@);
            let column = ChunkColumn { x: x as i32, z: z as i32 };
            columns.push(column);
            proof {
                assert(column_views(columns@) =~= row.push(column.coords()));
                assert(row.push(column.coords()) =~= before + column_row(
                    low.coords(),
                    z as int,
                    x - low.x + 1,
                ));
            }
            x = x + 1;
        }
        z = z + 1;
    }
    columns
}

// ---- filling a column ----

/// The block of the ground at `p`: nothing is generated outside the bounds' sides.
pub open spec fn ground(bounds: WorldBounds, p: (int, int, int)) -> BlockState {
    if bounds.min_x <= p.0 <= bounds.max_x && bounds.min_z <= p.2 <= bounds.max_z {
        base_layer(p.1)
    } else {
        AIR
    }
}

/// True iff `after` is `before` with the column loaded anew and its ground generated.
pub open spec fn is_generated(
    before: WorldView,
    after: WorldView,
    bounds: WorldBounds,
    column: (int, int),
) -> bool {
    &&& after.columns == before.columns.insert(column)
    &&& after.min_y == before.min_y
    &&& after.height == before.height
    &&& forall|p: (int, int, int)| #[trigger]
        after.block(p) == if column_of(p) == column {
            if after.loaded(p) {
                ground(bounds, p)
            } else {
                AIR
            }
        } else {
            before.block(p)
        }
}

/// True iff the ground was generated at `p` by a scan of the column, row by row.
spec fn is_covered(
    bounds: WorldBounds,
    column: (int, int),
    x: int,
    z: int,
    p: (int, int, int),
) -> bool {
    &&& column_of(p) == column
    &&& bounds.min_x <= p.0 <= bounds.max_x
    &&& bounds.min_z <= p.2 <= bounds.max_z
    &&& p.2 < z || (p.2 == z && p.0 < x)
}

/// The world with the ground at the positions that a scan has covered.
spec fn covered_world(
    before: WorldView,
    after: WorldView,
    bounds: WorldBounds,
    column: (int, int),
    x: int,
    z: int,
) -> bool {
    &&& before.same_shape(after)
    &&& forall|p: (int, int, int)| #[trigger]
        after.block(p) == if is_covered(bounds, column, x, z, p) && before.loaded(p) && GROUND_Y - 4
            <= p.1 <= GROUND_Y {
            base_layer(p.1)
        } else {
            before.block(p)
        }
}

fn generate_pillar(layer: &mut valence::ChunkLayer, x: i32, z: i32)
    requires
        whole_sections(*old(layer)),
    ensures
        whole_sections(*final(layer)),
        world(*old(layer)).same_shape(world(*final(layer))),
        forall|p: (int, int, int)| #[trigger]
            world(*final(layer)).block(p) == if p.0 == x && p.2 == z && world(*old(layer)).loaded(p)
                && GROUND_Y - 4 <= p.1 <= GROUND_Y {
                base_layer(p.1)
            } else {
                world(*old(layer)).block(p)
            },
{
    let _ = layer_set_block(layer, BlockPos { x, y: GROUND_Y - 4, z }, BEDROCK);
    let _ = layer_set_block(layer, BlockPos { x, y: GROUND_Y - 3, z }, STONE);
    let _ = layer_set_block(layer, BlockPos { x, y: GROUND_Y - 2, z }, DIRT);
    let _ = layer_set_block(layer, BlockPos { x, y: GROUND_Y - 1, z }, DIRT);
    let _ = layer_set_block(layer, BlockPos { x, y: GROUND_Y, z }, GRASS_BLOCK);
}

fn max_of(a: i32, b: i32) -> (r: i32)
    ensures
        r == if a >= b {
            a
        } else {
            b
        },
{
    if a >= b {
        a
    } else {
        b
    }
}

fn min_of(a: i32, b: i32) -> (r: i32)
    ensures
        r == if a <= b {
            a
        } else {
            b
        },
{
    if a <= b {
        a
    } else {
        b
    }
}

/// Generates the ground of a loaded column.
pub fn generate_base_chunk(layer: &mut valence::ChunkLayer, bounds: WorldBounds, column: ChunkColumn)
    requires
        whole_sections(*old(layer)),
        bounds.has_column(column.coords()),
    ensures
        whole_sections(*final(layer)),
        world(*old(layer)).same_shape(world(*final(layer))),
        forall|p: (int, int, int)| #[trigger]
            world(*final(layer)).block(p) == if column_of(p) == column.coords() && world(
                *old(layer),
            ).loaded(p) && bounds.min_x <= p.0 <= bounds.max_x && bounds.min_z <= p.2
                <= bounds.max_z && GROUND_Y - 4 <= p.1 <= GROUND_Y {
                base_layer(p.1)
            } else {
                world(*old(layer)).block(p)
            },
{
    let ghost before = world(*layer);
    let min_x: i32 = max_of(column.x * 16, bounds.min_x);
    let max_x: i32 = min_of(column.x * 16 + 15, bounds.max_x);
    let min_z: i32 = max_of(column.z * 16, bounds.min_z);
    let max_z: i32 = min_of(column.z * 16 + 15, bounds.max_z);
    let mut z: i64 = min_z as i64;
    proof {
        assert forall|p: (int, int, int)| !is_covered(
            bounds,
            column.coords(),
            min_x as int,
            min_z as int,
            p,
        ) by {
            assert(column_of(p) == column.coords() ==> p.0 >= column.x * 16 && p.2 >= column.z * 16);
        }
    }
    while z <= max_z as i64
        invariant
            whole_sections(*layer),
            min_x == (if column.x * 16 >= bounds.min_x { column.x * 16 } else { bounds.min_x as int }),
            max_x == (if column.x * 16 + 15 <= bounds.max_x { column.x * 16 + 15 } else { bounds.max_x as int }),
            min_z == (if column.z * 16 >= bounds.min_z { column.z * 16 } else { bounds.min_z as int }),
            max_z == (if column.z * 16 + 15 <= bounds.max_z { column.z * 16 + 15 } else { bounds.max_z as int }),
            min_z <= z <= max_z + 1,
            min_x <= max_x,
            covered_world(before, world(*layer), bounds, column.coords(), min_x as int, z as int),
        decreases max_z + 1 - z,
    {
        let mut x: i64 = min_x as i64;
        while x <= max_x as i64
            invariant
                whole_sections(*layer),
                min_x == (if column.x * 16 >= bounds.min_x { column.x * 16 } else { bounds.min_x as int }),
                max_x == (if column.x * 16 + 15 <= bounds.max_x { column.x * 16 + 15 } else { bounds.max_x as int }),
                min_z == (if column.z * 16 >= bounds.min_z { column.z * 16 } else { bounds.min_z as int }),
                max_z == (if column.z * 16 + 15 <= bounds.max_z { column.z * 16 + 15 } else { bounds.max_z as int }),
                min_z <= z <= max_z,
                min_x <= x <= max_x + 1,
                covered_world(before, world(*layer), bounds, column.coords(), x as int, z as int),
            decreases max_x + 1 - x,
        {
            let ghost held = world(*layer);
            generate_pillar(layer, x as i32, z as i32);
            proof {
                covered_step(
                    before,
                    held,
                    world(*layer),
                    bounds,
                    column.coords(),
                    x as int,
                    z as int,
                );
            }
            x = x + 1;
        }
        proof {
            next_row(before, world(*layer), bounds, column, x as int, min_x as int, z as int);
        }
        z = z + 1;
    }
    proof {
        let after = world(*layer);
        assert forall|p: (int, int, int)| #[trigger]
            after.block(p) == if column_of(p) == column.coords() && before.loaded(p) && bounds.min_x
                <= p.0 <= bounds.max_x && bounds.min_z <= p.2 <= bounds.max_z && GROUND_Y - 4 <= p.1
                <= GROUND_Y {
                base_layer(p.1)
            } else {
                before.block(p)
            } by {
            assert(column_of(p) == column.coords() ==> p.2 <= column.z * 16 + 15);
        }
    }
}

proof fn covered_step(
    before: WorldView,
    held: WorldView,
    after: WorldView,
    bounds: WorldBounds,
    column: (int, int),
    x: int,
    z: int,
)
    requires
        covered_world(before, held, bounds, column, x, z),
        held.same_shape(after),
        column_of((x, 0, z)) == column,
        bounds.min_x <= x <= bounds.max_x,
        bounds.min_z <= z <= bounds.max_z,
        forall|p: (int, int, int)| #[trigger]
            after.block(p) == if p.0 == x && p.2 == z && held.loaded(p) && GROUND_Y - 4 <= p.1
                <= GROUND_Y {
                base_layer(p.1)
            } else {
                held.block(p)
            },
    ensures
        covered_world(before, after, bounds, column, x + 1, z),
{
    assert forall|p: (int, int, int)| #[trigger]
        after.block(p) == if is_covered(bounds, column, x + 1, z, p) && before.loaded(p) && GROUND_Y
            - 4 <= p.1 <= GROUND_Y {
            base_layer(p.1)
        } else {
            before.block(p)
        } by {
        assert(held.block(p) == if is_covered(bounds, column, x, z, p) && before.loaded(p)
            && GROUND_Y - 4 <= p.1 <= GROUND_Y {
            base_layer(p.1)
        } else {
            before.block(p)
        });
        if p.0 == x && p.2 == z {
            assert(column_of(p) == column_of((x, 0, z)));
        }
    }
}

proof fn next_row(
    before: WorldView,
    after: WorldView,
    bounds: WorldBounds,
    column: ChunkColumn,
    x: int,
    min_x: int,
    z: int,
)
    requires
        covered_world(before, after, bounds, column.coords(), x, z),
        min_x == (if column.x * 16 >= bounds.min_x {
            column.x * 16
        } else {
            bounds.min_x as int
        }),
        x == (if column.x * 16 + 15 <= bounds.max_x {
            column.x * 16 + 15
        } else {
            bounds.max_x as int
        }) + 1,
    ensures
        covered_world(before, after, bounds, column.coords(), min_x, z + 1),
{
    assert forall|p: (int, int, int)| #[trigger]
        after.block(p) == if is_covered(bounds, column.coords(), min_x, z + 1, p) && before.loaded(
            p,
        ) && GROUND_Y - 4 <= p.1 <= GROUND_Y {
            base_layer(p.1)
        } else {
            before.block(p)
        } by {
        if column_of(p) == column.coords() {
            assert(column.x * 16 <= p.0 <= column.x * 16 + 15);
        }
        assert(is_covered(bounds, column.coords(), min_x, z + 1, p) == is_covered(
            bounds,
            column.coords(),
            x,
            z,
            p,
        ));
    }
}

/// The world with the first `n` saved blocks in it that lie in the bounds; of two at one position
/// the later one stays.
pub open spec fn restored(
    w: WorldView,
    bounds: WorldBounds,
    blocks: Seq<SavedBlockOverride>,
    n: int,
) -> WorldView
    decreases n,
{
    if n <= 0 {
        w
    } else {
        let before = restored(w, bounds, blocks, n - 1);
        let saved = blocks[n - 1];
        if bounds.has(saved.position.coords()) {
            before.set(saved.position.coords(), saved.block)
        } else {
            before
        }
    }
}

/// How many of the first `n` saved blocks are put into the world.
pub open spec fn restored_count(
    w: WorldView,
    bounds: WorldBounds,
    blocks: Seq<SavedBlockOverride>,
    n: int,
) -> nat
    decreases n,
{
    if n <= 0 {
        0
    } else {
        restored_count(w, bounds, blocks, n - 1) + if bounds.has(blocks[n - 1].position.coords())
            && w.loaded(blocks[n - 1].position.coords()) {
            1nat
        } else {
            0nat
        }
    }
}

/// Restoring keeps the shape of the world, and shows at each position of the bounds what was saved.
pub proof fn restored_blocks(
    w: WorldView,
    bounds: WorldBounds,
    blocks: Seq<SavedBlockOverride>,
    n: int,
)
    requires
        0 <= n <= blocks.len(),
    ensures
        w.same_shape(restored(w, bounds, blocks, n)),
        forall|p: BlockPos|
            #![trigger restored(w, bounds, blocks, n).block(p.coords())]
            #![trigger override_map(blocks, n).contains_key(p)]
            restored(w, bounds, blocks, n).block(p.coords()) == if bounds.has(p.coords())
                && override_map(blocks, n).contains_key(p) && w.loaded(p.coords()) {
                override_map(blocks, n)[p]
            } else {
                w.block(p.coords())
            },
    decreases n,
{
    if n > 0 {
        restored_blocks(w, bounds, blocks, n - 1);
        let before = restored(w, bounds, blocks, n - 1);
        let saved = blocks[n - 1];
        assert forall|p: BlockPos|
            #![trigger restored(w, bounds, blocks, n).block(p.coords())]
            #![trigger override_map(blocks, n).contains_key(p)]
            restored(w, bounds, blocks, n).block(p.coords()) == if bounds.has(p.coords())
                && override_map(blocks, n).contains_key(p) && w.loaded(p.coords()) {
                override_map(blocks, n)[p]
            } else {
                w.block(p.coords())
            } by {
            assert(before.block(p.coords()) == if bounds.has(p.coords()) && override_map(
                blocks,
                n - 1,
            ).contains_key(p) && w.loaded(p.coords()) {
                override_map(blocks, n - 1)[p]
            } else {
                w.block(p.coords())
            });
            set_changes_one_block(before, saved.position.coords(), saved.block, p.coords());
            if p.coords() == saved.position.coords() {
                assert(p == saved.position);
            }
        }
    }
}

/// Puts the saved blocks of a column into the world, and says how many there were.
pub fn apply_stored_chunk(
    layer: &mut valence::ChunkLayer,
    bounds: WorldBounds,
    stored: &StoredChunk,
) -> (r: usize)
    requires
        whole_sections(*old(layer)),
        forall|i: int|
            0 <= i < stored.blocks@.len() ==> valid_state((#[trigger] stored.blocks@[i]).block),
    ensures
        whole_sections(*final(layer)),
        world(*final(layer)) == restored(
            world(*old(layer)),
            bounds,
            stored.blocks@,
            stored.blocks@.len() as int,
        ),
        r == restored_count(
            world(*old(layer)),
            bounds,
            stored.blocks@,
            stored.blocks@.len() as int,
        ),
{
    let ghost w = world(*layer);
    let mut count: usize = 0;
    let mut i: usize = 0;
    while i < stored.blocks.len()
        invariant
            i <= stored.blocks@.len(),
            count <= i,
            whole_sections(*layer),
            w.same_shape(world(*layer)),
            world(*layer) == restored(w, bounds, stored.blocks@, i as int),
            count == restored_count(w, bounds, stored.blocks@, i as int),
            forall|j: int|
                0 <= j < stored.blocks@.len() ==> valid_state((#[trigger] stored.blocks@[j]).block),
        decreases stored.blocks@.len() - i,
    {
        let saved = stored.blocks[i];
        if bounds.contains(saved.position) {
            if layer_set_block(layer, saved.position, saved.block) {
                count = count + 1;
            }
        }
        i = i + 1;
    }
    count
}

/// What is left to do for a column.
#[derive(Debug, Clone, Copy, PartialEq, Eq, Structural)]
pub enum LoadStep {
    Done,
    /// The column's saved blocks are to be read from the storage.
    Read,
}

/// Loads a column that is in the bounds and not loaded: it is filled with the ground.
pub fn begin_load_chunk(
    layer: &mut valence::ChunkLayer,
    bounds: WorldBounds,
    lifecycle: &mut ChunkLifecycle,
    column: ChunkColumn,
) -> (r: LoadStep)
    requires
        whole_sections(*old(layer)),
        old(lifecycle).wf(),
    ensures
        whole_sections(*final(layer)),
        final(lifecycle).wf(),
        if !bounds.has_column(column.coords()) {
            r == LoadStep::Done && world(*final(layer)) == world(*old(layer)) && final(lifecycle)@
                == old(lifecycle)@
        } else if world(*old(layer)).columns.contains(column.coords()) {
            r == LoadStep::Done && world(*final(layer)) == world(*old(layer)) && final(lifecycle)@
                == old(lifecycle)@.with_loaded(column.coords())
        } else {
            r == LoadStep::Read && is_generated(
                world(*old(layer)),
                world(*final(layer)),
                bounds,
                column.coords(),
            ) && final(lifecycle)@ == old(lifecycle)@
        },
{
    if !bounds.contains_chunk(column) {
        return LoadStep::Done;
    }
    if layer_has_chunk(layer, column) {
        let _ = lifecycle.note_loaded(column);
        return LoadStep::Done;
    }
    let ghost before = world(*layer);
    layer_insert_empty_chunk(layer, column);
    let ghost empty = world(*layer);
    generate_base_chunk(layer, bounds, column);
    proof {
        let after = world(*layer);
        assert forall|p: (int, int, int)| #[trigger]
            after.block(p) == if column_of(p) == column.coords() {
                if after.loaded(p) {
                    ground(bounds, p)
                } else {
                    AIR
                }
            } else {
                before.block(p)
            } by {
            assert(empty.block(p) == if column_of(p) == column.coords() {
                AIR
            } else {
                before.block(p)
            });
        }
    }
    LoadStep::Read
}

/// The counters after a column was filled, by how many saved blocks were put into it.
pub open spec fn after_filled(before: LifecycleView, column: (int, int), count: nat) -> LifecycleView {
    if count > 0 {
        before.after_restored(column)
    } else {
        before.after_generated(column)
    }
}

/// Puts what the storage holds of a column into it.
pub fn finish_load_chunk(
    layer: &mut valence::ChunkLayer,
    bounds: WorldBounds,
    lifecycle: &mut ChunkLifecycle,
    column: ChunkColumn,
    stored: Result<Option<StoredChunk>, String>,
) -> (r: Result<(), String>)
    requires
        whole_sections(*old(layer)),
        old(lifecycle).wf(),
        stored matches Ok(Some(chunk)) ==> forall|i: int|
            0 <= i < chunk.blocks@.len() ==> valid_state((#[trigger] chunk.blocks@[i]).block),
    ensures
        whole_sections(*final(layer)),
        final(lifecycle).wf(),
        match stored {
            Err(error) => r matches Err(message) && message@ == "load chunk storage failed: "@
                + error@ && world(*final(layer)) == world(*old(layer)) && final(lifecycle)@ == old(
                lifecycle,
            )@,
            Ok(None) => r == Ok::<(), String>(()) && world(*final(layer)) == world(*old(layer))
                && final(lifecycle)@ == old(lifecycle)@.after_generated(column.coords()),
            Ok(Some(chunk)) => r == Ok::<(), String>(()) && world(*final(layer)) == restored(
                world(*old(layer)),
                bounds,
                chunk.blocks@,
                chunk.blocks@.len() as int,
            ) && final(lifecycle)@ == after_filled(
                old(lifecycle)@,
                column.coords(),
                restored_count(
                    world(*old(layer)),
                    bounds,
                    chunk.blocks@,
                    chunk.blocks@.len() as int,
                ),
            ),
        },
{
    let count = match stored {
        Err(error) => return Err(prefixed("load chunk storage failed: ", error.as_str())),
        Ok(Some(chunk)) => apply_stored_chunk(layer, bounds, &chunk),
        Ok(None) => 0,
    };
    if count > 0 {
        lifecycle.mark_loaded_from_storage(column);
    } else {
        lifecycle.mark_loaded_generated(column);
    }
    Ok(())
}

/// A counter after it was raised `n` times; it wraps around at 64 bits.
pub open spec fn counted(before: u64, n: int) -> int {
    (before + n) % 0x1_0000_0000_0000_0000
}

/// Unloads the columns that are not wanted any more.
pub fn unload_unwanted_chunks(
    layer: &mut valence::ChunkLayer,
    lifecycle: &mut ChunkLifecycle,
    desired: &ColumnSet,
)
    requires
        old(lifecycle).wf(),
        desired.wf(),
    ensures
        final(lifecycle).wf(),
        forall|c: (int, int)| #[trigger]
            world(*final(layer)).columns.contains(c) == (world(*old(layer)).columns.contains(c)
                && desired@.contains_key(c)),
        world(*final(layer)).min_y == world(*old(layer)).min_y,
        world(*final(layer)).height == world(*old(layer)).height,
        forall|p: (int, int, int)| #[trigger]
            world(*final(layer)).block(p) == if desired@.contains_key(column_of(p)) {
                world(*old(layer)).block(p)
            } else {
                AIR
            },
        forall|c: (int, int)| #[trigger]
            final(lifecycle)@.loaded.contains_key(c) == (old(lifecycle)@.loaded.contains_key(c) && (
            desired@.contains_key(c) || !world(*old(layer)).columns.contains(c))),
        final(lifecycle)@.generated_chunks == old(lifecycle)@.generated_chunks,
        final(lifecycle)@.storage_loaded_chunks == old(lifecycle)@.storage_loaded_chunks,
        final(lifecycle)@.dirty_chunks_marked == old(lifecycle)@.dirty_chunks_marked,
        final(lifecycle)@.unloaded_chunks == counted(
            old(lifecycle)@.unloaded_chunks,
            old(lifecycle).loaded.spec_keys().len() - final(lifecycle).loaded.spec_keys().len(),
        ),
{
    let columns = layer_loaded_columns(layer);
    let ghost w = world(*layer);
    let ghost marks = lifecycle@;
    let ghost marked = lifecycle.loaded.spec_keys().len();
    let mut i: usize = 0;
    while i < columns.len()
        invariant
            i <= columns@.len(),
            lifecycle.wf(),
            desired.wf(),
            forall|c: (int, int)| #[trigger]
                w.columns.contains(c) == column_views(columns@).contains(c),
            world(*layer).min_y == w.min_y,
            world(*layer).height == w.height,
            forall|c: (int, int)| #[trigger]
                world(*layer).columns.contains(c) == (w.columns.contains(c) && (
                desired@.contains_key(c) || !column_views(columns@).take(i as int).contains(c))),
            forall|p: (int, int, int)| #[trigger]
                world(*layer).block(p) == if world(*layer).columns.contains(column_of(p)) {
                    w.block(p)
                } else {
                    AIR
                },
            forall|c: (int, int)| #[trigger]
                lifecycle@.loaded.contains_key(c) == (marks.loaded.contains_key(c) && (
                desired@.contains_key(c) || !column_views(columns@).take(i as int).contains(c))),
            lifecycle@.generated_chunks == marks.generated_chunks,
            lifecycle@.storage_loaded_chunks == marks.storage_loaded_chunks,
            lifecycle@.dirty_chunks_marked == marks.dirty_chunks_marked,
            lifecycle.loaded.spec_keys().len() <= marked,
            lifecycle@.unloaded_chunks == counted(
                marks.unloaded_chunks,
                marked - lifecycle.loaded.spec_keys().len(),
            ),
        decreases columns@.len() - i,
    {
        let column = columns[i];
        let ghost views = column_views(columns@);
        proof {
            assert(views[i as int] == column.coords());
            assert(views.take(i + 1) =~= views.take(i as int).push(column.coords()));
            assert forall|c: (int, int)| #[trigger]
                views.take(i + 1).contains(c) == (views.take(i as int).contains(c) || c
                    == column.coords()) by {
                let taken = views.take(i as int);
                if taken.contains(c) {
                    let j = choose|j: int| 0 <= j < taken.len() && taken[j] == c;
                    assert(views.take(i + 1)[j] == c);
                }
                if c == column.coords() {
                    assert(views.take(i + 1)[i as int] == c);
                }
            }
        }
        let ghost held = world(*layer);
        if desired.get(&column).is_none() {
            layer_remove_chunk(layer, column);
            lifecycle.mark_unloaded(column);
            proof {
                let after = world(*layer);
                assert forall|c: (int, int)| #[trigger]
                    after.columns.contains(c) == (held.columns.contains(c) && c
                        != column.coords()) by {}
                assert forall|p: (int, int, int)| #[trigger]
                    after.block(p) == if after.columns.contains(column_of(p)) {
                        w.block(p)
                    } else {
                        AIR
                    } by {
                    assert(held.block(p) == if held.columns.contains(column_of(p)) {
                        w.block(p)
                    } else {
                        AIR
                    });
                    if column_of(p) != column.coords() {
                        assert(after.states[p] == held.states[p]);
                    }
                }
            }
        }
        proof {
            let after = world(*layer);
            assert forall|c: (int, int)| #[trigger]
                after.columns.contains(c) == (w.columns.contains(c) && (desired@.contains_key(c)
                    || !views.take(i + 1).contains(c))) by {
                assert(held.columns.contains(c) == (w.columns.contains(c) && (desired@.contains_key(
                    c,
                ) || !views.take(i as int).contains(c))));
                assert(views.take(i + 1).contains(c) == (views.take(i as int).contains(c) || c
                    == column.coords()));
            }
        }
        i = i + 1;
    }
    proof {
        let views = column_views(columns@);
        assert(views.take(i as int) =~= views);
        let after = world(*layer);
        assert forall|p: (int, int, int)| #[trigger] after.block(p) == if desired@.contains_key(
            column_of(p),
        ) {
            w.block(p)
        } else {
            AIR
        } by {
            assert(after.columns.contains(column_of(p)) == (w.columns.contains(column_of(p))
                && desired@.contains_key(column_of(p))));
        }
    }
}

// ---- laws ----

/// A column that is loaded shows, at each position of the world, what was saved: the override where
/// there is one, else the block of the untouched world.
pub proof fn loaded_column_shows_what_was_saved(
    before: WorldView,
    generated: WorldView,
    column: (int, int),
    blocks: Seq<SavedBlockOverride>,
    p: BlockPos,
)
    requires
        is_generated(before, generated, world_bounds(), column),
        column_of(p.coords()) == column,
        world_bounds().has(p.coords()),
        generated.loaded(p.coords()),
    ensures
        restored(generated, world_bounds(), blocks, blocks.len() as int).block(p.coords())
            == saved_block(override_map(blocks, blocks.len() as int), p),
{
    let n = blocks.len() as int;
    restored_blocks(generated, world_bounds(), blocks, n);
    assert(generated.block(p.coords()) == ground(world_bounds(), p.coords()));
}

/// Loading a column changes no block of another column that was loaded.
pub proof fn loading_keeps_other_columns(
    before: WorldView,
    generated: WorldView,
    bounds: WorldBounds,
    column: (int, int),
    p: (int, int, int),
)
    requires
        is_generated(before, generated, bounds, column),
        column_of(p) != column,
    ensures
        generated.block(p) == before.block(p),
        generated.loaded(p) == before.loaded(p),
{
}

/// No column outside the bounds is ever wanted.
pub proof fn wanted_columns_are_in_bounds(
    centers: Seq<ChunkColumn>,
    bounds: WorldBounds,
    radius: int,
    column: (int, int),
)
    requires
        is_desired(centers, centers.len() as int, bounds, radius, column),
    ensures
        bounds.has_column(column),
{
}

} // verus!
