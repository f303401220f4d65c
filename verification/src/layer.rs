//! The live world: the chunk layer of the game server, seen as loaded columns and block states.

use vstd::prelude::*;
use crate::block::{column_of, valid_state, BlockPos, BlockState, ChunkColumn, AIR};

verus! {

#[verifier::external_type_specification]
#[verifier::external_body]
pub struct ExChunkLayer(valence::ChunkLayer);

/// The columns that are loaded in the layer.
pub uninterp spec fn layer_columns(layer: valence::ChunkLayer) -> Set<(int, int)>;

/// The block states of the layer, by position.
pub uninterp spec fn layer_states(layer: valence::ChunkLayer) -> Map<(int, int, int), u16>;

/// The lowest `y` of the layer's dimension.
pub uninterp spec fn layer_min_y(layer: valence::ChunkLayer) -> int;

/// The height of the layer's dimension, in blocks.
pub uninterp spec fn layer_height(layer: valence::ChunkLayer) -> int;

/// The contents of a chunk layer.
pub struct WorldView {
    pub columns: Set<(int, int)>,
    pub states: Map<(int, int, int), u16>,
    pub min_y: int,
    pub height: int,
}

/// The contents of `layer`.
pub open spec fn world(layer: valence::ChunkLayer) -> WorldView {
    WorldView {
        columns: layer_columns(layer),
        states: layer_states(layer),
        min_y: layer_min_y(layer),
        height: layer_height(layer),
    }
}

/// True iff the layer's height is made of whole chunk sections, as every playable dimension's is.
pub open spec fn whole_sections(layer: valence::ChunkLayer) -> bool {
    layer_height(layer) % 16 == 0
}

impl WorldView {
    /// True iff the position lies in a loaded column and inside the layer's height.
    pub open spec fn loaded(self, p: (int, int, int)) -> bool {
        self.columns.contains(column_of(p)) && self.min_y <= p.1 < self.min_y + self.height
    }

    /// The block at `p`; air where nothing is loaded.
    pub open spec fn block(self, p: (int, int, int)) -> BlockState {
        if self.loaded(p) {
            self.states[p]
        } else {
            AIR
        }
    }

    /// The world after the block at `p` was set; unchanged where nothing is loaded there.
    pub open spec fn set(self, p: (int, int, int), block: BlockState) -> WorldView {
        if self.loaded(p) {
            WorldView { states: self.states.insert(p, block), ..self }
        } else {
            self
        }
    }

    /// True iff `other` has the same shape: the same loaded columns, in the same dimension.
    pub open spec fn same_shape(self, other: WorldView) -> bool {
        self.columns == other.columns && self.min_y == other.min_y && self.height == other.height
    }
}

/// Setting a block changes that block, where it is loaded, and no other.
pub proof fn set_changes_one_block(w: WorldView, p: (int, int, int), block: BlockState, q: (int, int, int))
    ensures
        w.same_shape(w.set(p, block)),
        w.set(p, block).block(q) == if q == p && w.loaded(p) {
            block
        } else {
            w.block(q)
        },
{
}

/// `ChunkLayer::height`: the height that the layer was made with.
#[verifier::external_body]
fn height_of(layer: &valence::ChunkLayer) -> (r: u32)
    ensures
        r == layer_height(*layer),
{
    layer.height()
}

/// True iff the layer's height is made of whole chunk sections.
pub fn has_whole_sections(layer: &valence::ChunkLayer) -> (r: bool)
    ensures
        r == whole_sections(*layer),
{
    height_of(layer) % 16 == 0
}

/// `ChunkLayer::block`: the block at a position that lies in a loaded chunk and inside the
/// dimension's height, else nothing. A block state's raw id never exceeds the greatest one. In a
/// dimension whose height is not a multiple of the section height, positions above the topmost
/// whole section make the call panic.
#[verifier::external_body]
pub(crate) fn layer_block(layer: &valence::ChunkLayer, position: BlockPos) -> (r: Option<BlockState>)
    requires
        whole_sections(*layer),
    ensures
        r == if world(*layer).loaded(position.coords()) {
            Some(layer_states(*layer)[position.coords()])
        } else {
            None
        },
        r matches Some(block) ==> valid_state(block),
{
    layer.block(valence::BlockPos::new(position.x, position.y, position.z)).map(|block| block.state.to_raw())
}

/// `ChunkLayer::set_block`: replaces the block at a position that lies in a loaded chunk and
/// inside the dimension's height, and says whether it did; elsewhere nothing changes. The panic
/// is that of reading a block.
#[verifier::external_body]
pub(crate) fn layer_set_block(
    layer: &mut valence::ChunkLayer,
    position: BlockPos,
    block: BlockState,
) -> (r: bool)
    requires
        whole_sections(*old(layer)),
        valid_state(block),
    ensures
        r == world(*old(layer)).loaded(position.coords()),
        world(*final(layer)) == world(*old(layer)).set(position.coords(), block),
{
    let state = valence::BlockState::from_raw(block).unwrap();
    layer.set_block(valence::BlockPos::new(position.x, position.y, position.z), state).is_some()
}

/// `ChunkLayer::chunk`: whether the chunk of a column is loaded.
#[verifier::external_body]
pub(crate) fn layer_has_chunk(layer: &valence::ChunkLayer, column: ChunkColumn) -> (r: bool)
    ensures
        r == layer_columns(*layer).contains(column.coords()),
{
    layer.chunk(valence::ChunkPos::new(column.x, column.z)).is_some()
}

/// `ChunkLayer::insert_chunk` with an empty chunk: the column becomes loaded and holds air only;
/// every other column, and the dimension, stays as it was.
#[verifier::external_body]
pub(crate) fn layer_insert_empty_chunk(layer: &mut valence::ChunkLayer, column: ChunkColumn)
    ensures
        layer_columns(*final(layer)) == layer_columns(*old(layer)).insert(column.coords()),
        layer_min_y(*final(layer)) == layer_min_y(*old(layer)),
        layer_height(*final(layer)) == layer_height(*old(layer)),
        forall|p: (int, int, int)| #[trigger]
            layer_states(*final(layer))[p] == if column_of(p) == column.coords() {
                AIR
            } else {
                layer_states(*old(layer))[p]
            },
{
    layer.insert_chunk(valence::ChunkPos::new(column.x, column.z), valence::layer::chunk::UnloadedChunk::new());
}

/// `ChunkLayer::remove_chunk`: the column is not loaded any more; every other column, and the
/// dimension, stays as it was.
#[verifier::external_body]
pub(crate) fn layer_remove_chunk(layer: &mut valence::ChunkLayer, column: ChunkColumn)
    ensures
        layer_columns(*final(layer)) == layer_columns(*old(layer)).remove(column.coords()),
        layer_min_y(*final(layer)) == layer_min_y(*old(layer)),
        layer_height(*final(layer)) == layer_height(*old(layer)),
        forall|p: (int, int, int)|
            column_of(p) != column.coords() ==> #[trigger] layer_states(*final(layer))[p]
                == layer_states(*old(layer))[p],
{
    layer.remove_chunk(valence::ChunkPos::new(column.x, column.z));
}

/// `ChunkLayer::chunks`: the columns that are loaded, each once, in no particular order.
#[verifier::external_body]
pub(crate) fn layer_loaded_columns(layer: &valence::ChunkLayer) -> (r: Vec<ChunkColumn>)
    ensures
        forall|c: (int, int)| #[trigger]
            layer_columns(*layer).contains(c) == r@.map_values(
                |column: ChunkColumn| column.coords(),
            ).contains(c),
        forall|i: int, j: int|
            0 <= i < j < r@.len() ==> (#[trigger] r@[i]).coords() != (#[trigger] r@[j]).coords(),
{
    layer.chunks().map(|(pos, _)| ChunkColumn { x: pos.x, z: pos.z }).collect()
}

/// The block at `position`; air where nothing is loaded.
pub fn block_state_at(layer: &valence::ChunkLayer, position: BlockPos) -> (r: BlockState)
    requires
        whole_sections(*layer),
    ensures
        r == world(*layer).block(position.coords()),
        valid_state(r),
{
    match layer_block(layer, position) {
        Some(block) => block,
        None => AIR,
    }
}

} // verus!
