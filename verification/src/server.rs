//! The server's rules: what a tool is asked to do, the edits that tools and players make, and what
//! is said of the server.

use vstd::prelude::*;
use vstd::string::StringExecFns;
use crate::block::{column_of, valid_state, BlockPos, BlockState, ChunkColumn, AIR};
use crate::bridge::BridgeConfig;
use crate::build_palette::{
    build_palette_entries, palette, sorted_entries, BuildPaletteEntry, BUILD_PALETTE_VERSION,
    MINECRAFT_VERSION,
};
use crate::build_plan::{cells_run_in_order, first_cell, BoxSpan};
use crate::build_service::{anchor_from, blocks_of, placement_anchor_in_layer};
use crate::chunks::{
    column_views, columns_near, interest_chunk_capacity, neighbor_columns, region_columns,
    column_rows, span, ChunkLifecycle, LifecycleView,
};
use crate::json::{
    integer, integer_value, member, text, unsigned, unsigned_of_value, Fields, Items, Json, JsonView,
};
use crate::layer::{block_state_at, set_changes_one_block, whole_sections, world, WorldView};
use crate::mcp::{
    block_argument, block_json, block_json_view, block_name, block_state_name, bounded_text,
    integer_argument, known_tool, no_fields, no_items, optional_u32, position_argument, region_argument,
    required_block_pos, required_block_state, required_build_id, required_region, required_string,
    required_sculpt_spec, tools, Region, MAX_FILL_BLOCKS, MAX_SNAPSHOT_BLOCKS,
};
use crate::persistence::{BlockEdit, PersistedCommandKind};
use crate::registry::{block_of_item, item_block};
use crate::text::{decimal, decimal_nat, prefixed, push_i64, push_u64, same_text};
use crate::world_command::{
    base_block, execute_world_command, execution_error, CommandContext, WorldBounds, WorldCommand,
    WorldCommandError,
};
use crate::writer::PersistenceStatsSnapshot;

verus! {

pub const TELEMETRY_INTERVAL_TICKS: i64 = 20;

pub const TELEMETRY_WINDOW_SAMPLES: usize = 30;

pub const MAX_MCP_REQUESTS_PER_TICK: usize = 64;

// ---- regions ----

/// The cells of a region.
pub open spec fn region_box(region: Region) -> BoxSpan {
    BoxSpan { from: region.min.coords(), to: region.max.coords() }
}

/// The `k`-th position of a region: y varies slowest, then x, then z; y runs downwards where
/// `reverse_y` holds.
pub open spec fn region_cell(region: Region, reverse_y: bool, k: int) -> BlockPos {
    let c = region_box(region).cell(k);
    BlockPos {
        x: c.0 as i32,
        y: if reverse_y {
            (region.max.y - (c.1 - region.min.y)) as i32
        } else {
            c.1 as i32
        },
        z: c.2 as i32,
    }
}

/// The two ways of counting the cells of a region agree.
pub proof fn region_volume(region: Region)
    ensures
        region.spec_volume() == region_box(region).volume(),
{
    let b = region_box(region);
    assert(b.dx() * b.dy() * b.dz() == b.dz() * (b.dx() * b.dy())) by (nonlinear_arith);
}

/// The positions of a region, layer by layer.
pub fn region_positions(region: Region, reverse_y: bool) -> (r: Vec<BlockPos>)
    requires
        region.is_ordered(),
        region.spec_volume() <= i64::MAX,
    ensures
        r@.len() == region.spec_volume(),
        forall|k: int| 0 <= k < r@.len() ==> #[trigger] r@[k] == region_cell(region, reverse_y, k),
{
    let volume = region.volume();
    let ghost b = region_box(region);
    proof {
        region_volume(region);
        first_cell(b);
    }
    let mut positions: Vec<BlockPos> = Vec::new();
    let mut x: i32 = region.min.x;
    let mut y: i32 = region.min.y;
    let mut z: i32 = region.min.z;
    let mut k: i64 = 0;
    while k < volume
        invariant
            0 <= k <= volume,
            volume == b.volume(),
            b == region_box(region),
            b.ordered(),
            k < volume ==> b.cell(k as int) == (x as int, y as int, z as int),
            positions@.len() == k,
            forall|i: int|
                0 <= i < positions@.len() ==> #[trigger] positions@[i] == region_cell(
                    region,
                    reverse_y,
                    i,
                ),
        decreases volume - k,
    {
        proof {
            cells_run_in_order(b, k as int);
        }
        let level: i32 = if reverse_y {
            ((region.max.y as i64) - (y as i64 - region.min.y as i64)) as i32
        } else {
            y
        };
        positions.push(BlockPos { x, y: level, z });
        if z < region.max.z {
            z = z + 1;
        } else {
            z = region.min.z;
            if x < region.max.x {
                x = x + 1;
            } else {
                x = region.min.x;
                if y < region.max.y {
                    y = y + 1;
                }
            }
        }
        k = k + 1;
    }
    positions
}

/// Every position that a region lists lies in it.
pub proof fn listed_positions_lie_in_the_region(region: Region, reverse_y: bool, k: int)
    requires
        region.is_ordered(),
        0 <= k < region.spec_volume(),
    ensures
        ({
            let p = region_cell(region, reverse_y, k);
            &&& region.min.x <= p.x <= region.max.x
            &&& region.min.y <= p.y <= region.max.y
            &&& region.min.z <= p.z <= region.max.z
        }),
{
    region_volume(region);
    cells_run_in_order(region_box(region), k);
}

/// The message for a position outside the world.
pub open spec fn outside_message(position: BlockPos) -> Seq<char> {
    "position "@ + position.spec_text() + " is outside world bounds"@
}

pub fn ensure_in_bounds(bounds: WorldBounds, position: BlockPos) -> (r: Result<(), String>)
    ensures
        if bounds.has(position.coords()) {
            r == Ok::<(), String>(())
        } else {
            r matches Err(message) && message@ == outside_message(position)
        },
{
    if bounds.contains(position) {
        Ok(())
    } else {
        let mut message = prefixed("position ", position.text().as_str());
        message.append(" is outside world bounds");
        Err(message)
    }
}

/// What is wrong with a region: the first of its corners that lies outside the world.
pub open spec fn region_bounds_error(bounds: WorldBounds, region: Region) -> Option<Seq<char>> {
    if !bounds.has(region.min.coords()) {
        Some(outside_message(region.min))
    } else if !bounds.has(region.max.coords()) {
        Some(outside_message(region.max))
    } else {
        None
    }
}

pub fn ensure_region_in_bounds(bounds: WorldBounds, region: Region) -> (r: Result<(), String>)
    ensures
        match region_bounds_error(bounds, region) {
            Some(text) => r matches Err(message) && message@ == text,
            None => r == Ok::<(), String>(()),
        },
{
    match ensure_in_bounds(bounds, region.min) {
        Ok(()) => {},
        Err(message) => return Err(message),
    }
    ensure_in_bounds(bounds, region.max)
}

// ---- edits ----

/// The edit that a command leaves to be saved.
pub open spec fn edit_of(command: WorldCommand) -> BlockEdit {
    BlockEdit {
        position: command.target(),
        block: command.result_block(),
        base_block: base_block(command.target().coords()),
        command_kind: if command is SetBlock {
            PersistedCommandKind::SetBlock
        } else {
            PersistedCommandKind::RemoveBlock
        },
    }
}

/// What is known when a tool places a block: it leans on the first neighbour that is not air.
pub open spec fn placing(w: WorldView, position: BlockPos) -> CommandContext {
    CommandContext {
        target_block: w.block(position.coords()),
        anchor_block: Some(anchor_from(Map::empty(), blocks_of(w), position, 0)),
        actor_head_inside_block: false,
    }
}

/// What is known when a block is removed.
pub open spec fn removing(w: WorldView, position: BlockPos) -> CommandContext {
    CommandContext {
        target_block: w.block(position.coords()),
        anchor_block: None,
        actor_head_inside_block: false,
    }
}

/// The context in which a tool's command is carried out.
pub open spec fn tool_context(w: WorldView, command: WorldCommand) -> CommandContext {
    match command {
        WorldCommand::SetBlock { position, block } => placing(w, position),
        WorldCommand::RemoveBlock { position } => removing(w, position),
    }
}

/// Why a tool's command is refused.
pub open spec fn tool_error_of(w: WorldView, bounds: WorldBounds, command: WorldCommand) -> Option<
    WorldCommandError,
> {
    execution_error(w, bounds, command, tool_context(w, command))
}

/// True iff the command was carried out and its edit handed back, or it was refused and nothing
/// changed.
pub open spec fn is_edit(
    before: WorldView,
    after: WorldView,
    bounds: WorldBounds,
    command: WorldCommand,
    r: Result<BlockEdit, String>,
) -> bool {
    match tool_error_of(before, bounds, command) {
        Some(error) => r matches Err(message) && message@ == error.spec_message() && after
            == before,
        None => r == Ok::<BlockEdit, String>(edit_of(command)) && after == before.set(
            command.target().coords(),
            command.result_block(),
        ),
    }
}

pub fn set_block_via_world_command(
    layer: &mut valence::ChunkLayer,
    bounds: WorldBounds,
    position: BlockPos,
    block: BlockState,
) -> (r: Result<BlockEdit, String>)
    requires
        whole_sections(*old(layer)),
        valid_state(block),
    ensures
        whole_sections(*final(layer)),
        is_edit(
            world(*old(layer)),
            world(*final(layer)),
            bounds,
            WorldCommand::SetBlock { position, block },
            r,
        ),
{
    let command = WorldCommand::SetBlock { position, block };
    let target = block_state_at(layer, position);
    let anchor = placement_anchor_in_layer(layer, position);
    let context = CommandContext::for_placement(target, anchor, false);
    match execute_world_command(layer, bounds, command, context) {
        Ok(()) => Ok(BlockEdit::from_world_command(command, block)),
        Err(error) => Err(error.message()),
    }
}

pub fn remove_block_via_world_command(
    layer: &mut valence::ChunkLayer,
    bounds: WorldBounds,
    position: BlockPos,
) -> (r: Result<BlockEdit, String>)
    requires
        whole_sections(*old(layer)),
    ensures
        whole_sections(*final(layer)),
        is_edit(
            world(*old(layer)),
            world(*final(layer)),
            bounds,
            WorldCommand::RemoveBlock { position },
            r,
        ),
{
    let command = WorldCommand::RemoveBlock { position };
    let context = CommandContext::for_existing_block(block_state_at(layer, position));
    match execute_world_command(layer, bounds, command, context) {
        Ok(()) => Ok(BlockEdit::from_world_command(command, AIR)),
        Err(error) => Err(error.message()),
    }
}

/// How far a fill has come.
#[verifier::ext_equal]
pub struct FillState {
    pub w: WorldView,
    pub edits: Seq<BlockEdit>,
    pub skipped: nat,
    /// The fill has failed: nothing further is edited.
    pub error: Option<Seq<char>>,
}

/// The command that fills a position.
pub open spec fn fill_command(position: BlockPos, block: BlockState) -> WorldCommand {
    if block == AIR {
        WorldCommand::RemoveBlock { position }
    } else {
        WorldCommand::SetBlock { position, block }
    }
}

/// The fill after one more position: air is not removed again, and the first refusal ends it.
pub open spec fn fill_step(
    state: FillState,
    bounds: WorldBounds,
    position: BlockPos,
    block: BlockState,
) -> FillState {
    let command = fill_command(position, block);
    if state.error is Some {
        state
    } else if block == AIR && state.w.block(position.coords()) == AIR {
        FillState { skipped: state.skipped + 1, ..state }
    } else {
        match tool_error_of(state.w, bounds, command) {
            Some(error) => FillState {
                error: Some(
                    "fill_region failed at "@ + position.spec_text() + ": "@ + error.spec_message(),
                ),
                ..state
            },
            None => FillState {
                w: state.w.set(position.coords(), block),
                edits: state.edits.push(edit_of(command)),
                ..state
            },
        }
    }
}

/// The fill of a region after its first `n` positions; blocks are removed from the top down.
pub open spec fn filled(
    w: WorldView,
    bounds: WorldBounds,
    region: Region,
    block: BlockState,
    n: int,
) -> FillState
    decreases n,
{
    if n <= 0 {
        FillState { w, edits: Seq::empty(), skipped: 0, error: None }
    } else {
        fill_step(
            filled(w, bounds, region, block, n - 1),
            bounds,
            region_cell(region, block == AIR, n - 1),
            block,
        )
    }
}

proof fn failed_fill_stays(
    w: WorldView,
    bounds: WorldBounds,
    region: Region,
    block: BlockState,
    k: int,
    n: int,
)
    requires
        0 <= k <= n,
        filled(w, bounds, region, block, k).error is Some,
    ensures
        filled(w, bounds, region, block, n) == filled(w, bounds, region, block, k),
    decreases n,
{
    if k < n {
        failed_fill_stays(w, bounds, region, block, k, n - 1);
    }
}

/// What a fill came to: the edits that were made, also where it failed.
pub struct FillOutcome {
    pub edits: Vec<BlockEdit>,
    pub skipped: usize,
    pub error: Option<String>,
}

/// True iff the outcome is that of the fill.
pub open spec fn is_fill(outcome: FillOutcome, state: FillState) -> bool {
    &&& outcome.edits@ == state.edits
    &&& outcome.skipped == state.skipped
    &&& match state.error {
        Some(text) => outcome.error matches Some(message) && message@ == text,
        None => outcome.error is None,
    }
}

pub fn fill_region_via_world_command(
    layer: &mut valence::ChunkLayer,
    bounds: WorldBounds,
    region: Region,
    block: BlockState,
) -> (r: FillOutcome)
    requires
        whole_sections(*old(layer)),
        valid_state(block),
        region.is_ordered(),
        region.spec_volume() <= i64::MAX,
    ensures
        whole_sections(*final(layer)),
        world(*final(layer)) == filled(
            world(*old(layer)),
            bounds,
            region,
            block,
            region.spec_volume(),
        ).w,
        is_fill(
            r,
            filled(world(*old(layer)), bounds, region, block, region.spec_volume()),
        ),
{
    let ghost w = world(*layer);
    let positions = region_positions(region, block == AIR);
    let mut edits: Vec<BlockEdit> = Vec::new();
    let mut skipped: usize = 0;
    let mut i: usize = 0;
    while i < positions.len()
        invariant
            i <= positions@.len(),
            skipped <= i,
            w == world(*old(layer)),
            whole_sections(*layer),
            valid_state(block),
            positions@.len() == region.spec_volume(),
            forall|k: int|
                0 <= k < positions@.len() ==> #[trigger] positions@[k] == region_cell(
                    region,
                    block == AIR,
                    k,
                ),
            filled(w, bounds, region, block, i as int).error is None,
            world(*layer) == filled(w, bounds, region, block, i as int).w,
            edits@ == filled(w, bounds, region, block, i as int).edits,
            skipped == filled(w, bounds, region, block, i as int).skipped,
        decreases positions@.len() - i,
    {
        let position = positions[i];
        if block == AIR && block_state_at(layer, position) == AIR {
            skipped = skipped + 1;
        } else {
            let edit = if block == AIR {
                remove_block_via_world_command(layer, bounds, position)
            } else {
                set_block_via_world_command(layer, bounds, position, block)
            };
            match edit {
                Ok(edit) => edits.push(edit),
                Err(error) => {
                    proof {
                        failed_fill_stays(
                            w,
                            bounds,
                            region,
                            block,
                            i + 1,
                            region.spec_volume(),
                        );
                    }
                    let mut message = prefixed("fill_region failed at ", position.text().as_str());
                    message.append(": ");
                    message.append(error.as_str());
                    return FillOutcome { edits, skipped, error: Some(message) };
                },
            }
        }
        i = i + 1;
    }
    FillOutcome { edits, skipped, error: None }
}

/// A fill that comes to its end leaves the block at every position of the region.
pub proof fn completed_fill_leaves_one_block(
    w: WorldView,
    bounds: WorldBounds,
    region: Region,
    block: BlockState,
    n: int,
    k: int,
)
    requires
        0 <= k < n <= region.spec_volume(),
        filled(w, bounds, region, block, n).error is None,
    ensures
        filled(w, bounds, region, block, n).w.block(region_cell(region, block == AIR, k).coords())
            == block,
    decreases n,
{
    let before = filled(w, bounds, region, block, n - 1);
    let p = region_cell(region, block == AIR, n - 1);
    let q = region_cell(region, block == AIR, k);
    if k < n - 1 {
        completed_fill_leaves_one_block(w, bounds, region, block, n - 1, k);
    }
    set_changes_one_block(before.w, p.coords(), block, q.coords());
}

/// Whatever a fill does, it edits nothing outside its region.
pub proof fn fills_stay_in_the_region(
    w: WorldView,
    bounds: WorldBounds,
    region: Region,
    block: BlockState,
    n: int,
    p: (int, int, int),
)
    requires
        region.is_ordered(),
        0 <= n <= region.spec_volume(),
        !(region.min.x <= p.0 <= region.max.x && region.min.y <= p.1 <= region.max.y && region.min.z
            <= p.2 <= region.max.z),
    ensures
        w.same_shape(filled(w, bounds, region, block, n).w),
        filled(w, bounds, region, block, n).w.block(p) == w.block(p),
    decreases n,
{
    if n > 0 {
        fills_stay_in_the_region(w, bounds, region, block, n - 1, p);
        let before = filled(w, bounds, region, block, n - 1);
        let c = region_cell(region, block == AIR, n - 1);
        listed_positions_lie_in_the_region(region, block == AIR, n - 1);
        set_changes_one_block(before.w, c.coords(), block, p);
    }
}

/// What a player's click came to.
pub enum PlayerEdit {
    Ignored,
    Edited(BlockEdit),
    /// What the player is told.
    Rejected(String),
}

/// True iff a player's command was carried out and the column marked, or it was refused and nothing
/// changed but that the player is told.
pub open spec fn is_player_edit(
    before: WorldView,
    after: WorldView,
    marks_before: LifecycleView,
    marks_after: LifecycleView,
    bounds: WorldBounds,
    command: WorldCommand,
    context: CommandContext,
    refusal: Seq<char>,
    r: PlayerEdit,
) -> bool {
    match execution_error(before, bounds, command, context) {
        Some(error) => {
            &&& r matches PlayerEdit::Rejected(message)
            &&& message@ == refusal + error.spec_message()
            &&& after == before
            &&& marks_after == marks_before
        },
        None => {
            &&& r == PlayerEdit::Edited(edit_of(command))
            &&& after == before.set(command.target().coords(), command.result_block())
            &&& marks_after == marks_before.after_dirty(column_of(command.target().coords()))
        },
    }
}

/// A player starts to dig: in creative mode the block goes at once.
pub fn handle_player_digging(
    layer: &mut valence::ChunkLayer,
    bounds: WorldBounds,
    lifecycle: &mut ChunkLifecycle,
    creative: bool,
    started: bool,
    position: BlockPos,
) -> (r: PlayerEdit)
    requires
        whole_sections(*old(layer)),
        old(lifecycle).wf(),
    ensures
        whole_sections(*final(layer)),
        final(lifecycle).wf(),
        if !creative || !started {
            r == PlayerEdit::Ignored && world(*final(layer)) == world(*old(layer)) && final(lifecycle)@ == old(lifecycle)@
        } else {
            is_player_edit(
                world(*old(layer)),
                world(*final(layer)),
                old(lifecycle)@,
                final(lifecycle)@,
                bounds,
                WorldCommand::RemoveBlock { position },
                removing(world(*old(layer)), position),
                "WorldCommand rejected remove_block: "@,
                r,
            )
        },
{
    if !creative || !started {
        return PlayerEdit::Ignored;
    }
    let command = WorldCommand::RemoveBlock { position };
    let context = CommandContext::for_existing_block(block_state_at(layer, position));
    match execute_world_command(layer, bounds, command, context) {
        Ok(()) => {
            lifecycle.mark_dirty(ChunkColumn::from_block_pos(position));
            PlayerEdit::Edited(BlockEdit::from_world_command(command, AIR))
        },
        Err(error) => PlayerEdit::Rejected(
            prefixed("WorldCommand rejected remove_block: ", error.message().as_str()),
        ),
    }
}

/// A face of a block.
#[derive(Debug, Clone, Copy, PartialEq, Eq, Structural)]
pub enum Face {
    Down,
    Up,
    North,
    South,
    West,
    East,
}

/// The position beside a block, at one of its faces.
pub open spec fn beside(p: (int, int, int), face: Face) -> (int, int, int) {
    match face {
        Face::Down => (p.0, p.1 - 1, p.2),
        Face::Up => (p.0, p.1 + 1, p.2),
        Face::North => (p.0, p.1, p.2 - 1),
        Face::South => (p.0, p.1, p.2 + 1),
        Face::West => (p.0 - 1, p.1, p.2),
        Face::East => (p.0 + 1, p.1, p.2),
    }
}

/// True iff every coordinate fits in 32 bits.
pub open spec fn is_position(p: (int, int, int)) -> bool {
    i32::MIN <= p.0 <= i32::MAX && i32::MIN <= p.1 <= i32::MAX && i32::MIN <= p.2 <= i32::MAX
}

/// The position beside a block, at one of its faces.
pub fn get_in_direction(position: BlockPos, face: Face) -> (r: BlockPos)
    requires
        is_position(beside(position.coords(), face)),
    ensures
        r.coords() == beside(position.coords(), face),
{
    match face {
        Face::Down => BlockPos { x: position.x, y: position.y - 1, z: position.z },
        Face::Up => BlockPos { x: position.x, y: position.y + 1, z: position.z },
        Face::North => BlockPos { x: position.x, y: position.y, z: position.z - 1 },
        Face::South => BlockPos { x: position.x, y: position.y, z: position.z + 1 },
        Face::West => BlockPos { x: position.x - 1, y: position.y, z: position.z },
        Face::East => BlockPos { x: position.x + 1, y: position.y, z: position.z },
    }
}

/// A player's click on a block, with an item in the hand.
#[derive(Debug, Clone, Copy)]
pub struct PlacementClick {
    pub main_hand: bool,
    pub creative: bool,
    /// The raw id of the item in the hand, if there is one.
    pub item: Option<u16>,
    pub position: BlockPos,
    pub face: Face,
    pub head_inside_block: bool,
}

impl PlacementClick {
    /// The position that the click would fill.
    pub open spec fn target(self) -> BlockPos {
        let c = beside(self.position.coords(), self.face);
        BlockPos { x: c.0 as i32, y: c.1 as i32, z: c.2 as i32 }
    }
}

/// What is known when a player places a block: it leans on the block that was clicked.
pub open spec fn clicking(w: WorldView, click: PlacementClick) -> CommandContext {
    CommandContext {
        target_block: w.block(click.target().coords()),
        anchor_block: Some(w.block(click.position.coords())),
        actor_head_inside_block: click.head_inside_block,
    }
}

/// The block that a click would place; only the main hand of a creative player places anything.
pub open spec fn clicked_block(click: PlacementClick) -> Option<BlockState> {
    if !click.main_hand || !click.creative {
        None
    } else {
        match click.item {
            Some(item) => block_of_item(item),
            None => None,
        }
    }
}

/// A player clicks on a block to place another one beside it.
pub fn handle_player_placement(
    layer: &mut valence::ChunkLayer,
    bounds: WorldBounds,
    lifecycle: &mut ChunkLifecycle,
    click: PlacementClick,
) -> (r: PlayerEdit)
    requires
        whole_sections(*old(layer)),
        old(lifecycle).wf(),
        click.main_hand && click.creative && click.item is Some ==> is_position(
            beside(click.position.coords(), click.face),
        ),
    ensures
        whole_sections(*final(layer)),
        final(lifecycle).wf(),
        match clicked_block(click) {
            None => r == PlayerEdit::Ignored && world(*final(layer)) == world(*old(layer))
                && final(lifecycle)@ == old(lifecycle)@,
            Some(block) => is_player_edit(
                world(*old(layer)),
                world(*final(layer)),
                old(lifecycle)@,
                final(lifecycle)@,
                bounds,
                WorldCommand::SetBlock { position: click.target(), block },
                clicking(world(*old(layer)), click),
                "WorldCommand rejected set_block: "@,
                r,
            ),
        },
{
    if !click.main_hand || !click.creative {
        return PlayerEdit::Ignored;
    }
    let item = match click.item {
        Some(item) => item,
        None => return PlayerEdit::Ignored,
    };
    let block = match item_block(item) {
        Some(block) => block,
        None => return PlayerEdit::Ignored,
    };
    let target = get_in_direction(click.position, click.face);
    proof {
        assert(target == click.target());
    }
    let command = WorldCommand::SetBlock { position: target, block };
    let context = CommandContext::for_placement(
        block_state_at(layer, target),
        block_state_at(layer, click.position),
        click.head_inside_block,
    );
    match execute_world_command(layer, bounds, command, context) {
        Ok(()) => {
            lifecycle.mark_dirty(ChunkColumn::from_block_pos(target));
            PlayerEdit::Edited(BlockEdit::from_world_command(command, block))
        },
        Err(error) => PlayerEdit::Rejected(
            prefixed("WorldCommand rejected set_block: ", error.message().as_str()),
        ),
    }
}

// ---- what a tool is asked to do ----

/// The tools.
#[derive(Debug, Clone, Copy, PartialEq, Eq, Structural)]
pub enum ToolKind {
    ServerStatus,
    ListPlayers,
    GetWorldBounds,
    ListBuildPalette,
    GetBlock,
    SnapshotRegion,
    SetBlock,
    RemoveBlock,
    FillRegion,
    ValidateBuildPlan,
    ApplyBuildPlan,
    GetBuild,
    UndoBuild,
    ValidateSculptSpec,
    InspectAssetBudget,
    PublishAsset,
    ListAssets,
    GetAsset,
    SpawnAsset,
    UpdateAsset,
    RemoveAsset,
    ListAssetInstances,
}

/// The tool of that name.
pub open spec fn tool_kind(name: Seq<char>) -> Option<ToolKind> {
    if name == "server_status"@ {
        Some(ToolKind::ServerStatus)
    } else if name == "list_players"@ {
        Some(ToolKind::ListPlayers)
    } else if name == "get_world_bounds"@ {
        Some(ToolKind::GetWorldBounds)
    } else if name == "list_build_palette"@ {
        Some(ToolKind::ListBuildPalette)
    } else if name == "get_block"@ {
        Some(ToolKind::GetBlock)
    } else if name == "snapshot_region"@ {
        Some(ToolKind::SnapshotRegion)
    } else if name == "set_block"@ {
        Some(ToolKind::SetBlock)
    } else if name == "remove_block"@ {
        Some(ToolKind::RemoveBlock)
    } else if name == "fill_region"@ {
        Some(ToolKind::FillRegion)
    } else if name == "validate_build_plan"@ {
        Some(ToolKind::ValidateBuildPlan)
    } else if name == "apply_build_plan"@ {
        Some(ToolKind::ApplyBuildPlan)
    } else if name == "get_build"@ {
        Some(ToolKind::GetBuild)
    } else if name == "undo_build"@ {
        Some(ToolKind::UndoBuild)
    } else if name == "validate_sculpt_spec"@ {
        Some(ToolKind::ValidateSculptSpec)
    } else if name == "inspect_asset_budget"@ {
        Some(ToolKind::InspectAssetBudget)
    } else if name == "publish_asset"@ {
        Some(ToolKind::PublishAsset)
    } else if name == "list_assets"@ {
        Some(ToolKind::ListAssets)
    } else if name == "get_asset"@ {
        Some(ToolKind::GetAsset)
    } else if name == "spawn_asset"@ {
        Some(ToolKind::SpawnAsset)
    } else if name == "update_asset"@ {
        Some(ToolKind::UpdateAsset)
    } else if name == "remove_asset"@ {
        Some(ToolKind::RemoveAsset)
    } else if name == "list_asset_instances"@ {
        Some(ToolKind::ListAssetInstances)
    } else {
        None
    }
}

/// The tool of that name.
pub fn tool_kind_of(name: &str) -> (r: Option<ToolKind>)
    ensures
        r == tool_kind(name@),
{
    if same_text(name, "server_status") {
        Some(ToolKind::ServerStatus)
    } else if same_text(name, "list_players") {
        Some(ToolKind::ListPlayers)
    } else if same_text(name, "get_world_bounds") {
        Some(ToolKind::GetWorldBounds)
    } else if same_text(name, "list_build_palette") {
        Some(ToolKind::ListBuildPalette)
    } else if same_text(name, "get_block") {
        Some(ToolKind::GetBlock)
    } else if same_text(name, "snapshot_region") {
        Some(ToolKind::SnapshotRegion)
    } else if same_text(name, "set_block") {
        Some(ToolKind::SetBlock)
    } else if same_text(name, "remove_block") {
        Some(ToolKind::RemoveBlock)
    } else if same_text(name, "fill_region") {
        Some(ToolKind::FillRegion)
    } else if same_text(name, "validate_build_plan") {
        Some(ToolKind::ValidateBuildPlan)
    } else if same_text(name, "apply_build_plan") {
        Some(ToolKind::ApplyBuildPlan)
    } else if same_text(name, "get_build") {
        Some(ToolKind::GetBuild)
    } else if same_text(name, "undo_build") {
        Some(ToolKind::UndoBuild)
    } else if same_text(name, "validate_sculpt_spec") {
        Some(ToolKind::ValidateSculptSpec)
    } else if same_text(name, "inspect_asset_budget") {
        Some(ToolKind::InspectAssetBudget)
    } else if same_text(name, "publish_asset") {
        Some(ToolKind::PublishAsset)
    } else if same_text(name, "list_assets") {
        Some(ToolKind::ListAssets)
    } else if same_text(name, "get_asset") {
        Some(ToolKind::GetAsset)
    } else if same_text(name, "spawn_asset") {
        Some(ToolKind::SpawnAsset)
    } else if same_text(name, "update_asset") {
        Some(ToolKind::UpdateAsset)
    } else if same_text(name, "remove_asset") {
        Some(ToolKind::RemoveAsset)
    } else if same_text(name, "list_asset_instances") {
        Some(ToolKind::ListAssetInstances)
    } else {
        None
    }
}

/// What a tool is asked to do, with the arguments that are read before the world is touched.
pub enum ToolPlan {
    /// Answered from what the server knows.
    Status(ToolKind),
    Position { kind: ToolKind, position: BlockPos },
    Area { kind: ToolKind, region: Region },
    Build { kind: ToolKind, build_id: String },
    /// The plan is read where it stands.
    BuildPlan(ToolKind),
    /// The spec is read where it stands.
    Spec(ToolKind),
    Asset { asset_id: String, version: Option<u32> },
    Instance { instance_id: String },
    /// The request is read where it stands.
    Request(ToolKind),
}

/// What a tool's plan says.
pub enum PlanView {
    Status(ToolKind),
    Position { kind: ToolKind, position: BlockPos },
    Area { kind: ToolKind, region: Region },
    Build { kind: ToolKind, build_id: Seq<char> },
    BuildPlan(ToolKind),
    Spec(ToolKind),
    Asset { asset_id: Seq<char>, version: Option<u32> },
    Instance { instance_id: Seq<char> },
    Request(ToolKind),
}

impl View for ToolPlan {
    type V = PlanView;

    open spec fn view(&self) -> PlanView {
        match self {
            ToolPlan::Status(kind) => PlanView::Status(*kind),
            ToolPlan::Position { kind, position } => PlanView::Position {
                kind: *kind,
                position: *position,
            },
            ToolPlan::Area { kind, region } => PlanView::Area { kind: *kind, region: *region },
            ToolPlan::Build { kind, build_id } => PlanView::Build {
                kind: *kind,
                build_id: build_id@,
            },
            ToolPlan::BuildPlan(kind) => PlanView::BuildPlan(*kind),
            ToolPlan::Spec(kind) => PlanView::Spec(*kind),
            ToolPlan::Asset { asset_id, version } => PlanView::Asset {
                asset_id: asset_id@,
                version: *version,
            },
            ToolPlan::Instance { instance_id } => PlanView::Instance { instance_id: instance_id@ },
            ToolPlan::Request(kind) => PlanView::Request(*kind),
        }
    }
}

impl ToolPlan {
    /// True iff the region, where the plan has one, is a region that can be walked through.
    pub open spec fn has_sound_region(&self) -> bool {
        self@ matches PlanView::Area { kind, region } ==> region.is_ordered()
            && region.spec_volume() <= i64::MAX
    }
}

/// The plan of a tool that takes a position, which has to lie in the world.
pub open spec fn position_plan(
    kind: ToolKind,
    arguments: JsonView,
    bounds: WorldBounds,
) -> Result<PlanView, Seq<char>> {
    match position_argument(arguments, "x"@, "y"@, "z"@) {
        Err(message) => Err(message),
        Ok(position) => if bounds.has(position.coords()) {
            Ok(PlanView::Position { kind, position })
        } else {
            Err(outside_message(position))
        },
    }
}

/// The plan of a tool that takes a region, which has to lie in the world.
pub open spec fn area_plan(
    kind: ToolKind,
    arguments: JsonView,
    bounds: WorldBounds,
    limit: i64,
) -> Result<PlanView, Seq<char>> {
    match region_argument(arguments, limit) {
        Err(message) => Err(message),
        Ok(region) => match region_bounds_error(bounds, region) {
            Some(message) => Err(message),
            None => Ok(PlanView::Area { kind, region }),
        },
    }
}

/// A text argument that is owed, of at most `max_bytes` bytes.
pub open spec fn owed_text(arguments: JsonView, name: Seq<char>, max_bytes: nat) -> Result<
    Seq<char>,
    Seq<char>,
> {
    match bounded_text(arguments, name, max_bytes) {
        Some(value) => Ok(value),
        None => Err(
            "`"@ + name + "` must be a non-empty string of at most "@ + decimal_nat(max_bytes)
                + " bytes"@,
        ),
    }
}

/// The plan of a tool that takes a build id.
pub open spec fn build_id_plan(kind: ToolKind, arguments: JsonView) -> Result<PlanView, Seq<char>> {
    match bounded_text(arguments, "build_id"@, 128) {
        Some(build_id) => Ok(PlanView::Build { kind, build_id }),
        None => Err("build_id must be a non-empty string of at most 128 bytes"@),
    }
}

/// The plan of a tool that takes a sculpt spec.
pub open spec fn spec_plan(kind: ToolKind, arguments: JsonView) -> Result<PlanView, Seq<char>> {
    match member(arguments, "spec"@) {
        Some(value) => if value is Object {
            Ok(PlanView::Spec(kind))
        } else {
            Err("missing object argument `spec`"@)
        },
        None => Err("missing object argument `spec`"@),
    }
}

/// The version argument, where there is one.
pub open spec fn version_argument(arguments: JsonView) -> Result<Option<u32>, Seq<char>> {
    match member(arguments, "version"@) {
        None => Ok(None),
        Some(value) => match unsigned_of_value(value) {
            None => Err("`"@ + "version"@ + "` must be an unsigned integer"@),
            Some(n) => if n <= u32::MAX {
                Ok(Some(n as u32))
            } else {
                Err("`"@ + "version"@ + "` is outside u32 range"@)
            },
        },
    }
}

/// The plan of the tool that reads an asset.
pub open spec fn asset_plan(arguments: JsonView) -> Result<PlanView, Seq<char>> {
    match owed_text(arguments, "asset_id"@, 64) {
        Err(message) => Err(message),
        Ok(asset_id) => match version_argument(arguments) {
            Err(message) => Err(message),
            Ok(version) => Ok(PlanView::Asset { asset_id, version }),
        },
    }
}

/// What is answered to the name of a tool that there is not.
pub open spec fn unknown_tool_message(name: Seq<char>) -> Seq<char> {
    "unknown MCP tool `"@ + name + "`"@
}

/// The plan of a tool, by its name and arguments.
pub open spec fn tool_plan(name: Seq<char>, arguments: JsonView, bounds: WorldBounds) -> Result<
    PlanView,
    Seq<char>,
> {
    match tool_kind(name) {
        None => Err(unknown_tool_message(name)),
        Some(kind) => match kind {
            ToolKind::GetBlock | ToolKind::SetBlock | ToolKind::RemoveBlock => position_plan(
                kind,
                arguments,
                bounds,
            ),
            ToolKind::SnapshotRegion => area_plan(kind, arguments, bounds, MAX_SNAPSHOT_BLOCKS),
            ToolKind::FillRegion => area_plan(kind, arguments, bounds, MAX_FILL_BLOCKS),
            ToolKind::ValidateBuildPlan | ToolKind::ApplyBuildPlan => Ok(PlanView::BuildPlan(kind)),
            ToolKind::GetBuild | ToolKind::UndoBuild => build_id_plan(kind, arguments),
            ToolKind::ValidateSculptSpec | ToolKind::InspectAssetBudget
            | ToolKind::PublishAsset => spec_plan(kind, arguments),
            ToolKind::GetAsset => asset_plan(arguments),
            ToolKind::SpawnAsset | ToolKind::UpdateAsset => Ok(PlanView::Request(kind)),
            ToolKind::RemoveAsset => match owed_text(arguments, "instance_id"@, 128) {
                Err(message) => Err(message),
                Ok(instance_id) => Ok(PlanView::Instance { instance_id }),
            },
            _ => Ok(PlanView::Status(kind)),
        },
    }
}

/// True iff the result is the one that was to come, by what it says.
pub open spec fn is_plan(r: Result<ToolPlan, String>, expected: Result<PlanView, Seq<char>>) -> bool {
    match expected {
        Ok(view) => r matches Ok(plan) && plan@ == view,
        Err(text) => r matches Err(message) && message@ == text,
    }
}

fn plan_position(kind: ToolKind, arguments: &Json, bounds: WorldBounds) -> (r: Result<
    ToolPlan,
    String,
>)
    ensures
        is_plan(r, position_plan(kind, arguments@, bounds)),
{
    let position = match required_block_pos(arguments) {
        Ok(position) => position,
        Err(message) => return Err(message),
    };
    match ensure_in_bounds(bounds, position) {
        Ok(()) => Ok(ToolPlan::Position { kind, position }),
        Err(message) => Err(message),
    }
}

fn plan_area(kind: ToolKind, arguments: &Json, bounds: WorldBounds, limit: i64) -> (r: Result<
    ToolPlan,
    String,
>)
    ensures
        is_plan(r, area_plan(kind, arguments@, bounds, limit)),
{
    let region = match required_region(arguments, limit) {
        Ok(region) => region,
        Err(message) => return Err(message),
    };
    match ensure_region_in_bounds(bounds, region) {
        Ok(()) => Ok(ToolPlan::Area { kind, region }),
        Err(message) => Err(message),
    }
}

fn plan_build_id(kind: ToolKind, arguments: &Json) -> (r: Result<ToolPlan, String>)
    ensures
        is_plan(r, build_id_plan(kind, arguments@)),
{
    match required_build_id(arguments) {
        Ok(build_id) => Ok(ToolPlan::Build { kind, build_id: build_id.to_owned() }),
        Err(message) => Err(message),
    }
}

fn plan_asset(arguments: &Json) -> (r: Result<ToolPlan, String>)
    ensures
        is_plan(r, asset_plan(arguments@)),
{
    let asset_id = match required_string(arguments, "asset_id", 64) {
        Ok(asset_id) => asset_id.to_owned(),
        Err(message) => return Err(message),
    };
    match optional_u32(arguments, "version") {
        Ok(version) => Ok(ToolPlan::Asset { asset_id, version }),
        Err(message) => Err(message),
    }
}

/// Reads what a tool is asked to do.
pub fn plan_tool(name: &str, arguments: &Json, bounds: WorldBounds) -> (r: Result<ToolPlan, String>)
    ensures
        is_plan(r, tool_plan(name@, arguments@, bounds)),
        r matches Ok(plan) ==> plan.has_sound_region(),
{
    let kind = match tool_kind_of(name) {
        Some(kind) => kind,
        None => {
            let mut message = prefixed("unknown MCP tool `", name);
            message.append("`");
            return Err(message);
        },
    };
    match kind {
        ToolKind::GetBlock | ToolKind::SetBlock | ToolKind::RemoveBlock => plan_position(
            kind,
            arguments,
            bounds,
        ),
        ToolKind::SnapshotRegion => plan_area(kind, arguments, bounds, MAX_SNAPSHOT_BLOCKS),
        ToolKind::FillRegion => plan_area(kind, arguments, bounds, MAX_FILL_BLOCKS),
        ToolKind::ValidateBuildPlan | ToolKind::ApplyBuildPlan => Ok(ToolPlan::BuildPlan(kind)),
        ToolKind::GetBuild | ToolKind::UndoBuild => plan_build_id(kind, arguments),
        ToolKind::ValidateSculptSpec | ToolKind::InspectAssetBudget | ToolKind::PublishAsset => {
            match required_sculpt_spec(arguments) {
                Ok(_) => Ok(ToolPlan::Spec(kind)),
                Err(message) => Err(message),
            }
        },
        ToolKind::GetAsset => plan_asset(arguments),
        ToolKind::SpawnAsset | ToolKind::UpdateAsset => Ok(ToolPlan::Request(kind)),
        ToolKind::RemoveAsset => match required_string(arguments, "instance_id", 128) {
            Ok(instance_id) => Ok(ToolPlan::Instance { instance_id: instance_id.to_owned() }),
            Err(message) => Err(message),
        },
        _ => Ok(ToolPlan::Status(kind)),
    }
}

/// The columns that have to be loaded before a tool reads or edits the world.
pub open spec fn plan_columns(plan: PlanView, bounds: WorldBounds) -> Seq<(int, int)> {
    match plan {
        PlanView::Position { kind, position } => if kind == ToolKind::SetBlock {
            columns_near(bounds, position, 7)
        } else {
            seq![column_of(position.coords())]
        },
        PlanView::Area { kind, region } => {
            let low = column_of(region.min.coords());
            let high = column_of(region.max.coords());
            column_rows(low, high, span(low.1, high.1))
        },
        _ => Seq::empty(),
    }
}

/// The columns that have to be loaded before a tool reads or edits the world.
pub fn columns_for_plan(plan: &ToolPlan, bounds: WorldBounds) -> (r: Vec<ChunkColumn>)
    ensures
        column_views(r@) == plan_columns(plan@, bounds),
{
    match plan {
        ToolPlan::Position { kind, position } => if *kind == ToolKind::SetBlock {
            neighbor_columns(bounds, *position)
        } else {
            let mut columns: Vec<ChunkColumn> = Vec::new();
            columns.push(ChunkColumn::from_block_pos(*position));
            proof {
                assert(column_views(columns@) =~= seq![column_of(position.coords())]);
            }
            columns
        },
        ToolPlan::Area { kind, region } => region_columns(region.min, region.max),
        _ => {
            let columns: Vec<ChunkColumn> = Vec::new();
            proof {
                assert(column_views(columns@) =~= Seq::<(int, int)>::empty());
            }
            columns
        },
    }
}

// ---- tools that read and edit blocks ----

/// A position.
pub open spec fn position_json_view(position: BlockPos) -> JsonView {
    JsonView::Object(
        no_fields()
            .push(("x"@, integer_value(position.x as int)))
            .push(("y"@, integer_value(position.y as int)))
            .push(("z"@, integer_value(position.z as int))),
    )
}

fn position_json(position: BlockPos) -> (r: Json)
    ensures
        r@ == position_json_view(position),
{
    Fields::new()
        .with("x", integer(position.x as i64))
        .with("y", integer(position.y as i64))
        .with("z", integer(position.z as i64))
        .object()
}

/// The answer of the tool that reads a region.
pub open spec fn snapshot_view(region: Region, blocks: JsonView) -> JsonView {
    JsonView::Object(
        no_fields()
            .push(("blocks"@, blocks))
            .push(("max"@, position_json_view(region.max)))
            .push(("min"@, position_json_view(region.min)))
            .push(("volume"@, integer_value(region.spec_volume()))),
    )
}

fn snapshot_json(region: Region, blocks: Json) -> (r: Json)
    requires
        region.is_ordered(),
        region.spec_volume() <= i64::MAX,
    ensures
        r@ == snapshot_view(region, blocks@),
{
    Fields::new()
        .with("blocks", blocks)
        .with("max", position_json(region.max))
        .with("min", position_json(region.min))
        .with("volume", integer(region.volume()))
        .object()
}

/// The answer of a tool that edits one block.
pub open spec fn edited_view(block: JsonView) -> JsonView {
    JsonView::Object(no_fields().push(("block"@, block)).push(("edited"@, integer_value(1))))
}

fn edited_json(block: Json) -> (r: Json)
    ensures
        r@ == edited_view(block@),
{
    Fields::new().with("block", block).with("edited", integer(1)).object()
}

/// The answer of the tool that fills a region.
pub open spec fn fill_view(region: Region, edited: int, skipped: int, block: BlockState) -> JsonView {
    JsonView::Object(
        no_fields()
            .push(("block"@, JsonView::Text(block_name(block))))
            .push(("edited"@, integer_value(edited)))
            .push(("max"@, position_json_view(region.max)))
            .push(("min"@, position_json_view(region.min)))
            .push(("skipped"@, integer_value(skipped))),
    )
}

fn fill_json(region: Region, edited: usize, skipped: usize, block: BlockState) -> (r: Json)
    requires
        valid_state(block),
    ensures
        r@ == fill_view(region, edited as int, skipped as int, block),
{
    Fields::new()
        .with("block", text(block_state_name(block).as_str()))
        .with("edited", unsigned(edited as u64))
        .with("max", position_json(region.max))
        .with("min", position_json(region.min))
        .with("skipped", unsigned(skipped as u64))
        .object()
}

/// The blocks of a region, one answer each: the first `n`.
pub open spec fn snapshot_blocks(w: WorldView, region: Region, n: int) -> Seq<JsonView>
    decreases n,
{
    if n <= 0 {
        no_items()
    } else {
        let p = region_cell(region, false, n - 1);
        snapshot_blocks(w, region, n - 1).push(block_json_view(p, w.block(p.coords())))
    }
}

/// The answer of the tool that reads one block.
pub fn get_block(layer: &valence::ChunkLayer, position: BlockPos) -> (r: Json)
    requires
        whole_sections(*layer),
    ensures
        r@ == block_json_view(position, world(*layer).block(position.coords())),
{
    block_json(position, block_state_at(layer, position))
}

/// The answer of the tool that reads a region.
pub fn snapshot_region(layer: &valence::ChunkLayer, region: Region) -> (r: Json)
    requires
        whole_sections(*layer),
        region.is_ordered(),
        region.spec_volume() <= i64::MAX,
    ensures
        r@ == snapshot_view(
            region,
            JsonView::Array(snapshot_blocks(world(*layer), region, region.spec_volume())),
        ),
{
    let ghost w = world(*layer);
    let positions = region_positions(region, false);
    let mut blocks = Items::new();
    let mut i: usize = 0;
    while i < positions.len()
        invariant
            i <= positions@.len(),
            whole_sections(*layer),
            w == world(*layer),
            positions@.len() == region.spec_volume(),
            forall|k: int|
                0 <= k < positions@.len() ==> #[trigger] positions@[k] == region_cell(
                    region,
                    false,
                    k,
                ),
            blocks@ == snapshot_blocks(w, region, i as int),
        decreases positions@.len() - i,
    {
        let position = positions[i];
        blocks = blocks.with(block_json(position, block_state_at(layer, position)));
        i = i + 1;
    }
    snapshot_json(region, blocks.array())
}

/// What a tool came to: what is answered, and the edits to be saved, also where it failed.
pub struct ToolAnswer {
    pub edits: Vec<BlockEdit>,
    pub answer: Result<Json, String>,
}

/// True iff the tool only read something, and answers it.
pub open spec fn is_reading(
    before: WorldView,
    after: WorldView,
    marks_before: LifecycleView,
    marks_after: LifecycleView,
    answer: JsonView,
    r: ToolAnswer,
) -> bool {
    &&& r.answer matches Ok(json)
    &&& json@ == answer
    &&& r.edits@.len() == 0
    &&& after == before
    &&& marks_after == marks_before
}

/// True iff the tool was refused and nothing changed.
pub open spec fn is_refusal(
    before: WorldView,
    after: WorldView,
    marks_before: LifecycleView,
    marks_after: LifecycleView,
    error: Seq<char>,
    r: ToolAnswer,
) -> bool {
    &&& r.answer matches Err(message)
    &&& message@ == error
    &&& r.edits@.len() == 0
    &&& after == before
    &&& marks_after == marks_before
}

/// True iff a tool's command was carried out, the column marked and the new block answered, or it
/// was refused and nothing changed.
pub open spec fn is_tool_edit(
    before: WorldView,
    after: WorldView,
    marks_before: LifecycleView,
    marks_after: LifecycleView,
    bounds: WorldBounds,
    command: WorldCommand,
    r: ToolAnswer,
) -> bool {
    match tool_error_of(before, bounds, command) {
        Some(error) => is_refusal(
            before,
            after,
            marks_before,
            marks_after,
            error.spec_message(),
            r,
        ),
        None => {
            let p = command.target();
            &&& r.edits@ == seq![edit_of(command)]
            &&& after == before.set(p.coords(), command.result_block())
            &&& r.answer matches Ok(answer)
            &&& answer@ == edited_view(block_json_view(p, after.block(p.coords())))
            &&& marks_after == marks_before.after_dirty(column_of(p.coords()))
        },
    }
}

fn edit_answer(layer: &valence::ChunkLayer, edit: BlockEdit) -> (r: ToolAnswer)
    requires
        whole_sections(*layer),
    ensures
        r.edits@ == seq![edit],
        r.answer matches Ok(answer) && answer@ == edited_view(
            block_json_view(edit.position, world(*layer).block(edit.position.coords())),
        ),
{
    let mut edits: Vec<BlockEdit> = Vec::new();
    edits.push(edit);
    proof {
        assert(edits@ =~= seq![edit]);
    }
    ToolAnswer { edits, answer: Ok(edited_json(get_block(layer, edit.position))) }
}

fn refusal(message: String) -> (r: ToolAnswer)
    ensures
        r.edits@.len() == 0,
        r.answer == Err::<Json, String>(message),
{
    ToolAnswer { edits: Vec::new(), answer: Err(message) }
}

fn reading(answer: Json) -> (r: ToolAnswer)
    ensures
        r.edits@.len() == 0,
        r.answer == Ok::<Json, String>(answer),
{
    ToolAnswer { edits: Vec::new(), answer: Ok(answer) }
}

/// True iff the block that the arguments name was placed, or it was refused: air is not placed.
pub open spec fn is_placement(
    before: WorldView,
    after: WorldView,
    marks_before: LifecycleView,
    marks_after: LifecycleView,
    bounds: WorldBounds,
    position: BlockPos,
    arguments: JsonView,
    r: ToolAnswer,
) -> bool {
    match block_argument(arguments) {
        Err(text) => is_refusal(before, after, marks_before, marks_after, text, r),
        Ok(block) => if block == AIR {
            is_refusal(
                before,
                after,
                marks_before,
                marks_after,
                "set_block does not accept air; use remove_block"@,
                r,
            )
        } else {
            is_tool_edit(
                before,
                after,
                marks_before,
                marks_after,
                bounds,
                WorldCommand::SetBlock { position, block },
                r,
            )
        },
    }
}

/// The tool that places one block: the block is named in the arguments, and is not air.
pub fn set_block(
    layer: &mut valence::ChunkLayer,
    bounds: WorldBounds,
    lifecycle: &mut ChunkLifecycle,
    position: BlockPos,
    arguments: &Json,
) -> (r: ToolAnswer)
    requires
        whole_sections(*old(layer)),
        old(lifecycle).wf(),
    ensures
        whole_sections(*final(layer)),
        final(lifecycle).wf(),
        is_placement(
            world(*old(layer)),
            world(*final(layer)),
            old(lifecycle)@,
            final(lifecycle)@,
            bounds,
            position,
            arguments@,
            r,
        ),
{
    let block = match required_block_state(arguments) {
        Ok(block) => block,
        Err(message) => return refusal(message),
    };
    if block == AIR {
        return refusal("set_block does not accept air; use remove_block".to_owned());
    }
    match set_block_via_world_command(layer, bounds, position, block) {
        Ok(edit) => {
            lifecycle.mark_dirty(ChunkColumn::from_block_pos(position));
            edit_answer(layer, edit)
        },
        Err(message) => refusal(message),
    }
}

/// The tool that removes one block.
pub fn remove_block(
    layer: &mut valence::ChunkLayer,
    bounds: WorldBounds,
    lifecycle: &mut ChunkLifecycle,
    position: BlockPos,
) -> (r: ToolAnswer)
    requires
        whole_sections(*old(layer)),
        old(lifecycle).wf(),
    ensures
        whole_sections(*final(layer)),
        final(lifecycle).wf(),
        is_tool_edit(
            world(*old(layer)),
            world(*final(layer)),
            old(lifecycle)@,
            final(lifecycle)@,
            bounds,
            WorldCommand::RemoveBlock { position },
            r,
        ),
{
    match remove_block_via_world_command(layer, bounds, position) {
        Ok(edit) => {
            lifecycle.mark_dirty(ChunkColumn::from_block_pos(position));
            edit_answer(layer, edit)
        },
        Err(message) => refusal(message),
    }
}

/// The counters after the columns of the first `n` positions of a region were marked.
pub open spec fn marked_region(
    marks: LifecycleView,
    region: Region,
    reverse_y: bool,
    n: int,
) -> LifecycleView
    decreases n,
{
    if n <= 0 {
        marks
    } else {
        marked_region(marks, region, reverse_y, n - 1).after_dirty(
            column_of(region_cell(region, reverse_y, n - 1).coords()),
        )
    }
}

/// True iff a region was filled with the block that the arguments name, as far as that goes. The
/// columns are marked where the fill comes to its end.
pub open spec fn is_filling(
    before: WorldView,
    after: WorldView,
    marks_before: LifecycleView,
    marks_after: LifecycleView,
    bounds: WorldBounds,
    region: Region,
    arguments: JsonView,
    r: ToolAnswer,
) -> bool {
    match block_argument(arguments) {
        Err(text) => is_refusal(before, after, marks_before, marks_after, text, r),
        Ok(block) => {
            let n = region.spec_volume();
            let state = filled(before, bounds, region, block, n);
            &&& after == state.w
            &&& r.edits@ == state.edits
            &&& match state.error {
                Some(text) => r.answer matches Err(message) && message@ == text && marks_after
                    == marks_before,
                None => r.answer matches Ok(answer) && answer@ == fill_view(
                    region,
                    state.edits.len() as int,
                    state.skipped as int,
                    block,
                ) && marks_after == marked_region(marks_before, region, block == AIR, n),
            }
        },
    }
}

/// The tool that fills a region: the block is named in the arguments, and air removes blocks.
pub fn fill_region(
    layer: &mut valence::ChunkLayer,
    bounds: WorldBounds,
    lifecycle: &mut ChunkLifecycle,
    region: Region,
    arguments: &Json,
) -> (r: ToolAnswer)
    requires
        whole_sections(*old(layer)),
        old(lifecycle).wf(),
        region.is_ordered(),
        region.spec_volume() <= i64::MAX,
    ensures
        whole_sections(*final(layer)),
        final(lifecycle).wf(),
        is_filling(
            world(*old(layer)),
            world(*final(layer)),
            old(lifecycle)@,
            final(lifecycle)@,
            bounds,
            region,
            arguments@,
            r,
        ),
{
    let block = match required_block_state(arguments) {
        Ok(block) => block,
        Err(message) => return refusal(message),
    };
    let outcome = fill_region_via_world_command(layer, bounds, region, block);
    if let Some(message) = outcome.error {
        return ToolAnswer { edits: outcome.edits, answer: Err(message) };
    }
    let ghost marks = lifecycle@;
    let positions = region_positions(region, block == AIR);
    let mut i: usize = 0;
    while i < positions.len()
        invariant
            i <= positions@.len(),
            lifecycle.wf(),
            positions@.len() == region.spec_volume(),
            forall|k: int|
                0 <= k < positions@.len() ==> #[trigger] positions@[k] == region_cell(
                    region,
                    block == AIR,
                    k,
                ),
            lifecycle@ == marked_region(marks, region, block == AIR, i as int),
        decreases positions@.len() - i,
    {
        lifecycle.mark_dirty(ChunkColumn::from_block_pos(positions[i]));
        i = i + 1;
    }
    let answer = fill_json(region, outcome.edits.len(), outcome.skipped, block);
    ToolAnswer { edits: outcome.edits, answer: Ok(answer) }
}

// ---- what is said of the server ----

/// The bounds of the world.
pub open spec fn world_bounds_json_view(bounds: WorldBounds) -> JsonView {
    JsonView::Object(
        no_fields()
            .push(("max_x"@, integer_value(bounds.max_x as int)))
            .push(("max_y"@, integer_value(bounds.max_y as int)))
            .push(("max_z"@, integer_value(bounds.max_z as int)))
            .push(("min_x"@, integer_value(bounds.min_x as int)))
            .push(("min_y"@, integer_value(bounds.min_y as int)))
            .push(("min_z"@, integer_value(bounds.min_z as int))),
    )
}

pub fn world_bounds_json(bounds: WorldBounds) -> (r: Json)
    ensures
        r@ == world_bounds_json_view(bounds),
{
    Fields::new()
        .with("max_x", integer(bounds.max_x as i64))
        .with("max_y", integer(bounds.max_y as i64))
        .with("max_z", integer(bounds.max_z as i64))
        .with("min_x", integer(bounds.min_x as i64))
        .with("min_y", integer(bounds.min_y as i64))
        .with("min_z", integer(bounds.min_z as i64))
        .object()
}

/// The counters of the loaded columns.
pub open spec fn chunk_lifecycle_json_view(lifecycle: ChunkLifecycle) -> JsonView {
    JsonView::Object(
        no_fields()
            .push(("dirty_chunks_marked"@, integer_value(lifecycle.dirty_chunks_marked as int)))
            .push(("generated_chunks"@, integer_value(lifecycle.generated_chunks as int)))
            .push(("loaded_chunks"@, integer_value(lifecycle.loaded.spec_keys().len() as int)))
            .push((
                "storage_loaded_chunks"@,
                integer_value(lifecycle.storage_loaded_chunks as int),
            ))
            .push(("unloaded_chunks"@, integer_value(lifecycle.unloaded_chunks as int))),
    )
}

pub fn chunk_lifecycle_json(lifecycle: &ChunkLifecycle) -> (r: Json)
    ensures
        r@ == chunk_lifecycle_json_view(*lifecycle),
{
    Fields::new()
        .with("dirty_chunks_marked", unsigned(lifecycle.dirty_chunks_marked))
        .with("generated_chunks", unsigned(lifecycle.generated_chunks))
        .with("loaded_chunks", unsigned(lifecycle.loaded.len() as u64))
        .with("storage_loaded_chunks", unsigned(lifecycle.storage_loaded_chunks))
        .with("unloaded_chunks", unsigned(lifecycle.unloaded_chunks))
        .object()
}

/// What is said of the storage.
pub open spec fn storage_json_view(stats: PersistenceStatsSnapshot, database_path: Seq<char>, region_dir: Seq<char>) -> JsonView {
    JsonView::Object(
        no_fields()
            .push(("backend"@, JsonView::Text(stats.storage_backend@)))
            .push(("database_path"@, JsonView::Text(database_path)))
            .push(("dirty_chunks"@, integer_value(stats.dirty_chunks as int)))
            .push(("failed_flushes"@, integer_value(stats.failed_flushes as int)))
            .push(("flush_batches"@, integer_value(stats.flush_batches as int)))
            .push(("flushed_edits"@, integer_value(stats.flushed_edits as int)))
            .push((
                "loaded_legacy_overrides"@,
                integer_value(stats.loaded_legacy_overrides as int),
            ))
            .push(("pending_edits"@, integer_value(stats.pending_edits as int)))
            .push(("region_dir"@, JsonView::Text(region_dir)))
            .push(("save_format_version"@, integer_value(stats.save_format_version as int)))
            .push(("schema_version"@, integer_value(stats.schema_version as int))),
    )
}

pub fn storage_json(
    stats: &PersistenceStatsSnapshot,
    database_path: &str,
    region_dir: &str,
) -> (r: Json)
    ensures
        r@ == storage_json_view(*stats, database_path@, region_dir@),
{
    Fields::new()
        .with("backend", text(stats.storage_backend))
        .with("database_path", text(database_path))
        .with("dirty_chunks", unsigned(stats.dirty_chunks as u64))
        .with("failed_flushes", unsigned(stats.failed_flushes))
        .with("flush_batches", unsigned(stats.flush_batches))
        .with("flushed_edits", unsigned(stats.flushed_edits))
        .with("loaded_legacy_overrides", unsigned(stats.loaded_legacy_overrides as u64))
        .with("pending_edits", unsigned(stats.pending_edits as u64))
        .with("region_dir", text(region_dir))
        .with("save_format_version", integer(stats.save_format_version))
        .with("schema_version", integer(stats.schema_version))
        .object()
}

/// What is said of the bridge.
pub open spec fn bridge_json_view(address: Seq<char>, config: BridgeConfig) -> JsonView {
    JsonView::Object(
        no_fields()
            .push(("endpoint"@, JsonView::Text("http://"@ + address)))
            .push((
                "max_pending_connections"@,
                integer_value(config.max_pending_connections as int),
            ))
            .push((
                "tcp_read_buffer_bytes"@,
                integer_value(config.tcp_read_buffer_bytes as int),
            ))
            .push(("ws_queue_capacity"@, integer_value(config.ws_queue_capacity as int))),
    )
}

pub fn bridge_json(address: &str, config: BridgeConfig) -> (r: Json)
    ensures
        r@ == bridge_json_view(address@, config),
{
    Fields::new()
        .with("endpoint", text(prefixed("http://", address).as_str()))
        .with("max_pending_connections", unsigned(config.max_pending_connections as u64))
        .with("tcp_read_buffer_bytes", unsigned(config.tcp_read_buffer_bytes as u64))
        .with("ws_queue_capacity", unsigned(config.ws_queue_capacity as u64))
        .object()
}

/// What is said of the players and the columns that they see.
pub open spec fn network_json_view(players: JsonView, view_distance_chunks: u8, loaded_chunks: usize, world_chunk_columns: u64) -> JsonView {
    JsonView::Object(
        no_fields()
            .push((
                "interest_chunks_per_player"@,
                integer_value((2 * view_distance_chunks + 1) * (2 * view_distance_chunks + 1)),
            ))
            .push(("loaded_chunks"@, integer_value(loaded_chunks as int)))
            .push(("players"@, players))
            .push(("view_distance_chunks"@, integer_value(view_distance_chunks as int)))
            .push(("world_chunk_columns"@, integer_value(world_chunk_columns as int))),
    )
}

pub fn network_json(
    players: Json,
    view_distance_chunks: u8,
    loaded_chunks: usize,
    world_chunk_columns: u64,
) -> (r: Json)
    ensures
        r@ == network_json_view(players@, view_distance_chunks, loaded_chunks, world_chunk_columns),
{
    Fields::new()
        .with(
            "interest_chunks_per_player",
            unsigned(interest_chunk_capacity(view_distance_chunks) as u64),
        )
        .with("loaded_chunks", unsigned(loaded_chunks as u64))
        .with("players", players)
        .with("view_distance_chunks", unsigned(view_distance_chunks as u64))
        .with("world_chunk_columns", unsigned(world_chunk_columns))
        .object()
}

/// What is said of the time that ticks take.
pub open spec fn performance_json_view(tick: i64, last: JsonView, average: JsonView, longest: JsonView, window_samples: usize) -> JsonView {
    JsonView::Object(
        no_fields()
            .push(("avg_mspt"@, average))
            .push(("last_mspt"@, last))
            .push(("max_mspt"@, longest))
            .push(("telemetry_interval_ticks"@, integer_value(TELEMETRY_INTERVAL_TICKS as int)))
            .push(("tick"@, integer_value(tick as int)))
            .push(("window_samples"@, integer_value(window_samples as int))),
    )
}

pub fn performance_json(
    tick: i64,
    last: Json,
    average: Json,
    longest: Json,
    window_samples: usize,
) -> (r: Json)
    ensures
        r@ == performance_json_view(tick, last@, average@, longest@, window_samples),
{
    Fields::new()
        .with("avg_mspt", average)
        .with("last_mspt", last)
        .with("max_mspt", longest)
        .with("telemetry_interval_ticks", integer(TELEMETRY_INTERVAL_TICKS))
        .with("tick", integer(tick))
        .with("window_samples", unsigned(window_samples as u64))
        .object()
}

/// What is measured of a player's ping.
pub open spec fn ping_view(ping_ms: Option<i32>) -> JsonView {
    match ping_ms {
        Some(ping) => integer_value(ping as int),
        None => JsonView::Null,
    }
}

fn ping_json(ping_ms: Option<i32>) -> (r: Json)
    ensures
        r@ == ping_view(ping_ms),
{
    match ping_ms {
        Some(ping) => integer(ping as i64),
        None => Json::Null,
    }
}

/// A connected player.
pub open spec fn player_json_view(username: Seq<char>, position: JsonView, ping_ms: Option<i32>) -> JsonView {
    JsonView::Object(
        no_fields()
            .push(("ping_ms"@, ping_view(ping_ms)))
            .push(("position"@, position))
            .push(("username"@, JsonView::Text(username))),
    )
}

pub fn player_json(username: &str, position: Json, ping_ms: Option<i32>) -> (r: Json)
    ensures
        r@ == player_json_view(username@, position@, ping_ms),
{
    Fields::new()
        .with("ping_ms", ping_json(ping_ms))
        .with("position", position)
        .with("username", text(username))
        .object()
}

/// The answer of the tool that lists players.
pub open spec fn players_json_view(players: JsonView) -> JsonView {
    JsonView::Object(no_fields().push(("players"@, players)))
}

pub fn players_json(players: Json) -> (r: Json)
    ensures
        r@ == players_json_view(players@),
{
    Fields::new().with("players", players).object()
}

/// The parts of the server's status that are put together elsewhere.
pub struct StatusParts {
    pub performance: Json,
    pub network: Json,
    pub storage: Json,
    pub chunk_lifecycle: Json,
    pub bridge: Json,
}

fn mcp_endpoint(address: &str) -> (r: String)
    ensures
        r@ == "http://"@ + address@ + "/mcp"@,
{
    let mut endpoint = prefixed("http://", address);
    endpoint.append("/mcp");
    endpoint
}

/// The status of the server.
pub open spec fn server_status_json_view(tick: i64, connected_players: usize, bounds: WorldBounds, database_path: Seq<char>, address: Seq<char>, parts: StatusParts) -> JsonView {
    JsonView::Object(
        no_fields()
            .push(("bridge"@, parts.bridge@))
            .push(("chunk_lifecycle"@, parts.chunk_lifecycle@))
            .push(("connected_players"@, integer_value(connected_players as int)))
            .push(("database_path"@, JsonView::Text(database_path)))
            .push(("mcp_endpoint"@, JsonView::Text("http://"@ + address + "/mcp"@)))
            .push(("network"@, parts.network@))
            .push(("performance"@, parts.performance@))
            .push(("storage"@, parts.storage@))
            .push(("tick"@, integer_value(tick as int)))
            .push(("world_bounds"@, world_bounds_json_view(bounds))),
    )
}

pub fn server_status_json(
    tick: i64,
    connected_players: usize,
    bounds: WorldBounds,
    database_path: &str,
    address: &str,
    parts: StatusParts,
) -> (r: Json)
    ensures
        r@ == server_status_json_view(tick, connected_players, bounds, database_path@, address@, parts),
{
    Fields::new()
        .with("bridge", parts.bridge)
        .with("chunk_lifecycle", parts.chunk_lifecycle)
        .with("connected_players", unsigned(connected_players as u64))
        .with("database_path", text(database_path))
        .with("mcp_endpoint", text(mcp_endpoint(address).as_str()))
        .with("network", parts.network)
        .with("performance", parts.performance)
        .with("storage", parts.storage)
        .with("tick", integer(tick))
        .with("world_bounds", world_bounds_json(bounds))
        .object()
}

/// A block of the palette.
pub open spec fn palette_entry_json_view(entry: BuildPaletteEntry) -> JsonView {
    JsonView::Object(
        no_fields()
            .push(("family"@, JsonView::Text(entry.family@)))
            .push(("name"@, JsonView::Text(entry.name@)))
            .push(("opacity"@, JsonView::Text(entry.opacity@)))
            .push(("representative_rgb"@, JsonView::Text(entry.representative_rgb@))),
    )
}

fn palette_entry_json(entry: BuildPaletteEntry) -> (r: Json)
    ensures
        r@ == palette_entry_json_view(entry),
{
    Fields::new()
        .with("family", text(entry.family))
        .with("name", text(entry.name))
        .with("opacity", text(entry.opacity))
        .with("representative_rgb", text(entry.representative_rgb))
        .object()
}

/// The blocks of the palette by name: the first `n`.
pub open spec fn palette_items(n: int) -> Seq<JsonView>
    decreases n,
{
    if n <= 0 {
        no_items()
    } else {
        let entries = sorted_entries(palette(), palette().len() as int);
        palette_items(n - 1).push(palette_entry_json_view(entries[n - 1]))
    }
}

/// The answer of the tool that lists the palette.
pub open spec fn palette_view() -> JsonView {
    JsonView::Object(
        no_fields()
            .push((
                "blocks"@,
                JsonView::Array(palette_items(sorted_entries(palette(), palette().len() as int).len() as int)),
            ))
            .push(("minecraft_version"@, JsonView::Text(MINECRAFT_VERSION@)))
            .push(("palette_version"@, integer_value(BUILD_PALETTE_VERSION as int))),
    )
}

/// The answer of the tool that lists the palette.
pub fn palette_json() -> (r: Json)
    ensures
        r@ == palette_view(),
{
    let entries = build_palette_entries();
    let mut blocks = Items::new();
    let mut i: usize = 0;
    while i < entries.len()
        invariant
            i <= entries@.len(),
            entries@ == sorted_entries(palette(), palette().len() as int),
            blocks@ == palette_items(i as int),
        decreases entries@.len() - i,
    {
        blocks = blocks.with(palette_entry_json(entries[i]));
        i = i + 1;
    }
    Fields::new()
        .with("blocks", blocks.array())
        .with("minecraft_version", text(MINECRAFT_VERSION))
        .with("palette_version", unsigned(BUILD_PALETTE_VERSION as u64))
        .object()
}

/// A player, as telemetry shows them.
#[derive(Debug, PartialEq, Eq)]
pub struct PlayerTelemetry {
    pub username: String,
    pub ping_ms: i32,
}

/// The text of one player's ping; a negative one has not been measured yet.
pub open spec fn ping_text(player: PlayerTelemetry) -> Seq<char> {
    player.username@ + "="@ + if player.ping_ms >= 0 {
        decimal(player.ping_ms as int) + "ms"@
    } else {
        "pending"@
    }
}

/// The pings of the first `n` players, with commas between them.
pub open spec fn pings_text(players: Seq<PlayerTelemetry>, n: int) -> Seq<char>
    decreases n,
{
    if n <= 0 {
        Seq::empty()
    } else if n == 1 {
        ping_text(players[0])
    } else {
        pings_text(players, n - 1) + ", "@ + ping_text(players[n - 1])
    }
}

/// The pings of the players, or that there are none.
pub open spec fn player_pings(players: Seq<PlayerTelemetry>) -> Seq<char> {
    if players.len() == 0 {
        "no connected players"@
    } else {
        pings_text(players, players.len() as int)
    }
}

fn push_ping(out: &mut String, player: &PlayerTelemetry)
    ensures
        final(out)@ == old(out)@ + ping_text(*player),
{
    let ghost start = out@;
    out.append(player.username.as_str());
    out.append("=");
    if player.ping_ms >= 0 {
        push_i64(out, player.ping_ms as i64);
        out.append("ms");
    } else {
        out.append("pending");
    }
    proof {
        assert(out@ =~= start + ping_text(*player));
    }
}

pub fn format_player_pings(players: &Vec<PlayerTelemetry>) -> (r: String)
    ensures
        r@ == player_pings(players@),
{
    if players.len() == 0 {
        return "no connected players".to_owned();
    }
    let mut out = String::new();
    let mut i: usize = 0;
    while i < players.len()
        invariant
            i <= players@.len(),
            out@ =~= pings_text(players@, i as int),
        decreases players@.len() - i,
    {
        if i > 0 {
            out.append(", ");
        }
        push_ping(&mut out, &players[i]);
        i = i + 1;
    }
    out
}

pub fn telemetry_header(tick: i64, players: usize, view_distance_chunks: u8) -> (r: String)
    ensures
        r@ == "World Loom V3 | tick "@ + decimal(tick as int) + " | players "@ + decimal_nat(
            players as nat,
        ) + " | view "@ + decimal_nat(view_distance_chunks as nat) + " chunks"@,
{
    let mut out = "World Loom V3 | tick ".to_owned();
    push_i64(&mut out, tick);
    out.append(" | players ");
    push_u64(&mut out, players as u64);
    out.append(" | view ");
    push_u64(&mut out, view_distance_chunks as u64);
    out.append(" chunks");
    out
}

/// The milliseconds per tick, as texts with two decimals.
pub struct TickTimes {
    pub last: String,
    pub average: String,
    pub longest: String,
}

pub fn telemetry_footer(
    times: &TickTimes,
    loaded_chunks: usize,
    world_chunk_columns: u64,
    players: &Vec<PlayerTelemetry>,
) -> (r: String)
    ensures
        r@ == "MSPT last "@ + times.last@ + " avg "@ + times.average@ + " max "@ + times.longest@
            + " | chunks "@ + decimal_nat(loaded_chunks as nat) + "/"@ + decimal_nat(
            world_chunk_columns as nat,
        ) + " | "@ + player_pings(players@),
{
    let mut out = "MSPT last ".to_owned();
    out.append(times.last.as_str());
    out.append(" avg ");
    out.append(times.average.as_str());
    out.append(" max ");
    out.append(times.longest.as_str());
    out.append(" | chunks ");
    push_u64(&mut out, loaded_chunks as u64);
    out.append("/");
    push_u64(&mut out, world_chunk_columns);
    out.append(" | ");
    out.append(format_player_pings(players).as_str());
    out
}

pub fn telemetry_action_bar(tick: i64, times: &TickTimes, players: usize, loaded_chunks: usize) -> (r:
    String)
    ensures
        r@ == "V3 tick "@ + decimal(tick as int) + " | MSPT "@ + times.last@ + "/"@ + times.average@
            + " avg | "@ + decimal_nat(players as nat) + " players | "@ + decimal_nat(
            loaded_chunks as nat,
        ) + " chunks"@,
{
    let mut out = "V3 tick ".to_owned();
    push_i64(&mut out, tick);
    out.append(" | MSPT ");
    out.append(times.last.as_str());
    out.append("/");
    out.append(times.average.as_str());
    out.append(" avg | ");
    push_u64(&mut out, players as u64);
    out.append(" players | ");
    push_u64(&mut out, loaded_chunks as u64);
    out.append(" chunks");
    out
}

/// True iff telemetry is to be shown in this tick, by the tick in which it was shown last.
pub open spec fn telemetry_due(last_tick: Option<i64>, tick: i64) -> bool {
    last_tick != Some(tick) && tick as int % TELEMETRY_INTERVAL_TICKS as int == 0
}

/// True iff telemetry is to be shown in this tick, by the tick in which it was shown last.
pub fn is_telemetry_due(last_tick: Option<i64>, tick: i64) -> (r: bool)
    ensures
        r == telemetry_due(last_tick, tick),
        r == (last_tick != Some(tick) && tick as int % TELEMETRY_INTERVAL_TICKS as int == 0),
{
    if let Some(last) = last_tick {
        if last == tick {
            return false;
        }
    }
    if tick >= 0 {
        tick as u64 % 20 == 0
    } else {
        (-(tick + 1)) as u64 % 20 == 19
    }
}

// ---- the tools that the world answers ----

/// True iff the tool was carried out by what is known of the world alone, or it needs the storage,
/// the catalog or the clients and nothing was done.
pub open spec fn is_tool_step(
    before: WorldView,
    after: WorldView,
    marks_before: LifecycleView,
    marks_after: LifecycleView,
    bounds: WorldBounds,
    plan: PlanView,
    arguments: JsonView,
    r: Option<ToolAnswer>,
) -> bool {
    match plan {
        PlanView::Position { kind, position } => r matches Some(done) && match kind {
            ToolKind::SetBlock => is_placement(
                before,
                after,
                marks_before,
                marks_after,
                bounds,
                position,
                arguments,
                done,
            ),
            ToolKind::RemoveBlock => is_tool_edit(
                before,
                after,
                marks_before,
                marks_after,
                bounds,
                WorldCommand::RemoveBlock { position },
                done,
            ),
            _ => is_reading(
                before,
                after,
                marks_before,
                marks_after,
                block_json_view(position, before.block(position.coords())),
                done,
            ),
        },
        PlanView::Area { kind, region } => r matches Some(done) && if kind == ToolKind::FillRegion {
            is_filling(
                before,
                after,
                marks_before,
                marks_after,
                bounds,
                region,
                arguments,
                done,
            )
        } else {
            is_reading(
                before,
                after,
                marks_before,
                marks_after,
                snapshot_view(
                    region,
                    JsonView::Array(snapshot_blocks(before, region, region.spec_volume())),
                ),
                done,
            )
        },
        PlanView::Status(ToolKind::GetWorldBounds) => r matches Some(done) && is_reading(
            before,
            after,
            marks_before,
            marks_after,
            world_bounds_json_view(bounds),
            done,
        ),
        PlanView::Status(ToolKind::ListBuildPalette) => r matches Some(done) && is_reading(
            before,
            after,
            marks_before,
            marks_after,
            palette_view(),
            done,
        ),
        _ => r is None && after == before && marks_after == marks_before,
    }
}

/// Carries a tool out, once its columns are loaded; nothing where it needs more than the world.
pub fn handle_mcp_tool(
    plan: &ToolPlan,
    layer: &mut valence::ChunkLayer,
    bounds: WorldBounds,
    lifecycle: &mut ChunkLifecycle,
    arguments: &Json,
) -> (r: Option<ToolAnswer>)
    requires
        whole_sections(*old(layer)),
        old(lifecycle).wf(),
        plan.has_sound_region(),
    ensures
        whole_sections(*final(layer)),
        final(lifecycle).wf(),
        is_tool_step(
            world(*old(layer)),
            world(*final(layer)),
            old(lifecycle)@,
            final(lifecycle)@,
            bounds,
            plan@,
            arguments@,
            r,
        ),
{
    match plan {
        ToolPlan::Position { kind, position } => match kind {
            ToolKind::SetBlock => Some(set_block(layer, bounds, lifecycle, *position, arguments)),
            ToolKind::RemoveBlock => Some(remove_block(layer, bounds, lifecycle, *position)),
            _ => Some(reading(get_block(layer, *position))),
        },
        ToolPlan::Area { kind, region } => match kind {
            ToolKind::FillRegion => Some(
                fill_region(layer, bounds, lifecycle, *region, arguments),
            ),
            _ => Some(reading(snapshot_region(layer, *region))),
        },
        ToolPlan::Status(ToolKind::GetWorldBounds) => Some(reading(world_bounds_json(bounds))),
        ToolPlan::Status(ToolKind::ListBuildPalette) => Some(reading(palette_json())),
        _ => None,
    }
}

// ---- laws ----

/// Every tool that is listed can be planned, and no other.
pub proof fn listed_tools_are_planned(name: Seq<char>)
    ensures
        known_tool(name) == tool_kind(name) is Some,
{
    assert(tools()[0].name@ == "server_status"@);
    assert(tools()[1].name@ == "list_players"@);
    assert(tools()[2].name@ == "get_world_bounds"@);
    assert(tools()[3].name@ == "list_build_palette"@);
    assert(tools()[4].name@ == "get_block"@);
    assert(tools()[5].name@ == "snapshot_region"@);
    assert(tools()[6].name@ == "set_block"@);
    assert(tools()[7].name@ == "remove_block"@);
    assert(tools()[8].name@ == "fill_region"@);
    assert(tools()[9].name@ == "validate_build_plan"@);
    assert(tools()[10].name@ == "apply_build_plan"@);
    assert(tools()[11].name@ == "get_build"@);
    assert(tools()[12].name@ == "undo_build"@);
    assert(tools()[13].name@ == "validate_sculpt_spec"@);
    assert(tools()[14].name@ == "inspect_asset_budget"@);
    assert(tools()[15].name@ == "publish_asset"@);
    assert(tools()[16].name@ == "list_assets"@);
    assert(tools()[17].name@ == "get_asset"@);
    assert(tools()[18].name@ == "spawn_asset"@);
    assert(tools()[19].name@ == "update_asset"@);
    assert(tools()[20].name@ == "remove_asset"@);
    assert(tools()[21].name@ == "list_asset_instances"@);
    if known_tool(name) {
        let i = choose|i: int| 0 <= i < tools().len() && (#[trigger] tools()[i]).name@ == name;
        listed_name(i);
    }
}

/// A listed tool is planned, or fails for a reason of its own: it is never answered that there is no
/// such tool.
pub proof fn listed_tools_are_never_unknown(
    name: Seq<char>,
    arguments: JsonView,
    bounds: WorldBounds,
)
    requires
        known_tool(name),
    ensures
        tool_plan(name, arguments, bounds) matches Err(message) ==> message
            != unknown_tool_message(name),
{
    listed_tools_are_planned(name);
    if let Err(message) = tool_plan(name, arguments, bounds) {
        plans_fail_for_own_reasons(name, arguments, bounds);
        own_reasons_differ(message, name);
    }
}

/// A tool that is carried out on the world answers, or fails for a reason of its own: it is never
/// answered that there is no such tool.
pub proof fn carried_out_tools_are_never_unknown(
    before: WorldView,
    after: WorldView,
    marks_before: LifecycleView,
    marks_after: LifecycleView,
    bounds: WorldBounds,
    plan: PlanView,
    arguments: JsonView,
    done: ToolAnswer,
    name: Seq<char>,
)
    requires
        is_tool_step(
            before,
            after,
            marks_before,
            marks_after,
            bounds,
            plan,
            arguments,
            Some(done),
        ),
    ensures
        done.answer matches Err(message) ==> message@ != unknown_tool_message(name),
{
    if let Err(message) = done.answer {
        block_arguments_fail_for_own_reasons(arguments);
        reveal_strlit("set_block does not accept air; use remove_block");
        match plan {
            PlanView::Position { kind, position } => {
                commands_fail_for_own_reasons(
                    before,
                    bounds,
                    WorldCommand::RemoveBlock { position },
                );
                if let Ok(block) = block_argument(arguments) {
                    commands_fail_for_own_reasons(
                        before,
                        bounds,
                        WorldCommand::SetBlock { position, block },
                    );
                }
            },
            PlanView::Area { kind, region } => {
                if let Ok(block) = block_argument(arguments) {
                    fills_fail_for_own_reasons(
                        before,
                        bounds,
                        region,
                        block,
                        region.spec_volume(),
                    );
                }
            },
            _ => {},
        }
        own_reasons_differ(message@, name);
    }
}

/// The palette is always listed: the tool needs no argument, answers every entry, and changes
/// nothing.
pub proof fn palette_is_always_listed(
    before: WorldView,
    after: WorldView,
    marks_before: LifecycleView,
    marks_after: LifecycleView,
    bounds: WorldBounds,
    plan: PlanView,
    arguments: JsonView,
    r: Option<ToolAnswer>,
)
    requires
        tool_plan("list_build_palette"@, arguments, bounds) == Ok::<PlanView, Seq<char>>(plan),
        is_tool_step(before, after, marks_before, marks_after, bounds, plan, arguments, r),
    ensures
        tool_plan("list_build_palette"@, arguments, bounds) is Ok,
        r matches Some(done) && done.answer matches Ok(answer) && answer@ == palette_view(),
        after == before,
        marks_after == marks_before,
{
    palette_tool_is_planned(arguments, bounds);
}

proof fn palette_tool_is_planned(arguments: JsonView, bounds: WorldBounds)
    ensures
        tool_plan("list_build_palette"@, arguments, bounds) == Ok::<PlanView, Seq<char>>(
            PlanView::Status(ToolKind::ListBuildPalette),
        ),
{
    reveal_strlit("list_build_palette");
    reveal_strlit("server_status");
    reveal_strlit("list_players");
    reveal_strlit("get_world_bounds");
    assert("list_build_palette"@.len() == 18);
    assert("server_status"@.len() == 13);
    assert("list_players"@.len() == 12);
    assert("get_world_bounds"@.len() == 16);
}

/// True iff the message cannot be that of an unknown tool, by its first letters.
spec fn own_reason(message: Seq<char>) -> bool {
    message.len() > 2 && (message[0] != 'u' || message[2] != 'k')
}

proof fn own_reasons_differ(message: Seq<char>, name: Seq<char>)
    requires
        own_reason(message),
    ensures
        message != unknown_tool_message(name),
{
    reveal_strlit("unknown MCP tool `");
    let unknown = unknown_tool_message(name);
    assert(unknown[0] == 'u' && unknown[2] == 'k');
}

proof fn integers_fail_for_own_reasons(arguments: JsonView, name: Seq<char>)
    ensures
        integer_argument(arguments, name) matches Err(message) ==> own_reason(message),
{
    reveal_strlit("missing integer argument `");
    reveal_strlit("argument `");
}

proof fn positions_fail_for_own_reasons(
    arguments: JsonView,
    x: Seq<char>,
    y: Seq<char>,
    z: Seq<char>,
)
    ensures
        position_argument(arguments, x, y, z) matches Err(message) ==> own_reason(message),
{
    integers_fail_for_own_reasons(arguments, x);
    integers_fail_for_own_reasons(arguments, y);
    integers_fail_for_own_reasons(arguments, z);
}

proof fn outside_is_an_own_reason(position: BlockPos)
    ensures
        own_reason(outside_message(position)),
{
    reveal_strlit("position ");
}

proof fn regions_fail_for_own_reasons(kind: ToolKind, arguments: JsonView, bounds: WorldBounds, limit: i64)
    ensures
        area_plan(kind, arguments, bounds, limit) matches Err(message) ==> own_reason(message),
{
    positions_fail_for_own_reasons(arguments, "min_x"@, "min_y"@, "min_z"@);
    positions_fail_for_own_reasons(arguments, "max_x"@, "max_y"@, "max_z"@);
    reveal_strlit("region min coordinates must be <= max coordinates");
    reveal_strlit("region volume ");
    if let Ok(region) = region_argument(arguments, limit) {
        outside_is_an_own_reason(region.min);
        outside_is_an_own_reason(region.max);
    }
}

proof fn texts_fail_for_own_reasons(arguments: JsonView, name: Seq<char>, max_bytes: nat)
    ensures
        owed_text(arguments, name, max_bytes) matches Err(message) ==> own_reason(message),
{
    reveal_strlit("`");
    reveal_strlit("` must be a non-empty string of at most ");
}

proof fn plans_fail_for_own_reasons(name: Seq<char>, arguments: JsonView, bounds: WorldBounds)
    requires
        tool_kind(name) is Some,
    ensures
        tool_plan(name, arguments, bounds) matches Err(message) ==> own_reason(message),
{
    let kind = tool_kind(name)->0;
    positions_fail_for_own_reasons(arguments, "x"@, "y"@, "z"@);
    if let Ok(position) = position_argument(arguments, "x"@, "y"@, "z"@) {
        outside_is_an_own_reason(position);
    }
    regions_fail_for_own_reasons(kind, arguments, bounds, MAX_SNAPSHOT_BLOCKS);
    regions_fail_for_own_reasons(kind, arguments, bounds, MAX_FILL_BLOCKS);
    texts_fail_for_own_reasons(arguments, "asset_id"@, 64);
    texts_fail_for_own_reasons(arguments, "instance_id"@, 128);
    reveal_strlit("build_id must be a non-empty string of at most 128 bytes");
    reveal_strlit("missing object argument `spec`");
    reveal_strlit("`");
    reveal_strlit("version");
}

proof fn block_arguments_fail_for_own_reasons(arguments: JsonView)
    ensures
        block_argument(arguments) matches Err(message) ==> own_reason(message),
{
    reveal_strlit("missing string argument `block`");
    reveal_strlit("unsupported block `");
}

proof fn commands_fail_for_own_reasons(w: WorldView, bounds: WorldBounds, command: WorldCommand)
    ensures
        tool_error_of(w, bounds, command) matches Some(error) ==> own_reason(error.spec_message()),
{
    reveal_strlit("position ");
    reveal_strlit("block ");
    reveal_strlit("actor head is inside a block");
}

proof fn fills_fail_for_own_reasons(
    w: WorldView,
    bounds: WorldBounds,
    region: Region,
    block: BlockState,
    n: int,
)
    ensures
        filled(w, bounds, region, block, n).error matches Some(message) ==> own_reason(message),
    decreases n,
{
    reveal_strlit("fill_region failed at ");
    if n > 0 {
        fills_fail_for_own_reasons(w, bounds, region, block, n - 1);
    }
}

/// The names of the listed tools.
proof fn listed_name(i: int)
    requires
        0 <= i < tools().len(),
    ensures
        tool_kind(tools()[i].name@) is Some,
{
    if i == 0 {
        assert(tools()[0].name@ == "server_status"@);
    } else if i == 1 {
        assert(tools()[1].name@ == "list_players"@);
    } else if i == 2 {
        assert(tools()[2].name@ == "get_world_bounds"@);
    } else if i == 3 {
        assert(tools()[3].name@ == "list_build_palette"@);
    } else if i == 4 {
        assert(tools()[4].name@ == "get_block"@);
    } else if i == 5 {
        assert(tools()[5].name@ == "snapshot_region"@);
    } else if i == 6 {
        assert(tools()[6].name@ == "set_block"@);
    } else if i == 7 {
        assert(tools()[7].name@ == "remove_block"@);
    } else if i == 8 {
        assert(tools()[8].name@ == "fill_region"@);
    } else if i == 9 {
        assert(tools()[9].name@ == "validate_build_plan"@);
    } else if i == 10 {
        assert(tools()[10].name@ == "apply_build_plan"@);
    } else if i == 11 {
        assert(tools()[11].name@ == "get_build"@);
    } else if i == 12 {
        assert(tools()[12].name@ == "undo_build"@);
    } else if i == 13 {
        assert(tools()[13].name@ == "validate_sculpt_spec"@);
    } else if i == 14 {
        assert(tools()[14].name@ == "inspect_asset_budget"@);
    } else if i == 15 {
        assert(tools()[15].name@ == "publish_asset"@);
    } else if i == 16 {
        assert(tools()[16].name@ == "list_assets"@);
    } else if i == 17 {
        assert(tools()[17].name@ == "get_asset"@);
    } else if i == 18 {
        assert(tools()[18].name@ == "spawn_asset"@);
    } else if i == 19 {
        assert(tools()[19].name@ == "update_asset"@);
    } else if i == 20 {
        assert(tools()[20].name@ == "remove_asset"@);
    } else if i == 21 {
        assert(tools()[21].name@ == "list_asset_instances"@);
    }
}
} // verus!
