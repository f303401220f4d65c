//! World commands: the bounds of the world, its base terrain, and the rules for editing a block.

use vstd::prelude::*;
use vstd::string::StringExecFns;
use crate::block::{
    block_text, column_of, state_text, valid_state, BlockPos, BlockState, ChunkColumn, AIR, BEDROCK,
    COBBLESTONE, DIAMOND_BLOCK, DIRT, GLASS, GRASS_BLOCK, OAK_PLANKS, STONE,
};
use crate::build_palette::{
    contains_block_state, entry_for, found_entry, lookups_round_trip, palette,
    palette_blocks_are_states, palette_name,
};
use crate::layer::{layer_set_block, whole_sections, world, WorldView};

verus! {

pub const GROUND_Y: i32 = 64;

pub const SPAWN_FEET_Y: i32 = 65;

pub const SPAWN_HEAD_Y: i32 = 66;

/// A box of block positions, both ends included.
#[derive(Debug, Clone, Copy, PartialEq, Eq, Structural)]
pub struct WorldBounds {
    pub min_x: i32,
    pub max_x: i32,
    pub min_y: i32,
    pub max_y: i32,
    pub min_z: i32,
    pub max_z: i32,
}

/// The bounds of the active world.
#[verifier::allow_in_spec]
pub fn world_bounds() -> WorldBounds
    returns
        (WorldBounds {
            min_x: (-256i32) as i32,
            max_x: 255,
            min_y: 60,
            max_y: 95,
            min_z: (-256i32) as i32,
            max_z: 255,
        }),
{
    WorldBounds { min_x: -256, max_x: 255, min_y: 60, max_y: 95, min_z: -256, max_z: 255 }
}

impl WorldBounds {
    /// True iff the position lies in the box.
    pub open spec fn has(self, p: (int, int, int)) -> bool {
        &&& self.min_x <= p.0 <= self.max_x
        &&& self.min_y <= p.1 <= self.max_y
        &&& self.min_z <= p.2 <= self.max_z
    }

    /// True iff some position of the box lies in the column `(x, z)`.
    pub open spec fn has_column(self, column: (int, int)) -> bool {
        &&& self.min_x <= self.max_x && self.min_y <= self.max_y && self.min_z <= self.max_z
        &&& self.min_x as int / 16 <= column.0 <= self.max_x as int / 16
        &&& self.min_z as int / 16 <= column.1 <= self.max_z as int / 16
    }

    /// The number of chunk columns that the box touches.
    pub open spec fn column_count(self) -> int {
        if self.min_x <= self.max_x && self.min_y <= self.max_y && self.min_z <= self.max_z {
            (self.max_x as int / 16 - self.min_x as int / 16 + 1) * (self.max_z as int / 16
                - self.min_z as int / 16 + 1)
        } else {
            0
        }
    }

    pub fn contains(self, position: BlockPos) -> (r: bool)
        ensures
            r == self.has(position.coords()),
    {
        self.min_x <= position.x && position.x <= self.max_x && self.min_y <= position.y
            && position.y <= self.max_y && self.min_z <= position.z && position.z <= self.max_z
    }

    fn is_empty(self) -> (r: bool)
        ensures
            r == !(self.min_x <= self.max_x && self.min_y <= self.max_y && self.min_z
                <= self.max_z),
    {
        self.min_x > self.max_x || self.min_y > self.max_y || self.min_z > self.max_z
    }

    /// True iff the box touches the column.
    pub fn contains_chunk(self, column: ChunkColumn) -> (r: bool)
        ensures
            r == self.has_column(column.coords()),
    {
        let low = ChunkColumn::from_block_pos(BlockPos { x: self.min_x, y: 0, z: self.min_z });
        let high = ChunkColumn::from_block_pos(BlockPos { x: self.max_x, y: 0, z: self.max_z });
        !self.is_empty() && low.x <= column.x && column.x <= high.x && low.z <= column.z && column.z
            <= high.z
    }

    /// The number of chunk columns that the box touches.
    pub fn loaded_chunk_columns(self) -> (r: u64)
        ensures
            r == self.column_count(),
    {
        if self.is_empty() {
            return 0;
        }
        let low = ChunkColumn::from_block_pos(BlockPos { x: self.min_x, y: 0, z: self.min_z });
        let high = ChunkColumn::from_block_pos(BlockPos { x: self.max_x, y: 0, z: self.max_z });
        let width: u64 = (high.x as i64 - low.x as i64 + 1) as u64;
        let depth: u64 = (high.z as i64 - low.z as i64 + 1) as u64;
        proof {
            assert(width * depth <= 0x1000_0000 * 0x1000_0000) by (nonlinear_arith)
                requires
                    width <= 0x1000_0000,
                    depth <= 0x1000_0000,
            ;
        }
        width * depth
    }
}

/// A column is in the bounds exactly when it holds a position of the bounds.
pub proof fn column_in_bounds_holds_a_position(bounds: WorldBounds, column: (int, int))
    ensures
        bounds.has_column(column) <==> exists|p: (int, int, int)|
            #![trigger bounds.has(p)]
            bounds.has(p) && column_of(p) == column,
{
    if bounds.has_column(column) {
        let x = if column.0 * 16 >= bounds.min_x {
            column.0 * 16
        } else {
            bounds.min_x as int
        };
        let z = if column.1 * 16 >= bounds.min_z {
            column.1 * 16
        } else {
            bounds.min_z as int
        };
        let p = (x, bounds.min_y as int, z);
        assert(bounds.has(p) && column_of(p) == column);
    }
}

/// The block of the untouched world at `y`: bedrock, stone, two layers of dirt, grass, then air.
pub open spec fn base_layer(y: int) -> BlockState {
    if y == GROUND_Y - 4 {
        BEDROCK
    } else if y == GROUND_Y - 3 {
        STONE
    } else if y == GROUND_Y - 2 || y == GROUND_Y - 1 {
        DIRT
    } else if y == GROUND_Y {
        GRASS_BLOCK
    } else {
        AIR
    }
}

/// The block of the untouched active world at `p`; air outside its bounds.
pub open spec fn base_block(p: (int, int, int)) -> BlockState {
    if world_bounds().has(p) {
        base_layer(p.1)
    } else {
        AIR
    }
}

/// The block of the untouched world at `position`, or nothing outside `bounds`.
pub fn base_block_state_at(bounds: WorldBounds, position: BlockPos) -> (r: Option<BlockState>)
    ensures
        r == if bounds.has(position.coords()) {
            Some(base_layer(position.y as int))
        } else {
            None
        },
{
    if !bounds.contains(position) {
        return None;
    }
    let y: i32 = position.y;
    let block: BlockState = if y == GROUND_Y - 4 {
        BEDROCK
    } else if y == GROUND_Y - 3 {
        STONE
    } else if y == GROUND_Y - 2 || y == GROUND_Y - 1 {
        DIRT
    } else if y == GROUND_Y {
        GRASS_BLOCK
    } else {
        AIR
    };
    Some(block)
}

/// The block of the untouched active world at `position`; air outside its bounds.
pub fn base_block_or_air(position: BlockPos) -> (r: BlockState)
    ensures
        r == base_block(position.coords()),
        valid_state(r),
{
    match base_block_state_at(world_bounds(), position) {
        Some(block) => block,
        None => AIR,
    }
}

#[derive(Debug, Clone, Copy, PartialEq, Eq, Structural)]
pub enum WorldCommand {
    SetBlock { position: BlockPos, block: BlockState },
    RemoveBlock { position: BlockPos },
}

impl WorldCommand {
    /// The position that the command edits.
    pub open spec fn target(self) -> BlockPos {
        match self {
            WorldCommand::SetBlock { position, block } => position,
            WorldCommand::RemoveBlock { position } => position,
        }
    }

    /// The block that the command leaves at its position.
    pub open spec fn result_block(self) -> BlockState {
        match self {
            WorldCommand::SetBlock { position, block } => block,
            WorldCommand::RemoveBlock { position } => AIR,
        }
    }
}

/// What is known of the world and the actor when a command is checked.
#[derive(Debug, Clone, Copy, PartialEq, Eq, Structural)]
pub struct CommandContext {
    pub target_block: BlockState,
    pub anchor_block: Option<BlockState>,
    pub actor_head_inside_block: bool,
}

impl CommandContext {
    pub fn for_existing_block(target_block: BlockState) -> (r: Self)
        ensures
            r == (CommandContext {
                target_block,
                anchor_block: None,
                actor_head_inside_block: false,
            }),
    {
        CommandContext { target_block, anchor_block: None, actor_head_inside_block: false }
    }

    pub fn for_placement(
        target_block: BlockState,
        anchor_block: BlockState,
        actor_head_inside_block: bool,
    ) -> (r: Self)
        ensures
            r == (CommandContext {
                target_block,
                anchor_block: Some(anchor_block),
                actor_head_inside_block,
            }),
    {
        CommandContext { target_block, anchor_block: Some(anchor_block), actor_head_inside_block }
    }
}

#[derive(Debug, Clone, Copy, PartialEq, Eq, Structural)]
pub enum WorldCommandError {
    OutOfBounds { position: BlockPos },
    UnsupportedBlock { block: BlockState },
    TargetNotEmpty { position: BlockPos, current: BlockState },
    MissingPlacementAnchor { position: BlockPos },
    CannotPlaceAgainstAir { position: BlockPos },
    ActorHeadInsideBlock,
    ProtectedSpawn { position: BlockPos },
    CannotRemoveAir { position: BlockPos },
    CannotRemoveFoundation { position: BlockPos },
    MissingLoadedChunk { position: BlockPos },
}

impl WorldCommandError {
    /// True iff the block states in the error are ids of block states.
    pub open spec fn valid(self) -> bool {
        match self {
            WorldCommandError::UnsupportedBlock { block } => valid_state(block),
            WorldCommandError::TargetNotEmpty { position, current } => valid_state(current),
            _ => true,
        }
    }

    /// The text of the error.
    pub open spec fn spec_message(self) -> Seq<char> {
        match self {
            WorldCommandError::OutOfBounds { position } => "position "@ + position.spec_text()
                + " is outside bounds"@,
            WorldCommandError::UnsupportedBlock { block } => "block "@ + state_text(block)
                + " is not allowed in M2"@,
            WorldCommandError::TargetNotEmpty { position, current } => "position "@
                + position.spec_text() + " already contains "@ + state_text(current),
            WorldCommandError::MissingPlacementAnchor { position } => "position "@
                + position.spec_text() + " has no placement anchor"@,
            WorldCommandError::CannotPlaceAgainstAir { position } => "position "@
                + position.spec_text() + " cannot be placed against air"@,
            WorldCommandError::ActorHeadInsideBlock => "actor head is inside a block"@,
            WorldCommandError::ProtectedSpawn { position } => "position "@ + position.spec_text()
                + " is protected spawn space"@,
            WorldCommandError::CannotRemoveAir { position } => "position "@ + position.spec_text()
                + " is already air"@,
            WorldCommandError::CannotRemoveFoundation { position } => "position "@
                + position.spec_text() + " is protected foundation"@,
            WorldCommandError::MissingLoadedChunk { position } => "position "@
                + position.spec_text() + " has no loaded chunk"@,
        }
    }

    /// The text of the error.
    pub fn message(self) -> (r: String)
        requires
            self.valid(),
        ensures
            r@ == self.spec_message(),
    {
        match self {
            WorldCommandError::OutOfBounds { position } => position_message(
                position,
                " is outside bounds",
            ),
            WorldCommandError::UnsupportedBlock { block } => {
                let mut out = "block ".to_owned();
                out.append(block_text(block).as_str());
                out.append(" is not allowed in M2");
                out
            },
            WorldCommandError::TargetNotEmpty { position, current } => {
                let mut out = position_message(position, " already contains ");
                out.append(block_text(current).as_str());
                out
            },
            WorldCommandError::MissingPlacementAnchor { position } => position_message(
                position,
                " has no placement anchor",
            ),
            WorldCommandError::CannotPlaceAgainstAir { position } => position_message(
                position,
                " cannot be placed against air",
            ),
            WorldCommandError::ActorHeadInsideBlock => "actor head is inside a block".to_owned(),
            WorldCommandError::ProtectedSpawn { position } => position_message(
                position,
                " is protected spawn space",
            ),
            WorldCommandError::CannotRemoveAir { position } => position_message(
                position,
                " is already air",
            ),
            WorldCommandError::CannotRemoveFoundation { position } => position_message(
                position,
                " is protected foundation",
            ),
            WorldCommandError::MissingLoadedChunk { position } => position_message(
                position,
                " has no loaded chunk",
            ),
        }
    }
}

fn position_message(position: BlockPos, tail: &str) -> (r: String)
    ensures
        r@ == "position "@ + position.spec_text() + tail@,
{
    let mut out = "position ".to_owned();
    out.append(position.text().as_str());
    out.append(tail);
    out
}

/// The blocks that a command may place: those of the build palette, but for the diamond block.
pub open spec fn placeable(block: BlockState) -> bool {
    palette_name(block) is Some && block != DIAMOND_BLOCK
}

/// Every block of the palette but one can be placed.
pub proof fn palette_blocks_can_be_placed(i: int)
    requires
        0 <= i < palette().len(),
        palette()[i].block != DIAMOND_BLOCK,
    ensures
        placeable(palette()[i].block),
{
    lookups_round_trip(i);
}

/// A block that can be placed is a block state, and neither air nor bedrock.
pub proof fn placeable_blocks_are_solid(block: BlockState)
    requires
        placeable(block),
    ensures
        valid_state(block),
        block != AIR,
        block != BEDROCK,
{
    palette_blocks_are_states(block);
}

/// The blocks of the hotbar can be placed.
pub proof fn hotbar_can_be_placed()
    ensures
        placeable(STONE),
        placeable(DIRT),
        placeable(GRASS_BLOCK),
        placeable(OAK_PLANKS),
        placeable(COBBLESTONE),
        placeable(GLASS),
{
    let n = palette().len();
    assert(palette()[0].block == STONE);
    assert(palette()[1].block == DIRT);
    assert(palette()[2].block == GRASS_BLOCK);
    assert(palette()[3].block == OAK_PLANKS);
    assert(palette()[4].block == COBBLESTONE);
    assert(palette()[5].block == GLASS);
    lookups_round_trip(0);
    lookups_round_trip(1);
    lookups_round_trip(2);
    lookups_round_trip(3);
    lookups_round_trip(4);
    lookups_round_trip(5);
}

/// The blocks of a player's hotbar, in slot order.
pub fn hotbar_blocks() -> (r: Vec<BlockState>)
    ensures
        r@ == seq![STONE, DIRT, GRASS_BLOCK, OAK_PLANKS, COBBLESTONE, GLASS],
{
    vec![STONE, DIRT, GRASS_BLOCK, OAK_PLANKS, COBBLESTONE, GLASS]
}

/// Feet and head room of the spawn area: nothing may be placed there.
pub open spec fn protected_spawn(p: (int, int, int)) -> bool {
    -1 <= p.0 <= 1 && -1 <= p.2 <= 1 && SPAWN_FEET_Y <= p.1 <= SPAWN_HEAD_Y
}

/// The first rule that the placement of `block` at `position` breaks.
pub open spec fn placement_error(
    bounds: WorldBounds,
    position: BlockPos,
    block: BlockState,
    context: CommandContext,
) -> Option<WorldCommandError> {
    if !bounds.has(position.coords()) {
        Some(WorldCommandError::OutOfBounds { position })
    } else if !placeable(block) {
        Some(WorldCommandError::UnsupportedBlock { block })
    } else if protected_spawn(position.coords()) {
        Some(WorldCommandError::ProtectedSpawn { position })
    } else if context.actor_head_inside_block {
        Some(WorldCommandError::ActorHeadInsideBlock)
    } else if context.target_block != AIR {
        Some(WorldCommandError::TargetNotEmpty { position, current: context.target_block })
    } else if context.anchor_block is None {
        Some(WorldCommandError::MissingPlacementAnchor { position })
    } else if context.anchor_block == Some(AIR) {
        Some(WorldCommandError::CannotPlaceAgainstAir { position })
    } else {
        None
    }
}

/// The first rule that the removal of the block at `position` breaks.
pub open spec fn removal_error(
    bounds: WorldBounds,
    position: BlockPos,
    target_block: BlockState,
) -> Option<WorldCommandError> {
    if !bounds.has(position.coords()) {
        Some(WorldCommandError::OutOfBounds { position })
    } else if target_block == AIR {
        Some(WorldCommandError::CannotRemoveAir { position })
    } else if target_block == BEDROCK || position.y <= world_bounds().min_y {
        Some(WorldCommandError::CannotRemoveFoundation { position })
    } else {
        None
    }
}

/// The first rule that the command breaks, if it breaks one.
pub open spec fn command_error(
    bounds: WorldBounds,
    command: WorldCommand,
    context: CommandContext,
) -> Option<WorldCommandError> {
    match command {
        WorldCommand::SetBlock { position, block } => placement_error(
            bounds,
            position,
            block,
            context,
        ),
        WorldCommand::RemoveBlock { position } => removal_error(
            bounds,
            position,
            context.target_block,
        ),
    }
}

/// The outcome of a rule check.
pub open spec fn outcome(error: Option<WorldCommandError>) -> Result<(), WorldCommandError> {
    match error {
        Some(error) => Err(error),
        None => Ok(()),
    }
}

/// Checks a command against the rules of the world.
pub fn validate_world_command(
    bounds: WorldBounds,
    command: WorldCommand,
    context: CommandContext,
) -> (r: Result<(), WorldCommandError>)
    ensures
        r == outcome(command_error(bounds, command, context)),
{
    match command {
        WorldCommand::SetBlock { position, block } => {
            if !bounds.contains(position) {
                return Err(WorldCommandError::OutOfBounds { position });
            }
            if !is_placeable(block) {
                return Err(WorldCommandError::UnsupportedBlock { block });
            }
            validate_placement_safety(position, context)
        },
        WorldCommand::RemoveBlock { position } => {
            if !bounds.contains(position) {
                return Err(WorldCommandError::OutOfBounds { position });
            }
            validate_remove_block(position, context.target_block)
        },
    }
}

fn is_placeable(block: BlockState) -> (r: bool)
    ensures
        r == placeable(block),
{
    contains_block_state(block) && block != DIAMOND_BLOCK
}

fn validate_placement_safety(position: BlockPos, context: CommandContext) -> (r: Result<
    (),
    WorldCommandError,
>)
    ensures
        forall|bounds: WorldBounds, block: BlockState|
            bounds.has(position.coords()) && placeable(block) ==> r == outcome(
                #[trigger] placement_error(bounds, position, block, context),
            ),
{
    if is_protected_spawn(position) {
        return Err(WorldCommandError::ProtectedSpawn { position });
    }
    if context.actor_head_inside_block {
        return Err(WorldCommandError::ActorHeadInsideBlock);
    }
    if context.target_block != AIR {
        return Err(
            WorldCommandError::TargetNotEmpty { position, current: context.target_block },
        );
    }
    match context.anchor_block {
        None => Err(WorldCommandError::MissingPlacementAnchor { position }),
        Some(anchor) => if anchor == AIR {
            Err(WorldCommandError::CannotPlaceAgainstAir { position })
        } else {
            Ok(())
        },
    }
}

fn validate_remove_block(position: BlockPos, target_block: BlockState) -> (r: Result<
    (),
    WorldCommandError,
>)
    ensures
        forall|bounds: WorldBounds|
            bounds.has(position.coords()) ==> r == outcome(
                #[trigger] removal_error(bounds, position, target_block),
            ),
{
    if target_block == AIR {
        return Err(WorldCommandError::CannotRemoveAir { position });
    }
    if target_block == BEDROCK || position.y <= world_bounds().min_y {
        return Err(WorldCommandError::CannotRemoveFoundation { position });
    }
    Ok(())
}

fn is_protected_spawn(position: BlockPos) -> (r: bool)
    ensures
        r == protected_spawn(position.coords()),
{
    -1 <= position.x && position.x <= 1 && -1 <= position.z && position.z <= 1 && SPAWN_FEET_Y
        <= position.y && position.y <= SPAWN_HEAD_Y
}

/// What running the command in a world answers: the first broken rule, else a missing chunk.
pub open spec fn execution_error(
    w: WorldView,
    bounds: WorldBounds,
    command: WorldCommand,
    context: CommandContext,
) -> Option<WorldCommandError> {
    match command_error(bounds, command, context) {
        Some(error) => Some(error),
        None => if w.loaded(command.target().coords()) {
            None
        } else {
            Some(WorldCommandError::MissingLoadedChunk { position: command.target() })
        },
    }
}

/// Checks a command and, where it is allowed, edits the one block that it names.
pub fn execute_world_command(
    layer: &mut valence::ChunkLayer,
    bounds: WorldBounds,
    command: WorldCommand,
    context: CommandContext,
) -> (r: Result<(), WorldCommandError>)
    requires
        whole_sections(*old(layer)),
    ensures
        r == outcome(execution_error(world(*old(layer)), bounds, command, context)),
        world(*final(layer)) == if r is Ok {
            world(*old(layer)).set(command.target().coords(), command.result_block())
        } else {
            world(*old(layer))
        },
{
    match validate_world_command(bounds, command, context) {
        Ok(()) => {},
        Err(error) => return Err(error),
    }
    let (position, block): (BlockPos, BlockState) = match command {
        WorldCommand::SetBlock { position, block } => (position, block),
        WorldCommand::RemoveBlock { position } => (position, AIR),
    };
    proof {
        if let WorldCommand::SetBlock { position: _, block: placed } = command {
            placeable_blocks_are_solid(placed);
        }
    }
    if layer_set_block(layer, position, block) {
        Ok(())
    } else {
        Err(WorldCommandError::MissingLoadedChunk { position })
    }
}

/// Every edit that a command makes lies inside the bounds.
pub proof fn edits_stay_in_bounds(
    w: WorldView,
    bounds: WorldBounds,
    command: WorldCommand,
    context: CommandContext,
)
    requires
        execution_error(w, bounds, command, context) is None,
    ensures
        bounds.has(command.target().coords()),
{
}

/// No command places a block in the protected spawn space.
pub proof fn spawn_is_never_built_on(
    w: WorldView,
    bounds: WorldBounds,
    command: WorldCommand,
    context: CommandContext,
)
    requires
        protected_spawn(command.target().coords()),
        execution_error(w, bounds, command, context) is None,
    ensures
        command is RemoveBlock,
{
}

/// No command removes a block of the bottom layer of the active world, or bedrock anywhere.
pub proof fn foundation_is_never_removed(
    w: WorldView,
    bounds: WorldBounds,
    command: WorldCommand,
    context: CommandContext,
)
    requires
        command is RemoveBlock,
        context.target_block == BEDROCK || command.target().y <= world_bounds().min_y,
    ensures
        execution_error(w, bounds, command, context) is Some,
{
}

/// A placement only ever fills air, and only beside a block.
pub proof fn placement_fills_air_beside_a_block(
    w: WorldView,
    bounds: WorldBounds,
    command: WorldCommand,
    context: CommandContext,
)
    requires
        command is SetBlock,
        execution_error(w, bounds, command, context) is None,
    ensures
        context.target_block == AIR,
        context.anchor_block matches Some(anchor) && anchor != AIR,
        placeable(command.result_block()),
{
}

/// True iff an entry of the palette has the block.
pub open spec fn in_palette(block: BlockState) -> bool {
    exists|i: int| 0 <= i < palette().len() && (#[trigger] palette()[i]).block == block
}

proof fn palette_lookup_is_membership(block: BlockState)
    ensures
        palette_name(block) is Some <==> in_palette(block),
{
    if palette_name(block) is Some {
        found_entry(block, 0);
        let i = entry_for(palette(), block, 0)->0;
        assert(palette()[i].block == block);
    }
    if in_palette(block) {
        let i = choose|i: int| 0 <= i < palette().len() && (#[trigger] palette()[i]).block == block;
        lookups_round_trip(i);
    }
}

/// A placement is allowed exactly where it lies inside the bounds and outside the three by three
/// columns of feet and head room at spawn, fills air beside a block, with the actor's head free,
/// and the block is in the palette and not the diamond block.
pub proof fn placement_is_allowed_exactly_when(
    bounds: WorldBounds,
    position: BlockPos,
    block: BlockState,
    context: CommandContext,
)
    ensures
        outcome(command_error(bounds, WorldCommand::SetBlock { position, block }, context)) is Ok
            <==> {
            &&& bounds.min_x <= position.x <= bounds.max_x
            &&& bounds.min_y <= position.y <= bounds.max_y
            &&& bounds.min_z <= position.z <= bounds.max_z
            &&& in_palette(block)
            &&& block != 4276
            &&& position.x < -1 || position.x > 1 || position.z < -1 || position.z > 1 || position.y
                < 65 || position.y > 66
            &&& !context.actor_head_inside_block
            &&& context.target_block == 0
            &&& context.anchor_block matches Some(anchor) && anchor != 0
        },
{
    palette_lookup_is_membership(block);
}

/// A refused placement is told the first rule that it breaks: the bounds, the block, the spawn
/// space, the actor's head, what stands there, and what it leans on, in that order.
pub proof fn refused_placement_is_told_why(
    bounds: WorldBounds,
    position: BlockPos,
    block: BlockState,
    context: CommandContext,
)
    ensures
        ({
            let r = outcome(
                command_error(bounds, WorldCommand::SetBlock { position, block }, context),
            );
            let inside = bounds.min_x <= position.x <= bounds.max_x && bounds.min_y <= position.y
                <= bounds.max_y && bounds.min_z <= position.z <= bounds.max_z;
            let known = in_palette(block) && block != 4276;
            let spawn = -1 <= position.x <= 1 && -1 <= position.z <= 1 && 65 <= position.y <= 66;
            let rest = inside && known && !spawn && !context.actor_head_inside_block;
            &&& !inside ==> r == Err::<(), WorldCommandError>(
                WorldCommandError::OutOfBounds { position },
            )
            &&& inside && !known ==> r == Err::<(), WorldCommandError>(
                WorldCommandError::UnsupportedBlock { block },
            )
            &&& inside && known && spawn ==> r == Err::<(), WorldCommandError>(
                WorldCommandError::ProtectedSpawn { position },
            )
            &&& inside && known && !spawn && context.actor_head_inside_block ==> r == Err::<
                (),
                WorldCommandError,
            >(WorldCommandError::ActorHeadInsideBlock)
            &&& rest && context.target_block != 0 ==> r == Err::<(), WorldCommandError>(
                WorldCommandError::TargetNotEmpty { position, current: context.target_block },
            )
            &&& rest && context.target_block == 0 && context.anchor_block is None ==> r == Err::<
                (),
                WorldCommandError,
            >(WorldCommandError::MissingPlacementAnchor { position })
            &&& rest && context.target_block == 0 && context.anchor_block == Some(0u16) ==> r
                == Err::<(), WorldCommandError>(
                WorldCommandError::CannotPlaceAgainstAir { position },
            )
        }),
{
    palette_lookup_is_membership(block);
}

/// A removal is allowed exactly where there is a block inside the bounds that is neither bedrock
/// nor of the bottom layer, at sixty; a refused one is told which of these it breaks first.
pub proof fn removal_is_allowed_exactly_when(
    bounds: WorldBounds,
    position: BlockPos,
    context: CommandContext,
)
    ensures
        ({
            let r = outcome(command_error(bounds, WorldCommand::RemoveBlock { position }, context));
            let inside = bounds.min_x <= position.x <= bounds.max_x && bounds.min_y <= position.y
                <= bounds.max_y && bounds.min_z <= position.z <= bounds.max_z;
            &&& r is Ok <==> inside && context.target_block != 0 && context.target_block != 79
                && position.y > 60
            &&& !inside ==> r == Err::<(), WorldCommandError>(
                WorldCommandError::OutOfBounds { position },
            )
            &&& inside && context.target_block == 0 ==> r == Err::<(), WorldCommandError>(
                WorldCommandError::CannotRemoveAir { position },
            )
            &&& inside && context.target_block != 0 && (context.target_block == 79 || position.y
                <= 60) ==> r == Err::<(), WorldCommandError>(
                WorldCommandError::CannotRemoveFoundation { position },
            )
        }),
{
}

/// A command that is carried out changes the block at its position to the block that it places, or
/// to air, and no other block; one that is refused changes none. It is carried out exactly where it
/// is allowed and the chunk is loaded.
pub proof fn commands_change_one_block(
    before: WorldView,
    after: WorldView,
    bounds: WorldBounds,
    command: WorldCommand,
    context: CommandContext,
    r: Result<(), WorldCommandError>,
    p: (int, int, int),
)
    requires
        r == outcome(execution_error(before, bounds, command, context)),
        after == if r is Ok {
            before.set(command.target().coords(), command.result_block())
        } else {
            before
        },
    ensures
        r is Ok <==> command_error(bounds, command, context) is None && before.loaded(
            match command {
                WorldCommand::SetBlock { position, block } => position.coords(),
                WorldCommand::RemoveBlock { position } => position.coords(),
            },
        ),
        ({
            let (target, block) = match command {
                WorldCommand::SetBlock { position, block } => (position, block),
                WorldCommand::RemoveBlock { position } => (position, 0u16),
            };
            after.block(p) == if r is Ok && p == (target.x as int, target.y as int, target.z as int) {
                block
            } else {
                before.block(p)
            }
        }),
        after.loaded(p) == before.loaded(p),
{
}

/// The world reaches from -256 to 255 in x and in z, and from 60 to 95 in y.
pub proof fn world_reaches(p: (int, int, int))
    ensures
        world_bounds().has(p) <==> -256 <= p.0 <= 255 && 60 <= p.1 <= 95 && -256 <= p.2 <= 255,
        world_bounds().column_count() == 1024,
{
}

/// The untouched world is flat: bedrock at 60, stone at 61, dirt up to 63, grass at 64, and air
/// above and all around.
pub proof fn untouched_world_is_flat(p: (int, int, int))
    ensures
        ({
            let inside = -256 <= p.0 <= 255 && -256 <= p.2 <= 255;
            &&& inside && p.1 == 60 ==> base_block(p) == 79
            &&& inside && p.1 == 61 ==> base_block(p) == 1
            &&& inside && 62 <= p.1 <= 63 ==> base_block(p) == 10
            &&& inside && p.1 == 64 ==> base_block(p) == 9
            &&& !inside || p.1 < 60 || p.1 > 64 ==> base_block(p) == 0
        }),
{
}

/// Bounds that are made of whole columns touch exactly these: `a` of them in x times `b` in z.
pub proof fn column_count_counts_columns(bounds: WorldBounds, x: int, z: int, a: int, b: int)
    requires
        a > 0,
        b > 0,
        bounds.min_x == 16 * x,
        bounds.max_x == 16 * (x + a) - 1,
        bounds.min_z == 16 * z,
        bounds.max_z == 16 * (z + b) - 1,
        bounds.min_y <= bounds.max_y,
    ensures
        bounds.column_count() == a * b,
        forall|column: (int, int)| #[trigger]
            bounds.has_column(column) <==> x <= column.0 < x + a && z <= column.1 < z + b,
{
}

} // verus!
