//! Builds: validating a prepared plan against the world, applying it, and undoing it.

use vstd::prelude::*;
use vstd::string::StringExecFns;
use crate::block::{block_text, state_text, valid_state, BlockPos, BlockState, AIR};
use crate::build_plan::{
    conflict_views, expansion_is_sound, plan_expansion, target_conflict, texts, ConflictView,
    ExpandedTarget, PlanBounds, PlanConflict, PlanPosition, PreparedPlan,
};
use crate::ids::{is_hyphenated_id, new_hyphenated_id};
use crate::json::{
    boolean, integer_value, json_string, json_string_text, text, unsigned, Fields, Json, JsonView,
};
use crate::layer::{block_state_at, layer_set_block, whole_sections, world, WorldView};
use crate::mcp::no_fields;
use crate::persistence::{distinct_records, valid_record, BuildBlockRecord, NewBuildRecord, StoredBuild};
use crate::position_map::{PositionMap, PositionSet};
use crate::text::{decimal, decimal_nat, push_i64, push_u64, same_text};
use crate::world_command::{
    command_error, execute_world_command, execution_error, in_palette, outcome, placeable,
    placeable_blocks_are_solid, placement_is_allowed_exactly_when, protected_spawn,
    refused_placement_is_told_why, removal_is_allowed_exactly_when, validate_world_command, world_bounds,
    CommandContext, WorldBounds, WorldCommand, WorldCommandError,
};

verus! {

pub struct BuildValidationReport {
    pub valid: bool,
    pub plan_hash: String,
    pub expanded_targets: usize,
    pub bounds: Option<PlanBounds>,
    pub conflicts: Vec<PlanConflict>,
    pub warnings: Vec<String>,
}

pub struct ApplyBuildResult {
    pub build_id: String,
    pub plan_hash: String,
    pub changed: usize,
    pub skipped: usize,
    pub undo_available: bool,
}

pub struct UndoBuildResult {
    pub build_id: String,
    pub state: String,
    pub restored: usize,
    pub already_undone: bool,
}

// ---- the world as a plan sees it ----

/// A world as a function from positions to blocks.
pub type Blocks = spec_fn(BlockPos) -> BlockState;

/// The blocks of a chunk layer.
pub open spec fn blocks_of(w: WorldView) -> Blocks {
    |p: BlockPos| w.block(p.coords())
}

/// The world with the blocks that a plan has placed so far.
pub open spec fn shadowed(shadow: Map<BlockPos, BlockState>, blocks: Blocks, p: BlockPos) -> BlockState {
    if shadow.contains_key(p) {
        shadow[p]
    } else {
        blocks(p)
    }
}

/// The neighbour number `k` of a position: below, above, west, east, north, south. A neighbour
/// whose coordinate would not fit in 32 bits does not exist.
pub open spec fn neighbor(p: BlockPos, k: int) -> Option<BlockPos> {
    if k == 0 {
        if p.y == i32::MIN {
            None
        } else {
            Some(BlockPos { y: (p.y - 1) as i32, ..p })
        }
    } else if k == 1 {
        if p.y == i32::MAX {
            None
        } else {
            Some(BlockPos { y: (p.y + 1) as i32, ..p })
        }
    } else if k == 2 {
        if p.x == i32::MIN {
            None
        } else {
            Some(BlockPos { x: (p.x - 1) as i32, ..p })
        }
    } else if k == 3 {
        if p.x == i32::MAX {
            None
        } else {
            Some(BlockPos { x: (p.x + 1) as i32, ..p })
        }
    } else if k == 4 {
        if p.z == i32::MIN {
            None
        } else {
            Some(BlockPos { z: (p.z - 1) as i32, ..p })
        }
    } else {
        if p.z == i32::MAX {
            None
        } else {
            Some(BlockPos { z: (p.z + 1) as i32, ..p })
        }
    }
}

/// The block of the neighbour number `k`; air where it does not exist.
pub open spec fn neighbor_block(shadow: Map<BlockPos, BlockState>, blocks: Blocks, p: BlockPos, k: int) -> BlockState {
    match neighbor(p, k) {
        Some(q) => shadowed(shadow, blocks, q),
        None => AIR,
    }
}

/// The block that a placement leans on: that of the first neighbour, from number `k` on, that is
/// not air; air where all of them are.
pub open spec fn anchor_from(shadow: Map<BlockPos, BlockState>, blocks: Blocks, p: BlockPos, k: int) -> BlockState
    decreases 6 - k,
{
    if k >= 6 {
        AIR
    } else if neighbor_block(shadow, blocks, p, k) != AIR {
        neighbor_block(shadow, blocks, p, k)
    } else {
        anchor_from(shadow, blocks, p, k + 1)
    }
}

/// The neighbour number `k` of a position.
pub fn neighbor_position(p: BlockPos, k: usize) -> (r: Option<BlockPos>)
    requires
        k < 6,
    ensures
        r == neighbor(p, k as int),
{
    let (dx, dy, dz): (i32, i32, i32) = match k {
        0 => (0, -1, 0),
        1 => (0, 1, 0),
        2 => (-1, 0, 0),
        3 => (1, 0, 0),
        4 => (0, 0, -1),
        _ => (0, 0, 1),
    };
    match (p.x.checked_add(dx), p.y.checked_add(dy), p.z.checked_add(dz)) {
        (Some(x), Some(y), Some(z)) => Some(BlockPos { x, y, z }),
        _ => None,
    }
}

/// The block that a placement in the layer leans on: that of the first neighbour that is not air.
pub fn placement_anchor_in_layer(layer: &valence::ChunkLayer, position: BlockPos) -> (r: BlockState)
    requires
        whole_sections(*layer),
    ensures
        r == anchor_from(Map::empty(), blocks_of(world(*layer)), position, 0),
        valid_state(r),
{
    let ghost empty = Map::<BlockPos, BlockState>::empty();
    let ghost blocks = blocks_of(world(*layer));
    let mut k: usize = 0;
    while k < 6
        invariant
            k <= 6,
            whole_sections(*layer),
            empty == Map::<BlockPos, BlockState>::empty(),
            blocks == blocks_of(world(*layer)),
            anchor_from(empty, blocks, position, 0) == anchor_from(empty, blocks, position, k as int),
        decreases 6 - k,
    {
        if let Some(neighbor) = neighbor_position(position, k) {
            let block = block_state_at(layer, neighbor);
            if block != AIR {
                return block;
            }
        }
        k = k + 1;
    }
    AIR
}

// ---- validation ----

/// The code under which a broken rule is reported.
pub open spec fn conflict_code(error: WorldCommandError) -> Seq<char> {
    match error {
        WorldCommandError::OutOfBounds { position } => "out_of_bounds"@,
        WorldCommandError::UnsupportedBlock { block } => "unsupported_block"@,
        WorldCommandError::TargetNotEmpty { position, current } => "occupied_target"@,
        WorldCommandError::ProtectedSpawn { position } => "protected_region"@,
        WorldCommandError::ActorHeadInsideBlock => "player_collision"@,
        _ => "placement_rule"@,
    }
}

fn world_command_conflict(target: &ExpandedTarget, error: WorldCommandError) -> (r: PlanConflict)
    requires
        error.valid(),
    ensures
        r@ == target_conflict(
            conflict_code(error),
            error.spec_message(),
            target.operation_index,
            target.position,
        ),
{
    let code = match error {
        WorldCommandError::OutOfBounds { position } => "out_of_bounds",
        WorldCommandError::UnsupportedBlock { block } => "unsupported_block",
        WorldCommandError::TargetNotEmpty { position, current } => "occupied_target",
        WorldCommandError::ProtectedSpawn { position } => "protected_region",
        WorldCommandError::ActorHeadInsideBlock => "player_collision",
        _ => "placement_rule",
    };
    PlanConflict::target(code, error.message(), target.operation_index, target.position)
}

/// How far the validation of a plan has come: the conflicts so far, and the blocks that the
/// targets without one have placed.
#[verifier::ext_equal]
pub struct Check {
    pub conflicts: Seq<ConflictView>,
    pub shadow: Map<BlockPos, BlockState>,
}

/// The placement of a target, as a command and what is known of the world around it.
pub open spec fn target_command(target: ExpandedTarget) -> WorldCommand {
    WorldCommand::SetBlock { position: target.position, block: target.block }
}

pub open spec fn target_context(shadow: Map<BlockPos, BlockState>, blocks: Blocks, target: ExpandedTarget) -> CommandContext {
    CommandContext {
        target_block: shadowed(shadow, blocks, target.position),
        anchor_block: Some(anchor_from(shadow, blocks, target.position, 0)),
        actor_head_inside_block: false,
    }
}

impl Check {
    /// The check with one more target: it must not meet a player, and its placement must keep the
    /// rules of the world with the earlier targets in place.
    pub open spec fn with_target(
        self,
        bounds: WorldBounds,
        occupied: Map<BlockPos, ()>,
        blocks: Blocks,
        target: ExpandedTarget,
    ) -> Check {
        if occupied.contains_key(target.position) {
            Check {
                conflicts: self.conflicts.push(
                    target_conflict(
                        "player_collision"@,
                        "target intersects a connected player's occupied space"@,
                        target.operation_index,
                        target.position,
                    ),
                ),
                ..self
            }
        } else {
            match command_error(
                bounds,
                target_command(target),
                target_context(self.shadow, blocks, target),
            ) {
                None => Check { shadow: self.shadow.insert(target.position, target.block), ..self },
                Some(error) => Check {
                    conflicts: self.conflicts.push(
                        target_conflict(
                            conflict_code(error),
                            error.spec_message(),
                            target.operation_index,
                            target.position,
                        ),
                    ),
                    ..self
                },
            }
        }
    }
}

/// The check of the first `n` targets.
pub open spec fn check_targets(
    targets: Seq<ExpandedTarget>,
    bounds: WorldBounds,
    occupied: Map<BlockPos, ()>,
    blocks: Blocks,
    n: int,
) -> Check
    decreases n,
{
    if n <= 0 {
        Check { conflicts: seq![], shadow: Map::empty() }
    } else {
        check_targets(targets, bounds, occupied, blocks, n - 1).with_target(
            bounds,
            occupied,
            blocks,
            targets[n - 1],
        )
    }
}

/// Everything that stands against a prepared plan in a world: what its preparation found, else
/// what its targets meet.
pub open spec fn plan_conflicts(
    prepared: PreparedPlan,
    bounds: WorldBounds,
    occupied: Map<BlockPos, ()>,
    blocks: Blocks,
) -> Seq<ConflictView> {
    if prepared.conflicts@.len() > 0 {
        conflict_views(prepared.conflicts@)
    } else {
        check_targets(
            prepared.targets@,
            bounds,
            occupied,
            blocks,
            prepared.targets@.len() as int,
        ).conflicts
    }
}

/// True iff the report is that of the prepared plan with these conflicts.
pub open spec fn reports(
    report: BuildValidationReport,
    prepared: PreparedPlan,
    conflicts: Seq<ConflictView>,
) -> bool {
    &&& report.valid == (conflicts.len() == 0)
    &&& report.plan_hash@ == prepared.plan_hash@
    &&& report.expanded_targets == prepared.targets@.len()
    &&& report.bounds == prepared.bounds
    &&& conflict_views(report.conflicts@) == conflicts
    &&& texts(report.warnings@) == texts(prepared.warnings@)
}

/// True iff every target's block is a block state.
pub open spec fn valid_targets(targets: Seq<ExpandedTarget>) -> bool {
    forall|i: int| 0 <= i < targets.len() ==> valid_state((#[trigger] targets[i]).block)
}

/// True iff the reader always answers with the block that `blocks` has at the position.
pub open spec fn reads<F: Fn(BlockPos) -> BlockState>(read: F, blocks: Blocks) -> bool {
    forall|p: BlockPos, b: BlockState| #[trigger] call_ensures(read, (p,), b) ==> b == blocks(p)
}

/// True iff the reader can be asked for every position and answers with block states.
pub open spec fn readable<F: Fn(BlockPos) -> BlockState>(read: F) -> bool {
    &&& forall|p: BlockPos| #[trigger] call_requires(read, (p,))
    &&& forall|p: BlockPos, b: BlockState| #[trigger]
        call_ensures(read, (p,), b) ==> valid_state(b)
}

fn state_at<F: Fn(BlockPos) -> BlockState>(
    shadow: &PositionMap<BlockState>,
    read: &F,
    position: BlockPos,
) -> (r: BlockState)
    requires
        shadow.wf(),
        readable(*read),
        forall|p: BlockPos| #[trigger] shadow@.contains_key(p) ==> valid_state(shadow@[p]),
    ensures
        valid_state(r),
        forall|blocks: Blocks| #[trigger]
            reads(*read, blocks) ==> r == shadowed(shadow@, blocks, position),
{
    match shadow.get(position) {
        Some(block) => block,
        None => read(position),
    }
}

fn placement_anchor<F: Fn(BlockPos) -> BlockState>(
    shadow: &PositionMap<BlockState>,
    read: &F,
    position: BlockPos,
) -> (r: BlockState)
    requires
        shadow.wf(),
        readable(*read),
        forall|p: BlockPos| #[trigger] shadow@.contains_key(p) ==> valid_state(shadow@[p]),
    ensures
        valid_state(r),
        forall|blocks: Blocks| #[trigger]
            reads(*read, blocks) ==> r == anchor_from(shadow@, blocks, position, 0),
{
    let mut k: usize = 0;
    while k < 6
        invariant
            k <= 6,
            shadow.wf(),
            readable(*read),
            forall|p: BlockPos| #[trigger] shadow@.contains_key(p) ==> valid_state(shadow@[p]),
            forall|blocks: Blocks| #[trigger]
                reads(*read, blocks) ==> anchor_from(shadow@, blocks, position, 0) == anchor_from(
                    shadow@,
                    blocks,
                    position,
                    k as int,
                ),
        decreases 6 - k,
    {
        if let Some(neighbor) = neighbor_position(position, k) {
            let block = state_at(shadow, read, neighbor);
            if block != AIR {
                return block;
            }
        }
        k = k + 1;
    }
    AIR
}

fn copy_conflicts(conflicts: &Vec<PlanConflict>) -> (r: Vec<PlanConflict>)
    ensures
        r@ == conflicts@,
{
    let mut out: Vec<PlanConflict> = Vec::new();
    let mut i: usize = 0;
    while i < conflicts.len()
        invariant
            i <= conflicts@.len(),
            out@ =~= conflicts@.take(i as int),
        decreases conflicts@.len() - i,
    {
        out.push(conflicts[i].duplicate());
        i = i + 1;
    }
    out
}

fn copy_texts(strings: &Vec<String>) -> (r: Vec<String>)
    ensures
        r@ == strings@,
{
    let mut out: Vec<String> = Vec::new();
    let mut i: usize = 0;
    while i < strings.len()
        invariant
            i <= strings@.len(),
            out@ =~= strings@.take(i as int),
        decreases strings@.len() - i,
    {
        out.push(strings[i].clone());
        i = i + 1;
    }
    out
}

/// Validates a prepared plan against a world that is read position by position. Where the reader
/// answers as a world would, the report is that of the plan in this world; whatever it answers, the
/// report speaks of the prepared plan, and is valid exactly where it lists no conflict.
pub fn validate_build_plan_with<F: Fn(BlockPos) -> BlockState>(
    prepared: &PreparedPlan,
    bounds: WorldBounds,
    player_occupied: &PositionSet,
    world_block_at: F,
) -> (r: BuildValidationReport)
    requires
        player_occupied.wf(),
        valid_targets(prepared.targets@),
        readable(world_block_at),
    ensures
        r.valid == (r.conflicts@.len() == 0),
        r.plan_hash@ == prepared.plan_hash@,
        r.expanded_targets == prepared.targets@.len(),
        r.bounds == prepared.bounds,
        texts(r.warnings@) == texts(prepared.warnings@),
        prepared.conflicts@.len() > 0 ==> conflict_views(r.conflicts@) == conflict_views(
            prepared.conflicts@,
        ),
        forall|blocks: Blocks| #[trigger]
            reads(world_block_at, blocks) ==> reports(
                r,
                *prepared,
                plan_conflicts(*prepared, bounds, player_occupied@, blocks),
            ),
{
    let mut conflicts = copy_conflicts(&prepared.conflicts);
    if conflicts.len() == 0 {
        let mut shadow: PositionMap<BlockState> = PositionMap::new();
        let mut i: usize = 0;
        proof {
            assert(conflict_views(conflicts@) =~= Seq::<ConflictView>::empty());
        }
        while i < prepared.targets.len()
            invariant
                i <= prepared.targets@.len(),
                player_occupied.wf(),
                shadow.wf(),
                valid_targets(prepared.targets@),
                readable(world_block_at),
                forall|p: BlockPos| #[trigger] shadow@.contains_key(p) ==> valid_state(shadow@[p]),
                forall|blocks: Blocks| #[trigger]
                    reads(world_block_at, blocks) ==> check_targets(
                        prepared.targets@,
                        bounds,
                        player_occupied@,
                        blocks,
                        i as int,
                    ) == (Check { conflicts: conflict_views(conflicts@), shadow: shadow@ }),
            decreases prepared.targets@.len() - i,
        {
            let target = prepared.targets[i];
            let ghost before = conflict_views(conflicts@);
            let current = state_at(&shadow, &world_block_at, target.position);
            if player_occupied.contains(target.position) {
                conflicts.push(
                    PlanConflict::target(
                        "player_collision",
                        "target intersects a connected player's occupied space".to_owned(),
                        target.operation_index,
                        target.position,
                    ),
                );
                proof {
                    assert(conflict_views(conflicts@) =~= before.push(conflicts@.last()@));
                }
            } else {
                let anchor = placement_anchor(&shadow, &world_block_at, target.position);
                let command = WorldCommand::SetBlock {
                    position: target.position,
                    block: target.block,
                };
                let context = CommandContext::for_placement(current, anchor, false);
                match validate_world_command(bounds, command, context) {
                    Ok(()) => shadow.insert(target.position, target.block),
                    Err(error) => {
                        conflicts.push(world_command_conflict(&target, error));
                        proof {
                            assert(conflict_views(conflicts@) =~= before.push(conflicts@.last()@));
                        }
                    },
                }
            }
            i = i + 1;
        }
    }
    BuildValidationReport {
        valid: conflicts.len() == 0,
        plan_hash: prepared.plan_hash.clone(),
        expanded_targets: prepared.targets.len(),
        bounds: prepared.bounds,
        conflicts,
        warnings: copy_texts(&prepared.warnings),
    }
}

/// Validates a prepared plan against the layer, which is only read.
pub fn validate_build_plan(
    prepared: &PreparedPlan,
    layer: &valence::ChunkLayer,
    bounds: WorldBounds,
    player_occupied: &PositionSet,
) -> (r: BuildValidationReport)
    requires
        whole_sections(*layer),
        player_occupied.wf(),
        valid_targets(prepared.targets@),
    ensures
        reports(
            r,
            *prepared,
            plan_conflicts(*prepared, bounds, player_occupied@, blocks_of(world(*layer))),
        ),
{
    let read = |p: BlockPos| -> (b: BlockState)
        ensures
            b == world(*layer).block(p.coords()) && valid_state(b),
        { block_state_at(layer, p) };
    let report = validate_build_plan_with(prepared, bounds, player_occupied, read);
    proof {
        assert(reads(read, blocks_of(world(*layer))));
    }
    report
}

// ---- the JSON of a report ----

/// `{"x":..,"y":..,"z":..}`.
pub open spec fn position_json(p: PlanPosition) -> Seq<char> {
    "{\"x\":"@ + decimal(p.x as int) + ",\"y\":"@ + decimal(p.y as int) + ",\"z\":"@ + decimal(
        p.z as int,
    ) + "}"@
}

/// The JSON of a conflict; what it does not speak of is left out.
pub open spec fn conflict_json(conflict: ConflictView) -> Seq<char> {
    let index = match conflict.operation_index {
        Some(i) => ",\"operation_index\":"@ + decimal_nat(i as nat),
        None => seq![],
    };
    let position = match conflict.position {
        Some(p) => ",\"position\":"@ + position_json(p),
        None => seq![],
    };
    "{\"code\":"@ + json_string(conflict.code) + ",\"message\":"@ + json_string(conflict.message)
        + index + position + "}"@
}

/// The JSON of the first `n` conflicts, separated by commas.
pub open spec fn conflicts_json(conflicts: Seq<ConflictView>, n: int) -> Seq<char>
    decreases n,
{
    if n <= 0 {
        seq![]
    } else if n == 1 {
        conflict_json(conflicts[0])
    } else {
        conflicts_json(conflicts, n - 1) + ","@ + conflict_json(conflicts[n - 1])
    }
}

/// The JSON strings of the first `n` texts, separated by commas.
pub open spec fn strings_json(strings: Seq<Seq<char>>, n: int) -> Seq<char>
    decreases n,
{
    if n <= 0 {
        seq![]
    } else if n == 1 {
        json_string(strings[0])
    } else {
        strings_json(strings, n - 1) + ","@ + json_string(strings[n - 1])
    }
}

/// The JSON of the bounds of a plan.
pub open spec fn bounds_json(bounds: Option<PlanBounds>) -> Seq<char> {
    match bounds {
        None => "null"@,
        Some(b) => "{\"min\":"@ + position_json(b.min) + ",\"max\":"@ + position_json(b.max) + "}"@,
    }
}

/// The JSON of a validation report.
pub open spec fn report_json(report: BuildValidationReport) -> Seq<char> {
    let conflicts = conflict_views(report.conflicts@);
    let warnings = texts(report.warnings@);
    (if report.valid {
        "{\"valid\":true,\"plan_hash\":"@
    } else {
        "{\"valid\":false,\"plan_hash\":"@
    }) + json_string(report.plan_hash@) + ",\"expanded_targets\":"@ + decimal_nat(
        report.expanded_targets as nat,
    ) + ",\"bounds\":"@ + bounds_json(report.bounds) + ",\"conflicts\":["@ + conflicts_json(
        conflicts,
        conflicts.len() as int,
    ) + "],\"warnings\":["@ + strings_json(warnings, warnings.len() as int) + "]}"@
}

fn push_position(out: &mut String, p: PlanPosition)
    ensures
        final(out)@ == old(out)@ + position_json(p),
{
    let ghost start = out@;
    out.append("{\"x\":");
    push_i64(out, p.x as i64);
    out.append(",\"y\":");
    push_i64(out, p.y as i64);
    out.append(",\"z\":");
    push_i64(out, p.z as i64);
    out.append("}");
    proof {
        assert(out@ =~= start + position_json(p));
    }
}

fn push_conflict(out: &mut String, conflict: &PlanConflict)
    ensures
        final(out)@ == old(out)@ + conflict_json(conflict@),
{
    let ghost start = out@;
    out.append("{\"code\":");
    out.append(json_string_text(conflict.code.as_str()).as_str());
    out.append(",\"message\":");
    out.append(json_string_text(conflict.message.as_str()).as_str());
    if let Some(index) = conflict.operation_index {
        out.append(",\"operation_index\":");
        push_u64(out, index as u64);
    }
    if let Some(position) = conflict.position {
        out.append(",\"position\":");
        push_position(out, position);
    }
    out.append("}");
    proof {
        assert(out@ =~= start + conflict_json(conflict@));
    }
}

fn push_conflicts(out: &mut String, conflicts: &Vec<PlanConflict>)
    ensures
        final(out)@ == old(out)@ + conflicts_json(
            conflict_views(conflicts@),
            conflicts@.len() as int,
        ),
{
    let ghost start = out@;
    let ghost views = conflict_views(conflicts@);
    let mut i: usize = 0;
    while i < conflicts.len()
        invariant
            i <= conflicts@.len(),
            views == conflict_views(conflicts@),
            out@ =~= start + conflicts_json(views, i as int),
        decreases conflicts@.len() - i,
    {
        if i > 0 {
            out.append(",");
        }
        push_conflict(out, &conflicts[i]);
        proof {
            assert(views[i as int] == conflicts@[i as int]@);
        }
        i = i + 1;
    }
}

fn push_strings(out: &mut String, strings: &Vec<String>)
    ensures
        final(out)@ == old(out)@ + strings_json(texts(strings@), strings@.len() as int),
{
    let ghost start = out@;
    let ghost views = texts(strings@);
    let mut i: usize = 0;
    while i < strings.len()
        invariant
            i <= strings@.len(),
            views == texts(strings@),
            out@ =~= start + strings_json(views, i as int),
        decreases strings@.len() - i,
    {
        if i > 0 {
            out.append(",");
        }
        out.append(json_string_text(strings[i].as_str()).as_str());
        proof {
            assert(views[i as int] == strings@[i as int]@);
        }
        i = i + 1;
    }
}

/// The JSON of a validation report.
pub fn validation_report_json(report: &BuildValidationReport) -> (r: String)
    ensures
        r@ == report_json(*report),
{
    let mut out = if report.valid {
        "{\"valid\":true,\"plan_hash\":".to_owned()
    } else {
        "{\"valid\":false,\"plan_hash\":".to_owned()
    };
    out.append(json_string_text(report.plan_hash.as_str()).as_str());
    out.append(",\"expanded_targets\":");
    push_u64(&mut out, report.expanded_targets as u64);
    out.append(",\"bounds\":");
    match report.bounds {
        None => out.append("null"),
        Some(b) => {
            let ghost start = out@;
            out.append("{\"min\":");
            push_position(&mut out, b.min);
            out.append(",\"max\":");
            push_position(&mut out, b.max);
            out.append("}");
            proof {
                assert(out@ =~= start + bounds_json(report.bounds));
            }
        },
    }
    out.append(",\"conflicts\":[");
    push_conflicts(&mut out, &report.conflicts);
    out.append("],\"warnings\":[");
    push_strings(&mut out, &report.warnings);
    out.append("]}");
    out
}

// ---- applying ----

/// The world with the blocks of the first `n` targets set.
pub open spec fn placed(w: WorldView, targets: Seq<ExpandedTarget>, n: int) -> WorldView
    decreases n,
{
    if n <= 0 {
        w
    } else {
        placed(w, targets, n - 1).set(targets[n - 1].position.coords(), targets[n - 1].block)
    }
}

/// True iff the two worlds have the same shape and the same block everywhere.
pub open spec fn same_blocks(a: WorldView, b: WorldView) -> bool {
    a.same_shape(b) && forall|p: (int, int, int)| #[trigger] a.block(p) == b.block(p)
}

/// The records of a plan's targets in a world: what stood there, and what is placed.
pub open spec fn captured(w: WorldView, targets: Seq<ExpandedTarget>) -> Seq<BuildBlockRecord> {
    targets.map_values(
        |target: ExpandedTarget|
            BuildBlockRecord {
                position: target.position,
                original_block: w.block(target.position.coords()),
                applied_block: target.block,
            },
    )
}

/// The answer for a stored build.
pub open spec fn is_apply_result(result: ApplyBuildResult, build: StoredBuild) -> bool {
    &&& result.build_id@ == build.build_id@
    &&& result.plan_hash@ == build.plan_hash@
    &&& result.changed == build.changed
    &&& result.skipped == build.skipped
    &&& result.undo_available == (build.state@ == "applied"@)
}

/// The answer for a stored build.
pub fn apply_result(build: &StoredBuild) -> (r: ApplyBuildResult)
    ensures
        is_apply_result(r, *build),
{
    ApplyBuildResult {
        build_id: build.build_id.clone(),
        plan_hash: build.plan_hash.clone(),
        changed: build.changed,
        skipped: build.skipped,
        undo_available: same_text(build.state.as_str(), "applied"),
    }
}

/// What an application comes to before anything is stored.
pub enum ApplyStep {
    /// The key is bound to this plan already: its stored result stands.
    Stored(ApplyBuildResult),
    /// The world was edited: the record is to be stored.
    Store(NewBuildRecord),
}

/// The first target from number `i` on that lies in no loaded chunk.
pub open spec fn first_unloaded(w: WorldView, targets: Seq<ExpandedTarget>, i: int) -> Option<int>
    decreases targets.len() - i,
{
    if i >= targets.len() {
        None
    } else if !w.loaded(targets[i].position.coords()) {
        Some(i)
    } else {
        first_unloaded(w, targets, i + 1)
    }
}

/// What an application in the world `w` answers and leaves behind.
pub open spec fn apply_outcome(
    prepared: PreparedPlan,
    w: WorldView,
    bounds: WorldBounds,
    occupied: Map<BlockPos, ()>,
    existing: Option<StoredBuild>,
    build_id: Seq<char>,
    r: Result<ApplyStep, String>,
    after: WorldView,
) -> bool {
    let conflicts = plan_conflicts(prepared, bounds, occupied, blocks_of(w));
    match existing {
        Some(build) => {
            &&& after == w
            &&& if build.plan_hash@ == prepared.plan_hash@ {
                r matches Ok(ApplyStep::Stored(result)) && is_apply_result(result, build)
            } else {
                r matches Err(message) && message@ == "idempotency_key `"@
                    + prepared.plan.idempotency_key@
                    + "` is already bound to a different plan_hash"@
            }
        },
        None => if conflicts.len() > 0 {
            &&& after == w
            &&& r matches Err(message) && exists|report: BuildValidationReport| #[trigger]
                reports(report, prepared, conflicts) && message@ == "BuildPlan validation failed: "@
                    + report_json(report)
        } else {
            match first_unloaded(w, prepared.targets@, 0) {
                Some(i) => {
                    let error = WorldCommandError::MissingLoadedChunk {
                        position: prepared.targets@[i].position,
                    };
                    &&& same_blocks(after, w)
                    &&& r matches Err(message) && message@ == "authoritative apply failed at "@
                        + prepared.targets@[i].position.spec_text() + ": "@ + error.spec_message()
                },
                None => {
                    &&& after == placed(w, prepared.targets@, prepared.targets@.len() as int)
                    &&& r matches Ok(ApplyStep::Store(record)) && {
                        &&& record.build_id@ == build_id
                        &&& record.idempotency_key@ == prepared.plan.idempotency_key@
                        &&& record.plan_hash@ == prepared.plan_hash@
                        &&& record.canonical_plan_json@ == prepared.canonical_json@
                        &&& record.actor@ == "mcp"@
                        &&& record.blocks@ == captured(w, prepared.targets@)
                    }
                },
            }
        },
    }
}

fn capture_targets(layer: &valence::ChunkLayer, targets: &Vec<ExpandedTarget>) -> (r: Vec<
    BuildBlockRecord,
>)
    requires
        whole_sections(*layer),
        valid_targets(targets@),
    ensures
        r@ == captured(world(*layer), targets@),
        forall|i: int| 0 <= i < r@.len() ==> valid_record(#[trigger] r@[i]),
{
    let mut records: Vec<BuildBlockRecord> = Vec::new();
    let mut i: usize = 0;
    while i < targets.len()
        invariant
            i <= targets@.len(),
            whole_sections(*layer),
            valid_targets(targets@),
            records@ =~= captured(world(*layer), targets@).take(i as int),
            forall|j: int| 0 <= j < records@.len() ==> valid_record(#[trigger] records@[j]),
        decreases targets@.len() - i,
    {
        let target = targets[i];
        records.push(
            BuildBlockRecord {
                position: target.position,
                original_block: block_state_at(layer, target.position),
                applied_block: target.block,
            },
        );
        i = i + 1;
    }
    records
}

/// The world after the records `from..to` were set to their original or their applied blocks.
pub open spec fn rewritten(
    w: WorldView,
    records: Seq<BuildBlockRecord>,
    applied: bool,
    from: int,
    to: int,
) -> WorldView
    decreases to - from,
{
    if to <= from {
        w
    } else {
        rewritten(w, records, applied, from, to - 1).set(
            records[to - 1].position.coords(),
            if applied {
                records[to - 1].applied_block
            } else {
                records[to - 1].original_block
            },
        )
    }
}

fn rewrite(
    layer: &mut valence::ChunkLayer,
    records: &Vec<BuildBlockRecord>,
    applied: bool,
    from: usize,
    to: usize,
)
    requires
        whole_sections(*old(layer)),
        from <= to <= records@.len(),
        forall|i: int| 0 <= i < records@.len() ==> valid_record(#[trigger] records@[i]),
    ensures
        whole_sections(*final(layer)),
        world(*final(layer)) == rewritten(
            world(*old(layer)),
            records@,
            applied,
            from as int,
            to as int,
        ),
{
    let ghost start = world(*layer);
    let mut i: usize = from;
    while i < to
        invariant
            from <= i <= to <= records@.len(),
            whole_sections(*layer),
            forall|j: int| 0 <= j < records@.len() ==> valid_record(#[trigger] records@[j]),
            world(*layer) == rewritten(start, records@, applied, from as int, i as int),
        decreases to - i,
    {
        let record = records[i];
        assert(valid_record(records@[i as int]));
        let block = if applied {
            record.applied_block
        } else {
            record.original_block
        };
        let _ = layer_set_block(layer, record.position, block);
        i = i + 1;
    }
}

/// Sets back the first `count` records to their original blocks, or the last `count` to their
/// applied ones.
pub fn restore_prefix(
    layer: &mut valence::ChunkLayer,
    blocks: &Vec<BuildBlockRecord>,
    count: usize,
    applied_state: bool,
)
    requires
        whole_sections(*old(layer)),
        forall|i: int| 0 <= i < blocks@.len() ==> valid_record(#[trigger] blocks@[i]),
    ensures
        whole_sections(*final(layer)),
        world(*final(layer)) == {
            let n = blocks@.len() as int;
            let c = if count < n {
                count as int
            } else {
                n
            };
            if applied_state {
                rewritten(world(*old(layer)), blocks@, true, n - c, n)
            } else {
                rewritten(world(*old(layer)), blocks@, false, 0, c)
            }
        },
{
    let selected: usize = if count < blocks.len() {
        count
    } else {
        blocks.len()
    };
    if applied_state {
        rewrite(layer, blocks, true, blocks.len() - selected, blocks.len());
    } else {
        rewrite(layer, blocks, false, 0, selected);
    }
}

proof fn rewritten_shape(w: WorldView, records: Seq<BuildBlockRecord>, applied: bool, from: int, to: int)
    ensures
        rewritten(w, records, applied, from, to).same_shape(w),
    decreases to - from,
{
    if to > from {
        rewritten_shape(w, records, applied, from, to - 1);
    }
}

proof fn placed_shape(w: WorldView, targets: Seq<ExpandedTarget>, n: int)
    ensures
        placed(w, targets, n).same_shape(w),
    decreases n,
{
    if n > 0 {
        placed_shape(w, targets, n - 1);
    }
}

/// Where nothing was placed, placing leaves the block alone.
proof fn placed_elsewhere(w: WorldView, targets: Seq<ExpandedTarget>, n: int, p: (int, int, int))
    requires
        0 <= n <= targets.len(),
        forall|i: int| 0 <= i < n ==> (#[trigger] targets[i]).position.coords() != p,
    ensures
        placed(w, targets, n).block(p) == w.block(p),
    decreases n,
{
    if n > 0 {
        placed_elsewhere(w, targets, n - 1, p);
        placed_shape(w, targets, n - 1);
        assert(targets[n - 1].position.coords() != p);
    }
}

/// Setting captured records back, after some or all targets were placed, restores every block.
proof fn restoring_undoes_placing(w: WorldView, targets: Seq<ExpandedTarget>, n: int, p: (int, int, int))
    requires
        0 <= n <= targets.len(),
    ensures
        rewritten(placed(w, targets, n), captured(w, targets), false, 0, n).block(p) == w.block(p),
{
    let start = placed(w, targets, n);
    placed_shape(w, targets, n);
    if exists|i: int| 0 <= i < n && (#[trigger] targets[i]).position.coords() == p {
        restored_position(start, w, targets, n, p);
    } else {
        placed_elsewhere(w, targets, n, p);
        rewritten_elsewhere(start, captured(w, targets), false, 0, n, p);
    }
}

proof fn rewritten_elsewhere(
    w: WorldView,
    records: Seq<BuildBlockRecord>,
    applied: bool,
    from: int,
    to: int,
    p: (int, int, int),
)
    requires
        0 <= from,
        to <= records.len(),
        forall|i: int| from <= i < to ==> (#[trigger] records[i]).position.coords() != p,
    ensures
        rewritten(w, records, applied, from, to).block(p) == w.block(p),
    decreases to - from,
{
    if to > from {
        rewritten_elsewhere(w, records, applied, from, to - 1, p);
        rewritten_shape(w, records, applied, from, to - 1);
        assert(records[to - 1].position.coords() != p);
    }
}

proof fn restored_position(
    start: WorldView,
    w: WorldView,
    targets: Seq<ExpandedTarget>,
    n: int,
    p: (int, int, int),
)
    requires
        0 <= n <= targets.len(),
        start.same_shape(w),
        exists|i: int| 0 <= i < n && (#[trigger] targets[i]).position.coords() == p,
    ensures
        rewritten(start, captured(w, targets), false, 0, n).block(p) == w.block(p),
    decreases n,
{
    let records = captured(w, targets);
    rewritten_shape(start, records, false, 0, n - 1);
    if targets[n - 1].position.coords() == p {
        assert(records[n - 1].original_block == w.block(p));
    } else {
        let i = choose|i: int| 0 <= i < n && (#[trigger] targets[i]).position.coords() == p;
        assert(targets[i].position.coords() == p);
        restored_position(start, w, targets, n - 1, p);
    }
}

/// A conflict-free check placed every target so far in its shadow.
proof fn clean_check(
    targets: Seq<ExpandedTarget>,
    bounds: WorldBounds,
    occupied: Map<BlockPos, ()>,
    blocks: Blocks,
    n: int,
    m: int,
)
    requires
        0 <= n <= m,
        check_targets(targets, bounds, occupied, blocks, m).conflicts.len() == 0,
    ensures
        check_targets(targets, bounds, occupied, blocks, n).conflicts.len() == 0,
    decreases m,
{
    if n < m {
        clean_check(targets, bounds, occupied, blocks, n, m - 1);
    }
}

/// The shadow of a conflict-free check over the world is the world with the targets placed, as
/// far as they lie in loaded chunks.
proof fn shadow_is_placed(
    targets: Seq<ExpandedTarget>,
    bounds: WorldBounds,
    occupied: Map<BlockPos, ()>,
    w: WorldView,
    n: int,
)
    requires
        0 <= n <= targets.len(),
        check_targets(targets, bounds, occupied, blocks_of(w), n).conflicts.len() == 0,
        forall|i: int| 0 <= i < n ==> w.loaded((#[trigger] targets[i]).position.coords()),
    ensures
        forall|p: BlockPos|
            shadowed(
                check_targets(targets, bounds, occupied, blocks_of(w), n).shadow,
                blocks_of(w),
                p,
            ) == #[trigger] blocks_of(placed(w, targets, n))(p),
    decreases n,
{
    if n > 0 {
        clean_check(targets, bounds, occupied, blocks_of(w), n - 1, n);
        shadow_is_placed(targets, bounds, occupied, w, n - 1);
        placed_shape(w, targets, n - 1);
        let before = check_targets(targets, bounds, occupied, blocks_of(w), n - 1);
        let after = check_targets(targets, bounds, occupied, blocks_of(w), n);
        let target = targets[n - 1];
        assert(w.loaded(target.position.coords()));
        assert(after.shadow == before.shadow.insert(target.position, target.block));
        assert forall|p: BlockPos|
            shadowed(after.shadow, blocks_of(w), p) == #[trigger] blocks_of(
                placed(w, targets, n),
            )(p) by {
            assert(blocks_of(placed(w, targets, n - 1))(p) == shadowed(
                before.shadow,
                blocks_of(w),
                p,
            ));
            if p != target.position {
                assert(p.coords() != target.position.coords());
            }
        }
    }
}

/// Two worlds with the same blocks give a placement the same thing to lean on.
proof fn anchors_agree(
    s1: Map<BlockPos, BlockState>,
    b1: Blocks,
    s2: Map<BlockPos, BlockState>,
    b2: Blocks,
    p: BlockPos,
    k: int,
)
    requires
        forall|q: BlockPos| shadowed(s1, b1, q) == #[trigger] shadowed(s2, b2, q),
        0 <= k <= 6,
    ensures
        anchor_from(s1, b1, p, k) == anchor_from(s2, b2, p, k),
    decreases 6 - k,
{
    if k < 6 {
        anchors_agree(s1, b1, s2, b2, p, k + 1);
        match neighbor(p, k) {
            Some(q) => {
                assert(shadowed(s1, b1, q) == shadowed(s2, b2, q));
            },
            None => {},
        }
    }
}

/// In the world with the earlier targets placed, the next target of a conflict-free check breaks
/// no rule.
proof fn next_target_is_allowed(
    targets: Seq<ExpandedTarget>,
    bounds: WorldBounds,
    occupied: Map<BlockPos, ()>,
    w: WorldView,
    n: int,
)
    requires
        0 <= n < targets.len(),
        check_targets(targets, bounds, occupied, blocks_of(w), targets.len() as int).conflicts.len()
            == 0,
        forall|i: int| 0 <= i < n ==> w.loaded((#[trigger] targets[i]).position.coords()),
    ensures
        command_error(
            bounds,
            target_command(targets[n]),
            target_context(Map::empty(), blocks_of(placed(w, targets, n)), targets[n]),
        ) is None,
{
    let blocks = blocks_of(w);
    clean_check(targets, bounds, occupied, blocks, n, targets.len() as int);
    clean_check(targets, bounds, occupied, blocks, n + 1, targets.len() as int);
    shadow_is_placed(targets, bounds, occupied, w, n);
    let check = check_targets(targets, bounds, occupied, blocks, n);
    let now = blocks_of(placed(w, targets, n));
    let empty = Map::<BlockPos, BlockState>::empty();
    assert forall|q: BlockPos| shadowed(check.shadow, blocks, q) == #[trigger] shadowed(
        empty,
        now,
        q,
    ) by {
        assert(now(q) == shadowed(check.shadow, blocks, q));
    }
    anchors_agree(check.shadow, blocks, empty, now, targets[n].position, 0);
    assert(shadowed(check.shadow, blocks, targets[n].position) == shadowed(
        empty,
        now,
        targets[n].position,
    ));
}

proof fn unloaded_found(w: WorldView, targets: Seq<ExpandedTarget>, from: int, i: int)
    requires
        0 <= from <= i <= targets.len(),
        forall|k: int| from <= k < i ==> w.loaded((#[trigger] targets[k]).position.coords()),
        i < targets.len() ==> !w.loaded(targets[i].position.coords()),
    ensures
        first_unloaded(w, targets, from) == if i < targets.len() {
            Some(i)
        } else {
            None
        },
    decreases i - from,
{
    if from < i {
        assert(w.loaded(targets[from].position.coords()));
        unloaded_found(w, targets, from + 1, i);
    }
}

/// Validates a prepared plan and, where nothing stands against it, edits the world and gives the
/// record to store under `build_id`. A plan whose key is bound already changes nothing, and an
/// application that cannot be finished leaves every block as it was.
pub fn begin_apply_build_plan(
    prepared: &PreparedPlan,
    layer: &mut valence::ChunkLayer,
    bounds: WorldBounds,
    player_occupied: &PositionSet,
    existing: &Option<StoredBuild>,
    build_id: String,
) -> (r: Result<ApplyStep, String>)
    requires
        whole_sections(*old(layer)),
        player_occupied.wf(),
        valid_targets(prepared.targets@),
    ensures
        whole_sections(*final(layer)),
        r matches Ok(ApplyStep::Store(record)) ==> forall|i: int|
            0 <= i < record.blocks@.len() ==> valid_record(#[trigger] record.blocks@[i]),
        apply_outcome(
            *prepared,
            world(*old(layer)),
            bounds,
            player_occupied@,
            *existing,
            build_id@,
            r,
            world(*final(layer)),
        ),
{
    if let Some(build) = existing {
        if !same_text(build.plan_hash.as_str(), prepared.plan_hash.as_str()) {
            let mut message = "idempotency_key `".to_owned();
            message.append(prepared.plan.idempotency_key.as_str());
            message.append("` is already bound to a different plan_hash");
            return Err(message);
        }
        return Ok(ApplyStep::Stored(apply_result(build)));
    }
    let ghost w = world(*layer);
    let report = validate_build_plan(prepared, layer, bounds, player_occupied);
    let ghost conflicts = plan_conflicts(*prepared, bounds, player_occupied@, blocks_of(w));
    if !report.valid {
        let mut message = "BuildPlan validation failed: ".to_owned();
        message.append(validation_report_json(&report).as_str());
        proof {
            assert(reports(report, *prepared, conflicts));
        }
        return Err(message);
    }
    proof {
        if prepared.conflicts@.len() > 0 {
            assert(conflict_views(prepared.conflicts@).len() == prepared.conflicts@.len());
        }
    }
    let blocks = capture_targets(layer, &prepared.targets);
    let ghost targets = prepared.targets@;
    let mut i: usize = 0;
    while i < prepared.targets.len()
        invariant
            i <= prepared.targets@.len(),
            targets == prepared.targets@,
            whole_sections(*layer),
            w == world(*old(layer)),
            *existing is None,
            valid_targets(prepared.targets@),
            conflicts == plan_conflicts(*prepared, bounds, player_occupied@, blocks_of(w)),
            conflicts.len() == 0,
            prepared.conflicts@.len() == 0,
            blocks@ == captured(w, targets),
            forall|j: int| 0 <= j < blocks@.len() ==> valid_record(#[trigger] blocks@[j]),
            world(*layer) == placed(w, targets, i as int),
            forall|j: int| 0 <= j < i ==> w.loaded((#[trigger] targets[j]).position.coords()),
        decreases prepared.targets@.len() - i,
    {
        let target = prepared.targets[i];
        let current = block_state_at(layer, target.position);
        let anchor = placement_anchor_in_layer(layer, target.position);
        let context = CommandContext::for_placement(current, anchor, false);
        let command = WorldCommand::SetBlock { position: target.position, block: target.block };
        proof {
            next_target_is_allowed(targets, bounds, player_occupied@, w, i as int);
            placed_shape(w, targets, i as int);
        }
        match execute_world_command(layer, bounds, command, context) {
            Ok(()) => {},
            Err(error) => {
                restore_prefix(layer, &blocks, i, false);
                proof {
                    unloaded_found(w, targets, 0, i as int);
                    assert forall|p: (int, int, int)| #[trigger] world(*layer).block(p) == w.block(
                        p,
                    ) by {
                        restoring_undoes_placing(w, targets, i as int, p);
                    }
                    rewritten_shape(placed(w, targets, i as int), blocks@, false, 0, i as int);
                }
                let mut message = "authoritative apply failed at ".to_owned();
                message.append(target.position.text().as_str());
                message.append(": ");
                message.append(error.message().as_str());
                return Err(message);
            },
        }
        i = i + 1;
    }
    proof {
        unloaded_found(w, targets, 0, i as int);
    }
    Ok(
        ApplyStep::Store(
            NewBuildRecord {
                build_id,
                idempotency_key: prepared.plan.idempotency_key.clone(),
                plan_hash: prepared.plan_hash.clone(),
                canonical_plan_json: prepared.canonical_json.clone(),
                actor: "mcp".to_owned(),
                blocks,
            },
        ),
    )
}

/// Applies a prepared plan under a fresh random build id.
pub fn apply_build_plan(
    prepared: &PreparedPlan,
    layer: &mut valence::ChunkLayer,
    bounds: WorldBounds,
    player_occupied: &PositionSet,
    existing: &Option<StoredBuild>,
) -> (r: Result<ApplyStep, String>)
    requires
        whole_sections(*old(layer)),
        player_occupied.wf(),
        valid_targets(prepared.targets@),
    ensures
        whole_sections(*final(layer)),
        r matches Ok(ApplyStep::Store(record)) ==> forall|i: int|
            0 <= i < record.blocks@.len() ==> valid_record(#[trigger] record.blocks@[i]),
        exists|build_id: Seq<char>|
            is_hyphenated_id(build_id) && #[trigger] apply_outcome(
                *prepared,
                world(*old(layer)),
                bounds,
                player_occupied@,
                *existing,
                build_id,
                r,
                world(*final(layer)),
            ),
{
    begin_apply_build_plan(
        prepared,
        layer,
        bounds,
        player_occupied,
        existing,
        new_hyphenated_id(),
    )
}

/// Ends an application: a stored build gives its result; where storing failed, the blocks that
/// were captured are set back.
pub fn finish_apply_build_plan(
    layer: &mut valence::ChunkLayer,
    blocks: &Vec<BuildBlockRecord>,
    stored: Result<StoredBuild, String>,
) -> (r: Result<ApplyBuildResult, String>)
    requires
        whole_sections(*old(layer)),
        forall|i: int| 0 <= i < blocks@.len() ==> valid_record(#[trigger] blocks@[i]),
    ensures
        whole_sections(*final(layer)),
        match stored {
            Ok(build) => {
                &&& world(*final(layer)) == world(*old(layer))
                &&& r matches Ok(result) && is_apply_result(result, build)
            },
            Err(error) => {
                &&& world(*final(layer)) == rewritten(
                    world(*old(layer)),
                    blocks@,
                    false,
                    0,
                    blocks@.len() as int,
                )
                &&& r matches Err(message) && message@
                    == "durable build transaction failed; live world restored: "@ + error@
            },
        },
{
    match stored {
        Ok(build) => Ok(apply_result(&build)),
        Err(error) => {
            restore_prefix(layer, blocks, blocks.len(), false);
            let mut message = "durable build transaction failed; live world restored: ".to_owned();
            message.append(error.as_str());
            Err(message)
        },
    }
}

/// An application whose record could not be stored leaves every block as it was before.
pub proof fn failed_storing_restores_the_world(w: WorldView, targets: Seq<ExpandedTarget>)
    ensures
        same_blocks(
            rewritten(
                placed(w, targets, targets.len() as int),
                captured(w, targets),
                false,
                0,
                targets.len() as int,
            ),
            w,
        ),
{
    let n = targets.len() as int;
    let after = rewritten(placed(w, targets, n), captured(w, targets), false, 0, n);
    placed_shape(w, targets, n);
    rewritten_shape(placed(w, targets, n), captured(w, targets), false, 0, n);
    assert forall|p: (int, int, int)| #[trigger] after.block(p) == w.block(p) by {
        restoring_undoes_placing(w, targets, n, p);
    }
}

// ---- undoing ----

/// A build that was looked up by its id.
pub fn get_build(found: Option<StoredBuild>, build_id: &str) -> (r: Result<StoredBuild, String>)
    ensures
        match found {
            Some(build) => r == Ok::<StoredBuild, String>(build),
            None => r matches Err(message) && message@ == "unknown build_id `"@ + build_id@ + "`"@,
        },
{
    match found {
        Some(build) => Ok(build),
        None => {
            let mut message = "unknown build_id `".to_owned();
            message.append(build_id);
            message.append("`");
            Err(message)
        },
    }
}

/// What an undo comes to before anything is stored.
pub enum UndoStep {
    /// The build was undone before.
    AlreadyUndone(UndoBuildResult),
    /// The world was restored: the undo is to be stored.
    Store,
}

/// Why a record cannot be undone, before anything is touched: its block has changed since, or it
/// lies outside the bounds.
pub open spec fn record_obstacle(w: WorldView, bounds: WorldBounds, record: BuildBlockRecord) -> Option<
    Seq<char>,
> {
    let p = record.position;
    if w.block(p.coords()) != record.applied_block {
        Some(
            "cannot undo build with drift at "@ + p.spec_text() + ": expected "@ + state_text(
                record.applied_block,
            ) + ", found "@ + state_text(w.block(p.coords())),
        )
    } else if !bounds.has(p.coords()) {
        Some("cannot undo build target outside active bounds: "@ + p.spec_text())
    } else {
        None
    }
}

/// The first obstacle among the records from number `i` on.
pub open spec fn first_obstacle(
    w: WorldView,
    bounds: WorldBounds,
    records: Seq<BuildBlockRecord>,
    i: int,
) -> Option<Seq<char>>
    decreases records.len() - i,
{
    if i >= records.len() {
        None
    } else {
        match record_obstacle(w, bounds, records[i]) {
            Some(message) => Some(message),
            None => first_obstacle(w, bounds, records, i + 1),
        }
    }
}

/// The world with the last `k` records set back to their original blocks, the last one first.
pub open spec fn undone(w: WorldView, records: Seq<BuildBlockRecord>, k: int) -> WorldView
    decreases k,
{
    if k <= 0 {
        w
    } else {
        let record = records[records.len() - k];
        undone(w, records, k - 1).set(record.position.coords(), record.original_block)
    }
}

/// The rule that setting a record back breaks. Air is restored by a removal, which keeps the rules
/// of the world; any other block only needs a loaded chunk.
pub open spec fn undo_error(w: WorldView, bounds: WorldBounds, record: BuildBlockRecord) -> Option<
    WorldCommandError,
> {
    if record.original_block == AIR {
        execution_error(
            w,
            bounds,
            WorldCommand::RemoveBlock { position: record.position },
            CommandContext {
                target_block: w.block(record.position.coords()),
                anchor_block: None,
                actor_head_inside_block: false,
            },
        )
    } else if w.loaded(record.position.coords()) {
        None
    } else {
        Some(WorldCommandError::MissingLoadedChunk { position: record.position })
    }
}

/// The number of records that can be set back before one cannot, from the last one on, starting
/// at `k`.
pub open spec fn undo_failure(
    w: WorldView,
    bounds: WorldBounds,
    records: Seq<BuildBlockRecord>,
    k: int,
) -> Option<int>
    decreases records.len() - k,
{
    if k >= records.len() {
        None
    } else if undo_error(undone(w, records, k), bounds, records[records.len() - 1 - k]) is Some {
        Some(k)
    } else {
        undo_failure(w, bounds, records, k + 1)
    }
}

/// What an undo in the world `w` answers and leaves behind.
pub open spec fn undo_outcome(
    build: StoredBuild,
    w: WorldView,
    bounds: WorldBounds,
    r: Result<UndoStep, String>,
    after: WorldView,
) -> bool {
    let records = build.blocks@;
    if build.state@ == "undone"@ {
        &&& after == w
        &&& r matches Ok(UndoStep::AlreadyUndone(result)) && {
            &&& result.build_id@ == build.build_id@
            &&& result.state@ == "undone"@
            &&& result.restored == build.changed
            &&& result.already_undone
        }
    } else {
        match first_obstacle(w, bounds, records, 0) {
            Some(obstacle) => {
                &&& after == w
                &&& r matches Err(message) && message@ == obstacle
            },
            None => match undo_failure(w, bounds, records, 0) {
                Some(k) => {
                    let record = records[records.len() - 1 - k];
                    let error = undo_error(undone(w, records, k), bounds, record)->0;
                    &&& same_blocks(after, w)
                    &&& r matches Err(message) && message@ == "authoritative undo failed at "@
                        + record.position.spec_text() + ": "@ + error.spec_message()
                },
                None => {
                    &&& after == undone(w, records, records.len() as int)
                    &&& r == Ok::<UndoStep, String>(UndoStep::Store)
                },
            },
        }
    }
}

proof fn undone_shape(w: WorldView, records: Seq<BuildBlockRecord>, k: int)
    ensures
        undone(w, records, k).same_shape(w),
    decreases k,
{
    if k > 0 {
        undone_shape(w, records, k - 1);
    }
}

proof fn undone_elsewhere(w: WorldView, records: Seq<BuildBlockRecord>, k: int, p: (int, int, int))
    requires
        0 <= k <= records.len(),
        forall|i: int|
            records.len() - k <= i < records.len() ==> (#[trigger] records[i]).position.coords() != p,
    ensures
        undone(w, records, k).block(p) == w.block(p),
    decreases k,
{
    if k > 0 {
        undone_elsewhere(w, records, k - 1, p);
        undone_shape(w, records, k - 1);
        assert(records[records.len() - k].position.coords() != p);
    }
}

/// Setting records to their applied blocks again gives back a world in which they stood so.
proof fn reapplying_restores(
    w: WorldView,
    start: WorldView,
    records: Seq<BuildBlockRecord>,
    from: int,
    to: int,
    p: (int, int, int),
)
    requires
        0 <= from,
        to <= records.len(),
        start.same_shape(w),
        forall|i: int|
            0 <= i < records.len() ==> w.block((#[trigger] records[i]).position.coords())
                == records[i].applied_block,
        (exists|i: int| from <= i < to && (#[trigger] records[i]).position.coords() == p)
            || start.block(p) == w.block(p),
    ensures
        rewritten(start, records, true, from, to).block(p) == w.block(p),
    decreases to - from,
{
    if from < to {
        rewritten_shape(start, records, true, from, to - 1);
        if records[to - 1].position.coords() == p {
            assert(w.block(records[to - 1].position.coords()) == records[to - 1].applied_block);
        } else {
            if exists|i: int| from <= i < to && (#[trigger] records[i]).position.coords() == p {
                let i = choose|i: int|
                    from <= i < to && (#[trigger] records[i]).position.coords() == p;
                assert(records[i].position.coords() == p);
            }
            reapplying_restores(w, start, records, from, to - 1, p);
        }
    }
}

proof fn no_drift(w: WorldView, bounds: WorldBounds, records: Seq<BuildBlockRecord>, i: int)
    requires
        0 <= i,
        first_obstacle(w, bounds, records, i) is None,
    ensures
        forall|j: int|
            i <= j < records.len() ==> w.block((#[trigger] records[j]).position.coords())
                == records[j].applied_block && bounds.has(records[j].position.coords()),
    decreases records.len() - i,
{
    if i < records.len() {
        no_drift(w, bounds, records, i + 1);
    }
}

fn find_obstacle(
    layer: &valence::ChunkLayer,
    bounds: WorldBounds,
    records: &Vec<BuildBlockRecord>,
) -> (r: Option<String>)
    requires
        whole_sections(*layer),
        forall|i: int| 0 <= i < records@.len() ==> valid_record(#[trigger] records@[i]),
    ensures
        r is Some == first_obstacle(world(*layer), bounds, records@, 0) is Some,
        r matches Some(message) ==> first_obstacle(world(*layer), bounds, records@, 0) == Some(
            message@,
        ),
{
    let ghost w = world(*layer);
    let mut i: usize = 0;
    while i < records.len()
        invariant
            i <= records@.len(),
            w == world(*layer),
            whole_sections(*layer),
            forall|j: int| 0 <= j < records@.len() ==> valid_record(#[trigger] records@[j]),
            first_obstacle(w, bounds, records@, 0) == first_obstacle(
                w,
                bounds,
                records@,
                i as int,
            ),
        decreases records@.len() - i,
    {
        let record = records[i];
        assert(valid_record(records@[i as int]));
        let current = block_state_at(layer, record.position);
        if current != record.applied_block {
            let mut message = "cannot undo build with drift at ".to_owned();
            message.append(record.position.text().as_str());
            message.append(": expected ");
            message.append(block_text(record.applied_block).as_str());
            message.append(", found ");
            message.append(block_text(current).as_str());
            return Some(message);
        }
        if !bounds.contains(record.position) {
            let mut message = "cannot undo build target outside active bounds: ".to_owned();
            message.append(record.position.text().as_str());
            return Some(message);
        }
        i = i + 1;
    }
    None
}

fn undo_record(layer: &mut valence::ChunkLayer, bounds: WorldBounds, record: BuildBlockRecord) -> (r:
    Result<(), WorldCommandError>)
    requires
        whole_sections(*old(layer)),
        valid_record(record),
    ensures
        whole_sections(*final(layer)),
        r == outcome(undo_error(world(*old(layer)), bounds, record)),
        r matches Err(error) ==> error.valid(),
        world(*final(layer)) == if r is Ok {
            world(*old(layer)).set(record.position.coords(), record.original_block)
        } else {
            world(*old(layer))
        },
{
    if record.original_block == AIR {
        let current = block_state_at(layer, record.position);
        execute_world_command(
            layer,
            bounds,
            WorldCommand::RemoveBlock { position: record.position },
            CommandContext::for_existing_block(current),
        )
    } else if layer_set_block(layer, record.position, record.original_block) {
        Ok(())
    } else {
        Err(WorldCommandError::MissingLoadedChunk { position: record.position })
    }
}

/// Restores the captured blocks of a build, the last one first. A build that was undone before
/// changes nothing; a build whose blocks have changed since, or that lies outside the bounds, is
/// refused; and an undo that cannot be finished leaves every block as it was.
pub fn begin_undo_build(layer: &mut valence::ChunkLayer, bounds: WorldBounds, build: &StoredBuild) -> (r:
    Result<UndoStep, String>)
    requires
        whole_sections(*old(layer)),
        forall|i: int| 0 <= i < build.blocks@.len() ==> valid_record(#[trigger] build.blocks@[i]),
    ensures
        whole_sections(*final(layer)),
        undo_outcome(*build, world(*old(layer)), bounds, r, world(*final(layer))),
{
    if same_text(build.state.as_str(), "undone") {
        return Ok(
            UndoStep::AlreadyUndone(
                UndoBuildResult {
                    build_id: build.build_id.clone(),
                    state: build.state.clone(),
                    restored: build.changed,
                    already_undone: true,
                },
            ),
        );
    }
    if let Some(message) = find_obstacle(layer, bounds, &build.blocks) {
        return Err(message);
    }
    let ghost w = world(*layer);
    let ghost records = build.blocks@;
    proof {
        no_drift(w, bounds, records, 0);
    }
    let mut k: usize = 0;
    while k < build.blocks.len()
        invariant
            k <= records.len(),
            records == build.blocks@,
            build.state@ != "undone"@,
            w == world(*old(layer)),
            whole_sections(*layer),
            forall|i: int| 0 <= i < records.len() ==> valid_record(#[trigger] records[i]),
            first_obstacle(w, bounds, records, 0) is None,
            forall|j: int|
                0 <= j < records.len() ==> w.block((#[trigger] records[j]).position.coords())
                    == records[j].applied_block,
            world(*layer) == undone(w, records, k as int),
            undo_failure(w, bounds, records, 0) == undo_failure(w, bounds, records, k as int),
        decreases records.len() - k,
    {
        let record = build.blocks[build.blocks.len() - 1 - k];
        assert(valid_record(records[records.len() - 1 - k]));
        match undo_record(layer, bounds, record) {
            Ok(()) => {},
            Err(error) => {
                let ghost before = undone(w, records, k as int);
                restore_prefix(layer, &build.blocks, k, true);
                proof {
                    let n = records.len() as int;
                    undone_shape(w, records, k as int);
                    rewritten_shape(before, records, true, n - k, n);
                    assert forall|p: (int, int, int)| #[trigger] world(*layer).block(p) == w.block(
                        p,
                    ) by {
                        if !(exists|i: int|
                            n - k <= i < n && (#[trigger] records[i]).position.coords() == p) {
                            undone_elsewhere(w, records, k as int, p);
                        }
                        reapplying_restores(w, before, records, n - k, n, p);
                    }
                }
                let mut message = "authoritative undo failed at ".to_owned();
                message.append(record.position.text().as_str());
                message.append(": ");
                message.append(error.message().as_str());
                return Err(message);
            },
        }
        k = k + 1;
    }
    Ok(UndoStep::Store)
}

/// Ends an undo: a stored one gives its result; where storing failed, the applied blocks are set
/// again.
pub fn finish_undo_build(
    layer: &mut valence::ChunkLayer,
    blocks: &Vec<BuildBlockRecord>,
    stored: Result<StoredBuild, String>,
) -> (r: Result<UndoBuildResult, String>)
    requires
        whole_sections(*old(layer)),
        forall|i: int| 0 <= i < blocks@.len() ==> valid_record(#[trigger] blocks@[i]),
    ensures
        whole_sections(*final(layer)),
        match stored {
            Ok(build) => {
                &&& world(*final(layer)) == world(*old(layer))
                &&& r matches Ok(result) && {
                    &&& result.build_id@ == build.build_id@
                    &&& result.state@ == build.state@
                    &&& result.restored == build.changed
                    &&& !result.already_undone
                }
            },
            Err(error) => {
                &&& world(*final(layer)) == rewritten(
                    world(*old(layer)),
                    blocks@,
                    true,
                    0,
                    blocks@.len() as int,
                )
                &&& r matches Err(message) && message@
                    == "durable undo transaction failed; live applied state restored: "@ + error@
            },
        },
{
    match stored {
        Ok(build) => Ok(
            UndoBuildResult {
                build_id: build.build_id,
                state: build.state,
                restored: build.changed,
                already_undone: false,
            },
        ),
        Err(error) => {
            restore_prefix(layer, blocks, blocks.len(), true);
            let mut message =
                "durable undo transaction failed; live applied state restored: ".to_owned();
            message.append(error.as_str());
            Err(message)
        },
    }
}

// ---- laws ----

/// Undoing a build restores the exact state that it captured: every block of the world is again
/// what it was before the build.
pub proof fn undo_restores_the_captured_world(w: WorldView, targets: Seq<ExpandedTarget>)
    ensures
        same_blocks(
            undone(
                placed(w, targets, targets.len() as int),
                captured(w, targets),
                targets.len() as int,
            ),
            w,
        ),
{
    let n = targets.len() as int;
    let start = placed(w, targets, n);
    let records = captured(w, targets);
    placed_shape(w, targets, n);
    undone_shape(start, records, n);
    assert forall|p: (int, int, int)| #[trigger] undone(start, records, n).block(p) == w.block(p) by {
        if exists|i: int| 0 <= i < n && (#[trigger] targets[i]).position.coords() == p {
            let i = choose|i: int| 0 <= i < n && (#[trigger] targets[i]).position.coords() == p;
            undone_position(start, w, targets, n, i, p);
        } else {
            placed_elsewhere(w, targets, n, p);
            undone_elsewhere(start, records, n, p);
        }
    }
}

proof fn undone_position(
    start: WorldView,
    w: WorldView,
    targets: Seq<ExpandedTarget>,
    k: int,
    i: int,
    p: (int, int, int),
)
    requires
        0 < k <= targets.len(),
        targets.len() - k <= i < targets.len(),
        start.same_shape(w),
        targets[i].position.coords() == p,
    ensures
        undone(start, captured(w, targets), k).block(p) == w.block(p),
    decreases k,
{
    let records = captured(w, targets);
    undone_shape(start, records, k - 1);
    let at = targets.len() - k;
    if targets[at].position.coords() == p {
        assert(records[at].original_block == w.block(p));
    } else {
        undone_position(start, w, targets, k - 1, i, p);
    }
}

/// An undo whose record could not be stored leaves every block as it was before the undo.
pub proof fn failed_undo_storing_restores_the_world(
    w: WorldView,
    bounds: WorldBounds,
    records: Seq<BuildBlockRecord>,
)
    requires
        first_obstacle(w, bounds, records, 0) is None,
    ensures
        same_blocks(
            rewritten(
                undone(w, records, records.len() as int),
                records,
                true,
                0,
                records.len() as int,
            ),
            w,
        ),
{
    let n = records.len() as int;
    let start = undone(w, records, n);
    no_drift(w, bounds, records, 0);
    undone_shape(w, records, n);
    rewritten_shape(start, records, true, 0, n);
    assert forall|p: (int, int, int)| #[trigger] rewritten(start, records, true, 0, n).block(p)
        == w.block(p) by {
        if !(exists|i: int| 0 <= i < n && (#[trigger] records[i]).position.coords() == p) {
            undone_elsewhere(w, records, n, p);
        }
        reapplying_restores(w, start, records, 0, n, p);
    }
}

/// Applying the same plan under the same key again gives the stored result and changes nothing;
/// another plan under that key is refused.
pub proof fn repeated_apply_is_safe(
    prepared: PreparedPlan,
    w: WorldView,
    bounds: WorldBounds,
    occupied: Map<BlockPos, ()>,
    build: StoredBuild,
    build_id: Seq<char>,
    r: Result<ApplyStep, String>,
    after: WorldView,
)
    requires
        apply_outcome(prepared, w, bounds, occupied, Some(build), build_id, r, after),
    ensures
        after == w,
        build.plan_hash@ == prepared.plan_hash@ ==> (r matches Ok(ApplyStep::Stored(result))
            && is_apply_result(result, build)),
        build.plan_hash@ != prepared.plan_hash@ ==> r is Err,
{
}

/// Undoing an undone build again answers the same and changes nothing.
pub proof fn repeated_undo_is_safe(
    build: StoredBuild,
    w: WorldView,
    bounds: WorldBounds,
    r: Result<UndoStep, String>,
    after: WorldView,
)
    requires
        build.state@ == "undone"@,
        undo_outcome(build, w, bounds, r, after),
    ensures
        after == w,
        r matches Ok(UndoStep::AlreadyUndone(result)) && result.already_undone,
{
}

/// A refused or failed application leaves every block of the world as it was.
pub proof fn failed_apply_changes_nothing(
    prepared: PreparedPlan,
    w: WorldView,
    bounds: WorldBounds,
    occupied: Map<BlockPos, ()>,
    existing: Option<StoredBuild>,
    build_id: Seq<char>,
    r: Result<ApplyStep, String>,
    after: WorldView,
)
    requires
        apply_outcome(prepared, w, bounds, occupied, existing, build_id, r, after),
        r is Err,
    ensures
        same_blocks(after, w),
{
}

/// A refused or failed undo leaves every block of the world as it was.
pub proof fn failed_undo_changes_nothing(
    build: StoredBuild,
    w: WorldView,
    bounds: WorldBounds,
    r: Result<UndoStep, String>,
    after: WorldView,
)
    requires
        undo_outcome(build, w, bounds, r, after),
        r is Err,
    ensures
        same_blocks(after, w),
{
}

/// What a valid plan's targets meet: each lies in bounds, out of the protected spawn space, in
/// air, and its block is one that commands may place.
pub proof fn valid_targets_keep_the_rules(
    targets: Seq<ExpandedTarget>,
    bounds: WorldBounds,
    occupied: Map<BlockPos, ()>,
    w: WorldView,
    i: int,
)
    requires
        0 <= i < targets.len(),
        check_targets(targets, bounds, occupied, blocks_of(w), targets.len() as int).conflicts.len()
            == 0,
        forall|a: int, b: int|
            0 <= a < b < targets.len() ==> (#[trigger] targets[a]).position != (
            #[trigger] targets[b]).position,
    ensures
        bounds.has(targets[i].position.coords()),
        !protected_spawn(targets[i].position.coords()),
        placeable(targets[i].block),
        w.block(targets[i].position.coords()) == AIR,
        !occupied.contains_key(targets[i].position),
{
    let blocks = blocks_of(w);
    clean_check(targets, bounds, occupied, blocks, i, targets.len() as int);
    clean_check(targets, bounds, occupied, blocks, i + 1, targets.len() as int);
    let check = check_targets(targets, bounds, occupied, blocks, i);
    shadow_keys(targets, bounds, occupied, blocks, i);
    assert(!check.shadow.contains_key(targets[i].position)) by {
        if check.shadow.contains_key(targets[i].position) {
            let j = choose|j: int|
                0 <= j < i && (#[trigger] targets[j]).position == targets[i].position;
            assert(targets[j].position != targets[i].position);
        }
    }
}

proof fn shadow_keys(
    targets: Seq<ExpandedTarget>,
    bounds: WorldBounds,
    occupied: Map<BlockPos, ()>,
    blocks: Blocks,
    n: int,
)
    requires
        0 <= n <= targets.len(),
    ensures
        forall|p: BlockPos| #[trigger]
            check_targets(targets, bounds, occupied, blocks, n).shadow.contains_key(p) ==> exists|
                j: int,
            |
                0 <= j < n && (#[trigger] targets[j]).position == p,
    decreases n,
{
    if n > 0 {
        shadow_keys(targets, bounds, occupied, blocks, n - 1);
        let before = check_targets(targets, bounds, occupied, blocks, n - 1).shadow;
        assert forall|p: BlockPos| #[trigger]
            check_targets(targets, bounds, occupied, blocks, n).shadow.contains_key(
                p,
            ) implies exists|j: int| 0 <= j < n && (#[trigger] targets[j]).position == p by {
            if before.contains_key(p) {
                let j = choose|j: int| 0 <= j < n - 1 && (#[trigger] targets[j]).position == p;
                assert(targets[j].position == p);
            } else {
                assert(targets[n - 1].position == p);
            }
        }
    }
}

proof fn placed_position(w: WorldView, targets: Seq<ExpandedTarget>, n: int, i: int)
    requires
        0 <= i < n <= targets.len(),
        w.loaded(targets[i].position.coords()),
        forall|a: int, b: int|
            0 <= a < b < targets.len() ==> (#[trigger] targets[a]).position != (
            #[trigger] targets[b]).position,
    ensures
        placed(w, targets, n).block(targets[i].position.coords()) == targets[i].block,
    decreases n,
{
    placed_shape(w, targets, n - 1);
    if i < n - 1 {
        placed_position(w, targets, n - 1, i);
        assert(targets[i].position != targets[n - 1].position);
        assert(targets[i].position.coords() != targets[n - 1].position.coords());
    }
}

/// A build that was applied to a valid plan can be undone at once, unless one of its targets lies
/// in the foundation layer of the world, from which nothing can be removed.
pub proof fn fresh_build_can_be_undone(
    targets: Seq<ExpandedTarget>,
    bounds: WorldBounds,
    occupied: Map<BlockPos, ()>,
    w: WorldView,
)
    requires
        check_targets(targets, bounds, occupied, blocks_of(w), targets.len() as int).conflicts.len()
            == 0,
        first_unloaded(w, targets, 0) is None,
        forall|a: int, b: int|
            0 <= a < b < targets.len() ==> (#[trigger] targets[a]).position != (
            #[trigger] targets[b]).position,
        forall|i: int|
            0 <= i < targets.len() ==> (#[trigger] targets[i]).position.y > world_bounds().min_y,
    ensures
        first_obstacle(
            placed(w, targets, targets.len() as int),
            bounds,
            captured(w, targets),
            0,
        ) is None,
        undo_failure(
            placed(w, targets, targets.len() as int),
            bounds,
            captured(w, targets),
            0,
        ) is None,
{
    let n = targets.len() as int;
    let start = placed(w, targets, n);
    let records = captured(w, targets);
    placed_shape(w, targets, n);
    all_loaded(w, targets, 0);
    assert forall|i: int| 0 <= i < n implies {
        &&& start.block((#[trigger] records[i]).position.coords()) == records[i].applied_block
        &&& bounds.has(records[i].position.coords())
        &&& records[i].original_block == AIR
        &&& placeable(records[i].applied_block)
        &&& w.loaded(records[i].position.coords())
        &&& records[i].position.y > world_bounds().min_y
    } by {
        assert(w.loaded(targets[i].position.coords()));
        placed_position(w, targets, n, i);
        valid_targets_keep_the_rules(targets, bounds, occupied, w, i);
        assert(targets[i].position.y > world_bounds().min_y);
    }
    no_obstacle(start, bounds, records, 0);
    no_undo_failure(start, bounds, records, targets, 0);
}

proof fn all_loaded(w: WorldView, targets: Seq<ExpandedTarget>, i: int)
    requires
        0 <= i,
        first_unloaded(w, targets, i) is None,
    ensures
        forall|j: int| i <= j < targets.len() ==> w.loaded((#[trigger] targets[j]).position.coords()),
    decreases targets.len() - i,
{
    if i < targets.len() {
        all_loaded(w, targets, i + 1);
    }
}

proof fn no_obstacle(w: WorldView, bounds: WorldBounds, records: Seq<BuildBlockRecord>, i: int)
    requires
        0 <= i,
        forall|j: int|
            0 <= j < records.len() ==> w.block((#[trigger] records[j]).position.coords())
                == records[j].applied_block && bounds.has(records[j].position.coords()),
    ensures
        first_obstacle(w, bounds, records, i) is None,
    decreases records.len() - i,
{
    if i < records.len() {
        no_obstacle(w, bounds, records, i + 1);
        assert(w.block(records[i].position.coords()) == records[i].applied_block);
    }
}

proof fn no_undo_failure(
    w: WorldView,
    bounds: WorldBounds,
    records: Seq<BuildBlockRecord>,
    targets: Seq<ExpandedTarget>,
    k: int,
)
    requires
        0 <= k <= records.len(),
        records.len() == targets.len(),
        forall|a: int, b: int|
            0 <= a < b < targets.len() ==> (#[trigger] targets[a]).position != (
            #[trigger] targets[b]).position,
        forall|j: int|
            #![trigger records[j]]
            0 <= j < records.len() ==> {
                &&& records[j].position == targets[j].position
                &&& w.block(records[j].position.coords()) == records[j].applied_block
                &&& bounds.has(records[j].position.coords())
                &&& records[j].original_block == AIR
                &&& placeable(records[j].applied_block)
                &&& w.loaded(records[j].position.coords())
                &&& records[j].position.y > world_bounds().min_y
            },
    ensures
        undo_failure(w, bounds, records, k) is None,
    decreases records.len() - k,
{
    if k < records.len() {
        let n = records.len() as int;
        let i = n - 1 - k;
        no_undo_failure(w, bounds, records, targets, k + 1);
        undone_shape(w, records, k);
        assert forall|j: int| n - k <= j < n implies (#[trigger] records[j]).position.coords()
            != records[i].position.coords() by {
            assert(targets[i].position != targets[j].position);
        }
        undone_elsewhere(w, records, k, records[i].position.coords());
        placeable_blocks_are_solid(records[i].applied_block);
    }
}

/// A plan that is applied, stored and undone leaves every block as it was before: the undo is
/// carried out, unless one of its targets lies in the foundation layer, and it restores the world.
pub proof fn applied_build_is_undone(
    prepared: PreparedPlan,
    plan_bounds: WorldBounds,
    w: WorldView,
    bounds: WorldBounds,
    occupied: Map<BlockPos, ()>,
    build_id: Seq<char>,
    record: NewBuildRecord,
    applied: WorldView,
    build: StoredBuild,
    r: Result<UndoStep, String>,
    after: WorldView,
)
    requires
        prepared.targets@ == plan_expansion(prepared.plan, plan_bounds).targets,
        apply_outcome(
            prepared,
            w,
            bounds,
            occupied,
            None,
            build_id,
            Ok(ApplyStep::Store(record)),
            applied,
        ),
        build.state@ == "applied"@,
        build.blocks@ == record.blocks@,
        undo_outcome(build, applied, bounds, r, after),
    ensures
        r is Ok ==> same_blocks(after, w),
        (forall|i: int|
            0 <= i < prepared.targets@.len() ==> (#[trigger] prepared.targets@[i]).position.y
                > world_bounds().min_y) ==> r == Ok::<UndoStep, String>(UndoStep::Store),
{
    let targets = prepared.targets@;
    reveal_strlit("applied");
    reveal_strlit("undone");
    assert("applied"@.len() != "undone"@.len());
    assert(conflict_views(prepared.conflicts@).len() == prepared.conflicts@.len());
    expansion_is_sound(prepared.plan, plan_bounds);
    undo_restores_the_captured_world(w, targets);
    assert(captured(w, targets).len() == targets.len());
    if forall|i: int|
        0 <= i < targets.len() ==> (#[trigger] targets[i]).position.y > world_bounds().min_y {
        fresh_build_can_be_undone(targets, bounds, occupied, w);
    }
}

// ---- plans, position by position ----

/// True iff two positions share a face: they differ by one step along one axis.
pub open spec fn next_to(p: BlockPos, q: BlockPos) -> bool {
    let dx = if p.x >= q.x { p.x - q.x } else { q.x - p.x };
    let dy = if p.y >= q.y { p.y - q.y } else { q.y - p.y };
    let dz = if p.z >= q.z { p.z - q.z } else { q.z - p.z };
    dx + dy + dz == 1
}

/// A placement leans on a block exactly where one of the six positions that share a face with it
/// holds one, in the world or from the plan so far; and the block that it leans on is one of these.
pub proof fn anchors_are_blocks_at_a_face(
    shadow: Map<BlockPos, BlockState>,
    blocks: Blocks,
    p: BlockPos,
)
    ensures
        anchor_from(shadow, blocks, p, 0) == 0 <==> forall|q: BlockPos|
            #![trigger next_to(p, q)]
            next_to(p, q) ==> (if shadow.contains_key(q) {
                shadow[q]
            } else {
                blocks(q)
            }) == 0,
        anchor_from(shadow, blocks, p, 0) != 0 ==> exists|q: BlockPos| #[trigger]
            next_to(p, q) && anchor_from(shadow, blocks, p, 0) == (if shadow.contains_key(q) {
                shadow[q]
            } else {
                blocks(q)
            }),
{
    reveal_with_fuel(anchor_from, 7);
    let anchor = anchor_from(shadow, blocks, p, 0);
    if anchor == 0 {
        assert forall|q: BlockPos| #![trigger next_to(p, q)] next_to(p, q) implies (
        if shadow.contains_key(q) {
            shadow[q]
        } else {
            blocks(q)
        }) == 0 by {
            let k = face_number(p, q);
            assert(neighbor_block(shadow, blocks, p, k) == shadowed(shadow, blocks, q));
            assert(neighbor_block(shadow, blocks, p, 0) == 0);
            assert(neighbor_block(shadow, blocks, p, 1) == 0);
            assert(neighbor_block(shadow, blocks, p, 2) == 0);
            assert(neighbor_block(shadow, blocks, p, 3) == 0);
            assert(neighbor_block(shadow, blocks, p, 4) == 0);
            assert(neighbor_block(shadow, blocks, p, 5) == 0);
        }
    } else {
        let k: int = if neighbor_block(shadow, blocks, p, 0) != 0 {
            0
        } else if neighbor_block(shadow, blocks, p, 1) != 0 {
            1
        } else if neighbor_block(shadow, blocks, p, 2) != 0 {
            2
        } else if neighbor_block(shadow, blocks, p, 3) != 0 {
            3
        } else if neighbor_block(shadow, blocks, p, 4) != 0 {
            4
        } else {
            5
        };
        assert(anchor == neighbor_block(shadow, blocks, p, k));
        let q = neighbor(p, k)->0;
        assert(neighbor(p, k) is Some);
        assert(next_to(p, q));
        assert(anchor == shadowed(shadow, blocks, q));
    }
}

proof fn face_number(p: BlockPos, q: BlockPos) -> (k: int)
    requires
        next_to(p, q),
    ensures
        0 <= k < 6,
        neighbor(p, k) == Some(q),
{
    if q.y < p.y {
        0
    } else if q.y > p.y {
        1
    } else if q.x < p.x {
        2
    } else if q.x > p.x {
        3
    } else if q.z < p.z {
        4
    } else {
        5
    }
}

/// In the layer too, a placement leans on a block exactly where one of the six positions that share
/// a face with it holds one.
pub proof fn layer_anchors_are_blocks_at_a_face(w: WorldView, p: BlockPos)
    ensures
        anchor_from(Map::empty(), blocks_of(w), p, 0) == 0 <==> forall|q: BlockPos|
            #![trigger next_to(p, q)]
            next_to(p, q) ==> w.block((q.x as int, q.y as int, q.z as int)) == 0,
{
    let blocks = blocks_of(w);
    let empty = Map::<BlockPos, BlockState>::empty();
    anchors_are_blocks_at_a_face(empty, blocks, p);
    assert forall|q: BlockPos| #![trigger next_to(p, q)] (if empty.contains_key(q) {
        empty[q]
    } else {
        blocks(q)
    }) == w.block((q.x as int, q.y as int, q.z as int)) by {
        assert(blocks(q) == w.block(q.coords()));
    }
}

/// True iff an earlier target stands at the position.
pub open spec fn earlier_target(targets: Seq<ExpandedTarget>, i: int, q: BlockPos) -> bool {
    exists|j: int| 0 <= j < i && (#[trigger] targets[j]).position == q
}

/// True iff the target number `i` can be placed once the earlier ones are: it lies inside the bounds
/// and outside the spawn space, where no player stands and nothing is, beside a block of the world
/// or of an earlier target, and its block can be placed.
pub open spec fn can_be_placed(
    targets: Seq<ExpandedTarget>,
    bounds: WorldBounds,
    occupied: Map<BlockPos, ()>,
    blocks: Blocks,
    i: int,
) -> bool {
    let p = targets[i].position;
    &&& !occupied.contains_key(p)
    &&& bounds.min_x <= p.x <= bounds.max_x
    &&& bounds.min_y <= p.y <= bounds.max_y
    &&& bounds.min_z <= p.z <= bounds.max_z
    &&& in_palette(targets[i].block)
    &&& targets[i].block != 4276
    &&& p.x < -1 || p.x > 1 || p.z < -1 || p.z > 1 || p.y < 65 || p.y > 66
    &&& blocks(p) == 0
    &&& exists|q: BlockPos| #[trigger]
        next_to(p, q) && (blocks(q) != 0 || earlier_target(targets, i, q))
}

/// True iff no two targets are at one position.
pub open spec fn at_distinct_positions(targets: Seq<ExpandedTarget>) -> bool {
    forall|a: int, b: int|
        0 <= a < b < targets.len() ==> (#[trigger] targets[a]).position != (
        #[trigger] targets[b]).position
}

/// The shadow of targets that were all placed.
spec fn is_shadow_of(shadow: Map<BlockPos, BlockState>, targets: Seq<ExpandedTarget>, n: int) -> bool {
    &&& forall|q: BlockPos| #[trigger] shadow.contains_key(q) <==> earlier_target(targets, n, q)
    &&& forall|j: int| 0 <= j < n ==> shadow[(#[trigger] targets[j]).position] == targets[j].block
}

proof fn placed_shadow(
    targets: Seq<ExpandedTarget>,
    bounds: WorldBounds,
    occupied: Map<BlockPos, ()>,
    blocks: Blocks,
    n: int,
)
    requires
        0 <= n <= targets.len(),
        at_distinct_positions(targets),
        check_targets(targets, bounds, occupied, blocks, n).conflicts.len() == 0,
    ensures
        is_shadow_of(check_targets(targets, bounds, occupied, blocks, n).shadow, targets, n),
        forall|j: int| 0 <= j < n ==> (#[trigger] targets[j]).block != 0,
    decreases n,
{
    let after = check_targets(targets, bounds, occupied, blocks, n).shadow;
    if n > 0 {
        let before = check_targets(targets, bounds, occupied, blocks, n - 1).shadow;
        let last = targets[n - 1];
        placed_shadow(targets, bounds, occupied, blocks, n - 1);
        assert(after == before.insert(last.position, last.block));
        assert(placeable(last.block));
        placeable_blocks_are_solid(last.block);
        assert forall|q: BlockPos| #[trigger] after.contains_key(q) <==> earlier_target(
            targets,
            n,
            q,
        ) by {
            if earlier_target(targets, n - 1, q) {
                let j = choose|j: int| 0 <= j < n - 1 && (#[trigger] targets[j]).position == q;
                assert(targets[j].position == q);
            }
            if earlier_target(targets, n, q) && q != last.position {
                let j = choose|j: int| 0 <= j < n && (#[trigger] targets[j]).position == q;
                assert(earlier_target(targets, n - 1, q));
            }
        }
        assert forall|j: int| 0 <= j < n implies after[(#[trigger] targets[j]).position]
            == targets[j].block by {
            if j < n - 1 {
                assert(targets[j].position != targets[n - 1].position);
            }
        }
    }
}

proof fn one_more_target(
    targets: Seq<ExpandedTarget>,
    bounds: WorldBounds,
    occupied: Map<BlockPos, ()>,
    blocks: Blocks,
    i: int,
)
    requires
        0 <= i < targets.len(),
        at_distinct_positions(targets),
        check_targets(targets, bounds, occupied, blocks, i).conflicts.len() == 0,
    ensures
        check_targets(targets, bounds, occupied, blocks, i + 1).conflicts.len() == 0
            <==> can_be_placed(targets, bounds, occupied, blocks, i),
{
    let shadow = check_targets(targets, bounds, occupied, blocks, i).shadow;
    let target = targets[i];
    let p = target.position;
    placed_shadow(targets, bounds, occupied, blocks, i);
    anchors_are_blocks_at_a_face(shadow, blocks, p);
    placement_is_allowed_exactly_when(
        bounds,
        p,
        target.block,
        target_context(shadow, blocks, target),
    );
    assert(!shadow.contains_key(p)) by {
        if earlier_target(targets, i, p) {
            let j = choose|j: int| 0 <= j < i && (#[trigger] targets[j]).position == p;
            assert(targets[j].position != targets[i].position);
        }
    }
    assert forall|q: BlockPos| #![trigger next_to(p, q)] shadow.contains_key(q) implies shadow[q]
        != 0 by {
        let j = choose|j: int| 0 <= j < i && (#[trigger] targets[j]).position == q;
        assert(shadow[targets[j].position] == targets[j].block);
    }
    if can_be_placed(targets, bounds, occupied, blocks, i) {
        let q = choose|q: BlockPos| #[trigger]
            next_to(p, q) && (blocks(q) != 0 || earlier_target(targets, i, q));
        assert(next_to(p, q));
    }
}

proof fn conflicts_stay(
    targets: Seq<ExpandedTarget>,
    bounds: WorldBounds,
    occupied: Map<BlockPos, ()>,
    blocks: Blocks,
    m: int,
    n: int,
)
    requires
        0 <= m <= n,
    ensures
        check_targets(targets, bounds, occupied, blocks, m).conflicts.len() <= check_targets(
            targets,
            bounds,
            occupied,
            blocks,
            n,
        ).conflicts.len(),
    decreases n,
{
    if m < n {
        conflicts_stay(targets, bounds, occupied, blocks, m, n - 1);
    }
}

/// Targets at different positions meet no conflict exactly where each of them can be placed once
/// those before it are.
pub proof fn targets_are_accepted_exactly_when(
    targets: Seq<ExpandedTarget>,
    bounds: WorldBounds,
    occupied: Map<BlockPos, ()>,
    blocks: Blocks,
    n: int,
)
    requires
        0 <= n <= targets.len(),
        at_distinct_positions(targets),
    ensures
        check_targets(targets, bounds, occupied, blocks, n).conflicts.len() == 0 <==> forall|i: int|
            0 <= i < n ==> #[trigger] can_be_placed(targets, bounds, occupied, blocks, i),
    decreases n,
{
    if n > 0 {
        targets_are_accepted_exactly_when(targets, bounds, occupied, blocks, n - 1);
        conflicts_stay(targets, bounds, occupied, blocks, n - 1, n);
        if check_targets(targets, bounds, occupied, blocks, n - 1).conflicts.len() == 0 {
            one_more_target(targets, bounds, occupied, blocks, n - 1);
        }
    }
}

/// The conflict of a target names its operation and its position, and the first rule that it breaks:
/// a player, the bounds, the block, the spawn space, what stands there, or that it leans on nothing.
pub proof fn conflicts_name_the_rule(
    check: Check,
    bounds: WorldBounds,
    occupied: Map<BlockPos, ()>,
    blocks: Blocks,
    target: ExpandedTarget,
)
    ensures
        ({
            let p = target.position;
            let after = check.with_target(bounds, occupied, blocks, target);
            let inside = bounds.min_x <= p.x <= bounds.max_x && bounds.min_y <= p.y <= bounds.max_y
                && bounds.min_z <= p.z <= bounds.max_z;
            let known = in_palette(target.block) && target.block != 4276;
            let spawn = -1 <= p.x <= 1 && -1 <= p.z <= 1 && 65 <= p.y <= 66;
            let there = if check.shadow.contains_key(p) { check.shadow[p] } else { blocks(p) };
            let leans = exists|q: BlockPos| #[trigger]
                next_to(p, q) && (if check.shadow.contains_key(q) {
                    check.shadow[q]
                } else {
                    blocks(q)
                }) != 0;
            let accepted = !occupied.contains_key(p) && inside && known && !spawn && there == 0
                && leans;
            &&& accepted ==> after.conflicts == check.conflicts && after.shadow
                == check.shadow.insert(p, target.block)
            &&& !accepted ==> {
                let conflict = after.conflicts.last();
                &&& after.shadow == check.shadow
                &&& after.conflicts.len() == check.conflicts.len() + 1
                &&& after.conflicts.drop_last() == check.conflicts
                &&& conflict.operation_index == Some(target.operation_index)
                &&& conflict.position == Some(PlanPosition { x: p.x, y: p.y, z: p.z })
                &&& conflict.code == if occupied.contains_key(p) {
                    "player_collision"@
                } else if !inside {
                    "out_of_bounds"@
                } else if !known {
                    "unsupported_block"@
                } else if spawn {
                    "protected_region"@
                } else if there != 0 {
                    "occupied_target"@
                } else {
                    "placement_rule"@
                }
            }
        }),
{
    let p = target.position;
    let context = target_context(check.shadow, blocks, target);
    anchors_are_blocks_at_a_face(check.shadow, blocks, p);
    placement_is_allowed_exactly_when(bounds, p, target.block, context);
    refused_placement_is_told_why(bounds, p, target.block, context);
    let after = check.with_target(bounds, occupied, blocks, target);
    if after.conflicts.len() > check.conflicts.len() {
        assert(after.conflicts.drop_last() =~= check.conflicts);
    }
}

/// An applied plan leaves the block of each target at its position, and every other block as it was;
/// its record has, target by target, what stood there before and what stands there now. It is
/// applied where it meets no conflict and all its positions are loaded.
pub proof fn applied_plan_places_its_targets(
    prepared: PreparedPlan,
    w: WorldView,
    bounds: WorldBounds,
    occupied: Map<BlockPos, ()>,
    build_id: Seq<char>,
    r: Result<ApplyStep, String>,
    after: WorldView,
)
    requires
        at_distinct_positions(prepared.targets@),
        apply_outcome(prepared, w, bounds, occupied, None, build_id, r, after),
    ensures
        r is Ok <==> plan_conflicts(prepared, bounds, occupied, blocks_of(w)).len() == 0 && forall|
            i: int,
        |
            0 <= i < prepared.targets@.len() ==> w.loaded(
                (#[trigger] prepared.targets@[i]).position.coords(),
            ),
        r matches Ok(step) ==> {
            &&& step matches ApplyStep::Store(record)
            &&& record.blocks@.len() == prepared.targets@.len()
            &&& forall|i: int|
                #![trigger prepared.targets@[i]]
                0 <= i < prepared.targets@.len() ==> {
                    let target = prepared.targets@[i];
                    &&& after.block(target.position.coords()) == target.block
                    &&& record.blocks@[i].position == target.position
                    &&& record.blocks@[i].applied_block == target.block
                    &&& record.blocks@[i].original_block == w.block(target.position.coords())
                }
            &&& forall|q: (int, int, int)|
                (forall|i: int|
                    0 <= i < prepared.targets@.len() ==> (
                    #[trigger] prepared.targets@[i]).position.coords() != q) ==> #[trigger]
                    after.block(q) == w.block(q)
        },
        r is Err ==> forall|q: (int, int, int)| #[trigger] after.block(q) == w.block(q),
{
    let targets = prepared.targets@;
    let n = targets.len() as int;
    loaded_exactly_when(w, targets, 0);
    if r is Ok {
        all_loaded(w, targets, 0);
        assert forall|i: int| #![trigger targets[i]] 0 <= i < n implies after.block(
            targets[i].position.coords(),
        ) == targets[i].block by {
            placed_position(w, targets, n, i);
        }
        assert forall|q: (int, int, int)|
            (forall|i: int| 0 <= i < n ==> (#[trigger] targets[i]).position.coords() != q)
            implies #[trigger] after.block(q) == w.block(q) by {
            placed_elsewhere(w, targets, n, q);
        }
    }
}

proof fn loaded_exactly_when(w: WorldView, targets: Seq<ExpandedTarget>, i: int)
    requires
        0 <= i <= targets.len(),
    ensures
        first_unloaded(w, targets, i) is None <==> forall|j: int|
            i <= j < targets.len() ==> w.loaded((#[trigger] targets[j]).position.coords()),
    decreases targets.len() - i,
{
    if i < targets.len() {
        loaded_exactly_when(w, targets, i + 1);
        assert(targets[i] == targets[i]);
    }
}

/// True iff the record can be set back: its block stands as the build left it, in the bounds and
/// loaded; and where there was air before, it may be removed.
pub open spec fn can_be_set_back(w: WorldView, bounds: WorldBounds, record: BuildBlockRecord) -> bool {
    let p = record.position;
    &&& w.block((p.x as int, p.y as int, p.z as int)) == record.applied_block
    &&& bounds.min_x <= p.x <= bounds.max_x
    &&& bounds.min_y <= p.y <= bounds.max_y
    &&& bounds.min_z <= p.z <= bounds.max_z
    &&& w.loaded((p.x as int, p.y as int, p.z as int))
    &&& record.original_block == 0 ==> record.applied_block != 0 && record.applied_block != 79 && p.y
        > 60
}

proof fn obstacles_exactly_when(
    w: WorldView,
    bounds: WorldBounds,
    records: Seq<BuildBlockRecord>,
    i: int,
)
    requires
        0 <= i <= records.len(),
    ensures
        first_obstacle(w, bounds, records, i) is None <==> forall|j: int|
            i <= j < records.len() ==> record_obstacle(w, bounds, #[trigger] records[j]) is None,
    decreases records.len() - i,
{
    if i < records.len() {
        obstacles_exactly_when(w, bounds, records, i + 1);
        assert(records[i] == records[i]);
    }
}

proof fn failures_exactly_when(
    w: WorldView,
    bounds: WorldBounds,
    records: Seq<BuildBlockRecord>,
    k: int,
)
    requires
        0 <= k <= records.len(),
        distinct_records(records),
        forall|j: int|
            0 <= j < records.len() ==> record_obstacle(w, bounds, #[trigger] records[j]) is None,
    ensures
        undo_failure(w, bounds, records, k) is None <==> forall|j: int|
            0 <= j < records.len() - k ==> can_be_set_back(w, bounds, #[trigger] records[j]),
    decreases records.len() - k,
{
    if k < records.len() {
        failures_exactly_when(w, bounds, records, k + 1);
        let n = records.len() as int;
        let i = n - 1 - k;
        let record = records[i];
        undone_shape(w, records, k);
        assert forall|j: int| n - k <= j < n implies (#[trigger] records[j]).position.coords()
            != record.position.coords() by {
            assert(records[i].position != records[j].position);
        }
        undone_elsewhere(w, records, k, record.position.coords());
        assert(record_obstacle(w, bounds, records[i]) is None);
        removal_is_allowed_exactly_when(
            bounds,
            record.position,
            CommandContext {
                target_block: record.applied_block,
                anchor_block: None,
                actor_head_inside_block: false,
            },
        );
        assert(undo_error(undone(w, records, k), bounds, record) is None <==> can_be_set_back(
            w,
            bounds,
            record,
        ));
    }
}

proof fn set_back_position(w: WorldView, records: Seq<BuildBlockRecord>, k: int, i: int)
    requires
        0 <= k <= records.len(),
        records.len() - k <= i < records.len(),
        distinct_records(records),
        w.loaded(records[i].position.coords()),
    ensures
        undone(w, records, k).block(records[i].position.coords()) == records[i].original_block,
    decreases k,
{
    undone_shape(w, records, k - 1);
    let at = records.len() - k;
    if i != at {
        set_back_position(w, records, k - 1, i);
        assert(records[at].position != records[i].position);
        assert(records[at].position.coords() != records[i].position.coords());
    }
}

/// A build is undone exactly where all its records can be set back. Then the block that stood there
/// before the build stands at each of its positions again, and every other block is left alone; and
/// where it is refused, all of them are.
pub proof fn undo_sets_back_its_records(
    build: StoredBuild,
    w: WorldView,
    bounds: WorldBounds,
    r: Result<UndoStep, String>,
    after: WorldView,
)
    requires
        build.state@ != "undone"@,
        distinct_records(build.blocks@),
        undo_outcome(build, w, bounds, r, after),
    ensures
        r is Ok <==> forall|i: int|
            0 <= i < build.blocks@.len() ==> can_be_set_back(
                w,
                bounds,
                #[trigger] build.blocks@[i],
            ),
        r is Ok ==> forall|i: int|
            #![trigger build.blocks@[i]]
            0 <= i < build.blocks@.len() ==> after.block(build.blocks@[i].position.coords())
                == build.blocks@[i].original_block,
        forall|q: (int, int, int)|
            (r is Err || forall|i: int|
                0 <= i < build.blocks@.len() ==> (
                #[trigger] build.blocks@[i]).position.coords() != q) ==> #[trigger] after.block(q)
                == w.block(q),
{
    let records = build.blocks@;
    let n = records.len() as int;
    obstacles_exactly_when(w, bounds, records, 0);
    if first_obstacle(w, bounds, records, 0) is None {
        failures_exactly_when(w, bounds, records, 0);
    } else if forall|i: int| 0 <= i < n ==> can_be_set_back(w, bounds, #[trigger] records[i]) {
        let j = choose|j: int|
            0 <= j < n && record_obstacle(w, bounds, #[trigger] records[j]) is Some;
        assert(can_be_set_back(w, bounds, records[j]));
    }
    if r is Ok {
        assert forall|i: int| #![trigger records[i]] 0 <= i < n implies after.block(
            records[i].position.coords(),
        ) == records[i].original_block by {
            assert(can_be_set_back(w, bounds, records[i]));
            set_back_position(w, records, n, i);
        }
        assert forall|q: (int, int, int)|
            (forall|i: int| 0 <= i < n ==> (#[trigger] records[i]).position.coords() != q)
            implies #[trigger] after.block(q) == w.block(q) by {
            undone_elsewhere(w, records, n, q);
        }
    }
}

// ---- what is said of a build ----

/// An optional text as a value.
pub open spec fn optional_text_view(value: Option<String>) -> JsonView {
    match value {
        Some(value) => JsonView::Text(value@),
        None => JsonView::Null,
    }
}

fn optional_text_json(value: &Option<String>) -> (r: Json)
    ensures
        r@ == optional_text_view(*value),
{
    match value {
        Some(value) => text(value.as_str()),
        None => Json::Null,
    }
}

/// What is said of a stored build.
pub open spec fn stored_build_summary_view(build: StoredBuild) -> JsonView {
    JsonView::Object(
        no_fields()
            .push(("actor"@, JsonView::Text(build.actor@)))
            .push(("applied_at"@, JsonView::Text(build.applied_at@)))
            .push(("build_id"@, JsonView::Text(build.build_id@)))
            .push(("changed"@, integer_value(build.changed as int)))
            .push(("created_at"@, JsonView::Text(build.created_at@)))
            .push(("plan_hash"@, JsonView::Text(build.plan_hash@)))
            .push(("skipped"@, integer_value(build.skipped as int)))
            .push(("state"@, JsonView::Text(build.state@)))
            .push(("undo_available"@, JsonView::Bool(build.state@ == "applied"@)))
            .push(("undone_at"@, optional_text_view(build.undone_at))),
    )
}

pub fn stored_build_summary(build: &StoredBuild) -> (r: Json)
    ensures
        r@ == stored_build_summary_view(*build),
{
    Fields::new()
        .with("actor", text(build.actor.as_str()))
        .with("applied_at", text(build.applied_at.as_str()))
        .with("build_id", text(build.build_id.as_str()))
        .with("changed", unsigned(build.changed as u64))
        .with("created_at", text(build.created_at.as_str()))
        .with("plan_hash", text(build.plan_hash.as_str()))
        .with("skipped", unsigned(build.skipped as u64))
        .with("state", text(build.state.as_str()))
        .with("undo_available", boolean(same_text(build.state.as_str(), "applied")))
        .with("undone_at", optional_text_json(&build.undone_at))
        .object()
}

/// What is said of an applied build.
pub open spec fn apply_result_view(result: ApplyBuildResult) -> JsonView {
    JsonView::Object(
        no_fields()
            .push(("build_id"@, JsonView::Text(result.build_id@)))
            .push(("changed"@, integer_value(result.changed as int)))
            .push(("plan_hash"@, JsonView::Text(result.plan_hash@)))
            .push(("skipped"@, integer_value(result.skipped as int)))
            .push(("undo_available"@, JsonView::Bool(result.undo_available))),
    )
}

pub fn apply_result_json(result: &ApplyBuildResult) -> (r: Json)
    ensures
        r@ == apply_result_view(*result),
{
    Fields::new()
        .with("build_id", text(result.build_id.as_str()))
        .with("changed", unsigned(result.changed as u64))
        .with("plan_hash", text(result.plan_hash.as_str()))
        .with("skipped", unsigned(result.skipped as u64))
        .with("undo_available", boolean(result.undo_available))
        .object()
}

/// What is said of an undone build.
pub open spec fn undo_result_view(result: UndoBuildResult) -> JsonView {
    JsonView::Object(
        no_fields()
            .push(("already_undone"@, JsonView::Bool(result.already_undone)))
            .push(("build_id"@, JsonView::Text(result.build_id@)))
            .push(("restored"@, integer_value(result.restored as int)))
            .push(("state"@, JsonView::Text(result.state@))),
    )
}

pub fn undo_result_json(result: &UndoBuildResult) -> (r: Json)
    ensures
        r@ == undo_result_view(*result),
{
    Fields::new()
        .with("already_undone", boolean(result.already_undone))
        .with("build_id", text(result.build_id.as_str()))
        .with("restored", unsigned(result.restored as u64))
        .with("state", text(result.state.as_str()))
        .object()
}

} // verus!
