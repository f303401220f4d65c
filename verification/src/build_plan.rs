//! Build plans: bounded lists of block placements, expanded into single targets.

use vstd::prelude::*;
use vstd::string::StringExecFns;
use vstd::utf8::encode_utf8;
use crate::block::{BlockPos, BlockState, COBBLESTONE, DIRT, GLASS, GRASS_BLOCK, OAK_PLANKS, STONE};
use crate::build_palette::{lookups_round_trip, palette, palette_block, palette_name};
use crate::digest::{hash_text, hex, is_hash, sha256_of};
use crate::json::{json_string, json_string_text};
use crate::position_map::{PositionMap, PositionSet};
use crate::text::{byte_len, decimal, decimal_nat, push_i64, push_u64, same_text, utf8_len};
use crate::world_command::{hotbar_can_be_placed, placeable, WorldBounds};

verus! {

pub const BUILD_PLAN_SCHEMA_VERSION: u32 = 1;

pub const MAX_BUILD_OPERATIONS: usize = 128;

pub const MAX_BUILD_TARGETS: usize = 256;

pub const MAX_IDEMPOTENCY_KEY_BYTES: usize = 128;

pub struct BuildPlan {
    pub schema_version: u32,
    pub idempotency_key: String,
    pub anchor: PlanAnchor,
    pub replace_mode: String,
    pub operations: Vec<BuildOperation>,
}

#[derive(Debug, Clone, Copy, PartialEq, Eq, Structural)]
pub struct PlanAnchor {
    pub x: i32,
    pub y: i32,
    pub z: i32,
}

pub enum BuildOperation {
    SetBlock { at: [i32; 3], block: String },
    FillBox { from: [i32; 3], to: [i32; 3], block: String },
}

#[derive(Debug, Clone, Copy, PartialEq, Eq, Structural)]
pub struct ExpandedTarget {
    pub position: BlockPos,
    pub block: BlockState,
    pub operation_index: usize,
}

#[derive(Debug, Clone, PartialEq, Eq)]
pub struct PlanConflict {
    pub code: String,
    pub message: String,
    pub operation_index: Option<usize>,
    pub position: Option<PlanPosition>,
}

/// What a conflict says.
pub struct ConflictView {
    pub code: Seq<char>,
    pub message: Seq<char>,
    pub operation_index: Option<usize>,
    pub position: Option<PlanPosition>,
}

impl View for PlanConflict {
    type V = ConflictView;

    open spec fn view(&self) -> ConflictView {
        ConflictView {
            code: self.code@,
            message: self.message@,
            operation_index: self.operation_index,
            position: self.position,
        }
    }
}

/// What a list of conflicts says.
pub open spec fn conflict_views(conflicts: Seq<PlanConflict>) -> Seq<ConflictView> {
    conflicts.map_values(|conflict: PlanConflict| conflict@)
}

impl PlanConflict {
    pub fn plan(code: &str, message: String) -> (r: Self)
        ensures
            r@ == plan_conflict(code@, message@),
    {
        PlanConflict { code: code.to_owned(), message, operation_index: None, position: None }
    }

    pub fn operation(code: &str, message: String, operation_index: usize) -> (r: Self)
        ensures
            r@ == operation_conflict(code@, message@, operation_index),
    {
        PlanConflict {
            code: code.to_owned(),
            message,
            operation_index: Some(operation_index),
            position: None,
        }
    }

    pub fn target(
        code: &str,
        message: String,
        operation_index: usize,
        position: BlockPos,
    ) -> (r: Self)
        ensures
            r@ == target_conflict(code@, message@, operation_index, position),
    {
        PlanConflict {
            code: code.to_owned(),
            message,
            operation_index: Some(operation_index),
            position: Some(PlanPosition::of(position)),
        }
    }

    /// A copy of the conflict.
    pub fn duplicate(&self) -> (r: Self)
        ensures
            r == *self,
    {
        PlanConflict {
            code: self.code.clone(),
            message: self.message.clone(),
            operation_index: self.operation_index,
            position: self.position,
        }
    }
}

/// A conflict of the plan as a whole.
pub open spec fn plan_conflict(code: Seq<char>, message: Seq<char>) -> ConflictView {
    ConflictView { code, message, operation_index: None, position: None }
}

/// A conflict of one operation.
pub open spec fn operation_conflict(
    code: Seq<char>,
    message: Seq<char>,
    operation_index: usize,
) -> ConflictView {
    ConflictView { code, message, operation_index: Some(operation_index), position: None }
}

/// A conflict of one target of an operation.
pub open spec fn target_conflict(
    code: Seq<char>,
    message: Seq<char>,
    operation_index: usize,
    position: BlockPos,
) -> ConflictView {
    ConflictView {
        code,
        message,
        operation_index: Some(operation_index),
        position: Some(plan_position(position)),
    }
}

#[derive(Debug, Clone, Copy, PartialEq, Eq, Structural)]
pub struct PlanPosition {
    pub x: i32,
    pub y: i32,
    pub z: i32,
}

/// A block position as it stands in reports.
pub open spec fn plan_position(position: BlockPos) -> PlanPosition {
    PlanPosition { x: position.x, y: position.y, z: position.z }
}

impl PlanPosition {
    pub fn of(position: BlockPos) -> (r: Self)
        ensures
            r == plan_position(position),
    {
        PlanPosition { x: position.x, y: position.y, z: position.z }
    }
}

#[derive(Debug, Clone, Copy, PartialEq, Eq, Structural)]
pub struct PlanBounds {
    pub min: PlanPosition,
    pub max: PlanPosition,
}

/// A plan with its canonical text and hash, its expansion, and what stands against it.
pub struct PreparedPlan {
    pub plan: BuildPlan,
    pub canonical_json: String,
    pub plan_hash: String,
    pub targets: Vec<ExpandedTarget>,
    pub bounds: Option<PlanBounds>,
    pub conflicts: Vec<PlanConflict>,
    pub warnings: Vec<String>,
}

// ---- canonical text ----

/// `[a,b,c]`.
pub open spec fn triple_json(values: Seq<i32>) -> Seq<char> {
    "["@ + decimal(values[0] as int) + ","@ + decimal(values[1] as int) + ","@ + decimal(
        values[2] as int,
    ) + "]"@
}

/// The canonical JSON of one operation.
pub open spec fn operation_json(operation: BuildOperation) -> Seq<char> {
    match operation {
        BuildOperation::SetBlock { at, block } => "{\"op\":\"set\",\"at\":"@ + triple_json(at@)
            + ",\"block\":"@ + json_string(block@) + "}"@,
        BuildOperation::FillBox { from, to, block } => "{\"op\":\"fill_box\",\"from\":"@
            + triple_json(from@) + ",\"to\":"@ + triple_json(to@) + ",\"block\":"@ + json_string(
            block@,
        ) + "}"@,
    }
}

/// The canonical JSON of the first `n` operations, separated by commas.
pub open spec fn operations_json(operations: Seq<BuildOperation>, n: nat) -> Seq<char>
    decreases n,
{
    if n == 0 {
        seq![]
    } else if n == 1 {
        operation_json(operations[0])
    } else {
        operations_json(operations, (n - 1) as nat) + ","@ + operation_json(operations[n - 1])
    }
}

/// The canonical JSON of a plan: compact, with the fields in one fixed order.
pub open spec fn plan_json(plan: BuildPlan) -> Seq<char> {
    "{\"schema_version\":"@ + decimal_nat(plan.schema_version as nat) + ",\"idempotency_key\":"@
        + json_string(plan.idempotency_key@) + ",\"anchor\":{\"x\":"@ + decimal(
        plan.anchor.x as int,
    ) + ",\"y\":"@ + decimal(plan.anchor.y as int) + ",\"z\":"@ + decimal(plan.anchor.z as int)
        + "},\"replace_mode\":"@ + json_string(plan.replace_mode@) + ",\"operations\":["@
        + operations_json(plan.operations@, plan.operations@.len()) + "]}"@
}

/// The hash of a plan: the SHA-256 digest of its canonical JSON, in hexadecimal.
pub open spec fn plan_digest(plan: BuildPlan) -> Seq<char> {
    hex(sha256_of(encode_utf8(plan_json(plan))))
}

fn push_triple(out: &mut String, values: &[i32; 3])
    ensures
        final(out)@ == old(out)@ + triple_json(values@),
{
    let ghost start = out@;
    out.append("[");
    push_i64(out, values[0] as i64);
    out.append(",");
    push_i64(out, values[1] as i64);
    out.append(",");
    push_i64(out, values[2] as i64);
    out.append("]");
    proof {
        assert(out@ =~= start + triple_json(values@));
    }
}

fn push_operation(out: &mut String, operation: &BuildOperation)
    ensures
        final(out)@ == old(out)@ + operation_json(*operation),
{
    let ghost start = out@;
    match operation {
        BuildOperation::SetBlock { at, block } => {
            out.append("{\"op\":\"set\",\"at\":");
            push_triple(out, at);
            out.append(",\"block\":");
            out.append(json_string_text(block.as_str()).as_str());
            out.append("}");
        },
        BuildOperation::FillBox { from, to, block } => {
            out.append("{\"op\":\"fill_box\",\"from\":");
            push_triple(out, from);
            out.append(",\"to\":");
            push_triple(out, to);
            out.append(",\"block\":");
            out.append(json_string_text(block.as_str()).as_str());
            out.append("}");
        },
    }
    proof {
        assert(out@ =~= start + operation_json(*operation));
    }
}

/// The canonical JSON of a plan.
pub fn canonical_plan_json(plan: &BuildPlan) -> (r: String)
    ensures
        r@ == plan_json(*plan),
{
    let mut out = "{\"schema_version\":".to_owned();
    push_u64(&mut out, plan.schema_version as u64);
    out.append(",\"idempotency_key\":");
    out.append(json_string_text(plan.idempotency_key.as_str()).as_str());
    out.append(",\"anchor\":{\"x\":");
    push_i64(&mut out, plan.anchor.x as i64);
    out.append(",\"y\":");
    push_i64(&mut out, plan.anchor.y as i64);
    out.append(",\"z\":");
    push_i64(&mut out, plan.anchor.z as i64);
    out.append("},\"replace_mode\":");
    out.append(json_string_text(plan.replace_mode.as_str()).as_str());
    out.append(",\"operations\":[");
    let ghost head = out@;
    let mut i: usize = 0;
    while i < plan.operations.len()
        invariant
            i <= plan.operations@.len(),
            out@ =~= head + operations_json(plan.operations@, i as nat),
        decreases plan.operations@.len() - i,
    {
        if i > 0 {
            out.append(",");
        }
        push_operation(&mut out, &plan.operations[i]);
        i = i + 1;
    }
    out.append("]}");
    out
}

// ---- expansion ----

/// The block that a plan names.
pub open spec fn plan_block(name: Seq<char>) -> Option<BlockState> {
    if name == "stone"@ {
        Some(STONE)
    } else if name == "dirt"@ {
        Some(DIRT)
    } else if name == "grass_block"@ {
        Some(GRASS_BLOCK)
    } else if name == "oak_planks"@ {
        Some(OAK_PLANKS)
    } else if name == "cobblestone"@ {
        Some(COBBLESTONE)
    } else if name == "glass"@ {
        Some(GLASS)
    } else {
        None
    }
}

/// The block that a plan names.
pub fn block_state_for_name(name: &str) -> (r: Option<BlockState>)
    ensures
        r == plan_block(name@),
{
    if same_text(name, "stone") {
        Some(STONE)
    } else if same_text(name, "dirt") {
        Some(DIRT)
    } else if same_text(name, "grass_block") {
        Some(GRASS_BLOCK)
    } else if same_text(name, "oak_planks") {
        Some(OAK_PLANKS)
    } else if same_text(name, "cobblestone") {
        Some(COBBLESTONE)
    } else if same_text(name, "glass") {
        Some(GLASS)
    } else {
        None
    }
}

/// A box of relative coordinates, both corners included.
pub struct BoxSpan {
    pub from: (int, int, int),
    pub to: (int, int, int),
}

impl BoxSpan {
    pub open spec fn dx(self) -> int {
        self.to.0 - self.from.0 + 1
    }

    pub open spec fn dy(self) -> int {
        self.to.1 - self.from.1 + 1
    }

    pub open spec fn dz(self) -> int {
        self.to.2 - self.from.2 + 1
    }

    /// True iff no component of `from` exceeds that of `to`.
    pub open spec fn ordered(self) -> bool {
        self.from.0 <= self.to.0 && self.from.1 <= self.to.1 && self.from.2 <= self.to.2
    }

    /// The number of cells of an ordered box.
    pub open spec fn volume(self) -> int {
        self.dz() * (self.dx() * self.dy())
    }

    /// The `k`-th cell: y varies slowest, then x, then z.
    pub open spec fn cell(self, k: int) -> (int, int, int) {
        (
            self.from.0 + (k / self.dz()) % self.dx(),
            self.from.1 + (k / self.dz()) / self.dx(),
            self.from.2 + k % self.dz(),
        )
    }

    /// True iff the cell lies in the box.
    pub open spec fn has(self, c: (int, int, int)) -> bool {
        &&& self.from.0 <= c.0 <= self.to.0
        &&& self.from.1 <= c.1 <= self.to.1
        &&& self.from.2 <= c.2 <= self.to.2
    }
}

proof fn step_div_mod(k: int, d: int)
    requires
        d > 0,
        k >= 0,
    ensures
        0 <= k % d < d,
        k == d * (k / d) + k % d,
        k / d >= 0,
        k % d < d - 1 ==> (k + 1) / d == k / d && (k + 1) % d == k % d + 1,
        k % d == d - 1 ==> (k + 1) / d == k / d + 1 && (k + 1) % d == 0,
{
    vstd::arithmetic::div_mod::lemma_fundamental_div_mod(k, d);
    vstd::arithmetic::div_mod::lemma_div_pos_is_pos(k, d);
    let q = k / d;
    let r = k % d;
    if r < d - 1 {
        assert(k + 1 == q * d + (r + 1)) by (nonlinear_arith)
            requires
                k == d * q + r,
        ;
        vstd::arithmetic::div_mod::lemma_fundamental_div_mod_converse(k + 1, d, q, r + 1);
    } else {
        assert(k + 1 == (q + 1) * d + 0) by (nonlinear_arith)
            requires
                k == d * q + r,
                r == d - 1,
        ;
        vstd::arithmetic::div_mod::lemma_fundamental_div_mod_converse(k + 1, d, q + 1, 0);
    }
}

/// Cells of an ordered box lie in it, and follow one another with z running fastest, then x,
/// then y.
pub proof fn cells_run_in_order(b: BoxSpan, k: int)
    requires
        b.ordered(),
        0 <= k < b.volume(),
    ensures
        b.has(b.cell(k)),
        b.cell(k).2 < b.to.2 ==> k + 1 < b.volume() && b.cell(k + 1) == (
            b.cell(k).0,
            b.cell(k).1,
            b.cell(k).2 + 1,
        ),
        b.cell(k).2 == b.to.2 && b.cell(k).0 < b.to.0 ==> k + 1 < b.volume() && b.cell(k + 1) == (
            b.cell(k).0 + 1,
            b.cell(k).1,
            b.from.2,
        ),
        b.cell(k).2 == b.to.2 && b.cell(k).0 == b.to.0 && b.cell(k).1 < b.to.1 ==> k + 1
            < b.volume() && b.cell(k + 1) == (b.from.0, b.cell(k).1 + 1, b.from.2),
        b.cell(k) == b.to ==> k + 1 == b.volume(),
{
    let dx = b.dx();
    let dy = b.dy();
    let dz = b.dz();
    let q = k / dz;
    step_div_mod(k, dz);
    step_div_mod(q, dx);
    let p = q / dx;
    let area = dx * dy;
    assert(q < area) by (nonlinear_arith)
        requires
            k == dz * q + k % dz,
            k < dz * area,
            0 <= k % dz,
            dz > 0,
    ;
    assert(p < dy) by (nonlinear_arith)
        requires
            q == dx * p + q % dx,
            q < area,
            area == dx * dy,
            0 <= q % dx,
            dx > 0,
    ;
    if k % dz < dz - 1 {
        assert(k + 1 < dz * area) by (nonlinear_arith)
            requires
                k == dz * q + k % dz,
                k % dz < dz - 1,
                q + 1 <= area,
                dz > 0,
        ;
    } else {
        if q % dx < dx - 1 {
            assert(q + 1 < area) by (nonlinear_arith)
                requires
                    q == dx * p + q % dx,
                    q % dx < dx - 1,
                    p + 1 <= dy,
                    area == dx * dy,
                    dx > 0,
            ;
        } else if p < dy - 1 {
            assert(q + 1 < area) by (nonlinear_arith)
                requires
                    q == dx * p + q % dx,
                    q % dx == dx - 1,
                    p + 1 < dy,
                    area == dx * dy,
                    dx > 0,
            ;
        } else {
            assert(q + 1 == area) by (nonlinear_arith)
                requires
                    q == dx * p + q % dx,
                    q % dx == dx - 1,
                    p + 1 == dy,
                    area == dx * dy,
            ;
        }
        assert(k + 1 == dz * (q + 1)) by (nonlinear_arith)
            requires
                k == dz * q + k % dz,
                k % dz == dz - 1,
        ;
        if q + 1 < area {
            assert(dz * (q + 1) < dz * area) by (nonlinear_arith)
                requires
                    q + 1 < area,
                    dz > 0,
            ;
        }
    }
}

/// The first cell of an ordered box is its lower corner.
pub proof fn first_cell(b: BoxSpan)
    requires
        b.ordered(),
    ensures
        b.volume() > 0,
        b.cell(0) == b.from,
{
    assert(b.dx() * b.dy() > 0) by (nonlinear_arith)
        requires
            b.dx() > 0,
            b.dy() > 0,
    ;
    assert(b.dz() * (b.dx() * b.dy()) > 0) by (nonlinear_arith)
        requires
            b.dz() > 0,
            b.dx() * b.dy() > 0,
    ;
    vstd::arithmetic::div_mod::lemma_small_mod(0, b.dz() as nat);
    vstd::arithmetic::div_mod::lemma_small_mod(0, b.dx() as nat);
    vstd::arithmetic::div_mod::lemma_div_basics(b.dz());
    vstd::arithmetic::div_mod::lemma_div_basics(b.dx());
}

/// How far an expansion has come.
#[verifier::ext_equal]
pub struct Expansion {
    pub targets: Seq<ExpandedTarget>,
    pub conflicts: Seq<ConflictView>,
    /// The target limit was exceeded: nothing further is expanded.
    pub full: bool,
}

/// The index of the first target at `position`.
pub open spec fn target_at(targets: Seq<ExpandedTarget>, position: BlockPos) -> Option<int>
    decreases targets.len(),
{
    if targets.len() == 0 {
        None
    } else {
        match target_at(targets.drop_last(), position) {
            Some(i) => Some(i),
            None => if targets.last().position == position {
                Some(targets.len() - 1)
            } else {
                None
            },
        }
    }
}

/// True iff the coordinate fits in 32 bits.
pub open spec fn fits(v: int) -> bool {
    i32::MIN <= v <= i32::MAX
}

/// What an operation places, and where it is anchored.
pub struct Placement {
    pub anchor: PlanAnchor,
    pub bounds: WorldBounds,
    pub block: BlockState,
    pub operation_index: usize,
}

impl Placement {
    /// The absolute coordinates of a relative cell.
    pub open spec fn absolute(self, c: (int, int, int)) -> (int, int, int) {
        (self.anchor.x + c.0, self.anchor.y + c.1, self.anchor.z + c.2)
    }
}

impl Expansion {
    pub open spec fn conflict(self, conflict: ConflictView) -> Expansion {
        Expansion { conflicts: self.conflicts.push(conflict), ..self }
    }

    /// The expansion with one more cell. A cell past the target limit ends the expansion; one
    /// whose coordinates overflow, or that repeats a target, is reported and left out; one out of
    /// bounds is reported and kept.
    pub open spec fn with_cell(self, placement: Placement, c: (int, int, int)) -> Expansion {
        let p = placement.absolute(c);
        let index = placement.operation_index;
        if self.full {
            self
        } else if self.targets.len() >= MAX_BUILD_TARGETS {
            let limit = operation_conflict(
                "expanded_target_limit"@,
                "plan expands beyond the 256-target limit"@,
                index,
            );
            Expansion { full: true, ..self.conflict(limit) }
        } else if !(fits(p.0) && fits(p.1) && fits(p.2)) {
            self.conflict(
                operation_conflict(
                    "coordinate_overflow"@,
                    "anchor plus relative coordinate overflows a signed 32-bit integer"@,
                    index,
                ),
            )
        } else {
            let position = BlockPos { x: p.0 as i32, y: p.1 as i32, z: p.2 as i32 };
            match target_at(self.targets, position) {
                Some(first) => self.conflict(
                    target_conflict(
                        "duplicate_target"@,
                        "target already appears in operation "@ + decimal_nat(
                            self.targets[first].operation_index as nat,
                        ),
                        index,
                        position,
                    ),
                ),
                None => {
                    let target = ExpandedTarget {
                        position,
                        block: placement.block,
                        operation_index: index,
                    };
                    let added = Expansion { targets: self.targets.push(target), ..self };
                    if placement.bounds.has(p) {
                        added
                    } else {
                        added.conflict(
                            target_conflict(
                                "out_of_bounds"@,
                                "target is outside active world bounds"@,
                                index,
                                position,
                            ),
                        )
                    }
                },
            }
        }
    }

    /// The expansion with the first `n` cells of a box.
    pub open spec fn with_cells(self, placement: Placement, span: BoxSpan, n: int) -> Expansion
        decreases n,
    {
        if n <= 0 {
            self
        } else {
            self.with_cells(placement, span, n - 1).with_cell(placement, span.cell(n - 1))
        }
    }
}

/// The box that an operation covers.
pub open spec fn operation_span(operation: BuildOperation) -> BoxSpan {
    match operation {
        BuildOperation::SetBlock { at, block } => BoxSpan { from: triple(at@), to: triple(at@) },
        BuildOperation::FillBox { from, to, block } => BoxSpan {
            from: triple(from@),
            to: triple(to@),
        },
    }
}

/// The name of the block that an operation places.
pub open spec fn operation_block(operation: BuildOperation) -> Seq<char> {
    match operation {
        BuildOperation::SetBlock { at, block } => block@,
        BuildOperation::FillBox { from, to, block } => block@,
    }
}

pub open spec fn triple(values: Seq<i32>) -> (int, int, int) {
    (values[0] as int, values[1] as int, values[2] as int)
}

impl Expansion {
    /// The expansion with the plan's operation number `i`.
    pub open spec fn with_operation(self, plan: BuildPlan, bounds: WorldBounds, i: int) -> Expansion {
        let operation = plan.operations@[i];
        let span = operation_span(operation);
        if self.full {
            self
        } else if !span.ordered() {
            self.conflict(
                operation_conflict(
                    "invalid_box"@,
                    "fill_box.from must be component-wise <= fill_box.to"@,
                    i as usize,
                ),
            )
        } else {
            match plan_block(operation_block(operation)) {
                None => self.conflict(
                    operation_conflict(
                        "unsupported_block"@,
                        "block `"@ + operation_block(operation)
                            + "` is not in the BuildPlan v1 palette"@,
                        i as usize,
                    ),
                ),
                Some(block) => self.with_cells(
                    Placement { anchor: plan.anchor, bounds, block, operation_index: i as usize },
                    span,
                    span.volume(),
                ),
            }
        }
    }

    /// The expansion with the plan's first `n` operations.
    pub open spec fn with_operations(self, plan: BuildPlan, bounds: WorldBounds, n: int) -> Expansion
        decreases n,
    {
        if n <= 0 {
            self
        } else {
            self.with_operations(plan, bounds, n - 1).with_operation(plan, bounds, n - 1)
        }
    }
}

/// What stands against the plan before any of its operations is looked at.
pub open spec fn header_conflicts(plan: BuildPlan) -> Seq<ConflictView> {
    let version = if plan.schema_version != BUILD_PLAN_SCHEMA_VERSION {
        seq![
            plan_conflict(
                "unsupported_schema_version"@,
                "schema_version "@ + decimal_nat(plan.schema_version as nat)
                    + " is unsupported; expected 1"@,
            ),
        ]
    } else {
        seq![]
    };
    let key = if plan.idempotency_key@.len() == 0 || utf8_len(plan.idempotency_key@)
        > MAX_IDEMPOTENCY_KEY_BYTES {
        seq![
            plan_conflict(
                "invalid_idempotency_key"@,
                "idempotency_key must contain 1..=128 UTF-8 bytes"@,
            ),
        ]
    } else {
        seq![]
    };
    let mode = if plan.replace_mode@ != "air_only"@ {
        seq![
            plan_conflict(
                "unsupported_replace_mode"@,
                "replace_mode `"@ + plan.replace_mode@ + "` is unsupported; expected `air_only`"@,
            ),
        ]
    } else {
        seq![]
    };
    let operations = if plan.operations@.len() == 0 || plan.operations@.len()
        > MAX_BUILD_OPERATIONS {
        seq![
            plan_conflict(
                "operation_limit"@,
                "operations must contain 1..=128 entries; received "@ + decimal_nat(
                    plan.operations@.len(),
                ),
            ),
        ]
    } else {
        seq![]
    };
    version + key + mode + operations
}

/// The expansion of a plan. A plan that is refused as a whole is not expanded.
pub open spec fn plan_expansion(plan: BuildPlan, bounds: WorldBounds) -> Expansion {
    let start = Expansion { targets: seq![], conflicts: header_conflicts(plan), full: false };
    if header_conflicts(plan).len() == 0 {
        start.with_operations(plan, bounds, plan.operations@.len() as int)
    } else {
        start
    }
}

/// True iff `b` is the least box that holds every target.
pub open spec fn encloses(targets: Seq<ExpandedTarget>, b: PlanBounds) -> bool {
    &&& forall|i: int|
        #![trigger targets[i]]
        0 <= i < targets.len() ==> {
            &&& b.min.x <= targets[i].position.x <= b.max.x
            &&& b.min.y <= targets[i].position.y <= b.max.y
            &&& b.min.z <= targets[i].position.z <= b.max.z
        }
    &&& exists|i: int| 0 <= i < targets.len() && (#[trigger] targets[i]).position.x == b.min.x
    &&& exists|i: int| 0 <= i < targets.len() && (#[trigger] targets[i]).position.y == b.min.y
    &&& exists|i: int| 0 <= i < targets.len() && (#[trigger] targets[i]).position.z == b.min.z
    &&& exists|i: int| 0 <= i < targets.len() && (#[trigger] targets[i]).position.x == b.max.x
    &&& exists|i: int| 0 <= i < targets.len() && (#[trigger] targets[i]).position.y == b.max.y
    &&& exists|i: int| 0 <= i < targets.len() && (#[trigger] targets[i]).position.z == b.max.z
}

/// True iff `bounds` is the least box that holds every target; there is none without targets.
pub open spec fn bounds_of(targets: Seq<ExpandedTarget>, bounds: Option<PlanBounds>) -> bool {
    match bounds {
        None => targets.len() == 0,
        Some(b) => targets.len() > 0 && encloses(targets, b),
    }
}

/// The least box that holds every target.
pub fn expanded_bounds(targets: &[ExpandedTarget]) -> (r: Option<PlanBounds>)
    ensures
        bounds_of(targets@, r),
{
    if targets.len() == 0 {
        return None;
    }
    let first = targets[0].position;
    let mut min = PlanPosition::of(first);
    let mut max = PlanPosition::of(first);
    let mut i: usize = 1;
    proof {
        let head = targets@.take(1);
        assert(head[0] == targets@[0]);
        assert(encloses(head, PlanBounds { min, max }));
    }
    while i < targets.len()
        invariant
            1 <= i <= targets@.len(),
            encloses(targets@.take(i as int), (PlanBounds { min, max })),
        decreases targets@.len() - i,
    {
        let p = targets[i].position;
        let ghost before = targets@.take(i as int);
        let ghost old_min = min;
        let ghost old_max = max;
        if p.x < min.x {
            min.x = p.x;
        }
        if p.y < min.y {
            min.y = p.y;
        }
        if p.z < min.z {
            min.z = p.z;
        }
        if p.x > max.x {
            max.x = p.x;
        }
        if p.y > max.y {
            max.y = p.y;
        }
        if p.z > max.z {
            max.z = p.z;
        }
        proof {
            let after = targets@.take(i + 1);
            assert(after[i as int].position == p);
            assert forall|j: int| 0 <= j < i implies before[j] == after[j] by {}
            let b = PlanBounds { min: old_min, max: old_max };
            let j1 = choose|j: int| 0 <= j < before.len() && (#[trigger] before[j]).position.x == b.min.x;
            let j2 = choose|j: int| 0 <= j < before.len() && (#[trigger] before[j]).position.y == b.min.y;
            let j3 = choose|j: int| 0 <= j < before.len() && (#[trigger] before[j]).position.z == b.min.z;
            let j4 = choose|j: int| 0 <= j < before.len() && (#[trigger] before[j]).position.x == b.max.x;
            let j5 = choose|j: int| 0 <= j < before.len() && (#[trigger] before[j]).position.y == b.max.y;
            let j6 = choose|j: int| 0 <= j < before.len() && (#[trigger] before[j]).position.z == b.max.z;
            assert(after[j1].position.x == old_min.x);
            assert(after[j2].position.y == old_min.y);
            assert(after[j3].position.z == old_min.z);
            assert(after[j4].position.x == old_max.x);
            assert(after[j5].position.y == old_max.y);
            assert(after[j6].position.z == old_max.z);
            assert(encloses(after, PlanBounds { min, max }));
        }
        i = i + 1;
    }
    proof {
        assert(targets@.take(i as int) =~= targets@);
    }
    Some(PlanBounds { min, max })
}

fn absolute_position(anchor: PlanAnchor, x: i32, y: i32, z: i32) -> (r: Option<BlockPos>)
    ensures
        r == if fits(anchor.x + x) && fits(anchor.y + y) && fits(anchor.z + z) {
            Some(
                BlockPos {
                    x: (anchor.x + x) as i32,
                    y: (anchor.y + y) as i32,
                    z: (anchor.z + z) as i32,
                },
            )
        } else {
            None
        },
{
    match (anchor.x.checked_add(x), anchor.y.checked_add(y), anchor.z.checked_add(z)) {
        (Some(x), Some(y), Some(z)) => Some(BlockPos { x, y, z }),
        _ => None,
    }
}

fn find_target(targets: &Vec<ExpandedTarget>, position: BlockPos) -> (r: Option<usize>)
    ensures
        r matches Some(i) ==> i < targets@.len() && target_at(targets@, position) == Some(i as int),
        r is None ==> target_at(targets@, position) is None,
{
    let mut i: usize = 0;
    let mut found: Option<usize> = None;
    while i < targets.len()
        invariant
            i <= targets@.len(),
            found matches Some(j) ==> j < i && target_at(targets@.take(i as int), position) == Some(
                j as int,
            ),
            found is None ==> target_at(targets@.take(i as int), position) is None,
        decreases targets@.len() - i,
    {
        proof {
            assert(targets@.take(i + 1).drop_last() =~= targets@.take(i as int));
        }
        if found.is_none() && targets[i].position == position {
            found = Some(i);
        }
        i = i + 1;
    }
    proof {
        assert(targets@.take(i as int) =~= targets@);
    }
    found
}

/// An expansion in progress.
struct Expander {
    targets: Vec<ExpandedTarget>,
    conflicts: Vec<PlanConflict>,
    full: bool,
}

impl View for Expander {
    type V = Expansion;

    closed spec fn view(&self) -> Expansion {
        Expansion {
            targets: self.targets@,
            conflicts: conflict_views(self.conflicts@),
            full: self.full,
        }
    }
}

impl Expander {
    fn report(&mut self, conflict: PlanConflict)
        ensures
            final(self)@ == old(self)@.conflict(conflict@),
    {
        self.conflicts.push(conflict);
        proof {
            assert(self@ =~= old(self)@.conflict(conflict@));
        }
    }

    fn add_cell(
        &mut self,
        anchor: PlanAnchor,
        bounds: WorldBounds,
        block: BlockState,
        operation_index: usize,
        x: i32,
        y: i32,
        z: i32,
    )
        requires
            !old(self).full,
        ensures
            final(self)@ == old(self)@.with_cell(
                (Placement { anchor, bounds, block, operation_index }),
                (x as int, y as int, z as int),
            ),
    {
        if self.targets.len() >= MAX_BUILD_TARGETS {
            self.report(
                PlanConflict::operation(
                    "expanded_target_limit",
                    "plan expands beyond the 256-target limit".to_owned(),
                    operation_index,
                ),
            );
            self.full = true;
            return;
        }
        match absolute_position(anchor, x, y, z) {
            None => {
                self.report(
                    PlanConflict::operation(
                        "coordinate_overflow",
                        "anchor plus relative coordinate overflows a signed 32-bit integer".to_owned(),
                        operation_index,
                    ),
                );
            },
            Some(position) => match find_target(&self.targets, position) {
                Some(first) => {
                    let mut message = "target already appears in operation ".to_owned();
                    push_u64(&mut message, self.targets[first].operation_index as u64);
                    self.report(
                        PlanConflict::target(
                            "duplicate_target",
                            message,
                            operation_index,
                            position,
                        ),
                    );
                },
                None => {
                    if !bounds.contains(position) {
                        self.report(
                            PlanConflict::target(
                                "out_of_bounds",
                                "target is outside active world bounds".to_owned(),
                                operation_index,
                                position,
                            ),
                        );
                    }
                    self.targets.push(ExpandedTarget { position, block, operation_index });
                },
            },
        }
    }

    fn add_box(
        &mut self,
        anchor: PlanAnchor,
        bounds: WorldBounds,
        block: BlockState,
        operation_index: usize,
        from: [i32; 3],
        to: [i32; 3],
    )
        requires
            !old(self).full,
            (BoxSpan { from: triple(from@), to: triple(to@) }).ordered(),
        ensures
            final(self)@ == old(self)@.with_cells(
                (Placement { anchor, bounds, block, operation_index }),
                (BoxSpan { from: triple(from@), to: triple(to@) }),
                (BoxSpan { from: triple(from@), to: triple(to@) }).volume(),
            ),
    {
        let ghost start = self@;
        let ghost span = BoxSpan { from: triple(from@), to: triple(to@) };
        let ghost placement = Placement { anchor, bounds, block, operation_index };
        let ghost mut k: int = 0;
        let mut x: i32 = from[0];
        let mut y: i32 = from[1];
        let mut z: i32 = from[2];
        proof {
            first_cell(span);
        }
        loop
            invariant_except_break
                !self.full,
                0 <= k < span.volume(),
                span.cell(k) == (x as int, y as int, z as int),
                self@ == start.with_cells(placement, span, k),
            invariant
                span == (BoxSpan { from: triple(from@), to: triple(to@) }),
                span.ordered(),
                placement == (Placement { anchor, bounds, block, operation_index }),
            ensures
                self@ == start.with_cells(placement, span, span.volume()),
            decreases span.volume() - k,
        {
            proof {
                cells_run_in_order(span, k);
            }
            self.add_cell(anchor, bounds, block, operation_index, x, y, z);
            proof {
                k = k + 1;
            }
            if self.full {
                proof {
                    full_stays(start, placement, span, k, span.volume());
                }
                break;
            }
            if z < to[2] {
                z = z + 1;
            } else if x < to[0] {
                z = from[2];
                x = x + 1;
            } else if y < to[1] {
                z = from[2];
                x = from[0];
                y = y + 1;
            } else {
                break;
            }
        }
    }

    fn add_operation(&mut self, plan: &BuildPlan, bounds: WorldBounds, i: usize)
        requires
            !old(self).full,
            i < plan.operations@.len(),
        ensures
            final(self)@ == old(self)@.with_operation(*plan, bounds, i as int),
    {
        let (from, to, name): ([i32; 3], [i32; 3], &String) = match &plan.operations[i] {
            BuildOperation::SetBlock { at, block } => (*at, *at, block),
            BuildOperation::FillBox { from, to, block } => (*from, *to, block),
        };
        if from[0] > to[0] || from[1] > to[1] || from[2] > to[2] {
            self.report(
                PlanConflict::operation(
                    "invalid_box",
                    "fill_box.from must be component-wise <= fill_box.to".to_owned(),
                    i,
                ),
            );
            return;
        }
        match block_state_for_name(name.as_str()) {
            None => {
                let mut message = "block `".to_owned();
                message.append(name.as_str());
                message.append("` is not in the BuildPlan v1 palette");
                self.report(PlanConflict::operation("unsupported_block", message, i));
            },
            Some(block) => self.add_box(plan.anchor, bounds, block, i, from, to),
        }
    }
}

proof fn full_stays(e: Expansion, placement: Placement, span: BoxSpan, k: int, n: int)
    requires
        0 <= k <= n,
        e.with_cells(placement, span, k).full,
    ensures
        e.with_cells(placement, span, n) == e.with_cells(placement, span, k),
    decreases n - k,
{
    if k < n {
        full_stays(e, placement, span, k, n - 1);
    }
}

proof fn full_stays_over_operations(e: Expansion, plan: BuildPlan, bounds: WorldBounds, k: int, n: int)
    requires
        0 <= k <= n,
        e.with_operations(plan, bounds, k).full,
    ensures
        e.with_operations(plan, bounds, n) == e.with_operations(plan, bounds, k),
    decreases n - k,
{
    if k < n {
        full_stays_over_operations(e, plan, bounds, k, n - 1);
    }
}

fn check_header(plan: &BuildPlan) -> (r: Vec<PlanConflict>)
    ensures
        conflict_views(r@) == header_conflicts(*plan),
{
    let mut conflicts: Vec<PlanConflict> = Vec::new();
    if plan.schema_version != BUILD_PLAN_SCHEMA_VERSION {
        let mut message = "schema_version ".to_owned();
        push_u64(&mut message, plan.schema_version as u64);
        message.append(" is unsupported; expected 1");
        conflicts.push(PlanConflict::plan("unsupported_schema_version", message));
    }
    if plan.idempotency_key.as_str().is_empty() || byte_len(plan.idempotency_key.as_str())
        > MAX_IDEMPOTENCY_KEY_BYTES {
        conflicts.push(
            PlanConflict::plan(
                "invalid_idempotency_key",
                "idempotency_key must contain 1..=128 UTF-8 bytes".to_owned(),
            ),
        );
    }
    if !same_text(plan.replace_mode.as_str(), "air_only") {
        let mut message = "replace_mode `".to_owned();
        message.append(plan.replace_mode.as_str());
        message.append("` is unsupported; expected `air_only`");
        conflicts.push(PlanConflict::plan("unsupported_replace_mode", message));
    }
    if plan.operations.len() == 0 || plan.operations.len() > MAX_BUILD_OPERATIONS {
        let mut message = "operations must contain 1..=128 entries; received ".to_owned();
        push_u64(&mut message, plan.operations.len() as u64);
        conflicts.push(PlanConflict::plan("operation_limit", message));
    }
    proof {
        assert(conflict_views(conflicts@) =~= header_conflicts(*plan));
    }
    conflicts
}

/// The warnings for a plan with that many targets.
pub open spec fn plan_warnings(targets: nat) -> Seq<Seq<char>> {
    if targets > 200 {
        seq!["plan is near the synchronous 256-target limit"@]
    } else {
        seq![]
    }
}

/// The texts of a list of strings.
pub open spec fn texts(strings: Seq<String>) -> Seq<Seq<char>> {
    strings.map_values(|s: String| s@)
}

fn expand_plan(plan: &BuildPlan, world_bounds: WorldBounds) -> (r: Expander)
    ensures
        r@ == plan_expansion(*plan, world_bounds),
{
    let header = check_header(plan);
    let refused = header.len() > 0;
    let mut expander = Expander { targets: Vec::new(), conflicts: header, full: false };
    let ghost start = expander@;
    proof {
        assert(start =~= Expansion {
            targets: seq![],
            conflicts: header_conflicts(*plan),
            full: false,
        });
    }
    if !refused {
        let mut i: usize = 0;
        while i < plan.operations.len() && !expander.full
            invariant
                i <= plan.operations@.len(),
                expander@ == start.with_operations(*plan, world_bounds, i as int),
            decreases plan.operations@.len() - i,
        {
            expander.add_operation(plan, world_bounds, i);
            i = i + 1;
        }
        proof {
            if expander.full {
                full_stays_over_operations(
                    start,
                    *plan,
                    world_bounds,
                    i as int,
                    plan.operations@.len() as int,
                );
            }
        }
    }
    expander
}

/// True iff the prepared plan is the plan with its canonical text and hash, its expansion in the
/// bounds, and every conflict that does not depend on the state of the world.
pub open spec fn is_prepared(r: PreparedPlan, plan: BuildPlan, world_bounds: WorldBounds) -> bool {
    &&& r.plan == plan
    &&& r.canonical_json@ == plan_json(plan)
    &&& r.plan_hash@ == plan_digest(plan)
    &&& is_hash(r.plan_hash@)
    &&& r.targets@ == plan_expansion(plan, world_bounds).targets
    &&& conflict_views(r.conflicts@) == plan_expansion(plan, world_bounds).conflicts
    &&& bounds_of(r.targets@, r.bounds)
    &&& texts(r.warnings@) == plan_warnings(r.targets@.len())
}

/// The text and the hash of a plan rest on the plan alone: in whatever bounds it is prepared, they
/// are the same, and the hash is the SHA-256 digest of the text, in 64 hexadecimal digits.
pub proof fn equal_plans_have_one_hash(
    a: PreparedPlan,
    b: PreparedPlan,
    plan: BuildPlan,
    bounds: WorldBounds,
    other_bounds: WorldBounds,
)
    requires
        is_prepared(a, plan, bounds),
        is_prepared(b, plan, other_bounds),
    ensures
        a.canonical_json@ == b.canonical_json@,
        a.plan_hash@ == b.plan_hash@,
        a.plan_hash@ == hex(sha256_of(encode_utf8(a.canonical_json@))),
        is_hash(a.plan_hash@),
{
}

/// Expands a plan, gives it its canonical text and hash, and reports every conflict that does not
/// depend on the state of the world.
pub fn prepare_build_plan(plan: BuildPlan, world_bounds: WorldBounds) -> (r: PreparedPlan)
    ensures
        is_prepared(r, plan, world_bounds),
{
    let canonical_json = canonical_plan_json(&plan);
    let plan_hash = hash_text(canonical_json.as_str().as_bytes());
    let expander = expand_plan(&plan, world_bounds);
    let bounds = expanded_bounds(expander.targets.as_slice());
    let mut warnings: Vec<String> = Vec::new();
    if expander.targets.len() > 200 {
        warnings.push("plan is near the synchronous 256-target limit".to_owned());
    }
    proof {
        assert(texts(warnings@) =~= plan_warnings(expander.targets@.len()));
    }
    PreparedPlan {
        plan,
        canonical_json,
        plan_hash,
        targets: expander.targets,
        bounds,
        conflicts: expander.conflicts,
        warnings,
    }
}

/// The positions of the targets.
pub fn target_positions(targets: &[ExpandedTarget]) -> (r: PositionSet)
    ensures
        r.wf(),
        forall|p: BlockPos| #[trigger]
            r@.contains_key(p) <==> exists|i: int|
                0 <= i < targets@.len() && (#[trigger] targets@[i]).position == p,
{
    let mut positions: PositionSet = PositionMap::new();
    let mut i: usize = 0;
    while i < targets.len()
        invariant
            i <= targets@.len(),
            positions.wf(),
            forall|p: BlockPos| #[trigger]
                positions@.contains_key(p) <==> exists|j: int|
                    0 <= j < i && (#[trigger] targets@[j]).position == p,
        decreases targets@.len() - i,
    {
        positions.insert(targets[i].position, ());
        i = i + 1;
    }
    positions
}

// ---- laws ----

/// What holds of every expansion of a plan: at most 256 targets, no two at one position, each of
/// a placeable block and from an operation of the plan; and without conflicts every target lies
/// inside the bounds.
pub open spec fn sound_expansion(e: Expansion, operations: nat, bounds: WorldBounds) -> bool {
    &&& e.targets.len() <= MAX_BUILD_TARGETS
    &&& forall|i: int, j: int|
        0 <= i < j < e.targets.len() ==> (#[trigger] e.targets[i]).position != (
        #[trigger] e.targets[j]).position
    &&& forall|i: int|
        #![trigger e.targets[i]]
        0 <= i < e.targets.len() ==> e.targets[i].operation_index < operations && placeable(
            e.targets[i].block,
        )
    &&& e.conflicts.len() == 0 ==> !e.full && forall|i: int|
        0 <= i < e.targets.len() ==> bounds.has((#[trigger] e.targets[i]).position.coords())
}

proof fn absent_target(targets: Seq<ExpandedTarget>, position: BlockPos)
    requires
        target_at(targets, position) is None,
    ensures
        forall|i: int| 0 <= i < targets.len() ==> (#[trigger] targets[i]).position != position,
    decreases targets.len(),
{
    if targets.len() > 0 {
        absent_target(targets.drop_last(), position);
        assert forall|i: int| 0 <= i < targets.len() implies (#[trigger] targets[i]).position
            != position by {
            if i < targets.len() - 1 {
                assert(targets.drop_last()[i] == targets[i]);
            }
        }
    }
}

proof fn cell_keeps_sound(e: Expansion, placement: Placement, c: (int, int, int), operations: nat)
    requires
        sound_expansion(e, operations, placement.bounds),
        placement.operation_index < operations,
        placeable(placement.block),
    ensures
        sound_expansion(e.with_cell(placement, c), operations, placement.bounds),
{
    let p = placement.absolute(c);
    if !e.full && e.targets.len() < MAX_BUILD_TARGETS && fits(p.0) && fits(p.1) && fits(p.2) {
        let position = BlockPos { x: p.0 as i32, y: p.1 as i32, z: p.2 as i32 };
        if target_at(e.targets, position) is None {
            absent_target(e.targets, position);
        }
    }
}

proof fn cells_keep_sound(e: Expansion, placement: Placement, span: BoxSpan, n: int, operations: nat)
    requires
        sound_expansion(e, operations, placement.bounds),
        placement.operation_index < operations,
        placeable(placement.block),
    ensures
        sound_expansion(e.with_cells(placement, span, n), operations, placement.bounds),
    decreases n,
{
    if n > 0 {
        cells_keep_sound(e, placement, span, n - 1, operations);
        cell_keeps_sound(
            e.with_cells(placement, span, n - 1),
            placement,
            span.cell(n - 1),
            operations,
        );
    }
}

proof fn operations_keep_sound(e: Expansion, plan: BuildPlan, bounds: WorldBounds, n: int)
    requires
        sound_expansion(e, plan.operations@.len(), bounds),
        0 <= n <= plan.operations@.len() <= usize::MAX,
    ensures
        sound_expansion(e.with_operations(plan, bounds, n), plan.operations@.len(), bounds),
    decreases n,
{
    if n > 0 {
        operations_keep_sound(e, plan, bounds, n - 1);
        let before = e.with_operations(plan, bounds, n - 1);
        let operation = plan.operations@[n - 1];
        let span = operation_span(operation);
        if !before.full && span.ordered() {
            match plan_block(operation_block(operation)) {
                None => {},
                Some(block) => {
                    let placement = Placement {
                        anchor: plan.anchor,
                        bounds,
                        block,
                        operation_index: (n - 1) as usize,
                    };
                    hotbar_can_be_placed();
                    cells_keep_sound(before, placement, span, span.volume(), plan.operations@.len());
                },
            }
        }
    }
}

/// Every plan expands to at most 256 targets, no two at one position, each of a placeable block;
/// and a plan without conflicts stays inside the bounds.
pub proof fn expansion_is_sound(plan: BuildPlan, bounds: WorldBounds)
    ensures
        sound_expansion(plan_expansion(plan, bounds), plan.operations@.len(), bounds),
{
    let start = Expansion { targets: seq![], conflicts: header_conflicts(plan), full: false };
    if header_conflicts(plan).len() == 0 {
        assert(plan.operations@.len() <= MAX_BUILD_OPERATIONS);
        operations_keep_sound(start, plan, bounds, plan.operations@.len() as int);
    }
}

/// The targets of the plan's operation number `i`, in y-x-z order.
pub open spec fn operation_targets(plan: BuildPlan, i: int) -> Seq<ExpandedTarget> {
    let span = operation_span(plan.operations@[i]);
    Seq::new(span.volume() as nat, |k: int| operation_target(plan, i, k))
}

/// The target number `k` of the plan's operation number `i`.
pub open spec fn operation_target(plan: BuildPlan, i: int, k: int) -> ExpandedTarget {
    let c = operation_span(plan.operations@[i]).cell(k);
    ExpandedTarget {
        position: BlockPos {
            x: (plan.anchor.x + c.0) as i32,
            y: (plan.anchor.y + c.1) as i32,
            z: (plan.anchor.z + c.2) as i32,
        },
        block: plan_block(operation_block(plan.operations@[i]))->0,
        operation_index: i as usize,
    }
}

/// The targets of the plan's first `n` operations, one operation after the other.
pub open spec fn listed_targets(plan: BuildPlan, n: int) -> Seq<ExpandedTarget>
    decreases n,
{
    if n <= 0 {
        seq![]
    } else {
        listed_targets(plan, n - 1) + operation_targets(plan, n - 1)
    }
}

/// True iff the cell number `k` of the plan's operation number `i` lies in the bounds.
spec fn cell_in_bounds(plan: BuildPlan, bounds: WorldBounds, i: int, k: int) -> bool {
    let c = operation_span(plan.operations@[i]).cell(k);
    bounds.has((plan.anchor.x + c.0, plan.anchor.y + c.1, plan.anchor.z + c.2))
}

proof fn clean_cells(
    e: Expansion,
    plan: BuildPlan,
    bounds: WorldBounds,
    i: int,
    placement: Placement,
    n: int,
)
    requires
        0 <= i < plan.operations@.len() <= usize::MAX,
        plan_block(operation_block(plan.operations@[i])) == Some(placement.block),
        placement.anchor == plan.anchor,
        placement.bounds == bounds,
        placement.operation_index == i,
        0 <= n <= operation_span(plan.operations@[i]).volume(),
        e.with_cells(placement, operation_span(plan.operations@[i]), n).conflicts.len() == 0,
        !e.full,
    ensures
        forall|k: int| 0 <= k < n ==> #[trigger] cell_in_bounds(plan, bounds, i, k),
        e.conflicts.len() == 0,
        !e.with_cells(placement, operation_span(plan.operations@[i]), n).full,
        e.with_cells(placement, operation_span(plan.operations@[i]), n).targets == e.targets
            + operation_targets(plan, i).take(n),
    decreases n,
{
    let span = operation_span(plan.operations@[i]);
    if n > 0 {
        clean_cells(e, plan, bounds, i, placement, n - 1);
        assert(operation_targets(plan, i).take(n) =~= operation_targets(plan, i).take(n - 1).push(
            operation_target(plan, i, n - 1),
        ));
        assert(e.with_cells(placement, span, n).targets =~= e.targets + operation_targets(
            plan,
            i,
        ).take(n));
    } else {
        assert(e.targets =~= e.targets + operation_targets(plan, i).take(0));
    }
}

proof fn clean_operations(e: Expansion, plan: BuildPlan, bounds: WorldBounds, n: int)
    requires
        0 <= n <= plan.operations@.len() <= usize::MAX,
        e.with_operations(plan, bounds, n).conflicts.len() == 0,
        !e.full,
    ensures
        e.conflicts.len() == 0,
        !e.with_operations(plan, bounds, n).full,
        e.with_operations(plan, bounds, n).targets == e.targets + listed_targets(plan, n),
        forall|i: int|
            0 <= i < n ==> operation_span(#[trigger] plan.operations@[i]).ordered() && plan_block(
                operation_block(plan.operations@[i]),
            ) is Some,
        forall|i: int, k: int|
            0 <= i < n && 0 <= k < operation_span(plan.operations@[i]).volume()
                ==> #[trigger] cell_in_bounds(plan, bounds, i, k),
    decreases n,
{
    if n > 0 {
        let before = e.with_operations(plan, bounds, n - 1);
        let operation = plan.operations@[n - 1];
        let span = operation_span(operation);
        if before.full {
            full_has_conflicts(e, plan, bounds, n - 1);
        } else if span.ordered() && plan_block(operation_block(operation)) is Some {
            let placement = Placement {
                anchor: plan.anchor,
                bounds,
                block: plan_block(operation_block(operation))->0,
                operation_index: (n - 1) as usize,
            };
            first_cell(span);
            clean_cells(before, plan, bounds, n - 1, placement, span.volume());
            clean_operations(e, plan, bounds, n - 1);
            assert(operation_targets(plan, n - 1).take(span.volume()) =~= operation_targets(
                plan,
                n - 1,
            ));
            assert(e.with_operations(plan, bounds, n).targets =~= e.targets + listed_targets(plan, n));
        }
    } else {
        assert(e.targets =~= e.targets + listed_targets(plan, 0));
    }
}

proof fn full_has_conflicts(e: Expansion, plan: BuildPlan, bounds: WorldBounds, n: int)
    requires
        !e.full,
        e.with_operations(plan, bounds, n).full,
    ensures
        e.with_operations(plan, bounds, n).conflicts.len() > 0,
    decreases n,
{
    if n > 0 {
        let before = e.with_operations(plan, bounds, n - 1);
        if before.full {
            full_has_conflicts(e, plan, bounds, n - 1);
        } else {
            let operation = plan.operations@[n - 1];
            let span = operation_span(operation);
            if span.ordered() && plan_block(operation_block(operation)) is Some {
                let placement = Placement {
                    anchor: plan.anchor,
                    bounds,
                    block: plan_block(operation_block(operation))->0,
                    operation_index: (n - 1) as usize,
                };
                full_cells_have_conflicts(before, placement, span, span.volume());
            }
        }
    }
}

proof fn full_cells_have_conflicts(e: Expansion, placement: Placement, span: BoxSpan, n: int)
    requires
        !e.full,
        e.with_cells(placement, span, n).full,
    ensures
        e.with_cells(placement, span, n).conflicts.len() > 0,
    decreases n,
{
    if n > 0 {
        if e.with_cells(placement, span, n - 1).full {
            full_cells_have_conflicts(e, placement, span, n - 1);
        }
    }
}

/// A plan without conflicts expands to exactly the cells of its operations: the operations in
/// their order, and the cells of each in y-x-z order.
pub proof fn conflict_free_plan_lists_every_cell(plan: BuildPlan, bounds: WorldBounds)
    requires
        plan_expansion(plan, bounds).conflicts.len() == 0,
    ensures
        plan_expansion(plan, bounds).targets == listed_targets(plan, plan.operations@.len() as int),
        forall|i: int|
            0 <= i < plan.operations@.len() ==> operation_span(
                #[trigger] plan.operations@[i],
            ).ordered(),
{
    let start = Expansion { targets: seq![], conflicts: header_conflicts(plan), full: false };
    if header_conflicts(plan).len() == 0 {
        assert(plan.operations@.len() <= MAX_BUILD_OPERATIONS);
        clean_operations(start, plan, bounds, plan.operations@.len() as int);
        assert(start.targets + listed_targets(plan, plan.operations@.len() as int)
            =~= listed_targets(plan, plan.operations@.len() as int));
    }
}

// ---- what a plan asks for, position by position ----

/// True iff the operation, counted from the anchor, covers the position.
pub open spec fn covers(operation: BuildOperation, anchor: PlanAnchor, p: (int, int, int)) -> bool {
    match operation {
        BuildOperation::SetBlock { at, block } => {
            &&& p.0 == anchor.x + at@[0]
            &&& p.1 == anchor.y + at@[1]
            &&& p.2 == anchor.z + at@[2]
        },
        BuildOperation::FillBox { from, to, block } => {
            &&& anchor.x + from@[0] <= p.0 <= anchor.x + to@[0]
            &&& anchor.y + from@[1] <= p.1 <= anchor.y + to@[1]
            &&& anchor.z + from@[2] <= p.2 <= anchor.z + to@[2]
        },
    }
}

/// The name that the operation gives its block.
pub open spec fn asked_name(operation: BuildOperation) -> Seq<char> {
    match operation {
        BuildOperation::SetBlock { at, block } => block@,
        BuildOperation::FillBox { from, to, block } => block@,
    }
}

/// The names that a plan may use are those of six blocks of the build palette, and each gives the
/// block of that name.
pub proof fn plan_names_give_their_blocks(name: Seq<char>)
    ensures
        plan_block(name) is Some <==> name == "stone"@ || name == "dirt"@ || name == "grass_block"@
            || name == "oak_planks"@ || name == "cobblestone"@ || name == "glass"@,
        plan_block(name) matches Some(block) ==> palette_block(name) == Some(block) && palette_name(
            block,
        ) == Some(name),
        plan_block("stone"@) == Some(1u16),
        plan_block("dirt"@) == Some(10u16),
        plan_block("grass_block"@) == Some(9u16),
        plan_block("oak_planks"@) == Some(15u16),
        plan_block("cobblestone"@) == Some(14u16),
        plan_block("glass"@) == Some(519u16),
{
    reveal_strlit("stone");
    reveal_strlit("dirt");
    reveal_strlit("grass_block");
    reveal_strlit("oak_planks");
    reveal_strlit("cobblestone");
    reveal_strlit("glass");
    assert("stone"@[0] == 's' && "glass"@[0] == 'g');
    assert("stone"@.len() == 5 && "dirt"@.len() == 4 && "grass_block"@.len() == 11
        && "oak_planks"@.len() == 10 && "cobblestone"@.len() == 11 && "glass"@.len() == 5);
    assert("grass_block"@[0] == 'g' && "cobblestone"@[0] == 'c');
    let n = palette().len();
    assert(palette()[0].name@ == "stone"@ && palette()[0].block == 1);
    assert(palette()[1].name@ == "dirt"@ && palette()[1].block == 10);
    assert(palette()[2].name@ == "grass_block"@ && palette()[2].block == 9);
    assert(palette()[3].name@ == "oak_planks"@ && palette()[3].block == 15);
    assert(palette()[4].name@ == "cobblestone"@ && palette()[4].block == 14);
    assert(palette()[5].name@ == "glass"@ && palette()[5].block == 519);
    lookups_round_trip(0);
    lookups_round_trip(1);
    lookups_round_trip(2);
    lookups_round_trip(3);
    lookups_round_trip(4);
    lookups_round_trip(5);
}

/// The number of a cell, by its place in the box.
pub proof fn cell_number(b: BoxSpan, k: int)
    requires
        b.ordered(),
        0 <= k < b.volume(),
    ensures
        b.has(b.cell(k)),
        k == ((b.cell(k).1 - b.from.1) * b.dx() + (b.cell(k).0 - b.from.0)) * b.dz() + (b.cell(k).2
            - b.from.2),
{
    cells_run_in_order(b, k);
    let q = k / b.dz();
    step_div_mod(k, b.dz());
    step_div_mod(q, b.dx());
    let row = q / b.dx();
    let column = q % b.dx();
    assert(k == (row * b.dx() + column) * b.dz() + k % b.dz()) by (nonlinear_arith)
        requires
            k == b.dz() * q + k % b.dz(),
            q == b.dx() * row + column,
    ;
}

/// Every place of a box is that of one of its cells.
pub proof fn every_place_is_a_cell(b: BoxSpan, c: (int, int, int)) -> (k: int)
    requires
        b.ordered(),
        b.has(c),
    ensures
        0 <= k < b.volume(),
        b.cell(k) == c,
{
    let x = c.0 - b.from.0;
    let y = c.1 - b.from.1;
    let z = c.2 - b.from.2;
    let dx = b.dx();
    let dy = b.dy();
    let dz = b.dz();
    let q = y * dx + x;
    let k = q * dz + z;
    assert(0 <= q < dx * dy) by (nonlinear_arith)
        requires
            0 <= x < dx,
            0 <= y < dy,
            q == y * dx + x,
    ;
    assert(0 <= k < dz * (dx * dy)) by (nonlinear_arith)
        requires
            0 <= q < dx * dy,
            0 <= z < dz,
            k == q * dz + z,
    ;
    vstd::arithmetic::div_mod::lemma_fundamental_div_mod_converse(k, dz, q, z);
    vstd::arithmetic::div_mod::lemma_fundamental_div_mod_converse(q, dx, y, x);
    k
}

/// True iff every target so far is what an operation of the plan asks for.
spec fn asked_for(e: Expansion, plan: BuildPlan) -> bool {
    forall|i: int|
        #![trigger e.targets[i]]
        0 <= i < e.targets.len() ==> is_asked_for(e.targets[i], plan)
}

/// True iff the target is what its operation asks for: it lies where the operation covers, and is
/// the block of the palette that the operation names.
pub open spec fn is_asked_for(target: ExpandedTarget, plan: BuildPlan) -> bool {
    &&& target.operation_index < plan.operations@.len()
    &&& covers(
        plan.operations@[target.operation_index as int],
        plan.anchor,
        (target.position.x as int, target.position.y as int, target.position.z as int),
    )
    &&& palette_block(asked_name(plan.operations@[target.operation_index as int])) == Some(
        target.block,
    )
}

proof fn cells_are_asked_for(
    e: Expansion,
    plan: BuildPlan,
    i: int,
    placement: Placement,
    n: int,
)
    requires
        0 <= i < plan.operations@.len() <= usize::MAX,
        asked_for(e, plan),
        operation_span(plan.operations@[i]).ordered(),
        plan_block(operation_block(plan.operations@[i])) == Some(placement.block),
        placement.anchor == plan.anchor,
        placement.operation_index == i,
        0 <= n <= operation_span(plan.operations@[i]).volume(),
    ensures
        asked_for(e.with_cells(placement, operation_span(plan.operations@[i]), n), plan),
    decreases n,
{
    let span = operation_span(plan.operations@[i]);
    if n > 0 {
        cells_are_asked_for(e, plan, i, placement, n - 1);
        let before = e.with_cells(placement, span, n - 1);
        let after = e.with_cells(placement, span, n);
        cells_run_in_order(span, n - 1);
        plan_names_give_their_blocks(operation_block(plan.operations@[i]));
        assert forall|k: int| #![trigger after.targets[k]] 0 <= k < after.targets.len() implies
            is_asked_for(after.targets[k], plan) by {
            if k < before.targets.len() {
                assert(after.targets[k] == before.targets[k]);
            }
        }
    }
}

proof fn operations_are_asked_for(e: Expansion, plan: BuildPlan, bounds: WorldBounds, n: int)
    requires
        0 <= n <= plan.operations@.len() <= usize::MAX,
        asked_for(e, plan),
    ensures
        asked_for(e.with_operations(plan, bounds, n), plan),
    decreases n,
{
    if n > 0 {
        operations_are_asked_for(e, plan, bounds, n - 1);
        let before = e.with_operations(plan, bounds, n - 1);
        let operation = plan.operations@[n - 1];
        let span = operation_span(operation);
        if !before.full && span.ordered() && plan_block(operation_block(operation)) is Some {
            let placement = Placement {
                anchor: plan.anchor,
                bounds,
                block: plan_block(operation_block(operation))->0,
                operation_index: (n - 1) as usize,
            };
            first_cell(span);
            cells_are_asked_for(before, plan, n - 1, placement, span.volume());
        }
    }
}

/// Whatever is said against a plan, each of its targets lies where its operation covers, and is the
/// block of the palette that the operation names.
pub proof fn targets_are_what_operations_ask_for(plan: BuildPlan, bounds: WorldBounds, i: int)
    requires
        0 <= i < plan_expansion(plan, bounds).targets.len(),
    ensures
        is_asked_for(plan_expansion(plan, bounds).targets[i], plan),
{
    let start = Expansion { targets: seq![], conflicts: header_conflicts(plan), full: false };
    if header_conflicts(plan).len() == 0 {
        assert(plan.operations@.len() <= MAX_BUILD_OPERATIONS);
        operations_are_asked_for(start, plan, bounds, plan.operations@.len() as int);
    }
    assert(asked_for(plan_expansion(plan, bounds), plan));
}

/// True iff some target stands at the position, from that operation.
pub open spec fn has_target(
    targets: Seq<ExpandedTarget>,
    operation_index: int,
    p: (int, int, int),
) -> bool {
    exists|t: int|
        0 <= t < targets.len() && (#[trigger] targets[t]).operation_index == operation_index
            && targets[t].position.x == p.0 && targets[t].position.y == p.1
            && targets[t].position.z == p.2
}

proof fn listed_operation(plan: BuildPlan, n: int, i: int, k: int)
    requires
        0 <= i < n <= plan.operations@.len() <= usize::MAX,
        0 <= k < operation_span(plan.operations@[i]).volume(),
    ensures
        listed_targets(plan, n).contains(operation_target(plan, i, k)),
    decreases n,
{
    let before = listed_targets(plan, n - 1);
    let own = operation_targets(plan, n - 1);
    if i < n - 1 {
        listed_operation(plan, n - 1, i, k);
        let t = choose|t: int| 0 <= t < before.len() && before[t] == operation_target(plan, i, k);
        assert((before + own)[t] == operation_target(plan, i, k));
    } else {
        assert((before + own)[before.len() + k] == own[k]);
    }
}

/// A plan without conflicts leaves out nothing: every position that an operation covers has a target
/// of that operation.
pub proof fn covered_positions_have_targets(
    plan: BuildPlan,
    bounds: WorldBounds,
    i: int,
    p: (int, int, int),
)
    requires
        plan_expansion(plan, bounds).conflicts.len() == 0,
        0 <= i < plan.operations@.len(),
        covers(plan.operations@[i], plan.anchor, p),
    ensures
        has_target(plan_expansion(plan, bounds).targets, i, p),
{
    let targets = plan_expansion(plan, bounds).targets;
    let span = operation_span(plan.operations@[i]);
    conflict_free_plan_lists_every_cell(plan, bounds);
    assert(plan.operations@.len() <= MAX_BUILD_OPERATIONS);
    let c = (p.0 - plan.anchor.x, p.1 - plan.anchor.y, p.2 - plan.anchor.z);
    let k = every_place_is_a_cell(span, c);
    listed_operation(plan, plan.operations@.len() as int, i, k);
    let t = choose|t: int| 0 <= t < targets.len() && targets[t] == operation_target(plan, i, k);
    clean_operations(
        Expansion { targets: seq![], conflicts: header_conflicts(plan), full: false },
        plan,
        bounds,
        plan.operations@.len() as int,
    );
    assert(cell_in_bounds(plan, bounds, i, k));
    assert(targets[t].operation_index == i);
}

/// The number of positions that the first `n` operations cover, counted one by one.
pub open spec fn covered_count(plan: BuildPlan, n: int) -> int
    decreases n,
{
    if n <= 0 {
        0
    } else {
        covered_count(plan, n - 1) + match plan.operations@[n - 1] {
            BuildOperation::SetBlock { at, block } => 1,
            BuildOperation::FillBox { from, to, block } => (to@[2] - from@[2] + 1) * ((to@[0]
                - from@[0] + 1) * (to@[1] - from@[1] + 1)),
        }
    }
}

/// True iff nothing stands against the plan: it is of version 1, has a key of 1 to 128 bytes,
/// replaces air only, and has 1 to 128 operations; each box has its corners in order and names one
/// of the six blocks; every position that is covered lies in the bounds, and is covered once; and
/// there are at most 256 of them.
pub open spec fn is_sound_plan(plan: BuildPlan, bounds: WorldBounds) -> bool {
    &&& plan.schema_version == 1
    &&& 1 <= plan.idempotency_key@.len()
    &&& utf8_len(plan.idempotency_key@) <= 128
    &&& plan.replace_mode@ == "air_only"@
    &&& 1 <= plan.operations@.len() <= 128
    &&& forall|i: int|
        0 <= i < plan.operations@.len() ==> is_sound_operation(#[trigger] plan.operations@[i])
    &&& forall|i: int, p: (int, int, int)|
        0 <= i < plan.operations@.len() && #[trigger] covers(plan.operations@[i], plan.anchor, p)
            ==> bounds.min_x <= p.0 <= bounds.max_x && bounds.min_y <= p.1 <= bounds.max_y
            && bounds.min_z <= p.2 <= bounds.max_z
    &&& forall|i: int, j: int, p: (int, int, int)|
        0 <= i < j < plan.operations@.len() && #[trigger] covers(
            plan.operations@[i],
            plan.anchor,
            p,
        ) ==> !(#[trigger] covers(plan.operations@[j], plan.anchor, p))
    &&& covered_count(plan, plan.operations@.len() as int) <= 256
}

/// True iff the corners of a box are in order, and the name is one of the six.
pub open spec fn is_sound_operation(operation: BuildOperation) -> bool {
    let name = asked_name(operation);
    &&& name == "stone"@ || name == "dirt"@ || name == "grass_block"@ || name == "oak_planks"@
        || name == "cobblestone"@ || name == "glass"@
    &&& operation matches BuildOperation::FillBox { from, to, block } ==> from@[0] <= to@[0]
        && from@[1] <= to@[1] && from@[2] <= to@[2]
}

proof fn spans_cover(operation: BuildOperation, anchor: PlanAnchor, p: (int, int, int))
    ensures
        covers(operation, anchor, p) <==> operation_span(operation).has(
            (p.0 - anchor.x, p.1 - anchor.y, p.2 - anchor.z),
        ),
{
}

proof fn listed_count(plan: BuildPlan, n: int)
    requires
        0 <= n <= plan.operations@.len(),
        forall|i: int| 0 <= i < n ==> operation_span(#[trigger] plan.operations@[i]).ordered(),
    ensures
        listed_targets(plan, n).len() == covered_count(plan, n),
    decreases n,
{
    if n > 0 {
        listed_count(plan, n - 1);
        first_cell(operation_span(plan.operations@[n - 1]));
        let span = operation_span(plan.operations@[n - 1]);
        if let BuildOperation::SetBlock { at, block } = plan.operations@[n - 1] {
            assert(span.dx() == 1 && span.dy() == 1 && span.dz() == 1);
            assert(span.dz() * (span.dx() * span.dy()) == 1) by (nonlinear_arith)
                requires
                    span.dx() == 1,
                    span.dy() == 1,
                    span.dz() == 1,
            ;
        }
    }
}

proof fn listed_targets_are_covered(plan: BuildPlan, bounds: WorldBounds, n: int, t: int)
    requires
        is_sound_plan(plan, bounds),
        0 <= n <= plan.operations@.len(),
        0 <= t < listed_targets(plan, n).len(),
    ensures
        ({
            let target = listed_targets(plan, n)[t];
            &&& target.operation_index < n
            &&& covers(
                plan.operations@[target.operation_index as int],
                plan.anchor,
                target.position.coords(),
            )
        }),
    decreases n,
{
    if n > 0 {
        let before = listed_targets(plan, n - 1);
        if t < before.len() {
            listed_targets_are_covered(plan, bounds, n - 1, t);
            assert(listed_targets(plan, n)[t] == before[t]);
        } else {
            let k = t - before.len();
            let span = operation_span(plan.operations@[n - 1]);
            assert(is_sound_operation(plan.operations@[n - 1]));
            assert(listed_targets(plan, n)[t] == operation_target(plan, n - 1, k));
            cell_stays_in_bounds(plan, bounds, n - 1, k);
        }
    }
}

proof fn cell_stays_in_bounds(plan: BuildPlan, bounds: WorldBounds, i: int, k: int)
    requires
        is_sound_plan(plan, bounds),
        0 <= i < plan.operations@.len(),
        0 <= k < operation_span(plan.operations@[i]).volume(),
    ensures
        operation_span(plan.operations@[i]).ordered(),
        cell_in_bounds(plan, bounds, i, k),
        operation_target(plan, i, k).position.coords() == {
            let c = operation_span(plan.operations@[i]).cell(k);
            (plan.anchor.x + c.0, plan.anchor.y + c.1, plan.anchor.z + c.2)
        },
        covers(plan.operations@[i], plan.anchor, operation_target(plan, i, k).position.coords()),
{
    let span = operation_span(plan.operations@[i]);
    assert(is_sound_operation(plan.operations@[i]));
    cells_run_in_order(span, k);
    let c = span.cell(k);
    let p = (plan.anchor.x + c.0, plan.anchor.y + c.1, plan.anchor.z + c.2);
    spans_cover(plan.operations@[i], plan.anchor, p);
    assert(covers(plan.operations@[i], plan.anchor, p));
}

proof fn position_is_free(targets: Seq<ExpandedTarget>, position: BlockPos)
    requires
        forall|t: int| 0 <= t < targets.len() ==> (#[trigger] targets[t]).position != position,
    ensures
        target_at(targets, position) is None,
    decreases targets.len(),
{
    if targets.len() > 0 {
        assert forall|t: int| 0 <= t < targets.drop_last().len() implies (
        #[trigger] targets.drop_last()[t]).position != position by {
            assert(targets.drop_last()[t] == targets[t]);
        }
        position_is_free(targets.drop_last(), position);
    }
}

proof fn sound_cells(
    e: Expansion,
    plan: BuildPlan,
    bounds: WorldBounds,
    i: int,
    placement: Placement,
    n: int,
)
    requires
        is_sound_plan(plan, bounds),
        0 <= i < plan.operations@.len(),
        plan_block(operation_block(plan.operations@[i])) == Some(placement.block),
        placement.anchor == plan.anchor,
        placement.bounds == bounds,
        placement.operation_index == i,
        0 <= n <= operation_span(plan.operations@[i]).volume(),
        !e.full,
        e.conflicts.len() == 0,
        e.targets == listed_targets(plan, i),
        e.targets.len() + operation_span(plan.operations@[i]).volume() <= 256,
    ensures
        ({
            let r = e.with_cells(placement, operation_span(plan.operations@[i]), n);
            &&& !r.full
            &&& r.conflicts.len() == 0
            &&& r.targets == e.targets + operation_targets(plan, i).take(n)
        }),
    decreases n,
{
    let span = operation_span(plan.operations@[i]);
    if n > 0 {
        sound_cells(e, plan, bounds, i, placement, n - 1);
        let before = e.with_cells(placement, span, n - 1);
        let own = operation_targets(plan, i);
        let target = operation_target(plan, i, n - 1);
        cell_stays_in_bounds(plan, bounds, i, n - 1);
        cell_number(span, n - 1);
        assert forall|t: int| 0 <= t < before.targets.len() implies (
        #[trigger] before.targets[t]).position != target.position by {
            if t < e.targets.len() {
                listed_targets_are_covered(plan, bounds, i, t);
                assert(before.targets[t] == e.targets[t]);
                let other = e.targets[t];
                if other.position == target.position {
                    assert(covers(
                        plan.operations@[other.operation_index as int],
                        plan.anchor,
                        target.position.coords(),
                    ));
                    assert(covers(plan.operations@[i], plan.anchor, target.position.coords()));
                }
            } else {
                let k = t - e.targets.len();
                assert(before.targets[t] == own[k]);
                assert(own[k] == operation_target(plan, i, k));
                cell_stays_in_bounds(plan, bounds, i, k);
                cell_number(span, k);
            }
        }
        position_is_free(before.targets, target.position);
        assert(own.take(n) =~= own.take(n - 1).push(target));
        assert(e.with_cells(placement, span, n).targets =~= e.targets + own.take(n));
    } else {
        assert(e.targets =~= e.targets + operation_targets(plan, i).take(0));
    }
}

proof fn count_grows(plan: BuildPlan, bounds: WorldBounds, m: int, n: int)
    requires
        is_sound_plan(plan, bounds),
        0 <= m <= n <= plan.operations@.len(),
    ensures
        covered_count(plan, m) <= covered_count(plan, n),
    decreases n,
{
    if m < n {
        count_grows(plan, bounds, m, n - 1);
        assert(is_sound_operation(plan.operations@[n - 1]));
        let span = operation_span(plan.operations@[n - 1]);
        first_cell(span);
        if let BuildOperation::FillBox { from, to, block } = plan.operations@[n - 1] {
            assert(span.volume() == (to@[2] - from@[2] + 1) * ((to@[0] - from@[0] + 1) * (to@[1]
                - from@[1] + 1)));
        }
    }
}

proof fn sound_operations(e: Expansion, plan: BuildPlan, bounds: WorldBounds, n: int)
    requires
        is_sound_plan(plan, bounds),
        0 <= n <= plan.operations@.len(),
        !e.full,
        e.conflicts.len() == 0,
        e.targets.len() == 0,
    ensures
        ({
            let r = e.with_operations(plan, bounds, n);
            &&& !r.full
            &&& r.conflicts.len() == 0
            &&& r.targets == listed_targets(plan, n)
        }),
    decreases n,
{
    if n > 0 {
        sound_operations(e, plan, bounds, n - 1);
        let before = e.with_operations(plan, bounds, n - 1);
        let operation = plan.operations@[n - 1];
        let span = operation_span(operation);
        assert(is_sound_operation(operation));
        plan_names_give_their_blocks(operation_block(operation));
        let placement = Placement {
            anchor: plan.anchor,
            bounds,
            block: plan_block(operation_block(operation))->0,
            operation_index: (n - 1) as usize,
        };
        first_cell(span);
        assert forall|i: int| 0 <= i < n implies operation_span(
            #[trigger] plan.operations@[i],
        ).ordered() by {
            assert(is_sound_operation(plan.operations@[i]));
        }
        listed_count(plan, n - 1);
        listed_count(plan, n);
        count_grows(plan, bounds, n, plan.operations@.len() as int);
        sound_cells(before, plan, bounds, n - 1, placement, span.volume());
        assert(operation_targets(plan, n - 1).take(span.volume()) =~= operation_targets(
            plan,
            n - 1,
        ));
    } else {
        assert(e.targets =~= listed_targets(plan, 0));
    }
}

/// A plan has no conflicts exactly where nothing stands against it.
pub proof fn plan_is_accepted_exactly_when(plan: BuildPlan, bounds: WorldBounds)
    ensures
        plan_expansion(plan, bounds).conflicts.len() == 0 <==> is_sound_plan(plan, bounds),
{
    let start = Expansion { targets: seq![], conflicts: header_conflicts(plan), full: false };
    let n = plan.operations@.len() as int;
    if is_sound_plan(plan, bounds) {
        assert(header_conflicts(plan).len() == 0);
        sound_operations(start, plan, bounds, n);
    }
    if plan_expansion(plan, bounds).conflicts.len() == 0 {
        accepted_plan_is_sound(plan, bounds);
    }
}

proof fn accepted_plan_is_sound(plan: BuildPlan, bounds: WorldBounds)
    requires
        plan_expansion(plan, bounds).conflicts.len() == 0,
    ensures
        is_sound_plan(plan, bounds),
{
    let start = Expansion { targets: seq![], conflicts: header_conflicts(plan), full: false };
    let n = plan.operations@.len() as int;
    let targets = plan_expansion(plan, bounds).targets;
    assert(header_conflicts(plan).len() == 0);
    clean_operations(start, plan, bounds, n);
    conflict_free_plan_lists_every_cell(plan, bounds);
    expansion_is_sound(plan, bounds);
    listed_count(plan, n);
    assert forall|i: int| 0 <= i < n implies is_sound_operation(#[trigger] plan.operations@[i]) by {
        plan_names_give_their_blocks(operation_block(plan.operations@[i]));
        assert(operation_span(plan.operations@[i]).ordered());
    }
    assert forall|i: int, p: (int, int, int)|
        0 <= i < n && #[trigger] covers(plan.operations@[i], plan.anchor, p) implies bounds.min_x
        <= p.0 <= bounds.max_x && bounds.min_y <= p.1 <= bounds.max_y && bounds.min_z <= p.2
        <= bounds.max_z by {
        let span = operation_span(plan.operations@[i]);
        let c = (p.0 - plan.anchor.x, p.1 - plan.anchor.y, p.2 - plan.anchor.z);
        let k = every_place_is_a_cell(span, c);
        assert(cell_in_bounds(plan, bounds, i, k));
    }
    assert forall|i: int, j: int, p: (int, int, int)|
        0 <= i < j < n && #[trigger] covers(plan.operations@[i], plan.anchor, p) implies !(
    #[trigger] covers(plan.operations@[j], plan.anchor, p)) by {
        if covers(plan.operations@[j], plan.anchor, p) {
            covered_positions_have_targets(plan, bounds, i, p);
            covered_positions_have_targets(plan, bounds, j, p);
            let t = choose|t: int|
                0 <= t < targets.len() && (#[trigger] targets[t]).operation_index == i
                    && targets[t].position.x == p.0 && targets[t].position.y == p.1
                    && targets[t].position.z == p.2;
            let u = choose|u: int|
                0 <= u < targets.len() && (#[trigger] targets[u]).operation_index == j
                    && targets[u].position.x == p.0 && targets[u].position.y == p.1
                    && targets[u].position.z == p.2;
            if t < u {
                assert(targets[t].position != targets[u].position);
            } else if u < t {
                assert(targets[u].position != targets[t].position);
            }
        }
    }
}

} // verus!
