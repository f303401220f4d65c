//! Which conflict a plan is told of for which fault, and which targets it expands to, step by step.

use vstd::prelude::*;
use crate::block::BlockPos;
use crate::build_plan::{
    asked_name, header_conflicts, is_sound_operation, operation_block, plan_conflict, plan_expansion,
    plan_warnings, target_at, BuildOperation, BuildPlan, ConflictView, ExpandedTarget, Expansion,
    Placement, PlanPosition,
};
use crate::text::utf8_len;
use crate::world_command::WorldBounds;

verus! {

/// True iff one of the conflicts has that code, and is about the plan as a whole.
pub open spec fn tells_of_plan(conflicts: Seq<ConflictView>, code: Seq<char>) -> bool {
    exists|i: int|
        0 <= i < conflicts.len() && (#[trigger] conflicts[i]).code == code
            && conflicts[i].operation_index is None && conflicts[i].position is None
}

proof fn told_in_both(a: Seq<ConflictView>, b: Seq<ConflictView>)
    ensures
        forall|code: Seq<char>|
            tells_of_plan(a, code) || tells_of_plan(b, code) ==> #[trigger] tells_of_plan(
                a + b,
                code,
            ),
{
    let all = a + b;
    assert forall|code: Seq<char>|
        tells_of_plan(a, code) || tells_of_plan(b, code) implies #[trigger] tells_of_plan(
        a + b,
        code,
    ) by {
        if tells_of_plan(a, code) {
            let i = choose|i: int|
                0 <= i < a.len() && (#[trigger] a[i]).code == code && a[i].operation_index is None
                    && a[i].position is None;
            assert(all[i].code == code);
        } else {
            let i = choose|i: int|
                0 <= i < b.len() && (#[trigger] b[i]).code == code && b[i].operation_index is None
                    && b[i].position is None;
            assert(all[a.len() + i].code == code);
        }
    }
}

proof fn one_is_told(code: Seq<char>, message: Seq<char>)
    ensures
        tells_of_plan(seq![plan_conflict(code, message)], code),
{
    let list = seq![plan_conflict(code, message)];
    assert(list[0].code == code);
}

proof fn all_sums_are_told()
    ensures
        forall|a: Seq<ConflictView>, b: Seq<ConflictView>, code: Seq<char>|
            tells_of_plan(a, code) || tells_of_plan(b, code) ==> #[trigger] tells_of_plan(
                a + b,
                code,
            ),
        forall|code: Seq<char>, message: Seq<char>|
            tells_of_plan(seq![#[trigger] plan_conflict(code, message)], code),
{
    assert forall|a: Seq<ConflictView>, b: Seq<ConflictView>, code: Seq<char>|
        tells_of_plan(a, code) || tells_of_plan(b, code) implies #[trigger] tells_of_plan(
        a + b,
        code,
    ) by {
        told_in_both(a, b);
    }
    assert forall|code: Seq<char>, message: Seq<char>| tells_of_plan(
        seq![#[trigger] plan_conflict(code, message)],
        code,
    ) by {
        one_is_told(code, message);
    }
}

/// A plan is told of every fault of it as a whole, each under its own code; where it has one, it
/// expands to nothing.
pub proof fn plans_are_told_of_their_faults(plan: BuildPlan, bounds: WorldBounds)
    ensures
        ({
            let expansion = plan_expansion(plan, bounds);
            let version = plan.schema_version != 1;
            let key = plan.idempotency_key@.len() == 0 || utf8_len(plan.idempotency_key@) > 128;
            let mode = plan.replace_mode@ != "air_only"@;
            let count = !(1 <= plan.operations@.len() <= 128);
            &&& version ==> tells_of_plan(expansion.conflicts, "unsupported_schema_version"@)
            &&& key ==> tells_of_plan(expansion.conflicts, "invalid_idempotency_key"@)
            &&& mode ==> tells_of_plan(expansion.conflicts, "unsupported_replace_mode"@)
            &&& count ==> tells_of_plan(expansion.conflicts, "operation_limit"@)
            &&& version || key || mode || count ==> expansion.targets.len() == 0
        }),
{
    all_sums_are_told();
    let conflicts = header_conflicts(plan);
    if plan.schema_version != 1 {
        assert(tells_of_plan(conflicts, "unsupported_schema_version"@));
    }
    if plan.idempotency_key@.len() == 0 || utf8_len(plan.idempotency_key@) > 128 {
        assert(tells_of_plan(conflicts, "invalid_idempotency_key"@));
    }
    if plan.replace_mode@ != "air_only"@ {
        assert(tells_of_plan(conflicts, "unsupported_replace_mode"@));
    }
    if !(1 <= plan.operations@.len() <= 128) {
        assert(tells_of_plan(conflicts, "operation_limit"@));
    }
}

proof fn target_is_found(targets: Seq<ExpandedTarget>, p: BlockPos)
    ensures
        match target_at(targets, p) {
            Some(i) => 0 <= i < targets.len() && targets[i].position == p && forall|j: int|
                0 <= j < i ==> (#[trigger] targets[j]).position != p,
            None => forall|j: int| 0 <= j < targets.len() ==> (#[trigger] targets[j]).position != p,
        },
    decreases targets.len(),
{
    if targets.len() > 0 {
        let front = targets.drop_last();
        target_is_found(front, p);
        match target_at(front, p) {
            Some(i) => {
                assert forall|j: int| 0 <= j < i implies (#[trigger] targets[j]).position != p by {
                    assert(front[j].position != p);
                }
            },
            None => {
                assert forall|j: int| 0 <= j < front.len() implies (
                #[trigger] targets[j]).position != p by {
                    assert(front[j].position != p);
                }
            },
        }
    }
}

/// One more cell of an operation adds one target, at the anchor and the cell's place together, of the
/// operation's block; it is told of where it lies outside the bounds. No target is added, and the plan
/// is told why, where there are 256 already, where a coordinate needs more than 32 bits, and where the
/// position has a target.
pub proof fn cells_become_targets(e: Expansion, placement: Placement, c: (int, int, int))
    requires
        !e.full,
    ensures
        ({
            let x = placement.anchor.x + c.0;
            let y = placement.anchor.y + c.1;
            let z = placement.anchor.z + c.2;
            let after = e.with_cell(placement, c);
            let told = after.conflicts.last();
            let many = e.targets.len() >= 256;
            let wide = x < -0x8000_0000 || x > 0x7FFF_FFFF || y < -0x8000_0000 || y > 0x7FFF_FFFF || z
                < -0x8000_0000 || z > 0x7FFF_FFFF;
            let taken = exists|i: int|
                0 <= i < e.targets.len() && (#[trigger] e.targets[i]).position.x == x
                    && e.targets[i].position.y == y && e.targets[i].position.z == z;
            let inside = placement.bounds.min_x <= x <= placement.bounds.max_x
                && placement.bounds.min_y <= y <= placement.bounds.max_y && placement.bounds.min_z
                <= z <= placement.bounds.max_z;
            let added = !many && !wide && !taken;
            &&& after.full <==> many
            &&& added ==> {
                let target = after.targets.last();
                &&& after.targets.len() == e.targets.len() + 1
                &&& after.targets.drop_last() == e.targets
                &&& target.position.x == x && target.position.y == y && target.position.z == z
                &&& target.block == placement.block
                &&& target.operation_index == placement.operation_index
            }
            &&& !added ==> after.targets == e.targets
            &&& added && inside ==> after.conflicts == e.conflicts
            &&& !(added && inside) ==> {
                &&& after.conflicts.len() == e.conflicts.len() + 1
                &&& after.conflicts.drop_last() == e.conflicts
                &&& told.operation_index == Some(placement.operation_index)
                &&& told.code == if many {
                    "expanded_target_limit"@
                } else if wide {
                    "coordinate_overflow"@
                } else if taken {
                    "duplicate_target"@
                } else {
                    "out_of_bounds"@
                }
                &&& !many && !wide ==> told.position == Some(
                    PlanPosition { x: x as i32, y: y as i32, z: z as i32 },
                )
            }
        }),
{
    let p = placement.absolute(c);
    let position = BlockPos { x: p.0 as i32, y: p.1 as i32, z: p.2 as i32 };
    let after = e.with_cell(placement, c);
    target_is_found(e.targets, position);
    if after.targets.len() > e.targets.len() {
        assert(after.targets.drop_last() =~= e.targets);
    }
    if after.conflicts.len() > e.conflicts.len() {
        assert(after.conflicts.drop_last() =~= e.conflicts);
    }
}

/// An operation that is no box in order, or that names no block of plans, adds no target, and the plan
/// is told so, with the operation's number.
pub proof fn faulty_operations_add_nothing(e: Expansion, plan: BuildPlan, bounds: WorldBounds, i: int)
    requires
        !e.full,
        0 <= i < plan.operations@.len() <= usize::MAX,
        !is_sound_operation(plan.operations@[i]),
    ensures
        ({
            let after = e.with_operation(plan, bounds, i);
            let told = after.conflicts.last();
            let out_of_order = plan.operations@[i] matches BuildOperation::FillBox { from, to, block }
                && !(from@[0] <= to@[0] && from@[1] <= to@[1] && from@[2] <= to@[2]);
            &&& after.targets == e.targets
            &&& !after.full
            &&& after.conflicts.len() == e.conflicts.len() + 1
            &&& after.conflicts.drop_last() == e.conflicts
            &&& told.operation_index == Some(i as usize)
            &&& told.position is None
            &&& told.code == if out_of_order {
                "invalid_box"@
            } else {
                "unsupported_block"@
            }
        }),
{
    let after = e.with_operation(plan, bounds, i);
    let operation = plan.operations@[i];
    assert(asked_name(operation) == operation_block(operation));
    assert(after.conflicts.drop_last() =~= e.conflicts);
}

/// A plan is warned of exactly from 201 targets on.
pub proof fn large_plans_are_warned_of(targets: nat)
    ensures
        plan_warnings(targets).len() == if targets > 200 {
            1nat
        } else {
            0nat
        },
{
}

} // verus!
