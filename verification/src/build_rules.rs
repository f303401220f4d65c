//! What is reported, stored and answered of plans and builds.

use vstd::prelude::*;
use crate::block::BlockPos;
use crate::build_plan::{
    bounds_of, conflict_views, is_prepared, plan_json, texts, BuildPlan, ConflictView,
    ExpandedTarget, PlanBounds, PreparedPlan,
};
use crate::build_service::{
    apply_outcome, is_apply_result, reports, undo_outcome, ApplyBuildResult, ApplyStep,
    BuildValidationReport, UndoStep,
};
use crate::layer::WorldView;
use crate::persistence::StoredBuild;
use crate::world_command::WorldBounds;

verus! {

/// True iff the position lies in the bounds.
pub open spec fn lies_between(p: BlockPos, b: PlanBounds) -> bool {
    b.min.x <= p.x <= b.max.x && b.min.y <= p.y <= b.max.y && b.min.z <= p.z <= b.max.z
}

/// The bounds of a plan hold every target, and any other bounds that do hold them; a plan without
/// targets has none.
pub proof fn plan_bounds_are_the_least(
    targets: Seq<ExpandedTarget>,
    bounds: Option<PlanBounds>,
    other: PlanBounds,
)
    requires
        bounds_of(targets, bounds),
    ensures
        bounds is None <==> targets.len() == 0,
        bounds matches Some(b) ==> forall|i: int|
            0 <= i < targets.len() ==> lies_between((#[trigger] targets[i]).position, b),
        bounds matches Some(b) ==> ((forall|i: int|
            0 <= i < targets.len() ==> lies_between((#[trigger] targets[i]).position, other))
            ==> other.min.x <= b.min.x && other.min.y <= b.min.y && other.min.z <= b.min.z && b.max.x
            <= other.max.x && b.max.y <= other.max.y && b.max.z <= other.max.z),
{
}

/// A report says whether there are conflicts and which, and how many targets there are, in which bounds;
/// it names the plan by its hash.
pub proof fn reports_say_what_was_found(
    report: BuildValidationReport,
    prepared: PreparedPlan,
    conflicts: Seq<ConflictView>,
)
    requires
        reports(report, prepared, conflicts),
    ensures
        report.valid <==> conflicts.len() == 0,
        report.conflicts@.len() == conflicts.len(),
        forall|i: int|
            0 <= i < conflicts.len() ==> (#[trigger] report.conflicts@[i])@ == conflicts[i],
        report.expanded_targets == prepared.targets@.len(),
        report.bounds == prepared.bounds,
        report.plan_hash@ == prepared.plan_hash@,
        report.warnings@.len() == prepared.warnings@.len(),
{
    assert(conflict_views(report.conflicts@).len() == report.conflicts@.len());
    assert forall|i: int| 0 <= i < conflicts.len() implies (#[trigger] report.conflicts@[i])@
        == conflicts[i] by {
        assert(conflict_views(report.conflicts@)[i] == report.conflicts@[i]@);
    }
    assert(texts(report.warnings@).len() == report.warnings@.len());
    assert(texts(prepared.warnings@).len() == prepared.warnings@.len());
}

/// The record of an applied plan is kept under the plan's own key and hash, with its text, for the tools.
pub proof fn records_are_kept_under_the_key_of_their_plan(
    prepared: PreparedPlan,
    plan: BuildPlan,
    w: WorldView,
    bounds: WorldBounds,
    occupied: Map<BlockPos, ()>,
    build_id: Seq<char>,
    r: Result<ApplyStep, String>,
    after: WorldView,
)
    requires
        is_prepared(prepared, plan, bounds),
        apply_outcome(prepared, w, bounds, occupied, None, build_id, r, after),
    ensures
        r matches Ok(step) ==> {
            &&& step matches ApplyStep::Store(record)
            &&& record.build_id@ == build_id
            &&& record.idempotency_key@ == plan.idempotency_key@
            &&& record.plan_hash@ == prepared.plan_hash@
            &&& record.canonical_plan_json@ == plan_json(plan)
            &&& record.actor@ == "mcp"@
        },
{
}

/// A plan whose key is bound is answered with the build that has the key, where that is of the same
/// plan, and refused where it is not; the world is left alone.
pub proof fn bound_keys_answer_their_build(
    prepared: PreparedPlan,
    w: WorldView,
    bounds: WorldBounds,
    occupied: Map<BlockPos, ()>,
    build: StoredBuild,
    build_id: Seq<char>,
    r: Result<ApplyStep, String>,
    after: WorldView,
)
    requires
        apply_outcome(prepared, w, bounds, occupied, Some(build), build_id, r, after),
    ensures
        after == w,
        r is Ok <==> build.plan_hash@ == prepared.plan_hash@,
        r matches Ok(step) ==> {
            &&& step matches ApplyStep::Stored(result)
            &&& result.build_id@ == build.build_id@
            &&& result.plan_hash@ == build.plan_hash@
            &&& result.changed == build.changed
            &&& result.skipped == build.skipped
            &&& result.undo_available <==> build.state@ == "applied"@
        },
{
}

/// What is answered of a stored build is the build's own, and it can be undone exactly while it is
/// applied.
pub proof fn stored_builds_are_answered_as_they_are(result: ApplyBuildResult, build: StoredBuild)
    requires
        is_apply_result(result, build),
    ensures
        result.build_id@ == build.build_id@,
        result.plan_hash@ == build.plan_hash@,
        result.changed == build.changed,
        result.skipped == build.skipped,
        result.undo_available <==> build.state@ == "applied"@,
{
}

/// An undo of a build that was undone before leaves the world alone, and answers what was restored then.
pub proof fn undone_builds_are_answered_as_they_are(
    build: StoredBuild,
    w: WorldView,
    bounds: WorldBounds,
    r: Result<UndoStep, String>,
    after: WorldView,
)
    requires
        build.state@ == "undone"@,
        undo_outcome(build, w, bounds, r, after),
    ensures
        after == w,
        r matches Ok(UndoStep::AlreadyUndone(result)) && result.build_id@ == build.build_id@
            && result.state@ == "undone"@ && result.restored == build.changed
            && result.already_undone,
{
}

} // verus!
