//! Which tool a name means, what it is asked to do, and which columns it needs.

use vstd::prelude::*;
use crate::block::{column_of, BlockPos};
use crate::chunk_rules::{
    holds_part_of, in_column, placement_needs_the_columns_at_its_faces,
    regions_need_the_columns_of_their_blocks, touches_column, within_bounds,
};
use crate::json::{member, JsonView};
use crate::mcp::Region;
use crate::mcp_rules::{
    positions_are_taken_exactly_when, regions_are_taken_exactly_when, texts_are_taken_exactly_when,
    versions_are_taken_exactly_when,
};
use crate::server::{plan_columns, telemetry_due, tool_kind, tool_plan, PlanView, ToolKind};
use crate::server_rules::{has_integer, has_text};
use crate::text::utf8_len;
use crate::world_command::WorldBounds;

verus! {

/// The name of a tool.
pub open spec fn tool_name(kind: ToolKind) -> Seq<char> {
    match kind {
        ToolKind::ServerStatus => "server_status"@,
        ToolKind::ListPlayers => "list_players"@,
        ToolKind::GetWorldBounds => "get_world_bounds"@,
        ToolKind::ListBuildPalette => "list_build_palette"@,
        ToolKind::GetBlock => "get_block"@,
        ToolKind::SnapshotRegion => "snapshot_region"@,
        ToolKind::SetBlock => "set_block"@,
        ToolKind::RemoveBlock => "remove_block"@,
        ToolKind::FillRegion => "fill_region"@,
        ToolKind::ValidateBuildPlan => "validate_build_plan"@,
        ToolKind::ApplyBuildPlan => "apply_build_plan"@,
        ToolKind::GetBuild => "get_build"@,
        ToolKind::UndoBuild => "undo_build"@,
        ToolKind::ValidateSculptSpec => "validate_sculpt_spec"@,
        ToolKind::InspectAssetBudget => "inspect_asset_budget"@,
        ToolKind::PublishAsset => "publish_asset"@,
        ToolKind::ListAssets => "list_assets"@,
        ToolKind::GetAsset => "get_asset"@,
        ToolKind::SpawnAsset => "spawn_asset"@,
        ToolKind::UpdateAsset => "update_asset"@,
        ToolKind::RemoveAsset => "remove_asset"@,
        ToolKind::ListAssetInstances => "list_asset_instances"@,
    }
}

proof fn names_differ()
    ensures
        forall|kind: ToolKind| tool_kind(#[trigger] tool_name(kind)) == Some(kind),
{
    reveal_strlit("server_status");
    reveal_strlit("list_players");
    reveal_strlit("get_world_bounds");
    reveal_strlit("list_build_palette");
    reveal_strlit("get_block");
    reveal_strlit("snapshot_region");
    reveal_strlit("set_block");
    reveal_strlit("remove_block");
    reveal_strlit("fill_region");
    reveal_strlit("validate_build_plan");
    reveal_strlit("apply_build_plan");
    reveal_strlit("get_build");
    reveal_strlit("undo_build");
    reveal_strlit("validate_sculpt_spec");
    reveal_strlit("inspect_asset_budget");
    reveal_strlit("publish_asset");
    reveal_strlit("list_assets");
    reveal_strlit("get_asset");
    reveal_strlit("spawn_asset");
    reveal_strlit("update_asset");
    reveal_strlit("remove_asset");
    reveal_strlit("list_asset_instances");
    assert("server_status"@.len() == 13);
    assert("list_players"@.len() == 12);
    assert("get_world_bounds"@.len() == 16);
    assert("list_build_palette"@.len() == 18);
    assert("get_block"@.len() == 9);
    assert("snapshot_region"@.len() == 15);
    assert("set_block"@.len() == 9);
    assert("remove_block"@.len() == 12);
    assert("fill_region"@.len() == 11);
    assert("validate_build_plan"@.len() == 19);
    assert("apply_build_plan"@.len() == 16);
    assert("get_build"@.len() == 9);
    assert("undo_build"@.len() == 10);
    assert("validate_sculpt_spec"@.len() == 20);
    assert("inspect_asset_budget"@.len() == 20);
    assert("publish_asset"@.len() == 13);
    assert("list_assets"@.len() == 11);
    assert("get_asset"@.len() == 9);
    assert("spawn_asset"@.len() == 11);
    assert("update_asset"@.len() == 12);
    assert("remove_asset"@.len() == 12);
    assert("list_asset_instances"@.len() == 20);
    assert("server_status"@[0] == 's');
    assert("list_players"@[0] == 'l');
    assert("get_world_bounds"@[0] == 'g');
    assert("get_block"@[0] == 'g');
    assert("get_block"@[4] == 'b');
    assert("get_block"@[5] == 'l');
    assert("set_block"@[0] == 's');
    assert("remove_block"@[0] == 'r');
    assert("remove_block"@[7] == 'b');
    assert("fill_region"@[0] == 'f');
    assert("apply_build_plan"@[0] == 'a');
    assert("get_build"@[0] == 'g');
    assert("get_build"@[4] == 'b');
    assert("get_build"@[5] == 'u');
    assert("validate_sculpt_spec"@[0] == 'v');
    assert("inspect_asset_budget"@[0] == 'i');
    assert("publish_asset"@[0] == 'p');
    assert("list_assets"@[0] == 'l');
    assert("get_asset"@[0] == 'g');
    assert("get_asset"@[4] == 'a');
    assert("spawn_asset"@[0] == 's');
    assert("update_asset"@[0] == 'u');
    assert("remove_asset"@[0] == 'r');
    assert("remove_asset"@[7] == 'a');
    assert("list_asset_instances"@[0] == 'l');
    assert forall|kind: ToolKind| tool_kind(#[trigger] tool_name(kind)) == Some(kind) by {
        match kind {
            ToolKind::ServerStatus => {},
            ToolKind::ListPlayers => {},
            ToolKind::GetWorldBounds => {},
            ToolKind::ListBuildPalette => {},
            ToolKind::GetBlock => {},
            ToolKind::SnapshotRegion => {},
            ToolKind::SetBlock => {},
            ToolKind::RemoveBlock => {},
            ToolKind::FillRegion => {},
            ToolKind::ValidateBuildPlan => {},
            ToolKind::ApplyBuildPlan => {},
            ToolKind::GetBuild => {},
            ToolKind::UndoBuild => {},
            ToolKind::ValidateSculptSpec => {},
            ToolKind::InspectAssetBudget => {},
            ToolKind::PublishAsset => {},
            ToolKind::ListAssets => {},
            ToolKind::GetAsset => {},
            ToolKind::SpawnAsset => {},
            ToolKind::UpdateAsset => {},
            ToolKind::RemoveAsset => {},
            ToolKind::ListAssetInstances => {},
        }
    }
}

/// A name means the tool that it is the name of, and no other.
pub proof fn tools_are_called_by_their_names(name: Seq<char>, kind: ToolKind)
    ensures
        tool_kind(name) == Some(kind) <==> name == tool_name(kind),
{
    names_differ();
    assert(tool_kind(tool_name(kind)) == Some(kind));
}

// ---- plans ----

/// A tool that reads or edits one block is planned exactly where it is called with a position of the
/// bounds; no other tool is planned with a position.
pub proof fn positions_are_planned_exactly_when(
    name: Seq<char>,
    arguments: JsonView,
    bounds: WorldBounds,
    kind: ToolKind,
    p: BlockPos,
)
    ensures
        tool_plan(name, arguments, bounds) == Ok::<PlanView, Seq<char>>(
            PlanView::Position { kind, position: p },
        ) <==> {
            &&& kind is GetBlock || kind is SetBlock || kind is RemoveBlock
            &&& name == tool_name(kind)
            &&& has_integer(arguments, "x"@, p.x as int)
            &&& has_integer(arguments, "y"@, p.y as int)
            &&& has_integer(arguments, "z"@, p.z as int)
            &&& within_bounds(bounds, (p.x as int, p.y as int, p.z as int))
        },
{
    tools_are_called_by_their_names(name, kind);
    positions_are_taken_exactly_when(arguments, "x"@, "y"@, "z"@, p);
}

/// A tool that reads or fills a region is planned exactly where it is called with a region whose
/// corners are in order and lie in the bounds, of at most 512 blocks to be read and 128 to be filled;
/// no other tool is planned with a region.
pub proof fn regions_are_planned_exactly_when(
    name: Seq<char>,
    arguments: JsonView,
    bounds: WorldBounds,
    kind: ToolKind,
    region: Region,
)
    ensures
        tool_plan(name, arguments, bounds) == Ok::<PlanView, Seq<char>>(
            PlanView::Area { kind, region },
        ) <==> {
            let volume = (region.max.x - region.min.x + 1) * (region.max.y - region.min.y + 1) * (
            region.max.z - region.min.z + 1);
            &&& kind is SnapshotRegion && volume <= 512 || kind is FillRegion && volume <= 128
            &&& name == tool_name(kind)
            &&& has_integer(arguments, "min_x"@, region.min.x as int)
            &&& has_integer(arguments, "min_y"@, region.min.y as int)
            &&& has_integer(arguments, "min_z"@, region.min.z as int)
            &&& has_integer(arguments, "max_x"@, region.max.x as int)
            &&& has_integer(arguments, "max_y"@, region.max.y as int)
            &&& has_integer(arguments, "max_z"@, region.max.z as int)
            &&& region.min.x <= region.max.x
            &&& region.min.y <= region.max.y
            &&& region.min.z <= region.max.z
            &&& within_bounds(bounds, region.min.coords())
            &&& within_bounds(bounds, region.max.coords())
        },
{
    tools_are_called_by_their_names(name, kind);
    regions_are_taken_exactly_when(arguments, 512, region);
    regions_are_taken_exactly_when(arguments, 128, region);
}

/// The tools that name a build, an asset or an instance are planned exactly where the name is a text
/// of 1 to 128 bytes, or 64 for an asset.
pub proof fn names_are_planned_exactly_when(
    name: Seq<char>,
    arguments: JsonView,
    bounds: WorldBounds,
    kind: ToolKind,
    id: Seq<char>,
    version: Option<u32>,
)
    ensures
        tool_plan(name, arguments, bounds) == Ok::<PlanView, Seq<char>>(
            PlanView::Build { kind, build_id: id },
        ) <==> {
            &&& kind is GetBuild || kind is UndoBuild
            &&& name == tool_name(kind)
            &&& has_text(arguments, "build_id"@, id)
            &&& id.len() > 0
            &&& utf8_len(id) <= 128
        },
        tool_plan(name, arguments, bounds) == Ok::<PlanView, Seq<char>>(
            PlanView::Instance { instance_id: id },
        ) <==> {
            &&& name == "remove_asset"@
            &&& has_text(arguments, "instance_id"@, id)
            &&& id.len() > 0
            &&& utf8_len(id) <= 128
        },
        tool_plan(name, arguments, bounds) == Ok::<PlanView, Seq<char>>(
            PlanView::Asset { asset_id: id, version },
        ) <==> {
            &&& name == "get_asset"@
            &&& has_text(arguments, "asset_id"@, id)
            &&& id.len() > 0
            &&& utf8_len(id) <= 64
            &&& match version {
                Some(n) => has_integer(arguments, "version"@, n as int),
                None => member(arguments, "version"@) is None,
            }
        },
{
    tools_are_called_by_their_names(name, kind);
    tools_are_called_by_their_names(name, ToolKind::RemoveAsset);
    tools_are_called_by_their_names(name, ToolKind::GetAsset);
    texts_are_taken_exactly_when(arguments, "build_id"@, 128, id);
    texts_are_taken_exactly_when(arguments, "instance_id"@, 128, id);
    texts_are_taken_exactly_when(arguments, "asset_id"@, 64, id);
    match version {
        Some(n) => versions_are_taken_exactly_when(arguments, n),
        None => versions_are_taken_exactly_when(arguments, 0),
    }
}

/// The tools that take a spec are planned exactly where it is an object; those that take a plan or a
/// request, and those that only ask, are always planned.
pub proof fn other_tools_are_planned_exactly_when(
    name: Seq<char>,
    arguments: JsonView,
    bounds: WorldBounds,
    kind: ToolKind,
)
    ensures
        tool_plan(name, arguments, bounds) == Ok::<PlanView, Seq<char>>(PlanView::Spec(kind)) <==> {
            &&& kind is ValidateSculptSpec || kind is InspectAssetBudget || kind is PublishAsset
            &&& name == tool_name(kind)
            &&& member(arguments, "spec"@) matches Some(spec) && spec is Object
        },
        tool_plan(name, arguments, bounds) == Ok::<PlanView, Seq<char>>(PlanView::BuildPlan(kind))
            <==> (kind is ValidateBuildPlan || kind is ApplyBuildPlan) && name == tool_name(kind),
        tool_plan(name, arguments, bounds) == Ok::<PlanView, Seq<char>>(PlanView::Request(kind))
            <==> (kind is SpawnAsset || kind is UpdateAsset) && name == tool_name(kind),
        tool_plan(name, arguments, bounds) == Ok::<PlanView, Seq<char>>(PlanView::Status(kind))
            <==> (kind is ServerStatus || kind is ListPlayers || kind is GetWorldBounds
            || kind is ListBuildPalette || kind is ListAssets || kind is ListAssetInstances) && name
            == tool_name(kind),
{
    tools_are_called_by_their_names(name, kind);
}

/// Before a block is placed, the columns of its position and of the positions at its faces are loaded;
/// before one is read or removed, its own; before a region is read or filled, those that hold a
/// position of it. No other columns are loaded for a tool.
pub proof fn tools_load_the_columns_of_their_blocks(plan: PlanView, bounds: WorldBounds, column: (int, int))
    requires
        plan matches PlanView::Area { kind, region } ==> region.is_ordered(),
    ensures
        plan_columns(plan, bounds).contains(column) <==> match plan {
            PlanView::Position { kind, position } => if kind is SetBlock {
                touches_column(bounds, position, column)
            } else {
                in_column(position.coords(), column)
            },
            PlanView::Area { kind, region } => holds_part_of(column, region.min, region.max),
            _ => false,
        },
{
    match plan {
        PlanView::Position { kind, position } => {
            placement_needs_the_columns_at_its_faces(bounds, position, column);
            let own = seq![column_of(position.coords())];
            assert(own[0] == column_of(position.coords()));
            assert(own.contains(column) <==> column == column_of(position.coords()));
        },
        PlanView::Area { kind, region } => {
            regions_need_the_columns_of_their_blocks(region.min, region.max, column);
        },
        _ => {},
    }
}

/// Telemetry is shown every twenty ticks, and once in a tick.
pub proof fn telemetry_is_shown_every_twenty_ticks(last: Option<i64>, tick: i64, k: int)
    requires
        i64::MIN <= tick + k <= i64::MAX,
    ensures
        telemetry_due(last, tick) && 0 < k < 20 ==> !telemetry_due(Some(tick), (tick + k) as i64),
        telemetry_due(last, tick) && k == 20 ==> telemetry_due(Some(tick), (tick + k) as i64),
        !telemetry_due(Some(tick), tick),
        telemetry_due(None, 0),
        last != Some(tick) ==> telemetry_due(last, tick) == telemetry_due(None, tick),
{
}

} // verus!
