//! How the tools are listed: their names, the arguments that they ask for, and what they do to the
//! world.

use vstd::prelude::*;
use crate::json::{first_member, member, missing_member, JsonView};
use crate::mcp::{
    definition_view, definition_views, hints_view, schema_view, tools, tools_list_result_view,
    ToolHints, ToolInfo,
};
use crate::server::ToolKind;
use crate::server_rules::has_text;
use crate::tool_rules::tool_name;

verus! {

/// Where a tool stands in the list.
pub open spec fn tool_place(kind: ToolKind) -> int {
    match kind {
        ToolKind::ServerStatus => 0,
        ToolKind::ListPlayers => 1,
        ToolKind::GetWorldBounds => 2,
        ToolKind::ListBuildPalette => 3,
        ToolKind::GetBlock => 4,
        ToolKind::SnapshotRegion => 5,
        ToolKind::SetBlock => 6,
        ToolKind::RemoveBlock => 7,
        ToolKind::FillRegion => 8,
        ToolKind::ValidateBuildPlan => 9,
        ToolKind::ApplyBuildPlan => 10,
        ToolKind::GetBuild => 11,
        ToolKind::UndoBuild => 12,
        ToolKind::ValidateSculptSpec => 13,
        ToolKind::InspectAssetBudget => 14,
        ToolKind::PublishAsset => 15,
        ToolKind::ListAssets => 16,
        ToolKind::GetAsset => 17,
        ToolKind::SpawnAsset => 18,
        ToolKind::UpdateAsset => 19,
        ToolKind::RemoveAsset => 20,
        ToolKind::ListAssetInstances => 21,
    }
}

/// The arguments that a tool cannot do without.
pub open spec fn needed_arguments(kind: ToolKind) -> Seq<Seq<char>> {
    match kind {
        ToolKind::GetBlock => seq!["x"@, "y"@, "z"@],
        ToolKind::SnapshotRegion => seq!["min_x"@, "min_y"@, "min_z"@, "max_x"@, "max_y"@, "max_z"@],
        ToolKind::SetBlock => seq!["x"@, "y"@, "z"@, "block"@],
        ToolKind::RemoveBlock => seq!["x"@, "y"@, "z"@],
        ToolKind::FillRegion => seq!["min_x"@, "min_y"@, "min_z"@, "max_x"@, "max_y"@, "max_z"@, "block"@],
        ToolKind::ValidateBuildPlan => seq!["plan"@],
        ToolKind::ApplyBuildPlan => seq!["plan"@],
        ToolKind::GetBuild => seq!["build_id"@],
        ToolKind::UndoBuild => seq!["build_id"@],
        ToolKind::ValidateSculptSpec => seq!["spec"@],
        ToolKind::InspectAssetBudget => seq!["spec"@],
        ToolKind::PublishAsset => seq!["spec"@],
        ToolKind::GetAsset => seq!["asset_id"@],
        ToolKind::SpawnAsset => seq!["asset_id"@, "version"@, "idempotency_key"@, "position"@, "rotation_degrees"@, "scale"@],
        ToolKind::UpdateAsset => seq!["instance_id"@, "position"@, "rotation_degrees"@, "scale"@],
        ToolKind::RemoveAsset => seq!["instance_id"@],
        _ => seq![],
    }
}

/// True iff the tool changes nothing.
pub open spec fn only_reads(kind: ToolKind) -> bool {
    !(kind is SetBlock || kind is RemoveBlock || kind is FillRegion || kind is ApplyBuildPlan || kind
        is UndoBuild || kind is PublishAsset || kind is SpawnAsset || kind is UpdateAsset || kind
        is RemoveAsset)
}

/// True iff the tool can take away what was there.
pub open spec fn destroys(kind: ToolKind) -> bool {
    kind is RemoveBlock || kind is FillRegion || kind is ApplyBuildPlan || kind is UndoBuild || kind
        is RemoveAsset
}

/// True iff a second call of the tool adds nothing to a first.
pub open spec fn can_be_repeated(kind: ToolKind) -> bool {
    kind is ApplyBuildPlan || kind is UndoBuild || kind is PublishAsset || kind is SpawnAsset || kind
        is RemoveAsset
}

/// The texts as JSON.
pub open spec fn text_values(texts: Seq<Seq<char>>) -> Seq<JsonView> {
    texts.map_values(|text: Seq<char>| JsonView::Text(text))
}

proof fn definitions_are_listed(n: int)
    requires
        0 <= n,
    ensures
        definition_views(n).len() == n,
        forall|i: int| 0 <= i < n ==> #[trigger] definition_views(n)[i] == definition_view(tools()[i]),
    decreases n,
{
    if n > 0 {
        definitions_are_listed(n - 1);
    }
}

proof fn schemas_are_closed(members: Seq<(Seq<char>, JsonView)>)
    requires
        members.len() == 4,
        members[0].0 == "additionalProperties"@,
        members[1].0 == "properties"@,
        members[2].0 == "required"@,
        members[3].0 == "type"@,
    ensures
        member(JsonView::Object(members), "additionalProperties"@) == Some(members[0].1),
        member(JsonView::Object(members), "required"@) == Some(members[2].1),
        member(JsonView::Object(members), "type"@) == Some(members[3].1),
{
    reveal_strlit("additionalProperties");
    reveal_strlit("properties");
    reveal_strlit("required");
    reveal_strlit("type");
    assert("additionalProperties"@.len() == 20 && "properties"@.len() == 10 && "required"@.len() == 8
        && "type"@.len() == 4);
    first_member(members, "additionalProperties"@, 0);
    first_member(members, "required"@, 2);
    first_member(members, "type"@, 3);
}

/// True iff the schema takes an object with those arguments, which it needs, and with no argument that
/// it does not name.
pub open spec fn asks_for(schema: JsonView, names: Seq<Seq<char>>) -> bool {
    &&& member(schema, "required"@) == Some(JsonView::Array(text_values(names)))
    &&& member(schema, "additionalProperties"@) == Some(JsonView::Bool(false))
    &&& has_text(schema, "type"@, "object"@)
}

#[verifier::spinoff_prover]
proof fn schemas_ask_for_their_arguments(kind: ToolKind)
    ensures
        asks_for(schema_view(tools()[tool_place(kind)].schema), needed_arguments(kind)),
{
    let schema = schema_view(tools()[tool_place(kind)].schema);
    let names = needed_arguments(kind);
    let members = schema->Object_0;
    schemas_are_closed(members);
    assert(members[2].1->Array_0 =~= text_values(names));
}

/// Every tool is listed once, under its own name; its schema asks for the arguments that it cannot do
/// without; and its hints say whether it only reads, whether it can destroy, and whether it can be
/// repeated.
#[verifier::spinoff_prover]
pub proof fn tools_are_listed(kind: ToolKind)
    ensures
        member(tools_list_result_view(), "tools"@) matches Some(JsonView::Array(items))
            && items.len() == 22 && ({
            let item = items[tool_place(kind)];
            &&& has_text(item, "name"@, tool_name(kind))
            &&& member(item, "inputSchema"@) matches Some(schema) && asks_for(
                schema,
                needed_arguments(kind),
            )
            &&& member(item, "annotations"@) matches Some(hints) && (member(
                hints,
                "readOnlyHint"@,
            ) == Some(JsonView::Bool(true)) <==> only_reads(kind)) && (member(
                hints,
                "destructiveHint"@,
            ) == Some(JsonView::Bool(true)) <==> destroys(kind)) && (member(
                hints,
                "idempotentHint"@,
            ) == Some(JsonView::Bool(true)) <==> can_be_repeated(kind))
        }),
{
    let listing = tools_list_result_view();
    first_member(listing->Object_0, "tools"@, 0);
    definitions_are_listed(22);
    let info = tools()[tool_place(kind)];
    assert(definition_views(22)[tool_place(kind)] == definition_view(info));
    definition_tells(info);
    schemas_ask_for_their_arguments(kind);
    hints_tell(info);
    named_in_its_place(kind);
}

proof fn named_in_its_place(kind: ToolKind)
    ensures
        tools()[tool_place(kind)].name@ == tool_name(kind),
{
}

proof fn definition_tells(info: ToolInfo)
    ensures
        has_text(definition_view(info), "name"@, info.name@),
        has_text(definition_view(info), "title"@, info.title@),
        has_text(definition_view(info), "description"@, info.description@),
        member(definition_view(info), "inputSchema"@) == Some(schema_view(info.schema)),
        member(definition_view(info), "annotations"@) == Some(hints_view(info.hints)),
{
    reveal_strlit("annotations");
    reveal_strlit("description");
    reveal_strlit("inputSchema");
    reveal_strlit("name");
    reveal_strlit("title");
    assert("annotations"@.len() == 11 && "description"@.len() == 11 && "inputSchema"@.len() == 11
        && "name"@.len() == 4 && "title"@.len() == 5);
    assert("annotations"@[0] == 'a' && "description"@[0] == 'd' && "inputSchema"@[0] == 'i');
    let members = definition_view(info)->Object_0;
    first_member(members, "annotations"@, 0);
    first_member(members, "description"@, 1);
    first_member(members, "inputSchema"@, 2);
    first_member(members, "name"@, 3);
    first_member(members, "title"@, 4);
}

proof fn hints_tell(info: ToolInfo)
    ensures
        ({
            let hints = hints_view(info.hints);
            &&& member(hints, "readOnlyHint"@) == Some(JsonView::Bool(true)) <==> info.hints
                is ReadOnly
            &&& member(hints, "destructiveHint"@) == Some(JsonView::Bool(true)) <==> (info.hints
                matches ToolHints::Edit { destructive, idempotent } && destructive)
            &&& member(hints, "idempotentHint"@) == Some(JsonView::Bool(true)) <==> (info.hints
                matches ToolHints::Edit { destructive, idempotent } && idempotent)
        }),
{
    reveal_strlit("readOnlyHint");
    reveal_strlit("destructiveHint");
    reveal_strlit("idempotentHint");
    assert("readOnlyHint"@.len() == 12 && "destructiveHint"@.len() == 15 && "idempotentHint"@.len()
        == 14);
    let hints = hints_view(info.hints);
    let members = hints->Object_0;
    match info.hints {
        ToolHints::ReadOnly => {
            first_member(members, "readOnlyHint"@, 0);
            missing_member(hints, "destructiveHint"@);
            missing_member(hints, "idempotentHint"@);
        },
        ToolHints::Edit { destructive, idempotent } => {
            first_member(members, "destructiveHint"@, 0);
            missing_member(hints, "readOnlyHint"@);
            if idempotent {
                first_member(members, "idempotentHint"@, 1);
            } else {
                missing_member(hints, "idempotentHint"@);
            }
        },
    }
}

} // verus!
