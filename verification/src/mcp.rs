//! The tool protocol: its tools, its messages, and the arguments that tools take.

use vstd::prelude::*;
use vstd::string::StringExecFns;
use crate::block::{block_text, state_text, valid_state, BlockPos, BlockState, AIR, BEDROCK};
use crate::build_palette::{
    block_name_for_state, normalized_name, palette_block, palette_name,
    parse_build_block_name, plain_name,
};
use crate::json::{
    array_view, boolean, copy_json, integer, integer_value, item_views, member, normal, parse_json,
    parsed, pretty, signed_of_value, slice_text, text, text_of_value, unsigned, unsigned_of_value,
    Fields, Items, Json, JsonView,
};
use crate::text::{
    byte_len, decimal, decimal_nat, is_result, push_i64, push_u128, same_text, utf8_len,
};

verus! {

pub const MCP_PROTOCOL_VERSION: &'static str = "2025-06-18";

pub const MCP_ENDPOINT_PATH: &'static str = "/mcp";

pub const MAX_SNAPSHOT_BLOCKS: i64 = 512;

pub const MAX_FILL_BLOCKS: i64 = 128;

pub const SERVER_NAME: &'static str = "world-loom-server";

pub const SERVER_VERSION: &'static str = "0.1.0";

/// No members.
pub open spec fn no_fields() -> Seq<(Seq<char>, JsonView)> {
    Seq::empty()
}

/// No items.
pub open spec fn no_items() -> Seq<JsonView> {
    Seq::empty()
}

// ---- schemas of the arguments ----

/// Three integers.
pub open spec fn coordinate_array_schema_view() -> JsonView {
    JsonView::Object(
        no_fields()
            .push((
                "items"@,
                JsonView::Object(no_fields().push(("type"@, JsonView::Text("integer"@)))),
            ))
            .push(("maxItems"@, integer_value(3)))
            .push(("minItems"@, integer_value(3)))
            .push(("type"@, JsonView::Text("array"@))),
    )
}

fn coordinate_array_schema() -> (r: Json)
    ensures
        r@ == coordinate_array_schema_view(),
{
    Fields::new()
        .with("items", Fields::new().with("type", text("integer")).object())
        .with("maxItems", integer(3))
        .with("minItems", integer(3))
        .with("type", text("array"))
        .object()
}

/// Three numbers.
pub open spec fn vector3_number_schema_view() -> JsonView {
    JsonView::Object(
        no_fields()
            .push((
                "items"@,
                JsonView::Object(no_fields().push(("type"@, JsonView::Text("number"@)))),
            ))
            .push(("maxItems"@, integer_value(3)))
            .push(("minItems"@, integer_value(3)))
            .push(("type"@, JsonView::Text("array"@))),
    )
}

fn vector3_number_schema() -> (r: Json)
    ensures
        r@ == vector3_number_schema_view(),
{
    Fields::new()
        .with("items", Fields::new().with("type", text("number")).object())
        .with("maxItems", integer(3))
        .with("minItems", integer(3))
        .with("type", text("array"))
        .object()
}

/// An integer with a description.
pub open spec fn integer_property_view(description: Seq<char>) -> JsonView {
    JsonView::Object(
        no_fields()
            .push(("description"@, JsonView::Text(description)))
            .push(("type"@, JsonView::Text("integer"@))),
    )
}

fn integer_property(description: &str) -> (r: Json)
    ensures
        r@ == integer_property_view(description@),
{
    Fields::new().with("description", text(description)).with("type", text("integer")).object()
}

/// No arguments.
pub open spec fn empty_schema_view() -> JsonView {
    JsonView::Object(
        no_fields()
            .push(("additionalProperties"@, JsonView::Bool(false)))
            .push(("properties"@, JsonView::Object(no_fields())))
            .push(("required"@, JsonView::Array(no_items())))
            .push(("type"@, JsonView::Text("object"@))),
    )
}

fn empty_schema() -> (r: Json)
    ensures
        r@ == empty_schema_view(),
{
    Fields::new()
        .with("additionalProperties", boolean(false))
        .with("properties", Fields::new().object())
        .with("required", Items::new().array())
        .with("type", text("object"))
        .object()
}

/// A block position.
pub open spec fn xyz_schema_view() -> JsonView {
    JsonView::Object(
        no_fields()
            .push(("additionalProperties"@, JsonView::Bool(false)))
            .push((
                "properties"@,
                JsonView::Object(
                    no_fields()
                        .push(("x"@, integer_property_view("Block X coordinate"@)))
                        .push(("y"@, integer_property_view("Block Y coordinate"@)))
                        .push(("z"@, integer_property_view("Block Z coordinate"@))),
                ),
            ))
            .push((
                "required"@,
                JsonView::Array(
                    no_items()
                        .push(JsonView::Text("x"@))
                        .push(JsonView::Text("y"@))
                        .push(JsonView::Text("z"@)),
                ),
            ))
            .push(("type"@, JsonView::Text("object"@))),
    )
}

fn xyz_schema() -> (r: Json)
    ensures
        r@ == xyz_schema_view(),
{
    Fields::new()
        .with("additionalProperties", boolean(false))
        .with(
            "properties",
            Fields::new()
                .with("x", integer_property("Block X coordinate"))
                .with("y", integer_property("Block Y coordinate"))
                .with("z", integer_property("Block Z coordinate"))
                .object(),
        )
        .with("required", Items::new().with(text("x")).with(text("y")).with(text("z")).array())
        .with("type", text("object"))
        .object()
}

/// A block position and a block name.
pub open spec fn block_edit_schema_view() -> JsonView {
    JsonView::Object(
        no_fields()
            .push(("additionalProperties"@, JsonView::Bool(false)))
            .push((
                "properties"@,
                JsonView::Object(
                    no_fields()
                        .push((
                            "block"@,
                            JsonView::Object(
                                no_fields()
                                    .push((
                                        "description"@,
                                        JsonView::Text("Canonical name returned by list_build_palette; air is not accepted here"@),
                                    ))
                                    .push(("type"@, JsonView::Text("string"@))),
                            ),
                        ))
                        .push(("x"@, integer_property_view("Block X coordinate"@)))
                        .push(("y"@, integer_property_view("Block Y coordinate"@)))
                        .push(("z"@, integer_property_view("Block Z coordinate"@))),
                ),
            ))
            .push((
                "required"@,
                JsonView::Array(
                    no_items()
                        .push(JsonView::Text("x"@))
                        .push(JsonView::Text("y"@))
                        .push(JsonView::Text("z"@))
                        .push(JsonView::Text("block"@)),
                ),
            ))
            .push(("type"@, JsonView::Text("object"@))),
    )
}

fn block_edit_schema() -> (r: Json)
    ensures
        r@ == block_edit_schema_view(),
{
    Fields::new()
        .with("additionalProperties", boolean(false))
        .with(
            "properties",
            Fields::new()
                .with(
                    "block",
                    Fields::new()
                        .with(
                            "description",
                            text("Canonical name returned by list_build_palette; air is not accepted here"),
                        )
                        .with("type", text("string"))
                        .object(),
                )
                .with("x", integer_property("Block X coordinate"))
                .with("y", integer_property("Block Y coordinate"))
                .with("z", integer_property("Block Z coordinate"))
                .object(),
        )
        .with(
            "required",
            Items::new()
                .with(text("x"))
                .with(text("y"))
                .with(text("z"))
                .with(text("block"))
                .array(),
        )
        .with("type", text("object"))
        .object()
}

/// Two corners.
pub open spec fn region_schema_view() -> JsonView {
    JsonView::Object(
        no_fields()
            .push(("additionalProperties"@, JsonView::Bool(false)))
            .push((
                "properties"@,
                JsonView::Object(
                    no_fields()
                        .push(("max_x"@, integer_property_view("Maximum X coordinate"@)))
                        .push(("max_y"@, integer_property_view("Maximum Y coordinate"@)))
                        .push(("max_z"@, integer_property_view("Maximum Z coordinate"@)))
                        .push(("min_x"@, integer_property_view("Minimum X coordinate"@)))
                        .push(("min_y"@, integer_property_view("Minimum Y coordinate"@)))
                        .push(("min_z"@, integer_property_view("Minimum Z coordinate"@))),
                ),
            ))
            .push((
                "required"@,
                JsonView::Array(
                    no_items()
                        .push(JsonView::Text("min_x"@))
                        .push(JsonView::Text("min_y"@))
                        .push(JsonView::Text("min_z"@))
                        .push(JsonView::Text("max_x"@))
                        .push(JsonView::Text("max_y"@))
                        .push(JsonView::Text("max_z"@)),
                ),
            ))
            .push(("type"@, JsonView::Text("object"@))),
    )
}

fn region_schema() -> (r: Json)
    ensures
        r@ == region_schema_view(),
{
    Fields::new()
        .with("additionalProperties", boolean(false))
        .with(
            "properties",
            Fields::new()
                .with("max_x", integer_property("Maximum X coordinate"))
                .with("max_y", integer_property("Maximum Y coordinate"))
                .with("max_z", integer_property("Maximum Z coordinate"))
                .with("min_x", integer_property("Minimum X coordinate"))
                .with("min_y", integer_property("Minimum Y coordinate"))
                .with("min_z", integer_property("Minimum Z coordinate"))
                .object(),
        )
        .with(
            "required",
            Items::new()
                .with(text("min_x"))
                .with(text("min_y"))
                .with(text("min_z"))
                .with(text("max_x"))
                .with(text("max_y"))
                .with(text("max_z"))
                .array(),
        )
        .with("type", text("object"))
        .object()
}

/// Two corners and a block name.
pub open spec fn fill_region_schema_view() -> JsonView {
    JsonView::Object(
        no_fields()
            .push(("additionalProperties"@, JsonView::Bool(false)))
            .push((
                "properties"@,
                JsonView::Object(
                    no_fields()
                        .push((
                            "block"@,
                            JsonView::Object(
                                no_fields()
                                    .push((
                                        "description"@,
                                        JsonView::Text("Canonical name returned by list_build_palette, or air for removal"@),
                                    ))
                                    .push(("type"@, JsonView::Text("string"@))),
                            ),
                        ))
                        .push(("max_x"@, integer_property_view("Maximum X coordinate"@)))
                        .push(("max_y"@, integer_property_view("Maximum Y coordinate"@)))
                        .push(("max_z"@, integer_property_view("Maximum Z coordinate"@)))
                        .push(("min_x"@, integer_property_view("Minimum X coordinate"@)))
                        .push(("min_y"@, integer_property_view("Minimum Y coordinate"@)))
                        .push(("min_z"@, integer_property_view("Minimum Z coordinate"@))),
                ),
            ))
            .push((
                "required"@,
                JsonView::Array(
                    no_items()
                        .push(JsonView::Text("min_x"@))
                        .push(JsonView::Text("min_y"@))
                        .push(JsonView::Text("min_z"@))
                        .push(JsonView::Text("max_x"@))
                        .push(JsonView::Text("max_y"@))
                        .push(JsonView::Text("max_z"@))
                        .push(JsonView::Text("block"@)),
                ),
            ))
            .push(("type"@, JsonView::Text("object"@))),
    )
}

fn fill_region_schema() -> (r: Json)
    ensures
        r@ == fill_region_schema_view(),
{
    Fields::new()
        .with("additionalProperties", boolean(false))
        .with(
            "properties",
            Fields::new()
                .with(
                    "block",
                    Fields::new()
                        .with(
                            "description",
                            text("Canonical name returned by list_build_palette, or air for removal"),
                        )
                        .with("type", text("string"))
                        .object(),
                )
                .with("max_x", integer_property("Maximum X coordinate"))
                .with("max_y", integer_property("Maximum Y coordinate"))
                .with("max_z", integer_property("Maximum Z coordinate"))
                .with("min_x", integer_property("Minimum X coordinate"))
                .with("min_y", integer_property("Minimum Y coordinate"))
                .with("min_z", integer_property("Minimum Z coordinate"))
                .object(),
        )
        .with(
            "required",
            Items::new()
                .with(text("min_x"))
                .with(text("min_y"))
                .with(text("min_z"))
                .with(text("max_x"))
                .with(text("max_y"))
                .with(text("max_z"))
                .with(text("block"))
                .array(),
        )
        .with("type", text("object"))
        .object()
}

/// An operation that sets one block.
pub open spec fn set_operation_schema_view() -> JsonView {
    JsonView::Object(
        no_fields()
            .push(("additionalProperties"@, JsonView::Bool(false)))
            .push((
                "properties"@,
                JsonView::Object(
                    no_fields()
                        .push(("at"@, coordinate_array_schema_view()))
                        .push((
                            "block"@,
                            JsonView::Object(
                                no_fields()
                                    .push(("type"@, JsonView::Text("string"@))),
                            ),
                        ))
                        .push((
                            "op"@,
                            JsonView::Object(
                                no_fields()
                                    .push(("const"@, JsonView::Text("set"@))),
                            ),
                        )),
                ),
            ))
            .push((
                "required"@,
                JsonView::Array(
                    no_items()
                        .push(JsonView::Text("op"@))
                        .push(JsonView::Text("at"@))
                        .push(JsonView::Text("block"@)),
                ),
            ))
            .push(("type"@, JsonView::Text("object"@))),
    )
}

fn set_operation_schema() -> (r: Json)
    ensures
        r@ == set_operation_schema_view(),
{
    Fields::new()
        .with("additionalProperties", boolean(false))
        .with(
            "properties",
            Fields::new()
                .with("at", coordinate_array_schema())
                .with("block", Fields::new().with("type", text("string")).object())
                .with("op", Fields::new().with("const", text("set")).object())
                .object(),
        )
        .with(
            "required",
            Items::new().with(text("op")).with(text("at")).with(text("block")).array(),
        )
        .with("type", text("object"))
        .object()
}

/// An operation that fills a box.
pub open spec fn fill_operation_schema_view() -> JsonView {
    JsonView::Object(
        no_fields()
            .push(("additionalProperties"@, JsonView::Bool(false)))
            .push((
                "properties"@,
                JsonView::Object(
                    no_fields()
                        .push((
                            "block"@,
                            JsonView::Object(
                                no_fields()
                                    .push(("type"@, JsonView::Text("string"@))),
                            ),
                        ))
                        .push(("from"@, coordinate_array_schema_view()))
                        .push((
                            "op"@,
                            JsonView::Object(
                                no_fields()
                                    .push(("const"@, JsonView::Text("fill_box"@))),
                            ),
                        ))
                        .push(("to"@, coordinate_array_schema_view())),
                ),
            ))
            .push((
                "required"@,
                JsonView::Array(
                    no_items()
                        .push(JsonView::Text("op"@))
                        .push(JsonView::Text("from"@))
                        .push(JsonView::Text("to"@))
                        .push(JsonView::Text("block"@)),
                ),
            ))
            .push(("type"@, JsonView::Text("object"@))),
    )
}

fn fill_operation_schema() -> (r: Json)
    ensures
        r@ == fill_operation_schema_view(),
{
    Fields::new()
        .with("additionalProperties", boolean(false))
        .with(
            "properties",
            Fields::new()
                .with("block", Fields::new().with("type", text("string")).object())
                .with("from", coordinate_array_schema())
                .with("op", Fields::new().with("const", text("fill_box")).object())
                .with("to", coordinate_array_schema())
                .object(),
        )
        .with(
            "required",
            Items::new()
                .with(text("op"))
                .with(text("from"))
                .with(text("to"))
                .with(text("block"))
                .array(),
        )
        .with("type", text("object"))
        .object()
}

/// The operations of a build plan.
pub open spec fn operations_schema_view() -> JsonView {
    JsonView::Object(
        no_fields()
            .push((
                "items"@,
                JsonView::Object(
                    no_fields()
                        .push((
                            "oneOf"@,
                            JsonView::Array(
                                no_items()
                                    .push(set_operation_schema_view())
                                    .push(fill_operation_schema_view()),
                            ),
                        )),
                ),
            ))
            .push(("maxItems"@, integer_value(128)))
            .push(("minItems"@, integer_value(1)))
            .push(("type"@, JsonView::Text("array"@))),
    )
}

fn operations_schema() -> (r: Json)
    ensures
        r@ == operations_schema_view(),
{
    Fields::new()
        .with(
            "items",
            Fields::new()
                .with(
                    "oneOf",
                    Items::new()
                        .with(set_operation_schema())
                        .with(fill_operation_schema())
                        .array(),
                )
                .object(),
        )
        .with("maxItems", integer(128))
        .with("minItems", integer(1))
        .with("type", text("array"))
        .object()
}

/// The anchor of a build plan.
pub open spec fn anchor_schema_view() -> JsonView {
    JsonView::Object(
        no_fields()
            .push(("additionalProperties"@, JsonView::Bool(false)))
            .push((
                "properties"@,
                JsonView::Object(
                    no_fields()
                        .push((
                            "x"@,
                            JsonView::Object(
                                no_fields()
                                    .push(("type"@, JsonView::Text("integer"@))),
                            ),
                        ))
                        .push((
                            "y"@,
                            JsonView::Object(
                                no_fields()
                                    .push(("type"@, JsonView::Text("integer"@))),
                            ),
                        ))
                        .push((
                            "z"@,
                            JsonView::Object(
                                no_fields()
                                    .push(("type"@, JsonView::Text("integer"@))),
                            ),
                        )),
                ),
            ))
            .push((
                "required"@,
                JsonView::Array(
                    no_items()
                        .push(JsonView::Text("x"@))
                        .push(JsonView::Text("y"@))
                        .push(JsonView::Text("z"@)),
                ),
            ))
            .push(("type"@, JsonView::Text("object"@))),
    )
}

fn anchor_schema() -> (r: Json)
    ensures
        r@ == anchor_schema_view(),
{
    Fields::new()
        .with("additionalProperties", boolean(false))
        .with(
            "properties",
            Fields::new()
                .with("x", Fields::new().with("type", text("integer")).object())
                .with("y", Fields::new().with("type", text("integer")).object())
                .with("z", Fields::new().with("type", text("integer")).object())
                .object(),
        )
        .with("required", Items::new().with(text("x")).with(text("y")).with(text("z")).array())
        .with("type", text("object"))
        .object()
}

/// A build plan.
pub open spec fn build_plan_schema_view() -> JsonView {
    JsonView::Object(
        no_fields()
            .push(("additionalProperties"@, JsonView::Bool(false)))
            .push(("description"@, JsonView::Text("BuildPlan v1 document"@)))
            .push((
                "properties"@,
                JsonView::Object(
                    no_fields()
                        .push(("anchor"@, anchor_schema_view()))
                        .push((
                            "idempotency_key"@,
                            JsonView::Object(
                                no_fields()
                                    .push(("maxLength"@, integer_value(128)))
                                    .push(("minLength"@, integer_value(1)))
                                    .push(("type"@, JsonView::Text("string"@))),
                            ),
                        ))
                        .push(("operations"@, operations_schema_view()))
                        .push((
                            "replace_mode"@,
                            JsonView::Object(
                                no_fields()
                                    .push(("type"@, JsonView::Text("string"@))),
                            ),
                        ))
                        .push((
                            "schema_version"@,
                            JsonView::Object(
                                no_fields()
                                    .push(("type"@, JsonView::Text("integer"@))),
                            ),
                        )),
                ),
            ))
            .push((
                "required"@,
                JsonView::Array(
                    no_items()
                        .push(JsonView::Text("schema_version"@))
                        .push(JsonView::Text("idempotency_key"@))
                        .push(JsonView::Text("anchor"@))
                        .push(JsonView::Text("replace_mode"@))
                        .push(JsonView::Text("operations"@)),
                ),
            ))
            .push(("type"@, JsonView::Text("object"@))),
    )
}

fn build_plan_schema() -> (r: Json)
    ensures
        r@ == build_plan_schema_view(),
{
    Fields::new()
        .with("additionalProperties", boolean(false))
        .with("description", text("BuildPlan v1 document"))
        .with(
            "properties",
            Fields::new()
                .with("anchor", anchor_schema())
                .with(
                    "idempotency_key",
                    Fields::new()
                        .with("maxLength", integer(128))
                        .with("minLength", integer(1))
                        .with("type", text("string"))
                        .object(),
                )
                .with("operations", operations_schema())
                .with("replace_mode", Fields::new().with("type", text("string")).object())
                .with("schema_version", Fields::new().with("type", text("integer")).object())
                .object(),
        )
        .with(
            "required",
            Items::new()
                .with(text("schema_version"))
                .with(text("idempotency_key"))
                .with(text("anchor"))
                .with(text("replace_mode"))
                .with(text("operations"))
                .array(),
        )
        .with("type", text("object"))
        .object()
}

/// A build plan as an argument.
pub open spec fn build_plan_tool_schema_view() -> JsonView {
    JsonView::Object(
        no_fields()
            .push(("additionalProperties"@, JsonView::Bool(false)))
            .push((
                "properties"@,
                JsonView::Object(no_fields().push(("plan"@, build_plan_schema_view()))),
            ))
            .push(("required"@, JsonView::Array(no_items().push(JsonView::Text("plan"@)))))
            .push(("type"@, JsonView::Text("object"@))),
    )
}

fn build_plan_tool_schema() -> (r: Json)
    ensures
        r@ == build_plan_tool_schema_view(),
{
    Fields::new()
        .with("additionalProperties", boolean(false))
        .with("properties", Fields::new().with("plan", build_plan_schema()).object())
        .with("required", Items::new().with(text("plan")).array())
        .with("type", text("object"))
        .object()
}

/// A build id.
pub open spec fn build_id_schema_view() -> JsonView {
    JsonView::Object(
        no_fields()
            .push(("additionalProperties"@, JsonView::Bool(false)))
            .push((
                "properties"@,
                JsonView::Object(
                    no_fields()
                        .push((
                            "build_id"@,
                            JsonView::Object(
                                no_fields()
                                    .push(("maxLength"@, integer_value(128)))
                                    .push(("minLength"@, integer_value(1)))
                                    .push(("type"@, JsonView::Text("string"@))),
                            ),
                        )),
                ),
            ))
            .push(("required"@, JsonView::Array(no_items().push(JsonView::Text("build_id"@)))))
            .push(("type"@, JsonView::Text("object"@))),
    )
}

fn build_id_schema() -> (r: Json)
    ensures
        r@ == build_id_schema_view(),
{
    Fields::new()
        .with("additionalProperties", boolean(false))
        .with(
            "properties",
            Fields::new()
                .with(
                    "build_id",
                    Fields::new()
                        .with("maxLength", integer(128))
                        .with("minLength", integer(1))
                        .with("type", text("string"))
                        .object(),
                )
                .object(),
        )
        .with("required", Items::new().with(text("build_id")).array())
        .with("type", text("object"))
        .object()
}

/// A sculpt spec.
pub open spec fn sculpt_spec_tool_schema_view() -> JsonView {
    JsonView::Object(
        no_fields()
            .push(("additionalProperties"@, JsonView::Bool(false)))
            .push((
                "properties"@,
                JsonView::Object(
                    no_fields()
                        .push((
                            "spec"@,
                            JsonView::Object(
                                no_fields()
                                    .push((
                                        "description"@,
                                        JsonView::Text("SculptSpec v1 document from world-loom-online/specs/sculpt-spec-v1.md"@),
                                    ))
                                    .push(("type"@, JsonView::Text("object"@))),
                            ),
                        )),
                ),
            ))
            .push(("required"@, JsonView::Array(no_items().push(JsonView::Text("spec"@)))))
            .push(("type"@, JsonView::Text("object"@))),
    )
}

fn sculpt_spec_tool_schema() -> (r: Json)
    ensures
        r@ == sculpt_spec_tool_schema_view(),
{
    Fields::new()
        .with("additionalProperties", boolean(false))
        .with(
            "properties",
            Fields::new()
                .with(
                    "spec",
                    Fields::new()
                        .with(
                            "description",
                            text("SculptSpec v1 document from world-loom-online/specs/sculpt-spec-v1.md"),
                        )
                        .with("type", text("object"))
                        .object(),
                )
                .object(),
        )
        .with("required", Items::new().with(text("spec")).array())
        .with("type", text("object"))
        .object()
}

/// An asset id and perhaps a version.
pub open spec fn get_asset_schema_view() -> JsonView {
    JsonView::Object(
        no_fields()
            .push(("additionalProperties"@, JsonView::Bool(false)))
            .push((
                "properties"@,
                JsonView::Object(
                    no_fields()
                        .push((
                            "asset_id"@,
                            JsonView::Object(
                                no_fields()
                                    .push(("maxLength"@, integer_value(64)))
                                    .push(("minLength"@, integer_value(1)))
                                    .push(("type"@, JsonView::Text("string"@))),
                            ),
                        ))
                        .push((
                            "version"@,
                            JsonView::Object(
                                no_fields()
                                    .push(("maximum"@, integer_value(65535)))
                                    .push(("minimum"@, integer_value(1)))
                                    .push(("type"@, JsonView::Text("integer"@))),
                            ),
                        )),
                ),
            ))
            .push(("required"@, JsonView::Array(no_items().push(JsonView::Text("asset_id"@)))))
            .push(("type"@, JsonView::Text("object"@))),
    )
}

fn get_asset_schema() -> (r: Json)
    ensures
        r@ == get_asset_schema_view(),
{
    Fields::new()
        .with("additionalProperties", boolean(false))
        .with(
            "properties",
            Fields::new()
                .with(
                    "asset_id",
                    Fields::new()
                        .with("maxLength", integer(64))
                        .with("minLength", integer(1))
                        .with("type", text("string"))
                        .object(),
                )
                .with(
                    "version",
                    Fields::new()
                        .with("maximum", integer(65535))
                        .with("minimum", integer(1))
                        .with("type", text("integer"))
                        .object(),
                )
                .object(),
        )
        .with("required", Items::new().with(text("asset_id")).array())
        .with("type", text("object"))
        .object()
}

/// What an asset instance is spawned with.
pub open spec fn spawn_asset_schema_view() -> JsonView {
    JsonView::Object(
        no_fields()
            .push(("additionalProperties"@, JsonView::Bool(false)))
            .push((
                "properties"@,
                JsonView::Object(
                    no_fields()
                        .push((
                            "asset_id"@,
                            JsonView::Object(
                                no_fields()
                                    .push(("maxLength"@, integer_value(64)))
                                    .push(("minLength"@, integer_value(1)))
                                    .push(("type"@, JsonView::Text("string"@))),
                            ),
                        ))
                        .push((
                            "idempotency_key"@,
                            JsonView::Object(
                                no_fields()
                                    .push(("maxLength"@, integer_value(128)))
                                    .push(("minLength"@, integer_value(1)))
                                    .push(("type"@, JsonView::Text("string"@))),
                            ),
                        ))
                        .push((
                            "interaction_state"@,
                            JsonView::Object(
                                no_fields()
                                    .push(("maxProperties"@, integer_value(32)))
                                    .push(("type"@, JsonView::Text("object"@))),
                            ),
                        ))
                        .push(("position"@, vector3_number_schema_view()))
                        .push(("rotation_degrees"@, vector3_number_schema_view()))
                        .push(("scale"@, vector3_number_schema_view()))
                        .push((
                            "version"@,
                            JsonView::Object(
                                no_fields()
                                    .push(("maximum"@, integer_value(65535)))
                                    .push(("minimum"@, integer_value(1)))
                                    .push(("type"@, JsonView::Text("integer"@))),
                            ),
                        )),
                ),
            ))
            .push((
                "required"@,
                JsonView::Array(
                    no_items()
                        .push(JsonView::Text("asset_id"@))
                        .push(JsonView::Text("version"@))
                        .push(JsonView::Text("idempotency_key"@))
                        .push(JsonView::Text("position"@))
                        .push(JsonView::Text("rotation_degrees"@))
                        .push(JsonView::Text("scale"@)),
                ),
            ))
            .push(("type"@, JsonView::Text("object"@))),
    )
}

fn spawn_asset_schema() -> (r: Json)
    ensures
        r@ == spawn_asset_schema_view(),
{
    Fields::new()
        .with("additionalProperties", boolean(false))
        .with(
            "properties",
            Fields::new()
                .with(
                    "asset_id",
                    Fields::new()
                        .with("maxLength", integer(64))
                        .with("minLength", integer(1))
                        .with("type", text("string"))
                        .object(),
                )
                .with(
                    "idempotency_key",
                    Fields::new()
                        .with("maxLength", integer(128))
                        .with("minLength", integer(1))
                        .with("type", text("string"))
                        .object(),
                )
                .with(
                    "interaction_state",
                    Fields::new()
                        .with("maxProperties", integer(32))
                        .with("type", text("object"))
                        .object(),
                )
                .with("position", vector3_number_schema())
                .with("rotation_degrees", vector3_number_schema())
                .with("scale", vector3_number_schema())
                .with(
                    "version",
                    Fields::new()
                        .with("maximum", integer(65535))
                        .with("minimum", integer(1))
                        .with("type", text("integer"))
                        .object(),
                )
                .object(),
        )
        .with(
            "required",
            Items::new()
                .with(text("asset_id"))
                .with(text("version"))
                .with(text("idempotency_key"))
                .with(text("position"))
                .with(text("rotation_degrees"))
                .with(text("scale"))
                .array(),
        )
        .with("type", text("object"))
        .object()
}

/// What an asset instance is updated with.
pub open spec fn update_asset_schema_view() -> JsonView {
    JsonView::Object(
        no_fields()
            .push(("additionalProperties"@, JsonView::Bool(false)))
            .push((
                "properties"@,
                JsonView::Object(
                    no_fields()
                        .push((
                            "instance_id"@,
                            JsonView::Object(
                                no_fields()
                                    .push(("maxLength"@, integer_value(128)))
                                    .push(("minLength"@, integer_value(1)))
                                    .push(("type"@, JsonView::Text("string"@))),
                            ),
                        ))
                        .push((
                            "interaction_state"@,
                            JsonView::Object(
                                no_fields()
                                    .push(("maxProperties"@, integer_value(32)))
                                    .push(("type"@, JsonView::Text("object"@))),
                            ),
                        ))
                        .push(("position"@, vector3_number_schema_view()))
                        .push(("rotation_degrees"@, vector3_number_schema_view()))
                        .push(("scale"@, vector3_number_schema_view())),
                ),
            ))
            .push((
                "required"@,
                JsonView::Array(
                    no_items()
                        .push(JsonView::Text("instance_id"@))
                        .push(JsonView::Text("position"@))
                        .push(JsonView::Text("rotation_degrees"@))
                        .push(JsonView::Text("scale"@)),
                ),
            ))
            .push(("type"@, JsonView::Text("object"@))),
    )
}

fn update_asset_schema() -> (r: Json)
    ensures
        r@ == update_asset_schema_view(),
{
    Fields::new()
        .with("additionalProperties", boolean(false))
        .with(
            "properties",
            Fields::new()
                .with(
                    "instance_id",
                    Fields::new()
                        .with("maxLength", integer(128))
                        .with("minLength", integer(1))
                        .with("type", text("string"))
                        .object(),
                )
                .with(
                    "interaction_state",
                    Fields::new()
                        .with("maxProperties", integer(32))
                        .with("type", text("object"))
                        .object(),
                )
                .with("position", vector3_number_schema())
                .with("rotation_degrees", vector3_number_schema())
                .with("scale", vector3_number_schema())
                .object(),
        )
        .with(
            "required",
            Items::new()
                .with(text("instance_id"))
                .with(text("position"))
                .with(text("rotation_degrees"))
                .with(text("scale"))
                .array(),
        )
        .with("type", text("object"))
        .object()
}

/// An instance id.
pub open spec fn instance_id_schema_view() -> JsonView {
    JsonView::Object(
        no_fields()
            .push(("additionalProperties"@, JsonView::Bool(false)))
            .push((
                "properties"@,
                JsonView::Object(
                    no_fields()
                        .push((
                            "instance_id"@,
                            JsonView::Object(
                                no_fields()
                                    .push(("maxLength"@, integer_value(128)))
                                    .push(("minLength"@, integer_value(1)))
                                    .push(("type"@, JsonView::Text("string"@))),
                            ),
                        )),
                ),
            ))
            .push((
                "required"@,
                JsonView::Array(no_items().push(JsonView::Text("instance_id"@))),
            ))
            .push(("type"@, JsonView::Text("object"@))),
    )
}

fn instance_id_schema() -> (r: Json)
    ensures
        r@ == instance_id_schema_view(),
{
    Fields::new()
        .with("additionalProperties", boolean(false))
        .with(
            "properties",
            Fields::new()
                .with(
                    "instance_id",
                    Fields::new()
                        .with("maxLength", integer(128))
                        .with("minLength", integer(1))
                        .with("type", text("string"))
                        .object(),
                )
                .object(),
        )
        .with("required", Items::new().with(text("instance_id")).array())
        .with("type", text("object"))
        .object()
}

/// The arguments that a tool takes.
#[derive(Debug, Clone, Copy, PartialEq, Eq, Structural)]
pub enum ToolSchema {
    Empty,
    Xyz,
    Region,
    BlockEdit,
    FillRegion,
    BuildPlan,
    BuildId,
    SculptSpec,
    GetAsset,
    SpawnAsset,
    UpdateAsset,
    InstanceId,
}

/// The schema of a tool's arguments.
pub open spec fn schema_view(schema: ToolSchema) -> JsonView {
    match schema {
        ToolSchema::Empty => empty_schema_view(),
        ToolSchema::Xyz => xyz_schema_view(),
        ToolSchema::Region => region_schema_view(),
        ToolSchema::BlockEdit => block_edit_schema_view(),
        ToolSchema::FillRegion => fill_region_schema_view(),
        ToolSchema::BuildPlan => build_plan_tool_schema_view(),
        ToolSchema::BuildId => build_id_schema_view(),
        ToolSchema::SculptSpec => sculpt_spec_tool_schema_view(),
        ToolSchema::GetAsset => get_asset_schema_view(),
        ToolSchema::SpawnAsset => spawn_asset_schema_view(),
        ToolSchema::UpdateAsset => update_asset_schema_view(),
        ToolSchema::InstanceId => instance_id_schema_view(),
    }
}

fn schema_json(schema: ToolSchema) -> (r: Json)
    ensures
        r@ == schema_view(schema),
{
    match schema {
        ToolSchema::Empty => empty_schema(),
        ToolSchema::Xyz => xyz_schema(),
        ToolSchema::Region => region_schema(),
        ToolSchema::BlockEdit => block_edit_schema(),
        ToolSchema::FillRegion => fill_region_schema(),
        ToolSchema::BuildPlan => build_plan_tool_schema(),
        ToolSchema::BuildId => build_id_schema(),
        ToolSchema::SculptSpec => sculpt_spec_tool_schema(),
        ToolSchema::GetAsset => get_asset_schema(),
        ToolSchema::SpawnAsset => spawn_asset_schema(),
        ToolSchema::UpdateAsset => update_asset_schema(),
        ToolSchema::InstanceId => instance_id_schema(),
    }
}

// ---- the tools ----

/// What a tool does to the world.
#[derive(Debug, Clone, Copy, PartialEq, Eq, Structural)]
pub enum ToolHints {
    ReadOnly,
    Edit { destructive: bool, idempotent: bool },
}

/// A tool, as it is listed.
#[derive(Debug, Clone, Copy, PartialEq, Eq)]
pub struct ToolInfo {
    pub name: &'static str,
    pub title: &'static str,
    pub description: &'static str,
    pub schema: ToolSchema,
    pub hints: ToolHints,
}

/// A listed tool.
pub open spec fn tool(
    name: &'static str,
    title: &'static str,
    description: &'static str,
    schema: ToolSchema,
    hints: ToolHints,
) -> ToolInfo {
    ToolInfo { name, title, description, schema, hints }
}

pub open spec fn edit_hints(destructive: bool, idempotent: bool) -> ToolHints {
    ToolHints::Edit { destructive, idempotent }
}

/// The tools, in the order in which they are listed.
pub open spec fn tools() -> Seq<ToolInfo> {
    seq![
        tool(
            "server_status",
            "Server Status",
            "Return local server tick, player count, bounds, and persistence/MCP paths.",
            ToolSchema::Empty,
            ToolHints::ReadOnly,
        ),
        tool(
            "list_players",
            "List Players",
            "List connected players with position and ping.",
            ToolSchema::Empty,
            ToolHints::ReadOnly,
        ),
        tool(
            "get_world_bounds",
            "Get World Bounds",
            "Return the bounded World Loom coordinate limits.",
            ToolSchema::Empty,
            ToolHints::ReadOnly,
        ),
        tool(
            "list_build_palette",
            "List Build Palette",
            "List the authoritative Build Palette v1 block names and visual metadata.",
            ToolSchema::Empty,
            ToolHints::ReadOnly,
        ),
        tool(
            "get_block",
            "Get Block",
            "Inspect one block in the live server world.",
            ToolSchema::Xyz,
            ToolHints::ReadOnly,
        ),
        tool(
            "snapshot_region",
            "Snapshot Region",
            "Inspect a bounded cuboid. Maximum volume: 512 blocks.",
            ToolSchema::Region,
            ToolHints::ReadOnly,
        ),
        tool(
            "set_block",
            "Set Block",
            "Set one block through WorldCommand validation. Call list_build_palette for supported names.",
            ToolSchema::BlockEdit,
            edit_hints(false, false),
        ),
        tool(
            "remove_block",
            "Remove Block",
            "Remove one block through WorldCommand validation.",
            ToolSchema::Xyz,
            edit_hints(true, false),
        ),
        tool(
            "fill_region",
            "Fill Region",
            "Fill a bounded cuboid through WorldCommand validation. Use block=air to remove non-air cells. Maximum volume: 128 blocks.",
            ToolSchema::FillRegion,
            edit_hints(true, false),
        ),
        tool(
            "validate_build_plan",
            "Validate Build Plan",
            "Validate BuildPlan v1 without mutation. Maximum 128 operations and 256 expanded targets.",
            ToolSchema::BuildPlan,
            ToolHints::ReadOnly,
        ),
        tool(
            "apply_build_plan",
            "Apply Build Plan",
            "Atomically validate, apply, persist, and record an undoable BuildPlan v1.",
            ToolSchema::BuildPlan,
            edit_hints(true, true),
        ),
        tool(
            "get_build",
            "Get Build",
            "Return the persisted summary and state for a build_id.",
            ToolSchema::BuildId,
            ToolHints::ReadOnly,
        ),
        tool(
            "undo_build",
            "Undo Build",
            "Atomically restore the exact captured state for a build. Repeated undo is safe.",
            ToolSchema::BuildId,
            edit_hints(true, true),
        ),
        tool(
            "validate_sculpt_spec",
            "Validate Sculpt Spec",
            "Validate a bounded declarative SculptSpec v1 without publishing it.",
            ToolSchema::SculptSpec,
            ToolHints::ReadOnly,
        ),
        tool(
            "inspect_asset_budget",
            "Inspect Asset Budget",
            "Return deterministic SculptSpec validation and geometry budgets without mutation.",
            ToolSchema::SculptSpec,
            ToolHints::ReadOnly,
        ),
        tool(
            "publish_asset",
            "Publish Asset",
            "Validate and persist one immutable SculptSpec asset version.",
            ToolSchema::SculptSpec,
            edit_hints(false, true),
        ),
        tool(
            "list_assets",
            "List Assets",
            "List the authoritative declarative asset catalog.",
            ToolSchema::Empty,
            ToolHints::ReadOnly,
        ),
        tool(
            "get_asset",
            "Get Asset",
            "Get one asset version, or the latest version when version is omitted.",
            ToolSchema::GetAsset,
            ToolHints::ReadOnly,
        ),
        tool(
            "spawn_asset",
            "Spawn Asset",
            "Persist and synchronize one bounded asset instance.",
            ToolSchema::SpawnAsset,
            edit_hints(false, true),
        ),
        tool(
            "update_asset",
            "Update Asset Instance",
            "Persist and synchronize a complete transform/state replacement for an active instance.",
            ToolSchema::UpdateAsset,
            edit_hints(false, false),
        ),
        tool(
            "remove_asset",
            "Remove Asset Instance",
            "Persist and synchronize removal of an asset instance. Repeated removal is safe.",
            ToolSchema::InstanceId,
            edit_hints(true, true),
        ),
        tool(
            "list_asset_instances",
            "List Asset Instances",
            "List active authoritative asset instances.",
            ToolSchema::Empty,
            ToolHints::ReadOnly,
        ),
    ]
}

fn add_tool(
    list: &mut Vec<ToolInfo>,
    name: &'static str,
    title: &'static str,
    description: &'static str,
    schema: ToolSchema,
    hints: ToolHints,
)
    ensures
        final(list)@ == old(list)@.push(tool(name, title, description, schema, hints)),
{
    list.push(ToolInfo { name, title, description, schema, hints });
}

/// The tools, in the order in which they are listed.
pub fn tool_table() -> (r: Vec<ToolInfo>)
    ensures
        r@ == tools(),
{
    let mut list: Vec<ToolInfo> = Vec::new();
    add_tool(
        &mut list,
        "server_status",
        "Server Status",
        "Return local server tick, player count, bounds, and persistence/MCP paths.",
        ToolSchema::Empty,
        ToolHints::ReadOnly,
    );
    add_tool(
        &mut list,
        "list_players",
        "List Players",
        "List connected players with position and ping.",
        ToolSchema::Empty,
        ToolHints::ReadOnly,
    );
    add_tool(
        &mut list,
        "get_world_bounds",
        "Get World Bounds",
        "Return the bounded World Loom coordinate limits.",
        ToolSchema::Empty,
        ToolHints::ReadOnly,
    );
    add_tool(
        &mut list,
        "list_build_palette",
        "List Build Palette",
        "List the authoritative Build Palette v1 block names and visual metadata.",
        ToolSchema::Empty,
        ToolHints::ReadOnly,
    );
    add_tool(
        &mut list,
        "get_block",
        "Get Block",
        "Inspect one block in the live server world.",
        ToolSchema::Xyz,
        ToolHints::ReadOnly,
    );
    add_tool(
        &mut list,
        "snapshot_region",
        "Snapshot Region",
        "Inspect a bounded cuboid. Maximum volume: 512 blocks.",
        ToolSchema::Region,
        ToolHints::ReadOnly,
    );
    add_tool(
        &mut list,
        "set_block",
        "Set Block",
        "Set one block through WorldCommand validation. Call list_build_palette for supported names.",
        ToolSchema::BlockEdit,
        ToolHints::Edit { destructive: false, idempotent: false },
    );
    add_tool(
        &mut list,
        "remove_block",
        "Remove Block",
        "Remove one block through WorldCommand validation.",
        ToolSchema::Xyz,
        ToolHints::Edit { destructive: true, idempotent: false },
    );
    add_tool(
        &mut list,
        "fill_region",
        "Fill Region",
        "Fill a bounded cuboid through WorldCommand validation. Use block=air to remove non-air cells. Maximum volume: 128 blocks.",
        ToolSchema::FillRegion,
        ToolHints::Edit { destructive: true, idempotent: false },
    );
    add_tool(
        &mut list,
        "validate_build_plan",
        "Validate Build Plan",
        "Validate BuildPlan v1 without mutation. Maximum 128 operations and 256 expanded targets.",
        ToolSchema::BuildPlan,
        ToolHints::ReadOnly,
    );
    add_tool(
        &mut list,
        "apply_build_plan",
        "Apply Build Plan",
        "Atomically validate, apply, persist, and record an undoable BuildPlan v1.",
        ToolSchema::BuildPlan,
        ToolHints::Edit { destructive: true, idempotent: true },
    );
    add_tool(
        &mut list,
        "get_build",
        "Get Build",
        "Return the persisted summary and state for a build_id.",
        ToolSchema::BuildId,
        ToolHints::ReadOnly,
    );
    add_tool(
        &mut list,
        "undo_build",
        "Undo Build",
        "Atomically restore the exact captured state for a build. Repeated undo is safe.",
        ToolSchema::BuildId,
        ToolHints::Edit { destructive: true, idempotent: true },
    );
    add_tool(
        &mut list,
        "validate_sculpt_spec",
        "Validate Sculpt Spec",
        "Validate a bounded declarative SculptSpec v1 without publishing it.",
        ToolSchema::SculptSpec,
        ToolHints::ReadOnly,
    );
    add_tool(
        &mut list,
        "inspect_asset_budget",
        "Inspect Asset Budget",
        "Return deterministic SculptSpec validation and geometry budgets without mutation.",
        ToolSchema::SculptSpec,
        ToolHints::ReadOnly,
    );
    add_tool(
        &mut list,
        "publish_asset",
        "Publish Asset",
        "Validate and persist one immutable SculptSpec asset version.",
        ToolSchema::SculptSpec,
        ToolHints::Edit { destructive: false, idempotent: true },
    );
    add_tool(
        &mut list,
        "list_assets",
        "List Assets",
        "List the authoritative declarative asset catalog.",
        ToolSchema::Empty,
        ToolHints::ReadOnly,
    );
    add_tool(
        &mut list,
        "get_asset",
        "Get Asset",
        "Get one asset version, or the latest version when version is omitted.",
        ToolSchema::GetAsset,
        ToolHints::ReadOnly,
    );
    add_tool(
        &mut list,
        "spawn_asset",
        "Spawn Asset",
        "Persist and synchronize one bounded asset instance.",
        ToolSchema::SpawnAsset,
        ToolHints::Edit { destructive: false, idempotent: true },
    );
    add_tool(
        &mut list,
        "update_asset",
        "Update Asset Instance",
        "Persist and synchronize a complete transform/state replacement for an active instance.",
        ToolSchema::UpdateAsset,
        ToolHints::Edit { destructive: false, idempotent: false },
    );
    add_tool(
        &mut list,
        "remove_asset",
        "Remove Asset Instance",
        "Persist and synchronize removal of an asset instance. Repeated removal is safe.",
        ToolSchema::InstanceId,
        ToolHints::Edit { destructive: true, idempotent: true },
    );
    add_tool(
        &mut list,
        "list_asset_instances",
        "List Asset Instances",
        "List active authoritative asset instances.",
        ToolSchema::Empty,
        ToolHints::ReadOnly,
    );
    proof {
        assert(list@ =~= tools());
    }
    list
}

/// True iff a tool of that name is listed.
pub open spec fn known_tool(name: Seq<char>) -> bool {
    exists|i: int| 0 <= i < tools().len() && (#[trigger] tools()[i]).name@ == name
}

pub fn is_known_tool(name: &str) -> (r: bool)
    ensures
        r == known_tool(name@),
{
    let list = tool_table();
    let mut i: usize = 0;
    while i < list.len()
        invariant
            i <= list@.len(),
            list@ == tools(),
            forall|j: int| 0 <= j < i ==> (#[trigger] tools()[j]).name@ != name@,
        decreases list@.len() - i,
    {
        if same_text(list[i].name, name) {
            proof {
                assert(tools()[i as int].name@ == name@);
            }
            return true;
        }
        i = i + 1;
    }
    false
}

/// The annotations of a tool.
pub open spec fn hints_view(hints: ToolHints) -> JsonView {
    match hints {
        ToolHints::ReadOnly => JsonView::Object(no_fields().push(("readOnlyHint"@, JsonView::Bool(true)))),
        ToolHints::Edit { destructive, idempotent } => if idempotent {
            JsonView::Object(
        no_fields()
            .push(("destructiveHint"@, JsonView::Bool(destructive)))
            .push(("idempotentHint"@, JsonView::Bool(true))),
    )
        } else {
            JsonView::Object(no_fields().push(("destructiveHint"@, JsonView::Bool(destructive))))
        },
    }
}

fn hints_json(hints: ToolHints) -> (r: Json)
    ensures
        r@ == hints_view(hints),
{
    match hints {
        ToolHints::ReadOnly => Fields::new().with("readOnlyHint", boolean(true)).object(),
        ToolHints::Edit { destructive, idempotent } => if idempotent {
            Fields::new()
        .with("destructiveHint", boolean(destructive))
        .with("idempotentHint", boolean(true))
        .object()
        } else {
            Fields::new().with("destructiveHint", boolean(destructive)).object()
        },
    }
}

/// The definition of a tool, as it is listed.
pub open spec fn definition_view(info: ToolInfo) -> JsonView {
    JsonView::Object(
        no_fields()
            .push(("annotations"@, hints_view(info.hints)))
            .push(("description"@, JsonView::Text(info.description@)))
            .push(("inputSchema"@, schema_view(info.schema)))
            .push(("name"@, JsonView::Text(info.name@)))
            .push(("title"@, JsonView::Text(info.title@))),
    )
}

fn definition_json(info: ToolInfo) -> (r: Json)
    ensures
        r@ == definition_view(info),
{
    Fields::new()
        .with("annotations", hints_json(info.hints))
        .with("description", text(info.description))
        .with("inputSchema", schema_json(info.schema))
        .with("name", text(info.name))
        .with("title", text(info.title))
        .object()
}

/// The definitions of the first `n` tools.
pub open spec fn definition_views(n: int) -> Seq<JsonView>
    decreases n,
{
    if n <= 0 {
        no_items()
    } else {
        definition_views(n - 1).push(definition_view(tools()[n - 1]))
    }
}

/// The definitions of all tools.
pub fn tool_definitions() -> (r: Vec<Json>)
    ensures
        item_views(r@) == definition_views(tools().len() as int),
{
    let list = tool_table();
    let mut definitions: Vec<Json> = Vec::new();
    proof {
        assert(item_views(definitions@) =~= definition_views(0));
    }
    let mut i: usize = 0;
    while i < list.len()
        invariant
            i <= list@.len(),
            list@ == tools(),
            item_views(definitions@) == definition_views(i as int),
        decreases list@.len() - i,
    {
        let ghost before = item_views(definitions@);
        let definition = definition_json(list[i]);
        definitions.push(definition);
        proof {
            assert(item_views(definitions@) =~= before.push(definition@));
        }
        i = i + 1;
    }
    definitions
}

fn tools_array() -> (r: Json)
    ensures
        r@ == JsonView::Array(definition_views(tools().len() as int)),
{
    let definitions = tool_definitions();
    proof {
        array_view(definitions);
    }
    Json::Array(definitions)
}

// ---- messages ----

/// A successful answer.
pub open spec fn json_rpc_success_view(id: JsonView, result: JsonView) -> JsonView {
    JsonView::Object(
        no_fields()
            .push(("id"@, id))
            .push(("jsonrpc"@, JsonView::Text("2.0"@)))
            .push(("result"@, result)),
    )
}

fn json_rpc_success(id: Json, result: Json) -> (r: Json)
    ensures
        r@ == json_rpc_success_view(id@, result@),
{
    Fields::new().with("id", id).with("jsonrpc", text("2.0")).with("result", result).object()
}

/// An answer that reports an error.
pub open spec fn json_rpc_error_view(id: JsonView, code: int, message: Seq<char>) -> JsonView {
    JsonView::Object(
        no_fields()
            .push((
                "error"@,
                JsonView::Object(
                    no_fields()
                        .push(("code"@, integer_value(code)))
                        .push(("message"@, JsonView::Text(message))),
                ),
            ))
            .push(("id"@, id))
            .push(("jsonrpc"@, JsonView::Text("2.0"@))),
    )
}

fn json_rpc_error(id: Json, code: i64, message: &str) -> (r: Json)
    ensures
        r@ == json_rpc_error_view(id@, code as int, message@),
{
    Fields::new()
        .with(
            "error",
            Fields::new().with("code", integer(code)).with("message", text(message)).object(),
        )
        .with("id", id)
        .with("jsonrpc", text("2.0"))
        .object()
}

/// The result of a tool that failed.
pub open spec fn tool_error_view(message: Seq<char>) -> JsonView {
    JsonView::Object(
        no_fields()
            .push((
                "content"@,
                JsonView::Array(
                    no_items()
                        .push(
                            JsonView::Object(
                                no_fields()
                                    .push(("text"@, JsonView::Text(message)))
                                    .push(("type"@, JsonView::Text("text"@))),
                            ),
                        ),
                ),
            ))
            .push(("isError"@, JsonView::Bool(true))),
    )
}

pub fn tool_error(message: &str) -> (r: Json)
    ensures
        r@ == tool_error_view(message@),
{
    Fields::new()
        .with(
            "content",
            Items::new()
                .with(
                    Fields::new()
                        .with("text", text(message))
                        .with("type", text("text"))
                        .object(),
                )
                .array(),
        )
        .with("isError", boolean(true))
        .object()
}

/// The result of a tool that succeeded, with its text.
pub open spec fn tool_result_view(result: JsonView, rendered: Seq<char>) -> JsonView {
    JsonView::Object(
        no_fields()
            .push((
                "content"@,
                JsonView::Array(
                    no_items()
                        .push(
                            JsonView::Object(
                                no_fields()
                                    .push(("text"@, JsonView::Text(rendered)))
                                    .push(("type"@, JsonView::Text("text"@))),
                            ),
                        ),
                ),
            ))
            .push(("isError"@, JsonView::Bool(false)))
            .push(("structuredContent"@, result)),
    )
}

/// The result of a tool that succeeded: its value, and the indented JSON of it.
pub fn tool_result(result: Json) -> (r: Json)
    ensures
        exists|rendered: Seq<char>|
            r@ == #[trigger] tool_result_view(result@, rendered) && (normal(result@) ==> rendered
                == pretty(result@)),
{
    let rendered = result.pretty_text();
    let r = Fields::new()
        .with(
            "content",
            Items::new()
                .with(
                    Fields::new()
                        .with("text", text(rendered.as_str()))
                        .with("type", text("text"))
                        .object(),
                )
                .array(),
        )
        .with("isError", boolean(false))
        .with("structuredContent", result)
        .object();
    proof {
        assert(r@ == tool_result_view(result@, rendered@));
    }
    r
}

/// What the server says of itself.
pub open spec fn initialize_result_view() -> JsonView {
    JsonView::Object(
        no_fields()
            .push((
                "capabilities"@,
                JsonView::Object(
                    no_fields()
                        .push((
                            "tools"@,
                            JsonView::Object(
                                no_fields()
                                    .push(("listChanged"@, JsonView::Bool(false))),
                            ),
                        )),
                ),
            ))
            .push((
                "instructions"@,
                JsonView::Text("Local World Loom MCP endpoint. Edit tools are bounded and routed through WorldCommand validation."@),
            ))
            .push(("protocolVersion"@, JsonView::Text(MCP_PROTOCOL_VERSION@)))
            .push((
                "serverInfo"@,
                JsonView::Object(
                    no_fields()
                        .push(("name"@, JsonView::Text(SERVER_NAME@)))
                        .push(("version"@, JsonView::Text(SERVER_VERSION@))),
                ),
            )),
    )
}

fn initialize_result() -> (r: Json)
    ensures
        r@ == initialize_result_view(),
{
    Fields::new()
        .with(
            "capabilities",
            Fields::new()
                .with("tools", Fields::new().with("listChanged", boolean(false)).object())
                .object(),
        )
        .with(
            "instructions",
            text("Local World Loom MCP endpoint. Edit tools are bounded and routed through WorldCommand validation."),
        )
        .with("protocolVersion", text(MCP_PROTOCOL_VERSION))
        .with(
            "serverInfo",
            Fields::new()
                .with("name", text(SERVER_NAME))
                .with("version", text(SERVER_VERSION))
                .object(),
        )
        .object()
}

/// The answer to a ping.
pub open spec fn ping_result_view() -> JsonView {
    JsonView::Object(no_fields())
}

fn ping_result() -> (r: Json)
    ensures
        r@ == ping_result_view(),
{
    Fields::new().object()
}

/// The answer to a listing of the tools.
pub open spec fn tools_list_result_view() -> JsonView {
    JsonView::Object(
        no_fields()
            .push(("tools"@, JsonView::Array(definition_views(tools().len() as int)))),
    )
}

fn tools_list_result() -> (r: Json)
    ensures
        r@ == tools_list_result_view(),
{
    Fields::new().with("tools", tools_array()).object()
}

/// What the server answers over HTTP.
pub struct McpHttpResponse {
    pub status: u16,
    pub body: Option<Json>,
}

/// What an answer over HTTP says.
pub struct ResponseView {
    pub status: u16,
    pub body: Option<JsonView>,
}

impl View for McpHttpResponse {
    type V = ResponseView;

    open spec fn view(&self) -> ResponseView {
        ResponseView {
            status: self.status,
            body: match self.body {
                Some(json) => Some(json@),
                None => None,
            },
        }
    }
}

/// A call of a tool that has to be handed to the world, and the id under which it is answered.
pub struct ToolCall {
    pub id: Json,
    pub name: String,
    pub arguments: Json,
}

/// What a request leads to.
pub enum McpStep {
    Respond(McpHttpResponse),
    Call(ToolCall),
}

/// What a step says.
pub enum StepView {
    Respond(ResponseView),
    Call { id: JsonView, name: Seq<char>, arguments: JsonView },
}

impl View for McpStep {
    type V = StepView;

    open spec fn view(&self) -> StepView {
        match self {
            McpStep::Respond(response) => StepView::Respond(response@),
            McpStep::Call(call) => StepView::Call {
                id: call.id@,
                name: call.name@,
                arguments: call.arguments@,
            },
        }
    }
}

/// An answer with status 200.
pub open spec fn answered(body: JsonView) -> StepView {
    StepView::Respond(ResponseView { status: 200, body: Some(body) })
}

/// What a call of a tool leads to: the world is asked only for a listed tool.
pub open spec fn call_step(id: JsonView, params: Option<JsonView>) -> StepView {
    match params {
        None => answered(json_rpc_error_view(id, -32602, "missing params"@)),
        Some(params) => match member_text(params, "name"@) {
            None => answered(json_rpc_error_view(id, -32602, "missing params.name"@)),
            Some(name) => if !known_tool(name) {
                answered(json_rpc_error_view(id, -32602, "unknown tool `"@ + name + "`"@))
            } else {
                StepView::Call {
                    id,
                    name,
                    arguments: match member(params, "arguments"@) {
                        Some(arguments) => arguments,
                        None => JsonView::Object(no_fields()),
                    },
                }
            },
        },
    }
}

/// The text of the member with that key.
pub open spec fn member_text(value: JsonView, key: Seq<char>) -> Option<Seq<char>> {
    match member(value, key) {
        Some(value) => text_of_value(value),
        None => None,
    }
}

/// What a request leads to; one without an id is answered under a null one.
pub open spec fn request_step(body: JsonView) -> StepView {
    let id = match member(body, "id"@) {
        Some(id) => id,
        None => JsonView::Null,
    };
    match member_text(body, "method"@) {
        None => answered(json_rpc_error_view(id, -32600, "missing method"@)),
        Some(method) => if method == "initialize"@ {
            answered(json_rpc_success_view(id, initialize_result_view()))
        } else if method == "ping"@ {
            answered(json_rpc_success_view(id, ping_result_view()))
        } else if method == "tools/list"@ {
            answered(json_rpc_success_view(id, tools_list_result_view()))
        } else if method == "tools/call"@ {
            call_step(id, member(body, "params"@))
        } else {
            answered(json_rpc_error_view(id, -32601, "unknown method `"@ + method + "`"@))
        },
    }
}

/// What the bytes of a request lead to, by what they parse to. A request without an id is a
/// notification and gets no body.
pub open spec fn http_step(body: Result<JsonView, Seq<char>>) -> StepView {
    match body {
        Err(message) => StepView::Respond(
            ResponseView {
                status: 400,
                body: Some(
                    json_rpc_error_view(JsonView::Null, -32700, "parse error: "@ + message),
                ),
            },
        ),
        Ok(body) => if member(body, "id"@) is None {
            StepView::Respond(ResponseView { status: 202, body: None })
        } else {
            request_step(body)
        },
    }
}

fn respond(body: Json) -> (r: McpStep)
    ensures
        r@ == answered(body@),
{
    McpStep::Respond(McpHttpResponse { status: 200, body: Some(body) })
}

fn member_str<'a>(value: &'a Json, key: &str) -> (r: Option<&'a str>)
    ensures
        slice_text(r) == member_text(value@, key@),
{
    match value.get(key) {
        Some(value) => value.as_str(),
        None => None,
    }
}

fn handle_tools_call(id: Json, params: Option<&Json>) -> (r: McpStep)
    ensures
        r@ == call_step(
            id@,
            match params {
                Some(params) => Some(params@),
                None => None,
            },
        ),
{
    let params = match params {
        Some(params) => params,
        None => return respond(json_rpc_error(id, -32602, "missing params")),
    };
    let name = match member_str(params, "name") {
        Some(name) => name,
        None => return respond(json_rpc_error(id, -32602, "missing params.name")),
    };
    if !is_known_tool(name) {
        let mut message = "unknown tool `".to_owned();
        message.append(name);
        message.append("`");
        return respond(json_rpc_error(id, -32602, message.as_str()));
    }
    let arguments = match params.get("arguments") {
        Some(arguments) => copy_json(arguments),
        None => Fields::new().object(),
    };
    McpStep::Call(ToolCall { id, name: name.to_owned(), arguments })
}

/// What a parsed request leads to.
pub fn handle_json_rpc_request(body: &Json) -> (r: McpStep)
    ensures
        r@ == request_step(body@),
{
    let id = match body.get("id") {
        Some(id) => copy_json(id),
        None => Json::Null,
    };
    let method = match member_str(body, "method") {
        Some(method) => method,
        None => return respond(json_rpc_error(id, -32600, "missing method")),
    };
    if same_text(method, "initialize") {
        respond(json_rpc_success(id, initialize_result()))
    } else if same_text(method, "ping") {
        respond(json_rpc_success(id, ping_result()))
    } else if same_text(method, "tools/list") {
        respond(json_rpc_success(id, tools_list_result()))
    } else if same_text(method, "tools/call") {
        handle_tools_call(id, body.get("params"))
    } else {
        let mut message = "unknown method `".to_owned();
        message.append(method);
        message.append("`");
        respond(json_rpc_error(id, -32601, message.as_str()))
    }
}

/// What the outcome of parsing a request leads to.
pub fn handle_parsed_request(body: Result<Json, String>) -> (r: McpStep)
    ensures
        r@ == http_step(
            match body {
                Ok(body) => Ok::<JsonView, Seq<char>>(body@),
                Err(message) => Err(message@),
            },
        ),
{
    match body {
        Ok(body) => if body.get("id").is_none() {
            McpStep::Respond(McpHttpResponse { status: 202, body: None })
        } else {
            handle_json_rpc_request(&body)
        },
        Err(error) => {
            let mut message = "parse error: ".to_owned();
            message.append(error.as_str());
            McpStep::Respond(
                McpHttpResponse {
                    status: 400,
                    body: Some(json_rpc_error(Json::Null, -32700, message.as_str())),
                },
            )
        },
    }
}

/// What the bytes of a request lead to.
pub fn handle_http_json_rpc_request(body: &[u8]) -> (r: McpStep)
    ensures
        r@ == http_step(parsed(body@)),
{
    handle_parsed_request(parse_json(body))
}

/// What became of a call that was handed to the world.
pub enum ToolOutcome {
    /// The world's queue was closed.
    QueueClosed,
    Reply(Result<Json, String>),
    /// No reply came in time.
    TimedOut,
    /// The call was dropped without a reply.
    Disconnected,
}

/// The message of a call that failed.
pub open spec fn outcome_message(outcome: ToolOutcome) -> Option<Seq<char>> {
    match outcome {
        ToolOutcome::QueueClosed => Some("MCP world request queue is closed"@),
        ToolOutcome::Reply(Ok(result)) => None,
        ToolOutcome::Reply(Err(message)) => Some(message@),
        ToolOutcome::TimedOut => Some("MCP tool timed out waiting for server tick"@),
        ToolOutcome::Disconnected => Some("MCP world response channel closed"@),
    }
}

/// The answer to a call: the tool's result, or a result that reports the failure.
pub fn finish_tool_call(id: Json, outcome: ToolOutcome) -> (r: McpHttpResponse)
    ensures
        r.status == 200,
        match outcome_message(outcome) {
            Some(message) => r@.body == Some(json_rpc_success_view(id@, tool_error_view(message))),
            None => exists|rendered: Seq<char>|
                r@.body == Some(
                    json_rpc_success_view(
                        id@,
                        #[trigger] tool_result_view(outcome->Reply_0->Ok_0@, rendered),
                    ),
                ) && (normal(outcome->Reply_0->Ok_0@) ==> rendered == pretty(
                    outcome->Reply_0->Ok_0@,
                )),
        },
{
    let result = match outcome {
        ToolOutcome::QueueClosed => tool_error("MCP world request queue is closed"),
        ToolOutcome::Reply(Ok(result)) => tool_result(result),
        ToolOutcome::Reply(Err(message)) => tool_error(message.as_str()),
        ToolOutcome::TimedOut => tool_error("MCP tool timed out waiting for server tick"),
        ToolOutcome::Disconnected => tool_error("MCP world response channel closed"),
    };
    McpHttpResponse { status: 200, body: Some(json_rpc_success(id, result)) }
}

// ---- arguments ----

/// The name of a block in answers: that of the palette, and its registry text beside it.
pub open spec fn block_name(block: BlockState) -> Seq<char> {
    if block == AIR {
        "air"@
    } else if block == BEDROCK {
        "bedrock"@
    } else {
        match palette_name(block) {
            Some(name) => name,
            None => state_text(block),
        }
    }
}

pub fn block_state_name(block: BlockState) -> (r: String)
    requires
        valid_state(block),
    ensures
        r@ == block_name(block),
{
    if block == AIR {
        return "air".to_owned();
    }
    if block == BEDROCK {
        return "bedrock".to_owned();
    }
    match block_name_for_state(block) {
        Some(name) => name.to_owned(),
        None => block_text(block),
    }
}

/// The block that a name means: air, or a block of the palette.
pub open spec fn named_block(name: Seq<char>) -> Option<BlockState> {
    if plain_name(name) == "air"@ {
        Some(AIR)
    } else {
        palette_block(plain_name(plain_name(name)))
    }
}

pub fn parse_block_name(name: &str) -> (r: Option<BlockState>)
    ensures
        r == named_block(name@),
        r matches Some(block) ==> valid_state(block),
{
    let normalized = normalized_name(name);
    if same_text(normalized.as_str(), "air") {
        Some(AIR)
    } else {
        parse_build_block_name(normalized.as_str())
    }
}

/// A block at a position, as it stands in answers.
pub open spec fn block_json_view(position: BlockPos, block: BlockState) -> JsonView {
    JsonView::Object(
        no_fields()
            .push(("block"@, JsonView::Text(block_name(block))))
            .push(("block_state_raw"@, integer_value(block as int)))
            .push(("x"@, integer_value(position.x as int)))
            .push(("y"@, integer_value(position.y as int)))
            .push(("z"@, integer_value(position.z as int))),
    )
}

pub fn block_json(position: BlockPos, block: BlockState) -> (r: Json)
    requires
        valid_state(block),
    ensures
        r@ == block_json_view(position, block),
{
    Fields::new()
        .with("block", text(block_state_name(block).as_str()))
        .with("block_state_raw", unsigned(block as u64))
        .with("x", integer(position.x as i64))
        .with("y", integer(position.y as i64))
        .with("z", integer(position.z as i64))
        .object()
}

/// The integer argument of that name.
pub open spec fn integer_argument(arguments: JsonView, name: Seq<char>) -> Result<i32, Seq<char>> {
    let value = match member(arguments, name) {
        Some(value) => signed_of_value(value),
        None => None,
    };
    match value {
        None => Err("missing integer argument `"@ + name + "`"@),
        Some(n) => if i32::MIN <= n <= i32::MAX {
            Ok(n as i32)
        } else {
            Err("argument `"@ + name + "` is outside i32 range"@)
        },
    }
}

pub fn required_i32(arguments: &Json, name: &str) -> (r: Result<i32, String>)
    ensures
        is_result(r, integer_argument(arguments@, name@)),
{
    let value = match arguments.get(name) {
        Some(value) => value.as_i64(),
        None => None,
    };
    match value {
        None => {
            let mut message = "missing integer argument `".to_owned();
            message.append(name);
            message.append("`");
            Err(message)
        },
        Some(n) => if i32::MIN as i64 <= n && n <= i32::MAX as i64 {
            Ok(n as i32)
        } else {
            let mut message = "argument `".to_owned();
            message.append(name);
            message.append("` is outside i32 range");
            Err(message)
        },
    }
}

/// Three integer arguments as a position; the first one that fails decides.
pub open spec fn position_argument(
    arguments: JsonView,
    x: Seq<char>,
    y: Seq<char>,
    z: Seq<char>,
) -> Result<BlockPos, Seq<char>> {
    match integer_argument(arguments, x) {
        Err(message) => Err(message),
        Ok(px) => match integer_argument(arguments, y) {
            Err(message) => Err(message),
            Ok(py) => match integer_argument(arguments, z) {
                Err(message) => Err(message),
                Ok(pz) => Ok(BlockPos { x: px, y: py, z: pz }),
            },
        },
    }
}

fn required_position(arguments: &Json, x: &str, y: &str, z: &str) -> (r: Result<BlockPos, String>)
    ensures
        is_result(r, position_argument(arguments@, x@, y@, z@)),
{
    let px = match required_i32(arguments, x) {
        Ok(px) => px,
        Err(message) => return Err(message),
    };
    let py = match required_i32(arguments, y) {
        Ok(py) => py,
        Err(message) => return Err(message),
    };
    let pz = match required_i32(arguments, z) {
        Ok(pz) => pz,
        Err(message) => return Err(message),
    };
    Ok(BlockPos { x: px, y: py, z: pz })
}

pub fn required_block_pos(arguments: &Json) -> (r: Result<BlockPos, String>)
    ensures
        is_result(r, position_argument(arguments@, "x"@, "y"@, "z"@)),
{
    required_position(arguments, "x", "y", "z")
}

/// The block argument.
pub open spec fn block_argument(arguments: JsonView) -> Result<BlockState, Seq<char>> {
    match member_text(arguments, "block"@) {
        None => Err("missing string argument `block`"@),
        Some(name) => match named_block(name) {
            Some(block) => Ok(block),
            None => Err("unsupported block `"@ + name + "`"@),
        },
    }
}

pub fn required_block_state(arguments: &Json) -> (r: Result<BlockState, String>)
    ensures
        is_result(r, block_argument(arguments@)),
        r matches Ok(block) ==> valid_state(block),
{
    match member_str(arguments, "block") {
        None => Err("missing string argument `block`".to_owned()),
        Some(name) => match parse_block_name(name) {
            Some(block) => Ok(block),
            None => {
                let mut message = "unsupported block `".to_owned();
                message.append(name);
                message.append("`");
                Err(message)
            },
        },
    }
}

/// A box of block positions, both corners included.
#[derive(Debug, Clone, Copy, PartialEq, Eq, Structural)]
pub struct Region {
    pub min: BlockPos,
    pub max: BlockPos,
}

impl Region {
    /// The number of blocks of the region.
    pub open spec fn spec_volume(self) -> int {
        (self.max.x - self.min.x + 1) * (self.max.y - self.min.y + 1) * (self.max.z - self.min.z
            + 1)
    }

    /// True iff no coordinate of the lower corner exceeds that of the upper one.
    pub open spec fn is_ordered(self) -> bool {
        self.min.x <= self.max.x && self.min.y <= self.max.y && self.min.z <= self.max.z
    }

    fn wide_volume(self) -> (r: i128)
        requires
            self.is_ordered(),
        ensures
            r == self.spec_volume(),
            r > 0,
    {
        let dx: i128 = self.max.x as i128 - self.min.x as i128 + 1;
        let dy: i128 = self.max.y as i128 - self.min.y as i128 + 1;
        let dz: i128 = self.max.z as i128 - self.min.z as i128 + 1;
        proof {
            assert(0 < dx * dy <= 0x1_0000_0000 * 0x1_0000_0000) by (nonlinear_arith)
                requires
                    0 < dx <= 0x1_0000_0000,
                    0 < dy <= 0x1_0000_0000,
            ;
            let area = dx * dy;
            assert(0 < area * dz <= 0x1_0000_0000_0000_0000 * 0x1_0000_0000) by (nonlinear_arith)
                requires
                    0 < area <= 0x1_0000_0000_0000_0000,
                    0 < dz <= 0x1_0000_0000,
            ;
        }
        dx * dy * dz
    }

    pub fn volume(self) -> (r: i64)
        requires
            self.is_ordered(),
            self.spec_volume() <= i64::MAX,
        ensures
            r == self.spec_volume(),
    {
        self.wide_volume() as i64
    }
}

/// The region argument, of at most `limit` blocks.
pub open spec fn region_argument(arguments: JsonView, limit: i64) -> Result<Region, Seq<char>> {
    match position_argument(arguments, "min_x"@, "min_y"@, "min_z"@) {
        Err(message) => Err(message),
        Ok(min) => match position_argument(arguments, "max_x"@, "max_y"@, "max_z"@) {
            Err(message) => Err(message),
            Ok(max) => {
                let region = Region { min, max };
                if !region.is_ordered() {
                    Err("region min coordinates must be <= max coordinates"@)
                } else if region.spec_volume() > limit {
                    Err(
                        "region volume "@ + decimal(region.spec_volume()) + " exceeds limit "@
                            + decimal(limit as int),
                    )
                } else {
                    Ok(region)
                }
            },
        },
    }
}

pub fn required_region(arguments: &Json, limit: i64) -> (r: Result<Region, String>)
    ensures
        is_result(r, region_argument(arguments@, limit)),
{
    let min = match required_position(arguments, "min_x", "min_y", "min_z") {
        Ok(min) => min,
        Err(message) => return Err(message),
    };
    let max = match required_position(arguments, "max_x", "max_y", "max_z") {
        Ok(max) => max,
        Err(message) => return Err(message),
    };
    let region = Region { min, max };
    if min.x > max.x || min.y > max.y || min.z > max.z {
        return Err("region min coordinates must be <= max coordinates".to_owned());
    }
    let volume = region.wide_volume();
    if volume > limit as i128 {
        let mut message = "region volume ".to_owned();
        push_u128(&mut message, volume as u128);
        message.append(" exceeds limit ");
        push_i64(&mut message, limit);
        return Err(message);
    }
    Ok(region)
}

/// The text argument of that name, where it is not empty and has at most `max_bytes` bytes.
pub open spec fn bounded_text(arguments: JsonView, name: Seq<char>, max_bytes: nat) -> Option<
    Seq<char>,
> {
    match member_text(arguments, name) {
        Some(value) => if value.len() > 0 && utf8_len(value) <= max_bytes {
            Some(value)
        } else {
            None
        },
        None => None,
    }
}

fn bounded_str<'a>(arguments: &'a Json, name: &str, max_bytes: usize) -> (r: Option<&'a str>)
    ensures
        slice_text(r) == bounded_text(arguments@, name@, max_bytes as nat),
{
    match member_str(arguments, name) {
        Some(value) => if !value.is_empty() && byte_len(value) <= max_bytes {
            Some(value)
        } else {
            None
        },
        None => None,
    }
}

pub fn required_build_id(arguments: &Json) -> (r: Result<&str, String>)
    ensures
        match bounded_text(arguments@, "build_id"@, 128) {
            Some(value) => r matches Ok(id) && id@ == value,
            None => r matches Err(message) && message@
                == "build_id must be a non-empty string of at most 128 bytes"@,
        },
{
    match bounded_str(arguments, "build_id", 128) {
        Some(id) => Ok(id),
        None => Err("build_id must be a non-empty string of at most 128 bytes".to_owned()),
    }
}

pub fn required_string<'a>(arguments: &'a Json, name: &str, max_bytes: usize) -> (r: Result<
    &'a str,
    String,
>)
    ensures
        match bounded_text(arguments@, name@, max_bytes as nat) {
            Some(value) => r matches Ok(text) && text@ == value,
            None => r matches Err(message) && message@ == "`"@ + name@
                + "` must be a non-empty string of at most "@ + decimal_nat(max_bytes as nat)
                + " bytes"@,
        },
{
    match bounded_str(arguments, name, max_bytes) {
        Some(value) => Ok(value),
        None => {
            let mut message = "`".to_owned();
            message.append(name);
            message.append("` must be a non-empty string of at most ");
            push_u128(&mut message, max_bytes as u128);
            message.append(" bytes");
            Err(message)
        },
    }
}

pub fn required_sculpt_spec(arguments: &Json) -> (r: Result<&Json, String>)
    ensures
        match member(arguments@, "spec"@) {
            Some(value) => if value is Object {
                r matches Ok(spec) && spec@ == value
            } else {
                r matches Err(message) && message@ == "missing object argument `spec`"@
            },
            None => r matches Err(message) && message@ == "missing object argument `spec`"@,
        },
{
    if let Some(value) = arguments.get("spec") {
        if value.is_object() {
            return Ok(value);
        }
    }
    Err("missing object argument `spec`".to_owned())
}

/// Where a build plan stands among the arguments: under its name, or in their place.
pub fn build_plan_argument(arguments: &Json) -> (r: &Json)
    ensures
        r@ == match member(arguments@, "plan"@) {
            Some(plan) => plan,
            None => arguments@,
        },
{
    match arguments.get("plan") {
        Some(plan) => plan,
        None => arguments,
    }
}

pub fn optional_u32(arguments: &Json, name: &str) -> (r: Result<Option<u32>, String>)
    ensures
        match member(arguments@, name@) {
            None => r == Ok::<Option<u32>, String>(None),
            Some(value) => match unsigned_of_value(value) {
                None => r matches Err(message) && message@ == "`"@ + name@
                    + "` must be an unsigned integer"@,
                Some(n) => if n <= u32::MAX {
                    r == Ok::<Option<u32>, String>(Some(n as u32))
                } else {
                    r matches Err(message) && message@ == "`"@ + name@ + "` is outside u32 range"@
                },
            },
        },
{
    let value = match arguments.get(name) {
        Some(value) => value,
        None => return Ok(None),
    };
    match value.as_u64() {
        None => {
            let mut message = "`".to_owned();
            message.append(name);
            message.append("` must be an unsigned integer");
            Err(message)
        },
        Some(n) => if n <= u32::MAX as u64 {
            Ok(Some(n as u32))
        } else {
            let mut message = "`".to_owned();
            message.append(name);
            message.append("` is outside u32 range");
            Err(message)
        },
    }
}

// ---- laws ----

/// Whatever a request asks for, the world is only ever handed a tool that is listed.
pub proof fn only_listed_tools_are_called(body: Result<JsonView, Seq<char>>)
    ensures
        http_step(body) matches StepView::Call { id, name, arguments } ==> known_tool(name),
{
}

/// A request without an id is answered with status 202 and no body.
pub proof fn notifications_get_no_body(body: JsonView)
    requires
        member(body, "id"@) is None,
    ensures
        http_step(Ok(body)) == StepView::Respond(ResponseView { status: 202, body: None }),
{
}

/// A region that is accepted is ordered and holds no more blocks than the limit allows.
pub proof fn accepted_regions_keep_the_limit(arguments: JsonView, limit: i64)
    ensures
        region_argument(arguments, limit) matches Ok(region) ==> region.is_ordered() && 0
            < region.spec_volume() <= limit,
{
    if let Ok(region) = region_argument(arguments, limit) {
        let dx = region.max.x - region.min.x + 1;
        let dy = region.max.y - region.min.y + 1;
        let dz = region.max.z - region.min.z + 1;
        assert(dx * dy * dz > 0) by (nonlinear_arith)
            requires
                dx > 0,
                dy > 0,
                dz > 0,
        ;
    }
}


} // verus!
