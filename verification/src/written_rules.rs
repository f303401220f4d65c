//! What stands in the texts of specs, plans and reports: every field, under its name.

use vstd::prelude::*;
use crate::block::{state_text, BlockPos};
use crate::build_plan::{
    conflict_views, operation_json, operations_json, plan_json, texts, BuildOperation, BuildPlan,
    ConflictView, PlanPosition,
};
use crate::build_service::{
    bounds_json, conflict_json, conflicts_json, position_json, report_json, strings_json,
    BuildValidationReport,
};
use crate::json::{json_string, number_json};
use crate::sculpt_json::{
    animation_json, animations_json, collision_box_json, collision_boxes_json, collision_json,
    material_json, materials_json, node_json, node_place_json, node_shape_json, nodes_json,
    optional_count_json, optional_number_json, optional_numbers_json, optional_repeat_json,
    optional_string_json, repeat_json, spec_json, vector_json,
};
use crate::sculpt_spec::{
    SculptAnimation, SculptCollision, SculptCollisionBox, SculptMaterial, SculptNode, SculptRepeat,
    SculptSpec,
};
use crate::text::{decimal, decimal_nat};
use crate::text_rules::stands_between;
use crate::world_command::WorldCommandError;

verus! {

/// True iff the part stands somewhere in the text.
pub open spec fn writes(text: Seq<char>, part: Seq<char>) -> bool {
    exists|head: Seq<char>, tail: Seq<char>| #[trigger] stands_between(text, head, part, tail)
}

proof fn regroup(p: Seq<char>, q: Seq<char>, s: Seq<char>)
    ensures
        p + q + s == p + (q + s),
{
    assert(p + q + s =~= p + (q + s));
}

/// Two pieces that follow one another stand in the text.
proof fn pair_is_written(
    text: Seq<char>,
    head: Seq<char>,
    key: Seq<char>,
    value: Seq<char>,
    tail: Seq<char>,
)
    requires
        text == head + key + value + tail,
    ensures
        writes(text, key + value),
{
    regroup(head, key, value);
    assert(stands_between(text, head, key + value, tail));
}

/// What stands in a part of a text stands in the text.
pub proof fn parts_of_parts_are_written(text: Seq<char>, part: Seq<char>, inner: Seq<char>)
    requires
        writes(text, part),
        writes(part, inner),
    ensures
        writes(text, inner),
{
    let (a, b) = choose|head: Seq<char>, tail: Seq<char>| #[trigger]
        stands_between(text, head, part, tail);
    let (c, d) = choose|head: Seq<char>, tail: Seq<char>| #[trigger]
        stands_between(part, head, inner, tail);
    assert(text =~= (a + c) + inner + (d + b));
    assert(stands_between(text, a + c, inner, d + b));
}

proof fn ends_are_written(a: Seq<char>, b: Seq<char>)
    ensures
        writes(a + b, a),
        writes(a + b, b),
        writes(a, a),
{
    let none = Seq::<char>::empty();
    assert(a + b =~= none + a + b);
    assert(stands_between(a + b, none, a, b));
    assert(a + b =~= a + b + none);
    assert(stands_between(a + b, a, b, none));
    assert(a =~= none + a + none);
    assert(stands_between(a, none, a, none));
}

/// The text of a material has every field of it, under its name.
pub proof fn material_text_has_every_field(material: SculptMaterial)
    ensures
        writes(material_json(material), "{\"id\":"@ + json_string(material.id@)),
        writes(material_json(material), ",\"base_color\":"@ + json_string(material.base_color@)),
        writes(material_json(material), ",\"emissive_color\":"@ + json_string(material.emissive_color@)),
        writes(material_json(material), ",\"metalness\":"@ + number_json(material.metalness)),
        writes(material_json(material), ",\"roughness\":"@ + number_json(material.roughness)),
        writes(material_json(material), ",\"opacity\":"@ + number_json(material.opacity)),
{
    let p0 = "{\"id\":"@;
    let p1 = json_string(material.id@);
    let p2 = ",\"base_color\":"@;
    let p3 = json_string(material.base_color@);
    let p4 = ",\"emissive_color\":"@;
    let p5 = json_string(material.emissive_color@);
    let p6 = ",\"metalness\":"@;
    let p7 = number_json(material.metalness);
    let p8 = ",\"roughness\":"@;
    let p9 = number_json(material.roughness);
    let p10 = ",\"opacity\":"@;
    let p11 = number_json(material.opacity);
    let p12 = "}"@;
    let l0 = p0;
    let l1 = l0 + p1;
    let l2 = l1 + p2;
    let l3 = l2 + p3;
    let l4 = l3 + p4;
    let l5 = l4 + p5;
    let l6 = l5 + p6;
    let l7 = l6 + p7;
    let l8 = l7 + p8;
    let l9 = l8 + p9;
    let l10 = l9 + p10;
    let l11 = l10 + p11;
    let l12 = l11 + p12;
    assert(material_json(material) == l12);
    let none = Seq::<char>::empty();
    let r13 = none;
    let r12 = p12 + r13;
    let r11 = p11 + r12;
    let r10 = p10 + r11;
    let r9 = p9 + r10;
    let r8 = p8 + r9;
    let r7 = p7 + r8;
    let r6 = p6 + r7;
    let r5 = p5 + r6;
    let r4 = p4 + r5;
    let r3 = p3 + r4;
    let r2 = p2 + r3;
    let r1 = p1 + r2;
    assert(l12 + none =~= l12);
    regroup(l11, p12, r13);
    regroup(l10, p11, r12);
    regroup(l9, p10, r11);
    regroup(l8, p9, r10);
    regroup(l7, p8, r9);
    regroup(l6, p7, r8);
    regroup(l5, p6, r7);
    regroup(l4, p5, r6);
    regroup(l3, p4, r5);
    regroup(l2, p3, r4);
    regroup(l1, p2, r3);
    regroup(l0, p1, r2);
    assert(none + p0 =~= p0);
    pair_is_written(l12, none, p0, p1, r2);
    pair_is_written(l12, l1, p2, p3, r4);
    pair_is_written(l12, l3, p4, p5, r6);
    pair_is_written(l12, l5, p6, p7, r8);
    pair_is_written(l12, l7, p8, p9, r10);
    pair_is_written(l12, l9, p10, p11, r12);
}

/// The text of a repetition has its count and its offset.
pub proof fn repeat_text_has_every_field(repeat: SculptRepeat)
    ensures
        writes(repeat_json(repeat), "{\"count\":"@ + decimal_nat(repeat.count as nat)),
        writes(repeat_json(repeat), ",\"offset\":"@ + vector_json(repeat.offset@)),
{
    let p0 = "{\"count\":"@;
    let p1 = decimal_nat(repeat.count as nat);
    let p2 = ",\"offset\":"@;
    let p3 = vector_json(repeat.offset@);
    let p4 = "}"@;
    let l0 = p0;
    let l1 = l0 + p1;
    let l2 = l1 + p2;
    let l3 = l2 + p3;
    let l4 = l3 + p4;
    assert(repeat_json(repeat) == l4);
    let none = Seq::<char>::empty();
    let r5 = none;
    let r4 = p4 + r5;
    let r3 = p3 + r4;
    let r2 = p2 + r3;
    let r1 = p1 + r2;
    assert(l4 + none =~= l4);
    regroup(l3, p4, r5);
    regroup(l2, p3, r4);
    regroup(l1, p2, r3);
    regroup(l0, p1, r2);
    assert(none + p0 =~= p0);
    pair_is_written(l4, none, p0, p1, r2);
    pair_is_written(l4, l1, p2, p3, r4);
}

/// The first part of a node's text has what the node is and where it stands.
pub proof fn place_text_has_every_field(node: SculptNode)
    ensures
        writes(node_place_json(node), "{\"id\":"@ + json_string(node.id@)),
        writes(node_place_json(node), ",\"parent\":"@ + optional_string_json(node.parent)),
        writes(node_place_json(node), ",\"kind\":"@ + json_string(node.kind@)),
        writes(node_place_json(node), ",\"material\":"@ + optional_string_json(node.material)),
        writes(node_place_json(node), ",\"position\":"@ + vector_json(node.position@)),
        writes(node_place_json(node), ",\"rotation_degrees\":"@ + vector_json(node.rotation_degrees@)),
        writes(node_place_json(node), ",\"scale\":"@ + vector_json(node.scale@)),
{
    let p0 = "{\"id\":"@;
    let p1 = json_string(node.id@);
    let p2 = ",\"parent\":"@;
    let p3 = optional_string_json(node.parent);
    let p4 = ",\"kind\":"@;
    let p5 = json_string(node.kind@);
    let p6 = ",\"material\":"@;
    let p7 = optional_string_json(node.material);
    let p8 = ",\"position\":"@;
    let p9 = vector_json(node.position@);
    let p10 = ",\"rotation_degrees\":"@;
    let p11 = vector_json(node.rotation_degrees@);
    let p12 = ",\"scale\":"@;
    let p13 = vector_json(node.scale@);
    let l0 = p0;
    let l1 = l0 + p1;
    let l2 = l1 + p2;
    let l3 = l2 + p3;
    let l4 = l3 + p4;
    let l5 = l4 + p5;
    let l6 = l5 + p6;
    let l7 = l6 + p7;
    let l8 = l7 + p8;
    let l9 = l8 + p9;
    let l10 = l9 + p10;
    let l11 = l10 + p11;
    let l12 = l11 + p12;
    let l13 = l12 + p13;
    assert(node_place_json(node) == l13);
    let none = Seq::<char>::empty();
    let r14 = none;
    let r13 = p13 + r14;
    let r12 = p12 + r13;
    let r11 = p11 + r12;
    let r10 = p10 + r11;
    let r9 = p9 + r10;
    let r8 = p8 + r9;
    let r7 = p7 + r8;
    let r6 = p6 + r7;
    let r5 = p5 + r6;
    let r4 = p4 + r5;
    let r3 = p3 + r4;
    let r2 = p2 + r3;
    let r1 = p1 + r2;
    assert(l13 + none =~= l13);
    regroup(l12, p13, r14);
    regroup(l11, p12, r13);
    regroup(l10, p11, r12);
    regroup(l9, p10, r11);
    regroup(l8, p9, r10);
    regroup(l7, p8, r9);
    regroup(l6, p7, r8);
    regroup(l5, p6, r7);
    regroup(l4, p5, r6);
    regroup(l3, p4, r5);
    regroup(l2, p3, r4);
    regroup(l1, p2, r3);
    regroup(l0, p1, r2);
    assert(none + p0 =~= p0);
    pair_is_written(l13, none, p0, p1, r2);
    pair_is_written(l13, l1, p2, p3, r4);
    pair_is_written(l13, l3, p4, p5, r6);
    pair_is_written(l13, l5, p6, p7, r8);
    pair_is_written(l13, l7, p8, p9, r10);
    pair_is_written(l13, l9, p10, p11, r12);
    pair_is_written(l13, l11, p12, p13, r14);
}

/// The second part of a node's text has the fields of its shape, and how it is repeated.
pub proof fn shape_text_has_every_field(node: SculptNode)
    ensures
        writes(node_shape_json(node), ",\"size\":"@ + optional_numbers_json(node.size)),
        writes(node_shape_json(node), ",\"radius\":"@ + optional_number_json(node.radius)),
        writes(node_shape_json(node), ",\"radius_top\":"@ + optional_number_json(node.radius_top)),
        writes(node_shape_json(node), ",\"radius_bottom\":"@ + optional_number_json(node.radius_bottom)),
        writes(node_shape_json(node), ",\"height\":"@ + optional_number_json(node.height)),
        writes(node_shape_json(node), ",\"segments\":"@ + optional_count_json(node.segments)),
        writes(node_shape_json(node), ",\"repeat\":"@ + optional_repeat_json(node.repeat)),
{
    let p0 = ",\"size\":"@;
    let p1 = optional_numbers_json(node.size);
    let p2 = ",\"radius\":"@;
    let p3 = optional_number_json(node.radius);
    let p4 = ",\"radius_top\":"@;
    let p5 = optional_number_json(node.radius_top);
    let p6 = ",\"radius_bottom\":"@;
    let p7 = optional_number_json(node.radius_bottom);
    let p8 = ",\"height\":"@;
    let p9 = optional_number_json(node.height);
    let p10 = ",\"segments\":"@;
    let p11 = optional_count_json(node.segments);
    let p12 = ",\"repeat\":"@;
    let p13 = optional_repeat_json(node.repeat);
    let l0 = p0;
    let l1 = l0 + p1;
    let l2 = l1 + p2;
    let l3 = l2 + p3;
    let l4 = l3 + p4;
    let l5 = l4 + p5;
    let l6 = l5 + p6;
    let l7 = l6 + p7;
    let l8 = l7 + p8;
    let l9 = l8 + p9;
    let l10 = l9 + p10;
    let l11 = l10 + p11;
    let l12 = l11 + p12;
    let l13 = l12 + p13;
    assert(node_shape_json(node) == l13);
    let none = Seq::<char>::empty();
    let r14 = none;
    let r13 = p13 + r14;
    let r12 = p12 + r13;
    let r11 = p11 + r12;
    let r10 = p10 + r11;
    let r9 = p9 + r10;
    let r8 = p8 + r9;
    let r7 = p7 + r8;
    let r6 = p6 + r7;
    let r5 = p5 + r6;
    let r4 = p4 + r5;
    let r3 = p3 + r4;
    let r2 = p2 + r3;
    let r1 = p1 + r2;
    assert(l13 + none =~= l13);
    regroup(l12, p13, r14);
    regroup(l11, p12, r13);
    regroup(l10, p11, r12);
    regroup(l9, p10, r11);
    regroup(l8, p9, r10);
    regroup(l7, p8, r9);
    regroup(l6, p7, r8);
    regroup(l5, p6, r7);
    regroup(l4, p5, r6);
    regroup(l3, p4, r5);
    regroup(l2, p3, r4);
    regroup(l1, p2, r3);
    regroup(l0, p1, r2);
    assert(none + p0 =~= p0);
    pair_is_written(l13, none, p0, p1, r2);
    pair_is_written(l13, l1, p2, p3, r4);
    pair_is_written(l13, l3, p4, p5, r6);
    pair_is_written(l13, l5, p6, p7, r8);
    pair_is_written(l13, l7, p8, p9, r10);
    pair_is_written(l13, l9, p10, p11, r12);
    pair_is_written(l13, l11, p12, p13, r14);
}

/// The text of a box has its center and its size.
pub proof fn box_text_has_every_field(item: SculptCollisionBox)
    ensures
        writes(collision_box_json(item), "{\"center\":"@ + vector_json(item.center@)),
        writes(collision_box_json(item), ",\"size\":"@ + vector_json(item.size@)),
{
    let p0 = "{\"center\":"@;
    let p1 = vector_json(item.center@);
    let p2 = ",\"size\":"@;
    let p3 = vector_json(item.size@);
    let p4 = "}"@;
    let l0 = p0;
    let l1 = l0 + p1;
    let l2 = l1 + p2;
    let l3 = l2 + p3;
    let l4 = l3 + p4;
    assert(collision_box_json(item) == l4);
    let none = Seq::<char>::empty();
    let r5 = none;
    let r4 = p4 + r5;
    let r3 = p3 + r4;
    let r2 = p2 + r3;
    let r1 = p1 + r2;
    assert(l4 + none =~= l4);
    regroup(l3, p4, r5);
    regroup(l2, p3, r4);
    regroup(l1, p2, r3);
    regroup(l0, p1, r2);
    assert(none + p0 =~= p0);
    pair_is_written(l4, none, p0, p1, r2);
    pair_is_written(l4, l1, p2, p3, r4);
}

/// The text of an animation has every field of it, under its name.
pub proof fn animation_text_has_every_field(animation: SculptAnimation)
    ensures
        writes(animation_json(animation), "{\"node\":"@ + json_string(animation.node@)),
        writes(animation_json(animation), ",\"kind\":"@ + json_string(animation.kind@)),
        writes(animation_json(animation), ",\"axis\":"@ + json_string(animation.axis@)),
        writes(animation_json(animation), ",\"speed\":"@ + number_json(animation.speed)),
        writes(animation_json(animation), ",\"amplitude\":"@ + number_json(animation.amplitude)),
{
    let p0 = "{\"node\":"@;
    let p1 = json_string(animation.node@);
    let p2 = ",\"kind\":"@;
    let p3 = json_string(animation.kind@);
    let p4 = ",\"axis\":"@;
    let p5 = json_string(animation.axis@);
    let p6 = ",\"speed\":"@;
    let p7 = number_json(animation.speed);
    let p8 = ",\"amplitude\":"@;
    let p9 = number_json(animation.amplitude);
    let p10 = "}"@;
    let l0 = p0;
    let l1 = l0 + p1;
    let l2 = l1 + p2;
    let l3 = l2 + p3;
    let l4 = l3 + p4;
    let l5 = l4 + p5;
    let l6 = l5 + p6;
    let l7 = l6 + p7;
    let l8 = l7 + p8;
    let l9 = l8 + p9;
    let l10 = l9 + p10;
    assert(animation_json(animation) == l10);
    let none = Seq::<char>::empty();
    let r11 = none;
    let r10 = p10 + r11;
    let r9 = p9 + r10;
    let r8 = p8 + r9;
    let r7 = p7 + r8;
    let r6 = p6 + r7;
    let r5 = p5 + r6;
    let r4 = p4 + r5;
    let r3 = p3 + r4;
    let r2 = p2 + r3;
    let r1 = p1 + r2;
    assert(l10 + none =~= l10);
    regroup(l9, p10, r11);
    regroup(l8, p9, r10);
    regroup(l7, p8, r9);
    regroup(l6, p7, r8);
    regroup(l5, p6, r7);
    regroup(l4, p5, r6);
    regroup(l3, p4, r5);
    regroup(l2, p3, r4);
    regroup(l1, p2, r3);
    regroup(l0, p1, r2);
    assert(none + p0 =~= p0);
    pair_is_written(l10, none, p0, p1, r2);
    pair_is_written(l10, l1, p2, p3, r4);
    pair_is_written(l10, l3, p4, p5, r6);
    pair_is_written(l10, l5, p6, p7, r8);
    pair_is_written(l10, l7, p8, p9, r10);
}

/// The text of a collision has its mode and its boxes.
pub proof fn collision_text_has_every_field(collision: SculptCollision)
    ensures
        writes(collision_json(collision), "{\"mode\":"@ + json_string(collision.mode@)),
        writes(collision_json(collision), ",\"boxes\":["@ + collision_boxes_json(collision.boxes@, collision.boxes@.len())),
{
    let p0 = "{\"mode\":"@;
    let p1 = json_string(collision.mode@);
    let p2 = ",\"boxes\":["@;
    let p3 = collision_boxes_json(collision.boxes@, collision.boxes@.len());
    let p4 = "]}"@;
    let l0 = p0;
    let l1 = l0 + p1;
    let l2 = l1 + p2;
    let l3 = l2 + p3;
    let l4 = l3 + p4;
    assert(collision_json(collision) == l4);
    let none = Seq::<char>::empty();
    let r5 = none;
    let r4 = p4 + r5;
    let r3 = p3 + r4;
    let r2 = p2 + r3;
    let r1 = p1 + r2;
    assert(l4 + none =~= l4);
    regroup(l3, p4, r5);
    regroup(l2, p3, r4);
    regroup(l1, p2, r3);
    regroup(l0, p1, r2);
    assert(none + p0 =~= p0);
    pair_is_written(l4, none, p0, p1, r2);
    pair_is_written(l4, l1, p2, p3, r4);
}

/// The text of a spec has every field of it, under its name.
pub proof fn spec_text_has_every_field(spec: SculptSpec)
    ensures
        writes(spec_json(spec), "{\"schema_version\":"@ + decimal_nat(spec.schema_version as nat)),
        writes(spec_json(spec), ",\"asset_id\":"@ + json_string(spec.asset_id@)),
        writes(spec_json(spec), ",\"version\":"@ + decimal_nat(spec.version as nat)),
        writes(spec_json(spec), ",\"name\":"@ + json_string(spec.name@)),
        writes(spec_json(spec), ",\"materials\":["@ + materials_json(spec.materials@, spec.materials@.len())),
        writes(spec_json(spec), "],\"nodes\":["@ + nodes_json(spec.nodes@, spec.nodes@.len())),
        writes(spec_json(spec), "],\"collision\":"@ + collision_json(spec.collision)),
        writes(spec_json(spec), ",\"lod\":{\"max_distance\":"@ + number_json(spec.lod.max_distance)),
        writes(spec_json(spec), "},\"animations\":["@ + animations_json(spec.animations@, spec.animations@.len())),
{
    let p0 = "{\"schema_version\":"@;
    let p1 = decimal_nat(spec.schema_version as nat);
    let p2 = ",\"asset_id\":"@;
    let p3 = json_string(spec.asset_id@);
    let p4 = ",\"version\":"@;
    let p5 = decimal_nat(spec.version as nat);
    let p6 = ",\"name\":"@;
    let p7 = json_string(spec.name@);
    let p8 = ",\"materials\":["@;
    let p9 = materials_json(spec.materials@, spec.materials@.len());
    let p10 = "],\"nodes\":["@;
    let p11 = nodes_json(spec.nodes@, spec.nodes@.len());
    let p12 = "],\"collision\":"@;
    let p13 = collision_json(spec.collision);
    let p14 = ",\"lod\":{\"max_distance\":"@;
    let p15 = number_json(spec.lod.max_distance);
    let p16 = "},\"animations\":["@;
    let p17 = animations_json(spec.animations@, spec.animations@.len());
    let p18 = "]}"@;
    let l0 = p0;
    let l1 = l0 + p1;
    let l2 = l1 + p2;
    let l3 = l2 + p3;
    let l4 = l3 + p4;
    let l5 = l4 + p5;
    let l6 = l5 + p6;
    let l7 = l6 + p7;
    let l8 = l7 + p8;
    let l9 = l8 + p9;
    let l10 = l9 + p10;
    let l11 = l10 + p11;
    let l12 = l11 + p12;
    let l13 = l12 + p13;
    let l14 = l13 + p14;
    let l15 = l14 + p15;
    let l16 = l15 + p16;
    let l17 = l16 + p17;
    let l18 = l17 + p18;
    assert(spec_json(spec) == l18);
    let none = Seq::<char>::empty();
    let r19 = none;
    let r18 = p18 + r19;
    let r17 = p17 + r18;
    let r16 = p16 + r17;
    let r15 = p15 + r16;
    let r14 = p14 + r15;
    let r13 = p13 + r14;
    let r12 = p12 + r13;
    let r11 = p11 + r12;
    let r10 = p10 + r11;
    let r9 = p9 + r10;
    let r8 = p8 + r9;
    let r7 = p7 + r8;
    let r6 = p6 + r7;
    let r5 = p5 + r6;
    let r4 = p4 + r5;
    let r3 = p3 + r4;
    let r2 = p2 + r3;
    let r1 = p1 + r2;
    assert(l18 + none =~= l18);
    regroup(l17, p18, r19);
    regroup(l16, p17, r18);
    regroup(l15, p16, r17);
    regroup(l14, p15, r16);
    regroup(l13, p14, r15);
    regroup(l12, p13, r14);
    regroup(l11, p12, r13);
    regroup(l10, p11, r12);
    regroup(l9, p10, r11);
    regroup(l8, p9, r10);
    regroup(l7, p8, r9);
    regroup(l6, p7, r8);
    regroup(l5, p6, r7);
    regroup(l4, p5, r6);
    regroup(l3, p4, r5);
    regroup(l2, p3, r4);
    regroup(l1, p2, r3);
    regroup(l0, p1, r2);
    assert(none + p0 =~= p0);
    pair_is_written(l18, none, p0, p1, r2);
    pair_is_written(l18, l1, p2, p3, r4);
    pair_is_written(l18, l3, p4, p5, r6);
    pair_is_written(l18, l5, p6, p7, r8);
    pair_is_written(l18, l7, p8, p9, r10);
    pair_is_written(l18, l9, p10, p11, r12);
    pair_is_written(l18, l11, p12, p13, r14);
    pair_is_written(l18, l13, p14, p15, r16);
    pair_is_written(l18, l15, p16, p17, r18);
}

/// The text of a plan has every field of it, under its name.
pub proof fn plan_text_has_every_field(plan: BuildPlan)
    ensures
        writes(plan_json(plan), "{\"schema_version\":"@ + decimal_nat(plan.schema_version as nat)),
        writes(plan_json(plan), ",\"idempotency_key\":"@ + json_string(plan.idempotency_key@)),
        writes(plan_json(plan), ",\"anchor\":{\"x\":"@ + decimal(plan.anchor.x as int)),
        writes(plan_json(plan), ",\"y\":"@ + decimal(plan.anchor.y as int)),
        writes(plan_json(plan), ",\"z\":"@ + decimal(plan.anchor.z as int)),
        writes(plan_json(plan), "},\"replace_mode\":"@ + json_string(plan.replace_mode@)),
        writes(plan_json(plan), ",\"operations\":["@ + operations_json(plan.operations@, plan.operations@.len())),
{
    let p0 = "{\"schema_version\":"@;
    let p1 = decimal_nat(plan.schema_version as nat);
    let p2 = ",\"idempotency_key\":"@;
    let p3 = json_string(plan.idempotency_key@);
    let p4 = ",\"anchor\":{\"x\":"@;
    let p5 = decimal(plan.anchor.x as int);
    let p6 = ",\"y\":"@;
    let p7 = decimal(plan.anchor.y as int);
    let p8 = ",\"z\":"@;
    let p9 = decimal(plan.anchor.z as int);
    let p10 = "},\"replace_mode\":"@;
    let p11 = json_string(plan.replace_mode@);
    let p12 = ",\"operations\":["@;
    let p13 = operations_json(plan.operations@, plan.operations@.len());
    let p14 = "]}"@;
    let l0 = p0;
    let l1 = l0 + p1;
    let l2 = l1 + p2;
    let l3 = l2 + p3;
    let l4 = l3 + p4;
    let l5 = l4 + p5;
    let l6 = l5 + p6;
    let l7 = l6 + p7;
    let l8 = l7 + p8;
    let l9 = l8 + p9;
    let l10 = l9 + p10;
    let l11 = l10 + p11;
    let l12 = l11 + p12;
    let l13 = l12 + p13;
    let l14 = l13 + p14;
    assert(plan_json(plan) == l14);
    let none = Seq::<char>::empty();
    let r15 = none;
    let r14 = p14 + r15;
    let r13 = p13 + r14;
    let r12 = p12 + r13;
    let r11 = p11 + r12;
    let r10 = p10 + r11;
    let r9 = p9 + r10;
    let r8 = p8 + r9;
    let r7 = p7 + r8;
    let r6 = p6 + r7;
    let r5 = p5 + r6;
    let r4 = p4 + r5;
    let r3 = p3 + r4;
    let r2 = p2 + r3;
    let r1 = p1 + r2;
    assert(l14 + none =~= l14);
    regroup(l13, p14, r15);
    regroup(l12, p13, r14);
    regroup(l11, p12, r13);
    regroup(l10, p11, r12);
    regroup(l9, p10, r11);
    regroup(l8, p9, r10);
    regroup(l7, p8, r9);
    regroup(l6, p7, r8);
    regroup(l5, p6, r7);
    regroup(l4, p5, r6);
    regroup(l3, p4, r5);
    regroup(l2, p3, r4);
    regroup(l1, p2, r3);
    regroup(l0, p1, r2);
    assert(none + p0 =~= p0);
    pair_is_written(l14, none, p0, p1, r2);
    pair_is_written(l14, l1, p2, p3, r4);
    pair_is_written(l14, l3, p4, p5, r6);
    pair_is_written(l14, l5, p6, p7, r8);
    pair_is_written(l14, l7, p8, p9, r10);
    pair_is_written(l14, l9, p10, p11, r12);
    pair_is_written(l14, l11, p12, p13, r14);
}

/// The text of a position has its three coordinates.
pub proof fn position_text_has_every_field(p: PlanPosition)
    ensures
        writes(position_json(p), "{\"x\":"@ + decimal(p.x as int)),
        writes(position_json(p), ",\"y\":"@ + decimal(p.y as int)),
        writes(position_json(p), ",\"z\":"@ + decimal(p.z as int)),
{
    let p0 = "{\"x\":"@;
    let p1 = decimal(p.x as int);
    let p2 = ",\"y\":"@;
    let p3 = decimal(p.y as int);
    let p4 = ",\"z\":"@;
    let p5 = decimal(p.z as int);
    let p6 = "}"@;
    let l0 = p0;
    let l1 = l0 + p1;
    let l2 = l1 + p2;
    let l3 = l2 + p3;
    let l4 = l3 + p4;
    let l5 = l4 + p5;
    let l6 = l5 + p6;
    assert(position_json(p) == l6);
    let none = Seq::<char>::empty();
    let r7 = none;
    let r6 = p6 + r7;
    let r5 = p5 + r6;
    let r4 = p4 + r5;
    let r3 = p3 + r4;
    let r2 = p2 + r3;
    let r1 = p1 + r2;
    assert(l6 + none =~= l6);
    regroup(l5, p6, r7);
    regroup(l4, p5, r6);
    regroup(l3, p4, r5);
    regroup(l2, p3, r4);
    regroup(l1, p2, r3);
    regroup(l0, p1, r2);
    assert(none + p0 =~= p0);
    pair_is_written(l6, none, p0, p1, r2);
    pair_is_written(l6, l1, p2, p3, r4);
    pair_is_written(l6, l3, p4, p5, r6);
}

/// The text of a conflict has its code and its message, and its operation and its position where
/// it has these.
pub proof fn conflict_text_has_every_field(conflict: ConflictView)
    ensures
        writes(conflict_json(conflict), "{\"code\":"@ + json_string(conflict.code)),
        writes(conflict_json(conflict), ",\"message\":"@ + json_string(conflict.message)),
        conflict.operation_index matches Some(i) ==> writes(
            conflict_json(conflict),
            ",\"operation_index\":"@ + decimal_nat(i as nat),
        ),
        conflict.position matches Some(p) ==> writes(
            conflict_json(conflict),
            ",\"position\":"@ + position_json(p),
        ),
{
    let p0 = "{\"code\":"@;
    let p1 = json_string(conflict.code);
    let p2 = ",\"message\":"@;
    let p3 = json_string(conflict.message);
    let p4 = match conflict.operation_index {
        Some(i) => ",\"operation_index\":"@ + decimal_nat(i as nat),
        None => seq![],
    };
    let p5 = match conflict.position {
        Some(p) => ",\"position\":"@ + position_json(p),
        None => seq![],
    };
    let p6 = "}"@;
    let l0 = p0;
    let l1 = l0 + p1;
    let l2 = l1 + p2;
    let l3 = l2 + p3;
    let l4 = l3 + p4;
    let l5 = l4 + p5;
    let l6 = l5 + p6;
    assert(conflict_json(conflict) == l6);
    let none = Seq::<char>::empty();
    let r7 = none;
    let r6 = p6 + r7;
    let r5 = p5 + r6;
    let r4 = p4 + r5;
    let r3 = p3 + r4;
    let r2 = p2 + r3;
    let r1 = p1 + r2;
    assert(l6 + none =~= l6);
    regroup(l5, p6, r7);
    regroup(l4, p5, r6);
    regroup(l3, p4, r5);
    regroup(l2, p3, r4);
    regroup(l1, p2, r3);
    regroup(l0, p1, r2);
    assert(none + p0 =~= p0);
    pair_is_written(l6, none, p0, p1, r2);
    pair_is_written(l6, l1, p2, p3, r4);
    assert(stands_between(l6, l3, p4, r5));
    assert(stands_between(l6, l4, p5, r6));
}

/// The text of a report says whether the plan is valid, and has every other field of it, under its
/// name.
pub proof fn report_text_has_every_field(report: BuildValidationReport)
    ensures
        writes(report_json(report), (if report.valid {
        "{\"valid\":true,\"plan_hash\":"@
    } else {
        "{\"valid\":false,\"plan_hash\":"@
    }) + json_string(report.plan_hash@)),
        writes(report_json(report), ",\"expanded_targets\":"@ + decimal_nat(report.expanded_targets as nat)),
        writes(report_json(report), ",\"bounds\":"@ + bounds_json(report.bounds)),
        writes(report_json(report), ",\"conflicts\":["@ + conflicts_json(
        conflict_views(report.conflicts@),
        conflict_views(report.conflicts@).len() as int,
    )),
        writes(report_json(report), "],\"warnings\":["@ + strings_json(texts(report.warnings@), texts(report.warnings@).len() as int)),
{
    let p0 = if report.valid {
        "{\"valid\":true,\"plan_hash\":"@
    } else {
        "{\"valid\":false,\"plan_hash\":"@
    };
    let p1 = json_string(report.plan_hash@);
    let p2 = ",\"expanded_targets\":"@;
    let p3 = decimal_nat(report.expanded_targets as nat);
    let p4 = ",\"bounds\":"@;
    let p5 = bounds_json(report.bounds);
    let p6 = ",\"conflicts\":["@;
    let p7 = conflicts_json(
        conflict_views(report.conflicts@),
        conflict_views(report.conflicts@).len() as int,
    );
    let p8 = "],\"warnings\":["@;
    let p9 = strings_json(texts(report.warnings@), texts(report.warnings@).len() as int);
    let p10 = "]}"@;
    let l0 = p0;
    let l1 = l0 + p1;
    let l2 = l1 + p2;
    let l3 = l2 + p3;
    let l4 = l3 + p4;
    let l5 = l4 + p5;
    let l6 = l5 + p6;
    let l7 = l6 + p7;
    let l8 = l7 + p8;
    let l9 = l8 + p9;
    let l10 = l9 + p10;
    assert(report_json(report) == l10);
    let none = Seq::<char>::empty();
    let r11 = none;
    let r10 = p10 + r11;
    let r9 = p9 + r10;
    let r8 = p8 + r9;
    let r7 = p7 + r8;
    let r6 = p6 + r7;
    let r5 = p5 + r6;
    let r4 = p4 + r5;
    let r3 = p3 + r4;
    let r2 = p2 + r3;
    let r1 = p1 + r2;
    assert(l10 + none =~= l10);
    regroup(l9, p10, r11);
    regroup(l8, p9, r10);
    regroup(l7, p8, r9);
    regroup(l6, p7, r8);
    regroup(l5, p6, r7);
    regroup(l4, p5, r6);
    regroup(l3, p4, r5);
    regroup(l2, p3, r4);
    regroup(l1, p2, r3);
    regroup(l0, p1, r2);
    assert(none + p0 =~= p0);
    pair_is_written(l10, none, p0, p1, r2);
    pair_is_written(l10, l1, p2, p3, r4);
    pair_is_written(l10, l3, p4, p5, r6);
    pair_is_written(l10, l5, p6, p7, r8);
    pair_is_written(l10, l7, p8, p9, r10);
}

proof fn material_is_in_the_list(items: Seq<SculptMaterial>, n: nat, i: int)
    requires
        0 <= i < n <= items.len(),
    ensures
        writes(materials_json(items, n), material_json(items[i])),
    decreases n,
{
    let own = material_json(items[i]);
    ends_are_written(own, own);
    if n > 1 {
        let rest = materials_json(items, (n - 1) as nat);
        let last = material_json(items[n - 1]);
        let head = rest + ","@;
        ends_are_written(head, last);
        if i < n - 1 {
            material_is_in_the_list(items, (n - 1) as nat, i);
            ends_are_written(rest, ","@);
            parts_of_parts_are_written(head, rest, own);
            parts_of_parts_are_written(head + last, head, own);
        }
    }
}

proof fn node_is_in_the_list(items: Seq<SculptNode>, n: nat, i: int)
    requires
        0 <= i < n <= items.len(),
    ensures
        writes(nodes_json(items, n), node_json(items[i])),
    decreases n,
{
    let own = node_json(items[i]);
    ends_are_written(own, own);
    if n > 1 {
        let rest = nodes_json(items, (n - 1) as nat);
        let last = node_json(items[n - 1]);
        let head = rest + ","@;
        ends_are_written(head, last);
        if i < n - 1 {
            node_is_in_the_list(items, (n - 1) as nat, i);
            ends_are_written(rest, ","@);
            parts_of_parts_are_written(head, rest, own);
            parts_of_parts_are_written(head + last, head, own);
        }
    }
}

proof fn box_is_in_the_list(items: Seq<SculptCollisionBox>, n: nat, i: int)
    requires
        0 <= i < n <= items.len(),
    ensures
        writes(collision_boxes_json(items, n), collision_box_json(items[i])),
    decreases n,
{
    let own = collision_box_json(items[i]);
    ends_are_written(own, own);
    if n > 1 {
        let rest = collision_boxes_json(items, (n - 1) as nat);
        let last = collision_box_json(items[n - 1]);
        let head = rest + ","@;
        ends_are_written(head, last);
        if i < n - 1 {
            box_is_in_the_list(items, (n - 1) as nat, i);
            ends_are_written(rest, ","@);
            parts_of_parts_are_written(head, rest, own);
            parts_of_parts_are_written(head + last, head, own);
        }
    }
}

proof fn animation_is_in_the_list(items: Seq<SculptAnimation>, n: nat, i: int)
    requires
        0 <= i < n <= items.len(),
    ensures
        writes(animations_json(items, n), animation_json(items[i])),
    decreases n,
{
    let own = animation_json(items[i]);
    ends_are_written(own, own);
    if n > 1 {
        let rest = animations_json(items, (n - 1) as nat);
        let last = animation_json(items[n - 1]);
        let head = rest + ","@;
        ends_are_written(head, last);
        if i < n - 1 {
            animation_is_in_the_list(items, (n - 1) as nat, i);
            ends_are_written(rest, ","@);
            parts_of_parts_are_written(head, rest, own);
            parts_of_parts_are_written(head + last, head, own);
        }
    }
}

proof fn operation_is_in_the_list(items: Seq<BuildOperation>, n: nat, i: int)
    requires
        0 <= i < n <= items.len(),
    ensures
        writes(operations_json(items, n), operation_json(items[i])),
    decreases n,
{
    let own = operation_json(items[i]);
    ends_are_written(own, own);
    if n > 1 {
        let rest = operations_json(items, (n - 1) as nat);
        let last = operation_json(items[n - 1]);
        let head = rest + ","@;
        ends_are_written(head, last);
        if i < n - 1 {
            operation_is_in_the_list(items, (n - 1) as nat, i);
            ends_are_written(rest, ","@);
            parts_of_parts_are_written(head, rest, own);
            parts_of_parts_are_written(head + last, head, own);
        }
    }
}

/// The text of a node has everything that its two parts have.
pub proof fn node_text_has_its_parts(node: SculptNode)
    ensures
        writes(node_json(node), node_place_json(node)),
        writes(node_json(node), node_shape_json(node)),
{
    let head = node_place_json(node) + node_shape_json(node);
    ends_are_written(head, "}"@);
    ends_are_written(node_place_json(node), node_shape_json(node));
    parts_of_parts_are_written(node_json(node), head, node_place_json(node));
    parts_of_parts_are_written(node_json(node), head, node_shape_json(node));
}

proof fn value_is_written(text: Seq<char>, key: Seq<char>, value: Seq<char>, part: Seq<char>)
    requires
        writes(text, key + value),
        writes(value, part),
    ensures
        writes(text, part),
{
    ends_are_written(key, value);
    parts_of_parts_are_written(key + value, value, part);
    parts_of_parts_are_written(text, key + value, part);
}

/// The text of a spec has the text of each material, node, box and animation of it.
pub proof fn spec_text_has_every_part(spec: SculptSpec)
    ensures
        forall|i: int|
            0 <= i < spec.materials@.len() ==> writes(
                spec_json(spec),
                material_json(#[trigger] spec.materials@[i]),
            ),
        forall|i: int|
            0 <= i < spec.nodes@.len() ==> writes(
                spec_json(spec),
                node_json(#[trigger] spec.nodes@[i]),
            ),
        forall|i: int|
            0 <= i < spec.collision.boxes@.len() ==> writes(
                spec_json(spec),
                collision_box_json(#[trigger] spec.collision.boxes@[i]),
            ),
        forall|i: int|
            0 <= i < spec.animations@.len() ==> writes(
                spec_json(spec),
                animation_json(#[trigger] spec.animations@[i]),
            ),
{
    spec_text_has_every_field(spec);
    collision_text_has_every_field(spec.collision);
    let text = spec_json(spec);
    assert forall|i: int| 0 <= i < spec.materials@.len() implies writes(
        text,
        material_json(#[trigger] spec.materials@[i]),
    ) by {
        material_is_in_the_list(spec.materials@, spec.materials@.len(), i);
        value_is_written(
            text,
            ",\"materials\":["@,
            materials_json(spec.materials@, spec.materials@.len()),
            material_json(spec.materials@[i]),
        );
    }
    assert forall|i: int| 0 <= i < spec.nodes@.len() implies writes(
        text,
        node_json(#[trigger] spec.nodes@[i]),
    ) by {
        node_is_in_the_list(spec.nodes@, spec.nodes@.len(), i);
        value_is_written(
            text,
            "],\"nodes\":["@,
            nodes_json(spec.nodes@, spec.nodes@.len()),
            node_json(spec.nodes@[i]),
        );
    }
    let boxes = spec.collision.boxes@;
    assert forall|i: int| 0 <= i < boxes.len() implies writes(
        text,
        collision_box_json(#[trigger] boxes[i]),
    ) by {
        box_is_in_the_list(boxes, boxes.len(), i);
        value_is_written(
            collision_json(spec.collision),
            ",\"boxes\":["@,
            collision_boxes_json(boxes, boxes.len()),
            collision_box_json(boxes[i]),
        );
        value_is_written(
            text,
            "],\"collision\":"@,
            collision_json(spec.collision),
            collision_box_json(boxes[i]),
        );
    }
    assert forall|i: int| 0 <= i < spec.animations@.len() implies writes(
        text,
        animation_json(#[trigger] spec.animations@[i]),
    ) by {
        animation_is_in_the_list(spec.animations@, spec.animations@.len(), i);
        value_is_written(
            text,
            "},\"animations\":["@,
            animations_json(spec.animations@, spec.animations@.len()),
            animation_json(spec.animations@[i]),
        );
    }
}

/// The text of a plan has the text of each operation of it.
pub proof fn plan_text_has_every_operation(plan: BuildPlan, i: int)
    requires
        0 <= i < plan.operations@.len(),
    ensures
        writes(plan_json(plan), operation_json(plan.operations@[i])),
{
    plan_text_has_every_field(plan);
    operation_is_in_the_list(plan.operations@, plan.operations@.len(), i);
    value_is_written(
        plan_json(plan),
        ",\"operations\":["@,
        operations_json(plan.operations@, plan.operations@.len()),
        operation_json(plan.operations@[i]),
    );
}

/// The position that a refusal is about, where it is about one, with the rule that was broken there.
pub open spec fn broken_rule(error: WorldCommandError) -> Option<(BlockPos, Seq<char>)> {
    match error {
        WorldCommandError::OutOfBounds { position } => Some((position, "outside bounds"@)),
        WorldCommandError::TargetNotEmpty { position, current } => Some(
            (position, "already contains"@),
        ),
        WorldCommandError::MissingPlacementAnchor { position } => Some(
            (position, "no placement anchor"@),
        ),
        WorldCommandError::CannotPlaceAgainstAir { position } => Some((position, "against air"@)),
        WorldCommandError::ProtectedSpawn { position } => Some((position, "protected spawn"@)),
        WorldCommandError::CannotRemoveAir { position } => Some((position, "already air"@)),
        WorldCommandError::CannotRemoveFoundation { position } => Some(
            (position, "protected foundation"@),
        ),
        WorldCommandError::MissingLoadedChunk { position } => Some((position, "no loaded chunk"@)),
        _ => None,
    }
}

proof fn position_and_rule_are_written(
    text: Seq<char>,
    head: Seq<char>,
    position: Seq<char>,
    gap: Seq<char>,
    rule: Seq<char>,
    tail: Seq<char>,
)
    requires
        text == head + position + (gap + rule + tail),
    ensures
        writes(text, position),
        writes(text, rule),
{
    assert(stands_between(text, head, position, gap + rule + tail));
    assert(text =~= (head + position + gap) + rule + tail);
    assert(stands_between(text, head + position + gap, rule, tail));
}

/// A refusal names the position that it is about, and the rule that was broken there.
#[verifier::spinoff_prover]
pub proof fn refusals_name_the_position_and_the_rule(error: WorldCommandError)
    ensures
        broken_rule(error) matches Some(broken) ==> writes(
            error.spec_message(),
            broken.0.spec_text(),
        ) && writes(error.spec_message(), broken.1),
{
    if let Some((position, rule)) = broken_rule(error) {
        let text = error.spec_message();
        let head = "position "@;
        let p = position.spec_text();
        let none = Seq::<char>::empty();
        match error {
            WorldCommandError::OutOfBounds { position } => {
                reveal_strlit(" is outside bounds");
                reveal_strlit("outside bounds");
                reveal_strlit(" is ");
                assert(" is outside bounds"@ =~= " is "@ + rule + none);
                position_and_rule_are_written(text, head, p, " is "@, rule, none);
            },
            WorldCommandError::TargetNotEmpty { position, current } => {
                reveal_strlit(" already contains ");
                reveal_strlit("already contains");
                reveal_strlit(" ");
                let block = state_text(current);
                assert(" already contains "@ =~= " "@ + rule + " "@);
                assert(text =~= head + p + (" "@ + rule + (" "@ + block)));
                position_and_rule_are_written(text, head, p, " "@, rule, " "@ + block);
            },
            WorldCommandError::MissingPlacementAnchor { position } => {
                reveal_strlit(" has no placement anchor");
                reveal_strlit("no placement anchor");
                reveal_strlit(" has ");
                assert(" has no placement anchor"@ =~= " has "@ + rule + none);
                position_and_rule_are_written(text, head, p, " has "@, rule, none);
            },
            WorldCommandError::CannotPlaceAgainstAir { position } => {
                reveal_strlit(" cannot be placed against air");
                reveal_strlit("against air");
                reveal_strlit(" cannot be placed ");
                assert(" cannot be placed against air"@ =~= " cannot be placed "@ + rule + none);
                position_and_rule_are_written(text, head, p, " cannot be placed "@, rule, none);
            },
            WorldCommandError::ProtectedSpawn { position } => {
                reveal_strlit(" is protected spawn space");
                reveal_strlit("protected spawn");
                reveal_strlit(" is ");
                reveal_strlit(" space");
                assert(" is protected spawn space"@ =~= " is "@ + rule + " space"@);
                position_and_rule_are_written(text, head, p, " is "@, rule, " space"@);
            },
            WorldCommandError::CannotRemoveAir { position } => {
                reveal_strlit(" is already air");
                reveal_strlit("already air");
                reveal_strlit(" is ");
                assert(" is already air"@ =~= " is "@ + rule + none);
                position_and_rule_are_written(text, head, p, " is "@, rule, none);
            },
            WorldCommandError::CannotRemoveFoundation { position } => {
                reveal_strlit(" is protected foundation");
                reveal_strlit("protected foundation");
                reveal_strlit(" is ");
                assert(" is protected foundation"@ =~= " is "@ + rule + none);
                position_and_rule_are_written(text, head, p, " is "@, rule, none);
            },
            WorldCommandError::MissingLoadedChunk { position } => {
                reveal_strlit(" has no loaded chunk");
                reveal_strlit("no loaded chunk");
                reveal_strlit(" has ");
                assert(" has no loaded chunk"@ =~= " has "@ + rule + none);
                position_and_rule_are_written(text, head, p, " has "@, rule, none);
            },
            _ => {},
        }
    }
}

} // verus!
