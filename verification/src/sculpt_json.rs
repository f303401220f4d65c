//! The canonical text of sculpt specs: compact JSON with the fields in one fixed order.

use vstd::prelude::*;
use vstd::string::StringExecFns;
use crate::json::{
    compact, float, json_string, json_string_text, normal, number_json, number_text, number_value,
    text, Fields, Items, Json, JsonView,
};
use crate::scalar::Scalar;
use crate::sculpt_spec::{
    SculptAnimation, SculptCollision, SculptCollisionBox, SculptMaterial, SculptNode, SculptRepeat,
    SculptSpec,
};
use crate::text::{decimal_nat, push_u64, text_less};

verus! {

// ---- numbers and strings ----

/// `[a,b,c]`.
pub open spec fn vector_json(v: Seq<Scalar>) -> Seq<char> {
    "["@ + number_json(v[0]) + ","@ + number_json(v[1]) + ","@ + number_json(v[2]) + "]"@
}

fn push_vector(out: &mut String, v: &[Scalar; 3])
    ensures
        final(out)@ == old(out)@ + vector_json(v@),
{
    let ghost start = out@;
    out.append("[");
    out.append(number_text(v[0]).as_str());
    out.append(",");
    out.append(number_text(v[1]).as_str());
    out.append(",");
    out.append(number_text(v[2]).as_str());
    out.append("]");
    proof {
        assert(out@ =~= start + vector_json(v@));
    }
}

/// The first `n` numbers, separated by commas.
pub open spec fn numbers_json(v: Seq<Scalar>, n: nat) -> Seq<char>
    decreases n,
{
    if n == 0 {
        seq![]
    } else if n == 1 {
        number_json(v[0])
    } else {
        numbers_json(v, (n - 1) as nat) + ","@ + number_json(v[n - 1])
    }
}

/// A number, or `null`.
pub open spec fn optional_number_json(value: Option<Scalar>) -> Seq<char> {
    match value {
        Some(value) => number_json(value),
        None => "null"@,
    }
}

fn push_optional_number(out: &mut String, value: &Option<Scalar>)
    ensures
        final(out)@ == old(out)@ + optional_number_json(*value),
{
    match value {
        Some(value) => out.append(number_text(*value).as_str()),
        None => out.append("null"),
    }
}

/// A list of numbers, or `null`.
pub open spec fn optional_numbers_json(value: Option<Vec<Scalar>>) -> Seq<char> {
    match value {
        Some(numbers) => "["@ + numbers_json(numbers@, numbers@.len()) + "]"@,
        None => "null"@,
    }
}

fn push_optional_numbers(out: &mut String, value: &Option<Vec<Scalar>>)
    ensures
        final(out)@ == old(out)@ + optional_numbers_json(*value),
{
    let ghost start = out@;
    match value {
        Some(numbers) => {
            out.append("[");
            let ghost head = out@;
            let mut i: usize = 0;
            while i < numbers.len()
                invariant
                    i <= numbers@.len(),
                    out@ =~= head + numbers_json(numbers@, i as nat),
                decreases numbers@.len() - i,
            {
                if i > 0 {
                    out.append(",");
                }
                out.append(number_text(numbers[i]).as_str());
                i = i + 1;
            }
            out.append("]");
            proof {
                assert(out@ =~= start + optional_numbers_json(*value));
            }
        },
        None => out.append("null"),
    }
}

/// A string literal, or `null`.
pub open spec fn optional_string_json(value: Option<String>) -> Seq<char> {
    match value {
        Some(value) => json_string(value@),
        None => "null"@,
    }
}

fn push_optional_string(out: &mut String, value: &Option<String>)
    ensures
        final(out)@ == old(out)@ + optional_string_json(*value),
{
    match value {
        Some(value) => out.append(json_string_text(value.as_str()).as_str()),
        None => out.append("null"),
    }
}

/// A whole number, or `null`.
pub open spec fn optional_count_json(value: Option<u32>) -> Seq<char> {
    match value {
        Some(value) => decimal_nat(value as nat),
        None => "null"@,
    }
}

fn push_optional_count(out: &mut String, value: &Option<u32>)
    ensures
        final(out)@ == old(out)@ + optional_count_json(*value),
{
    match value {
        Some(value) => push_u64(out, *value as u64),
        None => out.append("null"),
    }
}

// ---- the parts of a spec ----

/// A material.
pub open spec fn material_json(material: SculptMaterial) -> Seq<char> {
    "{\"id\":"@ + json_string(material.id@) + ",\"base_color\":"@
        + json_string(material.base_color@) + ",\"emissive_color\":"@
        + json_string(material.emissive_color@) + ",\"metalness\":"@
        + number_json(material.metalness) + ",\"roughness\":"@
        + number_json(material.roughness) + ",\"opacity\":"@ + number_json(material.opacity)
        + "}"@
}

fn push_material(out: &mut String, material: &SculptMaterial)
    ensures
        final(out)@ == old(out)@ + material_json(*material),
{
    let ghost start = out@;
    out.append("{\"id\":");
    out.append(json_string_text(material.id.as_str()).as_str());
    out.append(",\"base_color\":");
    out.append(json_string_text(material.base_color.as_str()).as_str());
    out.append(",\"emissive_color\":");
    out.append(json_string_text(material.emissive_color.as_str()).as_str());
    out.append(",\"metalness\":");
    out.append(number_text(material.metalness).as_str());
    out.append(",\"roughness\":");
    out.append(number_text(material.roughness).as_str());
    out.append(",\"opacity\":");
    out.append(number_text(material.opacity).as_str());
    out.append("}");
    proof {
        assert(out@ =~= start + material_json(*material));
    }
}

/// The first `n` materials, separated by commas.
pub open spec fn materials_json(materials: Seq<SculptMaterial>, n: nat) -> Seq<char>
    decreases n,
{
    if n == 0 {
        seq![]
    } else if n == 1 {
        material_json(materials[0])
    } else {
        materials_json(materials, (n - 1) as nat) + ","@ + material_json(materials[n - 1])
    }
}

fn push_materials(out: &mut String, materials: &Vec<SculptMaterial>)
    ensures
        final(out)@ == old(out)@ + materials_json(materials@, materials@.len()),
{
    let ghost start = out@;
    let mut i: usize = 0;
    while i < materials.len()
        invariant
            i <= materials@.len(),
            out@ =~= start + materials_json(materials@, i as nat),
        decreases materials@.len() - i,
    {
        if i > 0 {
            out.append(",");
        }
        push_material(out, &materials[i]);
        i = i + 1;
    }
}

/// A repetition.
pub open spec fn repeat_json(repeat: SculptRepeat) -> Seq<char> {
    "{\"count\":"@ + decimal_nat(repeat.count as nat) + ",\"offset\":"@
        + vector_json(repeat.offset@) + "}"@
}

fn push_repeat(out: &mut String, repeat: &SculptRepeat)
    ensures
        final(out)@ == old(out)@ + repeat_json(*repeat),
{
    let ghost start = out@;
    out.append("{\"count\":");
    push_u64(out, repeat.count as u64);
    out.append(",\"offset\":");
    push_vector(out, &repeat.offset);
    out.append("}");
    proof {
        assert(out@ =~= start + repeat_json(*repeat));
    }
}

/// A repetition, or `null`.
pub open spec fn optional_repeat_json(value: Option<SculptRepeat>) -> Seq<char> {
    match value {
        Some(repeat) => repeat_json(repeat),
        None => "null"@,
    }
}

fn push_optional_repeat(out: &mut String, value: &Option<SculptRepeat>)
    ensures
        final(out)@ == old(out)@ + optional_repeat_json(*value),
{
    match value {
        Some(repeat) => push_repeat(out, repeat),
        None => out.append("null"),
    }
}

/// The first members of a node: what it is, and where it stands.
pub open spec fn node_place_json(node: SculptNode) -> Seq<char> {
    "{\"id\":"@ + json_string(node.id@) + ",\"parent\":"@ + optional_string_json(node.parent)
        + ",\"kind\":"@ + json_string(node.kind@) + ",\"material\":"@
        + optional_string_json(node.material) + ",\"position\":"@ + vector_json(node.position@)
        + ",\"rotation_degrees\":"@ + vector_json(node.rotation_degrees@) + ",\"scale\":"@
        + vector_json(node.scale@)
}

fn push_node_place(out: &mut String, node: &SculptNode)
    ensures
        final(out)@ == old(out)@ + node_place_json(*node),
{
    let ghost start = out@;
    out.append("{\"id\":");
    out.append(json_string_text(node.id.as_str()).as_str());
    out.append(",\"parent\":");
    push_optional_string(out, &node.parent);
    out.append(",\"kind\":");
    out.append(json_string_text(node.kind.as_str()).as_str());
    out.append(",\"material\":");
    push_optional_string(out, &node.material);
    out.append(",\"position\":");
    push_vector(out, &node.position);
    out.append(",\"rotation_degrees\":");
    push_vector(out, &node.rotation_degrees);
    out.append(",\"scale\":");
    push_vector(out, &node.scale);
    proof {
        assert(out@ =~= start + node_place_json(*node));
    }
}

/// The other members of a node: its shape.
pub open spec fn node_shape_json(node: SculptNode) -> Seq<char> {
    ",\"size\":"@ + optional_numbers_json(node.size) + ",\"radius\":"@
        + optional_number_json(node.radius) + ",\"radius_top\":"@
        + optional_number_json(node.radius_top) + ",\"radius_bottom\":"@
        + optional_number_json(node.radius_bottom) + ",\"height\":"@
        + optional_number_json(node.height) + ",\"segments\":"@
        + optional_count_json(node.segments) + ",\"repeat\":"@
        + optional_repeat_json(node.repeat)
}

fn push_node_shape(out: &mut String, node: &SculptNode)
    ensures
        final(out)@ == old(out)@ + node_shape_json(*node),
{
    let ghost start = out@;
    out.append(",\"size\":");
    push_optional_numbers(out, &node.size);
    out.append(",\"radius\":");
    push_optional_number(out, &node.radius);
    out.append(",\"radius_top\":");
    push_optional_number(out, &node.radius_top);
    out.append(",\"radius_bottom\":");
    push_optional_number(out, &node.radius_bottom);
    out.append(",\"height\":");
    push_optional_number(out, &node.height);
    out.append(",\"segments\":");
    push_optional_count(out, &node.segments);
    out.append(",\"repeat\":");
    push_optional_repeat(out, &node.repeat);
    proof {
        assert(out@ =~= start + node_shape_json(*node));
    }
}

/// A node.
pub open spec fn node_json(node: SculptNode) -> Seq<char> {
    node_place_json(node) + node_shape_json(node) + "}"@
}

fn push_node(out: &mut String, node: &SculptNode)
    ensures
        final(out)@ == old(out)@ + node_json(*node),
{
    let ghost start = out@;
    push_node_place(out, node);
    push_node_shape(out, node);
    out.append("}");
    proof {
        assert(out@ =~= start + node_json(*node));
    }
}

/// The first `n` nodes, separated by commas.
pub open spec fn nodes_json(nodes: Seq<SculptNode>, n: nat) -> Seq<char>
    decreases n,
{
    if n == 0 {
        seq![]
    } else if n == 1 {
        node_json(nodes[0])
    } else {
        nodes_json(nodes, (n - 1) as nat) + ","@ + node_json(nodes[n - 1])
    }
}

fn push_nodes(out: &mut String, nodes: &Vec<SculptNode>)
    ensures
        final(out)@ == old(out)@ + nodes_json(nodes@, nodes@.len()),
{
    let ghost start = out@;
    let mut i: usize = 0;
    while i < nodes.len()
        invariant
            i <= nodes@.len(),
            out@ =~= start + nodes_json(nodes@, i as nat),
        decreases nodes@.len() - i,
    {
        if i > 0 {
            out.append(",");
        }
        push_node(out, &nodes[i]);
        i = i + 1;
    }
}

/// A box of a collision.
pub open spec fn collision_box_json(collision_box: SculptCollisionBox) -> Seq<char> {
    "{\"center\":"@ + vector_json(collision_box.center@) + ",\"size\":"@
        + vector_json(collision_box.size@) + "}"@
}

fn push_collision_box(out: &mut String, collision_box: &SculptCollisionBox)
    ensures
        final(out)@ == old(out)@ + collision_box_json(*collision_box),
{
    let ghost start = out@;
    out.append("{\"center\":");
    push_vector(out, &collision_box.center);
    out.append(",\"size\":");
    push_vector(out, &collision_box.size);
    out.append("}");
    proof {
        assert(out@ =~= start + collision_box_json(*collision_box));
    }
}

/// The first `n` boxes, separated by commas.
pub open spec fn collision_boxes_json(collision_boxes: Seq<SculptCollisionBox>, n: nat) -> Seq<char>
    decreases n,
{
    if n == 0 {
        seq![]
    } else if n == 1 {
        collision_box_json(collision_boxes[0])
    } else {
        collision_boxes_json(collision_boxes, (n - 1) as nat) + ","@ + collision_box_json(collision_boxes[n - 1])
    }
}

fn push_collision_boxes(out: &mut String, collision_boxes: &Vec<SculptCollisionBox>)
    ensures
        final(out)@ == old(out)@ + collision_boxes_json(collision_boxes@, collision_boxes@.len()),
{
    let ghost start = out@;
    let mut i: usize = 0;
    while i < collision_boxes.len()
        invariant
            i <= collision_boxes@.len(),
            out@ =~= start + collision_boxes_json(collision_boxes@, i as nat),
        decreases collision_boxes@.len() - i,
    {
        if i > 0 {
            out.append(",");
        }
        push_collision_box(out, &collision_boxes[i]);
        i = i + 1;
    }
}

/// An animation.
pub open spec fn animation_json(animation: SculptAnimation) -> Seq<char> {
    "{\"node\":"@ + json_string(animation.node@) + ",\"kind\":"@ + json_string(animation.kind@)
        + ",\"axis\":"@ + json_string(animation.axis@) + ",\"speed\":"@
        + number_json(animation.speed) + ",\"amplitude\":"@ + number_json(animation.amplitude)
        + "}"@
}

fn push_animation(out: &mut String, animation: &SculptAnimation)
    ensures
        final(out)@ == old(out)@ + animation_json(*animation),
{
    let ghost start = out@;
    out.append("{\"node\":");
    out.append(json_string_text(animation.node.as_str()).as_str());
    out.append(",\"kind\":");
    out.append(json_string_text(animation.kind.as_str()).as_str());
    out.append(",\"axis\":");
    out.append(json_string_text(animation.axis.as_str()).as_str());
    out.append(",\"speed\":");
    out.append(number_text(animation.speed).as_str());
    out.append(",\"amplitude\":");
    out.append(number_text(animation.amplitude).as_str());
    out.append("}");
    proof {
        assert(out@ =~= start + animation_json(*animation));
    }
}

/// The first `n` animations, separated by commas.
pub open spec fn animations_json(animations: Seq<SculptAnimation>, n: nat) -> Seq<char>
    decreases n,
{
    if n == 0 {
        seq![]
    } else if n == 1 {
        animation_json(animations[0])
    } else {
        animations_json(animations, (n - 1) as nat) + ","@ + animation_json(animations[n - 1])
    }
}

fn push_animations(out: &mut String, animations: &Vec<SculptAnimation>)
    ensures
        final(out)@ == old(out)@ + animations_json(animations@, animations@.len()),
{
    let ghost start = out@;
    let mut i: usize = 0;
    while i < animations.len()
        invariant
            i <= animations@.len(),
            out@ =~= start + animations_json(animations@, i as nat),
        decreases animations@.len() - i,
    {
        if i > 0 {
            out.append(",");
        }
        push_animation(out, &animations[i]);
        i = i + 1;
    }
}

/// A collision.
pub open spec fn collision_json(collision: SculptCollision) -> Seq<char> {
    "{\"mode\":"@ + json_string(collision.mode@) + ",\"boxes\":["@ + collision_boxes_json(
        collision.boxes@,
        collision.boxes@.len(),
    ) + "]}"@
}

fn push_collision(out: &mut String, collision: &SculptCollision)
    ensures
        final(out)@ == old(out)@ + collision_json(*collision),
{
    let ghost start = out@;
    out.append("{\"mode\":");
    out.append(json_string_text(collision.mode.as_str()).as_str());
    out.append(",\"boxes\":[");
    push_collision_boxes(out, &collision.boxes);
    out.append("]}");
    proof {
        assert(out@ =~= start + collision_json(*collision));
    }
}

// ---- the whole spec ----

/// The canonical JSON of a spec: compact, with the fields in one fixed order.
pub open spec fn spec_json(spec: SculptSpec) -> Seq<char> {
    "{\"schema_version\":"@ + decimal_nat(spec.schema_version as nat) + ",\"asset_id\":"@
        + json_string(spec.asset_id@) + ",\"version\":"@ + decimal_nat(spec.version as nat)
        + ",\"name\":"@ + json_string(spec.name@) + ",\"materials\":["@ + materials_json(
        spec.materials@,
        spec.materials@.len(),
    ) + "],\"nodes\":["@ + nodes_json(spec.nodes@, spec.nodes@.len()) + "],\"collision\":"@
        + collision_json(spec.collision) + ",\"lod\":{\"max_distance\":"@ + number_json(
        spec.lod.max_distance,
    ) + "},\"animations\":["@ + animations_json(spec.animations@, spec.animations@.len()) + "]}"@
}

/// The canonical JSON of a spec.
pub fn canonical_spec_json(spec: &SculptSpec) -> (r: String)
    ensures
        r@ == spec_json(*spec),
{
    let mut out = "{\"schema_version\":".to_owned();
    push_u64(&mut out, spec.schema_version as u64);
    out.append(",\"asset_id\":");
    out.append(json_string_text(spec.asset_id.as_str()).as_str());
    out.append(",\"version\":");
    push_u64(&mut out, spec.version as u64);
    out.append(",\"name\":");
    out.append(json_string_text(spec.name.as_str()).as_str());
    out.append(",\"materials\":[");
    push_materials(&mut out, &spec.materials);
    out.append("],\"nodes\":[");
    push_nodes(&mut out, &spec.nodes);
    out.append("],\"collision\":");
    push_collision(&mut out, &spec.collision);
    out.append(",\"lod\":{\"max_distance\":");
    out.append(number_text(spec.lod.max_distance).as_str());
    out.append("},\"animations\":[");
    push_animations(&mut out, &spec.animations);
    out.append("]}");
    proof {
        assert(out@ =~= spec_json(*spec));
    }
    out
}

// ---- collisions as values ----

/// A vector as a value.
pub open spec fn vector_value(v: Seq<Scalar>) -> JsonView {
    JsonView::Array(seq![number_value(v[0]), number_value(v[1]), number_value(v[2])])
}

fn vector(v: &[Scalar; 3]) -> (r: Json)
    ensures
        r@ == vector_value(v@),
{
    let r = Items::new().with(float(v[0])).with(float(v[1])).with(float(v[2])).array();
    proof {
        assert(r@->Array_0 =~= vector_value(v@)->Array_0);
    }
    r
}

/// A box as a value.
pub open spec fn box_value(collision_box: SculptCollisionBox) -> JsonView {
    JsonView::Object(
        seq![
            ("center"@, vector_value(collision_box.center@)),
            ("size"@, vector_value(collision_box.size@)),
        ],
    )
}

fn box_object(collision_box: &SculptCollisionBox) -> (r: Json)
    ensures
        r@ == box_value(*collision_box),
{
    let r = Fields::new()
        .with("center", vector(&collision_box.center))
        .with("size", vector(&collision_box.size))
        .object();
    proof {
        assert(r@->Object_0 =~= box_value(*collision_box)->Object_0);
    }
    r
}

/// The first `n` boxes as values.
pub open spec fn box_values(boxes: Seq<SculptCollisionBox>, n: nat) -> Seq<JsonView>
    decreases n,
{
    if n == 0 {
        seq![]
    } else {
        box_values(boxes, (n - 1) as nat).push(box_value(boxes[n - 1]))
    }
}

/// A collision as a value.
pub open spec fn collision_value(collision: SculptCollision) -> JsonView {
    JsonView::Object(
        seq![
            ("boxes"@, JsonView::Array(box_values(collision.boxes@, collision.boxes@.len()))),
            ("mode"@, JsonView::Text(collision.mode@)),
        ],
    )
}

proof fn array_item_is_normal(items: Seq<JsonView>, i: int)
    requires
        normal(JsonView::Array(items)),
        0 <= i < items.len(),
    ensures
        normal(items[i]),
{
    let whole = JsonView::Array(items);
    assert(whole->Array_0 == items);
}

proof fn boxes_are_normal(boxes: Seq<SculptCollisionBox>, n: nat)
    requires
        n <= boxes.len(),
    ensures
        normal(JsonView::Array(box_values(boxes, n))),
    decreases n,
{
    if n > 0 {
        boxes_are_normal(boxes, (n - 1) as nat);
        let last = box_value(boxes[n - 1]);
        let before = box_values(boxes, (n - 1) as nat);
        box_is_normal(boxes[n - 1]);
        assert forall|i: int|
            #![trigger box_values(boxes, n)[i]]
            0 <= i < box_values(boxes, n).len() implies normal(box_values(boxes, n)[i]) by {
            if i < before.len() {
                assert(box_values(boxes, n)[i] == before[i]);
                array_item_is_normal(before, i);
            } else {
                assert(box_values(boxes, n)[i] == last);
            }
        }
    }
}

proof fn vector_is_normal(v: Seq<Scalar>)
    ensures
        normal(vector_value(v)),
{
    let items = vector_value(v)->Array_0;
    assert forall|i: int| #![trigger items[i]] 0 <= i < items.len() implies normal(items[i]) by {
        if i == 0 {
            assert(items[i] == number_value(v[0]));
        } else if i == 1 {
            assert(items[i] == number_value(v[1]));
        } else {
            assert(items[i] == number_value(v[2]));
        }
    }
}

proof fn box_is_normal(collision_box: SculptCollisionBox)
    ensures
        normal(box_value(collision_box)),
{
    reveal_strlit("center");
    reveal_strlit("size");
    vector_is_normal(collision_box.center@);
    vector_is_normal(collision_box.size@);
    let members = box_value(collision_box)->Object_0;
    assert(text_less("center"@, "size"@));
    assert forall|i: int| #![trigger members[i]] 0 <= i < members.len() implies normal(
        members[i].1,
    ) by {
        if i == 0 {
            assert(members[i].1 == vector_value(collision_box.center@));
        } else {
            assert(members[i].1 == vector_value(collision_box.size@));
        }
    }
}

proof fn collision_is_normal(collision: SculptCollision)
    ensures
        normal(collision_value(collision)),
{
    reveal_strlit("boxes");
    reveal_strlit("mode");
    boxes_are_normal(collision.boxes@, collision.boxes@.len());
    let members = collision_value(collision)->Object_0;
    assert(text_less("boxes"@, "mode"@));
    assert forall|i: int| #![trigger members[i]] 0 <= i < members.len() implies normal(
        members[i].1,
    ) by {
        if i == 0 {
            assert(members[i].1 == JsonView::Array(
                box_values(collision.boxes@, collision.boxes@.len()),
            ));
        } else {
            assert(members[i].1 == JsonView::Text(collision.mode@));
        }
    }
}

/// The compact JSON of a collision as a value, with its keys in order.
pub fn collision_text(collision: &SculptCollision) -> (r: String)
    ensures
        r@ == compact(collision_value(*collision)),
{
    let mut boxes = Items::new();
    let mut i: usize = 0;
    while i < collision.boxes.len()
        invariant
            i <= collision.boxes@.len(),
            boxes@ == box_values(collision.boxes@, i as nat),
        decreases collision.boxes@.len() - i,
    {
        boxes = boxes.with(box_object(&collision.boxes[i]));
        i = i + 1;
    }
    let value = Fields::new()
        .with("boxes", boxes.array())
        .with("mode", text(collision.mode.as_str()))
        .object();
    proof {
        assert(value@->Object_0 =~= collision_value(*collision)->Object_0);
        collision_is_normal(*collision);
    }
    value.compact_text()
}

} // verus!
