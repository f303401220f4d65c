//! Which conflict a spec is told of for which fault, and what its nodes contribute.

use vstd::prelude::*;
use crate::sculpt_json::spec_json;
use crate::sculpt_rules::{
    all_positive, all_within, colors_are_colors, copies, drawn_copies, drawn_triangles, has_shape,
    ids_are_ids, is_animation, is_collision, is_collision_box, is_color, is_id, is_node,
    is_valid_spec, listed_materials, listed_nodes, one_copy, shape_is_checked,
    sound_nodes_are_counted, vectors_are_vectors,
};
use crate::sculpt_spec::{
    all_material_conflicts, all_node_conflicts, animation_conflicts, box_conflicts,
    collision_conflicts, conflict_if, head_conflicts, material_conflicts, material_ids,
    node_conflicts, node_geometry, node_ids, places, spec_conflicts, tail_conflicts, total_conflicts,
    NodeExtent, PlacedNode, SculptAnimation, SculptCollision, SculptCollisionBox, SculptConflictView,
    SculptMaterial, SculptNode, SculptSpec,
};
use crate::text::utf8_len;

verus! {

/// True iff one of the conflicts has that code and is about that node, or about none.
pub open spec fn tells(
    conflicts: Seq<SculptConflictView>,
    code: Seq<char>,
    node: Option<Seq<char>>,
) -> bool {
    exists|i: int|
        0 <= i < conflicts.len() && (#[trigger] conflicts[i]).code == code && conflicts[i].node == node
}

proof fn faults_are_told()
    ensures
        forall|holds: bool, code: Seq<char>, message: Seq<char>, node: Option<Seq<char>>|
            holds ==> tells(#[trigger] conflict_if(holds, code, message, node), code, node),
        forall|
            a: Seq<SculptConflictView>,
            b: Seq<SculptConflictView>,
            code: Seq<char>,
            node: Option<Seq<char>>,
        |
            tells(a, code, node) || tells(b, code, node) ==> #[trigger] tells(a + b, code, node),
{
    assert forall|holds: bool, code: Seq<char>, message: Seq<char>, node: Option<Seq<char>>|
        holds implies tells(#[trigger] conflict_if(holds, code, message, node), code, node) by {
        let list = conflict_if(holds, code, message, node);
        assert(list[0].code == code && list[0].node == node);
    }
    assert forall|
        a: Seq<SculptConflictView>,
        b: Seq<SculptConflictView>,
        code: Seq<char>,
        node: Option<Seq<char>>,
    |
        tells(a, code, node) || tells(b, code, node) implies #[trigger] tells(a + b, code, node) by {
        let all = a + b;
        if tells(a, code, node) {
            let i = choose|i: int|
                0 <= i < a.len() && (#[trigger] a[i]).code == code && a[i].node == node;
            assert(all[i].code == code && all[i].node == node);
        } else {
            let i = choose|i: int|
                0 <= i < b.len() && (#[trigger] b[i]).code == code && b[i].node == node;
            assert(all[a.len() + i].code == code && all[a.len() + i].node == node);
        }
    }
}

// ---- the parts ----

proof fn head_faults(spec: SculptSpec, json: Seq<char>)
    ensures
        ({
            let told = head_conflicts(spec, json);
            &&& spec.schema_version != 1 ==> tells(told, "unsupported_schema_version"@, None)
            &&& !is_id(spec.asset_id@) ==> tells(told, "invalid_asset_id"@, None)
            &&& !(1 <= spec.version <= 65535) ==> tells(told, "invalid_version"@, None)
            &&& spec.name@.len() == 0 || utf8_len(spec.name@) > 80 ==> tells(
                told,
                "invalid_name"@,
                None,
            )
            &&& utf8_len(json) > 65536 ==> tells(told, "source_size_limit"@, None)
            &&& !(1 <= spec.materials@.len() <= 32) ==> tells(told, "material_limit"@, None)
        }),
{
    ids_are_ids(spec.asset_id@);
    faults_are_told();
}

proof fn material_faults(materials: Seq<SculptMaterial>, i: int)
    requires
        0 <= i < materials.len(),
    ensures
        ({
            let told = material_conflicts(materials, i);
            let m = materials[i];
            &&& !is_id(m.id@) || (exists|j: int| 0 <= j < i && (#[trigger] materials[j]).id@ == m.id@)
                ==> tells(told, "invalid_material"@, None)
            &&& !is_color(m.base_color@) || !is_color(m.emissive_color@) ==> tells(
                told,
                "invalid_color"@,
                None,
            )
            &&& !m.metalness.within(0, 1) || !m.roughness.within(0, 1) || !m.opacity.within(0, 1)
                ==> tells(told, "invalid_material_value"@, None)
        }),
{
    let m = materials[i];
    ids_are_ids(m.id@);
    colors_are_colors(m.base_color@);
    colors_are_colors(m.emissive_color@);
    listed_materials(materials, i, m.id@);
    assert(material_ids(materials)[i] == m.id@);
    faults_are_told();
}

proof fn materials_told(
    materials: Seq<SculptMaterial>,
    n: int,
    i: int,
    code: Seq<char>,
    node: Option<Seq<char>>,
)
    requires
        0 <= i < n <= materials.len(),
        tells(material_conflicts(materials, i), code, node),
    ensures
        tells(all_material_conflicts(materials, n), code, node),
    decreases n,
{
    faults_are_told();
    if i < n - 1 {
        materials_told(materials, n - 1, i, code, node);
    }
}

/// True iff the node has an id of its own.
pub open spec fn has_own_id(nodes: Seq<SculptNode>, i: int) -> bool {
    is_id(nodes[i].id@) && forall|j: int| 0 <= j < i ==> (#[trigger] nodes[j]).id@ != nodes[i].id@
}

#[verifier::spinoff_prover]
proof fn node_faults(nodes: Seq<SculptNode>, materials: Seq<SculptMaterial>, i: int)
    requires
        0 <= i < nodes.len(),
    ensures
        ({
            let told = node_conflicts(nodes, material_ids(materials), i);
            let node = nodes[i];
            let id = Some(node.id@);
            let own = has_own_id(nodes, i);
            &&& !own ==> tells(told, "invalid_node_id"@, id)
            &&& own && (node.parent matches Some(parent) && !(is_id(parent@) && exists|j: int|
                0 <= j < i && (#[trigger] nodes[j]).id@ == parent@)) ==> tells(
                told,
                "invalid_parent"@,
                id,
            )
            &&& own && !all_within(node.position@, -64, 64) ==> tells(told, "invalid_position"@, id)
            &&& own && !all_within(node.rotation_degrees@, -3600, 3600) ==> tells(
                told,
                "invalid_rotation"@,
                id,
            )
            &&& own && !all_positive(node.scale@, 16) ==> tells(told, "invalid_scale"@, id)
            &&& own && !(1 <= copies(node) <= 32) ==> tells(told, "repeat_limit"@, id)
            &&& own && (node.repeat matches Some(repeat) && !all_within(repeat.offset@, -64, 64))
                ==> tells(told, "invalid_repeat_offset"@, id)
            &&& own && node.kind@ == "group"@ && !has_shape(node) ==> tells(
                told,
                "invalid_group"@,
                id,
            )
            &&& own && node.kind@ != "group"@ && node.material is None ==> tells(
                told,
                "missing_material"@,
                id,
            )
            &&& own && node.kind@ != "group"@ && (node.material matches Some(material) && !(is_id(
                material@,
            ) && exists|j: int|
                0 <= j < materials.len() && (#[trigger] materials[j]).id@ == material@)) ==> tells(
                told,
                "unknown_material"@,
                id,
            )
            &&& own && node.kind@ != "group"@ && node.material is Some && !has_shape(node) ==> tells(
                told,
                "invalid_geometry"@,
                id,
            )
        }),
{
    let node = nodes[i];
    ids_are_ids(node.id@);
    listed_nodes(nodes, i, node.id@);
    assert(node_ids(nodes)[i] == node.id@);
    if let Some(parent) = node.parent {
        ids_are_ids(parent@);
        listed_nodes(nodes, i, parent@);
    }
    vectors_are_vectors(node.position@, -64, 64);
    vectors_are_vectors(node.rotation_degrees@, -3600, 3600);
    vectors_are_vectors(node.scale@, 0, 16);
    if let Some(repeat) = node.repeat {
        vectors_are_vectors(repeat.offset@, -64, 64);
    }
    if node.kind@ != "group"@ {
        shape_is_checked(node);
        if let Some(material) = node.material {
            ids_are_ids(material@);
            listed_materials(materials, materials.len() as int, material@);
        }
    }
    faults_are_told();
}

proof fn nodes_told(
    nodes: Seq<SculptNode>,
    materials: Seq<Seq<char>>,
    n: int,
    i: int,
    code: Seq<char>,
    node: Option<Seq<char>>,
)
    requires
        0 <= i < n <= nodes.len(),
        tells(node_conflicts(nodes, materials, i), code, node),
    ensures
        tells(all_node_conflicts(nodes, materials, n), code, node),
    decreases n,
{
    faults_are_told();
    if i < n - 1 {
        nodes_told(nodes, materials, n - 1, i, code, node);
    }
}

proof fn boxes_told(boxes: Seq<SculptCollisionBox>, n: int, i: int)
    requires
        0 <= i < n <= boxes.len(),
        !is_collision_box(boxes[i]),
    ensures
        tells(box_conflicts(boxes, n), "invalid_collision"@, None),
    decreases n,
{
    faults_are_told();
    vectors_are_vectors(boxes[i].center@, -64, 64);
    vectors_are_vectors(boxes[i].size@, 0, 64);
    if i < n - 1 {
        boxes_told(boxes, n - 1, i);
    }
}

proof fn collision_faults(collision: SculptCollision)
    ensures
        !is_collision(collision) ==> tells(
            collision_conflicts(collision),
            "invalid_collision"@,
            None,
        ),
{
    faults_are_told();
    if !is_collision(collision) && collision.mode@ == "compound_boxes"@ && 1
        <= collision.boxes@.len() <= 16 {
        let i = choose|i: int|
            0 <= i < collision.boxes@.len() && !is_collision_box(#[trigger] collision.boxes@[i]);
        boxes_told(collision.boxes@, collision.boxes@.len() as int, i);
        reveal_strlit("none");
        reveal_strlit("bounds");
        reveal_strlit("compound_boxes");
        assert("none"@.len() == 4 && "bounds"@.len() == 6 && "compound_boxes"@.len() == 14);
    }
}

proof fn animations_told(animations: Seq<SculptAnimation>, nodes: Seq<SculptNode>, n: int, i: int)
    requires
        0 <= i < n <= animations.len(),
        !is_animation(animations[i], nodes),
    ensures
        tells(
            animation_conflicts(animations, node_ids(nodes), n),
            "invalid_animation"@,
            Some(animations[i].node@),
        ),
    decreases n,
{
    faults_are_told();
    ids_are_ids(animations[i].node@);
    listed_nodes(nodes, nodes.len() as int, animations[i].node@);
    if i < n - 1 {
        animations_told(animations, nodes, n - 1, i);
    }
}

// ---- the whole spec ----

proof fn parts_are_told(spec: SculptSpec, code: Seq<char>, node: Option<Seq<char>>)
    ensures
        ({
            let n = spec.nodes@.len() as int;
            tells(head_conflicts(spec, spec_json(spec)), code, node) || tells(
                all_material_conflicts(spec.materials@, spec.materials@.len() as int),
                code,
                node,
            ) || tells(
                all_node_conflicts(spec.nodes@, material_ids(spec.materials@), n),
                code,
                node,
            ) || tells(total_conflicts(spec.nodes@), code, node) || tells(
                collision_conflicts(spec.collision),
                code,
                node,
            ) || tells(tail_conflicts(spec), code, node) || tells(
                animation_conflicts(
                    spec.animations@,
                    node_ids(spec.nodes@),
                    spec.animations@.len() as int,
                ),
                code,
                node,
            )
        }) ==> tells(spec_conflicts(spec), code, node),
{
    faults_are_told();
}

/// A spec is told of every fault in its head, its numbers of parts, its distance and its collision,
/// each under its own code.
pub proof fn specs_are_told_of_their_faults(spec: SculptSpec)
    ensures
        ({
            let told = spec_conflicts(spec);
            &&& spec.schema_version != 1 ==> tells(told, "unsupported_schema_version"@, None)
            &&& !is_id(spec.asset_id@) ==> tells(told, "invalid_asset_id"@, None)
            &&& !(1 <= spec.version <= 65535) ==> tells(told, "invalid_version"@, None)
            &&& spec.name@.len() == 0 || utf8_len(spec.name@) > 80 ==> tells(
                told,
                "invalid_name"@,
                None,
            )
            &&& utf8_len(spec_json(spec)) > 65536 ==> tells(told, "source_size_limit"@, None)
            &&& !(1 <= spec.materials@.len() <= 32) ==> tells(told, "material_limit"@, None)
            &&& !(1 <= spec.nodes@.len() <= 128) ==> tells(told, "node_limit"@, None)
            &&& !is_collision(spec.collision) ==> tells(told, "invalid_collision"@, None)
            &&& !spec.lod.max_distance.within(8, 256) ==> tells(told, "invalid_lod"@, None)
            &&& spec.animations@.len() > 32 ==> tells(told, "animation_limit"@, None)
        }),
{
    head_faults(spec, spec_json(spec));
    collision_faults(spec.collision);
    faults_are_told();
    parts_are_told(spec, "unsupported_schema_version"@, None);
    parts_are_told(spec, "invalid_asset_id"@, None);
    parts_are_told(spec, "invalid_version"@, None);
    parts_are_told(spec, "invalid_name"@, None);
    parts_are_told(spec, "source_size_limit"@, None);
    parts_are_told(spec, "material_limit"@, None);
    parts_are_told(spec, "invalid_collision"@, None);
    parts_are_told(spec, "invalid_lod"@, None);
    parts_are_told(spec, "animation_limit"@, None);
}

/// A spec whose nodes are in order is told where its copies are more than 256 primitives, and where
/// they are more than 50000 triangles.
pub proof fn specs_are_told_of_too_many_copies(spec: SculptSpec)
    requires
        forall|i: int|
            0 <= i < spec.nodes@.len() ==> #[trigger] is_node(spec.nodes@, spec.materials@, i),
    ensures
        ({
            let n = spec.nodes@.len() as int;
            let told = spec_conflicts(spec);
            &&& drawn_copies(spec.nodes@, n) > 256 ==> tells(told, "primitive_limit"@, None)
            &&& drawn_triangles(spec.nodes@, n) > 50000 ==> tells(told, "triangle_limit"@, None)
        }),
{
    sound_nodes_are_counted(spec);
    faults_are_told();
    parts_are_told(spec, "primitive_limit"@, None);
    parts_are_told(spec, "triangle_limit"@, None);
}

/// A spec is told of every fault of every material and animation.
pub proof fn specs_are_told_of_faulty_materials_and_animations(spec: SculptSpec, i: int)
    ensures
        ({
            let told = spec_conflicts(spec);
            let materials = spec.materials@;
            &&& 0 <= i < materials.len() ==> {
                let m = materials[i];
                &&& !is_id(m.id@) || (exists|j: int|
                    0 <= j < i && (#[trigger] materials[j]).id@ == m.id@) ==> tells(
                    told,
                    "invalid_material"@,
                    None,
                )
                &&& !is_color(m.base_color@) || !is_color(m.emissive_color@) ==> tells(
                    told,
                    "invalid_color"@,
                    None,
                )
                &&& !m.metalness.within(0, 1) || !m.roughness.within(0, 1) || !m.opacity.within(0, 1)
                    ==> tells(told, "invalid_material_value"@, None)
            }
            &&& 0 <= i < spec.animations@.len() && !is_animation(spec.animations@[i], spec.nodes@)
                ==> tells(told, "invalid_animation"@, Some(spec.animations@[i].node@))
        }),
{
    let materials = spec.materials@;
    let n = materials.len() as int;
    if 0 <= i < n {
        material_faults(materials, i);
        if tells(material_conflicts(materials, i), "invalid_material"@, None) {
            materials_told(materials, n, i, "invalid_material"@, None);
        }
        if tells(material_conflicts(materials, i), "invalid_color"@, None) {
            materials_told(materials, n, i, "invalid_color"@, None);
        }
        if tells(material_conflicts(materials, i), "invalid_material_value"@, None) {
            materials_told(materials, n, i, "invalid_material_value"@, None);
        }
        parts_are_told(spec, "invalid_material"@, None);
        parts_are_told(spec, "invalid_color"@, None);
        parts_are_told(spec, "invalid_material_value"@, None);
    }
    if 0 <= i < spec.animations@.len() && !is_animation(spec.animations@[i], spec.nodes@) {
        animations_told(spec.animations@, spec.nodes@, spec.animations@.len() as int, i);
        parts_are_told(spec, "invalid_animation"@, Some(spec.animations@[i].node@));
    }
}

/// True iff the node has the fault of that code.
pub open spec fn has_fault(
    nodes: Seq<SculptNode>,
    materials: Seq<SculptMaterial>,
    i: int,
    code: Seq<char>,
) -> bool {
    let node = nodes[i];
    let own = has_own_id(nodes, i);
    ||| code == "invalid_node_id"@ && !own
    ||| code == "invalid_parent"@ && own && (node.parent matches Some(parent) && !(is_id(parent@)
        && exists|j: int| 0 <= j < i && (#[trigger] nodes[j]).id@ == parent@))
    ||| code == "invalid_position"@ && own && !all_within(node.position@, -64, 64)
    ||| code == "invalid_rotation"@ && own && !all_within(node.rotation_degrees@, -3600, 3600)
    ||| code == "invalid_scale"@ && own && !all_positive(node.scale@, 16)
    ||| code == "repeat_limit"@ && own && !(1 <= copies(node) <= 32)
    ||| code == "invalid_repeat_offset"@ && own && (node.repeat matches Some(repeat) && !all_within(
        repeat.offset@,
        -64,
        64,
    ))
    ||| code == "invalid_group"@ && own && node.kind@ == "group"@ && !has_shape(node)
    ||| code == "missing_material"@ && own && node.kind@ != "group"@ && node.material is None
    ||| code == "unknown_material"@ && own && node.kind@ != "group"@ && (node.material matches Some(
        material,
    ) && !(is_id(material@) && exists|j: int|
        0 <= j < materials.len() && (#[trigger] materials[j]).id@ == material@))
    ||| code == "invalid_geometry"@ && own && node.kind@ != "group"@ && node.material is Some
        && !has_shape(node)
}

/// A spec is told of every fault of every node, under the fault's code and the node's id.
pub proof fn specs_are_told_of_faulty_nodes(spec: SculptSpec, i: int, code: Seq<char>)
    requires
        0 <= i < spec.nodes@.len(),
        has_fault(spec.nodes@, spec.materials@, i, code),
    ensures
        tells(spec_conflicts(spec), code, Some(spec.nodes@[i].id@)),
{
    let id = Some(spec.nodes@[i].id@);
    node_faults(spec.nodes@, spec.materials@, i);
    assert(tells(node_conflicts(spec.nodes@, material_ids(spec.materials@), i), code, id));
    nodes_told(
        spec.nodes@,
        material_ids(spec.materials@),
        spec.nodes@.len() as int,
        i,
        code,
        id,
    );
    parts_are_told(spec, code, id);
}

// ---- what the nodes contribute ----

/// A primitive in order is as large as its fields say, and has the triangles of its kind; a group
/// contributes nothing.
pub proof fn primitives_have_their_size(node: SculptNode)
    requires
        has_shape(node),
        node.kind@ != "group"@ ==> node.material is Some,
    ensures
        node.kind@ == "group"@ ==> node_geometry(node) is None,
        node.kind@ != "group"@ ==> (node_geometry(node) matches Some(geometry) && geometry.triangles
            == one_copy(node) && match geometry.extent {
            NodeExtent::Cuboid { x, y, z } => node.kind@ == "box"@ && (node.size matches Some(size)
                && size@ == seq![x, y, z]),
            NodeExtent::Plane { x, y } => node.kind@ == "plane"@ && (node.size matches Some(size)
                && size@ == seq![x, y]),
            NodeExtent::Sphere { radius } => node.kind@ == "sphere"@ && node.radius == Some(radius),
            NodeExtent::Cylinder { top, bottom, height } => node.kind@ == "cylinder"@
                && node.radius_top == Some(top) && node.radius_bottom == Some(bottom) && node.height
                == Some(height),
            NodeExtent::Cone { radius, height } => node.kind@ == "cone"@ && node.radius == Some(
                radius,
            ) && node.height == Some(height),
        }),
{
    if node.kind@ != "group"@ {
        shape_is_checked(node);
        if let Some(size) = node.size {
            if size@.len() == 3 {
                assert(size@ =~= seq![size@[0], size@[1], size@[2]]);
            }
            if size@.len() == 2 {
                assert(size@ =~= seq![size@[0], size@[1]]);
            }
        }
    }
}

/// A node of a valid spec is placed under the node that its parent names, which comes before it, or
/// under none where it names none; and it is placed as often as it is repeated.
pub proof fn nodes_hang_on_their_parents(spec: SculptSpec, entry: PlacedNode)
    requires
        is_valid_spec(spec),
        places(spec.nodes@, entry),
    ensures
        entry.node < spec.nodes@.len(),
        entry.count == copies(spec.nodes@[entry.node as int]),
        match spec.nodes@[entry.node as int].parent {
            None => entry.parent is None,
            Some(parent) => entry.parent matches Some(j) && j < entry.node
                && spec.nodes@[j as int].id@ == parent@,
        },
{
    let nodes = spec.nodes@;
    let i = entry.node as int;
    assert(is_node(nodes, spec.materials@, i));
    if let Some(parent) = nodes[i].parent {
        ids_are_ids(parent@);
        listed_nodes(nodes, i, parent@);
    }
}

} // verus!
