//! What a sculpt spec has to be, written out number by number, and the proof that exactly such specs
//! are accepted.

use vstd::prelude::*;
use crate::scalar::Scalar;
use crate::sculpt_json::spec_json;
use crate::sculpt_spec::{
    all_material_conflicts, all_node_conflicts, animation_conflicts, bare_group, box_conflicts,
    collision_conflicts, declared_geometry, fresh, fresh_count, geometry_conflicts, good_animation,
    head_conflicts, is_budget, listed, material_conflicts, material_ids, node_conflicts,
    node_geometry, node_ids, primitives, repeat_count, saturated, spec_conflicts, tail_conflicts,
    total_conflicts, triangles, vector_positive, vector_within, well_formed_color, well_formed_id,
    SculptAnimation, SculptBounds, SculptBudget, SculptCollision, SculptCollisionBox,
    SculptMaterial, SculptNode, SculptSpec,
};
use crate::text::utf8_len;

verus! {

// ---- the rules ----

/// True iff the text is an id: one to 64 small letters, digits, underscores and hyphens, the first
/// of them a letter.
pub open spec fn is_id(s: Seq<char>) -> bool {
    &&& 1 <= s.len() <= 64
    &&& forall|i: int|
        #![trigger s[i]]
        0 <= i < s.len() ==> ('a' <= s[i] <= 'z') || (i > 0 && (('0' <= s[i] <= '9') || s[i] == '_'
            || s[i] == '-'))
}

/// True iff the text is a color: a hash and six hexadecimal digits.
pub open spec fn is_color(s: Seq<char>) -> bool {
    &&& s.len() == 7
    &&& forall|i: int|
        #![trigger s[i]]
        0 <= i < 7 ==> if i == 0 {
            s[i] == '#'
        } else {
            ('0' <= s[i] <= '9') || ('a' <= s[i] <= 'f') || ('A' <= s[i] <= 'F')
        }
}

/// True iff the material is in order: an id of its own, two colors, and three shares of one.
pub open spec fn is_material(materials: Seq<SculptMaterial>, i: int) -> bool {
    let m = materials[i];
    &&& is_id(m.id@)
    &&& forall|j: int| 0 <= j < i ==> (#[trigger] materials[j]).id@ != m.id@
    &&& is_color(m.base_color@)
    &&& is_color(m.emissive_color@)
    &&& m.metalness.within(0, 1)
    &&& m.roughness.within(0, 1)
    &&& m.opacity.within(0, 1)
}

/// True iff every number of the vector is finite and in the range.
pub open spec fn all_within(v: Seq<Scalar>, low: int, high: int) -> bool {
    forall|i: int| 0 <= i < v.len() ==> (#[trigger] v[i]).within(low, high)
}

/// True iff every number of the vector is finite, at least one hundredth and at most `high`.
pub open spec fn all_positive(v: Seq<Scalar>, high: int) -> bool {
    forall|i: int| 0 <= i < v.len() ==> (#[trigger] v[i]).positive_up_to(high)
}

/// True iff the field is there and is a length of one hundredth to 64.
pub open spec fn is_length(field: Option<Scalar>) -> bool {
    field matches Some(length) && length.positive_up_to(64)
}

/// True iff the field is there and is a number of segments from 3 to 32.
pub open spec fn is_segments(field: Option<u32>) -> bool {
    field matches Some(segments) && 3 <= segments <= 32
}

/// True iff the field is there and has that many lengths of one hundredth to 64.
pub open spec fn is_size(field: Option<Vec<Scalar>>, count: nat) -> bool {
    field matches Some(size) && size@.len() == count && all_positive(size@, 64)
}

/// True iff the node has the fields of its kind, and no others.
pub open spec fn has_shape(node: SculptNode) -> bool {
    let kind = node.kind@;
    if kind == "group"@ {
        node.material is None && node.size is None && node.radius is None && node.radius_top is None
            && node.radius_bottom is None && node.height is None && node.segments is None
    } else if kind == "box"@ {
        is_size(node.size, 3) && node.radius is None && node.radius_top is None
            && node.radius_bottom is None && node.height is None && node.segments is None
    } else if kind == "plane"@ {
        is_size(node.size, 2) && node.radius is None && node.radius_top is None
            && node.radius_bottom is None && node.height is None && node.segments is None
    } else if kind == "sphere"@ {
        is_length(node.radius) && is_segments(node.segments) && node.size is None && node.radius_top
            is None && node.radius_bottom is None && node.height is None
    } else if kind == "cylinder"@ {
        is_length(node.radius_top) && is_length(node.radius_bottom) && is_length(node.height)
            && is_segments(node.segments) && node.size is None && node.radius is None
    } else if kind == "cone"@ {
        is_length(node.radius) && is_length(node.height) && is_segments(node.segments) && node.size
            is None && node.radius_top is None && node.radius_bottom is None
    } else {
        false
    }
}

/// How often the node is drawn.
pub open spec fn copies(node: SculptNode) -> int {
    match node.repeat {
        Some(repeat) => repeat.count as int,
        None => 1,
    }
}

/// True iff the node is in order: an id of its own, a parent that comes before it, a bounded place,
/// one to 32 copies, the fields of its kind, and a material of the spec where it is no group.
pub open spec fn is_node(nodes: Seq<SculptNode>, materials: Seq<SculptMaterial>, i: int) -> bool {
    let node = nodes[i];
    &&& is_id(node.id@)
    &&& forall|j: int| 0 <= j < i ==> (#[trigger] nodes[j]).id@ != node.id@
    &&& node.parent matches Some(parent) ==> is_id(parent@) && exists|j: int|
        0 <= j < i && (#[trigger] nodes[j]).id@ == parent@
    &&& all_within(node.position@, -64, 64)
    &&& all_within(node.rotation_degrees@, -3600, 3600)
    &&& all_positive(node.scale@, 16)
    &&& 1 <= copies(node) <= 32
    &&& node.repeat matches Some(repeat) ==> all_within(repeat.offset@, -64, 64)
    &&& has_shape(node)
    &&& node.kind@ != "group"@ ==> (node.material matches Some(material) && is_id(material@)
        && exists|j: int| 0 <= j < materials.len() && (#[trigger] materials[j]).id@ == material@)
}

/// How many triangles one copy of the node has.
pub open spec fn one_copy(node: SculptNode) -> int {
    let segments = match node.segments {
        Some(segments) => segments as int,
        None => 0,
    };
    if node.kind@ == "box"@ {
        12
    } else if node.kind@ == "plane"@ {
        2
    } else if node.kind@ == "sphere"@ {
        2 * segments * ((segments + 1) / 2)
    } else if node.kind@ == "cylinder"@ {
        4 * segments
    } else if node.kind@ == "cone"@ {
        2 * segments
    } else {
        0
    }
}

/// The number of copies that the first `n` nodes are drawn in; groups are not drawn.
pub open spec fn drawn_copies(nodes: Seq<SculptNode>, n: int) -> int
    decreases n,
{
    if n <= 0 {
        0
    } else {
        drawn_copies(nodes, n - 1) + if nodes[n - 1].kind@ == "group"@ {
            0
        } else {
            copies(nodes[n - 1])
        }
    }
}

/// The number of triangles of all the copies that the first `n` nodes are drawn in.
pub open spec fn drawn_triangles(nodes: Seq<SculptNode>, n: int) -> int
    decreases n,
{
    if n <= 0 {
        0
    } else {
        drawn_triangles(nodes, n - 1) + one_copy(nodes[n - 1]) * copies(nodes[n - 1])
    }
}

/// True iff the collision is in order: none or the bounds, without boxes, or one to 16 boxes near
/// the origin.
pub open spec fn is_collision(collision: SculptCollision) -> bool {
    let mode = collision.mode@;
    ||| (mode == "none"@ || mode == "bounds"@) && collision.boxes@.len() == 0
    ||| mode == "compound_boxes"@ && 1 <= collision.boxes@.len() <= 16 && forall|i: int|
        0 <= i < collision.boxes@.len() ==> is_collision_box(#[trigger] collision.boxes@[i])
}

pub open spec fn is_collision_box(item: SculptCollisionBox) -> bool {
    all_within(item.center@, -64, 64) && all_positive(item.size@, 64)
}

/// True iff the animation turns a node of the spec or lets it bob, along an axis, at most ten times a
/// second and at most 16 blocks far.
pub open spec fn is_animation(animation: SculptAnimation, nodes: Seq<SculptNode>) -> bool {
    &&& is_id(animation.node@)
    &&& exists|j: int| 0 <= j < nodes.len() && (#[trigger] nodes[j]).id@ == animation.node@
    &&& animation.kind@ == "rotate"@ || animation.kind@ == "bob"@
    &&& animation.axis@ == "x"@ || animation.axis@ == "y"@ || animation.axis@ == "z"@
    &&& animation.speed.within(-10, 10)
    &&& animation.amplitude.within(0, 16)
}

/// True iff the spec is in order, part by part, and all its copies together are at most 256
/// primitives and 50000 triangles.
pub open spec fn is_valid_spec(spec: SculptSpec) -> bool {
    &&& spec.schema_version == 1
    &&& is_id(spec.asset_id@)
    &&& 1 <= spec.version <= 65535
    &&& 1 <= spec.name@.len()
    &&& utf8_len(spec.name@) <= 80
    &&& utf8_len(spec_json(spec)) <= 65536
    &&& 1 <= spec.materials@.len() <= 32
    &&& forall|i: int| 0 <= i < spec.materials@.len() ==> #[trigger] is_material(spec.materials@, i)
    &&& 1 <= spec.nodes@.len() <= 128
    &&& forall|i: int|
        0 <= i < spec.nodes@.len() ==> #[trigger] is_node(spec.nodes@, spec.materials@, i)
    &&& drawn_copies(spec.nodes@, spec.nodes@.len() as int) <= 256
    &&& drawn_triangles(spec.nodes@, spec.nodes@.len() as int) <= 50000
    &&& is_collision(spec.collision)
    &&& spec.lod.max_distance.within(8, 256)
    &&& spec.animations@.len() <= 32
    &&& forall|i: int|
        0 <= i < spec.animations@.len() ==> is_animation(
            #[trigger] spec.animations@[i],
            spec.nodes@,
        )
}

// ---- ids and vectors ----

/// The two ways of saying what an id is agree.
pub proof fn ids_are_ids(s: Seq<char>)
    ensures
        well_formed_id(s) <==> is_id(s),
{
    if well_formed_id(s) {
        assert forall|i: int| #![trigger s[i]] 0 <= i < s.len() implies ('a' <= s[i] <= 'z') || (i
            > 0 && (('0' <= s[i] <= '9') || s[i] == '_' || s[i] == '-')) by {}
    }
    if is_id(s) {
        assert('a' <= s[0] <= 'z');
    }
}

/// The two ways of saying what a color is agree.
pub proof fn colors_are_colors(s: Seq<char>)
    ensures
        well_formed_color(s) <==> is_color(s),
{
    if is_color(s) {
        assert(s[0] == '#');
    }
}

/// The two ways of bounding a vector agree.
pub proof fn vectors_are_vectors(v: Seq<Scalar>, low: int, high: int)
    requires
        v.len() == 3,
    ensures
        vector_within(v, low, high) <==> all_within(v, low, high),
        vector_positive(v, high) <==> all_positive(v, high),
{
    if all_within(v, low, high) {
        assert(v[0].within(low, high) && v[1].within(low, high) && v[2].within(low, high));
    }
    if all_positive(v, high) {
        assert(v[0].positive_up_to(high) && v[1].positive_up_to(high) && v[2].positive_up_to(high));
    }
}

/// An id is listed exactly where one of the nodes has it.
pub proof fn listed_nodes(nodes: Seq<SculptNode>, n: int, id: Seq<char>)
    requires
        0 <= n <= nodes.len(),
    ensures
        listed(node_ids(nodes), n, id) <==> exists|j: int|
            0 <= j < n && (#[trigger] nodes[j]).id@ == id,
{
    let ids = node_ids(nodes);
    if listed(ids, n, id) {
        let j = choose|j: int| 0 <= j < n && #[trigger] ids[j] == id;
        assert(nodes[j].id@ == id);
    }
    if exists|j: int| 0 <= j < n && (#[trigger] nodes[j]).id@ == id {
        let j = choose|j: int| 0 <= j < n && (#[trigger] nodes[j]).id@ == id;
        assert(ids[j] == id);
    }
}

/// An id is listed exactly where one of the materials has it.
pub proof fn listed_materials(materials: Seq<SculptMaterial>, n: int, id: Seq<char>)
    requires
        0 <= n <= materials.len(),
    ensures
        listed(material_ids(materials), n, id) <==> exists|j: int|
            0 <= j < n && (#[trigger] materials[j]).id@ == id,
{
    let ids = material_ids(materials);
    if listed(ids, n, id) {
        let j = choose|j: int| 0 <= j < n && #[trigger] ids[j] == id;
        assert(materials[j].id@ == id);
    }
    if exists|j: int| 0 <= j < n && (#[trigger] materials[j]).id@ == id {
        let j = choose|j: int| 0 <= j < n && (#[trigger] materials[j]).id@ == id;
        assert(ids[j] == id);
    }
}

// ---- parts ----

proof fn material_is_checked(materials: Seq<SculptMaterial>, i: int)
    requires
        0 <= i < materials.len(),
    ensures
        material_conflicts(materials, i).len() == 0 <==> is_material(materials, i),
{
    let m = materials[i];
    ids_are_ids(m.id@);
    colors_are_colors(m.base_color@);
    colors_are_colors(m.emissive_color@);
    listed_materials(materials, i, m.id@);
    assert(material_ids(materials)[i] == m.id@);
}

proof fn materials_are_checked(materials: Seq<SculptMaterial>, n: int)
    requires
        0 <= n <= materials.len(),
    ensures
        all_material_conflicts(materials, n).len() == 0 <==> forall|i: int|
            0 <= i < n ==> #[trigger] is_material(materials, i),
    decreases n,
{
    if n > 0 {
        materials_are_checked(materials, n - 1);
        material_is_checked(materials, n - 1);
    }
}

/// A primitive has a geometry exactly where it has the fields of its kind.
#[verifier::spinoff_prover]
pub proof fn shape_is_checked(node: SculptNode)
    requires
        node.kind@ != "group"@,
    ensures
        declared_geometry(node) is Some <==> has_shape(node),
        declared_geometry(node) matches Some(geometry) ==> geometry.triangles == one_copy(node),
{
    match node.size {
        Some(size) => {
            if size@.len() == 3 && all_positive(size@, 64) {
                assert(size@[0].positive_up_to(64) && size@[1].positive_up_to(64)
                    && size@[2].positive_up_to(64));
            }
            if size@.len() == 2 && all_positive(size@, 64) {
                assert(size@[0].positive_up_to(64) && size@[1].positive_up_to(64));
            }
        },
        None => {},
    }
    if let Some(segments) = node.segments {
        if 3 <= segments <= 32 {
            assert(0 <= 2 * segments * ((segments + 1) / 2) <= 2 * 32 * 17) by (nonlinear_arith)
                requires
                    3 <= segments <= 32,
                    0 <= (segments + 1) / 2 <= 17,
            ;
        }
    }
}

#[verifier::spinoff_prover]
proof fn geometry_is_checked(node: SculptNode, materials: Seq<SculptMaterial>)
    ensures
        geometry_conflicts(node, material_ids(materials)).len() == 0 <==> has_shape(node) && (
        node.kind@ != "group"@ ==> (node.material matches Some(material) && is_id(material@)
            && exists|j: int| 0 <= j < materials.len() && (#[trigger] materials[j]).id@
            == material@)),
{
    if node.kind@ == "group"@ {
        assert(bare_group(node) <==> has_shape(node));
    } else {
        shape_is_checked(node);
        if let Some(material) = node.material {
            ids_are_ids(material@);
            listed_materials(materials, materials.len() as int, material@);
        }
    }
}

#[verifier::spinoff_prover]
proof fn node_is_checked(nodes: Seq<SculptNode>, materials: Seq<SculptMaterial>, i: int)
    requires
        0 <= i < nodes.len(),
    ensures
        node_conflicts(nodes, material_ids(materials), i).len() == 0 <==> is_node(
            nodes,
            materials,
            i,
        ),
{
    let node = nodes[i];
    ids_are_ids(node.id@);
    listed_nodes(nodes, i, node.id@);
    assert(node_ids(nodes)[i] == node.id@);
    if let Some(parent) = node.parent {
        ids_are_ids(parent@);
        listed_nodes(nodes, i, parent@);
    }
    vectors_are_vectors(node.position@, -64, 64);
    vectors_are_vectors(node.rotation_degrees@, -3600, 3600);
    vectors_are_vectors(node.scale@, 0, 16);
    if let Some(repeat) = node.repeat {
        vectors_are_vectors(repeat.offset@, -64, 64);
    }
    geometry_is_checked(node, materials);
}

proof fn nodes_are_checked(nodes: Seq<SculptNode>, materials: Seq<SculptMaterial>, n: int)
    requires
        0 <= n <= nodes.len(),
    ensures
        all_node_conflicts(nodes, material_ids(materials), n).len() == 0 <==> forall|i: int|
            0 <= i < n ==> #[trigger] is_node(nodes, materials, i),
    decreases n,
{
    if n > 0 {
        nodes_are_checked(nodes, materials, n - 1);
        node_is_checked(nodes, materials, n - 1);
    }
}

proof fn boxes_are_checked(boxes: Seq<SculptCollisionBox>, n: int)
    requires
        0 <= n <= boxes.len(),
    ensures
        box_conflicts(boxes, n).len() == 0 <==> forall|i: int|
            0 <= i < n ==> is_collision_box(#[trigger] boxes[i]),
    decreases n,
{
    if n > 0 {
        boxes_are_checked(boxes, n - 1);
        vectors_are_vectors(boxes[n - 1].center@, -64, 64);
        vectors_are_vectors(boxes[n - 1].size@, 0, 64);
        assert(boxes[n - 1] == boxes[n - 1]);
    }
}

proof fn collision_is_checked(collision: SculptCollision)
    ensures
        collision_conflicts(collision).len() == 0 <==> is_collision(collision),
{
    reveal_strlit("none");
    reveal_strlit("bounds");
    reveal_strlit("compound_boxes");
    assert("none"@.len() == 4 && "bounds"@.len() == 6 && "compound_boxes"@.len() == 14);
    boxes_are_checked(collision.boxes@, collision.boxes@.len() as int);
}

proof fn animations_are_checked(
    animations: Seq<SculptAnimation>,
    nodes: Seq<SculptNode>,
    n: int,
)
    requires
        0 <= n <= animations.len(),
    ensures
        animation_conflicts(animations, node_ids(nodes), n).len() == 0 <==> forall|i: int|
            0 <= i < n ==> is_animation(#[trigger] animations[i], nodes),
    decreases n,
{
    if n > 0 {
        animations_are_checked(animations, nodes, n - 1);
        let animation = animations[n - 1];
        ids_are_ids(animation.node@);
        listed_nodes(nodes, nodes.len() as int, animation.node@);
        assert(good_animation(animation, node_ids(nodes)) <==> is_animation(animation, nodes));
        assert(animations[n - 1] == animation);
    }
}

// ---- counting every copy ----

proof fn sums_saturate(a: int, b: int)
    requires
        a >= 0,
        b >= 0,
    ensures
        saturated(saturated(a) + saturated(b)) == saturated(a + b),
        saturated(saturated(a) + b) == saturated(a + b),
{
}

proof fn products_are_not_negative(a: int, b: int)
    requires
        a >= 0,
        b >= 0,
    ensures
        a * b >= 0,
{
    assert(a * b >= 0) by (nonlinear_arith)
        requires
            a >= 0,
            b >= 0,
    ;
}

proof fn one_copy_is_not_negative(node: SculptNode)
    ensures
        one_copy(node) >= 0,
        copies(node) >= 0,
{
    if let Some(segments) = node.segments {
        assert(2 * segments * ((segments + 1) / 2) >= 0) by (nonlinear_arith)
            requires
                segments >= 0,
                (segments + 1) / 2 >= 0,
        ;
    }
}

/// The totals of a spec count every copy: where each of the first `n` nodes has an id of its own and
/// the fields of its kind, they are the sums over the nodes of what one copy adds, as often as the
/// node is repeated, or the greatest size where a sum is greater.
pub proof fn totals_count_every_copy(nodes: Seq<SculptNode>, n: int)
    requires
        0 <= n <= nodes.len(),
        forall|i: int|
            #![trigger nodes[i]]
            0 <= i < n ==> {
                &&& is_id(nodes[i].id@)
                &&& forall|j: int| 0 <= j < i ==> (#[trigger] nodes[j]).id@ != nodes[i].id@
                &&& has_shape(nodes[i])
                &&& nodes[i].kind@ != "group"@ ==> nodes[i].material is Some
            },
    ensures
        primitives(nodes, n) == saturated(drawn_copies(nodes, n)),
        triangles(nodes, n) == saturated(drawn_triangles(nodes, n)),
        drawn_copies(nodes, n) >= 0,
        drawn_triangles(nodes, n) >= 0,
    decreases n,
{
    if n > 0 {
        totals_count_every_copy(nodes, n - 1);
        let node = nodes[n - 1];
        ids_are_ids(node.id@);
        listed_nodes(nodes, n - 1, node.id@);
        assert(node_ids(nodes)[n - 1] == node.id@);
        assert(fresh(node_ids(nodes), n - 1));
        one_copy_is_not_negative(node);
        products_are_not_negative(one_copy(node), copies(node));
        if node.kind@ != "group"@ {
            shape_is_checked(node);
            sums_saturate(drawn_copies(nodes, n - 1), copies(node));
            sums_saturate(drawn_triangles(nodes, n - 1), one_copy(node) * copies(node));
        } else {
            reveal_strlit("group");
            reveal_strlit("box");
            reveal_strlit("plane");
            reveal_strlit("sphere");
            reveal_strlit("cylinder");
            reveal_strlit("cone");
            assert("group"@.len() == 5 && "box"@.len() == 3 && "plane"@.len() == 5
                && "sphere"@.len() == 6 && "cylinder"@.len() == 8 && "cone"@.len() == 4);
            assert("group"@[0] == 'g' && "plane"@[0] == 'p');
            assert(one_copy(node) == 0);
            assert(one_copy(node) * copies(node) == 0);
        }
    }
}

proof fn totals_look_no_further(nodes: Seq<SculptNode>, more: SculptNode, n: int)
    requires
        0 <= n <= nodes.len(),
    ensures
        triangles(nodes.push(more), n) == triangles(nodes, n),
        primitives(nodes.push(more), n) == primitives(nodes, n),
    decreases n,
{
    if n > 0 {
        totals_look_no_further(nodes, more, n - 1);
        let longer = nodes.push(more);
        let id = nodes[n - 1].id@;
        assert(longer[n - 1] == nodes[n - 1]);
        assert(node_ids(longer)[n - 1] == id && node_ids(nodes)[n - 1] == id);
        listed_nodes(nodes, n - 1, id);
        listed_nodes(longer, n - 1, id);
        assert forall|j: int| 0 <= j < n - 1 implies (#[trigger] longer[j]).id@ == nodes[j].id@ by {
            assert(longer[j] == nodes[j]);
        }
        assert(listed(node_ids(longer), n - 1, id) <==> listed(node_ids(nodes), n - 1, id)) by {
            if exists|j: int| 0 <= j < n - 1 && (#[trigger] nodes[j]).id@ == id {
                let j = choose|j: int| 0 <= j < n - 1 && (#[trigger] nodes[j]).id@ == id;
                assert(longer[j].id@ == id);
            }
            if exists|j: int| 0 <= j < n - 1 && (#[trigger] longer[j]).id@ == id {
                let j = choose|j: int| 0 <= j < n - 1 && (#[trigger] longer[j]).id@ == id;
                assert(nodes[j].id@ == id);
            }
        }
    }
}

/// Repeating a node multiplies what it adds: with `k` copies it adds `k` times the triangles that it
/// adds alone, and `k` primitives for one.
pub proof fn repeating_multiplies(
    nodes: Seq<SculptNode>,
    once: SculptNode,
    repeated: SculptNode,
    k: int,
)
    requires
        once.repeat is None,
        repeated == (SculptNode { repeat: repeated.repeat, ..once }),
        repeated.repeat matches Some(repeat) && repeat.count == k,
        triangles(nodes.push(once), nodes.len() as int + 1) < usize::MAX,
        primitives(nodes.push(once), nodes.len() as int + 1) < usize::MAX,
    ensures
        ({
            let n = nodes.len() as int;
            let before = triangles(nodes, n);
            let added = triangles(nodes.push(once), n + 1) - before;
            let primitives_added = primitives(nodes.push(once), n + 1) - primitives(nodes, n);
            &&& triangles(nodes.push(repeated), n + 1) == saturated(before + k * added)
            &&& primitives(nodes.push(repeated), n + 1) == saturated(
                primitives(nodes, n) + k * primitives_added,
            )
            &&& 0 <= primitives_added <= 1
        }),
{
    let n = nodes.len() as int;
    let a = nodes.push(once);
    let b = nodes.push(repeated);
    totals_look_no_further(nodes, once, n);
    totals_look_no_further(nodes, repeated, n);
    totals_are_not_negative(nodes, n);
    assert(node_ids(a) =~= node_ids(b));
    assert(a[n] == once && b[n] == repeated);
    assert(node_geometry(once) == node_geometry(repeated));
    assert(repeat_count(once) == 1 && repeat_count(repeated) == k);
    let fresh_here = fresh(node_ids(a), n) && node_geometry(once) is Some;
    if fresh_here {
        let t = node_geometry(once)->0.triangles as int;
        let before = triangles(nodes, n);
        assert(t * 1 == t);
        assert(triangles(a, n + 1) == before + t);
        assert(k * t == t * k) by (nonlinear_arith);
        products_are_not_negative(t, k);
        sums_saturate(before, t * k);
        assert(saturated(before) == before);
        assert(primitives(a, n + 1) == primitives(nodes, n) + 1);
        assert(k * 1 == k);
    } else {
        assert(k * 0 == 0) by (nonlinear_arith);
    }
}

proof fn totals_are_not_negative(nodes: Seq<SculptNode>, n: int)
    ensures
        0 <= triangles(nodes, n) <= usize::MAX,
        0 <= primitives(nodes, n) <= usize::MAX,
    decreases n,
{
    if n > 0 {
        totals_are_not_negative(nodes, n - 1);
        if node_geometry(nodes[n - 1]) is Some {
            products_are_not_negative(
                node_geometry(nodes[n - 1])->0.triangles as int,
                repeat_count(nodes[n - 1]) as int,
            );
        }
    }
}

// ---- the whole spec ----

#[verifier::spinoff_prover]
proof fn head_is_checked(spec: SculptSpec)
    ensures
        head_conflicts(spec, spec_json(spec)).len() == 0 <==> {
            &&& spec.schema_version == 1
            &&& is_id(spec.asset_id@)
            &&& 1 <= spec.version <= 65535
            &&& 1 <= spec.name@.len()
            &&& utf8_len(spec.name@) <= 80
            &&& utf8_len(spec_json(spec)) <= 65536
            &&& 1 <= spec.materials@.len() <= 32
        },
{
    ids_are_ids(spec.asset_id@);
}

/// The totals of nodes that are in order count every copy of them.
pub proof fn sound_nodes_are_counted(spec: SculptSpec)
    requires
        forall|i: int|
            0 <= i < spec.nodes@.len() ==> #[trigger] is_node(spec.nodes@, spec.materials@, i),
    ensures
        primitives(spec.nodes@, spec.nodes@.len() as int) == saturated(
            drawn_copies(spec.nodes@, spec.nodes@.len() as int),
        ),
        triangles(spec.nodes@, spec.nodes@.len() as int) == saturated(
            drawn_triangles(spec.nodes@, spec.nodes@.len() as int),
        ),
{
    let nodes = spec.nodes@;
    assert forall|i: int| #![trigger nodes[i]] 0 <= i < nodes.len() implies {
        &&& is_id(nodes[i].id@)
        &&& forall|j: int| 0 <= j < i ==> (#[trigger] nodes[j]).id@ != nodes[i].id@
        &&& has_shape(nodes[i])
        &&& nodes[i].kind@ != "group"@ ==> nodes[i].material is Some
    } by {
        assert(is_node(nodes, spec.materials@, i));
    }
    totals_count_every_copy(nodes, nodes.len() as int);
}

/// A spec is accepted exactly where it is in order, with every copy counted.
#[verifier::spinoff_prover]
pub proof fn spec_is_accepted_exactly_when(spec: SculptSpec)
    ensures
        spec_conflicts(spec).len() == 0 <==> is_valid_spec(spec),
{
    let n = spec.nodes@.len() as int;
    head_is_checked(spec);
    materials_are_checked(spec.materials@, spec.materials@.len() as int);
    nodes_are_checked(spec.nodes@, spec.materials@, n);
    collision_is_checked(spec.collision);
    animations_are_checked(spec.animations@, spec.nodes@, spec.animations@.len() as int);
    if forall|i: int| 0 <= i < n ==> #[trigger] is_node(spec.nodes@, spec.materials@, i) {
        sound_nodes_are_counted(spec);
    }
    assert(spec_conflicts(spec).len() == head_conflicts(spec, spec_json(spec)).len()
        + all_material_conflicts(spec.materials@, spec.materials@.len() as int).len() + (if n == 0
        || n > 128 {
        1int
    } else {
        0int
    }) + all_node_conflicts(spec.nodes@, material_ids(spec.materials@), n).len() + total_conflicts(
        spec.nodes@,
    ).len() + collision_conflicts(spec.collision).len() + tail_conflicts(spec).len()
        + animation_conflicts(
        spec.animations@,
        node_ids(spec.nodes@),
        spec.animations@.len() as int,
    ).len());
}

/// The budget of an accepted spec counts its nodes, its materials and its animations one by one, and
/// every copy that is drawn.
pub proof fn budget_of_an_accepted_spec(
    spec: SculptSpec,
    budget: SculptBudget,
    bounds: Option<SculptBounds>,
)
    requires
        is_valid_spec(spec),
        is_budget(budget, spec, bounds),
    ensures
        budget.source_bytes == utf8_len(spec_json(spec)),
        budget.nodes == spec.nodes@.len(),
        budget.materials == spec.materials@.len(),
        budget.animations == spec.animations@.len(),
        budget.expanded_primitives == drawn_copies(spec.nodes@, spec.nodes@.len() as int),
        budget.estimated_draw_calls == drawn_copies(spec.nodes@, spec.nodes@.len() as int),
        budget.estimated_triangles == drawn_triangles(spec.nodes@, spec.nodes@.len() as int),
        budget.textures == 0,
        budget.bounds == bounds,
{
    sound_nodes_are_counted(spec);
    all_nodes_are_fresh(spec, spec.nodes@.len() as int);
    all_materials_are_fresh(spec, spec.materials@.len() as int);
}

proof fn all_nodes_are_fresh(spec: SculptSpec, n: int)
    requires
        is_valid_spec(spec),
        0 <= n <= spec.nodes@.len(),
    ensures
        fresh_count(node_ids(spec.nodes@), n) == n,
    decreases n,
{
    if n > 0 {
        all_nodes_are_fresh(spec, n - 1);
        assert(is_node(spec.nodes@, spec.materials@, n - 1));
        let id = spec.nodes@[n - 1].id@;
        ids_are_ids(id);
        listed_nodes(spec.nodes@, n - 1, id);
        assert(node_ids(spec.nodes@)[n - 1] == id);
    }
}

proof fn all_materials_are_fresh(spec: SculptSpec, n: int)
    requires
        is_valid_spec(spec),
        0 <= n <= spec.materials@.len(),
    ensures
        fresh_count(material_ids(spec.materials@), n) == n,
    decreases n,
{
    if n > 0 {
        all_materials_are_fresh(spec, n - 1);
        assert(is_material(spec.materials@, n - 1));
        let id = spec.materials@[n - 1].id@;
        ids_are_ids(id);
        listed_materials(spec.materials@, n - 1, id);
        assert(material_ids(spec.materials@)[n - 1] == id);
    }
}

} // verus!
