//! Sculpt specs: declarative assets made of primitive shapes, checked against fixed limits.

use vstd::prelude::*;
use vstd::string::StringExecFns;
use vstd::utf8::encode_utf8;
use crate::digest::{hash_text, hex, is_hash, sha256_of};
use crate::scalar::Scalar;
use crate::sculpt_json::{canonical_spec_json, spec_json};
use crate::text::{byte_len, chars_of, decimal_nat, push_u64, same_text, utf8_len};

verus! {

pub const SCULPT_SPEC_SCHEMA_VERSION: u32 = 1;

pub const MAX_SCULPT_SPEC_BYTES: usize = 65536;

pub const MAX_SCULPT_NODES: usize = 128;

pub const MAX_SCULPT_MATERIALS: usize = 32;

pub const MAX_SCULPT_ANIMATIONS: usize = 32;

pub const MAX_SCULPT_PRIMITIVES: usize = 256;

pub const MAX_SCULPT_TRIANGLES: usize = 50000;

pub struct SculptSpec {
    pub schema_version: u32,
    pub asset_id: String,
    pub version: u32,
    pub name: String,
    pub materials: Vec<SculptMaterial>,
    pub nodes: Vec<SculptNode>,
    pub collision: SculptCollision,
    pub lod: SculptLod,
    pub animations: Vec<SculptAnimation>,
}

pub struct SculptMaterial {
    pub id: String,
    pub base_color: String,
    pub emissive_color: String,
    pub metalness: Scalar,
    pub roughness: Scalar,
    pub opacity: Scalar,
}

pub struct SculptNode {
    pub id: String,
    pub parent: Option<String>,
    pub kind: String,
    pub material: Option<String>,
    pub position: [Scalar; 3],
    pub rotation_degrees: [Scalar; 3],
    pub scale: [Scalar; 3],
    pub size: Option<Vec<Scalar>>,
    pub radius: Option<Scalar>,
    pub radius_top: Option<Scalar>,
    pub radius_bottom: Option<Scalar>,
    pub height: Option<Scalar>,
    pub segments: Option<u32>,
    pub repeat: Option<SculptRepeat>,
}

pub struct SculptRepeat {
    pub count: u32,
    pub offset: [Scalar; 3],
}

pub struct SculptCollision {
    pub mode: String,
    pub boxes: Vec<SculptCollisionBox>,
}

pub struct SculptCollisionBox {
    pub center: [Scalar; 3],
    pub size: [Scalar; 3],
}

pub struct SculptLod {
    pub max_distance: Scalar,
}

pub struct SculptAnimation {
    pub node: String,
    pub kind: String,
    pub axis: String,
    pub speed: Scalar,
    pub amplitude: Scalar,
}

#[derive(Debug, Clone, Copy, PartialEq, Eq)]
pub struct SculptBudget {
    pub source_bytes: usize,
    pub nodes: usize,
    pub expanded_primitives: usize,
    pub estimated_triangles: usize,
    pub estimated_draw_calls: usize,
    pub materials: usize,
    pub animations: usize,
    pub textures: usize,
    pub bounds: Option<SculptBounds>,
}

#[derive(Debug, Clone, Copy, PartialEq, Eq)]
pub struct SculptBounds {
    pub min: SculptVec3,
    pub max: SculptVec3,
}

#[derive(Debug, Clone, Copy, PartialEq, Eq)]
pub struct SculptVec3 {
    pub x: Scalar,
    pub y: Scalar,
    pub z: Scalar,
}

#[derive(Debug, Clone, PartialEq, Eq)]
pub struct SculptConflict {
    pub code: String,
    pub message: String,
    pub node: Option<String>,
}

/// What a conflict says.
pub struct SculptConflictView {
    pub code: Seq<char>,
    pub message: Seq<char>,
    pub node: Option<Seq<char>>,
}

/// The text in an optional string.
pub open spec fn optional_text(s: Option<String>) -> Option<Seq<char>> {
    match s {
        Some(s) => Some(s@),
        None => None,
    }
}

impl View for SculptConflict {
    type V = SculptConflictView;

    open spec fn view(&self) -> SculptConflictView {
        SculptConflictView {
            code: self.code@,
            message: self.message@,
            node: optional_text(self.node),
        }
    }
}

/// What a list of conflicts says.
pub open spec fn sculpt_views(conflicts: Seq<SculptConflict>) -> Seq<SculptConflictView> {
    conflicts.map_values(|conflict: SculptConflict| conflict@)
}

/// A spec with its canonical text and hash, its budget, and what stands against it.
pub struct ValidatedSculptSpec {
    pub spec: SculptSpec,
    pub canonical_json: String,
    pub spec_hash: String,
    pub budget: SculptBudget,
    pub conflicts: Vec<SculptConflict>,
}

impl ValidatedSculptSpec {
    pub fn is_valid(&self) -> (r: bool)
        ensures
            r == (self.conflicts@.len() == 0),
    {
        self.conflicts.len() == 0
    }
}

/// A list with one conflict, or none.
pub open spec fn conflict_if(
    holds: bool,
    code: Seq<char>,
    message: Seq<char>,
    node: Option<Seq<char>>,
) -> Seq<SculptConflictView> {
    if holds {
        seq![SculptConflictView { code, message, node }]
    } else {
        seq![]
    }
}

/// Adds a conflict.
pub fn push(conflicts: &mut Vec<SculptConflict>, code: &str, message: String, node: Option<&str>)
    ensures
        sculpt_views(final(conflicts)@) == sculpt_views(old(conflicts)@) + seq![
            SculptConflictView {
                code: code@,
                message: message@,
                node: match node {
                    Some(node) => Some(node@),
                    None => None,
                },
            },
        ],
{
    let node = match node {
        Some(node) => Some(node.to_owned()),
        None => None,
    };
    let ghost before = sculpt_views(conflicts@);
    conflicts.push(SculptConflict { code: code.to_owned(), message, node });
    proof {
        assert(sculpt_views(conflicts@) =~= before + seq![conflicts@.last()@]);
    }
}

// ---- names and ranges ----

/// True iff the character may stand in an id behind its first one.
pub open spec fn id_char(c: char) -> bool {
    'a' <= c <= 'z' || '0' <= c <= '9' || c == '_' || c == '-'
}

/// True iff the text matches `^[a-z][a-z0-9_-]{0,63}$`.
pub open spec fn well_formed_id(s: Seq<char>) -> bool {
    &&& 0 < s.len() <= 64
    &&& 'a' <= s[0] <= 'z'
    &&& forall|i: int| 1 <= i < s.len() ==> id_char(#[trigger] s[i])
}

pub fn valid_id(value: &str) -> (r: bool)
    ensures
        r == well_formed_id(value@),
{
    let chars = chars_of(value);
    if chars.len() == 0 || chars.len() > 64 || chars[0] < 'a' || chars[0] > 'z' {
        return false;
    }
    let mut i: usize = 1;
    while i < chars.len()
        invariant
            1 <= i <= chars@.len(),
            chars@ == value@,
            forall|j: int| 1 <= j < i ==> id_char(#[trigger] chars@[j]),
        decreases chars@.len() - i,
    {
        let c = chars[i];
        if !(('a' <= c && c <= 'z') || ('0' <= c && c <= '9') || c == '_' || c == '-') {
            return false;
        }
        i = i + 1;
    }
    true
}

pub open spec fn hex_char(c: char) -> bool {
    '0' <= c <= '9' || 'a' <= c <= 'f' || 'A' <= c <= 'F'
}

/// True iff the text is `#RRGGBB`.
pub open spec fn well_formed_color(s: Seq<char>) -> bool {
    &&& s.len() == 7
    &&& s[0] == '#'
    &&& forall|i: int| 1 <= i < 7 ==> hex_char(#[trigger] s[i])
}

pub fn valid_color(value: &str) -> (r: bool)
    ensures
        r == well_formed_color(value@),
{
    let chars = chars_of(value);
    if chars.len() != 7 || chars[0] != '#' {
        return false;
    }
    let mut i: usize = 1;
    while i < 7
        invariant
            1 <= i <= 7,
            chars@ == value@,
            chars@.len() == 7,
            forall|j: int| 1 <= j < i ==> hex_char(#[trigger] chars@[j]),
        decreases 7 - i,
    {
        let c = chars[i];
        if !(('0' <= c && c <= '9') || ('a' <= c && c <= 'f') || ('A' <= c && c <= 'F')) {
            return false;
        }
        i = i + 1;
    }
    true
}

/// True iff every component is finite and lies in `low..=high`.
pub open spec fn vector_within(v: Seq<Scalar>, low: int, high: int) -> bool {
    v[0].within(low, high) && v[1].within(low, high) && v[2].within(low, high)
}

/// True iff every component is finite, at least one hundredth and at most `high`.
pub open spec fn vector_positive(v: Seq<Scalar>, high: int) -> bool {
    v[0].positive_up_to(high) && v[1].positive_up_to(high) && v[2].positive_up_to(high)
}

pub fn is_vector_within(v: &[Scalar; 3], low: i32, high: i32) -> (r: bool)
    ensures
        r == vector_within(v@, low as int, high as int),
{
    v[0].is_within(low, high) && v[1].is_within(low, high) && v[2].is_within(low, high)
}

pub fn is_vector_positive(v: &[Scalar; 3], high: i32) -> (r: bool)
    ensures
        r == vector_positive(v@, high as int),
{
    v[0].is_positive_up_to(high) && v[1].is_positive_up_to(high) && v[2].is_positive_up_to(high)
}

pub fn valid_segments(value: u32) -> (r: bool)
    ensures
        r == (3 <= value <= 32),
{
    3 <= value && value <= 32
}

// ---- materials ----

/// The ids of the materials.
pub open spec fn material_ids(materials: Seq<SculptMaterial>) -> Seq<Seq<char>> {
    materials.map_values(|material: SculptMaterial| material.id@)
}

/// The ids of the nodes.
pub open spec fn node_ids(nodes: Seq<SculptNode>) -> Seq<Seq<char>> {
    nodes.map_values(|node: SculptNode| node.id@)
}

/// True iff `id` is among the first `n` ids.
pub open spec fn listed(ids: Seq<Seq<char>>, n: int, id: Seq<char>) -> bool {
    exists|j: int| 0 <= j < n && #[trigger] ids[j] == id
}

/// True iff the id number `i` is well formed and occurs here for the first time.
pub open spec fn fresh(ids: Seq<Seq<char>>, i: int) -> bool {
    well_formed_id(ids[i]) && !listed(ids, i, ids[i])
}

/// True iff one of the first `n` ids defines `id`.
pub open spec fn defined(ids: Seq<Seq<char>>, n: int, id: Seq<char>) -> bool {
    well_formed_id(id) && listed(ids, n, id)
}

/// How many of the first `n` ids are fresh.
pub open spec fn fresh_count(ids: Seq<Seq<char>>, n: int) -> nat
    decreases n,
{
    if n <= 0 {
        0
    } else {
        fresh_count(ids, n - 1) + (if fresh(ids, n - 1) {
            1nat
        } else {
            0nat
        })
    }
}

fn material_listed(materials: &Vec<SculptMaterial>, n: usize, id: &str) -> (r: bool)
    requires
        n <= materials@.len(),
    ensures
        r == listed(material_ids(materials@), n as int, id@),
{
    let ghost ids = material_ids(materials@);
    let mut j: usize = 0;
    while j < n
        invariant
            j <= n <= materials@.len(),
            ids == material_ids(materials@),
            forall|k: int| 0 <= k < j ==> #[trigger] ids[k] != id@,
        decreases n - j,
    {
        proof {
            assert(ids[j as int] == materials@[j as int].id@);
        }
        if same_text(materials[j].id.as_str(), id) {
            return true;
        }
        j = j + 1;
    }
    false
}

/// The number of the first of the first `n` nodes with that id.
fn find_node(nodes: &Vec<SculptNode>, n: usize, id: &str) -> (r: Option<usize>)
    requires
        n <= nodes@.len(),
    ensures
        r is Some == listed(node_ids(nodes@), n as int, id@),
        r matches Some(j) ==> j < n && node_ids(nodes@)[j as int] == id@ && !listed(
            node_ids(nodes@),
            j as int,
            id@,
        ),
{
    let ghost ids = node_ids(nodes@);
    let mut j: usize = 0;
    while j < n
        invariant
            j <= n <= nodes@.len(),
            ids == node_ids(nodes@),
            forall|k: int| 0 <= k < j ==> #[trigger] ids[k] != id@,
        decreases n - j,
    {
        proof {
            assert(ids[j as int] == nodes@[j as int].id@);
        }
        if same_text(nodes[j].id.as_str(), id) {
            return Some(j);
        }
        j = j + 1;
    }
    None
}

/// What stands against the material number `i`.
pub open spec fn material_conflicts(materials: Seq<SculptMaterial>, i: int) -> Seq<
    SculptConflictView,
> {
    let m = materials[i];
    conflict_if(
        !fresh(material_ids(materials), i),
        "invalid_material"@,
        "material id `"@ + m.id@ + "` is invalid or duplicated"@,
        None,
    ) + conflict_if(
        !well_formed_color(m.base_color@) || !well_formed_color(m.emissive_color@),
        "invalid_color"@,
        "material `"@ + m.id@ + "` colors must be #RRGGBB"@,
        None,
    ) + share_conflict(m.id@, "metalness"@, m.metalness) + share_conflict(
        m.id@,
        "roughness"@,
        m.roughness,
    ) + share_conflict(m.id@, "opacity"@, m.opacity)
}

/// The conflict of a material's value that is no share of one.
pub open spec fn share_conflict(id: Seq<char>, name: Seq<char>, value: Scalar) -> Seq<
    SculptConflictView,
> {
    conflict_if(
        !value.within(0, 1),
        "invalid_material_value"@,
        "material `"@ + id + "` "@ + name + " must be finite and in [0,1]"@,
        None,
    )
}

/// What stands against the first `n` materials.
pub open spec fn all_material_conflicts(materials: Seq<SculptMaterial>, n: int) -> Seq<
    SculptConflictView,
>
    decreases n,
{
    if n <= 0 {
        seq![]
    } else {
        all_material_conflicts(materials, n - 1) + material_conflicts(materials, n - 1)
    }
}

fn check_share(conflicts: &mut Vec<SculptConflict>, id: &str, name: &str, value: Scalar)
    ensures
        sculpt_views(final(conflicts)@) == sculpt_views(old(conflicts)@) + share_conflict(
            id@,
            name@,
            value,
        ),
{
    if !value.is_within(0, 1) {
        let mut message = "material `".to_owned();
        message.append(id);
        message.append("` ");
        message.append(name);
        message.append(" must be finite and in [0,1]");
        push(conflicts, "invalid_material_value", message, None);
    } else {
        proof {
            assert(sculpt_views(conflicts@) + Seq::<SculptConflictView>::empty() =~= sculpt_views(
                conflicts@,
            ));
        }
    }
}

fn check_material(conflicts: &mut Vec<SculptConflict>, materials: &Vec<SculptMaterial>, i: usize) -> (r:
    bool)
    requires
        i < materials@.len(),
    ensures
        r == fresh(material_ids(materials@), i as int),
        sculpt_views(final(conflicts)@) == sculpt_views(old(conflicts)@) + material_conflicts(
            materials@,
            i as int,
        ),
{
    let ghost start = sculpt_views(conflicts@);
    let material = &materials[i];
    let ghost ids = material_ids(materials@);
    proof {
        assert(ids[i as int] == material.id@);
    }
    let id = material.id.as_str();
    let is_fresh = valid_id(id) && !material_listed(materials, i, id);
    if !is_fresh {
        let mut message = "material id `".to_owned();
        message.append(id);
        message.append("` is invalid or duplicated");
        push(conflicts, "invalid_material", message, None);
    }
    if !valid_color(material.base_color.as_str()) || !valid_color(
        material.emissive_color.as_str(),
    ) {
        let mut message = "material `".to_owned();
        message.append(id);
        message.append("` colors must be #RRGGBB");
        push(conflicts, "invalid_color", message, None);
    }
    check_share(conflicts, id, "metalness", material.metalness);
    check_share(conflicts, id, "roughness", material.roughness);
    check_share(conflicts, id, "opacity", material.opacity);
    proof {
        assert(sculpt_views(conflicts@) =~= start + material_conflicts(materials@, i as int));
    }
    is_fresh
}

// ---- geometry ----

/// The extent of a primitive, before its node's scale.
#[derive(Debug, Clone, Copy, PartialEq, Eq, Structural)]
pub enum NodeExtent {
    Cuboid { x: Scalar, y: Scalar, z: Scalar },
    Plane { x: Scalar, y: Scalar },
    Sphere { radius: Scalar },
    Cylinder { top: Scalar, bottom: Scalar, height: Scalar },
    Cone { radius: Scalar, height: Scalar },
}

/// The geometry of a primitive.
#[derive(Debug, Clone, Copy, PartialEq, Eq, Structural)]
pub struct NodeGeometry {
    pub triangles: usize,
    pub extent: NodeExtent,
}

/// True iff the number is a dimension: finite, at least one hundredth and at most 64.
pub open spec fn is_dimension(value: Scalar) -> bool {
    value.positive_up_to(64)
}

/// True iff the node has none of the fields of round shapes.
pub open spec fn no_round_fields(node: SculptNode) -> bool {
    node.radius is None && node.radius_top is None && node.radius_bottom is None && node.height
        is None && node.segments is None
}

/// True iff the node has no material and no geometry field.
pub open spec fn bare_group(node: SculptNode) -> bool {
    node.material is None && node.size is None && no_round_fields(node)
}

/// The geometry that a primitive node of a kind declares, where it declares that kind's fields
/// with proper values and no others.
pub open spec fn declared_geometry(node: SculptNode) -> Option<NodeGeometry> {
    if node.kind@ == "box"@ {
        match node.size {
            Some(size) => if size@.len() == 3 && is_dimension(size@[0]) && is_dimension(size@[1])
                && is_dimension(size@[2]) && no_round_fields(node) {
                Some(
                    NodeGeometry {
                        triangles: 12,
                        extent: NodeExtent::Cuboid { x: size@[0], y: size@[1], z: size@[2] },
                    },
                )
            } else {
                None
            },
            None => None,
        }
    } else if node.kind@ == "plane"@ {
        match node.size {
            Some(size) => if size@.len() == 2 && is_dimension(size@[0]) && is_dimension(size@[1])
                && no_round_fields(node) {
                Some(
                    NodeGeometry {
                        triangles: 2,
                        extent: NodeExtent::Plane { x: size@[0], y: size@[1] },
                    },
                )
            } else {
                None
            },
            None => None,
        }
    } else if node.kind@ == "sphere"@ {
        match (node.radius, node.segments) {
            (Some(radius), Some(segments)) => if is_dimension(radius) && 3 <= segments <= 32
                && node.size is None && node.height is None && node.radius_top is None
                && node.radius_bottom is None {
                Some(
                    NodeGeometry {
                        triangles: (2 * segments * ((segments + 1) / 2)) as usize,
                        extent: NodeExtent::Sphere { radius },
                    },
                )
            } else {
                None
            },
            _ => None,
        }
    } else if node.kind@ == "cylinder"@ {
        match (node.radius_top, node.radius_bottom, node.height, node.segments) {
            (Some(top), Some(bottom), Some(height), Some(segments)) => if is_dimension(top)
                && is_dimension(bottom) && is_dimension(height) && 3 <= segments <= 32 && node.size
                is None && node.radius is None {
                Some(
                    NodeGeometry {
                        triangles: (4 * segments) as usize,
                        extent: NodeExtent::Cylinder { top, bottom, height },
                    },
                )
            } else {
                None
            },
            _ => None,
        }
    } else if node.kind@ == "cone"@ {
        match (node.radius, node.height, node.segments) {
            (Some(radius), Some(height), Some(segments)) => if is_dimension(radius)
                && is_dimension(height) && 3 <= segments <= 32 && node.size is None
                && node.radius_top is None && node.radius_bottom is None {
                Some(
                    NodeGeometry {
                        triangles: (2 * segments) as usize,
                        extent: NodeExtent::Cone { radius, height },
                    },
                )
            } else {
                None
            },
            _ => None,
        }
    } else {
        None
    }
}

/// What is said of a primitive node of a kind that lacks its geometry.
pub open spec fn geometry_message(kind: Seq<char>) -> Seq<char> {
    if kind == "box"@ {
        "box requires only a positive 3-component size"@
    } else if kind == "plane"@ {
        "plane requires only a positive 2-component size"@
    } else if kind == "sphere"@ {
        "sphere requires radius and segments only"@
    } else if kind == "cylinder"@ {
        "cylinder requires radius_top, radius_bottom, height, and segments"@
    } else if kind == "cone"@ {
        "cone requires radius, height, and segments"@
    } else {
        "unsupported node kind"@
    }
}

/// The geometry that a node contributes: a primitive needs a material too.
pub open spec fn node_geometry(node: SculptNode) -> Option<NodeGeometry> {
    if node.kind@ == "group"@ || node.material is None {
        None
    } else {
        declared_geometry(node)
    }
}

/// What stands against the geometry of a node.
pub open spec fn geometry_conflicts(node: SculptNode, materials: Seq<Seq<char>>) -> Seq<
    SculptConflictView,
> {
    let id = Some(node.id@);
    if node.kind@ == "group"@ {
        conflict_if(
            !bare_group(node),
            "invalid_group"@,
            "group nodes cannot declare material or geometry fields"@,
            id,
        )
    } else {
        match node.material {
            None => conflict_if(
                true,
                "missing_material"@,
                "primitive node requires material"@,
                id,
            ),
            Some(material) => conflict_if(
                !defined(materials, materials.len() as int, material@),
                "unknown_material"@,
                "material `"@ + material@ + "` is not defined"@,
                id,
            ) + conflict_if(
                declared_geometry(node) is None,
                "invalid_geometry"@,
                geometry_message(node.kind@),
                id,
            ),
        }
    }
}

fn has_no_round_fields(node: &SculptNode) -> (r: bool)
    ensures
        r == no_round_fields(*node),
{
    node.radius.is_none() && node.radius_top.is_none() && node.radius_bottom.is_none()
        && node.height.is_none() && node.segments.is_none()
}

fn dimension(value: Scalar) -> (r: bool)
    ensures
        r == is_dimension(value),
{
    value.is_positive_up_to(64)
}

fn box_geometry(node: &SculptNode) -> (r: Option<NodeGeometry>)
    requires
        node.kind@ == "box"@,
    ensures
        r == declared_geometry(*node),
{
    match &node.size {
        Some(size) => if size.len() == 3 && dimension(size[0]) && dimension(size[1]) && dimension(
            size[2],
        ) && has_no_round_fields(node) {
            Some(
                NodeGeometry {
                    triangles: 12,
                    extent: NodeExtent::Cuboid { x: size[0], y: size[1], z: size[2] },
                },
            )
        } else {
            None
        },
        None => None,
    }
}

fn plane_geometry(node: &SculptNode) -> (r: Option<NodeGeometry>)
    requires
        node.kind@ == "plane"@,
        node.kind@ != "box"@,
    ensures
        r == declared_geometry(*node),
{
    match &node.size {
        Some(size) => if size.len() == 2 && dimension(size[0]) && dimension(size[1])
            && has_no_round_fields(node) {
            Some(
                NodeGeometry {
                    triangles: 2,
                    extent: NodeExtent::Plane { x: size[0], y: size[1] },
                },
            )
        } else {
            None
        },
        None => None,
    }
}

fn sphere_geometry(node: &SculptNode) -> (r: Option<NodeGeometry>)
    requires
        node.kind@ == "sphere"@,
        node.kind@ != "box"@,
        node.kind@ != "plane"@,
    ensures
        r == declared_geometry(*node),
{
    match (node.radius, node.segments) {
        (Some(radius), Some(segments)) => if dimension(radius) && valid_segments(segments)
            && node.size.is_none() && node.height.is_none() && node.radius_top.is_none()
            && node.radius_bottom.is_none() {
            let rings: u32 = (segments + 1) / 2;
            proof {
                assert(2 * segments * rings <= 2 * 32 * 17) by (nonlinear_arith)
                    requires
                        segments <= 32,
                        rings <= 17,
                ;
            }
            Some(
                NodeGeometry {
                    triangles: (2 * segments * rings) as usize,
                    extent: NodeExtent::Sphere { radius },
                },
            )
        } else {
            None
        },
        _ => None,
    }
}

fn cylinder_geometry(node: &SculptNode) -> (r: Option<NodeGeometry>)
    requires
        node.kind@ == "cylinder"@,
        node.kind@ != "box"@,
        node.kind@ != "plane"@,
        node.kind@ != "sphere"@,
    ensures
        r == declared_geometry(*node),
{
    match (node.radius_top, node.radius_bottom, node.height, node.segments) {
        (Some(top), Some(bottom), Some(height), Some(segments)) => if dimension(top) && dimension(
            bottom,
        ) && dimension(height) && valid_segments(segments) && node.size.is_none()
            && node.radius.is_none() {
            Some(
                NodeGeometry {
                    triangles: (4 * segments) as usize,
                    extent: NodeExtent::Cylinder { top, bottom, height },
                },
            )
        } else {
            None
        },
        _ => None,
    }
}

fn cone_geometry(node: &SculptNode) -> (r: Option<NodeGeometry>)
    requires
        node.kind@ == "cone"@,
        node.kind@ != "box"@,
        node.kind@ != "plane"@,
        node.kind@ != "sphere"@,
        node.kind@ != "cylinder"@,
    ensures
        r == declared_geometry(*node),
{
    match (node.radius, node.height, node.segments) {
        (Some(radius), Some(height), Some(segments)) => if dimension(radius) && dimension(height)
            && valid_segments(segments) && node.size.is_none() && node.radius_top.is_none()
            && node.radius_bottom.is_none() {
            Some(
                NodeGeometry {
                    triangles: (2 * segments) as usize,
                    extent: NodeExtent::Cone { radius, height },
                },
            )
        } else {
            None
        },
        _ => None,
    }
}

/// The geometry that a primitive node declares, and what is said where it declares none.
fn primitive_geometry(node: &SculptNode) -> (r: (Option<NodeGeometry>, &'static str))
    ensures
        r.0 == declared_geometry(*node),
        r.1@ == geometry_message(node.kind@),
{
    let kind = node.kind.as_str();
    if same_text(kind, "box") {
        (box_geometry(node), "box requires only a positive 3-component size")
    } else if same_text(kind, "plane") {
        (plane_geometry(node), "plane requires only a positive 2-component size")
    } else if same_text(kind, "sphere") {
        (sphere_geometry(node), "sphere requires radius and segments only")
    } else if same_text(kind, "cylinder") {
        (
            cylinder_geometry(node),
            "cylinder requires radius_top, radius_bottom, height, and segments",
        )
    } else if same_text(kind, "cone") {
        (cone_geometry(node), "cone requires radius, height, and segments")
    } else {
        (None, "unsupported node kind")
    }
}

/// Checks the geometry of a node and gives what it contributes.
pub fn validate_node_geometry(
    node: &SculptNode,
    materials: &Vec<SculptMaterial>,
    conflicts: &mut Vec<SculptConflict>,
) -> (r: Option<NodeGeometry>)
    ensures
        r == node_geometry(*node),
        sculpt_views(final(conflicts)@) == sculpt_views(old(conflicts)@) + geometry_conflicts(
            *node,
            material_ids(materials@),
        ),
{
    let ghost start = sculpt_views(conflicts@);
    if same_text(node.kind.as_str(), "group") {
        if node.material.is_some() || node.size.is_some() || !has_no_round_fields(node) {
            push(
                conflicts,
                "invalid_group",
                "group nodes cannot declare material or geometry fields".to_owned(),
                Some(node.id.as_str()),
            );
        }
        proof {
            assert(sculpt_views(conflicts@) =~= start + geometry_conflicts(
                *node,
                material_ids(materials@),
            ));
        }
        return None;
    }
    match &node.material {
        None => {
            push(
                conflicts,
                "missing_material",
                "primitive node requires material".to_owned(),
                Some(node.id.as_str()),
            );
            None
        },
        Some(material) => {
            if !(valid_id(material.as_str()) && material_listed(
                materials,
                materials.len(),
                material.as_str(),
            )) {
                let mut message = "material `".to_owned();
                message.append(material.as_str());
                message.append("` is not defined");
                push(conflicts, "unknown_material", message, Some(node.id.as_str()));
            }
            let (geometry, message) = primitive_geometry(node);
            if geometry.is_none() {
                push(
                    conflicts,
                    "invalid_geometry",
                    message.to_owned(),
                    Some(node.id.as_str()),
                );
            }
            proof {
                assert(sculpt_views(conflicts@) =~= start + geometry_conflicts(
                    *node,
                    material_ids(materials@),
                ));
            }
            geometry
        },
    }
}

// ---- nodes ----

/// How often a node is repeated.
pub open spec fn repeat_count(node: SculptNode) -> u32 {
    match node.repeat {
        Some(repeat) => repeat.count,
        None => 1,
    }
}

/// What stands against the parent of the node number `i`.
pub open spec fn parent_conflicts(nodes: Seq<SculptNode>, i: int) -> Seq<SculptConflictView> {
    match nodes[i].parent {
        Some(parent) => conflict_if(
            !defined(node_ids(nodes), i, parent@),
            "invalid_parent"@,
            "parent `"@ + parent@ + "` must reference an earlier node"@,
            Some(nodes[i].id@),
        ),
        None => seq![],
    }
}

/// What stands against the repetition of a node.
pub open spec fn offset_conflicts(node: SculptNode) -> Seq<SculptConflictView> {
    match node.repeat {
        Some(repeat) => conflict_if(
            !vector_within(repeat.offset@, -64, 64),
            "invalid_repeat_offset"@,
            "repeat.offset must be finite and in [-64,64]"@,
            Some(node.id@),
        ),
        None => seq![],
    }
}

/// What stands against the node number `i`. A node without a fresh id is looked at no further.
pub open spec fn node_conflicts(nodes: Seq<SculptNode>, materials: Seq<Seq<char>>, i: int) -> Seq<
    SculptConflictView,
> {
    let node = nodes[i];
    let id = Some(node.id@);
    if !fresh(node_ids(nodes), i) {
        conflict_if(
            true,
            "invalid_node_id"@,
            "node id `"@ + node.id@ + "` is invalid or duplicated"@,
            id,
        )
    } else {
        parent_conflicts(nodes, i) + conflict_if(
            !vector_within(node.position@, -64, 64),
            "invalid_position"@,
            "position components must be finite and in [-64,64]"@,
            id,
        ) + conflict_if(
            !vector_within(node.rotation_degrees@, -3600, 3600),
            "invalid_rotation"@,
            "rotation components must be finite and in [-3600,3600]"@,
            id,
        ) + conflict_if(
            !vector_positive(node.scale@, 16),
            "invalid_scale"@,
            "scale components must be finite and in [0.01,16]"@,
            id,
        ) + conflict_if(
            !(1 <= repeat_count(node) <= 32),
            "repeat_limit"@,
            "repeat.count must be in 1..=32"@,
            id,
        ) + offset_conflicts(node) + geometry_conflicts(node, materials)
    }
}

/// What stands against the first `n` nodes.
pub open spec fn all_node_conflicts(nodes: Seq<SculptNode>, materials: Seq<Seq<char>>, n: int) -> Seq<
    SculptConflictView,
>
    decreases n,
{
    if n <= 0 {
        seq![]
    } else {
        all_node_conflicts(nodes, materials, n - 1) + node_conflicts(nodes, materials, n - 1)
    }
}

/// The number, or the greatest size where it is greater.
pub open spec fn saturated(n: int) -> int {
    if n > usize::MAX {
        usize::MAX as int
    } else {
        n
    }
}

/// How many primitives the first `n` nodes expand to.
pub open spec fn primitives(nodes: Seq<SculptNode>, n: int) -> int
    decreases n,
{
    if n <= 0 {
        0
    } else if fresh(node_ids(nodes), n - 1) && node_geometry(nodes[n - 1]) is Some {
        saturated(primitives(nodes, n - 1) + repeat_count(nodes[n - 1]))
    } else {
        primitives(nodes, n - 1)
    }
}

/// How many triangles the first `n` nodes expand to.
pub open spec fn triangles(nodes: Seq<SculptNode>, n: int) -> int
    decreases n,
{
    if n <= 0 {
        0
    } else if fresh(node_ids(nodes), n - 1) && node_geometry(nodes[n - 1]) is Some {
        saturated(
            triangles(nodes, n - 1) + saturated(
                node_geometry(nodes[n - 1])->0.triangles * repeat_count(nodes[n - 1]),
            ),
        )
    } else {
        triangles(nodes, n - 1)
    }
}

fn push_if(
    conflicts: &mut Vec<SculptConflict>,
    holds: bool,
    code: &str,
    message: &str,
    node: &String,
)
    ensures
        sculpt_views(final(conflicts)@) == sculpt_views(old(conflicts)@) + conflict_if(
            holds,
            code@,
            message@,
            Some(node@),
        ),
{
    if holds {
        push(conflicts, code, message.to_owned(), Some(node.as_str()));
    } else {
        proof {
            assert(sculpt_views(conflicts@) + Seq::<SculptConflictView>::empty() =~= sculpt_views(
                conflicts@,
            ));
        }
    }
}

fn check_parent(conflicts: &mut Vec<SculptConflict>, nodes: &Vec<SculptNode>, i: usize)
    requires
        i < nodes@.len(),
    ensures
        sculpt_views(final(conflicts)@) == sculpt_views(old(conflicts)@) + parent_conflicts(
            nodes@,
            i as int,
        ),
{
    let ghost start = sculpt_views(conflicts@);
    if let Some(parent) = &nodes[i].parent {
        let known = valid_id(parent.as_str()) && find_node(nodes, i, parent.as_str()).is_some();
        let mut message = "parent `".to_owned();
        message.append(parent.as_str());
        message.append("` must reference an earlier node");
        push_if(conflicts, !known, "invalid_parent", message.as_str(), &nodes[i].id);
    } else {
        proof {
            assert(start + Seq::<SculptConflictView>::empty() =~= start);
        }
    }
}

fn check_offset(conflicts: &mut Vec<SculptConflict>, node: &SculptNode)
    ensures
        sculpt_views(final(conflicts)@) == sculpt_views(old(conflicts)@) + offset_conflicts(*node),
{
    let ghost start = sculpt_views(conflicts@);
    if let Some(repeat) = &node.repeat {
        push_if(
            conflicts,
            !is_vector_within(&repeat.offset, -64, 64),
            "invalid_repeat_offset",
            "repeat.offset must be finite and in [-64,64]",
            &node.id,
        );
    } else {
        proof {
            assert(start + Seq::<SculptConflictView>::empty() =~= start);
        }
    }
}

proof fn regroup<A>(s: Seq<A>, a: Seq<A>, b: Seq<A>)
    ensures
        (s + a) + b == s + (a + b),
{
    assert((s + a) + b =~= s + (a + b));
}

/// What one node adds to the budget.
struct NodeShare {
    fresh: bool,
    geometry: Option<NodeGeometry>,
    count: u32,
}

fn check_node(
    conflicts: &mut Vec<SculptConflict>,
    nodes: &Vec<SculptNode>,
    materials: &Vec<SculptMaterial>,
    i: usize,
) -> (r: NodeShare)
    requires
        i < nodes@.len(),
    ensures
        r.fresh == fresh(node_ids(nodes@), i as int),
        r.fresh ==> r.geometry == node_geometry(nodes@[i as int]),
        r.count == repeat_count(nodes@[i as int]),
        sculpt_views(final(conflicts)@) == sculpt_views(old(conflicts)@) + node_conflicts(
            nodes@,
            material_ids(materials@),
            i as int,
        ),
{
    let node = &nodes[i];
    let count: u32 = match &node.repeat {
        Some(repeat) => repeat.count,
        None => 1,
    };
    proof {
        assert(node_ids(nodes@)[i as int] == node.id@);
    }
    if !valid_id(node.id.as_str()) || find_node(nodes, i, node.id.as_str()).is_some() {
        let mut message = "node id `".to_owned();
        message.append(node.id.as_str());
        message.append("` is invalid or duplicated");
        push(conflicts, "invalid_node_id", message, Some(node.id.as_str()));
        return NodeShare { fresh: false, geometry: None, count };
    }
    let ghost start = sculpt_views(conflicts@);
    check_parent(conflicts, nodes, i);
    let ghost c1 = parent_conflicts(nodes@, i as int);
    push_if(
        conflicts,
        !is_vector_within(&node.position, -64, 64),
        "invalid_position",
        "position components must be finite and in [-64,64]",
        &node.id,
    );
    let ghost c2 = conflict_if(
        !vector_within(node.position@, -64, 64),
        "invalid_position"@,
        "position components must be finite and in [-64,64]"@,
        Some(node.id@),
    );
    push_if(
        conflicts,
        !is_vector_within(&node.rotation_degrees, -3600, 3600),
        "invalid_rotation",
        "rotation components must be finite and in [-3600,3600]",
        &node.id,
    );
    let ghost c3 = conflict_if(
        !vector_within(node.rotation_degrees@, -3600, 3600),
        "invalid_rotation"@,
        "rotation components must be finite and in [-3600,3600]"@,
        Some(node.id@),
    );
    push_if(
        conflicts,
        !is_vector_positive(&node.scale, 16),
        "invalid_scale",
        "scale components must be finite and in [0.01,16]",
        &node.id,
    );
    let ghost c4 = conflict_if(
        !vector_positive(node.scale@, 16),
        "invalid_scale"@,
        "scale components must be finite and in [0.01,16]"@,
        Some(node.id@),
    );
    push_if(
        conflicts,
        count < 1 || count > 32,
        "repeat_limit",
        "repeat.count must be in 1..=32",
        &node.id,
    );
    let ghost c5 = conflict_if(
        !(1 <= count <= 32),
        "repeat_limit"@,
        "repeat.count must be in 1..=32"@,
        Some(node.id@),
    );
    check_offset(conflicts, node);
    let ghost c6 = offset_conflicts(*node);
    let geometry = validate_node_geometry(node, materials, conflicts);
    proof {
        let c7 = geometry_conflicts(*node, material_ids(materials@));
        regroup(start, c1, c2);
        regroup(start, c1 + c2, c3);
        regroup(start, c1 + c2 + c3, c4);
        regroup(start, c1 + c2 + c3 + c4, c5);
        regroup(start, c1 + c2 + c3 + c4 + c5, c6);
        regroup(start, c1 + c2 + c3 + c4 + c5 + c6, c7);
    }
    NodeShare { fresh: true, geometry, count }
}

// ---- collision, distance and animations ----

/// True iff the box lies near the origin and has a size.
pub open spec fn good_box(item: SculptCollisionBox) -> bool {
    vector_within(item.center@, -64, 64) && vector_positive(item.size@, 64)
}

/// What stands against the first `n` collision boxes.
pub open spec fn box_conflicts(boxes: Seq<SculptCollisionBox>, n: int) -> Seq<SculptConflictView>
    decreases n,
{
    if n <= 0 {
        seq![]
    } else {
        box_conflicts(boxes, n - 1) + conflict_if(
            !good_box(boxes[n - 1]),
            "invalid_collision"@,
            "collision boxes must use bounded centers and positive sizes"@,
            None,
        )
    }
}

/// What stands against the collision of a spec.
pub open spec fn collision_conflicts(collision: SculptCollision) -> Seq<SculptConflictView> {
    let n = collision.boxes@.len();
    if (collision.mode@ == "none"@ || collision.mode@ == "bounds"@) && n == 0 {
        seq![]
    } else if collision.mode@ == "compound_boxes"@ && 1 <= n <= 16 {
        box_conflicts(collision.boxes@, n as int)
    } else {
        conflict_if(
            true,
            "invalid_collision"@,
            "collision mode/boxes combination is invalid"@,
            None,
        )
    }
}

/// Checks the collision of a spec.
pub fn validate_collision(collision: &SculptCollision, conflicts: &mut Vec<SculptConflict>)
    ensures
        sculpt_views(final(conflicts)@) == sculpt_views(old(conflicts)@) + collision_conflicts(
            *collision,
        ),
{
    let ghost start = sculpt_views(conflicts@);
    let mode = collision.mode.as_str();
    if (same_text(mode, "none") || same_text(mode, "bounds")) && collision.boxes.len() == 0 {
        proof {
            assert(start + Seq::<SculptConflictView>::empty() =~= start);
        }
        return;
    }
    if same_text(mode, "compound_boxes") && 1 <= collision.boxes.len() && collision.boxes.len()
        <= 16 {
        let mut i: usize = 0;
        proof {
            assert(start + Seq::<SculptConflictView>::empty() =~= start);
        }
        while i < collision.boxes.len()
            invariant
                i <= collision.boxes@.len(),
                sculpt_views(conflicts@) == start + box_conflicts(collision.boxes@, i as int),
            decreases collision.boxes@.len() - i,
        {
            let ghost before = sculpt_views(conflicts@);
            let item = &collision.boxes[i];
            if !is_vector_within(&item.center, -64, 64) || !is_vector_positive(&item.size, 64) {
                push(
                    conflicts,
                    "invalid_collision",
                    "collision boxes must use bounded centers and positive sizes".to_owned(),
                    None,
                );
            }
            proof {
                assert(sculpt_views(conflicts@) =~= start + box_conflicts(
                    collision.boxes@,
                    i + 1,
                ));
            }
            i = i + 1;
        }
        return;
    }
    push(
        conflicts,
        "invalid_collision",
        "collision mode/boxes combination is invalid".to_owned(),
        None,
    );
}

/// True iff the animation moves a node of the spec, in a known way, with bounded parameters.
pub open spec fn good_animation(animation: SculptAnimation, nodes: Seq<Seq<char>>) -> bool {
    &&& defined(nodes, nodes.len() as int, animation.node@)
    &&& animation.kind@ == "rotate"@ || animation.kind@ == "bob"@
    &&& animation.axis@ == "x"@ || animation.axis@ == "y"@ || animation.axis@ == "z"@
    &&& animation.speed.within(-10, 10)
    &&& animation.amplitude.within(0, 16)
}

/// What stands against the first `n` animations.
pub open spec fn animation_conflicts(
    animations: Seq<SculptAnimation>,
    nodes: Seq<Seq<char>>,
    n: int,
) -> Seq<SculptConflictView>
    decreases n,
{
    if n <= 0 {
        seq![]
    } else {
        animation_conflicts(animations, nodes, n - 1) + conflict_if(
            !good_animation(animations[n - 1], nodes),
            "invalid_animation"@,
            "animation for `"@ + animations[n - 1].node@
                + "` has invalid target or bounded parameters"@,
            Some(animations[n - 1].node@),
        )
    }
}

fn check_animation(conflicts: &mut Vec<SculptConflict>, animation: &SculptAnimation, nodes: &Vec<
    SculptNode,
>)
    ensures
        sculpt_views(final(conflicts)@) == sculpt_views(old(conflicts)@) + conflict_if(
            !good_animation(*animation, node_ids(nodes@)),
            "invalid_animation"@,
            "animation for `"@ + animation.node@ + "` has invalid target or bounded parameters"@,
            Some(animation.node@),
        ),
{
    let node = animation.node.as_str();
    let kind = animation.kind.as_str();
    let axis = animation.axis.as_str();
    let known = valid_id(node) && find_node(nodes, nodes.len(), node).is_some();
    if !known || !(same_text(kind, "rotate") || same_text(kind, "bob")) || !(same_text(axis, "x")
        || same_text(axis, "y") || same_text(axis, "z")) || !animation.speed.is_within(-10, 10)
        || !animation.amplitude.is_within(0, 16) {
        let mut message = "animation for `".to_owned();
        message.append(node);
        message.append("` has invalid target or bounded parameters");
        push(conflicts, "invalid_animation", message, Some(node));
    } else {
        proof {
            assert(sculpt_views(conflicts@) + Seq::<SculptConflictView>::empty() =~= sculpt_views(
                conflicts@,
            ));
        }
    }
}

// ---- the whole spec ----

/// What stands against the head of a spec.
pub open spec fn head_conflicts(spec: SculptSpec, canonical_json: Seq<char>) -> Seq<
    SculptConflictView,
> {
    conflict_if(
        spec.schema_version != SCULPT_SPEC_SCHEMA_VERSION,
        "unsupported_schema_version"@,
        "schema_version "@ + decimal_nat(spec.schema_version as nat) + " is unsupported"@,
        None,
    ) + conflict_if(
        !well_formed_id(spec.asset_id@),
        "invalid_asset_id"@,
        "asset_id must match ^[a-z][a-z0-9_-]{0,63}$"@,
        None,
    ) + conflict_if(
        !(1 <= spec.version <= 65535),
        "invalid_version"@,
        "version must be in 1..=65535"@,
        None,
    ) + conflict_if(
        spec.name@.len() == 0 || utf8_len(spec.name@) > 80,
        "invalid_name"@,
        "name must contain 1..=80 UTF-8 bytes"@,
        None,
    ) + conflict_if(
        utf8_len(canonical_json) > MAX_SCULPT_SPEC_BYTES,
        "source_size_limit"@,
        "canonical spec is "@ + decimal_nat(utf8_len(canonical_json)) + " bytes; maximum is 65536"@,
        None,
    ) + conflict_if(
        spec.materials@.len() == 0 || spec.materials@.len() > MAX_SCULPT_MATERIALS,
        "material_limit"@,
        "materials must contain 1..=32 entries"@,
        None,
    )
}

/// What stands against the totals of a spec.
pub open spec fn total_conflicts(nodes: Seq<SculptNode>) -> Seq<SculptConflictView> {
    let primitive_count = primitives(nodes, nodes.len() as int);
    let triangle_count = triangles(nodes, nodes.len() as int);
    conflict_if(
        primitive_count > MAX_SCULPT_PRIMITIVES,
        "primitive_limit"@,
        "expanded primitives "@ + decimal_nat(primitive_count as nat) + " exceed 256"@,
        None,
    ) + conflict_if(
        triangle_count > MAX_SCULPT_TRIANGLES,
        "triangle_limit"@,
        "estimated triangles "@ + decimal_nat(triangle_count as nat) + " exceed 50000"@,
        None,
    )
}

/// What stands against the distance and the number of animations of a spec.
pub open spec fn tail_conflicts(spec: SculptSpec) -> Seq<SculptConflictView> {
    conflict_if(
        !spec.lod.max_distance.within(8, 256),
        "invalid_lod"@,
        "lod.max_distance must be finite and in [8,256]"@,
        None,
    ) + conflict_if(
        spec.animations@.len() > MAX_SCULPT_ANIMATIONS,
        "animation_limit"@,
        "animations exceed 32"@,
        None,
    )
}

/// Everything that stands against a spec, in the order of its parts.
pub open spec fn spec_conflicts(spec: SculptSpec) -> Seq<SculptConflictView> {
    head_conflicts(spec, spec_json(spec)) + all_material_conflicts(
        spec.materials@,
        spec.materials@.len() as int,
    ) + conflict_if(
        spec.nodes@.len() == 0 || spec.nodes@.len() > MAX_SCULPT_NODES,
        "node_limit"@,
        "nodes must contain 1..=128 entries"@,
        None,
    ) + all_node_conflicts(
        spec.nodes@,
        material_ids(spec.materials@),
        spec.nodes@.len() as int,
    ) + total_conflicts(spec.nodes@) + collision_conflicts(spec.collision) + tail_conflicts(spec)
        + animation_conflicts(
        spec.animations@,
        node_ids(spec.nodes@),
        spec.animations@.len() as int,
    )
}

/// The hash of a spec: the SHA-256 digest of its canonical JSON, in hexadecimal.
pub open spec fn spec_digest(spec: SculptSpec) -> Seq<char> {
    hex(sha256_of(encode_utf8(spec_json(spec))))
}

/// True iff the budget is that of the spec, with the bounds that were measured.
pub open spec fn is_budget(
    budget: SculptBudget,
    spec: SculptSpec,
    bounds: Option<SculptBounds>,
) -> bool {
    &&& budget.source_bytes == utf8_len(spec_json(spec))
    &&& budget.nodes == fresh_count(node_ids(spec.nodes@), spec.nodes@.len() as int)
    &&& budget.expanded_primitives == primitives(spec.nodes@, spec.nodes@.len() as int)
    &&& budget.estimated_triangles == triangles(spec.nodes@, spec.nodes@.len() as int)
    &&& budget.estimated_draw_calls == budget.expanded_primitives
    &&& budget.materials == fresh_count(
        material_ids(spec.materials@),
        spec.materials@.len() as int,
    )
    &&& budget.animations == spec.animations@.len()
    &&& budget.textures == 0
    &&& budget.bounds == bounds
}

fn check_head(spec: &SculptSpec, canonical_json: &str) -> (r: Vec<SculptConflict>)
    ensures
        sculpt_views(r@) == head_conflicts(*spec, canonical_json@),
{
    let mut conflicts: Vec<SculptConflict> = Vec::new();
    if spec.schema_version != SCULPT_SPEC_SCHEMA_VERSION {
        let mut message = "schema_version ".to_owned();
        push_u64(&mut message, spec.schema_version as u64);
        message.append(" is unsupported");
        push(&mut conflicts, "unsupported_schema_version", message, None);
    }
    if !valid_id(spec.asset_id.as_str()) {
        push(
            &mut conflicts,
            "invalid_asset_id",
            "asset_id must match ^[a-z][a-z0-9_-]{0,63}$".to_owned(),
            None,
        );
    }
    if spec.version < 1 || spec.version > 65535 {
        push(
            &mut conflicts,
            "invalid_version",
            "version must be in 1..=65535".to_owned(),
            None,
        );
    }
    if spec.name.as_str().is_empty() || byte_len(spec.name.as_str()) > 80 {
        push(
            &mut conflicts,
            "invalid_name",
            "name must contain 1..=80 UTF-8 bytes".to_owned(),
            None,
        );
    }
    let bytes = byte_len(canonical_json);
    if bytes > MAX_SCULPT_SPEC_BYTES {
        let mut message = "canonical spec is ".to_owned();
        push_u64(&mut message, bytes as u64);
        message.append(" bytes; maximum is 65536");
        push(&mut conflicts, "source_size_limit", message, None);
    }
    if spec.materials.len() == 0 || spec.materials.len() > MAX_SCULPT_MATERIALS {
        push(
            &mut conflicts,
            "material_limit",
            "materials must contain 1..=32 entries".to_owned(),
            None,
        );
    }
    proof {
        assert(sculpt_views(conflicts@) =~= head_conflicts(*spec, canonical_json@));
    }
    conflicts
}

fn check_materials(conflicts: &mut Vec<SculptConflict>, materials: &Vec<SculptMaterial>) -> (r: usize)
    ensures
        r == fresh_count(material_ids(materials@), materials@.len() as int),
        sculpt_views(final(conflicts)@) == sculpt_views(old(conflicts)@) + all_material_conflicts(
            materials@,
            materials@.len() as int,
        ),
{
    let ghost start = sculpt_views(conflicts@);
    let mut count: usize = 0;
    let mut i: usize = 0;
    proof {
        assert(start + Seq::<SculptConflictView>::empty() =~= start);
    }
    while i < materials.len()
        invariant
            i <= materials@.len(),
            count <= i,
            count == fresh_count(material_ids(materials@), i as int),
            sculpt_views(conflicts@) == start + all_material_conflicts(materials@, i as int),
        decreases materials@.len() - i,
    {
        if check_material(conflicts, materials, i) {
            count = count + 1;
        }
        proof {
            assert(sculpt_views(conflicts@) =~= start + all_material_conflicts(materials@, i + 1));
        }
        i = i + 1;
    }
    count
}

/// The totals of the nodes of a spec.
struct NodeTotals {
    nodes: usize,
    primitives: usize,
    triangles: usize,
}

fn check_nodes(
    conflicts: &mut Vec<SculptConflict>,
    nodes: &Vec<SculptNode>,
    materials: &Vec<SculptMaterial>,
) -> (r: NodeTotals)
    ensures
        r.nodes == fresh_count(node_ids(nodes@), nodes@.len() as int),
        r.primitives == primitives(nodes@, nodes@.len() as int),
        r.triangles == triangles(nodes@, nodes@.len() as int),
        sculpt_views(final(conflicts)@) == sculpt_views(old(conflicts)@) + all_node_conflicts(
            nodes@,
            material_ids(materials@),
            nodes@.len() as int,
        ),
{
    let ghost start = sculpt_views(conflicts@);
    let ghost ids = material_ids(materials@);
    let mut totals = NodeTotals { nodes: 0, primitives: 0, triangles: 0 };
    let mut i: usize = 0;
    proof {
        assert(start + Seq::<SculptConflictView>::empty() =~= start);
    }
    while i < nodes.len()
        invariant
            i <= nodes@.len(),
            ids == material_ids(materials@),
            totals.nodes <= i,
            totals.nodes == fresh_count(node_ids(nodes@), i as int),
            totals.primitives == primitives(nodes@, i as int),
            totals.triangles == triangles(nodes@, i as int),
            sculpt_views(conflicts@) == start + all_node_conflicts(nodes@, ids, i as int),
        decreases nodes@.len() - i,
    {
        let share = check_node(conflicts, nodes, materials, i);
        proof {
            assert(sculpt_views(conflicts@) =~= start + all_node_conflicts(nodes@, ids, i + 1));
        }
        if share.fresh {
            totals.nodes = totals.nodes + 1;
            if let Some(geometry) = share.geometry {
                totals.primitives = totals.primitives.saturating_add(share.count as usize);
                let repeated: usize = saturating_product(geometry.triangles, share.count as usize);
                totals.triangles = totals.triangles.saturating_add(repeated);
            }
        }
        i = i + 1;
    }
    totals
}

fn saturating_product(a: usize, b: usize) -> (r: usize)
    ensures
        r == saturated(a * b),
{
    match a.checked_mul(b) {
        Some(product) => product,
        None => usize::MAX,
    }
}

/// Checks a spec against every limit, and gives it its canonical text and hash. `bounds` is the
/// extent that was measured of its primitives.
pub fn validate_sculpt_spec(spec: SculptSpec, bounds: Option<SculptBounds>) -> (r:
    ValidatedSculptSpec)
    ensures
        r.spec == spec,
        r.canonical_json@ == spec_json(spec),
        r.spec_hash@ == spec_digest(spec),
        is_hash(r.spec_hash@),
        is_budget(r.budget, spec, bounds),
        sculpt_views(r.conflicts@) == spec_conflicts(spec),
{
    let canonical_json = canonical_spec_json(&spec);
    let spec_hash = hash_text(canonical_json.as_str().as_bytes());
    let mut conflicts = check_head(&spec, canonical_json.as_str());
    let materials = check_materials(&mut conflicts, &spec.materials);
    let ghost before_limit = sculpt_views(conflicts@);
    if spec.nodes.len() == 0 || spec.nodes.len() > MAX_SCULPT_NODES {
        push(
            &mut conflicts,
            "node_limit",
            "nodes must contain 1..=128 entries".to_owned(),
            None,
        );
    } else {
        proof {
            assert(before_limit + Seq::<SculptConflictView>::empty() =~= before_limit);
        }
    }
    let totals = check_nodes(&mut conflicts, &spec.nodes, &spec.materials);
    check_totals(&mut conflicts, &spec.nodes, totals.primitives, totals.triangles);
    validate_collision(&spec.collision, &mut conflicts);
    check_tail(&mut conflicts, &spec);
    let budget = SculptBudget {
        source_bytes: byte_len(canonical_json.as_str()),
        nodes: totals.nodes,
        expanded_primitives: totals.primitives,
        estimated_triangles: totals.triangles,
        estimated_draw_calls: totals.primitives,
        materials,
        animations: spec.animations.len(),
        textures: 0,
        bounds,
    };
    ValidatedSculptSpec { spec, canonical_json, spec_hash, budget, conflicts }
}

fn check_totals(
    conflicts: &mut Vec<SculptConflict>,
    nodes: &Vec<SculptNode>,
    primitive_count: usize,
    triangle_count: usize,
)
    requires
        primitive_count == primitives(nodes@, nodes@.len() as int),
        triangle_count == triangles(nodes@, nodes@.len() as int),
    ensures
        sculpt_views(final(conflicts)@) == sculpt_views(old(conflicts)@) + total_conflicts(nodes@),
{
    let ghost start = sculpt_views(conflicts@);
    if primitive_count > MAX_SCULPT_PRIMITIVES {
        let mut message = "expanded primitives ".to_owned();
        push_u64(&mut message, primitive_count as u64);
        message.append(" exceed 256");
        push(conflicts, "primitive_limit", message, None);
    }
    if triangle_count > MAX_SCULPT_TRIANGLES {
        let mut message = "estimated triangles ".to_owned();
        push_u64(&mut message, triangle_count as u64);
        message.append(" exceed 50000");
        push(conflicts, "triangle_limit", message, None);
    }
    proof {
        assert(sculpt_views(conflicts@) =~= start + total_conflicts(nodes@));
    }
}

fn check_tail(conflicts: &mut Vec<SculptConflict>, spec: &SculptSpec)
    ensures
        sculpt_views(final(conflicts)@) == sculpt_views(old(conflicts)@) + tail_conflicts(*spec)
            + animation_conflicts(
            spec.animations@,
            node_ids(spec.nodes@),
            spec.animations@.len() as int,
        ),
{
    let ghost start = sculpt_views(conflicts@);
    if !spec.lod.max_distance.is_within(8, 256) {
        push(
            conflicts,
            "invalid_lod",
            "lod.max_distance must be finite and in [8,256]".to_owned(),
            None,
        );
    }
    if spec.animations.len() > MAX_SCULPT_ANIMATIONS {
        push(conflicts, "animation_limit", "animations exceed 32".to_owned(), None);
    }
    let ghost ids = node_ids(spec.nodes@);
    let ghost head = start + tail_conflicts(*spec);
    proof {
        assert(sculpt_views(conflicts@) =~= head + animation_conflicts(spec.animations@, ids, 0));
    }
    let mut i: usize = 0;
    while i < spec.animations.len()
        invariant
            i <= spec.animations@.len(),
            ids == node_ids(spec.nodes@),
            sculpt_views(conflicts@) == head + animation_conflicts(
                spec.animations@,
                ids,
                i as int,
            ),
        decreases spec.animations@.len() - i,
    {
        check_animation(conflicts, &spec.animations[i], &spec.nodes);
        proof {
            assert(sculpt_views(conflicts@) =~= head + animation_conflicts(
                spec.animations@,
                ids,
                i + 1,
            ));
        }
        i = i + 1;
    }
}

// ---- what the bounds are measured from ----

/// A node that takes part in the asset, with the node that it hangs on and what it contributes.
#[derive(Debug, Clone, Copy, PartialEq, Eq, Structural)]
pub struct PlacedNode {
    pub node: usize,
    pub parent: Option<usize>,
    pub geometry: Option<NodeGeometry>,
    pub count: u32,
}

/// True iff `j` is where the id first stands among the first `n`.
pub open spec fn first_at(ids: Seq<Seq<char>>, n: int, id: Seq<char>, j: int) -> bool {
    0 <= j < n && ids[j] == id && !listed(ids, j, id)
}

/// True iff the entry describes the node number `entry.node`.
pub open spec fn places(nodes: Seq<SculptNode>, entry: PlacedNode) -> bool {
    let ids = node_ids(nodes);
    let node = nodes[entry.node as int];
    &&& entry.node < nodes.len()
    &&& fresh(ids, entry.node as int)
    &&& entry.geometry == node_geometry(node)
    &&& entry.count == repeat_count(node)
    &&& match node.parent {
        None => entry.parent is None,
        Some(parent) => if defined(ids, entry.node as int, parent@) {
            entry.parent matches Some(j) && first_at(ids, entry.node as int, parent@, j as int)
        } else {
            entry.parent is None
        },
    }
}

/// The nodes with a fresh id, in their order, each with the earlier node that it hangs on.
pub fn placed_nodes(spec: &SculptSpec) -> (r: Vec<PlacedNode>)
    ensures
        forall|k: int| 0 <= k < r@.len() ==> places(spec.nodes@, #[trigger] r@[k]),
        forall|a: int, b: int|
            0 <= a < b < r@.len() ==> (#[trigger] r@[a]).node < (#[trigger] r@[b]).node,
        forall|i: int|
            0 <= i < spec.nodes@.len() && fresh(node_ids(spec.nodes@), i) ==> exists|k: int|
                0 <= k < r@.len() && (#[trigger] r@[k]).node == i,
{
    let ghost ids = node_ids(spec.nodes@);
    let mut placed: Vec<PlacedNode> = Vec::new();
    let mut scratch: Vec<SculptConflict> = Vec::new();
    let mut i: usize = 0;
    while i < spec.nodes.len()
        invariant
            i <= spec.nodes@.len(),
            ids == node_ids(spec.nodes@),
            forall|k: int|
                0 <= k < placed@.len() ==> places(spec.nodes@, #[trigger] placed@[k])
                    && placed@[k].node < i,
            forall|a: int, b: int|
                0 <= a < b < placed@.len() ==> (#[trigger] placed@[a]).node < (
                #[trigger] placed@[b]).node,
            forall|j: int|
                0 <= j < i && fresh(ids, j) ==> exists|k: int|
                    0 <= k < placed@.len() && (#[trigger] placed@[k]).node == j,
        decreases spec.nodes@.len() - i,
    {
        let node = &spec.nodes[i];
        let ghost before = placed@;
        proof {
            assert(ids[i as int] == node.id@);
        }
        if valid_id(node.id.as_str()) && find_node(&spec.nodes, i, node.id.as_str()).is_none() {
            let parent: Option<usize> = match &node.parent {
                None => None,
                Some(parent) => if valid_id(parent.as_str()) {
                    find_node(&spec.nodes, i, parent.as_str())
                } else {
                    None
                },
            };
            let geometry = validate_node_geometry(node, &spec.materials, &mut scratch);
            let count: u32 = match &node.repeat {
                Some(repeat) => repeat.count,
                None => 1,
            };
            placed.push(PlacedNode { node: i, parent, geometry, count });
            proof {
                assert(placed@[before.len() as int].node == i);
            }
        }
        proof {
            assert forall|j: int| 0 <= j < i + 1 && fresh(ids, j) implies exists|k: int|
                0 <= k < placed@.len() && (#[trigger] placed@[k]).node == j by {
                if j < i {
                    let k = choose|k: int|
                        0 <= k < before.len() && (#[trigger] before[k]).node == j;
                    assert(placed@[k] == before[k]);
                } else {
                    assert(placed@[before.len() as int].node == j);
                }
            }
        }
        i = i + 1;
    }
    placed
}

// ---- laws ----

/// A spec without conflicts stays inside every limit of the format.
#[verifier::spinoff_prover]
pub proof fn valid_spec_keeps_the_limits(spec: SculptSpec)
    requires
        spec_conflicts(spec).len() == 0,
    ensures
        utf8_len(spec_json(spec)) <= MAX_SCULPT_SPEC_BYTES,
        1 <= spec.materials@.len() <= MAX_SCULPT_MATERIALS,
        1 <= spec.nodes@.len() <= MAX_SCULPT_NODES,
        spec.animations@.len() <= MAX_SCULPT_ANIMATIONS,
        primitives(spec.nodes@, spec.nodes@.len() as int) <= MAX_SCULPT_PRIMITIVES,
        triangles(spec.nodes@, spec.nodes@.len() as int) <= MAX_SCULPT_TRIANGLES,
        well_formed_id(spec.asset_id@),
        1 <= spec.version <= 65535,
{
    clean_parts(spec);
    clean_head(spec);
    clean_totals(spec.nodes@);
}

#[verifier::spinoff_prover]
proof fn clean_parts(spec: SculptSpec)
    requires
        spec_conflicts(spec).len() == 0,
    ensures
        head_conflicts(spec, spec_json(spec)).len() == 0,
        1 <= spec.nodes@.len() <= MAX_SCULPT_NODES,
        all_node_conflicts(
            spec.nodes@,
            material_ids(spec.materials@),
            spec.nodes@.len() as int,
        ).len() == 0,
        total_conflicts(spec.nodes@).len() == 0,
        spec.animations@.len() <= MAX_SCULPT_ANIMATIONS,
{
}

#[verifier::spinoff_prover]
proof fn clean_head(spec: SculptSpec)
    requires
        head_conflicts(spec, spec_json(spec)).len() == 0,
    ensures
        utf8_len(spec_json(spec)) <= MAX_SCULPT_SPEC_BYTES,
        1 <= spec.materials@.len() <= MAX_SCULPT_MATERIALS,
        well_formed_id(spec.asset_id@),
        1 <= spec.version <= 65535,
{
}

#[verifier::spinoff_prover]
proof fn clean_totals(nodes: Seq<SculptNode>)
    requires
        total_conflicts(nodes).len() == 0,
    ensures
        primitives(nodes, nodes.len() as int) <= MAX_SCULPT_PRIMITIVES,
        triangles(nodes, nodes.len() as int) <= MAX_SCULPT_TRIANGLES,
{
}

/// The text and the hash of a spec rest on the spec alone: whatever was measured of it, equal specs
/// have one hash, of 64 hexadecimal digits.
pub proof fn equal_specs_have_one_hash(
    a: ValidatedSculptSpec,
    b: ValidatedSculptSpec,
    spec: SculptSpec,
)
    requires
        a.canonical_json@ == spec_json(spec),
        a.spec_hash@ == spec_digest(spec),
        is_hash(a.spec_hash@),
        b.canonical_json@ == spec_json(spec),
        b.spec_hash@ == spec_digest(spec),
    ensures
        a.canonical_json@ == b.canonical_json@,
        a.spec_hash@ == b.spec_hash@,
        b.spec_hash@ == hex(sha256_of(encode_utf8(b.canonical_json@))),
        is_hash(b.spec_hash@),
{
}

/// In a spec without conflicts every node has its own well-formed id, and hangs on an earlier one.
pub proof fn valid_spec_is_a_forest(spec: SculptSpec, i: int)
    requires
        spec_conflicts(spec).len() == 0,
        0 <= i < spec.nodes@.len(),
    ensures
        fresh(node_ids(spec.nodes@), i),
        spec.nodes@[i].parent matches Some(parent) ==> listed(node_ids(spec.nodes@), i, parent@),
        vector_within(spec.nodes@[i].position@, -64, 64),
        1 <= repeat_count(spec.nodes@[i]) <= 32,
{
    let ids = material_ids(spec.materials@);
    clean_parts(spec);
    node_part_is_clean(spec.nodes@, ids, i, spec.nodes@.len() as int);
}

proof fn node_part_is_clean(nodes: Seq<SculptNode>, materials: Seq<Seq<char>>, i: int, n: int)
    requires
        0 <= i < n,
        all_node_conflicts(nodes, materials, n).len() == 0,
    ensures
        node_conflicts(nodes, materials, i).len() == 0,
    decreases n,
{
    if i < n - 1 {
        node_part_is_clean(nodes, materials, i, n - 1);
    }
}

} // verus!
