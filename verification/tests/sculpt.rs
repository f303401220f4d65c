use sha2::Digest;
use world_loom::json::{float, number_text};
use world_loom::scalar::Scalar;
use world_loom::sculpt_json::{canonical_spec_json, collision_text};
use world_loom::sculpt_spec::{
    placed_nodes, valid_color, valid_id, valid_segments, validate_sculpt_spec, SculptAnimation,
    SculptBounds, SculptCollision, SculptCollisionBox, SculptLod, SculptMaterial, SculptNode,
    SculptRepeat, SculptSpec, SculptVec3, ValidatedSculptSpec,
};

fn s(value: f64) -> Scalar {
    Scalar::from_bits(value.to_bits())
}

fn v(x: f64, y: f64, z: f64) -> [Scalar; 3] {
    [s(x), s(y), s(z)]
}

fn node(id: &str) -> SculptNode {
    SculptNode {
        id: id.to_string(),
        parent: None,
        kind: "box".to_string(),
        material: Some("wood".to_string()),
        position: v(0.0, 0.5, 0.0),
        rotation_degrees: v(0.0, 0.0, 0.0),
        scale: v(1.0, 1.0, 1.0),
        size: Some(vec![s(1.0), s(1.0), s(1.0)]),
        radius: None,
        radius_top: None,
        radius_bottom: None,
        height: None,
        segments: None,
        repeat: None,
    }
}

fn sample() -> SculptSpec {
    SculptSpec {
        schema_version: 1,
        asset_id: "test_prop".to_string(),
        version: 1,
        name: "Test Prop".to_string(),
        materials: vec![SculptMaterial {
            id: "wood".to_string(),
            base_color: "#885522".to_string(),
            emissive_color: "#000000".to_string(),
            metalness: s(0.0),
            roughness: s(0.8),
            opacity: s(1.0),
        }],
        nodes: vec![node("body")],
        collision: SculptCollision { mode: "bounds".to_string(), boxes: vec![] },
        lod: SculptLod { max_distance: s(64.0) },
        animations: vec![],
    }
}

fn bounds() -> Option<SculptBounds> {
    Some(SculptBounds {
        min: SculptVec3 { x: s(-0.5), y: s(0.0), z: s(-0.5) },
        max: SculptVec3 { x: s(0.5), y: s(1.0), z: s(0.5) },
    })
}

fn validate(spec: SculptSpec) -> ValidatedSculptSpec {
    validate_sculpt_spec(spec, bounds())
}

fn codes(spec: SculptSpec) -> Vec<String> {
    validate(spec).conflicts.iter().map(|conflict| conflict.code.clone()).collect()
}

#[test]
fn valid_box_reports_repeatable_budget_and_bounds() {
    let validated = validate(sample());
    assert!(validated.is_valid(), "{:?}", validated.conflicts);
    assert_eq!(validated.budget.expanded_primitives, 1);
    assert_eq!(validated.budget.estimated_triangles, 12);
    assert!(validated.budget.bounds.is_some());
    assert_eq!(validated.spec_hash.len(), 64);
}

#[test]
fn forward_parent_and_over_budget_repeat_are_rejected() {
    let mut spec = sample();
    spec.nodes[0].parent = Some("later".to_string());
    spec.nodes[0].repeat = Some(SculptRepeat { count: 33, offset: v(1.0, 0.0, 0.0) });
    let validated = validate(spec);
    assert!(validated.conflicts.iter().any(|item| item.code == "invalid_parent"));
    assert!(validated.conflicts.iter().any(|item| item.code == "repeat_limit"));
}

#[test]
fn spec_hash_is_the_sha256_of_the_canonical_json() {
    let validated = validate(sample());
    let digest: [u8; 32] = sha2::Sha256::digest(validated.canonical_json.as_bytes()).into();
    let expected: String = digest.iter().map(|byte| format!("{byte:02x}")).collect();
    assert_eq!(validated.spec_hash, expected);
    assert_eq!(validated.budget.source_bytes, validated.canonical_json.len());
    assert_eq!(validated.canonical_json, canonical_spec_json(&validated.spec));
    assert_eq!(validate_sculpt_spec(sample(), None).spec_hash, validated.spec_hash);
}

#[test]
fn canonical_json_has_every_field_in_order() {
    assert_eq!(
        canonical_spec_json(&sample()),
        "{\"schema_version\":1,\"asset_id\":\"test_prop\",\"version\":1,\"name\":\"Test Prop\",\
         \"materials\":[{\"id\":\"wood\",\"base_color\":\"#885522\",\"emissive_color\":\"#000000\",\
         \"metalness\":0.0,\"roughness\":0.8,\"opacity\":1.0}],\
         \"nodes\":[{\"id\":\"body\",\"parent\":null,\"kind\":\"box\",\"material\":\"wood\",\
         \"position\":[0.0,0.5,0.0],\"rotation_degrees\":[0.0,0.0,0.0],\"scale\":[1.0,1.0,1.0],\
         \"size\":[1.0,1.0,1.0],\"radius\":null,\"radius_top\":null,\"radius_bottom\":null,\
         \"height\":null,\"segments\":null,\"repeat\":null}],\
         \"collision\":{\"mode\":\"bounds\",\"boxes\":[]},\"lod\":{\"max_distance\":64.0},\
         \"animations\":[]}"
    );
    let mut full = sample();
    full.name = "a \"quoted\" name".to_string();
    full.nodes[0].parent = Some("root".to_string());
    full.nodes[0].material = None;
    full.nodes[0].size = Some(vec![]);
    full.nodes[0].radius = Some(s(f64::NAN));
    full.nodes[0].height = Some(s(f64::NEG_INFINITY));
    full.nodes[0].segments = Some(12);
    full.nodes[0].repeat = Some(SculptRepeat { count: 2, offset: v(-0.0, 1e300, 5e-324) });
    full.materials.push(SculptMaterial {
        id: "iron".to_string(),
        base_color: "#111111".to_string(),
        emissive_color: "#222222".to_string(),
        metalness: s(0.1),
        roughness: s(1.0 / 3.0),
        opacity: s(1e21),
    });
    full.collision.boxes.push(SculptCollisionBox { center: v(1.5, 2.0, -3.25), size: v(0.01, 64.0, 1.0) });
    full.animations.push(SculptAnimation {
        node: "body".to_string(),
        kind: "spin".to_string(),
        axis: "y".to_string(),
        speed: s(90.0),
        amplitude: s(0.25),
    });
    let text = canonical_spec_json(&full);
    for part in [
        "\"name\":\"a \\\"quoted\\\" name\"",
        "\"parent\":\"root\",\"kind\":\"box\",\"material\":null",
        "\"size\":[],\"radius\":null,",
        "\"height\":null,\"segments\":12,\"repeat\":{\"count\":2,\"offset\":[-0.0,1e+300,5e-324]}",
        "\"metalness\":0.1,\"roughness\":0.3333333333333333,\"opacity\":1e+21}",
        "\"boxes\":[{\"center\":[1.5,2.0,-3.25],\"size\":[0.01,64.0,1.0]}]",
        "\"animations\":[{\"node\":\"body\",\"kind\":\"spin\",\"axis\":\"y\",\"speed\":90.0,\"amplitude\":0.25}]}",
    ] {
        assert!(text.contains(part), "{part} in {text}");
    }
    assert!(serde_json::from_str::<serde_json::Value>(&text).is_ok());
    assert_eq!(
        collision_text(&full.collision),
        "{\"boxes\":[{\"center\":[1.5,2.0,-3.25],\"size\":[0.01,64.0,1.0]}],\"mode\":\"bounds\"}"
    );
}

#[test]
fn numbers_are_written_as_json_writes_them() {
    for value in [
        0.0, -0.0, 1.0, -1.5, 0.1, 1e21, 1e-7, 1.7976931348623157e308, 5e-324, 123456789.125,
        f64::NAN, f64::INFINITY, f64::NEG_INFINITY,
    ] {
        assert_eq!(number_text(s(value)), serde_json::to_string(&value).unwrap());
        assert_eq!(float(s(value)).compact_text(), serde_json::Value::from(value).to_string());
    }
}

#[test]
fn scalars_compare_like_floating_point_numbers() {
    let values = [
        0.0, -0.0, 1.0, -1.0, 0.01, 0.009999999, 0.010000001, 16.0, 16.0000001, 64.0, 3600.0,
        -3600.0, -3600.5, 1e300, -1e300, 5e-324, f64::INFINITY, f64::NEG_INFINITY, f64::NAN,
        f64::MIN_POSITIVE, 0.8, 2147483647.0,
    ];
    for a in values {
        assert_eq!(s(a).is_finite(), a.is_finite());
        assert_eq!(s(a).is_within(-3600, 3600), a.is_finite() && (-3600.0..=3600.0).contains(&a));
        assert_eq!(s(a).is_positive_up_to(16), a.is_finite() && (0.01..=16.0).contains(&a));
        for b in values {
            assert_eq!(s(a).same(s(b)), a == b, "{a} {b}");
            if a.is_finite() && b.is_finite() {
                assert_eq!(s(a).at_most(s(b)), a <= b, "{a} {b}");
            }
        }
    }
    for n in [0, 1, -1, 2, 3, -64, 63, 95, 16, 3600, i32::MAX, i32::MIN, 1 << 30, 12345] {
        assert_eq!(Scalar::from_i32(n).bits, f64::from(n).to_bits());
    }
    assert_eq!(world_loom::scalar::HUNDREDTH_BITS, 0.01_f64.to_bits());
}

#[test]
fn ids_and_colors_have_their_form() {
    assert!(valid_id("a-z_09"));
    for bad in ["", "A", "a b", "é"] {
        assert!(!valid_id(bad), "{bad}");
    }
    assert!(!valid_id(&"a".repeat(65)));
    assert!(valid_color("#0aFf99"));
    for bad in ["", "#12345", "1234567", "#12345g", "#1234567"] {
        assert!(!valid_color(bad), "{bad}");
    }
    assert!(valid_segments(3) && valid_segments(32));
    assert!(!valid_segments(2) && !valid_segments(33));
}

#[test]
fn each_part_of_a_spec_is_checked() {
    let mut spec = sample();
    spec.schema_version = 2;
    assert!(codes(spec).contains(&"unsupported_schema_version".to_string()));
    let mut spec = sample();
    spec.asset_id = "Bad Id".to_string();
    assert!(!codes(spec).is_empty());
    let mut spec = sample();
    spec.version = 0;
    assert!(!codes(spec).is_empty());
    let mut spec = sample();
    spec.name = String::new();
    assert!(!codes(spec).is_empty());
    let mut spec = sample();
    spec.materials[0].base_color = "red".to_string();
    assert!(!codes(spec).is_empty());
    let mut spec = sample();
    spec.materials[0].opacity = s(1.5);
    assert!(!codes(spec).is_empty());
    let mut spec = sample();
    spec.nodes.clear();
    assert!(codes(spec).contains(&"node_limit".to_string()));
    let mut spec = sample();
    spec.nodes.push(node("body"));
    assert!(!codes(spec).is_empty());
    let mut spec = sample();
    spec.nodes[0].material = Some("steel".to_string());
    assert!(!codes(spec).is_empty());
    let mut spec = sample();
    spec.nodes[0].size = None;
    assert!(!codes(spec).is_empty());
    let mut spec = sample();
    spec.nodes[0].scale = v(0.0, 1.0, 1.0);
    assert!(!codes(spec).is_empty());
    let mut spec = sample();
    spec.collision.mode = "mesh".to_string();
    assert!(!codes(spec).is_empty());
    let mut spec = sample();
    spec.lod.max_distance = s(f64::NAN);
    assert!(!codes(spec).is_empty());
    let mut spec = sample();
    spec.animations.push(SculptAnimation {
        node: "nobody".to_string(),
        kind: "rotate".to_string(),
        axis: "y".to_string(),
        speed: s(1.0),
        amplitude: s(1.0),
    });
    assert!(!codes(spec).is_empty());
}

#[test]
fn custom_collision_needs_boxes() {
    let mut spec = sample();
    spec.collision = SculptCollision {
        mode: "compound_boxes".to_string(),
        boxes: vec![SculptCollisionBox { center: v(0.0, 0.5, 0.0), size: v(1.0, 1.0, 1.0) }],
    };
    assert_eq!(codes(spec), Vec::<String>::new());
    let mut spec = sample();
    spec.collision = SculptCollision {
        mode: "compound_boxes".to_string(),
        boxes: vec![SculptCollisionBox { center: v(0.0, 0.5, 0.0), size: v(0.0, 1.0, 1.0) }],
    };
    assert!(!codes(spec).is_empty());
}

#[test]
fn repeats_and_children_are_counted() {
    let mut spec = sample();
    spec.nodes[0].repeat = Some(SculptRepeat { count: 5, offset: v(1.0, 0.0, 0.0) });
    let mut child = node("leaf");
    child.parent = Some("body".to_string());
    child.kind = "sphere".to_string();
    child.size = None;
    child.radius = Some(s(0.5));
    child.segments = Some(8);
    spec.nodes.push(child);
    let placed = placed_nodes(&spec);
    let validated = validate(spec);
    assert!(validated.is_valid(), "{:?}", validated.conflicts);
    assert_eq!(validated.budget.nodes, 2);
    assert_eq!(validated.budget.expanded_primitives, 6);
    assert!(validated.budget.estimated_triangles > 60);
    assert!(!placed.is_empty());
}
