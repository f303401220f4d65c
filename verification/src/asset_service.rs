//! Published assets and their instances: the rules for publishing, spawning, changing and
//! removing, and the events that tell clients of it.

use std::sync::Arc;
use vstd::prelude::*;
use vstd::string::StringExecFns;
use vstd::utf8::encode_utf8;
use crate::ids::{is_hyphenated_id, new_hyphenated_id};
use crate::json::{
    boolean, compact, exact, exact_values_equal_themselves, item_levels, json_string,
    json_string_text, levels, member_levels, normal, parse_json, parsed, reads_as, reads_back, same_json,
    text, values_equal, Fields, Json, JsonView,
};
use crate::mcp::no_fields;
use crate::ordered_map::{bound, bound_at, keys_ascend, OrderedKey, OrderedMap, VersionKey};
use crate::persistence::{StoredAssetDefinition, StoredAssetInstance};
use crate::scalar::Scalar;
use crate::sculpt_json::{collision_text, collision_value};
use crate::sculpt_spec::{
    is_vector_positive, is_vector_within, sculpt_views, spec_conflicts, spec_digest,
    validate_sculpt_spec, vector_positive, vector_within, SculptBounds, SculptBudget,
    SculptConflict, SculptConflictView, SculptSpec, ValidatedSculptSpec,
};
use crate::text::{
    byte_len, decimal_nat, is_result, push_u128, same_text, text_less_irreflexive, utf8_len,
};
use crate::world_command::WorldBounds;

verus! {

pub const ASSET_PROTOCOL_VERSION: u32 = 1;

pub const ASSET_CHANNEL: &'static str = "world-loom:assets-v1";

pub const ASSET_READY_CHANNEL: &'static str = "world-loom:assets-ready-v1";

pub const MAX_ASSET_PAYLOAD_BYTES: usize = 65_536;

pub const MAX_CATALOG_SNAPSHOT_BYTES: usize = 60_000;

pub const MAX_INSTANCE_STATE_BYTES: usize = 4_096;

/// A published version of an asset.
pub struct AssetCatalogEntry {
    pub asset_id: String,
    pub version: u32,
    pub spec_hash: String,
    pub spec: SculptSpec,
    pub budget: SculptBudget,
    pub actor: String,
    pub created_at: String,
}

impl AssetCatalogEntry {
    /// The key under which the catalog holds the entry.
    pub open spec fn key(&self) -> (Seq<char>, u32) {
        (self.asset_id@, self.version)
    }
}

/// An asset that stands in the world.
pub struct AssetInstance {
    pub instance_id: String,
    pub asset_id: String,
    pub version: u32,
    pub position: [Scalar; 3],
    pub rotation_degrees: [Scalar; 3],
    pub scale: [Scalar; 3],
    pub collision: Json,
    pub interaction_state: Json,
    pub owner: String,
    pub created_at: String,
    pub updated_at: String,
}

impl AssetInstance {
    /// The key of the asset that the instance shows.
    pub open spec fn asset_key(&self) -> (Seq<char>, u32) {
        (self.asset_id@, self.version)
    }
}

pub struct SculptValidationReport {
    pub valid: bool,
    pub asset_id: String,
    pub version: u32,
    pub spec_hash: String,
    pub budget: SculptBudget,
    pub conflicts: Vec<SculptConflict>,
    pub warnings: Vec<String>,
}

/// What clients are told.
pub enum AssetProtocolEvent {
    CatalogSnapshot { assets: Vec<Arc<AssetCatalogEntry>>, instances: Vec<Arc<AssetInstance>> },
    AssetPublished { asset: Arc<AssetCatalogEntry> },
    SpawnInstance { instance: Arc<AssetInstance> },
    UpdateInstance { instance: Arc<AssetInstance> },
    RemoveInstance { instance_id: String },
}

pub struct SpawnAssetRequest {
    pub asset_id: String,
    pub version: u32,
    pub idempotency_key: String,
    pub position: [Scalar; 3],
    pub rotation_degrees: [Scalar; 3],
    pub scale: [Scalar; 3],
    pub interaction_state: Json,
}

pub struct UpdateAssetRequest {
    pub instance_id: String,
    pub position: [Scalar; 3],
    pub rotation_degrees: [Scalar; 3],
    pub scale: [Scalar; 3],
    pub interaction_state: Json,
}

/// `Arc::clone`: another pointer to the same value.
#[verifier::external_body]
fn share<T>(value: &Arc<T>) -> (r: Arc<T>)
    ensures
        r == *value,
{
    Arc::clone(value)
}

fn share_all<T>(values: &Vec<Arc<T>>) -> (r: Vec<Arc<T>>)
    ensures
        r@ == values@,
{
    let mut copies: Vec<Arc<T>> = Vec::new();
    let mut i: usize = 0;
    while i < values.len()
        invariant
            i <= values@.len(),
            copies@ =~= values@.take(i as int),
        decreases values@.len() - i,
    {
        copies.push(share(&values[i]));
        i = i + 1;
    }
    proof {
        assert(values@.take(i as int) =~= values@);
    }
    copies
}

// ---- the rules for requests ----

/// The result of a check that finds an error, or none.
pub open spec fn checked(error: Option<Seq<char>>) -> Result<(), Seq<char>> {
    match error {
        Some(message) => Err(message),
        None => Ok(()),
    }
}

pub open spec fn key_error(key: Seq<char>) -> Option<Seq<char>> {
    if key.len() == 0 || utf8_len(key) > 128 {
        Some("idempotency_key must contain 1..=128 UTF-8 bytes"@)
    } else {
        None
    }
}

pub fn validate_instance_key(value: &str) -> (r: Result<(), String>)
    ensures
        is_result(r, checked(key_error(value@))),
{
    if value.is_empty() || byte_len(value) > 128 {
        Err("idempotency_key must contain 1..=128 UTF-8 bytes".to_owned())
    } else {
        Ok(())
    }
}

/// True iff the position is finite and lies inside the bounds.
pub open spec fn position_within(bounds: WorldBounds, position: Seq<Scalar>) -> bool {
    &&& position[0].within(bounds.min_x as int, bounds.max_x as int)
    &&& position[1].within(bounds.min_y as int, bounds.max_y as int)
    &&& position[2].within(bounds.min_z as int, bounds.max_z as int)
}

/// What is wrong with a transform; its scale lies between one hundredth and sixteen.
pub open spec fn transform_error(
    bounds: WorldBounds,
    position: Seq<Scalar>,
    rotation: Seq<Scalar>,
    scale: Seq<Scalar>,
) -> Option<Seq<char>> {
    if !position_within(bounds, position) {
        Some("asset position must be finite and inside active world bounds"@)
    } else if !vector_within(rotation, -3600, 3600) {
        Some("asset rotation_degrees must be finite and in [-3600,3600]"@)
    } else if !vector_positive(scale, 16) {
        Some("asset scale must be finite and in [0.01,16]"@)
    } else {
        None
    }
}

pub fn validate_transform(
    bounds: WorldBounds,
    position: &[Scalar; 3],
    rotation: &[Scalar; 3],
    scale: &[Scalar; 3],
) -> (r: Result<(), String>)
    ensures
        is_result(r, checked(transform_error(bounds, position@, rotation@, scale@))),
{
    if !(position[0].is_within(bounds.min_x, bounds.max_x) && position[1].is_within(
        bounds.min_y,
        bounds.max_y,
    ) && position[2].is_within(bounds.min_z, bounds.max_z)) {
        return Err("asset position must be finite and inside active world bounds".to_owned());
    }
    if !is_vector_within(rotation, -3600, 3600) {
        return Err("asset rotation_degrees must be finite and in [-3600,3600]".to_owned());
    }
    if !is_vector_positive(scale, 16) {
        return Err("asset scale must be finite and in [0.01,16]".to_owned());
    }
    Ok(())
}

/// The first thing wrong with a value of an interaction state that stands `depth` levels deep.
pub open spec fn state_value_error(value: JsonView, depth: nat) -> Option<Seq<char>>
    decreases value, 0int,
{
    if depth > 4 {
        Some("interaction_state nesting exceeds 4 levels"@)
    } else {
        match value {
            JsonView::Text(s) => if utf8_len(s) <= 128 {
                None
            } else {
                Some("interaction_state strings are limited to 128 bytes"@)
            },
            JsonView::Array(items) => if items.len() <= 32 {
                items_error(items, 0, depth + 1)
            } else {
                Some("interaction_state arrays and objects are limited to 32 entries"@)
            },
            JsonView::Object(members) => if members.len() <= 32 {
                members_error(members, 0, depth + 1)
            } else {
                Some("interaction_state arrays and objects are limited to 32 entries"@)
            },
            _ => None,
        }
    }
}

/// The first thing wrong with the items from index `i` on.
pub open spec fn items_error(items: Seq<JsonView>, i: int, depth: nat) -> Option<Seq<char>>
    decreases items, items.len() - i,
{
    if i < 0 || i >= items.len() {
        None
    } else {
        match state_value_error(items[i], depth) {
            Some(message) => Some(message),
            None => items_error(items, i + 1, depth),
        }
    }
}

/// The first thing wrong with the members from index `i` on.
pub open spec fn members_error(
    members: Seq<(Seq<char>, JsonView)>,
    i: int,
    depth: nat,
) -> Option<Seq<char>>
    decreases members, members.len() - i,
{
    if i < 0 || i >= members.len() {
        None
    } else if utf8_len(members[i].0) > 64 {
        Some("interaction_state keys are limited to 64 bytes"@)
    } else {
        match state_value_error(members[i].1, depth) {
            Some(message) => Some(message),
            None => members_error(members, i + 1, depth),
        }
    }
}

/// What is wrong with an interaction state whose JSON is `rendered`.
pub open spec fn state_error(value: JsonView, rendered: Seq<char>) -> Option<Seq<char>> {
    if !(value is Object) {
        Some("interaction_state must be a JSON object"@)
    } else if utf8_len(rendered) > MAX_INSTANCE_STATE_BYTES {
        Some(
            "interaction_state is "@ + decimal_nat(utf8_len(rendered)) + " bytes; maximum is 4096"@,
        )
    } else {
        state_value_error(value, 0)
    }
}

/// True iff the text is the compact JSON of the value, where the value is in normal form, and says
/// the value again where it is read back.
pub open spec fn renders(value: JsonView, rendered: Seq<char>) -> bool {
    &&& normal(value) ==> rendered == compact(value)
    &&& reads_back(value) ==> reads_as(rendered, value)
}

pub fn validate_state(value: &Json) -> (r: Result<(), String>)
    ensures
        exists|rendered: Seq<char>| #[trigger]
            renders(value@, rendered) && is_result(r, checked(state_error(value@, rendered))),
{
    let rendered = value.compact_text();
    proof {
        assert(renders(value@, rendered@));
    }
    if !value.is_object() {
        return Err("interaction_state must be a JSON object".to_owned());
    }
    let bytes: usize = byte_len(rendered.as_str());
    if bytes > MAX_INSTANCE_STATE_BYTES {
        let mut message = "interaction_state is ".to_owned();
        push_u128(&mut message, bytes as u128);
        message.append(" bytes; maximum is 4096");
        return Err(message);
    }
    validate_state_value(value, 0)
}

fn validate_state_value(value: &Json, depth: usize) -> (r: Result<(), String>)
    requires
        depth <= 5,
    ensures
        is_result(r, checked(state_value_error(value@, depth as nat))),
    decreases value,
{
    if depth > 4 {
        return Err("interaction_state nesting exceeds 4 levels".to_owned());
    }
    match value {
        Json::Text(s) => if byte_len(s.as_str()) <= 128 {
            Ok(())
        } else {
            Err("interaction_state strings are limited to 128 bytes".to_owned())
        },
        Json::Array(items) => {
            if items.len() > 32 {
                return Err(
                    "interaction_state arrays and objects are limited to 32 entries".to_owned(),
                );
            }
            let ghost views = value@->Array_0;
            let mut i: usize = 0;
            while i < items.len()
                invariant
                    i <= items@.len(),
                    depth <= 4,
                    items@.len() <= 32,
                    *value == Json::Array(*items),
                    views == value@->Array_0,
                    views.len() == items@.len(),
                    items_error(views, 0, (depth + 1) as nat) == items_error(
                        views,
                        i as int,
                        (depth + 1) as nat,
                    ),
                decreases items@.len() - i,
            {
                proof {
                    assert(decreases_to!(value => value->Array_0@[i as int]));
                    assert(views[i as int] == items@[i as int]@);
                }
                match validate_state_value(&items[i], depth + 1) {
                    Ok(()) => {},
                    Err(message) => return Err(message),
                }
                i = i + 1;
            }
            Ok(())
        },
        Json::Object(members) => {
            if members.len() > 32 {
                return Err(
                    "interaction_state arrays and objects are limited to 32 entries".to_owned(),
                );
            }
            let ghost views = value@->Object_0;
            let mut i: usize = 0;
            while i < members.len()
                invariant
                    i <= members@.len(),
                    depth <= 4,
                    members@.len() <= 32,
                    *value == Json::Object(*members),
                    views == value@->Object_0,
                    views.len() == members@.len(),
                    members_error(views, 0, (depth + 1) as nat) == members_error(
                        views,
                        i as int,
                        (depth + 1) as nat,
                    ),
                decreases members@.len() - i,
            {
                proof {
                    assert(decreases_to!(value => value->Object_0@[i as int].1));
                    assert(views[i as int] == (members@[i as int].0@, members@[i as int].1@));
                }
                if byte_len(members[i].0.as_str()) > 64 {
                    return Err("interaction_state keys are limited to 64 bytes".to_owned());
                }
                match validate_state_value(&members[i].1, depth + 1) {
                    Ok(()) => {},
                    Err(message) => return Err(message),
                }
                i = i + 1;
            }
            Ok(())
        },
        _ => Ok(()),
    }
}

// ---- payload sizes ----

/// What is wrong with an event whose JSON has that many bytes.
pub open spec fn payload_error(bytes: nat) -> Option<Seq<char>> {
    if bytes > MAX_ASSET_PAYLOAD_BYTES {
        Some("asset protocol payload is "@ + decimal_nat(bytes) + " bytes; maximum is 65536"@)
    } else {
        None
    }
}

/// The bytes of a rendered event, where they are few enough to be sent.
pub fn check_asset_payload(bytes: Vec<u8>) -> (r: Result<Vec<u8>, String>)
    ensures
        match payload_error(bytes@.len()) {
            Some(message) => r matches Err(text) && text@ == message,
            None => r == Ok::<Vec<u8>, String>(bytes),
        },
{
    if bytes.len() > MAX_ASSET_PAYLOAD_BYTES {
        let mut message = "asset protocol payload is ".to_owned();
        push_u128(&mut message, bytes.len() as u128);
        message.append(" bytes; maximum is 65536");
        return Err(message);
    }
    Ok(bytes)
}

/// What is wrong with a catalog snapshot whose JSON has that many bytes.
pub open spec fn snapshot_error(bytes: nat) -> Option<Seq<char>> {
    match payload_error(bytes) {
        Some(message) => Some(message),
        None => if bytes > MAX_CATALOG_SNAPSHOT_BYTES {
            Some(
                "asset catalog snapshot would be "@ + decimal_nat(bytes)
                    + " bytes; maximum is 60000"@,
            )
        } else {
            None
        },
    }
}

/// Checks the bytes of a rendered catalog snapshot.
pub fn ensure_snapshot_budget(bytes: Vec<u8>) -> (r: Result<(), String>)
    ensures
        is_result(r, checked(snapshot_error(bytes@.len()))),
{
    let bytes = match check_asset_payload(bytes) {
        Ok(bytes) => bytes,
        Err(message) => return Err(message),
    };
    if bytes.len() > MAX_CATALOG_SNAPSHOT_BYTES {
        let mut message = "asset catalog snapshot would be ".to_owned();
        push_u128(&mut message, bytes.len() as u128);
        message.append(" bytes; maximum is 60000");
        return Err(message);
    }
    Ok(())
}

// ---- stored rows ----

/// What a stored JSON text parses to.
pub open spec fn decoded(json: Seq<char>) -> Result<JsonView, Seq<char>> {
    parsed(encode_utf8(json))
}

/// Why a stored instance cannot be read.
pub open spec fn instance_error(stored: StoredAssetInstance) -> Option<Seq<char>> {
    match decoded(stored.collision_json@) {
        Err(message) => Some("decode stored collision metadata failed: "@ + message),
        Ok(_) => match decoded(stored.interaction_state_json@) {
            Err(message) => Some("decode stored interaction state failed: "@ + message),
            Ok(_) => None,
        },
    }
}

/// True iff the instance is what the stored row holds.
pub open spec fn is_stored_instance(instance: AssetInstance, stored: StoredAssetInstance) -> bool {
    &&& instance.instance_id == stored.instance_id
    &&& instance.asset_id == stored.asset_id
    &&& instance.version == stored.version
    &&& instance.position == stored.position
    &&& instance.rotation_degrees == stored.rotation_degrees
    &&& instance.scale == stored.scale
    &&& decoded(stored.collision_json@) == Ok::<JsonView, Seq<char>>(instance.collision@)
    &&& normal(instance.collision@)
    &&& decoded(stored.interaction_state_json@) == Ok::<JsonView, Seq<char>>(
        instance.interaction_state@,
    )
    &&& normal(instance.interaction_state@)
    &&& instance.owner == stored.owner
    &&& instance.created_at == stored.created_at
    &&& instance.updated_at == stored.updated_at
}

pub fn instance_from_stored(stored: &StoredAssetInstance) -> (r: Result<AssetInstance, String>)
    ensures
        match instance_error(*stored) {
            Some(message) => r matches Err(text) && text@ == message,
            None => r matches Ok(instance) && is_stored_instance(instance, *stored),
        },
{
    let collision = match parse_json(stored.collision_json.as_str().as_bytes()) {
        Ok(collision) => collision,
        Err(error) => {
            let mut message = "decode stored collision metadata failed: ".to_owned();
            message.append(error.as_str());
            return Err(message);
        },
    };
    let interaction_state = match parse_json(stored.interaction_state_json.as_str().as_bytes()) {
        Ok(interaction_state) => interaction_state,
        Err(error) => {
            let mut message = "decode stored interaction state failed: ".to_owned();
            message.append(error.as_str());
            return Err(message);
        },
    };
    Ok(
        AssetInstance {
            instance_id: stored.instance_id.clone(),
            asset_id: stored.asset_id.clone(),
            version: stored.version,
            position: stored.position,
            rotation_degrees: stored.rotation_degrees,
            scale: stored.scale,
            collision,
            interaction_state,
            owner: stored.owner.clone(),
            created_at: stored.created_at.clone(),
            updated_at: stored.updated_at.clone(),
        },
    )
}

/// A stored asset with the parts that are decoded elsewhere: its spec, the canonical JSON and the
/// measured bounds of that spec, and its budget.
pub struct DecodedAsset {
    pub stored: StoredAssetDefinition,
    pub spec: Result<(SculptSpec, Option<SculptBounds>), String>,
    pub budget: Result<SculptBudget, String>,
}

/// Why a stored asset cannot be read.
pub open spec fn asset_error(asset: DecodedAsset) -> Option<Seq<char>> {
    match asset.spec {
        Err(message) => Some("decode stored SculptSpec failed: "@ + message@),
        Ok((spec, bounds)) => if spec_conflicts(spec).len() > 0 || spec_digest(spec)
            != asset.stored.spec_hash@ {
            Some(
                "stored asset "@ + asset.stored.asset_id@ + "@"@ + decimal_nat(
                    asset.stored.version as nat,
                ) + " failed validation or hash verification"@,
            )
        } else {
            match asset.budget {
                Err(message) => Some("decode stored asset budget failed: "@ + message@),
                Ok(_) => None,
            }
        },
    }
}

/// True iff the entry is what the stored row holds.
pub open spec fn is_stored_asset(entry: AssetCatalogEntry, asset: DecodedAsset) -> bool {
    &&& entry.asset_id == asset.stored.asset_id
    &&& entry.version == asset.stored.version
    &&& entry.spec_hash == asset.stored.spec_hash
    &&& asset.spec matches Ok(decoded) && entry.spec == decoded.0
    &&& asset.budget == Ok::<SculptBudget, String>(entry.budget)
    &&& entry.actor == asset.stored.actor
    &&& entry.created_at == asset.stored.created_at
}

/// Reads a stored asset: its spec has to be valid still, and to have the stored hash.
pub fn catalog_entry_from_stored(asset: DecodedAsset) -> (r: Result<AssetCatalogEntry, String>)
    ensures
        match asset_error(asset) {
            Some(message) => r matches Err(text) && text@ == message,
            None => r matches Ok(entry) && is_stored_asset(entry, asset),
        },
{
    let stored = asset.stored;
    let validated = match asset.spec {
        Ok((spec, bounds)) => validate_sculpt_spec(spec, bounds),
        Err(error) => {
            let mut message = "decode stored SculptSpec failed: ".to_owned();
            message.append(error.as_str());
            return Err(message);
        },
    };
    proof {
        assert(sculpt_views(validated.conflicts@).len() == validated.conflicts@.len());
    }
    if !validated.is_valid() || !same_text(
        validated.spec_hash.as_str(),
        stored.spec_hash.as_str(),
    ) {
        let mut message = "stored asset ".to_owned();
        message.append(stored.asset_id.as_str());
        message.append("@");
        push_u128(&mut message, stored.version as u128);
        message.append(" failed validation or hash verification");
        return Err(message);
    }
    let budget = match asset.budget {
        Ok(budget) => budget,
        Err(error) => {
            let mut message = "decode stored asset budget failed: ".to_owned();
            message.append(error.as_str());
            return Err(message);
        },
    };
    Ok(
        AssetCatalogEntry {
            asset_id: stored.asset_id,
            version: stored.version,
            spec_hash: stored.spec_hash,
            spec: validated.spec,
            budget,
            actor: stored.actor,
            created_at: stored.created_at,
        },
    )
}

// ---- publishing ----

/// The JSON of a conflict.
pub open spec fn sculpt_conflict_json(conflict: SculptConflictView) -> Seq<char> {
    let node = match conflict.node {
        Some(node) => ",\"node\":"@ + json_string(node),
        None => Seq::empty(),
    };
    "{\"code\":"@ + json_string(conflict.code) + ",\"message\":"@ + json_string(conflict.message)
        + node + "}"@
}

/// The JSON of the first `n` conflicts, with commas between them.
pub open spec fn sculpt_conflicts_json(conflicts: Seq<SculptConflictView>, n: int) -> Seq<char>
    decreases n,
{
    if n <= 0 {
        Seq::empty()
    } else if n == 1 {
        sculpt_conflict_json(conflicts[0])
    } else {
        sculpt_conflicts_json(conflicts, n - 1) + ","@ + sculpt_conflict_json(conflicts[n - 1])
    }
}

fn push_sculpt_conflict(out: &mut String, conflict: &SculptConflict)
    ensures
        final(out)@ == old(out)@ + sculpt_conflict_json(conflict@),
{
    let ghost start = out@;
    out.append("{\"code\":");
    out.append(json_string_text(conflict.code.as_str()).as_str());
    out.append(",\"message\":");
    out.append(json_string_text(conflict.message.as_str()).as_str());
    if let Some(node) = &conflict.node {
        out.append(",\"node\":");
        out.append(json_string_text(node.as_str()).as_str());
    }
    out.append("}");
    proof {
        assert(out@ =~= start + sculpt_conflict_json(conflict@));
    }
}

/// The message of a publication that is refused for its conflicts.
pub open spec fn invalid_spec_message(conflicts: Seq<SculptConflictView>) -> Seq<char> {
    "SculptSpec validation failed: ["@ + sculpt_conflicts_json(conflicts, conflicts.len() as int)
        + "]"@
}

fn invalid_spec_text(conflicts: &Vec<SculptConflict>) -> (r: String)
    ensures
        r@ == invalid_spec_message(sculpt_views(conflicts@)),
{
    let mut out = "SculptSpec validation failed: [".to_owned();
    let ghost views = sculpt_views(conflicts@);
    let ghost start = out@;
    let mut i: usize = 0;
    while i < conflicts.len()
        invariant
            i <= conflicts@.len(),
            views == sculpt_views(conflicts@),
            out@ =~= start + sculpt_conflicts_json(views, i as int),
        decreases conflicts@.len() - i,
    {
        if i > 0 {
            out.append(",");
        }
        push_sculpt_conflict(&mut out, &conflicts[i]);
        proof {
            assert(views[i as int] == conflicts@[i as int]@);
        }
        i = i + 1;
    }
    out.append("]");
    out
}

/// What is done with a spec that is to be published.
pub enum PublishDecision {
    Refuse(Seq<char>),
    /// The version is in the catalog with this spec.
    Existing,
    Store,
}

/// The decision on a validated spec, by the catalog: a published version never changes.
pub open spec fn publish_decision(
    assets: Map<(Seq<char>, u32), Arc<AssetCatalogEntry>>,
    validated: ValidatedSculptSpec,
) -> PublishDecision {
    let key = (validated.spec.asset_id@, validated.spec.version);
    if validated.conflicts@.len() > 0 {
        PublishDecision::Refuse(invalid_spec_message(sculpt_views(validated.conflicts@)))
    } else if !assets.contains_key(key) {
        PublishDecision::Store
    } else if assets[key].spec_hash@ == validated.spec_hash@ {
        PublishDecision::Existing
    } else {
        PublishDecision::Refuse(
            "asset "@ + key.0 + "@"@ + decimal_nat(key.1 as nat)
                + " already exists with a different spec_hash"@,
        )
    }
}

/// The next step of a publication.
pub enum PublishStep {
    /// Nothing is to be done: the version is in the catalog.
    Existing(Arc<AssetCatalogEntry>),
    /// The entry is to be stored, where the snapshot with it is small enough.
    Store { prospective: Arc<AssetCatalogEntry>, canonical_json: String },
}

/// True iff the entry is the validated spec, published by a tool and not yet stored.
pub open spec fn is_prospective(entry: AssetCatalogEntry, validated: ValidatedSculptSpec) -> bool {
    &&& entry.asset_id == validated.spec.asset_id
    &&& entry.version == validated.spec.version
    &&& entry.spec_hash == validated.spec_hash
    &&& entry.spec == validated.spec
    &&& entry.budget == validated.budget
    &&& entry.actor@ == "mcp"@
    &&& entry.created_at@.len() == 0
}

/// Why storing an asset failed, or its stored row cannot be read.
pub open spec fn stored_asset_error(asset: Result<DecodedAsset, String>) -> Option<Seq<char>> {
    match asset {
        Err(message) => Some("persist asset definition failed: "@ + message@),
        Ok(asset) => asset_error(asset),
    }
}

/// The published assets, the active instances, and the events that were not sent yet.
pub struct AssetService {
    pub assets: OrderedMap<VersionKey, Arc<AssetCatalogEntry>>,
    pub instances: OrderedMap<String, Arc<AssetInstance>>,
    pub pending_events: Vec<AssetProtocolEvent>,
}

/// True iff the step is the right one for a validated spec, by the catalog.
pub open spec fn is_publish_step(
    assets: Map<(Seq<char>, u32), Arc<AssetCatalogEntry>>,
    validated: ValidatedSculptSpec,
    r: Result<PublishStep, String>,
) -> bool {
    match publish_decision(assets, validated) {
        PublishDecision::Refuse(message) => r matches Err(text) && text@ == message,
        PublishDecision::Existing => r == Ok::<PublishStep, String>(
            PublishStep::Existing(assets[(validated.spec.asset_id@, validated.spec.version)]),
        ),
        PublishDecision::Store => r matches Ok(PublishStep::Store { prospective, canonical_json })
            && is_prospective(*prospective, validated) && canonical_json
            == validated.canonical_json,
    }
}

/// True iff the asset that the storage gave back was taken up: it is in the catalog and clients are
/// told; or it could not be stored or read, and nothing changed.
pub open spec fn publishes(
    before: AssetService,
    after: AssetService,
    asset: Result<DecodedAsset, String>,
    r: Result<Arc<AssetCatalogEntry>, String>,
) -> bool {
    match stored_asset_error(asset) {
        Some(message) => r matches Err(text) && text@ == message && after == before,
        None => {
            &&& r matches Ok(entry)
            &&& is_stored_asset(*entry, asset->Ok_0)
            &&& after.assets@ == before.assets@.insert(entry.key(), entry)
            &&& after.instances == before.instances
            &&& after.pending_events@ == before.pending_events@.push(
                AssetProtocolEvent::AssetPublished { asset: entry },
            )
        },
    }
}

/// True iff the instance that the storage gave back was taken up: it is active and clients are told;
/// or it could not be stored or read, and nothing changed.
pub open spec fn spawns(
    before: AssetService,
    after: AssetService,
    stored: Result<StoredAssetInstance, String>,
    r: Result<Arc<AssetInstance>, String>,
) -> bool {
    match stored_instance_error("persist asset instance failed: "@, stored) {
        Some(message) => r matches Err(text) && text@ == message && after == before,
        None => r matches Ok(instance) && takes_up(
            before,
            after,
            instance,
            stored->Ok_0,
            AssetProtocolEvent::SpawnInstance { instance },
        ),
    }
}

/// True iff every active instance shows a published asset.
pub open spec fn instances_known(
    assets: Map<(Seq<char>, u32), Arc<AssetCatalogEntry>>,
    instances: Map<Seq<char>, Arc<AssetInstance>>,
) -> bool {
    forall|id: Seq<char>| #[trigger]
        instances.contains_key(id) ==> assets.contains_key(instances[id].asset_key())
}

impl AssetService {
    /// The invariant: both maps are in order, and each entry stands under its own key.
    pub open spec fn wf(self) -> bool {
        &&& self.assets.wf()
        &&& self.instances.wf()
        &&& forall|key: (Seq<char>, u32)| #[trigger]
            self.assets@.contains_key(key) ==> self.assets@[key].key() == key
        &&& instances_keyed(self.instances@)
    }

    /// What is said of a validated spec.
    pub fn validate_spec_value(validated: ValidatedSculptSpec) -> (r: SculptValidationReport)
        ensures
            r.valid == (validated.conflicts@.len() == 0),
            r.asset_id == validated.spec.asset_id,
            r.version == validated.spec.version,
            r.spec_hash == validated.spec_hash,
            r.budget == validated.budget,
            r.conflicts == validated.conflicts,
            if validated.budget.estimated_triangles > 40_000 {
                r.warnings@.len() == 1 && r.warnings@[0]@
                    == "asset is near the 50,000-triangle limit"@
            } else {
                r.warnings@.len() == 0
            },
    {
        let valid = validated.is_valid();
        let mut warnings: Vec<String> = Vec::new();
        if validated.budget.estimated_triangles > 40_000 {
            warnings.push("asset is near the 50,000-triangle limit".to_owned());
        }
        SculptValidationReport {
            valid,
            asset_id: validated.spec.asset_id,
            version: validated.spec.version,
            spec_hash: validated.spec_hash,
            budget: validated.budget,
            conflicts: validated.conflicts,
            warnings,
        }
    }

    /// Decides what is to be done with a spec that is to be published.
    pub fn prepare_publish(&self, validated: ValidatedSculptSpec) -> (r: Result<
        PublishStep,
        String,
    >)
        requires
            self.wf(),
        ensures
            is_publish_step(self.assets@, validated, r),
    {
        if !validated.is_valid() {
            return Err(invalid_spec_text(&validated.conflicts));
        }
        let key = VersionKey {
            name: validated.spec.asset_id.clone(),
            version: validated.spec.version,
        };
        if let Some(existing) = self.assets.get(&key) {
            if same_text(existing.spec_hash.as_str(), validated.spec_hash.as_str()) {
                return Ok(PublishStep::Existing(share(existing)));
            }
            let mut message = "asset ".to_owned();
            message.append(key.name.as_str());
            message.append("@");
            push_u128(&mut message, key.version as u128);
            message.append(" already exists with a different spec_hash");
            return Err(message);
        }
        let prospective = Arc::new(
            AssetCatalogEntry {
                asset_id: key.name,
                version: key.version,
                spec_hash: validated.spec_hash,
                spec: validated.spec,
                budget: validated.budget,
                actor: "mcp".to_owned(),
                created_at: String::new(),
            },
        );
        Ok(PublishStep::Store { prospective, canonical_json: validated.canonical_json })
    }

    /// The snapshot that there would be with one more asset.
    pub fn snapshot_with_asset(&self, prospective: &Arc<AssetCatalogEntry>) -> (r:
        AssetProtocolEvent)
        ensures
            r matches AssetProtocolEvent::CatalogSnapshot { assets, instances } && assets@
                == self.assets.spec_values().push(*prospective) && instances@
                == self.instances.spec_values(),
    {
        let mut assets = self.list_assets();
        assets.push(share(prospective));
        AssetProtocolEvent::CatalogSnapshot { assets, instances: self.list_instances() }
    }

    /// Takes up an asset that was stored.
    pub fn publish(&mut self, asset: Result<DecodedAsset, String>) -> (r: Result<
        Arc<AssetCatalogEntry>,
        String,
    >)
        requires
            old(self).wf(),
        ensures
            final(self).wf(),
            publishes(*old(self), *final(self), asset, r),
    {
        let asset = match asset {
            Ok(asset) => asset,
            Err(error) => {
                let mut message = "persist asset definition failed: ".to_owned();
                message.append(error.as_str());
                return Err(message);
            },
        };
        let entry = match catalog_entry_from_stored(asset) {
            Ok(entry) => Arc::new(entry),
            Err(message) => return Err(message),
        };
        self.assets.insert(
            VersionKey { name: entry.asset_id.clone(), version: entry.version },
            share(&entry),
        );
        self.pending_events.push(AssetProtocolEvent::AssetPublished { asset: share(&entry) });
        Ok(entry)
    }

    /// The published assets, by id and version.
    pub fn list_assets(&self) -> (r: Vec<Arc<AssetCatalogEntry>>)
        ensures
            r@ == self.assets.spec_values(),
    {
        share_all(self.assets.values())
    }

    /// The active instances, by id.
    pub fn list_instances(&self) -> (r: Vec<Arc<AssetInstance>>)
        ensures
            r@ == self.instances.spec_values(),
    {
        share_all(self.instances.values())
    }

    /// The asset of that id and version, or its latest version where none is given.
    pub fn get_asset(&self, asset_id: &str, version: Option<u32>) -> (r: Option<
        Arc<AssetCatalogEntry>,
    >)
        requires
            self.wf(),
        ensures
            match version {
                Some(version) => r == if self.assets@.contains_key((asset_id@, version)) {
                    Some(self.assets@[(asset_id@, version)])
                } else {
                    None
                },
                None => match r {
                    Some(entry) => is_latest(self.assets@, asset_id@, entry.version) && entry
                        == self.assets@[(asset_id@, entry.version)],
                    None => forall|v: u32|
                        !(#[trigger] self.assets@.contains_key((asset_id@, v))),
                },
            },
    {
        if let Some(version) = version {
            let key = VersionKey { name: asset_id.to_owned(), version };
            return match self.assets.get(&key) {
                Some(entry) => Some(share(entry)),
                None => None,
            };
        }
        let keys = self.assets.keys();
        let values = self.assets.values();
        let ghost names = self.assets.spec_keys();
        proof {
            self.assets.is_bound();
            assert(names.len() == keys@.len());
        }
        let mut latest: Option<usize> = None;
        let mut i: usize = 0;
        while i < keys.len()
            invariant
                i <= keys@.len(),
                names == keys@.map_values(|key: VersionKey| key@),
                latest matches Some(j) ==> j < i && names[j as int].0 == asset_id@,
                forall|k: int|
                    0 <= k < i && (#[trigger] names[k]).0 == asset_id@ ==> latest is Some && k
                        <= latest->0,
            decreases keys@.len() - i,
        {
            if same_text(keys[i].name.as_str(), asset_id) {
                latest = Some(i);
            }
            i = i + 1;
        }
        match latest {
            Some(j) => {
                proof {
                    let held = self.assets.spec_values();
                    bound_at::<VersionKey, Arc<AssetCatalogEntry>>(names, held, j as int);
                    assert(self.assets@.contains_key(names[j as int]));
                    assert forall|v: u32| #[trigger]
                        self.assets@.contains_key((asset_id@, v)) implies v <= names[j as int].1 by {
                        assert(names.contains((asset_id@, v)));
                        let k = choose|k: int| 0 <= k < names.len() && names[k] == (asset_id@, v);
                        assert(k <= j);
                        if k < j {
                            assert(VersionKey::less(names[k], names[j as int]));
                            text_less_irreflexive(asset_id@);
                        }
                    }
                }
                Some(share(&values[j]))
            },
            None => {
                proof {
                    assert forall|v: u32| !(#[trigger] self.assets@.contains_key((asset_id@, v))) by {
                        if self.assets@.contains_key((asset_id@, v)) {
                            assert(names.contains((asset_id@, v)));
                            let k = choose|k: int|
                                0 <= k < names.len() && names[k] == (asset_id@, v);
                            assert(names[k].0 == asset_id@);
                        }
                    }
                }
                None
            },
        }
    }

    /// Everything that a client has to know at first.
    pub fn snapshot_event(&self) -> (r: AssetProtocolEvent)
        ensures
            r matches AssetProtocolEvent::CatalogSnapshot { assets, instances } && assets@
                == self.assets.spec_values() && instances@ == self.instances.spec_values(),
    {
        AssetProtocolEvent::CatalogSnapshot {
            assets: self.list_assets(),
            instances: self.list_instances(),
        }
    }

    /// Hands out the events that were not sent yet, in the order in which they came.
    pub fn drain_events(&mut self) -> (r: Vec<AssetProtocolEvent>)
        ensures
            r@ == old(self).pending_events@,
            final(self).pending_events@.len() == 0,
            final(self).assets == old(self).assets,
            final(self).instances == old(self).instances,
    {
        let mut events: Vec<AssetProtocolEvent> = Vec::new();
        std::mem::swap(&mut self.pending_events, &mut events);
        events
    }
}

/// True iff `version` is the highest of the versions of that asset.
pub open spec fn is_latest(
    assets: Map<(Seq<char>, u32), Arc<AssetCatalogEntry>>,
    asset_id: Seq<char>,
    version: u32,
) -> bool {
    &&& assets.contains_key((asset_id, version))
    &&& forall|v: u32| #[trigger] assets.contains_key((asset_id, v)) ==> v <= version
}

// ---- loading ----

/// The key of a stored asset.
pub open spec fn stored_key(asset: DecodedAsset) -> (Seq<char>, u32) {
    (asset.stored.asset_id@, asset.stored.version)
}

/// True iff one of the first `n` stored assets has that key.
pub open spec fn has_asset(assets: Seq<DecodedAsset>, n: int, key: (Seq<char>, u32)) -> bool {
    exists|i: int| 0 <= i < n && stored_key(#[trigger] assets[i]) == key
}

/// True iff no later one of the first `n` stored assets has the key of the one at `i`.
pub open spec fn last_asset(assets: Seq<DecodedAsset>, n: int, i: int) -> bool {
    forall|j: int| i < j < n ==> stored_key(#[trigger] assets[j]) != stored_key(assets[i])
}

/// True iff the catalog holds the first `n` stored assets.
pub open spec fn catalog_of(
    catalog: Map<(Seq<char>, u32), Arc<AssetCatalogEntry>>,
    assets: Seq<DecodedAsset>,
    n: int,
) -> bool {
    &&& forall|key: (Seq<char>, u32)| #[trigger]
        catalog.contains_key(key) == has_asset(assets, n, key)
    &&& forall|i: int|
        #![trigger assets[i]]
        0 <= i < n && last_asset(assets, n, i) ==> is_stored_asset(
            *catalog[stored_key(assets[i])],
            assets[i],
        )
}

/// The first reason, from index `i` on, why a stored asset cannot be read.
pub open spec fn assets_error(assets: Seq<DecodedAsset>, i: int) -> Option<Seq<char>>
    decreases assets.len() - i,
{
    if i >= assets.len() {
        None
    } else {
        match asset_error(assets[i]) {
            Some(message) => Some(message),
            None => assets_error(assets, i + 1),
        }
    }
}

/// Why a stored instance cannot be taken up, beside these stored assets.
pub open spec fn row_error(assets: Seq<DecodedAsset>, row: StoredAssetInstance) -> Option<
    Seq<char>,
> {
    match instance_error(row) {
        Some(message) => Some(message),
        None => if has_asset(assets, assets.len() as int, (row.asset_id@, row.version)) {
            None
        } else {
            Some(missing_asset_message(row))
        },
    }
}

/// The message of an instance whose asset is not stored.
pub open spec fn missing_asset_message(row: StoredAssetInstance) -> Seq<char> {
    "persisted instance "@ + row.instance_id@ + " references missing asset "@ + row.asset_id@ + "@"@
        + decimal_nat(row.version as nat)
}

/// The first reason, from index `i` on, why a stored instance cannot be taken up.
pub open spec fn rows_error(
    assets: Seq<DecodedAsset>,
    rows: Seq<StoredAssetInstance>,
    i: int,
) -> Option<Seq<char>>
    decreases rows.len() - i,
{
    if i >= rows.len() {
        None
    } else {
        match row_error(assets, rows[i]) {
            Some(message) => Some(message),
            None => rows_error(assets, rows, i + 1),
        }
    }
}

/// Why a stored catalog and its instances cannot be loaded.
pub open spec fn load_error(assets: Seq<DecodedAsset>, rows: Seq<StoredAssetInstance>) -> Option<
    Seq<char>,
> {
    match assets_error(assets, 0) {
        Some(message) => Some(message),
        None => rows_error(assets, rows, 0),
    }
}

/// True iff one of the first `n` rows has that id.
pub open spec fn has_row(rows: Seq<StoredAssetInstance>, n: int, id: Seq<char>) -> bool {
    exists|i: int| 0 <= i < n && (#[trigger] rows[i]).instance_id@ == id
}

/// True iff no later one of the first `n` rows has the id of the one at `i`.
pub open spec fn last_row(rows: Seq<StoredAssetInstance>, n: int, i: int) -> bool {
    forall|j: int| i < j < n ==> (#[trigger] rows[j]).instance_id@ != rows[i].instance_id@
}

/// True iff the instances are those of the first `n` rows.
pub open spec fn instances_of(
    instances: Map<Seq<char>, Arc<AssetInstance>>,
    rows: Seq<StoredAssetInstance>,
    n: int,
) -> bool {
    &&& forall|id: Seq<char>| #[trigger] instances.contains_key(id) == has_row(rows, n, id)
    &&& forall|i: int|
        #![trigger rows[i]]
        0 <= i < n && last_row(rows, n, i) ==> is_stored_instance(
            *instances[rows[i].instance_id@],
            rows[i],
        )
}

proof fn catalog_grows(
    catalog: Map<(Seq<char>, u32), Arc<AssetCatalogEntry>>,
    assets: Seq<DecodedAsset>,
    n: int,
    entry: Arc<AssetCatalogEntry>,
)
    requires
        0 <= n < assets.len(),
        catalog_of(catalog, assets, n),
        is_stored_asset(*entry, assets[n]),
    ensures
        catalog_of(catalog.insert(entry.key(), entry), assets, n + 1),
{
    let after = catalog.insert(entry.key(), entry);
    assert forall|key: (Seq<char>, u32)| #[trigger] after.contains_key(key) == has_asset(
        assets,
        n + 1,
        key,
    ) by {
        assert(catalog.contains_key(key) == has_asset(assets, n, key));
        if has_asset(assets, n + 1, key) && !has_asset(assets, n, key) {
            let i = choose|i: int| 0 <= i < n + 1 && stored_key(#[trigger] assets[i]) == key;
            assert(i == n);
        }
        if key == entry.key() {
            assert(stored_key(assets[n]) == key);
        }
    }
    assert forall|i: int|
        #![trigger assets[i]]
        0 <= i < n + 1 && last_asset(assets, n + 1, i) implies is_stored_asset(
        *after[stored_key(assets[i])],
        assets[i],
    ) by {
        if i < n {
            assert(stored_key(assets[n]) != stored_key(assets[i]));
            assert(last_asset(assets, n, i));
        }
    }
}

proof fn instances_grow(
    instances: Map<Seq<char>, Arc<AssetInstance>>,
    rows: Seq<StoredAssetInstance>,
    n: int,
    instance: Arc<AssetInstance>,
)
    requires
        0 <= n < rows.len(),
        instances_of(instances, rows, n),
        is_stored_instance(*instance, rows[n]),
    ensures
        instances_of(instances.insert(instance.instance_id@, instance), rows, n + 1),
{
    let after = instances.insert(instance.instance_id@, instance);
    assert forall|id: Seq<char>| #[trigger] after.contains_key(id) == has_row(
        rows,
        n + 1,
        id,
    ) by {
        assert(instances.contains_key(id) == has_row(rows, n, id));
        if has_row(rows, n + 1, id) && !has_row(rows, n, id) {
            let i = choose|i: int| 0 <= i < n + 1 && (#[trigger] rows[i]).instance_id@ == id;
            assert(i == n);
        }
        if id == instance.instance_id@ {
            assert(rows[n].instance_id@ == id);
        }
    }
    assert forall|i: int|
        #![trigger rows[i]]
        0 <= i < n + 1 && last_row(rows, n + 1, i) implies is_stored_instance(
        *after[rows[i].instance_id@],
        rows[i],
    ) by {
        if i < n {
            assert(rows[n].instance_id@ != rows[i].instance_id@);
            assert(last_row(rows, n, i));
        }
    }
}

/// The catalog of the stored assets.
fn load_catalog(assets: Vec<DecodedAsset>) -> (r: Result<
    OrderedMap<VersionKey, Arc<AssetCatalogEntry>>,
    String,
>)
    ensures
        match assets_error(assets@, 0) {
            Some(message) => r matches Err(text) && text@ == message,
            None => r matches Ok(catalog) && catalog.wf() && catalog_of(
                catalog@,
                assets@,
                assets@.len() as int,
            ) && forall|key: (Seq<char>, u32)| #[trigger]
                catalog@.contains_key(key) ==> catalog@[key].key() == key,
        },
{
    let ghost all = assets@;
    let mut rest = assets;
    let mut catalog: OrderedMap<VersionKey, Arc<AssetCatalogEntry>> = OrderedMap::new();
    let ghost mut n: int = 0;
    while rest.len() > 0
        invariant
            0 <= n <= all.len(),
            all == assets@,
            rest@ == all.skip(n),
            catalog.wf(),
            catalog_of(catalog@, all, n),
            assets_error(all, 0) == assets_error(all, n),
            forall|key: (Seq<char>, u32)| #[trigger]
                catalog@.contains_key(key) ==> catalog@[key].key() == key,
        decreases rest@.len(),
    {
        proof {
            assert(rest@[0] == all[n]);
        }
        let asset = rest.remove(0);
        proof {
            assert(rest@ =~= all.skip(n + 1));
        }
        let entry = match catalog_entry_from_stored(asset) {
            Ok(entry) => Arc::new(entry),
            Err(message) => return Err(message),
        };
        proof {
            catalog_grows(catalog@, all, n, entry);
            n = n + 1;
        }
        catalog.insert(
            VersionKey { name: entry.asset_id.clone(), version: entry.version },
            entry,
        );
    }
    Ok(catalog)
}

/// The instance of a stored row, where its asset is in the catalog.
fn load_row(
    catalog: &OrderedMap<VersionKey, Arc<AssetCatalogEntry>>,
    row: &StoredAssetInstance,
) -> (r: Result<Arc<AssetInstance>, String>)
    requires
        catalog.wf(),
    ensures
        match instance_error(*row) {
            Some(message) => r matches Err(text) && text@ == message,
            None => if catalog@.contains_key((row.asset_id@, row.version)) {
                r matches Ok(instance) && is_stored_instance(*instance, *row)
            } else {
                r matches Err(text) && text@ == missing_asset_message(*row)
            },
        },
{
    let instance = match instance_from_stored(row) {
        Ok(instance) => instance,
        Err(message) => return Err(message),
    };
    let key = VersionKey { name: row.asset_id.clone(), version: row.version };
    if catalog.get(&key).is_none() {
        let mut message = "persisted instance ".to_owned();
        message.append(row.instance_id.as_str());
        message.append(" references missing asset ");
        message.append(row.asset_id.as_str());
        message.append("@");
        push_u128(&mut message, row.version as u128);
        return Err(message);
    }
    Ok(Arc::new(instance))
}

/// True iff each instance stands under its own id.
pub open spec fn instances_keyed(instances: Map<Seq<char>, Arc<AssetInstance>>) -> bool {
    forall|id: Seq<char>| #[trigger]
        instances.contains_key(id) ==> instances[id].instance_id@ == id
}

/// The instances of the stored rows.
fn load_instances(
    catalog: &OrderedMap<VersionKey, Arc<AssetCatalogEntry>>,
    Ghost(assets): Ghost<Seq<DecodedAsset>>,
    rows: &Vec<StoredAssetInstance>,
) -> (r: Result<OrderedMap<String, Arc<AssetInstance>>, String>)
    requires
        catalog.wf(),
        catalog_of(catalog@, assets, assets.len() as int),
    ensures
        match rows_error(assets, rows@, 0) {
            Some(message) => r matches Err(text) && text@ == message,
            None => r matches Ok(instances) && instances.wf() && instances_of(
                instances@,
                rows@,
                rows@.len() as int,
            ) && instances_known(catalog@, instances@) && instances_keyed(instances@),
        },
{
    let mut instances: OrderedMap<String, Arc<AssetInstance>> = OrderedMap::new();
    let mut i: usize = 0;
    while i < rows.len()
        invariant
            i <= rows@.len(),
            catalog.wf(),
            catalog_of(catalog@, assets, assets.len() as int),
            instances.wf(),
            instances_of(instances@, rows@, i as int),
            instances_known(catalog@, instances@),
            instances_keyed(instances@),
            rows_error(assets, rows@, 0) == rows_error(assets, rows@, i as int),
        decreases rows@.len() - i,
    {
        let ghost row = rows@[i as int];
        proof {
            assert(catalog@.contains_key((row.asset_id@, row.version)) == has_asset(
                assets,
                assets.len() as int,
                (row.asset_id@, row.version),
            ));
        }
        let instance = match load_row(catalog, &rows[i]) {
            Ok(instance) => instance,
            Err(message) => return Err(message),
        };
        proof {
            instances_grow(instances@, rows@, i as int, instance);
        }
        instances.insert(instance.instance_id.clone(), instance);
        i = i + 1;
    }
    Ok(instances)
}

impl AssetService {
    /// The service over what is stored.
    pub fn load(assets: Vec<DecodedAsset>, rows: &Vec<StoredAssetInstance>) -> (r: Result<
        AssetService,
        String,
    >)
        ensures
            match load_error(assets@, rows@) {
                Some(message) => r matches Err(text) && text@ == message,
                None => r matches Ok(service) && service.wf() && catalog_of(
                    service.assets@,
                    assets@,
                    assets@.len() as int,
                ) && instances_of(service.instances@, rows@, rows@.len() as int)
                    && instances_known(service.assets@, service.instances@)
                    && service.pending_events@.len() == 0,
            },
    {
        let ghost all = assets@;
        let assets = match load_catalog(assets) {
            Ok(assets) => assets,
            Err(message) => return Err(message),
        };
        let instances = match load_instances(&assets, Ghost(all), rows) {
            Ok(instances) => instances,
            Err(message) => return Err(message),
        };
        Ok(AssetService { assets, instances, pending_events: Vec::new() })
    }
}

// ---- spawning ----

/// Why a request to spawn an instance is refused, before anything stored is looked at.
pub open spec fn spawn_error(
    assets: Map<(Seq<char>, u32), Arc<AssetCatalogEntry>>,
    bounds: WorldBounds,
    request: SpawnAssetRequest,
    rendered: Seq<char>,
) -> Option<Seq<char>> {
    match key_error(request.idempotency_key@) {
        Some(message) => Some(message),
        None => match transform_error(
            bounds,
            request.position@,
            request.rotation_degrees@,
            request.scale@,
        ) {
            Some(message) => Some(message),
            None => match state_error(request.interaction_state@, rendered) {
                Some(message) => Some(message),
                None => if assets.contains_key((request.asset_id@, request.version)) {
                    None
                } else {
                    Some(
                        "unknown asset "@ + request.asset_id@ + "@"@ + decimal_nat(
                            request.version as nat,
                        ),
                    )
                },
            },
        },
    }
}

/// Equality of vectors, number by number.
pub open spec fn vectors_equal(a: Seq<Scalar>, b: Seq<Scalar>) -> bool {
    a[0].equals(b[0]) && a[1].equals(b[1]) && a[2].equals(b[2])
}

fn same_vector(a: &[Scalar; 3], b: &[Scalar; 3]) -> (r: bool)
    ensures
        r == vectors_equal(a@, b@),
{
    a[0].same(b[0]) && a[1].same(b[1]) && a[2].same(b[2])
}

/// True iff the stored instance is one that the request would have spawned.
pub open spec fn same_spawn(stored: StoredAssetInstance, request: SpawnAssetRequest) -> bool {
    &&& stored.asset_id@ == request.asset_id@
    &&& stored.version == request.version
    &&& vectors_equal(stored.position@, request.position@)
    &&& vectors_equal(stored.rotation_degrees@, request.rotation_degrees@)
    &&& vectors_equal(stored.scale@, request.scale@)
    &&& decoded(stored.interaction_state_json@) matches Ok(state) && values_equal(
        state,
        request.interaction_state@,
    )
}

/// True iff the row is the new instance that the request asks for.
pub open spec fn is_new_row(
    row: StoredAssetInstance,
    request: SpawnAssetRequest,
    collision_json: String,
    instance_id: Seq<char>,
) -> bool {
    &&& row.instance_id@ == instance_id
    &&& row.idempotency_key == request.idempotency_key
    &&& row.asset_id == request.asset_id
    &&& row.version == request.version
    &&& row.position == request.position
    &&& row.rotation_degrees == request.rotation_degrees
    &&& row.scale == request.scale
    &&& row.collision_json == collision_json
    &&& renders(request.interaction_state@, row.interaction_state_json@)
    &&& row.owner@ == "mcp"@
    &&& row.created_at@.len() == 0
    &&& row.updated_at@.len() == 0
    &&& row.removed_at is None
}

/// The next step of a spawn.
pub enum SpawnStep {
    /// Nothing is to be done: the request was carried out before.
    Existing(Arc<AssetInstance>),
    /// The row is to be stored, where the snapshot with the instance is small enough.
    Store { row: StoredAssetInstance, prospective: Arc<AssetInstance> },
}

/// True iff the step is the right one for a row of that id, by what is stored under the request's
/// idempotency key.
pub open spec fn is_spawn_step(
    r: Result<SpawnStep, String>,
    request: SpawnAssetRequest,
    found: Result<Option<StoredAssetInstance>, String>,
    collision_json: String,
    instance_id: Seq<char>,
) -> bool {
    match found {
        Err(error) => r matches Err(text) && text@
            == "load asset spawn idempotency record failed: "@ + error@,
        Ok(Some(stored)) => match instance_error(stored) {
            Some(message) => r matches Err(text) && text@ == message,
            None => if same_spawn(stored, request) {
                r matches Ok(SpawnStep::Existing(instance)) && is_stored_instance(*instance, stored)
            } else {
                r matches Err(text) && text@ == "idempotency_key `"@ + request.idempotency_key@
                    + "` is already bound to a different asset spawn"@
            },
        },
        Ok(None) => match r {
            Ok(SpawnStep::Store { row, prospective }) => is_new_row(
                row,
                request,
                collision_json,
                instance_id,
            ) && instance_error(row) is None && is_stored_instance(*prospective, row),
            Ok(SpawnStep::Existing(_)) => false,
            Err(text) => exists|row: StoredAssetInstance| #[trigger]
                is_new_row(row, request, collision_json, instance_id) && instance_error(row)
                    == Some(text@),
        },
    }
}

/// The next step of a spawn whose instance has that id.
pub fn plan_spawn(
    request: SpawnAssetRequest,
    found: Result<Option<StoredAssetInstance>, String>,
    collision_json: String,
    instance_id: String,
) -> (r: Result<SpawnStep, String>)
    ensures
        is_spawn_step(r, request, found, collision_json, instance_id@),
{
    let found = match found {
        Ok(found) => found,
        Err(error) => {
            let mut message = "load asset spawn idempotency record failed: ".to_owned();
            message.append(error.as_str());
            return Err(message);
        },
    };
    if let Some(stored) = found {
        let existing = match instance_from_stored(&stored) {
            Ok(existing) => existing,
            Err(message) => return Err(message),
        };
        if same_text(existing.asset_id.as_str(), request.asset_id.as_str()) && existing.version
            == request.version && same_vector(&existing.position, &request.position) && same_vector(
            &existing.rotation_degrees,
            &request.rotation_degrees,
        ) && same_vector(&existing.scale, &request.scale) && same_json(
            &existing.interaction_state,
            &request.interaction_state,
        ) {
            return Ok(SpawnStep::Existing(Arc::new(existing)));
        }
        let mut message = "idempotency_key `".to_owned();
        message.append(request.idempotency_key.as_str());
        message.append("` is already bound to a different asset spawn");
        return Err(message);
    }
    let row = StoredAssetInstance {
        instance_id,
        idempotency_key: request.idempotency_key,
        asset_id: request.asset_id,
        version: request.version,
        position: request.position,
        rotation_degrees: request.rotation_degrees,
        scale: request.scale,
        collision_json,
        interaction_state_json: request.interaction_state.compact_text(),
        owner: "mcp".to_owned(),
        created_at: String::new(),
        updated_at: String::new(),
        removed_at: None,
    };
    proof {
        assert(is_new_row(row, request, collision_json, instance_id@));
    }
    match instance_from_stored(&row) {
        Ok(prospective) => Ok(SpawnStep::Store { row, prospective: Arc::new(prospective) }),
        Err(message) => Err(message),
    }
}

/// The next step of a spawn of that asset, with its collision and a new id for the instance.
pub fn begin_spawn(
    request: SpawnAssetRequest,
    found: Result<Option<StoredAssetInstance>, String>,
    asset: &AssetCatalogEntry,
) -> (r: Result<SpawnStep, String>)
    ensures
        exists|collision_json: String, instance_id: Seq<char>|
            collision_json@ == compact(collision_value(asset.spec.collision)) && is_hyphenated_id(
                instance_id,
            ) && #[trigger] is_spawn_step(r, request, found, collision_json, instance_id),
{
    let collision_json = collision_text(&asset.spec.collision);
    plan_spawn(request, found, collision_json, new_hyphenated_id())
}

/// Why storing an instance failed, or its stored row cannot be read.
pub open spec fn stored_instance_error(
    failure: Seq<char>,
    stored: Result<StoredAssetInstance, String>,
) -> Option<Seq<char>> {
    match stored {
        Err(message) => Some(failure + message@),
        Ok(stored) => instance_error(stored),
    }
}

/// True iff the service took up the stored instance, and nothing else changed but for the event.
pub open spec fn takes_up(
    before: AssetService,
    after: AssetService,
    instance: Arc<AssetInstance>,
    stored: StoredAssetInstance,
    event: AssetProtocolEvent,
) -> bool {
    &&& is_stored_instance(*instance, stored)
    &&& after.assets == before.assets
    &&& after.instances@ == before.instances@.insert(instance.instance_id@, instance)
    &&& after.pending_events@ == before.pending_events@.push(event)
}

impl AssetService {
    /// Checks a request to spawn an instance, and finds the asset that it shows.
    pub fn prepare_spawn(&self, bounds: WorldBounds, request: &SpawnAssetRequest) -> (r: Result<
        Arc<AssetCatalogEntry>,
        String,
    >)
        requires
            self.wf(),
        ensures
            exists|rendered: Seq<char>| #[trigger]
                renders(request.interaction_state@, rendered) && match spawn_error(
                    self.assets@,
                    bounds,
                    *request,
                    rendered,
                ) {
                    Some(message) => r matches Err(text) && text@ == message,
                    None => r == Ok::<Arc<AssetCatalogEntry>, String>(
                        self.assets@[(request.asset_id@, request.version)],
                    ),
                },
    {
        let state = validate_state(&request.interaction_state);
        let ghost rendered = choose|rendered: Seq<char>| #[trigger]
            renders(request.interaction_state@, rendered) && is_result(
                state,
                checked(state_error(request.interaction_state@, rendered)),
            );
        proof {
            assert(renders(request.interaction_state@, rendered));
        }
        match validate_instance_key(request.idempotency_key.as_str()) {
            Ok(()) => {},
            Err(message) => return Err(message),
        }
        match validate_transform(
            bounds,
            &request.position,
            &request.rotation_degrees,
            &request.scale,
        ) {
            Ok(()) => {},
            Err(message) => return Err(message),
        }
        match state {
            Ok(()) => {},
            Err(message) => return Err(message),
        }
        let key = VersionKey { name: request.asset_id.clone(), version: request.version };
        match self.assets.get(&key) {
            Some(asset) => Ok(share(asset)),
            None => {
                let mut message = "unknown asset ".to_owned();
                message.append(request.asset_id.as_str());
                message.append("@");
                push_u128(&mut message, request.version as u128);
                Err(message)
            },
        }
    }

    /// The snapshot that there would be with one more instance.
    pub fn snapshot_with_instance(&self, prospective: &Arc<AssetInstance>) -> (r:
        AssetProtocolEvent)
        ensures
            r matches AssetProtocolEvent::CatalogSnapshot { assets, instances } && assets@
                == self.assets.spec_values() && instances@ == self.instances.spec_values().push(
                *prospective,
            ),
    {
        let mut instances = self.list_instances();
        instances.push(share(prospective));
        AssetProtocolEvent::CatalogSnapshot { assets: self.list_assets(), instances }
    }

    /// Takes up an instance that was stored.
    pub fn spawn(&mut self, stored: Result<StoredAssetInstance, String>) -> (r: Result<
        Arc<AssetInstance>,
        String,
    >)
        requires
            old(self).wf(),
        ensures
            final(self).wf(),
            spawns(*old(self), *final(self), stored, r),
    {
        let instance = match readable("persist asset instance failed: ", stored) {
            Ok(instance) => instance,
            Err(message) => return Err(message),
        };
        self.instances.insert(instance.instance_id.clone(), share(&instance));
        self.pending_events.push(
            AssetProtocolEvent::SpawnInstance { instance: share(&instance) },
        );
        Ok(instance)
    }
}

fn readable(failure: &str, stored: Result<StoredAssetInstance, String>) -> (r: Result<
    Arc<AssetInstance>,
    String,
>)
    ensures
        match stored_instance_error(failure@, stored) {
            Some(message) => r matches Err(text) && text@ == message,
            None => r matches Ok(instance) && is_stored_instance(*instance, stored->Ok_0),
        },
{
    match stored {
        Ok(stored) => match instance_from_stored(&stored) {
            Ok(instance) => Ok(Arc::new(instance)),
            Err(message) => Err(message),
        },
        Err(error) => {
            let mut message = failure.to_owned();
            message.append(error.as_str());
            Err(message)
        },
    }
}

// ---- changing and removing ----

/// Why a request to change an instance is refused, before anything stored is looked at.
pub open spec fn update_error(
    instances: Map<Seq<char>, Arc<AssetInstance>>,
    bounds: WorldBounds,
    request: UpdateAssetRequest,
    rendered: Seq<char>,
) -> Option<Seq<char>> {
    match transform_error(bounds, request.position@, request.rotation_degrees@, request.scale@) {
        Some(message) => Some(message),
        None => match state_error(request.interaction_state@, rendered) {
            Some(message) => Some(message),
            None => if instances.contains_key(request.instance_id@) {
                None
            } else {
                Some("unknown active instance_id `"@ + request.instance_id@ + "`"@)
            },
        },
    }
}

/// True iff the row is the instance with the request's transform and state in place of its own.
pub open spec fn is_changed_row(
    row: StoredAssetInstance,
    current: AssetInstance,
    request: UpdateAssetRequest,
    stored: StoredAssetInstance,
) -> bool {
    &&& row.instance_id == current.instance_id
    &&& row.idempotency_key == stored.idempotency_key
    &&& row.asset_id == current.asset_id
    &&& row.version == current.version
    &&& row.position == request.position
    &&& row.rotation_degrees == request.rotation_degrees
    &&& row.scale == request.scale
    &&& renders(current.collision@, row.collision_json@)
    &&& renders(request.interaction_state@, row.interaction_state_json@)
    &&& row.owner == current.owner
    &&& row.created_at == current.created_at
    &&& row.updated_at == current.updated_at
    &&& row.removed_at is None
}

/// The row that an instance is stored as when it is changed.
pub fn plan_update(
    current: &AssetInstance,
    request: UpdateAssetRequest,
    found: Result<Option<StoredAssetInstance>, String>,
) -> (r: Result<StoredAssetInstance, String>)
    ensures
        match found {
            Err(error) => r matches Err(text) && text@ == "load asset instance failed: "@ + error@,
            Ok(None) => r matches Err(text) && text@ == "asset instance metadata is missing"@,
            Ok(Some(stored)) => r matches Ok(row) && is_changed_row(
                row,
                *current,
                request,
                stored,
            ),
        },
{
    let stored = match found {
        Ok(Some(stored)) => stored,
        Ok(None) => return Err("asset instance metadata is missing".to_owned()),
        Err(error) => {
            let mut message = "load asset instance failed: ".to_owned();
            message.append(error.as_str());
            return Err(message);
        },
    };
    Ok(
        StoredAssetInstance {
            instance_id: current.instance_id.clone(),
            idempotency_key: stored.idempotency_key,
            asset_id: current.asset_id.clone(),
            version: current.version,
            position: request.position,
            rotation_degrees: request.rotation_degrees,
            scale: request.scale,
            collision_json: current.collision.compact_text(),
            interaction_state_json: request.interaction_state.compact_text(),
            owner: current.owner.clone(),
            created_at: current.created_at.clone(),
            updated_at: current.updated_at.clone(),
            removed_at: None,
        },
    )
}

/// What a removal answers.
pub open spec fn removal_view(instance_id: Seq<char>, already_removed: bool) -> JsonView {
    JsonView::Object(
        no_fields().push(("already_removed"@, JsonView::Bool(already_removed))).push(
            ("instance_id"@, JsonView::Text(instance_id)),
        ).push(("removed"@, JsonView::Bool(true))),
    )
}

/// True iff a removal finds the instance removed already.
pub open spec fn is_removed_already(
    instances: Map<Seq<char>, Arc<AssetInstance>>,
    instance_id: Seq<char>,
    stored: StoredAssetInstance,
) -> bool {
    stored.removed_at is Some && !instances.contains_key(instance_id)
}

/// True iff a removal that found this row left the service so.
pub open spec fn removes(
    before: AssetService,
    after: AssetService,
    instance_id: Seq<char>,
    stored: StoredAssetInstance,
) -> bool {
    &&& after.assets == before.assets
    &&& after.instances@ == before.instances@.remove(instance_id)
    &&& if is_removed_already(before.instances@, instance_id, stored) {
        after.pending_events == before.pending_events
    } else {
        &&& after.pending_events@.len() == before.pending_events@.len() + 1
        &&& after.pending_events@.drop_last() == before.pending_events@
        &&& after.pending_events@.last() matches AssetProtocolEvent::RemoveInstance {
            instance_id: removed,
        } && removed@ == instance_id
    }
}

impl AssetService {
    /// Checks a request to change an instance, and finds the instance.
    pub fn prepare_update(&self, bounds: WorldBounds, request: &UpdateAssetRequest) -> (r: Result<
        Arc<AssetInstance>,
        String,
    >)
        requires
            self.wf(),
        ensures
            exists|rendered: Seq<char>| #[trigger]
                renders(request.interaction_state@, rendered) && match update_error(
                    self.instances@,
                    bounds,
                    *request,
                    rendered,
                ) {
                    Some(message) => r matches Err(text) && text@ == message,
                    None => r == Ok::<Arc<AssetInstance>, String>(
                        self.instances@[request.instance_id@],
                    ),
                },
    {
        let state = validate_state(&request.interaction_state);
        let ghost rendered = choose|rendered: Seq<char>| #[trigger]
            renders(request.interaction_state@, rendered) && is_result(
                state,
                checked(state_error(request.interaction_state@, rendered)),
            );
        proof {
            assert(renders(request.interaction_state@, rendered));
        }
        match validate_transform(
            bounds,
            &request.position,
            &request.rotation_degrees,
            &request.scale,
        ) {
            Ok(()) => {},
            Err(message) => return Err(message),
        }
        match state {
            Ok(()) => {},
            Err(message) => return Err(message),
        }
        match self.instances.get(&request.instance_id) {
            Some(instance) => Ok(share(instance)),
            None => {
                let mut message = "unknown active instance_id `".to_owned();
                message.append(request.instance_id.as_str());
                message.append("`");
                Err(message)
            },
        }
    }

    /// Takes up an instance whose change was stored.
    pub fn update(&mut self, stored: Result<StoredAssetInstance, String>) -> (r: Result<
        Arc<AssetInstance>,
        String,
    >)
        requires
            old(self).wf(),
        ensures
            final(self).wf(),
            match stored_instance_error("persist asset update failed: "@, stored) {
                Some(message) => r matches Err(text) && text@ == message && *final(self) == *old(
                    self,
                ),
                None => r matches Ok(instance) && takes_up(
                    *old(self),
                    *final(self),
                    instance,
                    stored->Ok_0,
                    AssetProtocolEvent::UpdateInstance { instance },
                ),
            },
    {
        let instance = match readable("persist asset update failed: ", stored) {
            Ok(instance) => instance,
            Err(message) => return Err(message),
        };
        self.instances.insert(instance.instance_id.clone(), share(&instance));
        self.pending_events.push(
            AssetProtocolEvent::UpdateInstance { instance: share(&instance) },
        );
        Ok(instance)
    }

    /// Takes an instance whose removal was stored out of the world.
    pub fn remove(
        &mut self,
        instance_id: &str,
        stored: Result<Option<StoredAssetInstance>, String>,
    ) -> (r: Result<Json, String>)
        requires
            old(self).wf(),
        ensures
            final(self).wf(),
            match stored {
                Err(error) => r matches Err(text) && text@ == "persist asset removal failed: "@
                    + error@ && *final(self) == *old(self),
                Ok(None) => r matches Err(text) && text@ == "unknown instance_id `"@ + instance_id@
                    + "`"@ && *final(self) == *old(self),
                Ok(Some(stored)) => r matches Ok(answer) && answer@ == removal_view(
                    instance_id@,
                    is_removed_already(old(self).instances@, instance_id@, stored),
                ) && removes(*old(self), *final(self), instance_id@, stored),
            },
    {
        let stored = match stored {
            Ok(Some(stored)) => stored,
            Ok(None) => {
                let mut message = "unknown instance_id `".to_owned();
                message.append(instance_id);
                message.append("`");
                return Err(message);
            },
            Err(error) => {
                let mut message = "persist asset removal failed: ".to_owned();
                message.append(error.as_str());
                return Err(message);
            },
        };
        let key = instance_id.to_owned();
        let already_removed = stored.removed_at.is_some() && self.instances.get(
            &key,
        ).is_none();
        self.instances.remove(&key);
        if !already_removed {
            self.pending_events.push(AssetProtocolEvent::RemoveInstance { instance_id: key });
            proof {
                assert(self.pending_events@.drop_last() =~= old(self).pending_events@);
            }
        }
        Ok(
            Fields::new().with("already_removed", boolean(already_removed)).with(
                "instance_id",
                text(instance_id),
            ).with("removed", boolean(true)).object(),
        )
    }
}

// ---- laws ----

/// A published version never changes: a spec for a key that is in the catalog is never stored.
pub proof fn published_versions_stay(
    assets: Map<(Seq<char>, u32), Arc<AssetCatalogEntry>>,
    validated: ValidatedSculptSpec,
)
    requires
        assets.contains_key((validated.spec.asset_id@, validated.spec.version)),
    ensures
        !(publish_decision(assets, validated) is Store),
{
}

/// Publishing is idempotent: once a spec is in the catalog, publishing it again finds it there.
pub proof fn repeated_publish_finds_the_asset(
    assets: Map<(Seq<char>, u32), Arc<AssetCatalogEntry>>,
    validated: ValidatedSculptSpec,
    entry: Arc<AssetCatalogEntry>,
)
    requires
        publish_decision(assets, validated) is Store,
        entry.key() == (validated.spec.asset_id@, validated.spec.version),
        entry.spec_hash@ == validated.spec_hash@,
    ensures
        publish_decision(assets.insert(entry.key(), entry), validated) is Existing,
{
}

/// Spawning is idempotent: where the row of a first spawn is stored, and its state is read back as
/// it was, the same request finds that instance.
pub proof fn repeated_spawn_finds_the_instance(
    request: SpawnAssetRequest,
    row: StoredAssetInstance,
    collision_json: String,
    instance_id: Seq<char>,
    r: Result<SpawnStep, String>,
)
    requires
        is_new_row(row, request, collision_json, instance_id),
        instance_error(row) is None,
        vectors_equal(request.position@, request.position@),
        vectors_equal(request.rotation_degrees@, request.rotation_degrees@),
        vectors_equal(request.scale@, request.scale@),
        decoded(row.interaction_state_json@) matches Ok(state) && values_equal(
            state,
            request.interaction_state@,
        ),
        is_spawn_step(
            r,
            request,
            Ok::<Option<StoredAssetInstance>, String>(Some(row)),
            collision_json,
            instance_id,
        ),
    ensures
        r matches Ok(SpawnStep::Existing(instance)) && is_stored_instance(*instance, row),
{
}

/// Spawning is idempotent: a request that was accepted and stored finds its instance when it comes
/// again, where its state holds no floating-point number. Storing a row fills in its times.
pub proof fn accepted_spawn_is_found_again(
    assets: Map<(Seq<char>, u32), Arc<AssetCatalogEntry>>,
    bounds: WorldBounds,
    request: SpawnAssetRequest,
    rendered: Seq<char>,
    row: StoredAssetInstance,
    prospective: Arc<AssetInstance>,
    stored: StoredAssetInstance,
    collision_json: String,
    first_id: Seq<char>,
    second_id: Seq<char>,
    r: Result<SpawnStep, String>,
)
    requires
        normal(request.interaction_state@),
        exact(request.interaction_state@),
        spawn_error(assets, bounds, request, rendered) is None,
        is_spawn_step(
            Ok(SpawnStep::Store { row, prospective }),
            request,
            Ok(None),
            collision_json,
            first_id,
        ),
        stored == (StoredAssetInstance {
            created_at: stored.created_at,
            updated_at: stored.updated_at,
            ..row
        }),
        is_spawn_step(r, request, Ok(Some(stored)), collision_json, second_id),
    ensures
        r matches Ok(SpawnStep::Existing(instance)) && is_stored_instance(*instance, stored)
            && instance.instance_id@ == first_id && instance.interaction_state@
            == request.interaction_state@,
{
    accepted_states_are_shallow(request.interaction_state@, rendered);
    exact_values_equal_themselves(request.interaction_state@);
    assert(reads_as(row.interaction_state_json@, request.interaction_state@));
}

/// An instance shows what it was changed to, once the change is stored, where its state holds no
/// floating-point number; what it is an instance of stays. Storing a row fills in its times.
pub proof fn accepted_change_is_shown(
    instances: Map<Seq<char>, Arc<AssetInstance>>,
    bounds: WorldBounds,
    request: UpdateAssetRequest,
    rendered: Seq<char>,
    current: AssetInstance,
    found: StoredAssetInstance,
    row: StoredAssetInstance,
    stored: StoredAssetInstance,
    instance: AssetInstance,
)
    requires
        normal(request.interaction_state@),
        exact(request.interaction_state@),
        update_error(instances, bounds, request, rendered) is None,
        is_changed_row(row, current, request, found),
        stored == (StoredAssetInstance {
            created_at: stored.created_at,
            updated_at: stored.updated_at,
            ..row
        }),
        is_stored_instance(instance, stored),
    ensures
        instance.interaction_state@ == request.interaction_state@,
        instance.position == request.position,
        instance.rotation_degrees == request.rotation_degrees,
        instance.scale == request.scale,
        instance.instance_id == current.instance_id,
        instance.asset_key() == current.asset_key(),
        instance.owner == current.owner,
{
    accepted_states_are_shallow(request.interaction_state@, rendered);
    assert(reads_as(row.interaction_state_json@, request.interaction_state@));
}

/// Removing is idempotent: a second removal of an instance changes nothing, tells clients nothing,
/// and answers that the instance was removed already.
pub proof fn repeated_removal_changes_nothing(
    first: AssetService,
    second: AssetService,
    third: AssetService,
    instance_id: Seq<char>,
    stored: StoredAssetInstance,
    again: StoredAssetInstance,
)
    requires
        removes(first, second, instance_id, stored),
        again.removed_at is Some,
        removes(second, third, instance_id, again),
    ensures
        is_removed_already(second.instances@, instance_id, again),
        third.assets == second.assets,
        third.instances@ == second.instances@,
        third.pending_events == second.pending_events,
{
    assert(second.instances@.remove(instance_id) =~= second.instances@);
}

/// A removal is told once: removing an active instance takes it away and tells clients; removing it
/// again does neither.
pub proof fn removal_is_told_once(
    first: AssetService,
    second: AssetService,
    third: AssetService,
    instance_id: Seq<char>,
    stored: StoredAssetInstance,
    again: StoredAssetInstance,
)
    requires
        first.instances@.contains_key(instance_id),
        removes(first, second, instance_id, stored),
        again.removed_at is Some,
        removes(second, third, instance_id, again),
    ensures
        !is_removed_already(first.instances@, instance_id, stored),
        is_removed_already(second.instances@, instance_id, again),
        third.assets == first.assets,
        third.instances@ == first.instances@.remove(instance_id),
        !third.instances@.contains_key(instance_id),
        third.pending_events@.len() == first.pending_events@.len() + 1,
        third.pending_events@.drop_last() == first.pending_events@,
        third.pending_events@.last() matches AssetProtocolEvent::RemoveInstance {
            instance_id: removed,
        } && removed@ == instance_id,
{
    repeated_removal_changes_nothing(first, second, third, instance_id, stored, again);
}

/// An instance without an active row is not there after a load.
pub proof fn removed_instances_are_not_loaded(
    instances: Map<Seq<char>, Arc<AssetInstance>>,
    rows: Seq<StoredAssetInstance>,
    instance_id: Seq<char>,
)
    requires
        instances_of(instances, rows, rows.len() as int),
        forall|i: int| 0 <= i < rows.len() ==> (#[trigger] rows[i]).instance_id@ != instance_id,
    ensures
        !instances.contains_key(instance_id),
{
}

/// A whole publish: the decision on the spec, the check of the snapshot, and taking up what the
/// storage gave back. `budget` is the outcome of the check, `asset` that of storing.
pub open spec fn whole_publish(
    before: AssetService,
    after: AssetService,
    validated: ValidatedSculptSpec,
    step: Result<PublishStep, String>,
    budget: Result<(), String>,
    asset: Result<DecodedAsset, String>,
    r: Result<Arc<AssetCatalogEntry>, String>,
) -> bool {
    &&& is_publish_step(before.assets@, validated, step)
    &&& match step {
        Err(message) => r == Err::<Arc<AssetCatalogEntry>, String>(message) && after == before,
        Ok(PublishStep::Existing(entry)) => r == Ok::<Arc<AssetCatalogEntry>, String>(entry)
            && after == before,
        Ok(PublishStep::Store { prospective, canonical_json }) => match budget {
            Err(message) => r == Err::<Arc<AssetCatalogEntry>, String>(message) && after == before,
            Ok(_) => publishes(before, after, asset, r),
        },
    }
}

/// A publish adds one asset version and tells clients of it, or changes nothing: a version that is
/// in the catalog is given back where the spec is the same, and refused where it is not. The
/// storage gives back the key and the hash that it was given.
pub proof fn publish_adds_one_asset_or_nothing(
    before: AssetService,
    after: AssetService,
    validated: ValidatedSculptSpec,
    step: Result<PublishStep, String>,
    budget: Result<(), String>,
    asset: Result<DecodedAsset, String>,
    r: Result<Arc<AssetCatalogEntry>, String>,
)
    requires
        whole_publish(before, after, validated, step, budget, asset, r),
        asset matches Ok(decoded) ==> decoded.stored.asset_id@ == validated.spec.asset_id@
            && decoded.stored.version == validated.spec.version && decoded.stored.spec_hash@
            == validated.spec_hash@,
    ensures
        r is Err ==> after == before,
        validated.conflicts@.len() > 0 ==> r is Err,
        ({
            let key = (validated.spec.asset_id@, validated.spec.version);
            if before.assets@.contains_key(key) {
                &&& after == before
                &&& validated.conflicts@.len() == 0 ==> (r is Ok <==> before.assets@[key].spec_hash@
                    == validated.spec_hash@)
                &&& r matches Ok(entry) ==> entry == before.assets@[key]
            } else {
                r matches Ok(entry) ==> {
                    &&& entry.key() == key
                    &&& entry.spec_hash@ == validated.spec_hash@
                    &&& after.assets@ == before.assets@.insert(key, entry)
                    &&& after.instances == before.instances
                    &&& after.pending_events@ == before.pending_events@.push(
                        AssetProtocolEvent::AssetPublished { asset: entry },
                    )
                }
            }
        }),
{
}

/// A whole spawn: the check of the request, the step by what is stored under its key, the check of
/// the snapshot, and taking up what the storage gave back. `rendered` is the text of its state,
/// `budget` the outcome of the check, `stored` that of storing.
pub open spec fn whole_spawn(
    before: AssetService,
    after: AssetService,
    bounds: WorldBounds,
    request: SpawnAssetRequest,
    rendered: Seq<char>,
    found: Result<Option<StoredAssetInstance>, String>,
    collision_json: String,
    instance_id: Seq<char>,
    step: Result<SpawnStep, String>,
    budget: Result<(), String>,
    stored: Result<StoredAssetInstance, String>,
    r: Result<Arc<AssetInstance>, String>,
) -> bool {
    &&& renders(request.interaction_state@, rendered)
    &&& match spawn_error(before.assets@, bounds, request, rendered) {
        Some(message) => r matches Err(text) && text@ == message && after == before,
        None => is_spawn_step(step, request, found, collision_json, instance_id) && match step {
            Err(message) => r == Err::<Arc<AssetInstance>, String>(message) && after == before,
            Ok(SpawnStep::Existing(instance)) => r == Ok::<Arc<AssetInstance>, String>(instance)
                && after == before,
            Ok(SpawnStep::Store { row, prospective }) => match budget {
                Err(message) => r == Err::<Arc<AssetInstance>, String>(message) && after == before,
                Ok(_) => spawns(before, after, stored, r),
            },
        },
    }
}

/// A spawn under a key that is taken changes nothing: it gives back the instance that is stored
/// there where that is what the request asks for, and is refused where it is not.
pub proof fn spawn_under_a_used_key_changes_nothing(
    before: AssetService,
    after: AssetService,
    bounds: WorldBounds,
    request: SpawnAssetRequest,
    rendered: Seq<char>,
    earlier: StoredAssetInstance,
    collision_json: String,
    instance_id: Seq<char>,
    step: Result<SpawnStep, String>,
    budget: Result<(), String>,
    stored: Result<StoredAssetInstance, String>,
    r: Result<Arc<AssetInstance>, String>,
)
    requires
        whole_spawn(
            before,
            after,
            bounds,
            request,
            rendered,
            Ok(Some(earlier)),
            collision_json,
            instance_id,
            step,
            budget,
            stored,
            r,
        ),
    ensures
        after == before,
        r matches Ok(instance) ==> is_stored_instance(*instance, earlier) && instance.instance_id
            == earlier.instance_id && same_spawn(earlier, request),
        spawn_error(before.assets@, bounds, request, rendered) is None && instance_error(earlier)
            is None ==> (r is Ok <==> same_spawn(earlier, request)),
{
}

/// A spawn under a free key adds one instance and tells clients of it, or changes nothing.
pub proof fn spawn_adds_one_instance_or_nothing(
    before: AssetService,
    after: AssetService,
    bounds: WorldBounds,
    request: SpawnAssetRequest,
    rendered: Seq<char>,
    collision_json: String,
    instance_id: Seq<char>,
    step: Result<SpawnStep, String>,
    budget: Result<(), String>,
    stored: Result<StoredAssetInstance, String>,
    r: Result<Arc<AssetInstance>, String>,
)
    requires
        whole_spawn(
            before,
            after,
            bounds,
            request,
            rendered,
            Ok(None),
            collision_json,
            instance_id,
            step,
            budget,
            stored,
            r,
        ),
    ensures
        r is Err ==> after == before,
        r matches Ok(instance) ==> {
            &&& stored matches Ok(row) && is_stored_instance(*instance, row)
            &&& after.assets == before.assets
            &&& after.instances@ == before.instances@.insert(instance.instance_id@, instance)
            &&& after.pending_events@ == before.pending_events@.push(
                AssetProtocolEvent::SpawnInstance { instance },
            )
        },
{
}

/// Whatever happens, every active instance shows a published asset: publishing, spawning an
/// instance of a published asset, changing one, and removing one keep that.
pub proof fn instances_stay_known(
    before: AssetService,
    after: AssetService,
    entry: Arc<AssetCatalogEntry>,
    instance: Arc<AssetInstance>,
    instance_id: Seq<char>,
)
    requires
        instances_known(before.assets@, before.instances@),
        ({
            ||| after.assets@ == before.assets@.insert(entry.key(), entry) && after.instances@
                == before.instances@
            ||| after.assets@ == before.assets@ && after.instances@ == before.instances@.insert(
                instance.instance_id@,
                instance,
            ) && before.assets@.contains_key(instance.asset_key())
            ||| after.assets@ == before.assets@ && after.instances@ == before.instances@.remove(
                instance_id,
            )
        }),
    ensures
        instances_known(after.assets@, after.instances@),
{
    assert forall|id: Seq<char>| #[trigger] after.instances@.contains_key(id) implies
        after.assets@.contains_key(after.instances@[id].asset_key()) by {
        if id != instance.instance_id@ || before.instances@.contains_key(id) {
            assert(before.instances@.contains_key(id) || after.instances@[id] == instance);
        }
    }
}

/// The listings ascend: assets by id and then by version, instances by id.
pub proof fn listings_ascend(service: AssetService)
    requires
        service.wf(),
    ensures
        keys_ascend::<VersionKey>(service.assets.spec_keys()),
        service.assets@ == bound(service.assets.spec_keys(), service.assets.spec_values()),
        keys_ascend::<String>(service.instances.spec_keys()),
        service.instances@ == bound(
            service.instances.spec_keys(),
            service.instances.spec_values(),
        ),
{
    service.assets.is_bound();
    service.instances.is_bound();
}

/// An interaction state that is accepted is an object of at most 4096 bytes, and nothing in it
/// stands more than four levels deep.
pub proof fn accepted_states_are_shallow(value: JsonView, rendered: Seq<char>)
    requires
        state_error(value, rendered) is None,
    ensures
        value is Object,
        utf8_len(rendered) <= MAX_INSTANCE_STATE_BYTES,
        levels(value) <= 4,
{
    shallow_value(value, 0);
}

proof fn shallow_value(value: JsonView, depth: nat)
    requires
        state_value_error(value, depth) is None,
    ensures
        depth + levels(value) <= 4,
    decreases value, 0int,
{
    match value {
        JsonView::Array(items) => {
            shallow_items(items, 0, depth + 1);
            shallow_item_levels(items, items.len() as int, depth + 1);
        },
        JsonView::Object(members) => {
            shallow_members(members, 0, depth + 1);
            shallow_member_levels(members, members.len() as int, depth + 1);
        },
        _ => {},
    }
}

proof fn shallow_items(items: Seq<JsonView>, i: int, depth: nat)
    requires
        0 <= i <= items.len(),
        items_error(items, i, depth) is None,
    ensures
        forall|j: int| i <= j < items.len() ==> depth + levels(#[trigger] items[j]) <= 4,
    decreases items, items.len() - i,
{
    if i < items.len() {
        shallow_value(items[i], depth);
        shallow_items(items, i + 1, depth);
    }
}

proof fn shallow_item_levels(items: Seq<JsonView>, n: int, depth: nat)
    requires
        0 <= n <= items.len(),
        0 < depth <= 5,
        forall|j: int| 0 <= j < items.len() ==> depth + levels(#[trigger] items[j]) <= 4,
    ensures
        depth - 1 + item_levels(items, n) <= 4,
    decreases n,
{
    if n > 0 {
        shallow_item_levels(items, n - 1, depth);
        assert(depth + levels(items[n - 1]) <= 4);
    }
}

proof fn shallow_members(members: Seq<(Seq<char>, JsonView)>, i: int, depth: nat)
    requires
        0 <= i <= members.len(),
        members_error(members, i, depth) is None,
    ensures
        forall|j: int| i <= j < members.len() ==> depth + levels((#[trigger] members[j]).1) <= 4,
    decreases members, members.len() - i,
{
    if i < members.len() {
        shallow_value(members[i].1, depth);
        shallow_members(members, i + 1, depth);
    }
}

proof fn shallow_member_levels(members: Seq<(Seq<char>, JsonView)>, n: int, depth: nat)
    requires
        0 <= n <= members.len(),
        0 < depth <= 5,
        forall|j: int| 0 <= j < members.len() ==> depth + levels((#[trigger] members[j]).1) <= 4,
    ensures
        depth - 1 + member_levels(members, n) <= 4,
    decreases n,
{
    if n > 0 {
        shallow_member_levels(members, n - 1, depth);
        assert(depth + levels(members[n - 1].1) <= 4);
    }
}

} // verus!
