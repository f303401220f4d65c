//! Which requests for assets are accepted, what is loaded, and what each request leaves behind.

use std::sync::Arc;
use vstd::prelude::*;
use crate::asset_service::{
    asset_error, assets_error, catalog_of, decoded, has_asset, instance_error, instances_of,
    is_latest, is_new_row, is_prospective, is_stored_asset, is_stored_instance, items_error, last_asset, last_row, load_error,
    members_error, payload_error, publish_decision, publishes, removes, row_error, rows_error,
    same_spawn, snapshot_error, spawn_error, spawns, state_error, state_value_error, stored_key,
    transform_error, update_error, vectors_equal, AssetCatalogEntry, AssetInstance,
    AssetProtocolEvent, AssetService, DecodedAsset, SpawnAssetRequest, UpdateAssetRequest,
};
use crate::json::{values_equal, JsonView};
use crate::persistence::StoredAssetInstance;
use crate::scalar::{equal_numbers_have_equal_values, Scalar};
use crate::sculpt_rules::{all_positive, all_within, is_valid_spec, spec_is_accepted_exactly_when};
use crate::sculpt_spec::{spec_digest, ValidatedSculptSpec};
use crate::text::utf8_len;
use crate::world_command::WorldBounds;

verus! {

// ---- requests ----

/// True iff the transform is in order: a place inside the bounds, angles of at most 3600 degrees, and
/// scales of one hundredth to sixteen, all of them finite.
pub open spec fn is_transform(
    bounds: WorldBounds,
    position: Seq<Scalar>,
    rotation: Seq<Scalar>,
    scale: Seq<Scalar>,
) -> bool {
    &&& position[0].within(bounds.min_x as int, bounds.max_x as int)
    &&& position[1].within(bounds.min_y as int, bounds.max_y as int)
    &&& position[2].within(bounds.min_z as int, bounds.max_z as int)
    &&& all_within(rotation, -3600, 3600)
    &&& all_positive(scale, 16)
}

/// A transform is accepted exactly where it is in order.
pub proof fn transforms_are_accepted_exactly_when(
    bounds: WorldBounds,
    position: Seq<Scalar>,
    rotation: Seq<Scalar>,
    scale: Seq<Scalar>,
)
    requires
        position.len() == 3,
        rotation.len() == 3,
        scale.len() == 3,
    ensures
        transform_error(bounds, position, rotation, scale) is None <==> is_transform(
            bounds,
            position,
            rotation,
            scale,
        ),
{
    if all_within(rotation, -3600, 3600) {
        assert(rotation[0].within(-3600, 3600) && rotation[1].within(-3600, 3600)
            && rotation[2].within(-3600, 3600));
    }
    if all_positive(scale, 16) {
        assert(scale[0].positive_up_to(16) && scale[1].positive_up_to(16)
            && scale[2].positive_up_to(16));
    }
}

/// True iff the value is small: its texts have at most 128 bytes, its keys at most 64, its lists and
/// objects at most 32 entries, and nothing in it stands more than `room` levels deep.
pub open spec fn is_small(value: JsonView, room: int) -> bool
    decreases value,
{
    match value {
        JsonView::Text(s) => utf8_len(s) <= 128,
        JsonView::Array(items) => items.len() <= 32 && forall|i: int|
            #![trigger items[i]]
            0 <= i < items.len() ==> room > 0 && is_small(items[i], room - 1),
        JsonView::Object(members) => members.len() <= 32 && forall|i: int|
            #![trigger members[i]]
            0 <= i < members.len() ==> room > 0 && utf8_len(members[i].0) <= 64 && is_small(
                members[i].1,
                room - 1,
            ),
        _ => true,
    }
}

proof fn small_values(value: JsonView, depth: nat)
    ensures
        state_value_error(value, depth) is None <==> depth <= 4 && is_small(value, 4 - depth),
    decreases value, 0int,
{
    if depth <= 4 {
        match value {
            JsonView::Array(items) => {
                small_items(items, 0, depth + 1);
                if items_error(items, 0, depth + 1) is None {
                    assert forall|i: int|
                        #![trigger items[i]]
                        0 <= i < items.len() implies 4 - depth > 0 && is_small(
                        items[i],
                        4 - depth - 1,
                    ) by {
                        assert(depth + 1 <= 4 && is_small(items[i], 4 - (depth + 1)));
                    }
                }
            },
            JsonView::Object(members) => {
                small_members(members, 0, depth + 1);
                if members_error(members, 0, depth + 1) is None {
                    assert forall|i: int|
                        #![trigger members[i]]
                        0 <= i < members.len() implies 4 - depth > 0 && utf8_len(members[i].0) <= 64
                        && is_small(members[i].1, 4 - depth - 1) by {
                        assert(depth + 1 <= 4 && is_small(members[i].1, 4 - (depth + 1)));
                    }
                }
            },
            _ => {},
        }
    }
}

proof fn small_items(items: Seq<JsonView>, i: int, depth: nat)
    requires
        0 <= i,
    ensures
        items_error(items, i, depth) is None <==> forall|j: int|
            #![trigger items[j]]
            i <= j < items.len() ==> depth <= 4 && is_small(items[j], 4 - depth),
    decreases items, items.len() - i,
{
    if i < items.len() {
        small_values(items[i], depth);
        small_items(items, i + 1, depth);
        assert(items[i] == items[i]);
    }
}

proof fn small_members(members: Seq<(Seq<char>, JsonView)>, i: int, depth: nat)
    requires
        0 <= i,
    ensures
        members_error(members, i, depth) is None <==> forall|j: int|
            #![trigger members[j]]
            i <= j < members.len() ==> depth <= 4 && utf8_len(members[j].0) <= 64 && is_small(
                members[j].1,
                4 - depth,
            ),
    decreases members, members.len() - i,
{
    if i < members.len() {
        small_values(members[i].1, depth);
        small_members(members, i + 1, depth);
        assert(members[i] == members[i]);
    }
}

/// A state is accepted exactly where it is an object of at most 4096 bytes that is small, four levels
/// deep.
pub proof fn states_are_accepted_exactly_when(value: JsonView, rendered: Seq<char>)
    ensures
        state_error(value, rendered) is None <==> value is Object && utf8_len(rendered) <= 4096
            && is_small(value, 4),
{
    small_values(value, 0);
}

/// A spawn is accepted exactly where its key has 1 to 128 bytes, its transform and its state are in
/// order, and the asset is published; a change, where its transform and its state are in order, and
/// the instance is active.
pub proof fn requests_are_accepted_exactly_when(
    service: AssetService,
    bounds: WorldBounds,
    spawn: SpawnAssetRequest,
    update: UpdateAssetRequest,
    rendered: Seq<char>,
)
    ensures
        spawn_error(service.assets@, bounds, spawn, rendered) is None <==> {
            &&& spawn.idempotency_key@.len() > 0
            &&& utf8_len(spawn.idempotency_key@) <= 128
            &&& is_transform(bounds, spawn.position@, spawn.rotation_degrees@, spawn.scale@)
            &&& spawn.interaction_state@ is Object
            &&& utf8_len(rendered) <= 4096
            &&& is_small(spawn.interaction_state@, 4)
            &&& service.assets@.contains_key((spawn.asset_id@, spawn.version))
        },
        update_error(service.instances@, bounds, update, rendered) is None <==> {
            &&& is_transform(bounds, update.position@, update.rotation_degrees@, update.scale@)
            &&& update.interaction_state@ is Object
            &&& utf8_len(rendered) <= 4096
            &&& is_small(update.interaction_state@, 4)
            &&& service.instances@.contains_key(update.instance_id@)
        },
{
    transforms_are_accepted_exactly_when(
        bounds,
        spawn.position@,
        spawn.rotation_degrees@,
        spawn.scale@,
    );
    transforms_are_accepted_exactly_when(
        bounds,
        update.position@,
        update.rotation_degrees@,
        update.scale@,
    );
    states_are_accepted_exactly_when(spawn.interaction_state@, rendered);
    states_are_accepted_exactly_when(update.interaction_state@, rendered);
}

/// Events of up to 65536 bytes are sent, and catalogs of up to 60000.
pub proof fn payloads_are_bounded(bytes: nat)
    ensures
        payload_error(bytes) is None <==> bytes <= 65536,
        snapshot_error(bytes) is None <==> bytes <= 60000,
{
}

// ---- publishing ----

/// A spec is stored exactly where it has no conflicts and its version is new; it is found exactly where
/// it has none and the version is there with its hash; else it is refused.
pub proof fn specs_are_published_exactly_when(
    assets: Map<(Seq<char>, u32), Arc<AssetCatalogEntry>>,
    validated: ValidatedSculptSpec,
)
    ensures
        ({
            let key = (validated.spec.asset_id@, validated.spec.version);
            let sound = validated.conflicts@.len() == 0;
            &&& publish_decision(assets, validated) is Store <==> sound && !assets.contains_key(key)
            &&& publish_decision(assets, validated) is Existing <==> sound && assets.contains_key(
                key,
            ) && assets[key].spec_hash@ == validated.spec_hash@
            &&& publish_decision(assets, validated) is Refuse <==> !sound || (assets.contains_key(
                key,
            ) && assets[key].spec_hash@ != validated.spec_hash@)
        }),
{
}

/// A stored asset is taken up exactly where its spec was read, is valid and has the hash that was
/// stored with it, and its budget was read.
pub proof fn stored_assets_are_read_exactly_when(asset: DecodedAsset)
    ensures
        is_readable(asset) <==> asset_error(asset) is None,
        asset_error(asset) is None <==> {
            &&& asset.spec matches Ok(read) && is_valid_spec(read.0) && spec_digest(read.0)
                == asset.stored.spec_hash@
            &&& asset.budget is Ok
        },
{
    reveal(is_readable);
    if let Ok(read) = asset.spec {
        spec_is_accepted_exactly_when(read.0);
    }
}

/// A publication that the storage took up adds the asset under its own id and version, changes no other
/// entry and no instance, and tells clients of it last; one that failed changes nothing.
pub proof fn publishing_adds_the_asset(
    before: AssetService,
    after: AssetService,
    asset: Result<DecodedAsset, String>,
    r: Result<Arc<AssetCatalogEntry>, String>,
    key: (Seq<char>, u32),
)
    requires
        publishes(before, after, asset, r),
    ensures
        r is Ok <==> (asset matches Ok(read) && asset_error(read) is None),
        r is Err ==> after == before,
        r matches Ok(entry) ==> {
            let stored = asset->Ok_0.stored;
            let own = (stored.asset_id@, stored.version);
            &&& entry.asset_id@ == stored.asset_id@
            &&& entry.version == stored.version
            &&& entry.spec_hash@ == stored.spec_hash@
            &&& entry.actor@ == stored.actor@
            &&& entry.created_at@ == stored.created_at@
            &&& entry.spec == asset->Ok_0.spec->Ok_0.0
            &&& entry.budget == asset->Ok_0.budget->Ok_0
            &&& after.assets@.contains_key(own) && after.assets@[own] == entry
            &&& key != own ==> after.assets@.contains_key(key) == before.assets@.contains_key(key)
                && after.assets@[key] == before.assets@[key]
            &&& after.instances == before.instances
            &&& after.pending_events@.len() == before.pending_events@.len() + 1
            &&& after.pending_events@.last() == (AssetProtocolEvent::AssetPublished {
                asset: entry,
            })
            &&& after.pending_events@.drop_last() == before.pending_events@
        },
{
    if let Ok(entry) = r {
        assert(before.pending_events@.push(
            AssetProtocolEvent::AssetPublished { asset: entry },
        ).drop_last() =~= before.pending_events@);
    }
}

// ---- instances ----

/// A stored instance is read exactly where both its texts parse; it is taken up at the start exactly
/// where it is read and its asset is stored too.
pub proof fn stored_instances_are_read_exactly_when(
    assets: Seq<DecodedAsset>,
    row: StoredAssetInstance,
)
    ensures
        instance_error(row) is None <==> decoded(row.collision_json@) is Ok && decoded(
            row.interaction_state_json@,
        ) is Ok,
        row_error(assets, row) is None <==> decoded(row.collision_json@) is Ok && decoded(
            row.interaction_state_json@,
        ) is Ok && exists|i: int|
            0 <= i < assets.len() && (#[trigger] assets[i]).stored.asset_id@ == row.asset_id@
                && assets[i].stored.version == row.version,
{
    if exists|i: int|
        0 <= i < assets.len() && (#[trigger] assets[i]).stored.asset_id@ == row.asset_id@
            && assets[i].stored.version == row.version {
        let i = choose|i: int|
            0 <= i < assets.len() && (#[trigger] assets[i]).stored.asset_id@ == row.asset_id@
                && assets[i].stored.version == row.version;
        assert(stored_key(assets[i]) == (row.asset_id@, row.version));
    }
}

/// True iff the stored asset can be read.
#[verifier::opaque]
pub open spec fn is_readable(asset: DecodedAsset) -> bool {
    asset_error(asset) is None
}

proof fn every_asset_is_read(assets: Seq<DecodedAsset>, i: int)
    requires
        0 <= i <= assets.len(),
    ensures
        assets_error(assets, i) is None <==> forall|j: int|
            i <= j < assets.len() ==> is_readable(#[trigger] assets[j]),
    decreases assets.len() - i,
{
    if i < assets.len() {
        every_asset_is_read(assets, i + 1);
        one_more_asset(assets, i);
        let first = assets[i];
        if assets_error(assets, i) is None {
            assert forall|j: int| i <= j < assets.len() implies is_readable(
                #[trigger] assets[j],
            ) by {
                if j > i {
                    assert(i + 1 <= j);
                }
            }
        } else if assets_error(assets, i + 1) is None {
            assert(!is_readable(assets[i]));
        }
    }
}

proof fn one_more_asset(assets: Seq<DecodedAsset>, i: int)
    requires
        0 <= i < assets.len(),
    ensures
        assets_error(assets, i) is None <==> is_readable(assets[i]) && assets_error(
            assets,
            i + 1,
        ) is None,
{
    reveal(is_readable);
}

proof fn every_row_is_read(assets: Seq<DecodedAsset>, rows: Seq<StoredAssetInstance>, i: int)
    requires
        0 <= i <= rows.len(),
    ensures
        rows_error(assets, rows, i) is None <==> forall|j: int|
            i <= j < rows.len() ==> row_error(assets, #[trigger] rows[j]) is None,
    decreases rows.len() - i,
{
    if i < rows.len() {
        every_row_is_read(assets, rows, i + 1);
        assert(rows[i] == rows[i]);
    }
}

/// A stored catalog is loaded exactly where every asset of it and every instance of it can be read.
pub proof fn catalogs_are_loaded_exactly_when(
    assets: Seq<DecodedAsset>,
    rows: Seq<StoredAssetInstance>,
)
    ensures
        load_error(assets, rows) is None <==> {
            &&& forall|i: int| 0 <= i < assets.len() ==> is_readable(#[trigger] assets[i])
            &&& forall|i: int|
                0 <= i < rows.len() ==> row_error(assets, #[trigger] rows[i]) is None
        },
{
    every_asset_is_read(assets, 0);
    every_row_is_read(assets, rows, 0);
}

/// A spawn that the storage took up makes the instance active under its own id, changes no other and
/// no asset, and tells clients of it last; one that failed changes nothing.
pub proof fn spawning_adds_the_instance(
    before: AssetService,
    after: AssetService,
    stored: Result<StoredAssetInstance, String>,
    r: Result<Arc<AssetInstance>, String>,
    id: Seq<char>,
)
    requires
        spawns(before, after, stored, r),
    ensures
        r is Ok <==> (stored matches Ok(row) && instance_error(row) is None),
        r is Err ==> after == before,
        r matches Ok(instance) ==> {
            let row = stored->Ok_0;
            &&& instance.instance_id@ == row.instance_id@
            &&& instance.asset_id@ == row.asset_id@
            &&& instance.version == row.version
            &&& instance.position == row.position
            &&& instance.rotation_degrees == row.rotation_degrees
            &&& instance.scale == row.scale
            &&& decoded(row.collision_json@) == Ok::<JsonView, Seq<char>>(instance.collision@)
            &&& decoded(row.interaction_state_json@) == Ok::<JsonView, Seq<char>>(
                instance.interaction_state@,
            )
            &&& instance.owner@ == row.owner@
            &&& instance.created_at@ == row.created_at@
            &&& instance.updated_at@ == row.updated_at@
            &&& after.instances@.contains_key(row.instance_id@)
            &&& after.instances@[row.instance_id@] == instance
            &&& id != row.instance_id@ ==> after.instances@.contains_key(id)
                == before.instances@.contains_key(id) && after.instances@[id]
                == before.instances@[id]
            &&& after.assets == before.assets
            &&& after.pending_events@.len() == before.pending_events@.len() + 1
            &&& after.pending_events@.last() == (AssetProtocolEvent::SpawnInstance { instance })
            &&& after.pending_events@.drop_last() == before.pending_events@
        },
{
    if let Ok(instance) = r {
        assert(before.pending_events@.push(
            AssetProtocolEvent::SpawnInstance { instance },
        ).drop_last() =~= before.pending_events@);
    }
}

/// A stored instance answers a repeated spawn exactly where it shows the same version of the same
/// asset, each of its nine numbers has the requested value, and its state is equal to the requested
/// one.
pub proof fn spawns_are_the_same_exactly_when(stored: StoredAssetInstance, request: SpawnAssetRequest)
    requires
        forall|i: int|
            #![trigger request.position@[i]]
            #![trigger stored.position@[i]]
            0 <= i < 3 ==> request.position@[i].finite() && stored.position@[i].finite(),
        forall|i: int|
            #![trigger request.rotation_degrees@[i]]
            #![trigger stored.rotation_degrees@[i]]
            0 <= i < 3 ==> request.rotation_degrees@[i].finite()
                && stored.rotation_degrees@[i].finite(),
        forall|i: int|
            #![trigger request.scale@[i]]
            #![trigger stored.scale@[i]]
            0 <= i < 3 ==> request.scale@[i].finite() && stored.scale@[i].finite(),
    ensures
        same_spawn(stored, request) <==> {
            &&& stored.asset_id@ == request.asset_id@
            &&& stored.version == request.version
            &&& forall|i: int|
                #![trigger request.position@[i]]
                0 <= i < 3 ==> stored.position@[i].value() == request.position@[i].value()
            &&& forall|i: int|
                #![trigger request.rotation_degrees@[i]]
                0 <= i < 3 ==> stored.rotation_degrees@[i].value()
                    == request.rotation_degrees@[i].value()
            &&& forall|i: int|
                #![trigger request.scale@[i]]
                0 <= i < 3 ==> stored.scale@[i].value() == request.scale@[i].value()
            &&& decoded(stored.interaction_state_json@) matches Ok(state) && values_equal(
                state,
                request.interaction_state@,
            )
        },
{
    vectors_are_equal_exactly_when(stored.position@, request.position@);
    vectors_are_equal_exactly_when(stored.rotation_degrees@, request.rotation_degrees@);
    vectors_are_equal_exactly_when(stored.scale@, request.scale@);
}

proof fn vectors_are_equal_exactly_when(a: Seq<Scalar>, b: Seq<Scalar>)
    requires
        a.len() == 3,
        b.len() == 3,
        a[0].finite() && a[1].finite() && a[2].finite(),
        b[0].finite() && b[1].finite() && b[2].finite(),
    ensures
        vectors_equal(a, b) <==> forall|i: int|
            #![trigger b[i]]
            0 <= i < 3 ==> a[i].value() == b[i].value(),
{
    equal_numbers_have_equal_values(a[0], b[0]);
    equal_numbers_have_equal_values(a[1], b[1]);
    equal_numbers_have_equal_values(a[2], b[2]);
}

// ---- what is found and removed ----

/// The latest version of an asset is one of it, there is none above it, and there is only one such.
pub proof fn latest_version_is_the_highest(
    assets: Map<(Seq<char>, u32), Arc<AssetCatalogEntry>>,
    asset_id: Seq<char>,
    version: u32,
    other: u32,
)
    requires
        is_latest(assets, asset_id, version),
    ensures
        assets.contains_key((asset_id, version)),
        assets.contains_key((asset_id, other)) ==> other <= version,
        is_latest(assets, asset_id, other) ==> other == version,
{
}

/// A removal leaves every other instance and every asset alone, and tells clients once: again only
/// where the instance was still active or its row was not marked.
pub proof fn removal_takes_one_instance_out(
    before: AssetService,
    after: AssetService,
    instance_id: Seq<char>,
    stored: StoredAssetInstance,
    other: Seq<char>,
)
    requires
        removes(before, after, instance_id, stored),
    ensures
        !after.instances@.contains_key(instance_id),
        other != instance_id ==> after.instances@.contains_key(other)
            == before.instances@.contains_key(other) && (before.instances@.contains_key(other)
            ==> after.instances@[other] == before.instances@[other]),
        after.assets == before.assets,
        after.pending_events@.len() == before.pending_events@.len() + if stored.removed_at is None
            || before.instances@.contains_key(instance_id) {
            1nat
        } else {
            0nat
        },
        forall|i: int|
            0 <= i < before.pending_events@.len() ==> #[trigger] after.pending_events@[i]
                == before.pending_events@[i],
{
    if stored.removed_at is None || before.instances@.contains_key(instance_id) {
        let events = after.pending_events@;
        assert forall|i: int| 0 <= i < before.pending_events@.len() implies #[trigger] events[i]
            == before.pending_events@[i] by {
            assert(events.drop_last()[i] == events[i]);
        }
    }
}

/// A catalog that was loaded has the assets that were stored and no others, each as it was stored last;
/// so are its instances.
pub proof fn loaded_catalogs_hold_what_was_stored(
    service: AssetService,
    assets: Seq<DecodedAsset>,
    rows: Seq<StoredAssetInstance>,
    key: (Seq<char>, u32),
    id: Seq<char>,
)
    requires
        catalog_of(service.assets@, assets, assets.len() as int),
        instances_of(service.instances@, rows, rows.len() as int),
    ensures
        service.assets@.contains_key(key) <==> exists|i: int|
            0 <= i < assets.len() && (#[trigger] assets[i]).stored.asset_id@ == key.0
                && assets[i].stored.version == key.1,
        service.instances@.contains_key(id) <==> exists|i: int|
            0 <= i < rows.len() && (#[trigger] rows[i]).instance_id@ == id,
        assets.len() > 0 ==> ({
            let last = assets[assets.len() - 1];
            let own = (last.stored.asset_id@, last.stored.version);
            service.assets@[own].spec_hash@ == last.stored.spec_hash@ && service.assets@[own].actor@
                == last.stored.actor@
        }),
        rows.len() > 0 ==> ({
            let last = rows[rows.len() - 1];
            let found = service.instances@[last.instance_id@];
            found.asset_id@ == last.asset_id@ && found.version == last.version && found.position
                == last.position && found.rotation_degrees == last.rotation_degrees && found.scale
                == last.scale
        }),
{
    let n = assets.len() as int;
    if exists|i: int|
        0 <= i < assets.len() && (#[trigger] assets[i]).stored.asset_id@ == key.0
            && assets[i].stored.version == key.1 {
        let i = choose|i: int|
            0 <= i < assets.len() && (#[trigger] assets[i]).stored.asset_id@ == key.0
                && assets[i].stored.version == key.1;
        assert(stored_key(assets[i]) == key);
        assert(has_asset(assets, n, key));
    }
    if has_asset(assets, n, key) {
        let i = choose|i: int| 0 <= i < n && stored_key(#[trigger] assets[i]) == key;
        assert(assets[i].stored.asset_id@ == key.0);
    }
    if n > 0 {
        assert(last_asset(assets, n, n - 1));
        assert(is_stored_asset(*service.assets@[stored_key(assets[n - 1])], assets[n - 1]));
    }
    if rows.len() > 0 {
        let m = rows.len() as int;
        assert(last_row(rows, m, m - 1));
        assert(is_stored_instance(*service.instances@[rows[m - 1].instance_id@], rows[m - 1]));
    }
}

/// What is published or spawned by a tool belongs to the tools, has no times yet, and says of itself what
/// was asked for.
pub proof fn new_rows_say_what_was_asked_for(
    row: StoredAssetInstance,
    request: SpawnAssetRequest,
    collision_json: String,
    instance_id: Seq<char>,
    entry: AssetCatalogEntry,
    validated: ValidatedSculptSpec,
)
    requires
        is_new_row(row, request, collision_json, instance_id),
        is_prospective(entry, validated),
    ensures
        row.owner@ == "mcp"@ && entry.actor@ == "mcp"@,
        row.created_at@.len() == 0 && row.updated_at@.len() == 0 && entry.created_at@.len() == 0,
        row.removed_at is None,
        row.instance_id@ == instance_id,
        row.idempotency_key@ == request.idempotency_key@,
        row.asset_id@ == request.asset_id@,
        row.version == request.version,
        row.position == request.position,
        row.rotation_degrees == request.rotation_degrees,
        row.scale == request.scale,
        row.collision_json@ == collision_json@,
        entry.asset_id@ == validated.spec.asset_id@,
        entry.version == validated.spec.version,
        entry.spec_hash@ == validated.spec_hash@,
        entry.spec == validated.spec,
        entry.budget == validated.budget,
{
}

} // verus!
