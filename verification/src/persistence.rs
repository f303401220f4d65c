//! What is saved of the world, and the decisions that saving and loading take.

use std::path::PathBuf;
use vstd::prelude::*;
use vstd::string::StringExecFns;
use crate::anvil::{
    chunk_holds, chunk_overrides, column_fits, column_overrides, encode_anvil_chunk, override_map,
    overrides_ascend, real_override, saved_block, AnvilChunk,
};
use crate::block::{column_of, valid_state, BlockPos, BlockState, ChunkColumn, MAX_BLOCK_STATE};
use crate::position_map::{
    ascending, entry_map, entry_map_at, has_key, pos_less, stands_at, PositionMap,
};
use crate::scalar::Scalar;
use crate::text::{decimal, prefixed, push_i64};
use crate::world_command::{base_block, base_block_or_air, world_bounds, WorldCommand};

verus! {

pub const DATABASE_PATH_ENV: &'static str = "WORLD_LOOM_DB_PATH";

pub const REGION_DIR_ENV: &'static str = "WORLD_LOOM_REGION_DIR";

pub const DEFAULT_DATABASE_PATH: &'static str = "data/world-loom.sqlite3";

pub const DEFAULT_REGION_DIR: &'static str = "data/anvil/region";

pub const WORLD_ID: &'static str = "default";

pub const STORAGE_BACKEND: &'static str = "anvil_chunk_sqlite_metadata";

pub const SQLITE_DELTA_BACKEND: &'static str = "sqlite_delta";

pub const ANVIL_STORAGE_BACKEND: &'static str = "anvil_chunk";

pub const SCHEMA_VERSION: i64 = 6;

pub const SAVE_FORMAT_VERSION: i64 = 3;

/// How many edits are written at once at most.
pub const WRITE_BATCH_LIMIT: usize = 256;

/// The width of a region file, in chunks.
pub const REGION_SIZE_CHUNKS: i32 = 32;

pub type PersistenceResult<T> = Result<T, PersistenceError>;

/// Why saving or loading failed. Errors of the file system, the database and the region files
/// are kept by their text.
#[derive(Debug)]
pub enum PersistenceError {
    Io(String),
    Sqlite(String),
    Anvil(String),
    Nbt(String),
    InvalidAnvilChunk(String),
    InvalidBlockState { position: BlockPos, raw: i64 },
    UnsupportedSchemaVersion { found: i64, supported: i64 },
    UnsupportedSaveFormatVersion { found: i64, supported: i64 },
    WriterPanic,
}

/// True iff the error says that a chunk is invalid, with that reason.
pub open spec fn invalid_chunk(error: PersistenceError, reason: Seq<char>) -> bool {
    error matches PersistenceError::InvalidAnvilChunk(text) && text@ == reason
}

impl PersistenceError {
    /// The text of the error.
    pub open spec fn spec_message(self) -> Seq<char> {
        match self {
            PersistenceError::Io(text) => "I/O error: "@ + text@,
            PersistenceError::Sqlite(text) => "SQLite error: "@ + text@,
            PersistenceError::Anvil(text) => "Anvil region error: "@ + text@,
            PersistenceError::Nbt(text) => "Anvil NBT error: "@ + text@,
            PersistenceError::InvalidAnvilChunk(text) => "invalid Anvil chunk: "@ + text@,
            PersistenceError::InvalidBlockState { position, raw } => "invalid block state raw id "@
                + decimal(raw as int) + " at "@ + position.spec_text(),
            PersistenceError::UnsupportedSchemaVersion { found, supported } =>
            "SQLite schema version "@ + decimal(found as int)
                + " is newer than supported version "@ + decimal(supported as int),
            PersistenceError::UnsupportedSaveFormatVersion { found, supported } =>
            "save format version "@ + decimal(found as int) + " is newer than supported version "@
                + decimal(supported as int),
            PersistenceError::WriterPanic => "SQLite writer thread panicked"@,
        }
    }

    /// The text of the error.
    pub fn message(&self) -> (r: String)
        ensures
            r@ == self.spec_message(),
    {
        match self {
            PersistenceError::Io(text) => prefixed("I/O error: ", text.as_str()),
            PersistenceError::Sqlite(text) => prefixed("SQLite error: ", text.as_str()),
            PersistenceError::Anvil(text) => prefixed("Anvil region error: ", text.as_str()),
            PersistenceError::Nbt(text) => prefixed("Anvil NBT error: ", text.as_str()),
            PersistenceError::InvalidAnvilChunk(text) => prefixed(
                "invalid Anvil chunk: ",
                text.as_str(),
            ),
            PersistenceError::InvalidBlockState { position, raw } => {
                let mut out = "invalid block state raw id ".to_owned();
                push_i64(&mut out, *raw);
                out.append(" at ");
                out.append(position.text().as_str());
                out
            },
            PersistenceError::UnsupportedSchemaVersion { found, supported } => newer_version(
                "SQLite schema version ",
                *found,
                *supported,
            ),
            PersistenceError::UnsupportedSaveFormatVersion { found, supported } => newer_version(
                "save format version ",
                *found,
                *supported,
            ),
            PersistenceError::WriterPanic => "SQLite writer thread panicked".to_owned(),
        }
    }
}

fn newer_version(head: &str, found: i64, supported: i64) -> (r: String)
    ensures
        r@ == head@ + decimal(found as int) + " is newer than supported version "@ + decimal(
            supported as int,
        ),
{
    let mut out = head.to_owned();
    push_i64(&mut out, found);
    out.append(" is newer than supported version ");
    push_i64(&mut out, supported);
    out
}

// ---- schema versions ----

/// What has to be done to a database before it is used.
#[derive(Debug, Clone, Copy, PartialEq, Eq, Structural)]
pub enum SchemaStep {
    /// The database is new.
    Initialize,
    /// The database has an older schema.
    Upgrade,
    /// The database has the current schema.
    Keep,
}

impl SchemaStep {
    /// The description under which the step is recorded among the migrations, if it is one.
    pub fn migration(self) -> (r: Option<&'static str>)
        ensures
            match self {
                SchemaStep::Initialize => r matches Some(text) && text@
                    == "initialize SQLite delta storage schema"@,
                SchemaStep::Upgrade => r matches Some(text) && text@
                    == "add declarative asset catalog and persistent instances"@,
                SchemaStep::Keep => r is None,
            },
    {
        match self {
            SchemaStep::Initialize => Some("initialize SQLite delta storage schema"),
            SchemaStep::Upgrade => Some("add declarative asset catalog and persistent instances"),
            SchemaStep::Keep => None,
        }
    }
}

/// The versions (schema, save format) that a database has once it was opened.
pub fn written_versions() -> (r: (i64, i64))
    ensures
        r == (SCHEMA_VERSION, SAVE_FORMAT_VERSION),
{
    (SCHEMA_VERSION, SAVE_FORMAT_VERSION)
}

/// Opening a database that was opened before changes nothing of its versions and migrates nothing:
/// with the versions that were written, it is kept.
pub proof fn opened_database_is_kept(existing: Option<(i64, i64)>)
    ensures
        needed_step(Some((SCHEMA_VERSION, SAVE_FORMAT_VERSION))) == Ok::<
            SchemaStep,
            PersistenceError,
        >(SchemaStep::Keep),
        needed_step(existing) == Ok::<SchemaStep, PersistenceError>(SchemaStep::Keep) ==> (existing
            matches Some(versions) && versions.0 == SCHEMA_VERSION && versions.1
            <= SAVE_FORMAT_VERSION),
        needed_step(existing) is Err <==> (existing matches Some(versions) && (versions.0
            > SCHEMA_VERSION || versions.1 > SAVE_FORMAT_VERSION)),
{
}

/// What a database with these versions (schema, save format) needs; newer ones are refused.
pub open spec fn needed_step(existing: Option<(i64, i64)>) -> PersistenceResult<SchemaStep> {
    match existing {
        None => Ok(SchemaStep::Initialize),
        Some((schema, save_format)) => if schema > SCHEMA_VERSION {
            Err(
                PersistenceError::UnsupportedSchemaVersion {
                    found: schema,
                    supported: SCHEMA_VERSION,
                },
            )
        } else if save_format > SAVE_FORMAT_VERSION {
            Err(
                PersistenceError::UnsupportedSaveFormatVersion {
                    found: save_format,
                    supported: SAVE_FORMAT_VERSION,
                },
            )
        } else if schema < SCHEMA_VERSION {
            Ok(SchemaStep::Upgrade)
        } else {
            Ok(SchemaStep::Keep)
        },
    }
}

/// What a database with these versions (schema, save format) needs; newer ones are refused.
pub fn schema_step(existing: Option<(i64, i64)>) -> (r: PersistenceResult<SchemaStep>)
    ensures
        r == needed_step(existing),
{
    match existing {
        None => Ok(SchemaStep::Initialize),
        Some((schema, save_format)) => {
            if schema > SCHEMA_VERSION {
                return Err(
                    PersistenceError::UnsupportedSchemaVersion {
                        found: schema,
                        supported: SCHEMA_VERSION,
                    },
                );
            }
            if save_format > SAVE_FORMAT_VERSION {
                return Err(
                    PersistenceError::UnsupportedSaveFormatVersion {
                        found: save_format,
                        supported: SAVE_FORMAT_VERSION,
                    },
                );
            }
            if schema < SCHEMA_VERSION {
                Ok(SchemaStep::Upgrade)
            } else {
                Ok(SchemaStep::Keep)
            }
        },
    }
}

// ---- records ----

#[derive(Debug, Clone, Copy, PartialEq, Eq, Structural)]
pub enum PersistedCommandKind {
    SetBlock,
    RemoveBlock,
}

impl PersistedCommandKind {
    pub fn as_str(self) -> (r: &'static str)
        ensures
            r@ == match self {
                PersistedCommandKind::SetBlock => "set_block"@,
                PersistedCommandKind::RemoveBlock => "remove_block"@,
            },
    {
        match self {
            PersistedCommandKind::SetBlock => "set_block",
            PersistedCommandKind::RemoveBlock => "remove_block",
        }
    }
}

/// An edit of one block, as it is written to storage.
#[derive(Debug, Clone, Copy, PartialEq, Eq, Structural)]
pub struct BlockEdit {
    pub position: BlockPos,
    pub block: BlockState,
    pub base_block: BlockState,
    pub command_kind: PersistedCommandKind,
}

impl BlockEdit {
    pub fn from_world_command(command: WorldCommand, final_block: BlockState) -> (r: Self)
        ensures
            r == (BlockEdit {
                position: command.target(),
                block: final_block,
                base_block: base_block(command.target().coords()),
                command_kind: if command is SetBlock {
                    PersistedCommandKind::SetBlock
                } else {
                    PersistedCommandKind::RemoveBlock
                },
            }),
    {
        let (position, command_kind): (BlockPos, PersistedCommandKind) = match command {
            WorldCommand::SetBlock { position, block } => (
                position,
                PersistedCommandKind::SetBlock,
            ),
            WorldCommand::RemoveBlock { position } => (
                position,
                PersistedCommandKind::RemoveBlock,
            ),
        };
        BlockEdit {
            position,
            block: final_block,
            base_block: base_block_or_air(position),
            command_kind,
        }
    }

    /// True iff the edit leaves a block that differs from the base world.
    pub open spec fn overrides_base(self) -> bool {
        self.block != self.base_block
    }

    /// True iff the edit leaves a block that differs from the base world.
    pub fn needs_override(self) -> (r: bool)
        ensures
            r == self.overrides_base(),
    {
        self.block != self.base_block
    }
}

/// A block that differs from the base world.
#[derive(Debug, Clone, Copy, PartialEq, Eq, Structural)]
pub struct SavedBlockOverride {
    pub position: BlockPos,
    pub block: BlockState,
}

/// The saved overrides of one chunk column.
#[derive(Debug, PartialEq, Eq)]
pub struct StoredChunk {
    pub column: ChunkColumn,
    pub blocks: Vec<SavedBlockOverride>,
}

/// One block of a build: what stood there before, and what the build placed.
#[derive(Debug, Clone, Copy, PartialEq, Eq, Structural)]
pub struct BuildBlockRecord {
    pub position: BlockPos,
    pub original_block: BlockState,
    pub applied_block: BlockState,
}

/// True iff the blocks of the record are block states.
pub open spec fn valid_record(record: BuildBlockRecord) -> bool {
    valid_state(record.original_block) && valid_state(record.applied_block)
}

/// A build that is about to be written.
pub struct NewBuildRecord {
    pub build_id: String,
    pub idempotency_key: String,
    pub plan_hash: String,
    pub canonical_plan_json: String,
    pub actor: String,
    pub blocks: Vec<BuildBlockRecord>,
}

/// A build as it was written.
pub struct StoredBuild {
    pub build_id: String,
    pub idempotency_key: String,
    pub plan_hash: String,
    pub canonical_plan_json: String,
    pub actor: String,
    pub state: String,
    pub changed: usize,
    pub skipped: usize,
    pub created_at: String,
    pub applied_at: String,
    pub undone_at: Option<String>,
    pub blocks: Vec<BuildBlockRecord>,
}

pub struct StoredAssetDefinition {
    pub asset_id: String,
    pub version: u32,
    pub spec_hash: String,
    pub canonical_spec_json: String,
    pub budget_json: String,
    pub actor: String,
    pub created_at: String,
}

pub struct StoredAssetInstance {
    pub instance_id: String,
    pub idempotency_key: String,
    pub asset_id: String,
    pub version: u32,
    pub position: [Scalar; 3],
    pub rotation_degrees: [Scalar; 3],
    pub scale: [Scalar; 3],
    pub collision_json: String,
    pub interaction_state_json: String,
    pub owner: String,
    pub created_at: String,
    pub updated_at: String,
    pub removed_at: Option<String>,
}

#[verifier::external_type_specification]
#[verifier::external_body]
pub struct ExPathBuf(PathBuf);

/// What a backup was made of, and where it was put.
#[derive(Debug)]
pub struct BackupManifest {
    pub source_path: PathBuf,
    pub backup_path: PathBuf,
    pub region_source_path: PathBuf,
    pub region_backup_path: PathBuf,
    pub storage_backend: &'static str,
    pub schema_version: i64,
    pub save_format_version: i64,
}

/// The database of the world: its overrides as differences from the base world.
#[derive(Debug)]
pub struct SqliteDeltaStorage {
    db_path: PathBuf,
}

impl SqliteDeltaStorage {
    pub closed spec fn path(self) -> PathBuf {
        self.db_path
    }

    pub fn new(db_path: PathBuf) -> (r: Self)
        ensures
            r.path() == db_path,
    {
        SqliteDeltaStorage { db_path }
    }

    pub fn db_path(&self) -> (r: &PathBuf)
        ensures
            *r == self.path(),
    {
        &self.db_path
    }
}

/// The region files of the world.
#[derive(Debug)]
pub struct AnvilChunkStorage {
    region_dir: PathBuf,
}

impl AnvilChunkStorage {
    pub closed spec fn path(self) -> PathBuf {
        self.region_dir
    }

    pub fn new(region_dir: PathBuf) -> (r: Self)
        ensures
            r.path() == region_dir,
    {
        AnvilChunkStorage { region_dir }
    }

    pub fn region_dir(&self) -> (r: &PathBuf)
        ensures
            *r == self.path(),
    {
        &self.region_dir
    }

    /// The file name of a region.
    pub fn region_file_name(region_x: i32, region_z: i32) -> (r: String)
        ensures
            r@ == "r."@ + decimal(region_x as int) + "."@ + decimal(region_z as int) + ".mca"@,
    {
        let mut out = "r.".to_owned();
        push_i64(&mut out, region_x as i64);
        out.append(".");
        push_i64(&mut out, region_z as i64);
        out.append(".mca");
        out
    }
}

/// Region files for the blocks, and a database for everything else.
#[derive(Debug)]
pub struct HybridAnvilStorage {
    sqlite: SqliteDeltaStorage,
    anvil: AnvilChunkStorage,
}

impl HybridAnvilStorage {
    pub closed spec fn database(self) -> SqliteDeltaStorage {
        self.sqlite
    }

    pub closed spec fn regions(self) -> AnvilChunkStorage {
        self.anvil
    }

    pub fn new(sqlite: SqliteDeltaStorage, anvil: AnvilChunkStorage) -> (r: Self)
        ensures
            r.database() == sqlite,
            r.regions() == anvil,
    {
        HybridAnvilStorage { sqlite, anvil }
    }

    pub fn sqlite_storage(&self) -> (r: &SqliteDeltaStorage)
        ensures
            *r == self.database(),
    {
        &self.sqlite
    }

    pub fn anvil_storage(&self) -> (r: &AnvilChunkStorage)
        ensures
            *r == self.regions(),
    {
        &self.anvil
    }
}

// ---- rows of the database ----

/// The block state with that raw id, or an error where there is none.
pub fn decode_block_state(position: BlockPos, raw: i64) -> (r: PersistenceResult<BlockState>)
    ensures
        r == if 0 <= raw <= MAX_BLOCK_STATE {
            Ok::<BlockState, PersistenceError>(raw as u16)
        } else {
            Err(PersistenceError::InvalidBlockState { position, raw })
        },
{
    if 0 <= raw && raw <= MAX_BLOCK_STATE as i64 {
        Ok(raw as u16)
    } else {
        Err(PersistenceError::InvalidBlockState { position, raw })
    }
}

/// A row of the table of overrides.
#[derive(Debug, Clone, Copy, PartialEq, Eq, Structural)]
pub struct OverrideRow {
    pub x: i32,
    pub y: i32,
    pub z: i32,
    pub raw: i64,
}

/// The override that a row stands for.
pub open spec fn row_override(row: OverrideRow) -> SavedBlockOverride {
    SavedBlockOverride {
        position: BlockPos { x: row.x, y: row.y, z: row.z },
        block: row.raw as u16,
    }
}

/// True iff `i` is the first row whose raw id is no block state.
pub open spec fn first_bad_row(rows: Seq<OverrideRow>, i: int) -> bool {
    &&& 0 <= i < rows.len()
    &&& !(0 <= rows[i].raw <= MAX_BLOCK_STATE)
    &&& forall|j: int| 0 <= j < i ==> 0 <= (#[trigger] rows[j]).raw <= MAX_BLOCK_STATE
}

/// The overrides that the rows stand for, in their order. The first row whose raw id is no block
/// state is an error.
pub fn overrides_from_rows(rows: &Vec<OverrideRow>) -> (r: PersistenceResult<
    Vec<SavedBlockOverride>,
>)
    ensures
        match r {
            Ok(list) => {
                &&& list@ == rows@.map_values(|row: OverrideRow| row_override(row))
                &&& forall|i: int|
                    0 <= i < rows@.len() ==> 0 <= (#[trigger] rows@[i]).raw <= MAX_BLOCK_STATE
            },
            Err(error) => exists|i: int| #[trigger]
                first_bad_row(rows@, i) && error == (PersistenceError::InvalidBlockState {
                    position: row_override(rows@[i]).position,
                    raw: rows@[i].raw,
                }),
        },
{
    let mut list: Vec<SavedBlockOverride> = Vec::new();
    let mut i: usize = 0;
    while i < rows.len()
        invariant
            i <= rows@.len(),
            list@ =~= rows@.map_values(|row: OverrideRow| row_override(row)).take(i as int),
            forall|j: int| 0 <= j < i ==> 0 <= (#[trigger] rows@[j]).raw <= MAX_BLOCK_STATE,
        decreases rows@.len() - i,
    {
        let row = rows[i];
        let position = BlockPos { x: row.x, y: row.y, z: row.z };
        match decode_block_state(position, row.raw) {
            Ok(block) => list.push(SavedBlockOverride { position, block }),
            Err(error) => {
                proof {
                    assert(first_bad_row(rows@, i as int));
                }
                return Err(error);
            },
        }
        i = i + 1;
    }
    proof {
        assert(rows@.map_values(|row: OverrideRow| row_override(row)).take(i as int)
            =~= rows@.map_values(|row: OverrideRow| row_override(row)));
    }
    Ok(list)
}

/// The row of a build.
pub struct BuildRow {
    pub build_id: String,
    pub idempotency_key: String,
    pub plan_hash: String,
    pub canonical_plan_json: String,
    pub actor: String,
    pub state: String,
    pub changed: i64,
    pub skipped: i64,
    pub created_at: String,
    pub applied_at: String,
    pub undone_at: Option<String>,
}

/// A row of the table of build blocks.
#[derive(Debug, Clone, Copy, PartialEq, Eq, Structural)]
pub struct BuildBlockRow {
    pub x: i32,
    pub y: i32,
    pub z: i32,
    pub original_raw: i64,
    pub applied_raw: i64,
}

/// The record that a row stands for.
pub open spec fn row_record(row: BuildBlockRow) -> BuildBlockRecord {
    BuildBlockRecord {
        position: BlockPos { x: row.x, y: row.y, z: row.z },
        original_block: row.original_raw as u16,
        applied_block: row.applied_raw as u16,
    }
}

/// True iff both raw ids of the row are block states.
pub open spec fn good_block_row(row: BuildBlockRow) -> bool {
    0 <= row.original_raw <= MAX_BLOCK_STATE && 0 <= row.applied_raw <= MAX_BLOCK_STATE
}

/// What is wrong with a row: its first raw id that is no block state.
pub open spec fn block_row_error(row: BuildBlockRow) -> PersistenceError {
    PersistenceError::InvalidBlockState {
        position: BlockPos { x: row.x, y: row.y, z: row.z },
        raw: if 0 <= row.original_raw <= MAX_BLOCK_STATE {
            row.applied_raw
        } else {
            row.original_raw
        },
    }
}

/// True iff `i` is the first row that is not good.
pub open spec fn first_bad_block_row(rows: Seq<BuildBlockRow>, i: int) -> bool {
    &&& 0 <= i < rows.len()
    &&& !good_block_row(rows[i])
    &&& forall|j: int| 0 <= j < i ==> good_block_row(#[trigger] rows[j])
}

/// A count from the database as a size; one that does not fit is the greatest size.
pub open spec fn size_of_count(count: i64) -> int {
    if 0 <= count <= usize::MAX {
        count as int
    } else {
        usize::MAX as int
    }
}

fn count_to_size(count: i64) -> (r: usize)
    ensures
        r == size_of_count(count),
{
    if 0 <= count && count as u64 <= usize::MAX as u64 {
        count as usize
    } else {
        usize::MAX
    }
}

/// True iff the build is what its row and its block rows say.
pub open spec fn build_of_rows(build: StoredBuild, row: BuildRow, rows: Seq<BuildBlockRow>) -> bool {
    &&& build.build_id == row.build_id
    &&& build.idempotency_key == row.idempotency_key
    &&& build.plan_hash == row.plan_hash
    &&& build.canonical_plan_json == row.canonical_plan_json
    &&& build.actor == row.actor
    &&& build.state == row.state
    &&& build.changed == size_of_count(row.changed)
    &&& build.skipped == size_of_count(row.skipped)
    &&& build.created_at == row.created_at
    &&& build.applied_at == row.applied_at
    &&& build.undone_at == row.undone_at
    &&& build.blocks@ == rows.map_values(|row: BuildBlockRow| row_record(row))
    &&& forall|i: int| 0 <= i < build.blocks@.len() ==> valid_record(#[trigger] build.blocks@[i])
}

/// The build that a row and its block rows stand for. The first block row with a raw id that is
/// no block state is an error.
pub fn build_from_rows(row: BuildRow, rows: &Vec<BuildBlockRow>) -> (r: PersistenceResult<
    StoredBuild,
>)
    ensures
        match r {
            Ok(build) => build_of_rows(build, row, rows@) && forall|i: int|
                0 <= i < rows@.len() ==> good_block_row(#[trigger] rows@[i]),
            Err(error) => exists|i: int| #[trigger]
                first_bad_block_row(rows@, i) && error == block_row_error(rows@[i]),
        },
{
    let mut blocks: Vec<BuildBlockRecord> = Vec::new();
    let mut i: usize = 0;
    while i < rows.len()
        invariant
            i <= rows@.len(),
            blocks@ =~= rows@.map_values(|row: BuildBlockRow| row_record(row)).take(i as int),
            forall|j: int| 0 <= j < i ==> good_block_row(#[trigger] rows@[j]),
        decreases rows@.len() - i,
    {
        let block_row = rows[i];
        let position = BlockPos { x: block_row.x, y: block_row.y, z: block_row.z };
        let original_block = match decode_block_state(position, block_row.original_raw) {
            Ok(block) => block,
            Err(error) => {
                proof {
                    assert(first_bad_block_row(rows@, i as int));
                }
                return Err(error);
            },
        };
        let applied_block = match decode_block_state(position, block_row.applied_raw) {
            Ok(block) => block,
            Err(error) => {
                proof {
                    assert(first_bad_block_row(rows@, i as int));
                }
                return Err(error);
            },
        };
        blocks.push(BuildBlockRecord { position, original_block, applied_block });
        i = i + 1;
    }
    proof {
        assert(rows@.map_values(|row: BuildBlockRow| row_record(row)).take(i as int)
            =~= rows@.map_values(|row: BuildBlockRow| row_record(row)));
        assert forall|j: int| 0 <= j < blocks@.len() implies valid_record(#[trigger] blocks@[j]) by {
            assert(good_block_row(rows@[j]));
            assert(blocks@[j] == row_record(rows@[j]));
        }
    }
    Ok(
        StoredBuild {
            build_id: row.build_id,
            idempotency_key: row.idempotency_key,
            plan_hash: row.plan_hash,
            canonical_plan_json: row.canonical_plan_json,
            actor: row.actor,
            state: row.state,
            changed: count_to_size(row.changed),
            skipped: count_to_size(row.skipped),
            created_at: row.created_at,
            applied_at: row.applied_at,
            undone_at: row.undone_at,
            blocks,
        },
    )
}

/// The row that a record of a build is written as.
pub open spec fn record_row(record: BuildBlockRecord) -> BuildBlockRow {
    BuildBlockRow {
        x: record.position.x,
        y: record.position.y,
        z: record.position.z,
        original_raw: record.original_block as i64,
        applied_raw: record.applied_block as i64,
    }
}

/// The row that a record of a build is written as.
pub fn build_block_row(record: &BuildBlockRecord) -> (r: BuildBlockRow)
    ensures
        r == record_row(*record),
{
    BuildBlockRow {
        x: record.position.x,
        y: record.position.y,
        z: record.position.z,
        original_raw: record.original_block as i64,
        applied_raw: record.applied_block as i64,
    }
}

/// The rows that the records of a build are written as.
pub open spec fn record_rows(records: Seq<BuildBlockRecord>) -> Seq<BuildBlockRow> {
    records.map_values(|record: BuildBlockRecord| record_row(record))
}

/// The rows of a build read back as its records, in their order, and none of them is an error.
pub proof fn written_build_reads_back(
    records: Seq<BuildBlockRecord>,
    row: BuildRow,
    build: StoredBuild,
)
    requires
        forall|i: int| 0 <= i < records.len() ==> valid_record(#[trigger] records[i]),
        build_of_rows(build, row, record_rows(records)),
    ensures
        forall|i: int| !(#[trigger] first_bad_block_row(record_rows(records), i)),
        build.blocks@ == records,
        build.state == row.state,
        row.changed == records.len() && records.len() <= usize::MAX ==> build.changed
            == records.len(),
{
    let rows = record_rows(records);
    assert forall|i: int| 0 <= i < records.len() implies good_block_row(#[trigger] rows[i])
        && row_record(rows[i]) == records[i] by {
        assert(valid_record(records[i]));
    }
    assert(build.blocks@ =~= records);
}

/// A row that was written a moment ago has to be there.
pub fn required_row<T>(found: Option<T>, message: &str) -> (r: PersistenceResult<T>)
    ensures
        match found {
            Some(row) => r == Ok::<T, PersistenceError>(row),
            None => r matches Err(PersistenceError::InvalidAnvilChunk(text)) && text@ == message@,
        },
{
    match found {
        Some(row) => Ok(row),
        None => Err(PersistenceError::InvalidAnvilChunk(message.to_owned())),
    }
}

/// An update of an instance has to change its row.
pub fn instance_updated(rows: usize) -> (r: PersistenceResult<()>)
    ensures
        if rows == 0 {
            r matches Err(PersistenceError::InvalidAnvilChunk(text)) && text@
                == "asset instance is missing or removed"@
        } else {
            r == Ok::<(), PersistenceError>(())
        },
{
    if rows == 0 {
        return Err(
            PersistenceError::InvalidAnvilChunk("asset instance is missing or removed".to_owned()),
        );
    }
    Ok(())
}

/// A length or an index as a database holds it; the greatest number where it does not fit.
pub fn row_number(n: usize) -> (r: i64)
    ensures
        r == if n <= i64::MAX {
            n as int
        } else {
            i64::MAX as int
        },
{
    if n as u64 <= i64::MAX as u64 {
        n as i64
    } else {
        i64::MAX
    }
}

/// A version number from the database: negative ones count as zero, and only the lowest 32 bits
/// are kept.
pub fn version_from_row(raw: i64) -> (r: u32)
    ensures
        r == (if raw < 0 { 0 } else { raw as int }) % 0x1_0000_0000,
{
    if raw < 0 {
        0
    } else {
        (raw as u64 % 0x1_0000_0000) as u32
    }
}

/// The lowest and highest x, then the lowest and highest z, of a column's blocks.
pub fn column_range(column: ChunkColumn) -> (r: (i32, i32, i32, i32))
    requires
        column_fits(column),
    ensures
        r.0 == column.x * 16,
        r.1 == column.x * 16 + 15,
        r.2 == column.z * 16,
        r.3 == column.z * 16 + 15,
        forall|p: BlockPos| #[trigger]
            column_of(p.coords()) == column.coords() <==> r.0 <= p.x <= r.1 && r.2 <= p.z <= r.3,
{
    (column.x * 16, column.x * 16 + 15, column.z * 16, column.z * 16 + 15)
}

/// The place of a column inside its region file.
pub fn local_chunk_coords(column: ChunkColumn) -> (r: (usize, usize))
    ensures
        r.0 == column.x as int % 32,
        r.1 == column.z as int % 32,
        r.0 < 32,
        r.1 < 32,
{
    let region = column.region_coords(REGION_SIZE_CHUNKS);
    let x: i64 = column.x as i64 - region.0 as i64 * 32;
    let z: i64 = column.z as i64 - region.1 as i64 * 32;
    (x as usize, z as usize)
}

/// Within a region file no two columns share a place.
pub proof fn local_coords_identify_the_column(a: ChunkColumn, b: ChunkColumn)
    requires
        a.x as int / 32 == b.x as int / 32,
        a.z as int / 32 == b.z as int / 32,
        a.x as int % 32 == b.x as int % 32,
        a.z as int % 32 == b.z as int % 32,
    ensures
        a == b,
{
}

// ---- the overlay of overrides in the database ----

/// What is done to the row of a position in the table of overrides.
#[derive(Debug, Clone, Copy, PartialEq, Eq, Structural)]
pub enum OverrideAction {
    Delete,
    Upsert { raw: i64 },
}

/// The action that makes the column show `block` at `position`, over what its region file holds: no
/// row is needed where the file shows that block by itself.
pub open spec fn action_for(
    saved: Map<BlockPos, BlockState>,
    position: BlockPos,
    block: BlockState,
) -> OverrideAction {
    if block == saved_block(saved, position) {
        OverrideAction::Delete
    } else {
        OverrideAction::Upsert { raw: block as i64 }
    }
}

/// The block that the overrides of a region file show at a position.
fn shown_block(saved: &Vec<SavedBlockOverride>, position: BlockPos) -> (r: BlockState)
    ensures
        r == saved_block(overrides_of(saved@), position),
{
    let mut i: usize = saved.len();
    while i > 0
        invariant
            i <= saved@.len(),
            override_map(saved@, i as int).contains_key(position) == overrides_of(
                saved@,
            ).contains_key(position),
            override_map(saved@, i as int).contains_key(position) ==> override_map(
                saved@,
                i as int,
            )[position] == overrides_of(saved@)[position],
        decreases i,
    {
        if saved[i - 1].position == position {
            return saved[i - 1].block;
        }
        i = i - 1;
    }
    base_block_or_air(position)
}

/// The action that makes the column show `block` at `position`, where `saved` is what its region
/// file holds.
pub fn transactional_override(
    saved: &Vec<SavedBlockOverride>,
    position: BlockPos,
    block: BlockState,
) -> (r: OverrideAction)
    ensures
        r == action_for(overrides_of(saved@), position, block),
{
    if block == shown_block(saved, position) {
        OverrideAction::Delete
    } else {
        OverrideAction::Upsert { raw: block as i64 }
    }
}

/// The action of an edit on the table of overrides.
pub open spec fn edit_action(edit: BlockEdit) -> OverrideAction {
    if edit.overrides_base() {
        OverrideAction::Upsert { raw: edit.block as i64 }
    } else {
        OverrideAction::Delete
    }
}

/// The action of an edit on the table of overrides.
pub fn edit_override(edit: BlockEdit) -> (r: OverrideAction)
    ensures
        r == edit_action(edit),
        r == if edit.overrides_base() {
            OverrideAction::Upsert { raw: edit.block as i64 }
        } else {
            OverrideAction::Delete
        },
{
    if edit.needs_override() {
        OverrideAction::Upsert { raw: edit.block as i64 }
    } else {
        OverrideAction::Delete
    }
}

/// The overlay after an action.
pub open spec fn after_action(
    overlay: Map<BlockPos, BlockState>,
    position: BlockPos,
    action: OverrideAction,
) -> Map<BlockPos, BlockState> {
    match action {
        OverrideAction::Delete => overlay.remove(position),
        OverrideAction::Upsert { raw } => overlay.insert(position, raw as u16),
    }
}

/// The block of a record: the one that the build placed, or the one that stood there before.
pub open spec fn record_block(record: BuildBlockRecord, applied: bool) -> BlockState {
    if applied {
        record.applied_block
    } else {
        record.original_block
    }
}

/// The overlay after the first `n` records of a build were written, over what the region files
/// hold: with the blocks that the build placed, or with those that stood there before.
pub open spec fn after_records(
    saved: Map<BlockPos, BlockState>,
    overlay: Map<BlockPos, BlockState>,
    records: Seq<BuildBlockRecord>,
    applied: bool,
    n: int,
) -> Map<BlockPos, BlockState>
    decreases n,
{
    if n <= 0 {
        overlay
    } else {
        let record = records[n - 1];
        after_action(
            after_records(saved, overlay, records, applied, n - 1),
            record.position,
            action_for(saved, record.position, record_block(record, applied)),
        )
    }
}

/// True iff no two records are at one position.
pub open spec fn distinct_records(records: Seq<BuildBlockRecord>) -> bool {
    forall|i: int, j: int|
        0 <= i < j < records.len() ==> (#[trigger] records[i]).position != (
        #[trigger] records[j]).position
}

/// True iff one of the first `n` records is at the position.
pub open spec fn has_record(records: Seq<BuildBlockRecord>, n: int, p: BlockPos) -> bool {
    exists|i: int| 0 <= i < n && (#[trigger] records[i]).position == p
}

proof fn records_leave_other_rows(
    saved: Map<BlockPos, BlockState>,
    overlay: Map<BlockPos, BlockState>,
    records: Seq<BuildBlockRecord>,
    applied: bool,
    n: int,
    p: BlockPos,
)
    requires
        0 <= n <= records.len(),
        !has_record(records, n, p),
    ensures
        after_records(saved, overlay, records, applied, n).contains_key(p) == overlay.contains_key(p),
        overlay.contains_key(p) ==> after_records(saved, overlay, records, applied, n)[p]
            == overlay[p],
    decreases n,
{
    if n > 0 {
        assert(records[n - 1].position != p);
        assert(!has_record(records, n - 1, p)) by {
            if has_record(records, n - 1, p) {
                let i = choose|i: int| 0 <= i < n - 1 && (#[trigger] records[i]).position == p;
                assert(records[i].position == p);
            }
        }
        records_leave_other_rows(saved, overlay, records, applied, n - 1, p);
    }
}

proof fn records_write_their_rows(
    saved: Map<BlockPos, BlockState>,
    overlay: Map<BlockPos, BlockState>,
    records: Seq<BuildBlockRecord>,
    applied: bool,
    n: int,
    i: int,
)
    requires
        distinct_records(records),
        0 <= i < n <= records.len(),
    ensures
        ({
            let p = records[i].position;
            let block = record_block(records[i], applied);
            let after = after_records(saved, overlay, records, applied, n);
            &&& after.contains_key(p) == (block != saved_block(saved, p))
            &&& after.contains_key(p) ==> after[p] == block
        }),
    decreases n,
{
    if i < n - 1 {
        assert(records[i].position != records[n - 1].position);
        records_write_their_rows(saved, overlay, records, applied, n - 1, i);
    } else {
        let block = record_block(records[i], applied);
        assert((block as i64) as u16 == block);
    }
}

/// A build survives a restart: once its records are written, every position of the build is loaded
/// with the block of its record, whatever the region files held there, and every other position
/// with the block that it had before. So is an undo, with the blocks that the build had captured.
pub proof fn stored_build_is_loaded(
    saved: Map<BlockPos, BlockState>,
    overlay: Map<BlockPos, BlockState>,
    records: Seq<BuildBlockRecord>,
    applied: bool,
)
    requires
        distinct_records(records),
    ensures
        forall|i: int|
            #![trigger records[i]]
            0 <= i < records.len() ==> saved_block(
                overlaid(
                    saved,
                    after_records(saved, overlay, records, applied, records.len() as int),
                ),
                records[i].position,
            ) == record_block(records[i], applied),
        forall|p: BlockPos|
            !has_record(records, records.len() as int, p) ==> #[trigger] saved_block(
                overlaid(
                    saved,
                    after_records(saved, overlay, records, applied, records.len() as int),
                ),
                p,
            ) == saved_block(overlaid(saved, overlay), p),
{
    let n = records.len() as int;
    let after = after_records(saved, overlay, records, applied, n);
    assert forall|i: int| #![trigger records[i]] 0 <= i < n implies saved_block(
        overlaid(saved, after),
        records[i].position,
    ) == record_block(records[i], applied) by {
        records_write_their_rows(saved, overlay, records, applied, n, i);
    }
    assert forall|p: BlockPos| !has_record(records, n, p) implies #[trigger] saved_block(
        overlaid(saved, after),
        p,
    ) == saved_block(overlaid(saved, overlay), p) by {
        records_leave_other_rows(saved, overlay, records, applied, n, p);
    }
}

/// True iff every row of the overlay says something that the region files do not show by themselves.
pub open spec fn no_idle_rows(
    saved: Map<BlockPos, BlockState>,
    overlay: Map<BlockPos, BlockState>,
) -> bool {
    forall|p: BlockPos| #[trigger]
        overlay.contains_key(p) ==> overlay[p] != saved_block(saved, p)
}

/// After an undo a load shows every block as before the build, where the build captured what a load
/// would have shown; and the overlay is what it was, where it had no idle rows.
pub proof fn undo_restores_the_overlay(
    saved: Map<BlockPos, BlockState>,
    overlay: Map<BlockPos, BlockState>,
    records: Seq<BuildBlockRecord>,
)
    requires
        distinct_records(records),
        forall|i: int|
            #![trigger records[i]]
            0 <= i < records.len() ==> records[i].original_block == saved_block(
                overlaid(saved, overlay),
                records[i].position,
            ),
    ensures
        forall|p: BlockPos| #[trigger]
            saved_block(
                overlaid(
                    saved,
                    after_records(
                        saved,
                        after_records(saved, overlay, records, true, records.len() as int),
                        records,
                        false,
                        records.len() as int,
                    ),
                ),
                p,
            ) == saved_block(overlaid(saved, overlay), p),
        no_idle_rows(saved, overlay) ==> after_records(
            saved,
            after_records(saved, overlay, records, true, records.len() as int),
            records,
            false,
            records.len() as int,
        ) == overlay,
{
    let n = records.len() as int;
    let built = after_records(saved, overlay, records, true, n);
    let undone = after_records(saved, built, records, false, n);
    stored_build_is_loaded(saved, overlay, records, true);
    stored_build_is_loaded(saved, built, records, false);
    assert forall|p: BlockPos| #[trigger]
        saved_block(overlaid(saved, undone), p) == saved_block(overlaid(saved, overlay), p) by {
        if has_record(records, n, p) {
            let i = choose|i: int| 0 <= i < n && (#[trigger] records[i]).position == p;
            assert(records[i].position == p);
        } else {
            assert(saved_block(overlaid(saved, built), p) == saved_block(
                overlaid(saved, overlay),
                p,
            ));
        }
    }
    if no_idle_rows(saved, overlay) {
        assert forall|p: BlockPos|
            #![trigger undone.dom().contains(p)]
            #![trigger overlay.dom().contains(p)]
            #![trigger undone[p]]
            undone.dom().contains(p) == overlay.dom().contains(p) && (overlay.dom().contains(p)
                ==> undone[p] == overlay[p]) by {
            if has_record(records, n, p) {
                let i = choose|i: int| 0 <= i < n && (#[trigger] records[i]).position == p;
                assert(records[i].position == p);
                records_write_their_rows(saved, built, records, false, n, i);
            } else {
                records_leave_other_rows(saved, overlay, records, true, n, p);
                records_leave_other_rows(saved, built, records, false, n, p);
            }
        }
        assert(undone =~= overlay);
    }
}

// ---- edits of saved columns ----

/// The overrides after the first `n` edits: an edit that leaves the base world's block takes the
/// override away, any other sets it.
pub open spec fn edited_map(
    overrides: Map<BlockPos, BlockState>,
    edits: Seq<BlockEdit>,
    n: int,
) -> Map<BlockPos, BlockState>
    decreases n,
{
    if n <= 0 {
        overrides
    } else {
        let before = edited_map(overrides, edits, n - 1);
        if edits[n - 1].overrides_base() {
            before.insert(edits[n - 1].position, edits[n - 1].block)
        } else {
            before.remove(edits[n - 1].position)
        }
    }
}

/// The overrides of a list, by position.
pub open spec fn overrides_of(blocks: Seq<SavedBlockOverride>) -> Map<BlockPos, BlockState> {
    override_map(blocks, blocks.len() as int)
}

/// The overrides as pairs of position and block.
pub open spec fn override_pairs(blocks: Seq<SavedBlockOverride>) -> Seq<(BlockPos, BlockState)> {
    blocks.map_values(|saved: SavedBlockOverride| (saved.position, saved.block))
}

/// True iff the list holds exactly these overrides, in order of x, then y, then z.
pub open spec fn lists_overrides(
    blocks: Seq<SavedBlockOverride>,
    overrides: Map<BlockPos, BlockState>,
) -> bool {
    overrides_ascend(blocks) && entry_map(override_pairs(blocks)) == overrides
}

proof fn pairs_ascend(blocks: Seq<SavedBlockOverride>)
    ensures
        overrides_ascend(blocks) <==> ascending(override_pairs(blocks)),
{
    let pairs = override_pairs(blocks);
    assert forall|i: int, j: int| 0 <= i < j < blocks.len() implies pairs[i].0 == blocks[i].position
        && pairs[j].0 == blocks[j].position by {}
    if ascending(pairs) {
        assert forall|i: int, j: int|
            #![trigger blocks[i], blocks[j]]
            0 <= i < j < blocks.len() implies pos_less(blocks[i].position, blocks[j].position) by {
            assert(pos_less(pairs[i].0, pairs[j].0));
        }
    }
}

/// An ordered list of overrides stands for one map, whichever way it is read.
pub proof fn ordered_list_is_its_map(blocks: Seq<SavedBlockOverride>)
    requires
        overrides_ascend(blocks),
    ensures
        lists_overrides(blocks, overrides_of(blocks)),
{
    let pairs = override_pairs(blocks);
    pairs_ascend(blocks);
    map_of_prefix(blocks, blocks.len() as int);
    assert(entry_map(pairs) =~= overrides_of(blocks)) by {
        assert forall|p: BlockPos| entry_map(pairs).contains_key(p) == #[trigger] overrides_of(
            blocks,
        ).contains_key(p) by {
            assert(entry_map(pairs).contains_key(p) == has_key(pairs, p));
            if has_key(pairs, p) {
                let i = choose|i: int| #[trigger] stands_at(pairs, p, i);
                assert(stands_at(pairs, p, i));
                assert(blocks[i].position == p);
            }
            if overrides_of(blocks).contains_key(p) {
                let i = choose|i: int|
                    0 <= i < blocks.len() && (#[trigger] blocks[i]).position == p;
                assert(stands_at(pairs, p, i));
            }
        }
        assert forall|p: BlockPos| #[trigger] entry_map(pairs).contains_key(p) implies entry_map(
            pairs,
        )[p] == overrides_of(blocks)[p] by {
            let i = choose|i: int| #[trigger] stands_at(pairs, p, i);
            assert(has_key(pairs, p));
            assert(stands_at(pairs, p, i));
            entry_map_at(pairs, i);
            assert(blocks[i].position == p);
        }
    }
}

proof fn map_of_prefix(blocks: Seq<SavedBlockOverride>, n: int)
    requires
        overrides_ascend(blocks),
        0 <= n <= blocks.len(),
    ensures
        forall|p: BlockPos| #[trigger]
            override_map(blocks, n).contains_key(p) <==> exists|i: int|
                0 <= i < n && (#[trigger] blocks[i]).position == p,
        forall|i: int|
            0 <= i < n ==> override_map(blocks, n)[(#[trigger] blocks[i]).position]
                == blocks[i].block,
    decreases n,
{
    if n > 0 {
        map_of_prefix(blocks, n - 1);
        assert forall|i: int| 0 <= i < n implies override_map(
            blocks,
            n,
        )[(#[trigger] blocks[i]).position] == blocks[i].block by {
            if i < n - 1 {
                assert(pos_less(blocks[i].position, blocks[n - 1].position));
            }
        }
        assert forall|p: BlockPos| #[trigger]
            override_map(blocks, n).contains_key(p) <==> exists|i: int|
                0 <= i < n && (#[trigger] blocks[i]).position == p by {
            if p == blocks[n - 1].position {
                assert(override_map(blocks, n).contains_key(p));
            } else if override_map(blocks, n - 1).contains_key(p) {
                let i = choose|i: int| 0 <= i < n - 1 && (#[trigger] blocks[i]).position == p;
                assert(blocks[i].position == p);
            }
        }
    }
}

fn overrides_in_order(map: PositionMap<BlockState>) -> (r: Vec<SavedBlockOverride>)
    requires
        map.wf(),
    ensures
        lists_overrides(r@, map@),
{
    let entries = map.into_entries();
    let mut blocks: Vec<SavedBlockOverride> = Vec::new();
    let mut i: usize = 0;
    while i < entries.len()
        invariant
            i <= entries@.len(),
            override_pairs(blocks@) =~= entries@.take(i as int),
        decreases entries@.len() - i,
    {
        let ghost before = override_pairs(blocks@);
        let (position, block): (BlockPos, BlockState) = entries[i];
        blocks.push(SavedBlockOverride { position, block });
        proof {
            assert(override_pairs(blocks@) =~= before.push((position, block)));
            assert(entries@.take(i + 1) =~= entries@.take(i as int).push(entries@[i as int]));
        }
        i = i + 1;
    }
    proof {
        assert(entries@.take(i as int) =~= entries@);
        pairs_ascend(blocks@);
    }
    blocks
}

fn add_overrides(map: &mut PositionMap<BlockState>, blocks: &Vec<SavedBlockOverride>)
    requires
        old(map).wf(),
    ensures
        final(map).wf(),
        final(map)@ == with_overrides(old(map)@, blocks@, blocks@.len() as int),
{
    let ghost start = map@;
    let mut i: usize = 0;
    while i < blocks.len()
        invariant
            i <= blocks@.len(),
            map.wf(),
            map@ == with_overrides(start, blocks@, i as int),
        decreases blocks@.len() - i,
    {
        map.insert(blocks[i].position, blocks[i].block);
        i = i + 1;
    }
}

/// The map with the first `n` overrides of a list put on top.
pub open spec fn with_overrides(
    map: Map<BlockPos, BlockState>,
    blocks: Seq<SavedBlockOverride>,
    n: int,
) -> Map<BlockPos, BlockState>
    decreases n,
{
    if n <= 0 {
        map
    } else {
        with_overrides(map, blocks, n - 1).insert(blocks[n - 1].position, blocks[n - 1].block)
    }
}

proof fn from_empty(blocks: Seq<SavedBlockOverride>, n: int)
    ensures
        with_overrides(Map::empty(), blocks, n) == override_map(blocks, n),
    decreases n,
{
    if n > 0 {
        from_empty(blocks, n - 1);
    }
}

/// Applies edits, in their order, to a list of overrides.
pub fn apply_block_edits_to_overrides(blocks: &mut Vec<SavedBlockOverride>, edits: &Vec<BlockEdit>)
    ensures
        lists_overrides(
            final(blocks)@,
            edited_map(overrides_of(old(blocks)@), edits@, edits@.len() as int),
        ),
{
    let mut by_position: PositionMap<BlockState> = PositionMap::new();
    add_overrides(&mut by_position, blocks);
    proof {
        from_empty(blocks@, blocks@.len() as int);
    }
    let ghost start = by_position@;
    let mut i: usize = 0;
    while i < edits.len()
        invariant
            i <= edits@.len(),
            by_position.wf(),
            by_position@ == edited_map(start, edits@, i as int),
        decreases edits@.len() - i,
    {
        let edit = edits[i];
        if edit.needs_override() {
            by_position.insert(edit.position, edit.block);
        } else {
            by_position.remove(edit.position);
        }
        i = i + 1;
    }
    *blocks = overrides_in_order(by_position);
}

/// True iff the edit is one of the column, inside the world, and knows the base world's block.
pub open spec fn column_edit(column: ChunkColumn, edit: BlockEdit) -> bool {
    &&& column_of(edit.position.coords()) == column.coords()
    &&& world_bounds().has(edit.position.coords())
    &&& edit.base_block == base_block(edit.position.coords())
}

/// True iff every override of the map is a real difference in the column.
pub open spec fn real_overrides(column: ChunkColumn, overrides: Map<BlockPos, BlockState>) -> bool {
    forall|p: BlockPos| #[trigger]
        overrides.contains_key(p) ==> real_override(
            column,
            SavedBlockOverride { position: p, block: overrides[p] },
        )
}

/// Edits of a column keep its overrides real: a block edited back to the base world is no longer
/// an override, and one taken out of the base world is.
pub proof fn edits_keep_overrides_real(
    column: ChunkColumn,
    overrides: Map<BlockPos, BlockState>,
    edits: Seq<BlockEdit>,
    n: int,
)
    requires
        0 <= n <= edits.len(),
        real_overrides(column, overrides),
        forall|i: int| 0 <= i < edits.len() ==> column_edit(column, #[trigger] edits[i]),
    ensures
        real_overrides(column, edited_map(overrides, edits, n)),
        n > 0 ==> (edited_map(overrides, edits, n).contains_key(edits[n - 1].position) <==> edits[n
            - 1].block != base_block(edits[n - 1].position.coords())),
    decreases n,
{
    if n > 0 {
        edits_keep_overrides_real(column, overrides, edits, n - 1);
        assert(column_edit(column, edits[n - 1]));
    }
}

/// An ordered list of real overrides of a column is what a saved column consists of.
pub proof fn real_list_is_a_column(
    column: ChunkColumn,
    blocks: Seq<SavedBlockOverride>,
    overrides: Map<BlockPos, BlockState>,
)
    requires
        lists_overrides(blocks, overrides),
        real_overrides(column, overrides),
    ensures
        column_overrides(column, blocks),
{
    pairs_ascend(blocks);
    let pairs = override_pairs(blocks);
    assert forall|i: int| 0 <= i < blocks.len() implies real_override(column, #[trigger] blocks[i]) by {
        entry_map_at(pairs, i);
        assert(pairs[i] == (blocks[i].position, blocks[i].block));
        assert(overrides.contains_key(blocks[i].position));
    }
}

/// What is written to a column's place in its region file.
pub enum ChunkWrite {
    /// Nothing is left to save: the chunk is removed.
    Remove,
    Write(AnvilChunk),
}

/// True iff the write puts the edited overrides of a column in its region file. Where the overrides
/// and the edits belong to the column, reading the written chunk gives back the edited overrides.
pub open spec fn is_column_write(
    column: ChunkColumn,
    saved: Seq<SavedBlockOverride>,
    edits: Seq<BlockEdit>,
    write: ChunkWrite,
) -> bool {
    exists|blocks: Seq<SavedBlockOverride>| #[trigger]
        lists_overrides(blocks, edited_map(overrides_of(saved), edits, edits.len() as int))
            && match write {
            ChunkWrite::Remove => blocks.len() == 0,
            ChunkWrite::Write(chunk) => blocks.len() > 0 && chunk_holds(
                chunk,
                column,
                overrides_of(blocks),
            ) && (column_overrides(column, blocks) ==> chunk_overrides(column, chunk) == Ok::<
                Seq<SavedBlockOverride>,
                Seq<char>,
            >(blocks)),
        }
}

/// The write that puts the edited overrides of a column in its region file.
pub fn edit_saved_column(
    column: ChunkColumn,
    saved: Vec<SavedBlockOverride>,
    edits: &Vec<BlockEdit>,
) -> (r: PersistenceResult<ChunkWrite>)
    requires
        column_fits(column),
        forall|i: int| 0 <= i < saved@.len() ==> valid_state((#[trigger] saved@[i]).block),
        forall|i: int| 0 <= i < edits@.len() ==> valid_state((#[trigger] edits@[i]).block),
    ensures
        r matches Ok(write) && is_column_write(column, saved@, edits@, write),
{
    let ghost before = saved@;
    let mut blocks = saved;
    apply_block_edits_to_overrides(&mut blocks, edits);
    let ghost after = edited_map(overrides_of(before), edits@, edits@.len() as int);
    proof {
        map_values_valid(before, before.len() as int);
        edited_values_valid(overrides_of(before), edits@, edits@.len() as int);
        pairs_ascend(blocks@);
        let pairs = override_pairs(blocks@);
        assert forall|i: int| 0 <= i < blocks@.len() implies valid_state(
            (#[trigger] blocks@[i]).block,
        ) by {
            entry_map_at(pairs, i);
            assert(pairs[i] == (blocks@[i].position, blocks@[i].block));
            assert(after.contains_key(blocks@[i].position));
        }
        assert(lists_overrides(blocks@, after));
    }
    if blocks.len() == 0 {
        return Ok(ChunkWrite::Remove);
    }
    match encode_anvil_chunk(column, &blocks) {
        Ok(chunk) => Ok(ChunkWrite::Write(chunk)),
        Err(error) => Err(error),
    }
}

proof fn map_values_valid(blocks: Seq<SavedBlockOverride>, n: int)
    requires
        0 <= n <= blocks.len(),
        forall|i: int| 0 <= i < blocks.len() ==> valid_state((#[trigger] blocks[i]).block),
    ensures
        forall|p: BlockPos| #[trigger]
            override_map(blocks, n).contains_key(p) ==> valid_state(override_map(blocks, n)[p]),
    decreases n,
{
    if n > 0 {
        map_values_valid(blocks, n - 1);
        let before = override_map(blocks, n - 1);
        let last = blocks[n - 1];
        assert forall|p: BlockPos| #[trigger] override_map(blocks, n).contains_key(p) implies valid_state(
            override_map(blocks, n)[p],
        ) by {
            if p != last.position {
                assert(before.contains_key(p));
            }
        }
    }
}

proof fn edited_values_valid(overrides: Map<BlockPos, BlockState>, edits: Seq<BlockEdit>, n: int)
    requires
        0 <= n <= edits.len(),
        forall|p: BlockPos| #[trigger] overrides.contains_key(p) ==> valid_state(overrides[p]),
        forall|i: int| 0 <= i < edits.len() ==> valid_state((#[trigger] edits[i]).block),
    ensures
        forall|p: BlockPos| #[trigger]
            edited_map(overrides, edits, n).contains_key(p) ==> valid_state(
                edited_map(overrides, edits, n)[p],
            ),
    decreases n,
{
    if n > 0 {
        edited_values_valid(overrides, edits, n - 1);
        let before = edited_map(overrides, edits, n - 1);
        let last = edits[n - 1];
        assert forall|p: BlockPos| #[trigger]
            edited_map(overrides, edits, n).contains_key(p) implies valid_state(
            edited_map(overrides, edits, n)[p],
        ) by {
            if p != last.position {
                assert(before.contains_key(p));
            }
        }
    }
}

/// The stored chunk of a column with these overrides; without any there is none.
pub fn stored_chunk(column: ChunkColumn, blocks: Vec<SavedBlockOverride>) -> (r: Option<
    StoredChunk,
>)
    ensures
        r is None <==> blocks@.len() == 0,
        r matches Some(chunk) ==> chunk.column == column && chunk.blocks@ == blocks@,
{
    if blocks.len() == 0 {
        None
    } else {
        Some(StoredChunk { column, blocks })
    }
}

/// The overrides of a stored chunk.
pub open spec fn chunk_blocks(chunk: Option<StoredChunk>) -> Seq<SavedBlockOverride> {
    match chunk {
        Some(chunk) => chunk.blocks@,
        None => seq![],
    }
}

/// What is stored of a column: the region file's overrides with the database's on top.
pub fn merge_stored_chunks(
    column: ChunkColumn,
    anvil: Option<StoredChunk>,
    sqlite: Option<StoredChunk>,
) -> (r: Option<StoredChunk>)
    ensures
        r is None <==> anvil is None && sqlite is None,
        r matches Some(chunk) ==> chunk.column == column && lists_overrides(
            chunk.blocks@,
            with_overrides(
                overrides_of(chunk_blocks(anvil)),
                chunk_blocks(sqlite),
                chunk_blocks(sqlite).len() as int,
            ),
        ),
{
    if anvil.is_none() && sqlite.is_none() {
        return None;
    }
    let mut merged: PositionMap<BlockState> = PositionMap::new();
    if let Some(chunk) = &anvil {
        add_overrides(&mut merged, &chunk.blocks);
    }
    proof {
        from_empty(chunk_blocks(anvil), chunk_blocks(anvil).len() as int);
        assert(merged@ =~= overrides_of(chunk_blocks(anvil)));
    }
    if let Some(chunk) = &sqlite {
        add_overrides(&mut merged, &chunk.blocks);
    }
    Some(StoredChunk { column, blocks: overrides_in_order(merged) })
}

// ---- edits by column and region ----

/// The edits of one column, with the region that the column belongs to.
pub struct ColumnEdits {
    pub region: (i32, i32),
    pub column: ChunkColumn,
    pub edits: Vec<BlockEdit>,
}

/// The order in which columns are written: region by region, and in a region by x, then by z.
pub open spec fn column_before(a: ChunkColumn, b: ChunkColumn) -> bool {
    let ra = (a.x as int / 32, a.z as int / 32);
    let rb = (b.x as int / 32, b.z as int / 32);
    if ra.0 != rb.0 {
        ra.0 < rb.0
    } else if ra.1 != rb.1 {
        ra.1 < rb.1
    } else if a.x != b.x {
        a.x < b.x
    } else {
        a.z < b.z
    }
}

fn is_column_before(a: ChunkColumn, b: ChunkColumn) -> (r: bool)
    ensures
        r == column_before(a, b),
{
    let ra = a.region_coords(REGION_SIZE_CHUNKS);
    let rb = b.region_coords(REGION_SIZE_CHUNKS);
    if ra.0 != rb.0 {
        ra.0 < rb.0
    } else if ra.1 != rb.1 {
        ra.1 < rb.1
    } else if a.x != b.x {
        a.x < b.x
    } else {
        a.z < b.z
    }
}

/// The edits among the first `n` that belong to the column, in their order.
pub open spec fn edits_of_column(
    edits: Seq<BlockEdit>,
    column: ChunkColumn,
    n: int,
) -> Seq<BlockEdit>
    decreases n,
{
    if n <= 0 {
        seq![]
    } else {
        let before = edits_of_column(edits, column, n - 1);
        if column_of(edits[n - 1].position.coords()) == column.coords() {
            before.push(edits[n - 1])
        } else {
            before
        }
    }
}

/// True iff the groups hold the first `n` edits: a group for every column that has one, in
/// writing order, with the column's edits in their order.
pub open spec fn groups_edits(groups: Seq<ColumnEdits>, edits: Seq<BlockEdit>, n: int) -> bool {
    &&& forall|i: int, j: int|
        #![trigger groups[i], groups[j]]
        0 <= i < j < groups.len() ==> column_before(groups[i].column, groups[j].column)
    &&& forall|k: int|
        #![trigger groups[k]]
        0 <= k < groups.len() ==> {
            &&& groups[k].region.0 == groups[k].column.x as int / 32
            &&& groups[k].region.1 == groups[k].column.z as int / 32
            &&& groups[k].edits@ == edits_of_column(edits, groups[k].column, n)
            &&& groups[k].edits@.len() > 0
        }
    &&& forall|i: int|
        0 <= i < n ==> has_group(groups, column_of((#[trigger] edits[i]).position.coords()))
}

/// True iff some group is of that column.
pub open spec fn has_group(groups: Seq<ColumnEdits>, column: (int, int)) -> bool {
    exists|k: int| 0 <= k < groups.len() && (#[trigger] groups[k]).column.coords() == column
}

/// Sorts edits into groups by column, in the order in which the columns are written.
pub fn group_edits_by_column(edits: &Vec<BlockEdit>) -> (r: Vec<ColumnEdits>)
    ensures
        groups_edits(r@, edits@, edits@.len() as int),
{
    let mut groups: Vec<ColumnEdits> = Vec::new();
    let mut i: usize = 0;
    while i < edits.len()
        invariant
            i <= edits@.len(),
            groups_edits(groups@, edits@, i as int),
        decreases edits@.len() - i,
    {
        add_to_groups(&mut groups, edits, i);
        i = i + 1;
    }
    groups
}

fn add_to_groups(groups: &mut Vec<ColumnEdits>, edits: &Vec<BlockEdit>, i: usize)
    requires
        i < edits@.len(),
        groups_edits(old(groups)@, edits@, i as int),
    ensures
        groups_edits(final(groups)@, edits@, i + 1),
{
    let edit = edits[i];
    let column = ChunkColumn::from_block_pos(edit.position);
    let ghost before = groups@;
    let mut at: usize = 0;
    while at < groups.len() && is_column_before(groups[at].column, column)
        invariant
            at <= groups@.len(),
            groups@ == before,
            forall|k: int| 0 <= k < at ==> column_before((#[trigger] before[k]).column, column),
        decreases groups@.len() - at,
    {
        at = at + 1;
    }
    let found = if at < groups.len() {
        let here = groups[at].column;
        here == column
    } else {
        false
    };
    if found {
        let group = groups.remove(at);
        let mut list = group.edits;
        list.push(edit);
        let ghost whole = list@;
        groups.insert(at, ColumnEdits { region: group.region, column, edits: list });
        proof {
            let after = groups@;
            assert(after.len() == before.len());
            assert forall|k: int| 0 <= k < after.len() && k != at implies after[k] == before[k] by {}
            assert(after[at as int].column == before[at as int].column);
            assert(after[at as int].region == before[at as int].region);
            assert(after[at as int].edits@ == before[at as int].edits@.push(edit));
            groups_after_push(before, after, edits@, i as int, at as int);
        }
    } else {
        let mut list: Vec<BlockEdit> = Vec::new();
        list.push(edit);
        groups.insert(
            at,
            ColumnEdits {
                region: column.region_coords(REGION_SIZE_CHUNKS),
                column,
                edits: list,
            },
        );
        proof {
            assert(list@ =~= seq![edit]);
            groups_after_insert(before, groups@, edits@, i as int, at as int, column);
        }
    }
}

proof fn other_columns_keep_their_edits(edits: Seq<BlockEdit>, column: ChunkColumn, i: int)
    requires
        0 <= i < edits.len(),
    ensures
        column_of(edits[i].position.coords()) != column.coords() ==> edits_of_column(
            edits,
            column,
            i + 1,
        ) == edits_of_column(edits, column, i),
        column_of(edits[i].position.coords()) == column.coords() ==> edits_of_column(
            edits,
            column,
            i + 1,
        ) == edits_of_column(edits, column, i).push(edits[i]),
{
}

proof fn groups_after_push(
    before: Seq<ColumnEdits>,
    after: Seq<ColumnEdits>,
    edits: Seq<BlockEdit>,
    i: int,
    at: int,
)
    requires
        0 <= i < edits.len(),
        groups_edits(before, edits, i),
        0 <= at < before.len(),
        after.len() == before.len(),
        forall|k: int| 0 <= k < after.len() && k != at ==> #[trigger] after[k] == before[k],
        after[at].column == before[at].column,
        after[at].region == before[at].region,
        after[at].column.coords() == column_of(edits[i].position.coords()),
        after[at].edits@ == before[at].edits@.push(edits[i]),
    ensures
        groups_edits(after, edits, i + 1),
{
    assert forall|m: int, n: int|
        #![trigger after[m], after[n]]
        0 <= m < n < after.len() implies column_before(after[m].column, after[n].column) by {
        assert(column_before(before[m].column, before[n].column));
    }
    assert forall|k: int|
        #![trigger after[k]]
        0 <= k < after.len() implies {
        &&& after[k].region.0 == after[k].column.x as int / 32
        &&& after[k].region.1 == after[k].column.z as int / 32
        &&& after[k].edits@ == edits_of_column(edits, after[k].column, i + 1)
        &&& after[k].edits@.len() > 0
    } by {
        assert(before[k].edits@ == edits_of_column(edits, before[k].column, i));
        other_columns_keep_their_edits(edits, after[k].column, i);
        if k != at {
            if k < at {
                assert(column_before(before[k].column, before[at].column));
            } else {
                assert(column_before(before[at].column, before[k].column));
            }
        }
    }
    assert forall|j: int| 0 <= j < i + 1 implies has_group(
        after,
        column_of((#[trigger] edits[j]).position.coords()),
    ) by {
        if j < i {
            let column = column_of(edits[j].position.coords());
            assert(has_group(before, column));
            let k = choose|k: int|
                0 <= k < before.len() && (#[trigger] before[k]).column.coords() == column;
            assert(after[k].column == before[k].column);
        } else {
            assert(after[at].column.coords() == column_of(edits[j].position.coords()));
        }
    }
}

proof fn groups_after_insert(
    before: Seq<ColumnEdits>,
    after: Seq<ColumnEdits>,
    edits: Seq<BlockEdit>,
    i: int,
    at: int,
    column: ChunkColumn,
)
    requires
        0 <= i < edits.len(),
        groups_edits(before, edits, i),
        0 <= at <= before.len(),
        column.coords() == column_of(edits[i].position.coords()),
        forall|k: int| 0 <= k < at ==> column_before((#[trigger] before[k]).column, column),
        at < before.len() ==> !column_before(before[at].column, column) && before[at].column
            != column,
        after.len() == before.len() + 1,
        after == before.insert(at, after[at]),
        after[at].column == column,
        after[at].region.0 == column.x as int / 32,
        after[at].region.1 == column.z as int / 32,
        after[at].edits@ == seq![edits[i]],
    ensures
        groups_edits(after, edits, i + 1),
{
    assert forall|k: int| at <= k < before.len() implies column_before(
        column,
        (#[trigger] before[k]).column,
    ) by {
        assert(column_before(column, before[at].column));
        if k > at {
            assert(column_before(before[at].column, before[k].column));
        }
    }
    assert forall|m: int, n: int|
        #![trigger after[m], after[n]]
        0 <= m < n < after.len() implies column_before(after[m].column, after[n].column) by {
        let bm = if m < at { m } else { m - 1 };
        let bn = if n < at { n } else { n - 1 };
        if m == at {
            assert(after[n] == before[bn]);
        } else if n == at {
            assert(after[m] == before[bm]);
        } else {
            assert(after[m] == before[bm] && after[n] == before[bn]);
        }
    }
    no_edits_yet(before, edits, i, column, at);
    assert forall|k: int|
        #![trigger after[k]]
        0 <= k < after.len() implies {
        &&& after[k].region.0 == after[k].column.x as int / 32
        &&& after[k].region.1 == after[k].column.z as int / 32
        &&& after[k].edits@ == edits_of_column(edits, after[k].column, i + 1)
        &&& after[k].edits@.len() > 0
    } by {
        other_columns_keep_their_edits(edits, after[k].column, i);
        if k == at {
            assert(edits_of_column(edits, column, i + 1) =~= seq![edits[i]]);
        } else {
            let b = if k < at { k } else { k - 1 };
            assert(after[k] == before[b]);
            assert(before[b].column != column);
        }
    }
    assert forall|j: int| 0 <= j < i + 1 implies has_group(
        after,
        column_of((#[trigger] edits[j]).position.coords()),
    ) by {
        if j < i {
            let wanted = column_of(edits[j].position.coords());
            assert(has_group(before, wanted));
            let k = choose|k: int|
                0 <= k < before.len() && (#[trigger] before[k]).column.coords() == wanted;
            assert(after[if k < at { k } else { k + 1 }] == before[k]);
        } else {
            assert(after[at].column.coords() == column_of(edits[j].position.coords()));
        }
    }
}

proof fn no_edits_yet(
    groups: Seq<ColumnEdits>,
    edits: Seq<BlockEdit>,
    n: int,
    column: ChunkColumn,
    at: int,
)
    requires
        groups_edits(groups, edits, n),
        0 <= n <= edits.len(),
        forall|k: int| 0 <= k < groups.len() ==> (#[trigger] groups[k]).column != column,
    ensures
        edits_of_column(edits, column, n) == Seq::<BlockEdit>::empty(),
{
    assert forall|j: int| 0 <= j < n implies column_of((#[trigger] edits[j]).position.coords())
        != column.coords() by {
        let wanted = column_of(edits[j].position.coords());
        assert(has_group(groups, wanted));
        let k = choose|k: int|
            0 <= k < groups.len() && (#[trigger] groups[k]).column.coords() == wanted;
        assert(groups[k].column != column);
    }
    empty_column(edits, column, n);
}

proof fn empty_column(edits: Seq<BlockEdit>, column: ChunkColumn, n: int)
    requires
        0 <= n <= edits.len(),
        forall|j: int|
            0 <= j < n ==> column_of((#[trigger] edits[j]).position.coords()) != column.coords(),
    ensures
        edits_of_column(edits, column, n) == Seq::<BlockEdit>::empty(),
    decreases n,
{
    if n > 0 {
        empty_column(edits, column, n - 1);
    }
}

// ---- flushing ----

/// What is logged of an edit, and the column that it touches.
#[derive(Debug, Clone, Copy, PartialEq, Eq)]
pub struct LogRow {
    pub command_kind: &'static str,
    pub position: BlockPos,
    pub raw: i64,
    /// The column that becomes dirty.
    pub column: ChunkColumn,
    /// What becomes of the overlay at the position: the region file holds the edit by now.
    pub overlay: OverrideAction,
}

/// The row that is logged for an edit.
pub fn log_row(edit: BlockEdit) -> (r: LogRow)
    ensures
        r.command_kind@ == match edit.command_kind {
            PersistedCommandKind::SetBlock => "set_block"@,
            PersistedCommandKind::RemoveBlock => "remove_block"@,
        },
        r.position == edit.position,
        r.raw == edit.block,
        r.column.coords() == column_of(edit.position.coords()),
        r.overlay == OverrideAction::Delete,
{
    LogRow {
        command_kind: edit.command_kind.as_str(),
        position: edit.position,
        raw: edit.block as i64,
        column: ChunkColumn::from_block_pos(edit.position),
        overlay: OverrideAction::Delete,
    }
}

/// The overlay after the first `n` edits were flushed: each takes its position out of it.
pub open spec fn cleared_overlay(
    overlay: Map<BlockPos, BlockState>,
    edits: Seq<BlockEdit>,
    n: int,
) -> Map<BlockPos, BlockState>
    decreases n,
{
    if n <= 0 {
        overlay
    } else {
        cleared_overlay(overlay, edits, n - 1).remove(edits[n - 1].position)
    }
}

/// What a column's region file and the overlay on top of it amount to.
pub open spec fn overlaid(
    saved: Map<BlockPos, BlockState>,
    overlay: Map<BlockPos, BlockState>,
) -> Map<BlockPos, BlockState> {
    saved.union_prefer_right(overlay)
}

/// Merging a list over a map is laying the list's overrides on top.
pub proof fn merging_lays_on_top(
    saved: Map<BlockPos, BlockState>,
    blocks: Seq<SavedBlockOverride>,
    n: int,
)
    requires
        0 <= n <= blocks.len(),
    ensures
        with_overrides(saved, blocks, n) == overlaid(saved, override_map(blocks, n)),
    decreases n,
{
    if n > 0 {
        merging_lays_on_top(saved, blocks, n - 1);
    }
    assert(with_overrides(saved, blocks, n) =~= overlaid(saved, override_map(blocks, n)));
}

/// Edits survive a restart: once they are flushed, a position shows the block of its last edit,
/// whatever a build had laid over it, and every other position shows what it showed before.
pub proof fn flushed_edits_are_loaded(
    saved: Map<BlockPos, BlockState>,
    overlay: Map<BlockPos, BlockState>,
    edits: Seq<BlockEdit>,
    n: int,
    p: BlockPos,
)
    requires
        0 <= n <= edits.len(),
        forall|i: int|
            0 <= i < edits.len() ==> (#[trigger] edits[i]).base_block == base_block(
                edits[i].position.coords(),
            ),
    ensures
        saved_block(
            overlaid(edited_map(saved, edits, n), cleared_overlay(overlay, edits, n)),
            p,
        ) == match last_edit(edits, n, p) {
            Some(edit) => edit.block,
            None => saved_block(overlaid(saved, overlay), p),
        },
        edited_map(saved, edits, n).contains_key(p) == match last_edit(edits, n, p) {
            Some(edit) => edit.overrides_base(),
            None => saved.contains_key(p),
        },
        cleared_overlay(overlay, edits, n).contains_key(p) == (last_edit(edits, n, p) is None
            && overlay.contains_key(p)),
    decreases n,
{
    if n > 0 {
        flushed_edits_are_loaded(saved, overlay, edits, n - 1, p);
        assert(edits[n - 1].base_block == base_block(edits[n - 1].position.coords()));
    }
}

/// The last of the first `n` edits at a position.
pub open spec fn last_edit(edits: Seq<BlockEdit>, n: int, p: BlockPos) -> Option<BlockEdit>
    decreases n,
{
    if n <= 0 {
        None
    } else if edits[n - 1].position == p {
        Some(edits[n - 1])
    } else {
        last_edit(edits, n - 1, p)
    }
}

/// What a region file holds of a column after a write: no chunk, or what is read of the chunk.
pub open spec fn holds_after(
    column: ChunkColumn,
    write: ChunkWrite,
    blocks: Seq<SavedBlockOverride>,
) -> bool {
    match write {
        ChunkWrite::Remove => blocks.len() == 0,
        ChunkWrite::Write(chunk) => chunk_overrides(column, chunk) == Ok::<
            Seq<SavedBlockOverride>,
            Seq<char>,
        >(blocks),
    }
}

/// Flushing loses nothing: a column is read back from its region file with exactly the edited
/// overrides, and laid under what is left of the overlay, a load shows at each position the block of
/// its last edit, or what it showed before.
pub proof fn flushed_column_is_loaded(
    column: ChunkColumn,
    saved: Seq<SavedBlockOverride>,
    edits: Seq<BlockEdit>,
    write: ChunkWrite,
    blocks: Seq<SavedBlockOverride>,
    overlay: Map<BlockPos, BlockState>,
)
    requires
        real_overrides(column, overrides_of(saved)),
        forall|i: int| 0 <= i < edits.len() ==> column_edit(column, #[trigger] edits[i]),
        is_column_write(column, saved, edits, write),
        holds_after(column, write, blocks),
    ensures
        lists_overrides(blocks, edited_map(overrides_of(saved), edits, edits.len() as int)),
        forall|p: BlockPos| #[trigger]
            saved_block(
                overlaid(
                    overrides_of(blocks),
                    cleared_overlay(overlay, edits, edits.len() as int),
                ),
                p,
            ) == match last_edit(edits, edits.len() as int, p) {
                Some(edit) => edit.block,
                None => saved_block(overlaid(overrides_of(saved), overlay), p),
            },
{
    let n = edits.len() as int;
    let edited = edited_map(overrides_of(saved), edits, n);
    edits_keep_overrides_real(column, overrides_of(saved), edits, n);
    let written = choose|written: Seq<SavedBlockOverride>| #[trigger]
        lists_overrides(written, edited) && match write {
            ChunkWrite::Remove => written.len() == 0,
            ChunkWrite::Write(chunk) => written.len() > 0 && chunk_holds(
                chunk,
                column,
                overrides_of(written),
            ) && (column_overrides(column, written) ==> chunk_overrides(column, chunk) == Ok::<
                Seq<SavedBlockOverride>,
                Seq<char>,
            >(written)),
        };
    real_list_is_a_column(column, written, edited);
    assert(blocks =~= written);
    ordered_list_is_its_map(blocks);
    assert(overrides_of(blocks) =~= edited);
    assert forall|p: BlockPos| #[trigger]
        saved_block(overlaid(overrides_of(blocks), cleared_overlay(overlay, edits, n)), p)
            == match last_edit(edits, n, p) {
            Some(edit) => edit.block,
            None => saved_block(overlaid(overrides_of(saved), overlay), p),
        } by {
        assert forall|i: int| 0 <= i < n implies (#[trigger] edits[i]).base_block == base_block(
            edits[i].position.coords(),
        ) by {
            assert(column_edit(column, edits[i]));
        }
        flushed_edits_are_loaded(overrides_of(saved), overlay, edits, n, p);
    }
}

} // verus!
