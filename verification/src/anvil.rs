//! The Anvil form of a chunk column: sections of palette entries and packed indices.

use vstd::prelude::*;
use vstd::string::StringExecFns;
use crate::block::{column_of, valid_state, BlockPos, BlockState, ChunkColumn};
use crate::packing::{
    bit_width_is_least, entry_bits, indices_fit, pack_palette_indices, packed,
    packed_entry_bits, packed_indices_come_back, palette_bits, unpack_index, unpacked,
};
use crate::persistence::{invalid_chunk, PersistenceError, PersistenceResult, SavedBlockOverride};
use crate::position_map::{is_pos_less, pos_less, PositionMap};
use crate::registry::{
    agrees, default_state, is_property, is_property_value, kind_default_state, kind_of,
    known_property, known_value, property_names, property_value, same_kind, set_state_property,
    sets_property, state_kind, state_properties, state_property, with_property,
};
use crate::text::{
    decimal, decimal_nat, is_text_less, push_i64, push_u64, strip_prefix_or_all, text_less,
    text_less_irreflexive, text_less_total, text_less_transitive, without_prefix,
};
use crate::world_command::{base_block, base_block_or_air, world_bounds};

verus! {

pub const ANVIL_DATA_VERSION_1_20_1: i32 = 3465;

pub const ANVIL_CHUNK_STATUS: &'static str = "minecraft:full";

pub const ANVIL_DEFAULT_BIOME: &'static str = "minecraft:plains";

/// One entry of a section's block palette.
pub struct AnvilPaletteEntry {
    pub name: String,
    /// Property names and values, in ascending order of the names.
    pub properties: Option<Vec<(String, String)>>,
}

pub struct AnvilBlockStates {
    pub palette: Vec<AnvilPaletteEntry>,
    pub data: Option<Vec<u64>>,
}

pub struct AnvilBiomes {
    pub palette: Vec<String>,
    pub data: Option<Vec<u64>>,
}

pub struct AnvilSection {
    pub y: i8,
    pub block_states: AnvilBlockStates,
    pub biomes: AnvilBiomes,
}

/// A chunk column as it stands in a region file.
pub struct AnvilChunk {
    pub data_version: i32,
    pub x_pos: i32,
    pub y_pos: i32,
    pub z_pos: i32,
    pub status: String,
    pub last_update: i64,
    pub inhabited_time: i64,
    pub sections: Vec<AnvilSection>,
}

/// What a palette entry says.
pub struct EntryView {
    pub name: Seq<char>,
    pub properties: Option<Seq<(Seq<char>, Seq<char>)>>,
}

/// The texts of a list of pairs.
pub open spec fn pair_texts(pairs: Seq<(String, String)>) -> Seq<(Seq<char>, Seq<char>)> {
    pairs.map_values(|pair: (String, String)| (pair.0@, pair.1@))
}

impl View for AnvilPaletteEntry {
    type V = EntryView;

    open spec fn view(&self) -> EntryView {
        EntryView {
            name: self.name@,
            properties: match self.properties {
                Some(pairs) => Some(pair_texts(pairs@)),
                None => None,
            },
        }
    }
}

// ---- palette entries ----

/// The properties that an entry lists.
pub open spec fn entry_properties(entry: EntryView) -> Seq<(Seq<char>, Seq<char>)> {
    match entry.properties {
        Some(pairs) => pairs,
        None => seq![],
    }
}

/// `state` with the first `n` of the properties set; an unknown name or value is an error.
pub open spec fn with_properties(
    entry_name: Seq<char>,
    state: u16,
    pairs: Seq<(Seq<char>, Seq<char>)>,
    n: nat,
) -> Result<u16, Seq<char>>
    decreases n,
{
    if n == 0 {
        Ok(state)
    } else {
        let (name, value) = pairs[n - 1];
        match with_properties(entry_name, state, pairs, (n - 1) as nat) {
            Err(message) => Err(message),
            Ok(before) => if !known_property(name) {
                Err("unknown block property "@ + name + " on "@ + entry_name)
            } else if !known_value(value) {
                Err("unknown block property value "@ + value + " on "@ + entry_name)
            } else {
                Ok(with_property(before, name, value))
            },
        }
    }
}

/// The block state that an entry stands for, or why it stands for none.
pub open spec fn entry_state(entry: EntryView) -> Result<u16, Seq<char>> {
    match default_state(without_prefix(entry.name, "minecraft:"@)) {
        None => Err("unknown block kind "@ + entry.name),
        Some(state) => with_properties(
            entry.name,
            state,
            entry_properties(entry),
            entry_properties(entry).len(),
        ),
    }
}

/// True iff the names of the pairs ascend strictly.
pub open spec fn names_ascend(pairs: Seq<(Seq<char>, Seq<char>)>) -> bool {
    forall|i: int, j: int|
        #![trigger pairs[i], pairs[j]]
        0 <= i < j < pairs.len() ==> text_less(pairs[i].0, pairs[j].0)
}

/// True iff the entry writes the state `block`: its kind, and each of its properties with the
/// value that it has there, in ascending order of the names.
pub open spec fn writes_state(entry: EntryView, block: BlockState) -> bool {
    &&& entry.name == "minecraft:"@ + kind_of(block)
    &&& entry.properties is None <==> property_names(block).len() == 0
    &&& names_ascend(entry_properties(entry))
    &&& entry_properties(entry).len() == property_names(block).len()
    &&& forall|i: int|
        #![trigger entry_properties(entry)[i]]
        0 <= i < entry_properties(entry).len() ==> property_names(block).contains(
            entry_properties(entry)[i].0,
        ) && property_value(block, entry_properties(entry)[i].0) == Some(
            entry_properties(entry)[i].1,
        )
}

/// Puts a pair in its place among pairs whose names ascend.
fn insert_property(pairs: &mut Vec<(String, String)>, name: String, value: String)
    requires
        names_ascend(pair_texts(old(pairs)@)),
        forall|i: int| 0 <= i < old(pairs)@.len() ==> (#[trigger] old(pairs)@[i]).0@ != name@,
    ensures
        names_ascend(pair_texts(final(pairs)@)),
        exists|at: int|
            0 <= at <= old(pairs)@.len() && final(pairs)@ == #[trigger] old(pairs)@.insert(
                at,
                (name, value),
            ),
{
    let ghost before = pairs@;
    let mut at: usize = 0;
    while at < pairs.len() && is_text_less(pairs[at].0.as_str(), name.as_str())
        invariant
            at <= pairs@.len(),
            pairs@ == before,
            forall|i: int| 0 <= i < at ==> text_less((#[trigger] before[i]).0@, name@),
        decreases pairs@.len() - at,
    {
        at = at + 1;
    }
    pairs.insert(at, (name, value));
    proof {
        let after = pairs@;
        assert(after == before.insert(at as int, (name, value)));
        let old_texts = pair_texts(before);
        let new_texts = pair_texts(after);
        assert forall|i: int, j: int|
            #![trigger new_texts[i], new_texts[j]]
            0 <= i < j < new_texts.len() implies text_less(new_texts[i].0, new_texts[j].0) by {
            let bi = if i < at { i } else { i - 1 };
            let bj = if j < at { j } else { j - 1 };
            if i == at {
                assert(new_texts[j] == old_texts[j - 1]);
                assert(before[j - 1].0@ != name@);
                if at < before.len() {
                    assert(before[at as int].0@ != name@);
                    text_less_total(before[at as int].0@, name@);
                    assert(text_less(name@, before[at as int].0@));
                    if j - 1 > at {
                        assert(text_less(old_texts[at as int].0, old_texts[j - 1].0));
                        text_less_transitive(name@, before[at as int].0@, before[j - 1].0@);
                    }
                }
            } else if j == at {
                assert(new_texts[i] == old_texts[i]);
                assert(text_less(before[i].0@, name@));
            } else {
                assert(new_texts[i] == old_texts[bi] && new_texts[j] == old_texts[bj]);
            }
        }
    }
}

proof fn names_are_distinct(pairs: Seq<(Seq<char>, Seq<char>)>)
    requires
        names_ascend(pairs),
    ensures
        forall|i: int, j: int|
            #![trigger pairs[i], pairs[j]]
            0 <= i < pairs.len() && 0 <= j < pairs.len() && i != j ==> pairs[i].0 != pairs[j].0,
{
    assert forall|i: int, j: int|
        #![trigger pairs[i], pairs[j]]
        0 <= i < pairs.len() && 0 <= j < pairs.len() && i != j implies pairs[i].0 != pairs[j].0 by {
        if i < j {
            text_less_irreflexive(pairs[i].0);
        } else {
            text_less_irreflexive(pairs[j].0);
        }
    }
}

spec fn comes_from(texts: Seq<Seq<char>>, n: int, name: Seq<char>) -> bool {
    exists|j: int| 0 <= j < n && #[trigger] texts[j] == name
}

spec fn is_listed(pairs: Seq<(Seq<char>, Seq<char>)>, name: Seq<char>) -> bool {
    exists|k: int| 0 <= k < pairs.len() && (#[trigger] pairs[k]).0 == name
}

/// True iff the pairs hold the first `i` of the block's properties, by name, with their values.
spec fn collected(
    pairs: Seq<(Seq<char>, Seq<char>)>,
    texts: Seq<Seq<char>>,
    block: u16,
    i: int,
) -> bool {
    &&& pairs.len() == i
    &&& names_ascend(pairs)
    &&& forall|k: int|
        #![trigger pairs[k]]
        0 <= k < pairs.len() ==> comes_from(texts, i, pairs[k].0) && property_value(
            block,
            pairs[k].0,
        ) == Some(pairs[k].1) && known_value(pairs[k].1)
    &&& forall|j: int| 0 <= j < i ==> is_listed(pairs, #[trigger] texts[j])
}

proof fn collected_step(
    pairs: Seq<(Seq<char>, Seq<char>)>,
    texts: Seq<Seq<char>>,
    block: u16,
    i: int,
    at: int,
    name: Seq<char>,
    value: Seq<char>,
)
    requires
        collected(pairs, texts, block, i),
        0 <= at <= pairs.len(),
        0 <= i < texts.len(),
        texts[i] == name,
        property_value(block, name) == Some(value),
        known_value(value),
        names_ascend(pairs.insert(at, (name, value))),
    ensures
        collected(pairs.insert(at, (name, value)), texts, block, i + 1),
{
    let after = pairs.insert(at, (name, value));
    assert forall|k: int|
        #![trigger after[k]]
        0 <= k < after.len() implies comes_from(texts, i + 1, after[k].0) && property_value(
        block,
        after[k].0,
    ) == Some(after[k].1) && known_value(after[k].1) by {
        if k == at {
            assert(texts[i] == after[k].0);
        } else {
            let b = if k < at { k } else { k - 1 };
            assert(after[k] == pairs[b]);
            let j = choose|j: int| 0 <= j < i && #[trigger] texts[j] == pairs[b].0;
            assert(texts[j] == after[k].0);
        }
    }
    assert forall|j: int| 0 <= j < i + 1 implies is_listed(after, #[trigger] texts[j]) by {
        if j == i {
            assert(after[at].0 == texts[j]);
        } else {
            assert(is_listed(pairs, texts[j]));
            let b = choose|b: int| 0 <= b < pairs.len() && (#[trigger] pairs[b]).0 == texts[j];
            assert(after[if b < at { b } else { b + 1 }] == pairs[b]);
        }
    }
}

/// The palette entry for a block state. Reading the entry back gives the state.
pub fn anvil_palette_entry_for_block(block: BlockState) -> (r: AnvilPaletteEntry)
    requires
        valid_state(block),
    ensures
        writes_state(r@, block),
        entry_state(r@) == Ok::<u16, Seq<char>>(block),
{
    let kind = state_kind(block);
    let names = state_properties(block);
    let mut pairs: Vec<(String, String)> = Vec::new();
    let mut i: usize = 0;
    let ghost texts = names@.map_values(|name: String| name@);
    while i < names.len()
        invariant
            i <= names@.len(),
            valid_state(block),
            texts == names@.map_values(|name: String| name@),
            collected(pair_texts(pairs@), texts, block, i as int),
            forall|i: int, j: int|
                0 <= i < j < names@.len() ==> (#[trigger] names@[i])@ != (#[trigger] names@[j])@,
            forall|j: int|
                #![trigger names@[j]]
                0 <= j < names@.len() ==> property_value(block, names@[j]@) is Some,
        decreases names@.len() - i,
    {
        let name = names[i].clone();
        let ghost before = pairs@;
        assert(texts[i as int] == name@);
        if let Some(value) = state_property(block, name.as_str()) {
            proof {
                assert forall|k: int| 0 <= k < before.len() implies (#[trigger] before[k]).0@
                    != name@ by {
                    assert(pair_texts(before)[k].0 == before[k].0@);
                    assert(comes_from(texts, i as int, before[k].0@));
                    let j = choose|j: int| 0 <= j < i && #[trigger] texts[j] == before[k].0@;
                    assert(names@[j]@ != names@[i as int]@);
                }
            }
            let ghost pair = (name, value);
            insert_property(&mut pairs, name, value);
            proof {
                let at = choose|at: int|
                    0 <= at <= before.len() && pairs@ == #[trigger] before.insert(at, pair);
                assert(pair_texts(pairs@) =~= pair_texts(before).insert(at, (name@, value@)));
                collected_step(pair_texts(before), texts, block, i as int, at, name@, value@);
            }
        }
        i = i + 1;
    }
    let mut name = "minecraft:".to_owned();
    name.append(kind.as_str());
    let ghost pair_views = pair_texts(pairs@);
    let ghost state = default_state(kind_of(block))->0;
    proof {
        assert(without_prefix(name@, "minecraft:"@) =~= kind_of(block)) by {
            assert(name@.take("minecraft:"@.len() as int) =~= "minecraft:"@);
        }
        names_are_distinct(pair_views);
        // Every pair is known, and setting them all, in whatever order, reaches the state.
        assert forall|k: int|
            #![trigger pair_views[k]]
            0 <= k < pair_views.len() implies known_property(pair_views[k].0) && known_value(
            pair_views[k].1,
        ) && property_names(block).contains(pair_views[k].0) && property_value(
            block,
            pair_views[k].0,
        ) == Some(pair_views[k].1) by {
            assert(comes_from(texts, names@.len() as int, pair_views[k].0));
            let j = choose|j: int| 0 <= j < names@.len() && #[trigger] texts[j] == pair_views[k].0;
            assert(names@[j]@ == texts[j]);
            assert(known_property(names@[j]@));
        }
        assert forall|n: nat| n <= pair_views.len() implies {
            &&& #[trigger] with_properties(name@, state, pair_views, n) matches Ok(s)
            &&& same_kind(s, block)
            &&& forall|k: int|
                0 <= k < n ==> property_value(s, (#[trigger] pair_views[k]).0) == Some(
                    pair_views[k].1,
                )
        } by {
            properties_reach(name@, block, names@, state, pair_views, n);
        }
        let n = pair_views.len();
        let reached = with_properties(name@, state, pair_views, n)->Ok_0;
        assert(with_properties(name@, state, pair_views, n) is Ok);
        assert(agrees(reached, block, names@)) by {
            assert forall|j: int| 0 <= j < names@.len() implies property_value(
                reached,
                (#[trigger] names@[j])@,
            ) == property_value(block, names@[j]@) by {
                assert(texts[j] == names@[j]@);
                assert(is_listed(pair_views, texts[j]));
            }
        }
        assert(reached == block);
    }
    let properties = if pairs.len() == 0 {
        None
    } else {
        Some(pairs)
    };
    let entry = AnvilPaletteEntry { name, properties };
    proof {
        assert(entry_properties(entry@) =~= pair_views);
    }
    entry
}

proof fn properties_reach(
    entry_name: Seq<char>,
    block: u16,
    names: Seq<String>,
    state: u16,
    pairs: Seq<(Seq<char>, Seq<char>)>,
    n: nat,
)
    requires
        same_kind(state, block),
        n <= pairs.len(),
        forall|i: int, j: int|
            #![trigger pairs[i], pairs[j]]
            0 <= i < pairs.len() && 0 <= j < pairs.len() && i != j ==> pairs[i].0 != pairs[j].0,
        forall|k: int|
            #![trigger pairs[k]]
            0 <= k < pairs.len() ==> known_property(pairs[k].0) && known_value(pairs[k].1)
                && property_value(block, pairs[k].0) == Some(pairs[k].1) && exists|j: int|
                0 <= j < names.len() && (#[trigger] names[j])@ == pairs[k].0,
        forall|s: u16, i: int|
            #![trigger with_property(s, names[i]@, property_value(block, names[i]@)->0)]
            (0 <= i < names.len() && same_kind(s, block)) ==> sets_property(
                s,
                with_property(s, names[i]@, property_value(block, names[i]@)->0),
                names[i]@,
                property_value(block, names[i]@),
            ),
    ensures
        with_properties(entry_name, state, pairs, n) matches Ok(s) && same_kind(s, block) && forall|
            k: int,
        |
            0 <= k < n ==> property_value(s, (#[trigger] pairs[k]).0) == Some(pairs[k].1),
    decreases n,
{
    if n > 0 {
        properties_reach(entry_name, block, names, state, pairs, (n - 1) as nat);
        let before = with_properties(entry_name, state, pairs, (n - 1) as nat)->Ok_0;
        let name = pairs[n - 1].0;
        let value = pairs[n - 1].1;
        let j = choose|j: int| 0 <= j < names.len() && (#[trigger] names[j])@ == name;
        assert(names[j]@ == name);
        assert(property_value(block, names[j]@)->0 == value);
        let after = with_property(before, names[j]@, property_value(block, names[j]@)->0);
        assert(sets_property(before, after, name, Some(value)));
        assert forall|k: int| 0 <= k < n implies property_value(after, (#[trigger] pairs[k]).0)
            == Some(pairs[k].1) by {
            if k < n - 1 {
                assert(pairs[k].0 != pairs[n - 1].0);
            }
        }
    }
}

/// The block state that an entry stands for.
pub fn block_state_from_anvil_palette_entry(entry: &AnvilPaletteEntry) -> (r: PersistenceResult<
    BlockState,
>)
    ensures
        match entry_state(entry@) {
            Ok(block) => r == Ok::<BlockState, PersistenceError>(block) && valid_state(block),
            Err(message) => r matches Err(error) && invalid_chunk(error, message),
        },
{
    let name = strip_prefix_or_all(entry.name.as_str(), "minecraft:");
    let mut state: BlockState = match kind_default_state(name.as_str()) {
        None => {
            let mut message = "unknown block kind ".to_owned();
            message.append(entry.name.as_str());
            return Err(PersistenceError::InvalidAnvilChunk(message));
        },
        Some(state) => state,
    };
    let ghost start = state;
    if let Some(properties) = &entry.properties {
        let ghost pairs = pair_texts(properties@);
        let mut i: usize = 0;
        while i < properties.len()
            invariant
                i <= properties@.len(),
                pairs == pair_texts(properties@),
                entry_properties(entry@) == pairs,
                default_state(without_prefix(entry.name@, "minecraft:"@)) == Some(start),
                valid_state(state),
                with_properties(entry.name@, start, pairs, i as nat) == Ok::<u16, Seq<char>>(state),
            decreases properties@.len() - i,
        {
            let name = &properties[i].0;
            let value = &properties[i].1;
            assert(pairs[i as int] == (name@, value@));
            if !is_property(name.as_str()) {
                let mut message = "unknown block property ".to_owned();
                message.append(name.as_str());
                message.append(" on ");
                message.append(entry.name.as_str());
                proof {
                    properties_error(
                        entry.name@,
                        start,
                        pairs,
                        (i + 1) as nat,
                        pairs.len(),
                    );
                }
                return Err(PersistenceError::InvalidAnvilChunk(message));
            }
            if !is_property_value(value.as_str()) {
                let mut message = "unknown block property value ".to_owned();
                message.append(value.as_str());
                message.append(" on ");
                message.append(entry.name.as_str());
                proof {
                    properties_error(
                        entry.name@,
                        start,
                        pairs,
                        (i + 1) as nat,
                        pairs.len(),
                    );
                }
                return Err(PersistenceError::InvalidAnvilChunk(message));
            }
            state = set_state_property(state, name.as_str(), value.as_str());
            i = i + 1;
        }
    }
    Ok(state)
}

proof fn properties_error(
    entry_name: Seq<char>,
    state: u16,
    pairs: Seq<(Seq<char>, Seq<char>)>,
    k: nat,
    n: nat,
)
    requires
        k <= n,
        with_properties(entry_name, state, pairs, k) is Err,
    ensures
        with_properties(entry_name, state, pairs, n) == with_properties(entry_name, state, pairs, k),
    decreases n,
{
    if k < n {
        properties_error(entry_name, state, pairs, k, (n - 1) as nat);
    }
}

// ---- sections ----

/// True iff every block of the column has coordinates that fit in 32 bits.
pub open spec fn column_fits(column: ChunkColumn) -> bool {
    -0x800_0000 <= column.x < 0x800_0000 && -0x800_0000 <= column.z < 0x800_0000
}

/// The position of the block number `i` of a section: x varies fastest, then z, then y.
pub open spec fn cell_position(column: ChunkColumn, section_y: int, i: int) -> BlockPos {
    BlockPos {
        x: (column.x * 16 + i % 16) as i32,
        y: (section_y * 16 + i / 256) as i32,
        z: (column.z * 16 + (i / 16) % 16) as i32,
    }
}

/// The saved block at a position: the override where there is one, else the base world's block.
pub open spec fn saved_block(overrides: Map<BlockPos, BlockState>, p: BlockPos) -> BlockState {
    if overrides.contains_key(p) {
        overrides[p]
    } else {
        base_block(p.coords())
    }
}

/// The blocks of a section.
pub open spec fn section_states(
    column: ChunkColumn,
    section_y: int,
    overrides: Map<BlockPos, BlockState>,
) -> Seq<BlockState> {
    Seq::new(4096, |i: int| saved_block(overrides, cell_position(column, section_y, i)))
}

/// The different states among the first `n`, in the order in which they first occur.
pub open spec fn palette_of(states: Seq<BlockState>, n: int) -> Seq<BlockState>
    decreases n,
{
    if n <= 0 {
        seq![]
    } else {
        let before = palette_of(states, n - 1);
        if before.contains(states[n - 1]) {
            before
        } else {
            before.push(states[n - 1])
        }
    }
}

/// The palette index of every state.
pub open spec fn palette_indices(palette: Seq<BlockState>, states: Seq<BlockState>) -> Seq<usize> {
    Seq::new(states.len(), |i: int| palette.index_of(states[i]) as usize)
}

/// True iff the entries write the states, one for one.
pub open spec fn entries_write(entries: Seq<AnvilPaletteEntry>, states: Seq<BlockState>) -> bool {
    &&& entries.len() == states.len()
    &&& forall|k: int|
        #![trigger entries[k]]
        0 <= k < entries.len() ==> writes_state(entries[k]@, states[k]) && entry_state(entries[k]@)
            == Ok::<u16, Seq<char>>(states[k])
}

/// True iff the section holds these states: a palette of the different ones, and for more than
/// one of them the packed index of each.
pub open spec fn section_holds(section: AnvilSection, section_y: int, states: Seq<BlockState>) -> bool {
    let palette = palette_of(states, 4096);
    &&& section.y == section_y
    &&& entries_write(section.block_states.palette@, palette)
    &&& match section.block_states.data {
        None => palette.len() <= 1,
        Some(words) => palette.len() > 1 && words@ == packed(
            palette_indices(palette, states),
            entry_bits(palette.len()),
        ),
    }
    &&& section.biomes.palette@.map_values(|s: String| s@) == seq![ANVIL_DEFAULT_BIOME@]
    &&& section.biomes.data is None
}

proof fn palette_has_no_duplicates(states: Seq<BlockState>, n: int)
    requires
        0 <= n <= states.len(),
    ensures
        palette_of(states, n).no_duplicates(),
        palette_of(states, n).len() <= n,
        n > 0 ==> palette_of(states, n).len() > 0,
        forall|i: int| 0 <= i < n ==> palette_of(states, n).contains(#[trigger] states[i]),
    decreases n,
{
    if n > 0 {
        palette_has_no_duplicates(states, n - 1);
        let before = palette_of(states, n - 1);
        let after = palette_of(states, n);
        assert forall|i: int| 0 <= i < n implies after.contains(#[trigger] states[i]) by {
            if i < n - 1 {
                assert(before.contains(states[i]));
                let k = before.index_of(states[i]);
                assert(after[k] == states[i]);
            } else if !before.contains(states[i]) {
                assert(after[before.len() as int] == states[i]);
            }
        }
    }
}

fn find_state(palette: &Vec<BlockState>, state: BlockState) -> (r: Option<usize>)
    ensures
        r matches Some(k) ==> k < palette@.len() && palette@[k as int] == state,
        r is None ==> !palette@.contains(state),
{
    let mut k: usize = 0;
    while k < palette.len()
        invariant
            k <= palette@.len(),
            forall|j: int| 0 <= j < k ==> palette@[j] != state,
        decreases palette@.len() - k,
    {
        if palette[k] == state {
            return Some(k);
        }
        k = k + 1;
    }
    None
}

fn cell(column: ChunkColumn, section_y: i32, i: usize) -> (r: BlockPos)
    requires
        column_fits(column),
        -0x800_0000 <= section_y < 0x800_0000,
        i < 4096,
    ensures
        r == cell_position(column, section_y as int, i as int),
        r.coords() == (
            column.x * 16 + i as int % 16,
            section_y * 16 + i as int / 256,
            column.z * 16 + (i as int / 16) % 16,
        ),
{
    BlockPos {
        x: column.x * 16 + (i % 16) as i32,
        y: section_y * 16 + (i / 256) as i32,
        z: column.z * 16 + ((i / 16) % 16) as i32,
    }
}

/// The section of a column with the saved blocks. `section_y` counts sections of 16 blocks.
pub fn encode_anvil_section(
    column: ChunkColumn,
    section_y: i32,
    override_map: &PositionMap<BlockState>,
) -> (r: PersistenceResult<AnvilSection>)
    requires
        override_map.wf(),
        column_fits(column),
        -0x800_0000 <= section_y < 0x800_0000,
        forall|p: BlockPos| #[trigger]
            override_map@.contains_key(p) ==> valid_state(override_map@[p]),
    ensures
        match r {
            Ok(section) => -128 <= section_y < 128 && section_holds(
                section,
                section_y as int,
                section_states(column, section_y as int, override_map@),
            ),
            Err(error) => !(-128 <= section_y < 128) && invalid_chunk(
                error,
                "section y "@ + decimal(section_y as int) + " cannot fit in Anvil byte"@,
            ),
        },
{
    if section_y < -128 || section_y >= 128 {
        let mut message = "section y ".to_owned();
        push_i64(&mut message, section_y as i64);
        message.append(" cannot fit in Anvil byte");
        return Err(PersistenceError::InvalidAnvilChunk(message));
    }
    let ghost states = section_states(column, section_y as int, override_map@);
    let mut palette: Vec<BlockState> = Vec::new();
    let mut indices: Vec<usize> = Vec::new();
    let mut i: usize = 0;
    while i < 4096
        invariant
            i <= 4096,
            override_map.wf(),
            column_fits(column),
            -128 <= section_y < 128,
            forall|p: BlockPos| #[trigger]
                override_map@.contains_key(p) ==> valid_state(override_map@[p]),
            states == section_states(column, section_y as int, override_map@),
            palette@ == palette_of(states, i as int),
            palette@.len() <= i,
            indices@.len() == i,
            forall|j: int| #![trigger indices@[j]]
                0 <= j < i ==> indices@[j] < palette@.len() && palette@[indices@[j] as int]
                    == states[j],
            forall|k: int| 0 <= k < palette@.len() ==> valid_state(#[trigger] palette@[k]),
        decreases 4096 - i,
    {
        let position = cell(column, section_y, i);
        let state: BlockState = match override_map.get(position) {
            Some(block) => block,
            None => base_block_or_air(position),
        };
        assert(state == states[i as int]);
        match find_state(&palette, state) {
            Some(k) => {
                assert(palette@.contains(state));
                indices.push(k);
            },
            None => {
                indices.push(palette.len());
                palette.push(state);
            },
        }
        i = i + 1;
    }
    proof {
        palette_has_no_duplicates(states, 4096);
        assert(indices@ =~= palette_indices(palette@, states)) by {
            assert forall|j: int| 0 <= j < 4096 implies indices@[j] == palette_indices(
                palette@,
                states,
            )[j] by {
                assert(palette@.contains(states[j]));
                let k = palette@.index_of(states[j]);
                assert(palette@[k] == palette@[indices@[j] as int]);
            }
        }
        small_indices_fit(indices@, palette@.len());
    }
    let mut entries: Vec<AnvilPaletteEntry> = Vec::new();
    let mut k: usize = 0;
    while k < palette.len()
        invariant
            k <= palette@.len(),
            forall|j: int| 0 <= j < palette@.len() ==> valid_state(#[trigger] palette@[j]),
            entries_write(entries@, palette@.take(k as int)),
        decreases palette@.len() - k,
    {
        entries.push(anvil_palette_entry_for_block(palette[k]));
        k = k + 1;
    }
    proof {
        assert(palette@.take(palette@.len() as int) =~= palette@);
    }
    let data = if palette.len() > 1 {
        Some(pack_palette_indices(&indices, palette.len()))
    } else {
        None
    };
    let biome_palette: Vec<String> = vec![ANVIL_DEFAULT_BIOME.to_owned()];
    proof {
        assert(biome_palette@.map_values(|s: String| s@) =~= seq![ANVIL_DEFAULT_BIOME@]);
    }
    Ok(
        AnvilSection {
            y: section_y as i8,
            block_states: AnvilBlockStates { palette: entries, data },
            biomes: AnvilBiomes { palette: biome_palette, data: None },
        },
    )
}

proof fn small_indices_fit(indices: Seq<usize>, palette_len: nat)
    requires
        palette_len > 0,
        forall|j: int| 0 <= j < indices.len() ==> (#[trigger] indices[j]) < palette_len,
    ensures
        indices_fit(indices, entry_bits(palette_len)),
{
    let bits = palette_bits(palette_len);
    bit_width_is_least((palette_len - 1) as nat);
    if bits < 4 {
        vstd::arithmetic::power2::lemma_pow2_strictly_increases(bits, 4);
    }
}

/// The palette index number `i` of a section.
pub open spec fn section_index(section: AnvilSection, i: int) -> Result<nat, Seq<char>> {
    let palette_len = section.block_states.palette@.len();
    match section.block_states.data {
        None => if palette_len == 1 {
            Ok(0)
        } else {
            Err("multi-entry block palette is missing packed data"@)
        },
        Some(words) => match unpacked(words@, entry_bits(palette_len), i as nat) {
            None => Err("packed block data is too short for index "@ + decimal_nat(i as nat)),
            Some(v) => Ok(v),
        },
    }
}

/// The text `chunk x,z`.
pub open spec fn chunk_text(column: ChunkColumn) -> Seq<char> {
    "chunk "@ + decimal(column.x as int) + ","@ + decimal(column.z as int)
}

/// The block number `i` of a section whose palette stands for these states.
pub open spec fn section_block(
    column: ChunkColumn,
    section: AnvilSection,
    palette: Seq<BlockState>,
    i: int,
) -> Result<BlockState, Seq<char>> {
    match section_index(section, i) {
        Err(message) => Err(message),
        Ok(k) => if k < palette.len() {
            Ok(palette[k as int])
        } else {
            Err(chunk_text(column) + " palette index "@ + decimal_nat(k) + " is out of bounds"@)
        },
    }
}

/// The states that the first `n` palette entries stand for.
pub open spec fn palette_states(entries: Seq<AnvilPaletteEntry>, n: int) -> Result<
    Seq<BlockState>,
    Seq<char>,
>
    decreases n,
{
    if n <= 0 {
        Ok(seq![])
    } else {
        match palette_states(entries, n - 1) {
            Err(message) => Err(message),
            Ok(before) => match entry_state(entries[n - 1]@) {
                Err(message) => Err(message),
                Ok(state) => Ok(before.push(state)),
            },
        }
    }
}

/// `list` with the block at `p` where it lies in the world and differs from the base world.
pub open spec fn with_difference(
    list: Seq<SavedBlockOverride>,
    p: BlockPos,
    block: BlockState,
) -> Seq<SavedBlockOverride> {
    if world_bounds().has(p.coords()) && block != base_block(p.coords()) {
        list.push(SavedBlockOverride { position: p, block })
    } else {
        list
    }
}

/// `list` with the overrides among the first `n` blocks of a section.
pub open spec fn with_section_cells(
    list: Seq<SavedBlockOverride>,
    column: ChunkColumn,
    section: AnvilSection,
    palette: Seq<BlockState>,
    n: int,
) -> Result<Seq<SavedBlockOverride>, Seq<char>>
    decreases n,
{
    if n <= 0 {
        Ok(list)
    } else {
        match with_section_cells(list, column, section, palette, n - 1) {
            Err(message) => Err(message),
            Ok(before) => match section_block(column, section, palette, n - 1) {
                Err(message) => Err(message),
                Ok(block) => Ok(
                    with_difference(
                        before,
                        cell_position(column, section.y as int, n - 1),
                        block,
                    ),
                ),
            },
        }
    }
}

/// `list` with the overrides of one section.
pub open spec fn with_section(
    list: Seq<SavedBlockOverride>,
    column: ChunkColumn,
    section: AnvilSection,
) -> Result<Seq<SavedBlockOverride>, Seq<char>> {
    match palette_states(
        section.block_states.palette@,
        section.block_states.palette@.len() as int,
    ) {
        Err(message) => Err(message),
        Ok(palette) => if palette.len() == 0 {
            Err(chunk_text(column) + " has a section with empty block palette"@)
        } else {
            with_section_cells(list, column, section, palette, 4096)
        },
    }
}

/// The overrides of the first `n` sections, section by section.
pub open spec fn collected_overrides(
    column: ChunkColumn,
    sections: Seq<AnvilSection>,
    n: int,
) -> Result<Seq<SavedBlockOverride>, Seq<char>>
    decreases n,
{
    if n <= 0 {
        Ok(seq![])
    } else {
        match collected_overrides(column, sections, n - 1) {
            Err(message) => Err(message),
            Ok(before) => with_section(before, column, sections[n - 1]),
        }
    }
}

/// `list` with `item` behind the last element that does not come after it.
pub open spec fn with_inserted(
    list: Seq<SavedBlockOverride>,
    item: SavedBlockOverride,
) -> Seq<SavedBlockOverride>
    decreases list.len(),
{
    if list.len() == 0 || !pos_less(item.position, list.last().position) {
        list.push(item)
    } else {
        with_inserted(list.drop_last(), item).push(list.last())
    }
}

/// The list in order of x, then y, then z; items at one position keep their order.
pub open spec fn in_order(list: Seq<SavedBlockOverride>) -> Seq<SavedBlockOverride>
    decreases list.len(),
{
    if list.len() == 0 {
        list
    } else {
        with_inserted(in_order(list.drop_last()), list.last())
    }
}

/// The overrides that a chunk holds, in order, or why it cannot be read.
pub open spec fn chunk_overrides(column: ChunkColumn, chunk: AnvilChunk) -> Result<
    Seq<SavedBlockOverride>,
    Seq<char>,
> {
    match collected_overrides(column, chunk.sections@, chunk.sections@.len() as int) {
        Err(message) => Err(message),
        Ok(list) => Ok(in_order(list)),
    }
}

fn push_chunk_text(out: &mut String, column: ChunkColumn)
    ensures
        final(out)@ == old(out)@ + chunk_text(column),
{
    let ghost start = out@;
    out.append("chunk ");
    push_i64(out, column.x as i64);
    out.append(",");
    push_i64(out, column.z as i64);
    proof {
        assert(out@ =~= start + chunk_text(column));
    }
}

/// The palette index number `index` of a section with that palette and packed data.
pub fn unpack_palette_index(data: &Option<Vec<u64>>, palette_len: usize, index: usize) -> (r:
    PersistenceResult<u64>)
    ensures
        match data {
            None => if palette_len == 1 {
                r == Ok::<u64, PersistenceError>(0)
            } else {
                r matches Err(error) && invalid_chunk(
                    error,
                    "multi-entry block palette is missing packed data"@,
                )
            },
            Some(words) => match unpacked(words@, entry_bits(palette_len as nat), index as nat) {
                None => r matches Err(error) && invalid_chunk(
                    error,
                    "packed block data is too short for index "@ + decimal_nat(index as nat),
                ),
                Some(v) => r matches Ok(k) && k == v,
            },
        },
{
    match data {
        None => if palette_len == 1 {
            Ok(0)
        } else {
            Err(
                PersistenceError::InvalidAnvilChunk(
                    "multi-entry block palette is missing packed data".to_owned(),
                ),
            )
        },
        Some(words) => match unpack_index(words, packed_entry_bits(palette_len), index) {
            Some(v) => Ok(v),
            None => {
                let mut message = "packed block data is too short for index ".to_owned();
                push_u64(&mut message, index as u64);
                Err(PersistenceError::InvalidAnvilChunk(message))
            },
        },
    }
}

fn decode_palette(entries: &Vec<AnvilPaletteEntry>) -> (r: PersistenceResult<Vec<BlockState>>)
    ensures
        match palette_states(entries@, entries@.len() as int) {
            Ok(states) => r matches Ok(palette) && palette@ == states,
            Err(message) => r matches Err(error) && invalid_chunk(error, message),
        },
{
    let mut palette: Vec<BlockState> = Vec::new();
    let mut k: usize = 0;
    while k < entries.len()
        invariant
            k <= entries@.len(),
            palette_states(entries@, k as int) == Ok::<Seq<BlockState>, Seq<char>>(palette@),
        decreases entries@.len() - k,
    {
        match block_state_from_anvil_palette_entry(&entries[k]) {
            Ok(state) => palette.push(state),
            Err(error) => {
                proof {
                    palette_error_stays(entries@, k + 1, entries@.len() as int);
                }
                return Err(error);
            },
        }
        k = k + 1;
    }
    Ok(palette)
}

proof fn palette_error_stays(entries: Seq<AnvilPaletteEntry>, k: int, n: int)
    requires
        0 <= k <= n,
        palette_states(entries, k) is Err,
    ensures
        palette_states(entries, n) == palette_states(entries, k),
    decreases n,
{
    if k < n {
        palette_error_stays(entries, k, n - 1);
    }
}

proof fn cell_error_stays(
    list: Seq<SavedBlockOverride>,
    column: ChunkColumn,
    section: AnvilSection,
    palette: Seq<BlockState>,
    k: int,
    n: int,
)
    requires
        0 <= k <= n,
        with_section_cells(list, column, section, palette, k) is Err,
    ensures
        with_section_cells(list, column, section, palette, n) == with_section_cells(
            list,
            column,
            section,
            palette,
            k,
        ),
    decreases n,
{
    if k < n {
        cell_error_stays(list, column, section, palette, k, n - 1);
    }
}

fn decode_section_cells(
    column: ChunkColumn,
    section: &AnvilSection,
    palette: &Vec<BlockState>,
    blocks: &mut Vec<SavedBlockOverride>,
) -> (r: PersistenceResult<()>)
    requires
        column_fits(column),
        palette@.len() == section.block_states.palette@.len(),
    ensures
        match with_section_cells(old(blocks)@, column, *section, palette@, 4096) {
            Ok(list) => r is Ok && final(blocks)@ == list,
            Err(message) => r matches Err(error) && invalid_chunk(error, message),
        },
{
    let ghost start = blocks@;
    let mut index: usize = 0;
    while index < 4096
        invariant
            index <= 4096,
            column_fits(column),
            start == old(blocks)@,
            palette@.len() == section.block_states.palette@.len(),
            with_section_cells(start, column, *section, palette@, index as int) == Ok::<
                Seq<SavedBlockOverride>,
                Seq<char>,
            >(blocks@),
        decreases 4096 - index,
    {
        let palette_index = match unpack_palette_index(
            &section.block_states.data,
            palette.len(),
            index,
        ) {
            Ok(k) => k,
            Err(error) => {
                proof {
                    cell_error_stays(start, column, *section, palette@, index + 1, 4096);
                }
                return Err(error);
            },
        };
        if palette_index >= palette.len() as u64 {
            let mut message = String::new();
            push_chunk_text(&mut message, column);
            message.append(" palette index ");
            push_u64(&mut message, palette_index);
            message.append(" is out of bounds");
            proof {
                assert(Seq::<char>::empty() + chunk_text(column) =~= chunk_text(column));
                cell_error_stays(start, column, *section, palette@, index + 1, 4096);
            }
            return Err(PersistenceError::InvalidAnvilChunk(message));
        }
        let block = palette[palette_index as usize];
        let position = cell(column, section.y as i32, index);
        if world_bounds().contains(position) && block != base_block_or_air(position) {
            blocks.push(SavedBlockOverride { position, block });
        }
        index = index + 1;
    }
    Ok(())
}

fn insert_in_order(list: &mut Vec<SavedBlockOverride>, item: SavedBlockOverride)
    ensures
        final(list)@ == with_inserted(old(list)@, item),
{
    let ghost before = list@;
    let mut at: usize = list.len();
    while at > 0 && is_pos_less(item.position, list[at - 1].position)
        invariant
            at <= list@.len(),
            list@ == before,
            forall|k: int| at <= k < before.len() ==> pos_less(
                item.position,
                (#[trigger] before[k]).position,
            ),
        decreases at,
    {
        at = at - 1;
    }
    list.insert(at, item);
    proof {
        inserted_at(before, item, at as int);
    }
}

proof fn inserted_at(list: Seq<SavedBlockOverride>, item: SavedBlockOverride, at: int)
    requires
        0 <= at <= list.len(),
        forall|k: int| at <= k < list.len() ==> pos_less(
            item.position,
            (#[trigger] list[k]).position,
        ),
        at > 0 ==> !pos_less(item.position, list[at - 1].position),
    ensures
        with_inserted(list, item) == list.insert(at, item),
    decreases list.len(),
{
    if at == list.len() {
        assert(list.insert(at, item) =~= list.push(item));
    } else {
        inserted_at(list.drop_last(), item, at);
        assert(list.insert(at, item) =~= list.drop_last().insert(at, item).push(list.last()));
    }
}

fn sort_overrides(list: Vec<SavedBlockOverride>) -> (r: Vec<SavedBlockOverride>)
    ensures
        r@ == in_order(list@),
{
    let mut out: Vec<SavedBlockOverride> = Vec::new();
    let mut i: usize = 0;
    while i < list.len()
        invariant
            i <= list@.len(),
            out@ == in_order(list@.take(i as int)),
        decreases list@.len() - i,
    {
        proof {
            assert(list@.take(i + 1).drop_last() =~= list@.take(i as int));
        }
        insert_in_order(&mut out, list[i]);
        i = i + 1;
    }
    proof {
        assert(list@.take(i as int) =~= list@);
    }
    out
}

proof fn collect_error_stays(column: ChunkColumn, sections: Seq<AnvilSection>, k: int, n: int)
    requires
        0 <= k <= n,
        collected_overrides(column, sections, k) is Err,
    ensures
        collected_overrides(column, sections, n) == collected_overrides(column, sections, k),
    decreases n,
{
    if k < n {
        collect_error_stays(column, sections, k, n - 1);
    }
}

/// The blocks of a chunk that differ from the base world.
pub fn decode_anvil_chunk_overrides(column: ChunkColumn, chunk: &AnvilChunk) -> (r:
    PersistenceResult<Vec<SavedBlockOverride>>)
    requires
        column_fits(column),
    ensures
        match chunk_overrides(column, *chunk) {
            Ok(list) => r matches Ok(blocks) && blocks@ == list,
            Err(message) => r matches Err(error) && invalid_chunk(error, message),
        },
{
    let mut blocks: Vec<SavedBlockOverride> = Vec::new();
    let mut i: usize = 0;
    while i < chunk.sections.len()
        invariant
            i <= chunk.sections@.len(),
            column_fits(column),
            collected_overrides(column, chunk.sections@, i as int) == Ok::<
                Seq<SavedBlockOverride>,
                Seq<char>,
            >(blocks@),
        decreases chunk.sections@.len() - i,
    {
        let section = &chunk.sections[i];
        let palette = match decode_palette(&section.block_states.palette) {
            Ok(palette) => palette,
            Err(error) => {
                proof {
                    collect_error_stays(
                        column,
                        chunk.sections@,
                        i + 1,
                        chunk.sections@.len() as int,
                    );
                }
                return Err(error);
            },
        };
        proof {
            palette_len(section.block_states.palette@, section.block_states.palette@.len() as int);
        }
        if palette.len() == 0 {
            let mut message = String::new();
            push_chunk_text(&mut message, column);
            message.append(" has a section with empty block palette");
            proof {
                assert(Seq::<char>::empty() + chunk_text(column) =~= chunk_text(column));
                collect_error_stays(column, chunk.sections@, i + 1, chunk.sections@.len() as int);
            }
            return Err(PersistenceError::InvalidAnvilChunk(message));
        }
        match decode_section_cells(column, section, &palette, &mut blocks) {
            Ok(()) => {},
            Err(error) => {
                proof {
                    collect_error_stays(
                        column,
                        chunk.sections@,
                        i + 1,
                        chunk.sections@.len() as int,
                    );
                }
                return Err(error);
            },
        }
        i = i + 1;
    }
    Ok(sort_overrides(blocks))
}

proof fn palette_len(entries: Seq<AnvilPaletteEntry>, n: int)
    requires
        0 <= n,
    ensures
        palette_states(entries, n) matches Ok(states) ==> states.len() == n,
    decreases n,
{
    if n > 0 {
        palette_len(entries, n - 1);
    }
}

// ---- chunks ----

/// The overrides by position; of two at one position the later one counts.
pub open spec fn override_map(blocks: Seq<SavedBlockOverride>, n: int) -> Map<BlockPos, BlockState>
    decreases n,
{
    if n <= 0 {
        Map::empty()
    } else {
        override_map(blocks, n - 1).insert(blocks[n - 1].position, blocks[n - 1].block)
    }
}

/// True iff the overrides ascend strictly by position, so that no position occurs twice.
pub open spec fn overrides_ascend(blocks: Seq<SavedBlockOverride>) -> bool {
    forall|i: int, j: int|
        #![trigger blocks[i], blocks[j]]
        0 <= i < j < blocks.len() ==> pos_less(blocks[i].position, blocks[j].position)
}

/// True iff the override belongs to the column, lies in the world and differs from its base.
pub open spec fn real_override(column: ChunkColumn, saved: SavedBlockOverride) -> bool {
    &&& column_of(saved.position.coords()) == column.coords()
    &&& world_bounds().has(saved.position.coords())
    &&& saved.block != base_block(saved.position.coords())
}

/// True iff the list is what a saved column consists of: overrides of that column only, in
/// order, each a real difference from the base world.
pub open spec fn column_overrides(column: ChunkColumn, blocks: Seq<SavedBlockOverride>) -> bool {
    &&& overrides_ascend(blocks)
    &&& forall|i: int| 0 <= i < blocks.len() ==> real_override(column, #[trigger] blocks[i])
}

/// True iff the chunk holds the saved blocks of the column, section by section over the height of
/// the world.
pub open spec fn chunk_holds(
    chunk: AnvilChunk,
    column: ChunkColumn,
    overrides: Map<BlockPos, BlockState>,
) -> bool {
    &&& chunk.data_version == ANVIL_DATA_VERSION_1_20_1
    &&& chunk.x_pos == column.x
    &&& chunk.y_pos == 3
    &&& chunk.z_pos == column.z
    &&& chunk.status@ == ANVIL_CHUNK_STATUS@
    &&& chunk.last_update == 0
    &&& chunk.inhabited_time == 0
    &&& chunk.sections@.len() == 3
    &&& forall|k: int|
        0 <= k < 3 ==> section_holds(
            #[trigger] chunk.sections@[k],
            3 + k,
            section_states(column, 3 + k, overrides),
        )
}

/// The Anvil form of a column with these overrides. Reading it back gives the overrides.
pub fn encode_anvil_chunk(column: ChunkColumn, blocks: &Vec<SavedBlockOverride>) -> (r:
    PersistenceResult<AnvilChunk>)
    requires
        column_fits(column),
        forall|i: int| 0 <= i < blocks@.len() ==> valid_state((#[trigger] blocks@[i]).block),
    ensures
        r matches Ok(chunk) && chunk_holds(
            chunk,
            column,
            override_map(blocks@, blocks@.len() as int),
        ) && (column_overrides(column, blocks@) ==> chunk_overrides(column, chunk) == Ok::<
            Seq<SavedBlockOverride>,
            Seq<char>,
        >(blocks@)),
{
    let mut map: PositionMap<BlockState> = PositionMap::new();
    let mut i: usize = 0;
    while i < blocks.len()
        invariant
            i <= blocks@.len(),
            map.wf(),
            map@ == override_map(blocks@, i as int),
            forall|j: int| 0 <= j < blocks@.len() ==> valid_state((#[trigger] blocks@[j]).block),
            forall|p: BlockPos| #[trigger] map@.contains_key(p) ==> valid_state(map@[p]),
        decreases blocks@.len() - i,
    {
        map.insert(blocks[i].position, blocks[i].block);
        i = i + 1;
    }
    let mut sections: Vec<AnvilSection> = Vec::new();
    let mut section_y: i32 = 3;
    while section_y <= 5
        invariant
            3 <= section_y <= 6,
            column_fits(column),
            map.wf(),
            forall|p: BlockPos| #[trigger] map@.contains_key(p) ==> valid_state(map@[p]),
            sections@.len() == section_y - 3,
            forall|k: int|
                0 <= k < sections@.len() ==> section_holds(
                    #[trigger] sections@[k],
                    3 + k,
                    section_states(column, 3 + k, map@),
                ),
        decreases 6 - section_y,
    {
        match encode_anvil_section(column, section_y, &map) {
            Ok(section) => sections.push(section),
            Err(error) => return Err(error),
        }
        section_y = section_y + 1;
    }
    let chunk = AnvilChunk {
        data_version: ANVIL_DATA_VERSION_1_20_1,
        x_pos: column.x,
        y_pos: 3,
        z_pos: column.z,
        status: ANVIL_CHUNK_STATUS.to_owned(),
        last_update: 0,
        inhabited_time: 0,
        sections,
    };
    proof {
        if column_overrides(column, blocks@) {
            saved_chunk_reads_back(column, blocks@, chunk);
        }
    }
    Ok(chunk)
}

/// A section that holds given states reads back as these states.
pub proof fn section_reads_back(
    column: ChunkColumn,
    section: AnvilSection,
    section_y: int,
    states: Seq<BlockState>,
)
    requires
        states.len() == 4096,
        section_holds(section, section_y, states),
    ensures
        palette_states(
            section.block_states.palette@,
            section.block_states.palette@.len() as int,
        ) == Ok::<Seq<BlockState>, Seq<char>>(palette_of(states, 4096)),
        palette_of(states, 4096).len() > 0,
        forall|i: int|
            0 <= i < 4096 ==> #[trigger] section_block(
                column,
                section,
                palette_of(states, 4096),
                i,
            ) == Ok::<BlockState, Seq<char>>(states[i]),
{
    let palette = palette_of(states, 4096);
    palette_has_no_duplicates(states, 4096);
    entries_read_back(section.block_states.palette@, palette, palette.len() as int);
    assert(palette.take(palette.len() as int) =~= palette);
    assert forall|i: int| 0 <= i < 4096 implies #[trigger] section_block(column, section, palette, i)
        == Ok::<BlockState, Seq<char>>(states[i]) by {
        assert(palette.contains(states[i]));
        let k = palette.index_of(states[i]);
        match section.block_states.data {
            None => {
                assert(palette.len() == 1);
                assert(k == 0);
            },
            Some(words) => {
                let indices = palette_indices(palette, states);
                assert forall|j: int| 0 <= j < indices.len() implies (#[trigger] indices[j])
                    < palette.len() by {
                    assert(palette.contains(states[j]));
                }
                small_indices_fit(indices, palette.len());
                bit_width_small(palette.len());
                packed_indices_come_back(indices, entry_bits(palette.len()), i as nat);
                assert(indices[i] == k);
            },
        }
    }
}

proof fn bit_width_small(palette_len: nat)
    requires
        0 < palette_len <= 4096,
    ensures
        0 < entry_bits(palette_len) <= 64,
{
    let n = (palette_len - 1) as nat;
    bit_width_is_least(n);
    if palette_bits(palette_len) > 64 {
        vstd::arithmetic::power2::lemma2_to64();
        vstd::arithmetic::power2::lemma_pow2_strictly_increases(
            12,
            (palette_bits(palette_len) - 1) as nat,
        );
    }
}

proof fn entries_read_back(entries: Seq<AnvilPaletteEntry>, states: Seq<BlockState>, n: int)
    requires
        entries_write(entries, states),
        0 <= n <= entries.len(),
    ensures
        palette_states(entries, n) == Ok::<Seq<BlockState>, Seq<char>>(states.take(n)),
    decreases n,
{
    if n > 0 {
        entries_read_back(entries, states, n - 1);
        assert(states.take(n) =~= states.take(n - 1).push(states[n - 1]));
    } else {
        assert(states.take(0) =~= seq![]);
    }
}

/// `list` with the differences among the first `n` of a section's states.
spec fn with_differences(
    list: Seq<SavedBlockOverride>,
    column: ChunkColumn,
    section_y: int,
    states: Seq<BlockState>,
    n: int,
) -> Seq<SavedBlockOverride>
    decreases n,
{
    if n <= 0 {
        list
    } else {
        with_difference(
            with_differences(list, column, section_y, states, n - 1),
            cell_position(column, section_y, n - 1),
            states[n - 1],
        )
    }
}

proof fn cells_read_back(
    list: Seq<SavedBlockOverride>,
    column: ChunkColumn,
    section: AnvilSection,
    palette: Seq<BlockState>,
    states: Seq<BlockState>,
    n: int,
)
    requires
        0 <= n <= 4096,
        forall|i: int|
            0 <= i < 4096 ==> #[trigger] section_block(column, section, palette, i) == Ok::<
                BlockState,
                Seq<char>,
            >(states[i]),
    ensures
        with_section_cells(list, column, section, palette, n) == Ok::<
            Seq<SavedBlockOverride>,
            Seq<char>,
        >(with_differences(list, column, section.y as int, states, n)),
    decreases n,
{
    if n > 0 {
        cells_read_back(list, column, section, palette, states, n - 1);
        assert(section_block(column, section, palette, n - 1) == Ok::<BlockState, Seq<char>>(
            states[n - 1],
        ));
    }
}

/// True iff the override is the block number `i` of section `section_y` of the column.
spec fn is_cell(column: ChunkColumn, section_y: int, i: int, saved: SavedBlockOverride) -> bool {
    0 <= i < 4096 && cell_position(column, section_y, i) == saved.position
}

/// True iff the list holds no two items at one position.
spec fn positions_differ(list: Seq<SavedBlockOverride>) -> bool {
    forall|i: int, j: int|
        #![trigger list[i], list[j]]
        0 <= i < j < list.len() ==> list[i].position != list[j].position
}

/// The position number `n` in the run of all cells of the sections from the third on.
spec fn run_index(section_y: int, n: int) -> int {
    (section_y - 3) * 4096 + n
}

/// True iff the override stands in the run of cells before index `end`.
spec fn in_run(column: ChunkColumn, saved: SavedBlockOverride, end: int) -> bool {
    exists|y: int, i: int|
        #![trigger is_cell(column, y, i, saved)]
        3 <= y && is_cell(column, y, i, saved) && run_index(y, i) < end
}

/// True iff the list holds exactly the overrides of the map that stand before index `end`.
spec fn lists_run(
    list: Seq<SavedBlockOverride>,
    column: ChunkColumn,
    overrides: Map<BlockPos, BlockState>,
    end: int,
) -> bool {
    &&& positions_differ(list)
    &&& forall|saved: SavedBlockOverride| #[trigger]
        list.contains(saved) <==> (overrides.contains_key(saved.position)
            && overrides[saved.position] == saved.block && in_run(column, saved, end))
}

/// True iff every override of the map is a real difference in the column.
spec fn real_map(column: ChunkColumn, overrides: Map<BlockPos, BlockState>) -> bool {
    forall|p: BlockPos| #[trigger]
        overrides.contains_key(p) ==> real_override(
            column,
            SavedBlockOverride { position: p, block: overrides[p] },
        )
}

proof fn cell_coords(column: ChunkColumn, section_y: int, i: int)
    requires
        column_fits(column),
        3 <= section_y <= 5,
        0 <= i < 4096,
    ensures
        cell_position(column, section_y, i).coords() == (
            column.x * 16 + i % 16,
            section_y * 16 + i / 256,
            column.z * 16 + (i / 16) % 16,
        ),
        column_of(cell_position(column, section_y, i).coords()) == column.coords(),
{
}

proof fn cells_differ(column: ChunkColumn, y1: int, i1: int, y2: int, i2: int)
    requires
        column_fits(column),
        3 <= y1 <= 5,
        3 <= y2 <= 5,
        0 <= i1 < 4096,
        0 <= i2 < 4096,
        cell_position(column, y1, i1) == cell_position(column, y2, i2),
    ensures
        y1 == y2,
        i1 == i2,
{
    cell_coords(column, y1, i1);
    cell_coords(column, y2, i2);
    assert(i1 / 256 < 16 && i2 / 256 < 16);
    assert(i1 == (i1 / 256) * 256 + ((i1 / 16) % 16) * 16 + i1 % 16);
    assert(i2 == (i2 / 256) * 256 + ((i2 / 16) % 16) * 16 + i2 % 16);
}

proof fn run_step(
    list: Seq<SavedBlockOverride>,
    column: ChunkColumn,
    overrides: Map<BlockPos, BlockState>,
    section_y: int,
    i: int,
)
    requires
        column_fits(column),
        real_map(column, overrides),
        3 <= section_y <= 5,
        0 <= i < 4096,
        lists_run(list, column, overrides, run_index(section_y, i)),
    ensures
        lists_run(
            with_difference(
                list,
                cell_position(column, section_y, i),
                saved_block(overrides, cell_position(column, section_y, i)),
            ),
            column,
            overrides,
            run_index(section_y, i + 1),
        ),
{
    let p = cell_position(column, section_y, i);
    let block = saved_block(overrides, p);
    let item = SavedBlockOverride { position: p, block };
    let after = with_difference(list, p, block);
    let end = run_index(section_y, i);
    // The cell itself is the only one that the run gains.
    assert forall|saved: SavedBlockOverride| overrides.contains_key(saved.position) implies (
    #[trigger] in_run(column, saved, end + 1) <==> (in_run(column, saved, end) || saved.position
        == p)) by {
        if saved.position == p {
            assert(is_cell(column, section_y, i, saved));
        }
        if in_run(column, saved, end) {
            let (y, k) = choose|y: int, k: int|
                #![trigger is_cell(column, y, k, saved)]
                3 <= y && is_cell(column, y, k, saved) && run_index(y, k) < end;
            assert(is_cell(column, y, k, saved) && run_index(y, k) < end + 1);
        }
        if in_run(column, saved, end + 1) {
            let (y, k) = choose|y: int, k: int|
                #![trigger is_cell(column, y, k, saved)]
                3 <= y && is_cell(column, y, k, saved) && run_index(y, k) < end + 1;
            if run_index(y, k) == end {
                assert(y == section_y && k == i) by {
                    assert((y - 3) * 4096 + k == (section_y - 3) * 4096 + i);
                }
            } else {
                assert(is_cell(column, y, k, saved) && run_index(y, k) < end);
            }
        }
    }
    assert(overrides.contains_key(p) <==> after == list.push(item) && after != list) by {
        if overrides.contains_key(p) {
            assert(real_override(column, SavedBlockOverride { position: p, block: overrides[p] }));
        }
        assert(after != list ==> after.len() == list.len() + 1);
        assert(list.push(item).len() != list.len());
    }
    if overrides.contains_key(p) {
        assert(!in_run(column, item, end)) by {
            if in_run(column, item, end) {
                let (y, k) = choose|y: int, k: int|
                    #![trigger is_cell(column, y, k, item)]
                    3 <= y && is_cell(column, y, k, item) && run_index(y, k) < end;
                assert(y <= section_y) by {
                    assert((y - 3) * 4096 + k < (section_y - 3) * 4096 + i);
                }
                cells_differ(column, y, k, section_y, i);
            }
        }
        assert(positions_differ(after)) by {
            assert forall|a: int, b: int|
                #![trigger after[a], after[b]]
                0 <= a < b < after.len() implies after[a].position != after[b].position by {
                if b == list.len() {
                    assert(list.contains(list[a]));
                    assert(after[a] == list[a]);
                    if list[a].position == p {
                        assert(list[a] == item);
                    }
                } else {
                    assert(list[a].position != list[b].position);
                }
            }
        }
        assert forall|saved: SavedBlockOverride| #[trigger]
            after.contains(saved) <==> (overrides.contains_key(saved.position)
                && overrides[saved.position] == saved.block && in_run(column, saved, end + 1)) by {
            if after.contains(saved) {
                let k = after.index_of(saved);
                if k < list.len() {
                    assert(list[k] == saved);
                    assert(list.contains(saved));
                }
            }
            if list.contains(saved) {
                let k = list.index_of(saved);
                assert(after[k] == saved);
            }
            if saved == item {
                assert(after[list.len() as int] == saved);
            }
            assert(list.contains(saved) <==> (overrides.contains_key(saved.position)
                && overrides[saved.position] == saved.block && in_run(column, saved, end)));
            if overrides.contains_key(saved.position) {
                assert(in_run(column, saved, end + 1) <==> (in_run(column, saved, end)
                    || saved.position == p));
            }
        }
    } else {
        assert(after == list) by {
            if after != list {
                assert(after == list.push(item));
            }
        }
        assert forall|saved: SavedBlockOverride| #[trigger]
            after.contains(saved) <==> (overrides.contains_key(saved.position)
                && overrides[saved.position] == saved.block && in_run(column, saved, end + 1)) by {
            if overrides.contains_key(saved.position) {
                assert(in_run(column, saved, end + 1) <==> (in_run(column, saved, end)
                    || saved.position == p));
            }
        }
    }
}

proof fn run_section(
    list: Seq<SavedBlockOverride>,
    column: ChunkColumn,
    overrides: Map<BlockPos, BlockState>,
    section_y: int,
    n: int,
)
    requires
        column_fits(column),
        real_map(column, overrides),
        3 <= section_y <= 5,
        0 <= n <= 4096,
        lists_run(list, column, overrides, run_index(section_y, 0)),
    ensures
        lists_run(
            with_differences(
                list,
                column,
                section_y,
                section_states(column, section_y, overrides),
                n,
            ),
            column,
            overrides,
            run_index(section_y, n),
        ),
    decreases n,
{
    if n > 0 {
        run_section(list, column, overrides, section_y, n - 1);
        run_step(
            with_differences(
                list,
                column,
                section_y,
                section_states(column, section_y, overrides),
                n - 1,
            ),
            column,
            overrides,
            section_y,
            n - 1,
        );
    }
}

proof fn run_sections(
    column: ChunkColumn,
    overrides: Map<BlockPos, BlockState>,
    chunk: AnvilChunk,
    n: int,
)
    requires
        column_fits(column),
        real_map(column, overrides),
        chunk_holds(chunk, column, overrides),
        0 <= n <= 3,
    ensures
        collected_overrides(column, chunk.sections@, n) matches Ok(list) && lists_run(
            list,
            column,
            overrides,
            run_index(3 + n, 0),
        ),
    decreases n,
{
    if n == 0 {
        let list = Seq::<SavedBlockOverride>::empty();
        assert forall|saved: SavedBlockOverride| #[trigger]
            list.contains(saved) <==> (overrides.contains_key(saved.position)
                && overrides[saved.position] == saved.block && in_run(
                column,
                saved,
                run_index(3, 0),
            )) by {
            if in_run(column, saved, run_index(3, 0)) {
                let (y, k) = choose|y: int, k: int|
                    #![trigger is_cell(column, y, k, saved)]
                    3 <= y && is_cell(column, y, k, saved) && run_index(y, k) < run_index(3, 0);
                assert(false);
            }
        }
    } else {
        run_sections(column, overrides, chunk, n - 1);
        let before = collected_overrides(column, chunk.sections@, n - 1)->Ok_0;
        let section = chunk.sections@[n - 1];
        let y = 3 + (n - 1);
        let states = section_states(column, y, overrides);
        section_reads_back(column, section, y, states);
        cells_read_back(before, column, section, palette_of(states, 4096), states, 4096);
        run_section(before, column, overrides, y, 4096);
        assert(run_index(y, 4096) == run_index(3 + n, 0));
    }
}

/// Two ascending lists with the same items are the same.
proof fn ascending_lists_agree(a: Seq<SavedBlockOverride>, b: Seq<SavedBlockOverride>)
    requires
        overrides_ascend(a),
        overrides_ascend(b),
        forall|saved: SavedBlockOverride| #[trigger] a.contains(saved) <==> b.contains(saved),
    ensures
        a == b,
    decreases a.len(),
{
    if a.len() == 0 {
        if b.len() > 0 {
            assert(b.contains(b[0]));
            assert(a.contains(b[0]));
        }
        assert(a =~= b);
    } else {
        assert(a.contains(a.last()));
        assert(b.contains(a.last()));
        let k = b.index_of(a.last());
        assert(b.contains(b.last()));
        assert(a.contains(b.last()));
        let j = a.index_of(b.last());
        assert(a.last() == b.last()) by {
            if k < b.len() - 1 {
                assert(pos_less(b[k].position, b[b.len() - 1].position));
            }
            if j < a.len() - 1 {
                assert(pos_less(a[j].position, a[a.len() - 1].position));
            }
        }
        let x = a.drop_last();
        let y = b.drop_last();
        assert forall|saved: SavedBlockOverride| #[trigger] x.contains(saved) <==> y.contains(
            saved,
        ) by {
            if x.contains(saved) {
                let m = x.index_of(saved);
                assert(a[m] == saved);
                assert(a.contains(saved));
                let n = b.index_of(saved);
                assert(pos_less(a[m].position, a[a.len() - 1].position));
                assert(y[n] == saved);
            }
            if y.contains(saved) {
                let m = y.index_of(saved);
                assert(b[m] == saved);
                assert(b.contains(saved));
                assert(a.contains(saved));
                let n = a.index_of(saved);
                assert(pos_less(b[m].position, b[b.len() - 1].position));
                assert(x[n] == saved);
            }
        }
        ascending_lists_agree(x, y);
        assert(a =~= x.push(a.last()));
        assert(b =~= y.push(b.last()));
    }
}

proof fn inserting_keeps_order(list: Seq<SavedBlockOverride>, item: SavedBlockOverride)
    requires
        overrides_ascend(list),
        forall|i: int| 0 <= i < list.len() ==> (#[trigger] list[i]).position != item.position,
    ensures
        overrides_ascend(with_inserted(list, item)),
        forall|saved: SavedBlockOverride| #[trigger]
            with_inserted(list, item).contains(saved) <==> (list.contains(saved) || saved == item),
    decreases list.len(),
{
    let after = with_inserted(list, item);
    if list.len() == 0 || !pos_less(item.position, list.last().position) {
        assert forall|i: int, j: int|
            #![trigger after[i], after[j]]
            0 <= i < j < after.len() implies pos_less(after[i].position, after[j].position) by {
            if j == list.len() {
                assert(list.last().position != item.position);
                if i < list.len() - 1 {
                    assert(pos_less(list[i].position, list[list.len() - 1].position));
                }
            }
        }
        assert forall|saved: SavedBlockOverride| #[trigger]
            after.contains(saved) <==> (list.contains(saved) || saved == item) by {
            if after.contains(saved) {
                let k = after.index_of(saved);
                if k < list.len() {
                    assert(list[k] == saved);
                }
            }
            if list.contains(saved) {
                assert(after[list.index_of(saved)] == saved);
            }
            if saved == item {
                assert(after[list.len() as int] == saved);
            }
        }
    } else {
        let front = list.drop_last();
        assert forall|i: int| 0 <= i < front.len() implies (#[trigger] front[i]).position
            != item.position by {
            assert(front[i] == list[i]);
        }
        inserting_keeps_order(front, item);
        let inner = with_inserted(front, item);
        assert(after == inner.push(list.last()));
        assert forall|i: int, j: int|
            #![trigger after[i], after[j]]
            0 <= i < j < after.len() implies pos_less(after[i].position, after[j].position) by {
            if j == inner.len() {
                assert(inner.contains(inner[i]));
                if inner[i] != item {
                    assert(front.contains(inner[i]));
                    let k = front.index_of(inner[i]);
                    assert(pos_less(list[k].position, list[list.len() - 1].position));
                }
            } else {
                assert(pos_less(inner[i].position, inner[j].position));
            }
        }
        assert forall|saved: SavedBlockOverride| #[trigger]
            after.contains(saved) <==> (list.contains(saved) || saved == item) by {
            if after.contains(saved) {
                let k = after.index_of(saved);
                if k < inner.len() {
                    assert(inner[k] == saved);
                    assert(inner.contains(saved));
                    if front.contains(saved) {
                        assert(list[front.index_of(saved)] == saved);
                    }
                } else {
                    assert(list[list.len() - 1] == saved);
                }
            }
            if list.contains(saved) || saved == item {
                if saved == list.last() {
                    assert(after[inner.len() as int] == saved);
                } else {
                    if list.contains(saved) {
                        let k = list.index_of(saved);
                        assert(front[k] == saved);
                    }
                    assert(inner.contains(saved));
                    assert(after[inner.index_of(saved)] == saved);
                }
            }
        }
    }
}

proof fn ordering_keeps_items(list: Seq<SavedBlockOverride>)
    requires
        positions_differ(list),
    ensures
        overrides_ascend(in_order(list)),
        forall|saved: SavedBlockOverride| #[trigger]
            in_order(list).contains(saved) <==> list.contains(saved),
    decreases list.len(),
{
    if list.len() > 0 {
        let front = list.drop_last();
        assert(positions_differ(front)) by {
            assert forall|i: int, j: int|
                #![trigger front[i], front[j]]
                0 <= i < j < front.len() implies front[i].position != front[j].position by {
                assert(list[i].position != list[j].position);
            }
        }
        ordering_keeps_items(front);
        let sorted = in_order(front);
        assert forall|i: int| 0 <= i < sorted.len() implies (#[trigger] sorted[i]).position
            != list.last().position by {
            assert(sorted.contains(sorted[i]));
            assert(front.contains(sorted[i]));
            let k = front.index_of(sorted[i]);
            assert(list[k].position != list[list.len() - 1].position);
        }
        inserting_keeps_order(sorted, list.last());
        assert forall|saved: SavedBlockOverride| #[trigger]
            in_order(list).contains(saved) <==> list.contains(saved) by {
            if list.contains(saved) {
                let k = list.index_of(saved);
                if k < front.len() {
                    assert(front[k] == saved);
                    assert(front.contains(saved));
                }
            }
            if front.contains(saved) {
                assert(list[front.index_of(saved)] == saved);
            }
            if saved == list.last() {
                assert(list[list.len() - 1] == saved);
            }
            assert(sorted.contains(saved) <==> front.contains(saved));
        }
    }
}

proof fn map_of_ascending(blocks: Seq<SavedBlockOverride>, n: int)
    requires
        overrides_ascend(blocks),
        0 <= n <= blocks.len(),
    ensures
        forall|p: BlockPos| #[trigger]
            override_map(blocks, n).contains_key(p) <==> exists|i: int|
                0 <= i < n && (#[trigger] blocks[i]).position == p,
        forall|i: int|
            0 <= i < n ==> override_map(blocks, n)[(#[trigger] blocks[i]).position]
                == blocks[i].block,
    decreases n,
{
    if n > 0 {
        map_of_ascending(blocks, n - 1);
        assert forall|i: int| 0 <= i < n implies override_map(
            blocks,
            n,
        )[(#[trigger] blocks[i]).position] == blocks[i].block by {
            if i < n - 1 {
                assert(pos_less(blocks[i].position, blocks[n - 1].position));
            }
        }
        assert forall|p: BlockPos| #[trigger]
            override_map(blocks, n).contains_key(p) <==> exists|i: int|
                0 <= i < n && (#[trigger] blocks[i]).position == p by {
            if p == blocks[n - 1].position {
                assert(override_map(blocks, n).contains_key(p));
            } else if override_map(blocks, n - 1).contains_key(p) {
                let i = choose|i: int| 0 <= i < n - 1 && (#[trigger] blocks[i]).position == p;
                assert(blocks[i].position == p);
            }
        }
    }
}

/// A chunk that holds the overrides of a column reads back as exactly these overrides.
pub proof fn saved_chunk_reads_back(
    column: ChunkColumn,
    blocks: Seq<SavedBlockOverride>,
    chunk: AnvilChunk,
)
    requires
        column_fits(column),
        column_overrides(column, blocks),
        chunk_holds(chunk, column, override_map(blocks, blocks.len() as int)),
    ensures
        chunk_overrides(column, chunk) == Ok::<Seq<SavedBlockOverride>, Seq<char>>(blocks),
{
    let overrides = override_map(blocks, blocks.len() as int);
    map_of_ascending(blocks, blocks.len() as int);
    assert(real_map(column, overrides)) by {
        assert forall|p: BlockPos| #[trigger] overrides.contains_key(p) implies real_override(
            column,
            SavedBlockOverride { position: p, block: overrides[p] },
        ) by {
            let i = choose|i: int| 0 <= i < blocks.len() && (#[trigger] blocks[i]).position == p;
            assert(real_override(column, blocks[i]));
            assert(overrides[blocks[i].position] == blocks[i].block);
        }
    }
    run_sections(column, overrides, chunk, 3);
    let list = collected_overrides(column, chunk.sections@, 3)->Ok_0;
    ordering_keeps_items(list);
    assert forall|saved: SavedBlockOverride| #[trigger]
        in_order(list).contains(saved) <==> blocks.contains(saved) by {
        assert(list.contains(saved) <==> (overrides.contains_key(saved.position)
            && overrides[saved.position] == saved.block && in_run(
            column,
            saved,
            run_index(6, 0),
        )));
        if blocks.contains(saved) {
            let i = blocks.index_of(saved);
            assert(blocks[i].position == saved.position);
            assert(real_override(column, blocks[i]));
            let p = saved.position;
            let y = p.y as int / 16;
            let index = (p.y as int % 16) * 256 + (p.z as int % 16) * 16 + p.x as int % 16;
            cell_coords(column, y, index);
            assert(index % 16 == p.x as int % 16);
            assert(index / 256 == p.y as int % 16);
            assert((index / 16) % 16 == p.z as int % 16);
            assert(cell_position(column, y, index).coords() == p.coords());
            assert(is_cell(column, y, index, saved));
            assert(run_index(y, index) < run_index(6, 0));
        }
        if list.contains(saved) {
            let i = choose|i: int|
                0 <= i < blocks.len() && (#[trigger] blocks[i]).position == saved.position;
            assert(overrides[blocks[i].position] == blocks[i].block);
            assert(blocks[i] == saved);
        }
    }
    ascending_lists_agree(in_order(list), blocks);
}

} // verus!
