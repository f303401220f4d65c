//! Where a chunk keeps which block, and which blocks are found when it is read.

use vstd::prelude::*;
use crate::anvil::{
    cell_position, chunk_holds, chunk_overrides, collected_overrides, column_fits, in_order,
    palette_of, palette_states, section_block, section_holds, section_reads_back, section_states,
    with_inserted, with_section_cells, AnvilChunk, AnvilSection,
};
use crate::block::{BlockPos, BlockState, ChunkColumn};
use crate::packing::{entry_bits, unpacked};
use crate::persistence::SavedBlockOverride;
use crate::position_map::pos_less;
use crate::world_command::{base_block, world_bounds};

verus! {

/// A section is sixteen blocks wide, high and deep, and numbers its blocks by x, then z, then y.
pub proof fn sections_number_their_blocks(column: ChunkColumn, section_y: int, i: int, p: BlockPos)
    requires
        column_fits(column),
        -0x800_0000 <= section_y < 0x800_0000,
        0 <= i < 4096,
    ensures
        cell_position(column, section_y, i) == p <==> {
            let x = p.x - 16 * column.x;
            let y = p.y - 16 * section_y;
            let z = p.z - 16 * column.z;
            0 <= x < 16 && 0 <= y < 16 && 0 <= z < 16 && i == 256 * y + 16 * z + x
        },
{
    assert(i == (i / 256) * 256 + ((i / 16) % 16) * 16 + i % 16);
    assert(0 <= i / 256 < 16);
}

/// A chunk that holds the overrides of a column says of every position of its 48 levels, from 48 up,
/// the override where there is one, and the block of the untouched world elsewhere.
pub proof fn chunks_hold_every_block(
    chunk: AnvilChunk,
    column: ChunkColumn,
    overrides: Map<BlockPos, BlockState>,
    p: BlockPos,
)
    requires
        column_fits(column),
        chunk_holds(chunk, column, overrides),
        16 * column.x <= p.x < 16 * column.x + 16,
        16 * column.z <= p.z < 16 * column.z + 16,
        48 <= p.y < 96,
    ensures
        chunk.x_pos == column.x && chunk.z_pos == column.z,
        ({
            let k = if p.y < 64 {
                0int
            } else if p.y < 80 {
                1int
            } else {
                2int
            };
            let section = chunk.sections@[k];
            let x = p.x - 16 * column.x;
            let y = p.y - 16 * section.y;
            let z = p.z - 16 * column.z;
            &&& section.y == 3 + k
            &&& palette_states(
                section.block_states.palette@,
                section.block_states.palette@.len() as int,
            ) matches Ok(palette) && section_block(column, section, palette, 256 * y + 16 * z + x)
                == Ok::<BlockState, Seq<char>>(
                if overrides.contains_key(p) {
                    overrides[p]
                } else {
                    base_block((p.x as int, p.y as int, p.z as int))
                },
            )
        }),
{
    let k = if p.y < 64 {
        0int
    } else if p.y < 80 {
        1int
    } else {
        2int
    };
    let section = chunk.sections@[k];
    let states = section_states(column, 3 + k, overrides);
    assert(section_holds(section, 3 + k, states));
    section_reads_back(column, section, 3 + k, states);
    let x = p.x - 16 * column.x;
    let y = p.y - 16 * section.y;
    let z = p.z - 16 * column.z;
    let i = 256 * y + 16 * z + x;
    sections_number_their_blocks(column, 3 + k, i, p);
    assert(section_block(column, section, palette_of(states, 4096), i) == Ok::<BlockState, Seq<char>>(
        states[i],
    ));
}

/// True iff the override lies in the world and differs from the block of the untouched world.
pub open spec fn is_difference(saved: SavedBlockOverride) -> bool {
    let p = saved.position;
    &&& -256 <= p.x <= 255
    &&& 60 <= p.y <= 95
    &&& -256 <= p.z <= 255
    &&& saved.block != base_block((p.x as int, p.y as int, p.z as int))
}

/// True iff the section says that the block number `i` of it is this override.
pub open spec fn section_says(
    column: ChunkColumn,
    section: AnvilSection,
    i: int,
    saved: SavedBlockOverride,
) -> bool {
    &&& 0 <= i < 4096
    &&& cell_position(column, section.y as int, i) == saved.position
    &&& palette_states(
        section.block_states.palette@,
        section.block_states.palette@.len() as int,
    ) matches Ok(palette) && section_block(column, section, palette, i) == Ok::<
        BlockState,
        Seq<char>,
    >(saved.block)
}

/// True iff one of the first `n` sections says so.
pub open spec fn sections_say(
    column: ChunkColumn,
    sections: Seq<AnvilSection>,
    n: int,
    saved: SavedBlockOverride,
) -> bool {
    exists|k: int, i: int| 0 <= k < n && #[trigger] section_says(column, sections[k], i, saved)
}

proof fn cells_say(
    list: Seq<SavedBlockOverride>,
    column: ChunkColumn,
    section: AnvilSection,
    palette: Seq<BlockState>,
    n: int,
    saved: SavedBlockOverride,
)
    requires
        0 <= n <= 4096,
        palette_states(
            section.block_states.palette@,
            section.block_states.palette@.len() as int,
        ) == Ok::<Seq<BlockState>, Seq<char>>(palette),
        with_section_cells(list, column, section, palette, n) is Ok,
    ensures
        with_section_cells(list, column, section, palette, n)->Ok_0.contains(saved) <==> (
        list.contains(saved) || is_difference(saved) && exists|i: int|
            i < n && #[trigger] section_says(column, section, i, saved)),
    decreases n,
{
    if n > 0 {
        cells_say(list, column, section, palette, n - 1, saved);
        let before = with_section_cells(list, column, section, palette, n - 1)->Ok_0;
        let after = with_section_cells(list, column, section, palette, n)->Ok_0;
        let p = cell_position(column, section.y as int, n - 1);
        let block = section_block(column, section, palette, n - 1)->Ok_0;
        let item = SavedBlockOverride { position: p, block };
        assert(is_difference(item) <==> world_bounds().has(p.coords()) && block != base_block(
            p.coords(),
        ));
        assert(section_says(column, section, n - 1, saved) <==> saved == item);
        if before.contains(saved) {
            let j = choose|j: int| 0 <= j < before.len() && before[j] == saved;
            assert(after[j] == saved);
        }
        if after.contains(saved) && !before.contains(saved) {
            let j = choose|j: int| 0 <= j < after.len() && after[j] == saved;
            if j < before.len() {
                assert(before[j] == saved);
            }
            assert(saved == item);
        }
        if is_difference(item) && saved == item {
            assert(after[before.len() as int] == saved);
        }
    }
}

proof fn sections_are_collected(
    column: ChunkColumn,
    sections: Seq<AnvilSection>,
    n: int,
    saved: SavedBlockOverride,
)
    requires
        0 <= n <= sections.len(),
        collected_overrides(column, sections, n) is Ok,
    ensures
        collected_overrides(column, sections, n)->Ok_0.contains(saved) <==> is_difference(saved)
            && sections_say(column, sections, n, saved),
    decreases n,
{
    if n > 0 {
        let m = n - 1;
        sections_are_collected(column, sections, m, saved);
        let before = collected_overrides(column, sections, m)->Ok_0;
        let section = sections[m];
        let palette = palette_states(
            section.block_states.palette@,
            section.block_states.palette@.len() as int,
        )->Ok_0;
        cells_say(before, column, section, palette, 4096, saved);
        if sections_say(column, sections, m, saved) {
            let (k, i) = choose|k: int, i: int|
                0 <= k < m && #[trigger] section_says(column, sections[k], i, saved);
            assert(section_says(column, sections[k], i, saved));
            assert(sections_say(column, sections, n, saved));
        }
        if sections_say(column, sections, n, saved) {
            let (k, i) = choose|k: int, i: int|
                0 <= k < n && #[trigger] section_says(column, sections[k], i, saved);
            assert(section_says(column, sections[k], i, saved));
            if k < m {
                assert(sections_say(column, sections, m, saved));
            }
        }
    }
}

proof fn inserting_keeps_items(list: Seq<SavedBlockOverride>, item: SavedBlockOverride, saved: SavedBlockOverride)
    ensures
        with_inserted(list, item).contains(saved) <==> list.contains(saved) || saved == item,
        with_inserted(list, item).len() == list.len() + 1,
    decreases list.len(),
{
    let after = with_inserted(list, item);
    if list.len() == 0 || !pos_less(item.position, list.last().position) {
        push_contains(list, item, saved);
    } else {
        let front = list.drop_last();
        inserting_keeps_items(front, item, saved);
        push_contains(with_inserted(front, item), list.last(), saved);
        push_contains(front, list.last(), saved);
        assert(front.push(list.last()) =~= list);
    }
}

proof fn push_contains(list: Seq<SavedBlockOverride>, item: SavedBlockOverride, saved: SavedBlockOverride)
    ensures
        list.push(item).contains(saved) <==> list.contains(saved) || saved == item,
{
    let after = list.push(item);
    if list.contains(saved) {
        let j = choose|j: int| 0 <= j < list.len() && list[j] == saved;
        assert(after[j] == saved);
    }
    assert(after[list.len() as int] == item);
    if after.contains(saved) {
        let j = choose|j: int| 0 <= j < after.len() && after[j] == saved;
        if j < list.len() {
            assert(list[j] == saved);
        }
    }
}

proof fn ordering_loses_nothing(list: Seq<SavedBlockOverride>, saved: SavedBlockOverride)
    ensures
        in_order(list).contains(saved) <==> list.contains(saved),
        in_order(list).len() == list.len(),
    decreases list.len(),
{
    if list.len() > 0 {
        let front = list.drop_last();
        ordering_loses_nothing(front, saved);
        inserting_keeps_items(in_order(front), list.last(), saved);
        push_contains(front, list.last(), saved);
        assert(front.push(list.last()) =~= list);
    }
}

/// Reading a chunk finds exactly the blocks that one of its sections says, that lie in the world and
/// that differ from the untouched world.
pub proof fn reading_finds_the_differences(
    column: ChunkColumn,
    chunk: AnvilChunk,
    saved: SavedBlockOverride,
)
    requires
        chunk_overrides(column, chunk) is Ok,
    ensures
        chunk_overrides(column, chunk)->Ok_0.contains(saved) <==> is_difference(saved)
            && sections_say(column, chunk.sections@, chunk.sections@.len() as int, saved),
{
    let n = chunk.sections@.len() as int;
    sections_are_collected(column, chunk.sections@, n, saved);
    ordering_loses_nothing(collected_overrides(column, chunk.sections@, n)->Ok_0, saved);
}

/// A section without packed data is one block throughout: its palette has that one entry. With data,
/// each block is the entry that its index names; an index past the palette is none.
pub proof fn sections_name_their_blocks(
    column: ChunkColumn,
    section: AnvilSection,
    palette: Seq<BlockState>,
    i: int,
)
    requires
        palette.len() == section.block_states.palette@.len(),
        0 <= i < 4096,
    ensures
        section.block_states.data is None ==> (section_block(column, section, palette, i) is Ok
            <==> palette.len() == 1),
        section_block(column, section, palette, i) matches Ok(block) ==> palette.contains(block),
        section.block_states.data matches Some(words) ==> (section_block(column, section, palette, i)
            is Ok <==> (unpacked(words@, entry_bits(palette.len()), i as nat) matches Some(k) && k
            < palette.len())),
        section.block_states.data matches Some(words) ==> (unpacked(
            words@,
            entry_bits(palette.len()),
            i as nat,
        ) matches Some(k) ==> (k < palette.len() ==> section_block(column, section, palette, i)
            == Ok::<BlockState, Seq<char>>(palette[k as int]))),
{
}

} // verus!
